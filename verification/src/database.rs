//! The storage accessor: a connection per request, idempotent schema
//! creation, and the parameterized statement primitives. Every call into the
//! relational store goes through a trusted wrapper here; what comes back
//! depends on the store's file, so the wrappers promise nothing about row
//! contents and the verified callers state what holds of every outcome.

use vstd::prelude::*;
use vstd::string::*;
use crate::data::{ApiError, ItemData, TableData};

verus! {

#[verifier::external_type_specification]
#[verifier::external_body]
pub struct ExConnection(rusqlite::Connection);

#[verifier::external_type_specification]
#[verifier::external_body]
pub struct ExStatement<'conn>(rusqlite::Statement<'conn>);

pub fn db_path() -> (p: &'static str) {
    "/tmp/restaurant_orders.sqlite"
}

/// Relies on rusqlite::Connection::open: opens (creating it if absent) the
/// database file at `path`; a failure comes back as the error's text.
#[verifier::external_body]
pub(crate) fn open_connection(path: &str) -> (r: Result<rusqlite::Connection, String>) {
    rusqlite::Connection::open(path).map_err(|e| e.to_string())
}

/// Relies on rusqlite::Connection::prepare: compiles `statement` against the
/// connection; the error's text on failure.
#[verifier::external_body]
pub fn build_statement<'a>(connection: &'a rusqlite::Connection, statement: &str) -> (r: Result<
    rusqlite::Statement<'a>,
    String,
>) {
    connection.prepare(statement).map_err(|e| e.to_string())
}

/// Relies on rusqlite::Connection::execute_batch: runs the statements in
/// `sql`; `Ok` on success, the error's text otherwise.
#[verifier::external_body]
pub(crate) fn exec_batch(conn: &rusqlite::Connection, sql: &str) -> (r: Result<(), String>) {
    conn.execute_batch(sql).map_err(|e| e.to_string())
}

/// Relies on rusqlite::Connection::prepare, rusqlite::Statement::query_map
/// and Iterator::collect: runs `sql` with one bound parameter and converts
/// each selected row into a table row (id, id-list text), in storage order.
#[verifier::external_body]
pub(crate) fn query_table_rows(conn: &rusqlite::Connection, sql: &str, param: &String) -> (r:
    Result<Vec<TableData>, String>) {
    let run = || -> rusqlite::Result<Vec<TableData>> {
        let mut statement = conn.prepare(sql)?;
        let rows = statement.query_map((param,), |row| {
            Ok(TableData { id: row.get(0)?, item_ids: row.get(1)? })
        })?;
        rows.collect()
    };
    run().map_err(|e| e.to_string())
}

/// Relies on rusqlite::Connection::prepare, rusqlite::Statement::query_map
/// and Iterator::collect: runs `sql` without parameters and converts each
/// selected row into a table row, in storage order.
#[verifier::external_body]
pub(crate) fn query_all_table_rows(conn: &rusqlite::Connection, sql: &str) -> (r: Result<
    Vec<TableData>,
    String,
>) {
    let run = || -> rusqlite::Result<Vec<TableData>> {
        let mut statement = conn.prepare(sql)?;
        let rows = statement.query_map((), |row| {
            Ok(TableData { id: row.get(0)?, item_ids: row.get(1)? })
        })?;
        rows.collect()
    };
    run().map_err(|e| e.to_string())
}

/// Relies on rusqlite::Connection::prepare, rusqlite::Statement::query_map
/// and Iterator::collect: runs `sql` without parameters and converts each
/// selected row into an item row (id, name, preparation time), in storage
/// order.
#[verifier::external_body]
pub(crate) fn query_all_item_rows(conn: &rusqlite::Connection, sql: &str) -> (r: Result<
    Vec<ItemData>,
    String,
>) {
    let run = || -> rusqlite::Result<Vec<ItemData>> {
        let mut statement = conn.prepare(sql)?;
        let rows = statement.query_map((), |row| {
            Ok(ItemData { id: row.get(0)?, name: row.get(1)?, time_to_prepare: row.get(2)? })
        })?;
        rows.collect()
    };
    run().map_err(|e| e.to_string())
}

/// Relies on rusqlite::Connection::execute with one bound parameter: runs the
/// statement and hands back how many rows it changed.
#[verifier::external_body]
pub(crate) fn execute_one(conn: &rusqlite::Connection, sql: &str, p1: &String) -> (r: Result<
    usize,
    String,
>) {
    conn.execute(sql, (p1,)).map_err(|e| e.to_string())
}

/// Relies on rusqlite::Connection::execute with two bound parameters: runs
/// the statement and hands back how many rows it changed.
#[verifier::external_body]
pub(crate) fn execute_two(conn: &rusqlite::Connection, sql: &str, p1: &String, p2: &String) -> (r:
    Result<usize, String>) {
    conn.execute(sql, (p1, p2)).map_err(|e| e.to_string())
}

/// Relies on rusqlite::Connection::last_insert_rowid: the row id of the most
/// recent successful insert on this connection; nothing more is promised.
pub assume_specification[ rusqlite::Connection::last_insert_rowid ](
    conn: &rusqlite::Connection,
) -> i64;

/// Creates the `item` and `restaurant_table` relations if they are absent;
/// running it again changes nothing. The result carries the storage layer's
/// exact messages.
pub fn setup_db() -> (r: Result<String, String>)
    ensures
        r matches Ok(m) ==> m@ == "Successfully created database tables."@,
        r matches Err(e) ==> (e@ == "Cannot connect to database."@ || e@
            == "Could not run create table sql"@),
{
    let conn = match open_connection(db_path()) {
        Ok(c) => c,
        Err(_) => {
            return Err(String::from_str("Cannot connect to database."));
        },
    };
    let schema =
        "create table if not exists item (
                id integer primary key,
                name varchar(64) not null,
                preparation_time integer not null
            );
            create table if not exists restaurant_table (
                id integer primary key,
                items varchar(64) not null
            );";
    match exec_batch(&conn, schema) {
        Ok(_) => Ok(String::from_str("Successfully created database tables.")),
        Err(_) => Err(String::from_str("Could not run create table sql")),
    }
}

/// Opens a fresh connection to the storage file, one per request.
pub fn get_connection() -> (r: Result<rusqlite::Connection, ApiError>)
    ensures
        r matches Err(e) ==> e is StorageUnavailable,
{
    match open_connection(db_path()) {
        Ok(c) => Ok(c),
        Err(_) => Err(ApiError::StorageUnavailable),
    }
}

/// Seeds the store for a test: makes sure the schema exists, then runs the
/// given statements. Failures are ignored, so that a helper of the verified
/// library cannot abort the process.
pub fn setup_test_db(statement: &str) {
    let _ = setup_db();
    add_test_items(statement);
}

/// Clears the rows a test seeded.
pub fn close_test_db(statement: &str) {
    delete_test_items(statement);
}

fn add_test_items(statement: &str) {
    match open_connection(db_path()) {
        Ok(conn) => {
            let _ = exec_batch(&conn, statement);
        },
        Err(_) => {},
    }
}

fn delete_test_items(statement: &str) {
    match open_connection(db_path()) {
        Ok(conn) => {
            let _ = exec_batch(&conn, statement);
        },
        Err(_) => {},
    }
}

} // verus!
