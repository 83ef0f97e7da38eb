//! One handler per operation: list tables, get one table, get one item
//! within a table, add items, remove an item. Each handler fetches rows
//! through the trusted storage primitives and then hands every decision to a
//! function with an exact contract over those rows: which row is picked, when
//! the answer is `NotFound` (the API's 404), how the id list handed back to
//! the store is built, and what each response holds. No input aborts the
//! process.

use vstd::prelude::*;
use vstd::string::*;
use crate::data::{ApiError, Item, ItemData, ItemRequest, StatusMessage, Table, TableData,
    TableDataView};
use crate::database::{execute_one, execute_two, get_connection, open_connection, db_path,
    query_all_item_rows, query_all_table_rows, query_table_rows};
use crate::idlist::{ids_without, join_ids, split_ids};
use crate::numfmt::{dec_str, i64_to_string, u64_to_string};
use crate::translate::{materialize_table, materialize_tables, select_item_in_table,
    select_item_spec, table_view_of};

verus! {

/// The shortest preparation time a new item can be assigned, in minutes.
pub const MIN_PREP_MINUTES: i32 = 5;

/// The longest preparation time a new item can be assigned, in minutes.
pub const MAX_PREP_MINUTES: i32 = 15;

/// Relies on rand::thread_rng and rand::Rng::gen_range: a uniform draw from
/// the inclusive range.
#[verifier::external_body]
fn random_in_range(lo: i32, hi: i32) -> (r: i32)
    requires
        lo <= hi,
    ensures
        lo <= r <= hi,
{
    rand::Rng::gen_range(&mut rand::thread_rng(), lo..=hi)
}

/// Decides the fetch-one-table response from what storage returned: the
/// first fetched row materialized against the item rows, or `NotFound` when
/// no row came back.
pub fn table_response(rows: &Vec<TableData>, item_rows: &Vec<ItemData>) -> (r: Result<
    Table,
    ApiError,
>)
    ensures
        r is Err <==> rows@.len() == 0,
        r matches Err(e) ==> e is NotFound,
        r matches Ok(t) ==> t@ == table_view_of(rows.deep_view()[0], item_rows.deep_view()),
{
    if rows.len() == 0 {
        Err(ApiError::NotFound)
    } else {
        proof {
            assert(rows.deep_view()[0] == rows@[0]@);
        }
        Ok(materialize_table(&rows[0], item_rows))
    }
}

/// Decides the fetch-one-item response from what storage returned: the entry
/// of the first fetched row's id list equal to `item`, resolved against the
/// item rows; `NotFound` when no row came back, when the list holds no such
/// entry, and when the entry resolves to no item row.
pub fn item_response(rows: &Vec<TableData>, item: &String, item_rows: &Vec<ItemData>) -> (r: Result<
    Item,
    ApiError,
>)
    ensures
        r is Err <==> (rows@.len() == 0 || select_item_spec(
            rows.deep_view()[0].item_ids,
            item@,
            item_rows.deep_view(),
        ) is None),
        r matches Err(e) ==> e is NotFound,
        r matches Ok(it) ==> rows@.len() > 0 && select_item_spec(
            rows.deep_view()[0].item_ids,
            item@,
            item_rows.deep_view(),
        ) == Some(it@),
{
    if rows.len() == 0 {
        return Err(ApiError::NotFound);
    }
    proof {
        assert(rows.deep_view()[0] == rows@[0]@);
    }
    match select_item_in_table(&rows[0], item, item_rows) {
        Some(it) => Ok(it),
        None => Err(ApiError::NotFound),
    }
}

/// Lists every table with its materialized items, in storage order: one
/// `Table` per fetched table row, as `tables_view_of` describes.
pub fn get_all_tables() -> (r: Result<Vec<Table>, ApiError>)
    ensures
        r matches Err(e) ==> (e is StorageUnavailable || e is QueryError),
{
    let conn = match get_connection() {
        Ok(c) => c,
        Err(e) => {
            return Err(e);
        },
    };
    let rows = match query_all_table_rows(&conn, "select * from restaurant_table;") {
        Ok(rows) => rows,
        Err(_) => {
            return Err(ApiError::QueryError(String::from_str("Failed to fetch items.")));
        },
    };
    let item_rows = match query_all_item_rows(&conn, "select * from item;") {
        Ok(rows) => rows,
        Err(_) => {
            return Err(ApiError::QueryError(String::from_str("Failed to fetch items.")));
        },
    };
    Ok(materialize_tables(&rows, &item_rows))
}

/// Fetches one table with its items. The response is decided by
/// `table_response` over the fetched rows: a table id that matches no stored
/// row answers `NotFound`, never a crash.
pub fn get_items_for_table(table: String) -> (r: Result<Table, ApiError>)
    ensures
        r matches Err(e) ==> (e is StorageUnavailable || e is QueryError || e is NotFound),
{
    let conn = match get_connection() {
        Ok(c) => c,
        Err(e) => {
            return Err(e);
        },
    };
    let rows = match query_table_rows(
        &conn,
        "select * from restaurant_table where id = $1;",
        &table,
    ) {
        Ok(rows) => rows,
        Err(_) => {
            return Err(ApiError::QueryError(String::from_str("Failed to fetch items.")));
        },
    };
    let item_rows = match query_all_item_rows(&conn, "select * from item;") {
        Ok(rows) => rows,
        Err(_) => {
            return Err(ApiError::QueryError(String::from_str("Failed to fetch items.")));
        },
    };
    table_response(&rows, &item_rows)
}

/// Fetches the one item the table's id list holds under exactly `item`. The
/// response is decided by `item_response` over the fetched rows: a missing
/// table, a list without that entry, and an entry that resolves to no stored
/// item all answer `NotFound`.
pub fn get_item_for_table(table: String, item: String) -> (r: Result<Item, ApiError>)
    ensures
        r matches Err(e) ==> (e is StorageUnavailable || e is QueryError || e is NotFound),
{
    let conn = match get_connection() {
        Ok(c) => c,
        Err(e) => {
            return Err(e);
        },
    };
    let rows = match query_table_rows(
        &conn,
        "select * from restaurant_table where id = $1;",
        &table,
    ) {
        Ok(rows) => rows,
        Err(_) => {
            return Err(ApiError::QueryError(String::from_str("Failed to fetch items.")));
        },
    };
    let item_rows = match query_all_item_rows(&conn, "select * from item;") {
        Ok(rows) => rows,
        Err(_) => {
            return Err(ApiError::QueryError(String::from_str("Failed to fetch items.")));
        },
    };
    item_response(&rows, &item, &item_rows)
}

/// Adds the named items: each gets a uniformly drawn preparation time
/// between `MIN_PREP_MINUTES` and `MAX_PREP_MINUTES` and a fresh row, and the
/// new ids, comma-joined, go to the table named by the request.
pub fn add_item(request: ItemRequest) -> (r: Result<StatusMessage, ApiError>)
    ensures
        r matches Ok(sm) ==> exists|c: nat| sm.message@ == dec_str(c) + " rows inserted."@,
        r matches Err(e) ==> (e is StorageUnavailable || e is QueryError),
{
    let conn = match get_connection() {
        Ok(c) => c,
        Err(e) => {
            return Err(e);
        },
    };
    let mut new_ids: Vec<String> = Vec::new();
    let mut i: usize = 0;
    while i < request.items.len()
        decreases request.items.len() - i,
    {
        let time = random_in_range(MIN_PREP_MINUTES, MAX_PREP_MINUTES);
        let time_text = i64_to_string(time as i64);
        match execute_two(
            &conn,
            "insert into item (id, name, preparation_time) values (null, $1, $2);",
            &request.items[i],
            &time_text,
        ) {
            Ok(_) => {},
            Err(_) => {
                return Err(ApiError::QueryError(String::from_str("Failed to insert into items.")));
            },
        }
        let rid = conn.last_insert_rowid();
        new_ids.push(i64_to_string(rid));
        i += 1;
    }
    let joined = join_ids(&new_ids);
    match add_item_to_table(joined.as_str(), request.table_id.as_str()) {
        Ok(result) => Ok(StatusMessage { message: result }),
        Err(_) => Err(ApiError::QueryError(String::from_str("Failed to insert into items."))),
    }
}

/// The prefix the add path builds from the fetched table rows: every row's id
/// list followed by a separator.
pub open spec fn joined_lists(rows: Seq<TableDataView>) -> Seq<char>
    decreases rows.len(),
{
    if rows.len() == 0 {
        Seq::<char>::empty()
    } else {
        rows[0].item_ids + seq![','] + joined_lists(rows.drop_first())
    }
}

proof fn lemma_joined_lists_push(rows: Seq<TableDataView>, p: TableDataView)
    ensures
        joined_lists(rows + seq![p]) == joined_lists(rows) + p.item_ids + seq![','],
    decreases rows.len(),
{
    let w = rows + seq![p];
    if rows.len() == 0 {
        assert(w =~~= seq![p]);
        assert(w[0] == p);
        assert(w.drop_first() =~~= Seq::<TableDataView>::empty());
        assert(rows =~~= Seq::<TableDataView>::empty());
        assert(joined_lists(Seq::<TableDataView>::empty()) == Seq::<char>::empty());
        assert(joined_lists(w) =~= joined_lists(rows) + p.item_ids + seq![',']);
    } else {
        lemma_joined_lists_push(rows.drop_first(), p);
        assert(w.drop_first() =~~= rows.drop_first() + seq![p]);
        assert(w[0] == rows[0]);
        assert(joined_lists(w) == w[0].item_ids + seq![','] + joined_lists(w.drop_first()));
        assert(joined_lists(rows) == rows[0].item_ids + seq![','] + joined_lists(
            rows.drop_first(),
        ));
        assert(joined_lists(w.drop_first()) == joined_lists(rows.drop_first()) + p.item_ids + seq![
            ',',
        ]);
        assert(joined_lists(w) =~= joined_lists(rows) + p.item_ids + seq![',']);
    }
}

/// Builds the id list handed back to the store on an add: every fetched
/// row's id list, each followed by a separator, then the fresh comma-joined
/// ids. With no fetched row it is exactly the fresh ids.
fn build_merged_id_list(rows: &Vec<TableData>, new_ids: &str) -> (r: String)
    ensures
        r@ == joined_lists(rows.deep_view()) + new_ids@,
{
    let mut acc = String::new();
    let mut i: usize = 0;
    proof {
        assert(rows.deep_view().take(0) =~~= Seq::<TableDataView>::empty());
        assert(acc@ =~= joined_lists(rows.deep_view().take(0)));
    }
    while i < rows.len()
        invariant
            i <= rows.len(),
            rows.deep_view().len() == rows.len(),
            acc@ == joined_lists(rows.deep_view().take(i as int)),
        decreases rows.len() - i,
    {
        let ghost prefix = rows.deep_view().take(i as int);
        proof {
            assert(rows.deep_view().take(i as int + 1) =~~= prefix + seq![
                rows.deep_view()[i as int],
            ]);
            lemma_joined_lists_push(prefix, rows.deep_view()[i as int]);
            assert(rows.deep_view()[i as int] == rows@[i as int]@);
            reveal_strlit(",");
        }
        acc.append(rows[i].item_ids.as_str());
        acc.append(",");
        proof {
            assert(","@ =~= seq![',']);
            assert(acc@ =~= joined_lists(rows.deep_view().take(i as int + 1)));
        }
        i += 1;
    }
    proof {
        assert(rows.deep_view().take(rows.len() as int) =~~= rows.deep_view());
    }
    acc.append(new_ids);
    acc
}

/// Hands the freshly created ids to the table whose id matches `table_id`:
/// the list written back is `build_merged_id_list` of the fetched rows and
/// the fresh ids — appended after the matched row's list, or the whole list
/// of a new table row when none matches. The success message reports the
/// changed row count; every failure carries the storage error's text.
pub fn add_item_to_table(item_id: &str, table_id: &str) -> (r: Result<String, String>)
    ensures
        r matches Ok(m) ==> exists|c: nat| m@ == dec_str(c) + " rows inserted."@,
        r matches Err(e) ==> exists|d: Seq<char>| e@ == "Failed with error: "@ + d,
{
    let conn = match open_connection(db_path()) {
        Ok(c) => c,
        Err(e) => {
            return Err(error_message(&e));
        },
    };
    let table_id_string = String::from_str(table_id);
    let rows = match query_table_rows(
        &conn,
        "select * from restaurant_table where id = $1;",
        &table_id_string,
    ) {
        Ok(rows) => rows,
        Err(e) => {
            return Err(error_message(&e));
        },
    };
    let items = build_merged_id_list(&rows, item_id);
    if rows.len() == 0 {
        match execute_one(
            &conn,
            "insert into restaurant_table (id,items) values (null, $1);",
            &items,
        ) {
            Ok(count) => Ok(rows_message(count, " rows inserted.")),
            Err(e) => Err(error_message(&e)),
        }
    } else {
        match execute_two(
            &conn,
            "update restaurant_table set items = $1 where id = $2;",
            &items,
            &table_id_string,
        ) {
            Ok(count) => Ok(rows_message(count, " rows inserted.")),
            Err(e) => Err(error_message(&e)),
        }
    }
}

/// Removes the item from the table's id list, re-joining the remaining ids
/// with commas, then deletes the item's row. The success message reports how
/// many item rows the delete removed.
pub fn remove_item(table: String, item: String) -> (r: Result<StatusMessage, ApiError>)
    ensures
        r matches Ok(sm) ==> exists|c: nat| sm.message@ == dec_str(c) + " rows deleted."@,
        r matches Err(e) ==> (e is StorageUnavailable || e is QueryError),
{
    let conn = match get_connection() {
        Ok(c) => c,
        Err(e) => {
            return Err(e);
        },
    };
    let mut updated_items = String::new();
    match query_table_rows(&conn, "select * from restaurant_table where id = $1;", &table) {
        Ok(rows) => {
            if rows.len() > 0 {
                let ids = split_ids(rows[0].item_ids.as_str());
                let remaining = ids_without(&ids, &item);
                let joined = join_ids(&remaining);
                updated_items.append(joined.as_str());
            }
        },
        Err(_) => {},
    }
    match execute_two(
        &conn,
        "update restaurant_table set items = $1 where id = $2;",
        &updated_items,
        &table,
    ) {
        Ok(_) => {
            match delete_item(&conn, item) {
                Ok(message) => Ok(StatusMessage { message }),
                Err(e) => Err(ApiError::QueryError(e)),
            }
        },
        Err(e) => Err(ApiError::QueryError(error_message(&e))),
    }
}

fn delete_item(connection: &rusqlite::Connection, id: String) -> (r: Result<String, String>)
    ensures
        r matches Ok(m) ==> exists|c: nat| m@ == dec_str(c) + " rows deleted."@,
        r matches Err(e) ==> e@ == "Failed to delete into items."@,
{
    match execute_one(connection, "delete from item where id = $1;", &id) {
        Ok(rows_affected) => Ok(rows_message(rows_affected, " rows deleted.")),
        Err(_) => Err(String::from_str("Failed to delete into items.")),
    }
}

/// Renders a changed-row count followed by the given tail, e.g. a count of 1
/// and `" rows inserted."`.
fn rows_message(count: usize, tail: &str) -> (m: String)
    ensures
        m@ == dec_str(count as nat) + tail@,
{
    let mut m = u64_to_string(count as u64);
    m.append(tail);
    m
}

fn error_message(detail: &String) -> (m: String)
    ensures
        m@ == "Failed with error: "@ + detail@,
{
    let mut m = String::from_str("Failed with error: ");
    m.append(detail.as_str());
    m
}

} // verus!
