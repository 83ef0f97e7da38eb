//! Domain types of the order service: menu items, restaurant tables, the
//! request body for adding items, the status message returned by mutating
//! endpoints, and the raw storage rows they are built from.

use vstd::prelude::*;

verus! {

/// A menu item attached to a table's order.
#[derive(Debug)]
pub struct Item {
    pub id: i32,
    pub time_to_prepare: i32,
    pub name: String,
}

/// A restaurant table with its fully materialized item list.
#[derive(Debug)]
pub struct Table {
    pub id: i32,
    pub items: Vec<Item>,
}

/// Body of the add-items request: a table id (as text) and item names.
#[derive(Debug)]
pub struct ItemRequest {
    pub table_id: String,
    pub items: Vec<String>,
}

/// Human-readable outcome of a mutating endpoint.
#[derive(Debug)]
pub struct StatusMessage {
    pub message: String,
}

/// Raw storage row of the `item` relation.
#[derive(Debug)]
pub struct ItemData {
    pub id: i32,
    pub time_to_prepare: i32,
    pub name: String,
}

/// Raw storage row of the `restaurant_table` relation: the item membership is
/// a comma-joined list of item ids kept as text.
#[derive(Debug)]
pub struct TableData {
    pub id: i32,
    pub item_ids: String,
}

/// How a request fails: the storage layer is unreachable, schema creation
/// failed, a statement failed, or a lookup found no row.
#[derive(Debug)]
pub enum ApiError {
    StorageUnavailable,
    SchemaError,
    QueryError(String),
    NotFound,
}

/// Mathematical value of an `Item`.
pub struct ItemView {
    pub id: int,
    pub time_to_prepare: int,
    pub name: Seq<char>,
}

/// Mathematical value of a `Table`.
pub struct TableView {
    pub id: int,
    pub items: Seq<ItemView>,
}

/// Mathematical value of an `ItemData` row.
pub struct ItemDataView {
    pub id: int,
    pub time_to_prepare: int,
    pub name: Seq<char>,
}

/// Mathematical value of a `TableData` row.
pub struct TableDataView {
    pub id: int,
    pub item_ids: Seq<char>,
}

impl View for Item {
    type V = ItemView;

    open spec fn view(&self) -> ItemView {
        ItemView { id: self.id as int, time_to_prepare: self.time_to_prepare as int, name: self.name@ }
    }
}

impl DeepView for Item {
    type V = ItemView;

    open spec fn deep_view(&self) -> ItemView {
        self@
    }
}

impl View for Table {
    type V = TableView;

    open spec fn view(&self) -> TableView {
        TableView { id: self.id as int, items: self.items.deep_view() }
    }
}

impl DeepView for Table {
    type V = TableView;

    open spec fn deep_view(&self) -> TableView {
        self@
    }
}

impl View for ItemData {
    type V = ItemDataView;

    open spec fn view(&self) -> ItemDataView {
        ItemDataView { id: self.id as int, time_to_prepare: self.time_to_prepare as int, name: self.name@ }
    }
}

impl DeepView for ItemData {
    type V = ItemDataView;

    open spec fn deep_view(&self) -> ItemDataView {
        self@
    }
}

impl View for TableData {
    type V = TableDataView;

    open spec fn view(&self) -> TableDataView {
        TableDataView { id: self.id as int, item_ids: self.item_ids@ }
    }
}

impl DeepView for TableData {
    type V = TableDataView;

    open spec fn deep_view(&self) -> TableDataView {
        self@
    }
}

impl ApiError {
    /// HTTP status carried by this error: a missing row is `404`, every
    /// storage-level failure is `500`.
    pub fn status_code(&self) -> (code: u16)
        ensures
            code == self.spec_status_code(),
    {
        match self {
            ApiError::NotFound => 404,
            _ => 500,
        }
    }

    pub open spec fn spec_status_code(&self) -> u16 {
        match self {
            ApiError::NotFound => 404,
            _ => 500,
        }
    }
}

} // verus!
