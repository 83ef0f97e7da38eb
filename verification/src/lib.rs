//! A restaurant order-management backend: clients create tables, attach menu
//! items to a table's order, fetch a table's items, and remove items. A
//! table's membership is kept as a comma-joined id list in one text column;
//! the codec for that list, the step from raw rows to the nested API
//! shapes, the request handlers, and an in-memory model of the store on
//! which the service's laws are proved all live here. Only the calls into
//! the relational store and the random number source are trusted.

pub mod data;
pub mod database;
pub mod handlers;
pub mod idlist;
pub mod laws;
pub mod model;
pub mod numfmt;
pub mod translate;
