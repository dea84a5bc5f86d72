//! Business records for a small shop: catalog, customers, funds and
//! inventory kept in SQLite, with Jalali dates and spreadsheet exchange.

use vstd::prelude::*;

pub mod calendar;
pub mod database;
pub mod date;
pub mod editors;
pub mod forms;
pub mod import;
pub mod models;
pub mod text;
pub mod views;

verus! {

} // verus!
