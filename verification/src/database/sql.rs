//! The calls into SQLite. Each trusted function here makes one call of
//! `rusqlite` and only converts its arguments and result; what a statement
//! reads or changes depends on the database's contents, so nothing is
//! promised of the values that come back beyond their shape. Statement
//! parameters are built as `Param`s, which the calls hand to SQLite as the
//! `rusqlite` values of the same variant.

use vstd::prelude::*;

verus! {

#[verifier::external_type_specification]
#[verifier::external_body]
pub struct ExConnection(rusqlite::Connection);

#[verifier::external_type_specification]
#[verifier::external_body]
pub struct ExSqlError(rusqlite::Error);

#[verifier::external_type_specification]
#[verifier::external_body]
pub struct ExSqlValue(rusqlite::types::Value);

#[verifier::external_type_specification]
#[verifier::external_body]
pub struct ExTransaction<'c>(rusqlite::Transaction<'c>);

/// A column value as the library reads it; floating-point and blob values,
/// which no table of the schema holds, read as `Other`.
#[derive(Debug, Clone, PartialEq, Eq)]
pub enum Cell {
    Int(i64),
    Text(String),
    Null,
    Other,
}

/// Calls `Connection::open_in_memory`.
#[verifier::external_body]
pub(crate) fn open_in_memory() -> (r: Result<rusqlite::Connection, rusqlite::Error>) {
    rusqlite::Connection::open_in_memory()
}

/// Calls `Connection::open` on a file path.
#[verifier::external_body]
pub(crate) fn open_file(path: &str) -> (r: Result<rusqlite::Connection, rusqlite::Error>) {
    rusqlite::Connection::open(path)
}

/// Calls `Connection::execute` with positional parameters, each `Param`
/// handed over as the `rusqlite` value of the same variant.
#[verifier::external_body]
pub(crate) fn execute(conn: &rusqlite::Connection, sql: &str, args: Vec<Param>) -> (r:
    Result<usize, rusqlite::Error>) {
    conn.execute(sql, rusqlite::params_from_iter(args.into_iter().map(|p| match p {
        Param::Int(v) => rusqlite::types::Value::Integer(v),
        Param::Text(t) => rusqlite::types::Value::Text(t),
        Param::Null => rusqlite::types::Value::Null,
    })))
}

/// Calls `Connection::execute_batch`.
#[verifier::external_body]
pub(crate) fn execute_batch(conn: &rusqlite::Connection, sql: &str) -> (r: Result<(), rusqlite::Error>) {
    conn.execute_batch(sql)
}

/// Calls `Connection::pragma_update` on the main schema with a text value.
#[verifier::external_body]
pub(crate) fn pragma_update(conn: &rusqlite::Connection, name: &str, value: &str) -> (r: Result<
    (),
    rusqlite::Error,
>) {
    conn.pragma_update(None, name, value)
}

/// Calls `Connection::busy_timeout` with a timeout in whole seconds. The
/// call panics when the timeout in milliseconds leaves `i32`, so the
/// seconds are bounded.
#[verifier::external_body]
pub(crate) fn busy_timeout(conn: &rusqlite::Connection, seconds: u64) -> (r: Result<(), rusqlite::Error>)
    requires
        seconds <= 2147483,
{
    conn.busy_timeout(std::time::Duration::from_secs(seconds))
}

/// Calls `Connection::last_insert_rowid`.
#[verifier::external_body]
pub(crate) fn last_insert_rowid(conn: &rusqlite::Connection) -> (r: i64) {
    conn.last_insert_rowid()
}

/// Calls `Statement::query_map` on a prepared query (the parameters handed
/// over as for `execute`) and reads the first
/// `columns` values of every row. On success each row holds exactly
/// `columns` values (reading a column past the end is an error).
#[verifier::external_body]
pub(crate) fn query(conn: &rusqlite::Connection, sql: &str, args: Vec<Param>, columns: usize) -> (r: Result<Vec<Vec<rusqlite::types::Value>>, rusqlite::Error>)
    ensures
        r matches Ok(rows) ==> forall|i: int| 0 <= i < rows.len() ==> #[trigger] rows[i].len() == columns,
{
    let mut statement = conn.prepare(sql)?;
    let values = args.into_iter().map(|p| match p {
        Param::Int(v) => rusqlite::types::Value::Integer(v),
        Param::Text(t) => rusqlite::types::Value::Text(t),
        Param::Null => rusqlite::types::Value::Null,
    });
    let rows = statement.query_map(rusqlite::params_from_iter(values), |row| {
        (0..columns).map(|i| row.get::<usize, rusqlite::types::Value>(i)).collect()
    })?;
    rows.collect()
}

/// Calls `Connection::unchecked_transaction`: a deferred transaction that
/// rolls back when dropped without a commit.
#[verifier::external_body]
pub(crate) fn begin(conn: &rusqlite::Connection) -> (r: Result<rusqlite::Transaction<'_>, rusqlite::Error>) {
    conn.unchecked_transaction()
}

/// Calls `Transaction::commit`.
#[verifier::external_body]
pub(crate) fn commit(tx: rusqlite::Transaction<'_>) -> (r: Result<(), rusqlite::Error>) {
    tx.commit()
}

/// The connection a transaction runs on (`Transaction`'s `Deref`).
#[verifier::external_body]
pub(crate) fn within<'a>(tx: &'a rusqlite::Transaction<'_>) -> (r: &'a rusqlite::Connection) {
    tx
}

/// `rusqlite::Error::QueryReturnedNoRows`, the error `query_row` gives when
/// a query that must return a row returns none.
#[verifier::external_body]
pub(crate) fn no_rows() -> (r: rusqlite::Error) {
    rusqlite::Error::QueryReturnedNoRows
}

/// Calls `rusqlite::Error`'s `Display`.
#[verifier::external_body]
pub(crate) fn error_text(e: &rusqlite::Error) -> (r: String) {
    e.to_string()
}

/// A statement parameter: an integer, a text or NULL.
#[derive(Debug, Clone, PartialEq, Eq)]
pub enum Param {
    Int(i64),
    Text(String),
    Null,
}

/// An integer parameter.
pub(crate) fn integer(v: i64) -> (r: Param)
    ensures
        r == Param::Int(v),
{
    Param::Int(v)
}

/// A boolean parameter, stored as 1 or 0 as SQLite stores booleans.
pub(crate) fn boolean(v: bool) -> (r: Param)
    ensures
        r == Param::Int(if v { 1 } else { 0 }),
{
    Param::Int(if v { 1 } else { 0 })
}

/// A text parameter.
pub(crate) fn text(v: String) -> (r: Param)
    ensures
        r == Param::Text(v),
{
    Param::Text(v)
}

/// A text parameter, or NULL for none.
pub(crate) fn opt_text(v: Option<String>) -> (r: Param)
    ensures
        r == (match v {
            Some(t) => Param::Text(t),
            None => Param::Null,
        }),
{
    match v {
        Some(t) => Param::Text(t),
        None => Param::Null,
    }
}

/// An integer parameter, or NULL for none.
pub(crate) fn opt_int(v: Option<i64>) -> (r: Param)
    ensures
        r == (match v {
            Some(i) => Param::Int(i),
            None => Param::Null,
        }),
{
    match v {
        Some(i) => Param::Int(i),
        None => Param::Null,
    }
}

/// Tells the variants of a read `Value` apart.
#[verifier::external_body]
pub(crate) fn cell_of(v: &rusqlite::types::Value) -> (r: Cell) {
    match v {
        rusqlite::types::Value::Integer(i) => Cell::Int(*i),
        rusqlite::types::Value::Text(s) => Cell::Text(s.clone()),
        rusqlite::types::Value::Null => Cell::Null,
        rusqlite::types::Value::Real(_) => Cell::Other,
        rusqlite::types::Value::Blob(_) => Cell::Other,
    }
}

} // verus!
