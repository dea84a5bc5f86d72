//! What a store operation hands to SQLite and what it reads back, kept as a
//! ghost journal: the operations state, over the journal, which statements
//! they ran with which parameters, given the values they read.

use vstd::prelude::*;

use super::sql::{self, Cell, Param};
use super::{lift, query_cells, store_failure, DatabaseError};

verus! {

/// A statement parameter as the journal keeps it.
pub enum ParamView {
    Int(i64),
    Text(Seq<char>),
    Null,
}

pub open spec fn param_view(p: Param) -> ParamView {
    match p {
        Param::Int(v) => ParamView::Int(v),
        Param::Text(t) => ParamView::Text(t@),
        Param::Null => ParamView::Null,
    }
}

pub open spec fn params_view(ps: Seq<Param>) -> Seq<ParamView> {
    ps.map_values(|p: Param| param_view(p))
}

/// One step of an operation: a transaction begun or committed, a statement
/// run (with the number of rows it changed, where the operation reads it),
/// a query and the rows it returned, the id SQLite gave the last inserted
/// row, a pragma set, the busy timeout set (in seconds), or a batch of
/// statements run.
pub enum Entry {
    Begin,
    Commit,
    Run(Seq<char>, Seq<ParamView>),
    Changed(Seq<char>, Seq<ParamView>, nat),
    Read(Seq<char>, Seq<ParamView>, Seq<Seq<Cell>>),
    Rowid(i64),
    Pragma(Seq<char>, Seq<char>),
    Timeout(u64),
    Batch(Seq<char>),
}

pub open spec fn rows_view(rows: Seq<Vec<Cell>>) -> Seq<Seq<Cell>> {
    rows.map_values(|r: Vec<Cell>| r@)
}

/// The integer in the first column of the first row, if it is one.
pub open spec fn first_int(rows: Seq<Seq<Cell>>) -> Option<i64> {
    if rows.len() > 0 && rows[0].len() > 0 && rows[0][0] is Int {
        Some(rows[0][0]->Int_0)
    } else {
        None
    }
}

/// The integer a read of this statement with these parameters returned.
pub open spec fn read_int(e: Entry, sql_text: Seq<char>, args: Seq<ParamView>) -> Option<i64> {
    match e {
        Entry::Read(s, a, rows) => if s == sql_text && a == args {
            first_int(rows)
        } else {
            None
        },
        _ => None,
    }
}

/// The rows a read of this statement with these parameters returned.
pub open spec fn read_rows(e: Entry, sql_text: Seq<char>, args: Seq<ParamView>) -> Option<
    Seq<Seq<Cell>>,
> {
    match e {
        Entry::Read(s, a, rows) => if s == sql_text && a == args {
            Some(rows)
        } else {
            None
        },
        _ => None,
    }
}

/// The first row a read of this statement with these parameters returned.
pub open spec fn first_row(e: Entry, sql_text: Seq<char>, args: Seq<ParamView>) -> Option<
    Seq<Cell>,
> {
    match read_rows(e, sql_text, args) {
        Some(rows) => if rows.len() > 0 {
            Some(rows[0])
        } else {
            None
        },
        None => None,
    }
}

/// An optional text parameter as the journal keeps it.
pub open spec fn opt_text_view(t: Option<Seq<char>>) -> ParamView {
    match t {
        Some(s) => ParamView::Text(s),
        None => ParamView::Null,
    }
}

/// How many of the flags are set.
pub open spec fn true_count(flags: Seq<bool>) -> nat
    decreases flags.len(),
{
    if flags.len() == 0 {
        0
    } else {
        true_count(flags.drop_last()) + if flags.last() {
            1nat
        } else {
            0nat
        }
    }
}

/// Integer parameters as the journal keeps them.
pub open spec fn ints_view(vs: Seq<i64>) -> Seq<ParamView> {
    vs.map_values(|v: i64| ParamView::Int(v))
}

/// A statement with integer parameters, as the journal keeps it.
pub open spec fn run_ints(sql_text: Seq<char>, args: Seq<i64>) -> Entry {
    Entry::Run(sql_text, ints_view(args))
}

/// Integer parameters are kept as their integers.
pub proof fn lemma_ints_view(ps: Seq<Param>, vs: Seq<i64>)
    requires
        ps.len() == vs.len(),
        forall|k: int| 0 <= k < ps.len() ==> ps[k] == Param::Int(#[trigger] vs[k]),
    ensures
        params_view(ps) == ints_view(vs),
{
    assert(params_view(ps) =~= ints_view(vs));
}

pub(crate) fn begin_in<'c>(conn: &'c rusqlite::Connection, log: &mut Ghost<Seq<Entry>>) -> (r:
    Result<rusqlite::Transaction<'c>, DatabaseError>)
    ensures
        r is Ok ==> final(log)@ == old(log)@.push(Entry::Begin),
        r is Err ==> store_failure(r),
{
    let tx = lift(sql::begin(conn))?;
    *log = Ghost(log@.push(Entry::Begin));
    Ok(tx)
}

pub(crate) fn commit_in(tx: rusqlite::Transaction<'_>, log: &mut Ghost<Seq<Entry>>) -> (r: Result<
    (),
    DatabaseError,
>)
    ensures
        r is Ok ==> final(log)@ == old(log)@.push(Entry::Commit),
        r is Err ==> store_failure(r),
{
    lift(sql::commit(tx))?;
    *log = Ghost(log@.push(Entry::Commit));
    Ok(())
}

/// Runs a statement; the number of changed rows.
pub(crate) fn run_in(
    conn: &rusqlite::Connection,
    sql_text: &str,
    args: Vec<Param>,
    log: &mut Ghost<Seq<Entry>>,
) -> (r: Result<usize, DatabaseError>)
    ensures
        r is Ok ==> final(log)@ == old(log)@.push(Entry::Run(sql_text@, params_view(args@))),
        r is Err ==> store_failure(r),
{
    let ghost a = args@;
    let n = lift(sql::execute(conn, sql_text, args))?;
    *log = Ghost(log@.push(Entry::Run(sql_text@, params_view(a))));
    Ok(n)
}

/// Runs a statement; the number of changed rows, which the journal keeps.
pub(crate) fn run_count_in(
    conn: &rusqlite::Connection,
    sql_text: &str,
    args: Vec<Param>,
    log: &mut Ghost<Seq<Entry>>,
) -> (r: Result<usize, DatabaseError>)
    ensures
        r matches Ok(n) ==> final(log)@ == old(log)@.push(
            Entry::Changed(sql_text@, params_view(args@), n as nat),
        ),
        r is Err ==> store_failure(r),
{
    let ghost a = args@;
    let n = lift(sql::execute(conn, sql_text, args))?;
    *log = Ghost(log@.push(Entry::Changed(sql_text@, params_view(a), n as nat)));
    Ok(n)
}

/// Runs a query and reads `columns` cells of every row.
pub(crate) fn read_in(
    conn: &rusqlite::Connection,
    sql_text: &str,
    args: Vec<Param>,
    columns: usize,
    log: &mut Ghost<Seq<Entry>>,
) -> (r: Result<Vec<Vec<Cell>>, DatabaseError>)
    ensures
        r matches Ok(rows) ==> (forall|i: int| 0 <= i < rows.len() ==> #[trigger] rows[i].len()
            == columns) && final(log)@ == old(log)@.push(
            Entry::Read(sql_text@, params_view(args@), rows_view(rows@)),
        ),
        r is Err ==> store_failure(r),
{
    let ghost a = args@;
    let rows = query_cells(conn, sql_text, args, columns)?;
    *log = Ghost(log@.push(Entry::Read(sql_text@, params_view(a), rows_view(rows@))));
    Ok(rows)
}

/// A single integer that a query must return.
pub(crate) fn read_int_in(
    conn: &rusqlite::Connection,
    sql_text: &str,
    args: Vec<Param>,
    log: &mut Ghost<Seq<Entry>>,
) -> (r: Result<i64, DatabaseError>)
    ensures
        r matches Ok(v) ==> final(log)@.len() == old(log)@.len() + 1 && final(log)@.drop_last()
            == old(log)@ && read_int(final(log)@.last(), sql_text@, params_view(args@)) == Some(v),
        r is Err ==> store_failure(r),
{
    let ghost a = args@;
    let rows = read_in(conn, sql_text, args, 1, log)?;
    if rows.len() == 0 {
        return Err(DatabaseError::Sql(sql::no_rows()));
    }
    match &rows[0][0] {
        Cell::Int(v) => {
            let ghost rv = rows_view(rows@);
            assert(rv[0] == rows@[0]@);
            assert(rows[0].len() == 1);
            assert(rv[0][0] == Cell::Int(*v));
            assert(first_int(rv) == Some(*v));
            assert(log@.last() == Entry::Read(sql_text@, params_view(a), rv));
            assert(log@.drop_last() =~= old(log)@);
            Ok(*v)
        },
        _ => Err(super::unexpected_column()),
    }
}

/// The first row that a query must return.
pub(crate) fn read_first_in(
    conn: &rusqlite::Connection,
    sql_text: &str,
    args: Vec<Param>,
    columns: usize,
    log: &mut Ghost<Seq<Entry>>,
) -> (r: Result<Vec<Cell>, DatabaseError>)
    ensures
        r matches Ok(row) ==> row.len() == columns && final(log)@.len() == old(log)@.len() + 1
            && final(log)@.drop_last() == old(log)@ && first_row(
            final(log)@.last(),
            sql_text@,
            params_view(args@),
        ) == Some(row@),
        r is Err ==> store_failure(r),
{
    let ghost a = args@;
    let mut rows = read_in(conn, sql_text, args, columns, log)?;
    let ghost rv = rows_view(rows@);
    if rows.len() == 0 {
        return Err(DatabaseError::Sql(sql::no_rows()));
    }
    let first = rows.swap_remove(0);
    assert(rv[0] == first@);
    assert(log@.drop_last() =~= old(log)@);
    Ok(first)
}

/// Sets a pragma of the main schema.
pub(crate) fn pragma_in(
    conn: &rusqlite::Connection,
    name: &str,
    value: &str,
    log: &mut Ghost<Seq<Entry>>,
) -> (r: Result<(), DatabaseError>)
    ensures
        r is Ok ==> final(log)@ == old(log)@.push(Entry::Pragma(name@, value@)),
        r is Err ==> store_failure(r),
{
    lift(sql::pragma_update(conn, name, value))?;
    *log = Ghost(log@.push(Entry::Pragma(name@, value@)));
    Ok(())
}

/// Sets the busy timeout in whole seconds.
pub(crate) fn timeout_in(conn: &rusqlite::Connection, seconds: u64, log: &mut Ghost<Seq<Entry>>) -> (r:
    Result<(), DatabaseError>)
    requires
        seconds <= 2147483,
    ensures
        r is Ok ==> final(log)@ == old(log)@.push(Entry::Timeout(seconds)),
        r is Err ==> store_failure(r),
{
    lift(sql::busy_timeout(conn, seconds))?;
    *log = Ghost(log@.push(Entry::Timeout(seconds)));
    Ok(())
}

/// Runs a batch of statements.
pub(crate) fn batch_in(conn: &rusqlite::Connection, sql_text: &str, log: &mut Ghost<Seq<Entry>>) -> (r:
    Result<(), DatabaseError>)
    ensures
        r is Ok ==> final(log)@ == old(log)@.push(Entry::Batch(sql_text@)),
        r is Err ==> store_failure(r),
{
    lift(sql::execute_batch(conn, sql_text))?;
    *log = Ghost(log@.push(Entry::Batch(sql_text@)));
    Ok(())
}

/// The id SQLite gave the last inserted row.
pub(crate) fn rowid_in(conn: &rusqlite::Connection, log: &mut Ghost<Seq<Entry>>) -> (r: i64)
    ensures
        final(log)@ == old(log)@.push(Entry::Rowid(r)),
{
    let id = sql::last_insert_rowid(conn);
    *log = Ghost(log@.push(Entry::Rowid(id)));
    id
}


/// Two statements with integer parameters are the same only with the same
/// text and the same integers.
pub proof fn lemma_run_ints_same(a: Seq<char>, x: Seq<i64>, b: Seq<char>, y: Seq<i64>)
    requires
        run_ints(a, x) == run_ints(b, y),
        x.len() == y.len(),
    ensures
        a == b,
        x == y,
{
    assert forall|k: int| 0 <= k < x.len() implies x[k] == y[k] by {
        assert(ints_view(x)[k] == ints_view(y)[k]);
    }
    assert(x =~= y);
}

} // verus!
