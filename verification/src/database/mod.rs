//! Persistence in SQLite: the catalog, customers and their balances, fund
//! accounts, transactions and scheduled checks, warehouses, stock levels,
//! FIFO cost layers and the movement history.

pub mod sql;

mod catalog;
mod costing;
mod customer;
mod fund;
mod inventory;
pub mod journal;
mod schema;

pub use catalog::{
    decode_catalog_record, make_sku_candidate, resolved_sku, sku_candidate, supplied_code,
    CatalogDraft, CatalogImportResult, CatalogRecord,
};
pub use costing::{
    adjustment_for, adjustment_reaches_target, allocate_fifo, available_total, cost_sum,
    draws_match, fifo_costs_fit, fifo_draws_what_the_layers_hold, fifo_shortfall, fifo_used,
    fifo_uses_earlier_layers_whole, inbound_total, inbound_total_of, issuable,
    level_after_layer_leaves, milliunit_cost, min_of, movement_kind, next_stock,
    receipt_then_issue_restores_stock, restocked_level, revised_acquired,
    revised_acquired_quantity, stock_adjustment, stock_after, sum_of, transfer_cost, Allocation,
    CostLayer, FifoPlan,
};
pub use customer::{
    adjusted_balance, adjustment_is_undone_by_its_opposite, balance_after_adjustment,
    balance_entry_kind, customer_kind_known, decode_customer_record, entry_kind,
    validate_customer_draft, CustomerDraft, CustomerRecord,
};
pub use fund::{
    account_draft_error, account_kind_known, check_draft_acceptable, check_draft_is_acceptable,
    check_reference, check_reference_of, check_settlement, decode_fund_account_record,
    decode_fund_check_record, decode_fund_transaction_record, iso_date_valid, schedule_known,
    schedule_label, schedule_label_of, settlement_description, settlement_description_of,
    settlement_kind, settlement_kind_of, status_change, status_known, transaction_accounts_error,
    transaction_draft_error, valid_iso_date, validate_account_draft, validate_transaction_accounts,
    validate_transaction_draft, CheckSettlement, FundAccountDraft, FundAccountRecord,
    FundCheckDraft, FundCheckRecord, FundTransactionDraft, FundTransactionRecord,
};
pub use inventory::{
    cost_layer_row, decode_cost_layers, decode_movement_record, decode_stock_record,
    decode_warehouse_record,
    movement_draft_error, movement_failure, validate_movement_draft, InventoryImportResult,
    InventoryImportRow, InventoryMovementDraft, MovementRecord, StockRecord, WarehouseRecord,
};
pub use schema::{migration_sql, migration_text, LATEST_SCHEMA_VERSION};

use vstd::prelude::*;

use crate::text::{trim, trimmed};
use sql::Cell;
use journal::{
    batch_in, begin_in, commit_in, ints_view, params_view, pragma_in, read_int, read_int_in, run_in,
    run_ints, timeout_in, Entry, ParamView,
};

verus! {

#[verifier::external_type_specification]
#[verifier::external_body]
pub struct ExIoError(std::io::Error);

/// Why a database operation failed.
#[derive(Debug)]
pub enum DatabaseError {
    DataDirectoryUnavailable,
    Io(std::io::Error),
    Sql(rusqlite::Error),
    Validation(String),
}

/// Calls `std::io::Error`'s `Display`.
#[verifier::external_body]
fn io_error_text(e: &std::io::Error) -> (r: String) {
    e.to_string()
}

impl DatabaseError {
    /// The human-readable description of the error: a validation message as
    /// it is, and the text of an outside error after a prefix.
    pub fn message(&self) -> (r: String)
        ensures
            match self {
                DatabaseError::DataDirectoryUnavailable => r@
                    == "application data directory is unavailable"@,
                DatabaseError::Io(_) => "database filesystem error: "@.is_prefix_of(r@),
                DatabaseError::Sql(_) => "database error: "@.is_prefix_of(r@),
                DatabaseError::Validation(m) => r@ == m@,
            },
    {
        match self {
            DatabaseError::DataDirectoryUnavailable => String::from_str(
                "application data directory is unavailable",
            ),
            DatabaseError::Io(e) => {
                let mut t = String::from_str("database filesystem error: ");
                let ghost prefix = t@;
                t.append(io_error_text(e).as_str());
                assert(t@.subrange(0, prefix.len() as int) =~= prefix);
                t
            },
            DatabaseError::Sql(e) => {
                let mut t = String::from_str("database error: ");
                let ghost prefix = t@;
                t.append(sql::error_text(e).as_str());
                assert(t@.subrange(0, prefix.len() as int) =~= prefix);
                t
            },
            DatabaseError::Validation(m) => m.clone(),
        }
    }
}

/// The result is the validation error with exactly this message.
pub open spec fn refused<T>(r: Result<T, DatabaseError>, message: Seq<char>) -> bool {
    r matches Err(DatabaseError::Validation(m)) && m@ == message
}

/// A failure of the store itself: SQLite's error, or a column holding a
/// value of another type than the schema gives it.
pub open spec fn store_failure<T>(r: Result<T, DatabaseError>) -> bool {
    r matches Err(DatabaseError::Sql(_)) || refused(r, "unexpected column value"@)
}

/// The open database.
pub struct Database {
    connection: rusqlite::Connection,
}

/// How many rows the main tables hold.
#[derive(Debug, Clone, Copy, Default, PartialEq, Eq)]
pub struct OverviewCounts {
    pub invoices: i32,
    pub customers: i32,
    pub catalog_items: i32,
    pub warehouses: i32,
    pub fund_accounts: i32,
    pub fund_transactions: i32,
    pub users: i32,
}

pub(crate) fn lift<T>(r: Result<T, rusqlite::Error>) -> (out: Result<T, DatabaseError>)
    ensures
        r matches Ok(v) ==> out == Ok::<T, DatabaseError>(v),
        r is Err ==> out matches Err(DatabaseError::Sql(_)),
{
    match r {
        Ok(v) => Ok(v),
        Err(e) => Err(DatabaseError::Sql(e)),
    }
}

pub(crate) fn unexpected_column() -> (e: DatabaseError)
    ensures
        e matches DatabaseError::Validation(m) && m@ == "unexpected column value"@,
{
    DatabaseError::Validation(String::from_str("unexpected column value"))
}

/// The cells of a read row.
pub(crate) fn cells(row: &Vec<rusqlite::types::Value>) -> (r: Vec<Cell>)
    ensures
        r.len() == row.len(),
{
    let mut out: Vec<Cell> = Vec::new();
    let mut i: usize = 0;
    while i < row.len()
        invariant
            i <= row.len(),
            out.len() == i,
        decreases row.len() - i,
    {
        out.push(sql::cell_of(&row[i]));
        i = i + 1;
    }
    out
}

/// Runs a query and reads `columns` cells of every row.
pub(crate) fn query_cells(conn: &rusqlite::Connection, sql_text: &str, args: Vec<sql::Param>, columns: usize) -> (r: Result<Vec<Vec<Cell>>, DatabaseError>)
    ensures
        r matches Ok(rows) ==> forall|i: int| 0 <= i < rows.len() ==> #[trigger] rows[i].len() == columns,
        r is Err ==> store_failure(r),
{
    let rows = lift(sql::query(conn, sql_text, args, columns))?;
    let mut out: Vec<Vec<Cell>> = Vec::new();
    let mut i: usize = 0;
    while i < rows.len()
        invariant
            i <= rows.len(),
            out.len() == i,
            forall|k: int| 0 <= k < rows.len() ==> #[trigger] rows[k].len() == columns,
            forall|k: int| 0 <= k < i ==> #[trigger] out[k].len() == columns,
        decreases rows.len() - i,
    {
        out.push(cells(&rows[i]));
        i = i + 1;
    }
    Ok(out)
}

pub(crate) fn cell_int(row: &Vec<Cell>, i: usize) -> (r: Result<i64, DatabaseError>)
    requires
        i < row.len(),
    ensures
        row[i as int] matches Cell::Int(v) ==> r == Ok::<i64, DatabaseError>(v),
        !(row[i as int] is Int) ==> refused(r, "unexpected column value"@),
{
    match &row[i] {
        Cell::Int(v) => Ok(*v),
        _ => Err(unexpected_column()),
    }
}

/// A boolean column: a nonzero integer is true.
pub(crate) fn cell_bool(row: &Vec<Cell>, i: usize) -> (r: Result<bool, DatabaseError>)
    requires
        i < row.len(),
    ensures
        row[i as int] matches Cell::Int(v) ==> r == Ok::<bool, DatabaseError>(v != 0),
        !(row[i as int] is Int) ==> refused(r, "unexpected column value"@),
{
    match &row[i] {
        Cell::Int(v) => Ok(*v != 0),
        _ => Err(unexpected_column()),
    }
}

pub(crate) fn cell_text(row: &Vec<Cell>, i: usize) -> (r: Result<String, DatabaseError>)
    requires
        i < row.len(),
    ensures
        row[i as int] matches Cell::Text(t) ==> (r matches Ok(s) && s@ == t@),
        !(row[i as int] is Text) ==> refused(r, "unexpected column value"@),
{
    match &row[i] {
        Cell::Text(t) => Ok(t.clone()),
        _ => Err(unexpected_column()),
    }
}

/// An integer column that may be NULL.
pub(crate) fn cell_opt_int(row: &Vec<Cell>, i: usize) -> (r: Result<Option<i64>, DatabaseError>)
    requires
        i < row.len(),
    ensures
        row[i as int] matches Cell::Int(v) ==> r == Ok::<Option<i64>, DatabaseError>(Some(v)),
        row[i as int] is Null ==> r == Ok::<Option<i64>, DatabaseError>(None),
        !(row[i as int] is Int) && !(row[i as int] is Null) ==> refused(
            r,
            "unexpected column value"@,
        ),
{
    match &row[i] {
        Cell::Int(v) => Ok(Some(*v)),
        Cell::Null => Ok(None),
        _ => Err(unexpected_column()),
    }
}

/// The `LIKE` pattern matching any text that holds the trimmed search.
pub open spec fn like_pattern_of(search: Seq<char>) -> Seq<char> {
    seq!['%'] + trimmed(search) + seq!['%']
}

pub(crate) fn like_pattern(search: &str) -> (r: String)
    ensures
        r@ == like_pattern_of(search@),
{
    let mut out = String::from_str("%");
    out.append(trim(search).as_str());
    out.append("%");
    proof {
        reveal_strlit("%");
    }
    assert(out@ =~= like_pattern_of(search@));
    out
}

pub(crate) fn search_args(search: &str) -> (r: Vec<sql::Param>)
    ensures
        r.len() == 1,
        r@[0] matches sql::Param::Text(t) && t@ == like_pattern_of(search@),
{
    let mut args = Vec::new();
    args.push(sql::text(like_pattern(search)));
    args
}

pub(crate) fn id_args(id: i64) -> (r: Vec<sql::Param>)
    ensures
        r@ == seq![sql::Param::Int(id)],
{
    let mut args = Vec::new();
    args.push(sql::integer(id));
    args
}

/// The highest schema version applied.
pub const SCHEMA_VERSION_SQL: &'static str = "SELECT COALESCE(MAX(version), 0) FROM schema_migrations";

/// Creates the table of applied migrations when it is missing.
pub const MIGRATIONS_TABLE_SQL: &'static str = "CREATE TABLE IF NOT EXISTS schema_migrations (
                version INTEGER PRIMARY KEY,
                applied_at TEXT NOT NULL DEFAULT CURRENT_TIMESTAMP
            );";

/// Records an applied migration.
pub const MIGRATION_RECORD_SQL: &'static str = "INSERT INTO schema_migrations (version) VALUES (?1)";

/// The count of rows of a table.
pub open spec fn count_sql(table: Seq<char>) -> Seq<char> {
    "SELECT COUNT(*) FROM "@ + table
}

/// What applying one migration runs: in one transaction, its SQL and the
/// record that it was applied.
pub open spec fn migration_steps(version: int) -> Seq<Entry> {
    seq![
        Entry::Begin,
        Entry::Batch(migration_text(version)),
        run_ints(MIGRATION_RECORD_SQL@, seq![version as i64]),
        Entry::Commit,
    ]
}

/// The migrations below `upto` that are above the version `current`
/// already applied, in order.
pub open spec fn migrations_run(current: int, upto: int) -> Seq<Entry>
    decreases upto,
{
    if upto <= 1 {
        Seq::empty()
    } else {
        migrations_run(current, upto - 1) + if upto - 1 > current {
            migration_steps(upto - 1)
        } else {
            Seq::empty()
        }
    }
}

/// How the store is set up on a new connection: foreign keys on,
/// write-ahead journal, normal synchronisation, a busy timeout of five
/// seconds, the table of applied migrations made when missing; then the
/// version applied is read, and every migration above it, up to the latest,
/// is applied in its own transaction.
pub open spec fn setup_journal(j: Seq<Entry>) -> bool {
    &&& j.len() >= 6
    &&& j.subrange(0, 5) == seq![
        Entry::Pragma("foreign_keys"@, "ON"@),
        Entry::Pragma("journal_mode"@, "WAL"@),
        Entry::Pragma("synchronous"@, "NORMAL"@),
        Entry::Timeout(5),
        Entry::Batch(MIGRATIONS_TABLE_SQL@),
    ]
    &&& read_int(j[5], SCHEMA_VERSION_SQL@, Seq::empty()) matches Some(current) && j.subrange(
        6,
        j.len() as int,
    ) == migrations_run(current as int, LATEST_SCHEMA_VERSION + 1)
}

/// The tables the overview counts, in the order of its fields.
pub open spec fn overview_tables() -> Seq<Seq<char>> {
    seq![
        "invoices"@,
        "customers"@,
        "catalog_items"@,
        "warehouses"@,
        "fund_accounts"@,
        "fund_transactions"@,
        "users"@,
    ]
}

/// The overview's counts in the order of its fields.
pub open spec fn overview_values(c: OverviewCounts) -> Seq<i32> {
    seq![
        c.invoices,
        c.customers,
        c.catalog_items,
        c.warehouses,
        c.fund_accounts,
        c.fund_transactions,
        c.users,
    ]
}

impl Database {
    /// Opens the store in a file, creating it when missing, and brings its
    /// schema up to the latest version.
    ///
    /// `open_journaled` states the settings it applies and the migrations it runs.
    pub fn open(path: &str) -> (r: Result<Self, DatabaseError>)
        ensures
            r is Err ==> store_failure(r),
    {
        let mut journal: Ghost<Seq<Entry>> = Ghost(Seq::empty());
        Self::open_journaled(path, &mut journal)
    }

    /// `open`, with what it ran on the new connection (`setup_journal`).
    pub fn open_journaled(path: &str, journal: &mut Ghost<Seq<Entry>>) -> (r: Result<Self, DatabaseError>)
        requires
            old(journal)@ == Seq::<Entry>::empty(),
        ensures
            r is Ok ==> setup_journal(final(journal)@),
            r is Err ==> store_failure(r),
    {
        let connection = lift(sql::open_file(path))?;
        Self::initialize(connection, journal)
    }

    /// A new store held in memory, with the latest schema.
    ///
    /// `open_in_memory_journaled` states the settings it applies and the migrations it runs.
    pub fn open_in_memory() -> (r: Result<Self, DatabaseError>)
        ensures
            r is Err ==> store_failure(r),
    {
        let mut journal: Ghost<Seq<Entry>> = Ghost(Seq::empty());
        Self::open_in_memory_journaled(&mut journal)
    }

    /// `open_in_memory`, with what it ran on the new connection
    /// (`setup_journal`).
    pub fn open_in_memory_journaled(journal: &mut Ghost<Seq<Entry>>) -> (r: Result<Self, DatabaseError>)
        requires
            old(journal)@ == Seq::<Entry>::empty(),
        ensures
            r is Ok ==> setup_journal(final(journal)@),
            r is Err ==> store_failure(r),
    {
        let connection = lift(sql::open_in_memory())?;
        Self::initialize(connection, journal)
    }

    /// The highest schema version applied.
    ///
    /// `schema_version_journaled` states the query it runs and the integer it reads.
    pub fn schema_version(&self) -> (r: Result<i64, DatabaseError>)
        ensures
            r is Err ==> store_failure(r),
    {
        let mut journal: Ghost<Seq<Entry>> = Ghost(Seq::empty());
        self.schema_version_journaled(&mut journal)
    }

    /// `schema_version`, with what it read: the first value the query
    /// returned.
    pub fn schema_version_journaled(&self, journal: &mut Ghost<Seq<Entry>>) -> (r: Result<
        i64,
        DatabaseError,
    >)
        requires
            old(journal)@ == Seq::<Entry>::empty(),
        ensures
            r matches Ok(v) ==> final(journal)@.len() == 1 && read_int(
                final(journal)@[0],
                SCHEMA_VERSION_SQL@,
                Seq::empty(),
            ) == Some(v),
            r is Err ==> store_failure(r),
    {
        assert(params_view(Seq::<sql::Param>::empty()) =~= Seq::<ParamView>::empty());
        let v = read_int_in(&self.connection, SCHEMA_VERSION_SQL, Vec::new(), journal)?;
        assert(journal@[0] == journal@.last());
        Ok(v)
    }

    /// How many invoices, customers, catalog items, warehouses, accounts,
    /// transactions and users the store holds.
    ///
    /// `overview_counts_journaled` states the counting queries it runs and the integers they read.
    pub fn overview_counts(&self) -> (r: Result<OverviewCounts, DatabaseError>)
        ensures
            r is Err ==> store_failure(r),
    {
        let mut journal: Ghost<Seq<Entry>> = Ghost(Seq::empty());
        self.overview_counts_journaled(&mut journal)
    }

    /// `overview_counts`, with what it read: each field is the count read
    /// for its table (`overview_tables`), in order.
    pub fn overview_counts_journaled(&self, journal: &mut Ghost<Seq<Entry>>) -> (r: Result<
        OverviewCounts,
        DatabaseError,
    >)
        requires
            old(journal)@ == Seq::<Entry>::empty(),
        ensures
            r matches Ok(c) ==> final(journal)@.len() == 7 && forall|k: int|
                0 <= k < 7 ==> read_int(
                    #[trigger] final(journal)@[k],
                    count_sql(overview_tables()[k]),
                    Seq::empty(),
                ) == Some(overview_values(c)[k] as i64),
            r is Err ==> store_failure(r),
    {
        let invoices = self.count_rows("invoices", journal)?;
        let customers = self.count_rows("customers", journal)?;
        let catalog_items = self.count_rows("catalog_items", journal)?;
        let warehouses = self.count_rows("warehouses", journal)?;
        let fund_accounts = self.count_rows("fund_accounts", journal)?;
        let fund_transactions = self.count_rows("fund_transactions", journal)?;
        let users = self.count_rows("users", journal)?;
        let c = OverviewCounts {
            invoices,
            customers,
            catalog_items,
            warehouses,
            fund_accounts,
            fund_transactions,
            users,
        };
        proof {
            reveal_strlit("invoices");
            reveal_strlit("customers");
            reveal_strlit("catalog_items");
            reveal_strlit("warehouses");
            reveal_strlit("fund_accounts");
            reveal_strlit("fund_transactions");
            reveal_strlit("users");
        }
        assert forall|k: int| 0 <= k < 7 implies read_int(
            #[trigger] journal@[k],
            count_sql(overview_tables()[k]),
            Seq::empty(),
        ) == Some(overview_values(c)[k] as i64) by {
            assert(journal@[k] == journal@[k]);
        }
        Ok(c)
    }

    /// The number of rows of a table, read into the journal.
    fn count_rows(&self, table: &str, journal: &mut Ghost<Seq<Entry>>) -> (r: Result<i32, DatabaseError>)
        ensures
            r matches Ok(c) ==> final(journal)@.len() == old(journal)@.len() + 1 && final(journal)@.drop_last()
                == old(journal)@ && read_int(final(journal)@.last(), count_sql(table@), Seq::empty())
                == Some(c as i64),
            r is Err ==> store_failure(r),
    {
        let mut statement = String::from_str("SELECT COUNT(*) FROM ");
        statement.append(table);
        assert(statement@ == count_sql(table@));
        assert(params_view(Seq::<sql::Param>::empty()) =~= Seq::<ParamView>::empty());
        let count = read_int_in(&self.connection, statement.as_str(), Vec::new(), journal)?;
        if count < i32::MIN as i64 || count > i32::MAX as i64 {
            return Err(unexpected_column());
        }
        Ok(count as i32)
    }

    /// Sets up the connection and brings the schema to the latest version,
    /// one migration per transaction.
    fn initialize(connection: rusqlite::Connection, journal: &mut Ghost<Seq<Entry>>) -> (r: Result<
        Self,
        DatabaseError,
    >)
        requires
            old(journal)@ == Seq::<Entry>::empty(),
        ensures
            r is Ok ==> setup_journal(final(journal)@),
            r is Err ==> store_failure(r),
    {
        pragma_in(&connection, "foreign_keys", "ON", journal)?;
        pragma_in(&connection, "journal_mode", "WAL", journal)?;
        pragma_in(&connection, "synchronous", "NORMAL", journal)?;
        timeout_in(&connection, 5, journal)?;
        batch_in(&connection, MIGRATIONS_TABLE_SQL, journal)?;
        let ghost setup = journal@;
        assert(setup =~= seq![
            Entry::Pragma("foreign_keys"@, "ON"@),
            Entry::Pragma("journal_mode"@, "WAL"@),
            Entry::Pragma("synchronous"@, "NORMAL"@),
            Entry::Timeout(5),
            Entry::Batch(MIGRATIONS_TABLE_SQL@),
        ]);
        assert(params_view(Seq::<sql::Param>::empty()) =~= Seq::<ParamView>::empty());
        let current = read_int_in(&connection, SCHEMA_VERSION_SQL, Vec::new(), journal)?;
        let ghost prefix = journal@;
        assert(prefix[5] == prefix.last());
        assert(prefix.subrange(0, 5) =~= setup);
        assert(migrations_run(current as int, 1) =~= Seq::<Entry>::empty());
        assert(prefix.subrange(6, prefix.len() as int) =~= Seq::<Entry>::empty());
        let mut version: i64 = 1;
        while version <= LATEST_SCHEMA_VERSION
            invariant
                1 <= version <= LATEST_SCHEMA_VERSION + 1,
                prefix.len() == 6,
                prefix.subrange(0, 5) == setup,
                read_int(prefix[5], SCHEMA_VERSION_SQL@, Seq::empty()) == Some(current),
                journal@ == prefix + migrations_run(current as int, version as int),
            decreases LATEST_SCHEMA_VERSION + 1 - version,
        {
            let ghost before = journal@;
            if version > current {
                let tx = begin_in(&connection, journal)?;
                batch_in(sql::within(&tx), migration_sql(version), journal)?;
                let args = id_args(version);
                assert(params_view(args@) =~= ints_view(seq![version]));
                run_in(sql::within(&tx), MIGRATION_RECORD_SQL, args, journal)?;
                commit_in(tx, journal)?;
                assert(journal@ =~= before + migration_steps(version as int));
            }
            assert(journal@ =~= prefix + migrations_run(current as int, version + 1));
            version = version + 1;
        }
        assert(journal@.subrange(0, 5) =~= prefix.subrange(0, 5));
        assert(journal@.subrange(6, journal@.len() as int) =~= migrations_run(
            current as int,
            LATEST_SCHEMA_VERSION + 1,
        ));
        assert(journal@[5] == prefix[5]);
        Ok(Database { connection })
    }
}

} // verus!
