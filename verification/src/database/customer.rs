//! Customers and their running balances.

use vstd::prelude::*;

use super::journal::{
    begin_in, commit_in, ints_view, opt_text_view, params_view, read_in, read_int, read_int_in,
    read_rows, rowid_in, rows_view, run_in, run_ints, Entry, ParamView,
};
use super::sql::{self, Cell};
use super::{like_pattern_of, cell_int, cell_text, id_args, refused, search_args, store_failure, Database, DatabaseError};
use crate::import::CustomerImportRow;
use crate::models::in_i64;
use crate::text::{blank, is_blank, opt_str_view, opt_string_view, same_text};

verus! {

broadcast use vstd::string::group_string_axioms;

/// The active customers whose name, phone or email matches a pattern, most recently changed first.
pub const CUSTOMERS_SQL: &'static str = "SELECT id, kind, name, COALESCE(phone, ''), COALESCE(email, ''), COALESCE(address, ''),
                    balance_minor, currency
             FROM customers
             WHERE active = 1 AND (
                name LIKE ?1 OR COALESCE(phone, '') LIKE ?1 OR COALESCE(email, '') LIKE ?1
             )
             ORDER BY updated_at DESC, id DESC";

/// A customer as listed; missing contact fields read as empty text.
#[derive(Debug, Clone, PartialEq, Eq)]
pub struct CustomerRecord {
    pub id: i64,
    pub kind: String,
    pub name: String,
    pub phone: String,
    pub email: String,
    pub address: String,
    pub balance_minor: i64,
    pub currency: String,
}

/// A customer to create (no `id`) or update.
#[derive(Debug, Clone, PartialEq, Eq)]
pub struct CustomerDraft {
    pub id: Option<i64>,
    pub kind: String,
    pub name: String,
    pub phone: Option<String>,
    pub email: Option<String>,
    pub address: Option<String>,
}

/// The row reads as this record, column by column.
pub open spec fn customer_row_is(row: Seq<Cell>, rec: CustomerRecord) -> bool {
    row[0] == Cell::Int(rec.id) && row[1] is Text && row[1]->Text_0@
            == rec.kind@ && row[2] is Text && row[2]->Text_0@ == rec.name@ && row[3] is Text
            && row[3]->Text_0@ == rec.phone@ && row[4] is Text && row[4]->Text_0@ == rec.email@
            && row[5] is Text && row[5]->Text_0@ == rec.address@ && row[6] == Cell::Int(
            rec.balance_minor,
        ) && row[7] is Text && row[7]->Text_0@ == rec.currency@
}

/// Reads a row of `id, kind, name, phone, email, address, balance_minor, currency`.
pub fn decode_customer_record(row: &Vec<Cell>) -> (r: Result<CustomerRecord, DatabaseError>)
    requires
        row.len() == 8,
    ensures
        r is Ok <==> (row[0] is Int && row[1] is Text && row[2] is Text && row[3] is Text
            && row[4] is Text && row[5] is Text && row[6] is Int && row[7] is Text),
        r is Err ==> refused(r, "unexpected column value"@),
        r matches Ok(rec) ==> row[0] == Cell::Int(rec.id) && row[1] is Text && row[1]->Text_0@
            == rec.kind@ && row[2] is Text && row[2]->Text_0@ == rec.name@ && row[3] is Text
            && row[3]->Text_0@ == rec.phone@ && row[4] is Text && row[4]->Text_0@ == rec.email@
            && row[5] is Text && row[5]->Text_0@ == rec.address@ && row[6] == Cell::Int(
            rec.balance_minor,
        ) && row[7] is Text && row[7]->Text_0@ == rec.currency@,
        r matches Ok(rec) ==> customer_row_is(row@, rec),
{
    Ok(
        CustomerRecord {
            id: cell_int(row, 0)?,
            kind: cell_text(row, 1)?,
            name: cell_text(row, 2)?,
            phone: cell_text(row, 3)?,
            email: cell_text(row, 4)?,
            address: cell_text(row, 5)?,
            balance_minor: cell_int(row, 6)?,
            currency: cell_text(row, 7)?,
        },
    )
}

/// The kinds of customer the store accepts.
pub open spec fn customer_kind_known(kind: Seq<char>) -> bool {
    kind == "individual"@ || kind == "business"@
}

/// Checks a draft before it is saved: the name must not be blank and the
/// kind must be `individual` or `business`.
pub fn validate_customer_draft(draft: &CustomerDraft) -> (r: Result<(), DatabaseError>)
    ensures
        is_blank(draft.name@) ==> refused(r, "customer name is required"@),
        !is_blank(draft.name@) && !customer_kind_known(draft.kind@) ==> refused(
            r,
            "invalid customer kind"@,
        ),
        !is_blank(draft.name@) && customer_kind_known(draft.kind@) ==> r is Ok,
{
    if blank(draft.name.as_str()) {
        return Err(DatabaseError::Validation(String::from_str("customer name is required")));
    }
    if !(same_text(draft.kind.as_str(), "individual") || same_text(draft.kind.as_str(), "business")) {
        return Err(DatabaseError::Validation(String::from_str("invalid customer kind")));
    }
    Ok(())
}

/// An active customer by id.
pub const CUSTOMER_READ_SQL: &'static str = "SELECT id, kind, name, COALESCE(phone, ''), COALESCE(email, ''), COALESCE(address, ''),
                        balance_minor, currency
                 FROM customers WHERE id = ?1 AND active = 1";

/// Sets a customer's balance.
pub const BALANCE_SET_SQL: &'static str = "UPDATE customers SET balance_minor = ?1, updated_at = CURRENT_TIMESTAMP WHERE id = ?2 AND active = 1";

/// Records an adjustment of a customer's balance.
pub const BALANCE_ENTRY_SQL: &'static str = "INSERT INTO customer_balance_entries (customer_id, amount_minor, kind, note) VALUES (?1, ?2, ?3, ?4)";

/// Sets a customer's balance to zero.
pub const SETTLE_SQL: &'static str = "UPDATE customers SET balance_minor = 0, updated_at = CURRENT_TIMESTAMP WHERE id = ?1 AND active = 1";

/// Records the settlement of a customer's balance.
pub const SETTLE_ENTRY_SQL: &'static str = "INSERT INTO customer_balance_entries (customer_id, amount_minor, kind) VALUES (?1, ?2, 'settlement')";

/// Whether an invoice names a customer.
pub const CUSTOMER_INVOICED_SQL: &'static str = "SELECT EXISTS(SELECT 1 FROM invoices WHERE customer_id = ?1)";

/// Deactivates a customer.
pub const CUSTOMER_DEACTIVATE_SQL: &'static str = "UPDATE customers SET active = 0, updated_at = CURRENT_TIMESTAMP
             WHERE id = ?1 AND active = 1";

/// Rewrites a customer.
pub const CUSTOMER_UPDATE_SQL: &'static str = "UPDATE customers
                 SET kind = ?1, name = ?2, phone = ?3, email = ?4, address = ?5,
                     updated_at = CURRENT_TIMESTAMP
                 WHERE id = ?6 AND active = 1";

/// Inserts a customer with a zero balance.
pub const CUSTOMER_INSERT_SQL: &'static str = "INSERT INTO customers (kind, name, phone, email, address, balance_minor, currency)
             VALUES (?1, ?2, ?3, ?4, ?5, 0, 'IRR')";

/// The parameters of a customer: kind, name, phone, email and address.
pub open spec fn customer_params(d: CustomerDraft) -> Seq<ParamView> {
    seq![
        ParamView::Text(d.kind@),
        ParamView::Text(d.name@),
        opt_text_view(opt_string_view(d.phone)),
        opt_text_view(opt_string_view(d.email)),
        opt_text_view(opt_string_view(d.address)),
    ]
}

/// A save of a customer that went through, with id `id`: an update
/// rewrites the customer with that id; a new customer is inserted and `id`
/// is the one SQLite gives it.
pub open spec fn customer_save_journal(d: CustomerDraft, id: i64, j: Seq<Entry>) -> bool {
    match d.id {
        Some(i) => id == i && j == seq![
            Entry::Run(CUSTOMER_UPDATE_SQL@, customer_params(d).push(ParamView::Int(i))),
        ],
        None => j == seq![Entry::Run(CUSTOMER_INSERT_SQL@, customer_params(d)), Entry::Rowid(id)],
    }
}

/// The note an imported opening balance is recorded with.
pub open spec fn opening_note() -> Seq<char> {
    "مانده اولیه ورود گروهی"@
}

/// How many steps saving a customer takes: a rewrite, or an insert and the
/// id SQLite gives it.
pub open spec fn saved_len(d: CustomerDraft) -> int {
    if d.id is Some {
        1
    } else {
        2
    }
}

/// The id a save of the customer ended with.
pub open spec fn saved_id(d: CustomerDraft, seg: Seq<Entry>) -> i64 {
    match d.id {
        Some(i) => i,
        None => seg[1]->Rowid_0,
    }
}

/// What importing one customer ran: the customer saved
/// (`customer_save_journal`), then, when the opening balance is not zero,
/// that balance added to the saved customer with the import's note
/// (`balance_adjustment_journal`).
pub open spec fn customer_import_step(row: CustomerImportRow, seg: Seq<Entry>) -> bool {
    let d = row.customer;
    let n = saved_len(d);
    &&& seg.len() >= n
    &&& customer_save_journal(d, saved_id(d, seg), seg.take(n))
    &&& if row.opening_balance_minor == 0 {
        seg.len() == n
    } else {
        exists|balance: i64|
            #[trigger] balance_adjustment_journal(
                saved_id(d, seg),
                row.opening_balance_minor,
                Some(opening_note()),
                balance,
                seg.skip(n),
            )
    }
}

/// A row of `id, kind, name, phone, email, address, balance_minor,
/// currency` that reads as a customer.
pub open spec fn customer_row(row: Seq<Cell>) -> bool {
    &&& row.len() == 8
    &&& row[0] is Int && row[1] is Text && row[2] is Text && row[3] is Text
    &&& row[4] is Text && row[5] is Text && row[6] is Int && row[7] is Text
}

/// The balance a read of the active customer with this id found: `None`
/// when the read found no row, the balance of the first row when it reads
/// as a customer.
pub open spec fn customer_read(e: Entry, id: i64) -> Option<i64> {
    match read_rows(e, CUSTOMER_READ_SQL@, seq![ParamView::Int(id)]) {
        Some(rows) => if rows.len() > 0 && customer_row(rows[0]) {
            Some(rows[0][6]->Int_0)
        } else {
            None
        },
        None => None,
    }
}

/// A read of the active customer with this id that found no row.
pub open spec fn customer_absent(e: Entry, id: i64) -> bool {
    read_rows(e, CUSTOMER_READ_SQL@, seq![ParamView::Int(id)]) matches Some(rows) && rows.len() == 0
}

/// An adjustment that went through: the customer's balance `b` was read
/// and the sum `updated` is `b + amount`; then, in one transaction, the
/// balance is set to `updated` and the entry (its kind from the sign, and
/// the note) recorded.
pub open spec fn balance_adjustment_journal(
    id: i64,
    amount: i64,
    note: Option<Seq<char>>,
    updated: i64,
    j: Seq<Entry>,
) -> bool {
    &&& j.len() == 5
    &&& customer_read(j[0], id) matches Some(b) && adjusted_balance(b as int, amount as int) == Some(
        updated as int,
    )
    &&& j[1] == Entry::Begin
    &&& j[2] == Entry::Run(BALANCE_SET_SQL@, seq![ParamView::Int(updated), ParamView::Int(id)])
    &&& j[3] == Entry::Run(
        BALANCE_ENTRY_SQL@,
        seq![
            ParamView::Int(id),
            ParamView::Int(amount),
            ParamView::Text(entry_kind(amount as int)),
            opt_text_view(note),
        ],
    )
    &&& j[4] == Entry::Commit
}

/// The refusals of a balance change are told apart.
proof fn lemma_balance_messages_differ()
    ensures
        "customer not found"@ != "unexpected column value"@,
        "balance overflow"@ != "unexpected column value"@,
        "customer not found"@ != "balance overflow"@,
        "customer not found"@ != "balance adjustment cannot be zero"@,
        "balance overflow"@ != "balance adjustment cannot be zero"@,
{
    reveal_strlit("customer not found");
    reveal_strlit("unexpected column value");
    reveal_strlit("balance overflow");
    reveal_strlit("balance adjustment cannot be zero");
    assert("customer not found"@[0] != "unexpected column value"@[0]);
    assert("balance overflow"@[0] != "unexpected column value"@[0]);
    assert("customer not found"@[0] != "balance overflow"@[0]);
    assert("customer not found"@[0] != "balance adjustment cannot be zero"@[0]);
    assert("balance overflow"@[8] != "balance adjustment cannot be zero"@[8]);
}

/// A draft that `validate_customer_draft` lets through.
pub open spec fn customer_draft_acceptable(draft: CustomerDraft) -> bool {
    !is_blank(draft.name@) && customer_kind_known(draft.kind@)
}

/// The refusal `validate_customer_draft` gives a draft it does not let
/// through.
pub open spec fn customer_draft_error(draft: CustomerDraft) -> Seq<char> {
    if is_blank(draft.name@) {
        "customer name is required"@
    } else {
        "invalid customer kind"@
    }
}

/// The balance after an adjustment: the sum, unless it leaves `i64`.
pub open spec fn adjusted_balance(current: int, amount: int) -> Option<int> {
    if in_i64(current + amount) {
        Some(current + amount)
    } else {
        None
    }
}

pub fn balance_after_adjustment(current: i64, amount: i64) -> (r: Result<i64, DatabaseError>)
    ensures
        adjusted_balance(current as int, amount as int) matches Some(v) ==> r == Ok::<
            i64,
            DatabaseError,
        >(v as i64),
        adjusted_balance(current as int, amount as int) is None ==> refused(
            r,
            "balance overflow"@,
        ),
{
    match current.checked_add(amount) {
        Some(v) => Ok(v),
        None => Err(DatabaseError::Validation(String::from_str("balance overflow"))),
    }
}

/// Adjusting a balance by an amount and then by its opposite gives back the
/// balance one started from.
pub proof fn adjustment_is_undone_by_its_opposite(current: int, amount: int)
    requires
        in_i64(current),
        adjusted_balance(current, amount) is Some,
    ensures
        adjusted_balance(adjusted_balance(current, amount)->Some_0, -amount) == Some(current),
{
}

/// The ledger kind of an adjustment: money owed (`debit`) or owed back (`credit`).
pub open spec fn entry_kind(amount: int) -> Seq<char> {
    if amount > 0 {
        "debit"@
    } else {
        "credit"@
    }
}

pub fn balance_entry_kind(amount: i64) -> (r: &'static str)
    ensures
        r@ == entry_kind(amount as int),
{
    if amount > 0 {
        "debit"
    } else {
        "credit"
    }
}

/// A text parameter for an optional text, NULL for none.
fn opt_text_arg(v: &Option<String>) -> (r: sql::Param)
    ensures
        match v {
            Some(s) => r matches sql::Param::Text(t) && t@ == s@,
            None => r is Null,
        },
{
    match v {
        Some(s) => sql::opt_text(Some(s.clone())),
        None => sql::opt_text(None),
    }
}

impl Database {
    /// Adds `amount_minor` to the customer's balance (positive: the customer
    /// owes more) and records the entry; the new balance.
    ///
    /// `adjust_customer_balance_journaled` states what it reads and runs.
    pub fn adjust_customer_balance(&self, id: i64, amount_minor: i64, note: Option<&str>) -> (r: Result<i64, DatabaseError>)
        ensures
            amount_minor == 0 ==> refused(r, "balance adjustment cannot be zero"@),
            r matches Ok(v) ==> amount_minor != 0 && in_i64(v - amount_minor),
            amount_minor != 0 && r is Err ==> refused(r, "customer not found"@) || refused(
                r,
                "balance overflow"@,
            ) || store_failure(r),
    {
        let mut journal: Ghost<Seq<Entry>> = Ghost(Seq::empty());
        self.adjust_customer_balance_journaled(id, amount_minor, note, &mut journal)
    }

    /// The balance of the active customer with this id, read into the
    /// journal; `None` when there is no such customer.
    fn customer_balance_in(&self, conn: &rusqlite::Connection, id: i64, journal: &mut Ghost<Seq<Entry>>) -> (r: Result<Option<i64>, DatabaseError>)
        ensures
            r is Ok ==> final(journal)@.len() == old(journal)@.len() + 1 && final(journal)@.drop_last() == old(journal)@ && customer_read(
                final(journal)@.last(),
                id,
            ) == r->Ok_0,
            r == Ok::<Option<i64>, DatabaseError>(None) ==> customer_absent(final(journal)@.last(), id),
            r is Err ==> store_failure(r),
    {
        let args = id_args(id);
        assert(params_view(args@) =~= seq![ParamView::Int(id)]);
        let rows = read_in(conn, CUSTOMER_READ_SQL, args, 8, journal)?;
        let ghost rv = rows_view(rows@);
        assert(journal@.drop_last() =~= old(journal)@);
        if rows.len() == 0 {
            return Ok(None);
        }
        assert(rv[0] == rows@[0]@);
        let record = decode_customer_record(&rows[0])?;
        Ok(Some(record.balance_minor))
    }

    /// `adjust_customer_balance`, with what it read and ran: a zero amount is
    /// refused before anything is read; the customer's balance is read, and
    /// refused when there is no such customer or the sum leaves `i64`; else,
    /// in one transaction, the balance is set to the sum and the entry
    /// recorded (`balance_adjustment_journal`).
    pub fn adjust_customer_balance_journaled(
        &self,
        id: i64,
        amount_minor: i64,
        note: Option<&str>,
        journal: &mut Ghost<Seq<Entry>>,
    ) -> (r: Result<i64, DatabaseError>)
        requires
            old(journal)@ == Seq::<Entry>::empty(),
        ensures
            amount_minor == 0 ==> refused(r, "balance adjustment cannot be zero"@) && final(journal)@ == Seq::<Entry>::empty(),
            refused(r, "customer not found"@) ==> final(journal)@.len() == 1 && customer_absent(
                final(journal)@[0],
                id,
            ),
            refused(r, "balance overflow"@) ==> final(journal)@.len() == 1 && (customer_read(
                final(journal)@[0],
                id,
            ) matches Some(b) && adjusted_balance(b as int, amount_minor as int) is None),
            r matches Ok(v) ==> amount_minor != 0 && in_i64(v - amount_minor)
                && balance_adjustment_journal(id, amount_minor, opt_str_view(note), v, final(journal)@),
            amount_minor != 0 && r is Err ==> refused(r, "customer not found"@) || refused(
                r,
                "balance overflow"@,
            ) || store_failure(r),
    {
        proof {
            lemma_balance_messages_differ();
        }
        if amount_minor == 0 {
            return Err(
                DatabaseError::Validation(String::from_str("balance adjustment cannot be zero")),
            );
        }
        let current = match self.customer_balance_in(&self.connection, id, journal)? {
            Some(b) => b,
            None => {
                assert(journal@[0] == journal@.last());
                return Err(DatabaseError::Validation(String::from_str("customer not found")));
            },
        };
        let ghost read = journal@;
        assert(read[0] == read.last());
        let updated = balance_after_adjustment(current, amount_minor)?;
        let tx = begin_in(&self.connection, journal)?;
        let mut args = Vec::new();
        args.push(sql::integer(updated));
        args.push(sql::integer(id));
        assert(params_view(args@) =~= seq![ParamView::Int(updated), ParamView::Int(id)]);
        run_in(sql::within(&tx), BALANCE_SET_SQL, args, journal)?;
        let mut entry = Vec::new();
        entry.push(sql::integer(id));
        entry.push(sql::integer(amount_minor));
        entry.push(sql::text(String::from_str(balance_entry_kind(amount_minor))));
        entry.push(
            sql::opt_text(
                match note {
                    Some(n) => Some(String::from_str(n)),
                    None => None,
                },
            ),
        );
        assert(params_view(entry@) =~= seq![
            ParamView::Int(id),
            ParamView::Int(amount_minor),
            ParamView::Text(entry_kind(amount_minor as int)),
            opt_text_view(opt_str_view(note)),
        ]);
        run_in(sql::within(&tx), BALANCE_ENTRY_SQL, entry, journal)?;
        commit_in(tx, journal)?;
        assert(journal@[0] == read[0]) by {
            assert(journal@.subrange(0, 1) =~= read);
        }
        Ok(updated)
    }

    /// Brings the customer's balance to zero and records the settlement.
    ///
    /// `settle_customer_balance_journaled` states what it reads and runs.
    pub fn settle_customer_balance(&self, id: i64) -> (r: Result<(), DatabaseError>)
        ensures
            r is Err ==> store_failure(r) || refused(r, "customer not found"@) || refused(
                r,
                "balance overflow"@,
            ),
    {
        let mut journal: Ghost<Seq<Entry>> = Ghost(Seq::empty());
        self.settle_customer_balance_journaled(id, &mut journal)
    }

    /// `settle_customer_balance`, with what it read and ran: the customer's
    /// balance is read; refused when there is no such customer, or when the
    /// balance is the one `i64` whose opposite is not an `i64`; nothing more
    /// when it is already zero; else, in one transaction, the balance is set
    /// to zero and the settlement of its opposite recorded.
    pub fn settle_customer_balance_journaled(&self, id: i64, journal: &mut Ghost<Seq<Entry>>) -> (r:
        Result<(), DatabaseError>)
        requires
            old(journal)@ == Seq::<Entry>::empty(),
        ensures
            refused(r, "customer not found"@) ==> final(journal)@.len() == 1 && customer_absent(
                final(journal)@[0],
                id,
            ),
            refused(r, "balance overflow"@) ==> final(journal)@.len() == 1 && customer_read(
                final(journal)@[0],
                id,
            ) == Some(i64::MIN),
            r is Ok ==> final(journal)@.len() >= 1 && (customer_read(final(journal)@[0], id) matches Some(b)
                && if b == 0 {
                final(journal)@.len() == 1
            } else {
                final(journal)@ == seq![
                    final(journal)@[0],
                    Entry::Begin,
                    run_ints(SETTLE_SQL@, seq![id]),
                    run_ints(SETTLE_ENTRY_SQL@, seq![id, (-b) as i64]),
                    Entry::Commit,
                ]
            }),
            r is Err ==> store_failure(r) || refused(r, "customer not found"@) || refused(
                r,
                "balance overflow"@,
            ),
    {
        proof {
            lemma_balance_messages_differ();
        }
        let current = match self.customer_balance_in(&self.connection, id, journal)? {
            Some(c) => c,
            None => {
                assert(journal@[0] == journal@.last());
                return Err(DatabaseError::Validation(String::from_str("customer not found")));
            },
        };
        let ghost read = journal@;
        assert(read[0] == read.last());
        if current == 0 {
            return Ok(());
        }
        if current == i64::MIN {
            return Err(DatabaseError::Validation(String::from_str("balance overflow")));
        }
        let tx = begin_in(&self.connection, journal)?;
        let args = id_args(id);
        assert(params_view(args@) =~= ints_view(seq![id]));
        run_in(sql::within(&tx), SETTLE_SQL, args, journal)?;
        let mut entry = Vec::new();
        entry.push(sql::integer(id));
        entry.push(sql::integer(-current));
        assert(params_view(entry@) =~= ints_view(seq![id, (-current) as i64]));
        run_in(sql::within(&tx), SETTLE_ENTRY_SQL, entry, journal)?;
        commit_in(tx, journal)?;
        assert(journal@ =~= seq![
            read[0],
            Entry::Begin,
            run_ints(SETTLE_SQL@, seq![id]),
            run_ints(SETTLE_ENTRY_SQL@, seq![id, (-current) as i64]),
            Entry::Commit,
        ]);
        Ok(())
    }

    /// Active customers whose name, phone or email holds the trimmed search,
    /// most recently changed first.
    ///
    /// `customers_journaled` states the query it runs and how each returned row is read.
    pub fn customers(&self, search: &str) -> (r: Result<Vec<CustomerRecord>, DatabaseError>)
        ensures
            r is Err ==> store_failure(r),
    {
        let mut journal: Ghost<Seq<Entry>> = Ghost(Seq::empty());
        self.customers_journaled(search, &mut journal)
    }

    /// `customers`, with what it read: the customers whose name, phone or email holds the trimmed search, each read from its row in the order SQLite returned them.
    pub fn customers_journaled(&self, search: &str, journal: &mut Ghost<Seq<Entry>>) -> (r: Result<
        Vec<CustomerRecord>,
        DatabaseError,
    >)
        requires
            old(journal)@ == Seq::<Entry>::empty(),
        ensures
            r matches Ok(v) ==> final(journal)@.len() == 1 && (read_rows(
                final(journal)@[0],
                CUSTOMERS_SQL@,
                seq![ParamView::Text(like_pattern_of(search@))],
            ) matches Some(rows) && rows.len() == v.len() && forall|k: int|
                0 <= k < v.len() ==> customer_row_is(rows[k], #[trigger] v@[k])),
            r is Err ==> store_failure(r),
    {
        let args = search_args(search);
        assert(params_view(args@) =~= seq![ParamView::Text(like_pattern_of(search@))]);
        let rows = read_in(&self.connection, CUSTOMERS_SQL, args, 8, journal)?;
        let ghost rv = rows_view(rows@);
        let mut out: Vec<CustomerRecord> = Vec::new();
        let mut i: usize = 0;
        while i < rows.len()
            invariant
                i <= rows.len(),
                out.len() == i,
                rv == rows_view(rows@),
                forall|k: int| 0 <= k < rows.len() ==> #[trigger] rows[k].len() == 8,
                forall|k: int| 0 <= k < i ==> customer_row_is(rv[k], #[trigger] out@[k]),
            decreases rows.len() - i,
        {
            let rec = decode_customer_record(&rows[i])?;
            assert(rv[i as int] == rows@[i as int]@);
            let ghost before = out@;
            out.push(rec);
            assert forall|k: int| 0 <= k < i + 1 implies customer_row_is(rv[k], #[trigger] out@[k]) by {
                if k < i {
                    assert(out@[k] == before[k]);
                }
            }
            i = i + 1;
        }
        Ok(out)
    }

    /// Creates (no id) or updates a customer after `validate_customer_draft`;
    /// the customer's id. A new customer starts with a zero balance.
    ///
    /// `save_customer_journaled` states what it reads and runs.
    pub fn save_customer(&self, draft: &CustomerDraft) -> (r: Result<i64, DatabaseError>)
        ensures
            is_blank(draft.name@) ==> refused(r, "customer name is required"@),
            !is_blank(draft.name@) && !customer_kind_known(draft.kind@) ==> refused(
                r,
                "invalid customer kind"@,
            ),
            draft.id matches Some(id) ==> (r is Ok ==> r == Ok::<i64, DatabaseError>(id)),
            customer_draft_acceptable(*draft) && r is Err ==> store_failure(r),
    {
        let mut journal: Ghost<Seq<Entry>> = Ghost(Seq::empty());
        self.save_customer_journaled(draft, &mut journal)
    }

    /// `save_customer`, with what it ran: a refused draft runs nothing; an
    /// update rewrites the customer, a new customer is inserted with a zero
    /// balance and its id is the one SQLite gives it.
    pub fn save_customer_journaled(&self, draft: &CustomerDraft, journal: &mut Ghost<Seq<Entry>>) -> (r:
        Result<i64, DatabaseError>)
        requires
            old(journal)@ == Seq::<Entry>::empty(),
        ensures
            is_blank(draft.name@) ==> refused(r, "customer name is required"@),
            !is_blank(draft.name@) && !customer_kind_known(draft.kind@) ==> refused(
                r,
                "invalid customer kind"@,
            ),
            !customer_draft_acceptable(*draft) ==> final(journal)@ == Seq::<Entry>::empty(),
            customer_draft_acceptable(*draft) && r is Err ==> store_failure(r),
            r matches Ok(v) ==> customer_draft_acceptable(*draft) && customer_save_journal(
                *draft,
                v,
                final(journal)@,
            ),
    {
        validate_customer_draft(draft)?;
        let mut args = Vec::new();
        args.push(sql::text(draft.kind.clone()));
        args.push(sql::text(draft.name.clone()));
        args.push(opt_text_arg(&draft.phone));
        args.push(opt_text_arg(&draft.email));
        args.push(opt_text_arg(&draft.address));
        assert(params_view(args@) =~= customer_params(*draft));
        match draft.id {
            Some(id) => {
                args.push(sql::integer(id));
                assert(params_view(args@) =~= customer_params(*draft).push(ParamView::Int(id)));
                run_in(&self.connection, CUSTOMER_UPDATE_SQL, args, journal)?;
                assert(journal@ =~= seq![
                    Entry::Run(CUSTOMER_UPDATE_SQL@, customer_params(*draft).push(ParamView::Int(id))),
                ]);
                Ok(id)
            },
            None => {
                run_in(&self.connection, CUSTOMER_INSERT_SQL, args, journal)?;
                let id = rowid_in(&self.connection, journal);
                assert(journal@ =~= seq![
                    Entry::Run(CUSTOMER_INSERT_SQL@, customer_params(*draft)),
                    Entry::Rowid(id),
                ]);
                Ok(id)
            },
        }
    }

    /// The active customer with this id, if any.
    ///
    /// `customer_journaled` states the query it runs and how the row read is decoded.
    pub fn customer(&self, id: i64) -> (r: Result<Option<CustomerRecord>, DatabaseError>)
        ensures
            r is Err ==> store_failure(r),
    {
        let mut journal: Ghost<Seq<Entry>> = Ghost(Seq::empty());
        self.customer_journaled(id, &mut journal)
    }

    /// `customer`, with what it read: none when no row was read, else the customer the first row reads as.
    pub fn customer_journaled(&self, id: i64, journal: &mut Ghost<Seq<Entry>>) -> (r: Result<
        Option<CustomerRecord>,
        DatabaseError,
    >)
        requires
            old(journal)@ == Seq::<Entry>::empty(),
        ensures
            r matches Ok(o) ==> final(journal)@.len() == 1 && (read_rows(
                final(journal)@[0],
                CUSTOMER_READ_SQL@,
                seq![ParamView::Int(id)],
            ) matches Some(rows) && (o is None <==> rows.len() == 0) && (o matches Some(rec)
                ==> customer_row_is(rows[0], rec))),
            r is Err ==> store_failure(r),
    {
        let args = id_args(id);
        assert(params_view(args@) =~= seq![ParamView::Int(id)]);
        let rows = read_in(&self.connection, CUSTOMER_READ_SQL, args, 8, journal)?;
        let ghost rv = rows_view(rows@);
        if rows.len() == 0 {
            return Ok(None);
        }
        assert(rv[0] == rows@[0]@);
        assert(rows[0].len() == 8);
        Ok(Some(decode_customer_record(&rows[0])?))
    }

    /// Deactivates the customer, unless an invoice names them; the store
    /// moves a deactivated customer and its balance history to its archive.
    ///
    /// `remove_customer_journaled` states what it reads and runs.
    pub fn remove_customer(&self, id: i64) -> (r: Result<(), DatabaseError>)
        ensures
            r is Err ==> refused(r, "customer still has invoices on record"@) || store_failure(r),
    {
        let mut journal: Ghost<Seq<Entry>> = Ghost(Seq::empty());
        self.remove_customer_journaled(id, &mut journal)
    }

    /// `remove_customer`, with what it read and ran: whether an invoice
    /// names the customer is read; when one does the removal is refused,
    /// else the customer is deactivated.
    pub fn remove_customer_journaled(&self, id: i64, journal: &mut Ghost<Seq<Entry>>) -> (r: Result<
        (),
        DatabaseError,
    >)
        requires
            old(journal)@ == Seq::<Entry>::empty(),
        ensures
            r is Ok ==> final(journal)@.len() == 2 && read_int(
                final(journal)@[0],
                CUSTOMER_INVOICED_SQL@,
                seq![ParamView::Int(id)],
            ) == Some(0i64) && final(journal)@[1] == run_ints(CUSTOMER_DEACTIVATE_SQL@, seq![id]),
            refused(r, "customer still has invoices on record"@) ==> final(journal)@.len() == 1
                && (read_int(final(journal)@[0], CUSTOMER_INVOICED_SQL@, seq![ParamView::Int(id)])
                matches Some(v) && v != 0),
            r is Err ==> refused(r, "customer still has invoices on record"@) || store_failure(r),
    {
        assert("customer still has invoices on record"@ != "unexpected column value"@) by {
            reveal_strlit("customer still has invoices on record");
            reveal_strlit("unexpected column value");
            assert("customer still has invoices on record"@[0] != "unexpected column value"@[0]);
        }
        let args = id_args(id);
        assert(params_view(args@) =~= seq![ParamView::Int(id)]);
        let invoiced = read_int_in(&self.connection, CUSTOMER_INVOICED_SQL, args, journal)?;
        assert(journal@[0] == journal@.last());
        if invoiced != 0 {
            return Err(
                DatabaseError::Validation(String::from_str("customer still has invoices on record")),
            );
        }
        let args = id_args(id);
        assert(params_view(args@) =~= ints_view(seq![id]));
        run_in(&self.connection, CUSTOMER_DEACTIVATE_SQL, args, journal)?;
        Ok(())
    }
}

impl Database {
    /// Adds the customers read from a sheet in turn, each saved as
    /// `save_customer` saves it and given its opening balance; the number
    /// added. The first row refused stops the import.
    ///
    /// `import_customer_rows_journaled` states what it reads and runs.
    pub fn import_customer_rows(&self, rows: &[CustomerImportRow]) -> (r: Result<
        usize,
        DatabaseError,
    >)
        ensures
            rows.len() == 0 ==> r == Ok::<usize, DatabaseError>(0),
            r matches Ok(n) ==> n == rows.len() && forall|i: int|
                0 <= i < rows.len() ==> customer_draft_acceptable(#[trigger] rows[i].customer),
            rows.len() > 0 && !customer_draft_acceptable(rows[0].customer) ==> refused(
                r,
                customer_draft_error(rows[0].customer),
            ),
            r is Err ==> refused(r, "customer name is required"@) || refused(
                r,
                "invalid customer kind"@,
            ) || refused(r, "customer not found"@) || refused(r, "balance overflow"@)
                || store_failure(r),
    {
        let mut steps: Ghost<Seq<Seq<Entry>>> = Ghost(Seq::empty());
        self.import_customer_rows_journaled(rows, &mut steps)
    }

    /// `import_customer_rows`, with what it ran, one journal per row: the
    /// row's customer saved as `save_customer` saves it, then, when its
    /// opening balance is not zero, that balance added as
    /// `adjust_customer_balance` adds it (`customer_import_step`).
    pub fn import_customer_rows_journaled(
        &self,
        rows: &[CustomerImportRow],
        steps: &mut Ghost<Seq<Seq<Entry>>>,
    ) -> (r: Result<usize, DatabaseError>)
        requires
            old(steps)@ == Seq::<Seq<Entry>>::empty(),
        ensures
            rows.len() == 0 ==> r == Ok::<usize, DatabaseError>(0),
            r matches Ok(n) ==> n == rows.len() && final(steps)@.len() == rows.len() && forall|i: int|
                0 <= i < rows.len() ==> customer_draft_acceptable(#[trigger] rows[i].customer)
                    && customer_import_step(rows[i], final(steps)@[i]),
            rows.len() > 0 && !customer_draft_acceptable(rows[0].customer) ==> refused(
                r,
                customer_draft_error(rows[0].customer),
            ),
            r is Err ==> refused(r, "customer name is required"@) || refused(
                r,
                "invalid customer kind"@,
            ) || refused(r, "customer not found"@) || refused(r, "balance overflow"@)
                || store_failure(r),
    {
        let mut inserted: usize = 0;
        while inserted < rows.len()
            invariant
                inserted <= rows.len(),
                steps@.len() == inserted,
                forall|i: int|
                    0 <= i < inserted ==> customer_draft_acceptable(#[trigger] rows[i].customer)
                        && customer_import_step(rows[i], steps@[i]),
            decreases rows.len() - inserted,
        {
            let row = &rows[inserted];
            let mut saved: Ghost<Seq<Entry>> = Ghost(Seq::empty());
            let id = self.save_customer_journaled(&row.customer, &mut saved)?;
            let mut step: Ghost<Seq<Entry>> = Ghost(saved@);
            if row.opening_balance_minor != 0 {
                let mut adjusted: Ghost<Seq<Entry>> = Ghost(Seq::empty());
                let balance = self.adjust_customer_balance_journaled(
                    id,
                    row.opening_balance_minor,
                    Some("مانده اولیه ورود گروهی"),
                    &mut adjusted,
                )?;
                step = Ghost(saved@ + adjusted@);
                assert(step@.skip(saved_len(row.customer)) =~= adjusted@);
                assert(step@.take(saved_len(row.customer)) =~= saved@);
                assert(balance_adjustment_journal(
                    id,
                    row.opening_balance_minor,
                    Some(opening_note()),
                    balance,
                    step@.skip(saved_len(row.customer)),
                ));
            } else {
                assert(step@.take(saved_len(row.customer)) =~= saved@);
            }
            assert(saved_id(row.customer, step@) == id);
            assert(customer_import_step(*row, step@));
            let ghost prior = steps@;
            *steps = Ghost(steps@.push(step@));
            assert forall|i: int| 0 <= i < inserted + 1 implies customer_draft_acceptable(
                #[trigger] rows[i].customer,
            ) && customer_import_step(rows[i], steps@[i]) by {
                if i < inserted {
                    assert(steps@[i] == prior[i]);
                }
            }
            inserted = inserted + 1;
        }
        Ok(inserted)
    }
}


/// Every kind of customer the customer editor offers (a person or a
/// business) and every kind a customer sheet names, in Persian or in
/// English, is accepted for a customer with a name; the two names of a kind
/// read alike.
pub proof fn offered_customer_kinds_accepted(d: CustomerDraft, label: Seq<char>)
    requires
        !is_blank(d.name@),
    ensures
        (d.kind@ == "individual"@ || d.kind@ == "business"@) ==> customer_draft_acceptable(d),
        crate::import::customer_kind_code(label) == Some(d.kind@) ==> customer_draft_acceptable(d),
        crate::import::customer_kind_code("حقیقی"@) == crate::import::customer_kind_code(
            "individual"@,
        ),
        crate::import::customer_kind_code("حقوقی"@) == crate::import::customer_kind_code(
            "business"@,
        ),
        crate::import::customer_kind_code("individual"@) != crate::import::customer_kind_code(
            "business"@,
        ),
{
    reveal_strlit("حقیقی");
    reveal_strlit("حقوقی");
    reveal_strlit("individual");
    reveal_strlit("business");
    assert("حقوقی"@[2] != "حقیقی"@[2]);
    assert("business"@[0] != "individual"@[0]);
    assert("individual"@[0] != "حقیقی"@[0]);
    assert("individual"@[0] != "حقوقی"@[0]);
    assert("business"@[0] != "حقیقی"@[0]);
    assert("business"@[0] != "حقوقی"@[0]);
}


/// A customer a customer sheet accepts is one the store takes: its name
/// is not blank and its kind is known.
pub proof fn accepted_customer_rows_are_acceptable(v: Seq<Seq<char>>, row: int, c: crate::import::CustomerImportRow)
    requires
        crate::import::customer_row_error(v, row) is None,
        crate::import::customer_row_read(v, c),
    ensures
        customer_draft_acceptable(c.customer),
{
    crate::text::lemma_trimmed_twice(v[1]);
}

} // verus!
