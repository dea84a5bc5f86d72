//! Fund accounts, their transactions, and scheduled checks and installments.

use vstd::prelude::*;

use super::journal::{
    begin_in, commit_in, first_row, opt_text_view, params_view, read_first_in, read_int,
    read_in, read_int_in, read_rows, rowid_in, rows_view, run_in, Entry, ParamView,
};
use super::sql::{self, Cell};
use super::{like_pattern_of, cell_int, cell_text, id_args, refused, search_args, store_failure, Database, DatabaseError};
use crate::models::{valid_date, Date};
use crate::text::{
    blank, chars_of, int_text, is_blank, opt_string_view, parse_int_range, parse_signed, parse_unsigned, push_int,
    same_text, split_at_char, split_chars,
};

verus! {

broadcast use vstd::string::group_string_axioms;

/// The active accounts with their balances, most recently changed first.
pub const FUND_ACCOUNTS_SQL: &'static str = "SELECT a.id, a.kind, a.name, COALESCE(a.account_number, ''), a.opening_balance_minor,
                    a.opening_balance_minor + COALESCE(SUM(CASE
                        WHEN t.kind = 'income' THEN t.amount_minor
                        WHEN t.kind = 'expense' THEN -t.amount_minor
                        WHEN t.kind = 'transfer' AND t.account_id = a.id THEN -t.amount_minor
                        WHEN t.kind = 'transfer' AND t.transfer_account_id = a.id THEN t.amount_minor
                        ELSE 0 END), 0)
             FROM fund_accounts a
             LEFT JOIN fund_transactions t ON t.account_id = a.id OR t.transfer_account_id = a.id
             WHERE a.active = 1
             GROUP BY a.id
             ORDER BY a.updated_at DESC, a.id DESC";

/// The transactions whose account names, reference or description match a pattern, latest first.
pub const FUND_TRANSACTIONS_SQL: &'static str = "SELECT t.id, t.kind, a.name, COALESCE(ta.name, ''), t.amount_minor, t.category,
                    t.occurred_on, COALESCE(t.reference, ''), COALESCE(t.description, '')
             FROM fund_transactions t
             JOIN fund_accounts a ON a.id = t.account_id
             LEFT JOIN fund_accounts ta ON ta.id = t.transfer_account_id
             WHERE a.name LIKE ?1 OR COALESCE(ta.name, '') LIKE ?1
                OR COALESCE(t.reference, '') LIKE ?1 OR COALESCE(t.description, '') LIKE ?1
             ORDER BY t.occurred_on DESC, t.id DESC";

/// The scheduled items whose party, number, bank or note match a pattern, upcoming first, then by due date.
pub const FUND_CHECKS_SQL: &'static str = "SELECT c.id, c.schedule_type, c.direction, a.name, c.party_name,
                    CASE WHEN c.check_number LIKE 'AUTO-%' THEN '' ELSE c.check_number END,
                    COALESCE(c.bank_name, ''), c.amount_minor, c.due_on, c.status, COALESCE(c.note, '')
             FROM fund_checks c
             JOIN fund_accounts a ON a.id = c.account_id
             WHERE c.party_name LIKE ?1 OR c.check_number LIKE ?1
                OR COALESCE(c.bank_name, '') LIKE ?1 OR COALESCE(c.note, '') LIKE ?1
             ORDER BY CASE WHEN c.status = 'upcoming' THEN 0 ELSE 1 END, c.due_on, c.id DESC";

/// The kind of an active account.
pub const ACCOUNT_KIND_SQL: &'static str = "SELECT kind FROM fund_accounts WHERE id = ?1 AND active = 1";

/// Inserts a scheduled item, with a generated number when its number is
/// blank.
pub const CHECK_INSERT_SQL: &'static str = "INSERT INTO fund_checks
             (schedule_type, direction, account_id, party_name, check_number, bank_name,
              amount_minor, due_on, note)
             VALUES (?1, ?2, ?3, ?4,
                     CASE WHEN trim(?5) = '' THEN 'AUTO-' || lower(hex(randomblob(8))) ELSE ?5 END,
                     ?6, ?7, ?8, ?9)";

/// The status of a scheduled item.
pub const CHECK_STATUS_READ_SQL: &'static str = "SELECT status FROM fund_checks WHERE id = ?1";

/// Rewrites a scheduled item, with a generated number when its number is
/// blank.
pub const CHECK_UPDATE_SQL: &'static str = "UPDATE fund_checks
             SET schedule_type = ?1, direction = ?2, account_id = ?3, party_name = ?4,
                 check_number = CASE WHEN trim(?5) = '' THEN 'AUTO-' || lower(hex(randomblob(8))) ELSE ?5 END,
                 bank_name = ?6, amount_minor = ?7, due_on = ?8, note = ?9,
                 updated_at = CURRENT_TIMESTAMP
             WHERE id = ?10";

/// Rewrites the settlement transaction of a cleared item.
pub const SETTLEMENT_UPDATE_SQL: &'static str = "UPDATE fund_transactions
                 SET account_id = ?1, kind = ?2, amount_minor = ?3, occurred_on = ?4,
                     description = ?5, updated_at = CURRENT_TIMESTAMP
                 WHERE reference = ?6";

/// The kind a read of an active account found.
pub open spec fn account_kind_read(e: Entry, account: i64) -> Option<Seq<char>> {
    match first_row(e, ACCOUNT_KIND_SQL@, seq![ParamView::Int(account)]) {
        Some(row) => if row.len() == 1 && row[0] is Text {
            Some(row[0]->Text_0@)
        } else {
            None
        },
        None => None,
    }
}

/// A check drawn on a cash account, which the store refuses.
pub open spec fn check_on_cash(d: FundCheckDraft, kind: Seq<char>) -> bool {
    d.schedule_type@ == "check"@ && kind == "cash"@
}

/// The parameters of a cleared item's settlement after a rewrite: account,
/// kind, amount, date, description, and the reference it is found by.
pub open spec fn settlement_update_params(id: i64, d: FundCheckDraft) -> Seq<ParamView> {
    seq![
        ParamView::Int(d.account_id),
        ParamView::Text(settlement_kind(d.direction@)),
        ParamView::Int(d.amount_minor),
        ParamView::Text(d.due_on@),
        ParamView::Text(settlement_description("چک"@, d.party_name@)),
        ParamView::Text(check_reference(id as int)),
    ]
}

/// A rewrite of a scheduled item that went through. In one transaction the
/// kind of its account is read (not a check on a cash account), its status
/// is read, it is rewritten, and when it was cleared its settlement follows;
/// then the transaction is committed.
pub open spec fn check_update_journal(id: i64, d: FundCheckDraft, j: Seq<Entry>) -> bool {
    &&& j.len() >= 5
    &&& j[0] == Entry::Begin
    &&& account_kind_read(j[1], d.account_id) matches Some(kind) && !check_on_cash(d, kind)
    &&& first_row(j[2], CHECK_STATUS_READ_SQL@, seq![ParamView::Int(id)]) matches Some(row) && {
        &&& row.len() == 1 && row[0] is Text
        &&& if row[0]->Text_0@ == "cleared"@ {
            j.len() == 6 && j[4] == Entry::Run(SETTLEMENT_UPDATE_SQL@, settlement_update_params(id, d))
        } else {
            j.len() == 5
        }
    }
    &&& j[3] == Entry::Run(CHECK_UPDATE_SQL@, check_params(d).push(ParamView::Int(id)))
    &&& j[j.len() - 1] == Entry::Commit
}

/// Rewrites an account.
pub const ACCOUNT_UPDATE_SQL: &'static str = "UPDATE fund_accounts
                     SET kind = ?1, name = ?2, account_number = ?3, opening_balance_minor = ?4,
                         updated_at = CURRENT_TIMESTAMP
                     WHERE id = ?5 AND active = 1";

/// Inserts an account.
pub const ACCOUNT_INSERT_SQL: &'static str = "INSERT INTO fund_accounts (kind, name, account_number, opening_balance_minor, currency)
                     VALUES (?1, ?2, ?3, ?4, 'IRR')";

/// Whether a transaction or a scheduled item uses an account.
pub const ACCOUNT_USED_SQL: &'static str = "SELECT EXISTS(SELECT 1 FROM fund_transactions WHERE account_id = ?1 OR transfer_account_id = ?1)
                 OR EXISTS(SELECT 1 FROM fund_checks WHERE account_id = ?1)";

/// Deactivates an account.
pub const ACCOUNT_DEACTIVATE_SQL: &'static str = "UPDATE fund_accounts SET active = 0, updated_at = CURRENT_TIMESTAMP WHERE id = ?1";

/// Inserts a transaction.
pub const TRANSACTION_INSERT_SQL: &'static str = "INSERT INTO fund_transactions
             (account_id, transfer_account_id, kind, amount_minor, currency, category, occurred_on,
              reference, description, created_by)
             VALUES (?1, ?2, ?3, ?4, 'IRR', ?5, ?6, ?7, ?8, (SELECT id FROM users ORDER BY id LIMIT 1))";

/// Deletes a transaction.
pub const TRANSACTION_DELETE_SQL: &'static str = "DELETE FROM fund_transactions WHERE id = ?1";

/// Rewrites a transaction.
pub const TRANSACTION_UPDATE_SQL: &'static str = "UPDATE fund_transactions
             SET account_id = ?1, transfer_account_id = ?2, kind = ?3, amount_minor = ?4,
                 category = ?5, occurred_on = ?6, reference = ?7, description = ?8,
                 updated_at = CURRENT_TIMESTAMP
             WHERE id = ?9";

/// Deletes the transaction with a settlement reference.
pub const SETTLEMENT_DELETE_SQL: &'static str = "DELETE FROM fund_transactions WHERE reference = ?1";

/// Deletes a scheduled item.
pub const CHECK_DELETE_SQL: &'static str = "DELETE FROM fund_checks WHERE id = ?1";

/// The parameters of an account: kind, name, number and opening balance.
pub open spec fn account_params(d: FundAccountDraft) -> Seq<ParamView> {
    seq![
        ParamView::Text(d.kind@),
        ParamView::Text(d.name@),
        opt_text_view(opt_string_view(d.account_number)),
        ParamView::Int(d.opening_balance_minor),
    ]
}

/// The parameters of a transaction: account, target account, kind, amount,
/// category, date, reference and description.
pub open spec fn transaction_params(d: FundTransactionDraft) -> Seq<ParamView> {
    seq![
        ParamView::Int(d.account_id),
        opt_int_param(d.transfer_account_id),
        ParamView::Text(d.kind@),
        ParamView::Int(d.amount_minor),
        ParamView::Text(d.category@),
        ParamView::Text(d.occurred_on@),
        opt_text_view(opt_string_view(d.reference)),
        opt_text_view(opt_string_view(d.description)),
    ]
}

/// The parameters of a scheduled item: type, direction, account, party,
/// number, bank, amount, due date and note.
pub open spec fn check_params(d: FundCheckDraft) -> Seq<ParamView> {
    seq![
        ParamView::Text(d.schedule_type@),
        ParamView::Text(d.direction@),
        ParamView::Int(d.account_id),
        ParamView::Text(d.party_name@),
        ParamView::Text(d.check_number@),
        opt_text_view(opt_string_view(d.bank_name)),
        ParamView::Int(d.amount_minor),
        ParamView::Text(d.due_on@),
        opt_text_view(opt_string_view(d.note)),
    ]
}

/// An optional integer parameter as the journal keeps it.
pub open spec fn opt_int_param(v: Option<i64>) -> ParamView {
    match v {
        Some(i) => ParamView::Int(i),
        None => ParamView::Null,
    }
}

/// A scheduled item's type, direction, account, amount, due date, party and
/// status.
pub const CHECK_READ_SQL: &'static str = "SELECT schedule_type, direction, account_id, amount_minor, due_on, party_name, status
             FROM fund_checks WHERE id = ?1";

/// Sets the status of a scheduled item.
pub const CHECK_STATUS_SET_SQL: &'static str = "UPDATE fund_checks SET status = ?1, updated_at = CURRENT_TIMESTAMP WHERE id = ?2";

/// Records the settlement transaction of a cleared item.
pub const SETTLEMENT_RECORD_SQL: &'static str = "INSERT INTO fund_transactions
                 (account_id, kind, amount_minor, currency, category, occurred_on, reference, description)
                 VALUES (?1, ?2, ?3, 'IRR', ?4, ?5, ?6, ?7)";

/// The parameters of the settlement of an item read as `row` (type,
/// direction, account, amount, due date, party, status): its account, the
/// kind its direction gives, its amount, the label of its type as category,
/// its due date, the reference that ties it to the item, and the
/// description.
pub open spec fn settlement_params(id: i64, row: Seq<Cell>) -> Seq<ParamView> {
    seq![
        ParamView::Int(row[2]->Int_0),
        ParamView::Text(settlement_kind(row[1]->Text_0@)),
        ParamView::Int(row[3]->Int_0),
        ParamView::Text(schedule_label(row[0]->Text_0@)),
        ParamView::Text(row[4]->Text_0@),
        ParamView::Text(check_reference(id as int)),
        ParamView::Text(settlement_description(schedule_label(row[0]->Text_0@), row[5]->Text_0@)),
    ]
}

/// A status change that went through. In one transaction the item is read
/// (its status upcoming), the new, known status is stored, and when it is
/// `cleared` the settlement transaction is recorded; then the transaction
/// is committed.
pub open spec fn check_status_journal(id: i64, status: Seq<char>, j: Seq<Entry>) -> bool {
    &&& status_known(status)
    &&& j.len() >= 4
    &&& j[0] == Entry::Begin
    &&& first_row(j[1], CHECK_READ_SQL@, seq![ParamView::Int(id)]) matches Some(row) && {
        &&& row.len() == 7
        &&& row[0] is Text && row[1] is Text && row[2] is Int && row[3] is Int
        &&& row[4] is Text && row[5] is Text && row[6] is Text
        &&& row[6]->Text_0@ == "upcoming"@
        &&& if status == "cleared"@ {
            j.len() == 5 && j[3] == Entry::Run(SETTLEMENT_RECORD_SQL@, settlement_params(id, row))
        } else {
            j.len() == 4
        }
    }
    &&& j[2] == Entry::Run(CHECK_STATUS_SET_SQL@, seq![ParamView::Text(status), ParamView::Int(id)])
    &&& j[j.len() - 1] == Entry::Commit
}

/// An active account with its balance: the opening balance plus income,
/// less expenses, less transfers out and plus transfers in.
#[derive(Debug, Clone, PartialEq, Eq)]
pub struct FundAccountRecord {
    pub id: i64,
    pub kind: String,
    pub name: String,
    pub account_number: String,
    pub opening_balance_minor: i64,
    pub balance_minor: i64,
}

/// An account to create (no `id`) or update.
#[derive(Debug, Clone, PartialEq, Eq)]
pub struct FundAccountDraft {
    pub id: Option<i64>,
    pub kind: String,
    pub name: String,
    pub account_number: Option<String>,
    pub opening_balance_minor: i64,
}

/// A transaction as listed, with its accounts by name.
#[derive(Debug, Clone, PartialEq, Eq)]
pub struct FundTransactionRecord {
    pub id: i64,
    pub kind: String,
    pub account_name: String,
    pub transfer_account_name: String,
    pub amount_minor: i64,
    pub category: String,
    pub occurred_on: String,
    pub reference: String,
    pub description: String,
}

/// An income, expense or transfer to record.
#[derive(Debug, Clone, PartialEq, Eq)]
pub struct FundTransactionDraft {
    pub account_id: i64,
    pub transfer_account_id: Option<i64>,
    pub kind: String,
    pub amount_minor: i64,
    pub category: String,
    pub occurred_on: String,
    pub reference: Option<String>,
    pub description: Option<String>,
}

/// A scheduled check, installment or payment as listed; generated check
/// numbers read as empty.
#[derive(Debug, Clone, PartialEq, Eq)]
pub struct FundCheckRecord {
    pub id: i64,
    pub schedule_type: String,
    pub direction: String,
    pub account_name: String,
    pub party_name: String,
    pub check_number: String,
    pub bank_name: String,
    pub amount_minor: i64,
    pub due_on: String,
    pub status: String,
    pub note: String,
}

/// A scheduled check, installment or payment to record.
#[derive(Debug, Clone, PartialEq, Eq)]
pub struct FundCheckDraft {
    pub schedule_type: String,
    pub direction: String,
    pub account_id: i64,
    pub party_name: String,
    pub check_number: String,
    pub bank_name: Option<String>,
    pub amount_minor: i64,
    pub due_on: String,
    pub note: Option<String>,
}

// ---------------------------------------------------------------------
// Dates
// ---------------------------------------------------------------------

/// A calendar date written `YYYY-MM-DD`: three pieces between `-` of four,
/// two and two characters that parse as year (`i32`), month and day (`u8`)
/// of a valid Gregorian date. (A piece with a character outside ASCII never
/// parses, so counting characters and counting bytes agree.)
pub open spec fn iso_date_valid(s: Seq<char>) -> bool {
    let p = split_at_char(s, '-');
    &&& p.len() == 3
    &&& p[0].len() == 4 && p[1].len() == 2 && p[2].len() == 2
    &&& parse_signed(p[0], i32::MIN as int, i32::MAX as int) is Some
    &&& parse_unsigned(p[1], 255) is Some
    &&& parse_unsigned(p[2], 255) is Some
    &&& valid_date(
        parse_signed(p[0], i32::MIN as int, i32::MAX as int)->Some_0,
        parse_unsigned(p[1], 255)->Some_0,
        parse_unsigned(p[2], 255)->Some_0,
    )
}

/// `str::parse::<u8>` of the characters.
fn parse_u8_chars(v: &Vec<char>) -> (r: Option<u8>)
    ensures
        r matches Some(x) ==> parse_unsigned(v@, 255) == Some(x as int),
        r is None ==> parse_unsigned(v@, 255) is None,
{
    assert(v@.subrange(0, v@.len() as int) =~= v@);
    if v.len() > 0 && v[0] == '-' {
        return None;
    }
    match parse_int_range(v, 0, v.len(), 0, 255) {
        Some(x) => Some(x as u8),
        None => None,
    }
}

pub fn valid_iso_date(value: &str) -> (r: bool)
    ensures
        r == iso_date_valid(value@),
{
    let chars = chars_of(value);
    let parts = split_chars(&chars, '-');
    let ghost views = parts@.map_values(|p: Vec<char>| p@);
    assert(views.len() == parts@.len());
    if parts.len() != 3 {
        return false;
    }
    assert(views[0] == parts@[0]@);
    assert(views[1] == parts@[1]@);
    assert(views[2] == parts@[2]@);
    if parts[0].len() != 4 || parts[1].len() != 2 || parts[2].len() != 2 {
        return false;
    }
    assert(parts@[0]@.subrange(0, 4) =~= parts@[0]@);
    let year = match parse_int_range(&parts[0], 0, 4, i32::MIN as i64, i32::MAX as i64) {
        Some(y) => y as i32,
        None => {
            return false;
        },
    };
    let month = match parse_u8_chars(&parts[1]) {
        Some(m) => m,
        None => {
            return false;
        },
    };
    let day = match parse_u8_chars(&parts[2]) {
        Some(d) => d,
        None => {
            return false;
        },
    };
    match Date::new(year, month, day) {
        Ok(_) => true,
        Err(_) => false,
    }
}

// ---------------------------------------------------------------------
// Rules
// ---------------------------------------------------------------------

pub open spec fn account_kind_known(kind: Seq<char>) -> bool {
    kind == "cash"@ || kind == "bank"@ || kind == "card"@ || kind == "other"@
}

/// Why an account draft is refused, if it is.
pub open spec fn account_draft_error(d: FundAccountDraft) -> Option<Seq<char>> {
    if is_blank(d.name@) || d.opening_balance_minor < 0 {
        Some("invalid account"@)
    } else if d.kind@ == "cash"@ && d.account_number is Some {
        Some("cash account cannot have an account number"@)
    } else if !account_kind_known(d.kind@) {
        Some("invalid account kind"@)
    } else {
        None
    }
}

pub fn validate_account_draft(d: &FundAccountDraft) -> (r: Result<(), DatabaseError>)
    ensures
        account_draft_error(*d) matches Some(m) ==> refused(r, m),
        account_draft_error(*d) is None ==> r is Ok,
{
    if blank(d.name.as_str()) || d.opening_balance_minor < 0 {
        return Err(DatabaseError::Validation(String::from_str("invalid account")));
    }
    if same_text(d.kind.as_str(), "cash") && d.account_number.is_some() {
        return Err(
            DatabaseError::Validation(
                String::from_str("cash account cannot have an account number"),
            ),
        );
    }
    let kind = d.kind.as_str();
    if !(same_text(kind, "cash") || same_text(kind, "bank") || same_text(kind, "card")
        || same_text(kind, "other")) {
        return Err(DatabaseError::Validation(String::from_str("invalid account kind")));
    }
    Ok(())
}

/// Why the accounts of a transaction do not fit its kind, if they do not:
/// a transfer needs a second account other than the first, income and
/// expense none.
pub open spec fn transaction_accounts_error(d: FundTransactionDraft) -> Option<Seq<char>> {
    if d.kind@ == "transfer"@ && d.transfer_account_id is Some && d.transfer_account_id->Some_0
        != d.account_id {
        None
    } else if (d.kind@ == "income"@ || d.kind@ == "expense"@) && d.transfer_account_id is None {
        None
    } else if d.kind@ == "transfer"@ {
        Some("source and destination accounts must be different"@)
    } else {
        Some("invalid transaction kind"@)
    }
}

/// Why a transaction draft is refused, if it is.
pub open spec fn transaction_draft_error(d: FundTransactionDraft) -> Option<Seq<char>> {
    if d.amount_minor <= 0 || !iso_date_valid(d.occurred_on@) {
        Some("invalid transaction"@)
    } else {
        transaction_accounts_error(d)
    }
}

pub fn validate_transaction_accounts(d: &FundTransactionDraft) -> (r: Result<(), DatabaseError>)
    ensures
        transaction_accounts_error(*d) matches Some(m) ==> refused(r, m),
        transaction_accounts_error(*d) is None ==> r is Ok,
{
    let kind = d.kind.as_str();
    let transfer = same_text(kind, "transfer");
    match d.transfer_account_id {
        Some(target) => {
            if transfer && target != d.account_id {
                return Ok(());
            }
        },
        None => {
            if same_text(kind, "income") || same_text(kind, "expense") {
                return Ok(());
            }
        },
    }
    if transfer {
        Err(
            DatabaseError::Validation(
                String::from_str("source and destination accounts must be different"),
            ),
        )
    } else {
        Err(DatabaseError::Validation(String::from_str("invalid transaction kind")))
    }
}

pub fn validate_transaction_draft(d: &FundTransactionDraft) -> (r: Result<(), DatabaseError>)
    ensures
        transaction_draft_error(*d) matches Some(m) ==> refused(r, m),
        transaction_draft_error(*d) is None ==> r is Ok,
{
    if d.amount_minor <= 0 || !valid_iso_date(d.occurred_on.as_str()) {
        return Err(DatabaseError::Validation(String::from_str("invalid transaction")));
    }
    validate_transaction_accounts(d)
}

pub open spec fn schedule_known(schedule_type: Seq<char>) -> bool {
    schedule_type == "check"@ || schedule_type == "installment"@ || schedule_type == "scheduled"@
}

/// A scheduled item has a positive amount, a party, a valid due date and a
/// known type; a check also has a number.
pub open spec fn check_draft_acceptable(d: FundCheckDraft) -> bool {
    &&& d.amount_minor > 0
    &&& !is_blank(d.party_name@)
    &&& iso_date_valid(d.due_on@)
    &&& schedule_known(d.schedule_type@)
    &&& !(d.schedule_type@ == "check"@ && is_blank(d.check_number@))
}

pub fn check_draft_is_acceptable(d: &FundCheckDraft) -> (r: bool)
    ensures
        r == check_draft_acceptable(*d),
{
    let schedule = d.schedule_type.as_str();
    let is_check = same_text(schedule, "check");
    d.amount_minor > 0 && !blank(d.party_name.as_str()) && valid_iso_date(d.due_on.as_str()) && (
    is_check || same_text(schedule, "installment") || same_text(schedule, "scheduled")) && !(
    is_check && blank(d.check_number.as_str()))
}

pub open spec fn status_known(status: Seq<char>) -> bool {
    status == "upcoming"@ || status == "cleared"@ || status == "returned"@ || status
        == "cancelled"@
}

/// A status change of a scheduled item: only a known status is accepted,
/// and only while the item is upcoming; the result says whether a
/// settlement is to be recorded (the item was cleared).
pub fn status_change(current: &str, requested: &str) -> (r: Result<bool, DatabaseError>)
    ensures
        !status_known(requested@) ==> refused(r, "invalid status"@),
        status_known(requested@) && current@ != "upcoming"@ ==> refused(
            r,
            "check is already finalized"@,
        ),
        status_known(requested@) && current@ == "upcoming"@ ==> r == Ok::<bool, DatabaseError>(
            requested@ == "cleared"@,
        ),
{
    if !(same_text(requested, "upcoming") || same_text(requested, "cleared") || same_text(
        requested,
        "returned",
    ) || same_text(requested, "cancelled")) {
        return Err(DatabaseError::Validation(String::from_str("invalid status")));
    }
    if !same_text(current, "upcoming") {
        return Err(DatabaseError::Validation(String::from_str("check is already finalized")));
    }
    Ok(same_text(requested, "cleared"))
}

/// The name under which a settlement of a scheduled item is filed.
pub open spec fn schedule_label(schedule_type: Seq<char>) -> Seq<char> {
    if schedule_type == "check"@ {
        "چک"@
    } else if schedule_type == "installment"@ {
        "قسط"@
    } else {
        "پرداخت زمان‌بندی‌شده"@
    }
}

/// Money coming in is income; anything else is an expense.
pub open spec fn settlement_kind(direction: Seq<char>) -> Seq<char> {
    if direction == "incoming"@ {
        "income"@
    } else {
        "expense"@
    }
}

/// The reference that ties a settlement transaction to its item.
pub open spec fn check_reference(id: int) -> Seq<char> {
    "CHECK-"@ + int_text(id)
}

pub open spec fn settlement_description(label: Seq<char>, party: Seq<char>) -> Seq<char> {
    "تسویه "@ + label + " "@ + party
}

/// The transaction that records a cleared item.
#[derive(Debug, Clone, PartialEq, Eq)]
pub struct CheckSettlement {
    pub kind: String,
    pub category: String,
    pub reference: String,
    pub description: String,
}

pub fn schedule_label_of(schedule_type: &str) -> (r: &'static str)
    ensures
        r@ == schedule_label(schedule_type@),
{
    if same_text(schedule_type, "check") {
        "چک"
    } else if same_text(schedule_type, "installment") {
        "قسط"
    } else {
        "پرداخت زمان‌بندی‌شده"
    }
}

pub fn settlement_kind_of(direction: &str) -> (r: &'static str)
    ensures
        r@ == settlement_kind(direction@),
{
    if same_text(direction, "incoming") {
        "income"
    } else {
        "expense"
    }
}

pub fn check_reference_of(id: i64) -> (r: String)
    ensures
        r@ == check_reference(id as int),
{
    let mut out = String::from_str("CHECK-");
    push_int(&mut out, id);
    out
}

pub fn settlement_description_of(label: &str, party: &str) -> (r: String)
    ensures
        r@ == settlement_description(label@, party@),
{
    let mut out = String::from_str("تسویه ");
    out.append(label);
    out.append(" ");
    out.append(party);
    out
}

/// The settlement of item `id`: filed under its type's label, income or
/// expense by direction, referenced by the item, described by label and party.
pub fn check_settlement(id: i64, schedule_type: &str, direction: &str, party: &str) -> (r:
    CheckSettlement)
    ensures
        r.kind@ == settlement_kind(direction@),
        r.category@ == schedule_label(schedule_type@),
        r.reference@ == check_reference(id as int),
        r.description@ == settlement_description(schedule_label(schedule_type@), party@),
{
    let label = schedule_label_of(schedule_type);
    CheckSettlement {
        kind: String::from_str(settlement_kind_of(direction)),
        category: String::from_str(label),
        reference: check_reference_of(id),
        description: settlement_description_of(label, party),
    }
}

// ---------------------------------------------------------------------
// Rows
// ---------------------------------------------------------------------

/// The row reads as this record, column by column.
pub open spec fn fund_account_row_is(row: Seq<Cell>, rec: FundAccountRecord) -> bool {
    row[0] == Cell::Int(rec.id) && row[1] is Text && row[1]->Text_0@
            == rec.kind@ && row[2] is Text && row[2]->Text_0@ == rec.name@ && row[3] is Text
            && row[3]->Text_0@ == rec.account_number@ && row[4] == Cell::Int(
            rec.opening_balance_minor,
        ) && row[5] == Cell::Int(rec.balance_minor)
}

/// Reads a row of `id, kind, name, account_number, opening_balance, balance`.
pub fn decode_fund_account_record(row: &Vec<Cell>) -> (r: Result<FundAccountRecord, DatabaseError>)
    requires
        row.len() == 6,
    ensures
        r is Ok <==> (row[0] is Int && row[1] is Text && row[2] is Text && row[3] is Text
            && row[4] is Int && row[5] is Int),
        r is Err ==> refused(r, "unexpected column value"@),
        r matches Ok(rec) ==> row[0] == Cell::Int(rec.id) && row[1] is Text && row[1]->Text_0@
            == rec.kind@ && row[2] is Text && row[2]->Text_0@ == rec.name@ && row[3] is Text
            && row[3]->Text_0@ == rec.account_number@ && row[4] == Cell::Int(
            rec.opening_balance_minor,
        ) && row[5] == Cell::Int(rec.balance_minor),
        r matches Ok(rec) ==> fund_account_row_is(row@, rec),
{
    Ok(
        FundAccountRecord {
            id: cell_int(row, 0)?,
            kind: cell_text(row, 1)?,
            name: cell_text(row, 2)?,
            account_number: cell_text(row, 3)?,
            opening_balance_minor: cell_int(row, 4)?,
            balance_minor: cell_int(row, 5)?,
        },
    )
}

/// The row reads as this record, column by column.
pub open spec fn fund_transaction_row_is(row: Seq<Cell>, rec: FundTransactionRecord) -> bool {
    row[0] == Cell::Int(rec.id) && row[1] is Text && row[1]->Text_0@
            == rec.kind@ && row[2] is Text && row[2]->Text_0@ == rec.account_name@ && row[3] is Text
            && row[3]->Text_0@ == rec.transfer_account_name@ && row[4] == Cell::Int(
            rec.amount_minor,
        ) && row[5] is Text && row[5]->Text_0@ == rec.category@ && row[6] is Text
            && row[6]->Text_0@ == rec.occurred_on@ && row[7] is Text && row[7]->Text_0@
            == rec.reference@ && row[8] is Text && row[8]->Text_0@ == rec.description@
}

/// Reads a row of the nine transaction columns, in the order of the fields.
pub fn decode_fund_transaction_record(row: &Vec<Cell>) -> (r: Result<
    FundTransactionRecord,
    DatabaseError,
>)
    requires
        row.len() == 9,
    ensures
        r is Ok <==> (row[0] is Int && row[1] is Text && row[2] is Text && row[3] is Text
            && row[4] is Int && row[5] is Text && row[6] is Text && row[7] is Text && row[8] is Text),
        r is Err ==> refused(r, "unexpected column value"@),
        r matches Ok(rec) ==> row[0] == Cell::Int(rec.id) && row[1] is Text && row[1]->Text_0@
            == rec.kind@ && row[2] is Text && row[2]->Text_0@ == rec.account_name@ && row[3] is Text
            && row[3]->Text_0@ == rec.transfer_account_name@ && row[4] == Cell::Int(
            rec.amount_minor,
        ) && row[5] is Text && row[5]->Text_0@ == rec.category@ && row[6] is Text
            && row[6]->Text_0@ == rec.occurred_on@ && row[7] is Text && row[7]->Text_0@
            == rec.reference@ && row[8] is Text && row[8]->Text_0@ == rec.description@,
        r matches Ok(rec) ==> fund_transaction_row_is(row@, rec),
{
    Ok(
        FundTransactionRecord {
            id: cell_int(row, 0)?,
            kind: cell_text(row, 1)?,
            account_name: cell_text(row, 2)?,
            transfer_account_name: cell_text(row, 3)?,
            amount_minor: cell_int(row, 4)?,
            category: cell_text(row, 5)?,
            occurred_on: cell_text(row, 6)?,
            reference: cell_text(row, 7)?,
            description: cell_text(row, 8)?,
        },
    )
}

/// The row reads as this record, column by column.
pub open spec fn fund_check_row_is(row: Seq<Cell>, rec: FundCheckRecord) -> bool {
    row[0] == Cell::Int(rec.id) && row[1] is Text && row[1]->Text_0@
            == rec.schedule_type@ && row[2] is Text && row[2]->Text_0@ == rec.direction@
            && row[3] is Text && row[3]->Text_0@ == rec.account_name@ && row[4] is Text
            && row[4]->Text_0@ == rec.party_name@ && row[5] is Text && row[5]->Text_0@
            == rec.check_number@ && row[6] is Text && row[6]->Text_0@ == rec.bank_name@
            && row[7] == Cell::Int(rec.amount_minor) && row[8] is Text && row[8]->Text_0@
            == rec.due_on@ && row[9] is Text && row[9]->Text_0@ == rec.status@ && row[10] is Text
            && row[10]->Text_0@ == rec.note@
}

/// Reads a row of the eleven scheduled-item columns, in the order of the fields.
pub fn decode_fund_check_record(row: &Vec<Cell>) -> (r: Result<FundCheckRecord, DatabaseError>)
    requires
        row.len() == 11,
    ensures
        r is Ok <==> (row[0] is Int && row[1] is Text && row[2] is Text && row[3] is Text
            && row[4] is Text && row[5] is Text && row[6] is Text && row[7] is Int && row[8] is Text
            && row[9] is Text && row[10] is Text),
        r is Err ==> refused(r, "unexpected column value"@),
        r matches Ok(rec) ==> row[0] == Cell::Int(rec.id) && row[1] is Text && row[1]->Text_0@
            == rec.schedule_type@ && row[2] is Text && row[2]->Text_0@ == rec.direction@
            && row[3] is Text && row[3]->Text_0@ == rec.account_name@ && row[4] is Text
            && row[4]->Text_0@ == rec.party_name@ && row[5] is Text && row[5]->Text_0@
            == rec.check_number@ && row[6] is Text && row[6]->Text_0@ == rec.bank_name@
            && row[7] == Cell::Int(rec.amount_minor) && row[8] is Text && row[8]->Text_0@
            == rec.due_on@ && row[9] is Text && row[9]->Text_0@ == rec.status@ && row[10] is Text
            && row[10]->Text_0@ == rec.note@,
        r matches Ok(rec) ==> fund_check_row_is(row@, rec),
{
    Ok(
        FundCheckRecord {
            id: cell_int(row, 0)?,
            schedule_type: cell_text(row, 1)?,
            direction: cell_text(row, 2)?,
            account_name: cell_text(row, 3)?,
            party_name: cell_text(row, 4)?,
            check_number: cell_text(row, 5)?,
            bank_name: cell_text(row, 6)?,
            amount_minor: cell_int(row, 7)?,
            due_on: cell_text(row, 8)?,
            status: cell_text(row, 9)?,
            note: cell_text(row, 10)?,
        },
    )
}

/// A text parameter for an optional text, NULL for none.
fn opt_text_arg(v: &Option<String>) -> (r: sql::Param)
    ensures
        match v {
            Some(s) => r matches sql::Param::Text(t) && t@ == s@,
            None => r is Null,
        },
{
    match v {
        Some(s) => sql::opt_text(Some(s.clone())),
        None => sql::opt_text(None),
    }
}

/// The parameters `?1..?8` of a transaction draft.
fn transaction_args(d: &FundTransactionDraft) -> (r: Vec<sql::Param>)
    ensures
        r.len() == 8,
        params_view(r@) == transaction_params(*d),
{
    let mut args = Vec::new();
    args.push(sql::integer(d.account_id));
    args.push(sql::opt_int(d.transfer_account_id));
    args.push(sql::text(d.kind.clone()));
    args.push(sql::integer(d.amount_minor));
    args.push(sql::text(d.category.clone()));
    args.push(sql::text(d.occurred_on.clone()));
    args.push(opt_text_arg(&d.reference));
    args.push(opt_text_arg(&d.description));
    assert(params_view(args@) =~= transaction_params(*d));
    args
}

/// The parameters `?1..?9` of a scheduled-item draft.
fn check_args(d: &FundCheckDraft) -> (r: Vec<sql::Param>)
    ensures
        r.len() == 9,
        params_view(r@) == check_params(*d),
{
    let mut args = Vec::new();
    args.push(sql::text(d.schedule_type.clone()));
    args.push(sql::text(d.direction.clone()));
    args.push(sql::integer(d.account_id));
    args.push(sql::text(d.party_name.clone()));
    args.push(sql::text(d.check_number.clone()));
    args.push(opt_text_arg(&d.bank_name));
    args.push(sql::integer(d.amount_minor));
    args.push(sql::text(d.due_on.clone()));
    args.push(opt_text_arg(&d.note));
    assert(params_view(args@) =~= check_params(*d));
    args
}

/// The kind of the active account an item is drawn on, read into the
/// journal.
fn account_kind(conn: &rusqlite::Connection, account_id: i64, journal: &mut Ghost<Seq<Entry>>) -> (r:
    Result<String, DatabaseError>)
    ensures
        r matches Ok(k) ==> final(journal)@.len() == old(journal)@.len() + 1 && final(journal)@.drop_last() == old(journal)@ && account_kind_read(final(journal)@.last(), account_id)
            == Some(k@),
        r is Err ==> store_failure(r),
{
    let args = id_args(account_id);
    assert(params_view(args@) =~= seq![ParamView::Int(account_id)]);
    let row = read_first_in(conn, ACCOUNT_KIND_SQL, args, 1, journal)?;
    cell_text(&row, 0)
}

impl Database {
    /// The active accounts with their balances, most recently changed first.
    ///
    /// `fund_accounts_journaled` states the query it runs and how each returned row is read.
    pub fn fund_accounts(&self) -> (r: Result<Vec<FundAccountRecord>, DatabaseError>)
        ensures
            r is Err ==> store_failure(r),
    {
        let mut journal: Ghost<Seq<Entry>> = Ghost(Seq::empty());
        self.fund_accounts_journaled(&mut journal)
    }

    /// `fund_accounts`, with what it read: the accounts, each read from its row (its balance computed by the query) in the order SQLite returned them.
    pub fn fund_accounts_journaled(&self, journal: &mut Ghost<Seq<Entry>>) -> (r: Result<
        Vec<FundAccountRecord>,
        DatabaseError,
    >)
        requires
            old(journal)@ == Seq::<Entry>::empty(),
        ensures
            r matches Ok(v) ==> final(journal)@.len() == 1 && (read_rows(
                final(journal)@[0],
                FUND_ACCOUNTS_SQL@,
                Seq::<ParamView>::empty(),
            ) matches Some(rows) && rows.len() == v.len() && forall|k: int|
                0 <= k < v.len() ==> fund_account_row_is(rows[k], #[trigger] v@[k])),
            r is Err ==> store_failure(r),
    {
        let args = Vec::new();
        assert(params_view(args@) =~= Seq::<ParamView>::empty());
        let rows = read_in(&self.connection, FUND_ACCOUNTS_SQL, args, 6, journal)?;
        let ghost rv = rows_view(rows@);
        let mut out: Vec<FundAccountRecord> = Vec::new();
        let mut i: usize = 0;
        while i < rows.len()
            invariant
                i <= rows.len(),
                out.len() == i,
                rv == rows_view(rows@),
                forall|k: int| 0 <= k < rows.len() ==> #[trigger] rows[k].len() == 6,
                forall|k: int| 0 <= k < i ==> fund_account_row_is(rv[k], #[trigger] out@[k]),
            decreases rows.len() - i,
        {
            let rec = decode_fund_account_record(&rows[i])?;
            assert(rv[i as int] == rows@[i as int]@);
            let ghost before = out@;
            out.push(rec);
            assert forall|k: int| 0 <= k < i + 1 implies fund_account_row_is(rv[k], #[trigger] out@[k]) by {
                if k < i {
                    assert(out@[k] == before[k]);
                }
            }
            i = i + 1;
        }
        Ok(out)
    }

    /// Creates (no id) or updates an account after `validate_account_draft`;
    /// the account's id.
    ///
    /// `save_fund_account_journaled` states what it reads and runs.
    pub fn save_fund_account(&self, d: &FundAccountDraft) -> (r: Result<i64, DatabaseError>)
        ensures
            account_draft_error(*d) matches Some(m) ==> refused(r, m),
            account_draft_error(*d) is None && r is Err ==> store_failure(r),
            d.id matches Some(id) ==> (r is Ok ==> r == Ok::<i64, DatabaseError>(id)),
    {
        let mut journal: Ghost<Seq<Entry>> = Ghost(Seq::empty());
        self.save_fund_account_journaled(d, &mut journal)
    }

    /// `save_fund_account`, with what it ran: a refused draft runs nothing;
    /// an update rewrites the account, a new account is inserted and its id
    /// is the one SQLite gives it.
    pub fn save_fund_account_journaled(&self, d: &FundAccountDraft, journal: &mut Ghost<Seq<Entry>>) -> (r:
        Result<i64, DatabaseError>)
        requires
            old(journal)@ == Seq::<Entry>::empty(),
        ensures
            account_draft_error(*d) matches Some(m) ==> refused(r, m) && final(journal)@
                == Seq::<Entry>::empty(),
            account_draft_error(*d) is None && r is Err ==> store_failure(r),
            r matches Ok(v) ==> match d.id {
                Some(id) => v == id && final(journal)@ == seq![
                    Entry::Run(ACCOUNT_UPDATE_SQL@, account_params(*d).push(ParamView::Int(id))),
                ],
                None => final(journal)@ == seq![
                    Entry::Run(ACCOUNT_INSERT_SQL@, account_params(*d)),
                    Entry::Rowid(v),
                ],
            },
    {
        validate_account_draft(d)?;
        let mut args = Vec::new();
        args.push(sql::text(d.kind.clone()));
        args.push(sql::text(d.name.clone()));
        args.push(opt_text_arg(&d.account_number));
        args.push(sql::integer(d.opening_balance_minor));
        assert(params_view(args@) =~= account_params(*d));
        match d.id {
            Some(id) => {
                args.push(sql::integer(id));
                assert(params_view(args@) =~= account_params(*d).push(ParamView::Int(id)));
                run_in(&self.connection, ACCOUNT_UPDATE_SQL, args, journal)?;
                assert(journal@ =~= seq![
                    Entry::Run(ACCOUNT_UPDATE_SQL@, account_params(*d).push(ParamView::Int(id))),
                ]);
                Ok(id)
            },
            None => {
                run_in(&self.connection, ACCOUNT_INSERT_SQL, args, journal)?;
                let id = rowid_in(&self.connection, journal);
                assert(journal@ =~= seq![
                    Entry::Run(ACCOUNT_INSERT_SQL@, account_params(*d)),
                    Entry::Rowid(id),
                ]);
                Ok(id)
            },
        }
    }

    /// Deactivates an account, unless a transaction or a scheduled item uses it.
    ///
    /// `remove_fund_account_journaled` states what it reads and runs.
    pub fn remove_fund_account(&self, id: i64) -> (r: Result<(), DatabaseError>)
        ensures
            r is Err ==> refused(r, "account is in use"@) || store_failure(r),
    {
        let mut journal: Ghost<Seq<Entry>> = Ghost(Seq::empty());
        self.remove_fund_account_journaled(id, &mut journal)
    }

    /// `remove_fund_account`, with what it read and ran: whether a
    /// transaction or a scheduled item uses the account is read; when one
    /// does the removal is refused, else the account is deactivated.
    pub fn remove_fund_account_journaled(&self, id: i64, journal: &mut Ghost<Seq<Entry>>) -> (r:
        Result<(), DatabaseError>)
        requires
            old(journal)@ == Seq::<Entry>::empty(),
        ensures
            r is Ok ==> final(journal)@.len() == 2 && read_int(
                final(journal)@[0],
                ACCOUNT_USED_SQL@,
                seq![ParamView::Int(id)],
            ) == Some(0i64) && final(journal)@[1] == Entry::Run(
                ACCOUNT_DEACTIVATE_SQL@,
                seq![ParamView::Int(id)],
            ),
            refused(r, "account is in use"@) ==> final(journal)@.len() == 1 && (read_int(
                final(journal)@[0],
                ACCOUNT_USED_SQL@,
                seq![ParamView::Int(id)],
            ) matches Some(v) && v != 0),
            r is Err ==> refused(r, "account is in use"@) || store_failure(r),
    {
        assert("account is in use"@ != "unexpected column value"@) by {
            reveal_strlit("account is in use");
            reveal_strlit("unexpected column value");
            assert("account is in use"@[0] != "unexpected column value"@[0]);
        }
        let args = id_args(id);
        assert(params_view(args@) =~= seq![ParamView::Int(id)]);
        let used = read_int_in(&self.connection, ACCOUNT_USED_SQL, args, journal)?;
        assert(journal@[0] == journal@.last());
        if used != 0 {
            return Err(DatabaseError::Validation(String::from_str("account is in use")));
        }
        let args = id_args(id);
        assert(params_view(args@) =~= seq![ParamView::Int(id)]);
        run_in(&self.connection, ACCOUNT_DEACTIVATE_SQL, args, journal)?;
        Ok(())
    }

    /// Transactions whose account names, reference or description hold the
    /// trimmed search, latest first.
    ///
    /// `fund_transactions_journaled` states the query it runs and how each returned row is read.
    pub fn fund_transactions(&self, search: &str) -> (r: Result<Vec<FundTransactionRecord>, DatabaseError>)
        ensures
            r is Err ==> store_failure(r),
    {
        let mut journal: Ghost<Seq<Entry>> = Ghost(Seq::empty());
        self.fund_transactions_journaled(search, &mut journal)
    }

    /// `fund_transactions`, with what it read: the transactions the trimmed search finds, each read from its row in the order SQLite returned them.
    pub fn fund_transactions_journaled(&self, search: &str, journal: &mut Ghost<Seq<Entry>>) -> (r: Result<
        Vec<FundTransactionRecord>,
        DatabaseError,
    >)
        requires
            old(journal)@ == Seq::<Entry>::empty(),
        ensures
            r matches Ok(v) ==> final(journal)@.len() == 1 && (read_rows(
                final(journal)@[0],
                FUND_TRANSACTIONS_SQL@,
                seq![ParamView::Text(like_pattern_of(search@))],
            ) matches Some(rows) && rows.len() == v.len() && forall|k: int|
                0 <= k < v.len() ==> fund_transaction_row_is(rows[k], #[trigger] v@[k])),
            r is Err ==> store_failure(r),
    {
        let args = search_args(search);
        assert(params_view(args@) =~= seq![ParamView::Text(like_pattern_of(search@))]);
        let rows = read_in(&self.connection, FUND_TRANSACTIONS_SQL, args, 9, journal)?;
        let ghost rv = rows_view(rows@);
        let mut out: Vec<FundTransactionRecord> = Vec::new();
        let mut i: usize = 0;
        while i < rows.len()
            invariant
                i <= rows.len(),
                out.len() == i,
                rv == rows_view(rows@),
                forall|k: int| 0 <= k < rows.len() ==> #[trigger] rows[k].len() == 9,
                forall|k: int| 0 <= k < i ==> fund_transaction_row_is(rv[k], #[trigger] out@[k]),
            decreases rows.len() - i,
        {
            let rec = decode_fund_transaction_record(&rows[i])?;
            assert(rv[i as int] == rows@[i as int]@);
            let ghost before = out@;
            out.push(rec);
            assert forall|k: int| 0 <= k < i + 1 implies fund_transaction_row_is(rv[k], #[trigger] out@[k]) by {
                if k < i {
                    assert(out@[k] == before[k]);
                }
            }
            i = i + 1;
        }
        Ok(out)
    }

    /// Records a transaction after `validate_transaction_draft`; its id.
    ///
    /// `save_fund_transaction_journaled` states what it reads and runs.
    pub fn save_fund_transaction(&self, d: &FundTransactionDraft) -> (r: Result<
        i64,
        DatabaseError,
    >)
        ensures
            transaction_draft_error(*d) matches Some(m) ==> refused(r, m),
            transaction_draft_error(*d) is None && r is Err ==> store_failure(r),
    {
        let mut journal: Ghost<Seq<Entry>> = Ghost(Seq::empty());
        self.save_fund_transaction_journaled(d, &mut journal)
    }

    /// `save_fund_transaction`, with what it ran: a refused draft runs
    /// nothing; else the transaction is inserted and its id is the one SQLite
    /// gives it.
    pub fn save_fund_transaction_journaled(
        &self,
        d: &FundTransactionDraft,
        journal: &mut Ghost<Seq<Entry>>,
    ) -> (r: Result<i64, DatabaseError>)
        requires
            old(journal)@ == Seq::<Entry>::empty(),
        ensures
            transaction_draft_error(*d) matches Some(m) ==> refused(r, m) && final(journal)@
                == Seq::<Entry>::empty(),
            transaction_draft_error(*d) is None && r is Err ==> store_failure(r),
            r matches Ok(v) ==> final(journal)@ == seq![
                Entry::Run(TRANSACTION_INSERT_SQL@, transaction_params(*d)),
                Entry::Rowid(v),
            ],
    {
        validate_transaction_draft(d)?;
        run_in(&self.connection, TRANSACTION_INSERT_SQL, transaction_args(d), journal)?;
        let id = rowid_in(&self.connection, journal);
        assert(journal@ =~= seq![
            Entry::Run(TRANSACTION_INSERT_SQL@, transaction_params(*d)),
            Entry::Rowid(id),
        ]);
        Ok(id)
    }

    /// Deletes a transaction.
    ///
    /// `remove_fund_transaction_journaled` states what it reads and runs.
    pub fn remove_fund_transaction(&self, id: i64) -> (r: Result<(), DatabaseError>)
        ensures
            r is Err ==> store_failure(r),
    {
        let mut journal: Ghost<Seq<Entry>> = Ghost(Seq::empty());
        self.remove_fund_transaction_journaled(id, &mut journal)
    }

    /// `remove_fund_transaction`, with what it ran: the transaction with
    /// this id is deleted.
    pub fn remove_fund_transaction_journaled(&self, id: i64, journal: &mut Ghost<Seq<Entry>>) -> (r:
        Result<(), DatabaseError>)
        requires
            old(journal)@ == Seq::<Entry>::empty(),
        ensures
            r is Ok ==> final(journal)@ == seq![
                Entry::Run(TRANSACTION_DELETE_SQL@, seq![ParamView::Int(id)]),
            ],
            r is Err ==> store_failure(r),
    {
        let args = id_args(id);
        assert(params_view(args@) =~= seq![ParamView::Int(id)]);
        run_in(&self.connection, TRANSACTION_DELETE_SQL, args, journal)?;
        assert(journal@ =~= seq![Entry::Run(TRANSACTION_DELETE_SQL@, seq![ParamView::Int(id)])]);
        Ok(())
    }

    /// Rewrites a transaction after `validate_transaction_draft`.
    ///
    /// `update_fund_transaction_journaled` states what it reads and runs.
    pub fn update_fund_transaction(&self, id: i64, d: &FundTransactionDraft) -> (r: Result<
        (),
        DatabaseError,
    >)
        ensures
            transaction_draft_error(*d) matches Some(m) ==> refused(r, m),
            transaction_draft_error(*d) is None && r is Err ==> store_failure(r),
    {
        let mut journal: Ghost<Seq<Entry>> = Ghost(Seq::empty());
        self.update_fund_transaction_journaled(id, d, &mut journal)
    }

    /// `update_fund_transaction`, with what it ran: a refused draft runs
    /// nothing; else the transaction with this id is rewritten.
    pub fn update_fund_transaction_journaled(
        &self,
        id: i64,
        d: &FundTransactionDraft,
        journal: &mut Ghost<Seq<Entry>>,
    ) -> (r: Result<(), DatabaseError>)
        requires
            old(journal)@ == Seq::<Entry>::empty(),
        ensures
            transaction_draft_error(*d) matches Some(m) ==> refused(r, m) && final(journal)@
                == Seq::<Entry>::empty(),
            transaction_draft_error(*d) is None && r is Err ==> store_failure(r),
            r is Ok ==> final(journal)@ == seq![
                Entry::Run(TRANSACTION_UPDATE_SQL@, transaction_params(*d).push(ParamView::Int(id))),
            ],
    {
        validate_transaction_draft(d)?;
        let mut args = transaction_args(d);
        args.push(sql::integer(id));
        assert(params_view(args@) =~= transaction_params(*d).push(ParamView::Int(id)));
        run_in(&self.connection, TRANSACTION_UPDATE_SQL, args, journal)?;
        assert(journal@ =~= seq![
            Entry::Run(TRANSACTION_UPDATE_SQL@, transaction_params(*d).push(ParamView::Int(id))),
        ]);
        Ok(())
    }

    /// Scheduled items whose party, number, bank or note holds the trimmed
    /// search: upcoming ones first, then by due date.
    ///
    /// `fund_checks_journaled` states the query it runs and how each returned row is read.
    pub fn fund_checks(&self, search: &str) -> (r: Result<Vec<FundCheckRecord>, DatabaseError>)
        ensures
            r is Err ==> store_failure(r),
    {
        let mut journal: Ghost<Seq<Entry>> = Ghost(Seq::empty());
        self.fund_checks_journaled(search, &mut journal)
    }

    /// `fund_checks`, with what it read: the scheduled items the trimmed search finds, each read from its row in the order SQLite returned them.
    pub fn fund_checks_journaled(&self, search: &str, journal: &mut Ghost<Seq<Entry>>) -> (r: Result<
        Vec<FundCheckRecord>,
        DatabaseError,
    >)
        requires
            old(journal)@ == Seq::<Entry>::empty(),
        ensures
            r matches Ok(v) ==> final(journal)@.len() == 1 && (read_rows(
                final(journal)@[0],
                FUND_CHECKS_SQL@,
                seq![ParamView::Text(like_pattern_of(search@))],
            ) matches Some(rows) && rows.len() == v.len() && forall|k: int|
                0 <= k < v.len() ==> fund_check_row_is(rows[k], #[trigger] v@[k])),
            r is Err ==> store_failure(r),
    {
        let args = search_args(search);
        assert(params_view(args@) =~= seq![ParamView::Text(like_pattern_of(search@))]);
        let rows = read_in(&self.connection, FUND_CHECKS_SQL, args, 11, journal)?;
        let ghost rv = rows_view(rows@);
        let mut out: Vec<FundCheckRecord> = Vec::new();
        let mut i: usize = 0;
        while i < rows.len()
            invariant
                i <= rows.len(),
                out.len() == i,
                rv == rows_view(rows@),
                forall|k: int| 0 <= k < rows.len() ==> #[trigger] rows[k].len() == 11,
                forall|k: int| 0 <= k < i ==> fund_check_row_is(rv[k], #[trigger] out@[k]),
            decreases rows.len() - i,
        {
            let rec = decode_fund_check_record(&rows[i])?;
            assert(rv[i as int] == rows@[i as int]@);
            let ghost before = out@;
            out.push(rec);
            assert forall|k: int| 0 <= k < i + 1 implies fund_check_row_is(rv[k], #[trigger] out@[k]) by {
                if k < i {
                    assert(out@[k] == before[k]);
                }
            }
            i = i + 1;
        }
        Ok(out)
    }

    /// Records a scheduled item; its id. A blank number is replaced by a
    /// generated one; a check cannot be drawn on a cash account.
    ///
    /// `save_fund_check_journaled` states what it reads and runs.
    pub fn save_fund_check(&self, d: &FundCheckDraft) -> (r: Result<i64, DatabaseError>)
        ensures
            !check_draft_acceptable(*d) ==> refused(r, "invalid check"@),
            r is Err ==> refused(r, "invalid check"@) || refused(
                r,
                "checks require a bank or card account"@,
            ) || store_failure(r),
    {
        let mut journal: Ghost<Seq<Entry>> = Ghost(Seq::empty());
        self.save_fund_check_journaled(d, &mut journal)
    }

    /// `save_fund_check`, with what it read and ran: a draft that is not
    /// acceptable is refused before anything is read; the kind of its
    /// account is read, and a check on a cash account refused; else the item
    /// is inserted and its id is the one SQLite gives it.
    pub fn save_fund_check_journaled(&self, d: &FundCheckDraft, journal: &mut Ghost<Seq<Entry>>) -> (r:
        Result<i64, DatabaseError>)
        requires
            old(journal)@ == Seq::<Entry>::empty(),
        ensures
            !check_draft_acceptable(*d) ==> refused(r, "invalid check"@) && final(journal)@
                == Seq::<Entry>::empty(),
            refused(r, "checks require a bank or card account"@) ==> final(journal)@.len() == 1
                && (account_kind_read(final(journal)@[0], d.account_id) matches Some(kind)
                && check_on_cash(*d, kind)),
            r matches Ok(v) ==> check_draft_acceptable(*d) && final(journal)@.len() == 3
                && (account_kind_read(final(journal)@[0], d.account_id) matches Some(kind)
                && !check_on_cash(*d, kind)) && final(journal)@[1] == Entry::Run(
                CHECK_INSERT_SQL@,
                check_params(*d),
            ) && final(journal)@[2] == Entry::Rowid(v),
            r is Err ==> refused(r, "invalid check"@) || refused(
                r,
                "checks require a bank or card account"@,
            ) || store_failure(r),
    {
        assert("checks require a bank or card account"@ != "unexpected column value"@
            && "checks require a bank or card account"@ != "invalid check"@) by {
            reveal_strlit("checks require a bank or card account");
            reveal_strlit("unexpected column value");
            reveal_strlit("invalid check");
            assert("checks require a bank or card account"@[0] != "unexpected column value"@[0]);
            assert("checks require a bank or card account"@[0] != "invalid check"@[0]);
        }
        if !check_draft_is_acceptable(d) {
            return Err(DatabaseError::Validation(String::from_str("invalid check")));
        }
        let kind = account_kind(&self.connection, d.account_id, journal)?;
        assert(journal@[0] == journal@.last());
        if same_text(d.schedule_type.as_str(), "check") && same_text(kind.as_str(), "cash") {
            return Err(
                DatabaseError::Validation(String::from_str("checks require a bank or card account")),
            );
        }
        let ghost read = journal@;
        run_in(&self.connection, CHECK_INSERT_SQL, check_args(d), journal)?;
        let id = rowid_in(&self.connection, journal);
        assert(journal@[0] == read[0]);
        Ok(id)
    }

    /// Changes the status of an upcoming item; clearing it records the
    /// settlement transaction (`check_settlement`) on its account.
    ///
    /// `set_fund_check_status_journaled` states what it reads and runs.
    pub fn set_fund_check_status(&self, id: i64, status: &str) -> (r: Result<(), DatabaseError>)
        ensures
            !status_known(status@) ==> refused(r, "invalid status"@),
            r is Err ==> refused(r, "invalid status"@) || refused(
                r,
                "check is already finalized"@,
            ) || store_failure(r),
    {
        let mut journal: Ghost<Seq<Entry>> = Ghost(Seq::empty());
        self.set_fund_check_status_journaled(id, status, &mut journal)
    }

    /// `set_fund_check_status`, with what it read and ran: an unknown status
    /// is refused before anything is read, an item that is no longer
    /// upcoming right after it is read; what a change that goes through runs
    /// is `check_status_journal`.
    pub fn set_fund_check_status_journaled(
        &self,
        id: i64,
        status: &str,
        journal: &mut Ghost<Seq<Entry>>,
    ) -> (r: Result<(), DatabaseError>)
        requires
            old(journal)@ == Seq::<Entry>::empty(),
        ensures
            !status_known(status@) ==> refused(r, "invalid status"@) && final(journal)@
                == Seq::<Entry>::empty(),
            refused(r, "check is already finalized"@) ==> final(journal)@.len() == 2 && final(journal)@[0] == Entry::Begin && (first_row(
                final(journal)@[1],
                CHECK_READ_SQL@,
                seq![ParamView::Int(id)],
            ) matches Some(row) && row.len() == 7 && row[6] is Text && row[6]->Text_0@
                != "upcoming"@),
            r is Ok ==> check_status_journal(id, status@, final(journal)@),
            r is Err ==> refused(r, "invalid status"@) || refused(
                r,
                "check is already finalized"@,
            ) || store_failure(r),
    {
        assert("check is already finalized"@ != "unexpected column value"@
            && "check is already finalized"@ != "invalid status"@) by {
            reveal_strlit("check is already finalized");
            reveal_strlit("unexpected column value");
            reveal_strlit("invalid status");
            assert("check is already finalized"@[0] != "unexpected column value"@[0]);
            assert("check is already finalized"@[0] != "invalid status"@[0]);
        }
        if !(same_text(status, "upcoming") || same_text(status, "cleared") || same_text(
            status,
            "returned",
        ) || same_text(status, "cancelled")) {
            return Err(DatabaseError::Validation(String::from_str("invalid status")));
        }
        let tx = begin_in(&self.connection, journal)?;
        let conn = sql::within(&tx);
        let args = id_args(id);
        assert(params_view(args@) =~= seq![ParamView::Int(id)]);
        let row = read_first_in(conn, CHECK_READ_SQL, args, 7, journal)?;
        let ghost read = journal@;
        assert(read[0] == Entry::Begin) by {
            assert(read[0] == read.drop_last()[0]);
        }
        assert(read[1] == read.last());
        let schedule_type = cell_text(&row, 0)?;
        let direction = cell_text(&row, 1)?;
        let account_id = cell_int(&row, 2)?;
        let amount = cell_int(&row, 3)?;
        let due_on = cell_text(&row, 4)?;
        let party = cell_text(&row, 5)?;
        let current = cell_text(&row, 6)?;
        let settle = status_change(current.as_str(), status)?;
        let mut args = Vec::new();
        args.push(sql::text(String::from_str(status)));
        args.push(sql::integer(id));
        assert(params_view(args@) =~= seq![ParamView::Text(status@), ParamView::Int(id)]);
        run_in(conn, CHECK_STATUS_SET_SQL, args, journal)?;
        let ghost changed = journal@;
        if settle {
            let s = check_settlement(
                id,
                schedule_type.as_str(),
                direction.as_str(),
                party.as_str(),
            );
            let mut entry = Vec::new();
            entry.push(sql::integer(account_id));
            entry.push(sql::text(s.kind));
            entry.push(sql::integer(amount));
            entry.push(sql::text(s.category));
            entry.push(sql::text(due_on));
            entry.push(sql::text(s.reference));
            entry.push(sql::text(s.description));
            assert(params_view(entry@) =~= settlement_params(id, row@));
            run_in(conn, SETTLEMENT_RECORD_SQL, entry, journal)?;
        }
        let ghost written = journal@;
        commit_in(tx, journal)?;
        assert(journal@.subrange(0, written.len() as int) =~= written);
        assert(journal@[0] == read[0] && journal@[1] == read[1]) by {
            assert(journal@.subrange(0, 2) =~= read);
        }
        assert(journal@[2] == changed[2]);
        Ok(())
    }

    /// Rewrites a scheduled item; when it was cleared, its settlement
    /// transaction follows the new account, direction, amount, date and party.
    ///
    /// `update_fund_check_journaled` states what it reads and runs.
    pub fn update_fund_check(&self, id: i64, d: &FundCheckDraft) -> (r: Result<(), DatabaseError>)
        ensures
            !check_draft_acceptable(*d) ==> refused(r, "invalid scheduled item"@),
            r is Err ==> refused(r, "invalid scheduled item"@) || refused(
                r,
                "checks require a bank or card account"@,
            ) || store_failure(r),
    {
        let mut journal: Ghost<Seq<Entry>> = Ghost(Seq::empty());
        self.update_fund_check_journaled(id, d, &mut journal)
    }

    /// `update_fund_check`, with what it read and ran: a draft that is not
    /// acceptable is refused before anything is read; a check on a cash
    /// account right after the account's kind is read; what a rewrite that
    /// goes through runs is `check_update_journal`.
    pub fn update_fund_check_journaled(
        &self,
        id: i64,
        d: &FundCheckDraft,
        journal: &mut Ghost<Seq<Entry>>,
    ) -> (r: Result<(), DatabaseError>)
        requires
            old(journal)@ == Seq::<Entry>::empty(),
        ensures
            !check_draft_acceptable(*d) ==> refused(r, "invalid scheduled item"@) && final(journal)@ == Seq::<Entry>::empty(),
            refused(r, "checks require a bank or card account"@) ==> final(journal)@.len() == 2
                && final(journal)@[0] == Entry::Begin && (account_kind_read(
                final(journal)@[1],
                d.account_id,
            ) matches Some(kind) && check_on_cash(*d, kind)),
            r is Ok ==> check_draft_acceptable(*d) && check_update_journal(id, *d, final(journal)@),
            r is Err ==> refused(r, "invalid scheduled item"@) || refused(
                r,
                "checks require a bank or card account"@,
            ) || store_failure(r),
    {
        assert("checks require a bank or card account"@ != "unexpected column value"@
            && "checks require a bank or card account"@ != "invalid scheduled item"@) by {
            reveal_strlit("checks require a bank or card account");
            reveal_strlit("unexpected column value");
            reveal_strlit("invalid scheduled item");
            assert("checks require a bank or card account"@[0] != "unexpected column value"@[0]);
            assert("checks require a bank or card account"@[0] != "invalid scheduled item"@[0]);
        }
        if !check_draft_is_acceptable(d) {
            return Err(DatabaseError::Validation(String::from_str("invalid scheduled item")));
        }
        let tx = begin_in(&self.connection, journal)?;
        let conn = sql::within(&tx);
        let kind = account_kind(conn, d.account_id, journal)?;
        let ghost kinded = journal@;
        assert(kinded[0] == Entry::Begin) by {
            assert(kinded[0] == kinded.drop_last()[0]);
        }
        assert(kinded[1] == kinded.last());
        if same_text(d.schedule_type.as_str(), "check") && same_text(kind.as_str(), "cash") {
            return Err(
                DatabaseError::Validation(String::from_str("checks require a bank or card account")),
            );
        }
        let args = id_args(id);
        assert(params_view(args@) =~= seq![ParamView::Int(id)]);
        let status_row = read_first_in(conn, CHECK_STATUS_READ_SQL, args, 1, journal)?;
        let status = cell_text(&status_row, 0)?;
        let ghost read = journal@;
        assert(read[2] == read.last());
        let mut args = check_args(d);
        args.push(sql::integer(id));
        assert(params_view(args@) =~= check_params(*d).push(ParamView::Int(id)));
        run_in(conn, CHECK_UPDATE_SQL, args, journal)?;
        let ghost rewritten = journal@;
        if same_text(status.as_str(), "cleared") {
            let mut entry = Vec::new();
            entry.push(sql::integer(d.account_id));
            entry.push(sql::text(String::from_str(settlement_kind_of(d.direction.as_str()))));
            entry.push(sql::integer(d.amount_minor));
            entry.push(sql::text(d.due_on.clone()));
            entry.push(sql::text(settlement_description_of("چک", d.party_name.as_str())));
            entry.push(sql::text(check_reference_of(id)));
            assert(params_view(entry@) =~= settlement_update_params(id, *d));
            run_in(conn, SETTLEMENT_UPDATE_SQL, entry, journal)?;
        }
        let ghost written = journal@;
        commit_in(tx, journal)?;
        assert(journal@.subrange(0, written.len() as int) =~= written);
        assert(journal@[0] == kinded[0] && journal@[1] == kinded[1] && journal@[2] == read[2]
            && journal@[3] == rewritten[3]) by {
            assert(journal@.subrange(0, 2) =~= kinded);
            assert(journal@.subrange(0, 3) =~= read);
            assert(journal@.subrange(0, 4) =~= rewritten);
        }
        Ok(())
    }

    /// Deletes a scheduled item and its settlement transaction, if any.
    ///
    /// `remove_fund_check_journaled` states what it reads and runs.
    pub fn remove_fund_check(&self, id: i64) -> (r: Result<(), DatabaseError>)
        ensures
            r is Err ==> store_failure(r),
    {
        let mut journal: Ghost<Seq<Entry>> = Ghost(Seq::empty());
        self.remove_fund_check_journaled(id, &mut journal)
    }

    /// `remove_fund_check`, with what it ran: in one transaction, the
    /// transaction with the item's settlement reference and then the item
    /// are deleted.
    pub fn remove_fund_check_journaled(&self, id: i64, journal: &mut Ghost<Seq<Entry>>) -> (r:
        Result<(), DatabaseError>)
        requires
            old(journal)@ == Seq::<Entry>::empty(),
        ensures
            r is Ok ==> final(journal)@ == seq![
                Entry::Begin,
                Entry::Run(SETTLEMENT_DELETE_SQL@, seq![ParamView::Text(check_reference(id as int))]),
                Entry::Run(CHECK_DELETE_SQL@, seq![ParamView::Int(id)]),
                Entry::Commit,
            ],
            r is Err ==> store_failure(r),
    {
        let tx = begin_in(&self.connection, journal)?;
        let conn = sql::within(&tx);
        let mut args = Vec::new();
        args.push(sql::text(check_reference_of(id)));
        assert(params_view(args@) =~= seq![ParamView::Text(check_reference(id as int))]);
        run_in(conn, SETTLEMENT_DELETE_SQL, args, journal)?;
        let args = id_args(id);
        assert(params_view(args@) =~= seq![ParamView::Int(id)]);
        run_in(conn, CHECK_DELETE_SQL, args, journal)?;
        commit_in(tx, journal)?;
        assert(journal@ =~= seq![
            Entry::Begin,
            Entry::Run(SETTLEMENT_DELETE_SQL@, seq![ParamView::Text(check_reference(id as int))]),
            Entry::Run(CHECK_DELETE_SQL@, seq![ParamView::Int(id)]),
            Entry::Commit,
        ]);
        Ok(())
    }
}


/// Every kind of account the account editor offers (cash, bank, card,
/// other) and every kind a fund sheet names is accepted: a draft of such a
/// kind, with a name, an opening balance that is not negative and, for a
/// cash account, no number, is not refused.
pub proof fn offered_account_kinds_accepted(d: FundAccountDraft, index: int, label: Seq<char>)
    requires
        !is_blank(d.name@),
        d.opening_balance_minor >= 0,
        d.kind@ == "cash"@ ==> d.account_number is None,
    ensures
        d.kind@ == crate::editors::account_kind_at(index) ==> account_draft_error(d) is None,
        crate::import::account_kind_code(label) == Some(d.kind@) ==> account_draft_error(d) is None,
{
}


/// Every kind of transaction the transaction editor offers, and every kind
/// a fund sheet names, is accepted with the accounts it needs: income and
/// expense on one account, a transfer from one account to another.
pub proof fn offered_transaction_kinds_accepted(d: FundTransactionDraft, index: int, label: Seq<char>)
    requires
        d.amount_minor > 0,
        iso_date_valid(d.occurred_on@),
        d.kind@ == "transfer"@ ==> (d.transfer_account_id matches Some(t) && t != d.account_id),
        d.kind@ != "transfer"@ ==> d.transfer_account_id is None,
    ensures
        d.kind@ == crate::editors::transaction_kind_at(index) ==> transaction_draft_error(d) is None,
        crate::import::transaction_kind_code(label) == Some(d.kind@) ==> transaction_draft_error(d)
            is None,
{
}

/// The settlement of a cleared item is a transaction the store accepts on
/// the item's account: income when the item comes in, an expense when it
/// goes out.
pub proof fn settlement_is_an_accepted_transaction(d: FundTransactionDraft, direction: Seq<char>)
    requires
        d.kind@ == settlement_kind(direction),
        d.transfer_account_id is None,
        d.amount_minor > 0,
        iso_date_valid(d.occurred_on@),
    ensures
        transaction_draft_error(d) is None,
        direction == "incoming"@ ==> d.kind@ == "income"@,
        direction == "outgoing"@ ==> d.kind@ == "expense"@,
{
    reveal_strlit("incoming");
    reveal_strlit("outgoing");
    assert("incoming"@[0] != "outgoing"@[0]);
}

} // verus!
