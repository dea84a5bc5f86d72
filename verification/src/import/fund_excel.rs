//! Fund accounts, transactions and scheduled checks in spreadsheets, one
//! kind per sheet (the tab of the fund screen: 0 accounts, 1 transactions,
//! anything else checks). Dates in sheets are Jalali.

use vstd::prelude::*;

use super::sheet::{
    all_blank, cell_shown, cell_text, check_header, first_row_error, grid_view, header_mismatch,
    header_strings, lemma_first_error_stays, lemma_header_reads, lemma_no_row_error,
    lemma_rows_read_each, lemma_sheet_shown, optional_value, row_shown, row_values, row_values_of,
    rows_read, sheet_cells, sheet_shown, strs, text_cells, text_row, texts, values_all_blank, Sheet,
    SheetCell,
};
use crate::calendar::{jalali_round_trip_date, jalali_text_reads_back, lemma_jalali_text_trimmed};
use crate::database::{FundAccountRecord, FundCheckRecord, FundTransactionRecord};
use crate::date::{
    gregorian_text, jalali_date_to_gregorian, jalali_for_gregorian_text, jalali_of_gregorian_text,
    parse_jalali_date,
};
use crate::text::{
    all_digits, blank, chars_of, decimal, int_text, is_blank, is_digit, is_group_separator,
    lemma_decimal_len, lemma_decimal_value, lemma_trimmed_same, opt_str_view, opt_string_view,
    optional_text, parse_int_range, parse_signed, same_text, trim, trimmed,
};

verus! {

broadcast use vstd::string::group_string_axioms;

/// The records read from a fund sheet.
#[derive(Debug, Clone, PartialEq, Eq)]
pub enum FundImportFile {
    Accounts(Vec<AccountImport>),
    Transactions(Vec<TransactionImport>),
    Checks(Vec<CheckImport>),
}

/// An account read from a sheet.
#[derive(Debug, Clone, PartialEq, Eq)]
pub struct AccountImport {
    pub kind: String,
    pub name: String,
    pub number: Option<String>,
    pub opening: i64,
}

/// A transaction read from a sheet, with its accounts by name and its date
/// in Gregorian `YYYY-MM-DD`.
#[derive(Debug, Clone, PartialEq, Eq)]
pub struct TransactionImport {
    pub kind: String,
    pub account: String,
    pub target: Option<String>,
    pub amount: i64,
    pub date: String,
    pub reference: Option<String>,
    pub description: Option<String>,
}

/// A scheduled check, installment or payment read from a sheet, with its due
/// date in Gregorian `YYYY-MM-DD`.
#[derive(Debug, Clone, PartialEq, Eq)]
pub struct CheckImport {
    pub schedule_type: String,
    pub direction: String,
    pub account: String,
    pub party: String,
    pub number: String,
    pub bank: Option<String>,
    pub amount: i64,
    pub due: String,
    pub note: Option<String>,
}

// ---------------------------------------------------------------------
// Columns
// ---------------------------------------------------------------------

pub open spec fn account_headers() -> Seq<Seq<char>> {
    seq!["نوع حساب"@, "نام حساب"@, "شماره/شناسه"@, "موجودی افتتاحیه (ریال)"@]
}

pub open spec fn transaction_headers() -> Seq<Seq<char>> {
    seq!["نوع"@, "حساب"@, "حساب مقصد"@, "مبلغ (ریال)"@, "تاریخ شمسی"@, "شناسه پیگیری"@, "شرح"@]
}

pub open spec fn check_headers() -> Seq<Seq<char>> {
    seq![
        "نوع سند"@,
        "جهت"@,
        "حساب مرتبط"@,
        "طرف حساب"@,
        "شماره چک"@,
        "بانک صادرکننده"@,
        "مبلغ (ریال)"@,
        "سررسید شمسی"@,
        "یادداشت"@,
    ]
}

/// The columns of the sheet of a tab.
pub open spec fn fund_headers(tab: int) -> Seq<Seq<char>> {
    if tab == 0 {
        account_headers()
    } else if tab == 1 {
        transaction_headers()
    } else {
        check_headers()
    }
}

pub fn fund_header_names(tab: i32) -> (r: Vec<&'static str>)
    ensures
        strs(r@) == fund_headers(tab as int),
        r.len() == fund_headers(tab as int).len(),
{
    if tab == 0 {
        let v = vec!["نوع حساب", "نام حساب", "شماره/شناسه", "موجودی افتتاحیه (ریال)"];
        assert(strs(v@) =~= account_headers());
        v
    } else if tab == 1 {
        let v = vec!["نوع", "حساب", "حساب مقصد", "مبلغ (ریال)", "تاریخ شمسی", "شناسه پیگیری", "شرح"];
        assert(strs(v@) =~= transaction_headers());
        v
    } else {
        let v = vec![
            "نوع سند",
            "جهت",
            "حساب مرتبط",
            "طرف حساب",
            "شماره چک",
            "بانک صادرکننده",
            "مبلغ (ریال)",
            "سررسید شمسی",
            "یادداشت",
        ];
        assert(strs(v@) =~= check_headers());
        v
    }
}

// ---------------------------------------------------------------------
// Cells
// ---------------------------------------------------------------------

/// The text with its thousands separators taken out.
pub open spec fn without_separators(s: Seq<char>) -> Seq<char>
    decreases s.len(),
{
    if s.len() == 0 {
        Seq::empty()
    } else {
        let p = without_separators(s.drop_last());
        if is_group_separator(s.last()) {
            p
        } else {
            p.push(s.last())
        }
    }
}

/// An amount in a fund sheet: separators taken out, then `str::parse::<i64>`.
pub open spec fn fund_amount(s: Seq<char>) -> Option<int> {
    parse_signed(without_separators(s), i64::MIN as int, i64::MAX as int)
}

pub fn parse_fund_amount(value: &str) -> (r: Option<i64>)
    ensures
        r matches Some(x) ==> fund_amount(value@) == Some(x as int),
        r is None ==> fund_amount(value@) is None,
{
    let chars = chars_of(value);
    let mut kept: Vec<char> = Vec::new();
    let mut i: usize = 0;
    assert(chars@.take(0) =~= Seq::<char>::empty());
    while i < chars.len()
        invariant
            i <= chars.len(),
            kept@ == without_separators(chars@.take(i as int)),
        decreases chars.len() - i,
    {
        assert(chars@.take(i + 1).drop_last() =~= chars@.take(i as int));
        let c = chars[i];
        if !(c == ',' || c == '\u{66C}' || c == ' ') {
            kept.push(c);
        }
        i = i + 1;
    }
    assert(chars@.take(chars@.len() as int) =~= chars@);
    assert(kept@.subrange(0, kept@.len() as int) =~= kept@);
    parse_int_range(&kept, 0, kept.len(), i64::MIN, i64::MAX)
}

pub open spec fn account_kind_code(t: Seq<char>) -> Option<Seq<char>> {
    if t == "صندوق نقدی"@ {
        Some("cash"@)
    } else if t == "حساب بانکی"@ {
        Some("bank"@)
    } else if t == "کارت"@ {
        Some("card"@)
    } else if t == "سایر"@ {
        Some("other"@)
    } else {
        None
    }
}

pub fn account_kind_of(t: &str) -> (r: Option<&'static str>)
    ensures
        opt_str_view(r) == account_kind_code(t@),
{
    if same_text(t, "صندوق نقدی") {
        Some("cash")
    } else if same_text(t, "حساب بانکی") {
        Some("bank")
    } else if same_text(t, "کارت") {
        Some("card")
    } else if same_text(t, "سایر") {
        Some("other")
    } else {
        None
    }
}

pub open spec fn transaction_kind_code(t: Seq<char>) -> Option<Seq<char>> {
    if t == "درآمد"@ {
        Some("income"@)
    } else if t == "هزینه"@ {
        Some("expense"@)
    } else if t == "انتقال"@ {
        Some("transfer"@)
    } else {
        None
    }
}

pub fn transaction_kind_of(t: &str) -> (r: Option<&'static str>)
    ensures
        opt_str_view(r) == transaction_kind_code(t@),
{
    if same_text(t, "درآمد") {
        Some("income")
    } else if same_text(t, "هزینه") {
        Some("expense")
    } else if same_text(t, "انتقال") {
        Some("transfer")
    } else {
        None
    }
}

pub open spec fn schedule_code(t: Seq<char>) -> Option<Seq<char>> {
    if t == "چک"@ {
        Some("check"@)
    } else if t == "قسط"@ {
        Some("installment"@)
    } else if t == "زمان‌بندی‌شده"@ || t == "دریافت/پرداخت زمان‌بندی‌شده"@ {
        Some("scheduled"@)
    } else {
        None
    }
}

pub fn schedule_of(t: &str) -> (r: Option<&'static str>)
    ensures
        opt_str_view(r) == schedule_code(t@),
{
    if same_text(t, "چک") {
        Some("check")
    } else if same_text(t, "قسط") {
        Some("installment")
    } else if same_text(t, "زمان‌بندی‌شده") || same_text(t, "دریافت/پرداخت زمان‌بندی‌شده") {
        Some("scheduled")
    } else {
        None
    }
}

pub open spec fn direction_code(t: Seq<char>) -> Option<Seq<char>> {
    if t == "دریافتی"@ {
        Some("incoming"@)
    } else if t == "پرداختی"@ {
        Some("outgoing"@)
    } else {
        None
    }
}

pub fn direction_of(t: &str) -> (r: Option<&'static str>)
    ensures
        opt_str_view(r) == direction_code(t@),
{
    if same_text(t, "دریافتی") {
        Some("incoming")
    } else if same_text(t, "پرداختی") {
        Some("outgoing")
    } else {
        None
    }
}

pub open spec fn required_message() -> Seq<char> {
    "فیلد الزامی خالی است"@
}

pub open spec fn amount_message() -> Seq<char> {
    "مبلغ نامعتبر است"@
}

// ---------------------------------------------------------------------
// Rows
// ---------------------------------------------------------------------

/// Why an account row (its four cells) is refused, if it is.
pub open spec fn account_row_error(v: Seq<Seq<char>>) -> Option<Seq<char>> {
    if account_kind_code(trimmed(v[0])) is None {
        Some("نوع حساب نامعتبر است"@)
    } else if is_blank(v[1]) {
        Some(required_message())
    } else if fund_amount(v[3]) is None {
        Some(amount_message())
    } else {
        None
    }
}

pub open spec fn account_row_read(v: Seq<Seq<char>>, a: AccountImport) -> bool {
    &&& account_kind_code(trimmed(v[0])) == Some(a.kind@)
    &&& a.name@ == trimmed(v[1])
    &&& opt_string_view(a.number) == optional_text(v[2])
    &&& fund_amount(v[3]) == Some(a.opening as int)
}

pub open spec fn account_error_fn() -> spec_fn(Seq<Seq<char>>) -> Option<Seq<char>> {
    |v: Seq<Seq<char>>| account_row_error(v)
}

pub open spec fn account_read_fn() -> spec_fn(Seq<Seq<char>>, AccountImport) -> bool {
    |v: Seq<Seq<char>>, a: AccountImport| account_row_read(v, a)
}

fn required_value(v: &String) -> (r: Result<String, String>)
    ensures
        is_blank(v@) ==> (r matches Err(e) && e@ == required_message()),
        !is_blank(v@) ==> (r matches Ok(t) && t@ == trimmed(v@)),
{
    if blank(v.as_str()) {
        Err(String::from_str("فیلد الزامی خالی است"))
    } else {
        Ok(trim(v.as_str()))
    }
}

fn amount_value(v: &String) -> (r: Result<i64, String>)
    ensures
        fund_amount(v@) matches Some(x) ==> r == Ok::<i64, String>(x as i64),
        fund_amount(v@) is None ==> (r matches Err(e) && e@ == amount_message()),
{
    match parse_fund_amount(v.as_str()) {
        Some(x) => Ok(x),
        None => Err(String::from_str("مبلغ نامعتبر است")),
    }
}

pub fn parse_account_row(values: &Vec<String>) -> (r: Result<AccountImport, String>)
    requires
        values.len() == 4,
    ensures
        account_row_error(texts(values@)) matches Some(m) ==> (r matches Err(e) && e@ == m),
        account_row_error(texts(values@)) is None ==> (r matches Ok(a) && account_row_read(
            texts(values@),
            a,
        )),
{
    let ghost v = texts(values@);
    assert(v[0] == values@[0]@ && v[1] == values@[1]@ && v[2] == values@[2]@);
    assert(v[3] == values@[3]@);
    let kind = match account_kind_of(trim(values[0].as_str()).as_str()) {
        Some(k) => k,
        None => {
            return Err(String::from_str("نوع حساب نامعتبر است"));
        },
    };
    let name = required_value(&values[1])?;
    let number = optional_value(&values[2]);
    let opening = amount_value(&values[3])?;
    Ok(AccountImport { kind: String::from_str(kind), name, number, opening })
}

/// Why a transaction row (its seven cells) is refused, if it is.
pub open spec fn transaction_row_error(v: Seq<Seq<char>>) -> Option<Seq<char>> {
    if transaction_kind_code(trimmed(v[0])) is None {
        Some("نوع تراکنش نامعتبر است"@)
    } else if is_blank(v[1]) {
        Some(required_message())
    } else if fund_amount(v[3]) is None {
        Some(amount_message())
    } else if jalali_date_to_gregorian(trimmed(v[4])) is None {
        Some("تاریخ شمسی نامعتبر است"@)
    } else {
        None
    }
}

pub open spec fn transaction_row_read(v: Seq<Seq<char>>, t: TransactionImport) -> bool {
    &&& transaction_kind_code(trimmed(v[0])) == Some(t.kind@)
    &&& t.account@ == trimmed(v[1])
    &&& opt_string_view(t.target) == optional_text(v[2])
    &&& fund_amount(v[3]) == Some(t.amount as int)
    &&& jalali_date_to_gregorian(trimmed(v[4])) == Some(t.date@)
    &&& opt_string_view(t.reference) == optional_text(v[5])
    &&& opt_string_view(t.description) == optional_text(v[6])
}

pub open spec fn transaction_error_fn() -> spec_fn(Seq<Seq<char>>) -> Option<Seq<char>> {
    |v: Seq<Seq<char>>| transaction_row_error(v)
}

pub open spec fn transaction_read_fn() -> spec_fn(Seq<Seq<char>>, TransactionImport) -> bool {
    |v: Seq<Seq<char>>, t: TransactionImport| transaction_row_read(v, t)
}

pub fn parse_transaction_row(values: &Vec<String>) -> (r: Result<TransactionImport, String>)
    requires
        values.len() == 7,
    ensures
        transaction_row_error(texts(values@)) matches Some(m) ==> (r matches Err(e) && e@ == m),
        transaction_row_error(texts(values@)) is None ==> (r matches Ok(t)
            && transaction_row_read(texts(values@), t)),
{
    let ghost v = texts(values@);
    assert(v[0] == values@[0]@ && v[1] == values@[1]@ && v[2] == values@[2]@);
    assert(v[3] == values@[3]@ && v[4] == values@[4]@ && v[5] == values@[5]@);
    assert(v[6] == values@[6]@);
    let kind = match transaction_kind_of(trim(values[0].as_str()).as_str()) {
        Some(k) => k,
        None => {
            return Err(String::from_str("نوع تراکنش نامعتبر است"));
        },
    };
    let account = required_value(&values[1])?;
    let target = optional_value(&values[2]);
    let amount = amount_value(&values[3])?;
    let date = match parse_jalali_date(trim(values[4].as_str()).as_str()) {
        Some(d) => d,
        None => {
            return Err(String::from_str("تاریخ شمسی نامعتبر است"));
        },
    };
    Ok(
        TransactionImport {
            kind: String::from_str(kind),
            account,
            target,
            amount,
            date,
            reference: optional_value(&values[5]),
            description: optional_value(&values[6]),
        },
    )
}

/// Why a scheduled-item row (its nine cells) is refused, if it is.
pub open spec fn check_row_error(v: Seq<Seq<char>>) -> Option<Seq<char>> {
    if schedule_code(trimmed(v[0])) is None {
        Some("نوع سند نامعتبر است"@)
    } else if direction_code(trimmed(v[1])) is None {
        Some("جهت چک نامعتبر است"@)
    } else if is_blank(v[2]) || is_blank(v[3]) {
        Some(required_message())
    } else if schedule_code(trimmed(v[0])) == Some("check"@) && is_blank(v[4]) {
        Some(required_message())
    } else if fund_amount(v[6]) is None {
        Some(amount_message())
    } else if jalali_date_to_gregorian(trimmed(v[7])) is None {
        Some("سررسید شمسی نامعتبر است"@)
    } else {
        None
    }
}

pub open spec fn check_row_read(v: Seq<Seq<char>>, c: CheckImport) -> bool {
    &&& schedule_code(trimmed(v[0])) == Some(c.schedule_type@)
    &&& direction_code(trimmed(v[1])) == Some(c.direction@)
    &&& c.account@ == trimmed(v[2])
    &&& c.party@ == trimmed(v[3])
    &&& c.number@ == trimmed(v[4])
    &&& opt_string_view(c.bank) == optional_text(v[5])
    &&& fund_amount(v[6]) == Some(c.amount as int)
    &&& jalali_date_to_gregorian(trimmed(v[7])) == Some(c.due@)
    &&& opt_string_view(c.note) == optional_text(v[8])
}

pub open spec fn check_error_fn() -> spec_fn(Seq<Seq<char>>) -> Option<Seq<char>> {
    |v: Seq<Seq<char>>| check_row_error(v)
}

pub open spec fn check_read_fn() -> spec_fn(Seq<Seq<char>>, CheckImport) -> bool {
    |v: Seq<Seq<char>>, c: CheckImport| check_row_read(v, c)
}

pub fn parse_check_row(values: &Vec<String>) -> (r: Result<CheckImport, String>)
    requires
        values.len() == 9,
    ensures
        check_row_error(texts(values@)) matches Some(m) ==> (r matches Err(e) && e@ == m),
        check_row_error(texts(values@)) is None ==> (r matches Ok(c) && check_row_read(
            texts(values@),
            c,
        )),
{
    let ghost v = texts(values@);
    assert(v[0] == values@[0]@ && v[1] == values@[1]@ && v[2] == values@[2]@);
    assert(v[3] == values@[3]@ && v[4] == values@[4]@ && v[5] == values@[5]@);
    assert(v[6] == values@[6]@ && v[7] == values@[7]@ && v[8] == values@[8]@);
    let schedule_type = match schedule_of(trim(values[0].as_str()).as_str()) {
        Some(s) => s,
        None => {
            return Err(String::from_str("نوع سند نامعتبر است"));
        },
    };
    let direction = match direction_of(trim(values[1].as_str()).as_str()) {
        Some(d) => d,
        None => {
            return Err(String::from_str("جهت چک نامعتبر است"));
        },
    };
    let account = required_value(&values[2])?;
    let party = required_value(&values[3])?;
    let number = if same_text(schedule_type, "check") {
        required_value(&values[4])?
    } else {
        trim(values[4].as_str())
    };
    let bank = optional_value(&values[5]);
    let amount = amount_value(&values[6])?;
    let due = match parse_jalali_date(trim(values[7].as_str()).as_str()) {
        Some(d) => d,
        None => {
            return Err(String::from_str("سررسید شمسی نامعتبر است"));
        },
    };
    Ok(
        CheckImport {
            schedule_type: String::from_str(schedule_type),
            direction: String::from_str(direction),
            account,
            party,
            number,
            bank,
            amount,
            due,
            note: optional_value(&values[8]),
        },
    )
}

// ---------------------------------------------------------------------
// Sheets
// ---------------------------------------------------------------------

/// What reading the sheet of a tab (as a grid of cell texts) gives: the
/// first refused row, scanning from the top, refuses the whole sheet.
pub open spec fn fund_sheet_outcome(g: Seq<Seq<Seq<char>>>, tab: int, r: Result<FundImportFile, String>) -> bool {
    if g.len() == 0 {
        r matches Err(e) && e@ == "فایل خالی است"@
    } else if header_mismatch(g[0], fund_headers(tab), 0) is Some {
        r matches Err(e) && e@ == header_mismatch(g[0], fund_headers(tab), 0)->Some_0
    } else if tab == 0 {
        match first_row_error(g.skip(1), 4, account_error_fn()) {
            Some(m) => r matches Err(e) && e@ == m,
            None => r matches Ok(FundImportFile::Accounts(out)) && rows_read(
                g.skip(1),
                4,
                account_read_fn(),
                out@,
            ),
        }
    } else if tab == 1 {
        match first_row_error(g.skip(1), 7, transaction_error_fn()) {
            Some(m) => r matches Err(e) && e@ == m,
            None => r matches Ok(FundImportFile::Transactions(out)) && rows_read(
                g.skip(1),
                7,
                transaction_read_fn(),
                out@,
            ),
        }
    } else {
        match first_row_error(g.skip(1), 9, check_error_fn()) {
            Some(m) => r matches Err(e) && e@ == m,
            None => r matches Ok(FundImportFile::Checks(out)) && rows_read(
                g.skip(1),
                9,
                check_read_fn(),
                out@,
            ),
        }
    }
}

fn read_account_rows(grid: &Vec<Vec<String>>) -> (r: Result<Vec<AccountImport>, String>)
    requires
        grid.len() > 0,
    ensures
        ({
            let g = grid_view(grid@);
            match first_row_error(g.skip(1), 4, account_error_fn()) {
                Some(m) => r matches Err(e) && e@ == m,
                None => r matches Ok(out) && rows_read(g.skip(1), 4, account_read_fn(), out@),
            }
        }),
{
    let ghost g = grid_view(grid@);
    let mut out: Vec<AccountImport> = Vec::new();
    let mut i: usize = 1;
    assert(g.skip(1).take(0) =~= Seq::<Seq<Seq<char>>>::empty());
    while i < grid.len()
        invariant
            1 <= i <= grid.len(),
            g == grid_view(grid@),
            first_row_error(g.skip(1).take(i - 1), 4, account_error_fn()) is None,
            rows_read(g.skip(1).take(i - 1), 4, account_read_fn(), out@),
        decreases grid.len() - i,
    {
        let ghost data = g.skip(1).take(i as int);
        assert(data.drop_last() =~= g.skip(1).take(i - 1));
        assert(data.last() == g[i as int]);
        assert(g[i as int] == texts(grid@[i as int]@));
        let values = row_values_of(&grid[i], 4);
        if !values_all_blank(&values) {
            match parse_account_row(&values) {
                Ok(a) => {
                    let ghost before = out@;
                    out.push(a);
                    assert(out@.drop_last() =~= before);
                },
                Err(e) => {
                    proof {
                        lemma_first_error_stays(g.skip(1), 4, account_error_fn(), i as int);
                    }
                    return Err(e);
                },
            }
        }
        i = i + 1;
    }
    assert(g.skip(1).take(grid.len() - 1) =~= g.skip(1));
    Ok(out)
}

fn read_transaction_rows(grid: &Vec<Vec<String>>) -> (r: Result<Vec<TransactionImport>, String>)
    requires
        grid.len() > 0,
    ensures
        ({
            let g = grid_view(grid@);
            match first_row_error(g.skip(1), 7, transaction_error_fn()) {
                Some(m) => r matches Err(e) && e@ == m,
                None => r matches Ok(out) && rows_read(g.skip(1), 7, transaction_read_fn(), out@),
            }
        }),
{
    let ghost g = grid_view(grid@);
    let mut out: Vec<TransactionImport> = Vec::new();
    let mut i: usize = 1;
    assert(g.skip(1).take(0) =~= Seq::<Seq<Seq<char>>>::empty());
    while i < grid.len()
        invariant
            1 <= i <= grid.len(),
            g == grid_view(grid@),
            first_row_error(g.skip(1).take(i - 1), 7, transaction_error_fn()) is None,
            rows_read(g.skip(1).take(i - 1), 7, transaction_read_fn(), out@),
        decreases grid.len() - i,
    {
        let ghost data = g.skip(1).take(i as int);
        assert(data.drop_last() =~= g.skip(1).take(i - 1));
        assert(data.last() == g[i as int]);
        assert(g[i as int] == texts(grid@[i as int]@));
        let values = row_values_of(&grid[i], 7);
        if !values_all_blank(&values) {
            match parse_transaction_row(&values) {
                Ok(t) => {
                    let ghost before = out@;
                    out.push(t);
                    assert(out@.drop_last() =~= before);
                },
                Err(e) => {
                    proof {
                        lemma_first_error_stays(g.skip(1), 7, transaction_error_fn(), i as int);
                    }
                    return Err(e);
                },
            }
        }
        i = i + 1;
    }
    assert(g.skip(1).take(grid.len() - 1) =~= g.skip(1));
    Ok(out)
}

fn read_check_rows(grid: &Vec<Vec<String>>) -> (r: Result<Vec<CheckImport>, String>)
    requires
        grid.len() > 0,
    ensures
        ({
            let g = grid_view(grid@);
            match first_row_error(g.skip(1), 9, check_error_fn()) {
                Some(m) => r matches Err(e) && e@ == m,
                None => r matches Ok(out) && rows_read(g.skip(1), 9, check_read_fn(), out@),
            }
        }),
{
    let ghost g = grid_view(grid@);
    let mut out: Vec<CheckImport> = Vec::new();
    let mut i: usize = 1;
    assert(g.skip(1).take(0) =~= Seq::<Seq<Seq<char>>>::empty());
    while i < grid.len()
        invariant
            1 <= i <= grid.len(),
            g == grid_view(grid@),
            first_row_error(g.skip(1).take(i - 1), 9, check_error_fn()) is None,
            rows_read(g.skip(1).take(i - 1), 9, check_read_fn(), out@),
        decreases grid.len() - i,
    {
        let ghost data = g.skip(1).take(i as int);
        assert(data.drop_last() =~= g.skip(1).take(i - 1));
        assert(data.last() == g[i as int]);
        assert(g[i as int] == texts(grid@[i as int]@));
        let values = row_values_of(&grid[i], 9);
        if !values_all_blank(&values) {
            match parse_check_row(&values) {
                Ok(c) => {
                    let ghost before = out@;
                    out.push(c);
                    assert(out@.drop_last() =~= before);
                },
                Err(e) => {
                    proof {
                        lemma_first_error_stays(g.skip(1), 9, check_error_fn(), i as int);
                    }
                    return Err(e);
                },
            }
        }
        i = i + 1;
    }
    assert(g.skip(1).take(grid.len() - 1) =~= g.skip(1));
    Ok(out)
}

/// Reads the sheet of a tab: the header row must name its columns, and every
/// row that is not blank must give a record.
pub fn read_fund_rows(grid: &Vec<Vec<String>>, tab: i32) -> (r: Result<FundImportFile, String>)
    ensures
        fund_sheet_outcome(grid_view(grid@), tab as int, r),
{
    let ghost g = grid_view(grid@);
    if grid.len() == 0 {
        return Err(String::from_str("فایل خالی است"));
    }
    assert(g[0] == texts(grid@[0]@));
    check_header(&grid[0], &fund_header_names(tab))?;
    if tab == 0 {
        Ok(FundImportFile::Accounts(read_account_rows(grid)?))
    } else if tab == 1 {
        Ok(FundImportFile::Transactions(read_transaction_rows(grid)?))
    } else {
        Ok(FundImportFile::Checks(read_check_rows(grid)?))
    }
}

/// The sample row of a tab's template.
pub open spec fn fund_sample(tab: int) -> Seq<Seq<char>> {
    if tab == 0 {
        seq!["حساب بانکی"@, "بانک ملت"@, "IR000000000000000000000000"@, "10000000"@]
    } else if tab == 1 {
        seq!["درآمد"@, "بانک ملت"@, ""@, "2500000"@, "1405/05/22"@, "TRX-1001"@, "فروش نقدی"@]
    } else {
        seq![
            "چک"@,
            "دریافتی"@,
            "بانک ملت"@,
            "شرکت نمونه"@,
            "CHK-1001"@,
            "بانک سامان"@,
            "5000000"@,
            "1405/06/15"@,
            "فاکتور ۱۲۳"@,
        ]
    }
}

/// The template of a tab: the header row and one sample row, all text.
pub fn fund_template_sheet(tab: i32) -> (r: Sheet)
    ensures
        r.name is None,
        texts(r.headers@) == fund_headers(tab as int),
        r.rows.len() == 1,
        text_row(r.rows@[0]@, fund_sample(tab as int)),
        r.column_widths.len() == 0,
{
    let sample = if tab == 0 {
        vec!["حساب بانکی", "بانک ملت", "IR000000000000000000000000", "10000000"]
    } else if tab == 1 {
        vec!["درآمد", "بانک ملت", "", "2500000", "1405/05/22", "TRX-1001", "فروش نقدی"]
    } else {
        vec![
            "چک",
            "دریافتی",
            "بانک ملت",
            "شرکت نمونه",
            "CHK-1001",
            "بانک سامان",
            "5000000",
            "1405/06/15",
            "فاکتور ۱۲۳",
        ]
    };
    assert(strs(sample@) =~= fund_sample(tab as int));
    let mut rows: Vec<Vec<SheetCell>> = Vec::new();
    rows.push(text_cells(sample));
    Sheet {
        name: None,
        headers: header_strings(fund_header_names(tab)),
        rows,
        column_widths: Vec::new(),
    }
}

pub open spec fn account_kind_label(kind: Seq<char>) -> Seq<char> {
    if kind == "cash"@ {
        "صندوق نقدی"@
    } else if kind == "bank"@ {
        "حساب بانکی"@
    } else if kind == "card"@ {
        "کارت"@
    } else {
        "سایر"@
    }
}

pub fn account_kind_label_of(kind: &str) -> (r: &'static str)
    ensures
        r@ == account_kind_label(kind@),
{
    if same_text(kind, "cash") {
        "صندوق نقدی"
    } else if same_text(kind, "bank") {
        "حساب بانکی"
    } else if same_text(kind, "card") {
        "کارت"
    } else {
        "سایر"
    }
}

pub open spec fn transaction_kind_label(kind: Seq<char>) -> Seq<char> {
    if kind == "income"@ {
        "درآمد"@
    } else if kind == "expense"@ {
        "هزینه"@
    } else {
        "انتقال"@
    }
}

pub fn transaction_kind_label_of(kind: &str) -> (r: &'static str)
    ensures
        r@ == transaction_kind_label(kind@),
{
    if same_text(kind, "income") {
        "درآمد"
    } else if same_text(kind, "expense") {
        "هزینه"
    } else {
        "انتقال"
    }
}

pub open spec fn schedule_export_label(schedule_type: Seq<char>) -> Seq<char> {
    if schedule_type == "check"@ {
        "چک"@
    } else if schedule_type == "installment"@ {
        "قسط"@
    } else {
        "زمان‌بندی‌شده"@
    }
}

fn schedule_export_label_of(schedule_type: &str) -> (r: &'static str)
    ensures
        r@ == schedule_export_label(schedule_type@),
{
    if same_text(schedule_type, "check") {
        "چک"
    } else if same_text(schedule_type, "installment") {
        "قسط"
    } else {
        "زمان‌بندی‌شده"
    }
}

pub open spec fn direction_label(direction: Seq<char>) -> Seq<char> {
    if direction == "incoming"@ {
        "دریافتی"@
    } else {
        "پرداختی"@
    }
}

/// A row with `values` as text everywhere but at column `at`, which holds
/// the amount.
pub open spec fn row_with_amount(cells: Seq<SheetCell>, values: Seq<Seq<char>>, at: int, amount: i64) -> bool {
    &&& cells.len() == values.len()
    &&& 0 <= at < values.len()
    &&& cells[at] == SheetCell::Number(amount)
    &&& forall|j: int|
        0 <= j < values.len() && j != at ==> (#[trigger] cells[j] matches SheetCell::Text(t) && t@
            == values[j])
}

fn cells_with_amount(values: Vec<String>, at: usize, amount: i64) -> (r: Vec<SheetCell>)
    requires
        at < values.len(),
    ensures
        row_with_amount(r@, texts(values@), at as int, amount),
{
    let mut out: Vec<SheetCell> = Vec::new();
    let mut j: usize = 0;
    while j < values.len()
        invariant
            j <= values.len(),
            at < values.len(),
            out.len() == j,
            forall|k: int| 0 <= k < j && k == at ==> out@[k] == SheetCell::Number(amount),
            forall|k: int|
                0 <= k < j && k != at ==> (#[trigger] out@[k] matches SheetCell::Text(t) && t@
                    == values@[k]@),
        decreases values.len() - j,
    {
        if j == at {
            out.push(SheetCell::Number(amount));
        } else {
            out.push(SheetCell::Text(values[j].clone()));
        }
        j = j + 1;
    }
    out
}

/// An exported account row: kind label, name, number, opening balance.
pub open spec fn account_export_row(cells: Seq<SheetCell>, a: FundAccountRecord) -> bool {
    row_with_amount(
        cells,
        seq![account_kind_label(a.kind@), a.name@, a.account_number@, Seq::empty()],
        3,
        a.opening_balance_minor,
    )
}

/// An exported transaction row: kind label, accounts, amount, Jalali date,
/// reference, description.
pub open spec fn transaction_export_row(cells: Seq<SheetCell>, t: FundTransactionRecord) -> bool {
    row_with_amount(
        cells,
        seq![
            transaction_kind_label(t.kind@),
            t.account_name@,
            t.transfer_account_name@,
            Seq::empty(),
            jalali_of_gregorian_text(t.occurred_on@),
            t.reference@,
            t.description@,
        ],
        3,
        t.amount_minor,
    )
}

/// An exported scheduled-item row: type and direction labels, account,
/// party, number, bank, amount, Jalali due date, note.
pub open spec fn check_export_row(cells: Seq<SheetCell>, c: FundCheckRecord) -> bool {
    row_with_amount(
        cells,
        seq![
            schedule_export_label(c.schedule_type@),
            direction_label(c.direction@),
            c.account_name@,
            c.party_name@,
            c.check_number@,
            c.bank_name@,
            Seq::empty(),
            jalali_of_gregorian_text(c.due_on@),
            c.note@,
        ],
        6,
        c.amount_minor,
    )
}

/// The export of a tab: the header row, then a row per record of the tab's
/// kind (the records of the other kinds are not written).
pub fn fund_export_sheet(
    tab: i32,
    accounts: &[FundAccountRecord],
    transactions: &[FundTransactionRecord],
    checks: &[FundCheckRecord],
) -> (r: Sheet)
    ensures
        r.name is None,
        texts(r.headers@) == fund_headers(tab as int),
        r.column_widths.len() == 0,
        tab == 0 ==> r.rows.len() == accounts.len() && forall|i: int|
            0 <= i < accounts.len() ==> account_export_row(#[trigger] r.rows@[i]@, accounts@[i]),
        tab == 1 ==> r.rows.len() == transactions.len() && forall|i: int|
            0 <= i < transactions.len() ==> transaction_export_row(
                #[trigger] r.rows@[i]@,
                transactions@[i],
            ),
        tab != 0 && tab != 1 ==> r.rows.len() == checks.len() && forall|i: int|
            0 <= i < checks.len() ==> check_export_row(#[trigger] r.rows@[i]@, checks@[i]),
{
    let mut rows: Vec<Vec<SheetCell>> = Vec::new();
    if tab == 0 {
        let mut i: usize = 0;
        while i < accounts.len()
            invariant
                i <= accounts.len(),
                rows.len() == i,
                forall|k: int| 0 <= k < i ==> account_export_row(#[trigger] rows@[k]@, accounts@[k]),
            decreases accounts.len() - i,
        {
            let a = &accounts[i];
            let mut values: Vec<String> = Vec::new();
            values.push(String::from_str(account_kind_label_of(a.kind.as_str())));
            values.push(a.name.clone());
            values.push(a.account_number.clone());
            values.push(String::new());
            assert(texts(values@) =~= seq![
                account_kind_label(a.kind@),
                a.name@,
                a.account_number@,
                Seq::empty(),
            ]);
            rows.push(cells_with_amount(values, 3, a.opening_balance_minor));
            i = i + 1;
        }
    } else if tab == 1 {
        let mut i: usize = 0;
        while i < transactions.len()
            invariant
                i <= transactions.len(),
                rows.len() == i,
                forall|k: int|
                    0 <= k < i ==> transaction_export_row(#[trigger] rows@[k]@, transactions@[k]),
            decreases transactions.len() - i,
        {
            let t = &transactions[i];
            let mut values: Vec<String> = Vec::new();
            values.push(String::from_str(transaction_kind_label_of(t.kind.as_str())));
            values.push(t.account_name.clone());
            values.push(t.transfer_account_name.clone());
            values.push(String::new());
            values.push(jalali_for_gregorian_text(t.occurred_on.as_str()));
            values.push(t.reference.clone());
            values.push(t.description.clone());
            assert(texts(values@) =~= seq![
                transaction_kind_label(t.kind@),
                t.account_name@,
                t.transfer_account_name@,
                Seq::empty(),
                jalali_of_gregorian_text(t.occurred_on@),
                t.reference@,
                t.description@,
            ]);
            rows.push(cells_with_amount(values, 3, t.amount_minor));
            i = i + 1;
        }
    } else {
        let mut i: usize = 0;
        while i < checks.len()
            invariant
                i <= checks.len(),
                rows.len() == i,
                forall|k: int| 0 <= k < i ==> check_export_row(#[trigger] rows@[k]@, checks@[k]),
            decreases checks.len() - i,
        {
            let c = &checks[i];
            let direction = if same_text(c.direction.as_str(), "incoming") {
                "دریافتی"
            } else {
                "پرداختی"
            };
            let mut values: Vec<String> = Vec::new();
            values.push(String::from_str(schedule_export_label_of(c.schedule_type.as_str())));
            values.push(String::from_str(direction));
            values.push(c.account_name.clone());
            values.push(c.party_name.clone());
            values.push(c.check_number.clone());
            values.push(c.bank_name.clone());
            values.push(String::new());
            values.push(jalali_for_gregorian_text(c.due_on.as_str()));
            values.push(c.note.clone());
            assert(texts(values@) =~= seq![
                schedule_export_label(c.schedule_type@),
                direction_label(c.direction@),
                c.account_name@,
                c.party_name@,
                c.check_number@,
                c.bank_name@,
                Seq::empty(),
                jalali_of_gregorian_text(c.due_on@),
                c.note@,
            ]);
            rows.push(cells_with_amount(values, 6, c.amount_minor));
            i = i + 1;
        }
    }
    Sheet { name: None, headers: header_strings(fund_header_names(tab)), rows, column_widths: Vec::new() }
}

// ---------------------------------------------------------------------
// Reading an export back
// ---------------------------------------------------------------------

proof fn lemma_no_separators(s: Seq<char>)
    requires
        forall|i: int| 0 <= i < s.len() ==> !is_group_separator(#[trigger] s[i]),
    ensures
        without_separators(s) == s,
    decreases s.len(),
{
    if s.len() > 0 {
        let rest = s.drop_last();
        assert forall|i: int| 0 <= i < rest.len() implies !is_group_separator(#[trigger] rest[i]) by {
            assert(rest[i] == s[i]);
        }
        lemma_no_separators(rest);
        assert(!is_group_separator(s[s.len() - 1]));
        assert(rest.push(s.last()) =~= s);
    }
}

/// An amount printed as `ToString` prints it is read back as the amount.
pub proof fn lemma_fund_amount_reads_int_text(n: int)
    requires
        i64::MIN <= n <= i64::MAX,
    ensures
        fund_amount(int_text(n)) == Some(n),
{
    let m: nat = (if n < 0 {
        -n
    } else {
        n
    }) as nat;
    let d = decimal(m);
    lemma_decimal_value(m);
    lemma_decimal_len(m);
    let s = int_text(n);
    assert forall|i: int| 0 <= i < s.len() implies !is_group_separator(#[trigger] s[i]) by {
        if n < 0 {
            if i > 0 {
                assert(s[i] == d[i - 1]);
                assert(is_digit(d[i - 1]));
            }
        } else {
            assert(is_digit(d[i]));
        }
    }
    lemma_no_separators(s);
    if n < 0 {
        assert(s.drop_first() =~= d);
    } else {
        assert(is_digit(d[0]));
    }
}

/// An account the account sheet carries: of a kind the sheet names, with a
/// name.
pub open spec fn account_exportable(a: FundAccountRecord) -> bool {
    &&& (a.kind@ == "cash"@ || a.kind@ == "bank"@ || a.kind@ == "card"@ || a.kind@ == "other"@)
    &&& !is_blank(a.name@)
}

/// The account a record reads back as: its kind and opening balance, its
/// name trimmed, and its number trimmed unless it is blank.
pub open spec fn account_read_back(a: FundAccountRecord, imp: AccountImport) -> bool {
    &&& imp.kind@ == a.kind@
    &&& imp.name@ == trimmed(a.name@)
    &&& opt_string_view(imp.number) == optional_text(a.account_number@)
    &&& imp.opening == a.opening_balance_minor
}

proof fn lemma_account_headers_clean()
    ensures
        forall|i: int|
            0 <= i < account_headers().len() ==> trimmed(#[trigger] account_headers()[i])
                == account_headers()[i],
{
    reveal_strlit("نوع حساب");
    reveal_strlit("نام حساب");
    reveal_strlit("شماره/شناسه");
    reveal_strlit("موجودی افتتاحیه (ریال)");
    lemma_trimmed_same("نوع حساب"@);
    lemma_trimmed_same("نام حساب"@);
    lemma_trimmed_same("شماره/شناسه"@);
    lemma_trimmed_same("موجودی افتتاحیه (ریال)"@);
}

proof fn lemma_account_kind_label(kind: Seq<char>)
    requires
        kind == "cash"@ || kind == "bank"@ || kind == "card"@ || kind == "other"@,
    ensures
        trimmed(account_kind_label(kind)) == account_kind_label(kind),
        account_kind_code(account_kind_label(kind)) == Some(kind),
{
    reveal_strlit("cash");
    reveal_strlit("bank");
    reveal_strlit("card");
    reveal_strlit("other");
    reveal_strlit("صندوق نقدی");
    reveal_strlit("حساب بانکی");
    reveal_strlit("کارت");
    reveal_strlit("سایر");
    lemma_trimmed_same(account_kind_label(kind));
}

proof fn lemma_account_row_reads_back(cells: Seq<SheetCell>, a: FundAccountRecord)
    requires
        account_export_row(cells, a),
        account_exportable(a),
    ensures
        !all_blank(row_values(row_shown(cells), 4)),
        account_row_error(row_values(row_shown(cells), 4)) is None,
        forall|imp: AccountImport|
            account_row_read(row_values(row_shown(cells), 4), imp) ==> #[trigger] account_read_back(
                a,
                imp,
            ),
{
    let v = row_values(row_shown(cells), 4);
    let values = seq![account_kind_label(a.kind@), a.name@, a.account_number@, Seq::<char>::empty()];
    assert forall|j: int| 0 <= j < 4 implies #[trigger] v[j] == cell_shown(cells[j]) by {
        assert(cell_text(row_shown(cells), j) == row_shown(cells)[j]);
    }
    assert forall|j: int| 0 <= j < 3 implies #[trigger] v[j] == values[j] by {
        assert(cells[j] matches SheetCell::Text(t) && t@ == values[j]);
    }
    lemma_account_kind_label(a.kind@);
    lemma_fund_amount_reads_int_text(a.opening_balance_minor as int);
    assert(v[3] == int_text(a.opening_balance_minor as int));
    assert(v[1] == a.name@);
    assert(!is_blank(v[1]));
}

/// An exported account sheet read back from the texts its cells show: every
/// account reads back, in order, with the opening balance it had.
pub proof fn account_export_reads_back(
    accounts: Seq<FundAccountRecord>,
    sheet: Sheet,
    read: Result<FundImportFile, String>,
)
    requires
        forall|i: int| 0 <= i < accounts.len() ==> #[trigger] account_exportable(accounts[i]),
        texts(sheet.headers@) == fund_headers(0),
        sheet.rows.len() == accounts.len(),
        forall|i: int|
            0 <= i < accounts.len() ==> account_export_row(#[trigger] sheet.rows@[i]@, accounts[i]),
        fund_sheet_outcome(sheet_shown(sheet), 0, read),
    ensures
        read matches Ok(FundImportFile::Accounts(out)) && out.len() == accounts.len() && forall|
            i: int,
        | 0 <= i < accounts.len() ==> account_read_back(accounts[i], #[trigger] out@[i]),
{
    let g = sheet_shown(sheet);
    let cells = sheet_cells(sheet);
    let data = g.skip(1);
    lemma_sheet_shown(sheet);
    lemma_account_headers_clean();
    lemma_header_reads(account_headers(), 0);
    assert forall|i: int| #![trigger row_values(data[i], 4)]
        0 <= i < data.len() implies account_error_fn()(row_values(data[i], 4)) is None
            && !all_blank(row_values(data[i], 4)) by {
        assert(cells[i] == sheet.rows@[i]@);
        assert(data[i] == row_shown(cells[i]));
        lemma_account_row_reads_back(cells[i], accounts[i]);
    }
    lemma_no_row_error(data, 4, account_error_fn());
    let out = read->Ok_0->Accounts_0;
    lemma_rows_read_each(data, 4, account_read_fn(), out@);
    assert forall|i: int| 0 <= i < accounts.len() implies account_read_back(
        accounts[i],
        #[trigger] out@[i],
    ) by {
        assert(cells[i] == sheet.rows@[i]@);
        assert(data[i] == row_shown(cells[i]));
        lemma_account_row_reads_back(cells[i], accounts[i]);
        assert(account_read_fn()(row_values(data[i], 4), out@[i]));
    }
}

/// A Gregorian date text of a date whose Jalali text reads back.
pub open spec fn date_reads_back(s: Seq<char>) -> bool {
    exists|y: int, m: int, d: int| s == gregorian_text(y, m, d) && jalali_round_trip_date(y, m, d)
}

/// The Jalali text written for such a date reads as the date again.
proof fn lemma_date_reads_back(s: Seq<char>)
    requires
        date_reads_back(s),
    ensures
        trimmed(jalali_of_gregorian_text(s)) == jalali_of_gregorian_text(s),
        jalali_date_to_gregorian(jalali_of_gregorian_text(s)) == Some(s),
{
    let (y, m, d) = choose|y: int, m: int, d: int|
        s == gregorian_text(y, m, d) && jalali_round_trip_date(y, m, d);
    jalali_text_reads_back(y, m, d);
    lemma_jalali_text_trimmed(y, m, d);
}

/// A transaction the transaction sheet carries: of a kind the sheet names,
/// from a named account, on a date whose Jalali text reads back.
pub open spec fn transaction_exportable(t: FundTransactionRecord) -> bool {
    &&& (t.kind@ == "income"@ || t.kind@ == "expense"@ || t.kind@ == "transfer"@)
    &&& !is_blank(t.account_name@)
    &&& date_reads_back(t.occurred_on@)
}

/// The transaction a record reads back as: its kind, amount and date, its
/// account trimmed, and the other texts trimmed unless they are blank.
pub open spec fn transaction_read_back(t: FundTransactionRecord, imp: TransactionImport) -> bool {
    &&& imp.kind@ == t.kind@
    &&& imp.account@ == trimmed(t.account_name@)
    &&& opt_string_view(imp.target) == optional_text(t.transfer_account_name@)
    &&& imp.amount == t.amount_minor
    &&& imp.date@ == t.occurred_on@
    &&& opt_string_view(imp.reference) == optional_text(t.reference@)
    &&& opt_string_view(imp.description) == optional_text(t.description@)
}

proof fn lemma_transaction_headers_clean()
    ensures
        forall|i: int|
            0 <= i < transaction_headers().len() ==> trimmed(#[trigger] transaction_headers()[i])
                == transaction_headers()[i],
{
    reveal_strlit("نوع");
    reveal_strlit("حساب");
    reveal_strlit("حساب مقصد");
    reveal_strlit("مبلغ (ریال)");
    reveal_strlit("تاریخ شمسی");
    reveal_strlit("شناسه پیگیری");
    reveal_strlit("شرح");
    lemma_trimmed_same("نوع"@);
    lemma_trimmed_same("حساب"@);
    lemma_trimmed_same("حساب مقصد"@);
    lemma_trimmed_same("مبلغ (ریال)"@);
    lemma_trimmed_same("تاریخ شمسی"@);
    lemma_trimmed_same("شناسه پیگیری"@);
    lemma_trimmed_same("شرح"@);
}

proof fn lemma_transaction_kind_label(kind: Seq<char>)
    requires
        kind == "income"@ || kind == "expense"@ || kind == "transfer"@,
    ensures
        trimmed(transaction_kind_label(kind)) == transaction_kind_label(kind),
        transaction_kind_code(transaction_kind_label(kind)) == Some(kind),
{
    reveal_strlit("income");
    reveal_strlit("expense");
    reveal_strlit("transfer");
    reveal_strlit("درآمد");
    reveal_strlit("هزینه");
    reveal_strlit("انتقال");
    assert("درآمد"@[0] != "هزینه"@[0]);
    lemma_trimmed_same(transaction_kind_label(kind));
}

proof fn lemma_transaction_row_reads_back(cells: Seq<SheetCell>, t: FundTransactionRecord)
    requires
        transaction_export_row(cells, t),
        transaction_exportable(t),
    ensures
        !all_blank(row_values(row_shown(cells), 7)),
        transaction_row_error(row_values(row_shown(cells), 7)) is None,
        forall|imp: TransactionImport|
            transaction_row_read(row_values(row_shown(cells), 7), imp)
                ==> #[trigger] transaction_read_back(t, imp),
{
    let v = row_values(row_shown(cells), 7);
    let values = seq![
        transaction_kind_label(t.kind@),
        t.account_name@,
        t.transfer_account_name@,
        Seq::<char>::empty(),
        jalali_of_gregorian_text(t.occurred_on@),
        t.reference@,
        t.description@,
    ];
    assert forall|j: int| 0 <= j < 7 implies #[trigger] v[j] == cell_shown(cells[j]) by {
        assert(cell_text(row_shown(cells), j) == row_shown(cells)[j]);
    }
    assert forall|j: int| 0 <= j < 7 && j != 3 implies #[trigger] v[j] == values[j] by {
        assert(cells[j] matches SheetCell::Text(x) && x@ == values[j]);
    }
    lemma_transaction_kind_label(t.kind@);
    lemma_fund_amount_reads_int_text(t.amount_minor as int);
    lemma_date_reads_back(t.occurred_on@);
    assert(v[3] == int_text(t.amount_minor as int));
    assert(v[4] == jalali_of_gregorian_text(t.occurred_on@));
    assert(v[1] == t.account_name@);
    assert(!is_blank(v[1]));
}

/// An exported transaction sheet read back from the texts its cells show:
/// every transaction reads back, in order, with its amount and date.
pub proof fn transaction_export_reads_back(
    transactions: Seq<FundTransactionRecord>,
    sheet: Sheet,
    read: Result<FundImportFile, String>,
)
    requires
        forall|i: int|
            0 <= i < transactions.len() ==> #[trigger] transaction_exportable(transactions[i]),
        texts(sheet.headers@) == fund_headers(1),
        sheet.rows.len() == transactions.len(),
        forall|i: int|
            0 <= i < transactions.len() ==> transaction_export_row(
                #[trigger] sheet.rows@[i]@,
                transactions[i],
            ),
        fund_sheet_outcome(sheet_shown(sheet), 1, read),
    ensures
        read matches Ok(FundImportFile::Transactions(out)) && out.len() == transactions.len()
            && forall|i: int|
            0 <= i < transactions.len() ==> transaction_read_back(
                transactions[i],
                #[trigger] out@[i],
            ),
{
    let g = sheet_shown(sheet);
    let cells = sheet_cells(sheet);
    let data = g.skip(1);
    lemma_sheet_shown(sheet);
    lemma_transaction_headers_clean();
    lemma_header_reads(transaction_headers(), 0);
    assert forall|i: int| #![trigger row_values(data[i], 7)]
        0 <= i < data.len() implies transaction_error_fn()(row_values(data[i], 7)) is None
            && !all_blank(row_values(data[i], 7)) by {
        assert(cells[i] == sheet.rows@[i]@);
        assert(data[i] == row_shown(cells[i]));
        lemma_transaction_row_reads_back(cells[i], transactions[i]);
    }
    lemma_no_row_error(data, 7, transaction_error_fn());
    let out = read->Ok_0->Transactions_0;
    lemma_rows_read_each(data, 7, transaction_read_fn(), out@);
    assert forall|i: int| 0 <= i < transactions.len() implies transaction_read_back(
        transactions[i],
        #[trigger] out@[i],
    ) by {
        assert(cells[i] == sheet.rows@[i]@);
        assert(data[i] == row_shown(cells[i]));
        lemma_transaction_row_reads_back(cells[i], transactions[i]);
        assert(transaction_read_fn()(row_values(data[i], 7), out@[i]));
    }
}

/// A scheduled item the check sheet carries: of a type and direction the
/// sheet names, with its account and party, a number for a check, and a due
/// date whose Jalali text reads back.
pub open spec fn check_exportable(c: FundCheckRecord) -> bool {
    &&& (c.schedule_type@ == "check"@ || c.schedule_type@ == "installment"@ || c.schedule_type@
        == "scheduled"@)
    &&& (c.direction@ == "incoming"@ || c.direction@ == "outgoing"@)
    &&& !is_blank(c.account_name@)
    &&& !is_blank(c.party_name@)
    &&& (c.schedule_type@ == "check"@ ==> !is_blank(c.check_number@))
    &&& date_reads_back(c.due_on@)
}

/// The scheduled item a record reads back as: its type, direction, amount
/// and due date, its account, party and number trimmed, and its bank and
/// note trimmed unless they are blank.
pub open spec fn check_read_back(c: FundCheckRecord, imp: CheckImport) -> bool {
    &&& imp.schedule_type@ == c.schedule_type@
    &&& imp.direction@ == c.direction@
    &&& imp.account@ == trimmed(c.account_name@)
    &&& imp.party@ == trimmed(c.party_name@)
    &&& imp.number@ == trimmed(c.check_number@)
    &&& opt_string_view(imp.bank) == optional_text(c.bank_name@)
    &&& imp.amount == c.amount_minor
    &&& imp.due@ == c.due_on@
    &&& opt_string_view(imp.note) == optional_text(c.note@)
}

proof fn lemma_check_headers_clean()
    ensures
        forall|i: int|
            0 <= i < check_headers().len() ==> trimmed(#[trigger] check_headers()[i])
                == check_headers()[i],
{
    reveal_strlit("نوع سند");
    reveal_strlit("جهت");
    reveal_strlit("حساب مرتبط");
    reveal_strlit("طرف حساب");
    reveal_strlit("شماره چک");
    reveal_strlit("بانک صادرکننده");
    reveal_strlit("مبلغ (ریال)");
    reveal_strlit("سررسید شمسی");
    reveal_strlit("یادداشت");
    lemma_trimmed_same("نوع سند"@);
    lemma_trimmed_same("جهت"@);
    lemma_trimmed_same("حساب مرتبط"@);
    lemma_trimmed_same("طرف حساب"@);
    lemma_trimmed_same("شماره چک"@);
    lemma_trimmed_same("بانک صادرکننده"@);
    lemma_trimmed_same("مبلغ (ریال)"@);
    lemma_trimmed_same("سررسید شمسی"@);
    lemma_trimmed_same("یادداشت"@);
}

proof fn lemma_check_labels(schedule_type: Seq<char>, direction: Seq<char>)
    requires
        schedule_type == "check"@ || schedule_type == "installment"@ || schedule_type
            == "scheduled"@,
        direction == "incoming"@ || direction == "outgoing"@,
    ensures
        trimmed(schedule_export_label(schedule_type)) == schedule_export_label(schedule_type),
        schedule_code(schedule_export_label(schedule_type)) == Some(schedule_type),
        trimmed(direction_label(direction)) == direction_label(direction),
        direction_code(direction_label(direction)) == Some(direction),
{
    reveal_strlit("check");
    reveal_strlit("installment");
    reveal_strlit("scheduled");
    reveal_strlit("incoming");
    reveal_strlit("outgoing");
    reveal_strlit("چک");
    reveal_strlit("قسط");
    reveal_strlit("زمان‌بندی‌شده");
    reveal_strlit("دریافت/پرداخت زمان‌بندی‌شده");
    reveal_strlit("دریافتی");
    reveal_strlit("پرداختی");
    assert("دریافتی"@[0] != "پرداختی"@[0]);
    lemma_trimmed_same(schedule_export_label(schedule_type));
    lemma_trimmed_same(direction_label(direction));
}

proof fn lemma_check_row_reads_back(cells: Seq<SheetCell>, c: FundCheckRecord)
    requires
        check_export_row(cells, c),
        check_exportable(c),
    ensures
        !all_blank(row_values(row_shown(cells), 9)),
        check_row_error(row_values(row_shown(cells), 9)) is None,
        forall|imp: CheckImport|
            check_row_read(row_values(row_shown(cells), 9), imp) ==> #[trigger] check_read_back(
                c,
                imp,
            ),
{
    let v = row_values(row_shown(cells), 9);
    let values = seq![
        schedule_export_label(c.schedule_type@),
        direction_label(c.direction@),
        c.account_name@,
        c.party_name@,
        c.check_number@,
        c.bank_name@,
        Seq::<char>::empty(),
        jalali_of_gregorian_text(c.due_on@),
        c.note@,
    ];
    assert forall|j: int| 0 <= j < 9 implies #[trigger] v[j] == cell_shown(cells[j]) by {
        assert(cell_text(row_shown(cells), j) == row_shown(cells)[j]);
    }
    assert forall|j: int| 0 <= j < 9 && j != 6 implies #[trigger] v[j] == values[j] by {
        assert(cells[j] matches SheetCell::Text(x) && x@ == values[j]);
    }
    lemma_check_labels(c.schedule_type@, c.direction@);
    lemma_fund_amount_reads_int_text(c.amount_minor as int);
    lemma_date_reads_back(c.due_on@);
    assert(v[0] == schedule_export_label(c.schedule_type@));
    assert(v[2] == c.account_name@);
    assert(v[3] == c.party_name@);
    assert(v[4] == c.check_number@);
    assert(v[6] == int_text(c.amount_minor as int));
    assert(v[7] == jalali_of_gregorian_text(c.due_on@));
}

/// An exported check sheet read back from the texts its cells show: every
/// scheduled item reads back, in order, with its amount and due date.
pub proof fn check_export_reads_back(
    checks: Seq<FundCheckRecord>,
    sheet: Sheet,
    read: Result<FundImportFile, String>,
)
    requires
        forall|i: int| 0 <= i < checks.len() ==> #[trigger] check_exportable(checks[i]),
        texts(sheet.headers@) == fund_headers(2),
        sheet.rows.len() == checks.len(),
        forall|i: int|
            0 <= i < checks.len() ==> check_export_row(#[trigger] sheet.rows@[i]@, checks[i]),
        fund_sheet_outcome(sheet_shown(sheet), 2, read),
    ensures
        read matches Ok(FundImportFile::Checks(out)) && out.len() == checks.len() && forall|
            i: int,
        | 0 <= i < checks.len() ==> check_read_back(checks[i], #[trigger] out@[i]),
{
    let g = sheet_shown(sheet);
    let cells = sheet_cells(sheet);
    let data = g.skip(1);
    lemma_sheet_shown(sheet);
    lemma_check_headers_clean();
    lemma_header_reads(check_headers(), 0);
    assert forall|i: int| #![trigger row_values(data[i], 9)]
        0 <= i < data.len() implies check_error_fn()(row_values(data[i], 9)) is None
            && !all_blank(row_values(data[i], 9)) by {
        assert(cells[i] == sheet.rows@[i]@);
        assert(data[i] == row_shown(cells[i]));
        lemma_check_row_reads_back(cells[i], checks[i]);
    }
    lemma_no_row_error(data, 9, check_error_fn());
    let out = read->Ok_0->Checks_0;
    lemma_rows_read_each(data, 9, check_read_fn(), out@);
    assert forall|i: int| 0 <= i < checks.len() implies check_read_back(
        checks[i],
        #[trigger] out@[i],
    ) by {
        assert(cells[i] == sheet.rows@[i]@);
        assert(data[i] == row_shown(cells[i]));
        lemma_check_row_reads_back(cells[i], checks[i]);
        assert(check_read_fn()(row_values(data[i], 9), out@[i]));
    }
}

} // verus!
