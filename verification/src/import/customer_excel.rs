//! Customers in spreadsheets: kind, name, contact details and the balance
//! they start with.

use vstd::prelude::*;

use super::sheet::{
    all_blank, cell_shown, cell_text, check_header, grid_view, header_mismatch, header_strings,
    lemma_header_reads, lemma_rows_counted, lemma_sheet_shown, nonblank_rows, optional_value,
    row_error, row_message, row_shown, row_values, row_values_of, sheet_cells, sheet_shown, strs,
    texts, values_all_blank, Sheet, SheetCell,
};
use crate::database::{CustomerDraft, CustomerRecord};
use crate::text::{
    blank, decimal, grouped_integer, is_blank, lemma_grouped_integer_reads_decimal,
    lemma_trimmed_same, opt_str_view, opt_string_view, optional_text, parse_grouped_integer,
    same_text, trim, trimmed,
};

verus! {

broadcast use vstd::string::group_string_axioms;

/// A customer read from a sheet, with the balance it starts with (positive:
/// the customer owes).
#[derive(Debug, Clone, PartialEq, Eq)]
pub struct CustomerImportRow {
    pub customer: CustomerDraft,
    pub opening_balance_minor: i64,
}

/// The rows read from a customer sheet, and a message for each row refused.
#[derive(Debug, Clone, PartialEq, Eq)]
pub struct CustomerImportFile {
    pub rows: Vec<CustomerImportRow>,
    pub errors: Vec<String>,
}

pub open spec fn customer_headers() -> Seq<Seq<char>> {
    seq!["نوع"@, "نام"@, "تلفن"@, "ایمیل"@, "آدرس"@, "نوع مانده"@, "مانده (ریال)"@]
}

pub fn customer_header_names() -> (r: Vec<&'static str>)
    ensures
        strs(r@) == customer_headers(),
        r.len() == 7,
{
    let v = vec!["نوع", "نام", "تلفن", "ایمیل", "آدرس", "نوع مانده", "مانده (ریال)"];
    assert(strs(v@) =~= customer_headers());
    v
}

/// The kind of customer a sheet names, in Persian or English.
pub open spec fn customer_kind_code(t: Seq<char>) -> Option<Seq<char>> {
    if t == "حقیقی"@ || t == "individual"@ {
        Some("individual"@)
    } else if t == "حقوقی"@ || t == "business"@ {
        Some("business"@)
    } else {
        None
    }
}

pub fn customer_kind_of(t: &str) -> (r: Option<&'static str>)
    ensures
        opt_str_view(r) == customer_kind_code(t@),
{
    if same_text(t, "حقیقی") || same_text(t, "individual") {
        Some("individual")
    } else if same_text(t, "حقوقی") || same_text(t, "business") {
        Some("business")
    } else {
        None
    }
}

/// The opening balance for a balance kind and an amount: owed (the amount),
/// owed back (its opposite) or settled (zero).
pub open spec fn opening_balance(t: Seq<char>, amount: int) -> Option<int> {
    if t == "بدهکار"@ || t == "debit"@ {
        Some(amount)
    } else if t == "بستانکار"@ || t == "credit"@ {
        Some(-amount)
    } else if t == "تسویه"@ || t == "settled"@ {
        Some(0)
    } else {
        None
    }
}

/// Why data row `row` (its seven cells `v`) is refused, if it is.
pub open spec fn customer_row_error(v: Seq<Seq<char>>, row: int) -> Option<Seq<char>> {
    if customer_kind_code(trimmed(v[0])) is None {
        Some(row_message(row, "نوع مشتری معتبر نیست"@))
    } else if is_blank(v[1]) {
        Some(row_message(row, "نام خالی است"@))
    } else if grouped_integer(v[6]) is None {
        Some(row_message(row, "مبلغ مانده معتبر نیست"@))
    } else if opening_balance(trimmed(v[5]), grouped_integer(v[6])->Some_0) is None {
        Some(row_message(row, "نوع مانده معتبر نیست"@))
    } else {
        None
    }
}

/// The customer read from the seven cells of an accepted row.
pub open spec fn customer_row_read(v: Seq<Seq<char>>, c: CustomerImportRow) -> bool {
    &&& c.customer.id is None
    &&& customer_kind_code(trimmed(v[0])) == Some(c.customer.kind@)
    &&& c.customer.name@ == trimmed(v[1])
    &&& opt_string_view(c.customer.phone) == optional_text(v[2])
    &&& opt_string_view(c.customer.email) == optional_text(v[3])
    &&& opt_string_view(c.customer.address) == optional_text(v[4])
    &&& opening_balance(trimmed(v[5]), grouped_integer(v[6])->Some_0) == Some(
        c.opening_balance_minor as int,
    )
}

pub fn parse_customer_row(values: &Vec<String>, row: usize) -> (r: Result<CustomerImportRow, String>)
    requires
        values.len() == 7,
    ensures
        customer_row_error(texts(values@), row as int) matches Some(m) ==> (r matches Err(e)
            && e@ == m),
        customer_row_error(texts(values@), row as int) is None ==> (r matches Ok(c)
            && customer_row_read(texts(values@), c)),
{
    let ghost v = texts(values@);
    assert(v[0] == values@[0]@ && v[1] == values@[1]@ && v[2] == values@[2]@);
    assert(v[3] == values@[3]@ && v[4] == values@[4]@ && v[5] == values@[5]@);
    assert(v[6] == values@[6]@);
    let kind = match customer_kind_of(trim(values[0].as_str()).as_str()) {
        Some(k) => k,
        None => {
            return Err(row_error(row, "نوع مشتری معتبر نیست"));
        },
    };
    if blank(values[1].as_str()) {
        return Err(row_error(row, "نام خالی است"));
    }
    let amount = match parse_grouped_integer(values[6].as_str()) {
        Some(a) => a,
        None => {
            return Err(row_error(row, "مبلغ مانده معتبر نیست"));
        },
    };
    let balance_kind = trim(values[5].as_str());
    let t = balance_kind.as_str();
    let opening = if same_text(t, "بدهکار") || same_text(t, "debit") {
        amount
    } else if same_text(t, "بستانکار") || same_text(t, "credit") {
        -amount
    } else if same_text(t, "تسویه") || same_text(t, "settled") {
        0
    } else {
        return Err(row_error(row, "نوع مانده معتبر نیست"));
    };
    Ok(
        CustomerImportRow {
            customer: CustomerDraft {
                id: None,
                kind: String::from_str(kind),
                name: trim(values[1].as_str()),
                phone: optional_value(&values[2]),
                email: optional_value(&values[3]),
                address: optional_value(&values[4]),
            },
            opening_balance_minor: opening,
        },
    )
}

/// The data rows `data` give these customers and messages, in order; blank
/// rows are passed over.
pub open spec fn customer_rows_match(
    data: Seq<Seq<Seq<char>>>,
    rows: Seq<CustomerImportRow>,
    errors: Seq<String>,
) -> bool
    decreases data.len(),
{
    if data.len() == 0 {
        rows.len() == 0 && errors.len() == 0
    } else {
        let v = row_values(data.last(), 7);
        if all_blank(v) {
            customer_rows_match(data.drop_last(), rows, errors)
        } else {
            match customer_row_error(v, data.len() + 1int) {
                Some(m) => errors.len() > 0 && errors.last()@ == m && customer_rows_match(
                    data.drop_last(),
                    rows,
                    errors.drop_last(),
                ),
                None => rows.len() > 0 && customer_row_read(v, rows.last()) && customer_rows_match(
                    data.drop_last(),
                    rows.drop_last(),
                    errors,
                ),
            }
        }
    }
}

/// What reading a customer sheet (as a grid of cell texts) gives.
pub open spec fn customer_sheet_outcome(g: Seq<Seq<Seq<char>>>, r: Result<CustomerImportFile, String>) -> bool {
    if g.len() == 0 {
        r matches Err(e) && e@ == "فایل اکسل خالی است"@
    } else if header_mismatch(g[0], customer_headers(), 0) is Some {
        r matches Err(e) && e@ == header_mismatch(g[0], customer_headers(), 0)->Some_0
    } else if nonblank_rows(g.skip(1), 7) == 0 {
        r matches Err(e) && e@ == "هیچ ردیف قابل ورودی در فایل پیدا نشد"@
    } else {
        r matches Ok(f) && customer_rows_match(g.skip(1), f.rows@, f.errors@) && f.rows.len()
            + f.errors.len() == nonblank_rows(g.skip(1), 7)
    }
}

/// Reads a customer sheet: the header row must name the seven columns;
/// every row that is not blank gives a customer or a message.
pub fn read_customer_rows(grid: &Vec<Vec<String>>) -> (r: Result<CustomerImportFile, String>)
    ensures
        customer_sheet_outcome(grid_view(grid@), r),
{
    let ghost g = grid_view(grid@);
    if grid.len() == 0 {
        return Err(String::from_str("فایل اکسل خالی است"));
    }
    assert(g[0] == texts(grid@[0]@));
    check_header(&grid[0], &customer_header_names())?;
    let mut rows: Vec<CustomerImportRow> = Vec::new();
    let mut errors: Vec<String> = Vec::new();
    let mut i: usize = 1;
    assert(g.skip(1).take(0) =~= Seq::<Seq<Seq<char>>>::empty());
    while i < grid.len()
        invariant
            1 <= i <= grid.len(),
            g == grid_view(grid@),
            customer_rows_match(g.skip(1).take(i - 1), rows@, errors@),
            rows.len() + errors.len() == nonblank_rows(g.skip(1).take(i - 1), 7),
        decreases grid.len() - i,
    {
        let ghost data = g.skip(1).take(i as int);
        assert(data.drop_last() =~= g.skip(1).take(i - 1));
        assert(data.last() == g[i as int]);
        assert(g[i as int] == texts(grid@[i as int]@));
        let values = row_values_of(&grid[i], 7);
        if !values_all_blank(&values) {
            match parse_customer_row(&values, i + 1) {
                Ok(customer) => {
                    let ghost before = rows@;
                    rows.push(customer);
                    assert(rows@.drop_last() =~= before);
                },
                Err(message) => {
                    let ghost before = errors@;
                    errors.push(message);
                    assert(errors@.drop_last() =~= before);
                },
            }
        }
        i = i + 1;
    }
    assert(g.skip(1).take(grid.len() - 1) =~= g.skip(1));
    if rows.len() == 0 && errors.len() == 0 {
        return Err(String::from_str("هیچ ردیف قابل ورودی در فایل پیدا نشد"));
    }
    Ok(CustomerImportFile { rows, errors })
}

/// A row of the customer sheets: six text cells and the amount.
pub open spec fn customer_sheet_row(cells: Seq<SheetCell>, values: Seq<Seq<char>>, amount: i64) -> bool {
    &&& cells.len() == 7
    &&& values.len() == 6
    &&& forall|j: int|
        0 <= j < 6 ==> (#[trigger] cells[j] matches SheetCell::Text(t) && t@ == values[j])
    &&& cells[6] == SheetCell::Number(amount)
}

fn customer_cells(values: Vec<String>, amount: i64) -> (r: Vec<SheetCell>)
    requires
        values.len() == 6,
    ensures
        customer_sheet_row(r@, texts(values@), amount),
{
    let mut out: Vec<SheetCell> = Vec::new();
    let mut j: usize = 0;
    while j < 6
        invariant
            j <= 6,
            values.len() == 6,
            out.len() == j,
            forall|k: int|
                0 <= k < j ==> (#[trigger] out@[k] matches SheetCell::Text(t) && t@
                    == values@[k]@),
        decreases 6 - j,
    {
        out.push(SheetCell::Text(values[j].clone()));
        j = j + 1;
    }
    out.push(SheetCell::Number(amount));
    out
}

fn customer_widths() -> (r: Vec<u32>)
    ensures
        r@ == seq![12u32, 28, 18, 28, 35, 14, 20],
{
    let v = vec![12u32, 28, 18, 28, 35, 14, 20];
    assert(v@ =~= seq![12u32, 28, 18, 28, 35, 14, 20]);
    v
}

fn strings_of(values: Vec<&'static str>) -> (r: Vec<String>)
    ensures
        texts(r@) == strs(values@),
{
    header_strings(values)
}

/// The customer template: the header row and two sample customers.
pub fn customer_template_sheet() -> (r: Sheet)
    ensures
        r.name matches Some(n) && n@ == "مشتریان"@,
        texts(r.headers@) == customer_headers(),
        r.rows.len() == 2,
        customer_sheet_row(
            r.rows@[0]@,
            seq![
                "حقیقی"@,
                "علی رضایی"@,
                "09120000000"@,
                "ali@example.com"@,
                "تهران"@,
                "بدهکار"@,
            ],
            2_500_000,
        ),
        customer_sheet_row(
            r.rows@[1]@,
            seq![
                "حقوقی"@,
                "شرکت نمونه"@,
                "02100000000"@,
                "info@example.com"@,
                "تهران"@,
                "بستانکار"@,
            ],
            1_000_000,
        ),
        r.column_widths@ == seq![12u32, 28, 18, 28, 35, 14, 20],
{
    let first = vec!["حقیقی", "علی رضایی", "09120000000", "ali@example.com", "تهران", "بدهکار"];
    let second = vec!["حقوقی", "شرکت نمونه", "02100000000", "info@example.com", "تهران", "بستانکار"];
    let ghost first_view = strs(first@);
    let ghost second_view = strs(second@);
    assert(first_view =~= seq![
        "حقیقی"@,
        "علی رضایی"@,
        "09120000000"@,
        "ali@example.com"@,
        "تهران"@,
        "بدهکار"@,
    ]);
    assert(second_view =~= seq![
        "حقوقی"@,
        "شرکت نمونه"@,
        "02100000000"@,
        "info@example.com"@,
        "تهران"@,
        "بستانکار"@,
    ]);
    let mut rows: Vec<Vec<SheetCell>> = Vec::new();
    rows.push(customer_cells(strings_of(first), 2_500_000));
    rows.push(customer_cells(strings_of(second), 1_000_000));
    Sheet {
        name: Some(String::from_str("مشتریان")),
        headers: header_strings(customer_header_names()),
        rows,
        column_widths: customer_widths(),
    }
}

/// The label a kind of customer is exported under.
pub open spec fn customer_kind_label(kind: Seq<char>) -> Seq<char> {
    if kind == "individual"@ {
        "حقیقی"@
    } else {
        "حقوقی"@
    }
}

/// How a balance is exported: its kind and the amount without sign.
pub open spec fn balance_export(balance: int) -> (Seq<char>, int) {
    if balance > 0 {
        ("بدهکار"@, balance)
    } else if balance < 0 {
        ("بستانکار"@, -balance)
    } else {
        ("تسویه"@, 0)
    }
}

/// An exported customer row: kind label, name, phone, email, address,
/// balance kind and amount.
pub open spec fn customer_export_row(cells: Seq<SheetCell>, rec: CustomerRecord) -> bool {
    customer_sheet_row(
        cells,
        seq![
            customer_kind_label(rec.kind@),
            rec.name@,
            rec.phone@,
            rec.email@,
            rec.address@,
            balance_export(rec.balance_minor as int).0,
        ],
        balance_export(rec.balance_minor as int).1 as i64,
    )
}

/// The customer export: the header row, then a row per record.
pub fn customer_export_sheet(records: &[CustomerRecord]) -> (r: Sheet)
    requires
        forall|i: int| 0 <= i < records.len() ==> #[trigger] records@[i].balance_minor != i64::MIN,
    ensures
        r.name matches Some(n) && n@ == "خروجی مشتریان"@,
        texts(r.headers@) == customer_headers(),
        r.rows.len() == records.len(),
        forall|i: int|
            0 <= i < records.len() ==> customer_export_row(#[trigger] r.rows@[i]@, records@[i]),
        r.column_widths@ == seq![12u32, 28, 18, 28, 35, 14, 20],
{
    let mut rows: Vec<Vec<SheetCell>> = Vec::new();
    let mut i: usize = 0;
    while i < records.len()
        invariant
            i <= records.len(),
            rows.len() == i,
            forall|k: int| 0 <= k < records.len() ==> #[trigger] records@[k].balance_minor != i64::MIN,
            forall|k: int| 0 <= k < i ==> customer_export_row(#[trigger] rows@[k]@, records@[k]),
        decreases records.len() - i,
    {
        let record = &records[i];
        let kind = if same_text(record.kind.as_str(), "individual") {
            "حقیقی"
        } else {
            "حقوقی"
        };
        let balance = record.balance_minor;
        let (balance_kind, amount) = if balance > 0 {
            ("بدهکار", balance)
        } else if balance < 0 {
            ("بستانکار", -balance)
        } else {
            ("تسویه", 0)
        };
        let mut values: Vec<String> = Vec::new();
        values.push(String::from_str(kind));
        values.push(record.name.clone());
        values.push(record.phone.clone());
        values.push(record.email.clone());
        values.push(record.address.clone());
        values.push(String::from_str(balance_kind));
        let ghost expected = seq![
            customer_kind_label(record.kind@),
            record.name@,
            record.phone@,
            record.email@,
            record.address@,
            balance_export(balance as int).0,
        ];
        assert(texts(values@) =~= expected);
        rows.push(customer_cells(values, amount));
        i = i + 1;
    }
    Sheet {
        name: Some(String::from_str("خروجی مشتریان")),
        headers: header_strings(customer_header_names()),
        rows,
        column_widths: customer_widths(),
    }
}

/// A record the customer sheet carries: an individual or a business with a
/// name, whose balance has an opposite in `i64`.
pub open spec fn customer_exportable(rec: CustomerRecord) -> bool {
    &&& (rec.kind@ == "individual"@ || rec.kind@ == "business"@)
    &&& !is_blank(rec.name@)
    &&& rec.balance_minor != i64::MIN
}

/// The customer a record reads back as: its kind and balance, its name
/// trimmed, and each contact detail trimmed unless it is blank.
pub open spec fn customer_read_back(rec: CustomerRecord, c: CustomerImportRow) -> bool {
    &&& c.customer.id is None
    &&& c.customer.kind@ == rec.kind@
    &&& c.customer.name@ == trimmed(rec.name@)
    &&& opt_string_view(c.customer.phone) == optional_text(rec.phone@)
    &&& opt_string_view(c.customer.email) == optional_text(rec.email@)
    &&& opt_string_view(c.customer.address) == optional_text(rec.address@)
    &&& c.opening_balance_minor == rec.balance_minor
}

proof fn lemma_customer_headers_clean()
    ensures
        forall|i: int|
            0 <= i < customer_headers().len() ==> trimmed(#[trigger] customer_headers()[i])
                == customer_headers()[i],
{
    reveal_strlit("نوع");
    reveal_strlit("نام");
    reveal_strlit("تلفن");
    reveal_strlit("ایمیل");
    reveal_strlit("آدرس");
    reveal_strlit("نوع مانده");
    reveal_strlit("مانده (ریال)");
    lemma_trimmed_same("نوع"@);
    lemma_trimmed_same("نام"@);
    lemma_trimmed_same("تلفن"@);
    lemma_trimmed_same("ایمیل"@);
    lemma_trimmed_same("آدرس"@);
    lemma_trimmed_same("نوع مانده"@);
    lemma_trimmed_same("مانده (ریال)"@);
}

proof fn lemma_customer_labels(kind: Seq<char>, balance: int)
    requires
        kind == "individual"@ || kind == "business"@,
        i64::MIN < balance <= i64::MAX,
    ensures
        trimmed(customer_kind_label(kind)) == customer_kind_label(kind),
        !is_blank(customer_kind_label(kind)),
        customer_kind_code(customer_kind_label(kind)) == Some(kind),
        trimmed(balance_export(balance).0) == balance_export(balance).0,
        0 <= balance_export(balance).1 <= i64::MAX,
        opening_balance(balance_export(balance).0, balance_export(balance).1) == Some(balance),
{
    reveal_strlit("individual");
    reveal_strlit("business");
    reveal_strlit("حقیقی");
    reveal_strlit("حقوقی");
    reveal_strlit("بدهکار");
    reveal_strlit("debit");
    reveal_strlit("بستانکار");
    reveal_strlit("credit");
    reveal_strlit("تسویه");
    assert("حقوقی"@[2] != "حقیقی"@[2]);
    assert("حقوقی"@ != "حقیقی"@);
    lemma_trimmed_same(customer_kind_label(kind));
    lemma_trimmed_same(balance_export(balance).0);
}

/// The texts of an exported row of an exportable record read back as that
/// record.
proof fn lemma_customer_row_reads_back(cells: Seq<SheetCell>, rec: CustomerRecord, row: int)
    requires
        customer_export_row(cells, rec),
        customer_exportable(rec),
    ensures
        !is_blank(cell_text(row_shown(cells), 0)),
        !all_blank(row_values(row_shown(cells), 7)),
        customer_row_error(row_values(row_shown(cells), 7), row) is None,
        forall|c: CustomerImportRow|
            customer_row_read(row_values(row_shown(cells), 7), c) ==> #[trigger] customer_read_back(
                rec,
                c,
            ),
{
    let v = row_values(row_shown(cells), 7);
    let values = seq![
        customer_kind_label(rec.kind@),
        rec.name@,
        rec.phone@,
        rec.email@,
        rec.address@,
        balance_export(rec.balance_minor as int).0,
    ];
    let amount = balance_export(rec.balance_minor as int).1;
    assert forall|j: int| 0 <= j < 7 implies #[trigger] v[j] == cell_shown(cells[j]) by {
        assert(cell_text(row_shown(cells), j) == row_shown(cells)[j]);
    }
    assert forall|j: int| 0 <= j < 6 implies #[trigger] v[j] == values[j] by {
        assert(cells[j] matches SheetCell::Text(t) && t@ == values[j]);
    }
    lemma_customer_labels(rec.kind@, rec.balance_minor as int);
    lemma_grouped_integer_reads_decimal(amount as nat);
    assert(v[6] == decimal(amount as nat));
    assert(grouped_integer(v[6]) == Some(amount));
    assert(cell_text(row_shown(cells), 0) == v[0]);
    assert(v[0] == customer_kind_label(rec.kind@));
    assert(v[5] == balance_export(rec.balance_minor as int).0);
}

proof fn lemma_customer_rows_read_back(
    cells: Seq<Seq<SheetCell>>,
    records: Seq<CustomerRecord>,
    rows: Seq<CustomerImportRow>,
    errors: Seq<String>,
)
    requires
        cells.len() == records.len(),
        forall|i: int| 0 <= i < records.len() ==> customer_export_row(#[trigger] cells[i], records[i]),
        forall|i: int| 0 <= i < records.len() ==> #[trigger] customer_exportable(records[i]),
        customer_rows_match(cells.map_values(|r: Seq<SheetCell>| row_shown(r)), rows, errors),
    ensures
        errors.len() == 0,
        rows.len() == records.len(),
        forall|i: int| 0 <= i < records.len() ==> customer_read_back(records[i], #[trigger] rows[i]),
    decreases cells.len(),
{
    let data = cells.map_values(|r: Seq<SheetCell>| row_shown(r));
    if cells.len() > 0 {
        let n = cells.len() - 1;
        assert(customer_export_row(cells[n], records[n]));
        assert(customer_exportable(records[n]));
        lemma_customer_row_reads_back(cells[n], records[n], data.len() + 1int);
        assert(data.last() == row_shown(cells[n]));
        assert(data.drop_last() =~= cells.drop_last().map_values(|r: Seq<SheetCell>| row_shown(r)));
        let rest = cells.drop_last();
        let earlier = records.drop_last();
        assert forall|i: int| 0 <= i < earlier.len() implies customer_export_row(
            #[trigger] rest[i],
            earlier[i],
        ) by {
            assert(customer_export_row(cells[i], records[i]));
        }
        assert forall|i: int| 0 <= i < earlier.len() implies #[trigger] customer_exportable(
            earlier[i],
        ) by {
            assert(customer_exportable(records[i]));
        }
        lemma_customer_rows_read_back(rest, earlier, rows.drop_last(), errors);
        assert forall|i: int| 0 <= i < records.len() implies customer_read_back(
            records[i],
            #[trigger] rows[i],
        ) by {
            if i < n {
                assert(rows[i] == rows.drop_last()[i]);
                assert(records[i] == earlier[i]);
            }
        }
    }
}

/// An exported customer list read back from the texts its cells show: with
/// no records it is refused as holding no rows; otherwise every record reads
/// back as a customer with the balance it had, in order, and no row is
/// refused.
pub proof fn customer_export_reads_back(
    records: Seq<CustomerRecord>,
    sheet: Sheet,
    read: Result<CustomerImportFile, String>,
)
    requires
        forall|i: int| 0 <= i < records.len() ==> #[trigger] customer_exportable(records[i]),
        texts(sheet.headers@) == customer_headers(),
        sheet.rows.len() == records.len(),
        forall|i: int|
            0 <= i < records.len() ==> customer_export_row(#[trigger] sheet.rows@[i]@, records[i]),
        customer_sheet_outcome(sheet_shown(sheet), read),
    ensures
        records.len() == 0 ==> (read matches Err(e) && e@ == "هیچ ردیف قابل ورودی در فایل پیدا نشد"@),
        records.len() > 0 ==> (read matches Ok(f) && f.errors.len() == 0 && f.rows.len()
            == records.len() && forall|i: int|
            0 <= i < records.len() ==> customer_read_back(records[i], #[trigger] f.rows@[i])),
{
    let g = sheet_shown(sheet);
    let cells = sheet_cells(sheet);
    lemma_sheet_shown(sheet);
    lemma_customer_headers_clean();
    lemma_header_reads(customer_headers(), 0);
    assert forall|i: int| 0 <= i < records.len() implies customer_export_row(
        #[trigger] cells[i],
        records[i],
    ) by {
        assert(cells[i] == sheet.rows@[i]@);
    }
    let data = g.skip(1);
    assert forall|i: int| 0 <= i < data.len() implies !is_blank(#[trigger] cell_text(data[i], 0)) by {
        assert(data[i] == row_shown(cells[i]));
        lemma_customer_row_reads_back(cells[i], records[i], 0);
    }
    lemma_rows_counted(data, 7);
    if records.len() > 0 {
        let f = read->Ok_0;
        lemma_customer_rows_read_back(cells, records, f.rows@, f.errors@);
    }
}


/// A customer as a sample row shows it: no id yet, the kind, the name,
/// phone, email and address as written, and the balance it starts with.
pub open spec fn customer_shown_as(
    c: CustomerImportRow,
    kind: Seq<char>,
    contact: Seq<Seq<char>>,
    balance: int,
) -> bool {
    &&& c.customer.id is None
    &&& c.customer.kind@ == kind
    &&& c.customer.name@ == contact[0]
    &&& opt_string_view(c.customer.phone) == Some(contact[1])
    &&& opt_string_view(c.customer.email) == Some(contact[2])
    &&& opt_string_view(c.customer.address) == Some(contact[3])
    &&& c.opening_balance_minor == balance
}

/// A row written as the customer sheets write a customer, with a name and
/// contact details that are not blank and have no whitespace around them,
/// reads as that customer, with no message.
proof fn lemma_customer_sample_read(
    cells: Seq<SheetCell>,
    kind: Seq<char>,
    contact: Seq<Seq<char>>,
    balance: int,
    row: int,
)
    requires
        kind == "individual"@ || kind == "business"@,
        i64::MIN < balance <= i64::MAX,
        contact.len() == 4,
        forall|j: int|
            0 <= j < 4 ==> trimmed(#[trigger] contact[j]) == contact[j] && !is_blank(contact[j]),
        customer_sheet_row(
            cells,
            seq![
                customer_kind_label(kind),
                contact[0],
                contact[1],
                contact[2],
                contact[3],
                balance_export(balance).0,
            ],
            balance_export(balance).1 as i64,
        ),
    ensures
        !is_blank(cell_text(row_shown(cells), 0)),
        !all_blank(row_values(row_shown(cells), 7)),
        customer_row_error(row_values(row_shown(cells), 7), row) is None,
        forall|c: CustomerImportRow|
            customer_row_read(row_values(row_shown(cells), 7), c) ==> #[trigger] customer_shown_as(
                c,
                kind,
                contact,
                balance,
            ),
{
    let v = row_values(row_shown(cells), 7);
    let values = seq![
        customer_kind_label(kind),
        contact[0],
        contact[1],
        contact[2],
        contact[3],
        balance_export(balance).0,
    ];
    let amount = balance_export(balance).1;
    assert forall|j: int| 0 <= j < 7 implies #[trigger] v[j] == cell_shown(cells[j]) by {
        assert(cell_text(row_shown(cells), j) == row_shown(cells)[j]);
    }
    assert forall|j: int| 0 <= j < 6 implies #[trigger] v[j] == values[j] by {
        assert(cells[j] matches SheetCell::Text(t) && t@ == values[j]);
    }
    lemma_customer_labels(kind, balance);
    lemma_grouped_integer_reads_decimal(amount as nat);
    assert(v[6] == decimal(amount as nat));
    assert(grouped_integer(v[6]) == Some(amount));
    assert(cell_text(row_shown(cells), 0) == v[0]);
    assert(v[0] == customer_kind_label(kind));
    assert(v[5] == balance_export(balance).0);
    assert(trimmed(contact[0]) == contact[0] && !is_blank(contact[0]));
    assert(trimmed(contact[1]) == contact[1] && !is_blank(contact[1]));
    assert(trimmed(contact[2]) == contact[2] && !is_blank(contact[2]));
    assert(trimmed(contact[3]) == contact[3] && !is_blank(contact[3]));
}

/// The customer template reads back: its two sample customers are accepted,
/// with no message, as written; the first, a person, owes 2,500,000 and the
/// second, a business, is owed 1,000,000.
pub proof fn customer_template_reads_back(sheet: Sheet, read: Result<CustomerImportFile, String>)
    requires
        texts(sheet.headers@) == customer_headers(),
        sheet.rows.len() == 2,
        customer_sheet_row(
            sheet.rows@[0]@,
            seq![
                "حقیقی"@,
                "علی رضایی"@,
                "09120000000"@,
                "ali@example.com"@,
                "تهران"@,
                "بدهکار"@,
            ],
            2_500_000,
        ),
        customer_sheet_row(
            sheet.rows@[1]@,
            seq![
                "حقوقی"@,
                "شرکت نمونه"@,
                "02100000000"@,
                "info@example.com"@,
                "تهران"@,
                "بستانکار"@,
            ],
            1_000_000,
        ),
        customer_sheet_outcome(sheet_shown(sheet), read),
    ensures
        read matches Ok(f) && f.errors.len() == 0 && f.rows.len() == 2 && customer_shown_as(
            f.rows@[0],
            "individual"@,
            seq!["علی رضایی"@, "09120000000"@, "ali@example.com"@, "تهران"@],
            2_500_000,
        ) && customer_shown_as(
            f.rows@[1],
            "business"@,
            seq!["شرکت نمونه"@, "02100000000"@, "info@example.com"@, "تهران"@],
            -1_000_000,
        ),
{
    let g = sheet_shown(sheet);
    let cells = sheet_cells(sheet);
    lemma_sheet_shown(sheet);
    lemma_customer_headers_clean();
    lemma_header_reads(customer_headers(), 0);
    reveal_strlit("individual");
    reveal_strlit("business");
    reveal_strlit("علی رضایی");
    reveal_strlit("09120000000");
    reveal_strlit("ali@example.com");
    reveal_strlit("تهران");
    reveal_strlit("شرکت نمونه");
    reveal_strlit("02100000000");
    reveal_strlit("info@example.com");
    lemma_trimmed_same("علی رضایی"@);
    lemma_trimmed_same("09120000000"@);
    lemma_trimmed_same("ali@example.com"@);
    lemma_trimmed_same("تهران"@);
    lemma_trimmed_same("شرکت نمونه"@);
    lemma_trimmed_same("02100000000"@);
    lemma_trimmed_same("info@example.com"@);
    let first = seq!["علی رضایی"@, "09120000000"@, "ali@example.com"@, "تهران"@];
    let second = seq!["شرکت نمونه"@, "02100000000"@, "info@example.com"@, "تهران"@];
    assert("business"@[0] != "individual"@[0]);
    assert(customer_kind_label("business"@) == "حقوقی"@);
    assert(balance_export(-1_000_000) == ("بستانکار"@, 1_000_000int));
    assert(cells[0] == sheet.rows@[0]@);
    assert(cells[1] == sheet.rows@[1]@);
    assert(seq![
        customer_kind_label("individual"@),
        first[0],
        first[1],
        first[2],
        first[3],
        balance_export(2_500_000).0,
    ] =~= seq![
        "حقیقی"@,
        "علی رضایی"@,
        "09120000000"@,
        "ali@example.com"@,
        "تهران"@,
        "بدهکار"@,
    ]);
    assert(seq![
        customer_kind_label("business"@),
        second[0],
        second[1],
        second[2],
        second[3],
        balance_export(-1_000_000).0,
    ] =~= seq![
        "حقوقی"@,
        "شرکت نمونه"@,
        "02100000000"@,
        "info@example.com"@,
        "تهران"@,
        "بستانکار"@,
    ]);
    lemma_customer_sample_read(cells[0], "individual"@, first, 2_500_000, 2);
    lemma_customer_sample_read(cells[1], "business"@, second, -1_000_000, 3);
    let data = g.skip(1);
    assert(data[0] == row_shown(cells[0]));
    assert(data[1] == row_shown(cells[1]));
    assert forall|i: int| 0 <= i < data.len() implies !is_blank(#[trigger] cell_text(data[i], 0)) by {
        assert(i == 0 || i == 1);
    }
    lemma_rows_counted(data, 7);
    let f = read->Ok_0;
    assert(data.drop_last().len() == 1);
    assert(data.drop_last().last() == data[0]);
    assert(data.drop_last().drop_last().len() == 0);
    reveal_with_fuel(customer_rows_match, 3);
    assert(customer_row_read(row_values(row_shown(cells[1]), 7), f.rows@.last()));
    assert(customer_row_read(row_values(row_shown(cells[0]), 7), f.rows@.drop_last().last()));
    assert(f.rows@[0] == f.rows@.drop_last().last());
}


/// The balance kinds read from a sheet: a debit (`بدهکار`, `debit`) is the
/// amount the customer owes, a credit (`بستانکار`, `credit`) the same
/// amount owed back to them, so of the opposite sign, and a settled balance
/// (`تسویه`, `settled`) is zero, whatever the amount; the Persian and
/// English names of a kind read alike.
pub proof fn balance_kinds_read(amount: int)
    ensures
        opening_balance("بدهکار"@, amount) == Some(amount),
        opening_balance("debit"@, amount) == Some(amount),
        opening_balance("بستانکار"@, amount) == Some(-amount),
        opening_balance("credit"@, amount) == Some(-amount),
        opening_balance("تسویه"@, amount) == Some(0int),
        opening_balance("settled"@, amount) == Some(0int),
        amount != 0 ==> opening_balance("credit"@, amount) != opening_balance("debit"@, amount),
{
    reveal_strlit("بدهکار");
    reveal_strlit("debit");
    reveal_strlit("بستانکار");
    reveal_strlit("credit");
    reveal_strlit("تسویه");
    reveal_strlit("settled");
    assert("بستانکار"@[0] != "بدهکار"@[0] || "بستانکار"@[1] != "بدهکار"@[1]);
    assert("credit"@[0] != "debit"@[0]);
    assert("تسویه"@[0] != "بدهکار"@[0]);
    assert("تسویه"@[0] != "بستانکار"@[0]);
    assert("settled"@[0] != "debit"@[0]);
    assert("settled"@[0] != "credit"@[0]);
}

/// An accepted customer row starts with the balance its kind and amount
/// give: the amount when it is a debit, its opposite when it is a credit,
/// zero when it is settled.
pub proof fn customer_row_balance_sign(v: Seq<Seq<char>>, c: CustomerImportRow)
    requires
        v.len() == 7,
        customer_row_error(v, 0) is None,
        customer_row_read(v, c),
    ensures
        grouped_integer(v[6]) matches Some(amount) && (
            (trimmed(v[5]) == "بدهکار"@ || trimmed(v[5]) == "debit"@) ==> c.opening_balance_minor == amount)
            && ((trimmed(v[5]) == "بستانکار"@ || trimmed(v[5]) == "credit"@) ==> c.opening_balance_minor
            == -amount) && ((trimmed(v[5]) == "تسویه"@ || trimmed(v[5]) == "settled"@)
            ==> c.opening_balance_minor == 0),
{
    balance_kinds_read(grouped_integer(v[6])->Some_0);
}

} // verus!
