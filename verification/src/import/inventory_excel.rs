//! Stock receipts in spreadsheets: warehouse, product code, quantity, unit
//! cost and a reference.

use vstd::prelude::*;

use super::sheet::{
    all_blank, cell_shown, cell_text, check_header, grid_view, header_mismatch, header_strings,
    lemma_header_reads, lemma_sheet_shown, nonblank_rows, optional_value, row_shown, row_values,
    row_values_of, sheet_cells, sheet_shown, strs, text_cells, text_row, texts, values_all_blank,
    Sheet, SheetCell,
};
use crate::database::{InventoryImportRow, StockRecord};
use crate::text::{
    blank, decimal, decimal_thousandths, grouped_integer, is_blank,
    lemma_grouped_integer_reads_decimal, lemma_thousandths_text_reads_back, lemma_trimmed_same,
    opt_string_view, optional_text, parse_grouped_integer, parse_thousandths, push_decimal,
    thousandths_text, trim, trimmed,
};

verus! {

broadcast use vstd::string::group_string_axioms;

/// The receipts read from a stock sheet, and a message for each row refused.
#[derive(Debug, Clone, PartialEq, Eq)]
pub struct InventoryImportFile {
    pub rows: Vec<InventoryImportRow>,
    pub errors: Vec<String>,
}

pub open spec fn inventory_headers() -> Seq<Seq<char>> {
    seq!["انبار"@, "کد کالا"@, "مقدار"@, "بهای خرید واحد (ریال)"@, "مرجع"@]
}

pub fn inventory_header_names() -> (r: Vec<&'static str>)
    ensures
        strs(r@) == inventory_headers(),
        r.len() == 5,
{
    let v = vec!["انبار", "کد کالا", "مقدار", "بهای خرید واحد (ریال)", "مرجع"];
    assert(strs(v@) =~= inventory_headers());
    v
}

/// A stock row is accepted when the quantity (in thousandths) and the unit
/// cost read as numbers, the warehouse and code are given, and the quantity
/// is positive.
pub open spec fn inventory_row_ok(v: Seq<Seq<char>>) -> bool {
    &&& decimal_thousandths(v[2]) is Some
    &&& grouped_integer(v[3]) is Some
    &&& !is_blank(v[0])
    &&& !is_blank(v[1])
    &&& decimal_thousandths(v[2])->Some_0 > 0
}

/// The receipt read from the five cells of an accepted row.
pub open spec fn inventory_row_read(v: Seq<Seq<char>>, r: InventoryImportRow) -> bool {
    &&& r.warehouse@ == trimmed(v[0])
    &&& r.sku@ == trimmed(v[1])
    &&& decimal_thousandths(v[2]) == Some(r.quantity_milliunits as int)
    &&& grouped_integer(v[3]) == Some(r.unit_cost_minor as int)
    &&& opt_string_view(r.reference) == optional_text(v[4])
}

pub fn parse_inventory_row(values: &Vec<String>) -> (r: Option<InventoryImportRow>)
    requires
        values.len() == 5,
    ensures
        inventory_row_ok(texts(values@)) ==> (r matches Some(row) && inventory_row_read(
            texts(values@),
            row,
        )),
        !inventory_row_ok(texts(values@)) ==> r is None,
{
    let ghost v = texts(values@);
    assert(v[0] == values@[0]@ && v[1] == values@[1]@ && v[2] == values@[2]@);
    assert(v[3] == values@[3]@ && v[4] == values@[4]@);
    let quantity = parse_thousandths(values[2].as_str())?;
    let cost = parse_grouped_integer(values[3].as_str())?;
    if blank(values[0].as_str()) || blank(values[1].as_str()) || quantity <= 0 {
        return None;
    }
    Some(
        InventoryImportRow {
            warehouse: trim(values[0].as_str()),
            sku: trim(values[1].as_str()),
            quantity_milliunits: quantity,
            unit_cost_minor: cost,
            reference: optional_value(&values[4]),
        },
    )
}

/// The message for a refused stock row.
pub open spec fn invalid_row_message(row: int) -> Seq<char> {
    "ردیف "@ + decimal(row as nat) + " نامعتبر است"@
}

fn invalid_row_error(row: usize) -> (r: String)
    ensures
        r@ == invalid_row_message(row as int),
{
    let mut out = String::from_str("ردیف ");
    push_decimal(&mut out, row as u64);
    out.append(" نامعتبر است");
    out
}

/// The data rows `data` give these receipts and messages, in order; blank
/// rows are passed over.
pub open spec fn inventory_rows_match(
    data: Seq<Seq<Seq<char>>>,
    rows: Seq<InventoryImportRow>,
    errors: Seq<String>,
) -> bool
    decreases data.len(),
{
    if data.len() == 0 {
        rows.len() == 0 && errors.len() == 0
    } else {
        let v = row_values(data.last(), 5);
        if all_blank(v) {
            inventory_rows_match(data.drop_last(), rows, errors)
        } else if inventory_row_ok(v) {
            rows.len() > 0 && inventory_row_read(v, rows.last()) && inventory_rows_match(
                data.drop_last(),
                rows.drop_last(),
                errors,
            )
        } else {
            errors.len() > 0 && errors.last()@ == invalid_row_message(data.len() + 1int)
                && inventory_rows_match(data.drop_last(), rows, errors.drop_last())
        }
    }
}

/// What reading a stock sheet (as a grid of cell texts) gives.
pub open spec fn inventory_sheet_outcome(g: Seq<Seq<Seq<char>>>, r: Result<InventoryImportFile, String>) -> bool {
    if g.len() == 0 {
        r matches Err(e) && e@ == "فایل اکسل خالی است"@
    } else if header_mismatch(g[0], inventory_headers(), 0) is Some {
        r matches Err(e) && e@ == header_mismatch(g[0], inventory_headers(), 0)->Some_0
    } else {
        r matches Ok(f) && inventory_rows_match(g.skip(1), f.rows@, f.errors@) && f.rows.len()
            + f.errors.len() == nonblank_rows(g.skip(1), 5)
    }
}

/// Reads a stock sheet: the header row must name the five columns; every
/// row that is not blank gives a receipt or a message.
pub fn read_inventory_rows(grid: &Vec<Vec<String>>) -> (r: Result<InventoryImportFile, String>)
    ensures
        inventory_sheet_outcome(grid_view(grid@), r),
{
    let ghost g = grid_view(grid@);
    if grid.len() == 0 {
        return Err(String::from_str("فایل اکسل خالی است"));
    }
    assert(g[0] == texts(grid@[0]@));
    check_header(&grid[0], &inventory_header_names())?;
    let mut rows: Vec<InventoryImportRow> = Vec::new();
    let mut errors: Vec<String> = Vec::new();
    let mut i: usize = 1;
    assert(g.skip(1).take(0) =~= Seq::<Seq<Seq<char>>>::empty());
    while i < grid.len()
        invariant
            1 <= i <= grid.len(),
            g == grid_view(grid@),
            inventory_rows_match(g.skip(1).take(i - 1), rows@, errors@),
            rows.len() + errors.len() == nonblank_rows(g.skip(1).take(i - 1), 5),
        decreases grid.len() - i,
    {
        let ghost data = g.skip(1).take(i as int);
        assert(data.drop_last() =~= g.skip(1).take(i - 1));
        assert(data.last() == g[i as int]);
        assert(g[i as int] == texts(grid@[i as int]@));
        let values = row_values_of(&grid[i], 5);
        if !values_all_blank(&values) {
            match parse_inventory_row(&values) {
                Some(receipt) => {
                    let ghost before = rows@;
                    rows.push(receipt);
                    assert(rows@.drop_last() =~= before);
                },
                None => {
                    let ghost before = errors@;
                    errors.push(invalid_row_error(i + 1));
                    assert(errors@.drop_last() =~= before);
                },
            }
        }
        i = i + 1;
    }
    assert(g.skip(1).take(grid.len() - 1) =~= g.skip(1));
    Ok(InventoryImportFile { rows, errors })
}

pub open spec fn inventory_samples() -> Seq<Seq<Seq<char>>> {
    seq![
        seq!["انبار مرکزی"@, "COF-ARABICA-1KG"@, "100"@, "40000000"@, "خرید مرداد"@],
        seq!["انبار مرکزی"@, "DRK-ESPRESSO"@, "50"@, "1200000"@, "فاکتور ۱۰۰۲"@],
    ]
}

fn inventory_widths() -> (r: Vec<u32>)
    ensures
        r@ == seq![20u32, 24, 14, 24, 24],
{
    let v = vec![20u32, 24, 14, 24, 24];
    assert(v@ =~= seq![20u32, 24, 14, 24, 24]);
    v
}

/// The stock template: the header row and two sample receipts, all text.
pub fn inventory_template_sheet() -> (r: Sheet)
    ensures
        r.name matches Some(n) && n@ == "ورود موجودی"@,
        texts(r.headers@) == inventory_headers(),
        r.rows.len() == 2,
        forall|i: int| 0 <= i < 2 ==> text_row(#[trigger] r.rows@[i]@, inventory_samples()[i]),
        r.column_widths@ == seq![20u32, 24, 14, 24, 24],
{
    let first = vec!["انبار مرکزی", "COF-ARABICA-1KG", "100", "40000000", "خرید مرداد"];
    let second = vec!["انبار مرکزی", "DRK-ESPRESSO", "50", "1200000", "فاکتور ۱۰۰۲"];
    assert(strs(first@) =~= inventory_samples()[0]);
    assert(strs(second@) =~= inventory_samples()[1]);
    let mut rows: Vec<Vec<SheetCell>> = Vec::new();
    rows.push(text_cells(first));
    rows.push(text_cells(second));
    Sheet {
        name: Some(String::from_str("ورود موجودی")),
        headers: header_strings(inventory_header_names()),
        rows,
        column_widths: inventory_widths(),
    }
}

/// An exported stock row: warehouse, code, quantity (as the decimal its
/// thousandths stand for), unit cost and the export's reference.
pub open spec fn inventory_export_row(cells: Seq<SheetCell>, rec: StockRecord) -> bool {
    &&& cells.len() == 5
    &&& cells[0] matches SheetCell::Text(t) && t@ == rec.warehouse_name@
    &&& cells[1] matches SheetCell::Text(t) && t@ == rec.sku@
    &&& cells[2] == SheetCell::Thousandths(rec.quantity_milliunits)
    &&& cells[3] == SheetCell::Number(rec.unit_cost_minor)
    &&& cells[4] matches SheetCell::Text(t) && t@ == "خروجی BizTrace"@
}

/// The stock export: the header row, then a row per cost layer, in the
/// template's layout so that it can be imported again.
pub fn inventory_export_sheet(records: &[StockRecord]) -> (r: Sheet)
    ensures
        r.name matches Some(n) && n@ == "ورود موجودی"@,
        texts(r.headers@) == inventory_headers(),
        r.rows.len() == records.len(),
        forall|i: int|
            0 <= i < records.len() ==> inventory_export_row(#[trigger] r.rows@[i]@, records@[i]),
        r.column_widths@ == seq![20u32, 24, 14, 24, 24],
{
    let mut rows: Vec<Vec<SheetCell>> = Vec::new();
    let mut i: usize = 0;
    while i < records.len()
        invariant
            i <= records.len(),
            rows.len() == i,
            forall|k: int| 0 <= k < i ==> inventory_export_row(#[trigger] rows@[k]@, records@[k]),
        decreases records.len() - i,
    {
        let record = &records[i];
        let mut cells: Vec<SheetCell> = Vec::new();
        cells.push(SheetCell::Text(record.warehouse_name.clone()));
        cells.push(SheetCell::Text(record.sku.clone()));
        cells.push(SheetCell::Thousandths(record.quantity_milliunits));
        cells.push(SheetCell::Number(record.unit_cost_minor));
        cells.push(SheetCell::Text(String::from_str("خروجی BizTrace")));
        rows.push(cells);
        i = i + 1;
    }
    Sheet {
        name: Some(String::from_str("ورود موجودی")),
        headers: header_strings(inventory_header_names()),
        rows,
        column_widths: inventory_widths(),
    }
}

/// A cost layer the stock sheet carries: in a named warehouse, of a product
/// with a code, holding stock at a unit cost that is not negative.
pub open spec fn stock_exportable(rec: StockRecord) -> bool {
    &&& !is_blank(rec.warehouse_name@)
    &&& !is_blank(rec.sku@)
    &&& rec.quantity_milliunits > 0
    &&& rec.unit_cost_minor >= 0
}

/// The receipt a cost layer reads back as: its warehouse and code trimmed,
/// its quantity and unit cost, and the export's reference.
pub open spec fn stock_read_back(rec: StockRecord, r: InventoryImportRow) -> bool {
    &&& r.warehouse@ == trimmed(rec.warehouse_name@)
    &&& r.sku@ == trimmed(rec.sku@)
    &&& r.quantity_milliunits == rec.quantity_milliunits
    &&& r.unit_cost_minor == rec.unit_cost_minor
    &&& opt_string_view(r.reference) == Some("خروجی BizTrace"@)
}

proof fn lemma_inventory_headers_clean()
    ensures
        forall|i: int|
            0 <= i < inventory_headers().len() ==> trimmed(#[trigger] inventory_headers()[i])
                == inventory_headers()[i],
{
    reveal_strlit("انبار");
    reveal_strlit("کد کالا");
    reveal_strlit("مقدار");
    reveal_strlit("بهای خرید واحد (ریال)");
    reveal_strlit("مرجع");
    lemma_trimmed_same("انبار"@);
    lemma_trimmed_same("کد کالا"@);
    lemma_trimmed_same("مقدار"@);
    lemma_trimmed_same("بهای خرید واحد (ریال)"@);
    lemma_trimmed_same("مرجع"@);
}

/// The texts of an exported row of an exportable layer read back as that
/// layer.
proof fn lemma_stock_row_reads_back(cells: Seq<SheetCell>, rec: StockRecord)
    requires
        inventory_export_row(cells, rec),
        stock_exportable(rec),
    ensures
        !is_blank(cell_text(row_shown(cells), 0)),
        !all_blank(row_values(row_shown(cells), 5)),
        inventory_row_ok(row_values(row_shown(cells), 5)),
        forall|r: InventoryImportRow|
            inventory_row_read(row_values(row_shown(cells), 5), r) ==> #[trigger] stock_read_back(
                rec,
                r,
            ),
{
    let v = row_values(row_shown(cells), 5);
    assert forall|j: int| 0 <= j < 5 implies #[trigger] v[j] == cell_shown(cells[j]) by {
        assert(cell_text(row_shown(cells), j) == row_shown(cells)[j]);
    }
    reveal_strlit("خروجی BizTrace");
    lemma_trimmed_same("خروجی BizTrace"@);
    lemma_thousandths_text_reads_back(rec.quantity_milliunits as int);
    lemma_grouped_integer_reads_decimal(rec.unit_cost_minor as nat);
    assert(v[2] == thousandths_text(rec.quantity_milliunits as int));
    assert(v[3] == decimal(rec.unit_cost_minor as nat));
    assert(v[4] == "خروجی BizTrace"@);
    assert(cell_text(row_shown(cells), 0) == v[0]);
}

proof fn lemma_stock_rows_read_back(
    cells: Seq<Seq<SheetCell>>,
    records: Seq<StockRecord>,
    rows: Seq<InventoryImportRow>,
    errors: Seq<String>,
)
    requires
        cells.len() == records.len(),
        forall|i: int| 0 <= i < records.len() ==> inventory_export_row(#[trigger] cells[i], records[i]),
        forall|i: int| 0 <= i < records.len() ==> #[trigger] stock_exportable(records[i]),
        inventory_rows_match(cells.map_values(|r: Seq<SheetCell>| row_shown(r)), rows, errors),
    ensures
        errors.len() == 0,
        rows.len() == records.len(),
        forall|i: int| 0 <= i < records.len() ==> stock_read_back(records[i], #[trigger] rows[i]),
    decreases cells.len(),
{
    let data = cells.map_values(|r: Seq<SheetCell>| row_shown(r));
    if cells.len() > 0 {
        let n = cells.len() - 1;
        assert(inventory_export_row(cells[n], records[n]));
        assert(stock_exportable(records[n]));
        lemma_stock_row_reads_back(cells[n], records[n]);
        assert(data.last() == row_shown(cells[n]));
        assert(data.drop_last() =~= cells.drop_last().map_values(|r: Seq<SheetCell>| row_shown(r)));
        let rest = cells.drop_last();
        let earlier = records.drop_last();
        assert forall|i: int| 0 <= i < earlier.len() implies inventory_export_row(
            #[trigger] rest[i],
            earlier[i],
        ) by {
            assert(inventory_export_row(cells[i], records[i]));
        }
        assert forall|i: int| 0 <= i < earlier.len() implies #[trigger] stock_exportable(
            earlier[i],
        ) by {
            assert(stock_exportable(records[i]));
        }
        lemma_stock_rows_read_back(rest, earlier, rows.drop_last(), errors);
        assert forall|i: int| 0 <= i < records.len() implies stock_read_back(
            records[i],
            #[trigger] rows[i],
        ) by {
            if i < n {
                assert(rows[i] == rows.drop_last()[i]);
                assert(records[i] == earlier[i]);
            }
        }
    }
}

/// An exported stock list read back from the texts its cells show: every
/// cost layer reads back as a receipt of its quantity at its unit cost, in
/// order, and no row is refused.
pub proof fn stock_export_reads_back(
    records: Seq<StockRecord>,
    sheet: Sheet,
    read: Result<InventoryImportFile, String>,
)
    requires
        forall|i: int| 0 <= i < records.len() ==> #[trigger] stock_exportable(records[i]),
        texts(sheet.headers@) == inventory_headers(),
        sheet.rows.len() == records.len(),
        forall|i: int|
            0 <= i < records.len() ==> inventory_export_row(#[trigger] sheet.rows@[i]@, records[i]),
        inventory_sheet_outcome(sheet_shown(sheet), read),
    ensures
        read matches Ok(f) && f.errors.len() == 0 && f.rows.len() == records.len() && forall|
            i: int,
        |
            0 <= i < records.len() ==> stock_read_back(records[i], #[trigger] f.rows@[i]),
{
    let g = sheet_shown(sheet);
    let cells = sheet_cells(sheet);
    lemma_sheet_shown(sheet);
    lemma_inventory_headers_clean();
    lemma_header_reads(inventory_headers(), 0);
    assert forall|i: int| 0 <= i < records.len() implies inventory_export_row(
        #[trigger] cells[i],
        records[i],
    ) by {
        assert(cells[i] == sheet.rows@[i]@);
    }
    let f = read->Ok_0;
    lemma_stock_rows_read_back(cells, records, f.rows@, f.errors@);
}


/// The receipt a sample row of the stock template stands for: its
/// warehouse, code and reference as written, 100 (resp. 50) units, and the
/// unit cost written.
pub open spec fn inventory_sample_receipt(r: InventoryImportRow, k: int) -> bool {
    let s = inventory_samples()[k];
    &&& r.warehouse@ == s[0]
    &&& r.sku@ == s[1]
    &&& r.quantity_milliunits == (if k == 0 {
        100_000int
    } else {
        50_000int
    })
    &&& r.unit_cost_minor == (if k == 0 {
        40_000_000int
    } else {
        1_200_000int
    })
    &&& opt_string_view(r.reference) == Some(s[4])
}

/// Each sample row of the stock template is accepted as the receipt it
/// stands for.
proof fn lemma_inventory_sample_read(cells: Seq<SheetCell>, k: int)
    requires
        0 <= k < 2,
        text_row(cells, inventory_samples()[k]),
    ensures
        !is_blank(cell_text(row_shown(cells), 0)),
        !all_blank(row_values(row_shown(cells), 5)),
        inventory_row_ok(row_values(row_shown(cells), 5)),
        forall|r: InventoryImportRow|
            inventory_row_read(row_values(row_shown(cells), 5), r)
                ==> #[trigger] inventory_sample_receipt(r, k),
{
    let v = row_values(row_shown(cells), 5);
    let s = inventory_samples()[k];
    assert forall|j: int| 0 <= j < 5 implies #[trigger] v[j] == s[j] by {
        assert(cell_text(row_shown(cells), j) == row_shown(cells)[j]);
        assert(cells[j] matches SheetCell::Text(t) && t@ == s[j]);
    }
    reveal_strlit("انبار مرکزی");
    reveal_strlit("COF-ARABICA-1KG");
    reveal_strlit("DRK-ESPRESSO");
    reveal_strlit("100");
    reveal_strlit("50");
    reveal_strlit("40000000");
    reveal_strlit("1200000");
    reveal_strlit("خرید مرداد");
    reveal_strlit("فاکتور ۱۰۰۲");
    reveal_with_fuel(crate::text::normalized_number, 9);
    reveal_with_fuel(crate::text::digits_value, 9);
    reveal_with_fuel(crate::text::first_index_of, 4);
    lemma_trimmed_same(s[0]);
    lemma_trimmed_same(s[1]);
    lemma_trimmed_same(s[4]);
    assert(cell_text(row_shown(cells), 0) == v[0]);
    if k == 0 {
        assert(decimal_thousandths(v[2]) == Some(100_000int));
        assert(grouped_integer(v[3]) == Some(40_000_000int));
    } else {
        assert(decimal_thousandths(v[2]) == Some(50_000int));
        assert(grouped_integer(v[3]) == Some(1_200_000int));
    }
}

/// The stock template reads back: its two sample receipts are accepted,
/// with no message, as written: 100 units of the coffee beans at
/// 40,000,000 and 50 of the espresso at 1,200,000, both into the central
/// warehouse.
pub proof fn inventory_template_reads_back(sheet: Sheet, read: Result<InventoryImportFile, String>)
    requires
        texts(sheet.headers@) == inventory_headers(),
        sheet.rows.len() == 2,
        forall|i: int| 0 <= i < 2 ==> text_row(#[trigger] sheet.rows@[i]@, inventory_samples()[i]),
        inventory_sheet_outcome(sheet_shown(sheet), read),
    ensures
        read matches Ok(f) && f.errors.len() == 0 && f.rows.len() == 2 && inventory_sample_receipt(
            f.rows@[0],
            0,
        ) && inventory_sample_receipt(f.rows@[1], 1),
{
    let g = sheet_shown(sheet);
    let cells = sheet_cells(sheet);
    lemma_sheet_shown(sheet);
    lemma_inventory_headers_clean();
    lemma_header_reads(inventory_headers(), 0);
    assert(cells[0] == sheet.rows@[0]@);
    assert(cells[1] == sheet.rows@[1]@);
    assert(text_row(sheet.rows@[0]@, inventory_samples()[0]));
    assert(text_row(sheet.rows@[1]@, inventory_samples()[1]));
    lemma_inventory_sample_read(cells[0], 0);
    lemma_inventory_sample_read(cells[1], 1);
    let data = g.skip(1);
    assert(data.len() == 2);
    assert(data[0] == row_shown(cells[0]));
    assert(data[1] == row_shown(cells[1]));
    let f = read->Ok_0;
    assert(data.drop_last().len() == 1);
    assert(data.drop_last().last() == data[0]);
    assert(data.drop_last().drop_last().len() == 0);
    reveal_with_fuel(inventory_rows_match, 3);
    assert(inventory_row_read(row_values(row_shown(cells[1]), 5), f.rows@.last()));
    assert(inventory_row_read(row_values(row_shown(cells[0]), 5), f.rows@.drop_last().last()));
    assert(f.rows@[0] == f.rows@.drop_last().last());
}

} // verus!
