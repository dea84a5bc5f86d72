//! Catalog items in spreadsheets: kind, name, code, unit and sale price.

use vstd::prelude::*;

use super::sheet::{
    all_blank, cell_shown, cell_text, check_header, grid_view, header_mismatch, header_strings,
    lemma_header_reads, lemma_rows_counted, lemma_sheet_shown, nonblank_rows, optional_value,
    row_error, row_message, row_shown, row_values, row_values_of, sheet_cells, sheet_shown, strs,
    text_cells, text_row, texts, values_all_blank, Sheet, SheetCell,
};
use crate::database::{CatalogDraft, CatalogRecord};
use crate::forms::{unit_label, unit_name};
use crate::text::{
    blank, grouped_integer, is_blank, lemma_grouped_integer_reads_decimal, lemma_trimmed_same,
    opt_str_view, opt_string_view, optional_text, parse_grouped_integer, same_text, trim, trimmed,
};

verus! {

broadcast use vstd::string::group_string_axioms;

/// The rows read from a catalog sheet, and a message for each row refused.
#[derive(Debug, Clone, PartialEq, Eq)]
pub struct CatalogImportFile {
    pub rows: Vec<CatalogDraft>,
    pub errors: Vec<String>,
}

pub open spec fn catalog_headers() -> Seq<Seq<char>> {
    seq!["نوع"@, "نام"@, "کد کالا"@, "واحد"@, "قیمت فروش (ریال)"@]
}

pub fn catalog_header_names() -> (r: Vec<&'static str>)
    ensures
        strs(r@) == catalog_headers(),
        r.len() == 5,
{
    let mut v = Vec::new();
    v.push("نوع");
    v.push("نام");
    v.push("کد کالا");
    v.push("واحد");
    v.push("قیمت فروش (ریال)");
    assert(strs(v@) =~= catalog_headers());
    v
}

/// The kind a sheet names, in Persian or English.
pub open spec fn catalog_kind_code(t: Seq<char>) -> Option<Seq<char>> {
    if t == "کالا"@ || t == "product"@ {
        Some("product"@)
    } else if t == "خدمت"@ || t == "service"@ {
        Some("service"@)
    } else {
        None
    }
}

pub fn catalog_kind_of(t: &str) -> (r: Option<&'static str>)
    ensures
        opt_str_view(r) == catalog_kind_code(t@),
{
    if same_text(t, "کالا") || same_text(t, "product") {
        Some("product")
    } else if same_text(t, "خدمت") || same_text(t, "service") {
        Some("service")
    } else {
        None
    }
}

/// The unit code a sheet names, in Persian or English.
pub open spec fn import_unit_code(t: Seq<char>) -> Option<Seq<char>> {
    if t == "عدد"@ || t == "each"@ {
        Some("each"@)
    } else if t == "کیلوگرم"@ || t == "kilogram"@ {
        Some("kilogram"@)
    } else if t == "گرم"@ || t == "gram"@ {
        Some("gram"@)
    } else if t == "لیتر"@ || t == "liter"@ {
        Some("liter"@)
    } else if t == "متر"@ || t == "meter"@ {
        Some("meter"@)
    } else if t == "ساعت"@ || t == "hour"@ {
        Some("hour"@)
    } else if t == "جلسه"@ || t == "session"@ {
        Some("session"@)
    } else if t == "سفارشی"@ || t == "custom"@ {
        Some("custom"@)
    } else {
        None
    }
}

pub fn import_unit_of(t: &str) -> (r: Option<&'static str>)
    ensures
        opt_str_view(r) == import_unit_code(t@),
{
    if same_text(t, "عدد") || same_text(t, "each") {
        Some("each")
    } else if same_text(t, "کیلوگرم") || same_text(t, "kilogram") {
        Some("kilogram")
    } else if same_text(t, "گرم") || same_text(t, "gram") {
        Some("gram")
    } else if same_text(t, "لیتر") || same_text(t, "liter") {
        Some("liter")
    } else if same_text(t, "متر") || same_text(t, "meter") {
        Some("meter")
    } else if same_text(t, "ساعت") || same_text(t, "hour") {
        Some("hour")
    } else if same_text(t, "جلسه") || same_text(t, "session") {
        Some("session")
    } else if same_text(t, "سفارشی") || same_text(t, "custom") {
        Some("custom")
    } else {
        None
    }
}

/// Why data row `row` (its five cells `v`) is refused, if it is.
pub open spec fn catalog_row_error(v: Seq<Seq<char>>, row: int) -> Option<Seq<char>> {
    if catalog_kind_code(trimmed(v[0])) is None {
        Some(row_message(row, "نوع باید کالا یا خدمت باشد"@))
    } else if is_blank(v[1]) {
        Some(row_message(row, "نام خالی است"@))
    } else if import_unit_code(trimmed(v[3])) is None {
        Some(row_message(row, "واحد معتبر نیست"@))
    } else if grouped_integer(v[4]) is None {
        Some(row_message(row, "قیمت فروش معتبر نیست"@))
    } else {
        None
    }
}

/// The draft read from the five cells of an accepted row.
pub open spec fn catalog_row_draft(v: Seq<Seq<char>>, d: CatalogDraft) -> bool {
    &&& d.id is None
    &&& catalog_kind_code(trimmed(v[0])) == Some(d.kind@)
    &&& d.name@ == trimmed(v[1])
    &&& opt_string_view(d.sku) == optional_text(v[2])
    &&& import_unit_code(trimmed(v[3])) == Some(d.unit@)
    &&& grouped_integer(v[4]) == Some(d.sale_price_minor as int)
}

pub fn parse_catalog_row(values: &Vec<String>, row: usize) -> (r: Result<CatalogDraft, String>)
    requires
        values.len() == 5,
    ensures
        catalog_row_error(texts(values@), row as int) matches Some(m) ==> (r matches Err(e)
            && e@ == m),
        catalog_row_error(texts(values@), row as int) is None ==> (r matches Ok(d)
            && catalog_row_draft(texts(values@), d)),
{
    let ghost v = texts(values@);
    assert(v[0] == values@[0]@ && v[1] == values@[1]@ && v[2] == values@[2]@);
    assert(v[3] == values@[3]@ && v[4] == values@[4]@);
    let kind = match catalog_kind_of(trim(values[0].as_str()).as_str()) {
        Some(k) => k,
        None => {
            return Err(row_error(row, "نوع باید کالا یا خدمت باشد"));
        },
    };
    if blank(values[1].as_str()) {
        return Err(row_error(row, "نام خالی است"));
    }
    let unit = match import_unit_of(trim(values[3].as_str()).as_str()) {
        Some(u) => u,
        None => {
            return Err(row_error(row, "واحد معتبر نیست"));
        },
    };
    let price = match parse_grouped_integer(values[4].as_str()) {
        Some(p) => p,
        None => {
            return Err(row_error(row, "قیمت فروش معتبر نیست"));
        },
    };
    Ok(
        CatalogDraft {
            id: None,
            kind: String::from_str(kind),
            name: trim(values[1].as_str()),
            sku: optional_value(&values[2]),
            unit: String::from_str(unit),
            sale_price_minor: price,
        },
    )
}

/// The data rows `data` (from the second row of the sheet on) give these
/// drafts and messages, in order; blank rows are passed over.
pub open spec fn catalog_rows_match(
    data: Seq<Seq<Seq<char>>>,
    rows: Seq<CatalogDraft>,
    errors: Seq<String>,
) -> bool
    decreases data.len(),
{
    if data.len() == 0 {
        rows.len() == 0 && errors.len() == 0
    } else {
        let v = row_values(data.last(), 5);
        if all_blank(v) {
            catalog_rows_match(data.drop_last(), rows, errors)
        } else {
            match catalog_row_error(v, data.len() + 1int) {
                Some(m) => errors.len() > 0 && errors.last()@ == m && catalog_rows_match(
                    data.drop_last(),
                    rows,
                    errors.drop_last(),
                ),
                None => rows.len() > 0 && catalog_row_draft(v, rows.last()) && catalog_rows_match(
                    data.drop_last(),
                    rows.drop_last(),
                    errors,
                ),
            }
        }
    }
}

/// What reading a catalog sheet (as a grid of cell texts) gives.
pub open spec fn catalog_sheet_outcome(g: Seq<Seq<Seq<char>>>, r: Result<CatalogImportFile, String>) -> bool {
    if g.len() == 0 {
        r matches Err(e) && e@ == "فایل اکسل خالی است"@
    } else if header_mismatch(g[0], catalog_headers(), 0) is Some {
        r matches Err(e) && e@ == header_mismatch(g[0], catalog_headers(), 0)->Some_0
    } else if nonblank_rows(g.skip(1), 5) == 0 {
        r matches Err(e) && e@ == "هیچ ردیف قابل ورودی در فایل پیدا نشد"@
    } else {
        r matches Ok(f) && catalog_rows_match(g.skip(1), f.rows@, f.errors@) && f.rows.len()
            + f.errors.len() == nonblank_rows(g.skip(1), 5)
    }
}

/// Reads a catalog sheet: the header row must name the five columns; every
/// row that is not blank gives a draft or a message.
pub fn read_catalog_rows(grid: &Vec<Vec<String>>) -> (r: Result<CatalogImportFile, String>)
    ensures
        catalog_sheet_outcome(grid_view(grid@), r),
{
    let ghost g = grid_view(grid@);
    if grid.len() == 0 {
        return Err(String::from_str("فایل اکسل خالی است"));
    }
    assert(g[0] == texts(grid@[0]@));
    check_header(&grid[0], &catalog_header_names())?;
    let mut rows: Vec<CatalogDraft> = Vec::new();
    let mut errors: Vec<String> = Vec::new();
    let mut i: usize = 1;
    assert(g.skip(1).take(0) =~= Seq::<Seq<Seq<char>>>::empty());
    while i < grid.len()
        invariant
            1 <= i <= grid.len(),
            g == grid_view(grid@),
            catalog_rows_match(g.skip(1).take(i - 1), rows@, errors@),
            rows.len() + errors.len() == nonblank_rows(g.skip(1).take(i - 1), 5),
        decreases grid.len() - i,
    {
        let ghost data = g.skip(1).take(i as int);
        assert(data.drop_last() =~= g.skip(1).take(i - 1));
        assert(data.last() == g[i as int]);
        assert(g[i as int] == texts(grid@[i as int]@));
        let values = row_values_of(&grid[i], 5);
        if !values_all_blank(&values) {
            match parse_catalog_row(&values, i + 1) {
                Ok(draft) => {
                    let ghost before = rows@;
                    rows.push(draft);
                    assert(rows@.drop_last() =~= before);
                },
                Err(message) => {
                    let ghost before = errors@;
                    errors.push(message);
                    assert(errors@.drop_last() =~= before);
                },
            }
        }
        i = i + 1;
    }
    assert(g.skip(1).take(grid.len() - 1) =~= g.skip(1));
    if rows.len() == 0 && errors.len() == 0 {
        return Err(String::from_str("هیچ ردیف قابل ورودی در فایل پیدا نشد"));
    }
    Ok(CatalogImportFile { rows, errors })
}

/// The sample rows of the catalog template.
pub open spec fn catalog_samples() -> Seq<Seq<Seq<char>>> {
    seq![
        seq!["کالا"@, "اسپرسو"@, "DRK-ESPRESSO"@, "عدد"@, "1200000"@],
        seq!["کالا"@, "لاته"@, "DRK-LATTE"@, "عدد"@, "1800000"@],
        seq!["کالا"@, "دانه قهوه عربیکا"@, "COF-ARABICA-1KG"@, "کیلوگرم"@, "9500000"@],
        seq!["خدمت"@, "رزرو میز ویژه"@, "SRV-VIP"@, "ساعت"@, "3000000"@],
    ]
}

/// The catalog template: the header row and four sample rows, all text.
pub fn catalog_template_sheet() -> (r: Sheet)
    ensures
        r.name matches Some(n) && n@ == "کالاها و خدمات"@,
        texts(r.headers@) == catalog_headers(),
        r.rows.len() == 4,
        forall|i: int| 0 <= i < 4 ==> text_row(#[trigger] r.rows@[i]@, catalog_samples()[i]),
        r.column_widths@ == seq![12u32, 28, 18, 14, 22],
{
    let mut rows: Vec<Vec<SheetCell>> = Vec::new();
    rows.push(text_cells(vec!["کالا", "اسپرسو", "DRK-ESPRESSO", "عدد", "1200000"]));
    rows.push(text_cells(vec!["کالا", "لاته", "DRK-LATTE", "عدد", "1800000"]));
    rows.push(
        text_cells(vec!["کالا", "دانه قهوه عربیکا", "COF-ARABICA-1KG", "کیلوگرم", "9500000"]),
    );
    rows.push(text_cells(vec!["خدمت", "رزرو میز ویژه", "SRV-VIP", "ساعت", "3000000"]));
    assert(strs(seq!["کالا", "اسپرسو", "DRK-ESPRESSO", "عدد", "1200000"]) =~= catalog_samples()[0]);
    assert(strs(seq!["کالا", "لاته", "DRK-LATTE", "عدد", "1800000"]) =~= catalog_samples()[1]);
    assert(strs(seq!["کالا", "دانه قهوه عربیکا", "COF-ARABICA-1KG", "کیلوگرم", "9500000"])
        =~= catalog_samples()[2]);
    assert(strs(seq!["خدمت", "رزرو میز ویژه", "SRV-VIP", "ساعت", "3000000"]) =~= catalog_samples()[3]);
    let mut widths: Vec<u32> = Vec::new();
    widths.push(12);
    widths.push(28);
    widths.push(18);
    widths.push(14);
    widths.push(22);
    assert(widths@ =~= seq![12u32, 28, 18, 14, 22]);
    Sheet {
        name: Some(String::from_str("کالاها و خدمات")),
        headers: header_strings(catalog_header_names()),
        rows,
        column_widths: widths,
    }
}

/// The label a kind is exported under.
pub open spec fn catalog_kind_label(kind: Seq<char>) -> Seq<char> {
    if kind == "product"@ {
        "کالا"@
    } else {
        "خدمت"@
    }
}

/// An exported catalog row: kind label, name, code, unit name, price.
pub open spec fn catalog_export_row(cells: Seq<SheetCell>, rec: CatalogRecord) -> bool {
    &&& cells.len() == 5
    &&& cells[0] matches SheetCell::Text(t) && t@ == catalog_kind_label(rec.kind@)
    &&& cells[1] matches SheetCell::Text(t) && t@ == rec.name@
    &&& cells[2] matches SheetCell::Text(t) && t@ == rec.sku@
    &&& cells[3] matches SheetCell::Text(t) && t@ == unit_name(rec.unit@)
    &&& cells[4] == SheetCell::Number(rec.sale_price_minor)
}

/// The catalog export: the header row, then a row per record.
pub fn catalog_export_sheet(records: &[CatalogRecord]) -> (r: Sheet)
    ensures
        r.name matches Some(n) && n@ == "خروجی کالاها"@,
        texts(r.headers@) == catalog_headers(),
        r.rows.len() == records.len(),
        forall|i: int| 0 <= i < records.len() ==> catalog_export_row(#[trigger] r.rows@[i]@, records@[i]),
        r.column_widths.len() == 0,
{
    let mut rows: Vec<Vec<SheetCell>> = Vec::new();
    let mut i: usize = 0;
    while i < records.len()
        invariant
            i <= records.len(),
            rows.len() == i,
            forall|k: int| 0 <= k < i ==> catalog_export_row(#[trigger] rows@[k]@, records@[k]),
        decreases records.len() - i,
    {
        let record = &records[i];
        let kind = if same_text(record.kind.as_str(), "product") {
            "کالا"
        } else {
            "خدمت"
        };
        let mut cells: Vec<SheetCell> = Vec::new();
        cells.push(SheetCell::Text(String::from_str(kind)));
        cells.push(SheetCell::Text(record.name.clone()));
        cells.push(SheetCell::Text(record.sku.clone()));
        cells.push(SheetCell::Text(String::from_str(unit_label(record.unit.as_str()))));
        cells.push(SheetCell::Number(record.sale_price_minor));
        rows.push(cells);
        i = i + 1;
    }
    Sheet {
        name: Some(String::from_str("خروجی کالاها")),
        headers: header_strings(catalog_header_names()),
        rows,
        column_widths: Vec::new(),
    }
}

/// A record the catalog sheet carries: a product or a service with a name,
/// in one of the units the sheet names, at a price that is not negative.
pub open spec fn catalog_exportable(rec: CatalogRecord) -> bool {
    &&& (rec.kind@ == "product"@ || rec.kind@ == "service"@)
    &&& !is_blank(rec.name@)
    &&& import_unit_code(rec.unit@) == Some(rec.unit@)
    &&& rec.sale_price_minor >= 0
}

/// The draft a record reads back as: its kind, unit and price, its name
/// trimmed, and its code trimmed unless it is blank.
pub open spec fn catalog_read_back(rec: CatalogRecord, d: CatalogDraft) -> bool {
    &&& d.id is None
    &&& d.kind@ == rec.kind@
    &&& d.name@ == trimmed(rec.name@)
    &&& opt_string_view(d.sku) == optional_text(rec.sku@)
    &&& d.unit@ == rec.unit@
    &&& d.sale_price_minor == rec.sale_price_minor
}

proof fn lemma_catalog_headers_clean()
    ensures
        forall|i: int|
            0 <= i < catalog_headers().len() ==> trimmed(#[trigger] catalog_headers()[i])
                == catalog_headers()[i],
{
    reveal_strlit("نوع");
    reveal_strlit("نام");
    reveal_strlit("کد کالا");
    reveal_strlit("واحد");
    reveal_strlit("قیمت فروش (ریال)");
    lemma_trimmed_same("نوع"@);
    lemma_trimmed_same("نام"@);
    lemma_trimmed_same("کد کالا"@);
    lemma_trimmed_same("واحد"@);
    lemma_trimmed_same("قیمت فروش (ریال)"@);
}

proof fn lemma_catalog_kind_label(kind: Seq<char>)
    requires
        kind == "product"@ || kind == "service"@,
    ensures
        trimmed(catalog_kind_label(kind)) == catalog_kind_label(kind),
        !is_blank(catalog_kind_label(kind)),
        catalog_kind_code(catalog_kind_label(kind)) == Some(kind),
{
    reveal_strlit("product");
    reveal_strlit("service");
    reveal_strlit("کالا");
    reveal_strlit("خدمت");
    lemma_trimmed_same(catalog_kind_label(kind));
}

/// The name of a unit the sheet reads is read back as the unit.
pub proof fn lemma_unit_name_reads_back(unit: Seq<char>)
    requires
        import_unit_code(unit) == Some(unit),
    ensures
        trimmed(unit_name(unit)) == unit_name(unit),
        import_unit_code(unit_name(unit)) == Some(unit),
{
    reveal_strlit("each");
    reveal_strlit("kilogram");
    reveal_strlit("gram");
    reveal_strlit("liter");
    reveal_strlit("meter");
    reveal_strlit("hour");
    reveal_strlit("session");
    reveal_strlit("custom");
    reveal_strlit("عدد");
    reveal_strlit("کیلوگرم");
    reveal_strlit("گرم");
    reveal_strlit("لیتر");
    reveal_strlit("متر");
    reveal_strlit("ساعت");
    reveal_strlit("جلسه");
    reveal_strlit("سفارشی");
    lemma_trimmed_same(unit_name(unit));
}

/// The texts of an exported row of an exportable record read back as that
/// record.
proof fn lemma_catalog_row_reads_back(cells: Seq<SheetCell>, rec: CatalogRecord, row: int)
    requires
        catalog_export_row(cells, rec),
        catalog_exportable(rec),
    ensures
        !is_blank(cell_text(row_shown(cells), 0)),
        !all_blank(row_values(row_shown(cells), 5)),
        catalog_row_error(row_values(row_shown(cells), 5), row) is None,
        forall|d: CatalogDraft|
            catalog_row_draft(row_values(row_shown(cells), 5), d) ==> #[trigger] catalog_read_back(
                rec,
                d,
            ),
{
    let v = row_values(row_shown(cells), 5);
    assert forall|j: int| 0 <= j < 5 implies #[trigger] v[j] == cell_shown(cells[j]) by {
        assert(cell_text(row_shown(cells), j) == row_shown(cells)[j]);
    }
    lemma_catalog_kind_label(rec.kind@);
    lemma_unit_name_reads_back(rec.unit@);
    lemma_grouped_integer_reads_decimal(rec.sale_price_minor as nat);
    assert(v[0] == catalog_kind_label(rec.kind@));
    assert(v[1] == rec.name@);
    assert(v[2] == rec.sku@);
    assert(v[3] == unit_name(rec.unit@));
    assert(v[4] == crate::text::decimal(rec.sale_price_minor as nat));
    assert(cell_text(row_shown(cells), 0) == v[0]);
    assert(!is_blank(v[0]));
}

proof fn lemma_catalog_rows_read_back(
    cells: Seq<Seq<SheetCell>>,
    records: Seq<CatalogRecord>,
    rows: Seq<CatalogDraft>,
    errors: Seq<String>,
)
    requires
        cells.len() == records.len(),
        forall|i: int| 0 <= i < records.len() ==> catalog_export_row(#[trigger] cells[i], records[i]),
        forall|i: int| 0 <= i < records.len() ==> #[trigger] catalog_exportable(records[i]),
        catalog_rows_match(cells.map_values(|r: Seq<SheetCell>| row_shown(r)), rows, errors),
    ensures
        errors.len() == 0,
        rows.len() == records.len(),
        forall|i: int| 0 <= i < records.len() ==> catalog_read_back(records[i], #[trigger] rows[i]),
    decreases cells.len(),
{
    let data = cells.map_values(|r: Seq<SheetCell>| row_shown(r));
    if cells.len() > 0 {
        let n = cells.len() - 1;
        assert(catalog_export_row(cells[n], records[n]));
        assert(catalog_exportable(records[n]));
        lemma_catalog_row_reads_back(cells[n], records[n], data.len() + 1int);
        assert(data.last() == row_shown(cells[n]));
        assert(data.drop_last() =~= cells.drop_last().map_values(|r: Seq<SheetCell>| row_shown(r)));
        let rest = cells.drop_last();
        let earlier = records.drop_last();
        assert forall|i: int| 0 <= i < earlier.len() implies catalog_export_row(
            #[trigger] rest[i],
            earlier[i],
        ) by {
            assert(catalog_export_row(cells[i], records[i]));
        }
        assert forall|i: int| 0 <= i < earlier.len() implies #[trigger] catalog_exportable(
            earlier[i],
        ) by {
            assert(catalog_exportable(records[i]));
        }
        lemma_catalog_rows_read_back(rest, earlier, rows.drop_last(), errors);
        assert forall|i: int| 0 <= i < records.len() implies catalog_read_back(
            records[i],
            #[trigger] rows[i],
        ) by {
            if i < n {
                assert(rows[i] == rows.drop_last()[i]);
                assert(records[i] == earlier[i]);
            }
        }
    }
}

/// An exported catalog read back from the texts its cells show: with no
/// records it is refused as holding no rows; otherwise every record reads
/// back as a draft, in order, and no row is refused.
pub proof fn catalog_export_reads_back(
    records: Seq<CatalogRecord>,
    sheet: Sheet,
    read: Result<CatalogImportFile, String>,
)
    requires
        forall|i: int| 0 <= i < records.len() ==> #[trigger] catalog_exportable(records[i]),
        texts(sheet.headers@) == catalog_headers(),
        sheet.rows.len() == records.len(),
        forall|i: int|
            0 <= i < records.len() ==> catalog_export_row(#[trigger] sheet.rows@[i]@, records[i]),
        catalog_sheet_outcome(sheet_shown(sheet), read),
    ensures
        records.len() == 0 ==> (read matches Err(e) && e@ == "هیچ ردیف قابل ورودی در فایل پیدا نشد"@),
        records.len() > 0 ==> (read matches Ok(f) && f.errors.len() == 0 && f.rows.len()
            == records.len() && forall|i: int|
            0 <= i < records.len() ==> catalog_read_back(records[i], #[trigger] f.rows@[i])),
{
    let g = sheet_shown(sheet);
    let cells = sheet_cells(sheet);
    lemma_sheet_shown(sheet);
    lemma_catalog_headers_clean();
    lemma_header_reads(catalog_headers(), 0);
    assert forall|i: int| 0 <= i < records.len() implies catalog_export_row(
        #[trigger] cells[i],
        records[i],
    ) by {
        assert(cells[i] == sheet.rows@[i]@);
    }
    let data = g.skip(1);
    assert forall|i: int| 0 <= i < data.len() implies !is_blank(#[trigger] cell_text(data[i], 0)) by {
        assert(data[i] == row_shown(cells[i]));
        lemma_catalog_row_reads_back(cells[i], records[i], 0);
    }
    lemma_rows_counted(data, 5);
    if records.len() > 0 {
        let f = read->Ok_0;
        lemma_catalog_rows_read_back(cells, records, f.rows@, f.errors@);
    }
}

/// Each sample row of the catalog template is one the reader accepts, and
/// its first cell is not blank.
proof fn lemma_catalog_sample_accepted(k: int, row: int)
    requires
        0 <= k < 4,
    ensures
        catalog_samples()[k].len() == 5,
        !is_blank(catalog_samples()[k][0]),
        catalog_row_error(catalog_samples()[k], row) is None,
{
    reveal_strlit("کالا");
    reveal_strlit("خدمت");
    reveal_strlit("product");
    reveal_strlit("service");
    reveal_strlit("اسپرسو");
    reveal_strlit("لاته");
    reveal_strlit("دانه قهوه عربیکا");
    reveal_strlit("رزرو میز ویژه");
    reveal_strlit("عدد");
    reveal_strlit("each");
    reveal_strlit("کیلوگرم");
    reveal_strlit("kilogram");
    reveal_strlit("گرم");
    reveal_strlit("gram");
    reveal_strlit("لیتر");
    reveal_strlit("liter");
    reveal_strlit("متر");
    reveal_strlit("meter");
    reveal_strlit("ساعت");
    reveal_strlit("1200000");
    reveal_strlit("1800000");
    reveal_strlit("9500000");
    reveal_strlit("3000000");
    reveal_with_fuel(crate::text::normalized_number, 8);
    reveal_with_fuel(crate::text::digits_value, 8);
    let v = catalog_samples()[k];
    assert(trimmed(v[0]) == v[0]);
    assert(trimmed(v[1]) == v[1]);
    assert(trimmed(v[3]) == v[3]);
}

/// Sample rows written as text cells read back as the drafts the samples
/// stand for, with no message.
proof fn lemma_catalog_samples_read(
    cells: Seq<Seq<SheetCell>>,
    rows: Seq<CatalogDraft>,
    errors: Seq<String>,
)
    requires
        cells.len() <= 4,
        forall|i: int| 0 <= i < cells.len() ==> text_row(#[trigger] cells[i], catalog_samples()[i]),
        catalog_rows_match(cells.map_values(|r: Seq<SheetCell>| row_shown(r)), rows, errors),
    ensures
        errors.len() == 0,
        rows.len() == cells.len(),
        forall|i: int|
            0 <= i < cells.len() ==> catalog_row_draft(catalog_samples()[i], #[trigger] rows[i]),
    decreases cells.len(),
{
    let data = cells.map_values(|r: Seq<SheetCell>| row_shown(r));
    if cells.len() > 0 {
        let n = cells.len() - 1;
        lemma_catalog_sample_accepted(n, data.len() + 1int);
        assert(text_row(cells[n], catalog_samples()[n]));
        let v = row_values(data.last(), 5);
        assert(v =~= catalog_samples()[n]) by {
            assert forall|j: int| 0 <= j < 5 implies v[j] == catalog_samples()[n][j] by {
                assert(cells[n][j] matches SheetCell::Text(t) && t@ == catalog_samples()[n][j]);
                assert(data.last()[j] == cell_shown(cells[n][j]));
            }
        }
        assert(!all_blank(v));
        assert(data.drop_last() =~= cells.drop_last().map_values(|r: Seq<SheetCell>| row_shown(r)));
        let rest = cells.drop_last();
        assert forall|i: int| 0 <= i < rest.len() implies text_row(
            #[trigger] rest[i],
            catalog_samples()[i],
        ) by {
            assert(rest[i] == cells[i]);
        }
        lemma_catalog_samples_read(rest, rows.drop_last(), errors);
        assert forall|i: int| 0 <= i < cells.len() implies catalog_row_draft(
            catalog_samples()[i],
            #[trigger] rows[i],
        ) by {
            if i < n {
                assert(rows[i] == rows.drop_last()[i]);
            }
        }
    }
}

/// The catalog template reads back: its four sample rows are accepted,
/// with no message, as the drafts they stand for; the first is priced
/// 1,200,000 and the last is a service.
pub proof fn catalog_template_reads_back(sheet: Sheet, read: Result<CatalogImportFile, String>)
    requires
        texts(sheet.headers@) == catalog_headers(),
        sheet.rows.len() == 4,
        forall|i: int| 0 <= i < 4 ==> text_row(#[trigger] sheet.rows@[i]@, catalog_samples()[i]),
        catalog_sheet_outcome(sheet_shown(sheet), read),
    ensures
        read matches Ok(f) && f.errors.len() == 0 && f.rows.len() == 4 && (forall|i: int|
            0 <= i < 4 ==> catalog_row_draft(catalog_samples()[i], #[trigger] f.rows@[i]))
            && f.rows@[0].sale_price_minor == 1200000 && f.rows@[3].kind@ == "service"@,
{
    let g = sheet_shown(sheet);
    let cells = sheet_cells(sheet);
    lemma_sheet_shown(sheet);
    lemma_catalog_headers_clean();
    lemma_header_reads(catalog_headers(), 0);
    assert forall|i: int| 0 <= i < 4 implies text_row(#[trigger] cells[i], catalog_samples()[i]) by {
        assert(cells[i] == sheet.rows@[i]@);
    }
    let data = g.skip(1);
    assert forall|i: int| 0 <= i < data.len() implies !is_blank(#[trigger] cell_text(data[i], 0)) by {
        assert(data[i] == row_shown(cells[i]));
        lemma_catalog_sample_accepted(i, 0);
        assert(cells[i][0] matches SheetCell::Text(t) && t@ == catalog_samples()[i][0]);
        assert(cell_text(data[i], 0) == catalog_samples()[i][0]);
    }
    lemma_rows_counted(data, 5);
    let f = read->Ok_0;
    lemma_catalog_samples_read(cells, f.rows@, f.errors@);
    reveal_strlit("1200000");
    reveal_strlit("کالا");
    reveal_strlit("خدمت");
    reveal_strlit("product");
    reveal_strlit("service");
    reveal_with_fuel(crate::text::normalized_number, 8);
    reveal_with_fuel(crate::text::digits_value, 8);
    assert(catalog_row_draft(catalog_samples()[0], f.rows@[0]));
    assert(catalog_row_draft(catalog_samples()[3], f.rows@[3]));
    assert(trimmed(catalog_samples()[3][0]) == catalog_samples()[3][0]);
}


/// The kinds a catalog sheet names: `کالا` and `product` both read as a
/// product, `خدمت` and `service` both as a service, and an export's label
/// for either kind reads back as that kind.
pub proof fn catalog_kinds_read(kind: Seq<char>)
    requires
        kind == "product"@ || kind == "service"@,
    ensures
        catalog_kind_code("کالا"@) == Some("product"@),
        catalog_kind_code("product"@) == Some("product"@),
        catalog_kind_code("خدمت"@) == Some("service"@),
        catalog_kind_code("service"@) == Some("service"@),
        catalog_kind_code(catalog_kind_label(kind)) == Some(kind),
{
    reveal_strlit("کالا");
    reveal_strlit("خدمت");
    reveal_strlit("product");
    reveal_strlit("service");
    assert("خدمت"@[0] != "کالا"@[0]);
    assert("service"@[0] != "product"@[0]);
    assert("service"@[0] != "کالا"@[0]);
}

} // verus!
