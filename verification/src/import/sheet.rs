//! Spreadsheets as the library sees them: the first sheet of a workbook as a
//! grid of cell texts, and the sheets it writes as rows of cell values.

use vstd::prelude::*;

use crate::text::{
    blank, decimal, int_text, is_blank, opt_str_view, opt_string_view, optional_field,
    optional_text, push_decimal, same_text, thousandths_text, trim, trimmed,
};

verus! {

broadcast use vstd::string::group_string_axioms;

/// A value written into a cell: text, a whole number, or a count of
/// thousandths written as the decimal number it stands for.
#[derive(Debug, Clone, PartialEq, Eq)]
pub enum SheetCell {
    Text(String),
    Number(i64),
    Thousandths(i64),
}

/// A sheet to write: the name of its tab (when it is given one), the header
/// row, the data rows, and the widths of the first columns in characters.
#[derive(Debug, Clone, PartialEq, Eq)]
pub struct Sheet {
    pub name: Option<String>,
    pub headers: Vec<String>,
    pub rows: Vec<Vec<SheetCell>>,
    pub column_widths: Vec<u32>,
}

pub open spec fn texts(v: Seq<String>) -> Seq<Seq<char>> {
    v.map_values(|s: String| s@)
}

pub open spec fn strs(v: Seq<&str>) -> Seq<Seq<char>> {
    v.map_values(|s: &str| s@)
}

/// A grid of cell texts, row by row.
pub open spec fn grid_view(g: Seq<Vec<String>>) -> Seq<Seq<Seq<char>>> {
    g.map_values(|r: Vec<String>| texts(r@))
}

/// The text of cell `i` of a row; a cell past the end of the row is empty.
pub open spec fn cell_text(row: Seq<Seq<char>>, i: int) -> Seq<char> {
    if 0 <= i < row.len() {
        row[i]
    } else {
        Seq::empty()
    }
}

/// The first `n` cells of a row.
pub open spec fn row_values(row: Seq<Seq<char>>, n: nat) -> Seq<Seq<char>> {
    Seq::new(n, |i: int| cell_text(row, i))
}

pub open spec fn all_blank(values: Seq<Seq<char>>) -> bool {
    forall|i: int| 0 <= i < values.len() ==> is_blank(#[trigger] values[i])
}

/// How many of the rows hold something in their first `n` cells.
pub open spec fn nonblank_rows(data: Seq<Seq<Seq<char>>>, n: nat) -> nat
    decreases data.len(),
{
    if data.len() == 0 {
        0
    } else {
        nonblank_rows(data.drop_last(), n) + if all_blank(row_values(data.last(), n)) {
            0nat
        } else {
            1nat
        }
    }
}

/// The first refusal among the data rows, scanning from the top and passing
/// over blank rows: `row_error` judges the first `n` cells of a row.
pub open spec fn first_row_error(
    data: Seq<Seq<Seq<char>>>,
    n: nat,
    row_error: spec_fn(Seq<Seq<char>>) -> Option<Seq<char>>,
) -> Option<Seq<char>>
    decreases data.len(),
{
    if data.len() == 0 {
        None
    } else {
        match first_row_error(data.drop_last(), n, row_error) {
            Some(e) => Some(e),
            None => {
                let v = row_values(data.last(), n);
                if all_blank(v) {
                    None
                } else {
                    row_error(v)
                }
            },
        }
    }
}

/// The records read from the data rows, one per row that is not blank, in
/// order; `read` relates the first `n` cells of a row to its record.
pub open spec fn rows_read<T>(
    data: Seq<Seq<Seq<char>>>,
    n: nat,
    read: spec_fn(Seq<Seq<char>>, T) -> bool,
    out: Seq<T>,
) -> bool
    decreases data.len(),
{
    if data.len() == 0 {
        out.len() == 0
    } else {
        let v = row_values(data.last(), n);
        if all_blank(v) {
            rows_read(data.drop_last(), n, read, out)
        } else {
            out.len() > 0 && read(v, out.last()) && rows_read(
                data.drop_last(),
                n,
                read,
                out.drop_last(),
            )
        }
    }
}

/// A refusal found among the first `k` rows is the first refusal of all.
pub proof fn lemma_first_error_stays(
    data: Seq<Seq<Seq<char>>>,
    n: nat,
    row_error: spec_fn(Seq<Seq<char>>) -> Option<Seq<char>>,
    k: int,
)
    requires
        0 <= k <= data.len(),
        first_row_error(data.take(k), n, row_error) is Some,
    ensures
        first_row_error(data, n, row_error) == first_row_error(data.take(k), n, row_error),
    decreases data.len() - k,
{
    if k < data.len() {
        let next = data.take(k + 1);
        assert(next.drop_last() =~= data.take(k));
        lemma_first_error_stays(data, n, row_error, k + 1);
    } else {
        assert(data.take(k) =~= data);
    }
}

/// What a header row is told when column `i` does not read `name`.
pub open spec fn column_message(i: int, name: Seq<char>) -> Seq<char> {
    "ستون "@ + decimal((i + 1) as nat) + " باید «"@ + name + "» باشد"@
}

/// The first column from `from` on whose trimmed header is not the expected one.
pub open spec fn header_mismatch(header: Seq<Seq<char>>, expected: Seq<Seq<char>>, from: int) -> Option<
    Seq<char>,
>
    decreases expected.len() - from,
{
    if from < 0 || from >= expected.len() {
        None
    } else if trimmed(cell_text(header, from)) != expected[from] {
        Some(column_message(from, expected[from]))
    } else {
        header_mismatch(header, expected, from + 1)
    }
}

/// The message for data row `row`: `ردیف {row}: ` and the text.
pub open spec fn row_message(row: int, text: Seq<char>) -> Seq<char> {
    "ردیف "@ + decimal(row as nat) + ": "@ + text
}

/// The first `n` cells of a row as texts.
pub fn row_values_of(row: &Vec<String>, n: usize) -> (r: Vec<String>)
    ensures
        texts(r@) == row_values(texts(row@), n as nat),
{
    let mut out: Vec<String> = Vec::new();
    let mut i: usize = 0;
    while i < n
        invariant
            i <= n,
            out.len() == i,
            forall|k: int| 0 <= k < i ==> (#[trigger] out@[k])@ == cell_text(texts(row@), k),
        decreases n - i,
    {
        if i < row.len() {
            out.push(row[i].clone());
        } else {
            out.push(String::new());
        }
        i = i + 1;
    }
    assert(texts(out@) =~= row_values(texts(row@), n as nat));
    out
}

pub fn values_all_blank(values: &Vec<String>) -> (r: bool)
    ensures
        r == all_blank(texts(values@)),
{
    let mut i: usize = 0;
    while i < values.len()
        invariant
            i <= values.len(),
            forall|k: int| 0 <= k < i ==> is_blank(#[trigger] texts(values@)[k]),
        decreases values.len() - i,
    {
        if !blank(values[i].as_str()) {
            assert(!is_blank(texts(values@)[i as int]));
            return false;
        }
        i = i + 1;
    }
    true
}

pub fn optional_value(v: &String) -> (r: Option<String>)
    ensures
        opt_string_view(r) == optional_text(v@),
{
    optional_field(v.as_str())
}

pub fn column_error(i: usize, name: &str) -> (r: String)
    requires
        i < usize::MAX,
    ensures
        r@ == column_message(i as int, name@),
{
    let mut out = String::from_str("ستون ");
    push_decimal(&mut out, (i + 1) as u64);
    out.append(" باید «");
    out.append(name);
    out.append("» باشد");
    out
}

pub fn row_error(row: usize, text: &str) -> (r: String)
    ensures
        r@ == row_message(row as int, text@),
{
    let mut out = String::from_str("ردیف ");
    push_decimal(&mut out, row as u64);
    out.append(": ");
    out.append(text);
    out
}

/// Checks a header row against the expected column names.
pub fn check_header(header: &Vec<String>, expected: &Vec<&'static str>) -> (r: Result<(), String>)
    requires
        expected.len() < usize::MAX,
    ensures
        header_mismatch(texts(header@), strs(expected@), 0) matches Some(m) ==> (r matches Err(
            e,
        ) && e@ == m),
        header_mismatch(texts(header@), strs(expected@), 0) is None ==> r is Ok,
{
    let mut i: usize = 0;
    while i < expected.len()
        invariant
            i <= expected.len() < usize::MAX,
            header_mismatch(texts(header@), strs(expected@), 0) == header_mismatch(
                texts(header@),
                strs(expected@),
                i as int,
            ),
        decreases expected.len() - i,
    {
        let cell = if i < header.len() {
            trim(header[i].as_str())
        } else {
            String::new()
        };
        assert(strs(expected@)[i as int] == expected@[i as int]@);
        if !same_text(cell.as_str(), expected[i]) {
            return Err(column_error(i, expected[i]));
        }
        i = i + 1;
    }
    Ok(())
}

/// One row of text cells.
pub open spec fn text_row(cells: Seq<SheetCell>, values: Seq<Seq<char>>) -> bool {
    &&& cells.len() == values.len()
    &&& forall|j: int|
        0 <= j < values.len() ==> (#[trigger] cells[j] matches SheetCell::Text(t) && t@
            == values[j])
}

pub fn text_cells(values: Vec<&'static str>) -> (r: Vec<SheetCell>)
    ensures
        text_row(r@, strs(values@)),
{
    let mut out: Vec<SheetCell> = Vec::new();
    let mut j: usize = 0;
    while j < values.len()
        invariant
            j <= values.len(),
            out.len() == j,
            forall|k: int|
                0 <= k < j ==> (#[trigger] out@[k] matches SheetCell::Text(t) && t@
                    == values@[k]@),
        decreases values.len() - j,
    {
        out.push(SheetCell::Text(String::from_str(values[j])));
        j = j + 1;
    }
    out
}

pub fn header_strings(names: Vec<&'static str>) -> (r: Vec<String>)
    ensures
        texts(r@) == strs(names@),
{
    let mut out: Vec<String> = Vec::new();
    let mut j: usize = 0;
    while j < names.len()
        invariant
            j <= names.len(),
            out.len() == j,
            forall|k: int| 0 <= k < j ==> (#[trigger] out@[k])@ == names@[k]@,
        decreases names.len() - j,
    {
        out.push(String::from_str(names[j]));
        j = j + 1;
    }
    assert(texts(out@) =~= strs(names@));
    out
}

/// The text a written cell reads back as from the workbook: a text as it
/// is, a whole number in decimal, and a count of thousandths as the decimal
/// number it stands for.
pub open spec fn cell_shown(c: SheetCell) -> Seq<char> {
    match c {
        SheetCell::Text(t) => t@,
        SheetCell::Number(n) => int_text(n as int),
        SheetCell::Thousandths(v) => thousandths_text(v as int),
    }
}

/// The texts of a row of written cells.
pub open spec fn row_shown(row: Seq<SheetCell>) -> Seq<Seq<char>> {
    row.map_values(|c: SheetCell| cell_shown(c))
}

/// The cells of each data row of a sheet.
pub open spec fn sheet_cells(s: Sheet) -> Seq<Seq<SheetCell>> {
    s.rows@.map_values(|r: Vec<SheetCell>| r@)
}

/// The grid of cell texts a written sheet reads back as: the header row,
/// then the data rows.
pub open spec fn sheet_shown(s: Sheet) -> Seq<Seq<Seq<char>>> {
    seq![texts(s.headers@)] + sheet_cells(s).map_values(|r: Seq<SheetCell>| row_shown(r))
}

/// The header row of a written sheet reads back first, and its data rows
/// after it.
pub proof fn lemma_sheet_shown(s: Sheet)
    ensures
        sheet_shown(s).len() == s.rows.len() + 1,
        sheet_shown(s)[0] == texts(s.headers@),
        sheet_shown(s).skip(1) == sheet_cells(s).map_values(|r: Seq<SheetCell>| row_shown(r)),
{
    assert(sheet_shown(s).skip(1) =~= sheet_cells(s).map_values(
        |r: Seq<SheetCell>| row_shown(r),
    ));
}

/// A header row that holds exactly the expected names, none with
/// whitespace around it, is accepted.
pub proof fn lemma_header_reads(h: Seq<Seq<char>>, from: int)
    requires
        0 <= from,
        forall|i: int| 0 <= i < h.len() ==> trimmed(#[trigger] h[i]) == h[i],
    ensures
        header_mismatch(h, h, from) is None,
    decreases h.len() - from,
{
    if from < h.len() {
        assert(cell_text(h, from) == h[from]);
        lemma_header_reads(h, from + 1);
    }
}

/// Rows whose first cell is not blank all count as rows to read.
pub proof fn lemma_rows_counted(data: Seq<Seq<Seq<char>>>, n: nat)
    requires
        n > 0,
        forall|i: int| 0 <= i < data.len() ==> !is_blank(#[trigger] cell_text(data[i], 0)),
    ensures
        nonblank_rows(data, n) == data.len(),
    decreases data.len(),
{
    if data.len() > 0 {
        let rest = data.drop_last();
        assert forall|i: int| 0 <= i < rest.len() implies !is_blank(
            #[trigger] cell_text(rest[i], 0),
        ) by {
            assert(rest[i] == data[i]);
        }
        lemma_rows_counted(rest, n);
        let v = row_values(data.last(), n);
        assert(v[0] == cell_text(data[data.len() - 1], 0));
        assert(!all_blank(v));
    }
}

/// Rows of which `row_error` refuses none give no refusal.
pub proof fn lemma_no_row_error(
    data: Seq<Seq<Seq<char>>>,
    n: nat,
    row_error: spec_fn(Seq<Seq<char>>) -> Option<Seq<char>>,
)
    requires
        forall|i: int| 0 <= i < data.len() ==> (#[trigger] row_error(row_values(data[i], n))) is None,
    ensures
        first_row_error(data, n, row_error) is None,
    decreases data.len(),
{
    if data.len() > 0 {
        let rest = data.drop_last();
        assert forall|i: int| 0 <= i < rest.len() implies (#[trigger] row_error(
            row_values(rest[i], n),
        )) is None by {
            assert(rest[i] == data[i]);
        }
        lemma_no_row_error(rest, n, row_error);
        assert(row_error(row_values(data[data.len() - 1], n)) is None);
    }
}

/// When no row is blank, the records read are one per row, in order.
pub proof fn lemma_rows_read_each<T>(
    data: Seq<Seq<Seq<char>>>,
    n: nat,
    read: spec_fn(Seq<Seq<char>>, T) -> bool,
    out: Seq<T>,
)
    requires
        forall|i: int| 0 <= i < data.len() ==> !all_blank(#[trigger] row_values(data[i], n)),
        rows_read(data, n, read, out),
    ensures
        out.len() == data.len(),
        forall|i: int| 0 <= i < data.len() ==> read(row_values(data[i], n), #[trigger] out[i]),
    decreases data.len(),
{
    if data.len() > 0 {
        let rest = data.drop_last();
        assert(!all_blank(row_values(data[data.len() - 1], n)));
        assert forall|i: int| 0 <= i < rest.len() implies !all_blank(
            #[trigger] row_values(rest[i], n),
        ) by {
            assert(rest[i] == data[i]);
        }
        lemma_rows_read_each(rest, n, read, out.drop_last());
        assert forall|i: int| 0 <= i < data.len() implies read(
            row_values(data[i], n),
            #[trigger] out[i],
        ) by {
            if i < data.len() - 1 {
                assert(rest[i] == data[i]);
                assert(out.drop_last()[i] == out[i]);
            }
        }
    }
}

} // verus!
