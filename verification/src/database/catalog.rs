//! The catalog of products and services.

use vstd::prelude::*;

use super::journal::{
    begin_in, commit_in, opt_text_view, params_view, read_int, read_int_in, rowid_in, run_count_in,
    read_in, read_rows, rows_view, run_in, true_count, Entry, ParamView,
};
use super::sql::{self, Cell};
use super::{like_pattern_of, cell_int, cell_text, id_args, refused, search_args, store_failure, Database, DatabaseError};
use crate::text::{blank, decimal, is_blank, opt_str_view, opt_string_view, push_decimal, push_zero_padded, same_text, trim, trimmed, zero_padded};

verus! {

broadcast use vstd::string::group_string_axioms;

/// The active catalog items whose name or code matches a pattern, most recently changed first.
pub const CATALOG_ITEMS_SQL: &'static str = "SELECT id, kind, name, COALESCE(sku, ''), unit, sale_price_minor
             FROM catalog_items
             WHERE active = 1 AND (name LIKE ?1 OR COALESCE(sku, '') LIKE ?1)
             ORDER BY updated_at DESC, id DESC";

/// The active catalog item with an id.
pub const CATALOG_ITEM_SQL: &'static str = "SELECT id, kind, name, COALESCE(sku, ''), unit, sale_price_minor
                 FROM catalog_items WHERE id = ?1 AND active = 1";

/// Whether another item holds a code.
pub const SKU_TAKEN_SQL: &'static str = "SELECT EXISTS(SELECT 1 FROM catalog_items WHERE sku = ?1 COLLATE NOCASE AND id <> ?2)";

/// The parameters of the check of a generated code for the item `id`.
pub open spec fn sku_params(id: i64, suffix: int) -> Seq<ParamView> {
    seq![ParamView::Text(sku_candidate(id as int, suffix as nat)), ParamView::Int(id)]
}

/// The entry reads the generated code of this suffix as held by another item.
pub open spec fn sku_taken(e: Entry, id: i64, suffix: int) -> bool {
    read_int(e, SKU_TAKEN_SQL@, sku_params(id, suffix)) matches Some(v) && v != 0
}

/// What choosing a code read: nothing when a code was supplied or the item
/// is a service; for a product, the generated codes in order, each held by
/// another item but the last, which is free.
pub open spec fn sku_journal(kind: Seq<char>, supplied: Option<Seq<char>>, id: i64, seg: Seq<Entry>) -> bool {
    if supplied_code(supplied) is Some || kind != "product"@ {
        seg.len() == 0
    } else {
        &&& 1 <= seg.len() <= 1000
        &&& forall|m: int| 0 <= m < seg.len() - 1 ==> sku_taken(#[trigger] seg[m], id, m)
        &&& read_int(seg[seg.len() - 1], SKU_TAKEN_SQL@, sku_params(id, seg.len() - 1)) == Some(0i64)
    }
}

/// The code chosen: the supplied one, none for a service, or the generated
/// code found free last.
pub open spec fn resolved_code(kind: Seq<char>, supplied: Option<Seq<char>>, id: i64, seg: Seq<Entry>) -> Option<Seq<char>> {
    match supplied_code(supplied) {
        Some(code) => Some(code),
        None => if kind != "product"@ {
            None
        } else {
            Some(sku_candidate(id as int, (seg.len() - 1) as nat))
        },
    }
}

/// The id the next inserted item will get.
pub const NEXT_CATALOG_ID_SQL: &'static str = "SELECT COALESCE((SELECT seq FROM sqlite_sequence WHERE name = 'catalog_items'), 0) + 1";

/// Rewrites an active catalog item.
pub const CATALOG_UPDATE_SQL: &'static str = "UPDATE catalog_items
                 SET kind = ?1, name = ?2, sku = ?3, unit = ?4, sale_price_minor = ?5,
                     track_inventory = CASE WHEN ?1 = 'product' THEN 1 ELSE 0 END,
                     updated_at = CURRENT_TIMESTAMP
                 WHERE id = ?6 AND active = 1";

/// Inserts a catalog item.
pub const CATALOG_INSERT_SQL: &'static str = "INSERT INTO catalog_items
             (kind, name, sku, unit, sale_price_minor, currency, track_inventory)
             VALUES (?1, ?2, ?3, ?4, ?5, 'IRR', CASE WHEN ?1 = 'product' THEN 1 ELSE 0 END)";

/// The parameters of an item: kind, name, code, unit and price.
pub open spec fn catalog_params(d: CatalogDraft, sku: Option<Seq<char>>) -> Seq<ParamView> {
    seq![
        ParamView::Text(d.kind@),
        ParamView::Text(d.name@),
        opt_text_view(sku),
        ParamView::Text(d.unit@),
        ParamView::Int(d.sale_price_minor),
    ]
}

/// A save of an item that went through, with id `v`. An update chooses
/// the code for its id (`sku_journal`, `resolved_code`) and rewrites the
/// item with that id. A new item reads the next id `n`, chooses the code
/// for `n`, is inserted, and `v` is the id SQLite gives it.
pub open spec fn catalog_save_journal(d: CatalogDraft, v: i64, j: Seq<Entry>) -> bool {
    match d.id {
        Some(id) => {
            let seg = j.subrange(0, j.len() - 1);
            &&& v == id
            &&& j.len() >= 1
            &&& sku_journal(d.kind@, opt_string_view(d.sku), id, seg)
            &&& j[j.len() - 1] == Entry::Run(
                CATALOG_UPDATE_SQL@,
                catalog_params(d, resolved_code(d.kind@, opt_string_view(d.sku), id, seg)).push(
                    ParamView::Int(id),
                ),
            )
        },
        None => {
            &&& j.len() >= 3
            &&& read_int(j[0], NEXT_CATALOG_ID_SQL@, Seq::empty()) matches Some(n) && {
                let seg = j.subrange(1, j.len() - 2);
                &&& sku_journal(d.kind@, opt_string_view(d.sku), n, seg)
                &&& j[j.len() - 2] == Entry::Run(
                    CATALOG_INSERT_SQL@,
                    catalog_params(d, resolved_code(d.kind@, opt_string_view(d.sku), n, seg)),
                )
            }
            &&& j[j.len() - 1] == Entry::Rowid(v)
        },
    }
}

/// Whether an active item duplicates a draft: the same code, or for a
/// draft without one the same kind, name and unit.
pub const DUPLICATE_SQL: &'static str = "SELECT EXISTS(
                    SELECT 1 FROM catalog_items
                    WHERE active = 1 AND (
                        (?1 IS NOT NULL AND sku = ?1 COLLATE NOCASE)
                        OR (?1 IS NULL AND kind = ?2 AND name = ?3 AND unit = ?4)
                    )
                )";

/// Inserts a catalog item unless its code is taken.
pub const CATALOG_INSERT_OR_SKIP_SQL: &'static str = "INSERT INTO catalog_items
                 (kind, name, sku, unit, sale_price_minor, currency, track_inventory)
                 VALUES (?1, ?2, ?3, ?4, ?5, 'IRR', CASE WHEN ?1 = 'product' THEN 1 ELSE 0 END)
                 ON CONFLICT(sku) DO NOTHING";

/// The parameters of the duplicate check: code, kind, name and unit.
pub open spec fn duplicate_params(d: CatalogDraft) -> Seq<ParamView> {
    seq![
        opt_text_view(opt_string_view(d.sku)),
        ParamView::Text(d.kind@),
        ParamView::Text(d.name@),
        ParamView::Text(d.unit@),
    ]
}

/// What importing one draft read and ran: whether an active item
/// duplicates it; when none does, the next id `n`, the choice of the code
/// for `n` (`sku_journal`), and the insert of the draft with that code,
/// skipped by SQLite when the code is taken.
pub open spec fn catalog_import_step(d: CatalogDraft, seg: Seq<Entry>) -> bool {
    &&& seg.len() >= 1
    &&& read_int(seg[0], DUPLICATE_SQL@, duplicate_params(d)) matches Some(v) && if v != 0 {
        seg.len() == 1
    } else {
        &&& seg.len() >= 3
        &&& read_int(seg[1], NEXT_CATALOG_ID_SQL@, Seq::empty()) matches Some(n) && {
            let sku = seg.subrange(2, seg.len() - 1);
            &&& sku_journal(d.kind@, opt_string_view(d.sku), n, sku)
            &&& seg[seg.len() - 1] matches Entry::Changed(s, a, _) && s == CATALOG_INSERT_OR_SKIP_SQL@
                && a == catalog_params(d, resolved_code(d.kind@, opt_string_view(d.sku), n, sku))
        }
    }
}

/// The step added an item: its insert changed a row.
pub open spec fn step_inserted(seg: Seq<Entry>) -> bool {
    &&& seg.len() >= 3
    &&& seg[seg.len() - 1] matches Entry::Changed(_, _, c) && c != 0
}

/// How many of the steps added an item.
pub open spec fn inserted_count(steps: Seq<Seq<Entry>>) -> nat
    decreases steps.len(),
{
    if steps.len() == 0 {
        0
    } else {
        inserted_count(steps.drop_last()) + if step_inserted(steps.last()) {
            1nat
        } else {
            0nat
        }
    }
}

/// Deletes a catalog item.
pub const CATALOG_DELETE_SQL: &'static str = "DELETE FROM catalog_items WHERE id = ?1";

/// A catalog item as listed.
#[derive(Debug, Clone, PartialEq, Eq)]
pub struct CatalogRecord {
    pub id: i64,
    pub kind: String,
    pub name: String,
    pub sku: String,
    pub unit: String,
    pub sale_price_minor: i64,
}

/// A catalog item to create (no `id`) or update.
#[derive(Debug, Clone, PartialEq, Eq)]
pub struct CatalogDraft {
    pub id: Option<i64>,
    pub kind: String,
    pub name: String,
    pub sku: Option<String>,
    pub unit: String,
    pub sale_price_minor: i64,
}

/// What a bulk import did: rows added and rows skipped as duplicates.
#[derive(Debug, Clone, Copy, Default, PartialEq, Eq)]
pub struct CatalogImportResult {
    pub inserted: usize,
    pub duplicates: usize,
}

/// The row reads as this record, column by column.
pub open spec fn catalog_row_is(row: Seq<Cell>, rec: CatalogRecord) -> bool {
    row[0] == Cell::Int(rec.id) && row[1] is Text && row[1]->Text_0@
            == rec.kind@ && row[2] is Text && row[2]->Text_0@ == rec.name@ && row[3] is Text
            && row[3]->Text_0@ == rec.sku@ && row[4] is Text && row[4]->Text_0@ == rec.unit@
            && row[5] == Cell::Int(rec.sale_price_minor)
}

/// Reads a row of `id, kind, name, sku, unit, sale_price_minor`.
pub fn decode_catalog_record(row: &Vec<Cell>) -> (r: Result<CatalogRecord, DatabaseError>)
    requires
        row.len() == 6,
    ensures
        r is Ok <==> (row[0] is Int && row[1] is Text && row[2] is Text && row[3] is Text
            && row[4] is Text && row[5] is Int),
        r is Err ==> refused(r, "unexpected column value"@),
        r matches Ok(rec) ==> row[0] == Cell::Int(rec.id) && row[1] is Text && row[1]->Text_0@
            == rec.kind@ && row[2] is Text && row[2]->Text_0@ == rec.name@ && row[3] is Text
            && row[3]->Text_0@ == rec.sku@ && row[4] is Text && row[4]->Text_0@ == rec.unit@
            && row[5] == Cell::Int(rec.sale_price_minor),
        r matches Ok(rec) ==> catalog_row_is(row@, rec),
{
    Ok(
        CatalogRecord {
            id: cell_int(row, 0)?,
            kind: cell_text(row, 1)?,
            name: cell_text(row, 2)?,
            sku: cell_text(row, 3)?,
            unit: cell_text(row, 4)?,
            sale_price_minor: cell_int(row, 5)?,
        },
    )
}

/// The generated code for a product without one: `NXR-P-` and the id padded
/// to eight digits, then `-suffix` for every suffix after the first.
pub open spec fn sku_candidate(id: int, suffix: nat) -> Seq<char> {
    let base = "NXR-P-"@ + zero_padded(id, 8);
    if suffix == 0 {
        base
    } else {
        base + seq!['-'] + decimal(suffix)
    }
}

pub fn make_sku_candidate(id: i64, suffix: u64) -> (r: String)
    ensures
        r@ == sku_candidate(id as int, suffix as nat),
{
    let mut out = String::from_str("NXR-P-");
    push_zero_padded(&mut out, id, 8);
    if suffix != 0 {
        out.append("-");
        push_decimal(&mut out, suffix);
    }
    proof {
        reveal_strlit("-");
    }
    assert(out@ =~= sku_candidate(id as int, suffix as nat));
    out
}

/// The supplied product code, trimmed, unless it is missing or blank.
pub open spec fn supplied_code(supplied: Option<Seq<char>>) -> Option<Seq<char>> {
    match supplied {
        Some(s) => if is_blank(s) {
            None
        } else {
            Some(trimmed(s))
        },
        None => None,
    }
}

/// The product code to store: the supplied one when it is not blank;
/// otherwise none for services, and for products the first generated
/// candidate (of at most a thousand) that no other item uses.
pub fn resolved_sku(
    connection: &rusqlite::Connection,
    kind: &str,
    supplied: Option<&str>,
    id: i64,
    journal: &mut Ghost<Seq<Entry>>,
) -> (r: Result<Option<String>, DatabaseError>)
    ensures
        supplied_code(opt_str_view(supplied)) matches Some(code) ==> (r matches Ok(Some(s)) && s@
            == code),
        supplied_code(opt_str_view(supplied)) is None && kind@ != "product"@ ==> (r matches Ok(
            None,
        )),
        supplied_code(opt_str_view(supplied)) is None && kind@ == "product"@ ==> (r matches Ok(Some(s))
            ==> exists|k: nat| k < 1000 && s@ == #[trigger] sku_candidate(id as int, k)),
        supplied_code(opt_str_view(supplied)) is None && kind@ == "product"@ ==> (r is Err ==> (
        refused(r, "unable to generate a unique product sku"@) || store_failure(r))),
        r is Ok ==> final(journal)@.len() >= old(journal)@.len() && final(journal)@.subrange(
            0,
            old(journal)@.len() as int,
        ) == old(journal)@ && sku_journal(
            kind@,
            opt_str_view(supplied),
            id,
            final(journal)@.subrange(old(journal)@.len() as int, final(journal)@.len() as int),
        ) && opt_string_view(r->Ok_0) == resolved_code(
            kind@,
            opt_str_view(supplied),
            id,
            final(journal)@.subrange(old(journal)@.len() as int, final(journal)@.len() as int),
        ),
{
    let ghost start = journal@;
    match supplied {
        Some(s) => {
            if !blank(s) {
                assert(journal@.subrange(start.len() as int, journal@.len() as int) =~= Seq::<Entry>::empty());
                assert(journal@.subrange(0, start.len() as int) =~= start);
                return Ok(Some(trim(s)));
            }
        },
        None => {},
    }
    if !same_text(kind, "product") {
        assert(journal@.subrange(start.len() as int, journal@.len() as int) =~= Seq::<Entry>::empty());
        assert(journal@.subrange(0, start.len() as int) =~= start);
        return Ok(None);
    }
    let mut suffix: u64 = 0;
    while suffix < 1000
        invariant
            suffix <= 1000,
            supplied_code(opt_str_view(supplied)) is None,
            kind@ == "product"@,
            journal@.len() == start.len() + suffix,
            journal@.subrange(0, start.len() as int) == start,
            start == old(journal)@,
            forall|m: int|
                0 <= m < suffix ==> sku_taken(#[trigger] journal@[start.len() + m], id, m),
        decreases 1000 - suffix,
    {
        let ghost before = journal@;
        let candidate = make_sku_candidate(id, suffix);
        let mut args = Vec::new();
        args.push(sql::text(candidate.clone()));
        args.push(sql::integer(id));
        assert(params_view(args@) =~= sku_params(id, suffix as int));
        let taken = read_int_in(connection, SKU_TAKEN_SQL, args, journal)?;
        assert(journal@.subrange(0, before.len() as int) =~= before);
        assert(journal@[start.len() + suffix] == journal@.last());
        if taken == 0 {
            assert(candidate@ == sku_candidate(id as int, suffix as nat));
            let ghost seg = journal@.subrange(start.len() as int, journal@.len() as int);
            assert(seg.len() == suffix + 1);
            assert forall|m: int| 0 <= m < seg.len() - 1 implies sku_taken(#[trigger] seg[m], id, m) by {
                assert(seg[m] == before[start.len() + m]);
            }
            assert(seg[seg.len() - 1] == journal@.last());
            assert(read_int(seg[seg.len() - 1], SKU_TAKEN_SQL@, sku_params(id, seg.len() - 1))
                == Some(0i64));
            assert(sku_journal(kind@, opt_str_view(supplied), id, seg));
            assert(resolved_code(kind@, opt_str_view(supplied), id, seg) == Some(candidate@));
            assert(journal@.subrange(0, start.len() as int) =~= start);
            assert(start == old(journal)@);
            assert(opt_string_view(Some(candidate)) == Some(candidate@));
            return Ok(Some(candidate));
        }
        assert forall|m: int| 0 <= m < suffix + 1 implies sku_taken(
            #[trigger] journal@[start.len() + m],
            id,
            m,
        ) by {
            if m < suffix {
                assert(journal@[start.len() + m] == before[start.len() + m]);
            }
        }
        assert(journal@.subrange(0, start.len() as int) =~= start);
        suffix = suffix + 1;
    }
    Err(DatabaseError::Validation(String::from_str("unable to generate a unique product sku")))
}

fn draft_args(draft: &CatalogDraft, sku: Option<String>) -> (r: Vec<sql::Param>)
    ensures
        r.len() == 5,
        params_view(r@) == catalog_params(*draft, opt_string_view(sku)),
{
    let mut args = Vec::new();
    args.push(sql::text(draft.kind.clone()));
    args.push(sql::text(draft.name.clone()));
    args.push(sql::opt_text(sku));
    args.push(sql::text(draft.unit.clone()));
    args.push(sql::integer(draft.sale_price_minor));
    assert(params_view(args@) =~= catalog_params(*draft, opt_string_view(sku)));
    args
}

fn opt_as_str(s: &Option<String>) -> (r: Option<&str>)
    ensures
        opt_str_view(r) == opt_string_view(*s),
{
    match s {
        Some(t) => Some(t.as_str()),
        None => None,
    }
}

impl Database {
    /// Active items whose name or code holds the trimmed search, most
    /// recently changed first.
    ///
    /// `catalog_items_journaled` states the query it runs and how each returned row is read.
    pub fn catalog_items(&self, search: &str) -> (r: Result<Vec<CatalogRecord>, DatabaseError>)
        ensures
            r is Err ==> store_failure(r),
    {
        let mut journal: Ghost<Seq<Entry>> = Ghost(Seq::empty());
        self.catalog_items_journaled(search, &mut journal)
    }

    /// `catalog_items`, with what it read: the items whose name or code holds the trimmed search, each read from its row in the order SQLite returned them.
    pub fn catalog_items_journaled(&self, search: &str, journal: &mut Ghost<Seq<Entry>>) -> (r: Result<
        Vec<CatalogRecord>,
        DatabaseError,
    >)
        requires
            old(journal)@ == Seq::<Entry>::empty(),
        ensures
            r matches Ok(v) ==> final(journal)@.len() == 1 && (read_rows(
                final(journal)@[0],
                CATALOG_ITEMS_SQL@,
                seq![ParamView::Text(like_pattern_of(search@))],
            ) matches Some(rows) && rows.len() == v.len() && forall|k: int|
                0 <= k < v.len() ==> catalog_row_is(rows[k], #[trigger] v@[k])),
            r is Err ==> store_failure(r),
    {
        let args = search_args(search);
        assert(params_view(args@) =~= seq![ParamView::Text(like_pattern_of(search@))]);
        let rows = read_in(&self.connection, CATALOG_ITEMS_SQL, args, 6, journal)?;
        let ghost rv = rows_view(rows@);
        let mut out: Vec<CatalogRecord> = Vec::new();
        let mut i: usize = 0;
        while i < rows.len()
            invariant
                i <= rows.len(),
                out.len() == i,
                rv == rows_view(rows@),
                forall|k: int| 0 <= k < rows.len() ==> #[trigger] rows[k].len() == 6,
                forall|k: int| 0 <= k < i ==> catalog_row_is(rv[k], #[trigger] out@[k]),
            decreases rows.len() - i,
        {
            let rec = decode_catalog_record(&rows[i])?;
            assert(rv[i as int] == rows@[i as int]@);
            let ghost before = out@;
            out.push(rec);
            assert forall|k: int| 0 <= k < i + 1 implies catalog_row_is(rv[k], #[trigger] out@[k]) by {
                if k < i {
                    assert(out@[k] == before[k]);
                }
            }
            i = i + 1;
        }
        Ok(out)
    }

    /// Creates the item (no id) or updates it; the id of the item.
    ///
    /// `save_catalog_item_journaled` states what it reads and runs.
    pub fn save_catalog_item(&self, draft: &CatalogDraft) -> (r: Result<i64, DatabaseError>)
        ensures
            draft.id matches Some(id) ==> (r is Ok ==> r == Ok::<i64, DatabaseError>(id)),
            r is Err ==> refused(r, "unable to generate a unique product sku"@) || store_failure(r),
    {
        let mut journal: Ghost<Seq<Entry>> = Ghost(Seq::empty());
        self.save_catalog_item_journaled(draft, &mut journal)
    }

    /// `save_catalog_item`, with what it read and ran: an update chooses the
    /// code (`resolved_sku` for its id) and rewrites the item; a new item
    /// reads the next id, chooses the code for it, is inserted, and its id
    /// is the one SQLite gives it (`catalog_save_journal`).
    pub fn save_catalog_item_journaled(&self, draft: &CatalogDraft, journal: &mut Ghost<Seq<Entry>>) -> (r:
        Result<i64, DatabaseError>)
        requires
            old(journal)@ == Seq::<Entry>::empty(),
        ensures
            draft.id matches Some(id) ==> (r is Ok ==> r == Ok::<i64, DatabaseError>(id)),
            r matches Ok(v) ==> catalog_save_journal(*draft, v, final(journal)@),
            r is Err ==> refused(r, "unable to generate a unique product sku"@) || store_failure(r),
    {
        match draft.id {
            Some(id) => {
                let sku = resolved_sku(&self.connection, draft.kind.as_str(), opt_as_str(&draft.sku), id, journal)?;
                let ghost chosen = journal@;
                let ghost code = opt_string_view(sku);
                assert(chosen.subrange(0, chosen.len() as int) =~= chosen);
                assert(chosen.subrange(0, 0) =~= Seq::<Entry>::empty());
                assert(sku_journal(draft.kind@, opt_string_view(draft.sku), id, chosen));
                assert(code == resolved_code(draft.kind@, opt_string_view(draft.sku), id, chosen));
                let mut args = draft_args(draft, sku);
                args.push(sql::integer(id));
                assert(params_view(args@) =~= catalog_params(*draft, code).push(ParamView::Int(id)));
                run_in(&self.connection, CATALOG_UPDATE_SQL, args, journal)?;
                assert(journal@.subrange(0, journal@.len() - 1) =~= chosen);
                Ok(id)
            },
            None => {
                let next_id = read_int_in(&self.connection, NEXT_CATALOG_ID_SQL, Vec::new(), journal)?;
                let ghost counted = journal@;
                assert(params_view(Seq::<sql::Param>::empty()) =~= Seq::<ParamView>::empty());
                let sku = resolved_sku(&self.connection, draft.kind.as_str(), opt_as_str(&draft.sku), next_id, journal)?;
                let ghost chosen = journal@;
                let ghost code = opt_string_view(sku);
                assert(sku_journal(
                    draft.kind@,
                    opt_string_view(draft.sku),
                    next_id,
                    chosen.subrange(1, chosen.len() as int),
                ));
                assert(code == resolved_code(
                    draft.kind@,
                    opt_string_view(draft.sku),
                    next_id,
                    chosen.subrange(1, chosen.len() as int),
                ));
                run_in(&self.connection, CATALOG_INSERT_SQL, draft_args(draft, sku), journal)?;
                let v = rowid_in(&self.connection, journal);
                assert(journal@.subrange(1, journal@.len() - 2) =~= chosen.subrange(1, chosen.len() as int));
                assert(counted[0] == counted.last());
                assert(journal@.subrange(0, chosen.len() as int) =~= chosen);
                assert(journal@[0] == counted[0]);
                assert(journal@.subrange(1, chosen.len() as int) =~= chosen.subrange(1, chosen.len() as int));
                assert(counted.len() == 1);
                Ok(v)
            },
        }
    }

    /// The active item with this id, if any.
    ///
    /// `catalog_item_journaled` states the query it runs and how the row read is decoded.
    pub fn catalog_item(&self, id: i64) -> (r: Result<Option<CatalogRecord>, DatabaseError>)
        ensures
            r is Err ==> store_failure(r),
    {
        let mut journal: Ghost<Seq<Entry>> = Ghost(Seq::empty());
        self.catalog_item_journaled(id, &mut journal)
    }

    /// `catalog_item`, with what it read: none when no row was read, else the item the first row reads as.
    pub fn catalog_item_journaled(&self, id: i64, journal: &mut Ghost<Seq<Entry>>) -> (r: Result<
        Option<CatalogRecord>,
        DatabaseError,
    >)
        requires
            old(journal)@ == Seq::<Entry>::empty(),
        ensures
            r matches Ok(o) ==> final(journal)@.len() == 1 && (read_rows(
                final(journal)@[0],
                CATALOG_ITEM_SQL@,
                seq![ParamView::Int(id)],
            ) matches Some(rows) && (o is None <==> rows.len() == 0) && (o matches Some(rec)
                ==> catalog_row_is(rows[0], rec))),
            r is Err ==> store_failure(r),
    {
        let args = id_args(id);
        assert(params_view(args@) =~= seq![ParamView::Int(id)]);
        let rows = read_in(&self.connection, CATALOG_ITEM_SQL, args, 6, journal)?;
        let ghost rv = rows_view(rows@);
        if rows.len() == 0 {
            return Ok(None);
        }
        assert(rv[0] == rows@[0]@);
        assert(rows[0].len() == 6);
        Ok(Some(decode_catalog_record(&rows[0])?))
    }

    /// Deletes the item; the schema refuses while the item still holds stock.
    ///
    /// `remove_catalog_item_journaled` states what it reads and runs.
    pub fn remove_catalog_item(&self, id: i64) -> (r: Result<(), DatabaseError>)
        ensures
            r is Err ==> store_failure(r),
    {
        let mut journal: Ghost<Seq<Entry>> = Ghost(Seq::empty());
        self.remove_catalog_item_journaled(id, &mut journal)
    }

    /// `remove_catalog_item`, with what it ran: the item with this id is
    /// deleted.
    pub fn remove_catalog_item_journaled(&self, id: i64, journal: &mut Ghost<Seq<Entry>>) -> (r:
        Result<(), DatabaseError>)
        requires
            old(journal)@ == Seq::<Entry>::empty(),
        ensures
            r is Ok ==> final(journal)@ == seq![
                Entry::Run(CATALOG_DELETE_SQL@, seq![ParamView::Int(id)]),
            ],
            r is Err ==> store_failure(r),
    {
        let args = id_args(id);
        assert(params_view(args@) =~= seq![ParamView::Int(id)]);
        run_in(&self.connection, CATALOG_DELETE_SQL, args, journal)?;
        assert(journal@ =~= seq![Entry::Run(CATALOG_DELETE_SQL@, seq![ParamView::Int(id)])]);
        Ok(())
    }

    /// Deletes each of the items in turn, passing over one that cannot be
    /// deleted (the schema refuses an item that still holds stock): how many
    /// were deleted and how many passed over, which together are all of them.
    ///
    /// `remove_catalog_items_journaled` states what each deletion ran and which went through.
    pub fn remove_catalog_items(&self, ids: &[i64]) -> (r: (usize, usize))
        ensures
            r.0 + r.1 == ids@.len(),
    {
        let mut steps: Ghost<Seq<Seq<Entry>>> = Ghost(Seq::empty());
        let mut removed: Ghost<Seq<bool>> = Ghost(Seq::empty());
        self.remove_catalog_items_journaled(ids, &mut steps, &mut removed)
    }

    /// `remove_catalog_items`, with what each deletion ran and whether it
    /// went through: the k-th id is deleted as `remove_catalog_item` deletes
    /// it, and the first count is the number of deletions that went through.
    pub fn remove_catalog_items_journaled(
        &self,
        ids: &[i64],
        steps: &mut Ghost<Seq<Seq<Entry>>>,
        removed: &mut Ghost<Seq<bool>>,
    ) -> (r: (usize, usize))
        requires
            old(steps)@ == Seq::<Seq<Entry>>::empty(),
            old(removed)@ == Seq::<bool>::empty(),
        ensures
            r.0 + r.1 == ids@.len(),
            final(steps)@.len() == ids@.len(),
            final(removed)@.len() == ids@.len(),
            r.0 == true_count(final(removed)@),
            forall|k: int|
                0 <= k < ids@.len() ==> (#[trigger] final(removed)@[k] ==> final(steps)@[k] == seq![
                    Entry::Run(CATALOG_DELETE_SQL@, seq![ParamView::Int(ids@[k])]),
                ]),
    {
        let mut done: usize = 0;
        let mut skipped: usize = 0;
        let mut i: usize = 0;
        while i < ids.len()
            invariant
                i <= ids@.len(),
                done + skipped == i,
                steps@.len() == i,
                removed@.len() == i,
                done == true_count(removed@),
                forall|k: int|
                    0 <= k < i ==> (#[trigger] removed@[k] ==> steps@[k] == seq![
                        Entry::Run(CATALOG_DELETE_SQL@, seq![ParamView::Int(ids@[k])]),
                    ]),
            decreases ids@.len() - i,
        {
            let mut step: Ghost<Seq<Entry>> = Ghost(Seq::empty());
            let outcome = self.remove_catalog_item_journaled(ids[i], &mut step);
            let ok = outcome.is_ok();
            if ok {
                done = done + 1;
            } else {
                skipped = skipped + 1;
            }
            let ghost prior_steps = steps@;
            let ghost prior = removed@;
            *steps = Ghost(steps@.push(step@));
            *removed = Ghost(removed@.push(ok));
            assert(removed@.drop_last() =~= prior);
            assert forall|k: int| 0 <= k < i + 1 && #[trigger] removed@[k] implies steps@[k]
                == seq![Entry::Run(CATALOG_DELETE_SQL@, seq![ParamView::Int(ids@[k])])] by {
                if k < i {
                    assert(removed@[k] == prior[k]);
                    assert(steps@[k] == prior_steps[k]);
                }
            }
            i = i + 1;
        }
        (done, skipped)
    }

    /// Adds the drafts in one transaction, skipping those that duplicate an
    /// active item (same code, or for code-less drafts the same kind, name
    /// and unit). Every draft is counted once, as added or as a duplicate.
    ///
    /// `import_catalog_items_journaled` states what it reads and runs.
    pub fn import_catalog_items(&self, drafts: &[CatalogDraft]) -> (r: Result<CatalogImportResult, DatabaseError>)
        ensures
            r matches Ok(res) ==> res.inserted + res.duplicates == drafts@.len(),
            r is Err ==> refused(r, "unable to generate a unique product sku"@) || store_failure(r),
    {
        let mut steps: Ghost<Seq<Seq<Entry>>> = Ghost(Seq::empty());
        self.import_catalog_items_journaled(drafts, &mut steps)
    }

    /// `import_catalog_items`, with what it read and ran, one journal per
    /// step: the transaction begun, then for each draft what
    /// `catalog_import_step` says, then the commit. A draft is counted as
    /// added when its insert changed a row, else as a duplicate.
    pub fn import_catalog_items_journaled(
        &self,
        drafts: &[CatalogDraft],
        steps: &mut Ghost<Seq<Seq<Entry>>>,
    ) -> (r: Result<CatalogImportResult, DatabaseError>)
        requires
            old(steps)@ == Seq::<Seq<Entry>>::empty(),
        ensures
            r matches Ok(res) ==> res.inserted + res.duplicates == drafts@.len() && final(steps)@.len()
                == drafts@.len() + 2 && final(steps)@[0] == seq![Entry::Begin] && final(steps)@[
                drafts@.len() as int + 1] == seq![Entry::Commit] && (forall|k: int|
                0 <= k < drafts@.len() ==> catalog_import_step(
                    drafts@[k],
                    #[trigger] final(steps)@[k + 1],
                )) && res.inserted == inserted_count(
                final(steps)@.subrange(1, drafts@.len() as int + 1),
            ),
            r is Err ==> refused(r, "unable to generate a unique product sku"@) || store_failure(r),
    {
        let mut opening: Ghost<Seq<Entry>> = Ghost(Seq::empty());
        let tx = begin_in(&self.connection, &mut opening)?;
        *steps = Ghost(Seq::empty().push(opening@));
        let mut result = CatalogImportResult { inserted: 0, duplicates: 0 };
        let mut i: usize = 0;
        while i < drafts.len()
            invariant
                i <= drafts@.len(),
                result.inserted + result.duplicates == i,
                steps@.len() == i + 1,
                steps@[0] == seq![Entry::Begin],
                forall|k: int| 0 <= k < i ==> catalog_import_step(drafts@[k], #[trigger] steps@[k + 1]),
                result.inserted == inserted_count(steps@.subrange(1, i + 1)),
            decreases drafts@.len() - i,
        {
            let draft = &drafts[i];
            let mut step: Ghost<Seq<Entry>> = Ghost(Seq::empty());
            let mut args = Vec::new();
            args.push(sql::opt_text(draft.sku.clone()));
            args.push(sql::text(draft.kind.clone()));
            args.push(sql::text(draft.name.clone()));
            args.push(sql::text(draft.unit.clone()));
            assert(params_view(args@) =~= duplicate_params(*draft));
            let duplicate = read_int_in(sql::within(&tx), DUPLICATE_SQL, args, &mut step)?;
            assert(step@ =~= seq![step@.last()]);
            let ghost read = step@;
            let mut inserted_now = false;
            if duplicate != 0 {
                result.duplicates = result.duplicates + 1;
            } else {
                let next_id = read_int_in(sql::within(&tx), NEXT_CATALOG_ID_SQL, Vec::new(), &mut step)?;
                assert(params_view(Seq::<sql::Param>::empty()) =~= Seq::<ParamView>::empty());
                let ghost counted = step@;
                let sku = resolved_sku(sql::within(&tx), draft.kind.as_str(), opt_as_str(&draft.sku), next_id, &mut step)?;
                let ghost chosen = step@;
                let changed = run_count_in(sql::within(&tx), CATALOG_INSERT_OR_SKIP_SQL, draft_args(draft, sku), &mut step)?;
                assert(step@.subrange(0, chosen.len() as int) =~= chosen);
                assert(step@[0] == read[0] && step@[1] == counted[1]) by {
                    assert(step@.subrange(0, 2) =~= counted);
                }
                assert(step@.subrange(2, step@.len() - 1) =~= chosen.subrange(2, chosen.len() as int));
                if changed == 0 {
                    result.duplicates = result.duplicates + 1;
                } else {
                    result.inserted = result.inserted + 1;
                    inserted_now = true;
                }
            }
            assert(catalog_import_step(*draft, step@));
            assert(step_inserted(step@) == inserted_now);
            let ghost prior = steps@;
            *steps = Ghost(steps@.push(step@));
            assert(steps@.subrange(1, i + 2).drop_last() =~= prior.subrange(1, i + 1));
            assert(steps@.subrange(1, i + 2).last() == step@);
            assert forall|k: int| 0 <= k < i + 1 implies catalog_import_step(
                drafts@[k],
                #[trigger] steps@[k + 1],
            ) by {
                if k < i {
                    assert(steps@[k + 1] == prior[k + 1]);
                }
            }
            i = i + 1;
        }
        let mut closing: Ghost<Seq<Entry>> = Ghost(Seq::empty());
        commit_in(tx, &mut closing)?;
        let ghost body = steps@;
        *steps = Ghost(steps@.push(closing@));
        assert(steps@.subrange(1, drafts@.len() as int + 1) =~= body.subrange(1, drafts@.len() as int + 1));
        assert forall|k: int| 0 <= k < drafts@.len() implies catalog_import_step(
            drafts@[k],
            #[trigger] steps@[k + 1],
        ) by {
            assert(steps@[k + 1] == body[k + 1]);
        }
        Ok(result)
    }
}

} // verus!
