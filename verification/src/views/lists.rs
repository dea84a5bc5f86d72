//! The rows of the lists that keep the store's order: movements,
//! warehouses, product choices and the fund screen; and the records an
//! export of the selection writes.

use vstd::prelude::*;

use super::rows::ids_contain;
use crate::database::{
    CatalogRecord, CustomerRecord, FundAccountRecord, FundCheckRecord, FundTransactionRecord,
    MovementRecord, StockRecord, WarehouseRecord,
};
use crate::forms::{format_amount, format_number, format_quantity, grouped, quantity_text, rial_suffix};
use crate::import::{
    account_kind_label, account_kind_label_of, direction_label, transaction_kind_label,
    transaction_kind_label_of,
};
use crate::text::{int_text, int_to_string, same_text};

verus! {

broadcast use vstd::string::group_string_axioms;

pub open spec fn amount_text(v: int) -> Seq<char> {
    grouped(int_text(v)) + rial_suffix()
}

/// An optional amount: the amount in rials, or a dash.
pub open spec fn optional_amount_text(v: Option<i64>) -> Seq<char> {
    match v {
        Some(x) => amount_text(x as int),
        None => "—"@,
    }
}

fn optional_amount(v: Option<i64>) -> (r: String)
    ensures
        r@ == optional_amount_text(v),
{
    match v {
        Some(x) => format_amount(x),
        None => String::from_str("—"),
    }
}

/// A movement as the history shows it.
#[derive(Debug, Clone, PartialEq, Eq)]
pub struct MovementRow {
    pub item_name: String,
    pub warehouse_name: String,
    pub quantity_label: String,
    pub increases_stock: bool,
    pub reference: String,
    pub occurred_on: String,
    pub unit_cost_label: String,
    pub total_cost_label: String,
}

pub open spec fn movement_row_shows(row: MovementRow, rec: MovementRecord) -> bool {
    &&& row.item_name@ == rec.item_name@
    &&& row.warehouse_name@ == rec.warehouse_name@
    &&& row.quantity_label@ == quantity_text(rec.quantity_milliunits as int)
    &&& row.increases_stock == rec.increases_stock
    &&& row.reference@ == rec.reference@
    &&& row.occurred_on@ == rec.occurred_on@
    &&& row.unit_cost_label@ == optional_amount_text(rec.unit_cost_minor)
    &&& row.total_cost_label@ == optional_amount_text(rec.total_cost_minor)
}

pub fn movement_rows(records: &[MovementRecord]) -> (r: Vec<MovementRow>)
    ensures
        r.len() == records.len(),
        forall|k: int| 0 <= k < r.len() ==> movement_row_shows(#[trigger] r@[k], records@[k]),
{
    let mut rows: Vec<MovementRow> = Vec::new();
    let mut k: usize = 0;
    while k < records.len()
        invariant
            k <= records.len(),
            rows.len() == k,
            forall|j: int| 0 <= j < k ==> movement_row_shows(#[trigger] rows@[j], records@[j]),
        decreases records.len() - k,
    {
        let rec = &records[k];
        rows.push(
            MovementRow {
                item_name: rec.item_name.clone(),
                warehouse_name: rec.warehouse_name.clone(),
                quantity_label: format_quantity(rec.quantity_milliunits),
                increases_stock: rec.increases_stock,
                reference: rec.reference.clone(),
                occurred_on: rec.occurred_on.clone(),
                unit_cost_label: optional_amount(rec.unit_cost_minor),
                total_cost_label: optional_amount(rec.total_cost_minor),
            },
        );
        k = k + 1;
    }
    rows
}

/// A warehouse as the list shows it.
#[derive(Debug, Clone, PartialEq, Eq)]
pub struct WarehouseRow {
    pub id: String,
    pub name: String,
    pub address: String,
    pub has_stock: bool,
}

pub open spec fn warehouse_row_shows(row: WarehouseRow, rec: WarehouseRecord) -> bool {
    &&& row.id@ == int_text(rec.id as int)
    &&& row.name@ == rec.name@
    &&& row.address@ == rec.address@
    &&& row.has_stock == rec.has_stock
}

pub fn warehouse_rows(records: &[WarehouseRecord]) -> (r: Vec<WarehouseRow>)
    ensures
        r.len() == records.len(),
        forall|k: int| 0 <= k < r.len() ==> warehouse_row_shows(#[trigger] r@[k], records@[k]),
{
    let mut rows: Vec<WarehouseRow> = Vec::new();
    let mut k: usize = 0;
    while k < records.len()
        invariant
            k <= records.len(),
            rows.len() == k,
            forall|j: int| 0 <= j < k ==> warehouse_row_shows(#[trigger] rows@[j], records@[j]),
        decreases records.len() - k,
    {
        let rec = &records[k];
        rows.push(
            WarehouseRow {
                id: int_to_string(rec.id),
                name: rec.name.clone(),
                address: rec.address.clone(),
                has_stock: rec.has_stock,
            },
        );
        k = k + 1;
    }
    rows
}

/// A product offered in a search box: its id, name, and code (or a note
/// that it has none).
#[derive(Debug, Clone, PartialEq, Eq)]
pub struct ProductOption {
    pub id: String,
    pub label: String,
    pub detail: String,
}

pub open spec fn product_option_shows(row: ProductOption, rec: (i64, String, String)) -> bool {
    &&& row.id@ == int_text(rec.0 as int)
    &&& row.label@ == rec.1@
    &&& row.detail@ == if rec.2@.len() == 0 {
        "بدون کد"@
    } else {
        rec.2@
    }
}

pub fn product_options(records: &[(i64, String, String)]) -> (r: Vec<ProductOption>)
    ensures
        r.len() == records.len(),
        forall|k: int| 0 <= k < r.len() ==> product_option_shows(#[trigger] r@[k], records@[k]),
{
    let mut rows: Vec<ProductOption> = Vec::new();
    let mut k: usize = 0;
    while k < records.len()
        invariant
            k <= records.len(),
            rows.len() == k,
            forall|j: int| 0 <= j < k ==> product_option_shows(#[trigger] rows@[j], records@[j]),
        decreases records.len() - k,
    {
        let rec = &records[k];
        let detail = if rec.2.as_str().is_empty() {
            String::from_str("بدون کد")
        } else {
            rec.2.clone()
        };
        rows.push(ProductOption { id: int_to_string(rec.0), label: rec.1.clone(), detail });
        k = k + 1;
    }
    rows
}

/// A fund account as the fund screen shows it.
#[derive(Debug, Clone, PartialEq, Eq)]
pub struct FundAccountRow {
    pub id: String,
    pub name: String,
    pub kind_label: String,
    pub account_number: String,
    pub opening_value: String,
    pub balance_label: String,
}

pub open spec fn fund_account_row_shows(row: FundAccountRow, rec: FundAccountRecord) -> bool {
    &&& row.id@ == int_text(rec.id as int)
    &&& row.name@ == rec.name@
    &&& row.kind_label@ == account_kind_label(rec.kind@)
    &&& row.account_number@ == rec.account_number@
    &&& row.opening_value@ == grouped(int_text(rec.opening_balance_minor as int))
    &&& row.balance_label@ == amount_text(rec.balance_minor as int)
}

pub fn fund_account_rows(records: &[FundAccountRecord]) -> (r: Vec<FundAccountRow>)
    ensures
        r.len() == records.len(),
        forall|k: int| 0 <= k < r.len() ==> fund_account_row_shows(#[trigger] r@[k], records@[k]),
{
    let mut rows: Vec<FundAccountRow> = Vec::new();
    let mut k: usize = 0;
    while k < records.len()
        invariant
            k <= records.len(),
            rows.len() == k,
            forall|j: int| 0 <= j < k ==> fund_account_row_shows(#[trigger] rows@[j], records@[j]),
        decreases records.len() - k,
    {
        let rec = &records[k];
        rows.push(
            FundAccountRow {
                id: int_to_string(rec.id),
                name: rec.name.clone(),
                kind_label: String::from_str(account_kind_label_of(rec.kind.as_str())),
                account_number: rec.account_number.clone(),
                opening_value: format_number(rec.opening_balance_minor),
                balance_label: format_amount(rec.balance_minor),
            },
        );
        k = k + 1;
    }
    rows
}

/// A transaction as the fund screen shows it; a transfer names both
/// accounts, `from ← to`.
#[derive(Debug, Clone, PartialEq, Eq)]
pub struct FundTransactionRow {
    pub id: String,
    pub kind_label: String,
    pub account_label: String,
    pub amount_label: String,
    pub category: String,
    pub occurred_on: String,
    pub reference: String,
}

pub open spec fn accounts_text(account: Seq<char>, transfer: Seq<char>) -> Seq<char> {
    if transfer.len() == 0 {
        account
    } else {
        account + " ← "@ + transfer
    }
}

pub open spec fn fund_transaction_row_shows(row: FundTransactionRow, rec: FundTransactionRecord) -> bool {
    &&& row.id@ == int_text(rec.id as int)
    &&& row.kind_label@ == transaction_kind_label(rec.kind@)
    &&& row.account_label@ == accounts_text(rec.account_name@, rec.transfer_account_name@)
    &&& row.amount_label@ == amount_text(rec.amount_minor as int)
    &&& row.category@ == rec.category@
    &&& row.occurred_on@ == rec.occurred_on@
    &&& row.reference@ == rec.reference@
}

pub fn fund_transaction_rows(records: &[FundTransactionRecord]) -> (r: Vec<FundTransactionRow>)
    ensures
        r.len() == records.len(),
        forall|k: int|
            0 <= k < r.len() ==> fund_transaction_row_shows(#[trigger] r@[k], records@[k]),
{
    let mut rows: Vec<FundTransactionRow> = Vec::new();
    let mut k: usize = 0;
    while k < records.len()
        invariant
            k <= records.len(),
            rows.len() == k,
            forall|j: int|
                0 <= j < k ==> fund_transaction_row_shows(#[trigger] rows@[j], records@[j]),
        decreases records.len() - k,
    {
        let rec = &records[k];
        let account_label = if rec.transfer_account_name.as_str().is_empty() {
            rec.account_name.clone()
        } else {
            let mut label = rec.account_name.clone();
            label.append(" ← ");
            label.append(rec.transfer_account_name.as_str());
            label
        };
        rows.push(
            FundTransactionRow {
                id: int_to_string(rec.id),
                kind_label: String::from_str(transaction_kind_label_of(rec.kind.as_str())),
                account_label,
                amount_label: format_amount(rec.amount_minor),
                category: rec.category.clone(),
                occurred_on: rec.occurred_on.clone(),
                reference: rec.reference.clone(),
            },
        );
        k = k + 1;
    }
    rows
}

/// A scheduled item as the fund screen shows it.
#[derive(Debug, Clone, PartialEq, Eq)]
pub struct FundCheckRow {
    pub id: String,
    pub direction_label: String,
    pub party_name: String,
    pub account_name: String,
    pub check_number: String,
    pub bank_name: String,
    pub amount_label: String,
    pub due_on: String,
    pub status_code: String,
    pub status_label: String,
}

pub open spec fn status_label(status: Seq<char>) -> Seq<char> {
    if status == "upcoming"@ {
        "در انتظار"@
    } else if status == "cleared"@ {
        "وصول/پرداخت‌شده"@
    } else if status == "returned"@ {
        "برگشتی"@
    } else {
        "لغوشده"@
    }
}

fn status_label_of(status: &str) -> (r: &'static str)
    ensures
        r@ == status_label(status@),
{
    if same_text(status, "upcoming") {
        "در انتظار"
    } else if same_text(status, "cleared") {
        "وصول/پرداخت‌شده"
    } else if same_text(status, "returned") {
        "برگشتی"
    } else {
        "لغوشده"
    }
}

pub open spec fn fund_check_row_shows(row: FundCheckRow, rec: FundCheckRecord) -> bool {
    &&& row.id@ == int_text(rec.id as int)
    &&& row.direction_label@ == direction_label(rec.direction@)
    &&& row.party_name@ == rec.party_name@
    &&& row.account_name@ == rec.account_name@
    &&& row.check_number@ == rec.check_number@
    &&& row.bank_name@ == rec.bank_name@
    &&& row.amount_label@ == amount_text(rec.amount_minor as int)
    &&& row.due_on@ == rec.due_on@
    &&& row.status_code@ == rec.status@
    &&& row.status_label@ == status_label(rec.status@)
}

pub fn fund_check_rows(records: &[FundCheckRecord]) -> (r: Vec<FundCheckRow>)
    ensures
        r.len() == records.len(),
        forall|k: int| 0 <= k < r.len() ==> fund_check_row_shows(#[trigger] r@[k], records@[k]),
{
    let mut rows: Vec<FundCheckRow> = Vec::new();
    let mut k: usize = 0;
    while k < records.len()
        invariant
            k <= records.len(),
            rows.len() == k,
            forall|j: int| 0 <= j < k ==> fund_check_row_shows(#[trigger] rows@[j], records@[j]),
        decreases records.len() - k,
    {
        let rec = &records[k];
        let direction = if same_text(rec.direction.as_str(), "incoming") {
            "دریافتی"
        } else {
            "پرداختی"
        };
        rows.push(
            FundCheckRow {
                id: int_to_string(rec.id),
                direction_label: String::from_str(direction),
                party_name: rec.party_name.clone(),
                account_name: rec.account_name.clone(),
                check_number: rec.check_number.clone(),
                bank_name: rec.bank_name.clone(),
                amount_label: format_amount(rec.amount_minor),
                due_on: rec.due_on.clone(),
                status_code: rec.status.clone(),
                status_label: String::from_str(status_label_of(rec.status.as_str())),
            },
        );
        k = k + 1;
    }
    rows
}

// ---------------------------------------------------------------------
// Exporting the selection
// ---------------------------------------------------------------------

/// The records whose key is selected, in order.
pub open spec fn chosen<T>(records: Seq<T>, key: spec_fn(T) -> i64, ids: Seq<i64>) -> Seq<T>
    decreases records.len(),
{
    if records.len() == 0 {
        Seq::empty()
    } else {
        let rest = chosen(records.drop_last(), key, ids);
        if ids.contains(key(records.last())) {
            rest.push(records.last())
        } else {
            rest
        }
    }
}

pub open spec fn catalog_id() -> spec_fn(CatalogRecord) -> i64 {
    |r: CatalogRecord| r.id
}

pub open spec fn customer_id() -> spec_fn(CustomerRecord) -> i64 {
    |r: CustomerRecord| r.id
}

pub open spec fn layer_id() -> spec_fn(StockRecord) -> i64 {
    |r: StockRecord| r.cost_layer_id
}

/// The catalog items to export when only the selection is exported.
pub fn selected_catalog(records: Vec<CatalogRecord>, ids: &Vec<i64>) -> (r: Vec<CatalogRecord>)
    ensures
        r@ == chosen(records@, catalog_id(), ids@),
{
    let ghost all = records@;
    let mut rest = records;
    let mut out: Vec<CatalogRecord> = Vec::new();
    let ghost mut i: int = 0;
    assert(all.take(0) =~= Seq::<CatalogRecord>::empty());
    assert(all.skip(0) =~= all);
    while rest.len() > 0
        invariant
            0 <= i <= all.len(),
            rest@ == all.skip(i),
            out@ == chosen(all.take(i), catalog_id(), ids@),
        decreases rest.len(),
    {
        let record = rest.remove(0);
        proof {
            assert(all.take(i + 1).drop_last() =~= all.take(i));
            assert(all.take(i + 1).last() == record);
            assert(rest@ =~= all.skip(i + 1));
            i = i + 1;
        }
        if ids_contain(ids, record.id) {
            out.push(record);
        }
    }
    assert(all.take(i) =~= all);
    out
}

/// The customers to export when only the selection is exported.
pub fn selected_customers(records: Vec<CustomerRecord>, ids: &Vec<i64>) -> (r: Vec<CustomerRecord>)
    ensures
        r@ == chosen(records@, customer_id(), ids@),
{
    let ghost all = records@;
    let mut rest = records;
    let mut out: Vec<CustomerRecord> = Vec::new();
    let ghost mut i: int = 0;
    assert(all.take(0) =~= Seq::<CustomerRecord>::empty());
    assert(all.skip(0) =~= all);
    while rest.len() > 0
        invariant
            0 <= i <= all.len(),
            rest@ == all.skip(i),
            out@ == chosen(all.take(i), customer_id(), ids@),
        decreases rest.len(),
    {
        let record = rest.remove(0);
        proof {
            assert(all.take(i + 1).drop_last() =~= all.take(i));
            assert(all.take(i + 1).last() == record);
            assert(rest@ =~= all.skip(i + 1));
            i = i + 1;
        }
        if ids_contain(ids, record.id) {
            out.push(record);
        }
    }
    assert(all.take(i) =~= all);
    out
}

/// The cost layers to export when only the selection is exported.
pub fn selected_stock(records: Vec<StockRecord>, ids: &Vec<i64>) -> (r: Vec<StockRecord>)
    ensures
        r@ == chosen(records@, layer_id(), ids@),
{
    let ghost all = records@;
    let mut rest = records;
    let mut out: Vec<StockRecord> = Vec::new();
    let ghost mut i: int = 0;
    assert(all.take(0) =~= Seq::<StockRecord>::empty());
    assert(all.skip(0) =~= all);
    while rest.len() > 0
        invariant
            0 <= i <= all.len(),
            rest@ == all.skip(i),
            out@ == chosen(all.take(i), layer_id(), ids@),
        decreases rest.len(),
    {
        let record = rest.remove(0);
        proof {
            assert(all.take(i + 1).drop_last() =~= all.take(i));
            assert(all.take(i + 1).last() == record);
            assert(rest@ =~= all.skip(i + 1));
            i = i + 1;
        }
        if ids_contain(ids, record.cost_layer_id) {
            out.push(record);
        }
    }
    assert(all.take(i) =~= all);
    out
}


/// Exporting the selection keeps exactly the selected records: a record is
/// kept when, and only when, it is one of the list and its key is selected,
/// and no more are kept than the list holds.
pub proof fn chosen_keeps_the_selection<T>(records: Seq<T>, key: spec_fn(T) -> i64, ids: Seq<i64>)
    ensures
        forall|x: T|
            #[trigger] chosen(records, key, ids).contains(x) <==> (records.contains(x)
                && ids.contains(key(x))),
        chosen(records, key, ids).len() <= records.len(),
    decreases records.len(),
{
    if records.len() > 0 {
        let rest = records.drop_last();
        let last = records.last();
        chosen_keeps_the_selection(rest, key, ids);
        let c = chosen(records, key, ids);
        let cr = chosen(rest, key, ids);
        let keep = ids.contains(key(last));
        assert forall|x: T| #[trigger] c.contains(x) implies records.contains(x) && ids.contains(
            key(x),
        ) by {
            let k = choose|k: int| 0 <= k < c.len() && c[k] == x;
            if keep {
                assert(c == cr.push(last));
                if k == cr.len() {
                    assert(records[records.len() - 1] == x);
                } else {
                    assert(c[k] == cr[k]);
                    assert(cr.contains(x));
                }
            } else {
                assert(c == cr);
                assert(cr.contains(x));
            }
            if cr.contains(x) {
                let m = choose|m: int| 0 <= m < rest.len() && rest[m] == x;
                assert(records[m] == x);
            }
        }
        assert forall|x: T| records.contains(x) && ids.contains(key(x)) implies #[trigger] c.contains(
            x,
        ) by {
            let m = choose|m: int| 0 <= m < records.len() && records[m] == x;
            if m == records.len() - 1 {
                assert(keep);
                assert(c == cr.push(last));
                assert(c[c.len() - 1] == x);
            } else {
                assert(rest[m] == x);
                assert(rest.contains(x));
                assert(cr.contains(x));
                let k = choose|k: int| 0 <= k < cr.len() && cr[k] == x;
                if keep {
                    assert(c == cr.push(last));
                    assert(c[k] == x);
                } else {
                    assert(c == cr);
                }
            }
        }
    }
}

} // verus!
