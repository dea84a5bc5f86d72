//! The rows the lists of the screens show: every record with its labels and
//! formatted amounts, in the order the user picked, marked when selected.

use vstd::prelude::*;

use super::order::{
    goes_before, indices, key_views, order_holds_every_row_once, order_is_sorted, sort_order,
    stable_order, text_le, uniform, KeyView, SortKey,
};
use crate::database::{
    CatalogRecord, CustomerRecord, FundAccountRecord, FundCheckRecord, FundTransactionRecord,
    MovementRecord, StockRecord, WarehouseRecord,
};
use crate::forms::{
    balance_label, balance_text, format_amount, format_number, format_quantity, grouped,
    quantity_text, rial_suffix, unit_label, unit_name,
};
use crate::import::{
    account_kind_label, account_kind_label_of, catalog_kind_label, customer_kind_label,
    direction_label, transaction_kind_label, transaction_kind_label_of,
};
use crate::text::{int_text, int_to_string, same_text};

verus! {

broadcast use vstd::string::group_string_axioms;

/// The lower-case form of a text as `str::to_lowercase` gives it (Unicode's
/// case mapping, which depends on the text alone).
pub uninterp spec fn lowercase(s: Seq<char>) -> Seq<char>;

/// Calls `str::to_lowercase`; its result is named `lowercase`.
#[verifier::external_body]
fn to_lowercase(s: &str) -> (r: String)
    ensures
        r@ == lowercase(s@),
{
    s.to_lowercase()
}

/// The rows in the order they came.
pub open spec fn natural_order(n: int) -> Seq<int> {
    Seq::new(n as nat, |i: int| i)
}

fn natural(n: usize) -> (r: Vec<usize>)
    ensures
        indices(r@) == natural_order(n as int),
        r.len() == n,
        forall|k: int| 0 <= k < n ==> #[trigger] r@[k] == k,
{
    let mut out: Vec<usize> = Vec::new();
    let mut i: usize = 0;
    while i < n
        invariant
            i <= n,
            out.len() == i,
            forall|k: int| 0 <= k < i ==> #[trigger] out@[k] == k,
        decreases n - i,
    {
        out.push(i);
        i = i + 1;
    }
    assert(indices(out@) =~= natural_order(n as int));
    out
}

pub fn ids_contain(ids: &Vec<i64>, id: i64) -> (r: bool)
    ensures
        r == ids@.contains(id),
{
    let mut i: usize = 0;
    while i < ids.len()
        invariant
            i <= ids.len(),
            forall|k: int| 0 <= k < i ==> ids@[k] != id,
        decreases ids.len() - i,
    {
        if ids[i] == id {
            assert(ids@[i as int] == id);
            return true;
        }
        i = i + 1;
    }
    false
}

// ---------------------------------------------------------------------
// Catalog
// ---------------------------------------------------------------------

/// A catalog item as the list shows it.
#[derive(Debug, Clone, PartialEq, Eq)]
pub struct CatalogRow {
    pub id: String,
    pub name: String,
    pub sku: String,
    pub kind_code: String,
    pub kind_label: String,
    pub unit_code: String,
    pub unit_label: String,
    pub price_label: String,
    pub price_value: String,
    pub selected: bool,
}

pub open spec fn catalog_row_shows(row: CatalogRow, rec: CatalogRecord, selection: Seq<i64>) -> bool {
    &&& row.id@ == int_text(rec.id as int)
    &&& row.name@ == rec.name@
    &&& row.sku@ == rec.sku@
    &&& row.kind_code@ == rec.kind@
    &&& row.kind_label@ == catalog_kind_label(rec.kind@)
    &&& row.unit_code@ == rec.unit@
    &&& row.unit_label@ == unit_name(rec.unit@)
    &&& row.price_label@ == grouped(int_text(rec.sale_price_minor as int)) + rial_suffix()
    &&& row.price_value@ == grouped(int_text(rec.sale_price_minor as int))
    &&& row.selected == selection.contains(rec.id)
}

/// The keys of the catalog orders: the name (case folded) for 1 and 2, the
/// price for the others.
pub open spec fn catalog_keys(records: Seq<CatalogRecord>, sort: int) -> Seq<KeyView> {
    Seq::new(
        records.len(),
        |i: int|
            if sort <= 2 {
                KeyView::Text(lowercase(records[i].name@))
            } else {
                KeyView::Int(records[i].sale_price_minor)
            },
    )
}

/// The catalog orders: 1 by name, 2 by name falling, 3 by price, 4 by
/// price falling, anything else as listed.
pub open spec fn catalog_order(records: Seq<CatalogRecord>, sort: int) -> Seq<int> {
    if 1 <= sort <= 4 {
        stable_order(catalog_keys(records, sort), records.len() as int, sort == 2 || sort == 4)
    } else {
        natural_order(records.len() as int)
    }
}

fn catalog_arrangement(records: &Vec<CatalogRecord>, sort: i32) -> (r: Vec<usize>)
    ensures
        indices(r@) == catalog_order(records@, sort as int),
        r.len() == records.len(),
        forall|k: int| 0 <= k < r.len() ==> #[trigger] r@[k] < records.len(),
{
    if sort < 1 || sort > 4 {
        return natural(records.len());
    }
    let mut keys: Vec<SortKey> = Vec::new();
    let mut i: usize = 0;
    while i < records.len()
        invariant
            1 <= sort <= 4,
            i <= records.len(),
            keys.len() == i,
            forall|k: int| 0 <= k < i ==> (#[trigger] keys@[k])@ == catalog_keys(records@, sort as int)[k],
        decreases records.len() - i,
    {
        if sort <= 2 {
            keys.push(SortKey::Text(to_lowercase(records[i].name.as_str())));
        } else {
            keys.push(SortKey::Int(records[i].sale_price_minor));
        }
        i = i + 1;
    }
    assert(key_views(keys@) =~= catalog_keys(records@, sort as int));
    sort_order(&keys, sort == 2 || sort == 4)
}

fn catalog_row(rec: &CatalogRecord, selection: &Vec<i64>) -> (r: CatalogRow)
    ensures
        catalog_row_shows(r, *rec, selection@),
{
    let kind = if same_text(rec.kind.as_str(), "product") {
        "کالا"
    } else {
        "خدمت"
    };
    CatalogRow {
        id: int_to_string(rec.id),
        name: rec.name.clone(),
        sku: rec.sku.clone(),
        kind_code: rec.kind.clone(),
        kind_label: String::from_str(kind),
        unit_code: rec.unit.clone(),
        unit_label: String::from_str(unit_label(rec.unit.as_str())),
        price_label: format_amount(rec.sale_price_minor),
        price_value: format_number(rec.sale_price_minor),
        selected: ids_contain(selection, rec.id),
    }
}

/// The catalog list: a row per record, in the order picked by `sort`.
pub fn catalog_rows(records: &Vec<CatalogRecord>, sort: i32, selection: &Vec<i64>) -> (r: Vec<
    CatalogRow,
>)
    ensures
        r.len() == records.len(),
        forall|k: int|
            0 <= k < r.len() ==> 0 <= catalog_order(records@, sort as int)[k] < records.len()
                && catalog_row_shows(
                #[trigger] r@[k],
                records@[catalog_order(records@, sort as int)[k]],
                selection@,
            ),
{
    let order = catalog_arrangement(records, sort);
    let ghost o = indices(order@);
    let mut rows: Vec<CatalogRow> = Vec::new();
    let mut k: usize = 0;
    while k < order.len()
        invariant
            k <= order.len() == records.len(),
            o == indices(order@),
            o == catalog_order(records@, sort as int),
            forall|j: int| 0 <= j < order.len() ==> #[trigger] order@[j] < records.len(),
            rows.len() == k,
            forall|j: int|
                0 <= j < k ==> 0 <= o[j] < records.len() && catalog_row_shows(
                    #[trigger] rows@[j],
                    records@[o[j]],
                    selection@,
                ),
        decreases order.len() - k,
    {
        assert(o[k as int] == order@[k as int] as int);
        rows.push(catalog_row(&records[order[k]], selection));
        k = k + 1;
    }
    rows
}

// ---------------------------------------------------------------------
// Customers
// ---------------------------------------------------------------------

/// A customer as the list shows it.
#[derive(Debug, Clone, PartialEq, Eq)]
pub struct CustomerRow {
    pub id: String,
    pub name: String,
    pub kind_code: String,
    pub kind_label: String,
    pub phone: String,
    pub email: String,
    pub address: String,
    pub balance_label: String,
    pub balance_status_code: String,
    pub selected: bool,
}

/// The status of a balance: owed, owed back or settled.
pub open spec fn balance_status(balance: int) -> Seq<char> {
    if balance > 0 {
        "debit"@
    } else if balance < 0 {
        "credit"@
    } else {
        "settled"@
    }
}

pub open spec fn customer_row_shows(row: CustomerRow, rec: CustomerRecord, selection: Seq<i64>) -> bool {
    &&& row.id@ == int_text(rec.id as int)
    &&& row.name@ == rec.name@
    &&& row.kind_code@ == rec.kind@
    &&& row.kind_label@ == customer_kind_label(rec.kind@)
    &&& row.phone@ == rec.phone@
    &&& row.email@ == rec.email@
    &&& row.address@ == rec.address@
    &&& row.balance_label@ == balance_text(rec.balance_minor as int)
    &&& row.balance_status_code@ == balance_status(rec.balance_minor as int)
    &&& row.selected == selection.contains(rec.id)
}

/// The keys of the customer orders: the name (case folded) for 1 and 2, the
/// balance for the others.
pub open spec fn customer_keys(records: Seq<CustomerRecord>, sort: int) -> Seq<KeyView> {
    Seq::new(
        records.len(),
        |i: int|
            if sort <= 2 {
                KeyView::Text(lowercase(records[i].name@))
            } else {
                KeyView::Int(records[i].balance_minor)
            },
    )
}

/// The customer orders: 1 by name, 2 by name falling, 3 by balance
/// falling, 4 by balance, anything else as listed.
pub open spec fn customer_order(records: Seq<CustomerRecord>, sort: int) -> Seq<int> {
    if 1 <= sort <= 4 {
        stable_order(customer_keys(records, sort), records.len() as int, sort == 2 || sort == 3)
    } else {
        natural_order(records.len() as int)
    }
}

fn customer_arrangement(records: &Vec<CustomerRecord>, sort: i32) -> (r: Vec<usize>)
    ensures
        indices(r@) == customer_order(records@, sort as int),
        r.len() == records.len(),
        forall|k: int| 0 <= k < r.len() ==> #[trigger] r@[k] < records.len(),
{
    if sort < 1 || sort > 4 {
        return natural(records.len());
    }
    let mut keys: Vec<SortKey> = Vec::new();
    let mut i: usize = 0;
    while i < records.len()
        invariant
            1 <= sort <= 4,
            i <= records.len(),
            keys.len() == i,
            forall|k: int| 0 <= k < i ==> (#[trigger] keys@[k])@ == customer_keys(records@, sort as int)[k],
        decreases records.len() - i,
    {
        if sort <= 2 {
            keys.push(SortKey::Text(to_lowercase(records[i].name.as_str())));
        } else {
            keys.push(SortKey::Int(records[i].balance_minor));
        }
        i = i + 1;
    }
    assert(key_views(keys@) =~= customer_keys(records@, sort as int));
    sort_order(&keys, sort == 2 || sort == 3)
}

fn customer_row(rec: &CustomerRecord, selection: &Vec<i64>) -> (r: CustomerRow)
    requires
        rec.balance_minor != i64::MIN,
    ensures
        customer_row_shows(r, *rec, selection@),
{
    let kind = if same_text(rec.kind.as_str(), "individual") {
        "حقیقی"
    } else {
        "حقوقی"
    };
    let status = if rec.balance_minor > 0 {
        "debit"
    } else if rec.balance_minor < 0 {
        "credit"
    } else {
        "settled"
    };
    CustomerRow {
        id: int_to_string(rec.id),
        name: rec.name.clone(),
        kind_code: rec.kind.clone(),
        kind_label: String::from_str(kind),
        phone: rec.phone.clone(),
        email: rec.email.clone(),
        address: rec.address.clone(),
        balance_label: balance_label(rec.balance_minor),
        balance_status_code: String::from_str(status),
        selected: ids_contain(selection, rec.id),
    }
}

/// The customer list: a row per record, in the order picked by `sort`.
pub fn customer_rows(records: &Vec<CustomerRecord>, sort: i32, selection: &Vec<i64>) -> (r: Vec<
    CustomerRow,
>)
    requires
        forall|i: int| 0 <= i < records.len() ==> #[trigger] records@[i].balance_minor != i64::MIN,
    ensures
        r.len() == records.len(),
        forall|k: int|
            0 <= k < r.len() ==> 0 <= customer_order(records@, sort as int)[k] < records.len()
                && customer_row_shows(
                #[trigger] r@[k],
                records@[customer_order(records@, sort as int)[k]],
                selection@,
            ),
{
    let order = customer_arrangement(records, sort);
    let ghost o = indices(order@);
    let mut rows: Vec<CustomerRow> = Vec::new();
    let mut k: usize = 0;
    while k < order.len()
        invariant
            k <= order.len() == records.len(),
            o == indices(order@),
            o == customer_order(records@, sort as int),
            forall|j: int| 0 <= j < order.len() ==> #[trigger] order@[j] < records.len(),
            forall|i: int| 0 <= i < records.len() ==> #[trigger] records@[i].balance_minor != i64::MIN,
            rows.len() == k,
            forall|j: int|
                0 <= j < k ==> 0 <= o[j] < records.len() && customer_row_shows(
                    #[trigger] rows@[j],
                    records@[o[j]],
                    selection@,
                ),
        decreases order.len() - k,
    {
        assert(o[k as int] == order@[k as int] as int);
        rows.push(customer_row(&records[order[k]], selection));
        k = k + 1;
    }
    rows
}

// ---------------------------------------------------------------------
// Stock
// ---------------------------------------------------------------------

/// A cost layer as the stock list shows it. The quantities are kept as
/// numbers too, for the bar that shows how much of the layer is left.
#[derive(Debug, Clone, PartialEq, Eq)]
pub struct StockRow {
    pub cost_layer_id: String,
    pub warehouse_id: String,
    pub item_id: String,
    pub item_name: String,
    pub sku: String,
    pub warehouse_name: String,
    pub warehouse_index: i32,
    pub unit_label: String,
    pub quantity_label: String,
    pub received_quantity_label: String,
    pub quantity_value: String,
    pub inventory_value_label: String,
    pub unit_cost_label: String,
    pub unit_cost_value: String,
    pub quantity_milliunits: i64,
    pub acquired_quantity_milliunits: i64,
    pub selected: bool,
}

/// The position of the first warehouse with this id, or 0.
pub open spec fn warehouse_position(warehouses: Seq<WarehouseRecord>, id: i64, from: int) -> int
    decreases warehouses.len() - from,
{
    if from < 0 || from >= warehouses.len() {
        0
    } else if warehouses[from].id == id {
        from
    } else {
        warehouse_position(warehouses, id, from + 1)
    }
}

pub open spec fn stock_row_shows(
    row: StockRow,
    rec: StockRecord,
    warehouses: Seq<WarehouseRecord>,
    selection: Seq<i64>,
) -> bool {
    &&& row.cost_layer_id@ == int_text(rec.cost_layer_id as int)
    &&& row.warehouse_id@ == int_text(rec.warehouse_id as int)
    &&& row.item_id@ == int_text(rec.item_id as int)
    &&& row.item_name@ == rec.item_name@
    &&& row.sku@ == rec.sku@
    &&& row.warehouse_name@ == rec.warehouse_name@
    &&& row.warehouse_index == warehouse_position(warehouses, rec.warehouse_id, 0) as i32
    &&& row.unit_label@ == unit_name(rec.unit@)
    &&& row.quantity_label@ == quantity_text(rec.quantity_milliunits as int)
    &&& row.received_quantity_label@ == quantity_text(rec.acquired_quantity_milliunits as int)
    &&& row.quantity_value@ == quantity_text(rec.quantity_milliunits as int)
    &&& row.inventory_value_label@ == grouped(int_text(rec.inventory_value_minor as int))
        + rial_suffix()
    &&& row.unit_cost_label@ == grouped(int_text(rec.unit_cost_minor as int)) + rial_suffix()
    &&& row.unit_cost_value@ == grouped(int_text(rec.unit_cost_minor as int))
    &&& row.quantity_milliunits == rec.quantity_milliunits
    &&& row.acquired_quantity_milliunits == rec.acquired_quantity_milliunits
    &&& row.selected == selection.contains(rec.cost_layer_id)
}

/// The keys of the stock orders: 1 the item name (case folded), 2 and 3 the
/// quantity, 4 and 5 the unit cost, anything else the layer id.
pub open spec fn stock_keys(records: Seq<StockRecord>, sort: int) -> Seq<KeyView> {
    Seq::new(
        records.len(),
        |i: int|
            if sort == 1 {
                KeyView::Text(lowercase(records[i].item_name@))
            } else if sort == 2 || sort == 3 {
                KeyView::Int(records[i].quantity_milliunits)
            } else if sort == 4 || sort == 5 {
                KeyView::Int(records[i].unit_cost_minor)
            } else {
                KeyView::Int(records[i].cost_layer_id)
            },
    )
}

/// The stock orders: 1 by item name, 2 by quantity, 3 by quantity falling,
/// 4 by unit cost, 5 by unit cost falling, anything else newest layer first.
pub open spec fn stock_order(records: Seq<StockRecord>, sort: int) -> Seq<int> {
    stable_order(
        stock_keys(records, sort),
        records.len() as int,
        !(sort == 1 || sort == 2 || sort == 4),
    )
}

fn stock_arrangement(records: &Vec<StockRecord>, sort: i32) -> (r: Vec<usize>)
    ensures
        indices(r@) == stock_order(records@, sort as int),
        r.len() == records.len(),
        forall|k: int| 0 <= k < r.len() ==> #[trigger] r@[k] < records.len(),
{
    let mut keys: Vec<SortKey> = Vec::new();
    let mut i: usize = 0;
    while i < records.len()
        invariant
            i <= records.len(),
            keys.len() == i,
            forall|k: int| 0 <= k < i ==> (#[trigger] keys@[k])@ == stock_keys(records@, sort as int)[k],
        decreases records.len() - i,
    {
        if sort == 1 {
            keys.push(SortKey::Text(to_lowercase(records[i].item_name.as_str())));
        } else if sort == 2 || sort == 3 {
            keys.push(SortKey::Int(records[i].quantity_milliunits));
        } else if sort == 4 || sort == 5 {
            keys.push(SortKey::Int(records[i].unit_cost_minor));
        } else {
            keys.push(SortKey::Int(records[i].cost_layer_id));
        }
        i = i + 1;
    }
    assert(key_views(keys@) =~= stock_keys(records@, sort as int));
    sort_order(&keys, !(sort == 1 || sort == 2 || sort == 4))
}

fn warehouse_index_of(warehouses: &[WarehouseRecord], id: i64) -> (r: usize)
    ensures
        r == warehouse_position(warehouses@, id, 0),
{
    let mut i: usize = 0;
    while i < warehouses.len()
        invariant
            i <= warehouses.len(),
            warehouse_position(warehouses@, id, 0) == warehouse_position(warehouses@, id, i as int),
        decreases warehouses.len() - i,
    {
        if warehouses[i].id == id {
            return i;
        }
        i = i + 1;
    }
    0
}

fn stock_row(rec: &StockRecord, warehouses: &[WarehouseRecord], selection: &Vec<i64>) -> (r: StockRow)
    ensures
        stock_row_shows(r, *rec, warehouses@, selection@),
{
    StockRow {
        cost_layer_id: int_to_string(rec.cost_layer_id),
        warehouse_id: int_to_string(rec.warehouse_id),
        item_id: int_to_string(rec.item_id),
        item_name: rec.item_name.clone(),
        sku: rec.sku.clone(),
        warehouse_name: rec.warehouse_name.clone(),
        warehouse_index: warehouse_index_of(warehouses, rec.warehouse_id) as i32,
        unit_label: String::from_str(unit_label(rec.unit.as_str())),
        quantity_label: format_quantity(rec.quantity_milliunits),
        received_quantity_label: format_quantity(rec.acquired_quantity_milliunits),
        quantity_value: format_quantity(rec.quantity_milliunits),
        inventory_value_label: format_amount(rec.inventory_value_minor),
        unit_cost_label: format_amount(rec.unit_cost_minor),
        unit_cost_value: format_number(rec.unit_cost_minor),
        quantity_milliunits: rec.quantity_milliunits,
        acquired_quantity_milliunits: rec.acquired_quantity_milliunits,
        selected: ids_contain(selection, rec.cost_layer_id),
    }
}

/// The stock list: a row per cost layer, in the order picked by `sort`.
pub fn stock_rows(
    records: &Vec<StockRecord>,
    warehouses: &[WarehouseRecord],
    sort: i32,
    selection: &Vec<i64>,
) -> (r: Vec<StockRow>)
    ensures
        r.len() == records.len(),
        forall|k: int|
            0 <= k < r.len() ==> 0 <= stock_order(records@, sort as int)[k] < records.len()
                && stock_row_shows(
                #[trigger] r@[k],
                records@[stock_order(records@, sort as int)[k]],
                warehouses@,
                selection@,
            ),
{
    let order = stock_arrangement(records, sort);
    let ghost o = indices(order@);
    let mut rows: Vec<StockRow> = Vec::new();
    let mut k: usize = 0;
    while k < order.len()
        invariant
            k <= order.len() == records.len(),
            o == indices(order@),
            o == stock_order(records@, sort as int),
            forall|j: int| 0 <= j < order.len() ==> #[trigger] order@[j] < records.len(),
            rows.len() == k,
            forall|j: int|
                0 <= j < k ==> 0 <= o[j] < records.len() && stock_row_shows(
                    #[trigger] rows@[j],
                    records@[o[j]],
                    warehouses@,
                    selection@,
                ),
        decreases order.len() - k,
    {
        assert(o[k as int] == order@[k as int] as int);
        rows.push(stock_row(&records[order[k]], warehouses, selection));
        k = k + 1;
    }
    rows
}


// ---------------------------------------------------------------------
// What each order puts first
// ---------------------------------------------------------------------

/// In an order of rows of one kind of key, every row comes before each
/// later row it may stay before, and both are rows of the list.
proof fn lemma_order_sorted(keys: Seq<KeyView>, descending: bool)
    requires
        uniform(keys),
    ensures
        forall|i: int, j: int|
            0 <= i < j < keys.len() ==> 0 <= #[trigger] stable_order(
                keys,
                keys.len() as int,
                descending,
            )[i] < keys.len() && 0 <= #[trigger] stable_order(keys, keys.len() as int, descending)[j]
                < keys.len() && goes_before(
                keys[stable_order(keys, keys.len() as int, descending)[i]],
                keys[stable_order(keys, keys.len() as int, descending)[j]],
                descending,
            ),
{
    order_is_sorted(keys, keys.len() as int, descending);
    order_holds_every_row_once(keys, keys.len() as int, descending);
}

/// The catalog orders: by price (3) the prices rise down the list and
/// falling (4) they fall; by name (1) the case-folded names rise and
/// falling (2) they fall.
pub proof fn catalog_orders_sorted(records: Seq<CatalogRecord>)
    ensures
        forall|i: int, j: int|
            0 <= i < j < records.len() ==> records[#[trigger] catalog_order(records, 3)[i]].sale_price_minor
                <= records[#[trigger] catalog_order(records, 3)[j]].sale_price_minor,
        forall|i: int, j: int|
            0 <= i < j < records.len() ==> records[#[trigger] catalog_order(records, 4)[i]].sale_price_minor
                >= records[#[trigger] catalog_order(records, 4)[j]].sale_price_minor,
        forall|i: int, j: int|
            0 <= i < j < records.len() ==> text_le(
                lowercase(records[#[trigger] catalog_order(records, 1)[i]].name@),
                lowercase(records[#[trigger] catalog_order(records, 1)[j]].name@),
            ),
        forall|i: int, j: int|
            0 <= i < j < records.len() ==> text_le(
                lowercase(records[#[trigger] catalog_order(records, 2)[j]].name@),
                lowercase(records[#[trigger] catalog_order(records, 2)[i]].name@),
            ),
{
    let n = records.len();
    let k1 = catalog_keys(records, 1);
    let k3 = catalog_keys(records, 3);
    assert(forall|k: int| 0 <= k < k1.len() ==> #[trigger] k1[k] is Text);
    assert(forall|k: int| 0 <= k < k3.len() ==> #[trigger] k3[k] is Int);
    assert(catalog_keys(records, 2) == k1);
    assert(catalog_keys(records, 4) == k3);
    lemma_order_sorted(k1, false);
    lemma_order_sorted(k1, true);
    lemma_order_sorted(k3, false);
    lemma_order_sorted(k3, true);
    assert forall|i: int, j: int| 0 <= i < j < n implies records[#[trigger] catalog_order(
        records,
        3,
    )[i]].sale_price_minor <= records[#[trigger] catalog_order(records, 3)[j]].sale_price_minor by {
        let o = catalog_order(records, 3);
        assert(goes_before(k3[o[i]], k3[o[j]], false));
    }
    assert forall|i: int, j: int| 0 <= i < j < n implies records[#[trigger] catalog_order(
        records,
        4,
    )[i]].sale_price_minor >= records[#[trigger] catalog_order(records, 4)[j]].sale_price_minor by {
        let o = catalog_order(records, 4);
        assert(goes_before(k3[o[i]], k3[o[j]], true));
    }
    assert forall|i: int, j: int| 0 <= i < j < n implies text_le(
        lowercase(records[#[trigger] catalog_order(records, 1)[i]].name@),
        lowercase(records[#[trigger] catalog_order(records, 1)[j]].name@),
    ) by {
        let o = catalog_order(records, 1);
        assert(goes_before(k1[o[i]], k1[o[j]], false));
    }
    assert forall|i: int, j: int| 0 <= i < j < n implies text_le(
        lowercase(records[#[trigger] catalog_order(records, 2)[j]].name@),
        lowercase(records[#[trigger] catalog_order(records, 2)[i]].name@),
    ) by {
        let o = catalog_order(records, 2);
        assert(goes_before(k1[o[i]], k1[o[j]], true));
    }
}

/// The customer orders: by balance falling (3) the balances fall down the
/// list and by balance (4) they rise; by name (1) the case-folded names
/// rise and falling (2) they fall.
pub proof fn customer_orders_sorted(records: Seq<CustomerRecord>)
    ensures
        forall|i: int, j: int|
            0 <= i < j < records.len() ==> records[#[trigger] customer_order(records, 3)[i]].balance_minor
                >= records[#[trigger] customer_order(records, 3)[j]].balance_minor,
        forall|i: int, j: int|
            0 <= i < j < records.len() ==> records[#[trigger] customer_order(records, 4)[i]].balance_minor
                <= records[#[trigger] customer_order(records, 4)[j]].balance_minor,
        forall|i: int, j: int|
            0 <= i < j < records.len() ==> text_le(
                lowercase(records[#[trigger] customer_order(records, 1)[i]].name@),
                lowercase(records[#[trigger] customer_order(records, 1)[j]].name@),
            ),
        forall|i: int, j: int|
            0 <= i < j < records.len() ==> text_le(
                lowercase(records[#[trigger] customer_order(records, 2)[j]].name@),
                lowercase(records[#[trigger] customer_order(records, 2)[i]].name@),
            ),
{
    let n = records.len();
    let k1 = customer_keys(records, 1);
    let k3 = customer_keys(records, 3);
    assert(forall|k: int| 0 <= k < k1.len() ==> #[trigger] k1[k] is Text);
    assert(forall|k: int| 0 <= k < k3.len() ==> #[trigger] k3[k] is Int);
    assert(customer_keys(records, 2) == k1);
    assert(customer_keys(records, 4) == k3);
    lemma_order_sorted(k1, false);
    lemma_order_sorted(k1, true);
    lemma_order_sorted(k3, false);
    lemma_order_sorted(k3, true);
    assert forall|i: int, j: int| 0 <= i < j < n implies records[#[trigger] customer_order(
        records,
        3,
    )[i]].balance_minor >= records[#[trigger] customer_order(records, 3)[j]].balance_minor by {
        let o = customer_order(records, 3);
        assert(goes_before(k3[o[i]], k3[o[j]], true));
    }
    assert forall|i: int, j: int| 0 <= i < j < n implies records[#[trigger] customer_order(
        records,
        4,
    )[i]].balance_minor <= records[#[trigger] customer_order(records, 4)[j]].balance_minor by {
        let o = customer_order(records, 4);
        assert(goes_before(k3[o[i]], k3[o[j]], false));
    }
    assert forall|i: int, j: int| 0 <= i < j < n implies text_le(
        lowercase(records[#[trigger] customer_order(records, 1)[i]].name@),
        lowercase(records[#[trigger] customer_order(records, 1)[j]].name@),
    ) by {
        let o = customer_order(records, 1);
        assert(goes_before(k1[o[i]], k1[o[j]], false));
    }
    assert forall|i: int, j: int| 0 <= i < j < n implies text_le(
        lowercase(records[#[trigger] customer_order(records, 2)[j]].name@),
        lowercase(records[#[trigger] customer_order(records, 2)[i]].name@),
    ) by {
        let o = customer_order(records, 2);
        assert(goes_before(k1[o[i]], k1[o[j]], true));
    }
}

/// The stock orders: by item name (1) the case-folded names rise down the
/// list; by quantity (2) the quantities rise and falling (3) they fall; by
/// unit cost (4) the costs rise and falling (5) they fall; otherwise the
/// newest layer (highest id) comes first.
pub proof fn stock_orders_sorted(records: Seq<StockRecord>, other: int)
    requires
        !(1 <= other <= 5),
    ensures
        forall|i: int, j: int|
            0 <= i < j < records.len() ==> text_le(
                lowercase(records[#[trigger] stock_order(records, 1)[i]].item_name@),
                lowercase(records[#[trigger] stock_order(records, 1)[j]].item_name@),
            ),
        forall|i: int, j: int|
            0 <= i < j < records.len() ==> records[#[trigger] stock_order(records, 2)[i]].quantity_milliunits
                <= records[#[trigger] stock_order(records, 2)[j]].quantity_milliunits,
        forall|i: int, j: int|
            0 <= i < j < records.len() ==> records[#[trigger] stock_order(records, 3)[i]].quantity_milliunits
                >= records[#[trigger] stock_order(records, 3)[j]].quantity_milliunits,
        forall|i: int, j: int|
            0 <= i < j < records.len() ==> records[#[trigger] stock_order(records, 4)[i]].unit_cost_minor
                <= records[#[trigger] stock_order(records, 4)[j]].unit_cost_minor,
        forall|i: int, j: int|
            0 <= i < j < records.len() ==> records[#[trigger] stock_order(records, 5)[i]].unit_cost_minor
                >= records[#[trigger] stock_order(records, 5)[j]].unit_cost_minor,
        forall|i: int, j: int|
            0 <= i < j < records.len() ==> records[#[trigger] stock_order(records, other)[i]].cost_layer_id
                >= records[#[trigger] stock_order(records, other)[j]].cost_layer_id,
{
    let n = records.len();
    let k1 = stock_keys(records, 1);
    let k2 = stock_keys(records, 2);
    let k4 = stock_keys(records, 4);
    let k0 = stock_keys(records, other);
    assert(forall|k: int| 0 <= k < k1.len() ==> #[trigger] k1[k] is Text);
    assert(forall|k: int| 0 <= k < k2.len() ==> #[trigger] k2[k] is Int);
    assert(forall|k: int| 0 <= k < k4.len() ==> #[trigger] k4[k] is Int);
    assert(forall|k: int| 0 <= k < k0.len() ==> #[trigger] k0[k] is Int);
    assert(stock_keys(records, 3) == k2);
    assert(stock_keys(records, 5) == k4);
    lemma_order_sorted(k1, false);
    lemma_order_sorted(k2, false);
    lemma_order_sorted(k2, true);
    lemma_order_sorted(k4, false);
    lemma_order_sorted(k4, true);
    lemma_order_sorted(k0, true);
    assert forall|i: int, j: int| 0 <= i < j < n implies text_le(
        lowercase(records[#[trigger] stock_order(records, 1)[i]].item_name@),
        lowercase(records[#[trigger] stock_order(records, 1)[j]].item_name@),
    ) by {
        let o = stock_order(records, 1);
        assert(goes_before(k1[o[i]], k1[o[j]], false));
    }
    assert forall|i: int, j: int| 0 <= i < j < n implies records[#[trigger] stock_order(
        records,
        2,
    )[i]].quantity_milliunits <= records[#[trigger] stock_order(records, 2)[j]].quantity_milliunits by {
        let o = stock_order(records, 2);
        assert(goes_before(k2[o[i]], k2[o[j]], false));
    }
    assert forall|i: int, j: int| 0 <= i < j < n implies records[#[trigger] stock_order(
        records,
        3,
    )[i]].quantity_milliunits >= records[#[trigger] stock_order(records, 3)[j]].quantity_milliunits by {
        let o = stock_order(records, 3);
        assert(goes_before(k2[o[i]], k2[o[j]], true));
    }
    assert forall|i: int, j: int| 0 <= i < j < n implies records[#[trigger] stock_order(
        records,
        4,
    )[i]].unit_cost_minor <= records[#[trigger] stock_order(records, 4)[j]].unit_cost_minor by {
        let o = stock_order(records, 4);
        assert(goes_before(k4[o[i]], k4[o[j]], false));
    }
    assert forall|i: int, j: int| 0 <= i < j < n implies records[#[trigger] stock_order(
        records,
        5,
    )[i]].unit_cost_minor >= records[#[trigger] stock_order(records, 5)[j]].unit_cost_minor by {
        let o = stock_order(records, 5);
        assert(goes_before(k4[o[i]], k4[o[j]], true));
    }
    assert forall|i: int, j: int| 0 <= i < j < n implies records[#[trigger] stock_order(
        records,
        other,
    )[i]].cost_layer_id >= records[#[trigger] stock_order(records, other)[j]].cost_layer_id by {
        let o = stock_order(records, other);
        assert(goes_before(k0[o[i]], k0[o[j]], true));
    }
}


/// A customer's balance shows as the sheets name it: the list labels a
/// balance with the balance kind an export writes for it (owed, owed back
/// or settled), followed, unless it is settled, by the amount without its
/// sign; and the status code of the list read as a balance kind with that
/// amount gives the balance back.
pub proof fn customer_balance_shows_as_exported(balance: int)
    ensures
        balance != 0 ==> balance_text(balance) == crate::import::balance_export(balance).0
            + " • "@ + grouped(int_text(crate::import::balance_export(balance).1))
            + rial_suffix(),
        balance == 0 ==> balance_text(balance) == crate::import::balance_export(balance).0,
        crate::import::opening_balance(
            balance_status(balance),
            crate::import::balance_export(balance).1,
        ) == Some(balance),
{
    reveal_strlit("بدهکار • ");
    reveal_strlit("بستانکار • ");
    reveal_strlit("بدهکار");
    reveal_strlit("بستانکار");
    reveal_strlit(" • ");
    reveal_strlit("debit");
    reveal_strlit("credit");
    reveal_strlit("settled");
    reveal_strlit("تسویه");
    assert("بدهکار • "@ =~= "بدهکار"@ + " • "@);
    assert("بستانکار • "@ =~= "بستانکار"@ + " • "@);
    assert("credit"@[0] != "debit"@[0]);
    assert("settled"@[0] != "debit"@[0]);
    assert("settled"@[0] != "credit"@[0]);
    assert("settled"@.len() != "بدهکار"@.len() || "settled"@[0] != "بدهکار"@[0]);
    assert("settled"@[0] != "بستانکار"@[0]);
    assert("settled"@[0] != "تسویه"@[0]);
    assert("credit"@[0] != "بدهکار"@[0]);
    assert("debit"@[0] != "بدهکار"@[0]);
}


/// A positive change typed into the balance editor raises the balance in
/// the first direction, so that a settled customer then owes it (a debit),
/// and lowers it in the other, so that they are owed it back (a credit).
pub proof fn balance_change_direction(balance: int, amount: int, direction: int)
    requires
        amount > 0,
    ensures
        direction == 0 ==> balance + crate::editors::signed_change(amount, direction) > balance
            && balance_status(crate::editors::signed_change(amount, direction)) == "debit"@,
        direction != 0 ==> balance + crate::editors::signed_change(amount, direction) < balance
            && balance_status(crate::editors::signed_change(amount, direction)) == "credit"@,
{
}


/// An order the lists do not know leaves the catalog and the customers as
/// they were listed.
pub proof fn unknown_orders_keep_the_list(
    items: Seq<CatalogRecord>,
    customers: Seq<CustomerRecord>,
    sort: int,
)
    requires
        !(1 <= sort <= 4),
    ensures
        catalog_order(items, sort).len() == items.len(),
        forall|k: int| 0 <= k < items.len() ==> #[trigger] catalog_order(items, sort)[k] == k,
        customer_order(customers, sort).len() == customers.len(),
        forall|k: int| 0 <= k < customers.len() ==> #[trigger] customer_order(customers, sort)[k] == k,
{
}

} // verus!
