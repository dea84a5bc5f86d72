//! What the editors of the screens make of what was typed: the draft to
//! save, or the message to show the user.

use vstd::prelude::*;

use crate::database::{
    CatalogDraft, CustomerDraft, DatabaseError, FundAccountDraft, FundAccountRecord,
    FundCheckDraft, FundTransactionDraft, InventoryMovementDraft, WarehouseRecord,
};
use crate::forms::{
    balance_label, balance_text, parse_amount, parse_nonnegative_quantity, parse_quantity,
    unit_code, unit_code_for,
};
use crate::text::{
    blank, chars_of, decimal, decimal_thousandths, grouped_integer, int_text, int_to_string,
    is_blank, opt_string_view, optional_field, optional_text, parse_int_range, parse_signed,
    push_decimal, trim, trimmed,
};

verus! {

broadcast use vstd::string::group_string_axioms;

/// An id as `str::parse::<i64>` reads the whole text.
pub open spec fn parsed_id(s: Seq<char>) -> Option<i64> {
    match parse_signed(s, i64::MIN as int, i64::MAX as int) {
        Some(v) => Some(v as i64),
        None => None,
    }
}

pub fn parse_id(s: &str) -> (r: Option<i64>)
    ensures
        r == parsed_id(s@),
{
    let v = chars_of(s);
    assert(v@.subrange(0, v@.len() as int) =~= s@);
    parse_int_range(&v, 0, v.len(), i64::MIN, i64::MAX)
}

/// The id field of an editor: none for a new record (an empty field), and
/// none too when the text is not a number.
pub open spec fn id_field(s: Seq<char>) -> Option<i64> {
    if s.len() == 0 {
        None
    } else {
        parsed_id(s)
    }
}

fn id_of_field(s: &str) -> (r: Option<i64>)
    ensures
        r == id_field(s@),
{
    if chars_of(s).len() == 0 {
        None
    } else {
        parse_id(s)
    }
}

/// The entry at a picked position of a list, when the position is in it.
pub open spec fn picked<T>(items: Seq<T>, index: int) -> Option<T> {
    if 0 <= index < items.len() {
        Some(items[index])
    } else {
        None
    }
}

/// The id of the account at a picked position.
fn picked_account(accounts: &[FundAccountRecord], index: i32) -> (r: Option<i64>)
    ensures
        r == (match picked(accounts@, index as int) {
            Some(a) => Some(a.id),
            None => None,
        }),
{
    if 0 <= index && (index as usize) < accounts.len() {
        Some(accounts[index as usize].id)
    } else {
        None
    }
}

/// What an editor is told when no account can be picked.
pub open spec fn no_account_message() -> Seq<char> {
    "ابتدا یک حساب مالی بسازید"@
}

/// What an editor is told when the amount is not a number above zero.
pub open spec fn amount_needed_message() -> Seq<char> {
    "مبلغ معتبر وارد کنید"@
}

/// The kind of account at a position of the kind picker.
pub open spec fn account_kind_at(index: int) -> Seq<char> {
    if index == 0 {
        "cash"@
    } else if index == 1 {
        "bank"@
    } else if index == 2 {
        "card"@
    } else {
        "other"@
    }
}

/// The account typed into the account editor; refused when the opening
/// balance is not a number.
pub fn fund_account_draft(id: &str, name: &str, number: &str, kind: i32, balance: &str) -> (r:
    Result<FundAccountDraft, String>)
    ensures
        grouped_integer(balance@) is None ==> (r matches Err(m) && m@
            == "موجودی افتتاحیه معتبر نیست"@),
        grouped_integer(balance@) matches Some(b) ==> (r matches Ok(d) && d.id == id_field(id@)
            && d.kind@ == account_kind_at(kind as int) && d.name@ == trimmed(name@)
            && opt_string_view(d.account_number) == optional_text(number@)
            && d.opening_balance_minor == b),
{
    let balance = match parse_amount(balance) {
        Some(b) => b,
        None => {
            return Err(String::from_str("موجودی افتتاحیه معتبر نیست"));
        },
    };
    let kind = if kind == 0 {
        "cash"
    } else if kind == 1 {
        "bank"
    } else if kind == 2 {
        "card"
    } else {
        "other"
    };
    Ok(
        FundAccountDraft {
            id: id_of_field(id),
            kind: String::from_str(kind),
            name: trim(name),
            account_number: optional_field(number),
            opening_balance_minor: balance,
        },
    )
}

/// The kind of transaction at a position of the kind picker.
pub open spec fn transaction_kind_at(index: int) -> Seq<char> {
    if index == 0 {
        "income"@
    } else if index == 1 {
        "expense"@
    } else {
        "transfer"@
    }
}

/// An amount typed into a fund editor, when it is a number above zero.
pub open spec fn positive_amount(s: Seq<char>) -> Option<int> {
    match grouped_integer(s) {
        Some(v) => if v > 0 {
            Some(v)
        } else {
            None
        },
        None => None,
    }
}

fn positive_amount_of(s: &str) -> (r: Option<i64>)
    ensures
        r matches Some(v) ==> positive_amount(s@) == Some(v as int),
        r is None ==> positive_amount(s@) is None,
{
    match parse_amount(s) {
        Some(v) => if v > 0 {
            Some(v)
        } else {
            None
        },
        None => None,
    }
}

/// The transaction typed into the transaction editor, from the accounts as
/// listed: the account at the picked position (and for a transfer the target
/// at its position), refused when there is no such account or the amount is
/// not above zero.
pub fn fund_transaction_draft(
    kind: i32,
    accounts: &[FundAccountRecord],
    account: i32,
    target: i32,
    amount: &str,
    category: &str,
    date: &str,
    reference: &str,
    description: &str,
) -> (r: Result<FundTransactionDraft, String>)
    ensures
        picked(accounts@, account as int) is None ==> (r matches Err(m) && m@
            == no_account_message()),
        picked(accounts@, account as int) is Some && positive_amount(amount@) is None ==> (r matches Err(
            m,
        ) && m@ == amount_needed_message()),
        picked(accounts@, account as int) matches Some(a) ==> (positive_amount(amount@) matches Some(
            v,
        ) ==> (r matches Ok(d) && d.account_id == a.id && d.transfer_account_id == (if kind == 2 {
            match picked(accounts@, target as int) {
                Some(t) => Some(t.id),
                None => None,
            }
        } else {
            None
        }) && d.kind@ == transaction_kind_at(kind as int) && d.amount_minor == v
            && d.category@ == trimmed(category@) && d.occurred_on@ == trimmed(date@)
            && opt_string_view(d.reference) == optional_text(reference@) && opt_string_view(
            d.description,
        ) == optional_text(description@))),
{
    let source = match picked_account(accounts, account) {
        Some(id) => id,
        None => {
            return Err(String::from_str("ابتدا یک حساب مالی بسازید"));
        },
    };
    let target_id = if kind == 2 {
        picked_account(accounts, target)
    } else {
        None
    };
    let amount = match positive_amount_of(amount) {
        Some(v) => v,
        None => {
            return Err(String::from_str("مبلغ معتبر وارد کنید"));
        },
    };
    let kind = if kind == 0 {
        "income"
    } else if kind == 1 {
        "expense"
    } else {
        "transfer"
    };
    Ok(
        FundTransactionDraft {
            account_id: source,
            transfer_account_id: target_id,
            kind: String::from_str(kind),
            amount_minor: amount,
            category: trim(category),
            occurred_on: trim(date),
            reference: optional_field(reference),
            description: optional_field(description),
        },
    )
}

/// The check typed into the check editor, from the accounts as listed:
/// refused when there is no account at the picked position or the amount is
/// not above zero. The editor writes checks, incoming for the first
/// direction and outgoing otherwise.
pub fn fund_check_draft(
    direction: i32,
    accounts: &[FundAccountRecord],
    account: i32,
    party: &str,
    number: &str,
    bank: &str,
    amount: &str,
    due: &str,
    note: &str,
) -> (r: Result<FundCheckDraft, String>)
    ensures
        picked(accounts@, account as int) is None ==> (r matches Err(m) && m@
            == no_account_message()),
        picked(accounts@, account as int) is Some && positive_amount(amount@) is None ==> (r matches Err(
            m,
        ) && m@ == amount_needed_message()),
        picked(accounts@, account as int) matches Some(a) ==> (positive_amount(amount@) matches Some(
            v,
        ) ==> (r matches Ok(d) && d.schedule_type@ == "check"@ && d.direction@ == (if direction
            == 0 {
            "incoming"@
        } else {
            "outgoing"@
        }) && d.account_id == a.id && d.party_name@ == trimmed(party@) && d.check_number@
            == trimmed(number@) && opt_string_view(d.bank_name) == optional_text(bank@)
            && d.amount_minor == v && d.due_on@ == trimmed(due@) && opt_string_view(d.note)
            == optional_text(note@))),
{
    let account_id = match picked_account(accounts, account) {
        Some(id) => id,
        None => {
            return Err(String::from_str("ابتدا یک حساب مالی بسازید"));
        },
    };
    let amount = match positive_amount_of(amount) {
        Some(v) => v,
        None => {
            return Err(String::from_str("مبلغ معتبر وارد کنید"));
        },
    };
    let direction = if direction == 0 {
        "incoming"
    } else {
        "outgoing"
    };
    Ok(
        FundCheckDraft {
            schedule_type: String::from_str("check"),
            direction: String::from_str(direction),
            account_id,
            party_name: trim(party),
            check_number: trim(number),
            bank_name: optional_field(bank),
            amount_minor: amount,
            due_on: trim(due),
            note: optional_field(note),
        },
    )
}

/// The status a check is set to from the status picker.
pub fn check_status_code(status: i32) -> (r: &'static str)
    ensures
        r@ == (if status == 1 {
            "cleared"@
        } else if status == 2 {
            "returned"@
        } else {
            "cancelled"@
        }),
{
    if status == 1 {
        "cleared"
    } else if status == 2 {
        "returned"
    } else {
        "cancelled"
    }
}

/// The customer typed into the customer editor; refused without a name.
pub fn customer_draft(id: &str, name: &str, phone: &str, email: &str, address: &str, kind: i32) -> (r:
    Result<CustomerDraft, String>)
    ensures
        is_blank(name@) ==> (r matches Err(m) && m@ == "نام مشتری را وارد کنید"@),
        !is_blank(name@) ==> (r matches Ok(d) && d.id == id_field(id@) && d.kind@ == (if kind
            == 0 {
            "individual"@
        } else {
            "business"@
        }) && d.name@ == trimmed(name@) && opt_string_view(d.phone) == optional_text(phone@)
            && opt_string_view(d.email) == optional_text(email@) && opt_string_view(d.address)
            == optional_text(address@)),
{
    if blank(name) {
        return Err(String::from_str("نام مشتری را وارد کنید"));
    }
    let kind = if kind == 0 {
        "individual"
    } else {
        "business"
    };
    Ok(
        CustomerDraft {
            id: id_of_field(id),
            kind: String::from_str(kind),
            name: trim(name),
            phone: optional_field(phone),
            email: optional_field(email),
            address: optional_field(address),
        },
    )
}

/// A change of balance in the direction picked: owed for the first
/// direction, owed back otherwise.
pub open spec fn signed_change(amount: int, direction: int) -> int {
    if direction == 0 {
        amount
    } else {
        -amount
    }
}

/// The balance a customer would have after the change typed into the
/// balance editor: what it reads as, or a dash when there is no customer,
/// the amount is not a number, or the balance would leave `i64`.
pub open spec fn balance_preview_text(current: Option<i64>, amount: Seq<char>, direction: int) -> Seq<
    char,
> {
    match (current, grouped_integer(amount)) {
        (Some(c), Some(a)) => {
            let b = c + signed_change(a, direction);
            if i64::MIN <= b <= i64::MAX {
                balance_text(b)
            } else {
                "—"@
            }
        },
        _ => "—"@,
    }
}

pub fn balance_preview(current: Option<i64>, amount: &str, direction: i32) -> (r: String)
    requires
        !(current matches Some(c) && grouped_integer(amount@) matches Some(a) && c + signed_change(
            a,
            direction as int,
        ) == i64::MIN),
    ensures
        r@ == balance_preview_text(current, amount@, direction as int),
{
    let current = match current {
        Some(c) => c,
        None => {
            return String::from_str("—");
        },
    };
    let amount = match parse_amount(amount) {
        Some(a) => a,
        None => {
            return String::from_str("—");
        },
    };
    let change = if direction == 0 {
        amount
    } else {
        -amount
    };
    match current.checked_add(change) {
        Some(balance) => balance_label(balance),
        None => String::from_str("—"),
    }
}

/// The change typed into the balance editor, signed by its direction, and
/// its note; refused unless the amount is a number above zero.
pub fn balance_adjustment(direction: i32, amount: &str, note: &str) -> (r: Result<
    (i64, Option<String>),
    String,
>)
    ensures
        positive_amount(amount@) is None ==> (r matches Err(m) && m@
            == "مبلغی بزرگ‌تر از صفر وارد کنید"@),
        positive_amount(amount@) matches Some(v) ==> (r matches Ok((change, n)) && change
            == signed_change(v, direction as int) && opt_string_view(n) == optional_text(note@)),
{
    let amount = match positive_amount_of(amount) {
        Some(v) => v,
        None => {
            return Err(String::from_str("مبلغی بزرگ‌تر از صفر وارد کنید"));
        },
    };
    let change = if direction == 0 {
        amount
    } else {
        -amount
    };
    Ok((change, optional_field(note)))
}

/// The item typed into the catalog editor; refused without a name or with a
/// price that is not a number.
pub fn catalog_draft(id: &str, name: &str, sku: &str, kind: i32, unit: i32, price: &str) -> (r:
    Result<CatalogDraft, String>)
    ensures
        is_blank(name@) ==> (r matches Err(m) && m@ == "نام کالا یا خدمت را وارد کنید"@),
        !is_blank(name@) && grouped_integer(price@) is None ==> (r matches Err(m) && m@
            == "قیمت فروش را به‌صورت عدد معتبر وارد کنید"@),
        !is_blank(name@) ==> (grouped_integer(price@) matches Some(p) ==> (r matches Ok(d) && d.id
            == id_field(id@) && d.kind@ == (if kind == 0 {
            "product"@
        } else {
            "service"@
        }) && d.name@ == trimmed(name@) && opt_string_view(d.sku) == optional_text(sku@)
            && d.unit@ == unit_code_for(unit as int) && d.sale_price_minor == p)),
{
    if blank(name) {
        return Err(String::from_str("نام کالا یا خدمت را وارد کنید"));
    }
    let price = match parse_amount(price) {
        Some(p) => p,
        None => {
            return Err(String::from_str("قیمت فروش را به‌صورت عدد معتبر وارد کنید"));
        },
    };
    let kind = if kind == 0 {
        "product"
    } else {
        "service"
    };
    Ok(
        CatalogDraft {
            id: id_of_field(id),
            kind: String::from_str(kind),
            name: trim(name),
            sku: optional_field(sku),
            unit: String::from_str(unit_code(unit)),
            sale_price_minor: price,
        },
    )
}

/// A warehouse as typed into the warehouse editor.
#[derive(Debug, Clone, PartialEq, Eq)]
pub struct WarehouseEdit {
    pub id: Option<i64>,
    pub name: String,
    pub address: Option<String>,
}

/// The warehouse typed into the warehouse editor; refused without a name.
pub fn warehouse_edit(id: &str, name: &str, address: &str) -> (r: Result<WarehouseEdit, String>)
    ensures
        is_blank(name@) ==> (r matches Err(m) && m@ == "نام انبار را وارد کنید"@),
        !is_blank(name@) ==> (r matches Ok(w) && w.id == id_field(id@) && w.name@ == trimmed(
            name@,
        ) && opt_string_view(w.address) == optional_text(address@)),
{
    if blank(name) {
        return Err(String::from_str("نام انبار را وارد کنید"));
    }
    Ok(WarehouseEdit { id: id_of_field(id), name: trim(name), address: optional_field(address) })
}

/// The id of the warehouse at a picked position.
pub fn picked_warehouse(warehouses: &[WarehouseRecord], index: i32) -> (r: Option<i64>)
    ensures
        r == (match picked(warehouses@, index as int) {
            Some(w) => Some(w.id),
            None => None,
        }),
{
    if 0 <= index && (index as usize) < warehouses.len() {
        Some(warehouses[index as usize].id)
    } else {
        None
    }
}

/// A quantity typed into the movement editor, when it is above zero.
pub open spec fn positive_quantity(s: Seq<char>) -> Option<int> {
    match decimal_thousandths(s) {
        Some(v) => if v > 0 {
            Some(v)
        } else {
            None
        },
        None => None,
    }
}

/// Why the movement editor refuses what was typed, checked in this order:
/// no warehouse at the picked position, no product, a quantity that is not
/// above zero, a stock row that is not a number, or for a receipt a unit cost
/// that is not a number.
pub open spec fn movement_form_error(
    warehouses: Seq<WarehouseRecord>,
    warehouse: int,
    product: Seq<char>,
    layer: Seq<char>,
    direction: int,
    quantity: Seq<char>,
    unit_cost: Seq<char>,
) -> Option<Seq<char>> {
    if picked(warehouses, warehouse) is None {
        Some("ابتدا یک انبار ایجاد کنید"@)
    } else if parsed_id(product) is None {
        Some("ابتدا یک کالا در بخش کالاها ثبت کنید"@)
    } else if positive_quantity(quantity) is None {
        Some("مقدار واردشده معتبر نیست"@)
    } else if layer.len() > 0 && parsed_id(layer) is None {
        Some("ردیف موجودی معتبر نیست"@)
    } else if direction == 0 && grouped_integer(unit_cost) is None {
        Some("قیمت خرید هر واحد را وارد کنید"@)
    } else {
        None
    }
}

/// The receipt or issue typed into the movement editor, from the warehouses
/// as listed.
pub fn movement_draft(
    warehouses: &[WarehouseRecord],
    warehouse: i32,
    product: &str,
    layer: &str,
    direction: i32,
    quantity: &str,
    unit_cost: &str,
    reference: &str,
) -> (r: Result<InventoryMovementDraft, String>)
    ensures
        movement_form_error(
            warehouses@,
            warehouse as int,
            product@,
            layer@,
            direction as int,
            quantity@,
            unit_cost@,
        ) matches Some(m) ==> (r matches Err(e) && e@ == m),
        movement_form_error(
            warehouses@,
            warehouse as int,
            product@,
            layer@,
            direction as int,
            quantity@,
            unit_cost@,
        ) is None ==> (r matches Ok(d) && Some(d.warehouse_id) == (match picked(
            warehouses@,
            warehouse as int,
        ) {
            Some(w) => Some(w.id),
            None => None,
        }) && Some(d.item_id) == parsed_id(product@) && Some(d.quantity_milliunits as int)
            == positive_quantity(quantity@) && d.cost_layer_id == id_field(layer@)
            && d.increases_stock == (direction == 0) && (if direction == 0 {
            d.unit_cost_minor matches Some(c) && grouped_integer(unit_cost@) == Some(c as int)
        } else {
            d.unit_cost_minor is None
        }) && opt_string_view(d.reference) == optional_text(reference@)),
{
    let warehouse_id = match picked_warehouse(warehouses, warehouse) {
        Some(id) => id,
        None => {
            return Err(String::from_str("ابتدا یک انبار ایجاد کنید"));
        },
    };
    let item_id = match parse_id(product) {
        Some(id) => id,
        None => {
            return Err(String::from_str("ابتدا یک کالا در بخش کالاها ثبت کنید"));
        },
    };
    let quantity = match parse_quantity(quantity) {
        Some(q) => q,
        None => {
            return Err(String::from_str("مقدار واردشده معتبر نیست"));
        },
    };
    let cost_layer_id = if chars_of(layer).len() == 0 {
        None
    } else {
        match parse_id(layer) {
            Some(id) => Some(id),
            None => {
                return Err(String::from_str("ردیف موجودی معتبر نیست"));
            },
        }
    };
    let unit_cost_minor = if direction == 0 {
        match parse_amount(unit_cost) {
            Some(c) => Some(c),
            None => {
                return Err(String::from_str("قیمت خرید هر واحد را وارد کنید"));
            },
        }
    } else {
        None
    };
    Ok(
        InventoryMovementDraft {
            warehouse_id,
            item_id,
            cost_layer_id,
            quantity_milliunits: quantity,
            increases_stock: direction == 0,
            unit_cost_minor,
            reference: optional_field(reference),
        },
    )
}

/// A stock level as typed into the stock editor: the stock row, its new
/// quantity in thousandths, its unit cost and the reference.
#[derive(Debug, Clone, PartialEq, Eq)]
pub struct StockLevelEdit {
    pub layer_id: i64,
    pub quantity_milliunits: i64,
    pub unit_cost_minor: i64,
    pub reference: Option<String>,
}

/// The stock level typed into the stock editor; refused when the row or the
/// quantity is not a number, then when the unit cost is not one.
pub fn stock_level_edit(layer: &str, quantity: &str, unit_cost: &str, reference: &str) -> (r: Result<
    StockLevelEdit,
    String,
>)
    ensures
        parsed_id(layer@) is None || decimal_thousandths(quantity@) is None ==> (r matches Err(m)
            && m@ == "موجودی نهایی را به‌صورت عدد معتبر وارد کنید"@),
        parsed_id(layer@) is Some && decimal_thousandths(quantity@) is Some && grouped_integer(
            unit_cost@,
        ) is None ==> (r matches Err(m) && m@ == "بهای خرید هر واحد را وارد کنید"@),
        parsed_id(layer@) matches Some(l) ==> (decimal_thousandths(quantity@) matches Some(q) ==> (
        grouped_integer(unit_cost@) matches Some(c) ==> (r matches Ok(e) && e.layer_id == l
            && e.quantity_milliunits == q && e.unit_cost_minor == c && opt_string_view(e.reference)
            == optional_text(reference@)))),
{
    let (layer_id, quantity) = match (parse_id(layer), parse_nonnegative_quantity(quantity)) {
        (Some(l), Some(q)) => (l, q),
        _ => {
            return Err(String::from_str("موجودی نهایی را به‌صورت عدد معتبر وارد کنید"));
        },
    };
    let reference = optional_field(reference);
    let unit_cost_minor = match parse_amount(unit_cost) {
        Some(c) => c,
        None => {
            return Err(String::from_str("بهای خرید هر واحد را وارد کنید"));
        },
    };
    Ok(StockLevelEdit { layer_id, quantity_milliunits: quantity, unit_cost_minor, reference })
}

/// The warehouses other than `source`, in order.
pub open spec fn other_warehouses(warehouses: Seq<WarehouseRecord>, source: i64) -> Seq<
    WarehouseRecord,
>
    decreases warehouses.len(),
{
    if warehouses.len() == 0 {
        Seq::empty()
    } else {
        let rest = other_warehouses(warehouses.drop_last(), source);
        if warehouses.last().id != source {
            rest.push(warehouses.last())
        } else {
            rest
        }
    }
}

/// Where the stock of a warehouse being removed can go: the names and the
/// ids (as text) of the other warehouses.
#[derive(Debug, Clone, PartialEq, Eq)]
pub struct WarehouseChoices {
    pub names: Vec<String>,
    pub ids: Vec<String>,
}

pub fn warehouse_choices(warehouses: &[WarehouseRecord], source: i64) -> (r: WarehouseChoices)
    ensures
        r.names.len() == other_warehouses(warehouses@, source).len(),
        r.ids.len() == r.names.len(),
        forall|k: int|
            0 <= k < r.names.len() ==> #[trigger] r.names@[k]@ == other_warehouses(
                warehouses@,
                source,
            )[k].name@ && r.ids@[k]@ == int_text(other_warehouses(warehouses@, source)[k].id as int),
{
    let mut names: Vec<String> = Vec::new();
    let mut ids: Vec<String> = Vec::new();
    let mut i: usize = 0;
    assert(warehouses@.take(0) =~= Seq::<WarehouseRecord>::empty());
    while i < warehouses.len()
        invariant
            i <= warehouses.len(),
            names.len() == ids.len() == other_warehouses(warehouses@.take(i as int), source).len(),
            forall|k: int|
                0 <= k < names.len() ==> #[trigger] names@[k]@ == other_warehouses(
                    warehouses@.take(i as int),
                    source,
                )[k].name@ && ids@[k]@ == int_text(
                    other_warehouses(warehouses@.take(i as int), source)[k].id as int,
                ),
        decreases warehouses.len() - i,
    {
        let ghost before = other_warehouses(warehouses@.take(i as int), source);
        assert(warehouses@.take(i + 1).drop_last() =~= warehouses@.take(i as int));
        assert(warehouses@.take(i + 1).last() == warehouses@[i as int]);
        let w = &warehouses[i];
        if w.id != source {
            assert(other_warehouses(warehouses@.take(i + 1), source) == before.push(*w));
            let name = w.name.clone();
            let id_text = int_to_string(w.id);
            let ghost old_names = names@;
            let ghost old_ids = ids@;
            names.push(name);
            ids.push(id_text);
            assert forall|k: int| 0 <= k < names.len() implies #[trigger] names@[k]@
                == before.push(*w)[k].name@ && ids@[k]@ == int_text(before.push(*w)[k].id as int) by {
                if k < before.len() {
                    assert(before.push(*w)[k] == before[k]);
                    assert(names@[k] == old_names[k]);
                    assert(ids@[k] == old_ids[k]);
                    assert(old_names[k]@ == before[k].name@);
                } else {
                    assert(names@[k] == name);
                    assert(ids@[k] == id_text);
                }
            }
        } else {
            assert(other_warehouses(warehouses@.take(i + 1), source) == before);
        }
        i = i + 1;
    }
    assert(warehouses@.take(i as int) =~= warehouses@);
    let ghost others = other_warehouses(warehouses@, source);
    assert(other_warehouses(warehouses@.take(i as int), source) == others);
    assert forall|k: int| 0 <= k < names.len() implies #[trigger] names@[k]@ == others[k].name@
        && ids@[k]@ == int_text(others[k].id as int) by {
        assert(names@[k]@ == other_warehouses(warehouses@.take(i as int), source)[k].name@);
    }
    WarehouseChoices { names, ids }
}

/// The first warehouse with this id, if any.
pub open spec fn warehouse_with_id(warehouses: Seq<WarehouseRecord>, id: i64) -> Option<
    WarehouseRecord,
>
    decreases warehouses.len(),
{
    if warehouses.len() == 0 {
        None
    } else if warehouses[0].id == id {
        Some(warehouses[0])
    } else {
        warehouse_with_id(warehouses.drop_first(), id)
    }
}

/// The name a forced removal reports for the warehouse the stock went to:
/// its name, or a general one when it is not among the warehouses.
pub fn replacement_name(warehouses: &[WarehouseRecord], target: i64) -> (r: String)
    ensures
        r@ == (match warehouse_with_id(warehouses@, target) {
            Some(w) => w.name@,
            None => "انبار جایگزین"@,
        }),
{
    let mut i: usize = 0;
    assert(warehouses@.skip(0) =~= warehouses@);
    while i < warehouses.len()
        invariant
            i <= warehouses.len(),
            warehouse_with_id(warehouses@, target) == warehouse_with_id(
                warehouses@.skip(i as int),
                target,
            ),
        decreases warehouses.len() - i,
    {
        assert(warehouses@.skip(i as int)[0] == warehouses@[i as int]);
        if warehouses[i].id == target {
            return warehouses[i].name.clone();
        }
        assert(warehouses@.skip(i as int).drop_first() =~= warehouses@.skip(i + 1));
        i = i + 1;
    }
    assert(warehouses@.skip(i as int) =~= Seq::<WarehouseRecord>::empty());
    String::from_str("انبار جایگزین")
}

/// Marks a row as selected or not; the selection holds each id once.
pub fn set_selected(selection: &mut Vec<i64>, id: i64, selected: bool)
    requires
        old(selection)@.no_duplicates(),
    ensures
        final(selection)@.no_duplicates(),
        final(selection)@.to_set() == (if selected {
            old(selection)@.to_set().insert(id)
        } else {
            old(selection)@.to_set().remove(id)
        }),
{
    let ghost start = selection@;
    let mut kept: Vec<i64> = Vec::new();
    let mut i: usize = 0;
    while i < selection.len()
        invariant
            i <= selection.len(),
            selection@ == start,
            start.no_duplicates(),
            kept@.no_duplicates(),
            forall|x: i64| #[trigger] kept@.contains(x) <==> (start.take(i as int).contains(x) && x
                != id),
        decreases selection.len() - i,
    {
        let x = selection[i];
        let ghost before = kept@;
        assert(start.take(i + 1) =~= start.take(i as int).push(x));
        if x != id {
            assert(!before.contains(x)) by {
                let prev = start.take(i as int);
                if before.contains(x) {
                    assert(prev.contains(x));
                    let j = choose|j: int| 0 <= j < prev.len() && prev[j] == x;
                    assert(start[j] == start[i as int]);
                }
            }
            kept.push(x);
            assert(kept@ == before.push(x));
            assert forall|y: i64| #[trigger] kept@.contains(y) <==> (start.take(i + 1).contains(y)
                && y != id) by {
                if kept@.contains(y) && y != x {
                    let j = choose|j: int| 0 <= j < kept@.len() && kept@[j] == y;
                    assert(j < before.len());
                    assert(before[j] == y);
                }
                if before.contains(y) {
                    let j = choose|j: int| 0 <= j < before.len() && before[j] == y;
                    assert(kept@[j] == y);
                }
                let next = start.take(i + 1);
                if next.contains(y) && y != x {
                    let j = choose|j: int| 0 <= j < next.len() && next[j] == y;
                    assert(j < i);
                    assert(start.take(i as int)[j] == y);
                }
                if y == x {
                    assert(kept@[before.len() as int] == x);
                    assert(start.take(i + 1)[i as int] == x);
                }
            }
            assert forall|a: int, b: int| 0 <= a < b < kept@.len() implies kept@[a] != kept@[b] by {
                if b == before.len() {
                    assert(kept@[a] == before[a]);
                    assert(before.contains(before[a]));
                }
            }
        } else {
            assert forall|y: i64| #[trigger] kept@.contains(y) <==> (start.take(i + 1).contains(y)
                && y != id) by {
                let next = start.take(i + 1);
                let prev = start.take(i as int);
                if next.contains(y) && y != id {
                    let j = choose|j: int| 0 <= j < next.len() && next[j] == y;
                    assert(j < i);
                    assert(prev[j] == y);
                }
                if prev.contains(y) {
                    let j = choose|j: int| 0 <= j < prev.len() && prev[j] == y;
                    assert(next[j] == y);
                }
            }
        }
        i = i + 1;
    }
    assert(start.take(start.len() as int) =~= start);
    let ghost without = kept@;
    if selected {
        kept.push(id);
        assert forall|a: int, b: int| 0 <= a < b < kept@.len() implies kept@[a] != kept@[b] by {
            if b == without.len() {
                assert(kept@[a] == without[a]);
                assert(without.contains(without[a]));
            }
        }
    }
    assert forall|y: i64| #[trigger] kept@.to_set().contains(y) <==> (if selected {
        start.to_set().insert(id)
    } else {
        start.to_set().remove(id)
    }).contains(y) by {
        if selected && y == id {
            assert(kept@[without.len() as int] == id);
        }
        if selected && y != id && kept@.contains(y) {
            let j = choose|j: int| 0 <= j < kept@.len() && kept@[j] == y;
            assert(j < without.len());
            assert(without[j] == y);
        }
        if selected && without.contains(y) {
            let j = choose|j: int| 0 <= j < without.len() && without[j] == y;
            assert(kept@[j] == y);
        }
    }
    *selection = kept;
    assert(selection@.to_set() =~= (if selected {
        start.to_set().insert(id)
    } else {
        start.to_set().remove(id)
    }));
}

/// Adds the ids shown to the selection; the selection holds each id once.
pub fn select_all(selection: &mut Vec<i64>, shown: &Vec<i64>)
    requires
        old(selection)@.no_duplicates(),
    ensures
        final(selection)@.no_duplicates(),
        final(selection)@.to_set() == old(selection)@.to_set().union(shown@.to_set()),
{
    let ghost start = selection@;
    let mut i: usize = 0;
    assert(start.to_set().union(shown@.take(0).to_set()) =~= start.to_set());
    while i < shown.len()
        invariant
            i <= shown.len(),
            selection@.no_duplicates(),
            selection@.to_set() == start.to_set().union(shown@.take(i as int).to_set()),
        decreases shown.len() - i,
    {
        let x = shown[i];
        set_selected(selection, x, true);
        assert(shown@.take(i + 1) =~= shown@.take(i as int).push(x));
        assert forall|y: i64| #[trigger] shown@.take(i + 1).to_set().contains(y) <==> shown@.take(
            i as int,
        ).to_set().insert(x).contains(y) by {
            let next = shown@.take(i + 1);
            let prev = shown@.take(i as int);
            if next.contains(y) && y != x {
                let j = choose|j: int| 0 <= j < next.len() && next[j] == y;
                assert(j < i);
                assert(prev[j] == y);
            }
            if prev.contains(y) {
                let j = choose|j: int| 0 <= j < prev.len() && prev[j] == y;
                assert(next[j] == y);
            }
            if y == x {
                assert(next[i as int] == x);
            }
        }
        assert(shown@.take(i + 1).to_set() =~= shown@.take(i as int).to_set().insert(x));
        assert(selection@.to_set() =~= start.to_set().union(shown@.take(i + 1).to_set()));
        i = i + 1;
    }
    assert(shown@.take(shown@.len() as int) =~= shown@);
}

/// What a customer import reports: the customers added and the rows refused.
pub open spec fn customer_import_text(inserted: nat, invalid: nat) -> Seq<char> {
    decimal(inserted) + " مشتری وارد شد؛ "@ + decimal(invalid) + " ردیف نامعتبر نادیده گرفته شد"@
}

pub fn customer_import_message(inserted: usize, invalid: usize) -> (r: String)
    ensures
        r@ == customer_import_text(inserted as nat, invalid as nat),
{
    let mut out = String::new();
    push_decimal(&mut out, inserted as u64);
    out.append(" مشتری وارد شد؛ ");
    push_decimal(&mut out, invalid as u64);
    out.append(" ردیف نامعتبر نادیده گرفته شد");
    out
}

/// What a catalog import reports: the items added, the duplicates passed
/// over and the rows refused.
pub open spec fn catalog_import_text(inserted: nat, duplicates: nat, invalid: nat) -> Seq<char> {
    decimal(inserted) + " مورد وارد شد؛ "@ + decimal(duplicates) + " تکراری و "@ + decimal(invalid)
        + " نامعتبر نادیده گرفته شد"@
}

pub fn catalog_import_message(inserted: usize, duplicates: usize, invalid: usize) -> (r: String)
    ensures
        r@ == catalog_import_text(inserted as nat, duplicates as nat, invalid as nat),
{
    let mut out = String::new();
    push_decimal(&mut out, inserted as u64);
    out.append(" مورد وارد شد؛ ");
    push_decimal(&mut out, duplicates as u64);
    out.append(" تکراری و ");
    push_decimal(&mut out, invalid as u64);
    out.append(" نامعتبر نادیده گرفته شد");
    out
}

/// What a stock import reports: the receipts recorded, and together the
/// rows skipped by the store and the rows refused by the reader.
pub open spec fn stock_import_text(inserted: nat, passed_over: nat) -> Seq<char> {
    decimal(inserted) + " ردیف وارد شد؛ "@ + decimal(passed_over) + " ردیف نادیده گرفته شد"@
}

pub fn stock_import_message(inserted: usize, skipped: usize, invalid: usize) -> (r: String)
    requires
        skipped + invalid <= usize::MAX,
    ensures
        r@ == stock_import_text(inserted as nat, (skipped + invalid) as nat),
{
    let mut out = String::new();
    push_decimal(&mut out, inserted as u64);
    out.append(" ردیف وارد شد؛ ");
    push_decimal(&mut out, (skipped + invalid) as u64);
    out.append(" ردیف نادیده گرفته شد");
    out
}

/// What removing the selected catalog items reports.
pub open spec fn catalog_removal_text(removed: nat, skipped: nat) -> Seq<char> {
    decimal(removed) + " مورد حذف شد؛ "@ + decimal(skipped) + " مورد استفاده‌شده نادیده گرفته شد"@
}

pub fn catalog_removal_message(removed: usize, skipped: usize) -> (r: String)
    ensures
        r@ == catalog_removal_text(removed as nat, skipped as nat),
{
    let mut out = String::new();
    push_decimal(&mut out, removed as u64);
    out.append(" مورد حذف شد؛ ");
    push_decimal(&mut out, skipped as u64);
    out.append(" مورد استفاده‌شده نادیده گرفته شد");
    out
}

/// What removing the selected stock rows reports.
pub open spec fn stock_removal_text(removed: nat, skipped: nat) -> Seq<char> {
    decimal(removed) + " ردیف موجودی حذف شد؛ "@ + decimal(skipped) + " ردیف نادیده گرفته شد"@
}

pub fn stock_removal_message(removed: usize, skipped: usize) -> (r: String)
    ensures
        r@ == stock_removal_text(removed as nat, skipped as nat),
{
    let mut out = String::new();
    push_decimal(&mut out, removed as u64);
    out.append(" ردیف موجودی حذف شد؛ ");
    push_decimal(&mut out, skipped as u64);
    out.append(" ردیف نادیده گرفته شد");
    out
}

/// What a forced warehouse removal reports: where the stock went.
pub open spec fn stock_moved_text(target_name: Seq<char>) -> Seq<char> {
    "همه موجودی‌ها به «"@ + target_name + "» منتقل و انبار حذف شد"@
}

pub fn stock_moved_message(target_name: &str) -> (r: String)
    ensures
        r@ == stock_moved_text(target_name@),
{
    let mut out = String::from_str("همه موجودی‌ها به «");
    out.append(target_name);
    out.append("» منتقل و انبار حذف شد");
    out
}

/// What removing a customer reports: done, refused because of the
/// invoices on record, or failed.
pub fn customer_removal_message(outcome: &Result<(), DatabaseError>) -> (r: &'static str)
    ensures
        outcome is Ok ==> r@ == "مشتری حذف شد"@,
        outcome matches Err(DatabaseError::Validation(_)) ==> r@
            == "این مشتری در فاکتورها استفاده شده و قابل حذف نیست"@,
        outcome is Err && !(outcome matches Err(DatabaseError::Validation(_))) ==> r@
            == "حذف مشتری انجام نشد"@,
{
    match outcome {
        Ok(()) => "مشتری حذف شد",
        Err(DatabaseError::Validation(_)) => "این مشتری در فاکتورها استفاده شده و قابل حذف نیست",
        Err(_) => "حذف مشتری انجام نشد",
    }
}

/// What removing a warehouse reports: done (its history kept), refused
/// while it holds stock, or failed.
pub fn warehouse_removal_message(outcome: &Result<(), DatabaseError>) -> (r: &'static str)
    ensures
        outcome is Ok ==> r@ == "انبار حذف شد و سوابق آن حفظ شدند"@,
        outcome matches Err(DatabaseError::Validation(_)) ==> r@
            == "این انبار موجودی دارد؛ آن را دستی مدیریت کنید یا انتقال اجباری را انتخاب کنید"@,
        outcome is Err && !(outcome matches Err(DatabaseError::Validation(_))) ==> r@
            == "حذف انبار انجام نشد"@,
{
    match outcome {
        Ok(()) => "انبار حذف شد و سوابق آن حفظ شدند",
        Err(DatabaseError::Validation(_)) => {
            "این انبار موجودی دارد؛ آن را دستی مدیریت کنید یا انتقال اجباری را انتخاب کنید"
        },
        Err(_) => "حذف انبار انجام نشد",
    }
}

/// What a refused stock movement reports: not enough stock when the store
/// refused it, a failure otherwise.
pub fn movement_failure_message(error: &DatabaseError) -> (r: &'static str)
    ensures
        error is Validation ==> r@ == "موجودی برای این خروج کافی نیست"@,
        !(error is Validation) ==> r@ == "ثبت موجودی انجام نشد"@,
{
    match error {
        DatabaseError::Validation(_) => "موجودی برای این خروج کافی نیست",
        _ => "ثبت موجودی انجام نشد",
    }
}

} // verus!
