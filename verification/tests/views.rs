use biztrace::database::{
    CatalogRecord, CustomerRecord, FundAccountRecord, FundCheckRecord, FundTransactionRecord, MovementRecord,
    StockRecord, WarehouseRecord,
};
use biztrace::views::lists::{
    fund_account_rows, fund_check_rows, fund_transaction_rows, movement_rows, product_options, selected_catalog,
    selected_customers, selected_stock, warehouse_rows,
};
use biztrace::views::order::{sort_order, text_at_most, SortKey};
use biztrace::views::rows::{catalog_rows, customer_rows, stock_rows};

fn item(id: i64, name: &str, price: i64) -> CatalogRecord {
    CatalogRecord {
        id,
        kind: if id % 2 == 0 { "service" } else { "product" }.into(),
        name: name.into(),
        sku: format!("SKU-{id}"),
        unit: "each".into(),
        sale_price_minor: price,
    }
}

fn customer(id: i64, name: &str, balance: i64) -> CustomerRecord {
    CustomerRecord {
        id,
        kind: "business".into(),
        name: name.into(),
        phone: String::new(),
        email: String::new(),
        address: String::new(),
        balance_minor: balance,
        currency: "IRR".into(),
    }
}

fn layer(id: i64, name: &str, warehouse_id: i64, quantity: i64, cost: i64) -> StockRecord {
    StockRecord {
        cost_layer_id: id,
        warehouse_id,
        warehouse_name: format!("W{warehouse_id}"),
        item_id: 1,
        item_name: name.into(),
        sku: String::new(),
        unit: "kilogram".into(),
        quantity_milliunits: quantity,
        acquired_quantity_milliunits: 2 * quantity,
        inventory_value_minor: quantity * cost / 1_000,
        unit_cost_minor: cost,
    }
}

#[test]
fn texts_order_by_code_point_with_prefixes_first() {
    assert!(text_at_most("abc", "abd"));
    assert!(text_at_most("ab", "abc"));
    assert!(!text_at_most("abc", "ab"));
    assert!(text_at_most("", ""));
    assert!(text_at_most("Z", "a"));
}

#[test]
fn sorting_is_stable_in_both_directions() {
    let keys = vec![SortKey::Int(3), SortKey::Int(1), SortKey::Int(3), SortKey::Int(2)];
    assert_eq!(sort_order(&keys, false), vec![1, 3, 0, 2]);
    assert_eq!(sort_order(&keys, true), vec![0, 2, 3, 1]);
    let names = vec![SortKey::Text("b".into()), SortKey::Text("a".into()), SortKey::Text("b".into())];
    assert_eq!(sort_order(&names, false), vec![1, 0, 2]);
    assert!(sort_order(&Vec::new(), false).is_empty());
}

#[test]
fn catalog_rows_follow_the_chosen_order_and_selection() {
    let records = vec![item(1, "tea", 300), item(2, "Coffee", 100), item(3, "cocoa", 200)];
    let by_name: Vec<String> = catalog_rows(&records, 1, &vec![])
        .into_iter()
        .map(|row| row.name)
        .collect();
    assert_eq!(by_name, vec!["cocoa", "Coffee", "tea"]);
    let by_price_falling: Vec<String> =
        catalog_rows(&records, 4, &vec![]).into_iter().map(|row| row.id).collect();
    assert_eq!(by_price_falling, vec!["1", "3", "2"]);
    let rows = catalog_rows(&records, 0, &vec![2]);
    assert_eq!(rows[0].id, "1");
    assert_eq!(rows[0].kind_label, "کالا");
    assert_eq!(rows[1].kind_label, "خدمت");
    assert_eq!(rows[0].unit_label, "عدد");
    assert_eq!(rows[0].price_label, "300 ریال");
    assert_eq!(rows[0].price_value, "300");
    assert!(!rows[0].selected);
    assert!(rows[1].selected);
}

#[test]
fn customer_rows_show_balances_and_sort_by_them() {
    let records = vec![customer(1, "B", 500), customer(2, "a", -1_500), customer(3, "c", 0)];
    let rows = customer_rows(&records, 3, &vec![3]);
    let ids: Vec<&str> = rows.iter().map(|row| row.id.as_str()).collect();
    assert_eq!(ids, vec!["1", "3", "2"]);
    assert_eq!(rows[0].balance_label, "بدهکار • 500 ریال");
    assert_eq!(rows[0].balance_status_code, "debit");
    assert_eq!(rows[2].balance_label, "بستانکار • 1,500 ریال");
    assert_eq!(rows[2].balance_status_code, "credit");
    assert_eq!(rows[1].balance_label, "تسویه");
    assert!(rows[1].selected);
    assert_eq!(rows[0].kind_label, "حقوقی");
    let by_name: Vec<String> = customer_rows(&records, 2, &vec![]).into_iter().map(|r| r.name).collect();
    assert_eq!(by_name, vec!["c", "B", "a"]);
}

#[test]
fn stock_rows_default_to_newest_layer_first() {
    let warehouses = vec![
        WarehouseRecord { id: 7, name: "W7".into(), address: String::new(), has_stock: true },
        WarehouseRecord { id: 9, name: "W9".into(), address: String::new(), has_stock: true },
    ];
    let records = vec![layer(1, "b", 9, 1_500, 2_000), layer(2, "a", 7, 500, 1_000), layer(3, "c", 5, 2_000, 3_000)];
    let rows = stock_rows(&records, &warehouses, 0, &vec![1]);
    let ids: Vec<&str> = rows.iter().map(|row| row.cost_layer_id.as_str()).collect();
    assert_eq!(ids, vec!["3", "2", "1"]);
    assert_eq!(rows[2].warehouse_index, 1);
    assert_eq!(rows[1].warehouse_index, 0);
    assert_eq!(rows[0].warehouse_index, 0);
    assert_eq!(rows[2].quantity_label, "1.5");
    assert_eq!(rows[2].received_quantity_label, "3");
    assert_eq!(rows[2].unit_cost_label, "2,000 ریال");
    assert_eq!(rows[2].unit_label, "کیلوگرم");
    assert!(rows[2].selected);
    let by_quantity: Vec<String> =
        stock_rows(&records, &warehouses, 2, &vec![]).into_iter().map(|r| r.cost_layer_id).collect();
    assert_eq!(by_quantity, vec!["2", "1", "3"]);
    let by_name: Vec<String> =
        stock_rows(&records, &warehouses, 1, &vec![]).into_iter().map(|r| r.item_name).collect();
    assert_eq!(by_name, vec!["a", "b", "c"]);
}

#[test]
fn list_rows_carry_labels() {
    let movements = movement_rows(&[MovementRecord {
        item_name: "Tea".into(),
        warehouse_name: "Main".into(),
        quantity_milliunits: 2_250,
        increases_stock: true,
        reference: "r".into(),
        occurred_on: "2024-03-20".into(),
        unit_cost_minor: Some(1_000),
        total_cost_minor: None,
    }]);
    assert_eq!(movements[0].quantity_label, "2.25");
    assert_eq!(movements[0].unit_cost_label, "1,000 ریال");
    assert_eq!(movements[0].total_cost_label, "—");
    let warehouses = warehouse_rows(&[WarehouseRecord {
        id: 4,
        name: "Main".into(),
        address: "Road".into(),
        has_stock: false,
    }]);
    assert_eq!(warehouses[0].id, "4");
    let options = product_options(&[(1, "Tea".into(), String::new()), (2, "Coffee".into(), "C".into())]);
    assert_eq!(options[0].detail, "بدون کد");
    assert_eq!(options[1].detail, "C");
    let transactions = fund_transaction_rows(&[FundTransactionRecord {
        id: 1,
        kind: "transfer".into(),
        account_name: "Bank".into(),
        transfer_account_name: "Cash".into(),
        amount_minor: 1_000,
        category: String::new(),
        occurred_on: "2024-03-20".into(),
        reference: String::new(),
        description: String::new(),
    }]);
    assert_eq!(transactions[0].account_label, "Bank ← Cash");
    assert_eq!(transactions[0].kind_label, "انتقال");
    let checks = fund_check_rows(&[FundCheckRecord {
        id: 1,
        schedule_type: "check".into(),
        direction: "incoming".into(),
        account_name: "Bank".into(),
        party_name: "P".into(),
        check_number: "1".into(),
        bank_name: String::new(),
        amount_minor: 10,
        due_on: "2024-03-20".into(),
        status: "cleared".into(),
        note: String::new(),
    }]);
    assert_eq!(checks[0].status_label, "وصول/پرداخت‌شده");
    assert_eq!(checks[0].direction_label, "دریافتی");
}

#[test]
fn exports_of_the_selection_keep_only_selected_records() {
    let records = vec![item(1, "a", 1), item(2, "b", 2), item(3, "c", 3)];
    let kept: Vec<i64> = selected_catalog(records, &vec![3, 1]).iter().map(|r| r.id).collect();
    assert_eq!(kept, vec![1, 3]);
    let customers = vec![customer(1, "a", 0), customer(2, "b", 0)];
    assert!(selected_customers(customers, &vec![]).is_empty());
    let layers = vec![layer(5, "a", 1, 1, 1), layer(6, "b", 1, 1, 1)];
    let kept: Vec<i64> = selected_stock(layers, &vec![6]).iter().map(|r| r.cost_layer_id).collect();
    assert_eq!(kept, vec![6]);
}

#[test]
fn fund_account_rows_show_kind_and_amounts() {
    let rows = fund_account_rows(&[
        FundAccountRecord {
            id: 3,
            kind: "bank".into(),
            name: "Bank".into(),
            account_number: "IR00".into(),
            opening_balance_minor: 1_250_000,
            balance_minor: -5_000,
        },
        FundAccountRecord {
            id: 4,
            kind: "wallet".into(),
            name: "W".into(),
            account_number: String::new(),
            opening_balance_minor: 0,
            balance_minor: 0,
        },
    ]);
    assert_eq!(rows.len(), 2);
    assert_eq!(rows[0].id, "3");
    assert_eq!(rows[0].kind_label, "حساب بانکی");
    assert_eq!(rows[0].account_number, "IR00");
    assert_eq!(rows[0].opening_value, "1,250,000");
    assert_eq!(rows[0].balance_label, "-5,000 ریال");
    assert_eq!(rows[1].kind_label, "سایر");
    assert_eq!(rows[1].balance_label, "0 ریال");
}
