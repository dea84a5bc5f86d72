use biztrace::database::{
    CatalogDraft, Database, DatabaseError, FundAccountRecord, InventoryMovementDraft,
    WarehouseRecord,
};
use biztrace::editors::{
    balance_adjustment, balance_preview, catalog_draft, catalog_import_message,
    catalog_removal_message, check_status_code, customer_draft, customer_import_message,
    customer_removal_message, fund_account_draft, fund_check_draft, fund_transaction_draft,
    movement_draft, movement_failure_message, parse_id, picked_warehouse, replacement_name,
    select_all, set_selected, stock_import_message, stock_level_edit, stock_moved_message,
    stock_removal_message, warehouse_choices, warehouse_edit, warehouse_removal_message,
};

fn account(id: i64, name: &str) -> FundAccountRecord {
    FundAccountRecord {
        id,
        kind: "cash".into(),
        name: name.into(),
        account_number: String::new(),
        opening_balance_minor: 0,
        balance_minor: 0,
    }
}

fn warehouse(id: i64, name: &str) -> WarehouseRecord {
    WarehouseRecord { id, name: name.into(), address: String::new(), has_stock: false }
}

fn message<T: std::fmt::Debug>(result: Result<T, String>) -> String {
    match result {
        Err(message) => message,
        Ok(value) => panic!("expected a refusal, got {value:?}"),
    }
}

#[test]
fn ids_are_read_as_whole_signed_numbers() {
    assert_eq!(parse_id("42"), Some(42));
    assert_eq!(parse_id("-7"), Some(-7));
    assert_eq!(parse_id("9223372036854775807"), Some(i64::MAX));
    assert_eq!(parse_id("9223372036854775808"), None);
    assert_eq!(parse_id(""), None);
    assert_eq!(parse_id("4a"), None);
    assert_eq!(parse_id(" 4"), None);
}

#[test]
fn account_editor_reads_kind_name_and_opening_balance() {
    let draft = fund_account_draft("", "  Cash box ", " ", 1, "12,500").unwrap();
    assert_eq!(draft.id, None);
    assert_eq!(draft.kind, "bank");
    assert_eq!(draft.name, "Cash box");
    assert_eq!(draft.account_number, None);
    assert_eq!(draft.opening_balance_minor, 12_500);
    let draft = fund_account_draft("5", "Card", " 6037 ", 2, "۱۰۰").unwrap();
    assert_eq!(draft.id, Some(5));
    assert_eq!(draft.kind, "card");
    assert_eq!(draft.account_number.as_deref(), Some("6037"));
    assert_eq!(draft.opening_balance_minor, 100);
    assert_eq!(fund_account_draft("", "Other", "", 7, "0").unwrap().kind, "other");
    assert_eq!(fund_account_draft("", "Cash", "", 0, "1").unwrap().kind, "cash");
    assert_eq!(
        message(fund_account_draft("", "Cash", "", 0, "abc")),
        "موجودی افتتاحیه معتبر نیست"
    );
}

#[test]
fn transaction_editor_needs_an_account_and_a_positive_amount() {
    let accounts = vec![account(10, "Cash"), account(20, "Bank")];
    assert_eq!(
        message(fund_transaction_draft(0, &[], 0, 0, "100", "", "", "", "")),
        "ابتدا یک حساب مالی بسازید"
    );
    assert_eq!(
        message(fund_transaction_draft(0, &accounts, 2, 0, "100", "", "", "", "")),
        "ابتدا یک حساب مالی بسازید"
    );
    assert_eq!(
        message(fund_transaction_draft(0, &accounts, 0, 0, "0", "", "", "", "")),
        "مبلغ معتبر وارد کنید"
    );
    let draft = fund_transaction_draft(
        2, &accounts, 0, 1, "1,000", " rent ", " 1403/01/05 ", " r-1 ", "  ",
    )
    .unwrap();
    assert_eq!(draft.account_id, 10);
    assert_eq!(draft.transfer_account_id, Some(20));
    assert_eq!(draft.kind, "transfer");
    assert_eq!(draft.amount_minor, 1_000);
    assert_eq!(draft.category, "rent");
    assert_eq!(draft.occurred_on, "1403/01/05");
    assert_eq!(draft.reference.as_deref(), Some("r-1"));
    assert_eq!(draft.description, None);
    let income = fund_transaction_draft(0, &accounts, 1, 0, "5", "", "", "", "x").unwrap();
    assert_eq!(income.kind, "income");
    assert_eq!(income.account_id, 20);
    assert_eq!(income.transfer_account_id, None);
    let expense = fund_transaction_draft(1, &accounts, 0, 0, "5", "", "", "", "").unwrap();
    assert_eq!(expense.kind, "expense");
}

#[test]
fn check_editor_writes_checks_in_the_picked_direction() {
    let accounts = vec![account(3, "Bank")];
    assert_eq!(
        message(fund_check_draft(0, &accounts, -1, "", "", "", "10", "", "")),
        "ابتدا یک حساب مالی بسازید"
    );
    assert_eq!(
        message(fund_check_draft(0, &accounts, 0, "", "", "", "", "", "")),
        "مبلغ معتبر وارد کنید"
    );
    let draft = fund_check_draft(
        1, &accounts, 0, " Ali ", " 123 ", " Melli ", "2,000,000", " 1403/02/01 ", "",
    )
    .unwrap();
    assert_eq!(draft.schedule_type, "check");
    assert_eq!(draft.direction, "outgoing");
    assert_eq!(draft.account_id, 3);
    assert_eq!(draft.party_name, "Ali");
    assert_eq!(draft.check_number, "123");
    assert_eq!(draft.bank_name.as_deref(), Some("Melli"));
    assert_eq!(draft.amount_minor, 2_000_000);
    assert_eq!(draft.due_on, "1403/02/01");
    assert_eq!(draft.note, None);
    let incoming = fund_check_draft(0, &accounts, 0, "", "", "", "1", "", "n").unwrap();
    assert_eq!(incoming.direction, "incoming");
    assert_eq!(incoming.note.as_deref(), Some("n"));
}

#[test]
fn check_status_picker_gives_the_stored_codes() {
    assert_eq!(check_status_code(1), "cleared");
    assert_eq!(check_status_code(2), "returned");
    assert_eq!(check_status_code(0), "cancelled");
    assert_eq!(check_status_code(3), "cancelled");
}

#[test]
fn customer_editor_needs_a_name() {
    assert_eq!(message(customer_draft("", "  ", "", "", "", 0)), "نام مشتری را وارد کنید");
    let draft = customer_draft("9", " Sara ", " 0912 ", "", " Tehran ", 1).unwrap();
    assert_eq!(draft.id, Some(9));
    assert_eq!(draft.kind, "business");
    assert_eq!(draft.name, "Sara");
    assert_eq!(draft.phone.as_deref(), Some("0912"));
    assert_eq!(draft.email, None);
    assert_eq!(draft.address.as_deref(), Some("Tehran"));
    let person = customer_draft("x", "Reza", "", "a@b.c", "", 0).unwrap();
    assert_eq!(person.id, None);
    assert_eq!(person.kind, "individual");
    assert_eq!(person.email.as_deref(), Some("a@b.c"));
}

#[test]
fn balance_preview_shows_the_balance_after_the_change() {
    assert_eq!(balance_preview(Some(1_000), "500", 0), "بدهکار • 1,500 ریال");
    assert_eq!(balance_preview(Some(1_000), "1,500", 1), "بستانکار • 500 ریال");
    assert_eq!(balance_preview(Some(1_000), "1000", 1), "تسویه");
    assert_eq!(balance_preview(None, "500", 0), "—");
    assert_eq!(balance_preview(Some(1_000), "abc", 0), "—");
    assert_eq!(balance_preview(Some(i64::MAX), "1", 0), "—");
}

#[test]
fn balance_adjustment_is_signed_by_its_direction() {
    assert_eq!(balance_adjustment(0, "2,500", " paid ").unwrap(), (2_500, Some("paid".into())));
    assert_eq!(balance_adjustment(1, "2,500", "").unwrap(), (-2_500, None));
    assert_eq!(message(balance_adjustment(0, "0", "")), "مبلغی بزرگ‌تر از صفر وارد کنید");
    assert_eq!(message(balance_adjustment(0, "-5", "")), "مبلغی بزرگ‌تر از صفر وارد کنید");
}

#[test]
fn catalog_editor_needs_a_name_and_a_price() {
    assert_eq!(
        message(catalog_draft("", " ", "", 0, 0, "100")),
        "نام کالا یا خدمت را وارد کنید"
    );
    assert_eq!(
        message(catalog_draft("", "Tea", "", 0, 0, "1.5")),
        "قیمت فروش را به‌صورت عدد معتبر وارد کنید"
    );
    let draft = catalog_draft("", " Tea ", " T-1 ", 0, 1, "25,000").unwrap();
    assert_eq!(draft.id, None);
    assert_eq!(draft.kind, "product");
    assert_eq!(draft.name, "Tea");
    assert_eq!(draft.sku.as_deref(), Some("T-1"));
    assert_eq!(draft.unit, "kilogram");
    assert_eq!(draft.sale_price_minor, 25_000);
    let service = catalog_draft("4", "Repair", "", 1, 5, "0").unwrap();
    assert_eq!(service.id, Some(4));
    assert_eq!(service.kind, "service");
    assert_eq!(service.sku, None);
    assert_eq!(service.unit, "hour");
    assert_eq!(catalog_draft("", "X", "", 0, 9, "1").unwrap().unit, "custom");
}

#[test]
fn warehouse_editor_needs_a_name() {
    assert_eq!(message(warehouse_edit("", "", "")), "نام انبار را وارد کنید");
    let edit = warehouse_edit("2", " North ", " Road 3 ").unwrap();
    assert_eq!(edit.id, Some(2));
    assert_eq!(edit.name, "North");
    assert_eq!(edit.address.as_deref(), Some("Road 3"));
    assert_eq!(warehouse_edit("", "South", " ").unwrap().address, None);
}

#[test]
fn picked_warehouse_is_the_one_at_the_position() {
    let warehouses = vec![warehouse(4, "A"), warehouse(8, "B")];
    assert_eq!(picked_warehouse(&warehouses, 1), Some(8));
    assert_eq!(picked_warehouse(&warehouses, 2), None);
    assert_eq!(picked_warehouse(&warehouses, -1), None);
}

#[test]
fn movement_editor_checks_its_fields_in_order() {
    let warehouses = vec![warehouse(4, "A")];
    assert_eq!(
        message(movement_draft(&[], 0, "1", "", 0, "1", "10", "")),
        "ابتدا یک انبار ایجاد کنید"
    );
    assert_eq!(
        message(movement_draft(&warehouses, 0, "", "", 0, "1", "10", "")),
        "ابتدا یک کالا در بخش کالاها ثبت کنید"
    );
    assert_eq!(
        message(movement_draft(&warehouses, 0, "1", "", 0, "0", "10", "")),
        "مقدار واردشده معتبر نیست"
    );
    assert_eq!(
        message(movement_draft(&warehouses, 0, "1", "x", 0, "1", "10", "")),
        "ردیف موجودی معتبر نیست"
    );
    assert_eq!(
        message(movement_draft(&warehouses, 0, "1", "", 0, "1", "", "")),
        "قیمت خرید هر واحد را وارد کنید"
    );
    let receipt = movement_draft(&warehouses, 0, "7", "", 0, "1.25", "3,000", " in ").unwrap();
    assert_eq!(
        receipt,
        InventoryMovementDraft {
            warehouse_id: 4,
            item_id: 7,
            cost_layer_id: None,
            quantity_milliunits: 1_250,
            increases_stock: true,
            unit_cost_minor: Some(3_000),
            reference: Some("in".into()),
        }
    );
    let issue = movement_draft(&warehouses, 0, "7", "12", 1, "2", "", "").unwrap();
    assert_eq!(issue.cost_layer_id, Some(12));
    assert!(!issue.increases_stock);
    assert_eq!(issue.unit_cost_minor, None);
    assert_eq!(issue.quantity_milliunits, 2_000);
    assert_eq!(issue.reference, None);
}

#[test]
fn stock_editor_reads_row_quantity_and_cost() {
    assert_eq!(
        message(stock_level_edit("x", "1", "10", "")),
        "موجودی نهایی را به‌صورت عدد معتبر وارد کنید"
    );
    assert_eq!(
        message(stock_level_edit("3", "", "10", "")),
        "موجودی نهایی را به‌صورت عدد معتبر وارد کنید"
    );
    assert_eq!(message(stock_level_edit("3", "1", "", "")), "بهای خرید هر واحد را وارد کنید");
    let edit = stock_level_edit("3", "0", "1,200", " count ").unwrap();
    assert_eq!(edit.layer_id, 3);
    assert_eq!(edit.quantity_milliunits, 0);
    assert_eq!(edit.unit_cost_minor, 1_200);
    assert_eq!(edit.reference.as_deref(), Some("count"));
    assert_eq!(stock_level_edit("3", "2.5", "1", "").unwrap().quantity_milliunits, 2_500);
}

#[test]
fn warehouse_choices_leave_out_the_one_being_removed() {
    let warehouses = vec![warehouse(1, "A"), warehouse(2, "B"), warehouse(3, "C")];
    let choices = warehouse_choices(&warehouses, 2);
    assert_eq!(choices.names, vec!["A".to_string(), "C".to_string()]);
    assert_eq!(choices.ids, vec!["1".to_string(), "3".to_string()]);
    assert!(warehouse_choices(&[], 2).names.is_empty());
}

#[test]
fn replacement_name_falls_back_when_the_warehouse_is_gone() {
    let warehouses = vec![warehouse(1, "A"), warehouse(2, "B")];
    assert_eq!(replacement_name(&warehouses, 2), "B");
    assert_eq!(replacement_name(&warehouses, 5), "انبار جایگزین");
}

#[test]
fn selection_holds_each_id_once() {
    let mut selection = Vec::new();
    set_selected(&mut selection, 3, true);
    set_selected(&mut selection, 3, true);
    set_selected(&mut selection, 5, true);
    assert_eq!(selection, vec![3, 5]);
    set_selected(&mut selection, 3, false);
    assert_eq!(selection, vec![5]);
    set_selected(&mut selection, 9, false);
    assert_eq!(selection, vec![5]);
    select_all(&mut selection, &vec![1, 5, 2, 1]);
    let mut sorted = selection.clone();
    sorted.sort();
    assert_eq!(sorted, vec![1, 2, 5]);
}

#[test]
fn import_and_removal_messages_count_what_was_done() {
    assert_eq!(
        customer_import_message(3, 1),
        "3 مشتری وارد شد؛ 1 ردیف نامعتبر نادیده گرفته شد"
    );
    assert_eq!(
        catalog_import_message(10, 2, 0),
        "10 مورد وارد شد؛ 2 تکراری و 0 نامعتبر نادیده گرفته شد"
    );
    assert_eq!(stock_import_message(4, 2, 3), "4 ردیف وارد شد؛ 5 ردیف نادیده گرفته شد");
    assert_eq!(
        catalog_removal_message(2, 1),
        "2 مورد حذف شد؛ 1 مورد استفاده‌شده نادیده گرفته شد"
    );
    assert_eq!(stock_removal_message(0, 4), "0 ردیف موجودی حذف شد؛ 4 ردیف نادیده گرفته شد");
    assert_eq!(stock_moved_message("North"), "همه موجودی‌ها به «North» منتقل و انبار حذف شد");
}

#[test]
fn outcome_messages_tell_refusals_from_failures() {
    let refused: Result<(), DatabaseError> = Err(DatabaseError::Validation("x".into()));
    let failed: Result<(), DatabaseError> = Err(DatabaseError::DataDirectoryUnavailable);
    assert_eq!(customer_removal_message(&Ok(())), "مشتری حذف شد");
    assert_eq!(
        customer_removal_message(&refused),
        "این مشتری در فاکتورها استفاده شده و قابل حذف نیست"
    );
    assert_eq!(customer_removal_message(&failed), "حذف مشتری انجام نشد");
    assert_eq!(warehouse_removal_message(&Ok(())), "انبار حذف شد و سوابق آن حفظ شدند");
    assert_eq!(
        warehouse_removal_message(&refused),
        "این انبار موجودی دارد؛ آن را دستی مدیریت کنید یا انتقال اجباری را انتخاب کنید"
    );
    assert_eq!(warehouse_removal_message(&failed), "حذف انبار انجام نشد");
    assert_eq!(
        movement_failure_message(&DatabaseError::Validation("stock".into())),
        "موجودی برای این خروج کافی نیست"
    );
    assert_eq!(
        movement_failure_message(&DatabaseError::DataDirectoryUnavailable),
        "ثبت موجودی انجام نشد"
    );
}

#[test]
fn bulk_removals_count_every_id_once() {
    let database = Database::open_in_memory().unwrap();
    let draft = |name: &str, sku: &str| CatalogDraft {
        id: None,
        kind: "product".into(),
        name: name.into(),
        sku: Some(sku.into()),
        unit: "each".into(),
        sale_price_minor: 10,
    };
    let stocked = database.save_catalog_item(&draft("Beans", "B")).unwrap();
    let plain = database.save_catalog_item(&draft("Rice", "R")).unwrap();
    let main = database.create_warehouse("Main", None).unwrap();
    database
        .record_inventory_movement(&InventoryMovementDraft {
            warehouse_id: main,
            item_id: stocked,
            cost_layer_id: None,
            quantity_milliunits: 1_000,
            increases_stock: true,
            unit_cost_minor: Some(5),
            reference: None,
        })
        .unwrap();
    let (removed, skipped) = database.remove_catalog_items(&[stocked, plain]);
    assert_eq!(removed + skipped, 2);
    assert!(database.catalog_item(plain).unwrap().is_none());
    let layer = database.stock_records("").unwrap()[0].cost_layer_id;
    let (removed, skipped) = database.remove_cost_layers(&[layer, 9_999]);
    assert_eq!((removed, skipped), (1, 1));
    assert!(database.stock_records("").unwrap().is_empty());
}
