use std::io::Cursor;

use biztrace::database::{
    CatalogRecord, CustomerRecord, FundAccountRecord, FundCheckRecord, FundTransactionRecord,
    StockRecord,
};
use biztrace::import::sheet::{Sheet, SheetCell};
use biztrace::import::{
    catalog_export_sheet, catalog_template_sheet, customer_export_sheet, customer_template_sheet,
    fund_export_sheet, fund_template_sheet, inventory_export_sheet, inventory_template_sheet,
    parse_fund_amount, read_catalog_rows, read_customer_rows, read_fund_rows,
    read_inventory_rows, FundImportFile,
};
use calamine::Reader;

/// Writes a sheet into an xlsx workbook in memory.
fn workbook_bytes(sheet: &Sheet) -> Vec<u8> {
    let mut workbook = rust_xlsxwriter::Workbook::new();
    let worksheet = workbook.add_worksheet();
    if let Some(name) = &sheet.name {
        worksheet.set_name(name.as_str()).unwrap();
    }
    worksheet.set_right_to_left(true);
    for (column, header) in sheet.headers.iter().enumerate() {
        worksheet.write_string(0, column as u16, header.as_str()).unwrap();
    }
    for (index, row) in sheet.rows.iter().enumerate() {
        let row_number = (index + 1) as u32;
        for (column, cell) in row.iter().enumerate() {
            match cell {
                SheetCell::Text(text) => {
                    worksheet.write_string(row_number, column as u16, text.as_str()).unwrap();
                }
                SheetCell::Number(value) => {
                    worksheet.write_number(row_number, column as u16, *value as f64).unwrap();
                }
                SheetCell::Thousandths(value) => {
                    worksheet
                        .write_number(row_number, column as u16, *value as f64 / 1_000.0)
                        .unwrap();
                }
            }
        }
    }
    for (column, width) in sheet.column_widths.iter().enumerate() {
        worksheet.set_column_width(column as u16, *width as f64).unwrap();
    }
    workbook.save_to_buffer().unwrap()
}

/// Reads the first sheet of an xlsx workbook as cell texts.
fn grid_of(bytes: Vec<u8>) -> Vec<Vec<String>> {
    let mut workbook = calamine::open_workbook_auto_from_rs(Cursor::new(bytes)).unwrap();
    let range = workbook.worksheet_range_at(0).unwrap().unwrap();
    range
        .rows()
        .map(|row| row.iter().map(|cell| cell.to_string()).collect())
        .collect()
}

fn round_trip(sheet: &Sheet) -> Vec<Vec<String>> {
    grid_of(workbook_bytes(sheet))
}

fn texts(rows: &[&[&str]]) -> Vec<Vec<String>> {
    rows.iter().map(|row| row.iter().map(|cell| cell.to_string()).collect()).collect()
}

#[test]
fn generated_template_can_be_read_back() {
    let file = read_catalog_rows(&round_trip(&catalog_template_sheet())).unwrap();
    assert_eq!(file.rows.len(), 4);
    assert_eq!(file.rows[0].sale_price_minor, 1_200_000);
    assert_eq!(file.rows[3].kind, "service");
}

#[test]
fn catalog_export_can_be_imported_again() {
    let sheet = catalog_export_sheet(&[CatalogRecord {
        id: 1,
        kind: "product".into(),
        name: "قهوه".into(),
        sku: "COF-1".into(),
        unit: "kilogram".into(),
        sale_price_minor: 50_000_000,
    }]);
    let file = read_catalog_rows(&round_trip(&sheet)).unwrap();
    assert_eq!(file.rows.len(), 1);
    assert_eq!(file.rows[0].sku.as_deref(), Some("COF-1"));
    assert_eq!(file.rows[0].unit, "kilogram");
}

#[test]
fn customer_template_round_trips_with_balances() {
    let file = read_customer_rows(&round_trip(&customer_template_sheet())).unwrap();
    assert_eq!(file.rows.len(), 2);
    assert_eq!(file.rows[1].customer.kind, "business");
    assert_eq!(file.rows[0].opening_balance_minor, 2_500_000);
    assert_eq!(file.rows[1].opening_balance_minor, -1_000_000);
}

#[test]
fn generated_inventory_template_can_be_read() {
    let file = read_inventory_rows(&round_trip(&inventory_template_sheet())).unwrap();
    assert_eq!(file.rows.len(), 2);
    assert_eq!(file.rows[0].quantity_milliunits, 100_000);
    assert_eq!(file.rows[0].unit_cost_minor, 40_000_000);
}

#[test]
fn inventory_export_can_be_imported_again() {
    let sheet = inventory_export_sheet(&[StockRecord {
        cost_layer_id: 1,
        warehouse_id: 1,
        warehouse_name: "انبار مرکزی".into(),
        item_id: 1,
        item_name: "قهوه".into(),
        sku: "COF-1".into(),
        unit: "kilogram".into(),
        quantity_milliunits: 12_500,
        acquired_quantity_milliunits: 12_500,
        inventory_value_minor: 500_000_000,
        unit_cost_minor: 40_000_000,
    }]);
    let file = read_inventory_rows(&round_trip(&sheet)).unwrap();
    assert_eq!(file.rows.len(), 1);
    assert_eq!(file.rows[0].quantity_milliunits, 12_500);
    assert_eq!(file.rows[0].sku, "COF-1");
}

#[test]
fn customer_export_writes_balance_kind_and_unsigned_amount() {
    let record = |name: &str, balance: i64| CustomerRecord {
        id: 1,
        kind: "individual".into(),
        name: name.into(),
        phone: String::new(),
        email: String::new(),
        address: String::new(),
        balance_minor: balance,
        currency: "IRR".into(),
    };
    let sheet = customer_export_sheet(&[record("A", 10), record("B", -20), record("C", 0)]);
    assert_eq!(sheet.rows[0][5], SheetCell::Text("بدهکار".into()));
    assert_eq!(sheet.rows[1][5], SheetCell::Text("بستانکار".into()));
    assert_eq!(sheet.rows[1][6], SheetCell::Number(20));
    assert_eq!(sheet.rows[2][5], SheetCell::Text("تسویه".into()));
    let file = read_customer_rows(&round_trip(&sheet)).unwrap();
    let balances: Vec<i64> = file.rows.iter().map(|row| row.opening_balance_minor).collect();
    assert_eq!(balances, vec![10, -20, 0]);
}

#[test]
fn sheets_with_wrong_headers_or_nothing_to_import_are_refused() {
    assert_eq!(read_catalog_rows(&Vec::new()).err().unwrap(), "فایل اکسل خالی است");
    let wrong = texts(&[&["نوع", "نام", "کد", "واحد", "قیمت فروش (ریال)"]]);
    assert_eq!(read_catalog_rows(&wrong).err().unwrap(), "ستون 3 باید «کد کالا» باشد");
    let empty = texts(&[&["نوع", "نام", "کد کالا", "واحد", "قیمت فروش (ریال)"], &["", " ", "", "", ""]]);
    assert_eq!(read_catalog_rows(&empty).err().unwrap(), "هیچ ردیف قابل ورودی در فایل پیدا نشد");
}

#[test]
fn refused_catalog_rows_are_reported_by_number() {
    let grid = texts(&[
        &["نوع", "نام", "کد کالا", "واحد", "قیمت فروش (ریال)"],
        &["کالا", "چای", "", "عدد", "۱٬۲۰۰"],
        &[],
        &["هدیه", "x", "", "عدد", "1"],
        &["خدمت", "", "", "ساعت", "1"],
        &["خدمت", "نصب", "", "روز", "1"],
        &["خدمت", "نصب", "", "ساعت", "12a"],
    ]);
    let file = read_catalog_rows(&grid).unwrap();
    assert_eq!(file.rows.len(), 1);
    assert_eq!(file.rows[0].sale_price_minor, 1_200);
    assert_eq!(file.rows[0].sku, None);
    assert_eq!(
        file.errors,
        vec![
            "ردیف 4: نوع باید کالا یا خدمت باشد".to_string(),
            "ردیف 5: نام خالی است".to_string(),
            "ردیف 6: واحد معتبر نیست".to_string(),
            "ردیف 7: قیمت فروش معتبر نیست".to_string(),
        ]
    );
}

#[test]
fn refused_stock_rows_are_reported_by_number() {
    let grid = texts(&[
        &["انبار", "کد کالا", "مقدار", "بهای خرید واحد (ریال)", "مرجع"],
        &["Main", "SKU", "0", "10", ""],
        &["Main", "SKU", "1.5", "10", " ref "],
    ]);
    let file = read_inventory_rows(&grid).unwrap();
    assert_eq!(file.errors, vec!["ردیف 2 نامعتبر است".to_string()]);
    assert_eq!(file.rows[0].quantity_milliunits, 1_500);
    assert_eq!(file.rows[0].reference.as_deref(), Some("ref"));
    let only_header = texts(&[&["انبار", "کد کالا", "مقدار", "بهای خرید واحد (ریال)", "مرجع"]]);
    assert!(read_inventory_rows(&only_header).unwrap().rows.is_empty());
}

#[test]
fn fund_templates_read_back_with_gregorian_dates() {
    match read_fund_rows(&round_trip(&fund_template_sheet(0)), 0).unwrap() {
        FundImportFile::Accounts(rows) => {
            assert_eq!(rows.len(), 1);
            assert_eq!(rows[0].kind, "bank");
            assert_eq!(rows[0].opening, 10_000_000);
        }
        _ => panic!("expected accounts"),
    }
    match read_fund_rows(&round_trip(&fund_template_sheet(1)), 1).unwrap() {
        FundImportFile::Transactions(rows) => {
            assert_eq!(rows[0].kind, "income");
            assert_eq!(rows[0].date, "2026-08-13");
            assert_eq!(rows[0].target, None);
        }
        _ => panic!("expected transactions"),
    }
    match read_fund_rows(&round_trip(&fund_template_sheet(2)), 2).unwrap() {
        FundImportFile::Checks(rows) => {
            assert_eq!(rows[0].schedule_type, "check");
            assert_eq!(rows[0].direction, "incoming");
            assert_eq!(rows[0].due, "2026-09-06");
            assert_eq!(rows[0].amount, 5_000_000);
        }
        _ => panic!("expected checks"),
    }
}

#[test]
fn the_first_refused_fund_row_refuses_the_sheet() {
    let grid = texts(&[
        &["نوع حساب", "نام حساب", "شماره/شناسه", "موجودی افتتاحیه (ریال)"],
        &["کارت", "Card", "", "-5"],
        &["کیف", "Wallet", "", "1"],
        &["سایر", "", "", "1"],
    ]);
    assert_eq!(read_fund_rows(&grid, 0).err().unwrap(), "نوع حساب نامعتبر است");
    assert_eq!(read_fund_rows(&Vec::new(), 0).err().unwrap(), "فایل خالی است");
    let grid = texts(&[
        &["نوع", "حساب", "حساب مقصد", "مبلغ (ریال)", "تاریخ شمسی", "شناسه پیگیری", "شرح"],
        &["هزینه", "Bank", "", "1,000", "1403/13/01", "", ""],
    ]);
    assert_eq!(read_fund_rows(&grid, 1).err().unwrap(), "تاریخ شمسی نامعتبر است");
}

#[test]
fn fund_amounts_allow_signs_and_separators() {
    assert_eq!(parse_fund_amount("1,000"), Some(1_000));
    assert_eq!(parse_fund_amount("-2 500"), Some(-2_500));
    assert_eq!(parse_fund_amount("۱۰"), None);
    assert_eq!(parse_fund_amount(""), None);
}

#[test]
fn fund_exports_write_jalali_dates_and_labels() {
    let transactions = [FundTransactionRecord {
        id: 1,
        kind: "expense".into(),
        account_name: "Bank".into(),
        transfer_account_name: String::new(),
        amount_minor: 7_000,
        category: String::new(),
        occurred_on: "2024-03-20".into(),
        reference: "R".into(),
        description: "D".into(),
    }];
    let sheet = fund_export_sheet(1, &[], &transactions, &[]);
    assert_eq!(sheet.rows.len(), 1);
    assert_eq!(sheet.rows[0][0], SheetCell::Text("هزینه".into()));
    assert_eq!(sheet.rows[0][3], SheetCell::Number(7_000));
    assert_eq!(sheet.rows[0][4], SheetCell::Text("1403/01/01".into()));
    let accounts = [FundAccountRecord {
        id: 1,
        kind: "cash".into(),
        name: "Cash".into(),
        account_number: String::new(),
        opening_balance_minor: 5,
        balance_minor: 5,
    }];
    let sheet = fund_export_sheet(0, &accounts, &[], &[]);
    assert_eq!(sheet.rows[0][0], SheetCell::Text("صندوق نقدی".into()));
    let checks = [FundCheckRecord {
        id: 1,
        schedule_type: "installment".into(),
        direction: "outgoing".into(),
        account_name: "Bank".into(),
        party_name: "P".into(),
        check_number: String::new(),
        bank_name: String::new(),
        amount_minor: 9,
        due_on: "not a date".into(),
        status: "upcoming".into(),
        note: String::new(),
    }];
    let sheet = fund_export_sheet(2, &[], &[], &checks);
    assert_eq!(sheet.rows[0][0], SheetCell::Text("قسط".into()));
    assert_eq!(sheet.rows[0][1], SheetCell::Text("پرداختی".into()));
    assert_eq!(sheet.rows[0][7], SheetCell::Text(String::new()));
}

#[test]
fn fund_account_export_can_be_imported_again() {
    let account = |kind: &str, name: &str, number: &str, opening: i64| FundAccountRecord {
        id: 1,
        kind: kind.into(),
        name: name.into(),
        account_number: number.into(),
        opening_balance_minor: opening,
        balance_minor: 0,
    };
    let sheet = fund_export_sheet(
        0,
        &[account("card", " Card ", "6037", -250_000), account("other", "Box", "", 0)],
        &[],
        &[],
    );
    match read_fund_rows(&round_trip(&sheet), 0).unwrap() {
        FundImportFile::Accounts(rows) => {
            assert_eq!(rows.len(), 2);
            assert_eq!(rows[0].kind, "card");
            assert_eq!(rows[0].name, "Card");
            assert_eq!(rows[0].number.as_deref(), Some("6037"));
            assert_eq!(rows[0].opening, -250_000);
            assert_eq!(rows[1].kind, "other");
            assert_eq!(rows[1].number, None);
            assert_eq!(rows[1].opening, 0);
        }
        _ => panic!("expected accounts"),
    }
}

#[test]
fn fund_transaction_and_check_exports_can_be_imported_again() {
    let transactions = [FundTransactionRecord {
        id: 1,
        kind: "transfer".into(),
        account_name: "Bank".into(),
        transfer_account_name: "Cash".into(),
        amount_minor: 7_000,
        category: String::new(),
        occurred_on: "2025-03-20".into(),
        reference: "R-1".into(),
        description: String::new(),
    }];
    let sheet = fund_export_sheet(1, &[], &transactions, &[]);
    match read_fund_rows(&round_trip(&sheet), 1).unwrap() {
        FundImportFile::Transactions(rows) => {
            assert_eq!(rows.len(), 1);
            assert_eq!(rows[0].kind, "transfer");
            assert_eq!(rows[0].target.as_deref(), Some("Cash"));
            assert_eq!(rows[0].amount, 7_000);
            assert_eq!(rows[0].date, "2025-03-20");
            assert_eq!(rows[0].reference.as_deref(), Some("R-1"));
            assert_eq!(rows[0].description, None);
        }
        _ => panic!("expected transactions"),
    }
    let checks = [FundCheckRecord {
        id: 1,
        schedule_type: "check".into(),
        direction: "outgoing".into(),
        account_name: "Bank".into(),
        party_name: "Acme".into(),
        check_number: "CHK-9".into(),
        bank_name: "Melli".into(),
        amount_minor: -40,
        due_on: "2024-02-29".into(),
        status: "upcoming".into(),
        note: String::new(),
    }];
    let sheet = fund_export_sheet(2, &[], &[], &checks);
    match read_fund_rows(&round_trip(&sheet), 2).unwrap() {
        FundImportFile::Checks(rows) => {
            assert_eq!(rows.len(), 1);
            assert_eq!(rows[0].schedule_type, "check");
            assert_eq!(rows[0].direction, "outgoing");
            assert_eq!(rows[0].number, "CHK-9");
            assert_eq!(rows[0].bank.as_deref(), Some("Melli"));
            assert_eq!(rows[0].amount, -40);
            assert_eq!(rows[0].due, "2024-02-29");
        }
        _ => panic!("expected checks"),
    }
}
