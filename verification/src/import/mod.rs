//! Spreadsheet exchange: reading catalog items, customers, fund records and
//! stock receipts from the first sheet of a workbook, and the sheets written
//! as templates and exports.

pub mod sheet;

mod catalog_excel;

pub use catalog_excel::{
    catalog_export_reads_back, catalog_export_row, catalog_export_sheet, catalog_exportable,
    catalog_header_names, catalog_headers, catalog_kind_code, catalog_kinds_read, catalog_kind_label, catalog_kind_of,
    catalog_read_back, catalog_row_draft, catalog_row_error, catalog_rows_match, catalog_samples,
    catalog_sheet_outcome, catalog_template_reads_back, catalog_template_sheet, import_unit_code, import_unit_of,
    lemma_unit_name_reads_back, parse_catalog_row, read_catalog_rows, CatalogImportFile,
};

mod customer_excel;

pub use customer_excel::{
    balance_export, balance_kinds_read, customer_export_reads_back, customer_export_row, customer_export_sheet,
    customer_exportable, customer_header_names, customer_headers, customer_kind_code,
    customer_kind_label, customer_kind_of, customer_read_back, customer_row_error,
    customer_row_balance_sign, customer_row_read, customer_rows_match, customer_shown_as, customer_sheet_outcome, customer_sheet_row,
    customer_template_reads_back, customer_template_sheet, opening_balance, parse_customer_row, read_customer_rows,
    CustomerImportFile, CustomerImportRow,
};

mod inventory_excel;

pub use inventory_excel::{
    invalid_row_message, inventory_export_row, inventory_export_sheet, inventory_header_names,
    inventory_headers, inventory_row_ok, inventory_row_read, inventory_rows_match,
    inventory_sample_receipt, inventory_samples, inventory_sheet_outcome,
    inventory_template_reads_back, inventory_template_sheet, parse_inventory_row,
    read_inventory_rows, stock_export_reads_back, stock_exportable, stock_read_back,
    InventoryImportFile,
};

mod fund_excel;

pub use fund_excel::{
    account_error_fn, account_export_reads_back, account_export_row, account_exportable,
    account_headers, account_kind_code, account_kind_label, account_kind_label_of, account_kind_of,
    account_read_back, account_read_fn, account_row_error, account_row_read, amount_message,
    check_error_fn, check_export_reads_back, check_export_row, check_exportable, check_headers,
    check_read_back, check_read_fn, check_row_error, check_row_read, date_reads_back,
    direction_code, direction_label, direction_of, fund_amount, fund_export_sheet,
    fund_header_names, fund_headers, fund_sample, fund_sheet_outcome, fund_template_sheet,
    lemma_fund_amount_reads_int_text, parse_account_row, parse_check_row, parse_fund_amount,
    parse_transaction_row, read_fund_rows, required_message, row_with_amount, schedule_code,
    schedule_export_label, schedule_of, transaction_error_fn, transaction_export_reads_back,
    transaction_export_row, transaction_exportable, transaction_headers, transaction_kind_code,
    transaction_kind_label, transaction_kind_label_of, transaction_kind_of, transaction_read_back,
    transaction_read_fn, transaction_row_error, transaction_row_read, without_separators,
    AccountImport, CheckImport, FundImportFile, TransactionImport,
};
