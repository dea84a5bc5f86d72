//! Domain records: money, quantities, dates, catalog items, customers,
//! funds, inventory movements, invoices and users.

mod catalog;
mod common;
mod customer;
mod fund;
mod inventory;
mod invoice;
mod user;

pub use catalog::{CatalogItem, CatalogItemId, ItemKind, Unit};
pub use common::{
    days_in_month, div_trunc, in_i64, is_leap_year, model_error_text, money_difference,
    money_sub_undoes_add, money_sum, money_sum_commutes, valid_date, Currency, Date, ModelError,
    Money, Quantity, QUANTITY_SCALE,
};
pub use customer::{Customer, CustomerId, CustomerKind};
pub use fund::{FundAccount, FundAccountId, FundTransaction, FundTransactionId, TransactionKind};
pub use inventory::{InventoryMovement, InventoryMovementId, MovementKind, StockLevel, WarehouseId};
pub use invoice::{
    invoice_total_from, line_subtotal, line_tax, line_total, Invoice, InvoiceId, InvoiceLine,
    InvoiceStatus,
};
pub use user::{User, UserId, UserRole, UserStatus};
