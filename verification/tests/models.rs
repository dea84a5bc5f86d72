
use biztrace::models::{
    Customer, CustomerId, CustomerKind, InventoryMovement, InventoryMovementId, MovementKind,
    WarehouseId,
    CatalogItem, CatalogItemId, Currency, Date, Invoice, InvoiceId, InvoiceLine, InvoiceStatus,
    ItemKind, ModelError, Money, Quantity, Unit, UserId,
};

#[test]
fn products_track_inventory_and_services_do_not() {
    let price = Money::new(1_000, Currency::Irr);
    let product = CatalogItem::new(
        CatalogItemId(1),
        ItemKind::Product,
        "Tea",
        Unit::Each,
        price,
    )
    .unwrap();
    let service = CatalogItem::new(
        CatalogItemId(2),
        ItemKind::Service,
        "Repair",
        Unit::Hour,
        price,
    )
    .unwrap();

    assert!(product.track_inventory);
    assert!(!service.track_inventory);
}

#[test]
fn invoice_total_uses_fixed_point_quantity_discount_and_tax() {
    let line = InvoiceLine {
        item_id: Some(CatalogItemId(1)),
        item_kind: ItemKind::Product,
        description: "Tea".into(),
        quantity: Quantity::from_milliunits(2_000).unwrap(),
        unit_price: Money::new(100_000, Currency::Irr),
        discount: Money::new(10_000, Currency::Irr),
        tax_basis_points: 1_000,
    };
    let invoice = Invoice {
        id: InvoiceId(1),
        number: "INV-1".into(),
        customer_id: None,
        status: InvoiceStatus::Draft,
        issued_on: Date::new(2026, 8, 12).unwrap(),
        due_on: None,
        currency: Currency::Irr,
        lines: vec![line],
        notes: None,
        created_by: UserId(1),
    };

    assert_eq!(invoice.total().unwrap(), Money::new(209_000, Currency::Irr));
}

#[test]
fn money_rejects_mixed_currencies() {
    let result = Money::new(1, Currency::Irr) + Money::new(1, Currency::Usd);
    assert_eq!(result, Err(ModelError::CurrencyMismatch));
}

#[test]
fn date_validation_rejects_impossible_dates() {
    assert_eq!(Date::new(2025, 2, 29), Err(ModelError::InvalidDate));
    assert!(Date::new(2024, 2, 29).is_ok());
}

#[test]
fn customer_balance_sign_tells_debit_from_credit() {
    let mut customer = Customer::new(CustomerId(1), CustomerKind::Individual, "Sara").unwrap();
    assert!(!customer.is_debit());
    assert!(!customer.is_credit());
    customer.balance = Money::new(250_000, Currency::Irr);
    assert!(customer.is_debit());
    assert!(!customer.is_credit());
    customer.balance = Money::new(-1, Currency::Irr);
    assert!(!customer.is_debit());
    assert!(customer.is_credit());
    assert_eq!(
        Customer::new(CustomerId(2), CustomerKind::Business, "  ").unwrap_err(),
        ModelError::EmptyField("customer.name")
    );
}

#[test]
fn outgoing_movements_count_negatively() {
    let mut movement = InventoryMovement {
        id: InventoryMovementId(1),
        warehouse_id: WarehouseId(1),
        item_id: CatalogItemId(1),
        kind: MovementKind::Purchase,
        quantity: Quantity::from_milliunits(2_500).unwrap(),
        increases_stock: true,
        occurred_on: Date::new(2024, 3, 20).unwrap(),
        reference: None,
        note: None,
        created_by: UserId(1),
    };
    assert_eq!(movement.signed_milliunits(), 2_500);
    movement.kind = MovementKind::Sale;
    movement.increases_stock = false;
    assert_eq!(movement.signed_milliunits(), -2_500);
    assert_eq!(Quantity::from_milliunits(0).unwrap_err(), ModelError::InvalidQuantity);
}

#[test]
fn model_errors_describe_themselves() {
    assert_eq!(ModelError::EmptyField("customer.name").message(), "customer.name cannot be empty");
    assert_eq!(ModelError::InvalidDate.message(), "date is invalid");
    assert_eq!(ModelError::CurrencyMismatch.message(), "currencies do not match");
    assert_eq!(ModelError::ArithmeticOverflow.message(), "numeric operation overflowed");
}
