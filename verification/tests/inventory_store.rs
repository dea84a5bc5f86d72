use biztrace::database::{
    CatalogDraft, Database, DatabaseError, InventoryMovementDraft, validate_movement_draft,
};

fn refusal<T: std::fmt::Debug>(result: Result<T, DatabaseError>) -> String {
    match result {
        Err(DatabaseError::Validation(message)) => message,
        other => panic!("expected a validation error, got {other:?}"),
    }
}

fn product(database: &Database, name: &str, sku: &str) -> i64 {
    database
        .save_catalog_item(&CatalogDraft {
            id: None,
            kind: "product".into(),
            name: name.into(),
            sku: Some(sku.into()),
            unit: "kilogram".into(),
            sale_price_minor: 1_000,
        })
        .unwrap()
}

fn receipt(warehouse_id: i64, item_id: i64, quantity: i64, cost: i64) -> InventoryMovementDraft {
    InventoryMovementDraft {
        warehouse_id,
        item_id,
        cost_layer_id: None,
        quantity_milliunits: quantity,
        increases_stock: true,
        unit_cost_minor: Some(cost),
        reference: None,
    }
}

#[test]
fn movement_drafts_are_validated_before_the_store_is_read() {
    let mut draft = receipt(1, 1, 0, 10);
    assert_eq!(refusal(validate_movement_draft(&draft)), "quantity must be positive");
    draft.quantity_milliunits = 5;
    draft.unit_cost_minor = None;
    assert_eq!(
        refusal(validate_movement_draft(&draft)),
        "purchase cost is required for incoming stock"
    );
    draft.unit_cost_minor = Some(1);
    draft.cost_layer_id = Some(3);
    assert_eq!(
        refusal(validate_movement_draft(&draft)),
        "incoming stock cannot target an existing layer"
    );
    draft.increases_stock = false;
    draft.unit_cost_minor = None;
    assert!(validate_movement_draft(&draft).is_ok());
}

#[test]
fn stock_level_is_set_by_recording_the_difference() {
    let database = Database::open_in_memory().unwrap();
    let item = product(&database, "Beans", "BEANS");
    let warehouse = database.create_warehouse("Main", Some("Street 1")).unwrap();
    database.set_stock_level(warehouse, item, 4_000, Some(100), Some("count")).unwrap();
    assert_eq!(database.stock_records("").unwrap()[0].quantity_milliunits, 4_000);
    database.set_stock_level(warehouse, item, 1_500, None, None).unwrap();
    assert_eq!(database.stock_records("").unwrap()[0].quantity_milliunits, 1_500);
    database.set_stock_level(warehouse, item, 1_500, None, None).unwrap();
    assert_eq!(database.movement_records().unwrap().len(), 2);
    assert_eq!(
        refusal(database.set_stock_level(warehouse, item, -1, None, None)),
        "stock cannot be negative"
    );
    assert_eq!(
        refusal(database.set_stock_level(warehouse, item, 2_000, None, None)),
        "purchase cost is required for incoming stock"
    );
}

#[test]
fn warehouses_are_listed_renamed_and_checked_for_stock() {
    let database = Database::open_in_memory().unwrap();
    let item = product(&database, "Beans", "BEANS");
    let first = database.create_warehouse("B side", None).unwrap();
    let second = database.save_warehouse(None, "A side", Some("Road")).unwrap();
    assert_eq!(database.save_warehouse(Some(first), "C side", None).unwrap(), first);
    database.record_inventory_movement(&receipt(second, item, 1_000, 10)).unwrap();
    let listed = database.warehouses().unwrap();
    assert_eq!(listed.len(), 2);
    assert_eq!(listed[0].name, "A side");
    assert_eq!(listed[0].address, "Road");
    assert!(listed[0].has_stock);
    assert!(!listed[1].has_stock);
    assert_eq!(refusal(database.remove_warehouse(second)), "warehouse contains stock");
    database.remove_warehouse(first).unwrap();
    assert_eq!(database.warehouses().unwrap().len(), 1);
    assert_eq!(
        refusal(database.move_and_remove_warehouse(second, second)),
        "alternate warehouse must be different"
    );
    assert_eq!(
        refusal(database.move_and_remove_warehouse(second, first)),
        "alternate warehouse is inactive"
    );
}

#[test]
fn cost_layers_refuse_negative_values_and_inactive_targets() {
    let database = Database::open_in_memory().unwrap();
    let item = product(&database, "Beans", "BEANS");
    let main = database.create_warehouse("Main", None).unwrap();
    let closed = database.create_warehouse("Closed", None).unwrap();
    database.remove_warehouse(closed).unwrap();
    database.record_inventory_movement(&receipt(main, item, 2_000, 10)).unwrap();
    let layer = database.stock_records("").unwrap()[0].cost_layer_id;
    assert_eq!(
        refusal(database.update_cost_layer(layer, main, -1, 10, None)),
        "invalid inventory layer values"
    );
    assert_eq!(
        refusal(database.update_cost_layer(layer, closed, 1_000, 10, None)),
        "warehouse is inactive"
    );
    database.update_cost_layer(layer, main, 500, 12, None).unwrap();
    let record = &database.stock_records("").unwrap()[0];
    assert_eq!(record.quantity_milliunits, 500);
    assert_eq!(record.acquired_quantity_milliunits, 500);
    assert_eq!(record.unit_cost_minor, 12);
}

#[test]
fn issues_of_a_chosen_layer_are_limited_to_that_layer() {
    let database = Database::open_in_memory().unwrap();
    let item = product(&database, "Beans", "BEANS");
    let main = database.create_warehouse("Main", None).unwrap();
    database.record_inventory_movement(&receipt(main, item, 1_000, 10)).unwrap();
    database.record_inventory_movement(&receipt(main, item, 1_000, 20)).unwrap();
    let second = database
        .stock_records("")
        .unwrap()
        .into_iter()
        .find(|layer| layer.unit_cost_minor == 20)
        .unwrap()
        .cost_layer_id;
    let issue = InventoryMovementDraft {
        warehouse_id: main,
        item_id: item,
        cost_layer_id: Some(second),
        quantity_milliunits: 1_500,
        increases_stock: false,
        unit_cost_minor: None,
        reference: None,
    };
    assert_eq!(
        refusal(database.record_inventory_movement(&issue)),
        "inventory cost layers are incomplete"
    );
    let total: i64 = database
        .stock_records("")
        .unwrap()
        .iter()
        .map(|layer| layer.quantity_milliunits)
        .sum();
    assert_eq!(total, 2_000);
}

#[test]
fn stocked_products_can_be_searched() {
    let database = Database::open_in_memory().unwrap();
    product(&database, "Arabica beans", "ARB");
    product(&database, "Robusta beans", "ROB");
    let found = database.inventory_products("rob").unwrap();
    assert_eq!(found.len(), 1);
    assert_eq!(found[0].1, "Robusta beans");
    assert_eq!(found[0].2, "ROB");
    assert_eq!(database.inventory_products("").unwrap().len(), 2);
}
