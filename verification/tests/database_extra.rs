use biztrace::database::{CustomerDraft, Database};
use biztrace::import::CustomerImportRow;

fn row(name: &str, opening: i64) -> CustomerImportRow {
    CustomerImportRow {
        customer: CustomerDraft {
            id: None,
            kind: "individual".into(),
            name: name.into(),
            phone: None,
            email: None,
            address: None,
        },
        opening_balance_minor: opening,
    }
}

#[test]
fn imported_customers_start_with_their_opening_balances() {
    let database = Database::open_in_memory().unwrap();
    let imported = database
        .import_customer_rows(&[row("Owes", 2_500_000), row("Owed", -1_000_000), row("Even", 0)])
        .unwrap();
    assert_eq!(imported, 3);
    let customers = database.customers("").unwrap();
    let balance = |name: &str| customers.iter().find(|c| c.name == name).unwrap().balance_minor;
    assert_eq!(balance("Owes"), 2_500_000);
    assert_eq!(balance("Owed"), -1_000_000);
    assert_eq!(balance("Even"), 0);
}

#[test]
fn customer_imports_stop_at_the_first_refused_row() {
    let database = Database::open_in_memory().unwrap();
    let result = database.import_customer_rows(&[row("First", 0), row(" ", 0), row("Third", 0)]);
    assert!(result.is_err());
    assert_eq!(database.customers("").unwrap().len(), 1);
}

#[test]
fn removed_customers_leave_the_counts() {
    let database = Database::open_in_memory().unwrap();
    database.import_customer_rows(&[row("A", 100), row("B", 0)]).unwrap();
    let a = database.customers("A").unwrap()[0].id;
    assert_eq!(database.overview_counts().unwrap().customers, 2);
    database.remove_customer(a).unwrap();
    assert_eq!(database.overview_counts().unwrap().customers, 1);
    assert!(database.customer(a).unwrap().is_none());
}

#[test]
fn customer_imports_of_nothing_or_a_refused_first_row() {
    let database = Database::open_in_memory().unwrap();
    assert_eq!(database.import_customer_rows(&[]).unwrap(), 0);
    let mut unknown = row("Kind", 0);
    unknown.customer.kind = "robot".into();
    match database.import_customer_rows(&[unknown, row("Later", 0)]) {
        Err(biztrace::database::DatabaseError::Validation(m)) => {
            assert_eq!(m, "invalid customer kind")
        }
        other => panic!("expected a refusal, got {other:?}"),
    }
    assert!(database.customers("").unwrap().is_empty());
}
