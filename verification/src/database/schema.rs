//! The schema, as numbered migrations applied in order.

use vstd::prelude::*;

verus! {

/// The number of the last migration.
pub const LATEST_SCHEMA_VERSION: i64 = 10;

/// Migration 1.
pub const MIGRATION_1: &'static str = "CREATE TABLE users (
            id INTEGER PRIMARY KEY AUTOINCREMENT,
            username TEXT NOT NULL UNIQUE,
            display_name TEXT NOT NULL,
            password_hash TEXT NOT NULL,
            role TEXT NOT NULL,
            status TEXT NOT NULL DEFAULT 'active',
            created_at TEXT NOT NULL DEFAULT CURRENT_TIMESTAMP
        );
        CREATE TABLE customers (
            id INTEGER PRIMARY KEY AUTOINCREMENT,
            kind TEXT NOT NULL CHECK (kind IN ('individual', 'business')),
            name TEXT NOT NULL,
            phone TEXT,
            email TEXT,
            address TEXT,
            tax_id TEXT,
            notes TEXT,
            balance_minor INTEGER NOT NULL DEFAULT 0,
            currency TEXT NOT NULL DEFAULT 'IRR',
            active INTEGER NOT NULL DEFAULT 1,
            created_at TEXT NOT NULL DEFAULT CURRENT_TIMESTAMP,
            updated_at TEXT NOT NULL DEFAULT CURRENT_TIMESTAMP
        );
        CREATE TABLE customer_balance_entries (
            id INTEGER PRIMARY KEY AUTOINCREMENT,
            customer_id INTEGER NOT NULL REFERENCES customers(id) ON DELETE CASCADE,
            amount_minor INTEGER NOT NULL,
            kind TEXT NOT NULL CHECK (kind IN ('debit', 'credit', 'settlement')),
            note TEXT,
            created_at TEXT NOT NULL DEFAULT CURRENT_TIMESTAMP
        );";

/// Migration 2.
pub const MIGRATION_2: &'static str = "CREATE TABLE catalog_items (
            id INTEGER PRIMARY KEY AUTOINCREMENT,
            kind TEXT NOT NULL CHECK (kind IN ('product', 'service')),
            name TEXT NOT NULL,
            sku TEXT UNIQUE,
            description TEXT,
            unit TEXT NOT NULL,
            sale_price_minor INTEGER NOT NULL,
            cost_price_minor INTEGER,
            currency TEXT NOT NULL DEFAULT 'IRR',
            tax_basis_points INTEGER NOT NULL DEFAULT 0,
            track_inventory INTEGER NOT NULL DEFAULT 0,
            active INTEGER NOT NULL DEFAULT 1,
            created_at TEXT NOT NULL DEFAULT CURRENT_TIMESTAMP,
            updated_at TEXT NOT NULL DEFAULT CURRENT_TIMESTAMP
        );";

/// Migration 3.
pub const MIGRATION_3: &'static str = "CREATE TABLE invoices (
            id INTEGER PRIMARY KEY AUTOINCREMENT,
            number TEXT NOT NULL UNIQUE,
            customer_id INTEGER REFERENCES customers(id),
            status TEXT NOT NULL DEFAULT 'draft',
            issued_on TEXT NOT NULL,
            due_on TEXT,
            currency TEXT NOT NULL DEFAULT 'IRR',
            notes TEXT,
            created_by INTEGER REFERENCES users(id),
            created_at TEXT NOT NULL DEFAULT CURRENT_TIMESTAMP
        );
        CREATE TABLE invoice_lines (
            id INTEGER PRIMARY KEY AUTOINCREMENT,
            invoice_id INTEGER NOT NULL REFERENCES invoices(id) ON DELETE CASCADE,
            item_id INTEGER REFERENCES catalog_items(id) ON DELETE SET NULL,
            item_kind TEXT NOT NULL,
            description TEXT NOT NULL,
            quantity_milliunits INTEGER NOT NULL CHECK (quantity_milliunits > 0),
            unit_price_minor INTEGER NOT NULL,
            discount_minor INTEGER NOT NULL DEFAULT 0,
            tax_basis_points INTEGER NOT NULL DEFAULT 0
        );";

/// Migration 4.
pub const MIGRATION_4: &'static str = "CREATE TABLE warehouses (
            id INTEGER PRIMARY KEY AUTOINCREMENT,
            name TEXT NOT NULL,
            address TEXT,
            active INTEGER NOT NULL DEFAULT 1,
            created_at TEXT NOT NULL DEFAULT CURRENT_TIMESTAMP
        );
        CREATE TABLE stock_levels (
            warehouse_id INTEGER NOT NULL REFERENCES warehouses(id),
            item_id INTEGER NOT NULL REFERENCES catalog_items(id) ON DELETE CASCADE,
            quantity_milliunits INTEGER NOT NULL DEFAULT 0 CHECK (quantity_milliunits >= 0),
            reorder_point_milliunits INTEGER,
            updated_at TEXT NOT NULL DEFAULT CURRENT_TIMESTAMP,
            PRIMARY KEY (warehouse_id, item_id)
        );";

/// Migration 5.
pub const MIGRATION_5: &'static str = "CREATE TABLE inventory_movements (
            id INTEGER PRIMARY KEY AUTOINCREMENT,
            warehouse_id INTEGER NOT NULL REFERENCES warehouses(id),
            item_id INTEGER NOT NULL REFERENCES catalog_items(id) ON DELETE CASCADE,
            kind TEXT NOT NULL,
            quantity_milliunits INTEGER NOT NULL,
            increases_stock INTEGER NOT NULL,
            occurred_on TEXT NOT NULL,
            reference TEXT,
            note TEXT,
            created_by INTEGER REFERENCES users(id),
            unit_cost_minor INTEGER,
            total_cost_minor INTEGER,
            visible_in_history INTEGER NOT NULL DEFAULT 1,
            created_at TEXT NOT NULL DEFAULT CURRENT_TIMESTAMP
        );";

/// Migration 6.
pub const MIGRATION_6: &'static str = "CREATE TABLE inventory_cost_layers (
            id INTEGER PRIMARY KEY AUTOINCREMENT,
            warehouse_id INTEGER NOT NULL REFERENCES warehouses(id),
            item_id INTEGER NOT NULL REFERENCES catalog_items(id) ON DELETE CASCADE,
            source_movement_id INTEGER REFERENCES inventory_movements(id) ON DELETE SET NULL,
            acquired_quantity_milliunits INTEGER NOT NULL,
            remaining_quantity_milliunits INTEGER NOT NULL
                CHECK (remaining_quantity_milliunits >= 0),
            unit_cost_minor INTEGER NOT NULL,
            acquired_on TEXT NOT NULL,
            archived_at TEXT
        );
        CREATE TABLE inventory_cost_allocations (
            id INTEGER PRIMARY KEY AUTOINCREMENT,
            movement_id INTEGER NOT NULL REFERENCES inventory_movements(id) ON DELETE CASCADE,
            cost_layer_id INTEGER NOT NULL REFERENCES inventory_cost_layers(id) ON DELETE CASCADE,
            quantity_milliunits INTEGER NOT NULL,
            unit_cost_minor INTEGER NOT NULL,
            allocated_cost_minor INTEGER NOT NULL
        );";

/// Migration 7.
pub const MIGRATION_7: &'static str = "CREATE TABLE inventory_cost_layer_revisions (
            id INTEGER PRIMARY KEY AUTOINCREMENT,
            cost_layer_id INTEGER NOT NULL REFERENCES inventory_cost_layers(id) ON DELETE CASCADE,
            previous_quantity_milliunits INTEGER NOT NULL,
            new_quantity_milliunits INTEGER NOT NULL,
            previous_unit_cost_minor INTEGER NOT NULL,
            new_unit_cost_minor INTEGER NOT NULL,
            reference TEXT,
            previous_warehouse_id INTEGER REFERENCES warehouses(id),
            new_warehouse_id INTEGER REFERENCES warehouses(id),
            revised_at TEXT NOT NULL DEFAULT CURRENT_TIMESTAMP
        );";

/// Migration 8.
pub const MIGRATION_8: &'static str = "CREATE TABLE fund_accounts (
            id INTEGER PRIMARY KEY AUTOINCREMENT,
            kind TEXT NOT NULL CHECK (kind IN ('cash', 'bank', 'card', 'other')),
            name TEXT NOT NULL,
            account_number TEXT,
            currency TEXT NOT NULL DEFAULT 'IRR',
            opening_balance_minor INTEGER NOT NULL DEFAULT 0,
            active INTEGER NOT NULL DEFAULT 1,
            created_at TEXT NOT NULL DEFAULT CURRENT_TIMESTAMP,
            updated_at TEXT NOT NULL DEFAULT CURRENT_TIMESTAMP
        );
        CREATE TABLE fund_transactions (
            id INTEGER PRIMARY KEY AUTOINCREMENT,
            account_id INTEGER NOT NULL REFERENCES fund_accounts(id),
            transfer_account_id INTEGER REFERENCES fund_accounts(id),
            kind TEXT NOT NULL CHECK (kind IN ('income', 'expense', 'transfer')),
            amount_minor INTEGER NOT NULL CHECK (amount_minor > 0),
            currency TEXT NOT NULL DEFAULT 'IRR',
            category TEXT NOT NULL DEFAULT '',
            occurred_on TEXT NOT NULL,
            invoice_id INTEGER REFERENCES invoices(id),
            reference TEXT,
            description TEXT,
            created_by INTEGER REFERENCES users(id),
            created_at TEXT NOT NULL DEFAULT CURRENT_TIMESTAMP,
            updated_at TEXT NOT NULL DEFAULT CURRENT_TIMESTAMP
        );";

/// Migration 9.
pub const MIGRATION_9: &'static str = "CREATE TABLE fund_checks (
            id INTEGER PRIMARY KEY AUTOINCREMENT,
            schedule_type TEXT NOT NULL DEFAULT 'check'
                CHECK (schedule_type IN ('check', 'installment', 'scheduled')),
            direction TEXT NOT NULL CHECK (direction IN ('incoming', 'outgoing')),
            account_id INTEGER NOT NULL REFERENCES fund_accounts(id),
            party_name TEXT NOT NULL,
            check_number TEXT NOT NULL,
            bank_name TEXT,
            amount_minor INTEGER NOT NULL CHECK (amount_minor > 0),
            due_on TEXT NOT NULL,
            status TEXT NOT NULL DEFAULT 'upcoming'
                CHECK (status IN ('upcoming', 'cleared', 'returned', 'cancelled')),
            note TEXT,
            created_at TEXT NOT NULL DEFAULT CURRENT_TIMESTAMP,
            updated_at TEXT NOT NULL DEFAULT CURRENT_TIMESTAMP
        );";

/// Migration 10.
pub const MIGRATION_10: &'static str = "CREATE INDEX inventory_cost_layers_by_item
            ON inventory_cost_layers (warehouse_id, item_id, acquired_on, id);
        CREATE INDEX inventory_movements_by_item ON inventory_movements (item_id);
        CREATE INDEX fund_transactions_by_reference ON fund_transactions (reference);
        CREATE TRIGGER catalog_items_keep_stocked
            BEFORE DELETE ON catalog_items
            WHEN EXISTS (
                SELECT 1 FROM inventory_cost_layers
                WHERE item_id = OLD.id AND archived_at IS NULL
                  AND remaining_quantity_milliunits > 0
            )
        BEGIN
            SELECT RAISE(ABORT, 'catalog item still holds stock');
        END;
        CREATE TABLE archived_customers AS SELECT * FROM customers WHERE 0;
        CREATE TABLE archived_customer_balance_entries AS
            SELECT * FROM customer_balance_entries WHERE 0;
        CREATE TRIGGER customers_archive_removed
            AFTER UPDATE OF active ON customers
            WHEN NEW.active = 0
        BEGIN
            INSERT INTO archived_customers SELECT * FROM customers WHERE id = NEW.id;
            INSERT INTO archived_customer_balance_entries
                SELECT * FROM customer_balance_entries WHERE customer_id = NEW.id;
            DELETE FROM customers WHERE id = NEW.id;
        END;";

/// The SQL of a migration: empty for numbers without one.
pub open spec fn migration_text(version: int) -> Seq<char> {
    if version == 1 {
        MIGRATION_1@
    } else if version == 2 {
        MIGRATION_2@
    } else if version == 3 {
        MIGRATION_3@
    } else if version == 4 {
        MIGRATION_4@
    } else if version == 5 {
        MIGRATION_5@
    } else if version == 6 {
        MIGRATION_6@
    } else if version == 7 {
        MIGRATION_7@
    } else if version == 8 {
        MIGRATION_8@
    } else if version == 9 {
        MIGRATION_9@
    } else if version == 10 {
        MIGRATION_10@
    } else {
        ""@
    }
}

/// The SQL of a migration (empty for numbers without one).
pub fn migration_sql(version: i64) -> (r: &'static str)
    ensures
        r@ == migration_text(version as int),
        !(1 <= version <= LATEST_SCHEMA_VERSION) ==> r@.len() == 0,
{
    if version == 1 {
        MIGRATION_1
    } else if version == 2 {
        MIGRATION_2
    } else if version == 3 {
        MIGRATION_3
    } else if version == 4 {
        MIGRATION_4
    } else if version == 5 {
        MIGRATION_5
    } else if version == 6 {
        MIGRATION_6
    } else if version == 7 {
        MIGRATION_7
    } else if version == 8 {
        MIGRATION_8
    } else if version == 9 {
        MIGRATION_9
    } else if version == 10 {
        MIGRATION_10
    } else {
        proof {
            reveal_strlit("");
        }
        ""
    }
}

} // verus!
