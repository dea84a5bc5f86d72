//! Warehouses, stock levels, FIFO cost layers and the movement history.

use vstd::prelude::*;

use super::costing::{
    allocate_fifo, inbound_total, issuable, level_after_layer_leaves, movement_kind, next_stock,
    adjustment_for, cost_sum, fifo_costs_fit, fifo_shortfall, fifo_used, inbound_total_of, milliunit_cost,
    restocked_level, revised_acquired, revised_acquired_quantity, revised_layer_keeps_consumed, stock_adjustment, stock_after,
    transfer_cost, Allocation, CostLayer,
};
use crate::models::in_i64;
use crate::text::{opt_str_view, opt_string_view};
use super::journal::{
    begin_in, commit_in, first_int, first_row, ints_view, lemma_ints_view, lemma_run_ints_same,
    opt_text_view, params_view,
    read_first_in, read_in, read_int, read_int_in, read_rows,
    rows_view, rowid_in, run_in, run_ints, true_count, Entry, ParamView,
};
use super::sql::{self, Cell};
use super::{like_pattern_of, cell_bool, cell_int, cell_opt_int, cell_text, id_args, refused, search_args, store_failure, unexpected_column, Database, DatabaseError};

verus! {

broadcast use vstd::string::group_string_axioms;

/// Up to fifty active stocked products whose name or code matches a pattern.
pub const INVENTORY_PRODUCTS_SQL: &'static str = "SELECT id, name, COALESCE(sku, '') FROM catalog_items
             WHERE active = 1 AND kind = 'product' AND track_inventory = 1
               AND (name LIKE ?1 OR COALESCE(sku, '') LIKE ?1)
             ORDER BY name COLLATE NOCASE LIMIT 50";

/// The row reads as this product: id, name and code.
pub open spec fn product_row_is(row: Seq<Cell>, product: (i64, String, String)) -> bool {
    &&& row[0] == Cell::Int(product.0)
    &&& row[1] is Text && row[1]->Text_0@ == product.1@
    &&& row[2] is Text && row[2]->Text_0@ == product.2@
}

/// The active warehouses by name, with whether each holds stock.
pub const WAREHOUSES_SQL: &'static str = "SELECT w.id, w.name, COALESCE(w.address, ''),
                    EXISTS(SELECT 1 FROM stock_levels s
                           WHERE s.warehouse_id = w.id AND s.quantity_milliunits > 0)
             FROM warehouses w
             WHERE w.active = 1 ORDER BY w.name COLLATE NOCASE";

/// The unarchived cost layers that hold stock, of active items in active warehouses whose item name, code or warehouse name matches a pattern.
pub const STOCK_RECORDS_SQL: &'static str = "SELECT l.id, l.warehouse_id, w.name, l.item_id, i.name, COALESCE(i.sku, ''), i.unit,
                    l.remaining_quantity_milliunits, l.acquired_quantity_milliunits,
                    (l.remaining_quantity_milliunits * l.unit_cost_minor) / 1000,
                    l.unit_cost_minor
             FROM inventory_cost_layers l
             JOIN warehouses w ON w.id = l.warehouse_id
             JOIN catalog_items i ON i.id = l.item_id
             WHERE w.active = 1 AND i.active = 1
               AND l.archived_at IS NULL
               AND l.remaining_quantity_milliunits > 0
               AND (i.name LIKE ?1 OR COALESCE(i.sku, '') LIKE ?1 OR w.name LIKE ?1)
             ORDER BY i.name COLLATE NOCASE, w.name COLLATE NOCASE, l.acquired_on, l.id";

/// The latest movements still shown in the history, newest first.
pub const MOVEMENT_RECORDS_SQL: &'static str = "SELECT i.name, w.name, m.quantity_milliunits, m.increases_stock,
                    COALESCE(m.reference, ''), m.occurred_on,
                    m.unit_cost_minor, m.total_cost_minor
             FROM inventory_movements m
             JOIN catalog_items i ON i.id = m.item_id
             JOIN warehouses w ON w.id = m.warehouse_id
             WHERE m.visible_in_history = 1
             ORDER BY m.id DESC LIMIT 250";

/// An active warehouse by name.
pub const WAREHOUSE_BY_NAME_SQL: &'static str = "SELECT id FROM warehouses WHERE active = 1 AND name = ?1 COLLATE NOCASE";

/// An active product by code.
pub const PRODUCT_BY_CODE_SQL: &'static str = "SELECT id FROM catalog_items
                 WHERE active = 1 AND kind = 'product' AND sku = ?1 COLLATE NOCASE";

/// The id a lookup found: none when it found no row.
pub open spec fn found_id(rows: Seq<Seq<Cell>>) -> Option<i64> {
    if rows.len() == 0 {
        None
    } else {
        first_int(rows)
    }
}

/// What importing one stock row read and ran: the warehouse looked up by
/// name and the product by code; when both are found, a receipt into that
/// warehouse of that product, of the row's quantity at the row's unit cost
/// with the row's reference, whose steps follow; it is `recorded` only when
/// that receipt went through (`movement_journal`). A row with either not
/// found reads the two lookups only and is not recorded.
pub open spec fn inventory_import_step(row: InventoryImportRow, seg: Seq<Entry>, recorded: bool) -> bool {
    &&& seg.len() >= 2
    &&& read_rows(seg[0], WAREHOUSE_BY_NAME_SQL@, seq![ParamView::Text(row.warehouse@)]) matches Some(
        wr,
    ) && read_rows(seg[1], PRODUCT_BY_CODE_SQL@, seq![ParamView::Text(row.sku@)]) matches Some(ir)
        && match (found_id(wr), found_id(ir)) {
        (Some(w), Some(i)) => recorded ==> exists|d: InventoryMovementDraft|
            #[trigger] movement_journal(d, seg.skip(2)) && d.warehouse_id == w && d.item_id == i
                && d.cost_layer_id is None && d.quantity_milliunits == row.quantity_milliunits
                && d.increases_stock && d.unit_cost_minor == Some(row.unit_cost_minor)
                && d.reference == row.reference,
        _ => seg.len() == 2 && !recorded,
    }
}

/// A cost layer's warehouse and unit cost.
pub const LAYER_BRIEF_SQL: &'static str = "SELECT warehouse_id, unit_cost_minor FROM inventory_cost_layers WHERE id = ?1";

/// Archives a cost layer.
pub const LAYER_ARCHIVE_SQL: &'static str = "UPDATE inventory_cost_layers
             SET archived_at = CURRENT_TIMESTAMP
             WHERE id = ?1";

/// Hides the receipt that opened a cost layer.
pub const SOURCE_HIDE_SQL: &'static str = "UPDATE inventory_movements
             SET visible_in_history = 0
             WHERE id = (
                 SELECT source_movement_id FROM inventory_cost_layers WHERE id = ?1
             )";

/// Keeps in the history only the movements that still draw on an unarchived layer, of those that drew on a cost layer.
pub const ALLOCATIONS_REVISIT_SQL: &'static str = "UPDATE inventory_movements
             SET visible_in_history = EXISTS(
                 SELECT 1
                 FROM inventory_cost_allocations a
                 JOIN inventory_cost_layers l ON l.id = a.cost_layer_id
                 WHERE a.movement_id = inventory_movements.id
                   AND l.archived_at IS NULL
             )
             WHERE id IN (
                 SELECT movement_id FROM inventory_cost_allocations WHERE cost_layer_id = ?1
             )";

/// Hides the movements of an item of which no unarchived layer holds stock.
pub const ITEM_HIDE_SQL: &'static str = "UPDATE inventory_movements
             SET visible_in_history = 0
             WHERE item_id = (SELECT item_id FROM inventory_cost_layers WHERE id = ?1)
               AND NOT EXISTS(
                   SELECT 1 FROM inventory_cost_layers l
                   WHERE l.item_id = inventory_movements.item_id
                     AND l.archived_at IS NULL
                     AND l.remaining_quantity_milliunits > 0
               )";

/// A removal of a cost layer that went through: the layer's warehouse `w`
/// and unit cost `c` are read, the layer's revision to nothing in `w` at
/// `c` with the reference "removed from inventory" goes through
/// (`layer_revision_journal`), and then, in one transaction, the layer is
/// archived and the history revisited.
pub open spec fn layer_removal_journal(layer: i64, j: Seq<Entry>) -> bool {
    &&& j.len() >= 7
    &&& first_row(j[0], LAYER_BRIEF_SQL@, seq![ParamView::Int(layer)]) matches Some(row) && {
        &&& row.len() == 2 && row[0] is Int && row[1] is Int
        &&& layer_revision_journal(
            layer,
            row[0]->Int_0,
            0,
            row[1]->Int_0,
            Some("removed from inventory"@),
            j.subrange(1, j.len() - 6),
        )
    }
    &&& j.subrange(j.len() - 6, j.len() as int) == seq![
        Entry::Begin,
        run_ints(LAYER_ARCHIVE_SQL@, seq![layer]),
        run_ints(SOURCE_HIDE_SQL@, seq![layer]),
        run_ints(ALLOCATIONS_REVISIT_SQL@, seq![layer]),
        run_ints(ITEM_HIDE_SQL@, seq![layer]),
        Entry::Commit,
    ]
}

/// Inserts a warehouse.
pub const WAREHOUSE_INSERT_SQL: &'static str = "INSERT INTO warehouses (name, address) VALUES (?1, ?2)";

/// Renames a warehouse.
pub const WAREHOUSE_UPDATE_SQL: &'static str = "UPDATE warehouses SET name = ?1, address = ?2 WHERE id = ?3";

/// Whether a warehouse holds stock.
pub const WAREHOUSE_STOCKED_SQL: &'static str = "SELECT EXISTS(SELECT 1 FROM stock_levels
             WHERE warehouse_id = ?1 AND quantity_milliunits > 0)";

/// Deactivates a warehouse.
pub const WAREHOUSE_DEACTIVATE_SQL: &'static str = "UPDATE warehouses SET active = 0 WHERE id = ?1";

/// Whether a warehouse is active.
pub const TARGET_ACTIVE_SQL: &'static str = "SELECT active FROM warehouses WHERE id = ?1";

/// The items a warehouse holds and their quantities.
pub const SOURCE_STOCK_SQL: &'static str = "SELECT item_id, quantity_milliunits FROM stock_levels
             WHERE warehouse_id = ?1 AND quantity_milliunits > 0";

/// The cost of the stock of an item that a warehouse's layers carry.
pub const TOTAL_COST_SQL: &'static str = "SELECT COALESCE(SUM((remaining_quantity_milliunits * unit_cost_minor) / 1000), 0)
                 FROM inventory_cost_layers
                 WHERE warehouse_id = ?1 AND item_id = ?2 AND remaining_quantity_milliunits > 0";

/// Adds a quantity to the stock level of an item in a warehouse.
pub const LEVEL_ADD_SQL: &'static str = "INSERT INTO stock_levels (warehouse_id, item_id, quantity_milliunits)
                 VALUES (?1, ?2, ?3)
                 ON CONFLICT(warehouse_id, item_id) DO UPDATE SET
                    quantity_milliunits = quantity_milliunits + excluded.quantity_milliunits,
                    updated_at = CURRENT_TIMESTAMP";

/// Records one side of a transfer between warehouses.
pub const TRANSFER_MOVEMENT_SQL: &'static str = "INSERT INTO inventory_movements
                     (warehouse_id, item_id, kind, quantity_milliunits, increases_stock,
                      occurred_on, reference, total_cost_minor)
                     VALUES (?1, ?2, ?3, ?4, ?5, date('now'), 'warehouse removal transfer', ?6)";

/// Moves the layers that hold stock to another warehouse.
pub const LAYERS_MOVE_SQL: &'static str = "UPDATE inventory_cost_layers SET warehouse_id = ?1
             WHERE warehouse_id = ?2 AND remaining_quantity_milliunits > 0";

/// Deletes the stock levels of a warehouse.
pub const LEVELS_DELETE_SQL: &'static str = "DELETE FROM stock_levels WHERE warehouse_id = ?1";

/// The parameters of one side of a transfer: warehouse, item, kind,
/// quantity, whether it increases the stock (1) or not (0), and cost.
pub open spec fn transfer_params(
    warehouse: i64,
    item: i64,
    kind: Seq<char>,
    quantity: i64,
    increases: i64,
    cost: i64,
) -> Seq<ParamView> {
    seq![
        ParamView::Int(warehouse),
        ParamView::Int(item),
        ParamView::Text(kind),
        ParamView::Int(quantity),
        ParamView::Int(increases),
        ParamView::Int(cost),
    ]
}

/// The four steps that move one item of the source: the cost its layers
/// carry is read, its quantity is added to the target's level, and the
/// transfer out of the source and into the target is recorded at that cost.
pub open spec fn item_moved(source: i64, target: i64, row: Seq<Cell>, steps: Seq<Entry>) -> bool {
    &&& row.len() == 2
    &&& row[0] is Int
    &&& row[1] is Int
    &&& steps.len() == 4
    &&& read_int(steps[0], TOTAL_COST_SQL@, ints_view(seq![source, row[0]->Int_0])) matches Some(
        cost,
    ) && steps[2] == Entry::Run(
        TRANSFER_MOVEMENT_SQL@,
        transfer_params(source, row[0]->Int_0, "transfer_out"@, row[1]->Int_0, 0, cost),
    ) && steps[3] == Entry::Run(
        TRANSFER_MOVEMENT_SQL@,
        transfer_params(target, row[0]->Int_0, "transfer_in"@, row[1]->Int_0, 1, cost),
    )
    &&& steps[1] == run_ints(LEVEL_ADD_SQL@, seq![target, row[0]->Int_0, row[1]->Int_0])
}

/// A move of a warehouse's stock that went through: a transaction in which
/// the target is read as active and the source's stocked items are read,
/// every item is moved (`item_moved`), the source's layers that hold stock
/// move to the target, its levels are deleted, it is deactivated, and the
/// transaction is committed.
pub open spec fn warehouse_move_journal(source: i64, target: i64, j: Seq<Entry>) -> bool {
    &&& j.len() >= 7
    &&& j[0] == Entry::Begin
    &&& read_int(j[1], TARGET_ACTIVE_SQL@, seq![ParamView::Int(target)]) matches Some(v) && v != 0
    &&& read_rows(j[2], SOURCE_STOCK_SQL@, seq![ParamView::Int(source)]) matches Some(rows) && j.len()
        == 7 + 4 * rows.len() && forall|k: int|
        0 <= k < rows.len() ==> item_moved(
            source,
            target,
            #[trigger] rows[k],
            j.subrange(3 + 4 * k, 7 + 4 * k),
        )
    &&& j[j.len() - 4] == run_ints(LAYERS_MOVE_SQL@, seq![target, source])
    &&& j[j.len() - 3] == run_ints(LEVELS_DELETE_SQL@, seq![source])
    &&& j[j.len() - 2] == run_ints(WAREHOUSE_DEACTIVATE_SQL@, seq![source])
    &&& j[j.len() - 1] == Entry::Commit
}

/// A cost layer's warehouse, item, acquired and remaining quantities and
/// unit cost.
pub const LAYER_READ_SQL: &'static str = "SELECT warehouse_id, item_id, acquired_quantity_milliunits,
                    remaining_quantity_milliunits, unit_cost_minor
             FROM inventory_cost_layers WHERE id = ?1";

/// The stock level of an item in a warehouse.
pub const LEVEL_READ_SQL: &'static str = "SELECT quantity_milliunits FROM stock_levels
             WHERE warehouse_id = ?1 AND item_id = ?2";

/// Sets the stock level of an item in a warehouse.
pub const LEVEL_SET_SQL: &'static str = "UPDATE stock_levels SET quantity_milliunits = ?1, updated_at = CURRENT_TIMESTAMP
                 WHERE warehouse_id = ?2 AND item_id = ?3";

/// Records one side of a layer's move between warehouses.
pub const REVISION_TRANSFER_SQL: &'static str = "INSERT INTO inventory_movements
                     (warehouse_id, item_id, kind, quantity_milliunits, increases_stock,
                      occurred_on, reference, unit_cost_minor, total_cost_minor)
                     VALUES (?1, ?2, ?3, ?4, ?5, date('now'), ?6, ?7, ?8)";

/// Rewrites a cost layer.
pub const LAYER_REVISE_SQL: &'static str = "UPDATE inventory_cost_layers
             SET acquired_quantity_milliunits = ?1,
                 remaining_quantity_milliunits = ?2,
                 unit_cost_minor = ?3,
                 warehouse_id = ?4
             WHERE id = ?5";

/// Keeps the revision of a cost layer.
pub const REVISION_RECORD_SQL: &'static str = "INSERT INTO inventory_cost_layer_revisions
             (cost_layer_id, previous_quantity_milliunits, new_quantity_milliunits,
              previous_unit_cost_minor, new_unit_cost_minor, reference,
              previous_warehouse_id, new_warehouse_id)
             VALUES (?1, ?2, ?3, ?4, ?5, ?6, ?7, ?8)";

/// The parameters of one side of a layer's move: warehouse, item, kind,
/// quantity, whether it increases the stock (1) or not (0), reference,
/// unit cost and total cost.
pub open spec fn revision_transfer_params(
    warehouse: i64,
    item: i64,
    kind: Seq<char>,
    quantity: i64,
    increases: i64,
    reference: Option<Seq<char>>,
    unit_cost: i64,
    cost: i64,
) -> Seq<ParamView> {
    seq![
        ParamView::Int(warehouse),
        ParamView::Int(item),
        ParamView::Text(kind),
        ParamView::Int(quantity),
        ParamView::Int(increases),
        opt_text_view(reference),
        ParamView::Int(unit_cost),
        ParamView::Int(cost),
    ]
}

/// The parameters of a kept revision.
pub open spec fn revision_params(
    layer: i64,
    previous_quantity: i64,
    quantity: i64,
    previous_cost: i64,
    cost: i64,
    reference: Option<Seq<char>>,
    previous_warehouse: i64,
    warehouse: i64,
) -> Seq<ParamView> {
    seq![
        ParamView::Int(layer),
        ParamView::Int(previous_quantity),
        ParamView::Int(quantity),
        ParamView::Int(previous_cost),
        ParamView::Int(cost),
        opt_text_view(reference),
        ParamView::Int(previous_warehouse),
        ParamView::Int(warehouse),
    ]
}

/// A revision of a cost layer that went through. In one transaction the
/// layer is read (warehouse `w`, item `i`, acquired `a`, remaining `p` not
/// negative, unit cost `c`), its acquired quantity is revised
/// (`revised_acquired`), the target is read as active and the level of the
/// item in `w` is read (`s`, not negative). When the layer stays in `w`,
/// that level becomes `s + quantity - p` (not negative); when it moves, it
/// becomes `s - p` (not negative), `quantity` is added to the target's
/// level, and the transfer out of `w` and into the target of `p` is recorded
/// at the cost the layer carried. Then the layer is rewritten, the revision
/// kept, and the transaction committed.
pub open spec fn layer_revision_journal(
    layer: i64,
    target: i64,
    quantity: i64,
    unit_cost: i64,
    reference: Option<Seq<char>>,
    j: Seq<Entry>,
) -> bool {
    &&& j.len() >= 7
    &&& j[0] == Entry::Begin
    &&& first_row(j[1], LAYER_READ_SQL@, seq![ParamView::Int(layer)]) matches Some(row) && {
        &&& row.len() == 5
        &&& row[0] is Int && row[1] is Int && row[2] is Int && row[3] is Int && row[4] is Int
        &&& row[3]->Int_0 >= 0
        &&& {
            let w = row[0]->Int_0;
            let i = row[1]->Int_0;
            let p = row[3]->Int_0;
            let c = row[4]->Int_0;
            &&& revised_acquired(row[2]->Int_0 as int, p as int, quantity as int) matches Some(
                acquired,
            ) && j[j.len() - 3] == run_ints(
                LAYER_REVISE_SQL@,
                seq![acquired as i64, quantity, unit_cost, target, layer],
            )
            &&& j[j.len() - 2] == Entry::Run(
                REVISION_RECORD_SQL@,
                revision_params(layer, p, quantity, c, unit_cost, reference, w, target),
            )
            &&& j[j.len() - 1] == Entry::Commit
            &&& read_int(j[2], TARGET_ACTIVE_SQL@, seq![ParamView::Int(target)]) matches Some(v)
                && v != 0
            &&& read_int(j[3], LEVEL_READ_SQL@, ints_view(seq![w, i])) matches Some(s) && s >= 0
                && if w == target {
                j.len() == 8 && in_i64(s + quantity - p) && s + quantity - p >= 0 && j[4]
                    == run_ints(LEVEL_SET_SQL@, seq![(s + quantity - p) as i64, w, i])
            } else {
                j.len() == 11 && s - p >= 0 && in_i64(c * p) && j[4] == run_ints(
                    LEVEL_SET_SQL@,
                    seq![(s - p) as i64, w, i],
                ) && j[5] == run_ints(LEVEL_ADD_SQL@, seq![target, i, quantity]) && j[6]
                    == Entry::Run(
                    REVISION_TRANSFER_SQL@,
                    revision_transfer_params(
                        w,
                        i,
                        "transfer_out"@,
                        p,
                        0,
                        reference,
                        c,
                        milliunit_cost(c as int, p as int) as i64,
                    ),
                ) && j[7] == Entry::Run(
                    REVISION_TRANSFER_SQL@,
                    revision_transfer_params(
                        target,
                        i,
                        "transfer_in"@,
                        p,
                        1,
                        reference,
                        c,
                        milliunit_cost(c as int, p as int) as i64,
                    ),
                )
            }
        }
    }
}

/// The refusals of a layer revision are told apart.
proof fn lemma_layer_messages_differ()
    ensures
        "invalid inventory layer values"@ != "unexpected column value"@,
        "invalid inventory layer values"@ != "stock quantity overflow"@,
        "invalid inventory layer values"@ != "warehouse is inactive"@,
        "invalid inventory layer values"@ != "stock cannot be negative"@,
        "invalid inventory layer values"@ != "inventory cost overflow"@,
        "warehouse is inactive"@ != "unexpected column value"@,
        "warehouse is inactive"@ != "stock quantity overflow"@,
        "warehouse is inactive"@ != "stock cannot be negative"@,
        "warehouse is inactive"@ != "inventory cost overflow"@,
{
    reveal_strlit("invalid inventory layer values");
    reveal_strlit("unexpected column value");
    reveal_strlit("stock quantity overflow");
    reveal_strlit("warehouse is inactive");
    reveal_strlit("stock cannot be negative");
    reveal_strlit("inventory cost overflow");
    assert("invalid inventory layer values"@[0] != "unexpected column value"@[0]);
    assert("invalid inventory layer values"@[0] != "stock quantity overflow"@[0]);
    assert("invalid inventory layer values"@[0] != "warehouse is inactive"@[0]);
    assert("invalid inventory layer values"@[0] != "stock cannot be negative"@[0]);
    assert("invalid inventory layer values"@[3] != "inventory cost overflow"@[3]);
    assert("warehouse is inactive"@[0] != "unexpected column value"@[0]);
    assert("warehouse is inactive"@[0] != "stock quantity overflow"@[0]);
    assert("warehouse is inactive"@[0] != "stock cannot be negative"@[0]);
    assert("warehouse is inactive"@[0] != "inventory cost overflow"@[0]);
}

/// The stock level of an item in a warehouse, zero when there is none.
pub const STOCK_LEVEL_SQL: &'static str = "SELECT COALESCE((SELECT quantity_milliunits FROM stock_levels
         WHERE warehouse_id = ?1 AND item_id = ?2), 0)";

/// Puts the stock level of an item in a warehouse.
pub const LEVEL_PUT_SQL: &'static str = "INSERT INTO stock_levels (warehouse_id, item_id, quantity_milliunits)
             VALUES (?1, ?2, ?3)
             ON CONFLICT(warehouse_id, item_id) DO UPDATE
             SET quantity_milliunits = excluded.quantity_milliunits, updated_at = CURRENT_TIMESTAMP";

/// Records a movement.
pub const MOVEMENT_RECORD_SQL: &'static str = "INSERT INTO inventory_movements
             (warehouse_id, item_id, kind, quantity_milliunits, increases_stock, occurred_on, reference,
              unit_cost_minor, total_cost_minor)
             VALUES (?1, ?2, ?3, ?4, ?5, date('now'), ?6, ?7, ?8)";

/// Opens the cost layer of a receipt.
pub const LAYER_OPEN_SQL: &'static str = "INSERT INTO inventory_cost_layers
                 (warehouse_id, item_id, source_movement_id, acquired_quantity_milliunits,
                  remaining_quantity_milliunits, unit_cost_minor, acquired_on)
                 VALUES (?1, ?2, ?3, ?4, ?4, ?5, date('now'))";

/// The layers an issue may draw on, oldest first.
pub const ISSUE_LAYERS_SQL: &'static str = "SELECT id, remaining_quantity_milliunits, unit_cost_minor
                 FROM inventory_cost_layers
                 WHERE warehouse_id = ?1 AND item_id = ?2 AND remaining_quantity_milliunits > 0
                   AND archived_at IS NULL
                   AND (?3 IS NULL OR id = ?3)
                 ORDER BY acquired_on, id";

/// Draws a quantity from a layer.
pub const LAYER_DRAW_SQL: &'static str = "UPDATE inventory_cost_layers
                     SET remaining_quantity_milliunits = remaining_quantity_milliunits - ?1
                     WHERE id = ?2";

/// Records what an issue drew from a layer.
pub const ALLOCATION_RECORD_SQL: &'static str = "INSERT INTO inventory_cost_allocations
                     (movement_id, cost_layer_id, quantity_milliunits, unit_cost_minor, allocated_cost_minor)
                     VALUES (?1, ?2, ?3, ?4, ?5)";

/// Sets the cost of an issue to what it drew.
pub const MOVEMENT_COST_SQL: &'static str = "UPDATE inventory_movements
                 SET total_cost_minor = ?1,
                     unit_cost_minor = CASE WHEN quantity_milliunits = 0 THEN 0
                         ELSE (?1 * 1000) / quantity_milliunits END
                 WHERE id = ?2";

/// The unit cost a receipt's layer opens at.
pub open spec fn receipt_unit_cost(d: InventoryMovementDraft) -> i64 {
    match d.unit_cost_minor {
        Some(c) => c,
        None => 0,
    }
}

/// An optional integer parameter as the journal keeps it.
pub open spec fn opt_int_view(v: Option<i64>) -> ParamView {
    match v {
        Some(i) => ParamView::Int(i),
        None => ParamView::Null,
    }
}

/// The parameters of a movement's record: warehouse, item, kind, quantity,
/// whether it increases the stock (1) or not (0), reference, unit cost and
/// the total cost of a receipt.
pub open spec fn movement_params(d: InventoryMovementDraft) -> Seq<ParamView> {
    seq![
        ParamView::Int(d.warehouse_id),
        ParamView::Int(d.item_id),
        ParamView::Text(if d.increases_stock { "purchase"@ } else { "sale"@ }),
        ParamView::Int(d.quantity_milliunits),
        ParamView::Int(if d.increases_stock { 1 } else { 0 }),
        opt_text_view(opt_string_view(d.reference)),
        opt_int_view(d.unit_cost_minor),
        match inbound_total_of(d.unit_cost_minor, d.quantity_milliunits as int) {
            Some(t) => ParamView::Int(t as i64),
            None => ParamView::Null,
        },
    ]
}

/// The parameters of the query for the layers an issue may draw on.
pub open spec fn issue_params(d: InventoryMovementDraft) -> Seq<ParamView> {
    seq![ParamView::Int(d.warehouse_id), ParamView::Int(d.item_id), opt_int_view(d.cost_layer_id)]
}

/// The layers that rows of `id, remaining, unit_cost` stand for.
pub open spec fn layers_of(rows: Seq<Seq<Cell>>) -> Seq<CostLayer> {
    Seq::new(
        rows.len(),
        |k: int|
            CostLayer {
                id: rows[k][0]->Int_0,
                available: rows[k][1]->Int_0,
                unit_cost: rows[k][2]->Int_0,
            },
    )
}

/// What an issue of `quantity` draws from each layer, first in, first out.
pub open spec fn fifo_allocations(layers: Seq<CostLayer>, quantity: int) -> Seq<Allocation> {
    let used = fifo_used(layers, quantity);
    Seq::new(
        used.len(),
        |k: int|
            Allocation {
                layer_id: layers[k].id,
                quantity: used[k] as i64,
                unit_cost: layers[k].unit_cost,
                cost: milliunit_cost(layers[k].unit_cost as int, used[k]) as i64,
            },
    )
}

/// The two steps of one allocation: the layer gives up the quantity, and
/// the allocation is recorded against the movement.
pub open spec fn allocation_written(movement: i64, a: Allocation, draw: Entry, record: Entry) -> bool {
    &&& draw == run_ints(LAYER_DRAW_SQL@, seq![a.quantity, a.layer_id])
    &&& record == run_ints(
        ALLOCATION_RECORD_SQL@,
        seq![movement, a.layer_id, a.quantity, a.unit_cost, a.cost],
    )
}

/// A movement that went through. In one transaction the level of the item
/// in the warehouse is read (`s`, not negative) and put at
/// `stock_after(s, quantity, increases)`, the movement is recorded and SQLite
/// gives it an id. A receipt then opens a layer of its quantity at its unit
/// cost. An issue reads the layers it may draw on (each holding stock), finds
/// them enough and their costs in range, draws from them first in, first
/// out (`fifo_allocations`), records each draw, and sets the movement's cost
/// to the sum of the draws. The transaction is then committed.
pub open spec fn movement_journal(d: InventoryMovementDraft, j: Seq<Entry>) -> bool {
    let q = d.quantity_milliunits as int;
    &&& j.len() >= 7
    &&& j[0] == Entry::Begin
    &&& read_int(j[1], STOCK_LEVEL_SQL@, ints_view(seq![d.warehouse_id, d.item_id])) matches Some(
        s,
    ) && {
        &&& s >= 0
        &&& stock_after(s as int, q, d.increases_stock) matches Some(next) && j[2] == run_ints(
            LEVEL_PUT_SQL@,
            seq![d.warehouse_id, d.item_id, next as i64],
        )
    }
    &&& j[3] == Entry::Run(MOVEMENT_RECORD_SQL@, movement_params(d))
    &&& j[4] matches Entry::Rowid(movement) && if d.increases_stock {
        j.len() == 7 && j[5] == run_ints(
            LAYER_OPEN_SQL@,
            seq![
                d.warehouse_id,
                d.item_id,
                movement,
                d.quantity_milliunits,
                receipt_unit_cost(d),
            ],
        )
    } else {
        read_rows(j[5], ISSUE_LAYERS_SQL@, issue_params(d)) matches Some(rows) && (forall|k: int|
            0 <= k < rows.len() ==> #[trigger] rows[k].len() == 3 && rows[k][0] is Int
                && rows[k][1] is Int && rows[k][1]->Int_0 > 0 && rows[k][2] is Int) && {
            let layers = layers_of(rows);
            let allocs = fifo_allocations(layers, q);
            &&& fifo_costs_fit(layers, q, 0)
            &&& fifo_shortfall(layers, q) == 0
            &&& j.len() == 8 + 2 * allocs.len()
            &&& forall|m: int|
                0 <= m < allocs.len() ==> allocation_written(
                    movement,
                    #[trigger] allocs[m],
                    j[6 + 2 * m],
                    j[7 + 2 * m],
                )
            &&& j[j.len() - 2] == run_ints(
                MOVEMENT_COST_SQL@,
                seq![cost_sum(allocs) as i64, movement],
            )
        }
    }
    &&& j[j.len() - 1] == Entry::Commit
}

/// The refusals of a movement are told apart.
proof fn lemma_movement_messages_differ()
    ensures
        "insufficient stock"@ != "unexpected column value"@,
        "insufficient stock"@ != "stock quantity overflow"@,
        "insufficient stock"@ != "inventory cost overflow"@,
        "insufficient stock"@ != "inventory cost layers are incomplete"@,
        "insufficient stock"@ != "quantity must be positive"@,
        "insufficient stock"@ != "purchase cost is required for incoming stock"@,
        "insufficient stock"@ != "incoming stock cannot target an existing layer"@,
{
    reveal_strlit("insufficient stock");
    reveal_strlit("unexpected column value");
    reveal_strlit("stock quantity overflow");
    reveal_strlit("inventory cost overflow");
    reveal_strlit("inventory cost layers are incomplete");
    reveal_strlit("quantity must be positive");
    reveal_strlit("purchase cost is required for incoming stock");
    reveal_strlit("incoming stock cannot target an existing layer");
    assert("insufficient stock"@[0] != "unexpected column value"@[0]);
    assert("insufficient stock"@[0] != "stock quantity overflow"@[0]);
    assert("insufficient stock"@[2] != "inventory cost overflow"@[2]);
    assert("insufficient stock"@[2] != "inventory cost layers are incomplete"@[2]);
    assert("insufficient stock"@[0] != "quantity must be positive"@[0]);
    assert("insufficient stock"@[0] != "purchase cost is required for incoming stock"@[0]);
    assert("insufficient stock"@[2] != "incoming stock cannot target an existing layer"@[2]);
}

/// An active warehouse, and whether it holds any stock.
#[derive(Debug, Clone, PartialEq, Eq)]
pub struct WarehouseRecord {
    pub id: i64,
    pub name: String,
    pub address: String,
    pub has_stock: bool,
}

/// A cost layer that still holds stock, with its item and warehouse.
#[derive(Debug, Clone, PartialEq, Eq)]
pub struct StockRecord {
    pub cost_layer_id: i64,
    pub warehouse_id: i64,
    pub warehouse_name: String,
    pub item_id: i64,
    pub item_name: String,
    pub sku: String,
    pub unit: String,
    pub quantity_milliunits: i64,
    pub acquired_quantity_milliunits: i64,
    pub inventory_value_minor: i64,
    pub unit_cost_minor: i64,
}

/// Stock received into (`increases_stock`) or issued from a warehouse.
/// An issue may be limited to one cost layer.
#[derive(Debug, Clone, PartialEq, Eq)]
pub struct InventoryMovementDraft {
    pub warehouse_id: i64,
    pub item_id: i64,
    pub cost_layer_id: Option<i64>,
    pub quantity_milliunits: i64,
    pub increases_stock: bool,
    pub unit_cost_minor: Option<i64>,
    pub reference: Option<String>,
}

/// A movement as the history lists it.
#[derive(Debug, Clone, PartialEq, Eq)]
pub struct MovementRecord {
    pub item_name: String,
    pub warehouse_name: String,
    pub quantity_milliunits: i64,
    pub increases_stock: bool,
    pub reference: String,
    pub occurred_on: String,
    pub unit_cost_minor: Option<i64>,
    pub total_cost_minor: Option<i64>,
}

/// A receipt read from a spreadsheet: warehouse and product by name and code.
#[derive(Debug, Clone, PartialEq, Eq)]
pub struct InventoryImportRow {
    pub warehouse: String,
    pub sku: String,
    pub quantity_milliunits: i64,
    pub unit_cost_minor: i64,
    pub reference: Option<String>,
}

/// What an import did: receipts recorded and rows skipped.
#[derive(Debug, Clone, Copy, Default, PartialEq, Eq)]
pub struct InventoryImportResult {
    pub inserted: usize,
    pub skipped: usize,
}

/// Why a movement draft is refused before the store is read, if it is.
pub open spec fn movement_draft_error(draft: InventoryMovementDraft) -> Option<Seq<char>> {
    if draft.quantity_milliunits <= 0 {
        Some("quantity must be positive"@)
    } else if draft.increases_stock && draft.unit_cost_minor is None {
        Some("purchase cost is required for incoming stock"@)
    } else if draft.increases_stock && draft.cost_layer_id is Some {
        Some("incoming stock cannot target an existing layer"@)
    } else {
        None
    }
}

pub fn validate_movement_draft(draft: &InventoryMovementDraft) -> (r: Result<(), DatabaseError>)
    ensures
        movement_draft_error(*draft) matches Some(m) ==> refused(r, m),
        movement_draft_error(*draft) is None ==> r is Ok,
{
    if draft.quantity_milliunits <= 0 {
        return Err(DatabaseError::Validation(String::from_str("quantity must be positive")));
    }
    if draft.increases_stock && draft.unit_cost_minor.is_none() {
        return Err(
            DatabaseError::Validation(
                String::from_str("purchase cost is required for incoming stock"),
            ),
        );
    }
    if draft.increases_stock && draft.cost_layer_id.is_some() {
        return Err(
            DatabaseError::Validation(
                String::from_str("incoming stock cannot target an existing layer"),
            ),
        );
    }
    Ok(())
}

/// The ways a movement that passed validation can still fail.
pub open spec fn movement_failure(r: Result<(), DatabaseError>) -> bool {
    ||| store_failure(r)
    ||| refused(r, "stock quantity overflow"@)
    ||| refused(r, "insufficient stock"@)
    ||| refused(r, "inventory cost overflow"@)
    ||| refused(r, "inventory cost layers are incomplete"@)
}

/// A quantity column, which the schema keeps nonnegative.
fn cell_quantity(row: &Vec<Cell>, i: usize) -> (r: Result<i64, DatabaseError>)
    requires
        i < row.len(),
    ensures
        r matches Ok(v) ==> v >= 0 && row[i as int] == Cell::Int(v),
        r is Err ==> refused(r, "unexpected column value"@),
{
    let v = cell_int(row, i)?;
    if v < 0 {
        return Err(unexpected_column());
    }
    Ok(v)
}

/// A text parameter for an optional text, NULL for none.
fn opt_str_arg(v: Option<&str>) -> (r: sql::Param)
    ensures
        match v {
            Some(s) => r matches sql::Param::Text(t) && t@ == s@,
            None => r is Null,
        },
{
    match v {
        Some(s) => sql::opt_text(Some(String::from_str(s))),
        None => sql::opt_text(None),
    }
}

/// A text parameter for an optional text, NULL for none.
fn opt_string_arg(v: &Option<String>) -> (r: sql::Param)
    ensures
        match v {
            Some(s) => r matches sql::Param::Text(t) && t@ == s@,
            None => r is Null,
        },
{
    match v {
        Some(s) => sql::opt_text(Some(s.clone())),
        None => sql::opt_text(None),
    }
}

fn pair_args(a: i64, b: i64) -> (r: Vec<sql::Param>)
    ensures
        r@ == seq![sql::Param::Int(a), sql::Param::Int(b)],
{
    let mut args = Vec::new();
    args.push(sql::integer(a));
    args.push(sql::integer(b));
    args
}

/// The row reads as this record, column by column.
pub open spec fn warehouse_row_is(row: Seq<Cell>, rec: WarehouseRecord) -> bool {
    row[0] == Cell::Int(rec.id) && row[1] is Text && row[1]->Text_0@
            == rec.name@ && row[2] is Text && row[2]->Text_0@ == rec.address@ && row[3] is Int
            && rec.has_stock == (row[3]->Int_0 != 0)
}

/// Reads a row of `id, name, address, has_stock`.
pub fn decode_warehouse_record(row: &Vec<Cell>) -> (r: Result<WarehouseRecord, DatabaseError>)
    requires
        row.len() == 4,
    ensures
        r is Ok <==> (row[0] is Int && row[1] is Text && row[2] is Text && row[3] is Int),
        r is Err ==> refused(r, "unexpected column value"@),
        r matches Ok(rec) ==> row[0] == Cell::Int(rec.id) && row[1] is Text && row[1]->Text_0@
            == rec.name@ && row[2] is Text && row[2]->Text_0@ == rec.address@ && row[3] is Int
            && rec.has_stock == (row[3]->Int_0 != 0),
        r matches Ok(rec) ==> warehouse_row_is(row@, rec),
{
    Ok(
        WarehouseRecord {
            id: cell_int(row, 0)?,
            name: cell_text(row, 1)?,
            address: cell_text(row, 2)?,
            has_stock: cell_bool(row, 3)?,
        },
    )
}

/// The row reads as this record, column by column.
pub open spec fn stock_row_is(row: Seq<Cell>, rec: StockRecord) -> bool {
    row[0] == Cell::Int(rec.cost_layer_id) && row[1] == Cell::Int(
            rec.warehouse_id,
        ) && row[2] is Text && row[2]->Text_0@ == rec.warehouse_name@ && row[3] == Cell::Int(
            rec.item_id,
        ) && row[4] is Text && row[4]->Text_0@ == rec.item_name@ && row[5] is Text
            && row[5]->Text_0@ == rec.sku@ && row[6] is Text && row[6]->Text_0@ == rec.unit@
            && row[7] == Cell::Int(rec.quantity_milliunits) && row[8] == Cell::Int(
            rec.acquired_quantity_milliunits,
        ) && row[9] == Cell::Int(rec.inventory_value_minor) && row[10] == Cell::Int(
            rec.unit_cost_minor,
        )
}

/// Reads a row of the eleven stock columns, in the order of the fields.
pub fn decode_stock_record(row: &Vec<Cell>) -> (r: Result<StockRecord, DatabaseError>)
    requires
        row.len() == 11,
    ensures
        r is Ok <==> (row[0] is Int && row[1] is Int && row[2] is Text && row[3] is Int
            && row[4] is Text && row[5] is Text && row[6] is Text && row[7] is Int && row[8] is Int
            && row[9] is Int && row[10] is Int),
        r is Err ==> refused(r, "unexpected column value"@),
        r matches Ok(rec) ==> row[0] == Cell::Int(rec.cost_layer_id) && row[1] == Cell::Int(
            rec.warehouse_id,
        ) && row[2] is Text && row[2]->Text_0@ == rec.warehouse_name@ && row[3] == Cell::Int(
            rec.item_id,
        ) && row[4] is Text && row[4]->Text_0@ == rec.item_name@ && row[5] is Text
            && row[5]->Text_0@ == rec.sku@ && row[6] is Text && row[6]->Text_0@ == rec.unit@
            && row[7] == Cell::Int(rec.quantity_milliunits) && row[8] == Cell::Int(
            rec.acquired_quantity_milliunits,
        ) && row[9] == Cell::Int(rec.inventory_value_minor) && row[10] == Cell::Int(
            rec.unit_cost_minor,
        ),
        r matches Ok(rec) ==> stock_row_is(row@, rec),
{
    Ok(
        StockRecord {
            cost_layer_id: cell_int(row, 0)?,
            warehouse_id: cell_int(row, 1)?,
            warehouse_name: cell_text(row, 2)?,
            item_id: cell_int(row, 3)?,
            item_name: cell_text(row, 4)?,
            sku: cell_text(row, 5)?,
            unit: cell_text(row, 6)?,
            quantity_milliunits: cell_int(row, 7)?,
            acquired_quantity_milliunits: cell_int(row, 8)?,
            inventory_value_minor: cell_int(row, 9)?,
            unit_cost_minor: cell_int(row, 10)?,
        },
    )
}

/// The row reads as this record, column by column.
pub open spec fn movement_row_is(row: Seq<Cell>, rec: MovementRecord) -> bool {
    row[0] is Text && row[0]->Text_0@ == rec.item_name@ && row[1] is Text
            && row[1]->Text_0@ == rec.warehouse_name@ && row[2] == Cell::Int(
            rec.quantity_milliunits,
        ) && row[3] is Int && rec.increases_stock == (row[3]->Int_0 != 0) && row[4] is Text
            && row[4]->Text_0@ == rec.reference@ && row[5] is Text && row[5]->Text_0@
            == rec.occurred_on@ && (match rec.unit_cost_minor {
            Some(v) => row[6] == Cell::Int(v),
            None => row[6] is Null,
        }) && (match rec.total_cost_minor {
            Some(v) => row[7] == Cell::Int(v),
            None => row[7] is Null,
        })
}

/// Reads a row of the eight history columns, in the order of the fields.
pub fn decode_movement_record(row: &Vec<Cell>) -> (r: Result<MovementRecord, DatabaseError>)
    requires
        row.len() == 8,
    ensures
        r is Ok <==> (row[0] is Text && row[1] is Text && row[2] is Int && row[3] is Int
            && row[4] is Text && row[5] is Text && (row[6] is Int || row[6] is Null) && (row[7] is Int
            || row[7] is Null)),
        r is Err ==> refused(r, "unexpected column value"@),
        r matches Ok(rec) ==> row[0] is Text && row[0]->Text_0@ == rec.item_name@ && row[1] is Text
            && row[1]->Text_0@ == rec.warehouse_name@ && row[2] == Cell::Int(
            rec.quantity_milliunits,
        ) && row[3] is Int && rec.increases_stock == (row[3]->Int_0 != 0) && row[4] is Text
            && row[4]->Text_0@ == rec.reference@ && row[5] is Text && row[5]->Text_0@
            == rec.occurred_on@ && (match rec.unit_cost_minor {
            Some(v) => row[6] == Cell::Int(v),
            None => row[6] is Null,
        }) && (match rec.total_cost_minor {
            Some(v) => row[7] == Cell::Int(v),
            None => row[7] is Null,
        }),
        r matches Ok(rec) ==> movement_row_is(row@, rec),
{
    Ok(
        MovementRecord {
            item_name: cell_text(row, 0)?,
            warehouse_name: cell_text(row, 1)?,
            quantity_milliunits: cell_int(row, 2)?,
            increases_stock: cell_bool(row, 3)?,
            reference: cell_text(row, 4)?,
            occurred_on: cell_text(row, 5)?,
            unit_cost_minor: cell_opt_int(row, 6)?,
            total_cost_minor: cell_opt_int(row, 7)?,
        },
    )
}

/// A row of `id, remaining, unit_cost` that reads as a cost layer: three
/// integers, the remaining quantity above zero.
pub open spec fn cost_layer_row(row: Vec<Cell>) -> bool {
    &&& row[0] is Int
    &&& row[1] is Int
    &&& row[1]->Int_0 > 0
    &&& row[2] is Int
}

/// Reads rows of `id, remaining, unit_cost` as cost layers; a layer that
/// holds no stock is not one the query hands out.
pub fn decode_cost_layers(rows: &Vec<Vec<Cell>>) -> (r: Result<Vec<CostLayer>, DatabaseError>)
    requires
        forall|i: int| 0 <= i < rows.len() ==> #[trigger] rows[i].len() == 3,
    ensures
        r is Ok <==> forall|k: int| 0 <= k < rows.len() ==> #[trigger] cost_layer_row(rows[k]),
        r matches Ok(layers) ==> layers.len() == rows.len() && issuable(layers@) && forall|k: int|
            0 <= k < rows.len() ==> rows[k][0] == Cell::Int(#[trigger] layers@[k].id) && rows[k][1]
                == Cell::Int(layers@[k].available) && rows[k][2] == Cell::Int(
                layers@[k].unit_cost,
            ),
        r is Err ==> refused(r, "unexpected column value"@),
{
    let mut out: Vec<CostLayer> = Vec::new();
    let mut i: usize = 0;
    while i < rows.len()
        invariant
            i <= rows.len(),
            out.len() == i,
            forall|k: int| 0 <= k < rows.len() ==> #[trigger] rows[k].len() == 3,
            issuable(out@),
            forall|k: int| 0 <= k < i ==> #[trigger] cost_layer_row(rows[k]),
            forall|k: int|
                0 <= k < i ==> rows[k][0] == Cell::Int(#[trigger] out@[k].id) && rows[k][1]
                    == Cell::Int(out@[k].available) && rows[k][2] == Cell::Int(out@[k].unit_cost),
        decreases rows.len() - i,
    {
        let row = &rows[i];
        let id = match cell_int(row, 0) {
            Ok(v) => v,
            Err(e) => {
                assert(!cost_layer_row(rows[i as int]));
                return Err(e);
            },
        };
        let available = match cell_int(row, 1) {
            Ok(v) => v,
            Err(e) => {
                assert(!cost_layer_row(rows[i as int]));
                return Err(e);
            },
        };
        let unit_cost = match cell_int(row, 2) {
            Ok(v) => v,
            Err(e) => {
                assert(!cost_layer_row(rows[i as int]));
                return Err(e);
            },
        };
        if available <= 0 {
            assert(!cost_layer_row(rows[i as int]));
            return Err(unexpected_column());
        }
        assert(rows[i as int][0] == Cell::Int(id));
        assert(rows[i as int][1] == Cell::Int(available));
        assert(rows[i as int][2] == Cell::Int(unit_cost));
        let ghost before = out@;
        out.push(CostLayer { id, available, unit_cost });
        assert(out@ == before.push(CostLayer { id, available, unit_cost }));
        assert(forall|k: int| 0 <= k < i ==> #[trigger] out@[k] == before[k]);
        assert(cost_layer_row(rows[i as int]));
        i = i + 1;
    }
    Ok(out)
}

/// The id of a row that a lookup by name finds, if any, read into the
/// journal.
fn lookup_id(conn: &rusqlite::Connection, sql_text: &str, key: &String, journal: &mut Ghost<Seq<Entry>>) -> (r: Result<
    Option<i64>,
    DatabaseError,
>)
    ensures
        r matches Ok(o) ==> final(journal)@.len() == old(journal)@.len() + 1 && final(journal)@.drop_last()
            == old(journal)@ && (read_rows(
            final(journal)@.last(),
            sql_text@,
            seq![ParamView::Text(key@)],
        ) matches Some(rows) && found_id(rows) == o),
        r is Err ==> store_failure(r),
{
    let mut args = Vec::new();
    args.push(sql::text(key.clone()));
    assert(params_view(args@) =~= seq![ParamView::Text(key@)]);
    let rows = read_in(conn, sql_text, args, 1, journal)?;
    let ghost rv = rows_view(rows@);
    assert(journal@.drop_last() =~= old(journal)@);
    if rows.len() == 0 {
        return Ok(None);
    }
    assert(rv[0] == rows@[0]@);
    assert(rows[0].len() == 1);
    Ok(Some(cell_int(&rows[0], 0)?))
}

impl Database {
    /// Records each row as a receipt into the named warehouse of the product
    /// with that code; a row whose warehouse or product is not found, or
    /// whose receipt is refused, is skipped. Every row is counted once.
    ///
    /// `import_inventory_rows_journaled` states what it reads and runs.
    pub fn import_inventory_rows(&self, rows: &[InventoryImportRow]) -> (r: Result<
        InventoryImportResult,
        DatabaseError,
    >)
        ensures
            r matches Ok(res) ==> res.inserted + res.skipped == rows.len(),
            r is Err ==> store_failure(r),
    {
        let mut steps: Ghost<Seq<Seq<Entry>>> = Ghost(Seq::empty());
        let mut recorded: Ghost<Seq<bool>> = Ghost(Seq::empty());
        self.import_inventory_rows_journaled(rows, &mut steps, &mut recorded)
    }

    /// `import_inventory_rows`, with what it read and ran, one journal per
    /// row (`inventory_import_step`), and for each row whether its receipt
    /// was recorded; the rows recorded are the ones counted as added.
    pub fn import_inventory_rows_journaled(
        &self,
        rows: &[InventoryImportRow],
        steps: &mut Ghost<Seq<Seq<Entry>>>,
        recorded: &mut Ghost<Seq<bool>>,
    ) -> (r: Result<InventoryImportResult, DatabaseError>)
        requires
            old(steps)@ == Seq::<Seq<Entry>>::empty(),
            old(recorded)@ == Seq::<bool>::empty(),
        ensures
            r matches Ok(res) ==> res.inserted + res.skipped == rows.len() && final(steps)@.len()
                == rows.len() && final(recorded)@.len() == rows.len() && (forall|k: int|
                0 <= k < rows.len() ==> inventory_import_step(
                    rows@[k],
                    #[trigger] final(steps)@[k],
                    final(recorded)@[k],
                )) && res.inserted == true_count(final(recorded)@),
            r is Err ==> store_failure(r),
    {
        let mut result = InventoryImportResult { inserted: 0, skipped: 0 };
        let mut i: usize = 0;
        while i < rows.len()
            invariant
                i <= rows.len(),
                result.inserted + result.skipped == i,
                steps@.len() == i,
                recorded@.len() == i,
                forall|k: int|
                    0 <= k < i ==> inventory_import_step(rows@[k], #[trigger] steps@[k], recorded@[k]),
                result.inserted == true_count(recorded@),
            decreases rows.len() - i,
        {
            let row = &rows[i];
            let mut step: Ghost<Seq<Entry>> = Ghost(Seq::empty());
            let warehouse_id = lookup_id(&self.connection, WAREHOUSE_BY_NAME_SQL, &row.warehouse, &mut step)?;
            let item_id = lookup_id(&self.connection, PRODUCT_BY_CODE_SQL, &row.sku, &mut step)?;
            let ghost looked = step@;
            assert(looked[0] == looked.drop_last().last());
            assert(looked[1] == looked.last());
            let mut done = false;
            match (warehouse_id, item_id) {
                (Some(warehouse_id), Some(item_id)) => {
                    let draft = InventoryMovementDraft {
                        warehouse_id,
                        item_id,
                        cost_layer_id: None,
                        quantity_milliunits: row.quantity_milliunits,
                        increases_stock: true,
                        unit_cost_minor: Some(row.unit_cost_minor),
                        reference: row.reference.clone(),
                    };
                    let mut movement: Ghost<Seq<Entry>> = Ghost(Seq::empty());
                    let outcome = self.record_inventory_movement_journaled(&draft, &mut movement);
                    step = Ghost(step@ + movement@);
                    assert(step@.skip(2) =~= movement@);
                    assert(step@[0] == looked[0] && step@[1] == looked[1]);
                    if outcome.is_ok() {
                        result.inserted = result.inserted + 1;
                        done = true;
                        assert(movement_journal(draft, step@.skip(2)));
                    } else {
                        result.skipped = result.skipped + 1;
                    }
                },
                _ => {
                    result.skipped = result.skipped + 1;
                },
            }
            assert(inventory_import_step(*row, step@, done));
            let ghost prior = steps@;
            let ghost prior_recorded = recorded@;
            *steps = Ghost(steps@.push(step@));
            *recorded = Ghost(recorded@.push(done));
            assert(recorded@.drop_last() =~= prior_recorded);
            assert forall|k: int| 0 <= k < i + 1 implies inventory_import_step(
                rows@[k],
                #[trigger] steps@[k],
                recorded@[k],
            ) by {
                if k < i {
                    assert(steps@[k] == prior[k]);
                    assert(recorded@[k] == prior_recorded[k]);
                }
            }
            i = i + 1;
        }
        Ok(result)
    }

    /// The active warehouses by name.
    ///
    /// `warehouses_journaled` states the query it runs and how each returned row is read.
    pub fn warehouses(&self) -> (r: Result<Vec<WarehouseRecord>, DatabaseError>)
        ensures
            r is Err ==> store_failure(r),
    {
        let mut journal: Ghost<Seq<Entry>> = Ghost(Seq::empty());
        self.warehouses_journaled(&mut journal)
    }

    /// `warehouses`, with what it read: the warehouses, each read from its row in the order SQLite returned them.
    pub fn warehouses_journaled(&self, journal: &mut Ghost<Seq<Entry>>) -> (r: Result<
        Vec<WarehouseRecord>,
        DatabaseError,
    >)
        requires
            old(journal)@ == Seq::<Entry>::empty(),
        ensures
            r matches Ok(v) ==> final(journal)@.len() == 1 && (read_rows(
                final(journal)@[0],
                WAREHOUSES_SQL@,
                Seq::<ParamView>::empty(),
            ) matches Some(rows) && rows.len() == v.len() && forall|k: int|
                0 <= k < v.len() ==> warehouse_row_is(rows[k], #[trigger] v@[k])),
            r is Err ==> store_failure(r),
    {
        let args = Vec::new();
        assert(params_view(args@) =~= Seq::<ParamView>::empty());
        let rows = read_in(&self.connection, WAREHOUSES_SQL, args, 4, journal)?;
        let ghost rv = rows_view(rows@);
        let mut out: Vec<WarehouseRecord> = Vec::new();
        let mut i: usize = 0;
        while i < rows.len()
            invariant
                i <= rows.len(),
                out.len() == i,
                rv == rows_view(rows@),
                forall|k: int| 0 <= k < rows.len() ==> #[trigger] rows[k].len() == 4,
                forall|k: int| 0 <= k < i ==> warehouse_row_is(rv[k], #[trigger] out@[k]),
            decreases rows.len() - i,
        {
            let rec = decode_warehouse_record(&rows[i])?;
            assert(rv[i as int] == rows@[i as int]@);
            let ghost before = out@;
            out.push(rec);
            assert forall|k: int| 0 <= k < i + 1 implies warehouse_row_is(rv[k], #[trigger] out@[k]) by {
                if k < i {
                    assert(out@[k] == before[k]);
                }
            }
            i = i + 1;
        }
        Ok(out)
    }

    /// Adds a warehouse; its id.
    ///
    /// `create_warehouse_journaled` states what it reads and runs.
    pub fn create_warehouse(&self, name: &str, address: Option<&str>) -> (r: Result<
        i64,
        DatabaseError,
    >)
        ensures
            r is Err ==> store_failure(r),
    {
        let mut journal: Ghost<Seq<Entry>> = Ghost(Seq::empty());
        self.create_warehouse_journaled(name, address, &mut journal)
    }

    /// `create_warehouse`, with what it ran: the warehouse is inserted and
    /// its id is the one SQLite gives it.
    pub fn create_warehouse_journaled(
        &self,
        name: &str,
        address: Option<&str>,
        journal: &mut Ghost<Seq<Entry>>,
    ) -> (r: Result<i64, DatabaseError>)
        requires
            old(journal)@ == Seq::<Entry>::empty(),
        ensures
            r matches Ok(v) ==> final(journal)@ == seq![
                Entry::Run(
                    WAREHOUSE_INSERT_SQL@,
                    seq![ParamView::Text(name@), opt_text_view(opt_str_view(address))],
                ),
                Entry::Rowid(v),
            ],
            r is Err ==> store_failure(r),
    {
        let mut args = Vec::new();
        args.push(sql::text(String::from_str(name)));
        args.push(opt_str_arg(address));
        assert(params_view(args@) =~= seq![
            ParamView::Text(name@),
            opt_text_view(opt_str_view(address)),
        ]);
        run_in(&self.connection, WAREHOUSE_INSERT_SQL, args, journal)?;
        let id = rowid_in(&self.connection, journal);
        assert(journal@ =~= seq![
            Entry::Run(
                WAREHOUSE_INSERT_SQL@,
                seq![ParamView::Text(name@), opt_text_view(opt_str_view(address))],
            ),
            Entry::Rowid(id),
        ]);
        Ok(id)
    }

    /// Renames a warehouse (with an id) or adds one; its id.
    ///
    /// `save_warehouse_journaled` states what it reads and runs.
    pub fn save_warehouse(&self, id: Option<i64>, name: &str, address: Option<&str>) -> (r:
        Result<i64, DatabaseError>)
        ensures
            id matches Some(i) ==> (r is Ok ==> r == Ok::<i64, DatabaseError>(i)),
            r is Err ==> store_failure(r),
    {
        let mut journal: Ghost<Seq<Entry>> = Ghost(Seq::empty());
        self.save_warehouse_journaled(id, name, address, &mut journal)
    }

    /// `save_warehouse`, with what it ran: with an id the warehouse is
    /// renamed; without one it is created as `create_warehouse` does.
    pub fn save_warehouse_journaled(
        &self,
        id: Option<i64>,
        name: &str,
        address: Option<&str>,
        journal: &mut Ghost<Seq<Entry>>,
    ) -> (r: Result<i64, DatabaseError>)
        requires
            old(journal)@ == Seq::<Entry>::empty(),
        ensures
            r matches Ok(v) ==> match id {
                Some(i) => v == i && final(journal)@ == seq![
                    Entry::Run(
                        WAREHOUSE_UPDATE_SQL@,
                        seq![
                            ParamView::Text(name@),
                            opt_text_view(opt_str_view(address)),
                            ParamView::Int(i),
                        ],
                    ),
                ],
                None => final(journal)@ == seq![
                    Entry::Run(
                        WAREHOUSE_INSERT_SQL@,
                        seq![ParamView::Text(name@), opt_text_view(opt_str_view(address))],
                    ),
                    Entry::Rowid(v),
                ],
            },
            r is Err ==> store_failure(r),
    {
        match id {
            Some(id) => {
                let mut args = Vec::new();
                args.push(sql::text(String::from_str(name)));
                args.push(opt_str_arg(address));
                args.push(sql::integer(id));
                assert(params_view(args@) =~= seq![
                    ParamView::Text(name@),
                    opt_text_view(opt_str_view(address)),
                    ParamView::Int(id),
                ]);
                run_in(&self.connection, WAREHOUSE_UPDATE_SQL, args, journal)?;
                assert(journal@ =~= seq![
                    Entry::Run(
                        WAREHOUSE_UPDATE_SQL@,
                        seq![
                            ParamView::Text(name@),
                            opt_text_view(opt_str_view(address)),
                            ParamView::Int(id),
                        ],
                    ),
                ]);
                Ok(id)
            },
            None => self.create_warehouse_journaled(name, address, journal),
        }
    }

    /// Deactivates a warehouse, unless it holds stock.
    ///
    /// `remove_warehouse_journaled` states what it reads and runs.
    pub fn remove_warehouse(&self, id: i64) -> (r: Result<(), DatabaseError>)
        ensures
            r is Err ==> refused(r, "warehouse contains stock"@) || store_failure(r),
    {
        let mut journal: Ghost<Seq<Entry>> = Ghost(Seq::empty());
        self.remove_warehouse_journaled(id, &mut journal)
    }

    /// `remove_warehouse`, with what it read and ran: it reads whether the
    /// warehouse holds stock; when it does the removal is refused, else the
    /// warehouse is deactivated.
    pub fn remove_warehouse_journaled(&self, id: i64, journal: &mut Ghost<Seq<Entry>>) -> (r:
        Result<(), DatabaseError>)
        requires
            old(journal)@ == Seq::<Entry>::empty(),
        ensures
            r is Ok ==> final(journal)@.len() == 2 && read_int(
                final(journal)@[0],
                WAREHOUSE_STOCKED_SQL@,
                seq![ParamView::Int(id)],
            ) == Some(0i64) && final(journal)@[1] == run_ints(
                WAREHOUSE_DEACTIVATE_SQL@,
                seq![id],
            ),
            refused(r, "warehouse contains stock"@) ==> final(journal)@.len() == 1 && (read_int(
                final(journal)@[0],
                WAREHOUSE_STOCKED_SQL@,
                seq![ParamView::Int(id)],
            ) matches Some(v) && v != 0),
            r is Err ==> refused(r, "warehouse contains stock"@) || store_failure(r),
    {
        proof {
            lemma_ints_view(seq![sql::Param::Int(id)], seq![id]);
        }
        assert("warehouse contains stock"@ != "unexpected column value"@) by {
            reveal_strlit("warehouse contains stock");
            reveal_strlit("unexpected column value");
            assert("warehouse contains stock"@[0] != "unexpected column value"@[0]);
        }
        let args = id_args(id);
        assert(params_view(args@) == seq![ParamView::Int(id)]) by {
            assert(ints_view(seq![id]) =~= seq![ParamView::Int(id)]);
        }
        let stocked = read_int_in(&self.connection, WAREHOUSE_STOCKED_SQL, args, journal)?;
        assert(journal@[0] == journal@.last());
        if stocked != 0 {
            return Err(DatabaseError::Validation(String::from_str("warehouse contains stock")));
        }
        run_in(&self.connection, WAREHOUSE_DEACTIVATE_SQL, id_args(id), journal)?;
        Ok(())
    }

    /// Moves all stock and cost layers of a warehouse to another active one,
    /// recording a transfer out and in for every item, then deactivates it.
    ///
    /// `move_and_remove_warehouse_journaled` states what it reads and runs.
    pub fn move_and_remove_warehouse(&self, source_id: i64, target_id: i64) -> (r: Result<
        (),
        DatabaseError,
    >)
        ensures
            source_id == target_id ==> refused(r, "alternate warehouse must be different"@),
            r is Err ==> refused(r, "alternate warehouse must be different"@) || refused(
                r,
                "alternate warehouse is inactive"@,
            ) || store_failure(r),
    {
        let mut journal: Ghost<Seq<Entry>> = Ghost(Seq::empty());
        self.move_and_remove_warehouse_journaled(source_id, target_id, &mut journal)
    }

    /// `move_and_remove_warehouse`, with what it read and ran: refused for
    /// the same warehouse before anything is read, and for an inactive
    /// target right after the target is read; else, in one transaction, the
    /// stock of every item of the source is added to the target with a
    /// transfer out and in at the cost the source's layers carry, the
    /// layers move to the target, and the source's levels are deleted and
    /// the source deactivated (see `warehouse_move_journal`).
    pub fn move_and_remove_warehouse_journaled(
        &self,
        source_id: i64,
        target_id: i64,
        journal: &mut Ghost<Seq<Entry>>,
    ) -> (r: Result<(), DatabaseError>)
        requires
            old(journal)@ == Seq::<Entry>::empty(),
        ensures
            source_id == target_id ==> refused(r, "alternate warehouse must be different"@)
                && final(journal)@ == Seq::<Entry>::empty(),
            refused(r, "alternate warehouse is inactive"@) ==> source_id != target_id
                && final(journal)@.len() == 2 && final(journal)@[0] == Entry::Begin && read_int(
                final(journal)@[1],
                TARGET_ACTIVE_SQL@,
                seq![ParamView::Int(target_id)],
            ) == Some(0i64),
            r is Ok ==> source_id != target_id && warehouse_move_journal(
                source_id,
                target_id,
                final(journal)@,
            ),
            r is Err ==> refused(r, "alternate warehouse must be different"@) || refused(
                r,
                "alternate warehouse is inactive"@,
            ) || store_failure(r),
    {
        assert("alternate warehouse is inactive"@ != "unexpected column value"@) by {
            reveal_strlit("alternate warehouse is inactive");
            reveal_strlit("unexpected column value");
            assert("alternate warehouse is inactive"@[0] != "unexpected column value"@[0]);
        }
        assert("alternate warehouse must be different"@ != "alternate warehouse is inactive"@) by {
            reveal_strlit("alternate warehouse is inactive");
            reveal_strlit("alternate warehouse must be different");
            assert("alternate warehouse must be different"@[20] != "alternate warehouse is inactive"@[20]);
        }
        if source_id == target_id {
            return Err(
                DatabaseError::Validation(String::from_str("alternate warehouse must be different")),
            );
        }
        let tx = begin_in(&self.connection, journal)?;
        let conn = sql::within(&tx);
        let args = id_args(target_id);
        assert(params_view(args@) =~= seq![ParamView::Int(target_id)]);
        let ghost begun = journal@;
        let target_active = read_int_in(conn, TARGET_ACTIVE_SQL, args, journal)?;
        assert(journal@[1] == journal@.last());
        assert(journal@[0] == journal@.drop_last()[0]);
        assert(journal@[0] == begun[0]);
        if target_active == 0 {
            return Err(
                DatabaseError::Validation(String::from_str("alternate warehouse is inactive")),
            );
        }
        let args = id_args(source_id);
        assert(params_view(args@) =~= seq![ParamView::Int(source_id)]);
        let stock = read_in(conn, SOURCE_STOCK_SQL, args, 2, journal)?;
        let ghost head = journal@;
        let ghost rows = rows_view(stock@);
        assert(read_rows(head[2], SOURCE_STOCK_SQL@, seq![ParamView::Int(source_id)]) == Some(rows));
        let mut i: usize = 0;
        while i < stock.len()
            invariant
                i <= stock.len(),
                source_id != target_id,
                "alternate warehouse is inactive"@ != "unexpected column value"@,
                "alternate warehouse must be different"@ != "alternate warehouse is inactive"@,
                rows == rows_view(stock@),
                head.len() == 3,
                forall|k: int| 0 <= k < stock.len() ==> #[trigger] stock[k].len() == 2,
                journal@.len() == 3 + 4 * i,
                journal@.subrange(0, 3) == head,
                forall|k: int|
                    0 <= k < i ==> item_moved(
                        source_id,
                        target_id,
                        #[trigger] rows[k],
                        journal@.subrange(3 + 4 * k, 7 + 4 * k),
                    ),
            decreases stock.len() - i,
        {
            let ghost before = journal@;
            let item_id = cell_int(&stock[i], 0)?;
            let quantity = cell_int(&stock[i], 1)?;
            assert(rows[i as int] == stock@[i as int]@);
            let args = pair_args(source_id, item_id);
            assert(params_view(args@) =~= ints_view(seq![source_id, item_id]));
            let total_cost = read_int_in(conn, TOTAL_COST_SQL, args, journal)?;
            let mut upsert = pair_args(target_id, item_id);
            upsert.push(sql::integer(quantity));
            assert(params_view(upsert@) =~= ints_view(seq![target_id, item_id, quantity]));
            run_in(conn, LEVEL_ADD_SQL, upsert, journal)?;
            let mut out = pair_args(source_id, item_id);
            out.push(sql::text(String::from_str("transfer_out")));
            out.push(sql::integer(quantity));
            out.push(sql::boolean(false));
            out.push(sql::integer(total_cost));
            assert(params_view(out@) =~= transfer_params(source_id, item_id, "transfer_out"@, quantity, 0, total_cost));
            run_in(conn, TRANSFER_MOVEMENT_SQL, out, journal)?;
            let mut into = pair_args(target_id, item_id);
            into.push(sql::text(String::from_str("transfer_in")));
            into.push(sql::integer(quantity));
            into.push(sql::boolean(true));
            into.push(sql::integer(total_cost));
            assert(params_view(into@) =~= transfer_params(target_id, item_id, "transfer_in"@, quantity, 1, total_cost));
            run_in(conn, TRANSFER_MOVEMENT_SQL, into, journal)?;
            let ghost four = journal@.subrange(3 + 4 * i, 7 + 4 * i);
            assert(journal@.subrange(0, before.len() as int) =~= before);
            assert(item_moved(source_id, target_id, rows[i as int], four));
            assert forall|k: int| 0 <= k < i + 1 implies item_moved(
                source_id,
                target_id,
                #[trigger] rows[k],
                journal@.subrange(3 + 4 * k, 7 + 4 * k),
            ) by {
                if k < i {
                    assert(journal@.subrange(3 + 4 * k, 7 + 4 * k) =~= before.subrange(
                        3 + 4 * k,
                        7 + 4 * k,
                    ));
                }
            }
            assert(journal@.subrange(0, 3) =~= before.subrange(0, 3));
            i = i + 1;
        }
        let ghost moved = journal@;
        let args = pair_args(target_id, source_id);
        assert(params_view(args@) =~= ints_view(seq![target_id, source_id]));
        run_in(conn, LAYERS_MOVE_SQL, args, journal)?;
        let args = id_args(source_id);
        assert(params_view(args@) =~= ints_view(seq![source_id]));
        run_in(conn, LEVELS_DELETE_SQL, args, journal)?;
        let args = id_args(source_id);
        assert(params_view(args@) =~= ints_view(seq![source_id]));
        run_in(conn, WAREHOUSE_DEACTIVATE_SQL, args, journal)?;
        commit_in(tx, journal)?;
        assert forall|k: int| 0 <= k < rows.len() implies item_moved(
            source_id,
            target_id,
            #[trigger] rows[k],
            journal@.subrange(3 + 4 * k, 7 + 4 * k),
        ) by {
            assert(journal@.subrange(3 + 4 * k, 7 + 4 * k) =~= moved.subrange(3 + 4 * k, 7 + 4 * k));
        }
        assert(journal@[0] == head[0] && journal@[1] == head[1] && journal@[2] == head[2]);
        Ok(())
    }

    /// The unarchived cost layers that hold stock, of active items in active
    /// warehouses whose item name, code or warehouse name holds the trimmed
    /// search; by item, warehouse and age.
    ///
    /// `stock_records_journaled` states the query it runs and how each returned row is read.
    pub fn stock_records(&self, search: &str) -> (r: Result<Vec<StockRecord>, DatabaseError>)
        ensures
            r is Err ==> store_failure(r),
    {
        let mut journal: Ghost<Seq<Entry>> = Ghost(Seq::empty());
        self.stock_records_journaled(search, &mut journal)
    }

    /// `stock_records`, with what it read: the layers the trimmed search finds, each read from its row in the order SQLite returned them.
    pub fn stock_records_journaled(&self, search: &str, journal: &mut Ghost<Seq<Entry>>) -> (r: Result<
        Vec<StockRecord>,
        DatabaseError,
    >)
        requires
            old(journal)@ == Seq::<Entry>::empty(),
        ensures
            r matches Ok(v) ==> final(journal)@.len() == 1 && (read_rows(
                final(journal)@[0],
                STOCK_RECORDS_SQL@,
                seq![ParamView::Text(like_pattern_of(search@))],
            ) matches Some(rows) && rows.len() == v.len() && forall|k: int|
                0 <= k < v.len() ==> stock_row_is(rows[k], #[trigger] v@[k])),
            r is Err ==> store_failure(r),
    {
        let args = search_args(search);
        assert(params_view(args@) =~= seq![ParamView::Text(like_pattern_of(search@))]);
        let rows = read_in(&self.connection, STOCK_RECORDS_SQL, args, 11, journal)?;
        let ghost rv = rows_view(rows@);
        let mut out: Vec<StockRecord> = Vec::new();
        let mut i: usize = 0;
        while i < rows.len()
            invariant
                i <= rows.len(),
                out.len() == i,
                rv == rows_view(rows@),
                forall|k: int| 0 <= k < rows.len() ==> #[trigger] rows[k].len() == 11,
                forall|k: int| 0 <= k < i ==> stock_row_is(rv[k], #[trigger] out@[k]),
            decreases rows.len() - i,
        {
            let rec = decode_stock_record(&rows[i])?;
            assert(rv[i as int] == rows@[i as int]@);
            let ghost before = out@;
            out.push(rec);
            assert forall|k: int| 0 <= k < i + 1 implies stock_row_is(rv[k], #[trigger] out@[k]) by {
                if k < i {
                    assert(out@[k] == before[k]);
                }
            }
            i = i + 1;
        }
        Ok(out)
    }

    /// Revises a cost layer: its remaining quantity, unit cost and warehouse.
    /// The stock levels follow, a move between warehouses is recorded as a
    /// transfer, and the revision is kept.
    ///
    /// `update_cost_layer_journaled` states what it reads and runs.
    pub fn update_cost_layer(
        &self,
        layer_id: i64,
        target_warehouse_id: i64,
        quantity_milliunits: i64,
        unit_cost_minor: i64,
        reference: Option<&str>,
    ) -> (r: Result<(), DatabaseError>)
        ensures
            quantity_milliunits < 0 || unit_cost_minor < 0 ==> refused(
                r,
                "invalid inventory layer values"@,
            ),
            refused(r, "invalid inventory layer values"@) ==> quantity_milliunits < 0
                || unit_cost_minor < 0,
            r is Err ==> store_failure(r) || refused(r, "invalid inventory layer values"@)
                || refused(r, "stock quantity overflow"@) || refused(r, "warehouse is inactive"@)
                || refused(r, "stock cannot be negative"@) || refused(
                r,
                "inventory cost overflow"@,
            ),
    {
        let mut journal: Ghost<Seq<Entry>> = Ghost(Seq::empty());
        self.update_cost_layer_journaled(
            layer_id,
            target_warehouse_id,
            quantity_milliunits,
            unit_cost_minor,
            reference,
            &mut journal,
        )
    }

    /// `update_cost_layer`, with what it read and ran: negative values are
    /// refused before anything is read, a move into an inactive warehouse
    /// right after the target is read; what a revision that goes through
    /// runs is `layer_revision_journal`.
    pub fn update_cost_layer_journaled(
        &self,
        layer_id: i64,
        target_warehouse_id: i64,
        quantity_milliunits: i64,
        unit_cost_minor: i64,
        reference: Option<&str>,
        journal: &mut Ghost<Seq<Entry>>,
    ) -> (r: Result<(), DatabaseError>)
        requires
            old(journal)@ == Seq::<Entry>::empty(),
        ensures
            quantity_milliunits < 0 || unit_cost_minor < 0 ==> refused(
                r,
                "invalid inventory layer values"@,
            ) && final(journal)@ == Seq::<Entry>::empty(),
            refused(r, "invalid inventory layer values"@) ==> quantity_milliunits < 0
                || unit_cost_minor < 0,
            refused(r, "warehouse is inactive"@) ==> final(journal)@.len() == 3
                && final(journal)@[0] == Entry::Begin && first_row(
                final(journal)@[1],
                LAYER_READ_SQL@,
                seq![ParamView::Int(layer_id)],
            ) is Some && read_int(
                final(journal)@[2],
                TARGET_ACTIVE_SQL@,
                seq![ParamView::Int(target_warehouse_id)],
            ) == Some(0i64),
            r is Ok ==> layer_revision_journal(
                layer_id,
                target_warehouse_id,
                quantity_milliunits,
                unit_cost_minor,
                opt_str_view(reference),
                final(journal)@,
            ),
            r is Err ==> store_failure(r) || refused(r, "invalid inventory layer values"@)
                || refused(r, "stock quantity overflow"@) || refused(r, "warehouse is inactive"@)
                || refused(r, "stock cannot be negative"@) || refused(
                r,
                "inventory cost overflow"@,
            ),
    {
        proof {
            lemma_layer_messages_differ();
        }
        if quantity_milliunits < 0 || unit_cost_minor < 0 {
            return Err(
                DatabaseError::Validation(String::from_str("invalid inventory layer values")),
            );
        }
        let tx = begin_in(&self.connection, journal)?;
        let conn = sql::within(&tx);
        let args = id_args(layer_id);
        assert(params_view(args@) =~= seq![ParamView::Int(layer_id)]);
        let layer = read_first_in(conn, LAYER_READ_SQL, args, 5, journal)?;
        let warehouse_id = cell_int(&layer, 0)?;
        let item_id = cell_int(&layer, 1)?;
        let acquired = cell_int(&layer, 2)?;
        let previous_quantity = cell_quantity(&layer, 3)?;
        let previous_cost = cell_int(&layer, 4)?;
        let ghost read_layer = journal@;
        assert(read_layer[0] == Entry::Begin) by {
            assert(read_layer[0] == read_layer.drop_last()[0]);
        }
        assert(read_layer[1] == read_layer.last());
        let acquired_quantity = revised_acquired_quantity(
            acquired,
            previous_quantity,
            quantity_milliunits,
        )?;
        let args = id_args(target_warehouse_id);
        assert(params_view(args@) =~= seq![ParamView::Int(target_warehouse_id)]);
        let target_active = read_int_in(conn, TARGET_ACTIVE_SQL, args, journal)?;
        assert(journal@[0] == read_layer[0] && journal@[1] == read_layer[1]) by {
            assert(journal@.drop_last() == read_layer);
        }
        assert(journal@[2] == journal@.last());
        if target_active == 0 {
            return Err(DatabaseError::Validation(String::from_str("warehouse is inactive")));
        }
        let args = pair_args(warehouse_id, item_id);
        assert(params_view(args@) =~= ints_view(seq![warehouse_id, item_id]));
        let ghost read_target = journal@;
        let current_stock = read_int_in(conn, LEVEL_READ_SQL, args, journal)?;
        if current_stock < 0 {
            return Err(unexpected_column());
        }
        let ghost reads = journal@;
        assert(reads.subrange(0, 3) =~= read_target);
        assert(reads[3] == reads.last());
        if warehouse_id == target_warehouse_id {
            let next = restocked_level(current_stock, previous_quantity, quantity_milliunits)?;
            let mut args = Vec::new();
            args.push(sql::integer(next));
            args.push(sql::integer(warehouse_id));
            args.push(sql::integer(item_id));
            assert(params_view(args@) =~= ints_view(seq![next, warehouse_id, item_id]));
            run_in(conn, LEVEL_SET_SQL, args, journal)?;
        } else {
            let source_next = level_after_layer_leaves(current_stock, previous_quantity)?;
            let mut args = Vec::new();
            args.push(sql::integer(source_next));
            args.push(sql::integer(warehouse_id));
            args.push(sql::integer(item_id));
            assert(params_view(args@) =~= ints_view(seq![source_next, warehouse_id, item_id]));
            run_in(conn, LEVEL_SET_SQL, args, journal)?;
            let mut upsert = pair_args(target_warehouse_id, item_id);
            upsert.push(sql::integer(quantity_milliunits));
            assert(params_view(upsert@) =~= ints_view(
                seq![target_warehouse_id, item_id, quantity_milliunits],
            ));
            run_in(conn, LEVEL_ADD_SQL, upsert, journal)?;
            let moved_cost = transfer_cost(previous_cost, previous_quantity)?;
            let mut out = pair_args(warehouse_id, item_id);
            out.push(sql::text(String::from_str("transfer_out")));
            out.push(sql::integer(previous_quantity));
            out.push(sql::boolean(false));
            out.push(opt_str_arg(reference));
            out.push(sql::integer(previous_cost));
            out.push(sql::integer(moved_cost));
            assert(params_view(out@) =~= revision_transfer_params(
                warehouse_id,
                item_id,
                "transfer_out"@,
                previous_quantity,
                0,
                opt_str_view(reference),
                previous_cost,
                moved_cost,
            ));
            run_in(conn, REVISION_TRANSFER_SQL, out, journal)?;
            let mut into = pair_args(target_warehouse_id, item_id);
            into.push(sql::text(String::from_str("transfer_in")));
            into.push(sql::integer(previous_quantity));
            into.push(sql::boolean(true));
            into.push(opt_str_arg(reference));
            into.push(sql::integer(previous_cost));
            into.push(sql::integer(moved_cost));
            assert(params_view(into@) =~= revision_transfer_params(
                target_warehouse_id,
                item_id,
                "transfer_in"@,
                previous_quantity,
                1,
                opt_str_view(reference),
                previous_cost,
                moved_cost,
            ));
            run_in(conn, REVISION_TRANSFER_SQL, into, journal)?;
        }
        let ghost moved = journal@;
        let mut args = Vec::new();
        args.push(sql::integer(acquired_quantity));
        args.push(sql::integer(quantity_milliunits));
        args.push(sql::integer(unit_cost_minor));
        args.push(sql::integer(target_warehouse_id));
        args.push(sql::integer(layer_id));
        assert(params_view(args@) =~= ints_view(
            seq![acquired_quantity, quantity_milliunits, unit_cost_minor, target_warehouse_id, layer_id],
        ));
        run_in(conn, LAYER_REVISE_SQL, args, journal)?;
        let mut revision = Vec::new();
        revision.push(sql::integer(layer_id));
        revision.push(sql::integer(previous_quantity));
        revision.push(sql::integer(quantity_milliunits));
        revision.push(sql::integer(previous_cost));
        revision.push(sql::integer(unit_cost_minor));
        revision.push(opt_str_arg(reference));
        revision.push(sql::integer(warehouse_id));
        revision.push(sql::integer(target_warehouse_id));
        assert(params_view(revision@) =~= revision_params(
            layer_id,
            previous_quantity,
            quantity_milliunits,
            previous_cost,
            unit_cost_minor,
            opt_str_view(reference),
            warehouse_id,
            target_warehouse_id,
        ));
        run_in(conn, REVISION_RECORD_SQL, revision, journal)?;
        commit_in(tx, journal)?;
        assert(journal@.subrange(0, moved.len() as int) =~= moved);
        assert(journal@.subrange(0, 4) =~= reads);
        assert(journal@[0] == reads[0] && journal@[1] == reads[1] && journal@[2] == reads[2]
            && journal@[3] == reads[3]);
        Ok(())
    }

    /// Removes each of the cost layers in turn, passing over one that cannot
    /// be removed: how many were removed and how many passed over, which
    /// together are all of them.
    ///
    /// `remove_cost_layers_journaled` states what each removal ran and which went through.
    pub fn remove_cost_layers(&self, ids: &[i64]) -> (r: (usize, usize))
        ensures
            r.0 + r.1 == ids@.len(),
    {
        let mut steps: Ghost<Seq<Seq<Entry>>> = Ghost(Seq::empty());
        let mut removed: Ghost<Seq<bool>> = Ghost(Seq::empty());
        self.remove_cost_layers_journaled(ids, &mut steps, &mut removed)
    }

    /// `remove_cost_layers`, with what each removal ran and whether it went
    /// through: the k-th id is removed as `remove_cost_layer` removes it, and
    /// the first count is the number of removals that went through.
    pub fn remove_cost_layers_journaled(
        &self,
        ids: &[i64],
        steps: &mut Ghost<Seq<Seq<Entry>>>,
        removed: &mut Ghost<Seq<bool>>,
    ) -> (r: (usize, usize))
        requires
            old(steps)@ == Seq::<Seq<Entry>>::empty(),
            old(removed)@ == Seq::<bool>::empty(),
        ensures
            r.0 + r.1 == ids@.len(),
            final(steps)@.len() == ids@.len(),
            final(removed)@.len() == ids@.len(),
            r.0 == true_count(final(removed)@),
            forall|k: int|
                0 <= k < ids@.len() ==> (#[trigger] final(removed)@[k] ==> layer_removal_journal(
                    ids@[k],
                    final(steps)@[k],
                )),
    {
        let mut done: usize = 0;
        let mut skipped: usize = 0;
        let mut i: usize = 0;
        while i < ids.len()
            invariant
                i <= ids@.len(),
                done + skipped == i,
                steps@.len() == i,
                removed@.len() == i,
                done == true_count(removed@),
                forall|k: int|
                    0 <= k < i ==> (#[trigger] removed@[k] ==> layer_removal_journal(
                        ids@[k],
                        steps@[k],
                    )),
            decreases ids@.len() - i,
        {
            let mut step: Ghost<Seq<Entry>> = Ghost(Seq::empty());
            let outcome = self.remove_cost_layer_journaled(ids[i], &mut step);
            let ok = outcome.is_ok();
            if ok {
                done = done + 1;
            } else {
                skipped = skipped + 1;
            }
            let ghost prior_steps = steps@;
            let ghost prior = removed@;
            *steps = Ghost(steps@.push(step@));
            *removed = Ghost(removed@.push(ok));
            assert(removed@.drop_last() =~= prior);
            assert forall|k: int| 0 <= k < i + 1 && #[trigger] removed@[k] implies layer_removal_journal(
                ids@[k],
                steps@[k],
            ) by {
                if k < i {
                    assert(removed@[k] == prior[k]);
                    assert(steps@[k] == prior_steps[k]);
                }
            }
            i = i + 1;
        }
        (done, skipped)
    }

    /// Empties a cost layer and archives it; the movements that only it kept
    /// in the history leave the history.
    ///
    /// `remove_cost_layer_journaled` states what it reads and runs.
    pub fn remove_cost_layer(&self, layer_id: i64) -> (r: Result<(), DatabaseError>)
        ensures
            r is Err ==> store_failure(r) || refused(r, "invalid inventory layer values"@)
                || refused(r, "stock quantity overflow"@) || refused(r, "warehouse is inactive"@)
                || refused(r, "stock cannot be negative"@) || refused(
                r,
                "inventory cost overflow"@,
            ),
    {
        let mut journal: Ghost<Seq<Entry>> = Ghost(Seq::empty());
        self.remove_cost_layer_journaled(layer_id, &mut journal)
    }

    /// `remove_cost_layer`, with what it read and ran: the layer's warehouse
    /// and unit cost are read, the layer is revised to hold nothing in its
    /// warehouse at its cost (`update_cost_layer`, whose steps follow in the
    /// journal), and then, in one transaction, it is archived and the
    /// movements that only it kept leave the history.
    pub fn remove_cost_layer_journaled(&self, layer_id: i64, journal: &mut Ghost<Seq<Entry>>) -> (r:
        Result<(), DatabaseError>)
        requires
            old(journal)@ == Seq::<Entry>::empty(),
        ensures
            r is Ok ==> layer_removal_journal(layer_id, final(journal)@),
            r is Err ==> store_failure(r) || refused(r, "invalid inventory layer values"@)
                || refused(r, "stock quantity overflow"@) || refused(r, "warehouse is inactive"@)
                || refused(r, "stock cannot be negative"@) || refused(
                r,
                "inventory cost overflow"@,
            ),
    {
        let args = id_args(layer_id);
        assert(params_view(args@) =~= seq![ParamView::Int(layer_id)]);
        let layer = read_first_in(&self.connection, LAYER_BRIEF_SQL, args, 2, journal)?;
        let warehouse_id = cell_int(&layer, 0)?;
        let unit_cost_minor = cell_int(&layer, 1)?;
        let ghost read = journal@;
        assert(read[0] == read.last());
        let mut revision: Ghost<Seq<Entry>> = Ghost(Seq::empty());
        let outcome = self.update_cost_layer_journaled(
            layer_id,
            warehouse_id,
            0,
            unit_cost_minor,
            Some("removed from inventory"),
            &mut revision,
        );
        *journal = Ghost(journal@ + revision@);
        outcome?;
        let ghost revised = journal@;
        let tx = begin_in(&self.connection, journal)?;
        let conn = sql::within(&tx);
        let args = id_args(layer_id);
        assert(params_view(args@) =~= ints_view(seq![layer_id]));
        run_in(conn, LAYER_ARCHIVE_SQL, args, journal)?;
        let args = id_args(layer_id);
        assert(params_view(args@) =~= ints_view(seq![layer_id]));
        run_in(conn, SOURCE_HIDE_SQL, args, journal)?;
        let args = id_args(layer_id);
        assert(params_view(args@) =~= ints_view(seq![layer_id]));
        run_in(conn, ALLOCATIONS_REVISIT_SQL, args, journal)?;
        let args = id_args(layer_id);
        assert(params_view(args@) =~= ints_view(seq![layer_id]));
        run_in(conn, ITEM_HIDE_SQL, args, journal)?;
        commit_in(tx, journal)?;
        assert(journal@.subrange(1, 1 + revision@.len() as int) =~= revision@);
        assert(journal@.subrange(1 + revision@.len() as int, journal@.len() as int) =~= seq![
            Entry::Begin,
            run_ints(LAYER_ARCHIVE_SQL@, seq![layer_id]),
            run_ints(SOURCE_HIDE_SQL@, seq![layer_id]),
            run_ints(ALLOCATIONS_REVISIT_SQL@, seq![layer_id]),
            run_ints(ITEM_HIDE_SQL@, seq![layer_id]),
            Entry::Commit,
        ]);
        assert(journal@[0] == read[0]);
        assert(layer_removal_journal(layer_id, journal@)) by {
            assert(journal@.len() - 6 - 1 == revision@.len());
        }
        Ok(())
    }

    /// Up to fifty active stocked products whose name or code holds the
    /// trimmed search: id, name and code.
    ///
    /// `inventory_products_journaled` states the query it runs and how each returned row is read.
    pub fn inventory_products(&self, search: &str) -> (r: Result<
        Vec<(i64, String, String)>,
        DatabaseError,
    >)
        ensures
            r is Err ==> store_failure(r),
    {
        let mut journal: Ghost<Seq<Entry>> = Ghost(Seq::empty());
        self.inventory_products_journaled(search, &mut journal)
    }

    /// `inventory_products`, with what it read: the products the trimmed
    /// search finds, each read from its row in the order SQLite returned
    /// them.
    pub fn inventory_products_journaled(&self, search: &str, journal: &mut Ghost<Seq<Entry>>) -> (r:
        Result<Vec<(i64, String, String)>, DatabaseError>)
        requires
            old(journal)@ == Seq::<Entry>::empty(),
        ensures
            r matches Ok(v) ==> final(journal)@.len() == 1 && (read_rows(
                final(journal)@[0],
                INVENTORY_PRODUCTS_SQL@,
                seq![ParamView::Text(like_pattern_of(search@))],
            ) matches Some(rows) && rows.len() == v.len() && forall|k: int|
                0 <= k < v.len() ==> product_row_is(rows[k], #[trigger] v@[k])),
            r is Err ==> store_failure(r),
    {
        let args = search_args(search);
        assert(params_view(args@) =~= seq![ParamView::Text(like_pattern_of(search@))]);
        let rows = read_in(&self.connection, INVENTORY_PRODUCTS_SQL, args, 3, journal)?;
        let ghost rv = rows_view(rows@);
        let mut out: Vec<(i64, String, String)> = Vec::new();
        let mut i: usize = 0;
        while i < rows.len()
            invariant
                i <= rows.len(),
                out.len() == i,
                rv == rows_view(rows@),
                forall|k: int| 0 <= k < rows.len() ==> #[trigger] rows[k].len() == 3,
                forall|k: int| 0 <= k < i ==> product_row_is(rv[k], #[trigger] out@[k]),
            decreases rows.len() - i,
        {
            let row = &rows[i];
            let product = (cell_int(row, 0)?, cell_text(row, 1)?, cell_text(row, 2)?);
            assert(rv[i as int] == rows@[i as int]@);
            let ghost before = out@;
            out.push(product);
            assert forall|k: int| 0 <= k < i + 1 implies product_row_is(rv[k], #[trigger] out@[k]) by {
                if k < i {
                    assert(out@[k] == before[k]);
                }
            }
            i = i + 1;
        }
        Ok(out)
    }

    /// The latest 250 movements still shown in the history, newest first.
    ///
    /// `movement_records_journaled` states the query it runs and how each returned row is read.
    pub fn movement_records(&self) -> (r: Result<Vec<MovementRecord>, DatabaseError>)
        ensures
            r is Err ==> store_failure(r),
    {
        let mut journal: Ghost<Seq<Entry>> = Ghost(Seq::empty());
        self.movement_records_journaled(&mut journal)
    }

    /// `movement_records`, with what it read: the movements, each read from its row in the order SQLite returned them.
    pub fn movement_records_journaled(&self, journal: &mut Ghost<Seq<Entry>>) -> (r: Result<
        Vec<MovementRecord>,
        DatabaseError,
    >)
        requires
            old(journal)@ == Seq::<Entry>::empty(),
        ensures
            r matches Ok(v) ==> final(journal)@.len() == 1 && (read_rows(
                final(journal)@[0],
                MOVEMENT_RECORDS_SQL@,
                Seq::<ParamView>::empty(),
            ) matches Some(rows) && rows.len() == v.len() && forall|k: int|
                0 <= k < v.len() ==> movement_row_is(rows[k], #[trigger] v@[k])),
            r is Err ==> store_failure(r),
    {
        let args = Vec::new();
        assert(params_view(args@) =~= Seq::<ParamView>::empty());
        let rows = read_in(&self.connection, MOVEMENT_RECORDS_SQL, args, 8, journal)?;
        let ghost rv = rows_view(rows@);
        let mut out: Vec<MovementRecord> = Vec::new();
        let mut i: usize = 0;
        while i < rows.len()
            invariant
                i <= rows.len(),
                out.len() == i,
                rv == rows_view(rows@),
                forall|k: int| 0 <= k < rows.len() ==> #[trigger] rows[k].len() == 8,
                forall|k: int| 0 <= k < i ==> movement_row_is(rv[k], #[trigger] out@[k]),
            decreases rows.len() - i,
        {
            let rec = decode_movement_record(&rows[i])?;
            assert(rv[i as int] == rows@[i as int]@);
            let ghost before = out@;
            out.push(rec);
            assert forall|k: int| 0 <= k < i + 1 implies movement_row_is(rv[k], #[trigger] out@[k]) by {
                if k < i {
                    assert(out@[k] == before[k]);
                }
            }
            i = i + 1;
        }
        Ok(out)
    }

    /// Brings the stock of an item in a warehouse to `quantity_milliunits`
    /// by recording the receipt or issue of the difference; nothing when it
    /// is already there.
    ///
    /// `set_stock_level_journaled` states what it reads and runs.
    pub fn set_stock_level(
        &self,
        warehouse_id: i64,
        item_id: i64,
        quantity_milliunits: i64,
        unit_cost_minor: Option<i64>,
        reference: Option<&str>,
    ) -> (r: Result<(), DatabaseError>)
        ensures
            quantity_milliunits < 0 ==> refused(r, "stock cannot be negative"@),
    {
        let mut journal: Ghost<Seq<Entry>> = Ghost(Seq::empty());
        self.set_stock_level_journaled(
            warehouse_id,
            item_id,
            quantity_milliunits,
            unit_cost_minor,
            reference,
            &mut journal,
        )
    }

    /// `set_stock_level`, with what it read and ran: a negative level is
    /// refused before anything is read; the level is read, and when it is
    /// not already the one asked for, the receipt or issue of the
    /// difference (`adjustment_for`) is recorded as
    /// `record_inventory_movement` records it, its steps following in the
    /// journal.
    pub fn set_stock_level_journaled(
        &self,
        warehouse_id: i64,
        item_id: i64,
        quantity_milliunits: i64,
        unit_cost_minor: Option<i64>,
        reference: Option<&str>,
        journal: &mut Ghost<Seq<Entry>>,
    ) -> (r: Result<(), DatabaseError>)
        requires
            old(journal)@ == Seq::<Entry>::empty(),
        ensures
            quantity_milliunits < 0 ==> refused(r, "stock cannot be negative"@) && final(journal)@
                == Seq::<Entry>::empty(),
            r is Ok ==> final(journal)@.len() >= 1 && (read_int(
                final(journal)@[0],
                STOCK_LEVEL_SQL@,
                ints_view(seq![warehouse_id, item_id]),
            ) matches Some(current) && current >= 0 && match adjustment_for(
                current as int,
                quantity_milliunits as int,
            ) {
                None => final(journal)@.len() == 1,
                Some((quantity, increases)) => exists|d: InventoryMovementDraft|
                    #[trigger] movement_journal(d, final(journal)@.subrange(1, final(journal)@.len() as int))
                    && d.warehouse_id == warehouse_id && d.item_id == item_id && d.cost_layer_id
                    is None && d.quantity_milliunits == quantity && d.increases_stock == increases
                    && d.unit_cost_minor == unit_cost_minor && opt_string_view(d.reference)
                    == opt_str_view(reference),
            }),
    {
        if quantity_milliunits < 0 {
            return Err(DatabaseError::Validation(String::from_str("stock cannot be negative")));
        }
        let args = pair_args(warehouse_id, item_id);
        assert(params_view(args@) =~= ints_view(seq![warehouse_id, item_id]));
        let current = read_int_in(&self.connection, STOCK_LEVEL_SQL, args, journal)?;
        if current < 0 {
            return Err(unexpected_column());
        }
        let ghost read = journal@;
        assert(read[0] == read.last());
        match stock_adjustment(current, quantity_milliunits) {
            None => Ok(()),
            Some((quantity, increases)) => {
                let draft = InventoryMovementDraft {
                    warehouse_id,
                    item_id,
                    cost_layer_id: None,
                    quantity_milliunits: quantity,
                    increases_stock: increases,
                    unit_cost_minor,
                    reference: match reference {
                        Some(s) => Some(String::from_str(s)),
                        None => None,
                    },
                };
                let mut movement: Ghost<Seq<Entry>> = Ghost(Seq::empty());
                let outcome = self.record_inventory_movement_journaled(&draft, &mut movement);
                *journal = Ghost(journal@ + movement@);
                assert(journal@.subrange(1, journal@.len() as int) =~= movement@);
                assert(journal@[0] == read[0]);
                proof {
                    if outcome is Ok {
                        assert(movement_journal(draft, journal@.subrange(1, journal@.len() as int)));
                    }
                }
                outcome
            },
        }
    }

    /// Records a receipt or an issue. A receipt opens a cost layer at its unit
    /// cost; an issue draws on the warehouse's layers for the item (or the
    /// chosen one) first in, first out, and its cost is what it drew. The
    /// stock level never goes negative.
    ///
    /// `record_inventory_movement_journaled` states what it reads and runs.
    pub fn record_inventory_movement(&self, draft: &InventoryMovementDraft) -> (r: Result<
        (),
        DatabaseError,
    >)
        ensures
            movement_draft_error(*draft) matches Some(m) ==> refused(r, m),
            movement_draft_error(*draft) is None && r is Err ==> movement_failure(r),
    {
        let mut journal: Ghost<Seq<Entry>> = Ghost(Seq::empty());
        self.record_inventory_movement_journaled(draft, &mut journal)
    }

    /// `record_inventory_movement`, with what it read and ran: a draft that
    /// `validate_movement_draft` refuses is refused before anything is read;
    /// an issue of more than the level read is refused right after the level
    /// is read; what a movement that goes through runs is `movement_journal`.
    pub fn record_inventory_movement_journaled(
        &self,
        draft: &InventoryMovementDraft,
        journal: &mut Ghost<Seq<Entry>>,
    ) -> (r: Result<(), DatabaseError>)
        requires
            old(journal)@ == Seq::<Entry>::empty(),
        ensures
            movement_draft_error(*draft) matches Some(m) ==> refused(r, m) && final(journal)@
                == Seq::<Entry>::empty(),
            movement_draft_error(*draft) is None && r is Err ==> movement_failure(r),
            refused(r, "insufficient stock"@) ==> final(journal)@.len() == 2 && final(journal)@[0]
                == Entry::Begin && (read_int(
                final(journal)@[1],
                STOCK_LEVEL_SQL@,
                ints_view(seq![draft.warehouse_id, draft.item_id]),
            ) matches Some(s) && s >= 0 && !draft.increases_stock && s < draft.quantity_milliunits),
            r is Ok ==> movement_journal(*draft, final(journal)@),
    {
        proof {
            lemma_movement_messages_differ();
        }
        validate_movement_draft(draft)?;
        let tx = begin_in(&self.connection, journal)?;
        let conn = sql::within(&tx);
        let args = pair_args(draft.warehouse_id, draft.item_id);
        assert(params_view(args@) =~= ints_view(seq![draft.warehouse_id, draft.item_id]));
        let current = read_int_in(conn, STOCK_LEVEL_SQL, args, journal)?;
        if current < 0 {
            return Err(unexpected_column());
        }
        let ghost levels = journal@;
        assert(levels[0] == Entry::Begin) by {
            assert(levels[0] == levels.drop_last()[0]);
        }
        assert(levels[1] == levels.last());
        let next = next_stock(current, draft.quantity_milliunits, draft.increases_stock)?;
        let mut level = pair_args(draft.warehouse_id, draft.item_id);
        level.push(sql::integer(next));
        assert(params_view(level@) =~= ints_view(seq![draft.warehouse_id, draft.item_id, next]));
        run_in(conn, LEVEL_PUT_SQL, level, journal)?;
        let total = inbound_total(draft.unit_cost_minor, draft.quantity_milliunits);
        let mut movement = pair_args(draft.warehouse_id, draft.item_id);
        movement.push(sql::text(String::from_str(movement_kind(draft.increases_stock))));
        movement.push(sql::integer(draft.quantity_milliunits));
        movement.push(sql::boolean(draft.increases_stock));
        movement.push(opt_string_arg(&draft.reference));
        movement.push(sql::opt_int(draft.unit_cost_minor));
        movement.push(sql::opt_int(total));
        assert(params_view(movement@) =~= movement_params(*draft));
        run_in(conn, MOVEMENT_RECORD_SQL, movement, journal)?;
        let movement_id = rowid_in(conn, journal);
        let ghost head = journal@;
        assert(head.subrange(0, 2) =~= levels);
        if draft.increases_stock {
            let unit_cost = match draft.unit_cost_minor {
                Some(c) => c,
                None => 0,
            };
            let mut args = pair_args(draft.warehouse_id, draft.item_id);
            args.push(sql::integer(movement_id));
            args.push(sql::integer(draft.quantity_milliunits));
            args.push(sql::integer(unit_cost));
            assert(params_view(args@) =~= ints_view(
                seq![draft.warehouse_id, draft.item_id, movement_id, draft.quantity_milliunits, unit_cost],
            ));
            run_in(conn, LAYER_OPEN_SQL, args, journal)?;
            assert(journal@.len() == 6);
            assert(journal@[5] == run_ints(
                LAYER_OPEN_SQL@,
                seq![draft.warehouse_id, draft.item_id, movement_id, draft.quantity_milliunits, unit_cost],
            ));
            let ghost opened = journal@;
            commit_in(tx, journal)?;
            assert(journal@[5] == opened[5]);
            assert(journal@.subrange(0, 5) =~= head);
            assert(journal@[0] == head[0] && journal@[1] == head[1] && journal@[2] == head[2]
                && journal@[3] == head[3] && journal@[4] == head[4]);
            assert(journal@.len() == 7);
            assert(journal@[0] == Entry::Begin);
            assert(read_int(journal@[1], STOCK_LEVEL_SQL@, ints_view(seq![draft.warehouse_id, draft.item_id])) == Some(current));
            assert(stock_after(current as int, draft.quantity_milliunits as int, draft.increases_stock) == Some(next as int));
            assert(journal@[2] == run_ints(LEVEL_PUT_SQL@, seq![draft.warehouse_id, draft.item_id, next]));
            assert(journal@[3] == Entry::Run(MOVEMENT_RECORD_SQL@, movement_params(*draft)));
            assert(journal@[4] == Entry::Rowid(movement_id));
            assert(journal@[6] == Entry::Commit);
            assert(unit_cost == receipt_unit_cost(*draft));
            assert(movement_journal(*draft, journal@));
        } else {
            let mut args = pair_args(draft.warehouse_id, draft.item_id);
            args.push(sql::opt_int(draft.cost_layer_id));
            assert(params_view(args@) =~= issue_params(*draft));
            let rows = read_in(conn, ISSUE_LAYERS_SQL, args, 3, journal)?;
            let layers = decode_cost_layers(&rows)?;
            let ghost rv = rows_view(rows@);
            assert(layers@ =~= layers_of(rv)) by {
                assert forall|k: int| 0 <= k < layers@.len() implies #[trigger] layers@[k]
                    == layers_of(rv)[k] by {
                    assert(rv[k] == rows@[k]@);
                    assert(rows[k][0] == Cell::Int(layers@[k].id));
                    assert(rows[k][1] == Cell::Int(layers@[k].available));
                    assert(rows[k][2] == Cell::Int(layers@[k].unit_cost));
                }
            }
            let plan = allocate_fifo(&layers, draft.quantity_milliunits)?;
            let ghost q = draft.quantity_milliunits as int;
            let ghost allocs = fifo_allocations(layers@, q);
            assert(plan.allocations@ =~= allocs) by {
                let used = fifo_used(layers@, q);
                assert forall|k: int| 0 <= k < allocs.len() implies plan.allocations@[k]
                    == #[trigger] allocs[k] by {
                    assert(plan.allocations@[k].layer_id == layers@[k].id);
                    assert(plan.allocations@[k].quantity == used[k]);
                    assert(plan.allocations@[k].cost == milliunit_cost(
                        layers@[k].unit_cost as int,
                        used[k],
                    ));
                }
            }
            let ghost drawn = journal@;
            assert(drawn.subrange(0, 5) =~= head);
            assert(drawn[5] == drawn.last());
            assert(read_rows(drawn[5], ISSUE_LAYERS_SQL@, issue_params(*draft)) == Some(rv));
            assert forall|k: int| 0 <= k < rv.len() implies #[trigger] rv[k].len() == 3 && rv[k][0] is Int
                && rv[k][1] is Int && rv[k][1]->Int_0 > 0 && rv[k][2] is Int by {
                assert(rv[k] == rows@[k]@);
                assert(cost_layer_row(rows[k]));
            }
            assert(fifo_costs_fit(layers@, q, 0));
            assert(fifo_shortfall(layers@, q) == 0);
            let mut k: usize = 0;
            while k < plan.allocations.len()
                invariant
                    k <= plan.allocations.len(),
                    movement_draft_error(*draft) is None,
                    "insufficient stock"@ != "unexpected column value"@,
                    "insufficient stock"@ != "stock quantity overflow"@,
                    "insufficient stock"@ != "inventory cost overflow"@,
                    "insufficient stock"@ != "inventory cost layers are incomplete"@,
                    plan.allocations@ == allocs,
                    drawn.len() == 6,
                    journal@.len() == 6 + 2 * k,
                    journal@.subrange(0, 6) == drawn,
                    forall|m: int|
                        0 <= m < k ==> allocation_written(
                            movement_id,
                            #[trigger] allocs[m],
                            journal@[6 + 2 * m],
                            journal@[7 + 2 * m],
                        ),
                decreases plan.allocations.len() - k,
            {
                let ghost before = journal@;
                let allocation = plan.allocations[k];
                let args = pair_args(allocation.quantity, allocation.layer_id);
                assert(params_view(args@) =~= ints_view(seq![allocation.quantity, allocation.layer_id]));
                run_in(conn, LAYER_DRAW_SQL, args, journal)?;
                let mut entry = pair_args(movement_id, allocation.layer_id);
                entry.push(sql::integer(allocation.quantity));
                entry.push(sql::integer(allocation.unit_cost));
                entry.push(sql::integer(allocation.cost));
                assert(params_view(entry@) =~= ints_view(
                    seq![movement_id, allocation.layer_id, allocation.quantity, allocation.unit_cost, allocation.cost],
                ));
                run_in(conn, ALLOCATION_RECORD_SQL, entry, journal)?;
                assert(journal@.subrange(0, before.len() as int) =~= before);
                assert forall|m: int| 0 <= m < k + 1 implies allocation_written(
                    movement_id,
                    #[trigger] allocs[m],
                    journal@[6 + 2 * m],
                    journal@[7 + 2 * m],
                ) by {
                    if m < k {
                        assert(journal@[6 + 2 * m] == before[6 + 2 * m]);
                        assert(journal@[7 + 2 * m] == before[7 + 2 * m]);
                    }
                }
                assert(journal@.subrange(0, 6) =~= before.subrange(0, 6));
                k = k + 1;
            }
            let ghost allocated = journal@;
            let args = pair_args(plan.total_cost, movement_id);
            assert(params_view(args@) =~= ints_view(seq![plan.total_cost, movement_id]));
            run_in(conn, MOVEMENT_COST_SQL, args, journal)?;
            commit_in(tx, journal)?;
            assert(journal@.subrange(0, allocated.len() as int) =~= allocated);
            assert(journal@.subrange(0, 6) =~= drawn);
            assert(journal@[0] == head[0] && journal@[1] == head[1] && journal@[2] == head[2]
                && journal@[3] == head[3] && journal@[4] == head[4] && journal@[5] == drawn[5]);
            assert forall|m: int| 0 <= m < allocs.len() implies allocation_written(
                movement_id,
                #[trigger] allocs[m],
                journal@[6 + 2 * m],
                journal@[7 + 2 * m],
            ) by {
                assert(journal@[6 + 2 * m] == allocated[6 + 2 * m]);
                assert(journal@[7 + 2 * m] == allocated[7 + 2 * m]);
            }
            assert(journal@.len() == 8 + 2 * allocs.len());
            assert(journal@[5] == drawn[5]);
            assert(plan.total_cost == cost_sum(allocs));
            assert(journal@[journal@.len() - 2] == run_ints(
                MOVEMENT_COST_SQL@,
                seq![cost_sum(allocs) as i64, movement_id],
            ));
            assert(journal@[0] == Entry::Begin);
            assert(read_int(journal@[1], STOCK_LEVEL_SQL@, ints_view(seq![draft.warehouse_id, draft.item_id])) == Some(current));
            assert(journal@[2] == run_ints(LEVEL_PUT_SQL@, seq![draft.warehouse_id, draft.item_id, next]));
            assert(journal@[3] == Entry::Run(MOVEMENT_RECORD_SQL@, movement_params(*draft)));
            assert(journal@[4] == Entry::Rowid(movement_id));
            assert(movement_journal(*draft, journal@));
        }
        Ok(())
    }
}


/// The statement that rewrites a layer: acquired and remaining quantity,
/// unit cost, warehouse and layer.
pub open spec fn layer_rewrite(acquired: i64, remaining: i64, cost: i64, warehouse: i64, layer: i64) -> Entry {
    run_ints(LAYER_REVISE_SQL@, seq![acquired, remaining, cost, warehouse, layer])
}

/// The statement that sets the level of an item in a warehouse.
pub open spec fn level_set(level: i64, warehouse: i64, item: i64) -> Entry {
    run_ints(LEVEL_SET_SQL@, seq![level, warehouse, item])
}

/// The statement that adds a quantity to the level of an item in a
/// warehouse.
pub open spec fn level_add(warehouse: i64, item: i64, quantity: i64) -> Entry {
    run_ints(LEVEL_ADD_SQL@, seq![warehouse, item, quantity])
}

/// A revised layer carries the stock with it. The layer is rewritten with
/// the new remaining quantity, in the target warehouse, keeping what was
/// consumed of it (unless it is emptied). When it stays in its warehouse,
/// the item's level there changes by exactly the change of the layer's
/// remaining quantity; when it moves, its old warehouse loses what the
/// layer held and the target gains the new remaining quantity.
pub proof fn layer_revision_carries_stock(
    layer: i64,
    target: i64,
    quantity: i64,
    unit_cost: i64,
    reference: Option<Seq<char>>,
    j: Seq<Entry>,
)
    requires
        layer_revision_journal(layer, target, quantity, unit_cost, reference, j),
    ensures
        ({
            let row = first_row(j[1], LAYER_READ_SQL@, seq![ParamView::Int(layer)])->Some_0;
            let w = row[0]->Int_0;
            let i = row[1]->Int_0;
            let a = row[2]->Int_0;
            let p = row[3]->Int_0;
            let s = read_int(j[3], LEVEL_READ_SQL@, ints_view(seq![w, i]))->Some_0;
            &&& forall|acq: i64, q: i64, c: i64, t: i64, l: i64|
                #[trigger] layer_rewrite(acq, q, c, t, l) == j[j.len() - 3]
                    ==> q == quantity && c == unit_cost && t == target && l == layer && (quantity
                    != 0 ==> acq - q == a - p) && (quantity == 0 ==> acq == a)
            &&& w == target ==> forall|v: i64|
                #[trigger] level_set(v, w, i) == j[4] ==> v - s == quantity - p
            &&& w != target ==> (forall|v: i64|
                #[trigger] level_set(v, w, i) == j[4] ==> s - v == p)
                && (forall|x: i64|
                #[trigger] level_add(target, i, x) == j[5] ==> x == quantity)
        }),
{
    let row = first_row(j[1], LAYER_READ_SQL@, seq![ParamView::Int(layer)])->Some_0;
    let w = row[0]->Int_0;
    let i = row[1]->Int_0;
    let a = row[2]->Int_0;
    let p = row[3]->Int_0;
    let s = read_int(j[3], LEVEL_READ_SQL@, ints_view(seq![w, i]))->Some_0;
    let acquired = revised_acquired(a as int, p as int, quantity as int)->Some_0;
    revised_layer_keeps_consumed(a as int, p as int, quantity as int);
    assert forall|acq: i64, q: i64, c: i64, t: i64, l: i64|
        #[trigger] layer_rewrite(acq, q, c, t, l) == j[j.len() - 3] implies q
        == quantity && c == unit_cost && t == target && l == layer && (quantity != 0 ==> acq - q
        == a - p) && (quantity == 0 ==> acq == a) by {
        lemma_run_ints_same(
            LAYER_REVISE_SQL@,
            seq![acq, q, c, t, l],
            LAYER_REVISE_SQL@,
            seq![acquired as i64, quantity, unit_cost, target, layer],
        );
        assert(seq![acq, q, c, t, l][0] == acq);
        assert(seq![acq, q, c, t, l][1] == q);
        assert(seq![acq, q, c, t, l][2] == c);
        assert(seq![acq, q, c, t, l][3] == t);
        assert(seq![acq, q, c, t, l][4] == l);
    }
    if w == target {
        assert forall|v: i64| #[trigger] level_set(v, w, i) == j[4] implies v - s
            == quantity - p by {
            lemma_run_ints_same(
                LEVEL_SET_SQL@,
                seq![v, w, i],
                LEVEL_SET_SQL@,
                seq![(s + quantity - p) as i64, w, i],
            );
            assert(seq![v, w, i][0] == v);
        }
    } else {
        assert forall|v: i64| #[trigger] level_set(v, w, i) == j[4] implies s - v
            == p by {
            lemma_run_ints_same(LEVEL_SET_SQL@, seq![v, w, i], LEVEL_SET_SQL@, seq![(s - p) as i64, w, i]);
            assert(seq![v, w, i][0] == v);
        }
        assert forall|x: i64| #[trigger] level_add(target, i, x) == j[5] implies x
            == quantity by {
            lemma_run_ints_same(
                LEVEL_ADD_SQL@,
                seq![target, i, x],
                LEVEL_ADD_SQL@,
                seq![target, i, quantity],
            );
            assert(seq![target, i, x][2] == x);
        }
    }
}


/// Moving a warehouse's stock moves all of it: for every item the source
/// held, the target's level gains exactly the quantity the source held,
/// and the transfers out of the source and into the target record that
/// quantity at one and the same cost; afterwards the source holds no
/// levels and is inactive.
pub proof fn warehouse_move_moves_everything(source: i64, target: i64, j: Seq<Entry>)
    requires
        warehouse_move_journal(source, target, j),
    ensures
        ({
            let rows = read_rows(j[2], SOURCE_STOCK_SQL@, seq![ParamView::Int(source)])->Some_0;
            &&& forall|k: int, x: i64|
                0 <= k < rows.len() && #[trigger] level_add(target, rows[k][0]->Int_0, x) == j[4
                    + 4 * k] ==> x == rows[k][1]->Int_0
            &&& forall|k: int|
                0 <= k < rows.len() ==> (#[trigger] j[5 + 4 * k] matches Entry::Run(s1, out) && j[6
                    + 4 * k] matches Entry::Run(s2, inn) && s1 == s2 && out[3] == inn[3] && out[3]
                    == ParamView::Int(rows[k][1]->Int_0) && out[5] == inn[5] && out[0]
                    == ParamView::Int(source) && inn[0] == ParamView::Int(target))
            &&& j[j.len() - 3] == run_ints(LEVELS_DELETE_SQL@, seq![source])
            &&& j[j.len() - 2] == run_ints(WAREHOUSE_DEACTIVATE_SQL@, seq![source])
        }),
{
    let rows = read_rows(j[2], SOURCE_STOCK_SQL@, seq![ParamView::Int(source)])->Some_0;
    assert forall|k: int, x: i64|
        0 <= k < rows.len() && #[trigger] level_add(target, rows[k][0]->Int_0, x) == j[4 + 4 * k]
            implies x == rows[k][1]->Int_0 by {
        let steps = j.subrange(3 + 4 * k, 7 + 4 * k);
        assert(item_moved(source, target, rows[k], steps));
        assert(steps[1] == j[4 + 4 * k]);
        lemma_run_ints_same(
            LEVEL_ADD_SQL@,
            seq![target, rows[k][0]->Int_0, x],
            LEVEL_ADD_SQL@,
            seq![target, rows[k][0]->Int_0, rows[k][1]->Int_0],
        );
        assert(seq![target, rows[k][0]->Int_0, x][2] == x);
    }
    assert forall|k: int| 0 <= k < rows.len() implies (#[trigger] j[5 + 4 * k] matches Entry::Run(
        s1,
        out,
    ) && j[6 + 4 * k] matches Entry::Run(s2, inn) && s1 == s2 && out[3] == inn[3] && out[3]
        == ParamView::Int(rows[k][1]->Int_0) && out[5] == inn[5] && out[0] == ParamView::Int(source)
        && inn[0] == ParamView::Int(target)) by {
        let steps = j.subrange(3 + 4 * k, 7 + 4 * k);
        assert(item_moved(source, target, rows[k], steps));
        assert(steps[2] == j[5 + 4 * k]);
        assert(steps[3] == j[6 + 4 * k]);
    }
}


/// A row a stock sheet accepts is a receipt the store takes: its quantity
/// is above zero, its unit cost is not negative, and the receipt of it
/// into a new layer is not refused.
pub proof fn accepted_stock_rows_are_receivable(
    v: Seq<Seq<char>>,
    row: InventoryImportRow,
    d: InventoryMovementDraft,
)
    requires
        crate::import::inventory_row_ok(v),
        crate::import::inventory_row_read(v, row),
        d.quantity_milliunits == row.quantity_milliunits,
        d.increases_stock,
        d.unit_cost_minor == Some(row.unit_cost_minor),
        d.cost_layer_id is None,
    ensures
        row.quantity_milliunits > 0,
        row.unit_cost_minor >= 0,
        movement_draft_error(d) is None,
{
}

} // verus!
