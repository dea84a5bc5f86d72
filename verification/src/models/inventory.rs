use vstd::prelude::*;

use super::{CatalogItemId, Date, Quantity};

verus! {

#[derive(Debug, Clone, Copy, PartialEq, Eq, Hash, Structural)]
pub struct WarehouseId(pub i64);

#[derive(Debug, Clone, Copy, PartialEq, Eq, Hash, Structural)]
pub struct InventoryMovementId(pub i64);

#[derive(Debug, Clone, Copy, PartialEq, Eq, Structural)]
pub enum MovementKind {
    Opening,
    Purchase,
    Sale,
    CustomerReturn,
    SupplierReturn,
    Adjustment,
    TransferIn,
    TransferOut,
}

#[derive(Debug, Clone, PartialEq, Eq)]
pub struct StockLevel {
    pub warehouse_id: WarehouseId,
    pub item_id: CatalogItemId,
    pub quantity_milliunits: i64,
    pub reorder_point_milliunits: Option<i64>,
}

#[derive(Debug, Clone, PartialEq, Eq)]
pub struct InventoryMovement {
    pub id: InventoryMovementId,
    pub warehouse_id: WarehouseId,
    pub item_id: CatalogItemId,
    pub kind: MovementKind,
    pub quantity: Quantity,
    pub increases_stock: bool,
    pub occurred_on: Date,
    pub reference: Option<String>,
    pub note: Option<String>,
    pub created_by: crate::models::UserId,
}

impl InventoryMovement {
    /// The change in stock: the quantity, negated when stock goes out.
    pub fn signed_milliunits(&self) -> (r: i64)
        ensures
            self.increases_stock ==> r == self.quantity.spec_milliunits(),
            !self.increases_stock ==> r == -self.quantity.spec_milliunits(),
            self.increases_stock <==> r > 0,
    {
        let q = self.quantity.milliunits();
        if self.increases_stock {
            q
        } else {
            -q
        }
    }
}

} // verus!
