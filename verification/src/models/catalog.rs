use vstd::prelude::*;

use super::{ModelError, Money};
use crate::text::{blank, is_blank};

verus! {

#[derive(Debug, Clone, Copy, PartialEq, Eq, Hash, Structural)]
pub struct CatalogItemId(pub i64);

#[derive(Debug, Clone, Copy, PartialEq, Eq, Structural)]
pub enum ItemKind {
    Product,
    Service,
}

#[derive(Debug, Clone, Copy, PartialEq, Eq, Structural)]
pub enum Unit {
    Each,
    Kilogram,
    Gram,
    Liter,
    Meter,
    Hour,
    Session,
    Custom,
}

/// A product or service that can be sold.
#[derive(Debug, Clone, PartialEq, Eq)]
pub struct CatalogItem {
    pub id: CatalogItemId,
    pub kind: ItemKind,
    pub name: String,
    pub sku: Option<String>,
    pub description: Option<String>,
    pub unit: Unit,
    pub sale_price: Money,
    pub cost_price: Option<Money>,
    pub tax_basis_points: u16,
    pub track_inventory: bool,
    pub active: bool,
}

impl CatalogItem {
    /// A new active item; only products track inventory.
    pub fn new(id: CatalogItemId, kind: ItemKind, name: &str, unit: Unit, sale_price: Money) -> (r:
        Result<Self, ModelError>)
        ensures
            is_blank(name@) ==> r == Err::<CatalogItem, ModelError>(
                ModelError::EmptyField("catalog_item.name"),
            ),
            !is_blank(name@) ==> (r matches Ok(item) && item.id == id && item.kind == kind
                && item.name@ == name@ && item.sku is None && item.description is None && item.unit
                == unit && item.sale_price == sale_price && item.cost_price is None
                && item.tax_basis_points == 0 && item.track_inventory == (kind == ItemKind::Product)
                && item.active),
    {
        if blank(name) {
            return Err(ModelError::EmptyField("catalog_item.name"));
        }
        Ok(CatalogItem {
            id,
            kind,
            name: name.to_owned(),
            sku: None,
            description: None,
            unit,
            sale_price,
            cost_price: None,
            tax_basis_points: 0,
            track_inventory: kind == ItemKind::Product,
            active: true,
        })
    }
}

} // verus!
