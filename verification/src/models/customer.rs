use vstd::prelude::*;

use super::{Currency, ModelError, Money};
use crate::text::{blank, is_blank};

verus! {

#[derive(Debug, Clone, Copy, PartialEq, Eq, Hash, Structural)]
pub struct CustomerId(pub i64);

#[derive(Debug, Clone, Copy, PartialEq, Eq, Structural)]
pub enum CustomerKind {
    Individual,
    Business,
}

/// A customer and the balance they owe (positive) or are owed (negative).
#[derive(Debug, Clone, PartialEq, Eq)]
pub struct Customer {
    pub id: CustomerId,
    pub kind: CustomerKind,
    pub name: String,
    pub phone: Option<String>,
    pub email: Option<String>,
    pub address: Option<String>,
    pub tax_id: Option<String>,
    pub notes: Option<String>,
    pub balance: Money,
    pub active: bool,
}

impl Customer {
    /// A new active customer with a zero balance in rials.
    pub fn new(id: CustomerId, kind: CustomerKind, name: &str) -> (r: Result<Self, ModelError>)
        ensures
            is_blank(name@) ==> r == Err::<Customer, ModelError>(
                ModelError::EmptyField("customer.name"),
            ),
            !is_blank(name@) ==> (r matches Ok(c) && c.id == id && c.kind == kind && c.name@
                == name@ && c.phone is None && c.email is None && c.address is None && c.tax_id is None
                && c.notes is None && c.balance == (Money { minor_units: 0, currency: Currency::Irr })
                && c.active),
    {
        if blank(name) {
            return Err(ModelError::EmptyField("customer.name"));
        }
        Ok(Customer {
            id,
            kind,
            name: name.to_owned(),
            phone: None,
            email: None,
            address: None,
            tax_id: None,
            notes: None,
            balance: Money::zero(Currency::Irr),
            active: true,
        })
    }

    /// The customer owes money.
    pub fn is_debit(&self) -> (r: bool)
        ensures
            r == (self.balance.minor_units > 0),
    {
        self.balance.minor_units > 0
    }

    /// The customer is owed money.
    pub fn is_credit(&self) -> (r: bool)
        ensures
            r == (self.balance.minor_units < 0),
    {
        self.balance.minor_units < 0
    }
}

} // verus!
