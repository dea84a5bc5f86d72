//! The rules of stock and cost: how a movement changes a stock level, how an
//! issue draws on cost layers first in, first out, and what a revised cost
//! layer becomes.

use vstd::prelude::*;

use super::{refused, DatabaseError};
use crate::models::{div_trunc, in_i64};

verus! {

/// A cost layer that stock can be issued from, as read in FIFO order
/// (oldest acquisition first).
#[derive(Debug, Clone, Copy, PartialEq, Eq)]
pub struct CostLayer {
    pub id: i64,
    pub available: i64,
    pub unit_cost: i64,
}

/// What an issue takes from one cost layer.
#[derive(Debug, Clone, Copy, PartialEq, Eq)]
pub struct Allocation {
    pub layer_id: i64,
    pub quantity: i64,
    pub unit_cost: i64,
    pub cost: i64,
}

/// The allocations of an issue and their total cost.
#[derive(Debug, Clone, PartialEq, Eq)]
pub struct FifoPlan {
    pub allocations: Vec<Allocation>,
    pub total_cost: i64,
}

/// Layers as the store hands them out: each still holds stock.
pub open spec fn issuable(layers: Seq<CostLayer>) -> bool {
    forall|k: int| 0 <= k < layers.len() ==> #[trigger] layers[k].available > 0
}

pub open spec fn min_of(a: int, b: int) -> int {
    if a <= b {
        a
    } else {
        b
    }
}

/// The cost of `quantity` milliunits at `unit_cost` per whole unit, rounded
/// toward zero.
pub open spec fn milliunit_cost(unit_cost: int, quantity: int) -> int {
    div_trunc(unit_cost * quantity, 1000)
}

/// The quantities an issue of `remaining` takes from the layers in order:
/// as much of each layer as is still wanted, stopping once nothing is.
pub open spec fn fifo_used(layers: Seq<CostLayer>, remaining: int) -> Seq<int>
    decreases layers.len(),
{
    if layers.len() == 0 || remaining == 0 {
        Seq::empty()
    } else {
        let used = min_of(remaining, layers[0].available as int);
        seq![used] + fifo_used(layers.drop_first(), remaining - used)
    }
}

/// What is still wanted once the layers are used up.
pub open spec fn fifo_shortfall(layers: Seq<CostLayer>, remaining: int) -> int
    decreases layers.len(),
{
    if layers.len() == 0 || remaining == 0 {
        remaining
    } else {
        let used = min_of(remaining, layers[0].available as int);
        fifo_shortfall(layers.drop_first(), remaining - used)
    }
}

/// Every allocation's cost, and the running total from `acc`, fit in `i64`.
pub open spec fn fifo_costs_fit(layers: Seq<CostLayer>, remaining: int, acc: int) -> bool
    decreases layers.len(),
{
    if layers.len() == 0 || remaining == 0 {
        true
    } else {
        let used = min_of(remaining, layers[0].available as int);
        let product = layers[0].unit_cost * used;
        let total = acc + div_trunc(product, 1000);
        in_i64(product) && in_i64(total) && fifo_costs_fit(
            layers.drop_first(),
            remaining - used,
            total,
        )
    }
}

/// The allocations match the layers they were drawn from and the quantities
/// drawn.
pub open spec fn draws_match(allocs: Seq<Allocation>, layers: Seq<CostLayer>, used: Seq<int>) -> bool {
    &&& allocs.len() == used.len()
    &&& forall|k: int|
        0 <= k < used.len() ==> {
            &&& (#[trigger] allocs[k]).layer_id == layers[k].id
            &&& allocs[k].quantity == used[k]
            &&& allocs[k].unit_cost == layers[k].unit_cost
            &&& allocs[k].cost == milliunit_cost(layers[k].unit_cost as int, used[k])
        }
}

/// The sum of the allocations' costs.
pub open spec fn cost_sum(allocs: Seq<Allocation>) -> int
    decreases allocs.len(),
{
    if allocs.len() == 0 {
        0
    } else {
        cost_sum(allocs.drop_last()) + allocs.last().cost
    }
}

pub open spec fn sum_of(values: Seq<int>) -> int
    decreases values.len(),
{
    if values.len() == 0 {
        0
    } else {
        values[0] + sum_of(values.drop_first())
    }
}

/// The stock the layers hold together.
pub open spec fn available_total(layers: Seq<CostLayer>) -> int
    decreases layers.len(),
{
    if layers.len() == 0 {
        0
    } else {
        layers[0].available + available_total(layers.drop_first())
    }
}

/// Issues `quantity` from the layers first in, first out. Fails with
/// `inventory cost overflow` when a cost leaves `i64`, and with `inventory
/// cost layers are incomplete` when the layers hold less than the quantity.
pub fn allocate_fifo(layers: &Vec<CostLayer>, quantity: i64) -> (r: Result<FifoPlan, DatabaseError>)
    requires
        quantity > 0,
        issuable(layers@),
    ensures
        !fifo_costs_fit(layers@, quantity as int, 0) ==> refused(r, "inventory cost overflow"@),
        fifo_costs_fit(layers@, quantity as int, 0) && fifo_shortfall(layers@, quantity as int)
            != 0 ==> refused(r, "inventory cost layers are incomplete"@),
        fifo_costs_fit(layers@, quantity as int, 0) && fifo_shortfall(layers@, quantity as int)
            == 0 ==> (r matches Ok(plan) && draws_match(
            plan.allocations@,
            layers@,
            fifo_used(layers@, quantity as int),
        ) && plan.total_cost == cost_sum(plan.allocations@)),
{
    let ghost q = quantity as int;
    let mut allocations: Vec<Allocation> = Vec::new();
    let mut remaining = quantity;
    let mut total: i64 = 0;
    let mut i: usize = 0;
    assert(layers@.skip(0) =~= layers@);
    assert(allocations@.map_values(|a: Allocation| a.quantity as int) + fifo_used(layers@, q)
        =~= fifo_used(layers@, q));
    while i < layers.len() && remaining != 0
        invariant
            i <= layers.len(),
            0 <= remaining <= quantity,
            q == quantity as int,
            issuable(layers@),
            allocations.len() == i,
            fifo_used(layers@, q) == allocations@.map_values(|a: Allocation| a.quantity as int)
                + fifo_used(layers@.skip(i as int), remaining as int),
            fifo_shortfall(layers@, q) == fifo_shortfall(layers@.skip(i as int), remaining as int),
            fifo_costs_fit(layers@, q, 0) == fifo_costs_fit(
                layers@.skip(i as int),
                remaining as int,
                total as int,
            ),
            forall|k: int|
                0 <= k < i ==> {
                    &&& (#[trigger] allocations@[k]).layer_id == layers@[k].id
                    &&& allocations@[k].unit_cost == layers@[k].unit_cost
                    &&& allocations@[k].cost == milliunit_cost(
                        layers@[k].unit_cost as int,
                        allocations@[k].quantity as int,
                    )
                },
            total == cost_sum(allocations@),
        decreases layers.len() - i,
    {
        let ghost tail = layers@.skip(i as int);
        assert(tail[0] == layers@[i as int]);
        assert(tail.drop_first() =~= layers@.skip(i + 1));
        let layer = layers[i];
        let used = if remaining <= layer.available {
            remaining
        } else {
            layer.available
        };
        let product = match layer.unit_cost.checked_mul(used) {
            Some(p) => p,
            None => {
                return Err(DatabaseError::Validation(String::from_str("inventory cost overflow")));
            },
        };
        let allocated = product / 1000;
        total = match total.checked_add(allocated) {
            Some(t) => t,
            None => {
                return Err(DatabaseError::Validation(String::from_str("inventory cost overflow")));
            },
        };
        let allocation = Allocation {
            layer_id: layer.id,
            quantity: used,
            unit_cost: layer.unit_cost,
            cost: allocated,
        };
        let ghost before = allocations@;
        let ghost tail_used = fifo_used(tail.drop_first(), (remaining - used) as int);
        allocations.push(allocation);
        assert(allocations@.drop_last() =~= before);
        assert(allocations@.map_values(|a: Allocation| a.quantity as int) =~= before.map_values(
            |a: Allocation| a.quantity as int,
        ).push(used as int));
        assert(before.map_values(|a: Allocation| a.quantity as int) + (seq![used as int]
            + tail_used) =~= before.map_values(|a: Allocation| a.quantity as int).push(
            used as int,
        ) + tail_used);
        remaining = remaining - used;
        i = i + 1;
    }
    assert(fifo_used(layers@.skip(i as int), remaining as int) =~= Seq::<int>::empty());
    assert(allocations@.map_values(|a: Allocation| a.quantity as int) + Seq::<int>::empty()
        =~= allocations@.map_values(|a: Allocation| a.quantity as int));
    if remaining != 0 {
        return Err(
            DatabaseError::Validation(String::from_str("inventory cost layers are incomplete")),
        );
    }
    let plan = FifoPlan { allocations, total_cost: total };
    assert(draws_match(plan.allocations@, layers@, fifo_used(layers@, q))) by {
        assert forall|k: int| 0 <= k < fifo_used(layers@, q).len() implies fifo_used(layers@, q)[k]
            == plan.allocations@[k].quantity as int by {
            assert(fifo_used(layers@, q)[k] == plan.allocations@.map_values(
                |a: Allocation| a.quantity as int,
            )[k]);
        }
    }
    Ok(plan)
}

/// An issue draws exactly what it asks for when the layers hold enough, and
/// everything they hold otherwise; what is missing is the difference.
pub proof fn fifo_draws_what_the_layers_hold(layers: Seq<CostLayer>, quantity: int)
    requires
        issuable(layers),
        quantity >= 0,
    ensures
        available_total(layers) >= 0,
        sum_of(fifo_used(layers, quantity)) == min_of(quantity, available_total(layers)),
        fifo_shortfall(layers, quantity) == quantity - min_of(quantity, available_total(layers)),
    decreases layers.len(),
{
    if layers.len() > 0 {
        let rest = layers.drop_first();
        assert(issuable(rest)) by {
            assert forall|k: int| 0 <= k < rest.len() implies #[trigger] rest[k].available > 0 by {
                assert(rest[k] == layers[k + 1]);
            }
        }
        assert(layers[0].available > 0);
        if quantity == 0 {
            fifo_draws_what_the_layers_hold(rest, 0);
        } else {
            let used = min_of(quantity, layers[0].available as int);
            fifo_draws_what_the_layers_hold(rest, quantity - used);
            assert((seq![used] + fifo_used(rest, quantity - used)).drop_first() =~= fifo_used(
                rest,
                quantity - used,
            ));
        }
    }
}

/// First in, first out: an issue takes something from each layer it draws
/// on, never more than the layer holds, and every layer but the last one it
/// draws on is used up whole.
pub proof fn fifo_uses_earlier_layers_whole(layers: Seq<CostLayer>, quantity: int)
    requires
        issuable(layers),
        quantity >= 0,
    ensures
        fifo_used(layers, quantity).len() <= layers.len(),
        forall|k: int|
            0 <= k < fifo_used(layers, quantity).len() ==> 0 < #[trigger] fifo_used(
                layers,
                quantity,
            )[k] <= layers[k].available,
        forall|k: int|
            0 <= k < fifo_used(layers, quantity).len() - 1 ==> #[trigger] fifo_used(
                layers,
                quantity,
            )[k] == layers[k].available,
    decreases layers.len(),
{
    if layers.len() > 0 && quantity != 0 {
        let rest = layers.drop_first();
        assert(issuable(rest)) by {
            assert forall|k: int| 0 <= k < rest.len() implies #[trigger] rest[k].available > 0 by {
                assert(rest[k] == layers[k + 1]);
            }
        }
        assert(layers[0].available > 0);
        let used = min_of(quantity, layers[0].available as int);
        let tail = fifo_used(rest, quantity - used);
        fifo_uses_earlier_layers_whole(rest, quantity - used);
        let all = fifo_used(layers, quantity);
        assert(all == seq![used] + tail);
        assert forall|k: int| 0 <= k < all.len() implies 0 < #[trigger] all[k]
            <= layers[k].available by {
            if k > 0 {
                assert(all[k] == tail[k - 1]);
                assert(layers[k] == rest[k - 1]);
            }
        }
        assert forall|k: int| 0 <= k < all.len() - 1 implies #[trigger] all[k]
            == layers[k].available by {
            if k > 0 {
                assert(all[k] == tail[k - 1]);
                assert(layers[k] == rest[k - 1]);
            } else {
                assert(tail.len() > 0);
            }
        }
    }
}

/// The stock after a movement of `quantity` into (`increases`) or out of a
/// level of `current`: `None` when the sum leaves `i64` or would be negative.
pub open spec fn stock_after(current: int, quantity: int, increases: bool) -> Option<int> {
    let next = if increases {
        current + quantity
    } else {
        current - quantity
    };
    if in_i64(next) && next >= 0 {
        Some(next)
    } else {
        None
    }
}

/// The stock level after a movement. Fails with `stock quantity overflow`
/// when the sum leaves `i64` and with `insufficient stock` when it would be
/// negative.
pub fn next_stock(current: i64, quantity: i64, increases: bool) -> (r: Result<i64, DatabaseError>)
    requires
        quantity > 0,
    ensures
        stock_after(current as int, quantity as int, increases) matches Some(n) ==> r == Ok::<
            i64,
            DatabaseError,
        >(n as i64),
        !in_i64(
            if increases {
                current + quantity
            } else {
                current - quantity
            },
        ) ==> refused(r, "stock quantity overflow"@),
        in_i64(
            if increases {
                current + quantity
            } else {
                current - quantity
            },
        ) && stock_after(current as int, quantity as int, increases) is None ==> refused(
            r,
            "insufficient stock"@,
        ),
        r matches Ok(n) ==> n >= 0,
{
    let signed = if increases {
        quantity
    } else {
        -quantity
    };
    let next = match current.checked_add(signed) {
        Some(n) => n,
        None => {
            return Err(DatabaseError::Validation(String::from_str("stock quantity overflow")));
        },
    };
    if next < 0 {
        return Err(DatabaseError::Validation(String::from_str("insufficient stock")));
    }
    Ok(next)
}

/// Receiving a quantity and then issuing the same quantity leaves the stock
/// as it was.
pub proof fn receipt_then_issue_restores_stock(current: int, quantity: int)
    requires
        0 <= current,
        quantity > 0,
        in_i64(current + quantity),
    ensures
        stock_after(current, quantity, true) == Some(current + quantity),
        stock_after(current + quantity, quantity, false) == Some(current),
{
}

/// The movement that brings a stock level of `current` to `target`: its
/// quantity and whether it increases the stock; `None` when they are equal.
pub open spec fn adjustment_for(current: int, target: int) -> Option<(int, bool)> {
    if current == target {
        None
    } else if target > current {
        Some((target - current, true))
    } else {
        Some((current - target, false))
    }
}

pub fn stock_adjustment(current: i64, target: i64) -> (r: Option<(i64, bool)>)
    requires
        current >= 0,
        target >= 0,
    ensures
        adjustment_for(current as int, target as int) matches Some((q, up)) ==> r == Some(
            (q as i64, up),
        ),
        adjustment_for(current as int, target as int) is None ==> r is None,
{
    if current == target {
        None
    } else if target > current {
        Some((target - current, true))
    } else {
        Some((current - target, false))
    }
}

/// The movement chosen to set a stock level reaches exactly that level.
pub proof fn adjustment_reaches_target(current: int, target: int)
    requires
        0 <= current <= i64::MAX,
        0 <= target <= i64::MAX,
        current != target,
    ensures
        adjustment_for(current, target) matches Some((q, up)) && q > 0 && stock_after(
            current,
            q,
            up,
        ) == Some(target),
{
}

/// The acquired quantity of a revised layer: unchanged when the layer is
/// emptied, else what was consumed of it plus the new remaining quantity.
pub open spec fn revised_acquired(acquired: int, previous: int, quantity: int) -> Option<int> {
    if quantity == 0 {
        Some(acquired)
    } else if in_i64(acquired - previous) && in_i64(acquired - previous + quantity) {
        Some(acquired - previous + quantity)
    } else {
        None
    }
}

/// Fails with `stock quantity overflow` when the value leaves `i64`.
pub fn revised_acquired_quantity(acquired: i64, previous: i64, quantity: i64) -> (r: Result<
    i64,
    DatabaseError,
>)
    ensures
        revised_acquired(acquired as int, previous as int, quantity as int) matches Some(v) ==> r
            == Ok::<i64, DatabaseError>(v as i64),
        revised_acquired(acquired as int, previous as int, quantity as int) is None ==> refused(
            r,
            "stock quantity overflow"@,
        ),
{
    if quantity == 0 {
        return Ok(acquired);
    }
    let consumed = match acquired.checked_sub(previous) {
        Some(c) => c,
        None => {
            return Err(DatabaseError::Validation(String::from_str("stock quantity overflow")));
        },
    };
    match consumed.checked_add(quantity) {
        Some(v) => Ok(v),
        None => Err(DatabaseError::Validation(String::from_str("stock quantity overflow"))),
    }
}

/// The stock level of a layer's warehouse when the layer's remaining
/// quantity changes from `previous` to `quantity` there. Fails with `stock
/// quantity overflow` when the sum leaves `i64` and with `stock cannot be
/// negative` when it would be negative.
pub fn restocked_level(current: i64, previous: i64, quantity: i64) -> (r: Result<i64, DatabaseError>)
    requires
        previous >= 0,
        quantity >= 0,
    ensures
        !in_i64(current + quantity - previous) ==> refused(r, "stock quantity overflow"@),
        in_i64(current + quantity - previous) && current + quantity - previous < 0 ==> refused(
            r,
            "stock cannot be negative"@,
        ),
        in_i64(current + quantity - previous) && current + quantity - previous >= 0 ==> r == Ok::<
            i64,
            DatabaseError,
        >((current + quantity - previous) as i64),
{
    let delta = quantity - previous;
    let next = match current.checked_add(delta) {
        Some(n) => n,
        None => {
            return Err(DatabaseError::Validation(String::from_str("stock quantity overflow")));
        },
    };
    if next < 0 {
        return Err(DatabaseError::Validation(String::from_str("stock cannot be negative")));
    }
    Ok(next)
}

/// The stock level a layer leaves behind when it moves to another warehouse.
/// Fails with `stock cannot be negative` when it would be negative.
pub fn level_after_layer_leaves(current: i64, previous: i64) -> (r: Result<i64, DatabaseError>)
    requires
        current >= 0,
        previous >= 0,
    ensures
        current - previous < 0 ==> refused(r, "stock cannot be negative"@),
        current - previous >= 0 ==> r == Ok::<i64, DatabaseError>((current - previous) as i64),
{
    let next = current - previous;
    if next < 0 {
        return Err(DatabaseError::Validation(String::from_str("stock cannot be negative")));
    }
    Ok(next)
}

/// The cost of the stock a layer carries to another warehouse. Fails with
/// `inventory cost overflow` when the product leaves `i64`.
pub fn transfer_cost(unit_cost: i64, quantity: i64) -> (r: Result<i64, DatabaseError>)
    ensures
        in_i64(unit_cost * quantity) ==> r == Ok::<i64, DatabaseError>(
            milliunit_cost(unit_cost as int, quantity as int) as i64,
        ),
        !in_i64(unit_cost * quantity) ==> refused(r, "inventory cost overflow"@),
{
    match unit_cost.checked_mul(quantity) {
        Some(p) => Ok(p / 1000),
        None => Err(DatabaseError::Validation(String::from_str("inventory cost overflow"))),
    }
}

/// The recorded total cost of a receipt: `None` when there is no unit cost or
/// the product leaves `i64`.
pub open spec fn inbound_total_of(unit_cost: Option<i64>, quantity: int) -> Option<int> {
    match unit_cost {
        Some(c) => if in_i64(c * quantity) {
            Some(milliunit_cost(c as int, quantity))
        } else {
            None
        },
        None => None,
    }
}

pub fn inbound_total(unit_cost: Option<i64>, quantity: i64) -> (r: Option<i64>)
    ensures
        inbound_total_of(unit_cost, quantity as int) matches Some(v) ==> r == Some(v as i64),
        inbound_total_of(unit_cost, quantity as int) is None ==> r is None,
{
    match unit_cost {
        Some(c) => match c.checked_mul(quantity) {
            Some(p) => Some(p / 1000),
            None => None,
        },
        None => None,
    }
}

/// The kind recorded for a movement.
pub fn movement_kind(increases_stock: bool) -> (r: &'static str)
    ensures
        increases_stock ==> r@ == "purchase"@,
        !increases_stock ==> r@ == "sale"@,
{
    if increases_stock {
        "purchase"
    } else {
        "sale"
    }
}


/// A revised layer keeps what was consumed from it: when the new remaining
/// quantity is not zero, the acquired quantity less the remaining quantity
/// is the same after the revision as before, and the revision is refused
/// only when that acquired quantity leaves `i64`; an emptied layer keeps
/// its acquired quantity.
pub proof fn revised_layer_keeps_consumed(acquired: int, previous: int, quantity: int)
    requires
        in_i64(acquired),
        in_i64(previous),
        in_i64(quantity),
    ensures
        quantity != 0 ==> (revised_acquired(acquired, previous, quantity) matches Some(v) ==> v
            - quantity == acquired - previous),
        quantity != 0 && in_i64(acquired - previous) && in_i64(acquired - previous + quantity)
            ==> revised_acquired(acquired, previous, quantity) is Some,
        quantity == 0 ==> revised_acquired(acquired, previous, quantity) == Some(acquired),
{
}

} // verus!
