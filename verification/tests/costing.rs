use biztrace::database::{
    allocate_fifo, inbound_total, next_stock, stock_adjustment, transfer_cost, Allocation,
    CostLayer, DatabaseError,
};

fn layer(id: i64, available: i64, unit_cost: i64) -> CostLayer {
    CostLayer { id, available, unit_cost }
}

fn refusal(result: Result<impl std::fmt::Debug, DatabaseError>) -> String {
    match result {
        Err(DatabaseError::Validation(message)) => message,
        other => panic!("expected a validation error, got {other:?}"),
    }
}

#[test]
fn fifo_draws_oldest_layers_first() {
    let layers = vec![layer(1, 100_000, 40_000_000), layer(2, 100_000, 50_000_000)];
    let plan = allocate_fifo(&layers, 150_000).unwrap();
    assert_eq!(
        plan.allocations,
        vec![
            Allocation { layer_id: 1, quantity: 100_000, unit_cost: 40_000_000, cost: 4_000_000_000 },
            Allocation { layer_id: 2, quantity: 50_000, unit_cost: 50_000_000, cost: 2_500_000_000 },
        ]
    );
    assert_eq!(plan.total_cost, 6_500_000_000);
}

#[test]
fn fifo_stops_once_the_quantity_is_drawn() {
    let layers = vec![layer(7, 5_000, 1_000), layer(8, 5_000, 2_000), layer(9, 5_000, 3_000)];
    let plan = allocate_fifo(&layers, 5_000).unwrap();
    assert_eq!(plan.allocations.len(), 1);
    assert_eq!(plan.allocations[0].layer_id, 7);
    assert_eq!(plan.total_cost, 5_000);
}

#[test]
fn fifo_refuses_more_than_the_layers_hold() {
    let layers = vec![layer(1, 3_000, 40_000_000)];
    assert_eq!(
        refusal(allocate_fifo(&layers, 4_000)),
        "inventory cost layers are incomplete"
    );
    assert_eq!(
        refusal(allocate_fifo(&Vec::new(), 1)),
        "inventory cost layers are incomplete"
    );
}

#[test]
fn fifo_refuses_costs_that_leave_i64() {
    let layers = vec![layer(1, 10, i64::MAX)];
    assert_eq!(refusal(allocate_fifo(&layers, 10)), "inventory cost overflow");
}

#[test]
fn fractional_costs_round_toward_zero() {
    let plan = allocate_fifo(&vec![layer(1, 1_500, 40_000_000)], 125).unwrap();
    assert_eq!(plan.total_cost, 5_000_000);
    let plan = allocate_fifo(&vec![layer(1, 10, 333)], 1).unwrap();
    assert_eq!(plan.total_cost, 0);
}

#[test]
fn stock_never_goes_negative() {
    assert_eq!(next_stock(5_000, 2_000, false).unwrap(), 3_000);
    assert_eq!(refusal(next_stock(3_000, 4_000, false)), "insufficient stock");
    assert_eq!(refusal(next_stock(i64::MAX, 1, true)), "stock quantity overflow");
}

#[test]
fn receipt_then_issue_restores_the_level() {
    let up = next_stock(1_234, 5_000, true).unwrap();
    assert_eq!(next_stock(up, 5_000, false).unwrap(), 1_234);
}

#[test]
fn setting_a_stock_level_moves_the_difference() {
    assert_eq!(stock_adjustment(3_000, 5_000), Some((2_000, true)));
    assert_eq!(stock_adjustment(5_000, 3_000), Some((2_000, false)));
    assert_eq!(stock_adjustment(5_000, 5_000), None);
    let (quantity, up) = stock_adjustment(7_000, 2_500).unwrap();
    assert_eq!(next_stock(7_000, quantity, up).unwrap(), 2_500);
}

#[test]
fn receipt_totals_and_transfer_costs() {
    assert_eq!(inbound_total(Some(40_000_000), 1_500), Some(60_000_000));
    assert_eq!(inbound_total(None, 1_500), None);
    assert_eq!(inbound_total(Some(i64::MAX), 2), None);
    assert_eq!(transfer_cost(42_000_000, 90_000).unwrap(), 3_780_000_000);
    assert_eq!(refusal(transfer_cost(i64::MAX, 2)), "inventory cost overflow");
}
