use biztrace::database::{
    check_settlement, status_change, valid_iso_date, validate_transaction_accounts, Database,
    DatabaseError, FundAccountDraft, FundCheckDraft, FundTransactionDraft,
};

fn refusal<T: std::fmt::Debug>(result: Result<T, DatabaseError>) -> String {
    match result {
        Err(DatabaseError::Validation(message)) => message,
        other => panic!("expected a validation error, got {other:?}"),
    }
}

fn account(kind: &str, name: &str, number: Option<&str>, opening: i64) -> FundAccountDraft {
    FundAccountDraft {
        id: None,
        kind: kind.into(),
        name: name.into(),
        account_number: number.map(str::to_owned),
        opening_balance_minor: opening,
    }
}

fn transaction(kind: &str, account_id: i64, target: Option<i64>, amount: i64) -> FundTransactionDraft {
    FundTransactionDraft {
        account_id,
        transfer_account_id: target,
        kind: kind.into(),
        amount_minor: amount,
        category: "general".into(),
        occurred_on: "2024-03-20".into(),
        reference: None,
        description: None,
    }
}

fn check(schedule_type: &str, account_id: i64, number: &str) -> FundCheckDraft {
    FundCheckDraft {
        schedule_type: schedule_type.into(),
        direction: "incoming".into(),
        account_id,
        party_name: "Acme".into(),
        check_number: number.into(),
        bank_name: None,
        amount_minor: 5_000_000,
        due_on: "2024-04-01".into(),
        note: None,
    }
}

#[test]
fn iso_dates_must_be_real_calendar_days() {
    assert!(valid_iso_date("2024-02-29"));
    assert!(!valid_iso_date("2025-02-29"));
    assert!(!valid_iso_date("2024-2-29"));
    assert!(!valid_iso_date("2024-13-01"));
    assert!(!valid_iso_date("2024/03/01"));
    assert!(!valid_iso_date("2024-03-01-01"));
    assert!(!valid_iso_date("۲۰۲۴-03-01"));
}

#[test]
fn transaction_accounts_must_fit_the_kind() {
    assert!(validate_transaction_accounts(&transaction("income", 1, None, 10)).is_ok());
    assert!(validate_transaction_accounts(&transaction("transfer", 1, Some(2), 10)).is_ok());
    assert_eq!(
        refusal(validate_transaction_accounts(&transaction("transfer", 1, Some(1), 10))),
        "source and destination accounts must be different"
    );
    assert_eq!(
        refusal(validate_transaction_accounts(&transaction("transfer", 1, None, 10))),
        "source and destination accounts must be different"
    );
    assert_eq!(
        refusal(validate_transaction_accounts(&transaction("expense", 1, Some(2), 10))),
        "invalid transaction kind"
    );
    assert_eq!(
        refusal(validate_transaction_accounts(&transaction("gift", 1, None, 10))),
        "invalid transaction kind"
    );
}

#[test]
fn only_upcoming_items_change_status() {
    assert_eq!(status_change("upcoming", "cleared").unwrap(), true);
    assert_eq!(status_change("upcoming", "returned").unwrap(), false);
    assert_eq!(refusal(status_change("cleared", "returned")), "check is already finalized");
    assert_eq!(refusal(status_change("upcoming", "lost")), "invalid status");
}

#[test]
fn cleared_items_are_settled_by_type_and_direction() {
    let settlement = check_settlement(7, "check", "incoming", "Acme");
    assert_eq!(settlement.kind, "income");
    assert_eq!(settlement.category, "چک");
    assert_eq!(settlement.reference, "CHECK-7");
    assert_eq!(settlement.description, "تسویه چک Acme");
    let settlement = check_settlement(8, "installment", "outgoing", "Bank");
    assert_eq!(settlement.kind, "expense");
    assert_eq!(settlement.category, "قسط");
    let settlement = check_settlement(9, "scheduled", "outgoing", "Rent");
    assert_eq!(settlement.category, "پرداخت زمان‌بندی‌شده");
}

#[test]
fn account_balances_follow_their_transactions() {
    let database = Database::open_in_memory().unwrap();
    let cash = database.save_fund_account(&account("cash", "Cash box", None, 1_000)).unwrap();
    let bank = database
        .save_fund_account(&account("bank", "Bank", Some("IR00"), 10_000))
        .unwrap();
    database.save_fund_transaction(&transaction("income", cash, None, 500)).unwrap();
    database.save_fund_transaction(&transaction("expense", bank, None, 2_000)).unwrap();
    database.save_fund_transaction(&transaction("transfer", bank, Some(cash), 3_000)).unwrap();
    let accounts = database.fund_accounts().unwrap();
    let balance = |id: i64| accounts.iter().find(|a| a.id == id).unwrap().balance_minor;
    assert_eq!(balance(cash), 4_500);
    assert_eq!(balance(bank), 5_000);
    assert_eq!(database.fund_transactions("").unwrap().len(), 3);
    assert_eq!(refusal(database.remove_fund_account(cash)), "account is in use");
}

#[test]
fn account_drafts_are_validated() {
    let database = Database::open_in_memory().unwrap();
    assert_eq!(
        refusal(database.save_fund_account(&account("cash", " ", None, 0))),
        "invalid account"
    );
    assert_eq!(
        refusal(database.save_fund_account(&account("bank", "B", None, -1))),
        "invalid account"
    );
    assert_eq!(
        refusal(database.save_fund_account(&account("cash", "C", Some("1"), 0))),
        "cash account cannot have an account number"
    );
    assert_eq!(
        refusal(database.save_fund_account(&account("wallet", "W", None, 0))),
        "invalid account kind"
    );
    let mut bad_date = transaction("income", 1, None, 10);
    bad_date.occurred_on = "2024-02-30".into();
    assert_eq!(refusal(database.save_fund_transaction(&bad_date)), "invalid transaction");
    assert_eq!(
        refusal(database.save_fund_transaction(&transaction("income", 1, None, 0))),
        "invalid transaction"
    );
}

#[test]
fn clearing_a_check_records_its_settlement_once() {
    let database = Database::open_in_memory().unwrap();
    let bank = database
        .save_fund_account(&account("bank", "Bank", Some("IR00"), 0))
        .unwrap();
    let id = database.save_fund_check(&check("check", bank, "CHK-1")).unwrap();
    database.set_fund_check_status(id, "cleared").unwrap();
    let transactions = database.fund_transactions("CHECK-").unwrap();
    assert_eq!(transactions.len(), 1);
    assert_eq!(transactions[0].kind, "income");
    assert_eq!(transactions[0].amount_minor, 5_000_000);
    assert_eq!(transactions[0].occurred_on, "2024-04-01");
    assert_eq!(
        refusal(database.set_fund_check_status(id, "returned")),
        "check is already finalized"
    );
    let mut edited = check("check", bank, "CHK-1");
    edited.amount_minor = 6_000_000;
    database.update_fund_check(id, &edited).unwrap();
    let transactions = database.fund_transactions("CHECK-").unwrap();
    assert_eq!(transactions[0].amount_minor, 6_000_000);
    database.remove_fund_check(id).unwrap();
    assert!(database.fund_transactions("CHECK-").unwrap().is_empty());
    assert!(database.fund_checks("").unwrap().is_empty());
}

#[test]
fn checks_need_a_number_and_a_non_cash_account() {
    let database = Database::open_in_memory().unwrap();
    let cash = database.save_fund_account(&account("cash", "Cash", None, 0)).unwrap();
    assert_eq!(
        refusal(database.save_fund_check(&check("check", cash, "CHK-2"))),
        "checks require a bank or card account"
    );
    assert_eq!(refusal(database.save_fund_check(&check("check", cash, " "))), "invalid check");
    assert_eq!(
        refusal(database.update_fund_check(1, &check("memo", cash, "1"))),
        "invalid scheduled item"
    );
    let id = database.save_fund_check(&check("installment", cash, "")).unwrap();
    let listed = database.fund_checks("").unwrap();
    assert_eq!(listed.len(), 1);
    assert_eq!(listed[0].id, id);
    assert_eq!(listed[0].check_number, "");
    assert_eq!(listed[0].status, "upcoming");
    assert_eq!(refusal(database.set_fund_check_status(id, "lost")), "invalid status");
}

#[test]
fn transactions_can_be_rewritten_and_removed() {
    let database = Database::open_in_memory().unwrap();
    let cash = database.save_fund_account(&account("cash", "Cash", None, 0)).unwrap();
    let id = database.save_fund_transaction(&transaction("income", cash, None, 700)).unwrap();
    let mut edited = transaction("expense", cash, None, 200);
    edited.reference = Some("R-1".into());
    database.update_fund_transaction(id, &edited).unwrap();
    let listed = database.fund_transactions("R-1").unwrap();
    assert_eq!(listed.len(), 1);
    assert_eq!(listed[0].kind, "expense");
    assert_eq!(listed[0].amount_minor, 200);
    let balance = database.fund_accounts().unwrap()[0].balance_minor;
    assert_eq!(balance, -200);
    assert_eq!(
        refusal(database.update_fund_transaction(id, &transaction("income", cash, None, -1))),
        "invalid transaction"
    );
    database.remove_fund_transaction(id).unwrap();
    assert!(database.fund_transactions("").unwrap().is_empty());
    assert_eq!(database.fund_accounts().unwrap()[0].balance_minor, 0);
}
