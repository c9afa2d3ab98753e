use ledger::account::{Account, Deposit, DisputeState, InRow, TxType};

fn event(typ: TxType, tx: u32, amount: Option<i64>) -> InRow {
    InRow { typ, client: 1, tx, amount }
}

fn funded(amount: i64) -> Account {
    let mut a = Account::default();
    a.apply(&event(TxType::Deposit, 1, Some(amount)));
    a
}

#[test]
fn default_account_is_empty() {
    let a = Account::default();
    assert_eq!(a.available, 0);
    assert_eq!(a.held, 0);
    assert!(!a.locked);
    assert!(a.deposits.is_empty());
    assert_eq!(a.total(), 0);
}

#[test]
fn deposit_credits_and_records() {
    let a = funded(10_000);
    assert_eq!(a.available, 10_000);
    assert_eq!(a.held, 0);
    assert_eq!(
        a.deposit(1),
        Some(Deposit { dispute_state: DisputeState::NotInitiated, amount: 10_000 })
    );
    assert_eq!(a.deposit(2), None);
}

#[test]
fn deposit_without_amount_is_ignored() {
    let mut a = funded(10_000);
    a.apply(&event(TxType::Deposit, 2, None));
    assert_eq!(a.available, 10_000);
    assert_eq!(a.deposit(2), None);
}

#[test]
fn duplicate_deposit_overwrites_the_record() {
    let mut a = funded(10_000);
    a.apply(&event(TxType::Dispute, 1, None));
    a.apply(&event(TxType::Deposit, 1, Some(30_000)));
    assert_eq!(a.available, 30_000);
    assert_eq!(a.held, 10_000);
    assert_eq!(
        a.deposit(1),
        Some(Deposit { dispute_state: DisputeState::NotInitiated, amount: 30_000 })
    );
}

#[test]
fn withdrawal_debits() {
    let mut a = funded(10_000);
    a.apply(&event(TxType::Withdrawal, 2, Some(4_000)));
    assert_eq!(a.available, 6_000);
    a.apply(&event(TxType::Withdrawal, 3, Some(6_000)));
    assert_eq!(a.available, 0);
}

#[test]
fn withdrawal_beyond_funds_is_ignored() {
    let mut a = funded(10_000);
    a.apply(&event(TxType::Withdrawal, 2, Some(10_001)));
    assert_eq!(a.available, 10_000);
    assert_eq!(a.held, 0);
}

#[test]
fn withdrawal_without_amount_is_ignored() {
    let mut a = funded(10_000);
    a.apply(&event(TxType::Withdrawal, 2, None));
    assert_eq!(a.available, 10_000);
}

#[test]
fn withdrawal_is_not_recorded_as_a_deposit() {
    let mut a = funded(10_000);
    a.apply(&event(TxType::Withdrawal, 2, Some(1_000)));
    a.apply(&event(TxType::Dispute, 2, None));
    assert_eq!(a.available, 9_000);
    assert_eq!(a.held, 0);
    assert_eq!(a.deposit(2), None);
}

#[test]
fn dispute_holds_the_deposit() {
    let mut a = funded(10_000);
    a.apply(&event(TxType::Dispute, 1, Some(77)));
    assert_eq!(a.available, 0);
    assert_eq!(a.held, 10_000);
    assert_eq!(a.total(), 10_000);
    assert_eq!(a.deposit(1).unwrap().dispute_state, DisputeState::Initiated);
    assert!(!a.locked);
}

#[test]
fn dispute_may_drive_available_negative() {
    let mut a = funded(10_000);
    a.apply(&event(TxType::Withdrawal, 2, Some(7_000)));
    a.apply(&event(TxType::Dispute, 1, None));
    assert_eq!(a.available, -7_000);
    assert_eq!(a.held, 10_000);
}

#[test]
fn second_dispute_is_ignored() {
    let mut a = funded(10_000);
    a.apply(&event(TxType::Dispute, 1, None));
    a.apply(&event(TxType::Dispute, 1, None));
    assert_eq!(a.available, 0);
    assert_eq!(a.held, 10_000);
}

#[test]
fn dispute_of_unknown_deposit_is_ignored() {
    let mut a = funded(10_000);
    a.apply(&event(TxType::Dispute, 9, None));
    assert_eq!(a.available, 10_000);
    assert_eq!(a.held, 0);
    assert_eq!(a.deposit(1).unwrap().dispute_state, DisputeState::NotInitiated);
    assert_eq!(a.deposits.len(), 1);
}

#[test]
fn resolve_after_dispute_restores_balances() {
    let mut a = funded(10_000);
    a.apply(&event(TxType::Withdrawal, 2, Some(2_500)));
    a.apply(&event(TxType::Dispute, 1, None));
    a.apply(&event(TxType::Resolve, 1, None));
    assert_eq!(a.available, 7_500);
    assert_eq!(a.held, 0);
    assert!(!a.locked);
    assert_eq!(a.deposit(1).unwrap().dispute_state, DisputeState::NotInitiated);
}

#[test]
fn resolve_allows_another_dispute() {
    let mut a = funded(10_000);
    a.apply(&event(TxType::Dispute, 1, None));
    a.apply(&event(TxType::Resolve, 1, None));
    a.apply(&event(TxType::Dispute, 1, None));
    assert_eq!(a.available, 0);
    assert_eq!(a.held, 10_000);
    assert_eq!(a.deposit(1).unwrap().dispute_state, DisputeState::Initiated);
}

#[test]
fn resolve_without_dispute_is_ignored() {
    let mut a = funded(10_000);
    a.apply(&event(TxType::Resolve, 1, None));
    a.apply(&event(TxType::Resolve, 5, None));
    assert_eq!(a.available, 10_000);
    assert_eq!(a.held, 0);
}

#[test]
fn chargeback_removes_held_funds_and_locks() {
    let mut a = funded(10_000);
    a.apply(&event(TxType::Deposit, 2, Some(5_000)));
    a.apply(&event(TxType::Dispute, 1, None));
    a.apply(&event(TxType::Chargeback, 1, None));
    assert_eq!(a.available, 5_000);
    assert_eq!(a.held, 0);
    assert_eq!(a.total(), 5_000);
    assert!(a.locked);
    assert_eq!(a.deposit(1).unwrap().dispute_state, DisputeState::ChargedBack);
    assert_eq!(a.deposit(1).unwrap().amount, 10_000);
}

#[test]
fn chargeback_without_dispute_is_ignored() {
    let mut a = funded(10_000);
    a.apply(&event(TxType::Chargeback, 1, None));
    a.apply(&event(TxType::Chargeback, 8, None));
    assert_eq!(a.available, 10_000);
    assert_eq!(a.held, 0);
    assert!(!a.locked);
    assert_eq!(a.deposit(1).unwrap().dispute_state, DisputeState::NotInitiated);
}

#[test]
fn charged_back_deposit_is_final() {
    let mut a = funded(10_000);
    a.apply(&event(TxType::Dispute, 1, None));
    a.apply(&event(TxType::Chargeback, 1, None));
    a.apply(&event(TxType::Dispute, 1, None));
    a.apply(&event(TxType::Resolve, 1, None));
    a.apply(&event(TxType::Chargeback, 1, None));
    assert_eq!(a.available, 0);
    assert_eq!(a.held, 0);
    assert_eq!(a.deposit(1).unwrap().dispute_state, DisputeState::ChargedBack);
}

#[test]
fn locked_account_ignores_withdrawals() {
    let mut a = funded(10_000);
    a.apply(&event(TxType::Deposit, 2, Some(50_000)));
    a.apply(&event(TxType::Dispute, 1, None));
    a.apply(&event(TxType::Chargeback, 1, None));
    assert!(a.locked);
    a.apply(&event(TxType::Withdrawal, 3, Some(1)));
    a.apply(&event(TxType::Withdrawal, 4, Some(50_000)));
    assert_eq!(a.available, 50_000);
}

#[test]
fn locked_account_takes_deposits_and_disputes() {
    let mut a = funded(10_000);
    a.apply(&event(TxType::Dispute, 1, None));
    a.apply(&event(TxType::Chargeback, 1, None));
    a.apply(&event(TxType::Deposit, 2, Some(30_000)));
    assert_eq!(a.available, 30_000);
    a.apply(&event(TxType::Dispute, 2, None));
    assert_eq!(a.available, 0);
    assert_eq!(a.held, 30_000);
    assert!(a.locked);
}

#[test]
fn total_is_the_sum_of_applied_effects() {
    let mut a = Account::default();
    a.apply(&event(TxType::Deposit, 1, Some(10_000)));
    a.apply(&event(TxType::Deposit, 2, Some(25_000)));
    a.apply(&event(TxType::Withdrawal, 3, Some(5_000)));
    a.apply(&event(TxType::Withdrawal, 4, Some(100_000)));
    a.apply(&event(TxType::Dispute, 1, None));
    assert_eq!(a.total(), 10_000 + 25_000 - 5_000);
    a.apply(&event(TxType::Chargeback, 1, None));
    assert_eq!(a.total(), 10_000 + 25_000 - 5_000 - 10_000);
    assert!(a.total() <= 35_000);
}

#[test]
fn total_may_exceed_one_balance() {
    let mut a = Account::default();
    a.apply(&event(TxType::Deposit, 1, Some(i64::MAX)));
    a.apply(&event(TxType::Dispute, 1, None));
    a.apply(&event(TxType::Deposit, 2, Some(i64::MAX)));
    assert_eq!(a.available, i64::MAX);
    assert_eq!(a.held, i64::MAX);
    assert_eq!(a.total(), 2 * (i64::MAX as i128));
}

#[test]
fn deposit_beyond_range_is_refused() {
    let mut a = funded(i64::MAX);
    assert!(!a.try_apply(&event(TxType::Deposit, 2, Some(1))));
    assert_eq!(a.available, i64::MAX);
    assert_eq!(a.deposit(2), None);
    assert!(a.try_apply(&event(TxType::Deposit, 2, Some(0))));
    assert_eq!(a.deposit(2).unwrap().amount, 0);
}

#[test]
fn negative_withdrawal_beyond_range_is_refused() {
    let mut a = funded(i64::MAX);
    assert!(!a.try_apply(&event(TxType::Withdrawal, 2, Some(-1))));
    assert_eq!(a.available, i64::MAX);
}

#[test]
fn dispute_beyond_range_is_refused() {
    let mut a = funded(i64::MAX);
    assert!(a.try_apply(&event(TxType::Dispute, 1, None)));
    assert!(a.try_apply(&event(TxType::Deposit, 2, Some(1))));
    assert_eq!(a.available, 1);
    assert_eq!(a.held, i64::MAX);
    assert!(!a.try_apply(&event(TxType::Dispute, 2, None)));
    assert_eq!(a.available, 1);
    assert_eq!(a.held, i64::MAX);
    assert_eq!(a.deposit(2).unwrap().dispute_state, DisputeState::NotInitiated);
    assert!(!a.try_apply(&event(TxType::Resolve, 1, None)));
    assert_eq!(a.available, 1);
    assert_eq!(a.held, i64::MAX);
    assert_eq!(a.deposit(1).unwrap().dispute_state, DisputeState::Initiated);
    assert!(a.try_apply(&event(TxType::Withdrawal, 3, Some(1))));
    assert!(a.try_apply(&event(TxType::Resolve, 1, None)));
    assert_eq!(a.available, i64::MAX);
    assert_eq!(a.held, 0);
}

#[test]
fn ignored_events_are_always_accepted() {
    let mut a = funded(i64::MAX);
    assert!(a.try_apply(&event(TxType::Resolve, 1, None)));
    assert!(a.try_apply(&event(TxType::Chargeback, 1, None)));
    assert!(a.try_apply(&event(TxType::Withdrawal, 2, None)));
    assert_eq!(a.available, i64::MAX);
}
