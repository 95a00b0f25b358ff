use fdp::counter::{counter_account, counter_accounts, unserved_currency, CounterAccounts};
use fdp::decimal::{Decimal, MAX_MANTISSA};
use fdp::domain::{Currency, EntryType};
use fdp::error::{DbError, DbErrorKind, DomainError};
use fdp::events::EventEnvelope;
use fdp::fraud::FraudChecker;
use fdp::ident::Uuid;
use fdp::movement::{
    process_credit, process_debit, process_transfer, write_ledger_entry, AccountRow, Movement,
    Write,
};
use fdp::processor::{
    derive_advisory_lock_key, process_transaction, Action, Event, ProcessError, Processing,
    TransactionRow,
};

const TRANSACTION: Uuid = Uuid { value: 0x0001_0203_0405_0607_0809_0a0b_0c0d_0e0f };
const CORRELATION: Uuid = Uuid { value: 99 };
const LOW: Uuid = Uuid { value: 1 };
const HIGH: Uuid = Uuid { value: 2 };
const COUNTER: Uuid = Uuid { value: 3 };
const RESERVE: Uuid = Uuid { value: 4 };

fn counters() -> CounterAccounts {
    CounterAccounts::new(COUNTER, RESERVE).unwrap()
}

fn row(kind: &str, source: Option<Uuid>, dest: Option<Uuid>) -> TransactionRow {
    TransactionRow {
        transaction_type: Some(kind.to_string()),
        status: Some("PENDING".to_string()),
        amount: Decimal::new(2500, 2),
        source_account_id: source,
        dest_account_id: dest,
        version: 4,
        compliance_checked: Some(true),
        counters: counters(),
    }
}

fn account(cents: i64) -> AccountRow {
    AccountRow { balance: Decimal::new(cents, 2), version: 11, is_active: true }
}

fn failure(kind: DbErrorKind) -> DbError {
    DbError { kind, message: "broken".to_string() }
}

fn start() -> (Processing, Action) {
    let envelope = EventEnvelope::new("Transaction", TRANSACTION, 1, "TransactionSubmitted", CORRELATION, ());
    process_transaction(&envelope, "worker-0")
}

/// Feeds events to a run and gives what it asks for last.
fn drive(events: Vec<Event>) -> (Processing, Action) {
    let mut step = start();
    for event in events {
        step = step.0.try_step(event).unwrap();
    }
    step
}

fn up_to_loading() -> Vec<Event> {
    vec![Event::Done, Event::Lock(Some(true))]
}

fn up_to_claim(row: TransactionRow) -> Vec<Event> {
    let mut events = up_to_loading();
    events.push(Event::Transaction(Some(row)));
    events
}

fn up_to_execution(row: TransactionRow) -> Vec<Event> {
    let mut events = up_to_claim(row);
    events.push(Event::RowsAffected(1));
    events
}

fn returned(action: Action) -> Result<(), ProcessError> {
    match action {
        Action::Return(result) => result,
        other => panic!("{:?}", other),
    }
}

#[test]
fn lock_keys_combine_both_halves() {
    assert_eq!(derive_advisory_lock_key(TRANSACTION), 578721382704613384);
    let negative = Uuid { value: 0x8000_0000_0000_0000_0000_0000_0000_0001 };
    assert_eq!(derive_advisory_lock_key(negative), -9223372036854775807);
    assert_eq!(derive_advisory_lock_key(Uuid::nil()), 0);
}

#[test]
fn a_transfer_is_settled_step_by_step() {
    let (p, action) = start();
    assert!(matches!(action, Action::Begin));
    let (p, action) = p.try_step(Event::Done).unwrap();
    assert!(matches!(action, Action::TryLock(578721382704613384)));
    let (p, action) = p.try_step(Event::Lock(Some(true))).unwrap();
    assert!(matches!(action, Action::LoadTransaction(TRANSACTION)));
    // The destination has the smaller identifier and is locked first.
    let (p, action) =
        p.try_step(Event::Transaction(Some(row("TRANSFER", Some(HIGH), Some(LOW))))).unwrap();
    match &action {
        Action::MarkProcessing { id, worker_id, version } => {
            assert_eq!(*id, TRANSACTION);
            assert_eq!(worker_id, "worker-0");
            assert_eq!(*version, 4);
        }
        other => panic!("{:?}", other),
    }
    let (p, action) = p.try_step(Event::RowsAffected(1)).unwrap();
    assert!(matches!(action, Action::LockAccount(LOW)));
    let (p, action) = p.try_step(Event::Account(account(100))).unwrap();
    assert!(matches!(action, Action::LockAccount(HIGH)));
    let (p, action) = p.try_step(Event::Account(account(10_000))).unwrap();
    match action {
        Action::UpdateBalance { account_id, balance, expected_version } => {
            assert_eq!(account_id, HIGH);
            assert_eq!(balance.to_text(), "75.00");
            assert_eq!(expected_version, Some(11));
        }
        other => panic!("{:?}", other),
    }
    let (p, action) = p.try_step(Event::Done).unwrap();
    match action {
        Action::UpdateBalance { account_id, balance, expected_version } => {
            assert_eq!(account_id, LOW);
            assert_eq!(balance.to_text(), "26.00");
            assert_eq!(expected_version, Some(11));
        }
        other => panic!("{:?}", other),
    }
    let (p, action) = p.try_step(Event::Done).unwrap();
    assert!(matches!(action, Action::ReadSequence { account_id: HIGH }));
    let (p, action) = p.try_step(Event::Sequence(Some(17))).unwrap();
    match action {
        Action::InsertLedgerEntry {
            transaction_id,
            account_id,
            entry_type,
            amount,
            running_balance,
            sequence_num,
        } => {
            assert_eq!(transaction_id, TRANSACTION);
            assert_eq!(account_id, HIGH);
            assert_eq!(entry_type, EntryType::Debit);
            assert_eq!(amount.to_text(), "25.00");
            assert_eq!(running_balance.to_text(), "75.00");
            assert_eq!(sequence_num, 17);
        }
        other => panic!("{:?}", other),
    }
    let (p, action) = p.try_step(Event::Done).unwrap();
    assert!(matches!(action, Action::ReadSequence { account_id: LOW }));
    let (p, action) = p.try_step(Event::Sequence(None)).unwrap();
    match action {
        Action::InsertLedgerEntry { account_id, entry_type, amount, sequence_num, .. } => {
            assert_eq!(account_id, LOW);
            assert_eq!(entry_type, EntryType::Credit);
            assert_eq!(amount.to_text(), "25.00");
            assert_eq!(sequence_num, 1);
        }
        other => panic!("{:?}", other),
    }
    let (p, action) = p.try_step(Event::Done).unwrap();
    match action {
        Action::RecordAudit(record) => {
            assert_eq!(record.entity_type, "Transaction");
            assert_eq!(record.entity_id, TRANSACTION);
            assert_eq!(record.action, "SETTLED");
            assert!(record.old_state.is_none());
            let fields: Vec<(String, String)> =
                record.new_state.into_iter().map(|f| (f.name, f.value)).collect();
            assert_eq!(
                fields,
                vec![
                    ("type".to_string(), "TRANSFER".to_string()),
                    ("amount".to_string(), "25.00".to_string()),
                    (
                        "source_account_id".to_string(),
                        "00000000-0000-0000-0000-000000000002".to_string()
                    ),
                    (
                        "dest_account_id".to_string(),
                        "00000000-0000-0000-0000-000000000001".to_string()
                    ),
                    ("status".to_string(), "SETTLED".to_string()),
                ]
            );
            assert_eq!(record.actor_id, "worker");
            assert_eq!(record.actor_type, "WORKER");
            assert_eq!(record.correlation_id, CORRELATION);
        }
        other => panic!("{:?}", other),
    }
    let (p, action) = p.try_step(Event::Done).unwrap();
    assert!(matches!(action, Action::MarkSettled(TRANSACTION)));
    let (p, action) = p.try_step(Event::Done).unwrap();
    assert!(matches!(action, Action::Commit));
    let (p, action) = p.try_step(Event::Done).unwrap();
    assert!(returned(action).is_ok());
    assert!(p.try_step(Event::Done).is_none());
}

#[test]
fn a_held_lock_is_left_alone() {
    for taken in [Some(false), None] {
        let (p, action) = drive(vec![Event::Done, Event::Lock(taken)]);
        assert!(matches!(action, Action::Rollback));
        assert!(returned(p.try_step(Event::Done).unwrap().1).is_ok());
    }
}

#[test]
fn settled_and_reversed_transactions_are_skipped() {
    for status in ["SETTLED", "REVERSED"] {
        let mut r = row("TRANSFER", Some(LOW), Some(HIGH));
        r.status = Some(status.to_string());
        let (p, action) = drive(up_to_claim(r));
        assert!(matches!(action, Action::Rollback));
        // What comes of the rollback does not matter.
        let last = p.try_step(Event::Failed(failure(DbErrorKind::Other))).unwrap().1;
        assert!(returned(last).is_ok());
    }
}

#[test]
fn failed_transactions_need_an_operator() {
    let mut r = row("CREDIT", None, Some(LOW));
    r.status = Some("FAILED".to_string());
    let (p, action) = drive(up_to_claim(r));
    assert!(matches!(action, Action::Rollback));
    match returned(p.try_step(Event::Done).unwrap().1).unwrap_err() {
        ProcessError::Permanent(m) => {
            assert_eq!(m, "transaction 00010203-0405-0607-0809-0a0b0c0d0e0f is in FAILED state")
        }
        other => panic!("{:?}", other),
    }
}

#[test]
fn a_missing_transaction_is_an_error() {
    let mut events = up_to_loading();
    events.push(Event::Transaction(None));
    let (_, action) = drive(events);
    assert!(matches!(returned(action), Err(ProcessError::NotFound(TRANSACTION))));
}

#[test]
fn no_status_counts_as_pending() {
    let mut r = row("CREDIT", None, Some(LOW));
    r.status = None;
    assert!(matches!(drive(up_to_claim(r)).1, Action::MarkProcessing { .. }));
}

#[test]
fn a_changed_version_is_a_conflict() {
    let mut events = up_to_claim(row("CREDIT", None, Some(LOW)));
    events.push(Event::RowsAffected(0));
    let (p, action) = drive(events);
    assert!(matches!(action, Action::Rollback));
    let error = returned(p.try_step(Event::Done).unwrap().1).unwrap_err();
    assert!(error.is_retryable());
    match error {
        ProcessError::Domain(DomainError::OptimisticLockConflict { entity, id, expected, actual }) => {
            assert_eq!(entity, "Transaction");
            assert_eq!(id, TRANSACTION);
            assert_eq!(expected, 4);
            assert_eq!(actual, 5);
        }
        other => panic!("{:?}", other),
    }
}

#[test]
fn unchecked_transactions_are_screened() {
    let mut r = row("CREDIT", None, Some(LOW));
    r.compliance_checked = None;
    let mut events = up_to_execution(r);
    let (_, action) = drive(vec![]);
    assert!(matches!(action, Action::Begin));
    events.push(Event::Fraud(Some(FraudChecker::assess(Decimal::new(2500, 2)))));
    let (p, action) = drive(events);
    match action {
        Action::RecordCompliance { id, risk_score } => {
            assert_eq!(id, TRANSACTION);
            assert_eq!(risk_score.to_text(), "0.0100");
        }
        other => panic!("{:?}", other),
    }
    let (_, action) = p.try_step(Event::Done).unwrap();
    assert!(matches!(action, Action::LockAccount(LOW)));
}

#[test]
fn a_blocked_transaction_is_failed() {
    let mut r = row("CREDIT", None, Some(LOW));
    r.compliance_checked = Some(false);
    r.amount = Decimal::new(200_000, 0);
    let mut events = up_to_execution(r);
    events.push(Event::Fraud(Some(FraudChecker::assess(Decimal::new(200_000, 0)))));
    let (p, action) = drive(events);
    match action {
        Action::MarkFailed { id, reason } => {
            assert_eq!(id, TRANSACTION);
            assert_eq!(reason, "fraud_blocked: amount_exceeds_auto_approve_limit");
        }
        other => panic!("{:?}", other),
    }
    let (p, action) = p.try_step(Event::Done).unwrap();
    match action {
        Action::RecordAudit(record) => {
            assert_eq!(record.action, "FAILED");
            assert_eq!(record.new_state[0].name, "status");
            assert_eq!(record.new_state[0].value, "FAILED");
            assert_eq!(record.new_state[1].name, "error");
            assert_eq!(
                record.new_state[1].value,
                "fraud_blocked: amount_exceeds_auto_approve_limit"
            );
        }
        other => panic!("{:?}", other),
    }
    let (p, action) = p.try_step(Event::Done).unwrap();
    assert!(matches!(action, Action::Commit));
    match returned(p.try_step(Event::Done).unwrap().1).unwrap_err() {
        ProcessError::FraudBlocked(reason) => {
            assert_eq!(reason, "amount_exceeds_auto_approve_limit")
        }
        other => panic!("{:?}", other),
    }
}

#[test]
fn a_silent_fraud_check_fails_the_transaction() {
    let mut r = row("CREDIT", None, Some(LOW));
    r.compliance_checked = Some(false);
    let mut events = up_to_execution(r);
    events.push(Event::Fraud(None));
    let (p, action) = drive(events);
    match action {
        Action::MarkFailed { reason, .. } => {
            assert_eq!(reason, "fraud_check_timeout: no response within 5s")
        }
        other => panic!("{:?}", other),
    }
    let (p, _) = p.try_step(Event::Done).unwrap();
    let (p, _) = p.try_step(Event::Done).unwrap();
    let error = returned(p.try_step(Event::Done).unwrap().1).unwrap_err();
    assert!(!error.is_retryable());
    assert_eq!(error.to_text(), "fraud check timed out after 5s");
}

#[test]
fn missing_parties_and_unknown_types_fail() {
    for (r, reason) in [
        (row("TRANSFER", None, Some(LOW)), "permanent failure: TRANSFER missing source_account_id"),
        (row("TRANSFER", Some(LOW), None), "permanent failure: TRANSFER missing dest_account_id"),
        (row("CREDIT", Some(LOW), None), "permanent failure: CREDIT missing dest_account_id"),
        (row("DEBIT", None, Some(LOW)), "permanent failure: DEBIT missing source_account_id"),
        (row("FEE", None, None), "permanent failure: DEBIT missing source_account_id"),
        (row("REVERSAL", None, None), "permanent failure: unknown transaction type: REVERSAL"),
    ] {
        match drive(up_to_execution(r)).1 {
            Action::MarkFailed { reason: text, .. } => assert_eq!(text, reason),
            other => panic!("{:?}", other),
        }
    }
    let mut untyped = row("", None, None);
    untyped.transaction_type = None;
    match drive(up_to_execution(untyped)).1 {
        Action::MarkFailed { reason, .. } => {
            assert_eq!(reason, "permanent failure: unknown transaction type: ")
        }
        other => panic!("{:?}", other),
    }
}

#[test]
fn insufficient_funds_fail_the_transaction() {
    let mut events = up_to_execution(row("FEE", Some(LOW), None));
    events.push(Event::Account(account(2499)));
    events.push(Event::Account(account(0)));
    match drive(events).1 {
        Action::MarkFailed { reason, .. } => assert_eq!(
            reason,
            "domain error: insufficient funds: account=00000000-0000-0000-0000-000000000001, required=25.00, available=24.99"
        ),
        other => panic!("{:?}", other),
    }
}

#[test]
fn a_busy_pool_puts_the_transaction_back() {
    let mut events = up_to_execution(row("CREDIT", None, Some(LOW)));
    events.push(Event::Failed(failure(DbErrorKind::PoolTimedOut)));
    let (p, action) = drive(events);
    match action {
        Action::ResetToPending { id, reason } => {
            assert_eq!(id, TRANSACTION);
            assert_eq!(reason, "database error: broken");
        }
        other => panic!("{:?}", other),
    }
    let (p, action) = p.try_step(Event::Done).unwrap();
    assert!(matches!(action, Action::Commit));
    assert!(returned(p.try_step(Event::Done).unwrap().1).unwrap_err().is_retryable());
}

#[test]
fn other_database_errors_fail_the_transaction() {
    let mut events = up_to_execution(row("TRANSFER", Some(LOW), Some(HIGH)));
    events.push(Event::Account(account(2500)));
    events.push(Event::Failed(failure(DbErrorKind::RowNotFound)));
    let (p, action) = drive(events);
    assert!(matches!(action, Action::MarkFailed { .. }));
    // The failure itself cannot be stored.
    let last = p.try_step(Event::Failed(failure(DbErrorKind::Other))).unwrap().1;
    assert!(matches!(returned(last), Err(ProcessError::Database(_))));
}

#[test]
fn database_errors_before_the_movement_are_returned() {
    for events in [
        vec![],
        vec![Event::Done],
        up_to_loading(),
        up_to_claim(row("CREDIT", None, Some(LOW))),
    ] {
        let (p, _) = drive(events);
        let last = p.try_step(Event::Failed(failure(DbErrorKind::Other))).unwrap().1;
        match returned(last).unwrap_err() {
            ProcessError::Database(e) => assert_eq!(e.message, "broken"),
            other => panic!("{:?}", other),
        }
    }
}

#[test]
fn events_that_do_not_fit_are_refused() {
    let (p, _) = start();
    assert!(!p.can_step(&Event::Sequence(Some(1))));
    assert!(p.try_step(Event::Lock(Some(true))).is_none());
    let mut r = row("CREDIT", None, Some(LOW));
    r.version = i64::MAX;
    let (p, _) = drive(up_to_claim(r));
    assert!(p.can_step(&Event::RowsAffected(1)));
    assert!(!p.can_step(&Event::RowsAffected(0)));
}

#[test]
fn balances_out_of_range_are_refused() {
    let full = AccountRow {
        balance: Decimal::try_from_i128_with_scale(MAX_MANTISSA, 0).unwrap(),
        version: 1,
        is_active: true,
    };
    let mut r = row("CREDIT", None, Some(LOW));
    r.amount = full.balance;
    let mut events = up_to_execution(r);
    events.push(Event::Account(full));
    let (p, _) = drive(events);
    assert!(!p.can_step(&Event::Account(account(0))));
    assert!(p.try_step(Event::Account(account(0))).is_none());
    let movement = Movement::Credit { dest: LOW, counters: counters() };
    assert!(!movement.can_settle(full.balance, full, account(0)));
    let closed = AccountRow { is_active: false, ..full };
    assert!(movement.can_settle(full.balance, closed, account(0)));
}

#[test]
fn transfers_conserve_money() {
    let plan = process_transfer(LOW, HIGH, Decimal::new(1, 2), account(100), account(7)).unwrap();
    let balances: Vec<String> = plan
        .iter()
        .filter_map(|w| match w {
            Write::Balance { balance, .. } => Some(balance.to_text()),
            _ => None,
        })
        .collect();
    assert_eq!(balances, vec!["0.99", "0.08"]);
    let entries: Vec<(Uuid, EntryType, String, String)> = plan
        .iter()
        .filter_map(|w| match w {
            Write::Entry { account_id, entry_type, amount, running_balance } => Some((
                *account_id,
                *entry_type,
                amount.to_text(),
                running_balance.to_text(),
            )),
            _ => None,
        })
        .collect();
    assert_eq!(
        entries,
        vec![
            (LOW, EntryType::Debit, "0.01".to_string(), "0.99".to_string()),
            (HIGH, EntryType::Credit, "0.01".to_string(), "0.08".to_string()),
        ]
    );
    assert_eq!(plan.len(), 7);
}

#[test]
fn transfers_look_at_the_source_first() {
    let closed = AccountRow { is_active: false, ..account(100) };
    let refusal = |source: AccountRow, dest: AccountRow| {
        process_transfer(LOW, HIGH, Decimal::new(500, 2), source, dest).unwrap_err().to_text()
    };
    assert_eq!(
        refusal(closed, closed),
        "domain error: account is inactive: 00000000-0000-0000-0000-000000000001"
    );
    assert!(refusal(account(1), closed).contains("insufficient funds"));
    assert_eq!(
        refusal(account(500), closed),
        "domain error: account is inactive: 00000000-0000-0000-0000-000000000002"
    );
}

#[test]
fn a_transfer_to_the_same_account_is_refused() {
    let error =
        process_transfer(LOW, LOW, Decimal::new(1, 0), account(500), account(500)).unwrap_err();
    assert!(!error.is_retryable());
    assert_eq!(
        error.to_text(),
        "domain error: validation failed: source and destination accounts must differ"
    );
    let mut events = up_to_execution(row("TRANSFER", Some(LOW), Some(LOW)));
    events.push(Event::Account(account(10_000)));
    events.push(Event::Account(account(10_000)));
    assert!(matches!(drive(events).1, Action::MarkFailed { .. }));
}

/// The balances and the ledger entries of a plan, in order.
fn sides(plan: &[Write]) -> (Vec<(Uuid, String)>, Vec<(Uuid, EntryType, String, String)>) {
    let mut balances = Vec::new();
    let mut entries = Vec::new();
    for write in plan {
        match write {
            Write::Balance { account_id, balance, .. } => {
                balances.push((*account_id, balance.to_text()))
            }
            Write::Entry { account_id, entry_type, amount, running_balance } => entries.push((
                *account_id,
                *entry_type,
                amount.to_text(),
                running_balance.to_text(),
            )),
            _ => {}
        }
    }
    (balances, entries)
}

#[test]
fn payments_in_and_out_have_two_sides() {
    let credit =
        process_credit(LOW, counters(), Decimal::new(5, 0), account(100), account(0)).unwrap();
    assert_eq!(credit.len(), 7);
    assert!(matches!(&credit[0], Write::Balance { account_id: COUNTER, version: None, .. }));
    let (balances, entries) = sides(&credit);
    assert_eq!(
        balances,
        vec![(COUNTER, "-5".to_string()), (LOW, "6.00".to_string())]
    );
    assert_eq!(
        entries,
        vec![
            (COUNTER, EntryType::Debit, "5".to_string(), "-5".to_string()),
            (LOW, EntryType::Credit, "5".to_string(), "6.00".to_string()),
        ]
    );
    let debit =
        process_debit(LOW, counters(), Decimal::new(5, 1), account(100), account(0)).unwrap();
    let (balances, entries) = sides(&debit);
    assert_eq!(
        balances,
        vec![(LOW, "0.50".to_string()), (COUNTER, "0.5".to_string())]
    );
    assert_eq!(entries[0].1, EntryType::Debit);
    assert_eq!(entries[0].0, LOW);
    assert_eq!(entries[1].1, EntryType::Credit);
    assert_eq!(entries[1].0, COUNTER);
    let closed = AccountRow { is_active: false, ..account(100) };
    assert!(process_credit(LOW, counters(), Decimal::new(5, 0), closed, account(0)).is_err());
    assert!(process_debit(LOW, counters(), Decimal::new(5, 0), closed, account(0)).is_err());
}

#[test]
fn a_credit_locks_both_accounts() {
    let (p, action) = drive(up_to_execution(row("CREDIT", None, Some(LOW))));
    assert!(matches!(action, Action::LockAccount(LOW)));
    let (p, action) = p.try_step(Event::Account(account(100))).unwrap();
    assert!(matches!(action, Action::LockAccount(COUNTER)));
    let (_, action) = p.try_step(Event::Account(account(0))).unwrap();
    assert!(matches!(
        action,
        Action::UpdateBalance { account_id: COUNTER, expected_version: None, .. }
    ));
}

#[test]
fn ledger_entries_take_the_next_numbers() {
    let mut events = up_to_execution(row("CREDIT", None, Some(LOW)));
    for _ in 0..2 {
        events.push(Event::Account(account(0)));
    }
    events.push(Event::Done);
    events.push(Event::Done);
    events.push(Event::Sequence(Some(8)));
    let (p, action) = drive(events);
    assert!(matches!(
        action,
        Action::InsertLedgerEntry { account_id: COUNTER, sequence_num: 8, .. }
    ));
    let (p, action) = p.try_step(Event::Done).unwrap();
    assert!(matches!(action, Action::ReadSequence { account_id: LOW }));
    let (_, action) = p.try_step(Event::Sequence(Some(1))).unwrap();
    assert!(matches!(action, Action::InsertLedgerEntry { account_id: LOW, sequence_num: 1, .. }));
}

#[test]
fn accounts_are_locked_in_order() {
    let there = Movement::Transfer { source: LOW, dest: HIGH };
    let back = Movement::Transfer { source: HIGH, dest: LOW };
    assert_eq!(there.lock_order(), (LOW, HIGH));
    assert_eq!(back.lock_order(), (LOW, HIGH));
    assert_eq!(back.sides(), (HIGH, LOW));
    let counters = CounterAccounts::new(LOW, RESERVE).unwrap();
    assert_eq!(Movement::Debit { source: HIGH, counters }.lock_order(), (LOW, HIGH));
    assert_eq!(Movement::Credit { dest: HIGH, counters }.sides(), (LOW, HIGH));
}

#[test]
fn process_errors_are_described() {
    let nil = "00000000-0000-0000-0000-000000000000";
    for (error, text, retryable) in [
        (ProcessError::NotFound(Uuid::nil()), format!("transaction not found: {}", nil), false),
        (
            ProcessError::Domain(DomainError::AccountInactive(Uuid::nil())),
            format!("domain error: account is inactive: {}", nil),
            false,
        ),
        (
            ProcessError::Database(failure(DbErrorKind::PoolTimedOut)),
            "database error: broken".to_string(),
            true,
        ),
        (
            ProcessError::Database(failure(DbErrorKind::RowNotFound)),
            "database error: broken".to_string(),
            false,
        ),
        (
            ProcessError::Domain(DomainError::DatabaseError(failure(DbErrorKind::PoolTimedOut))),
            "domain error: database error: broken".to_string(),
            false,
        ),
        (
            ProcessError::Serialization("bad".to_string()),
            "serialization error: bad".to_string(),
            false,
        ),
        (
            ProcessError::FraudBlocked("big".to_string()),
            "fraud check blocked: big".to_string(),
            false,
        ),
        (
            ProcessError::FraudCheckTimeout(5),
            "fraud check timed out after 5s".to_string(),
            false,
        ),
        (ProcessError::Permanent("no".to_string()), "permanent failure: no".to_string(), false),
    ] {
        assert_eq!(error.to_text(), text);
        assert_eq!(error.is_retryable(), retryable, "{:?}", error);
    }
}

#[test]
fn payments_on_a_counter_account_are_carried_out() {
    let credit =
        process_credit(COUNTER, counters(), Decimal::new(5, 0), account(100), account(0)).unwrap();
    let (balances, entries) = sides(&credit);
    assert_eq!(balances, vec![(RESERVE, "-5".to_string()), (COUNTER, "6.00".to_string())]);
    assert_eq!(entries[0].0, RESERVE);
    assert_eq!(entries[1].0, COUNTER);
    let (p, action) = drive(up_to_execution(row("DEBIT", Some(RESERVE), None)));
    assert!(matches!(action, Action::LockAccount(COUNTER)));
    let (p, _) = p.try_step(Event::Account(account(0))).unwrap();
    let (_, action) = p.try_step(Event::Account(account(10_000))).unwrap();
    assert!(matches!(action, Action::UpdateBalance { account_id: RESERVE, .. }));
}

#[test]
fn counter_accounts_are_chosen_by_currency() {
    let accounts = vec![
        ("EUR".to_string(), LOW),
        ("USD".to_string(), COUNTER),
        ("USD".to_string(), COUNTER),
        ("USD".to_string(), RESERVE),
        ("USD".to_string(), HIGH),
    ];
    assert_eq!(counter_account("USD", &accounts), Some(COUNTER));
    assert_eq!(counter_account("EUR", &accounts), Some(LOW));
    assert_eq!(counter_account("usd", &accounts), None);
    let pair = counter_accounts("USD", &accounts).unwrap();
    assert_eq!(pair, counters());
    assert_eq!(pair.face(LOW), COUNTER);
    assert_eq!(pair.face(COUNTER), RESERVE);
    assert_eq!(pair.face(RESERVE), COUNTER);
    assert!(counter_accounts("EUR", &accounts).is_none());
    assert!(counter_accounts("GBP", &accounts).is_none());
    assert!(CounterAccounts::new(LOW, LOW).is_none());
}

#[test]
fn every_currency_needs_counter_accounts() {
    let mut accounts = Vec::new();
    for code in ["USD", "EUR", "GBP", "JPY", "CHF", "CAD"] {
        accounts.push((code.to_string(), LOW));
        accounts.push((code.to_string(), HIGH));
    }
    accounts.push(("AUD".to_string(), LOW));
    assert_eq!(unserved_currency(&accounts), Some(Currency::Aud));
    accounts.push(("AUD".to_string(), HIGH));
    assert_eq!(unserved_currency(&accounts), None);
    assert_eq!(unserved_currency(&Vec::new()), Some(Currency::Usd));
}

#[test]
fn nothing_is_committed_after_a_failed_write() {
    let mut events = up_to_execution(row("CREDIT", None, Some(LOW)));
    events.push(Event::Account(account(0)));
    events.push(Event::Account(account(0)));
    events.push(Event::Done);
    events.push(Event::Failed(failure(DbErrorKind::Other)));
    let (p, action) = drive(events);
    assert!(matches!(action, Action::MarkFailed { .. }));
    // The database takes no more statements.
    let (_, action) = p.try_step(Event::Failed(failure(DbErrorKind::Other))).unwrap();
    assert!(matches!(action, Action::Return(Err(ProcessError::Database(_)))));
}

#[test]
fn a_ledger_entry_takes_two_writes() {
    let mut plan = Vec::new();
    write_ledger_entry(&mut plan, LOW, EntryType::Debit, Decimal::new(5, 0), Decimal::new(7, 0));
    assert_eq!(plan.len(), 2);
    assert!(matches!(plan[0], Write::NextSequence { account_id: LOW }));
    assert!(matches!(
        plan[1],
        Write::Entry { account_id: LOW, entry_type: EntryType::Debit, amount, running_balance }
            if amount == Decimal::new(5, 0) && running_balance == Decimal::new(7, 0)
    ));
}
