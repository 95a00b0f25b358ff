use fdp::decimal::{Decimal, MAX_MANTISSA};
use fdp::domain::{
    Account, Currency, EntryType, Money, Transaction, TransactionStatus, TransactionType,
};
use fdp::error::DomainError;
use fdp::ident::Uuid;
use fdp::ledger::verify_account_balance;
use fdp::moment::Timestamp;

const EPOCH: Timestamp = Timestamp { seconds: 0, nanos: 0 };

fn account(balance: Decimal) -> Account {
    Account {
        id: Uuid { value: 7 },
        external_id: "ext".to_string(),
        owner_id: "owner".to_string(),
        currency: Currency::Usd,
        balance,
        version: 3,
        is_active: true,
        created_at: EPOCH,
        updated_at: EPOCH,
    }
}

fn transaction(status: TransactionStatus) -> Transaction {
    Transaction {
        id: Uuid { value: 9 },
        idempotency_key: "key".to_string(),
        transaction_type: TransactionType::Transfer,
        status,
        amount: Decimal::new(100, 2),
        currency: Currency::Eur,
        source_account_id: None,
        dest_account_id: None,
        description: None,
        metadata: "{}".to_string(),
        request_hash: "hash".to_string(),
        submitted_at: EPOCH,
        processed_at: None,
        settled_at: None,
        version: 1,
        worker_id: None,
        retry_count: 0,
        last_error: None,
        regulatory_flags: "{}".to_string(),
        risk_score: None,
        compliance_checked: false,
    }
}

#[test]
fn money_is_positive() {
    let money = Money::new(Decimal::new(1, 4), Currency::Gbp).unwrap();
    assert_eq!(money.amount.to_text(), "0.0001");
    assert_eq!(money.currency, Currency::Gbp);
    match Money::new(Decimal::zero(), Currency::Usd).unwrap_err() {
        DomainError::InvalidAmount(text) => assert_eq!(text, "0"),
        other => panic!("{:?}", other),
    }
    match Money::new(Decimal::new(-250, 2), Currency::Usd).unwrap_err() {
        DomainError::InvalidAmount(text) => assert_eq!(text, "-2.50"),
        other => panic!("{:?}", other),
    }
}

#[test]
fn statuses_follow_the_state_machine() {
    let all = [
        TransactionStatus::Pending,
        TransactionStatus::Processing,
        TransactionStatus::Settled,
        TransactionStatus::Failed,
        TransactionStatus::Reversed,
    ];
    let allowed = [
        (TransactionStatus::Pending, TransactionStatus::Processing),
        (TransactionStatus::Pending, TransactionStatus::Failed),
        (TransactionStatus::Processing, TransactionStatus::Settled),
        (TransactionStatus::Processing, TransactionStatus::Failed),
        (TransactionStatus::Processing, TransactionStatus::Pending),
        (TransactionStatus::Settled, TransactionStatus::Reversed),
    ];
    for from in all {
        for to in all {
            assert_eq!(from.can_transition_to(&to), allowed.contains(&(from, to)));
        }
    }
}

#[test]
fn transitions_raise_the_version() {
    let mut t = transaction(TransactionStatus::Pending);
    assert!(t.transition(TransactionStatus::Processing).is_ok());
    assert_eq!(t.status, TransactionStatus::Processing);
    assert_eq!(t.version, 2);
    assert!(t.transition(TransactionStatus::Settled).is_ok());
    assert_eq!(t.version, 3);
}

#[test]
fn refused_transitions_change_nothing() {
    let mut t = transaction(TransactionStatus::Failed);
    match t.transition(TransactionStatus::Pending).unwrap_err() {
        DomainError::InvalidStateTransition { id, from, to } => {
            assert_eq!(id, t.id);
            assert_eq!(from, "Failed");
            assert_eq!(to, "Pending");
        }
        other => panic!("{:?}", other),
    }
    assert_eq!(t.status, TransactionStatus::Failed);
    assert_eq!(t.version, 1);
}

#[test]
fn debit_and_credit_undo_each_other() {
    let mut a = account(Decimal::new(1000, 2));
    assert!(a.debit(Decimal::new(325, 2)).is_ok());
    assert_eq!(a.balance.to_text(), "6.75");
    assert_eq!(a.version, 4);
    assert!(a.credit(Decimal::new(325, 2)).is_ok());
    assert_eq!(a.balance.to_text(), "10.00");
    assert_eq!(a.version, 5);
}

#[test]
fn the_whole_balance_can_be_taken_out() {
    let mut a = account(Decimal::new(10, 0));
    assert!(a.debit(Decimal::new(1000, 2)).is_ok());
    assert!(a.balance == Decimal::zero());
}

#[test]
fn overdrafts_are_refused() {
    let mut a = account(Decimal::new(10, 0));
    match a.debit(Decimal::new(1001, 2)).unwrap_err() {
        DomainError::InsufficientFunds { account_id, required, available } => {
            assert_eq!(account_id, a.id);
            assert_eq!(required, "10.01");
            assert_eq!(available, "10");
        }
        other => panic!("{:?}", other),
    }
    assert_eq!(a.balance.to_text(), "10");
    assert_eq!(a.version, 3);
}

#[test]
fn inactive_accounts_are_left_alone() {
    let mut a = account(Decimal::new(10, 0));
    a.is_active = false;
    assert!(matches!(a.debit(Decimal::new(99, 0)), Err(DomainError::AccountInactive(id)) if id == a.id));
    assert!(matches!(a.credit(Decimal::new(1, 0)), Err(DomainError::AccountInactive(_))));
    assert_eq!(a.version, 3);
}

#[test]
fn balances_that_cannot_be_represented_are_not_made() {
    let largest = Decimal::try_from_i128_with_scale(MAX_MANTISSA, 0).unwrap();
    let mut a = account(largest);
    assert!(a.try_credit(Decimal::new(1, 0)).is_none());
    assert!(a.balance == largest);
    a.version = i64::MAX;
    assert!(a.try_debit(Decimal::new(1, 0)).is_none());
    assert_eq!(a.version, i64::MAX);
    let mut b = account(Decimal::new(5, 0));
    assert!(matches!(b.try_debit(Decimal::new(2, 0)), Some(Ok(()))));
    assert!(matches!(b.try_debit(Decimal::new(4, 0)), Some(Err(DomainError::InsufficientFunds { .. }))));
    assert!(matches!(b.try_credit(Decimal::new(2, 0)), Some(Ok(()))));
    assert_eq!(b.balance.to_text(), "5");
}

#[test]
fn codes_are_those_of_the_database() {
    assert_eq!(Currency::Usd.as_str(), "USD");
    assert_eq!(Currency::Chf.as_str(), "CHF");
    assert_eq!(Currency::Jpy.json_name(), "Jpy");
    assert_eq!(TransactionType::Adjustment.as_str(), "ADJUSTMENT");
    assert_eq!(TransactionType::Reversal.as_str(), "REVERSAL");
    assert_eq!(TransactionStatus::Processing.as_str(), "PROCESSING");
    assert_eq!(TransactionStatus::Reversed.display_name(), "Reversed");
    assert_eq!(EntryType::Debit.as_str(), "DEBIT");
    assert_eq!(EntryType::Credit.as_str(), "CREDIT");
}

#[test]
fn balances_are_reconciled_by_value() {
    assert!(verify_account_balance(Some(Decimal::new(100, 1)), Decimal::new(10, 0)).is_none());
    assert!(verify_account_balance(None, Decimal::new(0, 4)).is_none());
    let (ledger, account) = verify_account_balance(None, Decimal::new(5, 0)).unwrap();
    assert_eq!(ledger.to_text(), "0");
    assert_eq!(account.to_text(), "5");
    let (ledger, account) =
        verify_account_balance(Some(Decimal::new(7, 0)), Decimal::new(8, 0)).unwrap();
    assert_eq!(ledger.to_text(), "7");
    assert_eq!(account.to_text(), "8");
}

#[test]
fn currencies_are_told_apart() {
    let all = [
        Currency::Usd,
        Currency::Eur,
        Currency::Gbp,
        Currency::Jpy,
        Currency::Chf,
        Currency::Cad,
        Currency::Aud,
    ];
    for a in all {
        for b in all {
            assert_eq!(a == b, a.as_str() == b.as_str());
            assert_eq!(a == b, a.json_name() == b.json_name());
        }
    }
}
