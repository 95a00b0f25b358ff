//! Reconciliation of account balances with the ledger.
use vstd::prelude::*;

use crate::decimal::Decimal;

verus! {

/// Compares the balance that the ledger entries of an account add up to, which
/// is nothing where there are no entries, with the balance of the account.
/// Gives both where they differ in value, the ledger's first.
pub fn verify_account_balance(ledger: Option<Decimal>, account: Decimal) -> (r: Option<
    (Decimal, Decimal),
>)
    ensures
        r is None <==> expected_balance(ledger).units() == account.units(),
        r matches Some(pair) ==> pair == (expected_balance(ledger), account),
{
    let ledger = match ledger {
        Some(balance) => balance,
        None => Decimal::zero(),
    };
    if ledger != account {
        Some((ledger, account))
    } else {
        None
    }
}

/// The balance that a ledger calls for: zero where it has no entries.
pub open spec fn expected_balance(ledger: Option<Decimal>) -> Decimal {
    match ledger {
        Some(balance) => balance,
        None => Decimal::from_parts(0, 0),
    }
}

/// A ledger without entries calls for nothing, and one with entries for what they
/// add up to.
pub proof fn law_ledger_calls_for_its_sum(ledger: Option<Decimal>)
    ensures
        ledger is None ==> expected_balance(ledger).units() == 0,
        ledger is Some ==> expected_balance(ledger) == ledger->0,
{
    broadcast use crate::decimal::lemma_from_parts;

    assert(0 * vstd::arithmetic::power::pow(10, 28) == 0) by (nonlinear_arith);
}

} // verus!
