//! Risk scoring: a simple rule set on the amount.
use vstd::arithmetic::power::pow;
use vstd::prelude::*;

use crate::decimal::{lemma_from_parts, Decimal};
use crate::fault::{should_fail, FaultInjector};
use crate::ident::Uuid;

verus! {

/// How long a hanging check stays silent, in seconds.
pub const HANG_SECS: u64 = 10;

/// The outcome of a check.
#[derive(Debug)]
pub struct FraudResult<S = String> {
    pub is_blocked: bool,
    /// Why the transaction is blocked; empty where it is not.
    pub reason: S,
    /// From 0.0000 to 1.0000.
    pub risk_score: Decimal,
}

impl View for FraudResult<String> {
    type V = FraudResult<Seq<char>>;

    open spec fn view(&self) -> FraudResult<Seq<char>> {
        FraudResult {
            is_blocked: self.is_blocked,
            reason: self.reason@,
            risk_score: self.risk_score,
        }
    }
}

/// Whether an amount is more than a whole number.
pub open spec fn exceeds(amount: Decimal, limit: i64) -> bool {
    amount.units() > Decimal::from_parts(limit as i128, 0).units()
}

/// What the rules say of an amount: more than 100000 needs manual review and is
/// blocked; otherwise the risk grows with the amount.
pub open spec fn assessment(amount: Decimal) -> FraudResult<Seq<char>> {
    if exceeds(amount, 100_000) {
        FraudResult {
            is_blocked: true,
            reason: "amount_exceeds_auto_approve_limit"@,
            risk_score: Decimal::from_parts(9500, 4),
        }
    } else {
        FraudResult {
            is_blocked: false,
            reason: Seq::empty(),
            risk_score: if exceeds(amount, 10_000) {
                Decimal::from_parts(4000, 4)
            } else if exceeds(amount, 1_000) {
                Decimal::from_parts(1500, 4)
            } else {
                Decimal::from_parts(100, 4)
            },
        }
    }
}

fn is_more_than(amount: &Decimal, limit: i64) -> (r: bool)
    ensures
        r == exceeds(*amount, limit),
{
    Decimal::new(limit, 0).less_than(amount)
}

/// The rule set.
#[derive(Debug, Clone, Copy)]
pub struct FraudChecker;

impl FraudChecker {
    /// Applies the rules to an amount.
    pub fn assess(amount: Decimal) -> (r: FraudResult)
        ensures
            r@ == assessment(amount),
    {
        if is_more_than(&amount, 100_000) {
            return FraudResult {
                is_blocked: true,
                reason: "amount_exceeds_auto_approve_limit".to_string(),
                risk_score: Decimal::new(9500, 4),
            };
        }
        let risk_score = if is_more_than(&amount, 10_000) {
            Decimal::new(4000, 4)
        } else if is_more_than(&amount, 1_000) {
            Decimal::new(1500, 4)
        } else {
            Decimal::new(100, 4)
        };
        FraudResult { is_blocked: false, reason: String::new(), risk_score }
    }

    /// Checks a transaction: how many seconds the answer takes, and the answer.
    /// It takes none, unless the fault point `fraud.hang` fires for this
    /// transaction.
    pub fn check(injector: &mut FaultInjector, transaction_id: Uuid, amount: Decimal) -> (r: (
        u64,
        FraudResult,
    ))
        requires
            old(injector).counts("fraud.hang"@, Some(transaction_id)) ==> old(
                injector).counters.count("fraud.hang"@) < u64::MAX,
        ensures
            r.0 == (if old(injector).fails("fraud.hang"@, Some(transaction_id)) {
                HANG_SECS
            } else {
                0
            }),
            r.1@ == assessment(amount),
            old(injector).called("fraud.hang"@, Some(transaction_id), *final(injector)),
    {
        let delay: u64 = if should_fail(injector, "fraud.hang", Some(transaction_id)) {
            HANG_SECS
        } else {
            0
        };
        (delay, FraudChecker::assess(amount))
    }
}

/// A larger amount is never judged more leniently: if a smaller one is blocked
/// so is the larger, and its risk is no lower.
pub proof fn law_risk_grows_with_the_amount(smaller: Decimal, larger: Decimal)
    requires
        smaller.units() <= larger.units(),
    ensures
        assessment(smaller).is_blocked ==> assessment(larger).is_blocked,
        assessment(smaller).risk_score.units() <= assessment(larger).risk_score.units(),
{
    broadcast use lemma_from_parts;

    let scale = vstd::arithmetic::power::pow(10, 24);
    assert(scale > 0) by {
        vstd::arithmetic::power::lemma_pow_positive(10, 24);
    }
    assert(100 * scale <= 1500 * scale <= 4000 * scale <= 9500 * scale) by (nonlinear_arith)
        requires
            scale > 0,
    ;
}

proof fn lemma_whole_units(limit: i64)
    ensures
        Decimal::from_parts(limit as i128, 0).units() == limit * pow(10, 28),
{
    broadcast use lemma_from_parts;

}

/// An amount is blocked exactly when it is more than 100000, counted in units of
/// `10^-28`, and then it is told why.
pub proof fn law_amounts_over_the_limit_are_blocked(amount: Decimal)
    ensures
        assessment(amount).is_blocked <==> amount.units() > 100_000 * pow(10, 28),
        assessment(amount).is_blocked ==> assessment(amount).reason
            == "amount_exceeds_auto_approve_limit"@,
        !assessment(amount).is_blocked ==> assessment(amount).reason.len() == 0,
{
    lemma_whole_units(100_000);
}

/// The risk has four grades, with the limits 1000, 10000 and 100000: 0.01, 0.15,
/// 0.40 and 0.95. It always has four digits after the point.
pub proof fn law_risk_has_four_grades(amount: Decimal)
    ensures
        ({
            let risk = assessment(amount).risk_score;
            &&& risk.scale() == 4
            &&& risk.mantissa() == (if amount.units() > 100_000 * pow(10, 28) {
                9500i128
            } else if amount.units() > 10_000 * pow(10, 28) {
                4000i128
            } else if amount.units() > 1_000 * pow(10, 28) {
                1500i128
            } else {
                100i128
            })
        }),
{
    broadcast use lemma_from_parts;

    lemma_whole_units(100_000);
    lemma_whole_units(10_000);
    lemma_whole_units(1_000);
}

/// The outcome of a check, as contracts see it, has the fields of the outcome.
pub proof fn law_outcome_view_keeps_the_fields(result: FraudResult)
    ensures
        result@.is_blocked == result.is_blocked,
        result@.reason == result.reason@,
        result@.risk_score == result.risk_score,
{
}

} // verus!
