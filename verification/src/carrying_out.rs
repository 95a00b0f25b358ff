//! What it means to carry a transaction out, told by what a run reads and does:
//! whose money moves to whom, what the fraud check is asked, what is stored of a
//! failure, and what is returned.
//!
//! Everything here is said of the rows that were read and of the actions that
//! followed, whatever goes on in between.
use vstd::arithmetic::power::pow;
use vstd::prelude::*;

use crate::audit::{AuditRecordView, Field};
use crate::decimal::Decimal;
use crate::domain::{law_codes_are_told_apart, EntryType, TransactionStatus, TransactionType};
use crate::error::{DbErrorKind, DomainError};
use crate::fraud::{assessment, law_amounts_over_the_limit_are_blocked};
use crate::ident::Uuid;
use crate::movement::{AccountRow, Movement, Write};
use crate::processor::{
    lock_key, Action, ActionView, Event, Job, ProcessError, ProcessingView, Stage, Standing,
    TransactionRow,
};
use crate::text::nat_text;
use crate::trace::{actions, is_run, moves_money, no_money_moved, row_read, state_after};

verus! {

/// What was read of an account: the answer to the last request for its row.
pub open spec fn account_read(
    job: Job<Seq<char>>,
    events: Seq<Event<Seq<char>>>,
    account: Uuid,
) -> Option<AccountRow>
    decreases events.len(),
{
    if events.len() == 0 {
        None
    } else {
        let before = events.drop_last();
        match (actions(job, before).last(), events.last()) {
            (Action::LockAccount(id), Event::Account(row)) => if id == account {
                Some(row)
            } else {
                account_read(job, before, account)
            },
            _ => account_read(job, before, account),
        }
    }
}

/// Whether a row is of a type, by its name.
pub open spec fn is_type(row: TransactionRow<Seq<char>>, name: Seq<char>) -> bool {
    row.transaction_type == Some(name)
}

/// The account that pays: the source of a transfer, of a payment out or of a fee;
/// for a payment in the counter-account that faces the destination.
pub open spec fn payer(row: TransactionRow<Seq<char>>) -> Option<Uuid> {
    if is_type(row, "TRANSFER"@) || is_type(row, "DEBIT"@) || is_type(row, "FEE"@) {
        row.source_account_id
    } else if is_type(row, "CREDIT"@) && row.dest_account_id is Some {
        Some(row.counters.facing(row.dest_account_id->0))
    } else {
        None
    }
}

/// The account that is paid: the destination of a transfer or of a payment in; for
/// a payment out or a fee the counter-account that faces the source.
pub open spec fn payee(row: TransactionRow<Seq<char>>) -> Option<Uuid> {
    if is_type(row, "TRANSFER"@) || is_type(row, "CREDIT"@) {
        row.dest_account_id
    } else if (is_type(row, "DEBIT"@) || is_type(row, "FEE"@)) && row.source_account_id is Some {
        Some(row.counters.facing(row.source_account_id->0))
    } else {
        None
    }
}

/// The number that an event gives for the next ledger entry: none stands for the
/// first.
pub open spec fn number_given(event: Event<Seq<char>>) -> i64 {
    match event {
        Event::Sequence(Some(n)) => n,
        _ => 1,
    }
}

proof fn lemma_types_differ()
    ensures
        "TRANSFER"@ != "CREDIT"@,
        "TRANSFER"@ != "DEBIT"@,
        "TRANSFER"@ != "FEE"@,
        "CREDIT"@ != "DEBIT"@,
        "CREDIT"@ != "FEE"@,
        "DEBIT"@ != "FEE"@,
        ""@ != "TRANSFER"@,
        ""@ != "CREDIT"@,
        ""@ != "DEBIT"@,
        ""@ != "FEE"@,
{
    reveal_strlit("TRANSFER");
    reveal_strlit("CREDIT");
    reveal_strlit("DEBIT");
    reveal_strlit("FEE");
    reveal_strlit("");
    assert("TRANSFER"@.len() == 8 && "CREDIT"@.len() == 6 && "DEBIT"@.len() == 5 && "FEE"@.len()
        == 3 && ""@.len() == 0);
}

proof fn lemma_roles(row: TransactionRow<Seq<char>>)
    ensures
        row.movement() matches Ok(m) ==> {
            &&& payer(row) == Some(m.from())
            &&& payee(row) == Some(m.to())
            &&& (m is Transfer <==> is_type(row, "TRANSFER"@))
            &&& (m is Credit <==> is_type(row, "CREDIT"@))
            &&& (m is Debit <==> is_type(row, "DEBIT"@) || is_type(row, "FEE"@))
            &&& (m is Transfer || row.counters.valid() ==> m.from() != m.to() || (m is Transfer
                && row.source_account_id == row.dest_account_id))
            &&& m matches Movement::Transfer { source, dest } ==> row.source_account_id == Some(
                source,
            ) && row.dest_account_id == Some(dest)
            &&& m matches Movement::Credit { dest, .. } ==> row.dest_account_id == Some(dest)
            &&& m matches Movement::Debit { source, .. } ==> row.source_account_id == Some(source)
        },
        row.movement() is Ok <==> payer(row) is Some && payee(row) is Some,
{
    lemma_types_differ();
}

/// Why a transaction failed, and what is stored and returned, by the event that
/// it failed on.
spec fn explains(
    event: Event<Seq<char>>,
    reason: Seq<char>,
    error: ProcessError<Seq<char>>,
) -> bool {
    match event {
        Event::Fraud(None) => error == ProcessError::<Seq<char>>::FraudCheckTimeout(5) && reason
            == "fraud_check_timeout: no response within "@ + nat_text(5) + "s"@,
        Event::Fraud(Some(result)) => error == ProcessError::FraudBlocked(result.reason) && reason
            == "fraud_blocked: "@ + result.reason,
        Event::Failed(e) => error == ProcessError::Database(e) && reason == "database error: "@
            + e.message,
        Event::Account(_) => error matches ProcessError::Domain(e) && reason == "domain error: "@
            + e.text(),
        _ => error matches ProcessError::Permanent(m) && reason == "permanent failure: "@ + m,
    }
}

/// Whether a plan has seven writes, and each entry comes after the question for its
/// number.
spec fn asks_first(plan: Seq<Write>) -> bool {
    &&& plan.len() == 7
    &&& plan[0] is Balance
    &&& forall|k: int|
        0 <= k < 7 ==> ((#[trigger] plan[k]) is Entry ==> k > 0 && plan[k - 1] is NextSequence) && (
        plan[k] is Audit <==> k == 6)
}

/// Whether the writes of a settlement were asked for up to write `next`, the last
/// of them at place `at` of the actions.
spec fn written(
    job: Job<Seq<char>>,
    events: Seq<Event<Seq<char>>>,
    plan: Seq<Write>,
    next: int,
    at: int,
) -> bool {
    let done = actions(job, events);
    &&& asks_first(plan)
    &&& 0 <= next < 7
    &&& next < at < done.len()
    &&& at - 1 < events.len()
    &&& forall|j: int|
        0 <= j <= next ==> done[at - next + j] == job.action_of(
            #[trigger] plan[j],
            number_given(events[at - next + j - 1]),
        )
}

/// Whether a plan is that of the movement that a row calls for, between the
/// accounts that were read.
spec fn planned(
    job: Job<Seq<char>>,
    events: Seq<Event<Seq<char>>>,
    plan: Seq<Write>,
) -> bool {
    row_read(events) matches Some(row) && row.movement() matches Ok(m) && (m is Transfer
        ==> m.from() != m.to()) && (m.from() != m.to() ==> {
        &&& account_read(job, events, m.first()) is Some
        &&& account_read(job, events, m.second()) is Some
        &&& plan == m.plan(
            row.amount,
            account_read(job, events, m.first())->0,
            account_read(job, events, m.second())->0,
        )
        &&& m.refusal(
            row.amount,
            account_read(job, events, m.first())->0,
            account_read(job, events, m.second())->0,
        ) is None
    })
}

/// Whether the row that was read passed the fraud check: it was read as cleared,
/// or the check of its amount did not block it.
pub open spec fn screened(job: Job<Seq<char>>, events: Seq<Event<Seq<char>>>) -> bool {
    row_read(events) matches Some(row) && (row.compliance_checked == Some(true) || exists|i: int|
        #[trigger] passed_at(job, events, row, i))
}

/// Whether event `i` says that the check of a row's amount did not block it.
pub open spec fn passed_at(
    job: Job<Seq<char>>,
    events: Seq<Event<Seq<char>>>,
    row: TransactionRow<Seq<char>>,
    i: int,
) -> bool {
    &&& 0 <= i < events.len()
    &&& actions(job, events)[i] == (Action::<Seq<char>, AuditRecordView>::CheckFraud {
        id: job.transaction_id,
        amount: row.amount,
    })
    &&& events[i] matches Event::Fraud(Some(result)) && !result.is_blocked
}

/// What is known at each stage of what was read and done.
#[verifier::opaque]
spec fn informed(job: Job<Seq<char>>, events: Seq<Event<Seq<char>>>) -> bool {
    let at = state_after(job, events);
    let done = actions(job, events);
    let row = row_read(events);
    let n = done.len() as int;
    &&& at.job == job
    &&& n == events.len() + 1
    &&& match at.stage {
        Stage::Beginning => n == 1 && done.last() is Begin && row is None,
        Stage::Locking => n == 2 && row is None && done.last() == Action::<
            Seq<char>,
            AuditRecordView,
        >::TryLock(lock_key(job.transaction_id)),
        Stage::Loading => row is None && done.last() == Action::<
            Seq<char>,
            AuditRecordView,
        >::LoadTransaction(job.transaction_id),
        Stage::Claiming(r) => row == Some(r) && r.standing() == Standing::Open && done.last() == (
        Action::<Seq<char>, AuditRecordView>::MarkProcessing {
            id: job.transaction_id,
            worker_id: job.worker_id,
            version: r.version,
        }),
        Stage::Screening(r) => row == Some(r) && !r.cleared() && done.last() == (Action::<
            Seq<char>,
            AuditRecordView,
        >::CheckFraud { id: job.transaction_id, amount: r.amount }),
        Stage::Clearing(r) => row == Some(r) && screened(job, events) && (done.last() matches
            Action::RecordCompliance { id, .. } && id == job.transaction_id),
        Stage::FirstAccount { movement, amount } => {
            &&& row is Some
            &&& row->0.movement() == Ok::<Movement, ProcessError<Seq<char>>>(movement)
            &&& amount == row->0.amount
            &&& screened(job, events)
            &&& done.last() == Action::<Seq<char>, AuditRecordView>::LockAccount(movement.first())
            &&& n > 1 && !(done[n - 2] is LockAccount)
        },
        Stage::SecondAccount { movement, amount, first } => {
            &&& row is Some
            &&& row->0.movement() == Ok::<Movement, ProcessError<Seq<char>>>(movement)
            &&& amount == row->0.amount
            &&& screened(job, events)
            &&& account_read(job, events, movement.first()) == Some(first)
            &&& done.last() == Action::<Seq<char>, AuditRecordView>::LockAccount(movement.second())
            &&& n > 1 && done[n - 2] is LockAccount
        },
        Stage::Writing { plan, next, .. } => {
            &&& planned(job, events, plan)
            &&& screened(job, events)
            &&& written(job, events, plan, next as int, n - 1)
            &&& n > 2 && !(done[n - 2] is MarkFailed)
        },
        Stage::Settling => {
            &&& exists|plan: Seq<Write>| planned(job, events, plan) && #[trigger] written(
                job,
                events,
                plan,
                6,
                n - 2,
            )
            &&& done.last() == Action::<Seq<char>, AuditRecordView>::MarkSettled(job.transaction_id)
        },
        Stage::Failing { reason, error } => {
            &&& n > 1
            &&& explains(events[n - 2], reason, error)
            &&& done.last() == (Action::<Seq<char>, AuditRecordView>::MarkFailed {
                id: job.transaction_id,
                reason,
            })
        },
        Stage::RecordingFailure(error) => {
            &&& n > 2
            &&& done[n - 2] matches Action::MarkFailed { reason, .. } && explains(
                events[n - 3],
                reason,
                error,
            )
            &&& done.last() is RecordAudit
        },
        Stage::Resetting(error) => {
            &&& n > 1
            &&& events[n - 2] matches Event::Failed(e) && error == ProcessError::Database(e)
            &&& done.last() is ResetToPending
        },
        Stage::Committing(Ok(_)) => n > 1 && done.last() is Commit && done[n - 2] is MarkSettled,
        Stage::Committing(Err(error)) => {
            &&& n > 3
            &&& done.last() is Commit
            &&& (done[n - 3] matches Action::MarkFailed { reason, .. } && done[n - 2] is RecordAudit
                && explains(events[n - 4], reason, error)) || (done[n - 2] is ResetToPending && (
            events[n - 3] matches Event::Failed(e) && error == ProcessError::Database(e)))
        },
        Stage::RollingBack(outcome) => {
            &&& n > 2
            &&& done.last() is Rollback
            &&& match (done[n - 2], events[n - 2]) {
                (Action::TryLock(_), _) => outcome == Ok::<(), ProcessError<Seq<char>>>(()),
                (Action::LoadTransaction(_), Event::Transaction(Some(r))) => r.standing()
                    != Standing::Open && (outcome is Ok <==> r.standing() == Standing::Done) && (
                outcome is Err ==> outcome == Err::<
                    (),
                    ProcessError<Seq<char>>,
                >(
                    ProcessError::Permanent(
                        "transaction "@ + job.transaction_id.text() + " is in FAILED state"@,
                    ),
                )),
                (Action::MarkProcessing { version, .. }, _) => outcome == Err::<
                    (),
                    ProcessError<Seq<char>>,
                >(
                    ProcessError::Domain(
                        DomainError::OptimisticLockConflict {
                            entity: "Transaction"@,
                            id: job.transaction_id,
                            expected: version,
                            actual: (version + 1) as i64,
                        },
                    ),
                ),
                _ => false,
            }
        },
        Stage::Finished => done.last() is Return,
    }
}

/// An action, an account's row and a passed check stay what they were when
/// another event comes.
proof fn lemma_prefix(job: Job<Seq<char>>, events: Seq<Event<Seq<char>>>)
    requires
        events.len() > 0,
        actions(job, events.drop_last()).len() == events.len(),
    ensures
        actions(job, events).len() == events.len() + 1,
        forall|i: int|
            0 <= i < events.len() ==> #[trigger] actions(job, events)[i] == actions(
                job,
                events.drop_last(),
            )[i],
        !(events.last() is Transaction) && screened(job, events.drop_last()) ==> screened(
            job,
            events,
        ),
{
    let before = events.drop_last();
    if screened(job, before) && !(events.last() is Transaction) {
        let row = row_read(before)->0;
        assert(row_read(events) == Some(row));
        if row.compliance_checked != Some(true) {
            let i = choose|i: int| #[trigger] passed_at(job, before, row, i);
            assert(passed_at(job, events, row, i));
        }
    }
}

proof fn lemma_written_more(
    job: Job<Seq<char>>,
    events: Seq<Event<Seq<char>>>,
    plan: Seq<Write>,
    next: int,
)
    requires
        events.len() > 1,
        actions(job, events.drop_last()).len() == events.len(),
        written(job, events.drop_last(), plan, next, events.len() - 1),
    ensures
        written(job, events, plan, next, events.len() - 1),
        next < 6 && actions(job, events).last() == job.action_of(
            plan[next + 1],
            number_given(events.last()),
        ) ==> written(job, events, plan, next + 1, events.len() as int),
{
    let before = events.drop_last();
    lemma_prefix(job, events);
    let done = actions(job, events);
    let at = events.len() - 1;
    assert forall|j: int| 0 <= j <= next implies done[at - next + j] == job.action_of(
        #[trigger] plan[j],
        number_given(events[at - next + j - 1]),
    ) by {
        assert(events[at - next + j - 1] == before[at - next + j - 1]);
    }
    if next < 6 && done.last() == job.action_of(plan[next + 1], number_given(events.last())) {
        assert forall|j: int| 0 <= j <= next + 1 implies done[at + 1 - (next + 1) + j]
            == job.action_of(
            #[trigger] plan[j],
            number_given(events[at + 1 - (next + 1) + j - 1]),
        ) by {
            if j <= next {
                assert(done[at - next + j] == job.action_of(
                    plan[j],
                    number_given(events[at - next + j - 1]),
                ));
            }
        }
    }
}

#[verifier::rlimit(50)]
#[verifier::spinoff_prover]
proof fn lemma_informed_start(job: Job<Seq<char>>, events: Seq<Event<Seq<char>>>)
    requires
        events.len() > 0,
        is_run(job, events),
        informed(job, events.drop_last()),
        state_after(job, events.drop_last()).stage is Beginning || state_after(job, events.drop_last()).stage is Locking || state_after(job, events.drop_last()).stage is Loading,
    ensures
        informed(job, events),
{
    reveal(informed);
    let before = events.drop_last();
    lemma_prefix(job, events);
    let at = state_after(job, before);
    let event = events.last();
    assert(events[events.len() - 1] == event);
}

#[verifier::rlimit(50)]
#[verifier::spinoff_prover]
proof fn lemma_informed_claim(job: Job<Seq<char>>, events: Seq<Event<Seq<char>>>)
    requires
        events.len() > 0,
        is_run(job, events),
        informed(job, events.drop_last()),
        state_after(job, events.drop_last()).stage is Claiming,
    ensures
        informed(job, events),
{
    reveal(informed);
    let before = events.drop_last();
    lemma_prefix(job, events);
    let at = state_after(job, before);
    let event = events.last();
    assert(events[events.len() - 1] == event);
}

#[verifier::rlimit(50)]
#[verifier::spinoff_prover]
proof fn lemma_informed_screening(job: Job<Seq<char>>, events: Seq<Event<Seq<char>>>)
    requires
        events.len() > 0,
        is_run(job, events),
        informed(job, events.drop_last()),
        state_after(job, events.drop_last()).stage is Screening || state_after(job, events.drop_last()).stage is Clearing,
    ensures
        informed(job, events),
{
    reveal(informed);
    let before = events.drop_last();
    lemma_prefix(job, events);
    let at = state_after(job, before);
    let event = events.last();
    assert(events[events.len() - 1] == event);
    if let (Stage::Screening(row), Event::Fraud(Some(result))) = (at.stage, event) {
        if !result.is_blocked {
            assert(passed_at(job, events, row, events.len() - 1));
        }
    }
}

#[verifier::rlimit(50)]
#[verifier::spinoff_prover]
proof fn lemma_informed_accounts(job: Job<Seq<char>>, events: Seq<Event<Seq<char>>>)
    requires
        events.len() > 0,
        is_run(job, events),
        informed(job, events.drop_last()),
        state_after(job, events.drop_last()).stage is FirstAccount || state_after(job, events.drop_last()).stage is SecondAccount,
    ensures
        informed(job, events),
{
    reveal(informed);
    let before = events.drop_last();
    lemma_prefix(job, events);
    let at = state_after(job, before);
    let event = events.last();
    assert(events[events.len() - 1] == event);
    if let (Stage::SecondAccount { movement, amount, first }, Event::Account(second)) = (
        at.stage,
        event,
    ) {
        let plan = movement.plan(amount, first, second);
        if movement.refusal(amount, first, second) is None {
            assert(planned(job, events, plan));
            assert(asks_first(plan));
            assert(written(job, events, plan, 0, events.len() as int));
        }
    }
}

#[verifier::rlimit(50)]
#[verifier::spinoff_prover]
proof fn lemma_informed_writing(job: Job<Seq<char>>, events: Seq<Event<Seq<char>>>)
    requires
        events.len() > 0,
        is_run(job, events),
        informed(job, events.drop_last()),
        state_after(job, events.drop_last()).stage is Writing,
    ensures
        informed(job, events),
{
    reveal(informed);
    let before = events.drop_last();
    lemma_prefix(job, events);
    let at = state_after(job, before);
    let event = events.last();
    assert(events[events.len() - 1] == event);
    if let Stage::Writing { plan, next, sequence } = at.stage {
        if next < 6 && event is Done {
            assert(!(plan[next + 1] is Entry)) by {
                if plan[next + 1] is Entry {
                    assert(plan[next + 1 - 1] is NextSequence);
                }
            }
            assert(job.action_of(plan[next + 1], sequence) == job.action_of(
                plan[next + 1],
                number_given(event),
            ));
        }
        lemma_written_more(job, events, plan, next as int);
        if !(event is Failed) {
            assert(planned(job, events, plan));
        }
    }
}

#[verifier::rlimit(50)]
#[verifier::spinoff_prover]
proof fn lemma_informed_end(job: Job<Seq<char>>, events: Seq<Event<Seq<char>>>)
    requires
        events.len() > 0,
        is_run(job, events),
        informed(job, events.drop_last()),
        ({
            let stage = state_after(job, events.drop_last()).stage;
            ||| stage is Settling
            ||| stage is Failing
            ||| stage is RecordingFailure
            ||| stage is Resetting
            ||| stage is Committing
            ||| stage is RollingBack
        }),
    ensures
        informed(job, events),
{
    reveal(informed);
    let before = events.drop_last();
    lemma_prefix(job, events);
    let at = state_after(job, before);
    let event = events.last();
    assert(events[events.len() - 1] == event);
}

proof fn lemma_informed(job: Job<Seq<char>>, events: Seq<Event<Seq<char>>>)
    requires
        is_run(job, events),
    ensures
        informed(job, events),
    decreases events.len(),
{
    reveal(informed);
    if events.len() > 0 {
        lemma_informed(job, events.drop_last());
        match state_after(job, events.drop_last()).stage {
            Stage::Beginning | Stage::Locking | Stage::Loading => {
                lemma_informed_start(job, events);
            },
            Stage::Claiming(_) => {
                lemma_informed_claim(job, events);
            },
            Stage::Screening(_) | Stage::Clearing(_) => {
                lemma_informed_screening(job, events);
            },
            Stage::FirstAccount { .. } | Stage::SecondAccount { .. } => {
                lemma_informed_accounts(job, events);
            },
            Stage::Writing { .. } => {
                lemma_informed_writing(job, events);
            },
            Stage::Finished => {},
            _ => {
                lemma_informed_end(job, events);
            },
        }
    }
}

/// Whether the actions before place `end` are those of a payment of `amount` from
/// one account to another: the payer's balance falls and the payee's rises, from
/// what was read of them, and the ledger gets a debit of the payer and a credit of
/// the payee with the new balances, under the numbers that were given. Where
/// `versioned`, the balances are written only to the versions that were read.
pub open spec fn pays(
    job: Job<Seq<char>>,
    events: Seq<Event<Seq<char>>>,
    end: int,
    payer: Uuid,
    payee: Uuid,
    amount: Decimal,
    versioned: bool,
) -> bool {
    let done = actions(job, events);
    account_read(job, events, payer) matches Some(from) && account_read(job, events, payee) matches
        Some(to) && {
        let lower = from.balance.difference(amount)->0;
        let higher = to.balance.sum(amount)->0;
        &&& payer != payee
        &&& 6 < end <= done.len()
        &&& done[end - 6] == (Action::<Seq<char>, AuditRecordView>::UpdateBalance {
            account_id: payer,
            balance: lower,
            expected_version: if versioned {
                Some(from.version)
            } else {
                None
            },
        })
        &&& done[end - 5] == (Action::<Seq<char>, AuditRecordView>::UpdateBalance {
            account_id: payee,
            balance: higher,
            expected_version: if versioned {
                Some(to.version)
            } else {
                None
            },
        })
        &&& done[end - 4] == (Action::<Seq<char>, AuditRecordView>::ReadSequence { account_id: payer })
        &&& done[end - 3] == (Action::<Seq<char>, AuditRecordView>::InsertLedgerEntry {
            transaction_id: job.transaction_id,
            account_id: payer,
            entry_type: EntryType::Debit,
            amount,
            running_balance: lower,
            sequence_num: number_given(events[end - 4]),
        })
        &&& done[end - 2] == (Action::<Seq<char>, AuditRecordView>::ReadSequence { account_id: payee })
        &&& done[end - 1] == (Action::<Seq<char>, AuditRecordView>::InsertLedgerEntry {
            transaction_id: job.transaction_id,
            account_id: payee,
            entry_type: EntryType::Credit,
            amount,
            running_balance: higher,
            sequence_num: number_given(events[end - 2]),
        })
    }
}

/// Whether a record says that a transaction was settled.
pub open spec fn tells_settlement(job: Job<Seq<char>>, entry: AuditRecordView) -> bool {
    &&& entry.entity_type == "Transaction"@
    &&& entry.entity_id == job.transaction_id
    &&& entry.action == "SETTLED"@
    &&& entry.old_state is None
    &&& entry.actor_id == "worker"@
    &&& entry.actor_type == "WORKER"@
    &&& entry.correlation_id == job.correlation_id
}

/// The writes are over when the status is set.
proof fn lemma_writes_are_over(job: Job<Seq<char>>, events: Seq<Event<Seq<char>>>) -> (plan: Seq<
    Write,
>)
    requires
        is_run(job, events),
        actions(job, events).last() is MarkSettled,
    ensures
        planned(job, events, plan),
        written(job, events, plan, 6, actions(job, events).len() - 2),
        actions(job, events).last() == Action::<Seq<char>, AuditRecordView>::MarkSettled(job.transaction_id),
        actions(job, events).len() == events.len() + 1,
{
    reveal(informed);
    lemma_informed(job, events);
    if let Stage::Writing { plan, next, .. } = state_after(job, events).stage {
        let n = actions(job, events).len() as int;
        assert(actions(job, events)[n - 1] == job.action_of(
            plan[next as int],
            number_given(events[n - 2]),
        ));
        assert(false);
    }
    choose|plan: Seq<Write>| planned(job, events, plan) && #[trigger] written(
        job,
        events,
        plan,
        6,
        actions(job, events).len() - 2,
    )
}

/// What the writes of a plan are.
proof fn lemma_plan_parts(
    m: Movement,
    amount: Decimal,
    first: AccountRow,
    second: AccountRow,
    from: AccountRow,
    to: AccountRow,
)
    requires
        from == m.row_of(m.from(), first, second),
        to == m.row_of(m.to(), first, second),
    ensures
        ({
            let plan = m.plan(amount, first, second);
            let lower = from.balance.difference(amount)->0;
            let higher = to.balance.sum(amount)->0;
            &&& plan[0] == (Write::Balance {
                account_id: m.from(),
                balance: lower,
                version: if m is Transfer {
                    Some(from.version)
                } else {
                    None
                },
            })
            &&& plan[1] == (Write::Balance {
                account_id: m.to(),
                balance: higher,
                version: if m is Transfer {
                    Some(to.version)
                } else {
                    None
                },
            })
            &&& plan[2] == (Write::NextSequence { account_id: m.from() })
            &&& plan[3] == (Write::Entry {
                account_id: m.from(),
                entry_type: EntryType::Debit,
                amount,
                running_balance: lower,
            })
            &&& plan[4] == (Write::NextSequence { account_id: m.to() })
            &&& plan[5] == (Write::Entry {
                account_id: m.to(),
                entry_type: EntryType::Credit,
                amount,
                running_balance: higher,
            })
            &&& plan[6] == (Write::Audit { movement: m, amount })
        }),
{
}

/// The writes of a settlement, as they stand before the status is set.
proof fn lemma_settled(job: Job<Seq<char>>, events: Seq<Event<Seq<char>>>)
    requires
        is_run(job, events),
        actions(job, events).last() is MarkSettled,
    ensures
        row_read(events) is Some,
        row_read(events)->0.movement() is Ok,
        actions(job, events).last() == Action::<Seq<char>, AuditRecordView>::MarkSettled(job.transaction_id),
        ({
            let row = row_read(events)->0;
            let m = row.movement()->Ok_0;
            let n = actions(job, events).len() as int;
            (m is Transfer ==> m.from() != m.to()) && (m.from() != m.to() ==> {
                &&& pays(job, events, n - 2, m.from(), m.to(), row.amount, m is Transfer)
                &&& actions(job, events)[n - 2] == job.action_of(
                    Write::Audit { movement: m, amount: row.amount },
                    1,
                )
                &&& m.refusal(
                    row.amount,
                    account_read(job, events, m.first())->0,
                    account_read(job, events, m.second())->0,
                ) is None
            })
        }),
{
    let plan = lemma_writes_are_over(job, events);
    let n = actions(job, events).len() as int;
    let done = actions(job, events);
    let row = row_read(events)->0;
    let m = row.movement()->Ok_0;
    if m.from() != m.to() {
        let from = account_read(job, events, m.from())->0;
        let to = account_read(job, events, m.to())->0;
        lemma_plan_parts(
            m,
            row.amount,
            account_read(job, events, m.first())->0,
            account_read(job, events, m.second())->0,
            from,
            to,
        );
        assert(done[n - 8] == job.action_of(plan[0], number_given(events[n - 9])));
        assert(done[n - 7] == job.action_of(plan[1], number_given(events[n - 8])));
        assert(done[n - 6] == job.action_of(plan[2], number_given(events[n - 7])));
        assert(done[n - 5] == job.action_of(plan[3], number_given(events[n - 6])));
        assert(done[n - 4] == job.action_of(plan[4], number_given(events[n - 5])));
        assert(done[n - 3] == job.action_of(plan[5], number_given(events[n - 4])));
        assert(done[n - 2] == job.action_of(plan[6], number_given(events[n - 3])));
    }
}

/// A transfer takes its amount from the source account and gives it to the
/// destination account, whatever the order of the two identifiers. The accounts
/// differ, both were active, and the source had the amount.
pub proof fn law_transfer_goes_from_source_to_destination(
    job: Job<Seq<char>>,
    events: Seq<Event<Seq<char>>>,
    row: TransactionRow<Seq<char>>,
    source: Uuid,
    dest: Uuid,
)
    requires
        is_run(job, events),
        actions(job, events).last() is MarkSettled,
        row_read(events) == Some(row),
        row.transaction_type == Some("TRANSFER"@),
        row.source_account_id == Some(source),
        row.dest_account_id == Some(dest),
    ensures
        ({
            let done = actions(job, events);
            let n = done.len() as int;
            let from = account_read(job, events, source)->0;
            let to = account_read(job, events, dest)->0;
            &&& source != dest
            &&& pays(job, events, n - 2, source, dest, row.amount, true)
            &&& from.is_active && to.is_active
            &&& from.balance.units() >= row.amount.units()
            &&& done[n - 2] matches Action::RecordAudit(entry) && tells_settlement(job, entry)
                && entry.new_state == seq![
                Field { name: "type"@, value: "TRANSFER"@ },
                Field { name: "amount"@, value: row.amount.text() },
                Field { name: "source_account_id"@, value: source.text() },
                Field { name: "dest_account_id"@, value: dest.text() },
                Field { name: "status"@, value: "SETTLED"@ },
            ]
            &&& done.last() == Action::<Seq<char>, AuditRecordView>::MarkSettled(job.transaction_id)
        }),
{
    lemma_roles(row);
    lemma_settled(job, events);
    let n = actions(job, events).len() as int;
    assert(actions(job, events)[n - 2]->RecordAudit_0.new_state =~= seq![
        Field { name: "type"@, value: "TRANSFER"@ },
        Field { name: "amount"@, value: row.amount.text() },
        Field { name: "source_account_id"@, value: source.text() },
        Field { name: "dest_account_id"@, value: dest.text() },
        Field { name: "status"@, value: "SETTLED"@ },
    ]);
}

/// Where the arithmetic is exact, a transfer lowers the balance of its source by
/// the amount and raises the balance of its destination by the amount.
pub proof fn law_source_falls_and_destination_rises(
    job: Job<Seq<char>>,
    events: Seq<Event<Seq<char>>>,
    row: TransactionRow<Seq<char>>,
    source: Uuid,
    dest: Uuid,
    from: AccountRow,
    to: AccountRow,
)
    requires
        is_run(job, events),
        actions(job, events).last() is MarkSettled,
        row_read(events) == Some(row),
        row.transaction_type == Some("TRANSFER"@),
        row.source_account_id == Some(source),
        row.dest_account_id == Some(dest),
        account_read(job, events, source) == Some(from),
        account_read(job, events, dest) == Some(to),
        from.balance.difference(row.amount)->0.units() == from.balance.units() - row.amount.units(),
        to.balance.sum(row.amount)->0.units() == to.balance.units() + row.amount.units(),
    ensures
        exists|i: int|
            0 <= i < actions(job, events).len() && (#[trigger] actions(job, events)[i] matches
                Action::UpdateBalance { account_id, balance, .. } && account_id == source
                && balance.units() == from.balance.units() - row.amount.units()),
        exists|i: int|
            0 <= i < actions(job, events).len() && (#[trigger] actions(job, events)[i] matches
                Action::UpdateBalance { account_id, balance, .. } && account_id == dest
                && balance.units() == to.balance.units() + row.amount.units()),
{
    law_transfer_goes_from_source_to_destination(job, events, row, source, dest);
    let n = actions(job, events).len() as int;
    let lower = from.balance.difference(row.amount)->0;
    let higher = to.balance.sum(row.amount)->0;
    assert(actions(job, events)[n - 8] == (Action::<Seq<char>, AuditRecordView>::UpdateBalance {
        account_id: source,
        balance: lower,
        expected_version: Some(from.version),
    }));
    assert(actions(job, events)[n - 7] == (Action::<Seq<char>, AuditRecordView>::UpdateBalance {
        account_id: dest,
        balance: higher,
        expected_version: Some(to.version),
    }));
}

/// A payment in gives its amount to the destination account, and takes it from the
/// counter-account. The destination was active; the counter-account is not asked.
pub proof fn law_payment_in_goes_to_the_destination(
    job: Job<Seq<char>>,
    events: Seq<Event<Seq<char>>>,
    row: TransactionRow<Seq<char>>,
    dest: Uuid,
)
    requires
        is_run(job, events),
        actions(job, events).last() is MarkSettled,
        row_read(events) == Some(row),
        row.counters.valid(),
        row.transaction_type == Some("CREDIT"@),
        row.dest_account_id == Some(dest),
    ensures
        ({
            let done = actions(job, events);
            let n = done.len() as int;
            let counter = if dest == row.counters.usual() {
                row.counters.reserve()
            } else {
                row.counters.usual()
            };
            &&& pays(job, events, n - 2, counter, dest, row.amount, false)
            &&& account_read(job, events, dest)->0.is_active
            &&& done[n - 2] matches Action::RecordAudit(entry) && tells_settlement(job, entry)
                && entry.new_state == seq![
                Field { name: "type"@, value: "CREDIT"@ },
                Field { name: "amount"@, value: row.amount.text() },
                Field { name: "dest_account_id"@, value: dest.text() },
                Field { name: "status"@, value: "SETTLED"@ },
            ]
            &&& done.last() == Action::<Seq<char>, AuditRecordView>::MarkSettled(job.transaction_id)
        }),
{
    lemma_roles(row);
    lemma_types_differ();
    lemma_settled(job, events);
    let n = actions(job, events).len() as int;
    assert(actions(job, events)[n - 2]->RecordAudit_0.new_state =~= seq![
        Field { name: "type"@, value: "CREDIT"@ },
        Field { name: "amount"@, value: row.amount.text() },
        Field { name: "dest_account_id"@, value: dest.text() },
        Field { name: "status"@, value: "SETTLED"@ },
    ]);
}

/// A payment out, and a fee, takes its amount from the source account, which was
/// active and had it, and gives it to the counter-account.
pub proof fn law_payment_out_comes_from_the_source(
    job: Job<Seq<char>>,
    events: Seq<Event<Seq<char>>>,
    row: TransactionRow<Seq<char>>,
    source: Uuid,
)
    requires
        is_run(job, events),
        actions(job, events).last() is MarkSettled,
        row_read(events) == Some(row),
        row.counters.valid(),
        row.transaction_type == Some("DEBIT"@) || row.transaction_type == Some("FEE"@),
        row.source_account_id == Some(source),
    ensures
        ({
            let done = actions(job, events);
            let n = done.len() as int;
            let from = account_read(job, events, source)->0;
            let counter = if source == row.counters.usual() {
                row.counters.reserve()
            } else {
                row.counters.usual()
            };
            &&& pays(job, events, n - 2, source, counter, row.amount, false)
            &&& from.is_active
            &&& from.balance.units() >= row.amount.units()
            &&& done[n - 2] matches Action::RecordAudit(entry) && tells_settlement(job, entry)
                && entry.new_state == seq![
                Field { name: "type"@, value: "DEBIT"@ },
                Field { name: "amount"@, value: row.amount.text() },
                Field { name: "source_account_id"@, value: source.text() },
                Field { name: "status"@, value: "SETTLED"@ },
            ]
            &&& done.last() == Action::<Seq<char>, AuditRecordView>::MarkSettled(job.transaction_id)
        }),
{
    lemma_roles(row);
    lemma_types_differ();
    lemma_settled(job, events);
    let n = actions(job, events).len() as int;
    assert(actions(job, events)[n - 2]->RecordAudit_0.new_state =~= seq![
        Field { name: "type"@, value: "DEBIT"@ },
        Field { name: "amount"@, value: row.amount.text() },
        Field { name: "source_account_id"@, value: source.text() },
        Field { name: "status"@, value: "SETTLED"@ },
    ]);
}

/// The last action tells the stage.
proof fn lemma_stage(job: Job<Seq<char>>, events: Seq<Event<Seq<char>>>)
    requires
        is_run(job, events),
    ensures
        ({
            let at = state_after(job, events);
            let done = actions(job, events);
            let n = done.len() as int;
            let row = row_read(events);
            &&& at.job == job
            &&& n == events.len() + 1
            &&& done.last() is Begin ==> at.stage is Beginning
            &&& done.last() is TryLock ==> at.stage is Locking && done.last() == Action::<Seq<char>, AuditRecordView>::TryLock(
                lock_key(job.transaction_id),
            )
            &&& done.last() is LoadTransaction ==> at.stage is Loading && done.last()
                == Action::<Seq<char>, AuditRecordView>::LoadTransaction(job.transaction_id)
            &&& done.last() is MarkProcessing ==> row is Some && at.stage == Stage::<
                Seq<char>,
                Seq<Write>,
            >::Claiming(row->0) && row->0.standing() == Standing::Open && done.last() == (
            Action::<Seq<char>, AuditRecordView>::MarkProcessing {
                id: job.transaction_id,
                worker_id: job.worker_id,
                version: row->0.version,
            })
            &&& done.last() is CheckFraud ==> row is Some && at.stage == Stage::<
                Seq<char>,
                Seq<Write>,
            >::Screening(row->0) && !row->0.cleared() && done.last() == (Action::<Seq<char>, AuditRecordView>::CheckFraud {
                id: job.transaction_id,
                amount: row->0.amount,
            })
            &&& done.last() is RecordCompliance ==> row is Some && at.stage == Stage::<
                Seq<char>,
                Seq<Write>,
            >::Clearing(row->0)
            &&& done.last() is UpdateBalance ==> at.stage is Writing
            &&& done.last() is ReadSequence ==> at.stage is Writing
            &&& done.last() is InsertLedgerEntry ==> at.stage is Writing
            &&& done.last() is RecordAudit ==> n > 2 && (if done[n - 2] is MarkFailed {
                at.stage is RecordingFailure
            } else {
                at.stage is Writing
            })
            &&& done.last() is MarkSettled ==> at.stage is Settling
            &&& done.last() is MarkFailed ==> n > 1 && (at.stage matches Stage::Failing {
                reason,
                error,
            } && explains(events[n - 2], reason, error) && done.last() == (Action::<Seq<char>, AuditRecordView>::MarkFailed {
                id: job.transaction_id,
                reason,
            }))
            &&& done.last() is ResetToPending ==> at.stage is Resetting
            &&& done.last() is Commit ==> at.stage is Committing
            &&& done.last() is Rollback ==> at.stage is RollingBack
            &&& done.last() is Return ==> at.stage is Finished
        }),
{
    reveal(informed);
    lemma_informed(job, events);
    if let Stage::Writing { plan, next, .. } = state_after(job, events).stage {
        let n = actions(job, events).len() as int;
        assert(actions(job, events)[n - 1] == job.action_of(
            plan[next as int],
            number_given(events[n - 2]),
        ));
    }
}

/// The last two actions tell which account is being locked.
proof fn lemma_account_stage(job: Job<Seq<char>>, events: Seq<Event<Seq<char>>>)
    requires
        is_run(job, events),
        actions(job, events).last() is LockAccount,
    ensures
        ({
            let at = state_after(job, events);
            let done = actions(job, events);
            let n = done.len() as int;
            let row = row_read(events);
            &&& n > 1
            &&& row is Some
            &&& screened(job, events)
            &&& row->0.movement() matches Ok(m) && if done[n - 2] is LockAccount {
                (at.stage matches Stage::SecondAccount { movement, amount, first } && movement == m
                    && amount == row->0.amount && account_read(job, events, m.first()) == Some(
                    first,
                )) && done.last() == Action::<Seq<char>, AuditRecordView>::LockAccount(m.second())
            } else {
                (at.stage matches Stage::FirstAccount { movement, amount } && movement == m && amount
                    == row->0.amount) && done.last() == Action::<Seq<char>, AuditRecordView>::LockAccount(m.first())
            }
        }),
{
    reveal(informed);
    lemma_informed(job, events);
    if let Stage::Writing { plan, next, .. } = state_after(job, events).stage {
        let n = actions(job, events).len() as int;
        assert(actions(job, events)[n - 1] == job.action_of(
            plan[next as int],
            number_given(events[n - 2]),
        ));
    }
}

/// Whoever does not get the lock leaves the transaction alone; the lock's key
/// depends on both halves of the identifier.
pub proof fn law_only_the_lock_holder_goes_on(job: Job<Seq<char>>, events: Seq<Event<Seq<char>>>)
    requires
        is_run(job, events),
        events.len() > 0,
    ensures
        ({
            let asked = actions(job, events.drop_last()).last();
            let then = actions(job, events).last();
            let id = job.transaction_id.value;
            &&& asked is Begin && events.last() is Done ==> (then matches Action::TryLock(key) && (
            key as u64) ^ (id as u64) == (id >> 64) as u64)
            &&& asked is TryLock && events.last() == Event::<Seq<char>>::Lock(Some(true)) ==> then
                == Action::<Seq<char>, AuditRecordView>::LoadTransaction(job.transaction_id)
            &&& asked is TryLock && events.last() is Lock && events.last() != Event::<
                Seq<char>,
            >::Lock(Some(true)) ==> then is Rollback
        }),
{
    lemma_stage(job, events.drop_last());
    let id = job.transaction_id.value;
    let low = id as u64;
    let high = (id >> 64) as u64;
    assert((((high ^ low) as i64) as u64) ^ low == high) by (bit_vector);
}

/// The status of the row decides whether it is taken up: one that is settled or
/// reversed is left alone, one that failed is an error, and any other is claimed
/// in the version that was read. A missing transaction is an error.
pub proof fn law_status_decides(job: Job<Seq<char>>, events: Seq<Event<Seq<char>>>)
    requires
        is_run(job, events),
        events.len() > 0,
        actions(job, events.drop_last()).last() is LoadTransaction,
        events.last() is Transaction,
    ensures
        ({
            let asked = actions(job, events.drop_last()).last();
            let then = actions(job, events).last();
            &&& asked == Action::<Seq<char>, AuditRecordView>::LoadTransaction(job.transaction_id)
            &&& match events.last()->Transaction_0 {
                None => then == Action::<Seq<char>, AuditRecordView>::Return(Err(ProcessError::NotFound(job.transaction_id))),
                Some(row) => if row.status == Some("SETTLED"@) || row.status == Some("REVERSED"@)
                    || row.status == Some("FAILED"@) {
                    then is Rollback
                } else {
                    then == (Action::<Seq<char>, AuditRecordView>::MarkProcessing {
                        id: job.transaction_id,
                        worker_id: job.worker_id,
                        version: row.version,
                    })
                },
            }
        }),
{
    lemma_stage(job, events.drop_last());
}

/// A run that rolled back returns success where there was nothing to do, and an
/// error where the transaction had failed before or was changed by somebody else.
pub proof fn law_rolled_back_run_says_why(job: Job<Seq<char>>, events: Seq<Event<Seq<char>>>)
    requires
        is_run(job, events),
        events.len() > 1,
        actions(job, events.drop_last()).last() is Rollback,
    ensures
        ({
            let n = events.len() as int;
            let then = actions(job, events).last();
            match (actions(job, events)[n - 2], events[n - 2]) {
                (Action::TryLock(_), _) => then == Action::<Seq<char>, AuditRecordView>::Return(Ok(())),
                (Action::LoadTransaction(_), Event::Transaction(Some(row))) => if row.status == Some(
                    "FAILED"@,
                ) {
                    then == Action::<Seq<char>, AuditRecordView>::Return(
                        Err(
                            ProcessError::Permanent(
                                "transaction "@ + job.transaction_id.text()
                                    + " is in FAILED state"@,
                            ),
                        ),
                    )
                } else {
                    then == Action::<Seq<char>, AuditRecordView>::Return(Ok(())) && (row.status == Some("SETTLED"@) || row.status
                        == Some("REVERSED"@))
                },
                (Action::MarkProcessing { version, .. }, _) => then == Action::<Seq<char>, AuditRecordView>::Return(
                    Err(
                        ProcessError::Domain(
                            DomainError::OptimisticLockConflict {
                                entity: "Transaction"@,
                                id: job.transaction_id,
                                expected: version,
                                actual: (version + 1) as i64,
                            },
                        ),
                    ),
                ),
                _ => false,
            }
        }),
{
    let before = events.drop_last();
    lemma_rolling_back(job, before);
    lemma_prefix(job, events);
    reveal_strlit("SETTLED");
    reveal_strlit("REVERSED");
    reveal_strlit("FAILED");
    assert("SETTLED"@.len() == 7 && "REVERSED"@.len() == 8 && "FAILED"@.len() == 6);
    let n = events.len() as int;
    assert(before[n - 2] == events[n - 2]);
}

/// Why a run rolls back.
proof fn lemma_rolling_back(job: Job<Seq<char>>, events: Seq<Event<Seq<char>>>)
    requires
        is_run(job, events),
        actions(job, events).last() is Rollback,
    ensures
        ({
            let n = actions(job, events).len() as int;
            &&& n == events.len() + 1
            &&& n > 2
            &&& state_after(job, events).stage matches Stage::RollingBack(outcome) && match (
                actions(job, events)[n - 2],
                events[n - 2],
            ) {
                (Action::TryLock(_), _) => outcome == Ok::<(), ProcessError<Seq<char>>>(()),
                (Action::LoadTransaction(_), Event::Transaction(Some(r))) => {
                    &&& r.standing() != Standing::Open
                    &&& outcome is Ok <==> r.standing() == Standing::Done
                    &&& outcome is Err ==> outcome == Err::<(), ProcessError<Seq<char>>>(
                        ProcessError::Permanent(
                            "transaction "@ + job.transaction_id.text() + " is in FAILED state"@,
                        ),
                    )
                },
                (Action::MarkProcessing { version, .. }, _) => outcome == Err::<
                    (),
                    ProcessError<Seq<char>>,
                >(
                    ProcessError::Domain(
                        DomainError::OptimisticLockConflict {
                            entity: "Transaction"@,
                            id: job.transaction_id,
                            expected: version,
                            actual: (version + 1) as i64,
                        },
                    ),
                ),
                _ => false,
            }
        }),
{
    reveal(informed);
    lemma_informed(job, events);
    if let Stage::Writing { plan, next, .. } = state_after(job, events).stage {
        let n = actions(job, events).len() as int;
        assert(actions(job, events)[n - 1] == job.action_of(
            plan[next as int],
            number_given(events[n - 2]),
        ));
    }
}

/// A transaction is taken up only where its version was still the one that was
/// read. Then it goes to the fraud check with its own amount, unless it was read
/// as cleared.
pub proof fn law_claimed_transaction_is_screened(
    job: Job<Seq<char>>,
    events: Seq<Event<Seq<char>>>,
    row: TransactionRow<Seq<char>>,
    changed: u64,
)
    requires
        is_run(job, events),
        events.len() > 0,
        actions(job, events.drop_last()).last() is MarkProcessing,
        events.last() == Event::<Seq<char>>::RowsAffected(changed),
        row_read(events) == Some(row),
    ensures
        ({
            let then = actions(job, events).last();
            &&& changed == 0 ==> then is Rollback
            &&& changed > 0 && row.compliance_checked != Some(true) ==> then == (Action::<Seq<char>, AuditRecordView>::CheckFraud {
                id: job.transaction_id,
                amount: row.amount,
            })
            &&& changed > 0 && row.compliance_checked == Some(true) ==> then is LockAccount
                || then is MarkFailed
        }),
{
    lemma_stage(job, events.drop_last());
}

/// The fraud check is asked about the transaction that was read, with its own
/// amount.
pub proof fn law_fraud_check_judges_the_amount_that_was_read(
    job: Job<Seq<char>>,
    events: Seq<Event<Seq<char>>>,
)
    requires
        is_run(job, events),
        actions(job, events).last() is CheckFraud,
    ensures
        row_read(events) matches Some(row) && actions(job, events).last() == (Action::<
            Seq<char>,
            AuditRecordView,
        >::CheckFraud { id: job.transaction_id, amount: row.amount }),
{
    lemma_stage(job, events);
}

/// The answer of the fraud check decides: without one, or where it blocks, the
/// transaction is failed with the reason; otherwise its risk is stored.
pub proof fn law_fraud_answer_decides(
    job: Job<Seq<char>>,
    events: Seq<Event<Seq<char>>>,
)
    requires
        is_run(job, events),
        events.len() > 0,
        actions(job, events.drop_last()).last() is CheckFraud,
    ensures
        ({
            let then = actions(job, events).last();
            events.last() matches Event::Fraud(answer) && match answer {
                None => then == (Action::<Seq<char>, AuditRecordView>::MarkFailed {
                    id: job.transaction_id,
                    reason: "fraud_check_timeout: no response within "@ + seq!['5'] + "s"@,
                }),
                Some(result) => if result.is_blocked {
                    then == (Action::<Seq<char>, AuditRecordView>::MarkFailed {
                        id: job.transaction_id,
                        reason: "fraud_blocked: "@ + result.reason,
                    })
                } else {
                    then == (Action::<Seq<char>, AuditRecordView>::RecordCompliance {
                        id: job.transaction_id,
                        risk_score: result.risk_score,
                    })
                },
            }
        }),
{
    lemma_stage(job, events.drop_last());
    assert(nat_text(5) =~= seq!['5']);
}

/// No money moves for a transaction that did not pass the fraud check: a balance
/// or a ledger entry is written only where the row was read as cleared, or the
/// check of the row's own amount did not block it.
pub proof fn law_what_is_moved_was_screened(job: Job<Seq<char>>, events: Seq<Event<Seq<char>>>)
    requires
        is_run(job, events),
        actions(job, events).last() is UpdateBalance || actions(job, events).last()
            is InsertLedgerEntry || actions(job, events).last() is LockAccount,
    ensures
        row_read(events) matches Some(row) && (row.compliance_checked == Some(true) || exists|i: int|
            #[trigger] passed_at(job, events, row, i)),
{
    reveal(informed);
    lemma_informed(job, events);
    lemma_stage(job, events);
    if actions(job, events).last() is LockAccount {
        lemma_account_stage(job, events);
    }
}

/// The one of two accounts that is locked first: that with the smaller identifier.
pub open spec fn smaller(a: Uuid, b: Uuid) -> Uuid {
    if a.value <= b.value {
        a
    } else {
        b
    }
}

/// The one of two accounts that is locked second: that with the larger identifier.
pub open spec fn larger(a: Uuid, b: Uuid) -> Uuid {
    if a.value <= b.value {
        b
    } else {
        a
    }
}

/// What keeps a row from being carried out: an account that its type calls for is
/// missing, or the type is not known.
pub open spec fn shortcoming(row: TransactionRow<Seq<char>>) -> Seq<char> {
    if row.transaction_type == Some("TRANSFER"@) {
        if row.source_account_id is None {
            "TRANSFER missing source_account_id"@
        } else {
            "TRANSFER missing dest_account_id"@
        }
    } else if row.transaction_type == Some("CREDIT"@) {
        "CREDIT missing dest_account_id"@
    } else if row.transaction_type == Some("DEBIT"@) || row.transaction_type == Some("FEE"@) {
        "DEBIT missing source_account_id"@
    } else {
        "unknown transaction type: "@ + (match row.transaction_type {
            Some(text) => text,
            None => ""@,
        })
    }
}

/// The row decides which accounts are locked, those that pay and are paid, the one
/// with the smaller identifier first. A row that lacks an account, or has an
/// unknown type, is failed.
pub proof fn law_row_decides_the_accounts(
    job: Job<Seq<char>>,
    events: Seq<Event<Seq<char>>>,
    row: TransactionRow<Seq<char>>,
)
    requires
        is_run(job, events),
        events.len() > 0,
        row_read(events) == Some(row),
        ({
            let asked = actions(job, events.drop_last()).last();
            ||| asked is RecordCompliance && events.last() is Done
            ||| asked is MarkProcessing && row.compliance_checked == Some(true) && (
            events.last() matches Event::RowsAffected(changed) && changed > 0)
        }),
    ensures
        ({
            let then = actions(job, events).last();
            match (payer(row), payee(row)) {
                (Some(p), Some(q)) => then == Action::<Seq<char>, AuditRecordView>::LockAccount(smaller(p, q)),
                _ => then == (Action::<Seq<char>, AuditRecordView>::MarkFailed {
                    id: job.transaction_id,
                    reason: "permanent failure: "@ + shortcoming(row),
                }),
            }
        }),
{
    lemma_stage(job, events.drop_last());
    lemma_roles(row);
    lemma_types_differ();
}

/// After the first account the other one is locked.
pub proof fn law_both_accounts_are_locked(
    job: Job<Seq<char>>,
    events: Seq<Event<Seq<char>>>,
    row: TransactionRow<Seq<char>>,
)
    requires
        is_run(job, events),
        events.len() > 1,
        row_read(events) == Some(row),
        actions(job, events)[events.len() - 1] is LockAccount,
        !(actions(job, events)[events.len() - 2] is LockAccount),
        events.last() is Account,
    ensures
        payer(row) is Some,
        payee(row) is Some,
        actions(job, events)[events.len() - 1] == Action::<Seq<char>, AuditRecordView>::LockAccount(
            smaller(payer(row)->0, payee(row)->0),
        ),
        actions(job, events).last() == Action::<Seq<char>, AuditRecordView>::LockAccount(larger(payer(row)->0, payee(row)->0)),
{
    lemma_stage(job, events.drop_last());
    lemma_prefix(job, events);
    lemma_account_stage(job, events.drop_last());
    lemma_roles(row);
}

/// Why a transaction is refused once both accounts were read, if it is. The payer
/// comes before the payee; counter-accounts are not asked.
pub open spec fn objection(
    row: TransactionRow<Seq<char>>,
    from: AccountRow,
    to: AccountRow,
) -> Option<Seq<char>> {
    let p = payer(row)->0;
    let q = payee(row)->0;
    let pays_itself = row.transaction_type != Some("CREDIT"@);
    let is_paid = row.transaction_type == Some("TRANSFER"@) || row.transaction_type == Some(
        "CREDIT"@,
    );
    if p == q {
        Some("validation failed: source and destination accounts must differ"@)
    } else if pays_itself && !from.is_active {
        Some("account is inactive: "@ + p.text())
    } else if pays_itself && from.balance.units() < row.amount.units() {
        Some(
            "insufficient funds: account="@ + p.text() + ", required="@ + row.amount.text()
                + ", available="@ + from.balance.text(),
        )
    } else if is_paid && !to.is_active {
        Some("account is inactive: "@ + q.text())
    } else {
        None
    }
}

/// What was read of the accounts decides: the transaction is failed where the payer
/// is inactive or has less than the amount, the payee is inactive, or they are the
/// same; otherwise the payer's balance is written.
pub proof fn law_funds_decide(
    job: Job<Seq<char>>,
    events: Seq<Event<Seq<char>>>,
    row: TransactionRow<Seq<char>>,
)
    requires
        is_run(job, events),
        events.len() > 1,
        row_read(events) == Some(row),
        row.counters.valid(),
        actions(job, events)[events.len() - 1] is LockAccount,
        actions(job, events)[events.len() - 2] is LockAccount,
        events.last() is Account,
    ensures
        payer(row) is Some,
        payee(row) is Some,
        account_read(job, events, payer(row)->0) is Some,
        account_read(job, events, payee(row)->0) is Some,
        ({
            let from = account_read(job, events, payer(row)->0)->0;
            let to = account_read(job, events, payee(row)->0)->0;
            let then = actions(job, events).last();
            match objection(row, from, to) {
                Some(text) => then == (Action::<Seq<char>, AuditRecordView>::MarkFailed {
                    id: job.transaction_id,
                    reason: "domain error: "@ + text,
                }),
                None => then == (Action::<Seq<char>, AuditRecordView>::UpdateBalance {
                    account_id: payer(row)->0,
                    balance: from.balance.difference(row.amount)->0,
                    expected_version: if row.transaction_type == Some("TRANSFER"@) {
                        Some(from.version)
                    } else {
                        None
                    },
                }),
            }
        }),
{
    let m = row.movement()->Ok_0;
    let before = events.drop_last();
    let first = account_read(job, before, m.first())->0;
    let second = events.last()->Account_0;
    lemma_accounts_read(job, events, row);
    let from = account_read(job, events, m.from())->0;
    let to = account_read(job, events, m.to())->0;
    if m.from() != m.to() {
        lemma_objection(row, m, first, second);
        lemma_plan_parts(m, row.amount, first, second, from, to);
    } else {
        lemma_objection(row, m, second, second);
        lemma_objection(row, m, first, second);
    }
}

/// What follows when the second account was read.
proof fn lemma_accounts_read(
    job: Job<Seq<char>>,
    events: Seq<Event<Seq<char>>>,
    row: TransactionRow<Seq<char>>,
)
    requires
        is_run(job, events),
        events.len() > 1,
        row_read(events) == Some(row),
        actions(job, events)[events.len() - 1] is LockAccount,
        actions(job, events)[events.len() - 2] is LockAccount,
        events.last() is Account,
    ensures
        row.movement() is Ok,
        payer(row) == Some(row.movement()->Ok_0.from()),
        payee(row) == Some(row.movement()->Ok_0.to()),
        row.movement()->Ok_0 is Transfer <==> is_type(row, "TRANSFER"@),
        ({
            let m = row.movement()->Ok_0;
            let first = account_read(job, events.drop_last(), m.first())->0;
            let second = events.last()->Account_0;
            &&& actions(job, events).last() == job.locked(m, row.amount, first, second).1
            &&& account_read(job, events, m.first()) is Some
            &&& account_read(job, events, m.second()) == Some(second)
            &&& m.from() != m.to() ==> account_read(job, events, m.first()) == Some(first)
        }),
{
    let before = events.drop_last();
    lemma_stage(job, before);
    lemma_prefix(job, events);
    lemma_account_stage(job, before);
    lemma_roles(row);
}

/// The objection to a transaction is what its movement is refused for.
proof fn lemma_objection(
    row: TransactionRow<Seq<char>>,
    m: Movement,
    first: AccountRow,
    second: AccountRow,
)
    requires
        row.movement() == Ok::<Movement, ProcessError<Seq<char>>>(m),
        row.counters.valid(),
    ensures
        ({
            let from = m.row_of(m.from(), first, second);
            let to = m.row_of(m.to(), first, second);
            &&& objection(row, from, to) is Some <==> m.refusal(row.amount, first, second) is Some
            &&& m.refusal(row.amount, first, second) matches Some(e) ==> objection(row, from, to)
                == Some(e.text()) && !ProcessError::Domain(e).retryable()
        }),
{
    lemma_roles(row);
    lemma_types_differ();
    reveal_strlit("validation failed: ");
    reveal_strlit("source and destination accounts must differ");
    reveal_strlit("validation failed: source and destination accounts must differ");
    assert("validation failed: "@ + "source and destination accounts must differ"@
        =~= "validation failed: source and destination accounts must differ"@);
}

/// Every balance and ledger entry that a run writes is one side of the payment:
/// the payer's balance less the amount or the payee's plus the amount, and an
/// entry of the row's own amount with that balance.
pub proof fn law_each_write_is_one_side_of_the_payment(
    job: Job<Seq<char>>,
    events: Seq<Event<Seq<char>>>,
    row: TransactionRow<Seq<char>>,
)
    requires
        is_run(job, events),
        row_read(events) == Some(row),
        row.counters.valid(),
    ensures
        ({
            let from = account_read(job, events, payer(row)->0)->0;
            let to = account_read(job, events, payee(row)->0)->0;
            let last = actions(job, events).last();
            &&& last matches Action::UpdateBalance { account_id, balance, .. } ==> (payer(row)
                == Some(account_id) && balance == from.balance.difference(row.amount)->0) || (payee(
                row,
            ) == Some(account_id) && balance == to.balance.sum(row.amount)->0)
            &&& last matches Action::InsertLedgerEntry {
                transaction_id,
                account_id,
                entry_type,
                amount,
                running_balance,
                sequence_num,
            } ==> {
                &&& transaction_id == job.transaction_id
                &&& amount == row.amount
                &&& sequence_num == number_given(events.last())
                &&& match entry_type {
                    EntryType::Debit => payer(row) == Some(account_id) && running_balance
                        == from.balance.difference(row.amount)->0,
                    EntryType::Credit => payee(row) == Some(account_id) && running_balance
                        == to.balance.sum(row.amount)->0,
                }
            }
        }),
{
    let last = actions(job, events).last();
    if last is UpdateBalance || last is InsertLedgerEntry {
        lemma_writing(job, events);
        lemma_roles(row);
        let n = actions(job, events).len() as int;
        let (plan, next) = match state_after(job, events).stage {
            Stage::Writing { plan, next, .. } => (plan, next as int),
            _ => (Seq::empty(), 0),
        };
        let m = row.movement()->Ok_0;
        assert(actions(job, events)[n - 1 - next + next] == job.action_of(
            plan[next],
            number_given(events[n - 1 - next + next - 1]),
        ));
        assert(m.from() != m.to());
        let first = account_read(job, events, m.first())->0;
        let second = account_read(job, events, m.second())->0;
        lemma_plan_parts(
            m,
            row.amount,
            first,
            second,
            m.row_of(m.from(), first, second),
            m.row_of(m.to(), first, second),
        );
        assert(next == 0 || next == 1 || next == 2 || next == 3 || next == 4 || next == 5 || next
            == 6);
    }
}

proof fn lemma_writing(job: Job<Seq<char>>, events: Seq<Event<Seq<char>>>)
    requires
        is_run(job, events),
        actions(job, events).last() is UpdateBalance || actions(job, events).last()
            is InsertLedgerEntry,
    ensures
        state_after(job, events).stage matches Stage::Writing { plan, next, .. } && planned(
            job,
            events,
            plan,
        ) && written(job, events, plan, next as int, actions(job, events).len() - 1) && actions(
            job,
            events,
        ).len() == events.len() + 1,
{
    reveal(informed);
    lemma_informed(job, events);
    lemma_stage(job, events);
}

/// A database error that comes while money is being moved is stored: where no
/// connection was free the transaction is put back, otherwise it is failed, with
/// the error in words. Any other database error ends the run and is returned.
pub proof fn law_database_errors_are_stored_or_returned(
    job: Job<Seq<char>>,
    events: Seq<Event<Seq<char>>>,
)
    requires
        is_run(job, events),
        events.len() > 0,
        events.last() is Failed,
        !(actions(job, events.drop_last()).last() is Rollback),
    ensures
        ({
            let n = events.len() as int;
            let asked = actions(job, events)[n - 1];
            let then = actions(job, events).last();
            let e = events.last()->Failed_0;
            let moving = asked is LockAccount || asked is UpdateBalance || asked is ReadSequence
                || asked is InsertLedgerEntry || (asked is RecordAudit && !(actions(job, events)[n
                - 2] is MarkFailed));
            if !moving {
                then == Action::<Seq<char>, AuditRecordView>::Return(Err(ProcessError::Database(e)))
            } else if e.kind == DbErrorKind::PoolTimedOut {
                then == (Action::<Seq<char>, AuditRecordView>::ResetToPending {
                    id: job.transaction_id,
                    reason: "database error: "@ + e.message,
                })
            } else {
                then == (Action::<Seq<char>, AuditRecordView>::MarkFailed {
                    id: job.transaction_id,
                    reason: "database error: "@ + e.message,
                })
            }
        }),
{
    let before = events.drop_last();
    lemma_stage(job, before);
    lemma_prefix(job, events);
    if actions(job, before).last() is LockAccount {
        lemma_account_stage(job, before);
    }
}

/// A failure is recorded in the audit log with its reason, and then committed; a
/// transaction that was put back or settled is committed at once.
pub proof fn law_outcome_is_recorded_and_committed(
    job: Job<Seq<char>>,
    events: Seq<Event<Seq<char>>>,
)
    requires
        is_run(job, events),
        events.len() > 0,
        events.last() is Done,
    ensures
        ({
            let n = events.len() as int;
            let asked = actions(job, events)[n - 1];
            let then = actions(job, events).last();
            &&& asked matches Action::MarkFailed { id, reason } ==> id == job.transaction_id && (
            then matches Action::RecordAudit(entry) && entry == (AuditRecordView {
                entity_type: "Transaction"@,
                entity_id: job.transaction_id,
                action: "FAILED"@,
                old_state: None,
                new_state: seq![
                    Field { name: "status"@, value: "FAILED"@ },
                    Field { name: "error"@, value: reason },
                ],
                actor_id: "worker"@,
                actor_type: "WORKER"@,
                correlation_id: job.correlation_id,
            }))
            &&& asked is RecordAudit && actions(job, events)[n - 2] is MarkFailed ==> then is Commit
            &&& asked is RecordAudit && !(actions(job, events)[n - 2] is MarkFailed) ==> then
                == Action::<Seq<char>, AuditRecordView>::MarkSettled(job.transaction_id)
            &&& asked is ResetToPending ==> then is Commit
            &&& asked is MarkSettled ==> then is Commit
        }),
{
    let before = events.drop_last();
    lemma_stage(job, before);
    lemma_prefix(job, events);
    if actions(job, before).last() is RecordAudit {
        lemma_recording(job, before);
    }
}

proof fn lemma_recording(job: Job<Seq<char>>, events: Seq<Event<Seq<char>>>)
    requires
        is_run(job, events),
        actions(job, events).last() is RecordAudit,
    ensures
        state_after(job, events).stage matches Stage::Writing { plan, next, .. } ==> next == 6
            && plan.len() == 7,
{
    reveal(informed);
    lemma_informed(job, events);
    lemma_stage(job, events);
    if let Stage::Writing { plan, next, .. } = state_after(job, events).stage {
        let n = actions(job, events).len() as int;
        assert(actions(job, events)[n - 1] == job.action_of(
            plan[next as int],
            number_given(events[n - 2]),
        ));
        assert(plan[next as int] is Audit);
    }
}

/// What a run returns once it committed is what came of the transaction: success
/// where it was settled, and otherwise the error that it failed on: the answer of
/// the fraud check, the database error, or what is wrong with the transaction or
/// its accounts.
pub proof fn law_committed_run_returns_the_cause(
    job: Job<Seq<char>>,
    events: Seq<Event<Seq<char>>>,
)
    requires
        is_run(job, events),
        events.len() > 3,
        actions(job, events)[events.len() - 1] is Commit,
        events.last() is Done,
    ensures
        ({
            let n = events.len() as int;
            let done = actions(job, events);
            &&& done.last() matches Action::Return(result) && match result {
                Ok(_) => done[n - 2] is MarkSettled,
                Err(error) => !(done[n - 2] is MarkSettled) && if done[n - 2] is ResetToPending {
                    events[n - 3] matches Event::Failed(e) && error == ProcessError::Database(e)
                } else {
                    done[n - 3] matches Action::MarkFailed { reason, .. } && match events[n - 4] {
                        Event::Fraud(None) => error == ProcessError::<
                            Seq<char>,
                        >::FraudCheckTimeout(5),
                        Event::Fraud(Some(result)) => error == ProcessError::FraudBlocked(
                            result.reason,
                        ),
                        Event::Failed(e) => error == ProcessError::Database(e),
                        Event::Account(_) => error is Domain && reason == "domain error: "@
                            + error->Domain_0.text(),
                        _ => error is Permanent && reason == "permanent failure: "@
                            + error->Permanent_0,
                    }
                },
            }
        }),
{
    let before = events.drop_last();
    lemma_prefix_of_run(job, events);
    lemma_stage(job, before);
    lemma_committing(job, before);
    let n = events.len() as int;
    assert(before[n - 3] == events[n - 3]);
    assert(before[n - 4] == events[n - 4]);
}

proof fn lemma_prefix_of_run(job: Job<Seq<char>>, events: Seq<Event<Seq<char>>>)
    requires
        is_run(job, events),
        events.len() > 0,
    ensures
        actions(job, events).len() == events.len() + 1,
        actions(job, events.drop_last()).len() == events.len(),
        forall|i: int|
            0 <= i < events.len() ==> #[trigger] actions(job, events)[i] == actions(
                job,
                events.drop_last(),
            )[i],
{
    lemma_stage(job, events.drop_last());
    lemma_prefix(job, events);
}

proof fn lemma_committing(job: Job<Seq<char>>, events: Seq<Event<Seq<char>>>)
    requires
        is_run(job, events),
        actions(job, events).last() is Commit,
    ensures
        ({
            let done = actions(job, events);
            let n = done.len() as int;
            &&& n == events.len() + 1
            &&& n > 1
            &&& state_after(job, events).stage matches Stage::Committing(outcome) && match outcome {
                Ok(_) => done[n - 2] is MarkSettled,
                Err(error) => n > 3 && ((done[n - 3] matches Action::MarkFailed { reason, .. }
                    && done[n - 2] is RecordAudit && explains(events[n - 4], reason, error)) || (
                done[n - 2] is ResetToPending && (events[n - 3] matches Event::Failed(e) && error
                    == ProcessError::Database(e)))),
            }
        }),
{
    reveal(informed);
    lemma_informed(job, events);
    lemma_stage(job, events);
}

/// A run never gets stuck: whatever was asked for, what can come of it is accepted,
/// and only the return ends the run.
pub proof fn law_every_action_can_be_answered(
    job: Job<Seq<char>>,
    events: Seq<Event<Seq<char>>>,
    event: Event<Seq<char>>,
)
    requires
        is_run(job, events),
    ensures
        ({
            let asked = actions(job, events).last();
            let fits = match asked {
                Action::TryLock(_) => event is Lock || event is Failed,
                Action::LoadTransaction(_) => event is Transaction || event is Failed,
                Action::MarkProcessing { .. } => event is RowsAffected || event is Failed,
                Action::CheckFraud { .. } => event is Fraud,
                Action::LockAccount(_) => event is Account || event is Failed,
                Action::ReadSequence { .. } => event is Sequence || event is Failed,
                Action::Return(_) => false,
                _ => event is Done || event is Failed,
            };
            is_run(job, events.push(event)) <==> fits
        }),
{
    reveal(informed);
    lemma_informed(job, events);
    lemma_stage(job, events);
    assert(events.push(event).drop_last() =~= events);
    if actions(job, events).last() is LockAccount {
        lemma_account_stage(job, events);
    }
    if let Stage::Writing { plan, next, .. } = state_after(job, events).stage {
        let n = actions(job, events).len() as int;
        assert(actions(job, events)[n - 1] == job.action_of(
            plan[next as int],
            number_given(events[n - 2]),
        ));
    }
}

/// Amounts over the limit do not move unreviewed: where the fraud check answers by
/// its rules, money moves for a transaction that was not cleared before only if its
/// amount is at most 100000.
pub proof fn law_large_amounts_need_review(
    job: Job<Seq<char>>,
    events: Seq<Event<Seq<char>>>,
    row: TransactionRow<Seq<char>>,
)
    requires
        is_run(job, events),
        row_read(events) == Some(row),
        row.compliance_checked != Some(true),
        actions(job, events).last() is UpdateBalance,
        forall|i: int|
            0 <= i < events.len() ==> (#[trigger] events[i] matches Event::Fraud(Some(result)) ==> (
            actions(job, events)[i] matches Action::CheckFraud { amount, .. } ==> result
                == assessment(amount))),
    ensures
        row.amount.units() <= 100_000 * pow(10, 28),
{
    law_what_is_moved_was_screened(job, events);
    let i = choose|i: int| #[trigger] passed_at(job, events, row, i);
    assert(events[i] is Fraud);
    law_amounts_over_the_limit_are_blocked(row.amount);
}

/// A failed or missing check moves no money: once the check blocked the transaction
/// or did not answer, no balance and no ledger entry is written.
pub proof fn law_blocked_transaction_moves_no_money(
    job: Job<Seq<char>>,
    events: Seq<Event<Seq<char>>>,
    i: int,
)
    requires
        is_run(job, events),
        0 <= i < events.len(),
        events[i] is Fraud,
        events[i] == Event::<Seq<char>>::Fraud(None) || events[i]->Fraud_0->0.is_blocked,
    ensures
        no_money_moved(actions(job, events)),
{
    lemma_after_a_block(job, events, i);
}

proof fn lemma_after_a_block(job: Job<Seq<char>>, events: Seq<Event<Seq<char>>>, i: int)
    requires
        is_run(job, events),
        0 <= i < events.len(),
        events[i] is Fraud,
        events[i] == Event::<Seq<char>>::Fraud(None) || events[i]->Fraud_0->0.is_blocked,
    ensures
        no_money_moved(actions(job, events)),
        ({
            let stage = state_after(job, events).stage;
            ||| stage is Failing
            ||| stage is RecordingFailure
            ||| stage matches Stage::Committing(Err(_))
            ||| stage is Finished
        }),
    decreases events.len(),
{
    let before = events.drop_last();
    lemma_stage(job, before);
    lemma_prefix(job, events);
    if i < before.len() {
        assert(before[i] == events[i]);
        lemma_after_a_block(job, before, i);
    } else {
        lemma_nothing_moved_before_the_check(job, before);
    }
    assert forall|k: int| 0 <= k < actions(job, events).len() implies !moves_money(
        #[trigger] actions(job, events)[k],
    ) by {
        if k < events.len() {
            assert(actions(job, events)[k] == actions(job, before)[k]);
        }
    }
}

proof fn lemma_nothing_moved_before_the_check(
    job: Job<Seq<char>>,
    events: Seq<Event<Seq<char>>>,
)
    requires
        is_run(job, events),
    ensures
        ({
            let stage = state_after(job, events).stage;
            stage is Beginning || stage is Locking || stage is Loading || stage is Claiming
                || stage is Screening
        }) ==> no_money_moved(actions(job, events)),
    decreases events.len(),
{
    if events.len() > 0 {
        let before = events.drop_last();
        lemma_nothing_moved_before_the_check(job, before);
        lemma_stage(job, before);
        lemma_prefix(job, events);
        assert(no_money_moved(actions(job, before)) ==> forall|k: int|
            0 <= k < events.len() ==> !moves_money(#[trigger] actions(job, events)[k]));
    }
}

/// The codes under which types are stored are those that are carried out: a
/// transfer from source to destination, a payment out or a fee from the source, a
/// payment in to the destination. Reversals and adjustments are not carried out.
pub proof fn law_types_are_carried_out_as_stored(
    row: TransactionRow<Seq<char>>,
    t: TransactionType,
)
    requires
        row.transaction_type == Some(t.code()),
    ensures
        t is Transfer ==> payer(row) == row.source_account_id && payee(row) == row.dest_account_id,
        t is Debit || t is Fee ==> payer(row) == row.source_account_id && (payee(row) is Some
            <==> row.source_account_id is Some),
        t is Credit ==> payee(row) == row.dest_account_id && (payer(row) is Some
            <==> row.dest_account_id is Some),
        t is Reversal || t is Adjustment ==> payer(row) is None && payee(row) is None,
{
    lemma_types_differ();
    reveal_strlit("REVERSAL");
    reveal_strlit("ADJUSTMENT");
    reveal_strlit("TRANSFER");
    reveal_strlit("CREDIT");
    reveal_strlit("DEBIT");
    reveal_strlit("FEE");
    assert("REVERSAL"@[0] == 'R');
    assert("TRANSFER"@[0] == 'T');
    assert("ADJUSTMENT"@.len() == 10);
    assert("REVERSAL"@ != "TRANSFER"@);
}

/// The codes under which statuses are stored are those that decide: a pending or
/// processing transaction is taken up, a settled, reversed or failed one is not.
pub proof fn law_statuses_decide_as_stored(
    job: Job<Seq<char>>,
    events: Seq<Event<Seq<char>>>,
    row: TransactionRow<Seq<char>>,
    status: TransactionStatus,
)
    requires
        is_run(job, events),
        events.len() > 0,
        actions(job, events.drop_last()).last() is LoadTransaction,
        events.last() == Event::Transaction(Some(row)),
        row.status == Some(status.code()),
    ensures
        actions(job, events).last() is MarkProcessing <==> status is Pending || status
            is Processing,
        actions(job, events).last() is Rollback <==> status is Settled || status is Reversed
            || status is Failed,
{
    law_status_decides(job, events);
    law_codes_are_told_apart(
        status,
        TransactionStatus::Settled,
        TransactionType::Fee,
        TransactionType::Fee,
        EntryType::Debit,
        EntryType::Debit,
    );
    law_codes_are_told_apart(
        status,
        TransactionStatus::Reversed,
        TransactionType::Fee,
        TransactionType::Fee,
        EntryType::Debit,
        EntryType::Debit,
    );
    law_codes_are_told_apart(
        status,
        TransactionStatus::Failed,
        TransactionType::Fee,
        TransactionType::Fee,
        EntryType::Debit,
        EntryType::Debit,
    );
}

/// A run can always go on, but for two limits: the version behind the largest one
/// cannot be named in a conflict, and new balances that are no decimals cannot be
/// written.
pub proof fn law_only_machine_limits_stop_a_run(
    job: Job<Seq<char>>,
    events: Seq<Event<Seq<char>>>,
    event: Event<Seq<char>>,
    row: TransactionRow<Seq<char>>,
)
    requires
        is_run(job, events),
        is_run(job, events.push(event)),
        row_read(events) is Some ==> row_read(events) == Some(row) && row.counters.valid(),
        !state_after(job, events).computable(event),
    ensures
        ({
            let done = actions(job, events);
            let more = events.push(event);
            let n = done.len() as int;
            ||| done.last() is MarkProcessing && event == Event::<Seq<char>>::RowsAffected(0)
                && row.version == i64::MAX
            ||| n > 1 && done.last() is LockAccount && done[n - 2] is LockAccount && {
                let from = account_read(job, more, payer(row)->0);
                let to = account_read(job, more, payee(row)->0);
                from is Some && to is Some && objection(row, from->0, to->0) is None && (
                from->0.balance.difference(row.amount) is None || to->0.balance.sum(row.amount)
                    is None)
            }
        }),
{
    let more = events.push(event);
    assert(more.drop_last() =~= events);
    reveal(informed);
    lemma_informed(job, events);
    lemma_stage(job, events);
    if actions(job, events).last() is LockAccount {
        lemma_account_stage(job, events);
        lemma_prefix(job, more);
        let m = row.movement()->Ok_0;
        assert(row_read(more) == Some(row));
        lemma_accounts_read(job, more, row);
        let first = account_read(job, events, m.first())->0;
        let second = event->Account_0;
        lemma_roles(row);
        lemma_objection(row, m, first, second);
    }
}

} // verus!
