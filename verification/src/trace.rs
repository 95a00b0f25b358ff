//! What holds of whole runs of the processor: from the beginning of the
//! database transaction to the return.
use vstd::prelude::*;

use crate::audit::AuditRecordView;
use crate::decimal::Decimal;
use crate::domain::TransactionStatus;
use crate::ident::Uuid;
use crate::movement::{AccountRow, Movement, Write};
use crate::processor::{
    failed_record, Action, ActionView, Event, Job, ProcessError, ProcessingView, Stage, Standing,
    TransactionRow,
};

verus! {

/// Where a run stands after a sequence of events.
pub open spec fn state_after(job: Job<Seq<char>>, events: Seq<Event<Seq<char>>>) -> ProcessingView
    decreases events.len(),
{
    if events.len() == 0 {
        job.at(Stage::Beginning)
    } else {
        state_after(job, events.drop_last()).next(events.last()).0
    }
}

/// Whether each event can come of the action before it.
pub open spec fn is_run(job: Job<Seq<char>>, events: Seq<Event<Seq<char>>>) -> bool
    decreases events.len(),
{
    events.len() > 0 ==> is_run(job, events.drop_last()) && state_after(
        job,
        events.drop_last(),
    ).accepts(events.last())
}

/// The actions of a run, in order, from the first one.
pub open spec fn actions(job: Job<Seq<char>>, events: Seq<Event<Seq<char>>>) -> Seq<ActionView>
    decreases events.len(),
{
    if events.len() == 0 {
        seq![Action::Begin]
    } else {
        actions(job, events.drop_last()).push(
            state_after(job, events.drop_last()).next(events.last()).1,
        )
    }
}

/// Whether an action changes what is stored.
pub open spec fn changes(action: ActionView) -> bool {
    match action {
        Action::MarkProcessing { .. } => true,
        Action::RecordCompliance { .. } => true,
        Action::UpdateBalance { .. } => true,
        Action::InsertLedgerEntry { .. } => true,
        Action::RecordAudit(_) => true,
        Action::MarkSettled(_) => true,
        Action::MarkFailed { .. } => true,
        Action::ResetToPending { .. } => true,
        _ => false,
    }
}

/// Whether an action ends the database transaction.
pub open spec fn ends(action: ActionView) -> bool {
    action is Commit || action is Rollback || action is Return
}

/// Whether no action ended the database transaction.
pub open spec fn still_open(done: Seq<ActionView>) -> bool {
    forall|i: int| 0 <= i < done.len() ==> !ends(#[trigger] done[i])
}

/// Whether no action changed what is stored.
pub open spec fn nothing_changed(done: Seq<ActionView>) -> bool {
    forall|i: int| 0 <= i < done.len() ==> !changes(#[trigger] done[i])
}

/// The transaction's row that was read, if one was.
pub open spec fn row_read(events: Seq<Event<Seq<char>>>) -> Option<TransactionRow<Seq<char>>>
    decreases events.len(),
{
    if events.len() == 0 {
        None
    } else {
        match events.last() {
            Event::Transaction(row) => row,
            _ => row_read(events.drop_last()),
        }
    }
}

/// The accounts' rows that were read, in order.
pub open spec fn accounts_read(events: Seq<Event<Seq<char>>>) -> Seq<AccountRow>
    decreases events.len(),
{
    if events.len() == 0 {
        Seq::empty()
    } else {
        match events.last() {
            Event::Account(row) => accounts_read(events.drop_last()).push(row),
            _ => accounts_read(events.drop_last()),
        }
    }
}

/// Whether what was read calls for a movement that is not refused.
pub open spec fn calls_for_settlement(events: Seq<Event<Seq<char>>>) -> bool {
    let accounts = accounts_read(events);
    row_read(events) matches Some(row) && row.movement() matches Ok(movement) && accounts.len() == 2
        && movement.refusal(row.amount, accounts[0], accounts[1]) is None
}

/// The settlement that what was read calls for: the movement of the transaction
/// that was read, of its amount, between the accounts that were read.
pub open spec fn settlement(events: Seq<Event<Seq<char>>>) -> Seq<Write> {
    let row = row_read(events)->0;
    let accounts = accounts_read(events);
    row.movement()->Ok_0.plan(row.amount, accounts[0], accounts[1])
}

/// Whether an action makes a write.
pub open spec fn makes(job: Job<Seq<char>>, action: ActionView, write: Write) -> bool {
    exists|sequence: i64| action == #[trigger] job.action_of(write, sequence)
}

/// Whether the last `count` actions make the first `count` writes of a plan.
pub open spec fn ends_with_writes(
    job: Job<Seq<char>>,
    done: Seq<ActionView>,
    plan: Seq<Write>,
    count: int,
) -> bool {
    &&& count <= done.len()
    &&& count <= plan.len()
    &&& forall|j: int|
        0 <= j < count ==> makes(job, done[done.len() - count + j], #[trigger] plan[j])
}

/// Whether the last actions make all writes of a plan, and the very last one sets
/// the status to settled.
pub open spec fn settled(job: Job<Seq<char>>, done: Seq<ActionView>, plan: Seq<Write>) -> bool {
    &&& done.len() > 0
    &&& done.last() == Action::<Seq<char>, AuditRecordView>::MarkSettled(job.transaction_id)
    &&& ends_with_writes(job, done.drop_last(), plan, plan.len() as int)
}

/// Whether the last actions store a failure: the transaction is put back where
/// another try can help, and otherwise failed with a record in the audit log.
pub open spec fn failure_stored(
    job: Job<Seq<char>>,
    done: Seq<ActionView>,
    error: ProcessError<Seq<char>>,
) -> bool {
    if error.retryable() {
        &&& done.len() > 0
        &&& done.last() == Action::<Seq<char>, AuditRecordView>::ResetToPending {
            id: job.transaction_id,
            reason: error.text(),
        }
    } else {
        &&& done.len() > 1
        &&& done[done.len() - 2] matches Action::MarkFailed { id, reason } && id
            == job.transaction_id && done.last() == Action::<
            Seq<char>,
            AuditRecordView,
        >::RecordAudit(failed_record(job.transaction_id, reason, job.correlation_id))
    }
}

/// What is true of the actions and events so far at each stage.
spec fn consistent(
    job: Job<Seq<char>>,
    at: ProcessingView,
    events: Seq<Event<Seq<char>>>,
    done: Seq<ActionView>,
) -> bool {
    &&& at.job == job
    &&& done.len() > 0
    &&& done[0] is Begin
    &&& forall|i: int| 0 < i < done.len() ==> !(#[trigger] done[i] is Begin)
    &&& match at.stage {
        Stage::Beginning => still_open(done) && nothing_changed(done) && accounts_read(events).len()
            == 0,
        Stage::Locking => still_open(done) && nothing_changed(done) && accounts_read(events).len()
            == 0,
        Stage::Loading => still_open(done) && nothing_changed(done) && accounts_read(events).len()
            == 0,
        Stage::Claiming(row) => still_open(done) && only_row_read(events, row),
        Stage::Screening(row) => still_open(done) && only_row_read(events, row),
        Stage::Clearing(row) => still_open(done) && only_row_read(events, row),
        Stage::FirstAccount { movement, amount } => still_open(done) && calls_for(
            events,
            movement,
            amount,
        ) && accounts_read(events).len() == 0,
        Stage::SecondAccount { movement, amount, first } => still_open(done) && calls_for(
            events,
            movement,
            amount,
        ) && accounts_read(events).len() == 1 && accounts_read(events)[0] == first,
        Stage::Writing { plan, next, .. } => {
            &&& still_open(done)
            &&& calls_for_settlement(events)
            &&& plan == settlement(events)
            &&& next < plan.len() <= 7
            &&& ends_with_writes(job, done, plan, next + 1)
        },
        Stage::Settling => still_open(done) && calls_for_settlement(events) && settled(
            job,
            done,
            settlement(events),
        ),
        Stage::Failing { reason, error } => {
            &&& still_open(done)
            &&& !error.retryable()
            &&& done.last() == Action::<Seq<char>, AuditRecordView>::MarkFailed {
                id: job.transaction_id,
                reason,
            }
        },
        Stage::RecordingFailure(error) => still_open(done) && !error.retryable() && failure_stored(
            job,
            done,
            error,
        ),
        Stage::Resetting(error) => still_open(done) && error.retryable() && failure_stored(
            job,
            done,
            error,
        ),
        Stage::Committing(outcome) => {
            &&& done.last() is Commit
            &&& still_open(done.drop_last())
            &&& match outcome {
                Ok(_) => calls_for_settlement(events) && settled(
                    job,
                    done.drop_last(),
                    settlement(events),
                ),
                Err(e) => failure_stored(job, done.drop_last(), e),
            }
        },
        Stage::RollingBack(outcome) => {
            &&& done.last() is Rollback
            &&& still_open(done.drop_last())
            &&& outcome is Ok ==> nothing_changed(done.drop_last())
        },
        Stage::Finished => {
            &&& done.last() is Return
            &&& still_open(done.drop_last()) || (done.len() > 1 && still_open(
                done.drop_last().drop_last(),
            ) && (done[done.len() - 2] is Commit || done[done.len() - 2] is Rollback))
            &&& done.last() == Action::<Seq<char>, AuditRecordView>::Return(Ok(()))
                ==> settled_for_good(job, events, done) || left_alone(done)
        },
    }
}

/// Whether a row was read of the transaction, and none of an account.
spec fn only_row_read(events: Seq<Event<Seq<char>>>, row: TransactionRow<Seq<char>>) -> bool {
    row_read(events) == Some(row) && accounts_read(events).len() == 0
}

/// Whether the transaction that was read calls for a movement of an amount.
spec fn calls_for(events: Seq<Event<Seq<char>>>, movement: Movement, amount: Decimal) -> bool {
    row_read(events) matches Some(row) && row.movement() == Ok::<_, ProcessError<Seq<char>>>(
        movement,
    ) && row.amount == amount
}

/// Whether a run made all writes of the settlement that it read about, set the
/// status, committed and returned, with nothing in between.
pub open spec fn settled_for_good(
    job: Job<Seq<char>>,
    events: Seq<Event<Seq<char>>>,
    done: Seq<ActionView>,
) -> bool {
    &&& calls_for_settlement(events)
    &&& done.len() > 1
    &&& done[done.len() - 2] is Commit
    &&& settled(job, done.drop_last().drop_last(), settlement(events))
}

/// Whether a run changed nothing and rolled back.
pub open spec fn left_alone(done: Seq<ActionView>) -> bool {
    &&& done.len() > 1
    &&& done[done.len() - 2] is Rollback
    &&& nothing_changed(done.drop_last().drop_last())
}

/// One more write.
proof fn lemma_write(
    job: Job<Seq<char>>,
    done: Seq<ActionView>,
    plan: Seq<Write>,
    next: usize,
    sequence: i64,
)
    requires
        next <= plan.len() <= 7,
        ends_with_writes(job, done, plan, next as int),
    ensures
        next < plan.len() ==> ends_with_writes(
            job,
            done.push(job.write(plan, next, sequence).1),
            plan,
            next + 1,
        ),
        next == plan.len() ==> settled(job, done.push(job.write(plan, next, sequence).1), plan),
{
    let action = job.write(plan, next, sequence).1;
    let more = done.push(action);
    if next < plan.len() {
        assert(action == job.action_of(plan[next as int], sequence));
        assert(makes(job, action, plan[next as int]));
        assert forall|j: int| 0 <= j < next + 1 implies makes(
            job,
            more[more.len() - (next + 1) + j],
            #[trigger] plan[j],
        ) by {
            if j < next {
                assert(more[more.len() - (next + 1) + j] == done[done.len() - next + j]);
            }
        }
    } else {
        assert(more.drop_last() =~= done);
    }
}

#[verifier::rlimit(60)]
proof fn lemma_step(
    job: Job<Seq<char>>,
    at: ProcessingView,
    events: Seq<Event<Seq<char>>>,
    done: Seq<ActionView>,
)
    requires
        events.len() > 0,
        consistent(job, at, events.drop_last(), done),
        at.accepts(events.last()),
    ensures
        consistent(job, at.next(events.last()).0, events, done.push(at.next(events.last()).1)),
{
    let event = events.last();
    let (next, action) = at.next(event);
    let more = done.push(action);
    assert(more.drop_last() =~= done);
    assert(more.last() == action);
    match (at.stage, event) {
        (Stage::Writing { plan, next: n, sequence }, Event::Done) => {
            lemma_write(job, done, plan, (n + 1) as usize, sequence);
        },
        (Stage::Writing { plan, next: n, .. }, Event::Sequence(number)) => {
            let sequence = match number {
                Some(i) => i,
                None => 1,
            };
            lemma_write(job, done, plan, (n + 1) as usize, sequence);
        },
        (Stage::SecondAccount { movement, amount, first }, Event::Account(row)) => {
            if movement.refusal(amount, first, row) is None {
                let plan = movement.plan(amount, first, row);
                assert(plan == settlement(events));
                assert(plan.len() == 7);
                lemma_write(job, done, plan, 0, 1);
            }
        },
        _ => {},
    }
}

proof fn lemma_run(job: Job<Seq<char>>, events: Seq<Event<Seq<char>>>)
    requires
        is_run(job, events),
    ensures
        consistent(job, state_after(job, events), events, actions(job, events)),
    decreases events.len(),
{
    if events.len() > 0 {
        lemma_run(job, events.drop_last());
        lemma_step(
            job,
            state_after(job, events.drop_last()),
            events,
            actions(job, events.drop_last()),
        );
    }
}

/// A run that returns success did one of two things, inside one database
/// transaction: it made all writes (balances, ledger entries and the audit
/// record) that settle the transaction that was read, between the accounts that
/// were read, set the status to settled and committed; or it changed nothing and
/// rolled back.
pub proof fn law_success_settles_or_leaves_alone(
    job: Job<Seq<char>>,
    events: Seq<Event<Seq<char>>>,
)
    requires
        is_run(job, events),
        actions(job, events).last() == Action::<Seq<char>, AuditRecordView>::Return(Ok(())),
    ensures
        settled_for_good(job, events, actions(job, events)) || left_alone(actions(job, events)),
        still_open(actions(job, events).drop_last().drop_last()),
{
    lemma_run(job, events);
    let before = events.drop_last();
    assert(events.len() > 0);
    lemma_run(job, before);
    let done = actions(job, events);
    assert(done.drop_last() =~= actions(job, before));
}

/// Whether an action moves money: it writes a balance or a ledger entry.
pub open spec fn moves_money(action: ActionView) -> bool {
    action is UpdateBalance || action is InsertLedgerEntry
}

/// Whether no action moved money.
pub open spec fn no_money_moved(done: Seq<ActionView>) -> bool {
    forall|i: int| 0 <= i < done.len() ==> !moves_money(#[trigger] done[i])
}

/// Whether event `i` says that a write failed, or the question for the number of
/// a ledger entry.
pub open spec fn write_failed(
    job: Job<Seq<char>>,
    events: Seq<Event<Seq<char>>>,
    i: int,
) -> bool {
    &&& 0 <= i < events.len()
    &&& events[i] is Failed
    &&& changes(actions(job, events)[i]) || actions(job, events)[i] is ReadSequence
}

/// What a database does after a failed write: until the database transaction is
/// rolled back, everything else fails too.
pub open spec fn aborts_after_failure(job: Job<Seq<char>>, events: Seq<Event<Seq<char>>>) -> bool {
    forall|i: int, j: int|
        #![trigger write_failed(job, events, i), events[j]]
        write_failed(job, events, i) && i < j < events.len() ==> events[j] is Failed || actions(
            job,
            events,
        )[j] is Rollback
}

spec fn some_write_failed(job: Job<Seq<char>>, events: Seq<Event<Seq<char>>>) -> bool {
    exists|i: int| write_failed(job, events, i)
}

spec fn money_fits(
    job: Job<Seq<char>>,
    at: ProcessingView,
    events: Seq<Event<Seq<char>>>,
    done: Seq<ActionView>,
) -> bool {
    match at.stage {
        Stage::Writing { .. } => true,
        Stage::Settling => true,
        Stage::Failing { .. } => no_money_moved(done) || some_write_failed(job, events),
        Stage::Resetting(_) => no_money_moved(done) || some_write_failed(job, events),
        Stage::Committing(Ok(_)) => true,
        Stage::RollingBack(_) => true,
        Stage::Finished => true,
        _ => no_money_moved(done),
    }
}

/// An action before the last event is the same without that event.
proof fn lemma_earlier_actions(job: Job<Seq<char>>, events: Seq<Event<Seq<char>>>)
    requires
        events.len() > 0,
    ensures
        actions(job, events).len() == events.len() + 1,
        actions(job, events.drop_last()).len() == events.len(),
        forall|i: int|
            0 <= i < events.len() ==> #[trigger] actions(job, events)[i] == actions(
                job,
                events.drop_last(),
            )[i],
    decreases events.len(),
{
    let before = events.drop_last();
    if events.len() > 1 {
        lemma_earlier_actions(job, before);
    } else {
        assert(actions(job, before).len() == 1);
    }
}

proof fn lemma_money(job: Job<Seq<char>>, events: Seq<Event<Seq<char>>>)
    requires
        is_run(job, events),
        aborts_after_failure(job, events),
    ensures
        money_fits(job, state_after(job, events), events, actions(job, events)),
    decreases events.len(),
{
    if events.len() > 0 {
        let before = events.drop_last();
        let at = state_after(job, before);
        let done = actions(job, before);
        let last = events.len() - 1;
        lemma_earlier_actions(job, events);
        assert forall|i: int| write_failed(job, before, i) implies write_failed(
            job,
            events,
            i,
        ) by {
            assert(events[i] == before[i]);
        }
        assert(aborts_after_failure(job, before)) by {
            assert forall|i: int, j: int|
                #![trigger write_failed(job, before, i), before[j]]
                write_failed(job, before, i) && i < j < before.len() implies before[j] is Failed
                || actions(job, before)[j] is Rollback by {
                assert(write_failed(job, events, i));
                assert(events[j] == before[j]);
            }
        }
        lemma_money(job, before);
        lemma_run(job, before);
        assert(events[last] == events.last());
        assert(actions(job, events)[last] == done.last());
        match at.stage {
            Stage::Writing { plan, next, .. } => {
                if events.last() is Failed {
                    assert(makes(job, done[done.len() - 1], plan[next as int]));
                    assert(write_failed(job, events, last));
                }
            },
            Stage::Failing { .. } | Stage::Resetting(_) => {
                if some_write_failed(job, before) {
                    let i = choose|i: int| write_failed(job, before, i);
                    assert(write_failed(job, events, i));
                    assert(events[last] is Failed);
                }
            },
            _ => {},
        }
    }
}

/// A transaction is carried out as a whole or not at all: what a run commits is
/// the whole settlement of the transaction that was read, or holds no balance and
/// no ledger entry. This rests on what the database does after a failed write.
pub proof fn law_all_or_nothing(job: Job<Seq<char>>, events: Seq<Event<Seq<char>>>)
    requires
        is_run(job, events),
        aborts_after_failure(job, events),
        events.len() > 0,
        actions(job, events.drop_last()).last() is Commit,
        events.last() is Done,
    ensures
        no_money_moved(actions(job, events)) || (settled_for_good(
            job,
            events,
            actions(job, events),
        ) && actions(job, events).last() == Action::<Seq<char>, AuditRecordView>::Return(Ok(()))),
{
    let before = events.drop_last();
    lemma_earlier_actions(job, events);
    assert(aborts_after_failure(job, before)) by {
        assert forall|i: int, j: int|
            #![trigger write_failed(job, before, i), before[j]]
            write_failed(job, before, i) && i < j < before.len() implies before[j] is Failed
            || actions(job, before)[j] is Rollback by {
            assert(events[i] == before[i]);
            assert(write_failed(job, events, i));
            assert(events[j] == before[j]);
        }
    }
    lemma_money(job, before);
    lemma_run(job, before);
    lemma_run(job, events);
    let done = actions(job, events);
    assert(done.drop_last() =~= actions(job, before));
}

/// An error that was committed was stored: the transaction was put back with the
/// error, where another try can help, or it was failed with the audit record
/// that says why.
pub proof fn law_committed_failure_is_stored(
    job: Job<Seq<char>>,
    events: Seq<Event<Seq<char>>>,
    error: ProcessError<Seq<char>>,
)
    requires
        is_run(job, events),
        events.len() > 0,
        events.last() is Done,
        actions(job, events.drop_last()).last() is Commit,
        actions(job, events).last() == Action::<Seq<char>, AuditRecordView>::Return(Err(error)),
    ensures
        failure_stored(job, actions(job, events).drop_last().drop_last(), error),
{
    let before = events.drop_last();
    lemma_run(job, before);
    assert(actions(job, events).drop_last() =~= actions(job, before));
}

/// A run works in one database transaction: it begins once, with its first
/// action, and what ends the transaction is followed by nothing but the return.
pub proof fn law_one_database_transaction(job: Job<Seq<char>>, events: Seq<Event<Seq<char>>>)
    requires
        is_run(job, events),
        actions(job, events).last() is Return,
    ensures
        actions(job, events)[0] is Begin,
        forall|i: int|
            0 < i < actions(job, events).len() ==> !(#[trigger] actions(job, events)[i] is Begin),
        forall|i: int|
            0 <= i < actions(job, events).len() - 2 ==> !ends(#[trigger] actions(job, events)[i]),
{
    lemma_run(job, events);
    let done = actions(job, events);
    assert forall|i: int| 0 <= i < done.len() - 2 implies !ends(#[trigger] done[i]) by {
        assert(done.drop_last()[i] == done[i]);
        assert(done.drop_last().drop_last()[i] == done[i]);
    }
}

/// What was processed before is left alone: after the row of a transaction that
/// is settled or reversed, or while another worker holds the lock, a run rolls
/// back and returns success; after the row of a failed one it rolls back and
/// returns an error that is not retried.
pub proof fn law_replay_is_harmless(
    job: Job<Seq<char>>,
    row: TransactionRow<Seq<char>>,
    taken: Option<bool>,
    event: Event<Seq<char>>,
)
    requires
        event is Done || event is Failed,
    ensures
        row.standing() == Standing::Done ==> {
            let step = job.at(Stage::Loading).next(Event::Transaction(Some(row)));
            step.1 is Rollback && step.0.next(event).1 == Action::<
                Seq<char>,
                AuditRecordView,
            >::Return(Ok(()))
        },
        taken != Some(true) ==> {
            let step = job.at(Stage::Locking).next(Event::Lock(taken));
            step.1 is Rollback && step.0.next(event).1 == Action::<
                Seq<char>,
                AuditRecordView,
            >::Return(Ok(()))
        },
        row.standing() == Standing::Failed ==> {
            let step = job.at(Stage::Loading).next(Event::Transaction(Some(row)));
            step.1 is Rollback && (step.0.next(event).1 matches Action::Return(Err(e))
                && !e.retryable())
        },
{
}

/// The status that an action stores.
pub open spec fn status_stored(action: ActionView) -> Option<TransactionStatus> {
    match action {
        Action::MarkProcessing { .. } => Some(TransactionStatus::Processing),
        Action::MarkSettled(_) => Some(TransactionStatus::Settled),
        Action::MarkFailed { .. } => Some(TransactionStatus::Failed),
        Action::ResetToPending { .. } => Some(TransactionStatus::Pending),
        _ => None,
    }
}

/// The statuses that actions store, in order.
pub open spec fn statuses_stored(done: Seq<ActionView>) -> Seq<TransactionStatus>
    decreases done.len(),
{
    if done.len() == 0 {
        Seq::empty()
    } else {
        let before = statuses_stored(done.drop_last());
        match status_stored(done.last()) {
            Some(status) => before.push(status),
            None => before,
        }
    }
}

/// The statuses that a run may store: none; processing; or processing and then
/// one that processing allows.
pub open spec fn lawful_statuses(statuses: Seq<TransactionStatus>) -> bool {
    ||| statuses.len() == 0
    ||| statuses == seq![TransactionStatus::Processing]
    ||| statuses.len() == 2 && statuses[0] == TransactionStatus::Processing
        && TransactionStatus::Processing.allows(statuses[1])
}

spec fn statuses_fit(at: ProcessingView, statuses: Seq<TransactionStatus>) -> bool {
    match at.stage {
        Stage::Beginning => statuses.len() == 0,
        Stage::Locking => statuses.len() == 0,
        Stage::Loading => statuses.len() == 0,
        Stage::Claiming(_) => statuses == seq![TransactionStatus::Processing],
        Stage::Screening(_) => statuses == seq![TransactionStatus::Processing],
        Stage::Clearing(_) => statuses == seq![TransactionStatus::Processing],
        Stage::FirstAccount { .. } => statuses == seq![TransactionStatus::Processing],
        Stage::SecondAccount { .. } => statuses == seq![TransactionStatus::Processing],
        Stage::Writing { .. } => statuses == seq![TransactionStatus::Processing],
        _ => lawful_statuses(statuses),
    }
}

/// A run stores a status that the state machine of transactions allows: it takes
/// the transaction up once, and then settles it, fails it or puts it back, once.
pub proof fn law_statuses_follow_the_state_machine(
    job: Job<Seq<char>>,
    events: Seq<Event<Seq<char>>>,
)
    requires
        is_run(job, events),
    ensures
        lawful_statuses(statuses_stored(actions(job, events))),
{
    lemma_statuses(job, events);
}

proof fn lemma_statuses(job: Job<Seq<char>>, events: Seq<Event<Seq<char>>>)
    requires
        is_run(job, events),
    ensures
        statuses_fit(state_after(job, events), statuses_stored(actions(job, events))),
    decreases events.len(),
{
    let done = actions(job, events);
    if events.len() > 0 {
        lemma_statuses(job, events.drop_last());
        assert(done.drop_last() =~= actions(job, events.drop_last()));
        let before = statuses_stored(done.drop_last());
        assert(before == seq![TransactionStatus::Processing] ==> before.len() == 1 && before[0]
            == TransactionStatus::Processing);
        assert(before.len() == 0 ==> before.push(TransactionStatus::Processing) =~= seq![
            TransactionStatus::Processing,
        ]);
    } else {
        assert(done.drop_last() =~= Seq::empty());
        assert(statuses_stored(done.drop_last()) == Seq::<TransactionStatus>::empty());
    }
}

/// Whether an event shows that the transaction passed the fraud check: it was
/// read as cleared, or the check did not block it.
pub open spec fn shows_clearance(event: Event<Seq<char>>) -> bool {
    match event {
        Event::Transaction(Some(row)) => row.cleared(),
        Event::Fraud(Some(result)) => !result.is_blocked,
        _ => false,
    }
}

/// Whether one of the events shows that the transaction passed the fraud check.
pub open spec fn was_cleared(events: Seq<Event<Seq<char>>>) -> bool {
    exists|i: int| 0 <= i < events.len() && shows_clearance(#[trigger] events[i])
}

spec fn clearance_fits(at: ProcessingView, events: Seq<Event<Seq<char>>>) -> bool {
    match at.stage {
        Stage::Claiming(row) => row.cleared() ==> was_cleared(events),
        Stage::Clearing(_) => was_cleared(events),
        Stage::FirstAccount { .. } => was_cleared(events),
        Stage::SecondAccount { .. } => was_cleared(events),
        Stage::Writing { .. } => was_cleared(events),
        Stage::Settling => was_cleared(events),
        _ => true,
    }
}

proof fn lemma_clearance(job: Job<Seq<char>>, events: Seq<Event<Seq<char>>>)
    requires
        is_run(job, events),
    ensures
        clearance_fits(state_after(job, events), events),
    decreases events.len(),
{
    if events.len() > 0 {
        let before = events.drop_last();
        lemma_clearance(job, before);
        assert(was_cleared(before) ==> was_cleared(events)) by {
            if was_cleared(before) {
                let i = choose|i: int| 0 <= i < before.len() && shows_clearance(#[trigger] before[i]);
                assert(events[i] == before[i]);
            }
        }
        assert(shows_clearance(events.last()) ==> was_cleared(events)) by {
            assert(events[events.len() - 1] == events.last());
        }
    }
}

/// Whether the lock on the transaction was taken.
pub open spec fn lock_taken(events: Seq<Event<Seq<char>>>) -> bool {
    exists|i: int| 0 <= i < events.len() && (#[trigger] events[i]) == Event::<Seq<char>>::Lock(
        Some(true),
    )
}

spec fn lock_fits(at: ProcessingView, events: Seq<Event<Seq<char>>>) -> bool {
    match at.stage {
        Stage::Beginning => true,
        Stage::Locking => true,
        Stage::RollingBack(_) => true,
        Stage::Finished => true,
        _ => lock_taken(events),
    }
}

proof fn lemma_lock(job: Job<Seq<char>>, events: Seq<Event<Seq<char>>>)
    requires
        is_run(job, events),
    ensures
        lock_fits(state_after(job, events), events),
    decreases events.len(),
{
    if events.len() > 0 {
        let before = events.drop_last();
        lemma_lock(job, before);
        assert(lock_taken(before) ==> lock_taken(events)) by {
            if lock_taken(before) {
                let i = choose|i: int|
                    0 <= i < before.len() && (#[trigger] before[i]) == Event::<Seq<char>>::Lock(
                        Some(true),
                    );
                assert(events[i] == before[i]);
            }
        }
        assert(events[events.len() - 1] == events.last());
    }
}

/// Nothing is changed unless the lock on the transaction was taken before.
pub proof fn law_changes_only_under_the_lock(job: Job<Seq<char>>, events: Seq<Event<Seq<char>>>)
    requires
        is_run(job, events),
        changes(actions(job, events).last()),
    ensures
        lock_taken(events),
{
    lemma_lock(job, events);
}

/// Whether an account's row was locked.
pub open spec fn account_locked(done: Seq<ActionView>, account: Uuid) -> bool {
    exists|i: int|
        0 <= i < done.len() && (#[trigger] done[i]) == Action::<
            Seq<char>,
            AuditRecordView,
        >::LockAccount(account)
}

spec fn account_locks_fit(at: ProcessingView, done: Seq<ActionView>) -> bool {
    match at.stage {
        Stage::FirstAccount { movement, .. } => account_locked(done, movement.first()),
        Stage::SecondAccount { movement, .. } => {
            &&& account_locked(done, movement.first())
            &&& account_locked(done, movement.second())
        },
        Stage::Writing { plan, next, .. } => {
            &&& next < plan.len() <= 7
            &&& forall|k: int|
                0 <= k < plan.len() ==> ((#[trigger] plan[k]) matches Write::Balance {
                    account_id,
                    ..
                } ==> account_locked(done, account_id))
        },
        _ => true,
    }
}

/// A plan writes balances of the movement's accounts only.
proof fn lemma_plan_accounts(
    movement: Movement,
    amount: Decimal,
    first: AccountRow,
    second: AccountRow,
    k: int,
)
    requires
        0 <= k < movement.plan(amount, first, second).len(),
    ensures
        movement.plan(amount, first, second).len() <= 7,
        movement.plan(amount, first, second)[k] matches Write::Balance { account_id, .. }
            ==> account_id == movement.first() || account_id == movement.second(),
{
}

/// Once all accounts of a movement are locked, its plan can be carried out.
proof fn lemma_locked_plan(
    job: Job<Seq<char>>,
    movement: Movement,
    amount: Decimal,
    first: AccountRow,
    second: AccountRow,
    done: Seq<ActionView>,
)
    requires
        account_locked(done, movement.first()),
        account_locked(done, movement.second()),
    ensures
        account_locks_fit(job.locked(movement, amount, first, second).0, done),
{
    let plan = movement.plan(amount, first, second);
    assert forall|k: int| 0 <= k < plan.len() implies ((#[trigger] plan[k]) matches Write::Balance {
        account_id,
        ..
    } ==> account_locked(done, account_id)) by {
        lemma_plan_accounts(movement, amount, first, second, k);
    }
    assert(plan.len() <= 7);
}

proof fn lemma_account_locks(job: Job<Seq<char>>, events: Seq<Event<Seq<char>>>)
    requires
        is_run(job, events),
    ensures
        account_locks_fit(state_after(job, events), actions(job, events)),
    decreases events.len(),
{
    if events.len() > 0 {
        let before = events.drop_last();
        lemma_account_locks(job, before);
        lemma_run(job, before);
        let at = state_after(job, before);
        let done = actions(job, before);
        let more = actions(job, events);
        assert forall|account: Uuid| account_locked(done, account) implies account_locked(
            more,
            account,
        ) by {
            let i = choose|i: int|
                0 <= i < done.len() && (#[trigger] done[i]) == Action::<
                    Seq<char>,
                    AuditRecordView,
                >::LockAccount(account);
            assert(more[i] == done[i]);
        }
        assert(more[more.len() - 1] == at.next(events.last()).1);
        match (at.stage, events.last()) {
            (Stage::SecondAccount { movement, amount, first }, Event::Account(row)) => {
                lemma_locked_plan(job, movement, amount, first, row, more);
            },
            _ => {},
        }
    }
}

/// A balance is written only under the row lock of its account.
pub proof fn law_balances_are_written_under_lock(
    job: Job<Seq<char>>,
    events: Seq<Event<Seq<char>>>,
)
    requires
        is_run(job, events),
    ensures
        actions(job, events).last() matches Action::UpdateBalance { account_id, .. }
            ==> account_locked(actions(job, events), account_id),
{
    lemma_account_locks(job, events);
    if let Stage::Writing { plan, next, .. } = state_after(job, events).stage {
        let write = plan[next as int];
    }
}

/// No balance is written for a transaction that did not pass the fraud check.
pub proof fn law_no_money_moves_uncleared(job: Job<Seq<char>>, events: Seq<Event<Seq<char>>>)
    requires
        is_run(job, events),
        actions(job, events).last() is UpdateBalance,
    ensures
        was_cleared(events),
{
    lemma_clearance(job, events);
    if events.len() > 0 {
        lemma_clearance(job, events.drop_last());
    }
}

} // verus!
