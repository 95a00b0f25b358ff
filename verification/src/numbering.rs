//! How the entries of the ledger are numbered: for each account 1, 2, 3 and so
//! on, without a gap and without a repeat.
use vstd::prelude::*;

use crate::decimal::Decimal;
use crate::domain::EntryType;
use crate::ident::Uuid;
use crate::movement::{ledger_writes, AccountRow, Movement, Write};
use crate::processor::{ActionView, Action, Event, Job, ProcessingView, Stage};
use crate::trace::{actions, is_run, state_after};

verus! {

/// An entry of the ledger.
pub struct Posting {
    pub transaction_id: Uuid,
    pub account_id: Uuid,
    pub entry_type: EntryType,
    pub amount: Decimal,
    pub running_balance: Decimal,
    pub sequence_num: i64,
}

/// Whether the entries of an account, in the order in which they were made, are
/// numbered 1, 2, 3 and so on.
pub open spec fn numbered(entries: Seq<Posting>) -> bool {
    forall|i: int| 0 <= i < entries.len() ==> (#[trigger] entries[i]).sequence_num == i + 1
}

/// Whether the entries of each account are numbered so.
pub open spec fn all_numbered(ledgers: Map<Uuid, Seq<Posting>>) -> bool {
    forall|account: Uuid| #[trigger]
        ledgers.contains_key(account) ==> numbered(ledgers[account])
}

/// The largest number among an account's entries, or 0 where it has none.
pub open spec fn largest(entries: Seq<Posting>) -> int
    decreases entries.len(),
{
    if entries.len() == 0 {
        0
    } else if entries.last().sequence_num > largest(entries.drop_last()) {
        entries.last().sequence_num as int
    } else {
        largest(entries.drop_last())
    }
}

/// The ledgers of all accounts after an action.
pub open spec fn entered(ledgers: Map<Uuid, Seq<Posting>>, action: ActionView) -> Map<
    Uuid,
    Seq<Posting>,
> {
    match action {
        Action::InsertLedgerEntry {
            transaction_id,
            account_id,
            entry_type,
            amount,
            running_balance,
            sequence_num,
        } => ledgers.insert(
            account_id,
            ledgers[account_id].push(
                Posting {
                    transaction_id,
                    account_id,
                    entry_type,
                    amount,
                    running_balance,
                    sequence_num,
                },
            ),
        ),
        _ => ledgers,
    }
}

/// The ledgers of all accounts after a sequence of actions.
pub open spec fn ledgers_after(ledgers: Map<Uuid, Seq<Posting>>, done: Seq<ActionView>) -> Map<
    Uuid,
    Seq<Posting>,
>
    decreases done.len(),
{
    if done.len() == 0 {
        ledgers
    } else {
        entered(ledgers_after(ledgers, done.drop_last()), done.last())
    }
}

/// The number that an answer stands for: none stands for the first.
pub open spec fn number_of(answer: Option<i64>) -> i64 {
    match answer {
        Some(n) => n,
        None => 1,
    }
}

/// Whether an answer to the question for the next number is right: the account
/// has a ledger, and the number is one more than the largest.
pub open spec fn right_answer(
    ledgers: Map<Uuid, Seq<Posting>>,
    question: ActionView,
    answer: Option<i64>,
) -> bool {
    question matches Action::ReadSequence { account_id } ==> ledgers.contains_key(account_id)
        && number_of(answer) == largest(ledgers[account_id]) + 1
}

/// Whether every question for the next number in a run is answered rightly.
pub open spec fn answered_rightly(
    ledgers: Map<Uuid, Seq<Posting>>,
    job: Job<Seq<char>>,
    events: Seq<Event<Seq<char>>>,
) -> bool
    decreases events.len(),
{
    events.len() > 0 ==> {
        let before = events.drop_last();
        &&& answered_rightly(ledgers, job, before)
        &&& events.last() matches Event::Sequence(answer) ==> right_answer(
            ledgers_after(ledgers, actions(job, before)),
            actions(job, before).last(),
            answer,
        )
    }
}

/// Whether each entry of a plan comes right after the question for its number.
spec fn asks_first(plan: Seq<Write>) -> bool {
    forall|k: int|
        0 <= k < plan.len() ==> ((#[trigger] plan[k]) matches Write::Entry { account_id, .. } ==> k
            > 0 && plan[k - 1] == (Write::NextSequence { account_id }))
}

proof fn lemma_plan_asks_first(
    movement: Movement,
    amount: Decimal,
    first: AccountRow,
    second: AccountRow,
)
    ensures
        asks_first(movement.plan(amount, first, second)),
        movement.plan(amount, first, second).len() == 7,
        movement.plan(amount, first, second)[0] is Balance,
{
}

spec fn asking_fits(job: Job<Seq<char>>, at: ProcessingView, done: Seq<ActionView>) -> bool {
    &&& at.job == job
    &&& done.len() > 0
    &&& at.stage matches Stage::Writing { plan, next, sequence } ==> asks_first(plan) && next
        < plan.len() <= 7 && done.last() == job.action_of(plan[next as int], sequence)
}

proof fn lemma_largest(entries: Seq<Posting>)
    requires
        numbered(entries),
    ensures
        largest(entries) == entries.len(),
    decreases entries.len(),
{
    if entries.len() > 0 {
        let before = entries.drop_last();
        assert forall|i: int| 0 <= i < before.len() implies (#[trigger] before[i]).sequence_num == i
            + 1 by {
            assert(before[i] == entries[i]);
        }
        lemma_largest(before);
        assert(entries[entries.len() - 1].sequence_num == entries.len());
    }
}

proof fn lemma_enter(ledgers: Map<Uuid, Seq<Posting>>, posting: Posting)
    requires
        all_numbered(ledgers),
        ledgers.contains_key(posting.account_id),
        posting.sequence_num == largest(ledgers[posting.account_id]) + 1,
    ensures
        all_numbered(
            ledgers.insert(posting.account_id, ledgers[posting.account_id].push(posting)),
        ),
{
    assert(numbered(ledgers[posting.account_id]));
    lemma_largest(ledgers[posting.account_id]);
    assert(numbered(ledgers[posting.account_id].push(posting)));
}

proof fn lemma_numbering(
    ledgers: Map<Uuid, Seq<Posting>>,
    job: Job<Seq<char>>,
    events: Seq<Event<Seq<char>>>,
)
    requires
        is_run(job, events),
        answered_rightly(ledgers, job, events),
        all_numbered(ledgers),
    ensures
        asking_fits(job, state_after(job, events), actions(job, events)),
        all_numbered(ledgers_after(ledgers, actions(job, events))),
    decreases events.len(),
{
    let done = actions(job, events);
    if events.len() == 0 {
        assert(done.drop_last() =~= Seq::empty());
        assert(ledgers_after(ledgers, done.drop_last()) == ledgers);
    } else {
        let before = events.drop_last();
        lemma_numbering(ledgers, job, before);
        let at = state_after(job, before);
        let action = at.next(events.last()).1;
        let so_far = ledgers_after(ledgers, actions(job, before));
        assert(done.drop_last() =~= actions(job, before));
        assert(done.last() == action);
        match (at.stage, events.last()) {
            (Stage::SecondAccount { movement, amount, first }, Event::Account(row)) => {
                lemma_plan_asks_first(movement, amount, first, row);
            },
            (Stage::Writing { plan, next, .. }, Event::Sequence(answer)) => {
                if next + 1 < plan.len() {
                    if let Write::Entry { account_id, entry_type, amount, running_balance } = plan[
                    next + 1] {
                        assert(plan[next + 1 - 1] == plan[next as int]);
                        lemma_enter(
                            so_far,
                            Posting {
                                transaction_id: job.transaction_id,
                                account_id,
                                entry_type,
                                amount,
                                running_balance,
                                sequence_num: number_of(answer),
                            },
                        );
                    }
                }
            },
            (Stage::Writing { plan, next, .. }, Event::Done) => {
                if next + 1 < plan.len() {
                    assert(!(plan[next + 1] is Entry)) by {
                        if plan[next + 1] is Entry {
                            assert(plan[next + 1 - 1] is NextSequence);
                        }
                    }
                }
            },
            _ => {},
        }
    }
}

/// A run keeps the numbering: where the entries of each account are numbered 1,
/// 2, 3 and so on, they still are after its actions, if the question for the
/// next number is answered with one more than the largest.
pub proof fn law_entries_are_numbered_without_gaps(
    ledgers: Map<Uuid, Seq<Posting>>,
    job: Job<Seq<char>>,
    events: Seq<Event<Seq<char>>>,
)
    requires
        is_run(job, events),
        answered_rightly(ledgers, job, events),
        all_numbered(ledgers),
    ensures
        all_numbered(ledgers_after(ledgers, actions(job, events))),
{
    lemma_numbering(ledgers, job, events);
}

/// The writes of a ledger entry add exactly one entry, as it was given, to the
/// account's ledger: its number is one more than the largest, where the question
/// for it is answered so. What the ledger held stays, other accounts' ledgers stay
/// as they are, and all stay numbered without a gap.
pub proof fn law_ledger_entry_takes_the_next_number(
    ledgers: Map<Uuid, Seq<Posting>>,
    job: Job<Seq<char>>,
    account_id: Uuid,
    entry_type: EntryType,
    amount: Decimal,
    running_balance: Decimal,
    answer: Option<i64>,
)
    requires
        all_numbered(ledgers),
        right_answer(
            ledgers,
            job.action_of(
                ledger_writes(account_id, entry_type, amount, running_balance)[0],
                number_of(answer),
            ),
            answer,
        ),
    ensures
        ({
            let writes = ledger_writes(account_id, entry_type, amount, running_balance);
            let question = job.action_of(writes[0], number_of(answer));
            let insertion = job.action_of(writes[1], number_of(answer));
            let after = ledgers_after(ledgers, seq![question, insertion]);
            &&& writes.len() == 2
            &&& after == ledgers.insert(
                account_id,
                ledgers[account_id].push(
                    Posting {
                        transaction_id: job.transaction_id,
                        account_id,
                        entry_type,
                        amount,
                        running_balance,
                        sequence_num: (largest(ledgers[account_id]) + 1) as i64,
                    },
                ),
            )
            &&& largest(ledgers[account_id]) == ledgers[account_id].len()
            &&& all_numbered(after)
        }),
{
    let writes = ledger_writes(account_id, entry_type, amount, running_balance);
    let question = job.action_of(writes[0], number_of(answer));
    let insertion = job.action_of(writes[1], number_of(answer));
    let both = seq![question, insertion];
    assert(both.drop_last() =~= seq![question]);
    assert(seq![question].drop_last() =~= Seq::empty());
    assert(ledgers_after(ledgers, Seq::empty()) == ledgers);
    assert(ledgers_after(ledgers, seq![question]) == ledgers);
    assert(ledgers_after(ledgers, both) == entered(ledgers, insertion));
    lemma_largest(ledgers[account_id]);
    lemma_enter(
        ledgers,
        Posting {
            transaction_id: job.transaction_id,
            account_id,
            entry_type,
            amount,
            running_balance,
            sequence_num: number_of(answer),
        },
    );
}

/// No entry is changed or taken away: what an account's ledger held before a
/// sequence of actions, it still holds, in front of what was added.
pub proof fn law_entries_stay(ledgers: Map<Uuid, Seq<Posting>>, done: Seq<ActionView>, account: Uuid)
    requires
        ledgers.contains_key(account),
    ensures
        ledgers_after(ledgers, done).contains_key(account),
        ledgers[account].is_prefix_of(ledgers_after(ledgers, done)[account]),
    decreases done.len(),
{
    if done.len() > 0 {
        law_entries_stay(ledgers, done.drop_last(), account);
        let before = ledgers_after(ledgers, done.drop_last());
        let after = ledgers_after(ledgers, done);
        let length = ledgers[account].len() as int;
        assert(after[account].subrange(0, length) =~= before[account].subrange(0, length));
    }
}

/// An entry of one account leaves the ledgers of the others alone.
pub proof fn law_ledgers_are_independent(
    ledgers: Map<Uuid, Seq<Posting>>,
    action: ActionView,
    account: Uuid,
)
    requires
        action matches Action::InsertLedgerEntry { account_id, .. } ==> account_id != account,
        ledgers.contains_key(account),
    ensures
        entered(ledgers, action).contains_key(account),
        entered(ledgers, action)[account] == ledgers[account],
{
}

} // verus!
