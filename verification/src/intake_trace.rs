//! What holds of whole runs of an intake: from the beginning of the database
//! transaction to the answer.
use vstd::prelude::*;

use crate::api::ApiError;
use crate::audit::{AuditRecordView, Field};
use crate::ident::Uuid;
use crate::submission::{
    answer_status, or_empty, Intake, IntakeAction, IntakeActionView, IntakeEvent, IntakeStage,
    OutboxEventView,
};

verus! {

/// Where an intake stands after a sequence of events.
pub open spec fn intake_after(start: Intake<Seq<char>>, events: Seq<IntakeEvent<Seq<char>>>)
    -> Intake<Seq<char>>
    decreases events.len(),
{
    if events.len() == 0 {
        start
    } else {
        intake_after(start, events.drop_last()).next(events.last()).0
    }
}

/// Whether an intake starts at the beginning and each event can come of the
/// action before it.
pub open spec fn is_intake_run(
    start: Intake<Seq<char>>,
    events: Seq<IntakeEvent<Seq<char>>>,
) -> bool
    decreases events.len(),
{
    if events.len() == 0 {
        start.stage is Beginning
    } else {
        is_intake_run(start, events.drop_last()) && intake_after(
            start,
            events.drop_last(),
        ).accepts(events.last())
    }
}

/// The actions of an intake, in order, from the first one.
pub open spec fn intake_actions(
    start: Intake<Seq<char>>,
    events: Seq<IntakeEvent<Seq<char>>>,
) -> Seq<IntakeActionView>
    decreases events.len(),
{
    if events.len() == 0 {
        seq![IntakeAction::Begin]
    } else {
        intake_actions(start, events.drop_last()).push(
            intake_after(start, events.drop_last()).next(events.last()).1,
        )
    }
}

/// The attempt to store a transaction.
pub open spec fn attempt(start: Intake<Seq<char>>) -> Seq<IntakeActionView> {
    seq![IntakeAction::Begin, IntakeAction::InsertTransaction(start.new_transaction())]
}

/// The attempt, and the look at the transaction that has the key.
pub open spec fn lookup(start: Intake<Seq<char>>) -> Seq<IntakeActionView> {
    attempt(start).push(IntakeAction::LoadExisting { idempotency_key: start.key })
}

/// The attempt, and what belongs to a transaction that is new.
pub open spec fn announcement(
    start: Intake<Seq<char>>,
    id: Uuid,
) -> Seq<IntakeActionView> {
    attempt(start).push(IntakeAction::InsertOutboxEvent(start.outbox_event(id))).push(
        IntakeAction::RecordAudit(start.submitted_record(id)),
    )
}

spec fn consistent(
    start: Intake<Seq<char>>,
    at: Intake<Seq<char>>,
    done: Seq<IntakeActionView>,
) -> bool {
    &&& at == start.at(at.stage)
    &&& match at.stage {
        IntakeStage::Beginning => done == seq![
            IntakeAction::<Seq<char>, AuditRecordView, OutboxEventView>::Begin,
        ],
        IntakeStage::Inserting => done == attempt(start),
        IntakeStage::Looking => done == lookup(start),
        IntakeStage::Announcing { id, .. } => done == announcement(start, id).drop_last(),
        IntakeStage::Recording { id, .. } => done == announcement(start, id),
        IntakeStage::Committing { id, was_duplicate, .. } => done == (if was_duplicate {
            lookup(start)
        } else {
            announcement(start, id)
        }).push(IntakeAction::Commit),
        IntakeStage::Refusing => done == lookup(start).push(IntakeAction::Rollback),
        IntakeStage::Finished => done.len() > 0 && (match done.last() {
            IntakeAction::Return(Ok(answer)) => done == (if answer.response.was_duplicate {
                lookup(start)
            } else {
                announcement(start, answer.response.transaction_id)
            }).push(IntakeAction::Commit).push(done.last()),
            IntakeAction::Return(Err(ApiError::IdempotencyKeyReused { key })) => done == lookup(
                start,
            ).push(IntakeAction::Rollback).push(done.last()) && key == start.key,
            _ => true,
        }),
    }
}

#[verifier::rlimit(40)]
proof fn lemma_intake_run(start: Intake<Seq<char>>, events: Seq<IntakeEvent<Seq<char>>>)
    requires
        is_intake_run(start, events),
    ensures
        consistent(start, intake_after(start, events), intake_actions(start, events)),
    decreases events.len(),
{
    if events.len() > 0 {
        let before = events.drop_last();
        lemma_intake_run(start, before);
        let at = intake_after(start, before);
        let done = intake_actions(start, before);
        let more = done.push(at.next(events.last()).1);
        assert(more.last() == at.next(events.last()).1);
        match at.stage {
            IntakeStage::Beginning => {
                if events.last() is Done {
                    assert(more =~= attempt(start));
                }
            },
            IntakeStage::Inserting => {
                if let IntakeEvent::Inserted(Some((id, _))) = events.last() {
                    assert(more =~= announcement(start, id).drop_last());
                }
            },
            IntakeStage::Announcing { id, .. } => {
                assert(announcement(start, id) =~= announcement(start, id).drop_last().push(
                    IntakeAction::RecordAudit(start.submitted_record(id)),
                ));
            },
            _ => {},
        }
    }
}

/// A new transaction is stored together with the event that announces it and the
/// audit record: a run that answers with a new transaction did exactly this, in
/// one database transaction, and committed.
pub proof fn law_new_transaction_is_announced_atomically(
    start: Intake<Seq<char>>,
    events: Seq<IntakeEvent<Seq<char>>>,
)
    requires
        is_intake_run(start, events),
        intake_actions(start, events).last() matches IntakeAction::Return(Ok(answer))
            && !answer.response.was_duplicate,
    ensures
        ({
            let done = intake_actions(start, events);
            let id = done.last()->Return_0->Ok_0.response.transaction_id;
            &&& done == announcement(start, id).push(IntakeAction::Commit).push(done.last())
            &&& done.last()->Return_0->Ok_0.status_code == 202
        }),
{
    lemma_intake_run(start, events);
    lemma_intake_run(start, events.drop_last());
}

/// A repeated request stores nothing: a run that answers with an earlier
/// transaction found the key taken, looked that transaction up, and did nothing
/// else.
pub proof fn law_repeated_request_stores_nothing(
    start: Intake<Seq<char>>,
    events: Seq<IntakeEvent<Seq<char>>>,
)
    requires
        is_intake_run(start, events),
        intake_actions(start, events).last() matches IntakeAction::Return(Ok(answer))
            && answer.response.was_duplicate,
    ensures
        ({
            let done = intake_actions(start, events);
            done == lookup(start).push(IntakeAction::Commit).push(done.last())
        }),
{
    lemma_intake_run(start, events);
}

/// Two requests with one key: the second gets the answer to the first where
/// their bodies have the same hash, and is refused with status 422 and rolled
/// back where they do not.
pub proof fn law_key_decides_by_hash(
    second: Intake<Seq<char>>,
    first_id: Uuid,
    status: Seq<char>,
    first_hash: Seq<char>,
)
    requires
        second.stage is Looking,
    ensures
        ({
            let found = IntakeEvent::Existing {
                id: first_id,
                status: Some(status),
                request_hash: first_hash,
            };
            let (then, action) = second.next(found);
            let (_, last) = then.next(IntakeEvent::Done);
            if first_hash == second.request_hash {
                &&& action is Commit
                &&& last matches IntakeAction::Return(Ok(answer)) && answer.response.transaction_id
                    == first_id && answer.response.status == status
                    && answer.response.was_duplicate && answer.response.idempotency_key
                    == second.key && answer.status_code == answer_status(status, true)
            } else {
                &&& action is Rollback
                &&& last matches IntakeAction::Return(Err(e)) && e
                    == (ApiError::IdempotencyKeyReused { key: second.key }) && e.response().status
                    == 422
            }
        }),
{
}

/// The transaction that is stored is the one that was submitted: its type, amount,
/// currency, accounts and description are those of the request, and so are its
/// metadata, where the request has any. It is stored under the request's key, with
/// the hash of the request's body.
pub proof fn law_stored_transaction_is_what_was_submitted(
    start: Intake<Seq<char>>,
    events: Seq<IntakeEvent<Seq<char>>>,
)
    requires
        is_intake_run(start, events),
        intake_actions(start, events).last() is InsertTransaction,
    ensures
        ({
            let t = intake_actions(start, events).last()->InsertTransaction_0;
            &&& t.id == start.transaction_id
            &&& t.idempotency_key == start.key
            &&& t.request_hash == start.request_hash
            &&& t.transaction_type == start.body.transaction_type
            &&& t.amount == start.body.amount
            &&& t.currency == start.body.currency
            &&& t.source_account_id == start.body.source_account_id
            &&& t.dest_account_id == start.body.dest_account_id
            &&& t.description == start.body.description
            &&& start.body.metadata is Some ==> t.metadata == start.body.metadata->0
            &&& start.body.metadata is None ==> t.metadata == "{}"@
        }),
{
    lemma_intake_run(start, events);
    if events.len() > 0 {
        lemma_intake_run(start, events.drop_last());
    }
}

/// The event that is put into the outbox announces the transaction that was stored,
/// as it was submitted: its payload has the request's type, amount, currency,
/// source and destination account. Events of one source account have one partition
/// key.
pub proof fn law_announced_transaction_is_what_was_submitted(
    start: Intake<Seq<char>>,
    events: Seq<IntakeEvent<Seq<char>>>,
)
    requires
        is_intake_run(start, events),
        intake_actions(start, events).last() is InsertOutboxEvent,
    ensures
        ({
            let e = intake_actions(start, events).last()->InsertOutboxEvent_0;
            &&& events.len() > 0
            &&& events.last() matches IntakeEvent::Inserted(Some((id, _))) && {
                &&& e.transaction_id == id
                &&& e.aggregate_id == id
                &&& e.envelope_aggregate_id == id
                &&& e.partition_key == (match start.body.source_account_id {
                    Some(source) => source.text(),
                    None => id.text(),
                })
            }
            &&& e.aggregate_type == "Transaction"@
            &&& e.envelope_aggregate_type == "Transaction"@
            &&& e.event_type == "TransactionSubmitted"@
            &&& e.envelope_event_type == "TransactionSubmitted"@
            &&& e.topic == "financial.transactions.v1"@
            &&& e.aggregate_version == 1
            &&& e.correlation_id == start.correlation_id
            &&& e.idempotency_key == start.key
            &&& e.transaction_type == start.body.transaction_type
            &&& e.amount == start.body.amount
            &&& e.currency == start.body.currency
            &&& e.source_account_id == start.body.source_account_id
            &&& e.dest_account_id == start.body.dest_account_id
        }),
{
    lemma_intake_run(start, events);
    if events.len() > 0 {
        lemma_intake_run(start, events.drop_last());
    }
}

/// Two requests from one source account are announced under one partition key, so
/// that their events stay in order.
pub proof fn law_source_account_decides_the_partition(
    a: Intake<Seq<char>>,
    a_events: Seq<IntakeEvent<Seq<char>>>,
    b: Intake<Seq<char>>,
    b_events: Seq<IntakeEvent<Seq<char>>>,
)
    requires
        is_intake_run(a, a_events),
        is_intake_run(b, b_events),
        intake_actions(a, a_events).last() is InsertOutboxEvent,
        intake_actions(b, b_events).last() is InsertOutboxEvent,
        a.body.source_account_id is Some,
        a.body.source_account_id == b.body.source_account_id,
    ensures
        intake_actions(a, a_events).last()->InsertOutboxEvent_0.partition_key == intake_actions(
            b,
            b_events,
        ).last()->InsertOutboxEvent_0.partition_key,
{
    law_announced_transaction_is_what_was_submitted(a, a_events);
    law_announced_transaction_is_what_was_submitted(b, b_events);
}

/// The audit record of an intake tells the stored transaction's identifier, the
/// key, and the amount and currency of the request.
pub proof fn law_intake_is_recorded_as_submitted(
    start: Intake<Seq<char>>,
    events: Seq<IntakeEvent<Seq<char>>>,
)
    requires
        is_intake_run(start, events),
        intake_actions(start, events).last() is RecordAudit,
    ensures
        ({
            let entry = intake_actions(start, events).last()->RecordAudit_0;
            &&& events.len() > 1
            &&& events[events.len() - 2] matches IntakeEvent::Inserted(Some((id, _))) && {
                &&& entry.entity_id == id
                &&& entry.new_state == seq![
                    Field { name: "id"@, value: id.text() },
                    Field { name: "idempotency_key"@, value: start.key },
                    Field { name: "amount"@, value: start.body.amount.text() },
                    Field { name: "currency"@, value: start.body.currency.name() },
                    Field { name: "status"@, value: "PENDING"@ },
                ]
            }
            &&& entry.entity_type == "Transaction"@
            &&& entry.action == "SUBMITTED"@
            &&& entry.old_state is None
            &&& entry.actor_id == "api"@
            &&& entry.actor_type == "SYSTEM"@
            &&& entry.correlation_id == start.correlation_id
        }),
{
    lemma_intake_run(start, events);
    if events.len() > 0 {
        lemma_intake_run(start, events.drop_last());
        lemma_answering(start, events);
    }
}

/// What the database says decides what follows: a transaction that is new is
/// announced, recorded and committed; where its key was taken, the earlier one is
/// looked up under the key, and its hash decides between its answer and a refusal.
pub proof fn law_database_decides_the_intake(
    start: Intake<Seq<char>>,
    events: Seq<IntakeEvent<Seq<char>>>,
)
    requires
        is_intake_run(start, events),
        events.len() > 0,
    ensures
        ({
            let asked = intake_actions(start, events.drop_last()).last();
            let then = intake_actions(start, events).last();
            match (asked, events.last()) {
                (IntakeAction::Rollback, _) => then == IntakeAction::<Seq<char>, AuditRecordView, OutboxEventView>::Return(
                    Err(ApiError::IdempotencyKeyReused { key: start.key }),
                ),
                (_, IntakeEvent::Failed(e)) => then == IntakeAction::<Seq<char>, AuditRecordView, OutboxEventView>::Return(Err(ApiError::Database(e))),
                (IntakeAction::Begin, _) => then is InsertTransaction,
                (IntakeAction::InsertTransaction(_), IntakeEvent::Inserted(Some(_))) => then
                    is InsertOutboxEvent,
                (IntakeAction::InsertTransaction(_), _) => then == (IntakeAction::<Seq<char>, AuditRecordView, OutboxEventView>::LoadExisting {
                    idempotency_key: start.key,
                }),
                (
                    IntakeAction::LoadExisting { .. },
                    IntakeEvent::Existing { request_hash, .. },
                ) => if request_hash == start.request_hash {
                    then is Commit
                } else {
                    then is Rollback
                },
                (IntakeAction::InsertOutboxEvent(_), _) => then is RecordAudit,
                (IntakeAction::RecordAudit(_), _) => then is Commit,
                (IntakeAction::Commit, _) => then matches IntakeAction::Return(Ok(_)),
                _ => false,
            }
        }),
{
    lemma_intake_run(start, events.drop_last());
}

/// The answer to a request names the transaction that was stored, or the earlier
/// one with the same key, with its status, and says which of the two it is. It is
/// 202 for a new transaction and for one that is pending or processing, and 200
/// for any other.
pub proof fn law_answer_names_the_transaction(
    start: Intake<Seq<char>>,
    events: Seq<IntakeEvent<Seq<char>>>,
)
    requires
        is_intake_run(start, events),
        intake_actions(start, events).last() matches IntakeAction::Return(Ok(_)),
    ensures
        ({
            let answer = intake_actions(start, events).last()->Return_0->Ok_0;
            let status = answer.response.status;
            &&& answer.response.idempotency_key == start.key
            &&& answer.status_code == (if answer.response.was_duplicate && status != "PENDING"@
                && status != "PROCESSING"@ {
                200u16
            } else {
                202u16
            })
            &&& if answer.response.was_duplicate {
                events.len() > 1 && (events[events.len() - 2] matches IntakeEvent::Existing {
                    id,
                    status: found,
                    request_hash,
                } && answer.response.transaction_id == id && request_hash == start.request_hash
                    && status == (match found {
                    Some(text) => text,
                    None => ""@,
                }))
            } else {
                events.len() > 3 && (events[events.len() - 4] matches IntakeEvent::Inserted(
                    Some((id, stored)),
                ) && answer.response.transaction_id == id && status == (match stored {
                    Some(text) => text,
                    None => ""@,
                }))
            }
        }),
{
    lemma_intake_run(start, events);
    assert(events.len() > 0);
    lemma_answering(start, events.drop_last());
    let before = events.drop_last();
    assert(before.len() > 0);
    assert(before[before.len() - 1] == events[events.len() - 2]);
    if before.len() > 2 {
        assert(before[before.len() - 3] == events[events.len() - 4]);
    }
}

spec fn answers(start: Intake<Seq<char>>, events: Seq<IntakeEvent<Seq<char>>>) -> bool {
    let n = events.len() as int;
    match intake_after(start, events).stage {
        IntakeStage::Announcing { id, status } => n > 0 && (events[n - 1] matches
            IntakeEvent::Inserted(Some((i, s))) && i == id && status == or_empty(s)),
        IntakeStage::Recording { id, status } => n > 1 && (events[n - 2] matches
            IntakeEvent::Inserted(Some((i, s))) && i == id && status == or_empty(s)),
        IntakeStage::Committing { id, status, was_duplicate } => if was_duplicate {
            n > 0 && (events[n - 1] matches IntakeEvent::Existing { id: i, status: s, request_hash }
                && i == id && status == or_empty(s) && request_hash == start.request_hash)
        } else {
            n > 2 && (events[n - 3] matches IntakeEvent::Inserted(Some((i, s))) && i == id && status
                == or_empty(s))
        },
        _ => true,
    }
}

proof fn lemma_answering(start: Intake<Seq<char>>, events: Seq<IntakeEvent<Seq<char>>>)
    requires
        is_intake_run(start, events),
    ensures
        answers(start, events),
    decreases events.len(),
{
    if events.len() > 0 {
        let before = events.drop_last();
        lemma_answering(start, before);
        lemma_intake_run(start, before);
        let n = events.len() as int;
        assert(events[n - 1] == events.last());
        if n > 1 {
            assert(events[n - 2] == before[n - 2]);
        }
        if n > 2 {
            assert(events[n - 3] == before[n - 3]);
        }
    }
}

/// An intake never gets stuck: whatever was asked for, what can come of it is
/// accepted, and only the answer ends the intake.
pub proof fn law_every_intake_action_can_be_answered(
    start: Intake<Seq<char>>,
    events: Seq<IntakeEvent<Seq<char>>>,
    event: IntakeEvent<Seq<char>>,
)
    requires
        is_intake_run(start, events),
    ensures
        ({
            let fits = match intake_actions(start, events).last() {
                IntakeAction::InsertTransaction(_) => event is Inserted || event is Failed,
                IntakeAction::LoadExisting { .. } => event is Existing || event is Failed,
                IntakeAction::Return(_) => false,
                _ => event is Done || event is Failed,
            };
            is_intake_run(start, events.push(event)) <==> fits
        }),
{
    lemma_intake_run(start, events);
    assert(events.push(event).drop_last() =~= events);
    if events.len() > 0 {
        lemma_intake_run(start, events.drop_last());
    }
}

} // verus!
