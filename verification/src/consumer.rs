//! Taking messages from the queue.
//!
//! A [`Delivery`] decides what is to be done with each message. Whoever drives
//! it performs each [`DeliveryAction`] and answers with the [`DeliveryEvent`]
//! that came of it.
//!
//! The offset of a message is committed only after the message was dealt with,
//! so that every message is delivered at least once:
//! - A message that was processed is committed.
//! - A message that could not be processed is put into the dead-letter queue,
//!   and committed only when that worked. Until then no other message is
//!   received, so that no later commit can pass it: the letter is written again
//!   and again, and after a restart the message is delivered again.
//! - A message that cannot be read can never be processed. It is put into the
//!   dead-letter queue and committed even if that did not work, so that it does
//!   not block the queue for ever.
use backon::BackoffBuilder;
use vstd::arithmetic::power2::pow2;
use vstd::prelude::*;
use vstd::string::*;

use crate::config::WorkerConfig;
use crate::error::DbErrorKind;
use crate::hexadecimal::{copy_bytes, encode, hex_text};
use crate::processor::{result_view, ProcessError};
use crate::text::{joined, nat_text, u64_text};

verus! {

/// The longest delay between two tries, in seconds.
pub const MAX_RETRY_DELAY_SECS: u64 = 30;

/// How long to wait after a failed receive, in milliseconds.
pub const RECEIVE_PAUSE_MILLIS: u64 = 500;

/// How long to wait before a dead letter is written again, in milliseconds.
pub const BURY_PAUSE_MILLIS: u64 = 500;

/// How long the exponential backoff of `backon` waits before retry `attempt`,
/// counted from 0, in nanoseconds.
pub uninterp spec fn backoff_nanos(
    min_millis: u64,
    max_secs: u64,
    max_times: usize,
    attempt: usize,
) -> Option<u128>;

/// Whether `serde_json` reads some JSON value from bytes.
pub uninterp spec fn json_readable(bytes: Seq<u8>) -> bool;

/// A delay that was doubled `times` times, but no more than `max`.
pub open spec fn doubled(delay: nat, times: nat, max: nat) -> nat {
    if delay * pow2(times) < max {
        delay * pow2(times)
    } else {
        max
    }
}

/// Whether a delay follows another in nanoseconds: it is twice as long, to one
/// part in a hundred thousand and a nanosecond, but no longer than `max`.
pub open spec fn nearly_doubled(delay: nat, next: nat, max: nat) -> bool {
    if delay >= max {
        next == max
    } else {
        &&& next <= max
        &&& 100_000 * next <= 200_001 * delay + 100_000
        &&& next == max || 199_999 * delay <= 100_000 * next + 100_000
    }
}

/// Calls `backon::ExponentialBuilder`: a builder with the given smallest and
/// largest delay and number of retries is built, and retry `attempt` is asked
/// of it. The answer depends on these numbers alone. There is a delay for each
/// of the `max_times` retries. The first is the smallest delay, the others are
/// no longer than the largest. They double until they reach the largest: exactly
/// for multiples of an eighth of a second, up to a thousand seconds, and otherwise
/// but for what is rounded away in single precision.
#[verifier::external_body]
fn exponential_delay(min_millis: u64, max_secs: u64, max_times: usize, attempt: usize) -> (r: Option<
    u128,
>)
    ensures
        r == backoff_nanos(min_millis, max_secs, max_times, attempt),
        r is Some <==> attempt < max_times,
        r is Some && attempt == 0 ==> r->0 == min_millis * 1_000_000,
        r is Some && attempt > 0 ==> r->0 <= max_secs * 1_000_000_000,
        r is Some && attempt > 0 ==> nearly_doubled(
            backoff_nanos(min_millis, max_secs, max_times, (attempt - 1) as usize)->0 as nat,
            r->0 as nat,
            (max_secs * 1_000_000_000) as nat,
        ),
        r is Some && min_millis % 125 == 0 && min_millis <= max_secs * 1000 && max_secs <= 1000
            ==> r->0 == doubled(
            min_millis as nat,
            attempt as nat,
            (max_secs * 1000) as nat,
        ) * 1_000_000,
{
    backon::ExponentialBuilder::default()
        .with_min_delay(std::time::Duration::from_millis(min_millis))
        .with_max_delay(std::time::Duration::from_secs(max_secs))
        .with_max_times(max_times)
        .build()
        .nth(attempt)
        .map(|delay| delay.as_nanos())
}

/// Calls `serde_json::from_slice` for a `serde_json::Value` and says whether
/// there was one. That depends on the bytes alone.
#[verifier::external_body]
fn is_json(bytes: &[u8]) -> (r: bool)
    ensures
        r == json_readable(bytes@),
{
    serde_json::from_slice::<serde_json::Value>(bytes).is_ok()
}

/// What a dead letter holds of the message.
#[derive(Debug)]
pub enum LetterBody<P = Vec<u8>, S = String> {
    /// The message, which is JSON.
    Json(P),
    /// The message in hexadecimal, to be stored under the name `raw`.
    Raw(S),
}

/// An entry of the dead-letter queue.
#[derive(Debug)]
pub struct DeadLetter<P = Vec<u8>, S = String> {
    pub source_topic: S,
    pub body: LetterBody<P, S>,
    pub error_message: S,
}

impl View for DeadLetter<Vec<u8>, String> {
    type V = DeadLetter<Seq<u8>, Seq<char>>;

    open spec fn view(&self) -> DeadLetter<Seq<u8>, Seq<char>> {
        DeadLetter {
            source_topic: self.source_topic@,
            body: match self.body {
                LetterBody::Json(payload) => LetterBody::Json(payload@),
                LetterBody::Raw(hex) => LetterBody::Raw(hex@),
            },
            error_message: self.error_message@,
        }
    }
}

/// The dead letter for a message: the message itself where it is JSON, and its
/// bytes in hexadecimal otherwise.
pub open spec fn dead_letter(
    topic: Seq<char>,
    payload: Seq<u8>,
    json: bool,
    error: Seq<char>,
) -> DeadLetter<Seq<u8>, Seq<char>> {
    DeadLetter {
        source_topic: topic,
        body: if json {
            LetterBody::Json(payload)
        } else {
            LetterBody::Raw(hex_text(payload))
        },
        error_message: error,
    }
}

/// Makes a dead letter for a message that is known to be JSON or not.
pub fn write_letter(topic: &str, payload: &Vec<u8>, json: bool, error: &str) -> (r: DeadLetter)
    ensures
        r@ == dead_letter(topic@, payload@, json, error@),
{
    let body = if json {
        LetterBody::Json(copy_bytes(payload))
    } else {
        LetterBody::Raw(encode(payload.as_slice()))
    };
    DeadLetter { source_topic: topic.to_string(), body, error_message: error.to_string() }
}

/// Where the handling of messages stands.
#[derive(Debug)]
pub enum Delivery<P = Vec<u8>, S = String> {
    Receiving,
    Pausing,
    Decoding(P),
    Processing(P),
    /// The message goes into the dead-letter queue; `unreadable` says whether
    /// that is because it cannot be read.
    Burying { payload: P, error: S, unreadable: bool },
    /// The dead-letter queue did not take the message; it is to be tried again.
    Holding { payload: P, error: S },
    Committing,
}

pub type DeliveryView = Delivery<Seq<u8>, Seq<char>>;

impl View for Delivery<Vec<u8>, String> {
    type V = DeliveryView;

    open spec fn view(&self) -> DeliveryView {
        match self {
            Delivery::Receiving => Delivery::Receiving,
            Delivery::Pausing => Delivery::Pausing,
            Delivery::Decoding(payload) => Delivery::Decoding(payload@),
            Delivery::Processing(payload) => Delivery::Processing(payload@),
            Delivery::Burying { payload, error, unreadable } => Delivery::Burying {
                payload: payload@,
                error: error@,
                unreadable: *unreadable,
            },
            Delivery::Holding { payload, error } => Delivery::Holding {
                payload: payload@,
                error: error@,
            },
            Delivery::Committing => Delivery::Committing,
        }
    }
}

/// What came of an action.
#[derive(Debug)]
pub enum DeliveryEvent<P = Vec<u8>, S = String> {
    /// Nothing could be received.
    ReceiveFailed,
    /// A message was received, with or without a payload.
    Received(Option<P>),
    /// The payload was read as an event.
    Decoded,
    /// The payload could not be read as an event.
    Unreadable(S),
    /// The event was processed, with all retries.
    Processed(Result<(), ProcessError<S>>),
    /// Whether the dead letter was stored.
    Buried(bool),
    /// The pause is over, or the commit was sent.
    Done,
}

pub type DeliveryEventView = DeliveryEvent<Seq<u8>, Seq<char>>;

impl View for DeliveryEvent<Vec<u8>, String> {
    type V = DeliveryEventView;

    open spec fn view(&self) -> DeliveryEventView {
        match self {
            DeliveryEvent::ReceiveFailed => DeliveryEvent::ReceiveFailed,
            DeliveryEvent::Received(None) => DeliveryEvent::Received(None),
            DeliveryEvent::Received(Some(payload)) => DeliveryEvent::Received(Some(payload@)),
            DeliveryEvent::Decoded => DeliveryEvent::Decoded,
            DeliveryEvent::Unreadable(error) => DeliveryEvent::Unreadable(error@),
            DeliveryEvent::Processed(result) => DeliveryEvent::Processed(result_view(*result)),
            DeliveryEvent::Buried(stored) => DeliveryEvent::Buried(*stored),
            DeliveryEvent::Done => DeliveryEvent::Done,
        }
    }
}

/// What is to be done next.
#[derive(Debug)]
pub enum DeliveryAction<L = DeadLetter> {
    Receive,
    /// Wait for so many milliseconds.
    Pause(u64),
    /// Read the payload as an event.
    Decode,
    /// Process the event, with retries.
    Process,
    /// Put a letter into the dead-letter queue.
    Bury(L),
    /// Commit the message's offset.
    Commit,
}

pub type DeliveryActionView = DeliveryAction<DeadLetter<Seq<u8>, Seq<char>>>;

impl View for DeliveryAction<DeadLetter<Vec<u8>, String>> {
    type V = DeliveryActionView;

    open spec fn view(&self) -> DeliveryActionView {
        match self {
            DeliveryAction::Receive => DeliveryAction::Receive,
            DeliveryAction::Pause(millis) => DeliveryAction::Pause(*millis),
            DeliveryAction::Decode => DeliveryAction::Decode,
            DeliveryAction::Process => DeliveryAction::Process,
            DeliveryAction::Bury(letter) => DeliveryAction::Bury(letter@),
            DeliveryAction::Commit => DeliveryAction::Commit,
        }
    }
}

impl DeliveryView {
    /// Whether an event can come of the action that was asked for.
    pub open spec fn accepts(self, event: DeliveryEventView) -> bool {
        match self {
            Delivery::Receiving => event is ReceiveFailed || event is Received,
            Delivery::Pausing => event is Done,
            Delivery::Decoding(_) => event is Decoded || event is Unreadable,
            Delivery::Processing(_) => event is Processed,
            Delivery::Burying { .. } => event is Buried,
            Delivery::Holding { .. } => event is Done,
            Delivery::Committing => event is Done,
        }
    }

    /// A message goes into the dead-letter queue.
    pub open spec fn bury(
        topic: Seq<char>,
        payload: Seq<u8>,
        error: Seq<char>,
        unreadable: bool,
    ) -> (DeliveryView, DeliveryActionView) {
        (
            Delivery::Burying { payload, error, unreadable },
            DeliveryAction::Bury(dead_letter(topic, payload, json_readable(payload), error)),
        )
    }

    /// What an event leads to, for messages of a topic.
    pub open spec fn next(self, topic: Seq<char>, event: DeliveryEventView) -> (
        DeliveryView,
        DeliveryActionView,
    ) {
        let receive = (Delivery::Receiving, DeliveryAction::Receive);
        let commit = (Delivery::Committing, DeliveryAction::Commit);
        match (self, event) {
            (Delivery::Receiving, DeliveryEvent::ReceiveFailed) => (
                Delivery::Pausing,
                DeliveryAction::Pause(RECEIVE_PAUSE_MILLIS),
            ),
            (Delivery::Receiving, DeliveryEvent::Received(None)) => commit,
            (Delivery::Receiving, DeliveryEvent::Received(Some(payload))) => (
                Delivery::Decoding(payload),
                DeliveryAction::Decode,
            ),
            (Delivery::Decoding(payload), DeliveryEvent::Decoded) => (
                Delivery::Processing(payload),
                DeliveryAction::Process,
            ),
            (Delivery::Decoding(payload), DeliveryEvent::Unreadable(error)) => DeliveryView::bury(
                topic,
                payload,
                error,
                true,
            ),
            (Delivery::Processing(_), DeliveryEvent::Processed(Ok(_))) => commit,
            (
                Delivery::Processing(payload),
                DeliveryEvent::Processed(Err(e)),
            ) => DeliveryView::bury(topic, payload, e.text(), false),
            (
                Delivery::Burying { payload, error, unreadable },
                DeliveryEvent::Buried(stored),
            ) => if stored || unreadable {
                commit
            } else {
                (Delivery::Holding { payload, error }, DeliveryAction::Pause(BURY_PAUSE_MILLIS))
            },
            (Delivery::Holding { payload, error }, DeliveryEvent::Done) => DeliveryView::bury(
                topic,
                payload,
                error,
                false,
            ),
            (Delivery::Pausing, DeliveryEvent::Done) => receive,
            (Delivery::Committing, DeliveryEvent::Done) => receive,
            // No other event is accepted.
            _ => (self, DeliveryAction::Pause(0)),
        }
    }
}

impl Delivery {
    /// Whether an event can come of the action that was asked for.
    pub fn fits(&self, event: &DeliveryEvent) -> (r: bool)
        ensures
            r == self@.accepts(event@),
    {
        match (self, event) {
            (Delivery::Receiving, DeliveryEvent::ReceiveFailed) => true,
            (Delivery::Receiving, DeliveryEvent::Received(_)) => true,
            (Delivery::Pausing, DeliveryEvent::Done) => true,
            (Delivery::Decoding(_), DeliveryEvent::Decoded) => true,
            (Delivery::Decoding(_), DeliveryEvent::Unreadable(_)) => true,
            (Delivery::Processing(_), DeliveryEvent::Processed(_)) => true,
            (Delivery::Burying { .. }, DeliveryEvent::Buried(_)) => true,
            (Delivery::Holding { .. }, DeliveryEvent::Done) => true,
            (Delivery::Committing, DeliveryEvent::Done) => true,
            _ => false,
        }
    }
}

/// Whether to try again.
#[derive(Debug)]
pub enum Retry<S = String> {
    /// Try again after so many nanoseconds; that is then retry `attempt`,
    /// counted from 1.
    Again { delay_nanos: u128, attempt: usize },
    /// Do not try again.
    Finished(Result<(), ProcessError<S>>),
}

impl View for Retry<String> {
    type V = Retry<Seq<char>>;

    open spec fn view(&self) -> Retry<Seq<char>> {
        match self {
            Retry::Again { delay_nanos, attempt } => Retry::Again {
                delay_nanos: *delay_nanos,
                attempt: *attempt,
            },
            Retry::Finished(result) => Retry::Finished(result_view(*result)),
        }
    }
}

/// What follows a try, when `attempt` retries were made before and `delay` is
/// the wait before another: errors that cannot be helped by another try are
/// final, and so is every error when there is no delay left.
pub open spec fn retry_after(
    attempt: usize,
    delay: Option<u128>,
    outcome: Result<(), ProcessError<Seq<char>>>,
) -> Retry<Seq<char>> {
    match (outcome, delay) {
        (Err(e), Some(delay_nanos)) => if e.retryable() {
            Retry::Again { delay_nanos, attempt: (attempt + 1) as usize }
        } else {
            Retry::Finished(outcome)
        },
        _ => Retry::Finished(outcome),
    }
}

/// Decides what follows a try.
pub fn decide_retry(attempt: usize, delay: Option<u128>, outcome: Result<(), ProcessError>) -> (r:
    Retry)
    requires
        delay is Some ==> attempt < usize::MAX,
    ensures
        r@ == retry_after(attempt, delay, result_view(outcome)),
{
    let retryable = match &outcome {
        Ok(_) => false,
        Err(e) => e.is_retryable(),
    };
    match delay {
        Some(delay_nanos) => if retryable {
            Retry::Again { delay_nanos, attempt: attempt + 1 }
        } else {
            Retry::Finished(outcome)
        },
        None => Retry::Finished(outcome),
    }
}

/// The name of a worker: a prefix and a number.
pub fn worker_name(prefix: &str, number: usize) -> (r: String)
    ensures
        r@ == prefix@ + "-"@ + nat_text(number as nat),
{
    let mut r = joined(prefix, "-");
    r.append(u64_text(number as u64).as_str());
    r
}

/// A consumer of transaction events.
#[derive(Debug)]
pub struct TransactionConsumer {
    pub worker_id: String,
    pub config: WorkerConfig,
}

impl TransactionConsumer {
    pub fn new(worker_id: String, config: WorkerConfig) -> (r: TransactionConsumer)
        ensures
            r.worker_id == worker_id,
            r.config == config,
    {
        TransactionConsumer { worker_id, config }
    }

    /// Goes on with the handling of messages after an event. It starts with
    /// [`Delivery::Receiving`] and [`DeliveryAction::Receive`].
    pub fn run(&self, delivery: Delivery, event: DeliveryEvent) -> (r: (Delivery, DeliveryAction))
        requires
            delivery@.accepts(event@),
        ensures
            (r.0@, r.1@) == delivery@.next(self.config.kafka_topic_transactions@, event@),
    {
        match (delivery, event) {
            (Delivery::Receiving, DeliveryEvent::ReceiveFailed) => (
                Delivery::Pausing,
                DeliveryAction::Pause(RECEIVE_PAUSE_MILLIS),
            ),
            (Delivery::Receiving, DeliveryEvent::Received(None)) => (
                Delivery::Committing,
                DeliveryAction::Commit,
            ),
            (Delivery::Receiving, DeliveryEvent::Received(Some(payload))) => (
                Delivery::Decoding(payload),
                DeliveryAction::Decode,
            ),
            (Delivery::Decoding(payload), DeliveryEvent::Decoded) => (
                Delivery::Processing(payload),
                DeliveryAction::Process,
            ),
            (Delivery::Decoding(payload), DeliveryEvent::Unreadable(error)) => self.bury(
                payload,
                error,
                true,
            ),
            (Delivery::Processing(_), DeliveryEvent::Processed(Ok(_))) => (
                Delivery::Committing,
                DeliveryAction::Commit,
            ),
            (Delivery::Processing(payload), DeliveryEvent::Processed(Err(e))) => self.bury(
                payload,
                e.to_text(),
                false,
            ),
            (
                Delivery::Burying { payload, error, unreadable },
                DeliveryEvent::Buried(stored),
            ) => if stored || unreadable {
                (Delivery::Committing, DeliveryAction::Commit)
            } else {
                (Delivery::Holding { payload, error }, DeliveryAction::Pause(BURY_PAUSE_MILLIS))
            },
            (Delivery::Holding { payload, error }, DeliveryEvent::Done) => self.bury(
                payload,
                error,
                false,
            ),
            (Delivery::Pausing, DeliveryEvent::Done) => (
                Delivery::Receiving,
                DeliveryAction::Receive,
            ),
            (Delivery::Committing, DeliveryEvent::Done) => (
                Delivery::Receiving,
                DeliveryAction::Receive,
            ),
            (delivery, _) => (delivery, DeliveryAction::Pause(0)),
        }
    }

    fn bury(&self, payload: Vec<u8>, error: String, unreadable: bool) -> (r: (
        Delivery,
        DeliveryAction,
    ))
        ensures
            (r.0@, r.1@) == DeliveryView::bury(
                self.config.kafka_topic_transactions@,
                payload@,
                error@,
                unreadable,
            ),
    {
        let letter = self.send_to_dlq(&payload, error.as_str());
        (Delivery::Burying { payload, error, unreadable }, DeliveryAction::Bury(letter))
    }

    /// Decides what follows a try at an event, when `attempt` retries were made
    /// before. The delays grow exponentially from the configured one to
    /// [`MAX_RETRY_DELAY_SECS`], for the configured number of retries.
    pub fn process_with_retry(&self, attempt: usize, outcome: Result<(), ProcessError>) -> (r:
        Retry)
        ensures
            r@ == retry_after(
                attempt,
                backoff_nanos(
                    self.config.retry_backoff_ms,
                    MAX_RETRY_DELAY_SECS,
                    self.config.max_retries as usize,
                    attempt,
                ),
                result_view(outcome),
            ),
            outcome is Err && result_view(outcome)->Err_0.retryable() ==> (r is Again <==> attempt
                < self.config.max_retries),
            r matches Retry::Again { delay_nanos, attempt: n } ==> n == attempt + 1 && (if attempt
                == 0 {
                delay_nanos == self.config.retry_backoff_ms * 1_000_000
            } else {
                delay_nanos <= MAX_RETRY_DELAY_SECS * 1_000_000_000
            }),
            r is Again && attempt > 0 ==> nearly_doubled(
                backoff_nanos(
                    self.config.retry_backoff_ms,
                    MAX_RETRY_DELAY_SECS,
                    self.config.max_retries as usize,
                    (attempt - 1) as usize,
                )->0 as nat,
                r->delay_nanos as nat,
                (MAX_RETRY_DELAY_SECS * 1_000_000_000) as nat,
            ),
            r matches Retry::Again { delay_nanos, .. } ==> (self.config.retry_backoff_ms % 125 == 0
                && self.config.retry_backoff_ms <= MAX_RETRY_DELAY_SECS * 1000 ==> delay_nanos
                == doubled(
                self.config.retry_backoff_ms as nat,
                attempt as nat,
                (MAX_RETRY_DELAY_SECS * 1000) as nat,
            ) * 1_000_000),
    {
        let delay = exponential_delay(
            self.config.retry_backoff_ms,
            MAX_RETRY_DELAY_SECS,
            self.config.max_retries as usize,
            attempt,
        );
        decide_retry(attempt, delay, outcome)
    }

    /// The dead letter for a message that could not be dealt with.
    pub fn send_to_dlq(&self, payload: &Vec<u8>, error_message: &str) -> (r: DeadLetter)
        ensures
            r@ == dead_letter(
                self.config.kafka_topic_transactions@,
                payload@,
                json_readable(payload@),
                error_message@,
            ),
    {
        let json = is_json(payload.as_slice());
        write_letter(self.config.kafka_topic_transactions.as_str(), payload, json, error_message)
    }
}

/// Where the handling of messages stands after a sequence of events, from the
/// start.
pub open spec fn delivery_after(topic: Seq<char>, events: Seq<DeliveryEventView>) -> DeliveryView
    decreases events.len(),
{
    if events.len() == 0 {
        Delivery::Receiving
    } else {
        delivery_after(topic, events.drop_last()).next(topic, events.last()).0
    }
}

/// Whether each event can come of the action before it.
pub open spec fn is_delivery_run(topic: Seq<char>, events: Seq<DeliveryEventView>) -> bool
    decreases events.len(),
{
    events.len() > 0 ==> is_delivery_run(topic, events.drop_last()) && delivery_after(
        topic,
        events.drop_last(),
    ).accepts(events.last())
}

/// The action that is asked for after a sequence of events.
pub open spec fn action_after(topic: Seq<char>, events: Seq<DeliveryEventView>)
    -> DeliveryActionView {
    if events.len() == 0 {
        DeliveryAction::Receive
    } else {
        delivery_after(topic, events.drop_last()).next(topic, events.last()).1
    }
}

/// Whether event `failure` says that a readable message could not be processed,
/// and no letter was taken by the dead-letter queue since.
pub open spec fn unburied_since(events: Seq<DeliveryEventView>, failure: int) -> bool {
    &&& 0 <= failure < events.len()
    &&& events[failure] matches DeliveryEvent::Processed(Err(_))
    &&& forall|k: int|
        failure < k < events.len() ==> !((#[trigger] events[k]) matches DeliveryEvent::Buried(true))
}

proof fn lemma_unburied_is_held(topic: Seq<char>, events: Seq<DeliveryEventView>, failure: int)
    requires
        is_delivery_run(topic, events),
        unburied_since(events, failure),
    ensures
        delivery_after(topic, events) is Holding || (delivery_after(topic, events) matches
            Delivery::Burying { unreadable: false, .. }),
    decreases events.len(),
{
    let before = events.drop_last();
    if failure < events.len() - 1 {
        assert(before[failure] == events[failure]);
        assert forall|k: int| failure < k < before.len() implies !((#[trigger] before[k]) matches
            DeliveryEvent::Buried(true)) by {
            assert(before[k] == events[k]);
        }
        lemma_unburied_is_held(topic, before, failure);
        assert(events[events.len() - 1] == events.last());
    }
}

/// A message that could be read but not processed is held until the dead-letter
/// queue takes it: however long that lasts, nothing is committed and no other
/// message is received, so the offset does not pass the message, and after a
/// restart it is delivered again.
pub proof fn law_unburied_failure_is_held(
    topic: Seq<char>,
    events: Seq<DeliveryEventView>,
    failure: int,
)
    requires
        is_delivery_run(topic, events),
        unburied_since(events, failure),
    ensures
        !(action_after(topic, events) is Commit),
        !(action_after(topic, events) is Receive),
{
    lemma_unburied_is_held(topic, events, failure);
    if failure < events.len() - 1 {
        let before = events.drop_last();
        assert(before[failure] == events[failure]);
        assert forall|k: int| failure < k < before.len() implies !((#[trigger] before[k]) matches
            DeliveryEvent::Buried(true)) by {
            assert(before[k] == events[k]);
        }
        lemma_unburied_is_held(topic, before, failure);
        assert(events[events.len() - 1] == events.last());
    }
}

/// A held message is put into the dead-letter queue again after each pause, with
/// the same letter.
pub proof fn law_held_message_is_buried_again(
    topic: Seq<char>,
    payload: Seq<u8>,
    error: Seq<char>,
)
    ensures
        ({
            let burying = Delivery::Burying { payload, error, unreadable: false };
            let (held, pause) = burying.next(topic, DeliveryEvent::Buried(false));
            &&& pause is Pause
            &&& held.next(topic, DeliveryEvent::Done) == DeliveryView::bury(
                topic,
                payload,
                error,
                false,
            )
        }),
{
}

/// An offset is committed only when the message was empty, was processed, is in
/// the dead-letter queue, or can never be read.
pub proof fn law_commit_only_when_dealt_with(
    delivery: DeliveryView,
    topic: Seq<char>,
    event: DeliveryEventView,
)
    requires
        delivery.accepts(event),
        delivery.next(topic, event).1 is Commit,
    ensures
        ({
            ||| event matches DeliveryEvent::Received(None)
            ||| event matches DeliveryEvent::Processed(Ok(_))
            ||| event matches DeliveryEvent::Buried(true)
            ||| delivery matches Delivery::Burying { unreadable: true, .. }
        }),
{
}

/// The next message is received only after the one before was committed, or
/// after a pause because nothing could be received.
pub proof fn law_one_message_at_a_time(
    delivery: DeliveryView,
    topic: Seq<char>,
    event: DeliveryEventView,
)
    requires
        delivery.accepts(event),
        delivery.next(topic, event).1 is Receive,
    ensures
        delivery is Committing || delivery is Pausing,
{
}

/// A message that cannot be read never blocks the queue: whether or not the
/// dead-letter queue takes it, it is committed.
pub proof fn law_unreadable_message_is_committed(
    payload: Seq<u8>,
    topic: Seq<char>,
    error: Seq<char>,
    stored: bool,
)
    ensures
        ({
            let (burying, bury) = Delivery::<Seq<u8>, Seq<char>>::Decoding(payload).next(
                topic,
                DeliveryEvent::Unreadable(error),
            );
            &&& bury is Bury
            &&& burying.next(topic, DeliveryEvent::Buried(stored)).1 is Commit
        }),
{
}

/// The handling of messages never stops: after every event there is an action,
/// and every stage accepts some event.
pub proof fn law_delivery_never_stops(
    delivery: DeliveryView,
    topic: Seq<char>,
    event: DeliveryEventView,
)
    requires
        delivery.accepts(event),
    ensures
        exists|following: DeliveryEventView| delivery.next(topic, event).0.accepts(following),
{
    let next = delivery.next(topic, event).0;
    match next {
        Delivery::Receiving => assert(next.accepts(DeliveryEvent::ReceiveFailed)),
        Delivery::Pausing => assert(next.accepts(DeliveryEvent::Done)),
        Delivery::Decoding(_) => assert(next.accepts(DeliveryEvent::Decoded)),
        Delivery::Processing(_) => assert(next.accepts(DeliveryEvent::Processed(Ok(())))),
        Delivery::Burying { .. } => assert(next.accepts(DeliveryEvent::Buried(true))),
        Delivery::Holding { .. } => assert(next.accepts(DeliveryEvent::Done)),
        Delivery::Committing => assert(next.accepts(DeliveryEvent::Done)),
    }
}

/// Only an error that another try can help leads to one, every retry counts, and
/// with no delay left the outcome is final.
pub proof fn law_retries_are_bounded(
    attempt: usize,
    delay: Option<u128>,
    outcome: Result<(), ProcessError<Seq<char>>>,
)
    requires
        delay is Some ==> attempt < usize::MAX,
    ensures
        retry_after(attempt, None, outcome) == Retry::Finished(outcome),
        retry_after(attempt, delay, outcome) matches Retry::Again { attempt: n, .. } ==> n
            == attempt + 1 && outcome is Err && outcome->Err_0.retryable(),
{
}

/// The payload of the last message that had one.
pub open spec fn payload_received(events: Seq<DeliveryEventView>) -> Option<Seq<u8>>
    decreases events.len(),
{
    if events.len() == 0 {
        None
    } else {
        match events.last() {
            DeliveryEvent::Received(Some(payload)) => Some(payload),
            _ => payload_received(events.drop_last()),
        }
    }
}

/// What is wrong with a message: the error in words, and whether the message cannot
/// be read.
pub struct Trouble {
    pub error: Seq<char>,
    pub unreadable: bool,
}

/// What was wrong with the last message that could not be dealt with.
pub open spec fn trouble(events: Seq<DeliveryEventView>) -> Option<Trouble>
    decreases events.len(),
{
    if events.len() == 0 {
        None
    } else {
        match events.last() {
            DeliveryEvent::Unreadable(error) => Some(Trouble { error, unreadable: true }),
            DeliveryEvent::Processed(Err(e)) => Some(Trouble { error: e.text(), unreadable: false }),
            _ => trouble(events.drop_last()),
        }
    }
}

spec fn recalls(topic: Seq<char>, events: Seq<DeliveryEventView>) -> bool {
    let received = payload_received(events);
    let action = action_after(topic, events);
    match delivery_after(topic, events) {
        Delivery::Receiving => action is Receive,
        Delivery::Pausing => action == DeliveryActionView::Pause(500) && events.len() > 0
            && events.last() is ReceiveFailed,
        Delivery::Decoding(p) => action is Decode && received == Some(p),
        Delivery::Processing(p) => action is Process && received == Some(p),
        Delivery::Burying { payload, error, unreadable } => {
            &&& received == Some(payload)
            &&& trouble(events) == Some(Trouble { error, unreadable })
            &&& action == DeliveryActionView::Bury(
                dead_letter(topic, payload, json_readable(payload), error),
            )
        },
        Delivery::Holding { payload, error } => {
            &&& received == Some(payload)
            &&& trouble(events) == Some(Trouble { error, unreadable: false })
            &&& action == DeliveryActionView::Pause(500)
            &&& events.len() > 0
            &&& events.last() is Buried
        },
        Delivery::Committing => action is Commit,
    }
}

proof fn lemma_recalls(topic: Seq<char>, events: Seq<DeliveryEventView>)
    requires
        is_delivery_run(topic, events),
    ensures
        recalls(topic, events),
    decreases events.len(),
{
    if events.len() > 0 {
        lemma_recalls(topic, events.drop_last());
    }
}

/// A dead letter tells the topic, the error in words and the message that was
/// received: the message itself where it is JSON, and its bytes in hexadecimal
/// otherwise. That holds however often it is written.
pub proof fn law_dead_letter_holds_the_message(topic: Seq<char>, events: Seq<DeliveryEventView>)
    requires
        is_delivery_run(topic, events),
        action_after(topic, events) is Bury,
    ensures
        ({
            let letter = action_after(topic, events)->Bury_0;
            &&& letter.source_topic == topic
            &&& trouble(events) is Some
            &&& letter.error_message == trouble(events)->0.error
            &&& payload_received(events) is Some
            &&& json_readable(payload_received(events)->0) ==> letter.body == LetterBody::<
                Seq<u8>,
                Seq<char>,
            >::Json(payload_received(events)->0)
            &&& !json_readable(payload_received(events)->0) ==> letter.body == LetterBody::<
                Seq<u8>,
                Seq<char>,
            >::Raw(hex_text(payload_received(events)->0))
        }),
{
    lemma_recalls(topic, events);
}

/// What came of an action decides what follows: a message is read, processed and
/// committed; one that cannot be read or processed is buried, and committed once
/// that worked; a failed burial of one that can be read is tried again after a
/// pause, and of one that cannot is let go.
pub proof fn law_what_follows(topic: Seq<char>, events: Seq<DeliveryEventView>)
    requires
        is_delivery_run(topic, events),
        events.len() > 0,
    ensures
        ({
            let asked = action_after(topic, events.drop_last());
            let then = action_after(topic, events);
            match (asked, events.last()) {
                (DeliveryAction::Receive, DeliveryEvent::ReceiveFailed) => then
                    == DeliveryActionView::Pause(500),
                (DeliveryAction::Receive, DeliveryEvent::Received(None)) => then is Commit,
                (DeliveryAction::Receive, DeliveryEvent::Received(Some(_))) => then is Decode,
                (DeliveryAction::Decode, DeliveryEvent::Decoded) => then is Process,
                (DeliveryAction::Decode, DeliveryEvent::Unreadable(_)) => then is Bury,
                (DeliveryAction::Process, DeliveryEvent::Processed(Ok(_))) => then is Commit,
                (DeliveryAction::Process, DeliveryEvent::Processed(Err(_))) => then is Bury,
                (DeliveryAction::Bury(_), DeliveryEvent::Buried(stored)) => if stored || trouble(
                    events,
                )->0.unreadable {
                    then is Commit
                } else {
                    then == DeliveryActionView::Pause(500)
                },
                (DeliveryAction::Pause(_), DeliveryEvent::Done) => if events.drop_last().last()
                    is Buried {
                    then is Bury
                } else {
                    then is Receive
                },
                (DeliveryAction::Commit, DeliveryEvent::Done) => then is Receive,
                _ => false,
            }
        }),
{
    lemma_recalls(topic, events.drop_last());
    lemma_recalls(topic, events);
}

/// Whatever was asked for, what can come of it is accepted.
pub proof fn law_every_delivery_action_can_be_answered(
    topic: Seq<char>,
    events: Seq<DeliveryEventView>,
    event: DeliveryEventView,
)
    requires
        is_delivery_run(topic, events),
    ensures
        ({
            let fits = match action_after(topic, events) {
                DeliveryAction::Receive => event is ReceiveFailed || event is Received,
                DeliveryAction::Decode => event is Decoded || event is Unreadable,
                DeliveryAction::Process => event is Processed,
                DeliveryAction::Bury(_) => event is Buried,
                _ => event is Done,
            };
            is_delivery_run(topic, events.push(event)) <==> fits
        }),
{
    lemma_recalls(topic, events);
    assert(events.push(event).drop_last() =~= events);
}

/// An event is tried again exactly when its error can be helped by another try (no
/// connection was free, or the record was changed) and there is a delay left; then
/// it is tried after this delay, as the next attempt. Otherwise the outcome stands.
pub proof fn law_when_to_try_again(
    attempt: usize,
    delay: Option<u128>,
    outcome: Result<(), ProcessError<Seq<char>>>,
)
    requires
        attempt < usize::MAX,
    ensures
        ({
            let can_be_helped = outcome matches Err(e) && ((e matches ProcessError::Database(db)
                && db.kind == DbErrorKind::PoolTimedOut) || (e matches ProcessError::Domain(d) && d
                is OptimisticLockConflict));
            retry_after(attempt, delay, outcome) == (if can_be_helped && delay is Some {
                Retry::Again { delay_nanos: delay->0, attempt: (attempt + 1) as usize }
            } else {
                Retry::Finished(outcome)
            })
        }),
{
}

/// A dead letter, an event and a decision, as contracts see them, have the fields
/// they have.
pub proof fn law_delivery_views_keep_the_fields(
    topic: String,
    error: String,
    payload: Vec<u8>,
    hex: String,
    stored: bool,
    e: ProcessError,
    delay_nanos: u128,
    attempt: usize,
)
    ensures
        ({
            let letter = DeadLetter {
                source_topic: topic,
                body: LetterBody::Json(payload),
                error_message: error,
            };
            letter@ == (DeadLetter::<Seq<u8>, Seq<char>> {
                source_topic: topic@,
                body: LetterBody::Json(payload@),
                error_message: error@,
            }) && DeliveryAction::Bury(letter)@ == DeliveryAction::Bury(letter@)
        }),
        (DeadLetter {
            source_topic: topic,
            body: LetterBody::Raw::<Vec<u8>, String>(hex),
            error_message: error,
        })@.body == LetterBody::Raw::<Seq<u8>, Seq<char>>(hex@),
        DeliveryEvent::<Vec<u8>, String>::Received(Some(payload))@ == DeliveryEvent::<
            Seq<u8>,
            Seq<char>,
        >::Received(Some(payload@)),
        DeliveryEvent::<Vec<u8>, String>::Unreadable(error)@ == DeliveryEvent::<
            Seq<u8>,
            Seq<char>,
        >::Unreadable(error@),
        DeliveryEvent::<Vec<u8>, String>::Processed(Err(e))@ == DeliveryEvent::<
            Seq<u8>,
            Seq<char>,
        >::Processed(Err(e@)),
        DeliveryEvent::<Vec<u8>, String>::Buried(stored)@ == DeliveryEvent::<
            Seq<u8>,
            Seq<char>,
        >::Buried(stored),
        (Retry::<String>::Again { delay_nanos, attempt })@ == (Retry::<Seq<char>>::Again {
            delay_nanos,
            attempt,
        }),
        Retry::Finished(Err(e))@ == Retry::Finished(Err::<(), ProcessError<Seq<char>>>(e@)),
{
}

} // verus!
