//! Publishing the events of the outbox.
//!
//! A [`Batch`] decides, step by step, what is to be done with a batch of pending
//! events. Whoever drives it performs each [`RelayAction`] and answers with the
//! [`RelayEvent`] that came of it, until the action is to return.
//!
//! An event is marked as published only after it was acknowledged, so that it is
//! delivered at least once. An event that was not sent stays pending, however
//! often that happens, so that none is lost. Events with the same partition key
//! are published in order: after one that was not sent, the later ones wait for
//! another batch.
use vstd::prelude::*;
use vstd::string::*;

use crate::error::DbError;
use crate::hexadecimal::copy_bytes;
use crate::ident::Uuid;
use crate::text::same_text;

verus! {

/// How long to wait after an error, in milliseconds.
pub const ERROR_PAUSE_MILLIS: u64 = 5_000;

/// Where an event of the outbox stands.
#[derive(Debug, Clone, Copy, PartialEq, Eq, Structural)]
pub enum EventStatus {
    Pending,
    Published,
}

impl EventStatus {
    /// The status as the database stores it.
    pub open spec fn code(self) -> Seq<char> {
        match self {
            EventStatus::Pending => "PENDING"@,
            EventStatus::Published => "PUBLISHED"@,
        }
    }

    /// The status as the database stores it.
    pub fn as_str(&self) -> (r: &'static str)
        ensures
            r@ == self.code(),
    {
        match self {
            EventStatus::Pending => "PENDING",
            EventStatus::Published => "PUBLISHED",
        }
    }
}

/// A pending event of the outbox.
#[derive(Debug)]
pub struct OutboxRow<S = String, P = Vec<u8>> {
    pub id: Uuid,
    pub topic: S,
    pub partition_key: S,
    pub payload: P,
    /// How often it was tried in vain.
    pub retry_count: i64,
}

pub type OutboxRowView = OutboxRow<Seq<char>, Seq<u8>>;

impl View for OutboxRow<String, Vec<u8>> {
    type V = OutboxRowView;

    open spec fn view(&self) -> OutboxRowView {
        OutboxRow {
            id: self.id,
            topic: self.topic@,
            partition_key: self.partition_key@,
            payload: self.payload@,
            retry_count: self.retry_count,
        }
    }
}

pub open spec fn rows_view(rows: Seq<OutboxRow>) -> Seq<OutboxRowView> {
    rows.map_values(|row: OutboxRow| row@)
}

/// What is stored of an event that was not sent.
#[derive(Debug)]
pub struct SendFailure<S = String> {
    pub id: Uuid,
    pub status: EventStatus,
    /// How often it was tried in vain, this time counted.
    pub retry_count: i64,
    /// Why it was not sent.
    pub error: S,
}

impl View for SendFailure<String> {
    type V = SendFailure<Seq<char>>;

    open spec fn view(&self) -> SendFailure<Seq<char>> {
        SendFailure {
            id: self.id,
            status: self.status,
            retry_count: self.retry_count,
            error: self.error@,
        }
    }
}

pub open spec fn failures_view(failures: Seq<SendFailure>) -> Seq<SendFailure<Seq<char>>> {
    failures.map_values(|failure: SendFailure| failure@)
}

/// What is to be done next.
#[derive(Debug)]
pub enum RelayAction<R = OutboxRow, I = Vec<Uuid>, F = SendFailure, D = DbError> {
    /// Begin a database transaction.
    Begin,
    /// Fetch the oldest pending events, `limit` of them at most, oldest first, and
    /// lock them; events that are locked already are skipped.
    Fetch { limit: i64 },
    /// Send an event under its topic and key, and wait for the acknowledgement.
    Send(R),
    /// Set the status of events to [`EventStatus::Published`].
    MarkPublished(I),
    /// Store status, count and error of an event that was not sent.
    RecordFailure(F),
    Commit,
    Rollback,
    /// Drop the database transaction, if it is still open, and return the number
    /// of published events.
    Return(Result<usize, D>),
}

pub type RelayActionView = RelayAction<
    OutboxRowView,
    Seq<Uuid>,
    SendFailure<Seq<char>>,
    DbError<Seq<char>>,
>;

pub open spec fn count_view(count: Result<usize, DbError>) -> Result<usize, DbError<Seq<char>>> {
    match count {
        Ok(n) => Ok(n),
        Err(e) => Err(e@),
    }
}

impl View for RelayAction<OutboxRow, Vec<Uuid>, SendFailure, DbError> {
    type V = RelayActionView;

    open spec fn view(&self) -> RelayActionView {
        match self {
            RelayAction::Begin => RelayAction::Begin,
            RelayAction::Fetch { limit } => RelayAction::Fetch { limit: *limit },
            RelayAction::Send(row) => RelayAction::Send(row@),
            RelayAction::MarkPublished(ids) => RelayAction::MarkPublished(ids@),
            RelayAction::RecordFailure(failure) => RelayAction::RecordFailure(failure@),
            RelayAction::Commit => RelayAction::Commit,
            RelayAction::Rollback => RelayAction::Rollback,
            RelayAction::Return(count) => RelayAction::Return(count_view(*count)),
        }
    }
}

/// What came of an action.
#[derive(Debug)]
pub enum RelayEvent<L = Vec<OutboxRow>, S = String> {
    /// It was done.
    Done,
    /// The database reported an error.
    Failed(DbError<S>),
    /// The fetched events, oldest first.
    Fetched(L),
    /// The event was acknowledged.
    Sent,
    /// The event was not sent.
    NotSent(S),
}

pub type RelayEventView = RelayEvent<Seq<OutboxRowView>, Seq<char>>;

impl View for RelayEvent<Vec<OutboxRow>, String> {
    type V = RelayEventView;

    open spec fn view(&self) -> RelayEventView {
        match self {
            RelayEvent::Done => RelayEvent::Done,
            RelayEvent::Failed(e) => RelayEvent::Failed(e@),
            RelayEvent::Fetched(rows) => RelayEvent::Fetched(rows_view(rows@)),
            RelayEvent::Sent => RelayEvent::Sent,
            RelayEvent::NotSent(error) => RelayEvent::NotSent(error@),
        }
    }
}

/// Where a batch stands.
#[derive(Debug)]
pub enum Batch<L = Vec<OutboxRow>, I = Vec<Uuid>, F = Vec<SendFailure>, K = Vec<String>> {
    /// The batch may hold so many events.
    Beginning { limit: i64 },
    Fetching,
    /// Event `next` is being sent; those before it are published, failed, or
    /// wait because their partition key is stuck.
    Sending { rows: L, next: usize, published: I, failures: F, stuck: K },
    /// The published events, so many, are being marked.
    Marking { count: usize, failures: F },
    /// Failure `next` is being recorded.
    Recording { count: usize, failures: F, next: usize },
    Committing { count: usize },
    RollingBack,
    Finished,
}

pub type BatchView = Batch<
    Seq<OutboxRowView>,
    Seq<Uuid>,
    Seq<SendFailure<Seq<char>>>,
    Seq<Seq<char>>,
>;

pub open spec fn keys_view(keys: Seq<String>) -> Seq<Seq<char>> {
    keys.map_values(|key: String| key@)
}

impl View for Batch<Vec<OutboxRow>, Vec<Uuid>, Vec<SendFailure>, Vec<String>> {
    type V = BatchView;

    open spec fn view(&self) -> BatchView {
        match self {
            Batch::Beginning { limit } => Batch::Beginning { limit: *limit },
            Batch::Fetching => Batch::Fetching,
            Batch::Sending { rows, next, published, failures, stuck } => Batch::Sending {
                rows: rows_view(rows@),
                next: *next,
                published: published@,
                failures: failures_view(failures@),
                stuck: keys_view(stuck@),
            },
            Batch::Marking { count, failures } => Batch::Marking {
                count: *count,
                failures: failures_view(failures@),
            },
            Batch::Recording { count, failures, next } => Batch::Recording {
                count: *count,
                failures: failures_view(failures@),
                next: *next,
            },
            Batch::Committing { count } => Batch::Committing { count: *count },
            Batch::RollingBack => Batch::RollingBack,
            Batch::Finished => Batch::Finished,
        }
    }
}

/// The first event from `from` on whose partition key is not stuck, or the number
/// of events where there is none.
pub open spec fn sendable(rows: Seq<OutboxRowView>, from: int, stuck: Seq<Seq<char>>) -> int
    decreases rows.len() - from,
{
    if from >= rows.len() {
        rows.len() as int
    } else if stuck.contains(rows[from].partition_key) {
        sendable(rows, from + 1, stuck)
    } else {
        from
    }
}

/// What is stored of an event that was not sent: it stays pending, and the try
/// is counted.
pub open spec fn failure_of(row: OutboxRowView, error: Seq<char>) -> SendFailure<Seq<char>> {
    SendFailure {
        id: row.id,
        status: EventStatus::Pending,
        retry_count: (row.retry_count + 1) as i64,
        error,
    }
}

impl BatchView {
    /// Whether an event can come of the action that was asked for.
    pub open spec fn accepts(self, event: RelayEventView) -> bool {
        match self {
            Batch::Beginning { .. } => event is Done || event is Failed,
            Batch::Fetching => (event matches RelayEvent::Fetched(rows) && rows.len()
                <= usize::MAX) || event is Failed,
            Batch::Sending { rows, next, .. } => next < rows.len() && (event is Sent || (event
                is NotSent && rows[next as int].retry_count < i64::MAX)),
            Batch::Marking { .. } => event is Done || event is Failed,
            Batch::Recording { failures, next, .. } => next < failures.len() && (event is Done
                || event is Failed),
            Batch::Committing { .. } => event is Done || event is Failed,
            Batch::RollingBack => event is Done || event is Failed,
            Batch::Finished => false,
        }
    }

    /// The failures before `next` are recorded, and the published events marked.
    pub open spec fn record(count: usize, failures: Seq<SendFailure<Seq<char>>>, next: usize) -> (
        BatchView,
        RelayActionView,
    ) {
        if next < failures.len() {
            (
                Batch::Recording { count, failures, next },
                RelayAction::RecordFailure(failures[next as int]),
            )
        } else {
            (Batch::Committing { count }, RelayAction::Commit)
        }
    }

    /// The events before `from` were published, failed, or wait.
    pub open spec fn send(
        rows: Seq<OutboxRowView>,
        from: int,
        published: Seq<Uuid>,
        failures: Seq<SendFailure<Seq<char>>>,
        stuck: Seq<Seq<char>>,
    ) -> (BatchView, RelayActionView) {
        let next = sendable(rows, from, stuck);
        if next < rows.len() {
            (
                Batch::Sending { rows, next: next as usize, published, failures, stuck },
                RelayAction::Send(rows[next]),
            )
        } else if published.len() > 0 {
            (
                Batch::Marking { count: published.len() as usize, failures },
                RelayAction::MarkPublished(published),
            )
        } else {
            BatchView::record(0, failures, 0)
        }
    }

    /// The step that an event leads to.
    pub open spec fn next(self, event: RelayEventView) -> (BatchView, RelayActionView) {
        match (self, event) {
            (Batch::Beginning { limit }, RelayEvent::Done) => (
                Batch::Fetching,
                RelayAction::Fetch { limit },
            ),
            (Batch::Fetching, RelayEvent::Fetched(rows)) => if rows.len() == 0 {
                (Batch::RollingBack, RelayAction::Rollback)
            } else {
                BatchView::send(rows, 0, Seq::empty(), Seq::empty(), Seq::empty())
            },
            (
                Batch::Sending { rows, next, published, failures, stuck },
                RelayEvent::Sent,
            ) => BatchView::send(
                rows,
                next + 1,
                published.push(rows[next as int].id),
                failures,
                stuck,
            ),
            (
                Batch::Sending { rows, next, published, failures, stuck },
                RelayEvent::NotSent(error),
            ) => BatchView::send(
                rows,
                next + 1,
                published,
                failures.push(failure_of(rows[next as int], error)),
                stuck.push(rows[next as int].partition_key),
            ),
            (Batch::Marking { count, failures }, RelayEvent::Done) => BatchView::record(
                count,
                failures,
                0,
            ),
            (Batch::Recording { count, failures, next }, RelayEvent::Done) => BatchView::record(
                count,
                failures,
                (next + 1) as usize,
            ),
            (Batch::Committing { count }, RelayEvent::Done) => (
                Batch::Finished,
                RelayAction::Return(Ok(count)),
            ),
            (Batch::RollingBack, _) => (Batch::Finished, RelayAction::Return(Ok(0))),
            (_, RelayEvent::Failed(e)) => (Batch::Finished, RelayAction::Return(Err(e))),
            // No other event is accepted.
            _ => (self, RelayAction::Rollback),
        }
    }
}

fn copy_row(row: &OutboxRow) -> (r: OutboxRow)
    ensures
        r@ == row@,
{
    OutboxRow {
        id: row.id,
        topic: row.topic.clone(),
        partition_key: row.partition_key.clone(),
        payload: copy_bytes(&row.payload),
        retry_count: row.retry_count,
    }
}

/// A step: where the batch then stands, and what is to be done.
pub open spec fn relay_step_view(step: (Batch, RelayAction)) -> (BatchView, RelayActionView) {
    (step.0@, step.1@)
}

fn record(count: usize, failures: Vec<SendFailure>, next: usize) -> (r: (Batch, RelayAction))
    ensures
        relay_step_view(r) == BatchView::record(count, failures_view(failures@), next),
{
    if next < failures.len() {
        let failure = SendFailure {
            id: failures[next].id,
            status: failures[next].status,
            retry_count: failures[next].retry_count,
            error: failures[next].error.clone(),
        };
        (Batch::Recording { count, failures, next }, RelayAction::RecordFailure(failure))
    } else {
        (Batch::Committing { count }, RelayAction::Commit)
    }
}

fn is_stuck(keys: &Vec<String>, key: &str) -> (r: bool)
    ensures
        r == keys_view(keys@).contains(key@),
{
    let mut i: usize = 0;
    while i < keys.len()
        invariant
            i <= keys@.len(),
            forall|j: int| 0 <= j < i ==> (#[trigger] keys_view(keys@)[j]) != key@,
        decreases keys@.len() - i,
    {
        if same_text(keys[i].as_str(), key) {
            assert(keys_view(keys@)[i as int] == key@);
            return true;
        }
        i = i + 1;
    }
    false
}

fn find_sendable(rows: &Vec<OutboxRow>, from: usize, stuck: &Vec<String>) -> (r: usize)
    requires
        from <= rows@.len(),
    ensures
        r == sendable(rows_view(rows@), from as int, keys_view(stuck@)),
        r <= rows@.len(),
{
    let mut i: usize = from;
    while i < rows.len() && is_stuck(stuck, rows[i].partition_key.as_str())
        invariant
            from <= i <= rows@.len(),
            sendable(rows_view(rows@), from as int, keys_view(stuck@)) == sendable(
                rows_view(rows@),
                i as int,
                keys_view(stuck@),
            ),
        decreases rows@.len() - i,
    {
        i = i + 1;
    }
    i
}

fn send(
    rows: Vec<OutboxRow>,
    from: usize,
    published: Vec<Uuid>,
    failures: Vec<SendFailure>,
    stuck: Vec<String>,
) -> (r: (Batch, RelayAction))
    requires
        from <= rows@.len(),
    ensures
        relay_step_view(r) == BatchView::send(
            rows_view(rows@),
            from as int,
            published@,
            failures_view(failures@),
            keys_view(stuck@),
        ),
{
    let next: usize = find_sendable(&rows, from, &stuck);
    if next < rows.len() {
        let row = copy_row(&rows[next]);
        (Batch::Sending { rows, next, published, failures, stuck }, RelayAction::Send(row))
    } else if published.len() > 0 {
        let count: usize = published.len();
        (Batch::Marking { count, failures }, RelayAction::MarkPublished(published))
    } else {
        record(0, failures, 0)
    }
}

/// Starts a batch of at most `batch_size` events.
pub fn relay_batch(batch_size: i64) -> (r: (Batch, RelayAction))
    ensures
        relay_step_view(r) == (
            Batch::<
                Seq<OutboxRowView>,
                Seq<Uuid>,
                Seq<SendFailure<Seq<char>>>,
                Seq<Seq<char>>,
            >::Beginning { limit: batch_size },
            RelayAction::<
                OutboxRowView,
                Seq<Uuid>,
                SendFailure<Seq<char>>,
                DbError<Seq<char>>,
            >::Begin,
        ),
{
    (Batch::Beginning { limit: batch_size }, RelayAction::Begin)
}

impl Batch {
    /// Whether an event can come of the action that was asked for.
    pub fn fits(&self, event: &RelayEvent) -> (r: bool)
        ensures
            r == self@.accepts(event@),
    {
        match (self, event) {
            (Batch::Beginning { .. }, RelayEvent::Done | RelayEvent::Failed(_)) => true,
            (Batch::Fetching, RelayEvent::Fetched(rows)) => {
                assert(rows@.len() == rows.len());
                true
            },
            (Batch::Fetching, RelayEvent::Failed(_)) => true,
            (Batch::Sending { rows, next, .. }, RelayEvent::Sent) => *next < rows.len(),
            (Batch::Sending { rows, next, .. }, RelayEvent::NotSent(_)) => *next < rows.len()
                && rows[*next].retry_count < i64::MAX,
            (Batch::Marking { .. }, RelayEvent::Done | RelayEvent::Failed(_)) => true,
            (
                Batch::Recording { failures, next, .. },
                RelayEvent::Done | RelayEvent::Failed(_),
            ) => *next < failures.len(),
            (Batch::Committing { .. }, RelayEvent::Done | RelayEvent::Failed(_)) => true,
            (Batch::RollingBack, RelayEvent::Done | RelayEvent::Failed(_)) => true,
            _ => false,
        }
    }

    /// Goes on after an event.
    pub fn step(self, event: RelayEvent) -> (r: (Batch, RelayAction))
        requires
            self@.accepts(event@),
        ensures
            relay_step_view(r) == self@.next(event@),
    {
        match (self, event) {
            (Batch::Beginning { limit }, RelayEvent::Done) => (
                Batch::Fetching,
                RelayAction::Fetch { limit },
            ),
            (Batch::Fetching, RelayEvent::Fetched(rows)) => {
                if rows.len() == 0 {
                    (Batch::RollingBack, RelayAction::Rollback)
                } else {
                    let published: Vec<Uuid> = Vec::new();
                    let failures: Vec<SendFailure> = Vec::new();
                    let stuck: Vec<String> = Vec::new();
                    assert(failures_view(failures@) =~= Seq::empty());
                    assert(keys_view(stuck@) =~= Seq::empty());
                    send(rows, 0, published, failures, stuck)
                }
            },
            (Batch::Sending { rows, next, published, failures, stuck }, RelayEvent::Sent) => {
                assert(rows@.len() == rows.len());
                let mut published = published;
                published.push(rows[next].id);
                send(rows, next + 1, published, failures, stuck)
            },
            (
                Batch::Sending { rows, next, published, failures, stuck },
                RelayEvent::NotSent(error),
            ) => {
                assert(rows@.len() == rows.len());
                let mut failures = failures;
                let mut stuck = stuck;
                let ghost before = failures_view(failures@);
                let ghost keys = keys_view(stuck@);
                let failure = SendFailure {
                    id: rows[next].id,
                    status: EventStatus::Pending,
                    retry_count: rows[next].retry_count + 1,
                    error,
                };
                let ghost view = failure@;
                failures.push(failure);
                assert(failures_view(failures@) =~= before.push(view));
                stuck.push(rows[next].partition_key.clone());
                assert(keys_view(stuck@) =~= keys.push(rows@[next as int].partition_key@));
                send(rows, next + 1, published, failures, stuck)
            },
            (Batch::Marking { count, failures }, RelayEvent::Done) => record(count, failures, 0),
            (Batch::Recording { count, failures, next }, RelayEvent::Done) => {
                assert(failures@.len() == failures.len());
                record(count, failures, next + 1)
            },
            (Batch::Committing { count }, RelayEvent::Done) => (
                Batch::Finished,
                RelayAction::Return(Ok(count)),
            ),
            (Batch::RollingBack, _) => (Batch::Finished, RelayAction::Return(Ok(0))),
            (_, RelayEvent::Failed(e)) => (Batch::Finished, RelayAction::Return(Err(e))),
            (batch, _) => (batch, RelayAction::Rollback),
        }
    }
}

/// How long to wait before the next batch, in milliseconds, after one that
/// published so many events: not at all if there were any, for the poll interval
/// if there were none, and for a while after an error.
pub fn pause_after(outcome: &Result<usize, DbError>, poll_interval_ms: u64) -> (r: u64)
    ensures
        r == (match *outcome {
            Ok(count) => if count > 0 {
                0
            } else {
                poll_interval_ms
            },
            Err(_) => ERROR_PAUSE_MILLIS,
        }),
{
    match outcome {
        Ok(count) => if *count > 0 {
            0
        } else {
            poll_interval_ms
        },
        Err(_) => ERROR_PAUSE_MILLIS,
    }
}

/// Where a batch stands after a sequence of events.
pub open spec fn batch_after(limit: i64, events: Seq<RelayEventView>) -> BatchView
    decreases events.len(),
{
    if events.len() == 0 {
        Batch::Beginning { limit }
    } else {
        batch_after(limit, events.drop_last()).next(events.last()).0
    }
}

/// Whether each event can come of the action before it.
pub open spec fn is_relay_run(limit: i64, events: Seq<RelayEventView>) -> bool
    decreases events.len(),
{
    events.len() > 0 ==> is_relay_run(limit, events.drop_last()) && batch_after(
        limit,
        events.drop_last(),
    ).accepts(events.last())
}

/// The actions of a batch, in order, from the first one.
pub open spec fn relay_actions(limit: i64, events: Seq<RelayEventView>) -> Seq<RelayActionView>
    decreases events.len(),
{
    if events.len() == 0 {
        seq![RelayAction::Begin]
    } else {
        relay_actions(limit, events.drop_last()).push(
            batch_after(limit, events.drop_last()).next(events.last()).1,
        )
    }
}

/// How far the sending of a batch is: which event is sent next, or the number of
/// events where none is, and what came of the others.
pub struct Progress {
    pub next: int,
    pub published: Seq<Uuid>,
    pub failures: Seq<SendFailure<Seq<char>>>,
    pub stuck: Seq<Seq<char>>,
}

/// How far the sending is after a number of results.
pub open spec fn progress(rows: Seq<OutboxRowView>, results: Seq<RelayEventView>) -> Progress
    decreases results.len(),
{
    if results.len() == 0 {
        Progress {
            next: sendable(rows, 0, Seq::empty()),
            published: Seq::empty(),
            failures: Seq::empty(),
            stuck: Seq::empty(),
        }
    } else {
        let p = progress(rows, results.drop_last());
        match results.last() {
            RelayEvent::NotSent(error) => {
                let stuck = p.stuck.push(rows[p.next].partition_key);
                Progress {
                    next: sendable(rows, p.next + 1, stuck),
                    published: p.published,
                    failures: p.failures.push(failure_of(rows[p.next], error)),
                    stuck,
                }
            },
            _ => Progress {
                next: sendable(rows, p.next + 1, p.stuck),
                published: p.published.push(rows[p.next].id),
                failures: p.failures,
                stuck: p.stuck,
            },
        }
    }
}

/// Whether each result came of sending an event.
pub open spec fn are_results(rows: Seq<OutboxRowView>, results: Seq<RelayEventView>) -> bool
    decreases results.len(),
{
    results.len() > 0 ==> {
        &&& are_results(rows, results.drop_last())
        &&& progress(rows, results.drop_last()).next < rows.len()
        &&& results.last() is Sent || results.last() is NotSent
    }
}

/// Whether event `i` was sent, and what came of that is result `m`.
pub open spec fn sent_as(
    rows: Seq<OutboxRowView>,
    results: Seq<RelayEventView>,
    i: int,
    m: int,
) -> bool {
    0 <= m < results.len() && progress(rows, results.take(m)).next == i
}

/// Whether event `i` was acknowledged.
pub open spec fn acknowledged(
    rows: Seq<OutboxRowView>,
    results: Seq<RelayEventView>,
    i: int,
) -> bool {
    exists|m: int| #[trigger] sent_as(rows, results, i, m) && results[m] is Sent
}

/// The events of a run up to a point within the sending: begun, fetched, and so
/// many results.
pub open spec fn sending_events(rows: Seq<OutboxRowView>, results: Seq<RelayEventView>) -> Seq<
    RelayEventView,
> {
    seq![RelayEvent::Done, RelayEvent::Fetched(rows)] + results
}

/// Whether a run sent all fetched events that do not wait, with these
/// acknowledgements and failures.
pub open spec fn sent_all(
    events: Seq<RelayEventView>,
    count: int,
    failures: Seq<SendFailure<Seq<char>>>,
) -> bool {
    exists|rows: Seq<OutboxRowView>, results: Seq<RelayEventView>|
        (#[trigger] sending_events(rows, results)).is_prefix_of(events) && are_results(
            rows,
            results,
        ) && progress(rows, results).next == rows.len() && count == progress(
            rows,
            results,
        ).published.len() && failures == progress(rows, results).failures
}

/// Whether a run sent all fetched events that do not wait, with so many
/// acknowledgements.
pub open spec fn sent_with_count(events: Seq<RelayEventView>, count: int) -> bool {
    exists|failures: Seq<SendFailure<Seq<char>>>| sent_all(events, count, failures)
}

spec fn consistent(limit: i64, events: Seq<RelayEventView>) -> bool {
    match batch_after(limit, events) {
        Batch::Beginning { .. } => events.len() == 0,
        Batch::Fetching => events == seq![RelayEvent::<Seq<OutboxRowView>, Seq<char>>::Done],
        Batch::Sending { rows, next, published, failures, stuck } => {
            let results = events.skip(2);
            let p = progress(rows, results);
            &&& events == sending_events(rows, results)
            &&& are_results(rows, results)
            &&& next == p.next
            &&& next < rows.len() <= usize::MAX
            &&& published == p.published
            &&& failures == p.failures
            &&& stuck == p.stuck
        },
        Batch::Marking { count, failures } => sent_all(events, count as int, failures)
            && failures.len() <= usize::MAX,
        Batch::Recording { count, failures, next } => sent_all(events, count as int, failures)
            && next < failures.len() <= usize::MAX,
        Batch::Committing { count } => sent_with_count(events, count as int),
        _ => true,
    }
}

/// What comes before the next event to be sent waits.
proof fn lemma_sendable(rows: Seq<OutboxRowView>, from: int, stuck: Seq<Seq<char>>)
    requires
        0 <= from <= rows.len(),
    ensures
        from <= sendable(rows, from, stuck) <= rows.len(),
        forall|i: int|
            from <= i < sendable(rows, from, stuck) ==> stuck.contains(
                (#[trigger] rows[i]).partition_key,
            ),
        sendable(rows, from, stuck) < rows.len() ==> !stuck.contains(
            rows[sendable(rows, from, stuck)].partition_key,
        ),
    decreases rows.len() - from,
{
    if from < rows.len() && stuck.contains(rows[from].partition_key) {
        lemma_sendable(rows, from + 1, stuck);
    }
}

/// What is known of the sending after a number of results.
proof fn lemma_progress(rows: Seq<OutboxRowView>, results: Seq<RelayEventView>)
    requires
        are_results(rows, results),
    ensures
        ({
            let p = progress(rows, results);
            &&& 0 <= p.next <= rows.len()
            &&& results.len() <= p.next
            &&& p.published.len() + p.failures.len() == results.len()
            &&& p.failures.len() == p.stuck.len()
            &&& p.next < rows.len() ==> !p.stuck.contains(rows[p.next].partition_key)
            &&& forall|i: int|
                0 <= i < p.next ==> acknowledged(rows, results, i) || p.stuck.contains(
                    (#[trigger] rows[i]).partition_key,
                )
        }),
    decreases results.len(),
{
    if results.len() == 0 {
        lemma_sendable(rows, 0, Seq::empty());
    } else {
        let before = results.drop_last();
        lemma_progress(rows, before);
        let q = progress(rows, before);
        let p = progress(rows, results);
        lemma_sendable(rows, q.next + 1, p.stuck);
        let m = results.len() - 1;
        assert(results.take(m) =~= before);
        assert(sent_as(rows, results, q.next, m));
        assert forall|key: Seq<char>| q.stuck.contains(key) implies p.stuck.contains(key) by {
            let k = q.stuck.index_of(key);
            assert(q.stuck[k] == key);
            assert(p.stuck[k] == key);
        }
        assert forall|i: int| 0 <= i < p.next implies acknowledged(rows, results, i)
            || p.stuck.contains((#[trigger] rows[i]).partition_key) by {
            if i < q.next {
                if acknowledged(rows, before, i) {
                    lemma_acknowledged_stays(rows, results, m, i);
                }
            } else if i == q.next {
                if results.last() is NotSent {
                    assert(p.stuck[p.stuck.len() - 1] == rows[i].partition_key);
                }
            }
        }
    }
}

/// What was acknowledged stays so.
proof fn lemma_acknowledged_stays(
    rows: Seq<OutboxRowView>,
    results: Seq<RelayEventView>,
    count: int,
    i: int,
)
    requires
        0 <= count <= results.len(),
        acknowledged(rows, results.take(count), i),
    ensures
        acknowledged(rows, results, i),
{
    let part = results.take(count);
    let m = choose|m: int| #[trigger] sent_as(rows, part, i, m) && part[m] is Sent;
    assert(results.take(m) =~= part.take(m));
    assert(sent_as(rows, results, i, m));
}

proof fn lemma_results_so_far(
    rows: Seq<OutboxRowView>,
    results: Seq<RelayEventView>,
    count: int,
)
    requires
        are_results(rows, results),
        0 <= count <= results.len(),
    ensures
        are_results(rows, results.take(count)),
    decreases results.len(),
{
    if count < results.len() {
        lemma_results_so_far(rows, results.drop_last(), count);
        assert(results.drop_last().take(count) =~= results.take(count));
    } else {
        assert(results.take(count) =~= results);
    }
}

proof fn lemma_sent_all_extends(
    events: Seq<RelayEventView>,
    count: int,
    failures: Seq<SendFailure<Seq<char>>>,
)
    requires
        events.len() > 0,
        sent_all(events.drop_last(), count, failures),
    ensures
        sent_all(events, count, failures),
{
    let (rows, results) = choose|rows: Seq<OutboxRowView>, results: Seq<RelayEventView>|
        (#[trigger] sending_events(rows, results)).is_prefix_of(events.drop_last()) && are_results(
            rows,
            results,
        ) && progress(rows, results).next == rows.len() && count == progress(
            rows,
            results,
        ).published.len() && failures == progress(rows, results).failures;
    let sent = sending_events(rows, results);
    assert(sent.is_prefix_of(events)) by {
        assert(events.drop_last().subrange(0, sent.len() as int) =~= events.subrange(
            0,
            sent.len() as int,
        ));
    }
}

proof fn lemma_one_more_result(rows: Seq<OutboxRowView>, events: Seq<RelayEventView>)
    requires
        events.len() > 2,
        events.drop_last() == sending_events(rows, events.drop_last().skip(2)),
    ensures
        events == sending_events(rows, events.skip(2)),
        events.skip(2).drop_last() == events.drop_last().skip(2),
        events.skip(2).last() == events.last(),
{
    let before = events.drop_last();
    let whole = sending_events(rows, events.skip(2));
    assert forall|i: int| 0 <= i < events.len() implies events[i] == whole[i] by {
        if i < 2 {
            assert(events[i] == before[i]);
            assert(before[i] == sending_events(rows, before.skip(2))[i]);
        }
    }
    assert(events =~= whole);
    assert(events.skip(2).drop_last() =~= before.skip(2));
}

/// The end of the sending.
proof fn lemma_all_sent(rows: Seq<OutboxRowView>, events: Seq<RelayEventView>)
    requires
        events == sending_events(rows, events.skip(2)),
        are_results(rows, events.skip(2)),
        progress(rows, events.skip(2)).next == rows.len(),
    ensures
        sent_all(
            events,
            progress(rows, events.skip(2)).published.len() as int,
            progress(rows, events.skip(2)).failures,
        ),
        sent_with_count(events, progress(rows, events.skip(2)).published.len() as int),
{
    assert(sending_events(rows, events.skip(2)).is_prefix_of(events)) by {
        assert(events.subrange(0, events.len() as int) =~= events);
    }
    assert(sent_all(
        events,
        progress(rows, events.skip(2)).published.len() as int,
        progress(rows, events.skip(2)).failures,
    ));
}

proof fn lemma_relay_run(limit: i64, events: Seq<RelayEventView>)
    requires
        is_relay_run(limit, events),
    ensures
        consistent(limit, events),
    decreases events.len(),
{
    if events.len() > 0 {
        let before = events.drop_last();
        let event = events.last();
        lemma_relay_run(limit, before);
        match batch_after(limit, before) {
            Batch::Beginning { .. } => {
                assert(before =~= Seq::empty());
                assert(events =~= seq![event]);
            },
            Batch::Fetching => {
                if let RelayEvent::Fetched(rows) = event {
                    if rows.len() > 0 {
                        assert(events.skip(2) =~= Seq::empty());
                        assert(events =~= sending_events(rows, events.skip(2)));
                        lemma_sendable(rows, 0, Seq::empty());
                        assert(sendable(rows, 0, Seq::empty()) == 0);
                    }
                }
            },
            Batch::Sending { rows, .. } => {
                lemma_one_more_result(rows, events);
                let results = events.skip(2);
                assert(are_results(rows, results));
                lemma_progress(rows, results);
                if progress(rows, results).next == rows.len() {
                    lemma_all_sent(rows, events);
                }
            },
            Batch::Marking { count, failures } => {
                lemma_sent_all_extends(events, count as int, failures);
                assert(sent_with_count(events, count as int));
            },
            Batch::Recording { count, failures, .. } => {
                lemma_sent_all_extends(events, count as int, failures);
                assert(sent_with_count(events, count as int));
            },
            _ => {},
        }
    }
}

/// Events with the same partition key are published in order: when an event is
/// sent, every earlier one of the batch with the same key was acknowledged.
pub proof fn law_order_is_kept_per_key(
    limit: i64,
    events: Seq<RelayEventView>,
    rows: Seq<OutboxRowView>,
    i: int,
    j: int,
)
    requires
        is_relay_run(limit, events),
        batch_after(limit, events) matches Batch::Sending { rows: sent, next, .. } && sent == rows && next
            == j,
        0 <= i < j,
        rows[i].partition_key == rows[j].partition_key,
    ensures
        events == sending_events(rows, events.skip(2)),
        acknowledged(rows, events.skip(2), i),
{
    lemma_relay_run(limit, events);
    lemma_progress(rows, events.skip(2));
}

/// An event waits for the earlier ones with the same partition key: as long as
/// one of them is not acknowledged, it is not sent in this batch.
pub proof fn law_later_events_wait(
    rows: Seq<OutboxRowView>,
    results: Seq<RelayEventView>,
    i: int,
    j: int,
)
    requires
        are_results(rows, results),
        0 <= i < j < rows.len(),
        rows[i].partition_key == rows[j].partition_key,
        !acknowledged(rows, results, i),
    ensures
        forall|m: int| !#[trigger] sent_as(rows, results, j, m),
        progress(rows, results).next != j,
{
    assert forall|m: int| !#[trigger] sent_as(rows, results, j, m) by {
        if sent_as(rows, results, j, m) {
            lemma_results_so_far(rows, results, m);
            lemma_progress(rows, results.take(m));
            assert(acknowledged(rows, results.take(m), i));
            lemma_acknowledged_stays(rows, results, m, i);
        }
    }
    lemma_progress(rows, results);
}

/// Events are sent in the order in which they were fetched.
pub proof fn law_events_are_sent_in_order(
    rows: Seq<OutboxRowView>,
    results: Seq<RelayEventView>,
)
    requires
        are_results(rows, results),
        results.len() > 0,
    ensures
        progress(rows, results.drop_last()).next < progress(rows, results).next,
{
    lemma_progress(rows, results.drop_last());
    let q = progress(rows, results.drop_last());
    lemma_sendable(rows, q.next + 1, progress(rows, results).stuck);
}

/// Only what was acknowledged is marked as published, and all of it: when events
/// are marked, every fetched event was sent or waits, and the marked ones are
/// those that were acknowledged.
pub proof fn law_only_acknowledged_events_are_marked(
    limit: i64,
    events: Seq<RelayEventView>,
    ids: Seq<Uuid>,
)
    requires
        is_relay_run(limit, events),
        relay_actions(limit, events).last() == RelayAction::<
            OutboxRowView,
            Seq<Uuid>,
            SendFailure<Seq<char>>,
            DbError<Seq<char>>,
        >::MarkPublished(ids),
    ensures
        exists|rows: Seq<OutboxRowView>, results: Seq<RelayEventView>| #[trigger]
            sending_events(rows, results) == events && are_results(rows, results) && progress(
                rows,
                results,
            ).next == rows.len() && ids == progress(rows, results).published,
{
    assert(events.len() > 0);
    let before = events.drop_last();
    lemma_relay_run(limit, before);
    assert(batch_after(limit, before) is Sending);
    let rows = batch_after(limit, before)->rows;
    lemma_one_more_result(rows, events);
    lemma_progress(rows, events.skip(2));
    assert(sending_events(rows, events.skip(2)) == events);
}

/// The events that count as published are those that were acknowledged.
pub proof fn law_published_means_acknowledged(
    rows: Seq<OutboxRowView>,
    results: Seq<RelayEventView>,
    id: Uuid,
)
    requires
        are_results(rows, results),
        progress(rows, results).published.contains(id),
    ensures
        exists|i: int|
            0 <= i < rows.len() && (#[trigger] rows[i]).id == id && acknowledged(rows, results, i),
    decreases results.len(),
{
    if results.len() > 0 {
        let before = results.drop_last();
        let q = progress(rows, before);
        lemma_progress(rows, before);
        let m = results.len() - 1;
        assert(results.take(m) =~= before);
        if q.published.contains(id) {
            law_published_means_acknowledged(rows, before, id);
            let i = choose|i: int|
                0 <= i < rows.len() && (#[trigger] rows[i]).id == id && acknowledged(
                    rows,
                    before,
                    i,
                );
            lemma_acknowledged_stays(rows, results, m, i);
            assert(rows[i].id == id && acknowledged(rows, results, i));
        } else {
            let p = progress(rows, results);
            assert(results.last() is Sent);
            let k = p.published.index_of(id);
            assert(p.published[k] == id);
            assert(k == q.published.len()) by {
                if k < q.published.len() {
                    assert(q.published[k] == id);
                }
            }
            assert(sent_as(rows, results, q.next, m));
            assert(rows[q.next].id == id && acknowledged(rows, results, q.next));
        }
    }
}

/// The events that were acknowledged all count as published.
pub proof fn law_acknowledged_means_published(
    rows: Seq<OutboxRowView>,
    results: Seq<RelayEventView>,
    i: int,
)
    requires
        are_results(rows, results),
        acknowledged(rows, results, i),
    ensures
        progress(rows, results).published.contains(rows[i].id),
    decreases results.len(),
{
    let m = choose|m: int| #[trigger] sent_as(rows, results, i, m) && results[m] is Sent;
    let before = results.drop_last();
    let q = progress(rows, before);
    let p = progress(rows, results);
    if m < before.len() {
        assert(before.take(m) =~= results.take(m));
        assert(sent_as(rows, before, i, m) && before[m] is Sent);
        law_acknowledged_means_published(rows, before, i);
        let k = q.published.index_of(rows[i].id);
        assert(q.published[k] == rows[i].id);
        assert(p.published[k] == rows[i].id);
    } else {
        assert(before =~= results.take(m));
        assert(p.published[p.published.len() - 1] == rows[i].id);
    }
}

/// Whether no action marks events as published.
pub open spec fn nothing_marked(done: Seq<RelayActionView>) -> bool {
    forall|i: int| 0 <= i < done.len() ==> !(#[trigger] done[i] is MarkPublished)
}

spec fn marks_fit(limit: i64, events: Seq<RelayEventView>) -> bool {
    let done = relay_actions(limit, events);
    match batch_after(limit, events) {
        Batch::Marking { count, .. } => count > 0,
        Batch::Recording { count, .. } => count > 0 || nothing_marked(done),
        Batch::Committing { count } => count > 0 || nothing_marked(done),
        Batch::Finished => done.len() > 0 && (done.last() == RelayAction::<
            OutboxRowView,
            Seq<Uuid>,
            SendFailure<Seq<char>>,
            DbError<Seq<char>>,
        >::Return(Ok(0)) ==> nothing_marked(done)),
        _ => nothing_marked(done),
    }
}

proof fn lemma_marks(limit: i64, events: Seq<RelayEventView>)
    requires
        is_relay_run(limit, events),
    ensures
        marks_fit(limit, events),
    decreases events.len(),
{
    if events.len() > 0 {
        let before = events.drop_last();
        lemma_marks(limit, before);
        lemma_relay_run(limit, before);
        lemma_relay_run(limit, events);
        if let Batch::Sending { rows, .. } = batch_after(limit, before) {
            lemma_one_more_result(rows, events);
            lemma_progress(rows, events.skip(2));
        }
    }
}

/// What a batch returns is the number of events that were acknowledged; where it
/// returns 0, no event was marked as published.
pub proof fn law_returned_count_is_acknowledged(
    limit: i64,
    events: Seq<RelayEventView>,
    count: usize,
)
    requires
        is_relay_run(limit, events),
        relay_actions(limit, events).last() == RelayAction::<
            OutboxRowView,
            Seq<Uuid>,
            SendFailure<Seq<char>>,
            DbError<Seq<char>>,
        >::Return(Ok(count)),
    ensures
        count > 0 ==> sent_with_count(events.drop_last(), count as int),
        count == 0 ==> nothing_marked(relay_actions(limit, events)),
{
    assert(events.len() > 0);
    lemma_relay_run(limit, events.drop_last());
    lemma_marks(limit, events);
    lemma_marks(limit, events.drop_last());
}

/// No event is lost: what is stored of an event that was not sent is that it is
/// pending, with one more try and the error, so that a later batch fetches it
/// again, however often it failed.
pub proof fn law_failed_events_stay_pending(
    rows: Seq<OutboxRowView>,
    results: Seq<RelayEventView>,
    i: int,
    m: int,
    error: Seq<char>,
)
    requires
        are_results(rows, results),
        sent_as(rows, results, i, m),
        results[m] == RelayEvent::<Seq<OutboxRowView>, Seq<char>>::NotSent(error),
        rows[i].retry_count < i64::MAX,
    ensures
        progress(rows, results).failures.contains(failure_of(rows[i], error)),
        failure_of(rows[i], error).id == rows[i].id,
        failure_of(rows[i], error).status == EventStatus::Pending,
        failure_of(rows[i], error).retry_count == rows[i].retry_count + 1,
        failure_of(rows[i], error).error == error,
    decreases results.len(),
{
    let before = results.drop_last();
    let q = progress(rows, before);
    let p = progress(rows, results);
    let failure = failure_of(rows[i], error);
    if m < before.len() {
        assert(before.take(m) =~= results.take(m));
        assert(sent_as(rows, before, i, m));
        law_failed_events_stay_pending(rows, before, i, m, error);
        let k = q.failures.index_of(failure);
        assert(q.failures[k] == failure);
        assert(p.failures[k] == failure);
    } else {
        assert(before =~= results.take(m));
        assert(p.failures[p.failures.len() - 1] == failure);
    }
}

/// Every event is accounted for: when the sending is over, each one was
/// acknowledged, or its partition key is stuck because it or an earlier one with
/// the same key was not sent.
pub proof fn law_every_event_is_accounted_for(
    rows: Seq<OutboxRowView>,
    results: Seq<RelayEventView>,
    i: int,
)
    requires
        are_results(rows, results),
        progress(rows, results).next == rows.len(),
        0 <= i < rows.len(),
    ensures
        acknowledged(rows, results, i) || progress(rows, results).stuck.contains(
            rows[i].partition_key,
        ),
        progress(rows, results).failures.len() == progress(rows, results).stuck.len(),
{
    lemma_progress(rows, results);
}

/// An event as the outbox holds it.
pub struct StoredEvent {
    pub row: OutboxRowView,
    pub pending: bool,
    /// Whether another relay works on it.
    pub locked: bool,
    pub created_at: int,
}

/// Whether fetched events are the right answer to [`RelayAction::Fetch`]:
/// `picks` says where each of them stands in the outbox. They are pending and not
/// locked, none is there twice, the oldest come first, there are no more than the
/// limit, and one is left out only where the limit is reached, for older ones.
pub open spec fn answers_fetch(
    outbox: Seq<StoredEvent>,
    limit: i64,
    rows: Seq<OutboxRowView>,
    picks: Seq<int>,
) -> bool {
    &&& picks.len() == rows.len()
    &&& picks.no_duplicates()
    &&& picks.len() <= limit
    &&& forall|k: int|
        0 <= k < picks.len() ==> 0 <= #[trigger] picks[k] < outbox.len() && outbox[picks[k]].pending
            && !outbox[picks[k]].locked && outbox[picks[k]].row == rows[k]
    &&& forall|j: int, k: int|
        0 <= j < k < picks.len() ==> outbox[#[trigger] picks[j]].created_at
            <= outbox[#[trigger] picks[k]].created_at
    &&& forall|i: int, k: int|
        0 <= i < outbox.len() && (#[trigger] outbox[i]).pending && !outbox[i].locked
            && !picks.contains(i) && 0 <= k < picks.len() ==> outbox[#[trigger] picks[k]].created_at
            <= outbox[i].created_at
    &&& forall|i: int|
        0 <= i < outbox.len() && (#[trigger] outbox[i]).pending && !outbox[i].locked
            && !picks.contains(i) ==> picks.len() == limit
}

/// What a batch asks of the outbox is as many events as it may hold.
pub proof fn law_batch_size_is_asked_for(limit: i64, events: Seq<RelayEventView>, asked: i64)
    requires
        is_relay_run(limit, events),
        relay_actions(limit, events).last() matches RelayAction::Fetch { limit: l } && l == asked,
    ensures
        asked == limit,
{
    if events.len() > 0 {
        let before = events.drop_last();
        lemma_relay_run(limit, before);
        assert(batch_after(limit, before) is Beginning);
    }
}

/// What is sent is the next of the fetched events, as it was fetched: under its
/// topic and key, with its payload.
pub proof fn law_fetched_events_are_sent(
    limit: i64,
    events: Seq<RelayEventView>,
    row: OutboxRowView,
)
    requires
        is_relay_run(limit, events),
        relay_actions(limit, events).last() == RelayAction::<
            OutboxRowView,
            Seq<Uuid>,
            SendFailure<Seq<char>>,
            DbError<Seq<char>>,
        >::Send(row),
    ensures
        exists|rows: Seq<OutboxRowView>| #[trigger]
            sending_events(rows, events.skip(2)) == events && are_results(rows, events.skip(2))
                && progress(rows, events.skip(2)).next < rows.len() && row == rows[progress(
                rows,
                events.skip(2),
            ).next],
{
    lemma_relay_run(limit, events);
    assert(events.len() > 0);
    lemma_relay_run(limit, events.drop_last());
    assert(batch_after(limit, events) is Sending);
    match batch_after(limit, events.drop_last()) {
        Batch::Fetching => {
            let fetched = events.last()->Fetched_0;
            lemma_sendable(fetched, 0, Seq::empty());
        },
        Batch::Sending { rows, next, stuck, .. } => {
            lemma_sendable(rows, next + 1, stuck);
            lemma_sendable(rows, next + 1, stuck.push(rows[next as int].partition_key));
        },
        _ => {},
    }
    let rows = batch_after(limit, events)->rows;
    assert(sending_events(rows, events.skip(2)) == events);
}

/// A batch sends the oldest pending events: each event that is sent is pending and
/// not locked, no event is sent twice, and an older one is sent before a younger
/// one.
pub proof fn law_oldest_pending_events_are_sent(
    outbox: Seq<StoredEvent>,
    limit: i64,
    rows: Seq<OutboxRowView>,
    picks: Seq<int>,
    results: Seq<RelayEventView>,
    i: int,
    m: int,
    j: int,
    n: int,
)
    requires
        answers_fetch(outbox, limit, rows, picks),
        are_results(rows, results),
        sent_as(rows, results, i, m),
        sent_as(rows, results, j, n),
        m < n,
    ensures
        0 <= i < j < rows.len(),
        outbox[picks[i]].pending && !outbox[picks[i]].locked && outbox[picks[i]].row == rows[i],
        picks[i] != picks[j],
        outbox[picks[i]].created_at <= outbox[picks[j]].created_at,
{
    lemma_sent_in_order(rows, results, m, n);
    assert(picks[i] != picks[j]);
}

proof fn lemma_sent_in_order(
    rows: Seq<OutboxRowView>,
    results: Seq<RelayEventView>,
    m: int,
    n: int,
)
    requires
        are_results(rows, results),
        0 <= m < n < results.len(),
    ensures
        0 <= progress(rows, results.take(m)).next < progress(rows, results.take(n)).next
            < rows.len(),
    decreases n,
{
    lemma_results_so_far(rows, results, n);
    lemma_results_so_far(rows, results, n + 1);
    lemma_results_so_far(rows, results, m);
    lemma_progress(rows, results.take(m));
    assert(results.take(n + 1).drop_last() =~= results.take(n));
    assert(results.take(n).drop_last() =~= results.take(n - 1));
    law_events_are_sent_in_order(rows, results.take(n));
    if m < n - 1 {
        lemma_sent_in_order(rows, results, m, n - 1);
    }
}

/// Where nothing fails, every fetched event is sent, once, and marked as
/// published, in order.
pub proof fn law_all_are_published_where_nothing_fails(
    rows: Seq<OutboxRowView>,
    results: Seq<RelayEventView>,
)
    requires
        are_results(rows, results),
        forall|m: int| 0 <= m < results.len() ==> (#[trigger] results[m]) is Sent,
    ensures
        progress(rows, results).next == results.len(),
        progress(rows, results).published == rows.take(results.len() as int).map_values(
            |row: OutboxRowView| row.id,
        ),
        progress(rows, results).failures.len() == 0,
    decreases results.len(),
{
    let p = progress(rows, results);
    if results.len() == 0 {
        lemma_sendable(rows, 0, Seq::empty());
        assert(sendable(rows, 0, Seq::empty()) == 0);
        assert(p.published =~= rows.take(0).map_values(|row: OutboxRowView| row.id));
    } else {
        let before = results.drop_last();
        assert forall|m: int| 0 <= m < before.len() implies (#[trigger] before[m]) is Sent by {
            assert(before[m] == results[m]);
        }
        law_all_are_published_where_nothing_fails(rows, before);
        lemma_progress(rows, before);
        lemma_progress(rows, results);
        let q = progress(rows, before);
        assert(results[results.len() - 1] is Sent);
        assert(q.stuck.len() == 0);
        lemma_sendable(rows, q.next + 1, q.stuck);
        assert(p.published =~= rows.take(results.len() as int).map_values(
            |row: OutboxRowView| row.id,
        ));
    }
}

/// Where nothing is pending, nothing is sent or changed: the batch rolls back and
/// returns 0.
pub proof fn law_empty_batch_changes_nothing(event: RelayEventView)
    requires
        event is Done || event is Failed,
    ensures
        ({
            let fetched = Batch::Fetching.next(RelayEvent::Fetched(Seq::empty()));
            &&& fetched.1 is Rollback
            &&& fetched.0.next(event).1 == RelayAction::<
                OutboxRowView,
                Seq<Uuid>,
                SendFailure<Seq<char>>,
                DbError<Seq<char>>,
            >::Return(Ok(0))
        }),
{
}

/// The events that a run fetched.
pub open spec fn rows_fetched(events: Seq<RelayEventView>) -> Seq<OutboxRowView>
    decreases events.len(),
{
    if events.len() == 0 {
        Seq::empty()
    } else {
        match events.last() {
            RelayEvent::Fetched(rows) => rows,
            _ => rows_fetched(events.drop_last()),
        }
    }
}

/// What came of the sending, in order.
pub open spec fn results_read(events: Seq<RelayEventView>) -> Seq<RelayEventView>
    decreases events.len(),
{
    if events.len() == 0 {
        Seq::empty()
    } else if events.last() is Sent || events.last() is NotSent {
        results_read(events.drop_last()).push(events.last())
    } else {
        results_read(events.drop_last())
    }
}

spec fn recorded_up_to(
    done: Seq<RelayActionView>,
    p: Progress,
    count: int,
) -> bool {
    &&& p.published.len() > 0 ==> done.contains(RelayAction::MarkPublished(p.published))
    &&& forall|k: int|
        0 <= k < count ==> done.contains(RelayAction::RecordFailure(#[trigger] p.failures[k]))
}

spec fn keeps_account(limit: i64, events: Seq<RelayEventView>) -> bool {
    let rows = rows_fetched(events);
    let results = results_read(events);
    let p = progress(rows, results);
    let done = relay_actions(limit, events);
    &&& done.len() == events.len() + 1
    &&& match batch_after(limit, events) {
        Batch::Beginning { limit: l } => l == limit && events.len() == 0 && done.last() is Begin
            && results.len() == 0,
        Batch::Fetching => done.last() == (RelayActionView::Fetch { limit }) && results.len() == 0,
        Batch::Sending { rows: r, next, published, failures, stuck } => {
            &&& r == rows
            &&& are_results(rows, results)
            &&& next == p.next < rows.len() <= usize::MAX
            &&& published == p.published
            &&& failures == p.failures
            &&& stuck == p.stuck
            &&& done.last() == RelayActionView::Send(rows[p.next])
        },
        Batch::Marking { count, failures } => {
            &&& are_results(rows, results)
            &&& p.next == rows.len() <= usize::MAX
            &&& failures == p.failures
            &&& count == p.published.len()
            &&& done.last() == RelayActionView::MarkPublished(p.published)
        },
        Batch::Recording { count, failures, next } => {
            &&& are_results(rows, results)
            &&& count == p.published.len()
            &&& p.next == rows.len() <= usize::MAX
            &&& failures == p.failures
            &&& next < failures.len()
            &&& recorded_up_to(done, p, next + 1)
            &&& done.last() == RelayActionView::RecordFailure(failures[next as int])
        },
        Batch::Committing { count } => {
            &&& are_results(rows, results)
            &&& p.next == rows.len() <= usize::MAX
            &&& count == p.published.len()
            &&& recorded_up_to(done, p, p.failures.len() as int)
            &&& done.last() is Commit
        },
        Batch::RollingBack => rows.len() == 0 && results.len() == 0 && done.last() is Rollback,
        Batch::Finished => done.last() is Return,
    }
}

proof fn lemma_recorded_stays(done: Seq<RelayActionView>, more: RelayActionView, p: Progress, count: int)
    requires
        recorded_up_to(done, p, count),
        0 <= count <= p.failures.len(),
    ensures
        recorded_up_to(done.push(more), p, count),
        count < p.failures.len() && more == RelayActionView::RecordFailure(p.failures[count])
            ==> recorded_up_to(done.push(more), p, count + 1),
{
    let then = done.push(more);
    assert forall|a: RelayActionView| done.contains(a) implies then.contains(a) by {
        let i = done.index_of(a);
        assert(done[i] == a);
        assert(then[i] == a);
    }
    assert(then[then.len() - 1] == more);
}

#[verifier::rlimit(50)]
#[verifier::spinoff_prover]
proof fn lemma_account(limit: i64, events: Seq<RelayEventView>)
    requires
        is_relay_run(limit, events),
    ensures
        keeps_account(limit, events),
    decreases events.len(),
{
    if events.len() > 0 {
        let before = events.drop_last();
        lemma_account(limit, before);
        let rows = rows_fetched(events);
        let results = results_read(events);
        let p = progress(rows, results);
        let done = relay_actions(limit, before);
        let more = relay_actions(limit, events);
        let last = more.last();
        assert(more == done.push(last));
        match batch_after(limit, before) {
            Batch::Fetching => {
                if events.last() is Fetched {
                    lemma_sendable(rows, 0, Seq::empty());
                    assert(results =~= Seq::empty());
                }
            },
            Batch::Sending { rows: r, next, .. } => {
                assert(results.drop_last() =~= results_read(before));
                assert(are_results(rows, results));
                lemma_progress(rows, results);
                if p.next == rows.len() {
                    assert(recorded_up_to(done, p, 0) || p.published.len() > 0);
                    if p.published.len() == 0 {
                        lemma_recorded_stays(done, last, p, 0);
                    }
                }
            },
            Batch::Marking { .. } => {
                lemma_progress(rows, results);
                assert(done[done.len() - 1] == RelayActionView::MarkPublished(p.published));
                assert(done.contains(RelayAction::MarkPublished(p.published)));
                assert(recorded_up_to(done, p, 0));
                lemma_recorded_stays(done, last, p, 0);
            },
            Batch::Recording { next, .. } => {
                lemma_progress(rows, results);
                lemma_recorded_stays(done, last, p, next + 1);
            },
            _ => {},
        }
    }
}

/// What is committed accounts for every event that was sent: one that was
/// acknowledged is marked as published, and of one that was not it is stored that
/// it is pending, with one more try and the error.
pub proof fn law_committed_batch_accounts_for_what_was_sent(
    limit: i64,
    events: Seq<RelayEventView>,
    i: int,
    m: int,
)
    requires
        is_relay_run(limit, events),
        relay_actions(limit, events).last() is Commit,
        sent_as(rows_fetched(events), results_read(events), i, m),
    ensures
        ({
            let row = rows_fetched(events)[i];
            let done = relay_actions(limit, events);
            match results_read(events)[m] {
                RelayEvent::NotSent(error) => row.retry_count < i64::MAX ==> done.contains(
                    RelayAction::RecordFailure(
                        SendFailure {
                            id: row.id,
                            status: EventStatus::Pending,
                            retry_count: (row.retry_count + 1) as i64,
                            error,
                        },
                    ),
                ),
                _ => exists|ids: Seq<Uuid>|
                    done.contains(RelayAction::MarkPublished(ids)) && #[trigger] ids.contains(
                        row.id,
                    ),
            }
        }),
{
    lemma_account(limit, events);
    let rows = rows_fetched(events);
    let results = results_read(events);
    let p = progress(rows, results);
    let done = relay_actions(limit, events);
    lemma_results_so_far(rows, results, m + 1);
    assert(results.take(m + 1).last() == results[m]);
    match results[m] {
        RelayEvent::NotSent(error) => {
            if rows[i].retry_count < i64::MAX {
                law_failed_events_stay_pending(rows, results, i, m, error);
                let k = p.failures.index_of(failure_of(rows[i], error));
                assert(p.failures[k] == failure_of(rows[i], error));
                assert(done.contains(RelayAction::RecordFailure(p.failures[k])));
            }
        },
        _ => {
            assert(acknowledged(rows, results, i));
            law_acknowledged_means_published(rows, results, i);
            assert(p.published.contains(rows[i].id));
            assert(p.published.len() > 0);
        },
    }
}

/// An event is left for another batch only behind one with the same partition key
/// that was not sent: when the sending is over, each event was acknowledged, or it
/// or an earlier one with its key was not.
pub proof fn law_events_wait_only_for_their_key(
    rows: Seq<OutboxRowView>,
    results: Seq<RelayEventView>,
    i: int,
)
    requires
        are_results(rows, results),
        progress(rows, results).next == rows.len(),
        0 <= i < rows.len(),
        !acknowledged(rows, results, i),
    ensures
        exists|j: int, m: int|
            0 <= j <= i && #[trigger] sent_as(rows, results, j, m) && results[m] is NotSent
                && rows[j].partition_key == rows[i].partition_key,
{
    lemma_stuck_keys(rows, results, i);
}

proof fn lemma_stuck_keys(rows: Seq<OutboxRowView>, results: Seq<RelayEventView>, i: int)
    requires
        are_results(rows, results),
        0 <= i < progress(rows, results).next,
        !acknowledged(rows, results, i),
    ensures
        exists|j: int, m: int|
            0 <= j <= i && #[trigger] sent_as(rows, results, j, m) && results[m] is NotSent
                && rows[j].partition_key == rows[i].partition_key,
    decreases results.len(),
{
    if results.len() == 0 {
        lemma_sendable(rows, 0, Seq::empty());
        assert(Seq::<Seq<char>>::empty().contains(rows[i].partition_key));
    } else {
        let before = results.drop_last();
        let q = progress(rows, before);
        let p = progress(rows, results);
        let last = results.len() - 1;
        lemma_progress(rows, before);
        assert(results.take(last) =~= before);
        assert(sent_as(rows, results, q.next, last));
        if i < q.next {
            if acknowledged(rows, before, i) {
                lemma_acknowledged_stays(rows, results, last, i);
            }
            lemma_stuck_keys(rows, before, i);
            let (j, m) = choose|j: int, m: int|
                0 <= j <= i && #[trigger] sent_as(rows, before, j, m) && before[m] is NotSent
                    && rows[j].partition_key == rows[i].partition_key;
            assert(results.take(m) =~= before.take(m));
            assert(sent_as(rows, results, j, m));
        } else if i > q.next {
            lemma_sendable(rows, q.next + 1, p.stuck);
            assert(p.stuck.contains(rows[i].partition_key));
            lemma_stuck_means_not_sent(rows, results, rows[i].partition_key);
            let (j, m) = choose|j: int, m: int|
                #[trigger] sent_as(rows, results, j, m) && results[m] is NotSent
                    && rows[j].partition_key == rows[i].partition_key;
            lemma_results_so_far(rows, results, m);
            if m < last {
                lemma_sent_in_order(rows, results, m, last);
            }
            lemma_progress(rows, results.take(m));
        }
    }
}

/// A key is stuck only because an event with it was not sent.
proof fn lemma_stuck_means_not_sent(
    rows: Seq<OutboxRowView>,
    results: Seq<RelayEventView>,
    key: Seq<char>,
)
    requires
        are_results(rows, results),
        progress(rows, results).stuck.contains(key),
    ensures
        exists|j: int, m: int|
            #[trigger] sent_as(rows, results, j, m) && results[m] is NotSent
                && rows[j].partition_key == key,
    decreases results.len(),
{
    if results.len() > 0 {
        let before = results.drop_last();
        let q = progress(rows, before);
        let p = progress(rows, results);
        let last = results.len() - 1;
        assert(results.take(last) =~= before);
        assert(sent_as(rows, results, q.next, last));
        if q.stuck.contains(key) {
            lemma_stuck_means_not_sent(rows, before, key);
            let (j, m) = choose|j: int, m: int|
                #[trigger] sent_as(rows, before, j, m) && before[m] is NotSent
                    && rows[j].partition_key == key;
            assert(results.take(m) =~= before.take(m));
            assert(sent_as(rows, results, j, m));
        } else {
            let k = p.stuck.index_of(key);
            assert(p.stuck[k] == key);
            if k < q.stuck.len() {
                assert(q.stuck[k] == key);
            }
        }
    }
}

/// What came of an action decides what follows in a batch: events are fetched and
/// sent one by one, then what was acknowledged is marked, what was not is recorded,
/// and all is committed. A database error ends the batch and is returned; where
/// there is nothing to send, the batch rolls back and returns 0.
pub proof fn law_what_follows_in_a_batch(limit: i64, events: Seq<RelayEventView>)
    requires
        is_relay_run(limit, events),
        events.len() > 0,
    ensures
        ({
            let asked = relay_actions(limit, events.drop_last()).last();
            let then = relay_actions(limit, events).last();
            let rows = rows_fetched(events);
            let p = progress(rows, results_read(events));
            let after_sending = if p.published.len() > 0 {
                RelayActionView::MarkPublished(p.published)
            } else if p.failures.len() > 0 {
                RelayAction::RecordFailure(p.failures[0])
            } else {
                RelayAction::Commit
            };
            match (asked, events.last()) {
                (RelayAction::Rollback, _) => then == RelayActionView::Return(Ok(0)),
                (_, RelayEvent::Failed(e)) => then == RelayActionView::Return(Err(e)),
                (RelayAction::Begin, _) => then == (RelayActionView::Fetch { limit }),
                (RelayAction::Fetch { .. }, RelayEvent::Fetched(fetched)) => if fetched.len() == 0 {
                    then is Rollback
                } else {
                    then == RelayActionView::Send(fetched[0])
                },
                (RelayAction::Send(_), _) => if p.next < rows.len() {
                    then == RelayActionView::Send(rows[p.next])
                } else {
                    then == after_sending
                },
                (RelayAction::MarkPublished(_), _) => if p.failures.len() > 0 {
                    then == RelayActionView::RecordFailure(p.failures[0])
                } else {
                    then is Commit
                },
                (RelayAction::RecordFailure(_), _) => then is RecordFailure || then is Commit,
                (RelayAction::Commit, _) => then matches RelayAction::Return(Ok(count)) && count
                    == p.published.len(),
                _ => false,
            }
        }),
{
    let before = events.drop_last();
    lemma_account(limit, before);
    lemma_account(limit, events);
    let rows = rows_fetched(events);
    match batch_after(limit, before) {
        Batch::Fetching => {
            if events.last() is Fetched {
                lemma_sendable(rows, 0, Seq::empty());
                assert(sendable(rows, 0, Seq::empty()) == 0 || rows.len() == 0);
            }
        },
        Batch::Sending { .. } => {
            let results = results_read(events);
            if events.last() is Sent || events.last() is NotSent {
                assert(results.drop_last() =~= results_read(before));
                assert(are_results(rows, results));
                lemma_progress(rows, results);
            }
        },
        _ => {},
    }
}

/// Whatever was asked for, what can come of it is accepted, as long as the tries
/// can be counted.
pub proof fn law_every_relay_action_can_be_answered(
    limit: i64,
    events: Seq<RelayEventView>,
    event: RelayEventView,
)
    requires
        is_relay_run(limit, events),
        event matches RelayEvent::Fetched(rows) ==> rows.len() <= usize::MAX,
    ensures
        ({
            let fits = match relay_actions(limit, events).last() {
                RelayAction::Fetch { .. } => event is Fetched || event is Failed,
                RelayAction::Send(row) => event is Sent || (event is NotSent && row.retry_count
                    < i64::MAX),
                RelayAction::Return(_) => false,
                _ => event is Done || event is Failed,
            };
            is_relay_run(limit, events.push(event)) <==> fits
        }),
{
    lemma_account(limit, events);
    assert(events.push(event).drop_last() =~= events);
}

/// An outbox row and a failure, as contracts see them, have the fields they have.
pub proof fn law_relay_views_keep_the_fields(row: OutboxRow, failure: SendFailure, ids: Vec<Uuid>)
    ensures
        row@.id == row.id,
        row@.topic == row.topic@,
        row@.partition_key == row.partition_key@,
        row@.payload == row.payload@,
        row@.retry_count == row.retry_count,
        failure@.id == failure.id,
        failure@.status == failure.status,
        failure@.retry_count == failure.retry_count,
        failure@.error == failure.error@,
        RelayAction::<OutboxRow, Vec<Uuid>, SendFailure, DbError>::Send(row)@
            == RelayActionView::Send(row@),
        RelayAction::<OutboxRow, Vec<Uuid>, SendFailure, DbError>::MarkPublished(ids)@
            == RelayActionView::MarkPublished(ids@),
        RelayAction::<OutboxRow, Vec<Uuid>, SendFailure, DbError>::RecordFailure(failure)@
            == RelayActionView::RecordFailure(failure@),
        EventStatus::Pending.code() == "PENDING"@,
        EventStatus::Published.code() == "PUBLISHED"@,
{
}

/// What is fetched and returned, as contracts see it, is what is fetched and
/// returned.
pub proof fn law_batch_views_keep_the_rows(rows: Vec<OutboxRow>, i: int, count: usize, e: DbError)
    requires
        0 <= i < rows@.len(),
    ensures
        RelayEvent::<Vec<OutboxRow>, String>::Fetched(rows)@ matches RelayEvent::Fetched(seen)
            && seen.len() == rows@.len() && seen[i] == rows@[i]@,
        RelayAction::<OutboxRow, Vec<Uuid>, SendFailure, DbError>::Return(Ok(count))@
            == RelayActionView::Return(Ok(count)),
        RelayAction::<OutboxRow, Vec<Uuid>, SendFailure, DbError>::Return(Err(e))@
            == RelayActionView::Return(Err(e@)),
{
}

} // verus!
