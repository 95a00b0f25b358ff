use fdp::config::WorkerConfig;
use fdp::consumer::{
    worker_name, write_letter, DeadLetter, Delivery, DeliveryAction, DeliveryEvent, LetterBody, Retry,
    TransactionConsumer,
};
use fdp::error::{DbError, DbErrorKind};
use fdp::events::{EventEnvelope, TOPIC_ACCOUNTS, TOPIC_AUDIT, TOPIC_TRANSACTIONS};
use fdp::ident::Uuid;
use fdp::processor::ProcessError;
use fdp::relay::{
    pause_after, relay_batch, Batch, EventStatus, OutboxRow, RelayAction, RelayEvent,
};

fn consumer(max_retries: u32, retry_backoff_ms: u64) -> TransactionConsumer {
    let config = WorkerConfig {
        database_url: "db".to_string(),
        kafka_brokers: "brokers".to_string(),
        kafka_group_id: "group".to_string(),
        kafka_topic_transactions: "topic".to_string(),
        kafka_topic_dlq: "dlq".to_string(),
        db_max_connections: 1,
        worker_concurrency: 1,
        max_retries,
        retry_backoff_ms,
        log_level: "info".to_string(),
        worker_id_prefix: "worker".to_string(),
    };
    TransactionConsumer::new("worker-1".to_string(), config)
}

fn conflict() -> Result<(), ProcessError> {
    Err(ProcessError::Database(DbError {
        kind: DbErrorKind::PoolTimedOut,
        message: "busy".to_string(),
    }))
}

fn buried(action: DeliveryAction) -> DeadLetter {
    match action {
        DeliveryAction::Bury(letter) => letter,
        other => panic!("{:?}", other),
    }
}

#[test]
fn delays_double_up_to_thirty_seconds() {
    let c = consumer(8, 1000);
    let mut delays = Vec::new();
    let mut attempt = 0;
    while let Retry::Again { delay_nanos, attempt: next } = c.process_with_retry(attempt, conflict()) {
        assert_eq!(next, attempt + 1);
        delays.push(delay_nanos / 1_000_000_000);
        attempt = next;
    }
    assert_eq!(delays, vec![1, 2, 4, 8, 16, 30, 30, 30]);
}

#[test]
fn delays_of_other_lengths() {
    let c = consumer(3, 250);
    assert!(matches!(
        c.process_with_retry(0, conflict()),
        Retry::Again { delay_nanos: 250_000_000, attempt: 1 }
    ));
    assert!(matches!(
        c.process_with_retry(1, conflict()),
        Retry::Again { delay_nanos: 500_000_000, attempt: 2 }
    ));
    assert!(matches!(
        c.process_with_retry(2, conflict()),
        Retry::Again { delay_nanos: 1_000_000_000, attempt: 3 }
    ));
    let c = consumer(9, 750);
    assert!(matches!(
        c.process_with_retry(5, conflict()),
        Retry::Again { delay_nanos: 24_000_000_000, attempt: 6 }
    ));
    assert!(matches!(
        c.process_with_retry(6, conflict()),
        Retry::Again { delay_nanos: 30_000_000_000, attempt: 7 }
    ));
    // The first delay is the configured one, however long; the others are not
    // longer than the longest.
    let c = consumer(3, 45_000);
    assert!(matches!(
        c.process_with_retry(0, conflict()),
        Retry::Again { delay_nanos: 45_000_000_000, attempt: 1 }
    ));
    assert!(matches!(
        c.process_with_retry(1, conflict()),
        Retry::Again { delay_nanos: 30_000_000_000, attempt: 2 }
    ));
    let c = consumer(2, 7_000);
    assert!(matches!(
        c.process_with_retry(1, conflict()),
        Retry::Again { delay_nanos: 14_000_000_000, attempt: 2 }
    ));
}

#[test]
fn only_retryable_errors_are_retried() {
    let c = consumer(5, 1000);
    assert!(matches!(c.process_with_retry(0, Ok(())), Retry::Finished(Ok(()))));
    let permanent = Err(ProcessError::Permanent("no".to_string()));
    assert!(matches!(
        c.process_with_retry(0, permanent),
        Retry::Finished(Err(ProcessError::Permanent(_)))
    ));
    assert!(matches!(
        c.process_with_retry(5, conflict()),
        Retry::Finished(Err(ProcessError::Database(_)))
    ));
    assert!(matches!(consumer(0, 1000).process_with_retry(0, conflict()), Retry::Finished(Err(_))));
}

#[test]
fn workers_are_numbered() {
    assert_eq!(worker_name("worker", 0), "worker-0");
    assert_eq!(worker_name("w", 12), "w-12");
    assert_eq!(consumer(1, 1).worker_id, "worker-1");
}

#[test]
fn a_failed_receive_pauses() {
    let c = consumer(1, 1);
    let (d, action) = c.run(Delivery::Receiving, DeliveryEvent::ReceiveFailed);
    assert!(matches!(action, DeliveryAction::Pause(500)));
    let (d, action) = c.run(d, DeliveryEvent::Done);
    assert!(matches!(d, Delivery::Receiving));
    assert!(matches!(action, DeliveryAction::Receive));
}

#[test]
fn empty_messages_are_committed() {
    let c = consumer(1, 1);
    let (d, action) = c.run(Delivery::Receiving, DeliveryEvent::Received(None));
    assert!(matches!(action, DeliveryAction::Commit));
    let (_, action) = c.run(d, DeliveryEvent::Done);
    assert!(matches!(action, DeliveryAction::Receive));
}

#[test]
fn processed_messages_are_committed() {
    let c = consumer(1, 1);
    let (d, action) = c.run(Delivery::Receiving, DeliveryEvent::Received(Some(b"{}".to_vec())));
    assert!(matches!(action, DeliveryAction::Decode));
    let (d, action) = c.run(d, DeliveryEvent::Decoded);
    assert!(matches!(action, DeliveryAction::Process));
    let (_, action) = c.run(d, DeliveryEvent::Processed(Ok(())));
    assert!(matches!(action, DeliveryAction::Commit));
}

#[test]
fn unreadable_messages_are_buried_and_committed() {
    let c = consumer(1, 1);
    for stored in [true, false] {
        let (d, _) = c.run(Delivery::Receiving, DeliveryEvent::Received(Some(vec![0xff, 0x0a])));
        let (d, action) = c.run(d, DeliveryEvent::Unreadable("no JSON".to_string()));
        let letter = buried(action);
        assert_eq!(letter.source_topic, "topic");
        assert_eq!(letter.error_message, "no JSON");
        match letter.body {
            LetterBody::Raw(hex) => assert_eq!(hex, "ff0a"),
            other => panic!("{:?}", other),
        }
        let (_, action) = c.run(d, DeliveryEvent::Buried(stored));
        assert!(matches!(action, DeliveryAction::Commit));
    }
}

#[test]
fn delays_double_to_single_precision() {
    let c = consumer(9, 375);
    assert!(matches!(
        c.process_with_retry(4, conflict()),
        Retry::Again { delay_nanos: 6_000_000_000, attempt: 5 }
    ));
    let c = consumer(9, 333);
    let mut before = 333_000_000u128;
    for attempt in 1..9 {
        match c.process_with_retry(attempt, conflict()) {
            Retry::Again { delay_nanos, .. } => {
                let doubled = (2 * before).min(30_000_000_000);
                assert!(delay_nanos.abs_diff(doubled) <= before / 100_000 + 1);
                before = delay_nanos;
            }
            other => panic!("{:?}", other),
        }
    }
}

#[test]
fn failed_messages_are_held_until_they_are_buried() {
    let c = consumer(1, 1);
    let payload = b"{\"a\": 1}".to_vec();
    let failed = DeliveryEvent::Processed(Err(ProcessError::Permanent("no".to_string())));
    let (mut d, mut action) = c.run(Delivery::Processing(payload.clone()), failed);
    for _ in 0..3 {
        let letter = buried(action);
        assert_eq!(letter.error_message, "permanent failure: no");
        match letter.body {
            LetterBody::Json(bytes) => assert_eq!(bytes, payload),
            other => panic!("{:?}", other),
        }
        // The queue does not take it: wait, and try again.
        (d, action) = c.run(d, DeliveryEvent::Buried(false));
        assert!(matches!(d, Delivery::Holding { .. }));
        assert!(matches!(action, DeliveryAction::Pause(500)));
        (d, action) = c.run(d, DeliveryEvent::Done);
    }
    assert!(matches!(action, DeliveryAction::Bury(_)));
    let (_, action) = c.run(d, DeliveryEvent::Buried(true));
    assert!(matches!(action, DeliveryAction::Commit));
}

#[test]
fn letters_hold_json_or_hexadecimal() {
    let c = consumer(1, 1);
    for (payload, json) in [
        ("null", true),
        (" [1, 2] ", true),
        ("\"text\"", true),
        ("{\"a\":", false),
        ("", false),
        ("nul", false),
    ] {
        let letter = c.send_to_dlq(&payload.as_bytes().to_vec(), "e");
        assert_eq!(matches!(letter.body, LetterBody::Json(_)), json, "{}", payload);
    }
    let letter = write_letter("t", &vec![1, 0xab], false, "e");
    assert!(matches!(letter.body, LetterBody::Raw(ref hex) if hex == "01ab"));
}

#[test]
fn deliveries_know_which_events_fit() {
    assert!(Delivery::Receiving.fits(&DeliveryEvent::ReceiveFailed));
    assert!(!Delivery::Receiving.fits(&DeliveryEvent::Done));
    assert!(!Delivery::Committing.fits(&DeliveryEvent::Decoded));
    let burying = Delivery::Burying {
        payload: vec![1],
        error: "e".to_string(),
        unreadable: true,
    };
    assert!(burying.fits(&DeliveryEvent::Buried(false)));
    let holding = Delivery::Holding { payload: vec![1], error: "e".to_string() };
    assert!(holding.fits(&DeliveryEvent::Done));
    assert!(!holding.fits(&DeliveryEvent::Buried(true)));
}

#[test]
fn envelopes_hold_what_they_are_given() {
    let envelope =
        EventEnvelope::new("Account", Uuid { value: 5 }, 3, "AccountDebited", Uuid { value: 6 }, 42);
    assert_eq!(envelope.aggregate_type, "Account");
    assert_eq!(envelope.aggregate_id, Uuid { value: 5 });
    assert_eq!(envelope.aggregate_version, 3);
    assert_eq!(envelope.event_type, "AccountDebited");
    assert_eq!(envelope.correlation_id, Uuid { value: 6 });
    assert_eq!(envelope.payload, 42);
    assert_eq!((envelope.event_id.value >> 76) & 0xf, 7);
    assert!(envelope.occurred_at.seconds > 1_600_000_000);
    assert_eq!(TOPIC_TRANSACTIONS, "financial.transactions.v1");
    assert_eq!(TOPIC_ACCOUNTS, "financial.accounts.v1");
    assert_eq!(TOPIC_AUDIT, "financial.audit.v1");
}

fn outbox(id: u128) -> OutboxRow {
    OutboxRow {
        id: Uuid { value: id },
        topic: format!("topic-{}", id),
        partition_key: format!("key-{}", id),
        payload: vec![id as u8, 7],
        retry_count: 20,
    }
}

fn next(batch: Batch, event: RelayEvent) -> (Batch, RelayAction) {
    assert!(batch.fits(&event));
    batch.step(event)
}

#[test]
fn an_empty_outbox_is_left_alone() {
    let (b, action) = relay_batch(100);
    assert!(matches!(action, RelayAction::Begin));
    let (b, action) = next(b, RelayEvent::Done);
    assert!(matches!(action, RelayAction::Fetch { limit: 100 }));
    let (b, action) = next(b, RelayEvent::Fetched(vec![]));
    assert!(matches!(action, RelayAction::Rollback));
    let (b, action) = next(b, RelayEvent::Done);
    assert!(matches!(action, RelayAction::Return(Ok(0))));
    assert!(!b.fits(&RelayEvent::Done));
}

#[test]
fn a_batch_is_sent_in_order_and_marked() {
    let (b, _) = next(relay_batch(100).0, RelayEvent::Done);
    let (b, action) = next(b, RelayEvent::Fetched(vec![outbox(1), outbox(2), outbox(3)]));
    match action {
        RelayAction::Send(row) => {
            assert_eq!(row.id, Uuid { value: 1 });
            assert_eq!(row.topic, "topic-1");
            assert_eq!(row.partition_key, "key-1");
            assert_eq!(row.payload, vec![1, 7]);
        }
        other => panic!("{:?}", other),
    }
    let (b, action) = next(b, RelayEvent::Sent);
    assert!(matches!(action, RelayAction::Send(ref row) if row.id.value == 2));
    let (b, action) = next(b, RelayEvent::NotSent("timeout".to_string()));
    assert!(matches!(action, RelayAction::Send(ref row) if row.id.value == 3));
    let (b, action) = next(b, RelayEvent::Sent);
    match action {
        RelayAction::MarkPublished(ids) => {
            assert_eq!(ids, vec![Uuid { value: 1 }, Uuid { value: 3 }])
        }
        other => panic!("{:?}", other),
    }
    let (b, action) = next(b, RelayEvent::Done);
    match action {
        RelayAction::RecordFailure(failure) => {
            assert_eq!(failure.id, Uuid { value: 2 });
            assert_eq!(failure.error, "timeout");
            // However often it failed, the event stays pending.
            assert_eq!(failure.status, EventStatus::Pending);
            assert_eq!(failure.retry_count, 21);
        }
        other => panic!("{:?}", other),
    }
    let (b, action) = next(b, RelayEvent::Done);
    assert!(matches!(action, RelayAction::Commit));
    let (_, action) = next(b, RelayEvent::Done);
    assert!(matches!(action, RelayAction::Return(Ok(2))));
}

#[test]
fn a_batch_without_acknowledgements_marks_nothing() {
    let (b, _) = next(relay_batch(100).0, RelayEvent::Done);
    let (b, _) = next(b, RelayEvent::Fetched(vec![outbox(1)]));
    let (b, action) = next(b, RelayEvent::NotSent("down".to_string()));
    assert!(matches!(action, RelayAction::RecordFailure(_)));
    let (b, action) = next(b, RelayEvent::Done);
    assert!(matches!(action, RelayAction::Commit));
    let (_, action) = next(b, RelayEvent::Done);
    assert!(matches!(action, RelayAction::Return(Ok(0))));
    assert_eq!(EventStatus::Pending.as_str(), "PENDING");
    assert_eq!(EventStatus::Published.as_str(), "PUBLISHED");
}

#[test]
fn later_events_of_a_stuck_key_wait() {
    let keyed = |id: u128, key: &str| OutboxRow { partition_key: key.to_string(), ..outbox(id) };
    let rows = vec![keyed(1, "a"), keyed(2, "b"), keyed(3, "a"), keyed(4, "b"), keyed(5, "a")];
    let (b, _) = next(relay_batch(100).0, RelayEvent::Done);
    let (b, _) = next(b, RelayEvent::Fetched(rows));
    let (b, action) = next(b, RelayEvent::NotSent("down".to_string()));
    assert!(matches!(action, RelayAction::Send(ref row) if row.id.value == 2));
    let (b, action) = next(b, RelayEvent::Sent);
    assert!(matches!(action, RelayAction::Send(ref row) if row.id.value == 4));
    let (b, action) = next(b, RelayEvent::Sent);
    match action {
        RelayAction::MarkPublished(ids) => {
            assert_eq!(ids, vec![Uuid { value: 2 }, Uuid { value: 4 }])
        }
        other => panic!("{:?}", other),
    }
    let (b, action) = next(b, RelayEvent::Done);
    assert!(matches!(action, RelayAction::RecordFailure(ref f) if f.id.value == 1));
    let (_, action) = next(b, RelayEvent::Done);
    assert!(matches!(action, RelayAction::Commit));
}

#[test]
fn database_errors_end_a_batch() {
    let broken = DbError { kind: DbErrorKind::Other, message: "gone".to_string() };
    let (_, action) = next(relay_batch(100).0, RelayEvent::Failed(broken));
    assert!(matches!(action, RelayAction::Return(Err(ref e)) if e.message == "gone"));
}

#[test]
fn the_relay_pauses_when_there_is_nothing_to_do() {
    let broken = DbError { kind: DbErrorKind::Other, message: "gone".to_string() };
    assert_eq!(pause_after(&Ok(3), 200), 0);
    assert_eq!(pause_after(&Ok(0), 200), 200);
    assert_eq!(pause_after(&Err(broken), 200), 5_000);
}
