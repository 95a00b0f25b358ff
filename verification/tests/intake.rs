use fdp::api::{
    create_account, health_check, readiness_check, require_found, ApiError, CreateAccountRequest,
};
use fdp::decimal::Decimal;
use fdp::domain::{Currency, TransactionStatus, TransactionType};
use fdp::error::{DbError, DbErrorKind, DomainError};
use fdp::ident::Uuid;
use fdp::moment::Timestamp;
use fdp::reports::{
    currency_transaction_report, daily_summary, high_value_transactions, high_value_transactions_from, report_date, AppError,
    DailyTotals,
};
use fdp::submission::{
    check_rate, find_answer_status, find_correlation_id, idempotency_check_and_insert, submit_transaction,
    validate_parties, Intake, IntakeAction, IntakeEvent, InsertResult, SubmitTransactionRequest,
};

fn request(kind: TransactionType, source: Option<u128>, dest: Option<u128>) -> SubmitTransactionRequest {
    SubmitTransactionRequest {
        transaction_type: kind,
        amount: Decimal::new(1050, 2),
        currency: Currency::Usd,
        source_account_id: source.map(|value| Uuid { value }),
        dest_account_id: dest.map(|value| Uuid { value }),
        description: None,
        metadata: None,
    }
}

fn transfer() -> SubmitTransactionRequest {
    request(TransactionType::Transfer, Some(1), Some(2))
}

fn begin(body: SubmitTransactionRequest) -> Intake {
    let correlation = "00000000-0000-0000-0000-000000000063";
    let submission = submit_transaction(0, 10, Some("key-1"), Some(correlation), body, b"abc").unwrap();
    let (intake, action) = idempotency_check_and_insert(submission);
    assert!(matches!(action, IntakeAction::Begin));
    intake
}

fn next(intake: Intake, event: IntakeEvent) -> (Intake, IntakeAction) {
    assert!(intake.fits(&event));
    intake.step(event)
}

fn answer(action: IntakeAction) -> Result<InsertResult, ApiError> {
    match action {
        IntakeAction::Return(result) => result,
        other => panic!("{:?}", other),
    }
}

const ABC_HASH: &str = "ba7816bf8f01cfea414140de5dae2223b00361a396177a9cb410ff61f20015ad";

#[test]
fn requests_without_a_good_key_are_refused() {
    assert!(matches!(
        submit_transaction(0, 10, None, None, transfer(), b""),
        Err(ApiError::MissingIdempotencyKey)
    ));
    match submit_transaction(0, 10, Some("a b"), None, transfer(), b"").unwrap_err() {
        ApiError::InvalidIdempotencyKey(m) => assert_eq!(
            m,
            "idempotency key contains invalid characters (allowed: a-z, A-Z, 0-9, -, _)"
        ),
        other => panic!("{:?}", other),
    }
}

#[test]
fn amounts_and_descriptions_are_checked() {
    let mut body = transfer();
    body.amount = Decimal::new(1, 4);
    body.description = Some("d".repeat(500));
    assert!(body.validate().is_ok());
    body.amount = Decimal::new(9, 5);
    match body.validate().unwrap_err() {
        ApiError::ValidationError(m) => assert_eq!(m, "amount: amount must be positive"),
        other => panic!("{:?}", other),
    }
    body.description = Some("\u{e9}".repeat(501));
    body.amount = Decimal::new(1, 0);
    match body.validate().unwrap_err() {
        ApiError::ValidationError(m) => assert_eq!(m, "description: invalid"),
        other => panic!("{:?}", other),
    }
    body.amount = Decimal::new(-1, 0);
    match submit_transaction(0, 10, Some("k"), None, body, b"").unwrap_err() {
        ApiError::ValidationError(m) => {
            assert_eq!(m, "amount: amount must be positive, description: invalid")
        }
        other => panic!("{:?}", other),
    }
}

#[test]
fn parties_are_checked() {
    let both = "TRANSFER requires both source_account_id and dest_account_id";
    let differ = "source and destination accounts must differ";
    let source = "DEBIT/FEE requires source_account_id";
    let dest = "CREDIT/ADJUSTMENT requires dest_account_id";
    for (body, error) in [
        (request(TransactionType::Transfer, Some(1), Some(2)), None),
        (request(TransactionType::Transfer, None, Some(2)), Some(both)),
        (request(TransactionType::Transfer, Some(1), None), Some(both)),
        (request(TransactionType::Transfer, Some(1), Some(1)), Some(differ)),
        (request(TransactionType::Debit, Some(1), None), None),
        (request(TransactionType::Debit, None, Some(1)), Some(source)),
        (request(TransactionType::Fee, None, None), Some(source)),
        (request(TransactionType::Credit, None, Some(1)), None),
        (request(TransactionType::Credit, Some(1), None), Some(dest)),
        (request(TransactionType::Adjustment, None, None), Some(dest)),
        (request(TransactionType::Reversal, None, None), None),
    ] {
        match (validate_parties(&body), error) {
            (Ok(()), None) => {}
            (Err(ApiError::ValidationError(m)), Some(text)) => assert_eq!(m, text),
            (result, _) => panic!("{:?} {:?}", body, result),
        }
    }
    assert!(matches!(
        submit_transaction(0, 10, Some("k"), None, request(TransactionType::Fee, None, None), b""),
        Err(ApiError::ValidationError(m)) if m == source
    ));
}

#[test]
fn checked_requests_have_hash_and_correlation_id() {
    let s = submit_transaction(
        9,
        10,
        Some("key-1"),
        Some("00000000-0000-0000-0000-000000000063"),
        transfer(),
        b"abc",
    )
    .unwrap();
    assert_eq!(s.key(), "key-1");
    assert_eq!(s.request_hash(), ABC_HASH);
    assert_eq!(s.correlation_id(), Uuid { value: 0x63 });
}

#[test]
fn callers_over_their_rate_are_refused() {
    for (requests, limit) in [(10, 10), (11, 10), (0, 0)] {
        let error =
            submit_transaction(requests, limit, Some("k"), None, transfer(), b"").unwrap_err();
        let response = error.into_response();
        assert_eq!(response.status, 429);
        assert_eq!(response.code, "RATE_LIMITED");
        assert_eq!(
            response.message,
            format!("rate limit exceeded: {} requests per minute", limit)
        );
    }
    assert!(check_rate(9, 10).is_ok());
}

#[test]
fn unreadable_request_ids_get_a_fresh_correlation_id() {
    for header in [None, Some("not an id")] {
        let id = find_correlation_id(header);
        assert_eq!((id.value >> 76) & 0xf, 4);
        assert_ne!(id, find_correlation_id(header));
    }
    let given = Uuid { value: 5 };
    assert_eq!(find_correlation_id(Some(&given.to_text())), given);
}

#[test]
fn a_new_transaction_is_stored_announced_and_recorded() {
    let mut body = transfer();
    body.description = Some("rent".to_string());
    body.metadata = Some("{\"order\":1}".to_string());
    let intake = begin(body);
    let id = intake.transaction_id;
    let (intake, action) = next(intake, IntakeEvent::Done);
    match action {
        IntakeAction::InsertTransaction(t) => {
            assert_eq!(t.id, id);
            assert_eq!(t.idempotency_key, "key-1");
            assert_eq!(t.transaction_type, TransactionType::Transfer);
            assert_eq!(t.amount.to_text(), "10.50");
            assert_eq!(t.currency, Currency::Usd);
            assert_eq!(t.source_account_id, Some(Uuid { value: 1 }));
            assert_eq!(t.dest_account_id, Some(Uuid { value: 2 }));
            assert_eq!(t.description.as_deref(), Some("rent"));
            assert_eq!(t.metadata, "{\"order\":1}");
            assert_eq!(t.request_hash, ABC_HASH);
        }
        other => panic!("{:?}", other),
    }
    let (intake, action) =
        next(intake, IntakeEvent::Inserted(Some((id, Some("PENDING".to_string())))));
    match action {
        IntakeAction::InsertOutboxEvent(e) => {
            assert_eq!(e.aggregate_type, "Transaction");
            assert_eq!(e.aggregate_id, id);
            assert_eq!(e.event_type, "TransactionSubmitted");
            assert_eq!(e.topic, "financial.transactions.v1");
            assert_eq!(e.partition_key, "00000000-0000-0000-0000-000000000001");
            assert_eq!(e.payload.aggregate_version, 1);
            assert_eq!(e.payload.correlation_id, Uuid { value: 0x63 });
            assert_eq!(e.payload.payload.transaction_id, id);
            assert_eq!((e.payload.event_id.value >> 76) & 0xf, 7);
            assert_eq!(e.payload.payload.idempotency_key, "key-1");
        }
        other => panic!("{:?}", other),
    }
    let (intake, action) = next(intake, IntakeEvent::Done);
    match action {
        IntakeAction::RecordAudit(record) => {
            assert_eq!(record.action, "SUBMITTED");
            assert_eq!(record.actor_id, "api");
            assert_eq!(record.actor_type, "SYSTEM");
            assert_eq!(record.correlation_id, Uuid { value: 0x63 });
            let fields: Vec<(String, String)> =
                record.new_state.into_iter().map(|f| (f.name, f.value)).collect();
            assert_eq!(
                fields,
                vec![
                    ("id".to_string(), id.to_text()),
                    ("idempotency_key".to_string(), "key-1".to_string()),
                    ("amount".to_string(), "10.50".to_string()),
                    ("currency".to_string(), "Usd".to_string()),
                    ("status".to_string(), "PENDING".to_string()),
                ]
            );
        }
        other => panic!("{:?}", other),
    }
    let (intake, action) = next(intake, IntakeEvent::Done);
    assert!(matches!(action, IntakeAction::Commit));
    let (intake, action) = next(intake, IntakeEvent::Done);
    let result = answer(action).unwrap();
    assert_eq!(result.status_code, 202);
    assert_eq!(result.response.transaction_id, id);
    assert_eq!(result.response.status, "PENDING");
    assert_eq!(result.response.idempotency_key, "key-1");
    assert!(!result.response.was_duplicate);
    assert!(!intake.fits(&IntakeEvent::Done));
}

#[test]
fn events_without_a_source_go_by_the_transaction() {
    let intake = begin(request(TransactionType::Credit, None, Some(2)));
    let id = intake.transaction_id;
    let (intake, action) = next(intake, IntakeEvent::Done);
    assert!(matches!(action, IntakeAction::InsertTransaction(ref t) if t.metadata == "{}"));
    let (_, action) = next(intake, IntakeEvent::Inserted(Some((id, None))));
    assert!(matches!(
        action,
        IntakeAction::InsertOutboxEvent(ref e) if e.partition_key == id.to_text()
    ));
}

#[test]
fn repeated_requests_get_the_first_answer() {
    for (status, code) in [("PENDING", 202), ("PROCESSING", 202), ("SETTLED", 200), ("FAILED", 200)] {
        let (intake, _) = next(begin(transfer()), IntakeEvent::Done);
        let (intake, action) = next(intake, IntakeEvent::Inserted(None));
        assert!(matches!(
            action,
            IntakeAction::LoadExisting { ref idempotency_key } if idempotency_key == "key-1"
        ));
        let existing = IntakeEvent::Existing {
            id: Uuid { value: 77 },
            status: Some(status.to_string()),
            request_hash: ABC_HASH.to_string(),
        };
        let (intake, action) = next(intake, existing);
        assert!(matches!(action, IntakeAction::Commit));
        let result = answer(next(intake, IntakeEvent::Done).1).unwrap();
        assert_eq!(result.status_code, code);
        assert_eq!(result.response.transaction_id, Uuid { value: 77 });
        assert_eq!(result.response.status, status);
        assert!(result.response.was_duplicate);
    }
    assert_eq!(find_answer_status("SETTLED", false), 202);
}

#[test]
fn a_key_reused_for_another_body_is_refused() {
    let (intake, _) = next(begin(transfer()), IntakeEvent::Done);
    let (intake, _) = next(intake, IntakeEvent::Inserted(None));
    let existing = IntakeEvent::Existing {
        id: Uuid { value: 77 },
        status: Some("SETTLED".to_string()),
        request_hash: "other".to_string(),
    };
    let (intake, action) = next(intake, existing);
    assert!(matches!(action, IntakeAction::Rollback));
    let error = answer(next(intake, IntakeEvent::Done).1).unwrap_err();
    let response = error.into_response();
    assert_eq!(response.status, 422);
    assert_eq!(response.code, "IDEMPOTENCY_KEY_REUSED");
    assert_eq!(
        response.message,
        "idempotency key 'key-1' already used with different request body"
    );
}

#[test]
fn database_errors_end_the_intake() {
    let broken = DbError { kind: DbErrorKind::Other, message: "gone".to_string() };
    let error = answer(next(begin(transfer()), IntakeEvent::Failed(broken)).1).unwrap_err();
    assert_eq!(error.to_text(), "database error: gone");
    let response = error.into_response();
    assert_eq!(response.status, 500);
    assert_eq!(response.code, "INTERNAL_ERROR");
    assert_eq!(response.message, "an internal error occurred");
}

#[test]
fn refusals_are_answered_with_status_and_code() {
    let id = Uuid::nil();
    for (error, status, code, message) in [
        (
            ApiError::MissingIdempotencyKey,
            400,
            "MISSING_IDEMPOTENCY_KEY",
            "Idempotency-Key header is required".to_string(),
        ),
        (
            ApiError::InvalidIdempotencyKey("bad".to_string()),
            400,
            "INVALID_IDEMPOTENCY_KEY",
            "invalid idempotency key: bad".to_string(),
        ),
        (
            ApiError::ValidationError("v".to_string()),
            422,
            "VALIDATION_ERROR",
            "validation error: v".to_string(),
        ),
        (
            ApiError::NotFound(id),
            404,
            "NOT_FOUND",
            format!("not found: {}", id.to_text()),
        ),
        (
            ApiError::Domain(DomainError::AccountInactive(id)),
            409,
            "DOMAIN_ERROR",
            format!("domain error: account is inactive: {}", id.to_text()),
        ),
        (
            ApiError::Domain(DomainError::DuplicateRequest("k".to_string())),
            200,
            "DOMAIN_ERROR",
            "domain error: duplicate request: idempotency_key=k already processed".to_string(),
        ),
        (
            ApiError::Serialization("s".to_string()),
            500,
            "INTERNAL_ERROR",
            "an internal error occurred".to_string(),
        ),
        (
            ApiError::Internal("i".to_string()),
            500,
            "INTERNAL_ERROR",
            "an internal error occurred".to_string(),
        ),
    ] {
        let response = error.into_response();
        assert_eq!(response.status, status);
        assert_eq!(response.code, code);
        assert_eq!(response.message, message);
    }
    assert_eq!(ApiError::Serialization("s".to_string()).to_text(), "serialization error: s");
    assert_eq!(ApiError::Internal("i".to_string()).to_text(), "internal error: i");
}

#[test]
fn missing_rows_are_not_found() {
    assert_eq!(require_found(Some(3), Uuid::nil()).unwrap(), 3);
    assert!(matches!(
        require_found::<u8>(None, Uuid { value: 4 }),
        Err(ApiError::NotFound(Uuid { value: 4 }))
    ));
}

#[test]
fn health_and_readiness() {
    assert_eq!(health_check(), 200);
    let ready = readiness_check(true);
    assert_eq!((ready.code, ready.status, ready.reason), (200, "ready", None));
    let waiting = readiness_check(false);
    assert_eq!((waiting.code, waiting.status, waiting.reason), (503, "not_ready", Some("database")));
}

#[test]
fn accounts_get_fresh_identifiers() {
    let body = || CreateAccountRequest {
        external_id: "ext".to_string(),
        owner_id: "own".to_string(),
        currency: Currency::Cad,
    };
    let a = create_account(body());
    assert_eq!(a.external_id, "ext");
    assert_eq!(a.owner_id, "own");
    assert_eq!(a.currency, Currency::Cad);
    assert_eq!((a.id.value >> 76) & 0xf, 7);
    assert_ne!(a.id, create_account(body()).id);
}

#[test]
fn report_errors_are_answered() {
    let missing = DbError { kind: DbErrorKind::RowNotFound, message: "none".to_string() };
    assert_eq!(AppError::from(missing).into_response(), (404, "not found".to_string()));
    let broken = DbError { kind: DbErrorKind::PoolTimedOut, message: "busy".to_string() };
    assert_eq!(
        AppError::from(broken).into_response(),
        (500, "internal server error".to_string())
    );
}

#[test]
fn reports_cover_the_last_day() {
    let now = Timestamp { seconds: 1_709_210_096, nanos: 3 };
    assert_eq!(report_date(&now), "2024-02-29");
    let high = high_value_transactions(&now);
    assert_eq!(high.threshold.to_text(), "10000");
    assert_eq!(high.since, Timestamp { seconds: 1_709_123_696, nanos: 3 });
    assert_eq!(high.limit, 1000);
    let set = high_value_transactions_from(Decimal::new(5, 0), &now);
    assert_eq!(set.threshold.to_text(), "5");
    assert_eq!(set.since, high.since);
    let ctr = currency_transaction_report(&now);
    assert_eq!(ctr.threshold.to_text(), "10000");
    assert_eq!(ctr.window_start, Timestamp { seconds: 1_709_123_696, nanos: 3 });
    assert_eq!(ctr.status, TransactionStatus::Settled);
    assert_eq!(ctr.currency, Currency::Usd);
    assert_eq!(
        ctr.types,
        [TransactionType::Transfer, TransactionType::Credit, TransactionType::Debit]
    );
}

#[test]
fn daily_summaries_hold_the_totals() {
    let totals = DailyTotals {
        total: 5,
        volume: Decimal::new(12345, 2),
        settled: 3,
        failed: 2,
        by_currency: "{\"USD\":123.45}".to_string(),
        by_type: "{\"FEE\":5}".to_string(),
    };
    let summary = daily_summary("2024-02-29".to_string(), totals);
    assert_eq!(summary.date, "2024-02-29");
    assert_eq!(summary.total_transactions, 5);
    assert_eq!(summary.total_volume.to_text(), "123.45");
    assert_eq!(summary.settled_count, 3);
    assert_eq!(summary.failed_count, 2);
    assert_eq!(summary.by_currency, "{\"USD\":123.45}");
    assert_eq!(summary.by_type, "{\"FEE\":5}");
}
