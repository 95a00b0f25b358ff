//! Taking transactions in.
//!
//! The caller's rate and the request are checked before anything is stored. Then an [`Intake`] decides,
//! step by step, what is to be done on the database: whoever drives it performs
//! each [`IntakeAction`] and answers with the [`IntakeEvent`] that came of it.
//!
//! What holds throughout:
//! - A repeated request with the same key and the same body gets the answer to
//!   the first, and nothing is stored again.
//! - A request with a known key and another body is refused.
//! - The transaction, the event for the outbox and the audit record are stored
//!   in one database transaction.
use vstd::arithmetic::power::pow;
use vstd::prelude::*;
use vstd::string::*;

use crate::api::{ApiError, STATUS_ACCEPTED, STATUS_OK};
use crate::audit::{field, fields_view, record, AuditRecord, AuditRecordView, Field};
use crate::decimal::{lemma_from_parts, Decimal};
use crate::domain::{Currency, TransactionType};
use crate::error::DbError;
use crate::events::{EventEnvelope, TransactionSubmitted, TOPIC_TRANSACTIONS};
use crate::hexadecimal::hex_text;
use crate::idempotency::{
    compute_request_hash, is_good_key, key_error, law_good_keys, sha256_digest, IdempotencyKey,
};
use crate::ident::{uuid_parsed, uuid_variant, uuid_version, Uuid};
use crate::text::{joined, optional_text, same_text};

verus! {

/// The largest number of characters in a description.
pub const MAX_DESCRIPTION_LENGTH: usize = 500;

/// A request to carry out a transaction.
#[derive(Debug)]
pub struct SubmitTransactionRequest<S = String> {
    pub transaction_type: TransactionType,
    pub amount: Decimal,
    pub currency: Currency,
    pub source_account_id: Option<Uuid>,
    pub dest_account_id: Option<Uuid>,
    pub description: Option<S>,
    /// The caller's own data, as JSON text.
    pub metadata: Option<S>,
}

impl View for SubmitTransactionRequest<String> {
    type V = SubmitTransactionRequest<Seq<char>>;

    open spec fn view(&self) -> SubmitTransactionRequest<Seq<char>> {
        SubmitTransactionRequest {
            transaction_type: self.transaction_type,
            amount: self.amount,
            currency: self.currency,
            source_account_id: self.source_account_id,
            dest_account_id: self.dest_account_id,
            description: optional_text(self.description),
            metadata: optional_text(self.metadata),
        }
    }
}

/// The answer to a request that was taken in.
#[derive(Debug)]
pub struct SubmitTransactionResponse<S = String> {
    pub transaction_id: Uuid,
    pub status: S,
    pub idempotency_key: S,
    /// Whether the request repeats an earlier one.
    pub was_duplicate: bool,
}

/// An answer and its HTTP status.
#[derive(Debug)]
pub struct InsertResult<S = String> {
    pub status_code: u16,
    pub response: SubmitTransactionResponse<S>,
}

impl View for InsertResult<String> {
    type V = InsertResult<Seq<char>>;

    open spec fn view(&self) -> InsertResult<Seq<char>> {
        InsertResult {
            status_code: self.status_code,
            response: SubmitTransactionResponse {
                transaction_id: self.response.transaction_id,
                status: self.response.status@,
                idempotency_key: self.response.idempotency_key@,
                was_duplicate: self.response.was_duplicate,
            },
        }
    }
}

/// Whether an amount is large enough: at least 0.0001.
pub open spec fn amount_is_positive(amount: Decimal) -> bool {
    amount.units() >= Decimal::from_parts(1, 4).units()
}

impl SubmitTransactionRequest<Seq<char>> {
    /// Whether the description is short enough, if there is one.
    pub open spec fn description_fits(self) -> bool {
        self.description matches Some(text) ==> text.len() <= MAX_DESCRIPTION_LENGTH
    }

    /// What is wrong with single fields, if anything.
    pub open spec fn field_errors(self) -> Option<Seq<char>> {
        let amount_error = "amount: amount must be positive"@;
        let description_error = "description: invalid"@;
        match (amount_is_positive(self.amount), self.description_fits()) {
            (true, true) => None,
            (false, true) => Some(amount_error),
            (true, false) => Some(description_error),
            (false, false) => Some(amount_error + ", "@ + description_error),
        }
    }

    /// What is wrong with the accounts, if anything.
    pub open spec fn party_error(self) -> Option<Seq<char>> {
        match self.transaction_type {
            TransactionType::Transfer => if self.source_account_id is None || self.dest_account_id
                is None {
                Some("TRANSFER requires both source_account_id and dest_account_id"@)
            } else if self.source_account_id == self.dest_account_id {
                Some("source and destination accounts must differ"@)
            } else {
                None
            },
            TransactionType::Debit | TransactionType::Fee => if self.source_account_id is None {
                Some("DEBIT/FEE requires source_account_id"@)
            } else {
                None
            },
            TransactionType::Credit | TransactionType::Adjustment => if self.dest_account_id
                is None {
                Some("CREDIT/ADJUSTMENT requires dest_account_id"@)
            } else {
                None
            },
            TransactionType::Reversal => None,
        }
    }

    /// What is wrong with the request, if anything: fields come before accounts.
    pub open spec fn error(self) -> Option<ApiError<Seq<char>>> {
        match (self.field_errors(), self.party_error()) {
            (Some(m), _) => Some(ApiError::ValidationError(m)),
            (None, Some(m)) => Some(ApiError::ValidationError(m)),
            (None, None) => None,
        }
    }
}

impl SubmitTransactionRequest {
    /// Checks the single fields.
    pub fn validate(&self) -> (r: Result<(), ApiError>)
        ensures
            r is Ok <==> self@.field_errors() is None,
            r matches Err(e) ==> e@ == ApiError::ValidationError(self@.field_errors()->0),
    {
        let amount_fits = !self.amount.less_than(&Decimal::new(1, 4));
        let description_fits = match &self.description {
            Some(text) => text.as_str().unicode_len() <= MAX_DESCRIPTION_LENGTH,
            None => true,
        };
        if amount_fits && description_fits {
            return Ok(());
        }
        let message = if description_fits {
            "amount: amount must be positive".to_string()
        } else if amount_fits {
            "description: invalid".to_string()
        } else {
            let mut both = joined("amount: amount must be positive", ", ");
            both.append("description: invalid");
            both
        };
        Err(ApiError::ValidationError(message))
    }
}

fn same_account(a: Option<Uuid>, b: Option<Uuid>) -> (r: bool)
    ensures
        r == (a == b),
{
    match (a, b) {
        (Some(a), Some(b)) => a == b,
        (None, None) => true,
        _ => false,
    }
}

/// Checks that a request names the accounts that its type calls for.
pub fn validate_parties(body: &SubmitTransactionRequest) -> (r: Result<(), ApiError>)
    ensures
        r is Ok <==> body@.party_error() is None,
        r matches Err(e) ==> e@ == ApiError::ValidationError(body@.party_error()->0),
{
    match body.transaction_type {
        TransactionType::Transfer => {
            if body.source_account_id.is_none() || body.dest_account_id.is_none() {
                return Err(
                    ApiError::ValidationError(
                        "TRANSFER requires both source_account_id and dest_account_id".to_string(),
                    ),
                );
            }
            if same_account(body.source_account_id, body.dest_account_id) {
                return Err(
                    ApiError::ValidationError(
                        "source and destination accounts must differ".to_string(),
                    ),
                );
            }
        },
        TransactionType::Debit | TransactionType::Fee => {
            if body.source_account_id.is_none() {
                return Err(
                    ApiError::ValidationError("DEBIT/FEE requires source_account_id".to_string()),
                );
            }
        },
        TransactionType::Credit | TransactionType::Adjustment => {
            if body.dest_account_id.is_none() {
                return Err(
                    ApiError::ValidationError(
                        "CREDIT/ADJUSTMENT requires dest_account_id".to_string(),
                    ),
                );
            }
        },
        TransactionType::Reversal => {},
    }
    Ok(())
}

/// Whether an identifier can be the correlation id of a request: that of its
/// header where it has one that can be read, and a random one otherwise.
pub open spec fn correlates(request_id: Option<&str>, id: Uuid) -> bool {
    match request_id {
        Some(text) => match uuid_parsed(text@) {
            Some(value) => id == (Uuid { value }),
            None => uuid_version(id.value) == 4 && uuid_variant(id.value) == 2,
        },
        None => uuid_version(id.value) == 4 && uuid_variant(id.value) == 2,
    }
}

/// The correlation id of a request.
pub fn find_correlation_id(request_id: Option<&str>) -> (r: Uuid)
    ensures
        correlates(request_id, r),
{
    match request_id {
        Some(text) => match Uuid::parse_str(text) {
            Some(id) => id,
            None => Uuid::new_v4(),
        },
        None => Uuid::new_v4(),
    }
}

/// Checks that a caller may make another request: `requests` were made within
/// the last minute, and `limit` are allowed.
pub fn check_rate(requests: u64, limit: u64) -> (r: Result<(), ApiError>)
    ensures
        r is Ok <==> requests < limit,
        r matches Err(e) ==> e@ == ApiError::<Seq<char>>::RateLimited(limit),
{
    if requests < limit {
        Ok(())
    } else {
        Err(ApiError::RateLimited(limit))
    }
}

/// A request that passed all checks. There is no other way to make one than
/// [`submit_transaction`].
#[derive(Debug)]
pub struct Submission {
    key: IdempotencyKey,
    request_hash: String,
    correlation_id: Uuid,
    body: SubmitTransactionRequest,
}

/// What a checked request holds.
pub struct SubmissionView {
    pub key: Seq<char>,
    pub request_hash: Seq<char>,
    pub correlation_id: Uuid,
    pub body: SubmitTransactionRequest<Seq<char>>,
}

impl View for Submission {
    type V = SubmissionView;

    closed spec fn view(&self) -> SubmissionView {
        SubmissionView {
            key: self.key@,
            request_hash: self.request_hash@,
            correlation_id: self.correlation_id,
            body: self.body@,
        }
    }
}

impl Submission {
    #[verifier::type_invariant]
    spec fn checked(self) -> bool {
        self.body@.error() is None
    }

    /// The request's key.
    pub fn key(&self) -> (r: &str)
        ensures
            r@ == self@.key,
    {
        self.key.as_str()
    }

    /// The hash of the request's body.
    pub fn request_hash(&self) -> (r: &str)
        ensures
            r@ == self@.request_hash,
    {
        self.request_hash.as_str()
    }

    /// The request's correlation id.
    pub fn correlation_id(&self) -> (r: Uuid)
        ensures
            r == self@.correlation_id,
    {
        self.correlation_id
    }
}

/// What is wrong with a request as a whole, if anything. The caller's rate is
/// looked at first, then the key.
pub open spec fn submission_error(
    requests: u64,
    limit: u64,
    key: Option<Seq<char>>,
    body: SubmitTransactionRequest<Seq<char>>,
) -> Option<ApiError<Seq<char>>> {
    if requests >= limit {
        Some(ApiError::RateLimited(limit))
    } else {
        match key {
            None => Some(ApiError::MissingIdempotencyKey),
            Some(raw) => match key_error(raw) {
                Some(e) => Some(ApiError::InvalidIdempotencyKey(e.text())),
                None => body.error(),
            },
        }
    }
}

pub open spec fn optional_str(text: Option<&str>) -> Option<Seq<char>> {
    match text {
        Some(s) => Some(s@),
        None => None,
    }
}

/// Checks a request. The caller made `requests` others within the last minute,
/// and `limit` are allowed; `key` and `request_id` are the headers
/// `Idempotency-Key` and `X-Request-Id`, as far as they are text; `canonical` is
/// the body in canonical form. Only a request that passes can be taken in.
pub fn submit_transaction(
    requests: u64,
    limit: u64,
    key: Option<&str>,
    request_id: Option<&str>,
    body: SubmitTransactionRequest,
    canonical: &[u8],
) -> (r: Result<Submission, ApiError>)
    ensures
        r is Ok <==> submission_error(requests, limit, optional_str(key), body@) is None,
        r matches Err(e) ==> Some(e@) == submission_error(requests, limit, optional_str(key), body@),
        r matches Ok(s) ==> s@.body == body@,
        r matches Ok(s) ==> Some(s@.key) == optional_str(key),
        r matches Ok(s) ==> s@.request_hash == hex_text(sha256_digest(canonical@)),
        r matches Ok(s) ==> correlates(request_id, s@.correlation_id),
{
    if let Err(e) = check_rate(requests, limit) {
        return Err(e);
    }
    let raw = match key {
        Some(raw) => raw,
        None => {
            return Err(ApiError::MissingIdempotencyKey);
        },
    };
    let key = match IdempotencyKey::new(raw) {
        Ok(key) => key,
        Err(e) => {
            return Err(ApiError::InvalidIdempotencyKey(e.to_text()));
        },
    };
    if let Err(e) = body.validate() {
        return Err(e);
    }
    if let Err(e) = validate_parties(&body) {
        return Err(e);
    }
    let correlation_id = find_correlation_id(request_id);
    let request_hash = compute_request_hash(canonical);
    Ok(Submission { key, request_hash, correlation_id, body })
}

/// A transaction to be stored as pending, unless one with the same key that is
/// not reversed is there already.
#[derive(Debug)]
pub struct NewTransaction<S = String> {
    pub id: Uuid,
    pub idempotency_key: S,
    pub transaction_type: TransactionType,
    pub amount: Decimal,
    pub currency: Currency,
    pub source_account_id: Option<Uuid>,
    pub dest_account_id: Option<Uuid>,
    pub description: Option<S>,
    pub metadata: S,
    pub request_hash: S,
}

impl View for NewTransaction<String> {
    type V = NewTransaction<Seq<char>>;

    open spec fn view(&self) -> NewTransaction<Seq<char>> {
        NewTransaction {
            id: self.id,
            idempotency_key: self.idempotency_key@,
            transaction_type: self.transaction_type,
            amount: self.amount,
            currency: self.currency,
            source_account_id: self.source_account_id,
            dest_account_id: self.dest_account_id,
            description: optional_text(self.description),
            metadata: self.metadata@,
            request_hash: self.request_hash@,
        }
    }
}

/// An event to be stored in the outbox.
#[derive(Debug)]
pub struct OutboxEvent {
    pub aggregate_type: String,
    pub aggregate_id: Uuid,
    pub event_type: String,
    pub payload: EventEnvelope<TransactionSubmitted>,
    pub topic: String,
    pub partition_key: String,
}

/// What an outbox event says, apart from its identifier and time.
pub struct OutboxEventView {
    pub aggregate_type: Seq<char>,
    pub aggregate_id: Uuid,
    pub event_type: Seq<char>,
    pub topic: Seq<char>,
    pub partition_key: Seq<char>,
    pub envelope_aggregate_type: Seq<char>,
    pub envelope_aggregate_id: Uuid,
    pub envelope_event_type: Seq<char>,
    pub aggregate_version: i64,
    pub correlation_id: Uuid,
    pub transaction_id: Uuid,
    pub idempotency_key: Seq<char>,
    pub transaction_type: TransactionType,
    pub amount: Decimal,
    pub currency: Currency,
    pub source_account_id: Option<Uuid>,
    pub dest_account_id: Option<Uuid>,
}

impl View for OutboxEvent {
    type V = OutboxEventView;

    open spec fn view(&self) -> OutboxEventView {
        OutboxEventView {
            aggregate_type: self.aggregate_type@,
            aggregate_id: self.aggregate_id,
            event_type: self.event_type@,
            topic: self.topic@,
            partition_key: self.partition_key@,
            envelope_aggregate_type: self.payload.aggregate_type@,
            envelope_aggregate_id: self.payload.aggregate_id,
            envelope_event_type: self.payload.event_type@,
            aggregate_version: self.payload.aggregate_version,
            correlation_id: self.payload.correlation_id,
            transaction_id: self.payload.payload.transaction_id,
            idempotency_key: self.payload.payload.idempotency_key@,
            transaction_type: self.payload.payload.transaction_type,
            amount: self.payload.payload.amount,
            currency: self.payload.payload.currency,
            source_account_id: self.payload.payload.source_account_id,
            dest_account_id: self.payload.payload.dest_account_id,
        }
    }
}

/// What is to be done next.
#[derive(Debug)]
pub enum IntakeAction<S = String, A = AuditRecord, E = OutboxEvent> {
    /// Begin a database transaction.
    Begin,
    /// Store a transaction, unless its key is taken.
    InsertTransaction(NewTransaction<S>),
    /// Read the transaction that has the key and is not reversed.
    LoadExisting { idempotency_key: S },
    /// Store an event in the outbox.
    InsertOutboxEvent(E),
    /// Add a record to the audit log.
    RecordAudit(A),
    Commit,
    Rollback,
    /// Drop the database transaction, if it is still open, and answer.
    Return(Result<InsertResult<S>, ApiError<S>>),
}

pub type IntakeActionView = IntakeAction<Seq<char>, AuditRecordView, OutboxEventView>;

pub open spec fn answer_view(answer: Result<InsertResult, ApiError>) -> Result<
    InsertResult<Seq<char>>,
    ApiError<Seq<char>>,
> {
    match answer {
        Ok(result) => Ok(result@),
        Err(e) => Err(e@),
    }
}

impl View for IntakeAction<String, AuditRecord, OutboxEvent> {
    type V = IntakeActionView;

    open spec fn view(&self) -> IntakeActionView {
        match self {
            IntakeAction::Begin => IntakeAction::Begin,
            IntakeAction::InsertTransaction(t) => IntakeAction::InsertTransaction(t@),
            IntakeAction::LoadExisting { idempotency_key } => IntakeAction::LoadExisting {
                idempotency_key: idempotency_key@,
            },
            IntakeAction::InsertOutboxEvent(e) => IntakeAction::InsertOutboxEvent(e@),
            IntakeAction::RecordAudit(a) => IntakeAction::RecordAudit(a@),
            IntakeAction::Commit => IntakeAction::Commit,
            IntakeAction::Rollback => IntakeAction::Rollback,
            IntakeAction::Return(answer) => IntakeAction::Return(answer_view(*answer)),
        }
    }
}

/// What came of an action.
#[derive(Debug)]
pub enum IntakeEvent<S = String> {
    /// It was done.
    Done,
    /// The database reported an error.
    Failed(DbError<S>),
    /// The stored transaction's identifier and status, or nothing where the key
    /// was taken.
    Inserted(Option<(Uuid, Option<S>)>),
    /// The transaction that has the key.
    Existing { id: Uuid, status: Option<S>, request_hash: S },
}

impl View for IntakeEvent<String> {
    type V = IntakeEvent<Seq<char>>;

    open spec fn view(&self) -> IntakeEvent<Seq<char>> {
        match self {
            IntakeEvent::Done => IntakeEvent::Done,
            IntakeEvent::Failed(e) => IntakeEvent::Failed(e@),
            IntakeEvent::Inserted(None) => IntakeEvent::Inserted(None),
            IntakeEvent::Inserted(Some((id, status))) => IntakeEvent::Inserted(
                Some((*id, optional_text(*status))),
            ),
            IntakeEvent::Existing { id, status, request_hash } => IntakeEvent::Existing {
                id: *id,
                status: optional_text(*status),
                request_hash: request_hash@,
            },
        }
    }
}

/// Where the intake stands: which action was asked for last.
#[derive(Debug)]
pub enum IntakeStage<S = String> {
    Beginning,
    Inserting,
    Looking,
    Announcing { id: Uuid, status: S },
    Recording { id: Uuid, status: S },
    Committing { id: Uuid, status: S, was_duplicate: bool },
    Refusing,
    Finished,
}

impl View for IntakeStage<String> {
    type V = IntakeStage<Seq<char>>;

    open spec fn view(&self) -> IntakeStage<Seq<char>> {
        match self {
            IntakeStage::Beginning => IntakeStage::Beginning,
            IntakeStage::Inserting => IntakeStage::Inserting,
            IntakeStage::Looking => IntakeStage::Looking,
            IntakeStage::Announcing { id, status } => IntakeStage::Announcing {
                id: *id,
                status: status@,
            },
            IntakeStage::Recording { id, status } => IntakeStage::Recording {
                id: *id,
                status: status@,
            },
            IntakeStage::Committing { id, status, was_duplicate } => IntakeStage::Committing {
                id: *id,
                status: status@,
                was_duplicate: *was_duplicate,
            },
            IntakeStage::Refusing => IntakeStage::Refusing,
            IntakeStage::Finished => IntakeStage::Finished,
        }
    }
}

/// The intake of one checked request.
#[derive(Debug)]
pub struct Intake<S = String> {
    /// The identifier that the transaction gets if it is new.
    pub transaction_id: Uuid,
    pub key: S,
    pub request_hash: S,
    pub correlation_id: Uuid,
    pub body: SubmitTransactionRequest<S>,
    pub stage: IntakeStage<S>,
}

impl View for Intake<String> {
    type V = Intake<Seq<char>>;

    open spec fn view(&self) -> Intake<Seq<char>> {
        Intake {
            transaction_id: self.transaction_id,
            key: self.key@,
            request_hash: self.request_hash@,
            correlation_id: self.correlation_id,
            body: self.body@,
            stage: self.stage@,
        }
    }
}

/// The HTTP status of an answer: a new transaction is still to be processed; a
/// repeated one is too while it is pending or processing.
pub open spec fn answer_status(status: Seq<char>, was_duplicate: bool) -> u16 {
    if !was_duplicate || status == "PENDING"@ || status == "PROCESSING"@ {
        STATUS_ACCEPTED
    } else {
        STATUS_OK
    }
}

/// The HTTP status of an answer.
pub fn find_answer_status(status: &str, was_duplicate: bool) -> (r: u16)
    ensures
        r == answer_status(status@, was_duplicate),
{
    if !was_duplicate || same_text(status, "PENDING") || same_text(status, "PROCESSING") {
        STATUS_ACCEPTED
    } else {
        STATUS_OK
    }
}

pub open spec fn or_empty(text: Option<Seq<char>>) -> Seq<char> {
    match text {
        Some(t) => t,
        None => ""@,
    }
}

fn text_or_empty(text: Option<String>) -> (r: String)
    ensures
        r@ == or_empty(optional_text(text)),
{
    match text {
        Some(t) => t,
        None => "".to_string(),
    }
}

fn copy_text(text: &Option<String>) -> (r: Option<String>)
    ensures
        optional_text(r) == optional_text(*text),
{
    match text {
        Some(t) => Some(t.clone()),
        None => None,
    }
}

/// A step: where the intake then stands, and what is to be done.
pub open spec fn intake_step_view(step: (Intake, IntakeAction)) -> (
    Intake<Seq<char>>,
    IntakeActionView,
) {
    (step.0@, step.1@)
}

/// Whether what is stored is stamped: an event has a fresh identifier that is
/// ordered by time, by which repeated deliveries can be told, and events and
/// audit records have a valid time.
pub open spec fn stamped(action: IntakeAction) -> bool {
    match action {
        IntakeAction::InsertOutboxEvent(event) => {
            &&& uuid_version(event.payload.event_id.value) == 7
            &&& uuid_variant(event.payload.event_id.value) == 2
            &&& event.payload.occurred_at.valid()
        },
        IntakeAction::RecordAudit(entry) => entry.occurred_at.valid(),
        _ => true,
    }
}

impl Intake<Seq<char>> {
    pub open spec fn at(self, stage: IntakeStage<Seq<char>>) -> Intake<Seq<char>> {
        Intake { stage, ..self }
    }

    /// The transaction as it is stored. Without metadata it has an empty object.
    pub open spec fn new_transaction(self) -> NewTransaction<Seq<char>> {
        NewTransaction {
            id: self.transaction_id,
            idempotency_key: self.key,
            transaction_type: self.body.transaction_type,
            amount: self.body.amount,
            currency: self.body.currency,
            source_account_id: self.body.source_account_id,
            dest_account_id: self.body.dest_account_id,
            description: self.body.description,
            metadata: match self.body.metadata {
                Some(m) => m,
                None => "{}"@,
            },
            request_hash: self.request_hash,
        }
    }

    /// The event that announces the transaction. Events of one source account
    /// go to one partition, so that they stay in order.
    pub open spec fn outbox_event(self, id: Uuid) -> OutboxEventView {
        OutboxEventView {
            aggregate_type: "Transaction"@,
            aggregate_id: id,
            event_type: "TransactionSubmitted"@,
            topic: TOPIC_TRANSACTIONS@,
            partition_key: match self.body.source_account_id {
                Some(source) => source.text(),
                None => id.text(),
            },
            envelope_aggregate_type: "Transaction"@,
            envelope_aggregate_id: id,
            envelope_event_type: "TransactionSubmitted"@,
            aggregate_version: 1,
            correlation_id: self.correlation_id,
            transaction_id: id,
            idempotency_key: self.key,
            transaction_type: self.body.transaction_type,
            amount: self.body.amount,
            currency: self.body.currency,
            source_account_id: self.body.source_account_id,
            dest_account_id: self.body.dest_account_id,
        }
    }

    /// What the audit log says of the intake.
    pub open spec fn submitted_record(self, id: Uuid) -> AuditRecordView {
        AuditRecordView {
            entity_type: "Transaction"@,
            entity_id: id,
            action: "SUBMITTED"@,
            old_state: None,
            new_state: seq![
                Field { name: "id"@, value: id.text() },
                Field { name: "idempotency_key"@, value: self.key },
                Field { name: "amount"@, value: self.body.amount.text() },
                Field { name: "currency"@, value: self.body.currency.name() },
                Field { name: "status"@, value: "PENDING"@ },
            ],
            actor_id: "api"@,
            actor_type: "SYSTEM"@,
            correlation_id: self.correlation_id,
        }
    }

    /// The intake is over.
    pub open spec fn finish(self, answer: Result<InsertResult<Seq<char>>, ApiError<Seq<char>>>) -> (
        Intake<Seq<char>>,
        IntakeActionView,
    ) {
        (self.at(IntakeStage::Finished), IntakeAction::Return(answer))
    }

    pub open spec fn commit(self, id: Uuid, status: Seq<char>, was_duplicate: bool) -> (
        Intake<Seq<char>>,
        IntakeActionView,
    ) {
        (
            self.at(IntakeStage::Committing { id, status, was_duplicate }),
            IntakeAction::Commit,
        )
    }

    /// The answer to a request that was taken in.
    pub open spec fn answer(self, id: Uuid, status: Seq<char>, was_duplicate: bool) -> InsertResult<
        Seq<char>,
    > {
        InsertResult {
            status_code: answer_status(status, was_duplicate),
            response: SubmitTransactionResponse {
                transaction_id: id,
                status,
                idempotency_key: self.key,
                was_duplicate,
            },
        }
    }

    /// Whether an event can come of the action that was asked for.
    pub open spec fn accepts(self, event: IntakeEvent<Seq<char>>) -> bool {
        match self.stage {
            IntakeStage::Beginning => event is Done || event is Failed,
            IntakeStage::Inserting => event is Inserted || event is Failed,
            IntakeStage::Looking => event is Existing || event is Failed,
            IntakeStage::Announcing { .. } => event is Done || event is Failed,
            IntakeStage::Recording { .. } => event is Done || event is Failed,
            IntakeStage::Committing { .. } => event is Done || event is Failed,
            IntakeStage::Refusing => event is Done || event is Failed,
            IntakeStage::Finished => false,
        }
    }

    /// The step that an event leads to.
    pub open spec fn next(self, event: IntakeEvent<Seq<char>>) -> (
        Intake<Seq<char>>,
        IntakeActionView,
    ) {
        match (self.stage, event) {
            (IntakeStage::Beginning, IntakeEvent::Done) => (
                self.at(IntakeStage::Inserting),
                IntakeAction::InsertTransaction(self.new_transaction()),
            ),
            (IntakeStage::Inserting, IntakeEvent::Inserted(Some((id, status)))) => (
                self.at(IntakeStage::Announcing { id, status: or_empty(status) }),
                IntakeAction::InsertOutboxEvent(self.outbox_event(id)),
            ),
            (IntakeStage::Inserting, IntakeEvent::Inserted(None)) => (
                self.at(IntakeStage::Looking),
                IntakeAction::LoadExisting { idempotency_key: self.key },
            ),
            (
                IntakeStage::Looking,
                IntakeEvent::Existing { id, status, request_hash },
            ) => if request_hash == self.request_hash {
                self.commit(id, or_empty(status), true)
            } else {
                (self.at(IntakeStage::Refusing), IntakeAction::Rollback)
            },
            (IntakeStage::Announcing { id, status }, IntakeEvent::Done) => (
                self.at(IntakeStage::Recording { id, status }),
                IntakeAction::RecordAudit(self.submitted_record(id)),
            ),
            (IntakeStage::Recording { id, status }, IntakeEvent::Done) => self.commit(
                id,
                status,
                false,
            ),
            (
                IntakeStage::Committing { id, status, was_duplicate },
                IntakeEvent::Done,
            ) => self.finish(Ok(self.answer(id, status, was_duplicate))),
            (IntakeStage::Refusing, _) => self.finish(
                Err(ApiError::IdempotencyKeyReused { key: self.key }),
            ),
            (_, IntakeEvent::Failed(e)) => self.finish(Err(ApiError::Database(e))),
            // No other event is accepted.
            _ => (self, IntakeAction::Rollback),
        }
    }
}

/// Starts to take in a checked request, under a fresh identifier.
pub fn idempotency_check_and_insert(submission: Submission) -> (r: (Intake, IntakeAction))
    ensures
        uuid_version(r.0.transaction_id.value) == 7,
        uuid_variant(r.0.transaction_id.value) == 2,
        r.0@ == (Intake {
            transaction_id: r.0.transaction_id,
            key: submission@.key,
            request_hash: submission@.request_hash,
            correlation_id: submission@.correlation_id,
            body: submission@.body,
            stage: IntakeStage::Beginning,
        }),
        r.0@.body.error() is None,
        key_error(r.0@.key) is None,
        r.1@ == IntakeAction::<Seq<char>, AuditRecordView, OutboxEventView>::Begin,
{
    proof {
        use_type_invariant(&submission);
    }
    let key = submission.key.as_str().to_string();
    let intake = Intake {
        transaction_id: Uuid::now_v7(),
        key,
        request_hash: submission.request_hash,
        correlation_id: submission.correlation_id,
        body: submission.body,
        stage: IntakeStage::Beginning,
    };
    (intake, IntakeAction::Begin)
}

impl Intake {
    fn at(self, stage: IntakeStage) -> (r: Intake)
        ensures
            r@ == self@.at(stage@),
    {
        Intake {
            transaction_id: self.transaction_id,
            key: self.key,
            request_hash: self.request_hash,
            correlation_id: self.correlation_id,
            body: self.body,
            stage,
        }
    }

    fn finish(self, answer: Result<InsertResult, ApiError>) -> (r: (Intake, IntakeAction))
        ensures
            intake_step_view(r) == self@.finish(answer_view(answer)),
    {
        (self.at(IntakeStage::Finished), IntakeAction::Return(answer))
    }

    fn commit(self, id: Uuid, status: String, was_duplicate: bool) -> (r: (Intake, IntakeAction))
        ensures
            intake_step_view(r) == self@.commit(id, status@, was_duplicate),
    {
        (self.at(IntakeStage::Committing { id, status, was_duplicate }), IntakeAction::Commit)
    }

    fn new_transaction(&self) -> (r: NewTransaction)
        ensures
            r@ == self@.new_transaction(),
    {
        NewTransaction {
            id: self.transaction_id,
            idempotency_key: self.key.clone(),
            transaction_type: self.body.transaction_type,
            amount: self.body.amount,
            currency: self.body.currency,
            source_account_id: self.body.source_account_id,
            dest_account_id: self.body.dest_account_id,
            description: copy_text(&self.body.description),
            metadata: match &self.body.metadata {
                Some(m) => m.clone(),
                None => "{}".to_string(),
            },
            request_hash: self.request_hash.clone(),
        }
    }

    fn outbox_event(&self, id: Uuid) -> (r: OutboxEvent)
        ensures
            r@ == self@.outbox_event(id),
            stamped(IntakeAction::InsertOutboxEvent(r)),
    {
        let event = TransactionSubmitted {
            transaction_id: id,
            idempotency_key: self.key.clone(),
            transaction_type: self.body.transaction_type,
            amount: self.body.amount,
            currency: self.body.currency,
            source_account_id: self.body.source_account_id,
            dest_account_id: self.body.dest_account_id,
        };
        OutboxEvent {
            aggregate_type: "Transaction".to_string(),
            aggregate_id: id,
            event_type: "TransactionSubmitted".to_string(),
            payload: EventEnvelope::new(
                "Transaction",
                id,
                1,
                "TransactionSubmitted",
                self.correlation_id,
                event,
            ),
            topic: TOPIC_TRANSACTIONS.to_string(),
            partition_key: match self.body.source_account_id {
                Some(source) => source.to_text(),
                None => id.to_text(),
            },
        }
    }

    fn submitted_record(&self, id: Uuid) -> (r: AuditRecord)
        ensures
            r@ == self@.submitted_record(id),
            r.occurred_at.valid(),
    {
        let mut fields: Vec<Field> = Vec::new();
        fields.push(field("id", id.to_text().as_str()));
        fields.push(field("idempotency_key", self.key.as_str()));
        fields.push(field("amount", self.body.amount.to_text().as_str()));
        fields.push(field("currency", self.body.currency.json_name()));
        fields.push(field("status", "PENDING"));
        assert(fields_view(fields@) =~= self@.submitted_record(id).new_state);
        record(
            "Transaction",
            id,
            "SUBMITTED",
            None,
            fields,
            "api",
            "SYSTEM",
            self.correlation_id,
        )
    }

    fn answer(&self, id: Uuid, status: String, was_duplicate: bool) -> (r: InsertResult)
        ensures
            r@ == self@.answer(id, status@, was_duplicate),
    {
        let status_code: u16 = find_answer_status(status.as_str(), was_duplicate);
        InsertResult {
            status_code,
            response: SubmitTransactionResponse {
                transaction_id: id,
                status,
                idempotency_key: self.key.clone(),
                was_duplicate,
            },
        }
    }

    /// Whether an event can come of the action that was asked for.
    pub fn fits(&self, event: &IntakeEvent) -> (r: bool)
        ensures
            r == self@.accepts(event@),
    {
        match (&self.stage, event) {
            (IntakeStage::Finished, _) => false,
            (_, IntakeEvent::Failed(_)) => true,
            (IntakeStage::Inserting, IntakeEvent::Inserted(_)) => true,
            (IntakeStage::Inserting, _) => false,
            (IntakeStage::Looking, IntakeEvent::Existing { .. }) => true,
            (IntakeStage::Looking, _) => false,
            (_, IntakeEvent::Done) => true,
            _ => false,
        }
    }

    /// Goes on after an event.
    pub fn step(self, event: IntakeEvent) -> (r: (Intake, IntakeAction))
        requires
            self@.accepts(event@),
        ensures
            intake_step_view(r) == self@.next(event@),
            stamped(r.1),
    {
        let mut intake = self;
        let mut stage = IntakeStage::Finished;
        std::mem::swap(&mut stage, &mut intake.stage);
        match (stage, event) {
            (IntakeStage::Beginning, IntakeEvent::Done) => {
                let action = IntakeAction::InsertTransaction(intake.new_transaction());
                (intake.at(IntakeStage::Inserting), action)
            },
            (IntakeStage::Inserting, IntakeEvent::Inserted(Some((id, status)))) => {
                let action = IntakeAction::InsertOutboxEvent(intake.outbox_event(id));
                let status = text_or_empty(status);
                (intake.at(IntakeStage::Announcing { id, status }), action)
            },
            (IntakeStage::Inserting, IntakeEvent::Inserted(None)) => {
                let action = IntakeAction::LoadExisting { idempotency_key: intake.key.clone() };
                (intake.at(IntakeStage::Looking), action)
            },
            (IntakeStage::Looking, IntakeEvent::Existing { id, status, request_hash }) => {
                if same_text(request_hash.as_str(), intake.request_hash.as_str()) {
                    intake.commit(id, text_or_empty(status), true)
                } else {
                    (intake.at(IntakeStage::Refusing), IntakeAction::Rollback)
                }
            },
            (IntakeStage::Announcing { id, status }, IntakeEvent::Done) => {
                let action = IntakeAction::RecordAudit(intake.submitted_record(id));
                (intake.at(IntakeStage::Recording { id, status }), action)
            },
            (IntakeStage::Recording { id, status }, IntakeEvent::Done) => intake.commit(
                id,
                status,
                false,
            ),
            (IntakeStage::Committing { id, status, was_duplicate }, IntakeEvent::Done) => {
                let answer = intake.answer(id, status, was_duplicate);
                intake.finish(Ok(answer))
            },
            (IntakeStage::Refusing, _) => {
                let key = intake.key.clone();
                intake.finish(Err(ApiError::IdempotencyKeyReused { key }))
            },
            (_, IntakeEvent::Failed(e)) => intake.finish(Err(ApiError::Database(e))),
            (stage, _) => (intake.at(stage), IntakeAction::Rollback),
        }
    }
}

/// Whether a request names the accounts that its type calls for.
pub open spec fn names_its_accounts(body: SubmitTransactionRequest<Seq<char>>) -> bool {
    match body.transaction_type {
        TransactionType::Transfer => body.source_account_id is Some && body.dest_account_id is Some
            && body.source_account_id != body.dest_account_id,
        TransactionType::Debit => body.source_account_id is Some,
        TransactionType::Fee => body.source_account_id is Some,
        TransactionType::Credit => body.dest_account_id is Some,
        TransactionType::Adjustment => body.dest_account_id is Some,
        TransactionType::Reversal => true,
    }
}

/// A request is good exactly when its amount is at least 0.0001, its description
/// has no more than 500 characters, and it names the accounts that its type calls
/// for: two different ones for a transfer, the source for a payment out or a fee,
/// the destination for a payment in or an adjustment.
pub proof fn law_good_requests(body: SubmitTransactionRequest<Seq<char>>)
    ensures
        body.error() is None <==> {
            &&& body.amount.units() >= pow(10, 24)
            &&& body.description is Some ==> body.description->0.len() <= 500
            &&& names_its_accounts(body)
        },
{
    lemma_smallest_amount();
}

proof fn lemma_smallest_amount()
    ensures
        Decimal::from_parts(1, 4).units() == pow(10, 24),
{
    broadcast use lemma_from_parts;

    assert(Decimal::from_parts(1, 4).mantissa() == 1);
    assert(1 * pow(10, 24) == pow(10, 24));
}

/// What is wrong with a request is told: the amount and the description come
/// before the accounts, and each fault has its own words.
pub proof fn law_bad_requests_are_told_why(body: SubmitTransactionRequest<Seq<char>>)
    requires
        body.error() is Some,
    ensures
        ({
            let too_small = body.amount.units() < pow(10, 24);
            let too_long = body.description is Some && body.description->0.len() > 500;
            body.error() == Some(
                ApiError::ValidationError(
                    if too_small && too_long {
                        "amount: amount must be positive"@ + ", "@ + "description: invalid"@
                    } else if too_small {
                        "amount: amount must be positive"@
                    } else if too_long {
                        "description: invalid"@
                    } else {
                        match body.transaction_type {
                            TransactionType::Transfer => if body.source_account_id is Some
                                && body.dest_account_id is Some {
                                "source and destination accounts must differ"@
                            } else {
                                "TRANSFER requires both source_account_id and dest_account_id"@
                            },
                            TransactionType::Debit => "DEBIT/FEE requires source_account_id"@,
                            TransactionType::Fee => "DEBIT/FEE requires source_account_id"@,
                            _ => "CREDIT/ADJUSTMENT requires dest_account_id"@,
                        }
                    },
                ),
            )
        }),
{
    lemma_smallest_amount();
}

/// The rate is looked at first, then the key, then the request itself: each is
/// refused for its own reason only where everything before it is in order.
pub proof fn law_checks_come_in_order(
    requests: u64,
    limit: u64,
    key: Option<Seq<char>>,
    body: SubmitTransactionRequest<Seq<char>>,
)
    ensures
        ({
            let refusal = submission_error(requests, limit, key, body);
            &&& refusal == Some(ApiError::<Seq<char>>::RateLimited(limit)) <==> requests >= limit
            &&& refusal == Some(ApiError::<Seq<char>>::MissingIdempotencyKey) <==> requests < limit
                && key is None
            &&& (refusal matches Some(ApiError::InvalidIdempotencyKey(_))) <==> requests < limit
                && key is Some && !is_good_key(key->0)
            &&& refusal is None <==> requests < limit && key is Some && is_good_key(key->0)
                && body.error() is None
            &&& requests < limit && key is Some && is_good_key(key->0) ==> refusal == body.error()
        }),
{
    if let Some(raw) = key {
        law_good_keys(raw);
    }
    law_good_requests(body);
}

/// A caller that made fewer requests is not treated worse.
pub proof fn law_fewer_requests_are_no_worse(
    fewer: u64,
    more: u64,
    limit: u64,
    key: Option<Seq<char>>,
    body: SubmitTransactionRequest<Seq<char>>,
)
    requires
        fewer <= more,
        submission_error(more, limit, key, body) is None,
    ensures
        submission_error(fewer, limit, key, body) is None,
{
}

/// A request keeps its own correlation id where the header names one, and gets a
/// random one otherwise.
pub proof fn law_correlation_id_is_kept(request_id: Option<&str>, id: Uuid)
    requires
        correlates(request_id, id),
    ensures
        request_id is Some && uuid_parsed(request_id->0@) is Some ==> id.value == uuid_parsed(
            request_id->0@,
        )->0,
        request_id is None || uuid_parsed(request_id->0@) is None ==> (id.value >> 76) & 0xf == 4
            && (id.value >> 62) & 3 == 2,
{
}

/// A request as contracts see it has the fields of the request.
pub proof fn law_request_view_keeps_the_fields(body: SubmitTransactionRequest)
    ensures
        body@.transaction_type == body.transaction_type,
        body@.amount == body.amount,
        body@.currency == body.currency,
        body@.source_account_id == body.source_account_id,
        body@.dest_account_id == body.dest_account_id,
        body.description is Some <==> body@.description is Some,
        body.description is Some ==> body@.description->0 == body.description->0@,
        body.metadata is Some <==> body@.metadata is Some,
        body.metadata is Some ==> body@.metadata->0 == body.metadata->0@,
{
}

/// A transaction to be stored, as contracts see it, has the fields that are stored.
pub proof fn law_stored_view_keeps_the_fields(t: NewTransaction)
    ensures
        t@.id == t.id,
        t@.idempotency_key == t.idempotency_key@,
        t@.transaction_type == t.transaction_type,
        t@.amount == t.amount,
        t@.currency == t.currency,
        t@.source_account_id == t.source_account_id,
        t@.dest_account_id == t.dest_account_id,
        t.description is Some <==> t@.description is Some,
        t.description is Some ==> t@.description->0 == t.description->0@,
        t@.metadata == t.metadata@,
        t@.request_hash == t.request_hash@,
{
}

/// An outbox event, as contracts see it, has the fields that are sent.
pub proof fn law_event_view_keeps_the_fields(e: OutboxEvent)
    ensures
        e@.aggregate_type == e.aggregate_type@,
        e@.aggregate_id == e.aggregate_id,
        e@.event_type == e.event_type@,
        e@.topic == e.topic@,
        e@.partition_key == e.partition_key@,
        e@.envelope_aggregate_type == e.payload.aggregate_type@,
        e@.envelope_aggregate_id == e.payload.aggregate_id,
        e@.envelope_event_type == e.payload.event_type@,
        e@.aggregate_version == e.payload.aggregate_version,
        e@.correlation_id == e.payload.correlation_id,
        e@.transaction_id == e.payload.payload.transaction_id,
        e@.idempotency_key == e.payload.payload.idempotency_key@,
        e@.transaction_type == e.payload.payload.transaction_type,
        e@.amount == e.payload.payload.amount,
        e@.currency == e.payload.payload.currency,
        e@.source_account_id == e.payload.payload.source_account_id,
        e@.dest_account_id == e.payload.payload.dest_account_id,
{
}

/// An intake, its answer and what the database said, as contracts see them, are
/// what they are.
pub proof fn law_intake_views_keep_the_fields(
    intake: Intake,
    answer: InsertResult,
    id: Uuid,
    status: Option<String>,
    hash: String,
)
    ensures
        intake@.transaction_id == intake.transaction_id,
        intake@.key == intake.key@,
        intake@.request_hash == intake.request_hash@,
        intake@.correlation_id == intake.correlation_id,
        intake@.body == intake.body@,
        answer@.status_code == answer.status_code,
        answer@.response.transaction_id == answer.response.transaction_id,
        answer@.response.status == answer.response.status@,
        answer@.response.idempotency_key == answer.response.idempotency_key@,
        answer@.response.was_duplicate == answer.response.was_duplicate,
        IntakeEvent::Inserted(Some((id, status)))@ matches IntakeEvent::Inserted(Some((i, s))) && i
            == id && (s is Some <==> status is Some) && (status is Some ==> s->0 == status->0@),
        (IntakeEvent::Existing { id, status, request_hash: hash })@ matches IntakeEvent::Existing {
            id: i,
            status: s,
            request_hash: h,
        } && i == id && h == hash@ && (s is Some <==> status is Some) && (status is Some ==> s->0
            == status->0@),
{
}

/// What is to be done, as contracts see it, is what is done.
pub proof fn law_intake_action_view_keeps_the_fields(action: IntakeAction)
    ensures
        match action {
            IntakeAction::Begin => action@ is Begin,
            IntakeAction::InsertTransaction(t) => action@
                == IntakeActionView::InsertTransaction(t@),
            IntakeAction::LoadExisting { idempotency_key } => action@ == (
            IntakeActionView::LoadExisting { idempotency_key: idempotency_key@ }),
            IntakeAction::InsertOutboxEvent(e) => action@
                == IntakeActionView::InsertOutboxEvent(e@),
            IntakeAction::RecordAudit(entry) => action@ == IntakeActionView::RecordAudit(entry@),
            IntakeAction::Commit => action@ is Commit,
            IntakeAction::Rollback => action@ is Rollback,
            IntakeAction::Return(Ok(answer)) => action@ == IntakeActionView::Return(Ok(answer@)),
            IntakeAction::Return(Err(e)) => action@ == IntakeActionView::Return(Err(e@)),
        },
{
}

} // verus!
