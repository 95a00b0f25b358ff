//! How requests are answered when something is wrong, and the small requests:
//! health, readiness, and accounts.
use vstd::prelude::*;
use vstd::string::*;

use crate::domain::Currency;
use crate::error::{DbError, DomainError};
use crate::ident::{uuid_variant, uuid_version, Uuid};
use crate::text::{joined, nat_text, u64_text};

verus! {

/// The HTTP statuses that requests are answered with.
pub const STATUS_OK: u16 = 200;

pub const STATUS_CREATED: u16 = 201;

pub const STATUS_ACCEPTED: u16 = 202;

pub const STATUS_BAD_REQUEST: u16 = 400;

pub const STATUS_NOT_FOUND: u16 = 404;

pub const STATUS_UNPROCESSABLE_ENTITY: u16 = 422;

pub const STATUS_TOO_MANY_REQUESTS: u16 = 429;

pub const STATUS_INTERNAL_SERVER_ERROR: u16 = 500;

pub const STATUS_SERVICE_UNAVAILABLE: u16 = 503;

/// Why a request is refused.
#[derive(Debug)]
pub enum ApiError<S = String> {
    MissingIdempotencyKey,
    InvalidIdempotencyKey(S),
    IdempotencyKeyReused { key: S },
    ValidationError(S),
    /// The caller made more requests within a minute than the number allows.
    RateLimited(u64),
    NotFound(Uuid),
    Domain(DomainError<S>),
    Database(DbError<S>),
    Serialization(S),
    Internal(S),
}

impl View for ApiError<String> {
    type V = ApiError<Seq<char>>;

    open spec fn view(&self) -> ApiError<Seq<char>> {
        match self {
            ApiError::MissingIdempotencyKey => ApiError::MissingIdempotencyKey,
            ApiError::InvalidIdempotencyKey(m) => ApiError::InvalidIdempotencyKey(m@),
            ApiError::IdempotencyKeyReused { key } => ApiError::IdempotencyKeyReused { key: key@ },
            ApiError::ValidationError(m) => ApiError::ValidationError(m@),
            ApiError::RateLimited(limit) => ApiError::RateLimited(*limit),
            ApiError::NotFound(id) => ApiError::NotFound(*id),
            ApiError::Domain(e) => ApiError::Domain(e@),
            ApiError::Database(e) => ApiError::Database(e@),
            ApiError::Serialization(m) => ApiError::Serialization(m@),
            ApiError::Internal(m) => ApiError::Internal(m@),
        }
    }
}

/// The answer to a refused request.
#[derive(Debug)]
pub struct ErrorResponse<S = String> {
    pub status: u16,
    pub code: S,
    pub message: S,
}

impl View for ErrorResponse<String> {
    type V = ErrorResponse<Seq<char>>;

    open spec fn view(&self) -> ErrorResponse<Seq<char>> {
        ErrorResponse { status: self.status, code: self.code@, message: self.message@ }
    }
}

impl ApiError<Seq<char>> {
    /// The error in words.
    pub open spec fn text(self) -> Seq<char> {
        match self {
            ApiError::MissingIdempotencyKey => "Idempotency-Key header is required"@,
            ApiError::InvalidIdempotencyKey(m) => "invalid idempotency key: "@ + m,
            ApiError::IdempotencyKeyReused { key } => "idempotency key '"@ + key
                + "' already used with different request body"@,
            ApiError::ValidationError(m) => "validation error: "@ + m,
            ApiError::RateLimited(limit) => "rate limit exceeded: "@ + nat_text(limit as nat)
                + " requests per minute"@,
            ApiError::NotFound(id) => "not found: "@ + id.text(),
            ApiError::Domain(e) => "domain error: "@ + e.text(),
            ApiError::Database(e) => "database error: "@ + e.message,
            ApiError::Serialization(m) => "serialization error: "@ + m,
            ApiError::Internal(m) => "internal error: "@ + m,
        }
    }

    /// Whether the error lies with the service. Such errors are not described to
    /// the client.
    pub open spec fn internal(self) -> bool {
        self is Database || self is Serialization || self is Internal
    }

    /// The answer that the client gets.
    pub open spec fn response(self) -> ErrorResponse<Seq<char>> {
        let (status, code) = match self {
            ApiError::MissingIdempotencyKey => (STATUS_BAD_REQUEST, "MISSING_IDEMPOTENCY_KEY"@),
            ApiError::InvalidIdempotencyKey(_) => (STATUS_BAD_REQUEST, "INVALID_IDEMPOTENCY_KEY"@),
            ApiError::IdempotencyKeyReused { .. } => (
                STATUS_UNPROCESSABLE_ENTITY,
                "IDEMPOTENCY_KEY_REUSED"@,
            ),
            ApiError::ValidationError(_) => (STATUS_UNPROCESSABLE_ENTITY, "VALIDATION_ERROR"@),
            ApiError::RateLimited(_) => (STATUS_TOO_MANY_REQUESTS, "RATE_LIMITED"@),
            ApiError::NotFound(_) => (STATUS_NOT_FOUND, "NOT_FOUND"@),
            ApiError::Domain(e) => (e.status(), "DOMAIN_ERROR"@),
            _ => (STATUS_INTERNAL_SERVER_ERROR, "INTERNAL_ERROR"@),
        };
        ErrorResponse {
            status,
            code,
            message: if self.internal() {
                "an internal error occurred"@
            } else {
                self.text()
            },
        }
    }
}

impl ApiError {
    /// The error in words.
    pub fn to_text(&self) -> (r: String)
        ensures
            r@ == self@.text(),
    {
        match self {
            ApiError::MissingIdempotencyKey => "Idempotency-Key header is required".to_string(),
            ApiError::InvalidIdempotencyKey(m) => joined("invalid idempotency key: ", m.as_str()),
            ApiError::IdempotencyKeyReused { key } => {
                let mut r = joined("idempotency key '", key.as_str());
                r.append("' already used with different request body");
                r
            },
            ApiError::ValidationError(m) => joined("validation error: ", m.as_str()),
            ApiError::RateLimited(limit) => {
                let mut r = joined("rate limit exceeded: ", u64_text(*limit).as_str());
                r.append(" requests per minute");
                r
            },
            ApiError::NotFound(id) => joined("not found: ", id.to_text().as_str()),
            ApiError::Domain(e) => joined("domain error: ", e.to_text().as_str()),
            ApiError::Database(e) => joined("database error: ", e.message.as_str()),
            ApiError::Serialization(m) => joined("serialization error: ", m.as_str()),
            ApiError::Internal(m) => joined("internal error: ", m.as_str()),
        }
    }

    /// The answer that the client gets.
    pub fn into_response(&self) -> (r: ErrorResponse)
        ensures
            r@ == self@.response(),
    {
        let (status, code) = match self {
            ApiError::MissingIdempotencyKey => (STATUS_BAD_REQUEST, "MISSING_IDEMPOTENCY_KEY"),
            ApiError::InvalidIdempotencyKey(_) => (STATUS_BAD_REQUEST, "INVALID_IDEMPOTENCY_KEY"),
            ApiError::IdempotencyKeyReused { .. } => (
                STATUS_UNPROCESSABLE_ENTITY,
                "IDEMPOTENCY_KEY_REUSED",
            ),
            ApiError::ValidationError(_) => (STATUS_UNPROCESSABLE_ENTITY, "VALIDATION_ERROR"),
            ApiError::RateLimited(_) => (STATUS_TOO_MANY_REQUESTS, "RATE_LIMITED"),
            ApiError::NotFound(_) => (STATUS_NOT_FOUND, "NOT_FOUND"),
            ApiError::Domain(e) => (e.http_status(), "DOMAIN_ERROR"),
            _ => {
                return ErrorResponse {
                    status: STATUS_INTERNAL_SERVER_ERROR,
                    code: "INTERNAL_ERROR".to_string(),
                    message: "an internal error occurred".to_string(),
                };
            },
        };
        ErrorResponse { status, code: code.to_string(), message: self.to_text() }
    }
}

/// What was looked for, or the error that it is not there.
pub fn require_found<T>(row: Option<T>, id: Uuid) -> (r: Result<T, ApiError>)
    ensures
        r is Ok <==> row is Some,
        r matches Ok(found) ==> Some(found) == row,
        r matches Err(e) ==> e@ == ApiError::<Seq<char>>::NotFound(id),
{
    match row {
        Some(found) => Ok(found),
        None => Err(ApiError::NotFound(id)),
    }
}

/// The service runs.
pub fn health_check() -> (r: u16)
    ensures
        r == STATUS_OK,
{
    STATUS_OK
}

/// The answer to the question whether the service can work.
#[derive(Debug, Clone, Copy)]
pub struct Readiness {
    pub code: u16,
    pub status: &'static str,
    /// What is missing, if anything.
    pub reason: Option<&'static str>,
}

/// The service can work when the database answers.
pub fn readiness_check(database_answers: bool) -> (r: Readiness)
    ensures
        database_answers ==> r.code == STATUS_OK && r.status@ == "ready"@ && r.reason is None,
        !database_answers ==> r.code == STATUS_SERVICE_UNAVAILABLE && r.status@ == "not_ready"@
            && r.reason is Some && r.reason->0@ == "database"@,
{
    if database_answers {
        Readiness { code: STATUS_OK, status: "ready", reason: None }
    } else {
        Readiness {
            code: STATUS_SERVICE_UNAVAILABLE,
            status: "not_ready",
            reason: Some("database"),
        }
    }
}

/// A request to open an account.
#[derive(Debug)]
pub struct CreateAccountRequest {
    pub external_id: String,
    pub owner_id: String,
    pub currency: Currency,
}

/// An account to be stored.
#[derive(Debug)]
pub struct NewAccount {
    pub id: Uuid,
    pub external_id: String,
    pub owner_id: String,
    pub currency: Currency,
}

/// The account that a request asks for, under a fresh identifier. Once it is
/// stored, the request is answered with [`STATUS_CREATED`] and the two
/// identifiers.
pub fn create_account(body: CreateAccountRequest) -> (r: NewAccount)
    ensures
        r.external_id == body.external_id,
        r.owner_id == body.owner_id,
        r.currency == body.currency,
        uuid_version(r.id.value) == 7,
        uuid_variant(r.id.value) == 2,
{
    NewAccount {
        id: Uuid::now_v7(),
        external_id: body.external_id,
        owner_id: body.owner_id,
        currency: body.currency,
    }
}

/// Errors of the service are answered alike, whatever went wrong: nothing about
/// them reaches the client.
pub proof fn law_internal_errors_stay_inside(a: ApiError<Seq<char>>, b: ApiError<Seq<char>>)
    requires
        a.internal(),
        b.internal(),
    ensures
        a.response() == b.response(),
        a.response().status == 500,
{
}

/// Every refusal is answered with an error status, but for a duplicate request,
/// which is a success.
pub proof fn law_refusals_have_error_statuses(e: ApiError<Seq<char>>)
    ensures
        400 <= e.response().status <= 599 || (e matches ApiError::Domain(
            DomainError::DuplicateRequest(_),
        ) && e.response().status == 200),
{
}

/// What goes wrong inside the service is answered alike: status 500, and words that
/// say nothing about it. Every other refusal is told in its own words.
pub proof fn law_only_refusals_of_the_request_are_told(e: ApiError<Seq<char>>)
    ensures
        e is Database || e is Serialization || e is Internal ==> e.response() == (ErrorResponse {
            status: 500,
            code: "INTERNAL_ERROR"@,
            message: "an internal error occurred"@,
        }),
        !(e is Database || e is Serialization || e is Internal) ==> e.response().message
            == e.text(),
{
}

/// The status and the code tell what was refused.
pub proof fn law_refusals_have_their_status_and_code(e: ApiError<Seq<char>>)
    ensures
        e is MissingIdempotencyKey ==> e.response().status == 400 && e.response().code
            == "MISSING_IDEMPOTENCY_KEY"@,
        e is InvalidIdempotencyKey ==> e.response().status == 400 && e.response().code
            == "INVALID_IDEMPOTENCY_KEY"@,
        e is IdempotencyKeyReused ==> e.response().status == 422 && e.response().code
            == "IDEMPOTENCY_KEY_REUSED"@,
        e is ValidationError ==> e.response().status == 422 && e.response().code
            == "VALIDATION_ERROR"@,
        e is RateLimited ==> e.response().status == 429 && e.response().code == "RATE_LIMITED"@,
        e is NotFound ==> e.response().status == 404 && e.response().code == "NOT_FOUND"@,
        e matches ApiError::Domain(d) ==> e.response().status == d.status() && e.response().code
            == "DOMAIN_ERROR"@,
{
}

/// The words of a refusal hold everything that it knows.
pub proof fn law_refusals_are_told_with_their_details(
    m: Seq<char>,
    limit: u64,
    id: Uuid,
    d: DomainError<Seq<char>>,
    db: DbError<Seq<char>>,
)
    ensures
        ApiError::<Seq<char>>::MissingIdempotencyKey.text() == "Idempotency-Key header is required"@,
        ApiError::InvalidIdempotencyKey(m).text() == "invalid idempotency key: "@ + m,
        (ApiError::IdempotencyKeyReused { key: m }).text() == "idempotency key '"@ + m
            + "' already used with different request body"@,
        ApiError::ValidationError(m).text() == "validation error: "@ + m,
        ApiError::<Seq<char>>::RateLimited(limit).text() == "rate limit exceeded: "@ + nat_text(
            limit as nat,
        ) + " requests per minute"@,
        ApiError::<Seq<char>>::NotFound(id).text() == "not found: "@ + id.text(),
        ApiError::Domain(d).text() == "domain error: "@ + d.text(),
        ApiError::Database(db).text() == "database error: "@ + db.message,
        ApiError::Serialization(m).text() == "serialization error: "@ + m,
        ApiError::Internal(m).text() == "internal error: "@ + m,
{
}

/// Refusals and their answers, as contracts see them, have the fields they have.
pub proof fn law_refusal_views_keep_the_fields(
    m: String,
    limit: u64,
    id: Uuid,
    d: DomainError,
    db: DbError,
    answer: ErrorResponse,
)
    ensures
        ApiError::<String>::MissingIdempotencyKey@ == ApiError::<Seq<char>>::MissingIdempotencyKey,
        ApiError::InvalidIdempotencyKey(m)@ == ApiError::InvalidIdempotencyKey(m@),
        (ApiError::IdempotencyKeyReused { key: m })@ == (ApiError::IdempotencyKeyReused { key: m@ }),
        ApiError::ValidationError(m)@ == ApiError::ValidationError(m@),
        ApiError::<String>::RateLimited(limit)@ == ApiError::<Seq<char>>::RateLimited(limit),
        ApiError::<String>::NotFound(id)@ == ApiError::<Seq<char>>::NotFound(id),
        ApiError::Domain(d)@ == ApiError::Domain(d@),
        ApiError::Database(db)@ == ApiError::Database(db@),
        ApiError::Serialization(m)@ == ApiError::Serialization(m@),
        ApiError::Internal(m)@ == ApiError::Internal(m@),
        answer@.status == answer.status,
        answer@.code == answer.code@,
        answer@.message == answer.message@,
{
}

} // verus!
