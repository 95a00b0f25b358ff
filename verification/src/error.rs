//! What can go wrong with a request or a transaction.
//!
//! The error types take the type of their text as a parameter: `String` when
//! they run, `Seq<char>` in contracts, where one is the view of the other.
use vstd::prelude::*;
use vstd::string::*;

use crate::ident::Uuid;
use crate::text::{i64_text, int_text, joined};

verus! {

/// The kinds of database failure that decisions depend on.
#[derive(Debug, Clone, Copy, PartialEq, Eq, Structural)]
pub enum DbErrorKind {
    /// No connection became free in time.
    PoolTimedOut,
    /// A query that must return a row returned none.
    RowNotFound,
    /// Any other failure.
    Other,
}

/// A failed database operation, with the driver's own description of it.
#[derive(Debug)]
pub struct DbError<S = String> {
    pub kind: DbErrorKind,
    pub message: S,
}

impl View for DbError<String> {
    type V = DbError<Seq<char>>;

    open spec fn view(&self) -> DbError<Seq<char>> {
        DbError { kind: self.kind, message: self.message@ }
    }
}

/// An error of the payment domain.
#[derive(Debug)]
pub enum DomainError<S = String> {
    /// The idempotency key was already processed.
    DuplicateRequest(S),
    ValidationError(S),
    /// The amount is not positive.
    InvalidAmount(S),
    CurrencyMismatch { source: S, dest: S },
    InsufficientFunds { account_id: Uuid, required: S, available: S },
    AccountNotFound(Uuid),
    AccountInactive(Uuid),
    TransactionNotFound(Uuid),
    InvalidStateTransition { id: Uuid, from: S, to: S },
    /// Somebody else changed the record since it was read.
    OptimisticLockConflict { entity: S, id: Uuid, expected: i64, actual: i64 },
    DatabaseError(DbError<S>),
    SerializationError(S),
    Internal(S),
}

impl View for DomainError<String> {
    type V = DomainError<Seq<char>>;

    open spec fn view(&self) -> DomainError<Seq<char>> {
        match self {
            DomainError::DuplicateRequest(key) => DomainError::DuplicateRequest(key@),
            DomainError::ValidationError(m) => DomainError::ValidationError(m@),
            DomainError::InvalidAmount(m) => DomainError::InvalidAmount(m@),
            DomainError::CurrencyMismatch { source, dest } => DomainError::CurrencyMismatch {
                source: source@,
                dest: dest@,
            },
            DomainError::InsufficientFunds { account_id, required, available } =>
                DomainError::InsufficientFunds {
                account_id: *account_id,
                required: required@,
                available: available@,
            },
            DomainError::AccountNotFound(id) => DomainError::AccountNotFound(*id),
            DomainError::AccountInactive(id) => DomainError::AccountInactive(*id),
            DomainError::TransactionNotFound(id) => DomainError::TransactionNotFound(*id),
            DomainError::InvalidStateTransition { id, from, to } =>
                DomainError::InvalidStateTransition { id: *id, from: from@, to: to@ },
            DomainError::OptimisticLockConflict { entity, id, expected, actual } =>
                DomainError::OptimisticLockConflict {
                entity: entity@,
                id: *id,
                expected: *expected,
                actual: *actual,
            },
            DomainError::DatabaseError(e) => DomainError::DatabaseError(e@),
            DomainError::SerializationError(m) => DomainError::SerializationError(m@),
            DomainError::Internal(m) => DomainError::Internal(m@),
        }
    }
}

impl DomainError<Seq<char>> {
    /// The error in words.
    pub open spec fn text(self) -> Seq<char> {
        match self {
            DomainError::DuplicateRequest(key) => "duplicate request: idempotency_key="@ + key
                + " already processed"@,
            DomainError::ValidationError(m) => "validation failed: "@ + m,
            DomainError::InvalidAmount(m) => "amount must be positive, got "@ + m,
            DomainError::CurrencyMismatch { source, dest } => "currency mismatch: source="@
                + source + ", dest="@ + dest,
            DomainError::InsufficientFunds { account_id, required, available } =>
                "insufficient funds: account="@ + account_id.text() + ", required="@ + required
                + ", available="@ + available,
            DomainError::AccountNotFound(id) => "account not found: "@ + id.text(),
            DomainError::AccountInactive(id) => "account is inactive: "@ + id.text(),
            DomainError::TransactionNotFound(id) => "transaction not found: "@ + id.text(),
            DomainError::InvalidStateTransition { id, from, to } => "invalid state transition: "@
                + from + " → "@ + to + " for transaction "@ + id.text(),
            DomainError::OptimisticLockConflict { entity, id, expected, actual } =>
                "concurrent modification detected for "@ + entity + " "@ + id.text()
                + " (expected version "@ + int_text(expected as int) + ", got "@ + int_text(
                actual as int,
            ) + ")"@,
            DomainError::DatabaseError(e) => "database error: "@ + e.message,
            DomainError::SerializationError(m) => "serialization error: "@ + m,
            DomainError::Internal(m) => "internal error: "@ + m,
        }
    }

    /// Whether trying again can help: the record was changed by somebody else,
    /// or no database connection was free.
    pub open spec fn retryable(self) -> bool {
        ||| self is OptimisticLockConflict
        ||| self matches DomainError::DatabaseError(e) && e.kind == DbErrorKind::PoolTimedOut
    }

    /// The HTTP status that the error is answered with.
    pub open spec fn status(self) -> u16 {
        match self {
            DomainError::DuplicateRequest(_) => 200,
            DomainError::ValidationError(_) => 422,
            DomainError::InvalidAmount(_) => 422,
            DomainError::CurrencyMismatch { .. } => 422,
            DomainError::AccountNotFound(_) => 404,
            DomainError::TransactionNotFound(_) => 404,
            DomainError::AccountInactive(_) => 409,
            DomainError::InsufficientFunds { .. } => 409,
            DomainError::InvalidStateTransition { .. } => 409,
            DomainError::OptimisticLockConflict { .. } => 409,
            DomainError::DatabaseError(_) => 500,
            DomainError::SerializationError(_) => 500,
            DomainError::Internal(_) => 500,
        }
    }
}

impl DomainError {
    /// Whether this error is safe to retry.
    pub fn is_retryable(&self) -> (r: bool)
        ensures
            r == self@.retryable(),
    {
        match self {
            DomainError::OptimisticLockConflict { .. } => true,
            DomainError::DatabaseError(e) => e.kind == DbErrorKind::PoolTimedOut,
            _ => false,
        }
    }

    /// The HTTP status code for API responses. A duplicate request is an
    /// idempotent success.
    pub fn http_status(&self) -> (r: u16)
        ensures
            r == self@.status(),
    {
        match self {
            DomainError::DuplicateRequest(_) => 200,
            DomainError::ValidationError(_) | DomainError::InvalidAmount(
                _,
            ) | DomainError::CurrencyMismatch { .. } => 422,
            DomainError::AccountNotFound(_) | DomainError::TransactionNotFound(_) => 404,
            DomainError::AccountInactive(_) | DomainError::InsufficientFunds {
                ..
            } | DomainError::InvalidStateTransition { .. } => 409,
            DomainError::OptimisticLockConflict { .. } => 409,
            _ => 500,
        }
    }

    /// The error in words.
    pub fn to_text(&self) -> (r: String)
        ensures
            r@ == self@.text(),
    {
        match self {
            DomainError::DuplicateRequest(key) => {
                let mut r = joined("duplicate request: idempotency_key=", key.as_str());
                r.append(" already processed");
                r
            },
            DomainError::ValidationError(m) => joined("validation failed: ", m.as_str()),
            DomainError::InvalidAmount(m) => joined("amount must be positive, got ", m.as_str()),
            DomainError::CurrencyMismatch { source, dest } => {
                let mut r = joined("currency mismatch: source=", source.as_str());
                r.append(", dest=");
                r.append(dest.as_str());
                r
            },
            DomainError::InsufficientFunds { account_id, required, available } => {
                let mut r = joined("insufficient funds: account=", account_id.to_text().as_str());
                r.append(", required=");
                r.append(required.as_str());
                r.append(", available=");
                r.append(available.as_str());
                r
            },
            DomainError::AccountNotFound(id) => joined(
                "account not found: ",
                id.to_text().as_str(),
            ),
            DomainError::AccountInactive(id) => joined(
                "account is inactive: ",
                id.to_text().as_str(),
            ),
            DomainError::TransactionNotFound(id) => joined(
                "transaction not found: ",
                id.to_text().as_str(),
            ),
            DomainError::InvalidStateTransition { id, from, to } => {
                let mut r = joined("invalid state transition: ", from.as_str());
                r.append(" → ");
                r.append(to.as_str());
                r.append(" for transaction ");
                r.append(id.to_text().as_str());
                r
            },
            DomainError::OptimisticLockConflict { entity, id, expected, actual } => {
                let mut r = joined("concurrent modification detected for ", entity.as_str());
                r.append(" ");
                r.append(id.to_text().as_str());
                r.append(" (expected version ");
                r.append(i64_text(*expected).as_str());
                r.append(", got ");
                r.append(i64_text(*actual).as_str());
                r.append(")");
                r
            },
            DomainError::DatabaseError(e) => joined("database error: ", e.message.as_str()),
            DomainError::SerializationError(m) => joined("serialization error: ", m.as_str()),
            DomainError::Internal(m) => joined("internal error: ", m.as_str()),
        }
    }
}

/// Only two kinds of error can be helped by another try: somebody else changed the
/// record, or no connection was free.
pub proof fn law_what_another_try_can_help(e: DomainError<Seq<char>>)
    ensures
        e.retryable() <==> (e is OptimisticLockConflict || (e matches DomainError::DatabaseError(db)
            && db.kind == DbErrorKind::PoolTimedOut)),
{
}

/// An error's status tells whose fault it is: 4xx where the request cannot be
/// carried out as it is, 5xx where the service failed, and success for a duplicate.
pub proof fn law_status_tells_the_kind_of_error(e: DomainError<Seq<char>>)
    ensures
        e.status() == 200 <==> e is DuplicateRequest,
        e.status() == 422 <==> e is ValidationError || e is InvalidAmount || e is CurrencyMismatch,
        e.status() == 404 <==> e is AccountNotFound || e is TransactionNotFound,
        e.status() == 409 <==> e is AccountInactive || e is InsufficientFunds
            || e is InvalidStateTransition || e is OptimisticLockConflict,
        e.status() == 500 <==> e is DatabaseError || e is SerializationError || e is Internal,
{
}

/// The words of an error hold everything that the error knows.
pub proof fn law_errors_are_told_with_their_details(
    m: Seq<char>,
    other: Seq<char>,
    id: Uuid,
    db: DbError<Seq<char>>,
    expected: i64,
    actual: i64,
)
    ensures
        DomainError::DuplicateRequest(m).text() == "duplicate request: idempotency_key="@ + m
            + " already processed"@,
        DomainError::ValidationError(m).text() == "validation failed: "@ + m,
        DomainError::InvalidAmount(m).text() == "amount must be positive, got "@ + m,
        (DomainError::CurrencyMismatch { source: m, dest: other }).text()
            == "currency mismatch: source="@ + m + ", dest="@ + other,
        (DomainError::InsufficientFunds { account_id: id, required: m, available: other }).text()
            == "insufficient funds: account="@ + id.text() + ", required="@ + m + ", available="@
            + other,
        DomainError::<Seq<char>>::AccountNotFound(id).text() == "account not found: "@ + id.text(),
        DomainError::<Seq<char>>::AccountInactive(id).text() == "account is inactive: "@
            + id.text(),
        DomainError::<Seq<char>>::TransactionNotFound(id).text() == "transaction not found: "@
            + id.text(),
        (DomainError::InvalidStateTransition { id, from: m, to: other }).text()
            == "invalid state transition: "@ + m + " → "@ + other + " for transaction "@
            + id.text(),
        (DomainError::OptimisticLockConflict { entity: m, id, expected, actual }).text()
            == "concurrent modification detected for "@ + m + " "@ + id.text()
            + " (expected version "@ + int_text(expected as int) + ", got "@ + int_text(
            actual as int,
        ) + ")"@,
        DomainError::DatabaseError(db).text() == "database error: "@ + db.message,
        DomainError::SerializationError(m).text() == "serialization error: "@ + m,
        DomainError::Internal(m).text() == "internal error: "@ + m,
{
}

/// Errors as contracts see them have the fields of the errors.
pub proof fn law_error_views_keep_the_fields(
    db: DbError,
    m: String,
    other: String,
    id: Uuid,
    expected: i64,
    actual: i64,
)
    ensures
        db@.kind == db.kind,
        db@.message == db.message@,
        DomainError::DuplicateRequest(m)@ == DomainError::DuplicateRequest(m@),
        DomainError::ValidationError(m)@ == DomainError::ValidationError(m@),
        DomainError::InvalidAmount(m)@ == DomainError::InvalidAmount(m@),
        (DomainError::CurrencyMismatch { source: m, dest: other })@ == (
        DomainError::CurrencyMismatch { source: m@, dest: other@ }),
        (DomainError::InsufficientFunds { account_id: id, required: m, available: other })@ == (
        DomainError::InsufficientFunds { account_id: id, required: m@, available: other@ }),
        DomainError::<String>::AccountNotFound(id)@ == DomainError::<Seq<char>>::AccountNotFound(
            id,
        ),
        DomainError::<String>::AccountInactive(id)@ == DomainError::<Seq<char>>::AccountInactive(
            id,
        ),
        DomainError::<String>::TransactionNotFound(id)@ == DomainError::<
            Seq<char>,
        >::TransactionNotFound(id),
        (DomainError::InvalidStateTransition { id, from: m, to: other })@ == (
        DomainError::InvalidStateTransition { id, from: m@, to: other@ }),
        (DomainError::OptimisticLockConflict { entity: m, id, expected, actual })@ == (
        DomainError::OptimisticLockConflict { entity: m@, id, expected, actual }),
        DomainError::DatabaseError(db)@ == DomainError::DatabaseError(db@),
        DomainError::SerializationError(m)@ == DomainError::SerializationError(m@),
        DomainError::Internal(m)@ == DomainError::Internal(m@),
{
}

} // verus!
