//! Domain events: facts that have happened, published through the outbox.
//! Workers react to them.
use vstd::prelude::*;

use crate::decimal::Decimal;
use crate::domain::{Currency, TransactionType};
use crate::ident::{uuid_variant, uuid_version, Uuid};
use crate::moment::Timestamp;

verus! {

pub const TOPIC_TRANSACTIONS: &'static str = "financial.transactions.v1";

pub const TOPIC_ACCOUNTS: &'static str = "financial.accounts.v1";

pub const TOPIC_AUDIT: &'static str = "financial.audit.v1";

/// What every event is wrapped in, for versioning and tracing.
#[derive(Debug, Clone)]
pub struct EventEnvelope<P> {
    /// Ordered by time.
    pub event_id: Uuid,
    pub event_type: String,
    pub aggregate_type: String,
    pub aggregate_id: Uuid,
    pub occurred_at: Timestamp,
    /// The version of the aggregate when the event happened.
    pub aggregate_version: i64,
    /// Handed on through all services.
    pub correlation_id: Uuid,
    pub payload: P,
}

impl<P> EventEnvelope<P> {
    /// An event that happens now, under a fresh identifier.
    pub fn new(
        aggregate_type: &str,
        aggregate_id: Uuid,
        aggregate_version: i64,
        event_type: &str,
        correlation_id: Uuid,
        payload: P,
    ) -> (r: EventEnvelope<P>)
        ensures
            r.aggregate_type@ == aggregate_type@,
            r.aggregate_id == aggregate_id,
            r.aggregate_version == aggregate_version,
            r.event_type@ == event_type@,
            r.correlation_id == correlation_id,
            r.payload == payload,
            uuid_version(r.event_id.value) == 7,
            uuid_variant(r.event_id.value) == 2,
            r.occurred_at.valid(),
    {
        EventEnvelope {
            event_id: Uuid::now_v7(),
            event_type: event_type.to_string(),
            aggregate_type: aggregate_type.to_string(),
            aggregate_id,
            occurred_at: Timestamp::now(),
            aggregate_version,
            correlation_id,
            payload,
        }
    }
}

/// A transaction was taken in.
#[derive(Debug)]
pub struct TransactionSubmitted {
    pub transaction_id: Uuid,
    pub idempotency_key: String,
    pub transaction_type: TransactionType,
    pub amount: Decimal,
    pub currency: Currency,
    pub source_account_id: Option<Uuid>,
    pub dest_account_id: Option<Uuid>,
}

/// A worker took a transaction up.
#[derive(Debug)]
pub struct TransactionProcessing {
    pub transaction_id: Uuid,
    pub worker_id: String,
}

/// A transaction was carried out.
#[derive(Debug)]
pub struct TransactionSettled {
    pub transaction_id: Uuid,
    pub source_account_id: Option<Uuid>,
    pub dest_account_id: Option<Uuid>,
    pub amount: Decimal,
    pub currency: Currency,
    pub ledger_entry_ids: Vec<Uuid>,
}

/// A transaction could not be carried out.
#[derive(Debug)]
pub struct TransactionFailed {
    pub transaction_id: Uuid,
    pub reason: String,
    pub retry_count: i32,
    /// Whether it is put aside for good; otherwise it will be tried again.
    pub is_final: bool,
}

/// Funds were taken out of an account.
#[derive(Debug)]
pub struct AccountDebited {
    pub account_id: Uuid,
    pub transaction_id: Uuid,
    pub amount: Decimal,
    pub new_balance: Decimal,
}

/// Funds were put into an account.
#[derive(Debug)]
pub struct AccountCredited {
    pub account_id: Uuid,
    pub transaction_id: Uuid,
    pub amount: Decimal,
    pub new_balance: Decimal,
}

} // verus!
