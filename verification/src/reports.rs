//! Reports on what was carried out. They only read.
use vstd::prelude::*;

use crate::api::{STATUS_INTERNAL_SERVER_ERROR, STATUS_NOT_FOUND};
use crate::decimal::Decimal;
use crate::domain::{Currency, TransactionStatus, TransactionType};
use crate::error::{DbError, DbErrorKind};
use crate::ident::Uuid;
use crate::moment::{utc_date_text, Timestamp, MIN_SECONDS, SECONDS_PER_DAY};

verus! {

/// Amounts from this one on are reported, unless another threshold is set for
/// the report on high values.
pub const REPORT_THRESHOLD: i64 = 10_000;

/// The largest number of entries in the report on high values.
pub const HIGH_VALUE_LIMIT: i64 = 1_000;

/// Why a report cannot be given.
#[derive(Debug)]
pub enum AppError {
    Database(DbError),
}

impl From<DbError> for AppError {
    fn from(e: DbError) -> (r: AppError) {
        AppError::Database(e)
    }
}

impl vstd::std_specs::convert::FromSpecImpl<DbError> for AppError {
    open spec fn obeys_from_spec() -> bool {
        true
    }

    open spec fn from_spec(e: DbError) -> AppError {
        AppError::Database(e)
    }
}

impl AppError {
    /// The HTTP status and the message of the answer. What went wrong inside is
    /// not described to the client.
    pub open spec fn response(self) -> (u16, Seq<char>) {
        match self {
            AppError::Database(e) => if e.kind == DbErrorKind::RowNotFound {
                (STATUS_NOT_FOUND, "not found"@)
            } else {
                (STATUS_INTERNAL_SERVER_ERROR, "internal server error"@)
            },
        }
    }

    /// The HTTP status and the message of the answer.
    pub fn into_response(&self) -> (r: (u16, String))
        ensures
            (r.0, r.1@) == self.response(),
    {
        match self {
            AppError::Database(e) => if e.kind == DbErrorKind::RowNotFound {
                (STATUS_NOT_FOUND, "not found".to_string())
            } else {
                (STATUS_INTERNAL_SERVER_ERROR, "internal server error".to_string())
            },
        }
    }
}

/// What the transactions of one day add up to. The breakdowns are JSON text.
#[derive(Debug)]
pub struct DailyTotals {
    pub total: i64,
    pub volume: Decimal,
    pub settled: i64,
    pub failed: i64,
    pub by_currency: String,
    pub by_type: String,
}

/// The report on one day. The breakdowns are JSON text.
#[derive(Debug)]
pub struct DailySummary {
    pub date: String,
    pub total_transactions: i64,
    pub total_volume: Decimal,
    pub settled_count: i64,
    pub failed_count: i64,
    pub by_currency: String,
    pub by_type: String,
}

/// The day that the daily report is about: today, in UTC.
pub fn report_date(now: &Timestamp) -> (r: String)
    requires
        now.valid(),
    ensures
        r@ == utc_date_text(now.seconds),
{
    now.date_text()
}

/// The report on a day.
pub fn daily_summary(date: String, totals: DailyTotals) -> (r: DailySummary)
    ensures
        r == (DailySummary {
            date,
            total_transactions: totals.total,
            total_volume: totals.volume,
            settled_count: totals.settled,
            failed_count: totals.failed,
            by_currency: totals.by_currency,
            by_type: totals.by_type,
        }),
{
    DailySummary {
        date,
        total_transactions: totals.total,
        total_volume: totals.volume,
        settled_count: totals.settled,
        failed_count: totals.failed,
        by_currency: totals.by_currency,
        by_type: totals.by_type,
    }
}

/// An entry of the report on high values.
#[derive(Debug)]
pub struct HighValueEntry {
    pub transaction_id: Uuid,
    pub account_id: Uuid,
    pub amount: Decimal,
    pub currency: String,
    pub posted_at: Timestamp,
}

/// Which ledger entries the report on high values lists: those of at least the
/// threshold that were posted since a point in time, the largest first, up to a
/// number.
#[derive(Debug, Clone, Copy)]
pub struct HighValueQuery {
    pub threshold: Decimal,
    pub since: Timestamp,
    pub limit: i64,
}

impl HighValueQuery {
    /// Whether the report may list an entry.
    pub open spec fn lists(self, entry: HighValueEntry) -> bool {
        &&& entry.amount.units() >= self.threshold.units()
        &&& at_or_after(entry.posted_at, self.since)
    }

    /// Whether a report shows what it should of the stored entries, `shown` being
    /// their places in the order of the report: no entry twice, the largest
    /// first, up to the limit; and one that may be listed is left out only where
    /// the limit is reached, for entries that are no smaller.
    pub open spec fn answered_by(self, stored: Seq<HighValueEntry>, shown: Seq<int>) -> bool {
        &&& shown.no_duplicates()
        &&& shown.len() <= self.limit
        &&& forall|k: int|
            0 <= k < shown.len() ==> 0 <= #[trigger] shown[k] < stored.len() && self.lists(
                stored[shown[k]],
            )
        &&& forall|j: int, k: int|
            0 <= j < k < shown.len() ==> stored[#[trigger] shown[j]].amount.units()
                >= stored[#[trigger] shown[k]].amount.units()
        &&& forall|i: int|
            0 <= i < stored.len() && self.lists(#[trigger] stored[i]) && !shown.contains(i)
                ==> shown.len() == self.limit
        &&& forall|i: int, k: int|
            0 <= i < stored.len() && self.lists(#[trigger] stored[i]) && !shown.contains(i) && 0
                <= k < shown.len() ==> stored[#[trigger] shown[k]].amount.units()
                >= stored[i].amount.units()
    }
}

/// What the report on high values lists at a given time: the last day, from a
/// given threshold on.
pub fn high_value_transactions_from(threshold: Decimal, now: &Timestamp) -> (r: HighValueQuery)
    requires
        now.valid(),
        MIN_SECONDS + SECONDS_PER_DAY <= now.seconds,
    ensures
        r.threshold == threshold,
        r.since == (Timestamp {
            seconds: (now.seconds - SECONDS_PER_DAY) as i64,
            nanos: now.nanos,
        }),
        r.limit == 1_000,
        forall|entry: HighValueEntry| #[trigger]
            r.lists(entry) <==> entry.amount.units() >= threshold.units() && not_a_day_old(
                entry.posted_at,
                *now,
            ),
{
    HighValueQuery { threshold, since: now.one_day_before(), limit: HIGH_VALUE_LIMIT }
}

/// What the report on high values lists at a given time where no threshold is
/// set.
pub fn high_value_transactions(now: &Timestamp) -> (r: HighValueQuery)
    requires
        now.valid(),
        MIN_SECONDS + SECONDS_PER_DAY <= now.seconds,
    ensures
        r.threshold == Decimal::from_parts(10_000, 0),
        r.since == (Timestamp {
            seconds: (now.seconds - SECONDS_PER_DAY) as i64,
            nanos: now.nanos,
        }),
        r.limit == 1_000,
        forall|entry: HighValueEntry| #[trigger]
            r.lists(entry) <==> entry.amount.units() >= Decimal::from_parts(10_000, 0).units()
                && not_a_day_old(entry.posted_at, *now),
{
    high_value_transactions_from(Decimal::new(REPORT_THRESHOLD, 0), now)
}

/// An entry of the currency transaction report.
#[derive(Debug)]
pub struct CtrEntry {
    pub transaction_id: Uuid,
    pub account_id: Uuid,
    pub owner_id: String,
    pub amount: Decimal,
    pub submitted_at: Timestamp,
}

/// Which transactions the currency transaction report lists: those of at least
/// the threshold, in one currency and one status, of the types that customers
/// see, that were submitted since a point in time; the largest first. Fees,
/// adjustments and reversals are internal and are left out.
#[derive(Debug, Clone, Copy)]
pub struct CtrQuery {
    pub threshold: Decimal,
    pub window_start: Timestamp,
    pub status: TransactionStatus,
    pub currency: Currency,
    pub types: [TransactionType; 3],
}

impl CtrQuery {
    /// Whether the report lists a transaction.
    pub open spec fn lists(
        self,
        amount: Decimal,
        submitted_at: Timestamp,
        status: TransactionStatus,
        currency: Currency,
        transaction_type: TransactionType,
    ) -> bool {
        &&& amount.units() >= self.threshold.units()
        &&& at_or_after(submitted_at, self.window_start)
        &&& status == self.status
        &&& currency == self.currency
        &&& self.types@.contains(transaction_type)
    }

    /// Whether the report lists a stored transaction.
    pub open spec fn lists_stored(self, t: StoredTransaction) -> bool {
        self.lists(t.amount, t.submitted_at, t.status, t.currency, t.transaction_type)
    }

    /// Whether a report shows what it should of the stored transactions, `shown`
    /// being their places in the order of the report: each that it lists, once,
    /// and no other; the largest first.
    pub open spec fn answered_by(self, stored: Seq<StoredTransaction>, shown: Seq<int>) -> bool {
        &&& shown.no_duplicates()
        &&& forall|i: int|
            #![trigger shown.contains(i)]
            shown.contains(i) <==> 0 <= i < stored.len() && self.lists_stored(stored[i])
        &&& forall|j: int, k: int|
            0 <= j < k < shown.len() ==> stored[#[trigger] shown[j]].amount.units()
                >= stored[#[trigger] shown[k]].amount.units()
    }
}

/// A transaction as it is stored.
pub struct StoredTransaction {
    pub amount: Decimal,
    pub submitted_at: Timestamp,
    pub status: TransactionStatus,
    pub currency: Currency,
    pub transaction_type: TransactionType,
}

/// Whether a point in time is not before another.
pub open spec fn at_or_after(t: Timestamp, other: Timestamp) -> bool {
    t.seconds > other.seconds || (t.seconds == other.seconds && t.nanos >= other.nanos)
}

/// Whether a point in time is at most a day before another.
pub open spec fn not_a_day_old(t: Timestamp, now: Timestamp) -> bool {
    t.seconds + SECONDS_PER_DAY > now.seconds || (t.seconds + SECONDS_PER_DAY == now.seconds
        && t.nanos >= now.nanos)
}

/// What the currency transaction report lists at a given time: the last day.
pub fn currency_transaction_report(now: &Timestamp) -> (r: CtrQuery)
    requires
        now.valid(),
        MIN_SECONDS + SECONDS_PER_DAY <= now.seconds,
    ensures
        r.threshold == Decimal::from_parts(10_000, 0),
        r.window_start == (Timestamp {
            seconds: (now.seconds - SECONDS_PER_DAY) as i64,
            nanos: now.nanos,
        }),
        r.status == TransactionStatus::Settled,
        r.currency == Currency::Usd,
        r.types@ == seq![
            TransactionType::Transfer,
            TransactionType::Credit,
            TransactionType::Debit,
        ],
        forall|t: StoredTransaction| #[trigger]
            r.lists_stored(t) <==> t.amount.units() >= Decimal::from_parts(10_000, 0).units()
                && not_a_day_old(t.submitted_at, *now) && t.status == TransactionStatus::Settled
                && t.currency == Currency::Usd && (t.transaction_type == TransactionType::Transfer
                || t.transaction_type == TransactionType::Credit || t.transaction_type
                == TransactionType::Debit),
{
    let types = [TransactionType::Transfer, TransactionType::Credit, TransactionType::Debit];
    assert(types@ =~= seq![
        TransactionType::Transfer,
        TransactionType::Credit,
        TransactionType::Debit,
    ]);
    assert(types@[0] == TransactionType::Transfer);
    assert(types@[1] == TransactionType::Credit);
    assert(types@[2] == TransactionType::Debit);
    CtrQuery {
        threshold: Decimal::new(REPORT_THRESHOLD, 0),
        window_start: now.one_day_before(),
        status: TransactionStatus::Settled,
        currency: Currency::Usd,
        types,
    }
}

/// The report on high values is complete as long as it stays under its limit:
/// every entry that it may list is shown.
pub proof fn law_high_values_are_all_shown_under_the_limit(
    query: HighValueQuery,
    stored: Seq<HighValueEntry>,
    shown: Seq<int>,
    i: int,
)
    requires
        query.answered_by(stored, shown),
        shown.len() < query.limit,
        0 <= i < stored.len(),
    ensures
        query.lists(stored[i]) <==> shown.contains(i),
{
    if shown.contains(i) {
        let k = shown.index_of(i);
        assert(shown[k] == i);
    }
}

/// With a higher threshold the report on high values lists no entry that it would
/// not list with a lower one.
pub proof fn law_higher_threshold_lists_less(
    lower: HighValueQuery,
    higher: HighValueQuery,
    entry: HighValueEntry,
)
    requires
        lower.threshold.units() <= higher.threshold.units(),
        lower.since == higher.since,
        higher.lists(entry),
    ensures
        lower.lists(entry),
{
}

/// Internal movements are never in the currency transaction report, whatever
/// their amount.
pub proof fn law_internal_movements_are_not_reported(
    query: CtrQuery,
    amount: Decimal,
    submitted_at: Timestamp,
    status: TransactionStatus,
    currency: Currency,
    transaction_type: TransactionType,
)
    requires
        query.types@ == seq![
            TransactionType::Transfer,
            TransactionType::Credit,
            TransactionType::Debit,
        ],
        transaction_type == TransactionType::Fee || transaction_type == TransactionType::Adjustment
            || transaction_type == TransactionType::Reversal,
    ensures
        !query.lists(amount, submitted_at, status, currency, transaction_type),
{
}

/// A report that cannot be found is answered with 404, and any other failure with
/// 500; what went wrong is not told.
pub proof fn law_failed_reports_are_answered_alike(a: DbError, b: DbError)
    ensures
        AppError::Database(a).response().0 == 404 <==> a.kind == DbErrorKind::RowNotFound,
        AppError::Database(a).response().0 == 500 <==> a.kind != DbErrorKind::RowNotFound,
        AppError::Database(a).response().1 == (if a.kind == DbErrorKind::RowNotFound {
            "not found"@
        } else {
            "internal server error"@
        }),
        a.kind == b.kind ==> AppError::Database(a).response() == AppError::Database(b).response(),
{
}

} // verus!
