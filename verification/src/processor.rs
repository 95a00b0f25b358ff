//! Carrying a transaction out.
//!
//! A [`Processing`] decides, step by step, what is to be done on the database
//! and told to the caller. Whoever drives it performs each [`Action`] and
//! answers with the [`Event`] that came of it, until the action is to return.
//!
//! What holds throughout:
//! - The transaction is processed under a lock that only one worker can hold,
//!   inside one database transaction.
//! - A transaction that is already settled or reversed is left alone.
//! - A transaction is taken up only in the version that was read.
//! - Balances, ledger entries, the audit record and the new status are written
//!   in the same database transaction. Where one of these writes fails, the
//!   database takes nothing but a rollback any more, so none of them is kept.
//! - The two accounts of a movement are locked in the order of their
//!   identifiers.
use vstd::prelude::*;
use vstd::string::*;

use crate::audit::{field, fields_view, record, AuditRecord, AuditRecordView, Field};
use crate::counter::CounterAccounts;
use crate::decimal::Decimal;
use crate::domain::EntryType;
use crate::error::{DbError, DbErrorKind, DomainError};
use crate::events::EventEnvelope;
use crate::fraud::FraudResult;
use crate::ident::Uuid;
use crate::movement::{record_settled, settled_record, AccountRow, Movement, Write};
use crate::text::{joined, nat_text, optional_text, same_text, u64_text};

verus! {

/// How long the fraud check may take, in seconds. A transaction whose check
/// takes longer is failed for good, so that it does not block the worker.
pub const FRAUD_CHECK_TIMEOUT_SECS: u64 = 5;

/// Why a transaction was not carried out.
#[derive(Debug)]
pub enum ProcessError<S = String> {
    NotFound(Uuid),
    Domain(DomainError<S>),
    Database(DbError<S>),
    Serialization(S),
    FraudBlocked(S),
    /// The fraud check gave no answer within so many seconds.
    FraudCheckTimeout(u64),
    Permanent(S),
}

impl View for ProcessError<String> {
    type V = ProcessError<Seq<char>>;

    open spec fn view(&self) -> ProcessError<Seq<char>> {
        match self {
            ProcessError::NotFound(id) => ProcessError::NotFound(*id),
            ProcessError::Domain(e) => ProcessError::Domain(e@),
            ProcessError::Database(e) => ProcessError::Database(e@),
            ProcessError::Serialization(m) => ProcessError::Serialization(m@),
            ProcessError::FraudBlocked(reason) => ProcessError::FraudBlocked(reason@),
            ProcessError::FraudCheckTimeout(secs) => ProcessError::FraudCheckTimeout(*secs),
            ProcessError::Permanent(m) => ProcessError::Permanent(m@),
        }
    }
}

impl ProcessError<Seq<char>> {
    /// The error in words.
    pub open spec fn text(self) -> Seq<char> {
        match self {
            ProcessError::NotFound(id) => "transaction not found: "@ + id.text(),
            ProcessError::Domain(e) => "domain error: "@ + e.text(),
            ProcessError::Database(e) => "database error: "@ + e.message,
            ProcessError::Serialization(m) => "serialization error: "@ + m,
            ProcessError::FraudBlocked(reason) => "fraud check blocked: "@ + reason,
            ProcessError::FraudCheckTimeout(secs) => "fraud check timed out after "@ + nat_text(
                secs as nat,
            ) + "s"@,
            ProcessError::Permanent(m) => "permanent failure: "@ + m,
        }
    }

    /// Whether trying again can help: no connection was free, or somebody else
    /// changed the record. Everything else stays as it is.
    pub open spec fn retryable(self) -> bool {
        ||| self matches ProcessError::Database(e) && e.kind == DbErrorKind::PoolTimedOut
        ||| self matches ProcessError::Domain(e) && e is OptimisticLockConflict
    }
}

impl ProcessError {
    /// Whether this error is safe to retry with exponential backoff.
    pub fn is_retryable(&self) -> (r: bool)
        ensures
            r == self@.retryable(),
    {
        match self {
            ProcessError::Database(e) => e.kind == DbErrorKind::PoolTimedOut,
            ProcessError::Domain(DomainError::OptimisticLockConflict { .. }) => true,
            _ => false,
        }
    }

    /// The error in words.
    pub fn to_text(&self) -> (r: String)
        ensures
            r@ == self@.text(),
    {
        match self {
            ProcessError::NotFound(id) => joined(
                "transaction not found: ",
                id.to_text().as_str(),
            ),
            ProcessError::Domain(e) => joined("domain error: ", e.to_text().as_str()),
            ProcessError::Database(e) => joined("database error: ", e.message.as_str()),
            ProcessError::Serialization(m) => joined("serialization error: ", m.as_str()),
            ProcessError::FraudBlocked(reason) => joined("fraud check blocked: ", reason.as_str()),
            ProcessError::FraudCheckTimeout(secs) => {
                let mut r = joined("fraud check timed out after ", u64_text(*secs).as_str());
                r.append("s");
                r
            },
            ProcessError::Permanent(m) => joined("permanent failure: ", m.as_str()),
        }
    }
}

/// What is read of a transaction under its row lock.
#[derive(Debug)]
pub struct TransactionRow<S = String> {
    pub transaction_type: Option<S>,
    pub status: Option<S>,
    pub amount: Decimal,
    pub source_account_id: Option<Uuid>,
    pub dest_account_id: Option<Uuid>,
    pub version: i64,
    pub compliance_checked: Option<bool>,
    /// The counter-accounts for its currency.
    pub counters: CounterAccounts,
}

impl View for TransactionRow<String> {
    type V = TransactionRow<Seq<char>>;

    open spec fn view(&self) -> TransactionRow<Seq<char>> {
        TransactionRow {
            transaction_type: optional_text(self.transaction_type),
            status: optional_text(self.status),
            amount: self.amount,
            source_account_id: self.source_account_id,
            dest_account_id: self.dest_account_id,
            version: self.version,
            compliance_checked: self.compliance_checked,
            counters: self.counters,
        }
    }
}

/// How a row's status bears on processing.
#[derive(Debug, Clone, Copy, PartialEq, Eq, Structural)]
pub enum Standing {
    /// Already settled or reversed: there is nothing to do.
    Done,
    /// Failed: only an operator can put it back.
    Failed,
    /// Pending or processing.
    Open,
}

impl TransactionRow<Seq<char>> {
    /// How the status bears on processing. No status counts as pending.
    pub open spec fn standing(self) -> Standing {
        match self.status {
            Some(status) => if status == "SETTLED"@ || status == "REVERSED"@ {
                Standing::Done
            } else if status == "FAILED"@ {
                Standing::Failed
            } else {
                Standing::Open
            },
            None => Standing::Open,
        }
    }

    /// The type as text: none counts as empty.
    pub open spec fn type_text(self) -> Seq<char> {
        match self.transaction_type {
            Some(text) => text,
            None => ""@,
        }
    }

    /// Whether the fraud check was passed before.
    pub open spec fn cleared(self) -> bool {
        self.compliance_checked == Some(true)
    }

    /// The movement of money that the transaction calls for.
    pub open spec fn movement(self) -> Result<Movement, ProcessError<Seq<char>>> {
        let kind = self.type_text();
        if kind == "TRANSFER"@ {
            match (self.source_account_id, self.dest_account_id) {
                (None, _) => Err(ProcessError::Permanent("TRANSFER missing source_account_id"@)),
                (_, None) => Err(ProcessError::Permanent("TRANSFER missing dest_account_id"@)),
                (Some(source), Some(dest)) => Ok(Movement::Transfer { source, dest }),
            }
        } else if kind == "CREDIT"@ {
            match self.dest_account_id {
                None => Err(ProcessError::Permanent("CREDIT missing dest_account_id"@)),
                Some(dest) => Ok(Movement::Credit { dest, counters: self.counters }),
            }
        } else if kind == "DEBIT"@ || kind == "FEE"@ {
            match self.source_account_id {
                None => Err(ProcessError::Permanent("DEBIT missing source_account_id"@)),
                Some(source) => Ok(Movement::Debit { source, counters: self.counters }),
            }
        } else {
            Err(ProcessError::Permanent("unknown transaction type: "@ + kind))
        }
    }
}

impl TransactionRow {
    /// How the status bears on processing.
    pub fn find_standing(&self) -> (r: Standing)
        ensures
            r == self@.standing(),
    {
        match &self.status {
            Some(status) => if same_text(status.as_str(), "SETTLED") || same_text(
                status.as_str(),
                "REVERSED",
            ) {
                Standing::Done
            } else if same_text(status.as_str(), "FAILED") {
                Standing::Failed
            } else {
                Standing::Open
            },
            None => Standing::Open,
        }
    }

    /// Whether the fraud check was passed before.
    pub fn is_cleared(&self) -> (r: bool)
        ensures
            r == self@.cleared(),
    {
        match self.compliance_checked {
            Some(checked) => checked,
            None => false,
        }
    }

    /// The movement of money that the transaction calls for.
    pub fn find_movement(&self) -> (r: Result<Movement, ProcessError>)
        ensures
            (match r {
                Ok(movement) => Ok(movement),
                Err(e) => Err(e@),
            }) == self@.movement(),
            r matches Ok(movement) ==> movement.valid(),
    {
        let counters = self.counters.clone();
        let kind = match &self.transaction_type {
            Some(text) => text.as_str(),
            None => "",
        };
        if same_text(kind, "TRANSFER") {
            match (self.source_account_id, self.dest_account_id) {
                (None, _) => Err(
                    ProcessError::Permanent("TRANSFER missing source_account_id".to_string()),
                ),
                (_, None) => Err(
                    ProcessError::Permanent("TRANSFER missing dest_account_id".to_string()),
                ),
                (Some(source), Some(dest)) => Ok(Movement::Transfer { source, dest }),
            }
        } else if same_text(kind, "CREDIT") {
            match self.dest_account_id {
                None => Err(ProcessError::Permanent("CREDIT missing dest_account_id".to_string())),
                Some(dest) => Ok(Movement::Credit { dest, counters }),
            }
        } else if same_text(kind, "DEBIT") || same_text(kind, "FEE") {
            match self.source_account_id {
                None => Err(ProcessError::Permanent("DEBIT missing source_account_id".to_string())),
                Some(source) => Ok(Movement::Debit { source, counters }),
            }
        } else {
            Err(ProcessError::Permanent(joined("unknown transaction type: ", kind)))
        }
    }
}

/// The lock under which a transaction is processed: the two halves of its
/// identifier, combined by exclusive or.
pub open spec fn lock_key(id: Uuid) -> i64 {
    (((id.value >> 64) as u64) ^ (id.value as u64)) as i64
}

/// A stable 64-bit lock key for an identifier.
pub fn derive_advisory_lock_key(id: Uuid) -> (r: i64)
    ensures
        r == lock_key(id),
{
    let high: u64 = #[verifier::truncate]
    ((id.value >> 64) as u64);
    let low: u64 = #[verifier::truncate]
    (id.value as u64);
    #[verifier::truncate]
    ((high ^ low) as i64)
}

/// How processing ends.
pub open spec fn result_view(result: Result<(), ProcessError>) -> Result<
    (),
    ProcessError<Seq<char>>,
> {
    match result {
        Ok(_) => Ok(()),
        Err(e) => Err(e@),
    }
}

/// What is to be done next.
#[derive(Debug)]
pub enum Action<S = String, A = AuditRecord> {
    /// Begin a database transaction.
    Begin,
    /// Try to take the advisory lock with this key.
    TryLock(i64),
    /// Read a transaction's row and lock it.
    LoadTransaction(Uuid),
    /// Set the status to processing and raise the version, if the version is
    /// still the given one and the status is pending or processing.
    MarkProcessing { id: Uuid, worker_id: S, version: i64 },
    /// Run the fraud check, for [`FRAUD_CHECK_TIMEOUT_SECS`] at most.
    CheckFraud { id: Uuid, amount: Decimal },
    /// Store that the check was passed, and the risk.
    RecordCompliance { id: Uuid, risk_score: Decimal },
    /// Read an account's row and lock it.
    LockAccount(Uuid),
    /// Set an account's balance and raise its version; where a version is
    /// given, only if the account still has it.
    UpdateBalance { account_id: Uuid, balance: Decimal, expected_version: Option<i64> },
    /// Find the number of the account's next ledger entry.
    ReadSequence { account_id: Uuid },
    /// Add a ledger entry in the account's currency.
    InsertLedgerEntry {
        transaction_id: Uuid,
        account_id: Uuid,
        entry_type: EntryType,
        amount: Decimal,
        running_balance: Decimal,
        sequence_num: i64,
    },
    /// Add a record to the audit log.
    RecordAudit(A),
    /// Set the status to settled and raise the version.
    MarkSettled(Uuid),
    /// Set the status to failed, store why, and raise the version.
    MarkFailed { id: Uuid, reason: S },
    /// Set the status back to pending, count the try, store why, and raise the
    /// version.
    ResetToPending { id: Uuid, reason: S },
    Commit,
    Rollback,
    /// Drop the database transaction, if it is still open, and return.
    Return(Result<(), ProcessError<S>>),
}

pub type ActionView = Action<Seq<char>, AuditRecordView>;

impl View for Action<String, AuditRecord> {
    type V = ActionView;

    open spec fn view(&self) -> ActionView {
        match self {
            Action::Begin => Action::Begin,
            Action::TryLock(key) => Action::TryLock(*key),
            Action::LoadTransaction(id) => Action::LoadTransaction(*id),
            Action::MarkProcessing { id, worker_id, version } => Action::MarkProcessing {
                id: *id,
                worker_id: worker_id@,
                version: *version,
            },
            Action::CheckFraud { id, amount } => Action::CheckFraud { id: *id, amount: *amount },
            Action::RecordCompliance { id, risk_score } => Action::RecordCompliance {
                id: *id,
                risk_score: *risk_score,
            },
            Action::LockAccount(id) => Action::LockAccount(*id),
            Action::UpdateBalance { account_id, balance, expected_version } =>
                Action::UpdateBalance {
                account_id: *account_id,
                balance: *balance,
                expected_version: *expected_version,
            },
            Action::ReadSequence { account_id } => Action::ReadSequence { account_id: *account_id },
            Action::InsertLedgerEntry {
                transaction_id,
                account_id,
                entry_type,
                amount,
                running_balance,
                sequence_num,
            } => Action::InsertLedgerEntry {
                transaction_id: *transaction_id,
                account_id: *account_id,
                entry_type: *entry_type,
                amount: *amount,
                running_balance: *running_balance,
                sequence_num: *sequence_num,
            },
            Action::RecordAudit(entry) => Action::RecordAudit(entry@),
            Action::MarkSettled(id) => Action::MarkSettled(*id),
            Action::MarkFailed { id, reason } => Action::MarkFailed { id: *id, reason: reason@ },
            Action::ResetToPending { id, reason } => Action::ResetToPending {
                id: *id,
                reason: reason@,
            },
            Action::Commit => Action::Commit,
            Action::Rollback => Action::Rollback,
            Action::Return(result) => Action::Return(result_view(*result)),
        }
    }
}

/// What came of an action.
#[derive(Debug)]
pub enum Event<S = String> {
    /// It was done.
    Done,
    /// The database reported an error.
    Failed(DbError<S>),
    /// Whether the lock was taken.
    Lock(Option<bool>),
    /// The transaction's row, if there is one.
    Transaction(Option<TransactionRow<S>>),
    /// How many rows were changed.
    RowsAffected(u64),
    /// The answer of the fraud check, or nothing where it came too late.
    Fraud(Option<FraudResult<S>>),
    /// The account's row.
    Account(AccountRow),
    /// The number of the next ledger entry.
    Sequence(Option<i64>),
}

impl View for Event<String> {
    type V = Event<Seq<char>>;

    open spec fn view(&self) -> Event<Seq<char>> {
        match self {
            Event::Done => Event::Done,
            Event::Failed(e) => Event::Failed(e@),
            Event::Lock(locked) => Event::Lock(*locked),
            Event::Transaction(None) => Event::Transaction(None),
            Event::Transaction(Some(row)) => Event::Transaction(Some(row@)),
            Event::RowsAffected(rows) => Event::RowsAffected(*rows),
            Event::Fraud(None) => Event::Fraud(None),
            Event::Fraud(Some(result)) => Event::Fraud(Some(result@)),
            Event::Account(row) => Event::Account(*row),
            Event::Sequence(number) => Event::Sequence(*number),
        }
    }
}

/// Where processing stands: which action was asked for last, and what is known.
#[derive(Debug)]
pub enum Stage<S = String, P = Vec<Write>> {
    Beginning,
    Locking,
    Loading,
    Claiming(TransactionRow<S>),
    Screening(TransactionRow<S>),
    Clearing(TransactionRow<S>),
    FirstAccount { movement: Movement, amount: Decimal },
    SecondAccount { movement: Movement, amount: Decimal, first: AccountRow },
    /// Write `next` of the plan is being made; `sequence` is the number found
    /// last.
    Writing { plan: P, next: usize, sequence: i64 },
    Settling,
    Failing { reason: S, error: ProcessError<S> },
    RecordingFailure(ProcessError<S>),
    Resetting(ProcessError<S>),
    Committing(Result<(), ProcessError<S>>),
    RollingBack(Result<(), ProcessError<S>>),
    Finished,
}

pub type StageView = Stage<Seq<char>, Seq<Write>>;

impl View for Stage<String, Vec<Write>> {
    type V = StageView;

    open spec fn view(&self) -> StageView {
        match self {
            Stage::Beginning => Stage::Beginning,
            Stage::Locking => Stage::Locking,
            Stage::Loading => Stage::Loading,
            Stage::Claiming(row) => Stage::Claiming(row@),
            Stage::Screening(row) => Stage::Screening(row@),
            Stage::Clearing(row) => Stage::Clearing(row@),
            Stage::FirstAccount { movement, amount } => Stage::FirstAccount {
                movement: *movement,
                amount: *amount,
            },
            Stage::SecondAccount { movement, amount, first } => Stage::SecondAccount {
                movement: *movement,
                amount: *amount,
                first: *first,
            },
            Stage::Writing { plan, next, sequence } => Stage::Writing {
                plan: plan@,
                next: *next,
                sequence: *sequence,
            },
            Stage::Settling => Stage::Settling,
            Stage::Failing { reason, error } => Stage::Failing { reason: reason@, error: error@ },
            Stage::RecordingFailure(e) => Stage::RecordingFailure(e@),
            Stage::Resetting(e) => Stage::Resetting(e@),
            Stage::Committing(outcome) => Stage::Committing(result_view(*outcome)),
            Stage::RollingBack(outcome) => Stage::RollingBack(result_view(*outcome)),
            Stage::Finished => Stage::Finished,
        }
    }
}

/// What is processed, and by whom.
#[derive(Debug)]
pub struct Job<S = String> {
    pub transaction_id: Uuid,
    pub correlation_id: Uuid,
    pub worker_id: S,
}

impl View for Job<String> {
    type V = Job<Seq<char>>;

    open spec fn view(&self) -> Job<Seq<char>> {
        Job {
            transaction_id: self.transaction_id,
            correlation_id: self.correlation_id,
            worker_id: self.worker_id@,
        }
    }
}

/// The processing of one transaction.
#[derive(Debug)]
pub struct Processing<S = String, P = Vec<Write>> {
    pub job: Job<S>,
    pub stage: Stage<S, P>,
}

pub type ProcessingView = Processing<Seq<char>, Seq<Write>>;

impl View for Processing<String, Vec<Write>> {
    type V = ProcessingView;

    open spec fn view(&self) -> ProcessingView {
        Processing { job: self.job@, stage: self.stage@ }
    }
}

/// What the audit log says of a failure.
pub open spec fn failed_record(
    transaction_id: Uuid,
    reason: Seq<char>,
    correlation_id: Uuid,
) -> AuditRecordView {
    AuditRecordView {
        entity_type: "Transaction"@,
        entity_id: transaction_id,
        action: "FAILED"@,
        old_state: None,
        new_state: seq![
            Field { name: "status"@, value: "FAILED"@ },
            Field { name: "error"@, value: reason },
        ],
        actor_id: "worker"@,
        actor_type: "WORKER"@,
        correlation_id,
    }
}

/// The audit record of a failure.
pub fn record_failed(transaction_id: Uuid, reason: &str, correlation_id: Uuid) -> (r: AuditRecord)
    ensures
        r@ == failed_record(transaction_id, reason@, correlation_id),
        r.occurred_at.valid(),
{
    let mut fields: Vec<Field> = Vec::new();
    fields.push(field("status", "FAILED"));
    fields.push(field("error", reason));
    assert(fields_view(fields@) =~= failed_record(
        transaction_id,
        reason@,
        correlation_id,
    ).new_state);
    record(
        "Transaction",
        transaction_id,
        "FAILED",
        None,
        fields,
        "worker",
        "WORKER",
        correlation_id,
    )
}

/// Why a transaction is failed whose fraud check came too late.
pub open spec fn timeout_reason() -> Seq<char> {
    "fraud_check_timeout: no response within "@ + nat_text(FRAUD_CHECK_TIMEOUT_SECS as nat) + "s"@
}

/// A step: where processing then stands, and what is to be done.
pub open spec fn step_view(step: (Processing, Action)) -> (ProcessingView, ActionView) {
    (step.0@, step.1@)
}

/// Whether a record for the audit log has a valid time.
pub open spec fn timely(action: Action) -> bool {
    action matches Action::RecordAudit(entry) ==> entry.occurred_at.valid()
}

impl Job<Seq<char>> {
    pub open spec fn at(self, stage: StageView) -> ProcessingView {
        Processing { job: self, stage }
    }

    /// Processing is over.
    pub open spec fn finish(self, outcome: Result<(), ProcessError<Seq<char>>>) -> (
        ProcessingView,
        ActionView,
    ) {
        (self.at(Stage::Finished), Action::Return(outcome))
    }

    /// The database failed where nothing can be stored about it.
    pub open spec fn abandon(self, e: DbError<Seq<char>>) -> (ProcessingView, ActionView) {
        self.finish(Err(ProcessError::Database(e)))
    }

    pub open spec fn roll_back(self, outcome: Result<(), ProcessError<Seq<char>>>) -> (
        ProcessingView,
        ActionView,
    ) {
        (self.at(Stage::RollingBack(outcome)), Action::Rollback)
    }

    pub open spec fn commit(self, outcome: Result<(), ProcessError<Seq<char>>>) -> (
        ProcessingView,
        ActionView,
    ) {
        (self.at(Stage::Committing(outcome)), Action::Commit)
    }

    /// The transaction is failed for good.
    pub open spec fn mark_failed(self, reason: Seq<char>, error: ProcessError<Seq<char>>) -> (
        ProcessingView,
        ActionView,
    ) {
        (
            self.at(Stage::Failing { reason, error }),
            Action::MarkFailed { id: self.transaction_id, reason },
        )
    }

    /// The movement cannot be made: the transaction is put back where another
    /// try can help, and failed otherwise.
    pub open spec fn refuse(self, error: ProcessError<Seq<char>>) -> (ProcessingView, ActionView) {
        if error.retryable() {
            (
                self.at(Stage::Resetting(error)),
                Action::ResetToPending { id: self.transaction_id, reason: error.text() },
            )
        } else {
            self.mark_failed(error.text(), error)
        }
    }

    /// The transaction's row was read.
    pub open spec fn loaded(self, row: TransactionRow<Seq<char>>) -> (ProcessingView, ActionView) {
        match row.standing() {
            Standing::Done => self.roll_back(Ok(())),
            Standing::Failed => self.roll_back(
                Err(
                    ProcessError::Permanent(
                        "transaction "@ + self.transaction_id.text() + " is in FAILED state"@,
                    ),
                ),
            ),
            Standing::Open => (
                self.at(Stage::Claiming(row)),
                Action::MarkProcessing {
                    id: self.transaction_id,
                    worker_id: self.worker_id,
                    version: row.version,
                },
            ),
        }
    }

    /// The attempt to take the transaction up changed so many rows.
    pub open spec fn claimed(self, row: TransactionRow<Seq<char>>, rows: u64) -> (
        ProcessingView,
        ActionView,
    ) {
        if rows == 0 {
            self.roll_back(
                Err(
                    ProcessError::Domain(
                        DomainError::OptimisticLockConflict {
                            entity: "Transaction"@,
                            id: self.transaction_id,
                            expected: row.version,
                            actual: (row.version + 1) as i64,
                        },
                    ),
                ),
            )
        } else if row.cleared() {
            self.execute(row)
        } else {
            (
                self.at(Stage::Screening(row)),
                Action::CheckFraud { id: self.transaction_id, amount: row.amount },
            )
        }
    }

    /// The fraud check answered, or did not.
    pub open spec fn screened(
        self,
        row: TransactionRow<Seq<char>>,
        answer: Option<FraudResult<Seq<char>>>,
    ) -> (ProcessingView, ActionView) {
        match answer {
            None => self.mark_failed(
                timeout_reason(),
                ProcessError::FraudCheckTimeout(FRAUD_CHECK_TIMEOUT_SECS),
            ),
            Some(result) => if result.is_blocked {
                self.mark_failed(
                    "fraud_blocked: "@ + result.reason,
                    ProcessError::FraudBlocked(result.reason),
                )
            } else {
                (
                    self.at(Stage::Clearing(row)),
                    Action::RecordCompliance {
                        id: self.transaction_id,
                        risk_score: result.risk_score,
                    },
                )
            },
        }
    }

    /// The transaction may be carried out.
    pub open spec fn execute(self, row: TransactionRow<Seq<char>>) -> (ProcessingView, ActionView) {
        match row.movement() {
            Err(e) => self.refuse(e),
            Ok(movement) => (
                self.at(Stage::FirstAccount { movement, amount: row.amount }),
                Action::LockAccount(movement.first()),
            ),
        }
    }

    /// All accounts are locked.
    pub open spec fn locked(
        self,
        movement: Movement,
        amount: Decimal,
        first: AccountRow,
        second: AccountRow,
    ) -> (ProcessingView, ActionView) {
        match movement.refusal(amount, first, second) {
            Some(e) => self.refuse(ProcessError::Domain(e)),
            None => self.write(movement.plan(amount, first, second), 0, 1),
        }
    }

    /// The writes before `next` are made.
    pub open spec fn write(self, plan: Seq<Write>, next: usize, sequence: i64) -> (
        ProcessingView,
        ActionView,
    ) {
        if next < plan.len() {
            (
                self.at(Stage::Writing { plan, next, sequence }),
                self.action_of(plan[next as int], sequence),
            )
        } else {
            (self.at(Stage::Settling), Action::MarkSettled(self.transaction_id))
        }
    }

    /// The action that makes a write.
    pub open spec fn action_of(self, write: Write, sequence: i64) -> ActionView {
        match write {
            Write::Balance { account_id, balance, version } => Action::UpdateBalance {
                account_id,
                balance,
                expected_version: version,
            },
            Write::NextSequence { account_id } => Action::ReadSequence { account_id },
            Write::Entry { account_id, entry_type, amount, running_balance } =>
                Action::InsertLedgerEntry {
                transaction_id: self.transaction_id,
                account_id,
                entry_type,
                amount,
                running_balance,
                sequence_num: sequence,
            },
            Write::Audit { movement, amount } => Action::RecordAudit(
                settled_record(self.transaction_id, movement, amount, self.correlation_id),
            ),
        }
    }
}

impl ProcessingView {
    /// Whether an event can come of the action that was asked for.
    pub open spec fn accepts(self, event: Event<Seq<char>>) -> bool {
        match self.stage {
            Stage::Beginning => event is Done || event is Failed,
            Stage::Locking => event is Lock || event is Failed,
            Stage::Loading => event is Transaction || event is Failed,
            Stage::Claiming(_) => event is RowsAffected || event is Failed,
            Stage::Screening(_) => event is Fraud,
            Stage::Clearing(_) => event is Done || event is Failed,
            Stage::FirstAccount { .. } => event is Account || event is Failed,
            Stage::SecondAccount { .. } => event is Account || event is Failed,
            Stage::Writing { plan, next, .. } => next < plan.len() && (if plan[next as int]
                is NextSequence {
                event is Sequence || event is Failed
            } else {
                event is Done || event is Failed
            }),
            Stage::Settling => event is Done || event is Failed,
            Stage::Failing { .. } => event is Done || event is Failed,
            Stage::RecordingFailure(_) => event is Done || event is Failed,
            Stage::Resetting(_) => event is Done || event is Failed,
            Stage::Committing(_) => event is Done || event is Failed,
            Stage::RollingBack(_) => event is Done || event is Failed,
            Stage::Finished => false,
        }
    }

    /// Whether the numbers that a step has to compute can be represented.
    pub open spec fn computable(self, event: Event<Seq<char>>) -> bool {
        match (self.stage, event) {
            (Stage::Claiming(row), Event::RowsAffected(rows)) => rows == 0 ==> row.version
                < i64::MAX,
            (
                Stage::SecondAccount { movement, amount, first },
                Event::Account(row),
            ) => movement.representable(amount, first, row),
            _ => true,
        }
    }

    /// The step that an event leads to.
    pub open spec fn next(self, event: Event<Seq<char>>) -> (ProcessingView, ActionView) {
        let job = self.job;
        match (self.stage, event) {
            (Stage::Beginning, Event::Done) => (
                job.at(Stage::Locking),
                Action::TryLock(lock_key(job.transaction_id)),
            ),
            (Stage::Locking, Event::Lock(taken)) => if taken == Some(true) {
                (job.at(Stage::Loading), Action::LoadTransaction(job.transaction_id))
            } else {
                job.roll_back(Ok(()))
            },
            (Stage::Loading, Event::Transaction(None)) => job.finish(
                Err(ProcessError::NotFound(job.transaction_id)),
            ),
            (Stage::Loading, Event::Transaction(Some(row))) => job.loaded(row),
            (Stage::Claiming(row), Event::RowsAffected(rows)) => job.claimed(row, rows),
            (Stage::Screening(row), Event::Fraud(answer)) => job.screened(row, answer),
            (Stage::Clearing(row), Event::Done) => job.execute(row),
            (Stage::FirstAccount { movement, amount }, Event::Account(row)) => (
                job.at(Stage::SecondAccount { movement, amount, first: row }),
                Action::LockAccount(movement.second()),
            ),
            (Stage::SecondAccount { movement, amount, first }, Event::Account(row)) => job.locked(
                movement,
                amount,
                first,
                row,
            ),
            (Stage::Writing { plan, next, .. }, Event::Sequence(number)) => job.write(
                plan,
                (next + 1) as usize,
                match number {
                    Some(n) => n,
                    None => 1,
                },
            ),
            (Stage::Writing { plan, next, sequence }, Event::Done) => job.write(
                plan,
                (next + 1) as usize,
                sequence,
            ),
            (Stage::Settling, Event::Done) => job.commit(Ok(())),
            (Stage::Failing { reason, error }, Event::Done) => (
                job.at(Stage::RecordingFailure(error)),
                Action::RecordAudit(
                    failed_record(job.transaction_id, reason, job.correlation_id),
                ),
            ),
            (Stage::RecordingFailure(error), Event::Done) => job.commit(Err(error)),
            (Stage::Resetting(error), Event::Done) => job.commit(Err(error)),
            (Stage::Committing(outcome), Event::Done) => job.finish(outcome),
            (Stage::RollingBack(outcome), _) => job.finish(outcome),
            (Stage::FirstAccount { .. }, Event::Failed(e)) => job.refuse(ProcessError::Database(e)),
            (Stage::SecondAccount { .. }, Event::Failed(e)) => job.refuse(
                ProcessError::Database(e),
            ),
            (Stage::Writing { .. }, Event::Failed(e)) => job.refuse(ProcessError::Database(e)),
            (_, Event::Failed(e)) => job.abandon(e),
            // No other event is accepted.
            _ => (self, Action::Rollback),
        }
    }

    /// Whether a step that starts the writes writes balances that differ from
    /// what was read by the amount, to the last digit where the arithmetic is
    /// exact.
    pub open spec fn moves_the_amount(self, event: Event<Seq<char>>) -> bool {
        self.next(event).0.stage is Writing ==> match (self.stage, event) {
            (
                Stage::SecondAccount { movement, amount, first },
                Event::Account(row),
            ) => movement.moves(amount, first, row),
            _ => true,
        }
    }
}

impl Job {
    fn finish(self, outcome: Result<(), ProcessError>) -> (r: (Processing, Action))
        ensures
            step_view(r) == self@.finish(result_view(outcome)),
    {
        (Processing { job: self, stage: Stage::Finished }, Action::Return(outcome))
    }

    fn abandon(self, e: DbError) -> (r: (Processing, Action))
        ensures
            step_view(r) == self@.abandon(e@),
    {
        self.finish(Err(ProcessError::Database(e)))
    }

    fn roll_back(self, outcome: Result<(), ProcessError>) -> (r: (Processing, Action))
        ensures
            step_view(r) == self@.roll_back(result_view(outcome)),
    {
        (Processing { job: self, stage: Stage::RollingBack(outcome) }, Action::Rollback)
    }

    fn commit(self, outcome: Result<(), ProcessError>) -> (r: (Processing, Action))
        ensures
            step_view(r) == self@.commit(result_view(outcome)),
    {
        (Processing { job: self, stage: Stage::Committing(outcome) }, Action::Commit)
    }

    fn mark_failed(self, reason: String, error: ProcessError) -> (r: (Processing, Action))
        ensures
            step_view(r) == self@.mark_failed(reason@, error@),
    {
        let action = Action::MarkFailed { id: self.transaction_id, reason: reason.clone() };
        (Processing { job: self, stage: Stage::Failing { reason, error } }, action)
    }

    fn refuse(self, error: ProcessError) -> (r: (Processing, Action))
        ensures
            step_view(r) == self@.refuse(error@),
    {
        let reason = error.to_text();
        if error.is_retryable() {
            let action = Action::ResetToPending { id: self.transaction_id, reason };
            (Processing { job: self, stage: Stage::Resetting(error) }, action)
        } else {
            self.mark_failed(reason, error)
        }
    }

    fn loaded(self, row: TransactionRow) -> (r: (Processing, Action))
        ensures
            step_view(r) == self@.loaded(row@),
    {
        match row.find_standing() {
            Standing::Done => self.roll_back(Ok(())),
            Standing::Failed => {
                let mut message = joined("transaction ", self.transaction_id.to_text().as_str());
                message.append(" is in FAILED state");
                self.roll_back(Err(ProcessError::Permanent(message)))
            },
            Standing::Open => {
                let action = Action::MarkProcessing {
                    id: self.transaction_id,
                    worker_id: self.worker_id.clone(),
                    version: row.version,
                };
                (Processing { job: self, stage: Stage::Claiming(row) }, action)
            },
        }
    }

    fn claimed(self, row: TransactionRow, rows: u64) -> (r: (Processing, Action))
        requires
            rows == 0 ==> row.version < i64::MAX,
        ensures
            step_view(r) == self@.claimed(row@, rows),
    {
        if rows == 0 {
            let conflict = DomainError::OptimisticLockConflict {
                entity: "Transaction".to_string(),
                id: self.transaction_id,
                expected: row.version,
                actual: row.version + 1,
            };
            return self.roll_back(Err(ProcessError::Domain(conflict)));
        }
        if row.is_cleared() {
            return self.execute(row);
        }
        let action = Action::CheckFraud { id: self.transaction_id, amount: row.amount };
        (Processing { job: self, stage: Stage::Screening(row) }, action)
    }

    fn screened(self, row: TransactionRow, answer: Option<FraudResult>) -> (r: (Processing, Action))
        ensures
            step_view(r) == self@.screened(
                row@,
                match answer {
                    Some(result) => Some(result@),
                    None => None,
                },
            ),
    {
        let result = match answer {
            None => {
                let mut reason = joined(
                    "fraud_check_timeout: no response within ",
                    u64_text(FRAUD_CHECK_TIMEOUT_SECS).as_str(),
                );
                reason.append("s");
                return self.mark_failed(
                    reason,
                    ProcessError::FraudCheckTimeout(FRAUD_CHECK_TIMEOUT_SECS),
                );
            },
            Some(result) => result,
        };
        if result.is_blocked {
            let reason = joined("fraud_blocked: ", result.reason.as_str());
            return self.mark_failed(reason, ProcessError::FraudBlocked(result.reason));
        }
        let action = Action::RecordCompliance {
            id: self.transaction_id,
            risk_score: result.risk_score,
        };
        (Processing { job: self, stage: Stage::Clearing(row) }, action)
    }

    fn execute(self, row: TransactionRow) -> (r: (Processing, Action))
        ensures
            step_view(r) == self@.execute(row@),
    {
        match row.find_movement() {
            Err(e) => self.refuse(e),
            Ok(movement) => {
                let (first, _) = movement.lock_order();
                (
                    Processing {
                        job: self,
                        stage: Stage::FirstAccount { movement, amount: row.amount },
                    },
                    Action::LockAccount(first),
                )
            },
        }
    }

    fn locked(
        self,
        movement: Movement,
        amount: Decimal,
        first: AccountRow,
        second: AccountRow,
    ) -> (r: (Processing, Action))
        requires
            movement.representable(amount, first, second),
        ensures
            step_view(r) == self@.locked(movement, amount, first, second),
            r.0.stage is Writing ==> movement.moves(amount, first, second),
    {
        match movement.settle(amount, first, second) {
            Err(e) => self.refuse(e),
            Ok(plan) => self.write(plan, 0, 1),
        }
    }

    fn write(self, plan: Vec<Write>, next: usize, sequence: i64) -> (r: (Processing, Action))
        ensures
            step_view(r) == self@.write(plan@, next, sequence),
            timely(r.1),
    {
        if next < plan.len() {
            let action = self.action_of(&plan[next], sequence);
            (Processing { job: self, stage: Stage::Writing { plan, next, sequence } }, action)
        } else {
            let action = Action::MarkSettled(self.transaction_id);
            (Processing { job: self, stage: Stage::Settling }, action)
        }
    }

    fn action_of(&self, write: &Write, sequence: i64) -> (r: Action)
        ensures
            r@ == self@.action_of(*write, sequence),
            timely(r),
    {
        match *write {
            Write::Balance { account_id, balance, version } => Action::UpdateBalance {
                account_id,
                balance,
                expected_version: version,
            },
            Write::NextSequence { account_id } => Action::ReadSequence { account_id },
            Write::Entry { account_id, entry_type, amount, running_balance } =>
                Action::InsertLedgerEntry {
                transaction_id: self.transaction_id,
                account_id,
                entry_type,
                amount,
                running_balance,
                sequence_num: sequence,
            },
            Write::Audit { movement, amount } => Action::RecordAudit(
                record_settled(self.transaction_id, movement, amount, self.correlation_id),
            ),
        }
    }
}

/// Starts to process the transaction that an event is about.
pub fn process_transaction<P>(envelope: &EventEnvelope<P>, worker_id: &str) -> (r: (
    Processing,
    Action,
))
    ensures
        r.0@ == (Job {
            transaction_id: envelope.aggregate_id,
            correlation_id: envelope.correlation_id,
            worker_id: worker_id@,
        }).at(Stage::Beginning),
        r.1@ == Action::<Seq<char>, AuditRecordView>::Begin,
{
    let job = Job {
        transaction_id: envelope.aggregate_id,
        correlation_id: envelope.correlation_id,
        worker_id: worker_id.to_string(),
    };
    (Processing { job, stage: Stage::Beginning }, Action::Begin)
}

impl Processing {
    /// Goes on after an event.
    pub fn step(self, event: Event) -> (r: (Processing, Action))
        requires
            self@.accepts(event@),
            self@.computable(event@),
        ensures
            step_view(r) == self@.next(event@),
            self@.moves_the_amount(event@),
            timely(r.1),
    {
        let job = self.job;
        match (self.stage, event) {
            (Stage::Beginning, Event::Done) => {
                let key: i64 = derive_advisory_lock_key(job.transaction_id);
                (Processing { job, stage: Stage::Locking }, Action::TryLock(key))
            },
            (Stage::Locking, Event::Lock(Some(true))) => {
                let action = Action::LoadTransaction(job.transaction_id);
                (Processing { job, stage: Stage::Loading }, action)
            },
            (Stage::Locking, Event::Lock(_)) => job.roll_back(Ok(())),
            (Stage::Loading, Event::Transaction(None)) => {
                let missing = ProcessError::NotFound(job.transaction_id);
                job.finish(Err(missing))
            },
            (Stage::Loading, Event::Transaction(Some(row))) => job.loaded(row),
            (Stage::Claiming(row), Event::RowsAffected(rows)) => job.claimed(row, rows),
            (Stage::Screening(row), Event::Fraud(answer)) => job.screened(row, answer),
            (Stage::Clearing(row), Event::Done) => job.execute(row),
            (Stage::FirstAccount { movement, amount }, Event::Account(row)) => {
                let (_, second) = movement.lock_order();
                (
                    Processing { job, stage: Stage::SecondAccount { movement, amount, first: row } },
                    Action::LockAccount(second),
                )
            },
            (Stage::SecondAccount { movement, amount, first }, Event::Account(row)) => job.locked(
                movement,
                amount,
                first,
                row,
            ),
            (Stage::Writing { plan, next, .. }, Event::Sequence(number)) => {
                let sequence: i64 = match number {
                    Some(n) => n,
                    None => 1,
                };
                assert(plan@.len() == plan.len());
                job.write(plan, next + 1, sequence)
            },
            (Stage::Writing { plan, next, sequence }, Event::Done) => {
                assert(plan@.len() == plan.len());
                job.write(plan, next + 1, sequence)
            },
            (Stage::Settling, Event::Done) => job.commit(Ok(())),
            (Stage::Failing { reason, error }, Event::Done) => {
                let entry = record_failed(
                    job.transaction_id,
                    reason.as_str(),
                    job.correlation_id,
                );
                (
                    Processing { job, stage: Stage::RecordingFailure(error) },
                    Action::RecordAudit(entry),
                )
            },
            (Stage::RecordingFailure(error), Event::Done) => job.commit(Err(error)),
            (Stage::Resetting(error), Event::Done) => job.commit(Err(error)),
            (Stage::Committing(outcome), Event::Done) => job.finish(outcome),
            (Stage::RollingBack(outcome), _) => job.finish(outcome),
            (Stage::FirstAccount { .. }, Event::Failed(e)) => job.refuse(ProcessError::Database(e)),
            (Stage::SecondAccount { .. }, Event::Failed(e)) => job.refuse(
                ProcessError::Database(e),
            ),
            (Stage::Writing { .. }, Event::Failed(e)) => job.refuse(ProcessError::Database(e)),
            (_, Event::Failed(e)) => job.abandon(e),
            (stage, _) => (Processing { job, stage }, Action::Rollback),
        }
    }

    /// Whether an event can come of the action that was asked for, and the
    /// numbers that the step has to compute can be represented.
    pub fn can_step(&self, event: &Event) -> (r: bool)
        ensures
            r == (self@.accepts(event@) && self@.computable(event@)),
    {
        match (&self.stage, event) {
            (Stage::Beginning, Event::Done | Event::Failed(_)) => true,
            (Stage::Locking, Event::Lock(_) | Event::Failed(_)) => true,
            (Stage::Loading, Event::Transaction(_) | Event::Failed(_)) => true,
            (Stage::Claiming(row), Event::RowsAffected(rows)) => *rows != 0 || row.version
                < i64::MAX,
            (Stage::Claiming(_), Event::Failed(_)) => true,
            (Stage::Screening(_), Event::Fraud(_)) => true,
            (Stage::Clearing(_), Event::Done | Event::Failed(_)) => true,
            (Stage::FirstAccount { .. }, Event::Account(_)) => true,
            (Stage::SecondAccount { movement, amount, first }, Event::Account(row)) =>
                movement.can_settle(*amount, *first, *row),
            (Stage::FirstAccount { .. }, Event::Failed(_)) => true,
            (Stage::SecondAccount { .. }, Event::Failed(_)) => true,
            (Stage::Writing { plan, next, .. }, Event::Sequence(_)) => *next < plan.len()
                && matches!(plan[*next], Write::NextSequence { .. }),
            (Stage::Writing { plan, next, .. }, Event::Done) => *next < plan.len() && !matches!(
                plan[*next],
                Write::NextSequence { .. }
            ),
            (Stage::Writing { plan, next, .. }, Event::Failed(_)) => *next < plan.len(),
            (Stage::Settling, Event::Done | Event::Failed(_)) => true,
            (Stage::Failing { .. }, Event::Done | Event::Failed(_)) => true,
            (Stage::RecordingFailure(_), Event::Done | Event::Failed(_)) => true,
            (Stage::Resetting(_), Event::Done | Event::Failed(_)) => true,
            (Stage::Committing(_), Event::Done | Event::Failed(_)) => true,
            (Stage::RollingBack(_), Event::Done | Event::Failed(_)) => true,
            _ => false,
        }
    }

    /// Goes on after an event as [`Processing::step`] does, for any event:
    /// `None` where it does not fit, or where a new balance or version could
    /// not be represented.
    pub fn try_step(self, event: Event) -> (r: Option<(Processing, Action)>)
        ensures
            r is Some <==> self@.accepts(event@) && self@.computable(event@),
            r matches Some(step) ==> step_view(step) == self@.next(event@)
                && self@.moves_the_amount(event@) && timely(step.1),
    {
        if self.can_step(&event) {
            Some(self.step(event))
        } else {
            None
        }
    }
}

/// Only two errors can be helped by another try: no connection was free, or
/// somebody else changed the record.
pub proof fn law_what_is_tried_again(e: ProcessError<Seq<char>>)
    ensures
        e.retryable() <==> {
            ||| e matches ProcessError::Database(db) && db.kind is PoolTimedOut
            ||| e matches ProcessError::Domain(d) && d is OptimisticLockConflict
        },
{
}

/// The words of an error hold everything that it knows.
pub proof fn law_process_errors_are_told_with_their_details(
    id: Uuid,
    d: DomainError<Seq<char>>,
    db: DbError<Seq<char>>,
    m: Seq<char>,
    secs: u64,
)
    ensures
        ProcessError::<Seq<char>>::NotFound(id).text() == "transaction not found: "@ + id.text(),
        ProcessError::Domain(d).text() == "domain error: "@ + d.text(),
        ProcessError::Database(db).text() == "database error: "@ + db.message,
        ProcessError::Serialization(m).text() == "serialization error: "@ + m,
        ProcessError::FraudBlocked(m).text() == "fraud check blocked: "@ + m,
        ProcessError::<Seq<char>>::FraudCheckTimeout(secs).text() == "fraud check timed out after "@
            + nat_text(secs as nat) + "s"@,
        ProcessError::Permanent(m).text() == "permanent failure: "@ + m,
{
}

/// A row, a job and an error, as contracts see them, have the fields they have.
pub proof fn law_processing_views_keep_the_fields(
    row: TransactionRow,
    job: Job,
    id: Uuid,
    d: DomainError,
    db: DbError,
    m: String,
    secs: u64,
)
    ensures
        row.transaction_type is Some <==> row@.transaction_type is Some,
        row.transaction_type is Some ==> row@.transaction_type->0 == row.transaction_type->0@,
        row.status is Some <==> row@.status is Some,
        row.status is Some ==> row@.status->0 == row.status->0@,
        row@.amount == row.amount,
        row@.source_account_id == row.source_account_id,
        row@.dest_account_id == row.dest_account_id,
        row@.version == row.version,
        row@.compliance_checked == row.compliance_checked,
        row@.counters == row.counters,
        job@.transaction_id == job.transaction_id,
        job@.correlation_id == job.correlation_id,
        job@.worker_id == job.worker_id@,
        ProcessError::<String>::NotFound(id)@ == ProcessError::<Seq<char>>::NotFound(id),
        ProcessError::Domain(d)@ == ProcessError::Domain(d@),
        ProcessError::Database(db)@ == ProcessError::Database(db@),
        ProcessError::Serialization(m)@ == ProcessError::Serialization(m@),
        ProcessError::FraudBlocked(m)@ == ProcessError::FraudBlocked(m@),
        ProcessError::<String>::FraudCheckTimeout(secs)@ == ProcessError::<
            Seq<char>,
        >::FraudCheckTimeout(secs),
        ProcessError::Permanent(m)@ == ProcessError::Permanent(m@),
{
}

/// What is to be done, as contracts see it, is what is done: each action keeps its
/// kind and its fields.
pub proof fn law_action_view_keeps_the_fields(action: Action)
    ensures
        match action {
            Action::Begin => action@ is Begin,
            Action::TryLock(key) => action@ == ActionView::TryLock(key),
            Action::LoadTransaction(id) => action@ == ActionView::LoadTransaction(id),
            Action::MarkProcessing { id, worker_id, version } => action@ == (
            ActionView::MarkProcessing { id, worker_id: worker_id@, version }),
            Action::CheckFraud { id, amount } => action@ == (ActionView::CheckFraud { id, amount }),
            Action::RecordCompliance { id, risk_score } => action@ == (
            ActionView::RecordCompliance { id, risk_score }),
            Action::LockAccount(id) => action@ == ActionView::LockAccount(id),
            Action::UpdateBalance { account_id, balance, expected_version } => action@ == (
            ActionView::UpdateBalance { account_id, balance, expected_version }),
            Action::ReadSequence { account_id } => action@ == (ActionView::ReadSequence {
                account_id,
            }),
            Action::InsertLedgerEntry {
                transaction_id,
                account_id,
                entry_type,
                amount,
                running_balance,
                sequence_num,
            } => action@ == (ActionView::InsertLedgerEntry {
                transaction_id,
                account_id,
                entry_type,
                amount,
                running_balance,
                sequence_num,
            }),
            Action::RecordAudit(entry) => action@ == ActionView::RecordAudit(entry@),
            Action::MarkSettled(id) => action@ == ActionView::MarkSettled(id),
            Action::MarkFailed { id, reason } => action@ == (ActionView::MarkFailed {
                id,
                reason: reason@,
            }),
            Action::ResetToPending { id, reason } => action@ == (ActionView::ResetToPending {
                id,
                reason: reason@,
            }),
            Action::Commit => action@ is Commit,
            Action::Rollback => action@ is Rollback,
            Action::Return(Ok(_)) => action@ == ActionView::Return(Ok(())),
            Action::Return(Err(e)) => action@ == ActionView::Return(Err(e@)),
        },
{
}

/// What came of an action, as contracts see it, is what came of it.
pub proof fn law_event_view_keeps_the_fields(event: Event)
    ensures
        match event {
            Event::Done => event@ is Done,
            Event::Failed(e) => event@ == Event::Failed(e@),
            Event::Lock(taken) => event@ == Event::<Seq<char>>::Lock(taken),
            Event::Transaction(None) => event@ == Event::<Seq<char>>::Transaction(None),
            Event::Transaction(Some(row)) => event@ == Event::Transaction(Some(row@)),
            Event::RowsAffected(rows) => event@ == Event::<Seq<char>>::RowsAffected(rows),
            Event::Fraud(None) => event@ == Event::<Seq<char>>::Fraud(None),
            Event::Fraud(Some(result)) => event@ == Event::Fraud(Some(result@)),
            Event::Account(row) => event@ == Event::<Seq<char>>::Account(row),
            Event::Sequence(number) => event@ == Event::<Seq<char>>::Sequence(number),
        },
{
}

} // verus!
