//! The payment domain: money, accounts, transactions and the ledger.
use vstd::prelude::*;

use crate::decimal::Decimal;
use crate::error::DomainError;
use crate::ident::Uuid;
use crate::moment::Timestamp;

verus! {

/// An ISO 4217 currency.
#[derive(Debug, Clone, Copy, PartialEq, Eq, Structural, Hash)]
pub enum Currency {
    Usd,
    Eur,
    Gbp,
    Jpy,
    Chf,
    Cad,
    Aud,
}

impl Currency {
    /// The ISO 4217 code.
    pub open spec fn code(self) -> Seq<char> {
        match self {
            Currency::Usd => "USD"@,
            Currency::Eur => "EUR"@,
            Currency::Gbp => "GBP"@,
            Currency::Jpy => "JPY"@,
            Currency::Chf => "CHF"@,
            Currency::Cad => "CAD"@,
            Currency::Aud => "AUD"@,
        }
    }

    /// The name that a currency has in JSON.
    pub open spec fn name(self) -> Seq<char> {
        match self {
            Currency::Usd => "Usd"@,
            Currency::Eur => "Eur"@,
            Currency::Gbp => "Gbp"@,
            Currency::Jpy => "Jpy"@,
            Currency::Chf => "Chf"@,
            Currency::Cad => "Cad"@,
            Currency::Aud => "Aud"@,
        }
    }

    /// The ISO 4217 code.
    pub fn as_str(&self) -> (r: &'static str)
        ensures
            r@ == self.code(),
    {
        match self {
            Currency::Usd => "USD",
            Currency::Eur => "EUR",
            Currency::Gbp => "GBP",
            Currency::Jpy => "JPY",
            Currency::Chf => "CHF",
            Currency::Cad => "CAD",
            Currency::Aud => "AUD",
        }
    }

    /// The name that a currency has in JSON.
    pub fn json_name(&self) -> (r: &'static str)
        ensures
            r@ == self.name(),
    {
        match self {
            Currency::Usd => "Usd",
            Currency::Eur => "Eur",
            Currency::Gbp => "Gbp",
            Currency::Jpy => "Jpy",
            Currency::Chf => "Chf",
            Currency::Cad => "Cad",
            Currency::Aud => "Aud",
        }
    }
}

/// An amount of money in one currency. The amount is always positive when made
/// by [`Money::new`].
#[derive(Debug, Clone, PartialEq)]
pub struct Money {
    pub amount: Decimal,
    pub currency: Currency,
}

impl Money {
    /// An amount of money; anything that is not positive is refused.
    pub fn new(amount: Decimal, currency: Currency) -> (r: Result<Money, DomainError>)
        ensures
            r is Ok <==> amount.units() > 0,
            r matches Ok(m) ==> m == (Money { amount, currency }),
            r matches Err(e) ==> e@ == DomainError::InvalidAmount(amount.text()),
    {
        let zero = Decimal::zero();
        if !zero.less_than(&amount) {
            return Err(DomainError::InvalidAmount(amount.to_text()));
        }
        Ok(Money { amount, currency })
    }
}

/// Where a transaction stands.
///
/// A pending transaction is taken up for processing, or failed; processing
/// settles it, fails it, or puts it back for another try; a settled transaction
/// can be reversed.
#[derive(Debug, Clone, Copy, PartialEq, Eq, Structural)]
pub enum TransactionStatus {
    Pending,
    Processing,
    Settled,
    Failed,
    Reversed,
}

impl TransactionStatus {
    /// Whether a transaction may go from this status to `next`.
    pub open spec fn allows(self, next: TransactionStatus) -> bool {
        match self {
            TransactionStatus::Pending => next == TransactionStatus::Processing || next
                == TransactionStatus::Failed,
            TransactionStatus::Processing => next == TransactionStatus::Settled || next
                == TransactionStatus::Failed || next == TransactionStatus::Pending,
            TransactionStatus::Settled => next == TransactionStatus::Reversed,
            TransactionStatus::Failed => false,
            TransactionStatus::Reversed => false,
        }
    }

    /// The name of the status, as error messages give it.
    pub open spec fn name(self) -> Seq<char> {
        match self {
            TransactionStatus::Pending => "Pending"@,
            TransactionStatus::Processing => "Processing"@,
            TransactionStatus::Settled => "Settled"@,
            TransactionStatus::Failed => "Failed"@,
            TransactionStatus::Reversed => "Reversed"@,
        }
    }

    /// The status as the database stores it.
    pub open spec fn code(self) -> Seq<char> {
        match self {
            TransactionStatus::Pending => "PENDING"@,
            TransactionStatus::Processing => "PROCESSING"@,
            TransactionStatus::Settled => "SETTLED"@,
            TransactionStatus::Failed => "FAILED"@,
            TransactionStatus::Reversed => "REVERSED"@,
        }
    }

    /// Whether a transaction may go from this status to `next`.
    pub fn can_transition_to(&self, next: &TransactionStatus) -> (r: bool)
        ensures
            r == self.allows(*next),
    {
        match (self, next) {
            (TransactionStatus::Pending, TransactionStatus::Processing) => true,
            (TransactionStatus::Pending, TransactionStatus::Failed) => true,
            (TransactionStatus::Processing, TransactionStatus::Settled) => true,
            (TransactionStatus::Processing, TransactionStatus::Failed) => true,
            (TransactionStatus::Processing, TransactionStatus::Pending) => true,
            (TransactionStatus::Settled, TransactionStatus::Reversed) => true,
            _ => false,
        }
    }

    /// The name of the status, as error messages give it.
    pub fn display_name(&self) -> (r: &'static str)
        ensures
            r@ == self.name(),
    {
        match self {
            TransactionStatus::Pending => "Pending",
            TransactionStatus::Processing => "Processing",
            TransactionStatus::Settled => "Settled",
            TransactionStatus::Failed => "Failed",
            TransactionStatus::Reversed => "Reversed",
        }
    }

    /// The status as the database stores it.
    pub fn as_str(&self) -> (r: &'static str)
        ensures
            r@ == self.code(),
    {
        match self {
            TransactionStatus::Pending => "PENDING",
            TransactionStatus::Processing => "PROCESSING",
            TransactionStatus::Settled => "SETTLED",
            TransactionStatus::Failed => "FAILED",
            TransactionStatus::Reversed => "REVERSED",
        }
    }
}

/// What a transaction does.
#[derive(Debug, Clone, Copy, PartialEq, Eq, Structural)]
pub enum TransactionType {
    Credit,
    Debit,
    Transfer,
    Fee,
    Reversal,
    Adjustment,
}

impl TransactionType {
    /// The type as the database stores it.
    pub open spec fn code(self) -> Seq<char> {
        match self {
            TransactionType::Credit => "CREDIT"@,
            TransactionType::Debit => "DEBIT"@,
            TransactionType::Transfer => "TRANSFER"@,
            TransactionType::Fee => "FEE"@,
            TransactionType::Reversal => "REVERSAL"@,
            TransactionType::Adjustment => "ADJUSTMENT"@,
        }
    }

    /// The type as the database stores it.
    pub fn as_str(&self) -> (r: &'static str)
        ensures
            r@ == self.code(),
    {
        match self {
            TransactionType::Credit => "CREDIT",
            TransactionType::Debit => "DEBIT",
            TransactionType::Transfer => "TRANSFER",
            TransactionType::Fee => "FEE",
            TransactionType::Reversal => "REVERSAL",
            TransactionType::Adjustment => "ADJUSTMENT",
        }
    }
}

/// A transaction, the central aggregate. Free-form data is held as JSON text.
#[derive(Debug, Clone)]
pub struct Transaction {
    pub id: Uuid,
    pub idempotency_key: String,
    pub transaction_type: TransactionType,
    pub status: TransactionStatus,
    pub amount: Decimal,
    pub currency: Currency,
    pub source_account_id: Option<Uuid>,
    pub dest_account_id: Option<Uuid>,
    pub description: Option<String>,
    pub metadata: String,
    pub request_hash: String,
    pub submitted_at: Timestamp,
    pub processed_at: Option<Timestamp>,
    pub settled_at: Option<Timestamp>,
    pub version: i64,
    pub worker_id: Option<String>,
    pub retry_count: i32,
    pub last_error: Option<String>,
    pub regulatory_flags: String,
    pub risk_score: Option<Decimal>,
    pub compliance_checked: bool,
}

impl Transaction {
    /// This transaction after a step to `next`: the status is the new one, the
    /// version is one higher, and nothing else changes.
    pub open spec fn moved_to(self, next: TransactionStatus) -> Transaction {
        Transaction { status: next, version: (self.version + 1) as i64, ..self }
    }

    /// Moves the transaction to another status, or refuses and changes nothing.
    pub fn transition(&mut self, next: TransactionStatus) -> (r: Result<(), DomainError>)
        requires
            old(self).status.allows(next) ==> old(self).version < i64::MAX,
        ensures
            r is Ok <==> old(self).status.allows(next),
            r is Ok ==> *final(self) == old(self).moved_to(next),
            r matches Err(e) ==> *final(self) == *old(self) && e@
                == (DomainError::InvalidStateTransition {
                id: old(self).id,
                from: old(self).status.name(),
                to: next.name(),
            }),
    {
        if !self.status.can_transition_to(&next) {
            return Err(
                DomainError::InvalidStateTransition {
                    id: self.id,
                    from: self.status.display_name().to_string(),
                    to: next.display_name().to_string(),
                },
            );
        }
        self.status = next;
        self.version = self.version + 1;
        Ok(())
    }
}

/// An account and its balance.
#[derive(Debug, Clone)]
pub struct Account {
    pub id: Uuid,
    pub external_id: String,
    pub owner_id: String,
    pub currency: Currency,
    pub balance: Decimal,
    pub version: i64,
    pub is_active: bool,
    pub created_at: Timestamp,
    pub updated_at: Timestamp,
}

impl Account {
    /// Why taking `amount` out is refused, if it is.
    pub open spec fn debit_refusal(self, amount: Decimal) -> Option<DomainError<Seq<char>>> {
        if !self.is_active {
            Some(DomainError::AccountInactive(self.id))
        } else if self.balance.units() < amount.units() {
            Some(
                DomainError::InsufficientFunds {
                    account_id: self.id,
                    required: amount.text(),
                    available: self.balance.text(),
                },
            )
        } else {
            None
        }
    }

    /// Why putting funds in is refused, if it is.
    pub open spec fn credit_refusal(self) -> Option<DomainError<Seq<char>>> {
        if !self.is_active {
            Some(DomainError::AccountInactive(self.id))
        } else {
            None
        }
    }

    /// This account with another balance and the next version.
    pub open spec fn rebalanced(self, balance: Decimal) -> Account {
        Account { balance, version: (self.version + 1) as i64, ..self }
    }

    /// What a debit of `amount` that is not refused makes of the account.
    pub open spec fn debited(self, amount: Decimal, after: Account) -> bool {
        &&& self.debit_refusal(amount) is None
        &&& after == self.rebalanced(self.balance.difference(amount)->0)
        &&& self.balance.subtracts_exactly(amount) ==> after.balance.units() == self.balance.units()
            - amount.units() && after.balance.scale() == self.balance.combined_scale(amount)
        &&& 0 <= after.balance.units()
    }

    /// What a credit of `amount` that is not refused makes of the account.
    pub open spec fn credited(self, amount: Decimal, after: Account) -> bool {
        &&& self.credit_refusal() is None
        &&& after == self.rebalanced(self.balance.sum(amount)->0)
        &&& self.balance.adds_exactly(amount) ==> after.balance.units() == self.balance.units()
            + amount.units() && after.balance.scale() == self.balance.combined_scale(amount)
    }

    /// Takes `amount` out of the account, or refuses and changes nothing.
    pub fn debit(&mut self, amount: Decimal) -> (r: Result<(), DomainError>)
        requires
            old(self).debit_refusal(amount) is None ==> old(self).balance.difference(amount) is Some
                && old(self).version < i64::MAX,
        ensures
            r is Ok <==> old(self).debit_refusal(amount) is None,
            r is Ok ==> old(self).debited(amount, *final(self)),
            r matches Err(e) ==> *final(self) == *old(self) && Some(e@)
                == old(self).debit_refusal(amount),
    {
        if !self.is_active {
            return Err(DomainError::AccountInactive(self.id));
        }
        if self.balance.less_than(&amount) {
            return Err(
                DomainError::InsufficientFunds {
                    account_id: self.id,
                    required: amount.to_text(),
                    available: self.balance.to_text(),
                },
            );
        }
        self.balance = self.balance.checked_sub(&amount).unwrap();
        self.version = self.version + 1;
        Ok(())
    }

    /// Puts `amount` into the account, or refuses and changes nothing.
    pub fn credit(&mut self, amount: Decimal) -> (r: Result<(), DomainError>)
        requires
            old(self).credit_refusal() is None ==> old(self).balance.sum(amount) is Some
                && old(self).version < i64::MAX,
        ensures
            r is Ok <==> old(self).credit_refusal() is None,
            r is Ok ==> old(self).credited(amount, *final(self)),
            r matches Err(e) ==> *final(self) == *old(self) && Some(e@)
                == old(self).credit_refusal(),
    {
        if !self.is_active {
            return Err(DomainError::AccountInactive(self.id));
        }
        self.balance = self.balance.checked_add(&amount).unwrap();
        self.version = self.version + 1;
        Ok(())
    }

    /// Takes `amount` out of the account as [`Account::debit`] does, for any
    /// account and amount: `None`, and nothing changed, where the new balance
    /// or version could not be represented.
    pub fn try_debit(&mut self, amount: Decimal) -> (r: Option<Result<(), DomainError>>)
        ensures
            r is None <==> old(self).debit_refusal(amount) is None
                && (old(self).balance.difference(amount) is None || old(self).version == i64::MAX),
            r is None ==> *final(self) == *old(self),
            r matches Some(Ok(_)) ==> old(self).debited(amount, *final(self)),
            r matches Some(Err(e)) ==> *final(self) == *old(self) && Some(e@)
                == old(self).debit_refusal(amount),
    {
        if self.is_active && !self.balance.less_than(&amount) {
            if self.version == i64::MAX || self.balance.checked_sub(&amount).is_none() {
                return None;
            }
        }
        Some(self.debit(amount))
    }

    /// Puts `amount` into the account as [`Account::credit`] does, for any
    /// account and amount: `None`, and nothing changed, where the new balance
    /// or version could not be represented.
    pub fn try_credit(&mut self, amount: Decimal) -> (r: Option<Result<(), DomainError>>)
        ensures
            r is None <==> old(self).credit_refusal() is None && (old(self).balance.sum(amount)
                is None || old(self).version == i64::MAX),
            r is None ==> *final(self) == *old(self),
            r matches Some(Ok(_)) ==> old(self).credited(amount, *final(self)),
            r matches Some(Err(e)) ==> *final(self) == *old(self) && Some(e@)
                == old(self).credit_refusal(),
    {
        if self.is_active {
            if self.version == i64::MAX || self.balance.checked_add(&amount).is_none() {
                return None;
            }
        }
        Some(self.credit(amount))
    }
}

/// Which side of the ledger an entry is on.
#[derive(Debug, Clone, Copy, PartialEq, Eq, Structural)]
pub enum EntryType {
    Debit,
    Credit,
}

impl EntryType {
    /// The side as the database stores it.
    pub open spec fn code(self) -> Seq<char> {
        match self {
            EntryType::Debit => "DEBIT"@,
            EntryType::Credit => "CREDIT"@,
        }
    }

    /// The side as the database stores it.
    pub fn as_str(&self) -> (r: &'static str)
        ensures
            r@ == self.code(),
    {
        match self {
            EntryType::Debit => "DEBIT",
            EntryType::Credit => "CREDIT",
        }
    }
}

/// An entry of the ledger. Entries are never changed; one transaction makes two,
/// a debit and a credit.
#[derive(Debug, Clone)]
pub struct LedgerEntry {
    pub id: Uuid,
    pub transaction_id: Uuid,
    pub account_id: Uuid,
    pub entry_type: EntryType,
    pub amount: Decimal,
    pub currency: Currency,
    pub running_balance: Decimal,
    pub posted_at: Timestamp,
    pub sequence_num: i64,
}

/// Currencies are not mixed up: two that share a code or a name are the same.
pub proof fn law_currencies_are_told_apart(a: Currency, b: Currency)
    ensures
        a.code() == b.code() ==> a == b,
        a.name() == b.name() ==> a == b,
{
    reveal_strlit("USD");
    reveal_strlit("EUR");
    reveal_strlit("GBP");
    reveal_strlit("JPY");
    reveal_strlit("CHF");
    reveal_strlit("CAD");
    reveal_strlit("AUD");
    reveal_strlit("Usd");
    reveal_strlit("Eur");
    reveal_strlit("Gbp");
    reveal_strlit("Jpy");
    reveal_strlit("Chf");
    reveal_strlit("Cad");
    reveal_strlit("Aud");
    assert(a.code()[0] == b.code()[0] && a.code()[1] == b.code()[1] ==> a == b);
    assert(a.name()[0] == b.name()[0] && a.name()[1] == b.name()[1] ==> a == b);
}

/// Failed and reversed transactions stay as they are.
pub proof fn law_final_statuses(next: TransactionStatus)
    ensures
        !TransactionStatus::Failed.allows(next),
        !TransactionStatus::Reversed.allows(next),
{
}

/// A transaction is settled only from processing, and is processed only after
/// it was pending.
pub proof fn law_settled_only_after_processing(from: TransactionStatus)
    ensures
        from.allows(TransactionStatus::Settled) ==> from == TransactionStatus::Processing,
        from.allows(TransactionStatus::Processing) ==> from == TransactionStatus::Pending,
        from.allows(TransactionStatus::Reversed) ==> from == TransactionStatus::Settled,
{
}

/// Every step of a transaction raises its version by one, so a version names
/// one step at most.
pub proof fn law_versions_grow(before: Transaction, next: TransactionStatus)
    requires
        before.status.allows(next),
        before.version < i64::MAX,
    ensures
        before.moved_to(next).version == before.version + 1,
        before.moved_to(next).id == before.id,
        before.moved_to(next).amount == before.amount,
{
}

/// Taking an amount out and putting it back leaves the balance as it was,
/// where the arithmetic is exact.
pub proof fn law_credit_undoes_debit(
    before: Account,
    between: Account,
    after: Account,
    amount: Decimal,
)
    requires
        before.debited(amount, between),
        between.credited(amount, after),
        before.balance.subtracts_exactly(amount),
        between.balance.adds_exactly(amount),
    ensures
        after.balance.units() == before.balance.units(),
{
}

/// A debit never takes more than there is: what it leaves is not negative.
pub proof fn law_debit_never_overdraws(before: Account, after: Account, amount: Decimal)
    requires
        before.debited(amount, after),
    ensures
        0 <= after.balance.units(),
{
}

/// The steps that a transaction can take are these six and no others: pending to
/// processing or failed; processing to settled, failed or back to pending; settled
/// to reversed.
pub proof fn law_six_steps(from: TransactionStatus, next: TransactionStatus)
    ensures
        from.allows(next) <==> {
            ||| from is Pending && (next is Processing || next is Failed)
            ||| from is Processing && (next is Settled || next is Failed || next is Pending)
            ||| from is Settled && next is Reversed
        },
{
}

/// A step changes the status and raises the version, and leaves everything else of
/// the transaction as it was.
pub proof fn law_step_changes_status_and_version_only(
    before: Transaction,
    next: TransactionStatus,
)
    requires
        before.version < i64::MAX,
    ensures
        ({
            let after = before.moved_to(next);
            &&& after.status == next
            &&& after.version == before.version + 1
            &&& after.id == before.id
            &&& after.idempotency_key == before.idempotency_key
            &&& after.transaction_type == before.transaction_type
            &&& after.amount == before.amount
            &&& after.currency == before.currency
            &&& after.source_account_id == before.source_account_id
            &&& after.dest_account_id == before.dest_account_id
            &&& after.description == before.description
            &&& after.metadata == before.metadata
            &&& after.request_hash == before.request_hash
            &&& after.submitted_at == before.submitted_at
            &&& after.processed_at == before.processed_at
            &&& after.settled_at == before.settled_at
            &&& after.worker_id == before.worker_id
            &&& after.retry_count == before.retry_count
            &&& after.last_error == before.last_error
            &&& after.regulatory_flags == before.regulatory_flags
            &&& after.risk_score == before.risk_score
            &&& after.compliance_checked == before.compliance_checked
        }),
{
}

/// A debit changes the balance and the version, and leaves everything else of the
/// account as it was: the balance falls by the amount.
pub proof fn law_debit_changes_balance_and_version_only(
    before: Account,
    after: Account,
    amount: Decimal,
)
    requires
        before.debited(amount, after),
        before.version < i64::MAX,
    ensures
        Some(after.balance) == before.balance.difference(amount)
            || before.balance.difference(amount) is None,
        before.balance.subtracts_exactly(amount) ==> after.balance.units() == before.balance.units()
            - amount.units(),
        after.version == before.version + 1,
        after.id == before.id,
        after.external_id == before.external_id,
        after.owner_id == before.owner_id,
        after.currency == before.currency,
        after.is_active == before.is_active,
        after.created_at == before.created_at,
        after.updated_at == before.updated_at,
{
}

/// A credit changes the balance and the version, and leaves everything else of the
/// account as it was: the balance rises by the amount.
pub proof fn law_credit_changes_balance_and_version_only(
    before: Account,
    after: Account,
    amount: Decimal,
)
    requires
        before.credited(amount, after),
        before.version < i64::MAX,
    ensures
        Some(after.balance) == before.balance.sum(amount) || before.balance.sum(amount) is None,
        before.balance.adds_exactly(amount) ==> after.balance.units() == before.balance.units()
            + amount.units(),
        after.version == before.version + 1,
        after.id == before.id,
        after.external_id == before.external_id,
        after.owner_id == before.owner_id,
        after.currency == before.currency,
        after.is_active == before.is_active,
        after.created_at == before.created_at,
        after.updated_at == before.updated_at,
{
}

/// Funds can be taken out of an active account that has them, and put into an
/// active account. A refusal names the account, and tells the amount and the
/// balance where there is too little.
pub proof fn law_active_accounts_with_funds_pay(account: Account, amount: Decimal)
    ensures
        account.debit_refusal(amount) is None <==> account.is_active && account.balance.units()
            >= amount.units(),
        account.credit_refusal() is None <==> account.is_active,
        !account.is_active ==> account.debit_refusal(amount) == Some(
            DomainError::<Seq<char>>::AccountInactive(account.id),
        ) && account.credit_refusal() == Some(
            DomainError::<Seq<char>>::AccountInactive(account.id),
        ),
        account.is_active && account.balance.units() < amount.units() ==> account.debit_refusal(
            amount,
        ) == Some(
            DomainError::InsufficientFunds {
                account_id: account.id,
                required: amount.text(),
                available: account.balance.text(),
            },
        ),
{
}

/// A letter in upper case; any other character as it is.
pub open spec fn upper_case(c: char) -> char {
    if 'a' <= c <= 'z' {
        (c as int - 32) as char
    } else {
        c
    }
}

/// A status and a currency are stored under their names in upper case.
pub proof fn law_codes_are_names_in_upper_case(status: TransactionStatus, currency: Currency)
    ensures
        status.code() =~= status.name().map_values(|c: char| upper_case(c)),
        currency.code() =~= currency.name().map_values(|c: char| upper_case(c)),
        currency.code().len() == 3,
{
    reveal_strlit("PENDING");
    reveal_strlit("PROCESSING");
    reveal_strlit("SETTLED");
    reveal_strlit("FAILED");
    reveal_strlit("REVERSED");
    reveal_strlit("Pending");
    reveal_strlit("Processing");
    reveal_strlit("Settled");
    reveal_strlit("Failed");
    reveal_strlit("Reversed");
    reveal_strlit("USD");
    reveal_strlit("EUR");
    reveal_strlit("GBP");
    reveal_strlit("JPY");
    reveal_strlit("CHF");
    reveal_strlit("CAD");
    reveal_strlit("AUD");
    reveal_strlit("Usd");
    reveal_strlit("Eur");
    reveal_strlit("Gbp");
    reveal_strlit("Jpy");
    reveal_strlit("Chf");
    reveal_strlit("Cad");
    reveal_strlit("Aud");
}

/// Each status, each type, each currency and each side of the ledger is stored
/// under a code of its own.
pub proof fn law_codes_are_told_apart(
    s1: TransactionStatus,
    s2: TransactionStatus,
    t1: TransactionType,
    t2: TransactionType,
    e1: EntryType,
    e2: EntryType,
)
    ensures
        s1.code() == s2.code() ==> s1 == s2,
        s1.name() == s2.name() ==> s1 == s2,
        t1.code() == t2.code() ==> t1 == t2,
        e1.code() == e2.code() ==> e1 == e2,
        EntryType::Debit.code() == TransactionType::Debit.code(),
        EntryType::Credit.code() == TransactionType::Credit.code(),
{
    reveal_strlit("PENDING");
    reveal_strlit("PROCESSING");
    reveal_strlit("SETTLED");
    reveal_strlit("FAILED");
    reveal_strlit("REVERSED");
    reveal_strlit("Pending");
    reveal_strlit("Processing");
    reveal_strlit("Settled");
    reveal_strlit("Failed");
    reveal_strlit("Reversed");
    reveal_strlit("CREDIT");
    reveal_strlit("DEBIT");
    reveal_strlit("TRANSFER");
    reveal_strlit("FEE");
    reveal_strlit("REVERSAL");
    reveal_strlit("ADJUSTMENT");
    assert(s1.code().len() == s2.code().len() && s1.code()[0] == s2.code()[0] ==> s1 == s2);
    assert(s1.name().len() == s2.name().len() && s1.name()[0] == s2.name()[0] ==> s1 == s2);
    assert(t1.code().len() == t2.code().len() && t1.code()[0] == t2.code()[0] ==> t1 == t2);
    assert(e1.code().len() == e2.code().len() ==> e1 == e2);
}

} // verus!
