//! Moving money: which accounts a transaction touches, in what order they are
//! locked, and what is written to settle it.
//!
//! Every movement has two sides. A transfer goes from one customer's account to
//! another; a payment in comes from a counter-account of the platform, and a
//! payment out goes to one. So each transaction makes a debit and a credit.
use vstd::prelude::*;

use crate::audit::{field, fields_view, record, AuditRecord, AuditRecordView, Field};
use crate::counter::CounterAccounts;
use crate::decimal::Decimal;
use crate::domain::EntryType;
use crate::error::DomainError;
use crate::ident::Uuid;
use crate::processor::ProcessError;

verus! {

/// What is read of an account under its row lock.
#[derive(Debug, Clone, Copy)]
pub struct AccountRow {
    pub balance: Decimal,
    pub version: i64,
    pub is_active: bool,
}

/// A movement of money.
#[derive(Debug, Clone, Copy, PartialEq, Eq, Structural)]
pub enum Movement {
    /// From one account to another.
    Transfer { source: Uuid, dest: Uuid },
    /// Into an account, from the counter-account that faces it.
    Credit { dest: Uuid, counters: CounterAccounts },
    /// Out of an account, to the counter-account that faces it.
    Debit { source: Uuid, counters: CounterAccounts },
}

/// One write of a settlement.
#[derive(Debug, Clone, Copy)]
pub enum Write {
    /// Sets the balance of an account; where a version is given, only if the
    /// account still has it.
    Balance { account_id: Uuid, balance: Decimal, version: Option<i64> },
    /// Finds the number of the account's next ledger entry.
    NextSequence { account_id: Uuid },
    /// Adds a ledger entry under the number found last.
    Entry { account_id: Uuid, entry_type: EntryType, amount: Decimal, running_balance: Decimal },
    /// Records the settlement in the audit log.
    Audit { movement: Movement, amount: Decimal },
}

pub open spec fn outcome_view(outcome: Result<Vec<Write>, ProcessError>) -> Result<
    Seq<Write>,
    ProcessError<Seq<char>>,
> {
    match outcome {
        Ok(plan) => Ok(plan@),
        Err(e) => Err(e@),
    }
}

impl AccountRow {
    /// Why funds cannot be taken out of the account, if they cannot.
    pub open spec fn debit_refusal(self, account_id: Uuid, amount: Decimal) -> Option<
        DomainError<Seq<char>>,
    > {
        if !self.is_active {
            Some(DomainError::AccountInactive(account_id))
        } else if self.balance.units() < amount.units() {
            Some(
                DomainError::InsufficientFunds {
                    account_id,
                    required: amount.text(),
                    available: self.balance.text(),
                },
            )
        } else {
            None
        }
    }

    /// Why funds cannot be put into the account, if they cannot.
    pub open spec fn credit_refusal(self, account_id: Uuid) -> Option<DomainError<Seq<char>>> {
        if !self.is_active {
            Some(DomainError::AccountInactive(account_id))
        } else {
            None
        }
    }

    /// Whether `balance` is what taking `amount` out leaves, to the last digit
    /// where the arithmetic is exact, and not negative where there was enough.
    pub open spec fn left_by_debit(self, amount: Decimal, balance: Decimal) -> bool {
        &&& self.balance.subtracts_exactly(amount) ==> balance.units() == self.balance.units()
            - amount.units() && balance.scale() == self.balance.combined_scale(amount)
        &&& self.balance.units() >= amount.units() ==> balance.units() >= 0
    }

    /// Whether `balance` is what putting `amount` in makes, to the last digit
    /// where the arithmetic is exact.
    pub open spec fn made_by_credit(self, amount: Decimal, balance: Decimal) -> bool {
        self.balance.adds_exactly(amount) ==> balance.units() == self.balance.units()
            + amount.units() && balance.scale() == self.balance.combined_scale(amount)
    }

    fn check_debit(&self, account_id: Uuid, amount: Decimal) -> (r: Result<(), ProcessError>)
        ensures
            r is Ok <==> self.debit_refusal(account_id, amount) is None,
            r matches Err(e) ==> e@ == ProcessError::Domain(
                self.debit_refusal(account_id, amount)->0,
            ),
    {
        if !self.is_active {
            return Err(ProcessError::Domain(DomainError::AccountInactive(account_id)));
        }
        if self.balance.less_than(&amount) {
            return Err(
                ProcessError::Domain(
                    DomainError::InsufficientFunds {
                        account_id,
                        required: amount.to_text(),
                        available: self.balance.to_text(),
                    },
                ),
            );
        }
        Ok(())
    }

    fn check_credit(&self, account_id: Uuid) -> (r: Result<(), ProcessError>)
        ensures
            r is Ok <==> self.credit_refusal(account_id) is None,
            r matches Err(e) ==> e@ == ProcessError::Domain(self.credit_refusal(account_id)->0),
    {
        if !self.is_active {
            return Err(ProcessError::Domain(DomainError::AccountInactive(account_id)));
        }
        Ok(())
    }
}

/// The two writes that add an entry to an account's ledger.
pub open spec fn ledger_writes(
    account_id: Uuid,
    entry_type: EntryType,
    amount: Decimal,
    running_balance: Decimal,
) -> Seq<Write> {
    seq![
        Write::NextSequence { account_id },
        Write::Entry { account_id, entry_type, amount, running_balance },
    ]
}

/// Adds to a plan the writes of a ledger entry.
pub fn write_ledger_entry(
    plan: &mut Vec<Write>,
    account_id: Uuid,
    entry_type: EntryType,
    amount: Decimal,
    running_balance: Decimal,
)
    ensures
        final(plan)@ == old(plan)@ + ledger_writes(account_id, entry_type, amount, running_balance),
{
    plan.push(Write::NextSequence { account_id });
    plan.push(Write::Entry { account_id, entry_type, amount, running_balance });
}

/// Why a transfer from an account to itself is refused.
pub open spec fn same_account_error() -> DomainError<Seq<char>> {
    DomainError::ValidationError("source and destination accounts must differ"@)
}

fn check_accounts_differ(a: Uuid, b: Uuid) -> (r: Result<(), ProcessError>)
    ensures
        r is Ok <==> a != b,
        r matches Err(e) ==> e@ == ProcessError::Domain(same_account_error()),
{
    if a == b {
        return Err(
            ProcessError::Domain(
                DomainError::ValidationError(
                    "source and destination accounts must differ".to_string(),
                ),
            ),
        );
    }
    Ok(())
}

/// What settles a movement of `amount` from one account to another: both
/// balances, a debit and a credit in the ledger, and a record in the audit log.
/// Where `versioned`, the balances are written only to the versions that were
/// read.
pub open spec fn settlement_plan(
    movement: Movement,
    amount: Decimal,
    from: AccountRow,
    to: AccountRow,
    versioned: bool,
) -> Seq<Write> {
    let from_balance = from.balance.difference(amount)->0;
    let to_balance = to.balance.sum(amount)->0;
    seq![
        Write::Balance {
            account_id: movement.from(),
            balance: from_balance,
            version: if versioned {
                Some(from.version)
            } else {
                None
            },
        },
        Write::Balance {
            account_id: movement.to(),
            balance: to_balance,
            version: if versioned {
                Some(to.version)
            } else {
                None
            },
        },
    ] + ledger_writes(movement.from(), EntryType::Debit, amount, from_balance) + ledger_writes(
        movement.to(),
        EntryType::Credit,
        amount,
        to_balance,
    ) + seq![Write::Audit { movement, amount }]
}

/// Whether the new balances are decimals.
pub open spec fn balances_fit(amount: Decimal, from: AccountRow, to: AccountRow) -> bool {
    from.balance.difference(amount) is Some && to.balance.sum(amount) is Some
}

/// Whether the new balances differ from the old ones by the amount, to the last
/// digit where the arithmetic is exact.
pub open spec fn balances_move(amount: Decimal, from: AccountRow, to: AccountRow) -> bool {
    &&& from.left_by_debit(amount, from.balance.difference(amount)->0)
    &&& to.made_by_credit(amount, to.balance.sum(amount)->0)
}

fn plan_settlement(
    movement: Movement,
    amount: Decimal,
    from: AccountRow,
    to: AccountRow,
    versioned: bool,
) -> (r: Vec<Write>)
    requires
        balances_fit(amount, from, to),
    ensures
        r@ == settlement_plan(movement, amount, from, to, versioned),
        balances_move(amount, from, to),
{
    let (from_id, to_id) = movement.sides();
    let from_balance = from.balance.checked_sub(&amount).unwrap();
    let to_balance = to.balance.checked_add(&amount).unwrap();
    let from_version = if versioned {
        Some(from.version)
    } else {
        None
    };
    let to_version = if versioned {
        Some(to.version)
    } else {
        None
    };
    let mut plan: Vec<Write> = Vec::new();
    plan.push(
        Write::Balance { account_id: from_id, balance: from_balance, version: from_version },
    );
    plan.push(Write::Balance { account_id: to_id, balance: to_balance, version: to_version });
    write_ledger_entry(&mut plan, from_id, EntryType::Debit, amount, from_balance);
    write_ledger_entry(&mut plan, to_id, EntryType::Credit, amount, to_balance);
    plan.push(Write::Audit { movement, amount });
    assert(plan@ =~= settlement_plan(movement, amount, from, to, versioned));
    plan
}

/// Why a transfer is refused, if it is: the accounts must differ, and the source
/// account is looked at before the destination.
pub open spec fn transfer_refusal(
    source_id: Uuid,
    dest_id: Uuid,
    amount: Decimal,
    source: AccountRow,
    dest: AccountRow,
) -> Option<DomainError<Seq<char>>> {
    if source_id == dest_id {
        Some(same_account_error())
    } else {
        match source.debit_refusal(source_id, amount) {
            Some(e) => Some(e),
            None => dest.credit_refusal(dest_id),
        }
    }
}

/// What settles a transfer.
pub open spec fn transfer_plan(
    source_id: Uuid,
    dest_id: Uuid,
    amount: Decimal,
    source: AccountRow,
    dest: AccountRow,
) -> Seq<Write> {
    settlement_plan(
        Movement::Transfer { source: source_id, dest: dest_id },
        amount,
        source,
        dest,
        true,
    )
}

/// Plans a transfer between two accounts, or refuses it.
pub fn process_transfer(
    source_id: Uuid,
    dest_id: Uuid,
    amount: Decimal,
    source: AccountRow,
    dest: AccountRow,
) -> (r: Result<Vec<Write>, ProcessError>)
    requires
        transfer_refusal(source_id, dest_id, amount, source, dest) is None ==> balances_fit(
            amount,
            source,
            dest,
        ),
    ensures
        outcome_view(r) == (match transfer_refusal(source_id, dest_id, amount, source, dest) {
            Some(e) => Err(ProcessError::Domain(e)),
            None => Ok(transfer_plan(source_id, dest_id, amount, source, dest)),
        }),
        r is Ok ==> balances_move(amount, source, dest),
{
    if let Err(e) = check_accounts_differ(source_id, dest_id) {
        return Err(e);
    }
    if let Err(e) = source.check_debit(source_id, amount) {
        return Err(e);
    }
    if let Err(e) = dest.check_credit(dest_id) {
        return Err(e);
    }
    let movement = Movement::Transfer { source: source_id, dest: dest_id };
    Ok(plan_settlement(movement, amount, source, dest, true))
}

/// What settles a payment into an account.
pub open spec fn credit_plan(
    dest_id: Uuid,
    counters: CounterAccounts,
    amount: Decimal,
    dest: AccountRow,
    counter: AccountRow,
) -> Seq<Write> {
    settlement_plan(Movement::Credit { dest: dest_id, counters }, amount, counter, dest, false)
}

/// Plans a payment into an account, from the counter-account that faces it, or
/// refuses it. The counter-account is the platform's own and is not asked.
pub fn process_credit(
    dest_id: Uuid,
    counters: CounterAccounts,
    amount: Decimal,
    dest: AccountRow,
    counter: AccountRow,
) -> (r: Result<Vec<Write>, ProcessError>)
    requires
        dest.credit_refusal(dest_id) is None ==> balances_fit(amount, counter, dest),
    ensures
        outcome_view(r) == (match dest.credit_refusal(dest_id) {
            Some(e) => Err(ProcessError::Domain(e)),
            None => Ok(credit_plan(dest_id, counters, amount, dest, counter)),
        }),
        r is Ok ==> balances_move(amount, counter, dest),
{
    if let Err(e) = dest.check_credit(dest_id) {
        return Err(e);
    }
    let movement = Movement::Credit { dest: dest_id, counters };
    Ok(plan_settlement(movement, amount, counter, dest, false))
}

/// What settles a payment out of an account, or a fee.
pub open spec fn debit_plan(
    source_id: Uuid,
    counters: CounterAccounts,
    amount: Decimal,
    source: AccountRow,
    counter: AccountRow,
) -> Seq<Write> {
    settlement_plan(Movement::Debit { source: source_id, counters }, amount, source, counter, false)
}

/// Plans a payment out of an account, to the counter-account that faces it, or
/// refuses it. The counter-account is the platform's own and is not asked.
pub fn process_debit(
    source_id: Uuid,
    counters: CounterAccounts,
    amount: Decimal,
    source: AccountRow,
    counter: AccountRow,
) -> (r: Result<Vec<Write>, ProcessError>)
    requires
        source.debit_refusal(source_id, amount) is None ==> balances_fit(amount, source, counter),
    ensures
        outcome_view(r) == (match source.debit_refusal(source_id, amount) {
            Some(e) => Err(ProcessError::Domain(e)),
            None => Ok(debit_plan(source_id, counters, amount, source, counter)),
        }),
        r is Ok ==> balances_move(amount, source, counter),
{
    if let Err(e) = source.check_debit(source_id, amount) {
        return Err(e);
    }
    let movement = Movement::Debit { source: source_id, counters };
    Ok(plan_settlement(movement, amount, source, counter, false))
}

impl Movement {
    /// The account that the money comes from.
    pub open spec fn from(self) -> Uuid {
        match self {
            Movement::Transfer { source, .. } => source,
            Movement::Credit { dest, counters } => counters.facing(dest),
            Movement::Debit { source, .. } => source,
        }
    }

    /// The account that the money goes to.
    pub open spec fn to(self) -> Uuid {
        match self {
            Movement::Transfer { dest, .. } => dest,
            Movement::Credit { dest, .. } => dest,
            Movement::Debit { source, counters } => counters.facing(source),
        }
    }

    /// Whether the counter-accounts, where there are any, are valid.
    pub open spec fn valid(self) -> bool {
        match self {
            Movement::Transfer { .. } => true,
            Movement::Credit { counters, .. } => counters.valid(),
            Movement::Debit { counters, .. } => counters.valid(),
        }
    }

    /// The account that is locked first. The two accounts of a movement are
    /// locked in the order of their identifiers.
    pub open spec fn first(self) -> Uuid {
        if self.from().value <= self.to().value {
            self.from()
        } else {
            self.to()
        }
    }

    /// The account that is locked second.
    pub open spec fn second(self) -> Uuid {
        if self.from().value <= self.to().value {
            self.to()
        } else {
            self.from()
        }
    }

    /// What was read of one of the accounts: `first` of the account locked
    /// first, `second` of the one locked second.
    pub open spec fn row_of(self, account: Uuid, first: AccountRow, second: AccountRow)
        -> AccountRow {
        if account == self.first() {
            first
        } else {
            second
        }
    }

    /// Why the movement is refused, if it is.
    pub open spec fn refusal(self, amount: Decimal, first: AccountRow, second: AccountRow) -> Option<
        DomainError<Seq<char>>,
    > {
        let from = self.row_of(self.from(), first, second);
        let to = self.row_of(self.to(), first, second);
        match self {
            Movement::Transfer { source, dest } => transfer_refusal(source, dest, amount, from, to),
            Movement::Credit { dest, .. } => to.credit_refusal(dest),
            Movement::Debit { source, .. } => from.debit_refusal(source, amount),
        }
    }

    /// What settles the movement when it is not refused. Only a transfer names
    /// the versions that were read.
    pub open spec fn plan(self, amount: Decimal, first: AccountRow, second: AccountRow) -> Seq<
        Write,
    > {
        settlement_plan(
            self,
            amount,
            self.row_of(self.from(), first, second),
            self.row_of(self.to(), first, second),
            self is Transfer,
        )
    }

    /// Whether the new balances are decimals, unless the movement is refused.
    pub open spec fn representable(
        self,
        amount: Decimal,
        first: AccountRow,
        second: AccountRow,
    ) -> bool {
        self.refusal(amount, first, second) is None ==> balances_fit(
            amount,
            self.row_of(self.from(), first, second),
            self.row_of(self.to(), first, second),
        )
    }

    /// Whether the new balances of an unrefused movement differ from the old
    /// ones by the amount, to the last digit where the arithmetic is exact.
    pub open spec fn moves(self, amount: Decimal, first: AccountRow, second: AccountRow) -> bool {
        balances_move(
            amount,
            self.row_of(self.from(), first, second),
            self.row_of(self.to(), first, second),
        )
    }

    /// Whether the arithmetic of the movement is exact.
    pub open spec fn exact(self, amount: Decimal, first: AccountRow, second: AccountRow) -> bool {
        &&& self.row_of(self.from(), first, second).balance.subtracts_exactly(amount)
        &&& self.row_of(self.to(), first, second).balance.adds_exactly(amount)
    }

    /// The account that the money comes from, and the one it goes to.
    pub fn sides(&self) -> (r: (Uuid, Uuid))
        ensures
            r == (self.from(), self.to()),
    {
        match *self {
            Movement::Transfer { source, dest } => (source, dest),
            Movement::Credit { dest, counters } => (counters.face(dest), dest),
            Movement::Debit { source, counters } => (source, counters.face(source)),
        }
    }

    /// The account that is locked first, and the one locked second.
    pub fn lock_order(&self) -> (r: (Uuid, Uuid))
        ensures
            r == (self.first(), self.second()),
    {
        let (from, to) = self.sides();
        if from.at_most(&to) {
            (from, to)
        } else {
            (to, from)
        }
    }

    fn rows(&self, first: AccountRow, second: AccountRow) -> (r: (AccountRow, AccountRow))
        ensures
            r == (self.row_of(self.from(), first, second), self.row_of(self.to(), first, second)),
    {
        let (from, to) = self.sides();
        let (first_id, _) = self.lock_order();
        (
            if from == first_id {
                first
            } else {
                second
            },
            if to == first_id {
                first
            } else {
                second
            },
        )
    }

    /// Plans the movement, or refuses it.
    pub fn settle(&self, amount: Decimal, first: AccountRow, second: AccountRow) -> (r: Result<
        Vec<Write>,
        ProcessError,
    >)
        requires
            self.representable(amount, first, second),
        ensures
            outcome_view(r) == (match self.refusal(amount, first, second) {
                Some(e) => Err(ProcessError::Domain(e)),
                None => Ok(self.plan(amount, first, second)),
            }),
            r is Ok ==> self.moves(amount, first, second),
    {
        let (from, to) = self.rows(first, second);
        match *self {
            Movement::Transfer { source, dest } => process_transfer(source, dest, amount, from, to),
            Movement::Credit { dest, counters } => process_credit(
                dest,
                counters,
                amount,
                to,
                from,
            ),
            Movement::Debit { source, counters } => process_debit(
                source,
                counters,
                amount,
                from,
                to,
            ),
        }
    }

    /// Whether the movement can be planned: it is refused, or the new balances
    /// are decimals.
    pub fn can_settle(&self, amount: Decimal, first: AccountRow, second: AccountRow) -> (r: bool)
        ensures
            r == self.representable(amount, first, second),
    {
        let (from_id, to_id) = self.sides();
        let (from, to) = self.rows(first, second);
        let refused = match *self {
            Movement::Transfer { .. } => from_id == to_id || from.check_debit(
                from_id,
                amount,
            ).is_err() || to.check_credit(to_id).is_err(),
            Movement::Credit { .. } => to.check_credit(to_id).is_err(),
            Movement::Debit { .. } => from.check_debit(from_id, amount).is_err(),
        };
        refused || (from.balance.checked_sub(&amount).is_some() && to.balance.checked_add(
            &amount,
        ).is_some())
    }

    /// The kind of movement, as the audit log names it.
    pub open spec fn name(self) -> Seq<char> {
        match self {
            Movement::Transfer { .. } => "TRANSFER"@,
            Movement::Credit { .. } => "CREDIT"@,
            Movement::Debit { .. } => "DEBIT"@,
        }
    }

    /// The accounts of the movement, as the audit log names them.
    pub open spec fn account_fields(self) -> Seq<Field<Seq<char>>> {
        match self {
            Movement::Transfer { source, dest } => seq![
                Field { name: "source_account_id"@, value: source.text() },
                Field { name: "dest_account_id"@, value: dest.text() },
            ],
            Movement::Credit { dest, .. } => seq![
                Field { name: "dest_account_id"@, value: dest.text() },
            ],
            Movement::Debit { source, .. } => seq![
                Field { name: "source_account_id"@, value: source.text() },
            ],
        }
    }
}

/// What the audit log says of a settlement.
pub open spec fn settled_record(
    transaction_id: Uuid,
    movement: Movement,
    amount: Decimal,
    correlation_id: Uuid,
) -> AuditRecordView {
    AuditRecordView {
        entity_type: "Transaction"@,
        entity_id: transaction_id,
        action: "SETTLED"@,
        old_state: None,
        new_state: seq![
            Field { name: "type"@, value: movement.name() },
            Field { name: "amount"@, value: amount.text() },
        ] + movement.account_fields() + seq![Field { name: "status"@, value: "SETTLED"@ }],
        actor_id: "worker"@,
        actor_type: "WORKER"@,
        correlation_id,
    }
}

/// The audit record of a settlement.
pub fn record_settled(
    transaction_id: Uuid,
    movement: Movement,
    amount: Decimal,
    correlation_id: Uuid,
) -> (r: AuditRecord)
    ensures
        r@ == settled_record(transaction_id, movement, amount, correlation_id),
        r.occurred_at.valid(),
{
    let mut fields: Vec<Field> = Vec::new();
    let name = match movement {
        Movement::Transfer { .. } => "TRANSFER",
        Movement::Credit { .. } => "CREDIT",
        Movement::Debit { .. } => "DEBIT",
    };
    fields.push(field("type", name));
    fields.push(field("amount", amount.to_text().as_str()));
    match movement {
        Movement::Transfer { source, dest } => {
            fields.push(field("source_account_id", source.to_text().as_str()));
            fields.push(field("dest_account_id", dest.to_text().as_str()));
        },
        Movement::Credit { dest, .. } => {
            fields.push(field("dest_account_id", dest.to_text().as_str()));
        },
        Movement::Debit { source, .. } => {
            fields.push(field("source_account_id", source.to_text().as_str()));
        },
    }
    fields.push(field("status", "SETTLED"));
    assert(fields_view(fields@) =~= settled_record(
        transaction_id,
        movement,
        amount,
        correlation_id,
    ).new_state);
    record(
        "Transaction",
        transaction_id,
        "SETTLED",
        None,
        fields,
        "worker",
        "WORKER",
        correlation_id,
    )
}

/// The books: for each account its balance and version, and what its ledger
/// entries add up to when credits count up and debits count down. Amounts are
/// counted in units of `10^-28`.
pub struct Books {
    pub balances: Map<Uuid, int>,
    pub versions: Map<Uuid, int>,
    pub ledger: Map<Uuid, int>,
}

impl Books {
    /// Whether each balance is what the ledger adds up to.
    pub open spec fn reconciled(self) -> bool {
        self.balances == self.ledger
    }

    /// Whether the books have an account with the balance and version that were
    /// read of it.
    pub open spec fn shows(self, account: Uuid, row: AccountRow) -> bool {
        &&& self.balances.contains_key(account)
        &&& self.versions.contains_key(account)
        &&& self.ledger.contains_key(account)
        &&& self.balances[account] == row.balance.units()
        &&& self.versions[account] == row.version
    }

    /// The books after one write. A balance that names a version is written only
    /// to an account that has this version; each balance that is written raises
    /// the version.
    pub open spec fn after(self, write: Write) -> Books {
        match write {
            Write::Balance { account_id, balance, version } => if version matches Some(v) && v
                != self.versions[account_id] {
                self
            } else {
                Books {
                    balances: self.balances.insert(account_id, balance.units()),
                    versions: self.versions.insert(account_id, self.versions[account_id] + 1),
                    ..self
                }
            },
            Write::Entry { account_id, entry_type: EntryType::Credit, amount, .. } => Books {
                ledger: self.ledger.insert(account_id, self.ledger[account_id] + amount.units()),
                ..self
            },
            Write::Entry { account_id, entry_type: EntryType::Debit, amount, .. } => Books {
                ledger: self.ledger.insert(account_id, self.ledger[account_id] - amount.units()),
                ..self
            },
            _ => self,
        }
    }

    /// The books after all writes of a plan, in order.
    pub open spec fn after_all(self, plan: Seq<Write>) -> Books
        decreases plan.len(),
    {
        if plan.len() == 0 {
            self
        } else {
            self.after_all(plan.drop_last()).after(plan.last())
        }
    }
}

/// What the ledger entries of a plan add up to, credits counted up and debits
/// counted down.
pub open spec fn entries_total(plan: Seq<Write>) -> int
    decreases plan.len(),
{
    if plan.len() == 0 {
        0
    } else {
        entries_total(plan.drop_last()) + (match plan.last() {
            Write::Entry { entry_type: EntryType::Credit, amount, .. } => amount.units(),
            Write::Entry { entry_type: EntryType::Debit, amount, .. } => -amount.units(),
            _ => 0,
        })
    }
}

/// Movements between the same two accounts lock them in the same order, in
/// whichever direction the money goes, so that no two of them can wait for each
/// other.
pub proof fn law_lock_order_is_symmetric(a: Movement, b: Movement)
    requires
        a.from() == b.to(),
        a.to() == b.from(),
    ensures
        a.first() == b.first(),
        a.second() == b.second(),
        a.first().value <= a.second().value,
{
}

/// Every transaction makes two ledger entries, a debit of the account that the
/// money comes from and a credit of the one that it goes to, of the same amount:
/// they balance.
pub proof fn law_double_entry(
    movement: Movement,
    amount: Decimal,
    first: AccountRow,
    second: AccountRow,
)
    ensures
        ({
            let plan = movement.plan(amount, first, second);
            &&& plan.len() == 7
            &&& plan[3] matches Write::Entry {
                account_id,
                entry_type: EntryType::Debit,
                amount: a,
                ..
            } && account_id == movement.from() && a == amount
            &&& plan[5] matches Write::Entry {
                account_id,
                entry_type: EntryType::Credit,
                amount: a,
                ..
            } && account_id == movement.to() && a == amount
            &&& forall|i: int|
                0 <= i < 7 && i != 3 && i != 5 ==> !(#[trigger] plan[i] is Entry)
            &&& entries_total(plan) == 0
        }),
{
    let plan = movement.plan(amount, first, second);
    reveal_with_fuel(entries_total, 8);
    assert(plan.len() == 7);
}

/// The books after a settlement.
proof fn lemma_settled_books(
    books: Books,
    movement: Movement,
    amount: Decimal,
    first: AccountRow,
    second: AccountRow,
)
    requires
        movement.from() != movement.to(),
        books.shows(movement.first(), first),
        books.shows(movement.second(), second),
    ensures
        ({
            let from = movement.row_of(movement.from(), first, second);
            let to = movement.row_of(movement.to(), first, second);
            books.after_all(movement.plan(amount, first, second)) == (Books {
                balances: books.balances.insert(
                    movement.from(),
                    from.balance.difference(amount)->0.units(),
                ).insert(movement.to(), to.balance.sum(amount)->0.units()),
                versions: books.versions.insert(movement.from(), from.version + 1).insert(
                    movement.to(),
                    to.version + 1,
                ),
                ledger: books.ledger.insert(
                    movement.from(),
                    books.ledger[movement.from()] - amount.units(),
                ).insert(movement.to(), books.ledger[movement.to()] + amount.units()),
            })
        }),
{
    let plan = movement.plan(amount, first, second);
    let b0 = books.after(plan[0]);
    let b1 = b0.after(plan[1]);
    let b3 = b1.after(plan[3]);
    let b5 = b3.after(plan[5]);
    assert(plan.len() == 7);
    assert(books.after_all(plan.take(0)) == books);
    assert(plan.take(1).drop_last() =~= plan.take(0));
    assert(books.after_all(plan.take(1)) == b0);
    assert(plan.take(2).drop_last() =~= plan.take(1));
    assert(books.after_all(plan.take(2)) == b1);
    assert(plan.take(3).drop_last() =~= plan.take(2));
    assert(books.after_all(plan.take(3)) == b1);
    assert(plan.take(4).drop_last() =~= plan.take(3));
    assert(books.after_all(plan.take(4)) == b3);
    assert(plan.take(5).drop_last() =~= plan.take(4));
    assert(books.after_all(plan.take(5)) == b3);
    assert(plan.take(6).drop_last() =~= plan.take(5));
    assert(books.after_all(plan.take(6)) == b5);
    assert(plan.drop_last() =~= plan.take(6));
    assert(books.after_all(plan) == b5);
}

/// A settlement leaves the sum of the two balances as it was, and every other
/// balance too, where the arithmetic is exact. Both accounts get the next
/// version.
pub proof fn law_settlement_conserves_money(
    books: Books,
    movement: Movement,
    amount: Decimal,
    first: AccountRow,
    second: AccountRow,
)
    requires
        movement.valid(),
        movement.refusal(amount, first, second) is None,
        books.shows(movement.first(), first),
        books.shows(movement.second(), second),
        movement.exact(amount, first, second),
        movement.moves(amount, first, second),
    ensures
        ({
            let from = movement.from();
            let to = movement.to();
            let after = books.after_all(movement.plan(amount, first, second));
            &&& after.balances[from] == books.balances[from] - amount.units()
            &&& after.balances[to] == books.balances[to] + amount.units()
            &&& after.balances[from] + after.balances[to] == books.balances[from]
                + books.balances[to]
            &&& after.versions[from] == books.versions[from] + 1
            &&& after.versions[to] == books.versions[to] + 1
            &&& forall|other: Uuid|
                other != from && other != to && books.balances.contains_key(other)
                    ==> #[trigger] after.balances[other] == books.balances[other]
        }),
{
    lemma_settled_books(books, movement, amount, first, second);
}

/// Settling a movement keeps the books reconciled: where every balance is what
/// the ledger adds up to, it still is afterwards, if the arithmetic is exact.
pub proof fn law_settlement_keeps_books_reconciled(
    books: Books,
    movement: Movement,
    amount: Decimal,
    first: AccountRow,
    second: AccountRow,
)
    requires
        books.reconciled(),
        movement.valid(),
        movement.refusal(amount, first, second) is None,
        books.shows(movement.first(), first),
        books.shows(movement.second(), second),
        movement.exact(amount, first, second),
        movement.moves(amount, first, second),
    ensures
        books.after_all(movement.plan(amount, first, second)).reconciled(),
{
    lemma_settled_books(books, movement, amount, first, second);
    let after = books.after_all(movement.plan(amount, first, second));
    assert(after.balances =~= after.ledger);
}

/// What a customer pays was there: an unrefused transfer or payment out leaves
/// the account that the money comes from no lower than zero.
pub proof fn law_settlement_never_overdraws(
    movement: Movement,
    amount: Decimal,
    first: AccountRow,
    second: AccountRow,
)
    requires
        !(movement is Credit),
        movement.refusal(amount, first, second) is None,
        movement.moves(amount, first, second),
    ensures
        0 <= movement.row_of(movement.from(), first, second).balance.difference(
            amount,
        )->0.units(),
{
}

/// Money moves between two accounts: a transfer from an account to itself is
/// refused, and a payment has another account on its other side.
pub proof fn law_money_moves_between_two_accounts(
    movement: Movement,
    amount: Decimal,
    first: AccountRow,
    second: AccountRow,
)
    requires
        movement.valid(),
    ensures
        movement.refusal(amount, first, second) is None ==> movement.from() != movement.to(),
        movement.from() == movement.to() ==> movement is Transfer && movement.refusal(
            amount,
            first,
            second,
        ) == Some(same_account_error()),
{
}

} // verus!
