//! The audit trail: what is recorded, atomically with the change it records.
use vstd::prelude::*;

use crate::ident::Uuid;
use crate::moment::Timestamp;

verus! {

/// One named value of a recorded state.
#[derive(Debug)]
pub struct Field<S = String> {
    pub name: S,
    pub value: S,
}

impl View for Field<String> {
    type V = Field<Seq<char>>;

    open spec fn view(&self) -> Field<Seq<char>> {
        Field { name: self.name@, value: self.value@ }
    }
}

/// A recorded state: its named values, in order.
pub open spec fn fields_view(fields: Seq<Field<String>>) -> Seq<Field<Seq<char>>> {
    fields.map_values(|f: Field<String>| f@)
}

/// An entry of the audit log.
#[derive(Debug)]
pub struct AuditRecord {
    pub entity_type: String,
    pub entity_id: Uuid,
    pub action: String,
    pub old_state: Option<Vec<Field>>,
    pub new_state: Vec<Field>,
    pub actor_id: String,
    /// `USER`, `SYSTEM` or `WORKER`.
    pub actor_type: String,
    pub correlation_id: Uuid,
    pub occurred_at: Timestamp,
}

/// What an audit entry says, apart from when it was made.
#[verifier::ext_equal]
pub struct AuditRecordView {
    pub entity_type: Seq<char>,
    pub entity_id: Uuid,
    pub action: Seq<char>,
    pub old_state: Option<Seq<Field<Seq<char>>>>,
    pub new_state: Seq<Field<Seq<char>>>,
    pub actor_id: Seq<char>,
    pub actor_type: Seq<char>,
    pub correlation_id: Uuid,
}

pub open spec fn optional_fields_view(fields: Option<Vec<Field<String>>>) -> Option<
    Seq<Field<Seq<char>>>,
> {
    match fields {
        Some(f) => Some(fields_view(f@)),
        None => None,
    }
}

impl View for AuditRecord {
    type V = AuditRecordView;

    open spec fn view(&self) -> AuditRecordView {
        AuditRecordView {
            entity_type: self.entity_type@,
            entity_id: self.entity_id,
            action: self.action@,
            old_state: optional_fields_view(self.old_state),
            new_state: fields_view(self.new_state@),
            actor_id: self.actor_id@,
            actor_type: self.actor_type@,
            correlation_id: self.correlation_id,
        }
    }
}

/// A named value.
pub fn field(name: &str, value: &str) -> (r: Field)
    ensures
        r@ == (Field { name: name@, value: value@ }),
{
    Field { name: name.to_string(), value: value.to_string() }
}

/// An audit entry made at a given time.
pub fn record_at(
    entity_type: &str,
    entity_id: Uuid,
    action: &str,
    old_state: Option<Vec<Field>>,
    new_state: Vec<Field>,
    actor_id: &str,
    actor_type: &str,
    correlation_id: Uuid,
    occurred_at: Timestamp,
) -> (r: AuditRecord)
    ensures
        r@ == (AuditRecordView {
            entity_type: entity_type@,
            entity_id,
            action: action@,
            old_state: optional_fields_view(old_state),
            new_state: fields_view(new_state@),
            actor_id: actor_id@,
            actor_type: actor_type@,
            correlation_id,
        }),
        r.occurred_at == occurred_at,
{
    AuditRecord {
        entity_type: entity_type.to_string(),
        entity_id,
        action: action.to_string(),
        old_state,
        new_state,
        actor_id: actor_id.to_string(),
        actor_type: actor_type.to_string(),
        correlation_id,
        occurred_at,
    }
}

/// An audit entry made now. It is to be written inside the same database
/// transaction as the change that it records.
pub fn record(
    entity_type: &str,
    entity_id: Uuid,
    action: &str,
    old_state: Option<Vec<Field>>,
    new_state: Vec<Field>,
    actor_id: &str,
    actor_type: &str,
    correlation_id: Uuid,
) -> (r: AuditRecord)
    ensures
        r@ == (AuditRecordView {
            entity_type: entity_type@,
            entity_id,
            action: action@,
            old_state: optional_fields_view(old_state),
            new_state: fields_view(new_state@),
            actor_id: actor_id@,
            actor_type: actor_type@,
            correlation_id,
        }),
        r.occurred_at.valid(),
{
    let occurred_at = Timestamp::now();
    record_at(
        entity_type,
        entity_id,
        action,
        old_state,
        new_state,
        actor_id,
        actor_type,
        correlation_id,
        occurred_at,
    )
}

/// A record, as contracts see it, has the fields of the record.
pub proof fn law_record_view_keeps_the_fields(entry: AuditRecord, i: int)
    requires
        0 <= i < entry.new_state@.len(),
    ensures
        entry@.entity_type == entry.entity_type@,
        entry@.entity_id == entry.entity_id,
        entry@.action == entry.action@,
        entry@.old_state is Some <==> entry.old_state is Some,
        entry@.new_state.len() == entry.new_state@.len(),
        entry@.new_state[i].name == entry.new_state@[i].name@,
        entry@.new_state[i].value == entry.new_state@[i].value@,
        entry@.actor_id == entry.actor_id@,
        entry@.actor_type == entry.actor_type@,
        entry@.correlation_id == entry.correlation_id,
{
}

} // verus!
