//! Identifiers of transactions, accounts, events and requests.
use vstd::prelude::*;

use crate::hexadecimal::hex_text;

verus! {

/// A UUID, held as the 128-bit number whose big-endian bytes are the UUID's.
/// Identifiers are ordered by their bytes, which is the order of the numbers.
#[derive(Debug, Clone, Copy, PartialEq, Eq, Structural, Hash)]
pub struct Uuid {
    pub value: u128,
}

/// Byte `i` of a UUID, the most significant one first.
pub open spec fn uuid_byte(value: u128, i: int) -> u8 {
    ((value >> ((8 * (15 - i)) as u128)) & 0xff) as u8
}

/// A UUID in its usual form: 32 lower-case hexadecimal digits in groups of 8,
/// 4, 4, 4 and 12, with hyphens between the groups.
pub open spec fn uuid_text(value: u128) -> Seq<char> {
    let digits = hex_text(Seq::new(16, |i: int| uuid_byte(value, i)));
    digits.subrange(0, 8) + seq!['-'] + digits.subrange(8, 12) + seq!['-'] + digits.subrange(
        12,
        16,
    ) + seq!['-'] + digits.subrange(16, 20) + seq!['-'] + digits.subrange(20, 32)
}

/// What the `uuid` crate reads from a piece of text: the UUID, or nothing where
/// the text is not one.
pub uninterp spec fn uuid_parsed(text: Seq<char>) -> Option<u128>;

/// Calls `uuid::Uuid::parse_str`. What it reads depends on the text alone, and
/// it reads a UUID back from its usual form.
#[verifier::external_body]
fn parse_value(text: &str) -> (r: Option<u128>)
    ensures
        r == uuid_parsed(text@),
        forall|value: u128| text@ == #[trigger] uuid_text(value) ==> r == Some(value),
{
    match uuid::Uuid::parse_str(text) {
        Ok(id) => Some(id.as_u128()),
        Err(_) => None,
    }
}

/// Calls `to_string` on `uuid::Uuid`, which gives the usual form.
#[verifier::external_body]
fn value_text(value: u128) -> (r: String)
    ensures
        r@ == uuid_text(value),
{
    uuid::Uuid::from_u128(value).to_string()
}

/// Calls `uuid::Uuid::new_v4`. The number is random but for the version and
/// variant bits, which are all that is said of it.
#[verifier::external_body]
fn random_value() -> (r: u128)
    ensures
        uuid_version(r) == 4,
        uuid_variant(r) == 2,
{
    uuid::Uuid::new_v4().as_u128()
}

/// Calls `uuid::Uuid::now_v7`. The number depends on the clock and on chance
/// but for the version and variant bits, which are all that is said of it.
#[verifier::external_body]
fn time_ordered_value() -> (r: u128)
    ensures
        uuid_version(r) == 7,
        uuid_variant(r) == 2,
{
    uuid::Uuid::now_v7().as_u128()
}

/// The version digit of a UUID.
pub open spec fn uuid_version(value: u128) -> u128 {
    (value >> 76) & 0xf
}

/// The two variant bits of a UUID.
pub open spec fn uuid_variant(value: u128) -> u128 {
    (value >> 62) & 0x3
}

impl Uuid {
    /// The UUID's bytes, in order.
    pub open spec fn bytes(self) -> Seq<u8> {
        Seq::new(16, |i: int| uuid_byte(self.value, i))
    }

    /// The UUID in its usual form.
    pub open spec fn text(self) -> Seq<char> {
        uuid_text(self.value)
    }

    /// The UUID of all zero bits.
    pub fn nil() -> (r: Uuid)
        ensures
            r.value == 0,
    {
        Uuid { value: 0 }
    }

    /// Byte `i`, the most significant one first.
    pub fn byte(&self, i: usize) -> (r: u8)
        requires
            i < 16,
        ensures
            r == self.bytes()[i as int],
    {
        let shift: u128 = (8 * (15 - i)) as u128;
        ((self.value >> shift) & 0xff) as u8
    }

    /// Whether this identifier comes no later than `other` in the order of
    /// identifiers.
    pub fn at_most(&self, other: &Uuid) -> (r: bool)
        ensures
            r == (self.value <= other.value),
    {
        self.value <= other.value
    }

    /// Reads an identifier from text, or nothing where the text is not one.
    pub fn parse_str(text: &str) -> (r: Option<Uuid>)
        ensures
            r == (match uuid_parsed(text@) {
                Some(value) => Some(Uuid { value }),
                None => None,
            }),
            forall|id: Uuid| text@ == #[trigger] id.text() ==> r == Some(id),
    {
        let parsed = parse_value(text);
        assert forall|id: Uuid| text@ == #[trigger] id.text() implies parsed == Some(id.value) by {
            assert(text@ == uuid_text(id.value));
        }
        match parsed {
            Some(value) => Some(Uuid { value }),
            None => None,
        }
    }

    /// The identifier in its usual form.
    pub fn to_text(&self) -> (r: String)
        ensures
            r@ == self.text(),
    {
        value_text(self.value)
    }

    /// A fresh random identifier.
    pub fn new_v4() -> (r: Uuid)
        ensures
            uuid_version(r.value) == 4,
            uuid_variant(r.value) == 2,
    {
        Uuid { value: random_value() }
    }

    /// A fresh identifier whose order follows the time it was made.
    pub fn now_v7() -> (r: Uuid)
        ensures
            uuid_version(r.value) == 7,
            uuid_variant(r.value) == 2,
    {
        Uuid { value: time_ordered_value() }
    }
}

/// An identifier is made of its bytes: byte `i` is the number divided by
/// `256^(15 - i)`, without what is above, and two identifiers with the same bytes
/// are the same.
pub proof fn law_bytes_make_the_identifier(a: Uuid, b: Uuid)
    ensures
        a.bytes().len() == 16,
        a.bytes()[15] == a.value % 256,
        a.bytes()[14] == (a.value / 256) % 256,
        a.bytes()[0] == a.value / 0x1_00000000_00000000_00000000_000000u128,
        a.bytes() == b.bytes() ==> a == b,
{
    let v = a.value;
    let w = b.value;
    assert(((v >> 0u128) & 0xff) as u8 == v % 256) by (bit_vector);
    assert(((v >> 8u128) & 0xff) as u8 == (v / 256) % 256) by (bit_vector);
    assert(((v >> 120u128) & 0xff) as u8 == v / 0x1_00000000_00000000_00000000_000000u128)
        by (bit_vector);
    if a.bytes() == b.bytes() {
        assert forall|i: int| 0 <= i < 16 implies #[trigger] uuid_byte(v, i) == uuid_byte(w, i) by {
            assert(a.bytes()[i] == b.bytes()[i]);
        }
        assert(uuid_byte(v, 0) == uuid_byte(w, 0));
        assert(uuid_byte(v, 1) == uuid_byte(w, 1));
        assert(uuid_byte(v, 2) == uuid_byte(w, 2));
        assert(uuid_byte(v, 3) == uuid_byte(w, 3));
        assert(uuid_byte(v, 4) == uuid_byte(w, 4));
        assert(uuid_byte(v, 5) == uuid_byte(w, 5));
        assert(uuid_byte(v, 6) == uuid_byte(w, 6));
        assert(uuid_byte(v, 7) == uuid_byte(w, 7));
        assert(uuid_byte(v, 8) == uuid_byte(w, 8));
        assert(uuid_byte(v, 9) == uuid_byte(w, 9));
        assert(uuid_byte(v, 10) == uuid_byte(w, 10));
        assert(uuid_byte(v, 11) == uuid_byte(w, 11));
        assert(uuid_byte(v, 12) == uuid_byte(w, 12));
        assert(uuid_byte(v, 13) == uuid_byte(w, 13));
        assert(uuid_byte(v, 14) == uuid_byte(w, 14));
        assert(uuid_byte(v, 15) == uuid_byte(w, 15));
        assert(v == w) by (bit_vector)
            requires
                ((v >> 120u128) & 0xff) as u8 == ((w >> 120u128) & 0xff) as u8,
                ((v >> 112u128) & 0xff) as u8 == ((w >> 112u128) & 0xff) as u8,
                ((v >> 104u128) & 0xff) as u8 == ((w >> 104u128) & 0xff) as u8,
                ((v >> 96u128) & 0xff) as u8 == ((w >> 96u128) & 0xff) as u8,
                ((v >> 88u128) & 0xff) as u8 == ((w >> 88u128) & 0xff) as u8,
                ((v >> 80u128) & 0xff) as u8 == ((w >> 80u128) & 0xff) as u8,
                ((v >> 72u128) & 0xff) as u8 == ((w >> 72u128) & 0xff) as u8,
                ((v >> 64u128) & 0xff) as u8 == ((w >> 64u128) & 0xff) as u8,
                ((v >> 56u128) & 0xff) as u8 == ((w >> 56u128) & 0xff) as u8,
                ((v >> 48u128) & 0xff) as u8 == ((w >> 48u128) & 0xff) as u8,
                ((v >> 40u128) & 0xff) as u8 == ((w >> 40u128) & 0xff) as u8,
                ((v >> 32u128) & 0xff) as u8 == ((w >> 32u128) & 0xff) as u8,
                ((v >> 24u128) & 0xff) as u8 == ((w >> 24u128) & 0xff) as u8,
                ((v >> 16u128) & 0xff) as u8 == ((w >> 16u128) & 0xff) as u8,
                ((v >> 8u128) & 0xff) as u8 == ((w >> 8u128) & 0xff) as u8,
                ((v >> 0u128) & 0xff) as u8 == ((w >> 0u128) & 0xff) as u8,
        ;
    }
}

} // verus!
