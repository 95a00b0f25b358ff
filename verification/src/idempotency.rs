//! Idempotency keys and request hashes.
//!
//! A client names each request with an idempotency key. The first request with
//! a key is carried out; a later one with the same key and the same body gets
//! the answer to the first, and one with another body is refused. Bodies are
//! compared by their SHA-256 hash.
use sha2::Digest;
use vstd::prelude::*;
use vstd::string::*;

use crate::hexadecimal::{encode, hex_text};
use crate::text::{joined, nat_text, u64_text};

verus! {

/// The largest number of characters in an idempotency key.
pub const MAX_KEY_LENGTH: usize = 64;

/// The SHA-256 digest of a sequence of bytes.
pub uninterp spec fn sha256_digest(bytes: Seq<u8>) -> Seq<u8>;

/// Calls `sha2::Sha256`: a new hasher, updated with the bytes and finalized.
/// The digest depends on the bytes alone and has 32 bytes.
#[verifier::external_body]
fn sha256(bytes: &[u8]) -> (r: Vec<u8>)
    ensures
        r@ == sha256_digest(bytes@),
        r@.len() == 32,
{
    let mut hasher = sha2::Sha256::new();
    hasher.update(bytes);
    hasher.finalize().to_vec()
}

/// Whether a character is an ASCII letter or digit.
pub open spec fn ascii_alphanumeric(c: char) -> bool {
    ('a' <= c <= 'z') || ('A' <= c <= 'Z') || ('0' <= c <= '9')
}

/// Whether a character may stand in an idempotency key.
pub open spec fn key_char(c: char) -> bool {
    ascii_alphanumeric(c) || c == '-' || c == '_'
}

/// Whether a character may stand in an idempotency key.
fn is_key_char(c: char) -> (r: bool)
    ensures
        r == key_char(c),
{
    ('a' <= c && c <= 'z') || ('A' <= c && c <= 'Z') || ('0' <= c && c <= '9') || c == '-' || c
        == '_'
}

/// A digest as text, in hexadecimal.
pub fn hash_text(digest: &[u8]) -> (r: String)
    ensures
        r@ == hex_text(digest@),
{
    encode(digest)
}

/// The hash of a canonical request body: SHA-256, in hexadecimal. A body is
/// canonical when it is JSON with its keys in alphabetical order and without
/// white space.
pub fn compute_request_hash(body: &[u8]) -> (r: String)
    ensures
        r@ == hex_text(sha256_digest(body@)),
        r@.len() == 64,
{
    let digest = sha256(body);
    hash_text(digest.as_slice())
}

/// Why text is not an idempotency key.
#[derive(Debug, Clone, Copy, PartialEq, Eq, Structural)]
pub enum IdempotencyKeyError {
    Empty,
    /// The key is too long; the number is its length in characters.
    TooLong(usize),
    InvalidChars,
}

impl IdempotencyKeyError {
    /// The error in words.
    pub open spec fn text(self) -> Seq<char> {
        match self {
            IdempotencyKeyError::Empty => "idempotency key is empty"@,
            IdempotencyKeyError::TooLong(n) => "idempotency key too long: "@ + nat_text(n as nat)
                + " chars (max 64)"@,
            IdempotencyKeyError::InvalidChars =>
                "idempotency key contains invalid characters (allowed: a-z, A-Z, 0-9, -, _)"@,
        }
    }

    /// The error in words.
    pub fn to_text(&self) -> (r: String)
        ensures
            r@ == self.text(),
    {
        match self {
            IdempotencyKeyError::Empty => "idempotency key is empty".to_string(),
            IdempotencyKeyError::TooLong(n) => {
                let mut r = joined("idempotency key too long: ", u64_text(*n as u64).as_str());
                r.append(" chars (max 64)");
                r
            },
            IdempotencyKeyError::InvalidChars =>
                "idempotency key contains invalid characters (allowed: a-z, A-Z, 0-9, -, _)".to_string(),
        }
    }
}

/// What is wrong with text as an idempotency key, if anything. Length comes
/// before content.
pub open spec fn key_error(raw: Seq<char>) -> Option<IdempotencyKeyError> {
    if raw.len() == 0 {
        Some(IdempotencyKeyError::Empty)
    } else if raw.len() > MAX_KEY_LENGTH {
        Some(IdempotencyKeyError::TooLong(raw.len() as usize))
    } else if exists|i: int| 0 <= i < raw.len() && !key_char(#[trigger] raw[i]) {
        Some(IdempotencyKeyError::InvalidChars)
    } else {
        None
    }
}

/// An idempotency key. Keys are checked when they are made.
#[derive(Debug, PartialEq, Eq)]
pub struct IdempotencyKey(String);

impl Clone for IdempotencyKey {
    fn clone(&self) -> (r: Self)
        ensures
            r@ == self@,
    {
        proof {
            use_type_invariant(self);
        }
        IdempotencyKey(self.0.clone())
    }
}

impl View for IdempotencyKey {
    type V = Seq<char>;

    closed spec fn view(&self) -> Seq<char> {
        self.0@
    }
}

impl IdempotencyKey {
    #[verifier::type_invariant]
    spec fn checked(self) -> bool {
        key_error(self.0@) is None
    }

    /// Takes text as an idempotency key, or says what is wrong with it.
    pub fn new(raw: &str) -> (r: Result<IdempotencyKey, IdempotencyKeyError>)
        ensures
            r is Ok <==> key_error(raw@) is None,
            r matches Ok(key) ==> key@ == raw@,
            r matches Err(e) ==> Some(e) == key_error(raw@),
    {
        let length: usize = raw.unicode_len();
        if length == 0 {
            return Err(IdempotencyKeyError::Empty);
        }
        if length > MAX_KEY_LENGTH {
            return Err(IdempotencyKeyError::TooLong(length));
        }
        let mut i: usize = 0;
        while i < length
            invariant
                i <= length == raw@.len(),
                forall|j: int| 0 <= j < i ==> key_char(#[trigger] raw@[j]),
                0 < raw@.len() <= MAX_KEY_LENGTH,
            decreases length - i,
        {
            let c = raw.get_char(i);
            if !is_key_char(c) {
                assert(!key_char(raw@[i as int]));
                return Err(IdempotencyKeyError::InvalidChars);
            }
            i = i + 1;
        }
        Ok(IdempotencyKey(raw.to_string()))
    }

    /// The key as text.
    pub fn as_str(&self) -> (r: &str)
        ensures
            r@ == self@,
            key_error(r@) is None,
    {
        proof {
            use_type_invariant(self);
        }
        self.0.as_str()
    }

    /// A copy of the key as owned text.
    pub fn to_text(&self) -> (r: String)
        ensures
            r@ == self@,
    {
        self.0.clone()
    }
}

/// Whether text is a good key, by the code points of its characters: 1 to 64 of
/// them, each a letter `A` to `Z` or `a` to `z`, a digit, a hyphen or an underscore.
pub open spec fn is_good_key(raw: Seq<char>) -> bool {
    &&& 1 <= raw.len() <= 64
    &&& forall|i: int|
        0 <= i < raw.len() ==> {
            let c = #[trigger] raw[i] as int;
            ||| 65 <= c <= 90
            ||| 97 <= c <= 122
            ||| 48 <= c <= 57
            ||| c == 45
            ||| c == 95
        }
}

/// Exactly the good keys are taken; of the others, an empty one and one that is too
/// long are told so, and the length is told, whatever their characters are.
pub proof fn law_good_keys(raw: Seq<char>)
    ensures
        key_error(raw) is None <==> is_good_key(raw),
        key_error(raw) == Some(IdempotencyKeyError::Empty) <==> raw.len() == 0,
        (key_error(raw) matches Some(IdempotencyKeyError::TooLong(_))) <==> raw.len() > 64,
        raw.len() <= usize::MAX ==> (key_error(raw) matches Some(IdempotencyKeyError::TooLong(n))
            ==> n == raw.len()),
        key_error(raw) == Some(IdempotencyKeyError::InvalidChars) <==> 1 <= raw.len() <= 64
            && !is_good_key(raw),
{
    assert forall|c: char| #[trigger] key_char(c) <==> ({
        let n = c as int;
        ||| 65 <= n <= 90
        ||| 97 <= n <= 122
        ||| 48 <= n <= 57
        ||| n == 45
        ||| n == 95
    }) by {}
    if !is_good_key(raw) && 1 <= raw.len() <= 64 {
        let i = choose|i: int|
            0 <= i < raw.len() && !({
                let c = #[trigger] raw[i] as int;
                ||| 65 <= c <= 90
                ||| 97 <= c <= 122
                ||| 48 <= c <= 57
                ||| c == 45
                ||| c == 95
            });
        assert(!key_char(raw[i]));
    }
}

/// Every part of a good key that is not empty is a good key.
pub proof fn law_parts_of_keys_are_keys(raw: Seq<char>, from: int, to: int)
    requires
        key_error(raw) is None,
        0 <= from < to <= raw.len(),
    ensures
        key_error(raw.subrange(from, to)) is None,
{
    law_good_keys(raw);
    law_good_keys(raw.subrange(from, to));
}

/// What is wrong with a key is told in words, with the length of one that is too
/// long.
pub proof fn law_key_errors_are_told(n: usize)
    ensures
        IdempotencyKeyError::TooLong(n).text() == "idempotency key too long: "@ + nat_text(n as nat)
            + " chars (max 64)"@,
        IdempotencyKeyError::Empty.text() == "idempotency key is empty"@,
        IdempotencyKeyError::InvalidChars.text()
            == "idempotency key contains invalid characters (allowed: a-z, A-Z, 0-9, -, _)"@,
{
}

} // verus!
