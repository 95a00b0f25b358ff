//! Bytes: copying them, and writing them in hexadecimal.
use vstd::prelude::*;

verus! {

/// A hexadecimal digit, in lower case.
pub open spec fn hex_char(nibble: int) -> char {
    if nibble < 10 {
        ('0' as int + nibble) as char
    } else {
        ('a' as int + (nibble - 10)) as char
    }
}

/// Digit `i` of the bytes written in hexadecimal, two digits to a byte.
pub open spec fn hex_digit(bytes: Seq<u8>, i: int) -> char {
    if i % 2 == 0 {
        hex_char(bytes[i / 2] as int / 16)
    } else {
        hex_char(bytes[i / 2] as int % 16)
    }
}

/// Bytes written in lower-case hexadecimal.
pub open spec fn hex_text(bytes: Seq<u8>) -> Seq<char> {
    Seq::new(2 * bytes.len(), |i: int| hex_digit(bytes, i))
}

/// Calls `hex::encode`, which writes two lower-case digits for each byte, the
/// high half first.
#[verifier::external_body]
pub(crate) fn encode(bytes: &[u8]) -> (r: String)
    ensures
        r@ == hex_text(bytes@),
{
    hex::encode(bytes)
}

/// A copy of some bytes.
pub(crate) fn copy_bytes(bytes: &Vec<u8>) -> (r: Vec<u8>)
    ensures
        r@ == bytes@,
{
    let mut copy: Vec<u8> = Vec::new();
    let mut i: usize = 0;
    while i < bytes.len()
        invariant
            i <= bytes@.len(),
            copy@ == bytes@.take(i as int),
        decreases bytes@.len() - i,
    {
        copy.push(bytes[i]);
        i = i + 1;
        assert(bytes@.take(i as int) =~= bytes@.take(i - 1).push(bytes@[i - 1]));
    }
    assert(bytes@.take(i as int) =~= bytes@);
    copy
}

} // verus!
