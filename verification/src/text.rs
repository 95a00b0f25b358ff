//! Reading and building text: white space, separators, prefixes, and numbers in
//! decimal.
use vstd::prelude::*;
use vstd::string::*;

verus! {

/// The character for a decimal digit.
pub open spec fn digit_char(d: nat) -> char
    recommends
        d < 10,
{
    ('0' as nat + d) as char
}

/// A natural number in decimal, without leading zeros.
pub open spec fn nat_text(n: nat) -> Seq<char>
    decreases n,
{
    if n < 10 {
        seq![digit_char(n)]
    } else {
        nat_text(n / 10).push(digit_char(n % 10))
    }
}

/// An integer in decimal, with a minus sign when it is negative.
pub open spec fn int_text(n: int) -> Seq<char> {
    if n < 0 {
        seq!['-'] + nat_text((-n) as nat)
    } else {
        nat_text(n as nat)
    }
}

/// The text of an optional string.
pub open spec fn optional_text(text: Option<String>) -> Option<Seq<char>> {
    match text {
        Some(s) => Some(s@),
        None => None,
    }
}

/// Compares two pieces of text character by character.
pub fn same_text(a: &str, b: &str) -> (r: bool)
    ensures
        r == (a@ == b@),
{
    a.to_owned() == b.to_owned()
}

/// Two pieces of text joined.
pub fn joined(a: &str, b: &str) -> (r: String)
    ensures
        r@ == a@ + b@,
{
    let mut r = a.to_string();
    r.append(b);
    r
}

fn digit_text(d: u64) -> (r: &'static str)
    requires
        d < 10,
    ensures
        r@ == seq![digit_char(d as nat)],
{
    proof {
        reveal_strlit("0");
        reveal_strlit("1");
        reveal_strlit("2");
        reveal_strlit("3");
        reveal_strlit("4");
        reveal_strlit("5");
        reveal_strlit("6");
        reveal_strlit("7");
        reveal_strlit("8");
        reveal_strlit("9");
    }
    let r = match d {
        0 => "0",
        1 => "1",
        2 => "2",
        3 => "3",
        4 => "4",
        5 => "5",
        6 => "6",
        7 => "7",
        8 => "8",
        _ => "9",
    };
    assert(r@ =~= seq![digit_char(d as nat)]);
    r
}

/// A natural number in decimal.
pub fn u64_text(n: u64) -> (r: String)
    ensures
        r@ == nat_text(n as nat),
    decreases n,
{
    if n < 10 {
        digit_text(n).to_string()
    } else {
        let mut r = u64_text(n / 10);
        let ghost head = r@;
        r.append(digit_text(n % 10));
        assert(r@ =~= head.push(digit_char((n % 10) as nat)));
        r
    }
}

/// An integer in decimal.
pub fn i64_text(n: i64) -> (r: String)
    ensures
        r@ == int_text(n as int),
{
    if n < 0 {
        proof {
            reveal_strlit("-");
        }
        let mut r = "-".to_string();
        assert(r@ =~= seq!['-']);
        if n == i64::MIN {
            r.append(u64_text(0x8000_0000_0000_0000).as_str());
        } else {
            r.append(u64_text((-n) as u64).as_str());
        }
        r
    } else {
        u64_text(n as u64)
    }
}

/// Whether a character is white space, as Unicode's `White_Space` property has
/// it.
pub open spec fn space(c: char) -> bool {
    ||| '\u{9}' <= c <= '\u{d}'
    ||| c == ' '
    ||| c == '\u{85}'
    ||| c == '\u{a0}'
    ||| c == '\u{1680}'
    ||| '\u{2000}' <= c <= '\u{200a}'
    ||| c == '\u{2028}'
    ||| c == '\u{2029}'
    ||| c == '\u{202f}'
    ||| c == '\u{205f}'
    ||| c == '\u{3000}'
}

/// Whether a character is white space.
pub fn is_space(c: char) -> (r: bool)
    ensures
        r == space(c),
{
    ('\u{9}' <= c && c <= '\u{d}') || c == ' ' || c == '\u{85}' || c == '\u{a0}' || c == '\u{1680}'
        || ('\u{2000}' <= c && c <= '\u{200a}') || c == '\u{2028}' || c == '\u{2029}' || c
        == '\u{202f}' || c == '\u{205f}' || c == '\u{3000}'
}

/// Text without the white space that it starts with.
pub open spec fn trimmed_start(s: Seq<char>) -> Seq<char>
    decreases s.len(),
{
    if s.len() > 0 && space(s[0]) {
        trimmed_start(s.drop_first())
    } else {
        s
    }
}

/// Text without the white space that it ends with.
pub open spec fn trimmed_end(s: Seq<char>) -> Seq<char>
    decreases s.len(),
{
    if s.len() > 0 && space(s.last()) {
        trimmed_end(s.drop_last())
    } else {
        s
    }
}

/// Text without the white space around it.
pub open spec fn trimmed(s: Seq<char>) -> Seq<char> {
    trimmed_end(trimmed_start(s))
}

/// Removes the white space around text.
pub fn trim(s: &str) -> (r: &str)
    ensures
        r@ == trimmed(s@),
{
    let count: usize = s.unicode_len();
    let mut from: usize = 0;
    assert(s@.skip(0) =~= s@);
    while from < count && is_space(s.get_char(from))
        invariant
            from <= count == s@.len(),
            trimmed_start(s@) == trimmed_start(s@.skip(from as int)),
        decreases count - from,
    {
        assert(s@.skip(from as int).drop_first() =~= s@.skip(from + 1));
        from = from + 1;
    }
    let ghost start = s@.skip(from as int);
    assert(trimmed_start(s@) == start);
    let mut to: usize = count;
    assert(s@.subrange(from as int, to as int) =~= start);
    while from < to && is_space(s.get_char(to - 1))
        invariant
            from <= to <= count == s@.len(),
            start == s@.skip(from as int),
            trimmed_end(start) == trimmed_end(s@.subrange(from as int, to as int)),
        decreases to - from,
    {
        assert(s@.subrange(from as int, to as int).drop_last() =~= s@.subrange(
            from as int,
            to - 1,
        ));
        to = to - 1;
    }
    s.substring_char(from, to)
}

/// The number of characters before the first `c`: all of them where there is
/// none.
pub open spec fn split_point(s: Seq<char>, c: char) -> nat
    decreases s.len(),
{
    if s.len() == 0 || s[0] == c {
        0
    } else {
        1 + split_point(s.drop_first(), c)
    }
}

/// Counts the characters before the first `c`.
pub fn find_char(s: &str, c: char) -> (r: usize)
    ensures
        r == split_point(s@, c),
        r <= s@.len(),
        r < s@.len() ==> s@[r as int] == c,
        forall|j: int| 0 <= j < r ==> s@[j] != c,
{
    let count: usize = s.unicode_len();
    let mut i: usize = 0;
    assert(s@.skip(0) =~= s@);
    while i < count && s.get_char(i) != c
        invariant
            i <= count == s@.len(),
            split_point(s@, c) == i + split_point(s@.skip(i as int), c),
            forall|j: int| 0 <= j < i ==> s@[j] != c,
        decreases count - i,
    {
        assert(s@.skip(i as int).drop_first() =~= s@.skip(i + 1));
        i = i + 1;
    }
    i
}

/// Whether text starts with `prefix`.
pub fn has_prefix(s: &str, prefix: &str) -> (r: bool)
    ensures
        r == prefix@.is_prefix_of(s@),
{
    let count: usize = prefix.unicode_len();
    if s.unicode_len() < count {
        return false;
    }
    let head = s.substring_char(0, count);
    let r = same_text(head, prefix);
    proof {
        if prefix@.is_prefix_of(s@) {
            assert(head@ =~= prefix@);
        }
    }
    r
}

/// Text without its first `count` characters.
pub fn skip_chars(s: &str, count: usize) -> (r: &str)
    requires
        count <= s@.len(),
    ensures
        r@ == s@.skip(count as int),
{
    let end: usize = s.unicode_len();
    assert(s@.skip(count as int) =~= s@.subrange(count as int, s@.len() as int));
    s.substring_char(count, end)
}

/// The first `count` characters of text.
pub fn take_chars(s: &str, count: usize) -> (r: &str)
    requires
        count <= s@.len(),
    ensures
        r@ == s@.take(count as int),
{
    s.substring_char(0, count)
}

/// Whether every character is a decimal digit.
pub open spec fn all_digits(s: Seq<char>) -> bool {
    forall|i: int| 0 <= i < s.len() ==> '0' <= #[trigger] s[i] <= '9'
}

/// The number that a sequence of decimal digits denotes.
pub open spec fn digits_value(digits: Seq<char>) -> nat
    decreases digits.len(),
{
    if digits.len() == 0 {
        0
    } else {
        digits_value(digits.drop_last()) * 10 + (digits.last() as nat - '0' as nat) as nat
    }
}

/// The `u32` that text denotes: decimal digits, with one plus sign allowed in
/// front.
pub open spec fn u32_of(text: Seq<char>) -> Option<u32> {
    let digits = if text.len() > 0 && text[0] == '+' {
        text.skip(1)
    } else {
        text
    };
    if digits.len() > 0 && all_digits(digits) && digits_value(digits) <= u32::MAX {
        Some(digits_value(digits) as u32)
    } else {
        None
    }
}

proof fn lemma_digits_value_grows(digits: Seq<char>, i: int)
    requires
        0 <= i <= digits.len(),
    ensures
        digits_value(digits.take(i)) <= digits_value(digits),
    decreases digits.len() - i,
{
    if i < digits.len() {
        let next = digits.take(i + 1);
        assert(next.drop_last() =~= digits.take(i));
        assert(digits_value(next) >= digits_value(digits.take(i)));
        lemma_digits_value_grows(digits, i + 1);
    } else {
        assert(digits.take(i) =~= digits);
    }
}

/// Reads a `u32`.
pub fn parse_u32(text: &str) -> (r: Option<u32>)
    ensures
        r == u32_of(text@),
{
    let total: usize = text.unicode_len();
    let signed = total > 0 && text.get_char(0) == '+';
    let digits = if signed {
        skip_chars(text, 1)
    } else {
        text
    };
    let count: usize = digits.unicode_len();
    if count == 0 {
        return None;
    }
    let mut value: u32 = 0;
    let mut i: usize = 0;
    while i < count
        invariant
            i <= count == digits@.len(),
            count > 0,
            digits@ == (if text@.len() > 0 && text@[0] == '+' {
                text@.skip(1)
            } else {
                text@
            }),
            all_digits(digits@.take(i as int)),
            value == digits_value(digits@.take(i as int)),
        decreases count - i,
    {
        let c = digits.get_char(i);
        if !('0' <= c && c <= '9') {
            assert(!all_digits(digits@)) by {
                assert(digits@[i as int] == c);
            }
            return None;
        }
        let digit: u32 = c as u32 - '0' as u32;
        let ghost next = digits@.take(i + 1);
        assert(next.drop_last() =~= digits@.take(i as int));
        assert(all_digits(next)) by {
            assert forall|j: int| 0 <= j < next.len() implies '0' <= #[trigger] next[j] <= '9' by {
                if j < i {
                    assert(next[j] == digits@.take(i as int)[j]);
                }
            }
        }
        let wide: u64 = value as u64 * 10 + digit as u64;
        if wide > u32::MAX as u64 {
            proof {
                lemma_digits_value_grows(digits@, i + 1);
            }
            return None;
        }
        value = wide as u32;
        i = i + 1;
    }
    assert(digits@.take(count as int) =~= digits@);
    Some(value)
}

/// A number that is written down reads back: its digits denote it, there is at
/// least one, and the first is zero only for zero itself.
pub proof fn law_numbers_read_back(n: nat)
    ensures
        nat_text(n).len() > 0,
        all_digits(nat_text(n)),
        digits_value(nat_text(n)) == n,
        nat_text(n)[0] == '0' ==> n == 0,
    decreases n,
{
    if n < 10 {
        let text = nat_text(n);
        assert(text.drop_last() =~= Seq::empty());
        assert(digits_value(Seq::<char>::empty()) == 0);
        assert(text.last() as nat == '0' as nat + n);
    } else {
        let head = nat_text(n / 10);
        let text = nat_text(n);
        law_numbers_read_back(n / 10);
        assert(text.drop_last() =~= head);
        assert(text.last() as nat == '0' as nat + n % 10);
        assert(text[0] == head[0]);
        assert forall|i: int| 0 <= i < text.len() implies '0' <= #[trigger] text[i] <= '9' by {
            if i < head.len() {
                assert(text[i] == head[i]);
            }
        }
    }
}

/// A `u32` that is written down, with or without a plus sign, is read as what it
/// is; nothing but digits behind an optional plus sign is read at all.
pub proof fn law_u32_reads_back(n: u32, text: Seq<char>)
    ensures
        u32_of(nat_text(n as nat)) == Some(n),
        u32_of(seq!['+'] + nat_text(n as nat)) == Some(n),
        u32_of(text) is Some ==> text.len() > 0 && (text[0] == '+' || '0' <= text[0] <= '9')
            && forall|i: int| 1 <= i < text.len() ==> '0' <= #[trigger] text[i] <= '9',
{
    law_numbers_read_back(n as nat);
    let digits = nat_text(n as nat);
    assert('0' <= digits[0] <= '9');
    let signed = seq!['+'] + digits;
    assert(signed.skip(1) =~= digits);
    if u32_of(text) is Some {
        if text[0] == '+' {
            assert forall|i: int| 1 <= i < text.len() implies '0' <= #[trigger] text[i] <= '9' by {
                assert(text.skip(1)[i - 1] == text[i]);
            }
        }
    }
}

/// A negative number is written as its opposite behind a minus sign.
pub proof fn law_negative_numbers_have_a_sign(n: nat)
    ensures
        int_text(n as int) == nat_text(n),
        n > 0 ==> int_text(-(n as int)) == seq!['-'] + nat_text(n),
{
}

/// White space is what Unicode says it is, by code points.
pub proof fn law_white_space(c: char)
    ensures
        ({
            let n = c as int;
            space(c) <==> (9 <= n <= 13 || n == 32 || n == 0x85 || n == 0xa0 || n == 0x1680
                || 0x2000 <= n <= 0x200a || n == 0x2028 || n == 0x2029 || n == 0x202f || n
                == 0x205f || n == 0x3000)
        }),
{
}

/// Trimming takes away the white space around text and nothing else: what is left
/// is a part of the text that neither starts nor ends with white space, and all
/// around it is white space.
pub proof fn law_trimming_takes_white_space_only(s: Seq<char>)
    ensures
        trimmed(s).len() > 0 ==> !space(trimmed(s)[0]) && !space(trimmed(s).last()),
        exists|from: int, to: int| #[trigger] is_core(s, from, to) && trimmed(s) == s.subrange(from, to),
{
    lemma_trimmed_start(s);
    let start = trimmed_start(s);
    let from = s.len() - start.len();
    lemma_trimmed_end(start);
    let to = from + trimmed_end(start).len();
    assert(trimmed(s) =~= s.subrange(from, to));
    assert(is_core(s, from, to)) by {
        assert forall|i: int| to <= i < s.len() implies space(#[trigger] s[i]) by {
            assert(start[i - from] == s[i]);
        }
    }
    if trimmed(s).len() > 0 {
        assert(trimmed(s)[0] == start[0]);
    }
}

/// Whether all around a part of text is white space.
pub open spec fn is_core(s: Seq<char>, from: int, to: int) -> bool {
    &&& 0 <= from <= to <= s.len()
    &&& forall|i: int| 0 <= i < from ==> space(#[trigger] s[i])
    &&& forall|i: int| to <= i < s.len() ==> space(#[trigger] s[i])
}

proof fn lemma_trimmed_start(s: Seq<char>)
    ensures
        ({
            let from = s.len() - trimmed_start(s).len();
            &&& 0 <= from <= s.len()
            &&& trimmed_start(s) == s.skip(from)
            &&& forall|i: int| 0 <= i < from ==> space(#[trigger] s[i])
            &&& trimmed_start(s).len() > 0 ==> !space(trimmed_start(s)[0])
        }),
    decreases s.len(),
{
    if s.len() > 0 && space(s[0]) {
        let rest = s.drop_first();
        lemma_trimmed_start(rest);
        let from = rest.len() - trimmed_start(rest).len();
        assert(rest.skip(from) =~= s.skip(from + 1));
        assert forall|i: int| 0 <= i < from + 1 implies space(#[trigger] s[i]) by {
            if i > 0 {
                assert(rest[i - 1] == s[i]);
            }
        }
    } else {
        assert(s.skip(0) =~= s);
    }
}

proof fn lemma_trimmed_end(s: Seq<char>)
    ensures
        ({
            let to = trimmed_end(s).len() as int;
            &&& to <= s.len()
            &&& trimmed_end(s) == s.take(to)
            &&& forall|i: int| to <= i < s.len() ==> space(#[trigger] s[i])
            &&& to > 0 ==> !space(s[to - 1])
        }),
    decreases s.len(),
{
    if s.len() > 0 && space(s.last()) {
        let rest = s.drop_last();
        lemma_trimmed_end(rest);
        let to = trimmed_end(rest).len() as int;
        assert(rest.take(to) =~= s.take(to));
        assert forall|i: int| to <= i < s.len() implies space(#[trigger] s[i]) by {
            if i < rest.len() {
                assert(rest[i] == s[i]);
            }
        }
    } else {
        assert(s.take(s.len() as int) =~= s);
    }
}

/// Text without white space around it stays as it is when it is trimmed.
pub proof fn law_trimmed_text_stays(s: Seq<char>)
    requires
        s.len() > 0 ==> !space(s[0]) && !space(s.last()),
    ensures
        trimmed(s) == s,
{
}

/// The first separator splits text: before it there is none.
pub proof fn law_first_separator_splits(a: Seq<char>, c: char, b: Seq<char>)
    requires
        !a.contains(c),
    ensures
        split_point(a + seq![c] + b, c) == a.len(),
        split_point(a, c) == a.len(),
    decreases a.len(),
{
    let s = a + seq![c] + b;
    if a.len() > 0 {
        assert(s[0] == a[0]);
        assert(a.contains(a[0]));
        let rest = a.drop_first();
        assert(!rest.contains(c)) by {
            if rest.contains(c) {
                let i = rest.index_of(c);
                assert(rest[i] == c);
                assert(a[i + 1] == c);
            }
        }
        law_first_separator_splits(rest, c, b);
        assert(s.drop_first() =~= rest + seq![c] + b);
    } else {
        assert(s[0] == c);
    }
}

} // verus!
