//! Exact decimal amounts.
//!
//! A [`Decimal`] is a signed 96-bit mantissa and a scale: the value is
//! `mantissa / 10^scale`. The arithmetic itself is that of `rust_decimal`; its
//! results are tied to the mathematical value through [`Decimal::units`], the
//! value counted in units of `10^-28`, the smallest step a decimal can take.
use vstd::arithmetic::power::pow;
use vstd::prelude::*;

use crate::text::nat_text;

verus! {

/// The largest scale a decimal can have.
pub const MAX_SCALE: u32 = 28;

/// The largest mantissa a decimal can have: 2^96 - 1.
pub const MAX_MANTISSA: i128 = 79_228_162_514_264_337_593_543_950_335;

/// Whether a mantissa and a scale are those of some decimal.
pub open spec fn in_range(mantissa: int, scale: nat) -> bool {
    &&& -MAX_MANTISSA <= mantissa <= MAX_MANTISSA
    &&& scale <= MAX_SCALE
}

/// The value `mantissa / 10^scale`, counted in units of `10^-28`.
pub open spec fn units_of(mantissa: int, scale: nat) -> int {
    mantissa * pow(10, (MAX_SCALE - scale) as nat)
}

pub open spec fn magnitude(n: int) -> int {
    if n < 0 {
        -n
    } else {
        n
    }
}

pub open spec fn larger_scale(s1: nat, s2: nat) -> nat {
    if s1 < s2 {
        s2
    } else {
        s1
    }
}

/// Whether a value fits a mantissa when it is written with a given scale.
pub open spec fn fits_scale(units: int, scale: nat) -> bool {
    magnitude(units) <= units_of(MAX_MANTISSA as int, scale)
}

/// Whether two decimals fit a mantissa when they are written with the larger of
/// their scales.
pub open spec fn align(m1: int, s1: nat, m2: int, s2: nat) -> bool {
    &&& fits_scale(units_of(m1, s1), larger_scale(s1, s2))
    &&& fits_scale(units_of(m2, s2), larger_scale(s1, s2))
}

/// Whether the sum of two decimals is exact: one of them is zero; or both, and
/// the sum, fit a mantissa when they are written with the larger scale.
pub open spec fn add_exactly(m1: int, s1: nat, m2: int, s2: nat) -> bool {
    m1 == 0 || m2 == 0 || (align(m1, s1, m2, s2) && fits_scale(
        units_of(m1, s1) + units_of(m2, s2),
        larger_scale(s1, s2),
    ))
}

/// Whether the difference of two decimals is exact: one of them is zero; or
/// both, and the difference, fit a mantissa when they are written with the larger
/// scale.
pub open spec fn subtract_exactly(m1: int, s1: nat, m2: int, s2: nat) -> bool {
    m1 == 0 || m2 == 0 || (align(m1, s1, m2, s2) && fits_scale(
        units_of(m1, s1) - units_of(m2, s2),
        larger_scale(s1, s2),
    ))
}

/// The scale of an exact sum or difference: that of the other operand when one
/// is zero, the larger of the two otherwise.
pub open spec fn combined_scale(m1: int, s1: nat, m2: int, s2: nat) -> nat {
    if m1 == 0 {
        s2
    } else if m2 == 0 {
        s1
    } else {
        larger_scale(s1, s2)
    }
}

/// Whether an outcome is the decimal with a given value and scale.
pub open spec fn denotes(outcome: Option<(i128, u32)>, units: int, scale: nat) -> bool {
    outcome matches Some(p) && units_of(p.0 as int, p.1 as nat) == units && p.1 == scale
}

/// Digits with zeros put in front until there are at least `width` of them.
pub open spec fn zero_padded(digits: Seq<char>, width: nat) -> Seq<char> {
    if digits.len() < width {
        Seq::new((width - digits.len()) as nat, |i: int| '0') + digits
    } else {
        digits
    }
}

/// A decimal in plain notation: all digits of the scale are written, and at
/// least one digit stands before the point.
pub open spec fn decimal_text(mantissa: int, scale: nat) -> Seq<char> {
    let digits = zero_padded(nat_text(magnitude(mantissa) as nat), scale + 1);
    let whole = digits.len() - scale;
    let sign = if mantissa < 0 {
        seq!['-']
    } else {
        Seq::empty()
    };
    if scale == 0 {
        sign + digits
    } else {
        sign + digits.take(whole) + seq!['.'] + digits.skip(whole)
    }
}

/// What `rust_decimal` makes of the sum of two decimals, as mantissa and scale.
pub uninterp spec fn decimal_sum(m1: i128, s1: u32, m2: i128, s2: u32) -> Option<(i128, u32)>;

/// What `rust_decimal` makes of the difference of two decimals, as mantissa and
/// scale.
pub uninterp spec fn decimal_difference(m1: i128, s1: u32, m2: i128, s2: u32) -> Option<
    (i128, u32),
>;

/// Calls `rust_decimal::Decimal::checked_add`. The outcome depends on the two
/// operands alone. It is a decimal, or nothing when the sum is too large; it is
/// the exact sum where an operand is zero, or the operands and the sum fit the
/// larger scale. Where they do not, what is rounded away is left unsaid.
#[verifier::external_body]
fn add_parts(m1: i128, s1: u32, m2: i128, s2: u32) -> (r: Option<(i128, u32)>)
    requires
        in_range(m1 as int, s1 as nat),
        in_range(m2 as int, s2 as nat),
    ensures
        r == decimal_sum(m1, s1, m2, s2),
        r matches Some(p) ==> in_range(p.0 as int, p.1 as nat),
        add_exactly(m1 as int, s1 as nat, m2 as int, s2 as nat) ==> denotes(
            r,
            units_of(m1 as int, s1 as nat) + units_of(m2 as int, s2 as nat),
            combined_scale(m1 as int, s1 as nat, m2 as int, s2 as nat),
        ),
{
    rust_decimal::Decimal::from_i128_with_scale(m1, s1)
        .checked_add(rust_decimal::Decimal::from_i128_with_scale(m2, s2))
        .map(|d| (d.mantissa(), d.scale()))
}

/// Calls `rust_decimal::Decimal::checked_sub`. The outcome depends on the two
/// operands alone. It is a decimal, or nothing when the difference is too
/// large; it is the exact difference where an operand is zero, or the operands
/// and the difference fit the larger scale. Where they do not, what is rounded
/// away is left unsaid, but for this: what a decimal leaves of one that is no
/// smaller is not negative.
#[verifier::external_body]
fn subtract_parts(m1: i128, s1: u32, m2: i128, s2: u32) -> (r: Option<(i128, u32)>)
    requires
        in_range(m1 as int, s1 as nat),
        in_range(m2 as int, s2 as nat),
    ensures
        r == decimal_difference(m1, s1, m2, s2),
        r matches Some(p) ==> in_range(p.0 as int, p.1 as nat),
        subtract_exactly(m1 as int, s1 as nat, m2 as int, s2 as nat) ==> denotes(
            r,
            units_of(m1 as int, s1 as nat) - units_of(m2 as int, s2 as nat),
            combined_scale(m1 as int, s1 as nat, m2 as int, s2 as nat),
        ),
        units_of(m1 as int, s1 as nat) >= units_of(m2 as int, s2 as nat) ==> (r matches Some(p)
            ==> p.0 >= 0),
{
    rust_decimal::Decimal::from_i128_with_scale(m1, s1)
        .checked_sub(rust_decimal::Decimal::from_i128_with_scale(m2, s2))
        .map(|d| (d.mantissa(), d.scale()))
}

/// Calls `<` on `rust_decimal::Decimal`, which compares the values, whatever
/// the scales they are written with.
#[verifier::external_body]
fn parts_less(m1: i128, s1: u32, m2: i128, s2: u32) -> (r: bool)
    requires
        in_range(m1 as int, s1 as nat),
        in_range(m2 as int, s2 as nat),
    ensures
        r == (units_of(m1 as int, s1 as nat) < units_of(m2 as int, s2 as nat)),
{
    rust_decimal::Decimal::from_i128_with_scale(m1, s1)
        < rust_decimal::Decimal::from_i128_with_scale(m2, s2)
}

/// Calls `==` on `rust_decimal::Decimal`, which compares the values, whatever
/// the scales they are written with.
#[verifier::external_body]
fn parts_equal(m1: i128, s1: u32, m2: i128, s2: u32) -> (r: bool)
    requires
        in_range(m1 as int, s1 as nat),
        in_range(m2 as int, s2 as nat),
    ensures
        r == (units_of(m1 as int, s1 as nat) == units_of(m2 as int, s2 as nat)),
{
    rust_decimal::Decimal::from_i128_with_scale(m1, s1)
        == rust_decimal::Decimal::from_i128_with_scale(m2, s2)
}

/// Calls `to_string` on `rust_decimal::Decimal`: plain notation, with every
/// digit of the scale.
#[verifier::external_body]
fn parts_text(mantissa: i128, scale: u32) -> (r: String)
    requires
        in_range(mantissa as int, scale as nat),
    ensures
        r@ == decimal_text(mantissa as int, scale as nat),
{
    rust_decimal::Decimal::from_i128_with_scale(mantissa, scale).to_string()
}

/// An exact decimal number. Two decimals are `==` when their values are equal,
/// whatever their scales.
#[derive(Debug)]
pub struct Decimal {
    mantissa: i128,
    scale: u32,
}

impl Clone for Decimal {
    fn clone(&self) -> (r: Self)
        ensures
            r == *self,
    {
        proof {
            use_type_invariant(self);
        }
        Decimal { mantissa: self.mantissa, scale: self.scale }
    }
}

impl Copy for Decimal {

}

impl PartialEq for Decimal {
    fn eq(&self, other: &Decimal) -> (r: bool) {
        proof {
            use_type_invariant(self);
            use_type_invariant(other);
        }
        parts_equal(self.mantissa, self.scale, other.mantissa, other.scale)
    }
}

impl vstd::std_specs::cmp::PartialEqSpecImpl for Decimal {
    open spec fn obeys_eq_spec() -> bool {
        true
    }

    open spec fn eq_spec(&self, other: &Decimal) -> bool {
        self.units() == other.units()
    }
}

impl Decimal {
    #[verifier::type_invariant]
    spec fn representable(self) -> bool {
        in_range(self.mantissa as int, self.scale as nat)
    }

    pub closed spec fn spec_mantissa(&self) -> i128 {
        self.mantissa
    }

    pub closed spec fn spec_scale(&self) -> u32 {
        self.scale
    }

    /// The decimal with a given mantissa and scale.
    pub closed spec fn from_parts(mantissa: i128, scale: u32) -> Decimal {
        Decimal { mantissa, scale }
    }

    /// The value, counted in units of `10^-28`.
    pub open spec fn units(self) -> int {
        units_of(self.mantissa() as int, self.scale() as nat)
    }

    /// Whether this is the mantissa and scale of some decimal.
    pub open spec fn well_formed(self) -> bool {
        in_range(self.mantissa() as int, self.scale() as nat)
    }

    /// Whether the sum with `other` is exact.
    pub open spec fn adds_exactly(self, other: Decimal) -> bool {
        add_exactly(
            self.mantissa() as int,
            self.scale() as nat,
            other.mantissa() as int,
            other.scale() as nat,
        )
    }

    /// Whether the difference with `other` is exact.
    pub open spec fn subtracts_exactly(self, other: Decimal) -> bool {
        subtract_exactly(
            self.mantissa() as int,
            self.scale() as nat,
            other.mantissa() as int,
            other.scale() as nat,
        )
    }

    /// The scale of an exact sum or difference with `other`.
    pub open spec fn combined_scale(self, other: Decimal) -> nat {
        combined_scale(
            self.mantissa() as int,
            self.scale() as nat,
            other.mantissa() as int,
            other.scale() as nat,
        )
    }

    /// The sum, where there is one.
    pub open spec fn sum(self, other: Decimal) -> Option<Decimal> {
        match decimal_sum(self.mantissa(), self.scale(), other.mantissa(), other.scale()) {
            Some(p) => Some(Decimal::from_parts(p.0, p.1)),
            None => None,
        }
    }

    /// The difference, where there is one.
    pub open spec fn difference(self, other: Decimal) -> Option<Decimal> {
        match decimal_difference(self.mantissa(), self.scale(), other.mantissa(), other.scale()) {
            Some(p) => Some(Decimal::from_parts(p.0, p.1)),
            None => None,
        }
    }

    /// The decimal in plain notation.
    pub open spec fn text(self) -> Seq<char> {
        decimal_text(self.mantissa() as int, self.scale() as nat)
    }

    #[verifier::when_used_as_spec(spec_mantissa)]
    pub fn mantissa(&self) -> (r: i128)
        ensures
            r == self.mantissa(),
            -MAX_MANTISSA <= r <= MAX_MANTISSA,
    {
        proof {
            use_type_invariant(self);
        }
        self.mantissa
    }

    #[verifier::when_used_as_spec(spec_scale)]
    pub fn scale(&self) -> (r: u32)
        ensures
            r == self.scale(),
            r <= MAX_SCALE,
    {
        proof {
            use_type_invariant(self);
        }
        self.scale
    }

    /// `num / 10^scale`.
    pub fn new(num: i64, scale: u32) -> (r: Decimal)
        requires
            scale <= MAX_SCALE,
        ensures
            r == Decimal::from_parts(num as i128, scale),
            r.mantissa() == num,
            r.scale() == scale,
    {
        Decimal { mantissa: num as i128, scale }
    }

    /// `num / 10^scale`, where that is a decimal.
    pub fn try_from_i128_with_scale(num: i128, scale: u32) -> (r: Option<Decimal>)
        ensures
            r is Some <==> in_range(num as int, scale as nat),
            r matches Some(d) ==> d == Decimal::from_parts(num, scale) && d.mantissa() == num
                && d.scale() == scale,
    {
        if scale <= MAX_SCALE && -MAX_MANTISSA <= num && num <= MAX_MANTISSA {
            Some(Decimal { mantissa: num, scale })
        } else {
            None
        }
    }

    /// Zero, written without a fraction.
    pub fn zero() -> (r: Decimal)
        ensures
            r == Decimal::from_parts(0, 0),
            r.units() == 0,
    {
        Decimal { mantissa: 0, scale: 0 }
    }

    /// Whether the value is smaller than `other`'s.
    pub fn less_than(&self, other: &Decimal) -> (r: bool)
        ensures
            r == (self.units() < other.units()),
    {
        proof {
            use_type_invariant(self);
            use_type_invariant(other);
        }
        parts_less(self.mantissa, self.scale, other.mantissa, other.scale)
    }

    /// The sum, or nothing where it is too large for a decimal.
    pub fn checked_add(&self, other: &Decimal) -> (r: Option<Decimal>)
        ensures
            r == self.sum(*other),
            r matches Some(d) ==> d.well_formed(),
            self.adds_exactly(*other) ==> r is Some && r->0.units() == self.units() + other.units()
                && r->0.scale() == self.combined_scale(*other),
    {
        proof {
            use_type_invariant(self);
            use_type_invariant(other);
        }
        match add_parts(self.mantissa, self.scale, other.mantissa, other.scale) {
            Some(p) => Some(Decimal { mantissa: p.0, scale: p.1 }),
            None => None,
        }
    }

    /// The difference, or nothing where it is too large for a decimal.
    pub fn checked_sub(&self, other: &Decimal) -> (r: Option<Decimal>)
        ensures
            r == self.difference(*other),
            r matches Some(d) ==> d.well_formed(),
            self.subtracts_exactly(*other) ==> r is Some && r->0.units() == self.units() - other.units()
                && r->0.scale() == self.combined_scale(*other),
            self.units() >= other.units() ==> (r matches Some(d) ==> d.units() >= 0),
    {
        proof {
            use_type_invariant(self);
            use_type_invariant(other);
        }
        match subtract_parts(self.mantissa, self.scale, other.mantissa, other.scale) {
            Some(p) => {
                let difference = Decimal { mantissa: p.0, scale: p.1 };
                proof {
                    lemma_units_sign(difference);
                }
                Some(difference)
            },
            None => None,
        }
    }

    /// The decimal in plain notation.
    pub fn to_text(&self) -> (r: String)
        ensures
            r@ == self.text(),
    {
        proof {
            use_type_invariant(self);
        }
        parts_text(self.mantissa, self.scale)
    }
}

/// A decimal with a mantissa that is not negative is not negative.
proof fn lemma_units_sign(d: Decimal)
    requires
        d.well_formed(),
    ensures
        d.mantissa() >= 0 ==> d.units() >= 0,
{
    let factor = pow(10, (MAX_SCALE - d.scale()) as nat);
    vstd::arithmetic::power::lemma_pow_positive(10, (MAX_SCALE - d.scale()) as nat);
    assert(d.mantissa() >= 0 ==> d.mantissa() * factor >= 0) by (nonlinear_arith)
        requires
            factor > 0,
    ;
}

/// A decimal is what its mantissa and scale say.
pub broadcast proof fn lemma_from_parts(mantissa: i128, scale: u32)
    ensures
        (#[trigger] Decimal::from_parts(mantissa, scale)).mantissa() == mantissa,
        Decimal::from_parts(mantissa, scale).scale() == scale,
{
}

} // verus!
