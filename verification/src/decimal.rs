//! Exact decimal numbers: an integer mantissa with a count of fractional
//! digits. The arithmetic itself is done by the `rust_decimal` crate; this
//! module states what that arithmetic yields, in terms of plain integers.

use crate::text::{digit, repeated};
use std::cmp::Ordering;
use std::str::FromStr;
use vstd::prelude::*;
use vstd::std_specs::cmp::PartialEqSpecImpl;

verus! {

/// Largest magnitude of a mantissa: `2^96 - 1`.
pub const MAX_MANTISSA: i128 = 79_228_162_514_264_337_593_543_950_335i128;

/// Largest number of fractional digits.
pub const MAX_SCALE: u32 = 28u32;

/// `10^n`.
pub open spec fn pow10(n: nat) -> int
    decreases n,
{
    if n == 0 {
        1
    } else {
        10 * pow10((n - 1) as nat)
    }
}

/// The digits of a natural number in decimal notation, the most
/// significant first; none for zero.
pub open spec fn digits_of(n: nat) -> Seq<char>
    decreases n,
{
    if n == 0 {
        Seq::empty()
    } else {
        digits_of(n / 10).push(digit(n % 10))
    }
}

/// The longest text that a decimal can be written into with a fixed
/// number of fractional digits.
pub const MAX_FIXED_TEXT: usize = 32usize;

/// What a decimal denotes: the number `mantissa / 10^scale`.
pub struct Parts {
    pub mantissa: int,
    pub scale: nat,
}

impl Parts {
    /// The mantissa fits in 96 bits and there are at most 28 fractional digits.
    pub open spec fn wf(self) -> bool {
        &&& -MAX_MANTISSA <= self.mantissa <= MAX_MANTISSA
        &&& self.scale <= MAX_SCALE
    }

    /// The denoted number in units of `10^-28`; an integer for every
    /// well-formed value, so two decimals denote the same number exactly
    /// when their units agree.
    pub open spec fn units(self) -> int {
        self.mantissa * pow10((MAX_SCALE - self.scale) as nat)
    }

    /// Whether this number is at most the other.
    pub open spec fn le(self, other: Parts) -> bool {
        self.units() <= other.units()
    }

    /// Whether this number is less than the other.
    pub open spec fn lt(self, other: Parts) -> bool {
        self.units() < other.units()
    }

    /// Whether this number is at least the other.
    pub open spec fn ge(self, other: Parts) -> bool {
        self.units() >= other.units()
    }

    /// Whether both denote the same number, whatever their scales.
    pub open spec fn same_number(self, other: Parts) -> bool {
        self.units() == other.units()
    }

    /// The mantissa without its sign.
    pub open spec fn magnitude(self) -> nat {
        if self.mantissa < 0 {
            (-self.mantissa) as nat
        } else {
            self.mantissa as nat
        }
    }

    /// The digits of the mantissa, with zeros before them where there are
    /// fewer than fractional digits.
    pub open spec fn digits(self) -> Seq<char> {
        let d = digits_of(self.magnitude());
        if d.len() < self.scale {
            repeated('0', (self.scale - d.len()) as nat) + d
        } else {
            d
        }
    }

    /// The number of digits before the point.
    pub open spec fn whole_length(self) -> nat {
        (self.digits().len() - self.scale) as nat
    }

    /// The digits before the point; a zero where there is none.
    pub open spec fn whole_text(self) -> Seq<char> {
        if self.whole_length() == 0 {
            seq!['0']
        } else {
            self.digits().take(self.whole_length() as int)
        }
    }

    /// The first `places` digits after the point: the fractional digits,
    /// cut off or filled up with zeros.
    pub open spec fn fraction_text(self, places: nat) -> Seq<char> {
        let f = self.digits().skip(self.whole_length() as int);
        if places <= self.scale {
            f.take(places as int)
        } else {
            f + repeated('0', (places - self.scale) as nat)
        }
    }

    /// The decimal written out with `places` fractional digits: a minus
    /// sign where it is negative, the digits before the point, and, where
    /// `places` is not zero, the point and the digits after it. Digits
    /// beyond `places` are cut off, not rounded.
    pub open spec fn text_fixed(self, places: nat) -> Seq<char> {
        (if self.mantissa < 0 {
            seq!['-']
        } else {
            Seq::empty()
        }) + self.whole_text() + (if places > 0 {
            seq!['.'] + self.fraction_text(places)
        } else {
            Seq::empty()
        })
    }

    /// The decimal written out with all its fractional digits.
    pub open spec fn text(self) -> Seq<char> {
        self.text_fixed(self.scale)
    }

    /// Whether the decimal can be written out with `places` fractional
    /// digits: the digits before the point, the point with a zero before
    /// it where there is no other digit, and the first 28 of the digits
    /// after the point take at most 32 characters; and the whole text is
    /// no longer than a string can be.
    pub open spec fn fits_fixed(self, places: nat) -> bool {
        let p = if places > MAX_SCALE {
            MAX_SCALE as nat
        } else {
            places
        };
        &&& self.whole_length() + p + (if p == 0 {
            0nat
        } else if self.whole_length() == 0 {
            2nat
        } else {
            1nat
        }) <= MAX_FIXED_TEXT
        &&& places <= usize::MAX / 2 - 64
    }
}

/// An exact decimal number.
#[derive(Clone, Copy, Debug)]
pub struct Decimal {
    mantissa: i128,
    scale: u32,
}

impl View for Decimal {
    type V = Parts;

    closed spec fn view(&self) -> Parts {
        Parts { mantissa: self.mantissa as int, scale: self.scale as nat }
    }
}

impl Decimal {
    /// Every decimal has a mantissa of at most 96 bits and at most 28
    /// fractional digits.
    #[verifier::type_invariant]
    pub closed spec fn well_formed(self) -> bool {
        self@.wf()
    }

    /// The decimal `mantissa / 10^scale`.
    pub fn new(mantissa: i64, scale: u32) -> (r: Decimal)
        requires
            scale <= MAX_SCALE,
        ensures
            r@ == (Parts { mantissa: mantissa as int, scale: scale as nat }),
    {
        Decimal { mantissa: mantissa as i128, scale }
    }

    /// The decimal `mantissa / 10^scale`, where both are in range.
    pub fn try_new(mantissa: i128, scale: u32) -> (r: Option<Decimal>)
        ensures
            r is Some <==> (Parts { mantissa: mantissa as int, scale: scale as nat }).wf(),
            r is Some ==> r->0@ == (Parts { mantissa: mantissa as int, scale: scale as nat }),
    {
        if scale <= MAX_SCALE && -MAX_MANTISSA <= mantissa && mantissa <= MAX_MANTISSA {
            Some(Decimal { mantissa, scale })
        } else {
            None
        }
    }

    /// The mantissa.
    pub fn mantissa(&self) -> (r: i128)
        ensures
            r == self@.mantissa,
            self@.wf(),
    {
        proof {
            use_type_invariant(self);
        }
        self.mantissa
    }

    /// The number of fractional digits.
    pub fn scale(&self) -> (r: u32)
        ensures
            r == self@.scale,
            self@.wf(),
    {
        proof {
            use_type_invariant(self);
        }
        self.scale
    }
    /// Zero, written `0`.
    pub fn zero() -> (r: Decimal)
        ensures
            r@ == (Parts { mantissa: 0, scale: 0 }),
    {
        Decimal { mantissa: 0, scale: 0 }
    }

    /// One, written `1`.
    pub fn one() -> (r: Decimal)
        ensures
            r@ == (Parts { mantissa: 1, scale: 0 }),
    {
        Decimal { mantissa: 1, scale: 0 }
    }

    /// Whether `self <= other` as numbers.
    pub fn le(&self, other: &Decimal) -> (r: bool)
        ensures
            r == self@.le(other@),
    {
        sign_of_difference(self, other) <= 0
    }

    /// Whether `self < other` as numbers.
    pub fn lt(&self, other: &Decimal) -> (r: bool)
        ensures
            r == self@.lt(other@),
    {
        sign_of_difference(self, other) < 0
    }

    /// Whether `self >= other` as numbers.
    pub fn ge(&self, other: &Decimal) -> (r: bool)
        ensures
            r == self@.ge(other@),
    {
        sign_of_difference(self, other) >= 0
    }

    /// Whether both denote the same number, whatever their scales.
    pub fn same_number(&self, other: &Decimal) -> (r: bool)
        ensures
            r == self@.same_number(other@),
    {
        sign_of_difference(self, other) == 0
    }

    /// The product, or `None` where it is too large to represent.
    pub fn checked_mul(&self, other: &Decimal) -> (r: Option<Decimal>)
        ensures
            view_of(r) == product(self@, other@),
            r is Some ==> r->0@.wf(),
    {
        product_outside(self, other)
    }

    /// The sum, or `None` where it is too large to represent.
    pub fn checked_add(&self, other: &Decimal) -> (r: Option<Decimal>)
        ensures
            view_of(r) == sum(self@, other@),
            r is Some ==> r->0@.wf(),
    {
        sum_outside(self, other)
    }

    /// Reads a decimal from its text; the error is the parser's message.
    pub fn parse(text: &str) -> (r: Result<Decimal, String>)
        ensures
            parse_outcome(r) == parsed_decimal(text@),
            r is Ok ==> r->Ok_0@.wf(),
    {
        parse_outside(text)
    }

    /// The decimal written out with all its fractional digits.
    pub fn to_text(&self) -> (r: String)
        ensures
            r@ == self@.text(),
    {
        text_outside(self)
    }

    /// Whether the decimal can be written out with `places` fractional
    /// digits.
    pub fn fits_fixed(&self, places: usize) -> (r: bool)
        ensures
            r == self@.fits_fixed(places as nat),
    {
        proof {
            use_type_invariant(self);
        }
        let start: i128 = if self.mantissa < 0 {
            -self.mantissa
        } else {
            self.mantissa
        };
        let mut n: i128 = start;
        let mut count: u128 = 0;
        while n > 0
            invariant
                0 <= n,
                count + n <= start <= MAX_MANTISSA,
                digits_of(start as nat).len() == count + digits_of(n as nat).len(),
            decreases n,
        {
            n = n / 10;
            count = count + 1;
        }
        let scale: u128 = self.scale as u128;
        let whole: u128 = if count > scale {
            count - scale
        } else {
            0
        };
        let p: u128 = if places > 28 {
            28
        } else {
            places as u128
        };
        let extra: u128 = if p == 0 {
            0
        } else if whole == 0 {
            2
        } else {
            1
        };
        whole + p + extra <= 32 && places <= usize::MAX / 2 - 64
    }

    /// The decimal written out with exactly `places` fractional digits.
    pub fn to_text_fixed(&self, places: usize) -> (r: String)
        requires
            self@.fits_fixed(places as nat),
        ensures
            r@ == self@.text_fixed(places as nat),
    {
        fixed_text_outside(self, places)
    }

    /// The decimal written out with exactly `places` fractional digits,
    /// where it can be written so.
    pub fn try_text_fixed(&self, places: usize) -> (r: Option<String>)
        ensures
            match r {
                Some(text) => self@.fits_fixed(places as nat) && text@ == self@.text_fixed(
                    places as nat,
                ),
                None => !self@.fits_fixed(places as nat),
            },
    {
        if self.fits_fixed(places) {
            Some(self.to_text_fixed(places))
        } else {
            None
        }
    }
}

impl PartialEq for Decimal {
    fn eq(&self, other: &Decimal) -> (r: bool) {
        self.same_number(other)
    }
}

impl PartialEqSpecImpl for Decimal {
    open spec fn obeys_eq_spec() -> bool {
        true
    }

    open spec fn eq_spec(&self, other: &Decimal) -> bool {
        self@.same_number(other@)
    }
}

/// The views of an optional decimal.
pub open spec fn view_of(d: Option<Decimal>) -> Option<Parts> {
    match d {
        Some(x) => Some(x@),
        None => None,
    }
}

/// A pair of mantissa and scale, read as a decimal.
pub open spec fn parts_of(p: Option<(int, nat)>) -> Option<Parts> {
    match p {
        Some((m, s)) => Some(Parts { mantissa: m, scale: s }),
        None => None,
    }
}

/// The outcome of parsing, with the decimal by its mantissa and scale and
/// the error message by its characters.
pub open spec fn parse_outcome(r: Result<Decimal, String>) -> Result<(int, nat), Seq<char>> {
    match r {
        Ok(d) => Ok((d@.mantissa, d@.scale)),
        Err(e) => Err(e@),
    }
}

/// What `rust_decimal` returns for a product that has no exact
/// representation as `a_mantissa * b_mantissa` with scale
/// `a_scale + b_scale`: a rounded value, or `None` on overflow.
pub uninterp spec fn rounded_product(
    a_mantissa: int,
    a_scale: nat,
    b_mantissa: int,
    b_scale: nat,
) -> Option<(int, nat)>;

/// What `rust_decimal` returns for a sum whose operands, brought to the
/// larger of the two scales, or whose result at that scale, do not fit the
/// mantissa: a rounded value, or `None` on overflow.
pub uninterp spec fn rounded_sum(
    a_mantissa: int,
    a_scale: nat,
    b_mantissa: int,
    b_scale: nat,
) -> Option<(int, nat)>;

/// What `rust_decimal` reads from a text: mantissa and scale, or its error
/// message.
pub uninterp spec fn parsed_decimal(text: Seq<char>) -> Result<(int, nat), Seq<char>>;

/// Mantissas and scales can simply be multiplied and added.
pub open spec fn product_is_exact(a: Parts, b: Parts) -> bool {
    &&& a.scale + b.scale <= MAX_SCALE
    &&& -MAX_MANTISSA <= a.mantissa * b.mantissa <= MAX_MANTISSA
}

/// The product of two decimals. Where a factor is zero it is plain zero;
/// where mantissas and scales can simply be multiplied and added it is
/// exact; everything else is rounded by `rust_decimal`.
pub open spec fn product(a: Parts, b: Parts) -> Option<Parts> {
    if a.mantissa == 0 || b.mantissa == 0 {
        Some(Parts { mantissa: 0, scale: 0 })
    } else if product_is_exact(a, b) {
        Some(Parts { mantissa: a.mantissa * b.mantissa, scale: a.scale + b.scale })
    } else {
        parts_of(rounded_product(a.mantissa, a.scale, b.mantissa, b.scale))
    }
}

/// The larger of two scales.
pub open spec fn wider_scale(a: Parts, b: Parts) -> nat {
    if a.scale >= b.scale {
        a.scale
    } else {
        b.scale
    }
}

/// The mantissa that `a` has at scale `scale >= a.scale`.
pub open spec fn mantissa_at(a: Parts, scale: nat) -> int {
    a.mantissa * pow10((scale - a.scale) as nat)
}

/// Both operands and their sum fit the mantissa at the wider scale.
pub open spec fn sum_is_exact(a: Parts, b: Parts) -> bool {
    let s = wider_scale(a, b);
    &&& -MAX_MANTISSA <= mantissa_at(a, s) <= MAX_MANTISSA
    &&& -MAX_MANTISSA <= mantissa_at(b, s) <= MAX_MANTISSA
    &&& -MAX_MANTISSA <= mantissa_at(a, s) + mantissa_at(b, s) <= MAX_MANTISSA
}

/// The sum of two decimals. Adding zero returns the other operand as it
/// is; where both operands fit at the wider scale, and their sum too, it is
/// exact at that scale; everything else is rounded by `rust_decimal`.
pub open spec fn sum(a: Parts, b: Parts) -> Option<Parts> {
    if a.mantissa == 0 {
        Some(b)
    } else if b.mantissa == 0 {
        Some(a)
    } else if sum_is_exact(a, b) {
        Some(
            Parts {
                mantissa: mantissa_at(a, wider_scale(a, b)) + mantissa_at(b, wider_scale(a, b)),
                scale: wider_scale(a, b),
            },
        )
    } else {
        parts_of(rounded_sum(a.mantissa, a.scale, b.mantissa, b.scale))
    }
}

/// `Ord::cmp` on `rust_decimal::Decimal`: decimals are ordered as the
/// numbers they denote, so `1.0` and `1.00` compare equal. The result is
/// -1, 0 or 1 for less, equal, greater.
#[verifier::external_body]
fn sign_of_difference(a: &Decimal, b: &Decimal) -> (r: i8)
    ensures
        r == if a@.units() < b@.units() {
            -1i8
        } else if a@.units() == b@.units() {
            0i8
        } else {
            1i8
        },
{
    let x = rust_decimal::Decimal::from_i128_with_scale(a.mantissa, a.scale);
    let y = rust_decimal::Decimal::from_i128_with_scale(b.mantissa, b.scale);
    match x.cmp(&y) {
        Ordering::Less => -1,
        Ordering::Equal => 0,
        Ordering::Greater => 1,
    }
}

/// `rust_decimal::Decimal::checked_mul`: zero where a factor is zero; the
/// product of the mantissas with the sum of the scales where those fit;
/// otherwise a rounded result, or `None` on overflow. A result always has a
/// 96-bit mantissa and at most 28 fractional digits.
#[verifier::external_body]
fn product_outside(a: &Decimal, b: &Decimal) -> (r: Option<Decimal>)
    ensures
        view_of(r) == if a@.mantissa == 0 || b@.mantissa == 0 {
            Some(Parts { mantissa: 0, scale: 0 })
        } else if product_is_exact(a@, b@) {
            Some(Parts { mantissa: a@.mantissa * b@.mantissa, scale: a@.scale + b@.scale })
        } else {
            parts_of(rounded_product(a@.mantissa, a@.scale, b@.mantissa, b@.scale))
        },
        r is Some ==> r->0@.wf(),
{
    let x = rust_decimal::Decimal::from_i128_with_scale(a.mantissa, a.scale);
    let y = rust_decimal::Decimal::from_i128_with_scale(b.mantissa, b.scale);
    match x.checked_mul(y) {
        Some(p) => Some(Decimal { mantissa: p.mantissa(), scale: p.scale() }),
        None => None,
    }
}

/// `rust_decimal::Decimal::checked_add`: the other operand where one is
/// zero; the exact sum at the wider scale where both operands and the sum
/// fit there; otherwise a rounded result, or `None` on overflow.
#[verifier::external_body]
fn sum_outside(a: &Decimal, b: &Decimal) -> (r: Option<Decimal>)
    ensures
        view_of(r) == if a@.mantissa == 0 {
            Some(b@)
        } else if b@.mantissa == 0 {
            Some(a@)
        } else if sum_is_exact(a@, b@) {
            Some(
                Parts {
                    mantissa: mantissa_at(a@, wider_scale(a@, b@)) + mantissa_at(
                        b@,
                        wider_scale(a@, b@),
                    ),
                    scale: wider_scale(a@, b@),
                },
            )
        } else {
            parts_of(rounded_sum(a@.mantissa, a@.scale, b@.mantissa, b@.scale))
        },
        r is Some ==> r->0@.wf(),
{
    let x = rust_decimal::Decimal::from_i128_with_scale(a.mantissa, a.scale);
    let y = rust_decimal::Decimal::from_i128_with_scale(b.mantissa, b.scale);
    match x.checked_add(y) {
        Some(p) => Some(Decimal { mantissa: p.mantissa(), scale: p.scale() }),
        None => None,
    }
}

/// `rust_decimal::Decimal::from_str`: the decimal that the text denotes,
/// or the parser's error, given here by its message.
#[verifier::external_body]
fn parse_outside(text: &str) -> (r: Result<Decimal, String>)
    ensures
        parse_outcome(r) == parsed_decimal(text@),
        r is Ok ==> r->Ok_0@.wf(),
{
    match rust_decimal::Decimal::from_str(text) {
        Ok(p) => Ok(Decimal { mantissa: p.mantissa(), scale: p.scale() }),
        Err(e) => Err(e.to_string()),
    }
}

/// `to_string` of `rust_decimal::Decimal`, which is its `Display`: a
/// minus sign where the decimal is negative; the digits of the mantissa
/// before the last `scale` of them, or a zero where there are none; and,
/// where the scale is not zero, a point and the last `scale` digits, with
/// zeros before the digits of the mantissa where it has fewer. The text
/// takes at most 31 characters.
#[verifier::external_body]
fn text_outside(d: &Decimal) -> (r: String)
    ensures
        r@ == d@.text(),
{
    rust_decimal::Decimal::from_i128_with_scale(d.mantissa, d.scale).to_string()
}

/// `Display` of `rust_decimal::Decimal` with a precision: as without one,
/// but with `places` digits after the point, the fractional digits cut
/// off or filled up with zeros, and no point where `places` is zero. The
/// outside function builds the text up to the 28th digit after the point
/// in a buffer of 32 characters and panics when that is full; the zeros
/// beyond the 28th digit it appends in a string, which cannot grow beyond
/// the largest `isize`. So the caller has to see that the text fits.
#[verifier::external_body]
fn fixed_text_outside(d: &Decimal, places: usize) -> (r: String)
    requires
        d@.fits_fixed(places as nat),
    ensures
        r@ == d@.text_fixed(places as nat),
{
    format!("{:.*}", places, rust_decimal::Decimal::from_i128_with_scale(d.mantissa, d.scale))
}

/// Powers of ten multiply by adding exponents, and are positive.
pub proof fn lemma_pow10_add(a: nat, b: nat)
    ensures
        pow10(a + b) == pow10(a) * pow10(b),
        pow10(a) > 0,
    decreases a,
{
    if a == 0 {
        assert(pow10(0) == 1);
        assert(pow10(a + b) == pow10(b));
    } else {
        lemma_pow10_add((a - 1) as nat, b);
        assert(pow10(a + b) == 10 * pow10((a + b - 1) as nat));
        assert(pow10(a) == 10 * pow10((a - 1) as nat));
        assert(10 * (pow10((a - 1) as nat) * pow10(b)) == (10 * pow10((a - 1) as nat)) * pow10(b))
            by (nonlinear_arith);
    }
}

/// Where a product is exact, or a factor is zero, it denotes the product
/// of the numbers: in units of `10^-28`, the units of the factors
/// multiply to `10^28` times the units of the product.
pub proof fn lemma_product_units(a: Parts, b: Parts)
    requires
        a.wf(),
        b.wf(),
        a.mantissa == 0 || b.mantissa == 0 || product_is_exact(a, b),
    ensures
        product(a, b) is Some,
        product(a, b)->0.units() * pow10(28) == a.units() * b.units(),
{
    if a.mantissa == 0 || b.mantissa == 0 {
        assert(a.units() * b.units() == 0) by (nonlinear_arith)
            requires
                a.units() == 0 || b.units() == 0,
        ;
        assert(product(a, b)->0.units() == 0);
    } else {
        let x = (28 - a.scale) as nat;
        let y = (28 - b.scale) as nat;
        let z = (28 - a.scale - b.scale) as nat;
        lemma_pow10_add(z, 28);
        lemma_pow10_add(x, y);
        assert(z + 28 == x + y);
        assert((a.mantissa * b.mantissa * pow10(z)) * pow10(28) == (a.mantissa * pow10(x)) * (
        b.mantissa * pow10(y))) by (nonlinear_arith)
            requires
                pow10(z) * pow10(28) == pow10(x) * pow10(y),
        ;
    }
}

/// Where a sum is exact, or an operand is zero, it denotes the sum of the
/// numbers.
pub proof fn lemma_sum_units(a: Parts, b: Parts)
    requires
        a.wf(),
        b.wf(),
        a.mantissa == 0 || b.mantissa == 0 || sum_is_exact(a, b),
    ensures
        sum(a, b) is Some,
        sum(a, b)->0.units() == a.units() + b.units(),
{
    if a.mantissa == 0 {
        assert(a.units() == 0);
    } else if b.mantissa == 0 {
        assert(b.units() == 0);
    } else {
        let s = wider_scale(a, b);
        let top = (28 - s) as nat;
        lemma_pow10_add((s - a.scale) as nat, top);
        lemma_pow10_add((s - b.scale) as nat, top);
        assert((s - a.scale) as nat + top == (28 - a.scale) as nat);
        assert((s - b.scale) as nat + top == (28 - b.scale) as nat);
        assert((mantissa_at(a, s) + mantissa_at(b, s)) * pow10(top) == a.mantissa * (pow10(
            (s - a.scale) as nat,
        ) * pow10(top)) + b.mantissa * (pow10((s - b.scale) as nat) * pow10(top)))
            by (nonlinear_arith)
            requires
                mantissa_at(a, s) == a.mantissa * pow10((s - a.scale) as nat),
                mantissa_at(b, s) == b.mantissa * pow10((s - b.scale) as nat),
        ;
    }
}

} // verus!
