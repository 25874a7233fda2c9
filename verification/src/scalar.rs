//! Exact decimal fixed-point numbers.
//!
//! Every quantity the simulation engine handles (states, times, coefficients,
//! noise) is a [`Scalar`]: a signed 64-bit count of billionths. All arithmetic
//! is checked: an operation whose exact result, once rounded toward zero to a
//! whole number of billionths, does not fit in 64 bits yields `None` instead of
//! wrapping or saturating.

use vstd::arithmetic::power2::{
    lemma2_to64, lemma2_to64_rest, lemma_pow2_adds, lemma_pow2_pos, lemma_pow2_strictly_increases, lemma_pow2_unfold,
    pow2,
};
use vstd::prelude::*;

verus! {

/// Number of raw units in one whole unit.
pub const SCALE: i64 = 1_000_000_000;

/// Largest root the square-root search has to consider: the square of this
/// bound exceeds `i64::MAX * SCALE`.
pub const ROOT_BOUND: u128 = 0x1_0000_0000_0000;

/// Number of raw units in one half.
pub const HALF: i64 = 500_000_000;

/// Number of binary digits of an exponent that a fractional power takes into
/// account.
pub const POWER_DIGITS: usize = 32;

/// A decimal fixed-point number with nine fractional digits.
///
/// The number denoted is `raw / SCALE`.
#[derive(Clone, Copy, Debug, PartialEq, Eq, Structural)]
pub struct Scalar {
    /// The count of billionths.
    pub raw: i64,
}

impl View for Scalar {
    type V = int;

    /// The raw count of billionths, as a mathematical integer.
    open spec fn view(&self) -> int {
        self.raw as int
    }
}

/// Whether `v` raw units fit in a `Scalar`.
pub open spec fn representable(v: int) -> bool {
    i64::MIN <= v <= i64::MAX
}

/// The scalar of `v` raw units, if there is one.
pub open spec fn checked(v: int) -> Option<Scalar> {
    if representable(v) {
        Some(Scalar { raw: v as i64 })
    } else {
        None
    }
}

/// Integer quotient rounded toward zero, for a non-zero divisor.
pub open spec fn trunc_div(n: int, d: int) -> int {
    if d > 0 {
        if n >= 0 {
            n / d
        } else {
            -((-n) / d)
        }
    } else {
        if n >= 0 {
            -(n / (-d))
        } else {
            (-n) / (-d)
        }
    }
}

/// `r` is the integer square root of `v`, rounded down.
pub open spec fn is_floor_sqrt(r: int, v: int) -> bool {
    0 <= r && r * r <= v < (r + 1) * (r + 1)
}

/// The integer square root of a non-negative `v`, rounded down.
pub open spec fn floor_sqrt(v: int) -> int {
    choose|r: int| is_floor_sqrt(r, v)
}

/// At most one integer is the rounded-down square root of `v`.
pub proof fn lemma_floor_sqrt_unique(a: int, b: int, v: int)
    requires
        is_floor_sqrt(a, v),
        is_floor_sqrt(b, v),
    ensures
        a == b,
{
    if a < b {
        assert((a + 1) * (a + 1) <= b * b) by (nonlinear_arith)
            requires
                0 <= a,
                a + 1 <= b,
        ;
    } else if b < a {
        assert((b + 1) * (b + 1) <= a * a) by (nonlinear_arith)
            requires
                0 <= b,
                b + 1 <= a,
        ;
    }
}

/// The product of those iterated square roots of `root` that the binary
/// digits of the exponent select, times `acc`.
///
/// `weight / SCALE` is what is left of the exponent, below one. Each round
/// takes the square root of `root` and doubles the weight; where the doubled
/// weight reaches one, the new root is multiplied into `acc` and one is taken
/// off the weight. The rounds end when no weight is left or `rounds` have
/// been made.
pub open spec fn power_digits_spec(root: Scalar, weight: int, acc: Scalar, rounds: nat) -> Option<Scalar>
    decreases rounds,
{
    if weight == 0 || rounds == 0 {
        Some(acc)
    } else {
        match root.sqrt_spec() {
            Some(next) => if 2 * weight >= SCALE {
                match acc.mul_spec(next) {
                    Some(grown) => power_digits_spec(next, 2 * weight - SCALE, grown, (rounds - 1) as nat),
                    None => None,
                }
            } else {
                power_digits_spec(next, 2 * weight, acc, (rounds - 1) as nat)
            },
            None => None,
        }
    }
}

/// The number of raw units nearest to the number that the IEEE 754 binary64
/// bit pattern `bits` encodes, a tie going away from zero.
///
/// Bit 63 of the pattern is the sign, bits 52 to 62 are the biased exponent
/// `e` and bits 0 to 51 the fraction `f`. For `0 < e < 2047` the pattern
/// encodes `(2^52 + f) * 2^(e - 1075)`. There is no result for an infinity
/// or a NaN (`e = 2047`) nor for a number of magnitude `2^52` or more
/// (`e >= 1075`), which lies far outside the range of scalars. Zeros and
/// subnormal numbers (`e = 0`) are nearer to zero than to any other count.
pub open spec fn binary64_units(bits: u64) -> Option<int> {
    let negative = bits / 0x8000_0000_0000_0000 == 1;
    let exponent = (bits / 0x10_0000_0000_0000) % 0x800;
    let fraction = bits % 0x10_0000_0000_0000;
    if exponent >= 1075 {
        None
    } else if exponent == 0 {
        Some(0)
    } else {
        let shift = (1075 - exponent) as nat;
        let magnitude = ((0x10_0000_0000_0000 + fraction) * SCALE + pow2((shift - 1) as nat)) / (pow2(shift)
            as int);
        Some(
            if negative {
                -magnitude
            } else {
                magnitude
            },
        )
    }
}

/// Sum of two optional scalars; absent as soon as one operand is.
pub open spec fn opt_add(a: Option<Scalar>, b: Option<Scalar>) -> Option<Scalar> {
    match (a, b) {
        (Some(x), Some(y)) => x.add_spec(y),
        _ => None,
    }
}

/// Difference of two optional scalars; absent as soon as one operand is.
pub open spec fn opt_sub(a: Option<Scalar>, b: Option<Scalar>) -> Option<Scalar> {
    match (a, b) {
        (Some(x), Some(y)) => x.sub_spec(y),
        _ => None,
    }
}

/// Product of two optional scalars; absent as soon as one operand is.
pub open spec fn opt_mul(a: Option<Scalar>, b: Option<Scalar>) -> Option<Scalar> {
    match (a, b) {
        (Some(x), Some(y)) => x.mul_spec(y),
        _ => None,
    }
}

/// Quotient of two optional scalars; absent as soon as one operand is.
pub open spec fn opt_div(a: Option<Scalar>, b: Option<Scalar>) -> Option<Scalar> {
    match (a, b) {
        (Some(x), Some(y)) => x.div_spec(y),
        _ => None,
    }
}

/// Sum of two optional scalars.
pub fn add_opt(a: Option<Scalar>, b: Option<Scalar>) -> (r: Option<Scalar>)
    ensures
        r == opt_add(a, b),
{
    match (a, b) {
        (Some(x), Some(y)) => x.checked_add(y),
        _ => None,
    }
}

/// Difference of two optional scalars.
pub fn sub_opt(a: Option<Scalar>, b: Option<Scalar>) -> (r: Option<Scalar>)
    ensures
        r == opt_sub(a, b),
{
    match (a, b) {
        (Some(x), Some(y)) => x.checked_sub(y),
        _ => None,
    }
}

/// Product of two optional scalars.
pub fn mul_opt(a: Option<Scalar>, b: Option<Scalar>) -> (r: Option<Scalar>)
    ensures
        r == opt_mul(a, b),
{
    match (a, b) {
        (Some(x), Some(y)) => x.checked_mul(y),
        _ => None,
    }
}

/// Quotient of two optional scalars.
pub fn div_opt(a: Option<Scalar>, b: Option<Scalar>) -> (r: Option<Scalar>)
    ensures
        r == opt_div(a, b),
{
    match (a, b) {
        (Some(x), Some(y)) => x.checked_div(y),
        _ => None,
    }
}

/// Narrows a 128-bit count of raw units to a scalar.
fn narrow(v: i128) -> (r: Option<Scalar>)
    ensures
        r == checked(v as int),
{
    if v < -0x8000_0000_0000_0000i128 || v > 0x7fff_ffff_ffff_ffffi128 {
        None
    } else {
        Some(Scalar { raw: v as i64 })
    }
}

/// Two to the power `e`.
fn power_of_two(e: u64) -> (r: u128)
    requires
        e < 100,
    ensures
        r == pow2(e as nat),
        r < 0x10_0000_0000_0000_0000_0000_0000,
{
    let mut r: u128 = 1;
    let mut k: u64 = 0;
    proof {
        lemma2_to64();
    }
    while k < e
        invariant
            0 <= k <= e < 100,
            r == pow2(k as nat),
        decreases e - k,
    {
        proof {
            lemma_pow2_unfold((k + 1) as nat);
            lemma_pow2_below_hundred(k as nat);
        }
        r = r * 2;
        k += 1;
    }
    proof {
        if e < 99 {
            lemma_pow2_strictly_increases(e as nat, 99);
        }
        lemma_pow2_below_hundred(99);
        lemma_pow2_unfold(100);
    }
    r
}

/// Powers of two with an exponent below a hundred lie below `2^100`.
proof fn lemma_pow2_below_hundred(e: nat)
    requires
        e < 100,
    ensures
        2 * pow2(e) <= 0x10_0000_0000_0000_0000_0000_0000,
        e == 99 ==> 2 * pow2(e) == 0x10_0000_0000_0000_0000_0000_0000,
{
    lemma2_to64();
    lemma2_to64_rest();
    lemma_pow2_adds(64, 36);
    assert(pow2(100) == 0x10_0000_0000_0000_0000_0000_0000) by {
        assert(0x1_0000_0000_0000_0000 * 0x10_0000_0000 == 0x10_0000_0000_0000_0000_0000_0000) by (nonlinear_arith);
    }
    lemma_pow2_unfold((e + 1) as nat);
    if e + 1 < 100 {
        lemma_pow2_strictly_increases((e + 1) as nat, 100);
    }
}

/// Exact product of two 64-bit integers.
fn wide_product(a: i64, b: i64) -> (p: i128)
    ensures
        p == a * b,
        -0x4000_0000_0000_0000_0000_0000_0000_0000 <= p <= 0x4000_0000_0000_0000_0000_0000_0000_0000,
{
    assert(-0x4000_0000_0000_0000_0000_0000_0000_0000 <= a * b
        <= 0x4000_0000_0000_0000_0000_0000_0000_0000) by (nonlinear_arith)
        requires
            -0x8000_0000_0000_0000 <= a <= 0x7fff_ffff_ffff_ffff,
            -0x8000_0000_0000_0000 <= b <= 0x7fff_ffff_ffff_ffff,
    ;
    (a as i128) * (b as i128)
}

/// Quotient of `n` by a non-zero `d`, rounded toward zero.
fn wide_quotient(n: i128, d: i128) -> (q: i128)
    requires
        d != 0,
        -0x4000_0000_0000_0000_0000_0000_0000_0000 <= n <= 0x4000_0000_0000_0000_0000_0000_0000_0000,
        -0x4000_0000_0000_0000_0000_0000_0000_0000 <= d <= 0x4000_0000_0000_0000_0000_0000_0000_0000,
    ensures
        q == trunc_div(n as int, d as int),
{
    let den: u128 = if d < 0 {
        (0 - d) as u128
    } else {
        d as u128
    };
    if n < 0 {
        let quot: u128 = ((0 - n) as u128) / den;
        if d < 0 {
            quot as i128
        } else {
            0 - quot as i128
        }
    } else {
        let quot: u128 = (n as u128) / den;
        if d < 0 {
            0 - quot as i128
        } else {
            quot as i128
        }
    }
}

/// Rounded-down square root of `v`.
fn integer_sqrt(v: u128) -> (r: u128)
    requires
        v < ROOT_BOUND * ROOT_BOUND,
    ensures
        is_floor_sqrt(r as int, v as int),
        r < ROOT_BOUND,
{
    let mut lo: u128 = 0;
    let mut hi: u128 = ROOT_BOUND;
    while hi - lo > 1
        invariant
            lo < hi <= ROOT_BOUND,
            lo * lo <= v < hi * hi,
        decreases hi - lo,
    {
        let mid: u128 = lo + (hi - lo) / 2;
        assert(mid * mid < ROOT_BOUND * ROOT_BOUND) by (nonlinear_arith)
            requires
                mid < ROOT_BOUND,
        ;
        if mid * mid <= v {
            lo = mid;
        } else {
            hi = mid;
        }
    }
    lo
}

impl Scalar {
    /// `self + rhs`, if representable.
    pub open spec fn add_spec(self, rhs: Scalar) -> Option<Scalar> {
        checked(self@ + rhs@)
    }

    /// `self - rhs`, if representable.
    pub open spec fn sub_spec(self, rhs: Scalar) -> Option<Scalar> {
        checked(self@ - rhs@)
    }

    /// `-self`, if representable.
    pub open spec fn neg_spec(self) -> Option<Scalar> {
        checked(-self@)
    }

    /// `self * rhs` rounded toward zero to a whole number of raw units, if
    /// representable.
    pub open spec fn mul_spec(self, rhs: Scalar) -> Option<Scalar> {
        checked(trunc_div(self@ * rhs@, SCALE as int))
    }

    /// `self / rhs` rounded toward zero to a whole number of raw units, if
    /// `rhs` is not zero and the quotient is representable.
    pub open spec fn div_spec(self, rhs: Scalar) -> Option<Scalar> {
        if rhs@ == 0 {
            None
        } else {
            checked(trunc_div(self@ * SCALE, rhs@))
        }
    }

    /// The square root of a non-negative `self`, rounded down to a whole
    /// number of raw units.
    pub open spec fn sqrt_spec(self) -> Option<Scalar> {
        if self@ < 0 {
            None
        } else {
            checked(floor_sqrt(self@ * SCALE))
        }
    }

    /// `self` raised to the power `exponent`, for a non-negative `self` and an
    /// exponent in `[0, 1]`.
    ///
    /// The exponent one gives `self`. A smaller exponent is read as a binary
    /// fraction `0.b1 b2 b3 ...` of up to `POWER_DIGITS` digits; the power is
    /// the product, over the digits that are set, of the square root of
    /// `self` iterated as often as the digit's position says.
    pub open spec fn pow_spec(self, exponent: Scalar) -> Option<Scalar> {
        if self@ < 0 || exponent@ < 0 || exponent@ > SCALE {
            None
        } else if exponent@ == SCALE {
            Some(self)
        } else {
            power_digits_spec(self, exponent@, Scalar { raw: SCALE }, POWER_DIGITS as nat)
        }
    }

    /// Half of `self`, rounded toward zero.
    pub open spec fn half_spec(self) -> Scalar {
        Scalar { raw: trunc_div(self@, 2) as i64 }
    }

    /// `self` divided by the whole number `count`, rounded toward zero, if
    /// `count` is not zero.
    pub open spec fn div_count_spec(self, count: usize) -> Option<Scalar> {
        if count == 0 {
            None
        } else {
            checked(trunc_div(self@, count as int))
        }
    }

    /// The scalar nearest to the number that the binary64 bit pattern `bits`
    /// encodes, if the pattern encodes a number within range.
    pub open spec fn from_binary64_spec(bits: u64) -> Option<Scalar> {
        match binary64_units(bits) {
            Some(units) => checked(units),
            None => None,
        }
    }

    /// The whole number `n`, if representable.
    pub open spec fn from_int_spec(n: int) -> Option<Scalar> {
        checked(n * SCALE)
    }

    /// The fraction `num / den` rounded toward zero to a whole number of raw
    /// units, if `den` is not zero and the quotient is representable.
    pub open spec fn from_ratio_spec(num: int, den: int) -> Option<Scalar> {
        if den == 0 {
            None
        } else {
            checked(trunc_div(num * SCALE, den))
        }
    }

    /// The scalar of `raw` billionths.
    pub fn from_raw(raw: i64) -> (r: Scalar)
        ensures
            r@ == raw,
    {
        Scalar { raw }
    }

    /// The raw count of billionths.
    pub fn raw(&self) -> (r: i64)
        ensures
            r == self@,
    {
        self.raw
    }

    /// Zero.
    pub fn zero() -> (r: Scalar)
        ensures
            r@ == 0,
    {
        Scalar { raw: 0 }
    }

    /// One whole unit.
    pub fn one() -> (r: Scalar)
        ensures
            r@ == SCALE,
    {
        Scalar { raw: SCALE }
    }

    /// The scalar nearest to a binary floating-point number, given by its
    /// IEEE 754 binary64 bit pattern; a tie goes away from zero. `None` for an
    /// infinity, a NaN and a number out of range.
    pub fn from_binary64_bits(bits: u64) -> (r: Option<Scalar>)
        ensures
            r == Scalar::from_binary64_spec(bits),
    {
        let negative: bool = bits / 0x8000_0000_0000_0000 == 1;
        let exponent: u64 = (bits / 0x10_0000_0000_0000) % 0x800;
        let fraction: u64 = bits % 0x10_0000_0000_0000;
        if exponent >= 1075 {
            return None;
        }
        if exponent == 0 {
            return Some(Scalar { raw: 0 });
        }
        let shift: u64 = 1075 - exponent;
        let significand: u128 = (0x10_0000_0000_0000 + fraction) as u128;
        let scaled: u128 = significand * 1_000_000_000;
        if shift >= 100 {
            proof {
                lemma_pow2_below_hundred(99);
                if shift - 1 > 99 {
                    lemma_pow2_strictly_increases(99, (shift - 1) as nat);
                }
                lemma_pow2_unfold(shift as nat);
                let half = pow2((shift - 1) as nat);
                assert(0 <= scaled + half < 2 * half);
                assert((scaled + half) / ((2 * half) as int) == 0) by (nonlinear_arith)
                    requires
                        0 <= scaled + half < 2 * half,
                ;
            }
            return Some(Scalar { raw: 0 });
        }
        let half: u128 = power_of_two(shift - 1);
        let whole: u128 = power_of_two(shift);
        proof {
            lemma_pow2_pos(shift as nat);
        }
        let magnitude: u128 = (scaled + half) / whole;
        assert(magnitude <= scaled + half) by (nonlinear_arith)
            requires
                magnitude == (scaled + half) / (whole as int),
                whole >= 1,
                scaled + half >= 0,
        ;
        if negative {
            narrow(0 - magnitude as i128)
        } else {
            narrow(magnitude as i128)
        }
    }

    /// The whole number `n`; `None` when `n * SCALE` overflows.
    pub fn from_int(n: i64) -> (r: Option<Scalar>)
        ensures
            r == Scalar::from_int_spec(n as int),
    {
        narrow(wide_product(n, SCALE))
    }

    /// A step or path count as a scalar; `None` when it is too large.
    pub fn from_usize(n: usize) -> (r: Option<Scalar>)
        ensures
            r == Scalar::from_int_spec(n as int),
    {
        let count: u64 = n as u64;
        if count > 0x7fff_ffff_ffff_ffff {
            assert(n * SCALE > i64::MAX) by (nonlinear_arith)
                requires
                    n > 0x7fff_ffff_ffff_ffff,
                    SCALE == 1_000_000_000,
            ;
            None
        } else {
            Scalar::from_int(count as i64)
        }
    }

    /// The fraction `num / den`, rounded toward zero; `None` when `den` is
    /// zero or the quotient overflows.
    pub fn from_ratio(num: i64, den: i64) -> (r: Option<Scalar>)
        ensures
            r == Scalar::from_ratio_spec(num as int, den as int),
    {
        if den == 0 {
            None
        } else {
            narrow(wide_quotient(wide_product(num, SCALE), den as i128))
        }
    }

    /// Checked addition.
    pub fn checked_add(self, rhs: Scalar) -> (r: Option<Scalar>)
        ensures
            r == self.add_spec(rhs),
    {
        narrow(self.raw as i128 + rhs.raw as i128)
    }

    /// Checked subtraction.
    pub fn checked_sub(self, rhs: Scalar) -> (r: Option<Scalar>)
        ensures
            r == self.sub_spec(rhs),
    {
        narrow(self.raw as i128 - rhs.raw as i128)
    }

    /// Checked negation; only `i64::MIN` raw units has no negation.
    pub fn checked_neg(self) -> (r: Option<Scalar>)
        ensures
            r == self.neg_spec(),
    {
        narrow(0 - self.raw as i128)
    }

    /// Checked multiplication, rounding toward zero.
    pub fn checked_mul(self, rhs: Scalar) -> (r: Option<Scalar>)
        ensures
            r == self.mul_spec(rhs),
    {
        narrow(wide_quotient(wide_product(self.raw, rhs.raw), SCALE as i128))
    }

    /// Checked division, rounding toward zero; `None` on a zero divisor.
    pub fn checked_div(self, rhs: Scalar) -> (r: Option<Scalar>)
        ensures
            r == self.div_spec(rhs),
    {
        if rhs.raw == 0 {
            None
        } else {
            narrow(wide_quotient(wide_product(self.raw, SCALE), rhs.raw as i128))
        }
    }

    /// Division by a whole number, rounding toward zero; `None` on a zero
    /// count. A non-zero count always has a quotient.
    pub fn checked_div_count(self, count: usize) -> (r: Option<Scalar>)
        ensures
            r == self.div_count_spec(count),
            count != 0 ==> r is Some,
    {
        if count == 0 {
            None
        } else {
            let quotient: i128 = wide_quotient(self.raw as i128, count as i128);
            assert(-0x8000_0000_0000_0000 <= quotient <= 0x7fff_ffff_ffff_ffff) by (nonlinear_arith)
                requires
                    quotient == trunc_div(self@, count as int),
                    count >= 1,
                    -0x8000_0000_0000_0000 <= self@ <= 0x7fff_ffff_ffff_ffff,
            ;
            narrow(quotient)
        }
    }

    /// Square root, rounded down; `None` for a negative number.
    pub fn checked_sqrt(self) -> (r: Option<Scalar>)
        ensures
            r == self.sqrt_spec(),
            self@ >= 0 ==> r is Some && is_floor_sqrt(r->0@, self@ * SCALE),
    {
        if self.raw < 0 {
            None
        } else {
            let wide: i128 = wide_product(self.raw, SCALE);
            assert(wide < ROOT_BOUND * ROOT_BOUND) by (nonlinear_arith)
                requires
                    wide == self.raw * SCALE,
                    0 <= self.raw <= 0x7fff_ffff_ffff_ffff,
                    SCALE == 1_000_000_000,
                    ROOT_BOUND == 0x1_0000_0000_0000,
            ;
            assert(wide >= 0) by (nonlinear_arith)
                requires
                    wide == self.raw * SCALE,
                    0 <= self.raw,
                    SCALE == 1_000_000_000,
            ;
            let root: u128 = integer_sqrt(wide as u128);
            proof {
                lemma_floor_sqrt_unique(root as int, floor_sqrt(wide as int), wide as int);
            }
            Some(Scalar { raw: root as i64 })
        }
    }

    /// `self` raised to the power `exponent`; `None` for a negative `self`,
    /// for an exponent outside `[0, 1]`, and on overflow.
    pub fn checked_pow(self, exponent: Scalar) -> (r: Option<Scalar>)
        ensures
            r == self.pow_spec(exponent),
    {
        if self.raw < 0 || exponent.raw < 0 || exponent.raw > SCALE {
            return None;
        }
        if exponent.raw == SCALE {
            return Some(self);
        }
        let mut root: Scalar = self;
        let mut weight: i64 = exponent.raw;
        let mut acc: Scalar = Scalar { raw: SCALE };
        let mut rounds: usize = POWER_DIGITS;
        while weight != 0 && rounds != 0
            invariant
                0 <= weight < SCALE,
                root@ >= 0,
                rounds <= POWER_DIGITS,
                self.pow_spec(exponent) == power_digits_spec(root, weight as int, acc, rounds as nat),
            decreases rounds,
        {
            let next = match root.checked_sqrt() {
                Some(next) => next,
                None => {
                    return None;
                },
            };
            if 2 * weight >= SCALE {
                acc = match acc.checked_mul(next) {
                    Some(grown) => grown,
                    None => {
                        return None;
                    },
                };
                weight = 2 * weight - SCALE;
            } else {
                weight = 2 * weight;
            }
            root = next;
            rounds -= 1;
        }
        Some(acc)
    }

    /// Half of `self`, rounded toward zero.
    pub fn half(self) -> (r: Scalar)
        ensures
            r == self.half_spec(),
    {
        Scalar { raw: self.raw / 2 }
    }

    /// Whether `self < rhs`.
    pub fn lt(self, rhs: Scalar) -> (r: bool)
        ensures
            r == (self@ < rhs@),
    {
        self.raw < rhs.raw
    }

    /// Whether `self <= rhs`.
    pub fn le(self, rhs: Scalar) -> (r: bool)
        ensures
            r == (self@ <= rhs@),
    {
        self.raw <= rhs.raw
    }

    /// Whether `self` is below zero.
    pub fn is_negative(self) -> (r: bool)
        ensures
            r == (self@ < 0),
    {
        self.raw < 0
    }
}

/// Multiplying one by a scalar gives that scalar.
pub proof fn lemma_one_times(x: Scalar)
    ensures
        (Scalar { raw: SCALE }).mul_spec(x) == Some(x),
{
    if x@ >= 0 {
        assert((SCALE * x@) / (SCALE as int) == x@) by (nonlinear_arith)
            requires
                SCALE == 1_000_000_000,
        ;
    } else {
        assert(-(SCALE * x@) == SCALE * (-x@)) by (nonlinear_arith);
        assert((SCALE * (-x@)) / (SCALE as int) == -x@) by (nonlinear_arith)
            requires
                SCALE == 1_000_000_000,
        ;
    }
}

/// A number to the power zero is one.
pub proof fn lemma_pow_zero(x: Scalar)
    requires
        x@ >= 0,
    ensures
        x.pow_spec(Scalar { raw: 0 }) == Some(Scalar { raw: SCALE }),
{
}

/// A number to the power one is the number itself.
pub proof fn lemma_pow_one(x: Scalar)
    requires
        x@ >= 0,
    ensures
        x.pow_spec(Scalar { raw: SCALE }) == Some(x),
{
}

/// A number to the power one half is its square root, also where it has
/// none.
pub proof fn lemma_pow_half(x: Scalar)
    ensures
        x.pow_spec(Scalar { raw: HALF }) == x.sqrt_spec(),
{
    if x@ >= 0 {
        let root = x.sqrt_spec();
        assert(root is Some) by {
            lemma_sqrt_exists(x);
        }
        lemma_one_times(root->0);
        assert(power_digits_spec(root->0, 0, root->0, (POWER_DIGITS - 1) as nat) == root);
        assert(power_digits_spec(x, HALF as int, Scalar { raw: SCALE }, POWER_DIGITS as nat) == root);
    }
}

/// A non-negative scalar has a square root.
pub proof fn lemma_sqrt_exists(x: Scalar)
    requires
        x@ >= 0,
    ensures
        x.sqrt_spec() is Some,
        is_floor_sqrt(x.sqrt_spec()->0@, x@ * SCALE),
{
    let v = x@ * SCALE;
    assert(0 <= v < ROOT_BOUND * ROOT_BOUND) by (nonlinear_arith)
        requires
            v == x@ * SCALE,
            0 <= x@ <= 0x7fff_ffff_ffff_ffff,
            SCALE == 1_000_000_000,
            ROOT_BOUND == 0x1_0000_0000_0000,
    ;
    lemma_floor_sqrt_bounded(v, ROOT_BOUND as int);
}

/// A non-negative integer below the square of `bound` has a rounded-down
/// square root, and it is below `bound`.
pub proof fn lemma_floor_sqrt_bounded(v: int, bound: int)
    requires
        0 <= v < bound * bound,
        0 < bound,
    ensures
        is_floor_sqrt(floor_sqrt(v), v),
        floor_sqrt(v) < bound,
    decreases bound,
{
    if bound == 1 {
        assert(is_floor_sqrt(0, v));
    } else {
        let below = bound - 1;
        if v < below * below {
            lemma_floor_sqrt_bounded(v, below);
        } else {
            assert(is_floor_sqrt(below, v));
        }
    }
    let r = floor_sqrt(v);
    if r >= bound {
        assert(r * r >= bound * bound) by (nonlinear_arith)
            requires
                r >= bound,
                bound > 0,
        ;
    }
}

} // verus!
