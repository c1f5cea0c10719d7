//! Exact fixed-point decimal numbers for monetary amounts.
//!
//! A [`Decimal`] denotes the rational number `mantissa / 10^scale`.  The
//! representation covers every amount with at most [`MAX_SCALE`] fractional
//! digits and a mantissa of at most 96 bits, and all arithmetic on it is
//! exact: an operation whose exact result would leave that range is ruled
//! out by precondition rather than rounded.

use vstd::prelude::*;

verus! {

use vstd::arithmetic::power::{
    pow, lemma_pow0, lemma_pow1, lemma_pow_adds, lemma_pow_increases, lemma_pow_positive,
};
use vstd::arithmetic::mul::lemma_mul_is_associative;
use vstd::math::max;

/// Largest mantissa magnitude a [`Decimal`] may carry: `2^96 - 1`.
pub const MAX_MANTISSA: i128 = 79_228_162_514_264_337_593_543_950_335;

/// Largest number of fractional decimal digits a [`Decimal`] may carry.
pub const MAX_SCALE: u32 = 28;

/// `i128::MAX / 10`, rounded toward zero.
const I128_MAX_TENTH: i128 = 17_014_118_346_046_923_173_168_730_371_588_410_572;

/// `10^e` as a mathematical integer.
pub open spec fn pow10(e: nat) -> int {
    pow(10, e)
}

/// An exact decimal number, denoting `mantissa / 10^scale`.
///
/// Trailing zeros are significant to the representation but not to the
/// value: `2.00` and `2` are stored differently and compare equal.
#[derive(Clone, Copy, Debug)]
pub struct Decimal {
    /// The digits of the number, as a signed integer.
    pub mantissa: i128,
    /// How many of the mantissa's low decimal digits lie behind the point.
    pub scale: u32,
}

impl Decimal {
    /// The representation invariant: the mantissa fits in 96 bits and the
    /// scale does not exceed [`MAX_SCALE`].
    pub open spec fn wf(self) -> bool {
        &&& -MAX_MANTISSA <= self.mantissa <= MAX_MANTISSA
        &&& self.scale <= MAX_SCALE
    }

    /// The number's exact value in units of `10^-28`, the finest grain a
    /// well-formed [`Decimal`] can express.  Two well-formed decimals denote
    /// the same number exactly when their `units` agree.
    pub open spec fn units(self) -> int {
        self.mantissa * pow10((MAX_SCALE - self.scale) as nat)
    }

    /// Builds the decimal `mantissa / 10^scale`.
    pub fn new(mantissa: i128, scale: u32) -> (r: Decimal)
        requires
            -MAX_MANTISSA <= mantissa <= MAX_MANTISSA,
            scale <= MAX_SCALE,
        ensures
            r == (Decimal { mantissa, scale }),
            r.wf(),
    {
        Decimal { mantissa, scale }
    }

    /// True exactly when the representation invariant holds; lets unverified
    /// callers establish [`Decimal::wf`] before using the arithmetic.
    pub fn well_formed(&self) -> (r: bool)
        ensures
            r == self.wf(),
    {
        -MAX_MANTISSA <= self.mantissa && self.mantissa <= MAX_MANTISSA && self.scale <= MAX_SCALE
    }
}

/// Whether `a` and `b` denote the same number: brought to their common
/// scale, the mantissas agree.  On well-formed decimals this coincides with
/// equality of [`Decimal::units`] (see [`lemma_same_value_units`]).
pub open spec fn same_value(a: Decimal, b: Decimal) -> bool {
    a.mantissa * pow10((max(a.scale as int, b.scale as int) - a.scale) as nat)
        == b.mantissa * pow10((max(a.scale as int, b.scale as int) - b.scale) as nat)
}

/// On well-formed decimals, [`same_value`] is exactly agreement of
/// [`Decimal::units`].
pub proof fn lemma_same_value_units(a: Decimal, b: Decimal)
    requires
        a.wf(),
        b.wf(),
    ensures
        same_value(a, b) <==> a.units() == b.units(),
{
    let s = max(a.scale as int, b.scale as int);
    let ea = (s - a.scale) as nat;
    let eb = (s - b.scale) as nat;
    let c = (MAX_SCALE - s) as nat;
    lemma_pow_adds(10, ea, c);
    lemma_pow_adds(10, eb, c);
    lemma_mul_is_associative(a.mantissa as int, pow10(ea), pow10(c));
    lemma_mul_is_associative(b.mantissa as int, pow10(eb), pow10(c));
    lemma_pow_positive(10, c);
    if a.units() == b.units() {
        assert(a.mantissa * pow10(ea) == b.mantissa * pow10(eb)) by (nonlinear_arith)
            requires
                a.mantissa * pow10(ea) * pow10(c) == b.mantissa * pow10(eb) * pow10(c),
                pow10(c) > 0,
        ;
    }
}

impl PartialEq for Decimal {
    /// Value equality: `2.00 == 2`, whatever the stored scales.
    #[verifier::loop_isolation(false)]
    fn eq(&self, other: &Decimal) -> (r: bool) {
        if self.scale == other.scale {
            proof {
                lemma_pow0(10);
            }
            return self.mantissa == other.mantissa;
        }
        let lo_m: i128;
        let hi_m: i128;
        let d: u32;
        if self.scale < other.scale {
            lo_m = self.mantissa;
            hi_m = other.mantissa;
            d = other.scale - self.scale;
        } else {
            lo_m = other.mantissa;
            hi_m = self.mantissa;
            d = self.scale - other.scale;
        }
        proof {
            lemma_pow0(10);
        }
        let mut m: i128 = lo_m;
        let mut k: u32 = 0;
        while k < d
            invariant
                k <= d,
                m == lo_m * pow10(k as nat),
            decreases d - k,
        {
            if m > I128_MAX_TENTH || m < -I128_MAX_TENTH {
                proof {
                    lemma_scaling_leaves_range(lo_m as int, k as nat, d as nat);
                }
                return false;
            }
            proof {
                lemma_pow1(10);
                lemma_pow_adds(10, k as nat, 1);
                lemma_mul_is_associative(lo_m as int, pow10(k as nat), 10);
            }
            m = m * 10;
            k = k + 1;
        }
        proof {
            let s = max(self.scale as int, other.scale as int);
            if self.scale < other.scale {
                assert(((s - self.scale) as nat) == d as nat);
                assert(((s - other.scale) as nat) == 0);
            } else {
                assert(((s - other.scale) as nat) == d as nat);
                assert(((s - self.scale) as nat) == 0);
            }
        }
        m == hi_m
    }
}

impl Decimal {
    /// Both operands, brought to their common scale, and their sum stay
    /// within the mantissa range, so the sum is exactly representable.
    pub open spec fn plus_exact(self, other: Decimal) -> bool {
        let s = max(self.scale as int, other.scale as int);
        let a = self.mantissa * pow10((s - self.scale) as nat);
        let b = other.mantissa * pow10((s - other.scale) as nat);
        &&& -MAX_MANTISSA <= a <= MAX_MANTISSA
        &&& -MAX_MANTISSA <= b <= MAX_MANTISSA
        &&& -MAX_MANTISSA <= a + b <= MAX_MANTISSA
    }

    /// Exact addition: the result denotes precisely the sum of the two
    /// operands' values, at their common scale.
    pub fn plus(self, other: Decimal) -> (r: Decimal)
        requires
            self.wf(),
            other.wf(),
            self.plus_exact(other),
        ensures
            r.wf(),
            r.scale == max(self.scale as int, other.scale as int),
            r.mantissa == self.mantissa * pow10((r.scale - self.scale) as nat) + other.mantissa
                * pow10((r.scale - other.scale) as nat),
            r.units() == self.units() + other.units(),
    {
        proof {
            lemma_pow0(10);
        }
        let r: Decimal;
        if self.scale <= other.scale {
            let p = pow10_exec(other.scale - self.scale);
            r = Decimal { mantissa: self.mantissa * p + other.mantissa, scale: other.scale };
        } else {
            let p = pow10_exec(self.scale - other.scale);
            r = Decimal { mantissa: self.mantissa + other.mantissa * p, scale: self.scale };
        }
        proof {
            lemma_rescale_units(self.mantissa as int, self.scale as int, r.scale as int);
            lemma_rescale_units(other.mantissa as int, other.scale as int, r.scale as int);
            vstd::arithmetic::mul::lemma_mul_is_distributive_add_other_way(
                pow10((MAX_SCALE - r.scale) as nat),
                self.mantissa * pow10((r.scale - self.scale) as nat),
                other.mantissa * pow10((r.scale - other.scale) as nat),
            );
        }
        r
    }
}

/// Scaling a mantissa from `s_from` up to `s_to` leaves the value, read at
/// scale [`MAX_SCALE`], unchanged.
proof fn lemma_rescale_units(m: int, s_from: int, s_to: int)
    requires
        0 <= s_from <= s_to <= MAX_SCALE,
    ensures
        m * pow10((s_to - s_from) as nat) * pow10((MAX_SCALE - s_to) as nat) == m * pow10(
            (MAX_SCALE - s_from) as nat,
        ),
{
    lemma_pow_adds(10, (s_to - s_from) as nat, (MAX_SCALE - s_to) as nat);
    lemma_mul_is_associative(m, pow10((s_to - s_from) as nat), pow10((MAX_SCALE - s_to) as nat));
}

impl vstd::std_specs::cmp::PartialEqSpecImpl for Decimal {
    open spec fn obeys_eq_spec() -> bool {
        true
    }

    open spec fn eq_spec(&self, other: &Decimal) -> bool {
        same_value(*self, *other)
    }
}

/// Once a partially scaled mantissa leaves `i128 / 10`, scaling it the rest
/// of the way leaves the whole `i128` range, so it can equal no mantissa.
proof fn lemma_scaling_leaves_range(lo_m: int, k: nat, d: nat)
    requires
        k < d,
        lo_m * pow10(k) > I128_MAX_TENTH || lo_m * pow10(k) < -I128_MAX_TENTH,
    ensures
        lo_m * pow10(d) > i128::MAX || lo_m * pow10(d) < i128::MIN,
{
    let m = lo_m * pow10(k);
    let rest = (d - k) as nat;
    lemma_pow_adds(10, k, rest);
    lemma_mul_is_associative(lo_m, pow10(k), pow10(rest));
    lemma_pow1(10);
    lemma_pow_increases(10, 1, rest);
    assert(lo_m * pow10(d) > i128::MAX || lo_m * pow10(d) < i128::MIN) by (nonlinear_arith)
        requires
            lo_m * pow10(d) == m * pow10(rest),
            pow10(rest) >= 10,
            m > I128_MAX_TENTH || m < -I128_MAX_TENTH,
            I128_MAX_TENTH == 17_014_118_346_046_923_173_168_730_371_588_410_572,
    ;
}

/// `pow10(28)` written out, the largest power of ten the arithmetic scales by.
proof fn lemma_pow10_max_scale()
    ensures
        pow10(MAX_SCALE as nat) == 10_000_000_000_000_000_000_000_000_000,
{
    reveal_with_fuel(pow, 29);
}

/// `10^e` for `e <= 28`, as an `i128`.
fn pow10_exec(e: u32) -> (r: i128)
    requires
        e <= MAX_SCALE,
    ensures
        r == pow10(e as nat),
        r >= 1,
{
    proof {
        lemma_pow0(10);
    }
    let mut r: i128 = 1;
    let mut i: u32 = 0;
    while i < e
        invariant
            i <= e,
            e <= MAX_SCALE,
            r == pow10(i as nat),
            r >= 1,
        decreases e - i,
    {
        proof {
            lemma_pow10_max_scale();
            lemma_pow1(10);
            lemma_pow_adds(10, i as nat, 1);
            lemma_pow_increases(10, (i + 1) as nat, MAX_SCALE as nat);
        }
        r = r * 10;
        i = i + 1;
    }
    r
}

} // verus!
