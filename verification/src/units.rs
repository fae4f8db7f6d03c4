//! Exact quantities: fractions and amounts of money held as integers, so that
//! thresholds, scores and budgets compare without rounding.

use vstd::prelude::*;

verus! {

/// The number of units in the fraction one.
///
/// It is a multiple of 1500 and of 100, so that one token over 1500 and every
/// whole percentage are exact.
pub const RATIO_ONE: u64 = 1_500_000_000_000_000_000;

/// The number of units in one percent.
pub const RATIO_PERCENT: u64 = 15_000_000_000_000_000;

/// The number of pico-dollars in one dollar.
pub const PICO_PER_USD: u64 = 1_000_000_000_000;

/// A non-negative fraction, in units of `1 / RATIO_ONE`.
#[derive(Clone, Copy, Debug, PartialEq, Eq, PartialOrd, Ord, Structural)]
pub struct Ratio {
    pub units: u64,
}

impl Ratio {
    /// The fraction `p / 100`, exactly.
    pub fn percent(p: u8) -> (r: Ratio)
        ensures
            r.units == p * RATIO_PERCENT,
            100 * r.units == p * RATIO_ONE,
    {
        Ratio { units: p as u64 * RATIO_PERCENT }
    }

    /// The fraction one.
    pub fn one() -> (r: Ratio)
        ensures
            r.units == RATIO_ONE,
    {
        Ratio { units: RATIO_ONE }
    }
}

/// An amount of money in pico-dollars (1e-12 USD).
#[derive(Clone, Copy, Debug, PartialEq, Eq, PartialOrd, Ord, Structural)]
pub struct Usd {
    pub pico: i128,
}

/// The value nearest to `x` that an `i128` can hold.
pub open spec fn clamp(x: int) -> int {
    if x > i128::MAX {
        i128::MAX as int
    } else if x < i128::MIN {
        i128::MIN as int
    } else {
        x
    }
}

impl Usd {
    /// Nothing at all.
    pub fn zero() -> (r: Usd)
        ensures
            r.pico == 0,
    {
        Usd { pico: 0 }
    }

    /// The sum of two amounts, held at the bounds of the representation.
    pub fn plus(self, other: Usd) -> (r: Usd)
        ensures
            r.pico == clamp(self.pico + other.pico),
    {
        match self.pico.checked_add(other.pico) {
            Some(pico) => Usd { pico },
            None => if other.pico > 0 {
                Usd { pico: i128::MAX }
            } else {
                Usd { pico: i128::MIN }
            },
        }
    }

    /// The difference of two amounts, held at the bounds of the representation.
    pub fn minus(self, other: Usd) -> (r: Usd)
        ensures
            r.pico == clamp(self.pico - other.pico),
    {
        match self.pico.checked_sub(other.pico) {
            Some(pico) => Usd { pico },
            None => if other.pico > 0 {
                Usd { pico: i128::MIN }
            } else {
                Usd { pico: i128::MAX }
            },
        }
    }
}

/// The whole number nearest to `n / d`; of two equally near, the even one.
pub open spec fn nearest(n: nat, d: nat) -> nat
    recommends
        d > 0,
{
    if 2 * (n % d) < d || (2 * (n % d) == d && (n / d) % 2 == 0) {
        n / d
    } else {
        n / d + 1
    }
}

/// Rounds `n / d` to the nearest whole number, halves to even.
pub fn round_nearest(n: u128, d: u128) -> (q: u128)
    requires
        0 < d <= u128::MAX / 2,
    ensures
        q == nearest(n as nat, d as nat),
{
    let whole: u128 = n / d;
    let rest: u128 = n % d;
    let twice: u128 = 2 * rest;
    if twice < d || (twice == d && whole % 2 == 0) {
        whole
    } else {
        proof {
            if d == 1 {
                assert(n % 1 == 0);
            } else {
                vstd::arithmetic::div_mod::lemma_div_is_ordered_by_denominator(
                    n as int,
                    2,
                    d as int,
                );
            }
        }
        whole + 1
    }
}

/// The pico-dollars of the least amount whose whole dollars fill the 53 bits of a
/// binary floating-point significand: `PICO_PER_USD` times 2 to the power of 52.
pub const FULL_SIGNIFICAND: u128 = 4_503_599_627_370_496_000_000_000_000;

/// The finest scale that is tried: 2 to the power of 100.
pub const FINEST_SCALE: u128 = 1_267_650_600_228_229_401_496_703_205_376;

/// The first scale, doubling from `scale`, at which an amount fills a significand.
pub open spec fn binary_scale(pico: nat, scale: nat) -> nat
    decreases 2 * FINEST_SCALE - scale,
{
    if 0 < scale < FINEST_SCALE && pico * scale < FULL_SIGNIFICAND {
        binary_scale(pico, 2 * scale)
    } else {
        scale
    }
}

/// The whole cents of an amount, rounded from the binary floating-point number of
/// 53 significant bits that is nearest to it. So half a cent goes to the side on
/// which that number lies: 0.355 dollars are 35 cents, 0.115 are 12. An amount whose
/// whole dollars take more bits than that is rounded to whole dollars.
pub open spec fn cents_of(pico: nat) -> nat {
    let scale = binary_scale(pico, 1);
    nearest(100 * nearest(pico * scale, PICO_PER_USD as nat), scale)
}

/// Rounds an amount in pico-dollars to whole cents, as its nearest binary
/// floating-point number rounds.
pub fn round_to_cents(pico: u128) -> (cents: u128)
    ensures
        cents == cents_of(pico as nat),
{
    let mut scale: u128 = 1;
    let mut scaled: u128 = pico;
    while scale < FINEST_SCALE && scaled < FULL_SIGNIFICAND
        invariant
            0 < scale < 2 * FINEST_SCALE,
            scaled == pico * scale,
            binary_scale(pico as nat, 1) == binary_scale(pico as nat, scale as nat),
        decreases 2 * FINEST_SCALE - scale,
    {
        assert(pico * (2 * scale) == 2 * (pico * scale)) by (nonlinear_arith);
        scaled = 2 * scaled;
        scale = 2 * scale;
    }
    let significand: u128 = round_nearest(scaled, PICO_PER_USD as u128);
    round_nearest(100 * significand, scale)
}

/// The distance of an amount from zero.
pub open spec fn magnitude(x: int) -> nat {
    if x < 0 {
        (-x) as nat
    } else {
        x as nat
    }
}

/// The distance of an amount from zero, in pico-dollars.
pub fn pico_magnitude(amount: Usd) -> (m: u128)
    ensures
        m == magnitude(amount.pico as int),
{
    if amount.pico < 0 {
        (-(amount.pico + 1)) as u128 + 1
    } else {
        amount.pico as u128
    }
}

/// Two amounts whose exact sum can be held add without loss.
pub proof fn law_plus_is_exact_in_range(a: Usd, b: Usd)
    requires
        i128::MIN <= a.pico + b.pico <= i128::MAX,
    ensures
        clamp(a.pico + b.pico) == a.pico + b.pico,
{
}

} // verus!
