//! Commission (spread) policy.
//!
//! Either a fixed commission fraction, or an adaptive curve in which
//! larger trades pay a smaller per-unit commission. The adaptive curve
//! itself is an exponential evaluated in floating point outside this
//! library; what belongs here — and is verified — is the clamping of a
//! trade to whole stable-token units on `[0, 10_000_000]`, the policy
//! dispatch, and the bound every commission fraction must respect.
//! Fractions use fixed point at denominator 10^6.

use crate::math::{lemma_pow10_le, lemma_pow10_pos, lemma_pow10_value, pow10, pow10_u128};
use crate::TOKEN_DECIMAL;
use vstd::arithmetic::div_mod::{lemma_div_is_ordered, lemma_div_multiples_vanish};
use vstd::prelude::*;

verus! {

/// Highest commission fraction any policy may charge: 0.05 = 5%.
pub const MAX_SPREAD: u128 = 50_000;

/// Decimals of a commission fraction.
pub const SPREAD_DECIMAL: u8 = 6;

/// 10^SPREAD_DECIMAL, the fixed-point denominator of commission fractions.
pub const SPREAD_DENOMINATOR: u128 = 1_000_000;

/// The adaptive curve saturates at this many whole stable-token units.
pub const ADAPTIVE_MAX_UNITS: u128 = 10_000_000;

/// The owner-settable commission policy.
#[derive(Clone, Copy, Debug, PartialEq, Eq, Structural)]
pub enum SpreadPolicy {
    /// A constant commission fraction.
    Fixed(u128),
    /// The exponential-decay curve of the trade size.
    Adaptive,
}

impl SpreadPolicy {
    /// A stored fixed fraction never exceeds the spread limit.
    pub open spec fn wf(&self) -> bool {
        match *self {
            SpreadPolicy::Fixed(fraction) => fraction <= MAX_SPREAD,
            SpreadPolicy::Adaptive => true,
        }
    }

    /// The commission fraction a policy charges, given the value of the
    /// adaptive curve at the trade's clamped size.
    pub open spec fn resolve_spec(&self, adaptive_fraction: u128) -> u128 {
        match *self {
            SpreadPolicy::Fixed(fraction) => fraction,
            SpreadPolicy::Adaptive => adaptive_fraction,
        }
    }
}

/// A trade size in whole stable-token units, clamped to the band on
/// which the adaptive curve is defined.
pub open spec fn clamp_spec(amount: u128) -> int {
    let units = (amount as int) / (pow10(TOKEN_DECIMAL as nat) as int);
    if units > ADAPTIVE_MAX_UNITS as int {
        ADAPTIVE_MAX_UNITS as int
    } else {
        units
    }
}

/// Drops the token decimals from `amount` and clamps the result to
/// `[0, ADAPTIVE_MAX_UNITS]`: the argument at which the adaptive curve
/// is evaluated.
pub fn clamp_whole_units(amount: u128) -> (r: u128)
    ensures
        r == clamp_spec(amount),
        r <= ADAPTIVE_MAX_UNITS,
{
    proof {
        lemma_pow10_value();
        lemma_pow10_le(TOKEN_DECIMAL as nat, 38);
        lemma_pow10_pos(TOKEN_DECIMAL as nat);
    }
    let units = amount / pow10_u128(TOKEN_DECIMAL);
    if units > ADAPTIVE_MAX_UNITS {
        ADAPTIVE_MAX_UNITS
    } else {
        units
    }
}

/// The clamp is monotone: a larger trade never maps to a smaller curve
/// argument.
pub proof fn lemma_clamp_monotone(a: u128, b: u128)
    requires
        a <= b,
    ensures
        clamp_spec(a) <= clamp_spec(b),
{
    lemma_pow10_pos(TOKEN_DECIMAL as nat);
    lemma_div_is_ordered(a as int, b as int, pow10(TOKEN_DECIMAL as nat) as int);
}

/// Above the saturation bound the clamp is constant, so the adaptive
/// commission no longer depends on the trade size there.
pub proof fn lemma_clamp_constant_above(amount: u128)
    requires
        amount as int >= ADAPTIVE_MAX_UNITS as int * pow10(TOKEN_DECIMAL as nat),
    ensures
        clamp_spec(amount) == ADAPTIVE_MAX_UNITS as int,
{
    let p = pow10(TOKEN_DECIMAL as nat) as int;
    lemma_pow10_pos(TOKEN_DECIMAL as nat);
    lemma_div_is_ordered(ADAPTIVE_MAX_UNITS as int * p, amount as int, p);
    lemma_div_multiples_vanish(ADAPTIVE_MAX_UNITS as int, p);
}

} // verus!
