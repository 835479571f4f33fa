//! Widened-precision fixed-point arithmetic.
//!
//! Every balance conversion in the engine is `a * b / c` on 128-bit
//! unsigned values. The product is carried in a 256-bit accumulator
//! (two 128-bit limbs) so that nothing overflows before the final
//! narrowing division; the narrowing itself reports when the quotient
//! does not fit back into 128 bits.

use vstd::arithmetic::div_mod::{
    lemma_basic_div, lemma_div_is_ordered, lemma_div_multiples_vanish, lemma_div_pos_is_pos,
    lemma_fundamental_div_mod, lemma_fundamental_div_mod_converse, lemma_hoist_over_denominator,
    lemma_mod_multiples_vanish, lemma_multiply_divide_lt, lemma_small_mod,
};
use vstd::arithmetic::power2::{
    lemma2_to64, lemma2_to64_rest, lemma_pow2_adds, lemma_pow2_pos, lemma_pow2_strictly_increases,
    pow2,
};
use vstd::prelude::*;

verus! {

/// 2^64, the base used to split a 128-bit factor into halves.
pub const BASE64: u128 = 0x1_0000_0000_0000_0000;

/// The largest exponent for which 10^n still fits into 128 bits.
pub const MAX_POW10: u8 = 38;

/// 10^n, the scaling factor for `n` decimal places.
pub open spec fn pow10(n: nat) -> nat
    decreases n,
{
    if n == 0 {
        1
    } else {
        10 * pow10((n - 1) as nat)
    }
}

pub proof fn lemma_pow10_pos(n: nat)
    ensures
        pow10(n) >= 1,
    decreases n,
{
    if n > 0 {
        lemma_pow10_pos((n - 1) as nat);
    }
}

pub proof fn lemma_pow10_le(m: nat, n: nat)
    requires
        m <= n,
    ensures
        pow10(m) <= pow10(n),
    decreases n,
{
    if m < n {
        lemma_pow10_le(m, (n - 1) as nat);
        lemma_pow10_pos((n - 1) as nat);
    }
}

pub proof fn lemma_pow10_value()
    ensures
        pow10(6) == 1_000_000,
        pow10(MAX_POW10 as nat) == 100_000_000_000_000_000_000_000_000_000_000_000_000,
        pow10(MAX_POW10 as nat) <= u128::MAX,
{
    reveal_with_fuel(pow10, 40);
}

/// 10^n as a 128-bit value.
pub fn pow10_u128(n: u8) -> (r: u128)
    requires
        n <= MAX_POW10,
    ensures
        r == pow10(n as nat),
        r >= 1,
{
    proof {
        lemma_pow10_value();
        lemma_pow10_le(n as nat, MAX_POW10 as nat);
    }
    let mut acc: u128 = 1;
    let mut i: u8 = 0;
    while i < n
        invariant
            i <= n <= MAX_POW10,
            acc == pow10(i as nat),
            pow10(n as nat) <= u128::MAX,
        decreases n - i,
    {
        proof {
            assert(pow10((i + 1) as nat) == 10 * pow10(i as nat));
            lemma_pow10_le((i + 1) as nat, n as nat);
        }
        acc = acc * 10;
        i = i + 1;
    }
    proof {
        lemma_pow10_pos(n as nat);
    }
    acc
}

/// 2^127, the value of the top bit of a 128-bit limb.
pub const TOP_BIT: u128 = 0x8000_0000_0000_0000_0000_0000_0000_0000;

/// 2^128 as a mathematical integer, the weight of the high limb.
pub open spec fn limb() -> int {
    BASE64 as int * BASE64 as int
}

proof fn lemma_pow2_facts()
    ensures
        pow2(0) == 1,
        pow2(1) == 2,
        pow2(64) == BASE64,
        pow2(127) == TOP_BIT,
        pow2(128) == limb(),
        pow2(128) == u128::MAX + 1,
{
    lemma2_to64();
    lemma2_to64_rest();
    lemma_pow2_adds(64, 64);
    lemma_pow2_adds(63, 64);
}

/// The full 256-bit product of two 128-bit values, as (high, low) limbs.
pub fn mul_wide(a: u128, b: u128) -> (r: (u128, u128))
    ensures
        r.0 as int * limb() + r.1 as int == a as int * b as int,
{
    let ghost base = BASE64 as int;
    let ah = a / BASE64;
    let al = a % BASE64;
    let bh = b / BASE64;
    let bl = b % BASE64;
    proof {
        lemma_fundamental_div_mod(a as int, base);
        lemma_fundamental_div_mod(b as int, base);
        assert(ah < BASE64 && bh < BASE64) by {
            lemma_multiply_divide_lt(a as int, base, base);
            lemma_multiply_divide_lt(b as int, base, base);
        }
        assert(al as int * bl as int <= (base - 1) * (base - 1) && al as int * bh as int <= (base
            - 1) * (base - 1) && ah as int * bl as int <= (base - 1) * (base - 1) && ah as int
            * bh as int <= (base - 1) * (base - 1)) by (nonlinear_arith)
            requires
                al < base && bl < base && ah < base && bh < base,
        ;
    }
    let p0 = al * bl;
    let p1 = al * bh;
    let p2 = ah * bl;
    let p3 = ah * bh;
    proof {
        lemma_fundamental_div_mod(p0 as int, base);
        assert(p0 / BASE64 < BASE64) by {
            lemma_multiply_divide_lt(p0 as int, base, base);
        }
    }
    let mid = p1 + p0 / BASE64;
    proof {
        lemma_fundamental_div_mod(mid as int, base);
        assert(mid / BASE64 < BASE64) by {
            lemma_multiply_divide_lt(mid as int, base, base);
        }
    }
    let mid2 = p2 + mid % BASE64;
    proof {
        lemma_fundamental_div_mod(mid2 as int, base);
        assert(mid2 / BASE64 < BASE64) by {
            lemma_multiply_divide_lt(mid2 as int, base, base);
        }
    }
    let hi = p3 + mid / BASE64 + mid2 / BASE64;
    let lo = (mid2 % BASE64) * BASE64 + p0 % BASE64;
    proof {
        assert(a as int * b as int == p3 as int * base * base + p1 as int * base + p2 as int * base
            + p0 as int) by (nonlinear_arith)
            requires
                a == ah as int * base + al as int,
                b == bh as int * base + bl as int,
                p0 == al as int * bl as int,
                p1 == al as int * bh as int,
                p2 == ah as int * bl as int,
                p3 == ah as int * bh as int,
        ;
        assert(hi as int * (base * base) + lo as int == a as int * b as int) by (nonlinear_arith)
            requires
                a as int * b as int == p3 as int * base * base + p1 as int * base + p2 as int
                    * base + p0 as int,
                hi as int == p3 as int + mid as int / base + mid2 as int / base,
                lo as int == (mid2 as int % base) * base + p0 as int % base,
                mid as int == p1 as int + p0 as int / base,
                mid2 as int == p2 as int + mid as int % base,
                p0 as int == base * (p0 as int / base) + p0 as int % base,
                mid as int == base * (mid as int / base) + mid as int % base,
                mid2 as int == base * (mid2 as int / base) + mid2 as int % base,
        ;
        assert(limb() == base * base);
    }
    (hi, lo)
}

/// One modular addition step: `x + y` reduced once by the modulus `c`,
/// returning the reduced value and the carry into the quotient.
fn add_mod(x: u128, y: u128, c: u128) -> (r: (u128, u128))
    requires
        x < c,
        y < c,
    ensures
        x as int + y as int == r.1 as int * c as int + r.0 as int,
        r.0 < c,
        r.1 <= 1,
{
    if y >= c - x {
        (x - (c - y), 1)
    } else {
        (x + y, 0)
    }
}

/// Long division of the 256-bit value `hi * 2^128 + lo` by `c`,
/// returning quotient and remainder. `hi < c` guarantees that the
/// quotient fits into 128 bits.
pub fn div_wide(hi: u128, lo: u128, c: u128) -> (r: (u128, u128))
    requires
        1 < c,
        hi < c,
    ensures
        hi as int * limb() + lo as int == r.0 as int * c as int + r.1 as int,
        r.1 < c,
{
    let mut q: u128 = 0;
    let mut rem: u128 = hi;
    let mut rem_lo: u128 = lo;
    let mut i: usize = 0;
    proof {
        lemma_pow2_facts();
        assert((lo as int) % (pow2(128) as int) == lo as int && (lo as int) / (pow2(128) as int)
            == 0) by {
            lemma_small_mod(lo as nat, pow2(128));
            lemma_basic_div(lo as int, pow2(128) as int);
        }
    }
    while i < 128
        invariant
            1 < c,
            hi < c,
            i <= 128,
            rem < c,
            q as int * c as int + rem as int == hi as int * pow2(i as nat) + (lo as int) / (pow2(
                (128 - i) as nat,
            ) as int),
            rem_lo as int == ((lo as int) % (pow2((128 - i) as nat) as int)) * (pow2(
                i as nat,
            ) as int),
        decreases 128 - i,
    {
        let ghost n_hi = (128 - i) as nat;  // bits of lo not yet consumed
        let ghost n_lo = (127 - i) as nat;
        let ghost cap = (lo as int) % (pow2(n_hi) as int);  // those bits, as a value
        proof {
            lemma_pow2_facts();
            lemma_pow2_pos(n_hi);
            lemma_pow2_pos(n_lo);
            lemma_pow2_pos(i as nat);
            assert(pow2(n_hi) == 2 * pow2(n_lo)) by {
                lemma_pow2_adds(1, n_lo);
            }
        }
        let ghost bit_val = cap / (pow2(n_lo) as int);
        proof {
            assert(0 <= bit_val < 2) by {
                lemma_multiply_divide_lt(cap, pow2(n_lo) as int, 2);
                lemma_div_pos_is_pos(cap, pow2(n_lo) as int);
            }
            // the top bit of rem_lo is the next bit of lo
            assert(pow2(127) == pow2(n_lo) * pow2(i as nat)) by {
                lemma_pow2_adds(n_lo, i as nat);
            }
            assert(rem_lo as int / (pow2(127) as int) == bit_val) by (nonlinear_arith)
                requires
                    rem_lo as int == cap * (pow2(i as nat) as int),
                    pow2(127) as int == pow2(n_lo) as int * pow2(i as nat) as int,
                    bit_val == cap / (pow2(n_lo) as int),
                    pow2(i as nat) > 0,
                    pow2(n_lo) > 0,
                    cap >= 0,
            ;
        }
        let bit: u128 = if rem_lo >= TOP_BIT {
            1
        } else {
            0
        };
        proof {
            lemma_fundamental_div_mod(rem_lo as int, pow2(127) as int);
            if rem_lo >= TOP_BIT {
                assert(bit_val >= 1) by {
                    lemma_div_is_ordered(pow2(127) as int, rem_lo as int, pow2(127) as int);
                    lemma_div_multiples_vanish(1, pow2(127) as int);
                }
            } else {
                assert(bit_val == 0) by {
                    lemma_multiply_divide_lt(rem_lo as int, pow2(127) as int, 1);
                }
            }
            assert(bit == bit_val);
        }
        // drop the consumed bit and shift the tail up
        proof {
            lemma_fundamental_div_mod(cap, pow2(n_lo) as int);
            assert(cap % (pow2(n_lo) as int) == (lo as int) % (pow2(n_lo) as int)) by {
                lemma_fundamental_div_mod(lo as int, pow2(n_hi) as int);
                lemma_mod_multiples_vanish(
                    2 * ((lo as int) / (pow2(n_hi) as int)),
                    cap,
                    pow2(n_lo) as int,
                );
                assert(((lo as int) / (pow2(n_hi) as int)) * (pow2(n_hi) as int) == (2 * ((
                lo as int) / (pow2(n_hi) as int))) * (pow2(n_lo) as int)) by (nonlinear_arith)
                    requires
                        pow2(n_hi) as int == 2 * pow2(n_lo) as int,
                ;
            }
            assert(rem_lo as int - bit as int * TOP_BIT as int == ((lo as int) % (pow2(
                n_lo,
            ) as int)) * (pow2(i as nat) as int)) by (nonlinear_arith)
                requires
                    rem_lo as int == cap * (pow2(i as nat) as int),
                    cap == bit_val * (pow2(n_lo) as int) + (lo as int) % (pow2(n_lo) as int),
                    TOP_BIT as int == pow2(n_lo) as int * pow2(i as nat) as int,
                    bit == bit_val,
            ;
            assert(pow2((i + 1) as nat) == pow2(i as nat) * 2) by {
                lemma_pow2_adds(i as nat, 1);
            }
            assert(((lo as int) % (pow2(n_lo) as int)) * (pow2(i as nat) as int) * 2 == ((
            lo as int) % (pow2(n_lo) as int)) * (pow2((i + 1) as nat) as int))
                by (nonlinear_arith)
                requires
                    pow2((i + 1) as nat) as int == pow2(i as nat) as int * 2,
            ;
            assert(((lo as int) % (pow2(n_lo) as int)) * (pow2((i + 1) as nat) as int) < pow2(127)
                as int * 2) by (nonlinear_arith)
                requires
                    (lo as int) % (pow2(n_lo) as int) < pow2(n_lo) as int,
                    (lo as int) % (pow2(n_lo) as int) >= 0,
                    pow2(127) as int == pow2(n_lo) as int * pow2(i as nat) as int,
                    pow2((i + 1) as nat) as int == pow2(i as nat) as int * 2,
                    pow2(i as nat) > 0,
            ;
            assert(pow2(127) * 2 == pow2(128)) by {
                lemma_pow2_adds(127, 1);
            }
        }
        rem_lo = (rem_lo - bit * TOP_BIT) * 2;
        // fold the bit into the running remainder, reducing by c
        let (r1, k1) = add_mod(rem, rem, c);
        let (r2, k2) = add_mod(r1, bit, c);
        proof {
            // value consumed so far, one more bit appended
            let v_old = hi as int * pow2(i as nat) + (lo as int) / (pow2(n_hi) as int);
            let v_new = hi as int * pow2((i + 1) as nat) + (lo as int) / (pow2(n_lo) as int);
            assert((lo as int) / (pow2(n_lo) as int) == 2 * ((lo as int) / (pow2(n_hi) as int))
                + bit_val) by {
                lemma_fundamental_div_mod(lo as int, pow2(n_hi) as int);
                lemma_hoist_over_denominator(cap, 2 * ((lo as int) / (pow2(n_hi) as int)), pow2(n_lo));
                assert(((lo as int) / (pow2(n_hi) as int)) * (pow2(n_hi) as int) == (2 * ((
                lo as int) / (pow2(n_hi) as int))) * (pow2(n_lo) as int)) by (nonlinear_arith)
                    requires
                        pow2(n_hi) as int == 2 * pow2(n_lo) as int,
                ;
            }
            assert(pow2((i + 1) as nat) == pow2(i as nat) * 2) by {
                lemma_pow2_adds(i as nat, 1);
            }
            assert(hi as int * pow2((i + 1) as nat) == 2 * (hi as int * pow2(i as nat)))
                by (nonlinear_arith)
                requires
                    pow2((i + 1) as nat) as int == pow2(i as nat) as int * 2,
            ;
            assert(v_new == 2 * v_old + bit_val);
            assert(v_new == (2 * q as int + k1 as int + k2 as int) * c as int + r2 as int)
                by (nonlinear_arith)
                requires
                    v_new == 2 * (q as int * c as int + rem as int) + bit as int,
                    rem as int + rem as int == k1 as int * c as int + r1 as int,
                    r1 as int + bit as int == k2 as int * c as int + r2 as int,
                    bit == bit_val,
            ;
            // the new quotient still has headroom
            assert(((lo as int) / (pow2(n_lo) as int)) < pow2((i + 1) as nat)) by {
                assert((lo as int) < pow2(n_lo) as int * pow2((i + 1) as nat) as int) by {
                    lemma_pow2_adds(n_lo, (i + 1) as nat);
                    assert((lo as int) < pow2(128));
                }
                lemma_multiply_divide_lt(lo as int, pow2(n_lo) as int, pow2((i + 1) as nat) as int);
            }
            assert(v_new < c as int * pow2((i + 1) as nat)) by (nonlinear_arith)
                requires
                    v_new == hi as int * pow2((i + 1) as nat) + (lo as int) / (pow2(n_lo) as int),
                    ((lo as int) / (pow2(n_lo) as int)) < pow2((i + 1) as nat),
                    hi < c,
                    pow2((i + 1) as nat) > 0,
            ;
            lemma_pow2_pos((i + 1) as nat);
            assert((2 * q as int + k1 as int + k2 as int) < pow2((i + 1) as nat))
                by (nonlinear_arith)
                requires
                    v_new == (2 * q as int + k1 as int + k2 as int) * c as int + r2 as int,
                    v_new < c as int * pow2((i + 1) as nat),
                    r2 >= 0,
                    c > 1,
                    2 * q as int + k1 as int + k2 as int >= 0,
                    pow2((i + 1) as nat) > 0,
            ;
            assert(pow2((i + 1) as nat) <= pow2(128)) by {
                if i + 1 < 128 {
                    lemma_pow2_strictly_increases((i + 1) as nat, 128);
                }
            }
            assert(2 * q as int + k1 as int + k2 as int <= u128::MAX);
        }
        q = q * 2 + k1 + k2;
        rem = r2;
        i = i + 1;
    }
    proof {
        lemma_pow2_facts();
        assert((lo as int) / (pow2(0) as int) == lo as int) by {
            vstd::arithmetic::div_mod::lemma_div_basics(lo as int);
        }
    }
    (q, rem)
}

/// `a * b / c` with a 256-bit intermediate product; `None` when the
/// exact quotient does not fit into 128 bits.
pub fn mul_div(a: u128, b: u128, c: u128) -> (r: Option<u128>)
    requires
        c > 0,
    ensures
        match r {
            Some(v) => v as int == a as int * b as int / (c as int) && a as int * b as int / (
            c as int) <= u128::MAX,
            None => a as int * b as int / (c as int) > u128::MAX,
        },
{
    let (hi, lo) = mul_wide(a, b);
    proof {
        lemma_pow2_facts();
        lemma_pow2_pos(128);
    }
    if c == 1 {
        proof {
            vstd::arithmetic::div_mod::lemma_div_basics(a as int * b as int);
        }
        if hi == 0 {
            Some(lo)
        } else {
            proof {
                assert(a as int * b as int >= limb()) by (nonlinear_arith)
                    requires
                        a as int * b as int == hi as int * limb() + lo as int,
                        hi >= 1,
                        lo >= 0,
                        limb() > 0,
                ;
            }
            None
        }
    } else if hi >= c {
        proof {
            assert(a as int * b as int >= c as int * limb()) by (nonlinear_arith)
                requires
                    a as int * b as int == hi as int * limb() + lo as int,
                    hi >= c,
                    lo >= 0,
                    limb() > 0,
            ;
            lemma_div_is_ordered(c as int * limb(), a as int * b as int, c as int);
            lemma_div_multiples_vanish(limb(), c as int);
        }
        None
    } else {
        let (quot, rem) = div_wide(hi, lo, c);
        proof {
            lemma_fundamental_div_mod_converse(
                a as int * b as int,
                c as int,
                quot as int,
                rem as int,
            );
        }
        Some(quot)
    }
}

} // verus!
