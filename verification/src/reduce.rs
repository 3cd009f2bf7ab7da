//! Modular reduction over the fixed modulus q = 3329: Montgomery and Barrett
//! reduction, branchless conditional subtraction, and the exact modular
//! product built from them.

use vstd::prelude::*;
use vstd::calc;
use vstd::arithmetic::div_mod::{
    lemma_add_mod_noop, lemma_fundamental_div_mod, lemma_fundamental_div_mod_converse_mod,
    lemma_mod_multiples_basic, lemma_mul_mod_noop_left,
};

verus! {

/// The modulus q of the polynomial ring.
pub const Q: u16 = 3329;

/// q^-1 mod 2^16, used by Montgomery reduction.
pub const QINV: u32 = 62209;

/// 2^32 mod q, used to lift a Montgomery-reduced product back to a plain
/// residue.
pub const R2MODQ: u16 = 1353;

/// A multiple of 2^16 that is divisible by q is also divisible by q after the
/// factor 2^16 is cancelled; this holds because 2^16 is invertible mod q
/// (65536 * 169 == 1 mod 3329).
pub proof fn lemma_mont_cancel(t: int)
    requires
        (t * 65536) % 3329 == 0,
    ensures
        t % 3329 == 0,
{
    assert((65536int * 169) % 3329 == 1);
    calc! {
        (==)
        t % 3329; {
            assert(t * (65536 * 169) == (t * 65536) * 169) by (nonlinear_arith);
            lemma_mul_mod_noop_left(65536int * 169, t, 3329);
            assert((t * (65536 * 169)) % 3329 == ((65536int * 169) % 3329 * t) % 3329) by {
                assert(t * (65536int * 169) == (65536int * 169) * t) by (nonlinear_arith);
            }
        }
        ((t * 65536) * 169) % 3329; {
            lemma_mul_mod_noop_left(t * 65536, 169, 3329);
        }
        (((t * 65536) % 3329) * 169) % 3329; {
        }
        0int % 3329; {
        }
        0int;
    }
}

/// A value congruent to `x` mod q and lying in [0, q) is exactly `x % q`.
pub proof fn lemma_canonical_mod(r: int, x: int)
    requires
        0 <= r < 3329,
        (r - x) % 3329 == 0,
    ensures
        r == x % 3329,
{
    let d = (r - x) / 3329;
    assert(r - x == 3329 * d + ((r - x) % 3329)) by {
        lemma_fundamental_div_mod(r - x, 3329);
    }
    assert(x == 3329 * (-d) + r);
    lemma_fundamental_div_mod_converse_mod(x, 3329, -d, r);
}

/// Montgomery reduction: for a 32-bit value `a` in the admissible range,
/// returns the 16-bit value congruent to a * 2^-16 mod q, in (-q, q).
pub fn montgomery_reduce(a: i32) -> (r: i16)
    requires
        -(3329 * 32768) <= a < 3329 * 32768,
    ensures
        -3329 < r < 3329,
        (r * 65536 - a) % 3329 == 0,
{
    let ua: u32 = a as u32;
    let masked: u32 = #[verifier::truncate] (((ua as u64) * (QINV as u64)) as u32);
    let ul: u16 = (masked & 0xffff) as u16;
    let u: i16 = ul as i16;
    let t: i32 = (u as i32) * 3329;
    let d: i32 = a - t;
    let r32: i32 = d >> 16;
    proof {
        assert(d % 65536 == 0) by (bit_vector)
            requires
                ua == (a as u32),
                masked == (((ua as u64) * 62209) as u32),
                ul == ((masked & 0xffff) as u16),
                u == (ul as i16),
                t == (((u as i32) * 3329) as i32),
                d == (((a - t)) as i32),
        ;
        assert((d >> 16) * 65536 == d) by (bit_vector)
            requires
                d % 65536 == 0,
        ;
        assert(-(3329 * 65536) < d < 3329 * 65536);
        assert(-3329 < r32 < 3329) by {
            if r32 >= 3329 {
                assert(r32 * 65536 >= 3329 * 65536);
            }
            if r32 <= -3329 {
                assert(r32 * 65536 <= -3329 * 65536);
            }
        }
        assert(r32 * 65536 - a == -(u as int) * 3329) by {
            assert(r32 * 65536 == d);
        }
        assert((-(u as int) * 3329) % 3329 == 0) by {
            assert(-(u as int) * 3329 == 3329 * -(u as int)) by (nonlinear_arith);
            lemma_mod_multiples_basic(-(u as int), 3329);
        }
    }
    r32 as i16
}

/// Barrett reduction: for any 16-bit value `a`, returns a value in [0, q]
/// congruent to `a` mod q; for non-negative `a` it is exactly `a % q`.
pub fn barrett_reduce(a: i16) -> (r: i16)
    ensures
        0 <= r <= 3329,
        (r - a) % 3329 == 0,
        a >= 0 ==> r == a % 3329,
{
    let prod: i32 = 20159 * (a as i32);
    let t: i32 = prod >> 26;
    proof {
        assert(-32 <= t <= 31) by (bit_vector)
            requires
                t == (prod >> 26),
        ;
    }
    let r32: i32 = (a as i32) - t * 3329;
    proof {
        assert(t == prod / 67108864) by (bit_vector)
            requires
                t == (prod >> 26),
        ;
        let s = prod % 67108864;
        assert(prod == 67108864 * t + s && 0 <= s < 67108864) by {
            lemma_fundamental_div_mod(prod as int, 67108864);
        }
        let r = (a as int) - 3329 * t;
        assert(r * 67108864 == -447 * a + 3329 * s) by (nonlinear_arith)
            requires
                prod == 20159 * a,
                prod == 67108864 * t + s,
                r == a - 3329 * t,
        ;
        assert(r32 == r);
        // Bound r through its scaled form.
        assert(-(447 * 32768) <= -447 * a <= 447 * 32768);
        assert(0 <= 3329 * s <= 3329 * 67108863);
        assert(-67108864 < r * 67108864 < 3330 * 67108864);
        assert(0 <= r <= 3329) by {
            if r < 0 {
                assert(r * 67108864 <= -1 * 67108864);
            }
            if r > 3329 {
                assert(r * 67108864 >= 3330 * 67108864);
            }
        }
        if a >= 0 {
            assert(r * 67108864 < 3329 * 67108864);
            assert(r < 3329) by {
                if r >= 3329 {
                    assert(r * 67108864 >= 3329 * 67108864);
                }
            }
        }
        assert((r32 - a) % 3329 == 0) by {
            assert(r32 - a == -(t as int) * 3329);
            assert(-(t as int) * 3329 == 3329 * -(t as int)) by (nonlinear_arith);
            lemma_mod_multiples_basic(-(t as int), 3329);
        }
        if a >= 0 {
            lemma_canonical_mod(r32 as int, a as int);
        }
    }
    r32 as i16
}

/// Branchless conditional subtraction of q: for inputs in [0, 2q), subtracts
/// q exactly when the input is at least q, leaving a value in [0, q).
pub fn csubq(a: i16) -> (r: i16)
    requires
        0 <= a < 2 * 3329,
    ensures
        r == if a >= 3329 { a - 3329 } else { a as int },
        0 <= r < 3329,
{
    let b: i16 = a - 3329;
    let m: i16 = (b >> 15) & 3329;
    proof {
        assert(m == 0 || m == 3329) by (bit_vector)
            requires
                m == ((b >> 15) & 3329),
        ;
    }
    let c: i16 = b + m;
    proof {
        assert((a >= 3329 ==> c == a - 3329) && (a < 3329 ==> c == a)) by (bit_vector)
            requires
                0 <= a < 6658,
                b == ((a - 3329) as i16),
                m == ((b >> 15) & 3329),
                c == (((b + m)) as i16),
        ;
    }
    c
}

/// The exact modular sum a + b mod q, reduced by conditional subtraction.
pub fn add_mod(a: u16, b: u16) -> (r: u16)
    requires
        a < 3329,
        b < 3329,
    ensures
        r == (a + b) % 3329,
{
    let s: u16 = a + b;
    let c: u16 = csubq(s as i16) as u16;
    proof {
        lemma_canonical_mod(c as int, a + b);
    }
    c
}

/// The exact modular difference a - b mod q, reduced by conditional
/// subtraction.
pub fn sub_mod(a: u16, b: u16) -> (r: u16)
    requires
        a < 3329,
        b < 3329,
    ensures
        r == (a - b) % 3329,
{
    let s: u16 = a + 3329 - b;
    let c: u16 = csubq(s as i16) as u16;
    proof {
        lemma_canonical_mod(c as int, a - b);
    }
    c
}

/// The exact modular product a * b mod q, computed through Montgomery and
/// Barrett reduction as every multiply-accumulate of the scheme is.
#[verifier::rlimit(60)]
pub fn mul_mod(a: u16, b: u16) -> (r: u16)
    requires
        a < 3329,
        b < 3329,
    ensures
        r == (a * b) % 3329,
{
    proof {
        assert((a as int) * (b as int) < 3329 * 32768) by (nonlinear_arith)
            requires
                a < 3329,
                b < 3329,
        ;
        assert((a as int) * (b as int) >= 0) by (nonlinear_arith)
            requires
                a < 3329,
                b < 3329,
        ;
    }
    let m1: i16 = montgomery_reduce((a as i32) * (b as i32));
    let m2: i16 = montgomery_reduce((m1 as i32) * (R2MODQ as i32));
    let r0: i16 = barrett_reduce(m2);
    let r1: i16 = csubq(r0);
    proof {
        let ab = (a as int) * (b as int);
        let x1 = m1 as int;
        let x2 = m2 as int;
        let ca = x1 * 65536 - ab;
        let cb = x2 * 65536 - x1 * 1353;
        assert((x2 - ab) * 65536 * 65536 == cb * 65536 + ca * 1353 + ab * (1353 - 65536 * 65536))
            by (nonlinear_arith)
            requires
                ca == x1 * 65536 - ab,
                cb == x2 * 65536 - x1 * 1353,
        ;
        assert((cb * 65536) % 3329 == 0) by {
            lemma_mul_mod_noop_left(cb, 65536, 3329);
            assert((cb % 3329) * 65536 == 0) by {
                assert(cb % 3329 == 0);
            }
        }
        assert((ca * 1353) % 3329 == 0) by {
            lemma_mul_mod_noop_left(ca, 1353, 3329);
            assert((ca % 3329) * 1353 == 0) by {
                assert(ca % 3329 == 0);
            }
        }
        assert((ab * (1353 - 65536 * 65536)) % 3329 == 0) by {
            assert(((1353 - 65536 * 65536) as int) % 3329 == 0);
            assert(ab * (1353 - 65536 * 65536) == (1353 - 65536 * 65536) * ab)
                by (nonlinear_arith);
            lemma_mul_mod_noop_left(1353 - 65536 * 65536, ab, 3329);
            assert((((1353 - 65536 * 65536) as int) % 3329) * ab == 0);
        }
        assert(((x2 - ab) * 65536 * 65536) % 3329 == 0) by {
            lemma_add_mod_noop(cb * 65536, ca * 1353, 3329);
            lemma_add_mod_noop(cb * 65536 + ca * 1353, ab * (1353 - 65536 * 65536), 3329);
        }
        lemma_mont_cancel((x2 - ab) * 65536);
        lemma_mont_cancel(x2 - ab);
        // r0 is congruent to m2, hence to a * b; r1 is its canonical form.
        assert(((r0 as int) - ab) % 3329 == 0) by {
            let cc = (r0 as int) - x2;
            assert(cc % 3329 == 0);
            lemma_add_mod_noop(cc, x2 - ab, 3329);
            assert(cc + (x2 - ab) == (r0 as int) - ab);
        }
        assert(((r1 as int) - ab) % 3329 == 0) by {
            if r0 >= 3329 {
                let cd = (r1 as int) - (r0 as int);
                assert(cd == -3329);
                lemma_add_mod_noop(cd, (r0 as int) - ab, 3329);
                assert(cd + ((r0 as int) - ab) == (r1 as int) - ab);
            }
        }
        lemma_canonical_mod(r1 as int, ab);
    }
    r1 as u16
}

} // verus!
