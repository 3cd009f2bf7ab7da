//! The transform's central law: applying the inverse transform to the
//! forward transform gives every polynomial back.  The proof works layer
//! by layer: a matched pair of butterfly layers doubles every coefficient
//! mod q because the paired root powers multiply to -1, inverse layers
//! commute with scalar factors, and the seven doublings are cancelled by
//! the final multiplication by 128^-1.

use vstd::prelude::*;
use vstd::calc;
use vstd::arithmetic::div_mod::{lemma_add_mod_noop, lemma_fundamental_div_mod,
    lemma_fundamental_div_mod_converse, lemma_mod_multiples_vanish, lemma_mul_mod_noop_left,
    lemma_mul_mod_noop_right, lemma_small_mod, lemma_sub_mod_noop};
use crate::ntt::{fwd_layer, fwd_upto, inv_layer, inv_upto, layer_blocks, layer_len, spec_brv7,
    spec_invntt, spec_ntt, spec_pow17, spec_zeta};
use crate::poly::coeffs_wf;

verus! {

/// The 7-bit reversal, over a machine integer, for the bit-level argument.
pub open spec fn brv7u(x: u32) -> int {
    (x % 2) * 64 + ((x / 2) % 2) * 32 + ((x / 4) % 2) * 16 + ((x / 8) % 2) * 8 + ((x / 16) % 2)
        * 4 + ((x / 32) % 2) * 2 + ((x / 64) % 2)
}

/// In every layer, the root indices that forward and inverse butterflies
/// pair up have 7-bit reversals summing to 128.
proof fn lemma_brv_pair(blocks: u32, b: u32)
    requires
        blocks == 1 || blocks == 2 || blocks == 4 || blocks == 8 || blocks == 16 || blocks == 32
            || blocks == 64,
        b < blocks,
    ensures
        spec_brv7(blocks + b) + spec_brv7(2 * blocks - 1 - b) == 128,
{
    assert(brv7u((blocks + b) as u32) + brv7u((2 * blocks - 1 - b) as u32) == 128)
        by (bit_vector)
        requires
            blocks == 1 || blocks == 2 || blocks == 4 || blocks == 8 || blocks == 16 || blocks
                == 32 || blocks == 64,
            b < blocks,
    ;
    assert(spec_brv7(blocks + b) == brv7u((blocks + b) as u32));
    assert(spec_brv7(2 * blocks - 1 - b) == brv7u((2 * blocks - 1 - b) as u32));
}

/// Every root power is a canonical residue.
proof fn lemma_pow17_range(e: nat)
    ensures
        spec_pow17(e) < 3329,
    decreases e,
{
    if e == 0 {
    } else {
        lemma_pow17_range((e - 1) as nat);
        vstd::arithmetic::div_mod::lemma_mod_bound(
            17 * spec_pow17((e - 1) as nat) as int,
            3329,
        );
    }
}

/// Powers of the primitive root multiply like their exponents add.
proof fn lemma_pow17_add(e1: nat, e2: nat)
    ensures
        spec_pow17((e1 + e2) as nat) == (spec_pow17(e1) as int * spec_pow17(e2) as int) % 3329,
    decreases e2,
{
    lemma_pow17_range(e1);
    if e2 == 0 {
        lemma_small_mod(spec_pow17(e1), 3329);
        assert(spec_pow17((e1 + e2) as nat) == spec_pow17(e1));
        assert(spec_pow17(e2) == 1);
        assert(spec_pow17(e1) as int * 1 == spec_pow17(e1) as int);
    } else {
        lemma_pow17_add(e1, (e2 - 1) as nat);
        let a = spec_pow17(e1) as int;
        let b = spec_pow17((e2 - 1) as nat) as int;
        // pow17(e1 + e2) unfolds to (17 * pow17(e1 + e2 - 1)) % q
        assert(spec_pow17((e1 + e2) as nat) == (17 * spec_pow17((e1 + e2 - 1) as nat) as int)
            % 3329);
        calc! {
            (==)
            (17 * spec_pow17((e1 + e2 - 1) as nat) as int) % 3329; {
                lemma_mul_mod_noop_right(17, a * b, 3329);
            }
            (17 * (a * b)) % 3329; {
                assert(17 * (a * b) == a * (17 * b)) by (nonlinear_arith);
            }
            (a * (17 * b)) % 3329; {
                lemma_mul_mod_noop_right(a, 17 * b, 3329);
            }
            (a * ((17 * b) % 3329)) % 3329; {
                assert(spec_pow17(e2) == (17 * b) % 3329);
            }
            (a * spec_pow17(e2) as int) % 3329;
        }
    }
}

/// The primitive root raised to 128 is -1 mod q; established by repeated
/// squaring through the concrete intermediate values.
proof fn lemma_pow17_128()
    ensures
        spec_pow17(128) == 3328,
{
    assert(spec_pow17(0) == 1);
    assert(spec_pow17(1) == 17int % 3329) by {
        assert(spec_pow17(1) == (17 * spec_pow17(0) as int) % 3329);
    }
    lemma_small_mod(17, 3329);
    lemma_pow17_add(1, 1);
    assert(spec_pow17(2) == 289int % 3329);
    lemma_small_mod(289, 3329);
    lemma_pow17_add(2, 2);
    assert(spec_pow17(4) == 83521int % 3329);
    lemma_fundamental_div_mod_converse(83521, 3329, 25, 296);
    lemma_pow17_add(4, 4);
    assert(spec_pow17(8) == 87616int % 3329);
    lemma_fundamental_div_mod_converse(87616, 3329, 26, 1062);
    lemma_pow17_add(8, 8);
    assert(spec_pow17(16) == 1127844int % 3329);
    lemma_fundamental_div_mod_converse(1127844, 3329, 338, 2642);
    lemma_pow17_add(16, 16);
    assert(spec_pow17(32) == 6980164int % 3329);
    lemma_fundamental_div_mod_converse(6980164, 3329, 2096, 2580);
    lemma_pow17_add(32, 32);
    assert(spec_pow17(64) == 6656400int % 3329);
    lemma_fundamental_div_mod_converse(6656400, 3329, 1999, 1729);
    lemma_pow17_add(64, 64);
    assert(spec_pow17(128) == 2989441int % 3329);
    lemma_fundamental_div_mod_converse(2989441, 3329, 897, 3328);
}

/// The reversal of an index below 128 lies below 128, so it is a valid
/// exponent.
proof fn lemma_brv_range(k: int)
    requires
        0 <= k < 128,
    ensures
        0 <= spec_brv7(k) <= 127,
{
    vstd::arithmetic::div_mod::lemma_mod_bound(k, 2);
    vstd::arithmetic::div_mod::lemma_mod_bound(k / 2, 2);
    vstd::arithmetic::div_mod::lemma_mod_bound(k / 4, 2);
    vstd::arithmetic::div_mod::lemma_mod_bound(k / 8, 2);
    vstd::arithmetic::div_mod::lemma_mod_bound(k / 16, 2);
    vstd::arithmetic::div_mod::lemma_mod_bound(k / 32, 2);
    vstd::arithmetic::div_mod::lemma_mod_bound(k / 64, 2);
}

/// Root powers at reversal-paired indices multiply to -1 mod q.
proof fn lemma_zeta_neg_one(k1: int, k2: int)
    requires
        0 <= k1 < 128,
        0 <= k2 < 128,
        spec_brv7(k1) + spec_brv7(k2) == 128,
    ensures
        (spec_zeta(k1) * spec_zeta(k2)) % 3329 == 3328,
{
    lemma_brv_range(k1);
    lemma_brv_range(k2);
    let b1 = spec_brv7(k1) as nat;
    let b2 = spec_brv7(k2) as nat;
    lemma_pow17_add(b1, b2);
    lemma_pow17_128();
}

/// Every coefficient multiplied by the factor c, mod q.
pub open spec fn scale(s: Seq<u16>, c: int) -> Seq<u16> {
    Seq::new(s.len(), |i: int| ((s[i] * c) % 3329) as u16)
}

/// Scaling by one changes nothing.
proof fn lemma_scale_one(s: Seq<u16>)
    requires
        coeffs_wf(s),
    ensures
        scale(s, 1) == s,
{
    assert forall|i: int| 0 <= i < 256 implies scale(s, 1)[i] == s[i] by {
        lemma_small_mod(s[i] as nat, 3329);
    }
    assert(scale(s, 1) =~= s);
}

/// Two scalings compose into one.
proof fn lemma_scale_scale(s: Seq<u16>, c1: int, c2: int)
    requires
        s.len() == 256,
    ensures
        scale(scale(s, c1), c2) == scale(s, c1 * c2),
{
    assert forall|i: int| 0 <= i < 256 implies scale(scale(s, c1), c2)[i] == scale(s, c1 * c2)[i]
        by {
        let a = s[i] as int;
        calc! {
            (==)
            (((a * c1) % 3329) * c2) % 3329; {
                lemma_mul_mod_noop_left(a * c1, c2, 3329);
            }
            ((a * c1) * c2) % 3329; {
                assert((a * c1) * c2 == a * (c1 * c2)) by (nonlinear_arith);
            }
            (a * (c1 * c2)) % 3329;
        }
    }
    assert(scale(scale(s, c1), c2) =~= scale(s, c1 * c2));
}

/// The layers keep coefficients canonical.
proof fn lemma_fwd_layer_wf(s: Seq<u16>, len: int, blocks: int)
    ensures
        coeffs_wf(fwd_layer(s, len, blocks)),
{
    assert forall|i: int| 0 <= i < 256 implies fwd_layer(s, len, blocks)[i] < 3329 by {
        let g = i / (2 * len);
        let j = i % (2 * len);
        if j < len {
            vstd::arithmetic::div_mod::lemma_mod_bound(
                s[i] + spec_zeta(blocks + g) * s[i + len],
                3329,
            );
        } else {
            vstd::arithmetic::div_mod::lemma_mod_bound(
                s[i - len] - spec_zeta(blocks + g) * s[i],
                3329,
            );
        }
    }
}

/// The forward prefix keeps coefficients canonical.
proof fn lemma_fwd_upto_wf(s: Seq<u16>, n: int)
    requires
        coeffs_wf(s),
        0 <= n <= 7,
    ensures
        coeffs_wf(fwd_upto(s, n)),
    decreases n,
{
    if n > 0 {
        lemma_fwd_upto_wf(s, n - 1);
        lemma_fwd_layer_wf(fwd_upto(s, n - 1), layer_len(n - 1), layer_blocks(n - 1));
    }
}

/// The low half of a matched butterfly pair: the sum of the twisted sum
/// and twisted difference is twice the original low coefficient.
proof fn lemma_cancel_low(a: int, b: int, z: int)
    ensures
        ((a + z * b) % 3329 + (a - z * b) % 3329) % 3329 == (a * 2) % 3329,
{
    lemma_add_mod_noop(a + z * b, a - z * b, 3329);
}

/// The high half of a matched butterfly pair: multiplying the difference
/// of the twisted halves by the paired root power gives twice the
/// original high coefficient, because the two root powers multiply to -1.
proof fn lemma_cancel_high(a: int, b: int, z: int, z2: int)
    requires
        (z * z2) % 3329 == 3328,
    ensures
        (z2 * ((a - z * b) % 3329 - (a + z * b) % 3329)) % 3329 == (b * 2) % 3329,
{
    let x = (a - z * b) % 3329;
    let y = (a + z * b) % 3329;
    calc! {
        (==)
        (z2 * (x - y)) % 3329; {
            lemma_mul_mod_noop_right(z2, x - y, 3329);
            lemma_sub_mod_noop(a - z * b, a + z * b, 3329);
            assert((a - z * b) - (a + z * b) == (-2) * (z * b)) by (nonlinear_arith);
            lemma_mul_mod_noop_right(z2, (-2) * (z * b), 3329);
        }
        (z2 * ((-2) * (z * b))) % 3329; {
            assert(z2 * ((-2) * (z * b)) == (z * z2) * ((-2) * b)) by (nonlinear_arith);
        }
        ((z * z2) * ((-2) * b)) % 3329; {
            lemma_mul_mod_noop_left(z * z2, (-2) * b, 3329);
        }
        (((z * z2) % 3329) * ((-2) * b)) % 3329; {
        }
        (3328 * ((-2) * b)) % 3329; {
            assert(3328 * ((-2) * b) == 3329 * ((-2) * b) + 2 * b) by (nonlinear_arith);
            lemma_mod_multiples_vanish((-2) * b, 2 * b, 3329);
        }
        (2 * b) % 3329; {
        }
        (b * 2) % 3329;
    }
}

/// The low half of an inverse butterfly on scaled input equals the scaled
/// inverse butterfly.
proof fn lemma_lin_low(a: int, b: int, c: int)
    ensures
        ((a * c) % 3329 + (b * c) % 3329) % 3329 == (((a + b) % 3329) * c) % 3329,
{
    calc! {
        (==)
        ((a * c) % 3329 + (b * c) % 3329) % 3329; {
            lemma_add_mod_noop(a * c, b * c, 3329);
        }
        (a * c + b * c) % 3329; {
            assert(a * c + b * c == (a + b) * c) by (nonlinear_arith);
        }
        ((a + b) * c) % 3329; {
            lemma_mul_mod_noop_left(a + b, c, 3329);
        }
        (((a + b) % 3329) * c) % 3329;
    }
}

/// The high half of an inverse butterfly on scaled input equals the
/// scaled inverse butterfly.
proof fn lemma_lin_high(a: int, b: int, c: int, z2: int)
    ensures
        (z2 * ((b * c) % 3329 - (a * c) % 3329)) % 3329 == (((z2 * (b - a)) % 3329) * c) % 3329,
{
    calc! {
        (==)
        (z2 * ((b * c) % 3329 - (a * c) % 3329)) % 3329; {
            lemma_mul_mod_noop_right(z2, (b * c) % 3329 - (a * c) % 3329, 3329);
            lemma_sub_mod_noop(b * c, a * c, 3329);
            assert(b * c - a * c == (b - a) * c) by (nonlinear_arith);
            lemma_mul_mod_noop_right(z2, (b - a) * c, 3329);
        }
        (z2 * ((b - a) * c)) % 3329; {
            assert(z2 * ((b - a) * c) == (z2 * (b - a)) * c) by (nonlinear_arith);
        }
        ((z2 * (b - a)) * c) % 3329; {
            lemma_mul_mod_noop_left(z2 * (b - a), c, 3329);
        }
        (((z2 * (b - a)) % 3329) * c) % 3329;
    }
}

/// A matched inverse layer undoes a forward layer up to a factor of two:
/// the sums cancel the differences, and the paired root powers multiply
/// to -1, turning the twisted difference back into the original upper
/// coefficient.
#[verifier::rlimit(60)]
proof fn lemma_layer_cancel(s: Seq<u16>, len: int, blocks: int)
    requires
        coeffs_wf(s),
        len * blocks == 128,
        2 <= len <= 128,
        blocks == 1 || blocks == 2 || blocks == 4 || blocks == 8 || blocks == 16 || blocks == 32
            || blocks == 64,
    ensures
        inv_layer(fwd_layer(s, len, blocks), len, blocks) == scale(s, 2),
{
    let f = fwd_layer(s, len, blocks);
    assert forall|i: int| 0 <= i < 256 implies inv_layer(f, len, blocks)[i] == scale(s, 2)[i] by {
        lemma_fundamental_div_mod(i, 2 * len);
        let g = i / (2 * len);
        let j = i % (2 * len);
        assert(g < blocks) by (nonlinear_arith)
            requires
                0 <= i < 256,
                len * blocks == 128,
                2 * len * g + j == i,
                0 <= j < 2 * len,
                len >= 2,
        ;
        lemma_brv_pair(blocks as u32, g as u32);
        lemma_zeta_neg_one(blocks + g, 2 * blocks - 1 - g);
        let z = spec_zeta(blocks + g);
        let z2 = spec_zeta(2 * blocks - 1 - g);
        if j < len {
            assert(i + len < 256) by (nonlinear_arith)
                requires
                    len * blocks == 128,
                    2 * len * g + j == i,
                    g < blocks,
                    0 <= j < len,
                    len >= 2,
            ;
            lemma_fundamental_div_mod_converse(i + len, 2 * len, g, j + len);
            let a = s[i] as int;
            let b = s[i + len] as int;
            assert(f[i] == (((a + z * b) % 3329) as u16));
            assert(f[i + len] == (((a - z * b) % 3329) as u16));
            lemma_cancel_low(a, b, z);
        } else {
            lemma_fundamental_div_mod_converse(i - len, 2 * len, g, j - len);
            let a = s[i - len] as int;
            let b = s[i] as int;
            assert(f[i] == (((a - z * b) % 3329) as u16));
            assert(f[i - len] == (((a + z * b) % 3329) as u16));
            lemma_cancel_high(a, b, z, z2);
        }
    }
    assert(inv_layer(f, len, blocks) =~= scale(s, 2));
}

/// Inverse layers commute with scalar factors: butterflies are linear
/// maps mod q.
#[verifier::rlimit(60)]
proof fn lemma_inv_layer_scale(s: Seq<u16>, len: int, blocks: int, c: int)
    requires
        s.len() == 256,
        len * blocks == 128,
        2 <= len <= 128,
        1 <= blocks <= 64,
    ensures
        inv_layer(scale(s, c), len, blocks) == scale(inv_layer(s, len, blocks), c),
{
    let sc = scale(s, c);
    assert forall|i: int| 0 <= i < 256 implies inv_layer(sc, len, blocks)[i] == scale(
        inv_layer(s, len, blocks),
        c,
    )[i] by {
        lemma_fundamental_div_mod(i, 2 * len);
        let g = i / (2 * len);
        let j = i % (2 * len);
        assert(g < blocks) by (nonlinear_arith)
            requires
                0 <= i < 256,
                len * blocks == 128,
                2 * len * g + j == i,
                0 <= j < 2 * len,
                len >= 2,
        ;
        if j < len {
            assert(i + len < 256) by (nonlinear_arith)
                requires
                    len * blocks == 128,
                    2 * len * g + j == i,
                    g < blocks,
                    0 <= j < len,
                    len >= 2,
            ;
            let a = s[i] as int;
            let b = s[i + len] as int;
            lemma_lin_low(a, b, c);
        } else {
            let z2 = spec_zeta(2 * blocks - 1 - g);
            let a = s[i - len] as int;
            let b = s[i] as int;
            lemma_lin_high(a, b, c, z2);
        }
    }
    assert(inv_layer(sc, len, blocks) =~= scale(inv_layer(s, len, blocks), c));
}

/// Two to the power t, for the seven layer counts.
pub open spec fn two_pow(t: int) -> int {
    if t <= 0 {
        1
    } else if t == 1 {
        2
    } else if t == 2 {
        4
    } else if t == 3 {
        8
    } else if t == 4 {
        16
    } else if t == 5 {
        32
    } else if t == 6 {
        64
    } else {
        128
    }
}

/// After t inverse layers, the full forward transform is reduced to its
/// first 7 - t layers, scaled by 2^t.
proof fn lemma_inv_fwd(s: Seq<u16>, t: int)
    requires
        coeffs_wf(s),
        0 <= t <= 7,
    ensures
        inv_upto(fwd_upto(s, 7), t) == scale(fwd_upto(s, 7 - t), two_pow(t)),
    decreases t,
{
    if t == 0 {
        lemma_fwd_upto_wf(s, 7);
        lemma_scale_one(fwd_upto(s, 7));
    } else {
        lemma_inv_fwd(s, t - 1);
        let li = 7 - t;
        let len = layer_len(li);
        let blocks = layer_blocks(li);
        let w = fwd_upto(s, li);
        lemma_fwd_upto_wf(s, li);
        // the next inverse layer meets the matching forward layer
        assert(fwd_upto(s, 7 - (t - 1)) == fwd_layer(w, len, blocks));
        assert(inv_upto(fwd_upto(s, 7), t) == inv_layer(
            scale(fwd_layer(w, len, blocks), two_pow(t - 1)),
            len,
            blocks,
        ));
        lemma_inv_layer_scale(fwd_layer(w, len, blocks), len, blocks, two_pow(t - 1));
        lemma_layer_cancel(w, len, blocks);
        lemma_scale_scale(w, 2, two_pow(t - 1));
        assert(2 * two_pow(t - 1) == two_pow(t));
    }
}

/// The transform involution: for every polynomial with canonical
/// coefficients, the inverse transform of the forward transform is the
/// polynomial itself.
pub proof fn lemma_ntt_involution(s: Seq<u16>)
    requires
        coeffs_wf(s),
    ensures
        spec_invntt(spec_ntt(s)) == s,
{
    lemma_inv_fwd(s, 7);
    assert(inv_upto(spec_ntt(s), 7) == scale(s, 128));
    assert forall|i: int| 0 <= i < 256 implies spec_invntt(spec_ntt(s))[i] == s[i] by {
        let a = s[i] as int;
        calc! {
            (==)
            (((a * 128) % 3329) * 3303) % 3329; {
                lemma_mul_mod_noop_left(a * 128, 3303, 3329);
            }
            ((a * 128) * 3303) % 3329; {
                assert((a * 128) * 3303 == 3329 * (127 * a) + a) by (nonlinear_arith);
                lemma_mod_multiples_vanish(127 * a, a, 3329);
            }
            a % 3329; {
                lemma_small_mod(s[i] as nat, 3329);
            }
            a;
        }
    }
    assert(spec_invntt(spec_ntt(s)) =~= s);
}

} // verus!
