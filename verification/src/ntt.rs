//! The number-theoretic transform over the ring: the table of primitive-root
//! powers in bit-reversed order, the forward and inverse transforms, and the
//! pointwise base multiplication of transform-domain polynomials.

use vstd::prelude::*;
use vstd::arithmetic::div_mod::{lemma_add_mod_noop, lemma_add_mod_noop_right, lemma_mul_mod_noop_right, lemma_sub_mod_noop_right};
use crate::poly::{coeffs_wf, Domain, Poly};
use crate::reduce;

verus! {

/// The multiplicative inverse of 128 mod q (3303 * 128 == 1 mod 3329),
/// applied at the end of the inverse transform.
pub const INV128: u16 = 3303;

/// The 7-bit reversal of an index below 128.
pub open spec fn spec_brv7(i: int) -> int {
    (i % 2) * 64 + ((i / 2) % 2) * 32 + ((i / 4) % 2) * 16 + ((i / 8) % 2) * 8 + ((i / 16) % 2)
        * 4 + ((i / 32) % 2) * 2 + ((i / 64) % 2)
}

/// 17^e mod q; 17 is a primitive 256th root of unity mod q.
pub open spec fn spec_pow17(e: nat) -> nat
    decreases e,
{
    if e == 0 {
        1
    } else {
        (17 * spec_pow17((e - 1) as nat)) % 3329
    }
}

/// The i-th entry of the transform's root table: 17 raised to the 7-bit
/// reversal of i, mod q.
pub open spec fn spec_zeta(i: int) -> int {
    spec_pow17(spec_brv7(i) as nat) as int
}

/// The precomputed root table.
pub struct Zetas {
    pub z: Vec<u16>,
}

impl Zetas {
    /// Well-formedness: 128 entries, each the specified root power.
    pub open spec fn wf(self) -> bool {
        &&& self.z@.len() == 128
        &&& forall|i: int| 0 <= i < 128 ==> self.z@[i] == spec_zeta(i)
        &&& forall|i: int| 0 <= i < 128 ==> self.z@[i] < 3329
    }

    /// Compute the table from the primitive root.
    pub fn new() -> (r: Zetas)
        ensures
            r.wf(),
    {
        let mut z: Vec<u16> = Vec::new();
        let mut i: usize = 0;
        while i < 128
            invariant
                i <= 128,
                z@.len() == i,
                forall|j: int| 0 <= j < i ==> z@[j] == spec_zeta(j),
                forall|j: int| 0 <= j < i ==> z@[j] < 3329,
            decreases 128 - i,
        {
            let iu: u32 = i as u32;
            let e: u32 = (iu % 2) * 64 + ((iu / 2) % 2) * 32 + ((iu / 4) % 2) * 16 + ((iu / 8)
                % 2) * 8 + ((iu / 16) % 2) * 4 + ((iu / 32) % 2) * 2 + ((iu / 64) % 2);
            proof {
                assert(e == spec_brv7(i as int));
            }
            let mut acc: u16 = 1;
            let mut t: u32 = 0;
            while t < e
                invariant
                    t <= e,
                    e < 128,
                    acc == spec_pow17(t as nat),
                    acc < 3329,
                decreases e - t,
            {
                acc = reduce::mul_mod(17, acc);
                t += 1;
            }
            z.push(acc);
            i += 1;
        }
        Zetas { z }
    }
}

/// One forward butterfly layer, described pointwise: position i sits in
/// block g of width 2*len; the lower half becomes a + zeta * b and the
/// upper half a - zeta * b, over the block's root power.
pub open spec fn fwd_butterfly_at(s: Seq<u16>, len: int, blocks: int, i: int) -> u16 {
    let g = i / (2 * len);
    let j = i % (2 * len);
    if j < len {
        ((s[i] + spec_zeta(blocks + g) * s[i + len]) % 3329) as u16
    } else {
        ((s[i - len] - spec_zeta(blocks + g) * s[i]) % 3329) as u16
    }
}

/// A whole forward layer.
pub open spec fn fwd_layer(s: Seq<u16>, len: int, blocks: int) -> Seq<u16> {
    Seq::new(256, |i: int| fwd_butterfly_at(s, len, blocks, i))
}

/// One inverse butterfly layer, described pointwise: the lower half
/// becomes a + b and the upper half zeta' * (b - a), over the block's
/// reverse-order root power.
pub open spec fn inv_butterfly_at(s: Seq<u16>, len: int, blocks: int, i: int) -> u16 {
    let g = i / (2 * len);
    let j = i % (2 * len);
    if j < len {
        ((s[i] + s[i + len]) % 3329) as u16
    } else {
        ((spec_zeta(2 * blocks - 1 - g) * (s[i] - s[i - len])) % 3329) as u16
    }
}

/// A whole inverse layer.
pub open spec fn inv_layer(s: Seq<u16>, len: int, blocks: int) -> Seq<u16> {
    Seq::new(256, |i: int| inv_butterfly_at(s, len, blocks, i))
}

/// Butterfly length of forward layer `idx`, for idx in 0..7: the layers
/// run 128, 64, ..., 2.
pub open spec fn layer_len(idx: int) -> int {
    if idx == 0 {
        128
    } else if idx == 1 {
        64
    } else if idx == 2 {
        32
    } else if idx == 3 {
        16
    } else if idx == 4 {
        8
    } else if idx == 5 {
        4
    } else {
        2
    }
}

/// Block count of forward layer `idx`: 128 / layer_len(idx).
pub open spec fn layer_blocks(idx: int) -> int {
    if idx == 0 {
        1
    } else if idx == 1 {
        2
    } else if idx == 2 {
        4
    } else if idx == 3 {
        8
    } else if idx == 4 {
        16
    } else if idx == 5 {
        32
    } else {
        64
    }
}

/// The first n forward layers applied in order.
pub open spec fn fwd_upto(s: Seq<u16>, n: int) -> Seq<u16>
    decreases n,
{
    if n <= 0 {
        s
    } else {
        fwd_layer(fwd_upto(s, n - 1), layer_len(n - 1), layer_blocks(n - 1))
    }
}

/// The first t inverse layers applied in order; the inverse walks the
/// forward layers backwards, from length 2 up to 128.
pub open spec fn inv_upto(s: Seq<u16>, t: int) -> Seq<u16>
    decreases t,
{
    if t <= 0 {
        s
    } else {
        inv_layer(inv_upto(s, t - 1), layer_len(7 - t), layer_blocks(7 - t))
    }
}

/// What the forward transform computes: all seven layers.
pub open spec fn spec_ntt(s: Seq<u16>) -> Seq<u16> {
    fwd_upto(s, 7)
}

/// What the inverse transform computes: all seven inverse layers, then
/// every coefficient multiplied by 128^-1 mod q.
pub open spec fn spec_invntt(s: Seq<u16>) -> Seq<u16> {
    Seq::new(256, |i: int| ((inv_upto(s, 7)[i] * 3303) % 3329) as u16)
}

/// Apply one butterfly layer, forward or inverse.
fn layer_exec(c: &Vec<u16>, len: usize, blocks: usize, inverse: bool, zt: &Zetas) -> (r: Vec<
    u16,
>)
    requires
        coeffs_wf(c@),
        len * blocks == 128,
        2 <= len <= 128,
        1 <= blocks <= 64,
        zt.wf(),
    ensures
        coeffs_wf(r@),
        !inverse ==> r@ == fwd_layer(c@, len as int, blocks as int),
        inverse ==> r@ == inv_layer(c@, len as int, blocks as int),
{
    let mut out: Vec<u16> = Vec::new();
    let mut i: usize = 0;
    while i < 256
        invariant
            coeffs_wf(c@),
            len * blocks == 128,
            2 <= len <= 128,
            1 <= blocks <= 64,
            zt.wf(),
            i <= 256,
            out@.len() == i,
            forall|ii: int| 0 <= ii < i ==> out@[ii] < 3329,
            !inverse ==> forall|ii: int|
                0 <= ii < i ==> out@[ii] == fwd_butterfly_at(c@, len as int, blocks as int, ii),
            inverse ==> forall|ii: int|
                0 <= ii < i ==> out@[ii] == inv_butterfly_at(c@, len as int, blocks as int, ii),
        decreases 256 - i,
    {
        let g: usize = i / (2 * len);
        let j: usize = i % (2 * len);
        proof {
            vstd::arithmetic::div_mod::lemma_fundamental_div_mod(i as int, 2 * (len as int));
            assert(g < blocks) by (nonlinear_arith)
                requires
                    i < 256,
                    len * blocks == 128,
                    2 * len * g + j == i,
                    0 <= j < 2 * len,
                    len >= 2,
            ;
            assert(j < len ==> i + len < 256) by (nonlinear_arith)
                requires
                    len * blocks == 128,
                    2 * len * g + j == i,
                    g < blocks,
                    0 <= j,
                    len >= 2,
            ;
        }
        let v: u16 = if !inverse {
            let zeta: u16 = zt.z[blocks + g];
            if j < len {
                let t: u16 = reduce::mul_mod(zeta, c[i + len]);
                let v0: u16 = reduce::add_mod(c[i], t);
                proof {
                    lemma_add_mod_noop_right(
                        c@[i as int] as int,
                        spec_zeta(blocks + g) * c@[i + len],
                        3329,
                    );
                }
                v0
            } else {
                let t: u16 = reduce::mul_mod(zeta, c[i]);
                let v0: u16 = reduce::sub_mod(c[i - len], t);
                proof {
                    lemma_sub_mod_noop_right(
                        c@[i - len] as int,
                        spec_zeta(blocks + g) * c@[i as int],
                        3329,
                    );
                }
                v0
            }
        } else {
            if j < len {
                reduce::add_mod(c[i], c[i + len])
            } else {
                let zeta: u16 = zt.z[2 * blocks - 1 - g];
                let d: u16 = reduce::sub_mod(c[i], c[i - len]);
                let v0: u16 = reduce::mul_mod(zeta, d);
                proof {
                    lemma_mul_mod_noop_right(
                        spec_zeta(2 * (blocks as int) - 1 - g) as int,
                        c@[i as int] - c@[i - len],
                        3329,
                    );
                }
                v0
            }
        };
        proof {
            if !inverse {
                assert(v == fwd_butterfly_at(c@, len as int, blocks as int, i as int));
            } else {
                assert(v == inv_butterfly_at(c@, len as int, blocks as int, i as int));
            }
        }
        out.push(v);
        i += 1;
    }
    proof {
        if !inverse {
            assert(out@ =~= fwd_layer(c@, len as int, blocks as int));
        } else {
            assert(out@ =~= inv_layer(c@, len as int, blocks as int));
        }
    }
    out
}

/// The length and block count of forward layer `idx`.
fn layer_shape(idx: usize) -> (r: (usize, usize))
    requires
        idx < 7,
    ensures
        r.0 == layer_len(idx as int),
        r.1 == layer_blocks(idx as int),
        r.0 * r.1 == 128,
        2 <= r.0 <= 128,
        1 <= r.1 <= 64,
{
    if idx == 0 {
        (128, 1)
    } else if idx == 1 {
        (64, 2)
    } else if idx == 2 {
        (32, 4)
    } else if idx == 3 {
        (16, 8)
    } else if idx == 4 {
        (8, 16)
    } else if idx == 5 {
        (4, 32)
    } else {
        (2, 64)
    }
}

/// The forward transform: maps a normal-domain polynomial to the transform
/// domain through seven layers of butterflies over the root table.
pub fn ntt(p: &Poly, zt: &Zetas) -> (r: Poly)
    requires
        p.wf(),
        p.domain == Domain::Normal,
        zt.wf(),
    ensures
        r.wf(),
        r.domain == Domain::Ntt,
        r.coeffs@ == spec_ntt(p.coeffs@),
{
    let mut cur: Vec<u16> = p.coeffs.clone();
    proof {
        assert(cur@ =~= p.coeffs@);
    }
    let mut idx: usize = 0;
    while idx < 7
        invariant
            p.wf(),
            zt.wf(),
            idx <= 7,
            coeffs_wf(cur@),
            cur@ == fwd_upto(p.coeffs@, idx as int),
        decreases 7 - idx,
    {
        let (len, blocks) = layer_shape(idx);
        cur = layer_exec(&cur, len, blocks, false, zt);
        idx += 1;
    }
    Poly { coeffs: cur, domain: Domain::Ntt }
}

/// The inverse transform: the exact algebraic inverse of `ntt`, walking
/// the layers backwards and ending with the multiplication by 128^-1 mod
/// q.
pub fn invntt(p: &Poly, zt: &Zetas) -> (r: Poly)
    requires
        p.wf(),
        p.domain == Domain::Ntt,
        zt.wf(),
    ensures
        r.wf(),
        r.domain == Domain::Normal,
        r.coeffs@ == spec_invntt(p.coeffs@),
{
    let mut cur: Vec<u16> = p.coeffs.clone();
    proof {
        assert(cur@ =~= p.coeffs@);
    }
    let mut t: usize = 0;
    while t < 7
        invariant
            p.wf(),
            zt.wf(),
            t <= 7,
            coeffs_wf(cur@),
            cur@ == inv_upto(p.coeffs@, t as int),
        decreases 7 - t,
    {
        let (len, blocks) = layer_shape(6 - t);
        cur = layer_exec(&cur, len, blocks, true, zt);
        t += 1;
    }
    let mut out: Vec<u16> = Vec::new();
    let mut i: usize = 0;
    while i < 256
        invariant
            coeffs_wf(cur@),
            cur@ == inv_upto(p.coeffs@, 7),
            i <= 256,
            out@.len() == i,
            forall|ii: int| 0 <= ii < i ==> out@[ii] < 3329,
            forall|ii: int| 0 <= ii < i ==> out@[ii] == spec_invntt(p.coeffs@)[ii],
        decreases 256 - i,
    {
        out.push(reduce::mul_mod(cur[i], INV128));
        i += 1;
    }
    proof {
        assert(out@ =~= spec_invntt(p.coeffs@));
    }
    Poly { coeffs: out, domain: Domain::Normal }
}

/// What base multiplication computes for the i-th group of four
/// coefficients: the even entries combine two coefficient pairs through the
/// matching root power (negated for the odd pair), the odd entries are the
/// cross terms.
pub open spec fn basemul_ok_at(r: Seq<u16>, a: Seq<u16>, b: Seq<u16>, i: int) -> bool {
    &&& r[4 * i] == (a[4 * i] * b[4 * i] + spec_zeta(64 + i) * (a[4 * i + 1] * b[4 * i + 1]))
        % 3329
    &&& r[4 * i + 1] == (a[4 * i] * b[4 * i + 1] + a[4 * i + 1] * b[4 * i]) % 3329
    &&& r[4 * i + 2] == (a[4 * i + 2] * b[4 * i + 2] + (3329 - spec_zeta(64 + i)) % 3329 * (a[4
        * i + 3] * b[4 * i + 3])) % 3329
    &&& r[4 * i + 3] == (a[4 * i + 2] * b[4 * i + 3] + a[4 * i + 3] * b[4 * i + 2]) % 3329
}

/// Coefficient x of the base multiplication of two transform-domain
/// coefficient sequences, in closed form.
pub open spec fn basemul_at(a: Seq<u16>, b: Seq<u16>, x: int) -> u16 {
    let g = x / 4;
    let m = x % 4;
    if m == 0 {
        ((a[x] * b[x] + spec_zeta(64 + g) * (a[x + 1] * b[x + 1])) % 3329) as u16
    } else if m == 1 {
        ((a[x - 1] * b[x] + a[x] * b[x - 1]) % 3329) as u16
    } else if m == 2 {
        ((a[x] * b[x] + (3329 - spec_zeta(64 + g)) % 3329 * (a[x + 1] * b[x + 1])) % 3329) as u16
    } else {
        ((a[x - 1] * b[x] + a[x] * b[x - 1]) % 3329) as u16
    }
}

/// The whole base multiplication as a sequence.
pub open spec fn basemul_seq(a: Seq<u16>, b: Seq<u16>) -> Seq<u16> {
    Seq::new(256, |x: int| basemul_at(a, b, x))
}

/// Pointwise base multiplication of two transform-domain polynomials: each
/// pair of output coefficients combines two coefficient pairs of the inputs
/// through one extra multiplication by the matching root power.
pub fn basemul(a: &Poly, b: &Poly, zt: &Zetas) -> (r: Poly)
    requires
        a.wf(),
        b.wf(),
        a.domain == Domain::Ntt,
        b.domain == Domain::Ntt,
        zt.wf(),
    ensures
        r.wf(),
        r.domain == Domain::Ntt,
        r.coeffs@ == basemul_seq(a.coeffs@, b.coeffs@),
        forall|i: int| 0 <= i < 64 ==> #[trigger] basemul_ok_at(r.coeffs@, a.coeffs@, b.coeffs@, i),
{
    let mut c: Vec<u16> = Vec::new();
    let mut i: usize = 0;
    while i < 64
        invariant
            a.wf(),
            b.wf(),
            zt.wf(),
            i <= 64,
            c@.len() == 4 * i,
            forall|j: int| 0 <= j < 4 * i ==> c@[j] < 3329,
            forall|j: int| 0 <= j < i ==> #[trigger] basemul_ok_at(c@, a.coeffs@, b.coeffs@, j),
        decreases 64 - i,
    {
        let zeta: u16 = zt.z[64 + i];
        let zneg: u16 = reduce::sub_mod(0, zeta);
        let a0: u16 = a.coeffs[4 * i];
        let a1: u16 = a.coeffs[4 * i + 1];
        let a2: u16 = a.coeffs[4 * i + 2];
        let a3: u16 = a.coeffs[4 * i + 3];
        let b0: u16 = b.coeffs[4 * i];
        let b1: u16 = b.coeffs[4 * i + 1];
        let b2: u16 = b.coeffs[4 * i + 2];
        let b3: u16 = b.coeffs[4 * i + 3];
        let r0: u16 = reduce::add_mod(
            reduce::mul_mod(a0, b0),
            reduce::mul_mod(zeta, reduce::mul_mod(a1, b1)),
        );
        let r1: u16 = reduce::add_mod(reduce::mul_mod(a0, b1), reduce::mul_mod(a1, b0));
        let r2: u16 = reduce::add_mod(
            reduce::mul_mod(a2, b2),
            reduce::mul_mod(zneg, reduce::mul_mod(a3, b3)),
        );
        let r3: u16 = reduce::add_mod(reduce::mul_mod(a2, b3), reduce::mul_mod(a3, b2));
        proof {
            lemma_basemul_pair(a0 as int, a1 as int, b0 as int, b1 as int, zeta as int);
            lemma_basemul_pair(a2 as int, a3 as int, b2 as int, b3 as int, zneg as int);
            assert(zneg == (3329 - spec_zeta(64 + i)) % 3329) by {
                vstd::arithmetic::div_mod::lemma_mod_add_multiples_vanish(
                    0 - spec_zeta(64 + i as int),
                    3329,
                );
            }
        }
        let ghost prev = c@;
        c.push(r0);
        c.push(r1);
        c.push(r2);
        c.push(r3);
        proof {
            assert(basemul_ok_at(c@, a.coeffs@, b.coeffs@, i as int)) by {
                assert(c@[4 * (i as int)] == r0);
                assert(c@[4 * (i as int) + 1] == r1);
                assert(c@[4 * (i as int) + 2] == r2);
                assert(c@[4 * (i as int) + 3] == r3);
            }
            assert forall|j: int| 0 <= j < i implies #[trigger] basemul_ok_at(
                c@,
                a.coeffs@,
                b.coeffs@,
                j,
            ) by {
                assert(basemul_ok_at(prev, a.coeffs@, b.coeffs@, j));
                assert(c@[4 * j] == prev[4 * j]);
                assert(c@[4 * j + 1] == prev[4 * j + 1]);
                assert(c@[4 * j + 2] == prev[4 * j + 2]);
                assert(c@[4 * j + 3] == prev[4 * j + 3]);
            }
        }
        i += 1;
    }
    proof {
        assert forall|x: int| 0 <= x < 256 implies c@[x] == basemul_at(a.coeffs@, b.coeffs@, x)
            by {
            vstd::arithmetic::div_mod::lemma_fundamental_div_mod(x, 4);
            let g = x / 4;
            assert(basemul_ok_at(c@, a.coeffs@, b.coeffs@, g));
        }
        assert(c@ =~= basemul_seq(a.coeffs@, b.coeffs@));
    }
    Poly { coeffs: c, domain: Domain::Ntt }
}

/// Folding the intermediate reductions of a base-multiplication pair into a
/// single residue: (x0*y0 mod q + z * (x1*y1 mod q) mod q) mod q is the
/// residue of x0*y0 + z*(x1*y1), and likewise for the odd coefficient.
proof fn lemma_basemul_pair(x0: int, x1: int, y0: int, y1: int, z: int)
    requires
        0 <= x0 < 3329,
        0 <= x1 < 3329,
        0 <= y0 < 3329,
        0 <= y1 < 3329,
        0 <= z < 3329,
    ensures
        ((x0 * y0) % 3329 + (z * ((x1 * y1) % 3329)) % 3329) % 3329 == (x0 * y0 + z * (x1 * y1))
            % 3329,
        ((x0 * y1) % 3329 + (x1 * y0) % 3329) % 3329 == (x0 * y1 + x1 * y0) % 3329,
{
    lemma_mul_mod_noop_right(z, x1 * y1, 3329);
    lemma_add_mod_noop(x0 * y0, z * (x1 * y1), 3329);
    vstd::arithmetic::div_mod::lemma_mod_twice((x0 * y0) % 3329 + (z * (x1 * y1)) % 3329, 3329);
    lemma_add_mod_noop(x0 * y1, x1 * y0, 3329);
}

} // verus!
