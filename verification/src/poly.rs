//! Ring elements: 256-coefficient polynomials over Z_q, tagged with the
//! transform domain they live in, with coefficient-wise arithmetic and the
//! lossy compression the scheme uses for ciphertexts and messages.

use vstd::prelude::*;
use vstd::arithmetic::power2::pow2;
use crate::reduce;

verus! {

/// Which representation a polynomial is in: plain coefficients or transform
/// coefficients.  Mixing the two in plain arithmetic is ruled out by
/// contracts over this tag.
#[derive(PartialEq, Eq, Structural, Clone, Copy, Debug)]
pub enum Domain {
    Normal,
    Ntt,
}

/// A polynomial of the ring: 256 coefficients, each a canonical residue
/// in [0, q).
#[derive(Debug, Clone)]
pub struct Poly {
    pub coeffs: Vec<u16>,
    pub domain: Domain,
}

/// Canonical coefficient sequences: length 256, every entry below q.
pub open spec fn coeffs_wf(s: Seq<u16>) -> bool {
    &&& s.len() == 256
    &&& forall|i: int| 0 <= i < 256 ==> s[i] < 3329
}

/// The coefficient-wise sum of two coefficient sequences, mod q.
pub open spec fn spec_poly_add(a: Seq<u16>, b: Seq<u16>) -> Seq<u16> {
    Seq::new(256, |i: int| (((a[i] + b[i]) % 3329) as u16))
}

/// The coefficient-wise difference of two coefficient sequences, mod q.
pub open spec fn spec_poly_sub(a: Seq<u16>, b: Seq<u16>) -> Seq<u16> {
    Seq::new(256, |i: int| (((a[i] - b[i]) % 3329) as u16))
}

impl Poly {
    /// Well-formedness: canonical coefficients.
    pub open spec fn wf(self) -> bool {
        coeffs_wf(self.coeffs@)
    }

    /// The all-zero polynomial in the given domain.
    pub fn zero(domain: Domain) -> (r: Poly)
        ensures
            r.wf(),
            r.domain == domain,
            forall|i: int| 0 <= i < 256 ==> r.coeffs@[i] == 0,
    {
        let mut coeffs: Vec<u16> = Vec::new();
        let mut i: usize = 0;
        while i < 256
            invariant
                i <= 256,
                coeffs@.len() == i,
                forall|j: int| 0 <= j < i ==> coeffs@[j] == 0,
            decreases 256 - i,
        {
            coeffs.push(0);
            i += 1;
        }
        Poly { coeffs, domain }
    }

    /// Coefficient-wise sum mod q; both operands must live in the same
    /// domain.
    pub fn add(&self, other: &Poly) -> (r: Poly)
        requires
            self.wf(),
            other.wf(),
            self.domain == other.domain,
        ensures
            r.wf(),
            r.domain == self.domain,
            r.coeffs@ == spec_poly_add(self.coeffs@, other.coeffs@),
            forall|i: int|
                0 <= i < 256 ==> r.coeffs@[i] == (self.coeffs@[i] + other.coeffs@[i]) % 3329,
    {
        let mut coeffs: Vec<u16> = Vec::new();
        let mut i: usize = 0;
        while i < 256
            invariant
                i <= 256,
                coeffs@.len() == i,
                self.wf(),
                other.wf(),
                forall|j: int|
                    0 <= j < i ==> coeffs@[j] == (self.coeffs@[j] + other.coeffs@[j]) % 3329,
                forall|j: int| 0 <= j < i ==> coeffs@[j] < 3329,
            decreases 256 - i,
        {
            let s: u16 = self.coeffs[i] + other.coeffs[i];
            let c: u16 = reduce::csubq(s as i16) as u16;
            proof {
                reduce::lemma_canonical_mod(
                    c as int,
                    self.coeffs@[i as int] + other.coeffs@[i as int],
                );
            }
            coeffs.push(c);
            i += 1;
        }
        proof {
            assert(coeffs@ =~= spec_poly_add(self.coeffs@, other.coeffs@));
        }
        Poly { coeffs, domain: self.domain }
    }

    /// Coefficient-wise difference mod q; both operands must live in the
    /// same domain.
    pub fn sub(&self, other: &Poly) -> (r: Poly)
        requires
            self.wf(),
            other.wf(),
            self.domain == other.domain,
        ensures
            r.wf(),
            r.domain == self.domain,
            r.coeffs@ == spec_poly_sub(self.coeffs@, other.coeffs@),
            forall|i: int|
                0 <= i < 256 ==> r.coeffs@[i] == (self.coeffs@[i] - other.coeffs@[i]) % 3329,
    {
        let mut coeffs: Vec<u16> = Vec::new();
        let mut i: usize = 0;
        while i < 256
            invariant
                i <= 256,
                coeffs@.len() == i,
                self.wf(),
                other.wf(),
                forall|j: int|
                    0 <= j < i ==> coeffs@[j] == (self.coeffs@[j] - other.coeffs@[j]) % 3329,
                forall|j: int| 0 <= j < i ==> coeffs@[j] < 3329,
            decreases 256 - i,
        {
            let s: u16 = self.coeffs[i] + 3329 - other.coeffs[i];
            let c: u16 = reduce::csubq(s as i16) as u16;
            proof {
                reduce::lemma_canonical_mod(
                    c as int,
                    self.coeffs@[i as int] - other.coeffs@[i as int],
                );
            }
            coeffs.push(c);
            i += 1;
        }
        proof {
            assert(coeffs@ =~= spec_poly_sub(self.coeffs@, other.coeffs@));
        }
        Poly { coeffs, domain: self.domain }
    }
}

/// Rounded scaling of a residue to a d-bit value: round(x * 2^d / q) mod 2^d.
pub open spec fn spec_compress(x: int, d: nat) -> int {
    ((x * pow2(d) + 1664) / 3329) % (pow2(d) as int)
}

/// Rounded inverse scaling of a d-bit value back to a residue:
/// round(y * q / 2^d).
pub open spec fn spec_decompress(y: int, d: nat) -> int {
    (y * 3329 + pow2((d - 1) as nat)) / (pow2(d) as int)
}

/// The scheme's rounding bound for width d: round(q / 2^(d+1)).
pub open spec fn spec_compress_bound(d: nat) -> int {
    (3329 + pow2(d) as int) / (pow2((d + 1) as nat) as int)
}

/// The representative of e mod q closest to zero.
pub open spec fn mod_q_centered(e: int) -> int {
    if e % 3329 > 1664 {
        e % 3329 - 3329
    } else {
        e % 3329
    }
}

/// Compress one coefficient to d bits.
pub fn compress_coeff(x: u16, d: u32) -> (r: u16)
    requires
        x < 3329,
        1 <= d <= 11,
    ensures
        r == spec_compress(x as int, d as nat),
        r < pow2(d as nat),
{
    proof {
        vstd::arithmetic::power2::lemma2_to64();
        assert(pow2(d as nat) < 4096) by {
            vstd::arithmetic::power2::lemma_pow2_strictly_increases(d as nat, 12);
        }
    }
    let p2: u32 = 1u32 << d;
    proof {
        vstd::bits::lemma_u32_shl_is_mul(1u32, d);
        assert((x as int) * (p2 as int) < 3329 * 4096) by (nonlinear_arith)
            requires
                x < 3329,
                p2 < 4096,
        ;
    }
    let num: u32 = (x as u32) * p2 + 1664;
    let y: u32 = (num / 3329) % p2;
    proof {
        assert(y < p2);
    }
    y as u16
}

/// Decompress a d-bit value back to a residue in [0, q).
pub fn decompress_coeff(y: u16, d: u32) -> (r: u16)
    requires
        1 <= d <= 11,
        y < pow2(d as nat),
    ensures
        r == spec_decompress(y as int, d as nat),
        r < 3329,
{
    proof {
        vstd::arithmetic::power2::lemma2_to64();
        assert(pow2(d as nat) < 4096) by {
            vstd::arithmetic::power2::lemma_pow2_strictly_increases(d as nat, 12);
        }
        assert(pow2((d - 1) as nat) < 4096) by {
            vstd::arithmetic::power2::lemma_pow2_strictly_increases((d - 1) as nat, 12);
        }
    }
    let p2: u32 = 1u32 << d;
    let half: u32 = 1u32 << (d - 1);
    proof {
        vstd::bits::lemma_u32_shl_is_mul(1u32, d);
        vstd::bits::lemma_u32_shl_is_mul(1u32, (d - 1) as u32);
        assert((y as int) * 3329 < 4096 * 3329) by (nonlinear_arith)
            requires
                y < 4096,
        ;
    }
    let num: u32 = (y as u32) * 3329 + half;
    let r: u32 = num >> d;
    proof {
        vstd::bits::lemma_u32_shr_is_div(num, d);
        assert(num < 3329 * p2) by {
            assert((y as int) * 3329 <= (p2 - 1) * 3329) by (nonlinear_arith)
                requires
                    y < p2,
            ;
        }
        assert(r < 3329) by {
            vstd::arithmetic::div_mod::lemma_multiply_divide_lt(num as int, p2 as int, 3329);
        }
    }
    r as u16
}

/// Compression error bound: for every residue x and every width the scheme
/// uses, decompressing the compression of x lands within the documented
/// rounding bound of x, measured around the circle of residues mod q.
pub proof fn lemma_compress_bound(x: u16, d: nat)
    requires
        0 <= x < 3329,
        d == 1 || d == 4 || d == 5 || d == 10 || d == 11,
    ensures
        -spec_compress_bound(d) <= mod_q_centered(
            spec_decompress(spec_compress(x as int, d), d) - x,
        ) <= spec_compress_bound(d),
{
    vstd::arithmetic::power2::lemma2_to64();
    let z = spec_decompress(spec_compress(x as int, d), d);
    let b = spec_compress_bound(d);
    let e = z - x;
    assert(0 <= z < 3329) by {
        lemma_decompress_range(spec_compress(x as int, d), d);
    }
    if d == 1 {
        assert(b == 832) by {
            vstd::arithmetic::div_mod::lemma_fundamental_div_mod_converse(3331, 4, 832, 3);
        }
        assert(z == (((((x as int) * 2 + 1664) / 3329) % 2) * 3329 + 1) / 2);
        assert(0 <= x < 3329 ==> {
            let zz = ((((x * 2 + 1664) / 3329) % 2) * 3329 + 1) / 2;
            (zz - x <= 832 && x - zz <= 832) || (3329 - x + zz <= 832)
        }) by (bit_vector);
    } else if d == 4 {
        assert(b == 104) by {
            vstd::arithmetic::div_mod::lemma_fundamental_div_mod_converse(3345, 32, 104, 17);
        }
        assert(z == (((((x as int) * 16 + 1664) / 3329) % 16) * 3329 + 8) / 16);
        assert(0 <= x < 3329 ==> {
            let zz = ((((x * 16 + 1664) / 3329) % 16) * 3329 + 8) / 16;
            (zz - x <= 104 && x - zz <= 104) || (3329 - x + zz <= 104)
        }) by (bit_vector);
    } else if d == 5 {
        assert(b == 52) by {
            vstd::arithmetic::div_mod::lemma_fundamental_div_mod_converse(3361, 64, 52, 33);
        }
        assert(z == (((((x as int) * 32 + 1664) / 3329) % 32) * 3329 + 16) / 32);
        assert(0 <= x < 3329 ==> {
            let zz = ((((x * 32 + 1664) / 3329) % 32) * 3329 + 16) / 32;
            (zz - x <= 52 && x - zz <= 52) || (3329 - x + zz <= 52)
        }) by (bit_vector);
    } else if d == 10 {
        assert(b == 2) by {
            vstd::arithmetic::div_mod::lemma_fundamental_div_mod_converse(4353, 2048, 2, 257);
        }
        assert(z == (((((x as int) * 1024 + 1664) / 3329) % 1024) * 3329 + 512) / 1024);
        assert(0 <= x < 3329 ==> {
            let zz = ((((x * 1024 + 1664) / 3329) % 1024) * 3329 + 512) / 1024;
            (zz - x <= 2 && x - zz <= 2) || (3329 - x + zz <= 2)
        }) by (bit_vector);
    } else {
        assert(b == 1) by {
            vstd::arithmetic::div_mod::lemma_fundamental_div_mod_converse(5377, 4096, 1, 1281);
        }
        assert(z == (((((x as int) * 2048 + 1664) / 3329) % 2048) * 3329 + 1024) / 2048);
        assert(0 <= x < 3329 ==> {
            let zz = ((((x * 2048 + 1664) / 3329) % 2048) * 3329 + 1024) / 2048;
            (zz - x <= 1 && x - zz <= 1) || (3329 - x + zz <= 1)
        }) by (bit_vector);
    }
    assert((e <= b && -e <= b) || (3329 + e <= b));
    if e <= b && -e <= b {
        if e >= 0 {
            vstd::arithmetic::div_mod::lemma_small_mod(e as nat, 3329);
        } else {
            assert(e % 3329 == e + 3329) by {
                vstd::arithmetic::div_mod::lemma_small_mod((e + 3329) as nat, 3329);
                vstd::arithmetic::div_mod::lemma_mod_add_multiples_vanish(e, 3329);
            }
        }
    } else {
        // x sits near q and its compression wrapped to zero.
        assert(e < 0);
        assert(e % 3329 == e + 3329) by {
            vstd::arithmetic::div_mod::lemma_small_mod((e + 3329) as nat, 3329);
            vstd::arithmetic::div_mod::lemma_mod_add_multiples_vanish(e, 3329);
        }
    }
}

/// Decompression always lands in [0, q).
pub proof fn lemma_decompress_range(y: int, d: nat)
    requires
        1 <= d <= 11,
        0 <= y < pow2(d),
    ensures
        0 <= spec_decompress(y, d) < 3329,
{
    vstd::arithmetic::power2::lemma2_to64();
    let p2 = pow2(d) as int;
    let num = y * 3329 + pow2((d - 1) as nat);
    assert(num < 3329 * p2) by {
        assert(y * 3329 <= (p2 - 1) * 3329) by (nonlinear_arith)
            requires
                y <= p2 - 1,
        ;
        assert(pow2((d - 1) as nat) < 3329) by {
            vstd::arithmetic::power2::lemma_pow2_strictly_increases((d - 1) as nat, 12);
        }
    }
    assert(num >= 0) by {
        assert(y * 3329 >= 0) by (nonlinear_arith)
            requires
                y >= 0,
        ;
    }
    vstd::arithmetic::div_mod::lemma_multiply_divide_lt(num, p2, 3329);
    vstd::arithmetic::div_mod::lemma_div_pos_is_pos(num, p2);
}

} // verus!
