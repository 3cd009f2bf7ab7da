//! Rank-sized vectors of polynomials: vector arithmetic, the accumulated
//! pointwise products behind matrix-vector multiplication, and the packed
//! encodings of whole vectors.

use vstd::prelude::*;
use vstd::arithmetic::power2::pow2;
use crate::codec;
use crate::codec::{bytes10_at, bytes11_at, dec10_at, dec11_at, frombytes_seq};
use crate::ntt::{basemul, basemul_seq, invntt, ntt, spec_invntt, spec_ntt, Zetas};
use crate::poly::{spec_compress, spec_decompress, spec_poly_add, Domain, Poly};

verus! {

/// A vector of `k` polynomials, owned as a unit per key or ciphertext part.
pub struct PolyVec {
    pub polys: Vec<Poly>,
}

impl PolyVec {
    /// Well-formedness at rank k: k polynomials, all canonical, all in the
    /// same given domain.
    pub open spec fn wf(self, k: int, domain: Domain) -> bool {
        &&& self.polys@.len() == k
        &&& forall|i: int| 0 <= i < k ==> (#[trigger] self.polys@[i]).wf()
        &&& forall|i: int| 0 <= i < k ==> (#[trigger] self.polys@[i]).domain == domain
    }

    /// The all-zero vector of rank k.
    pub fn zero(k: usize, domain: Domain) -> (r: PolyVec)
        ensures
            r.wf(k as int, domain),
    {
        let mut polys: Vec<Poly> = Vec::new();
        let mut i: usize = 0;
        while i < k
            invariant
                i <= k,
                polys@.len() == i,
                forall|j: int| 0 <= j < i ==> (#[trigger] polys@[j]).wf(),
                forall|j: int| 0 <= j < i ==> (#[trigger] polys@[j]).domain == domain,
            decreases k - i,
        {
            polys.push(Poly::zero(domain));
            i += 1;
        }
        PolyVec { polys }
    }

    /// Pairwise sum of two vectors of the same rank and domain.
    pub fn add(&self, other: &PolyVec, k: usize, domain: Domain) -> (r: PolyVec)
        requires
            self.wf(k as int, domain),
            other.wf(k as int, domain),
        ensures
            r.wf(k as int, domain),
            forall|j: int|
                0 <= j < k ==> (#[trigger] r.polys@[j]).coeffs@ == spec_poly_add(
                    self.polys@[j].coeffs@,
                    other.polys@[j].coeffs@,
                ),
    {
        let mut polys: Vec<Poly> = Vec::new();
        let mut i: usize = 0;
        while i < k
            invariant
                self.wf(k as int, domain),
                other.wf(k as int, domain),
                i <= k,
                polys@.len() == i,
                forall|j: int| 0 <= j < i ==> (#[trigger] polys@[j]).wf(),
                forall|j: int| 0 <= j < i ==> (#[trigger] polys@[j]).domain == domain,
                forall|j: int|
                    0 <= j < i ==> (#[trigger] polys@[j]).coeffs@ == spec_poly_add(
                        self.polys@[j].coeffs@,
                        other.polys@[j].coeffs@,
                    ),
            decreases k - i,
        {
            polys.push(self.polys[i].add(&other.polys[i]));
            i += 1;
        }
        PolyVec { polys }
    }

    /// Apply the forward transform to every component.
    pub fn ntt_all(&self, k: usize, zt: &Zetas) -> (r: PolyVec)
        requires
            self.wf(k as int, Domain::Normal),
            zt.wf(),
        ensures
            r.wf(k as int, Domain::Ntt),
            forall|j: int|
                0 <= j < k ==> (#[trigger] r.polys@[j]).coeffs@ == spec_ntt(
                    self.polys@[j].coeffs@,
                ),
    {
        let mut polys: Vec<Poly> = Vec::new();
        let mut i: usize = 0;
        while i < k
            invariant
                self.wf(k as int, Domain::Normal),
                zt.wf(),
                i <= k,
                polys@.len() == i,
                forall|j: int| 0 <= j < i ==> (#[trigger] polys@[j]).wf(),
                forall|j: int| 0 <= j < i ==> (#[trigger] polys@[j]).domain == Domain::Ntt,
                forall|j: int|
                    0 <= j < i ==> (#[trigger] polys@[j]).coeffs@ == spec_ntt(
                        self.polys@[j].coeffs@,
                    ),
            decreases k - i,
        {
            polys.push(ntt(&self.polys[i], zt));
            i += 1;
        }
        PolyVec { polys }
    }

    /// Apply the inverse transform to every component.
    pub fn invntt_all(&self, k: usize, zt: &Zetas) -> (r: PolyVec)
        requires
            self.wf(k as int, Domain::Ntt),
            zt.wf(),
        ensures
            r.wf(k as int, Domain::Normal),
            forall|j: int|
                0 <= j < k ==> (#[trigger] r.polys@[j]).coeffs@ == spec_invntt(
                    self.polys@[j].coeffs@,
                ),
    {
        let mut polys: Vec<Poly> = Vec::new();
        let mut i: usize = 0;
        while i < k
            invariant
                self.wf(k as int, Domain::Ntt),
                zt.wf(),
                i <= k,
                polys@.len() == i,
                forall|j: int| 0 <= j < i ==> (#[trigger] polys@[j]).wf(),
                forall|j: int| 0 <= j < i ==> (#[trigger] polys@[j]).domain == Domain::Normal,
                forall|j: int|
                    0 <= j < i ==> (#[trigger] polys@[j]).coeffs@ == spec_invntt(
                        self.polys@[j].coeffs@,
                    ),
            decreases k - i,
        {
            polys.push(invntt(&self.polys[i], zt));
            i += 1;
        }
        PolyVec { polys }
    }
}

/// The all-zero coefficient sequence.
pub open spec fn zero_coeffs() -> Seq<u16> {
    Seq::new(256, |i: int| 0u16)
}

/// The coefficient sequences of a sequence of polynomials.
pub open spec fn views(ps: Seq<Poly>) -> Seq<Seq<u16>> {
    Seq::new(ps.len(), |i: int| ps[i].coeffs@)
}

/// The accumulated inner product of the first n components of two
/// transform-domain vectors: the running sum of their pointwise base
/// multiplications.
pub open spec fn acc_basemul(av: Seq<Seq<u16>>, bv: Seq<Seq<u16>>, n: int) -> Seq<u16>
    decreases n,
{
    if n <= 0 {
        zero_coeffs()
    } else {
        spec_poly_add(acc_basemul(av, bv, n - 1), basemul_seq(av[n - 1], bv[n - 1]))
    }
}

/// The inner product of two transform-domain vectors: the sum over all
/// components of their pointwise base multiplications.
pub fn basemul_acc(a: &PolyVec, b: &PolyVec, k: usize, zt: &Zetas) -> (r: Poly)
    requires
        1 <= k,
        a.wf(k as int, Domain::Ntt),
        b.wf(k as int, Domain::Ntt),
        zt.wf(),
    ensures
        r.wf(),
        r.domain == Domain::Ntt,
        r.coeffs@ == acc_basemul(views(a.polys@), views(b.polys@), k as int),
{
    let mut acc: Poly = Poly::zero(Domain::Ntt);
    proof {
        assert(acc.coeffs@ =~= zero_coeffs());
    }
    let mut i: usize = 0;
    while i < k
        invariant
            a.wf(k as int, Domain::Ntt),
            b.wf(k as int, Domain::Ntt),
            zt.wf(),
            i <= k,
            acc.wf(),
            acc.domain == Domain::Ntt,
            acc.coeffs@ == acc_basemul(views(a.polys@), views(b.polys@), i as int),
        decreases k - i,
    {
        let t: Poly = basemul(&a.polys[i], &b.polys[i], zt);
        acc = acc.add(&t);
        i += 1;
    }
    acc
}

/// Serialize a vector to k * 384 bytes: the 12-bit encodings of its
/// components, in order.
pub fn pv_tobytes(pv: &PolyVec, k: usize, domain: Domain) -> (r: Vec<u8>)
    requires
        pv.wf(k as int, domain),
        k <= 4,
    ensures
        r@.len() == k * 384,
        forall|x: int|
            0 <= x < k * 384 ==> r@[x] == codec::bytes12_at(
                pv.polys@[x / 384].coeffs@,
                x % 384,
            ),
{
    let mut out: Vec<u8> = Vec::new();
    let mut i: usize = 0;
    while i < k
        invariant
            pv.wf(k as int, domain),
            k <= 4,
            i <= k,
            out@.len() == i * 384,
            forall|x: int|
                0 <= x < i * 384 ==> out@[x] == codec::bytes12_at(
                    pv.polys@[x / 384].coeffs@,
                    x % 384,
                ),
        decreases k - i,
    {
        let mut bytes: Vec<u8> = codec::poly_tobytes(&pv.polys[i]);
        let ghost prev = out@;
        out.append(&mut bytes);
        proof {
            assert forall|x: int| 0 <= x < (i + 1) * 384 implies out@[x] == codec::bytes12_at(
                pv.polys@[x / 384].coeffs@,
                x % 384,
            ) by {
                if x < i * 384 {
                    assert(out@[x] == prev[x]);
                } else {
                    vstd::arithmetic::div_mod::lemma_fundamental_div_mod_converse(
                        x,
                        384,
                        i as int,
                        x - 384 * (i as int),
                    );
                }
            }
        }
        i += 1;
    }
    out
}

/// Read a vector of rank k back from k * 384 bytes: component i is the
/// 12-bit read-back of byte chunk i.
pub fn pv_frombytes(b: &Vec<u8>, k: usize, domain: Domain) -> (r: PolyVec)
    requires
        b@.len() == k * 384,
        1 <= k <= 4,
    ensures
        r.wf(k as int, domain),
        forall|pi: int|
            0 <= pi < k ==> (#[trigger] r.polys@[pi]).coeffs@ == frombytes_seq(
                b@.subrange(384 * pi, 384 * (pi + 1)),
            ),
{
    let mut polys: Vec<Poly> = Vec::new();
    let mut i: usize = 0;
    while i < k
        invariant
            b@.len() == k * 384,
            k <= 4,
            i <= k,
            polys@.len() == i,
            forall|j: int| 0 <= j < i ==> (#[trigger] polys@[j]).wf(),
            forall|j: int| 0 <= j < i ==> (#[trigger] polys@[j]).domain == domain,
            forall|pi: int|
                0 <= pi < i ==> (#[trigger] polys@[pi]).coeffs@ == frombytes_seq(
                    b@.subrange(384 * pi, 384 * (pi + 1)),
                ),
        decreases k - i,
    {
        let mut chunk: Vec<u8> = Vec::new();
        let mut j: usize = 0;
        while j < 384
            invariant
                b@.len() == k * 384,
                i < k,
                k <= 4,
                j <= 384,
                chunk@.len() == j,
                forall|jj: int| 0 <= jj < j ==> chunk@[jj] == b@[384 * i + jj],
            decreases 384 - j,
        {
            chunk.push(b[i * 384 + j]);
            j += 1;
        }
        proof {
            assert(chunk@ =~= b@.subrange(384 * (i as int), 384 * (i as int + 1)));
        }
        polys.push(codec::poly_frombytes(&chunk, domain));
        i += 1;
    }
    PolyVec { polys }
}

/// Compress every coefficient of a polynomial to d bits.
pub fn compress_poly(p: &Poly, d: u32) -> (r: Vec<u16>)
    requires
        p.wf(),
        1 <= d <= 11,
    ensures
        r@.len() == 256,
        forall|i: int| 0 <= i < 256 ==> r@[i] == spec_compress(p.coeffs@[i] as int, d as nat),
        forall|i: int| 0 <= i < 256 ==> r@[i] < (1u16 << d),
{
    let mut out: Vec<u16> = Vec::new();
    let mut i: usize = 0;
    proof {
        vstd::arithmetic::power2::lemma2_to64();
        codec::lemma_mask_bounds();
        vstd::bits::lemma_u16_shl_is_mul(1u16, d as u16);
        assert(pow2(d as nat) < 4096) by {
            vstd::arithmetic::power2::lemma_pow2_strictly_increases(d as nat, 12);
        }
    }
    while i < 256
        invariant
            p.wf(),
            1 <= d <= 11,
            (1u16 << d) == pow2(d as nat),
            i <= 256,
            out@.len() == i,
            forall|j: int| 0 <= j < i ==> out@[j] == spec_compress(p.coeffs@[j] as int, d as nat),
            forall|j: int| 0 <= j < i ==> out@[j] < (1u16 << d),
        decreases 256 - i,
    {
        out.push(crate::poly::compress_coeff(p.coeffs[i], d));
        i += 1;
    }
    out
}

/// Decompress 256 d-bit values into a polynomial in the given domain.
pub fn decompress_poly(vals: &Vec<u16>, d: u32, domain: Domain) -> (r: Poly)
    requires
        1 <= d <= 11,
        vals@.len() == 256,
        forall|i: int| 0 <= i < 256 ==> vals@[i] < (1u16 << d),
    ensures
        r.wf(),
        r.domain == domain,
        forall|i: int|
            0 <= i < 256 ==> r.coeffs@[i] == spec_decompress(vals@[i] as int, d as nat),
{
    let mut coeffs: Vec<u16> = Vec::new();
    let mut i: usize = 0;
    proof {
        vstd::arithmetic::power2::lemma2_to64();
        vstd::bits::lemma_u16_shl_is_mul(1u16, d as u16);
        assert(pow2(d as nat) < 4096) by {
            vstd::arithmetic::power2::lemma_pow2_strictly_increases(d as nat, 12);
        }
    }
    while i < 256
        invariant
            1 <= d <= 11,
            vals@.len() == 256,
            forall|j: int| 0 <= j < 256 ==> vals@[j] < (1u16 << d),
            (1u16 << d) == pow2(d as nat),
            i <= 256,
            coeffs@.len() == i,
            forall|j: int| 0 <= j < i ==> coeffs@[j] < 3329,
            forall|j: int|
                0 <= j < i ==> coeffs@[j] == spec_decompress(vals@[j] as int, d as nat),
        decreases 256 - i,
    {
        coeffs.push(crate::poly::decompress_coeff(vals[i], d));
        i += 1;
    }
    Poly { coeffs, domain }
}

/// The compressed form of a coefficient sequence: every entry scaled down
/// to d bits.
pub open spec fn compress_seq(c: Seq<u16>, d: nat) -> Seq<u16> {
    Seq::new(256, |i: int| spec_compress(c[i] as int, d) as u16)
}

/// The coefficients read back from one component's packed d-bit bytes.
pub open spec fn decompress_seq(b: Seq<u8>, d: int) -> Seq<u16> {
    Seq::new(
        256,
        |i: int|
            if d == 10 {
                spec_decompress(dec10_at(b, i) as int, 10) as u16
            } else {
                spec_decompress(dec11_at(b, i) as int, 11) as u16
            },
    )
}

/// Compress and pack a whole vector, d bits per coefficient: the packed
/// encodings of its compressed components, in order.
pub fn pv_compress(pv: &PolyVec, k: usize, d: u32, domain: Domain) -> (r: Vec<u8>)
    requires
        pv.wf(k as int, domain),
        1 <= k <= 4,
        d == 10 || d == 11,
    ensures
        r@.len() == k * 32 * d,
        d == 10 ==> forall|x: int|
            0 <= x < k * 320 ==> r@[x] == bytes10_at(
                compress_seq(pv.polys@[x / 320].coeffs@, 10),
                x % 320,
            ),
        d == 11 ==> forall|x: int|
            0 <= x < k * 352 ==> r@[x] == bytes11_at(
                compress_seq(pv.polys@[x / 352].coeffs@, 11),
                x % 352,
            ),
{
    let step: usize = 32 * (d as usize);
    let mut out: Vec<u8> = Vec::new();
    let mut i: usize = 0;
    while i < k
        invariant
            pv.wf(k as int, domain),
            1 <= k <= 4,
            d == 10 || d == 11,
            step == 32 * d,
            i <= k,
            out@.len() == i * step,
            d == 10 ==> forall|x: int|
                0 <= x < i * 320 ==> out@[x] == bytes10_at(
                    compress_seq(pv.polys@[x / 320].coeffs@, 10),
                    x % 320,
                ),
            d == 11 ==> forall|x: int|
                0 <= x < i * 352 ==> out@[x] == bytes11_at(
                    compress_seq(pv.polys@[x / 352].coeffs@, 11),
                    x % 352,
                ),
        decreases k - i,
    {
        let vals: Vec<u16> = compress_poly(&pv.polys[i], d);
        proof {
            assert(vals@ =~= compress_seq(pv.polys@[i as int].coeffs@, d as nat));
        }
        let mut bytes: Vec<u8> = codec::pack_bits(&vals, d);
        let ghost prev = out@;
        let ghost newbytes = bytes@;
        out.append(&mut bytes);
        proof {
            if d == 10 {
                assert forall|x: int| 0 <= x < (i + 1) * 320 implies out@[x] == bytes10_at(
                    compress_seq(pv.polys@[x / 320].coeffs@, 10),
                    x % 320,
                ) by {
                    if x < i * 320 {
                        assert(out@[x] == prev[x]);
                    } else {
                        vstd::arithmetic::div_mod::lemma_fundamental_div_mod_converse(
                            x,
                            320,
                            i as int,
                            x - 320 * (i as int),
                        );
                        assert(out@[x] == newbytes[x - 320 * (i as int)]);
                    }
                }
            } else {
                assert forall|x: int| 0 <= x < (i + 1) * 352 implies out@[x] == bytes11_at(
                    compress_seq(pv.polys@[x / 352].coeffs@, 11),
                    x % 352,
                ) by {
                    if x < i * 352 {
                        assert(out@[x] == prev[x]);
                    } else {
                        vstd::arithmetic::div_mod::lemma_fundamental_div_mod_converse(
                            x,
                            352,
                            i as int,
                            x - 352 * (i as int),
                        );
                        assert(out@[x] == newbytes[x - 352 * (i as int)]);
                    }
                }
            }
        }
        i += 1;
    }
    proof {
        assert(out@.len() == k * 32 * d) by (nonlinear_arith)
            requires
                out@.len() == k * step,
                step == 32 * d,
        ;
    }
    out
}

/// Unpack and decompress a whole vector from k * 32 * d bytes.
pub fn pv_decompress(b: &Vec<u8>, k: usize, d: u32, domain: Domain) -> (r: PolyVec)
    requires
        b@.len() == k * 32 * d,
        1 <= k <= 4,
        d == 10 || d == 11,
    ensures
        r.wf(k as int, domain),
        forall|pi: int|
            0 <= pi < k ==> (#[trigger] r.polys@[pi]).coeffs@ == decompress_seq(
                b@.subrange(pi * 32 * d, (pi + 1) * 32 * d),
                d as int,
            ),
{
    let mut polys: Vec<Poly> = Vec::new();
    let step: usize = 32 * (d as usize);
    let mut i: usize = 0;
    while i < k
        invariant
            b@.len() == k * 32 * d,
            k <= 4,
            d == 10 || d == 11,
            step == 32 * d,
            i <= k,
            polys@.len() == i,
            forall|j: int| 0 <= j < i ==> (#[trigger] polys@[j]).wf(),
            forall|j: int| 0 <= j < i ==> (#[trigger] polys@[j]).domain == domain,
            forall|pi: int|
                0 <= pi < i ==> (#[trigger] polys@[pi]).coeffs@ == decompress_seq(
                    b@.subrange(pi * 32 * d, (pi + 1) * 32 * d),
                    d as int,
                ),
        decreases k - i,
    {
        let mut chunk: Vec<u8> = Vec::new();
        let mut j: usize = 0;
        while j < step
            invariant
                b@.len() == k * 32 * d,
                i < k,
                k <= 4,
                step == 32 * d,
                d == 10 || d == 11,
                j <= step,
                chunk@.len() == j,
                forall|jj: int| 0 <= jj < j ==> chunk@[jj] == b@[i * step + jj],
            decreases step - j,
        {
            proof {
                assert(i * step + j < k * 32 * d) by (nonlinear_arith)
                    requires
                        i < k,
                        j < step,
                        step == 32 * d,
                        k <= 4,
                        d <= 11,
                ;
            }
            chunk.push(b[i * step + j]);
            j += 1;
        }
        proof {
            assert((i as int + 1) * 32 * d <= b@.len() && (i as int) * 32 * (d as int) == i
                * step && (i as int) * 32 * d + step == (i as int + 1) * 32 * d)
                by (nonlinear_arith)
                requires
                    i < k,
                    b@.len() == k * 32 * d,
                    step == 32 * d,
            ;
            assert(chunk@ =~= b@.subrange(
                (i as int) * 32 * d,
                (i as int + 1) * 32 * d,
            ));
        }
        let vals: Vec<u16> = codec::unpack_bits(&chunk, d);
        let p: Poly = decompress_poly(&vals, d, domain);
        proof {
            assert(p.coeffs@ =~= decompress_seq(chunk@, d as int));
        }
        polys.push(p);
        i += 1;
    }
    PolyVec { polys }
}

} // verus!
