//! The lattice public-key encryption primitive: deterministic key
//! generation, encryption and decryption over the parameter set, with the
//! public matrix regenerated from its seed by rejection sampling.  Every
//! output is pinned to a specification-level pipeline over the sponge
//! model, so key, ciphertext and message bytes are part of the contracts.

use vstd::prelude::*;
use crate::cbd::{cbd, cbd_seq};
use crate::codec;
use crate::codec::{bytes10_at, bytes11_at, bytes4_at, bytes5_at, dec4_at, dec5_at,
    frombytes_seq, msg_bytes_spec, msg_poly_spec};
use crate::fips202::{sha3_512, sha3_512_spec, shake128, shake128_spec, shake256, shake256_spec};
use crate::ntt::{invntt, ntt, spec_invntt, spec_ntt, Zetas};
use crate::params::{params_wf, KyberParams};
use crate::poly::{spec_decompress, spec_poly_add, spec_poly_sub, Domain, Poly};
use crate::polyvec::{acc_basemul, basemul_acc, compress_poly, compress_seq, decompress_poly,
    decompress_seq, pv_compress, pv_decompress, pv_frombytes, pv_tobytes, views, PolyVec};

verus! {

/// Copy `n` bytes of `b` starting at `start`.
pub fn subvec(b: &Vec<u8>, start: usize, n: usize) -> (r: Vec<u8>)
    requires
        start + n <= b@.len(),
    ensures
        r@.len() == n,
        r@ == b@.subrange(start as int, start + n),
        forall|i: int| 0 <= i < n ==> r@[i] == b@[start + i],
{
    let blen: usize = b.len();
    let mut out: Vec<u8> = Vec::new();
    let mut i: usize = 0;
    while i < n
        invariant
            start + n <= b@.len(),
            b@.len() == blen,
            i <= n,
            out@.len() == i,
            forall|j: int| 0 <= j < i ==> out@[j] == b@[start + j],
        decreases n - i,
    {
        out.push(b[start + i]);
        i += 1;
    }
    proof {
        assert(out@ =~= b@.subrange(start as int, start + n));
    }
    out
}

/// The noise PRF: the variable-output hash of seed and nonce.
fn prf_bytes(seed: &Vec<u8>, nonce: u8, outlen: usize) -> (r: Vec<u8>)
    requires
        seed@.len() == 32,
    ensures
        r@.len() == outlen,
        r@ == shake256_spec(seed@.push(nonce), outlen as int),
{
    let mut input: Vec<u8> = subvec(seed, 0, 32);
    input.push(nonce);
    proof {
        assert(input@ =~= seed@.push(nonce));
    }
    shake256(&input, outlen)
}

/// Matrix rows in the transform domain.
pub open spec fn matrix_wf(m: Seq<PolyVec>, k: int) -> bool {
    &&& m.len() == k
    &&& forall|i: int| 0 <= i < k ==> (#[trigger] m[i]).wf(k, Domain::Ntt)
}

/// Bytes squeezed from the matrix seed for each entry; far more than
/// rejection sampling can consume except with negligible probability.
pub const XOF_STREAM_BYTES: usize = 1344;

/// Zero-fill an accepted-coefficient list up to the ring degree.
pub open spec fn parse_pad(acc: Seq<u16>) -> Seq<u16>
    decreases 256 - acc.len(),
{
    if acc.len() >= 256 {
        acc
    } else {
        parse_pad(acc.push(0))
    }
}

/// Rejection sampling from byte position `idx` on, with `acc` already
/// accepted: each three bytes yield two 12-bit candidates, kept when
/// below q.
pub open spec fn parse_from(stream: Seq<u8>, idx: int, acc: Seq<u16>) -> Seq<u16>
    decreases stream.len() - idx,
{
    if acc.len() >= 256 {
        acc
    } else if idx < 0 || idx + 3 > stream.len() {
        parse_pad(acc)
    } else {
        let b0 = stream[idx] as u16;
        let b1 = stream[idx + 1] as u16;
        let b2 = stream[idx + 2] as u16;
        let d1 = b0 | ((b1 & 0xf) << 8);
        let d2 = (b1 >> 4) | (b2 << 4);
        let acc1 = if d1 < 3329 {
            acc.push(d1)
        } else {
            acc
        };
        let acc2 = if d2 < 3329 && acc1.len() < 256 {
            acc1.push(d2)
        } else {
            acc1
        };
        parse_from(stream, idx + 3, acc2)
    }
}

/// The 256 coefficients rejection sampling draws from a byte stream.
pub open spec fn parse_spec(stream: Seq<u8>) -> Seq<u16> {
    parse_from(stream, 0, Seq::empty())
}

/// Rejection-sample a transform-domain polynomial from a pseudorandom byte
/// stream: successive 12-bit candidates are kept when below q.  Should the
/// generous stream still run dry -- an event of negligible probability --
/// the remaining coefficients are zero.
fn parse(stream: &Vec<u8>) -> (r: Poly)
    requires
        stream@.len() <= 0xffff,
    ensures
        r.wf(),
        r.domain == Domain::Ntt,
        r.coeffs@ == parse_spec(stream@),
{
    let mut coeffs: Vec<u16> = Vec::new();
    let mut idx: usize = 0;
    while coeffs.len() < 256 && idx + 3 <= stream.len()
        invariant
            stream@.len() <= 0xffff,
            idx <= stream@.len(),
            coeffs@.len() <= 256,
            forall|i: int| 0 <= i < coeffs@.len() ==> coeffs@[i] < 3329,
            parse_spec(stream@) == parse_from(stream@, idx as int, coeffs@),
        decreases stream@.len() - idx,
    {
        let b0: u16 = stream[idx] as u16;
        let b1: u16 = stream[idx + 1] as u16;
        let b2: u16 = stream[idx + 2] as u16;
        let d1: u16 = b0 | ((b1 & 0xf) << 8);
        let d2: u16 = (b1 >> 4) | (b2 << 4);
        proof {
            assert((b1 & 0xf) << 8 <= 0xf00) by (bit_vector)
                requires
                    b1 < 256,
            ;
            assert((b1 >> 4) | (b2 << 4) < 4096) by (bit_vector)
                requires
                    b1 < 256,
                    b2 < 256,
            ;
        }
        if d1 < 3329 {
            coeffs.push(d1);
        }
        if d2 < 3329 && coeffs.len() < 256 {
            coeffs.push(d2);
        }
        idx += 3;
    }
    while coeffs.len() < 256
        invariant
            coeffs@.len() <= 256,
            forall|i: int| 0 <= i < coeffs@.len() ==> coeffs@[i] < 3329,
            parse_spec(stream@) == parse_pad(coeffs@),
        decreases 256 - coeffs@.len(),
    {
        coeffs.push(0);
    }
    Poly { coeffs, domain: Domain::Ntt }
}

/// The extendable-output stream for one matrix entry: the seed followed by
/// the entry's two coordinate bytes.
pub open spec fn matrix_entry_spec(rho: Seq<u8>, i: int, j: int, transposed: bool) -> Seq<u16> {
    let x = if transposed {
        i
    } else {
        j
    };
    let y = if transposed {
        j
    } else {
        i
    };
    parse_spec(shake128_spec(rho.push(x as u8).push(y as u8), 1344))
}

/// Row i of the matrix, as coefficient sequences.
pub open spec fn matrix_row_spec(rho: Seq<u8>, k: int, i: int, transposed: bool) -> Seq<
    Seq<u16>,
> {
    Seq::new(k as nat, |j: int| matrix_entry_spec(rho, i, j, transposed))
}

/// Regenerate the k-by-k public matrix from the 32-byte seed `rho`:
/// entry (i, j) is parsed from the extendable-output function keyed by the
/// seed and the pair's coordinates, transposed or not.
pub fn gen_matrix(rho: &Vec<u8>, k: usize, transposed: bool) -> (m: Vec<PolyVec>)
    requires
        rho@.len() == 32,
        1 <= k <= 4,
    ensures
        matrix_wf(m@, k as int),
        forall|i: int, j: int|
            0 <= i < k && 0 <= j < k ==> (#[trigger] m@[i].polys@[j]).coeffs@
                == matrix_entry_spec(rho@, i, j, transposed),
{
    let mut rows: Vec<PolyVec> = Vec::new();
    let mut i: usize = 0;
    while i < k
        invariant
            rho@.len() == 32,
            1 <= k <= 4,
            i <= k,
            rows@.len() == i,
            forall|a: int| 0 <= a < i ==> (#[trigger] rows@[a]).wf(k as int, Domain::Ntt),
            forall|a: int, b: int|
                0 <= a < i && 0 <= b < k ==> (#[trigger] rows@[a].polys@[b]).coeffs@
                    == matrix_entry_spec(rho@, a, b, transposed),
        decreases k - i,
    {
        let mut polys: Vec<Poly> = Vec::new();
        let mut j: usize = 0;
        while j < k
            invariant
                rho@.len() == 32,
                1 <= k <= 4,
                i < k,
                j <= k,
                polys@.len() == j,
                forall|a: int| 0 <= a < j ==> (#[trigger] polys@[a]).wf(),
                forall|a: int| 0 <= a < j ==> (#[trigger] polys@[a]).domain == Domain::Ntt,
                forall|a: int|
                    0 <= a < j ==> (#[trigger] polys@[a]).coeffs@ == matrix_entry_spec(
                        rho@,
                        i as int,
                        a,
                        transposed,
                    ),
            decreases k - j,
        {
            let mut input: Vec<u8> = subvec(rho, 0, 32);
            if transposed {
                input.push(i as u8);
                input.push(j as u8);
            } else {
                input.push(j as u8);
                input.push(i as u8);
            }
            proof {
                if transposed {
                    assert(input@ =~= rho@.push(i as u8).push(j as u8));
                } else {
                    assert(input@ =~= rho@.push(j as u8).push(i as u8));
                }
            }
            let stream: Vec<u8> = shake128(&input, XOF_STREAM_BYTES);
            polys.push(parse(&stream));
            j += 1;
        }
        rows.push(PolyVec { polys });
        i += 1;
    }
    rows
}

/// One noise polynomial: the centered binomial sample of the PRF stream
/// keyed by the seed and nonce.
pub open spec fn noise_poly_spec(seed: Seq<u8>, eta: nat, nonce: u8) -> Seq<u16> {
    cbd_seq(shake256_spec(seed.push(nonce), 64 * eta as int), eta)
}

/// A vector of k noise polynomials at consecutive nonces.
pub open spec fn noise_vec_spec(seed: Seq<u8>, k: int, eta: nat, nonce0: u8) -> Seq<Seq<u16>> {
    Seq::new(k as nat, |i: int| noise_poly_spec(seed, eta, (nonce0 + i) as u8))
}

/// A vector of coefficient sequences, each through the forward transform.
pub open spec fn ntt_vec_spec(vs: Seq<Seq<u16>>) -> Seq<Seq<u16>> {
    Seq::new(vs.len(), |i: int| spec_ntt(vs[i]))
}

/// Sample a vector of k noise polynomials by the centered binomial
/// distribution, using consecutive nonces starting at `nonce0`.
fn sample_noise_vec(seed: &Vec<u8>, k: usize, eta: usize, nonce0: u8) -> (r: PolyVec)
    requires
        seed@.len() == 32,
        1 <= k <= 4,
        nonce0 <= 8,
        eta == 2 || eta == 3,
    ensures
        r.wf(k as int, Domain::Normal),
        forall|i: int|
            0 <= i < k ==> (#[trigger] r.polys@[i]).coeffs@ == noise_poly_spec(
                seed@,
                eta as nat,
                (nonce0 + i) as u8,
            ),
{
    let mut polys: Vec<Poly> = Vec::new();
    let mut i: usize = 0;
    while i < k
        invariant
            seed@.len() == 32,
            1 <= k <= 4,
            nonce0 <= 8,
            eta == 2 || eta == 3,
            i <= k,
            polys@.len() == i,
            forall|a: int| 0 <= a < i ==> (#[trigger] polys@[a]).wf(),
            forall|a: int| 0 <= a < i ==> (#[trigger] polys@[a]).domain == Domain::Normal,
            forall|a: int|
                0 <= a < i ==> (#[trigger] polys@[a]).coeffs@ == noise_poly_spec(
                    seed@,
                    eta as nat,
                    (nonce0 + a) as u8,
                ),
        decreases k - i,
    {
        let buf: Vec<u8> = prf_bytes(seed, nonce0 + (i as u8), 64 * eta);
        polys.push(cbd(&buf, eta));
        i += 1;
    }
    PolyVec { polys }
}

/// The matrix-vector product in the transform domain: row i of `m` times
/// `v`, accumulated by base multiplication, plus the error vector `e`.
fn matrix_vec_mul_add(m: &Vec<PolyVec>, v: &PolyVec, e: &PolyVec, k: usize, zt: &Zetas) -> (r:
    PolyVec)
    requires
        1 <= k <= 4,
        matrix_wf(m@, k as int),
        v.wf(k as int, Domain::Ntt),
        e.wf(k as int, Domain::Ntt),
        zt.wf(),
    ensures
        r.wf(k as int, Domain::Ntt),
        forall|row: int|
            0 <= row < k ==> (#[trigger] r.polys@[row]).coeffs@ == spec_poly_add(
                acc_basemul(views(m@[row].polys@), views(v.polys@), k as int),
                e.polys@[row].coeffs@,
            ),
{
    let mut polys: Vec<Poly> = Vec::new();
    let mut i: usize = 0;
    while i < k
        invariant
            1 <= k <= 4,
            matrix_wf(m@, k as int),
            v.wf(k as int, Domain::Ntt),
            e.wf(k as int, Domain::Ntt),
            zt.wf(),
            i <= k,
            polys@.len() == i,
            forall|a: int| 0 <= a < i ==> (#[trigger] polys@[a]).wf(),
            forall|a: int| 0 <= a < i ==> (#[trigger] polys@[a]).domain == Domain::Ntt,
            forall|row: int|
                0 <= row < i ==> (#[trigger] polys@[row]).coeffs@ == spec_poly_add(
                    acc_basemul(views(m@[row].polys@), views(v.polys@), k as int),
                    e.polys@[row].coeffs@,
                ),
        decreases k - i,
    {
        let acc: Poly = basemul_acc(&m[i], v, k, zt);
        polys.push(acc.add(&e.polys[i]));
        i += 1;
    }
    PolyVec { polys }
}

/// Row i of the public value t = A s + e, in the transform domain, as a
/// function of the two seeds.
pub open spec fn keypair_t_spec(rho: Seq<u8>, sigma: Seq<u8>, k: int, eta1: nat, i: int) -> Seq<
    u16,
> {
    spec_poly_add(
        acc_basemul(
            matrix_row_spec(rho, k, i, false),
            ntt_vec_spec(noise_vec_spec(sigma, k, eta1, 0)),
            k,
        ),
        spec_ntt(noise_poly_spec(sigma, eta1, (k + i) as u8)),
    )
}

/// The encoded public key that key generation derives from the seed d:
/// the packed rows of t, then the matrix seed.
pub open spec fn indcpa_pk_spec(d: Seq<u8>, k: int, eta1: nat) -> Seq<u8> {
    let g = sha3_512_spec(d);
    let rho = g.subrange(0, 32);
    let sigma = g.subrange(32, 64);
    Seq::new(
        (384 * k) as nat,
        |x: int| codec::bytes12_at(keypair_t_spec(rho, sigma, k, eta1, x / 384), x % 384),
    ) + rho
}

/// The encoded secret key that key generation derives from the seed d:
/// the packed rows of the transformed secret vector.
pub open spec fn indcpa_sk_spec(d: Seq<u8>, k: int, eta1: nat) -> Seq<u8> {
    let g = sha3_512_spec(d);
    let sigma = g.subrange(32, 64);
    Seq::new(
        (384 * k) as nat,
        |x: int| codec::bytes12_at(
            spec_ntt(noise_poly_spec(sigma, eta1, (x / 384) as u8)),
            x % 384,
        ),
    )
}

/// Deterministic key generation from a 32-byte seed: derive the matrix
/// seed and noise seed, sample the secret and error vectors, and form the
/// public value t = A s + e in the transform domain.  Returns the encoded
/// public key (t with the matrix seed appended) and secret key (s).
pub fn indcpa_keypair(params: &KyberParams, d: &Vec<u8>, zt: &Zetas) -> (r: (Vec<u8>, Vec<u8>))
    requires
        params_wf(*params),
        d@.len() == 32,
        zt.wf(),
    ensures
        r.0@.len() == params.kyber_indcpa_publickeybytes,
        r.1@.len() == params.kyber_indcpa_secretkeybytes,
        r.0@ == indcpa_pk_spec(d@, params.kyber_k as int, params.kyber_eta1 as nat),
        r.1@ == indcpa_sk_spec(d@, params.kyber_k as int, params.kyber_eta1 as nat),
{
    let k: usize = params.kyber_k as usize;
    let eta1: usize = params.kyber_eta1 as usize;
    let g: Vec<u8> = sha3_512(d);
    let rho: Vec<u8> = subvec(&g, 0, 32);
    let sigma: Vec<u8> = subvec(&g, 32, 32);
    let a: Vec<PolyVec> = gen_matrix(&rho, k, false);
    let s0: PolyVec = sample_noise_vec(&sigma, k, eta1, 0);
    let s: PolyVec = s0.ntt_all(k, zt);
    let e0: PolyVec = sample_noise_vec(&sigma, k, eta1, k as u8);
    let e: PolyVec = e0.ntt_all(k, zt);
    let t: PolyVec = matrix_vec_mul_add(&a, &s, &e, k, zt);
    let ghost ki = k as int;
    let ghost e1n = eta1 as nat;
    let ghost gsp = sha3_512_spec(d@);
    proof {
        assert(rho@ == gsp.subrange(0, 32));
        assert(sigma@ == gsp.subrange(32, 64));
        assert forall|row: int| 0 <= row < ki implies (#[trigger] t.polys@[row]).coeffs@
            == keypair_t_spec(rho@, sigma@, ki, e1n, row) by {
            assert(views(a@[row].polys@) =~= matrix_row_spec(rho@, ki, row, false));
            assert(views(s.polys@) =~= ntt_vec_spec(noise_vec_spec(sigma@, ki, e1n, 0)));
            assert(e.polys@[row].coeffs@ == spec_ntt(
                noise_poly_spec(sigma@, e1n, (ki + row) as u8),
            ));
        }
        assert forall|row: int| 0 <= row < ki implies (#[trigger] s.polys@[row]).coeffs@
            == spec_ntt(noise_poly_spec(sigma@, e1n, row as u8)) by {
            assert(s0.polys@[row].coeffs@ == noise_poly_spec(sigma@, e1n, (0 + row) as u8));
        }
    }
    let mut pk: Vec<u8> = pv_tobytes(&t, k, Domain::Ntt);
    let mut rho_copy: Vec<u8> = subvec(&rho, 0, 32);
    pk.append(&mut rho_copy);
    let sk: Vec<u8> = pv_tobytes(&s, k, Domain::Ntt);
    proof {
        assert(pk@ =~= indcpa_pk_spec(d@, ki, e1n));
        assert(sk@ =~= indcpa_sk_spec(d@, ki, e1n));
    }
    (pk, sk)
}

/// Row i of the ciphertext vector u = invNTT(At r) + e1, as a function of
/// the public key and coins.
pub open spec fn enc_u_spec(pk: Seq<u8>, coins: Seq<u8>, k: int, eta1: nat, i: int) -> Seq<
    u16,
> {
    let rho = pk.subrange(384 * k, 384 * k + 32);
    spec_poly_add(
        spec_invntt(
            acc_basemul(
                matrix_row_spec(rho, k, i, true),
                ntt_vec_spec(noise_vec_spec(coins, k, eta1, 0)),
                k,
            ),
        ),
        noise_poly_spec(coins, 2, (k + i) as u8),
    )
}

/// The components of the stored public value t, read back from the
/// encoded public key.
pub open spec fn pk_t_views(pk: Seq<u8>, k: int) -> Seq<Seq<u16>> {
    Seq::new(k as nat, |j: int| frombytes_seq(pk.subrange(384 * j, 384 * (j + 1))))
}

/// The ciphertext polynomial v = invNTT(t . r) + e2 + encode(m), as a
/// function of the public key, message and coins.
pub open spec fn enc_v_spec(pk: Seq<u8>, m: Seq<u8>, coins: Seq<u8>, k: int, eta1: nat) -> Seq<
    u16,
> {
    spec_poly_add(
        spec_poly_add(
            spec_invntt(
                acc_basemul(pk_t_views(pk, k), ntt_vec_spec(noise_vec_spec(coins, k, eta1, 0)),
                    k),
            ),
            noise_poly_spec(coins, 2, (2 * k) as u8),
        ),
        msg_poly_spec(m),
    )
}

/// The whole encoded ciphertext: the packed compressed rows of u, then the
/// packed compressed v.
pub open spec fn indcpa_ct_spec(pk: Seq<u8>, m: Seq<u8>, coins: Seq<u8>, k: int, eta1: nat)
    -> Seq<u8> {
    let ubytes = if k == 4 {
        Seq::new(
            (k * 352) as nat,
            |x: int| bytes11_at(compress_seq(enc_u_spec(pk, coins, k, eta1, x / 352), 11), x
                % 352),
        )
    } else {
        Seq::new(
            (k * 320) as nat,
            |x: int| bytes10_at(compress_seq(enc_u_spec(pk, coins, k, eta1, x / 320), 10), x
                % 320),
        )
    };
    let vvals = compress_seq(enc_v_spec(pk, m, coins, k, eta1), if k == 4 {
        5
    } else {
        4
    });
    let vbytes = if k == 4 {
        Seq::new(160, |j: int| bytes5_at(vvals, j))
    } else {
        Seq::new(128, |j: int| bytes4_at(vvals, j))
    };
    ubytes + vbytes
}

/// Encrypt a 32-byte message under an encoded public key with the given
/// 32-byte coins: sample the blinding and error noise from the coins, form
/// u = At r + e1 and v = t.r + e2 + encode(message), and return both
/// compressed.
pub fn indcpa_enc(params: &KyberParams, pk: &Vec<u8>, m: &Vec<u8>, coins: &Vec<u8>, zt: &Zetas)
    -> (ct: Vec<u8>)
    requires
        params_wf(*params),
        pk@.len() == params.kyber_indcpa_publickeybytes,
        m@.len() == 32,
        coins@.len() == 32,
        zt.wf(),
    ensures
        ct@.len() == params.kyber_indcpa_bytes,
        ct@ == indcpa_ct_spec(pk@, m@, coins@, params.kyber_k as int, params.kyber_eta1 as nat),
{
    let k: usize = params.kyber_k as usize;
    let eta1: usize = params.kyber_eta1 as usize;
    let du: u32 = if k == 4 {
        11
    } else {
        10
    };
    let dv: u32 = if k == 4 {
        5
    } else {
        4
    };
    let tbytes: Vec<u8> = subvec(pk, 0, 384 * k);
    let t: PolyVec = pv_frombytes(&tbytes, k, Domain::Ntt);
    let rho: Vec<u8> = subvec(pk, 384 * k, 32);
    let at: Vec<PolyVec> = gen_matrix(&rho, k, true);
    let r0: PolyVec = sample_noise_vec(coins, k, eta1, 0);
    let r: PolyVec = r0.ntt_all(k, zt);
    let e1: PolyVec = sample_noise_vec(coins, k, 2, k as u8);
    let e2buf: Vec<u8> = prf_bytes(coins, 2 * (k as u8), 128);
    let e2: Poly = cbd(&e2buf, 2);
    let mut u_rows: Vec<Poly> = Vec::new();
    let ghost ki = k as int;
    let ghost e1n = eta1 as nat;
    let mut i: usize = 0;
    while i < k
        invariant
            1 <= k <= 4,
            ki == k as int,
            e1n == eta1 as nat,
            matrix_wf(at@, k as int),
            r.wf(k as int, Domain::Ntt),
            zt.wf(),
            i <= k,
            u_rows@.len() == i,
            forall|a: int| 0 <= a < i ==> (#[trigger] u_rows@[a]).wf(),
            forall|a: int| 0 <= a < i ==> (#[trigger] u_rows@[a]).domain == Domain::Ntt,
            forall|a: int|
                0 <= a < i ==> (#[trigger] u_rows@[a]).coeffs@ == acc_basemul(
                    views(at@[a].polys@),
                    views(r.polys@),
                    k as int,
                ),
        decreases k - i,
    {
        u_rows.push(basemul_acc(&at[i], &r, k, zt));
        i += 1;
    }
    let u_ntt: PolyVec = PolyVec { polys: u_rows };
    let u: PolyVec = u_ntt.invntt_all(k, zt).add(&e1, k, Domain::Normal);
    let v_ntt: Poly = basemul_acc(&t, &r, k, zt);
    let v: Poly = invntt(&v_ntt, zt).add(&e2).add(&codec::msg_to_poly(m));
    proof {
        assert(rho@ == pk@.subrange(384 * ki, 384 * ki + 32));
        assert forall|row: int| 0 <= row < ki implies (#[trigger] u.polys@[row]).coeffs@
            == enc_u_spec(pk@, coins@, ki, e1n, row) by {
            assert(views(at@[row].polys@) =~= matrix_row_spec(rho@, ki, row, true));
            assert(views(r.polys@) =~= ntt_vec_spec(noise_vec_spec(coins@, ki, e1n, 0)));
            assert(e1.polys@[row].coeffs@ == noise_poly_spec(coins@, 2, (ki + row) as u8));
        }
        assert(views(t.polys@) =~= pk_t_views(pk@, ki)) by {
            assert forall|j: int| 0 <= j < ki implies views(t.polys@)[j] == pk_t_views(
                pk@,
                ki,
            )[j] by {
                assert(tbytes@.subrange(384 * j, 384 * (j + 1)) =~= pk@.subrange(
                    384 * j,
                    384 * (j + 1),
                ));
            }
        }
        assert(views(r.polys@) =~= ntt_vec_spec(noise_vec_spec(coins@, ki, e1n, 0)));
        assert(v.coeffs@ == enc_v_spec(pk@, m@, coins@, ki, e1n));
    }
    let mut ct: Vec<u8> = pv_compress(&u, k, du, Domain::Normal);
    let vvals: Vec<u16> = compress_poly(&v, dv);
    let mut vbytes: Vec<u8> = codec::pack_bits(&vvals, dv);
    proof {
        assert(vvals@ =~= compress_seq(v.coeffs@, dv as nat));
    }
    ct.append(&mut vbytes);
    proof {
        assert(ct@ =~= indcpa_ct_spec(pk@, m@, coins@, ki, e1n));
    }
    ct
}

/// The components of the ciphertext vector u, decompressed from the
/// ciphertext bytes.
pub open spec fn dec_u_views(ct: Seq<u8>, k: int) -> Seq<Seq<u16>> {
    if k == 4 {
        Seq::new(k as nat, |i: int| decompress_seq(ct.subrange(352 * i, 352 * (i + 1)), 11))
    } else {
        Seq::new(k as nat, |i: int| decompress_seq(ct.subrange(320 * i, 320 * (i + 1)), 10))
    }
}

/// The ciphertext polynomial v, decompressed from the ciphertext bytes.
pub open spec fn dec_v_coeffs(ct: Seq<u8>, k: int) -> Seq<u16> {
    if k == 4 {
        let vb = ct.subrange(352 * k, 352 * k + 160);
        Seq::new(256, |i: int| spec_decompress(dec5_at(vb, i) as int, 5) as u16)
    } else {
        let vb = ct.subrange(320 * k, 320 * k + 128);
        Seq::new(256, |i: int| spec_decompress(dec4_at(vb, i) as int, 4) as u16)
    }
}

/// The message that decryption recovers: the one-bit compression of
/// v - invNTT(s . NTT(u)).
pub open spec fn indcpa_m_spec(sk: Seq<u8>, ct: Seq<u8>, k: int) -> Seq<u8> {
    let s_views = Seq::new(
        k as nat,
        |i: int| frombytes_seq(sk.subrange(384 * i, 384 * (i + 1))),
    );
    let mp = spec_poly_sub(
        dec_v_coeffs(ct, k),
        spec_invntt(acc_basemul(s_views, ntt_vec_spec(dec_u_views(ct, k)), k)),
    );
    msg_bytes_spec(mp)
}

/// Decrypt a ciphertext with the encoded secret key: recover the message
/// as the one-bit compression of v - s.u.  Total over all inputs of the
/// documented lengths; recovery failure shows only as a wrong message.
pub fn indcpa_dec(params: &KyberParams, sk: &Vec<u8>, ct: &Vec<u8>, zt: &Zetas) -> (m: Vec<u8>)
    requires
        params_wf(*params),
        sk@.len() == params.kyber_indcpa_secretkeybytes,
        ct@.len() == params.kyber_indcpa_bytes,
        zt.wf(),
    ensures
        m@.len() == 32,
        m@ == indcpa_m_spec(sk@, ct@, params.kyber_k as int),
{
    let k: usize = params.kyber_k as usize;
    let du: u32 = if k == 4 {
        11
    } else {
        10
    };
    let dv: u32 = if k == 4 {
        5
    } else {
        4
    };
    proof {
        assert(k * 32 * (du as usize) <= 1408 && k * 32 * (du as usize) + 32 * (dv as usize)
            == params.kyber_indcpa_bytes) by (nonlinear_arith)
            requires
                params_wf(*params),
                k == params.kyber_k,
                du == if k == 4 { 11u32 } else { 10u32 },
                dv == if k == 4 { 5u32 } else { 4u32 },
        ;
    }
    let ulen: usize = k * 32 * (du as usize);
    let ubytes: Vec<u8> = subvec(ct, 0, ulen);
    let u: PolyVec = pv_decompress(&ubytes, k, du, Domain::Normal);
    let vbytes: Vec<u8> = subvec(ct, ulen, 32 * (dv as usize));
    let vvals: Vec<u16> = codec::unpack_bits(&vbytes, dv);
    let v: Poly = decompress_poly(&vvals, dv, Domain::Normal);
    let s: PolyVec = pv_frombytes(sk, k, Domain::Ntt);
    let u_ntt: PolyVec = u.ntt_all(k, zt);
    let sp: Poly = invntt(&basemul_acc(&s, &u_ntt, k, zt), zt);
    let mp: Poly = v.sub(&sp);
    let ghost ki = k as int;
    proof {
        assert forall|i: int| 0 <= i < ki implies views(u.polys@)[i] == dec_u_views(ct@, ki)[i]
            by {
            if ki == 4 {
                assert(32 * (du as int) * i == 352 * i && 32 * (du as int) * (i + 1) == 352 * (i
                    + 1)) by (nonlinear_arith)
                    requires
                        du == 11,
                ;
                assert(ubytes@.subrange(352 * i, 352 * (i + 1)) =~= ct@.subrange(
                    352 * i,
                    352 * (i + 1),
                ));
            } else {
                assert(32 * (du as int) * i == 320 * i && 32 * (du as int) * (i + 1) == 320 * (i
                    + 1)) by (nonlinear_arith)
                    requires
                        du == 10,
                ;
                assert(ubytes@.subrange(320 * i, 320 * (i + 1)) =~= ct@.subrange(
                    320 * i,
                    320 * (i + 1),
                ));
            }
        }
        assert(views(u.polys@) =~= dec_u_views(ct@, ki));
        if ki == 4 {
            assert(vbytes@ =~= ct@.subrange(352 * ki, 352 * ki + 160));
        } else {
            assert(vbytes@ =~= ct@.subrange(320 * ki, 320 * ki + 128));
        }
        assert(v.coeffs@ =~= dec_v_coeffs(ct@, ki));
        assert(views(s.polys@) =~= Seq::new(
            ki as nat,
            |i: int| frombytes_seq(sk@.subrange(384 * i, 384 * (i + 1))),
        ));
        assert(views(u_ntt.polys@) =~= ntt_vec_spec(views(u.polys@)));
        assert(mp.coeffs@ == spec_poly_sub(
            dec_v_coeffs(ct@, ki),
            spec_invntt(acc_basemul(views(s.polys@), ntt_vec_spec(dec_u_views(ct@, ki)), ki)),
        ));
    }
    codec::poly_to_msg(&mp)
}

} // verus!
