//! The CCA-secure encapsulation mechanism over the encryption primitive:
//! keypair generation, encapsulation, and decapsulation with implicit
//! rejection.  Decapsulation never fails on inputs of the documented
//! lengths; a tampered ciphertext yields a pseudorandom, ciphertext-bound
//! key instead of an error.  Every output and the generator's advancement
//! are pinned to specification-level functions of the inputs.

use vstd::prelude::*;
use crate::errors::KemError;
use crate::fips202::{sha3_256, sha3_256_spec, sha3_512, sha3_512_spec, shake256, shake256_spec};
use crate::indcpa::{indcpa_ct_spec, indcpa_dec, indcpa_enc, indcpa_keypair, indcpa_m_spec,
    indcpa_pk_spec, indcpa_sk_spec, subvec};
use crate::kyber_rng::{drbg_stream, update_key_spec, update_v_spec, v_after_gen, KyberRng,
    RESEED_LIMIT};
use crate::ntt::Zetas;
use crate::params::{params_wf, KyberParams};

verus! {

/// The generator's key after one n-byte draw: the update step applied to
/// the advanced counter.
pub open spec fn rng_key_after(key: Seq<u8>, v: Seq<u8>, n: int) -> Seq<u8> {
    update_key_spec(key, v_after_gen(v, n), Seq::empty())
}

/// The generator's counter after one n-byte draw.
pub open spec fn rng_v_after(key: Seq<u8>, v: Seq<u8>, n: int) -> Seq<u8> {
    update_v_spec(key, v_after_gen(v, n), Seq::empty())
}

/// Constant-time equality of two equal-length byte strings: the fold of
/// XOR differences is zero exactly when the strings are equal.
pub fn verify_eq(a: &Vec<u8>, b: &Vec<u8>) -> (r: bool)
    requires
        a@.len() == b@.len(),
    ensures
        r <==> a@ == b@,
{
    let mut acc: u8 = 0;
    let mut i: usize = 0;
    while i < a.len()
        invariant
            a@.len() == b@.len(),
            i <= a@.len(),
            acc == 0 <==> (forall|j: int| 0 <= j < i ==> a@[j] == b@[j]),
        decreases a@.len() - i,
    {
        let d: u8 = a[i] ^ b[i];
        let x: u8 = a[i];
        let y: u8 = b[i];
        proof {
            assert((x ^ y) == 0 <==> x == y) by (bit_vector);
            assert(forall|p: u8, q: u8| (p | q) == 0 <==> p == 0 && q == 0) by (bit_vector);
        }
        acc = acc | d;
        i += 1;
    }
    if acc == 0 {
        proof {
            assert(a@ =~= b@);
        }
        true
    } else {
        false
    }
}

/// Constant-time conditional overwrite: replace `dest` with `src` exactly
/// when `b` is one, through a mask rather than a data-dependent branch.
pub fn cmov(dest: &mut Vec<u8>, src: &Vec<u8>, b: u8)
    requires
        old(dest)@.len() == src@.len(),
        b == 0 || b == 1,
    ensures
        final(dest)@ == if b == 1 {
            src@
        } else {
            old(dest)@
        },
{
    let mask: u8 = b * 0xff;
    let mut i: usize = 0;
    while i < dest.len()
        invariant
            dest@.len() == old(dest)@.len(),
            old(dest)@.len() == src@.len(),
            mask == b * 0xff,
            b == 0 || b == 1,
            i <= dest@.len(),
            forall|j: int|
                0 <= j < i ==> dest@[j] == if b == 1 {
                    src@[j]
                } else {
                    old(dest)@[j]
                },
            forall|j: int| i <= j < dest@.len() ==> dest@[j] == old(dest)@[j],
        decreases dest@.len() - i,
    {
        let x: u8 = dest[i];
        let y: u8 = src[i];
        let z: u8 = x ^ (mask & (x ^ y));
        proof {
            assert((x ^ (0xff & (x ^ y))) == y && (x ^ (0 & (x ^ y))) == x) by (bit_vector);
        }
        dest.set(i, z);
        i += 1;
    }
    proof {
        if b == 1 {
            assert(dest@ =~= src@);
        } else {
            assert(dest@ =~= old(dest)@);
        }
    }
}

/// Generate a keypair: the encryption keypair from a fresh generator draw
/// `d`, with the secret key extended by the public key, its hash, and the
/// independent implicit-rejection value `z` from a second draw.  Fails
/// exactly when the generator cannot supply both draws before its reseed
/// limit.
pub fn crypto_kem_keypair(params: &KyberParams, rng: &mut KyberRng) -> (r: Result<
    (Vec<u8>, Vec<u8>),
    KemError,
>)
    requires
        params_wf(*params),
        old(rng).wf(),
        old(rng).seeded(),
    ensures
        final(rng).wf(),
        final(rng).seeded(),
        r is Ok <==> old(rng).reseed_counter + 1 <= RESEED_LIMIT,
        r is Err ==> r == Result::<(Vec<u8>, Vec<u8>), KemError>::Err(KemError::DrbgExhausted),
        r is Ok ==> ({
            let d = drbg_stream(old(rng).key@, old(rng).v@, 32);
            let key1 = rng_key_after(old(rng).key@, old(rng).v@, 32);
            let v1 = rng_v_after(old(rng).key@, old(rng).v@, 32);
            let z = drbg_stream(key1, v1, 32);
            let pk = indcpa_pk_spec(d, params.kyber_k as int, params.kyber_eta1 as nat);
            &&& r->Ok_0.0@.len() == params.kyber_publickeybytes
            &&& r->Ok_0.1@.len() == params.kyber_secretkeybytes
            &&& r->Ok_0.0@ == pk
            &&& r->Ok_0.1@ == indcpa_sk_spec(
                d,
                params.kyber_k as int,
                params.kyber_eta1 as nat,
            ) + pk + sha3_256_spec(pk) + z
            &&& final(rng).key@ == rng_key_after(key1, v1, 32)
            &&& final(rng).v@ == rng_v_after(key1, v1, 32)
            &&& final(rng).reseed_counter == old(rng).reseed_counter + 2
        }),
{
    let zt: Zetas = Zetas::new();
    let d: Vec<u8> = match rng.randombytes(32) {
        Ok(v) => v,
        Err(e) => { return Err(e) },
    };
    let z: Vec<u8> = match rng.randombytes(32) {
        Ok(v) => v,
        Err(e) => { return Err(e) },
    };
    let (pk, sk0) = indcpa_keypair(params, &d, &zt);
    let hpk: Vec<u8> = sha3_256(&pk);
    let mut sk: Vec<u8> = sk0;
    let mut pk_copy: Vec<u8> = subvec(&pk, 0, pk.len());
    proof {
        assert(pk_copy@ =~= pk@);
    }
    sk.append(&mut pk_copy);
    let mut hpk_copy: Vec<u8> = hpk;
    sk.append(&mut hpk_copy);
    let mut z_copy: Vec<u8> = z;
    sk.append(&mut z_copy);
    proof {
        let d0 = drbg_stream(old(rng).key@, old(rng).v@, 32);
        let pk0 = indcpa_pk_spec(d0, params.kyber_k as int, params.kyber_eta1 as nat);
        assert(sk@ =~= indcpa_sk_spec(d0, params.kyber_k as int, params.kyber_eta1 as nat)
            + pk0 + sha3_256_spec(pk0) + drbg_stream(
            rng_key_after(old(rng).key@, old(rng).v@, 32),
            rng_v_after(old(rng).key@, old(rng).v@, 32),
            32,
        ));
    }
    Ok((pk, sk))
}

/// Encapsulate against an encoded public key: draw and hash a fresh
/// message, derive the shared-key seed and encryption coins from it and
/// the public key's hash, encrypt, and bind the final key to the
/// ciphertext.  Rejects a public key of the wrong length before any
/// cryptographic work; otherwise fails exactly when the generator is
/// exhausted.
pub fn crypto_kem_enc(params: &KyberParams, pk: &Vec<u8>, rng: &mut KyberRng) -> (r: Result<
    (Vec<u8>, Vec<u8>),
    KemError,
>)
    requires
        params_wf(*params),
        old(rng).wf(),
        old(rng).seeded(),
    ensures
        final(rng).wf(),
        final(rng).seeded(),
        r is Ok <==> pk@.len() == params.kyber_publickeybytes && old(rng).reseed_counter
            <= RESEED_LIMIT,
        pk@.len() != params.kyber_publickeybytes ==> r == Result::<
            (Vec<u8>, Vec<u8>),
            KemError,
        >::Err(KemError::InvalidInputLength) && *final(rng) == *old(rng),
        pk@.len() == params.kyber_publickeybytes && old(rng).reseed_counter > RESEED_LIMIT ==> r
            == Result::<(Vec<u8>, Vec<u8>), KemError>::Err(KemError::DrbgExhausted),
        r is Ok ==> ({
            let m = sha3_256_spec(drbg_stream(old(rng).key@, old(rng).v@, 32));
            let g = sha3_512_spec(m + sha3_256_spec(pk@));
            let ct = indcpa_ct_spec(
                pk@,
                m,
                g.subrange(32, 64),
                params.kyber_k as int,
                params.kyber_eta1 as nat,
            );
            &&& r->Ok_0.0@.len() == params.kyber_ciphertextbytes
            &&& r->Ok_0.1@.len() == 32
            &&& r->Ok_0.0@ == ct
            &&& r->Ok_0.1@ == shake256_spec(g.subrange(0, 32) + sha3_256_spec(ct), 32)
            &&& final(rng).key@ == rng_key_after(old(rng).key@, old(rng).v@, 32)
            &&& final(rng).v@ == rng_v_after(old(rng).key@, old(rng).v@, 32)
            &&& final(rng).reseed_counter == old(rng).reseed_counter + 1
        }),
{
    if pk.len() != params.kyber_publickeybytes as usize {
        return Err(KemError::InvalidInputLength);
    }
    let zt: Zetas = Zetas::new();
    let m0: Vec<u8> = match rng.randombytes(32) {
        Ok(v) => v,
        Err(e) => { return Err(e) },
    };
    let m: Vec<u8> = sha3_256(&m0);
    let hpk: Vec<u8> = sha3_256(pk);
    let mut gin: Vec<u8> = subvec(&m, 0, 32);
    let mut hpk_copy: Vec<u8> = hpk;
    gin.append(&mut hpk_copy);
    proof {
        assert(gin@ =~= m@ + sha3_256_spec(pk@));
    }
    let g: Vec<u8> = sha3_512(&gin);
    let kbar: Vec<u8> = subvec(&g, 0, 32);
    let coins: Vec<u8> = subvec(&g, 32, 32);
    let ct: Vec<u8> = indcpa_enc(params, pk, &m, &coins, &zt);
    let hc: Vec<u8> = sha3_256(&ct);
    let mut kin: Vec<u8> = kbar;
    let mut hc_copy: Vec<u8> = hc;
    kin.append(&mut hc_copy);
    proof {
        assert(kin@ =~= sha3_512_spec(m@ + sha3_256_spec(pk@)).subrange(0, 32) + sha3_256_spec(
            ct@,
        ));
    }
    let ss: Vec<u8> = shake256(&kin, 32);
    Ok((ct, ss))
}

/// What decapsulation computes: decrypt, re-derive the shared-key seed and
/// coins, re-encrypt, and compare; on a match the key is derived from the
/// re-derived seed, otherwise from the stored rejection value z -- either
/// way bound to the ciphertext's hash.
pub open spec fn kem_dec_spec(k: int, eta1: nat, sk: Seq<u8>, ct: Seq<u8>) -> Seq<u8> {
    let sk0 = sk.subrange(0, 384 * k);
    let pk = sk.subrange(384 * k, 768 * k + 32);
    let h = sk.subrange(768 * k + 32, 768 * k + 64);
    let z = sk.subrange(768 * k + 64, 768 * k + 96);
    let m = indcpa_m_spec(sk0, ct, k);
    let g = sha3_512_spec(m + h);
    let kbar = g.subrange(0, 32);
    let coins = g.subrange(32, 64);
    let cmp = indcpa_ct_spec(pk, m, coins, k, eta1);
    let kin = if cmp == ct {
        kbar
    } else {
        z
    };
    shake256_spec(kin + sha3_256_spec(ct), 32)
}

/// Decapsulate a ciphertext with an encoded secret key: the computation
/// of `kem_dec_spec`, in constant-time style.  Only inputs of the wrong
/// length are rejected, before any cryptographic processing; every
/// correct-length input yields a key, a tampered ciphertext included.
pub fn crypto_kem_dec(params: &KyberParams, sk: &Vec<u8>, ct: &Vec<u8>) -> (r: Result<
    Vec<u8>,
    KemError,
>)
    requires
        params_wf(*params),
    ensures
        r is Ok <==> sk@.len() == params.kyber_secretkeybytes && ct@.len()
            == params.kyber_ciphertextbytes,
        r is Err ==> r == Result::<Vec<u8>, KemError>::Err(KemError::InvalidInputLength),
        r is Ok ==> r->Ok_0@.len() == 32 && r->Ok_0@ == kem_dec_spec(
            params.kyber_k as int,
            params.kyber_eta1 as nat,
            sk@,
            ct@,
        ),
{
    if sk.len() != params.kyber_secretkeybytes as usize {
        return Err(KemError::InvalidInputLength);
    }
    if ct.len() != params.kyber_ciphertextbytes as usize {
        return Err(KemError::InvalidInputLength);
    }
    let zt: Zetas = Zetas::new();
    let k: usize = params.kyber_k as usize;
    let sk0: Vec<u8> = subvec(sk, 0, 384 * k);
    let pk: Vec<u8> = subvec(sk, 384 * k, 384 * k + 32);
    let h: Vec<u8> = subvec(sk, 768 * k + 32, 32);
    let z: Vec<u8> = subvec(sk, 768 * k + 64, 32);
    let m: Vec<u8> = indcpa_dec(params, &sk0, ct, &zt);
    let mut gin: Vec<u8> = subvec(&m, 0, 32);
    let mut h_copy: Vec<u8> = subvec(&h, 0, 32);
    gin.append(&mut h_copy);
    proof {
        assert(gin@ =~= m@ + h@);
    }
    let g: Vec<u8> = sha3_512(&gin);
    let kbar: Vec<u8> = subvec(&g, 0, 32);
    let coins: Vec<u8> = subvec(&g, 32, 32);
    let cmp: Vec<u8> = indcpa_enc(params, &pk, &m, &coins, &zt);
    let matches_ct: bool = verify_eq(ct, &cmp);
    let mut kin: Vec<u8> = kbar;
    let fail: u8 = if matches_ct {
        0
    } else {
        1
    };
    cmov(&mut kin, &z, fail);
    let hc: Vec<u8> = sha3_256(ct);
    let mut hc_copy: Vec<u8> = hc;
    kin.append(&mut hc_copy);
    let ss: Vec<u8> = shake256(&kin, 32);
    proof {
        let ki = params.kyber_k as int;
        let e1n = params.kyber_eta1 as nat;
        let gs = sha3_512_spec(m@ + sk@.subrange(768 * ki + 32, 768 * ki + 64));
        assert(m@ == indcpa_m_spec(sk@.subrange(0, 384 * ki), ct@, ki)) by {
            assert(sk0@ == sk@.subrange(0, 384 * ki));
        }
        assert(pk@ == sk@.subrange(384 * ki, 768 * ki + 32));
        assert(kin@ =~= (if indcpa_ct_spec(pk@, m@, gs.subrange(32, 64), ki, e1n) == ct@ {
            gs.subrange(0, 32)
        } else {
            sk@.subrange(768 * ki + 64, 768 * ki + 96)
        }) + sha3_256_spec(ct@));
    }
    Ok(ss)
}

} // verus!
