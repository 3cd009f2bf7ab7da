//! Per-security-level parameter sets: the ring constants shared by every
//! level and the byte sizes that vary with the rank.

use vstd::prelude::*;

verus! {

/// The ring degree n.
pub const KYBER_N: u32 = 256;
/// The modulus q.
pub const KYBER_Q: u32 = 3329;
/// Width of seeds, hashes and shared secrets.
pub const KYBER_SYMBYTES: u32 = 32;
/// Bytes of one uncompressed polynomial (256 coefficients of 12 bits).
pub const KYBER_POLYBYTES: u32 = 384;

/// The full constant bundle for one security level.
#[derive(Debug, Clone)]
pub struct KyberParams {
    pub kyber_k: u32,
    pub kyber_namespace: String,
    pub kyber_n: u32,
    pub kyber_q: u32,
    pub kyber_symbytes: u32,
    pub kyber_ssbytes: u32,
    pub kyber_polybytes: u32,
    pub kyber_polycompressedbytes: u32,
    pub kyber_polyvecbytes: u32,
    pub kyber_eta1: u32,
    pub kyber_polyveccompressedbytes: u32,
    pub kyber_eta2: u32,
    pub kyber_indcpa_msgbytes: u32,
    pub kyber_indcpa_publickeybytes: u32,
    pub kyber_indcpa_secretkeybytes: u32,
    pub kyber_indcpa_bytes: u32,
    pub kyber_publickeybytes: u32,
    pub kyber_secretkeybytes: u32,
    pub kyber_ciphertextbytes: u32,
}

/// Rank of a security level: 2, 3 and 4 are the valid levels.
pub open spec fn valid_level(level: u32) -> bool {
    level == 2 || level == 3 || level == 4
}

/// Noise width eta1 for a level.
pub open spec fn spec_eta1(level: u32) -> u32 {
    if level == 2 { 3 } else { 2 }
}

/// Compressed-polynomial bytes (the `v` part of a ciphertext) for a level.
pub open spec fn spec_polycompressedbytes(level: u32) -> u32 {
    if level == 4 { 160 } else { 128 }
}

/// Compressed-vector bytes (the `u` part of a ciphertext) for a level.
pub open spec fn spec_polyveccompressedbytes(level: u32) -> u32 {
    if level == 2 { 640 } else if level == 3 { 960 } else { 1408 }
}

/// The reference-implementation namespace string for a level.
pub open spec fn spec_namespace(level: u32) -> Seq<char> {
    if level == 2 {
        "pqcrystals_kyber512_ref"@
    } else if level == 3 {
        "pqcrystals_kyber768_ref"@
    } else {
        "pqcrystals_kyber1024_ref"@
    }
}

/// What a well-formed parameter bundle for `level` holds: every field is the
/// constant that the scheme fixes for that rank.
pub open spec fn params_wf_at(p: KyberParams, level: u32) -> bool {
    &&& valid_level(level)
    &&& p.kyber_k == level
    &&& p.kyber_namespace@ == spec_namespace(level)
    &&& p.kyber_n == 256
    &&& p.kyber_q == 3329
    &&& p.kyber_symbytes == 32
    &&& p.kyber_ssbytes == 32
    &&& p.kyber_polybytes == 384
    &&& p.kyber_polycompressedbytes == spec_polycompressedbytes(level)
    &&& p.kyber_polyvecbytes == 384 * level
    &&& p.kyber_eta1 == spec_eta1(level)
    &&& p.kyber_polyveccompressedbytes == spec_polyveccompressedbytes(level)
    &&& p.kyber_eta2 == 2
    &&& p.kyber_indcpa_msgbytes == 32
    &&& p.kyber_indcpa_publickeybytes == 384 * level + 32
    &&& p.kyber_indcpa_secretkeybytes == 384 * level
    &&& p.kyber_indcpa_bytes == spec_polyveccompressedbytes(level) + spec_polycompressedbytes(
        level,
    )
    &&& p.kyber_publickeybytes == 384 * level + 32
    &&& p.kyber_secretkeybytes == 384 * level + (384 * level + 32) + 64
    &&& p.kyber_ciphertextbytes == spec_polyveccompressedbytes(level) + spec_polycompressedbytes(
        level,
    )
}

/// A parameter bundle that belongs to some valid level.
pub open spec fn params_wf(p: KyberParams) -> bool {
    params_wf_at(p, p.kyber_k)
}

impl KyberParams {
    /// Pure lookup of the constant bundle for a security level; every other
    /// level is rejected.
    pub fn set_parameters(security_level: u32) -> (r: Option<KyberParams>)
        ensures
            r is Some <==> valid_level(security_level),
            r is Some ==> params_wf_at(r->Some_0, security_level),
    {
        match security_level {
            2u32 => Some(
                KyberParams {
                    kyber_k: 2,
                    kyber_namespace: "pqcrystals_kyber512_ref".to_owned(),
                    kyber_n: 256,
                    kyber_q: 3329,
                    kyber_symbytes: 32,
                    kyber_ssbytes: 32,
                    kyber_polybytes: 384,
                    kyber_polycompressedbytes: 128,
                    kyber_eta1: 3,
                    kyber_polyveccompressedbytes: 640,
                    kyber_polyvecbytes: 768,
                    kyber_eta2: 2,
                    kyber_indcpa_msgbytes: 32,
                    kyber_indcpa_publickeybytes: 800,
                    kyber_indcpa_secretkeybytes: 768,
                    kyber_indcpa_bytes: 768,
                    kyber_publickeybytes: 800,
                    kyber_secretkeybytes: 1632,
                    kyber_ciphertextbytes: 768,
                },
            ),
            3u32 => Some(
                KyberParams {
                    kyber_k: 3,
                    kyber_namespace: "pqcrystals_kyber768_ref".to_owned(),
                    kyber_n: 256,
                    kyber_q: 3329,
                    kyber_symbytes: 32,
                    kyber_ssbytes: 32,
                    kyber_polybytes: 384,
                    kyber_polycompressedbytes: 128,
                    kyber_eta1: 2,
                    kyber_polyveccompressedbytes: 960,
                    kyber_polyvecbytes: 1152,
                    kyber_eta2: 2,
                    kyber_indcpa_msgbytes: 32,
                    kyber_indcpa_publickeybytes: 1184,
                    kyber_indcpa_secretkeybytes: 1152,
                    kyber_indcpa_bytes: 1088,
                    kyber_publickeybytes: 1184,
                    kyber_secretkeybytes: 2400,
                    kyber_ciphertextbytes: 1088,
                },
            ),
            4u32 => Some(
                KyberParams {
                    kyber_k: 4,
                    kyber_namespace: "pqcrystals_kyber1024_ref".to_owned(),
                    kyber_n: 256,
                    kyber_q: 3329,
                    kyber_symbytes: 32,
                    kyber_ssbytes: 32,
                    kyber_polybytes: 384,
                    kyber_polycompressedbytes: 160,
                    kyber_eta1: 2,
                    kyber_polyveccompressedbytes: 1408,
                    kyber_polyvecbytes: 1536,
                    kyber_eta2: 2,
                    kyber_indcpa_msgbytes: 32,
                    kyber_indcpa_publickeybytes: 1568,
                    kyber_indcpa_secretkeybytes: 1536,
                    kyber_indcpa_bytes: 1568,
                    kyber_publickeybytes: 1568,
                    kyber_secretkeybytes: 3168,
                    kyber_ciphertextbytes: 1568,
                },
            ),
            _ => None,
        }
    }
}

/// A configured engine instance: the chosen parameter set and the key
/// material the surrounding program may attach to it.
#[derive(Debug, Clone)]
pub struct Kyber {
    pub params: KyberParams,
    pub has_key_been_generated: bool,
    pub public_key: Vec<u8>,
    pub private_key: Vec<u8>,
    pub private_key_password: String,
}

impl Kyber {
    /// Configure an instance for a valid security level; key material
    /// starts empty.
    pub fn create(security_level: u32) -> (r: Kyber)
        requires
            valid_level(security_level),
        ensures
            params_wf_at(r.params, security_level),
            params_wf(r.params),
            !r.has_key_been_generated,
            r.public_key@.len() == 0,
            r.private_key@.len() == 0,
            r.private_key_password@.len() == 0,
    {
        let params = KyberParams::set_parameters(security_level).unwrap();
        Kyber {
            params,
            has_key_been_generated: false,
            public_key: Vec::new(),
            private_key: Vec::new(),
            private_key_password: String::new(),
        }
    }
}

} // verus!
