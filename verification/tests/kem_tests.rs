//! End-to-end tests of the encapsulation mechanism: deterministic round
//! trips at every rank, the fixed scenario at rank 3, and implicit
//! rejection on tampered ciphertexts.

use kyber_kem::kem::{crypto_kem_dec, crypto_kem_enc, crypto_kem_keypair};
use kyber_kem::kyber_rng::KyberRng;
use kyber_kem::params::KyberParams;

fn hex_of(b: &[u8]) -> String {
    b.iter().map(|x| format!("{:02x}", x)).collect()
}

fn fixed_entropy() -> Vec<u8> {
    (0u8..48).collect()
}

fn seeded_rng() -> KyberRng {
    let mut rng = KyberRng::new();
    rng.randombytes_init(fixed_entropy(), None, 256).unwrap();
    rng
}

fn roundtrip_for_level(level: u32, expected_ss: &str, expected_tampered: &str) {
    let params = KyberParams::set_parameters(level).unwrap();
    let mut rng = seeded_rng();
    let (pk, sk) = crypto_kem_keypair(&params, &mut rng).unwrap();
    assert_eq!(pk.len(), params.kyber_publickeybytes as usize);
    assert_eq!(sk.len(), params.kyber_secretkeybytes as usize);
    let (ct, ss) = crypto_kem_enc(&params, &pk, &mut rng).unwrap();
    assert_eq!(ct.len(), params.kyber_ciphertextbytes as usize);
    assert_eq!(ss.len(), 32);
    let ss2 = crypto_kem_dec(&params, &sk, &ct).unwrap();
    assert_eq!(ss, ss2);
    assert_eq!(hex_of(&ss), expected_ss);

    // implicit rejection: one flipped bit yields a different key, the
    // same one on every call, and never an error
    let mut bad = ct.clone();
    bad[0] ^= 1;
    let r1 = crypto_kem_dec(&params, &sk, &bad).unwrap();
    let r2 = crypto_kem_dec(&params, &sk, &bad).unwrap();
    assert_eq!(r1, r2);
    assert_ne!(r1, ss);
    assert_eq!(hex_of(&r1), expected_tampered);
}

#[test]
fn roundtrip_rank2() {
    roundtrip_for_level(
        2,
        "ad311a23866363c2d397d4f01e17fe5b8e9cb3f43d149a7db1c0bf2141570f71",
        "26cff935eed51b3c0e425fb46cb6e9c65b3dbe42129fb799cd1c5a6ee215d967",
    );
}

#[test]
fn roundtrip_rank3() {
    roundtrip_for_level(
        3,
        "97a69fc1012a81cfec8d6737240ab32c4166ab3a405f0d7b40c7109b7980de5f",
        "0c0fcd99035a2a192d72031b61ef8c0eb96207715b41e8cbdeff3548510bbd62",
    );
}

#[test]
fn roundtrip_rank4() {
    roundtrip_for_level(
        4,
        "2ee9ccc0a10122260bfbea8da18e8463906a4a70d887526c4c00e2f9c5125c3c",
        "6c36f13975cc29d2ff033e769a2324ddb0d8c029ecefa0f3cc6126c852c53e83",
    );
}

#[test]
fn fixed_scenario_rank3() {
    // seed with a fixed 48-byte entropy value and no personalization,
    // generate a rank-3 keypair, encapsulate with the next draws, check
    // the fixed sizes, and decapsulate back to the same secret
    let params = KyberParams::set_parameters(3).unwrap();
    let mut rng = KyberRng::new();
    rng.randombytes_init((0u8..48).collect(), None, 256).unwrap();
    let (pk, sk) = crypto_kem_keypair(&params, &mut rng).unwrap();
    let (ct, ss) = crypto_kem_enc(&params, &pk, &mut rng).unwrap();
    assert_eq!(ct.len(), 1088);
    assert_eq!(ss.len(), 32);
    let ss2 = crypto_kem_dec(&params, &sk, &ct).unwrap();
    assert_eq!(ss, ss2);
}

#[test]
fn wrong_length_inputs_rejected() {
    let params = KyberParams::set_parameters(2).unwrap();
    let mut rng = seeded_rng();
    let short_pk = vec![0u8; 17];
    assert!(crypto_kem_enc(&params, &short_pk, &mut rng).is_err());
    let (pk, sk) = crypto_kem_keypair(&params, &mut rng).unwrap();
    let (ct, _ss) = crypto_kem_enc(&params, &pk, &mut rng).unwrap();
    let short_sk = vec![0u8; 100];
    assert!(crypto_kem_dec(&params, &short_sk, &ct).is_err());
    let short_ct = vec![0u8; 100];
    assert!(crypto_kem_dec(&params, &sk, &short_ct).is_err());
}

#[test]
fn distinct_seeds_give_distinct_keys() {
    let params = KyberParams::set_parameters(2).unwrap();
    let mut rng1 = seeded_rng();
    let mut rng2 = KyberRng::new();
    rng2.randombytes_init(vec![7u8; 48], None, 256).unwrap();
    let (pk1, _) = crypto_kem_keypair(&params, &mut rng1).unwrap();
    let (pk2, _) = crypto_kem_keypair(&params, &mut rng2).unwrap();
    assert_ne!(pk1, pk2);
}
