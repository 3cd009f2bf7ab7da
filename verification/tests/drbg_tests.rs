//! Tests of the deterministic bit generator: byte-identical streams from
//! identical inputs, the effect of personalization, reseeding, and the
//! rejection of malformed seeding inputs.

use kyber_kem::errors::KemError;
use kyber_kem::kyber_rng::KyberRng;

fn hex_of(b: &[u8]) -> String {
    b.iter().map(|x| format!("{:02x}", x)).collect()
}

#[test]
fn identical_inputs_identical_streams() {
    let mut a = KyberRng::new();
    let mut b = KyberRng::new();
    a.randombytes_init((0u8..48).collect(), None, 256).unwrap();
    b.randombytes_init((0u8..48).collect(), None, 256).unwrap();
    for _ in 0..10 {
        assert_eq!(a.randombytes(33).unwrap(), b.randombytes(33).unwrap());
    }
}

#[test]
fn known_stream_values() {
    let mut a = KyberRng::new();
    a.randombytes_init((0u8..48).collect(), None, 256).unwrap();
    let s1 = a.randombytes(16).unwrap();
    let s2 = a.randombytes(16).unwrap();
    assert_eq!(hex_of(&s1), "061550234d158c5ec95595fe04ef7a25");
    assert_eq!(hex_of(&s2), "7bada89bf0e1852e7998951ea7268f7f");
}

#[test]
fn personalization_changes_the_stream() {
    let mut a = KyberRng::new();
    let mut b = KyberRng::new();
    a.randombytes_init((0u8..48).collect(), None, 256).unwrap();
    b.randombytes_init((0u8..48).collect(), Some(vec![0xaa; 48]), 256).unwrap();
    let sa = a.randombytes(16).unwrap();
    let sb = b.randombytes(16).unwrap();
    assert_ne!(sa, sb);
    assert_eq!(hex_of(&sb), "6ea3686776336c1c1bb0fc1dcb026118");
}

#[test]
fn reseed_resets_and_rediverts() {
    let mut a = KyberRng::new();
    a.randombytes_init((0u8..48).collect(), None, 256).unwrap();
    let _ = a.randombytes(16).unwrap();
    assert_eq!(a.reseed_counter, 2);
    a.reseed(vec![9u8; 48]).unwrap();
    assert_eq!(a.reseed_counter, 1);
    assert_eq!(a.reseed(vec![1u8; 4]), Err(KemError::InvalidInputLength));
}

#[test]
fn bad_seeding_inputs_rejected() {
    let mut a = KyberRng::new();
    assert_eq!(
        a.randombytes_init(vec![1u8; 47], None, 256),
        Err(KemError::InvalidInputLength)
    );
    assert_eq!(
        a.randombytes_init(vec![1u8; 48], None, 128),
        Err(KemError::InvalidSecurityLevel)
    );
    assert!(a.randombytes_init(vec![1u8; 48], None, 256).is_ok());
}

#[test]
fn generate_lengths() {
    let mut a = KyberRng::new();
    a.randombytes_init((0u8..48).collect(), None, 256).unwrap();
    for n in [0usize, 1, 15, 16, 17, 31, 32, 48, 100] {
        assert_eq!(a.randombytes(n).unwrap().len(), n);
    }
}
