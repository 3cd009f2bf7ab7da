//! Tests of the byte encodings and the small utilities: serialization
//! round trips at every width, the hex codec against the reference crate,
//! input validation helpers, parameter tables, and key utilities.

use kyber_kem::codec::{msg_to_poly, pack_bits, poly_frombytes, poly_to_msg, poly_tobytes,
    unpack_bits};
use kyber_kem::enums::{Kyber_Category, RustTypeSelect, kyber_category_level};
use kyber_kem::errors::KemError;
use kyber_kem::helping_functions::{is_all_zero, is_valid_hex, level_for_secret_key_len, seed_rng};
use kyber_kem::hexcodec::{hex_decode_bytes, hex_encode, hex_encode_bytes};
use kyber_kem::key_generation::{generate_iv, generate_key, generate_one_osrng,
    generate_two_pbkdf2, xor_combine};
use kyber_kem::kyber_rng::KyberRng;
use kyber_kem::params::{Kyber, KyberParams};
use kyber_kem::poly::{Domain, Poly};
use kyber_kem::random_number_generation::get_bounds_for_type;

#[test]
fn poly_bytes_roundtrip() {
    let coeffs: Vec<u16> = (0..256).map(|i| ((i * 13 + 1) % 3329) as u16).collect();
    let p = Poly { coeffs: coeffs.clone(), domain: Domain::Ntt };
    let bytes = poly_tobytes(&p);
    assert_eq!(bytes.len(), 384);
    let q = poly_frombytes(&bytes, Domain::Ntt);
    assert_eq!(q.coeffs, coeffs);
}

#[test]
fn packed_bits_roundtrip_every_width() {
    for d in [4u32, 5, 10, 11] {
        let mask = (1u16 << d) - 1;
        let vals: Vec<u16> = (0..256).map(|i| ((i * 2654435761u64 as usize + 9) as u16) & mask).collect();
        let packed = pack_bits(&vals, d);
        assert_eq!(packed.len(), 32 * d as usize);
        let unpacked = unpack_bits(&packed, d);
        assert_eq!(unpacked, vals);
    }
}

#[test]
fn message_encoding_roundtrip() {
    let m: Vec<u8> = (0u8..32).map(|i| i.wrapping_mul(83).wrapping_add(29)).collect();
    let p = msg_to_poly(&m);
    for (i, &c) in p.coeffs.iter().enumerate() {
        let bit = (m[i / 8] >> (i % 8)) & 1;
        assert_eq!(c, bit as u16 * 1665);
    }
    let back = poly_to_msg(&p);
    assert_eq!(back, m);
}

#[test]
fn hex_codec_matches_reference_crate() {
    let data: Vec<u8> = (0u8..=255).collect();
    let ours = hex_encode(&data);
    assert_eq!(ours, hex::encode(&data));
    let enc = hex_encode_bytes(&data);
    let dec = hex_decode_bytes(&enc).unwrap();
    assert_eq!(dec, data);
    // uppercase digits decode too
    let upper: Vec<u8> = b"DEADBEEF".to_vec();
    assert_eq!(hex_decode_bytes(&upper).unwrap(), hex::decode("DEADBEEF").unwrap());
    // odd length and stray characters are rejected
    assert_eq!(hex_decode_bytes(&b"abc".to_vec()), Err(KemError::InvalidInputLength));
    assert_eq!(hex_decode_bytes(&b"zz".to_vec()), Err(KemError::InvalidInputLength));
}

#[test]
fn hex_validation() {
    assert!(is_valid_hex("deadBEEF01"));
    assert!(is_valid_hex("deadbeef\r\n"));
    assert!(!is_valid_hex("dead beef"));
    assert!(!is_valid_hex("xyz"));
    assert!(!is_valid_hex(""));
    // newlines alone strip to empty content, which passes the digit rule
    assert!(is_valid_hex("\n"));
}

#[test]
fn zero_and_length_helpers() {
    assert!(is_all_zero(&vec![0u8; 10]));
    assert!(is_all_zero(&vec![]));
    assert!(!is_all_zero(&vec![0, 0, 1]));
    assert_eq!(level_for_secret_key_len(1632), Some(2));
    assert_eq!(level_for_secret_key_len(2400), Some(3));
    assert_eq!(level_for_secret_key_len(3168), Some(4));
    assert_eq!(level_for_secret_key_len(1000), None);
}

#[test]
fn parameter_tables() {
    assert!(KyberParams::set_parameters(0).is_none());
    assert!(KyberParams::set_parameters(1).is_none());
    assert!(KyberParams::set_parameters(5).is_none());
    let p2 = KyberParams::set_parameters(2).unwrap();
    assert_eq!(
        (p2.kyber_k, p2.kyber_eta1, p2.kyber_publickeybytes, p2.kyber_secretkeybytes,
            p2.kyber_ciphertextbytes),
        (2, 3, 800, 1632, 768)
    );
    let p3 = KyberParams::set_parameters(3).unwrap();
    assert_eq!(
        (p3.kyber_k, p3.kyber_eta1, p3.kyber_publickeybytes, p3.kyber_secretkeybytes,
            p3.kyber_ciphertextbytes),
        (3, 2, 1184, 2400, 1088)
    );
    let p4 = KyberParams::set_parameters(4).unwrap();
    assert_eq!(
        (p4.kyber_k, p4.kyber_eta1, p4.kyber_publickeybytes, p4.kyber_secretkeybytes,
            p4.kyber_ciphertextbytes),
        (4, 2, 1568, 3168, 1568)
    );
    assert_eq!(p2.kyber_namespace, "pqcrystals_kyber512_ref");
    assert_eq!(p2.kyber_n, 256);
    assert_eq!(p2.kyber_q, 3329);

    let inst = Kyber::create(3);
    assert_eq!(inst.params.kyber_k, 3);

    assert_eq!(kyber_category_level(Kyber_Category::Kyber512), 2);
    assert_eq!(kyber_category_level(Kyber_Category::Kyber768), 3);
    assert_eq!(kyber_category_level(Kyber_Category::Kyber1024), 4);
    assert_eq!(kyber_category_level(Kyber_Category::Exit), 0);
}

#[test]
fn bounds_for_types() {
    assert_eq!(get_bounds_for_type(&RustTypeSelect::U8), Some((0, 255)));
    assert_eq!(get_bounds_for_type(&RustTypeSelect::I8), Some((-128, 127)));
    assert_eq!(get_bounds_for_type(&RustTypeSelect::U64), Some((0, u64::MAX as i128)));
    assert_eq!(get_bounds_for_type(&RustTypeSelect::U128), Some((0, 0)));
    assert_eq!(get_bounds_for_type(&RustTypeSelect::I128), Some((i128::MIN, i128::MAX)));
    assert_eq!(get_bounds_for_type(&RustTypeSelect::F32), None);
}

#[test]
fn key_utilities() {
    let a = generate_one_osrng(40).unwrap();
    assert_eq!(a.len(), 40);
    let b = generate_two_pbkdf2(40).unwrap();
    assert_eq!(b.len(), 40);
    assert_ne!(a, b);
    let iv = generate_iv(16).unwrap();
    assert_eq!(iv.len(), 32);
    assert!(is_valid_hex(&iv));
    let k = generate_key(24).unwrap();
    assert_eq!(k.len(), 48);
    let k0 = generate_key(0).unwrap();
    assert_eq!(k0.len(), 64);
    let x = xor_combine(&vec![1, 2, 3], &vec![4, 5, 6], &vec![7, 8, 9]);
    assert_eq!(x, vec![1 ^ 4 ^ 7, 2 ^ 5 ^ 8, 3 ^ 6 ^ 9]);
}

#[test]
fn seeding_from_machine_entropy() {
    let mut rng = KyberRng::new();
    seed_rng(&mut rng, None).unwrap();
    assert_eq!(rng.reseed_counter, 1);
    let out = rng.randombytes(32).unwrap();
    assert_eq!(out.len(), 32);
    let mut rng2 = KyberRng::new();
    seed_rng(&mut rng2, Some(b"context".to_vec())).unwrap();
    assert!(rng2.randombytes(32).is_ok());
}

#[test]
fn error_messages_are_nonempty() {
    assert!(!KemError::InvalidSecurityLevel.message().is_empty());
    assert!(!KemError::InvalidInputLength.message().is_empty());
    assert!(!KemError::DrbgExhausted.message().is_empty());
    assert!(!KemError::RandomnessUnavailable.message().is_empty());
}
