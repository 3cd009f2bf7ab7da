//! Cross-checks of the in-crate symmetric primitives against independent
//! implementations, and tests of the ring arithmetic: transform
//! involution, pointwise products against the schoolbook convolution,
//! reduction values, compression bounds and noise ranges.

use aes::cipher::{BlockEncrypt, KeyInit};
use sha3::digest::{ExtendableOutput, Update, XofReader};
use sha3::Digest;

use kyber_kem::aes256ctr::aes256_block;
use kyber_kem::cbd::cbd;
use kyber_kem::fips202::{sha3_256, sha3_512, shake128, shake256};
use kyber_kem::ntt::{basemul, invntt, ntt, Zetas};
use kyber_kem::poly::{compress_coeff, decompress_coeff, Domain, Poly};
use kyber_kem::reduce::{add_mod, barrett_reduce, csubq, montgomery_reduce, mul_mod, sub_mod};

fn sample_inputs() -> Vec<Vec<u8>> {
    vec![
        vec![],
        b"abc".to_vec(),
        (0u8..=199).collect(),
        vec![0x61; 1000],
    ]
}

#[test]
fn sha3_matches_reference_crate() {
    for input in sample_inputs() {
        let ours = sha3_256(&input);
        let theirs = sha3::Sha3_256::digest(&input);
        assert_eq!(ours.as_slice(), theirs.as_slice());
        let ours512 = sha3_512(&input);
        let theirs512 = sha3::Sha3_512::digest(&input);
        assert_eq!(ours512.as_slice(), theirs512.as_slice());
    }
}

#[test]
fn shake_matches_reference_crate() {
    for input in sample_inputs() {
        for outlen in [1usize, 32, 136, 137, 500] {
            let ours = shake128(&input, outlen);
            let mut h = sha3::Shake128::default();
            h.update(&input);
            let mut theirs = vec![0u8; outlen];
            h.finalize_xof().read(&mut theirs);
            assert_eq!(ours, theirs);

            let ours256 = shake256(&input, outlen);
            let mut h2 = sha3::Shake256::default();
            h2.update(&input);
            let mut theirs2 = vec![0u8; outlen];
            h2.finalize_xof().read(&mut theirs2);
            assert_eq!(ours256, theirs2);
        }
    }
}

#[test]
fn aes256_matches_reference_crate_and_standard_vector() {
    // the standard's appendix C.3 example
    let key: Vec<u8> = (0u8..32).collect();
    let block: Vec<u8> = vec![
        0x00, 0x11, 0x22, 0x33, 0x44, 0x55, 0x66, 0x77, 0x88, 0x99, 0xaa, 0xbb, 0xcc, 0xdd,
        0xee, 0xff,
    ];
    let out = aes256_block(&key, &block);
    let expected = [
        0x8e, 0xa2, 0xb7, 0xca, 0x51, 0x67, 0x45, 0xbf, 0xea, 0xfc, 0x49, 0x90, 0x4b, 0x49,
        0x60, 0x89,
    ];
    assert_eq!(out.as_slice(), &expected);

    // random-ish cross-check against the reference crate
    for seed in 0u8..8 {
        let key: Vec<u8> = (0..32).map(|i| (i as u8).wrapping_mul(37).wrapping_add(seed)).collect();
        let block: Vec<u8> = (0..16).map(|i| (i as u8).wrapping_mul(11).wrapping_add(seed)).collect();
        let ours = aes256_block(&key, &block);
        let cipher = aes::Aes256::new_from_slice(&key).unwrap();
        let mut b = aes::Block::clone_from_slice(&block);
        cipher.encrypt_block(&mut b);
        assert_eq!(ours.as_slice(), b.as_slice());
    }
}

fn poly_from(vals: impl Fn(usize) -> u16, domain: Domain) -> Poly {
    let coeffs: Vec<u16> = (0..256).map(|i| vals(i) % 3329).collect();
    Poly { coeffs, domain }
}

#[test]
fn ntt_involution() {
    let zt = Zetas::new();
    for s in 0u32..4 {
        let p = poly_from(|i| ((i as u32 * 31 + s * 1543 + 7) % 3329) as u16, Domain::Normal);
        let q = invntt(&ntt(&p, &zt), &zt);
        assert_eq!(p.coeffs, q.coeffs);
    }
}

#[test]
fn basemul_matches_schoolbook_convolution() {
    let zt = Zetas::new();
    let a = poly_from(|i| ((i * 17 + 5) % 3329) as u16, Domain::Normal);
    let b = poly_from(|i| ((i * i + 3 * i + 11) % 3329) as u16, Domain::Normal);
    let prod = invntt(&basemul(&ntt(&a, &zt), &ntt(&b, &zt), &zt), &zt);
    // negacyclic schoolbook product
    let mut want = vec![0i64; 256];
    for i in 0..256 {
        for j in 0..256 {
            let v = a.coeffs[i] as i64 * b.coeffs[j] as i64;
            let k = i + j;
            if k >= 256 {
                want[k - 256] = (want[k - 256] - v).rem_euclid(3329);
            } else {
                want[k] = (want[k] + v).rem_euclid(3329);
            }
        }
    }
    for i in 0..256 {
        assert_eq!(prod.coeffs[i] as i64, want[i]);
    }
}

#[test]
fn reduction_values() {
    assert_eq!(montgomery_reduce(0), 0);
    // 65536 * r == a mod q for a few values
    for a in [1i32, 17, 3328, -3328, 100000, -100000, 3329 * 32767] {
        let r = montgomery_reduce(a) as i64;
        assert_eq!(((r * 65536 - a as i64) % 3329 + 3329) % 3329, 0);
        assert!(-3329 < r && r < 3329);
    }
    for a in [-32768i16, -1, 0, 1, 3328, 3329, 6657, 32767] {
        let r = barrett_reduce(a) as i64;
        assert_eq!(((r - a as i64) % 3329 + 3329) % 3329, 0);
        assert!((0..=3329).contains(&r));
    }
    assert_eq!(csubq(0), 0);
    assert_eq!(csubq(3328), 3328);
    assert_eq!(csubq(3329), 0);
    assert_eq!(csubq(6657), 3328);
    assert_eq!(mul_mod(1234, 2345), ((1234u32 * 2345) % 3329) as u16);
    assert_eq!(mul_mod(3328, 3328), ((3328u32 * 3328) % 3329) as u16);
    assert_eq!(add_mod(3328, 3328), 3327);
    assert_eq!(sub_mod(0, 1), 3328);
}

#[test]
fn compression_bound_spot_checks() {
    // |decompress(compress(x, d), d) - x| mod q stays within the bound
    for (d, bound) in [(1u32, 832i64), (4, 104), (5, 52), (10, 2), (11, 1)] {
        for x in (0u16..3329).step_by(7) {
            let y = compress_coeff(x, d);
            let z = decompress_coeff(y, d) as i64;
            let e = (z - x as i64).rem_euclid(3329);
            let centered = if e > 1664 { e - 3329 } else { e };
            assert!(
                centered.abs() <= bound,
                "d={} x={} z={} centered={}",
                d,
                x,
                z,
                centered
            );
        }
    }
}

#[test]
fn cbd_range_and_determinism() {
    for eta in [2usize, 3] {
        let buf: Vec<u8> = (0..64 * eta).map(|i| (i as u8).wrapping_mul(97)).collect();
        let p = cbd(&buf, eta);
        let q = cbd(&buf, eta);
        assert_eq!(p.coeffs, q.coeffs);
        for &c in &p.coeffs {
            // canonical residue of a value in [-eta, eta]
            assert!(c <= eta as u16 || c >= 3329 - eta as u16, "coefficient {}", c);
        }
    }
}
