//! Standalone secure-key utilities: raw keys from the operating system
//! source, keys from a seeded stream cipher, and a combined key that XORs
//! independent draws together.

use vstd::prelude::*;
use crate::errors::KemError;
use crate::hexcodec;
use crate::hexcodec::is_hex_digit_byte;
use crate::randomness::{chacha20_bytes, os_random_bytes};
use sha2::Digest;

verus! {

/// The 32-byte digest of the hash the seed stretcher uses: a function of
/// the input bytes alone.
pub uninterp spec fn sha256_of(data: Seq<u8>) -> Seq<u8>;

/// Relies on sha2's Sha256::digest: a 32-byte digest determined by the
/// input alone.
#[verifier::external_body]
fn sha256_digest(data: &Vec<u8>) -> (r: Vec<u8>)
    ensures
        r@.len() == 32,
        r@ == sha256_of(data@),
{
    sha2::Sha256::digest(data.as_slice()).to_vec()
}

/// Stretch arbitrary seed material to a fixed 32 bytes through the hash.
fn stretch_seed(seed: &Vec<u8>) -> (r: Vec<u8>)
    ensures
        r@.len() == 32,
        r@ == sha256_of(seed@),
{
    sha256_digest(seed)
}

/// A key of `size` bytes drawn from the operating system's generator.
pub fn generate_one_osrng(size: usize) -> (r: Result<Vec<u8>, KemError>)
    ensures
        r is Ok ==> r->Ok_0@.len() == size,
        r is Err ==> r == Result::<Vec<u8>, KemError>::Err(KemError::RandomnessUnavailable),
{
    os_random_bytes(size)
}

/// A key of `size` bytes from the stream cipher, freshly seeded from the
/// operating system.
pub fn generate_two_pbkdf2(size: usize) -> (r: Result<Vec<u8>, KemError>)
    ensures
        r is Ok ==> r->Ok_0@.len() == size,
        r is Err ==> r == Result::<Vec<u8>, KemError>::Err(KemError::RandomnessUnavailable),
{
    let seed: Vec<u8> = match os_random_bytes(32) {
        Ok(v) => v,
        Err(e) => { return Err(e) },
    };
    Ok(chacha20_bytes(&seed, size))
}

/// An initialization vector of `size` bytes, rendered in hexadecimal;
/// every character of the result is a hexadecimal digit, so the textual
/// validator accepts it.
pub fn generate_iv(size: u8) -> (r: Result<String, KemError>)
    ensures
        r is Ok ==> r->Ok_0@.len() == 2 * (size as int),
        r is Ok ==> forall|i: int|
            0 <= i < 2 * (size as int) ==> is_hex_digit_byte(#[trigger] r->Ok_0@[i] as u8),
        r is Err ==> r == Result::<String, KemError>::Err(KemError::RandomnessUnavailable),
{
    let iv: Vec<u8> = match generate_one_osrng(size as usize) {
        Ok(v) => v,
        Err(e) => { return Err(e) },
    };
    Ok(hexcodec::hex_encode(&iv))
}

/// Stretch a short seed to `size` bytes by chaining the hash: each block
/// is the digest of the previous one.
fn expand_with_hash(seed: &Vec<u8>, size: usize) -> (r: Vec<u8>)
    ensures
        r@.len() == size,
{
    let mut block: Vec<u8> = stretch_seed(seed);
    let mut out: Vec<u8> = Vec::new();
    while out.len() < size
        invariant
            block@.len() == 32,
            out@.len() <= size,
        decreases size - out.len(),
    {
        let mut i: usize = 0;
        let ghost entry = out@.len();
        while i < 32 && out.len() < size
            invariant
                block@.len() == 32,
                i <= 32,
                out@.len() == entry + i || out@.len() == size,
                out@.len() <= size,
            decreases 32 - i,
        {
            out.push(block[i]);
            i += 1;
        }
        block = stretch_seed(&block);
    }
    proof {
        assert(out@.len() == size);
    }
    out
}

/// The byte-wise XOR of three equal-length parts.
pub fn xor_combine(a: &Vec<u8>, b: &Vec<u8>, c: &Vec<u8>) -> (r: Vec<u8>)
    requires
        a@.len() == b@.len(),
        b@.len() == c@.len(),
    ensures
        r@.len() == a@.len(),
        forall|i: int| 0 <= i < a@.len() ==> r@[i] == (a@[i] ^ b@[i]) ^ c@[i],
{
    let n: usize = a.len();
    let mut out: Vec<u8> = Vec::new();
    let mut i: usize = 0;
    while i < n
        invariant
            n == a@.len(),
            a@.len() == b@.len(),
            b@.len() == c@.len(),
            i <= n,
            out@.len() == i,
            forall|j: int| 0 <= j < i ==> out@[j] == (a@[j] ^ b@[j]) ^ c@[j],
        decreases n - i,
    {
        out.push((a[i] ^ b[i]) ^ c[i]);
        i += 1;
    }
    out
}

/// A combined key: the XOR of three independent parts -- one drawn from
/// the operating system, one from the seeded stream cipher, and one
/// hash-stretched from a short fresh draw -- rendered in hexadecimal;
/// every character of the result is a hexadecimal digit, so the textual
/// validator accepts it.  A requested size of zero falls back to 32 bytes.
pub fn generate_key(keysize: usize) -> (r: Result<String, KemError>)
    ensures
        r is Ok ==> r->Ok_0@.len() == 2 * (if keysize == 0 {
            32int
        } else {
            keysize as int
        }),
        r is Ok ==> forall|i: int|
            0 <= i < r->Ok_0@.len() ==> is_hex_digit_byte(#[trigger] r->Ok_0@[i] as u8),
        r is Err ==> r == Result::<String, KemError>::Err(KemError::RandomnessUnavailable),
{
    let size: usize = if keysize == 0 {
        32
    } else {
        keysize
    };
    let part_one: Vec<u8> = match generate_one_osrng(size) {
        Ok(v) => v,
        Err(e) => { return Err(e) },
    };
    let part_two: Vec<u8> = match generate_two_pbkdf2(size) {
        Ok(v) => v,
        Err(e) => { return Err(e) },
    };
    let fresh: Vec<u8> = match generate_one_osrng(16) {
        Ok(v) => v,
        Err(e) => { return Err(e) },
    };
    let part_three: Vec<u8> = expand_with_hash(&fresh, size);
    let key: Vec<u8> = xor_combine(&part_one, &part_two, &part_three);
    Ok(hexcodec::hex_encode(&key))
}

} // verus!
