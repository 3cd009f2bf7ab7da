//! Small helpers around the engine: seeding the shared generator from
//! fresh machine entropy, and the pure input checks that the surrounding
//! program performs before handing values to the core.

use vstd::prelude::*;
use crate::errors::KemError;
use crate::hexcodec::is_hex_digit_byte;
use crate::kyber_rng::KyberRng;
use crate::randomness::{chacha20_bytes, os_random_bytes};
use vstd::string::StringSliceAdditionalSpecFns;

verus! {

/// Seed the generator from 48 bytes of fresh entropy (a stream-cipher
/// expansion of an operating-system draw), folding in an optional
/// personalization string, at strength 256.  Fails only when the
/// operating system's source does.
pub fn seed_rng(rng: &mut KyberRng, personalisation_string: Option<Vec<u8>>) -> (r: Result<
    (),
    KemError,
>)
    requires
        old(rng).wf(),
    ensures
        final(rng).wf(),
        r is Ok ==> final(rng).seeded() && final(rng).reseed_counter == 1,
        r is Err ==> r == Result::<(), KemError>::Err(KemError::RandomnessUnavailable)
            && *final(rng) == *old(rng),
{
    let seed: Vec<u8> = match os_random_bytes(32) {
        Ok(v) => v,
        Err(e) => { return Err(e) },
    };
    let entropy: Vec<u8> = chacha20_bytes(&seed, 48);
    let init: Result<(), KemError> = rng.randombytes_init(entropy, personalisation_string, 256);
    proof {
        assert(init is Ok);
    }
    Ok(())
}

/// The byte string with any trailing newline or carriage-return bytes
/// removed.
pub open spec fn strip_trailing_newlines(s: Seq<u8>) -> Seq<u8>
    decreases s.len(),
{
    if s.len() > 0 && (s.last() == 10 || s.last() == 13) {
        strip_trailing_newlines(s.drop_last())
    } else {
        s
    }
}

/// Whether a string is non-empty and, after trailing newlines are
/// stripped, consists only of hexadecimal digits.  A string of newlines
/// alone passes: only its non-newline content is held to the digit rule.
pub fn is_valid_hex(input: &str) -> (r: bool)
    ensures
        r <==> input.spec_bytes().len() > 0 && (forall|i: int|
            0 <= i < strip_trailing_newlines(input.spec_bytes()).len()
                ==> is_hex_digit_byte(#[trigger] strip_trailing_newlines(input.spec_bytes())[i])),
{
    let bytes: &[u8] = input.as_bytes();
    let n: usize = bytes.len();
    if n == 0 {
        return false;
    }
    let mut end: usize = n;
    proof {
        assert(bytes@.subrange(0, n as int) =~= bytes@);
    }
    while end > 0 && (bytes[end - 1] == 10 || bytes[end - 1] == 13)
        invariant
            bytes@ == input.spec_bytes(),
            n == bytes@.len(),
            end <= n,
            strip_trailing_newlines(bytes@) == strip_trailing_newlines(
                bytes@.subrange(0, end as int),
            ),
        decreases end,
    {
        proof {
            let pre = bytes@.subrange(0, end as int);
            assert(pre.drop_last() =~= bytes@.subrange(0, end - 1));
        }
        end -= 1;
    }
    proof {
        let pre = bytes@.subrange(0, end as int);
        if end > 0 {
            assert(pre.last() == bytes@[end - 1]);
        }
        assert(strip_trailing_newlines(pre) == pre);
    }
    let mut i: usize = 0;
    while i < end
        invariant
            bytes@ == input.spec_bytes(),
            n == bytes@.len(),
            end <= n,
            strip_trailing_newlines(bytes@) == bytes@.subrange(0, end as int),
            i <= end,
            forall|j: int|
                0 <= j < i ==> is_hex_digit_byte(
                    #[trigger] strip_trailing_newlines(bytes@)[j],
                ),
        decreases end - i,
    {
        let c: u8 = bytes[i];
        let ok: bool = (48 <= c && c <= 57) || (97 <= c && c <= 102) || (65 <= c && c <= 70);
        if !ok {
            proof {
                assert(strip_trailing_newlines(bytes@)[i as int] == c);
                assert(!is_hex_digit_byte(c));
            }
            return false;
        }
        i += 1;
    }
    true
}

/// Whether every byte of a value is zero; the surrounding program rejects
/// all-zero keys and ciphertexts as unread input.
pub fn is_all_zero(v: &Vec<u8>) -> (r: bool)
    ensures
        r <==> (forall|i: int| 0 <= i < v@.len() ==> v@[i] == 0),
{
    let n: usize = v.len();
    let mut i: usize = 0;
    while i < n
        invariant
            n == v@.len(),
            i <= n,
            forall|j: int| 0 <= j < i ==> v@[j] == 0,
        decreases n - i,
    {
        if v[i] != 0 {
            return false;
        }
        i += 1;
    }
    true
}

/// The security level whose secret keys have the given byte length, if
/// any: 1632, 2400 and 3168 bytes belong to levels 2, 3 and 4.
pub fn level_for_secret_key_len(len: usize) -> (r: Option<u32>)
    ensures
        len == 1632 ==> r == Option::<u32>::Some(2u32),
        len == 2400 ==> r == Option::<u32>::Some(3u32),
        len == 3168 ==> r == Option::<u32>::Some(4u32),
        len != 1632 && len != 2400 && len != 3168 ==> r is None,
{
    if len == 1632 {
        Some(2)
    } else if len == 2400 {
        Some(3)
    } else if len == 3168 {
        Some(4)
    } else {
        None
    }
}

} // verus!
