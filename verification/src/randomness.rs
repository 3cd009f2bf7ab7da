//! Where the library touches the machine's randomness: thin trusted
//! wrappers over the outside generators.  The seeded stream cipher's
//! output is a function of its seed alone and is given a name; of the
//! operating-system source nothing is promised beyond the byte count.

use vstd::prelude::*;
use crate::errors::KemError;
use rand::rngs::OsRng;
use rand::RngCore;
use rand::SeedableRng;
use rand_chacha::ChaCha20Rng;

verus! {

/// The keystream that the seeded stream cipher produces: `n` bytes
/// determined by the 32-byte seed alone.
pub uninterp spec fn chacha20_stream(seed: Seq<u8>, n: nat) -> Seq<u8>;

/// Relies on rand's OsRng, whose try_fill_bytes draws from the operating
/// system and reports failure instead of panicking; nothing holds of the
/// bytes but their count.
#[verifier::external_body]
pub fn os_random_bytes(n: usize) -> (r: Result<Vec<u8>, KemError>)
    ensures
        (match r {
            Ok(v) => v@.len() == n,
            Err(e) => e == KemError::RandomnessUnavailable,
        }),
{
    let mut buf = vec![0u8; n];
    match OsRng.try_fill_bytes(&mut buf) {
        Ok(()) => Ok(buf),
        Err(_) => Err(KemError::RandomnessUnavailable),
    }
}

/// Relies on rand_chacha's ChaCha20Rng: from_seed builds the generator
/// deterministically from a 32-byte seed, and fill_bytes emits its
/// keystream, a function of the seed alone.
#[verifier::external_body]
pub fn chacha20_bytes(seed: &Vec<u8>, n: usize) -> (r: Vec<u8>)
    requires
        seed@.len() == 32,
    ensures
        r@.len() == n,
        r@ == chacha20_stream(seed@, n as nat),
{
    let mut s = [0u8; 32];
    s.copy_from_slice(seed);
    let mut rng = ChaCha20Rng::from_seed(s);
    let mut buf = vec![0u8; n];
    rng.fill_bytes(&mut buf);
    buf
}

} // verus!
