//! Centered binomial noise sampling: each coefficient is the difference of
//! two eta-bit Hamming weights drawn from a pseudorandom byte stream.

use vstd::prelude::*;
use crate::poly::{Domain, Poly};
use crate::reduce;

verus! {

/// Bit j of a byte stream, least-significant bit of each byte first.
pub open spec fn stream_bit(s: Seq<u8>, j: int) -> u8 {
    (s[j / 8] >> ((j % 8) as u32)) & 1
}

/// Hamming weight of the n bits of the stream starting at `start`.
pub open spec fn hamming(s: Seq<u8>, start: int, n: nat) -> int
    decreases n,
{
    if n == 0 {
        0
    } else {
        hamming(s, start, (n - 1) as nat) + stream_bit(s, start + n - 1)
    }
}

/// A Hamming weight of n bits is between 0 and n.
pub proof fn lemma_hamming_bounds(s: Seq<u8>, start: int, n: nat)
    ensures
        0 <= hamming(s, start, n) <= n,
    decreases n,
{
    if n > 0 {
        lemma_hamming_bounds(s, start, (n - 1) as nat);
        let byte = s[(start + n - 1) / 8];
        let sh = ((start + n - 1) % 8) as u32;
        assert(stream_bit(s, start + n - 1) == (byte >> sh) & 1);
        assert((byte >> sh) & 1 <= 1) by (bit_vector);
    }
}

/// The sampled value of coefficient i: the difference of two eta-bit
/// Hamming weights taken from consecutive bit groups of the stream.
pub open spec fn cbd_value(s: Seq<u8>, eta: nat, i: int) -> int {
    hamming(s, 2 * i * eta, eta) - hamming(s, 2 * i * eta + eta, eta)
}

/// The whole sampled polynomial as a sequence: every coefficient is its
/// centered binomial value reduced into [0, q).
pub open spec fn cbd_seq(s: Seq<u8>, eta: nat) -> Seq<u16> {
    Seq::new(256, |i: int| (cbd_value(s, eta, i) % 3329) as u16)
}

/// The weight of `n` consecutive bits starting at bit `start` of `buf`.
fn hamming_slice(buf: &Vec<u8>, start: usize, n: usize) -> (w: u16)
    requires
        n <= 8,
        start + n <= 8 * buf@.len(),
        8 * buf@.len() <= usize::MAX,
    ensures
        w == hamming(buf@, start as int, n as nat),
        w <= n,
{
    let mut w: u16 = 0;
    let mut t: usize = 0;
    while t < n
        invariant
            t <= n,
            n <= 8,
            start + n <= 8 * buf@.len(),
            8 * buf@.len() <= usize::MAX,
            w == hamming(buf@, start as int, t as nat),
            w <= t,
        decreases n - t,
    {
        let j: usize = start + t;
        let byte: u8 = buf[j / 8];
        let sh: u32 = (j % 8) as u32;
        let bit: u8 = (byte >> sh) & 1;
        proof {
            assert(bit <= 1) by (bit_vector)
                requires
                    bit == (byte >> sh) & 1,
            ;
            assert(bit == stream_bit(buf@, j as int));
        }
        w = w + (bit as u16);
        t += 1;
    }
    w
}

/// Sample a polynomial whose coefficients follow the centered binomial
/// distribution of parameter eta from a pseudorandom stream of 64 * eta
/// bytes.  Before canonicalization every sampled value lies in [-eta, eta];
/// the returned coefficients are those values reduced into [0, q).
pub fn cbd(buf: &Vec<u8>, eta: usize) -> (r: Poly)
    requires
        eta == 2 || eta == 3,
        buf@.len() == 64 * eta,
    ensures
        r.wf(),
        r.domain == Domain::Normal,
        r.coeffs@ == cbd_seq(buf@, eta as nat),
        forall|i: int|
            0 <= i < 256 ==> #[trigger] r.coeffs@[i] == cbd_value(buf@, eta as nat, i) % 3329,
        forall|i: int|
            0 <= i < 256 ==> -(eta as int) <= #[trigger] cbd_value(buf@, eta as nat, i)
                <= eta as int,
{
    let mut coeffs: Vec<u16> = Vec::new();
    let mut i: usize = 0;
    while i < 256
        invariant
            eta == 2 || eta == 3,
            buf@.len() == 64 * eta,
            i <= 256,
            coeffs@.len() == i,
            forall|j: int| 0 <= j < i ==> coeffs@[j] < 3329,
            forall|j: int|
                0 <= j < i ==> #[trigger] coeffs@[j] == cbd_value(buf@, eta as nat, j) % 3329,
        decreases 256 - i,
    {
        let a: u16 = hamming_slice(buf, 2 * i * eta, eta);
        let b: u16 = hamming_slice(buf, 2 * i * eta + eta, eta);
        let s: u16 = a + 3329 - b;
        let c: u16 = reduce::csubq(s as i16) as u16;
        proof {
            reduce::lemma_canonical_mod(c as int, a - b);
            assert(a - b == cbd_value(buf@, eta as nat, i as int));
        }
        coeffs.push(c);
        i += 1;
    }
    proof {
        assert forall|i: int| 0 <= i < 256 implies -(eta as int) <= #[trigger] cbd_value(
            buf@,
            eta as nat,
            i,
        ) <= eta as int by {
            lemma_hamming_bounds(buf@, 2 * i * eta, eta as nat);
            lemma_hamming_bounds(buf@, 2 * i * eta + eta, eta as nat);
        }
    }
    proof {
        assert(coeffs@ =~= cbd_seq(buf@, eta as nat));
    }
    Poly { coeffs, domain: Domain::Normal }
}

} // verus!
