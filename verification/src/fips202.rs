//! The sponge permutation family behind the scheme's symmetric primitives:
//! the 1600-bit permutation, the two fixed-width hashes and the two
//! extendable-output functions built on it.  Every function's result is
//! pinned to a specification-level model of the sponge, so the byte values
//! of digests and streams are part of the contracts.

use vstd::prelude::*;

verus! {

/// Rotate a 64-bit lane left by n bits.
pub open spec fn rotl_spec(x: u64, n: u32) -> u64 {
    if n == 0 {
        x
    } else {
        (x << n) | (x >> (64 - n))
    }
}

/// Rotate a 64-bit lane left by n bits.
fn rotl64(x: u64, n: u32) -> (r: u64)
    requires
        n < 64,
    ensures
        r == rotl_spec(x, n),
{
    if n == 0 {
        x
    } else {
        (x << n) | (x >> (64 - n))
    }
}

/// The round constant of round ir.
pub open spec fn rc_spec(ir: int) -> u64 {
    if ir == 0 {
        0x1
    } else if ir == 1 {
        0x8082
    } else if ir == 2 {
        0x800000000000808a
    } else if ir == 3 {
        0x8000000080008000
    } else if ir == 4 {
        0x808b
    } else if ir == 5 {
        0x80000001
    } else if ir == 6 {
        0x8000000080008081
    } else if ir == 7 {
        0x8000000000008009
    } else if ir == 8 {
        0x8a
    } else if ir == 9 {
        0x88
    } else if ir == 10 {
        0x80008009
    } else if ir == 11 {
        0x8000000a
    } else if ir == 12 {
        0x8000808b
    } else if ir == 13 {
        0x800000000000008b
    } else if ir == 14 {
        0x8000000000008089
    } else if ir == 15 {
        0x8000000000008003
    } else if ir == 16 {
        0x8000000000008002
    } else if ir == 17 {
        0x8000000000000080
    } else if ir == 18 {
        0x800a
    } else if ir == 19 {
        0x800000008000000a
    } else if ir == 20 {
        0x8000000080008081
    } else if ir == 21 {
        0x8000000000008080
    } else if ir == 22 {
        0x80000001
    } else {
        0x8000000080008008
    }
}

/// The round constant of round ir.
fn rc_exec(ir: usize) -> (r: u64)
    requires
        ir < 24,
    ensures
        r == rc_spec(ir as int),
{
    if ir == 0 {
        0x1
    } else if ir == 1 {
        0x8082
    } else if ir == 2 {
        0x800000000000808a
    } else if ir == 3 {
        0x8000000080008000
    } else if ir == 4 {
        0x808b
    } else if ir == 5 {
        0x80000001
    } else if ir == 6 {
        0x8000000080008081
    } else if ir == 7 {
        0x8000000000008009
    } else if ir == 8 {
        0x8a
    } else if ir == 9 {
        0x88
    } else if ir == 10 {
        0x80008009
    } else if ir == 11 {
        0x8000000a
    } else if ir == 12 {
        0x8000808b
    } else if ir == 13 {
        0x800000000000008b
    } else if ir == 14 {
        0x8000000000008089
    } else if ir == 15 {
        0x8000000000008003
    } else if ir == 16 {
        0x8000000000008002
    } else if ir == 17 {
        0x8000000000000080
    } else if ir == 18 {
        0x800a
    } else if ir == 19 {
        0x800000008000000a
    } else if ir == 20 {
        0x8000000080008081
    } else if ir == 21 {
        0x8000000000008080
    } else if ir == 22 {
        0x80000001
    } else {
        0x8000000080008008
    }
}

/// The rotation offset of lane l.
pub open spec fn rot_spec(l: int) -> u32 {
    if l == 0 {
        0
    } else if l == 1 {
        1
    } else if l == 2 {
        62
    } else if l == 3 {
        28
    } else if l == 4 {
        27
    } else if l == 5 {
        36
    } else if l == 6 {
        44
    } else if l == 7 {
        6
    } else if l == 8 {
        55
    } else if l == 9 {
        20
    } else if l == 10 {
        3
    } else if l == 11 {
        10
    } else if l == 12 {
        43
    } else if l == 13 {
        25
    } else if l == 14 {
        39
    } else if l == 15 {
        41
    } else if l == 16 {
        45
    } else if l == 17 {
        15
    } else if l == 18 {
        21
    } else if l == 19 {
        8
    } else if l == 20 {
        18
    } else if l == 21 {
        2
    } else if l == 22 {
        61
    } else if l == 23 {
        56
    } else {
        14
    }
}

/// The rotation offset of lane l.
fn rot_exec(l: usize) -> (r: u32)
    requires
        l < 25,
    ensures
        r == rot_spec(l as int),
        r < 64,
{
    if l == 0 {
        0
    } else if l == 1 {
        1
    } else if l == 2 {
        62
    } else if l == 3 {
        28
    } else if l == 4 {
        27
    } else if l == 5 {
        36
    } else if l == 6 {
        44
    } else if l == 7 {
        6
    } else if l == 8 {
        55
    } else if l == 9 {
        20
    } else if l == 10 {
        3
    } else if l == 11 {
        10
    } else if l == 12 {
        43
    } else if l == 13 {
        25
    } else if l == 14 {
        39
    } else if l == 15 {
        41
    } else if l == 16 {
        45
    } else if l == 17 {
        15
    } else if l == 18 {
        21
    } else if l == 19 {
        8
    } else if l == 20 {
        18
    } else if l == 21 {
        2
    } else if l == 22 {
        61
    } else if l == 23 {
        56
    } else {
        14
    }
}

/// The lane that the combined rotation-and-permutation step reads to fill
/// lane l.
pub open spec fn pi_src(l: int) -> int {
    if l == 0 {
        0
    } else if l == 1 {
        6
    } else if l == 2 {
        12
    } else if l == 3 {
        18
    } else if l == 4 {
        24
    } else if l == 5 {
        3
    } else if l == 6 {
        9
    } else if l == 7 {
        10
    } else if l == 8 {
        16
    } else if l == 9 {
        22
    } else if l == 10 {
        1
    } else if l == 11 {
        7
    } else if l == 12 {
        13
    } else if l == 13 {
        19
    } else if l == 14 {
        20
    } else if l == 15 {
        4
    } else if l == 16 {
        5
    } else if l == 17 {
        11
    } else if l == 18 {
        17
    } else if l == 19 {
        23
    } else if l == 20 {
        2
    } else if l == 21 {
        8
    } else if l == 22 {
        14
    } else if l == 23 {
        15
    } else {
        21
    }
}

/// The lane that the combined rotation-and-permutation step reads to fill
/// lane l.
fn pi_src_exec(l: usize) -> (r: usize)
    requires
        l < 25,
    ensures
        r == pi_src(l as int),
        r < 25,
{
    if l == 0 {
        0
    } else if l == 1 {
        6
    } else if l == 2 {
        12
    } else if l == 3 {
        18
    } else if l == 4 {
        24
    } else if l == 5 {
        3
    } else if l == 6 {
        9
    } else if l == 7 {
        10
    } else if l == 8 {
        16
    } else if l == 9 {
        22
    } else if l == 10 {
        1
    } else if l == 11 {
        7
    } else if l == 12 {
        13
    } else if l == 13 {
        19
    } else if l == 14 {
        20
    } else if l == 15 {
        4
    } else if l == 16 {
        5
    } else if l == 17 {
        11
    } else if l == 18 {
        17
    } else if l == 19 {
        23
    } else if l == 20 {
        2
    } else if l == 21 {
        8
    } else if l == 22 {
        14
    } else if l == 23 {
        15
    } else {
        21
    }
}

/// The column parity of column x.
pub open spec fn theta_c(s: Seq<u64>, x: int) -> u64 {
    s[x] ^ s[x + 5] ^ s[x + 10] ^ s[x + 15] ^ s[x + 20]
}

/// The parity mixed into column x.
pub open spec fn theta_d(s: Seq<u64>, x: int) -> u64 {
    theta_c(s, (x + 4) % 5) ^ rotl_spec(theta_c(s, (x + 1) % 5), 1)
}

/// The column-parity step.
pub open spec fn theta_spec(s: Seq<u64>) -> Seq<u64> {
    Seq::new(25, |i: int| s[i] ^ theta_d(s, i % 5))
}

/// The combined rotation-and-permutation step.
pub open spec fn rhopi_spec(s: Seq<u64>) -> Seq<u64> {
    Seq::new(25, |j: int| rotl_spec(s[pi_src(j)], rot_spec(pi_src(j))))
}

/// The row-wise nonlinear step.
pub open spec fn chi_spec(s: Seq<u64>) -> Seq<u64> {
    Seq::new(
        25,
        |i: int| s[i] ^ ((!s[5 * (i / 5) + ((i % 5) + 1) % 5]) & s[5 * (i / 5) + ((i % 5) + 2)
            % 5]),
    )
}

/// One full round: parity, rotation and permutation, the nonlinear step,
/// and the round constant.
pub open spec fn round_spec(s: Seq<u64>, ir: int) -> Seq<u64> {
    let t = chi_spec(rhopi_spec(theta_spec(s)));
    t.update(0, t[0] ^ rc_spec(ir))
}

/// The first n rounds applied in order.
pub open spec fn rounds_spec(s: Seq<u64>, n: int) -> Seq<u64>
    decreases n,
{
    if n <= 0 {
        s
    } else {
        round_spec(rounds_spec(s, n - 1), n - 1)
    }
}

/// The whole 24-round permutation.
pub open spec fn keccakf_spec(s: Seq<u64>) -> Seq<u64> {
    rounds_spec(s, 24)
}

/// One application of the 1600-bit permutation to the 25-lane state.
fn keccakf(s: &mut Vec<u64>)
    requires
        old(s)@.len() == 25,
    ensures
        final(s)@.len() == 25,
        final(s)@ == keccakf_spec(old(s)@),
{
    let mut rnd: usize = 0;
    while rnd < 24
        invariant
            s@.len() == 25,
            rnd <= 24,
            s@ == rounds_spec(old(s)@, rnd as int),
        decreases 24 - rnd,
    {
        // column parities
        let mut c: Vec<u64> = Vec::new();
        let mut i: usize = 0;
        while i < 5
            invariant
                s@.len() == 25,
                i <= 5,
                c@.len() == i,
                forall|x: int| 0 <= x < i ==> c@[x] == theta_c(s@, x),
            decreases 5 - i,
        {
            c.push(s[i] ^ s[i + 5] ^ s[i + 10] ^ s[i + 15] ^ s[i + 20]);
            i += 1;
        }
        // parity step
        let mut t1: Vec<u64> = Vec::new();
        let mut i: usize = 0;
        while i < 25
            invariant
                s@.len() == 25,
                c@.len() == 5,
                forall|x: int| 0 <= x < 5 ==> c@[x] == theta_c(s@, x),
                i <= 25,
                t1@.len() == i,
                forall|j: int| 0 <= j < i ==> t1@[j] == theta_spec(s@)[j],
            decreases 25 - i,
        {
            let dd: u64 = c[(i + 4) % 5] ^ rotl64(c[(i + 1) % 5], 1);
            proof {
                assert((i + 4) % 5 == ((i % 5) + 4) % 5 && (i + 1) % 5 == ((i % 5) + 1) % 5)
                    by (nonlinear_arith)
                    requires
                        i < 25,
                ;
            }
            t1.push(s[i] ^ dd);
            i += 1;
        }
        // rotation and permutation
        let mut t2: Vec<u64> = Vec::new();
        let mut i: usize = 0;
        while i < 25
            invariant
                t1@.len() == 25,
                i <= 25,
                t2@.len() == i,
                forall|j: int| 0 <= j < i ==> t2@[j] == rhopi_spec(t1@)[j],
            decreases 25 - i,
        {
            let src: usize = pi_src_exec(i);
            t2.push(rotl64(t1[src], rot_exec(src)));
            i += 1;
        }
        // nonlinear step and round constant
        let mut t3: Vec<u64> = Vec::new();
        let mut i: usize = 0;
        while i < 25
            invariant
                t2@.len() == 25,
                i <= 25,
                t3@.len() == i,
                forall|j: int| 0 <= j < i ==> t3@[j] == chi_spec(t2@)[j],
            decreases 25 - i,
        {
            let row: usize = 5 * (i / 5);
            let v: u64 = t2[i] ^ ((!t2[row + (i % 5 + 1) % 5]) & t2[row + (i % 5 + 2) % 5]);
            t3.push(v);
            i += 1;
        }
        t3.set(0, t3[0] ^ rc_exec(rnd));
        proof {
            assert(t1@ =~= theta_spec(s@));
            assert(t2@ =~= rhopi_spec(t1@));
            assert(t3@ =~= round_spec(s@, rnd as int));
        }
        *s = t3;
        rnd += 1;
    }
}

/// The state with byte `v` XORed into byte position `pos`.
pub open spec fn lane_xor_spec(s: Seq<u64>, pos: int, v: u8) -> Seq<u64> {
    s.update(pos / 8, s[pos / 8] ^ ((v as u64) << ((8 * (pos % 8)) as u32)))
}

/// XOR byte `v` into byte position `pos` of the lane state.
fn state_xor_byte(s: &mut Vec<u64>, pos: usize, v: u8)
    requires
        old(s)@.len() == 25,
        pos < 200,
    ensures
        final(s)@.len() == 25,
        final(s)@ == lane_xor_spec(old(s)@, pos as int, v),
{
    let lane: usize = pos / 8;
    let sh: u32 = 8 * ((pos % 8) as u32);
    s.set(lane, s[lane] ^ ((v as u64) << sh));
}

/// Byte position `pos` of the lane state.
pub open spec fn state_byte_spec(s: Seq<u64>, pos: int) -> u8 {
    ((s[pos / 8] >> ((8 * (pos % 8)) as u32)) & 0xff) as u8
}

/// Read byte position `pos` of the lane state.
fn state_byte(s: &Vec<u64>, pos: usize) -> (r: u8)
    requires
        s@.len() == 25,
        pos < 200,
    ensures
        r == state_byte_spec(s@, pos as int),
{
    let lane: usize = pos / 8;
    let sh: u32 = 8 * ((pos % 8) as u32);
    let v: u64 = s[lane];
    proof {
        assert(sh == (8 * ((pos as int) % 8)) as u32);
        assert(((v >> sh) as u8) == (((v >> sh) & 0xff) as u8)) by (bit_vector);
    }
    #[verifier::truncate] ((v >> sh) as u8)
}

/// The state after the first n bytes of `data` starting at `off` are
/// XORed into byte positions 0 through n-1.
pub open spec fn absorb_bytes_spec(s: Seq<u64>, data: Seq<u8>, off: int, n: int) -> Seq<u64>
    decreases n,
{
    if n <= 0 {
        s
    } else {
        lane_xor_spec(absorb_bytes_spec(s, data, off, n - 1), n - 1, data[off + n - 1])
    }
}

/// The state after all of `data` from `off` on is absorbed: full blocks
/// alternate with the permutation, and the final partial block receives
/// the domain-separation byte and the closing padding bit.
pub open spec fn absorb_all_spec(s: Seq<u64>, data: Seq<u8>, off: int, rate: int, dsep: u8)
    -> Seq<u64>
    decreases data.len() - off,
{
    if rate <= 0 || off < 0 || off > data.len() {
        s
    } else if data.len() - off < rate {
        let rem = data.len() - off;
        lane_xor_spec(
            lane_xor_spec(absorb_bytes_spec(s, data, off, rem as int), rem as int, dsep),
            rate - 1,
            0x80,
        )
    } else {
        absorb_all_spec(keccakf_spec(absorb_bytes_spec(s, data, off, rate)), data, off + rate,
            rate, dsep)
    }
}

/// The all-zero state.
pub open spec fn zero_state() -> Seq<u64> {
    Seq::new(25, |i: int| 0u64)
}

/// The first `outlen` squeezed bytes: each block is a permutation followed
/// by up to `rate` bytes read out of the state.
pub open spec fn squeeze_spec(s: Seq<u64>, rate: int, outlen: int) -> Seq<u8>
    decreases outlen,
{
    if outlen <= 0 || rate <= 0 {
        Seq::empty()
    } else {
        let s2 = keccakf_spec(s);
        let m = if outlen <= rate {
            outlen
        } else {
            rate
        };
        Seq::new(m as nat, |j: int| state_byte_spec(s2, j)) + squeeze_spec(s2, rate, outlen - m)
    }
}

/// What the sponge computes for an input, rate, domain-separation byte
/// and output length.
pub open spec fn sponge_spec(input: Seq<u8>, rate: int, dsep: u8, outlen: int) -> Seq<u8> {
    squeeze_spec(absorb_all_spec(zero_state(), input, 0, rate, dsep), rate, outlen)
}

/// The sponge: absorb `input` at the given rate with the given domain
/// separation byte, then squeeze `outlen` bytes.
pub fn sponge(input: &Vec<u8>, rate: usize, dsep: u8, outlen: usize) -> (r: Vec<u8>)
    requires
        rate == 72 || rate == 136 || rate == 168,
    ensures
        r@.len() == outlen,
        r@ == sponge_spec(input@, rate as int, dsep, outlen as int),
{
    let mut s: Vec<u64> = Vec::new();
    let mut i: usize = 0;
    while i < 25
        invariant
            i <= 25,
            s@.len() == i,
            forall|j: int| 0 <= j < i ==> s@[j] == 0,
        decreases 25 - i,
    {
        s.push(0);
        i += 1;
    }
    proof {
        assert(s@ =~= zero_state());
    }
    let ilen: usize = input.len();
    // absorb all full blocks
    let mut off: usize = 0;
    while input.len() - off >= rate
        invariant
            rate == 72 || rate == 136 || rate == 168,
            s@.len() == 25,
            ilen == input@.len(),
            off <= input@.len(),
            absorb_all_spec(zero_state(), input@, 0, rate as int, dsep) == absorb_all_spec(
                s@,
                input@,
                off as int,
                rate as int,
                dsep,
            ),
        decreases input@.len() - off,
    {
        let ghost entry = s@;
        let mut j: usize = 0;
        while j < rate
            invariant
                rate == 72 || rate == 136 || rate == 168,
                s@.len() == 25,
                ilen == input@.len(),
                off <= input@.len() - rate,
                j <= rate,
                s@ == absorb_bytes_spec(entry, input@, off as int, j as int),
            decreases rate - j,
        {
            state_xor_byte(&mut s, j, input[off + j]);
            j += 1;
        }
        keccakf(&mut s);
        off += rate;
    }
    // absorb the final partial block, with padding
    let rem: usize = input.len() - off;
    let ghost entry = s@;
    let mut j: usize = 0;
    while j < rem
        invariant
            rate == 72 || rate == 136 || rate == 168,
            s@.len() == 25,
            ilen == input@.len(),
            rem < rate,
            rem == input@.len() - off,
            off <= input@.len(),
            j <= rem,
            s@ == absorb_bytes_spec(entry, input@, off as int, j as int),
        decreases rem - j,
    {
        state_xor_byte(&mut s, j, input[off + j]);
        j += 1;
    }
    state_xor_byte(&mut s, rem, dsep);
    state_xor_byte(&mut s, rate - 1, 0x80);
    proof {
        assert(s@ == absorb_all_spec(zero_state(), input@, 0, rate as int, dsep));
    }
    let ghost padded = s@;
    // squeeze
    let mut out: Vec<u8> = Vec::new();
    let mut produced: usize = 0;
    while produced < outlen
        invariant
            rate == 72 || rate == 136 || rate == 168,
            s@.len() == 25,
            produced == out@.len(),
            produced <= outlen,
            sponge_spec(input@, rate as int, dsep, outlen as int) == out@ + squeeze_spec(
                s@,
                rate as int,
                outlen - produced,
            ),
        decreases outlen - produced,
    {
        let ghost sprev = s@;
        let ghost outentry = out@;
        keccakf(&mut s);
        let ghost m: int = if outlen - produced <= rate {
            outlen - produced
        } else {
            rate as int
        };
        let mut j: usize = 0;
        while j < rate && produced < outlen
            invariant
                rate == 72 || rate == 136 || rate == 168,
                s@.len() == 25,
                j <= rate,
                m == (if outlen - outentry.len() <= rate {
                    outlen - outentry.len()
                } else {
                    rate as int
                }),
                produced == out@.len(),
                produced == outentry.len() + j || (produced == outlen && j <= m),
                produced <= outlen,
                out@ == outentry + Seq::new(j as nat, |jj: int| state_byte_spec(s@, jj)),
            decreases rate - j,
        {
            out.push(state_byte(&s, j));
            proof {
                assert(out@ =~= outentry + Seq::new(
                    (j + 1) as nat,
                    |jj: int| state_byte_spec(s@, jj),
                ));
            }
            produced += 1;
            j += 1;
        }
        proof {
            assert(j == m);
            assert(squeeze_spec(sprev, rate as int, outlen - outentry.len()) == Seq::new(
                m as nat,
                |jj: int| state_byte_spec(s@, jj),
            ) + squeeze_spec(s@, rate as int, outlen - outentry.len() - m));
            assert(out@ + squeeze_spec(s@, rate as int, outlen - produced) =~= outentry
                + squeeze_spec(sprev, rate as int, outlen - outentry.len()));
        }
    }
    proof {
        assert(out@ =~= sponge_spec(input@, rate as int, dsep, outlen as int));
    }
    out
}

/// The 32-byte collision-resistant hash H.
pub open spec fn sha3_256_spec(m: Seq<u8>) -> Seq<u8> {
    sponge_spec(m, 136, 0x06, 32)
}

/// The 32-byte collision-resistant hash H.
pub fn sha3_256(input: &Vec<u8>) -> (r: Vec<u8>)
    ensures
        r@.len() == 32,
        r@ == sha3_256_spec(input@),
{
    sponge(input, 136, 0x06, 32)
}

/// The 64-byte hash G, whose two halves the scheme uses as a key seed and
/// encryption coins.
pub open spec fn sha3_512_spec(m: Seq<u8>) -> Seq<u8> {
    sponge_spec(m, 72, 0x06, 64)
}

/// The 64-byte hash G, whose two halves the scheme uses as a key seed and
/// encryption coins.
pub fn sha3_512(input: &Vec<u8>) -> (r: Vec<u8>)
    ensures
        r@.len() == 64,
        r@ == sha3_512_spec(input@),
{
    sponge(input, 72, 0x06, 64)
}

/// The extendable-output function used to expand the public matrix seed.
pub open spec fn shake128_spec(m: Seq<u8>, outlen: int) -> Seq<u8> {
    sponge_spec(m, 168, 0x1f, outlen)
}

/// The extendable-output function used to expand the public matrix seed.
pub fn shake128(input: &Vec<u8>, outlen: usize) -> (r: Vec<u8>)
    ensures
        r@.len() == outlen,
        r@ == shake128_spec(input@, outlen as int),
{
    sponge(input, 168, 0x1f, outlen)
}

/// The extendable-output function used as the noise PRF and the final key
/// derivation function.
pub open spec fn shake256_spec(m: Seq<u8>, outlen: int) -> Seq<u8> {
    sponge_spec(m, 136, 0x1f, outlen)
}

/// The extendable-output function used as the noise PRF and the final key
/// derivation function.
pub fn shake256(input: &Vec<u8>, outlen: usize) -> (r: Vec<u8>)
    ensures
        r@.len() == outlen,
        r@ == shake256_spec(input@, outlen as int),
{
    sponge(input, 136, 0x1f, outlen)
}

} // verus!
