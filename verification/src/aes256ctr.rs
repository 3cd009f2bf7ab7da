//! The block cipher used by the deterministic bit generator: a 256-bit-key
//! encryption-only implementation of the standard 128-bit block cipher.

use vstd::prelude::*;

verus! {

/// The substitution box of the cipher.
pub const SBOX: [u8; 256] = [
    0x63, 0x7c, 0x77, 0x7b, 0xf2, 0x6b, 0x6f, 0xc5, 0x30, 0x01, 0x67, 0x2b,
    0xfe, 0xd7, 0xab, 0x76, 0xca, 0x82, 0xc9, 0x7d, 0xfa, 0x59, 0x47, 0xf0,
    0xad, 0xd4, 0xa2, 0xaf, 0x9c, 0xa4, 0x72, 0xc0, 0xb7, 0xfd, 0x93, 0x26,
    0x36, 0x3f, 0xf7, 0xcc, 0x34, 0xa5, 0xe5, 0xf1, 0x71, 0xd8, 0x31, 0x15,
    0x04, 0xc7, 0x23, 0xc3, 0x18, 0x96, 0x05, 0x9a, 0x07, 0x12, 0x80, 0xe2,
    0xeb, 0x27, 0xb2, 0x75, 0x09, 0x83, 0x2c, 0x1a, 0x1b, 0x6e, 0x5a, 0xa0,
    0x52, 0x3b, 0xd6, 0xb3, 0x29, 0xe3, 0x2f, 0x84, 0x53, 0xd1, 0x00, 0xed,
    0x20, 0xfc, 0xb1, 0x5b, 0x6a, 0xcb, 0xbe, 0x39, 0x4a, 0x4c, 0x58, 0xcf,
    0xd0, 0xef, 0xaa, 0xfb, 0x43, 0x4d, 0x33, 0x85, 0x45, 0xf9, 0x02, 0x7f,
    0x50, 0x3c, 0x9f, 0xa8, 0x51, 0xa3, 0x40, 0x8f, 0x92, 0x9d, 0x38, 0xf5,
    0xbc, 0xb6, 0xda, 0x21, 0x10, 0xff, 0xf3, 0xd2, 0xcd, 0x0c, 0x13, 0xec,
    0x5f, 0x97, 0x44, 0x17, 0xc4, 0xa7, 0x7e, 0x3d, 0x64, 0x5d, 0x19, 0x73,
    0x60, 0x81, 0x4f, 0xdc, 0x22, 0x2a, 0x90, 0x88, 0x46, 0xee, 0xb8, 0x14,
    0xde, 0x5e, 0x0b, 0xdb, 0xe0, 0x32, 0x3a, 0x0a, 0x49, 0x06, 0x24, 0x5c,
    0xc2, 0xd3, 0xac, 0x62, 0x91, 0x95, 0xe4, 0x79, 0xe7, 0xc8, 0x37, 0x6d,
    0x8d, 0xd5, 0x4e, 0xa9, 0x6c, 0x56, 0xf4, 0xea, 0x65, 0x7a, 0xae, 0x08,
    0xba, 0x78, 0x25, 0x2e, 0x1c, 0xa6, 0xb4, 0xc6, 0xe8, 0xdd, 0x74, 0x1f,
    0x4b, 0xbd, 0x8b, 0x8a, 0x70, 0x3e, 0xb5, 0x66, 0x48, 0x03, 0xf6, 0x0e,
    0x61, 0x35, 0x57, 0xb9, 0x86, 0xc1, 0x1d, 0x9e, 0xe1, 0xf8, 0x98, 0x11,
    0x69, 0xd9, 0x8e, 0x94, 0x9b, 0x1e, 0x87, 0xe9, 0xce, 0x55, 0x28, 0xdf,
    0x8c, 0xa1, 0x89, 0x0d, 0xbf, 0xe6, 0x42, 0x68, 0x41, 0x99, 0x2d, 0x0f,
    0xb0, 0x54, 0xbb, 0x16,
];

/// The substitution of one byte through the box.
#[verifier::opaque]
pub open spec fn sbox_spec(b: u8) -> u8 {
    SBOX[b as int]
}

/// Look one byte up in the box.
fn sbox(b: u8) -> (r: u8)
    ensures
        r == sbox_spec(b),
{
    proof {
        reveal(sbox_spec);
    }
    SBOX[b as usize]
}

/// Multiplication by x in GF(2^8) modulo the cipher's polynomial.
pub open spec fn spec_xtime(a: u8) -> u8 {
    if a & 0x80 != 0 {
        (a << 1) ^ 0x1b
    } else {
        a << 1
    }
}

/// Multiplication by x in GF(2^8) modulo the cipher's polynomial.
fn xtime(a: u8) -> (r: u8)
    ensures
        r == spec_xtime(a),
{
    if a & 0x80 != 0 {
        (a << 1) ^ 0x1b
    } else {
        a << 1
    }
}

/// The round constant for the n-th key-schedule block: 1, then doubled in
/// the field for each further block.
pub open spec fn rcon_spec(n: int) -> u8
    decreases n,
{
    if n <= 1 {
        1
    } else {
        spec_xtime(rcon_spec(n - 1))
    }
}

/// Byte i of the expanded key schedule: the first 32 bytes are the key;
/// every later word is the word 8 back, XORed with the previous word,
/// rotated and substituted at each 8-word boundary and substituted at the
/// half-way word.
pub open spec fn ks_byte(key: Seq<u8>, i: int) -> u8
    decreases i,
{
    if i < 32 {
        key[i]
    } else {
        let wi = i / 4;
        let r = i % 4;
        let t = if wi % 8 == 0 {
            if r == 0 {
                sbox_spec(ks_byte(key, 4 * wi - 3)) ^ rcon_spec(wi / 8)
            } else if r == 1 {
                sbox_spec(ks_byte(key, 4 * wi - 2))
            } else if r == 2 {
                sbox_spec(ks_byte(key, 4 * wi - 1))
            } else {
                sbox_spec(ks_byte(key, 4 * wi - 4))
            }
        } else if wi % 8 == 4 {
            sbox_spec(ks_byte(key, 4 * wi - 4 + r))
        } else {
            ks_byte(key, 4 * wi - 4 + r)
        };
        ks_byte(key, i - 32) ^ t
    }
}

/// The whole 240-byte key schedule.
pub open spec fn ks_seq(key: Seq<u8>) -> Seq<u8> {
    Seq::new(240, |i: int| ks_byte(key, i))
}

/// XOR the round key of the given round into the state.
pub open spec fn add_rk_spec(s: Seq<u8>, w: Seq<u8>, rnd: int) -> Seq<u8> {
    Seq::new(16, |i: int| s[i] ^ w[16 * rnd + i])
}

/// Substitute every state byte through the box.
pub open spec fn subbytes_spec(s: Seq<u8>) -> Seq<u8> {
    Seq::new(16, |i: int| sbox_spec(s[i]))
}

/// The source position that row rotation moves to position i.
pub open spec fn shiftrow_src(i: int) -> int {
    (i % 4) + 4 * (((i / 4) + (i % 4)) % 4)
}

/// Rotate row r of the state left by r positions.
pub open spec fn shiftrows_spec(s: Seq<u8>) -> Seq<u8> {
    Seq::new(16, |i: int| s[shiftrow_src(i)])
}

/// The column mix of the cipher's linear layer, described pointwise.
pub open spec fn mixcol_spec(s: Seq<u8>) -> Seq<u8> {
    Seq::new(
        16,
        |i: int|
            {
                let c = i / 4;
                let a0 = s[4 * c];
                let a1 = s[4 * c + 1];
                let a2 = s[4 * c + 2];
                let a3 = s[4 * c + 3];
                if i % 4 == 0 {
                    spec_xtime(a0) ^ (spec_xtime(a1) ^ a1) ^ a2 ^ a3
                } else if i % 4 == 1 {
                    a0 ^ spec_xtime(a1) ^ (spec_xtime(a2) ^ a2) ^ a3
                } else if i % 4 == 2 {
                    a0 ^ a1 ^ spec_xtime(a2) ^ (spec_xtime(a3) ^ a3)
                } else {
                    (spec_xtime(a0) ^ a0) ^ a1 ^ a2 ^ spec_xtime(a3)
                }
            },
    )
}

/// One middle round: substitute, rotate, mix, add the round key.
pub open spec fn aes_round_spec(s: Seq<u8>, w: Seq<u8>, rnd: int) -> Seq<u8> {
    add_rk_spec(mixcol_spec(shiftrows_spec(subbytes_spec(s))), w, rnd)
}

/// Middle rounds 1 through n applied in order.
pub open spec fn aes_rounds_spec(s: Seq<u8>, w: Seq<u8>, n: int) -> Seq<u8>
    decreases n,
{
    if n <= 0 {
        s
    } else {
        aes_round_spec(aes_rounds_spec(s, w, n - 1), w, n)
    }
}

/// What encrypting one block computes: the initial key addition, thirteen
/// middle rounds, and the final round without the column mix.
pub open spec fn aes256_spec(key: Seq<u8>, block: Seq<u8>) -> Seq<u8> {
    let w = ks_seq(key);
    let mid = aes_rounds_spec(add_rk_spec(block, w, 0), w, 13);
    add_rk_spec(shiftrows_spec(subbytes_spec(mid)), w, 14)
}

/// Expand a 32-byte key into the 240-byte round-key schedule.
#[verifier::rlimit(60)]
fn key_schedule(key: &Vec<u8>) -> (w: Vec<u8>)
    requires
        key@.len() == 32,
    ensures
        w@.len() == 240,
        w@ == ks_seq(key@),
{
    let mut w: Vec<u8> = Vec::new();
    let mut i: usize = 0;
    while i < 32
        invariant
            key@.len() == 32,
            i <= 32,
            w@.len() == i,
            forall|j: int| 0 <= j < i ==> w@[j] == ks_byte(key@, j),
        decreases 32 - i,
    {
        w.push(key[i]);
        i += 1;
    }
    let mut rcon: u8 = 1;
    let mut wi: usize = 8;
    while wi < 60
        invariant
            key@.len() == 32,
            8 <= wi <= 60,
            w@.len() == 4 * wi,
            rcon == rcon_spec(((wi + 7) / 8) as int),
            forall|j: int| 0 <= j < 4 * wi ==> w@[j] == ks_byte(key@, j),
        decreases 60 - wi,
    {
        let mut t0: u8 = w[4 * wi - 4];
        let mut t1: u8 = w[4 * wi - 3];
        let mut t2: u8 = w[4 * wi - 2];
        let mut t3: u8 = w[4 * wi - 1];
        if wi % 8 == 0 {
            // rotate, substitute, and mix in the round constant
            let r0: u8 = sbox(t1) ^ rcon;
            let r1: u8 = sbox(t2);
            let r2: u8 = sbox(t3);
            let r3: u8 = sbox(t0);
            proof {
                assert(((wi + 7) / 8) as int == (wi as int) / 8);
            }
            t0 = r0;
            t1 = r1;
            t2 = r2;
            t3 = r3;
            rcon = xtime(rcon);
        } else if wi % 8 == 4 {
            t0 = sbox(t0);
            t1 = sbox(t1);
            t2 = sbox(t2);
            t3 = sbox(t3);
        }
        let b0: u8 = w[4 * (wi - 8)] ^ t0;
        let b1: u8 = w[4 * (wi - 8) + 1] ^ t1;
        let b2: u8 = w[4 * (wi - 8) + 2] ^ t2;
        let b3: u8 = w[4 * (wi - 8) + 3] ^ t3;
        proof {
            lemma_ks_word(key@, wi as int);
        }
        w.push(b0);
        w.push(b1);
        w.push(b2);
        w.push(b3);
        proof {
            assert(w@[4 * (wi as int)] == ks_byte(key@, 4 * (wi as int)));
            assert(w@[4 * (wi as int) + 1] == ks_byte(key@, 4 * (wi as int) + 1));
            assert(w@[4 * (wi as int) + 2] == ks_byte(key@, 4 * (wi as int) + 2));
            assert(w@[4 * (wi as int) + 3] == ks_byte(key@, 4 * (wi as int) + 3));
        }
        wi += 1;
    }
    proof {
        assert(w@ =~= ks_seq(key@));
    }
    w
}

/// The four schedule bytes of word wi unfold to the recurrence over the
/// previous word and the word eight back.
proof fn lemma_ks_word(key: Seq<u8>, wi: int)
    requires
        8 <= wi < 60,
    ensures
        forall|r: int|
            0 <= r < 4 ==> #[trigger] ks_byte(key, 4 * wi + r) == ks_byte(key, 4 * wi + r - 32)
                ^ (if wi % 8 == 0 {
                if r == 0 {
                    sbox_spec(ks_byte(key, 4 * wi - 3)) ^ rcon_spec(wi / 8)
                } else if r == 1 {
                    sbox_spec(ks_byte(key, 4 * wi - 2))
                } else if r == 2 {
                    sbox_spec(ks_byte(key, 4 * wi - 1))
                } else {
                    sbox_spec(ks_byte(key, 4 * wi - 4))
                }
            } else if wi % 8 == 4 {
                sbox_spec(ks_byte(key, 4 * wi - 4 + r))
            } else {
                ks_byte(key, 4 * wi - 4 + r)
            }),
{
    assert forall|r: int| 0 <= r < 4 implies #[trigger] ks_byte(key, 4 * wi + r) == ks_byte(
        key,
        4 * wi + r - 32,
    ) ^ (if wi % 8 == 0 {
        if r == 0 {
            sbox_spec(ks_byte(key, 4 * wi - 3)) ^ rcon_spec(wi / 8)
        } else if r == 1 {
            sbox_spec(ks_byte(key, 4 * wi - 2))
        } else if r == 2 {
            sbox_spec(ks_byte(key, 4 * wi - 1))
        } else {
            sbox_spec(ks_byte(key, 4 * wi - 4))
        }
    } else if wi % 8 == 4 {
        sbox_spec(ks_byte(key, 4 * wi - 4 + r))
    } else {
        ks_byte(key, 4 * wi - 4 + r)
    }) by {
        vstd::arithmetic::div_mod::lemma_fundamental_div_mod_converse(4 * wi + r, 4, wi, r);
    }
}

/// Encrypt one 16-byte block under a 32-byte key.
pub fn aes256_block(key: &Vec<u8>, block: &Vec<u8>) -> (r: Vec<u8>)
    requires
        key@.len() == 32,
        block@.len() == 16,
    ensures
        r@.len() == 16,
        r@ == aes256_spec(key@, block@),
{
    let w: Vec<u8> = key_schedule(key);
    let mut st: Vec<u8> = Vec::new();
    let mut i: usize = 0;
    while i < 16
        invariant
            block@.len() == 16,
            i <= 16,
            st@.len() == i,
            forall|j: int| 0 <= j < i ==> st@[j] == block@[j],
        decreases 16 - i,
    {
        st.push(block[i]);
        i += 1;
    }
    proof {
        assert(st@ =~= block@);
    }
    add_round_key(&mut st, &w, 0);
    let ghost start = st@;
    let mut rnd: usize = 1;
    while rnd < 14
        invariant
            1 <= rnd <= 14,
            st@.len() == 16,
            w@.len() == 240,
            w@ == ks_seq(key@),
            st@ == aes_rounds_spec(start, w@, rnd - 1),
        decreases 14 - rnd,
    {
        sub_bytes(&mut st);
        shift_rows(&mut st);
        mix_columns(&mut st);
        add_round_key(&mut st, &w, rnd);
        rnd += 1;
    }
    sub_bytes(&mut st);
    shift_rows(&mut st);
    add_round_key(&mut st, &w, 14);
    st
}

/// XOR the round key for the given round into the state.
fn add_round_key(st: &mut Vec<u8>, w: &Vec<u8>, rnd: usize)
    requires
        old(st)@.len() == 16,
        w@.len() == 240,
        rnd <= 14,
    ensures
        final(st)@.len() == 16,
        final(st)@ == add_rk_spec(old(st)@, w@, rnd as int),
{
    let mut i: usize = 0;
    while i < 16
        invariant
            st@.len() == 16,
            w@.len() == 240,
            rnd <= 14,
            i <= 16,
            forall|j: int| 0 <= j < i ==> st@[j] == old(st)@[j] ^ w@[16 * rnd + j],
            forall|j: int| i <= j < 16 ==> st@[j] == old(st)@[j],
        decreases 16 - i,
    {
        st.set(i, st[i] ^ w[16 * rnd + i]);
        i += 1;
    }
    proof {
        assert(st@ =~= add_rk_spec(old(st)@, w@, rnd as int));
    }
}

/// Substitute every state byte through the box.
fn sub_bytes(st: &mut Vec<u8>)
    requires
        old(st)@.len() == 16,
    ensures
        final(st)@.len() == 16,
        final(st)@ == subbytes_spec(old(st)@),
{
    let mut i: usize = 0;
    while i < 16
        invariant
            st@.len() == 16,
            i <= 16,
            forall|j: int| 0 <= j < i ==> st@[j] == sbox_spec(old(st)@[j]),
            forall|j: int| i <= j < 16 ==> st@[j] == old(st)@[j],
        decreases 16 - i,
    {
        st.set(i, sbox(st[i]));
        i += 1;
    }
    proof {
        assert(st@ =~= subbytes_spec(old(st)@));
    }
}

/// Rotate row r of the state left by r positions.
fn shift_rows(st: &mut Vec<u8>)
    requires
        old(st)@.len() == 16,
    ensures
        final(st)@.len() == 16,
        final(st)@ == shiftrows_spec(old(st)@),
{
    let mut tmp: Vec<u8> = Vec::new();
    let mut i: usize = 0;
    while i < 16
        invariant
            st@.len() == 16,
            st@ == old(st)@,
            i <= 16,
            tmp@.len() == i,
            forall|j: int| 0 <= j < i ==> tmp@[j] == old(st)@[j],
        decreases 16 - i,
    {
        tmp.push(st[i]);
        i += 1;
    }
    let mut r: usize = 1;
    while r < 4
        invariant
            1 <= r <= 4,
            st@.len() == 16,
            tmp@.len() == 16,
            forall|j: int| 0 <= j < 16 ==> tmp@[j] == old(st)@[j],
            forall|j: int| 0 <= j < 16 && j % 4 < r ==> st@[j] == old(st)@[shiftrow_src(j)],
            forall|j: int| 0 <= j < 16 && j % 4 >= r ==> st@[j] == old(st)@[j],
        decreases 4 - r,
    {
        let mut c: usize = 0;
        while c < 4
            invariant
                1 <= r < 4,
                c <= 4,
                st@.len() == 16,
                tmp@.len() == 16,
                forall|j: int| 0 <= j < 16 ==> tmp@[j] == old(st)@[j],
                forall|j: int| 0 <= j < 16 && j % 4 < r ==> st@[j] == old(st)@[shiftrow_src(j)],
                forall|j: int|
                    0 <= j < 16 && j % 4 == r && j / 4 < c ==> st@[j] == old(st)@[shiftrow_src(
                        j,
                    )],
                forall|j: int|
                    0 <= j < 16 && (j % 4 > r || (j % 4 == r && j / 4 >= c)) ==> st@[j] == old(
                        st,
                    )@[j],
            decreases 4 - c,
        {
            st.set(r + 4 * c, tmp[r + 4 * ((c + r) % 4)]);
            proof {
                vstd::arithmetic::div_mod::lemma_fundamental_div_mod_converse(
                    (r + 4 * c) as int,
                    4,
                    c as int,
                    r as int,
                );
            }
            c += 1;
        }
        r += 1;
    }
    proof {
        assert forall|j: int| 0 <= j < 16 implies st@[j] == shiftrows_spec(old(st)@)[j] by {
            if j % 4 == 0 {
                assert(shiftrow_src(j) == j);
            }
        }
        assert(st@ =~= shiftrows_spec(old(st)@));
    }
}

/// Mix each column of the state through the cipher's linear map.
fn mix_columns(st: &mut Vec<u8>)
    requires
        old(st)@.len() == 16,
    ensures
        final(st)@.len() == 16,
        final(st)@ == mixcol_spec(old(st)@),
{
    let mut c: usize = 0;
    while c < 4
        invariant
            c <= 4,
            st@.len() == 16,
            forall|j: int| 0 <= j < 16 && j / 4 < c ==> st@[j] == mixcol_spec(old(st)@)[j],
            forall|j: int| 0 <= j < 16 && j / 4 >= c ==> st@[j] == old(st)@[j],
        decreases 4 - c,
    {
        let a0: u8 = st[4 * c];
        let a1: u8 = st[4 * c + 1];
        let a2: u8 = st[4 * c + 2];
        let a3: u8 = st[4 * c + 3];
        st.set(4 * c, xtime(a0) ^ (xtime(a1) ^ a1) ^ a2 ^ a3);
        st.set(4 * c + 1, a0 ^ xtime(a1) ^ (xtime(a2) ^ a2) ^ a3);
        st.set(4 * c + 2, a0 ^ a1 ^ xtime(a2) ^ (xtime(a3) ^ a3));
        st.set(4 * c + 3, (xtime(a0) ^ a0) ^ a1 ^ a2 ^ xtime(a3));
        proof {
            vstd::arithmetic::div_mod::lemma_fundamental_div_mod_converse(
                4 * (c as int),
                4,
                c as int,
                0,
            );
            vstd::arithmetic::div_mod::lemma_fundamental_div_mod_converse(
                4 * (c as int) + 1,
                4,
                c as int,
                1,
            );
            vstd::arithmetic::div_mod::lemma_fundamental_div_mod_converse(
                4 * (c as int) + 2,
                4,
                c as int,
                2,
            );
            vstd::arithmetic::div_mod::lemma_fundamental_div_mod_converse(
                4 * (c as int) + 3,
                4,
                c as int,
                3,
            );
        }
        c += 1;
    }
    proof {
        assert(st@ =~= mixcol_spec(old(st)@));
    }
}

} // verus!
