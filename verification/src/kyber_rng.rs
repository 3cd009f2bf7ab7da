//! The deterministic bit generator that drives all randomness: a
//! counter-mode construction over the 256-bit block cipher, following the
//! standard derivationless instantiation, with explicit seeding, reseeding
//! and a reseed counter whose exhaustion is a reported error.  The key,
//! counter and output bytes are pinned to a specification-level model, so
//! identical seeds provably give identical streams.

use vstd::prelude::*;
use crate::aes256ctr::{aes256_block, aes256_spec};
use crate::errors::KemError;

verus! {

/// Generate calls allowed between reseeds.
pub const RESEED_LIMIT: u64 = 0x1_0000_0000_0000;

/// A run of n zero bytes.
pub open spec fn zero_bytes(n: int) -> Seq<u8> {
    Seq::new(n as nat, |i: int| 0u8)
}

/// A big-endian increment of the counter block.
pub open spec fn inc_v_spec(v: Seq<u8>) -> Seq<u8>
    decreases v.len(),
{
    if v.len() == 0 {
        v
    } else if v.last() == 0xff {
        inc_v_spec(v.drop_last()).push(0)
    } else {
        v.update(v.len() - 1, (v.last() + 1) as u8)
    }
}

/// The provided data folded into the first bytes of a block.
pub open spec fn xor_into(t: Seq<u8>, p: Seq<u8>) -> Seq<u8> {
    Seq::new(
        t.len(),
        |i: int|
            if i < p.len() {
                (t[i] ^ p[i]) as u8
            } else {
                t[i]
            },
    )
}

/// The 48 bytes the update step derives before folding in provided data:
/// three successive counter blocks encrypted under the current key.
pub open spec fn update_temp(key: Seq<u8>, v: Seq<u8>, provided: Seq<u8>) -> Seq<u8> {
    let v1 = inc_v_spec(v);
    let v2 = inc_v_spec(v1);
    let v3 = inc_v_spec(v2);
    xor_into(aes256_spec(key, v1) + aes256_spec(key, v2) + aes256_spec(key, v3), provided)
}

/// The key after an update step.
pub open spec fn update_key_spec(key: Seq<u8>, v: Seq<u8>, provided: Seq<u8>) -> Seq<u8> {
    update_temp(key, v, provided).subrange(0, 32)
}

/// The counter after an update step.
pub open spec fn update_v_spec(key: Seq<u8>, v: Seq<u8>, provided: Seq<u8>) -> Seq<u8> {
    update_temp(key, v, provided).subrange(32, 48)
}

/// The first seed material: entropy XORed with an optional
/// personalization string.
pub open spec fn seed_material_spec(entropy: Seq<u8>, personalization: Option<Seq<u8>>)
    -> Seq<u8> {
    match personalization {
        Option::Some(p) => xor_into(entropy, p),
        Option::None => entropy,
    }
}

/// The generator's `n` output bytes from a given key and counter: each
/// block increments the counter and encrypts it.
pub open spec fn drbg_stream(key: Seq<u8>, v: Seq<u8>, n: int) -> Seq<u8>
    decreases n,
{
    if n <= 0 {
        Seq::empty()
    } else {
        let v1 = inc_v_spec(v);
        let m = if n <= 16 {
            n
        } else {
            16
        };
        aes256_spec(key, v1).subrange(0, m) + drbg_stream(key, v1, n - m)
    }
}

/// The counter after the blocks of an `n`-byte generate call.
pub open spec fn v_after_gen(v: Seq<u8>, n: int) -> Seq<u8>
    decreases n,
{
    if n <= 0 {
        v
    } else {
        let m = if n <= 16 {
            n
        } else {
            16
        };
        v_after_gen(inc_v_spec(v), n - m)
    }
}

/// The generator's state: cipher key, counter block, and bookkeeping.
pub struct KyberRng {
    pub key: Vec<u8>,
    pub v: Vec<u8>,
    pub reseed_counter: u64,
    pub security_strength: u32,
    pub is_seeded: bool,
}

impl KyberRng {
    /// Structural well-formedness: a 32-byte key and a 16-byte counter.
    pub open spec fn wf(self) -> bool {
        &&& self.key@.len() == 32
        &&& self.v@.len() == 16
    }

    /// Whether the generator has been seeded and may generate.
    pub open spec fn seeded(self) -> bool {
        self.is_seeded
    }

    /// A fresh, unseeded generator.
    pub fn new() -> (r: KyberRng)
        ensures
            r.wf(),
            !r.seeded(),
            r.key@ == zero_bytes(32),
            r.v@ == zero_bytes(16),
            r.reseed_counter == 0,
    {
        let key: Vec<u8> = zero_vec(32);
        let v: Vec<u8> = zero_vec(16);
        KyberRng { key, v, reseed_counter: 0, security_strength: 0, is_seeded: false }
    }

    /// Increment the counter block as a big-endian 128-bit integer.
    fn increment_v(&mut self)
        requires
            old(self).wf(),
        ensures
            final(self).wf(),
            final(self).v@ == inc_v_spec(old(self).v@),
            final(self).key == old(self).key,
            final(self).reseed_counter == old(self).reseed_counter,
            final(self).security_strength == old(self).security_strength,
            final(self).is_seeded == old(self).is_seeded,
    {
        let ghost v0 = self.v@;
        proof {
            assert(v0.subrange(0, 16) =~= v0);
            assert(v0.subrange(0, 16) + zero_bytes(0) =~= v0);
            assert(inc_v_spec(v0.subrange(0, 16)) + zero_bytes(0) =~= inc_v_spec(v0));
        }
        let mut j: usize = 16;
        let mut done: bool = false;
        while j > 0
            invariant
                self.wf(),
                j <= 16,
                self.key == old(self).key,
                self.reseed_counter == old(self).reseed_counter,
                self.security_strength == old(self).security_strength,
                self.is_seeded == old(self).is_seeded,
                v0 == old(self).v@,
                v0.len() == 16,
                !done ==> self.v@ == v0.subrange(0, j as int) + zero_bytes(16 - j),
                !done ==> forall|t: int| j <= t < 16 ==> v0[t] == 0xff,
                !done ==> inc_v_spec(v0) == inc_v_spec(v0.subrange(0, j as int)) + zero_bytes(
                    16 - j,
                ),
                done ==> self.v@ == inc_v_spec(v0),
            decreases j,
        {
            j -= 1;
            if !done {
                if self.v[j] == 0xff {
                    self.v.set(j, 0);
                    proof {
                        let pre = v0.subrange(0, j + 1);
                        assert(v0[j as int] == 0xff);
                        assert(pre.last() == 0xff);
                        assert(pre.drop_last() =~= v0.subrange(0, j as int));
                        assert(inc_v_spec(pre) == inc_v_spec(v0.subrange(0, j as int)).push(0));
                        assert(inc_v_spec(v0.subrange(0, j as int)) + zero_bytes(16 - j)
                            =~= inc_v_spec(pre) + zero_bytes(16 - (j + 1)));
                        assert(self.v@ =~= v0.subrange(0, j as int) + zero_bytes(16 - j));
                    }
                } else {
                    let b: u8 = self.v[j];
                    self.v.set(j, b + 1);
                    proof {
                        let pre = v0.subrange(0, j + 1);
                        assert(pre.last() == b && b != 0xff);
                        assert(inc_v_spec(pre) == pre.update(j as int, (b + 1) as u8));
                        assert(self.v@ =~= inc_v_spec(pre) + zero_bytes(16 - (j + 1)));
                        assert(self.v@ == inc_v_spec(v0));
                    }
                    done = true;
                }
            }
        }
        proof {
            if !done {
                assert(inc_v_spec(v0.subrange(0, 0)) =~= Seq::<u8>::empty());
                assert(self.v@ == inc_v_spec(v0));
            }
        }
    }

    /// The update step: encrypt three successive counter blocks, fold in
    /// up to 48 bytes of provided data, and split the result into the new
    /// key and counter.
    fn update(&mut self, provided: &Vec<u8>)
        requires
            old(self).wf(),
            provided@.len() <= 48,
        ensures
            final(self).wf(),
            final(self).key@ == update_key_spec(old(self).key@, old(self).v@, provided@),
            final(self).v@ == update_v_spec(old(self).key@, old(self).v@, provided@),
            final(self).reseed_counter == old(self).reseed_counter,
            final(self).security_strength == old(self).security_strength,
            final(self).is_seeded == old(self).is_seeded,
    {
        let ghost key0 = self.key@;
        let ghost v0 = self.v@;
        self.increment_v();
        let mut temp: Vec<u8> = aes256_block(&self.key, &self.v);
        self.increment_v();
        let mut block2: Vec<u8> = aes256_block(&self.key, &self.v);
        temp.append(&mut block2);
        self.increment_v();
        let mut block3: Vec<u8> = aes256_block(&self.key, &self.v);
        temp.append(&mut block3);
        proof {
            assert(temp@ =~= aes256_spec(key0, inc_v_spec(v0)) + aes256_spec(
                key0,
                inc_v_spec(inc_v_spec(v0)),
            ) + aes256_spec(key0, inc_v_spec(inc_v_spec(inc_v_spec(v0)))));
        }
        let ghost raw = temp@;
        let mut i: usize = 0;
        while i < provided.len()
            invariant
                temp@.len() == 48,
                provided@.len() <= 48,
                i <= provided@.len(),
                forall|t: int| 0 <= t < i ==> temp@[t] == (raw[t] ^ provided@[t]) as u8,
                forall|t: int| i <= t < 48 ==> temp@[t] == raw[t],
            decreases provided@.len() - i,
        {
            temp.set(i, temp[i] ^ provided[i]);
            i += 1;
        }
        proof {
            assert(temp@ =~= xor_into(raw, provided@));
        }
        let mut newkey: Vec<u8> = Vec::new();
        let mut i: usize = 0;
        while i < 32
            invariant
                temp@.len() == 48,
                i <= 32,
                newkey@.len() == i,
                forall|t: int| 0 <= t < i ==> newkey@[t] == temp@[t],
            decreases 32 - i,
        {
            newkey.push(temp[i]);
            i += 1;
        }
        let mut newv: Vec<u8> = Vec::new();
        let mut i: usize = 32;
        while i < 48
            invariant
                temp@.len() == 48,
                32 <= i <= 48,
                newv@.len() == i - 32,
                forall|t: int| 0 <= t < i - 32 ==> newv@[t] == temp@[32 + t],
            decreases 48 - i,
        {
            newv.push(temp[i]);
            i += 1;
        }
        self.key = newkey;
        self.v = newv;
        proof {
            assert(self.key@ =~= update_key_spec(key0, v0, provided@));
            assert(self.v@ =~= update_v_spec(key0, v0, provided@));
        }
    }

    /// Seed the generator: the 48-byte entropy input, XORed with an
    /// optional personalization string, becomes the first seed material
    /// for an update of the all-zero state.  Entropy of any other length
    /// is an input-shape error; a requested strength other than 256 is a
    /// configuration error.
    pub fn randombytes_init(
        &mut self,
        entropy_input: Vec<u8>,
        personalization_string: Option<Vec<u8>>,
        security_strength: u32,
    ) -> (r: Result<(), KemError>)
        requires
            old(self).wf(),
        ensures
            final(self).wf(),
            r is Ok <==> entropy_input@.len() == 48 && security_strength == 256,
            r is Err ==> *final(self) == *old(self),
            entropy_input@.len() != 48 ==> r == Result::<(), KemError>::Err(
                KemError::InvalidInputLength,
            ),
            entropy_input@.len() == 48 && security_strength != 256 ==> r == Result::<
                (),
                KemError,
            >::Err(KemError::InvalidSecurityLevel),
            r is Ok ==> ({
                let seed = seed_material_spec(
                    entropy_input@,
                    personalization_string.deep_view(),
                );
                &&& final(self).seeded()
                &&& final(self).reseed_counter == 1
                &&& final(self).security_strength == 256
                &&& final(self).key@ == update_key_spec(zero_bytes(32), zero_bytes(16), seed)
                &&& final(self).v@ == update_v_spec(zero_bytes(32), zero_bytes(16), seed)
            }),
    {
        if entropy_input.len() != 48 {
            return Err(KemError::InvalidInputLength);
        }
        if security_strength != 256 {
            return Err(KemError::InvalidSecurityLevel);
        }
        let mut seed: Vec<u8> = entropy_input;
        let ghost e0 = seed@;
        match personalization_string {
            Some(ps) => {
                let mut i: usize = 0;
                let n: usize = if ps.len() < 48 {
                    ps.len()
                } else {
                    48
                };
                while i < n
                    invariant
                        seed@.len() == 48,
                        n <= ps@.len(),
                        n <= 48,
                        n == if ps@.len() < 48 {
                            ps@.len() as int
                        } else {
                            48
                        },
                        i <= n,
                        forall|t: int| 0 <= t < i ==> seed@[t] == (e0[t] ^ ps@[t]) as u8,
                        forall|t: int| i <= t < 48 ==> seed@[t] == e0[t],
                    decreases n - i,
                {
                    seed.set(i, seed[i] ^ ps[i]);
                    i += 1;
                }
                proof {
                    assert(seed@ =~= xor_into(e0, ps@));
                }
            },
            None => {},
        }
        self.key = zero_vec(32);
        self.v = zero_vec(16);
        proof {
            assert(self.key@ =~= zero_bytes(32));
            assert(self.v@ =~= zero_bytes(16));
        }
        self.update(&seed);
        self.reseed_counter = 1;
        self.security_strength = 256;
        self.is_seeded = true;
        Ok(())
    }

    /// Reseed a seeded generator with fresh 48-byte entropy: the update
    /// step applied to the current state, resetting the reseed counter.
    pub fn reseed(&mut self, entropy_input: Vec<u8>) -> (r: Result<(), KemError>)
        requires
            old(self).wf(),
            old(self).seeded(),
        ensures
            final(self).wf(),
            r is Ok <==> entropy_input@.len() == 48,
            r is Err ==> *final(self) == *old(self) && r == Result::<(), KemError>::Err(
                KemError::InvalidInputLength,
            ),
            r is Ok ==> ({
                &&& final(self).seeded()
                &&& final(self).reseed_counter == 1
                &&& final(self).key@ == update_key_spec(
                    old(self).key@,
                    old(self).v@,
                    entropy_input@,
                )
                &&& final(self).v@ == update_v_spec(old(self).key@, old(self).v@, entropy_input@)
            }),
    {
        if entropy_input.len() != 48 {
            return Err(KemError::InvalidInputLength);
        }
        self.update(&entropy_input);
        self.reseed_counter = 1;
        Ok(())
    }

    /// Produce `n` pseudorandom bytes and advance the state: the bytes are
    /// the counter-mode keystream of the current key, and the state then
    /// passes through an update without provided data.  Exceeding the
    /// reseed limit is the generator-exhaustion error and leaves the state
    /// unchanged; it is the only failure.
    pub fn randombytes(&mut self, n: usize) -> (r: Result<Vec<u8>, KemError>)
        requires
            old(self).wf(),
            old(self).seeded(),
        ensures
            final(self).wf(),
            final(self).seeded(),
            r is Ok <==> old(self).reseed_counter <= RESEED_LIMIT,
            r is Err ==> *final(self) == *old(self) && r == Result::<Vec<u8>, KemError>::Err(
                KemError::DrbgExhausted,
            ),
            r is Ok ==> ({
                let vg = v_after_gen(old(self).v@, n as int);
                &&& r->Ok_0@.len() == n
                &&& r->Ok_0@ == drbg_stream(old(self).key@, old(self).v@, n as int)
                &&& final(self).key@ == update_key_spec(old(self).key@, vg, Seq::empty())
                &&& final(self).v@ == update_v_spec(old(self).key@, vg, Seq::empty())
                &&& final(self).reseed_counter == old(self).reseed_counter + 1
            }),
    {
        if self.reseed_counter > RESEED_LIMIT {
            return Err(KemError::DrbgExhausted);
        }
        let ghost key0 = self.key@;
        let ghost v0 = self.v@;
        let mut out: Vec<u8> = Vec::new();
        let mut produced: usize = 0;
        while produced < n
            invariant
                self.wf(),
                produced == out@.len(),
                produced <= n,
                self.key@ == key0,
                self.reseed_counter == old(self).reseed_counter,
                self.security_strength == old(self).security_strength,
                self.is_seeded == old(self).is_seeded,
                drbg_stream(key0, v0, n as int) == out@ + drbg_stream(
                    key0,
                    self.v@,
                    n - produced,
                ),
                v_after_gen(v0, n as int) == v_after_gen(self.v@, n - produced),
            decreases n - produced,
        {
            let ghost outentry = out@;
            let ghost vprev = self.v@;
            self.increment_v();
            let block: Vec<u8> = aes256_block(&self.key, &self.v);
            let ghost m: int = if n - outentry.len() <= 16 {
                n - outentry.len()
            } else {
                16
            };
            let mut i: usize = 0;
            while i < 16 && produced < n
                invariant
                    self.wf(),
                    block@.len() == 16,
                    i <= 16,
                    m == (if n - outentry.len() <= 16 {
                        n - outentry.len()
                    } else {
                        16
                    }),
                    produced == out@.len(),
                    produced == outentry.len() + i || (produced == n && i <= m),
                    produced <= n,
                    out@ == outentry + block@.subrange(0, i as int),
                decreases 16 - i,
            {
                out.push(block[i]);
                proof {
                    assert(out@ =~= outentry + block@.subrange(0, i + 1));
                }
                produced += 1;
                i += 1;
            }
            proof {
                assert(i == m);
                assert(drbg_stream(key0, vprev, n - outentry.len()) == aes256_spec(
                    key0,
                    self.v@,
                ).subrange(0, m) + drbg_stream(key0, self.v@, n - outentry.len() - m));
                assert(out@ + drbg_stream(key0, self.v@, n - produced) =~= outentry
                    + drbg_stream(key0, vprev, n - outentry.len()));
            }
        }
        let empty: Vec<u8> = Vec::new();
        self.update(&empty);
        self.reseed_counter = self.reseed_counter + 1;
        proof {
            assert(out@ =~= drbg_stream(key0, v0, n as int));
            assert(empty@ =~= Seq::<u8>::empty());
        }
        Ok(out)
    }
}

/// A vector of n zero bytes.
fn zero_vec(n: usize) -> (r: Vec<u8>)
    ensures
        r@.len() == n,
        r@ == zero_bytes(n as int),
{
    let mut v: Vec<u8> = Vec::new();
    let mut i: usize = 0;
    while i < n
        invariant
            i <= n,
            v@.len() == i,
            forall|j: int| 0 <= j < i ==> v@[j] == 0,
        decreases n - i,
    {
        v.push(0);
        i += 1;
    }
    proof {
        assert(v@ =~= zero_bytes(n as int));
    }
    v
}

} // verus!
