//! Byte serialization of polynomials: the 12-bit encoding of full
//! coefficients, the packed encodings of compressed coefficients at each
//! width the scheme uses, and the message encoding that maps 256 bits to
//! and from a polynomial.

use vstd::prelude::*;
use crate::cbd::stream_bit;
use crate::poly::{coeffs_wf, spec_compress, Domain, Poly};
use crate::reduce;

verus! {

/// Byte j of the 12-bit encoding: two coefficients fill three bytes.
pub open spec fn bytes12_at(c: Seq<u16>, j: int) -> u8 {
    let g = j / 3;
    if j % 3 == 0 {
        c[2 * g] as u8
    } else if j % 3 == 1 {
        ((c[2 * g] >> 8) | (c[2 * g + 1] << 4)) as u8
    } else {
        (c[2 * g + 1] >> 4) as u8
    }
}

/// Coefficient i as read back from a 12-bit encoding, before reduction.
pub open spec fn dec12_at(b: Seq<u8>, i: int) -> u16 {
    let g = i / 2;
    if i % 2 == 0 {
        (b[3 * g] as u16) | (((b[3 * g + 1] as u16) & 0xf) << 8)
    } else {
        ((b[3 * g + 1] as u16) >> 4) | ((b[3 * g + 2] as u16) << 4)
    }
}

/// Serialize a polynomial to 384 bytes, 12 bits per coefficient.
pub fn poly_tobytes(p: &Poly) -> (r: Vec<u8>)
    requires
        p.wf(),
    ensures
        r@.len() == 384,
        forall|j: int| 0 <= j < 384 ==> r@[j] == bytes12_at(p.coeffs@, j),
{
    let mut out: Vec<u8> = Vec::new();
    let mut j: usize = 0;
    while j < 384
        invariant
            p.wf(),
            j <= 384,
            out@.len() == j,
            forall|jj: int| 0 <= jj < j ==> out@[jj] == bytes12_at(p.coeffs@, jj),
        decreases 384 - j,
    {
        let g: usize = j / 3;
        proof {
            assert(g < 128) by (nonlinear_arith)
                requires
                    g == j / 3,
                    j < 384,
            ;
        }
        let byte: u8 = if j % 3 == 0 {
            #[verifier::truncate] (p.coeffs[2 * g] as u8)
        } else if j % 3 == 1 {
            #[verifier::truncate] (((p.coeffs[2 * g] >> 8) | (p.coeffs[2 * g + 1] << 4)) as u8)
        } else {
            #[verifier::truncate] ((p.coeffs[2 * g + 1] >> 4) as u8)
        };
        out.push(byte);
        j += 1;
    }
    out
}

/// Read a polynomial back from its 12-bit encoding; each 12-bit value is
/// reduced into [0, q) by conditional subtraction.
pub fn poly_frombytes(b: &Vec<u8>, domain: Domain) -> (r: Poly)
    requires
        b@.len() == 384,
    ensures
        r.wf(),
        r.domain == domain,
        r.coeffs@ == frombytes_seq(b@),
        forall|i: int|
            0 <= i < 256 ==> r.coeffs@[i] == if dec12_at(b@, i) >= 3329 {
                dec12_at(b@, i) - 3329
            } else {
                dec12_at(b@, i) as int
            },
{
    let mut coeffs: Vec<u16> = Vec::new();
    let mut i: usize = 0;
    while i < 256
        invariant
            b@.len() == 384,
            i <= 256,
            coeffs@.len() == i,
            forall|ii: int| 0 <= ii < i ==> coeffs@[ii] < 3329,
            forall|ii: int|
                0 <= ii < i ==> coeffs@[ii] == if dec12_at(b@, ii) >= 3329 {
                    dec12_at(b@, ii) - 3329
                } else {
                    dec12_at(b@, ii) as int
                },
        decreases 256 - i,
    {
        let g: usize = i / 2;
        let lo: u8 = b[3 * g];
        let mid: u8 = b[3 * g + 1];
        let hi: u8 = b[3 * g + 2];
        let v: u16 = if i % 2 == 0 {
            (lo as u16) | (((mid as u16) & 0xf) << 8)
        } else {
            ((mid as u16) >> 4) | ((hi as u16) << 4)
        };
        proof {
            assert(((lo as u16) | (((mid as u16) & 0xf) << 8)) < 4096) by (bit_vector);
            assert((((mid as u16) >> 4) | ((hi as u16) << 4)) < 4096) by (bit_vector);
        }
        let c: u16 = reduce::csubq(v as i16) as u16;
        coeffs.push(c);
        i += 1;
    }
    proof {
        assert(coeffs@ =~= frombytes_seq(b@));
    }
    Poly { coeffs, domain }
}

/// The whole polynomial read back from a 12-bit encoding, reduced.
pub open spec fn frombytes_seq(b: Seq<u8>) -> Seq<u16> {
    Seq::new(
        256,
        |i: int|
            if dec12_at(b, i) >= 3329 {
                (dec12_at(b, i) - 3329) as u16
            } else {
                dec12_at(b, i)
            },
    )
}

/// Reading back the 12-bit encoding of a well-formed polynomial recovers
/// every coefficient exactly: serialization of full coefficients is
/// lossless.
pub proof fn lemma_bytes12_roundtrip(c: Seq<u16>, b: Seq<u8>)
    requires
        coeffs_wf(c),
        b.len() == 384,
        forall|j: int| 0 <= j < 384 ==> b[j] == bytes12_at(c, j),
    ensures
        forall|i: int| 0 <= i < 256 ==> dec12_at(b, i) == c[i],
{
    assert forall|i: int| 0 <= i < 256 implies dec12_at(b, i) == c[i] by {
        let g = i / 2;
        vstd::arithmetic::div_mod::lemma_fundamental_div_mod(i, 2);
        assert(0 <= g < 128);
        let t0 = c[2 * g];
        let t1 = c[2 * g + 1];
        assert(b[3 * g] == bytes12_at(c, 3 * g));
        assert(b[3 * g + 1] == bytes12_at(c, 3 * g + 1));
        assert(b[3 * g + 2] == bytes12_at(c, 3 * g + 2));
        vstd::arithmetic::div_mod::lemma_fundamental_div_mod_converse(3 * g, 3, g, 0);
        vstd::arithmetic::div_mod::lemma_fundamental_div_mod_converse(3 * g + 1, 3, g, 1);
        vstd::arithmetic::div_mod::lemma_fundamental_div_mod_converse(3 * g + 2, 3, g, 2);
        let b0 = b[3 * g];
        let b1 = b[3 * g + 1];
        let b2 = b[3 * g + 2];
        assert(b0 == (t0 as u8) && b1 == (((t0 >> 8) | (t1 << 4)) as u8) && b2 == ((t1 >> 4) as u8));
        if i % 2 == 0 {
            assert(i == 2 * g);
            assert(((b0 as u16) | (((b1 as u16) & 0xf) << 8)) == t0) by (bit_vector)
                requires
                    b0 == (t0 as u8),
                    b1 == (((t0 >> 8) | (t1 << 4)) as u8),
                    t0 < 3329,
                    t1 < 3329,
            ;
        } else {
            assert(i == 2 * g + 1);
            assert((((b1 as u16) >> 4) | ((b2 as u16) << 4)) == t1) by (bit_vector)
                requires
                    b1 == (((t0 >> 8) | (t1 << 4)) as u8),
                    b2 == ((t1 >> 4) as u8),
                    t0 < 3329,
                    t1 < 3329,
            ;
        }
    }
}

/// Byte j of the packed 4-bit encoding: two values per byte.
pub open spec fn bytes4_at(c: Seq<u16>, j: int) -> u8 {
    (c[2 * j] | (c[2 * j + 1] << 4)) as u8
}

/// Value i as read back from the packed 4-bit encoding.
pub open spec fn dec4_at(b: Seq<u8>, i: int) -> u16 {
    let g = i / 2;
    if i % 2 == 0 {
        (b[g] as u16) & 0xf
    } else {
        (b[g] as u16) >> 4
    }
}

/// Byte j of the packed 5-bit encoding: eight values fill five bytes.
pub open spec fn bytes5_at(c: Seq<u16>, j: int) -> u8 {
    let g = j / 5;
    if j % 5 == 0 {
        (c[8 * g] | (c[8 * g + 1] << 5)) as u8
    } else if j % 5 == 1 {
        ((c[8 * g + 1] >> 3) | (c[8 * g + 2] << 2) | (c[8 * g + 3] << 7)) as u8
    } else if j % 5 == 2 {
        ((c[8 * g + 3] >> 1) | (c[8 * g + 4] << 4)) as u8
    } else if j % 5 == 3 {
        ((c[8 * g + 4] >> 4) | (c[8 * g + 5] << 1) | (c[8 * g + 6] << 6)) as u8
    } else {
        ((c[8 * g + 6] >> 2) | (c[8 * g + 7] << 3)) as u8
    }
}

/// Value i as read back from the packed 5-bit encoding.
pub open spec fn dec5_at(b: Seq<u8>, i: int) -> u16 {
    let g = i / 8;
    if i % 8 == 0 {
        (b[5 * g] as u16) & 0x1f
    } else if i % 8 == 1 {
        (((b[5 * g] as u16) >> 5) | ((b[5 * g + 1] as u16) << 3)) & 0x1f
    } else if i % 8 == 2 {
        ((b[5 * g + 1] as u16) >> 2) & 0x1f
    } else if i % 8 == 3 {
        (((b[5 * g + 1] as u16) >> 7) | ((b[5 * g + 2] as u16) << 1)) & 0x1f
    } else if i % 8 == 4 {
        (((b[5 * g + 2] as u16) >> 4) | ((b[5 * g + 3] as u16) << 4)) & 0x1f
    } else if i % 8 == 5 {
        ((b[5 * g + 3] as u16) >> 1) & 0x1f
    } else if i % 8 == 6 {
        (((b[5 * g + 3] as u16) >> 6) | ((b[5 * g + 4] as u16) << 2)) & 0x1f
    } else {
        (b[5 * g + 4] as u16) >> 3
    }
}

/// Byte j of the packed 10-bit encoding: four values fill five bytes.
pub open spec fn bytes10_at(c: Seq<u16>, j: int) -> u8 {
    let g = j / 5;
    if j % 5 == 0 {
        c[4 * g] as u8
    } else if j % 5 == 1 {
        ((c[4 * g] >> 8) | (c[4 * g + 1] << 2)) as u8
    } else if j % 5 == 2 {
        ((c[4 * g + 1] >> 6) | (c[4 * g + 2] << 4)) as u8
    } else if j % 5 == 3 {
        ((c[4 * g + 2] >> 4) | (c[4 * g + 3] << 6)) as u8
    } else {
        (c[4 * g + 3] >> 2) as u8
    }
}

/// Value i as read back from the packed 10-bit encoding.
pub open spec fn dec10_at(b: Seq<u8>, i: int) -> u16 {
    let g = i / 4;
    if i % 4 == 0 {
        ((b[5 * g] as u16) | ((b[5 * g + 1] as u16) << 8)) & 0x3ff
    } else if i % 4 == 1 {
        (((b[5 * g + 1] as u16) >> 2) | ((b[5 * g + 2] as u16) << 6)) & 0x3ff
    } else if i % 4 == 2 {
        (((b[5 * g + 2] as u16) >> 4) | ((b[5 * g + 3] as u16) << 4)) & 0x3ff
    } else {
        (((b[5 * g + 3] as u16) >> 6) | ((b[5 * g + 4] as u16) << 2)) & 0x3ff
    }
}

/// Byte j of the packed 11-bit encoding: eight values fill eleven bytes.
pub open spec fn bytes11_at(c: Seq<u16>, j: int) -> u8 {
    let g = j / 11;
    if j % 11 == 0 {
        c[8 * g] as u8
    } else if j % 11 == 1 {
        ((c[8 * g] >> 8) | (c[8 * g + 1] << 3)) as u8
    } else if j % 11 == 2 {
        ((c[8 * g + 1] >> 5) | (c[8 * g + 2] << 6)) as u8
    } else if j % 11 == 3 {
        (c[8 * g + 2] >> 2) as u8
    } else if j % 11 == 4 {
        ((c[8 * g + 2] >> 10) | (c[8 * g + 3] << 1)) as u8
    } else if j % 11 == 5 {
        ((c[8 * g + 3] >> 7) | (c[8 * g + 4] << 4)) as u8
    } else if j % 11 == 6 {
        ((c[8 * g + 4] >> 4) | (c[8 * g + 5] << 7)) as u8
    } else if j % 11 == 7 {
        (c[8 * g + 5] >> 1) as u8
    } else if j % 11 == 8 {
        ((c[8 * g + 5] >> 9) | (c[8 * g + 6] << 2)) as u8
    } else if j % 11 == 9 {
        ((c[8 * g + 6] >> 6) | (c[8 * g + 7] << 5)) as u8
    } else {
        (c[8 * g + 7] >> 3) as u8
    }
}

/// Value i as read back from the packed 11-bit encoding.
pub open spec fn dec11_at(b: Seq<u8>, i: int) -> u16 {
    let g = i / 8;
    if i % 8 == 0 {
        ((b[11 * g] as u16) | ((b[11 * g + 1] as u16) << 8)) & 0x7ff
    } else if i % 8 == 1 {
        (((b[11 * g + 1] as u16) >> 3) | ((b[11 * g + 2] as u16) << 5)) & 0x7ff
    } else if i % 8 == 2 {
        (((b[11 * g + 2] as u16) >> 6) | ((b[11 * g + 3] as u16) << 2) | ((b[11 * g + 4] as u16)
            << 10)) & 0x7ff
    } else if i % 8 == 3 {
        (((b[11 * g + 4] as u16) >> 1) | ((b[11 * g + 5] as u16) << 7)) & 0x7ff
    } else if i % 8 == 4 {
        (((b[11 * g + 5] as u16) >> 4) | ((b[11 * g + 6] as u16) << 4)) & 0x7ff
    } else if i % 8 == 5 {
        (((b[11 * g + 6] as u16) >> 7) | ((b[11 * g + 7] as u16) << 1) | ((b[11 * g + 8] as u16)
            << 9)) & 0x7ff
    } else if i % 8 == 6 {
        (((b[11 * g + 8] as u16) >> 2) | ((b[11 * g + 9] as u16) << 6)) & 0x7ff
    } else {
        (((b[11 * g + 9] as u16) >> 5) | ((b[11 * g + 10] as u16) << 3)) & 0x7ff
    }
}

/// Pack 256 d-bit values into 32 * d bytes, for the widths the scheme
/// compresses to.
pub fn pack_bits(vals: &Vec<u16>, d: u32) -> (r: Vec<u8>)
    requires
        d == 4 || d == 5 || d == 10 || d == 11,
        vals@.len() == 256,
        forall|i: int| 0 <= i < 256 ==> vals@[i] < (1u16 << d),
    ensures
        r@.len() == 32 * d,
        d == 4 ==> forall|j: int| 0 <= j < 128 ==> r@[j] == bytes4_at(vals@, j),
        d == 5 ==> forall|j: int| 0 <= j < 160 ==> r@[j] == bytes5_at(vals@, j),
        d == 10 ==> forall|j: int| 0 <= j < 320 ==> r@[j] == bytes10_at(vals@, j),
        d == 11 ==> forall|j: int| 0 <= j < 352 ==> r@[j] == bytes11_at(vals@, j),
{
    let mut out: Vec<u8> = Vec::new();
    let total: usize = 32 * (d as usize);
    let mut j: usize = 0;
    while j < total
        invariant
            d == 4 || d == 5 || d == 10 || d == 11,
            vals@.len() == 256,
            total == 32 * d,
            j <= total,
            out@.len() == j,
            d == 4 ==> forall|jj: int| 0 <= jj < j ==> out@[jj] == bytes4_at(vals@, jj),
            d == 5 ==> forall|jj: int| 0 <= jj < j ==> out@[jj] == bytes5_at(vals@, jj),
            d == 10 ==> forall|jj: int| 0 <= jj < j ==> out@[jj] == bytes10_at(vals@, jj),
            d == 11 ==> forall|jj: int| 0 <= jj < j ==> out@[jj] == bytes11_at(vals@, jj),
        decreases total - j,
    {
        let byte: u8 = if d == 4 {
            #[verifier::truncate] ((vals[2 * j] | (vals[2 * j + 1] << 4)) as u8)
        } else if d == 5 {
            let g: usize = j / 5;
            proof {
                assert(g < 32) by (nonlinear_arith)
                    requires
                        g == j / 5,
                        j < 160,
                ;
            }
            let m: usize = j % 5;
            if m == 0 {
                #[verifier::truncate] ((vals[8 * g] | (vals[8 * g + 1] << 5)) as u8)
            } else if m == 1 {
                #[verifier::truncate] (((vals[8 * g + 1] >> 3) | (vals[8 * g + 2] << 2) | (
                vals[8 * g + 3] << 7)) as u8)
            } else if m == 2 {
                #[verifier::truncate] (((vals[8 * g + 3] >> 1) | (vals[8 * g + 4] << 4)) as u8)
            } else if m == 3 {
                #[verifier::truncate] (((vals[8 * g + 4] >> 4) | (vals[8 * g + 5] << 1) | (
                vals[8 * g + 6] << 6)) as u8)
            } else {
                #[verifier::truncate] (((vals[8 * g + 6] >> 2) | (vals[8 * g + 7] << 3)) as u8)
            }
        } else if d == 10 {
            let g: usize = j / 5;
            proof {
                assert(g < 64) by (nonlinear_arith)
                    requires
                        g == j / 5,
                        j < 320,
                ;
            }
            let m: usize = j % 5;
            if m == 0 {
                #[verifier::truncate] (vals[4 * g] as u8)
            } else if m == 1 {
                #[verifier::truncate] (((vals[4 * g] >> 8) | (vals[4 * g + 1] << 2)) as u8)
            } else if m == 2 {
                #[verifier::truncate] (((vals[4 * g + 1] >> 6) | (vals[4 * g + 2] << 4)) as u8)
            } else if m == 3 {
                #[verifier::truncate] (((vals[4 * g + 2] >> 4) | (vals[4 * g + 3] << 6)) as u8)
            } else {
                #[verifier::truncate] ((vals[4 * g + 3] >> 2) as u8)
            }
        } else {
            let g: usize = j / 11;
            proof {
                assert(g < 32) by (nonlinear_arith)
                    requires
                        g == j / 11,
                        j < 352,
                ;
            }
            let m: usize = j % 11;
            if m == 0 {
                #[verifier::truncate] (vals[8 * g] as u8)
            } else if m == 1 {
                #[verifier::truncate] (((vals[8 * g] >> 8) | (vals[8 * g + 1] << 3)) as u8)
            } else if m == 2 {
                #[verifier::truncate] (((vals[8 * g + 1] >> 5) | (vals[8 * g + 2] << 6)) as u8)
            } else if m == 3 {
                #[verifier::truncate] ((vals[8 * g + 2] >> 2) as u8)
            } else if m == 4 {
                #[verifier::truncate] (((vals[8 * g + 2] >> 10) | (vals[8 * g + 3] << 1)) as u8)
            } else if m == 5 {
                #[verifier::truncate] (((vals[8 * g + 3] >> 7) | (vals[8 * g + 4] << 4)) as u8)
            } else if m == 6 {
                #[verifier::truncate] (((vals[8 * g + 4] >> 4) | (vals[8 * g + 5] << 7)) as u8)
            } else if m == 7 {
                #[verifier::truncate] ((vals[8 * g + 5] >> 1) as u8)
            } else if m == 8 {
                #[verifier::truncate] (((vals[8 * g + 5] >> 9) | (vals[8 * g + 6] << 2)) as u8)
            } else if m == 9 {
                #[verifier::truncate] (((vals[8 * g + 6] >> 6) | (vals[8 * g + 7] << 5)) as u8)
            } else {
                #[verifier::truncate] ((vals[8 * g + 7] >> 3) as u8)
            }
        };
        out.push(byte);
        j += 1;
    }
    out
}

/// Unpack 32 * d bytes back into 256 d-bit values.
pub fn unpack_bits(b: &Vec<u8>, d: u32) -> (r: Vec<u16>)
    requires
        d == 4 || d == 5 || d == 10 || d == 11,
        b@.len() == 32 * d,
    ensures
        r@.len() == 256,
        forall|i: int| 0 <= i < 256 ==> r@[i] < (1u16 << d),
        d == 4 ==> forall|i: int| 0 <= i < 256 ==> r@[i] == dec4_at(b@, i),
        d == 5 ==> forall|i: int| 0 <= i < 256 ==> r@[i] == dec5_at(b@, i),
        d == 10 ==> forall|i: int| 0 <= i < 256 ==> r@[i] == dec10_at(b@, i),
        d == 11 ==> forall|i: int| 0 <= i < 256 ==> r@[i] == dec11_at(b@, i),
{
    let mut out: Vec<u16> = Vec::new();
    let mut i: usize = 0;
    while i < 256
        invariant
            d == 4 || d == 5 || d == 10 || d == 11,
            b@.len() == 32 * d,
            i <= 256,
            out@.len() == i,
            forall|ii: int| 0 <= ii < i ==> out@[ii] < (1u16 << d),
            d == 4 ==> forall|ii: int| 0 <= ii < i ==> out@[ii] == dec4_at(b@, ii),
            d == 5 ==> forall|ii: int| 0 <= ii < i ==> out@[ii] == dec5_at(b@, ii),
            d == 10 ==> forall|ii: int| 0 <= ii < i ==> out@[ii] == dec10_at(b@, ii),
            d == 11 ==> forall|ii: int| 0 <= ii < i ==> out@[ii] == dec11_at(b@, ii),
        decreases 256 - i,
    {
        let v: u16 = if d == 4 {
            let g: usize = i / 2;
            if i % 2 == 0 {
                (b[g] as u16) & 0xf
            } else {
                (b[g] as u16) >> 4
            }
        } else if d == 5 {
            let g: usize = i / 8;
            let m: usize = i % 8;
            if m == 0 {
                (b[5 * g] as u16) & 0x1f
            } else if m == 1 {
                (((b[5 * g] as u16) >> 5) | ((b[5 * g + 1] as u16) << 3)) & 0x1f
            } else if m == 2 {
                ((b[5 * g + 1] as u16) >> 2) & 0x1f
            } else if m == 3 {
                (((b[5 * g + 1] as u16) >> 7) | ((b[5 * g + 2] as u16) << 1)) & 0x1f
            } else if m == 4 {
                (((b[5 * g + 2] as u16) >> 4) | ((b[5 * g + 3] as u16) << 4)) & 0x1f
            } else if m == 5 {
                ((b[5 * g + 3] as u16) >> 1) & 0x1f
            } else if m == 6 {
                (((b[5 * g + 3] as u16) >> 6) | ((b[5 * g + 4] as u16) << 2)) & 0x1f
            } else {
                (b[5 * g + 4] as u16) >> 3
            }
        } else if d == 10 {
            let g: usize = i / 4;
            let m: usize = i % 4;
            if m == 0 {
                ((b[5 * g] as u16) | ((b[5 * g + 1] as u16) << 8)) & 0x3ff
            } else if m == 1 {
                (((b[5 * g + 1] as u16) >> 2) | ((b[5 * g + 2] as u16) << 6)) & 0x3ff
            } else if m == 2 {
                (((b[5 * g + 2] as u16) >> 4) | ((b[5 * g + 3] as u16) << 4)) & 0x3ff
            } else {
                (((b[5 * g + 3] as u16) >> 6) | ((b[5 * g + 4] as u16) << 2)) & 0x3ff
            }
        } else {
            let g: usize = i / 8;
            let m: usize = i % 8;
            if m == 0 {
                ((b[11 * g] as u16) | ((b[11 * g + 1] as u16) << 8)) & 0x7ff
            } else if m == 1 {
                (((b[11 * g + 1] as u16) >> 3) | ((b[11 * g + 2] as u16) << 5)) & 0x7ff
            } else if m == 2 {
                (((b[11 * g + 2] as u16) >> 6) | ((b[11 * g + 3] as u16) << 2) | ((b[11 * g
                    + 4] as u16) << 10)) & 0x7ff
            } else if m == 3 {
                (((b[11 * g + 4] as u16) >> 1) | ((b[11 * g + 5] as u16) << 7)) & 0x7ff
            } else if m == 4 {
                (((b[11 * g + 5] as u16) >> 4) | ((b[11 * g + 6] as u16) << 4)) & 0x7ff
            } else if m == 5 {
                (((b[11 * g + 6] as u16) >> 7) | ((b[11 * g + 7] as u16) << 1) | ((b[11 * g
                    + 8] as u16) << 9)) & 0x7ff
            } else if m == 6 {
                (((b[11 * g + 8] as u16) >> 2) | ((b[11 * g + 9] as u16) << 6)) & 0x7ff
            } else {
                (((b[11 * g + 9] as u16) >> 5) | ((b[11 * g + 10] as u16) << 3)) & 0x7ff
            }
        };
        proof {
            lemma_mask_bounds();
        }
        out.push(v);
        i += 1;
    }
    out
}

/// Masking with a d-bit mask, or shifting an 8-bit value right, bounds the
/// result below the matching power of two.
pub proof fn lemma_mask_bounds()
    by (bit_vector)
    ensures
        forall|x: u16| #[trigger] (x & 0xf) < 16,
        forall|x: u16| #[trigger] (x & 0x1f) < 32,
        forall|x: u16| #[trigger] (x & 0x3ff) < 1024,
        forall|x: u16| #[trigger] (x & 0x7ff) < 2048,
        forall|x: u16| x < 256 ==> #[trigger] (x >> 4u32) < 16,
        forall|x: u16| x < 256 ==> #[trigger] (x >> 3u32) < 32,
        (1u16 << 4u32) == 16 && (1u16 << 5u32) == 32 && (1u16 << 10u32) == 1024 && (1u16
            << 11u32) == 2048,
{
}

/// The polynomial a 32-byte message maps to: each bit becomes the nearest
/// representative of 0 or q/2, which is (q + 1) / 2 = 1665.
pub open spec fn msg_poly_spec(m: Seq<u8>) -> Seq<u16> {
    Seq::new(256, |k: int| (1665 * stream_bit(m, k)) as u16)
}

/// Map a 32-byte message into a polynomial: each bit becomes the nearest
/// representative of 0 or q/2, which is (q + 1) / 2 = 1665.
pub fn msg_to_poly(m: &Vec<u8>) -> (r: Poly)
    requires
        m@.len() == 32,
    ensures
        r.wf(),
        r.domain == Domain::Normal,
        r.coeffs@ == msg_poly_spec(m@),
        forall|k: int| 0 <= k < 256 ==> r.coeffs@[k] == 1665 * stream_bit(m@, k),
{
    let mut coeffs: Vec<u16> = Vec::new();
    let mut k: usize = 0;
    while k < 256
        invariant
            m@.len() == 32,
            k <= 256,
            coeffs@.len() == k,
            forall|kk: int| 0 <= kk < k ==> coeffs@[kk] < 3329,
            forall|kk: int| 0 <= kk < k ==> coeffs@[kk] == 1665 * stream_bit(m@, kk),
        decreases 256 - k,
    {
        let byte: u8 = m[k / 8];
        let sh: u32 = (k % 8) as u32;
        let bit: u8 = (byte >> sh) & 1;
        proof {
            assert(bit <= 1) by (bit_vector)
                requires
                    bit == (byte >> sh) & 1,
            ;
            assert(bit == stream_bit(m@, k as int));
        }
        coeffs.push((bit as u16) * 1665);
        k += 1;
    }
    proof {
        assert(coeffs@ =~= msg_poly_spec(m@));
    }
    Poly { coeffs, domain: Domain::Normal }
}

/// Bit j of a byte, counting from the least significant.
pub open spec fn bit_of(b: u8, j: int) -> u8 {
    (b >> (j as u32)) & 1
}

/// Byte i of the message a polynomial compresses to: the eight one-bit
/// compressions of its coefficients, packed least-significant first.
pub open spec fn msg_byte_spec(c: Seq<u16>, i: int) -> u8 {
    (spec_compress(c[8 * i] as int, 1) as u8) | ((spec_compress(c[8 * i + 1] as int, 1) as u8)
        << 1) | ((spec_compress(c[8 * i + 2] as int, 1) as u8) << 2) | ((spec_compress(
        c[8 * i + 3] as int,
        1,
    ) as u8) << 3) | ((spec_compress(c[8 * i + 4] as int, 1) as u8) << 4) | ((spec_compress(
        c[8 * i + 5] as int,
        1,
    ) as u8) << 5) | ((spec_compress(c[8 * i + 6] as int, 1) as u8) << 6) | ((spec_compress(
        c[8 * i + 7] as int,
        1,
    ) as u8) << 7)
}

/// The whole 32-byte message a polynomial compresses to.
pub open spec fn msg_bytes_spec(c: Seq<u16>) -> Seq<u8> {
    Seq::new(32, |i: int| msg_byte_spec(c, i))
}

/// A one-bit compression is zero or one.
proof fn lemma_compress1_range(x: int)
    ensures
        0 <= spec_compress(x, 1) < 2,
{
    vstd::arithmetic::power2::lemma2_to64();
    vstd::arithmetic::div_mod::lemma_mod_bound((x * 2 + 1664) / 3329, 2);
}

/// A byte whose eight bits each match the corresponding packed one-bit
/// value equals the packed byte.
proof fn lemma_byte_from_bits(x: u8, b0: u8, b1: u8, b2: u8, b3: u8, b4: u8, b5: u8, b6: u8,
    b7: u8)
    by (bit_vector)
    requires
        b0 < 2 && b1 < 2 && b2 < 2 && b3 < 2 && b4 < 2 && b5 < 2 && b6 < 2 && b7 < 2,
        (x >> 0u32) & 1 == b0,
        (x >> 1u32) & 1 == b1,
        (x >> 2u32) & 1 == b2,
        (x >> 3u32) & 1 == b3,
        (x >> 4u32) & 1 == b4,
        (x >> 5u32) & 1 == b5,
        (x >> 6u32) & 1 == b6,
        (x >> 7u32) & 1 == b7,
    ensures
        x == b0 | (b1 << 1) | (b2 << 2) | (b3 << 3) | (b4 << 4) | (b5 << 5) | (b6 << 6) | (b7
            << 7),
{
}

/// Map a polynomial back to a 32-byte message: each coefficient is
/// compressed to one bit.
pub fn poly_to_msg(p: &Poly) -> (r: Vec<u8>)
    requires
        p.wf(),
    ensures
        r@.len() == 32,
        r@ == msg_bytes_spec(p.coeffs@),
        forall|k: int| 0 <= k < 256 ==> stream_bit(r@, k) == spec_compress(p.coeffs@[k] as int, 1),
{
    let mut out: Vec<u8> = Vec::new();
    let mut i: usize = 0;
    while i < 32
        invariant
            p.wf(),
            i <= 32,
            out@.len() == i,
            forall|ii: int| 0 <= ii < i ==> out@[ii] == msg_byte_spec(p.coeffs@, ii),
            forall|k: int| 0 <= k < 8 * i ==> stream_bit(out@, k) == spec_compress(
                p.coeffs@[k] as int,
                1,
            ),
        decreases 32 - i,
    {
        let mut byte: u8 = 0;
        proof {
            assert(forall|jj: u32| ((0u8 >> jj) & 1) == 0) by (bit_vector);
        }
        let mut j: usize = 0;
        while j < 8
            invariant
                p.wf(),
                i < 32,
                j <= 8,
                forall|jj: int|
                    0 <= jj < j ==> #[trigger] bit_of(byte, jj) == spec_compress(
                        p.coeffs@[8 * i + jj] as int,
                        1,
                    ),
                forall|jj: int| j <= jj < 8 ==> #[trigger] bit_of(byte, jj) == 0,
            decreases 8 - j,
        {
            let t: u16 = crate::poly::compress_coeff(p.coeffs[8 * i + j], 1);
            proof {
                vstd::arithmetic::power2::lemma2_to64();
            }
            let tb: u8 = t as u8;
            let sh: u32 = j as u32;
            let ghost prevbyte = byte;
            byte = byte | (tb << sh);
            proof {
                assert(forall|jj: u32|
                    jj < 8 && jj != sh ==> ((prevbyte | (tb << sh)) >> jj) & 1 == (prevbyte >> jj)
                        & 1) by (bit_vector)
                    requires
                        tb < 2,
                        sh < 8,
                ;
                assert((prevbyte >> sh) & 1 == 0) by {
                    assert(bit_of(prevbyte, j as int) == 0);
                }
                assert(((prevbyte | (tb << sh)) >> sh) & 1 == tb) by (bit_vector)
                    requires
                        (prevbyte >> sh) & 1 == 0,
                        tb < 2,
                        sh < 8,
                ;
                assert forall|jj: int| 0 <= jj < j + 1 implies #[trigger] bit_of(byte, jj)
                    == spec_compress(p.coeffs@[8 * i + jj] as int, 1) by {
                    if jj == j {
                        assert(bit_of(byte, jj) == tb);
                    } else {
                        assert(bit_of(byte, jj) == bit_of(prevbyte, jj));
                    }
                }
                assert forall|jj: int| j + 1 <= jj < 8 implies #[trigger] bit_of(byte, jj)
                    == 0 by {
                    assert(bit_of(byte, jj) == bit_of(prevbyte, jj));
                }
            }
            j += 1;
        }
        proof {
            let cs = p.coeffs@;
            let ii = i as int;
            lemma_compress1_range(cs[8 * ii] as int);
            lemma_compress1_range(cs[8 * ii + 1] as int);
            lemma_compress1_range(cs[8 * ii + 2] as int);
            lemma_compress1_range(cs[8 * ii + 3] as int);
            lemma_compress1_range(cs[8 * ii + 4] as int);
            lemma_compress1_range(cs[8 * ii + 5] as int);
            lemma_compress1_range(cs[8 * ii + 6] as int);
            lemma_compress1_range(cs[8 * ii + 7] as int);
            assert(bit_of(byte, 0) == spec_compress(cs[8 * ii] as int, 1));
            assert(bit_of(byte, 1) == spec_compress(cs[8 * ii + 1] as int, 1));
            assert(bit_of(byte, 2) == spec_compress(cs[8 * ii + 2] as int, 1));
            assert(bit_of(byte, 3) == spec_compress(cs[8 * ii + 3] as int, 1));
            assert(bit_of(byte, 4) == spec_compress(cs[8 * ii + 4] as int, 1));
            assert(bit_of(byte, 5) == spec_compress(cs[8 * ii + 5] as int, 1));
            assert(bit_of(byte, 6) == spec_compress(cs[8 * ii + 6] as int, 1));
            assert(bit_of(byte, 7) == spec_compress(cs[8 * ii + 7] as int, 1));
            lemma_byte_from_bits(
                byte,
                spec_compress(cs[8 * ii] as int, 1) as u8,
                spec_compress(cs[8 * ii + 1] as int, 1) as u8,
                spec_compress(cs[8 * ii + 2] as int, 1) as u8,
                spec_compress(cs[8 * ii + 3] as int, 1) as u8,
                spec_compress(cs[8 * ii + 4] as int, 1) as u8,
                spec_compress(cs[8 * ii + 5] as int, 1) as u8,
                spec_compress(cs[8 * ii + 6] as int, 1) as u8,
                spec_compress(cs[8 * ii + 7] as int, 1) as u8,
            );
            assert(byte == msg_byte_spec(cs, ii));
        }
        let ghost prevout = out@;
        out.push(byte);
        proof {
            assert forall|k: int| 0 <= k < 8 * (i + 1) implies stream_bit(out@, k)
                == spec_compress(p.coeffs@[k] as int, 1) by {
                if k < 8 * i {
                    assert(stream_bit(prevout, k) == spec_compress(p.coeffs@[k] as int, 1));
                    assert(out@[k / 8] == prevout[k / 8]);
                } else {
                    vstd::arithmetic::div_mod::lemma_fundamental_div_mod_converse(
                        k,
                        8,
                        i as int,
                        k - 8 * i,
                    );
                    assert(stream_bit(out@, k) == bit_of(byte, k - 8 * (i as int)));
                    assert(bit_of(byte, k - 8 * (i as int)) == spec_compress(
                        p.coeffs@[k] as int,
                        1,
                    ));
                }
            }
        }
        i += 1;
    }
    proof {
        assert(out@ =~= msg_bytes_spec(p.coeffs@));
    }
    out
}

} // verus!
