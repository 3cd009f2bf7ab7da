//! A lattice-based key encapsulation mechanism of the Kyber family at three
//! security levels (ranks 2, 3 and 4), together with the deterministic bit
//! generator that drives its randomness, and the small utilities around it.

pub mod aes256ctr;
pub mod cbd;
pub mod codec;
pub mod enums;
pub mod errors;
pub mod fips202;
pub mod helping_functions;
pub mod hexcodec;
pub mod indcpa;
pub mod kem;
pub mod key_generation;
pub mod kyber_rng;
pub mod ntt;
pub mod ntt_laws;
pub mod params;
pub mod poly;
pub mod polyvec;
pub mod random_number_generation;
pub mod randomness;
pub mod reduce;
