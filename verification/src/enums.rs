//! The selection categories of the surrounding program's menus.  The
//! engine itself consumes only `Kyber_Category`; the rest name the other
//! algorithm families the program offers.

use vstd::prelude::*;

verus! {

#[derive(Debug, PartialEq, Eq, Structural, Clone, Copy)]
pub enum Category {
    AES,
    Dilithium,
    Kyber,
    Primality,
    Hashing,
    SecureKey,
    TLS,
    Email,
    RNG,
    ZNP,
    SFD,
    SS,
    Extra,
    Export,
    CUA,
    MD,
    Docs,
}

#[allow(non_camel_case_types)]
#[derive(Debug, PartialEq, Eq, Structural, Clone, Copy)]
pub enum AES_Category {
    ECB,
    CTR,
    OFB,
    GCM,
    GCM_SIV,
    CBC,
    CCM,
    Exit,
}

#[allow(non_camel_case_types)]
#[derive(Debug, PartialEq, Eq, Structural, Clone, Copy)]
pub enum AES_Strength_Category {
    AES128,
    AES192,
    AES256,
}

#[allow(non_camel_case_types)]
#[derive(Debug, PartialEq, Eq, Structural, Clone, Copy)]
pub enum Dilithium_Category {
    Dilithium2,
    Dilithium3,
    Dilithium5,
    Exit,
}

#[allow(non_camel_case_types)]
#[derive(Debug, PartialEq, Eq, Structural, Clone, Copy)]
pub enum Kyber_Category {
    Kyber512,
    Kyber768,
    Kyber1024,
    Exit,
}

#[allow(non_camel_case_types)]
#[derive(Debug, PartialEq, Eq, Structural, Clone, Copy)]
pub enum Primality_Category {
    Erastothenes,
    Solovay,
    Miller,
    GenPrimeOfBits,
    RingResidue,
    Euclidean,
    ExtendedEuclidean,
    EulerTotient,
    PrimeCounting,
    ModPower,
    QuadraticResidue,
    ExponentialResidue,
    GenerateEmirps,
    GenerateCousinPrimes,
    GenerateSexyPrimes,
    IsSafePrime,
    IsPalindromePrime,
    IsTwinPrime,
    PollardsRho,
    ListSophie,
    ListSafePrimes,
    ListPallindromePrimes,
    ListTwinPrimes,
    IsSexyPrime,
    IsCousinPrime,
    IsEmirp,
    KFreeTest,
    Legendre,
    Jacobi,
    Kronecker,
    GenPrimeLess,
    GenNth,
    GenRange,
    GenPrimeFactors,
    IsPrime,
    GCD,
    LCM,
    Coprime,
    ListMersenne,
    IsMersenne,
    FermatPrime,
    IsSophie,
    LucasProbablePrime,
    StrongLucasProbablePrime,
    ExtraStrongLucasProbablePrime,
    Exit,
}

#[allow(non_camel_case_types)]
#[derive(Debug, PartialEq, Eq, Structural, Clone, Copy)]
pub enum RustTypeSelect {
    U8,
    I8,
    U16,
    I16,
    U32,
    I32,
    U64,
    I64,
    U128,
    I128,
    F32,
}

#[allow(non_camel_case_types)]
#[derive(Debug, PartialEq, Eq, Structural, Clone, Copy)]
pub enum Hashing_Category {
    Shake128,
    Shake256,
    Sha2_224,
    Sha2_256,
    Sha2_384,
    Sha2_512,
    Sha2_512_224,
    Sha2_512_256,
    Sha3_224,
    Sha3_256,
    Sha3_384,
    Sha3_512,
    Keccak224,
    Keccak256,
    Keccak384,
    Keccak512,
    Exit,
}

#[allow(non_camel_case_types)]
#[derive(Debug, PartialEq, Eq, Structural, Clone, Copy)]
pub enum SecureKey_Category {
    OsRng,
    Pbkdf2,
    Combo,
    Exit,
}

#[allow(non_camel_case_types)]
#[derive(Debug, PartialEq, Eq, Structural, Clone, Copy)]
pub enum TLS_Category {
    Server,
    Client,
    Exit,
}

#[allow(non_camel_case_types)]
#[derive(Debug, PartialEq, Eq, Structural, Clone, Copy)]
pub enum Email_Category {
    Generate_PGP,
    Store_PGP,
    Send_Email,
    Load_PGP,
    Exit,
}

#[allow(non_camel_case_types)]
#[derive(Debug, PartialEq, Eq, Structural, Clone, Copy)]
pub enum RNG_Category {
    Single_number,
    Hex,
    Vector,
    Exit,
}

#[allow(non_camel_case_types)]
#[derive(Debug, PartialEq, Eq, Structural, Clone, Copy)]
pub enum ZNP_Category {
    Schnorr,
    Exit,
}

#[allow(non_camel_case_types)]
#[derive(Debug, PartialEq, Eq, Structural, Clone, Copy)]
pub enum Erasure_Category {
    Gutmann,
    DoD5220_22M,
    NIST800_88,
    Exit,
}

#[derive(Debug, PartialEq, Eq, Structural, Clone, Copy)]
pub enum SecureStorageCategory {
    CreateSection,
    UploadKey,
    RetrieveKey,
    DeleteKey,
    Exit,
}

#[allow(non_camel_case_types)]
#[derive(Debug, PartialEq, Eq, Structural, Clone, Copy)]
pub enum Extra_Category {
    Unassigned,
}

#[allow(non_camel_case_types)]
#[derive(Debug, PartialEq, Eq, Structural, Clone, Copy)]
pub enum Export_Category {
    Binary,
    Hexadecimal,
    Base64,
    JSON,
    Protobuf,
    PEM,
    Exit,
}

#[allow(non_camel_case_types)]
#[derive(Debug, PartialEq, Eq, Structural, Clone, Copy)]
pub enum User_Category {
    CreateAccount,
    ChangePassword,
    ChangeEmail,
    DeleteUser,
    Exit,
}

#[allow(non_camel_case_types)]
#[derive(Debug, PartialEq, Eq, Structural, Clone, Copy)]
pub enum MD_Category {
    Unassigned,
}

#[allow(non_camel_case_types)]
#[derive(Debug, PartialEq, Eq, Structural, Clone, Copy)]
pub enum Docs_Category {
    AES,
    Dilithium,
    Kyber,
    Primality,
    Hashing,
    SecureKey,
    TLS,
    Email,
    RNG,
    ZNP,
    SFD,
    SS,
    Extra,
    Export,
    CUA,
    MD,
    Docs,
    Exit,
}

#[derive(Debug, PartialEq, Eq, Structural, Clone, Copy)]
pub enum KeyStorage {
    AESECB,
    AESOFB,
    AESCBC,
    AESCTR,
    AESGCM,
    AESGCMSIV,
    AESCCM,
    Kyber2Public,
    Kyber2Private,
    Kyber2SharedSecret,
    Kyber3Public,
    Kyber3Private,
    Kyber3SharedSecret,
    Kyber4Public,
    Kyber4Private,
    Kyber4SharedSecret,
    Dilithium2Public,
    Dilithium2Private,
    Dilithium2SignedMessages,
    Dilithium3Public,
    Dilithium3Private,
    Dilithium3SignedMessages,
    Dilithium4Public,
    Dilithium4Private,
    Dilithium4SignedMessages,
    EmailPGPKeys,
}

/// Map the Kyber menu selection to its numeric security level; the exit
/// choice maps to zero, which the parameter lookup rejects.
pub fn kyber_category_level(cat: Kyber_Category) -> (r: u32)
    ensures
        cat == Kyber_Category::Kyber512 ==> r == 2,
        cat == Kyber_Category::Kyber768 ==> r == 3,
        cat == Kyber_Category::Kyber1024 ==> r == 4,
        cat == Kyber_Category::Exit ==> r == 0,
{
    match cat {
        Kyber_Category::Kyber512 => 2,
        Kyber_Category::Kyber768 => 3,
        Kyber_Category::Kyber1024 => 4,
        Kyber_Category::Exit => 0,
    }
}

} // verus!
