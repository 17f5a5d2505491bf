//! BLS12-381 keys and signatures in the minimal-public-key setting: public
//! keys are points of G1, signatures points of G2.
//!
//! Keys and signatures are held in their serialized form. The curve arithmetic
//! is done by `blst`; what it computes is named here by functions of the
//! serialized arguments, and everything else is stated over those names.

use vstd::prelude::*;
use crate::error::KeyError;
use crate::scalar::{check_scalar, is_scalar, BLS12_381_ORDER};

verus! {

/// The opaque status code of `blst`.
#[verifier::external_type_specification]
#[verifier::external_body]
pub struct ExBlstError(blst::BLST_ERROR);

/// Domain-separation tag of the ciphersuite: the 43 bytes of the text
/// `BLS_SIG_BLS12381G2_XMD:SHA-256_SSWU_RO_NUL_`. Every signature is made
/// and checked under exactly these bytes.
pub const CIPHER_SUITE: [u8; 43] = [
    66, 76, 83, 95, 83, 73, 71, 95, 66, 76, 83, 49, 50, 51, 56, 49, 71, 50, 95, 88, 77, 68, 58,
    83, 72, 65, 45, 50, 53, 54, 95, 83, 83, 87, 85, 95, 82, 79, 95, 78, 85, 76, 95,
];

/// The status code with which `blst` reports success.
pub const BLST_SUCCESS: u32 = 0;

/// The bytes of the domain-separation tag.
pub open spec fn cipher_suite() -> Seq<u8> {
    CIPHER_SUITE@
}

/// The secret scalar, serialized, that `blst` derives from key material `ikm`
/// and `key_info`.
pub uninterp spec fn bls_keygen(ikm: Seq<u8>, key_info: Seq<u8>) -> Seq<u8>;

/// The compressed public key of the secret scalar `sk`.
pub uninterp spec fn bls_public_key(sk: Seq<u8>) -> Seq<u8>;

/// The compressed signature of `sk` over `msg` under the tag `dst` and the
/// augmentation `aug`.
pub uninterp spec fn bls_signature(sk: Seq<u8>, msg: Seq<u8>, dst: Seq<u8>, aug: Seq<u8>) -> Seq<
    u8,
>;

/// The status code of checking the serialized signature `sig` over `msg`
/// against the serialized public key `pk`.
pub uninterp spec fn bls_verify_code(
    sig: Seq<u8>,
    sig_groupcheck: bool,
    msg: Seq<u8>,
    dst: Seq<u8>,
    aug: Seq<u8>,
    pk: Seq<u8>,
    pk_validate: bool,
) -> u32;

/// The compressed form of the public key that `bytes` serialize, if they
/// serialize one.
pub uninterp spec fn bls_public_key_decode(bytes: Seq<u8>) -> Option<Seq<u8>>;

/// The compressed form of the signature that `bytes` serialize, if they
/// serialize one.
pub uninterp spec fn bls_signature_decode(bytes: Seq<u8>) -> Option<Seq<u8>>;

/// A BLS secret key: a scalar of the BLS12-381 scalar field, never zero.
pub struct BlsSecretKey {
    pub(crate) bytes: [u8; 32],
}

/// A BLS public key: a point of G1 in compressed form.
#[derive(Debug, Clone, Copy)]
pub struct BlsPublicKey {
    pub(crate) bytes: [u8; 48],
}

/// A BLS signature: a point of G2 in compressed form.
#[derive(Debug, Clone, Copy)]
pub struct BlsSignature {
    pub(crate) bytes: [u8; 96],
}

impl View for BlsSecretKey {
    type V = Seq<u8>;

    closed spec fn view(&self) -> Seq<u8> {
        self.bytes@
    }
}

impl View for BlsPublicKey {
    type V = Seq<u8>;

    closed spec fn view(&self) -> Seq<u8> {
        self.bytes@
    }
}

impl View for BlsSignature {
    type V = Seq<u8>;

    closed spec fn view(&self) -> Seq<u8> {
        self.bytes@
    }
}

/// Calls `SecretKey::key_gen` and serializes the key. The call fails exactly
/// when `ikm` is shorter than 32 bytes. The scalar it derives is reduced
/// below the group order, and the derivation is repeated until the scalar is
/// not zero.
#[verifier::external_body]
fn blst_key_gen(ikm: &[u8], key_info: &[u8]) -> (res: Result<[u8; 32], blst::BLST_ERROR>)
    ensures
        res is Ok <==> ikm@.len() >= 32,
        res matches Ok(sk) ==> sk@ == bls_keygen(ikm@, key_info@) && is_scalar(
            sk@,
            BLS12_381_ORDER@,
        ),
{
    match blst::min_pk::SecretKey::key_gen(ikm, key_info) {
        Ok(sk) => Ok(sk.to_bytes()),
        Err(e) => Err(e),
    }
}

/// Calls `SecretKey::sk_to_pk` on the key that `sk` serializes and compresses
/// the result. The key is read with `SecretKey::from_bytes`, which takes
/// exactly the 32-byte scalars between one and the group order, exclusive.
#[verifier::external_body]
fn blst_sk_to_pk(sk: &[u8; 32]) -> (pk: [u8; 48])
    requires
        is_scalar(sk@, BLS12_381_ORDER@),
    ensures
        pk@ == bls_public_key(sk@),
{
    blst::min_pk::SecretKey::from_bytes(sk).unwrap().sk_to_pk().compress()
}

/// Calls `SecretKey::sign` on the key that `sk` serializes and compresses the
/// signature. The key is read with `SecretKey::from_bytes`, which takes
/// exactly the 32-byte scalars between one and the group order, exclusive.
#[verifier::external_body]
fn blst_sign(sk: &[u8; 32], msg: &[u8], dst: &[u8], aug: &[u8]) -> (sig: [u8; 96])
    requires
        is_scalar(sk@, BLS12_381_ORDER@),
    ensures
        sig@ == bls_signature(sk@, msg@, dst@, aug@),
{
    blst::min_pk::SecretKey::from_bytes(sk).unwrap().sign(msg, dst, aug).compress()
}

/// Calls `Signature::verify` on the signature and public key that `sig` and
/// `pk` serialize, and hands back its status code; where one of the two does
/// not deserialize, the status code of that failure.
#[verifier::external_body]
pub(crate) fn blst_verify(
    sig: &[u8],
    sig_groupcheck: bool,
    msg: &[u8],
    dst: &[u8],
    aug: &[u8],
    pk: &[u8],
    pk_validate: bool,
) -> (code: u32)
    ensures
        code == bls_verify_code(sig@, sig_groupcheck, msg@, dst@, aug@, pk@, pk_validate),
{
    let sig = match blst::min_pk::Signature::from_bytes(sig) {
        Ok(sig) => sig,
        Err(e) => return e as u32,
    };
    let pk = match blst::min_pk::PublicKey::from_bytes(pk) {
        Ok(pk) => pk,
        Err(e) => return e as u32,
    };
    sig.verify(sig_groupcheck, msg, dst, aug, &pk, pk_validate) as u32
}

/// Calls `PublicKey::from_bytes`, which takes the compressed and the
/// uncompressed form, and compresses the key it read.
#[verifier::external_body]
fn blst_pk_from_bytes(bytes: &[u8]) -> (res: Result<[u8; 48], blst::BLST_ERROR>)
    ensures
        match res {
            Ok(pk) => bls_public_key_decode(bytes@) == Some(pk@),
            Err(_) => bls_public_key_decode(bytes@) is None,
        },
{
    match blst::min_pk::PublicKey::from_bytes(bytes) {
        Ok(pk) => Ok(pk.compress()),
        Err(e) => Err(e),
    }
}

/// Seeds a ChaCha20 generator from the entropy of the operating system with
/// `SeedableRng::from_entropy`, and draws 32 bytes of key material from it with
/// `RngCore::fill_bytes`. Nothing is claimed of the bytes.
#[verifier::external_body]
fn random_ikm() -> (ikm: [u8; 32]) {
    let mut rng = <rand_chacha::ChaCha20Rng as rand::SeedableRng>::from_entropy();
    let mut ikm = [0u8; 32];
    rand::RngCore::fill_bytes(&mut rng, &mut ikm);
    ikm
}

/// A result that carries a secret key, with the key taken by its bytes.
pub open spec fn secret_key_result(res: Result<BlsSecretKey, KeyError>) -> Result<
    Seq<u8>,
    KeyError,
> {
    match res {
        Ok(sk) => Ok(sk@),
        Err(e) => Err(e),
    }
}

/// What `BlsSecretKey::key_gen` returns: the scalar derived from the key
/// material, unless the material is too short or the scalar is no secret
/// key.
pub open spec fn key_gen_outcome(ikm: Seq<u8>, key_info: Seq<u8>) -> Result<Seq<u8>, KeyError> {
    if ikm.len() >= 32 && is_scalar(bls_keygen(ikm, key_info), BLS12_381_ORDER@) {
        Ok(bls_keygen(ikm, key_info))
    } else {
        Err(KeyError::KeyGenFailure { index: 0 })
    }
}

/// Whether `sk` is a secret key that key generation makes of some 32 bytes
/// of key material and no key info.
pub open spec fn generated(sk: Seq<u8>) -> bool {
    exists|ikm: Seq<u8>|
        ikm.len() == 32 && #[trigger] key_gen_outcome(ikm, Seq::empty()) == Ok::<
            Seq<u8>,
            KeyError,
        >(sk)
}

/// Calls `Signature::from_bytes`, which takes the compressed and the
/// uncompressed form, and compresses the signature it read.
#[verifier::external_body]
fn blst_sig_from_bytes(bytes: &[u8]) -> (res: Result<[u8; 96], blst::BLST_ERROR>)
    ensures
        match res {
            Ok(sig) => bls_signature_decode(bytes@) == Some(sig@),
            Err(_) => bls_signature_decode(bytes@) is None,
        },
{
    match blst::min_pk::Signature::from_bytes(bytes) {
        Ok(sig) => Ok(sig.compress()),
        Err(e) => Err(e),
    }
}

impl BlsSecretKey {
    /// A secret key is a scalar between one and the group order, exclusive.
    #[verifier::type_invariant]
    pub open spec fn wf(&self) -> bool {
        is_scalar(self@, BLS12_381_ORDER@)
    }

    /// Reads a secret key from its 32 big-endian bytes.
    pub fn from_bytes(bytes: &[u8]) -> (res: Result<BlsSecretKey, KeyError>)
        ensures
            secret_key_result(res) == if is_scalar(bytes@, BLS12_381_ORDER@) {
                Ok::<Seq<u8>, KeyError>(bytes@)
            } else {
                Err::<Seq<u8>, KeyError>(KeyError::InvalidKeyEncoding)
            },
    {
        if !check_scalar(bytes, &BLS12_381_ORDER) {
            return Err(KeyError::InvalidKeyEncoding);
        }
        let mut key = [0u8; 32];
        let mut i: usize = 0;
        while i < 32
            invariant
                i <= 32,
                bytes@.len() == 32,
                forall|j: int| 0 <= j < i ==> key@[j] == bytes@[j],
            decreases 32 - i,
        {
            key[i] = bytes[i];
            i += 1;
        }
        assert(key@ =~= bytes@);
        Ok(BlsSecretKey { bytes: key })
    }

    /// Derives a secret key from at least 32 bytes of key material by the
    /// key generation of the ciphersuite. With that much material it
    /// succeeds.
    pub fn key_gen(ikm: &[u8], key_info: &[u8]) -> (res: Result<BlsSecretKey, KeyError>)
        ensures
            secret_key_result(res) == key_gen_outcome(ikm@, key_info@),
            res is Ok <==> ikm@.len() >= 32,
    {
        match blst_key_gen(ikm, key_info) {
            Ok(bytes) => {
                if check_scalar(bytes.as_slice(), &BLS12_381_ORDER) {
                    Ok(BlsSecretKey { bytes })
                } else {
                    Err(KeyError::KeyGenFailure { index: 0 })
                }
            },
            Err(_) => Err(KeyError::KeyGenFailure { index: 0 }),
        }
    }

    /// The 32 big-endian bytes of the scalar.
    pub fn to_bytes(&self) -> (bytes: [u8; 32])
        ensures
            bytes@ == self@,
    {
        self.bytes
    }

    /// Same as `to_bytes`.
    pub fn serialize(&self) -> (bytes: [u8; 32])
        ensures
            bytes@ == self@,
    {
        self.bytes
    }

    /// The public key that belongs to this secret key.
    pub fn sk_to_pk(&self) -> (pk: BlsPublicKey)
        ensures
            pk@ == bls_public_key(self@),
    {
        proof {
            use_type_invariant(self);
        }
        BlsPublicKey { bytes: blst_sk_to_pk(&self.bytes) }
    }

    /// Signs `msg` under the tag `dst` with the augmentation `aug`.
    pub fn sign(&self, msg: &[u8], dst: &[u8], aug: &[u8]) -> (sig: BlsSignature)
        ensures
            sig@ == bls_signature(self@, msg@, dst@, aug@),
    {
        proof {
            use_type_invariant(self);
        }
        BlsSignature { bytes: blst_sign(&self.bytes, msg, dst, aug) }
    }
}

impl BlsPublicKey {
    /// The public key with the given compressed form.
    pub(crate) fn from_compressed(bytes: [u8; 48]) -> (pk: BlsPublicKey)
        ensures
            pk@ == bytes@,
    {
        BlsPublicKey { bytes }
    }

    /// Reads a public key from its compressed or uncompressed serialization.
    pub fn from_bytes(bytes: &[u8]) -> (res: Result<BlsPublicKey, KeyError>)
        ensures
            match res {
                Ok(pk) => bls_public_key_decode(bytes@) == Some(pk@),
                Err(e) => bls_public_key_decode(bytes@) is None && e == KeyError::InvalidPublicKey,
            },
    {
        match blst_pk_from_bytes(bytes) {
            Ok(pk) => Ok(BlsPublicKey { bytes: pk }),
            Err(_) => Err(KeyError::InvalidPublicKey),
        }
    }

    /// Whether the two keys are the same point.
    pub fn same_as(&self, other: &BlsPublicKey) -> (same: bool)
        ensures
            same == (self@ == other@),
    {
        let mut i: usize = 0;
        while i < 48
            invariant
                i <= 48,
                forall|j: int| 0 <= j < i ==> self.bytes@[j] == other.bytes@[j],
            decreases 48 - i,
        {
            if self.bytes[i] != other.bytes[i] {
                return false;
            }
            i += 1;
        }
        assert(self.bytes@ =~= other.bytes@);
        true
    }

    /// The 48 bytes of the compressed point.
    pub fn compress(&self) -> (bytes: [u8; 48])
        ensures
            bytes@ == self@,
    {
        self.bytes
    }

    /// Same as `compress`.
    pub fn to_bytes(&self) -> (bytes: [u8; 48])
        ensures
            bytes@ == self@,
    {
        self.bytes
    }
}

impl BlsSignature {
    /// Reads a signature from its compressed or uncompressed serialization.
    /// Whether the point lies in the group is left to verification.
    pub fn from_bytes(bytes: &[u8]) -> (res: Result<BlsSignature, KeyError>)
        ensures
            match res {
                Ok(sig) => bls_signature_decode(bytes@) == Some(sig@),
                Err(e) => bls_signature_decode(bytes@) is None && e == KeyError::InvalidKeyEncoding,
            },
    {
        match blst_sig_from_bytes(bytes) {
            Ok(sig) => Ok(BlsSignature { bytes: sig }),
            Err(_) => Err(KeyError::InvalidKeyEncoding),
        }
    }

    /// The 96 bytes of the compressed point.
    pub fn to_bytes(&self) -> (bytes: [u8; 96])
        ensures
            bytes@ == self@,
    {
        self.bytes
    }
}

/// What `verify_bls_sig` returns on the given signature, key and message.
pub open spec fn verify_outcome(sig: Seq<u8>, pk: Seq<u8>, msg: Seq<u8>) -> Result<(), KeyError> {
    if bls_verify_code(sig, true, msg, cipher_suite(), Seq::empty(), pk, true) == BLST_SUCCESS {
        Ok(())
    } else {
        Err(KeyError::SignatureInvalid { index: 0 })
    }
}

/// Whether the signature verifies alone against the key and the message.
pub open spec fn verifies(sig: Seq<u8>, pk: Seq<u8>, msg: Seq<u8>) -> bool {
    verify_outcome(sig, pk, msg) is Ok
}

/// Checks that `sig` is the signature of the holder of `pk` over `msg`, with
/// the group check of the signature and the validation of the key both on.
pub fn verify_bls_sig(sig: BlsSignature, pk: BlsPublicKey, msg: &[u8]) -> (res: Result<
    (),
    KeyError,
>)
    ensures
        res == verify_outcome(sig@, pk@, msg@),
{
    let aug: [u8; 0] = [];
    let code = blst_verify(
        sig.bytes.as_slice(),
        true,
        msg,
        CIPHER_SUITE.as_slice(),
        aug.as_slice(),
        pk.bytes.as_slice(),
        true,
    );
    assert(aug@ =~= Seq::<u8>::empty());
    if code == BLST_SUCCESS {
        Ok(())
    } else {
        Err(KeyError::SignatureInvalid { index: 0 })
    }
}

/// Generates a BLS secret key from 32 bytes of fresh randomness, with no
/// key info.
///
/// The key material is drawn anew on every call, so all that is known of the
/// key is that it is what key generation makes of some 32 bytes.
pub fn new_bls_key() -> (res: Result<BlsSecretKey, KeyError>)
    ensures
        res matches Ok(sk) && generated(sk@),
{
    let ikm = random_ikm();
    let key_info: [u8; 0] = [];
    assert(key_info@ =~= Seq::<u8>::empty());
    BlsSecretKey::key_gen(ikm.as_slice(), key_info.as_slice())
}

} // verus!
