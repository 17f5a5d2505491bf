//! Provisioning: a fresh BLS secret key leaves the service encrypted to the
//! identity key of whoever asked for it, and is never stored here.

use vstd::prelude::*;
use crate::bls::{bls_public_key, generated, new_bls_key, BlsPublicKey, BlsSecretKey};
use crate::error::KeyError;
use crate::hex_codec::{
    ascii_chars, hex_bytes, hex_decode, hex_encode, hex_text, is_hex_text, lemma_hex_round_trip,
    lemma_hex_string_bytes,
};
use crate::identity::secp256k1_public_key;
use crate::scalar::{is_scalar, BLS12_381_ORDER, SECP256K1_ORDER};

verus! {

/// The message that `ecies::decrypt` recovers from `ciphertext` with the
/// secp256k1 secret key `sk`, if it recovers one, under the configuration
/// that `ecies` starts with.
pub uninterp spec fn ecies_decrypt(sk: Seq<u8>, ciphertext: Seq<u8>) -> Option<Seq<u8>>;

/// Whether `ciphertext` carries `msg` to the holder of the uncompressed
/// public key `receiver_pub`: with the secret key of that public key it
/// decrypts to `msg`.
pub open spec fn sealed_to(ciphertext: Seq<u8>, receiver_pub: Seq<u8>, msg: Seq<u8>) -> bool {
    forall|sk: Seq<u8>|
        is_scalar(sk, SECP256K1_ORDER@) && secp256k1_public_key(sk) == receiver_pub
            ==> #[trigger] ecies_decrypt(sk, ciphertext) == Some(msg)
}

/// Calls `ecies::encrypt`, which encrypts `msg` to the holder of the
/// secp256k1 public key `receiver_pub` under a fresh ephemeral key. The
/// ciphertext differs from call to call; what holds of each is what `ecies`
/// is for and its documentation shows on a generated pair: `ecies::decrypt`
/// with the secret key of the receiver gives the message back. This is said
/// of the configuration that `ecies` starts with, which this library leaves
/// alone.
#[verifier::external_body]
fn ecies_encrypt(receiver_pub: &[u8], msg: &[u8]) -> (ciphertext: Option<Vec<u8>>)
    ensures
        ciphertext matches Some(bytes) ==> forall|sk: Seq<u8>|
            is_scalar(sk, SECP256K1_ORDER@) && secp256k1_public_key(sk) == receiver_pub@
                ==> #[trigger] ecies_decrypt(sk, bytes@) == Some(msg@),
{
    ecies::encrypt(receiver_pub, msg).ok()
}

/// The bytes that the hexadecimal text `ct_hex` stands for.
pub open spec fn ciphertext_of(ct_hex: Seq<char>) -> Seq<u8> {
    hex_bytes(vstd::utf8::encode_utf8(ct_hex))
}

/// What the requester is sent for a public key `pk` once encryption has
/// ended: the ciphertext in hexadecimal beside the public key, or the
/// failure of the encryption.
pub open spec fn provision_outcome(ciphertext: Option<Seq<u8>>, pk: Seq<u8>) -> Result<
    (Seq<char>, Seq<u8>),
    KeyError,
> {
    match ciphertext {
        Some(bytes) => Ok((ascii_chars(hex_text(bytes)), pk)),
        None => Err(KeyError::EncryptionFailure),
    }
}

/// Turns the result of encrypting a secret key into what the requester is
/// sent.
pub fn provision_response(ciphertext: Option<Vec<u8>>, pk: BlsPublicKey) -> (res: Result<
    (String, BlsPublicKey),
    KeyError,
>)
    ensures
        match res {
            Ok((ct_hex, sent)) => provision_outcome(
                match ciphertext {
                    Some(bytes) => Some(bytes@),
                    None => None,
                },
                pk@,
            ) == Ok::<(Seq<char>, Seq<u8>), KeyError>((ct_hex@, sent@)),
            Err(e) => ciphertext is None && e == KeyError::EncryptionFailure,
        },
{
    match ciphertext {
        Some(bytes) => Ok((hex_encode(bytes.as_slice()), pk)),
        None => Err(KeyError::EncryptionFailure),
    }
}

/// Whether `ct_hex` and `pk` are what is sent for the secret key `sk` to the
/// holder of the identity public key `receiver_pub`: the public key of `sk`,
/// and hexadecimal text of a ciphertext that carries the 32 bytes of `sk` to
/// the receiver.
pub open spec fn provisioned(
    ct_hex: Seq<char>,
    pk: Seq<u8>,
    receiver_pub: Seq<u8>,
    sk: Seq<u8>,
) -> bool {
    &&& pk == bls_public_key(sk)
    &&& is_hex_text(vstd::utf8::encode_utf8(ct_hex))
    &&& ct_hex == ascii_chars(hex_text(ciphertext_of(ct_hex)))
    &&& sealed_to(ciphertext_of(ct_hex), receiver_pub, sk)
}

/// Encrypts the 32 bytes of the secret key `sk` to the identity public key
/// that `eth_pk_hex` spells in hexadecimal, and hands back the ciphertext in
/// hexadecimal beside the public key of `sk`.
///
/// Text that is not hexadecimal is refused before anything is encrypted.
/// Whether the bytes it spells are a public key is for the encryption to
/// say.
pub fn encrypt_bls_key(sk: &BlsSecretKey, eth_pk_hex: &String) -> (res: Result<
    (String, BlsPublicKey),
    KeyError,
>)
    ensures
        match res {
            Ok((ct_hex, pk)) => {
                &&& is_hex_text(vstd::utf8::encode_utf8(eth_pk_hex@))
                &&& provisioned(ct_hex@, pk@, ciphertext_of(eth_pk_hex@), sk@)
            },
            Err(e) => if is_hex_text(vstd::utf8::encode_utf8(eth_pk_hex@)) {
                e == KeyError::EncryptionFailure
            } else {
                e == KeyError::DecodeError
            },
        },
        !is_hex_text(vstd::utf8::encode_utf8(eth_pk_hex@)) ==> res is Err,
{
    let pk = sk.sk_to_pk();
    let receiver_pub = match hex_decode(eth_pk_hex.as_str().as_bytes()) {
        Ok(bytes) => bytes,
        Err(_) => {
            return Err(KeyError::DecodeError);
        },
    };
    let ciphertext = ecies_encrypt(receiver_pub.as_slice(), sk.serialize().as_slice());
    proof {
        if ciphertext is Some {
            lemma_hex_string_bytes(ciphertext->0@);
            lemma_hex_round_trip(ciphertext->0@);
        }
    }
    provision_response(ciphertext, pk)
}

/// Generates a BLS secret key and encrypts its 32 bytes to the identity
/// public key that `eth_pk_hex` spells in hexadecimal.
///
/// The secret key and the encryption both draw on fresh randomness, so the
/// contract says what holds of every outcome: which failure comes on which
/// input, and that what is sent on success was made for a generated key.
pub fn bls_key_provision(eth_pk_hex: &String) -> (res: Result<(String, BlsPublicKey), KeyError>)
    ensures
        match res {
            Ok((ct_hex, pk)) => {
                &&& is_hex_text(vstd::utf8::encode_utf8(eth_pk_hex@))
                &&& exists|sk: Seq<u8>|
                    generated(sk) && #[trigger] provisioned(
                        ct_hex@,
                        pk@,
                        ciphertext_of(eth_pk_hex@),
                        sk,
                    )
            },
            Err(e) => if is_hex_text(vstd::utf8::encode_utf8(eth_pk_hex@)) {
                e == KeyError::EncryptionFailure
            } else {
                e == KeyError::DecodeError
            },
        },
        !is_hex_text(vstd::utf8::encode_utf8(eth_pk_hex@)) ==> res is Err,
{
    let sk = match new_bls_key() {
        Ok(sk) => sk,
        Err(_) => {
            return Err(KeyError::KeyGenFailure { index: 0 });
        },
    };
    encrypt_bls_key(&sk, eth_pk_hex)
}

/// What was provisioned opens to the key it was made for: whoever holds the
/// secret key `eth_sk` of the identity that `ct_hex` was sent to decodes the
/// text, decrypts the bytes, and has the 32 bytes of a BLS secret key whose
/// public key is the one that was sent beside the text.
pub proof fn lemma_provisioned_key_opens(
    ct_hex: Seq<char>,
    pk: Seq<u8>,
    eth_sk: Seq<u8>,
    sk: Seq<u8>,
)
    requires
        is_scalar(eth_sk, SECP256K1_ORDER@),
        generated(sk),
        provisioned(ct_hex, pk, secp256k1_public_key(eth_sk), sk),
    ensures
        is_hex_text(vstd::utf8::encode_utf8(ct_hex)),
        ecies_decrypt(eth_sk, ciphertext_of(ct_hex)) == Some(sk),
        is_scalar(sk, BLS12_381_ORDER@),
        bls_public_key(sk) == pk,
{
}

} // verus!
