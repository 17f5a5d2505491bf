//! The BLS key manager: generates secret keys, files them under their public
//! key, and signs with the key that a public key names.

use vstd::prelude::*;
use crate::bls::{
    bls_public_key, bls_public_key_decode, bls_signature, cipher_suite, generated, new_bls_key,
    secret_key_result, verifies, verify_bls_sig, verify_outcome, BlsPublicKey, BlsSecretKey,
    BlsSignature, CIPHER_SUITE,
};
use crate::error::KeyError;
use crate::hex_codec::{
    ascii_chars, hex_bytes, hex_decode, hex_encode, hex_text, is_hex_text, lemma_hex_round_trip,
    lemma_hex_string_bytes,
};
use crate::keystore::{
    lemma_listed_is_filed, lemma_put_lookup, listed, put, read_outcome, write_key, Files,
    KeyStore, BLS_KEYS,
};
use crate::scalar::{is_scalar, BLS12_381_ORDER};

verus! {

/// The name under which the BLS secret key of the public key with the
/// hexadecimal identifier `pk_hex` is filed.
pub open spec fn bls_key_name(pk_hex: Seq<char>) -> Seq<char> {
    BLS_KEYS@ + pk_hex
}

/// The table after the secret key `sk` is filed under its public key.
pub open spec fn with_bls_key(files: Files, sk: Seq<u8>) -> Files {
    put(files, bls_key_name(ascii_chars(hex_text(bls_public_key(sk)))), hex_text(sk))
}

/// Reads the BLS secret key filed under the public key `pk_hex`.
pub fn read_bls_key(store: &KeyStore, pk_hex: &String) -> (res: Result<BlsSecretKey, KeyError>)
    ensures
        secret_key_result(res) == read_outcome(store@, bls_key_name(pk_hex@), BLS12_381_ORDER@),
{
    let name = String::from_str(BLS_KEYS).concat(pk_hex.as_str());
    let content = match store.read(&name) {
        Some(content) => content,
        None => {
            return Err(KeyError::NotFound);
        },
    };
    let bytes = match hex_decode(content.as_slice()) {
        Ok(bytes) => bytes,
        Err(_) => {
            return Err(KeyError::DecodeError);
        },
    };
    BlsSecretKey::from_bytes(bytes.as_slice())
}

/// Files the secret key under its public key, both in hexadecimal, and
/// hands the public key back.
pub fn save_bls_key(store: &mut KeyStore, sk: &BlsSecretKey) -> (res: Result<
    BlsPublicKey,
    KeyError,
>)
    ensures
        final(store)@ == with_bls_key(old(store)@, sk@),
        res matches Ok(pk) && pk@ == bls_public_key(sk@),
{
    let pk = sk.sk_to_pk();
    let pk_hex = hex_encode(pk.compress().as_slice());
    let sk_hex = hex_encode(sk.to_bytes().as_slice());
    proof {
        lemma_hex_string_bytes(sk@);
    }
    let name = String::from_str(BLS_KEYS).concat(pk_hex.as_str());
    match write_key(store, &name, &sk_hex) {
        Ok(()) => Ok(pk),
        Err(e) => Err(e),
    }
}

/// Generates a BLS secret key and, if `save_key` is set, files it under its
/// public key. The public key is handed back, the secret never.
pub fn bls_key_gen(store: &mut KeyStore, save_key: bool) -> (res: Result<BlsPublicKey, KeyError>)
    ensures
        res matches Ok(pk) && exists|sk: Seq<u8>|
            {
                &&& generated(sk)
                &&& pk@ == #[trigger] bls_public_key(sk)
                &&& final(store)@ == if save_key {
                    with_bls_key(old(store)@, sk)
                } else {
                    old(store)@
                }
            },
{
    let sk = match new_bls_key() {
        Ok(sk) => sk,
        Err(_) => {
            return Err(KeyError::KeyGenFailure { index: 0 });
        },
    };
    if save_key {
        save_bls_key(store, &sk)
    } else {
        Ok(sk.sk_to_pk())
    }
}

/// What `bls_sign` returns: the identifier must spell a public key, the
/// secret key filed under it must belong to that public key, and the
/// signature must pass its own verification.
pub open spec fn sign_outcome(files: Files, pk_hex: Seq<char>, msg: Seq<u8>) -> Result<
    Seq<u8>,
    KeyError,
> {
    let text = vstd::utf8::encode_utf8(pk_hex);
    if !is_hex_text(text) {
        Err(KeyError::InvalidPublicKey)
    } else {
        match bls_public_key_decode(hex_bytes(text)) {
            None => Err(KeyError::InvalidPublicKey),
            Some(pk) => match read_outcome(files, bls_key_name(pk_hex), BLS12_381_ORDER@) {
                Err(e) => Err(e),
                Ok(sk) => if bls_public_key(sk) != pk {
                    Err(KeyError::KeyMismatch)
                } else {
                    let sig = bls_signature(sk, msg, cipher_suite(), Seq::empty());
                    if verifies(sig, pk, msg) {
                        Ok(sig)
                    } else {
                        Err(KeyError::SigningInvariantViolation)
                    }
                },
            },
        }
    }
}

/// Signs `msg` with the secret key filed under the public key `pk_hex`.
pub fn bls_sign(store: &KeyStore, pk_hex: &String, msg: &[u8]) -> (res: Result<
    BlsSignature,
    KeyError,
>)
    ensures
        match res {
            Ok(sig) => sign_outcome(store@, pk_hex@, msg@) == Ok::<Seq<u8>, KeyError>(sig@),
            Err(e) => sign_outcome(store@, pk_hex@, msg@) == Err::<Seq<u8>, KeyError>(e),
        },
{
    let pk_bytes = match hex_decode(pk_hex.as_str().as_bytes()) {
        Ok(bytes) => bytes,
        Err(_) => {
            return Err(KeyError::InvalidPublicKey);
        },
    };
    let pk = match BlsPublicKey::from_bytes(pk_bytes.as_slice()) {
        Ok(pk) => pk,
        Err(e) => {
            return Err(e);
        },
    };
    let sk = match read_bls_key(store, pk_hex) {
        Ok(sk) => sk,
        Err(e) => {
            return Err(e);
        },
    };
    if !sk.sk_to_pk().same_as(&pk) {
        return Err(KeyError::KeyMismatch);
    }
    let aug: [u8; 0] = [];
    assert(aug@ =~= Seq::<u8>::empty());
    let sig = sk.sign(msg, CIPHER_SUITE.as_slice(), aug.as_slice());
    match verify_bls_sig(sig, pk, msg) {
        Ok(()) => Ok(sig),
        Err(_) => Err(KeyError::SigningInvariantViolation),
    }
}

/// A secret key that was filed under its public key is read back under that
/// public key as the same secret, and so with the same public key.
pub proof fn lemma_saved_bls_key_reads_back(files: Files, sk: Seq<u8>)
    requires
        is_scalar(sk, BLS12_381_ORDER@),
    ensures
        read_outcome(
            with_bls_key(files, sk),
            bls_key_name(ascii_chars(hex_text(bls_public_key(sk)))),
            BLS12_381_ORDER@,
        ) == Ok::<Seq<u8>, KeyError>(sk),
{
    lemma_put_lookup(
        files,
        bls_key_name(ascii_chars(hex_text(bls_public_key(sk)))),
        hex_text(sk),
    );
    lemma_hex_round_trip(sk);
}

/// A secret key that was filed is listed by its public key.
pub proof fn lemma_saved_bls_key_is_listed(files: Files, sk: Seq<u8>)
    ensures
        listed(with_bls_key(files, sk), BLS_KEYS@).contains(
            ascii_chars(hex_text(bls_public_key(sk))),
        ),
{
    let id = ascii_chars(hex_text(bls_public_key(sk)));
    lemma_put_lookup(files, bls_key_name(id), hex_text(sk));
    lemma_listed_is_filed(with_bls_key(files, sk), BLS_KEYS@, id);
}

/// Signing with a key that was filed under its public key gives the
/// signature of that key over the message and no failure, where the two
/// things hold that the library leaves to the curve arithmetic: the public
/// key is read back from its compressed form as itself, and the signature
/// verifies under it.
pub proof fn lemma_sign_with_saved_key(files: Files, sk: Seq<u8>, msg: Seq<u8>)
    requires
        is_scalar(sk, BLS12_381_ORDER@),
        bls_public_key_decode(bls_public_key(sk)) == Some(bls_public_key(sk)),
        verifies(bls_signature(sk, msg, cipher_suite(), Seq::empty()), bls_public_key(sk), msg),
    ensures
        sign_outcome(with_bls_key(files, sk), ascii_chars(hex_text(bls_public_key(sk))), msg)
            == Ok::<Seq<u8>, KeyError>(bls_signature(sk, msg, cipher_suite(), Seq::empty())),
{
    lemma_hex_string_bytes(bls_public_key(sk));
    lemma_hex_round_trip(bls_public_key(sk));
    lemma_saved_bls_key_reads_back(files, sk);
}

/// Every signature that `bls_sign` hands out verifies over the message it
/// was asked to sign, against the public key it was asked to sign for.
pub proof fn lemma_signed_message_verifies(files: Files, pk_hex: Seq<char>, msg: Seq<u8>)
    ensures
        sign_outcome(files, pk_hex, msg) matches Ok(sig) ==> {
            &&& bls_public_key_decode(hex_bytes(vstd::utf8::encode_utf8(pk_hex))) matches Some(pk)
            &&& verify_outcome(sig, pk, msg) is Ok
        },
{
}

} // verus!
