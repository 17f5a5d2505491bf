//! The identity key: a secp256k1 key pair whose public key gives the service
//! its address, in the mixed-case form that carries a checksum.
//!
//! Addresses are text; text is modelled as a sequence of ASCII codes.

use vstd::prelude::*;
use crate::error::KeyError;
use crate::hex_codec::{
    ascii_chars, hex_decode, hex_encode, hex_text, hex_value, is_high_digit,
    lemma_hex_digit_value, lemma_hex_round_trip, lemma_hex_string_bytes,
};
use crate::keystore::{
    lemma_put_lookup, put, read_outcome, write_key, Files, KeyStore, ETH_KEYS,
};
use crate::scalar::{check_scalar, is_scalar, SECP256K1_ORDER};

verus! {

/// The Keccak-256 digest of `bytes`.
pub uninterp spec fn keccak256(bytes: Seq<u8>) -> Seq<u8>;

/// Feeds `bytes` to a fresh `Keccak256` hasher of `sha3` and hands back the
/// 32 bytes that `finalize` returns.
#[verifier::external_body]
fn keccak256_digest(bytes: &[u8]) -> (digest: [u8; 32])
    ensures
        digest@ == keccak256(bytes@),
{
    let mut hasher = <sha3::Keccak256 as sha3::Digest>::new();
    sha3::Digest::update(&mut hasher, bytes);
    sha3::Digest::finalize(hasher).into()
}

/// Calls `String::push`, which appends one character.
#[verifier::external_body]
fn push_char(text: &mut String, c: char)
    ensures
        final(text)@ == old(text)@.push(c),
{
    text.push(c)
}

/// Hashes arbitrary bytes to 32 bytes with Keccak-256.
pub fn keccak(bytes: &[u8]) -> (res: Result<[u8; 32], KeyError>)
    ensures
        res matches Ok(digest) && digest@ == keccak256(bytes@),
{
    Ok(keccak256_digest(bytes))
}

/// ASCII code of the lower-case form of a character.
pub open spec fn lower(code: u8) -> u8 {
    if 65 <= code <= 90 {
        (code + 32) as u8
    } else {
        code
    }
}

/// ASCII code of the upper-case form of a character.
pub open spec fn upper(code: u8) -> u8 {
    if 97 <= code <= 122 {
        (code - 32) as u8
    } else {
        code
    }
}

/// `text` with every letter in lower case.
pub open spec fn lowercase(text: Seq<u8>) -> Seq<u8> {
    Seq::new(text.len(), |i: int| lower(text[i]))
}

/// Whether `text` begins with `0x`.
pub open spec fn starts_with_0x(text: Seq<u8>) -> bool {
    text.len() >= 2 && text[0] == 48 && text[1] == 120
}

/// `text` without any `0x` that it begins with.
pub open spec fn strip_0x(text: Seq<u8>) -> Seq<u8>
    decreases text.len(),
{
    if starts_with_0x(text) {
        strip_0x(text.skip(2))
    } else {
        text
    }
}

/// The `i`-th hexadecimal digit of `hash`, as a number.
pub open spec fn nibble(hash: Seq<u8>, i: int) -> int {
    if i % 2 == 0 {
        hash[i / 2] as int / 16
    } else {
        hash[i / 2] as int % 16
    }
}

/// `body` with the letter at each position in upper case where the digit of
/// `hash` at that position is above 7.
pub open spec fn checksum_case(body: Seq<u8>, hash: Seq<u8>) -> Seq<u8> {
    Seq::new(
        body.len(),
        |i: int|
            if nibble(hash, i) > 7 {
                upper(body[i])
            } else {
                body[i]
            },
    )
}

/// The checksummed form of `address`: the address in lower case without its
/// `0x`, cased by the digits of its own Keccak-256 digest, after `0x`.
pub open spec fn checksum_text(address: Seq<u8>) -> Seq<u8> {
    let body = lowercase(strip_0x(address));
    seq![48u8, 120u8] + checksum_case(body, keccak256(body))
}

/// Stripping never lengthens the text.
pub proof fn lemma_strip_0x_len(text: Seq<u8>)
    ensures
        strip_0x(text).len() <= text.len(),
    decreases text.len(),
{
    if starts_with_0x(text) {
        lemma_strip_0x_len(text.skip(2));
    }
}

/// Whether `text` has the form of an address: `0x` and then 40 hexadecimal
/// digits, letters in either case.
pub open spec fn is_address_text(text: Seq<u8>) -> bool {
    &&& text.len() == 42
    &&& text[0] == 48
    &&& text[1] == 120
    &&& forall|i: int| 2 <= i < 42 ==> (#[trigger] hex_value(text[i])) is Some
}

/// Hexadecimal text as encoding writes it carries no `0x` and no upper-case
/// letter, so its checksummed form is `0x` and the same digits, some of the
/// letters raised.
pub proof fn lemma_checksum_of_hex_text(data: Seq<u8>)
    ensures
        !starts_with_0x(hex_text(data)),
        lowercase(strip_0x(hex_text(data))) == hex_text(data),
        checksum_text(hex_text(data)).len() == 2 + 2 * data.len(),
        checksum_text(hex_text(data))[0] == 48,
        checksum_text(hex_text(data))[1] == 120,
        forall|i: int|
            2 <= i < 2 + 2 * data.len() ==> (#[trigger] hex_value(
                checksum_text(hex_text(data))[i],
            )) is Some,
{
    let text = hex_text(data);
    assert forall|i: int| 0 <= i < text.len() implies hex_value(#[trigger] text[i]) is Some
        && lower(text[i]) == text[i] && text[i] != 120 && hex_value(upper(text[i])) is Some by {
        lemma_hex_digit_value(data[i / 2] as int / 16);
        lemma_hex_digit_value(data[i / 2] as int % 16);
    }
    assert(lowercase(text) =~= text);
    let cased = checksum_text(text);
    assert forall|i: int| 2 <= i < 2 + 2 * data.len() implies (#[trigger] hex_value(cased[i]))
        is Some by {
        assert(hex_value(text[i - 2]) is Some);
    }
}

/// The checksum is a fixed point of its own lower-case form: checksumming
/// the lower-case form of a checksummed address gives the checksummed
/// address back.
///
/// This holds of every address that, in lower case and without the `0x` it
/// begins with, does not begin with `0x` again, as no hexadecimal text does.
pub proof fn lemma_checksum_idempotent(address: Seq<u8>)
    requires
        !starts_with_0x(lowercase(strip_0x(address))),
    ensures
        checksum_text(lowercase(checksum_text(address))) == checksum_text(address),
{
    let body = lowercase(strip_0x(address));
    let again = lowercase(checksum_text(address));
    assert(again =~= seq![48u8, 120u8] + body);
    assert(starts_with_0x(again));
    assert(again.skip(2) =~= body);
    assert(strip_0x(body) == body);
    assert(strip_0x(again) == strip_0x(again.skip(2)));
    assert(lowercase(body) =~= body);
}

/// A derived address is cased exactly as the checksum of its own lower-case
/// form.
pub proof fn lemma_address_checksum_is_fixed(pk: Seq<u8>)
    ensures
        checksum_text(lowercase(eth_address(pk))) == eth_address(pk),
{
    lemma_checksum_of_hex_text(keccak256(pk.skip(1)).skip(12));
    lemma_checksum_idempotent(hex_text(keccak256(pk.skip(1)).skip(12)));
}

/// Whether the text from `start` on begins with `0x`.
fn begins_0x(text: &[u8], start: usize) -> (found: bool)
    requires
        start <= text@.len(),
    ensures
        found == starts_with_0x(text@.skip(start as int)),
{
    text.len() - start >= 2 && text[start] == 48 && text[start + 1] == 120
}

/// Cases the lower-case text `body` by the digits of `digest` and puts `0x`
/// before it: the letter at each position stands in upper case where the
/// hexadecimal digit of the digest at that position is above 7.
///
/// The digest has 64 digits, so the text has at most 64 characters.
pub fn checksum_with_digest(body: &[u8], digest: &[u8; 32]) -> (text: String)
    requires
        body@.len() <= 64,
        forall|i: int| 0 <= i < body@.len() ==> body@[i] < 128,
    ensures
        text@ == ascii_chars(seq![48u8, 120u8] + checksum_case(body@, digest@)),
{
    let digest_hex = hex_encode(digest.as_slice());
    proof {
        lemma_hex_string_bytes(digest@);
    }
    let digits = digest_hex.as_str().as_bytes();
    let mut cased = String::new();
    push_char(&mut cased, 48u8 as char);
    push_char(&mut cased, 120u8 as char);
    let ghost target = checksum_case(body@, digest@);
    let mut k: usize = 0;
    while k < body.len()
        invariant
            k <= body@.len() <= 64,
            digest@.len() == 32,
            digits@ == hex_text(digest@),
            target == checksum_case(body@, digest@),
            cased@ == ascii_chars(seq![48u8, 120u8] + target.take(k as int)),
        decreases body@.len() - k,
    {
        proof {
            lemma_hex_digit_value(nibble(digest@, k as int));
        }
        let code = body[k];
        push_char(
            &mut cased,
            (if is_high_digit(digits[k]) && 97 <= code && code <= 122 {
                code - 32
            } else {
                code
            }) as char,
        );
        assert(cased@ =~= ascii_chars(seq![48u8, 120u8] + target.take(k + 1))) by {
            assert(target.take(k + 1) =~= target.take(k as int).push(target[k as int]));
        }
        k += 1;
    }
    assert(target.take(k as int) =~= target);
    cased
}

/// Puts an address into its checksummed mixed-case form.
///
/// The address is ASCII text of at most 64 characters after its `0x`, the
/// number of digits that the digest has to case them by.
pub fn checksum(address: &str) -> (res: Result<String, KeyError>)
    requires
        address.is_ascii(),
        strip_0x(vstd::utf8::encode_utf8(address@)).len() <= 64,
    ensures
        res matches Ok(text) && text@ == ascii_chars(
            checksum_text(vstd::utf8::encode_utf8(address@)),
        ),
{
    let text = address.as_bytes();
    let len = text.len();
    proof {
        vstd::utf8::is_ascii_chars_encode_utf8(address@);
    }
    let mut start: usize = 0;
    assert(text@.skip(0) =~= text@);
    while begins_0x(text, start)
        invariant
            start <= text@.len() == len,
            strip_0x(text@) == strip_0x(text@.skip(start as int)),
        decreases text@.len() - start,
    {
        assert(text@.skip(start as int).len() >= 2);
        assert(text@.skip(start as int).skip(2) =~= text@.skip(start + 2));
        start += 2;
    }
    assert(strip_0x(text@) == text@.skip(start as int));
    let mut body: Vec<u8> = Vec::new();
    let mut i: usize = start;
    while i < text.len()
        invariant
            start <= i <= text@.len(),
            body@.len() == i - start,
            forall|j: int| 0 <= j < text@.len() ==> text@[j] < 128,
            forall|j: int|
                0 <= j < body@.len() ==> body@[j] == lower(text@[start + j]) && body@[j] < 128,
        decreases text@.len() - i,
    {
        let code = text[i];
        body.push(
            if 65 <= code && code <= 90 {
                code + 32
            } else {
                code
            },
        );
        i += 1;
    }
    assert(body@ =~= lowercase(strip_0x(text@)));
    let digest = keccak256_digest(body.as_slice());
    Ok(checksum_with_digest(body.as_slice(), &digest))
}

/// The secret key of an identity: a scalar of secp256k1, never zero.
pub struct EthSecretKey {
    pub(crate) bytes: [u8; 32],
}

/// The public key of an identity in serialized form, which for a point of
/// secp256k1 is a format byte and the two coordinates, 65 bytes in all.
#[derive(Debug, Clone)]
pub struct EthPublicKey {
    pub(crate) bytes: Vec<u8>,
}

impl View for EthSecretKey {
    type V = Seq<u8>;

    closed spec fn view(&self) -> Seq<u8> {
        self.bytes@
    }
}

impl View for EthPublicKey {
    type V = Seq<u8>;

    closed spec fn view(&self) -> Seq<u8> {
        self.bytes@
    }
}

/// A result that carries an identity secret key, with the key taken by its
/// bytes.
pub open spec fn eth_secret_key_result(res: Result<EthSecretKey, KeyError>) -> Result<
    Seq<u8>,
    KeyError,
> {
    match res {
        Ok(sk) => Ok(sk@),
        Err(e) => Err(e),
    }
}

impl EthSecretKey {
    /// A secret key is a scalar between one and the group order, exclusive.
    #[verifier::type_invariant]
    pub open spec fn wf(&self) -> bool {
        is_scalar(self@, SECP256K1_ORDER@)
    }

    /// Reads a secret key from its 32 big-endian bytes.
    pub fn parse_slice(bytes: &[u8]) -> (res: Result<EthSecretKey, KeyError>)
        ensures
            eth_secret_key_result(res) == if is_scalar(bytes@, SECP256K1_ORDER@) {
                Ok::<Seq<u8>, KeyError>(bytes@)
            } else {
                Err::<Seq<u8>, KeyError>(KeyError::InvalidKeyEncoding)
            },
    {
        if !check_scalar(bytes, &SECP256K1_ORDER) {
            return Err(KeyError::InvalidKeyEncoding);
        }
        let mut key = [0u8; 32];
        let mut i: usize = 0;
        while i < 32
            invariant
                i <= 32,
                bytes@.len() == 32,
                forall|j: int| 0 <= j < i ==> key@[j] == bytes@[j],
            decreases 32 - i,
        {
            key[i] = bytes[i];
            i += 1;
        }
        assert(key@ =~= bytes@);
        Ok(EthSecretKey { bytes: key })
    }

    /// The 32 big-endian bytes of the scalar.
    pub fn serialize(&self) -> (bytes: [u8; 32])
        ensures
            bytes@ == self@,
    {
        self.bytes
    }
}

impl EthPublicKey {
    /// The public key with the given serialized form.
    pub fn from_serialized(bytes: &[u8]) -> (pk: EthPublicKey)
        ensures
            pk@ == bytes@,
    {
        EthPublicKey { bytes: vstd::slice::slice_to_vec(bytes) }
    }

    /// The serialized form of the key.
    pub fn serialize(&self) -> (bytes: Vec<u8>)
        ensures
            bytes@ == self@,
    {
        vstd::slice::slice_to_vec(self.bytes.as_slice())
    }
}

/// The uncompressed serialization of the secp256k1 public key of the secret
/// scalar `sk`.
pub uninterp spec fn secp256k1_public_key(sk: Seq<u8>) -> Seq<u8>;

/// Calls `ecies::utils::generate_keypair`, which draws a secret key from the
/// randomness of the operating system and derives its public key, and
/// serializes both keys, the public one uncompressed. The secret is drawn
/// below the group order and drawn again until it is not zero; the
/// uncompressed form of a public key begins with the format byte 4.
#[verifier::external_body]
fn ecies_generate_keypair() -> (pair: ([u8; 32], [u8; 65]))
    ensures
        is_scalar(pair.0@, SECP256K1_ORDER@),
        pair.1@ == secp256k1_public_key(pair.0@),
        pair.1@[0] == 4,
{
    let (sk, pk) = ecies::utils::generate_keypair();
    (sk.serialize(), pk.serialize())
}

/// Makes the key pair of an identity of the serialized forms of its two
/// keys. The secret must be a scalar between one and the group order,
/// exclusive; the public key is taken as it is.
pub fn eth_key_pair(sk: &[u8], pk: &[u8]) -> (res: Result<(EthSecretKey, EthPublicKey), KeyError>)
    ensures
        match res {
            Ok((secret, public)) => {
                &&& is_scalar(sk@, SECP256K1_ORDER@)
                &&& secret@ == sk@
                &&& public@ == pk@
            },
            Err(e) => !is_scalar(sk@, SECP256K1_ORDER@) && e == (KeyError::KeyGenFailure {
                index: 0,
            }),
        },
{
    match EthSecretKey::parse_slice(sk) {
        Ok(secret) => Ok((secret, EthPublicKey::from_serialized(pk))),
        Err(_) => Err(KeyError::KeyGenFailure { index: 0 }),
    }
}

/// Generates the key pair of a new identity. This does not fail.
///
/// The pair is drawn anew on every call, so all that is known of it is that
/// the two keys belong together and have the form of their kind.
pub fn new_eth_key() -> (res: Result<(EthSecretKey, EthPublicKey), KeyError>)
    ensures
        res matches Ok((sk, pk)) && {
            &&& is_scalar(sk@, SECP256K1_ORDER@)
            &&& pk@ == secp256k1_public_key(sk@)
            &&& pk@.len() == 65
            &&& pk@[0] == 4
        },
{
    let (sk, pk) = ecies_generate_keypair();
    eth_key_pair(sk.as_slice(), pk.as_slice())
}

/// The address of the public key with the serialized form `pk`: the last 20
/// bytes of the Keccak-256 digest of the key without its format byte, in
/// hexadecimal and checksummed.
pub open spec fn eth_address(pk: Seq<u8>) -> Seq<u8> {
    checksum_text(hex_text(keccak256(pk.skip(1)).skip(12)))
}

/// Derives the address of an identity from its public key.
pub fn pk_to_eth_addr(pk: &EthPublicKey) -> (res: Result<String, KeyError>)
    ensures
        match res {
            Ok(addr) => {
                &&& pk@.len() == 65
                &&& addr@ == ascii_chars(eth_address(pk@))
                &&& is_address_text(eth_address(pk@))
            },
            Err(e) => pk@.len() != 65 && e == KeyError::InvalidPublicKeyLength,
        },
{
    let pk_bytes = pk.bytes.as_slice();
    if pk_bytes.len() != 65 {
        return Err(KeyError::InvalidPublicKeyLength);
    }
    let digest = keccak256_digest(vstd::slice::slice_subrange(pk_bytes, 1, 65));
    assert(pk@.subrange(1, 65) =~= pk@.skip(1));
    let last = vstd::slice::slice_subrange(digest.as_slice(), 12, 32);
    assert(digest@.subrange(12, 32) =~= digest@.skip(12));
    let hex_str = hex_encode(last);
    proof {
        lemma_hex_string_bytes(last@);
        lemma_strip_0x_len(hex_text(last@));
        lemma_checksum_of_hex_text(last@);
    }
    checksum(hex_str.as_str())
}

/// The name under which the secret key of the identity with the given
/// address is filed.
pub open spec fn eth_key_name(address: Seq<char>) -> Seq<char> {
    ETH_KEYS@ + address
}

/// The table after the secret key `sk` is filed under the address of the
/// public key `pk`.
pub open spec fn with_eth_key(files: Files, sk: Seq<u8>, pk: Seq<u8>) -> Files {
    put(files, eth_key_name(ascii_chars(eth_address(pk))), hex_text(sk))
}

/// Files the secret key of an identity under the address of its public key
/// and hands the public key back.
pub fn save_eth_key(store: &mut KeyStore, sk: EthSecretKey, pk: EthPublicKey) -> (res: Result<
    EthPublicKey,
    KeyError,
>)
    ensures
        match res {
            Ok(saved) => saved@ == pk@ && pk@.len() == 65 && final(store)@ == with_eth_key(
                old(store)@,
                sk@,
                pk@,
            ),
            Err(e) => pk@.len() != 65 && e == KeyError::InvalidPublicKeyLength && final(store)@
                == old(store)@,
        },
{
    let addr = match pk_to_eth_addr(&pk) {
        Ok(addr) => addr,
        Err(e) => {
            return Err(e);
        },
    };
    let sk_hex = hex_encode(sk.serialize().as_slice());
    proof {
        lemma_hex_string_bytes(sk@);
    }
    let name = String::from_str(ETH_KEYS).concat(addr.as_str());
    match write_key(store, &name, &sk_hex) {
        Ok(()) => Ok(pk),
        Err(e) => Err(e),
    }
}

/// Generates the key pair of a new identity and files the secret key under
/// the address of the public key, which is handed back. This does not fail.
pub fn eth_key_gen(store: &mut KeyStore) -> (res: Result<EthPublicKey, KeyError>)
    ensures
        res matches Ok(pk) && pk@.len() == 65 && pk@[0] == 4 && exists|sk: Seq<u8>|
            {
                &&& is_scalar(sk, SECP256K1_ORDER@)
                &&& pk@ == secp256k1_public_key(sk)
                &&& final(store)@ == #[trigger] with_eth_key(old(store)@, sk, pk@)
            },
{
    let (sk, pk) = match new_eth_key() {
        Ok(pair) => pair,
        Err(e) => {
            return Err(e);
        },
    };
    save_eth_key(store, sk, pk)
}

/// Reads the secret key of the identity with the address `fname`.
pub fn read_eth_key(store: &KeyStore, fname: &String) -> (res: Result<EthSecretKey, KeyError>)
    ensures
        eth_secret_key_result(res) == read_outcome(
            store@,
            eth_key_name(fname@),
            SECP256K1_ORDER@,
        ),
{
    let name = String::from_str(ETH_KEYS).concat(fname.as_str());
    let content = match store.read(&name) {
        Some(content) => content,
        None => {
            return Err(KeyError::NotFound);
        },
    };
    let bytes = match hex_decode(content.as_slice()) {
        Ok(bytes) => bytes,
        Err(_) => {
            return Err(KeyError::DecodeError);
        },
    };
    EthSecretKey::parse_slice(bytes.as_slice())
}

/// The secret key of an identity that was filed under the address of its
/// public key is read back under that address as the same secret.
pub proof fn lemma_saved_eth_key_reads_back(files: Files, sk: Seq<u8>, pk: Seq<u8>)
    requires
        is_scalar(sk, SECP256K1_ORDER@),
    ensures
        read_outcome(
            with_eth_key(files, sk, pk),
            eth_key_name(ascii_chars(eth_address(pk))),
            SECP256K1_ORDER@,
        ) == Ok::<Seq<u8>, KeyError>(sk),
{
    lemma_put_lookup(files, eth_key_name(ascii_chars(eth_address(pk))), hex_text(sk));
    lemma_hex_round_trip(sk);
}

} // verus!
