use signer_keys::scalar::{BLS12_381_ORDER, SECP256K1_ORDER};
use signer_keys::{
    aggregate_non_uniform_bls_sigs, aggregate_public_keys, aggregate_uniform_bls_sigs,
    bls_key_gen, bls_key_provision, bls_sign, checksum, checksum_with_digest, dist_bls_key_gen,
    encrypt_bls_key, eth_key_gen, eth_key_pair, keccak, list_bls_keys, new_bls_key, new_eth_key,
    pk_to_eth_addr, provision_response, read_bls_key,
    read_eth_key, save_bls_key, save_eth_key, verify_bls_sig, write_key, AggregatePublicKey,
    BlsPublicKey, BlsSecretKey, BlsSignature, EthPublicKey, EthSecretKey, KeyError, KeyStore,
    CIPHER_SUITE,
};

fn ikm(seed: u8) -> [u8; 32] {
    let mut bytes = [0u8; 32];
    for (i, b) in bytes.iter_mut().enumerate() {
        *b = seed.wrapping_mul(31).wrapping_add(i as u8);
    }
    bytes
}

fn key(seed: u8) -> BlsSecretKey {
    BlsSecretKey::key_gen(&ikm(seed), &[]).unwrap()
}

fn minus_one(order: &[u8; 32]) -> [u8; 32] {
    let mut bytes = *order;
    bytes[31] -= 1;
    bytes
}

fn plus_one(order: &[u8; 32]) -> [u8; 32] {
    let mut bytes = *order;
    bytes[31] += 1;
    bytes
}

#[test]
fn cipher_suite_is_the_protocol_constant() {
    assert_eq!(&CIPHER_SUITE[..], &b"BLS_SIG_BLS12381G2_XMD:SHA-256_SSWU_RO_NUL_"[..]);
    assert_eq!(CIPHER_SUITE.len(), 43);
}

#[test]
fn keccak_of_known_inputs() {
    assert_eq!(
        hex::encode(keccak(b"").unwrap()),
        "c5d2460186f7233c927e7db2dcc703c0e500b653ca82273b7bfad8045d85a470"
    );
    assert_eq!(
        hex::encode(keccak(b"abc").unwrap()),
        "4e03657aea45a94fc7d47ba826c8d667c0d1e6e33a64a036ec44f58fa12d6c45"
    );
}

#[test]
fn checksum_of_known_addresses() {
    let known = [
        "0x5aAeb6053F3E94C9b9A09f33669435E7Ef1BeAed",
        "0xfB6916095ca1df60bB79Ce92cE3Ea74c37c5d359",
        "0xdbF03B407c01E7cD3CBea99509d93f8DDDC8C6FB",
        "0xD1220A0cf47c7B9Be7A2E6BA89F429762e7b9aDb",
        "0x52908400098527886E0F7030069857D2E4169EE7",
        "0x8617E340B3D01FA5F11F306F4090FD50E238070D",
        "0xde709f2102306220921060314715629080e2fb77",
        "0x27b1fdb04752bbc536007a920d24acb045561c26",
    ];
    for address in known {
        let lower = address.to_lowercase();
        assert_eq!(checksum(&lower).unwrap(), address);
        assert_eq!(checksum(&lower[2..]).unwrap(), address);
        assert_eq!(checksum(address).unwrap(), address);
    }
}

#[test]
fn checksum_strips_every_leading_0x_and_cases_any_text() {
    assert_eq!(checksum("").unwrap(), "0x");
    assert_eq!(checksum("0x").unwrap(), "0x");
    assert_eq!(
        checksum("0x0x5aaeb6053f3e94c9b9a09f33669435e7ef1beaed").unwrap(),
        "0x5aAeb6053F3E94C9b9A09f33669435E7Ef1BeAed"
    );
    let sixty_four = "ab".repeat(32);
    let cased = checksum(&sixty_four).unwrap();
    assert_eq!(cased.len(), 66);
    assert_eq!(cased.to_lowercase(), format!("0x{}", sixty_four));
}

#[test]
fn casing_follows_the_digits_of_the_digest() {
    let body = b"5aaeb6053f3e94c9b9a09f33669435e7ef1beaed";
    let digest = keccak(body).unwrap();
    assert_eq!(
        checksum_with_digest(body, &digest),
        "0x5aAeb6053F3E94C9b9A09f33669435E7Ef1BeAed"
    );
    assert_eq!(
        checksum_with_digest(body, &[0xff; 32]),
        "0x5AAEB6053F3E94C9B9A09F33669435E7EF1BEAED"
    );
    assert_eq!(
        checksum_with_digest(body, &[0x77; 32]),
        "0x5aaeb6053f3e94c9b9a09f33669435e7ef1beaed"
    );
    // digits 8 and 7 in turn: every other letter is raised
    assert_eq!(checksum_with_digest(b"abcdef", &[0x87; 32]), "0xAbCdEf");
    assert_eq!(checksum_with_digest(b"abcdef", &[0x78; 32]), "0xaBcDeF");
    // only letters change, and only lower-case ones
    assert_eq!(checksum_with_digest(b"a1-zZ~", &[0xff; 32]), "0xA1-ZZ~");
    assert_eq!(checksum_with_digest(b"", &[0xff; 32]), "0x");
    let mut last_low = [0xffu8; 32];
    last_low[31] = 0xf0;
    let sixty_four = "f".repeat(64);
    assert_eq!(
        checksum_with_digest(sixty_four.as_bytes(), &last_low),
        format!("0x{}f", "F".repeat(63))
    );
}

#[test]
fn key_pair_is_made_of_a_valid_secret_only() {
    let mut one = [0u8; 32];
    one[31] = 1;
    let (sk, pk) = eth_key_pair(&one, &[4u8; 65]).unwrap();
    assert_eq!(sk.serialize(), one);
    assert_eq!(pk.serialize(), vec![4u8; 65]);
    for bad in [&[0u8; 32][..], &SECP256K1_ORDER[..], &one[..31], &[]] {
        assert_eq!(
            eth_key_pair(bad, &[4u8; 65]).map(|(sk, _)| sk.serialize()),
            Err(KeyError::KeyGenFailure { index: 0 })
        );
    }
}

#[test]
fn generated_identity_keys_have_their_form() {
    for _ in 0..16 {
        let (sk, pk) = new_eth_key().unwrap();
        assert!(ecies::SecretKey::parse_slice(&sk.serialize()).is_ok());
        assert_eq!(pk.serialize().len(), 65);
        assert_eq!(pk.serialize()[0], 4);
    }
    let mut store = KeyStore::new();
    for i in 0..4 {
        let pk = eth_key_gen(&mut store).unwrap();
        assert_eq!(pk.serialize()[0], 4);
        assert_eq!(store.files().len(), i + 1);
    }
}

#[test]
fn secret_key_is_encrypted_to_the_requester() {
    let (eth_sk, eth_pk) = new_eth_key().unwrap();
    let sk = key(60);
    let (ct_hex, pk) = encrypt_bls_key(&sk, &hex::encode(eth_pk.serialize())).unwrap();
    assert_eq!(pk.compress(), sk.sk_to_pk().compress());
    let ct = hex::decode(&ct_hex).unwrap();
    assert_eq!(hex::encode(&ct), ct_hex);
    assert_eq!(ecies::decrypt(&eth_sk.serialize(), &ct).unwrap(), sk.to_bytes().to_vec());

    let (other_sk, _) = new_eth_key().unwrap();
    assert!(ecies::decrypt(&other_sk.serialize(), &ct).is_err());

    let encrypt = |pk_hex: &str| {
        encrypt_bls_key(&sk, &pk_hex.to_string()).map(|(ct, pk)| (ct, pk.compress()))
    };
    assert_eq!(encrypt("0g"), Err(KeyError::DecodeError));
    assert_eq!(encrypt("abc"), Err(KeyError::DecodeError));
    assert_eq!(encrypt("00"), Err(KeyError::EncryptionFailure));
}

#[test]
fn checksum_is_a_fixed_point_of_its_lower_case_form() {
    for text in ["5aaeb6053f3e94c9b9a09f33669435e7ef1beaed", "0xABCDEF", "hello, world", "0"] {
        let once = checksum(text).unwrap();
        let again = checksum(&once.to_lowercase()).unwrap();
        assert_eq!(again, once);
    }
}

#[test]
fn checksum_of_text_that_hides_a_second_0x_is_no_fixed_point() {
    let once = checksum("0Xab").unwrap();
    assert_eq!(once.to_lowercase(), "0x0xab");
    let again = checksum(&once.to_lowercase()).unwrap();
    assert_eq!(again.to_lowercase(), "0xab");
    assert_ne!(again, once);
}

#[test]
fn address_of_the_key_with_secret_one() {
    let mut secret = [0u8; 32];
    secret[31] = 1;
    let sk = ecies::SecretKey::parse_slice(&secret).unwrap();
    let pk = ecies::PublicKey::from_secret_key(&sk);
    let pk = EthPublicKey::from_serialized(&pk.serialize());
    assert_eq!(pk_to_eth_addr(&pk).unwrap(), "0x7E5F4552091A69125d5DfCb7b8C2659029395Bdf");
}

#[test]
fn address_has_the_form_of_an_address_and_is_its_own_checksum() {
    for _ in 0..8 {
        let (_, pk) = new_eth_key().unwrap();
        let first = pk_to_eth_addr(&pk).unwrap();
        let second = pk_to_eth_addr(&pk).unwrap();
        assert_eq!(first, second);
        assert_eq!(first.len(), 42);
        assert!(first.starts_with("0x"));
        assert!(first[2..].chars().all(|c| c.is_ascii_hexdigit()));
        assert_eq!(checksum(&first.to_lowercase()).unwrap(), first);
    }
}

#[test]
fn address_needs_a_key_of_65_bytes() {
    let (_, pk) = new_eth_key().unwrap();
    let bytes = pk.serialize();
    assert_eq!(bytes.len(), 65);
    assert_eq!(bytes[0], 4);
    let short = EthPublicKey::from_serialized(&bytes[..33]);
    assert_eq!(pk_to_eth_addr(&short), Err(KeyError::InvalidPublicKeyLength));
    let empty = EthPublicKey::from_serialized(&[]);
    assert_eq!(pk_to_eth_addr(&empty), Err(KeyError::InvalidPublicKeyLength));
    let mut store = KeyStore::new();
    let (sk, _) = new_eth_key().unwrap();
    assert_eq!(
        save_eth_key(&mut store, sk, short).map(|pk| pk.serialize()),
        Err(KeyError::InvalidPublicKeyLength)
    );
    assert!(store.files().is_empty());
}

#[test]
fn bls_secret_keys_are_the_scalars_that_blst_takes() {
    let mut one = [0u8; 32];
    one[31] = 1;
    let candidates: Vec<Vec<u8>> = vec![
        vec![0u8; 32],
        one.to_vec(),
        BLS12_381_ORDER.to_vec(),
        minus_one(&BLS12_381_ORDER).to_vec(),
        plus_one(&BLS12_381_ORDER).to_vec(),
        vec![0xff; 32],
        vec![0x73; 32],
        vec![1u8; 31],
        vec![1u8; 33],
        vec![],
    ];
    let expected = [false, true, false, true, false, false, true, false, false, false];
    for (bytes, ok) in candidates.iter().zip(expected) {
        let ours = BlsSecretKey::from_bytes(bytes);
        assert_eq!(ours.is_ok(), ok);
        assert_eq!(ours.is_ok(), blst::min_pk::SecretKey::from_bytes(bytes).is_ok());
        match ours {
            Ok(sk) => assert_eq!(sk.to_bytes().to_vec(), *bytes),
            Err(e) => assert_eq!(e, KeyError::InvalidKeyEncoding),
        }
    }
}

#[test]
fn identity_secret_keys_are_the_scalars_that_secp256k1_takes() {
    let mut one = [0u8; 32];
    one[31] = 1;
    let candidates: Vec<Vec<u8>> = vec![
        vec![0u8; 32],
        one.to_vec(),
        SECP256K1_ORDER.to_vec(),
        minus_one(&SECP256K1_ORDER).to_vec(),
        plus_one(&SECP256K1_ORDER).to_vec(),
        vec![0xff; 32],
        vec![1u8; 31],
        vec![1u8; 33],
    ];
    let expected = [false, true, false, true, false, false, false, false];
    for (bytes, ok) in candidates.iter().zip(expected) {
        let ours = EthSecretKey::parse_slice(bytes);
        assert_eq!(ours.is_ok(), ok);
        assert_eq!(ours.is_ok(), ecies::SecretKey::parse_slice(bytes).is_ok());
        match ours {
            Ok(sk) => assert_eq!(sk.serialize().to_vec(), *bytes),
            Err(e) => assert_eq!(e, KeyError::InvalidKeyEncoding),
        }
    }
}

#[test]
fn key_generation_is_that_of_blst() {
    for seed in 0..4u8 {
        let material = ikm(seed);
        let ours = BlsSecretKey::key_gen(&material, &[]).unwrap();
        let theirs = blst::min_pk::SecretKey::key_gen(&material, &[]).unwrap();
        assert_eq!(ours.to_bytes(), theirs.to_bytes());
        assert_eq!(ours.serialize(), theirs.serialize());
        assert_ne!(ours.to_bytes(), material);
        assert_eq!(ours.sk_to_pk().compress(), theirs.sk_to_pk().compress());
        assert_eq!(ours.sk_to_pk().to_bytes(), theirs.sk_to_pk().to_bytes());
        let with_info = BlsSecretKey::key_gen(&material, b"info").unwrap();
        assert_ne!(with_info.to_bytes(), ours.to_bytes());
    }
}

#[test]
fn key_generation_needs_32_bytes_of_material() {
    for len in [0usize, 1, 31] {
        let short = vec![7u8; len];
        let res = BlsSecretKey::key_gen(&short, &[]).map(|sk| sk.to_bytes());
        assert_eq!(res, Err(KeyError::KeyGenFailure { index: 0 }));
    }
    assert!(BlsSecretKey::key_gen(&[7u8; 32], &[]).is_ok());
    assert!(BlsSecretKey::key_gen(&[7u8; 48], &[]).is_ok());
}

#[test]
fn fresh_keys_differ() {
    let a = new_bls_key().unwrap();
    let b = new_bls_key().unwrap();
    assert_ne!(a.to_bytes(), b.to_bytes());
}

#[test]
fn signature_is_that_of_blst() {
    let sk = key(1);
    let theirs = blst::min_pk::SecretKey::from_bytes(&sk.to_bytes()).unwrap();
    for msg in [&b""[..], b"yadayada", &[0xffu8; 300]] {
        let sig = sk.sign(msg, &CIPHER_SUITE, &[]);
        assert_eq!(sig.to_bytes(), theirs.sign(msg, &CIPHER_SUITE, &[]).to_bytes());
        assert_ne!(sig.to_bytes(), sk.sign(msg, b"OTHER_TAG", &[]).to_bytes());
        assert_ne!(sig.to_bytes(), sk.sign(msg, &CIPHER_SUITE, b"aug").to_bytes());
    }
}

#[test]
fn signature_verifies_under_its_key_only() {
    let sk = key(2);
    let pk = sk.sk_to_pk();
    let msg = b"yadayada";
    let sig = sk.sign(msg, &CIPHER_SUITE, &[]);
    assert_eq!(verify_bls_sig(sig, pk, msg), Ok(()));

    let other = new_bls_key().unwrap().sk_to_pk();
    assert_eq!(verify_bls_sig(sig, other, msg), Err(KeyError::SignatureInvalid { index: 0 }));
    assert_eq!(
        verify_bls_sig(sig, pk, b"yadayadb"),
        Err(KeyError::SignatureInvalid { index: 0 })
    );
    let under_other_tag = sk.sign(msg, b"OTHER_TAG", &[]);
    assert_eq!(
        verify_bls_sig(under_other_tag, pk, msg),
        Err(KeyError::SignatureInvalid { index: 0 })
    );
    let augmented = sk.sign(msg, &CIPHER_SUITE, b"aug");
    assert_eq!(verify_bls_sig(augmented, pk, msg), Err(KeyError::SignatureInvalid { index: 0 }));
}

#[test]
fn public_key_is_read_from_both_serializations() {
    let sk = key(3);
    let pk = sk.sk_to_pk();
    let theirs = blst::min_pk::PublicKey::from_bytes(&pk.compress()).unwrap();

    let from_compressed = BlsPublicKey::from_bytes(&theirs.compress()).unwrap();
    assert!(from_compressed.same_as(&pk));
    let from_uncompressed = BlsPublicKey::from_bytes(&theirs.serialize()).unwrap();
    assert_eq!(from_uncompressed.compress(), pk.compress());
    assert!(from_uncompressed.same_as(&pk));
    assert!(!key(4).sk_to_pk().same_as(&pk));

    assert_eq!(
        BlsPublicKey::from_bytes(&[0u8; 48]).map(|pk| pk.compress()),
        Err(KeyError::InvalidPublicKey)
    );
    assert_eq!(
        BlsPublicKey::from_bytes(&[]).map(|pk| pk.compress()),
        Err(KeyError::InvalidPublicKey)
    );
    assert_eq!(
        BlsPublicKey::from_bytes(&pk.compress()[..47]).map(|pk| pk.compress()),
        Err(KeyError::InvalidPublicKey)
    );
}

#[test]
fn signature_is_read_from_both_serializations() {
    let sk = key(3);
    let pk = sk.sk_to_pk();
    let msg = b"read me back";
    let sig = sk.sign(msg, &CIPHER_SUITE, &[]);
    let theirs = blst::min_pk::Signature::from_bytes(&sig.to_bytes()).unwrap();

    let from_compressed = BlsSignature::from_bytes(&theirs.compress()).unwrap();
    assert_eq!(from_compressed.to_bytes(), sig.to_bytes());
    let from_uncompressed = BlsSignature::from_bytes(&theirs.serialize()).unwrap();
    assert_eq!(from_uncompressed.to_bytes(), sig.to_bytes());
    assert_eq!(verify_bls_sig(from_uncompressed, pk, msg), Ok(()));

    for bad in [&[][..], &[0u8; 96], &sig.to_bytes()[..95], &[0xffu8; 192]] {
        assert_eq!(
            BlsSignature::from_bytes(bad).map(|sig| sig.to_bytes()),
            Err(KeyError::InvalidKeyEncoding)
        );
    }
}

#[test]
fn one_key_is_its_own_aggregate() {
    let sk = key(4);
    let pk = sk.sk_to_pk();
    let msg = b"alone";
    let sig = sk.sign(msg, &CIPHER_SUITE, &[]);
    let agg_pk = AggregatePublicKey::from_public_key(&pk);
    assert_eq!(agg_pk.to_public_key().compress(), pk.compress());
    assert_eq!(aggregate_uniform_bls_sigs(agg_pk, vec![&sig], msg), Ok(()));
    let other = AggregatePublicKey::from_public_key(&key(5).sk_to_pk());
    assert_eq!(
        aggregate_uniform_bls_sigs(other, vec![&sig], msg),
        Err(KeyError::SignatureInvalid { index: 0 })
    );
}

#[test]
fn store_overwrites_and_lists_in_order() {
    let mut store = KeyStore::new();
    assert_eq!(list_bls_keys(&store), Ok(vec![]));
    assert_eq!(store.read(&"bls_keys/aa".to_string()), None);

    write_key(&mut store, &"bls_keys/aa".to_string(), &"01".to_string()).unwrap();
    write_key(&mut store, &"eth_keys/0xAb".to_string(), &"02".to_string()).unwrap();
    write_key(&mut store, &"bls_keys/bb".to_string(), &"03".to_string()).unwrap();
    write_key(&mut store, &"bls_keys".to_string(), &"04".to_string()).unwrap();
    write_key(&mut store, &"bls_keys/".to_string(), &"05".to_string()).unwrap();
    assert_eq!(store.files().len(), 5);
    assert_eq!(store.read(&"bls_keys/aa".to_string()), Some(&b"01".to_vec()));
    assert_eq!(store.read(&"bls_keys/bb".to_string()), Some(&b"03".to_vec()));
    assert_eq!(store.read(&"bls_keys/cc".to_string()), None);
    assert_eq!(
        list_bls_keys(&store),
        Ok(vec!["aa".to_string(), "bb".to_string(), "".to_string()])
    );

    write_key(&mut store, &"bls_keys/aa".to_string(), &"0606".to_string()).unwrap();
    assert_eq!(store.files().len(), 5);
    assert_eq!(store.files()[0].name, "bls_keys/aa");
    assert_eq!(store.files()[0].content, b"0606".to_vec());
    assert_eq!(store.read(&"bls_keys/aa".to_string()), Some(&b"0606".to_vec()));
    assert_eq!(store.read(&"bls_keys/bb".to_string()), Some(&b"03".to_vec()));

    store.write(&"bls_keys/bb".to_string(), &[0xff, 0x00]);
    assert_eq!(store.read(&"bls_keys/bb".to_string()), Some(&vec![0xff, 0x00]));
}

#[test]
fn saved_bls_key_is_filed_under_its_public_key_in_hex() {
    let mut store = KeyStore::new();
    let sk = key(5);
    let pk = save_bls_key(&mut store, &sk).unwrap();
    assert_eq!(pk.compress(), sk.sk_to_pk().compress());
    assert_eq!(store.files().len(), 1);
    assert_eq!(store.files()[0].name, format!("bls_keys/{}", hex::encode(pk.compress())));
    assert_eq!(store.files()[0].content, hex::encode(sk.to_bytes()).into_bytes());
    assert_eq!(list_bls_keys(&store), Ok(vec![hex::encode(pk.compress())]));

    let back = read_bls_key(&store, &hex::encode(pk.compress())).unwrap();
    assert_eq!(back.to_bytes(), sk.to_bytes());
    assert_eq!(back.sk_to_pk().compress(), pk.compress());
}

#[test]
fn generated_bls_key_is_saved_only_on_request() {
    let mut store = KeyStore::new();
    let unsaved = bls_key_gen(&mut store, false).unwrap();
    assert!(store.files().is_empty());
    assert_eq!(
        read_bls_key(&store, &hex::encode(unsaved.compress())).map(|sk| sk.to_bytes()),
        Err(KeyError::NotFound)
    );

    let saved = bls_key_gen(&mut store, true).unwrap();
    assert_eq!(store.files().len(), 1);
    let sk = read_bls_key(&store, &hex::encode(saved.compress())).unwrap();
    assert_eq!(sk.sk_to_pk().compress(), saved.compress());
}

#[test]
fn stored_key_file_is_read_in_either_case_of_hex() {
    let mut store = KeyStore::new();
    let sk = key(6);
    let upper = hex::encode_upper(sk.to_bytes());
    write_key(&mut store, &"bls_keys/id".to_string(), &upper).unwrap();
    assert_eq!(read_bls_key(&store, &"id".to_string()).unwrap().to_bytes(), sk.to_bytes());
}

#[test]
fn reading_a_bls_key_reports_what_is_wrong_with_the_file() {
    let mut store = KeyStore::new();
    let read = |store: &KeyStore, id: &str| {
        read_bls_key(store, &id.to_string()).map(|sk| sk.to_bytes())
    };
    assert_eq!(read(&store, "missing"), Err(KeyError::NotFound));

    write_key(&mut store, &"bls_keys/odd".to_string(), &"abc".to_string()).unwrap();
    assert_eq!(read(&store, "odd"), Err(KeyError::DecodeError));
    write_key(&mut store, &"bls_keys/nohex".to_string(), &"zz".repeat(32)).unwrap();
    assert_eq!(read(&store, "nohex"), Err(KeyError::DecodeError));
    write_key(&mut store, &"bls_keys/newline".to_string(), &format!("{}\n", "01".repeat(32)))
        .unwrap();
    assert_eq!(read(&store, "newline"), Err(KeyError::DecodeError));

    write_key(&mut store, &"bls_keys/zero".to_string(), &"00".repeat(32)).unwrap();
    assert_eq!(read(&store, "zero"), Err(KeyError::InvalidKeyEncoding));
    write_key(&mut store, &"bls_keys/short".to_string(), &"01".repeat(31)).unwrap();
    assert_eq!(read(&store, "short"), Err(KeyError::InvalidKeyEncoding));
    write_key(&mut store, &"bls_keys/order".to_string(), &hex::encode(BLS12_381_ORDER)).unwrap();
    assert_eq!(read(&store, "order"), Err(KeyError::InvalidKeyEncoding));
    write_key(&mut store, &"bls_keys/empty".to_string(), &String::new()).unwrap();
    assert_eq!(read(&store, "empty"), Err(KeyError::InvalidKeyEncoding));

    write_key(&mut store, &"eth_keys/only".to_string(), &"01".repeat(32)).unwrap();
    assert_eq!(read(&store, "only"), Err(KeyError::NotFound));
}

#[test]
fn reading_an_identity_key_reports_what_is_wrong_with_the_file() {
    let mut store = KeyStore::new();
    let read = |store: &KeyStore, id: &str| {
        read_eth_key(store, &id.to_string()).map(|sk| sk.serialize())
    };
    assert_eq!(read(&store, "0xmissing"), Err(KeyError::NotFound));
    write_key(&mut store, &"eth_keys/bad".to_string(), &"0g".to_string()).unwrap();
    assert_eq!(read(&store, "bad"), Err(KeyError::DecodeError));
    write_key(&mut store, &"eth_keys/order".to_string(), &hex::encode(SECP256K1_ORDER)).unwrap();
    assert_eq!(read(&store, "order"), Err(KeyError::InvalidKeyEncoding));
    write_key(&mut store, &"eth_keys/ok".to_string(), &hex::encode(BLS12_381_ORDER)).unwrap();
    assert_eq!(read(&store, "ok"), Ok(BLS12_381_ORDER));
}

#[test]
fn saved_identity_key_is_filed_under_its_address() {
    let mut store = KeyStore::new();
    let (sk, pk) = new_eth_key().unwrap();
    let secret = sk.serialize();
    let address = pk_to_eth_addr(&pk).unwrap();
    let saved = save_eth_key(&mut store, sk, pk.clone()).unwrap();
    assert_eq!(saved.serialize(), pk.serialize());
    assert_eq!(store.files().len(), 1);
    assert_eq!(store.files()[0].name, format!("eth_keys/{}", address));
    assert_eq!(store.files()[0].content, hex::encode(secret).into_bytes());
    assert_eq!(read_eth_key(&store, &address).unwrap().serialize(), secret);
    assert_eq!(list_bls_keys(&store), Ok(vec![]));
}

#[test]
fn generated_identity_key_pair_belongs_together() {
    let mut store = KeyStore::new();
    let pk = eth_key_gen(&mut store).unwrap();
    let sk = read_eth_key(&store, &pk_to_eth_addr(&pk).unwrap()).unwrap();
    let theirs = ecies::SecretKey::parse_slice(&sk.serialize()).unwrap();
    assert_eq!(ecies::PublicKey::from_secret_key(&theirs).serialize().to_vec(), pk.serialize());
}

#[test]
fn signing_checks_the_identifier_and_the_stored_key() {
    let mut store = KeyStore::new();
    let sk = key(7);
    let pk = save_bls_key(&mut store, &sk).unwrap();
    let pk_hex = hex::encode(pk.compress());
    let msg = b"duty";
    let sign = |store: &KeyStore, id: &str| {
        bls_sign(store, &id.to_string(), msg).map(|sig| sig.to_bytes())
    };

    let sig = bls_sign(&store, &pk_hex, msg).unwrap();
    assert_eq!(sig.to_bytes(), sk.sign(msg, &CIPHER_SUITE, &[]).to_bytes());
    assert_eq!(verify_bls_sig(sig, pk, msg), Ok(()));

    assert_eq!(sign(&store, "not hex"), Err(KeyError::InvalidPublicKey));
    assert_eq!(sign(&store, "abc"), Err(KeyError::InvalidPublicKey));
    assert_eq!(sign(&store, &"00".repeat(48)), Err(KeyError::InvalidPublicKey));
    assert_eq!(sign(&store, ""), Err(KeyError::InvalidPublicKey));

    let stranger = hex::encode(key(8).sk_to_pk().compress());
    assert_eq!(sign(&store, &stranger), Err(KeyError::NotFound));

    write_key(&mut store, &format!("bls_keys/{}", stranger), &hex::encode(sk.to_bytes()))
        .unwrap();
    assert_eq!(sign(&store, &stranger), Err(KeyError::KeyMismatch));

    write_key(&mut store, &format!("bls_keys/{}", stranger), &"xx".to_string()).unwrap();
    assert_eq!(sign(&store, &stranger), Err(KeyError::DecodeError));
    write_key(&mut store, &format!("bls_keys/{}", stranger), &"00".repeat(32)).unwrap();
    assert_eq!(sign(&store, &stranger), Err(KeyError::InvalidKeyEncoding));
}

#[test]
fn signing_under_the_uncompressed_identifier_finds_no_file() {
    let mut store = KeyStore::new();
    let sk = key(9);
    let pk = save_bls_key(&mut store, &sk).unwrap();
    let theirs = blst::min_pk::PublicKey::from_bytes(&pk.compress()).unwrap();
    let uncompressed_hex = hex::encode(theirs.serialize());
    assert_eq!(
        bls_sign(&store, &uncompressed_hex, b"m").map(|sig| sig.to_bytes()),
        Err(KeyError::NotFound)
    );
    let upper_hex = hex::encode_upper(pk.compress());
    assert_eq!(
        bls_sign(&store, &upper_hex, b"m").map(|sig| sig.to_bytes()),
        Err(KeyError::NotFound)
    );
}

#[test]
fn aggregate_public_key_is_that_of_blst() {
    let sks: Vec<BlsSecretKey> = (10..14u8).map(key).collect();
    let agg = aggregate_public_keys(&sks).unwrap();
    let pks: Vec<blst::min_pk::PublicKey> = sks
        .iter()
        .map(|sk| blst::min_pk::SecretKey::from_bytes(&sk.to_bytes()).unwrap().sk_to_pk())
        .collect();
    let refs: Vec<&blst::min_pk::PublicKey> = pks.iter().collect();
    let theirs = blst::min_pk::AggregatePublicKey::aggregate(&refs, true).unwrap();
    assert_eq!(agg.to_public_key().compress(), theirs.to_public_key().compress());
    assert_ne!(agg.to_public_key().compress(), sks[0].sk_to_pk().compress());

    let single = aggregate_public_keys(&sks[..1].iter().map(|sk| key_copy(sk)).collect()).unwrap();
    assert_eq!(single.to_public_key().compress(), sks[0].sk_to_pk().compress());
}

fn key_copy(sk: &BlsSecretKey) -> BlsSecretKey {
    BlsSecretKey::from_bytes(&sk.to_bytes()).unwrap()
}

#[test]
fn no_keys_give_no_aggregate() {
    assert_eq!(
        aggregate_public_keys(&vec![]).map(|agg| agg.to_public_key().compress()),
        Err(KeyError::AggregationFailure)
    );
    assert_eq!(
        dist_bls_key_gen(0).map(|(agg, sks)| (agg.to_public_key().compress(), sks.len())),
        Err(KeyError::AggregationFailure)
    );
}

#[test]
fn distributed_keys_are_independent_and_aggregate_to_the_returned_key() {
    let (agg_pk, sks) = dist_bls_key_gen(5).unwrap();
    assert_eq!(sks.len(), 5);
    for i in 0..5 {
        for j in 0..i {
            assert_ne!(sks[i].to_bytes(), sks[j].to_bytes());
        }
    }
    let again = aggregate_public_keys(&sks).unwrap();
    assert_eq!(again.to_public_key().compress(), agg_pk.to_public_key().compress());
}

fn uniform_set(n: u8, msg: &[u8]) -> (Vec<BlsSecretKey>, Vec<BlsSignature>) {
    let sks: Vec<BlsSecretKey> = (20..20 + n).map(key).collect();
    let sigs = sks.iter().map(|sk| sk.sign(msg, &CIPHER_SUITE, &[])).collect();
    (sks, sigs)
}

#[test]
fn uniform_aggregate_needs_every_signature() {
    let msg = [0x5au8; 256];
    for n in [1u8, 2, 10] {
        let (sks, sigs) = uniform_set(n, &msg);
        let agg_pk = aggregate_public_keys(&sks).unwrap();
        let all: Vec<&BlsSignature> = sigs.iter().collect();
        assert_eq!(aggregate_uniform_bls_sigs(agg_pk, all, &msg), Ok(()));

        for left_out in 0..n as usize {
            let rest: Vec<&BlsSignature> = sigs
                .iter()
                .enumerate()
                .filter(|(i, _)| *i != left_out)
                .map(|(_, sig)| sig)
                .collect();
            let expected = if n == 1 {
                Err(KeyError::EmptyInput)
            } else {
                Err(KeyError::SignatureInvalid { index: 0 })
            };
            assert_eq!(aggregate_uniform_bls_sigs(agg_pk, rest, &msg), expected);
        }
    }
}

#[test]
fn uniform_aggregate_fails_on_another_message_or_a_foreign_signature() {
    let msg = b"one message for all";
    let (sks, sigs) = uniform_set(3, msg);
    let agg_pk = aggregate_public_keys(&sks).unwrap();
    let all: Vec<&BlsSignature> = sigs.iter().collect();
    assert_eq!(
        aggregate_uniform_bls_sigs(agg_pk, all.clone(), b"another message"),
        Err(KeyError::SignatureInvalid { index: 0 })
    );
    let foreign = key(99).sign(msg, &CIPHER_SUITE, &[]);
    let mut swapped = all.clone();
    swapped[1] = &foreign;
    assert_eq!(
        aggregate_uniform_bls_sigs(agg_pk, swapped, msg),
        Err(KeyError::SignatureInvalid { index: 0 })
    );
    assert_eq!(aggregate_uniform_bls_sigs(agg_pk, vec![], msg), Err(KeyError::EmptyInput));
}

fn non_uniform_set(n: u8) -> (Vec<BlsPublicKey>, Vec<Vec<u8>>, Vec<BlsSignature>) {
    let sks: Vec<BlsSecretKey> = (40..40 + n).map(key).collect();
    let msgs: Vec<Vec<u8>> = (0..n).map(|i| vec![i; 1 + i as usize]).collect();
    let sigs = sks
        .iter()
        .zip(msgs.iter())
        .map(|(sk, msg)| sk.sign(msg, &CIPHER_SUITE, &[]))
        .collect();
    (sks.iter().map(|sk| sk.sk_to_pk()).collect(), msgs, sigs)
}

#[test]
fn non_uniform_aggregate_verifies() {
    for n in [1u8, 2, 10] {
        let (pks, msgs, sigs) = non_uniform_set(n);
        assert_eq!(
            aggregate_non_uniform_bls_sigs(
                sigs.iter().collect(),
                pks.iter().collect(),
                msgs.iter().map(|m| m.as_slice()).collect()
            ),
            Ok(())
        );
    }
}

#[test]
fn non_uniform_aggregate_reports_the_first_signature_that_fails() {
    let n = 6u8;
    let (pks, msgs, sigs) = non_uniform_set(n);
    let foreign = key(98).sign(b"foreign", &CIPHER_SUITE, &[]);
    for bad in 0..n as usize {
        let mut bad_sigs: Vec<&BlsSignature> = sigs.iter().collect();
        bad_sigs[bad] = &foreign;
        assert_eq!(
            aggregate_non_uniform_bls_sigs(
                bad_sigs,
                pks.iter().collect(),
                msgs.iter().map(|m| m.as_slice()).collect()
            ),
            Err(KeyError::SignatureInvalid { index: bad })
        );

        let mut bad_msgs: Vec<&[u8]> = msgs.iter().map(|m| m.as_slice()).collect();
        bad_msgs[bad] = b"substituted";
        assert_eq!(
            aggregate_non_uniform_bls_sigs(sigs.iter().collect(), pks.iter().collect(), bad_msgs),
            Err(KeyError::SignatureInvalid { index: bad })
        );
    }

    let mut two_bad: Vec<&BlsSignature> = sigs.iter().collect();
    two_bad[4] = &foreign;
    two_bad[2] = &foreign;
    assert_eq!(
        aggregate_non_uniform_bls_sigs(
            two_bad,
            pks.iter().collect(),
            msgs.iter().map(|m| m.as_slice()).collect()
        ),
        Err(KeyError::SignatureInvalid { index: 2 })
    );
}

#[test]
fn non_uniform_aggregate_checks_the_lengths_first() {
    let (pks, msgs, sigs) = non_uniform_set(3);
    let all_msgs = || msgs.iter().map(|m| m.as_slice()).collect::<Vec<&[u8]>>();
    assert_eq!(aggregate_non_uniform_bls_sigs(vec![], vec![], vec![]), Err(KeyError::EmptyInput));
    assert_eq!(
        aggregate_non_uniform_bls_sigs(vec![], pks.iter().collect(), all_msgs()),
        Err(KeyError::EmptyInput)
    );
    assert_eq!(
        aggregate_non_uniform_bls_sigs(
            sigs.iter().collect(),
            pks.iter().take(2).collect(),
            all_msgs()
        ),
        Err(KeyError::LengthMismatch)
    );
    assert_eq!(
        aggregate_non_uniform_bls_sigs(
            sigs.iter().collect(),
            pks.iter().collect(),
            all_msgs()[..2].to_vec()
        ),
        Err(KeyError::LengthMismatch)
    );
    assert_eq!(
        aggregate_non_uniform_bls_sigs(sigs.iter().take(2).collect(), pks.iter().collect(), vec![]),
        Err(KeyError::LengthMismatch)
    );
    let foreign = key(97).sign(b"foreign", &CIPHER_SUITE, &[]);
    assert_eq!(
        aggregate_non_uniform_bls_sigs(vec![&foreign], pks.iter().collect(), all_msgs()),
        Err(KeyError::LengthMismatch)
    );
}

#[test]
fn provisioning_fails_on_a_bad_requester_key() {
    let provision =
        |pk_hex: &str| bls_key_provision(&pk_hex.to_string()).map(|(ct, pk)| (ct, pk.compress()));
    assert_eq!(provision("not hex"), Err(KeyError::DecodeError));
    assert_eq!(provision("abc"), Err(KeyError::DecodeError));
    assert_eq!(provision("00"), Err(KeyError::EncryptionFailure));
    assert_eq!(provision(""), Err(KeyError::EncryptionFailure));
    assert_eq!(provision(&format!("04{}", "00".repeat(64))), Err(KeyError::EncryptionFailure));
}

#[test]
fn provisioning_takes_the_compressed_requester_key_too() {
    let (sk, pk) = new_eth_key().unwrap();
    let theirs = ecies::PublicKey::parse_slice(&pk.serialize(), None).unwrap();
    let (ct_hex, bls_pk) =
        bls_key_provision(&hex::encode(theirs.serialize_compressed())).unwrap();
    assert_eq!(ct_hex, ct_hex.to_lowercase());
    let secret = ecies::decrypt(&sk.serialize(), &hex::decode(ct_hex).unwrap()).unwrap();
    assert_eq!(BlsSecretKey::from_bytes(&secret).unwrap().sk_to_pk().compress(), bls_pk.compress());
}

#[test]
fn provision_response_is_the_ciphertext_in_hex() {
    let pk = key(50).sk_to_pk();
    let (ct_hex, sent) = provision_response(Some(vec![0x00, 0x0f, 0xa5, 0xff]), pk).unwrap();
    assert_eq!(ct_hex, "000fa5ff");
    assert_eq!(sent.compress(), pk.compress());
    assert_eq!(
        provision_response(Some(vec![]), pk).map(|(ct, pk)| (ct, pk.compress())),
        Ok((String::new(), pk.compress()))
    );
    assert_eq!(
        provision_response(None, pk).map(|(ct, pk)| (ct, pk.compress())),
        Err(KeyError::EncryptionFailure)
    );
}

#[test]
fn every_failure_has_a_message() {
    let all = [
        KeyError::IoError,
        KeyError::NotFound,
        KeyError::InvalidName,
        KeyError::DecodeError,
        KeyError::InvalidKeyEncoding,
        KeyError::InvalidPublicKey,
        KeyError::InvalidPublicKeyLength,
        KeyError::KeyMismatch,
        KeyError::KeyGenFailure { index: 3 },
        KeyError::SignatureInvalid { index: 4 },
        KeyError::SigningInvariantViolation,
        KeyError::AggregationFailure,
        KeyError::AggregateVerificationFailure,
        KeyError::LengthMismatch,
        KeyError::EmptyInput,
        KeyError::EncryptionFailure,
        KeyError::DecryptionFailure,
    ];
    for (i, e) in all.iter().enumerate() {
        assert!(!e.message().is_empty());
        for other in &all[..i] {
            assert_ne!(e.message(), other.message());
        }
    }
    assert_eq!(KeyError::NotFound.message(), "no key is stored under this identifier");
}
