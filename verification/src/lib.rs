//! Key management for a validator signing service: BLS12-381 keys that sign
//! and verify validator duties, aggregation of their public keys and
//! signatures, and a secp256k1 identity key that names the service and carries
//! fresh BLS secrets to a requester.

pub mod aggregate;
pub mod bls;
pub mod error;
pub mod hex_codec;
pub mod identity;
pub mod keystore;
pub mod provision;
pub mod scalar;
pub mod signer;

pub use aggregate::{
    aggregate_non_uniform_bls_sigs, aggregate_public_keys, aggregate_uniform_bls_sigs,
    dist_bls_key_gen, AggregatePublicKey,
};
pub use bls::{
    new_bls_key, verify_bls_sig, BlsPublicKey, BlsSecretKey, BlsSignature, CIPHER_SUITE,
};
pub use error::KeyError;
pub use identity::{
    checksum, checksum_with_digest, eth_key_gen, eth_key_pair, keccak, new_eth_key,
    pk_to_eth_addr, read_eth_key, save_eth_key,
    EthPublicKey, EthSecretKey,
};
pub use keystore::{list_bls_keys, write_key, KeyFile, KeyStore};
pub use provision::{bls_key_provision, encrypt_bls_key, provision_response};
pub use signer::{bls_key_gen, bls_sign, read_bls_key, save_bls_key};
