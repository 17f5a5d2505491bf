//! The failures that key management reports to its caller.

use vstd::prelude::*;

verus! {

/// Every way in which an operation on key material can fail.
///
/// All failures are ordinary values: no operation of this crate aborts the
/// process.
#[derive(Debug, Clone, Copy, PartialEq, Eq)]
pub enum KeyError {
    /// The backing storage could not be read or written. Reported where the
    /// key store meets the disk.
    IoError,
    /// No key file is stored under the requested identifier.
    NotFound,
    /// A stored entry has a name that is not a string. Reported where the
    /// key store meets the disk.
    InvalidName,
    /// Text that should be hexadecimal is not.
    DecodeError,
    /// Bytes do not form a secret key or a point of the target curve.
    InvalidKeyEncoding,
    /// Bytes do not form a BLS public key.
    InvalidPublicKey,
    /// A serialized identity public key is not 65 bytes long.
    InvalidPublicKeyLength,
    /// A stored secret key does not belong to the public key it is filed under.
    KeyMismatch,
    /// Deriving the secret key at `index` of a batch failed. A key that is
    /// generated alone has index 0.
    KeyGenFailure { index: usize },
    /// The signature at `index` of a set does not verify. A signature that
    /// is checked alone has index 0, and so has an aggregate that is checked
    /// as one signature.
    SignatureInvalid { index: usize },
    /// A freshly made signature failed its own verification.
    SigningInvariantViolation,
    /// Public keys or signatures could not be combined.
    AggregationFailure,
    /// Every signature verified alone, yet the aggregate did not.
    AggregateVerificationFailure,
    /// Sequences that must pair up differ in length.
    LengthMismatch,
    /// A sequence that must hold at least one item is empty.
    EmptyInput,
    /// Hybrid encryption of a secret key failed.
    EncryptionFailure,
    /// Hybrid decryption of a secret key failed. Reported by whoever opens
    /// a provisioned key.
    DecryptionFailure,
}

impl KeyError {
    /// The description of the failure.
    pub open spec fn text(&self) -> Seq<char> {
        match self {
            KeyError::IoError => "key storage could not be accessed"@,
            KeyError::NotFound => "no key is stored under this identifier"@,
            KeyError::InvalidName => "a stored key has a name that is not a string"@,
            KeyError::DecodeError => "malformed hexadecimal text"@,
            KeyError::InvalidKeyEncoding => "bytes do not encode a key of the curve"@,
            KeyError::InvalidPublicKey => "bytes do not encode a BLS public key"@,
            KeyError::InvalidPublicKeyLength => "identity public key must be 65 bytes"@,
            KeyError::KeyMismatch => "stored secret does not match the public key"@,
            KeyError::KeyGenFailure { .. } => "secret key generation failed"@,
            KeyError::SignatureInvalid { .. } => "signature verification failed"@,
            KeyError::SigningInvariantViolation => "fresh signature failed verification"@,
            KeyError::AggregationFailure => "aggregation failed"@,
            KeyError::AggregateVerificationFailure => "aggregate signature verification failed"@,
            KeyError::LengthMismatch => "input sequences differ in length"@,
            KeyError::EmptyInput => "input sequence is empty"@,
            KeyError::EncryptionFailure => "encryption failed"@,
            KeyError::DecryptionFailure => "decryption failed"@,
        }
    }

    /// A short description of the failure, for logs and responses.
    pub fn message(&self) -> (text: String)
        ensures
            text@ == self.text(),
    {
        let text = match self {
            KeyError::IoError => "key storage could not be accessed",
            KeyError::NotFound => "no key is stored under this identifier",
            KeyError::InvalidName => "a stored key has a name that is not a string",
            KeyError::DecodeError => "malformed hexadecimal text",
            KeyError::InvalidKeyEncoding => "bytes do not encode a key of the curve",
            KeyError::InvalidPublicKey => "bytes do not encode a BLS public key",
            KeyError::InvalidPublicKeyLength => "identity public key must be 65 bytes",
            KeyError::KeyMismatch => "stored secret does not match the public key",
            KeyError::KeyGenFailure { .. } => "secret key generation failed",
            KeyError::SignatureInvalid { .. } => "signature verification failed",
            KeyError::SigningInvariantViolation => "fresh signature failed verification",
            KeyError::AggregationFailure => "aggregation failed",
            KeyError::AggregateVerificationFailure => "aggregate signature verification failed",
            KeyError::LengthMismatch => "input sequences differ in length",
            KeyError::EmptyInput => "input sequence is empty",
            KeyError::EncryptionFailure => "encryption failed",
            KeyError::DecryptionFailure => "decryption failed",
        };
        String::from_str(text)
    }
}

} // verus!
