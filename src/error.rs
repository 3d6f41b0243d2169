//! Error kinds of the library, one type each.
use sp_core::crypto::SecretStringError;
use vstd::prelude::*;

verus! {

/// A mnemonic did not hold enough entropy for the requested secret.
#[derive(Debug, Clone, Copy, PartialEq, Eq, Structural)]
pub struct NotEnoughEntropyError;

/// A byte slice did not have the length of the secret it should fill.
#[derive(Debug, Clone, Copy, PartialEq, Eq, Structural)]
pub struct KeySizeMissmatch;

#[verifier::external_type_specification]
#[verifier::external_body]
pub struct ExSecretStringError(SecretStringError);

/// A secret URI did not give a seed.
#[derive(Debug)]
pub enum InvalidSuri {
    /// The URI could not be read or derived.
    Secret(SecretStringError),
    /// The path held a soft junction, after which no seed exists.
    NoSeed,
}

/// A key derivation path held a junction that is not supported.
#[derive(Debug, Clone, Copy, PartialEq, Eq, Structural)]
pub struct UnsupportedJunction;

/// A sealed secret did not authenticate under the given key.
#[derive(Debug, Clone, Copy, PartialEq, Eq, Structural)]
pub struct DecryptError;

/// A key exchange could not be performed with the given public key.
#[derive(Debug, Clone, Copy, PartialEq, Eq, Structural)]
pub struct DiffieHellmanError;

/// The keystore cannot currently produce its device key.
#[derive(Debug, Clone, Copy, PartialEq, Eq, Structural)]
pub struct KeystoreLocked;

/// The keystore already holds a key and was not told to overwrite it.
#[derive(Debug, Clone, Copy, PartialEq, Eq, Structural)]
pub struct KeystoreInitialized;

/// The keystore was never given a key.
#[derive(Debug, Clone, Copy, PartialEq, Eq, Structural)]
pub struct KeystoreUninitialized;

/// The password given to unlock the keystore is not its password.
#[derive(Debug, Clone, Copy, PartialEq, Eq, Structural)]
pub struct PasswordMissmatch;

/// The keystore's directory does not have the expected layout.
#[derive(Debug, Clone, Copy, PartialEq, Eq, Structural)]
pub struct KeystoreCorrupted;

/// A mask was applied against a generation it was not made for.
#[derive(Debug, Clone, Copy, PartialEq, Eq, Structural)]
pub struct GenMissmatch;

/// Persisted bytes are too short or malformed for the value they should hold.
#[derive(Debug, Clone, Copy, PartialEq, Eq, Structural)]
pub struct CodecError;

/// Why a keystore operation failed.
#[derive(Debug, Clone, Copy, PartialEq, Eq, Structural)]
pub enum KeystoreError {
    /// See [`KeystoreLocked`].
    Locked,
    /// See [`KeystoreInitialized`].
    Initialized,
    /// See [`KeystoreUninitialized`].
    Uninitialized,
    /// See [`PasswordMissmatch`].
    PasswordMissmatch,
    /// See [`GenMissmatch`].
    GenMissmatch,
    /// See [`KeystoreCorrupted`].
    Corrupted,
}

} // verus!
