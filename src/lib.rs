//! Secret management: fixed-size secrets, authenticated sealing, typed key
//! pairs, multi-recipient secret envelopes and a generation-based keystore.

pub mod array;
pub mod cipher;
pub mod codec;
pub mod duplex;
pub mod ed25519;
pub mod error;
pub mod generation;
pub mod keychain;
pub mod keystore;
pub mod secret_box;
pub mod sr25519;
pub mod types;
