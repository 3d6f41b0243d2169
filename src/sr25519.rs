//! Schnorr keys over Ristretto255: public keys and key exchange.
use curve25519_dalek::scalar::Scalar;
use curve25519_dalek::ristretto::CompressedRistretto;
use schnorrkel::{ExpansionMode, MiniSecretKey};
use sp_core::crypto::{Pair, SecretStringError};
use vstd::prelude::*;

verus! {

/// The public key of the key pair expanded from a 32-byte seed.
pub uninterp spec fn sr25519_public_of(seed: Seq<u8>) -> Seq<u8>;

/// The 64-byte secret key (scalar, then nonce) expanded from a seed.
pub uninterp spec fn sr25519_secret_of(seed: Seq<u8>) -> Seq<u8>;

/// The compressed point `scalar * point` on Ristretto255.
pub uninterp spec fn ristretto_mul_of(scalar: Seq<u8>, point: Seq<u8>) -> Seq<u8>;

/// The shared secret of the key pair expanded from `seed` with the holder
/// of `public`: the public point times the secret scalar.
pub open spec fn sr25519_shared(seed: Seq<u8>, public: Seq<u8>) -> Seq<u8> {
    ristretto_mul_of(sr25519_secret_of(seed).subrange(0, 32), public)
}

/// Relies on `schnorrkel::MiniSecretKey::expand_to_keypair` with the
/// Ed25519 expansion mode, and on `PublicKey::to_bytes`: a 32-byte public
/// key that depends on the seed alone.
#[verifier::external_body]
pub(crate) fn public_from_seed(seed: &[u8]) -> (r: Vec<u8>)
    requires
        seed@.len() == 32,
    ensures
        r@ == sr25519_public_of(seed@),
        r@.len() == 32,
{
    let mini = MiniSecretKey::from_bytes(seed).unwrap();
    mini.expand_to_keypair(ExpansionMode::Ed25519).public.to_bytes().to_vec()
}

/// Relies on `schnorrkel::MiniSecretKey::expand` with the Ed25519 expansion
/// mode and on `SecretKey::to_bytes`: the secret scalar (whose multiple of
/// the base point is the public key) in the first 32 bytes, then the nonce.
#[verifier::external_body]
fn expand_secret(seed: &[u8]) -> (r: Vec<u8>)
    requires
        seed@.len() == 32,
    ensures
        r@ == sr25519_secret_of(seed@),
        r@.len() == 64,
{
    MiniSecretKey::from_bytes(seed).unwrap().expand(ExpansionMode::Ed25519).to_bytes().to_vec()
}

/// Relies on curve25519-dalek's Ristretto point decompression (it refuses
/// bytes that are not a point), scalar multiplication and compression.  A
/// public key is its secret scalar times the base point, and scalar
/// multiplication commutes, so both holders of a pair of keys obtain the
/// same point.
#[verifier::external_body]
fn ristretto_mul(scalar: &[u8], point: &[u8]) -> (r: Option<Vec<u8>>)
    requires
        scalar@.len() == 32,
    ensures
        r is Some ==> r->Some_0@ == ristretto_mul_of(scalar@, point@),
        r is Some ==> r->Some_0@.len() == 32,
        forall|s: Seq<u8>, o: Seq<u8>|
            #![trigger sr25519_secret_of(s), sr25519_public_of(o)]
            s.len() == 32 && o.len() == 32 && scalar@ == sr25519_secret_of(s).subrange(0, 32)
                && point@ == sr25519_public_of(o) ==> r is Some && r->Some_0@ == ristretto_mul_of(
                sr25519_secret_of(o).subrange(0, 32),
                sr25519_public_of(s),
            ),
{
    let mut k = [0u8; 32];
    k.copy_from_slice(scalar);
    let p = CompressedRistretto::from_slice(point).ok()?.decompress()?;
    Some((Scalar::from_bytes_mod_order(k) * p).compress().to_bytes().to_vec())
}

/// The secret shared by the key of `seed` with the holder of `public`.
/// The holder of the other key, given this key's public key, obtains the
/// same secret.
pub(crate) fn key_exchange(seed: &[u8], public: &[u8]) -> (r: Option<Vec<u8>>)
    requires
        seed@.len() == 32,
    ensures
        r is Some ==> r->Some_0@ == sr25519_shared(seed@, public@),
        r is Some ==> r->Some_0@.len() == 32,
        forall|other: Seq<u8>|
            other.len() == 32 && public@ == sr25519_public_of(other) ==> r is Some
                && r->Some_0@ == sr25519_shared(other, sr25519_public_of(seed@)),
{
    let secret = expand_secret(seed);
    let scalar = crate::cipher::slice_to_vec_range(secret.as_slice(), 0, 32);
    let r = ristretto_mul(scalar.as_slice(), public);
    proof {
        assert(scalar@ == sr25519_secret_of(seed@).subrange(0, 32));
        assert forall|other: Seq<u8>|
            other.len() == 32 && public@ == sr25519_public_of(other) implies r is Some
                && r->Some_0@ == sr25519_shared(other, sr25519_public_of(seed@)) by {
            assert(seed@.len() == 32 && scalar@ == sr25519_secret_of(seed@).subrange(0, 32));
        }
    }
    r
}

/// The seed a secret URI gives for an sr25519 key, when it gives one.
pub uninterp spec fn sr25519_suri_seed(suri: Seq<char>) -> Option<Seq<u8>>;

/// Relies on `sp_core::sr25519::Pair::from_string_with_seed`: the phrase or
/// hex seed of the URI, hard-derived along its path; the seed is `None`
/// after a soft junction.  The result depends on the string alone.
#[verifier::external_body]
pub(crate) fn seed_from_suri(suri: &str) -> (r: Result<Option<Vec<u8>>, SecretStringError>)
    ensures
        (r is Ok && r->Ok_0 is Some) <==> sr25519_suri_seed(suri@) is Some,
        r is Ok && r->Ok_0 is Some ==> r->Ok_0->Some_0@ == sr25519_suri_seed(suri@)->Some_0
            && r->Ok_0->Some_0@.len() == 32,
{
    sp_core::sr25519::Pair::from_string_with_seed(suri, None).map(|(_, seed)| seed.map(|s| s.to_vec()))
}

} // verus!
