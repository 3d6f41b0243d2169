//! Edwards keys: public keys, and key exchange over the birationally
//! equivalent Montgomery curve (X25519).
use curve25519_dalek::edwards::CompressedEdwardsY;
use ed25519_dalek::SigningKey;
use sha2::{Digest, Sha512};
use sp_core::crypto::{Pair, SecretStringError};
use crate::array::CryptoArray;
use vstd::prelude::*;

verus! {

/// The Ed25519 public key of a 32-byte seed.
pub uninterp spec fn ed25519_public_of(seed: Seq<u8>) -> Seq<u8>;

/// The SHA-512 digest of a byte string.
pub uninterp spec fn sha512_of(data: Seq<u8>) -> Seq<u8>;

/// The Montgomery form of an Edwards point given in compressed form.
pub uninterp spec fn montgomery_of(public: Seq<u8>) -> Seq<u8>;

/// The X25519 function of a secret (clamped before use) and a Montgomery
/// point.
pub uninterp spec fn x25519_of(secret: Seq<u8>, public: Seq<u8>) -> Seq<u8>;

/// The X25519 secret of an Ed25519 seed: the first half of its digest, the
/// scalar Ed25519 derives its public key from.
pub open spec fn x25519_secret_of(seed: Seq<u8>) -> Seq<u8> {
    sha512_of(seed).subrange(0, 32)
}

/// The X25519 secret shared by the Ed25519 key of `seed` with the holder of
/// the Ed25519 public key `public`.
pub open spec fn ed25519_shared(seed: Seq<u8>, public: Seq<u8>) -> Seq<u8> {
    x25519_of(x25519_secret_of(seed), montgomery_of(public))
}

/// Relies on `sha2::Sha512::digest`: a 64-byte digest of the data alone.
#[verifier::external_body]
fn sha512(data: &[u8]) -> (r: Vec<u8>)
    ensures
        r@ == sha512_of(data@),
        r@.len() == 64,
{
    Sha512::digest(data).to_vec()
}

/// Relies on curve25519-dalek's `CompressedEdwardsY::decompress` (it refuses
/// bytes that are not a point; an Ed25519 public key is one) and
/// `EdwardsPoint::to_montgomery`.
#[verifier::external_body]
fn edwards_to_montgomery(public: &[u8]) -> (r: Option<Vec<u8>>)
    ensures
        r is Some ==> r->Some_0@ == montgomery_of(public@),
        r is Some ==> r->Some_0@.len() == 32,
        forall|o: Seq<u8>| o.len() == 32 && public@ == ed25519_public_of(o) ==> r is Some,
{
    let bytes: [u8; 32] = public.try_into().ok()?;
    Some(CompressedEdwardsY(bytes).decompress()?.to_montgomery().to_bytes().to_vec())
}

/// Relies on `x25519_dalek::StaticSecret::diffie_hellman`, which clamps the
/// secret as Ed25519 clamps the scalar of its public key.  The Montgomery
/// map commutes with scalar multiplication, so the holders of two Ed25519
/// seeds obtain the same secret.
#[verifier::external_body]
fn x25519(secret: &[u8], public: &[u8]) -> (r: Vec<u8>)
    requires
        secret@.len() == 32,
        public@.len() == 32,
    ensures
        r@ == x25519_of(secret@, public@),
        r@.len() == 32,
        forall|s: Seq<u8>, o: Seq<u8>|
            s.len() == 32 && o.len() == 32 && secret@ == x25519_secret_of(s) && public@ == montgomery_of(
                ed25519_public_of(o),
            ) ==> r@ == x25519_of(x25519_secret_of(o), montgomery_of(ed25519_public_of(s))),
{
    let mut sk = [0u8; 32];
    sk.copy_from_slice(secret);
    let mut pk = [0u8; 32];
    pk.copy_from_slice(public);
    x25519_dalek::StaticSecret::from(sk).diffie_hellman(&x25519_dalek::PublicKey::from(pk)).to_bytes().to_vec()
}

/// The X25519 secret of an Ed25519 seed.
pub fn ed25519_to_x25519_sk(seed: &CryptoArray<32>) -> (r: CryptoArray<32>)
    requires
        seed.wf(),
    ensures
        r.wf(),
        r@ == x25519_secret_of(seed@),
{
    let digest = sha512(seed.as_slice());
    CryptoArray::from_vec(crate::cipher::slice_to_vec_range(digest.as_slice(), 0, 32))
}

/// Relies on `ed25519_dalek::SigningKey::from_bytes` and `verifying_key`:
/// a 32-byte public key that depends on the seed alone.
#[verifier::external_body]
pub(crate) fn public_from_seed(seed: &[u8]) -> (r: Vec<u8>)
    requires
        seed@.len() == 32,
    ensures
        r@ == ed25519_public_of(seed@),
        r@.len() == 32,
{
    let bytes: [u8; 32] = seed.try_into().unwrap();
    SigningKey::from_bytes(&bytes).verifying_key().to_bytes().to_vec()
}

/// The secret shared by the Ed25519 key of `seed` with the holder of
/// `public`.  The holder of the other key, given this key's public key,
/// obtains the same secret.
pub(crate) fn key_exchange(seed: &[u8], public: &[u8]) -> (r: Option<Vec<u8>>)
    requires
        seed@.len() == 32,
    ensures
        r is Some ==> r->Some_0@ == ed25519_shared(seed@, public@),
        r is Some ==> r->Some_0@.len() == 32,
        forall|other: Seq<u8>|
            other.len() == 32 && public@ == ed25519_public_of(other) ==> r is Some
                && r->Some_0@ == ed25519_shared(other, ed25519_public_of(seed@)),
{
    let digest = sha512(seed);
    let secret = crate::cipher::slice_to_vec_range(digest.as_slice(), 0, 32);
    match edwards_to_montgomery(public) {
        Some(point) => Some(x25519(secret.as_slice(), point.as_slice())),
        None => None,
    }
}

/// The seed a secret URI gives for an Ed25519 key, when it gives one.
pub uninterp spec fn ed25519_suri_seed(suri: Seq<char>) -> Option<Seq<u8>>;

/// Relies on `sp_core::ed25519::Pair::from_string_with_seed`: the phrase or
/// hex seed of the URI, hard-derived along its path.  The result depends on
/// the string alone.
#[verifier::external_body]
pub(crate) fn seed_from_suri(suri: &str) -> (r: Result<Option<Vec<u8>>, SecretStringError>)
    ensures
        (r is Ok && r->Ok_0 is Some) <==> ed25519_suri_seed(suri@) is Some,
        r is Ok && r->Ok_0 is Some ==> r->Ok_0->Some_0@ == ed25519_suri_seed(suri@)->Some_0
            && r->Ok_0->Some_0@.len() == 32,
{
    sp_core::ed25519::Pair::from_string_with_seed(suri, None).map(|(_, seed)| seed.map(|s| s.to_vec()))
}

} // verus!
