//! Key pairs bound to a role, and the process-local chain of keys a user
//! currently holds.
use crate::array::CryptoArray;
use crate::cipher::CipherText;
use crate::duplex::strobe_dec;
use crate::error::{DecryptError, DiffieHellmanError, InvalidSuri, KeySizeMissmatch, NotEnoughEntropyError};
use crate::ed25519::{ed25519_public_of, ed25519_shared, ed25519_suri_seed};
use crate::sr25519::{sr25519_public_of, sr25519_shared, sr25519_suri_seed};
use core::marker::PhantomData;
use std::collections::HashMap;
use vstd::prelude::*;

verus! {

/// The curve a key lives on.
#[derive(Debug, Clone, Copy, PartialEq, Eq, Structural)]
pub enum Curve {
    /// Schnorr keys over Ristretto255.
    Sr25519,
    /// Edwards keys, exchanged over X25519.
    Ed25519,
}

/// The public key of a seed on a curve.
pub open spec fn public_of(curve: Curve, seed: Seq<u8>) -> Seq<u8> {
    match curve {
        Curve::Sr25519 => sr25519_public_of(seed),
        Curve::Ed25519 => ed25519_public_of(seed),
    }
}

/// The secret the key of `seed` shares with the holder of `public`.
pub open spec fn shared_of(curve: Curve, seed: Seq<u8>, public: Seq<u8>) -> Seq<u8> {
    match curve {
        Curve::Sr25519 => sr25519_shared(seed, public),
        Curve::Ed25519 => ed25519_shared(seed, public),
    }
}

/// The seed a secret URI gives on a curve, when it gives one.
pub open spec fn suri_seed_of(curve: Curve, suri: Seq<char>) -> Option<Seq<u8>> {
    match curve {
        Curve::Sr25519 => sr25519_suri_seed(suri),
        Curve::Ed25519 => ed25519_suri_seed(suri),
    }
}

/// `key` is the public key of some seed on `curve`.
pub open spec fn is_public_key(curve: Curve, key: Seq<u8>) -> bool {
    exists|o: Seq<u8>| o.len() == 32 && key == public_of(curve, o)
}

/// A role that a key plays.  Keys of different roles never stand in for
/// each other, even when their bytes agree.
pub trait KeyType {
    /// The tag under which keys of this role are kept in a key chain.
    spec fn tag() -> u8;

    /// The curve keys of this role live on.
    spec fn curve_of() -> Curve;

    fn key_type() -> (r: u8)
        ensures
            r == Self::tag(),
    ;

    fn curve() -> (r: Curve)
        ensures
            r == Self::curve_of(),
    ;
}

/// The role of the key that identifies a device.
#[derive(Debug, Clone, Copy, PartialEq, Eq, Structural)]
pub struct DeviceKey;

impl KeyType for DeviceKey {
    open spec fn tag() -> u8 {
        0
    }

    open spec fn curve_of() -> Curve {
        Curve::Sr25519
    }

    fn key_type() -> (r: u8) {
        0
    }

    fn curve() -> (r: Curve) {
        Curve::Sr25519
    }
}

/// The role of the key that identifies a user across devices.
#[derive(Debug, Clone, Copy, PartialEq, Eq, Structural)]
pub struct UserKey;

impl KeyType for UserKey {
    open spec fn tag() -> u8 {
        1
    }

    open spec fn curve_of() -> Curve {
        Curve::Sr25519
    }

    fn key_type() -> (r: u8) {
        1
    }

    fn curve() -> (r: Curve) {
        Curve::Sr25519
    }
}

/// The role of a peer's Edwards key.
#[derive(Debug, Clone, Copy, PartialEq, Eq, Structural)]
pub struct PeerKey;

impl KeyType for PeerKey {
    open spec fn tag() -> u8 {
        2
    }

    open spec fn curve_of() -> Curve {
        Curve::Ed25519
    }

    fn key_type() -> (r: u8) {
        2
    }

    fn curve() -> (r: Curve) {
        Curve::Ed25519
    }
}

/// A key pair of role `K`, held as its 32-byte seed and its public key.
pub struct TypedPair<K> {
    seed: CryptoArray<32>,
    public: Vec<u8>,
    _marker: PhantomData<K>,
}

/// The public key of a key pair of role `K`.
#[derive(Debug)]
pub struct TypedPublic<K> {
    public: Vec<u8>,
    _marker: PhantomData<K>,
}

impl<K> View for TypedPublic<K> {
    type V = Seq<u8>;

    closed spec fn view(&self) -> Seq<u8> {
        self.public@
    }
}

impl<K> TypedPair<K> {
    pub closed spec fn seed_bytes(&self) -> Seq<u8> {
        self.seed@
    }

    pub closed spec fn public_bytes(&self) -> Seq<u8> {
        self.public@
    }
}

impl<K: KeyType> TypedPair<K> {
    /// The seed has 32 bytes and the public key is the one it expands to.
    pub open spec fn wf(&self) -> bool {
        &&& self.seed_bytes().len() == 32
        &&& self.public_bytes().len() == 32
        &&& self.public_bytes() == public_of(K::curve_of(), self.seed_bytes())
    }

    /// The key pair expanded from `seed`.
    pub fn from_seed(seed: CryptoArray<32>) -> (r: Self)
        requires
            seed.wf(),
        ensures
            r.wf(),
            r.seed_bytes() == seed@,
    {
        let public = match K::curve() {
            Curve::Sr25519 => crate::sr25519::public_from_seed(seed.as_slice()),
            Curve::Ed25519 => crate::ed25519::public_from_seed(seed.as_slice()),
        };
        TypedPair { seed, public, _marker: PhantomData }
    }

    /// A key pair from a fresh random seed.
    pub fn generate() -> (r: Self)
        ensures
            r.wf(),
    {
        Self::from_seed(CryptoArray::random())
    }

    /// The key pair whose seed a secret URI (a phrase or hex seed with an
    /// optional derivation path) gives.
    pub fn from_suri(suri: &str) -> (r: Result<Self, InvalidSuri>)
        ensures
            r is Ok <==> suri_seed_of(K::curve_of(), suri@) is Some,
            r matches Ok(p) ==> p.wf() && p.seed_bytes() == suri_seed_of(K::curve_of(), suri@)->Some_0,
    {
        let parsed = match K::curve() {
            Curve::Sr25519 => crate::sr25519::seed_from_suri(suri),
            Curve::Ed25519 => crate::ed25519::seed_from_suri(suri),
        };
        match parsed {
            Ok(Some(seed)) => Ok(Self::from_seed(CryptoArray::from_vec(seed))),
            Ok(None) => Err(InvalidSuri::NoSeed),
            Err(e) => Err(InvalidSuri::Secret(e)),
        }
    }

    /// The key pair whose seed is the leading entropy of a mnemonic; the
    /// mnemonic must hold at least 32 bytes of entropy.
    pub fn from_mnemonic(mnemonic: &bip39::Mnemonic) -> (r: Result<Self, NotEnoughEntropyError>)
        ensures
            r is Ok <==> crate::array::mnemonic_entropy_of(*mnemonic).len() >= 32,
            r matches Ok(p) ==> p.wf() && p.seed_bytes() == crate::array::mnemonic_entropy_of(*mnemonic).subrange(0, 32),
    {
        let seed = CryptoArray::<32>::from_mnemonic(mnemonic)?;
        Ok(Self::from_seed(seed))
    }

    /// Seals the seed under `key` with a fresh nonce.
    pub fn encrypt(&self, key: &CryptoArray<32>) -> (r: CipherText<32, 32, 24, 16>)
        requires
            self.wf(),
        ensures
            r.wf(),
            r.seals(self.seed_bytes(), key@),
    {
        self.seed.encrypt(key)
    }

    /// Opens a sealed seed under `key` and expands it; fails exactly when
    /// the tag does not authenticate under `key`.
    pub fn decrypt(cipher: &CipherText<32, 32, 24, 16>, key: &CryptoArray<32>) -> (r: Result<Self, DecryptError>)
        requires
            cipher.wf(),
        ensures
            r is Ok <==> cipher.tag() == crate::cipher::seal_tag(cipher.data(), key@, cipher.nonce(), 16),
            r matches Ok(p) ==> p.wf() && p.seed_bytes() == strobe_dec(
                crate::cipher::seal_transcript(key@, cipher.nonce()),
                cipher.data(),
            ),
            forall|s: Seq<u8>| cipher.seals(s, key@) ==> (r matches Ok(p) && p.seed_bytes() == s),
    {
        let seed = cipher.decrypt(key)?;
        Ok(Self::from_seed(seed))
    }

    /// The persisted form of a key pair: its seed.
    pub fn encode(&self) -> (r: Vec<u8>)
        ensures
            r@ == self.seed_bytes(),
    {
        self.seed.encode()
    }

    /// Reads a key pair from the seed at the front of `input`.
    pub fn decode(input: &[u8]) -> (r: Result<Self, crate::error::CodecError>)
        ensures
            r is Ok <==> input@.len() >= 32,
            r matches Ok(p) ==> p.wf() && p.seed_bytes() == input@.subrange(0, 32),
    {
        let seed = CryptoArray::<32>::decode(input)?;
        Ok(Self::from_seed(seed))
    }

    /// The seed of the key pair.
    pub fn seed(&self) -> (r: &CryptoArray<32>)
        ensures
            r@ == self.seed_bytes(),
    {
        &self.seed
    }

    /// The public half of the key pair.
    pub fn public(&self) -> (r: TypedPublic<K>)
        ensures
            r@ == self.public_bytes(),
    {
        TypedPublic { public: self.public.clone(), _marker: PhantomData }
    }

    /// The secret shared with the holder of `public`.  The holder of the
    /// other pair, given this pair's public key, obtains the same secret.
    pub fn diffie_hellman(&self, public: &TypedPublic<K>) -> (r: Result<CryptoArray<32>, DiffieHellmanError>)
        requires
            self.wf(),
        ensures
            r matches Ok(s) ==> s.wf() && s@ == shared_of(K::curve_of(), self.seed_bytes(), public@),
            forall|other: Seq<u8>|
                other.len() == 32 && public@ == public_of(K::curve_of(), other) ==> (r matches Ok(s)
                    && s@ == shared_of(K::curve_of(), other, self.public_bytes())),
    {
        let exchanged = match K::curve() {
            Curve::Sr25519 => crate::sr25519::key_exchange(self.seed.as_slice(), public.public.as_slice()),
            Curve::Ed25519 => crate::ed25519::key_exchange(self.seed.as_slice(), public.public.as_slice()),
        };
        match exchanged {
            Some(shared) => Ok(CryptoArray::from_vec(shared)),
            None => Err(DiffieHellmanError),
        }
    }
}

impl<K> Clone for TypedPair<K> {
    fn clone(&self) -> (r: Self)
        ensures
            r.seed_bytes() == self.seed_bytes(),
            r.public_bytes() == self.public_bytes(),
    {
        TypedPair { seed: self.seed.duplicate(), public: self.public.clone(), _marker: PhantomData }
    }
}

impl<K> Clone for TypedPublic<K> {
    fn clone(&self) -> (r: Self)
        ensures
            r@ == self@,
    {
        TypedPublic { public: self.public.clone(), _marker: PhantomData }
    }
}

impl<K> PartialEq for TypedPair<K> {
    fn eq(&self, other: &Self) -> (r: bool) {
        self.seed.ct_equals(&other.seed)
    }
}

impl<K> vstd::std_specs::cmp::PartialEqSpecImpl for TypedPair<K> {
    open spec fn obeys_eq_spec() -> bool {
        true
    }

    open spec fn eq_spec(&self, other: &Self) -> bool {
        self.seed_bytes() == other.seed_bytes()
    }
}

impl<K> Eq for TypedPair<K> {
}

impl<K> TypedPublic<K> {
    /// The public key made of `bytes`, which must be 32 bytes long.
    pub fn new(bytes: &[u8]) -> (r: Result<Self, KeySizeMissmatch>)
        ensures
            r is Ok <==> bytes@.len() == 32,
            r matches Ok(p) ==> p@ == bytes@,
    {
        if bytes.len() != 32 {
            return Err(KeySizeMissmatch);
        }
        Ok(TypedPublic { public: vstd::slice::slice_to_vec(bytes), _marker: PhantomData })
    }

    /// The bytes of the public key.
    pub fn as_slice(&self) -> (r: &[u8])
        ensures
            r@ == self@,
    {
        self.public.as_slice()
    }
}

impl<K> PartialEq for TypedPublic<K> {
    fn eq(&self, other: &Self) -> (r: bool) {
        crate::array::ct_eq(self.public.as_slice(), other.public.as_slice())
    }
}

impl<K> vstd::std_specs::cmp::PartialEqSpecImpl for TypedPublic<K> {
    open spec fn obeys_eq_spec() -> bool {
        true
    }

    open spec fn eq_spec(&self, other: &Self) -> bool {
        self@ == other@
    }
}

impl<K> Eq for TypedPublic<K> {
}

broadcast use vstd::std_specs::hash::group_hash_axioms;

/// The private keys a process currently holds, at most one per role, and
/// the public keys of its known correspondents, per role.  The public keys
/// of a role are kept without repetition, in the order they became known.
pub struct KeyChain {
    keys: HashMap<u8, CryptoArray<32>>,
    publics: HashMap<u8, Vec<Vec<u8>>>,
}

/// The byte strings of a list of byte vectors.
pub open spec fn byte_strings(list: Seq<Vec<u8>>) -> Seq<Seq<u8>> {
    list.map_values(|v: Vec<u8>| v@)
}

impl KeyChain {
    /// The seed of the private key held for the role tagged `t`.
    pub closed spec fn seed_for(&self, t: u8) -> Option<Seq<u8>> {
        if self.keys@.contains_key(t) {
            Some(self.keys@[t]@)
        } else {
            None
        }
    }

    /// The public keys known for the role tagged `t`, without repetition,
    /// in the order they became known.
    pub closed spec fn publics_for(&self, t: u8) -> Seq<Seq<u8>> {
        if self.publics@.contains_key(t) {
            byte_strings(self.publics@[t]@)
        } else {
            Seq::empty()
        }
    }

    /// Every seed held has 32 bytes.
    pub closed spec fn wf(&self) -> bool {
        forall|t: u8| #[trigger] self.keys@.contains_key(t) ==> self.keys@[t]@.len() == 32
    }

    /// An empty key chain.
    pub fn new() -> (r: KeyChain)
        ensures
            r.wf(),
            forall|t: u8| r.seed_for(t) is None,
            forall|t: u8| r.publics_for(t).len() == 0,
    {
        KeyChain { keys: HashMap::new(), publics: HashMap::new() }
    }

    /// Holds the private key of `pair` for its role, in place of any held
    /// before, and records its public key.
    pub fn insert<T: KeyType>(&mut self, pair: TypedPair<T>)
        requires
            old(self).wf(),
            pair.wf(),
        ensures
            final(self).wf(),
            final(self).seed_for(T::tag()) == Some(pair.seed_bytes()),
            forall|u: u8| u != T::tag() ==> final(self).seed_for(u) == old(self).seed_for(u),
            forall|u: u8| u != T::tag() ==> final(self).publics_for(u) == old(self).publics_for(u),
            final(self).publics_for(T::tag()) == (if old(self).publics_for(T::tag()).contains(pair.public_bytes()) {
                old(self).publics_for(T::tag())
            } else {
                old(self).publics_for(T::tag()).push(pair.public_bytes())
            }),
    {
        let t = T::key_type();
        let public = pair.public();
        self.keys.insert(t, pair.seed.duplicate());
        self.insert_public(public);
    }

    /// The key pair held for role `T`, if any.
    pub fn get<T: KeyType>(&self) -> (r: Option<TypedPair<T>>)
        requires
            self.wf(),
        ensures
            r is Some <==> self.seed_for(T::tag()) is Some,
            r matches Some(p) ==> p.wf() && Some(p.seed_bytes()) == self.seed_for(T::tag()),
    {
        let t = T::key_type();
        match self.keys.get(&t) {
            Some(seed) => Some(TypedPair::from_seed(seed.duplicate())),
            None => None,
        }
    }

    /// Forgets the private key held for role `T`.
    pub fn remove<T: KeyType>(&mut self)
        requires
            old(self).wf(),
        ensures
            final(self).wf(),
            final(self).seed_for(T::tag()) is None,
            forall|u: u8| u != T::tag() ==> final(self).seed_for(u) == old(self).seed_for(u),
            forall|u: u8| final(self).publics_for(u) == old(self).publics_for(u),
    {
        let t = T::key_type();
        let _ = self.keys.remove(&t);
    }

    /// Records the public key of a correspondent of role `T`, unless it is
    /// known already.
    pub fn insert_public<T: KeyType>(&mut self, public: TypedPublic<T>)
        requires
            old(self).wf(),
        ensures
            final(self).wf(),
            forall|u: u8| final(self).seed_for(u) == old(self).seed_for(u),
            forall|u: u8| u != T::tag() ==> final(self).publics_for(u) == old(self).publics_for(u),
            final(self).publics_for(T::tag()) == (if old(self).publics_for(T::tag()).contains(public@) {
                old(self).publics_for(T::tag())
            } else {
                old(self).publics_for(T::tag()).push(public@)
            }),
    {
        let t = T::key_type();
        let mut list = match self.publics.remove(&t) {
            Some(l) => l,
            None => Vec::new(),
        };
        let ghost known = old(self).publics_for(t);
        assert(byte_strings(list@) =~= known);
        let mut present = false;
        let mut i: usize = 0;
        while i < list.len()
            invariant
                i <= list@.len(),
                byte_strings(list@) == known,
                present <==> exists|j: int| 0 <= j < i && known[j] == public@,
            decreases list@.len() - i,
        {
            assert(known[i as int] == list@[i as int]@);
            if crate::array::ct_eq(list[i].as_slice(), public.as_slice()) {
                present = true;
            }
            i += 1;
        }
        proof {
            if present {
                let j = choose|j: int| 0 <= j < i && known[j] == public@;
                assert(known.contains(public@));
            }
            if known.contains(public@) {
                let j = choose|j: int| 0 <= j < known.len() && known[j] == public@;
                assert(present);
            }
        }
        if !present {
            list.push(public.public);
            assert(byte_strings(list@) =~= known.push(public@));
        }
        self.publics.insert(t, list);
    }

    /// The public keys known for role `T`.
    pub fn get_public<T: KeyType>(&self) -> (r: Vec<TypedPublic<T>>)
        ensures
            r@.map_values(|p: TypedPublic<T>| p@) == self.publics_for(T::tag()),
    {
        let t = T::key_type();
        let mut out: Vec<TypedPublic<T>> = Vec::new();
        match self.publics.get(&t) {
            Some(list) => {
                let mut i: usize = 0;
                while i < list.len()
                    invariant
                        i <= list@.len(),
                        self.publics_for(t) == byte_strings(list@),
                        out@.map_values(|p: TypedPublic<T>| p@) == byte_strings(list@).subrange(0, i as int),
                    decreases list@.len() - i,
                {
                    let ghost before = out@;
                    let p = TypedPublic { public: vstd::slice::slice_to_vec(list[i].as_slice()), _marker: PhantomData };
                    assert(p@ == byte_strings(list@)[i as int]);
                    out.push(p);
                    assert(out@.map_values(|p: TypedPublic<T>| p@) =~= before.map_values(|p: TypedPublic<T>| p@).push(p@));
                    i += 1;
                    assert(out@.map_values(|p: TypedPublic<T>| p@) =~= byte_strings(list@).subrange(0, i as int));
                }
                assert(byte_strings(list@).subrange(0, i as int) =~= byte_strings(list@));
            },
            None => {
                assert(out@.map_values(|p: TypedPublic<T>| p@) =~= self.publics_for(t));
            },
        }
        out
    }
}

} // verus!
