//! One generation of a keystore: the contents of its four files.
//!
//! `encrypted_device_key` is the device key sealed under a random key,
//! `encrypted_random_key` is the random key sealed under the hash of
//! `noise`, and `public_device_key` is the random key xor the password.
//! Wiping the noise locks the generation; the password rebuilds it.
use crate::array::{hash_spec, xor_seq, CryptoArray};
use crate::cipher::{seal_tag, seal_transcript, CipherText};
use crate::duplex::strobe_dec;
use crate::error::KeystoreError;
use crate::keychain::{KeyType, TypedPair};
use crate::types::{
    lemma_mask_rotates_password, lemma_xor_cancel, random_key_of,
    EncryptedRandomKey, Mask, NoiseHash, Password, PublicDeviceKey, RandomKey, NOISE_LEN,
};
use core::marker::PhantomData;
use vstd::prelude::*;

verus! {

/// The files of one generation of a keystore of role `K`; a missing file
/// is `None`.
pub struct Generation<K> {
    gen: u16,
    edk: Option<CipherText<32, 32, 24, 16>>,
    erk: Option<EncryptedRandomKey>,
    noise: Option<Vec<u8>>,
    nk: Option<NoiseHash>,
    pdk: Option<PublicDeviceKey>,
    _marker: PhantomData<K>,
}

impl<K> Generation<K> {
    /// The hash kept beside the noise blob is the blob's hash.
    pub closed spec fn noise_hash_kept(&self) -> bool {
        match (self.noise, self.nk) {
            (Some(n), Some(h)) => h.0.wf() && h.0@ == hash_spec(n@, 32),
            (None, None) => true,
            _ => false,
        }
    }
}

impl<K: KeyType> Generation<K> {
    pub closed spec fn gen_number(&self) -> u16 {
        self.gen
    }

    pub closed spec fn edk_file(&self) -> Option<CipherText<32, 32, 24, 16>> {
        self.edk
    }

    pub closed spec fn erk_file(&self) -> Option<EncryptedRandomKey> {
        self.erk
    }

    pub closed spec fn noise_file(&self) -> Option<Seq<u8>> {
        match self.noise {
            Some(n) => Some(n@),
            None => None,
        }
    }

    pub closed spec fn pdk_file(&self) -> Option<Seq<u8>> {
        match self.pdk {
            Some(p) => Some(p.0@),
            None => None,
        }
    }

    /// Every file present has the size of what it holds.
    pub open spec fn wf(&self) -> bool {
        &&& self.noise_hash_kept()
        &&& (self.noise_file() matches Some(n) ==> n.len() == NOISE_LEN)
        &&& (self.edk_file() matches Some(c) ==> c.wf())
        &&& (self.erk_file() matches Some(c) ==> c.0.wf())
        &&& (self.pdk_file() matches Some(p) ==> p.len() == 32)
    }

    /// The device key `dk` is sealed under the random key `rk`, and the
    /// commitment binds `rk` to the password key `pass`.
    pub open spec fn sealed_with(&self, dk: Seq<u8>, rk: Seq<u8>, pass: Seq<u8>) -> bool {
        &&& rk.len() == 32
        &&& pass.len() == 32
        &&& self.edk_file() matches Some(c) && c.seals(dk, rk)
        &&& self.pdk_file() == Some(xor_seq(rk, pass))
    }

    /// Sealed as above, and unlocked: the random key is sealed under the
    /// hash of the noise blob on disk.
    pub open spec fn unlocked_with(&self, dk: Seq<u8>, rk: Seq<u8>, pass: Seq<u8>) -> bool {
        &&& self.sealed_with(dk, rk, pass)
        &&& self.noise_file() is Some
        &&& self.erk_file() matches Some(e) && e.0.seals(rk, hash_spec(self.noise_file()->Some_0, 32))
    }

    /// The random key the files currently give.
    pub open spec fn random_key(&self) -> Seq<u8> {
        random_key_of(&self.erk_file()->Some_0, hash_spec(self.noise_file()->Some_0, 32))
    }

    /// The seed the sealed device key opens to under the current random key.
    pub open spec fn device_seed(&self) -> Seq<u8> {
        strobe_dec(seal_transcript(self.random_key(), self.edk_file()->Some_0.nonce()), self.edk_file()->Some_0.data())
    }

    /// The password key the files give: the random key xor the commitment.
    pub open spec fn password_value(&self) -> Seq<u8> {
        xor_seq(self.random_key(), self.pdk_file()->Some_0)
    }

    /// The three files the device key is read from are present.
    pub open spec fn readable(&self) -> bool {
        self.edk_file() is Some && self.erk_file() is Some && self.noise_file() is Some
    }

    /// The device key opens under the random key the files give.
    pub open spec fn opens(&self) -> bool {
        let c = self.edk_file()->Some_0;
        c.tag() == seal_tag(c.data(), self.random_key(), c.nonce(), 16)
    }

    /// A generation numbered `gen` with no files.
    pub fn new(gen: u16) -> (r: Self)
        ensures
            r.wf(),
            r.gen_number() == gen,
            r.edk_file() is None,
            r.erk_file() is None,
            r.noise_file() is None,
            r.pdk_file() is None,
    {
        Generation { gen, edk: None, erk: None, noise: None, nk: None, pdk: None, _marker: PhantomData }
    }

    /// A generation made of the given file contents.
    pub fn from_files(
        gen: u16,
        edk: Option<CipherText<32, 32, 24, 16>>,
        erk: Option<EncryptedRandomKey>,
        noise: Option<Vec<u8>>,
        pdk: Option<PublicDeviceKey>,
    ) -> (r: Self)
        requires
            edk matches Some(c) ==> c.wf(),
            erk matches Some(c) ==> c.0.wf(),
            noise matches Some(n) ==> n@.len() == NOISE_LEN,
            pdk matches Some(p) ==> p.0.wf(),
        ensures
            r.wf(),
            r.gen_number() == gen,
            r.edk_file() == edk,
            r.erk_file() == erk,
            r.noise_file() == (match noise { Some(n) => Some(n@), None => None::<Seq<u8>> }),
            r.pdk_file() == (match pdk { Some(p) => Some(p.0@), None => None::<Seq<u8>> }),
    {
        let nk = match &noise {
            Some(n) => Some(NoiseHash::of_noise(n.as_slice())),
            None => None,
        };
        Generation { gen, edk, erk, noise, nk, pdk, _marker: PhantomData }
    }

    /// The generation number.
    pub fn gen(&self) -> (r: u16)
        ensures
            r == self.gen_number(),
    {
        self.gen
    }

    /// A generation is initialized once its device key is written.
    pub fn is_initialized(&self) -> (r: bool)
        ensures
            r == self.edk_file() is Some,
    {
        self.edk.is_some()
    }

    /// The sealed device key, if written.
    pub fn encrypted_device_key(&self) -> (r: &Option<CipherText<32, 32, 24, 16>>)
        ensures
            *r == self.edk_file(),
    {
        &self.edk
    }

    /// The sealed random key, if written.
    pub fn encrypted_random_key(&self) -> (r: &Option<EncryptedRandomKey>)
        ensures
            *r == self.erk_file(),
    {
        &self.erk
    }

    /// The noise blob, if written.
    pub fn noise(&self) -> (r: &Option<Vec<u8>>)
        ensures
            r.is_some() == self.noise_file().is_some(),
            r matches Some(n) ==> self.noise_file() == Some(n@),
    {
        &self.noise
    }

    /// The commitment of the random key to the password.
    pub fn public(&self) -> (r: Result<&PublicDeviceKey, KeystoreError>)
        ensures
            r is Err <==> self.pdk_file() is None,
            r is Err ==> r == Err::<&PublicDeviceKey, KeystoreError>(KeystoreError::Uninitialized),
            r matches Ok(p) ==> self.pdk_file() == Some(p.0@),
    {
        match &self.pdk {
            Some(p) => Ok(p),
            None => Err(KeystoreError::Uninitialized),
        }
    }

    /// The random key, read through the noise blob.
    fn random_key_now(&self) -> (r: Result<RandomKey, KeystoreError>)
        requires
            self.wf(),
        ensures
            r is Ok <==> self.erk_file() is Some && self.noise_file() is Some,
            r is Err ==> r == Err::<RandomKey, KeystoreError>(KeystoreError::Uninitialized),
            r matches Ok(k) ==> k.0.wf() && k.0@ == self.random_key(),
            forall|dk: Seq<u8>, rk: Seq<u8>, pass: Seq<u8>|
                self.unlocked_with(dk, rk, pass) ==> (r matches Ok(k) && k.0@ == rk),
    {
        match (&self.erk, &self.nk) {
            (Some(erk), Some(nk)) => Ok(erk.decrypt(nk)),
            _ => Err(KeystoreError::Uninitialized),
        }
    }

    /// The device key, read through the noise blob and the random key.
    pub fn device_key(&self) -> (r: Result<TypedPair<K>, KeystoreError>)
        requires
            self.wf(),
        ensures
            !self.readable() ==> r == Err::<TypedPair<K>, KeystoreError>(KeystoreError::Uninitialized),
            self.readable() ==> (r is Ok <==> self.opens()),
            self.readable() && !self.opens() ==> r == Err::<TypedPair<K>, KeystoreError>(KeystoreError::Locked),
            r matches Ok(p) ==> p.wf() && p.seed_bytes() == self.device_seed(),
            forall|dk: Seq<u8>, rk: Seq<u8>, pass: Seq<u8>|
                self.unlocked_with(dk, rk, pass) ==> (r matches Ok(p) && p.seed_bytes() == dk),
    {
        let rk = self.random_key_now()?;
        match &self.edk {
            Some(edk) => match TypedPair::decrypt(edk, &rk.0) {
                Ok(p) => Ok(p),
                Err(_) => Err(KeystoreError::Locked),
            },
            None => Err(KeystoreError::Uninitialized),
        }
    }

    /// The password key, recovered from the random key and the commitment.
    /// Only meaningful while the generation is unlocked.
    pub fn password(&self) -> (r: Result<Password, KeystoreError>)
        requires
            self.wf(),
        ensures
            r is Err ==> r == Err::<Password, KeystoreError>(KeystoreError::Uninitialized),
            r is Ok <==> self.erk_file() is Some && self.noise_file() is Some && self.pdk_file() is Some,
            r matches Ok(p) ==> p.0.wf() && p.0@ == self.password_value(),
            forall|dk: Seq<u8>, rk: Seq<u8>, pass: Seq<u8>|
                self.unlocked_with(dk, rk, pass) ==> (r matches Ok(p) && p.0@ == pass),
    {
        let rk = self.random_key_now()?;
        let pdk = self.public()?;
        let p = rk.password(pdk);
        proof {
            assert forall|dk: Seq<u8>, rk2: Seq<u8>, pass: Seq<u8>|
                self.unlocked_with(dk, rk2, pass) implies p.0@ == pass by {
                lemma_mask_rotates_password(rk2, pass);
            }
        }
        Ok(p)
    }

    /// The mask from the current password to `new_password`.
    pub fn change_password_mask(&self, new_password: &Password) -> (r: Result<Mask, KeystoreError>)
        requires
            self.wf(),
            new_password.0.wf(),
        ensures
            r is Err ==> r == Err::<Mask, KeystoreError>(KeystoreError::Uninitialized),
            r is Ok <==> self.erk_file() is Some && self.noise_file() is Some && self.pdk_file() is Some,
            r matches Ok(m) ==> m.0.wf() && m.1 == 1 && m.0@ == xor_seq(self.password_value(), new_password.0@),
            forall|dk: Seq<u8>, rk: Seq<u8>, pass: Seq<u8>|
                self.unlocked_with(dk, rk, pass) ==> (r matches Ok(m) && m.0@ == xor_seq(pass, new_password.0@)),
    {
        let old_password = self.password()?;
        Ok(old_password.mask(new_password))
    }

    /// Locks the generation by overwriting the noise blob with zeros.
    pub fn lock(&mut self)
        requires
            old(self).wf(),
        ensures
            final(self).wf(),
            final(self).gen_number() == old(self).gen_number(),
            final(self).edk_file() == old(self).edk_file(),
            final(self).erk_file() == old(self).erk_file(),
            final(self).pdk_file() == old(self).pdk_file(),
            old(self).noise_file() is None ==> final(self).noise_file() is None,
            old(self).noise_file() matches Some(n) ==> final(self).noise_file() == Some(
                Seq::new(n.len(), |i: int| 0u8),
            ),
    {
        if let Some(noise) = &mut self.noise {
            let len = noise.len();
            let mut i: usize = 0;
            while i < len
                invariant
                    len == noise@.len(),
                    i <= len,
                    forall|j: int| 0 <= j < i ==> noise@[j] == 0u8,
                decreases len - i,
            {
                noise.set(i, 0u8);
                i += 1;
            }
            assert(noise@ =~= Seq::new(len as nat, |i: int| 0u8));
            self.nk = Some(NoiseHash::of_noise(noise.as_slice()));
        }
    }

    /// Writes a fresh generation: the device key sealed under `rk`, `rk`
    /// committed to `pass`, and `rk` sealed under the hash of `noise`.
    /// The device key is then read back as a check.
    pub fn initialize_with(
        &mut self,
        dk: &TypedPair<K>,
        pass: &Password,
        rk: RandomKey,
        noise: Vec<u8>,
        nonce: CryptoArray<24>,
    ) -> (r: Result<(), KeystoreError>)
        requires
            dk.wf(),
            pass.0.wf(),
            rk.0.wf(),
            nonce.wf(),
            noise@.len() == NOISE_LEN,
        ensures
            r is Ok,
            final(self).wf(),
            final(self).gen_number() == old(self).gen_number(),
            final(self).unlocked_with(dk.seed_bytes(), rk.0@, pass.0@),
            final(self).noise_file() == Some(noise@),
    {
        let edk = dk.seed().encrypt_with_nonce_as(&rk.0, nonce);
        let pdk = rk.public(pass);
        let nk = NoiseHash::of_noise(noise.as_slice());
        let erk = rk.encrypt(&nk);
        self.pdk = Some(pdk);
        self.noise = Some(noise);
        self.nk = Some(nk);
        self.erk = Some(erk);
        self.edk = Some(edk);
        assert(self.unlocked_with(dk.seed_bytes(), rk.0@, pass.0@));
        self.device_key()?;
        Ok(())
    }

    /// Writes a fresh generation with a new random key, noise and nonce.
    pub fn initialize(&mut self, dk: &TypedPair<K>, pass: &Password) -> (r: Result<(), KeystoreError>)
        requires
            dk.wf(),
            pass.0.wf(),
        ensures
            r is Ok,
            final(self).wf(),
            final(self).gen_number() == old(self).gen_number(),
            exists|rk: Seq<u8>| final(self).unlocked_with(dk.seed_bytes(), rk, pass.0@),
    {
        let rk = RandomKey::generate();
        let ghost k = rk.0@;
        let noise = crate::array::random_bytes(NOISE_LEN);
        let r = self.initialize_with(dk, pass, rk, noise, CryptoArray::random());
        assert(self.unlocked_with(dk.seed_bytes(), k, pass.0@));
        r
    }

    /// Unlocks with `pass`: the commitment gives the random key back, which
    /// is sealed under the hash of the new noise blob; the device key is
    /// then read.  A wrong password gives a wrong random key, under which
    /// the device key does not open.
    pub fn unlock_with(&mut self, pass: &Password, noise: Vec<u8>) -> (r: Result<TypedPair<K>, KeystoreError>)
        requires
            old(self).wf(),
            pass.0.wf(),
            noise@.len() == NOISE_LEN,
        ensures
            final(self).wf(),
            final(self).gen_number() == old(self).gen_number(),
            final(self).edk_file() == old(self).edk_file(),
            final(self).pdk_file() == old(self).pdk_file(),
            old(self).pdk_file() is None ==> r == Err::<TypedPair<K>, KeystoreError>(KeystoreError::Uninitialized)
                && final(self).noise_file() == old(self).noise_file() && final(self).erk_file() == old(self).erk_file(),
            old(self).pdk_file() is Some ==> (final(self).noise_file() == Some(noise@)
                && final(self).erk_file() is Some && final(self).erk_file()->Some_0.0.seals(
                xor_seq(old(self).pdk_file()->Some_0, pass.0@),
                hash_spec(noise@, 32),
            )),
            old(self).pdk_file() is Some && old(self).edk_file() is None ==> r == Err::<
                TypedPair<K>,
                KeystoreError,
            >(KeystoreError::Uninitialized),
            old(self).pdk_file() is Some && old(self).edk_file() is Some ==> (r is Ok <==> final(self).opens()),
            old(self).pdk_file() is Some && old(self).edk_file() is Some && !final(self).opens() ==> r == Err::<
                TypedPair<K>,
                KeystoreError,
            >(KeystoreError::PasswordMissmatch),
            r is Err ==> r == Err::<TypedPair<K>, KeystoreError>(KeystoreError::Uninitialized)
                || r == Err::<TypedPair<K>, KeystoreError>(KeystoreError::PasswordMissmatch),
            r matches Ok(p) ==> p.wf() && p.seed_bytes() == final(self).device_seed(),
            forall|dk: Seq<u8>, rk: Seq<u8>|
                old(self).sealed_with(dk, rk, pass.0@) ==> (r matches Ok(p) && p.seed_bytes() == dk
                    && final(self).unlocked_with(dk, rk, pass.0@)),
    {
        let pdk = match &self.pdk {
            Some(p) => p,
            None => return Err(KeystoreError::Uninitialized),
        };
        let rk = pdk.private(pass);
        let ghost k = rk.0@;
        let nk = NoiseHash::of_noise(noise.as_slice());
        let erk = rk.encrypt(&nk);
        self.noise = Some(noise);
        self.nk = Some(nk);
        self.erk = Some(erk);
        proof {
            assert forall|dk: Seq<u8>, rk2: Seq<u8>|
                old(self).sealed_with(dk, rk2, pass.0@) implies self.unlocked_with(dk, rk2, pass.0@) by {
                lemma_xor_cancel(rk2, pass.0@);
            }
        }
        match self.device_key() {
            Ok(p) => Ok(p),
            Err(KeystoreError::Locked) => Err(KeystoreError::PasswordMissmatch),
            Err(e) => Err(e),
        }
    }

    /// Unlocks with `pass`, writing a fresh noise blob.
    pub fn unlock(&mut self, pass: &Password) -> (r: Result<TypedPair<K>, KeystoreError>)
        requires
            old(self).wf(),
            pass.0.wf(),
        ensures
            final(self).wf(),
            final(self).gen_number() == old(self).gen_number(),
            final(self).edk_file() == old(self).edk_file(),
            final(self).pdk_file() == old(self).pdk_file(),
            old(self).pdk_file() is None ==> r == Err::<TypedPair<K>, KeystoreError>(KeystoreError::Uninitialized)
                && final(self).noise_file() == old(self).noise_file() && final(self).erk_file() == old(self).erk_file(),
            old(self).pdk_file() is Some ==> final(self).noise_file() is Some && final(self).erk_file() is Some
                && final(self).erk_file()->Some_0.0.seals(
                xor_seq(old(self).pdk_file()->Some_0, pass.0@),
                hash_spec(final(self).noise_file()->Some_0, 32),
            ),
            old(self).pdk_file() is Some && old(self).edk_file() is None ==> r == Err::<
                TypedPair<K>,
                KeystoreError,
            >(KeystoreError::Uninitialized),
            old(self).pdk_file() is Some && old(self).edk_file() is Some ==> (r is Ok <==> final(self).opens()),
            old(self).pdk_file() is Some && old(self).edk_file() is Some && !final(self).opens() ==> r == Err::<
                TypedPair<K>,
                KeystoreError,
            >(KeystoreError::PasswordMissmatch),
            r is Err ==> r == Err::<TypedPair<K>, KeystoreError>(KeystoreError::Uninitialized)
                || r == Err::<TypedPair<K>, KeystoreError>(KeystoreError::PasswordMissmatch),
            r matches Ok(p) ==> p.wf() && p.seed_bytes() == final(self).device_seed(),
            forall|dk: Seq<u8>, rk: Seq<u8>|
                old(self).sealed_with(dk, rk, pass.0@) ==> (r matches Ok(p) && p.seed_bytes() == dk
                    && final(self).unlocked_with(dk, rk, pass.0@)),
    {
        let noise = crate::array::random_bytes(NOISE_LEN);
        self.unlock_with(pass, noise)
    }
}

/// A generation written for one password and then rotated by the mask to
/// a second password is sealed for the second password, with the same
/// device key.
pub proof fn lemma_rotation_seals_new_password<K: KeyType>(
    g: Generation<K>,
    dk: Seq<u8>,
    rk: Seq<u8>,
    old_pass: Seq<u8>,
    new_pass: Seq<u8>,
)
    requires
        old_pass.len() == 32,
        new_pass.len() == 32,
        g.unlocked_with(dk, rk, xor_seq(old_pass, xor_seq(old_pass, new_pass))),
    ensures
        g.sealed_with(dk, rk, new_pass),
        g.unlocked_with(dk, rk, new_pass),
{
    lemma_mask_rotates_password(old_pass, new_pass);
}

} // verus!
