//! The secrets a keystore generation is made of, and password masks.
use crate::array::{hash_spec, kdf_spec, xor_seq, CryptoArray};
use crate::cipher::{seal_transcript, CipherText};
use crate::duplex::strobe_dec;
use crate::error::CodecError;
use vstd::prelude::*;
use vstd::string::StringSliceAdditionalSpecFns;

verus! {

proof fn lemma_xor_byte(x: u8, y: u8, z: u8)
    ensures
        (x ^ y) ^ y == x,
        x ^ y == y ^ x,
        (x ^ y) ^ z == x ^ (y ^ z),
{
    assert((x ^ y) ^ y == x) by (bit_vector);
    assert(x ^ y == y ^ x) by (bit_vector);
    assert((x ^ y) ^ z == x ^ (y ^ z)) by (bit_vector);
}

/// Exclusive or with the same bytes twice gives back the first operand.
pub proof fn lemma_xor_cancel(a: Seq<u8>, b: Seq<u8>)
    requires
        a.len() == b.len(),
    ensures
        xor_seq(xor_seq(a, b), b) == a,
{
    assert forall|i: int| 0 <= i < a.len() implies xor_seq(xor_seq(a, b), b)[i] == a[i] by {
        lemma_xor_byte(a[i], b[i], 0);
    }
    assert(xor_seq(xor_seq(a, b), b) =~= a);
}

/// Exclusive or does not depend on the order of its operands.
pub proof fn lemma_xor_commutes(a: Seq<u8>, b: Seq<u8>)
    requires
        a.len() == b.len(),
    ensures
        xor_seq(a, b) == xor_seq(b, a),
{
    assert forall|i: int| 0 <= i < a.len() implies xor_seq(a, b)[i] == xor_seq(b, a)[i] by {
        lemma_xor_byte(a[i], b[i], 0);
    }
    assert(xor_seq(a, b) =~= xor_seq(b, a));
}

/// Exclusive or is associative.
pub proof fn lemma_xor_associates(a: Seq<u8>, b: Seq<u8>, c: Seq<u8>)
    requires
        a.len() == b.len(),
        b.len() == c.len(),
    ensures
        xor_seq(xor_seq(a, b), c) == xor_seq(a, xor_seq(b, c)),
{
    assert forall|i: int| 0 <= i < a.len() implies xor_seq(xor_seq(a, b), c)[i] == xor_seq(a, xor_seq(b, c))[i] by {
        lemma_xor_byte(a[i], b[i], c[i]);
    }
    assert(xor_seq(xor_seq(a, b), c) =~= xor_seq(a, xor_seq(b, c)));
}

/// What a sealed random key opens to under the noise hash `nk`.
pub open spec fn random_key_of(erk: &EncryptedRandomKey, nk: Seq<u8>) -> Seq<u8> {
    strobe_dec(seal_transcript(nk, erk.0.nonce()), erk.0.data())
}

/// The key a password stands for.
pub open spec fn password_key(plain: &str) -> Seq<u8> {
    kdf_spec(plain.spec_bytes(), 32)
}

/// Bytes of a noise blob: 500 blocks of 4096 bytes.
pub const NOISE_LEN: usize = 2048000;

/// The hash of a noise blob: the key that seals the random key.
#[derive(Clone)]
pub struct NoiseHash(pub CryptoArray<32>);

/// The intermediate key that seals the device key.
#[derive(Clone)]
pub struct RandomKey(pub CryptoArray<32>);

/// The random key sealed under a noise hash, with neither nonce nor tag.
pub struct EncryptedRandomKey(pub CipherText<32, 32, 0, 0>);

/// A password, held as the key derived from it.
#[derive(Clone)]
pub struct Password(pub CryptoArray<32>);

/// The commitment kept on disk: the random key xor the password.
#[derive(Clone)]
pub struct PublicDeviceKey(pub CryptoArray<32>);

/// The exclusive or of two passwords, and the number of generations it
/// moves a keystore forward.
#[derive(Clone)]
pub struct Mask(pub CryptoArray<32>, pub u16);

impl NoiseHash {
    pub fn new(array: CryptoArray<32>) -> (r: NoiseHash)
        ensures
            r.0@ == array@,
    {
        NoiseHash(array)
    }

    /// The hash of the contents of a noise blob.
    pub fn of_noise(noise: &[u8]) -> (r: NoiseHash)
        requires
            noise@.len() == NOISE_LEN,
        ensures
            r.0.wf(),
            r.0@ == hash_spec(noise@, 32),
    {
        NoiseHash(CryptoArray::hash(noise))
    }
}

impl RandomKey {
    /// A fresh random key.
    pub fn generate() -> (r: RandomKey)
        ensures
            r.0.wf(),
    {
        RandomKey(CryptoArray::random())
    }

    /// The commitment of this key to `pass`.
    pub fn public(&self, pass: &Password) -> (r: PublicDeviceKey)
        requires
            self.0.wf(),
            pass.0.wf(),
        ensures
            r.0.wf(),
            r.0@ == xor_seq(self.0@, pass.0@),
    {
        PublicDeviceKey(self.0.xor(&pass.0))
    }

    /// The password a commitment was made to, given this key.
    pub fn password(&self, pdk: &PublicDeviceKey) -> (r: Password)
        requires
            self.0.wf(),
            pdk.0.wf(),
        ensures
            r.0.wf(),
            r.0@ == xor_seq(self.0@, pdk.0@),
    {
        Password(self.0.xor(&pdk.0))
    }

    /// Seals this key under a noise hash.
    pub fn encrypt(&self, noise: &NoiseHash) -> (r: EncryptedRandomKey)
        requires
            self.0.wf(),
        ensures
            r.0.wf(),
            r.0.seals(self.0@, noise.0@),
    {
        EncryptedRandomKey(self.0.encrypt(&noise.0))
    }
}

impl EncryptedRandomKey {
    /// Opens the random key under a noise hash.  Without a tag this always
    /// succeeds; under another noise hash the key is garbage.
    pub fn decrypt(&self, key: &NoiseHash) -> (r: RandomKey)
        requires
            self.0.wf(),
        ensures
            r.0.wf(),
            r.0@ == random_key_of(self, key.0@),
            forall|k: Seq<u8>| self.0.seals(k, key.0@) ==> r.0@ == k,
    {
        match self.0.decrypt(&key.0) {
            Ok(k) => RandomKey(k),
            Err(_) => RandomKey(CryptoArray::zeroed()),
        }
    }
}

impl Password {
    /// The key derived from a plain-text password.
    pub fn new(plain: &str) -> (r: Password)
        ensures
            r.0.wf(),
            r.0@ == password_key(plain),
    {
        Password(CryptoArray::kdf(plain))
    }

    /// A random password.
    pub fn generate() -> (r: Password)
        ensures
            r.0.wf(),
    {
        Password(CryptoArray::random())
    }

    /// The mask that turns this password into `other`, one generation on.
    pub fn mask(&self, other: &Password) -> (r: Mask)
        requires
            self.0.wf(),
            other.0.wf(),
        ensures
            r.0.wf(),
            r.0@ == xor_seq(self.0@, other.0@),
            r.1 == 1,
    {
        Mask(self.0.xor(&other.0), 1)
    }

    /// The password this one becomes under `mask`.
    pub fn apply_mask(&self, mask: &Mask) -> (r: Password)
        requires
            self.0.wf(),
            mask.0.wf(),
        ensures
            r.0.wf(),
            r.0@ == xor_seq(self.0@, mask.0@),
    {
        Password(self.0.xor(&mask.0))
    }

    /// Compares two passwords in constant time.
    pub fn ct_equals(&self, other: &Password) -> (r: bool)
        ensures
            r == (self.0@ == other.0@),
    {
        self.0.ct_equals(&other.0)
    }
}

impl PublicDeviceKey {
    /// The random key this commitment hides, given the password.
    pub fn private(&self, pass: &Password) -> (r: RandomKey)
        requires
            self.0.wf(),
            pass.0.wf(),
        ensures
            r.0.wf(),
            r.0@ == xor_seq(self.0@, pass.0@),
    {
        RandomKey(self.0.xor(&pass.0))
    }
}

impl Mask {
    /// A one-step mask made of `mask`.
    pub fn new(mask: CryptoArray<32>) -> (r: Mask)
        requires
            mask.wf(),
        ensures
            r.0@ == mask@,
            r.1 == 1,
    {
        Mask(mask, 1)
    }

    /// The mask that has the effect of this one followed by `mask`.
    pub fn join(&self, mask: &Mask) -> (r: Mask)
        requires
            self.0.wf(),
            mask.0.wf(),
            self.1 + mask.1 <= u16::MAX,
        ensures
            r.0.wf(),
            r.0@ == xor_seq(self.0@, mask.0@),
            r.1 == self.1 + mask.1,
    {
        Mask(self.0.xor(&mask.0), self.1 + mask.1)
    }

    /// The number of generations the mask moves forward.
    pub fn len(&self) -> (r: u16)
        ensures
            r == self.1,
    {
        self.1
    }

    /// The persisted form: the mask bytes, then the step count in little
    /// endian.
    pub fn encode(&self) -> (r: Vec<u8>)
        ensures
            r@ == self.0@ + seq![(self.1 % 256) as u8, (self.1 / 256) as u8],
    {
        let mut out = self.0.to_vec();
        out.push((self.1 % 256) as u8);
        out.push((self.1 / 256) as u8);
        out
    }

    /// Reads a mask from the front of `input`.
    pub fn decode(input: &[u8]) -> (r: Result<Mask, CodecError>)
        ensures
            r is Ok <==> input@.len() >= 34,
            r matches Ok(m) ==> m.0.wf() && m.0@ + seq![(m.1 % 256) as u8, (m.1 / 256) as u8]
                == input@.subrange(0, 34),
    {
        if input.len() < 34 {
            return Err(CodecError);
        }
        let bytes = crate::cipher::slice_to_vec_range(input, 0, 32);
        let count: u16 = input[32] as u16 + 256 * (input[33] as u16);
        let m = Mask(CryptoArray::from_vec(bytes), count);
        assert(m.0@ + seq![(m.1 % 256) as u8, (m.1 / 256) as u8] =~= input@.subrange(0, 34));
        Ok(m)
    }
}

/// Joining masks is associative, in the bytes and in the step count.
pub proof fn lemma_join_associates(a: Mask, b: Mask, c: Mask)
    requires
        a.0.wf(),
        b.0.wf(),
        c.0.wf(),
    ensures
        xor_seq(xor_seq(a.0@, b.0@), c.0@) == xor_seq(a.0@, xor_seq(b.0@, c.0@)),
        (a.1 + b.1) + c.1 == a.1 + (b.1 + c.1),
{
    lemma_xor_associates(a.0@, b.0@, c.0@);
}

/// The mask from one password to another turns the first into the second.
pub proof fn lemma_mask_rotates_password(old_pass: Seq<u8>, new_pass: Seq<u8>)
    requires
        old_pass.len() == 32,
        new_pass.len() == 32,
    ensures
        xor_seq(old_pass, xor_seq(old_pass, new_pass)) == new_pass,
{
    lemma_xor_associates(old_pass, old_pass, new_pass);
    lemma_xor_commutes(old_pass, new_pass);
    lemma_xor_cancel(new_pass, old_pass);
    assert(xor_seq(xor_seq(old_pass, old_pass), new_pass) == xor_seq(xor_seq(new_pass, old_pass), old_pass)) by {
        lemma_xor_associates(new_pass, old_pass, old_pass);
        lemma_xor_commutes(xor_seq(old_pass, old_pass), new_pass);
        lemma_xor_associates(old_pass, old_pass, new_pass);
        assert(xor_seq(xor_seq(old_pass, old_pass), new_pass) =~= xor_seq(new_pass, xor_seq(old_pass, old_pass)));
    }
}

} // verus!
