//! Fixed-size secrets: random generation, derivation from a password or a
//! mnemonic, exclusive or, keyed hashing and a raw persisted form.
use crate::duplex::{ad_frame, label_frame, strobe_prf, Duplex};
use crate::error::{CodecError, KeySizeMissmatch, NotEnoughEntropyError};
use subtle::ConstantTimeEq;
use vstd::prelude::*;
use vstd::slice::{slice_subrange, slice_to_vec};
use vstd::string::StringSliceAdditionalSpecFns;

verus! {

/// A fixed-size secret of `N` bytes.
#[derive(Clone)]
pub struct CryptoArray<const N: usize> {
    data: Vec<u8>,
}

impl<const N: usize> View for CryptoArray<N> {
    type V = Seq<u8>;

    closed spec fn view(&self) -> Seq<u8> {
        self.data@
    }
}

impl<const N: usize> CryptoArray<N> {
    pub open spec fn wf(&self) -> bool {
        self@.len() == N
    }

    /// The secret holding exactly `bytes`.
    pub fn from_slice(bytes: &[u8]) -> (r: Result<Self, KeySizeMissmatch>)
        ensures
            r is Ok <==> bytes@.len() == N,
            r matches Ok(a) ==> a.wf() && a@ == bytes@,
    {
        if bytes.len() != N {
            return Err(KeySizeMissmatch);
        }
        Ok(CryptoArray { data: slice_to_vec(bytes) })
    }

    /// Takes ownership of `data`, which holds `N` bytes.
    pub(crate) fn from_vec(data: Vec<u8>) -> (r: Self)
        requires
            data@.len() == N,
        ensures
            r.wf(),
            r@ == data@,
    {
        CryptoArray { data }
    }

    /// The secret made of the first `N` bytes of `entropy`.
    pub fn from_entropy(entropy: &[u8]) -> (r: Result<Self, NotEnoughEntropyError>)
        ensures
            r is Ok <==> entropy@.len() >= N,
            r matches Ok(a) ==> a.wf() && a@ == entropy@.subrange(0, N as int),
    {
        if entropy.len() < N {
            return Err(NotEnoughEntropyError);
        }
        let head = slice_subrange(entropy, 0, N);
        Ok(CryptoArray { data: slice_to_vec(head) })
    }

    /// The secret made of the leading entropy of a mnemonic.
    pub fn from_mnemonic(mnemonic: &bip39::Mnemonic) -> (r: Result<Self, NotEnoughEntropyError>)
        ensures
            r is Ok <==> mnemonic_entropy_of(*mnemonic).len() >= N,
            r matches Ok(a) ==> a.wf() && a@ == mnemonic_entropy_of(*mnemonic).subrange(0, N as int),
            N <= 16 ==> r is Ok,
            N > 32 ==> r is Err,
    {
        let entropy = mnemonic_entropy(mnemonic);
        Self::from_entropy(entropy.as_slice())
    }

    /// A secret of fresh random bytes.
    pub fn random() -> (r: Self)
        ensures
            r.wf(),
    {
        CryptoArray { data: random_bytes(N) }
    }

    /// The secret of `N` zero bytes.
    pub fn zeroed() -> (r: Self)
        ensures
            r.wf(),
            r@ == Seq::new(N as nat, |i: int| 0u8),
    {
        let mut data: Vec<u8> = Vec::with_capacity(N);
        let mut i: usize = 0;
        while i < N
            invariant
                i <= N,
                data@ == Seq::new(i as nat, |j: int| 0u8),
            decreases N - i,
        {
            data.push(0u8);
            i += 1;
            assert(data@ =~= Seq::new(i as nat, |j: int| 0u8));
        }
        CryptoArray { data }
    }

    /// The number of bytes of the secret.
    pub fn size(&self) -> (r: usize)
        ensures
            r == N,
    {
        N
    }

    /// The bytes of the secret.
    pub fn as_slice(&self) -> (r: &[u8])
        ensures
            r@ == self@,
    {
        self.data.as_slice()
    }

    /// A copy of the bytes of the secret.
    pub fn to_vec(&self) -> (r: Vec<u8>)
        ensures
            r@ == self@,
    {
        self.data.clone()
    }

    /// A copy of the secret.
    pub fn duplicate(&self) -> (r: Self)
        ensures
            r@ == self@,
    {
        CryptoArray { data: self.data.clone() }
    }

    /// Overwrites the secret with `bytes`.
    pub fn copy_from_slice(&mut self, bytes: &[u8])
        requires
            bytes@.len() == N,
        ensures
            final(self)@ == bytes@,
            final(self).wf(),
    {
        self.data = slice_to_vec(bytes);
    }

    /// Compares two secrets in constant time.
    pub fn ct_equals(&self, other: &Self) -> (r: bool)
        ensures
            r == (self@ == other@),
    {
        ct_eq(self.data.as_slice(), other.data.as_slice())
    }

    /// Stretches a password into a key; the same password always gives the
    /// same key.
    pub fn kdf(password: &str) -> (r: Self)
        ensures
            r.wf(),
            r@ == kdf_spec(password.spec_bytes(), N as nat),
    {
        let label: Vec<u8> = vec![68u8, 105, 115, 99, 111, 75, 68, 70];
        assert(label@ == kdf_label());
        let mut s = Duplex::new(label.as_slice());
        s.ad(password.as_bytes());
        let out = s.prf(N);
        assert(seq![label_frame(kdf_label())].push(ad_frame(password.spec_bytes())) =~= seq![label_frame(kdf_label()), ad_frame(password.spec_bytes())]);
        CryptoArray { data: out }
    }

    /// Hashes a byte string into a secret.
    pub fn hash(input: &[u8]) -> (r: Self)
        ensures
            r.wf(),
            r@ == hash_spec(input@, N as nat),
    {
        let label: Vec<u8> = vec![68u8, 105, 115, 99, 111, 72, 97, 115, 104];
        assert(label@ == hash_label());
        let mut s = Duplex::new(label.as_slice());
        s.ad(input);
        let out = s.prf(N);
        assert(seq![label_frame(hash_label())].push(ad_frame(input@)) =~= seq![label_frame(hash_label()), ad_frame(input@)]);
        CryptoArray { data: out }
    }

    /// The persisted form: the bytes themselves.
    pub fn encode(&self) -> (r: Vec<u8>)
        ensures
            r@ == self@,
    {
        self.data.clone()
    }

    /// Reads a secret from the first `N` bytes of `input`.
    pub fn decode(input: &[u8]) -> (r: Result<Self, CodecError>)
        ensures
            r is Ok <==> input@.len() >= N,
            r matches Ok(a) ==> a.wf() && a@ == input@.subrange(0, N as int),
    {
        if input.len() < N {
            return Err(CodecError);
        }
        Ok(CryptoArray { data: slice_to_vec(slice_subrange(input, 0, N)) })
    }

    /// Bitwise exclusive or of two sequences of equal length.
    pub fn xor(&self, other: &Self) -> (r: Self)
        requires
            self.wf(),
            other.wf(),
        ensures
            r.wf(),
            r@ == xor_seq(self@, other@),
    {
        let mut out: Vec<u8> = Vec::with_capacity(N);
        let mut i: usize = 0;
        while i < N
            invariant
                i <= N,
                self.data@.len() == N,
                other.data@.len() == N,
                out@ == xor_seq(self.data@.subrange(0, i as int), other.data@.subrange(0, i as int)),
            decreases N - i,
        {
            out.push(self.data[i] ^ other.data[i]);
            i += 1;
            assert(out@ =~= xor_seq(self.data@.subrange(0, i as int), other.data@.subrange(0, i as int)));
        }
        assert(self.data@.subrange(0, N as int) =~= self.data@);
        assert(other.data@.subrange(0, N as int) =~= other.data@);
        CryptoArray { data: out }
    }
}

/// Relies on `rand::RngCore::fill_bytes` on the thread's generator: `n`
/// random bytes.
#[verifier::external_body]
pub(crate) fn random_bytes(n: usize) -> (r: Vec<u8>)
    ensures
        r@.len() == n,
{
    let mut out = vec![0u8; n];
    rand::RngCore::fill_bytes(&mut rand::thread_rng(), &mut out);
    out
}

/// Relies on `subtle::ConstantTimeEq` for byte slices: equal lengths and
/// equal bytes, compared in time that does not depend on the contents.
#[verifier::external_body]
pub(crate) fn ct_eq(a: &[u8], b: &[u8]) -> (r: bool)
    ensures
        r == (a@ == b@),
{
    bool::from(a.ct_eq(b))
}

#[verifier::external_type_specification]
#[verifier::external_body]
pub struct ExMnemonic(bip39::Mnemonic);

/// The entropy a mnemonic encodes.
pub uninterp spec fn mnemonic_entropy_of(m: bip39::Mnemonic) -> Seq<u8>;

/// Relies on `bip39::Mnemonic::to_entropy`: the entropy depends on the
/// mnemonic alone, four bytes for each three words, from twelve to
/// twenty-four words.
#[verifier::external_body]
fn mnemonic_entropy(m: &bip39::Mnemonic) -> (r: Vec<u8>)
    ensures
        r@ == mnemonic_entropy_of(*m),
        16 <= r@.len() <= 32,
        r@.len() % 4 == 0,
{
    m.to_entropy()
}

/// The protocol name under which passwords are stretched into keys.
pub open spec fn kdf_label() -> Seq<u8> {
    seq![68u8, 105, 115, 99, 111, 75, 68, 70]
}

/// The protocol name under which byte strings are hashed.
pub open spec fn hash_label() -> Seq<u8> {
    seq![68u8, 105, 115, 99, 111, 72, 97, 115, 104]
}

/// The `n`-byte key derived from the password bytes `pw`.
pub open spec fn kdf_spec(pw: Seq<u8>, n: nat) -> Seq<u8> {
    strobe_prf(seq![label_frame(kdf_label()), ad_frame(pw)], n)
}

/// The `n`-byte hash of `input`.
pub open spec fn hash_spec(input: Seq<u8>, n: nat) -> Seq<u8> {
    strobe_prf(seq![label_frame(hash_label()), ad_frame(input)], n)
}

/// Pointwise exclusive or; the result is as long as `a`.
pub open spec fn xor_seq(a: Seq<u8>, b: Seq<u8>) -> Seq<u8> {
    Seq::new(a.len(), |i: int| a[i] ^ b[i])
}

/// Relies on `zeroize::Zeroize` for `Vec<u8>`: every byte, spare capacity
/// included, is overwritten with zeros, then the vector is emptied.
#[verifier::external_body]
fn wipe(data: &mut Vec<u8>)
    ensures
        final(data)@.len() == 0,
    opens_invariants none
    no_unwind
{
    zeroize::Zeroize::zeroize(data)
}

impl<const N: usize> Drop for CryptoArray<N> {
    /// Overwrites the secret with zeros before its memory is released.
    fn drop(&mut self)
        opens_invariants none
        no_unwind
    {
        wipe(&mut self.data);
    }
}

impl<const N: usize> PartialEq for CryptoArray<N> {
    fn eq(&self, other: &Self) -> (r: bool) {
        self.ct_equals(other)
    }
}

impl<const N: usize> vstd::std_specs::cmp::PartialEqSpecImpl for CryptoArray<N> {
    open spec fn obeys_eq_spec() -> bool {
        true
    }

    open spec fn eq_spec(&self, other: &Self) -> bool {
        self@ == other@
    }
}

impl<const N: usize> Eq for CryptoArray<N> {
}

/// Decoding what `encode` wrote gives back the same secret.
pub proof fn lemma_array_codec_round_trip<const N: usize>(a: CryptoArray<N>)
    requires
        a.wf(),
    ensures
        a@.subrange(0, N as int) == a@,
{
    assert(a@.subrange(0, N as int) =~= a@);
}

} // verus!
