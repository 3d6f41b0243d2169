//! Sealed secrets: a secret encrypted and authenticated under a key, with a
//! nonce and a tag.
use crate::array::CryptoArray;
use crate::duplex::{ad_frame, enc_frame, label_frame, strobe_dec, strobe_enc, strobe_mac, Duplex};
use crate::error::{CodecError, DecryptError};
use vstd::prelude::*;
use vstd::slice::slice_subrange;

verus! {

/// The protocol name of the authenticated encryption.
pub open spec fn aead_label() -> Seq<u8> {
    seq![68u8, 105, 115, 99, 111, 65, 69, 65, 68]
}

/// The frames absorbed before the secret is encrypted.
pub open spec fn seal_transcript(key: Seq<u8>, nonce: Seq<u8>) -> Seq<Seq<u8>> {
    seq![label_frame(aead_label()), ad_frame(key), ad_frame(nonce)]
}

/// The cipher text of `plain` under `key` and `nonce`.
pub open spec fn sealed_data(plain: Seq<u8>, key: Seq<u8>, nonce: Seq<u8>) -> Seq<u8> {
    strobe_enc(seal_transcript(key, nonce), plain)
}

/// The `t`-byte tag that authenticates the cipher text `data` under `key`
/// and `nonce`.
pub open spec fn seal_tag(data: Seq<u8>, key: Seq<u8>, nonce: Seq<u8>, t: nat) -> Seq<u8> {
    strobe_mac(seal_transcript(key, nonce).push(enc_frame(data)), t)
}

/// A `D`-byte secret sealed under a `K`-byte key, with an `N`-byte nonce and
/// a `T`-byte tag.
pub struct CipherText<const D: usize, const K: usize, const N: usize, const T: usize> {
    data: CryptoArray<D>,
    nonce: CryptoArray<N>,
    tag: CryptoArray<T>,
}

impl<const D: usize, const K: usize, const N: usize, const T: usize> CipherText<D, K, N, T> {
    pub closed spec fn data(&self) -> Seq<u8> {
        self.data@
    }

    pub closed spec fn nonce(&self) -> Seq<u8> {
        self.nonce@
    }

    pub closed spec fn tag(&self) -> Seq<u8> {
        self.tag@
    }

    pub open spec fn wf(&self) -> bool {
        &&& self.data().len() == D
        &&& self.nonce().len() == N
        &&& self.tag().len() == T
    }

    /// This cipher text is `plain` sealed under `key`.
    pub open spec fn seals(&self, plain: Seq<u8>, key: Seq<u8>) -> bool {
        &&& self.data() == sealed_data(plain, key, self.nonce())
        &&& self.tag() == seal_tag(self.data(), key, self.nonce(), T as nat)
    }

    /// The persisted form: cipher text, nonce and tag, one after the other.
    pub open spec fn encoded(&self) -> Seq<u8> {
        self.data() + self.nonce() + self.tag()
    }

    /// Seals `data` under `key` with the given nonce.
    pub fn encrypt_with_nonce(data: &CryptoArray<D>, key: &CryptoArray<K>, nonce: CryptoArray<N>) -> (r: Self)
        requires
            data.wf(),
            nonce.wf(),
        ensures
            r.wf(),
            r.nonce() == nonce@,
            r.seals(data@, key@),
    {
        let label: Vec<u8> = vec![68u8, 105, 115, 99, 111, 65, 69, 65, 68];
        assert(label@ == aead_label());
        let mut s = Duplex::new(label.as_slice());
        s.ad(key.as_slice());
        s.ad(nonce.as_slice());
        assert(s.transcript() =~= seal_transcript(key@, nonce@));
        let mut buf = data.to_vec();
        s.send_enc(&mut buf);
        let mac = s.send_mac(T);
        CipherText { data: CryptoArray::from_vec(buf), nonce, tag: CryptoArray::from_vec(mac) }
    }

    /// Seals `data` under `key` with a fresh random nonce.
    pub fn encrypt(data: &CryptoArray<D>, key: &CryptoArray<K>) -> (r: Self)
        requires
            data.wf(),
        ensures
            r.wf(),
            r.seals(data@, key@),
    {
        Self::encrypt_with_nonce(data, key, CryptoArray::random())
    }

    /// Opens the cipher text under `key`; fails exactly when the tag does
    /// not authenticate the cipher text under that key.
    pub fn decrypt(&self, key: &CryptoArray<K>) -> (r: Result<CryptoArray<D>, DecryptError>)
        requires
            self.wf(),
        ensures
            r is Ok <==> self.tag() == seal_tag(self.data(), key@, self.nonce(), T as nat),
            T == 0 ==> r is Ok,
            r matches Ok(p) ==> p.wf() && p@ == strobe_dec(seal_transcript(key@, self.nonce()), self.data()),
            forall|p: Seq<u8>| self.seals(p, key@) ==> (r matches Ok(q) && q@ == p),
    {
        let label: Vec<u8> = vec![68u8, 105, 115, 99, 111, 65, 69, 65, 68];
        assert(label@ == aead_label());
        let mut s = Duplex::new(label.as_slice());
        s.ad(key.as_slice());
        s.ad(self.nonce.as_slice());
        assert(s.transcript() =~= seal_transcript(key@, self.nonce@));
        let mut buf = self.data.to_vec();
        s.recv_enc(&mut buf);
        let ok = s.recv_mac::<T>(self.tag.as_slice());
        if ok {
            Ok(CryptoArray::from_vec(buf))
        } else {
            Err(DecryptError)
        }
    }

    /// The persisted form of the cipher text.
    pub fn encode(&self) -> (r: Vec<u8>)
        ensures
            r@ == self.encoded(),
    {
        let mut out = self.data.to_vec();
        out.extend_from_slice(self.nonce.as_slice());
        out.extend_from_slice(self.tag.as_slice());
        out
    }

    /// Reads a cipher text from the front of `input`.
    pub fn decode(input: &[u8]) -> (r: Result<Self, CodecError>)
        ensures
            r is Ok <==> input@.len() >= D + N + T,
            r matches Ok(c) ==> c.wf() && c.encoded() == input@.subrange(0, D + N + T),
    {
        if input.len() < D || input.len() - D < N || input.len() - D - N < T {
            return Err(CodecError);
        }
        let data = CryptoArray::<D>::from_vec(slice_to_vec_range(input, 0, D));
        let nonce = CryptoArray::<N>::from_vec(slice_to_vec_range(input, D, D + N));
        let tag = CryptoArray::<T>::from_vec(slice_to_vec_range(input, D + N, D + N + T));
        let r = CipherText { data, nonce, tag };
        assert(r.encoded() =~= input@.subrange(0, D + N + T));
        Ok(r)
    }
}

/// A copy of `input[start..end]`.
pub(crate) fn slice_to_vec_range(input: &[u8], start: usize, end: usize) -> (r: Vec<u8>)
    requires
        start <= end <= input@.len(),
    ensures
        r@ == input@.subrange(start as int, end as int),
{
    vstd::slice::slice_to_vec(slice_subrange(input, start, end))
}

impl<const D: usize> CryptoArray<D> {
    /// Seals the secret under `key` with the given nonce.
    pub fn encrypt_with_nonce_as<const K: usize, const N: usize, const T: usize>(
        &self,
        key: &CryptoArray<K>,
        nonce: CryptoArray<N>,
    ) -> (r: CipherText<D, K, N, T>)
        requires
            self.wf(),
            nonce.wf(),
        ensures
            r.wf(),
            r.nonce() == nonce@,
            r.seals(self@, key@),
    {
        CipherText::encrypt_with_nonce(self, key, nonce)
    }

    /// Seals the secret under `key` with a fresh random nonce.
    pub fn encrypt<const K: usize, const N: usize, const T: usize>(&self, key: &CryptoArray<K>) -> (r: CipherText<D, K, N, T>)
        requires
            self.wf(),
        ensures
            r.wf(),
            r.seals(self@, key@),
    {
        CipherText::encrypt(self, key)
    }
}

/// Reading back the persisted form of a cipher text gives the same fields.
pub proof fn lemma_cipher_codec_round_trip<const D: usize, const K: usize, const N: usize, const T: usize>(
    c: CipherText<D, K, N, T>,
)
    requires
        c.wf(),
    ensures
        c.encoded().len() == D + N + T,
        c.encoded().subrange(0, D as int) == c.data(),
        c.encoded().subrange(D as int, D + N) == c.nonce(),
        c.encoded().subrange(D + N, D + N + T) == c.tag(),
{
    assert(c.encoded().subrange(0, D as int) =~= c.data());
    assert(c.encoded().subrange(D as int, D + N) =~= c.nonce());
    assert(c.encoded().subrange(D + N, D + N + T) =~= c.tag());
}

} // verus!
