//! Secret envelopes: a payload encrypted once for any number of
//! recipients.  The layout is `[count][ephemeral public key]` followed by
//! one `[wrapped payload key][tag]` slot per recipient and the encrypted
//! payload.  Slots carry no recipient identifier.
use crate::array::CryptoArray;
use crate::cipher::slice_to_vec_range;
use crate::duplex::{ad_frame, enc_frame, label_frame, strobe_dec, strobe_enc, strobe_mac, Duplex};
use crate::keychain::{is_public_key, public_of, shared_of, KeyChain, KeyType, TypedPair, TypedPublic};
use core::marker::PhantomData;
use crate::error::CodecError;
use parity_scale_codec::{Decode, Encode};
use vstd::prelude::*;

verus! {

pub const X25519_LEN: usize = 32;
pub const TAG_LEN: usize = 16;
/// Bytes before the first slot: the count and the ephemeral public key.
pub const HEADER_LEN: usize = 33;
/// Bytes of one slot: a wrapped key and its tag.
pub const SLOT_LEN: usize = 48;

/// Why an envelope could not be made or opened.
#[derive(Debug, Clone, Copy, PartialEq, Eq, Structural)]
pub enum SecretBoxError {
    /// The envelope has, or would have, no recipient.
    NoRecipients,
    /// More than 255 recipients were given.
    TooManyRecipients,
    /// No private key of the role is held, or no slot opens under it.
    NoDecryptionKey,
    /// A public key is not a point a key exchange can be made with.
    InvalidKey,
    /// The envelope ends before its slots do.
    Truncated,
}

/// The protocol name under which payload keys are wrapped.
pub open spec fn wrap_label() -> Seq<u8> {
    seq![115u8, 101, 99, 114, 101, 116, 45, 98, 111, 120, 45, 107, 101, 121]
}

/// The protocol name under which payloads are encrypted.
pub open spec fn payload_label() -> Seq<u8> {
    seq![115u8, 101, 99, 114, 101, 116, 45, 98, 111, 120]
}

pub open spec fn wrap_transcript(shared: Seq<u8>) -> Seq<Seq<u8>> {
    seq![label_frame(wrap_label()), ad_frame(shared)]
}

pub open spec fn payload_transcript(key: Seq<u8>) -> Seq<Seq<u8>> {
    seq![label_frame(payload_label()), ad_frame(key)]
}

/// The tag of a slot whose wrapped key is `wrapped`, under `shared`.
pub open spec fn slot_tag(shared: Seq<u8>, wrapped: Seq<u8>) -> Seq<u8> {
    strobe_mac(wrap_transcript(shared).push(enc_frame(wrapped)), TAG_LEN as nat)
}

pub open spec fn slot_start(j: int) -> int {
    HEADER_LEN + SLOT_LEN * j
}

/// The recipient count of envelope bytes `b`.
pub open spec fn count_of(b: Seq<u8>) -> int {
    b[0] as int
}

/// The ephemeral public key of envelope bytes `b`.
pub open spec fn ephemeral_of(b: Seq<u8>) -> Seq<u8> {
    b.subrange(1, HEADER_LEN as int)
}

pub open spec fn wrapped_at(b: Seq<u8>, j: int) -> Seq<u8> {
    b.subrange(slot_start(j), slot_start(j) + X25519_LEN)
}

pub open spec fn tag_at(b: Seq<u8>, j: int) -> Seq<u8> {
    b.subrange(slot_start(j) + X25519_LEN, slot_start(j) + SLOT_LEN)
}

/// The encrypted payload of envelope bytes `b`.
pub open spec fn payload_of(b: Seq<u8>) -> Seq<u8> {
    b.subrange(slot_start(count_of(b)), b.len() as int)
}

/// The bytes hold a nonzero count and every slot it announces.
pub open spec fn complete(b: Seq<u8>) -> bool {
    b.len() >= HEADER_LEN && count_of(b) > 0 && b.len() >= slot_start(count_of(b))
}

/// Slot `j` authenticates under `shared`.
pub open spec fn slot_opens(b: Seq<u8>, shared: Seq<u8>, j: int) -> bool {
    tag_at(b, j) == slot_tag(shared, wrapped_at(b, j))
}

/// Slot `j` is the first one that authenticates under `shared`.
pub open spec fn first_open(b: Seq<u8>, shared: Seq<u8>, j: int) -> bool {
    &&& 0 <= j < count_of(b)
    &&& slot_opens(b, shared, j)
    &&& forall|k: int| 0 <= k < j ==> !slot_opens(b, shared, k)
}

/// Slot `j` is the payload key `key` wrapped under `shared`.
pub open spec fn slot_seals(b: Seq<u8>, shared: Seq<u8>, j: int, key: Seq<u8>) -> bool {
    &&& wrapped_at(b, j) == strobe_enc(wrap_transcript(shared), key)
    &&& slot_opens(b, shared, j)
}

/// The payload of `b` is `payload` encrypted under `key`.
pub open spec fn payload_seals(b: Seq<u8>, key: Seq<u8>, payload: Seq<u8>) -> bool {
    payload_of(b) == strobe_enc(payload_transcript(key), payload)
}

proof fn lemma_slot_bounds(j: int, i: int)
    requires
        0 <= j < i,
    ensures
        slot_start(j) + SLOT_LEN <= slot_start(i),
        slot_start(j + 1) == slot_start(j) + SLOT_LEN,
{
    assert(SLOT_LEN * j + SLOT_LEN <= SLOT_LEN * i) by (nonlinear_arith)
        requires
            0 <= j < i,
    ;
    assert(SLOT_LEN * (j + 1) == SLOT_LEN * j + SLOT_LEN) by (nonlinear_arith);
}

/// The `k` low bytes of `n`, least significant first.
pub open spec fn le_bytes(n: nat, k: nat) -> Seq<u8>
    decreases k,
{
    if k == 0 {
        Seq::empty()
    } else {
        seq![(n % 256) as u8] + le_bytes(n / 256, (k - 1) as nat)
    }
}

/// The SCALE compact encoding of a length that fits 32 bits: two mode bits
/// below the length, in one, two or four bytes, or a mode byte and four
/// bytes for lengths of 2^30 and more.
pub open spec fn compact_len(n: nat) -> Seq<u8> {
    if n < 64 {
        seq![(n * 4) as u8]
    } else if n < 16384 {
        le_bytes(n * 4 + 1, 2)
    } else if n < 1073741824 {
        le_bytes(n * 4 + 2, 4)
    } else {
        seq![3u8] + le_bytes(n, 4)
    }
}

/// The SCALE encoding of a byte vector: its compact length, then the bytes.
pub open spec fn scale_bytes(v: Seq<u8>) -> Seq<u8> {
    compact_len(v.len()) + v
}

/// Relies on `parity_scale_codec::Encode` for `Vec<u8>`: the compact length
/// (`Compact<u32>`), then the bytes.
#[verifier::external_body]
fn scale_encode_bytes(v: &Vec<u8>) -> (r: Vec<u8>)
    requires
        v@.len() <= u32::MAX,
    ensures
        r@ == scale_bytes(v@),
{
    v.encode()
}

/// Relies on `parity_scale_codec::Decode` for `Vec<u8>`: it reads back
/// what `Encode` wrote.
#[verifier::external_body]
fn scale_decode_bytes(b: &[u8]) -> (r: Option<Vec<u8>>)
    ensures
        forall|v: Seq<u8>| v.len() <= u32::MAX && b@ == scale_bytes(v) ==> r is Some && r->Some_0@ == v,
{
    Vec::<u8>::decode(&mut &b[..]).ok()
}

/// A payload encrypted for the holders of a set of keys of role `K`.
pub struct SecretBox<K> {
    secret: Vec<u8>,
    _marker: PhantomData<K>,
}

impl<K> View for SecretBox<K> {
    type V = Seq<u8>;

    closed spec fn view(&self) -> Seq<u8> {
        self.secret@
    }
}

impl<K> PartialEq for SecretBox<K> {
    fn eq(&self, other: &Self) -> (r: bool) {
        crate::array::ct_eq(self.secret.as_slice(), other.secret.as_slice())
    }
}

impl<K> vstd::std_specs::cmp::PartialEqSpecImpl for SecretBox<K> {
    open spec fn obeys_eq_spec() -> bool {
        true
    }

    open spec fn eq_spec(&self, other: &Self) -> bool {
        self@ == other@
    }
}

impl<K> Eq for SecretBox<K> {
}

fn wrap_label_bytes() -> (r: Vec<u8>)
    ensures
        r@ == wrap_label(),
{
    vec![115u8, 101, 99, 114, 101, 116, 45, 98, 111, 120, 45, 107, 101, 121]
}

fn payload_label_bytes() -> (r: Vec<u8>)
    ensures
        r@ == payload_label(),
{
    vec![115u8, 101, 99, 114, 101, 116, 45, 98, 111, 120]
}

impl<K: KeyType> SecretBox<K> {
    /// Encrypts `payload` for the recipients under `payload_key`, with the
    /// ephemeral key pair `ephemeral`.
    pub fn encrypt_with(
        payload: &[u8],
        recipients: &[TypedPublic<K>],
        payload_key: &CryptoArray<32>,
        ephemeral: &TypedPair<K>,
    ) -> (r: Result<Self, SecretBoxError>)
        requires
            payload_key.wf(),
            ephemeral.wf(),
        ensures
            (r == Err::<Self, SecretBoxError>(SecretBoxError::NoRecipients)) <==> recipients@.len() == 0,
            (r == Err::<Self, SecretBoxError>(SecretBoxError::TooManyRecipients)) <==> recipients@.len() > 255,
            r is Err ==> r == Err::<Self, SecretBoxError>(SecretBoxError::NoRecipients)
                || r == Err::<Self, SecretBoxError>(SecretBoxError::TooManyRecipients)
                || r == Err::<Self, SecretBoxError>(SecretBoxError::InvalidKey),
            (1 <= recipients@.len() <= 255 && forall|i: int|
                0 <= i < recipients@.len() ==> is_public_key(K::curve_of(), #[trigger] recipients@[i]@)) ==> r is Ok,
            r matches Ok(b) ==> {
                &&& b@.len() == slot_start(recipients@.len() as int) + payload@.len()
                &&& count_of(b@) == recipients@.len()
                &&& ephemeral_of(b@) == ephemeral.public_bytes()
                &&& forall|i: int| 0 <= i < recipients@.len() ==> slot_seals(
                    b@,
                    shared_of(K::curve_of(), ephemeral.seed_bytes(), #[trigger] recipients@[i]@),
                    i,
                    payload_key@,
                )
                &&& payload_seals(b@, payload_key@, payload@)
            },
    {
        let n = recipients.len();
        if n == 0 {
            return Err(SecretBoxError::NoRecipients);
        }
        if n > 255 {
            return Err(SecretBoxError::TooManyRecipients);
        }
        let mut buf: Vec<u8> = Vec::new();
        buf.push(n as u8);
        let eph_public = ephemeral.public();
        buf.extend_from_slice(eph_public.as_slice());
        assert(ephemeral_of(buf@) =~= ephemeral.public_bytes());
        let mut i: usize = 0;
        while i < n
            invariant
                1 <= n <= 255,
                n == recipients@.len(),
                i <= n,
                payload_key.wf(),
                ephemeral.wf(),
                buf@.len() == slot_start(i as int),
                buf@[0] == n as u8,
                ephemeral_of(buf@) == ephemeral.public_bytes(),
                forall|j: int| 0 <= j < i ==> slot_seals(
                    buf@,
                    shared_of(K::curve_of(), ephemeral.seed_bytes(), #[trigger] recipients@[j]@),
                    j,
                    payload_key@,
                ),
            decreases n - i,
        {
            let shared = match ephemeral.diffie_hellman(&recipients[i]) {
                Ok(s) => s,
                Err(_) => {
                    proof {
                        assert(!is_public_key(K::curve_of(), recipients@[i as int]@));
                    }
                    return Err(SecretBoxError::InvalidKey);
                },
            };
            let ghost before = buf@;
            let label = wrap_label_bytes();
            let mut s = Duplex::new(label.as_slice());
            s.ad(shared.as_slice());
            assert(s.transcript() =~= wrap_transcript(shared@));
            let mut wrapped = payload_key.to_vec();
            s.send_enc(&mut wrapped);
            let mac = s.send_mac(TAG_LEN);
            buf.extend_from_slice(wrapped.as_slice());
            buf.extend_from_slice(mac.as_slice());
            proof {
                lemma_slot_bounds(i as int, i as int + 1);
                assert(wrapped_at(buf@, i as int) =~= wrapped@);
                assert(tag_at(buf@, i as int) =~= mac@);
                assert(ephemeral_of(buf@) =~= ephemeral_of(before));
                assert forall|j: int| 0 <= j < i implies slot_seals(
                    buf@,
                    shared_of(K::curve_of(), ephemeral.seed_bytes(), #[trigger] recipients@[j]@),
                    j,
                    payload_key@,
                ) by {
                    lemma_slot_bounds(j, i as int);
                    assert(wrapped_at(buf@, j) =~= wrapped_at(before, j));
                    assert(tag_at(buf@, j) =~= tag_at(before, j));
                }
            }
            i += 1;
        }
        let label = payload_label_bytes();
        let mut s = Duplex::new(label.as_slice());
        s.ad(payload_key.as_slice());
        assert(s.transcript() =~= payload_transcript(payload_key@));
        let mut body = vstd::slice::slice_to_vec(payload);
        s.send_enc(&mut body);
        let ghost before = buf@;
        buf.extend_from_slice(body.as_slice());
        proof {
            assert(payload_of(buf@) =~= body@);
            assert(ephemeral_of(buf@) =~= ephemeral_of(before));
            assert forall|j: int| 0 <= j < n implies slot_seals(
                buf@,
                shared_of(K::curve_of(), ephemeral.seed_bytes(), #[trigger] recipients@[j]@),
                j,
                payload_key@,
            ) by {
                lemma_slot_bounds(j, n as int);
                assert(wrapped_at(buf@, j) =~= wrapped_at(before, j));
                assert(tag_at(buf@, j) =~= tag_at(before, j));
            }
        }
        Ok(SecretBox { secret: buf, _marker: PhantomData })
    }

    /// Encrypts `payload` for the recipients under a fresh payload key and
    /// a fresh ephemeral key pair.
    pub fn encrypt_for(payload: &[u8], recipients: &[TypedPublic<K>]) -> (r: Result<Self, SecretBoxError>)
        ensures
            (r == Err::<Self, SecretBoxError>(SecretBoxError::NoRecipients)) <==> recipients@.len() == 0,
            (r == Err::<Self, SecretBoxError>(SecretBoxError::TooManyRecipients)) <==> recipients@.len() > 255,
            (1 <= recipients@.len() <= 255 && forall|i: int|
                0 <= i < recipients@.len() ==> is_public_key(K::curve_of(), #[trigger] recipients@[i]@)) ==> r is Ok,
            r matches Ok(b) ==> exists|key: Seq<u8>, eseed: Seq<u8>| {
                &&& eseed.len() == 32
                &&& b@.len() == slot_start(recipients@.len() as int) + payload@.len()
                &&& count_of(b@) == recipients@.len()
                &&& ephemeral_of(b@) == public_of(K::curve_of(), eseed)
                &&& forall|i: int| 0 <= i < recipients@.len() ==> #[trigger] slot_seals(
                    b@,
                    shared_of(K::curve_of(), eseed, recipients@[i]@),
                    i,
                    key,
                )
                &&& payload_seals(b@, key, payload@)
            },
    {
        let payload_key = CryptoArray::<32>::random();
        let ephemeral = TypedPair::<K>::generate();
        let r = Self::encrypt_with(payload, recipients, &payload_key, &ephemeral);
        proof {
            if r is Ok {
                let b = r->Ok_0;
                assert(forall|i: int| 0 <= i < recipients@.len() ==> #[trigger] slot_seals(
                    b@,
                    shared_of(K::curve_of(), ephemeral.seed_bytes(), recipients@[i]@),
                    i,
                    payload_key@,
                ));
            }
        }
        r
    }

    /// Encrypts `payload` for every public key of role `K` that `key_chain`
    /// knows.
    pub fn encrypt(key_chain: &KeyChain, payload: &[u8]) -> (r: Result<Self, SecretBoxError>)
        ensures
            (r == Err::<Self, SecretBoxError>(SecretBoxError::NoRecipients)) <==> key_chain.publics_for(K::tag()).len() == 0,
            (r == Err::<Self, SecretBoxError>(SecretBoxError::TooManyRecipients)) <==> key_chain.publics_for(K::tag()).len() > 255,
            (1 <= key_chain.publics_for(K::tag()).len() <= 255 && forall|i: int|
                0 <= i < key_chain.publics_for(K::tag()).len() ==> is_public_key(
                    K::curve_of(),
                    #[trigger] key_chain.publics_for(K::tag())[i],
                )) ==> r is Ok,
            r matches Ok(b) ==> exists|key: Seq<u8>, eseed: Seq<u8>| {
                &&& eseed.len() == 32
                &&& b@.len() == slot_start(key_chain.publics_for(K::tag()).len() as int) + payload@.len()
                &&& count_of(b@) == key_chain.publics_for(K::tag()).len()
                &&& ephemeral_of(b@) == public_of(K::curve_of(), eseed)
                &&& forall|i: int| 0 <= i < key_chain.publics_for(K::tag()).len() ==> #[trigger] slot_seals(
                    b@,
                    shared_of(K::curve_of(), eseed, key_chain.publics_for(K::tag())[i]),
                    i,
                    key,
                )
                &&& payload_seals(b@, key, payload@)
            },
    {
        let recipients = key_chain.get_public::<K>();
        assert(recipients@.len() == key_chain.publics_for(K::tag()).len());
        assert forall|i: int| 0 <= i < recipients@.len() implies recipients@[i]@ == key_chain.publics_for(K::tag())[i] by {
            assert(recipients@.map_values(|p: TypedPublic<K>| p@)[i] == recipients@[i]@);
        }
        proof {
            if forall|i: int|
                0 <= i < key_chain.publics_for(K::tag()).len() ==> is_public_key(
                    K::curve_of(),
                    #[trigger] key_chain.publics_for(K::tag())[i],
                ) {
                assert forall|i: int| 0 <= i < recipients@.len() implies is_public_key(
                    K::curve_of(),
                    #[trigger] recipients@[i]@,
                ) by {
                    assert(recipients@[i]@ == key_chain.publics_for(K::tag())[i]);
                }
            }
        }
        let r = Self::encrypt_for(payload, recipients.as_slice());
        proof {
            if r is Ok {
                let b = r->Ok_0;
                let (key, eseed) = choose|key: Seq<u8>, eseed: Seq<u8>| {
                    &&& eseed.len() == 32
                    &&& b@.len() == slot_start(recipients@.len() as int) + payload@.len()
                    &&& count_of(b@) == recipients@.len()
                    &&& ephemeral_of(b@) == public_of(K::curve_of(), eseed)
                    &&& forall|i: int| 0 <= i < recipients@.len() ==> #[trigger] slot_seals(
                        b@,
                        shared_of(K::curve_of(), eseed, recipients@[i]@),
                        i,
                        key,
                    )
                    &&& payload_seals(b@, key, payload@)
                };
                assert forall|i: int| 0 <= i < key_chain.publics_for(K::tag()).len() implies #[trigger] slot_seals(
                    b@,
                    shared_of(K::curve_of(), eseed, key_chain.publics_for(K::tag())[i]),
                    i,
                    key,
                ) by {
                    assert(slot_seals(b@, shared_of(K::curve_of(), eseed, recipients@[i]@), i, key));
                }
            }
        }
        r
    }

    /// The envelope bytes.
    pub fn as_bytes(&self) -> (r: &[u8])
        ensures
            r@ == self@,
    {
        self.secret.as_slice()
    }

    /// The envelope made of `bytes`.
    pub fn from_bytes(bytes: Vec<u8>) -> (r: Self)
        ensures
            r@ == bytes@,
    {
        SecretBox { secret: bytes, _marker: PhantomData }
    }

    /// The persisted form: the envelope bytes as a SCALE byte vector.
    pub fn encode(&self) -> (r: Vec<u8>)
        requires
            self@.len() <= u32::MAX,
        ensures
            r@ == scale_bytes(self@),
    {
        scale_encode_bytes(&self.secret)
    }

    /// Reads an envelope from its persisted form.
    pub fn decode(bytes: &[u8]) -> (r: Result<Self, CodecError>)
        ensures
            forall|v: Seq<u8>| v.len() <= u32::MAX && bytes@ == scale_bytes(v) ==> (r matches Ok(b) && b@ == v),
    {
        match scale_decode_bytes(bytes) {
            Some(secret) => Ok(SecretBox { secret, _marker: PhantomData }),
            None => Err(CodecError),
        }
    }

    /// Opens the envelope with the private key of role `K` that `key_chain`
    /// holds.  Every slot is tried; the first that authenticates gives the
    /// payload key.
    pub fn decrypt(&self, key_chain: &KeyChain) -> (r: Result<Vec<u8>, SecretBoxError>)
        requires
            key_chain.wf(),
        ensures
            self@.len() == 0 ==> r == Err::<Vec<u8>, SecretBoxError>(SecretBoxError::Truncated),
            self@.len() >= 1 && count_of(self@) == 0 ==> r == Err::<Vec<u8>, SecretBoxError>(
                SecretBoxError::NoRecipients,
            ),
            self@.len() >= 1 && count_of(self@) > 0 && self@.len() < HEADER_LEN ==> r == Err::<
                Vec<u8>,
                SecretBoxError,
            >(SecretBoxError::Truncated),
            self@.len() >= HEADER_LEN && count_of(self@) > 0 && key_chain.seed_for(K::tag()) is None
                ==> r == Err::<Vec<u8>, SecretBoxError>(SecretBoxError::NoDecryptionKey),
            !complete(self@) ==> r is Err,
            r == Err::<Vec<u8>, SecretBoxError>(SecretBoxError::InvalidKey) ==> self@.len() >= HEADER_LEN
                && !is_public_key(K::curve_of(), ephemeral_of(self@)),
            self@.len() >= HEADER_LEN && count_of(self@) > 0 && !complete(self@) ==> (r == Err::<
                Vec<u8>,
                SecretBoxError,
            >(SecretBoxError::Truncated) || r == Err::<Vec<u8>, SecretBoxError>(SecretBoxError::InvalidKey)
                || r == Err::<Vec<u8>, SecretBoxError>(SecretBoxError::NoDecryptionKey)),
            self@.len() >= HEADER_LEN && count_of(self@) > 0 && !complete(self@) && key_chain.seed_for(K::tag()) is Some
                && is_public_key(K::curve_of(), ephemeral_of(self@)) ==> r == Err::<Vec<u8>, SecretBoxError>(
                SecretBoxError::Truncated,
            ),
            key_chain.seed_for(K::tag()) is Some && (forall|j: int|
                0 <= j < count_of(self@) ==> !#[trigger] slot_opens(
                    self@,
                    shared_of(K::curve_of(), key_chain.seed_for(K::tag())->Some_0, ephemeral_of(self@)),
                    j,
                )) ==> r is Err,
            complete(self@) && key_chain.seed_for(K::tag()) is Some && is_public_key(K::curve_of(), ephemeral_of(self@))
                && (forall|j: int|
                0 <= j < count_of(self@) ==> !#[trigger] slot_opens(
                    self@,
                    shared_of(K::curve_of(), key_chain.seed_for(K::tag())->Some_0, ephemeral_of(self@)),
                    j,
                )) ==> r == Err::<Vec<u8>, SecretBoxError>(SecretBoxError::NoDecryptionKey),
            r matches Ok(p) ==> key_chain.seed_for(K::tag()) is Some && exists|j: int|
                {
                    let shared = shared_of(K::curve_of(), key_chain.seed_for(K::tag())->Some_0, ephemeral_of(self@));
                    &&& first_open(self@, shared, j)
                    &&& p@ == strobe_dec(
                        payload_transcript(strobe_dec(wrap_transcript(shared), #[trigger] wrapped_at(self@, j))),
                        payload_of(self@),
                    )
                },
            forall|o: Seq<u8>, key: Seq<u8>, payload: Seq<u8>, j: int|
                {
                    &&& complete(self@)
                    &&& o.len() == 32
                    &&& ephemeral_of(self@) == public_of(K::curve_of(), o)
                    &&& key_chain.seed_for(K::tag()) is Some
                    &&& first_open(
                        self@,
                        shared_of(K::curve_of(), o, public_of(K::curve_of(), key_chain.seed_for(K::tag())->Some_0)),
                        j,
                    )
                    &&& #[trigger] slot_seals(
                        self@,
                        shared_of(K::curve_of(), o, public_of(K::curve_of(), key_chain.seed_for(K::tag())->Some_0)),
                        j,
                        key,
                    )
                    &&& #[trigger] payload_seals(self@, key, payload)
                } ==> (r matches Ok(p) && p@ == payload),
    {
        let b = self.secret.as_slice();
        if b.len() == 0 {
            return Err(SecretBoxError::Truncated);
        }
        let n = b[0] as usize;
        if n == 0 {
            return Err(SecretBoxError::NoRecipients);
        }
        if b.len() < HEADER_LEN {
            return Err(SecretBoxError::Truncated);
        }
        let eph = slice_to_vec_range(b, 1, HEADER_LEN);
        assert(eph@.len() == 32);
        let pair = match key_chain.get::<K>() {
            Some(p) => p,
            None => return Err(SecretBoxError::NoDecryptionKey),
        };
        let eph_public = match TypedPublic::<K>::new(eph.as_slice()) {
            Ok(p) => p,
            Err(_) => return Err(SecretBoxError::Truncated),
        };
        let shared = match pair.diffie_hellman(&eph_public) {
            Ok(s) => s,
            Err(_) => {
                assert(eph_public@ == ephemeral_of(b@));
                assert(!is_public_key(K::curve_of(), ephemeral_of(b@)));
                return Err(SecretBoxError::InvalidKey);
            },
        };
        let ghost sh = shared@;
        let ghost bb = b@;
        assert(sh == shared_of(K::curve_of(), key_chain.seed_for(K::tag())->Some_0, ephemeral_of(bb)));
        let mut found: Option<Vec<u8>> = None;
        let ghost mut fj: int = 0;
        let mut pos: usize = HEADER_LEN;
        let mut i: usize = 0;
        while i < n
            invariant
                bb == b@,
                bb == self@,
                sh == shared@,
                key_chain.seed_for(K::tag()) is Some,
                shared.wf(),
                n == count_of(bb),
                n > 0,
                i <= n,
                bb.len() >= HEADER_LEN,
                pos == slot_start(i as int),
                pos <= bb.len(),
                found is None ==> forall|k: int| 0 <= k < i ==> !#[trigger] slot_opens(bb, sh, k),
                found matches Some(kk) ==> {
                    &&& 0 <= fj < i
                    &&& slot_opens(bb, sh, fj)
                    &&& forall|k: int| 0 <= k < fj ==> !#[trigger] slot_opens(bb, sh, k)
                    &&& kk@ == strobe_dec(wrap_transcript(sh), wrapped_at(bb, fj))
                    &&& forall|p: Seq<u8>|
                        wrapped_at(bb, fj) == strobe_enc(wrap_transcript(sh), p) ==> kk@ == p
                },
            decreases n - i,
        {
            proof {
                lemma_slot_bounds(i as int, i as int + 1);
            }
            if b.len() - pos < SLOT_LEN {
                return Err(SecretBoxError::Truncated);
            }
            if found.is_none() {
                let mut wrapped = slice_to_vec_range(b, pos, pos + X25519_LEN);
                let tag = slice_to_vec_range(b, pos + X25519_LEN, pos + SLOT_LEN);
                let label = wrap_label_bytes();
                let mut s = Duplex::new(label.as_slice());
                s.ad(shared.as_slice());
                assert(s.transcript() =~= wrap_transcript(sh));
                s.recv_enc(&mut wrapped);
                if s.recv_mac::<16>(tag.as_slice()) {
                    found = Some(wrapped);
                    proof {
                        fj = i as int;
                    }
                }
            }
            pos += SLOT_LEN;
            i += 1;
        }
        let key = match found {
            Some(k) => k,
            None => return Err(SecretBoxError::NoDecryptionKey),
        };
        let label = payload_label_bytes();
        let mut s = Duplex::new(label.as_slice());
        s.ad(key.as_slice());
        assert(s.transcript() =~= payload_transcript(key@));
        let mut body = slice_to_vec_range(b, pos, b.len());
        s.recv_enc(&mut body);
        proof {
            assert(first_open(bb, sh, fj));
            assert forall|o: Seq<u8>, k2: Seq<u8>, payload: Seq<u8>, j: int|
                {
                    &&& complete(self@)
                    &&& o.len() == 32
                    &&& ephemeral_of(self@) == public_of(K::curve_of(), o)
                    &&& key_chain.seed_for(K::tag()) is Some
                    &&& first_open(
                        self@,
                        shared_of(K::curve_of(), o, public_of(K::curve_of(), key_chain.seed_for(K::tag())->Some_0)),
                        j,
                    )
                    &&& #[trigger] slot_seals(
                        self@,
                        shared_of(K::curve_of(), o, public_of(K::curve_of(), key_chain.seed_for(K::tag())->Some_0)),
                        j,
                        k2,
                    )
                    &&& #[trigger] payload_seals(self@, k2, payload)
                } implies body@ == payload by {
                assert(eph_public@ == public_of(K::curve_of(), o));
                assert(sh == shared_of(K::curve_of(), o, pair.public_bytes()));
                if fj < j {
                    assert(slot_opens(bb, sh, fj));
                } else if j < fj {
                    assert(slot_opens(bb, sh, j));
                }
                assert(fj == j);
                assert(key@ == k2);
            }
        }
        Ok(body)
    }
}

} // verus!
