//! A transcript-tracking handle on a STROBE duplex object.
//!
//! Every operation applied to the underlying strobe is recorded, as a frame,
//! in a ghost transcript.  What the strobe outputs is named as a function of
//! the transcript so far: two strobes that went through the same frames are
//! in the same state.  A strobe takes on a direction (sending or receiving)
//! at its first directional operation and the two directions mirror each
//! other, so a handle is used in one direction only.  A failed MAC check
//! leaves the strobe in a state no transcript describes; the handle is then
//! poisoned and takes no further operation.
use strobe_rs::{SecParam, Strobe};
use vstd::prelude::*;

verus! {

#[verifier::external_type_specification]
#[verifier::external_body]
pub struct ExStrobe(Strobe);

/// The frame recorded for the protocol label of a new strobe.
pub open spec fn label_frame(label: Seq<u8>) -> Seq<u8> {
    seq![0u8] + label
}

/// The frame recorded for absorbed associated data.
pub open spec fn ad_frame(data: Seq<u8>) -> Seq<u8> {
    seq![1u8] + data
}

/// The frame recorded for an encryption step; it holds the cipher text,
/// which is what both directions absorb.
pub open spec fn enc_frame(cipher: Seq<u8>) -> Seq<u8> {
    seq![2u8] + cipher
}

/// The frame recorded for a MAC of `n` bytes, sent or checked.
pub open spec fn mac_frame(n: nat) -> Seq<u8> {
    seq![3u8] + Seq::new(n, |i: int| 0u8)
}

/// The frame recorded for `n` bytes of pseudo-random output.
pub open spec fn prf_frame(n: nat) -> Seq<u8> {
    seq![4u8] + Seq::new(n, |i: int| 0u8)
}

/// What `send_enc` turns `plain` into after the transcript `t`.
pub uninterp spec fn strobe_enc(t: Seq<Seq<u8>>, plain: Seq<u8>) -> Seq<u8>;

/// What `recv_enc` turns `cipher` into after the transcript `t`.
pub uninterp spec fn strobe_dec(t: Seq<Seq<u8>>, cipher: Seq<u8>) -> Seq<u8>;

/// The `n`-byte MAC that `send_mac` produces after the transcript `t`.
pub uninterp spec fn strobe_mac(t: Seq<Seq<u8>>, n: nat) -> Seq<u8>;

/// The `n` bytes that `prf` produces after the transcript `t`.
pub uninterp spec fn strobe_prf(t: Seq<Seq<u8>>, n: nat) -> Seq<u8>;

pub const FRESH: u8 = 0;
pub const SENDING: u8 = 1;
pub const RECEIVING: u8 = 2;
/// After a MAC check failed: the state absorbed the received bytes, which no
/// transcript describes, so the handle takes no further operation.
pub const POISONED: u8 = 3;

/// A strobe-128 object together with the frames it has gone through.
pub struct Duplex {
    st: Strobe,
    log: Ghost<Seq<Seq<u8>>>,
    dir: Ghost<u8>,
}

/// Relies on `Strobe::new`: a strobe-128 object that has absorbed `label`
/// as its protocol name.
#[verifier::external_body]
fn strobe_new(label: &[u8]) -> Strobe {
    Strobe::new(label, SecParam::B128)
}

impl Duplex {
    /// The frames applied so far, starting with the label.
    pub closed spec fn transcript(&self) -> Seq<Seq<u8>> {
        self.log@
    }

    /// `FRESH` until the first directional operation, then its direction.
    pub closed spec fn direction(&self) -> u8 {
        self.dir@
    }

    /// Starts a transcript under the protocol name `label`.
    pub fn new(label: &[u8]) -> (r: Duplex)
        ensures
            r.transcript() == seq![label_frame(label@)],
            r.direction() == FRESH,
    {
        let log: Ghost<Seq<Seq<u8>>> = Ghost(Seq::empty().push(label_frame(label@)));
        let dir: Ghost<u8> = Ghost(FRESH);
        Duplex { st: strobe_new(label), log, dir }
    }

    /// Relies on `Strobe::ad`: absorbs `data` as associated data.
    #[verifier::external_body]
    pub fn ad(&mut self, data: &[u8])
        requires
            old(self).direction() != POISONED,
        ensures
            final(self).transcript() == old(self).transcript().push(ad_frame(data@)),
            final(self).direction() == old(self).direction(),
    {
        self.st.ad(data, false)
    }

    /// Relies on `Strobe::send_enc`: encrypts `data` in place.
    #[verifier::external_body]
    pub fn send_enc(&mut self, data: &mut Vec<u8>)
        requires
            old(self).direction() != RECEIVING,
            old(self).direction() != POISONED,
        ensures
            final(data)@ == strobe_enc(old(self).transcript(), old(data)@),
            final(data)@.len() == old(data)@.len(),
            final(self).transcript() == old(self).transcript().push(enc_frame(final(data)@)),
            final(self).direction() == SENDING,
    {
        self.st.send_enc(data.as_mut_slice(), false)
    }

    /// Relies on `Strobe::recv_enc`: decrypts `data` in place, undoing what
    /// `send_enc` did after the same transcript.
    #[verifier::external_body]
    pub fn recv_enc(&mut self, data: &mut Vec<u8>)
        requires
            old(self).direction() != SENDING,
            old(self).direction() != POISONED,
        ensures
            final(data)@ == strobe_dec(old(self).transcript(), old(data)@),
            final(data)@.len() == old(data)@.len(),
            forall|p: Seq<u8>|
                old(data)@ == strobe_enc(old(self).transcript(), p) ==> final(data)@ == p,
            final(self).transcript() == old(self).transcript().push(enc_frame(old(data)@)),
            final(self).direction() == RECEIVING,
    {
        self.st.recv_enc(data.as_mut_slice(), false)
    }

    /// Relies on `Strobe::send_mac`: produces an `n`-byte MAC of the transcript.
    #[verifier::external_body]
    pub fn send_mac(&mut self, n: usize) -> (r: Vec<u8>)
        requires
            old(self).direction() != RECEIVING,
            old(self).direction() != POISONED,
        ensures
            r@ == strobe_mac(old(self).transcript(), n as nat),
            r@.len() == n,
            final(self).transcript() == old(self).transcript().push(mac_frame(n as nat)),
            final(self).direction() == SENDING,
    {
        let mut mac = vec![0u8; n];
        self.st.send_mac(mac.as_mut_slice(), false);
        mac
    }

    /// Relies on `Strobe::recv_mac`: accepts `tag` exactly when it is the MAC
    /// that `send_mac` produced after the same transcript.
    #[verifier::external_body]
    pub fn recv_mac<const T: usize>(&mut self, tag: &[u8]) -> (r: bool)
        requires
            old(self).direction() != SENDING,
            old(self).direction() != POISONED,
            tag@.len() == T,
        ensures
            r == (tag@ == strobe_mac(old(self).transcript(), T as nat)),
            T == 0 ==> r,
            r ==> final(self).transcript() == old(self).transcript().push(mac_frame(T as nat)),
            r ==> final(self).direction() == RECEIVING,
            !r ==> final(self).direction() == POISONED,
    {
        let fixed: &[u8; T] = tag.try_into().unwrap();
        self.st.recv_mac(fixed).is_ok()
    }

    /// Relies on `Strobe::prf`: `n` bytes of output keyed by the transcript.
    #[verifier::external_body]
    pub fn prf(&mut self, n: usize) -> (r: Vec<u8>)
        requires
            old(self).direction() != POISONED,
        ensures
            r@ == strobe_prf(old(self).transcript(), n as nat),
            r@.len() == n,
            final(self).transcript() == old(self).transcript().push(prf_frame(n as nat)),
            final(self).direction() == old(self).direction(),
    {
        let mut out = vec![0u8; n];
        self.st.prf(out.as_mut_slice(), false);
        out
    }
}

} // verus!
