//! Identifiers used when envelopes and keys are stored in content-addressed
//! blocks: codec codes, tree hashes, field prefixes, database keys and
//! fixed-size content identifiers.
use crate::error::KeySizeMissmatch;
use vstd::prelude::*;
use vstd::string::StringExecFns;

verus! {

/// The multicodec code of DAG-CBOR.
pub const DAG_CBOR: u64 = 0x71;
/// The multicodec code of SCALE-encoded trees.
pub const SCALE_TREE: u64 = 0x01;
/// Bytes of a content identifier.
pub const CID_LENGTH: usize = 38;

/// A code that names no codec known here.
#[derive(Debug, Clone, Copy, PartialEq, Eq, Structural)]
pub struct UnsupportedCodec(pub u64);

/// The codec of SCALE-encoded trees.
#[derive(Debug, Clone, Copy, PartialEq, Eq, Structural)]
pub struct TreeCodec;

impl TreeCodec {
    /// The multicodec code of the codec.
    pub fn code(&self) -> (r: u64)
        ensures
            r == SCALE_TREE,
    {
        SCALE_TREE
    }
}

/// The codecs a block may be written in.
#[derive(Debug, Clone, Copy, PartialEq, Eq, Structural)]
pub enum Multicodec {
    DagCbor,
    Tree,
}

/// The multicodec code of a codec.
pub open spec fn code_of(c: Multicodec) -> u64 {
    match c {
        Multicodec::DagCbor => DAG_CBOR,
        Multicodec::Tree => SCALE_TREE,
    }
}

impl Multicodec {
    /// The multicodec code of the codec.
    pub fn code(&self) -> (r: u64)
        ensures
            r == code_of(*self),
    {
        match self {
            Multicodec::DagCbor => DAG_CBOR,
            Multicodec::Tree => SCALE_TREE,
        }
    }

    /// The codec a multicodec code names.
    pub fn from_code(code: u64) -> (r: Result<Multicodec, UnsupportedCodec>)
        ensures
            r is Ok <==> (code == DAG_CBOR || code == SCALE_TREE),
            r matches Ok(c) ==> code_of(c) == code,
            r matches Err(e) ==> e.0 == code,
    {
        if code == DAG_CBOR {
            Ok(Multicodec::DagCbor)
        } else if code == SCALE_TREE {
            Ok(Multicodec::Tree)
        } else {
            Err(UnsupportedCodec(code))
        }
    }

    /// The codec of SCALE-encoded trees.
    pub fn from_tree_codec(_c: TreeCodec) -> (r: Multicodec)
        ensures
            r == Multicodec::Tree,
    {
        Multicodec::Tree
    }
}

/// Every codec is named by its own code.
pub proof fn lemma_codec_code_round_trip(c: Multicodec, d: Multicodec)
    ensures
        code_of(c) == code_of(d) ==> c == d,
        code_of(c) == DAG_CBOR || code_of(c) == SCALE_TREE,
{
}

/// The root hash of a tree, as the digest `D`.
#[derive(Debug, Clone, Copy, PartialEq, Eq, Structural, Default, Hash)]
pub struct TreeHash<D>(pub D);

/// Why a tree block could not be built, read or checked.
#[derive(Debug, Clone, Copy, PartialEq, Eq, Structural)]
pub enum TrieError {
    InsertionFailure,
    MissingKey,
    RootMissmatch,
    InvalidProof,
}

/// The keys of the fields of a value stored under `prefix`: the prefix
/// followed by each field name, in order.
pub struct PrefixIter<'a> {
    prefix: &'a str,
    fields: &'a [&'a str],
    next_field: usize,
}

impl<'a> PrefixIter<'a> {
    pub closed spec fn prefix_view(&self) -> Seq<char> {
        self.prefix@
    }

    /// The field names not handed out yet.
    pub closed spec fn remaining(&self) -> Seq<Seq<char>> {
        self.fields@.subrange(self.next_field as int, self.fields@.len() as int).map_values(|f: &str| f@)
    }

    pub closed spec fn wf(&self) -> bool {
        self.next_field <= self.fields@.len()
    }

    pub fn new(prefix: &'a str, fields: &'a [&'a str]) -> (r: Self)
        ensures
            r.wf(),
            r.prefix_view() == prefix@,
            r.remaining() == fields@.map_values(|f: &str| f@),
    {
        let r = PrefixIter { prefix, fields, next_field: 0 };
        assert(r.remaining() =~= fields@.map_values(|f: &str| f@));
        r
    }

    /// The key of the next field, if any is left.
    pub fn next(&mut self) -> (r: Option<String>)
        requires
            old(self).wf(),
        ensures
            final(self).wf(),
            final(self).prefix_view() == old(self).prefix_view(),
            old(self).remaining().len() == 0 ==> r is None && final(self).remaining().len() == 0,
            old(self).remaining().len() > 0 ==> (r matches Some(s) && s@ == old(self).prefix_view()
                + old(self).remaining()[0] && final(self).remaining() == old(self).remaining().drop_first()),
    {
        if self.next_field < self.fields.len() {
            let field = self.fields[self.next_field];
            let mut s = String::from_str(self.prefix);
            s.append(field);
            proof {
                assert(old(self).remaining()[0] == field@);
            }
            self.next_field = self.next_field + 1;
            assert(self.remaining() =~= old(self).remaining().drop_first());
            Some(s)
        } else {
            None
        }
    }
}

/// The big-endian bytes of a 32-bit integer.
pub open spec fn be_bytes(n: u32) -> Seq<u8> {
    seq![(n / 16777216) as u8, ((n / 65536) % 256) as u8, ((n / 256) % 256) as u8, (n % 256) as u8]
}

/// Keys of the database that stores a light client's chain data.
pub struct Key;

impl Key {
    /// The key of `key` in column `col`: a zero byte, the column in big
    /// endian, then the key.
    pub fn key(col: u32, key: &[u8]) -> (r: Vec<u8>)
        ensures
            r@ == seq![0u8] + be_bytes(col) + key@,
    {
        let mut buf: Vec<u8> = Vec::new();
        buf.push(0u8);
        buf.push((col / 16777216) as u8);
        buf.push(((col / 65536) % 256) as u8);
        buf.push(((col / 256) % 256) as u8);
        buf.push((col % 256) as u8);
        buf.extend_from_slice(key);
        assert(buf@ =~= seq![0u8] + be_bytes(col) + key@);
        buf
    }

    /// The key of a preimage stored by its hash: a one byte, then the hash.
    pub fn hash_key(hash: &[u8]) -> (r: Vec<u8>)
        ensures
            r@ == seq![1u8] + hash@,
    {
        let mut buf: Vec<u8> = Vec::new();
        buf.push(1u8);
        buf.extend_from_slice(hash);
        assert(buf@ =~= seq![1u8] + hash@);
        buf
    }
}

/// Keys of different columns, or of a column and of a hash, never collide.
pub proof fn lemma_keys_distinct(c1: u32, k1: Seq<u8>, c2: u32, k2: Seq<u8>, h: Seq<u8>)
    ensures
        (seq![0u8] + be_bytes(c1) + k1) != (seq![1u8] + h),
        c1 != c2 ==> (seq![0u8] + be_bytes(c1) + k1) != (seq![0u8] + be_bytes(c2) + k2),
{
    assert((seq![0u8] + be_bytes(c1) + k1)[0] == 0u8);
    assert((seq![1u8] + h)[0] == 1u8);
    if c1 != c2 {
        let a = seq![0u8] + be_bytes(c1) + k1;
        let b = seq![0u8] + be_bytes(c2) + k2;
        assert(a.subrange(1, 5) == be_bytes(c1));
        assert(b.subrange(1, 5) == be_bytes(c2));
        assert(be_bytes(c1) != be_bytes(c2)) by {
            if be_bytes(c1) == be_bytes(c2) {
                assert(be_bytes(c1)[0] == be_bytes(c2)[0]);
                assert(be_bytes(c1)[1] == be_bytes(c2)[1]);
                assert(be_bytes(c1)[2] == be_bytes(c2)[2]);
                assert(be_bytes(c1)[3] == be_bytes(c2)[3]);
            }
        }
    }
}

/// A content identifier in its fixed-size binary form.
pub struct CidBytes {
    bytes: Vec<u8>,
}

impl View for CidBytes {
    type V = Seq<u8>;

    closed spec fn view(&self) -> Seq<u8> {
        self.bytes@
    }
}

impl CidBytes {
    /// The identifier made of `bytes`, which must be 38 bytes long.
    pub fn from_bytes(bytes: &[u8]) -> (r: Result<CidBytes, KeySizeMissmatch>)
        ensures
            r is Ok <==> bytes@.len() == CID_LENGTH,
            r matches Ok(c) ==> c@ == bytes@,
    {
        if bytes.len() != CID_LENGTH {
            return Err(KeySizeMissmatch);
        }
        Ok(CidBytes { bytes: vstd::slice::slice_to_vec(bytes) })
    }

    /// The identifier of 38 zero bytes.
    pub fn zeroed() -> (r: CidBytes)
        ensures
            r@ == Seq::new(CID_LENGTH as nat, |i: int| 0u8),
    {
        let mut bytes: Vec<u8> = Vec::new();
        let mut i: usize = 0;
        while i < CID_LENGTH
            invariant
                i <= CID_LENGTH,
                bytes@ == Seq::new(i as nat, |j: int| 0u8),
            decreases CID_LENGTH - i,
        {
            bytes.push(0u8);
            i += 1;
            assert(bytes@ =~= Seq::new(i as nat, |j: int| 0u8));
        }
        CidBytes { bytes }
    }

    /// The bytes of the identifier.
    pub fn as_slice(&self) -> (r: &[u8])
        ensures
            r@ == self@,
    {
        self.bytes.as_slice()
    }
}

impl Default for CidBytes {
    fn default() -> (r: CidBytes)
        ensures
            r@ == Seq::new(CID_LENGTH as nat, |i: int| 0u8),
    {
        CidBytes::zeroed()
    }
}

impl PartialEq for CidBytes {
    fn eq(&self, other: &CidBytes) -> (r: bool) {
        crate::array::ct_eq(self.bytes.as_slice(), other.bytes.as_slice())
    }
}

impl vstd::std_specs::cmp::PartialEqSpecImpl for CidBytes {
    open spec fn obeys_eq_spec() -> bool {
        true
    }

    open spec fn eq_spec(&self, other: &CidBytes) -> bool {
        self@ == other@
    }
}

impl Eq for CidBytes {
}

} // verus!
