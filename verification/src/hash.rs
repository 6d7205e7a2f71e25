//! Hash values and domain-tagged hashing.
//!
//! Every authenticated structure in this crate (the transaction accumulator,
//! the per-version event accumulators and the sparse Merkle state tree) is
//! built from 32-byte SHA3-256 digests.  The digest itself comes from the
//! `tiny_keccak` crate behind one trusted wrapper; everything layered on top
//! of it is verified.  Domain separation is by a one-byte tag hashed in front
//! of the payload, one tag per kind of node or record.

use vstd::prelude::*;

verus! {

/// Number of bytes in a hash value.
pub const HASH_LENGTH: usize = 32;

/// Domain tag for an internal node of the transaction accumulator.
pub const TAG_ACCUMULATOR_INTERNAL: u8 = 1;
/// Domain tag for an internal node of a per-version event accumulator.
pub const TAG_EVENT_ACCUMULATOR_INTERNAL: u8 = 2;
/// Domain tag for an internal node of the sparse Merkle state tree.
pub const TAG_SPARSE_MERKLE_INTERNAL: u8 = 3;
/// Domain tag for a leaf of the sparse Merkle state tree.
pub const TAG_SPARSE_MERKLE_LEAF: u8 = 4;
/// Domain tag for a serialised transaction.
pub const TAG_TRANSACTION: u8 = 5;
/// Domain tag for a serialised transaction info record.
pub const TAG_TRANSACTION_INFO: u8 = 6;
/// Domain tag for a serialised contract event.
pub const TAG_EVENT: u8 = 7;
/// Domain tag for a resource key.
pub const TAG_RESOURCE_KEY: u8 = 8;
/// Domain tag for a resource value.
pub const TAG_RESOURCE_VALUE: u8 = 9;
/// Tag byte from which the accumulator placeholder hash is built.
pub const TAG_ACCUMULATOR_PLACEHOLDER: u8 = 10;
/// Tag byte from which the sparse Merkle placeholder hash is built.
pub const TAG_SPARSE_MERKLE_PLACEHOLDER: u8 = 11;

/// A 32-byte cryptographic hash value.
#[derive(Debug)]
pub struct HashValue {
    pub bytes: Vec<u8>,
}

/// Copies a byte vector.
pub fn clone_bytes(v: &Vec<u8>) -> (r: Vec<u8>)
    ensures
        r@ == v@,
{
    let mut r: Vec<u8> = Vec::new();
    r.extend_from_slice(v.as_slice());
    proof {
        assert(r@ =~= v@);
    }
    r
}

impl Clone for HashValue {
    fn clone(&self) -> (r: Self)
        ensures
            r@ == self@,
    {
        HashValue { bytes: clone_bytes(&self.bytes) }
    }
}

impl View for HashValue {
    type V = Seq<u8>;

    open spec fn view(&self) -> Seq<u8> {
        self.bytes@
    }
}

impl HashValue {
    /// A hash value is well formed when it holds exactly 32 bytes.
    pub open spec fn wf(self) -> bool {
        self@.len() == HASH_LENGTH
    }

    /// Byte-wise equality of two hash values.
    pub fn equals(&self, other: &HashValue) -> (r: bool)
        ensures
            r <==> self@ == other@,
    {
        let r = self.bytes == other.bytes;
        proof {
            if self@ =~= other@ {
                assert(self@ == other@);
            }
        }
        r
    }
}

/// The SHA3-256 digest of a byte sequence, named but never written out:
/// the digest is computed only by the outside crate.
pub uninterp spec fn sha3_256_of(bytes: Seq<u8>) -> Seq<u8>;

/// Relies on `tiny_keccak::Sha3::v256` with `Hasher::update` and
/// `Hasher::finalize`: a 32-byte digest determined by the input bytes alone.
#[verifier::external_body]
fn sha3_256_digest(input: &[u8]) -> (r: Vec<u8>)
    ensures
        r@ == sha3_256_of(input@),
        r@.len() == HASH_LENGTH,
{
    let mut sha3 = tiny_keccak::Sha3::v256();
    tiny_keccak::Hasher::update(&mut sha3, input);
    let mut out = [0u8; 32];
    tiny_keccak::Hasher::finalize(sha3, &mut out);
    out.to_vec()
}

/// The domain-separated hash of `data` under the one-byte tag `tag`.
pub open spec fn tagged_hash_of(tag: u8, data: Seq<u8>) -> Seq<u8> {
    sha3_256_of(seq![tag] + data)
}

/// Computes the domain-separated hash of `data` under `tag`.
pub fn tagged_hash(tag: u8, data: &Vec<u8>) -> (r: HashValue)
    ensures
        r@ == tagged_hash_of(tag, data@),
        r.wf(),
{
    let mut buf: Vec<u8> = Vec::new();
    buf.push(tag);
    buf.extend_from_slice(data.as_slice());
    proof {
        assert(buf@ =~= seq![tag] + data@);
    }
    let bytes = sha3_256_digest(buf.as_slice());
    HashValue { bytes }
}

/// A fixed 32-byte value derived from a tag byte, used where an empty
/// subtree stands in for a child: 32 copies of the tag.
pub open spec fn placeholder_of(tag: u8) -> Seq<u8> {
    Seq::new(HASH_LENGTH as nat, |i: int| tag)
}

/// Builds the placeholder hash for `tag`.
pub fn placeholder(tag: u8) -> (r: HashValue)
    ensures
        r@ == placeholder_of(tag),
        r.wf(),
{
    let mut bytes: Vec<u8> = Vec::new();
    let mut i: usize = 0;
    while i < HASH_LENGTH
        invariant
            i <= HASH_LENGTH,
            bytes@ =~= placeholder_of(tag).take(i as int),
        decreases HASH_LENGTH - i,
    {
        bytes.push(tag);
        i = i + 1;
    }
    proof {
        assert(bytes@ =~= placeholder_of(tag));
    }
    HashValue { bytes }
}

} // verus!
