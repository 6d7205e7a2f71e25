//! The sparse Merkle tree backing the authenticated state store.
//!
//! Keys are 32-byte key hashes placed by their bits, most significant bit of
//! the first byte first; a leaf sits as high as the distinguishing bit of
//! its key allows.  Point reads return the value together with a
//! `SparseMerkleProof` — an inclusion proof for a present key, an exclusion
//! proof (an empty subtree or a different leaf on the same path) for an
//! absent one — verifiable against the tree's root hash.

use vstd::prelude::*;
use crate::hash::{
    HashValue, placeholder, placeholder_of, tagged_hash, tagged_hash_of,
    TAG_SPARSE_MERKLE_INTERNAL, TAG_SPARSE_MERKLE_LEAF, TAG_SPARSE_MERKLE_PLACEHOLDER,
};
use crate::accumulator::{views_of, internal_of, internal_hash};
use crate::state_store_key::{ResourceValue, resource_value_hash_of};

verus! {

/// Bit `i` of a key hash, most significant bit of byte 0 first.
pub open spec fn bit_of(key: Seq<u8>, i: int) -> bool {
    (key[i / 8] >> ((7 - (i % 8)) as u8)) & 1u8 == 1u8
}

/// Whether the first `path.len()` bits of `key` follow `path`.
pub open spec fn matches_path(key: Seq<u8>, path: Seq<bool>) -> bool {
    forall|i: int| 0 <= i < path.len() ==> bit_of(key, i) == path[i]
}

/// Reads bit `i` of a key hash.
pub fn bit_at(key: &HashValue, i: usize) -> (r: bool)
    requires
        key.wf(),
        i < 256,
    ensures
        r == bit_of(key@, i as int),
{
    let byte = key.bytes[i / 8];
    let shift: u8 = (7 - (i % 8)) as u8;
    (byte >> shift) & 1u8 == 1u8
}

/// The hash of a sparse Merkle leaf holding `key` and a value whose hash is
/// `value_hash`.
pub open spec fn leaf_hash_of(key: Seq<u8>, value_hash: Seq<u8>) -> Seq<u8> {
    tagged_hash_of(TAG_SPARSE_MERKLE_LEAF, key + value_hash)
}

/// Computes the hash of a sparse Merkle leaf.
pub fn leaf_hash(key: &HashValue, value_hash: &HashValue) -> (r: HashValue)
    ensures
        r@ == leaf_hash_of(key@, value_hash@),
        r.wf(),
{
    let mut buf: Vec<u8> = Vec::new();
    buf.extend_from_slice(key.bytes.as_slice());
    buf.extend_from_slice(value_hash.bytes.as_slice());
    proof {
        assert(buf@ =~= key@ + value_hash@);
    }
    tagged_hash(TAG_SPARSE_MERKLE_LEAF, &buf)
}

/// A node of the sparse Merkle tree.
#[derive(Debug)]
pub enum SmtNode {
    Empty,
    Leaf { key_hash: HashValue, value: ResourceValue },
    Internal { left: Box<SmtNode>, right: Box<SmtNode> },
}

impl SmtNode {
    /// Structural well-formedness of the subtree rooted at a node sitting
    /// under the bit path `path`: every leaf key follows the path, and the
    /// tree never grows past the key width.
    pub open spec fn wf(self, path: Seq<bool>) -> bool
        decreases self,
    {
        match self {
            SmtNode::Empty => true,
            SmtNode::Leaf { key_hash, value } => {
                &&& key_hash@.len() == 32
                &&& path.len() <= 256
                &&& matches_path(key_hash@, path)
            },
            SmtNode::Internal { left, right } => {
                &&& path.len() < 256
                &&& left.wf(path.push(false))
                &&& right.wf(path.push(true))
            },
        }
    }

    /// The key-hash-to-value-bytes map a subtree represents.
    pub open spec fn as_map(self) -> Map<Seq<u8>, Seq<u8>>
        decreases self,
    {
        match self {
            SmtNode::Empty => Map::empty(),
            SmtNode::Leaf { key_hash, value } => Map::empty().insert(key_hash@, value@),
            SmtNode::Internal { left, right } => left.as_map().union_prefer_right(right.as_map()),
        }
    }

    /// The Merkle hash of a subtree.
    pub open spec fn hash_of(self) -> Seq<u8>
        decreases self,
    {
        match self {
            SmtNode::Empty => placeholder_of(TAG_SPARSE_MERKLE_PLACEHOLDER),
            SmtNode::Leaf { key_hash, value } => leaf_hash_of(
                key_hash@,
                resource_value_hash_of(value@),
            ),
            SmtNode::Internal { left, right } => internal_of(
                TAG_SPARSE_MERKLE_INTERNAL,
                left.hash_of(),
                right.hash_of(),
            ),
        }
    }

    /// Computes the Merkle hash of a subtree.
    pub fn compute_hash(&self) -> (r: HashValue)
        ensures
            r@ == self.hash_of(),
            r.wf(),
        decreases *self,
    {
        match self {
            SmtNode::Empty => placeholder(TAG_SPARSE_MERKLE_PLACEHOLDER),
            SmtNode::Leaf { key_hash, value } => {
                let vh = value.hash();
                leaf_hash(key_hash, &vh)
            },
            SmtNode::Internal { left, right } => {
                let lh = left.compute_hash();
                let rh = right.compute_hash();
                internal_hash(TAG_SPARSE_MERKLE_INTERNAL, &lh, &rh)
            },
        }
    }
}

/// Every key stored under a well-formed subtree is 32 bytes long and
/// follows the subtree's path.
pub proof fn lemma_smt_keys_match(node: SmtNode, path: Seq<bool>)
    requires
        node.wf(path),
    ensures
        forall|k: Seq<u8>| #[trigger] node.as_map().dom().contains(k)
            ==> k.len() == 32 && matches_path(k, path),
    decreases node,
{
    match node {
        SmtNode::Empty => {},
        SmtNode::Leaf { key_hash, value } => {},
        SmtNode::Internal { left, right } => {
            lemma_smt_keys_match(*left, path.push(false));
            lemma_smt_keys_match(*right, path.push(true));
            assert forall|k: Seq<u8>| #[trigger] node.as_map().dom().contains(k)
                implies k.len() == 32 && matches_path(k, path) by {
                if left.as_map().dom().contains(k) {
                    assert(matches_path(k, path.push(false)));
                    assert(forall|i: int| 0 <= i < path.len() ==> path.push(false)[i] == path[i]);
                } else {
                    assert(right.as_map().dom().contains(k));
                    assert(matches_path(k, path.push(true)));
                    assert(forall|i: int| 0 <= i < path.len() ==> path.push(true)[i] == path[i]);
                }
            }
        },
    }
}

/// The domain of the map a well-formed subtree represents is finite.
pub proof fn lemma_smt_map_finite(node: SmtNode)
    ensures
        node.as_map().dom().finite(),
    decreases node,
{
    match node {
        SmtNode::Empty => {},
        SmtNode::Leaf { key_hash, value } => {},
        SmtNode::Internal { left, right } => {
            lemma_smt_map_finite(*left);
            lemma_smt_map_finite(*right);
            assert(node.as_map().dom() =~= left.as_map().dom() + right.as_map().dom());
        },
    }
}

/// Rebuilds the root hash an exclusion or inclusion proof commits to,
/// starting from the hash `start` of the node at the bottom of the proof
/// path: the bits of `key` from `depth` on choose the side on which each
/// sibling stands, the sibling nearest the root first.
pub open spec fn smt_rebuild(start: Seq<u8>, key: Seq<u8>, depth: nat, sibs: Seq<Seq<u8>>) -> Seq<u8>
    decreases sibs.len(),
{
    if sibs.len() == 0 {
        start
    } else {
        if !bit_of(key, depth as int) {
            internal_of(
                TAG_SPARSE_MERKLE_INTERNAL,
                smt_rebuild(start, key, depth + 1, sibs.drop_first()),
                sibs[0],
            )
        } else {
            internal_of(
                TAG_SPARSE_MERKLE_INTERNAL,
                sibs[0],
                smt_rebuild(start, key, depth + 1, sibs.drop_first()),
            )
        }
    }
}

/// A sparse Merkle proof: the leaf actually found on the queried key's path
/// (its key hash and value hash), or `None` when the path ends in an empty
/// subtree, together with the sibling hashes from the root down.
#[derive(Debug)]
pub struct SparseMerkleProof {
    pub leaf: Option<(HashValue, HashValue)>,
    pub siblings: Vec<HashValue>,
}

/// What it means for a sparse Merkle proof to tie the queried `key` and the
/// returned `value` to the root hash `root`.
pub open spec fn smt_proof_ok(
    root: Seq<u8>,
    key: Seq<u8>,
    value: Option<Seq<u8>>,
    leaf: Option<(Seq<u8>, Seq<u8>)>,
    sibs: Seq<Seq<u8>>,
) -> bool {
    &&& sibs.len() <= 256
    &&& key.len() == 32
    &&& match (leaf, value) {
        (None, None) => smt_rebuild(
            placeholder_of(TAG_SPARSE_MERKLE_PLACEHOLDER),
            key,
            0,
            sibs,
        ) == root,
        (Some(lf), None) => {
            &&& lf.0 != key
            &&& lf.0.len() == 32
            &&& (forall|i: int| 0 <= i < sibs.len() ==> bit_of(lf.0, i) == bit_of(key, i))
            &&& smt_rebuild(leaf_hash_of(lf.0, lf.1), key, 0, sibs) == root
        },
        (Some(lf), Some(v)) => {
            &&& lf.0 == key
            &&& lf.1 == resource_value_hash_of(v)
            &&& smt_rebuild(leaf_hash_of(lf.0, lf.1), key, 0, sibs) == root
        },
        (None, Some(_)) => false,
    }
}

fn smt_rebuild_exec(start: &HashValue, key: &HashValue, depth: usize, sibs: &Vec<HashValue>, pos: usize) -> (r: HashValue)
    requires
        key.wf(),
        pos <= sibs@.len(),
        depth + (sibs@.len() - pos) <= 256,
    ensures
        r@ == smt_rebuild(start@, key@, depth as nat, views_of(sibs@.skip(pos as int))),
    decreases sibs@.len() - pos,
{
    let n = sibs.len();
    let ghost tail = views_of(sibs@.skip(pos as int));
    if pos == n {
        start.clone()
    } else {
        proof {
            assert(tail.drop_first() =~= views_of(sibs@.skip(pos as int + 1)));
            assert(tail[0] == sibs@[pos as int]@);
        }
        let sub = smt_rebuild_exec(start, key, depth + 1, sibs, pos + 1);
        if !bit_at(key, depth) {
            internal_hash(TAG_SPARSE_MERKLE_INTERNAL, &sub, &sibs[pos])
        } else {
            internal_hash(TAG_SPARSE_MERKLE_INTERNAL, &sibs[pos], &sub)
        }
    }
}

/// The view of a proof's optional leaf.
pub open spec fn leaf_view(leaf: Option<(HashValue, HashValue)>) -> Option<(Seq<u8>, Seq<u8>)> {
    match leaf {
        None => None,
        Some(lf) => Some((lf.0@, lf.1@)),
    }
}

impl SparseMerkleProof {
    /// Checks this proof against an expected root hash, a queried key hash
    /// and the value claimed for it.
    pub fn verify(&self, expected_root: &HashValue, key: &HashValue, value: Option<&ResourceValue>) -> (r: bool)
        ensures
            r == smt_proof_ok(
                expected_root@,
                key@,
                match value {
                    Some(v) => Some(v@),
                    None => None,
                },
                leaf_view(self.leaf),
                views_of(self.siblings@),
            ),
    {
        if key.bytes.len() != 32 {
            return false;
        }
        if self.siblings.len() > 256 {
            return false;
        }
        let n = self.siblings.len();
        let start: HashValue = match (&self.leaf, &value) {
            (None, None) => placeholder(TAG_SPARSE_MERKLE_PLACEHOLDER),
            (Some(lf), None) => {
                if lf.0.bytes.len() != 32 {
                    return false;
                }
                if lf.0.equals(key) {
                    return false;
                }
                let mut i: usize = 0;
                while i < n
                    invariant
                        i <= n,
                        n == self.siblings@.len() <= 256,
                        key.wf(),
                        lf.0.wf(),
                        self.leaf == Some(*lf),
                        forall|j: int| 0 <= j < i ==> bit_of(lf.0@, j) == bit_of(key@, j),
                    decreases n - i,
                {
                    if bit_at(&lf.0, i) != bit_at(key, i) {
                        return false;
                    }
                    i = i + 1;
                }
                leaf_hash(&lf.0, &lf.1)
            },
            (Some(lf), Some(v)) => {
                if !lf.0.equals(key) {
                    return false;
                }
                let vh = v.hash();
                if !lf.1.equals(&vh) {
                    return false;
                }
                leaf_hash(&lf.0, &lf.1)
            },
            (None, Some(_)) => {
                return false;
            },
        };
        let computed = smt_rebuild_exec(&start, key, 0, &self.siblings, 0);
        proof {
            assert(self.siblings@.skip(0) =~= self.siblings@);
        }
        computed.equals(expected_root)
    }
}

} // verus!

verus! {

proof fn lemma_u8_eq_by_bits(x: u8, y: u8)
    requires
        ((x >> 7u8) & 1u8 == 1u8) == ((y >> 7u8) & 1u8 == 1u8),
        ((x >> 6u8) & 1u8 == 1u8) == ((y >> 6u8) & 1u8 == 1u8),
        ((x >> 5u8) & 1u8 == 1u8) == ((y >> 5u8) & 1u8 == 1u8),
        ((x >> 4u8) & 1u8 == 1u8) == ((y >> 4u8) & 1u8 == 1u8),
        ((x >> 3u8) & 1u8 == 1u8) == ((y >> 3u8) & 1u8 == 1u8),
        ((x >> 2u8) & 1u8 == 1u8) == ((y >> 2u8) & 1u8 == 1u8),
        ((x >> 1u8) & 1u8 == 1u8) == ((y >> 1u8) & 1u8 == 1u8),
        ((x >> 0u8) & 1u8 == 1u8) == ((y >> 0u8) & 1u8 == 1u8),
    ensures
        x == y,
{
    assert(x == y) by (bit_vector)
        requires
            ((x >> 7u8) & 1u8 == 1u8) == ((y >> 7u8) & 1u8 == 1u8),
            ((x >> 6u8) & 1u8 == 1u8) == ((y >> 6u8) & 1u8 == 1u8),
            ((x >> 5u8) & 1u8 == 1u8) == ((y >> 5u8) & 1u8 == 1u8),
            ((x >> 4u8) & 1u8 == 1u8) == ((y >> 4u8) & 1u8 == 1u8),
            ((x >> 3u8) & 1u8 == 1u8) == ((y >> 3u8) & 1u8 == 1u8),
            ((x >> 2u8) & 1u8 == 1u8) == ((y >> 2u8) & 1u8 == 1u8),
            ((x >> 1u8) & 1u8 == 1u8) == ((y >> 1u8) & 1u8 == 1u8),
            ((x >> 0u8) & 1u8 == 1u8) == ((y >> 0u8) & 1u8 == 1u8),
    ;
}

/// Two 32-byte keys that agree on all 256 bits are equal.
pub proof fn lemma_keys_eq_by_bits(k1: Seq<u8>, k2: Seq<u8>)
    requires
        k1.len() == 32,
        k2.len() == 32,
        forall|i: int| 0 <= i < 256 ==> bit_of(k1, i) == bit_of(k2, i),
    ensures
        k1 == k2,
{
    assert forall|j: int| 0 <= j < 32 implies k1[j] == k2[j] by {
        assert(bit_of(k1, 8 * j + 0) == bit_of(k2, 8 * j + 0));
        assert(bit_of(k1, 8 * j + 1) == bit_of(k2, 8 * j + 1));
        assert(bit_of(k1, 8 * j + 2) == bit_of(k2, 8 * j + 2));
        assert(bit_of(k1, 8 * j + 3) == bit_of(k2, 8 * j + 3));
        assert(bit_of(k1, 8 * j + 4) == bit_of(k2, 8 * j + 4));
        assert(bit_of(k1, 8 * j + 5) == bit_of(k2, 8 * j + 5));
        assert(bit_of(k1, 8 * j + 6) == bit_of(k2, 8 * j + 6));
        assert(bit_of(k1, 8 * j + 7) == bit_of(k2, 8 * j + 7));
        assert((8 * j + 0) / 8 == j && (8 * j + 0) % 8 == 0);
        assert((8 * j + 1) / 8 == j && (8 * j + 1) % 8 == 1);
        assert((8 * j + 2) / 8 == j && (8 * j + 2) % 8 == 2);
        assert((8 * j + 3) / 8 == j && (8 * j + 3) % 8 == 3);
        assert((8 * j + 4) / 8 == j && (8 * j + 4) % 8 == 4);
        assert((8 * j + 5) / 8 == j && (8 * j + 5) % 8 == 5);
        assert((8 * j + 6) / 8 == j && (8 * j + 6) % 8 == 6);
        assert((8 * j + 7) / 8 == j && (8 * j + 7) % 8 == 7);
        lemma_u8_eq_by_bits(k1[j], k2[j]);
    }
    assert(k1 =~= k2);
}

/// Two distinct keys that both follow `path` differ at some bit at or past
/// the end of the path.
pub proof fn lemma_keys_differ_beyond(k1: Seq<u8>, k2: Seq<u8>, path: Seq<bool>)
    requires
        k1.len() == 32,
        k2.len() == 32,
        k1 != k2,
        matches_path(k1, path),
        matches_path(k2, path),
        path.len() <= 256,
    ensures
        exists|i: int| path.len() <= i < 256 && bit_of(k1, i) != bit_of(k2, i),
{
    if forall|i: int| path.len() <= i < 256 ==> bit_of(k1, i) == bit_of(k2, i) {
        assert forall|i: int| 0 <= i < 256 implies bit_of(k1, i) == bit_of(k2, i) by {
            if i < path.len() {
                assert(bit_of(k1, i) == path[i]);
                assert(bit_of(k2, i) == path[i]);
            }
        }
        lemma_keys_eq_by_bits(k1, k2);
        assert(false);
    }
}

} // verus!

verus! {

impl Clone for SmtNode {
    fn clone(&self) -> (r: Self)
        ensures
            r.as_map() == self.as_map(),
            r.hash_of() == self.hash_of(),
            forall|p: Seq<bool>| #[trigger] self.wf(p) ==> r.wf(p),
        decreases *self,
    {
        match self {
            SmtNode::Empty => SmtNode::Empty,
            SmtNode::Leaf { key_hash, value } => {
                let r = SmtNode::Leaf { key_hash: key_hash.clone(), value: value.clone() };
                proof {
                    assert(r.as_map() =~= self.as_map());
                }
                r
            },
            SmtNode::Internal { left, right } => {
                let l = (&**left).clone();
                let rt = (&**right).clone();
                let r = SmtNode::Internal { left: Box::new(l), right: Box::new(rt) };
                proof {
                    assert(r.as_map() =~= self.as_map());
                    assert forall|p: Seq<bool>| #[trigger] self.wf(p) implies r.wf(p) by {
                        assert(left.wf(p.push(false)) ==> l.wf(p.push(false)));
                        assert(right.wf(p.push(true)) ==> rt.wf(p.push(true)));
                    }
                }
                r
            },
        }
    }
}

/// The hash at the bottom of a proof path: the found leaf's hash, or the
/// placeholder when the path ends in an empty subtree.
pub open spec fn pf_start(leaf: Option<(Seq<u8>, Seq<u8>)>) -> Seq<u8> {
    match leaf {
        None => placeholder_of(TAG_SPARSE_MERKLE_PLACEHOLDER),
        Some(lf) => leaf_hash_of(lf.0, lf.1),
    }
}

fn smt_get_with_proof_rec(
    node: &SmtNode,
    key: &HashValue,
    depth: usize,
    Ghost(path): Ghost<Seq<bool>>,
) -> (res: (Option<ResourceValue>, Vec<HashValue>, Option<(HashValue, HashValue)>))
    requires
        node.wf(path),
        key.wf(),
        matches_path(key@, path),
        path.len() == depth,
        depth <= 256,
    ensures
        ({
            let m = node.as_map();
            &&& (match res.0 {
                Some(v) => m.dom().contains(key@) && m[key@] == v@,
                None => !m.dom().contains(key@),
            })
            &&& depth + res.1@.len() <= 256
            &&& smt_rebuild(pf_start(leaf_view(res.2)), key@, depth as nat, views_of(res.1@))
                == node.hash_of()
            &&& (match (leaf_view(res.2), res.0) {
                (None, None) => true,
                (Some(lf), Some(v)) => lf.0 == key@ && lf.1 == resource_value_hash_of(v@),
                (Some(lf), None) => {
                    &&& lf.0 != key@
                    &&& lf.0.len() == 32
                    &&& (forall|i: int| 0 <= i < depth + res.1@.len()
                        ==> bit_of(lf.0, i) == bit_of(key@, i))
                },
                (None, Some(_)) => false,
            })
        }),
    decreases *node,
{
    match node {
        SmtNode::Empty => {
            let sibs: Vec<HashValue> = Vec::new();
            proof {
                assert(views_of(sibs@) =~= Seq::<Seq<u8>>::empty());
                assert(node.as_map() =~= Map::<Seq<u8>, Seq<u8>>::empty());
            }
            (None, sibs, None)
        },
        SmtNode::Leaf { key_hash, value } => {
            let vh = value.hash();
            if key_hash.equals(key) {
                (Some(value.clone()), Vec::new(), Some((key_hash.clone(), vh)))
            } else {
                proof {
                    assert(!node.as_map().dom().contains(key@));
                }
                (None, Vec::new(), Some((key_hash.clone(), vh)))
            }
        },
        SmtNode::Internal { left, right } => {
            proof {
                lemma_smt_keys_match(**left, path.push(false));
                lemma_smt_keys_match(**right, path.push(true));
            }
            let b = bit_at(key, depth);
            if !b {
                let (value, mut sibs, lf) = smt_get_with_proof_rec(
                    left,
                    key,
                    depth + 1,
                    Ghost(path.push(false)),
                );
                let sib = right.compute_hash();
                let ghost child = views_of(sibs@);
                sibs.insert(0, sib);
                proof {
                    assert(views_of(sibs@).drop_first() =~= child);
                    assert(views_of(sibs@)[0] == sib@);
                    // The key cannot sit on the right: every key there has a
                    // true bit at this depth.
                    if right.as_map().dom().contains(key@) {
                        assert(matches_path(key@, path.push(true)));
                        assert(bit_of(key@, depth as int) == path.push(true)[depth as int]);
                        assert(false);
                    }
                    assert(node.as_map().dom().contains(key@)
                        <==> left.as_map().dom().contains(key@));
                    if left.as_map().dom().contains(key@) {
                        assert(node.as_map()[key@] == left.as_map()[key@]);
                    }
                }
                (value, sibs, lf)
            } else {
                let (value, mut sibs, lf) = smt_get_with_proof_rec(
                    right,
                    key,
                    depth + 1,
                    Ghost(path.push(true)),
                );
                let sib = left.compute_hash();
                let ghost child = views_of(sibs@);
                sibs.insert(0, sib);
                proof {
                    assert(views_of(sibs@).drop_first() =~= child);
                    assert(views_of(sibs@)[0] == sib@);
                    if left.as_map().dom().contains(key@) {
                        assert(matches_path(key@, path.push(false)));
                        assert(bit_of(key@, depth as int) == path.push(false)[depth as int]);
                        assert(false);
                    }
                    assert(node.as_map().dom().contains(key@)
                        <==> right.as_map().dom().contains(key@));
                }
                (value, sibs, lf)
            }
        },
    }
}

/// Builds the smallest subtree separating two distinct keys that share the
/// first `depth` bits.
fn smt_split_leaves(
    k1: HashValue,
    v1: ResourceValue,
    k2: HashValue,
    v2: ResourceValue,
    depth: usize,
    Ghost(path): Ghost<Seq<bool>>,
) -> (r: SmtNode)
    requires
        k1.wf(),
        k2.wf(),
        k1@ != k2@,
        matches_path(k1@, path),
        matches_path(k2@, path),
        path.len() == depth,
        depth <= 256,
    ensures
        r.wf(path),
        r.as_map() == Map::<Seq<u8>, Seq<u8>>::empty().insert(k1@, v1@).insert(k2@, v2@),
    decreases 256 - depth,
{
    proof {
        lemma_keys_differ_beyond(k1@, k2@, path);
        let di = choose|i: int| path.len() <= i < 256 && bit_of(k1@, i) != bit_of(k2@, i);
        assert(path.len() < 256);
    }
    let b1 = bit_at(&k1, depth);
    let b2 = bit_at(&k2, depth);
    let ghost kv1 = k1@;
    let ghost kv2 = k2@;
    let ghost vv1 = v1@;
    let ghost vv2 = v2@;
    if b1 != b2 {
        proof {
            assert(matches_path(kv1, path.push(b1))) by {
                assert(forall|i: int| 0 <= i < path.len() ==> path.push(b1)[i] == path[i]);
            }
            assert(matches_path(kv2, path.push(b2))) by {
                assert(forall|i: int| 0 <= i < path.len() ==> path.push(b2)[i] == path[i]);
            }
        }
        if !b1 {
            let lo = SmtNode::Leaf { key_hash: k1, value: v1 };
            let hi = SmtNode::Leaf { key_hash: k2, value: v2 };
            let ghost lom = lo.as_map();
            let ghost him = hi.as_map();
            let ghost lwf = lo.wf(path.push(false));
            let ghost hwf = hi.wf(path.push(true));
            let r = SmtNode::Internal { left: Box::new(lo), right: Box::new(hi) };
            proof {
                assert(lwf);
                assert(hwf);
                assert(r.wf(path));
                assert(lom =~= Map::<Seq<u8>, Seq<u8>>::empty().insert(kv1, vv1));
                assert(him =~= Map::<Seq<u8>, Seq<u8>>::empty().insert(kv2, vv2));
                assert(r.as_map() == lom.union_prefer_right(him));
                assert(r.as_map() =~= Map::<Seq<u8>, Seq<u8>>::empty().insert(kv1, vv1).insert(
                    kv2,
                    vv2,
                ));
            }
            r
        } else {
            let lo = SmtNode::Leaf { key_hash: k2, value: v2 };
            let hi = SmtNode::Leaf { key_hash: k1, value: v1 };
            let ghost lom = lo.as_map();
            let ghost him = hi.as_map();
            let ghost lwf = lo.wf(path.push(false));
            let ghost hwf = hi.wf(path.push(true));
            let r = SmtNode::Internal { left: Box::new(lo), right: Box::new(hi) };
            proof {
                assert(lwf);
                assert(hwf);
                assert(r.wf(path));
                assert(lom =~= Map::<Seq<u8>, Seq<u8>>::empty().insert(kv2, vv2));
                assert(him =~= Map::<Seq<u8>, Seq<u8>>::empty().insert(kv1, vv1));
                assert(r.as_map() == lom.union_prefer_right(him));
                assert(r.as_map() =~= Map::<Seq<u8>, Seq<u8>>::empty().insert(kv1, vv1).insert(
                    kv2,
                    vv2,
                ));
            }
            r
        }
    } else {
        proof {
            assert(matches_path(kv1, path.push(b1))) by {
                assert(forall|i: int| 0 <= i < path.len() ==> path.push(b1)[i] == path[i]);
            }
            assert(matches_path(kv2, path.push(b1))) by {
                assert(forall|i: int| 0 <= i < path.len() ==> path.push(b1)[i] == path[i]);
            }
            // The distinguishing bit lies strictly beyond this depth, so the
            // tree has room to grow one level down.
            let i = choose|i: int|
                path.len() <= i < 256 && bit_of(kv1, i) != bit_of(kv2, i);
            assert(i > depth);
        }
        let sub = smt_split_leaves(k1, v1, k2, v2, depth + 1, Ghost(path.push(b1)));
        let ghost subm = sub.as_map();
        let ghost swf = sub.wf(path.push(b1));
        if !b1 {
            let r = SmtNode::Internal { left: Box::new(sub), right: Box::new(SmtNode::Empty) };
            proof {
                assert(swf);
                assert(SmtNode::Empty.wf(path.push(false)));
                assert(SmtNode::Empty.wf(path.push(true)));
                assert(r.wf(path));
                assert(SmtNode::Empty.as_map() =~= Map::<Seq<u8>, Seq<u8>>::empty());
                assert(r.as_map() == subm.union_prefer_right(SmtNode::Empty.as_map()));
                assert(r.as_map() =~= Map::<Seq<u8>, Seq<u8>>::empty().insert(kv1, vv1).insert(
                    kv2,
                    vv2,
                ));
            }
            r
        } else {
            let r = SmtNode::Internal { left: Box::new(SmtNode::Empty), right: Box::new(sub) };
            proof {
                assert(swf);
                assert(SmtNode::Empty.wf(path.push(false)));
                assert(SmtNode::Empty.wf(path.push(true)));
                assert(r.wf(path));
                assert(SmtNode::Empty.as_map() =~= Map::<Seq<u8>, Seq<u8>>::empty());
                assert(r.as_map() == SmtNode::Empty.as_map().union_prefer_right(subm));
                assert(r.as_map() =~= Map::<Seq<u8>, Seq<u8>>::empty().insert(kv1, vv1).insert(
                    kv2,
                    vv2,
                ));
            }
            r
        }
    }
}

fn smt_insert_rec(
    node: SmtNode,
    key: &HashValue,
    value: ResourceValue,
    depth: usize,
    Ghost(path): Ghost<Seq<bool>>,
) -> (r: SmtNode)
    requires
        node.wf(path),
        key.wf(),
        matches_path(key@, path),
        path.len() == depth,
        depth <= 256,
    ensures
        r.wf(path),
        r.as_map() == node.as_map().insert(key@, value@),
    decreases node,
{
    let ghost m = node.as_map();
    match node {
        SmtNode::Empty => {
            let r = SmtNode::Leaf { key_hash: key.clone(), value };
            proof {
                assert(r.as_map() =~= m.insert(key@, value@));
            }
            r
        },
        SmtNode::Leaf { key_hash, value: old_value } => {
            if key_hash.equals(key) {
                let r = SmtNode::Leaf { key_hash, value };
                proof {
                    assert(r.as_map() =~= m.insert(key@, value@));
                }
                r
            } else {
                let r = smt_split_leaves(
                    key_hash,
                    old_value,
                    key.clone(),
                    value,
                    depth,
                    Ghost(path),
                );
                proof {
                    assert(r.as_map() =~= m.insert(key@, value@));
                }
                r
            }
        },
        SmtNode::Internal { left, right } => {
            proof {
                lemma_smt_keys_match(*left, path.push(false));
                lemma_smt_keys_match(*right, path.push(true));
            }
            let b = bit_at(key, depth);
            if !b {
                let ghost rm = right.as_map();
                let new_left = smt_insert_rec(*left, key, value, depth + 1, Ghost(path.push(false)));
                let r = SmtNode::Internal { left: Box::new(new_left), right };
                proof {
                    if rm.dom().contains(key@) {
                        assert(matches_path(key@, path.push(true)));
                        assert(bit_of(key@, depth as int) == path.push(true)[depth as int]);
                        assert(false);
                    }
                    assert(r.as_map() =~= m.insert(key@, value@));
                }
                r
            } else {
                let ghost lm = left.as_map();
                let new_right = smt_insert_rec(*right, key, value, depth + 1, Ghost(path.push(true)));
                let r = SmtNode::Internal { left, right: Box::new(new_right) };
                proof {
                    if lm.dom().contains(key@) {
                        assert(matches_path(key@, path.push(false)));
                        assert(bit_of(key@, depth as int) == path.push(false)[depth as int]);
                        assert(false);
                    }
                    assert(r.as_map() =~= m.insert(key@, value@));
                }
                r
            }
        },
    }
}

/// A versioned sparse Merkle tree of resource values, the authenticated
/// map behind one state snapshot.
#[derive(Debug)]
pub struct SparseMerkleTree {
    pub root: SmtNode,
}

impl View for SparseMerkleTree {
    type V = Map<Seq<u8>, Seq<u8>>;

    /// The key-hash-to-value-bytes map this tree holds.
    open spec fn view(&self) -> Map<Seq<u8>, Seq<u8>> {
        self.root.as_map()
    }
}

impl Clone for SparseMerkleTree {
    fn clone(&self) -> (r: Self)
        ensures
            r@ == self@,
            r.root_hash_of() == self.root_hash_of(),
            self.wf() ==> r.wf(),
    {
        SparseMerkleTree { root: self.root.clone() }
    }
}

impl SparseMerkleTree {
    /// Structural well-formedness of the whole tree.
    pub open spec fn wf(self) -> bool {
        self.root.wf(Seq::empty())
    }

    /// The root hash of this tree.
    pub open spec fn root_hash_of(self) -> Seq<u8> {
        self.root.hash_of()
    }

    /// The empty state: no key holds a value, and the root hash is the
    /// sparse Merkle placeholder.
    pub fn new() -> (r: Self)
        ensures
            r.wf(),
            r@ == Map::<Seq<u8>, Seq<u8>>::empty(),
            r.root_hash_of() == placeholder_of(TAG_SPARSE_MERKLE_PLACEHOLDER),
    {
        SparseMerkleTree { root: SmtNode::Empty }
    }

    /// Computes the root hash of this tree.
    pub fn root_hash(&self) -> (r: HashValue)
        ensures
            r@ == self.root_hash_of(),
            r.wf(),
    {
        self.root.compute_hash()
    }

    /// Looks a key hash up, returning its value (or `None`) and a sparse
    /// Merkle proof that verifies against this tree's root hash.
    pub fn get_with_proof(&self, key: &HashValue) -> (res: (Option<ResourceValue>, SparseMerkleProof))
        requires
            self.wf(),
            key.wf(),
        ensures
            (match res.0 {
                Some(v) => self@.dom().contains(key@) && self@[key@] == v@,
                None => !self@.dom().contains(key@),
            }),
            smt_proof_ok(
                self.root_hash_of(),
                key@,
                match res.0 {
                    Some(v) => Some(v@),
                    None => None,
                },
                leaf_view(res.1.leaf),
                views_of(res.1.siblings@),
            ),
    {
        let (value, siblings, leaf) = smt_get_with_proof_rec(
            &self.root,
            key,
            0,
            Ghost(Seq::empty()),
        );
        (value, SparseMerkleProof { leaf, siblings })
    }

    /// Inserts a value under a key hash, returning the updated tree.
    pub fn insert(self, key: &HashValue, value: ResourceValue) -> (r: Self)
        requires
            self.wf(),
            key.wf(),
        ensures
            r.wf(),
            r@ == self@.insert(key@, value@),
    {
        let root = smt_insert_rec(self.root, key, value, 0, Ghost(Seq::empty()));
        SparseMerkleTree { root }
    }
}

} // verus!
