//! Merkle accumulator over a sequence of leaf hashes.
//!
//! The ledger's transaction accumulator and the per-version event
//! accumulators are both instances of this structure: a binary Merkle tree
//! over the first `n` leaves, padded on the right with a placeholder hash up
//! to the next power of two.  The root of the accumulator over the hashes of
//! `TransactionInfo` records `0..=v` is the ledger root at version `v`.

use vstd::prelude::*;
use crate::hash::{
    HashValue, tagged_hash, tagged_hash_of, placeholder, placeholder_of,
    TAG_ACCUMULATOR_PLACEHOLDER,
};

verus! {

/// `2^h` as a mathematical integer.
pub open spec fn two_pow(h: nat) -> nat
    decreases h,
{
    if h == 0 {
        1
    } else {
        2 * two_pow((h - 1) as nat)
    }
}

pub proof fn lemma_two_pow_mono(a: nat, b: nat)
    requires
        a <= b,
    ensures
        two_pow(a) <= two_pow(b),
    decreases b,
{
    if b > 0 && a < b {
        lemma_two_pow_mono(a, (b - 1) as nat);
    }
}

pub proof fn lemma_two_pow_shl(h: u64)
    requires
        h <= 63,
    ensures
        two_pow(h as nat) == (1u64 << h) as nat,
    decreases h,
{
    if h == 0 {
        assert(1u64 << 0 == 1) by (bit_vector);
    } else {
        lemma_two_pow_shl((h - 1) as u64);
        let g = (h - 1) as u64;
        assert((1u64 << (g + 1)) == 2 * (1u64 << g) && (1u64 << g) < 0x8000000000000000u64)
            by (bit_vector)
            requires g <= 62;
    }
}

/// Computes `2^h` as a machine integer.
pub fn two_pow_u64(h: u64) -> (r: u64)
    requires
        h <= 63,
    ensures
        r as nat == two_pow(h as nat),
{
    proof {
        lemma_two_pow_shl(h);
    }
    1u64 << h
}

/// The smallest height `h` with `2^h >= n`: the height of the accumulator
/// over `n` leaves.
pub open spec fn height_for(n: nat) -> nat
    decreases n,
{
    if n <= 1 {
        0
    } else {
        1 + height_for(((n + 1) / 2) as nat)
    }
}

pub proof fn lemma_height_for_covers(n: nat)
    ensures
        n <= two_pow(height_for(n)),
    decreases n,
{
    if n > 1 {
        lemma_height_for_covers(((n + 1) / 2) as nat);
    }
}

pub proof fn lemma_height_for_bound(n: nat, k: nat)
    requires
        n <= two_pow(k),
    ensures
        height_for(n) <= k,
    decreases n,
{
    if n > 1 {
        lemma_height_for_bound(((n + 1) / 2) as nat, (k - 1) as nat);
    }
}

/// Computes the accumulator height for `n` leaves.
pub fn height_for_u64(n: u64) -> (h: u64)
    requires
        n <= 0x8000_0000_0000_0000,
    ensures
        h as nat == height_for(n as nat),
        h <= 63,
        n as nat <= two_pow(h as nat),
    decreases n,
{
    proof {
        lemma_two_pow_shl(63);
        assert((1u64 << 63) == 0x8000_0000_0000_0000u64) by (bit_vector);
        lemma_height_for_bound(n as nat, 63);
        lemma_height_for_covers(n as nat);
    }
    if n <= 1 {
        0
    } else {
        1 + height_for_u64((n + 1) / 2)
    }
}

/// The views of a sequence of hash values.
pub open spec fn views_of(s: Seq<HashValue>) -> Seq<Seq<u8>> {
    s.map_values(|h: HashValue| h@)
}

/// The hash of an internal accumulator node under domain tag `tag`.
pub open spec fn internal_of(tag: u8, l: Seq<u8>, r: Seq<u8>) -> Seq<u8> {
    tagged_hash_of(tag, l + r)
}

/// Computes the hash of an internal node from its two children.
pub fn internal_hash(tag: u8, l: &HashValue, r: &HashValue) -> (res: HashValue)
    ensures
        res@ == internal_of(tag, l@, r@),
        res.wf(),
{
    let mut buf: Vec<u8> = Vec::new();
    buf.extend_from_slice(l.bytes.as_slice());
    buf.extend_from_slice(r.bytes.as_slice());
    proof {
        assert(buf@ =~= l@ + r@);
    }
    tagged_hash(tag, &buf)
}

/// The hash of the subtree of height `height` holding `leaves` on its left:
/// an entirely empty subtree hashes to the placeholder; a single leaf at
/// height zero is its own hash; otherwise the two halves are combined.
pub open spec fn subtree_hash(tag: u8, leaves: Seq<Seq<u8>>, height: nat) -> Seq<u8>
    decreases height,
{
    if leaves.len() == 0 {
        placeholder_of(TAG_ACCUMULATOR_PLACEHOLDER)
    } else if height == 0 {
        leaves[0]
    } else {
        let half = two_pow((height - 1) as nat) as int;
        if leaves.len() <= half {
            internal_of(
                tag,
                subtree_hash(tag, leaves, (height - 1) as nat),
                subtree_hash(tag, Seq::empty(), (height - 1) as nat),
            )
        } else {
            internal_of(
                tag,
                subtree_hash(tag, leaves.take(half), (height - 1) as nat),
                subtree_hash(tag, leaves.skip(half), (height - 1) as nat),
            )
        }
    }
}

/// The root of the accumulator over `leaves`.
pub open spec fn acc_root_of(tag: u8, leaves: Seq<Seq<u8>>) -> Seq<u8> {
    subtree_hash(tag, leaves, height_for(leaves.len()))
}

/// Computes the hash of the subtree of height `height` over
/// `leaves[start..end]`.
fn acc_subtree_hash(tag: u8, leaves: &Vec<HashValue>, start: usize, end: usize, height: u64) -> (r:
    HashValue)
    requires
        start <= end <= leaves@.len(),
        (end - start) as nat <= two_pow(height as nat),
        height <= 63,
        forall|i: int| start <= i < end ==> (#[trigger] leaves@[i]).wf(),
    ensures
        r@ == subtree_hash(tag, views_of(leaves@.subrange(start as int, end as int)), height as nat),
        r.wf(),
    decreases height,
{
    let ghost vs = views_of(leaves@.subrange(start as int, end as int));
    if start == end {
        placeholder(TAG_ACCUMULATOR_PLACEHOLDER)
    } else if height == 0 {
        proof {
            assert(vs[0] == leaves@[start as int]@);
        }
        leaves[start].clone()
    } else {
        let half = two_pow_u64(height - 1);
        let mid = if ((end - start) as u64) <= half {
            end
        } else {
            start + (half as usize)
        };
        let l = acc_subtree_hash(tag, leaves, start, mid, height - 1);
        let r = acc_subtree_hash(tag, leaves, mid, end, height - 1);
        proof {
            let lv = views_of(leaves@.subrange(start as int, mid as int));
            let rv = views_of(leaves@.subrange(mid as int, end as int));
            if (end - start) as u64 <= half {
                assert(lv =~= vs);
                assert(rv =~= Seq::<Seq<u8>>::empty());
            } else {
                assert(lv =~= vs.take(half as int));
                assert(rv =~= vs.skip(half as int));
            }
        }
        internal_hash(tag, &l, &r)
    }
}

/// Computes the accumulator root over the first `n` of `leaves`.
pub fn accumulator_root(tag: u8, leaves: &Vec<HashValue>, n: usize) -> (r: HashValue)
    requires
        n <= leaves@.len(),
        n <= 0x8000_0000_0000_0000,
        forall|i: int| 0 <= i < n ==> (#[trigger] leaves@[i]).wf(),
    ensures
        r@ == acc_root_of(tag, views_of(leaves@.take(n as int))),
        r.wf(),
{
    let h = height_for_u64(n as u64);
    let r = acc_subtree_hash(tag, leaves, 0, n, h);
    proof {
        assert(leaves@.subrange(0, n as int) =~= leaves@.take(n as int));
        assert(views_of(leaves@.take(n as int)).len() == n);
    }
    r
}

/// Rebuilds the root committed to by an inclusion proof: `sibs` holds the
/// sibling hashes from the root down to the leaf, and `rel` is the position
/// of the leaf inside the subtree of height `height`.
pub open spec fn acc_rebuild(tag: u8, leaf: Seq<u8>, rel: nat, height: nat, sibs: Seq<Seq<u8>>) -> Seq<u8>
    decreases height,
{
    if height == 0 {
        leaf
    } else {
        let half = two_pow((height - 1) as nat);
        if rel < half {
            internal_of(
                tag,
                acc_rebuild(tag, leaf, rel, (height - 1) as nat, sibs.drop_first()),
                sibs[0],
            )
        } else {
            internal_of(
                tag,
                sibs[0],
                acc_rebuild(tag, leaf, (rel - half) as nat, (height - 1) as nat, sibs.drop_first()),
            )
        }
    }
}

/// What it means for an inclusion proof to tie `leaf` at position `index`
/// to the accumulator root `root`.
pub open spec fn acc_proof_ok(tag: u8, root: Seq<u8>, leaf: Seq<u8>, index: nat, sibs: Seq<Seq<u8>>) -> bool {
    &&& sibs.len() <= 63
    &&& index < two_pow(sibs.len())
    &&& acc_rebuild(tag, leaf, index, sibs.len(), sibs) == root
}

/// A Merkle inclusion proof for one accumulator leaf: the sibling hashes
/// from the root down to the leaf.
#[derive(Debug)]
pub struct AccumulatorProof {
    pub siblings: Vec<HashValue>,
}

fn acc_rebuild_exec(tag: u8, leaf: &HashValue, rel: u64, height: u64, sibs: &Vec<HashValue>, pos: usize) -> (r: HashValue)
    requires
        height as nat + pos as nat == sibs@.len(),
        height <= 63,
        (rel as nat) < two_pow(height as nat),
    ensures
        r@ == acc_rebuild(tag, leaf@, rel as nat, height as nat, views_of(sibs@.skip(pos as int))),
    decreases height,
{
    if height == 0 {
        leaf.clone()
    } else {
        let total = sibs.len();
        let half = two_pow_u64(height - 1);
        let ghost tail = views_of(sibs@.skip(pos as int));
        proof {
            assert(tail.drop_first() =~= views_of(sibs@.skip(pos as int + 1)));
            assert(tail[0] == sibs@[pos as int]@);
        }
        if rel < half {
            let sub = acc_rebuild_exec(tag, leaf, rel, height - 1, sibs, pos + 1);
            internal_hash(tag, &sub, &sibs[pos])
        } else {
            let sub = acc_rebuild_exec(tag, leaf, rel - half, height - 1, sibs, pos + 1);
            internal_hash(tag, &sibs[pos], &sub)
        }
    }
}

impl AccumulatorProof {
    /// Checks this proof against an expected root, leaf hash and leaf index.
    pub fn verify(&self, tag: u8, expected_root: &HashValue, leaf: &HashValue, index: u64) -> (r: bool)
        ensures
            r == acc_proof_ok(tag, expected_root@, leaf@, index as nat, views_of(self.siblings@)),
    {
        if self.siblings.len() > 63 {
            return false;
        }
        let h = self.siblings.len() as u64;
        let tp = two_pow_u64(h);
        if index >= tp {
            return false;
        }
        let computed = acc_rebuild_exec(tag, leaf, index, h, &self.siblings, 0);
        proof {
            assert(self.siblings@.skip(0) =~= self.siblings@);
        }
        computed.equals(expected_root)
    }
}

/// Generates the inclusion proof for `leaves[index]` inside the subtree of
/// height `height` over `leaves[start..end]`.
fn acc_gen_proof_rec(tag: u8, leaves: &Vec<HashValue>, start: usize, end: usize, height: u64, index: usize) -> (pf: Vec<HashValue>)
    requires
        start <= index < end <= leaves@.len(),
        (end - start) as nat <= two_pow(height as nat),
        height <= 63,
        forall|i: int| start <= i < end ==> (#[trigger] leaves@[i]).wf(),
    ensures
        pf@.len() == height,
        acc_rebuild(
            tag,
            leaves@[index as int]@,
            (index - start) as nat,
            height as nat,
            views_of(pf@),
        ) == subtree_hash(tag, views_of(leaves@.subrange(start as int, end as int)), height as nat),
        forall|i: int| 0 <= i < pf@.len() ==> (#[trigger] pf@[i]).wf(),
    decreases height,
{
    let ghost vs = views_of(leaves@.subrange(start as int, end as int));
    if height == 0 {
        proof {
            assert(vs[0] == leaves@[start as int]@);
        }
        Vec::new()
    } else {
        let half = two_pow_u64(height - 1);
        let mid = if ((end - start) as u64) <= half {
            end
        } else {
            start + (half as usize)
        };
        let rel = (index - start) as u64;
        let ghost lv = views_of(leaves@.subrange(start as int, mid as int));
        let ghost rv = views_of(leaves@.subrange(mid as int, end as int));
        proof {
            if (end - start) as u64 <= half {
                assert(lv =~= vs);
                assert(rv =~= Seq::<Seq<u8>>::empty());
            } else {
                assert(lv =~= vs.take(half as int));
                assert(rv =~= vs.skip(half as int));
            }
        }
        if rel < half {
            let mut pf = acc_gen_proof_rec(tag, leaves, start, mid, height - 1, index);
            let sib = acc_subtree_hash(tag, leaves, mid, end, height - 1);
            let ghost child = views_of(pf@);
            pf.insert(0, sib);
            proof {
                assert(views_of(pf@).drop_first() =~= child);
                assert(views_of(pf@)[0] == sib@);
            }
            pf
        } else {
            let mut pf = acc_gen_proof_rec(tag, leaves, mid, end, height - 1, index);
            let sib = acc_subtree_hash(tag, leaves, start, mid, height - 1);
            let ghost child = views_of(pf@);
            pf.insert(0, sib);
            proof {
                assert(views_of(pf@).drop_first() =~= child);
                assert(views_of(pf@)[0] == sib@);
            }
            pf
        }
    }
}

/// Generates the inclusion proof for leaf `index` of the accumulator over
/// the first `n` of `leaves`.  The proof verifies against the accumulator
/// root over those leaves.
pub fn accumulator_gen_proof(tag: u8, leaves: &Vec<HashValue>, n: usize, index: usize) -> (pf: AccumulatorProof)
    requires
        index < n <= leaves@.len(),
        n <= 0x8000_0000_0000_0000,
        forall|i: int| 0 <= i < n ==> (#[trigger] leaves@[i]).wf(),
    ensures
        acc_proof_ok(
            tag,
            acc_root_of(tag, views_of(leaves@.take(n as int))),
            leaves@[index as int]@,
            index as nat,
            views_of(pf.siblings@),
        ),
        forall|i: int|
            0 <= i < pf.siblings@.len() ==> (#[trigger] pf.siblings@[i]).wf(),
{
    let h = height_for_u64(n as u64);
    let siblings = acc_gen_proof_rec(tag, leaves, 0, n, h, index);
    proof {
        assert(leaves@.subrange(0, n as int) =~= leaves@.take(n as int));
    }
    AccumulatorProof { siblings }
}

/// A consistency proof between two ledger sizes: it carries the accumulator
/// leaf hashes up to the larger size, so that a verifier can recompute and
/// compare the roots at both sizes.
#[derive(Debug)]
pub struct AccumulatorConsistencyProof {
    pub leaf_hashes: Vec<HashValue>,
}

/// What it means for a consistency proof to tie the accumulator root at
/// `known_count` leaves to the root at `target_count` leaves.
pub open spec fn consistency_ok(
    tag: u8,
    known_root: Seq<u8>,
    known_count: nat,
    target_root: Seq<u8>,
    target_count: nat,
    leaves: Seq<Seq<u8>>,
) -> bool {
    &&& leaves.len() == target_count
    &&& known_count <= target_count
    &&& target_count <= two_pow(63)
    &&& (forall|i: int| 0 <= i < leaves.len() ==> (#[trigger] leaves[i]).len() == 32)
    &&& acc_root_of(tag, leaves.take(known_count as int)) == known_root
    &&& acc_root_of(tag, leaves) == target_root
}

impl AccumulatorConsistencyProof {
    /// Checks this proof against the roots and leaf counts of the two
    /// accumulator states it claims to connect.
    pub fn verify(
        &self,
        tag: u8,
        known_root: &HashValue,
        known_count: u64,
        target_root: &HashValue,
        target_count: u64,
    ) -> (r: bool)
        ensures
            r == consistency_ok(
                tag,
                known_root@,
                known_count as nat,
                target_root@,
                target_count as nat,
                views_of(self.leaf_hashes@),
            ),
    {
        proof {
            lemma_two_pow_shl(63);
            assert((1u64 << 63) == 0x8000_0000_0000_0000u64) by (bit_vector);
            assert(views_of(self.leaf_hashes@).len() == self.leaf_hashes@.len());
        }
        if self.leaf_hashes.len() as u64 != target_count {
            return false;
        }
        if known_count > target_count {
            return false;
        }
        if target_count > 0x8000_0000_0000_0000u64 {
            return false;
        }
        let mut i: usize = 0;
        while i < self.leaf_hashes.len()
            invariant
                i <= self.leaf_hashes@.len(),
                forall|j: int| 0 <= j < i ==> (#[trigger] self.leaf_hashes@[j]).wf(),
            decreases self.leaf_hashes@.len() - i,
        {
            if self.leaf_hashes[i].bytes.len() != 32 {
                proof {
                    assert(views_of(self.leaf_hashes@)[i as int] == self.leaf_hashes@[i as int]@);
                }
                return false;
            }
            i = i + 1;
        }
        let known = accumulator_root(tag, &self.leaf_hashes, known_count as usize);
        let target = accumulator_root(tag, &self.leaf_hashes, self.leaf_hashes.len());
        proof {
            assert(views_of(self.leaf_hashes@.take(self.leaf_hashes@.len() as int))
                =~= views_of(self.leaf_hashes@));
            assert(views_of(self.leaf_hashes@).take(known_count as int)
                =~= views_of(self.leaf_hashes@.take(known_count as int)));
            assert(forall|j: int| 0 <= j < self.leaf_hashes@.len()
                ==> (#[trigger] views_of(self.leaf_hashes@)[j]).len() == 32);
        }
        known.equals(known_root) && target.equals(target_root)
    }
}

} // verus!
