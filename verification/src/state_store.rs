//! The authenticated state store: one sparse Merkle tree per version, with
//! its root hash and leaf count, serving point reads with proofs.

use vstd::prelude::*;
use crate::hash::{HashValue, placeholder_of, TAG_SPARSE_MERKLE_PLACEHOLDER};
use crate::sparse_merkle::{
    SparseMerkleTree, SparseMerkleProof, smt_proof_ok, leaf_view, lemma_smt_map_finite,
};
use crate::state_store_key::{ResourceKey, ResourceValue, resource_key_hash_of};
use crate::types::{TransactionToCommit, TransactionToCommitV, ttc_views};
use crate::change_set::ChangeSet;
use crate::errors::AptosDbError;
use crate::accumulator::views_of;

verus! {

/// The state map after applying a run of `(raw key, value)` pairs in
/// order: each pair sets the cell at the key's hash.
pub open spec fn apply_states(m: Map<Seq<u8>, Seq<u8>>, states: Seq<(Seq<u8>, Seq<u8>)>) -> Map<Seq<u8>, Seq<u8>>
    decreases states.len(),
{
    if states.len() == 0 {
        m
    } else {
        apply_states(
            m.insert(resource_key_hash_of(states[0].0), states[0].1),
            states.drop_first(),
        )
    }
}

/// Applying an empty run leaves the map unchanged.
pub proof fn lemma_apply_states_empty(m: Map<Seq<u8>, Seq<u8>>, states: Seq<(Seq<u8>, Seq<u8>)>)
    requires
        states.len() == 0,
    ensures
        apply_states(m, states) == m,
{
}

/// Applying one more pair applies the run and then that pair.
pub proof fn lemma_apply_states_push(m: Map<Seq<u8>, Seq<u8>>, states: Seq<(Seq<u8>, Seq<u8>)>, x: (Seq<u8>, Seq<u8>))
    ensures
        apply_states(m, states.push(x)) == apply_states(m, states).insert(
            resource_key_hash_of(x.0),
            x.1,
        ),
    decreases states.len(),
{
    if states.len() == 0 {
        assert(states.push(x)[0] == x);
        let m1 = m.insert(resource_key_hash_of(x.0), x.1);
        assert(apply_states(m, states.push(x)) == apply_states(m1, states.push(x).drop_first()));
        lemma_apply_states_empty(m1, states.push(x).drop_first());
        assert(apply_states(m, states) == m);
    } else {
        assert(states.push(x).drop_first() =~= states.drop_first().push(x));
        assert(states.push(x)[0] == states[0]);
        let m1 = m.insert(resource_key_hash_of(states[0].0), states[0].1);
        assert(apply_states(m, states.push(x)) == apply_states(m1, states.push(x).drop_first()));
        lemma_apply_states_push(m1, states.drop_first(), x);
        assert(apply_states(m, states) == apply_states(m1, states.drop_first()));
    }
}

/// The state map after the first `i` versions of a batch, starting from
/// `m`.
pub open spec fn chain_states(m: Map<Seq<u8>, Seq<u8>>, batch: Seq<TransactionToCommitV>, i: int) -> Map<Seq<u8>, Seq<u8>>
    decreases i,
{
    if i <= 0 {
        m
    } else {
        apply_states(chain_states(m, batch, i - 1), batch[i - 1].account_states)
    }
}

/// When every tree in a run keeps its predecessor's root, all of them
/// carry the base root.
pub proof fn lemma_roots_constant(trees: Seq<SparseMerkleTree>, base: Seq<u8>, n: int)
    requires
        0 <= n <= trees.len(),
        forall|i: int| 0 <= i < trees.len() ==> #[trigger] trees[i].root_hash_of() == (if i == 0 {
            base
        } else {
            trees[i - 1].root_hash_of()
        }),
    ensures
        forall|m: int| 0 <= m < n ==> #[trigger] trees[m].root_hash_of() == base,
    decreases n,
{
    if n > 0 {
        lemma_roots_constant(trees, base, n - 1);
    }
}

/// The store of per-version state trees.
#[derive(Debug)]
pub struct StateStore {
    /// The state tree after each version; the index is the version.
    pub trees: Vec<SparseMerkleTree>,
    /// The root hash of each tree.
    pub roots: Vec<HashValue>,
    /// The number of leaves of each tree.
    pub leaf_counts: Vec<u64>,
}

impl StateStore {
    /// The state map at a version.
    pub open spec fn state_at(self, v: int) -> Map<Seq<u8>, Seq<u8>> {
        self.trees@[v]@
    }

    /// The state before the next batch: the latest tree's map, or the
    /// empty map on an empty ledger.
    pub open spec fn latest_state(self) -> Map<Seq<u8>, Seq<u8>> {
        if self.trees@.len() == 0 {
            Map::empty()
        } else {
            self.state_at(self.trees@.len() - 1)
        }
    }

    /// The state root before the next batch: the latest tree's root, or
    /// the sparse Merkle placeholder on an empty ledger.
    pub open spec fn latest_root(self) -> Seq<u8> {
        if self.trees@.len() == 0 {
            placeholder_of(TAG_SPARSE_MERKLE_PLACEHOLDER)
        } else {
            self.trees@[self.trees@.len() - 1].root_hash_of()
        }
    }

    /// Internal consistency: one root and leaf count per tree, each
    /// matching the tree.
    pub open spec fn wf(self) -> bool {
        &&& self.roots@.len() == self.trees@.len()
        &&& self.leaf_counts@.len() == self.trees@.len()
        &&& (forall|v: int| 0 <= v < self.trees@.len() ==> (#[trigger] self.trees@[v]).wf())
        &&& (forall|v: int| 0 <= v < self.trees@.len()
            ==> (#[trigger] self.roots@[v])@ == self.trees@[v].root_hash_of()
                && self.roots@[v].wf())
        &&& (forall|v: int| 0 <= v < self.trees@.len()
            ==> #[trigger] self.leaf_counts@[v] == self.trees@[v]@.dom().len())
    }

    /// An empty store.
    pub fn new() -> (r: Self)
        ensures
            r.wf(),
            r.trees@.len() == 0,
    {
        StateStore { trees: Vec::new(), roots: Vec::new(), leaf_counts: Vec::new() }
    }

    /// The state root at a version; `NotFound` past the latest.
    pub fn get_root_hash(&self, version: u64) -> (r: Result<HashValue, AptosDbError>)
        requires
            self.wf(),
        ensures
            r is Ok <==> version < self.trees@.len(),
            r matches Ok(h) ==> h@ == self.trees@[version as int].root_hash_of() && h.wf(),
    {
        if version < self.roots.len() as u64 {
            Ok(self.roots[version as usize].clone())
        } else {
            Err(AptosDbError::NotFound)
        }
    }

    /// The state root at a version, or `None` past the latest.
    pub fn get_root_hash_option(&self, version: u64) -> (r: Option<HashValue>)
        requires
            self.wf(),
        ensures
            r is Some <==> version < self.trees@.len(),
            r matches Some(h) ==> h@ == self.trees@[version as int].root_hash_of() && h.wf(),
    {
        if version < self.roots.len() as u64 {
            Some(self.roots[version as usize].clone())
        } else {
            None
        }
    }

    /// The number of state leaves at a version; `NotFound` past the
    /// latest.
    pub fn get_leaf_count(&self, version: u64) -> (r: Result<u64, AptosDbError>)
        requires
            self.wf(),
        ensures
            r is Ok <==> version < self.trees@.len(),
            r matches Ok(c) ==> c == self.state_at(version as int).dom().len(),
    {
        if version < self.leaf_counts.len() as u64 {
            Ok(self.leaf_counts[version as usize])
        } else {
            Err(AptosDbError::NotFound)
        }
    }

    /// The value a key holds at a version (or `None`), with the sparse
    /// Merkle proof against the state root at that version.
    pub fn get_value_with_proof_by_version(&self, state_store_key: &ResourceKey, version: u64) -> (r: Result<
        (Option<ResourceValue>, SparseMerkleProof),
        AptosDbError,
    >)
        requires
            self.wf(),
        ensures
            r is Ok <==> version < self.trees@.len(),
            r matches Ok(p) ==> {
                let m = self.state_at(version as int);
                let kh = resource_key_hash_of(state_store_key@);
                &&& (match p.0 {
                    Some(ref v) => m.dom().contains(kh) && m[kh] == v@,
                    None => !m.dom().contains(kh),
                })
                &&& smt_proof_ok(
                    self.trees@[version as int].root_hash_of(),
                    kh,
                    match p.0 {
                        Some(ref v) => Some(v@),
                        None => None,
                    },
                    leaf_view(p.1.leaf),
                    views_of(p.1.siblings@),
                )
            },
    {
        if version >= self.trees.len() as u64 {
            return Err(AptosDbError::NotFound);
        }
        let kh = state_store_key.hash();
        let (value, pf) = self.trees[version as usize].get_with_proof(&kh);
        Ok((value, pf))
    }

    /// Stages the state updates of a batch: one tree per version, each
    /// applying that version's `(key, value)` pairs to the state before
    /// it, together with its root and leaf count.  Fails only when a leaf
    /// count would no longer fit in a machine word.
    pub fn put_value_sets(&self, txns_to_commit: &Vec<TransactionToCommit>, first_version: u64, cs: &mut ChangeSet) -> (r: Result<
        (),
        AptosDbError,
    >)
        requires
            self.wf(),
            first_version == self.trees@.len(),
            first_version == old(cs).first_version,
            old(cs).state_trees@.len() == 0,
            old(cs).state_roots@.len() == 0,
            old(cs).leaf_counts@.len() == 0,
        ensures
            final(cs).first_version == old(cs).first_version,
            final(cs).txns == old(cs).txns,
            final(cs).write_sets == old(cs).write_sets,
            final(cs).events == old(cs).events,
            final(cs).event_roots == old(cs).event_roots,
            final(cs).txn_infos == old(cs).txn_infos,
            final(cs).ledger_info == old(cs).ledger_info,
            r is Err ==> txns_to_commit@.len() > 0,
            (forall|i: int| 0 <= i < ttc_views(txns_to_commit@).len()
                ==> (#[trigger] ttc_views(txns_to_commit@)[i]).account_states.len() == 0)
                ==> r is Ok,
            r matches Ok(_) ==> (forall|i: int| 0 <= i < ttc_views(txns_to_commit@).len()
                ==> ((#[trigger] ttc_views(txns_to_commit@)[i]).account_states.len() == 0
                    ==> final(cs).state_trees@[i].root_hash_of() == (if i == 0 {
                    self.latest_root()
                } else {
                    final(cs).state_trees@[i - 1].root_hash_of()
                }))),
            r matches Ok(_) ==> {
                let batch = ttc_views(txns_to_commit@);
                let m0 = self.latest_state();
                &&& final(cs).state_trees@.len() == batch.len()
                &&& final(cs).state_roots@.len() == batch.len()
                &&& final(cs).leaf_counts@.len() == batch.len()
                &&& (forall|i: int| 0 <= i < batch.len()
                    ==> (#[trigger] final(cs).state_trees@[i]).wf())
                &&& (forall|i: int| 0 <= i < batch.len()
                    ==> (#[trigger] final(cs).state_trees@[i])@ == chain_states(m0, batch, i + 1))
                &&& (forall|i: int| 0 <= i < batch.len()
                    ==> (#[trigger] final(cs).state_roots@[i])@
                        == final(cs).state_trees@[i].root_hash_of()
                        && final(cs).state_roots@[i].wf())
                &&& (forall|i: int| 0 <= i < batch.len()
                    ==> #[trigger] final(cs).leaf_counts@[i]
                        == final(cs).state_trees@[i]@.dom().len())
            },
    {
        let ghost batch = ttc_views(txns_to_commit@);
        let ghost m0 = self.latest_state();
        let mut cur: SparseMerkleTree = if self.trees.len() == 0 {
            SparseMerkleTree::new()
        } else {
            self.trees[self.trees.len() - 1].clone()
        };
        let mut cur_count: u64 = if self.leaf_counts.len() == 0 {
            0
        } else {
            self.leaf_counts[self.leaf_counts.len() - 1]
        };
        proof {
            assert(cur@ == chain_states(m0, batch, 0));
        }
        let mut i: usize = 0;
        while i < txns_to_commit.len()
            invariant
                self.wf(),
                i <= txns_to_commit@.len(),
                batch == ttc_views(txns_to_commit@),
                m0 == self.latest_state(),
                cur.wf(),
                cur@ == chain_states(m0, batch, i as int),
                cur_count == cur@.dom().len(),
                cur.root_hash_of() == (if i == 0 {
                    self.latest_root()
                } else {
                    cs.state_trees@[i - 1].root_hash_of()
                }),
                forall|m: int| 0 <= m < i
                    ==> ((#[trigger] batch[m]).account_states.len() == 0
                        ==> cs.state_trees@[m].root_hash_of() == (if m == 0 {
                        self.latest_root()
                    } else {
                        cs.state_trees@[m - 1].root_hash_of()
                    })),
                cs.first_version == old(cs).first_version,
                cs.txns == old(cs).txns,
                cs.write_sets == old(cs).write_sets,
                cs.events == old(cs).events,
                cs.event_roots == old(cs).event_roots,
                cs.txn_infos == old(cs).txn_infos,
                cs.ledger_info == old(cs).ledger_info,
                cs.state_trees@.len() == i,
                cs.state_roots@.len() == i,
                cs.leaf_counts@.len() == i,
                forall|k: int| 0 <= k < i ==> (#[trigger] cs.state_trees@[k]).wf(),
                forall|k: int| 0 <= k < i
                    ==> (#[trigger] cs.state_trees@[k])@ == chain_states(m0, batch, k + 1),
                forall|k: int| 0 <= k < i
                    ==> (#[trigger] cs.state_roots@[k])@ == cs.state_trees@[k].root_hash_of()
                        && cs.state_roots@[k].wf(),
                forall|k: int| 0 <= k < i
                    ==> #[trigger] cs.leaf_counts@[k] == cs.state_trees@[k]@.dom().len(),
            decreases txns_to_commit@.len() - i,
        {
            let states = &txns_to_commit[i].account_states;
            let ghost sv = batch[i as int].account_states;
            proof {
                assert(batch[i as int] == txns_to_commit@[i as int]@);
            }
            let mut j: usize = 0;
            while j < states.len()
                invariant
                    txns_to_commit@.len() > 0,
                    i < txns_to_commit@.len(),
                    batch == ttc_views(txns_to_commit@),
                    sv == batch[i as int].account_states,
                    j <= states@.len(),
                    sv == states@.map_values(|p: (ResourceKey, ResourceValue)| (p.0@, p.1@)),
                    sv.len() == 0 ==> cur.root_hash_of() == (if i == 0 {
                        self.latest_root()
                    } else {
                        cs.state_trees@[i - 1].root_hash_of()
                    }),
                    cur.wf(),
                    cur@ == apply_states(chain_states(m0, batch, i as int), sv.take(j as int)),
                    cur_count == cur@.dom().len(),
                    cs.first_version == old(cs).first_version,
                    cs.txns == old(cs).txns,
                    cs.write_sets == old(cs).write_sets,
                    cs.events == old(cs).events,
                    cs.event_roots == old(cs).event_roots,
                    cs.txn_infos == old(cs).txn_infos,
                    cs.ledger_info == old(cs).ledger_info,
                decreases states@.len() - j,
            {
                let key_hash = states[j].0.hash();
                let (existing, _pf) = cur.get_with_proof(&key_hash);
                let present = existing.is_some();
                if !present {
                    if cur_count == 0xffff_ffff_ffff_ffffu64 {
                        return Err(AptosDbError::Corruption);
                    }
                    cur_count = cur_count + 1;
                }
                let ghost prenode = cur.root;
                let ghost pre = cur@;
                cur = cur.insert(&key_hash, states[j].1.clone());
                proof {
                    lemma_apply_states_push(chain_states(m0, batch, i as int), sv.take(j as int), sv[j as int]);
                    assert(sv.take(j as int + 1) =~= sv.take(j as int).push(sv[j as int]));
                    assert(sv[j as int] == (states@[j as int].0@, states@[j as int].1@));
                    lemma_smt_map_finite(prenode);
                    assert(pre.dom().finite());
                    assert(cur@.dom() =~= pre.dom().insert(resource_key_hash_of(states@[j as int].0@)));
                    vstd::set::axiom_set_insert_len(pre.dom(), resource_key_hash_of(states@[j as int].0@));
                }
                j = j + 1;
            }
            let root = cur.root_hash();
            let staged = cur.clone();
            proof {
                assert(sv.take(sv.len() as int) =~= sv);
                assert(cur@ == chain_states(m0, batch, i as int + 1));
                assert(staged.root_hash_of() == cur.root_hash_of());
            }
            cs.state_trees.push(staged);
            cs.state_roots.push(root);
            cs.leaf_counts.push(cur_count);
            i = i + 1;
        }
        Ok(())
    }

    /// Applies a committed batch: appends its per-version trees, roots and
    /// leaf counts.
    pub fn apply(&mut self, mut trees: Vec<SparseMerkleTree>, mut roots: Vec<HashValue>, mut counts: Vec<u64>)
        requires
            old(self).wf(),
            trees@.len() == roots@.len() == counts@.len(),
            forall|i: int| 0 <= i < trees@.len() ==> (#[trigger] trees@[i]).wf(),
            forall|i: int| 0 <= i < trees@.len()
                ==> (#[trigger] roots@[i])@ == trees@[i].root_hash_of() && roots@[i].wf(),
            forall|i: int| 0 <= i < trees@.len()
                ==> #[trigger] counts@[i] == trees@[i]@.dom().len(),
        ensures
            final(self).wf(),
            final(self).trees@ == old(self).trees@ + trees@,
            final(self).roots@ == old(self).roots@ + roots@,
            final(self).leaf_counts@ == old(self).leaf_counts@ + counts@,
    {
        let ghost n = self.trees@.len();
        let ghost tv = trees@;
        self.trees.append(&mut trees);
        self.roots.append(&mut roots);
        self.leaf_counts.append(&mut counts);
        proof {
            assert forall|v: int| 0 <= v < self.trees@.len() implies (#[trigger] self.trees@[v]).wf()
                && self.roots@[v]@ == self.trees@[v].root_hash_of() && self.roots@[v].wf()
                && self.leaf_counts@[v] == self.trees@[v]@.dom().len() by {
                if v < n {
                    assert(self.trees@[v] == old(self).trees@[v]);
                    assert(self.roots@[v] == old(self).roots@[v]);
                    assert(self.leaf_counts@[v] == old(self).leaf_counts@[v]);
                } else {
                    assert(self.trees@[v] == tv[v - n]);
                }
            }
        }
    }
}

} // verus!

verus! {

use crate::sparse_merkle::SmtNode;

/// A proof for a run of adjacent state leaves: one sparse Merkle proof
/// per leaf in the chunk.
#[derive(Debug)]
pub struct SparseMerkleRangeProof {
    pub proofs: Vec<SparseMerkleProof>,
}

/// A chunk of state leaves at one version, with the proofs tying each to
/// the chunk's root.
#[derive(Debug)]
pub struct ResourceValueChunkWithProof {
    /// The index of the chunk's first leaf, in key order.
    pub first_index: u64,
    /// The index of the chunk's last leaf.
    pub last_index: u64,
    /// The key hash of the first leaf.
    pub first_key: HashValue,
    /// The key hash of the last leaf.
    pub last_key: HashValue,
    /// The leaves: key hash and value.
    pub raw_values: Vec<(HashValue, ResourceValue)>,
    /// One proof per leaf.
    pub proof: SparseMerkleRangeProof,
    /// The root the proofs verify against.
    pub root_hash: HashValue,
}

impl SmtNode {
    /// The tree's leaves in key order, leftmost path first: one entry per
    /// stored key.
    pub fn collect_leaves(&self, Ghost(path): Ghost<Seq<bool>>) -> (r: Vec<(HashValue, ResourceValue)>)
        requires
            self.wf(path),
        ensures
            r@.len() == self.as_map().dom().len(),
            forall|i: int| 0 <= i < r@.len() ==> {
                &&& self.as_map().dom().contains((#[trigger] r@[i]).0@)
                &&& self.as_map()[r@[i].0@] == r@[i].1@
            },
        decreases *self,
    {
        match self {
            SmtNode::Empty => {
                proof {
                    assert(self.as_map().dom() =~= Set::<Seq<u8>>::empty());
                }
                Vec::new()
            },
            SmtNode::Leaf { key_hash, value } => {
                let mut r: Vec<(HashValue, ResourceValue)> = Vec::new();
                r.push((key_hash.clone(), value.clone()));
                proof {
                    assert(self.as_map() =~= Map::<Seq<u8>, Seq<u8>>::empty().insert(
                        key_hash@,
                        value@,
                    ));
                    assert(Map::<Seq<u8>, Seq<u8>>::empty().dom() =~= Set::<Seq<u8>>::empty());
                    vstd::set::axiom_set_insert_len(Set::<Seq<u8>>::empty(), key_hash@);
                    assert(self.as_map().dom() =~= Set::<Seq<u8>>::empty().insert(key_hash@));
                }
                r
            },
            SmtNode::Internal { left, right } => {
                let mut r = left.collect_leaves(Ghost(path.push(false)));
                let mut rr = right.collect_leaves(Ghost(path.push(true)));
                let ghost nl = r@.len();
                let ghost lv = r@;
                let ghost rv = rr@;
                r.append(&mut rr);
                proof {
                    crate::sparse_merkle::lemma_smt_keys_match(**left, path.push(false));
                    crate::sparse_merkle::lemma_smt_keys_match(**right, path.push(true));
                    crate::sparse_merkle::lemma_smt_map_finite(**left);
                    crate::sparse_merkle::lemma_smt_map_finite(**right);
                    let dl = left.as_map().dom();
                    let dr = right.as_map().dom();
                    assert forall|k: Seq<u8>| dl.contains(k) implies !dr.contains(k) by {
                        if dr.contains(k) {
                            assert(crate::sparse_merkle::matches_path(k, path.push(false)));
                            assert(crate::sparse_merkle::matches_path(k, path.push(true)));
                            assert(crate::sparse_merkle::bit_of(k, path.len() as int)
                                == path.push(false)[path.len() as int]);
                            assert(crate::sparse_merkle::bit_of(k, path.len() as int)
                                == path.push(true)[path.len() as int]);
                        }
                    }
                    assert(dl.disjoint(dr));
                    vstd::set_lib::lemma_set_disjoint_lens(dl, dr);
                    assert(self.as_map().dom() =~= dl + dr);
                    assert forall|i: int| 0 <= i < r@.len() implies {
                        &&& self.as_map().dom().contains((#[trigger] r@[i]).0@)
                        &&& self.as_map()[r@[i].0@] == r@[i].1@
                    } by {
                        if i < nl {
                            assert(r@[i] == lv[i]);
                            // The key sits on the left, so its bit at this
                            // depth is clear and the right subtree cannot
                            // also hold it.
                            if right.as_map().dom().contains(lv[i].0@) {
                                assert(crate::sparse_merkle::matches_path(
                                    lv[i].0@,
                                    path.push(false),
                                ));
                                assert(crate::sparse_merkle::matches_path(
                                    lv[i].0@,
                                    path.push(true),
                                ));
                                assert(crate::sparse_merkle::bit_of(lv[i].0@, path.len() as int)
                                    == path.push(false)[path.len() as int]);
                                assert(crate::sparse_merkle::bit_of(lv[i].0@, path.len() as int)
                                    == path.push(true)[path.len() as int]);
                                assert(false);
                            }
                        } else {
                            assert(r@[i] == rv[i - nl]);
                        }
                    }
                }
                r
            },
        }
    }
}

impl StateStore {
    /// A chunk of `chunk_size` state leaves at `version` starting at
    /// `first_index` in key order, each value under its own proof against
    /// the state root at that version.
    pub fn get_value_chunk_with_proof(&self, version: u64, first_index: u64, chunk_size: u64) -> (r: Result<
        ResourceValueChunkWithProof,
        AptosDbError,
    >)
        requires
            self.wf(),
        ensures
            r is Ok <==> version < self.trees@.len() && chunk_size >= 1 && first_index
                + chunk_size <= self.state_at(version as int).dom().len(),
            r matches Ok(c) ==> {
                &&& version < self.trees@.len()
                &&& c.raw_values@.len() == chunk_size
                &&& c.first_index == first_index
                &&& c.last_index == first_index + chunk_size - 1
                &&& c.root_hash@ == self.trees@[version as int].root_hash_of()
                &&& c.proof.proofs@.len() == chunk_size
                &&& (forall|i: int| 0 <= i < c.raw_values@.len() ==> {
                    let m = self.state_at(version as int);
                    &&& m.dom().contains((#[trigger] c.raw_values@[i]).0@)
                    &&& m[c.raw_values@[i].0@] == c.raw_values@[i].1@
                })
                &&& (forall|i: int| 0 <= i < c.raw_values@.len() ==> smt_proof_ok(
                    self.trees@[version as int].root_hash_of(),
                    (#[trigger] c.raw_values@[i]).0@,
                    Some(c.raw_values@[i].1@),
                    leaf_view(c.proof.proofs@[i].leaf),
                    views_of(c.proof.proofs@[i].siblings@),
                ))
            },
    {
        if version >= self.trees.len() as u64 {
            return Err(AptosDbError::NotFound);
        }
        if chunk_size == 0 {
            return Err(AptosDbError::BadRange);
        }
        let tree = &self.trees[version as usize];
        proof {
            assert(self.trees@[version as int].wf());
        }
        let leaves = tree.root.collect_leaves(Ghost(Seq::empty()));
        if first_index >= leaves.len() as u64
            || chunk_size > leaves.len() as u64 - first_index {
            return Err(AptosDbError::BadRange);
        }
        let root = self.roots[version as usize].clone();
        let nn = self.trees.len();
        let ln = leaves.len();
        let mut raw_values: Vec<(HashValue, ResourceValue)> = Vec::new();
        let mut proofs: Vec<SparseMerkleProof> = Vec::new();
        let mut i: u64 = 0;
        while i < chunk_size
            invariant
                self.wf(),
                version < self.trees@.len(),
                nn == self.trees@.len() <= usize::MAX,
                ln == leaves@.len() <= usize::MAX,
                i <= chunk_size,
                first_index + chunk_size <= leaves@.len(),
                raw_values@.len() == i,
                proofs@.len() == i,
                forall|j: int| 0 <= j < leaves@.len() ==> {
                    &&& self.state_at(version as int).dom().contains(
                        (#[trigger] leaves@[j]).0@,
                    )
                    &&& self.state_at(version as int)[leaves@[j].0@] == leaves@[j].1@
                },
                forall|j: int| 0 <= j < i ==> {
                    &&& self.state_at(version as int).dom().contains(
                        (#[trigger] raw_values@[j]).0@,
                    )
                    &&& self.state_at(version as int)[raw_values@[j].0@] == raw_values@[j].1@
                },
                forall|j: int| 0 <= j < i ==> smt_proof_ok(
                    self.trees@[version as int].root_hash_of(),
                    (#[trigger] raw_values@[j]).0@,
                    Some(raw_values@[j].1@),
                    leaf_view(proofs@[j].leaf),
                    views_of(proofs@[j].siblings@),
                ),
            decreases chunk_size - i,
        {
            let idx = (first_index + i) as usize;
            let key_hash = leaves[idx].0.clone();
            proof {
                assert(self.trees@[version as int].wf());
                assert(self.trees@[version as int].root.wf(Seq::empty()));
                crate::sparse_merkle::lemma_smt_keys_match(
                    self.trees@[version as int].root,
                    Seq::empty(),
                );
                assert(self.state_at(version as int).dom().contains(leaves@[idx as int].0@));
                assert(key_hash.wf());
            }
            let (value, pf) = self.trees[version as usize].get_with_proof(&key_hash);
            let value = match value {
                Some(v) => v,
                None => {
                    return Err(AptosDbError::Corruption);
                },
            };
            raw_values.push((key_hash, value));
            proofs.push(pf);
            i = i + 1;
        }
        let first_key = raw_values[0].0.clone();
        let last_key = raw_values[raw_values.len() - 1].0.clone();
        Ok(ResourceValueChunkWithProof {
            first_index,
            last_index: first_index + chunk_size - 1,
            first_key,
            last_key,
            raw_values,
            proof: SparseMerkleRangeProof { proofs },
            root_hash: root,
        })
    }
}

/// A streaming importer of a state snapshot: chunks of `(key hash,
/// value)` pairs accumulate into a tree, and finishing checks the root
/// against the expected one.
#[derive(Debug)]
pub struct StateSnapshotReceiver {
    /// The version the snapshot restores.
    pub version: u64,
    /// The root the finished tree must hash to.
    pub expected_root_hash: HashValue,
    /// The tree built so far.
    pub tree: SparseMerkleTree,
}

impl StateSnapshotReceiver {
    /// Starts an empty snapshot for `version`.
    pub fn new(version: u64, expected_root_hash: HashValue) -> (r: Self)
        ensures
            r.version == version,
            r.expected_root_hash@ == expected_root_hash@,
            r.tree@ == Map::<Seq<u8>, Seq<u8>>::empty(),
            r.tree.wf(),
    {
        StateSnapshotReceiver { version, expected_root_hash, tree: SparseMerkleTree::new() }
    }

    /// Feeds one chunk of leaves into the snapshot.
    pub fn add_chunk(&mut self, chunk: Vec<(HashValue, ResourceValue)>)
        requires
            old(self).tree.wf(),
            forall|i: int| 0 <= i < chunk@.len() ==> (#[trigger] chunk@[i]).0.wf(),
        ensures
            final(self).tree.wf(),
            final(self).version == old(self).version,
            final(self).expected_root_hash == old(self).expected_root_hash,
    {
        let mut i: usize = 0;
        let n = chunk.len();
        while i < n
            invariant
                n == chunk@.len(),
                i <= n,
                self.tree.wf(),
                self.version == old(self).version,
                self.expected_root_hash == old(self).expected_root_hash,
                forall|j: int| 0 <= j < chunk@.len() ==> (#[trigger] chunk@[j]).0.wf(),
            decreases n - i,
        {
            let mut t = SparseMerkleTree::new();
            std::mem::swap(&mut t, &mut self.tree);
            let t = t.insert(&chunk[i].0, chunk[i].1.clone());
            self.tree = t;
            i = i + 1;
        }
    }

    /// Finishes the snapshot: succeeds exactly when the built tree hashes
    /// to the expected root, returning the verified tree.
    pub fn finish(self) -> (r: Result<SparseMerkleTree, AptosDbError>)
        requires
            self.tree.wf(),
        ensures
            r is Ok <==> self.tree.root_hash_of() == self.expected_root_hash@,
            r matches Ok(t) ==> t == self.tree,
    {
        let root = self.tree.root_hash();
        if root.equals(&self.expected_root_hash) {
            Ok(self.tree)
        } else {
            Err(AptosDbError::ProofInvalid)
        }
    }
}

} // verus!
