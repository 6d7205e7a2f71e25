//! The in-memory batch one commit stages before it is written atomically.
//!
//! Each store's `put_*` method appends its typed mutations and the
//! artifacts it computed (event accumulator roots, state trees and roots,
//! leaf counts) to the change set; nothing touches the stores themselves
//! until the sealed batch is committed in one step, so a commit that fails
//! validation leaves no trace.

use vstd::prelude::*;
use crate::hash::HashValue;
use crate::sparse_merkle::SparseMerkleTree;
use crate::types::{
    Transaction, TransactionInfo, ContractEvent, WriteSet, LedgerInfoWithSignatures,
};

verus! {

/// The typed mutations of one commit, staged across all stores.
#[derive(Debug)]
pub struct ChangeSet {
    /// The version the batch starts at.
    pub first_version: u64,
    /// One transaction per version of the batch.
    pub txns: Vec<Transaction>,
    /// One write set per version.
    pub write_sets: Vec<WriteSet>,
    /// The events of each version.
    pub events: Vec<Vec<ContractEvent>>,
    /// The event accumulator root of each version, computed when the
    /// events were staged.
    pub event_roots: Vec<HashValue>,
    /// The state tree after each version.
    pub state_trees: Vec<SparseMerkleTree>,
    /// The state root after each version.
    pub state_roots: Vec<HashValue>,
    /// The number of state leaves after each version.
    pub leaf_counts: Vec<u64>,
    /// One transaction info record per version.
    pub txn_infos: Vec<TransactionInfo>,
    /// The ledger info to store, when the batch carries one.
    pub ledger_info: Option<LedgerInfoWithSignatures>,
}

impl ChangeSet {
    /// An empty batch starting at `first_version`.
    pub fn new(first_version: u64) -> (r: Self)
        ensures
            r.first_version == first_version,
            r.txns@.len() == 0,
            r.write_sets@.len() == 0,
            r.events@.len() == 0,
            r.event_roots@.len() == 0,
            r.state_trees@.len() == 0,
            r.state_roots@.len() == 0,
            r.leaf_counts@.len() == 0,
            r.txn_infos@.len() == 0,
            r.ledger_info is None,
    {
        ChangeSet {
            first_version,
            txns: Vec::new(),
            write_sets: Vec::new(),
            events: Vec::new(),
            event_roots: Vec::new(),
            state_trees: Vec::new(),
            state_roots: Vec::new(),
            leaf_counts: Vec::new(),
            txn_infos: Vec::new(),
            ledger_info: None,
        }
    }
}

/// A batch that passed validation and had the ledger counters folded in:
/// the only thing the commit step accepts.
#[derive(Debug)]
pub struct SealedChangeSet {
    /// The staged mutations.
    pub batch: ChangeSet,
    /// The cumulative events-created counter after each version of the
    /// batch.
    pub counters: Vec<u64>,
}

} // verus!
