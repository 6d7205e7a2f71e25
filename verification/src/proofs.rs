//! Composite proof objects served by the read paths: a transaction info
//! record under an accumulator proof, a state value under both that and a
//! sparse Merkle proof, event proofs, epoch change proofs, and the
//! bootstrapping snapshots assembled from them.

use vstd::prelude::*;
use crate::hash::{HashValue, TAG_ACCUMULATOR_INTERNAL, TAG_EVENT_ACCUMULATOR_INTERNAL};
use crate::accumulator::{AccumulatorProof, AccumulatorConsistencyProof, acc_proof_ok, views_of};
use crate::sparse_merkle::{SparseMerkleProof, smt_proof_ok, leaf_view};
use crate::state_store_key::{ResourceKey, ResourceValue, resource_key_hash_of};
use crate::types::{
    Transaction, TransactionInfo, ContractEvent, WriteSet, LedgerInfo, LedgerInfoWithSignatures,
    transaction_info_hash_of, event_hash_of,
};
use crate::errors::AptosDbError;

verus! {

/// A transaction info record together with the accumulator proof tying its
/// hash, as the leaf at its version, to a ledger root.
#[derive(Debug)]
pub struct TransactionInfoWithProof {
    pub transaction_info: TransactionInfo,
    pub ledger_info_to_transaction_info_proof: AccumulatorProof,
}

/// What a verified `TransactionInfoWithProof` establishes: the record's
/// hash is the accumulator leaf at `version` under `ledger_root`.
pub open spec fn txn_info_proof_ok(
    ledger_root: Seq<u8>,
    version: u64,
    info: crate::types::TransactionInfoV,
    sibs: Seq<Seq<u8>>,
) -> bool {
    acc_proof_ok(
        TAG_ACCUMULATOR_INTERNAL,
        ledger_root,
        transaction_info_hash_of(info),
        version as nat,
        sibs,
    )
}

impl TransactionInfoWithProof {
    /// Checks the accumulator proof against a ledger root and the version
    /// the record claims.
    pub fn verify(&self, ledger_root: &HashValue, version: u64) -> (r: Result<(), AptosDbError>)
        ensures
            r is Ok <==> txn_info_proof_ok(
                ledger_root@,
                version,
                self.transaction_info@,
                views_of(self.ledger_info_to_transaction_info_proof.siblings@),
            ),
    {
        let leaf = self.transaction_info.hash();
        if self.ledger_info_to_transaction_info_proof.verify(
            TAG_ACCUMULATOR_INTERNAL,
            ledger_root,
            &leaf,
            version,
        ) {
            Ok(())
        } else {
            Err(AptosDbError::ProofInvalid)
        }
    }
}

/// The proof returned with an event: the transaction info of the event's
/// version under the ledger accumulator, and the event's inclusion proof in
/// that version's event accumulator.
#[derive(Debug)]
pub struct EventProof {
    pub transaction_info_with_proof: TransactionInfoWithProof,
    pub transaction_info_to_event_proof: AccumulatorProof,
}

impl EventProof {
    /// Assembles an event proof.
    pub fn new(
        transaction_info_with_proof: TransactionInfoWithProof,
        transaction_info_to_event_proof: AccumulatorProof,
    ) -> (r: Self)
        ensures
            r.transaction_info_with_proof == transaction_info_with_proof,
            r.transaction_info_to_event_proof == transaction_info_to_event_proof,
    {
        EventProof { transaction_info_with_proof, transaction_info_to_event_proof }
    }

    /// Checks that `event` sits at `event_index` of the event accumulator of
    /// `version`, whose transaction info sits at `version` under
    /// `ledger_root`.
    pub fn verify(&self, ledger_root: &HashValue, event: &ContractEvent, version: u64, event_index: u64) -> (r: Result<(), AptosDbError>)
        ensures
            r is Ok <==> {
                &&& txn_info_proof_ok(
                    ledger_root@,
                    version,
                    self.transaction_info_with_proof.transaction_info@,
                    views_of(
                        self.transaction_info_with_proof.ledger_info_to_transaction_info_proof.siblings@,
                    ),
                )
                &&& acc_proof_ok(
                    TAG_EVENT_ACCUMULATOR_INTERNAL,
                    self.transaction_info_with_proof.transaction_info@.event_root_hash,
                    event_hash_of(event@),
                    event_index as nat,
                    views_of(self.transaction_info_to_event_proof.siblings@),
                )
            },
    {
        let txn_info_ok = self.transaction_info_with_proof.verify(ledger_root, version);
        if txn_info_ok.is_err() {
            return Err(AptosDbError::ProofInvalid);
        }
        let event_leaf = event.hash();
        if self.transaction_info_to_event_proof.verify(
            TAG_EVENT_ACCUMULATOR_INTERNAL,
            &self.transaction_info_with_proof.transaction_info.event_root_hash,
            &event_leaf,
            event_index,
        ) {
            Ok(())
        } else {
            Err(AptosDbError::ProofInvalid)
        }
    }
}

/// An event at a version, with the proof anchoring it to the ledger root.
#[derive(Debug)]
pub struct EventWithProof {
    pub transaction_version: u64,
    pub event_index: u64,
    pub event: ContractEvent,
    pub proof: EventProof,
}

impl EventWithProof {
    /// Assembles an event with its proof.
    pub fn new(transaction_version: u64, event_index: u64, event: ContractEvent, proof: EventProof) -> (r: Self)
        ensures
            r.transaction_version == transaction_version,
            r.event_index == event_index,
            r.event@ == event@,
            r.proof == proof,
    {
        EventWithProof { transaction_version, event_index, event, proof }
    }
}

/// The surrounding events proving what held at a version: the last event at
/// or before it, and the first one after it, either possibly absent.
#[derive(Debug)]
pub struct EventByVersionWithProof {
    pub lower_bound_incl: Option<EventWithProof>,
    pub upper_bound_excl: Option<EventWithProof>,
}

impl EventByVersionWithProof {
    /// Assembles the pair of bounding events.
    pub fn new(lower_bound_incl: Option<EventWithProof>, upper_bound_excl: Option<EventWithProof>) -> (r: Self)
        ensures
            r.lower_bound_incl == lower_bound_incl,
            r.upper_bound_excl == upper_bound_excl,
    {
        EventByVersionWithProof { lower_bound_incl, upper_bound_excl }
    }
}

/// The proof returned with a state value: the transaction info of the
/// queried version under the ledger accumulator, and the sparse Merkle
/// proof of the value under that record's state root.
#[derive(Debug)]
pub struct ResourceValueProof {
    pub transaction_info_with_proof: TransactionInfoWithProof,
    pub transaction_info_to_value_proof: SparseMerkleProof,
}

impl ResourceValueProof {
    /// Assembles a state value proof.
    pub fn new(
        transaction_info_with_proof: TransactionInfoWithProof,
        transaction_info_to_value_proof: SparseMerkleProof,
    ) -> (r: Self)
        ensures
            r.transaction_info_with_proof == transaction_info_with_proof,
            r.transaction_info_to_value_proof == transaction_info_to_value_proof,
    {
        ResourceValueProof { transaction_info_with_proof, transaction_info_to_value_proof }
    }

    /// Checks the two proofs: the transaction info at `version` against the
    /// ledger info's accumulator root, and `value` for `key_hash` against
    /// that record's state root.
    pub fn verify(&self, ledger_info: &LedgerInfo, version: u64, key_hash: &HashValue, value: Option<&ResourceValue>) -> (r: Result<(), AptosDbError>)
        requires
            key_hash.wf(),
        ensures
            r is Ok <==> {
                &&& txn_info_proof_ok(
                    ledger_info@.transaction_accumulator_hash,
                    version,
                    self.transaction_info_with_proof.transaction_info@,
                    views_of(
                        self.transaction_info_with_proof.ledger_info_to_transaction_info_proof.siblings@,
                    ),
                )
                &&& smt_proof_ok(
                    self.transaction_info_with_proof.transaction_info@.state_root_hash,
                    key_hash@,
                    match value {
                        Some(v) => Some(v@),
                        None => None,
                    },
                    leaf_view(self.transaction_info_to_value_proof.leaf),
                    views_of(self.transaction_info_to_value_proof.siblings@),
                )
            },
    {
        let txn_info_ok = self.transaction_info_with_proof.verify(
            &ledger_info.transaction_accumulator_hash,
            version,
        );
        if txn_info_ok.is_err() {
            return Err(AptosDbError::ProofInvalid);
        }
        if self.transaction_info_to_value_proof.verify(
            &self.transaction_info_with_proof.transaction_info.state_root_hash,
            key_hash,
            value,
        ) {
            Ok(())
        } else {
            Err(AptosDbError::ProofInvalid)
        }
    }
}

/// A state value (or its absence) at a version, with the proof a client
/// verifies against a ledger info it trusts.
#[derive(Debug)]
pub struct ResourceValueWithProof {
    /// The transaction version at which this value is seen.
    pub version: u64,
    /// The value, or `None` when the key holds nothing at this version.
    pub value: Option<ResourceValue>,
    /// The proof anchoring the value to the ledger.
    pub proof: ResourceValueProof,
}

impl ResourceValueWithProof {
    /// Assembles a state value with its proof.
    pub fn new(version: u64, value: Option<ResourceValue>, proof: ResourceValueProof) -> (r: Self)
        ensures
            r.version == version,
            r.value == value,
            r.proof == proof,
    {
        ResourceValueWithProof { version, value, proof }
    }

    /// Verifies the value and proof carried by `self`: the value is the one
    /// `state_store_key` held at `version` in the ledger `ledger_info`
    /// attests to.
    pub fn verify(&self, ledger_info: &LedgerInfo, version: u64, state_store_key: ResourceKey) -> (r: Result<(), AptosDbError>)
        ensures
            r is Ok <==> {
                &&& self.version == version
                &&& txn_info_proof_ok(
                    ledger_info@.transaction_accumulator_hash,
                    version,
                    self.proof.transaction_info_with_proof.transaction_info@,
                    views_of(
                        self.proof.transaction_info_with_proof.ledger_info_to_transaction_info_proof.siblings@,
                    ),
                )
                &&& smt_proof_ok(
                    self.proof.transaction_info_with_proof.transaction_info@.state_root_hash,
                    resource_key_hash_of(state_store_key@),
                    match self.value {
                        Some(ref v) => Some(v@),
                        None => None,
                    },
                    leaf_view(self.proof.transaction_info_to_value_proof.leaf),
                    views_of(self.proof.transaction_info_to_value_proof.siblings@),
                )
            },
    {
        if self.version != version {
            return Err(AptosDbError::Corruption);
        }
        let key_hash = state_store_key.hash();
        self.proof.verify(ledger_info, version, &key_hash, self.value.as_ref())
    }
}

/// A transaction and, when asked for, its events, under the accumulator
/// proof of its transaction info.
#[derive(Debug)]
pub struct TransactionWithProof {
    pub version: u64,
    pub transaction: Transaction,
    pub events: Option<Vec<ContractEvent>>,
    pub proof: TransactionInfoWithProof,
}

/// A consecutive run of transaction info records, each under its own
/// accumulator proof against the same ledger root.
#[derive(Debug)]
pub struct TransactionInfoListWithProof {
    pub proofs: Vec<AccumulatorProof>,
    pub transaction_infos: Vec<TransactionInfo>,
}

/// A consecutive run of transactions with their infos and proofs, served to
/// a syncing node.
#[derive(Debug)]
pub struct TransactionListWithProof {
    pub transactions: Vec<Transaction>,
    pub events: Option<Vec<Vec<ContractEvent>>>,
    pub first_transaction_version: Option<u64>,
    pub proof: TransactionInfoListWithProof,
}

impl TransactionListWithProof {
    /// The empty list: what a query past the ledger's end returns.
    pub fn new_empty() -> (r: Self)
        ensures
            r.transactions@.len() == 0,
            r.events is None,
            r.first_transaction_version is None,
            r.proof.transaction_infos@.len() == 0,
            r.proof.proofs@.len() == 0,
    {
        TransactionListWithProof {
            transactions: Vec::new(),
            events: None,
            first_transaction_version: None,
            proof: TransactionInfoListWithProof { proofs: Vec::new(), transaction_infos: Vec::new() },
        }
    }
}

/// What one transaction produced: its write set, events, gas and status.
#[derive(Debug)]
pub struct TransactionOutput {
    pub write_set: WriteSet,
    pub events: Vec<ContractEvent>,
    pub gas_used: u64,
    pub status: u64,
}

/// A consecutive run of transactions paired with their outputs, under the
/// same proofs as a transaction list.
#[derive(Debug)]
pub struct TransactionOutputListWithProof {
    pub transactions_and_outputs: Vec<(Transaction, TransactionOutput)>,
    pub first_transaction_output_version: Option<u64>,
    pub proof: TransactionInfoListWithProof,
}

impl TransactionOutputListWithProof {
    /// The empty list: what a query past the ledger's end returns.
    pub fn new_empty() -> (r: Self)
        ensures
            r.transactions_and_outputs@.len() == 0,
            r.first_transaction_output_version is None,
            r.proof.transaction_infos@.len() == 0,
            r.proof.proofs@.len() == 0,
    {
        TransactionOutputListWithProof {
            transactions_and_outputs: Vec::new(),
            first_transaction_output_version: None,
            proof: TransactionInfoListWithProof { proofs: Vec::new(), transaction_infos: Vec::new() },
        }
    }
}

/// An account's transactions, each with its proof.
#[derive(Debug)]
pub struct AccountTransactionsWithProof(pub Vec<TransactionWithProof>);

impl AccountTransactionsWithProof {
    /// Wraps the gathered transactions.
    pub fn new(txns: Vec<TransactionWithProof>) -> (r: Self)
        ensures
            r.0 == txns,
    {
        AccountTransactionsWithProof(txns)
    }
}

/// The epoch-ending ledger infos a client replays to cross epochs, and
/// whether more remain past this page.
#[derive(Debug)]
pub struct EpochChangeProof {
    pub ledger_info_with_sigs: Vec<LedgerInfoWithSignatures>,
    pub more: bool,
}

impl EpochChangeProof {
    /// Wraps a page of epoch-ending ledger infos.
    pub fn new(ledger_info_with_sigs: Vec<LedgerInfoWithSignatures>, more: bool) -> (r: Self)
        ensures
            r.ledger_info_with_sigs == ledger_info_with_sigs,
            r.more == more,
    {
        EpochChangeProof { ledger_info_with_sigs, more }
    }
}

/// Everything a client needs to catch up to a ledger info: the info itself,
/// the epoch changes on the way, and a consistency proof from what the
/// client already trusts.
#[derive(Debug)]
pub struct StateProof {
    pub ledger_info_with_sigs: LedgerInfoWithSignatures,
    pub epoch_changes: EpochChangeProof,
    pub consistency_proof: AccumulatorConsistencyProof,
}

impl StateProof {
    /// Assembles a state proof.
    pub fn new(
        ledger_info_with_sigs: LedgerInfoWithSignatures,
        epoch_changes: EpochChangeProof,
        consistency_proof: AccumulatorConsistencyProof,
    ) -> (r: Self)
        ensures
            r.ledger_info_with_sigs == ledger_info_with_sigs,
            r.epoch_changes == epoch_changes,
            r.consistency_proof == consistency_proof,
    {
        StateProof { ledger_info_with_sigs, epoch_changes, consistency_proof }
    }
}

/// The shape of the ledger at startup: how many transactions it holds, the
/// accumulator's leaf hashes, and the state root after the last one.
#[derive(Debug)]
pub struct TreeState {
    pub num_transactions: u64,
    pub ledger_accumulator_leaf_hashes: Vec<HashValue>,
    pub account_state_root_hash: HashValue,
}

impl TreeState {
    /// Assembles a tree state.
    pub fn new(
        num_transactions: u64,
        ledger_accumulator_leaf_hashes: Vec<HashValue>,
        account_state_root_hash: HashValue,
    ) -> (r: Self)
        ensures
            r.num_transactions == num_transactions,
            r.ledger_accumulator_leaf_hashes == ledger_accumulator_leaf_hashes,
            r.account_state_root_hash@ == account_state_root_hash@,
    {
        TreeState { num_transactions, ledger_accumulator_leaf_hashes, account_state_root_hash }
    }
}

/// The bootstrapping snapshot read at open: the latest ledger info, the
/// validator set in force, and the committed tree state.
#[derive(Debug)]
pub struct StartupInfo {
    pub latest_ledger_info: LedgerInfoWithSignatures,
    pub latest_epoch_state: Option<Vec<u8>>,
    pub committed_tree_state: TreeState,
}

} // verus!
