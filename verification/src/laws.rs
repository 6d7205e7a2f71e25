//! The crate-wide laws: statements that relate several operations, proved
//! once here over the stores' views.

use vstd::prelude::*;
use crate::AptosDB;
use crate::types::TransactionToCommitV;
use crate::event_store::event_root_of;

verus! {

/// Committing a batch and reading it back returns what was committed:
/// after a commit that appended `batch` at `first_version`, the
/// transaction, transaction info and events stored at `first_version + i`
/// are exactly those of the batch's `i`-th entry.
pub proof fn lemma_round_trip_commit_read(
    pre: AptosDB,
    post: AptosDB,
    batch: Seq<TransactionToCommitV>,
    first_version: u64,
)
    requires
        first_version == pre.num_txns(),
        post.transaction_store.txns_v() == pre.transaction_store.txns_v() + batch.map_values(
            |t: TransactionToCommitV| t.transaction,
        ),
        post.ledger_store.infos_v() == pre.ledger_store.infos_v() + batch.map_values(
            |t: TransactionToCommitV| t.transaction_info,
        ),
        post.event_store.events_v() == pre.event_store.events_v() + batch.map_values(
            |t: TransactionToCommitV| t.events,
        ),
        pre.wf(),
    ensures
        forall|i: int| 0 <= i < batch.len() ==> {
            &&& post.transaction_store.txns_v()[first_version + i]
                == (#[trigger] batch[i]).transaction
            &&& post.ledger_store.infos_v()[first_version + i] == batch[i].transaction_info
            &&& post.event_store.events_v()[first_version + i] == batch[i].events
        },
{
    assert(pre.transaction_store.txns_v().len() == first_version);
    assert(pre.ledger_store.infos_v().len() == first_version);
    assert(pre.event_store.events_v().len() == first_version);
    assert forall|i: int| 0 <= i < batch.len() implies {
        &&& post.transaction_store.txns_v()[first_version + i]
            == (#[trigger] batch[i]).transaction
        &&& post.ledger_store.infos_v()[first_version + i] == batch[i].transaction_info
        &&& post.event_store.events_v()[first_version + i] == batch[i].events
    } by {
        assert(batch.map_values(|t: TransactionToCommitV| t.transaction)[i]
            == batch[i].transaction);
        assert(batch.map_values(|t: TransactionToCommitV| t.transaction_info)[i]
            == batch[i].transaction_info);
        assert(batch.map_values(|t: TransactionToCommitV| t.events)[i] == batch[i].events);
    }
}

/// State-root agreement: at every committed version the state store's root
/// is exactly the state root the stored transaction info record carries.
pub proof fn lemma_state_root_agreement(db: AptosDB, v: u64)
    requires
        db.wf(),
        v < db.num_txns(),
    ensures
        db.state_store.trees@[v as int].root_hash_of()
            == db.ledger_store.infos_v()[v as int].state_root_hash,
        db.state_store.roots@[v as int]@ == db.ledger_store.infos_v()[v as int].state_root_hash,
{
}

/// Event-root agreement: at every committed version the root of the event
/// accumulator over the stored events is exactly the event root the stored
/// transaction info record carries.
pub proof fn lemma_event_root_agreement(db: AptosDB, v: u64)
    requires
        db.wf(),
        v < db.num_txns(),
    ensures
        event_root_of(db.event_store.events_v()[v as int])
            == db.ledger_store.infos_v()[v as int].event_root_hash,
{
}

/// The stored accumulator leaves are the hashes of the stored transaction
/// info records, so the ledger root at any version is the fold of those
/// hashes from genesis.
pub proof fn lemma_accumulator_leaves_are_info_hashes(db: AptosDB, v: u64)
    requires
        db.wf(),
        v < db.num_txns(),
    ensures
        db.ledger_store.info_hashes@[v as int]@ == crate::types::transaction_info_hash_of(
            db.ledger_store.infos_v()[v as int],
        ),
{
}

/// Pruning preserves the retention window: when the pruner's floor sits at
/// or below the window's start, every version from the window's start to
/// the target stays at or above the floor, so the guarded reads accept it.
pub proof fn lemma_pruning_preserves_window(db: AptosDB, v: u64)
    requires
        db.wf(),
        v < db.num_txns(),
        match db.pruner {
            Some(p) => {
                &&& p.min_readable_version + p.default_prune_window <= p.target_version
                &&& v + p.default_prune_window >= p.target_version
            },
            None => true,
        },
    ensures
        v >= db.min_readable_version(),
{
}

} // verus!
