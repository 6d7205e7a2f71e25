//! A durable, versioned, append-only ledger store with authenticated reads.
//!
//! The facade [`AptosDB`] composes the per-domain stores: transactions and
//! write sets with their indices, events with per-version event
//! accumulators, the transaction info accumulator with ledger infos and the
//! epoch index, the sparse Merkle state store, and the ledger counters.  A
//! commit stages every mutation in a [`change_set::ChangeSet`], validates
//! the batch against the hashes its transaction infos claim, and applies
//! the sealed batch in one step; reads compose per-store lookups with
//! Merkle proofs.

pub mod hash;
pub mod accumulator;
pub mod state_store_key;
pub mod sparse_merkle;
pub mod types;
pub mod errors;
pub mod proofs;
pub mod change_set;
pub mod transaction_store;
pub mod event_store;
pub mod ledger_store;
pub mod state_store;
pub mod system_store;
pub mod account_state;
pub mod state_view;
pub mod on_chain_config;
pub mod laws;

use vstd::prelude::*;
use crate::hash::{HashValue, TAG_ACCUMULATOR_INTERNAL};
use crate::accumulator::{acc_root_of, views_of};
use crate::types::{
    TransactionToCommit, TransactionToCommitV, TransactionInfo, TransactionInfoV,
    LedgerInfoWithSignatures, LedgerInfoV, txn_views, info_views, events_views, write_set_views,
    ttc_views, transaction_hash_of, transaction_info_hash_of,
};
use crate::errors::{AptosDbError, Order};
use crate::change_set::{ChangeSet, SealedChangeSet};
use crate::transaction_store::TransactionStore;
use crate::event_store::{EventStore, event_root_of};
use crate::ledger_store::LedgerStore;
use crate::state_store::StateStore;
use crate::system_store::{SystemStore, events_in_prefix};

verus! {

/// Largest page size a read request may ask for.
pub const MAX_LIMIT: u64 = 5000;

/// Largest number of epoch-ending ledger infos one page returns.
pub const MAX_NUM_EPOCH_ENDING_LEDGER_INFO: u64 = 100;

/// Rejects a page request that asks for more than `max_allowed` items.
pub fn error_if_too_many_requested(num_requested: u64, max_allowed: u64) -> (r: Result<(), AptosDbError>)
    ensures
        r is Ok <==> num_requested <= max_allowed,
        r is Err ==> r == Err::<(), AptosDbError>(AptosDbError::TooManyRequested(
            num_requested,
            max_allowed,
        )),
{
    if num_requested > max_allowed {
        Err(AptosDbError::TooManyRequested(num_requested, max_allowed))
    } else {
        Ok(())
    }
}

/// The ascending range a paged request covers: ascending queries start at
/// the cursor; descending ones cover the `limit` sequence numbers ending
/// at the cursor, clamped at zero.
pub open spec fn spec_first_seq_num_and_limit(order: Order, cursor: u64, limit: u64) -> (u64, u64) {
    if order is Ascending {
        (cursor, limit)
    } else if limit <= cursor {
        ((cursor + 1 - limit) as u64, limit)
    } else {
        (0u64, (cursor + 1) as u64)
    }
}

/// Converts a paged request into an ascending range: ascending queries
/// start at the cursor; descending ones cover the `limit` sequence numbers
/// ending at the cursor, clamped at zero.
pub fn get_first_seq_num_and_limit(order: Order, cursor: u64, limit: u64) -> (r: Result<
    (u64, u64),
    AptosDbError,
>)
    ensures
        r is Ok <==> limit > 0,
        r matches Ok(p) ==> p == spec_first_seq_num_and_limit(order, cursor, limit),
        r matches Ok(p) ==> {
            &&& (order is Ascending ==> p == (cursor, limit))
            &&& (order is Descending && limit <= cursor ==> p.0 == cursor + 1 - limit && p.1
                == limit)
            &&& (order is Descending && limit > cursor ==> p.0 == 0 && p.1 == cursor + 1)
            &&& p.1 >= 1
            &&& p.0 + p.1 == (if order is Ascending {
                cursor + limit
            } else {
                cursor + 1
            })
        },
{
    if limit == 0 {
        return Err(AptosDbError::BadRange);
    }
    if matches!(order, Order::Ascending) {
        Ok((cursor, limit))
    } else if limit <= cursor {
        Ok((cursor - limit + 1, limit))
    } else {
        Ok((0, cursor + 1))
    }
}

/// The column families of the storage engine's schema.
pub fn column_families() -> (r: Vec<&'static str>)
    ensures
        r@.len() == 15,
        r@[0]@ == "default"@,
        r@[1]@ == "epoch_by_version"@,
        r@[2]@ == "event_accumulator"@,
        r@[3]@ == "event_by_key"@,
        r@[4]@ == "event_by_version"@,
        r@[5]@ == "event"@,
        r@[6]@ == "jellyfish_merkle_node"@,
        r@[7]@ == "ledger_counters"@,
        r@[8]@ == "stale_node_index"@,
        r@[9]@ == "transaction"@,
        r@[10]@ == "transaction_accumulator"@,
        r@[11]@ == "transaction_by_account"@,
        r@[12]@ == "transaction_by_hash"@,
        r@[13]@ == "transaction_info"@,
        r@[14]@ == "write_set"@,
{
    let mut r: Vec<&'static str> = Vec::new();
    r.push("default");
    r.push("epoch_by_version");
    r.push("event_accumulator");
    r.push("event_by_key");
    r.push("event_by_version");
    r.push("event");
    r.push("jellyfish_merkle_node");
    r.push("ledger_counters");
    r.push("stale_node_index");
    r.push("transaction");
    r.push("transaction_accumulator");
    r.push("transaction_by_account");
    r.push("transaction_by_hash");
    r.push("transaction_info");
    r.push("write_set");
    r
}

/// The retention windows the pruner honors; `None` disables pruning of
/// that family of data.
#[derive(Clone, Copy, Debug, PartialEq, Eq, Structural)]
pub struct StoragePrunerConfig {
    /// How many recent versions of state trees stay readable.
    pub state_store_prune_window: Option<u64>,
    /// How many recent versions of everything else stay readable.
    pub default_prune_window: Option<u64>,
}

/// The pruner configuration that disables pruning.
pub fn no_op_storage_pruner_config() -> (r: StoragePrunerConfig)
    ensures
        r.state_store_prune_window is None,
        r.default_prune_window is None,
{
    StoragePrunerConfig { state_store_prune_window: None, default_prune_window: None }
}

/// The background pruner's state: the retention windows, the latest
/// version it was woken for, and the lowest versions still readable.
#[derive(Clone, Copy, Debug)]
pub struct Pruner {
    /// How many recent versions of state trees stay readable.
    pub state_store_prune_window: u64,
    /// How many recent versions of ledger data stay readable.
    pub default_prune_window: u64,
    /// The latest committed version the pruner knows of.
    pub target_version: u64,
    /// The lowest version whose ledger data is still readable.
    pub min_readable_version: u64,
    /// The lowest version whose state tree is still readable.
    pub min_readable_state_version: u64,
}

impl Pruner {
    /// A pruner that has deleted nothing yet.
    pub fn new(state_store_prune_window: u64, default_prune_window: u64) -> (r: Self)
        ensures
            r.state_store_prune_window == state_store_prune_window,
            r.default_prune_window == default_prune_window,
            r.target_version == 0,
            r.min_readable_version == 0,
            r.min_readable_state_version == 0,
    {
        Pruner {
            state_store_prune_window,
            default_prune_window,
            target_version: 0,
            min_readable_version: 0,
            min_readable_state_version: 0,
        }
    }

    /// Signals the pruner that the ledger has reached `latest_version`.
    pub fn wake(&mut self, latest_version: u64)
        ensures
            final(self).target_version == (if latest_version > old(self).target_version {
                latest_version
            } else {
                old(self).target_version
            }),
            final(self).min_readable_version == old(self).min_readable_version,
            final(self).min_readable_state_version == old(self).min_readable_state_version,
            final(self).state_store_prune_window == old(self).state_store_prune_window,
            final(self).default_prune_window == old(self).default_prune_window,
    {
        if latest_version > self.target_version {
            self.target_version = latest_version;
        }
    }

    /// Deletes everything below the retention windows and nothing else:
    /// each floor rises exactly to the target minus its window (never
    /// falling), so every version from there up to the target stays
    /// readable.
    pub fn prune(&mut self)
        ensures
            final(self).min_readable_version == (if old(self).target_version
                >= old(self).default_prune_window && old(self).target_version
                - old(self).default_prune_window > old(self).min_readable_version {
                old(self).target_version - old(self).default_prune_window
            } else {
                old(self).min_readable_version as int
            }),
            final(self).min_readable_state_version == (if old(self).target_version
                >= old(self).state_store_prune_window && old(self).target_version
                - old(self).state_store_prune_window > old(self).min_readable_state_version {
                old(self).target_version - old(self).state_store_prune_window
            } else {
                old(self).min_readable_state_version as int
            }),
            final(self).min_readable_version + old(self).default_prune_window
                >= old(self).target_version,
            final(self).min_readable_state_version + old(self).state_store_prune_window
                >= old(self).target_version,
            final(self).target_version == old(self).target_version,
            final(self).state_store_prune_window == old(self).state_store_prune_window,
            final(self).default_prune_window == old(self).default_prune_window,
    {
        if self.target_version >= self.default_prune_window {
            let cut = self.target_version - self.default_prune_window;
            if cut > self.min_readable_version {
                self.min_readable_version = cut;
            }
        }
        if self.target_version >= self.state_store_prune_window {
            let cut = self.target_version - self.state_store_prune_window;
            if cut > self.min_readable_state_version {
                self.min_readable_state_version = cut;
            }
        }
    }
}

/// The ledger storage engine: the per-domain stores behind one facade.
#[derive(Debug)]
pub struct AptosDB {
    pub ledger_store: LedgerStore,
    pub transaction_store: TransactionStore,
    pub state_store: StateStore,
    pub event_store: EventStore,
    pub system_store: SystemStore,
    /// The background pruner, absent when pruning is disabled.
    pub pruner: Option<Pruner>,
}

impl AptosDB {
    /// The number of committed transactions: one past the latest version.
    pub open spec fn num_txns(self) -> nat {
        self.transaction_store.txns@.len()
    }

    /// Cross-store consistency: all stores cover the same contiguous
    /// versions, and at every version the stored transaction info record
    /// carries exactly the hash of the stored transaction, the root of the
    /// stored events' accumulator, and the root of the stored state tree.
    pub open spec fn wf(self) -> bool {
        &&& self.transaction_store.wf()
        &&& self.event_store.wf()
        &&& self.ledger_store.wf()
        &&& self.state_store.wf()
        &&& self.event_store.events@.len() == self.num_txns()
        &&& self.ledger_store.txn_infos@.len() == self.num_txns()
        &&& self.state_store.trees@.len() == self.num_txns()
        &&& self.system_store.counters@.len() == self.num_txns()
        &&& self.num_txns() <= 0x8000_0000_0000_0000
        &&& (forall|v: int| 0 <= v < self.num_txns()
            ==> (#[trigger] self.ledger_store.infos_v()[v]).transaction_hash
                == transaction_hash_of(self.transaction_store.txns_v()[v]))
        &&& (forall|v: int| 0 <= v < self.num_txns()
            ==> (#[trigger] self.ledger_store.infos_v()[v]).event_root_hash
                == event_root_of(self.event_store.events_v()[v]))
        &&& (forall|v: int| 0 <= v < self.num_txns()
            ==> (#[trigger] self.ledger_store.infos_v()[v]).state_root_hash
                == self.state_store.trees@[v].root_hash_of())
    }

    /// Opens an empty store.  A read-only store refuses a pruning
    /// configuration, since the pruner writes.
    pub fn open(readonly: bool, storage_pruner_config: StoragePrunerConfig) -> (r: Result<
        AptosDB,
        AptosDbError,
    >)
        ensures
            r is Ok <==> (!readonly || (storage_pruner_config.state_store_prune_window is None
                && storage_pruner_config.default_prune_window is None)),
            r matches Ok(db) ==> {
                let no_op = storage_pruner_config.state_store_prune_window is None
                    && storage_pruner_config.default_prune_window is None;
                &&& db.wf()
                &&& db.num_txns() == 0
                &&& db.ledger_store.latest_li is None
                &&& (db.pruner is Some <==> !no_op)
                &&& (db.pruner matches Some(p) ==> {
                    &&& p.state_store_prune_window == (match storage_pruner_config.state_store_prune_window {
                        Some(w) => w,
                        None => u64::MAX,
                    })
                    &&& p.default_prune_window == (match storage_pruner_config.default_prune_window {
                        Some(w) => w,
                        None => u64::MAX,
                    })
                    &&& p.target_version == 0
                    &&& p.min_readable_version == 0
                    &&& p.min_readable_state_version == 0
                })
            },
    {
        let no_pruning = storage_pruner_config.state_store_prune_window.is_none()
            && storage_pruner_config.default_prune_window.is_none();
        if readonly && !no_pruning {
            return Err(AptosDbError::BadRange);
        }
        let pruner = if no_pruning {
            None
        } else {
            let sw = match storage_pruner_config.state_store_prune_window {
                Some(w) => w,
                None => u64::MAX,
            };
            let dw = match storage_pruner_config.default_prune_window {
                Some(w) => w,
                None => u64::MAX,
            };
            Some(Pruner::new(sw, dw))
        };
        Ok(AptosDB {
            ledger_store: LedgerStore::new(),
            transaction_store: TransactionStore::new(),
            state_store: StateStore::new(),
            event_store: EventStore::new(),
            system_store: SystemStore::new(),
            pruner,
        })
    }

    /// Opens an empty store without a pruner, as tests do.
    pub fn new_for_test() -> (db: AptosDB)
        ensures
            db.wf(),
            db.num_txns() == 0,
            db.ledger_store.latest_li is None,
            db.pruner is None,
    {
        AptosDB {
            ledger_store: LedgerStore::new(),
            transaction_store: TransactionStore::new(),
            state_store: StateStore::new(),
            event_store: EventStore::new(),
            system_store: SystemStore::new(),
            pruner: None,
        }
    }

    /// A batch that writes no state cell and whose every transaction info
    /// claims the standing state root: for such a batch the state-root
    /// recomputation is guaranteed to agree.
    pub open spec fn batch_keeps_state(self, batch: Seq<TransactionToCommitV>) -> bool {
        forall|i: int| 0 <= i < batch.len() ==> (#[trigger] batch[i]).account_states.len() == 0
            && batch[i].transaction_info.state_root_hash == self.state_store.latest_root()
    }

    /// What the commit path checks of a batch before anything is written,
    /// stated over the store as it is when the batch arrives.  The one
    /// check not caught here is that each claimed state root matches the
    /// root recomputed from the state tree its writes produce.
    pub open spec fn batch_admissible(
        self,
        batch: Seq<TransactionToCommitV>,
        first_version: u64,
        li: Option<LedgerInfoV>,
    ) -> bool {
        &&& (li is Some || batch.len() > 0)
        &&& (match li {
            Some(l) => l.version + 1 == first_version + batch.len(),
            None => true,
        })
        &&& first_version == self.num_txns()
        &&& self.num_txns() + batch.len() <= 0x8000_0000_0000_0000
        &&& (forall|i: int| 0 <= i < batch.len()
            ==> (#[trigger] batch[i]).events.len() <= 0x8000_0000_0000_0000)
        &&& (forall|i: int| 0 <= i < batch.len()
            ==> (#[trigger] batch[i]).transaction_info.transaction_hash == transaction_hash_of(
                batch[i].transaction,
            ))
        &&& (forall|i: int| 0 <= i < batch.len()
            ==> (#[trigger] batch[i]).transaction_info.event_root_hash == event_root_of(
                batch[i].events,
            ))
        &&& (match li {
            Some(l) => {
                let n = self.ledger_store.lis_by_epoch@.len();
                &&& l.transaction_accumulator_hash == acc_root_of(
                    TAG_ACCUMULATOR_INTERNAL,
                    views_of(self.ledger_store.info_hashes@) + batch.map_values(
                        |t: TransactionToCommitV| transaction_info_hash_of(t.transaction_info),
                    ),
                )
                &&& l.epoch < 0xffff_ffff_ffff_ffff
                &&& ((l.epoch == n && (n == 0 || self.ledger_store.lis_v()[n - 1].ends_epoch()))
                    || (n > 0 && l.epoch == n - 1
                        && !self.ledger_store.lis_v()[n - 1].ends_epoch()))
                &&& (l.ends_epoch() ==> (self.ledger_store.epoch_ends@.len() == 0
                    || self.ledger_store.epoch_ends@[self.ledger_store.epoch_ends@.len() - 1]
                        < l.version))
            },
            None => true,
        })
        &&& ({
            let base: nat = if self.num_txns() == 0 {
                0
            } else {
                self.system_store.counters@[self.num_txns() - 1] as nat
            };
            base + events_in_prefix(
                batch.map_values(|t: TransactionToCommitV| t.events),
                batch.len() as int,
            ) <= u64::MAX
        })
    }
}

} // verus!

verus! {

impl AptosDB {
    /// Writes a sealed batch in one step: every store appends its staged
    /// mutations.  The caller has already validated the batch, so the
    /// cross-store invariant is preserved.
    pub fn commit(&mut self, sealed: SealedChangeSet)
        requires
            old(self).wf(),
            ({
                let cs = sealed.batch;
                let k = cs.txns@.len();
                &&& cs.first_version == old(self).num_txns()
                &&& cs.write_sets@.len() == k
                &&& cs.events@.len() == k
                &&& cs.event_roots@.len() == k
                &&& cs.state_trees@.len() == k
                &&& cs.state_roots@.len() == k
                &&& cs.leaf_counts@.len() == k
                &&& cs.txn_infos@.len() == k
                &&& sealed.counters@.len() == k
                &&& old(self).num_txns() + k <= 0x8000_0000_0000_0000
                &&& (forall|i: int| 0 <= i < k
                    ==> (#[trigger] cs.event_roots@[i])@ == event_root_of(
                        crate::types::event_views(cs.events@[i]@),
                    ) && cs.event_roots@[i].wf())
                &&& (forall|i: int| 0 <= i < k
                    ==> (#[trigger] cs.events@[i])@.len() <= 0x8000_0000_0000_0000)
                &&& (forall|i: int| 0 <= i < k ==> (#[trigger] cs.state_trees@[i]).wf())
                &&& (forall|i: int| 0 <= i < k
                    ==> (#[trigger] cs.state_roots@[i])@ == cs.state_trees@[i].root_hash_of()
                        && cs.state_roots@[i].wf())
                &&& (forall|i: int| 0 <= i < k
                    ==> #[trigger] cs.leaf_counts@[i] == cs.state_trees@[i]@.dom().len())
                &&& (forall|i: int| 0 <= i < k
                    ==> (#[trigger] info_views(cs.txn_infos@)[i]).transaction_hash
                        == transaction_hash_of(txn_views(cs.txns@)[i]))
                &&& (forall|i: int| 0 <= i < k
                    ==> (#[trigger] info_views(cs.txn_infos@)[i]).event_root_hash
                        == cs.event_roots@[i]@)
                &&& (forall|i: int| 0 <= i < k
                    ==> (#[trigger] info_views(cs.txn_infos@)[i]).state_root_hash
                        == cs.state_trees@[i].root_hash_of())
                &&& (match cs.ledger_info {
                    Some(l) => {
                        let n = old(self).ledger_store.lis_by_epoch@.len();
                        &&& l@.version + 1 == old(self).num_txns() + k
                        &&& l@.transaction_accumulator_hash == acc_root_of(
                            TAG_ACCUMULATOR_INTERNAL,
                            views_of(old(self).ledger_store.info_hashes@) + info_views(
                                cs.txn_infos@,
                            ).map_values(|t: TransactionInfoV| transaction_info_hash_of(t)),
                        )
                        &&& l@.epoch < 0xffff_ffff_ffff_ffff
                        &&& ((l@.epoch == n && (n == 0
                            || old(self).ledger_store.lis_v()[n - 1].ends_epoch())) || (n > 0
                            && l@.epoch == n - 1
                            && !old(self).ledger_store.lis_v()[n - 1].ends_epoch()))
                        &&& (l@.ends_epoch() ==> (old(self).ledger_store.epoch_ends@.len() == 0
                            || old(self).ledger_store.epoch_ends@[old(
                                self,
                            ).ledger_store.epoch_ends@.len() - 1] < l@.version))
                    },
                    None => true,
                })
            }),
        ensures
            final(self).wf(),
            final(self).num_txns() == old(self).num_txns() + sealed.batch.txns@.len(),
            final(self).transaction_store.txns_v() == old(self).transaction_store.txns_v()
                + txn_views(sealed.batch.txns@),
            final(self).transaction_store.write_sets_v() == old(
                self,
            ).transaction_store.write_sets_v() + write_set_views(sealed.batch.write_sets@),
            final(self).event_store.events_v() == old(self).event_store.events_v() + events_views(
                sealed.batch.events@,
            ),
            final(self).ledger_store.infos_v() == old(self).ledger_store.infos_v() + info_views(
                sealed.batch.txn_infos@,
            ),
            views_of(final(self).ledger_store.info_hashes@) == views_of(
                old(self).ledger_store.info_hashes@,
            ) + info_views(sealed.batch.txn_infos@).map_values(
                |t: TransactionInfoV| transaction_info_hash_of(t),
            ),
            final(self).state_store.trees@ == old(self).state_store.trees@
                + sealed.batch.state_trees@,
            final(self).system_store.counters@ == old(self).system_store.counters@
                + sealed.counters@,
            final(self).pruner == old(self).pruner,
            forall|i: int| 0 <= i < sealed.batch.txns@.len()
                ==> ((#[trigger] txn_views(sealed.batch.txns@)[i])
                    matches crate::types::TransactionV::UserTransaction {
                    sender,
                    sequence_number,
                    ..
                } ==> crate::transaction_store::find_by_account(
                    final(self).transaction_store.by_account@,
                    sender,
                    sequence_number,
                ) is Some),
            match sealed.batch.ledger_info {
                Some(l) => final(self).ledger_store.lis_v().len() == l@.epoch + 1
                    && final(self).ledger_store.lis_v()[l@.epoch as int] == l@
                    && final(self).ledger_store.latest_li_v() == Some(l@),
                None => final(self).ledger_store.lis_by_epoch == old(
                    self,
                ).ledger_store.lis_by_epoch && final(self).ledger_store.epoch_ends == old(
                    self,
                ).ledger_store.epoch_ends && final(self).ledger_store.latest_li == old(
                    self,
                ).ledger_store.latest_li,
            },
    {
        let SealedChangeSet { batch, counters } = sealed;
        let ChangeSet {
            first_version,
            txns,
            write_sets,
            events,
            event_roots,
            state_trees,
            state_roots,
            leaf_counts,
            txn_infos,
            ledger_info,
        } = batch;
        let ghost k = txns@.len() as int;
        let ghost n = self.num_txns() as int;
        let ghost g_infos = txn_infos@;
        let ghost g_trees = state_trees@;
        let ghost g_event_roots = event_roots@;
        self.transaction_store.apply(&txns, &write_sets);
        proof {
            assert(forall|i: int| 0 <= i < k
                ==> (#[trigger] crate::types::event_views(events@[i]@))
                    == events_views(events@)[i]);
        }
        self.event_store.apply(&events, &event_roots);
        self.state_store.apply(state_trees, state_roots, leaf_counts);
        self.ledger_store.apply(txn_infos, ledger_info);
        self.system_store.apply(counters);
        proof {
            let newtv = self.transaction_store.txns_v();
            let newev = self.event_store.events_v();
            let newiv = self.ledger_store.infos_v();
            assert(old(self).transaction_store.txns_v().len() == n);
            assert(old(self).event_store.events_v().len() == n);
            assert(old(self).ledger_store.infos_v().len() == n);
            assert(info_views(g_infos).len() == k);
            assert(txn_views(txns@).len() == k);
            assert(events_views(events@).len() == k);
            assert(newtv == old(self).transaction_store.txns_v() + txn_views(txns@));
            assert(newiv == old(self).ledger_store.infos_v() + info_views(g_infos));
            assert(newev == old(self).event_store.events_v() + events_views(events@));
            assert(newtv.len() == n + k);
            assert(self.num_txns() == n + k);
            assert forall|v: int| 0 <= v < self.num_txns() implies {
                &&& (#[trigger] newiv[v]).transaction_hash == transaction_hash_of(newtv[v])
                &&& newiv[v].event_root_hash == event_root_of(newev[v])
                &&& newiv[v].state_root_hash == self.state_store.trees@[v].root_hash_of()
            } by {
                if v < n {
                    assert(newiv[v] == old(self).ledger_store.infos_v()[v]);
                    assert(newtv[v] == old(self).transaction_store.txns_v()[v]);
                    assert(newev[v] == old(self).event_store.events_v()[v]);
                    assert(self.state_store.trees@[v] == old(self).state_store.trees@[v]);
                } else {
                    assert(newiv[v] == info_views(g_infos)[v - n]);
                    assert(newtv[v] == txn_views(txns@)[v - n]);
                    assert(newev[v] == events_views(events@)[v - n]);
                    assert(self.state_store.trees@[v] == g_trees[v - n]);
                    assert(info_views(g_infos)[v - n].event_root_hash
                        == g_event_roots[v - n]@);
                    assert(g_event_roots[v - n]@ == event_root_of(
                        crate::types::event_views(events@[v - n]@),
                    ));
                    assert(events_views(events@)[v - n] == crate::types::event_views(
                        events@[v - n]@,
                    ));
                }
            }
        }
    }
}

} // verus!

verus! {

impl AptosDB {
    /// Folds the ledger counters into the batch, sealing it for the
    /// atomic write.
    fn seal_change_set(&self, first_version: u64, num_txns: u64, cs: ChangeSet) -> (r: Result<
        SealedChangeSet,
        AptosDbError,
    >)
        requires
            self.wf(),
            first_version == self.num_txns(),
            first_version == cs.first_version,
            cs.events@.len() == num_txns,
            first_version + num_txns <= u64::MAX,
        ensures
            ({
                let base: nat = if self.num_txns() == 0 {
                    0
                } else {
                    self.system_store.counters@[self.num_txns() - 1] as nat
                };
                let evs = events_views(cs.events@);
                &&& (r is Ok <==> base + events_in_prefix(evs, evs.len() as int) <= u64::MAX)
                &&& (r matches Ok(s) ==> s.batch == cs && s.counters@.len() == num_txns)
            }),
    {
        let counters = match self.system_store.bump_ledger_counters(
            first_version,
            first_version + num_txns,
            &cs,
        ) {
            Ok(c) => c,
            Err(e) => {
                return Err(e);
            },
        };
        Ok(SealedChangeSet { batch: cs, counters })
    }

    /// Wakes the pruner, if one runs, with the latest committed version:
    /// only the pruner's target moves; the readable floors stay.
    fn wake_pruner(&mut self, latest_version: u64)
        ensures
            final(self).ledger_store == old(self).ledger_store,
            final(self).transaction_store == old(self).transaction_store,
            final(self).state_store == old(self).state_store,
            final(self).event_store == old(self).event_store,
            final(self).system_store == old(self).system_store,
            final(self).wf() == old(self).wf(),
            final(self).pruner is Some <==> old(self).pruner is Some,
            final(self).min_readable_version() == old(self).min_readable_version(),
            final(self).min_readable_state_version() == old(self).min_readable_state_version(),
            match (final(self).pruner, old(self).pruner) {
                (Some(p), Some(q)) => {
                    &&& p.target_version == (if latest_version > q.target_version {
                        latest_version
                    } else {
                        q.target_version
                    })
                    &&& p.state_store_prune_window == q.state_store_prune_window
                    &&& p.default_prune_window == q.default_prune_window
                },
                (None, None) => true,
                _ => false,
            },
    {
        match &mut self.pruner {
            Some(p) => {
                p.wake(latest_version);
            },
            None => {},
        }
    }

    /// Saves a batch of transactions atomically: validates it, stages
    /// every store's mutations, checks the recomputed hashes against the
    /// transaction infos and the carried ledger info, and only then
    /// writes.  On any error nothing is changed.
    #[verifier::rlimit(100)]
    pub fn save_transactions(
        &mut self,
        txns_to_commit: &Vec<TransactionToCommit>,
        first_version: u64,
        ledger_info_with_sigs: Option<&LedgerInfoWithSignatures>,
    ) -> (r: Result<(), AptosDbError>)
        requires
            old(self).wf(),
        ensures
            final(self).wf(),
            r is Err ==> *final(self) == *old(self),
            ({
                let batch = ttc_views(txns_to_commit@);
                let li = match ledger_info_with_sigs {
                    Some(l) => Some(l@),
                    None => None::<LedgerInfoV>,
                };
                &&& (!old(self).batch_admissible(batch, first_version, li) ==> r is Err)
                &&& (old(self).batch_admissible(batch, first_version, li) && batch.len() == 0
                    ==> r is Ok)
                &&& (old(self).batch_admissible(batch, first_version, li) && old(
                    self,
                ).batch_keeps_state(batch) ==> r is Ok)
                &&& (r is Ok ==> {
                    &&& old(self).batch_admissible(batch, first_version, li)
                    &&& final(self).num_txns() == old(self).num_txns() + batch.len()
                    &&& final(self).transaction_store.txns_v() == old(
                        self,
                    ).transaction_store.txns_v() + batch.map_values(
                        |t: TransactionToCommitV| t.transaction,
                    )
                    &&& final(self).ledger_store.infos_v() == old(self).ledger_store.infos_v()
                        + batch.map_values(|t: TransactionToCommitV| t.transaction_info)
                    &&& final(self).event_store.events_v() == old(self).event_store.events_v()
                        + batch.map_values(|t: TransactionToCommitV| t.events)
                    &&& (forall|i: int| 0 <= i < batch.len()
                        ==> (#[trigger] final(self).state_store.trees@[old(self).num_txns() + i])@
                            == crate::state_store::chain_states(
                            old(self).state_store.latest_state(),
                            batch,
                            i + 1,
                        ))
                    &&& (forall|i: int| 0 <= i < batch.len()
                        ==> ((#[trigger] batch[i]).transaction
                            matches crate::types::TransactionV::UserTransaction {
                            sender,
                            sequence_number,
                            ..
                        } ==> crate::transaction_store::find_by_account(
                            final(self).transaction_store.by_account@,
                            sender,
                            sequence_number,
                        ) is Some))
                    &&& (match li {
                        Some(l) => final(self).ledger_store.latest_li_v() == Some(l),
                        None => final(self).ledger_store.latest_li == old(
                            self,
                        ).ledger_store.latest_li,
                    })
                    // The commit only wakes the pruner: the readable floors
                    // stay where they were.
                    &&& final(self).min_readable_version() == old(self).min_readable_version()
                    &&& final(self).min_readable_state_version() == old(
                        self,
                    ).min_readable_state_version()
                    &&& (final(self).pruner is Some <==> old(self).pruner is Some)
                    &&& (match (final(self).pruner, old(self).pruner) {
                        (Some(p), Some(q)) => {
                            &&& p.state_store_prune_window == q.state_store_prune_window
                            &&& p.default_prune_window == q.default_prune_window
                            &&& p.target_version >= q.target_version
                            &&& (batch.len() > 0 ==> p.target_version + 1 >= first_version
                                + batch.len())
                        },
                        (None, None) => true,
                        _ => false,
                    })
                })
            }),
    {
        let ghost batch = ttc_views(txns_to_commit@);
        let num_txns = txns_to_commit.len() as u64;
        if ledger_info_with_sigs.is_none() && num_txns == 0 {
            return Err(AptosDbError::BadRange);
        }
        let current = self.transaction_store.num_transactions();
        if first_version != current {
            return Err(AptosDbError::BadRange);
        }
        if num_txns > 0x8000_0000_0000_0000 - current {
            return Err(AptosDbError::Corruption);
        }
        match ledger_info_with_sigs {
            Some(x) => {
                let claimed_last_version = x.ledger_info.version;
                let target = first_version + num_txns;
                if claimed_last_version >= target || claimed_last_version + 1 != target {
                    return Err(AptosDbError::BadRange);
                }
                if x.ledger_info.epoch >= 0xffff_ffff_ffff_ffff {
                    return Err(AptosDbError::Corruption);
                }
            },
            None => {},
        }
        let mut i: usize = 0;
        while i < txns_to_commit.len()
            invariant
                *self == *old(self),
                self.wf(),
                i <= txns_to_commit@.len(),
                batch == ttc_views(txns_to_commit@),
                forall|m: int| 0 <= m < i
                    ==> (#[trigger] batch[m]).events.len() <= 0x8000_0000_0000_0000,
            decreases txns_to_commit@.len() - i,
        {
            proof {
                assert(batch[i as int] == txns_to_commit@[i as int]@);
            }
            if txns_to_commit[i].events.len() as u64 > 0x8000_0000_0000_0000u64 {
                return Err(AptosDbError::Corruption);
            }
            i = i + 1;
        }
        let mut cs = ChangeSet::new(first_version);
        let new_root_hash = match self.save_transactions_impl(txns_to_commit, first_version, &mut cs) {
            Ok(h) => h,
            Err(e) => {
                return Err(e);
            },
        };
        match ledger_info_with_sigs {
            Some(x) => {
                if !new_root_hash.equals(&x.ledger_info.transaction_accumulator_hash) {
                    proof {
                        // The recomputed root is the admissibility
                        // condition's root, so an admissible ledger info
                        // cannot reach this branch.
                        assert(info_views(cs.txn_infos@).map_values(
                            |t: TransactionInfoV| transaction_info_hash_of(t),
                        ) =~= batch.map_values(
                            |t: TransactionToCommitV| transaction_info_hash_of(t.transaction_info),
                        ));
                    }
                    return Err(AptosDbError::Corruption);
                }
                match self.ledger_store.put_ledger_info(x, &mut cs) {
                    Ok(_) => {},
                    Err(e) => {
                        return Err(e);
                    },
                }
            },
            None => {},
        }
        let sealed = match self.seal_change_set(first_version, num_txns, cs) {
            Ok(s) => s,
            Err(e) => {
                return Err(e);
            },
        };
        proof {
            let cs2 = sealed.batch;
            let k2 = cs2.txns@.len();
            assert(cs2.first_version == old(self).num_txns());
            assert(cs2.write_sets@.len() == k2 && cs2.events@.len() == k2
                && cs2.event_roots@.len() == k2 && cs2.state_trees@.len() == k2
                && cs2.state_roots@.len() == k2 && cs2.leaf_counts@.len() == k2
                && cs2.txn_infos@.len() == k2 && sealed.counters@.len() == k2);
            assert(old(self).num_txns() + k2 <= 0x8000_0000_0000_0000);
            assert(forall|i: int| 0 <= i < k2
                ==> (#[trigger] cs2.event_roots@[i])@ == event_root_of(
                    crate::types::event_views(cs2.events@[i]@),
                ) && cs2.event_roots@[i].wf());
            assert forall|i: int| 0 <= i < k2 implies (#[trigger] cs2.events@[i])@.len()
                <= 0x8000_0000_0000_0000 by {
                assert(events_views(cs2.events@)[i] == crate::types::event_views(cs2.events@[i]@));
                assert(batch.map_values(|t: TransactionToCommitV| t.events)[i] == batch[i].events);
            }
            assert(forall|i: int| 0 <= i < k2 ==> (#[trigger] cs2.state_trees@[i]).wf());
            assert(forall|i: int| 0 <= i < k2
                ==> (#[trigger] cs2.state_roots@[i])@ == cs2.state_trees@[i].root_hash_of()
                    && cs2.state_roots@[i].wf());
            assert(forall|i: int| 0 <= i < k2
                ==> #[trigger] cs2.leaf_counts@[i] == cs2.state_trees@[i]@.dom().len());
            assert(forall|i: int| 0 <= i < k2
                ==> (#[trigger] info_views(cs2.txn_infos@)[i]).transaction_hash
                    == transaction_hash_of(txn_views(cs2.txns@)[i]));
            assert(forall|i: int| 0 <= i < k2
                ==> (#[trigger] info_views(cs2.txn_infos@)[i]).event_root_hash
                    == cs2.event_roots@[i]@);
            assert(forall|i: int| 0 <= i < k2
                ==> (#[trigger] info_views(cs2.txn_infos@)[i]).state_root_hash
                    == cs2.state_trees@[i].root_hash_of());
            match cs2.ledger_info {
                Some(l) => {
                    assert(l@.version + 1 == old(self).num_txns() + k2);
                    assert(l@.transaction_accumulator_hash == acc_root_of(
                        TAG_ACCUMULATOR_INTERNAL,
                        views_of(old(self).ledger_store.info_hashes@) + info_views(
                            cs2.txn_infos@,
                        ).map_values(|t: TransactionInfoV| transaction_info_hash_of(t)),
                    ));
                    assert(l@.epoch < 0xffff_ffff_ffff_ffff);
                },
                None => {},
            }
            assert(info_views(sealed.batch.txn_infos@) =~= batch.map_values(
                |t: TransactionToCommitV| t.transaction_info,
            ));
            assert(info_views(sealed.batch.txn_infos@).map_values(
                |t: TransactionInfoV| transaction_info_hash_of(t),
            ) =~= batch.map_values(
                |t: TransactionToCommitV| transaction_info_hash_of(t.transaction_info),
            ));
            assert(txn_views(sealed.batch.txns@) =~= batch.map_values(
                |t: TransactionToCommitV| t.transaction,
            ));
            assert(events_views(sealed.batch.events@) =~= batch.map_values(
                |t: TransactionToCommitV| t.events,
            ));
            assert(batch.map_values(|t: TransactionToCommitV| t.events) =~= ttc_views(
                txns_to_commit@,
            ).map_values(|t: TransactionToCommitV| t.events));
        }
        let ghost gcs = sealed.batch;
        self.commit(sealed);
        proof {
            let n0 = old(self).num_txns() as int;
            let k2 = gcs.txns@.len() as int;
            assert forall|i: int| 0 <= i < batch.len() implies {
                &&& (#[trigger] batch[i]).transaction_info.transaction_hash
                    == transaction_hash_of(batch[i].transaction)
                &&& batch[i].transaction_info.event_root_hash == event_root_of(batch[i].events)
            } by {
                assert(info_views(gcs.txn_infos@)[i] == batch.map_values(
                    |t: TransactionToCommitV| t.transaction_info,
                )[i]);
                assert(txn_views(gcs.txns@)[i] == batch.map_values(
                    |t: TransactionToCommitV| t.transaction,
                )[i]);
                assert(events_views(gcs.events@)[i] == batch.map_values(
                    |t: TransactionToCommitV| t.events,
                )[i]);
                assert(crate::types::event_views(gcs.events@[i]@) == events_views(gcs.events@)[i]);
                assert(info_views(gcs.txn_infos@)[i].event_root_hash == gcs.event_roots@[i]@);
                assert(gcs.event_roots@[i]@ == event_root_of(crate::types::event_views(
                    gcs.events@[i]@,
                )));
            }
            assert(batch.map_values(
                |t: TransactionToCommitV| transaction_info_hash_of(t.transaction_info),
            ) =~= info_views(gcs.txn_infos@).map_values(
                |t: TransactionInfoV| transaction_info_hash_of(t),
            ));
            assert forall|i: int| 0 <= i < batch.len() implies #[trigger] batch[i].transaction
                == txn_views(gcs.txns@)[i] by {
                assert(batch.map_values(|t: TransactionToCommitV| t.transaction)[i]
                    == batch[i].transaction);
            }
            assert forall|i: int| 0 <= i < k2 implies
                (#[trigger] self.state_store.trees@[n0 + i])@
                    == crate::state_store::chain_states(
                    old(self).state_store.latest_state(),
                    batch,
                    i + 1,
                ) by {
                assert(self.state_store.trees@[n0 + i] == gcs.state_trees@[i]);
            }
        }
        match ledger_info_with_sigs {
            Some(x) => {
                proof {
                    assert(views_of(self.ledger_store.info_hashes@).take(
                        self.ledger_store.info_hashes@.len() as int,
                    ) =~= views_of(self.ledger_store.info_hashes@));
                    assert(views_of(self.ledger_store.info_hashes@.take(
                        self.ledger_store.info_hashes@.len() as int,
                    )) =~= views_of(self.ledger_store.info_hashes@));
                }
                self.ledger_store.set_latest_ledger_info(x);
            },
            None => {},
        }
        if num_txns > 0 {
            let last_version = first_version + num_txns - 1;
            self.wake_pruner(last_version);
        }
        Ok(())
    }

    /// Stages the batch across the stores: state trees, events,
    /// transactions and write sets, then the transaction info accumulator,
    /// checking each transaction info record's claimed hashes against the
    /// recomputed ones.  Returns the new ledger root.
    fn save_transactions_impl(&self, txns_to_commit: &Vec<TransactionToCommit>, first_version: u64, cs: &mut ChangeSet) -> (r: Result<
        HashValue,
        AptosDbError,
    >)
        requires
            self.wf(),
            first_version == self.num_txns(),
            first_version == old(cs).first_version,
            self.num_txns() + txns_to_commit@.len() <= 0x8000_0000_0000_0000,
            forall|i: int| 0 <= i < txns_to_commit@.len()
                ==> (#[trigger] ttc_views(txns_to_commit@)[i]).events.len()
                    <= 0x8000_0000_0000_0000,
            old(cs).txns@.len() == 0,
            old(cs).write_sets@.len() == 0,
            old(cs).events@.len() == 0,
            old(cs).event_roots@.len() == 0,
            old(cs).state_trees@.len() == 0,
            old(cs).state_roots@.len() == 0,
            old(cs).leaf_counts@.len() == 0,
            old(cs).txn_infos@.len() == 0,
            old(cs).ledger_info is None,
        ensures
            ({
                let batch = ttc_views(txns_to_commit@);
                let k = batch.len();
                &&& final(cs).first_version == old(cs).first_version
                &&& final(cs).ledger_info is None
                &&& (r is Err ==> k > 0)
                &&& ((forall|i: int| 0 <= i < k ==> {
                    &&& (#[trigger] batch[i]).transaction_info.transaction_hash
                        == transaction_hash_of(batch[i].transaction)
                    &&& batch[i].transaction_info.event_root_hash == event_root_of(
                        batch[i].events,
                    )
                    &&& batch[i].account_states.len() == 0
                    &&& batch[i].transaction_info.state_root_hash
                        == self.state_store.latest_root()
                }) ==> r is Ok)
                &&& (r matches Ok(root) ==> {
                    &&& final(cs).txns@.len() == k
                    &&& final(cs).write_sets@.len() == k
                    &&& final(cs).events@.len() == k
                    &&& final(cs).event_roots@.len() == k
                    &&& final(cs).state_trees@.len() == k
                    &&& final(cs).state_roots@.len() == k
                    &&& final(cs).leaf_counts@.len() == k
                    &&& final(cs).txn_infos@.len() == k
                    &&& txn_views(final(cs).txns@) == batch.map_values(
                        |t: TransactionToCommitV| t.transaction,
                    )
                    &&& write_set_views(final(cs).write_sets@) == batch.map_values(
                        |t: TransactionToCommitV| t.write_set,
                    )
                    &&& events_views(final(cs).events@) == batch.map_values(
                        |t: TransactionToCommitV| t.events,
                    )
                    &&& info_views(final(cs).txn_infos@) == batch.map_values(
                        |t: TransactionToCommitV| t.transaction_info,
                    )
                    &&& (forall|i: int| 0 <= i < k
                        ==> (#[trigger] final(cs).event_roots@[i])@ == event_root_of(
                            crate::types::event_views(final(cs).events@[i]@),
                        ) && final(cs).event_roots@[i].wf())
                    &&& (forall|i: int| 0 <= i < k ==> (#[trigger] final(cs).state_trees@[i]).wf())
                    &&& (forall|i: int| 0 <= i < k
                        ==> (#[trigger] final(cs).state_trees@[i])@
                            == crate::state_store::chain_states(
                            self.state_store.latest_state(),
                            batch,
                            i + 1,
                        ))
                    &&& (forall|i: int| 0 <= i < k
                        ==> (#[trigger] final(cs).state_roots@[i])@
                            == final(cs).state_trees@[i].root_hash_of()
                            && final(cs).state_roots@[i].wf())
                    &&& (forall|i: int| 0 <= i < k
                        ==> #[trigger] final(cs).leaf_counts@[i]
                            == final(cs).state_trees@[i]@.dom().len())
                    &&& (forall|i: int| 0 <= i < k
                        ==> (#[trigger] info_views(final(cs).txn_infos@)[i]).transaction_hash
                            == transaction_hash_of(txn_views(final(cs).txns@)[i]))
                    &&& (forall|i: int| 0 <= i < k
                        ==> (#[trigger] info_views(final(cs).txn_infos@)[i]).event_root_hash
                            == final(cs).event_roots@[i]@)
                    &&& (forall|i: int| 0 <= i < k
                        ==> (#[trigger] info_views(final(cs).txn_infos@)[i]).state_root_hash
                            == final(cs).state_trees@[i].root_hash_of())
                    &&& root@ == acc_root_of(
                        TAG_ACCUMULATOR_INTERNAL,
                        views_of(self.ledger_store.info_hashes@) + info_views(
                            final(cs).txn_infos@,
                        ).map_values(|t: TransactionInfoV| transaction_info_hash_of(t)),
                    )
                    &&& root.wf()
                })
            }),
    {
        let ghost batch = ttc_views(txns_to_commit@);
        match self.state_store.put_value_sets(txns_to_commit, first_version, cs) {
            Ok(_) => {},
            Err(e) => {
                return Err(e);
            },
        }
        let ghost staged_trees = cs.state_trees@;
        let ghost staged_roots = cs.state_roots@;
        let ghost staged_counts = cs.leaf_counts@;
        let ghost keeps: bool = forall|i: int| 0 <= i < batch.len()
            ==> (#[trigger] batch[i]).account_states.len() == 0
                && batch[i].transaction_info.state_root_hash == self.state_store.latest_root();
        proof {
            assert(staged_trees.len() == batch.len());
            if keeps {
                assert(forall|i: int| 0 <= i < staged_trees.len()
                    ==> #[trigger] staged_trees[i].root_hash_of() == (if i == 0 {
                        self.state_store.latest_root()
                    } else {
                        staged_trees[i - 1].root_hash_of()
                    }));
                crate::state_store::lemma_roots_constant(
                    staged_trees,
                    self.state_store.latest_root(),
                    staged_trees.len() as int,
                );
            }
        }
        let mut infos: Vec<TransactionInfo> = Vec::new();
        let mut i: usize = 0;
        while i < txns_to_commit.len()
            invariant
                self.wf(),
                i <= txns_to_commit@.len(),
                batch == ttc_views(txns_to_commit@),
                first_version == self.num_txns(),
                first_version == cs.first_version,
                self.num_txns() + txns_to_commit@.len() <= 0x8000_0000_0000_0000,
                forall|m: int| 0 <= m < batch.len()
                    ==> (#[trigger] batch[m]).events.len() <= 0x8000_0000_0000_0000,
                first_version == old(cs).first_version,
                cs.ledger_info is None,
                cs.state_trees@ == staged_trees,
                cs.state_roots@ == staged_roots,
                cs.leaf_counts@ == staged_counts,
                cs.txn_infos@.len() == 0,
                cs.txns@.len() == i,
                cs.write_sets@.len() == i,
                cs.events@.len() == i,
                cs.event_roots@.len() == i,
                infos@.len() == i,
                txn_views(cs.txns@) =~= batch.map_values(
                    |t: TransactionToCommitV| t.transaction,
                ).take(i as int),
                write_set_views(cs.write_sets@) =~= batch.map_values(
                    |t: TransactionToCommitV| t.write_set,
                ).take(i as int),
                events_views(cs.events@) =~= batch.map_values(
                    |t: TransactionToCommitV| t.events,
                ).take(i as int),
                info_views(infos@) =~= batch.map_values(
                    |t: TransactionToCommitV| t.transaction_info,
                ).take(i as int),
                forall|m: int| 0 <= m < i
                    ==> (#[trigger] cs.event_roots@[m])@ == event_root_of(
                        crate::types::event_views(cs.events@[m]@),
                    ) && cs.event_roots@[m].wf(),
                forall|m: int| 0 <= m < i
                    ==> (#[trigger] info_views(infos@)[m]).transaction_hash
                        == transaction_hash_of(txn_views(cs.txns@)[m]),
                forall|m: int| 0 <= m < i
                    ==> (#[trigger] info_views(infos@)[m]).event_root_hash
                        == cs.event_roots@[m]@,
                staged_trees.len() == batch.len(),
                staged_roots.len() == batch.len(),
                keeps ==> (forall|m: int| 0 <= m < staged_trees.len()
                    ==> #[trigger] staged_trees[m].root_hash_of()
                        == self.state_store.latest_root()),
                keeps == (forall|i: int| 0 <= i < batch.len()
                    ==> (#[trigger] batch[i]).account_states.len() == 0
                        && batch[i].transaction_info.state_root_hash
                        == self.state_store.latest_root()),
                forall|m: int| 0 <= m < batch.len() ==> (#[trigger] staged_trees[m]).wf(),
                forall|m: int| 0 <= m < batch.len()
                    ==> (#[trigger] staged_roots[m])@ == staged_trees[m].root_hash_of()
                        && staged_roots[m].wf(),
                forall|m: int| 0 <= m < i
                    ==> (#[trigger] info_views(infos@)[m]).state_root_hash
                        == staged_trees[m].root_hash_of(),
            decreases txns_to_commit@.len() - i,
        {
            let t = &txns_to_commit[i];
            let version = first_version + i as u64;
            proof {
                assert(batch[i as int] == txns_to_commit@[i as int]@);
            }
            let event_root = self.event_store.put_events(version, &t.events, cs);
            if !event_root.equals(&t.transaction_info.event_root_hash) {
                return Err(AptosDbError::Corruption);
            }
            let txn_hash = t.transaction.hash();
            if !txn_hash.equals(&t.transaction_info.transaction_hash) {
                return Err(AptosDbError::Corruption);
            }
            if !cs.state_roots[i].equals(&t.transaction_info.state_root_hash) {
                return Err(AptosDbError::Corruption);
            }
            self.transaction_store.put_transaction(version, &t.transaction, cs);
            self.transaction_store.put_write_set(version, &t.write_set, cs);
            infos.push(t.transaction_info.clone());
            proof {
                assert(txn_views(cs.txns@) =~= batch.map_values(
                    |t: TransactionToCommitV| t.transaction,
                ).take(i as int + 1));
                assert(write_set_views(cs.write_sets@) =~= batch.map_values(
                    |t: TransactionToCommitV| t.write_set,
                ).take(i as int + 1));
                assert(events_views(cs.events@) =~= batch.map_values(
                    |t: TransactionToCommitV| t.events,
                ).take(i as int + 1));
                assert(info_views(infos@) =~= batch.map_values(
                    |t: TransactionToCommitV| t.transaction_info,
                ).take(i as int + 1));
                assert(events_views(cs.events@)[i as int] == crate::types::event_views(
                    cs.events@[i as int]@,
                ));
                assert(cs.event_roots@[i as int]@ == event_root_of(crate::types::event_views(
                    cs.events@[i as int]@,
                )));
                assert(info_views(infos@)[i as int] == t.transaction_info@);
            }
            i = i + 1;
        }
        // A batch whose first record lies about its hashes never reaches
        // this point.
        proof {
            if batch.len() > 0 {
                assert(info_views(infos@)[0].transaction_hash == transaction_hash_of(
                    txn_views(cs.txns@)[0],
                ));
            }
        }
        let root = self.ledger_store.put_transaction_infos(first_version, &infos, cs);
        proof {
            assert(txn_views(cs.txns@) =~= batch.map_values(
                |t: TransactionToCommitV| t.transaction,
            ));
            assert(write_set_views(cs.write_sets@) =~= batch.map_values(
                |t: TransactionToCommitV| t.write_set,
            ));
            assert(events_views(cs.events@) =~= batch.map_values(
                |t: TransactionToCommitV| t.events,
            ));
            assert(info_views(cs.txn_infos@) =~= batch.map_values(
                |t: TransactionToCommitV| t.transaction_info,
            ));
        }
        Ok(root)
    }
}

} // verus!

verus! {

use crate::state_store_key::{ResourceKey, ResourceValue, resource_key_hash_of};
use crate::types::{Transaction, ContractEvent, EventKey, WriteSet};
use crate::proofs::{
    TransactionWithProof, TransactionInfoWithProof, TransactionListWithProof,
    TransactionInfoListWithProof, TransactionOutput, TransactionOutputListWithProof,
    AccountTransactionsWithProof, EventProof, EventWithProof, EventByVersionWithProof,
    EpochChangeProof, StateProof, ResourceValueProof, ResourceValueWithProof, TreeState,
    StartupInfo, txn_info_proof_ok,
};
use crate::accumulator::{AccumulatorProof, AccumulatorConsistencyProof, consistency_ok};
use crate::sparse_merkle::{SparseMerkleProof, smt_proof_ok, leaf_view};
use crate::event_store::{lookup_post, latest_visible_seq};

/// The cursor a paged event query resolves to: a descending query from the
/// largest sequence number starts at the newest entry visible at
/// `ledger_version` (or zero when the key has none).
pub open spec fn spec_event_cursor(
    es: Seq<(u64, u64, u64)>,
    start_seq_num: u64,
    order: Order,
    ledger_version: u64,
) -> u64 {
    if order is Descending && start_seq_num == 0xffff_ffff_ffff_ffff {
        match latest_visible_seq(es, ledger_version) {
            Some(s) => s,
            None => 0,
        }
    } else {
        start_seq_num
    }
}

/// What a paged event query returns, stated over the key's index entries
/// `es`: some run `raw` of entries starting at the first sequence number
/// the resolved range covers (pinned by `lookup_post`) underlies the
/// result; a descending query whose cursor lies past the run's newest
/// entry is coerced to the empty result, and otherwise `triples` — the
/// result read in ascending order — is exactly that run.
pub open spec fn events_query_post(
    es: Seq<(u64, u64, u64)>,
    start_seq_num: u64,
    order: Order,
    limit: u64,
    ledger_version: u64,
    triples: Seq<(u64, u64, u64)>,
) -> bool {
    let cursor = spec_event_cursor(es, start_seq_num, order, ledger_version);
    let fl = spec_first_seq_num_and_limit(order, cursor, limit);
    exists|p: int, raw: Seq<(u64, u64, u64)>|
        {
            &&& #[trigger] lookup_post(es, fl.0, fl.1, ledger_version, raw, p)
            &&& (if order is Descending && raw.len() > 0 && raw[raw.len() - 1].0 < cursor {
                triples.len() == 0
            } else {
                triples == raw
            })
        }
}

impl AptosDB {
    /// The lowest version whose ledger data the pruner still keeps.
    pub open spec fn min_readable_version(self) -> u64 {
        match self.pruner {
            Some(p) => p.min_readable_version,
            None => 0,
        }
    }

    /// The lowest version whose state tree the pruner still keeps.
    pub open spec fn min_readable_state_version(self) -> u64 {
        match self.pruner {
            Some(p) => p.min_readable_state_version,
            None => 0,
        }
    }

    /// Reads the lowest readable ledger version.
    fn first_readable_version(&self) -> (r: u64)
        ensures
            r == self.min_readable_version(),
    {
        match &self.pruner {
            Some(p) => p.min_readable_version,
            None => 0,
        }
    }

    /// Reads the lowest readable state version.
    fn first_readable_state_version(&self) -> (r: u64)
        ensures
            r == self.min_readable_state_version(),
    {
        match &self.pruner {
            Some(p) => p.min_readable_state_version,
            None => 0,
        }
    }

    /// Runs one pruning pass: afterwards every version within the
    /// retention windows below the pruner's target stays readable.
    pub fn prune(&mut self)
        ensures
            final(self).wf() == old(self).wf(),
            final(self).num_txns() == old(self).num_txns(),
            final(self).transaction_store == old(self).transaction_store,
            final(self).ledger_store == old(self).ledger_store,
            final(self).event_store == old(self).event_store,
            final(self).state_store == old(self).state_store,
            final(self).system_store == old(self).system_store,
            match old(self).pruner {
                Some(p) => {
                    &&& final(self).min_readable_version() + p.default_prune_window
                        >= p.target_version
                    &&& final(self).min_readable_state_version() + p.state_store_prune_window
                        >= p.target_version
                    &&& (p.min_readable_version <= p.target_version
                        ==> final(self).min_readable_version() <= p.target_version)
                    &&& (p.min_readable_state_version <= p.target_version
                        ==> final(self).min_readable_state_version() <= p.target_version)
                },
                None => *final(self) == *old(self),
            },
    {
        match &mut self.pruner {
            Some(p) => {
                p.prune();
            },
            None => {},
        }
    }

    /// The latest version a ledger info attests; `NotFound` before the
    /// first commit carrying one.
    pub fn get_latest_version(&self) -> (r: Result<u64, AptosDbError>)
        ensures
            r is Ok <==> self.ledger_store.latest_li is Some,
            r matches Ok(v) ==> self.ledger_store.latest_li_v() matches Some(l) && l.version == v,
    {
        match self.ledger_store.get_latest_ledger_info() {
            Ok(li) => Ok(li.ledger_info.version),
            Err(e) => Err(e),
        }
    }

    /// The latest signed ledger info.
    pub fn get_latest_ledger_info(&self) -> (r: Result<LedgerInfoWithSignatures, AptosDbError>)
        ensures
            r is Ok <==> self.ledger_store.latest_li is Some,
            r matches Ok(li) ==> self.ledger_store.latest_li_v() == Some(li@),
    {
        self.ledger_store.get_latest_ledger_info()
    }

    /// The value a key holds at the latest attested version, without proof.
    pub fn get_latest_value(&self, state_store_key: &ResourceKey) -> (r: Result<
        Option<ResourceValue>,
        AptosDbError,
    >)
        requires
            self.wf(),
        ensures
            r is Ok <==> (match self.ledger_store.latest_li_v() {
                Some(latest) => latest.version >= self.min_readable_state_version(),
                None => false,
            }),
            r matches Ok(v) ==> {
                let lv = self.ledger_store.latest_li_v().unwrap().version;
                let m = self.state_store.state_at(lv as int);
                let kh = resource_key_hash_of(state_store_key@);
                &&& (match v {
                    Some(ref b) => m.dom().contains(kh) && m[kh] == b@,
                    None => !m.dom().contains(kh),
                })
            },
    {
        let li = match self.ledger_store.get_latest_ledger_info() {
            Ok(li) => li,
            Err(e) => {
                return Err(e);
            },
        };
        let version = li.ledger_info.version;
        match self.get_value_with_proof_by_version(state_store_key, version) {
            Ok(p) => Ok(p.0),
            Err(e) => Err(e),
        }
    }

    /// The value a key holds at a version (or `None`), with the sparse
    /// Merkle proof against the state root at that version; `NotFound`
    /// past the latest version or below the pruner's window.
    pub fn get_value_with_proof_by_version(&self, state_store_key: &ResourceKey, version: u64) -> (r: Result<
        (Option<ResourceValue>, SparseMerkleProof),
        AptosDbError,
    >)
        requires
            self.wf(),
        ensures
            r is Ok <==> version < self.num_txns() && version
                >= self.min_readable_state_version(),
            r matches Ok(p) ==> {
                let m = self.state_store.state_at(version as int);
                let kh = resource_key_hash_of(state_store_key@);
                &&& (match p.0 {
                    Some(ref v) => m.dom().contains(kh) && m[kh] == v@,
                    None => !m.dom().contains(kh),
                })
                &&& smt_proof_ok(
                    self.state_store.trees@[version as int].root_hash_of(),
                    kh,
                    match p.0 {
                        Some(ref v) => Some(v@),
                        None => None,
                    },
                    leaf_view(p.1.leaf),
                    views_of(p.1.siblings@),
                )
            },
    {
        if version < self.first_readable_state_version() {
            return Err(AptosDbError::NotFound);
        }
        self.state_store.get_value_with_proof_by_version(state_store_key, version)
    }

    /// The transaction at `version` with its transaction info under an
    /// accumulator proof against the root at `ledger_version`, and its
    /// events when asked for.
    pub fn get_transaction_with_proof(&self, version: u64, ledger_version: u64, fetch_events: bool) -> (r: Result<
        TransactionWithProof,
        AptosDbError,
    >)
        requires
            self.wf(),
        ensures
            r is Ok <==> version <= ledger_version && ledger_version < self.num_txns()
                && version >= self.min_readable_version(),
            r matches Ok(t) ==> {
                &&& t.version == version
                &&& t.transaction@ == self.transaction_store.txns_v()[version as int]
                &&& t.proof.transaction_info@ == self.ledger_store.infos_v()[version as int]
                &&& txn_info_proof_ok(
                    self.ledger_store.root_at(ledger_version + 1),
                    version,
                    t.proof.transaction_info@,
                    views_of(t.proof.ledger_info_to_transaction_info_proof.siblings@),
                )
                &&& (fetch_events <==> t.events is Some)
                &&& (t.events matches Some(es) ==> crate::types::event_views(es@)
                    == self.event_store.events_v()[version as int])
            },
    {
        if version < self.first_readable_version() {
            return Err(AptosDbError::NotFound);
        }
        let txn_info_with_proof = match self.ledger_store.get_transaction_info_with_proof(
            version,
            ledger_version,
        ) {
            Ok(p) => p,
            Err(e) => {
                return Err(e);
            },
        };
        let transaction = match self.transaction_store.get_transaction(version) {
            Ok(t) => t,
            Err(e) => {
                return Err(e);
            },
        };
        let events = if fetch_events {
            match self.event_store.get_events_by_version(version) {
                Ok(es) => Some(es),
                Err(e) => {
                    return Err(e);
                },
            }
        } else {
            None
        };
        Ok(TransactionWithProof { version, transaction, events, proof: txn_info_with_proof })
    }

    /// The transaction at a version; `get_transaction_with_proof` under its
    /// public name.
    pub fn get_transaction_by_version(&self, version: u64, ledger_version: u64, fetch_events: bool) -> (r: Result<
        TransactionWithProof,
        AptosDbError,
    >)
        requires
            self.wf(),
        ensures
            r is Ok <==> version <= ledger_version && ledger_version < self.num_txns()
                && version >= self.min_readable_version(),
            r matches Ok(t) ==> t.version == version && t.transaction@
                == self.transaction_store.txns_v()[version as int],
    {
        self.get_transaction_with_proof(version, ledger_version, fetch_events)
    }

    /// The transaction with a hash, best effort: the hash index cannot
    /// prove absence.
    pub fn get_transaction_by_hash(&self, hash: &HashValue, ledger_version: u64, fetch_events: bool) -> (r: Result<
        Option<TransactionWithProof>,
        AptosDbError,
    >)
        requires
            self.wf(),
        ensures
            ({
                let f = crate::transaction_store::find_by_hash(
                    self.transaction_store.by_hash@,
                    hash@,
                );
                &&& (r matches Ok(None) <==> (match f {
                    Some(v) => v > ledger_version,
                    None => true,
                }))
                &&& (r is Err <==> (match f {
                    Some(v) => v <= ledger_version && !(ledger_version < self.num_txns()
                        && v >= self.min_readable_version()),
                    None => false,
                }))
                &&& (r matches Ok(Some(t)) ==> {
                    &&& f == Some(t.version)
                    &&& t.version <= ledger_version < self.num_txns()
                    &&& t.transaction@ == self.transaction_store.txns_v()[t.version as int]
                    &&& transaction_hash_of(t.transaction@) == hash@
                    &&& txn_info_proof_ok(
                        self.ledger_store.root_at(ledger_version + 1),
                        t.version,
                        t.proof.transaction_info@,
                        views_of(t.proof.ledger_info_to_transaction_info_proof.siblings@),
                    )
                    &&& (fetch_events <==> t.events is Some)
                })
            }),
    {
        match self.transaction_store.get_transaction_version_by_hash(hash, ledger_version) {
            Some(v) => {
                match self.get_transaction_with_proof(v, ledger_version, fetch_events) {
                    Ok(t) => {
                        proof {
                            let e = crate::transaction_store::find_by_hash(
                                self.transaction_store.by_hash@,
                                hash@,
                            );
                            lemma_find_by_hash_sound(self.transaction_store, hash@);
                        }
                        Ok(Some(t))
                    },
                    Err(e) => Err(e),
                }
            },
            None => Ok(None),
        }
    }

    /// The transaction `address` sent with `seq_num`, when committed at or
    /// before `ledger_version`.
    pub fn get_account_transaction(&self, address: &crate::state_store_key::AccountAddress, seq_num: u64, include_events: bool, ledger_version: u64) -> (r: Result<
        Option<TransactionWithProof>,
        AptosDbError,
    >)
        requires
            self.wf(),
        ensures
            ({
                let f = crate::transaction_store::find_by_account(
                    self.transaction_store.by_account@,
                    address@,
                    seq_num,
                );
                &&& (r matches Ok(None) <==> (match f {
                    Some(v) => v > ledger_version,
                    None => true,
                }))
                &&& (r is Err <==> (match f {
                    Some(v) => v <= ledger_version && !(ledger_version < self.num_txns()
                        && v >= self.min_readable_version()),
                    None => false,
                }))
                &&& (r matches Ok(Some(t)) ==> {
                    &&& f == Some(t.version)
                    &&& t.version <= ledger_version < self.num_txns()
                    &&& t.transaction@ == self.transaction_store.txns_v()[t.version as int]
                    &&& (t.transaction@ matches crate::types::TransactionV::UserTransaction {
                        sender,
                        sequence_number,
                        ..
                    } && sender == address@ && sequence_number == seq_num)
                    &&& t.proof.transaction_info@
                        == self.ledger_store.infos_v()[t.version as int]
                    &&& txn_info_proof_ok(
                        self.ledger_store.root_at(ledger_version + 1),
                        t.version,
                        t.proof.transaction_info@,
                        views_of(t.proof.ledger_info_to_transaction_info_proof.siblings@),
                    )
                    &&& (include_events <==> t.events is Some)
                })
            }),
    {
        match self.transaction_store.get_account_transaction_version(
            address,
            seq_num,
            ledger_version,
        ) {
            Some(v) => {
                match self.get_transaction_with_proof(v, ledger_version, include_events) {
                    Ok(t) => {
                        proof {
                            lemma_find_by_account_sound(self.transaction_store, address@, seq_num);
                        }
                        Ok(Some(t))
                    },
                    Err(e) => Err(e),
                }
            },
            None => Ok(None),
        }
    }

    /// The run of transactions `address` sent starting at `start_seq_num`,
    /// each with its proof; at most `limit` and never more than the page
    /// cap.
    pub fn get_account_transactions(&self, address: &crate::state_store_key::AccountAddress, start_seq_num: u64, limit: u64, include_events: bool, ledger_version: u64) -> (r: Result<
        AccountTransactionsWithProof,
        AptosDbError,
    >)
        requires
            self.wf(),
            start_seq_num + limit <= u64::MAX,
        ensures
            limit > MAX_LIMIT ==> r == Err::<AccountTransactionsWithProof, AptosDbError>(
                AptosDbError::TooManyRequested(limit, MAX_LIMIT),
            ),
            limit <= MAX_LIMIT && ledger_version < self.num_txns()
                && self.min_readable_version() == 0 ==> r is Ok,
            r matches Ok(ts) ==> {
                &&& ts.0@.len() <= limit
                &&& (forall|k: int| 0 <= k < ts.0@.len() ==> {
                    &&& (#[trigger] ts.0@[k]).transaction@
                        == self.transaction_store.txns_v()[ts.0@[k].version as int]
                    &&& crate::transaction_store::find_by_account(
                        self.transaction_store.by_account@,
                        address@,
                        (start_seq_num + k) as u64,
                    ) == Some(ts.0@[k].version)
                    &&& ts.0@[k].version <= ledger_version
                })
            },
    {
        match error_if_too_many_requested(limit, MAX_LIMIT) {
            Ok(_) => {},
            Err(e) => {
                return Err(e);
            },
        }
        let versions = self.transaction_store.get_account_transaction_version_iter(
            address,
            start_seq_num,
            limit,
            ledger_version,
        );
        let mut out: Vec<TransactionWithProof> = Vec::new();
        let mut k: usize = 0;
        while k < versions.len()
            invariant
                self.wf(),
                limit <= MAX_LIMIT,
                start_seq_num + limit <= u64::MAX,
                k <= versions@.len(),
                versions@.len() <= limit,
                out@.len() == k,
                forall|m: int| 0 <= m < versions@.len() ==> {
                    &&& (#[trigger] versions@[m]).0 == start_seq_num + m
                    &&& crate::transaction_store::find_by_account(
                        self.transaction_store.by_account@,
                        address@,
                        (start_seq_num + m) as u64,
                    ) == Some(versions@[m].1)
                    &&& versions@[m].1 <= ledger_version
                },
                forall|m: int| 0 <= m < k ==> {
                    &&& (#[trigger] out@[m]).transaction@
                        == self.transaction_store.txns_v()[out@[m].version as int]
                    &&& out@[m].version == versions@[m].1
                    &&& out@[m].version <= ledger_version
                },
            decreases versions@.len() - k,
        {
            let v = versions[k].1;
            match self.get_transaction_with_proof(v, ledger_version, include_events) {
                Ok(t) => {
                    out.push(t);
                },
                Err(e) => {
                    return Err(e);
                },
            }
            k = k + 1;
        }
        Ok(AccountTransactionsWithProof(out))
    }

    /// The first version holding a transaction, or `None` on an empty
    /// ledger.
    pub fn get_first_txn_version(&self) -> (r: Option<u64>)
        ensures
            r is Some <==> self.num_txns() > 0,
    {
        self.transaction_store.get_first_txn_version()
    }

    /// The first version holding a write set, or `None` on an empty ledger.
    pub fn get_first_write_set_version(&self) -> (r: Option<u64>)
        requires
            self.wf(),
        ensures
            r is Some <==> self.num_txns() > 0,
    {
        self.transaction_store.get_first_write_set_version()
    }

    /// The ledger root at a version.
    pub fn get_accumulator_root_hash(&self, version: u64) -> (r: Result<HashValue, AptosDbError>)
        requires
            self.wf(),
        ensures
            r is Ok <==> version < self.num_txns(),
            r matches Ok(h) ==> h@ == self.ledger_store.root_at(version + 1),
    {
        self.ledger_store.get_root_hash(version)
    }

    /// A consistency proof from the client's known version to
    /// `ledger_version`: it verifies against the roots at both.
    pub fn get_accumulator_consistency_proof(&self, client_known_version: Option<u64>, ledger_version: u64) -> (r: Result<
        AccumulatorConsistencyProof,
        AptosDbError,
    >)
        requires
            self.wf(),
        ensures
            ({
                let known_count: int = match client_known_version {
                    Some(v) => v + 1,
                    None => 0,
                };
                &&& (r is Ok <==> ledger_version < self.num_txns() && known_count
                    <= ledger_version + 1)
                &&& (r matches Ok(pf) ==> consistency_ok(
                    TAG_ACCUMULATOR_INTERNAL,
                    self.ledger_store.root_at(known_count),
                    known_count as nat,
                    self.ledger_store.root_at(ledger_version + 1),
                    (ledger_version + 1) as nat,
                    views_of(pf.leaf_hashes@),
                ))
            }),
    {
        self.ledger_store.get_consistency_proof(client_known_version, ledger_version)
    }

    /// The number of state leaves at a version.
    pub fn get_account_count(&self, version: u64) -> (r: Result<u64, AptosDbError>)
        requires
            self.wf(),
        ensures
            r is Ok <==> version < self.num_txns(),
            r matches Ok(c) ==> c == self.state_store.state_at(version as int).dom().len(),
    {
        self.state_store.get_leaf_count(version)
    }

    /// The state pruner's retention window, when a pruner runs.
    pub fn get_state_prune_window(&self) -> (r: Option<u64>)
        ensures
            r is Some <==> self.pruner is Some,
            r matches Some(w) ==> self.pruner matches Some(p) && p.state_store_prune_window == w,
    {
        match &self.pruner {
            Some(p) => Some(p.state_store_prune_window),
            None => None,
        }
    }
}

/// Every hash-index hit points at a stored transaction with that hash.
pub proof fn lemma_find_by_hash_sound(store: TransactionStore, h: Seq<u8>)
    requires
        store.wf(),
    ensures
        match crate::transaction_store::find_by_hash(store.by_hash@, h) {
            Some(v) => v < store.txns@.len() && transaction_hash_of(store.txns_v()[v as int]) == h,
            None => true,
        },
{
    lemma_find_by_hash_sound_rec(store, store.by_hash@, h);
}

proof fn lemma_find_by_hash_sound_rec(store: TransactionStore, s: Seq<(HashValue, u64)>, h: Seq<u8>)
    requires
        store.wf(),
        forall|i: int| 0 <= i < s.len() ==> exists|j: int|
            0 <= j < store.by_hash@.len() && #[trigger] s[i] == store.by_hash@[j],
    ensures
        match crate::transaction_store::find_by_hash(s, h) {
            Some(v) => v < store.txns@.len() && transaction_hash_of(store.txns_v()[v as int]) == h,
            None => true,
        },
    decreases s.len(),
{
    if s.len() > 0 {
        if s[0].0@ == h {
            let j = choose|j: int|
                0 <= j < store.by_hash@.len() && s[0] == store.by_hash@[j];
            assert(store.by_hash@[j].1 < store.txns@.len());
        } else {
            assert(forall|i: int| 0 <= i < s.drop_first().len() ==> #[trigger] s.drop_first()[i]
                == s[i + 1]);
            lemma_find_by_hash_sound_rec(store, s.drop_first(), h);
        }
    }
}

/// Every account-index hit points at a stored user transaction with that
/// sender and sequence number.
pub proof fn lemma_find_by_account_sound(store: TransactionStore, a: Seq<u8>, q: u64)
    requires
        store.wf(),
    ensures
        match crate::transaction_store::find_by_account(store.by_account@, a, q) {
            Some(v) => v < store.txns@.len()
                && (store.txns_v()[v as int] matches crate::types::TransactionV::UserTransaction {
                sender,
                sequence_number,
                ..
            } && sender == a && sequence_number == q),
            None => true,
        },
{
    lemma_find_by_account_sound_rec(store, store.by_account@, a, q);
}

proof fn lemma_find_by_account_sound_rec(
    store: TransactionStore,
    s: Seq<(crate::state_store_key::AccountAddress, u64, u64)>,
    a: Seq<u8>,
    q: u64,
)
    requires
        store.wf(),
        forall|i: int| 0 <= i < s.len() ==> exists|j: int|
            0 <= j < store.by_account@.len() && #[trigger] s[i] == store.by_account@[j],
    ensures
        match crate::transaction_store::find_by_account(s, a, q) {
            Some(v) => v < store.txns@.len()
                && (store.txns_v()[v as int] matches crate::types::TransactionV::UserTransaction {
                sender,
                sequence_number,
                ..
            } && sender == a && sequence_number == q),
            None => true,
        },
    decreases s.len(),
{
    if s.len() > 0 {
        if s[0].0@ == a && s[0].1 == q {
            let j = choose|j: int|
                0 <= j < store.by_account@.len() && s[0] == store.by_account@[j];
            assert(store.by_account@[j].2 < store.txns@.len());
        } else {
            assert(forall|i: int| 0 <= i < s.drop_first().len() ==> #[trigger] s.drop_first()[i]
                == s[i + 1]);
            lemma_find_by_account_sound_rec(store, s.drop_first(), a, q);
        }
    }
}

} // verus!

verus! {

impl AptosDB {
    /// Ledger infos that closed epochs `start_epoch`, …, `end_epoch - 1`,
    /// paged at `MAX_NUM_EPOCH_ENDING_LEDGER_INFO` entries, with a flag
    /// saying whether more remain.
    pub fn get_epoch_ending_ledger_infos(&self, start_epoch: u64, end_epoch: u64) -> (r: Result<
        (Vec<LedgerInfoWithSignatures>, bool),
        AptosDbError,
    >)
        requires
            self.wf(),
        ensures
            r is Ok <==> (match self.ledger_store.latest_li_v() {
                Some(latest) => start_epoch <= end_epoch && end_epoch
                    <= latest.next_block_epoch(),
                None => false,
            }),
            r matches Ok(p) ==> {
                let paging_end = if end_epoch - start_epoch > MAX_NUM_EPOCH_ENDING_LEDGER_INFO {
                    start_epoch + MAX_NUM_EPOCH_ENDING_LEDGER_INFO
                } else {
                    end_epoch as int
                };
                &&& start_epoch <= end_epoch
                &&& p.0@.len() == paging_end - start_epoch
                &&& p.0@.len() <= MAX_NUM_EPOCH_ENDING_LEDGER_INFO
                &&& (p.1 <==> end_epoch - start_epoch > MAX_NUM_EPOCH_ENDING_LEDGER_INFO)
                &&& (forall|k: int| 0 <= k < p.0@.len() ==> {
                    &&& (#[trigger] p.0@[k])@ == self.ledger_store.lis_v()[start_epoch + k]
                    &&& p.0@[k]@.epoch == start_epoch + k
                    &&& p.0@[k]@.ends_epoch()
                })
            },
    {
        self.get_epoch_ending_ledger_infos_impl(
            start_epoch,
            end_epoch,
            MAX_NUM_EPOCH_ENDING_LEDGER_INFO,
        )
    }

    /// The paging worker behind `get_epoch_ending_ledger_infos`: refuses a
    /// reversed range and a range past the latest sealed epoch, cuts the
    /// page at `limit`, and flags a cut page.
    pub fn get_epoch_ending_ledger_infos_impl(&self, start_epoch: u64, end_epoch: u64, limit: u64) -> (r: Result<
        (Vec<LedgerInfoWithSignatures>, bool),
        AptosDbError,
    >)
        requires
            self.wf(),
        ensures
            r is Ok <==> (match self.ledger_store.latest_li_v() {
                Some(latest) => start_epoch <= end_epoch && end_epoch
                    <= latest.next_block_epoch(),
                None => false,
            }),
            r matches Ok(p) ==> {
                let paging_end = if end_epoch - start_epoch > limit {
                    start_epoch + limit
                } else {
                    end_epoch as int
                };
                &&& start_epoch <= end_epoch
                &&& p.0@.len() == paging_end - start_epoch
                &&& p.0@.len() <= limit
                &&& (p.1 <==> end_epoch - start_epoch > limit)
                &&& (forall|k: int| 0 <= k < p.0@.len() ==> {
                    &&& (#[trigger] p.0@[k])@ == self.ledger_store.lis_v()[start_epoch + k]
                    &&& p.0@[k]@.epoch == start_epoch + k
                    &&& p.0@[k]@.ends_epoch()
                })
            },
    {
        if start_epoch > end_epoch {
            return Err(AptosDbError::BadRange);
        }
        let latest_li = match self.ledger_store.get_latest_ledger_info() {
            Ok(li) => li,
            Err(e) => {
                return Err(e);
            },
        };
        let latest_epoch = latest_li.ledger_info.next_block_epoch();
        proof {
            // The cached latest ledger info sits at the last stored epoch,
            // so the next block's epoch counts exactly the sealed epochs.
            assert(latest_epoch == self.ledger_store.epoch_ends@.len());
        }
        if end_epoch > latest_epoch {
            return Err(AptosDbError::BadRange);
        }
        let (paging_epoch, more) = if end_epoch - start_epoch > limit {
            (start_epoch + limit, true)
        } else {
            (end_epoch, false)
        };
        let lis = match self.ledger_store.get_epoch_ending_ledger_info_iter(
            start_epoch,
            paging_epoch,
        ) {
            Ok(lis) => lis,
            Err(e) => {
                return Err(e);
            },
        };
        Ok((lis, more))
    }

    /// The ledger info that closed its epoch at exactly `version`;
    /// `NotFound` when `version` ends no epoch.
    pub fn get_epoch_ending_ledger_info(&self, version: u64) -> (r: Result<
        LedgerInfoWithSignatures,
        AptosDbError,
    >)
        requires
            self.wf(),
        ensures
            r is Ok <==> (exists|i: int|
                0 <= i < self.ledger_store.epoch_ends@.len()
                    && #[trigger] self.ledger_store.epoch_ends@[i] == version),
            r matches Ok(li) ==> li@.ends_epoch() && li@.version == version
                && self.ledger_store.li_consistent(li@),
    {
        self.ledger_store.get_epoch_ending_ledger_info(version)
    }

    /// A consecutive run of transactions for state synchronisation: the
    /// transactions, their infos under per-version accumulator proofs, and
    /// the events when asked for.  A query past the tip or with no limit
    /// returns the empty list.
    pub fn get_transactions(&self, start_version: u64, limit: u64, ledger_version: u64, fetch_events: bool) -> (r: Result<
        TransactionListWithProof,
        AptosDbError,
    >)
        requires
            self.wf(),
        ensures
            limit > MAX_LIMIT ==> r == Err::<TransactionListWithProof, AptosDbError>(
                AptosDbError::TooManyRequested(limit, MAX_LIMIT),
            ),
            r is Ok <==> limit <= MAX_LIMIT && (start_version > ledger_version || limit == 0
                || (ledger_version < self.num_txns() && start_version
                    >= self.min_readable_version())),
            r matches Ok(t) ==> {
                let real_limit: int = if start_version > ledger_version || limit == 0 {
                    0
                } else if limit <= ledger_version - start_version + 1 {
                    limit as int
                } else {
                    ledger_version - start_version + 1
                };
                &&& t.transactions@.len() == real_limit
                &&& t.proof.transaction_infos@.len() == real_limit
                &&& t.proof.proofs@.len() == real_limit
                &&& (real_limit > 0 ==> t.first_transaction_version == Some(start_version))
                &&& (real_limit == 0 ==> t.first_transaction_version is None)
                &&& (fetch_events && real_limit > 0 <==> t.events is Some)
                &&& (forall|k: int| 0 <= k < real_limit ==> {
                    &&& (#[trigger] t.transactions@[k])@
                        == self.transaction_store.txns_v()[start_version + k]
                    &&& t.proof.transaction_infos@[k]@
                        == self.ledger_store.infos_v()[start_version + k]
                    &&& txn_info_proof_ok(
                        self.ledger_store.root_at(ledger_version + 1),
                        (start_version + k) as u64,
                        t.proof.transaction_infos@[k]@,
                        views_of(t.proof.proofs@[k].siblings@),
                    )
                })
            },
    {
        match error_if_too_many_requested(limit, MAX_LIMIT) {
            Ok(_) => {},
            Err(e) => {
                return Err(e);
            },
        }
        if start_version > ledger_version || limit == 0 {
            return Ok(TransactionListWithProof::new_empty());
        }
        if ledger_version >= self.transaction_store.num_transactions() {
            return Err(AptosDbError::NotFound);
        }
        if start_version < self.first_readable_version() {
            return Err(AptosDbError::NotFound);
        }
        let real_limit = if limit <= ledger_version - start_version + 1 {
            limit
        } else {
            ledger_version - start_version + 1
        };
        let mut txns: Vec<Transaction> = Vec::new();
        let mut infos: Vec<TransactionInfo> = Vec::new();
        let mut pfs: Vec<AccumulatorProof> = Vec::new();
        let mut events: Vec<Vec<ContractEvent>> = Vec::new();
        let mut k: u64 = 0;
        while k < real_limit
            invariant
                self.wf(),
                k <= real_limit,
                start_version + real_limit <= ledger_version + 1,
                ledger_version < self.num_txns(),
                txns@.len() == k,
                infos@.len() == k,
                pfs@.len() == k,
                events@.len() == k,
                forall|m: int| 0 <= m < k ==> {
                    &&& (#[trigger] txns@[m])@
                        == self.transaction_store.txns_v()[start_version + m]
                    &&& infos@[m]@ == self.ledger_store.infos_v()[start_version + m]
                    &&& txn_info_proof_ok(
                        self.ledger_store.root_at(ledger_version + 1),
                        (start_version + m) as u64,
                        infos@[m]@,
                        views_of(pfs@[m].siblings@),
                    )
                },
            decreases real_limit - k,
        {
            let v = start_version + k;
            let txn = match self.transaction_store.get_transaction(v) {
                Ok(t) => t,
                Err(e) => {
                    return Err(e);
                },
            };
            let p = match self.ledger_store.get_transaction_info_with_proof(v, ledger_version) {
                Ok(p) => p,
                Err(e) => {
                    return Err(e);
                },
            };
            if fetch_events {
                match self.event_store.get_events_by_version(v) {
                    Ok(es) => {
                        events.push(es);
                    },
                    Err(e) => {
                        return Err(e);
                    },
                }
            } else {
                events.push(Vec::new());
            }
            txns.push(txn);
            infos.push(p.transaction_info);
            pfs.push(p.ledger_info_to_transaction_info_proof);
            k = k + 1;
        }
        let events_opt = if fetch_events {
            Some(events)
        } else {
            None
        };
        Ok(TransactionListWithProof {
            transactions: txns,
            events: events_opt,
            first_transaction_version: Some(start_version),
            proof: TransactionInfoListWithProof { proofs: pfs, transaction_infos: infos },
        })
    }

    /// A consecutive run of transactions paired with their outputs (write
    /// set, events, gas, status), under the same proofs.
    pub fn get_transaction_outputs(&self, start_version: u64, limit: u64, ledger_version: u64) -> (r: Result<
        TransactionOutputListWithProof,
        AptosDbError,
    >)
        requires
            self.wf(),
        ensures
            limit > MAX_LIMIT ==> r == Err::<TransactionOutputListWithProof, AptosDbError>(
                AptosDbError::TooManyRequested(limit, MAX_LIMIT),
            ),
            r is Ok <==> limit <= MAX_LIMIT && (start_version > ledger_version || limit == 0
                || (ledger_version < self.num_txns() && start_version
                    >= self.min_readable_version())),
            r matches Ok(t) ==> {
                let real_limit: int = if start_version > ledger_version || limit == 0 {
                    0
                } else if limit <= ledger_version - start_version + 1 {
                    limit as int
                } else {
                    ledger_version - start_version + 1
                };
                &&& t.transactions_and_outputs@.len() == real_limit
                &&& t.proof.transaction_infos@.len() == real_limit
                &&& t.proof.proofs@.len() == real_limit
                &&& (real_limit > 0 ==> t.first_transaction_output_version == Some(start_version))
                &&& (real_limit == 0 ==> t.first_transaction_output_version is None)
                &&& (forall|k: int| 0 <= k < real_limit ==> {
                    &&& (#[trigger] t.transactions_and_outputs@[k]).0@
                        == self.transaction_store.txns_v()[start_version + k]
                    &&& t.transactions_and_outputs@[k].1.write_set@
                        == self.transaction_store.write_sets_v()[start_version + k]
                    &&& crate::types::event_views(t.transactions_and_outputs@[k].1.events@)
                        == self.event_store.events_v()[start_version + k]
                    &&& t.transactions_and_outputs@[k].1.gas_used
                        == self.ledger_store.infos_v()[start_version + k].gas_used
                    &&& t.transactions_and_outputs@[k].1.status
                        == self.ledger_store.infos_v()[start_version + k].status
                    &&& t.proof.transaction_infos@[k]@
                        == self.ledger_store.infos_v()[start_version + k]
                    &&& txn_info_proof_ok(
                        self.ledger_store.root_at(ledger_version + 1),
                        (start_version + k) as u64,
                        t.proof.transaction_infos@[k]@,
                        views_of(t.proof.proofs@[k].siblings@),
                    )
                })
            },
    {
        match error_if_too_many_requested(limit, MAX_LIMIT) {
            Ok(_) => {},
            Err(e) => {
                return Err(e);
            },
        }
        if start_version > ledger_version || limit == 0 {
            return Ok(TransactionOutputListWithProof::new_empty());
        }
        if ledger_version >= self.transaction_store.num_transactions() {
            return Err(AptosDbError::NotFound);
        }
        if start_version < self.first_readable_version() {
            return Err(AptosDbError::NotFound);
        }
        let real_limit = if limit <= ledger_version - start_version + 1 {
            limit
        } else {
            ledger_version - start_version + 1
        };
        let mut pairs: Vec<(Transaction, TransactionOutput)> = Vec::new();
        let mut infos: Vec<TransactionInfo> = Vec::new();
        let mut pfs: Vec<AccumulatorProof> = Vec::new();
        let mut k: u64 = 0;
        while k < real_limit
            invariant
                self.wf(),
                k <= real_limit,
                start_version + real_limit <= ledger_version + 1,
                ledger_version < self.num_txns(),
                pairs@.len() == k,
                infos@.len() == k,
                pfs@.len() == k,
                forall|m: int| 0 <= m < k ==> {
                    &&& (#[trigger] pairs@[m]).0@
                        == self.transaction_store.txns_v()[start_version + m]
                    &&& pairs@[m].1.write_set@
                        == self.transaction_store.write_sets_v()[start_version + m]
                    &&& crate::types::event_views(pairs@[m].1.events@)
                        == self.event_store.events_v()[start_version + m]
                    &&& pairs@[m].1.gas_used
                        == self.ledger_store.infos_v()[start_version + m].gas_used
                    &&& pairs@[m].1.status
                        == self.ledger_store.infos_v()[start_version + m].status
                    &&& infos@[m]@ == self.ledger_store.infos_v()[start_version + m]
                    &&& txn_info_proof_ok(
                        self.ledger_store.root_at(ledger_version + 1),
                        (start_version + m) as u64,
                        infos@[m]@,
                        views_of(pfs@[m].siblings@),
                    )
                },
            decreases real_limit - k,
        {
            let v = start_version + k;
            let p = match self.ledger_store.get_transaction_info_with_proof(v, ledger_version) {
                Ok(p) => p,
                Err(e) => {
                    return Err(e);
                },
            };
            let es = match self.event_store.get_events_by_version(v) {
                Ok(es) => es,
                Err(e) => {
                    return Err(e);
                },
            };
            let write_set = match self.transaction_store.get_write_set(v) {
                Ok(w) => w,
                Err(e) => {
                    return Err(e);
                },
            };
            let txn = match self.transaction_store.get_transaction(v) {
                Ok(t) => t,
                Err(e) => {
                    return Err(e);
                },
            };
            let output = TransactionOutput {
                write_set,
                events: es,
                gas_used: p.transaction_info.gas_used,
                status: p.transaction_info.status,
            };
            pairs.push((txn, output));
            infos.push(p.transaction_info);
            pfs.push(p.ledger_info_to_transaction_info_proof);
            k = k + 1;
        }
        Ok(TransactionOutputListWithProof {
            transactions_and_outputs: pairs,
            first_transaction_output_version: Some(start_version),
            proof: TransactionInfoListWithProof { proofs: pfs, transaction_infos: infos },
        })
    }
}

} // verus!

verus! {

impl AptosDB {
    /// Events under a key from a cursor, in the requested order, paged at
    /// `limit` and capped at `MAX_LIMIT`, each with a proof against the
    /// root at `ledger_version`.  A descending query whose cursor lies past
    /// the newest sequence number returns the empty list; a cursor of
    /// `u64::MAX` means "from the newest".  A broken index surfaces as
    /// `Corruption`.
    pub fn get_events_with_proof_by_event_key(
        &self,
        event_key: &EventKey,
        start_seq_num: u64,
        order: Order,
        limit: u64,
        ledger_version: u64,
    ) -> (r: Result<Vec<EventWithProof>, AptosDbError>)
        requires
            self.wf(),
        ensures
            limit > MAX_LIMIT ==> r == Err::<Vec<EventWithProof>, AptosDbError>(
                AptosDbError::TooManyRequested(limit, MAX_LIMIT),
            ),
            limit >= 1 && limit <= MAX_LIMIT && ledger_version < self.num_txns() ==> r is Ok
                || r == Err::<Vec<EventWithProof>, AptosDbError>(AptosDbError::Corruption),
            r matches Ok(es) ==> events_query_post(
                self.event_store.entries_of(event_key@),
                start_seq_num,
                order,
                limit,
                ledger_version,
                Seq::new(
                    es@.len() as nat,
                    |k: int|
                        ({
                            let e = if order is Descending {
                                es@[es@.len() - 1 - k]
                            } else {
                                es@[k]
                            };
                            (e.event@.sequence_number, e.transaction_version, e.event_index)
                        }),
                ),
            ),
            r matches Ok(es) ==> {
                &&& es@.len() <= limit
                &&& (forall|k: int| 0 <= k < es@.len() ==> {
                    let e = #[trigger] es@[k];
                    &&& e.transaction_version < self.num_txns()
                    &&& e.event@ == self.event_store.events_v()[e.transaction_version as int][e.event_index as int]
                    &&& e.event@.key == event_key@
                    &&& txn_info_proof_ok(
                        self.ledger_store.root_at(ledger_version + 1),
                        e.transaction_version,
                        e.proof.transaction_info_with_proof.transaction_info@,
                        views_of(
                            e.proof.transaction_info_with_proof.ledger_info_to_transaction_info_proof.siblings@,
                        ),
                    )
                    &&& crate::accumulator::acc_proof_ok(
                        crate::hash::TAG_EVENT_ACCUMULATOR_INTERNAL,
                        e.proof.transaction_info_with_proof.transaction_info@.event_root_hash,
                        crate::types::event_hash_of(e.event@),
                        e.event_index as nat,
                        views_of(e.proof.transaction_info_to_event_proof.siblings@),
                    )
                })
            },
    {
        match error_if_too_many_requested(limit, MAX_LIMIT) {
            Ok(_) => {},
            Err(e) => {
                return Err(e);
            },
        }
        let ghost es_spec = self.event_store.entries_of(event_key@);
        let get_latest = matches!(order, Order::Descending) && start_seq_num == u64::MAX;
        let cursor = if get_latest {
            match self.event_store.get_latest_sequence_number(ledger_version, event_key) {
                Some(s) => s,
                None => 0,
            }
        } else {
            start_seq_num
        };
        proof {
            assert(cursor == spec_event_cursor(es_spec, start_seq_num, order, ledger_version));
        }
        let (first_seq, real_limit) = match get_first_seq_num_and_limit(order, cursor, limit) {
            Ok(p) => p,
            Err(e) => {
                return Err(e);
            },
        };
        let mut event_indices = self.event_store.lookup_events_by_key(
            event_key,
            first_seq,
            real_limit,
            ledger_version,
        );
        let ghost raw = event_indices@;
        let ghost pw = choose|p: int|
            lookup_post(es_spec, first_seq, real_limit, ledger_version, raw, p);
        let ghost coerced = order is Descending && raw.len() > 0 && raw[raw.len() - 1].0 < cursor;
        // A descending cursor past the tip: the last entry the index gave
        // back stops short of the cursor, so the request lay out of range.
        if matches!(order, Order::Descending) {
            if event_indices.len() > 0 {
                if event_indices[event_indices.len() - 1].0 < cursor {
                    event_indices = Vec::new();
                }
            }
        }
        proof {
            if coerced {
                assert(event_indices@.len() == 0);
            } else {
                assert(event_indices@ == raw);
            }
            assert(forall|m: int| 0 <= m < event_indices@.len()
                ==> (#[trigger] event_indices@[m]).1 <= ledger_version);
        }
        let mut out: Vec<EventWithProof> = Vec::new();
        let mut k: usize = 0;
        let n = event_indices.len();
        while k < n
            invariant
                self.wf(),
                n == event_indices@.len(),
                n <= real_limit <= limit,
                limit <= MAX_LIMIT,
                k <= n,
                out@.len() == k,
                forall|m: int| 0 <= m < event_indices@.len()
                    ==> (#[trigger] event_indices@[m]).1 <= ledger_version,
                forall|m: int| 0 <= m < k ==> (
                    (#[trigger] out@[m]).event@.sequence_number,
                    out@[m].transaction_version,
                    out@[m].event_index,
                ) == event_indices@[m],
                forall|m: int| 0 <= m < k ==> {
                    let e = #[trigger] out@[m];
                    &&& e.transaction_version < self.num_txns()
                    &&& e.event@ == self.event_store.events_v()[e.transaction_version as int][e.event_index as int]
                    &&& e.event@.key == event_key@
                    &&& txn_info_proof_ok(
                        self.ledger_store.root_at(ledger_version + 1),
                        e.transaction_version,
                        e.proof.transaction_info_with_proof.transaction_info@,
                        views_of(
                            e.proof.transaction_info_with_proof.ledger_info_to_transaction_info_proof.siblings@,
                        ),
                    )
                    &&& crate::accumulator::acc_proof_ok(
                        crate::hash::TAG_EVENT_ACCUMULATOR_INTERNAL,
                        e.proof.transaction_info_with_proof.transaction_info@.event_root_hash,
                        crate::types::event_hash_of(e.event@),
                        e.event_index as nat,
                        views_of(e.proof.transaction_info_to_event_proof.siblings@),
                    )
                },
            decreases n - k,
        {
            let (seq, ver, idx) = event_indices[k];
            let (event, event_proof) = match self.event_store.get_event_with_proof_by_version_and_index(
                ver,
                idx,
            ) {
                Ok(p) => p,
                Err(_) => {
                    return Err(AptosDbError::Corruption);
                },
            };
            if event.sequence_number != seq {
                return Err(AptosDbError::Corruption);
            }
            if !event.key.equals(event_key) {
                return Err(AptosDbError::Corruption);
            }
            let txn_info_with_proof = match self.ledger_store.get_transaction_info_with_proof(
                ver,
                ledger_version,
            ) {
                Ok(p) => p,
                Err(e) => {
                    return Err(e);
                },
            };
            proof {
                assert(self.ledger_store.infos_v()[ver as int].event_root_hash == event_root_of(
                    self.event_store.events_v()[ver as int],
                ));
            }
            let ep = EventProof {
                transaction_info_with_proof: txn_info_with_proof,
                transaction_info_to_event_proof: event_proof,
            };
            out.push(EventWithProof {
                transaction_version: ver,
                event_index: idx,
                event,
                proof: ep,
            });
            k = k + 1;
        }
        proof {
            assert forall|m: int| 0 <= m < out@.len() implies (
                (#[trigger] out@[m]).event@.sequence_number,
                out@[m].transaction_version,
                out@[m].event_index,
            ) == (if coerced {
                Seq::<(u64, u64, u64)>::empty()
            } else {
                raw
            })[m] by {
                if !coerced {
                    assert(event_indices@[m] == raw[m]);
                }
            }
        }
        if matches!(order, Order::Descending) {
            let ghost orig = out@;
            let mut rev: Vec<EventWithProof> = Vec::new();
            while out.len() > 0
                invariant
                    orig.len() <= limit,
                    out@ == orig.take(out@.len() as int),
                    rev@.len() + out@.len() == orig.len(),
                    forall|x: int| 0 <= x < rev@.len()
                        ==> #[trigger] rev@[x] == orig[orig.len() - 1 - x],
                decreases out@.len(),
            {
                let e = match out.pop() {
                    Some(e) => e,
                    None => {
                        return Err(AptosDbError::Corruption);
                    },
                };
                proof {
                    assert(orig.take(out@.len() as int + 1).last() == orig[out@.len() as int]);
                    assert(orig.take(out@.len() as int + 1).drop_last() =~= orig.take(
                        out@.len() as int,
                    ));
                }
                rev.push(e);
            }
            proof {
                assert(forall|m: int| 0 <= m < orig.len() ==> #[trigger] orig[m]
                    == orig.take(orig.len() as int)[m]);
                let triples = Seq::new(
                    rev@.len() as nat,
                    |k: int|
                        ({
                            let e = if order is Descending {
                                rev@[rev@.len() - 1 - k]
                            } else {
                                rev@[k]
                            };
                            (e.event@.sequence_number, e.transaction_version, e.event_index)
                        }),
                );
                if coerced {
                    assert(triples.len() == 0);
                } else {
                    assert forall|k: int| 0 <= k < triples.len() implies triples[k] == raw[k] by {
                        assert(rev@[rev@.len() - 1 - k] == orig[k]);
                    }
                    assert(triples =~= raw);
                }
                assert(lookup_post(
                    es_spec,
                    spec_first_seq_num_and_limit(
                        order,
                        spec_event_cursor(es_spec, start_seq_num, order, ledger_version),
                        limit,
                    ).0,
                    spec_first_seq_num_and_limit(
                        order,
                        spec_event_cursor(es_spec, start_seq_num, order, ledger_version),
                        limit,
                    ).1,
                    ledger_version,
                    raw,
                    pw,
                ));
                assert(events_query_post(
                    es_spec,
                    start_seq_num,
                    order,
                    limit,
                    ledger_version,
                    triples,
                ));
            }
            Ok(rev)
        } else {
            proof {
                let triples = Seq::new(
                    out@.len() as nat,
                    |k: int|
                        ({
                            let e = if order is Descending {
                                out@[out@.len() - 1 - k]
                            } else {
                                out@[k]
                            };
                            (e.event@.sequence_number, e.transaction_version, e.event_index)
                        }),
                );
                assert(triples =~= raw);
                assert(lookup_post(
                    es_spec,
                    spec_first_seq_num_and_limit(
                        order,
                        spec_event_cursor(es_spec, start_seq_num, order, ledger_version),
                        limit,
                    ).0,
                    spec_first_seq_num_and_limit(
                        order,
                        spec_event_cursor(es_spec, start_seq_num, order, ledger_version),
                        limit,
                    ).1,
                    ledger_version,
                    raw,
                    pw,
                ));
                assert(events_query_post(
                    es_spec,
                    start_seq_num,
                    order,
                    limit,
                    ledger_version,
                    triples,
                ));
            }
            Ok(out)
        }
    }

    /// Events under a key, each with its proof; a `known_version` pins the
    /// root, otherwise the latest attested version serves.
    pub fn get_events_with_proofs(&self, event_key: &EventKey, start: u64, order: Order, limit: u64, known_version: Option<u64>) -> (r: Result<
        Vec<EventWithProof>,
        AptosDbError,
    >)
        requires
            self.wf(),
        ensures
            known_version is None && self.ledger_store.latest_li is None ==> r is Err,
            ({
                let lv = match known_version {
                    Some(v) => v,
                    None => match self.ledger_store.latest_li_v() {
                        Some(l) => l.version,
                        None => 0,
                    },
                };
                &&& (limit >= 1 && limit <= MAX_LIMIT && lv < self.num_txns()
                    && (known_version is Some || self.ledger_store.latest_li is Some) ==> r is Ok
                    || r == Err::<Vec<EventWithProof>, AptosDbError>(AptosDbError::Corruption))
                &&& (r matches Ok(es) ==> events_query_post(
                    self.event_store.entries_of(event_key@),
                    start,
                    order,
                    limit,
                    lv,
                    Seq::new(
                        es@.len() as nat,
                        |k: int|
                            ({
                                let e = if order is Descending {
                                    es@[es@.len() - 1 - k]
                                } else {
                                    es@[k]
                                };
                                (e.event@.sequence_number, e.transaction_version, e.event_index)
                            }),
                    ),
                ))
                &&& (r matches Ok(es) ==> {
                    &&& es@.len() <= limit
                    &&& (forall|k: int| 0 <= k < es@.len() ==> {
                        let e = #[trigger] es@[k];
                        &&& e.transaction_version < self.num_txns()
                        &&& e.event@ == self.event_store.events_v()[e.transaction_version as int][e.event_index as int]
                        &&& e.event@.key == event_key@
                    })
                })
            }),
    {
        let version = match known_version {
            Some(v) => v,
            None => {
                match self.get_latest_version() {
                    Ok(v) => v,
                    Err(e) => {
                        return Err(e);
                    },
                }
            },
        };
        self.get_events_with_proof_by_event_key(event_key, start, order, limit, version)
    }

    /// Events under a key at the latest attested version, stripped to
    /// `(version, event)` pairs, in the requested order; the underlying
    /// index run and the past-tip coercion are those of the proof-carrying
    /// query.
    pub fn get_events(&self, event_key: &EventKey, start: u64, order: Order, limit: u64) -> (r: Result<
        Vec<(u64, ContractEvent)>,
        AptosDbError,
    >)
        requires
            self.wf(),
        ensures
            self.ledger_store.latest_li is None ==> r is Err,
            ({
                let lv = match self.ledger_store.latest_li_v() {
                    Some(l) => l.version,
                    None => 0,
                };
                &&& (limit >= 1 && limit <= MAX_LIMIT && lv < self.num_txns()
                    && self.ledger_store.latest_li is Some ==> r is Ok || r == Err::<
                    Vec<(u64, ContractEvent)>,
                    AptosDbError,
                >(AptosDbError::Corruption))
                &&& (r matches Ok(ps) ==> {
                    &&& ps@.len() <= limit
                    &&& (exists|idxs: Seq<u64>| #![trigger idxs.len()]
                        {
                            &&& idxs.len() == ps@.len()
                            &&& events_query_post(
                                self.event_store.entries_of(event_key@),
                                start,
                                order,
                                limit,
                                lv,
                                Seq::new(
                                    ps@.len() as nat,
                                    |k: int|
                                        ({
                                            let j = if order is Descending {
                                                ps@.len() - 1 - k
                                            } else {
                                                k
                                            };
                                            (ps@[j].1@.sequence_number, ps@[j].0, idxs[j])
                                        }),
                                ),
                            )
                            &&& (forall|k: int| 0 <= k < ps@.len() ==> {
                                &&& (#[trigger] ps@[k]).0 < self.num_txns()
                                &&& ps@[k].1@ == self.event_store.events_v()[ps@[k].0 as int][idxs[k] as int]
                                &&& ps@[k].1@.key == event_key@
                            })
                        })
                })
            }),
    {
        let with_proofs = match self.get_events_with_proofs(event_key, start, order, limit, None) {
            Ok(es) => es,
            Err(e) => {
                return Err(e);
            },
        };
        let ghost inner = with_proofs@;
        let ghost idxs = Seq::new(inner.len(), |k: int| inner[k].event_index);
        let mut out: Vec<(u64, ContractEvent)> = Vec::new();
        let ghost cap = limit;
        let mut rest = with_proofs;
        let mut taken: Vec<(u64, ContractEvent)> = Vec::new();
        while rest.len() > 0
            invariant
                taken@.len() + rest@.len() == inner.len(),
                inner.len() <= cap,
                rest@ == inner.take(rest@.len() as int),
                forall|x: int| 0 <= x < taken@.len() ==> #[trigger] taken@[x] == (
                    inner[inner.len() - 1 - x].transaction_version,
                    inner[inner.len() - 1 - x].event,
                ),
            decreases rest@.len(),
        {
            let e = match rest.pop() {
                Some(e) => e,
                None => {
                    return Err(AptosDbError::Corruption);
                },
            };
            proof {
                assert(inner.take(rest@.len() as int + 1).last() == inner[rest@.len() as int]);
                assert(inner.take(rest@.len() as int + 1).drop_last() =~= inner.take(
                    rest@.len() as int,
                ));
            }
            taken.push((e.transaction_version, e.event));
        }
        let ghost taken_full = taken@;
        while taken.len() > 0
            invariant
                out@.len() + taken@.len() == taken_full.len(),
                taken_full.len() == inner.len() <= cap,
                taken@ == taken_full.take(taken@.len() as int),
                forall|x: int| 0 <= x < taken_full.len() ==> #[trigger] taken_full[x] == (
                    inner[inner.len() - 1 - x].transaction_version,
                    inner[inner.len() - 1 - x].event,
                ),
                forall|x: int| 0 <= x < out@.len() ==> #[trigger] out@[x]
                    == taken_full[taken_full.len() - 1 - x],
            decreases taken@.len(),
        {
            let p = match taken.pop() {
                Some(p) => p,
                None => {
                    return Err(AptosDbError::Corruption);
                },
            };
            proof {
                assert(taken_full.take(taken@.len() as int + 1).last()
                    == taken_full[taken@.len() as int]);
                assert(taken_full.take(taken@.len() as int + 1).drop_last() =~= taken_full.take(
                    taken@.len() as int,
                ));
            }
            out.push(p);
        }
        proof {
            assert(forall|m: int| 0 <= m < inner.len() ==> #[trigger] inner[m] == inner.take(
                inner.len() as int,
            )[m]);
            assert forall|k: int| 0 <= k < out@.len() implies #[trigger] out@[k] == (
                inner[k].transaction_version,
                inner[k].event,
            ) by {
                assert(out@[k] == taken_full[taken_full.len() - 1 - k]);
            }
            let lv = match self.ledger_store.latest_li_v() {
                Some(l) => l.version,
                None => 0u64,
            };
            let mine = Seq::new(
                out@.len() as nat,
                |k: int|
                    ({
                        let j = if order is Descending {
                            out@.len() - 1 - k
                        } else {
                            k
                        };
                        (out@[j].1@.sequence_number, out@[j].0, idxs[j])
                    }),
            );
            let theirs = Seq::new(
                inner.len() as nat,
                |k: int|
                    ({
                        let e = if order is Descending {
                            inner[inner.len() - 1 - k]
                        } else {
                            inner[k]
                        };
                        (e.event@.sequence_number, e.transaction_version, e.event_index)
                    }),
            );
            assert(mine =~= theirs);
            assert(idxs.len() == out@.len());
        }
        Ok(out)
    }
}

} // verus!

verus! {

impl AptosDB {
    /// Everything a client at `known_version` needs to catch up to the
    /// given ledger info: the epoch changes on the way and a consistency
    /// proof up to the last ledger info the client will be able to verify.
    pub fn get_state_proof_with_ledger_info(&self, known_version: u64, ledger_info_with_sigs: LedgerInfoWithSignatures) -> (r: Result<
        StateProof,
        AptosDbError,
    >)
        requires
            self.wf(),
            ledger_info_with_sigs@.epoch < 0xffff_ffff_ffff_ffff,
        ensures
            self.ledger_store.latest_li_v() == Some(ledger_info_with_sigs@) && known_version
                <= ledger_info_with_sigs@.version ==> r is Ok,
            r matches Ok(sp) ==> (sp.epoch_changes.ledger_info_with_sigs@.len() > 0
                <==> crate::ledger_store::epoch_of(self.ledger_store.epoch_ends@, known_version)
                    < ledger_info_with_sigs@.next_block_epoch()),
            r matches Ok(sp) ==> {
                &&& sp.ledger_info_with_sigs@ == ledger_info_with_sigs@
                &&& known_version <= ledger_info_with_sigs@.version
                &&& (forall|k: int| 0 <= k < sp.epoch_changes.ledger_info_with_sigs@.len()
                    ==> (#[trigger] sp.epoch_changes.ledger_info_with_sigs@[k])@.ends_epoch())
                &&& (!sp.epoch_changes.more ==> consistency_ok(
                    TAG_ACCUMULATOR_INTERNAL,
                    self.ledger_store.root_at(known_version + 1),
                    (known_version + 1) as nat,
                    self.ledger_store.root_at(ledger_info_with_sigs@.version + 1),
                    (ledger_info_with_sigs@.version + 1) as nat,
                    views_of(sp.consistency_proof.leaf_hashes@),
                ))
                &&& (sp.epoch_changes.more ==> ({
                    let lis = sp.epoch_changes.ledger_info_with_sigs@;
                    lis.len() > 0 && consistency_ok(
                        TAG_ACCUMULATOR_INTERNAL,
                        self.ledger_store.root_at(known_version + 1),
                        (known_version + 1) as nat,
                        self.ledger_store.root_at(lis[lis.len() - 1]@.version + 1),
                        (lis[lis.len() - 1]@.version + 1) as nat,
                        views_of(sp.consistency_proof.leaf_hashes@),
                    )
                }))
            },
    {
        if known_version > ledger_info_with_sigs.ledger_info.version {
            return Err(AptosDbError::BadRange);
        }
        let known_epoch = self.ledger_store.get_epoch(known_version);
        proof {
            crate::ledger_store::lemma_epoch_of_le(self.ledger_store.epoch_ends@, known_version);
        }
        let end_epoch = ledger_info_with_sigs.ledger_info.next_block_epoch();
        let epoch_change_proof = if known_epoch < end_epoch {
            let (lis, more) = match self.get_epoch_ending_ledger_infos(known_epoch, end_epoch) {
                Ok(p) => p,
                Err(e) => {
                    return Err(e);
                },
            };
            EpochChangeProof { ledger_info_with_sigs: lis, more }
        } else {
            EpochChangeProof { ledger_info_with_sigs: Vec::new(), more: false }
        };
        // A client that must sync further epochs cannot verify the latest
        // ledger info yet, so the consistency proof stops at the last
        // epoch-ending ledger info of the page.
        let verifiable_version = if epoch_change_proof.more {
            let n = epoch_change_proof.ledger_info_with_sigs.len();
            if n == 0 {
                return Err(AptosDbError::Corruption);
            }
            let vv = epoch_change_proof.ledger_info_with_sigs[n - 1].ledger_info.version;
            proof {
                // The page's last ledger info closed the epoch at its
                // version, which lies at or past the end of the client's
                // own epoch, hence at or past the client's version.
                let lis = epoch_change_proof.ledger_info_with_sigs@;
                let e = known_epoch + n - 1;
                assert(lis[n - 1]@ == self.ledger_store.lis_v()[e as int]);
                assert(self.ledger_store.epoch_ends@[e as int]
                    == self.ledger_store.lis_v()[e as int].version);
                if (known_epoch as int) < self.ledger_store.epoch_ends@.len() {
                    assert(known_version <= self.ledger_store.epoch_ends@[known_epoch as int]);
                    if known_epoch as int <= e - 1 {
                        assert(self.ledger_store.epoch_ends@[known_epoch as int]
                            <= self.ledger_store.epoch_ends@[e as int]);
                    }
                }
                assert(self.ledger_store.li_consistent(self.ledger_store.lis_v()[e as int]));
            }
            vv
        } else {
            ledger_info_with_sigs.ledger_info.version
        };
        let consistency_proof = match self.ledger_store.get_consistency_proof(
            Some(known_version),
            verifiable_version,
        ) {
            Ok(p) => p,
            Err(e) => {
                return Err(e);
            },
        };
        proof {
            if known_version <= verifiable_version && verifiable_version < self.num_txns() {
                assert(consistency_ok(
                    TAG_ACCUMULATOR_INTERNAL,
                    self.ledger_store.root_at(known_version + 1),
                    (known_version + 1) as nat,
                    self.ledger_store.root_at(verifiable_version + 1),
                    (verifiable_version + 1) as nat,
                    views_of(consistency_proof.leaf_hashes@),
                ));
            }
        }
        Ok(StateProof {
            ledger_info_with_sigs,
            epoch_changes: epoch_change_proof,
            consistency_proof,
        })
    }

    /// `get_state_proof_with_ledger_info` against the latest attested
    /// ledger info.
    pub fn get_state_proof(&self, known_version: u64) -> (r: Result<StateProof, AptosDbError>)
        requires
            self.wf(),
        ensures
            r is Ok <==> (match self.ledger_store.latest_li_v() {
                Some(latest) => known_version <= latest.version,
                None => false,
            }),
            r matches Ok(sp) ==> known_version <= sp.ledger_info_with_sigs@.version
                && self.ledger_store.latest_li_v() == Some(sp.ledger_info_with_sigs@),
    {
        let li = match self.ledger_store.get_latest_ledger_info() {
            Ok(li) => li,
            Err(e) => {
                return Err(e);
            },
        };
        self.get_state_proof_with_ledger_info(known_version, li)
    }

    /// The value a key held at `version`, under both the accumulator proof
    /// of that version's transaction info against the root at
    /// `ledger_version` and the sparse Merkle proof against its state
    /// root.
    pub fn get_value_with_proof(&self, state_store_key: &ResourceKey, version: u64, ledger_version: u64) -> (r: Result<
        ResourceValueWithProof,
        AptosDbError,
    >)
        requires
            self.wf(),
        ensures
            r is Ok <==> version <= ledger_version && (match self.ledger_store.latest_li_v() {
                Some(latest) => ledger_version <= latest.version,
                None => false,
            }) && version >= self.min_readable_state_version(),
            r matches Ok(p) ==> {
                let m = self.state_store.state_at(version as int);
                let kh = resource_key_hash_of(state_store_key@);
                &&& version <= ledger_version < self.num_txns()
                &&& p.version == version
                &&& (match p.value {
                    Some(ref v) => m.dom().contains(kh) && m[kh] == v@,
                    None => !m.dom().contains(kh),
                })
                &&& txn_info_proof_ok(
                    self.ledger_store.root_at(ledger_version + 1),
                    version,
                    p.proof.transaction_info_with_proof.transaction_info@,
                    views_of(
                        p.proof.transaction_info_with_proof.ledger_info_to_transaction_info_proof.siblings@,
                    ),
                )
                &&& smt_proof_ok(
                    p.proof.transaction_info_with_proof.transaction_info@.state_root_hash,
                    kh,
                    match p.value {
                        Some(ref v) => Some(v@),
                        None => None,
                    },
                    leaf_view(p.proof.transaction_info_to_value_proof.leaf),
                    views_of(p.proof.transaction_info_to_value_proof.siblings@),
                )
            },
    {
        if version > ledger_version {
            return Err(AptosDbError::BadRange);
        }
        let latest = match self.get_latest_version() {
            Ok(v) => v,
            Err(e) => {
                return Err(e);
            },
        };
        if ledger_version > latest {
            return Err(AptosDbError::BadRange);
        }
        let txn_info_with_proof = match self.ledger_store.get_transaction_info_with_proof(
            version,
            ledger_version,
        ) {
            Ok(p) => p,
            Err(e) => {
                return Err(e);
            },
        };
        let (value, smt_pf) = match self.get_value_with_proof_by_version(state_store_key, version) {
            Ok(p) => p,
            Err(e) => {
                return Err(e);
            },
        };
        proof {
            assert(self.ledger_store.infos_v()[version as int].state_root_hash
                == self.state_store.trees@[version as int].root_hash_of());
        }
        Ok(ResourceValueWithProof {
            version,
            value,
            proof: ResourceValueProof {
                transaction_info_with_proof: txn_info_with_proof,
                transaction_info_to_value_proof: smt_pf,
            },
        })
    }

    /// The latest version and its transaction info, or `None` on an empty
    /// ledger.
    pub fn get_latest_transaction_info_option(&self) -> (r: Option<(u64, TransactionInfo)>)
        requires
            self.wf(),
        ensures
            r is Some <==> self.num_txns() > 0,
            r matches Some(p) ==> p.0 + 1 == self.num_txns() && p.1@
                == self.ledger_store.infos_v()[p.0 as int],
    {
        self.ledger_store.get_latest_transaction_info_option()
    }

    /// The shape of the ledger at startup: its length, the accumulator
    /// leaves, and the state root after the last transaction (the sparse
    /// Merkle placeholder on an empty ledger).
    pub fn get_latest_tree_state(&self) -> (r: Result<TreeState, AptosDbError>)
        requires
            self.wf(),
        ensures
            r is Ok,
            r matches Ok(t) ==> {
                &&& t.num_transactions == self.num_txns()
                &&& views_of(t.ledger_accumulator_leaf_hashes@) == views_of(
                    self.ledger_store.info_hashes@,
                )
                &&& (self.num_txns() > 0 ==> t.account_state_root_hash@
                    == self.ledger_store.infos_v()[self.num_txns() - 1].state_root_hash)
                &&& (self.num_txns() == 0 ==> t.account_state_root_hash@
                    == crate::hash::placeholder_of(crate::hash::TAG_SPARSE_MERKLE_PLACEHOLDER))
            },
    {
        let n = self.transaction_store.num_transactions();
        let mut leaves: Vec<HashValue> = Vec::new();
        let mut i: usize = 0;
        let total = self.ledger_store.info_hashes.len();
        while i < total
            invariant
                self.wf(),
                total == self.ledger_store.info_hashes@.len(),
                i <= total,
                leaves@.len() == i,
                forall|j: int| 0 <= j < i
                    ==> (#[trigger] leaves@[j])@ == self.ledger_store.info_hashes@[j]@,
            decreases total - i,
        {
            leaves.push(self.ledger_store.info_hashes[i].clone());
            i = i + 1;
        }
        proof {
            assert(views_of(leaves@) =~= views_of(self.ledger_store.info_hashes@));
        }
        let root = if n == 0 {
            crate::hash::placeholder(crate::hash::TAG_SPARSE_MERKLE_PLACEHOLDER)
        } else {
            match self.ledger_store.get_transaction_info(n - 1) {
                Ok(t) => t.state_root_hash,
                Err(e) => {
                    return Err(e);
                },
            }
        };
        Ok(TreeState {
            num_transactions: n,
            ledger_accumulator_leaf_hashes: leaves,
            account_state_root_hash: root,
        })
    }

    /// The bootstrapping snapshot: the latest ledger info with the tree
    /// state, or `None` before the first commit carrying a ledger info.
    pub fn get_startup_info(&self) -> (r: Result<Option<StartupInfo>, AptosDbError>)
        requires
            self.wf(),
        ensures
            r is Ok,
            r matches Ok(o) ==> (o is Some <==> self.ledger_store.latest_li is Some),
            r matches Ok(Some(s)) ==> self.ledger_store.latest_li_v() == Some(
                s.latest_ledger_info@,
            ) && s.committed_tree_state.num_transactions == self.num_txns(),
    {
        let li = match &self.ledger_store.latest_li {
            Some(li) => li.clone(),
            None => {
                return Ok(None);
            },
        };
        let epoch_state = match &li.ledger_info.next_epoch_state {
            Some(s) => Some(crate::hash::clone_bytes(s)),
            None => None,
        };
        let tree_state = match self.get_latest_tree_state() {
            Ok(t) => t,
            Err(e) => {
                return Err(e);
            },
        };
        Ok(Some(StartupInfo {
            latest_ledger_info: li,
            latest_epoch_state: epoch_state,
            committed_tree_state: tree_state,
        }))
    }

    /// The timestamp in force at `version`: the timestamp of the last
    /// block-metadata marker at or before it, walking down from `version`,
    /// or zero when no block precedes it.
    pub open spec fn spec_block_timestamp(txns: Seq<crate::types::TransactionV>, v: int) -> u64
        decreases v + 1,
    {
        if v < 0 {
            0
        } else {
            match txns[v] {
                crate::types::TransactionV::BlockMetadata { timestamp_usecs, .. } =>
                    timestamp_usecs,
                _ => Self::spec_block_timestamp(txns, v - 1),
            }
        }
    }

    /// A stretch with no block-metadata marker keeps its timestamp.
    proof fn lemma_block_timestamp_stable(txns: Seq<crate::types::TransactionV>, a: int, b: int)
        requires
            -1 <= a <= b < txns.len(),
            forall|w: int| a < w <= b
                ==> !((#[trigger] txns[w]) is BlockMetadata),
        ensures
            Self::spec_block_timestamp(txns, b) == Self::spec_block_timestamp(txns, a),
        decreases b - a,
    {
        if a < b {
            Self::lemma_block_timestamp_stable(txns, a, b - 1);
        }
    }

    /// The timestamp of the block containing `version`: exactly the last
    /// block-metadata marker's timestamp at or before it, zero before the
    /// first block (genesis).
    pub fn get_block_timestamp(&self, version: u64) -> (r: Result<u64, AptosDbError>)
        requires
            self.wf(),
        ensures
            r is Ok <==> version < self.num_txns(),
            r matches Ok(ts) ==> ts == Self::spec_block_timestamp(
                self.transaction_store.txns_v(),
                version as int,
            ),
    {
        match self.transaction_store.get_block_metadata(version) {
            Ok(Some((w, txn))) => {
                match txn {
                    Transaction::BlockMetadata { timestamp_usecs, .. } => {
                        proof {
                            let tv = self.transaction_store.txns_v();
                            Self::lemma_block_timestamp_stable(tv, w as int, version as int);
                            assert(Self::spec_block_timestamp(tv, w as int) == timestamp_usecs);
                        }
                        Ok(timestamp_usecs)
                    },
                    _ => Err(AptosDbError::Corruption),
                }
            },
            Ok(None) => {
                proof {
                    let tv = self.transaction_store.txns_v();
                    Self::lemma_block_timestamp_stable(tv, -1, version as int);
                }
                Ok(0)
            },
            Err(e) => Err(e),
        }
    }

    /// The latest version whose block timestamp lies strictly before
    /// `timestamp`; `NotFound` when even the first block is at or past it
    /// or the queried version lies past the tip.
    pub fn get_last_version_before_timestamp(&self, timestamp: u64, ledger_version: u64) -> (r: Result<
        u64,
        AptosDbError,
    >)
        requires
            self.wf(),
        ensures
            r is Ok <==> ledger_version < self.num_txns() && (exists|v: int|
                0 <= v <= ledger_version && #[trigger] Self::spec_block_timestamp(
                    self.transaction_store.txns_v(),
                    v,
                ) < timestamp),
            r matches Ok(v) ==> {
                &&& v <= ledger_version && ledger_version < self.num_txns()
                &&& Self::spec_block_timestamp(self.transaction_store.txns_v(), v as int)
                    < timestamp
                &&& (forall|w: int| v < w <= ledger_version
                    ==> #[trigger] Self::spec_block_timestamp(
                        self.transaction_store.txns_v(),
                        w,
                    ) >= timestamp)
            },
    {
        if ledger_version >= self.transaction_store.num_transactions() {
            return Err(AptosDbError::NotFound);
        }
        let mut v: u64 = ledger_version;
        loop
            invariant
                self.wf(),
                v <= ledger_version < self.num_txns(),
                forall|w: int| v < w <= ledger_version
                    ==> #[trigger] Self::spec_block_timestamp(
                        self.transaction_store.txns_v(),
                        w,
                    ) >= timestamp,
            decreases v,
        {
            let ts = match self.get_block_timestamp(v) {
                Ok(ts) => ts,
                Err(e) => {
                    return Err(e);
                },
            };
            if ts < timestamp {
                proof {
                    assert(Self::spec_block_timestamp(
                        self.transaction_store.txns_v(),
                        v as int,
                    ) < timestamp);
                }
                return Ok(v);
            }
            if v == 0 {
                return Err(AptosDbError::NotFound);
            }
            v = v - 1;
        }
    }

    /// The epoch a version belongs to.
    pub fn get_epoch(&self, version: u64) -> (r: u64)
        requires
            self.wf(),
        ensures
            r == crate::ledger_store::epoch_of(self.ledger_store.epoch_ends@, version),
    {
        self.ledger_store.get_epoch(version)
    }

    /// The two events bounding `event_version` under a key: the last one
    /// at or before it and the first one after it, each with a proof
    /// against the root at `proof_version`.
    pub fn get_event_by_version_with_proof(&self, event_key: &EventKey, event_version: u64, proof_version: u64) -> (r: Result<
        EventByVersionWithProof,
        AptosDbError,
    >)
        requires
            self.wf(),
        ensures
            self.ledger_store.latest_li is None ==> r is Err,
            (match self.ledger_store.latest_li_v() {
                Some(latest) => proof_version > latest.version,
                None => true,
            }) ==> r is Err,
            event_version > proof_version ==> r is Err,
            r matches Ok(p) ==> {
                &&& event_version <= proof_version
                &&& (p.lower_bound_incl matches Some(e) ==> e.event@.key == event_key@)
                &&& (p.upper_bound_excl matches Some(e) ==> e.event@.key == event_key@)
                &&& (latest_visible_seq(
                    self.event_store.entries_of(event_key@),
                    event_version,
                ) is None ==> p.lower_bound_incl is None)
            },
    {
        let latest = match self.get_latest_version() {
            Ok(v) => v,
            Err(e) => {
                return Err(e);
            },
        };
        if proof_version > latest {
            return Err(AptosDbError::BadRange);
        }
        if event_version > proof_version {
            return Err(AptosDbError::BadRange);
        }
        let maybe_seq_num = self.event_store.get_latest_sequence_number(event_version, event_key);
        match maybe_seq_num {
            Some(seq_num) => {
                // The two surrounding events show that no other event hits
                // the queried version window.
                let events = match self.get_events_with_proof_by_event_key(
                    event_key,
                    seq_num,
                    Order::Ascending,
                    2,
                    proof_version,
                ) {
                    Ok(es) => es,
                    Err(e) => {
                        return Err(e);
                    },
                };
                let mut rest = events;
                let upper = if rest.len() > 1 {
                    rest.pop()
                } else {
                    None
                };
                let lower = rest.pop();
                Ok(EventByVersionWithProof { lower_bound_incl: lower, upper_bound_excl: upper })
            },
            None => {
                let events = match self.get_events_with_proof_by_event_key(
                    event_key,
                    0,
                    Order::Ascending,
                    1,
                    proof_version,
                ) {
                    Ok(es) => es,
                    Err(e) => {
                        return Err(e);
                    },
                };
                let mut rest = events;
                let upper = rest.pop();
                Ok(EventByVersionWithProof { lower_bound_incl: None, upper_bound_excl: upper })
            },
        }
    }
}

} // verus!

verus! {

impl AptosDB {
    /// The bytes stored under `path` in the account state of `address` at
    /// the latest attested version, decoded from the account's blob; a
    /// missing or undecodable blob yields nothing.
    pub fn get_resource(&self, address: &crate::state_store_key::AccountAddress, path: &Vec<u8>) -> (r: Result<
        Option<Vec<u8>>,
        AptosDbError,
    >)
        requires
            self.wf(),
        ensures
            r is Ok <==> (match self.ledger_store.latest_li_v() {
                Some(latest) => latest.version >= self.min_readable_state_version(),
                None => false,
            }),
            r matches Ok(o) ==> ({
                let lv = self.ledger_store.latest_li_v().unwrap().version;
                let m = self.state_store.state_at(lv as int);
                let kh = crate::state_store_key::resource_key_hash_of(
                    crate::state_store_key::account_address_key_prefix() + address@,
                );
                &&& (!m.dom().contains(kh) ==> o is None)
                &&& (match o {
                    Some(b) => m.dom().contains(kh) && (exists|es: Seq<(Seq<u8>, Seq<u8>)>|
                        {
                            &&& #[trigger] crate::account_state::account_state_enc(es) == m[kh]
                            &&& crate::account_state::find_path(es, path@) == Some(b@)
                        }),
                    None => true,
                })
            }),
    {
        let key = ResourceKey::AccountAddressKey(address.clone());
        let blob = match self.get_latest_value(&key) {
            Ok(b) => b,
            Err(e) => {
                return Err(e);
            },
        };
        match blob {
            Some(b) => {
                match crate::account_state::decode_account_state(&b.bytes) {
                    Some(st) => {
                        let got = st.get(path);
                        proof {
                            assert(crate::account_state::account_state_enc(st.view_entries())
                                == b@);
                        }
                        Ok(got)
                    },
                    None => Ok(None),
                }
            },
            None => Ok(None),
        }
    }

    /// The module bytes stored under `access_path` for `address`; modules
    /// live in the same account state as resources.
    pub fn get_module(&self, address: &crate::state_store_key::AccountAddress, access_path: &Vec<u8>) -> (r: Result<
        Option<Vec<u8>>,
        AptosDbError,
    >)
        requires
            self.wf(),
        ensures
            r is Ok <==> (match self.ledger_store.latest_li_v() {
                Some(latest) => latest.version >= self.min_readable_state_version(),
                None => false,
            }),
            r matches Ok(o) ==> ({
                let lv = self.ledger_store.latest_li_v().unwrap().version;
                let m = self.state_store.state_at(lv as int);
                let kh = crate::state_store_key::resource_key_hash_of(
                    crate::state_store_key::account_address_key_prefix() + address@,
                );
                &&& (!m.dom().contains(kh) ==> o is None)
                &&& (match o {
                    Some(b) => m.dom().contains(kh) && (exists|es: Seq<(Seq<u8>, Seq<u8>)>|
                        {
                            &&& #[trigger] crate::account_state::account_state_enc(es) == m[kh]
                            &&& crate::account_state::find_path(es, access_path@) == Some(b@)
                        }),
                    None => true,
                })
            }),
    {
        self.get_resource(address, access_path)
    }
}

} // verus!

verus! {

use crate::state_store::{ResourceValueChunkWithProof, StateSnapshotReceiver};

impl AptosDB {
    /// A chunk of `chunk_size` state leaves at `version` starting at
    /// `first_index` in key order, each value proved against the state
    /// root at that version.
    pub fn get_account_chunk_with_proof(&self, version: u64, first_index: u64, chunk_size: u64) -> (r: Result<
        ResourceValueChunkWithProof,
        AptosDbError,
    >)
        requires
            self.wf(),
        ensures
            r is Ok <==> version < self.num_txns() && chunk_size >= 1 && first_index + chunk_size
                <= self.state_store.state_at(version as int).dom().len(),
            r matches Ok(c) ==> {
                &&& version < self.num_txns()
                &&& c.raw_values@.len() == chunk_size
                &&& c.root_hash@ == self.state_store.trees@[version as int].root_hash_of()
                &&& (forall|i: int| 0 <= i < c.raw_values@.len() ==> {
                    let m = self.state_store.state_at(version as int);
                    &&& m.dom().contains((#[trigger] c.raw_values@[i]).0@)
                    &&& m[c.raw_values@[i].0@] == c.raw_values@[i].1@
                })
                &&& (forall|i: int| 0 <= i < c.raw_values@.len() ==> smt_proof_ok(
                    self.state_store.trees@[version as int].root_hash_of(),
                    (#[trigger] c.raw_values@[i]).0@,
                    Some(c.raw_values@[i].1@),
                    leaf_view(c.proof.proofs@[i].leaf),
                    views_of(c.proof.proofs@[i].siblings@),
                ))
            },
    {
        self.state_store.get_value_chunk_with_proof(version, first_index, chunk_size)
    }

    /// A streaming importer for the state snapshot of `version`: chunks
    /// accumulate and finishing succeeds exactly when the built tree
    /// hashes to `expected_root_hash`.
    pub fn get_state_snapshot_receiver(&self, version: u64, expected_root_hash: HashValue) -> (r: StateSnapshotReceiver)
        ensures
            r.version == version,
            r.expected_root_hash@ == expected_root_hash@,
            r.tree.wf(),
    {
        StateSnapshotReceiver::new(version, expected_root_hash)
    }
}

} // verus!
