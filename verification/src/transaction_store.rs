//! Persists transactions and write sets by version, with the two secondary
//! indices: by transaction hash and by `(sender, sequence number)`.

use vstd::prelude::*;
use crate::hash::HashValue;
use crate::state_store_key::AccountAddress;
use crate::types::{Transaction, TransactionV, WriteSet, WriteSetV, txn_views, write_set_views, transaction_hash_of};
use crate::change_set::ChangeSet;
use crate::errors::AptosDbError;

verus! {

/// Looks a transaction hash up in the hash index.
pub open spec fn find_by_hash(s: Seq<(HashValue, u64)>, h: Seq<u8>) -> Option<u64>
    decreases s.len(),
{
    if s.len() == 0 {
        None
    } else if s[0].0@ == h {
        Some(s[0].1)
    } else {
        find_by_hash(s.drop_first(), h)
    }
}

/// Looks a `(sender, sequence number)` pair up in the account index.
pub open spec fn find_by_account(s: Seq<(AccountAddress, u64, u64)>, a: Seq<u8>, q: u64) -> Option<u64>
    decreases s.len(),
{
    if s.len() == 0 {
        None
    } else if s[0].0@ == a && s[0].1 == q {
        Some(s[0].2)
    } else {
        find_by_account(s.drop_first(), a, q)
    }
}

/// Looking up after appending entries: an existing hit stands; a miss
/// falls through to the appended part.
pub proof fn lemma_find_by_account_push(s: Seq<(AccountAddress, u64, u64)>, e: (AccountAddress, u64, u64), a: Seq<u8>, q: u64)
    ensures
        find_by_account(s.push(e), a, q) == (match find_by_account(s, a, q) {
            Some(v) => Some(v),
            None => {
                if e.0@ == a && e.1 == q {
                    Some(e.2)
                } else {
                    None
                }
            },
        }),
    decreases s.len(),
{
    if s.len() == 0 {
        assert(s.push(e)[0] == e);
        assert(s.push(e).drop_first() =~= Seq::<(AccountAddress, u64, u64)>::empty());
        assert(find_by_account(s, a, q) is None);
        assert(find_by_account(s.push(e).drop_first(), a, q) is None);
    } else {
        assert(s.push(e)[0] == s[0]);
        assert(s.push(e).drop_first() =~= s.drop_first().push(e));
        lemma_find_by_account_push(s.drop_first(), e, a, q);
        assert(find_by_account(s.push(e), a, q) == (if s[0].0@ == a && s[0].1 == q {
            Some(s[0].2)
        } else {
            find_by_account(s.drop_first().push(e), a, q)
        }));
    }
}

/// The store of transactions and write sets, indexed by version.
#[derive(Debug)]
pub struct TransactionStore {
    /// The committed transactions; the index is the version.
    pub txns: Vec<Transaction>,
    /// The write set of each version.
    pub write_sets: Vec<WriteSet>,
    /// Transaction hash to version.
    pub by_hash: Vec<(HashValue, u64)>,
    /// `(sender, sequence number)` to version.
    pub by_account: Vec<(AccountAddress, u64, u64)>,
}

impl TransactionStore {
    /// The views of the stored transactions.
    pub open spec fn txns_v(self) -> Seq<TransactionV> {
        txn_views(self.txns@)
    }

    /// The views of the stored write sets.
    pub open spec fn write_sets_v(self) -> Seq<WriteSetV> {
        write_set_views(self.write_sets@)
    }

    /// Internal consistency: one write set per transaction, and every index
    /// entry points at a matching stored transaction.
    pub open spec fn wf(self) -> bool {
        &&& self.write_sets@.len() == self.txns@.len()
        &&& (forall|i: int| 0 <= i < self.by_hash@.len() ==> {
            let e = #[trigger] self.by_hash@[i];
            e.1 < self.txns@.len() && e.0@ == transaction_hash_of(self.txns_v()[e.1 as int])
        })
        &&& (forall|i: int| 0 <= i < self.by_account@.len() ==> {
            let e = #[trigger] self.by_account@[i];
            &&& e.2 < self.txns@.len()
            &&& self.txns_v()[e.2 as int] matches TransactionV::UserTransaction {
                sender,
                sequence_number,
                ..
            } && sender == e.0@ && sequence_number == e.1
        })
    }

    /// An empty store.
    pub fn new() -> (r: Self)
        ensures
            r.wf(),
            r.txns@.len() == 0,
            r.by_hash@.len() == 0,
            r.by_account@.len() == 0,
    {
        TransactionStore {
            txns: Vec::new(),
            write_sets: Vec::new(),
            by_hash: Vec::new(),
            by_account: Vec::new(),
        }
    }

    /// The number of committed transactions: one past the latest version.
    pub fn num_transactions(&self) -> (r: u64)
        requires
            self.txns@.len() <= u64::MAX,
        ensures
            r == self.txns@.len(),
    {
        self.txns.len() as u64
    }

    /// The transaction at a version; `NotFound` past the latest.
    pub fn get_transaction(&self, version: u64) -> (r: Result<Transaction, AptosDbError>)
        ensures
            r is Ok <==> version < self.txns@.len(),
            r matches Ok(t) ==> t@ == self.txns_v()[version as int],
    {
        if version < self.txns.len() as u64 {
            let t = self.txns[version as usize].clone();
            proof {
                assert(self.txns_v()[version as int] == self.txns@[version as int]@);
            }
            Ok(t)
        } else {
            Err(AptosDbError::NotFound)
        }
    }

    /// The write set of a version; `NotFound` past the latest.
    pub fn get_write_set(&self, version: u64) -> (r: Result<WriteSet, AptosDbError>)
        ensures
            r is Ok <==> version < self.write_sets@.len(),
            r matches Ok(w) ==> w@ == self.write_sets_v()[version as int],
    {
        if version < self.write_sets.len() as u64 {
            let w = self.write_sets[version as usize].clone();
            proof {
                assert(self.write_sets_v()[version as int] == self.write_sets@[version as int]@);
            }
            Ok(w)
        } else {
            Err(AptosDbError::NotFound)
        }
    }

    /// The first version holding a transaction, or `None` on an empty
    /// ledger.
    pub fn get_first_txn_version(&self) -> (r: Option<u64>)
        ensures
            r is Some <==> self.txns@.len() > 0,
            r matches Some(v) ==> v == 0,
    {
        if self.txns.len() > 0 {
            Some(0)
        } else {
            None
        }
    }

    /// The first version holding a write set, or `None` on an empty ledger.
    pub fn get_first_write_set_version(&self) -> (r: Option<u64>)
        ensures
            r is Some <==> self.write_sets@.len() > 0,
            r matches Some(v) ==> v == 0,
    {
        if self.write_sets.len() > 0 {
            Some(0)
        } else {
            None
        }
    }

    /// The version a transaction hash resolves to, if it is at most
    /// `ledger_version`.
    pub fn get_transaction_version_by_hash(&self, hash: &HashValue, ledger_version: u64) -> (r: Option<u64>)
        ensures
            r == match find_by_hash(self.by_hash@, hash@) {
                Some(v) => if v <= ledger_version {
                    Some(v)
                } else {
                    None::<u64>
                },
                None => None::<u64>,
            },
    {
        proof {
            assert(self.by_hash@.skip(0) =~= self.by_hash@);
        }
        let mut i: usize = 0;
        while i < self.by_hash.len()
            invariant
                i <= self.by_hash@.len(),
                find_by_hash(self.by_hash@, hash@) == find_by_hash(self.by_hash@.skip(i as int), hash@),
            decreases self.by_hash@.len() - i,
        {
            proof {
                assert(self.by_hash@.skip(i as int).drop_first() =~= self.by_hash@.skip(i as int + 1));
                assert(self.by_hash@.skip(i as int)[0] == self.by_hash@[i as int]);
            }
            if self.by_hash[i].0.equals(hash) {
                let v = self.by_hash[i].1;
                if v <= ledger_version {
                    return Some(v);
                } else {
                    return None;
                }
            }
            i = i + 1;
        }
        None
    }

    /// The version of the transaction `address` sent with sequence number
    /// `seq_num`, if it is at most `ledger_version`.
    pub fn get_account_transaction_version(&self, address: &AccountAddress, seq_num: u64, ledger_version: u64) -> (r: Option<u64>)
        ensures
            r == match find_by_account(self.by_account@, address@, seq_num) {
                Some(v) => if v <= ledger_version {
                    Some(v)
                } else {
                    None::<u64>
                },
                None => None::<u64>,
            },
    {
        proof {
            assert(self.by_account@.skip(0) =~= self.by_account@);
        }
        let mut i: usize = 0;
        while i < self.by_account.len()
            invariant
                i <= self.by_account@.len(),
                find_by_account(self.by_account@, address@, seq_num) == find_by_account(
                    self.by_account@.skip(i as int),
                    address@,
                    seq_num,
                ),
            decreases self.by_account@.len() - i,
        {
            proof {
                assert(self.by_account@.skip(i as int).drop_first() =~= self.by_account@.skip(
                    i as int + 1,
                ));
                assert(self.by_account@.skip(i as int)[0] == self.by_account@[i as int]);
            }
            if self.by_account[i].0.equals(address) && self.by_account[i].1 == seq_num {
                let v = self.by_account[i].2;
                if v <= ledger_version {
                    return Some(v);
                } else {
                    return None;
                }
            }
            i = i + 1;
        }
        None
    }

    /// The versions of the transactions `address` sent with sequence
    /// numbers `start_seq_num`, `start_seq_num + 1`, …: the run stops at the
    /// first sequence number with no transaction at or below
    /// `ledger_version`, and after at most `limit` entries.
    pub fn get_account_transaction_version_iter(
        &self,
        address: &AccountAddress,
        start_seq_num: u64,
        limit: u64,
        ledger_version: u64,
    ) -> (r: Vec<(u64, u64)>)
        requires
            start_seq_num + limit <= u64::MAX,
        ensures
            r@.len() <= limit,
            forall|k: int| 0 <= k < r@.len() ==> {
                &&& (#[trigger] r@[k]).0 == start_seq_num + k
                &&& find_by_account(self.by_account@, address@, (start_seq_num + k) as u64)
                    == Some(r@[k].1)
                &&& r@[k].1 <= ledger_version
            },
    {
        let mut out: Vec<(u64, u64)> = Vec::new();
        let mut seq = start_seq_num;
        while seq < start_seq_num + limit
            invariant
                start_seq_num + limit <= u64::MAX,
                start_seq_num <= seq <= start_seq_num + limit,
                out@.len() == seq - start_seq_num,
                forall|k: int| 0 <= k < out@.len() ==> {
                    &&& (#[trigger] out@[k]).0 == start_seq_num + k
                    &&& find_by_account(self.by_account@, address@, (start_seq_num + k) as u64)
                        == Some(out@[k].1)
                    &&& out@[k].1 <= ledger_version
                },
            decreases start_seq_num + limit - seq,
        {
            match self.get_account_transaction_version(address, seq, ledger_version) {
                Some(v) => {
                    out.push((seq, v));
                },
                None => {
                    return out;
                },
            }
            seq = seq + 1;
        }
        out
    }

    /// The latest block-metadata transaction at or before `version`,
    /// with its version.
    pub fn get_block_metadata(&self, version: u64) -> (r: Result<Option<(u64, Transaction)>, AptosDbError>)
        ensures
            r is Err <==> self.txns@.len() == 0 || version >= self.txns@.len(),
            r matches Ok(Some(p)) ==> {
                &&& p.0 <= version < self.txns@.len()
                &&& p.1@ == self.txns_v()[p.0 as int]
                &&& self.txns_v()[p.0 as int] is BlockMetadata
                &&& (forall|w: int| p.0 < w <= version
                    ==> !(#[trigger] self.txns_v()[w] is BlockMetadata))
            },
            r matches Ok(None) ==> (forall|w: int| 0 <= w <= version
                ==> !(#[trigger] self.txns_v()[w] is BlockMetadata)),
    {
        if self.txns.len() == 0 || version >= self.txns.len() as u64 {
            return Err(AptosDbError::NotFound);
        }
        let n = self.txns.len();
        let mut w: u64 = version;
        loop
            invariant
                n == self.txns@.len() <= usize::MAX,
                w <= version < self.txns@.len(),
                forall|u: int| w < u <= version ==> !(#[trigger] self.txns_v()[u] is BlockMetadata),
            decreases w,
        {
            proof {
                assert(self.txns_v()[w as int] == self.txns@[w as int]@);
            }
            let is_meta = self.txns[w as usize].is_block_metadata();
            if is_meta {
                return Ok(Some((w, self.txns[w as usize].clone())));
            }
            if w == 0 {
                return Ok(None);
            }
            w = w - 1;
        }
    }

    /// Stages a transaction for `version` into the change set.
    pub fn put_transaction(&self, version: u64, txn: &Transaction, cs: &mut ChangeSet)
        requires
            version == old(cs).first_version + old(cs).txns@.len(),
        ensures
            txn_views(final(cs).txns@) == txn_views(old(cs).txns@).push(txn@),
            final(cs).txns@.len() == old(cs).txns@.len() + 1,
            final(cs).first_version == old(cs).first_version,
            final(cs).write_sets == old(cs).write_sets,
            final(cs).events == old(cs).events,
            final(cs).event_roots == old(cs).event_roots,
            final(cs).state_trees == old(cs).state_trees,
            final(cs).state_roots == old(cs).state_roots,
            final(cs).leaf_counts == old(cs).leaf_counts,
            final(cs).txn_infos == old(cs).txn_infos,
            final(cs).ledger_info == old(cs).ledger_info,
    {
        cs.txns.push(txn.clone());
        proof {
            assert(txn_views(cs.txns@) =~= txn_views(old(cs).txns@).push(txn@));
        }
    }

    /// Stages the write set of `version` into the change set.
    pub fn put_write_set(&self, version: u64, write_set: &WriteSet, cs: &mut ChangeSet)
        requires
            version == old(cs).first_version + old(cs).write_sets@.len(),
        ensures
            write_set_views(final(cs).write_sets@) == write_set_views(old(cs).write_sets@).push(
                write_set@,
            ),
            final(cs).write_sets@.len() == old(cs).write_sets@.len() + 1,
            final(cs).first_version == old(cs).first_version,
            final(cs).txns == old(cs).txns,
            final(cs).events == old(cs).events,
            final(cs).event_roots == old(cs).event_roots,
            final(cs).state_trees == old(cs).state_trees,
            final(cs).state_roots == old(cs).state_roots,
            final(cs).leaf_counts == old(cs).leaf_counts,
            final(cs).txn_infos == old(cs).txn_infos,
            final(cs).ledger_info == old(cs).ledger_info,
    {
        cs.write_sets.push(write_set.clone());
        proof {
            assert(write_set_views(cs.write_sets@) =~= write_set_views(old(cs).write_sets@).push(
                write_set@,
            ));
        }
    }

    /// Applies a committed batch: appends its transactions and write sets
    /// and indexes each transaction by hash and, for a user transaction,
    /// by `(sender, sequence number)`.
    pub fn apply(&mut self, txns: &Vec<Transaction>, write_sets: &Vec<WriteSet>)
        requires
            old(self).wf(),
            txns@.len() == write_sets@.len(),
        ensures
            final(self).wf(),
            final(self).txns_v() == old(self).txns_v() + txn_views(txns@),
            final(self).write_sets_v() == old(self).write_sets_v() + write_set_views(write_sets@),
            forall|i: int| 0 <= i < txns@.len()
                ==> ((#[trigger] txn_views(txns@)[i]) matches TransactionV::UserTransaction {
                    sender,
                    sequence_number,
                    ..
                } ==> find_by_account(final(self).by_account@, sender, sequence_number) is Some),
    {
        let ghost oldtv = self.txns_v();
        let ghost oldwv = self.write_sets_v();
        let n = self.txns.len();
        let mut i: usize = 0;
        while i < txns.len()
            invariant
                self.wf(),
                i <= txns@.len(),
                txns@.len() == write_sets@.len(),
                n + txns@.len() == oldtv.len() + txns@.len(),
                n == oldtv.len(),
                self.txns@.len() == n + i,
                self.write_sets@.len() == n + i,
                self.txns_v() =~= oldtv + txn_views(txns@.take(i as int)),
                self.write_sets_v() =~= oldwv + write_set_views(write_sets@.take(i as int)),
                forall|m: int| 0 <= m < i
                    ==> ((#[trigger] txn_views(txns@)[m]) matches TransactionV::UserTransaction {
                        sender,
                        sequence_number,
                        ..
                    } ==> find_by_account(self.by_account@, sender, sequence_number) is Some),
            decreases txns@.len() - i,
        {
            let txn = &txns[i];
            let version = self.txns.len() as u64;
            let h = txn.hash();
            let ghost pretv = self.txns_v();
            let ghost prewv = self.write_sets_v();
            self.txns.push(txn.clone());
            self.write_sets.push(write_sets[i].clone());
            proof {
                assert(self.txns_v() =~= pretv.push(txn@));
                assert(self.write_sets_v() =~= prewv.push(write_sets@[i as int]@));
                assert(write_set_views(write_sets@.take(i as int + 1)) =~= write_set_views(
                    write_sets@.take(i as int),
                ).push(write_sets@[i as int]@));
                assert(txn_views(txns@.take(i as int + 1)) =~= txn_views(txns@.take(i as int)).push(
                    txns@[i as int]@,
                ));
                assert(self.txns_v() =~= oldtv + txn_views(txns@.take(i as int + 1)));
                assert(self.write_sets_v() =~= oldwv + write_set_views(write_sets@.take(i as int + 1)));
                assert(self.txns_v()[version as int] == txn@);
            }
            self.by_hash.push((h, version));
            let ghost preacc = self.by_account@;
            match txn {
                Transaction::UserTransaction { sender, sequence_number, .. } => {
                    self.by_account.push((sender.clone(), *sequence_number, version));
                },
                _ => {},
            }
            proof {
                // Earlier hits stand under the push, and this transaction's
                // own entry is now found.
                assert forall|m: int| 0 <= m <= i as int implies ((#[trigger] txn_views(
                    txns@,
                )[m]) matches TransactionV::UserTransaction { sender, sequence_number, .. }
                    ==> find_by_account(self.by_account@, sender, sequence_number) is Some) by {
                    match txn_views(txns@)[m] {
                        TransactionV::UserTransaction { sender: sm, sequence_number: qm, .. } => {
                            if self.by_account@.len() == preacc.len() + 1 {
                                lemma_find_by_account_push(
                                    preacc,
                                    self.by_account@[preacc.len() as int],
                                    sm,
                                    qm,
                                );
                                assert(self.by_account@ =~= preacc.push(
                                    self.by_account@[preacc.len() as int],
                                ));
                            }
                            if m < i as int {
                                assert(find_by_account(preacc, sm, qm) is Some);
                            } else {
                                assert(txn_views(txns@)[m] == txn@);
                            }
                        },
                        _ => {},
                    }
                }
            }
            i = i + 1;
        }
        proof {
            assert(txns@.take(txns@.len() as int) =~= txns@);
            assert(write_sets@.take(write_sets@.len() as int) =~= write_sets@);
            assert(self.txns_v() == oldtv + txn_views(txns@));
            assert(self.write_sets_v() == oldwv + write_set_views(write_sets@));
        }
    }
}

} // verus!
