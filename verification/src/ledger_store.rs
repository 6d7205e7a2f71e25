//! Owns the transaction info accumulator, the per-epoch ledger infos with
//! the epoch index, and the in-memory latest ledger info; serves
//! accumulator inclusion proofs and consistency proofs.

use vstd::prelude::*;
use crate::hash::{HashValue, TAG_ACCUMULATOR_INTERNAL};
use crate::accumulator::{
    accumulator_root, accumulator_gen_proof, acc_root_of, views_of, AccumulatorProof,
    AccumulatorConsistencyProof, consistency_ok,
};
use crate::types::{
    TransactionInfo, TransactionInfoV, LedgerInfoWithSignatures, LedgerInfoV, info_views, lis_views,
    transaction_info_hash_of,
};
use crate::proofs::{TransactionInfoWithProof, txn_info_proof_ok};
use crate::change_set::ChangeSet;
use crate::errors::AptosDbError;

verus! {

/// The epoch a version belongs to, given the ending versions of the closed
/// epochs in increasing order: the first epoch whose ending version is not
/// below it, or the open epoch after all closed ones.
pub open spec fn epoch_of(ends: Seq<u64>, version: u64) -> int
    decreases ends.len(),
{
    if ends.len() == 0 {
        0
    } else if version <= ends[0] {
        0
    } else {
        1 + epoch_of(ends.drop_first(), version)
    }
}

/// The epoch of a version counts between zero and the number of closed
/// epochs.
pub proof fn lemma_epoch_of_bounds(ends: Seq<u64>, version: u64)
    ensures
        0 <= epoch_of(ends, version) <= ends.len(),
    decreases ends.len(),
{
    if ends.len() > 0 && version > ends[0] {
        lemma_epoch_of_bounds(ends.drop_first(), version);
    }
}

/// A version sits at or before the end of the epoch it belongs to.
pub proof fn lemma_epoch_of_le(ends: Seq<u64>, version: u64)
    ensures
        epoch_of(ends, version) < ends.len() ==> version <= ends[epoch_of(ends, version)],
    decreases ends.len(),
{
    if ends.len() > 0 && version > ends[0] {
        lemma_epoch_of_le(ends.drop_first(), version);
        let e = epoch_of(ends, version);
        assert(e == 1 + epoch_of(ends.drop_first(), version));
        if e < ends.len() {
            lemma_epoch_of_bounds(ends.drop_first(), version);
            assert(e - 1 < ends.drop_first().len());
            assert(ends.drop_first() =~= ends.subrange(1, ends.len() as int));
            assert(ends.drop_first()[e - 1] == ends[e]);
        }
    }
}

/// The store of transaction info records and ledger infos.
#[derive(Debug)]
pub struct LedgerStore {
    /// The transaction info records; the index is the version.
    pub txn_infos: Vec<TransactionInfo>,
    /// The hash of each record: the accumulator leaves.
    pub info_hashes: Vec<HashValue>,
    /// The stored ledger info of each epoch; all but possibly the last
    /// close their epoch.
    pub lis_by_epoch: Vec<LedgerInfoWithSignatures>,
    /// The ending version of each closed epoch, in increasing order.
    pub epoch_ends: Vec<u64>,
    /// The latest ledger info, cached in memory once a commit carrying one
    /// succeeds.
    pub latest_li: Option<LedgerInfoWithSignatures>,
}

impl LedgerStore {
    /// The views of the stored transaction info records.
    pub open spec fn infos_v(self) -> Seq<TransactionInfoV> {
        info_views(self.txn_infos@)
    }

    /// The views of the stored per-epoch ledger infos.
    pub open spec fn lis_v(self) -> Seq<LedgerInfoV> {
        lis_views(self.lis_by_epoch@)
    }

    /// The ledger root over the first `count` accumulator leaves.
    pub open spec fn root_at(self, count: int) -> Seq<u8> {
        acc_root_of(TAG_ACCUMULATOR_INTERNAL, views_of(self.info_hashes@.take(count)))
    }

    /// The view of the cached latest ledger info.
    pub open spec fn latest_li_v(self) -> Option<LedgerInfoV> {
        match self.latest_li {
            Some(li) => Some(li@),
            None => None,
        }
    }

    /// What the store demands of a ledger info at version `v` under epoch
    /// `e`: it attests the accumulator root over versions `0..=v`.
    pub open spec fn li_consistent(self, li: LedgerInfoV) -> bool {
        &&& li.version < self.txn_infos@.len()
        &&& li.transaction_accumulator_hash == self.root_at(li.version + 1)
    }

    /// Internal consistency of the store.
    pub open spec fn wf(self) -> bool {
        &&& self.info_hashes@.len() == self.txn_infos@.len()
        &&& self.txn_infos@.len() <= 0x8000_0000_0000_0000
        &&& (forall|i: int| 0 <= i < self.info_hashes@.len()
            ==> (#[trigger] self.info_hashes@[i])@ == transaction_info_hash_of(self.infos_v()[i])
                && self.info_hashes@[i].wf())
        &&& (forall|e: int| 0 <= e < self.lis_by_epoch@.len()
            ==> (#[trigger] self.lis_v()[e]).epoch == e)
        &&& (forall|e: int| 0 <= e < self.lis_by_epoch@.len()
            ==> self.li_consistent(#[trigger] self.lis_v()[e]))
        &&& self.epoch_ends@.len() <= self.lis_by_epoch@.len()
            <= self.epoch_ends@.len() + 1
        &&& (forall|e: int| 0 <= e < self.lis_by_epoch@.len()
            ==> ((#[trigger] self.lis_v()[e]).ends_epoch() <==> e < self.epoch_ends@.len()))
        &&& (forall|i: int| 0 <= i < self.epoch_ends@.len()
            ==> #[trigger] self.epoch_ends@[i] == self.lis_v()[i].version)
        &&& (forall|i: int, j: int| 0 <= i < j < self.epoch_ends@.len()
            ==> #[trigger] self.epoch_ends@[i] < #[trigger] self.epoch_ends@[j])
        &&& (match self.latest_li {
            Some(li) => {
                &&& self.li_consistent(li@)
                &&& li@.epoch < 0xffff_ffff_ffff_ffff
                &&& li@.epoch + 1 == self.lis_by_epoch@.len()
                &&& (li@.ends_epoch() <==> self.epoch_ends@.len() == self.lis_by_epoch@.len())
            },
            None => true,
        })
    }

    /// An empty store.
    pub fn new() -> (r: Self)
        ensures
            r.wf(),
            r.txn_infos@.len() == 0,
            r.lis_by_epoch@.len() == 0,
            r.epoch_ends@.len() == 0,
            r.latest_li is None,
    {
        LedgerStore {
            txn_infos: Vec::new(),
            info_hashes: Vec::new(),
            lis_by_epoch: Vec::new(),
            epoch_ends: Vec::new(),
            latest_li: None,
        }
    }

    /// The transaction info record at a version; `NotFound` past the
    /// latest.
    pub fn get_transaction_info(&self, version: u64) -> (r: Result<TransactionInfo, AptosDbError>)
        ensures
            r is Ok <==> version < self.txn_infos@.len(),
            r matches Ok(t) ==> t@ == self.infos_v()[version as int],
    {
        if version < self.txn_infos.len() as u64 {
            let t = self.txn_infos[version as usize].clone();
            proof {
                assert(self.infos_v()[version as int] == self.txn_infos@[version as int]@);
            }
            Ok(t)
        } else {
            Err(AptosDbError::NotFound)
        }
    }

    /// The latest version and its transaction info, or `None` on an empty
    /// ledger.
    pub fn get_latest_transaction_info_option(&self) -> (r: Option<(u64, TransactionInfo)>)
        requires
            self.wf(),
        ensures
            r is Some <==> self.txn_infos@.len() > 0,
            r matches Some(p) ==> p.0 + 1 == self.txn_infos@.len()
                && p.1@ == self.infos_v()[p.0 as int],
    {
        let n = self.txn_infos.len();
        if n > 0 {
            let v = (n - 1) as u64;
            let t = self.txn_infos[n - 1].clone();
            proof {
                assert(self.infos_v()[v as int] == self.txn_infos@[v as int]@);
            }
            Some((v, t))
        } else {
            None
        }
    }

    /// The ledger root at a version: the accumulator root over the leaves
    /// `0..=version`.
    pub fn get_root_hash(&self, version: u64) -> (r: Result<HashValue, AptosDbError>)
        requires
            self.wf(),
        ensures
            r is Ok <==> version < self.txn_infos@.len(),
            r matches Ok(h) ==> h@ == self.root_at(version + 1) && h.wf(),
    {
        if version < self.txn_infos.len() as u64 {
            Ok(accumulator_root(
                TAG_ACCUMULATOR_INTERNAL,
                &self.info_hashes,
                (version + 1) as usize,
            ))
        } else {
            Err(AptosDbError::NotFound)
        }
    }

    /// The transaction info at `version` under an accumulator proof against
    /// the ledger root at `ledger_version`.
    pub fn get_transaction_info_with_proof(&self, version: u64, ledger_version: u64) -> (r: Result<
        TransactionInfoWithProof,
        AptosDbError,
    >)
        requires
            self.wf(),
        ensures
            r is Ok <==> version <= ledger_version < self.txn_infos@.len(),
            r matches Ok(p) ==> {
                &&& p.transaction_info@ == self.infos_v()[version as int]
                &&& txn_info_proof_ok(
                    self.root_at(ledger_version + 1),
                    version,
                    p.transaction_info@,
                    views_of(p.ledger_info_to_transaction_info_proof.siblings@),
                )
            },
    {
        if version > ledger_version || ledger_version >= self.txn_infos.len() as u64 {
            return Err(AptosDbError::NotFound);
        }
        let pf = accumulator_gen_proof(
            TAG_ACCUMULATOR_INTERNAL,
            &self.info_hashes,
            (ledger_version + 1) as usize,
            version as usize,
        );
        let t = self.txn_infos[version as usize].clone();
        proof {
            assert(self.infos_v()[version as int] == self.txn_infos@[version as int]@);
            assert(self.info_hashes@[version as int]@ == transaction_info_hash_of(
                self.infos_v()[version as int],
            ));
        }
        Ok(TransactionInfoWithProof {
            transaction_info: t,
            ledger_info_to_transaction_info_proof: pf,
        })
    }

    /// Accumulator proofs for the run of `limit` versions starting at
    /// `first_version`, each against the ledger root at `ledger_version`.
    pub fn get_transaction_range_proof(&self, first_version: u64, limit: u64, ledger_version: u64) -> (r: Result<
        Vec<AccumulatorProof>,
        AptosDbError,
    >)
        requires
            self.wf(),
        ensures
            r is Ok <==> first_version + limit <= ledger_version + 1
                && ledger_version < self.txn_infos@.len(),
            r matches Ok(pfs) ==> {
                &&& pfs@.len() == limit
                &&& (forall|k: int| 0 <= k < pfs@.len() ==> txn_info_proof_ok(
                    self.root_at(ledger_version + 1),
                    (first_version + k) as u64,
                    self.infos_v()[first_version + k],
                    views_of((#[trigger] pfs@[k]).siblings@),
                ))
            },
    {
        if ledger_version >= self.txn_infos.len() as u64 {
            return Err(AptosDbError::NotFound);
        }
        if first_version > ledger_version + 1 || limit > ledger_version + 1 - first_version {
            return Err(AptosDbError::NotFound);
        }
        let nn = self.info_hashes.len();
        let mut pfs: Vec<AccumulatorProof> = Vec::new();
        let mut k: u64 = 0;
        while k < limit
            invariant
                self.wf(),
                k <= limit,
                first_version + limit <= ledger_version + 1,
                ledger_version < self.txn_infos@.len(),
                nn == self.info_hashes@.len() <= usize::MAX,
                pfs@.len() == k,
                forall|m: int| 0 <= m < pfs@.len() ==> txn_info_proof_ok(
                    self.root_at(ledger_version + 1),
                    (first_version + m) as u64,
                    self.infos_v()[first_version + m],
                    views_of((#[trigger] pfs@[m]).siblings@),
                ),
            decreases limit - k,
        {
            let v = first_version + k;
            let pf = accumulator_gen_proof(
                TAG_ACCUMULATOR_INTERNAL,
                &self.info_hashes,
                (ledger_version + 1) as usize,
                v as usize,
            );
            proof {
                assert(self.info_hashes@[v as int]@ == transaction_info_hash_of(
                    self.infos_v()[v as int],
                ));
            }
            pfs.push(pf);
            k = k + 1;
        }
        Ok(pfs)
    }

    /// A consistency proof between the ledger at `client_known_version`
    /// (`None` for an empty client) and the ledger at `ledger_version`: it
    /// verifies against the roots at both.
    pub fn get_consistency_proof(&self, client_known_version: Option<u64>, ledger_version: u64) -> (r: Result<
        AccumulatorConsistencyProof,
        AptosDbError,
    >)
        requires
            self.wf(),
        ensures
            ({
                let known_count: int = match client_known_version {
                    Some(v) => v + 1,
                    None => 0,
                };
                &&& (r is Ok <==> ledger_version < self.txn_infos@.len()
                    && known_count <= ledger_version + 1)
                &&& (r matches Ok(pf) ==> consistency_ok(
                    TAG_ACCUMULATOR_INTERNAL,
                    self.root_at(known_count),
                    known_count as nat,
                    self.root_at(ledger_version + 1),
                    (ledger_version + 1) as nat,
                    views_of(pf.leaf_hashes@),
                ))
            }),
    {
        let known_count: u64 = match client_known_version {
            Some(v) => {
                if v >= ledger_version {
                    if v > ledger_version || ledger_version >= self.txn_infos.len() as u64 {
                        return Err(AptosDbError::NotFound);
                    }
                }
                v + 1
            },
            None => 0,
        };
        if ledger_version >= self.txn_infos.len() as u64 {
            return Err(AptosDbError::NotFound);
        }
        let mut leaf_hashes: Vec<HashValue> = Vec::new();
        let mut i: usize = 0;
        let count = (ledger_version + 1) as usize;
        while i < count
            invariant
                self.wf(),
                count <= self.info_hashes@.len(),
                i <= count,
                leaf_hashes@.len() == i,
                forall|j: int| 0 <= j < i
                    ==> (#[trigger] leaf_hashes@[j])@ == self.info_hashes@[j]@
                        && leaf_hashes@[j].wf(),
            decreases count - i,
        {
            leaf_hashes.push(self.info_hashes[i].clone());
            i = i + 1;
        }
        proof {
            assert(views_of(leaf_hashes@) =~= views_of(self.info_hashes@.take(count as int)));
            assert(views_of(leaf_hashes@.take(known_count as int)) =~= views_of(
                self.info_hashes@.take(known_count as int),
            ));
            assert(views_of(leaf_hashes@).take(known_count as int) =~= views_of(
                leaf_hashes@.take(known_count as int),
            ));
            assert(forall|j: int| 0 <= j < leaf_hashes@.len()
                ==> (#[trigger] views_of(leaf_hashes@)[j]).len() == 32);
            crate::accumulator::lemma_two_pow_shl(63);
            assert((1u64 << 63) == 0x8000_0000_0000_0000u64) by (bit_vector);
        }
        Ok(AccumulatorConsistencyProof { leaf_hashes })
    }

    /// The epoch a version belongs to.
    pub fn get_epoch(&self, version: u64) -> (r: u64)
        requires
            self.wf(),
        ensures
            r == epoch_of(self.epoch_ends@, version),
    {
        proof {
            assert(self.epoch_ends@.skip(0) =~= self.epoch_ends@);
        }
        let mut i: usize = 0;
        while i < self.epoch_ends.len()
            invariant
                i <= self.epoch_ends@.len(),
                epoch_of(self.epoch_ends@, version) == i + epoch_of(
                    self.epoch_ends@.skip(i as int),
                    version,
                ),
                forall|m: int| 0 <= m < i ==> #[trigger] self.epoch_ends@[m] < version,
            decreases self.epoch_ends@.len() - i,
        {
            proof {
                assert(self.epoch_ends@.skip(i as int).drop_first() =~= self.epoch_ends@.skip(
                    i as int + 1,
                ));
                assert(self.epoch_ends@.skip(i as int)[0] == self.epoch_ends@[i as int]);
            }
            if version <= self.epoch_ends[i] {
                return i as u64;
            }
            i = i + 1;
        }
        self.epoch_ends.len() as u64
    }

    /// The ledger info that closed its epoch at exactly `version`;
    /// `NotFound` when `version` ends no epoch.
    pub fn get_epoch_ending_ledger_info(&self, version: u64) -> (r: Result<LedgerInfoWithSignatures, AptosDbError>)
        requires
            self.wf(),
        ensures
            r is Ok <==> (exists|i: int|
                0 <= i < self.epoch_ends@.len() && #[trigger] self.epoch_ends@[i] == version),
            r matches Ok(li) ==> li@.ends_epoch() && li@.version == version
                && self.li_consistent(li@),
    {
        let mut i: usize = 0;
        while i < self.epoch_ends.len()
            invariant
                self.wf(),
                i <= self.epoch_ends@.len(),
                forall|m: int| 0 <= m < i ==> #[trigger] self.epoch_ends@[m] != version,
            decreases self.epoch_ends@.len() - i,
        {
            if self.epoch_ends[i] == version {
                let li = self.lis_by_epoch[i].clone();
                proof {
                    assert(self.lis_v()[i as int] == self.lis_by_epoch@[i as int]@);
                }
                return Ok(li);
            }
            i = i + 1;
        }
        Err(AptosDbError::NotFound)
    }

    /// The ledger infos that closed epochs `start_epoch`, …,
    /// `end_epoch - 1`, in epoch order; `BadRange` on a reversed range and
    /// `Corruption` when a requested epoch has no closing ledger info.
    pub fn get_epoch_ending_ledger_info_iter(&self, start_epoch: u64, end_epoch: u64) -> (r: Result<
        Vec<LedgerInfoWithSignatures>,
        AptosDbError,
    >)
        requires
            self.wf(),
        ensures
            r is Ok <==> start_epoch <= end_epoch && end_epoch <= self.epoch_ends@.len(),
            r matches Ok(lis) ==> {
                &&& lis@.len() == end_epoch - start_epoch
                &&& (forall|k: int| 0 <= k < lis@.len()
                    ==> (#[trigger] lis@[k])@ == self.lis_v()[start_epoch + k])
                &&& (forall|k: int| 0 <= k < lis@.len()
                    ==> ((#[trigger] lis@[k])@.epoch == start_epoch + k && lis@[k]@.ends_epoch()))
            },
    {
        if start_epoch > end_epoch {
            return Err(AptosDbError::BadRange);
        }
        if end_epoch > self.epoch_ends.len() as u64 {
            return Err(AptosDbError::Corruption);
        }
        let nn = self.lis_by_epoch.len();
        let mut out: Vec<LedgerInfoWithSignatures> = Vec::new();
        let mut e = start_epoch;
        while e < end_epoch
            invariant
                self.wf(),
                start_epoch <= e <= end_epoch,
                end_epoch <= self.epoch_ends@.len() <= self.lis_by_epoch@.len(),
                nn == self.lis_by_epoch@.len() <= usize::MAX,
                out@.len() == e - start_epoch,
                forall|k: int| 0 <= k < out@.len()
                    ==> (#[trigger] out@[k])@ == self.lis_v()[start_epoch + k]
                        && out@[k]@.epoch == start_epoch + k && out@[k]@.ends_epoch(),
            decreases end_epoch - e,
        {
            let li = self.lis_by_epoch[e as usize].clone();
            proof {
                assert(self.lis_v()[e as int] == self.lis_by_epoch@[e as int]@);
            }
            out.push(li);
            e = e + 1;
        }
        Ok(out)
    }

    /// The cached latest ledger info; `NotFound` before the first commit
    /// that carried one.
    pub fn get_latest_ledger_info(&self) -> (r: Result<LedgerInfoWithSignatures, AptosDbError>)
        ensures
            r is Ok <==> self.latest_li is Some,
            r matches Ok(li) ==> self.latest_li_v() == Some(li@),
    {
        match &self.latest_li {
            Some(li) => Ok(li.clone()),
            None => Err(AptosDbError::NotFound),
        }
    }

    /// Caches the latest ledger info in memory; called only after the
    /// batch carrying it was written under its epoch.
    pub fn set_latest_ledger_info(&mut self, li: &LedgerInfoWithSignatures)
        requires
            old(self).wf(),
            old(self).li_consistent(li@),
            li@.epoch < 0xffff_ffff_ffff_ffff,
            li@.epoch + 1 == old(self).lis_by_epoch@.len(),
            li@.ends_epoch() <==> old(self).epoch_ends@.len() == old(self).lis_by_epoch@.len(),
        ensures
            final(self).wf(),
            final(self).latest_li_v() == Some(li@),
            final(self).txn_infos == old(self).txn_infos,
            final(self).info_hashes == old(self).info_hashes,
            final(self).lis_by_epoch == old(self).lis_by_epoch,
            final(self).epoch_ends == old(self).epoch_ends,
    {
        self.latest_li = Some(li.clone());
    }

    /// Stages the transaction info records of a batch into the change set
    /// and returns the ledger root they produce.
    pub fn put_transaction_infos(&self, first_version: u64, infos: &Vec<TransactionInfo>, cs: &mut ChangeSet) -> (r: HashValue)
        requires
            self.wf(),
            first_version == self.txn_infos@.len(),
            first_version == old(cs).first_version,
            old(cs).txn_infos@.len() == 0,
            self.txn_infos@.len() + infos@.len() <= 0x8000_0000_0000_0000,
        ensures
            info_views(final(cs).txn_infos@) == info_views(infos@),
            final(cs).txn_infos@.len() == infos@.len(),
            r@ == acc_root_of(
                TAG_ACCUMULATOR_INTERNAL,
                views_of(self.info_hashes@) + info_views(infos@).map_values(
                    |t: TransactionInfoV| transaction_info_hash_of(t),
                ),
            ),
            r.wf(),
            final(cs).first_version == old(cs).first_version,
            final(cs).txns == old(cs).txns,
            final(cs).write_sets == old(cs).write_sets,
            final(cs).events == old(cs).events,
            final(cs).event_roots == old(cs).event_roots,
            final(cs).state_trees == old(cs).state_trees,
            final(cs).state_roots == old(cs).state_roots,
            final(cs).leaf_counts == old(cs).leaf_counts,
            final(cs).ledger_info == old(cs).ledger_info,
    {
        let mut combined: Vec<HashValue> = Vec::new();
        let mut i: usize = 0;
        let n = self.info_hashes.len();
        while i < n
            invariant
                self.wf(),
                n == self.info_hashes@.len(),
                i <= n,
                combined@.len() == i,
                forall|j: int| 0 <= j < i
                    ==> (#[trigger] combined@[j])@ == self.info_hashes@[j]@ && combined@[j].wf(),
            decreases n - i,
        {
            combined.push(self.info_hashes[i].clone());
            i = i + 1;
        }
        let mut k: usize = 0;
        while k < infos.len()
            invariant
                n == self.info_hashes@.len(),
                k <= infos@.len(),
                combined@.len() == n + k,
                forall|j: int| 0 <= j < n
                    ==> (#[trigger] combined@[j])@ == self.info_hashes@[j]@ && combined@[j].wf(),
                forall|j: int| 0 <= j < k
                    ==> (#[trigger] combined@[n + j])@ == transaction_info_hash_of(infos@[j]@)
                        && combined@[n + j].wf(),
            decreases infos@.len() - k,
        {
            combined.push(infos[k].hash());
            k = k + 1;
        }
        let mut copied: Vec<TransactionInfo> = Vec::new();
        let mut m: usize = 0;
        while m < infos.len()
            invariant
                m <= infos@.len(),
                copied@.len() == m,
                forall|j: int| 0 <= j < m ==> (#[trigger] copied@[j])@ == infos@[j]@,
            decreases infos@.len() - m,
        {
            copied.push(infos[m].clone());
            m = m + 1;
        }
        proof {
            assert forall|i: int| 0 <= i < combined@.len() implies (#[trigger] combined@[i]).wf() by {
                if i >= n {
                    assert(combined@[n + (i - n)].wf());
                }
            }
        }
        let root = accumulator_root(TAG_ACCUMULATOR_INTERNAL, &combined, combined.len());
        proof {
            assert(views_of(combined@.take(combined@.len() as int)) =~= views_of(combined@));
            let rhs = views_of(self.info_hashes@) + info_views(infos@).map_values(
                |t: TransactionInfoV| transaction_info_hash_of(t),
            );
            assert forall|i: int| 0 <= i < combined@.len() implies views_of(combined@)[i] == rhs[i] by {
                if i < n {
                    assert(combined@[i]@ == self.info_hashes@[i]@);
                } else {
                    assert(combined@[n + (i - n)]@ == transaction_info_hash_of(
                        infos@[i - n]@,
                    ));
                    assert(info_views(infos@)[i - n] == infos@[i - n]@);
                }
            }
            assert(views_of(combined@) =~= rhs);
            assert(info_views(copied@) =~= info_views(infos@));
        }
        cs.txn_infos = copied;
        root
    }

    /// Stages a ledger info into the change set, after checking that it
    /// continues the per-epoch sequence: it either opens the next epoch
    /// (the previous one being closed) or replaces the still-open last one,
    /// and if it closes its epoch its version must lie past every closed
    /// epoch.
    pub fn put_ledger_info(&self, li: &LedgerInfoWithSignatures, cs: &mut ChangeSet) -> (r: Result<
        (),
        AptosDbError,
    >)
        requires
            self.wf(),
            old(cs).ledger_info is None,
        ensures
            ({
                let n = self.lis_by_epoch@.len();
                r is Ok <==> {
                    &&& li@.epoch < 0xffff_ffff_ffff_ffff
                    &&& ((li@.epoch == n && (n == 0 || self.lis_v()[n - 1].ends_epoch()))
                        || (n > 0 && li@.epoch == n - 1 && !self.lis_v()[n - 1].ends_epoch()))
                    &&& (li@.ends_epoch() ==> (self.epoch_ends@.len() == 0
                        || self.epoch_ends@[self.epoch_ends@.len() - 1] < li@.version))
                }
            }),
            r is Ok ==> ({
                &&& (match final(cs).ledger_info {
                    Some(l) => l@ == li@,
                    None => false,
                })
            }),
            r is Err ==> *final(cs) == *old(cs),
            final(cs).first_version == old(cs).first_version,
            final(cs).txns == old(cs).txns,
            final(cs).write_sets == old(cs).write_sets,
            final(cs).events == old(cs).events,
            final(cs).event_roots == old(cs).event_roots,
            final(cs).state_trees == old(cs).state_trees,
            final(cs).state_roots == old(cs).state_roots,
            final(cs).leaf_counts == old(cs).leaf_counts,
            final(cs).txn_infos == old(cs).txn_infos,
    {
        let n = self.lis_by_epoch.len() as u64;
        if li.ledger_info.epoch >= 0xffff_ffff_ffff_ffff {
            return Err(AptosDbError::Corruption);
        }
        let last_ends = if n > 0 {
            let b = self.lis_by_epoch[(n - 1) as usize].ledger_info.ends_epoch();
            proof {
                assert(self.lis_v()[n - 1] == self.lis_by_epoch@[n - 1]@);
            }
            b
        } else {
            false
        };
        let opens_next = li.ledger_info.epoch == n && (n == 0 || last_ends);
        let replaces_last = n > 0 && li.ledger_info.epoch == n - 1 && !last_ends;
        if !(opens_next || replaces_last) {
            return Err(AptosDbError::Corruption);
        }
        if li.ledger_info.ends_epoch() {
            let m = self.epoch_ends.len();
            if m > 0 && self.epoch_ends[m - 1] >= li.ledger_info.version {
                return Err(AptosDbError::Corruption);
            }
        }
        cs.ledger_info = Some(li.clone());
        Ok(())
    }

    /// Applies a committed batch: appends its transaction info records and
    /// their hashes, then stores the batch's ledger info, if any, under its
    /// epoch and, when it closes the epoch, in the epoch index.
    #[verifier::rlimit(60)]
    pub fn apply(&mut self, infos: Vec<TransactionInfo>, li: Option<LedgerInfoWithSignatures>)
        requires
            old(self).wf(),
            old(self).txn_infos@.len() + infos@.len() <= 0x8000_0000_0000_0000,
            match li {
                Some(l) => {
                    let n = old(self).lis_by_epoch@.len();
                    &&& l@.version + 1 == old(self).txn_infos@.len() + infos@.len()
                    &&& l@.transaction_accumulator_hash == acc_root_of(
                        TAG_ACCUMULATOR_INTERNAL,
                        views_of(old(self).info_hashes@) + info_views(infos@).map_values(
                            |t: TransactionInfoV| transaction_info_hash_of(t),
                        ),
                    )
                    &&& l@.epoch < 0xffff_ffff_ffff_ffff
                    &&& ((l@.epoch == n && (n == 0 || old(self).lis_v()[n - 1].ends_epoch()))
                        || (n > 0 && l@.epoch == n - 1 && !old(self).lis_v()[n - 1].ends_epoch()))
                    &&& (l@.ends_epoch() ==> (old(self).epoch_ends@.len() == 0
                        || old(self).epoch_ends@[old(self).epoch_ends@.len() - 1] < l@.version))
                },
                None => true,
            },
        ensures
            final(self).wf(),
            final(self).infos_v() == old(self).infos_v() + info_views(infos@),
            final(self).txn_infos@.len() == old(self).txn_infos@.len() + infos@.len(),
            views_of(final(self).info_hashes@) == views_of(old(self).info_hashes@) + info_views(
                infos@,
            ).map_values(|t: TransactionInfoV| transaction_info_hash_of(t)),
            match li {
                Some(l) => {
                    &&& final(self).lis_v().len() == l@.epoch + 1
                    &&& final(self).lis_v()[l@.epoch as int] == l@
                    &&& (l@.ends_epoch() ==> final(self).epoch_ends@.len() == l@.epoch + 1)
                    &&& final(self).latest_li_v() == Some(l@)
                },
                None => final(self).lis_by_epoch == old(self).lis_by_epoch
                    && final(self).epoch_ends == old(self).epoch_ends
                    && final(self).latest_li == old(self).latest_li,
            },
    {
        let ghost n0 = self.txn_infos@.len();
        let ghost oldhv = views_of(self.info_hashes@);
        let ghost oldiv = self.infos_v();
        let mut i: usize = 0;
        while i < infos.len()
            invariant
                i <= infos@.len(),
                n0 + infos@.len() <= 0x8000_0000_0000_0000,
                self.txn_infos@.len() == n0 + i,
                self.info_hashes@.len() == n0 + i,
                self.infos_v() =~= oldiv + info_views(infos@.take(i as int)),
                views_of(self.info_hashes@) =~= oldhv + info_views(infos@.take(i as int)).map_values(
                    |t: TransactionInfoV| transaction_info_hash_of(t),
                ),
                forall|k: int| 0 <= k < self.info_hashes@.len()
                    ==> (#[trigger] self.info_hashes@[k])@ == transaction_info_hash_of(
                        self.infos_v()[k],
                    ) && self.info_hashes@[k].wf(),
                self.lis_by_epoch == old(self).lis_by_epoch,
                self.epoch_ends == old(self).epoch_ends,
                self.latest_li == old(self).latest_li,
            decreases infos@.len() - i,
        {
            let ghost preiv = self.infos_v();
            let ghost prehv = views_of(self.info_hashes@);
            let h = infos[i].hash();
            self.txn_infos.push(infos[i].clone());
            self.info_hashes.push(h);
            proof {
                assert(self.infos_v() =~= preiv.push(infos@[i as int]@));
                assert(views_of(self.info_hashes@) =~= prehv.push(transaction_info_hash_of(
                    infos@[i as int]@,
                )));
                assert(info_views(infos@.take(i as int + 1)) =~= info_views(
                    infos@.take(i as int),
                ).push(infos@[i as int]@));
                assert(info_views(infos@.take(i as int + 1)).map_values(
                    |t: TransactionInfoV| transaction_info_hash_of(t),
                ) =~= info_views(infos@.take(i as int)).map_values(
                    |t: TransactionInfoV| transaction_info_hash_of(t),
                ).push(transaction_info_hash_of(infos@[i as int]@)));
                assert(self.infos_v() =~= oldiv + info_views(infos@.take(i as int + 1)));
                assert(views_of(self.info_hashes@) =~= oldhv + info_views(
                    infos@.take(i as int + 1),
                ).map_values(|t: TransactionInfoV| transaction_info_hash_of(t)));
            }
            i = i + 1;
        }
        proof {
            assert(infos@.take(infos@.len() as int) =~= infos@);
            assert(self.infos_v() == oldiv + info_views(infos@));
            assert(views_of(self.info_hashes@) == oldhv + info_views(infos@).map_values(
                |t: TransactionInfoV| transaction_info_hash_of(t),
            ));
            // The accumulator leaves of the old ledger are a prefix of the
            // new ones, so every root computed over an old prefix stands.
            assert forall|c: int| 0 <= c <= n0 implies #[trigger] self.root_at(c) == old(
                self,
            ).root_at(c) by {
                assert forall|k: int| 0 <= k < c implies views_of(self.info_hashes@.take(c))[k]
                    == views_of(old(self).info_hashes@.take(c))[k] by {
                    assert(views_of(self.info_hashes@)[k] == self.info_hashes@[k]@);
                    assert(views_of(old(self).info_hashes@)[k] == old(self).info_hashes@[k]@);
                }
                assert(views_of(self.info_hashes@.take(c)) =~= views_of(
                    old(self).info_hashes@.take(c),
                ));
            }
            assert forall|e: int| 0 <= e < self.lis_by_epoch@.len() implies self.li_consistent(
                #[trigger] self.lis_v()[e],
            ) by {
                assert(old(self).li_consistent(old(self).lis_v()[e]));
                assert(self.lis_v()[e] == old(self).lis_v()[e]);
                assert(self.root_at(self.lis_v()[e].version + 1) == old(self).root_at(
                    old(self).lis_v()[e].version + 1,
                ));
            }
            match &self.latest_li {
                Some(l) => {
                    assert(old(self).li_consistent(l@));
                    assert(self.root_at(l@.version + 1) == old(self).root_at(l@.version + 1));
                },
                None => {},
            }
        }
        match li {
            Some(l) => {
                let ghost prelis = self.lis_v();
                let ghost preends = self.epoch_ends@;
                let nl = self.lis_by_epoch.len();
                self.latest_li = Some(l.clone());
                if (l.ledger_info.epoch as usize) == nl {
                    self.lis_by_epoch.push(l.clone());
                    proof {
                        assert(self.lis_v() =~= prelis.push(l@));
                    }
                } else {
                    let c = l.clone();
                    self.lis_by_epoch.set(nl - 1, c);
                    proof {
                        assert(self.lis_v() =~= prelis.update(nl - 1, l@));
                    }
                }
                if l.ledger_info.ends_epoch() {
                    self.epoch_ends.push(l.ledger_info.version);
                }
                proof {
                    assert forall|e: int| 0 <= e < self.lis_by_epoch@.len() implies
                        self.li_consistent(#[trigger] self.lis_v()[e])
                            && self.lis_v()[e].epoch == e
                            && (self.lis_v()[e].ends_epoch() <==> e < self.epoch_ends@.len()) by {
                        if e < prelis.len() && e != l@.epoch {
                            assert(self.lis_v()[e] == prelis[e]);
                        } else {
                            assert(self.lis_v()[e] == l@);
                            assert(self.root_at(l@.version + 1) == l@.transaction_accumulator_hash)
                                by {
                                assert(self.info_hashes@.take(self.info_hashes@.len() as int)
                                    =~= self.info_hashes@);
                            }
                        }
                    }
                    assert forall|a: int, b: int| 0 <= a < b < self.epoch_ends@.len() implies
                        #[trigger] self.epoch_ends@[a] < #[trigger] self.epoch_ends@[b] by {
                        if b < preends.len() {
                            assert(self.epoch_ends@[a] == preends[a]);
                            assert(self.epoch_ends@[b] == preends[b]);
                        } else if self.epoch_ends@.len() > preends.len() {
                            if a < preends.len() {
                                assert(self.epoch_ends@[a] == preends[a]);
                            }
                        }
                    }
                    assert forall|x: int| 0 <= x < self.epoch_ends@.len() implies
                        #[trigger] self.epoch_ends@[x] == self.lis_v()[x].version by {
                        if x < preends.len() {
                            assert(self.epoch_ends@[x] == preends[x]);
                            assert(x != l@.epoch);
                            assert(self.lis_v()[x] == prelis[x]);
                        } else {
                            assert(self.lis_v()[x] == l@);
                        }
                    }
                    assert(self.epoch_ends@.len() <= self.lis_by_epoch@.len()
                        <= self.epoch_ends@.len() + 1);
                    assert(self.latest_li_v() == Some(l@));
                    assert(self.li_consistent(l@)) by {
                        assert(self.lis_v()[l@.epoch as int] == l@);
                    }
                    if l@.ends_epoch() {
                        assert(self.epoch_ends@.len() == self.lis_by_epoch@.len());
                    } else {
                        assert(!((l@.epoch as int) < self.epoch_ends@.len()));
                        assert(self.epoch_ends@.len() != self.lis_by_epoch@.len());
                    }
                    assert(self.wf());
                }
            },
            None => {
                proof {
                    assert(self.wf());
                }
            },
        }
    }
}

impl LedgerStore {
    /// The ledger's shape for bootstrapping at `num_transactions`
    /// committed transactions, whose last record is `last_txn_info`: the
    /// accumulator leaves and the state root after the last transaction.
    pub fn get_tree_state(&self, num_transactions: u64, last_txn_info: &TransactionInfo) -> (r: crate::proofs::TreeState)
        requires
            self.wf(),
        ensures
            r.num_transactions == num_transactions,
            crate::accumulator::views_of(r.ledger_accumulator_leaf_hashes@) == views_of(
                self.info_hashes@,
            ),
            r.account_state_root_hash@ == last_txn_info@.state_root_hash,
    {
        let mut leaves: Vec<HashValue> = Vec::new();
        let mut i: usize = 0;
        let total = self.info_hashes.len();
        while i < total
            invariant
                self.wf(),
                total == self.info_hashes@.len(),
                i <= total,
                leaves@.len() == i,
                forall|j: int| 0 <= j < i
                    ==> (#[trigger] leaves@[j])@ == self.info_hashes@[j]@,
            decreases total - i,
        {
            leaves.push(self.info_hashes[i].clone());
            i = i + 1;
        }
        proof {
            assert(views_of(leaves@) =~= views_of(self.info_hashes@));
        }
        crate::proofs::TreeState {
            num_transactions,
            ledger_accumulator_leaf_hashes: leaves,
            account_state_root_hash: last_txn_info.state_root_hash.clone(),
        }
    }
}

} // verus!
