//! Persists the events of each version, folds their hashes into the
//! per-version event accumulator, and serves the index from event key to
//! `(sequence number, version, index in version)`.

use vstd::prelude::*;
use crate::hash::{HashValue, TAG_EVENT_ACCUMULATOR_INTERNAL};
use crate::accumulator::{
    accumulator_root, accumulator_gen_proof, acc_root_of, acc_proof_ok, views_of, AccumulatorProof,
};
use crate::types::{ContractEvent, ContractEventV, EventKey, event_views, events_views, event_hash_of};
use crate::change_set::ChangeSet;
use crate::errors::AptosDbError;

verus! {

/// The root of the event accumulator over one version's events.
pub open spec fn event_root_of(es: Seq<ContractEventV>) -> Seq<u8> {
    acc_root_of(TAG_EVENT_ACCUMULATOR_INTERNAL, es.map_values(|e: ContractEventV| event_hash_of(e)))
}

/// The index entries of one event key: `(sequence number, version, index)`
/// triples in the order they were written.
pub open spec fn find_entries(s: Seq<(EventKey, Vec<(u64, u64, u64)>)>, k: Seq<u8>) -> Seq<(u64, u64, u64)>
    decreases s.len(),
{
    if s.len() == 0 {
        Seq::empty()
    } else if s[0].0@ == k {
        s[0].1@
    } else {
        find_entries(s.drop_first(), k)
    }
}

/// What a by-key index lookup returns: starting at `p`, the first position
/// whose sequence number reaches `first_seq`, the result `r` is the run of
/// entries visible at `ledger_version`, cut at `limit`.
pub open spec fn lookup_post(
    es: Seq<(u64, u64, u64)>,
    first_seq: u64,
    limit: u64,
    ledger_version: u64,
    r: Seq<(u64, u64, u64)>,
    p: int,
) -> bool {
    &&& 0 <= p <= es.len()
    &&& (forall|m: int| 0 <= m < p ==> (#[trigger] es[m]).0 < first_seq)
    &&& (p < es.len() ==> es[p].0 >= first_seq)
    &&& r.len() <= limit
    &&& p + r.len() <= es.len()
    &&& (forall|k: int| 0 <= k < r.len()
        ==> #[trigger] r[k] == es[p + k] && es[p + k].1 <= ledger_version)
    &&& (r.len() < limit && p + r.len() < es.len() ==> es[p + r.len()].1 > ledger_version)
}

/// The sequence number of the last entry written at or before
/// `ledger_version`, walking the entry list from its end.
pub open spec fn latest_visible_seq(es: Seq<(u64, u64, u64)>, ledger_version: u64) -> Option<u64>
    decreases es.len(),
{
    if es.len() == 0 {
        None
    } else if es.last().1 <= ledger_version {
        Some(es.last().0)
    } else {
        latest_visible_seq(es.drop_last(), ledger_version)
    }
}

/// The store of events, their accumulator roots, and the by-key index.
#[derive(Debug)]
pub struct EventStore {
    /// The events of each version; the outer index is the version.
    pub events: Vec<Vec<ContractEvent>>,
    /// The event accumulator root of each version.
    pub event_roots: Vec<HashValue>,
    /// For each event key, the `(sequence number, version, index)` triples
    /// of its events, in the order they were committed.
    pub index: Vec<(EventKey, Vec<(u64, u64, u64)>)>,
}

impl EventStore {
    /// The views of the stored events, by version.
    pub open spec fn events_v(self) -> Seq<Seq<ContractEventV>> {
        events_views(self.events@)
    }

    /// The index entries of one key.
    pub open spec fn entries_of(self, k: Seq<u8>) -> Seq<(u64, u64, u64)> {
        find_entries(self.index@, k)
    }

    /// Internal consistency: one stored root per version, each the
    /// accumulator root of that version's events, and index keys are
    /// distinct.  Whether an entry points at a matching stored event is
    /// checked where the index is read, surfacing as `Corruption`.
    pub open spec fn wf(self) -> bool {
        &&& self.event_roots@.len() == self.events@.len()
        &&& (forall|v: int| 0 <= v < self.events@.len()
            ==> (#[trigger] self.event_roots@[v])@ == event_root_of(self.events_v()[v])
                && self.event_roots@[v].wf())
        &&& (forall|v: int| 0 <= v < self.events@.len()
            ==> (#[trigger] self.events@[v])@.len() <= 0x8000_0000_0000_0000)
        &&& (forall|i: int, j: int| 0 <= i < j < self.index@.len()
            ==> (#[trigger] self.index@[i]).0@ != (#[trigger] self.index@[j]).0@)
    }

    /// An empty store.
    pub fn new() -> (r: Self)
        ensures
            r.wf(),
            r.events@.len() == 0,
            r.index@.len() == 0,
    {
        EventStore { events: Vec::new(), event_roots: Vec::new(), index: Vec::new() }
    }

    /// The events of a version; `NotFound` past the latest.
    pub fn get_events_by_version(&self, version: u64) -> (r: Result<Vec<ContractEvent>, AptosDbError>)
        ensures
            r is Ok <==> version < self.events@.len(),
            r matches Ok(es) ==> event_views(es@) == self.events_v()[version as int],
    {
        if version < self.events.len() as u64 {
            let stored = &self.events[version as usize];
            let mut out: Vec<ContractEvent> = Vec::new();
            let mut i: usize = 0;
            while i < stored.len()
                invariant
                    i <= stored@.len(),
                    out@.len() == i,
                    forall|j: int| 0 <= j < i ==> (#[trigger] out@[j])@ == stored@[j]@,
                decreases stored@.len() - i,
            {
                out.push(stored[i].clone());
                i = i + 1;
            }
            proof {
                assert(event_views(out@) =~= event_views(stored@));
                assert(self.events_v()[version as int] == event_views(self.events@[version as int]@));
            }
            Ok(out)
        } else {
            Err(AptosDbError::NotFound)
        }
    }

    /// Computes the event accumulator root over `events`.
    pub fn compute_event_root(events: &Vec<ContractEvent>) -> (r: HashValue)
        requires
            events@.len() <= 0x8000_0000_0000_0000,
        ensures
            r@ == event_root_of(event_views(events@)),
            r.wf(),
    {
        let mut hashes: Vec<HashValue> = Vec::new();
        let mut i: usize = 0;
        while i < events.len()
            invariant
                i <= events@.len(),
                hashes@.len() == i,
                forall|j: int| 0 <= j < i
                    ==> (#[trigger] hashes@[j])@ == event_hash_of(events@[j]@) && hashes@[j].wf(),
            decreases events@.len() - i,
        {
            hashes.push(events[i].hash());
            i = i + 1;
        }
        let root = accumulator_root(TAG_EVENT_ACCUMULATOR_INTERNAL, &hashes, hashes.len());
        proof {
            assert(views_of(hashes@.take(hashes@.len() as int)) =~= views_of(hashes@));
            assert(views_of(hashes@) =~= event_views(events@).map_values(
                |e: ContractEventV| event_hash_of(e),
            ));
        }
        root
    }

    /// Stages the events of `version` into the change set and returns the
    /// root of their event accumulator.
    pub fn put_events(&self, version: u64, events: &Vec<ContractEvent>, cs: &mut ChangeSet) -> (r: HashValue)
        requires
            version == old(cs).first_version + old(cs).events@.len(),
            events@.len() <= 0x8000_0000_0000_0000,
        ensures
            r@ == event_root_of(event_views(events@)),
            r.wf(),
            events_views(final(cs).events@) == events_views(old(cs).events@).push(
                event_views(events@),
            ),
            final(cs).events@.len() == old(cs).events@.len() + 1,
            forall|j: int| 0 <= j < old(cs).events@.len()
                ==> final(cs).events@[j] == old(cs).events@[j],
            event_views(final(cs).events@[old(cs).events@.len() as int]@) == event_views(events@),
            views_of(final(cs).event_roots@) == views_of(old(cs).event_roots@).push(r@),
            final(cs).event_roots@.len() == old(cs).event_roots@.len() + 1,
            forall|j: int| 0 <= j < old(cs).event_roots@.len()
                ==> final(cs).event_roots@[j] == old(cs).event_roots@[j],
            final(cs).event_roots@[old(cs).event_roots@.len() as int]@ == r@,
            final(cs).event_roots@[old(cs).event_roots@.len() as int].wf(),
            final(cs).first_version == old(cs).first_version,
            final(cs).txns == old(cs).txns,
            final(cs).write_sets == old(cs).write_sets,
            final(cs).state_trees == old(cs).state_trees,
            final(cs).state_roots == old(cs).state_roots,
            final(cs).leaf_counts == old(cs).leaf_counts,
            final(cs).txn_infos == old(cs).txn_infos,
            final(cs).ledger_info == old(cs).ledger_info,
    {
        let root = Self::compute_event_root(events);
        let mut copied: Vec<ContractEvent> = Vec::new();
        let mut i: usize = 0;
        while i < events.len()
            invariant
                i <= events@.len(),
                copied@.len() == i,
                forall|j: int| 0 <= j < i ==> (#[trigger] copied@[j])@ == events@[j]@,
            decreases events@.len() - i,
        {
            copied.push(events[i].clone());
            i = i + 1;
        }
        proof {
            assert(event_views(copied@) =~= event_views(events@));
        }
        cs.events.push(copied);
        cs.event_roots.push(root.clone());
        proof {
            assert(events_views(cs.events@) =~= events_views(old(cs).events@).push(
                event_views(events@),
            ));
            assert(views_of(cs.event_roots@) =~= views_of(old(cs).event_roots@).push(root@));
        }
        root
    }

    /// The index entries of `key` from the first sequence number at or
    /// past `first_seq`: the run stops after `limit` entries or at the
    /// first entry written at a version past `ledger_version`.
    pub fn lookup_events_by_key(
        &self,
        key: &EventKey,
        first_seq: u64,
        limit: u64,
        ledger_version: u64,
    ) -> (r: Vec<(u64, u64, u64)>)
        ensures
            exists|p: int| lookup_post(self.entries_of(key@), first_seq, limit, ledger_version, r@, p),
    {
        let ghost es = self.entries_of(key@);
        let mut out: Vec<(u64, u64, u64)> = Vec::new();
        let entries = match self.find_key_entries(key) {
            Some(e) => e,
            None => {
                proof {
                    assert(es.len() == 0);
                    assert(lookup_post(es, first_seq, limit, ledger_version, out@, 0));
                }
                return out;
            },
        };
        let mut p: usize = 0;
        while p < entries.len() && entries[p].0 < first_seq
            invariant
                p <= entries@.len(),
                es == entries@,
                forall|m: int| 0 <= m < p ==> (#[trigger] es[m]).0 < first_seq,
            decreases entries@.len() - p,
        {
            p = p + 1;
        }
        let ghost pg = p as int;
        let mut k: usize = p;
        while k < entries.len() && ((k - p) as u64) < limit && entries[k].1 <= ledger_version
            invariant
                p <= k <= entries@.len(),
                pg == p as int,
                es == entries@,
                out@.len() == k - pg,
                out@.len() <= limit,
                forall|m: int| 0 <= m < out@.len()
                    ==> #[trigger] out@[m] == es[pg + m] && es[pg + m].1 <= ledger_version,
            decreases entries@.len() - k,
        {
            out.push(entries[k]);
            k = k + 1;
        }
        proof {
            assert(lookup_post(es, first_seq, limit, ledger_version, out@, pg));
        }
        out
    }

    /// Finds the entry list of a key, if the key has one.
    fn find_key_entries(&self, key: &EventKey) -> (r: Option<&Vec<(u64, u64, u64)>>)
        ensures
            match r {
                Some(e) => e@ == self.entries_of(key@),
                None => self.entries_of(key@).len() == 0,
            },
    {
        proof {
            assert(self.index@.skip(0) =~= self.index@);
        }
        let mut i: usize = 0;
        while i < self.index.len()
            invariant
                i <= self.index@.len(),
                find_entries(self.index@, key@) == find_entries(self.index@.skip(i as int), key@),
            decreases self.index@.len() - i,
        {
            proof {
                assert(self.index@.skip(i as int).drop_first() =~= self.index@.skip(i as int + 1));
                assert(self.index@.skip(i as int)[0] == self.index@[i as int]);
            }
            if self.index[i].0.equals(key) {
                return Some(&self.index[i].1);
            }
            i = i + 1;
        }
        None
    }

    /// The sequence number of the last index entry of `key` written at or
    /// before `ledger_version`, or `None` when no such entry exists.
    pub fn get_latest_sequence_number(&self, ledger_version: u64, key: &EventKey) -> (r: Option<u64>)
        ensures
            r == latest_visible_seq(self.entries_of(key@), ledger_version),
    {
        let ghost es = self.entries_of(key@);
        let entries = match self.find_key_entries(key) {
            Some(e) => e,
            None => {
                return None;
            },
        };
        let mut j: usize = entries.len();
        proof {
            assert(es.take(es.len() as int) =~= es);
        }
        while j > 0
            invariant
                j <= entries@.len(),
                es == entries@,
                es == self.entries_of(key@),
                latest_visible_seq(es, ledger_version) == latest_visible_seq(
                    es.take(j as int),
                    ledger_version,
                ),
            decreases j,
        {
            proof {
                assert(es.take(j as int).last() == es[j as int - 1]);
                assert(es.take(j as int).drop_last() =~= es.take(j as int - 1));
            }
            if entries[j - 1].1 <= ledger_version {
                return Some(entries[j - 1].0);
            }
            j = j - 1;
        }
        proof {
            assert(es.take(0) =~= Seq::<(u64, u64, u64)>::empty());
        }
        None
    }

    /// The event at `(version, index)` together with its inclusion proof in
    /// that version's event accumulator.
    pub fn get_event_with_proof_by_version_and_index(&self, version: u64, index: u64) -> (r: Result<(ContractEvent, AccumulatorProof), AptosDbError>)
        requires
            self.wf(),
        ensures
            r is Ok <==> version < self.events@.len() && index < self.events_v()[version as int].len(),
            r matches Ok(p) ==> {
                &&& p.0@ == self.events_v()[version as int][index as int]
                &&& acc_proof_ok(
                    TAG_EVENT_ACCUMULATOR_INTERNAL,
                    event_root_of(self.events_v()[version as int]),
                    event_hash_of(p.0@),
                    index as nat,
                    views_of(p.1.siblings@),
                )
            },
    {
        if version >= self.events.len() as u64 {
            return Err(AptosDbError::NotFound);
        }
        let stored = &self.events[version as usize];
        if index >= stored.len() as u64 {
            return Err(AptosDbError::NotFound);
        }
        let mut hashes: Vec<HashValue> = Vec::new();
        let mut i: usize = 0;
        while i < stored.len()
            invariant
                i <= stored@.len(),
                hashes@.len() == i,
                forall|j: int| 0 <= j < i
                    ==> (#[trigger] hashes@[j])@ == event_hash_of(stored@[j]@) && hashes@[j].wf(),
            decreases stored@.len() - i,
        {
            hashes.push(stored[i].hash());
            i = i + 1;
        }
        let pf = accumulator_gen_proof(
            TAG_EVENT_ACCUMULATOR_INTERNAL,
            &hashes,
            hashes.len(),
            index as usize,
        );
        let event = stored[index as usize].clone();
        proof {
            assert(views_of(hashes@.take(hashes@.len() as int)) =~= views_of(hashes@));
            assert(views_of(hashes@) =~= event_views(stored@).map_values(
                |e: ContractEventV| event_hash_of(e),
            ));
            assert(self.events_v()[version as int] == event_views(self.events@[version as int]@));
        }
        Ok((event, pf))
    }
}

impl EventStore {
    /// Copies an index entry list.
    fn copy_triples(v: &Vec<(u64, u64, u64)>) -> (r: Vec<(u64, u64, u64)>)
        ensures
            r@ == v@,
    {
        let mut r: Vec<(u64, u64, u64)> = Vec::new();
        let mut i: usize = 0;
        while i < v.len()
            invariant
                i <= v@.len(),
                r@ == v@.take(i as int),
            decreases v@.len() - i,
        {
            r.push(v[i]);
            proof {
                assert(v@.take(i as int + 1) =~= v@.take(i as int).push(v@[i as int]));
            }
            i = i + 1;
        }
        proof {
            assert(v@.take(v@.len() as int) =~= v@);
        }
        r
    }

    /// Records one event's index entry under its key, keeping the index
    /// keys distinct.
    fn push_index_entry(&mut self, key: &EventKey, seq: u64, version: u64, idx: u64)
        requires
            old(self).wf(),
        ensures
            final(self).wf(),
            final(self).events == old(self).events,
            final(self).event_roots == old(self).event_roots,
    {
        let mut i: usize = 0;
        let n = self.index.len();
        while i < n
            invariant
                self.wf(),
                n == self.index@.len(),
                i <= n,
                *self == *old(self),
                forall|m: int| 0 <= m < i ==> (#[trigger] self.index@[m]).0@ != key@,
            decreases n - i,
        {
            if self.index[i].0.equals(key) {
                let mut triples = Self::copy_triples(&self.index[i].1);
                triples.push((seq, version, idx));
                let k2 = self.index[i].0.clone();
                let ghost oldindex = self.index@;
                self.index.set(i, (k2, triples));
                proof {
                    assert forall|a: int, b: int| 0 <= a < b < self.index@.len() implies
                        (#[trigger] self.index@[a]).0@ != (#[trigger] self.index@[b]).0@ by {
                        if a != i {
                            assert(self.index@[a] == oldindex[a]);
                        }
                        if b != i {
                            assert(self.index@[b] == oldindex[b]);
                        }
                        assert(self.index@[i as int].0@ == oldindex[i as int].0@);
                    }
                }
                return;
            }
            i = i + 1;
        }
        let k2 = key.clone();
        let mut triples: Vec<(u64, u64, u64)> = Vec::new();
        triples.push((seq, version, idx));
        let ghost oldindex = self.index@;
        self.index.push((k2, triples));
        proof {
            assert forall|a: int, b: int| 0 <= a < b < self.index@.len() implies
                (#[trigger] self.index@[a]).0@ != (#[trigger] self.index@[b]).0@ by {
                if a < oldindex.len() {
                    assert(self.index@[a] == oldindex[a]);
                }
                if b < oldindex.len() {
                    assert(self.index@[b] == oldindex[b]);
                } else {
                    assert(self.index@[b].0@ == key@);
                }
            }
        }
    }

    /// Applies a committed batch: appends each version's events and its
    /// event accumulator root, and indexes every event by its key.
    pub fn apply(&mut self, events: &Vec<Vec<ContractEvent>>, roots: &Vec<HashValue>)
        requires
            old(self).wf(),
            events@.len() == roots@.len(),
            forall|i: int| 0 <= i < events@.len()
                ==> (#[trigger] roots@[i])@ == event_root_of(event_views(events@[i]@))
                    && roots@[i].wf(),
            forall|i: int| 0 <= i < events@.len()
                ==> (#[trigger] events@[i])@.len() <= 0x8000_0000_0000_0000,
        ensures
            final(self).wf(),
            final(self).events_v() == old(self).events_v() + events_views(events@),
            final(self).events@.len() == old(self).events@.len() + events@.len(),
    {
        let ghost oldev = self.events_v();
        let n = self.events.len();
        let mut i: usize = 0;
        while i < events.len()
            invariant
                self.wf(),
                i <= events@.len(),
                events@.len() == roots@.len(),
                n == oldev.len(),
                self.events@.len() == n + i,
                self.events_v() =~= oldev + events_views(events@.take(i as int)),
                forall|k: int| 0 <= k < events@.len()
                    ==> (#[trigger] roots@[k])@ == event_root_of(event_views(events@[k]@))
                        && roots@[k].wf(),
                forall|k: int| 0 <= k < events@.len()
                    ==> (#[trigger] events@[k])@.len() <= 0x8000_0000_0000_0000,
            decreases events@.len() - i,
        {
            let version = self.events.len() as u64;
            let stored = &events[i];
            let mut copied: Vec<ContractEvent> = Vec::new();
            let mut j: usize = 0;
            while j < stored.len()
                invariant
                    j <= stored@.len(),
                    copied@.len() == j,
                    forall|m: int| 0 <= m < j ==> (#[trigger] copied@[m])@ == stored@[m]@,
                decreases stored@.len() - j,
            {
                copied.push(stored[j].clone());
                j = j + 1;
            }
            let ghost preev = self.events_v();
            proof {
                assert(event_views(copied@) =~= event_views(events@[i as int]@));
            }
            self.events.push(copied);
            self.event_roots.push(roots[i].clone());
            proof {
                assert(self.events_v() =~= preev.push(event_views(events@[i as int]@)));
                assert(events_views(events@.take(i as int + 1)) =~= events_views(
                    events@.take(i as int),
                ).push(event_views(events@[i as int]@)));
                assert(self.events_v() =~= oldev + events_views(events@.take(i as int + 1)));
                assert(self.events_v()[version as int] == event_views(events@[i as int]@));
            }
            let mut j2: usize = 0;
            while j2 < events[i].len()
                invariant
                    self.wf(),
                    j2 <= events@[i as int]@.len(),
                    i < events@.len(),
                    version < self.events@.len(),
                    self.events_v()[version as int] == event_views(events@[i as int]@),
                    self.events@.len() == n + i + 1,
                    self.events_v() =~= oldev + events_views(events@.take(i as int + 1)),
                    n == oldev.len(),
                    events@.len() == roots@.len(),
                    forall|k: int| 0 <= k < events@.len()
                        ==> (#[trigger] roots@[k])@ == event_root_of(event_views(events@[k]@))
                            && roots@[k].wf(),
                    forall|k: int| 0 <= k < events@.len()
                        ==> (#[trigger] events@[k])@.len() <= 0x8000_0000_0000_0000,
                decreases events@[i as int]@.len() - j2,
            {
                let e = &events[i][j2];
                proof {
                    assert(self.events_v()[version as int] == event_views(events@[i as int]@));
                    assert(self.events_v()[version as int].len() == self.events@[version as int]@.len());
                    assert(self.events_v()[version as int][j2 as int] == events@[i as int]@[j2 as int]@);
                }
                self.push_index_entry(&e.key, e.sequence_number, version, j2 as u64);
                j2 = j2 + 1;
            }
            i = i + 1;
        }
        proof {
            assert(events@.take(events@.len() as int) =~= events@);
            assert(self.events_v() == oldev + events_views(events@));
        }
    }
}

} // verus!
