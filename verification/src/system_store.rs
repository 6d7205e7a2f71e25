//! Ledger counters: the cumulative number of events created, snapshotted
//! at every version.

use vstd::prelude::*;
use crate::types::ContractEventV;
use crate::change_set::ChangeSet;
use crate::errors::AptosDbError;

verus! {

/// The counters attached to one version.
#[derive(Clone, Copy, Debug, PartialEq, Eq, Structural)]
pub struct LedgerCounters {
    /// Events created from genesis up to and including this version.
    pub events_created: u64,
}

/// The number of events in the first `i` per-version event lists.
pub open spec fn events_in_prefix(events: Seq<Seq<ContractEventV>>, i: int) -> nat
    decreases i,
{
    if i <= 0 {
        0
    } else {
        events_in_prefix(events, i - 1) + events[i - 1].len()
    }
}

/// The store of per-version counter snapshots.
#[derive(Debug)]
pub struct SystemStore {
    /// The cumulative events-created counter at each version.
    pub counters: Vec<u64>,
}

impl SystemStore {
    /// An empty store.
    pub fn new() -> (r: Self)
        ensures
            r.counters@.len() == 0,
    {
        SystemStore { counters: Vec::new() }
    }

    /// The counters at a version; `NotFound` past the latest.
    pub fn get_counters(&self, version: u64) -> (r: Result<LedgerCounters, AptosDbError>)
        ensures
            r is Ok <==> version < self.counters@.len(),
            r matches Ok(c) ==> c.events_created == self.counters@[version as int],
    {
        if version < self.counters.len() as u64 {
            Ok(LedgerCounters { events_created: self.counters[version as usize] })
        } else {
            Err(AptosDbError::NotFound)
        }
    }

    /// Folds the staged batch's event counts into the base counters,
    /// producing one cumulative snapshot per version of the batch; fails
    /// only when a counter would no longer fit in a machine word.
    pub fn bump_ledger_counters(&self, first_version: u64, last_version: u64, cs: &ChangeSet) -> (r: Result<
        Vec<u64>,
        AptosDbError,
    >)
        requires
            first_version == self.counters@.len(),
            first_version == cs.first_version,
        ensures
            ({
                let base: nat = if first_version == 0 {
                    0
                } else {
                    self.counters@[first_version - 1] as nat
                };
                let evs = crate::types::events_views(cs.events@);
                &&& (r is Ok <==> base + events_in_prefix(evs, evs.len() as int) <= u64::MAX)
                &&& (r matches Ok(c) ==> {
                    &&& c@.len() == cs.events@.len()
                    &&& (forall|i: int| 0 <= i < c@.len()
                        ==> #[trigger] c@[i] == base + events_in_prefix(evs, i + 1))
                })
            }),
    {
        let ghost evs = crate::types::events_views(cs.events@);
        let base: u64 = if self.counters.len() == 0 {
            0
        } else {
            self.counters[self.counters.len() - 1]
        };
        let mut out: Vec<u64> = Vec::new();
        let mut cur: u64 = base;
        let mut i: usize = 0;
        while i < cs.events.len()
            invariant
                i <= cs.events@.len(),
                evs == crate::types::events_views(cs.events@),
                first_version == self.counters@.len(),
                first_version == 0 ==> base == 0,
                first_version > 0 ==> base == self.counters@[first_version - 1],
                out@.len() == i,
                cur == base + events_in_prefix(evs, i as int),
                forall|k: int| 0 <= k < i
                    ==> #[trigger] out@[k] == base + events_in_prefix(evs, k + 1),
            decreases cs.events@.len() - i,
        {
            let n = cs.events[i].len() as u64;
            proof {
                assert(evs[i as int] == crate::types::event_views(cs.events@[i as int]@));
                assert(evs[i as int].len() == cs.events@[i as int]@.len());
            }
            if n > u64::MAX - cur {
                proof {
                    assert(events_in_prefix(evs, i as int + 1) == events_in_prefix(evs, i as int)
                        + evs[i as int].len());
                    lemma_events_in_prefix_mono(evs, i as int + 1, evs.len() as int);
                    assert(base + events_in_prefix(evs, evs.len() as int) > u64::MAX);
                }
                return Err(AptosDbError::Corruption);
            }
            cur = cur + n;
            out.push(cur);
            i = i + 1;
        }
        Ok(out)
    }

    /// Applies a committed batch: appends its per-version counter
    /// snapshots.
    pub fn apply(&mut self, mut counters: Vec<u64>)
        ensures
            final(self).counters@ == old(self).counters@ + counters@,
    {
        self.counters.append(&mut counters);
    }
}

/// The cumulative event count grows with the prefix length.
pub proof fn lemma_events_in_prefix_mono(events: Seq<Seq<ContractEventV>>, i: int, j: int)
    requires
        i <= j,
    ensures
        events_in_prefix(events, i) <= events_in_prefix(events, j),
    decreases j - i,
{
    if i < j {
        lemma_events_in_prefix_mono(events, i, j - 1);
    }
}

} // verus!
