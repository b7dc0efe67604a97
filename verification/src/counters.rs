//! Concurrent-state core of the accounting engine: per member and per
//! visit category, a count of deduplicated visits and the time of the
//! last one. The caller serializes access; every operation here relates
//! the new state to the old one exactly, so no update can be lost.

use vstd::prelude::*;
use std::collections::HashMap;
use crate::model::{bump, VisitRecord};

verus! {

broadcast use vstd::std_specs::hash::group_hash_axioms;

/// Which of the two independent counter maps an operation touches.
#[derive(Clone, Copy, Debug, PartialEq, Eq, Structural)]
pub enum CounterKind {
    UniqueVisitor,
    Referrer,
}

/// The record a map holds for a member, counting an absent member as zero.
pub open spec fn record_of(m: Map<i64, VisitRecord>, id: i64) -> VisitRecord {
    if m.contains_key(id) {
        m[id]
    } else {
        VisitRecord::zero()
    }
}

/// Every record a counter map holds is non-negative.
pub open spec fn counts_nonneg(m: Map<i64, VisitRecord>) -> bool {
    forall|id: i64| m.contains_key(id) ==> (#[trigger] m[id]).count >= 0
}

/// Two maps, member id -> visit record: one for unique visitors (any
/// impression kind), one for referrals.
pub struct VisitCounters {
    pub unique_visitor: HashMap<i64, VisitRecord>,
    pub referrer: HashMap<i64, VisitRecord>,
}

impl VisitCounters {
    /// The map that backs one counter kind.
    pub open spec fn map_for(self, kind: CounterKind) -> Map<i64, VisitRecord> {
        match kind {
            CounterKind::UniqueVisitor => self.unique_visitor@,
            CounterKind::Referrer => self.referrer@,
        }
    }

    pub open spec fn wf(self) -> bool {
        counts_nonneg(self.unique_visitor@) && counts_nonneg(self.referrer@)
    }

    /// Empty counters, as at startup of a fresh day.
    pub fn new() -> (c: VisitCounters)
        ensures
            c.unique_visitor@ == Map::<i64, VisitRecord>::empty(),
            c.referrer@ == Map::<i64, VisitRecord>::empty(),
            c.wf(),
    {
        VisitCounters { unique_visitor: HashMap::new(), referrer: HashMap::new() }
    }

    /// The current record of a member, zero if it was never counted.
    pub fn get(&self, kind: CounterKind, id: i64) -> (r: VisitRecord)
        ensures
            r == record_of(self.map_for(kind), id),
    {
        let m = match kind {
            CounterKind::UniqueVisitor => &self.unique_visitor,
            CounterKind::Referrer => &self.referrer,
        };
        match m.get(&id) {
            Some(r) => *r,
            None => VisitRecord { count: 0, last_updated: 0 },
        }
    }

    /// Atomically bumps a member's counter by one and stamps it with the
    /// current time; returns the new record. The other counter kind is
    /// untouched.
    pub fn increment(&mut self, kind: CounterKind, id: i64, now: i64) -> (r: VisitRecord)
        requires
            old(self).wf(),
        ensures
            final(self).wf(),
            r.count == bump(record_of(old(self).map_for(kind), id).count as int),
            r.last_updated == now,
            final(self).map_for(kind) == old(self).map_for(kind).insert(id, r),
            kind == CounterKind::UniqueVisitor ==> final(self).unique_visitor@ == old(
                self,
            ).unique_visitor@.insert(id, r) && final(self).referrer@ == old(self).referrer@,
            kind == CounterKind::Referrer ==> final(self).referrer@ == old(
                self,
            ).referrer@.insert(id, r) && final(self).unique_visitor@ == old(self).unique_visitor@,
    {
        let cur = self.get(kind, id);
        let new_count: i64 = if cur.count < i64::MAX {
            cur.count + 1
        } else {
            cur.count
        };
        let r = VisitRecord { count: new_count, last_updated: now };
        match kind {
            CounterKind::UniqueVisitor => {
                self.unique_visitor.insert(id, r);
            },
            CounterKind::Referrer => {
                self.referrer.insert(id, r);
            },
        }
        r
    }

    /// Overwrites a member's record with a known value; used to advance
    /// the flush baseline to what was just persisted.
    pub fn set_record(&mut self, kind: CounterKind, id: i64, r: VisitRecord)
        requires
            old(self).wf(),
            r.count >= 0,
        ensures
            final(self).wf(),
            final(self).map_for(kind) == old(self).map_for(kind).insert(id, r),
            kind == CounterKind::UniqueVisitor ==> final(self).unique_visitor@ == old(
                self,
            ).unique_visitor@.insert(id, r) && final(self).referrer@ == old(self).referrer@,
            kind == CounterKind::Referrer ==> final(self).referrer@ == old(
                self,
            ).referrer@.insert(id, r) && final(self).unique_visitor@ == old(self).unique_visitor@,
    {
        match kind {
            CounterKind::UniqueVisitor => {
                self.unique_visitor.insert(id, r);
            },
            CounterKind::Referrer => {
                self.referrer.insert(id, r);
            },
        }
    }

    /// Clears both maps; used only at day rollover.
    pub fn reset_all(&mut self)
        ensures
            final(self).unique_visitor@ == Map::<i64, VisitRecord>::empty(),
            final(self).referrer@ == Map::<i64, VisitRecord>::empty(),
            final(self).wf(),
    {
        self.unique_visitor.clear();
        self.referrer.clear();
    }
}

} // verus!
