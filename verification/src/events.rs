//! Latest-value broadcast of visit events: a single version-stamped slot.
//! Publishing replaces the slot; a subscriber's cursor yields a value
//! exactly when the slot is newer than what it last observed. Slow
//! subscribers skip intermediate values and never block a publisher.

use vstd::prelude::*;
use crate::member::Member;
use crate::model::VisitorType;

verus! {

/// What is broadcast for one counted visit. Never persisted. The client
/// address is already masked and the member is already sanitized when an
/// event is built.
pub struct VisitEvent {
    pub ip: String,
    pub country: String,
    pub member: Member,
    pub vt: Option<VisitorType>,
    pub referrer: Option<String>,
}

impl VisitEvent {
    /// A field-for-field copy.
    pub fn duplicate(&self) -> (r: VisitEvent)
        ensures
            r == *self,
    {
        VisitEvent {
            ip: self.ip.clone(),
            country: self.country.clone(),
            member: self.member.duplicate(),
            vt: self.vt,
            referrer: match &self.referrer {
                Some(s) => Some(s.clone()),
                None => None,
            },
        }
    }
}

/// The version stamp after one more publish: one up, wrapping past the
/// machine limit to 1 so that it never returns to the pristine 0.
pub open spec fn next_version(v: u64) -> u64 {
    if v == u64::MAX {
        1u64
    } else {
        (v + 1) as u64
    }
}

/// The single broadcast slot. `version == 0` means nothing was ever
/// published.
pub struct EventBus {
    pub version: u64,
    pub latest: Option<VisitEvent>,
}

/// One subscriber's position: the version it last observed.
pub struct EventCursor {
    pub last_seen: u64,
}

impl EventBus {
    /// A bus on which nothing was published yet.
    pub fn new() -> (b: EventBus)
        ensures
            b.version == 0,
            b.latest is None,
    {
        EventBus { version: 0, latest: None }
    }

    /// Replaces the slot with a newer value. Never waits on subscribers.
    pub fn publish(&mut self, e: VisitEvent)
        ensures
            final(self).version == next_version(old(self).version),
            final(self).latest == Some(e),
    {
        self.version = if self.version == u64::MAX {
            1
        } else {
            self.version + 1
        };
        self.latest = Some(e);
    }

    /// A cursor that has observed the current slot, so it will yield only
    /// values published after this call.
    pub fn subscribe(&self) -> (c: EventCursor)
        ensures
            c.last_seen == self.version,
    {
        EventCursor { last_seen: self.version }
    }
}

impl EventCursor {
    /// Yields the latest value if it is newer than what this cursor last
    /// observed, and advances the cursor to it; yields nothing otherwise.
    /// A value that was overwritten before the cursor came back is simply
    /// skipped: only the latest is ever seen.
    pub fn poll(&mut self, bus: &EventBus) -> (r: Option<VisitEvent>)
        ensures
            final(self).last_seen == bus.version,
            r == if bus.version != old(self).last_seen && bus.latest is Some {
                bus.latest
            } else {
                None::<VisitEvent>
            },
    {
        let fresh = bus.version != self.last_seen;
        self.last_seen = bus.version;
        if fresh {
            match &bus.latest {
                Some(e) => Some(e.duplicate()),
                None => None,
            }
        } else {
            None
        }
    }
}

} // verus!
