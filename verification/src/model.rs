//! Core data model: visit kinds, per-member visit records, persisted
//! statistics rows, and the errors the accounting path can surface.

use vstd::prelude::*;

verus! {

/// Category of an inbound visit signal: a referral from another site, or
/// one of the impression kinds (badge, card, icon, favicon render).
#[derive(Clone, Copy, Debug, PartialEq, Eq, Structural)]
pub enum VisitorType {
    Referer,
    Badge,
    ICON,
    Favicon,
    Card,
}

/// One counter cell: how many times a member was visited (for one visit
/// category) and when the counter last moved. Timestamps are epoch seconds.
#[derive(Clone, Copy, Debug, PartialEq, Eq, Structural)]
pub struct VisitRecord {
    pub count: i64,
    pub last_updated: i64,
}

impl VisitRecord {
    /// The record a member has before its first visit of the day.
    pub open spec fn zero() -> VisitRecord {
        VisitRecord { count: 0, last_updated: 0 }
    }
}

/// A counter bump: one more visit, saturating at the machine limit so the
/// counter can never leave the representable range.
pub open spec fn bump(c: int) -> int {
    if c < i64::MAX {
        c + 1
    } else {
        c
    }
}

/// One logical row of durable storage: the aggregated counters of one
/// member for one calendar day, upserted by (member, day).
#[derive(Clone, Copy, Debug, PartialEq, Eq)]
pub struct Statistics {
    pub id: i64,
    pub membership_id: i64,
    pub created_at_day: i64,
    pub unique_visitor: i64,
    pub updated_at: i64,
    pub referrer: i64,
    pub latest_referrer_at: Option<i64>,
}

/// Expected, non-fatal outcomes of the visit-accounting entry point.
#[derive(Clone, Copy, Debug, PartialEq, Eq, Structural)]
pub enum VisitError {
    /// The effective domain does not resolve to a member.
    UnknownMember,
    /// The referrer resolves to the system's own domain.
    SelfReferralRejected,
}

} // verus!
