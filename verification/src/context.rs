//! The process-wide accounting context and its operations: the
//! visit-accounting entry point, startup reconstruction from persisted
//! rows, the periodic flush plan, and the day-rollover sequence.

use vstd::prelude::*;
use std::collections::HashMap;
use crate::clock::{spec_day_of, day_of, TZ_OFFSET_SECS};
use crate::counters::{record_of, CounterKind, VisitCounters};
use crate::dedup::DedupCache;
use crate::events::{next_version, EventBus, VisitEvent};
use crate::mask::{mask_ip, masked_ip};
use crate::member::{find_by_domain, Member, MemberDirectory};
use crate::model::{bump, Statistics, VisitError, VisitRecord, VisitorType};
use crate::referrer::{referrer_domain, spec_referrer_domain};
use crate::score::{spec_tendency, tendency};

verus! {

/// How long one (client, member, kind) mark suppresses re-counting.
pub const DEDUP_TTL: i64 = 14400;

/// How often expired dedup marks are swept out.
pub const CACHE_SWEEP_SECS: i64 = 600;

/// How often the flush job runs.
pub const FLUSH_INTERVAL_SECS: i64 = 300;

/// All shared state of the accounting engine. Constructed once at startup
/// and driven through these methods; the caller serializes access.
pub struct Context {
    pub directory: MemberDirectory,
    pub counters: VisitCounters,
    pub cache: DedupCache,
    pub bus: EventBus,
    pub rank_avg: i64,
    pub rank: Vec<Statistics>,
    pub monthly_rank: Vec<Statistics>,
    pub system_domain: String,
    pub today: i64,
}

/// The view of an optional referrer header.
pub open spec fn spec_header(h: Option<&String>) -> Option<Seq<char>> {
    match h {
        Some(s) => Some(s@),
        None => None,
    }
}

/// The domain a visit is accounted to: for a referral the domain the
/// visitor came from, otherwise the domain the caller asked about.
pub open spec fn spec_effective_domain(
    v_type: Option<VisitorType>,
    query: Seq<char>,
    rdom: Seq<char>,
) -> Seq<char> {
    if v_type == Some(VisitorType::Referer) {
        rdom
    } else {
        query
    }
}

/// Whether a visit moves the referrer counter: only a referral, and only
/// on first sight of its dedup key within the window.
pub open spec fn counts_referrer(v_type: Option<VisitorType>, fresh: bool) -> bool {
    v_type == Some(VisitorType::Referer) && fresh
}

/// Whether a visit moves the unique-visitor counter: an impression kind,
/// on first sight of its key - or arriving cross-domain (the supplied
/// domain differs from the referrer's), which is never suppressed.
pub open spec fn counts_unique(
    v_type: Option<VisitorType>,
    fresh: bool,
    query: Seq<char>,
    rdom: Seq<char>,
) -> bool {
    v_type is Some && v_type != Some(VisitorType::Referer) && (fresh || query != rdom)
}

/// A rank average as kept: at least 1, so it can divide.
pub open spec fn clamp_avg(v: int) -> int {
    if v < 1 {
        1
    } else {
        v
    }
}

/// Whether the calendar day has advanced past the one the context is
/// accounting for.
pub open spec fn spec_needs_rollover(c: Context, now: int) -> bool {
    spec_day_of(now) != c.today
}

/// The counter map read back from one day's persisted rows: later rows
/// win, an absent member counts as zero. Unique-visitor side.
pub open spec fn uv_map_of(rows: Seq<Statistics>) -> Map<i64, VisitRecord>
    decreases rows.len(),
{
    if rows.len() == 0 {
        Map::empty()
    } else {
        uv_map_of(rows.drop_last()).insert(
            rows.last().membership_id,
            VisitRecord { count: rows.last().unique_visitor, last_updated: rows.last().updated_at },
        )
    }
}

/// Referrer side of the read-back; a row without a referrer time reads as
/// the epoch.
pub open spec fn rv_map_of(rows: Seq<Statistics>) -> Map<i64, VisitRecord>
    decreases rows.len(),
{
    if rows.len() == 0 {
        Map::empty()
    } else {
        rv_map_of(rows.drop_last()).insert(
            rows.last().membership_id,
            VisitRecord {
                count: rows.last().referrer,
                last_updated: match rows.last().latest_referrer_at {
                    Some(t) => t,
                    None => 0,
                },
            },
        )
    }
}

/// Rows that may be read back into counters: counts are non-negative.
pub open spec fn rows_wf(rows: Seq<Statistics>) -> bool {
    forall|i: int|
        0 <= i < rows.len() ==> (#[trigger] rows[i]).unique_visitor >= 0 && rows[i].referrer >= 0
}

/// The row persisted for one member on one day: its current counters.
pub open spec fn row_for(
    m: Member,
    uv: Map<i64, VisitRecord>,
    rv: Map<i64, VisitRecord>,
    day: i64,
) -> Statistics {
    Statistics {
        id: 0,
        membership_id: m.id,
        created_at_day: day,
        unique_visitor: record_of(uv, m.id).count,
        updated_at: record_of(uv, m.id).last_updated,
        referrer: record_of(rv, m.id).count,
        latest_referrer_at: Some(record_of(rv, m.id).last_updated),
    }
}

/// The rows of a full flush: one per directory member, in directory order.
pub open spec fn flush_rows(
    dir: Seq<Member>,
    uv: Map<i64, VisitRecord>,
    rv: Map<i64, VisitRecord>,
    day: i64,
) -> Seq<Statistics>
    decreases dir.len(),
{
    if dir.len() == 0 {
        Seq::empty()
    } else {
        flush_rows(dir.drop_last(), uv, rv, day).push(row_for(dir.last(), uv, rv, day))
    }
}

/// Whether a member's counter moved since the last flush.
pub open spec fn counter_changed(
    cur: Map<i64, VisitRecord>,
    base: Map<i64, VisitRecord>,
    id: i64,
) -> bool {
    record_of(cur, id).count != record_of(base, id).count
}

/// Whether a member needs persisting this tick.
pub open spec fn member_changed(
    cur_uv: Map<i64, VisitRecord>,
    cur_rv: Map<i64, VisitRecord>,
    base_uv: Map<i64, VisitRecord>,
    base_rv: Map<i64, VisitRecord>,
    id: i64,
) -> bool {
    counter_changed(cur_uv, base_uv, id) || counter_changed(cur_rv, base_rv, id)
}

/// The rows of one flush tick: one per changed member, in directory order.
pub open spec fn plan_rows(
    dir: Seq<Member>,
    cur_uv: Map<i64, VisitRecord>,
    cur_rv: Map<i64, VisitRecord>,
    base_uv: Map<i64, VisitRecord>,
    base_rv: Map<i64, VisitRecord>,
    day: i64,
) -> Seq<Statistics>
    decreases dir.len(),
{
    if dir.len() == 0 {
        Seq::empty()
    } else {
        let rest = plan_rows(dir.drop_last(), cur_uv, cur_rv, base_uv, base_rv, day);
        if member_changed(cur_uv, cur_rv, base_uv, base_rv, dir.last().id) {
            rest.push(row_for(dir.last(), cur_uv, cur_rv, day))
        } else {
            rest
        }
    }
}

/// One side of the flush baseline after a tick: changed members carry
/// their freshly persisted record, the rest keep what they had.
pub open spec fn base_after(
    dir: Seq<Member>,
    cur: Map<i64, VisitRecord>,
    base: Map<i64, VisitRecord>,
) -> Map<i64, VisitRecord>
    decreases dir.len(),
{
    if dir.len() == 0 {
        base
    } else {
        let rest = base_after(dir.drop_last(), cur, base);
        if counter_changed(cur, base, dir.last().id) {
            rest.insert(dir.last().id, record_of(cur, dir.last().id))
        } else {
            rest
        }
    }
}

/// Reads one day's persisted rows back into in-memory counters, exactly
/// as they will be consulted afterwards.
pub fn counters_from_rows(rows: &Vec<Statistics>) -> (c: VisitCounters)
    requires
        rows_wf(rows@),
    ensures
        c.unique_visitor@ == uv_map_of(rows@),
        c.referrer@ == rv_map_of(rows@),
        c.wf(),
{
    let mut uv: HashMap<i64, VisitRecord> = HashMap::new();
    let mut rv: HashMap<i64, VisitRecord> = HashMap::new();
    let n = rows.len();
    let mut i: usize = 0;
    while i < n
        invariant
            rows_wf(rows@),
            n == rows@.len(),
            i <= n,
            uv@ == uv_map_of(rows@.take(i as int)),
            rv@ == rv_map_of(rows@.take(i as int)),
            crate::counters::counts_nonneg(uv@),
            crate::counters::counts_nonneg(rv@),
        decreases n - i,
    {
        proof {
            assert(rows@.take(i as int + 1).drop_last() =~= rows@.take(i as int));
            assert(rows@.take(i as int + 1).last() == rows@[i as int]);
        }
        let row = &rows[i];
        uv.insert(row.membership_id, VisitRecord { count: row.unique_visitor, last_updated: row.updated_at });
        rv.insert(
            row.membership_id,
            VisitRecord {
                count: row.referrer,
                last_updated: match row.latest_referrer_at {
                    Some(t) => t,
                    None => 0,
                },
            },
        );
        i += 1;
    }
    proof {
        assert(rows@.take(n as int) =~= rows@);
    }
    VisitCounters { unique_visitor: uv, referrer: rv }
}

/// A tick's baseline update never touches a member id that does not occur
/// in the walked prefix of the directory.
proof fn lemma_base_after_untouched(
    dir: Seq<Member>,
    cur: Map<i64, VisitRecord>,
    base: Map<i64, VisitRecord>,
    id: i64,
)
    requires
        forall|j: int| 0 <= j < dir.len() ==> (#[trigger] dir[j]).id != id,
    ensures
        record_of(base_after(dir, cur, base), id) == record_of(base, id),
    decreases dir.len(),
{
    if dir.len() > 0 {
        assert forall|j: int| 0 <= j < dir.drop_last().len() implies (#[trigger] dir.drop_last()[j]).id
            != id by {
            assert(dir.drop_last()[j] == dir[j]);
        }
        lemma_base_after_untouched(dir.drop_last(), cur, base, id);
        assert(dir.last() == dir[dir.len() - 1]);
    }
}

impl Context {
    pub open spec fn wf(self) -> bool {
        &&& self.directory.wf()
        &&& self.counters.wf()
        &&& self.cache.wf()
        &&& self.cache.ttl == DEDUP_TTL
        &&& self.rank_avg >= 1
    }

    /// Everything a visit leaves alone: the static directory, the rank
    /// views, the configuration and the accounting day.
    pub open spec fn same_background(self, other: Context) -> bool {
        &&& self.directory == other.directory
        &&& self.rank_avg == other.rank_avg
        &&& self.rank == other.rank
        &&& self.monthly_rank == other.monthly_rank
        &&& self.system_domain == other.system_domain
        &&& self.today == other.today
    }

    /// Builds the context at startup: counters are reconstructed from the
    /// current day's persisted rows, the rank views and the previous day's
    /// average come from the store, and nothing is marked seen yet.
    pub fn default(
        directory: MemberDirectory,
        today_rows: &Vec<Statistics>,
        rank: Vec<Statistics>,
        monthly_rank: Vec<Statistics>,
        prev_day_avg: i64,
        system_domain: String,
        now: i64,
    ) -> (c: Context)
        requires
            directory.wf(),
            rows_wf(today_rows@),
            0 <= now <= i64::MAX - TZ_OFFSET_SECS,
        ensures
            c.wf(),
            c.directory == directory,
            c.counters.unique_visitor@ == uv_map_of(today_rows@),
            c.counters.referrer@ == rv_map_of(today_rows@),
            c.rank_avg == clamp_avg(prev_day_avg as int),
            c.rank == rank,
            c.monthly_rank == monthly_rank,
            c.system_domain == system_domain,
            c.today == spec_day_of(now as int),
            c.bus.version == 0 && c.bus.latest is None,
            forall|cl: Seq<char>, id: i64, k: Option<VisitorType>, t: int|
                !(#[trigger] c.cache.seen(cl, id, k, t)),
    {
        let counters = counters_from_rows(today_rows);
        let rank_avg: i64 = if prev_day_avg < 1 {
            1
        } else {
            prev_day_avg
        };
        Context {
            directory,
            counters,
            cache: DedupCache::new(DEDUP_TTL),
            bus: EventBus::new(),
            rank_avg,
            rank,
            monthly_rank,
            system_domain,
            today: day_of(now),
        }
    }

    /// The tendency of a member with these counts, against the current
    /// rank average. Always lands in [1, 10].
    pub fn get_tend_from_uv_and_rv(&self, uv: i64, rv: i64) -> (tend: i64)
        requires
            self.wf(),
            0 <= uv,
            0 <= rv,
        ensures
            tend == spec_tendency(uv as int, rv as int, self.rank_avg as int),
            1 <= tend <= 10,
    {
        tendency(uv, rv, self.rank_avg)
    }

    /// The visit-accounting entry point, invoked once per inbound signal.
    ///
    /// Resolves the effective domain (the referrer's for a referral),
    /// rejects self-referrals and unknown members, deduplicates by
    /// (client, member, kind) within the window, moves at most one counter,
    /// and broadcasts a masked event exactly when a counter moved. Returns
    /// the member with its post-increment counts and tendency.
    pub fn boring_visitor(
        &mut self,
        v_type: Option<VisitorType>,
        query_member_domain: &String,
        client_ip: &String,
        client_country: &String,
        referrer_header: Option<&String>,
        now: i64,
    ) -> (r: Result<(Member, i64, i64, i64), VisitError>)
        requires
            old(self).wf(),
            0 <= now <= i64::MAX - DEDUP_TTL,
        ensures
            final(self).wf(),
            final(self).same_background(*old(self)),
            ({
                let rdom = spec_referrer_domain(spec_header(referrer_header));
                let eff = spec_effective_domain(v_type, query_member_domain@, rdom);
                let found = find_by_domain(old(self).directory.members@, eff);
                if v_type == Some(VisitorType::Referer) && rdom == old(self).system_domain@ {
                    &&& r == Err::<(Member, i64, i64, i64), VisitError>(
                        VisitError::SelfReferralRejected,
                    )
                    &&& *final(self) == *old(self)
                } else if found is None {
                    &&& r == Err::<(Member, i64, i64, i64), VisitError>(VisitError::UnknownMember)
                    &&& *final(self) == *old(self)
                } else {
                    let m = found.unwrap();
                    let fresh = !old(self).cache.seen(client_ip@, m.id, v_type, now as int);
                    let uv_inc = counts_unique(v_type, fresh, query_member_domain@, rdom);
                    let rv_inc = counts_referrer(v_type, fresh);
                    let old_uv = record_of(old(self).counters.unique_visitor@, m.id);
                    let old_rv = record_of(old(self).counters.referrer@, m.id);
                    let new_uv = if uv_inc {
                        VisitRecord { count: bump(old_uv.count as int) as i64, last_updated: now }
                    } else {
                        old_uv
                    };
                    let new_rv = if rv_inc {
                        VisitRecord { count: bump(old_rv.count as int) as i64, last_updated: now }
                    } else {
                        old_rv
                    };
                    &&& r is Ok
                    &&& r.unwrap().0 == m
                    &&& r.unwrap().1 == new_uv.count
                    &&& r.unwrap().2 == new_rv.count
                    &&& r.unwrap().3 == spec_tendency(
                        new_uv.count as int,
                        new_rv.count as int,
                        old(self).rank_avg as int,
                    )
                    &&& final(self).counters.unique_visitor@ == if uv_inc {
                        old(self).counters.unique_visitor@.insert(m.id, new_uv)
                    } else {
                        old(self).counters.unique_visitor@
                    }
                    &&& final(self).counters.referrer@ == if rv_inc {
                        old(self).counters.referrer@.insert(m.id, new_rv)
                    } else {
                        old(self).counters.referrer@
                    }
                    // the dedup mark: on first sight the key is suppressed for
                    // the rest of the window, every other key is untouched
                    &&& !fresh ==> final(self).cache == old(self).cache
                    &&& fresh ==> forall|t: int|
                        #[trigger] final(self).cache.seen(client_ip@, m.id, v_type, t) == (old(self).cache.seen(client_ip@, m.id, v_type, t) || t < now + DEDUP_TTL)
                    &&& fresh ==> forall|cl: Seq<char>, id: i64, k: Option<VisitorType>, t: int|
                        !(cl == client_ip@ && id == m.id && k == v_type) ==> #[trigger] final(self).cache.seen(cl, id, k, t) == old(self).cache.seen(cl, id, k, t)
                    // the broadcast: exactly when a counter moved
                    &&& !(uv_inc || rv_inc) ==> final(self).bus == old(self).bus
                    &&& (uv_inc || rv_inc) ==> {
                        let e = final(self).bus.latest.unwrap();
                        &&& final(self).bus.version == next_version(old(self).bus.version)
                        &&& final(self).bus.latest is Some
                        &&& e.ip@ == masked_ip(client_ip@)
                        &&& e.country@ == client_country@
                        &&& e.member.id == m.id
                        &&& e.member.domain == m.domain
                        &&& e.member.name == m.name
                        &&& e.member.description@ == Seq::<char>::empty()
                        &&& e.member.github_username@ == Seq::<char>::empty()
                        &&& e.vt == v_type
                        &&& (if rdom.len() == 0 {
                            e.referrer is None
                        } else {
                            e.referrer is Some && e.referrer.unwrap()@ == rdom
                        })
                    }
                }
            }),
    {
        let rdom: String = referrer_domain(referrer_header);
        let is_referral = match v_type {
            Some(VisitorType::Referer) => true,
            _ => false,
        };
        if is_referral && rdom == self.system_domain {
            return Err(VisitError::SelfReferralRejected);
        }
        let eff: &String = if is_referral {
            &rdom
        } else {
            query_member_domain
        };
        let idx = match self.directory.index_of_domain(eff) {
            Some(i) => i,
            None => {
                return Err(VisitError::UnknownMember);
            },
        };
        let member_id = self.directory.member_at(idx).id;
        let fresh = self.cache.check_and_mark(client_ip, member_id, v_type, now);
        let cross = *query_member_domain != rdom;
        let uv_eligible = v_type.is_some() && !is_referral && (fresh || cross);
        let rv_eligible = is_referral && fresh;
        let rv_rec = if rv_eligible {
            self.counters.increment(CounterKind::Referrer, member_id, now)
        } else {
            self.counters.get(CounterKind::Referrer, member_id)
        };
        let uv_rec = if uv_eligible {
            self.counters.increment(CounterKind::UniqueVisitor, member_id, now)
        } else {
            self.counters.get(CounterKind::UniqueVisitor, member_id)
        };
        let tend = tendency(uv_rec.count, rv_rec.count, self.rank_avg);
        if uv_eligible || rv_eligible {
            let event = VisitEvent {
                ip: mask_ip(client_ip.as_str()),
                country: client_country.clone(),
                member: self.directory.member_at(idx).sanitized(),
                vt: v_type,
                referrer: if rdom.unicode_len() == 0 {
                    None
                } else {
                    Some(rdom.clone())
                },
            };
            self.bus.publish(event);
        }
        Ok((self.directory.member_at(idx).duplicate(), uv_rec.count, rv_rec.count, tend))
    }

    /// Whether the calendar day has advanced since the last rollover.
    pub fn needs_rollover(&self, now: i64) -> (r: bool)
        requires
            0 <= now <= i64::MAX - TZ_OFFSET_SECS,
        ensures
            r == spec_needs_rollover(*self, now as int),
    {
        day_of(now) != self.today
    }

    /// The day-rollover sequence: counters, dedup marks and the flush
    /// baseline are wiped, the accounting day advances to the current one,
    /// and the rank average is replaced by the previous day's (clamped so
    /// it can divide). The directory, the rank views and the bus survive.
    pub fn apply_rollover(
        &mut self,
        baseline: &mut VisitCounters,
        now: i64,
        prev_day_avg: i64,
    )
        requires
            old(self).wf(),
            0 <= now <= i64::MAX - TZ_OFFSET_SECS,
        ensures
            final(self).wf(),
            final(self).counters.unique_visitor@ == Map::<i64, VisitRecord>::empty(),
            final(self).counters.referrer@ == Map::<i64, VisitRecord>::empty(),
            final(baseline).unique_visitor@ == Map::<i64, VisitRecord>::empty(),
            final(baseline).referrer@ == Map::<i64, VisitRecord>::empty(),
            forall|cl: Seq<char>, id: i64, k: Option<VisitorType>, t: int|
                !(#[trigger] final(self).cache.seen(cl, id, k, t)),
            final(self).today == spec_day_of(now as int),
            !spec_needs_rollover(*final(self), now as int),
            final(self).rank_avg == clamp_avg(prev_day_avg as int),
            final(self).directory == old(self).directory,
            final(self).bus == old(self).bus,
            final(self).rank == old(self).rank,
            final(self).monthly_rank == old(self).monthly_rank,
            final(self).system_domain == old(self).system_domain,
    {
        self.counters.reset_all();
        self.cache.clear();
        baseline.reset_all();
        self.today = day_of(now);
        self.rank_avg = if prev_day_avg < 1 {
            1
        } else {
            prev_day_avg
        };
    }

    /// One flush tick's plan: the rows to persist, one per member whose
    /// counters moved since the last tick, with the member's current
    /// counts; the baseline advances to what will be persisted. Nothing
    /// in the context itself changes.
    pub fn plan_flush(&self, baseline: &mut VisitCounters, now: i64) -> (rows: Vec<Statistics>)
        requires
            self.wf(),
            old(baseline).wf(),
            0 <= now <= i64::MAX - TZ_OFFSET_SECS,
        ensures
            final(baseline).wf(),
            rows@ == plan_rows(
                self.directory.members@,
                self.counters.unique_visitor@,
                self.counters.referrer@,
                old(baseline).unique_visitor@,
                old(baseline).referrer@,
                spec_day_of(now as int) as i64,
            ),
            final(baseline).unique_visitor@ == base_after(
                self.directory.members@,
                self.counters.unique_visitor@,
                old(baseline).unique_visitor@,
            ),
            final(baseline).referrer@ == base_after(
                self.directory.members@,
                self.counters.referrer@,
                old(baseline).referrer@,
            ),
    {
        let day = day_of(now);
        let mut rows: Vec<Statistics> = Vec::new();
        let n = self.directory.len();
        let mut i: usize = 0;
        while i < n
            invariant
                self.wf(),
                old(baseline).wf(),
                baseline.wf(),
                day == spec_day_of(now as int),
                n == self.directory.members@.len(),
                i <= n,
                rows@ == plan_rows(
                    self.directory.members@.take(i as int),
                    self.counters.unique_visitor@,
                    self.counters.referrer@,
                    old(baseline).unique_visitor@,
                    old(baseline).referrer@,
                    day,
                ),
                baseline.unique_visitor@ == base_after(
                    self.directory.members@.take(i as int),
                    self.counters.unique_visitor@,
                    old(baseline).unique_visitor@,
                ),
                baseline.referrer@ == base_after(
                    self.directory.members@.take(i as int),
                    self.counters.referrer@,
                    old(baseline).referrer@,
                ),
            decreases n - i,
        {
            proof {
                assert(self.directory.members@.take(i as int + 1).drop_last()
                    =~= self.directory.members@.take(i as int));
                assert(self.directory.members@.take(i as int + 1).last()
                    == self.directory.members@[i as int]);
                let prefix = self.directory.members@.take(i as int);
                let mid = self.directory.members@[i as int].id;
                assert forall|j: int| 0 <= j < prefix.len() implies (#[trigger] prefix[j]).id
                    != mid by {
                    assert(prefix[j] == self.directory.members@[j]);
                }
                lemma_base_after_untouched(
                    prefix,
                    self.counters.unique_visitor@,
                    old(baseline).unique_visitor@,
                    mid,
                );
                lemma_base_after_untouched(
                    prefix,
                    self.counters.referrer@,
                    old(baseline).referrer@,
                    mid,
                );
            }
            let m = self.directory.member_at(i);
            let cur_uv = self.counters.get(CounterKind::UniqueVisitor, m.id);
            let cur_rv = self.counters.get(CounterKind::Referrer, m.id);
            let base_uv = baseline.get(CounterKind::UniqueVisitor, m.id);
            let base_rv = baseline.get(CounterKind::Referrer, m.id);
            let uv_changed = cur_uv.count != base_uv.count;
            let rv_changed = cur_rv.count != base_rv.count;
            if uv_changed {
                baseline.set_record(CounterKind::UniqueVisitor, m.id, cur_uv);
            }
            if rv_changed {
                baseline.set_record(CounterKind::Referrer, m.id, cur_rv);
            }
            if uv_changed || rv_changed {
                rows.push(Statistics {
                    id: 0,
                    membership_id: m.id,
                    created_at_day: day,
                    unique_visitor: cur_uv.count,
                    updated_at: cur_uv.last_updated,
                    referrer: cur_rv.count,
                    latest_referrer_at: Some(cur_rv.last_updated),
                });
            }
            i += 1;
        }
        proof {
            assert(self.directory.members@.take(n as int) =~= self.directory.members@);
        }
        rows
    }

    /// The best-effort final flush at shutdown: one row per member with
    /// the member's current counters, so no confirmed increment is lost.
    pub fn final_flush_rows(&self, now: i64) -> (rows: Vec<Statistics>)
        requires
            self.wf(),
            0 <= now <= i64::MAX - TZ_OFFSET_SECS,
        ensures
            rows@ == flush_rows(
                self.directory.members@,
                self.counters.unique_visitor@,
                self.counters.referrer@,
                spec_day_of(now as int) as i64,
            ),
    {
        let day = day_of(now);
        let mut rows: Vec<Statistics> = Vec::new();
        let n = self.directory.len();
        let mut i: usize = 0;
        while i < n
            invariant
                self.wf(),
                day == spec_day_of(now as int),
                n == self.directory.members@.len(),
                i <= n,
                rows@ == flush_rows(
                    self.directory.members@.take(i as int),
                    self.counters.unique_visitor@,
                    self.counters.referrer@,
                    day,
                ),
            decreases n - i,
        {
            proof {
                assert(self.directory.members@.take(i as int + 1).drop_last()
                    =~= self.directory.members@.take(i as int));
                assert(self.directory.members@.take(i as int + 1).last()
                    == self.directory.members@[i as int]);
            }
            let m = self.directory.member_at(i);
            let cur_uv = self.counters.get(CounterKind::UniqueVisitor, m.id);
            let cur_rv = self.counters.get(CounterKind::Referrer, m.id);
            rows.push(Statistics {
                id: 0,
                membership_id: m.id,
                created_at_day: day,
                unique_visitor: cur_uv.count,
                updated_at: cur_uv.last_updated,
                referrer: cur_rv.count,
                latest_referrer_at: Some(cur_rv.last_updated),
            });
            i += 1;
        }
        proof {
            assert(self.directory.members@.take(n as int) =~= self.directory.members@);
        }
        rows
    }

    /// Housekeeping on the dedup cache: expired marks are dropped, what is
    /// seen from `now` on does not change.
    pub fn sweep_cache(&mut self, now: i64)
        requires
            old(self).wf(),
        ensures
            final(self).wf(),
            final(self).same_background(*old(self)),
            final(self).counters == old(self).counters,
            final(self).bus == old(self).bus,
            forall|cl: Seq<char>, id: i64, k: Option<VisitorType>, t: int|
                t >= now ==> #[trigger] final(self).cache.seen(cl, id, k, t) == old(self).cache.seen(cl, id, k, t),
    {
        self.cache.sweep(now);
    }

    /// Replaces the all-time rank view with a freshly computed one.
    pub fn set_rank(&mut self, rows: Vec<Statistics>)
        requires
            old(self).wf(),
        ensures
            final(self).wf(),
            final(self).rank == rows,
            *final(self) == (Context { rank: rows, ..*old(self) }),
    {
        self.rank = rows;
    }

    /// Replaces the trailing-30-day rank view with a freshly computed one.
    pub fn set_monthly_rank(&mut self, rows: Vec<Statistics>)
        requires
            old(self).wf(),
        ensures
            final(self).wf(),
            final(self).monthly_rank == rows,
            *final(self) == (Context { monthly_rank: rows, ..*old(self) }),
    {
        self.monthly_rank = rows;
    }
}

} // verus!
