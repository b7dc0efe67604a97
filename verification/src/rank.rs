//! Read views over the counters and the persisted rank rows: the daily
//! ranking (today's in-memory counters, most recent referral first), the
//! trailing-30-day view, the keep/retire partition of the all-time view,
//! and a shuffled sample of the recently active members.

use vstd::prelude::*;
use vstd::multiset::Multiset;
use rand::seq::SliceRandom;
use crate::clock::{day_of, spec_day_of, TZ_OFFSET_SECS};
use crate::context::Context;
use crate::counters::{record_of, CounterKind};
use crate::member::{find_by_id, Member};
use crate::model::Statistics;
use crate::score::spec_tendency;

verus! {

broadcast use vstd::seq_lib::group_to_multiset_ensures;

/// Seconds in the trailing window of the monthly and "recently active"
/// views.
pub const MONTH_SECS: i64 = 2592000;

/// One line of a rendered ranking: a row of counters and the member it
/// belongs to.
pub struct RankAndMembership {
    pub rank: Statistics,
    pub membership: Member,
}

/// What the daily ranking sorts: a member's referral recency and
/// unique-visitor count.
#[derive(Clone, Copy, Debug, PartialEq, Eq, Structural)]
pub struct RankEntry {
    pub member_id: i64,
    pub referrer_at: i64,
    pub uv_count: i64,
}

/// Daily order: most recent referral first, more unique visitors first on
/// a tie. A total preorder.
pub open spec fn precedes(a: RankEntry, b: RankEntry) -> bool {
    a.referrer_at > b.referrer_at || (a.referrer_at == b.referrer_at && a.uv_count >= b.uv_count)
}

/// Sorted for the daily ranking.
pub open spec fn sorted_by_rank(s: Seq<RankEntry>) -> bool {
    forall|i: int, j: int| 0 <= i < j < s.len() ==> precedes(#[trigger] s[i], #[trigger] s[j])
}

/// The members that count today: those with any unique-visitor or
/// referral activity, one entry each, in directory order.
pub open spec fn daily_entries(
    dir: Seq<Member>,
    uv: Map<i64, crate::model::VisitRecord>,
    rv: Map<i64, crate::model::VisitRecord>,
) -> Seq<RankEntry>
    decreases dir.len(),
{
    if dir.len() == 0 {
        Seq::empty()
    } else {
        let rest = daily_entries(dir.drop_last(), uv, rv);
        let id = dir.last().id;
        if record_of(uv, id).count > 0 || record_of(rv, id).count > 0 {
            rest.push(
                RankEntry {
                    member_id: id,
                    referrer_at: record_of(rv, id).last_updated,
                    uv_count: record_of(uv, id).count,
                },
            )
        } else {
            rest
        }
    }
}

/// The row the daily ranking displays for a member: its current counters,
/// stamped with the moment of rendering.
pub open spec fn display_row(
    id: i64,
    uv: Map<i64, crate::model::VisitRecord>,
    rv: Map<i64, crate::model::VisitRecord>,
    now: i64,
    day: i64,
) -> Statistics {
    Statistics {
        id: 0,
        membership_id: id,
        created_at_day: day,
        unique_visitor: record_of(uv, id).count,
        updated_at: now,
        referrer: record_of(rv, id).count,
        latest_referrer_at: Some(record_of(rv, id).last_updated),
    }
}

/// The persisted rows a stored ranking keeps: rows of known members whose
/// last activity is after the cutoff, in stored order.
pub open spec fn recent_rows(rows: Seq<Statistics>, dir: Seq<Member>, cutoff: int) -> Seq<
    Statistics,
>
    decreases rows.len(),
{
    if rows.len() == 0 {
        Seq::empty()
    } else {
        let rest = recent_rows(rows.drop_last(), dir, cutoff);
        if find_by_id(dir, rows.last().membership_id) is Some && rows.last().updated_at > cutoff {
            rest.push(rows.last())
        } else {
            rest
        }
    }
}

/// The rows a stored ranking retires: rows of known members whose last
/// activity is at or before the cutoff.
pub open spec fn stale_rows(rows: Seq<Statistics>, dir: Seq<Member>, cutoff: int) -> Seq<Statistics>
    decreases rows.len(),
{
    if rows.len() == 0 {
        Seq::empty()
    } else {
        let rest = stale_rows(rows.drop_last(), dir, cutoff);
        if find_by_id(dir, rows.last().membership_id) is Some && !(rows.last().updated_at
            > cutoff) {
            rest.push(rows.last())
        } else {
            rest
        }
    }
}

/// Rows paired with their members, for rendering.
pub open spec fn pair_seq(rows: Seq<Statistics>, dir: Seq<Member>) -> Seq<RankAndMembership>
    decreases rows.len(),
{
    if rows.len() == 0 {
        Seq::empty()
    } else {
        pair_seq(rows.drop_last(), dir).push(
            RankAndMembership {
                rank: rows.last(),
                membership: find_by_id(dir, rows.last().membership_id).unwrap(),
            },
        )
    }
}

/// The first `n` rows of the trailing-30-day view that belong to known
/// members and fall inside the window, in stored order.
pub open spec fn monthly_list(
    rows: Seq<Statistics>,
    dir: Seq<Member>,
    cutoff: int,
    budget: int,
) -> Seq<Statistics>
    decreases rows.len(),
{
    if rows.len() == 0 || budget <= 0 {
        Seq::empty()
    } else {
        if find_by_id(dir, rows[0].membership_id) is Some && rows[0].updated_at >= cutoff {
            seq![rows[0]] + monthly_list(rows.drop_first(), dir, cutoff, budget - 1)
        } else {
            monthly_list(rows.drop_first(), dir, cutoff, budget)
        }
    }
}

/// Every daily entry names a member of the directory.
proof fn lemma_daily_entries_ids(
    dir: Seq<Member>,
    uv: Map<i64, crate::model::VisitRecord>,
    rv: Map<i64, crate::model::VisitRecord>,
)
    ensures
        forall|j: int|
            0 <= j < daily_entries(dir, uv, rv).len() ==> exists|i: int|
                0 <= i < dir.len() && (#[trigger] dir[i]).id == (#[trigger] daily_entries(
                    dir,
                    uv,
                    rv,
                )[j]).member_id,
    decreases dir.len(),
{
    if dir.len() > 0 {
        lemma_daily_entries_ids(dir.drop_last(), uv, rv);
        let rest = daily_entries(dir.drop_last(), uv, rv);
        assert forall|j: int| 0 <= j < daily_entries(dir, uv, rv).len() implies exists|i: int|
            0 <= i < dir.len() && (#[trigger] dir[i]).id == (#[trigger] daily_entries(
                dir,
                uv,
                rv,
            )[j]).member_id by {
            if j < rest.len() {
                let i = choose|i: int|
                    0 <= i < dir.drop_last().len() && (#[trigger] dir.drop_last()[i]).id
                        == rest[j].member_id;
                assert(dir[i] == dir.drop_last()[i]);
                assert(dir[i].id == daily_entries(dir, uv, rv)[j].member_id);
            } else {
                assert(dir[dir.len() - 1].id == daily_entries(dir, uv, rv)[j].member_id);
            }
        }
    }
}

/// Compares two daily entries.
fn precedes_exec(a: &RankEntry, b: &RankEntry) -> (r: bool)
    ensures
        r == precedes(*a, *b),
{
    a.referrer_at > b.referrer_at || (a.referrer_at == b.referrer_at && a.uv_count >= b.uv_count)
}

/// Sorts daily entries into display order; keeps exactly the same
/// entries.
fn sort_rank_entries(v: &mut Vec<RankEntry>)
    ensures
        sorted_by_rank(final(v)@),
        final(v)@.to_multiset() == old(v)@.to_multiset(),
        final(v)@.len() == old(v)@.len(),
{
    let mut out: Vec<RankEntry> = Vec::new();
    while v.len() > 0
        invariant
            out@.to_multiset().add(v@.to_multiset()) =~= old(v)@.to_multiset(),
            out@.len() + v@.len() == old(v)@.len(),
            sorted_by_rank(out@),
            forall|i: int, j: int|
                0 <= i < out@.len() && 0 <= j < v@.len() ==> precedes(
                    #[trigger] out@[i],
                    #[trigger] v@[j],
                ),
        decreases v.len(),
    {
        let mut best: usize = 0;
        let mut k: usize = 1;
        while k < v.len()
            invariant
                v@.len() > 0,
                best < k,
                k <= v@.len(),
                forall|j: int| 0 <= j < k ==> precedes(v@[best as int], #[trigger] v@[j]),
            decreases v@.len() - k,
        {
            if precedes_exec(&v[k], &v[best]) {
                best = k;
            }
            k += 1;
        }
        let ghost pre = v@;
        let ghost pre_out = out@;
        let e = v.remove(best);
        out.push(e);
        proof {
            assert(v@ == pre.remove(best as int));
            assert(v@.to_multiset() =~= pre.to_multiset().remove(e));
            assert(out@.to_multiset() =~= pre_out.to_multiset().insert(e));
            assert(out@.to_multiset().add(v@.to_multiset()) =~= pre_out.to_multiset().add(
                pre.to_multiset(),
            ));
            assert forall|i: int, j: int|
                0 <= i < out@.len() && 0 <= j < v@.len() implies precedes(
                #[trigger] out@[i],
                #[trigger] v@[j],
            ) by {
                if j < best {
                    assert(v@[j] == pre[j]);
                } else {
                    assert(v@[j] == pre[j + 1]);
                }
                if i < out@.len() - 1 {
                    assert(out@[i] == pre_out[i]);
                }
            }
        }
    }
    proof {
        assert(v@.to_multiset() =~= Multiset::<RankEntry>::empty());
        assert(out@.to_multiset().add(v@.to_multiset()) =~= out@.to_multiset());
    }
    *v = out;
}

/// Relies on rand's `SliceRandom::shuffle` (driven by the thread's
/// generator): it permutes the slice in place, so exactly the same
/// elements remain; which order comes out depends on the generator, so
/// nothing more is claimed of it.
#[verifier::external_body]
fn shuffle_pairs(v: &mut Vec<RankAndMembership>)
    ensures
        final(v)@.to_multiset() == old(v)@.to_multiset(),
        final(v)@.len() == old(v)@.len(),
{
    v.as_mut_slice().shuffle(&mut rand::rng());
}

impl Context {
    /// The members with any activity today, in directory order.
    pub fn collect_daily(&self) -> (v: Vec<RankEntry>)
        ensures
            v@ == daily_entries(
                self.directory.members@,
                self.counters.unique_visitor@,
                self.counters.referrer@,
            ),
    {
        let mut v: Vec<RankEntry> = Vec::new();
        let n = self.directory.len();
        let mut i: usize = 0;
        while i < n
            invariant
                n == self.directory.members@.len(),
                i <= n,
                v@ == daily_entries(
                    self.directory.members@.take(i as int),
                    self.counters.unique_visitor@,
                    self.counters.referrer@,
                ),
            decreases n - i,
        {
            proof {
                assert(self.directory.members@.take(i as int + 1).drop_last()
                    =~= self.directory.members@.take(i as int));
                assert(self.directory.members@.take(i as int + 1).last()
                    == self.directory.members@[i as int]);
            }
            let m = self.directory.member_at(i);
            let uv = self.counters.get(CounterKind::UniqueVisitor, m.id);
            let rv = self.counters.get(CounterKind::Referrer, m.id);
            if uv.count > 0 || rv.count > 0 {
                v.push(RankEntry { member_id: m.id, referrer_at: rv.last_updated, uv_count: uv.count });
            }
            i += 1;
        }
        proof {
            assert(self.directory.members@.take(n as int) =~= self.directory.members@);
        }
        v
    }

    /// The daily ranking: today's active members, most recent referral
    /// first (more unique visitors first on a tie), at most thirty lines,
    /// each carrying the member's current counters.
    pub fn daily_rank(&self, now: i64) -> (out: Vec<RankAndMembership>)
        requires
            self.wf(),
            0 <= now <= i64::MAX - TZ_OFFSET_SECS,
        ensures
            exists|s: Seq<RankEntry>|
                {
                    &&& #[trigger] sorted_by_rank(s)
                    &&& s.to_multiset() == daily_entries(
                        self.directory.members@,
                        self.counters.unique_visitor@,
                        self.counters.referrer@,
                    ).to_multiset()
                    &&& out@.len() == if s.len() < 30 {
                        s.len()
                    } else {
                        30
                    }
                    &&& forall|j: int|
                        0 <= j < out@.len() ==> (#[trigger] out@[j]).rank == display_row(
                            s[j].member_id,
                            self.counters.unique_visitor@,
                            self.counters.referrer@,
                            now,
                            spec_day_of(now as int) as i64,
                        ) && out@[j].membership == find_by_id(
                            self.directory.members@,
                            s[j].member_id,
                        ).unwrap()
                },
    {
        let day = day_of(now);
        let mut entries = self.collect_daily();
        proof {
            lemma_daily_entries_ids(
                self.directory.members@,
                self.counters.unique_visitor@,
                self.counters.referrer@,
            );
        }
        let ghost unsorted = entries@;
        sort_rank_entries(&mut entries);
        let ghost sorted = entries@;
        let mut out: Vec<RankAndMembership> = Vec::new();
        let n = entries.len();
        let mut i: usize = 0;
        while i < n && i < 30
            invariant
                self.wf(),
                day == spec_day_of(now as int),
                n == sorted.len(),
                entries@ == sorted,
                sorted.to_multiset() == unsorted.to_multiset(),
                unsorted == daily_entries(
                    self.directory.members@,
                    self.counters.unique_visitor@,
                    self.counters.referrer@,
                ),
                forall|j: int|
                    0 <= j < unsorted.len() ==> exists|w: int|
                        0 <= w < self.directory.members@.len() && (#[trigger] self.directory.members@[w]).id
                            == (#[trigger] unsorted[j]).member_id,
                i <= n,
                i <= 30,
                out@.len() == i,
                forall|j: int|
                    0 <= j < out@.len() ==> (#[trigger] out@[j]).rank == display_row(
                        sorted[j].member_id,
                        self.counters.unique_visitor@,
                        self.counters.referrer@,
                        now,
                        day,
                    ) && out@[j].membership == find_by_id(
                        self.directory.members@,
                        sorted[j].member_id,
                    ).unwrap(),
            decreases n - i,
        {
            let e = &entries[i];
            proof {
                assert(sorted.to_multiset().contains(sorted[i as int]));
                assert(unsorted.to_multiset().contains(sorted[i as int]));
                assert(unsorted.contains(sorted[i as int]));
                let j = choose|j: int| 0 <= j < unsorted.len() && unsorted[j] == sorted[i as int];
                let w = choose|w: int|
                    0 <= w < self.directory.members@.len()
                        && (#[trigger] self.directory.members@[w]).id == unsorted[j].member_id;
                crate::member::lemma_find_first_id_some(self.directory.members@, e.member_id, w);
            }
            let uv = self.counters.get(CounterKind::UniqueVisitor, e.member_id);
            let rv = self.counters.get(CounterKind::Referrer, e.member_id);
            let row = Statistics {
                id: 0,
                membership_id: e.member_id,
                created_at_day: day,
                unique_visitor: uv.count,
                updated_at: now,
                referrer: rv.count,
                latest_referrer_at: Some(rv.last_updated),
            };
            let membership = match self.directory.get(e.member_id) {
                Some(m) => m.duplicate(),
                None => {
                    proof {
                        assert(false);
                    }
                    Member {
                        id: 0,
                        domain: String::new(),
                        name: String::new(),
                        description: String::new(),
                        github_username: String::new(),
                        hidden: false,
                    }
                },
            };
            out.push(RankAndMembership { rank: row, membership });
            i += 1;
        }
        proof {
            assert(sorted_by_rank(sorted));
        }
        out
    }

    /// The trailing-30-day view: the first thirty stored rows that belong
    /// to known members and fall inside the window, in stored order.
    pub fn monthly_rank_view(&self, now: i64) -> (out: Vec<RankAndMembership>)
        requires
            self.wf(),
            0 <= now,
        ensures
            ({
                let chosen = monthly_list(
                    self.monthly_rank@,
                    self.directory.members@,
                    now - MONTH_SECS,
                    30,
                );
                &&& out@.len() == chosen.len()
                &&& forall|j: int|
                    0 <= j < out@.len() ==> (#[trigger] out@[j]).rank == chosen[j]
                        && out@[j].membership == find_by_id(
                        self.directory.members@,
                        chosen[j].membership_id,
                    ).unwrap()
            }),
    {
        let cutoff: i64 = now - MONTH_SECS;
        let mut out: Vec<RankAndMembership> = Vec::new();
        let n = self.monthly_rank.len();
        let mut i: usize = 0;
        proof {
            assert(self.monthly_rank@.skip(0) =~= self.monthly_rank@);
            assert(pairs_rows(out@) =~= Seq::<Statistics>::empty());
            assert(pairs_rows(out@) + monthly_list(
                self.monthly_rank@.skip(0),
                self.directory.members@,
                cutoff as int,
                30,
            ) =~= monthly_list(self.monthly_rank@, self.directory.members@, cutoff as int, 30));
        }
        while i < n && out.len() < 30
            invariant
                self.wf(),
                n == self.monthly_rank@.len(),
                cutoff == now - MONTH_SECS,
                i <= n,
                out@.len() <= 30,
                monthly_list(self.monthly_rank@, self.directory.members@, cutoff as int, 30)
                    == pairs_rows(out@) + monthly_list(
                    self.monthly_rank@.skip(i as int),
                    self.directory.members@,
                    cutoff as int,
                    30 - out@.len(),
                ),
                forall|j: int|
                    0 <= j < out@.len() ==> (#[trigger] out@[j]).membership == find_by_id(
                        self.directory.members@,
                        out@[j].rank.membership_id,
                    ).unwrap(),
            decreases n - i,
        {
            proof {
                assert(self.monthly_rank@.skip(i as int).drop_first() =~= self.monthly_rank@.skip(
                    i as int + 1,
                ));
                assert(self.monthly_rank@.skip(i as int)[0] == self.monthly_rank@[i as int]);
            }
            let row = self.monthly_rank[i];
            if row.updated_at >= cutoff {
                match self.directory.get(row.membership_id) {
                    Some(m) => {
                        let ghost pre = out@;
                        let ghost budget = 30 - pre.len();
                        out.push(RankAndMembership { rank: row, membership: m.duplicate() });
                        proof {
                            assert(out@.drop_last() =~= pre);
                            assert(out@.last().rank == row);
                            assert(pairs_rows(out@) == pairs_rows(pre).push(row));
                            assert(monthly_list(
                                self.monthly_rank@.skip(i as int),
                                self.directory.members@,
                                cutoff as int,
                                budget,
                            ) == seq![row] + monthly_list(
                                self.monthly_rank@.skip(i as int + 1),
                                self.directory.members@,
                                cutoff as int,
                                budget - 1,
                            ));
                            assert(pairs_rows(pre) + monthly_list(
                                self.monthly_rank@.skip(i as int),
                                self.directory.members@,
                                cutoff as int,
                                budget,
                            ) =~= pairs_rows(out@) + monthly_list(
                                self.monthly_rank@.skip(i as int + 1),
                                self.directory.members@,
                                cutoff as int,
                                budget - 1,
                            ));
                        }
                    },
                    None => {},
                }
            }
            i += 1;
        }
        proof {
            if i == n {
                assert(self.monthly_rank@.skip(n as int) =~= Seq::<Statistics>::empty());
            }
            assert(monthly_list(self.monthly_rank@, self.directory.members@, cutoff as int, 30)
                =~= pairs_rows(out@));
            lemma_pairs_rows_index(out@);
        }
        out
    }

    /// Splits the all-time view into members still active in the trailing
    /// window and members to retire, in stored order.
    pub fn partition_by_recency(&self, now: i64) -> (r: (
        Vec<RankAndMembership>,
        Vec<RankAndMembership>,
    ))
        requires
            self.wf(),
            0 <= now,
        ensures
            ({
                let keep = recent_rows(self.rank@, self.directory.members@, now - MONTH_SECS);
                let retire = stale_rows(self.rank@, self.directory.members@, now - MONTH_SECS);
                &&& r.0@ == pair_seq(keep, self.directory.members@)
                &&& r.1@ == pair_seq(retire, self.directory.members@)
            }),
    {
        let cutoff: i64 = now - MONTH_SECS;
        let mut keep: Vec<RankAndMembership> = Vec::new();
        let mut retire: Vec<RankAndMembership> = Vec::new();
        let n = self.rank.len();
        let mut i: usize = 0;
        while i < n
            invariant
                self.wf(),
                n == self.rank@.len(),
                cutoff == now - MONTH_SECS,
                i <= n,
                keep@ == pair_seq(
                    recent_rows(self.rank@.take(i as int), self.directory.members@, cutoff as int),
                    self.directory.members@,
                ),
                retire@ == pair_seq(
                    stale_rows(self.rank@.take(i as int), self.directory.members@, cutoff as int),
                    self.directory.members@,
                ),
            decreases n - i,
        {
            proof {
                assert(self.rank@.take(i as int + 1).drop_last() =~= self.rank@.take(i as int));
                assert(self.rank@.take(i as int + 1).last() == self.rank@[i as int]);
            }
            let row = self.rank[i];
            let ghost keep_rows = recent_rows(
                self.rank@.take(i as int),
                self.directory.members@,
                cutoff as int,
            );
            let ghost retire_rows = stale_rows(
                self.rank@.take(i as int),
                self.directory.members@,
                cutoff as int,
            );
            match self.directory.get(row.membership_id) {
                Some(m) => {
                    if row.updated_at > cutoff {
                        let ghost pre = keep@;
                        keep.push(RankAndMembership { rank: row, membership: m.duplicate() });
                        proof {
                            assert(keep@.drop_last() =~= pre);
                            assert(keep_rows.push(row).drop_last() =~= keep_rows);
                            assert(keep@ == pair_seq(keep_rows.push(row), self.directory.members@));
                        }
                    } else {
                        let ghost pre = retire@;
                        retire.push(RankAndMembership { rank: row, membership: m.duplicate() });
                        proof {
                            assert(retire@.drop_last() =~= pre);
                            assert(retire_rows.push(row).drop_last() =~= retire_rows);
                            assert(retire@ == pair_seq(
                                retire_rows.push(row),
                                self.directory.members@,
                            ));
                        }
                    }
                },
                None => {},
            }
            i += 1;
        }
        proof {
            assert(self.rank@.take(n as int) =~= self.rank@);
        }
        (keep, retire)
    }

    /// A random sample of at most thirty recently active members of the
    /// all-time view: which members come out, and in which order, is up to
    /// the shuffle.
    pub fn random_rank(&self, now: i64) -> (out: Vec<RankAndMembership>)
        requires
            self.wf(),
            0 <= now,
        ensures
            exists|s: Seq<RankAndMembership>|
                {
                    &&& #[trigger] s.to_multiset() == pair_seq(
                        recent_rows(self.rank@, self.directory.members@, now - MONTH_SECS),
                        self.directory.members@,
                    ).to_multiset()
                    &&& out@ == s.take(
                        if s.len() < 30 {
                            s.len() as int
                        } else {
                            30
                        },
                    )
                },
    {
        let (mut keep, _retire) = self.partition_by_recency(now);
        shuffle_pairs(&mut keep);
        let ghost s = keep@;
        keep.truncate(30);
        proof {
            if s.len() < 30 {
                assert(keep@ =~= s.take(s.len() as int));
            } else {
                assert(keep@ =~= s.take(30));
            }
        }
        keep
    }

    /// The tendency of every directory member, in directory order, for
    /// rendering activity levels.
    pub fn levels(&self) -> (out: Vec<(i64, i64)>)
        requires
            self.wf(),
        ensures
            out@.len() == self.directory.members@.len(),
            forall|i: int|
                0 <= i < out@.len() ==> (#[trigger] out@[i]).0 == self.directory.members@[i].id
                    && out@[i].1 == spec_tendency(
                    record_of(
                        self.counters.unique_visitor@,
                        self.directory.members@[i].id,
                    ).count as int,
                    record_of(self.counters.referrer@, self.directory.members@[i].id).count as int,
                    self.rank_avg as int,
                ),
    {
        let mut out: Vec<(i64, i64)> = Vec::new();
        let n = self.directory.len();
        let mut i: usize = 0;
        while i < n
            invariant
                self.wf(),
                n == self.directory.members@.len(),
                i <= n,
                out@.len() == i,
                forall|j: int|
                    0 <= j < out@.len() ==> (#[trigger] out@[j]).0
                        == self.directory.members@[j].id && out@[j].1 == spec_tendency(
                        record_of(
                            self.counters.unique_visitor@,
                            self.directory.members@[j].id,
                        ).count as int,
                        record_of(
                            self.counters.referrer@,
                            self.directory.members@[j].id,
                        ).count as int,
                        self.rank_avg as int,
                    ),
            decreases n - i,
        {
            let m = self.directory.member_at(i);
            let uv = self.counters.get(CounterKind::UniqueVisitor, m.id);
            let rv = self.counters.get(CounterKind::Referrer, m.id);
            let tend = self.get_tend_from_uv_and_rv(uv.count, rv.count);
            out.push((m.id, tend));
            i += 1;
        }
        out
    }
}

/// The rows behind a rendered list, for relating a built list to its
/// specification.
pub open spec fn pairs_rows(s: Seq<RankAndMembership>) -> Seq<Statistics>
    decreases s.len(),
{
    if s.len() == 0 {
        Seq::empty()
    } else {
        pairs_rows(s.drop_last()).push(s.last().rank)
    }
}

/// The rows behind a list are exactly its `rank` fields, in order.
proof fn lemma_pairs_rows_index(s: Seq<RankAndMembership>)
    ensures
        pairs_rows(s).len() == s.len(),
        forall|j: int| 0 <= j < s.len() ==> pairs_rows(s)[j] == (#[trigger] s[j]).rank,
    decreases s.len(),
{
    if s.len() > 0 {
        lemma_pairs_rows_index(s.drop_last());
        assert forall|j: int| 0 <= j < s.len() implies pairs_rows(s)[j] == (#[trigger] s[j]).rank by {
            if j < s.len() - 1 {
                assert(s.drop_last()[j] == s[j]);
            }
        }
    }
}

} // verus!
