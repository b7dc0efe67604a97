//! Global properties of the accounting engine, stated and proved over the
//! specifications that the operations' contracts use.

use vstd::prelude::*;
use crate::context::{
    counts_referrer, counts_unique, flush_rows, row_for, rv_map_of, spec_needs_rollover, uv_map_of,
    Context,
};
use crate::clock::spec_day_of;
use crate::counters::record_of;
use crate::dedup::DedupCache;
use crate::member::Member;
use crate::model::{VisitRecord, VisitorType};

verus! {

/// Within one dedup window a repeated (client, member, kind) signal is
/// counted at most once; once the window has expired the key counts as it
/// did before it was marked.
///
/// `c0` is the cache a first visit found (its key unseen), `c1` the cache
/// that visit left behind, related exactly as `check_and_mark` promises.
/// At any `now2` still inside the window the key is seen, so a second
/// visit moves no referrer counter, and no unique-visitor counter either
/// unless it arrives cross-domain; at or past the window's end the key
/// reads as it did in `c0`.
pub proof fn lemma_dedup_window(
    c0: DedupCache,
    c1: DedupCache,
    client: Seq<char>,
    id: i64,
    kind: Option<VisitorType>,
    now1: int,
    now2: int,
    query: Seq<char>,
    rdom: Seq<char>,
)
    requires
        !c0.seen(client, id, kind, now1),
        forall|t: int|
            #[trigger] c1.seen(client, id, kind, t) == (c0.seen(client, id, kind, t) || t < now1
                + c0.ttl),
    ensures
        now1 <= now2 < now1 + c0.ttl ==> c1.seen(client, id, kind, now2),
        now1 <= now2 < now1 + c0.ttl ==> !counts_referrer(kind, !c1.seen(client, id, kind, now2)),
        (now1 <= now2 < now1 + c0.ttl && query == rdom) ==> !counts_unique(
            kind,
            !c1.seen(client, id, kind, now2),
            query,
            rdom,
        ),
        now2 >= now1 + c0.ttl ==> c1.seen(client, id, kind, now2) == c0.seen(
            client,
            id,
            kind,
            now2,
        ),
{
}

/// Distinct dedup keys never interact: a visit that marks one key leaves
/// every other key seen exactly as before, so visits under different keys
/// are each counted on their own terms.
pub proof fn lemma_distinct_keys_independent(
    c0: DedupCache,
    c1: DedupCache,
    client1: Seq<char>,
    id1: i64,
    kind1: Option<VisitorType>,
    client2: Seq<char>,
    id2: i64,
    kind2: Option<VisitorType>,
    t: int,
)
    requires
        forall|cl: Seq<char>, id: i64, k: Option<VisitorType>, tt: int|
            !(cl == client1 && id == id1 && k == kind1) ==> #[trigger] c1.seen(cl, id, k, tt)
                == c0.seen(cl, id, k, tt),
        !(client2 == client1 && id2 == id1 && kind2 == kind1),
    ensures
        c1.seen(client2, id2, kind2, t) == c0.seen(client2, id2, kind2, t),
{
}

/// Day rollover is idempotent: once a rollover has set the accounting day
/// to the day of `now`, no further rollover is due at any moment of that
/// same calendar day, so a duplicate tick changes nothing.
pub proof fn lemma_rollover_idempotent(c: Context, now: int, now2: int)
    requires
        c.today == spec_day_of(now),
        spec_day_of(now2) == spec_day_of(now),
    ensures
        !spec_needs_rollover(c, now2),
{
}

/// Flush-then-restart round trip: the rows a full flush persists for a
/// directory of distinct members, read back at startup, yield exactly the
/// counters that were in memory - for every member of the directory, both
/// the unique-visitor and the referrer record survive unchanged.
pub proof fn lemma_flush_reload(
    dir: Seq<Member>,
    uv: Map<i64, VisitRecord>,
    rv: Map<i64, VisitRecord>,
    day: i64,
)
    requires
        forall|i: int, j: int| 0 <= i < j < dir.len() ==> (#[trigger] dir[i]).id != (#[trigger] dir[j]).id,
    ensures
        forall|i: int|
            0 <= i < dir.len() ==> record_of(
                uv_map_of(flush_rows(dir, uv, rv, day)),
                (#[trigger] dir[i]).id,
            ) == record_of(uv, dir[i].id),
        forall|i: int|
            0 <= i < dir.len() ==> record_of(
                rv_map_of(flush_rows(dir, uv, rv, day)),
                (#[trigger] dir[i]).id,
            ) == record_of(rv, dir[i].id),
    decreases dir.len(),
{
    if dir.len() > 0 {
        let prefix = dir.drop_last();
        assert forall|i: int, j: int| 0 <= i < j < prefix.len() implies (#[trigger] prefix[i]).id
            != (#[trigger] prefix[j]).id by {
            assert(prefix[i] == dir[i]);
            assert(prefix[j] == dir[j]);
        }
        lemma_flush_reload(prefix, uv, rv, day);
        let rows = flush_rows(dir, uv, rv, day);
        let last = dir.last();
        assert(rows.drop_last() =~= flush_rows(prefix, uv, rv, day));
        assert(rows.last() == row_for(last, uv, rv, day));
        let uv_rec = record_of(uv, last.id);
        let rv_rec = record_of(rv, last.id);
        assert(record_of(uv_map_of(rows), last.id) == (VisitRecord {
            count: uv_rec.count,
            last_updated: uv_rec.last_updated,
        }));
        assert((VisitRecord { count: uv_rec.count, last_updated: uv_rec.last_updated }) == uv_rec);
        assert(record_of(rv_map_of(rows), last.id) == (VisitRecord {
            count: rv_rec.count,
            last_updated: rv_rec.last_updated,
        }));
        assert((VisitRecord { count: rv_rec.count, last_updated: rv_rec.last_updated }) == rv_rec);
        assert forall|i: int| 0 <= i < dir.len() implies record_of(
            uv_map_of(rows),
            (#[trigger] dir[i]).id,
        ) == record_of(uv, dir[i].id) && record_of(rv_map_of(rows), dir[i].id) == record_of(
            rv,
            dir[i].id,
        ) by {
            if i < dir.len() - 1 {
                assert(dir[i] == prefix[i]);
                assert(dir[i].id != last.id);
            }
        }
    }
}

} // verus!
