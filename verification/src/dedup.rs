//! The deduplication cache: suppresses double-counting of the same
//! (client, member, kind) signal within a fixed window. A missing or
//! expired mark is equivalent to "not seen".

use vstd::prelude::*;
use crate::model::VisitorType;

verus! {

/// One mark: a key that was counted, live until `expires_at`.
pub struct DedupEntry {
    pub client: String,
    pub member_id: i64,
    pub kind: Option<VisitorType>,
    pub expires_at: i64,
}

/// Whether a mark carries exactly this key.
pub open spec fn entry_matches(
    e: DedupEntry,
    client: Seq<char>,
    member_id: i64,
    kind: Option<VisitorType>,
) -> bool {
    e.client@ == client && e.member_id == member_id && e.kind == kind
}

/// Short-lived key -> presence cache. Expired marks may linger until a
/// sweep; they count as "not seen".
pub struct DedupCache {
    pub entries: Vec<DedupEntry>,
    pub ttl: i64,
}

impl DedupCache {
    /// A key is seen at time `t` when some live mark carries it.
    pub open spec fn seen(
        self,
        client: Seq<char>,
        member_id: i64,
        kind: Option<VisitorType>,
        t: int,
    ) -> bool {
        exists|i: int|
            0 <= i < self.entries@.len() && entry_matches(
                #[trigger] self.entries@[i],
                client,
                member_id,
                kind,
            ) && self.entries@[i].expires_at > t
    }

    pub open spec fn wf(self) -> bool {
        self.ttl >= 1
    }

    /// An empty cache: nothing is seen, at any time.
    pub fn new(ttl: i64) -> (c: DedupCache)
        requires
            ttl >= 1,
        ensures
            c.wf(),
            c.ttl == ttl,
            forall|cl: Seq<char>, id: i64, k: Option<VisitorType>, t: int|
                !(#[trigger] c.seen(cl, id, k, t)),
    {
        DedupCache { entries: Vec::new(), ttl }
    }

    /// The dedup step of a visit: reports whether the key was unseen, and
    /// on first sight marks it seen for the next `ttl` seconds. Every
    /// other key's marks are untouched; a key that was already seen leaves
    /// the cache exactly as it was.
    pub fn check_and_mark(
        &mut self,
        client: &String,
        member_id: i64,
        kind: Option<VisitorType>,
        now: i64,
    ) -> (fresh: bool)
        requires
            old(self).wf(),
            now <= i64::MAX - old(self).ttl,
        ensures
            final(self).wf(),
            final(self).ttl == old(self).ttl,
            fresh == !old(self).seen(client@, member_id, kind, now as int),
            !fresh ==> *final(self) == *old(self),
            fresh ==> forall|cl: Seq<char>, id: i64, k: Option<VisitorType>, t: int|
                !(cl == client@ && id == member_id && k == kind) ==> #[trigger] final(self).seen(
                    cl,
                    id,
                    k,
                    t,
                ) == old(self).seen(cl, id, k, t),
            fresh ==> forall|t: int|
                #[trigger] final(self).seen(client@, member_id, kind, t) == (old(self).seen(
                    client@,
                    member_id,
                    kind,
                    t,
                ) || t < now + old(self).ttl),
    {
        let n = self.entries.len();
        let mut i: usize = 0;
        while i < n
            invariant
                old(self).wf(),
                *self == *old(self),
                n == self.entries@.len(),
                i <= n,
                forall|j: int|
                    0 <= j < i ==> !(entry_matches(#[trigger] self.entries@[j], client@, member_id, kind)
                        && self.entries@[j].expires_at > now),
            decreases n - i,
        {
            let e = &self.entries[i];
            if e.member_id == member_id && kind_eq(&e.kind, &kind) && e.client == *client
                && e.expires_at > now {
                return false;
            }
            i += 1;
        }
        let ghost pre = *self;
        let entry = DedupEntry {
            client: client.clone(),
            member_id,
            kind,
            expires_at: now + self.ttl,
        };
        self.entries.push(entry);
        proof {
            let last = self.entries@.len() - 1;
            assert forall|cl: Seq<char>, id: i64, k: Option<VisitorType>, t: int|
                !(cl == client@ && id == member_id && k == kind) implies #[trigger] self.seen(
                cl,
                id,
                k,
                t,
            ) == pre.seen(cl, id, k, t) by {
                if self.seen(cl, id, k, t) {
                    let w = choose|w: int|
                        0 <= w < self.entries@.len() && entry_matches(
                            #[trigger] self.entries@[w],
                            cl,
                            id,
                            k,
                        ) && self.entries@[w].expires_at > t;
                    assert(w != last);
                    assert(pre.entries@[w] == self.entries@[w]);
                }
                if pre.seen(cl, id, k, t) {
                    let w = choose|w: int|
                        0 <= w < pre.entries@.len() && entry_matches(
                            #[trigger] pre.entries@[w],
                            cl,
                            id,
                            k,
                        ) && pre.entries@[w].expires_at > t;
                    assert(self.entries@[w] == pre.entries@[w]);
                }
            }
            assert forall|t: int| #[trigger] self.seen(client@, member_id, kind, t) == (pre.seen(
                client@,
                member_id,
                kind,
                t,
            ) || t < now + pre.ttl) by {
                if t < now + pre.ttl {
                    assert(entry_matches(self.entries@[last], client@, member_id, kind)
                        && self.entries@[last].expires_at > t);
                }
                if self.seen(client@, member_id, kind, t) {
                    let w = choose|w: int|
                        0 <= w < self.entries@.len() && entry_matches(
                            #[trigger] self.entries@[w],
                            client@,
                            member_id,
                            kind,
                        ) && self.entries@[w].expires_at > t;
                    if w != last {
                        assert(pre.entries@[w] == self.entries@[w]);
                    }
                }
                if pre.seen(client@, member_id, kind, t) {
                    let w = choose|w: int|
                        0 <= w < pre.entries@.len() && entry_matches(
                            #[trigger] pre.entries@[w],
                            client@,
                            member_id,
                            kind,
                        ) && pre.entries@[w].expires_at > t;
                    assert(self.entries@[w] == pre.entries@[w]);
                }
            }
        }
        true
    }

    /// Wipes every mark; invoked at day rollover.
    pub fn clear(&mut self)
        ensures
            final(self).wf() == old(self).wf(),
            final(self).ttl == old(self).ttl,
            forall|cl: Seq<char>, id: i64, k: Option<VisitorType>, t: int|
                !(#[trigger] final(self).seen(cl, id, k, t)),
    {
        self.entries.clear();
    }

    /// Housekeeping: drops marks that have already expired at `now`. What
    /// is seen at `now` or later does not change.
    pub fn sweep(&mut self, now: i64)
        ensures
            final(self).wf() == old(self).wf(),
            final(self).ttl == old(self).ttl,
            forall|i: int|
                0 <= i < final(self).entries@.len() ==> (#[trigger] final(self).entries@[i]).expires_at
                    > now,
            forall|cl: Seq<char>, id: i64, k: Option<VisitorType>, t: int|
                t >= now ==> #[trigger] final(self).seen(cl, id, k, t) == old(self).seen(
                    cl,
                    id,
                    k,
                    t,
                ),
    {
        let ghost pre = *self;
        let mut kept: Vec<DedupEntry> = Vec::new();
        let n = self.entries.len();
        let mut i: usize = 0;
        while i < n
            invariant
                n == self.entries@.len(),
                i <= n,
                *self == pre,
                forall|j: int|
                    0 <= j < kept@.len() ==> (#[trigger] kept@[j]).expires_at > now,
                forall|j: int| #![trigger kept@[j]]
                    0 <= j < kept@.len() ==> exists|w: int|
                        0 <= w < i && #[trigger] pre.entries@[w] == kept@[j],
                forall|w: int| #![trigger pre.entries@[w]]
                    0 <= w < i && pre.entries@[w].expires_at > now ==> exists|j: int|
                        0 <= j < kept@.len() && #[trigger] kept@[j] == pre.entries@[w],
            decreases n - i,
        {
            if self.entries[i].expires_at > now {
                let ghost old_kept = kept@;
                let e = &self.entries[i];
                kept.push(DedupEntry {
                    client: e.client.clone(),
                    member_id: e.member_id,
                    kind: e.kind,
                    expires_at: e.expires_at,
                });
                proof {
                    assert(kept@[kept@.len() - 1] == pre.entries@[i as int]);
                    assert forall|w: int| #![trigger pre.entries@[w]]
                        0 <= w < i + 1 && pre.entries@[w].expires_at > now implies exists|j: int|
                        0 <= j < kept@.len() && #[trigger] kept@[j] == pre.entries@[w] by {
                        if w == i {
                            assert(kept@[kept@.len() - 1] == pre.entries@[w]);
                        } else {
                            let j = choose|j: int|
                                0 <= j < old_kept.len() && #[trigger] old_kept[j]
                                    == pre.entries@[w];
                            assert(kept@[j] == pre.entries@[w]);
                        }
                    }
                }
            }
            i += 1;
        }
        self.entries = kept;
        proof {
            assert forall|cl: Seq<char>, id: i64, k: Option<VisitorType>, t: int| t >= now implies
                #[trigger] self.seen(cl, id, k, t) == pre.seen(cl, id, k, t) by {
                if self.seen(cl, id, k, t) {
                    let j = choose|j: int|
                        0 <= j < self.entries@.len() && entry_matches(
                            #[trigger] self.entries@[j],
                            cl,
                            id,
                            k,
                        ) && self.entries@[j].expires_at > t;
                    let w = choose|w: int|
                        0 <= w < pre.entries@.len() && #[trigger] pre.entries@[w]
                            == self.entries@[j];
                    assert(entry_matches(pre.entries@[w], cl, id, k) && pre.entries@[w].expires_at
                        > t);
                }
                if pre.seen(cl, id, k, t) {
                    let w = choose|w: int|
                        0 <= w < pre.entries@.len() && entry_matches(
                            #[trigger] pre.entries@[w],
                            cl,
                            id,
                            k,
                        ) && pre.entries@[w].expires_at > t;
                    assert(pre.entries@[w].expires_at > now);
                    let j = choose|j: int|
                        0 <= j < self.entries@.len() && #[trigger] self.entries@[j]
                            == pre.entries@[w];
                    assert(entry_matches(self.entries@[j], cl, id, k)
                        && self.entries@[j].expires_at > t);
                }
            }
        }
    }
}

/// Equality of two optional visit kinds, usable from verified code.
pub fn kind_eq(a: &Option<VisitorType>, b: &Option<VisitorType>) -> (r: bool)
    ensures
        r == (a == b),
{
    match (a, b) {
        (None, None) => true,
        (Some(x), Some(y)) => *x == *y,
        _ => false,
    }
}

} // verus!
