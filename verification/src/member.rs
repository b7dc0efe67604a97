//! The immutable member directory: domain -> member and id -> member
//! lookup, loaded once at startup. Hidden members are dropped at load time
//! and never appear in any lookup or ranking.

use vstd::prelude::*;

verus! {

/// One member of the ring. Immutable once loaded.
#[derive(Debug)]
pub struct Member {
    pub id: i64,
    pub domain: String,
    pub name: String,
    pub description: String,
    pub github_username: String,
    pub hidden: bool,
}

impl Member {
    /// A field-for-field copy.
    pub fn duplicate(&self) -> (r: Member)
        ensures
            r == *self,
    {
        Member {
            id: self.id,
            domain: self.domain.clone(),
            name: self.name.clone(),
            description: self.description.clone(),
            github_username: self.github_username.clone(),
            hidden: self.hidden,
        }
    }

    /// The copy of a member that may leave the process in a broadcast
    /// event: display fields that are not needed are blanked.
    pub fn sanitized(&self) -> (r: Member)
        ensures
            r.id == self.id,
            r.domain == self.domain,
            r.name == self.name,
            r.description@ == Seq::<char>::empty(),
            r.github_username@ == Seq::<char>::empty(),
            r.hidden == self.hidden,
    {
        Member {
            id: self.id,
            domain: self.domain.clone(),
            name: self.name.clone(),
            description: String::new(),
            github_username: String::new(),
            hidden: self.hidden,
        }
    }
}

/// The first member of `s` whose domain reads `d`, if any.
pub open spec fn find_by_domain(s: Seq<Member>, d: Seq<char>) -> Option<Member>
    decreases s.len(),
{
    if s.len() == 0 {
        None
    } else if s[0].domain@ == d {
        Some(s[0])
    } else {
        find_by_domain(s.drop_first(), d)
    }
}

/// The first member of `s` with id `id`, if any.
pub open spec fn find_by_id(s: Seq<Member>, id: i64) -> Option<Member>
    decreases s.len(),
{
    if s.len() == 0 {
        None
    } else if s[0].id == id {
        Some(s[0])
    } else {
        find_by_id(s.drop_first(), id)
    }
}

/// `find_by_domain` returns exactly the entry at the first matching index.
pub proof fn lemma_find_by_domain_at(s: Seq<Member>, d: Seq<char>, i: int)
    requires
        0 <= i < s.len(),
        s[i].domain@ == d,
        forall|j: int| 0 <= j < i ==> s[j].domain@ != d,
    ensures
        find_by_domain(s, d) == Some(s[i]),
    decreases s.len(),
{
    if i == 0 {
    } else {
        lemma_find_by_domain_at(s.drop_first(), d, i - 1);
    }
}

/// When no entry matches, `find_by_domain` finds nothing.
pub proof fn lemma_find_by_domain_none(s: Seq<Member>, d: Seq<char>)
    requires
        forall|j: int| 0 <= j < s.len() ==> s[j].domain@ != d,
    ensures
        find_by_domain(s, d) is None,
    decreases s.len(),
{
    if s.len() > 0 {
        lemma_find_by_domain_none(s.drop_first(), d);
    }
}

/// `find_by_id` returns exactly the entry at the first matching index.
pub proof fn lemma_find_by_id_at(s: Seq<Member>, id: i64, i: int)
    requires
        0 <= i < s.len(),
        s[i].id == id,
        forall|j: int| 0 <= j < i ==> s[j].id != id,
    ensures
        find_by_id(s, id) == Some(s[i]),
    decreases s.len(),
{
    if i == 0 {
    } else {
        lemma_find_by_id_at(s.drop_first(), id, i - 1);
    }
}

/// When no entry has the id, `find_by_id` finds nothing.
pub proof fn lemma_find_by_id_none(s: Seq<Member>, id: i64)
    requires
        forall|j: int| 0 <= j < s.len() ==> s[j].id != id,
    ensures
        find_by_id(s, id) is None,
    decreases s.len(),
{
    if s.len() > 0 {
        lemma_find_by_id_none(s.drop_first(), id);
    }
}

/// A raw membership list that loading keeps as it is: nothing hidden, no
/// id and no domain repeated.
pub open spec fn plain_list(entries: Seq<Member>) -> bool {
    &&& forall|i: int| 0 <= i < entries.len() ==> !(#[trigger] entries[i]).hidden
    &&& forall|i: int, j: int|
        0 <= i < j < entries.len() ==> (#[trigger] entries[i]).id != (#[trigger] entries[j]).id
    &&& forall|i: int, j: int|
        0 <= i < j < entries.len() ==> (#[trigger] entries[i]).domain@ != (
        #[trigger] entries[j]).domain@
}

/// The active directory: every entry visible, ids and domains unique.
pub struct MemberDirectory {
    pub members: Vec<Member>,
}

impl MemberDirectory {
    /// Directory well-formedness: no hidden entry survives loading, and no
    /// two entries share an id or a domain.
    pub open spec fn wf(self) -> bool {
        &&& forall|i: int| 0 <= i < self.members@.len() ==> !(#[trigger] self.members@[i]).hidden
        &&& forall|i: int, j: int|
            0 <= i < j < self.members@.len() ==> (#[trigger] self.members@[i]).id != (
            #[trigger] self.members@[j]).id
        &&& forall|i: int, j: int|
            0 <= i < j < self.members@.len() ==> (#[trigger] self.members@[i]).domain@ != (
            #[trigger] self.members@[j]).domain@
    }

    /// Builds the active directory from the raw membership list: hidden
    /// entries are dropped, and of entries sharing an id or a domain only
    /// the first is kept.
    pub fn load(entries: Vec<Member>) -> (d: MemberDirectory)
        ensures
            d.wf(),
            forall|i: int|
                0 <= i < d.members@.len() ==> entries@.contains(#[trigger] d.members@[i]),
            forall|k: int|
                0 <= k < entries@.len() && !(#[trigger] entries@[k]).hidden ==> (find_by_id(
                    d.members@,
                    entries@[k].id,
                ) is Some || find_by_domain(d.members@, entries@[k].domain@) is Some),
            plain_list(entries@) ==> d.members@ == entries@,
    {
        let mut out: Vec<Member> = Vec::new();
        let n = entries.len();
        let mut k: usize = 0;
        while k < n
            invariant
                n == entries@.len(),
                k <= n,
                forall|i: int| 0 <= i < out@.len() ==> !(#[trigger] out@[i]).hidden,
                forall|i: int, j: int|
                    0 <= i < j < out@.len() ==> (#[trigger] out@[i]).id != (#[trigger] out@[j]).id,
                forall|i: int, j: int|
                    0 <= i < j < out@.len() ==> (#[trigger] out@[i]).domain@ != (
                    #[trigger] out@[j]).domain@,
                forall|i: int| 0 <= i < out@.len() ==> entries@.contains(#[trigger] out@[i]),
                forall|m: int|
                    0 <= m < k && !(#[trigger] entries@[m]).hidden ==> ((exists|i: int|
                        0 <= i < out@.len() && (#[trigger] out@[i]).id == entries@[m].id) || (
                    exists|i: int|
                        0 <= i < out@.len() && (#[trigger] out@[i]).domain@
                            == entries@[m].domain@)),
                plain_list(entries@) ==> out@ == entries@.take(k as int),
            decreases n - k,
        {
            let e = &entries[k];
            if !e.hidden && !contains_id(&out, e.id) && !contains_domain(&out, &e.domain) {
                let ghost old_out = out@;
                out.push(e.duplicate());
                proof {
                    assert(entries@.contains(out@[out@.len() - 1])) by {
                        assert(out@[out@.len() - 1] == entries@[k as int]);
                    }
                    assert forall|i: int| 0 <= i < out@.len() implies entries@.contains(
                        #[trigger] out@[i],
                    ) by {
                        if i < out@.len() - 1 {
                            assert(out@[i] == old_out[i]);
                        }
                    }
                    assert forall|m: int|
                        0 <= m < k + 1 && !(#[trigger] entries@[m]).hidden implies ((exists|i: int|
                        0 <= i < out@.len() && (#[trigger] out@[i]).id == entries@[m].id) || (
                    exists|i: int|
                        0 <= i < out@.len() && (#[trigger] out@[i]).domain@
                            == entries@[m].domain@)) by {
                        if m == k {
                            assert(out@[out@.len() - 1].id == entries@[m].id);
                        } else {
                            if exists|i: int|
                                0 <= i < old_out.len() && (#[trigger] old_out[i]).id
                                    == entries@[m].id {
                                let i = choose|i: int|
                                    0 <= i < old_out.len() && (#[trigger] old_out[i]).id
                                        == entries@[m].id;
                                assert(out@[i].id == entries@[m].id);
                            } else {
                                let i = choose|i: int|
                                    0 <= i < old_out.len() && (#[trigger] old_out[i]).domain@
                                        == entries@[m].domain@;
                                assert(out@[i].domain@ == entries@[m].domain@);
                            }
                        }
                    }
                    if plain_list(entries@) {
                        assert(out@ =~= entries@.take(k as int + 1));
                    }
                }
            } else {
                proof {
                    if plain_list(entries@) {
                        assert(!entries@[k as int].hidden);
                        if exists|i: int|
                            0 <= i < out@.len() && (#[trigger] out@[i]).id == entries@[k as int].id {
                            let i = choose|i: int|
                                0 <= i < out@.len() && (#[trigger] out@[i]).id
                                    == entries@[k as int].id;
                            assert(out@[i] == entries@[i]);
                            assert(false);
                        }
                        if exists|i: int|
                            0 <= i < out@.len() && (#[trigger] out@[i]).domain@
                                == entries@[k as int].domain@ {
                            let i = choose|i: int|
                                0 <= i < out@.len() && (#[trigger] out@[i]).domain@
                                    == entries@[k as int].domain@;
                            assert(out@[i] == entries@[i]);
                            assert(false);
                        }
                        assert(false);
                    }
                }
            }
            k += 1;
        }
        proof {
            if plain_list(entries@) {
                assert(entries@.take(n as int) =~= entries@);
            }
        }
        let d = MemberDirectory { members: out };
        proof {
            assert forall|m: int|
                0 <= m < entries@.len() && !(#[trigger] entries@[m]).hidden implies (find_by_id(
                d.members@,
                entries@[m].id,
            ) is Some || find_by_domain(d.members@, entries@[m].domain@) is Some) by {
                if exists|i: int|
                    0 <= i < d.members@.len() && (#[trigger] d.members@[i]).id == entries@[m].id {
                    let i = choose|i: int|
                        0 <= i < d.members@.len() && (#[trigger] d.members@[i]).id
                            == entries@[m].id;
                    lemma_find_first_id_some(d.members@, entries@[m].id, i);
                } else {
                    let i = choose|i: int|
                        0 <= i < d.members@.len() && (#[trigger] d.members@[i]).domain@
                            == entries@[m].domain@;
                    lemma_find_first_domain_some(d.members@, entries@[m].domain@, i);
                }
            }
        }
        d
    }

    /// Number of active members.
    pub fn len(&self) -> (n: usize)
        ensures
            n == self.members@.len(),
    {
        self.members.len()
    }

    /// The member at a position, for walking the directory.
    pub fn member_at(&self, i: usize) -> (m: &Member)
        requires
            i < self.members@.len(),
        ensures
            *m == self.members@[i as int],
    {
        &self.members[i]
    }

    /// The position of the member owning a domain, if any.
    pub fn index_of_domain(&self, domain: &String) -> (r: Option<usize>)
        ensures
            match r {
                Some(i) => i < self.members@.len() && find_by_domain(self.members@, domain@)
                    == Some(self.members@[i as int]),
                None => find_by_domain(self.members@, domain@) is None,
            },
    {
        let n = self.members.len();
        let mut i: usize = 0;
        while i < n
            invariant
                n == self.members@.len(),
                i <= n,
                forall|j: int| 0 <= j < i ==> (#[trigger] self.members@[j]).domain@ != domain@,
            decreases n - i,
        {
            if self.members[i].domain == *domain {
                proof {
                    lemma_find_by_domain_at(self.members@, domain@, i as int);
                }
                return Some(i);
            }
            i += 1;
        }
        proof {
            lemma_find_by_domain_none(self.members@, domain@);
        }
        None
    }

    /// Resolves a domain to the owning member's id.
    pub fn resolve(&self, domain: &String) -> (r: Option<i64>)
        ensures
            match find_by_domain(self.members@, domain@) {
                Some(m) => r == Some(m.id),
                None => r is None,
            },
    {
        let n = self.members.len();
        let mut i: usize = 0;
        while i < n
            invariant
                n == self.members@.len(),
                i <= n,
                forall|j: int| 0 <= j < i ==> (#[trigger] self.members@[j]).domain@ != domain@,
            decreases n - i,
        {
            if self.members[i].domain == *domain {
                proof {
                    lemma_find_by_domain_at(self.members@, domain@, i as int);
                }
                return Some(self.members[i].id);
            }
            i += 1;
        }
        proof {
            lemma_find_by_domain_none(self.members@, domain@);
        }
        None
    }

    /// Looks a member up by id.
    pub fn get(&self, id: i64) -> (r: Option<&Member>)
        ensures
            match find_by_id(self.members@, id) {
                Some(m) => r is Some && *r.unwrap() == m,
                None => r is None,
            },
    {
        let n = self.members.len();
        let mut i: usize = 0;
        while i < n
            invariant
                n == self.members@.len(),
                i <= n,
                forall|j: int| 0 <= j < i ==> (#[trigger] self.members@[j]).id != id,
            decreases n - i,
        {
            if self.members[i].id == id {
                proof {
                    lemma_find_by_id_at(self.members@, id, i as int);
                }
                return Some(&self.members[i]);
            }
            i += 1;
        }
        proof {
            lemma_find_by_id_none(self.members@, id);
        }
        None
    }
}

/// Whether some entry of `v` already carries this id.
fn contains_id(v: &Vec<Member>, id: i64) -> (r: bool)
    ensures
        r == exists|i: int| 0 <= i < v@.len() && (#[trigger] v@[i]).id == id,
{
    let n = v.len();
    let mut i: usize = 0;
    while i < n
        invariant
            n == v@.len(),
            i <= n,
            forall|j: int| 0 <= j < i ==> (#[trigger] v@[j]).id != id,
        decreases n - i,
    {
        if v[i].id == id {
            return true;
        }
        i += 1;
    }
    false
}

/// Whether some entry of `v` already carries this domain.
fn contains_domain(v: &Vec<Member>, domain: &String) -> (r: bool)
    ensures
        r == exists|i: int| 0 <= i < v@.len() && (#[trigger] v@[i]).domain@ == domain@,
{
    let n = v.len();
    let mut i: usize = 0;
    while i < n
        invariant
            n == v@.len(),
            i <= n,
            forall|j: int| 0 <= j < i ==> (#[trigger] v@[j]).domain@ != domain@,
        decreases n - i,
    {
        if v[i].domain == *domain {
            return true;
        }
        i += 1;
    }
    false
}

/// If any entry carries the id, the first-match search succeeds.
pub proof fn lemma_find_first_id_some(s: Seq<Member>, id: i64, i: int)
    requires
        0 <= i < s.len(),
        s[i].id == id,
    ensures
        find_by_id(s, id) is Some,
    decreases s.len(),
{
    if s[0].id == id {
    } else {
        lemma_find_first_id_some(s.drop_first(), id, i - 1);
    }
}

/// If any entry carries the domain, the first-match search succeeds.
proof fn lemma_find_first_domain_some(s: Seq<Member>, d: Seq<char>, i: int)
    requires
        0 <= i < s.len(),
        s[i].domain@ == d,
    ensures
        find_by_domain(s, d) is Some,
    decreases s.len(),
{
    if s[0].domain@ == d {
    } else {
        lemma_find_first_domain_some(s.drop_first(), d, i - 1);
    }
}

} // verus!
