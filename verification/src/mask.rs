//! Masking of client addresses before they leave the process in a
//! broadcast event. For a dotted address everything strictly between the
//! first and the last dot-delimited segment is replaced by one `****`
//! token; for a colon-delimited address everything strictly between the
//! first and the last pair of groups is replaced the same way.

use vstd::prelude::*;

verus! {

/// The mask token.
pub open spec fn stars() -> Seq<char> {
    seq!['*', '*', '*', '*']
}

/// The positions of every occurrence of `ch` in `s`, in ascending order.
pub open spec fn occurrences(s: Seq<char>, ch: char) -> Seq<int>
    decreases s.len(),
{
    if s.len() == 0 {
        Seq::empty()
    } else {
        let rest = occurrences(s.drop_last(), ch);
        if s.last() == ch {
            rest.push(s.len() - 1)
        } else {
            rest
        }
    }
}

/// Dotted rule: with at least two dots, keep up to and including the
/// first dot and from the last dot on, and put the mask token between.
pub open spec fn mask_dotted(s: Seq<char>) -> Seq<char> {
    let o = occurrences(s, '.');
    if o.len() >= 2 {
        s.take(o[0] + 1) + stars() + s.skip(o[o.len() - 1])
    } else {
        s
    }
}

/// Colon rule: with at least four colons, keep the first two groups and
/// the last two groups, and put the mask token between.
pub open spec fn mask_coloned(s: Seq<char>) -> Seq<char> {
    let o = occurrences(s, ':');
    if o.len() >= 4 {
        s.take(o[1] + 1) + stars() + s.skip(o[o.len() - 2])
    } else {
        s
    }
}

/// The full masking rule: the dotted rule first, then the colon rule on
/// its result.
pub open spec fn masked_ip(s: Seq<char>) -> Seq<char> {
    mask_coloned(mask_dotted(s))
}

/// Finds every position of `ch` in `s`, ascending.
fn find_occurrences(s: &str, ch: char) -> (v: Vec<usize>)
    ensures
        v@.len() == occurrences(s@, ch).len(),
        forall|j: int| 0 <= j < v@.len() ==> #[trigger] v@[j] as int == occurrences(s@, ch)[j],
        forall|j: int| 0 <= j < v@.len() ==> #[trigger] v@[j] < s@.len(),
{
    let n = s.unicode_len();
    let mut v: Vec<usize> = Vec::new();
    let mut i: usize = 0;
    while i < n
        invariant
            n == s@.len(),
            i <= n,
            v@.len() == occurrences(s@.take(i as int), ch).len(),
            forall|j: int|
                0 <= j < v@.len() ==> #[trigger] v@[j] as int == occurrences(s@.take(i as int), ch)[j],
            forall|j: int| 0 <= j < v@.len() ==> #[trigger] v@[j] < n,
        decreases n - i,
    {
        let ghost prefix = s@.take(i as int);
        let ghost next_prefix = s@.take(i as int + 1);
        proof {
            assert(next_prefix.drop_last() =~= prefix);
            assert(next_prefix.last() == s@[i as int]);
        }
        let c = s.get_char(i);
        if c == ch {
            v.push(i);
        }
        i += 1;
    }
    proof {
        assert(s@.take(n as int) =~= s@);
    }
    v
}

/// Applies the dotted rule.
pub fn mask_dotted_str(s: &str) -> (r: String)
    ensures
        r@ == mask_dotted(s@),
{
    let occ = find_occurrences(s, '.');
    if occ.len() >= 2 {
        let first = occ[0];
        let last = occ[occ.len() - 1];
        let n = s.unicode_len();
        let mut out = s.substring_char(0, first + 1).to_owned();
        out.append("****");
        out.append(s.substring_char(last, n));
        proof {
            reveal_strlit("****");
            assert("****"@ =~= stars());
            assert(s@.subrange(0, first as int + 1) =~= s@.take(first as int + 1));
            assert(s@.subrange(last as int, n as int) =~= s@.skip(last as int));
        }
        out
    } else {
        s.to_owned()
    }
}

/// Applies the colon rule.
pub fn mask_coloned_str(s: &str) -> (r: String)
    ensures
        r@ == mask_coloned(s@),
{
    let occ = find_occurrences(s, ':');
    if occ.len() >= 4 {
        let second = occ[1];
        let second_last = occ[occ.len() - 2];
        let n = s.unicode_len();
        let mut out = s.substring_char(0, second + 1).to_owned();
        out.append("****");
        out.append(s.substring_char(second_last, n));
        proof {
            reveal_strlit("****");
            assert("****"@ =~= stars());
            assert(s@.subrange(0, second as int + 1) =~= s@.take(second as int + 1));
            assert(s@.subrange(second_last as int, n as int) =~= s@.skip(second_last as int));
        }
        out
    } else {
        s.to_owned()
    }
}

/// Masks a client address: the dotted rule, then the colon rule.
pub fn mask_ip(s: &str) -> (r: String)
    ensures
        r@ == masked_ip(s@),
{
    let dotted = mask_dotted_str(s);
    mask_coloned_str(dotted.as_str())
}

} // verus!
