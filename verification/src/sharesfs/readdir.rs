//! Listing a directory a page at a time: its children in increasing id
//! order, after the last id the client has seen.

use vstd::prelude::*;

verus! {

/// `s` with `x` added in increasing order, unless it is there already.
pub open spec fn insert_sorted(s: Seq<u64>, x: u64) -> Seq<u64>
    decreases s.len(),
{
    if s.len() == 0 {
        seq![x]
    } else if s[0] == x {
        s
    } else if x < s[0] {
        seq![x] + s
    } else {
        seq![s[0]] + insert_sorted(s.drop_first(), x)
    }
}

/// The distinct ids of `s`, in increasing order.
pub open spec fn sorted_ids(s: Seq<u64>) -> Seq<u64>
    decreases s.len(),
{
    if s.len() == 0 {
        seq![]
    } else {
        insert_sorted(sorted_ids(s.drop_last()), s.last())
    }
}

/// The ids of `s` greater than `a`, in order.
pub open spec fn above(s: Seq<u64>, a: u64) -> Seq<u64>
    decreases s.len(),
{
    if s.len() == 0 {
        seq![]
    } else if s[0] > a {
        seq![s[0]] + above(s.drop_first(), a)
    } else {
        above(s.drop_first(), a)
    }
}

/// The ids a listing continues with: those after `start_after`, or all of
/// them when `start_after` is 0.
pub open spec fn remaining_ids(children: Seq<u64>, start_after: u64) -> Seq<u64> {
    if start_after > 0 {
        above(sorted_ids(children), start_after)
    } else {
        sorted_ids(children)
    }
}

/// How many ids one page holds: up to `max_entries`, but at least one when
/// any remain.
pub open spec fn page_len(remaining: nat, max_entries: nat) -> nat {
    let cap = if max_entries == 0 {
        1
    } else {
        max_entries
    };
    if remaining < cap {
        remaining
    } else {
        cap
    }
}

/// Whether `s` strictly increases.
pub open spec fn increasing(s: Seq<u64>) -> bool {
    forall|i: int, j: int| 0 <= i < j < s.len() ==> #[trigger] s[i] < #[trigger] s[j]
}

proof fn lemma_insert_sorted_split(s: Seq<u64>, p: int, x: u64)
    requires
        0 <= p <= s.len(),
        forall|j: int| 0 <= j < p ==> #[trigger] s[j] < x,
    ensures
        insert_sorted(s, x) == s.take(p) + insert_sorted(s.skip(p), x),
    decreases p,
{
    if p == 0 {
        assert(s.skip(0) =~= s);
        assert(s.take(0) + insert_sorted(s, x) =~= insert_sorted(s, x));
    } else {
        let t = s.drop_first();
        assert forall|j: int| 0 <= j < p - 1 implies #[trigger] t[j] < x by {
            assert(t[j] == s[j + 1]);
        }
        lemma_insert_sorted_split(t, p - 1, x);
        assert(t.skip(p - 1) =~= s.skip(p));
        assert(seq![s[0]] + t.take(p - 1) =~= s.take(p));
        assert(s[0] < x);
    }
}

fn insert_id(v: &mut Vec<u64>, x: u64)
    requires
        increasing(old(v)@),
    ensures
        final(v)@ == insert_sorted(old(v)@, x),
        increasing(final(v)@),
{
    let ghost s = v@;
    let mut p: usize = 0;
    while p < v.len() && v[p] < x
        invariant
            p <= v.len(),
            v@ == s,
            forall|j: int| 0 <= j < p ==> #[trigger] s[j] < x,
        decreases v.len() - p,
    {
        p += 1;
    }
    proof {
        lemma_insert_sorted_split(s, p as int, x);
    }
    if p < v.len() && v[p] == x {
        assert(s.skip(p as int)[0] == x);
        assert(s.take(p as int) + s.skip(p as int) =~= s);
        return;
    }
    v.insert(p, x);
    proof {
        if p < s.len() {
            assert(s.skip(p as int)[0] == s[p as int]);
        }
        assert(s.take(p as int) + (seq![x] + s.skip(p as int)) =~= s.insert(p as int, x));
        assert forall|i: int, j: int| 0 <= i < j < v@.len() implies #[trigger] v@[i] < #[trigger] v@[j] by {
            if j < p {
                assert(v@[i] == s[i] && v@[j] == s[j]);
            } else if j == p {
                assert(v@[i] == s[i]);
            } else if i < p {
                assert(v@[i] == s[i] && v@[j] == s[j - 1]);
                assert(s[p as int] > x);
                if j - 1 > p {
                    assert(s[p as int] < s[j - 1]);
                }
            } else if i == p {
                assert(v@[j] == s[j - 1]);
                assert(s[p as int] > x);
                if j - 1 > p {
                    assert(s[p as int] < s[j - 1]);
                }
            } else {
                assert(v@[i] == s[i - 1] && v@[j] == s[j - 1]);
            }
        }
    }
}

/// One page of a directory listing: the next ids after `start_after` (all
/// of them from the start when it is 0), in increasing order, up to
/// `max_entries` but at least one, and whether that reaches the last id.
pub fn readdir_page(children: &Vec<u64>, start_after: u64, max_entries: usize) -> (r: (
    Vec<u64>,
    bool,
))
    ensures
        ({
            let rem = remaining_ids(children@, start_after);
            let k = page_len(rem.len(), max_entries as nat);
            &&& r.0@ == rem.take(k as int)
            &&& r.1 == (k == rem.len())
        }),
        increasing(r.0@),
{
    let mut ids: Vec<u64> = Vec::new();
    let mut i: usize = 0;
    while i < children.len()
        invariant
            i <= children.len(),
            ids@ == sorted_ids(children@.take(i as int)),
            increasing(ids@),
        decreases children.len() - i,
    {
        assert(children@.take(i + 1).drop_last() =~= children@.take(i as int));
        insert_id(&mut ids, children[i]);
        i += 1;
    }
    assert(children@.take(children.len() as int) =~= children@);
    let ghost all = ids@;
    let mut start: usize = 0;
    assert(all.skip(0) =~= all);
    if start_after > 0 {
        while start < ids.len() && ids[start] <= start_after
            invariant
                start <= ids.len(),
                ids@ == all,
                increasing(all),
                above(all, start_after) == above(all.skip(start as int), start_after),
            decreases ids.len() - start,
        {
            assert(all.skip(start as int).drop_first() =~= all.skip(start + 1));
            start += 1;
        }
        proof {
            lemma_above_all(all.skip(start as int), start_after);
        }
    } else {
        assert(all.skip(0) =~= all);
    }
    let ghost rem = all.skip(start as int);
    assert(rem == remaining_ids(children@, start_after));
    let cap: usize = if max_entries == 0 {
        1
    } else {
        max_entries
    };
    let remaining = ids.len() - start;
    let k = if remaining < cap {
        remaining
    } else {
        cap
    };
    let mut page: Vec<u64> = Vec::new();
    let mut j: usize = 0;
    while j < k
        invariant
            j <= k <= remaining,
            remaining == ids.len() - start,
            ids@ == all,
            rem == all.skip(start as int),
            increasing(all),
            page@ == rem.take(j as int),
        decreases k - j,
    {
        page.push(ids[start + j]);
        assert(rem.take(j + 1) =~= rem.take(j as int).push(rem[j as int]));
        j += 1;
    }
    assert forall|a: int, b: int| 0 <= a < b < page@.len() implies #[trigger] page@[a]
        < #[trigger] page@[b] by {
        assert(page@[a] == all[start + a] && page@[b] == all[start + b]);
    }
    (page, k == remaining)
}

/// In an increasing sequence whose first id is past `a`, every id is.
proof fn lemma_above_all(s: Seq<u64>, a: u64)
    requires
        increasing(s),
        s.len() > 0 ==> s[0] > a,
    ensures
        above(s, a) == s,
    decreases s.len(),
{
    if s.len() > 0 {
        let t = s.drop_first();
        if t.len() > 0 {
            assert(s[0] < s[1]);
        }
        assert forall|i: int, j: int| 0 <= i < j < t.len() implies #[trigger] t[i] < #[trigger] t[j] by {
            assert(t[i] == s[i + 1] && t[j] == s[j + 1]);
        }
        lemma_above_all(t, a);
        assert(seq![s[0]] + t =~= s);
    }
}

} // verus!
