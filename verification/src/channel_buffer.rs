//! The buffer that collects a file's writes before they are committed:
//! chunks keyed by their offset, the furthest byte written, and whether the
//! client has said the file is complete.

use vstd::prelude::*;
use std::collections::BTreeMap;
use vstd::std_specs::btree::{increasing_seq, spec_btree_map_iter};
use vstd::std_specs::iter::IteratorSpec;
use crate::xdr::{push_bytes, push_range, push_zeros, zeros};

verus! {

/// How a write reaches the buffer: left buffered, or also marking the file
/// complete.
#[derive(Debug, Clone, Copy, PartialEq, Eq, Structural)]
pub enum WriteMode {
    Buffered,
    Synchronous,
}

/// Whether the offsets of `s` strictly increase.
pub open spec fn sorted_offsets(s: Seq<(u64, Seq<u8>)>) -> bool {
    forall|i: int, j: int| 0 <= i < j < s.len() ==> #[trigger] s[i].0 < #[trigger] s[j].0
}

/// Whether some chunk of `s` starts at `k`.
pub open spec fn has_offset(s: Seq<(u64, Seq<u8>)>, k: u64) -> bool {
    exists|i: int| 0 <= i < s.len() && #[trigger] s[i].0 == k
}

/// The chunks of `s` as a map from offset to bytes.
pub open spec fn chunk_map(s: Seq<(u64, Seq<u8>)>) -> Map<u64, Seq<u8>> {
    Map::new(
        |k: u64| has_offset(s, k),
        |k: u64| s[choose|i: int| 0 <= i < s.len() && #[trigger] s[i].0 == k].1,
    )
}

/// In a sorted chunk list, the map gives each chunk's bytes at its offset.
pub proof fn lemma_chunk_map_at(s: Seq<(u64, Seq<u8>)>, j: int)
    requires
        sorted_offsets(s),
        0 <= j < s.len(),
    ensures
        chunk_map(s).contains_key(s[j].0),
        chunk_map(s)[s[j].0] == s[j].1,
{
    assert(has_offset(s, s[j].0));
    let i = choose|i: int| 0 <= i < s.len() && #[trigger] s[i].0 == s[j].0;
    if i < j {
        assert(s[i].0 < s[j].0);
    } else if j < i {
        assert(s[j].0 < s[i].0);
    }
}

/// The index of the last chunk of `s` that starts at or before `x`, or -1
/// when every chunk starts after it.
pub open spec fn last_at_or_before(s: Seq<(u64, Seq<u8>)>, x: int) -> int
    decreases s.len(),
{
    if s.len() == 0 {
        -1
    } else if s.last().0 <= x {
        s.len() - 1
    } else {
        last_at_or_before(s.drop_last(), x)
    }
}

/// The bytes a read collects from offset `cur` up to `end`: at each point,
/// the chunk that overlaps it (the last one starting at or before it),
/// from that point to the chunk's end or to `end`, whichever comes first;
/// the read stops at a point that no chunk overlaps.
pub open spec fn read_from(s: Seq<(u64, Seq<u8>)>, cur: int, end: int) -> Seq<u8>
    decreases end - cur,
{
    if cur >= end {
        seq![]
    } else {
        let i = last_at_or_before(s, cur);
        if i < 0 || cur >= s[i].0 + s[i].1.len() {
            seq![]
        } else {
            let stop = vstd::math::min(s[i].0 + s[i].1.len(), end);
            s[i].1.subrange(cur - s[i].0, stop - s[i].0) + read_from(s, stop, end)
        }
    }
}

proof fn lemma_last_at_or_before_bounds(s: Seq<(u64, Seq<u8>)>, x: int)
    ensures
        -1 <= last_at_or_before(s, x) < s.len(),
        last_at_or_before(s, x) >= 0 ==> s[last_at_or_before(s, x)].0 <= x,
        forall|j: int| last_at_or_before(s, x) < j < s.len() ==> #[trigger] s[j].0 > x,
    decreases s.len(),
{
    if s.len() > 0 && s.last().0 > x {
        let t = s.drop_last();
        lemma_last_at_or_before_bounds(t, x);
        assert forall|j: int| last_at_or_before(s, x) < j < s.len() implies #[trigger] s[j].0 > x by {
            if j < t.len() {
                assert(s[j] == t[j]);
            }
        }
    }
}

/// In a sorted chunk list, the last chunk starting at or before a chunk's
/// own offset is that chunk.
proof fn lemma_last_at_or_before_at(s: Seq<(u64, Seq<u8>)>, p: int)
    requires
        sorted_offsets(s),
        0 <= p < s.len(),
    ensures
        last_at_or_before(s, s[p].0 as int) == p,
    decreases s.len(),
{
    if p < s.len() - 1 {
        assert(s.last().0 > s[p].0);
        let t = s.drop_last();
        assert(sorted_offsets(t)) by {
            assert forall|i: int, j: int| 0 <= i < j < t.len() implies #[trigger] t[i].0
                < #[trigger] t[j].0 by {
                assert(t[i] == s[i] && t[j] == s[j]);
            }
        }
        assert(t[p] == s[p]);
        lemma_last_at_or_before_at(t, p);
    }
}

/// A read of exactly the bytes just written, at the offset they were
/// written to, gives them back, whatever else the buffer holds: the chunk
/// written at the offset is the one that overlaps it.
pub proof fn lemma_read_after_write(s: Seq<(u64, Seq<u8>)>, size: u64, offset: u64, data: Seq<u8>)
    requires
        sorted_offsets(s),
        chunk_map(s).contains_key(offset),
        chunk_map(s)[offset] == data,
        offset + data.len() <= size,
    ensures
        read_from(s, offset as int, vstd::math::min(offset + data.len(), size as int)) == data,
{
    let p = choose|i: int| 0 <= i < s.len() && #[trigger] s[i].0 == offset;
    lemma_chunk_map_at(s, p);
    lemma_last_at_or_before_at(s, p);
    let end = vstd::math::min(offset + data.len(), size as int);
    assert(end == offset + data.len());
    if data.len() > 0 {
        assert(read_from(s, end, end) == Seq::<u8>::empty());
        assert(data.subrange(0, data.len() as int) =~= data);
        assert(data + Seq::<u8>::empty() =~= data);
    } else {
        assert(data =~= Seq::<u8>::empty());
    }
}

/// `r` cut or zero-padded to length `n`.
pub open spec fn resized(r: Seq<u8>, n: int) -> Seq<u8> {
    if n <= r.len() {
        r.subrange(0, n)
    } else {
        r + zeros((n - r.len()) as nat)
    }
}

/// The file the chunks make, taken in offset order: each chunk is placed at
/// its offset, over whatever came before, with zeros filling any gap.
pub open spec fn assemble(s: Seq<(u64, Seq<u8>)>) -> Seq<u8>
    decreases s.len(),
{
    if s.len() == 0 {
        seq![]
    } else {
        resized(assemble(s.drop_last()), s.last().0 as int) + s.last().1
    }
}

/// The chunk list after recording `v` at offset `k`: a chunk already at `k`
/// is replaced, otherwise the new chunk goes before the first larger offset.
pub open spec fn insert_chunk(s: Seq<(u64, Seq<u8>)>, k: u64, v: Seq<u8>) -> Seq<(u64, Seq<u8>)>
    decreases s.len(),
{
    if s.len() == 0 {
        seq![(k, v)]
    } else if s[0].0 == k {
        seq![(k, v)] + s.drop_first()
    } else if s[0].0 > k {
        seq![(k, v)] + s
    } else {
        seq![s[0]] + insert_chunk(s.drop_first(), k, v)
    }
}

/// A chunk list that starts with `e` and goes on sorted maps `e`'s offset
/// to its bytes and every later offset as the rest of the list does.
proof fn lemma_chunk_map_cons(e: (u64, Seq<u8>), t: Seq<(u64, Seq<u8>)>)
    requires
        sorted_offsets(seq![e] + t),
    ensures
        sorted_offsets(t),
        !chunk_map(t).contains_key(e.0),
        chunk_map(seq![e] + t) == chunk_map(t).insert(e.0, e.1),
{
    let u = seq![e] + t;
    assert forall|i: int, j: int| 0 <= i < j < t.len() implies #[trigger] t[i].0 < #[trigger] t[j].0 by {
        assert(u[i + 1] == t[i] && u[j + 1] == t[j]);
    }
    if has_offset(t, e.0) {
        let i = choose|i: int| 0 <= i < t.len() && #[trigger] t[i].0 == e.0;
        assert(u[0].0 < u[i + 1].0);
    }
    assert forall|k: u64| #[trigger] has_offset(u, k) == (k == e.0 || has_offset(t, k)) by {
        if has_offset(u, k) {
            let i = choose|i: int| 0 <= i < u.len() && #[trigger] u[i].0 == k;
            if i > 0 {
                assert(t[i - 1].0 == k);
            }
        }
        if has_offset(t, k) {
            let i = choose|i: int| 0 <= i < t.len() && #[trigger] t[i].0 == k;
            assert(u[i + 1].0 == k);
        }
        if k == e.0 {
            assert(u[0].0 == k);
        }
    }
    assert forall|k: u64| #[trigger] chunk_map(u).contains_key(k) implies chunk_map(u)[k]
        == chunk_map(t).insert(e.0, e.1)[k] by {
        let i = choose|i: int| 0 <= i < u.len() && #[trigger] u[i].0 == k;
        lemma_chunk_map_at(u, i);
        if i > 0 {
            assert(u[i] == t[i - 1]);
            lemma_chunk_map_at(t, i - 1);
        }
    }
    assert(chunk_map(u) =~= chunk_map(t).insert(e.0, e.1));
}

/// Two sorted chunk lists with the same map are the same list.
proof fn lemma_listing_unique(s1: Seq<(u64, Seq<u8>)>, s2: Seq<(u64, Seq<u8>)>)
    requires
        sorted_offsets(s1),
        sorted_offsets(s2),
        chunk_map(s1) == chunk_map(s2),
    ensures
        s1 == s2,
    decreases s1.len(),
{
    if s1.len() > 0 {
        lemma_chunk_map_at(s1, 0);
    }
    if s2.len() > 0 {
        lemma_chunk_map_at(s2, 0);
    }
    if s1.len() == 0 || s2.len() == 0 {
        if s1.len() > 0 {
            assert(has_offset(s2, s1[0].0));
            let j = choose|j: int| 0 <= j < s2.len() && #[trigger] s2[j].0 == s1[0].0;
        }
        if s2.len() > 0 {
            assert(has_offset(s1, s2[0].0));
            let j = choose|j: int| 0 <= j < s1.len() && #[trigger] s1[j].0 == s2[0].0;
        }
        assert(s1 =~= s2);
    } else {
        let a = s1[0];
        let b = s2[0];
        assert(has_offset(s2, a.0));
        let j = choose|j: int| 0 <= j < s2.len() && #[trigger] s2[j].0 == a.0;
        assert(b.0 <= a.0) by {
            if j > 0 {
                assert(s2[0].0 < s2[j].0);
            }
        }
        assert(has_offset(s1, b.0));
        let i = choose|i: int| 0 <= i < s1.len() && #[trigger] s1[i].0 == b.0;
        assert(a.0 <= b.0) by {
            if i > 0 {
                assert(s1[0].0 < s1[i].0);
            }
        }
        let t1 = s1.drop_first();
        let t2 = s2.drop_first();
        assert(s1 =~= seq![a] + t1);
        assert(s2 =~= seq![b] + t2);
        lemma_chunk_map_cons(a, t1);
        lemma_chunk_map_cons(b, t2);
        assert(chunk_map(t1) =~= chunk_map(s1).remove(a.0));
        assert(chunk_map(t2) =~= chunk_map(s2).remove(b.0));
        lemma_listing_unique(t1, t2);
        assert(s1 =~= s2);
    }
}

/// Recording a chunk keeps the list sorted and records its bytes in the
/// map; every offset of the new list is the new chunk's or an old one.
proof fn lemma_insert_chunk(s: Seq<(u64, Seq<u8>)>, k: u64, v: Seq<u8>)
    requires
        sorted_offsets(s),
    ensures
        sorted_offsets(insert_chunk(s, k, v)),
        chunk_map(insert_chunk(s, k, v)) == chunk_map(s).insert(k, v),
        forall|j: int|
            0 <= j < insert_chunk(s, k, v).len() ==> #[trigger] insert_chunk(s, k, v)[j].0 == k
                || has_offset(s, insert_chunk(s, k, v)[j].0),
    decreases s.len(),
{
    let r = insert_chunk(s, k, v);
    let e = (k, v);
    if s.len() == 0 {
        assert(r =~= seq![e] + s);
        lemma_chunk_map_cons(e, s);
        assert(chunk_map(s) =~= Map::<u64, Seq<u8>>::empty());
    } else {
        let t = s.drop_first();
        assert(s =~= seq![s[0]] + t);
        lemma_chunk_map_cons(s[0], t);
        if s[0].0 == k {
            assert(r == seq![e] + t);
            assert forall|i: int, j: int| 0 <= i < j < r.len() implies #[trigger] r[i].0
                < #[trigger] r[j].0 by {
                assert(r[j].0 == s[j].0);
                if i > 0 {
                    assert(r[i].0 == s[i].0);
                }
            }
            lemma_chunk_map_cons(e, t);
            assert(chunk_map(r) =~= chunk_map(s).insert(k, v));
            assert forall|j: int| 0 <= j < r.len() implies #[trigger] r[j].0 == k || has_offset(
                s,
                r[j].0,
            ) by {
                if j > 0 {
                    assert(r[j] == s[j]);
                }
            }
        } else if s[0].0 > k {
            assert(r == seq![e] + s);
            assert forall|i: int, j: int| 0 <= i < j < r.len() implies #[trigger] r[i].0
                < #[trigger] r[j].0 by {
                assert(r[j] == s[j - 1]);
                if i > 0 {
                    assert(r[i] == s[i - 1]);
                } else if j > 1 {
                    assert(s[0].0 < s[j - 1].0);
                }
            }
            lemma_chunk_map_cons(e, s);
            assert forall|j: int| 0 <= j < r.len() implies #[trigger] r[j].0 == k || has_offset(
                s,
                r[j].0,
            ) by {
                if j > 0 {
                    assert(r[j] == s[j - 1]);
                }
            }
        } else {
            let u = insert_chunk(t, k, v);
            lemma_insert_chunk(t, k, v);
            assert(r == seq![s[0]] + u);
            assert forall|i: int, j: int| 0 <= i < j < r.len() implies #[trigger] r[i].0
                < #[trigger] r[j].0 by {
                assert(r[j] == u[j - 1]);
                if i > 0 {
                    assert(r[i] == u[i - 1]);
                } else {
                    if u[j - 1].0 != k {
                        let q = choose|q: int| 0 <= q < t.len() && #[trigger] t[q].0 == u[j - 1].0;
                        assert(s[q + 1] == t[q]);
                    }
                }
            }
            lemma_chunk_map_cons(s[0], u);
            assert(chunk_map(r) =~= chunk_map(s).insert(k, v));
            assert forall|j: int| 0 <= j < r.len() implies #[trigger] r[j].0 == k || has_offset(
                s,
                r[j].0,
            ) by {
                if j > 0 {
                    assert(r[j] == u[j - 1]);
                    if u[j - 1].0 != k {
                        let q = choose|q: int| 0 <= q < t.len() && #[trigger] t[q].0 == u[j - 1].0;
                        assert(s[q + 1] == t[q]);
                    }
                } else {
                    assert(s[0].0 == r[0].0);
                }
            }
        }
    }
}

/// The keys of a map listed in increasing order strictly increase.
proof fn lemma_increasing_keys(keys: Seq<u64>)
    requires
        increasing_seq(keys),
    ensures
        forall|i: int, j: int| 0 <= i < j < keys.len() ==> keys[i] < keys[j],
{
    assert(vstd::laws_cmp::obeys_cmp::<u64>());
    vstd::std_specs::btree::axiom_increasing_seq_meaning(keys);
    assert forall|i: int, j: int| 0 <= i < j < keys.len() implies keys[i] < keys[j] by {
        assert(vstd::std_specs::cmp::OrdSpec::cmp_spec(&keys[i], &keys[j]) is Less);
    }
}

/// Cuts `buf` to `n` bytes or pads it with zeros to `n` bytes.
fn resize_with_zeros(buf: &mut Vec<u8>, n: usize)
    ensures
        final(buf)@ == resized(old(buf)@, n as int),
{
    if n <= buf.len() {
        buf.truncate(n);
    } else {
        let extra = n - buf.len();
        push_zeros(buf, extra);
    }
}

/// The offsets and bytes of a list of chunk references.
pub open spec fn listed(l: Seq<(u64, &Vec<u8>)>) -> Seq<(u64, Seq<u8>)> {
    l.map_values(|e: (u64, &Vec<u8>)| (e.0, e.1@))
}

/// The index in `list` of the last chunk starting at or before `cur`, if
/// any.
fn covering(list: &Vec<(u64, &Vec<u8>)>, cur: u64) -> (r: Option<usize>)
    ensures
        r matches Some(i) ==> i == last_at_or_before(listed(list@), cur as int),
        r is None ==> last_at_or_before(listed(list@), cur as int) == -1,
{
    let ghost s = listed(list@);
    let mut i = list.len();
    assert(s.take(i as int) =~= s);
    while i > 0 && list[i - 1].0 > cur
        invariant
            i <= list.len(),
            s == listed(list@),
            s.len() == list.len(),
            last_at_or_before(s, cur as int) == last_at_or_before(s.take(i as int), cur as int),
        decreases i,
    {
        assert(s[i - 1].0 == list@[i - 1].0);
        assert(s.take(i as int).drop_last() =~= s.take(i - 1));
        i -= 1;
    }
    if i == 0 {
        None
    } else {
        assert(s[i - 1].0 == list@[i - 1].0);
        assert(s.take(i as int).last() == s[i - 1]);
        Some(i - 1)
    }
}

/// The buffered writes of one file.
pub struct ChannelBuffer {
    chunks: BTreeMap<u64, Vec<u8>>,
    total_size: u64,
    complete: bool,
}

impl ChannelBuffer {
    /// The bytes stored at each offset.
    pub closed spec fn stored(&self) -> Map<u64, Seq<u8>> {
        self.chunks@.map_values(|v: Vec<u8>| v@)
    }

    /// The chunks, in increasing offset order.
    pub closed spec fn entries(&self) -> Seq<(u64, Seq<u8>)> {
        choose|s: Seq<(u64, Seq<u8>)>| sorted_offsets(s) && chunk_map(s) == self.stored()
    }

    /// The chunks as a map from offset to bytes.
    pub open spec fn chunks_view(&self) -> Map<u64, Seq<u8>> {
        chunk_map(self.entries())
    }

    /// The end of the furthest write so far.
    pub closed spec fn size_view(&self) -> u64 {
        self.total_size
    }

    /// Whether the file has been marked complete.
    pub closed spec fn complete_view(&self) -> bool {
        self.complete
    }

    /// The buffer's invariant: the chunks, in strictly increasing offset
    /// order, are the stored ones.
    pub open spec fn wf(&self) -> bool {
        &&& sorted_offsets(self.entries())
        &&& chunk_map(self.entries()) == self.stored()
    }

    /// A sorted list with the stored chunks is the buffer's list.
    proof fn lemma_entries(&self, s: Seq<(u64, Seq<u8>)>)
        requires
            sorted_offsets(s),
            chunk_map(s) == self.stored(),
        ensures
            self.wf(),
            self.entries() == s,
    {
        lemma_listing_unique(self.entries(), s);
    }

    /// An empty buffer.
    pub fn new() -> (b: ChannelBuffer)
        ensures
            b.wf(),
            b.entries() == Seq::<(u64, Seq<u8>)>::empty(),
            b.size_view() == 0,
            !b.complete_view(),
    {
        let b = ChannelBuffer { chunks: BTreeMap::new(), total_size: 0, complete: false };
        proof {
            let e = Seq::<(u64, Seq<u8>)>::empty();
            assert(chunk_map(e) =~= b.stored());
            b.lemma_entries(e);
        }
        b
    }

    /// The chunks in increasing offset order, each with its bytes.
    fn listing(&self) -> (r: Vec<(u64, &Vec<u8>)>)
        ensures
            self.wf(),
            listed(r@) == self.entries(),
    {
        let mut r: Vec<(u64, &Vec<u8>)> = Vec::new();
        let ghost all = spec_btree_map_iter(&self.chunks).remaining();
        for kv in it: self.chunks.iter()
            invariant
                it.seq() == all,
                r@.len() == it.index(),
                forall|j: int| 0 <= j < it.index() ==> r@[j].0 == *all[j].0 && r@[j].1 == all[j].1,
        {
            let (k, v) = kv;
            r.push((*k, v));
        }
        proof {
            let m = self.chunks@;
            let s = listed(r@);
            let keys = all.map_values(|kv: (&u64, &Vec<u8>)| *kv.0);
            lemma_increasing_keys(keys);
            assert forall|i: int, j: int| 0 <= i < j < s.len() implies #[trigger] s[i].0
                < #[trigger] s[j].0 by {
                assert(keys[i] == s[i].0 && keys[j] == s[j].0);
            }
            assert forall|i: int| 0 <= i < s.len() implies m.contains_key(s[i].0) && m[s[i].0]@
                == s[i].1 by {
                assert(m.contains_key(*all[i].0));
            }
            assert forall|k: u64| #[trigger] has_offset(s, k) == m.contains_key(k) by {
                if m.contains_key(k) {
                    assert(all.contains((&k, &m[k])));
                    let i = choose|i: int| 0 <= i < all.len() && all[i] == (&k, &m[k]);
                    assert(s[i].0 == k);
                }
            }
            assert forall|k: u64| #[trigger] chunk_map(s).contains_key(k) implies chunk_map(s)[k]
                == self.stored()[k] by {
                let i = choose|i: int| 0 <= i < s.len() && #[trigger] s[i].0 == k;
                lemma_chunk_map_at(s, i);
            }
            assert(chunk_map(s) =~= self.stored());
            self.lemma_entries(s);
        }
        r
    }

    /// The bytes from `offset` up to `offset + count`, or up to the end of
    /// the furthest write if that comes first: at each point the bytes of
    /// the chunk that overlaps it, stopping early at a point no chunk
    /// overlaps.
    pub fn read_range(&self, offset: u64, count: u32) -> (r: Vec<u8>)
        requires
            offset + count <= u64::MAX,
        ensures
            r@ == read_from(
                self.entries(),
                offset as int,
                vstd::math::min(offset + count, self.size_view() as int),
            ),
    {
        let list = self.listing();
        let ghost s = self.entries();
        let requested = offset + count as u64;
        let end = if requested < self.total_size {
            requested
        } else {
            self.total_size
        };
        let mut result: Vec<u8> = Vec::new();
        let mut cur = offset;
        let mut stop = false;
        while cur < end && !stop
            invariant
                s == listed(list@),
                s.len() == list.len(),
                end == vstd::math::min(offset + count, self.size_view() as int),
                result@ + read_from(s, cur as int, end as int) == read_from(
                    s,
                    offset as int,
                    end as int,
                ),
                stop ==> read_from(s, cur as int, end as int) == Seq::<u8>::empty(),
            decreases end - cur, if stop { 0int } else { 1int },
        {
            match covering(&list, cur) {
                Some(i) => {
                    proof {
                        lemma_last_at_or_before_bounds(s, cur as int);
                    }
                    let start = list[i].0;
                    let chunk = list[i].1;
                    assert(s[i as int].0 == start && s[i as int].1 == chunk@);
                    let into = cur - start;
                    if into < chunk.len() as u64 {
                        let avail = chunk.len() as u64 - into;
                        let k: u64 = if avail < end - cur {
                            avail
                        } else {
                            end - cur
                        };
                        let ghost before = result@;
                        push_range(&mut result, chunk.as_slice(), into as usize, (into + k) as usize);
                        proof {
                            let stop_at = vstd::math::min(start + chunk@.len(), end as int);
                            assert(stop_at == cur + k);
                            assert(read_from(s, cur as int, end as int) == chunk@.subrange(
                                into as int,
                                (into + k) as int,
                            ) + read_from(s, cur + k, end as int));
                            assert(before + chunk@.subrange(into as int, (into + k) as int)
                                + read_from(s, cur + k, end as int) =~= before + (
                            chunk@.subrange(into as int, (into + k) as int) + read_from(
                                s,
                                cur + k,
                                end as int,
                            )));
                        }
                        cur = cur + k;
                    } else {
                        stop = true;
                    }
                },
                None => {
                    stop = true;
                },
            }
        }
        proof {
            assert(result@ + Seq::<u8>::empty() =~= result@);
        }
        result
    }

    /// Records `data` as the chunk at `offset`, replacing any chunk there,
    /// and moves the end of the furthest write past it.
    pub fn write(&mut self, offset: u64, data: &[u8])
        requires
            old(self).wf(),
            offset + data@.len() <= u64::MAX,
        ensures
            final(self).wf(),
            final(self).entries() == insert_chunk(old(self).entries(), offset, data@),
            final(self).chunks_view() == old(self).chunks_view().insert(offset, data@),
            final(self).size_view() == vstd::math::max(
                old(self).size_view() as int,
                offset + data@.len(),
            ),
            final(self).complete_view() == old(self).complete_view(),
    {
        let ghost s = self.entries();
        let mut bytes: Vec<u8> = Vec::new();
        push_bytes(&mut bytes, data);
        let ghost stored = self.stored();
        self.chunks.insert(offset, bytes);
        proof {
            lemma_insert_chunk(s, offset, data@);
            assert(self.stored() =~= stored.insert(offset, data@));
            self.lemma_entries(insert_chunk(s, offset, data@));
        }
        let end_offset = offset + data.len() as u64;
        if end_offset > self.total_size {
            self.total_size = end_offset;
        }
    }

    /// Records the write, and marks the file complete when the write is
    /// synchronous.
    pub fn write_with_mode(&mut self, offset: u64, data: &[u8], mode: WriteMode) -> (r: Result<
        (),
        crate::kernel::nfs::nfsstat3,
    >)
        requires
            old(self).wf(),
            offset + data@.len() <= u64::MAX,
        ensures
            r is Ok,
            final(self).wf(),
            final(self).entries() == insert_chunk(old(self).entries(), offset, data@),
            final(self).chunks_view() == old(self).chunks_view().insert(offset, data@),
            final(self).size_view() == vstd::math::max(
                old(self).size_view() as int,
                offset + data@.len(),
            ),
            final(self).complete_view() == (old(self).complete_view() || mode
                == WriteMode::Synchronous),
    {
        self.write(offset, data);
        if mode == WriteMode::Synchronous {
            self.set_complete();
        }
        Ok(())
    }

    /// The whole file: every chunk placed at its offset in offset order,
    /// over what came before it, with zeros filling the gaps.
    pub fn read_all(&self) -> (r: Vec<u8>)
        requires
            forall|i: int|
                0 <= i < self.entries().len() ==> #[trigger] self.entries()[i].0
                    + self.entries()[i].1.len() <= usize::MAX,
        ensures
            r@ == assemble(self.entries()),
    {
        let list = self.listing();
        let ghost s = self.entries();
        let mut result: Vec<u8> = Vec::new();
        let mut i: usize = 0;
        while i < list.len()
            invariant
                i <= list.len(),
                s == listed(list@),
                s.len() == list.len(),
                forall|j: int| 0 <= j < s.len() ==> #[trigger] s[j].0 + s[j].1.len() <= usize::MAX,
                result@ == assemble(s.subrange(0, i as int)),
            decreases list.len() - i,
        {
            let off = list[i].0;
            let chunk = list[i].1;
            proof {
                assert(s[i as int] == (off, chunk@));
                assert(s.subrange(0, i + 1).drop_last() =~= s.subrange(0, i as int));
                assert(s.subrange(0, i + 1).last() == s[i as int]);
            }
            resize_with_zeros(&mut result, off as usize);
            push_bytes(&mut result, chunk.as_slice());
            i += 1;
        }
        assert(s.subrange(0, s.len() as int) =~= s);
        result
    }

    /// The end of the furthest write so far.
    pub fn total_size(&self) -> (n: u64)
        ensures
            n == self.size_view(),
    {
        self.total_size
    }

    /// Whether the file has been marked complete.
    pub fn is_write_complete(&self) -> (b: bool)
        ensures
            b == self.complete_view(),
    {
        self.complete
    }

    /// Marks the file complete.
    pub fn set_complete(&mut self)
        ensures
            final(self).complete_view(),
            old(self).wf() ==> final(self).wf(),
            final(self).entries() == old(self).entries(),
            final(self).size_view() == old(self).size_view(),
    {
        self.complete = true;
    }

    /// Drops every chunk; the furthest write and the completion mark stay.
    pub fn clear(&mut self)
        ensures
            final(self).wf(),
            final(self).entries() == Seq::<(u64, Seq<u8>)>::empty(),
            final(self).size_view() == old(self).size_view(),
            final(self).complete_view() == old(self).complete_view(),
    {
        self.chunks.clear();
        proof {
            let e = Seq::<(u64, Seq<u8>)>::empty();
            assert(chunk_map(e) =~= self.stored());
            self.lemma_entries(e);
        }
    }

    /// Whether no chunk is buffered.
    pub fn is_empty(&self) -> (b: bool)
        requires
            self.wf(),
        ensures
            b == (self.entries().len() == 0),
    {
        let b = self.chunks.is_empty();
        proof {
            let s = self.entries();
            if s.len() > 0 {
                lemma_chunk_map_at(s, 0);
                assert(self.chunks@.contains_key(s[0].0));
            }
            if !b {
                let k = self.chunks@.dom().choose();
                assert(self.stored().contains_key(k));
                assert(has_offset(s, k));
            }
        }
        b
    }
}

} // verus!
