//! The key-value store behind the file system: its errors, and how the
//! ordered store lays hashes and sorted sets out as plain keys, matches
//! key patterns, and cuts ranges of sorted sets.

use vstd::prelude::*;
use vstd::string::StrSliceExecFns;
use crate::text::{chars_of, concat_str, seq_starts_with, str_eq};

verus! {

/// What can go wrong with a store operation.
#[derive(Debug, Clone, Copy, PartialEq, Eq, Structural)]
pub enum DataStoreError {
    ConnectionError,
    KeyNotFound,
    OperationFailed,
}

/// The key under which the ordered store keeps field `field` of hash `key`
/// (and member `field` of sorted set `key`): `key:field`.
pub fn field_key(key: &str, field: &str) -> (k: String)
    ensures
        k@ == key@ + seq![':'] + field@,
{
    proof {
        reveal_strlit(":");
    }
    let a = concat_str(key, ":");
    let k = a.concat(field);
    assert(k@ =~= key@ + seq![':'] + field@);
    k
}

/// `s` without the copies of `c` at its end.
pub open spec fn trim_end(s: Seq<char>, c: char) -> Seq<char>
    decreases s.len(),
{
    if s.len() > 0 && s.last() == c {
        trim_end(s.drop_last(), c)
    } else {
        s
    }
}

/// Whether `key` matches `pattern` in the ordered store: a pattern ending
/// in `*` matches the keys that start with what comes before its trailing
/// stars and slashes, where that prefix is the whole key or is followed by
/// `/` or `:`; any other pattern matches only itself.
pub open spec fn keys_match_spec(pattern: Seq<char>, key: Seq<char>) -> bool {
    if pattern.len() > 0 && pattern.last() == '*' {
        let base = trim_end(trim_end(pattern, '*'), '/');
        &&& base.is_prefix_of(key)
        &&& (key.len() == base.len() || key[base.len() as int] == '/' || key[base.len() as int]
            == ':')
    } else {
        key == pattern
    }
}

fn trim_end_len(v: &Vec<char>, len: usize, c: char) -> (n: usize)
    requires
        len <= v.len(),
    ensures
        n <= len,
        v@.subrange(0, n as int) == trim_end(v@.subrange(0, len as int), c),
{
    let mut n = len;
    while n > 0 && v[n - 1] == c
        invariant
            n <= len <= v.len(),
            trim_end(v@.subrange(0, n as int), c) == trim_end(v@.subrange(0, len as int), c),
        decreases n,
    {
        assert(v@.subrange(0, n as int).drop_last() =~= v@.subrange(0, n - 1));
        n -= 1;
    }
    n
}

/// Whether `key` matches `pattern` in the ordered store.
pub fn keys_match(pattern: &str, key: &str) -> (b: bool)
    ensures
        b == keys_match_spec(pattern@, key@),
{
    let p = chars_of(pattern);
    if p.len() > 0 && p[p.len() - 1] == '*' {
        let n1 = trim_end_len(&p, p.len(), '*');
        let n2 = trim_end_len(&p, n1, '/');
        assert(p@.subrange(0, p.len() as int) =~= p@);
        assert(p@.subrange(0, n1 as int).subrange(0, n2 as int) =~= p@.subrange(0, n2 as int));
        let mut base: Vec<char> = Vec::new();
        let mut i: usize = 0;
        while i < n2
            invariant
                i <= n2 <= p.len(),
                base@ == p@.subrange(0, i as int),
            decreases n2 - i,
        {
            base.push(p[i]);
            assert(p@.subrange(0, i + 1) =~= p@.subrange(0, i as int).push(p@[i as int]));
            i += 1;
        }
        let k = chars_of(key);
        if !seq_starts_with(&k, &base) {
            return false;
        }
        if k.len() == base.len() {
            return true;
        }
        let next = k[base.len()];
        next == '/' || next == ':'
    } else {
        str_eq(key, pattern)
    }
}

/// Where a range of a sorted set of `len` members starts: a negative index
/// counts from the end, and the start is kept within the set.
pub open spec fn range_start_spec(len: int, start: int) -> int {
    if start < 0 {
        vstd::math::max(len + start, 0)
    } else {
        vstd::math::min(start, len)
    }
}

/// Where a range of a sorted set of `len` members ends (exclusive): the
/// inclusive `stop`, negative counting from the end, kept within the set.
pub open spec fn range_stop_spec(len: int, stop: int) -> int {
    if stop < 0 {
        vstd::math::max(len + stop + 1, 0)
    } else {
        vstd::math::min(stop + 1, len)
    }
}

/// The members `start` to `stop` (inclusive, negative counting from the
/// end) of a sorted set of `len` members, as a start and an exclusive end.
pub fn range_bounds(len: usize, start: isize, stop: isize) -> (r: (usize, usize))
    requires
        len <= isize::MAX,
        stop < isize::MAX,
        range_start_spec(len as int, start as int) <= range_stop_spec(len as int, stop as int),
    ensures
        r.0 == range_start_spec(len as int, start as int),
        r.1 == range_stop_spec(len as int, stop as int),
        r.0 <= r.1 <= len,
{
    let l = len as isize;
    let s = if start < 0 {
        let t = l + start;
        if t > 0 {
            t
        } else {
            0
        }
    } else if start < l {
        start
    } else {
        l
    };
    let e = if stop < 0 {
        let t = l + stop + 1;
        if t > 0 {
            t
        } else {
            0
        }
    } else if stop + 1 < l {
        stop + 1
    } else {
        l
    };
    (s as usize, e as usize)
}

/// The member named by `full_key` in the sorted set or hash at `key`: what
/// follows `key:`, when it starts so.
pub open spec fn member_of_spec(full_key: Seq<char>, key: Seq<char>) -> Option<Seq<char>> {
    let prefix = key + seq![':'];
    if prefix.is_prefix_of(full_key) {
        Some(full_key.subrange(prefix.len() as int, full_key.len() as int))
    } else {
        None
    }
}

/// The member named by `full_key` in the sorted set or hash at `key`.
pub fn member_of(full_key: &str, key: &str) -> (r: Option<String>)
    ensures
        r matches Some(m) ==> member_of_spec(full_key@, key@) == Some(m@),
        r is None ==> member_of_spec(full_key@, key@) is None,
{
    let prefix = field_key(key, "");
    proof {
        reveal_strlit("");
        assert(prefix@ =~= key@ + seq![':']);
    }
    let fv = chars_of(full_key);
    let pv = chars_of(prefix.as_str());
    if seq_starts_with(&fv, &pv) {
        Some(full_key.substring_char(pv.len(), fv.len()).to_owned())
    } else {
        None
    }
}

/// The value of the first field named `name` among `fields`.
pub open spec fn first_field_spec(fields: Seq<(Seq<char>, Seq<char>)>, name: Seq<char>) -> Option<
    Seq<char>,
>
    decreases fields.len(),
{
    if fields.len() == 0 {
        None
    } else if fields[0].0 == name {
        Some(fields[0].1)
    } else {
        first_field_spec(fields.drop_first(), name)
    }
}

/// A hash field read from all of the hash's fields: the first with that
/// name, or `KeyNotFound`.
pub fn first_field(fields: &Vec<(String, String)>, name: &str) -> (r: Result<String, DataStoreError>)
    ensures
        r matches Ok(v) ==> first_field_spec(
            fields@.map_values(|e: (String, String)| (e.0@, e.1@)),
            name@,
        ) == Some(v@),
        r is Err ==> r == Err::<String, DataStoreError>(DataStoreError::KeyNotFound)
            && first_field_spec(fields@.map_values(|e: (String, String)| (e.0@, e.1@)), name@)
            is None,
{
    let ghost all = fields@.map_values(|e: (String, String)| (e.0@, e.1@));
    let mut i: usize = 0;
    assert(all.skip(0) =~= all);
    while i < fields.len()
        invariant
            i <= fields.len(),
            all == fields@.map_values(|e: (String, String)| (e.0@, e.1@)),
            first_field_spec(all, name@) == first_field_spec(all.skip(i as int), name@),
        decreases fields.len() - i,
    {
        assert(all.skip(i as int)[0] == (fields@[i as int].0@, fields@[i as int].1@));
        if str_eq(fields[i].0.as_str(), name) {
            return Ok(fields[i].1.clone());
        }
        assert(all.skip(i as int).drop_first() =~= all.skip(i + 1));
        i += 1;
    }
    Err(DataStoreError::KeyNotFound)
}

} // verus!
