//! Turning received bytes into text, and the character-level string
//! operations that the path and key logic is built from.

use vstd::prelude::*;
use vstd::string::StrSliceExecFns;
use vstd::utf8::{decode_utf8, valid_utf8};

verus! {

/// std's error for bytes that are not UTF-8.
#[verifier::external_type_specification]
#[verifier::external_body]
pub struct ExFromUtf8Error(std::string::FromUtf8Error);

/// Calls std's `String::from_utf8`. Trusted: std documents that it fails
/// exactly when the bytes are not valid UTF-8, and otherwise yields the
/// string those bytes encode.
#[verifier::external_body]
pub(crate) fn string_from_utf8(bytes: Vec<u8>) -> (r: Result<String, std::string::FromUtf8Error>)
    ensures
        r is Ok <==> valid_utf8(bytes@),
        r matches Ok(s) ==> s@ == decode_utf8(bytes@),
{
    String::from_utf8(bytes)
}

/// Calls the `Display` of std's `FromUtf8Error`. Trusted for nothing: the
/// text names where the bad sequence starts, which the error holds and no
/// contract here speaks of.
#[verifier::external_body]
pub(crate) fn utf8_error_text(e: &std::string::FromUtf8Error) -> String {
    format!("{}", e)
}

/// How many times `c` occurs in `s`.
pub open spec fn count_char(s: Seq<char>, c: char) -> nat
    decreases s.len(),
{
    if s.len() == 0 {
        0
    } else {
        count_char(s.drop_last(), c) + (if s.last() == c { 1nat } else { 0nat })
    }
}

/// Whether `needle` occurs in `hay` starting at position `i`.
pub open spec fn occurs_at(hay: Seq<char>, needle: Seq<char>, i: int) -> bool {
    0 <= i && i + needle.len() <= hay.len() && hay.subrange(i, i + needle.len()) == needle
}

/// The first position at or after `from` where `needle` occurs in `hay`,
/// or -1 when there is none.
pub open spec fn find_from(hay: Seq<char>, needle: Seq<char>, from: int) -> int
    decreases hay.len() - from,
{
    if from < 0 || from + needle.len() > hay.len() {
        -1
    } else if occurs_at(hay, needle, from) {
        from
    } else if from >= hay.len() {
        -1
    } else {
        find_from(hay, needle, from + 1)
    }
}

/// `hay` with its first occurrence of `pat` replaced by `rep`; `hay`
/// itself when `pat` does not occur.
pub open spec fn replace_first(hay: Seq<char>, pat: Seq<char>, rep: Seq<char>) -> Seq<char> {
    let i = find_from(hay, pat, 0);
    if i < 0 {
        hay
    } else {
        hay.subrange(0, i) + rep + hay.subrange(i + pat.len(), hay.len() as int)
    }
}

/// A pattern occurring at the very start is the first occurrence.
pub proof fn lemma_find_prefix(hay: Seq<char>, pat: Seq<char>)
    requires
        pat.is_prefix_of(hay),
    ensures
        find_from(hay, pat, 0) == 0,
{
    assert(hay.subrange(0, pat.len() as int) =~= pat);
}

/// Replacing the first occurrence of a prefix swaps that prefix.
pub proof fn lemma_replace_prefix(hay: Seq<char>, pat: Seq<char>, rep: Seq<char>)
    requires
        pat.is_prefix_of(hay),
    ensures
        replace_first(hay, pat, rep) == rep + hay.subrange(pat.len() as int, hay.len() as int),
{
    lemma_find_prefix(hay, pat);
    assert(hay.subrange(0, 0) =~= Seq::<char>::empty());
    assert(Seq::<char>::empty() + rep =~= rep);
}

/// Counting a character over two joined sequences adds the counts.
pub proof fn lemma_count_char_concat(a: Seq<char>, b: Seq<char>, c: char)
    ensures
        count_char(a + b, c) == count_char(a, c) + count_char(b, c),
    decreases b.len(),
{
    if b.len() == 0 {
        assert(a + b =~= a);
    } else {
        lemma_count_char_concat(a, b.drop_last(), c);
        assert((a + b).drop_last() =~= a + b.drop_last());
    }
}

/// The characters of `s`, one by one.
pub fn chars_of(s: &str) -> (v: Vec<char>)
    ensures
        v@ == s@,
{
    let n = s.unicode_len();
    let mut v: Vec<char> = Vec::new();
    let mut i: usize = 0;
    while i < n
        invariant
            i <= n,
            n == s@.len(),
            v@ == s@.subrange(0, i as int),
        decreases n - i,
    {
        v.push(s.get_char(i));
        i += 1;
    }
    assert(v@ =~= s@);
    v
}

/// Whether `p` is a prefix of `s`.
pub fn seq_starts_with(s: &Vec<char>, p: &Vec<char>) -> (b: bool)
    ensures
        b == p@.is_prefix_of(s@),
{
    if p.len() > s.len() {
        return false;
    }
    let mut i: usize = 0;
    while i < p.len()
        invariant
            i <= p.len() <= s.len(),
            forall|j: int| 0 <= j < i ==> s@[j] == p@[j],
        decreases p.len() - i,
    {
        if s[i] != p[i] {
            return false;
        }
        i += 1;
    }
    assert(p@ =~= s@.subrange(0, p@.len() as int));
    true
}

/// Whether `p` is a prefix of `s`.
pub fn str_starts_with(s: &str, p: &str) -> (b: bool)
    ensures
        b == p@.is_prefix_of(s@),
{
    let sv = chars_of(s);
    let pv = chars_of(p);
    seq_starts_with(&sv, &pv)
}

/// Whether `a` and `b` hold the same characters.
pub fn str_eq(a: &str, b: &str) -> (r: bool)
    ensures
        r == (a@ == b@),
{
    let av = chars_of(a);
    let bv = chars_of(b);
    if av.len() != bv.len() {
        return false;
    }
    let r = seq_starts_with(&av, &bv);
    if r {
        assert(a@ =~= b@);
    }
    r
}

/// How many times `c` occurs in `s`.
pub fn count_char_in(s: &Vec<char>, c: char) -> (n: usize)
    ensures
        n == count_char(s@, c),
{
    let mut n: usize = 0;
    let mut i: usize = 0;
    while i < s.len()
        invariant
            i <= s.len(),
            n == count_char(s@.subrange(0, i as int), c),
            n <= i,
        decreases s.len() - i,
    {
        assert(s@.subrange(0, i + 1).drop_last() =~= s@.subrange(0, i as int));
        if s[i] == c {
            n += 1;
        }
        i += 1;
    }
    assert(s@.subrange(0, s.len() as int) =~= s@);
    n
}

/// Whether `c` occurs in `s` at or after position `from`.
pub fn contains_char_from(s: &Vec<char>, c: char, from: usize) -> (b: bool)
    requires
        from <= s.len(),
    ensures
        b == (exists|j: int| from <= j < s.len() && s@[j] == c),
{
    let mut i = from;
    while i < s.len()
        invariant
            from <= i <= s.len(),
            forall|j: int| from <= j < i ==> s@[j] != c,
        decreases s.len() - i,
    {
        if s[i] == c {
            return true;
        }
        i += 1;
    }
    false
}

/// The string holding the characters `a` then `b`.
pub fn concat_str(a: &str, b: &str) -> (r: String)
    ensures
        r@ == a@ + b@,
{
    let s = String::from_str(a);
    s.concat(b)
}

fn occurs_at_exec(h: &Vec<char>, n: &Vec<char>, i: usize) -> (b: bool)
    requires
        i + n.len() <= h.len(),
    ensures
        b == occurs_at(h@, n@, i as int),
{
    let mut j: usize = 0;
    while j < n.len()
        invariant
            j <= n.len(),
            i + n.len() <= h.len(),
            forall|k: int| 0 <= k < j ==> h@[i + k] == n@[k],
        decreases n.len() - j,
    {
        if h[i + j] != n[j] {
            assert(h@.subrange(i as int, i + n.len())[j as int] != n@[j as int]);
            return false;
        }
        j += 1;
    }
    assert(h@.subrange(i as int, i + n.len()) =~= n@);
    true
}

/// Whether `needle` occurs anywhere in `hay`.
pub fn contains_str(hay: &str, needle: &str) -> (b: bool)
    ensures
        b == (find_from(hay@, needle@, 0) >= 0),
{
    let h = chars_of(hay);
    let n = chars_of(needle);
    if n.len() > h.len() {
        return false;
    }
    let limit = h.len() - n.len();
    let mut i: usize = 0;
    loop
        invariant
            n.len() <= h.len(),
            limit == h.len() - n.len(),
            i <= limit,
            h@ == hay@,
            n@ == needle@,
            find_from(h@, n@, 0) == find_from(h@, n@, i as int),
        decreases limit - i,
    {
        if occurs_at_exec(&h, &n, i) {
            return true;
        }
        if i == limit {
            proof {
                if n@.len() == 0 {
                    assert(h@.subrange(i as int, i as int) =~= n@);
                }
                assert(find_from(h@, n@, i + 1) == -1);
            }
            return false;
        }
        proof {
            if n@.len() == 0 {
                assert(h@.subrange(i as int, i as int) =~= n@);
            }
        }
        i += 1;
    }
}

} // verus!
