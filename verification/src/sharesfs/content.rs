//! A file's contents: the base64 text it is stored as, reads of a range,
//! writes spliced into it, and when buffered writes are committed.

use vstd::prelude::*;
use base64::Engine;
use vstd::string::StrSliceExecFns;
use crate::decimal::{parse_u64, parse_unsigned_spec};
use crate::kernel::nfs::nfsstat3;
use crate::text::{chars_of, count_char, count_char_in};
use crate::xdr::{push_bytes, push_range, zeros};

verus! {

/// The character of the base64 digit `v` in the standard alphabet.
pub open spec fn b64_char(v: int) -> char {
    if v < 26 {
        (65 + v) as char
    } else if v < 52 {
        (97 + v - 26) as char
    } else if v < 62 {
        (48 + v - 52) as char
    } else if v == 62 {
        '+'
    } else {
        '/'
    }
}

/// The standard base64 text of `d`, padded with `=` to a multiple of four
/// characters.
pub open spec fn b64_encode(d: Seq<u8>) -> Seq<char>
    decreases d.len(),
{
    if d.len() == 0 {
        seq![]
    } else if d.len() == 1 {
        seq![b64_char(d[0] as int / 4), b64_char((d[0] as int % 4) * 16), '=', '=']
    } else if d.len() == 2 {
        seq![
            b64_char(d[0] as int / 4),
            b64_char((d[0] as int % 4) * 16 + d[1] as int / 16),
            b64_char((d[1] as int % 16) * 4),
            '=',
        ]
    } else {
        seq![
            b64_char(d[0] as int / 4),
            b64_char((d[0] as int % 4) * 16 + d[1] as int / 16),
            b64_char((d[1] as int % 16) * 4 + d[2] as int / 64),
            b64_char(d[2] as int % 64),
        ] + b64_encode(d.skip(3))
    }
}

/// base64's error for text that is not a canonical encoding.
#[verifier::external_type_specification]
#[verifier::external_body]
pub struct ExDecodeError(base64::DecodeError);

/// Calls `Engine::encode` of base64's `STANDARD` engine. Trusted: it writes
/// each group of three bytes as four characters of the standard alphabet
/// and pads the last group with `=`. It panics only when the encoded length
/// overflows `usize`, which the bound on the input rules out.
#[verifier::external_body]
pub(crate) fn base64_encode(data: &[u8]) -> (s: String)
    requires
        data@.len() < usize::MAX / 2,
    ensures
        s@ == b64_encode(data@),
{
    base64::engine::general_purpose::STANDARD.encode(data)
}

/// Calls `Engine::decode` of base64's `STANDARD` engine. Trusted: that
/// engine requires canonical padding and zero trailing bits, so it accepts
/// exactly the texts that `encode` produces, and gives back the bytes they
/// encode.
#[verifier::external_body]
pub(crate) fn base64_decode(text: &str) -> (r: Result<Vec<u8>, base64::DecodeError>)
    ensures
        r matches Ok(v) ==> b64_encode(v@) == text@,
        (exists|d: Seq<u8>| #[trigger] b64_encode(d) == text@) ==> r is Ok,
{
    base64::engine::general_purpose::STANDARD.decode(text)
}

/// The text that a file's bytes are stored as before they are split into
/// shares.
pub fn encode_content(data: &[u8]) -> (s: String)
    requires
        data@.len() < usize::MAX / 2,
    ensures
        s@ == b64_encode(data@),
{
    base64_encode(data)
}

/// A file's bytes from what the store holds for it: nothing when the store
/// holds no shares, or when putting the shares back together failed
/// (`reassembled` is the outcome of that) or did not give base64 text;
/// otherwise the bytes the reassembled text encodes.
pub fn content_from_store(stored: &str, reassembled: &Result<String, String>) -> (v: Vec<u8>)
    ensures
        stored@.len() == 0 ==> v@ == Seq::<u8>::empty(),
        stored@.len() > 0 && reassembled is Err ==> v@ == Seq::<u8>::empty(),
        (stored@.len() > 0 && reassembled is Ok) ==> {
            let t = reassembled->Ok_0@;
            ||| b64_encode(v@) == t
            ||| (v@ == Seq::<u8>::empty() && !(exists|d: Seq<u8>| #[trigger] b64_encode(d) == t))
        },
{
    if stored.unicode_len() == 0 {
        return Vec::new();
    }
    match reassembled {
        Ok(text) => match base64_decode(text.as_str()) {
            Ok(bytes) => bytes,
            Err(_) => Vec::new(),
        },
        Err(_) => Vec::new(),
    }
}

/// What a read of `count` bytes at `offset` returns from `current`: the
/// bytes from `offset` to the earlier of `offset + count` and the end, and
/// whether that reaches the end; nothing, and the end, when `offset` is at
/// or past the end.
pub open spec fn read_slice_spec(current: Seq<u8>, offset: int, count: int) -> (Seq<u8>, bool) {
    if offset >= current.len() {
        (seq![], true)
    } else {
        let end = vstd::math::min(current.len() as int, offset + count);
        (current.subrange(offset, end), end >= current.len())
    }
}

/// The bytes a read of `count` bytes at `offset` returns, and whether it
/// reaches the end of the file.
pub fn read_slice(current: &[u8], offset: u64, count: u32) -> (r: (Vec<u8>, bool))
    requires
        offset + count <= u64::MAX,
        offset + count <= usize::MAX,
    ensures
        (r.0@, r.1) == read_slice_spec(current@, offset as int, count as int),
{
    let len = current.len();
    if offset as usize >= len {
        return (Vec::new(), true);
    }
    let requested = (offset + count as u64) as usize;
    let end = if len < requested {
        len
    } else {
        requested
    };
    let mut out: Vec<u8> = Vec::new();
    push_range(&mut out, current, offset as usize, end);
    (out, end >= len)
}

/// `contents` after writing `data` at `offset`: zero-padded up to the end of
/// the write when it was shorter, and with `data` over the bytes from
/// `offset` on.
pub open spec fn splice_spec(contents: Seq<u8>, offset: int, data: Seq<u8>) -> Seq<u8> {
    let end = offset + data.len();
    let grown = if end > contents.len() {
        contents + zeros((end - contents.len()) as nat)
    } else {
        contents
    };
    grown.subrange(0, offset) + data + grown.subrange(end, grown.len() as int)
}

/// Writes `data` into `contents` at `offset`, growing it with zeros first
/// when the write ends past it.
pub fn write_splice(contents: &Vec<u8>, offset: u64, data: &[u8]) -> (r: Vec<u8>)
    requires
        offset + data@.len() <= usize::MAX,
    ensures
        r@ == splice_spec(contents@, offset as int, data@),
{
    let end = offset as usize + data.len();
    let len = contents.len();
    let ghost grown = if end > len {
        contents@ + zeros((end - len) as nat)
    } else {
        contents@
    };
    let mut out: Vec<u8> = Vec::new();
    let keep = if (offset as usize) < len {
        offset as usize
    } else {
        len
    };
    push_range(&mut out, contents.as_slice(), 0, keep);
    if keep < offset as usize {
        let pad = offset as usize - keep;
        crate::xdr::push_zeros(&mut out, pad);
    }
    assert(out@ =~= grown.subrange(0, offset as int));
    push_bytes(&mut out, data);
    if end < len {
        let ghost before = out@;
        push_range(&mut out, contents.as_slice(), end, len);
        assert(out@ =~= grown.subrange(0, offset as int) + data@ + grown.subrange(
            end as int,
            grown.len() as int,
        ));
    } else {
        assert(grown.subrange(end as int, grown.len() as int) =~= Seq::<u8>::empty());
        assert(out@ =~= grown.subrange(0, offset as int) + data@ + grown.subrange(
            end as int,
            grown.len() as int,
        ));
    }
    out
}

/// A write followed by a read of the same range gives back what was
/// written, whatever the file held before.
pub proof fn lemma_read_after_splice(contents: Seq<u8>, offset: int, data: Seq<u8>)
    requires
        0 <= offset,
        data.len() > 0,
    ensures
        read_slice_spec(splice_spec(contents, offset, data), offset, data.len() as int).0 == data,
{
    let s = splice_spec(contents, offset, data);
    let end = offset + data.len();
    assert(s.len() >= end);
    assert(s.subrange(offset, end) =~= data);
}

/// The first position at or after `from` holding a slash, or the length of
/// `s` when there is none.
pub open spec fn slash_from(s: Seq<char>, from: int) -> int
    decreases s.len() - from,
{
    if from < 0 || from >= s.len() {
        s.len() as int
    } else if s[from] == '/' {
        from
    } else {
        slash_from(s, from + 1)
    }
}

/// The name of the user that owns `path`: the piece between its first and
/// second slash, when it has at least two; otherwise empty.
pub open spec fn path_user_spec(path: Seq<char>) -> Seq<char> {
    let a = slash_from(path, 0);
    if count_char(path, '/') >= 2 && a < path.len() {
        path.subrange(a + 1, slash_from(path, a + 1))
    } else {
        seq![]
    }
}

fn find_slash(v: &Vec<char>, from: usize) -> (r: usize)
    requires
        from <= v.len(),
    ensures
        r == slash_from(v@, from as int),
        from <= r <= v.len(),
{
    let mut i = from;
    while i < v.len() && v[i] != '/'
        invariant
            from <= i <= v.len(),
            slash_from(v@, from as int) == slash_from(v@, i as int),
        decreases v.len() - i,
    {
        i += 1;
    }
    i
}

/// The name of the user that owns `path`.
pub fn path_user(path: &str) -> (r: String)
    ensures
        r@ == path_user_spec(path@),
{
    let v = chars_of(path);
    let n = count_char_in(&v, '/');
    let a = find_slash(&v, 0);
    if n >= 2 && a < v.len() {
        let b = find_slash(&v, a + 1);
        path.substring_char(a + 1, b).to_owned()
    } else {
        String::new()
    }
}

/// Whether a write of `data_len` bytes at `offset` reaches the size the
/// store records for the file; an unreadable size is an I/O error.
pub fn likely_last_write(offset: u64, data_len: usize, stored_size: &str) -> (r: Result<
    bool,
    nfsstat3,
>)
    requires
        offset + data_len <= u64::MAX,
    ensures
        parse_unsigned_spec(stored_size@, u64::MAX as nat) matches Some(size) ==> r == Ok::<
            bool,
            nfsstat3,
        >(offset + data_len >= size),
        parse_unsigned_spec(stored_size@, u64::MAX as nat) is None ==> r == Err::<bool, nfsstat3>(
            nfsstat3::NFS3ERR_IO,
        ),
{
    match parse_u64(stored_size) {
        Some(size) => Ok(offset + data_len as u64 >= size),
        None => Err(nfsstat3::NFS3ERR_IO),
    }
}

/// Whether a buffered write is due to be committed: the client marked it
/// complete and nothing was written for more than ten seconds
/// (`idle_secs` whole seconds and `idle_nanos` more).
pub fn should_commit(complete: bool, idle_secs: u64, idle_nanos: u32) -> (b: bool)
    ensures
        b == (complete && (idle_secs > 10 || (idle_secs == 10 && idle_nanos > 0))),
{
    complete && (idle_secs > 10 || (idle_secs == 10 && idle_nanos > 0))
}

proof fn lemma_b64_char_injective(a: int, b: int)
    requires
        0 <= a < 64,
        0 <= b < 64,
        b64_char(a) == b64_char(b),
    ensures
        a == b,
{
    let ca = b64_char(a) as int;
    let cb = b64_char(b) as int;
    assert(ca == cb);
}

proof fn lemma_b64_char_not_pad(v: int)
    requires
        0 <= v < 64,
    ensures
        b64_char(v) != '=',
{
}

proof fn lemma_b64_head(d: Seq<u8>)
    requires
        d.len() > 0,
    ensures
        b64_encode(d)[0] == b64_char(d[0] as int / 4),
        d.len() == 1 ==> b64_encode(d)[1] == b64_char((d[0] as int % 4) * 16),
        d.len() >= 2 ==> b64_encode(d)[1] == b64_char((d[0] as int % 4) * 16 + d[1] as int / 16),
        d.len() == 2 ==> b64_encode(d)[2] == b64_char((d[1] as int % 16) * 4),
        d.len() >= 3 ==> b64_encode(d)[2] == b64_char((d[1] as int % 16) * 4 + d[2] as int / 64),
        d.len() >= 3 ==> b64_encode(d)[3] == b64_char(d[2] as int % 64),
        d.len() >= 3 ==> b64_encode(d).subrange(4, b64_encode(d).len() as int) == b64_encode(
            d.skip(3),
        ),
{
    if d.len() >= 3 {
        let g = seq![
            b64_char(d[0] as int / 4),
            b64_char((d[0] as int % 4) * 16 + d[1] as int / 16),
            b64_char((d[1] as int % 16) * 4 + d[2] as int / 64),
            b64_char(d[2] as int % 64),
        ];
        assert(b64_encode(d) == g + b64_encode(d.skip(3)));
        assert((g + b64_encode(d.skip(3))).subrange(4, b64_encode(d).len() as int) =~= b64_encode(
            d.skip(3),
        ));
    }
}

proof fn lemma_b64_len(d: Seq<u8>)
    ensures
        d.len() == 0 <==> b64_encode(d).len() == 0,
        d.len() > 0 ==> b64_encode(d).len() >= 4,
        d.len() >= 3 ==> b64_encode(d)[2] != '=' && b64_encode(d)[3] != '=',
        d.len() == 2 ==> b64_encode(d)[2] != '=' && b64_encode(d)[3] == '=',
        d.len() == 1 ==> b64_encode(d)[2] == '=' && b64_encode(d)[3] == '=',
{
    if d.len() >= 3 {
        lemma_b64_char_not_pad((d[1] as int % 16) * 4 + d[2] as int / 64);
        lemma_b64_char_not_pad(d[2] as int % 64);
    } else if d.len() == 2 {
        lemma_b64_char_not_pad((d[1] as int % 16) * 4);
    }
}

/// Different bytes never share a base64 text: a file's stored text reads
/// back as exactly the bytes that were written.
pub proof fn lemma_b64_encode_injective(a: Seq<u8>, b: Seq<u8>)
    requires
        b64_encode(a) == b64_encode(b),
    ensures
        a == b,
    decreases a.len(),
{
    lemma_b64_len(a);
    lemma_b64_len(b);
    let e = b64_encode(a);
    if a.len() == 0 {
        assert(b.len() == 0);
        assert(a =~= b);
    } else {
        assert(b.len() > 0);
        let (a0, b0) = (a[0] as int, b[0] as int);
        lemma_b64_head(a);
        lemma_b64_head(b);
        lemma_b64_char_injective(a0 / 4, b0 / 4);
        if a.len() == 1 {
            assert(b.len() == 1);
            lemma_b64_char_injective((a0 % 4) * 16, (b0 % 4) * 16);
            assert(a0 == b0);
            assert(a =~= b);
        } else {
            let (a1, b1) = (a[1] as int, b[1] as int);
            assert(b.len() >= 2);
            lemma_b64_char_injective((a0 % 4) * 16 + a1 / 16, (b0 % 4) * 16 + b1 / 16);
            assert(a0 == b0 && a1 / 16 == b1 / 16) by (nonlinear_arith)
                requires
                    a0 / 4 == b0 / 4,
                    (a0 % 4) * 16 + a1 / 16 == (b0 % 4) * 16 + b1 / 16,
                    0 <= a0 < 256,
                    0 <= b0 < 256,
                    0 <= a1 < 256,
                    0 <= b1 < 256,
            ;
            if a.len() == 2 {
                assert(b.len() == 2);
                lemma_b64_char_injective((a1 % 16) * 4, (b1 % 16) * 4);
                assert(a1 == b1) by (nonlinear_arith)
                    requires
                        a1 / 16 == b1 / 16,
                        (a1 % 16) * 4 == (b1 % 16) * 4,
                        0 <= a1 < 256,
                        0 <= b1 < 256,
                ;
                assert(a =~= b);
            } else {
                assert(b.len() >= 3);
                let (a2, b2) = (a[2] as int, b[2] as int);
                lemma_b64_char_injective((a1 % 16) * 4 + a2 / 64, (b1 % 16) * 4 + b2 / 64);
                lemma_b64_char_injective(a2 % 64, b2 % 64);
                assert(a1 == b1 && a2 == b2) by (nonlinear_arith)
                    requires
                        a1 / 16 == b1 / 16,
                        (a1 % 16) * 4 + a2 / 64 == (b1 % 16) * 4 + b2 / 64,
                        a2 % 64 == b2 % 64,
                        0 <= a1 < 256,
                        0 <= b1 < 256,
                        0 <= a2 < 256,
                        0 <= b2 < 256,
                ;
                lemma_b64_encode_injective(a.skip(3), b.skip(3));
                assert(a =~= a.take(3) + a.skip(3));
                assert(b =~= b.take(3) + b.skip(3));
                assert(a.take(3) =~= b.take(3));
            }
        }
    }
}

} // verus!
