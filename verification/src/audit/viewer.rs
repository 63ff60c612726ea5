//! What the audit log viewer shows: one row per recorded event and per
//! sealed window, newest first, and how the hash of a shown event is read
//! back to look the event up.

use vstd::prelude::*;
use vstd::string::{StrSliceExecFns, StringSliceAdditionalSpecFns};
use vstd::utf8::{encode_utf8, is_ascii_chars, is_ascii_chars_encode_utf8};
use chrono::TimeZone;
use crate::audit::window::{hex_digit, hex_encode, hex_spec};
use crate::display::ascii_text;
use crate::decimal::{parse_i64, parse_signed_spec, signed_decimal, signed_decimal_spec};
use crate::text::{chars_of, concat_str};

verus! {

// ---------------------------------------------------------------------
// Calls into std, chrono and hex.
// ---------------------------------------------------------------------

/// Name for what std's `str::to_uppercase` gives for `s`.
pub uninterp spec fn uppercase(s: Seq<char>) -> Seq<char>;

/// `s` with its ASCII small letters made capitals.
pub open spec fn ascii_upper(s: Seq<char>) -> Seq<char> {
    s.map_values(|c: char| if 'a' <= c && c <= 'z' { ((c as u32) - 32) as char } else { c })
}

/// Calls std's `str::to_uppercase`. Trusted: std documents the Unicode
/// uppercase mapping, which on ASCII text makes `a` to `z` capitals and
/// keeps every other character.
#[verifier::external_body]
fn to_uppercase(s: &str) -> (r: String)
    ensures
        r@ == uppercase(s@),
        ascii_text(s@) ==> r@ == ascii_upper(s@),
{
    s.to_uppercase()
}

/// Name for the text chrono gives for the instant `micros` microseconds
/// after the epoch, in UTC, as `%Y-%m-%d %H:%M:%S.%3f UTC`; `None` when the
/// instant lies outside chrono's range of dates.
pub uninterp spec fn utc_micros_text(micros: i64) -> Option<Seq<char>>;

/// Calls chrono's `DateTime::<Utc>::from_timestamp_micros` and formats the
/// instant with `%Y-%m-%d %H:%M:%S.%3f UTC`. Trusted: the result is the
/// name's, a function of `micros` alone.
#[verifier::external_body]
fn format_utc_micros(micros: i64) -> (r: Option<String>)
    ensures
        match r {
            Some(t) => utc_micros_text(micros) == Some(t@),
            None => utc_micros_text(micros) is None,
        },
{
    match chrono::DateTime::<chrono::Utc>::from_timestamp_micros(micros) {
        Some(d) => Some(d.format("%Y-%m-%d %H:%M:%S.%3f UTC").to_string()),
        None => None,
    }
}

/// Name for the text chrono gives for the second `secs` after the epoch,
/// in UTC, as `%Y-%m-%d %H:%M:%S UTC`; `None` when that second lies outside
/// chrono's range of dates.
pub uninterp spec fn utc_secs_text(secs: i64) -> Option<Seq<char>>;

/// Calls chrono's `Utc.timestamp_opt(secs, 0).single()` and formats the
/// instant with `%Y-%m-%d %H:%M:%S UTC`. Trusted: the result is the
/// name's, a function of `secs` alone.
#[verifier::external_body]
fn format_utc_secs(secs: i64) -> (r: Option<String>)
    ensures
        match r {
            Some(t) => utc_secs_text(secs) == Some(t@),
            None => utc_secs_text(secs) is None,
        },
{
    match chrono::Utc.timestamp_opt(secs, 0).single() {
        Some(d) => Some(d.format("%Y-%m-%d %H:%M:%S UTC").to_string()),
        None => None,
    }
}

/// hex's decoding error.
#[verifier::external_type_specification]
#[verifier::external_body]
pub struct ExFromHexError(hex::FromHexError);

/// The value of the hexadecimal digit `c`, in either case.
pub open spec fn hex_value(c: u8) -> Option<nat> {
    if 0x30 <= c && c <= 0x39 {
        Some((c - 0x30) as nat)
    } else if 0x61 <= c && c <= 0x66 {
        Some((c - 0x61 + 10) as nat)
    } else if 0x41 <= c && c <= 0x46 {
        Some((c - 0x41 + 10) as nat)
    } else {
        None
    }
}

/// The bytes that the hexadecimal text `s` spells, two digits a byte, high
/// digit first; `None` when its length is odd or a character is no digit.
pub open spec fn hex_decode_spec(s: Seq<u8>) -> Option<Seq<u8>>
    decreases s.len(),
{
    if s.len() % 2 != 0 {
        None
    } else if s.len() == 0 {
        Some(Seq::empty())
    } else {
        match (
            hex_decode_spec(s.subrange(0, s.len() - 2)),
            hex_value(s[s.len() - 2]),
            hex_value(s[s.len() - 1]),
        ) {
            (Some(p), Some(h), Some(l)) => Some(p.push((h * 16 + l) as u8)),
            _ => None,
        }
    }
}

/// Calls `hex::decode`. Trusted: the crate's source refuses an odd length,
/// then turns each pair of digits (`0-9`, `a-f`, `A-F`) into a byte and
/// refuses any other character.
#[verifier::external_body]
fn hex_decode(data: &[u8]) -> (r: Result<Vec<u8>, hex::FromHexError>)
    ensures
        r is Ok <==> hex_decode_spec(data@) is Some,
        r matches Ok(v) ==> hex_decode_spec(data@) == Some(v@),
{
    hex::decode(data)
}

/// Calls the `Display` of hex's `FromHexError`. Trusted for nothing: the
/// text names the error's kind and place, which no contract here speaks of.
#[verifier::external_body]
fn hex_error_text(e: &hex::FromHexError) -> String {
    format!("{}", e)
}

// ---------------------------------------------------------------------
// Rows.
// ---------------------------------------------------------------------

/// `n` spaces.
pub open spec fn spaces(n: nat) -> Seq<char> {
    Seq::new(n, |i: int| ' ')
}

/// `s` padded with spaces on the right to `width` characters, as the
/// format `{:<width}` writes it; longer text is kept whole.
pub open spec fn pad_right(s: Seq<char>, width: nat) -> Seq<char> {
    if s.len() >= width {
        s
    } else {
        s + spaces((width - s.len()) as nat)
    }
}

/// `s` padded to `width` characters.
pub fn pad_text(s: &str, width: usize) -> (r: String)
    ensures
        r@ == pad_right(s@, width as nat),
{
    let n = s.unicode_len();
    let mut out = concat_str(s, "");
    proof {
        reveal_strlit("");
        reveal_strlit(" ");
    }
    let mut k = n;
    while k < width
        invariant
            n == s@.len(),
            n <= k,
            k <= width || k == n,
            out@ == s@ + spaces((k - n) as nat),
            " "@ == seq![' '],
        decreases width - k,
    {
        out = out.concat(" ");
        assert(spaces((k + 1 - n) as nat) =~= spaces((k - n) as nat).push(' '));
        k = k + 1;
        assert(out@ =~= s@ + spaces((k - n) as nat));
    }
    if n >= width {
        assert(out@ =~= s@);
    }
    out
}

/// The row of an event: the first four bytes of its hash in hexadecimal
/// and `...`, its time, its kind in capitals and its file's path, in
/// columns 12, 24, 12 and 40 characters wide, and a line break.
pub open spec fn event_row_spec(
    hash: Seq<u8>,
    time: Seq<char>,
    kind: Seq<char>,
    path: Seq<char>,
) -> Seq<char> {
    pad_right(hex_spec(hash.take(4)) + "..."@, 12) + " "@ + pad_right(time, 24) + " "@ + pad_right(
        uppercase(kind),
        12,
    ) + " "@ + pad_right(path, 40) + "\n"@
}

/// The row of an event recorded at `micros` with hash `hash`, of kind
/// `kind`, on the file `path`; `None` when chrono has no date for the
/// instant.
pub fn event_row(hash: &[u8], micros: i64, kind: &str, path: &str) -> (r: Option<String>)
    requires
        hash@.len() >= 4,
    ensures
        match utc_micros_text(micros) {
            None => r is None,
            Some(t) => r matches Some(s) && s@ == event_row_spec(hash@, t, kind@, path@),
        },
{
    let time = match format_utc_micros(micros) {
        Some(t) => t,
        None => {
            return None;
        },
    };
    let mut head: Vec<u8> = Vec::new();
    let mut i: usize = 0;
    while i < 4
        invariant
            i <= 4,
            hash@.len() >= 4,
            head@ == hash@.take(i as int),
        decreases 4 - i,
    {
        head.push(hash[i]);
        i = i + 1;
        assert(head@ =~= hash@.take(i as int));
    }
    let preview = concat_str(hex_encode(head.as_slice()).as_str(), "...");
    let upper = to_uppercase(kind);
    let a = pad_text(preview.as_str(), 12);
    let b = pad_text(time.as_str(), 24);
    let c = pad_text(upper.as_str(), 12);
    let d = pad_text(path, 40);
    let row = a.concat(" ").concat(b.as_str()).concat(" ").concat(c.as_str()).concat(" ").concat(
        d.as_str(),
    ).concat("\n");
    proof {
        reveal_strlit("...");
        reveal_strlit(" ");
        reveal_strlit("\n");
        assert(row@ =~= event_row_spec(hash@, time@, kind@, path@));
    }
    Some(row)
}

/// An event as the current window lists it: its whole hash in
/// hexadecimal, `|`, then its row.
pub fn event_entry(hash: &[u8], row: &str) -> (s: String)
    ensures
        s@ == hex_spec(hash@) + "|"@ + row@,
{
    let h = hex_encode(hash);
    let s = h.concat("|").concat(row);
    proof {
        reveal_strlit("|");
        assert(s@ =~= hex_spec(hash@) + "|"@ + row@);
    }
    s
}

/// The second at which a sealed window began, read from its key
/// `window:<seconds>`; `None` when the key is not of that form.
pub open spec fn window_second(key: Seq<char>) -> Option<int> {
    if "window:"@.is_prefix_of(key) {
        parse_signed_spec(key.subrange(7, key.len() as int))
    } else {
        None
    }
}

/// The second under which a sealed window is listed: the one its key
/// names when chrono has a date for it, else `now`.
pub open spec fn listed_second(key: Seq<char>, now: i64) -> int {
    match window_second(key) {
        Some(s) => if utc_secs_text(s as i64) is Some {
            s
        } else {
            now as int
        },
        None => now as int,
    }
}

/// The text of a sealed window: its start and the first eight hex digits
/// of its root hash.
pub open spec fn root_text_spec(time: Seq<char>, hash: Seq<u8>) -> Seq<char> {
    "Window: "@ + time + ", Root Hash: "@ + hex_spec(hash.take(4)) + "..."@
}

/// The second under which the sealed window with key `key` and root hash
/// `hash` is listed, and its text; `now` stands in for a key that names no
/// date. `None` only when chrono has no date for the second listed.
pub fn root_entry(key: &str, hash: &[u8], now: i64) -> (r: Option<(i64, String)>)
    requires
        hash@.len() >= 4,
    ensures
        match utc_secs_text(listed_second(key@, now) as i64) {
            None => r is None,
            Some(t) => r matches Some(e) && e.0 == listed_second(key@, now) && e.1@
                == root_text_spec(t, hash@),
        },
{
    proof {
        reveal_strlit("window:");
        reveal_strlit("Window: ");
        reveal_strlit(", Root Hash: ");
        reveal_strlit("...");
    }
    let v = chars_of(key);
    let mut named: Option<i64> = None;
    if v.len() >= 7 && crate::text::str_starts_with(key, "window:") {
        let rest = key.substring_char(7, v.len());
        named = parse_i64(rest);
    }
    assert(named matches Some(s) ==> window_second(key@) == Some(s as int));
    assert(named is None ==> window_second(key@) is None);
    let mut secs = now;
    let mut text: Option<String> = None;
    match named {
        Some(s) => {
            let t = format_utc_secs(s);
            if t.is_some() {
                secs = s;
                text = t;
            }
        },
        None => {},
    }
    if text.is_none() {
        text = format_utc_secs(now);
    }
    assert(secs == listed_second(key@, now));
    match text {
        None => None,
        Some(t) => {
            let mut head: Vec<u8> = Vec::new();
            let mut i: usize = 0;
            while i < 4
                invariant
                    i <= 4,
                    hash@.len() >= 4,
                    head@ == hash@.take(i as int),
                decreases 4 - i,
            {
                head.push(hash[i]);
                i = i + 1;
                assert(head@ =~= hash@.take(i as int));
            }
            let s = concat_str("Window: ", t.as_str()).concat(", Root Hash: ").concat(
                hex_encode(head.as_slice()).as_str(),
            ).concat("...");
            assert(s@ =~= root_text_spec(t@, hash@));
            Some((secs, s))
        },
    }
}

/// A sealed window's line: its second, `|`, its text and a line break.
pub fn root_line(secs: i64, text: &str) -> (s: String)
    ensures
        s@ == signed_decimal_spec(secs as int) + "|"@ + text@ + "\n"@,
{
    let s = signed_decimal(secs).concat("|").concat(text).concat("\n");
    proof {
        reveal_strlit("|");
        reveal_strlit("\n");
        assert(s@ =~= signed_decimal_spec(secs as int) + "|"@ + text@ + "\n"@);
    }
    s
}

// ---------------------------------------------------------------------
// Newest first.
// ---------------------------------------------------------------------

/// Entries over the characters of their text.
pub open spec fn entry_views(v: Seq<(i64, String)>) -> Seq<(i64, Seq<char>)> {
    v.map_values(|e: (i64, String)| (e.0, e.1@))
}

/// Whether an entry is stamped `t`.
pub open spec fn stamp_is(t: i64) -> spec_fn((i64, Seq<char>)) -> bool {
    |e: (i64, Seq<char>)| e.0 == t
}

/// The entries of `s` stamped `t`, in order.
pub open spec fn stamped(s: Seq<(i64, Seq<char>)>, t: i64) -> Seq<(i64, Seq<char>)> {
    s.filter(stamp_is(t))
}

/// Whether the stamps of `s` never rise.
pub open spec fn newest_first_order(s: Seq<(i64, Seq<char>)>) -> bool {
    forall|i: int, j: int| 0 <= i < j < s.len() ==> s[i].0 >= s[j].0
}

proof fn lemma_insert_keeps_stamped(
    out: Seq<(i64, Seq<char>)>,
    p: int,
    x: (i64, Seq<char>),
    t: i64,
)
    requires
        0 <= p <= out.len(),
        forall|k: int| p <= k < out.len() ==> out[k].0 < x.0,
    ensures
        stamped(out.insert(p, x), t) == if x.0 == t {
            stamped(out, t).push(x)
        } else {
            stamped(out, t)
        },
{
    let f = stamp_is(t);
    let pre = out.subrange(0, p);
    let post = out.subrange(p, out.len() as int);
    assert(out =~= pre + post);
    assert(out.insert(p, x) =~= pre.push(x) + post);
    Seq::filter_distributes_over_add(pre, post, f);
    Seq::filter_distributes_over_add(pre.push(x), post, f);
    pre.lemma_filter_push(x, f);
    if x.0 == t {
        assert forall|k: int| 0 <= k < post.len() implies !f(post[k]) by {
            assert(post[k] == out[p + k]);
        }
        post.lemma_all_neg_filter_empty(f);
        assert(pre.filter(f) + post.filter(f) =~= pre.filter(f));
        assert(pre.filter(f).push(x) + post.filter(f) =~= pre.filter(f).push(x));
    }
}

/// The entries newest first; entries with the same stamp keep their
/// order, as a stable sort leaves them.
pub fn newest_first(entries: Vec<(i64, String)>) -> (r: Vec<(i64, String)>)
    ensures
        newest_first_order(entry_views(r@)),
        forall|t: i64| stamped(entry_views(r@), t) == stamped(entry_views(entries@), t),
{
    let ghost input = entry_views(entries@);
    let mut out: Vec<(i64, String)> = Vec::new();
    let mut rest = entries;
    let mut taken: usize = 0;
    let n = rest.len();
    while rest.len() > 0
        invariant
            n == input.len(),
            taken + rest@.len() == n,
            entry_views(rest@) == input.subrange(taken as int, n as int),
            newest_first_order(entry_views(out@)),
            forall|t: i64|
                stamped(entry_views(out@), t) == stamped(input.subrange(0, taken as int), t),
        decreases rest@.len(),
    {
        let ghost rest_before = entry_views(rest@);
        let x = rest.remove(0);
        let ghost xv = (x.0, x.1@);
        assert(rest_before[0] == xv);
        assert(entry_views(rest@) =~= rest_before.drop_first());
        let mut p: usize = 0;
        while p < out.len() && out[p].0 >= x.0
            invariant
                p <= out@.len(),
                forall|k: int| 0 <= k < p ==> #[trigger] out@[k].0 >= x.0,
            decreases out@.len() - p,
        {
            p = p + 1;
        }
        let ghost before = entry_views(out@);
        proof {
            assert forall|k: int| p <= k < before.len() implies before[k].0 < xv.0 by {
                if p < before.len() {
                    assert(before[p as int].0 < xv.0);
                    assert(before[p as int].0 >= before[k].0);
                }
            }
            assert forall|t: i64|
                stamped(before.insert(p as int, xv), t) == stamped(
                    input.subrange(0, taken + 1),
                    t,
                ) by {
                lemma_insert_keeps_stamped(before, p as int, xv, t);
                assert(input.subrange(0, taken + 1) =~= input.subrange(0, taken as int).push(xv));
                input.subrange(0, taken as int).lemma_filter_push(xv, stamp_is(t));
            }
        }
        out.insert(p, x);
        assert(entry_views(out@) =~= before.insert(p as int, xv));
        proof {
            let now = entry_views(out@);
            assert forall|i: int, j: int| 0 <= i < j < now.len() implies now[i].0 >= now[j].0 by {
                if j < p {
                    assert(now[i] == before[i] && now[j] == before[j]);
                } else if j == p {
                    assert(now[i] == before[i]);
                } else if i < p {
                    assert(now[i] == before[i] && now[j] == before[j - 1]);
                    if i < j - 1 {
                    }
                } else if i == p {
                    assert(now[j] == before[j - 1]);
                } else {
                    assert(now[i] == before[i - 1] && now[j] == before[j - 1]);
                }
            }
        }
        taken = taken + 1;
    }
    assert(input.subrange(0, n as int) =~= input);
    out
}

/// The texts of the entries, one after another.
pub open spec fn joined(s: Seq<(i64, Seq<char>)>) -> Seq<char>
    decreases s.len(),
{
    if s.len() == 0 {
        Seq::empty()
    } else {
        joined(s.drop_last()) + s.last().1
    }
}

/// The texts of the entries, one after another.
pub fn join_texts(entries: &Vec<(i64, String)>) -> (s: String)
    ensures
        s@ == joined(entry_views(entries@)),
{
    let mut s = String::new();
    let mut i: usize = 0;
    while i < entries.len()
        invariant
            i <= entries@.len(),
            s@ == joined(entry_views(entries@).take(i as int)),
        decreases entries@.len() - i,
    {
        s.append(entries[i].1.as_str());
        i = i + 1;
        assert(entry_views(entries@).take(i as int).drop_last() =~= entry_views(entries@).take(
            i - 1,
        ));
    }
    assert(entry_views(entries@).take(entries@.len() as int) =~= entry_views(entries@));
    s
}

// ---------------------------------------------------------------------
// The hash of a shown event.
// ---------------------------------------------------------------------

/// Where the first `|` of `s` is, or its length when it has none.
pub open spec fn first_bar(s: Seq<char>) -> int
    decreases s.len(),
{
    if s.len() == 0 {
        0
    } else if s[0] == '|' {
        0
    } else {
        1 + first_bar(s.drop_first())
    }
}

/// The bytes of the hash that an event's entry starts with: the text
/// before its first `|`, read as hexadecimal.
pub open spec fn entry_hash_spec(entry: Seq<char>) -> Option<Seq<u8>> {
    hex_decode_spec(encode_utf8(entry.take(first_bar(entry))))
}

proof fn lemma_first_bar(s: Seq<char>, i: int)
    requires
        0 <= i <= s.len(),
        forall|k: int| 0 <= k < i ==> s[k] != '|',
        i == s.len() || s[i] == '|',
    ensures
        first_bar(s) == i,
    decreases s.len(),
{
    if s.len() > 0 && s[0] != '|' {
        assert forall|k: int| 0 <= k < i - 1 implies s.drop_first()[k] != '|' by {
            assert(s.drop_first()[k] == s[k + 1]);
        }
        if i < s.len() {
            assert(s.drop_first()[i - 1] == s[i]);
        }
        lemma_first_bar(s.drop_first(), i - 1);
    }
}

/// The hash that an event's entry starts with, or the text of the error
/// that reading it as hexadecimal gave.
pub fn entry_hash(entry: &str) -> (r: Result<Vec<u8>, String>)
    ensures
        r is Ok <==> entry_hash_spec(entry@) is Some,
        r matches Ok(h) ==> entry_hash_spec(entry@) == Some(h@),
{
    let v = chars_of(entry);
    let mut i: usize = 0;
    while i < v.len() && v[i] != '|'
        invariant
            i <= v@.len(),
            v@ == entry@,
            forall|k: int| 0 <= k < i ==> v@[k] != '|',
        decreases v@.len() - i,
    {
        i = i + 1;
    }
    proof {
        lemma_first_bar(entry@, i as int);
    }
    let head = entry.substring_char(0, i);
    assert(head@ =~= entry@.take(i as int));
    match hex_decode(head.as_bytes()) {
        Ok(h) => Ok(h),
        Err(e) => Err(hex_error_text(&e)),
    }
}

/// The ASCII code of the hexadecimal digit `d`, small letters for 10 to 15.
pub open spec fn hex_code(d: nat) -> u8 {
    if d < 10 {
        (0x30 + d) as u8
    } else {
        (0x61 + d - 10) as u8
    }
}

/// The ASCII bytes of `h` written in hexadecimal.
pub open spec fn hex_bytes(h: Seq<u8>) -> Seq<u8>
    decreases h.len(),
{
    if h.len() == 0 {
        Seq::empty()
    } else {
        hex_bytes(h.drop_last()) + seq![hex_code((h.last() / 16) as nat), hex_code((h.last() % 16) as nat)]
    }
}

proof fn lemma_hex_text_is_ascii(h: Seq<u8>)
    ensures
        hex_spec(h).len() == 2 * h.len(),
        hex_bytes(h).len() == 2 * h.len(),
        forall|i: int| 0 <= i < hex_spec(h).len() ==> ('0' <= #[trigger] hex_spec(h)[i] <= '9'
            || 'a' <= hex_spec(h)[i] <= 'f'),
        forall|i: int| 0 <= i < hex_spec(h).len() ==> #[trigger] hex_spec(h)[i] as u8
            == hex_bytes(h)[i],
    decreases h.len(),
{
    if h.len() > 0 {
        let t = h.drop_last();
        lemma_hex_text_is_ascii(t);
        let hi = (h.last() / 16) as nat;
        let lo = (h.last() % 16) as nat;
        assert forall|i: int| 0 <= i < hex_spec(h).len() implies ('0' <= #[trigger] hex_spec(h)[i]
            <= '9' || 'a' <= hex_spec(h)[i] <= 'f') && hex_spec(h)[i] as u8 == hex_bytes(h)[i] by {
            if i < 2 * t.len() {
                assert(hex_spec(h)[i] == hex_spec(t)[i]);
                assert(hex_bytes(h)[i] == hex_bytes(t)[i]);
            } else if i == 2 * t.len() {
                assert(hex_spec(h)[i] == hex_digit(hi));
                assert(hex_bytes(h)[i] == hex_code(hi));
            } else {
                assert(hex_spec(h)[i] == hex_digit(lo));
                assert(hex_bytes(h)[i] == hex_code(lo));
            }
        }
    }
}

proof fn lemma_hex_bytes_decode(h: Seq<u8>)
    ensures
        hex_decode_spec(hex_bytes(h)) == Some(h),
    decreases h.len(),
{
    lemma_hex_text_is_ascii(h);
    if h.len() > 0 {
        let t = h.drop_last();
        lemma_hex_bytes_decode(t);
        lemma_hex_text_is_ascii(t);
        let b = hex_bytes(h);
        let hi = (h.last() / 16) as nat;
        let lo = (h.last() % 16) as nat;
        assert(b.subrange(0, b.len() - 2) =~= hex_bytes(t));
        assert(b[b.len() - 2] == hex_code(hi));
        assert(b[b.len() - 1] == hex_code(lo));
        assert(hex_value(hex_code(hi)) == Some(hi));
        assert(hex_value(hex_code(lo)) == Some(lo));
        assert((hi * 16 + lo) as u8 == h.last());
        assert(t.push(h.last()) =~= h);
    }
}

/// The hash that an event's entry is listed with reads back, from the
/// entry's text, as the same bytes: the viewer finds the event it shows.
pub proof fn lemma_entry_hash_round_trip(h: Seq<u8>, row: Seq<char>)
    ensures
        entry_hash_spec(hex_spec(h) + "|"@ + row) == Some(h),
{
    reveal_strlit("|");
    lemma_hex_text_is_ascii(h);
    let x = hex_spec(h);
    let e = x + "|"@ + row;
    assert forall|k: int| 0 <= k < x.len() implies e[k] != '|' by {
        assert(e[k] == x[k]);
    }
    assert(e[x.len() as int] == '|');
    lemma_first_bar(e, x.len() as int);
    assert(e.take(x.len() as int) =~= x);
    assert(is_ascii_chars(x));
    is_ascii_chars_encode_utf8(x);
    assert(encode_utf8(x) =~= hex_bytes(h));
    lemma_hex_bytes_decode(h);
}

} // verus!
