//! Text the viewers show: an icon for a file by its extension, and long
//! values wrapped to a fixed width.

use vstd::prelude::*;
use vstd::string::StrSliceExecFns;
use crate::text::{chars_of, str_eq};

verus! {

/// Name for what std's `str::to_lowercase` gives for `s`.
pub uninterp spec fn lowercase(s: Seq<char>) -> Seq<char>;

/// `s` with its ASCII capitals made small.
pub open spec fn ascii_lower(s: Seq<char>) -> Seq<char> {
    s.map_values(|c: char| if 'A' <= c && c <= 'Z' { ((c as u32) + 32) as char } else { c })
}

/// Whether every character of `s` is ASCII.
pub open spec fn ascii_text(s: Seq<char>) -> bool {
    forall|i: int| 0 <= i < s.len() ==> (#[trigger] s[i] as u32) < 128
}

/// Calls std's `str::to_lowercase`. Trusted: std documents the Unicode
/// lowercase mapping, which on ASCII text makes `A` to `Z` small and keeps
/// every other character.
#[verifier::external_body]
fn to_lowercase(s: &str) -> (r: String)
    ensures
        r@ == lowercase(s@),
        ascii_text(s@) ==> r@ == ascii_lower(s@),
{
    s.to_lowercase()
}

/// `s` in small letters, as `str::to_lowercase` gives it.
pub fn lowercase_text(s: &str) -> (r: String)
    ensures
        r@ == lowercase(s@),
        ascii_text(s@) ==> r@ == ascii_lower(s@),
{
    to_lowercase(s)
}

/// Where the part of `s` after its last `.` starts: just after that dot,
/// or 0 when there is none.
pub open spec fn after_last_dot(s: Seq<char>) -> int
    decreases s.len(),
{
    if s.len() == 0 {
        0
    } else if s.last() == '.' {
        s.len() as int
    } else {
        after_last_dot(s.drop_last())
    }
}

/// The extension of a file name: what follows its last `.`, or the whole
/// name when it has none.
pub open spec fn extension_spec(name: Seq<char>) -> Seq<char> {
    name.subrange(after_last_dot(name), name.len() as int)
}

/// The icon for a file whose extension, in small letters, is `ext`.
pub open spec fn emoji_for_spec(ext: Seq<char>) -> Seq<char> {
    if ext == "txt"@ || ext == "md"@ || ext == "doc"@ || ext == "docx"@ {
        "📝"@
    } else if ext == "pdf"@ {
        "📕"@
    } else if ext == "jpg"@ || ext == "jpeg"@ || ext == "png"@ || ext == "gif"@ || ext == "svg"@ {
        "🖼️"@
    } else if ext == "mp3"@ || ext == "wav"@ || ext == "ogg"@ {
        "🎵"@
    } else if ext == "mp4"@ || ext == "mov"@ || ext == "avi"@ {
        "🎬"@
    } else if ext == "zip"@ || ext == "rar"@ || ext == "7z"@ {
        "🗜️"@
    } else if ext == "exe"@ || ext == "app"@ {
        "⚙️"@
    } else {
        "📄"@
    }
}

fn extension_start(v: &Vec<char>) -> (k: usize)
    ensures
        k == after_last_dot(v@),
        k <= v@.len(),
{
    let mut i = v.len();
    assert(v@.subrange(0, i as int) =~= v@);
    while i > 0 && v[i - 1] != '.'
        invariant
            i <= v@.len(),
            after_last_dot(v@) == after_last_dot(v@.subrange(0, i as int)),
        decreases i,
    {
        assert(v@.subrange(0, i as int).drop_last() =~= v@.subrange(0, i - 1));
        i -= 1;
    }
    if i > 0 {
        assert(v@.subrange(0, i as int).last() == '.');
    }
    i
}

/// A name's last `.` ends no later than its length, and the name holds a
/// `.` exactly when there is one.
proof fn lemma_after_last_dot(s: Seq<char>)
    ensures
        0 <= after_last_dot(s) <= s.len(),
        after_last_dot(s) == 0 <==> !s.contains('.'),
    decreases s.len(),
{
    if s.len() > 0 {
        let t = s.drop_last();
        lemma_after_last_dot(t);
        if s.last() == '.' {
            assert(s[s.len() - 1] == '.');
        } else {
            assert forall|i: int| 0 <= i < t.len() implies t[i] == s[i] by {}
            if t.contains('.') {
                let i = choose|i: int| 0 <= i < t.len() && t[i] == '.';
                assert(s[i] == '.');
            }
            if s.contains('.') {
                let i = choose|i: int| 0 <= i < s.len() && s[i] == '.';
                assert(i < t.len());
                assert(t[i] == '.');
            }
        }
    }
}

/// The icon shown for a file: the folder icon for a name without an
/// extension (no `.`), otherwise the icon of its extension in small letters.
pub open spec fn file_emoji_spec(name: Seq<char>) -> Seq<char> {
    if !name.contains('.') {
        "📁"@
    } else {
        emoji_for_spec(lowercase(extension_spec(name)))
    }
}

/// The icon shown for a file, by its extension in small letters; the
/// folder icon for a name without an extension.
pub fn get_file_emoji(filename: &str) -> (r: &'static str)
    ensures
        r@ == file_emoji_spec(filename@),
{
    let v = chars_of(filename);
    let k = extension_start(&v);
    proof {
        lemma_after_last_dot(filename@);
    }
    if k == 0 {
        return "📁";
    }
    let ext = filename.substring_char(k, v.len());
    let e = to_lowercase(ext);
    let e = e.as_str();
    if str_eq(e, "txt") || str_eq(e, "md") || str_eq(e, "doc") || str_eq(e, "docx") {
        "📝"
    } else if str_eq(e, "pdf") {
        "📕"
    } else if str_eq(e, "jpg") || str_eq(e, "jpeg") || str_eq(e, "png") || str_eq(e, "gif")
        || str_eq(e, "svg") {
        "🖼️"
    } else if str_eq(e, "mp3") || str_eq(e, "wav") || str_eq(e, "ogg") {
        "🎵"
    } else if str_eq(e, "mp4") || str_eq(e, "mov") || str_eq(e, "avi") {
        "🎬"
    } else if str_eq(e, "zip") || str_eq(e, "rar") || str_eq(e, "7z") {
        "🗜️"
    } else if str_eq(e, "exe") || str_eq(e, "app") {
        "⚙️"
    } else {
        "📄"
    }
}

/// `s` cut into lines of `n` characters, joined by newlines; the last line
/// may be shorter.
pub open spec fn wrap_spec(s: Seq<char>, n: nat) -> Seq<char>
    decreases s.len(),
{
    if s.len() <= n || n == 0 {
        s
    } else {
        s.take(n as int) + seq!['\n'] + wrap_spec(s.skip(n as int), n)
    }
}

/// `value` cut into lines of `chars_per_line` characters.
pub fn format_value_with_wrapping(value: &str, chars_per_line: usize) -> (r: String)
    requires
        chars_per_line > 0,
    ensures
        r@ == wrap_spec(value@, chars_per_line as nat),
{
    proof {
        reveal_strlit("\n");
    }
    let len = value.unicode_len();
    let mut out = String::new();
    let mut start: usize = 0;
    assert(value@.skip(0) =~= value@);
    assert(out@ + wrap_spec(value@, chars_per_line as nat) =~= wrap_spec(value@, chars_per_line as nat));
    while len - start > chars_per_line
        invariant
            start <= len,
            len == value@.len(),
            chars_per_line > 0,
            out@ + wrap_spec(value@.skip(start as int), chars_per_line as nat) == wrap_spec(
                value@,
                chars_per_line as nat,
            ),
        decreases len - start,
    {
        let ghost rest = value@.skip(start as int);
        let piece = value.substring_char(start, start + chars_per_line);
        let ghost before = out@;
        out = out.concat(piece);
        out = out.concat("\n");
        proof {
            assert(piece@ =~= rest.take(chars_per_line as int));
            reveal_strlit("\n");
            assert("\n"@ =~= seq!['\n']);
            assert(rest.len() > chars_per_line);
            assert(wrap_spec(rest, chars_per_line as nat) == rest.take(chars_per_line as int)
                + seq!['\n'] + wrap_spec(rest.skip(chars_per_line as int), chars_per_line as nat));
            assert(rest.skip(chars_per_line as int) =~= value@.skip(start + chars_per_line));
            assert(out@ + wrap_spec(value@.skip(start + chars_per_line), chars_per_line as nat)
                =~= before + wrap_spec(rest, chars_per_line as nat));
        }
        start = start + chars_per_line;
    }
    let last = value.substring_char(start, len);
    let ghost before = out@;
    let out = out.concat(last);
    assert(last@ =~= value@.skip(start as int));
    assert(out@ =~= before + wrap_spec(value@.skip(start as int), chars_per_line as nat));
    out
}

} // verus!
