//! The rows of the viewer's list of current events: the non-empty lines
//! of the current window's text with at least four fields, each with the
//! event id it starts with, whether it is the selected event, and what its
//! last check found.

use vstd::prelude::*;
use crate::audit::viewer_state::{verified_view, AuditViewerState};
use crate::text::{chars_of, str_eq};

verus! {

/// Name for what `char::is_whitespace` says of `c`: whether `c` has
/// Unicode's White_Space property.
pub uninterp spec fn white_space(c: char) -> bool;

/// Calls `char::is_whitespace`. Trusted: the result is the White_Space
/// property of `c`, a function of `c` alone; std's documentation shows it
/// holds of a space, a line feed and a no-break space.
#[verifier::external_body]
fn is_whitespace(c: char) -> (r: bool)
    ensures
        r == white_space(c),
        c == ' ' || c == '\n' || c == '\u{A0}' ==> r,
{
    c.is_whitespace()
}

/// `c` without a last carriage return.
pub open spec fn strip_cr(c: Seq<char>) -> Seq<char> {
    if c.len() > 0 && c.last() == '\r' {
        c.drop_last()
    } else {
        c
    }
}

/// The lines ended so far in `s`, and the line still open.
pub open spec fn line_split(s: Seq<char>) -> (Seq<Seq<char>>, Seq<char>)
    decreases s.len(),
{
    if s.len() == 0 {
        (seq![], seq![])
    } else {
        let (done, open) = line_split(s.drop_last());
        if s.last() == '\n' {
            (done.push(strip_cr(open)), seq![])
        } else {
            (done, open.push(s.last()))
        }
    }
}

/// The lines of `s`, as `str::lines` gives them: split at each line feed,
/// a carriage return just before a line feed dropped, and no empty line
/// after a last line feed.
pub open spec fn lines_of(s: Seq<char>) -> Seq<Seq<char>> {
    let (done, open) = line_split(s);
    if open.len() > 0 {
        done.push(open)
    } else {
        done
    }
}

/// The fields ended so far in `s`, and the field still open.
pub open spec fn field_split(s: Seq<char>) -> (Seq<Seq<char>>, Seq<char>)
    decreases s.len(),
{
    if s.len() == 0 {
        (seq![], seq![])
    } else {
        let (done, open) = field_split(s.drop_last());
        if white_space(s.last()) {
            if open.len() > 0 {
                (done.push(open), seq![])
            } else {
                (done, seq![])
            }
        } else {
            (done, open.push(s.last()))
        }
    }
}

/// The fields of `s`, as `str::split_whitespace` gives them: the maximal
/// runs of characters that are not white space.
pub open spec fn fields_of(s: Seq<char>) -> Seq<Seq<char>> {
    let (done, open) = field_split(s);
    if open.len() > 0 {
        done.push(open)
    } else {
        done
    }
}

/// The characters of each string.
pub open spec fn texts(v: Seq<String>) -> Seq<Seq<char>> {
    v.map_values(|s: String| s@)
}

/// The lines of `text`.
pub fn split_lines(text: &str) -> (r: Vec<String>)
    ensures
        texts(r@) == lines_of(text@),
{
    let v = chars_of(text);
    let ghost s = text@;
    let n = v.len();
    let mut r: Vec<String> = Vec::new();
    let mut start: usize = 0;
    let mut i: usize = 0;
    while i < n
        invariant
            v@ == s,
            s == text@,
            n == s.len(),
            start <= i <= n,
            line_split(s.take(i as int)) == (texts(r@), s.subrange(start as int, i as int)),
        decreases n - i,
    {
        proof {
            assert(s.take(i + 1).drop_last() =~= s.take(i as int));
            assert(s.take(i + 1).last() == s[i as int]);
        }
        if v[i] == '\n' {
            let ghost open = s.subrange(start as int, i as int);
            let end = if i > start && v[i - 1] == '\r' {
                i - 1
            } else {
                i
            };
            let line = text.substring_char(start, end).to_owned();
            proof {
                if i > start && s[i - 1] == '\r' {
                    assert(open.drop_last() =~= s.subrange(start as int, end as int));
                } else {
                    assert(open =~= s.subrange(start as int, end as int));
                }
            }
            let ghost before = r@;
            r.push(line);
            assert(texts(r@) =~= texts(before).push(strip_cr(open)));
            start = i + 1;
            assert(s.subrange(start as int, i + 1) =~= Seq::<char>::empty());
        } else {
            assert(s.subrange(start as int, i + 1) =~= s.subrange(start as int, i as int).push(
                s[i as int],
            ));
        }
        i += 1;
    }
    assert(s.take(n as int) =~= s);
    if start < n {
        let last = text.substring_char(start, n).to_owned();
        let ghost before = r@;
        r.push(last);
        assert(texts(r@) =~= texts(before).push(s.subrange(start as int, n as int)));
    }
    r
}

/// The fields of `line`.
pub fn split_fields(line: &str) -> (r: Vec<String>)
    ensures
        texts(r@) == fields_of(line@),
{
    let v = chars_of(line);
    let ghost s = line@;
    let n = v.len();
    let mut r: Vec<String> = Vec::new();
    let mut start: usize = 0;
    let mut i: usize = 0;
    while i < n
        invariant
            v@ == s,
            s == line@,
            n == s.len(),
            start <= i <= n,
            field_split(s.take(i as int)) == (texts(r@), s.subrange(start as int, i as int)),
        decreases n - i,
    {
        proof {
            assert(s.take(i + 1).drop_last() =~= s.take(i as int));
            assert(s.take(i + 1).last() == s[i as int]);
        }
        if is_whitespace(v[i]) {
            if start < i {
                let field = line.substring_char(start, i).to_owned();
                let ghost before = r@;
                r.push(field);
                assert(texts(r@) =~= texts(before).push(s.subrange(start as int, i as int)));
            }
            start = i + 1;
            assert(s.subrange(start as int, i + 1) =~= Seq::<char>::empty());
        } else {
            assert(s.subrange(start as int, i + 1) =~= s.subrange(start as int, i as int).push(
                s[i as int],
            ));
        }
        i += 1;
    }
    assert(s.take(n as int) =~= s);
    if start < n {
        let last = line.substring_char(start, n).to_owned();
        let ghost before = r@;
        r.push(last);
        assert(texts(r@) =~= texts(before).push(s.subrange(start as int, n as int)));
    }
    r
}

/// Whether a line is listed: it is not empty and has at least four fields.
pub open spec fn is_listed(line: Seq<char>) -> bool {
    line.len() > 0 && fields_of(line).len() >= 4
}

/// The listed lines among `lines`, in order.
pub open spec fn listed_lines(lines: Seq<Seq<char>>) -> Seq<Seq<char>>
    decreases lines.len(),
{
    if lines.len() == 0 {
        seq![]
    } else if is_listed(lines.last()) {
        listed_lines(lines.drop_last()).push(lines.last())
    } else {
        listed_lines(lines.drop_last())
    }
}

/// One row of the list of current events.
pub struct EventRow {
    /// The event id: the line's first field.
    pub id: String,
    /// The line as it is shown.
    pub line: String,
    /// Whether the event is the selected one.
    pub selected: bool,
    /// What the last check of the event found, if it was checked.
    pub verified: Option<bool>,
}

/// What the checks in `checks` found of the event `id`.
pub open spec fn check_status(checks: Seq<(String, bool)>, id: Seq<char>) -> Option<bool> {
    if verified_view(checks).contains_key(id) {
        Some(verified_view(checks)[id])
    } else {
        None
    }
}

/// Checks after the first `j` that concern other events leave what the
/// first `j` found of `id`.
proof fn lemma_check_status_prefix(checks: Seq<(String, bool)>, j: int, id: Seq<char>)
    requires
        0 <= j <= checks.len(),
        forall|m: int| j <= m < checks.len() ==> (#[trigger] checks[m]).0@ != id,
    ensures
        check_status(checks, id) == check_status(checks.take(j), id),
    decreases checks.len() - j,
{
    if j < checks.len() {
        let t = checks.drop_last();
        assert forall|m: int| j <= m < t.len() implies (#[trigger] t[m]).0@ != id by {
            assert(t[m] == checks[m]);
        }
        lemma_check_status_prefix(t, j, id);
        assert(t.take(j) =~= checks.take(j));
    } else {
        assert(checks.take(j) =~= checks);
    }
}

/// What the checks found of the event `id`.
fn status_of(checks: &Vec<(String, bool)>, id: &str) -> (r: Option<bool>)
    ensures
        r == check_status(checks@, id@),
{
    let n = checks.len();
    let mut j = n;
    while j > 0 && !str_eq(checks[j - 1].0.as_str(), id)
        invariant
            j <= n,
            n == checks@.len(),
            forall|m: int| j <= m < n ==> (#[trigger] checks@[m]).0@ != id@,
        decreases j,
    {
        j = j - 1;
    }
    proof {
        lemma_check_status_prefix(checks@, j as int, id@);
    }
    if j > 0 {
        proof {
            assert(checks@.take(j as int).drop_last() =~= checks@.take(j - 1));
            assert(checks@.take(j as int).last() == checks@[j - 1]);
        }
        Some(checks[j - 1].1)
    } else {
        assert(verified_view(checks@.take(0)) =~= Map::<Seq<char>, bool>::empty());
        None
    }
}

impl AuditViewerState {
    /// The rows of the list of current events: each non-empty line of the
    /// current window's text that has at least four fields, in order, with
    /// its first field as the event id, whether that event is selected, and
    /// what its last check found.
    pub fn event_rows(&self) -> (r: Vec<EventRow>)
        ensures
            r@.len() == listed_lines(lines_of(self.current_events@)).len(),
            forall|i: int|
                0 <= i < r@.len() ==> {
                    let line = listed_lines(lines_of(self.current_events@))[i];
                    &&& (#[trigger] r@[i]).line@ == line
                    &&& r@[i].id@ == fields_of(line)[0]
                    &&& r@[i].selected == (self.selected_event matches Some(e) && e@ == r@[i].id@)
                    &&& r@[i].verified == check_status(self.verified_events@, r@[i].id@)
                },
    {
        let lines = split_lines(self.current_events.as_str());
        let ghost ls = texts(lines@);
        let mut r: Vec<EventRow> = Vec::new();
        let mut i: usize = 0;
        while i < lines.len()
            invariant
                i <= lines.len(),
                ls == texts(lines@),
                ls == lines_of(self.current_events@),
                r@.len() == listed_lines(ls.take(i as int)).len(),
                forall|k: int|
                    0 <= k < r@.len() ==> {
                        let line = listed_lines(ls.take(i as int))[k];
                        &&& (#[trigger] r@[k]).line@ == line
                        &&& r@[k].id@ == fields_of(line)[0]
                        &&& r@[k].selected == (self.selected_event matches Some(e) && e@
                            == r@[k].id@)
                        &&& r@[k].verified == check_status(self.verified_events@, r@[k].id@)
                    },
            decreases lines.len() - i,
        {
            let line = &lines[i];
            proof {
                assert(ls.take(i + 1).drop_last() =~= ls.take(i as int));
                assert(ls.take(i + 1).last() == line@);
            }
            let fields = split_fields(line.as_str());
            if line.unicode_len() > 0 && fields.len() >= 4 {
                let id = fields[0].clone();
                assert(id@ == fields_of(line@)[0]);
                let selected = match &self.selected_event {
                    Some(e) => str_eq(e.as_str(), id.as_str()),
                    None => false,
                };
                let verified = status_of(&self.verified_events, id.as_str());
                let ghost before = r@;
                r.push(EventRow { id, line: line.clone(), selected, verified });
                proof {
                    assert forall|k: int| 0 <= k < r@.len() implies {
                        let l = listed_lines(ls.take(i + 1))[k];
                        &&& (#[trigger] r@[k]).line@ == l
                        &&& r@[k].id@ == fields_of(l)[0]
                        &&& r@[k].selected == (self.selected_event matches Some(e) && e@
                            == r@[k].id@)
                        &&& r@[k].verified == check_status(self.verified_events@, r@[k].id@)
                    } by {
                        if k < before.len() {
                            assert(r@[k] == before[k]);
                        }
                    }
                }
            }
            i += 1;
        }
        assert(ls.take(lines.len() as int) =~= ls);
        r
    }
}

} // verus!
