//! The key-value store explorer: which keys it lists under a filter, and
//! how it answers each event. Opening the store and reading from it is the
//! caller's work; the explorer says what to read and takes back what was
//! read.

use vstd::prelude::*;
use vstd::utf8::{decode_utf8, valid_utf8};
use crate::display::{lowercase, lowercase_text};
use crate::text::{contains_str, find_from, string_from_utf8, utf8_error_text};
use crate::xdr::push_bytes;

verus! {

/// Whether the key `key` is listed under the filter `filter`: always when
/// the filter is empty, else when the key in small letters contains the
/// filter in small letters.
pub open spec fn matches_filter(key: Seq<char>, filter: Seq<char>) -> bool {
    filter.len() == 0 || find_from(lowercase(key), lowercase(filter), 0) >= 0
}

/// Whether `key` is listed under `filter`.
pub fn key_matches_filter(key: &str, filter: &str) -> (b: bool)
    ensures
        b == matches_filter(key@, filter@),
{
    if filter.unicode_len() == 0 {
        return true;
    }
    let k = lowercase_text(key);
    let f = lowercase_text(filter);
    contains_str(k.as_str(), f.as_str())
}

/// The keys of `raw`, read as text, that the filter lets through, in
/// order; `None` when some key is not valid UTF-8.
pub open spec fn listed_keys(raw: Seq<Seq<u8>>, filter: Seq<char>) -> Option<Seq<Seq<char>>>
    decreases raw.len(),
{
    if raw.len() == 0 {
        Some(Seq::empty())
    } else {
        match listed_keys(raw.drop_last(), filter) {
            None => None,
            Some(ks) => if !valid_utf8(raw.last()) {
                None
            } else if matches_filter(decode_utf8(raw.last()), filter) {
                Some(ks.push(decode_utf8(raw.last())))
            } else {
                Some(ks)
            },
        }
    }
}

/// The characters of each string.
pub open spec fn texts(v: Seq<String>) -> Seq<Seq<char>> {
    v.map_values(|s: String| s@)
}

/// The keys listed under `filter`, from the raw keys in the store's order;
/// at the first key that is not UTF-8, the text of that error.
pub fn filter_keys(raw: &Vec<Vec<u8>>, filter: &str) -> (r: Result<Vec<String>, String>)
    ensures
        r is Err <==> listed_keys(raw@.map_values(|k: Vec<u8>| k@), filter@) is None,
        r matches Ok(ks) ==> Some(texts(ks@)) == listed_keys(
            raw@.map_values(|k: Vec<u8>| k@),
            filter@,
        ),
{
    let ghost all = raw@.map_values(|k: Vec<u8>| k@);
    let mut out: Vec<String> = Vec::new();
    let mut i: usize = 0;
    while i < raw.len()
        invariant
            all == raw@.map_values(|k: Vec<u8>| k@),
            i <= raw@.len(),
            listed_keys(all.take(i as int), filter@) == Some(texts(out@)),
        decreases raw@.len() - i,
    {
        let mut key: Vec<u8> = Vec::new();
        push_bytes(&mut key, raw[i].as_slice());
        let ghost pre = all.take(i as int);
        let ghost next = all.take(i + 1);
        assert(next.drop_last() =~= pre);
        assert(next.last() == key@);
        match string_from_utf8(key) {
            Err(e) => {
                proof {
                    lemma_listed_none_extends(all, filter@, i as int + 1);
                }
                return Err(utf8_error_text(&e));
            },
            Ok(s) => {
                if key_matches_filter(s.as_str(), filter) {
                    let ghost before = out@;
                    out.push(s);
                    assert(texts(out@) =~= texts(before).push(out@.last()@));
                }
            },
        }
        i = i + 1;
    }
    assert(all.take(raw@.len() as int) =~= all);
    Ok(out)
}

/// Once a prefix of the keys fails to read, every longer prefix does.
proof fn lemma_listed_none_extends(all: Seq<Seq<u8>>, filter: Seq<char>, k: int)
    requires
        0 <= k <= all.len(),
        listed_keys(all.take(k), filter) is None,
    ensures
        listed_keys(all, filter) is None,
    decreases all.len() - k,
{
    if k < all.len() {
        let next = all.take(k + 1);
        assert(next.drop_last() =~= all.take(k));
        lemma_listed_none_extends(all, filter, k + 1);
    } else {
        assert(all.take(k) =~= all);
    }
}

/// The explorer's state.
pub struct DBExplorerState {
    /// The store that was last opened.
    pub db_path: String,
    /// The path typed in the path field.
    pub db_path_input: String,
    pub keys: Vec<String>,
    pub values: Vec<String>,
    pub error_message: Option<String>,
    pub selected_key: Option<String>,
    pub filter_text: String,
}

/// What happens to the explorer.
pub enum DBExplorerEvent {
    OpenDB,
    SetDBPath(String),
    SelectKey(String),
    FilterChanged(String),
    Refresh,
}

/// The reading the explorer asks for after an event.
pub enum DBExplorerAction {
    Nothing,
    /// Open the store at `path` and read all its keys, in order; hand them
    /// to `keys_read`.
    ReadKeys { path: String },
    /// Read the value of `key` from the store last opened; hand it to
    /// `value_read`.
    ReadValue { key: String },
}

impl DBExplorerState {
    /// An explorer that will open the store at `default_path`.
    pub fn new(default_path: String) -> (s: DBExplorerState)
        ensures
            s.db_path@ == Seq::<char>::empty(),
            s.db_path_input == default_path,
            s.keys@.len() == 0,
            s.values@.len() == 0,
            s.error_message is None,
            s.selected_key is None,
            s.filter_text@ == Seq::<char>::empty(),
    {
        DBExplorerState {
            db_path: String::new(),
            db_path_input: default_path,
            keys: Vec::new(),
            values: Vec::new(),
            error_message: None,
            selected_key: None,
            filter_text: String::new(),
        }
    }

    /// Answers `event` and says what to read next.
    pub fn update(&mut self, event: DBExplorerEvent) -> (a: DBExplorerAction)
        ensures
            match event {
                DBExplorerEvent::OpenDB => {
                    &&& final(self).db_path@ == old(self).db_path_input@
                    &&& final(self).db_path_input == old(self).db_path_input
                    &&& final(self).keys == old(self).keys
                    &&& final(self).values == old(self).values
                    &&& final(self).error_message == old(self).error_message
                    &&& final(self).selected_key == old(self).selected_key
                    &&& final(self).filter_text == old(self).filter_text
                    &&& a matches DBExplorerAction::ReadKeys { path } && path@
                        == old(self).db_path_input@
                },
                DBExplorerEvent::SetDBPath(p) => {
                    &&& final(self).db_path_input == p
                    &&& final(self).db_path == old(self).db_path
                    &&& final(self).keys == old(self).keys
                    &&& final(self).values == old(self).values
                    &&& final(self).error_message == old(self).error_message
                    &&& final(self).selected_key == old(self).selected_key
                    &&& final(self).filter_text == old(self).filter_text
                    &&& a is Nothing
                },
                DBExplorerEvent::SelectKey(k) => {
                    &&& final(self).selected_key matches Some(s) && s@ == k@
                    &&& final(self).values@.len() == 0
                    &&& final(self).db_path == old(self).db_path
                    &&& final(self).db_path_input == old(self).db_path_input
                    &&& final(self).keys == old(self).keys
                    &&& final(self).error_message == old(self).error_message
                    &&& final(self).filter_text == old(self).filter_text
                    &&& a matches DBExplorerAction::ReadValue { key } && key@ == k@
                },
                DBExplorerEvent::FilterChanged(t) => {
                    &&& final(self).filter_text == t
                    &&& final(self).db_path == old(self).db_path
                    &&& final(self).db_path_input == old(self).db_path_input
                    &&& final(self).keys == old(self).keys
                    &&& final(self).values == old(self).values
                    &&& final(self).error_message == old(self).error_message
                    &&& final(self).selected_key == old(self).selected_key
                    &&& a matches DBExplorerAction::ReadKeys { path } && path@
                        == old(self).db_path@
                },
                DBExplorerEvent::Refresh => {
                    &&& final(self).values@.len() == 0
                    &&& final(self).selected_key is None
                    &&& final(self).db_path == old(self).db_path
                    &&& final(self).db_path_input == old(self).db_path_input
                    &&& final(self).keys == old(self).keys
                    &&& final(self).error_message == old(self).error_message
                    &&& final(self).filter_text == old(self).filter_text
                    &&& a matches DBExplorerAction::ReadKeys { path } && path@
                        == old(self).db_path@
                },
            },
    {
        match event {
            DBExplorerEvent::OpenDB => {
                self.db_path = self.db_path_input.clone();
                DBExplorerAction::ReadKeys { path: self.db_path.clone() }
            },
            DBExplorerEvent::SetDBPath(p) => {
                self.db_path_input = p;
                DBExplorerAction::Nothing
            },
            DBExplorerEvent::SelectKey(k) => {
                let key = k.clone();
                self.selected_key = Some(k);
                self.values = Vec::new();
                DBExplorerAction::ReadValue { key }
            },
            DBExplorerEvent::FilterChanged(t) => {
                self.filter_text = t;
                DBExplorerAction::ReadKeys { path: self.db_path.clone() }
            },
            DBExplorerEvent::Refresh => {
                self.values = Vec::new();
                self.selected_key = None;
                DBExplorerAction::ReadKeys { path: self.db_path.clone() }
            },
        }
    }

    /// Takes the keys read from the store, or the text of the error that
    /// opening or reading it gave. The listed keys are replaced and the
    /// error cleared only when every key reads as text.
    pub fn keys_read(&mut self, r: Result<Vec<Vec<u8>>, String>)
        ensures
            match r {
                Err(e) => final(self).error_message == Some(e) && final(self).keys
                    == old(self).keys,
                Ok(raw) => match listed_keys(raw@.map_values(|k: Vec<u8>| k@), old(self).filter_text@) {
                    Some(ks) => texts(final(self).keys@) == ks && final(self).error_message is None,
                    None => final(self).error_message is Some && final(self).keys == old(self).keys,
                },
            },
            final(self).db_path == old(self).db_path,
            final(self).db_path_input == old(self).db_path_input,
            final(self).values == old(self).values,
            final(self).selected_key == old(self).selected_key,
            final(self).filter_text == old(self).filter_text,
    {
        match r {
            Err(e) => {
                self.error_message = Some(e);
            },
            Ok(raw) => {
                match filter_keys(&raw, self.filter_text.as_str()) {
                    Ok(keys) => {
                        self.keys = keys;
                        self.error_message = None;
                    },
                    Err(e) => {
                        self.error_message = Some(e);
                    },
                }
            },
        }
    }

    /// Takes the value read for the selected key: nothing when the key has
    /// no value, the text of the value when it is UTF-8, and otherwise, or
    /// when the read failed, the text of the error.
    pub fn value_read(&mut self, r: Result<Option<Vec<u8>>, String>)
        ensures
            match r {
                Err(e) => final(self).error_message == Some(e) && final(self).values
                    == old(self).values,
                Ok(None) => final(self).values == old(self).values && final(self).error_message
                    == old(self).error_message,
                Ok(Some(v)) => if valid_utf8(v@) {
                    &&& texts(final(self).values@) == texts(old(self).values@).push(decode_utf8(v@))
                    &&& final(self).error_message == old(self).error_message
                } else {
                    final(self).error_message is Some && final(self).values == old(self).values
                },
            },
            final(self).db_path == old(self).db_path,
            final(self).db_path_input == old(self).db_path_input,
            final(self).keys == old(self).keys,
            final(self).selected_key == old(self).selected_key,
            final(self).filter_text == old(self).filter_text,
    {
        match r {
            Err(e) => {
                self.error_message = Some(e);
            },
            Ok(None) => {},
            Ok(Some(bytes)) => {
                match string_from_utf8(bytes) {
                    Ok(s) => {
                        let ghost before = self.values@;
                        self.values.push(s);
                        assert(texts(self.values@) =~= texts(before).push(self.values@.last()@));
                    },
                    Err(e) => {
                        self.error_message = Some(utf8_error_text(&e));
                    },
                }
            },
        }
    }
}

} // verus!
