//! Start-up settings: the store's hash tag for a namespace, the log level
//! named in the configuration, and the score of a mounted directory.

use vstd::prelude::*;
use crate::display::{ascii_lower, ascii_text, lowercase};
use crate::text::{concat_str, str_eq};

verus! {

/// The hash tag that prefixes every key of namespace `ns`: `{ns}:`.
pub open spec fn hash_tag_spec(ns: Seq<char>) -> Seq<char> {
    seq!['{'] + ns + seq!['}', ':']
}

/// The hash tag that prefixes every key of namespace `ns`.
pub fn hash_tag_for(ns: &str) -> (t: String)
    ensures
        t@ == hash_tag_spec(ns@),
{
    proof {
        reveal_strlit("{");
        reveal_strlit("}:");
    }
    let a = concat_str("{", ns);
    let t = a.concat("}:");
    assert(t@ =~= hash_tag_spec(ns@));
    t
}

/// How much the server logs.
#[derive(Debug, Clone, Copy, PartialEq, Eq, Structural)]
pub enum LogLevel {
    Error,
    Warn,
    Info,
    Debug,
    Trace,
}

/// The level named `name` once made small; `Warn` for any other name.
pub open spec fn log_level_spec(lower: Seq<char>) -> LogLevel {
    if lower == "error"@ {
        LogLevel::Error
    } else if lower == "warn"@ {
        LogLevel::Warn
    } else if lower == "info"@ {
        LogLevel::Info
    } else if lower == "debug"@ {
        LogLevel::Debug
    } else if lower == "trace"@ {
        LogLevel::Trace
    } else {
        LogLevel::Warn
    }
}

/// The log level the configuration names; `Warn` when it names none.
pub fn log_level(name: Option<&str>) -> (l: LogLevel)
    ensures
        name is None ==> l == LogLevel::Warn,
        name matches Some(n) ==> l == log_level_spec(lowercase(n@)),
{
    match name {
        None => LogLevel::Warn,
        Some(n) => {
            let lower = crate::display::lowercase_text(n);
            let s = lower.as_str();
            if str_eq(s, "error") {
                LogLevel::Error
            } else if str_eq(s, "warn") {
                LogLevel::Warn
            } else if str_eq(s, "info") {
                LogLevel::Info
            } else if str_eq(s, "debug") {
                LogLevel::Debug
            } else if str_eq(s, "trace") {
                LogLevel::Trace
            } else {
                LogLevel::Warn
            }
        },
    }
}

/// The score of a mounted directory in the node set: 1 for the root, 2
/// for any other mount.
pub fn mount_score(mount_path: &str) -> (s: u64)
    ensures
        s == (if mount_path@ == seq!['/'] {
            1u64
        } else {
            2u64
        }),
{
    proof {
        reveal_strlit("/");
        assert("/"@ =~= seq!['/']);
    }
    if str_eq(mount_path, "/") {
        1
    } else {
        2
    }
}

} // verus!
