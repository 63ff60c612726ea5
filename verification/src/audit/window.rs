//! The time window that the Merkle audit tree seals: when a window is
//! over, and the keys under which leaves and sealed roots are stored.
//! The store itself and the clock stay with the caller; every decision
//! here takes the time as a number of microseconds since the epoch.

use vstd::prelude::*;
use crate::decimal::{signed_decimal, signed_decimal_spec};
use crate::text::concat_str;

verus! {

/// The lowercase hexadecimal digit of `d`.
pub open spec fn hex_digit(d: nat) -> char {
    if d < 10 {
        (('0' as nat) + d) as char
    } else {
        (('a' as nat) + (d - 10)) as char
    }
}

/// `bytes` in lowercase hexadecimal, two digits a byte, high digit first.
pub open spec fn hex_spec(bytes: Seq<u8>) -> Seq<char>
    decreases bytes.len(),
{
    if bytes.len() == 0 {
        Seq::empty()
    } else {
        hex_spec(bytes.drop_last()) + seq![
            hex_digit((bytes.last() / 16) as nat),
            hex_digit((bytes.last() % 16) as nat),
        ]
    }
}

/// Calls `hex::encode`. Trusted: the crate's source maps each byte, in
/// order, to its high and then its low nibble through the table
/// `0123456789abcdef`.
#[verifier::external_body]
pub(crate) fn hex_encode(data: &[u8]) -> (s: String)
    ensures
        s@ == hex_spec(data@),
{
    hex::encode(data)
}

/// `a / b` rounded toward zero, as Rust's integer division rounds.
pub open spec fn trunc_div(a: int, b: int) -> int {
    if a >= 0 {
        a / b
    } else {
        -((-a) / b)
    }
}

/// Microseconds in an hour.
pub open spec fn micros_per_hour() -> int {
    3_600_000_000
}

/// Whole hours from `start` to `now` (both in microseconds), as chrono's
/// `num_hours` counts them: rounded toward zero.
pub open spec fn hours_between(start: int, now: int) -> int {
    trunc_div(now - start, micros_per_hour())
}

/// The second in which the microsecond `t` falls, as chrono's `timestamp`
/// gives it: rounded down.
pub open spec fn second_of(t: int) -> int {
    t / 1_000_000
}

/// The state of the audit tree that decides its windows: when the current
/// window began and how long a window lasts.
pub struct TimeWindowedMerkleTree {
    /// Start of the current window, in microseconds since the epoch.
    pub current_window_start: i64,
    /// Length of a window, in hours.
    pub window_duration_hours: i64,
}

impl TimeWindowedMerkleTree {
    /// A tree whose first window starts at `now` and lasts a day.
    pub fn new(now: i64) -> (t: TimeWindowedMerkleTree)
        ensures
            t.current_window_start == now,
            t.window_duration_hours == 24,
    {
        TimeWindowedMerkleTree { current_window_start: now, window_duration_hours: 24 }
    }

    /// Whether an event that arrives at `now` must first seal the current
    /// window: when at least a window's length of whole hours has passed.
    pub fn needs_rotation(&self, now: i64) -> (b: bool)
        ensures
            b == (hours_between(self.current_window_start as int, now as int)
                >= self.window_duration_hours),
    {
        let elapsed: i128 = now as i128 - self.current_window_start as i128;
        let hours: i128 = if elapsed >= 0 {
            elapsed / 3_600_000_000
        } else {
            -((-elapsed) / 3_600_000_000)
        };
        hours >= self.window_duration_hours as i128
    }

    /// Opens a new window at `now`, after the current one was sealed.
    pub fn start_new_window(&mut self, now: i64)
        ensures
            final(self).current_window_start == now,
            final(self).window_duration_hours == old(self).window_duration_hours,
    {
        self.current_window_start = now;
    }

    /// The key under which the current window's root is kept once sealed:
    /// `window:` and the second in which the window began.
    pub fn window_key(&self) -> (k: String)
        ensures
            k@ == "window:"@ + signed_decimal_spec(second_of(self.current_window_start as int)),
    {
        let t = self.current_window_start;
        let secs: i64 = if t >= 0 {
            t / 1_000_000
        } else {
            -(((-(t + 1)) / 1_000_000) + 1)
        };
        proof {
            assert(secs == second_of(t as int)) by (nonlinear_arith)
                requires
                    t >= 0 ==> secs == t / 1_000_000,
                    t < 0 ==> secs == -(((-(t + 1)) / 1_000_000) + 1),
            {
            }
        }
        let digits = signed_decimal(secs);
        proof {
            reveal_strlit("window:");
        }
        concat_str("window:", digits.as_str())
    }

    /// The key of a leaf inserted at `timestamp` (microseconds) whose hash
    /// is `hash`: `leaf:`, the timestamp, `:` and the first four bytes of
    /// the hash in hexadecimal, so that keys sort by time.
    pub fn leaf_key(timestamp: i64, hash: &[u8]) -> (k: String)
        requires
            hash@.len() >= 4,
        ensures
            k@ == "leaf:"@ + signed_decimal_spec(timestamp as int) + ":"@ + hex_spec(
                hash@.take(4),
            ),
    {
        let head = hash_prefix(hash);
        let hx = hex_encode(head.as_slice());
        let ts = signed_decimal(timestamp);
        let a = concat_str("leaf:", ts.as_str());
        let b = concat_str(a.as_str(), ":");
        let k = concat_str(b.as_str(), hx.as_str());
        proof {
            reveal_strlit("leaf:");
            reveal_strlit(":");
            assert(k@ =~= "leaf:"@ + signed_decimal_spec(timestamp as int) + ":"@ + hex_spec(
                hash@.take(4),
            ));
        }
        k
    }
}

/// The first four bytes of `hash`.
fn hash_prefix(hash: &[u8]) -> (v: Vec<u8>)
    requires
        hash@.len() >= 4,
    ensures
        v@ == hash@.take(4),
{
    let mut v: Vec<u8> = Vec::new();
    let mut i: usize = 0;
    while i < 4
        invariant
            i <= 4,
            hash@.len() >= 4,
            v@ == hash@.take(i as int),
        decreases 4 - i,
    {
        v.push(hash[i]);
        i = i + 1;
        assert(v@ =~= hash@.take(i as int));
    }
    v
}

/// A window is never due at the instant it was opened, and once due it
/// stays due as time goes on: whole hours elapsed never fall as `now`
/// grows.
pub proof fn lemma_rotation_is_monotone(start: i64, hours: i64, now1: i64, now2: i64)
    requires
        hours >= 1,
        now1 <= now2,
    ensures
        !(hours_between(start as int, start as int) >= hours),
        hours_between(start as int, now1 as int) >= hours ==> hours_between(
            start as int,
            now2 as int,
        ) >= hours,
{
    let a = now1 - start;
    let b = now2 - start;
    let h = micros_per_hour();
    assert(trunc_div(0, h) == 0);
    if a >= 0 {
        assert(a / h <= b / h) by (nonlinear_arith)
            requires
                0 <= a <= b,
                h > 0,
        ;
    } else if b >= 0 {
        assert(trunc_div(a, h) <= 0) by (nonlinear_arith)
            requires
                a < 0,
                h > 0,
                trunc_div(a, h) == -((-a) / h),
        ;
    } else {
        assert((-b) / h <= (-a) / h) by (nonlinear_arith)
            requires
                0 < -b <= -a,
                h > 0,
        ;
    }
}

} // verus!
