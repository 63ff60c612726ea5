//! The audit log viewer's state and how it answers each event: which read
//! of the audit store it asks for, and what it keeps of each outcome. The
//! caller opens the store, reads it, and hands each outcome back.

use vstd::prelude::*;
use crate::decimal::{signed_decimal, signed_decimal_spec};
use crate::text::concat_str;

verus! {

/// Which event was last checked, and whether it could be: later entries
/// override earlier ones for the same event.
pub open spec fn verified_view(s: Seq<(String, bool)>) -> Map<Seq<char>, bool>
    decreases s.len(),
{
    if s.len() == 0 {
        Map::empty()
    } else {
        verified_view(s.drop_last()).insert(s.last().0@, s.last().1)
    }
}

proof fn lemma_verified_replace(s: Seq<(String, bool)>, i: int, e: (String, bool))
    requires
        0 <= i < s.len(),
        s[i].0@ == e.0@,
        forall|j: int| i < j < s.len() ==> (#[trigger] s[j]).0@ != e.0@,
    ensures
        verified_view(s.update(i, e)) == verified_view(s).insert(e.0@, e.1),
    decreases s.len(),
{
    let u = s.update(i, e);
    if i == s.len() - 1 {
        assert(u.drop_last() =~= s.drop_last());
        assert(verified_view(u) =~= verified_view(s).insert(e.0@, e.1));
    } else {
        let t = s.drop_last();
        assert forall|j: int| i < j < t.len() implies (#[trigger] t[j]).0@ != e.0@ by {
            assert(t[j] == s[j]);
        }
        lemma_verified_replace(t, i, e);
        assert(u.drop_last() =~= t.update(i, e));
        assert(u.last() == s.last());
        assert(s.last().0@ != e.0@);
        assert(verified_view(u) =~= verified_view(s).insert(e.0@, e.1));
    }
}

/// The key under which the window that began at second `secs` is sealed.
pub fn window_key_for(secs: i64) -> (k: String)
    ensures
        k@ == "window:"@ + signed_decimal_spec(secs as int),
{
    let d = signed_decimal(secs);
    concat_str("window:", d.as_str())
}

/// The viewer's state.
pub struct AuditViewerState {
    /// The events of the current window, one line each.
    pub current_events: String,
    /// The sealed windows, one line each.
    pub historical_roots: String,
    pub error_message: Option<String>,
    pub selected_window: Option<i64>,
    pub window_events: Option<String>,
    pub proof_status: Option<bool>,
    pub consistency_status: Option<bool>,
    pub audit_trail_status: Option<bool>,
    pub selected_event: Option<String>,
    pub verified_events: Vec<(String, bool)>,
    pub db_path_input: String,
}

/// What happens to the viewer.
pub enum AuditViewerEvent {
    Refresh,
    SelectWindow(i64),
    VerifyProof(String),
    VerifyConsistency,
    VerifyAuditTrail(String),
    SelectEvent(String),
    EventVerified(String, bool),
    SetDBPath(String),
    OpenDB,
}

/// The read of the audit store the viewer asks for.
pub enum AuditViewerAction {
    Nothing,
    /// Read the current window's events and the sealed windows from the
    /// store at `path`; hand the outcome to `audit_data_loaded`.
    LoadAuditData { path: String },
    /// Read the sealed window under `key`; hand the outcome to
    /// `window_loaded`.
    LoadWindow { path: String, key: String, secs: i64 },
    /// Look up the event listed as `entry` among the current window's
    /// leaves; hand the outcome to `proof_checked`.
    CheckProof { path: String, entry: String },
    /// Check that no two consecutive sealed roots are equal; hand the
    /// outcome to `consistency_checked`.
    CheckConsistency { path: String },
    /// Look up the event listed as `entry`; hand whether the lookup went
    /// through to `record_verified`.
    CheckEvent { path: String, entry: String },
}

impl AuditViewerState {
    /// A viewer with nothing loaded, reading the store at `path`.
    pub fn new(path: String) -> (s: AuditViewerState)
        ensures
            s.current_events@ == Seq::<char>::empty(),
            s.historical_roots@ == Seq::<char>::empty(),
            s.error_message is None,
            s.selected_window is None,
            s.window_events is None,
            s.proof_status is None,
            s.consistency_status is None,
            s.audit_trail_status is None,
            s.selected_event is None,
            verified_view(s.verified_events@) == Map::<Seq<char>, bool>::empty(),
            s.db_path_input == path,
    {
        AuditViewerState {
            current_events: String::new(),
            historical_roots: String::new(),
            error_message: None,
            selected_window: None,
            window_events: None,
            proof_status: None,
            consistency_status: None,
            audit_trail_status: None,
            selected_event: None,
            verified_events: Vec::new(),
            db_path_input: path,
        }
    }

    /// Answers `event` and says what to read next.
    pub fn update(&mut self, event: AuditViewerEvent) -> (a: AuditViewerAction)
        ensures
            final(self).db_path_input == (match event {
                AuditViewerEvent::SetDBPath(p) => p,
                _ => old(self).db_path_input,
            }),
            final(self).selected_window == old(self).selected_window,
            final(self).window_events == old(self).window_events,
            final(self).proof_status == old(self).proof_status,
            final(self).consistency_status == old(self).consistency_status,
            match event {
                AuditViewerEvent::EventVerified(e, ok) => verified_view(
                    final(self).verified_events@,
                ) == verified_view(old(self).verified_events@).insert(e@, ok),
                _ => final(self).verified_events == old(self).verified_events,
            },
            match event {
                AuditViewerEvent::Refresh => {
                    &&& final(self).current_events@ == Seq::<char>::empty()
                    &&& final(self).historical_roots@ == Seq::<char>::empty()
                    &&& final(self).error_message is None
                    &&& final(self).audit_trail_status == old(self).audit_trail_status
                    &&& final(self).selected_event == old(self).selected_event
                    &&& a matches AuditViewerAction::LoadAuditData { path } && path@
                        == old(self).db_path_input@
                },
                AuditViewerEvent::OpenDB => {
                    &&& final(self).current_events == old(self).current_events
                    &&& final(self).historical_roots == old(self).historical_roots
                    &&& final(self).error_message == old(self).error_message
                    &&& final(self).audit_trail_status == old(self).audit_trail_status
                    &&& final(self).selected_event == old(self).selected_event
                    &&& a matches AuditViewerAction::LoadAuditData { path } && path@
                        == old(self).db_path_input@
                },
                AuditViewerEvent::SelectWindow(secs) => {
                    &&& final(self).current_events == old(self).current_events
                    &&& final(self).historical_roots == old(self).historical_roots
                    &&& final(self).error_message == old(self).error_message
                    &&& final(self).audit_trail_status == old(self).audit_trail_status
                    &&& final(self).selected_event == old(self).selected_event
                    &&& a matches AuditViewerAction::LoadWindow { path, key, secs: s } && path@
                        == old(self).db_path_input@ && key@ == "window:"@ + signed_decimal_spec(
                        secs as int,
                    ) && s == secs
                },
                AuditViewerEvent::VerifyProof(entry) => {
                    &&& final(self).current_events == old(self).current_events
                    &&& final(self).historical_roots == old(self).historical_roots
                    &&& final(self).error_message == old(self).error_message
                    &&& final(self).audit_trail_status == old(self).audit_trail_status
                    &&& final(self).selected_event == old(self).selected_event
                    &&& a matches AuditViewerAction::CheckProof { path, entry: e } && path@
                        == old(self).db_path_input@ && e == entry
                },
                AuditViewerEvent::VerifyConsistency => {
                    &&& final(self).current_events == old(self).current_events
                    &&& final(self).historical_roots == old(self).historical_roots
                    &&& final(self).error_message == old(self).error_message
                    &&& final(self).audit_trail_status == old(self).audit_trail_status
                    &&& final(self).selected_event == old(self).selected_event
                    &&& a matches AuditViewerAction::CheckConsistency { path } && path@
                        == old(self).db_path_input@
                },
                AuditViewerEvent::VerifyAuditTrail(_) => {
                    &&& final(self).current_events == old(self).current_events
                    &&& final(self).historical_roots == old(self).historical_roots
                    &&& final(self).error_message is None
                    &&& final(self).audit_trail_status == Some(true)
                    &&& final(self).selected_event == old(self).selected_event
                    &&& a is Nothing
                },
                AuditViewerEvent::SelectEvent(entry) => {
                    &&& final(self).current_events == old(self).current_events
                    &&& final(self).historical_roots == old(self).historical_roots
                    &&& final(self).error_message == old(self).error_message
                    &&& final(self).audit_trail_status == old(self).audit_trail_status
                    &&& final(self).selected_event matches Some(s) && s@ == entry@
                    &&& a matches AuditViewerAction::CheckEvent { path, entry: e } && path@
                        == old(self).db_path_input@ && e == entry
                },
                _ => {
                    &&& final(self).current_events == old(self).current_events
                    &&& final(self).historical_roots == old(self).historical_roots
                    &&& final(self).error_message == old(self).error_message
                    &&& final(self).audit_trail_status == old(self).audit_trail_status
                    &&& final(self).selected_event == old(self).selected_event
                    &&& a is Nothing
                },
            },
    {
        match event {
            AuditViewerEvent::Refresh => {
                self.current_events = String::new();
                self.historical_roots = String::new();
                self.error_message = None;
                AuditViewerAction::LoadAuditData { path: self.db_path_input.clone() }
            },
            AuditViewerEvent::OpenDB => {
                AuditViewerAction::LoadAuditData { path: self.db_path_input.clone() }
            },
            AuditViewerEvent::SelectWindow(secs) => {
                AuditViewerAction::LoadWindow {
                    path: self.db_path_input.clone(),
                    key: window_key_for(secs),
                    secs,
                }
            },
            AuditViewerEvent::VerifyProof(entry) => {
                AuditViewerAction::CheckProof { path: self.db_path_input.clone(), entry }
            },
            AuditViewerEvent::VerifyConsistency => {
                AuditViewerAction::CheckConsistency { path: self.db_path_input.clone() }
            },
            AuditViewerEvent::VerifyAuditTrail(_) => {
                self.audit_trail_status = Some(true);
                self.error_message = None;
                AuditViewerAction::Nothing
            },
            AuditViewerEvent::SelectEvent(entry) => {
                self.selected_event = Some(entry.clone());
                AuditViewerAction::CheckEvent { path: self.db_path_input.clone(), entry }
            },
            AuditViewerEvent::EventVerified(entry, ok) => {
                self.record_verified(entry, ok);
                AuditViewerAction::Nothing
            },
            AuditViewerEvent::SetDBPath(p) => {
                self.db_path_input = p;
                AuditViewerAction::Nothing
            },
        }
    }

    /// Takes what a load of the audit store gave: the current window's
    /// text once it was read, the sealed windows' text once they were
    /// read, and the error that stopped the load, if one did.
    pub fn audit_data_loaded(
        &mut self,
        current: Option<String>,
        roots: Option<String>,
        error: Option<String>,
    )
        ensures
            final(self).current_events == (match current {
                Some(c) => c,
                None => old(self).current_events,
            }),
            final(self).historical_roots == (match roots {
                Some(r) => r,
                None => old(self).historical_roots,
            }),
            final(self).error_message == (match error {
                Some(e) => Some(e),
                None => old(self).error_message,
            }),
            final(self).selected_window == old(self).selected_window,
            final(self).window_events == old(self).window_events,
            final(self).proof_status == old(self).proof_status,
            final(self).consistency_status == old(self).consistency_status,
            final(self).audit_trail_status == old(self).audit_trail_status,
            final(self).selected_event == old(self).selected_event,
            final(self).verified_events == old(self).verified_events,
            final(self).db_path_input == old(self).db_path_input,
    {
        match current {
            Some(c) => {
                self.current_events = c;
            },
            None => {},
        }
        match roots {
            Some(r) => {
                self.historical_roots = r;
            },
            None => {},
        }
        match error {
            Some(e) => {
                self.error_message = Some(e);
            },
            None => {},
        }
    }

    /// Takes what reading the window that began at `secs` gave: its events'
    /// text when the window is sealed, nothing when it is not, or the error
    /// that stopped the read. The window counts as selected unless the read
    /// failed.
    pub fn window_loaded(&mut self, secs: i64, r: Result<Option<String>, String>)
        ensures
            match r {
                Err(e) => {
                    &&& final(self).error_message == Some(e)
                    &&& final(self).selected_window == old(self).selected_window
                    &&& final(self).window_events == old(self).window_events
                },
                Ok(w) => {
                    &&& final(self).error_message == old(self).error_message
                    &&& final(self).selected_window == Some(secs)
                    &&& final(self).window_events == (match w {
                        Some(t) => Some(t),
                        None => old(self).window_events,
                    })
                },
            },
            final(self).current_events == old(self).current_events,
            final(self).historical_roots == old(self).historical_roots,
            final(self).proof_status == old(self).proof_status,
            final(self).consistency_status == old(self).consistency_status,
            final(self).audit_trail_status == old(self).audit_trail_status,
            final(self).selected_event == old(self).selected_event,
            final(self).verified_events == old(self).verified_events,
            final(self).db_path_input == old(self).db_path_input,
    {
        match r {
            Err(e) => {
                self.error_message = Some(e);
            },
            Ok(w) => {
                match w {
                    Some(t) => {
                        self.window_events = Some(t);
                    },
                    None => {},
                }
                self.selected_window = Some(secs);
            },
        }
    }

    /// Takes the outcome of looking an event up: whether it was found, or
    /// the error that stopped the lookup, reported as a failed
    /// verification.
    pub fn proof_checked(&mut self, r: Result<bool, String>)
        ensures
            match r {
                Ok(b) => final(self).proof_status == Some(b) && final(self).error_message is None,
                Err(e) => {
                    &&& final(self).proof_status == old(self).proof_status
                    &&& final(self).error_message matches Some(m) && m@
                        == "Proof verification failed: "@ + e@
                },
            },
            final(self).current_events == old(self).current_events,
            final(self).historical_roots == old(self).historical_roots,
            final(self).selected_window == old(self).selected_window,
            final(self).window_events == old(self).window_events,
            final(self).consistency_status == old(self).consistency_status,
            final(self).audit_trail_status == old(self).audit_trail_status,
            final(self).selected_event == old(self).selected_event,
            final(self).verified_events == old(self).verified_events,
            final(self).db_path_input == old(self).db_path_input,
    {
        match r {
            Ok(b) => {
                self.proof_status = Some(b);
                self.error_message = None;
            },
            Err(e) => {
                self.error_message = Some(concat_str("Proof verification failed: ", e.as_str()));
            },
        }
    }

    /// Takes the outcome of the consistency check of the sealed roots, or
    /// the error that stopped it, reported as a failed verification.
    pub fn consistency_checked(&mut self, r: Result<bool, String>)
        ensures
            match r {
                Ok(b) => final(self).consistency_status == Some(b) && final(self).error_message
                    is None,
                Err(e) => {
                    &&& final(self).consistency_status == old(self).consistency_status
                    &&& final(self).error_message matches Some(m) && m@
                        == "Consistency verification failed: "@ + e@
                },
            },
            final(self).current_events == old(self).current_events,
            final(self).historical_roots == old(self).historical_roots,
            final(self).selected_window == old(self).selected_window,
            final(self).window_events == old(self).window_events,
            final(self).proof_status == old(self).proof_status,
            final(self).audit_trail_status == old(self).audit_trail_status,
            final(self).selected_event == old(self).selected_event,
            final(self).verified_events == old(self).verified_events,
            final(self).db_path_input == old(self).db_path_input,
    {
        match r {
            Ok(b) => {
                self.consistency_status = Some(b);
                self.error_message = None;
            },
            Err(e) => {
                self.error_message = Some(
                    concat_str("Consistency verification failed: ", e.as_str()),
                );
            },
        }
    }

    /// Records whether the event listed as `entry` could be checked,
    /// replacing what was recorded for it before.
    pub fn record_verified(&mut self, entry: String, ok: bool)
        ensures
            verified_view(final(self).verified_events@) == verified_view(
                old(self).verified_events@,
            ).insert(entry@, ok),
            final(self).current_events == old(self).current_events,
            final(self).historical_roots == old(self).historical_roots,
            final(self).error_message == old(self).error_message,
            final(self).selected_window == old(self).selected_window,
            final(self).window_events == old(self).window_events,
            final(self).proof_status == old(self).proof_status,
            final(self).consistency_status == old(self).consistency_status,
            final(self).audit_trail_status == old(self).audit_trail_status,
            final(self).selected_event == old(self).selected_event,
            final(self).db_path_input == old(self).db_path_input,
    {
        let n = self.verified_events.len();
        let mut i = n;
        while i > 0 && !crate::text::str_eq(self.verified_events[i - 1].0.as_str(), entry.as_str())
            invariant
                i <= n,
                n == self.verified_events@.len(),
                forall|j: int| i <= j < n ==> (#[trigger] self.verified_events@[j]).0@ != entry@,
            decreases i,
        {
            i = i - 1;
        }
        let ghost before = self.verified_events@;
        if i > 0 {
            proof {
                lemma_verified_replace(before, i - 1, (entry, ok));
            }
            self.verified_events.set(i - 1, (entry, ok));
        } else {
            self.verified_events.push((entry, ok));
            assert(self.verified_events@.drop_last() =~= before);
        }
    }
}

} // verus!
