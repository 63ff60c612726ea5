use graymamba::audit::event_list::{split_fields, split_lines};
use graymamba::audit::viewer_state::{AuditViewerAction, AuditViewerEvent, AuditViewerState};
use graymamba::audit::viewer::{
    entry_hash, event_entry, event_row, join_texts, newest_first, pad_text, root_entry, root_line,
};
use graymamba::decimal::parse_i64;

fn entries(v: &[(i64, &str)]) -> Vec<(i64, String)> {
    v.iter().map(|(t, s)| (*t, s.to_string())).collect()
}

#[test]
fn padding_to_a_column() {
    assert_eq!(pad_text("ab", 5), "ab   ");
    assert_eq!(pad_text("abcdef", 3), "abcdef");
    assert_eq!(pad_text("äö", 3), "äö ");
}

#[test]
fn event_rows_in_columns() {
    let hash = [0xde, 0xad, 0x0b, 0xef, 0x01];
    let row = event_row(&hash, 1_700_000_000_123_456, "write", "/alice/a.txt").unwrap();
    let expected = format!(
        "{:<12} {:<24} {:<12} {:<40}\n",
        "dead0bef...", "2023-11-14 22:13:20.123 UTC", "WRITE", "/alice/a.txt"
    );
    assert_eq!(row, expected);
    assert!(event_row(&hash, i64::MAX, "write", "/x").is_none());
    assert_eq!(event_entry(&[0xab, 0x01], "row\n"), "ab01|row\n");
}

#[test]
fn sealed_windows_are_listed_by_their_second() {
    let hash = [0x01, 0x02, 0x03, 0x04, 0x05];
    let (secs, text) = root_entry("window:1700000000", &hash, 5).unwrap();
    assert_eq!(secs, 1_700_000_000);
    assert_eq!(text, "Window: 2023-11-14 22:13:20 UTC, Root Hash: 01020304...");
    let (secs, text) = root_entry("bogus", &hash, 0).unwrap();
    assert_eq!(secs, 0);
    assert_eq!(text, "Window: 1970-01-01 00:00:00 UTC, Root Hash: 01020304...");
    let (secs, _) = root_entry("window:99999999999999999", &hash, 60).unwrap();
    assert_eq!(secs, 60);
    assert_eq!(root_line(-3, "t"), "-3|t\n");
}

#[test]
fn newest_first_is_a_stable_sort() {
    let sorted = newest_first(entries(&[(1, "a"), (3, "b"), (1, "c"), (3, "d"), (2, "e")]));
    assert_eq!(sorted, entries(&[(3, "b"), (3, "d"), (2, "e"), (1, "a"), (1, "c")]));
    assert_eq!(join_texts(&sorted), "bdeac");
    assert!(newest_first(Vec::new()).is_empty());
}

#[test]
fn entry_hashes_read_back() {
    assert_eq!(entry_hash("dead0bef|row").ok(), Some(vec![0xde, 0xad, 0x0b, 0xef]));
    assert_eq!(entry_hash("DEAD").ok(), Some(vec![0xde, 0xad]));
    assert_eq!(entry_hash("xy|row").err().unwrap(), "Invalid character 'x' at position 0");
    assert_eq!(entry_hash("abc|").err().unwrap(), "Odd number of digits");
}

#[test]
fn signed_numbers_are_read_like_std() {
    assert_eq!(parse_i64("42"), Some(42));
    assert_eq!(parse_i64("+42"), Some(42));
    assert_eq!(parse_i64("-42"), Some(-42));
    assert_eq!(parse_i64("-9223372036854775808"), Some(i64::MIN));
    assert_eq!(parse_i64("9223372036854775807"), Some(i64::MAX));
    assert_eq!(parse_i64("9223372036854775808"), None);
    assert_eq!(parse_i64("-9223372036854775809"), None);
    assert_eq!(parse_i64("-"), None);
    assert_eq!(parse_i64("-+1"), None);
    assert_eq!(parse_i64(""), None);
    assert_eq!(parse_i64("1a"), None);
}

#[test]
fn viewer_loads_and_selects_windows() {
    let mut v = AuditViewerState::new("../db".to_string());
    match v.update(AuditViewerEvent::Refresh) {
        AuditViewerAction::LoadAuditData { path } => assert_eq!(path, "../db"),
        _ => panic!("a refresh loads the audit data"),
    }
    v.audit_data_loaded(Some("e1\n".to_string()), None, Some("no roots".to_string()));
    assert_eq!(v.current_events, "e1\n");
    assert_eq!(v.historical_roots, "");
    assert_eq!(v.error_message.as_deref(), Some("no roots"));
    match v.update(AuditViewerEvent::SelectWindow(1_700_000_000)) {
        AuditViewerAction::LoadWindow { path, key, secs } => {
            assert_eq!(path, "../db");
            assert_eq!(key, "window:1700000000");
            assert_eq!(secs, 1_700_000_000);
        }
        _ => panic!("selecting a window reads it"),
    }
    v.window_loaded(1_700_000_000, Ok(Some("w\n".to_string())));
    assert_eq!(v.selected_window, Some(1_700_000_000));
    assert_eq!(v.window_events.as_deref(), Some("w\n"));
    v.window_loaded(5, Err("gone".to_string()));
    assert_eq!(v.selected_window, Some(1_700_000_000));
    assert_eq!(v.error_message.as_deref(), Some("gone"));
}

#[test]
fn viewer_reports_verifications() {
    let mut v = AuditViewerState::new("db".to_string());
    assert!(matches!(v.update(AuditViewerEvent::VerifyProof("ab|x".to_string())), AuditViewerAction::CheckProof { .. }));
    v.proof_checked(Err("Odd number of digits".to_string()));
    assert_eq!(v.error_message.as_deref(), Some("Proof verification failed: Odd number of digits"));
    v.proof_checked(Ok(true));
    assert_eq!(v.proof_status, Some(true));
    assert!(v.error_message.is_none());
    assert!(matches!(v.update(AuditViewerEvent::VerifyConsistency), AuditViewerAction::CheckConsistency { .. }));
    v.consistency_checked(Err("closed".to_string()));
    assert_eq!(v.error_message.as_deref(), Some("Consistency verification failed: closed"));
    v.consistency_checked(Ok(false));
    assert_eq!(v.consistency_status, Some(false));
    v.update(AuditViewerEvent::VerifyAuditTrail("x".to_string()));
    assert_eq!(v.audit_trail_status, Some(true));
    match v.update(AuditViewerEvent::SelectEvent("ab|row".to_string())) {
        AuditViewerAction::CheckEvent { entry, .. } => assert_eq!(entry, "ab|row"),
        _ => panic!("selecting an event checks it"),
    }
    assert_eq!(v.selected_event.as_deref(), Some("ab|row"));
    v.record_verified("ab|row".to_string(), false);
    v.update(AuditViewerEvent::EventVerified("cd|row".to_string(), true));
    v.record_verified("ab|row".to_string(), true);
    assert_eq!(v.verified_events.len(), 2);
    assert!(v.verified_events.contains(&("ab|row".to_string(), true)));
    assert!(v.verified_events.contains(&("cd|row".to_string(), true)));
    v.update(AuditViewerEvent::SetDBPath("other".to_string()));
    assert_eq!(v.db_path_input, "other");
}

#[test]
fn a_listed_entry_reads_back_its_hash() {
    let hash = vec![0x00, 0x7f, 0x80, 0xff, 0x10];
    let entry = event_entry(&hash, "row with | bars\n");
    assert_eq!(entry_hash(&entry).ok(), Some(hash));
    let n: i64 = -1_234_567;
    assert_eq!(parse_i64(&graymamba::decimal::signed_decimal(n)), Some(n));
}

#[test]
fn lines_and_fields_split_as_std_does() {
    assert_eq!(split_lines("a\r\nb\n\nc\r"), vec!["a", "b", "", "c\r"]);
    assert_eq!(split_lines("x\n"), vec!["x"]);
    assert!(split_lines("").is_empty());
    assert_eq!(split_fields("  ab\tc  d\u{A0}e "), vec!["ab", "c", "d", "e"]);
    assert!(split_fields("   ").is_empty());
}

#[test]
fn event_rows_list_lines_with_four_fields() {
    let mut s = AuditViewerState::new("db".to_string());
    s.current_events = "e1 2024 DISASSEMBLED /a\n\nshort line\ne2 x y z w\ne3 a b c\n".to_string();
    s.selected_event = Some("e2".to_string());
    s.verified_events = vec![("e1".to_string(), true), ("e3".to_string(), false)];
    let rows = s.event_rows();
    assert_eq!(rows.len(), 3);
    assert_eq!(rows[0].id, "e1");
    assert_eq!(rows[0].line, "e1 2024 DISASSEMBLED /a");
    assert!(!rows[0].selected);
    assert_eq!(rows[0].verified, Some(true));
    assert_eq!(rows[1].id, "e2");
    assert!(rows[1].selected);
    assert_eq!(rows[1].verified, None);
    assert_eq!(rows[2].id, "e3");
    assert_eq!(rows[2].verified, Some(false));
}
