use graymamba::audit::merkle::{
    collect_events_from_node, verify_historical_consistency, verify_merkle_proof, MerkleNode,
};
use graymamba::audit::window::TimeWindowedMerkleTree;
use graymamba::decimal::signed_decimal;
use graymamba::display::{format_value_with_wrapping, get_file_emoji, lowercase_text};
use graymamba::kernel::encode::{fsstat_reply, readlink_reply};
use graymamba::kernel::fs_ops::fsstat_totals;
use graymamba::kernel::nfs::nfsstat3;
use graymamba::settings::{hash_tag_for, log_level, mount_score, LogLevel};

fn header(xid: u32) -> Vec<u8> {
    let mut v = Vec::new();
    for w in [xid, 1, 0, 0, 0, 0] {
        v.extend_from_slice(&w.to_be_bytes());
    }
    v
}

#[test]
fn events_come_out_in_pre_order() {
    let a = MerkleNode::new_leaf(b"first", 10).ok().unwrap();
    let b = MerkleNode::new_leaf(b"second", 20).ok().unwrap();
    let c = MerkleNode::new_leaf(b"third", 15).ok().unwrap();
    let ab = MerkleNode::new_internal(a, b).ok().unwrap();
    let root = MerkleNode::new_internal(ab, c).ok().unwrap();
    let events = collect_events_from_node(&root);
    assert_eq!(
        events,
        vec![(10, b"first".to_vec()), (20, b"second".to_vec()), (15, b"third".to_vec())]
    );
    let single = MerkleNode::new_leaf(b"x", 1).ok().unwrap();
    assert_eq!(collect_events_from_node(&single), vec![(1, b"x".to_vec())]);
}

#[test]
fn merkle_proof_finds_a_known_root() {
    let roots = vec![vec![1, 2], vec![3, 4], vec![5]];
    assert!(verify_merkle_proof(&roots, &[3, 4]));
    assert!(!verify_merkle_proof(&roots, &[3]));
    assert!(!verify_merkle_proof(&Vec::new(), &[1]));
}

#[test]
fn consecutive_roots_must_differ() {
    assert!(verify_historical_consistency(&vec![vec![1], vec![2], vec![1]]));
    assert!(!verify_historical_consistency(&vec![vec![1], vec![2], vec![2]]));
    assert!(verify_historical_consistency(&vec![vec![7]]));
    assert!(verify_historical_consistency(&Vec::new()));
}

#[test]
fn file_icons_by_extension() {
    assert_eq!(get_file_emoji("notes.TXT"), "📝");
    assert_eq!(get_file_emoji("report.pdf"), "📕");
    assert_eq!(get_file_emoji("photo.final.JPEG"), "🖼️");
    assert_eq!(get_file_emoji("song.ogg"), "🎵");
    assert_eq!(get_file_emoji("clip.mov"), "🎬");
    assert_eq!(get_file_emoji("pack.7z"), "🗜️");
    assert_eq!(get_file_emoji("tool.exe"), "⚙️");
    assert_eq!(get_file_emoji("data.bin"), "📄");
    // A name without an extension gets the folder icon.
    assert_eq!(get_file_emoji("md"), "📁");
    assert_eq!(get_file_emoji("README"), "📁");
    assert_eq!(get_file_emoji("a.PDF"), "📕");
    assert_eq!(get_file_emoji("a.xyz"), "📄");
    assert_eq!(get_file_emoji(".bashrc"), "📄");
}

#[test]
fn values_wrap_at_the_line_length() {
    assert_eq!(format_value_with_wrapping("abcdefg", 3), "abc\ndef\ng");
    assert_eq!(format_value_with_wrapping("abcdef", 3), "abc\ndef");
    assert_eq!(format_value_with_wrapping("ab", 3), "ab");
    assert_eq!(format_value_with_wrapping("", 4), "");
    assert_eq!(format_value_with_wrapping("äöü", 1), "ä\nö\nü");
}

#[test]
fn lowercase_of_text() {
    assert_eq!(lowercase_text("MiXeD 42"), "mixed 42");
}

#[test]
fn settings_tags_levels_and_scores() {
    assert_eq!(hash_tag_for("graymamba"), "{graymamba}:");
    assert_eq!(hash_tag_for(""), "{}:");
    assert_eq!(log_level(None), LogLevel::Warn);
    assert_eq!(log_level(Some("DEBUG")), LogLevel::Debug);
    assert_eq!(log_level(Some("info")), LogLevel::Info);
    assert_eq!(log_level(Some("Error")), LogLevel::Error);
    assert_eq!(log_level(Some("trace")), LogLevel::Trace);
    assert_eq!(log_level(Some("loud")), LogLevel::Warn);
    assert_eq!(mount_score("/"), 1);
    assert_eq!(mount_score("/alice"), 2);
}

#[test]
fn fsstat_and_readlink_replies() {
    let s = fsstat_reply(9, &None, &fsstat_totals());
    let mut expected = header(9);
    expected.extend_from_slice(&[0, 0, 0, 0, 0, 0, 0, 0]);
    for v in [1u64 << 40, 1 << 40, 1 << 40, 1 << 30, 1 << 30, 1 << 30] {
        expected.extend_from_slice(&v.to_be_bytes());
    }
    expected.extend_from_slice(&u32::MAX.to_be_bytes());
    assert_eq!(s, expected);

    let ok = readlink_reply(4, &None, &Ok(b"target".to_vec()));
    let mut expected = header(4);
    expected.extend_from_slice(&[0, 0, 0, 0, 0, 0, 0, 0, 0, 0, 0, 6]);
    expected.extend_from_slice(b"target");
    expected.extend_from_slice(&[0, 0]);
    assert_eq!(ok, expected);

    let err = readlink_reply(4, &None, &Err(nfsstat3::NFS3ERR_INVAL));
    let mut expected = header(4);
    expected.extend_from_slice(&22u32.to_be_bytes());
    expected.extend_from_slice(&[0, 0, 0, 0]);
    assert_eq!(err, expected);
}

#[test]
fn signed_numbers_as_text() {
    assert_eq!(signed_decimal(0), "0");
    assert_eq!(signed_decimal(1_700_000_000), "1700000000");
    assert_eq!(signed_decimal(-42), "-42");
    assert_eq!(signed_decimal(i64::MIN), i64::MIN.to_string());
    assert_eq!(signed_decimal(i64::MAX), i64::MAX.to_string());
}

#[test]
fn window_rotates_after_its_length_in_whole_hours() {
    let hour: i64 = 3_600_000_000;
    let mut t = TimeWindowedMerkleTree::new(1_000 * hour);
    assert_eq!(t.window_duration_hours, 24);
    assert!(!t.needs_rotation(1_000 * hour));
    assert!(!t.needs_rotation(1_024 * hour - 1));
    assert!(t.needs_rotation(1_024 * hour));
    // Hours run toward zero, so time going backwards never seals a window.
    assert!(!t.needs_rotation(0));
    t.start_new_window(2_000 * hour);
    assert_eq!(t.current_window_start, 2_000 * hour);
    assert_eq!(t.window_duration_hours, 24);
    assert!(!t.needs_rotation(2_023 * hour));
}

#[test]
fn window_and_leaf_keys() {
    let t = TimeWindowedMerkleTree::new(1_700_000_000_123_456);
    assert_eq!(t.window_key(), "window:1700000000");
    let before_epoch = TimeWindowedMerkleTree::new(-1);
    assert_eq!(before_epoch.window_key(), "window:-1");
    let k = TimeWindowedMerkleTree::leaf_key(1_700_000_000_123_456, &[0xde, 0xad, 0x0b, 0xef, 0x99]);
    assert_eq!(k, "leaf:1700000000123456:dead0bef");
}
