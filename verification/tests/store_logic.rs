use graymamba::sharesfs::user_dir::{mount_fileid, plan_user_directory};
use graymamba::sharesfs::remove::{children_pattern, plan_directory_removal};
use graymamba::channel_buffer::{ChannelBuffer, WriteMode};
use graymamba::decimal::{decimal, parse_u32, parse_u64, parse_u8};
use graymamba::sharesfs::content::{
    content_from_store, encode_content, likely_last_write, path_user, read_slice, should_commit,
    write_splice,
};
use graymamba::sharesfs::metadata::{
    metadata_from_fields, mode_unmask_setattr, new_node_fields, setattr_fields, symlink_fields,
    FileMetadata,
};
use graymamba::sharesfs::paths::{
    children_depth, id_to_path_key, is_direct_child, last_path_element, metadata_key,
    next_fileid_key, node_depth, nodes_key, path_to_id_key,
};
use graymamba::sharesfs::readdir::readdir_page;
use graymamba::sharesfs::rename::{
    descendant_keys_pattern, id_map_updates, key_renames, metadata_rename, node_updates, write_outcome,
    StoreOp,
};
use graymamba::kernel::nfs::{
    ftype3, nfsstat3, nfstime3, sattr3, set_atime, set_gid3, set_mode3, set_mtime, set_size3,
    set_uid3,
};
use graymamba::store::{field_key, first_field, keys_match, member_of, range_bounds, DataStoreError};

fn strings(v: &[&str]) -> Vec<String> {
    v.iter().map(|s| s.to_string()).collect()
}

fn pairs(v: &[(&str, &str)]) -> Vec<(String, String)> {
    v.iter().map(|(a, b)| (a.to_string(), b.to_string())).collect()
}

fn s(x: &str) -> String {
    x.to_string()
}

#[test]
fn buffer_assembles_chunks_with_zero_gaps() {
    let mut b = ChannelBuffer::new();
    b.write(0, &[1, 2, 3]);
    b.write(5, &[9]);
    assert_eq!(b.total_size(), 6);
    assert_eq!(b.read_all(), vec![1, 2, 3, 0, 0, 9]);
}

#[test]
fn buffer_overlapping_chunk_cuts_what_came_before() {
    let mut b = ChannelBuffer::new();
    b.write(0, &[1, 2, 3]);
    b.write(5, &[9]);
    b.write(1, &[7]);
    assert_eq!(b.read_all(), vec![1, 7, 0, 0, 0, 9]);
}

#[test]
fn buffer_read_range_stops_at_missing_chunk() {
    let mut b = ChannelBuffer::new();
    b.write(0, &[1, 2, 3]);
    b.write(5, &[9]);
    assert_eq!(b.read_range(0, 10), vec![1, 2, 3]);
    assert_eq!(b.read_range(5, 1), vec![9]);
    assert_eq!(b.read_range(6, 4), Vec::<u8>::new());
}

#[test]
fn buffer_read_after_write_gives_written_bytes() {
    let mut b = ChannelBuffer::new();
    b.write(10, &[1, 2]);
    b.write(4, &[5, 6, 7]);
    assert_eq!(b.read_range(4, 3), vec![5, 6, 7]);
}

#[test]
fn buffer_read_range_walks_adjacent_chunks() {
    let mut b = ChannelBuffer::new();
    b.write(0, &[1, 2]);
    b.write(2, &[3, 4]);
    assert_eq!(b.read_range(0, 4), vec![1, 2, 3, 4]);
    assert_eq!(b.read_range(0, 3), vec![1, 2, 3]);
    assert_eq!(b.read_range(1, 3), vec![2, 3, 4]);
}

#[test]
fn buffer_read_range_takes_overlapping_chunks() {
    let mut b = ChannelBuffer::new();
    b.write(0, b"abcd");
    assert_eq!(b.read_range(2, 2), b"cd".to_vec());
    b.write(6, b"xy");
    assert_eq!(b.read_range(3, 5), b"d".to_vec());
    assert_eq!(b.read_range(7, 5), b"y".to_vec());
}

#[test]
fn buffer_synchronous_write_marks_complete() {
    let mut b = ChannelBuffer::new();
    assert!(b.write_with_mode(0, &[1], WriteMode::Buffered).is_ok());
    assert!(!b.is_write_complete());
    assert!(b.write_with_mode(1, &[2], WriteMode::Synchronous).is_ok());
    assert!(b.is_write_complete());
}

#[test]
fn buffer_clear_keeps_size() {
    let mut b = ChannelBuffer::new();
    assert!(b.is_empty());
    b.write(0, &[1, 2, 3]);
    assert!(!b.is_empty());
    b.clear();
    assert!(b.is_empty());
    assert_eq!(b.total_size(), 3);
    b.set_complete();
    assert!(b.is_write_complete());
}

#[test]
fn decimal_writes_numbers() {
    assert_eq!(decimal(0), "0");
    assert_eq!(decimal(7), "7");
    assert_eq!(decimal(1234567890123), "1234567890123");
    assert_eq!(decimal(u64::MAX), "18446744073709551615");
}

#[test]
fn parse_reads_unsigned_text_like_std() {
    assert_eq!(parse_u64("42"), Some(42));
    assert_eq!(parse_u64("+42"), Some(42));
    assert_eq!(parse_u64("007"), Some(7));
    assert_eq!(parse_u64("+"), None);
    assert_eq!(parse_u64(""), None);
    assert_eq!(parse_u64("-1"), None);
    assert_eq!(parse_u64("1a"), None);
    assert_eq!(parse_u64("18446744073709551615"), Some(u64::MAX));
    assert_eq!(parse_u64("18446744073709551616"), None);
    assert_eq!(parse_u32("4294967296"), None);
    assert_eq!(parse_u8("255"), Some(255));
    assert_eq!(parse_u8("256"), None);
}

#[test]
fn decimal_round_trip() {
    for n in [0u64, 1, 9, 10, 99, 100, 65535, u64::MAX] {
        assert_eq!(parse_u64(&decimal(n)), Some(n));
    }
}

#[test]
fn direct_children() {
    assert!(is_direct_child("/a/b", "/a"));
    assert!(!is_direct_child("/a/b/c", "/a"));
    assert!(!is_direct_child("/ab", "/a"));
    assert!(is_direct_child("/x", "/"));
    assert!(!is_direct_child("x", "/"));
}

#[test]
fn last_elements() {
    assert_eq!(last_path_element("/a/b/c"), "c");
    assert_eq!(last_path_element("abc"), "abc");
    assert_eq!(last_path_element("/a/"), "");
    assert_eq!(last_path_element(""), "");
}

#[test]
fn depths_and_keys() {
    assert_eq!(node_depth("/a/b"), 3);
    assert_eq!(node_depth("/"), 2);
    assert_eq!(children_depth("/"), 2);
    assert_eq!(children_depth("/a"), 3);
    assert_eq!(children_depth("/a/b"), 4);
    assert_eq!(nodes_key("{tag}", "alice"), "{tag}/alice_nodes");
    assert_eq!(path_to_id_key("{tag}", "alice"), "{tag}/alice_path_to_id");
    assert_eq!(id_to_path_key("{tag}", "alice"), "{tag}/alice_id_to_path");
    assert_eq!(next_fileid_key("{tag}", "alice"), "{tag}/alice_next_fileid");
    assert_eq!(metadata_key("{tag}", "/a/b"), "{tag}/a/b");
}

#[test]
fn rename_metadata_and_pattern() {
    assert_eq!(
        metadata_rename("{t}", "/a", "/b"),
        StoreOp::Rename { from: s("{t}/a"), to: s("{t}/b") }
    );
    assert_eq!(descendant_keys_pattern("{t}", "/a"), "{t}/a/*");
}

#[test]
fn rename_moves_keys_under_the_directory() {
    let keys = strings(&["{t}/a/x", "{t}/a/y/z"]);
    let ops = key_renames(&keys, "/a", "/b").unwrap();
    assert_eq!(
        ops,
        vec![
            StoreOp::Rename { from: s("{t}/a/x"), to: s("{t}/b/x") },
            StoreOp::Rename { from: s("{t}/a/y/z"), to: s("{t}/b/y/z") },
        ]
    );
}

#[test]
fn rename_target_dollar_is_expanded_by_the_regex() {
    let keys = strings(&["{t}/a/x"]);
    let ops = key_renames(&keys, "/a", "/$0").unwrap();
    assert_eq!(ops, vec![StoreOp::Rename { from: s("{t}/a/x"), to: s("{t}//a/x") }]);
}

#[test]
fn rename_updates_node_set() {
    let members = strings(&["/a", "/a/x", "/b", "/ab"]);
    let ops = node_updates("k", &members, "/a", "/c").unwrap();
    assert_eq!(
        ops,
        vec![
            StoreOp::ZRem { key: s("k"), member: s("/a") },
            StoreOp::ZAdd { key: s("k"), member: s("/c"), slashes: 1 },
            StoreOp::ZRem { key: s("k"), member: s("/a/x") },
            StoreOp::ZAdd { key: s("k"), member: s("/c/x"), slashes: 2 },
        ]
    );
    assert!(ops[1].must_succeed());
}

#[test]
fn rename_updates_id_maps() {
    let fields = pairs(&[("/a", "5"), ("/a/x", "6"), ("/c", "9")]);
    let ops = id_map_updates("{t}", "p2i", "i2p", &fields, "/a", "/c").unwrap();
    assert_eq!(
        ops,
        vec![
            StoreOp::HDel { key: s("p2i"), field: s("/a") },
            StoreOp::HSet { key: s("p2i"), field: s("/c"), value: s("5") },
            StoreOp::HDel { key: s("i2p"), field: s("5") },
            StoreOp::HSet { key: s("i2p"), field: s("5"), value: s("/c") },
            StoreOp::Touch { key: s("{t}/c"), fileid: s("5") },
            StoreOp::HDel { key: s("p2i"), field: s("/a/x") },
            StoreOp::HSet { key: s("p2i"), field: s("/c/x"), value: s("6") },
            StoreOp::HDel { key: s("i2p"), field: s("6") },
            StoreOp::HSet { key: s("i2p"), field: s("6"), value: s("/c/x") },
            StoreOp::Touch { key: s("{t}/c/x"), fileid: s("6") },
            StoreOp::HDel { key: s("i2p"), field: s("9") },
        ]
    );
    assert!(!ops[4].must_succeed());
}

#[test]
fn id_maps_stay_inverse_after_a_move() {
    let fields = pairs(&[("/a", "5"), ("/b", "7"), ("/a/x", "6"), ("/c", "9")]);
    let mut p2i: std::collections::HashMap<String, String> =
        fields.iter().cloned().collect();
    let mut i2p: std::collections::HashMap<String, String> =
        fields.iter().map(|(p, id)| (id.clone(), p.clone())).collect();
    let ops = id_map_updates("{t}", "p2i", "i2p", &fields, "/a", "/c").unwrap();
    for op in &ops {
        match op {
            StoreOp::HSet { key, field, value } if key == "p2i" => {
                p2i.insert(field.clone(), value.clone());
            }
            StoreOp::HSet { key, field, value } if key == "i2p" => {
                i2p.insert(field.clone(), value.clone());
            }
            StoreOp::HDel { key, field } if key == "p2i" => {
                p2i.remove(field);
            }
            StoreOp::HDel { key, field } if key == "i2p" => {
                i2p.remove(field);
            }
            _ => {}
        }
    }
    assert_eq!(p2i.get("/c"), Some(&s("5")));
    assert_eq!(p2i.get("/c/x"), Some(&s("6")));
    assert_eq!(p2i.get("/b"), Some(&s("7")));
    assert!(!p2i.contains_key("/a"));
    assert!(!p2i.contains_key("/a/x"));
    assert_eq!(p2i.len(), i2p.len());
    for (p, id) in &p2i {
        assert_eq!(i2p.get(id), Some(p));
    }
    assert_eq!(i2p.get("5"), Some(&s("/c")));
    assert_eq!(i2p.get("6"), Some(&s("/c/x")));
    assert!(ops.contains(&StoreOp::Touch { key: s("{t}/c"), fileid: s("5") }));
    assert!(ops.contains(&StoreOp::Touch { key: s("{t}/c/x"), fileid: s("6") }));
}

#[test]
fn a_failed_write_ends_the_move_only_when_it_must_succeed() {
    let rename = StoreOp::Rename { from: s("a"), to: s("b") };
    let hset = StoreOp::HSet { key: s("k"), field: s("f"), value: s("v") };
    let touch = StoreOp::Touch { key: s("k"), fileid: s("1") };
    assert_eq!(write_outcome(&rename, false), Ok(()));
    assert_eq!(write_outcome(&touch, false), Ok(()));
    assert_eq!(write_outcome(&hset, true), Ok(()));
    assert_eq!(write_outcome(&hset, false), Err(nfsstat3::NFS3ERR_IO));
}

#[test]
fn metadata_attributes() {
    let m = FileMetadata::new(1, 0o644, 10, 1, 2, 3, 4, 5, 6, 77);
    let a = FileMetadata::metadata_to_fattr3(9, &m).unwrap();
    assert_eq!(a.ftype, ftype3::NF3REG);
    assert_eq!(a.mode, 0o644);
    assert_eq!(a.size, 10);
    assert_eq!(a.used, 10);
    assert_eq!(a.fileid, 9);
    assert_eq!(a.nlink, 1);
    assert_eq!(a.atime, nfstime3 { seconds: 1, nseconds: 2 });
    assert_eq!(a.ctime, nfstime3 { seconds: 3, nseconds: 4 });
    assert_eq!(a.mtime, nfstime3 { seconds: 5, nseconds: 6 });
    let dir = FileMetadata::new(0, 0, 0, 0, 0, 0, 0, 0, 0, 1);
    assert_eq!(FileMetadata::metadata_to_fattr3(1, &dir).unwrap().ftype, ftype3::NF3DIR);
    let bad = FileMetadata::new(3, 0, 0, 0, 0, 0, 0, 0, 0, 1);
    assert_eq!(FileMetadata::metadata_to_fattr3(1, &bad), Err(nfsstat3::NFS3ERR_INVAL));
}

#[test]
fn mode_unmask_keeps_owner_write() {
    assert_eq!(FileMetadata::mode_unmask(0o444), 0o644);
    assert_eq!(FileMetadata::mode_unmask(0o100755), 0o755);
    assert_eq!(mode_unmask_setattr(0o600), 0o600);
    assert_eq!(mode_unmask_setattr(0o400), 0o600);
}

#[test]
fn metadata_from_stored_fields() {
    let fields = pairs(&[
        ("ftype", "1"),
        ("size", "10"),
        ("permissions", "420"),
        ("fileid", "7"),
        ("size", "12"),
        ("access_time_secs", "x"),
    ]);
    let m = metadata_from_fields(&fields).unwrap();
    assert_eq!(m.ftype, 1);
    assert_eq!(m.size, 12);
    assert_eq!(m.permissions, 420);
    assert_eq!(m.fileid, 7);
    assert_eq!(m.access_time_secs, 0);
    assert_eq!(metadata_from_fields(&Vec::new()), Err(nfsstat3::NFS3ERR_NOENT));
}

#[test]
fn setattr_writes_requested_fields() {
    let attr = sattr3 {
        mode: set_mode3::mode(0o400),
        uid: set_uid3::Void,
        gid: set_gid3::Void,
        size: set_size3::size(5),
        atime: set_atime::SET_TO_CLIENT_TIME(nfstime3 { seconds: 10, nseconds: 20 }),
        mtime: set_mtime::SET_TO_SERVER_TIME,
    };
    assert_eq!(
        setattr_fields(&attr, 100, 200),
        pairs(&[
            ("access_time_secs", "10"),
            ("access_time_nsecs", "20"),
            ("modification_time_secs", "100"),
            ("modification_time_nsecs", "200"),
            ("permissions", "384"),
            ("size", "5"),
        ])
    );
}

#[test]
fn new_node_fields_in_order() {
    assert_eq!(
        new_node_fields("0", Some(777), 5, 100, 7),
        pairs(&[
            ("ftype", "0"),
            ("size", "0"),
            ("permissions", "777"),
            ("change_time_secs", "100"),
            ("change_time_nsecs", "7"),
            ("modification_time_secs", "100"),
            ("modification_time_nsecs", "7"),
            ("access_time_secs", "100"),
            ("access_time_nsecs", "7"),
            ("birth_time_secs", "100"),
            ("birth_time_nsecs", "7"),
            ("fileid", "5"),
        ])
    );
    assert_eq!(new_node_fields("1", None, 2, 0, 0).len(), 11);
}

#[test]
fn reads_of_a_range() {
    let data = [1u8, 2, 3, 4, 5];
    assert_eq!(read_slice(&data, 1, 2), (vec![2, 3], false));
    assert_eq!(read_slice(&data, 3, 10), (vec![4, 5], true));
    assert_eq!(read_slice(&data, 5, 1), (vec![], true));
}

#[test]
fn writes_spliced_into_contents() {
    assert_eq!(write_splice(&vec![1, 2, 3], 5, &[9]), vec![1, 2, 3, 0, 0, 9]);
    assert_eq!(write_splice(&vec![1, 2, 3, 4], 1, &[8, 8]), vec![1, 8, 8, 4]);
    let written = write_splice(&vec![1, 2, 3, 4], 2, &[6, 6, 6]);
    assert_eq!(read_slice(&written, 2, 3).0, vec![6, 6, 6]);
}

#[test]
fn content_base64_round_trip() {
    let text = encode_content(b"hello");
    assert_eq!(text, "aGVsbG8=");
    assert_eq!(content_from_store("shares", &Ok(text)), b"hello".to_vec());
    assert_eq!(content_from_store("", &Ok(s("aGVsbG8="))), Vec::<u8>::new());
    assert_eq!(content_from_store("shares", &Err(s("failed"))), Vec::<u8>::new());
    assert_eq!(content_from_store("shares", &Ok(s("!!"))), Vec::<u8>::new());
}

#[test]
fn owner_of_a_path() {
    assert_eq!(path_user("/alice/docs/a.txt"), "alice");
    assert_eq!(path_user("/alice/"), "alice");
    assert_eq!(path_user("/alice"), "");
}

#[test]
fn last_write_and_commit_timing() {
    assert_eq!(likely_last_write(0, 10, "10"), Ok(true));
    assert_eq!(likely_last_write(0, 5, "10"), Ok(false));
    assert_eq!(likely_last_write(0, 5, "ten"), Err(nfsstat3::NFS3ERR_IO));
    assert!(should_commit(true, 11, 0));
    assert!(!should_commit(true, 10, 0));
    assert!(should_commit(true, 10, 1));
    assert!(!should_commit(false, 100, 0));
}

#[test]
fn directory_pages() {
    let children = vec![5u64, 3, 9, 3, 1];
    assert_eq!(readdir_page(&children, 0, 2), (vec![1, 3], false));
    assert_eq!(readdir_page(&children, 3, 10), (vec![5, 9], true));
    assert_eq!(readdir_page(&children, 0, 0), (vec![1], false));
    assert_eq!(readdir_page(&children, 9, 5), (vec![], true));
}

#[test]
fn ordered_store_layout() {
    assert_eq!(field_key("a", "b"), "a:b");
    assert!(keys_match("{t}/a/*", "{t}/a/x"));
    assert!(keys_match("{t}/a/*", "{t}/a"));
    assert!(keys_match("{t}/a/*", "{t}/a:ftype"));
    assert!(!keys_match("{t}/a/*", "{t}/ab"));
    assert!(keys_match("exact", "exact"));
    assert!(!keys_match("exact", "exact2"));
    assert_eq!(range_bounds(5, 0, -1), (0, 5));
    assert_eq!(range_bounds(5, 1, 2), (1, 3));
    assert_eq!(range_bounds(5, -2, -1), (3, 5));
    assert_eq!(range_bounds(5, 0, 10), (0, 5));
    assert_eq!(member_of("k:m", "k"), Some(s("m")));
    assert_eq!(member_of("km", "k"), None);
    let fields = pairs(&[("a", "1"), ("a", "2")]);
    assert_eq!(first_field(&fields, "a"), Ok(s("1")));
    assert_eq!(first_field(&fields, "b"), Err(DataStoreError::KeyNotFound));
}

#[test]
fn directory_removal_is_refused_or_planned() {
    assert_eq!(children_pattern("/alice/docs"), "/alice/docs/*");
    assert!(matches!(
        plan_directory_removal("{g}:", "7", "/alice/docs", true, Some("12".to_string())),
        Err(nfsstat3::NFS3ERR_NOTEMPTY)
    ));
    assert!(matches!(
        plan_directory_removal("{g}:", "7", "/alice/docs", false, None),
        Err(nfsstat3::NFS3ERR_IO)
    ));
    let plan = plan_directory_removal("{g}:", "7", "/alice/docs", false, Some("12".to_string()))
        .ok()
        .unwrap();
    assert_eq!(plan.nodes_key, "{g}:/7_nodes");
    assert_eq!(plan.node, "/alice/docs");
    assert_eq!(plan.metadata_key, "{g}:/alice/docs");
    assert_eq!(plan.path_to_id_key, "{g}:/7_path_to_id");
    assert_eq!(plan.id_to_path_key, "{g}:/7_id_to_path");
    assert_eq!(plan.dir_id, "12");
}

#[test]
fn symlink_fields_in_order() {
    assert_eq!(
        symlink_fields(11, 9, 100, 7),
        pairs(&[
            ("ftype", "2"),
            ("size", "11"),
            ("change_time_secs", "100"),
            ("change_time_nsecs", "7"),
            ("modification_time_secs", "100"),
            ("modification_time_nsecs", "7"),
            ("access_time_secs", "100"),
            ("access_time_nsecs", "7"),
            ("birth_time_secs", "100"),
            ("birth_time_nsecs", "7"),
            ("fileid", "9"),
        ])
    );
}

#[test]
fn rename_of_a_long_path_is_planned() {
    let from = format!("/{}", "d".repeat(5000));
    let keys = vec![format!("{}/x", from)];
    let ops = key_renames(&keys, &from, "/short").unwrap();
    assert_eq!(ops, vec![StoreOp::Rename { from: keys[0].clone(), to: "/short/x".to_string() }]);
}

#[test]
fn mounted_directory_is_planned_once() {
    assert_eq!(mount_fileid(false, 9), 1);
    assert_eq!(mount_fileid(true, 9), 9);
    assert!(plan_user_directory("{graymamba}", "graymamba", "/", true, 1, 0, 0).is_none());
    let p = plan_user_directory("{graymamba}", "graymamba", "/", false, 1, 100, 7).unwrap();
    assert_eq!(p.nodes_key, "{graymamba}/graymamba_nodes");
    assert_eq!(p.node, "/");
    assert_eq!(p.score, 1);
    assert_eq!(p.metadata_key, "{graymamba}/");
    assert_eq!(p.fields, new_node_fields("0", Some(777), 1, 100, 7));
    assert_eq!(p.fields[2], ("permissions".to_string(), "777".to_string()));
    assert_eq!(p.path_to_id_key, "{graymamba}/graymamba_path_to_id");
    assert_eq!(p.id_to_path_key, "{graymamba}/graymamba_id_to_path");
    assert_eq!(p.fileid, "1");
    let q = plan_user_directory("{graymamba}", "graymamba", "/test", false, 4, 0, 0).unwrap();
    assert_eq!(q.score, 2);
    assert_eq!(q.fileid, "4");
}
