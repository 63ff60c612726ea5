use graymamba::rpc::auth::AuthUnix;
use graymamba::kernel::encode::{
    access_reply, bad_handle_reply, fsinfo_reply, getattr_reply, lookup_reply, pathconf_reply,
};
use graymamba::kernel::fs_ops::{fsinfo_limits, pathconf_limits};
use graymamba::kernel::nfs::{fattr3, ftype3, nfsstat3, nfstime3, specdata3};
use graymamba::kernel::rpcwire::{assemble_record, frame_record, RecordAssembler};
use graymamba::rpc::mount::MountReply;
use graymamba::rpc::NfsError;
use graymamba::secret_sharing::{chunk_bytes, SecretSharingService, Settings};
use graymamba::sharesfs::paths::{
    child_path, file_name, is_pack_temp, known_node_type, last_path_element, lookup_path,
};

fn service() -> SecretSharingService {
    SecretSharingService::new(Settings {
        chunk_size: 8,
        threshold: 2,
        share_amount: 3,
        thread_number: 1,
        prime: "170141183460469231731687303715884105727".to_string(),
    })
}

#[test]
fn chunks_cut_at_the_chunk_size() {
    assert_eq!(chunk_bytes(b"abcdefg", 3), vec![b"abc".to_vec(), b"def".to_vec(), b"g".to_vec()]);
    assert_eq!(chunk_bytes(b"abcdef", 3), vec![b"abc".to_vec(), b"def".to_vec()]);
    assert_eq!(chunk_bytes(b"", 3), Vec::<Vec<u8>>::new());
}

#[test]
fn shares_document_has_one_object_per_chunk() {
    let doc = service().dis_assembly("hello world").unwrap();
    assert!(doc.starts_with("[{\"shares\":[\""));
    assert_eq!(doc.matches("{\"shares\":").count(), 2);
    assert_eq!(doc.matches('"').count(), 2 * (2 + 3 * 2));
}

#[test]
fn shares_join_back_into_the_text() {
    let s = service();
    let doc = s.disassemble("hello world, this is a secret").unwrap();
    assert_eq!(s.reassemble(&doc).unwrap(), "hello world, this is a secret");
}

#[test]
fn unreadable_share_documents_are_refused() {
    let s = service();
    assert!(s.re_assembly("not json").is_err());
    assert_eq!(
        s.re_assembly("[{\"shares\":[\"12\",\"x\",\"3\"]}]"),
        Err("Invalid share format".to_string())
    );
    assert_eq!(s.re_assembly("[{\"shares\":[\"12\"]}]"), Ok(String::new()));
    assert_eq!(s.re_assembly("[{\"other\":[\"12\",\"13\"]}]"), Ok(String::new()));
}

#[test]
fn child_and_lookup_paths() {
    assert_eq!(child_path("/", "a"), "/a");
    assert_eq!(child_path("/a", "b"), "/a/b");
    assert_eq!(lookup_path(0, "/ignored", "a"), "/a");
    assert_eq!(lookup_path(7, "/a", "b"), "/a/b");
    assert_eq!(lookup_path(7, "/", "b"), "//b");
    assert_eq!(last_path_element(&child_path("/a/b", "c.txt")), "c.txt");
}

#[test]
fn names_types_and_pack_files() {
    assert_eq!(file_name(b"notes.txt"), Some("notes.txt".to_string()));
    assert_eq!(file_name(&[0xff, 0xfe]), None);
    assert!(known_node_type("0") && known_node_type("1") && known_node_type("2"));
    assert!(!known_node_type("3") && !known_node_type(""));
    assert!(is_pack_temp("/r/.git/objects/pack/tmp_pack_abc"));
    assert!(!is_pack_temp("/r/.git/objects/pack/pack-1.pack"));
}

#[test]
fn records_are_framed_and_reassembled() {
    let framed = frame_record(&[1, 2, 3]);
    assert_eq!(framed, vec![0x80, 0, 0, 3, 1, 2, 3]);
    let mut a = RecordAssembler::new();
    assert_eq!(a.push_fragment(2, &[1, 2]), None);
    assert_eq!(a.push_fragment(0x8000_0001, &[3]), Some(vec![1, 2, 3]));
    assert_eq!(a.push_fragment(0x8000_0000, &[]), Some(vec![]));
}

fn attrs() -> fattr3 {
    fattr3 {
        ftype: ftype3::NF3DIR,
        mode: 0o755,
        nlink: 1,
        uid: 0,
        gid: 0,
        size: 4096,
        used: 4096,
        rdev: specdata3 { specdata1: 0, specdata2: 0 },
        fsid: 0,
        fileid: 9,
        atime: nfstime3 { seconds: 1, nseconds: 2 },
        mtime: nfstime3 { seconds: 3, nseconds: 4 },
        ctime: nfstime3 { seconds: 5, nseconds: 6 },
    }
}

fn header(xid: u32) -> Vec<u8> {
    let mut v = Vec::new();
    for w in [xid, 1, 0, 0, 0, 0] {
        v.extend_from_slice(&w.to_be_bytes());
    }
    v
}

#[test]
fn getattr_replies() {
    let ok = getattr_reply(5, &Ok(attrs()));
    assert_eq!(ok.len(), 24 + 4 + 84);
    assert_eq!(&ok[..24], &header(5)[..]);
    assert_eq!(&ok[24..32], &[0, 0, 0, 0, 0, 0, 0, 2]);
    assert_eq!(&ok[32..36], &0o755u32.to_be_bytes());
    assert_eq!(&ok[48..56], &4096u64.to_be_bytes());
    assert_eq!(&ok[72..80], &0u64.to_be_bytes());
    assert_eq!(&ok[80..88], &9u64.to_be_bytes());
    assert_eq!(&ok[88..96], &[0, 0, 0, 1, 0, 0, 0, 2]);
    let err = getattr_reply(5, &Err(nfsstat3::NFS3ERR_STALE));
    let mut expected = header(5);
    expected.extend_from_slice(&70u32.to_be_bytes());
    assert_eq!(err, expected);
}

#[test]
fn lookup_access_and_limits_replies() {
    let r = lookup_reply(1, &Ok((vec![1, 2, 3], None)), &None);
    let mut expected = header(1);
    expected.extend_from_slice(&[0, 0, 0, 0, 0, 0, 0, 3, 1, 2, 3, 0, 0, 0, 0, 0, 0, 0, 0, 0]);
    assert_eq!(r, expected);
    let e = lookup_reply(1, &Err(nfsstat3::NFS3ERR_NOENT), &None);
    let mut expected = header(1);
    expected.extend_from_slice(&[0, 0, 0, 2, 0, 0, 0, 0]);
    assert_eq!(e, expected);
    let a = access_reply(2, &None, 3);
    let mut expected = header(2);
    expected.extend_from_slice(&[0, 0, 0, 0, 0, 0, 0, 0, 0, 0, 0, 3]);
    assert_eq!(a, expected);
    let b = bad_handle_reply(2, nfsstat3::NFS3ERR_BADHANDLE);
    let mut expected = header(2);
    expected.extend_from_slice(&10001u32.to_be_bytes());
    expected.extend_from_slice(&[0, 0, 0, 0]);
    assert_eq!(b, expected);
    let f = fsinfo_reply(3, &None, &fsinfo_limits());
    assert_eq!(f.len(), 24 + 4 + 4 + 7 * 4 + 8 + 8 + 4);
    assert_eq!(&f[32..36], &(1024u32 * 1024).to_be_bytes());
    let p = pathconf_reply(4, &None, &pathconf_limits());
    assert_eq!(&p[32..], &[0, 0, 0, 0, 0, 0, 0x80, 0, 0, 0, 0, 1, 0, 0, 0, 1, 0, 0, 0, 0, 0, 0, 0, 1]);
}

#[test]
fn mount_replies() {
    let mut reply = header(2);
    reply.extend_from_slice(&[0, 0, 0, 0, 0, 0, 0, 16]);
    reply.extend_from_slice(&[7u8; 16]);
    assert!(MountReply::in_bounds(&reply));
    let m = MountReply::from_bytes(&reply).unwrap();
    assert_eq!(m.status, 0);
    assert_eq!(m.file_handle, [7u8; 16]);
    let mut denied = header(2);
    denied.extend_from_slice(&13u32.to_be_bytes());
    let d = MountReply::from_bytes(&denied).unwrap();
    assert_eq!(d.status, 13);
    assert_eq!(d.file_handle, [0u8; 16]);
}

#[test]
fn client_error_messages() {
    assert_eq!(NfsError::MountError("no".to_string()).message(), "Mount error: no");
    assert_eq!(NfsError::NetworkError("down".to_string()).message(), "Network error: down");
    let io: NfsError = std::io::Error::new(std::io::ErrorKind::Other, "disk").into();
    assert!(io.message().starts_with("IO error: "));
}

#[test]
fn a_chunk_starting_with_a_zero_byte_loses_it() {
    let s = service();
    let doc = s.disassemble("\0abc").unwrap();
    assert_eq!(s.reassemble(&doc).unwrap(), "abc");
}

#[test]
fn auth_unix_length_word_counts_the_credential_body() {
    let none = AuthUnix { stamp: 0, machine_name: String::new(), uid: 1, gid: 2, aux_gids: Vec::new() };
    let mut call = Vec::new();
    none.write_to_vec(&mut call);
    assert_eq!(&call[4..8], &20u32.to_be_bytes());
    assert_eq!(call.len(), 8 + 20 + 8);
    let mut call = Vec::new();
    AuthUnix::default().write_to_vec(&mut call);
    assert_eq!(&call[4..8], &84u32.to_be_bytes());
    assert_eq!(call.len(), 8 + 84 + 8);
}

#[test]
fn fragments_join_into_one_record() {
    let frags = vec![(3u32, vec![1, 2, 3]), (2u32, vec![4, 5]), (0x8000_0001u32, vec![6])];
    assert_eq!(assemble_record(&frags), Some(vec![1, 2, 3, 4, 5, 6]));
    let unfinished = vec![(2u32, vec![1, 2])];
    assert_eq!(assemble_record(&unfinished), None);
    let early = vec![(0x8000_0001u32, vec![9]), (1u32, vec![8])];
    assert_eq!(assemble_record(&early), Some(vec![9]));
}
