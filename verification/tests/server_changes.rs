use graymamba::kernel::change_replies::{
    setattr_reply, status_reply, symlink_reply, wcc_attr_of, wcc_failure_reply,
};
use graymamba::kernel::client::NFSClient;
use graymamba::kernel::fs_ops::sattrguard3;
use graymamba::kernel::mount_handlers::{mnt_reply, mount_start, KeyType, MountRefusal};
use graymamba::kernel::nfs::{fattr3, ftype3, nfsstat3, nfstime3, specdata3, VFSCapabilities};
use graymamba::kernel::router::{rofs_reply_message, route_nfs, NfsRoute};

fn header(xid: u32) -> Vec<u8> {
    let mut v = Vec::new();
    for w in [xid, 1, 0, 0, 0, 0] {
        v.extend_from_slice(&w.to_be_bytes());
    }
    v
}

fn attrs(size: u64, ctime: u32) -> fattr3 {
    fattr3 {
        ftype: ftype3::NF3REG,
        mode: 0o644,
        nlink: 1,
        uid: 0,
        gid: 0,
        size,
        used: size,
        rdev: specdata3 { specdata1: 0, specdata2: 0 },
        fsid: 0,
        fileid: 7,
        atime: nfstime3 { seconds: 1, nseconds: 0 },
        mtime: nfstime3 { seconds: 2, nseconds: 0 },
        ctime: nfstime3 { seconds: ctime, nseconds: 0 },
    }
}

fn fattr_bytes(a: &fattr3) -> Vec<u8> {
    let mut v = Vec::new();
    for w in [1u32, a.mode, a.nlink, a.uid, a.gid] {
        v.extend_from_slice(&w.to_be_bytes());
    }
    v.extend_from_slice(&a.size.to_be_bytes());
    v.extend_from_slice(&a.used.to_be_bytes());
    for w in [a.rdev.specdata1, a.rdev.specdata2] {
        v.extend_from_slice(&w.to_be_bytes());
    }
    v.extend_from_slice(&a.fsid.to_be_bytes());
    v.extend_from_slice(&a.fileid.to_be_bytes());
    for t in [a.atime, a.mtime, a.ctime] {
        v.extend_from_slice(&t.seconds.to_be_bytes());
        v.extend_from_slice(&t.nseconds.to_be_bytes());
    }
    v
}

fn pre_op(a: &fattr3) -> Vec<u8> {
    let mut v = 1u32.to_be_bytes().to_vec();
    v.extend_from_slice(&a.size.to_be_bytes());
    for t in [a.mtime, a.ctime] {
        v.extend_from_slice(&t.seconds.to_be_bytes());
        v.extend_from_slice(&t.nseconds.to_be_bytes());
    }
    v
}

#[test]
fn failures_carry_empty_wcc_data() {
    let mut expected = header(3);
    expected.extend_from_slice(&30u32.to_be_bytes());
    expected.extend_from_slice(&[0, 0, 0, 0, 0, 0, 0, 0]);
    assert_eq!(wcc_failure_reply(3, nfsstat3::NFS3ERR_ROFS), expected);
    let mut expected = header(3);
    expected.extend_from_slice(&10001u32.to_be_bytes());
    assert_eq!(status_reply(3, nfsstat3::NFS3ERR_BADHANDLE), expected);
}

#[test]
fn setattr_reports_before_and_after() {
    let before = attrs(10, 5);
    let after = attrs(0, 6);
    let r = setattr_reply(8, &before, sattrguard3::obj_ctime(nfstime3 { seconds: 5, nseconds: 0 }), &Ok(after));
    let mut expected = header(8);
    expected.extend_from_slice(&[0, 0, 0, 0]);
    expected.extend_from_slice(&pre_op(&before));
    expected.extend_from_slice(&[0, 0, 0, 1]);
    expected.extend_from_slice(&fattr_bytes(&after));
    assert_eq!(r, expected);
    let w = wcc_attr_of(&before);
    assert_eq!(w.size, 10);
    assert_eq!(w.ctime.seconds, 5);
}

#[test]
fn setattr_with_stale_guard_answers_not_sync_then_the_outcome() {
    let before = attrs(10, 5);
    let r = setattr_reply(
        8,
        &before,
        sattrguard3::obj_ctime(nfstime3 { seconds: 4, nseconds: 0 }),
        &Err(nfsstat3::NFS3ERR_ACCES),
    );
    let mut expected = header(8);
    expected.extend_from_slice(&10002u32.to_be_bytes());
    expected.extend_from_slice(&[0, 0, 0, 0, 0, 0, 0, 0]);
    expected.extend_from_slice(&header(8));
    expected.extend_from_slice(&13u32.to_be_bytes());
    expected.extend_from_slice(&[0, 0, 0, 0, 0, 0, 0, 0]);
    assert_eq!(r, expected);
}

#[test]
fn symlink_replies() {
    let link = attrs(4, 9);
    let dir_before = attrs(4096, 1);
    let ok = symlink_reply(2, &Ok((vec![1, 2, 3, 4, 5], link)), &Some(wcc_attr_of(&dir_before)), &None);
    let mut expected = header(2);
    expected.extend_from_slice(&[0, 0, 0, 0, 0, 0, 0, 1, 0, 0, 0, 5, 1, 2, 3, 4, 5, 0, 0, 0]);
    expected.extend_from_slice(&[0, 0, 0, 1]);
    expected.extend_from_slice(&fattr_bytes(&link));
    expected.extend_from_slice(&pre_op(&dir_before));
    expected.extend_from_slice(&[0, 0, 0, 0]);
    assert_eq!(ok, expected);
    let err = symlink_reply(2, &Err(nfsstat3::NFS3ERR_EXIST), &None, &None);
    let mut expected = header(2);
    expected.extend_from_slice(&17u32.to_be_bytes());
    expected.extend_from_slice(&[0, 0, 0, 0, 0, 0, 0, 0]);
    assert_eq!(err, expected);
}

fn null_call(xid: u32, prog: u32, vers: u32, procedure: u32) -> Vec<u8> {
    let mut v = Vec::new();
    for w in [xid, 0, 2, prog, vers, procedure, 0, 0, 0, 0] {
        v.extend_from_slice(&w.to_be_bytes());
    }
    v
}

#[test]
fn test_client_numbers_its_calls() {
    let mut c = NFSClient::new();
    let (null, mnt) = c.mount_calls("bob");
    assert_eq!(null, null_call(1, 100005, 3, 0));
    let mut expected = null_call(2, 100005, 3, 1);
    expected.extend_from_slice(&12u32.to_be_bytes());
    expected.extend_from_slice(b"/bob's drive");
    assert_eq!(mnt, expected);
    assert_eq!(c.xid, 2);
    c.set_root_handle(vec![9; 8]);
    assert_eq!(c._root_fh, Some(vec![9; 8]));
    assert_eq!(c.root_attributes_call(), null_call(3, 100003, 3, 1));
    c.xid = u32::MAX;
    assert_eq!(c.next_xid(), 0);
}

#[test]
fn test_nfsproc3_create_readonly() {
    // CREATE (procedure 8) on a read-only export never reaches its handler.
    assert_eq!(route_nfs(3, 8, VFSCapabilities::ReadOnly), NfsRoute::ReadOnly);
    let response = rofs_reply_message(1);
    assert!(response.len() > 0);
    assert_eq!(&response[24..28], &30u32.to_be_bytes());
    assert_eq!(response, wcc_failure_reply(1, nfsstat3::NFS3ERR_ROFS));
}

#[test]
fn mount_starts_where_the_user_key_says() {
    assert_eq!(mount_start(b"/alice's drive", KeyType::Usual), Ok(b"/alice".to_vec()));
    assert_eq!(mount_start(b"/x/alice's drive", KeyType::Special), Ok(b"/".to_vec()));
    let unknown = mount_start(b"/alice's drive", KeyType::Unknown);
    assert_eq!(unknown, Err(MountRefusal::AuthenticationFailed));
    assert_eq!(MountRefusal::AuthenticationFailed.message(), "Authentication failed");
    let none = mount_start(b"/data", KeyType::Usual);
    assert_eq!(none, Err(MountRefusal::UserKeyNotProvided));
    assert_eq!(MountRefusal::UserKeyNotProvided.message(), "User key not provided");
}

#[test]
fn mnt_reply_with_and_without_a_handle() {
    let mut noent = header(3);
    noent.extend_from_slice(&2u32.to_be_bytes());
    assert_eq!(mnt_reply(3, None), noent);
    let mut ok = header(3);
    for w in [0u32, 2] {
        ok.extend_from_slice(&w.to_be_bytes());
    }
    ok.extend_from_slice(&[9, 9, 0, 0]);
    for w in [2u32, 0, 1] {
        ok.extend_from_slice(&w.to_be_bytes());
    }
    assert_eq!(mnt_reply(3, Some(&[9, 9])), ok);
}
