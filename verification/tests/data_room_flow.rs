use graymamba::data_room::{
    listing_from_entries, listing_from_reply, DataRoomAction, DataRoomEvent, DataRoomState, DirHandle, FileEntry,
    SessionInfo,
};
use graymamba::rpc::readdirplus::{build_readdirplus_call, EntryPlus3, ReaddirplusReply};
use graymamba::rpc::{Fattr3, Nfstime3, Rdev3};

fn attrs(size: u64) -> Fattr3 {
    let t = Nfstime3 { seconds: 0, nseconds: 0 };
    Fattr3 {
        file_type: 1,
        mode: 0o644,
        nlink: 1,
        uid: 0,
        gid: 0,
        size,
        used: size,
        rdev: Rdev3 { specdata1: 0, specdata2: 0 },
        fsid: 0,
        fileid: 0,
        atime: t,
        mtime: t,
        ctime: t,
    }
}

fn entry(id: u64, name: &str, size: Option<u64>, handle: Option<[u8; 16]>) -> EntryPlus3 {
    EntryPlus3 {
        fileid: id,
        name: name.to_string(),
        cookie: id,
        name_attributes: size.map(attrs),
        name_handle: handle,
    }
}

#[test]
fn listing_keeps_entries_with_attributes_and_handles() {
    let entries = vec![
        entry(1, "a.txt", Some(10), Some([1; 16])),
        entry(2, "no-handle", Some(5), None),
        entry(3, "no-attrs", None, Some([3; 16])),
        entry(4, "b.pdf", Some(20), Some([4; 16])),
    ];
    let (files, handles) = listing_from_entries(&entries);
    let names: Vec<&str> = files.iter().map(|f| f.name.as_str()).collect();
    assert_eq!(names, vec!["a.txt", "b.pdf"]);
    assert_eq!(files[1].size, 20);
    assert_eq!(files[1].file_id, 4);
    assert_eq!(files[0].modified, "");
    assert_eq!(handles.len(), 2);
    assert_eq!(handles[0].handle, [1; 16]);
    assert_eq!(handles[1].name, "b.pdf");
    assert_eq!(handles[1].size, 20);
}

#[test]
fn login_connect_refresh_and_logout() {
    let mut room = DataRoomState::new();
    assert!(matches!(room.update(DataRoomEvent::ShowLogin), DataRoomAction::Nothing));
    assert!(room.login_state.is_visible);
    room.update(DataRoomEvent::UpdateUsername("alice".to_string()));
    match room.update(DataRoomEvent::AttemptLogin) {
        DataRoomAction::Connect { username } => assert_eq!(username, "alice"),
        _ => panic!("a login attempt connects"),
    }
    // Before a session exists, a refresh does nothing and logout finishes at once.
    assert!(matches!(room.update(DataRoomEvent::RefreshFiles), DataRoomAction::Nothing));
    assert!(matches!(room.update(DataRoomEvent::Logout), DataRoomAction::FinishLogout));

    let session = SessionInfo { fs_handle: [7; 16], dir_file_handles: Vec::new() };
    assert!(matches!(room.update(DataRoomEvent::NfsConnected(Ok(session))), DataRoomAction::Refresh));
    assert_eq!(room.authenticated_user.as_deref(), Some("alice"));
    assert!(!room.login_state.is_visible);
    match room.update(DataRoomEvent::RefreshFiles) {
        DataRoomAction::ListDirectory { call } => {
            assert_eq!(call, build_readdirplus_call(4, &[7; 16], 0, 0, 8192, 32768))
        }
        _ => panic!("a refresh with a session lists the root"),
    }
    let files = vec![FileEntry { name: "x".to_string(), size: 1, modified: String::new(), file_id: 9 }];
    let handles = vec![DirHandle { handle: [9; 16], name: "x".to_string(), size: 1 }];
    room.update(DataRoomEvent::NfsFilesLoaded(Ok((files, handles))));
    assert_eq!(room.files.len(), 1);
    assert_eq!(room.nfs_session.as_ref().unwrap().dir_file_handles.len(), 1);
    assert_eq!(room.nfs_session.as_ref().unwrap().fs_handle, [7; 16]);

    assert!(matches!(room.update(DataRoomEvent::Logout), DataRoomAction::Disconnect));
    room.update(DataRoomEvent::LogoutComplete);
    assert!(room.authenticated_user.is_none());
    assert!(room.nfs_session.is_none());
    assert!(room.files.is_empty());
    assert_eq!(room.login_state.username, "alice");
}

#[test]
fn errors_are_kept_for_display() {
    let mut room = DataRoomState::new();
    room.update(DataRoomEvent::NfsConnected(Err("refused".to_string())));
    assert_eq!(room.error_message.as_deref(), Some("refused"));
    assert!(room.nfs_session.is_none());
    room.update(DataRoomEvent::NfsFilesLoaded(Err("bad listing".to_string())));
    assert_eq!(room.error_message.as_deref(), Some("bad listing"));
    room.update(DataRoomEvent::ShowLogin);
    room.update(DataRoomEvent::CloseLogin);
    assert!(!room.login_state.is_visible);
    assert!(room.login_state.error.is_none());
    room.update(DataRoomEvent::UpdateUsername("bob".to_string()));
    room.update(DataRoomEvent::Login);
    assert_eq!(room.authenticated_user.as_deref(), Some("bob"));
}

#[test]
fn refused_listing_is_an_error() {
    let refused = ReaddirplusReply {
        status: 70,
        dir_attributes: None,
        cookieverf: 0,
        entries: Vec::new(),
        eof: true,
    };
    assert_eq!(listing_from_reply(&refused).err().unwrap(), "Failed to read directory");
    let ok = ReaddirplusReply {
        status: 0,
        dir_attributes: None,
        cookieverf: 0,
        entries: vec![entry(1, "a", Some(3), Some([2; 16])), entry(2, "b", None, None)],
        eof: true,
    };
    let (files, handles) = listing_from_reply(&ok).ok().unwrap();
    assert_eq!(files.len(), 1);
    assert_eq!(handles[0].name, "a");
}
