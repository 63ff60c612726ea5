//! The data room client's state and how it answers each event: what it
//! remembers and which piece of outside work (connecting, listing a
//! directory, disconnecting) it asks for next. The caller performs that
//! work and hands the outcome back as the next event.

use vstd::prelude::*;
use crate::rpc::readdirplus::{build_readdirplus_call, readdirplus_call, EntryPlus3, ReaddirplusReply};
use crate::text::concat_str;

verus! {

/// A file as the room lists it.
pub struct FileEntry {
    pub name: String,
    pub size: u64,
    pub modified: String,
    pub file_id: u64,
}

/// A directory entry's handle, with its name and size.
pub struct DirHandle {
    pub handle: [u8; 16],
    pub name: String,
    pub size: u64,
}

/// The login form.
pub struct LoginState {
    pub username: String,
    pub error: Option<String>,
    pub is_visible: bool,
}

/// What the room keeps of a mounted session: the root handle and the
/// handles of the files last listed.
pub struct SessionInfo {
    pub fs_handle: [u8; 16],
    pub dir_file_handles: Vec<DirHandle>,
}

/// The room's state.
pub struct DataRoomState {
    pub login_state: LoginState,
    pub authenticated_user: Option<String>,
    pub files: Vec<FileEntry>,
    pub error_message: Option<String>,
    pub nfs_session: Option<SessionInfo>,
}

/// What happens to the room.
pub enum DataRoomEvent {
    ShowLogin,
    CloseLogin,
    UpdateUsername(String),
    AttemptLogin,
    Logout,
    LogoutComplete,
    RefreshFiles,
    Login,
    NfsConnected(Result<SessionInfo, String>),
    NfsFilesLoaded(Result<(Vec<FileEntry>, Vec<DirHandle>), String>),
}

/// The outside work the room asks for after an event.
pub enum DataRoomAction {
    /// Nothing to do.
    Nothing,
    /// Connect and mount as `username`, then report `NfsConnected`.
    Connect { username: String },
    /// Close the held session, then report `LogoutComplete`.
    Disconnect,
    /// No session is held: report `LogoutComplete` at once.
    FinishLogout,
    /// Send this READDIRPLUS call on the session and report
    /// `NfsFilesLoaded` with what came back.
    ListDirectory { call: Vec<u8> },
    /// Report `RefreshFiles`.
    Refresh,
}

/// The READDIRPLUS call that lists the root `fs_handle`: transaction 4,
/// from the first entry, 8 KiB of names and 32 KiB in all.
pub open spec fn listing_call(fs_handle: Seq<u8>) -> Seq<u8> {
    readdirplus_call(4, fs_handle, 0, 0, 8192, 32768)
}

/// Whether a listed entry carries both its attributes and its handle.
pub open spec fn is_listable(e: EntryPlus3) -> bool {
    e.name_attributes is Some && e.name_handle is Some
}

/// The entries of `es` that are shown, in order.
pub open spec fn listable(es: Seq<EntryPlus3>) -> Seq<EntryPlus3>
    decreases es.len(),
{
    if es.len() == 0 {
        Seq::empty()
    } else if is_listable(es.last()) {
        listable(es.drop_last()).push(es.last())
    } else {
        listable(es.drop_last())
    }
}

/// Whether `f` is the room's entry for the listed `e`.
pub open spec fn file_of(f: FileEntry, e: EntryPlus3) -> bool {
    &&& f.name@ == e.name@
    &&& f.size == e.name_attributes.unwrap().size
    &&& f.modified@ == Seq::<char>::empty()
    &&& f.file_id == e.fileid
}

/// Whether `h` is the handle record of the listed `e`.
pub open spec fn handle_of(h: DirHandle, e: EntryPlus3) -> bool {
    &&& h.handle == e.name_handle.unwrap()
    &&& h.name@ == e.name@
    &&& h.size == e.name_attributes.unwrap().size
}

proof fn lemma_listable_len(es: Seq<EntryPlus3>)
    ensures
        listable(es).len() <= es.len(),
    decreases es.len(),
{
    if es.len() > 0 {
        lemma_listable_len(es.drop_last());
    }
}

/// The files and handles of a directory listing: one of each for every
/// entry that carries both attributes and a handle, in the listing's order.
pub fn listing_from_entries(entries: &Vec<EntryPlus3>) -> (r: (Vec<FileEntry>, Vec<DirHandle>))
    ensures
        r.0@.len() == listable(entries@).len(),
        r.1@.len() == listable(entries@).len(),
        forall|i: int|
            0 <= i < r.0@.len() ==> file_of(#[trigger] r.0@[i], listable(entries@)[i]),
        forall|i: int|
            0 <= i < r.1@.len() ==> handle_of(#[trigger] r.1@[i], listable(entries@)[i]),
{
    let mut files: Vec<FileEntry> = Vec::new();
    let mut handles: Vec<DirHandle> = Vec::new();
    let mut i: usize = 0;
    while i < entries.len()
        invariant
            i <= entries@.len(),
            files@.len() == listable(entries@.take(i as int)).len(),
            handles@.len() == listable(entries@.take(i as int)).len(),
            forall|k: int|
                0 <= k < files@.len() ==> file_of(
                    #[trigger] files@[k],
                    listable(entries@.take(i as int))[k],
                ),
            forall|k: int|
                0 <= k < handles@.len() ==> handle_of(
                    #[trigger] handles@[k],
                    listable(entries@.take(i as int))[k],
                ),
        decreases entries@.len() - i,
    {
        let e = &entries[i];
        let ghost before = entries@.take(i as int);
        let ghost after = entries@.take(i + 1);
        assert(after.drop_last() =~= before);
        assert(after.last() == *e);
        match (&e.name_attributes, &e.name_handle) {
            (Some(attrs), Some(handle)) => {
                files.push(
                    FileEntry {
                        name: e.name.clone(),
                        size: attrs.size,
                        modified: String::new(),
                        file_id: e.fileid,
                    },
                );
                handles.push(DirHandle { handle: *handle, name: e.name.clone(), size: attrs.size });
            },
            _ => {},
        }
        i = i + 1;
    }
    assert(entries@.take(entries@.len() as int) =~= entries@);
    (files, handles)
}

/// The files and handles a READDIRPLUS reply lists, or the room's error
/// when the server refused the listing.
pub fn listing_from_reply(reply: &ReaddirplusReply) -> (r: Result<(Vec<FileEntry>, Vec<DirHandle>), String>)
    ensures
        reply.status != 0 ==> (r matches Err(e) && e@ == "Failed to read directory"@),
        reply.status == 0 ==> (r matches Ok(l) && {
            &&& l.0@.len() == listable(reply.entries@).len()
            &&& l.1@.len() == listable(reply.entries@).len()
            &&& forall|i: int|
                0 <= i < l.0@.len() ==> file_of(#[trigger] l.0@[i], listable(reply.entries@)[i])
            &&& forall|i: int|
                0 <= i < l.1@.len() ==> handle_of(#[trigger] l.1@[i], listable(reply.entries@)[i])
        }),
{
    proof {
        reveal_strlit("");
    }
    if reply.status != 0 {
        return Err(concat_str("Failed to read directory", ""));
    }
    Ok(listing_from_entries(&reply.entries))
}

impl LoginState {
    /// The empty, hidden login form.
    pub fn new() -> (l: LoginState)
        ensures
            l.username@ == Seq::<char>::empty(),
            l.error is None,
            !l.is_visible,
    {
        LoginState { username: String::new(), error: None, is_visible: false }
    }
}

impl DataRoomState {
    /// A room with nobody logged in, no session and no files.
    pub fn new() -> (s: DataRoomState)
        ensures
            s.login_state.username@ == Seq::<char>::empty(),
            s.login_state.error is None,
            !s.login_state.is_visible,
            s.authenticated_user is None,
            s.files@.len() == 0,
            s.error_message is None,
            s.nfs_session is None,
    {
        DataRoomState {
            login_state: LoginState::new(),
            authenticated_user: None,
            files: Vec::new(),
            error_message: None,
            nfs_session: None,
        }
    }

    /// Answers `event`: changes the state as the room does and returns
    /// the work to do next.
    pub fn update(&mut self, event: DataRoomEvent) -> (a: DataRoomAction)
        ensures
            match event {
                DataRoomEvent::ShowLogin => {
                    &&& final(self).login_state.is_visible
                    &&& final(self).login_state.username == old(self).login_state.username
                    &&& final(self).login_state.error == old(self).login_state.error
                    &&& final(self).authenticated_user == old(self).authenticated_user
                    &&& final(self).files == old(self).files
                    &&& final(self).error_message == old(self).error_message
                    &&& final(self).nfs_session == old(self).nfs_session
                    &&& a is Nothing
                },
                DataRoomEvent::CloseLogin => {
                    &&& !final(self).login_state.is_visible
                    &&& final(self).login_state.error is None
                    &&& final(self).login_state.username == old(self).login_state.username
                    &&& final(self).authenticated_user == old(self).authenticated_user
                    &&& final(self).files == old(self).files
                    &&& final(self).error_message == old(self).error_message
                    &&& final(self).nfs_session == old(self).nfs_session
                    &&& a is Nothing
                },
                DataRoomEvent::UpdateUsername(u) => {
                    &&& final(self).login_state.username == u
                    &&& final(self).login_state.error == old(self).login_state.error
                    &&& final(self).login_state.is_visible == old(self).login_state.is_visible
                    &&& final(self).authenticated_user == old(self).authenticated_user
                    &&& final(self).files == old(self).files
                    &&& final(self).error_message == old(self).error_message
                    &&& final(self).nfs_session == old(self).nfs_session
                    &&& a is Nothing
                },
                DataRoomEvent::AttemptLogin => {
                    &&& *final(self) == *old(self)
                    &&& a matches DataRoomAction::Connect { username } && username@
                        == old(self).login_state.username@
                },
                DataRoomEvent::Logout => {
                    &&& *final(self) == *old(self)
                    &&& (old(self).nfs_session is Some ==> a is Disconnect)
                    &&& (old(self).nfs_session is None ==> a is FinishLogout)
                },
                DataRoomEvent::LogoutComplete => {
                    &&& final(self).authenticated_user is None
                    &&& final(self).nfs_session is None
                    &&& final(self).files@.len() == 0
                    &&& final(self).error_message is None
                    &&& final(self).login_state == old(self).login_state
                    &&& a is Nothing
                },
                DataRoomEvent::RefreshFiles => {
                    &&& *final(self) == *old(self)
                    &&& match old(self).nfs_session {
                        Some(s) => a matches DataRoomAction::ListDirectory { call } && call@
                            == listing_call(s.fs_handle@),
                        None => a is Nothing,
                    }
                },
                DataRoomEvent::Login => {
                    &&& final(self).authenticated_user matches Some(u) && u@
                        == old(self).login_state.username@
                    &&& final(self).login_state == old(self).login_state
                    &&& final(self).files == old(self).files
                    &&& final(self).error_message == old(self).error_message
                    &&& final(self).nfs_session == old(self).nfs_session
                    &&& a is Nothing
                },
                DataRoomEvent::NfsConnected(Ok(session)) => {
                    &&& final(self).nfs_session == Some(session)
                    &&& final(self).authenticated_user matches Some(u) && u@
                        == old(self).login_state.username@
                    &&& !final(self).login_state.is_visible
                    &&& final(self).login_state.username == old(self).login_state.username
                    &&& final(self).login_state.error == old(self).login_state.error
                    &&& final(self).files == old(self).files
                    &&& final(self).error_message == old(self).error_message
                    &&& a is Refresh
                },
                DataRoomEvent::NfsConnected(Err(e)) => {
                    &&& final(self).error_message == Some(e)
                    &&& final(self).login_state == old(self).login_state
                    &&& final(self).authenticated_user == old(self).authenticated_user
                    &&& final(self).files == old(self).files
                    &&& final(self).nfs_session == old(self).nfs_session
                    &&& a is Nothing
                },
                DataRoomEvent::NfsFilesLoaded(Ok((files, handles))) => {
                    &&& final(self).files == files
                    &&& match old(self).nfs_session {
                        Some(s) => final(self).nfs_session == Some(
                            SessionInfo { fs_handle: s.fs_handle, dir_file_handles: handles },
                        ),
                        None => final(self).nfs_session is None,
                    }
                    &&& final(self).login_state == old(self).login_state
                    &&& final(self).authenticated_user == old(self).authenticated_user
                    &&& final(self).error_message == old(self).error_message
                    &&& a is Nothing
                },
                DataRoomEvent::NfsFilesLoaded(Err(e)) => {
                    &&& final(self).error_message == Some(e)
                    &&& final(self).login_state == old(self).login_state
                    &&& final(self).authenticated_user == old(self).authenticated_user
                    &&& final(self).files == old(self).files
                    &&& final(self).nfs_session == old(self).nfs_session
                    &&& a is Nothing
                },
            },
    {
        match event {
            DataRoomEvent::ShowLogin => {
                self.login_state.is_visible = true;
                DataRoomAction::Nothing
            },
            DataRoomEvent::CloseLogin => {
                self.login_state.is_visible = false;
                self.login_state.error = None;
                DataRoomAction::Nothing
            },
            DataRoomEvent::UpdateUsername(username) => {
                self.login_state.username = username;
                DataRoomAction::Nothing
            },
            DataRoomEvent::AttemptLogin => {
                DataRoomAction::Connect { username: self.login_state.username.clone() }
            },
            DataRoomEvent::Logout => {
                if self.nfs_session.is_some() {
                    DataRoomAction::Disconnect
                } else {
                    DataRoomAction::FinishLogout
                }
            },
            DataRoomEvent::LogoutComplete => {
                self.authenticated_user = None;
                self.nfs_session = None;
                self.files = Vec::new();
                self.error_message = None;
                DataRoomAction::Nothing
            },
            DataRoomEvent::RefreshFiles => {
                match &self.nfs_session {
                    Some(s) => {
                        let call = build_readdirplus_call(4, &s.fs_handle, 0, 0, 8192, 32768);
                        DataRoomAction::ListDirectory { call }
                    },
                    None => DataRoomAction::Nothing,
                }
            },
            DataRoomEvent::Login => {
                self.authenticated_user = Some(self.login_state.username.clone());
                DataRoomAction::Nothing
            },
            DataRoomEvent::NfsConnected(result) => {
                match result {
                    Ok(session) => {
                        self.nfs_session = Some(session);
                        self.authenticated_user = Some(self.login_state.username.clone());
                        self.login_state.is_visible = false;
                        DataRoomAction::Refresh
                    },
                    Err(e) => {
                        self.error_message = Some(e);
                        DataRoomAction::Nothing
                    },
                }
            },
            DataRoomEvent::NfsFilesLoaded(result) => {
                match result {
                    Ok((files, handles)) => {
                        match self.nfs_session.take() {
                            Some(s) => {
                                self.nfs_session = Some(
                                    SessionInfo { fs_handle: s.fs_handle, dir_file_handles: handles },
                                );
                            },
                            None => {},
                        }
                        self.files = files;
                        DataRoomAction::Nothing
                    },
                    Err(e) => {
                        self.error_message = Some(e);
                        DataRoomAction::Nothing
                    },
                }
            },
        }
    }
}

} // verus!
