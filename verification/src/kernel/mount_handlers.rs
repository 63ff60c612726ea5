//! The MOUNT program: which procedure a call names, who a mount path
//! belongs to, where that user's mount begins, and the replies.

use vstd::prelude::*;
use crate::kernel::reply::{push_accepted_reply, success_reply};
use crate::text::string_from_utf8;
use crate::xdr::{be32, opaque, push_opaque, push_u32};

verus! {

/// The procedures of MOUNT version 3, numbered 0 to 5 in this order; any
/// other number is `INVALID`.
#[allow(non_camel_case_types)]
#[derive(Debug, Clone, Copy, PartialEq, Eq, Structural)]
pub enum MountProgram {
    MOUNTPROC3_NULL,
    MOUNTPROC3_MNT,
    MOUNTPROC3_DUMP,
    MOUNTPROC3_UMNT,
    MOUNTPROC3_UMNTALL,
    MOUNTPROC3_EXPORT,
    INVALID,
}

/// The procedure numbered `p`.
pub open spec fn mount_program_spec(p: u32) -> MountProgram {
    if p == 0 {
        MountProgram::MOUNTPROC3_NULL
    } else if p == 1 {
        MountProgram::MOUNTPROC3_MNT
    } else if p == 2 {
        MountProgram::MOUNTPROC3_DUMP
    } else if p == 3 {
        MountProgram::MOUNTPROC3_UMNT
    } else if p == 4 {
        MountProgram::MOUNTPROC3_UMNTALL
    } else if p == 5 {
        MountProgram::MOUNTPROC3_EXPORT
    } else {
        MountProgram::INVALID
    }
}

impl MountProgram {
    /// The procedure numbered `p`.
    pub fn from_u32(p: u32) -> (r: MountProgram)
        ensures
            r == mount_program_spec(p),
    {
        match p {
            0 => MountProgram::MOUNTPROC3_NULL,
            1 => MountProgram::MOUNTPROC3_MNT,
            2 => MountProgram::MOUNTPROC3_DUMP,
            3 => MountProgram::MOUNTPROC3_UMNT,
            4 => MountProgram::MOUNTPROC3_UMNTALL,
            5 => MountProgram::MOUNTPROC3_EXPORT,
            _ => MountProgram::INVALID,
        }
    }
}

/// Whether the server implements procedure `p`: all but DUMP and invalid
/// numbers, which are answered PROC_UNAVAIL.
pub open spec fn mount_procedure_served(p: MountProgram) -> bool {
    p != MountProgram::MOUNTPROC3_DUMP && p != MountProgram::INVALID
}

/// Whether the server implements the MOUNT procedure numbered `procedure`.
pub fn handle_mount(procedure: u32) -> (r: (MountProgram, bool))
    ensures
        r.0 == mount_program_spec(procedure),
        r.1 == mount_procedure_served(r.0),
{
    let p = MountProgram::from_u32(procedure);
    let served = match p {
        MountProgram::MOUNTPROC3_DUMP | MountProgram::INVALID => false,
        _ => true,
    };
    (p, served)
}

/// The number RFC 1813 gives MOUNT procedure `p`.
pub open spec fn mount_procedure_number(p: MountProgram) -> u32 {
    match p {
        MountProgram::MOUNTPROC3_NULL => 0,
        MountProgram::MOUNTPROC3_MNT => 1,
        MountProgram::MOUNTPROC3_DUMP => 2,
        MountProgram::MOUNTPROC3_UMNT => 3,
        MountProgram::MOUNTPROC3_UMNTALL => 4,
        MountProgram::MOUNTPROC3_EXPORT => 5,
        MountProgram::INVALID => 6,
    }
}

/// A MOUNT call names the procedure with its number (numbers past 5 name
/// none), and NULL, MNT, UMNT, UMNTALL and EXPORT (0, 1, 3, 4, 5) are
/// served while DUMP (2) and unknown numbers are answered PROC_UNAVAIL.
pub proof fn lemma_mount_procedures_served(procedure: u32)
    ensures
        procedure <= 5 ==> mount_procedure_number(mount_program_spec(procedure)) == procedure,
        procedure > 5 ==> mount_program_spec(procedure) == MountProgram::INVALID,
        mount_procedure_served(mount_program_spec(procedure)) == (procedure <= 5 && procedure
            != 2),
{
}

/// The reply to the MOUNT NULL procedure: a bare successful reply.
pub fn mountproc3_null(xid: u32) -> (out: Vec<u8>)
    ensures
        out@ == success_reply(xid),
{
    let mut out: Vec<u8> = Vec::new();
    push_accepted_reply(&mut out, xid, 0);
    out
}

/// The export list the server announces: one entry, `/`, open to every
/// group.
pub open spec fn export_reply(xid: u32) -> Seq<u8> {
    success_reply(xid) + be32(1) + opaque(seq![0x2fu8]) + be32(0) + be32(0)
}

/// The reply to EXPORT.
pub fn mountproc3_export(xid: u32) -> (out: Vec<u8>)
    ensures
        out@ == export_reply(xid),
{
    let mut out: Vec<u8> = Vec::new();
    push_accepted_reply(&mut out, xid, 0);
    push_u32(&mut out, 1);
    let root: [u8; 1] = [0x2f];
    push_opaque(&mut out, root.as_slice());
    push_u32(&mut out, 0);
    push_u32(&mut out, 0);
    assert(root@ =~= seq![0x2fu8]);
    assert(out@ =~= export_reply(xid));
    out
}

/// The reply to UMNT and UMNTALL: success, status MNT3_OK (0).
pub open spec fn unmount_reply(xid: u32) -> Seq<u8> {
    success_reply(xid) + be32(0)
}

/// The reply to UMNT and UMNTALL.
pub fn mountproc3_umnt(xid: u32) -> (out: Vec<u8>)
    ensures
        out@ == unmount_reply(xid),
{
    let mut out: Vec<u8> = Vec::new();
    push_accepted_reply(&mut out, xid, 0);
    push_u32(&mut out, 0);
    assert(out@ =~= unmount_reply(xid));
    out
}

/// The successful MNT reply: status MNT3_OK, the root handle of the mount
/// as an opaque field, and the two accepted flavors AUTH_NULL and AUTH_UNIX.
pub open spec fn mnt_ok_reply(xid: u32, fhandle: Seq<u8>) -> Seq<u8> {
    success_reply(xid) + be32(0) + opaque(fhandle) + be32(2) + be32(0) + be32(1)
}

/// Builds the successful MNT reply.
pub fn mnt_ok_reply_message(xid: u32, fhandle: &[u8]) -> (out: Vec<u8>)
    requires
        fhandle@.len() <= u32::MAX,
    ensures
        out@ == mnt_ok_reply(xid, fhandle@),
{
    let mut out: Vec<u8> = Vec::new();
    push_accepted_reply(&mut out, xid, 0);
    push_u32(&mut out, 0);
    push_opaque(&mut out, fhandle);
    push_u32(&mut out, 2);
    push_u32(&mut out, 0);
    push_u32(&mut out, 1);
    assert(out@ =~= mnt_ok_reply(xid, fhandle@));
    out
}

/// The MNT reply when the mount directory is unknown: MNT3ERR_NOENT (2).
pub open spec fn mnt_noent_reply(xid: u32) -> Seq<u8> {
    success_reply(xid) + be32(2)
}

/// Builds the MNT reply for an unknown mount directory.
pub fn mnt_noent_reply_message(xid: u32) -> (out: Vec<u8>)
    ensures
        out@ == mnt_noent_reply(xid),
{
    let mut out: Vec<u8> = Vec::new();
    push_accepted_reply(&mut out, xid, 0);
    push_u32(&mut out, 2);
    assert(out@ =~= mnt_noent_reply(xid));
    out
}

/// The bytes that end a mount path component naming a user's drive:
/// `'s drive`.
pub open spec fn drive_suffix() -> Seq<u8> {
    seq![0x27u8, 0x73, 0x20, 0x64, 0x72, 0x69, 0x76, 0x65]
}

/// Whether `c` ends with `'s drive`.
pub open spec fn ends_with_drive(c: Seq<u8>) -> bool {
    c.len() >= 8 && c.subrange(c.len() - 8, c.len() as int) == drive_suffix()
}

/// `c` with every trailing `'s drive` taken off.
pub open spec fn trim_drive(c: Seq<u8>) -> Seq<u8>
    decreases c.len(),
{
    if ends_with_drive(c) {
        trim_drive(c.subrange(0, c.len() - 8))
    } else {
        c
    }
}

/// The components of a path split at every `/` (an empty path has one,
/// empty, component).
pub open spec fn components(s: Seq<u8>) -> Seq<Seq<u8>>
    decreases s.len(),
{
    if s.len() == 0 {
        seq![Seq::empty()]
    } else {
        let cs = components(s.drop_last());
        if s.last() == 0x2f {
            cs.push(Seq::empty())
        } else {
            cs.drop_last().push(cs.last().push(s.last()))
        }
    }
}

/// The user named by the last component that ends in `'s drive`, with
/// those endings taken off.
pub open spec fn drive_owner(cs: Seq<Seq<u8>>) -> Option<Seq<u8>>
    decreases cs.len(),
{
    if cs.len() == 0 {
        None
    } else if ends_with_drive(cs.last()) {
        Some(trim_drive(cs.last()))
    } else {
        drive_owner(cs.drop_last())
    }
}

/// The user a MNT path names, if it is UTF-8 and one of its components ends
/// in `'s drive` (the last such component counts).
pub open spec fn mount_user_key_spec(path: Seq<u8>) -> Option<Seq<u8>> {
    if !vstd::utf8::valid_utf8(path) {
        None
    } else {
        drive_owner(components(path))
    }
}

proof fn lemma_components_nonempty(s: Seq<u8>)
    ensures
        components(s).len() >= 1,
    decreases s.len(),
{
    if s.len() > 0 {
        lemma_components_nonempty(s.drop_last());
    }
}

/// Whether the bytes of `c` end with `'s drive`.
fn ends_with_drive_exec(c: &Vec<u8>) -> (b: bool)
    ensures
        b == ends_with_drive(c@),
{
    let n = c.len();
    if n < 8 {
        return false;
    }
    let b = c[n - 8] == 0x27 && c[n - 7] == 0x73 && c[n - 6] == 0x20 && c[n - 5] == 0x64 && c[n
        - 4] == 0x72 && c[n - 3] == 0x69 && c[n - 2] == 0x76 && c[n - 1] == 0x65;
    assert(b == (c@.subrange(n - 8, n as int) =~= drive_suffix()));
    b
}

/// `c` with every trailing `'s drive` taken off.
fn trim_drive_exec(start: Vec<u8>) -> (t: Vec<u8>)
    ensures
        t@ == trim_drive(start@),
{
    let mut c = start;
    while ends_with_drive_exec(&c)
        invariant
            trim_drive(c@) == trim_drive(start@),
        decreases c@.len(),
    {
        let n = c.len();
        c.truncate(n - 8);
    }
    c
}

/// The user a MNT path names: the last `/`-separated component that ends in
/// `'s drive`, with those endings taken off; `None` when there is none or
/// the path is not UTF-8.
pub fn mount_user_key(path: &[u8]) -> (r: Option<Vec<u8>>)
    ensures
        match r {
            Some(k) => mount_user_key_spec(path@) == Some(k@),
            None => mount_user_key_spec(path@) is None,
        },
{
    let mut copy: Vec<u8> = Vec::new();
    crate::xdr::push_bytes(&mut copy, path);
    assert(copy@ =~= path@);
    if string_from_utf8(copy).is_err() {
        return None;
    }
    let mut best: Option<Vec<u8>> = None;
    let mut cur: Vec<u8> = Vec::new();
    let ghost mut done: Seq<Seq<u8>> = Seq::empty();
    let mut i: usize = 0;
    while i < path.len()
        invariant
            i <= path@.len(),
            components(path@.take(i as int)) == done.push(cur@),
            match best {
                Some(k) => drive_owner(done) == Some(k@),
                None => drive_owner(done) is None,
            },
        decreases path@.len() - i,
    {
        let b = path[i];
        proof {
            assert(path@.take(i + 1).drop_last() =~= path@.take(i as int));
            assert(path@.take(i + 1).last() == b);
        }
        if b == 0x2f {
            let finished = cur;
            let matched = ends_with_drive_exec(&finished);
            proof {
                assert((done.push(finished@)).drop_last() =~= done);
                assert((done.push(finished@)).last() == finished@);
            }
            if matched {
                best = Some(trim_drive_exec(finished));
            }
            proof {
                done = done.push(finished@);
            }
            cur = Vec::new();
        } else {
            let ghost before = cur@;
            cur.push(b);
            proof {
                assert(done.push(before).drop_last() =~= done);
            }
        }
        i = i + 1;
    }
    proof {
        assert(path@.take(path@.len() as int) =~= path@);
        assert((done.push(cur@)).drop_last() =~= done);
    }
    if ends_with_drive_exec(&cur) {
        Some(trim_drive_exec(cur))
    } else {
        best
    }
}

/// What the data store says of a user key.
#[derive(Debug, Clone, Copy, PartialEq, Eq, Structural)]
pub enum KeyType {
    /// A standard user: mounts their own directory.
    Usual,
    /// A superuser: mounts the root.
    Special,
    /// Unknown: the mount is refused.
    Unknown,
}

/// Where the mount of user `key` begins: `/key` for a standard user, `/`
/// for a superuser, nowhere for an unknown one.
pub open spec fn mount_directory_spec(key: Seq<u8>, kind: KeyType) -> Option<Seq<u8>> {
    match kind {
        KeyType::Usual => Some(seq![0x2fu8] + key),
        KeyType::Special => Some(seq![0x2fu8]),
        KeyType::Unknown => Option::None,
    }
}

/// Where the mount of user `key` begins.
pub fn mount_directory(key: &[u8], kind: KeyType) -> (r: Option<Vec<u8>>)
    ensures
        match r {
            Some(d) => mount_directory_spec(key@, kind) == Some(d@),
            Option::None => mount_directory_spec(key@, kind) is None,
        },
{
    match kind {
        KeyType::Usual => {
            let mut d: Vec<u8> = Vec::new();
            d.push(0x2f);
            crate::xdr::push_bytes(&mut d, key);
            Some(d)
        },
        KeyType::Special => {
            let mut d: Vec<u8> = Vec::new();
            d.push(0x2f);
            assert(d@ =~= seq![0x2fu8]);
            Some(d)
        },
        KeyType::Unknown => Option::None,
    }
}

/// Why a mount is refused; the caller answers with a failure reply.
#[derive(Debug, Clone, Copy, PartialEq, Eq, Structural)]
pub enum MountRefusal {
    /// The path names no user's drive.
    UserKeyNotProvided,
    /// The data store does not know the user key.
    AuthenticationFailed,
}

/// The text of a refusal.
pub open spec fn refusal_text(r: MountRefusal) -> Seq<char> {
    match r {
        MountRefusal::UserKeyNotProvided => "User key not provided"@,
        MountRefusal::AuthenticationFailed => "Authentication failed"@,
    }
}

impl MountRefusal {
    /// The text of the refusal.
    pub fn message(&self) -> (s: String)
        ensures
            s@ == refusal_text(*self),
    {
        match self {
            MountRefusal::UserKeyNotProvided => "User key not provided".to_owned(),
            MountRefusal::AuthenticationFailed => "Authentication failed".to_owned(),
        }
    }
}

/// Where the mount of the path `path` begins, once the user key that the
/// path names has been authenticated as `kind`: refused when the path
/// names no user, or when the key is unknown; otherwise `/key` for a
/// standard user and `/` for a superuser. `kind` is not looked at when the
/// path names no user.
pub fn mount_start(path: &[u8], kind: KeyType) -> (r: Result<Vec<u8>, MountRefusal>)
    ensures
        match mount_user_key_spec(path@) {
            Option::None => r == Err::<Vec<u8>, MountRefusal>(MountRefusal::UserKeyNotProvided),
            Some(key) => match mount_directory_spec(key, kind) {
                Some(d) => r matches Ok(v) && v@ == d,
                Option::None => r == Err::<Vec<u8>, MountRefusal>(
                    MountRefusal::AuthenticationFailed,
                ),
            },
        },
{
    match mount_user_key(path) {
        Option::None => Err(MountRefusal::UserKeyNotProvided),
        Some(key) => match mount_directory(key.as_slice(), kind) {
            Some(d) => Ok(d),
            Option::None => Err(MountRefusal::AuthenticationFailed),
        },
    }
}

/// The MNT reply once the mount directory has been looked up: with its
/// file handle the successful reply, without one MNT3ERR_NOENT.
pub fn mnt_reply(xid: u32, fhandle: Option<&[u8]>) -> (out: Vec<u8>)
    requires
        fhandle matches Some(f) ==> f@.len() <= u32::MAX,
    ensures
        out@ == match fhandle {
            Some(f) => mnt_ok_reply(xid, f@),
            Option::None => mnt_noent_reply(xid),
        },
{
    match fhandle {
        Some(f) => mnt_ok_reply_message(xid, f),
        Option::None => mnt_noent_reply_message(xid),
    }
}

/// A path without `/` has itself as its one component.
proof fn lemma_components_no_slash(s: Seq<u8>)
    requires
        !s.contains(0x2fu8),
    ensures
        components(s) == seq![s],
    decreases s.len(),
{
    if s.len() > 0 {
        let t = s.drop_last();
        assert(!t.contains(0x2fu8)) by {
            if t.contains(0x2fu8) {
                let i = choose|i: int| 0 <= i < t.len() && t[i] == 0x2fu8;
                assert(s[i] == 0x2fu8);
            }
        }
        lemma_components_no_slash(t);
        assert(s.last() != 0x2fu8) by {
            assert(s[s.len() - 1] == s.last());
        }
        assert(t.push(s.last()) =~= s);
        assert(seq![t].drop_last().push(seq![t].last().push(s.last())) =~= seq![s]);
    } else {
        assert(s =~= Seq::<u8>::empty());
    }
}

/// The server finds, in the path of the MNT call the client sends for a
/// user, that user's name: the client sends the name followed by `'s
/// drive`, and for a UTF-8 name without `/` that does not itself end in
/// `'s drive`, the key read back is the name; a standard user's mount then
/// starts at `/name` and a superuser's at `/`.
pub proof fn lemma_mount_key_round_trip(name: Seq<u8>)
    requires
        vstd::utf8::valid_utf8(name + crate::rpc::mount::drive_suffix()),
        !name.contains(0x2fu8),
        !ends_with_drive(name),
    ensures
        mount_user_key_spec(name + crate::rpc::mount::drive_suffix()) == Some(name),
        mount_directory_spec(name, KeyType::Usual) == Some(seq![0x2fu8] + name),
        mount_directory_spec(name, KeyType::Special) == Some(seq![0x2fu8]),
        mount_directory_spec(name, KeyType::Unknown) is None,
{
    let path = name + crate::rpc::mount::drive_suffix();
    assert(crate::rpc::mount::drive_suffix() =~= drive_suffix());
    assert(!path.contains(0x2fu8)) by {
        if path.contains(0x2fu8) {
            let i = choose|i: int| 0 <= i < path.len() && path[i] == 0x2fu8;
            if i < name.len() {
                assert(name[i] == 0x2fu8);
            } else {
                assert(drive_suffix()[i - name.len()] == 0x2fu8);
            }
        }
    }
    lemma_components_no_slash(path);
    assert(path.subrange(path.len() - 8, path.len() as int) =~= drive_suffix());
    assert(path.subrange(0, path.len() - 8) =~= name);
    assert(seq![path].drop_last() =~= Seq::<Seq<u8>>::empty());
    assert(ends_with_drive(path));
    assert(trim_drive(name) == name);
    assert(trim_drive(path) == trim_drive(path.subrange(0, path.len() - 8)));
    assert(trim_drive(path) == name);
    assert(seq![path].last() == path);
    assert(drive_owner(seq![path]) == Some(name));
    assert(components(path) == seq![path]);
}

} // verus!
