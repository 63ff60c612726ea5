//! The MOUNT call and the credential it carries.

use vstd::prelude::*;
use vstd::string::StringSliceAdditionalSpecFns;
use crate::rpc::call_header;
use crate::rpc::push_call_header;
use crate::xdr::{be32, pad_len, push_bytes, push_u32, push_zeros, read_u32, u32_at, zeros};
use crate::rpc::ReplyError;
use crate::rpc::lookup::read_handle;

verus! {

/// MOUNT program number.
pub const MOUNT_PROGRAM: u32 = 100005;

/// MOUNT protocol version.
pub const MOUNT_VERSION: u32 = 3;

/// The MNT procedure number.
pub const MOUNT_PROC_MNT: u32 = 1;

/// The bytes of the short AUTH_UNIX credential (length word 24, empty
/// machine name, exactly one auxiliary group, 0) and an AUTH_NULL verifier.
pub open spec fn short_auth_bytes(stamp: u32, uid: u32, gid: u32) -> Seq<u8> {
    be32(1) + be32(24) + be32(stamp) + be32(0) + be32(uid) + be32(gid) + be32(1) + be32(0) + be32(
        0,
    ) + be32(0)
}

/// Appends the short credential and an AUTH_NULL verifier.
pub fn push_short_auth(call: &mut Vec<u8>, stamp: u32, uid: u32, gid: u32)
    ensures
        final(call)@ == old(call)@ + short_auth_bytes(stamp, uid, gid),
{
    push_u32(call, 1);
    push_u32(call, 24);
    push_u32(call, stamp);
    push_u32(call, 0);
    push_u32(call, uid);
    push_u32(call, gid);
    push_u32(call, 1);
    push_u32(call, 0);
    push_u32(call, 0);
    push_u32(call, 0);
    assert(call@ =~= old(call)@ + short_auth_bytes(stamp, uid, gid));
}

/// The credential the MOUNT call carries.
pub struct MountAuth {
    stamp: u32,
    machine_name: String,
    uid: u32,
    gid: u32,
    aux_gids: Vec<u32>,
}

impl MountAuth {
    /// Stamp, user id and group id of the credential.
    pub closed spec fn credential(&self) -> (u32, u32, u32) {
        (self.stamp, self.uid, self.gid)
    }

    /// Appends the credential (always with one auxiliary group, 0, whatever
    /// the list holds) and an AUTH_NULL verifier to `call`.
    pub fn write_to_vec(&self, call: &mut Vec<u8>)
        ensures
            final(call)@ == old(call)@ + short_auth_bytes(
                self.credential().0,
                self.credential().1,
                self.credential().2,
            ),
    {
        push_short_auth(call, self.stamp, self.uid, self.gid);
    }
}

impl Default for MountAuth {
    fn default() -> (a: Self)
        ensures
            a.credential() == (0u32, 0u32, 0u32),
    {
        let mut aux_gids: Vec<u32> = Vec::new();
        aux_gids.push(0);
        MountAuth { stamp: 0, machine_name: String::new(), uid: 0, gid: 0, aux_gids }
    }
}

/// The bytes that follow a user name in the mount path: `'s drive`.
pub open spec fn drive_suffix() -> Seq<u8> {
    seq![0x27u8, 0x73, 0x20, 0x64, 0x72, 0x69, 0x76, 0x65]
}

/// The bytes of the MNT call for the drive of the user named by the UTF-8
/// bytes `name`: the path is `name` followed by `'s drive`, sent as an XDR
/// string (its length cut to 32 bits, then the bytes and their padding).
pub open spec fn mount_call(xid: u32, name: Seq<u8>) -> Seq<u8> {
    let path = name + drive_suffix();
    call_header(xid, MOUNT_PROGRAM, MOUNT_VERSION, MOUNT_PROC_MNT) + short_auth_bytes(0, 0, 0)
        + be32(path.len() as u32) + path + zeros(pad_len(path.len()))
}

/// Builds the MNT call for the drive of user `name`.
pub fn build_mount_call(xid: u32, name: &str) -> (call: Vec<u8>)
    ensures
        call@ == mount_call(xid, name.spec_bytes()),
{
    let name_bytes = name.as_bytes();
    let mut path: Vec<u8> = Vec::new();
    push_bytes(&mut path, name_bytes);
    path.push(0x27);
    path.push(0x73);
    path.push(0x20);
    path.push(0x64);
    path.push(0x72);
    path.push(0x69);
    path.push(0x76);
    path.push(0x65);
    assert(path@ =~= name.spec_bytes() + drive_suffix());
    let mut call: Vec<u8> = Vec::new();
    push_call_header(&mut call, xid, MOUNT_PROGRAM, MOUNT_VERSION, MOUNT_PROC_MNT);
    MountAuth::default().write_to_vec(&mut call);
    push_u32(&mut call, path.len() as u32);
    push_bytes(&mut call, path.as_slice());
    let padding = (4 - (path.len() % 4)) % 4;
    push_zeros(&mut call, padding);
    assert(call@ =~= mount_call(xid, name.spec_bytes()));
    call
}

/// The server's answer to MNT: its status and, when that is 0, the handle
/// of the mounted directory (all zeros otherwise).
#[derive(Debug, Clone, Copy, PartialEq, Eq)]
pub struct MountReply {
    pub status: u32,
    pub file_handle: [u8; 16],
}

/// Whether a MNT reply can be decoded without reading past its end: a
/// successful one carries the 16-byte handle after its length word.
pub open spec fn mount_reply_in_bounds(s: Seq<u8>) -> bool {
    s.len() < 28 || u32_at(s, 24) != 0 || s.len() >= 48
}

impl MountReply {
    /// Whether `data` can be decoded without reading past its end.
    pub fn in_bounds(data: &[u8]) -> (b: bool)
        ensures
            b == mount_reply_in_bounds(data@),
    {
        data.len() < 28 || read_u32(data, 24) != 0 || data.len() >= 48
    }

    /// Decodes a MNT reply: after the 24-byte reply header, the status,
    /// then for success the handle's length word and its 16 bytes.
    pub fn from_bytes(data: &[u8]) -> (r: Result<MountReply, ReplyError>)
        requires
            mount_reply_in_bounds(data@),
        ensures
            data@.len() < 28 ==> r == Err::<MountReply, ReplyError>(ReplyError::ReplyTooShort),
            data@.len() >= 28 ==> (r matches Ok(m) && m.status == u32_at(data@, 24) && (m.status
                == 0 ==> m.file_handle@ == data@.subrange(32, 48)) && (m.status != 0
                ==> m.file_handle@ == Seq::new(16, |i: int| 0u8))),
    {
        if data.len() < 28 {
            return Err(ReplyError::ReplyTooShort);
        }
        let status = read_u32(data, 24);
        if status != 0 {
            let h = [0u8; 16];
            assert(h@ =~= Seq::new(16, |i: int| 0u8));
            return Ok(MountReply { status, file_handle: h });
        }
        Ok(MountReply { status, file_handle: read_handle(data, 32) })
    }
}

} // verus!
