//! The server crate's own test client: the calls it sends, with empty
//! (AUTH_NULL) credentials, and the transaction ids it numbers them with.
//! The connection itself belongs to the caller.

use vstd::prelude::*;
use crate::rpc::{call_header, push_call_header, NFS_PROGRAM, NFS_VERSION};
use crate::rpc::mount::{drive_suffix, MOUNT_PROC_MNT, MOUNT_PROGRAM, MOUNT_VERSION};
use crate::xdr::{be32, opaque, push_bytes, push_opaque, push_u32};
use vstd::string::StringSliceAdditionalSpecFns;

verus! {

/// The procedure number of GETATTR.
pub const NFS_PROC_GETATTR: u32 = 1;

/// A call with empty credentials and verifier: the header, then flavor 0
/// with no body, twice.
pub open spec fn null_auth_call(xid: u32, prog: u32, vers: u32, procedure: u32) -> Seq<u8> {
    call_header(xid, prog, vers, procedure) + be32(0) + be32(0) + be32(0) + be32(0)
}

/// Builds a call with empty credentials and verifier.
pub fn build_null_auth_call(xid: u32, prog: u32, vers: u32, procedure: u32) -> (call: Vec<u8>)
    ensures
        call@ == null_auth_call(xid, prog, vers, procedure),
{
    let mut call: Vec<u8> = Vec::new();
    push_call_header(&mut call, xid, prog, vers, procedure);
    push_u32(&mut call, 0);
    push_u32(&mut call, 0);
    push_u32(&mut call, 0);
    push_u32(&mut call, 0);
    assert(call@ =~= null_auth_call(xid, prog, vers, procedure));
    call
}

/// The path of a user's drive: `/`, the UTF-8 bytes of the name, then
/// `'s drive`.
pub open spec fn drive_path(name: Seq<u8>) -> Seq<u8> {
    seq![0x2fu8] + name + drive_suffix()
}

/// The transaction id that follows `x`, wrapping at the top of `u32`.
pub open spec fn next_xid_spec(x: u32) -> u32 {
    if x == u32::MAX {
        0
    } else {
        (x + 1) as u32
    }
}

/// The test client's numbering of its calls and the root handle it
/// mounted.
pub struct NFSClient {
    pub xid: u32,
    pub _root_fh: Option<Vec<u8>>,
}

impl NFSClient {
    /// A client that has sent nothing and mounted nothing.
    pub fn new() -> (c: NFSClient)
        ensures
            c.xid == 0,
            c._root_fh is None,
    {
        NFSClient { xid: 0, _root_fh: None }
    }

    /// The id of the next call.
    pub fn next_xid(&mut self) -> (x: u32)
        ensures
            x == next_xid_spec(old(self).xid),
            final(self).xid == x,
            final(self)._root_fh == old(self)._root_fh,
    {
        self.xid = self.xid.wrapping_add(1);
        self.xid
    }

    /// The two calls that mount `username`'s drive: the MOUNT program's
    /// NULL call, then its MNT call with the drive's path, each under the
    /// next id.
    pub fn mount_calls(&mut self, username: &str) -> (r: (Vec<u8>, Vec<u8>))
        requires
            username.spec_bytes().len() + 9 <= u32::MAX,
        ensures
            final(self).xid == next_xid_spec(next_xid_spec(old(self).xid)),
            final(self)._root_fh == old(self)._root_fh,
            r.0@ == null_auth_call(next_xid_spec(old(self).xid), MOUNT_PROGRAM, MOUNT_VERSION, 0),
            r.1@ == null_auth_call(final(self).xid, MOUNT_PROGRAM, MOUNT_VERSION, MOUNT_PROC_MNT)
                + opaque(drive_path(username.spec_bytes())),
    {
        let null_xid = self.next_xid();
        let null_call = build_null_auth_call(null_xid, MOUNT_PROGRAM, MOUNT_VERSION, 0);
        let mnt_xid = self.next_xid();
        let mut mnt_call = build_null_auth_call(mnt_xid, MOUNT_PROGRAM, MOUNT_VERSION, MOUNT_PROC_MNT);
        let mut path: Vec<u8> = Vec::new();
        path.push(0x2f);
        push_bytes(&mut path, username.as_bytes());
        path.push(0x27);
        path.push(0x73);
        path.push(0x20);
        path.push(0x64);
        path.push(0x72);
        path.push(0x69);
        path.push(0x76);
        path.push(0x65);
        assert(path@ =~= drive_path(username.spec_bytes()));
        push_opaque(&mut mnt_call, path.as_slice());
        (null_call, mnt_call)
    }

    /// Keeps the root handle that the MNT reply carried.
    pub fn set_root_handle(&mut self, fh: Vec<u8>)
        ensures
            final(self)._root_fh == Some(fh),
            final(self).xid == old(self).xid,
    {
        self._root_fh = Some(fh);
    }

    /// The GETATTR call for the root, under the next id. It carries no
    /// arguments after the empty credentials.
    pub fn root_attributes_call(&mut self) -> (call: Vec<u8>)
        ensures
            final(self).xid == next_xid_spec(old(self).xid),
            final(self)._root_fh == old(self)._root_fh,
            call@ == null_auth_call(final(self).xid, NFS_PROGRAM, NFS_VERSION, NFS_PROC_GETATTR),
    {
        let xid = self.next_xid();
        build_null_auth_call(xid, NFS_PROGRAM, NFS_VERSION, NFS_PROC_GETATTR)
    }
}

} // verus!
