//! The GETATTR call.

use vstd::prelude::*;
use crate::rpc::{call_header, handle_bytes, push_call_header, push_handle, NFS_PROGRAM, NFS_VERSION};
use crate::rpc::auth::{default_auth_bytes, AuthUnix};

verus! {

/// The GETATTR procedure number.
pub const NFS_PROC_GETATTR: u32 = 1;

/// The bytes of a GETATTR call for the file with handle `fh`.
pub open spec fn getattr_call(xid: u32, fh: Seq<u8>) -> Seq<u8> {
    call_header(xid, NFS_PROGRAM, NFS_VERSION, NFS_PROC_GETATTR) + default_auth_bytes()
        + handle_bytes(fh)
}

/// Builds a GETATTR call with the default credential.
pub fn build_getattr_call(xid: u32, file_handle: &[u8; 16]) -> (call: Vec<u8>)
    ensures
        call@ == getattr_call(xid, file_handle@),
{
    let mut call: Vec<u8> = Vec::new();
    push_call_header(&mut call, xid, NFS_PROGRAM, NFS_VERSION, NFS_PROC_GETATTR);
    AuthUnix::default().write_to_vec(&mut call);
    push_handle(&mut call, file_handle);
    assert(call@ =~= getattr_call(xid, file_handle@));
    call
}

} // verus!
