//! The NULL procedure call, used to probe the server.

use vstd::prelude::*;
use crate::rpc::{call_header, push_call_header, NFS_PROGRAM, NFS_VERSION};
use crate::rpc::mount::{short_auth_bytes, push_short_auth};

verus! {

/// The bytes of a NULL call: the header for procedure 0 of NFS version 3
/// and a credential of user 0, group 0, one auxiliary group 0.
pub open spec fn null_call(xid: u32) -> Seq<u8> {
    call_header(xid, NFS_PROGRAM, NFS_VERSION, 0) + short_auth_bytes(0, 0, 0)
}

/// Builds a NULL call.
pub fn build_null_call(xid: u32) -> (call: Vec<u8>)
    ensures
        call@ == null_call(xid),
{
    let mut call: Vec<u8> = Vec::new();
    push_call_header(&mut call, xid, NFS_PROGRAM, NFS_VERSION, 0);
    push_short_auth(&mut call, 0, 0, 0);
    assert(call@ =~= null_call(xid));
    call
}

} // verus!
