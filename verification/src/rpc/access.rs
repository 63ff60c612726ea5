//! The ACCESS call and its reply.

use vstd::prelude::*;
use crate::rpc::{
    call_header, fattr3_result, handle_bytes, parse_fattr3_at, push_call_header, push_handle,
    Fattr3, ReplyError, NFS_PROGRAM, NFS_VERSION,
};
use crate::rpc::auth::{default_auth_bytes, AuthUnix};
use crate::xdr::{be32, push_u32, read_u32, u32_at};

verus! {

/// The ACCESS procedure number.
pub const NFS_PROC_ACCESS: u32 = 4;

/// Permission to read data or list a directory.
pub const ACCESS_READ: u32 = 0x0001;

/// Permission to look a name up in a directory.
pub const ACCESS_LOOKUP: u32 = 0x0002;

/// Permission to rewrite data or directory entries.
pub const ACCESS_MODIFY: u32 = 0x0004;

/// Permission to append data or add directory entries.
pub const ACCESS_EXTEND: u32 = 0x0008;

/// Permission to delete directory entries.
pub const ACCESS_DELETE: u32 = 0x0010;

/// Permission to execute a file or search a directory.
pub const ACCESS_EXECUTE: u32 = 0x0020;

/// The reply to ACCESS.
#[derive(Debug, Clone, Copy, PartialEq, Eq, Structural)]
pub struct AccessReply {
    pub status: u32,
    pub attributes: Option<Fattr3>,
    pub access: u32,
}

/// The bytes of an ACCESS call asking for the rights in `check_access` on
/// the file with handle `fh`.
pub open spec fn access_call(xid: u32, fh: Seq<u8>, check_access: u32) -> Seq<u8> {
    call_header(xid, NFS_PROGRAM, NFS_VERSION, NFS_PROC_ACCESS) + default_auth_bytes()
        + handle_bytes(fh) + be32(check_access)
}

/// Builds an ACCESS call with the default credential.
pub fn build_access_call(xid: u32, file_handle: &[u8; 16], check_access: u32) -> (call: Vec<u8>)
    ensures
        call@ == access_call(xid, file_handle@, check_access),
{
    let mut call: Vec<u8> = Vec::new();
    push_call_header(&mut call, xid, NFS_PROGRAM, NFS_VERSION, NFS_PROC_ACCESS);
    AuthUnix::default().write_to_vec(&mut call);
    push_handle(&mut call, file_handle);
    push_u32(&mut call, check_access);
    assert(call@ =~= access_call(xid, file_handle@, check_access));
    call
}

/// Whether decoding `s` as an ACCESS reply stays inside the buffer: a reply
/// that claims success must hold the attribute flag and, after the
/// attributes if they decode, the access word.
pub open spec fn access_reply_in_bounds(s: Seq<u8>) -> bool {
    s.len() < 28 || u32_at(s, 24) != 0 || (s.len() >= 32 && if u32_at(s, 28) == 1 {
        s.len() - 32 < 84 || s.len() >= 120
    } else {
        s.len() >= 36
    })
}

/// The ACCESS reply held by `s`: status at byte 24; on success a flag at 28
/// (1: attributes follow at 32) and then the granted access word.
pub open spec fn access_reply_result(s: Seq<u8>) -> Result<AccessReply, ReplyError> {
    if s.len() < 28 {
        Err(ReplyError::ReplyTooShort)
    } else if u32_at(s, 24) != 0 {
        Ok(AccessReply { status: u32_at(s, 24), attributes: None, access: 0 })
    } else if u32_at(s, 28) == 1 {
        match fattr3_result(s, 32) {
            Err(e) => Err(e),
            Ok(a) => Ok(AccessReply { status: 0, attributes: Some(a), access: u32_at(s, 116) }),
        }
    } else {
        Ok(AccessReply { status: 0, attributes: None, access: u32_at(s, 32) })
    }
}

impl AccessReply {
    /// Whether `data` can be decoded without reading past its end.
    pub fn in_bounds(data: &[u8]) -> (b: bool)
        ensures
            b == access_reply_in_bounds(data@),
    {
        let n = data.len();
        if n < 28 || read_u32(data, 24) != 0 {
            return true;
        }
        if n < 32 {
            return false;
        }
        if read_u32(data, 28) == 1 {
            n - 32 < 84 || n >= 120
        } else {
            n >= 36
        }
    }

    /// Decodes an ACCESS reply.
    pub fn from_bytes(data: &[u8]) -> (r: Result<AccessReply, ReplyError>)
        requires
            access_reply_in_bounds(data@),
        ensures
            r == access_reply_result(data@),
    {
        if data.len() < 28 {
            return Err(ReplyError::ReplyTooShort);
        }
        let status = read_u32(data, 24);
        if status != 0 {
            return Ok(AccessReply { status, attributes: None, access: 0 });
        }
        let mut offset: usize = 28;
        let has_attrs = read_u32(data, offset) == 1;
        offset = offset + 4;
        let attributes = if has_attrs {
            let attrs = parse_fattr3_at(data, offset)?;
            offset = offset + 84;
            Some(attrs)
        } else {
            None
        };
        let access = read_u32(data, offset);
        Ok(AccessReply { status, attributes, access })
    }
}

} // verus!
