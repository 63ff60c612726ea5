//! The LOOKUP call and its reply.

use vstd::prelude::*;
use vstd::string::StringSliceAdditionalSpecFns;
use crate::rpc::{
    call_header, fattr3_result, handle_bytes, parse_fattr3_at, push_call_header, push_handle,
    Fattr3, ReplyError, NFS_PROGRAM, NFS_VERSION,
};
use crate::rpc::auth::{default_auth_bytes, AuthUnix};
use crate::xdr::{be32, pad_len, push_bytes, push_u32, push_zeros, read_u32, u32_at, zeros};

verus! {

/// The LOOKUP procedure number.
pub const NFS_PROC_LOOKUP: u32 = 3;

/// The reply to LOOKUP.
#[derive(Debug)]
pub struct LookupReply {
    pub status: u32,
    pub file_handle: Option<[u8; 16]>,
    pub attributes: Option<Fattr3>,
    pub dir_attributes: Option<Fattr3>,
}

/// The bytes of a LOOKUP call for the entry whose UTF-8 name is `name` in
/// the directory with handle `fh`; the name's length is cut to 32 bits.
pub open spec fn lookup_call(xid: u32, fh: Seq<u8>, name: Seq<u8>) -> Seq<u8> {
    call_header(xid, NFS_PROGRAM, NFS_VERSION, NFS_PROC_LOOKUP) + default_auth_bytes()
        + handle_bytes(fh) + be32(name.len() as u32) + name + zeros(pad_len(name.len()))
}

/// Builds a LOOKUP call with the default credential.
pub fn build_lookup_call(xid: u32, file_handle: &[u8; 16], name: &str) -> (call: Vec<u8>)
    ensures
        call@ == lookup_call(xid, file_handle@, name.spec_bytes()),
{
    let name_bytes = name.as_bytes();
    let mut call: Vec<u8> = Vec::new();
    push_call_header(&mut call, xid, NFS_PROGRAM, NFS_VERSION, NFS_PROC_LOOKUP);
    AuthUnix::default().write_to_vec(&mut call);
    push_handle(&mut call, file_handle);
    push_u32(&mut call, name_bytes.len() as u32);
    push_bytes(&mut call, name_bytes);
    let padding = (4 - (name_bytes.len() % 4)) % 4;
    push_zeros(&mut call, padding);
    assert(call@ =~= lookup_call(xid, file_handle@, name.spec_bytes()));
    call
}

/// Whether decoding `s` as a LOOKUP reply stays inside the buffer: a reply
/// that claims success must hold the 16-byte handle after its length word.
pub open spec fn lookup_reply_in_bounds(s: Seq<u8>) -> bool {
    s.len() < 28 || u32_at(s, 24) != 0 || s.len() >= 48
}

/// Whether `r` is the decoding of the LOOKUP reply `s`: status at byte 24;
/// on success the handle at 32..48 (its length word is skipped), then the
/// object's attributes from 48 and the directory's from 132.
pub open spec fn lookup_reply_matches(s: Seq<u8>, r: Result<LookupReply, ReplyError>) -> bool {
    if s.len() < 28 {
        r == Err::<LookupReply, ReplyError>(ReplyError::ReplyTooShort)
    } else if u32_at(s, 24) != 0 {
        &&& r is Ok
        &&& r->Ok_0.status == u32_at(s, 24)
        &&& r->Ok_0.file_handle is None
        &&& r->Ok_0.attributes is None
        &&& r->Ok_0.dir_attributes is None
    } else {
        match fattr3_result(s, 48) {
            Err(e) => r == Err::<LookupReply, ReplyError>(e),
            Ok(a) => match fattr3_result(s, 132) {
                Err(e) => r == Err::<LookupReply, ReplyError>(e),
                Ok(d) => {
                    &&& r is Ok
                    &&& r->Ok_0.status == 0
                    &&& r->Ok_0.file_handle matches Some(h) && h@ == s.subrange(32, 48)
                    &&& r->Ok_0.attributes == Some(a)
                    &&& r->Ok_0.dir_attributes == Some(d)
                },
            },
        }
    }
}

/// The 16 bytes of `data` that start at `at`.
pub fn read_handle(data: &[u8], at: usize) -> (h: [u8; 16])
    requires
        at + 16 <= data@.len(),
    ensures
        h@ == data@.subrange(at as int, at + 16),
{
    let n = data.len();
    let mut h = [0u8; 16];
    let mut i: usize = 0;
    while i < 16
        invariant
            i <= 16,
            n == data@.len(),
            at + 16 <= n,
            forall|j: int| 0 <= j < i ==> h@[j] == data@[at + j],
        decreases 16 - i,
    {
        h[i] = data[at + i];
        i = i + 1;
    }
    assert(h@ =~= data@.subrange(at as int, at + 16));
    h
}

impl LookupReply {
    /// Whether `data` can be decoded without reading past its end.
    pub fn in_bounds(data: &[u8]) -> (b: bool)
        ensures
            b == lookup_reply_in_bounds(data@),
    {
        data.len() < 28 || read_u32(data, 24) != 0 || data.len() >= 48
    }

    /// Decodes a LOOKUP reply.
    pub fn from_bytes(data: &[u8]) -> (r: Result<LookupReply, ReplyError>)
        requires
            lookup_reply_in_bounds(data@),
        ensures
            lookup_reply_matches(data@, r),
    {
        if data.len() < 28 {
            return Err(ReplyError::ReplyTooShort);
        }
        let status = read_u32(data, 24);
        if status != 0 {
            return Ok(
                LookupReply { status, file_handle: None, attributes: None, dir_attributes: None },
            );
        }
        let mut offset: usize = 28;
        offset = offset + 4;
        let file_handle = read_handle(data, offset);
        offset = offset + 16;
        let obj_attrs = parse_fattr3_at(data, offset)?;
        offset = offset + 84;
        let dir_attrs = parse_fattr3_at(data, offset)?;
        Ok(
            LookupReply {
                status,
                file_handle: Some(file_handle),
                attributes: Some(obj_attrs),
                dir_attributes: Some(dir_attrs),
            },
        )
    }
}

} // verus!
