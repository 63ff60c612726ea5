//! The READ call and its reply.

use vstd::prelude::*;
use crate::rpc::{
    call_header, fattr3_result, handle_bytes, parse_fattr3_at, push_call_header, push_handle,
    Fattr3, ReplyError, NFS_PROGRAM, NFS_VERSION,
};
use crate::rpc::auth::{default_auth_bytes, AuthUnix};
use crate::xdr::{be32, be64, push_u32, push_u64, read_u32, u32_at};

verus! {

/// The READ procedure number.
pub const NFS_PROC_READ: u32 = 6;

/// The reply to READ.
#[derive(Debug)]
pub struct ReadReply {
    pub status: u32,
    pub attributes: Option<Fattr3>,
    pub count: u32,
    pub eof: bool,
    pub data: Vec<u8>,
}

/// The bytes of a READ call for `count` bytes at `offset` of the file with
/// handle `fh`.
pub open spec fn read_call(xid: u32, fh: Seq<u8>, offset: u64, count: u32) -> Seq<u8> {
    call_header(xid, NFS_PROGRAM, NFS_VERSION, NFS_PROC_READ) + default_auth_bytes()
        + handle_bytes(fh) + be64(offset) + be32(count)
}

/// Builds a READ call with the default credential.
pub fn build_read_call(xid: u32, file_handle: &[u8; 16], offset: u64, count: u32) -> (call: Vec<
    u8,
>)
    ensures
        call@ == read_call(xid, file_handle@, offset, count),
{
    let mut call: Vec<u8> = Vec::new();
    push_call_header(&mut call, xid, NFS_PROGRAM, NFS_VERSION, NFS_PROC_READ);
    AuthUnix::default().write_to_vec(&mut call);
    push_handle(&mut call, file_handle);
    push_u64(&mut call, offset);
    push_u32(&mut call, count);
    assert(call@ =~= read_call(xid, file_handle@, offset, count));
    call
}

/// Where the count word of a successful READ reply begins: after the
/// attributes when the flag at 28 is 1, else right after the flag.
pub open spec fn read_tail_start(s: Seq<u8>) -> int {
    if u32_at(s, 28) == 1 {
        116
    } else {
        32
    }
}

/// Whether the count, eof flag, data length and data that start at `o` all
/// lie inside `s`.
pub open spec fn read_tail_in_bounds(s: Seq<u8>, o: int) -> bool {
    s.len() >= o + 12 && s.len() >= o + 12 + u32_at(s, o + 8)
}

/// Whether decoding `s` as a READ reply stays inside the buffer.
pub open spec fn read_reply_in_bounds(s: Seq<u8>) -> bool {
    s.len() < 28 || u32_at(s, 24) != 0 || (s.len() >= 32 && if u32_at(s, 28) == 1 {
        s.len() - 32 < 84 || read_tail_in_bounds(s, 116)
    } else {
        read_tail_in_bounds(s, 32)
    })
}

/// Whether `r` is the decoding of the READ reply `s`: status at 24; on
/// success an attribute flag at 28 (1: attributes follow at 32), then the
/// count, the eof word (true when 1), the data length and the data.
pub open spec fn read_reply_matches(s: Seq<u8>, r: Result<ReadReply, ReplyError>) -> bool {
    if s.len() < 28 {
        r == Err::<ReadReply, ReplyError>(ReplyError::ReplyTooShort)
    } else if u32_at(s, 24) != 0 {
        &&& r is Ok
        &&& r->Ok_0.status == u32_at(s, 24)
        &&& r->Ok_0.attributes is None
        &&& r->Ok_0.count == 0
        &&& !r->Ok_0.eof
        &&& r->Ok_0.data@ == Seq::<u8>::empty()
    } else if u32_at(s, 28) == 1 && fattr3_result(s, 32) is Err {
        r == Err::<ReadReply, ReplyError>(fattr3_result(s, 32)->Err_0)
    } else {
        let o = read_tail_start(s);
        &&& r is Ok
        &&& r->Ok_0.status == 0
        &&& r->Ok_0.attributes == (if u32_at(s, 28) == 1 {
            Some(fattr3_result(s, 32)->Ok_0)
        } else {
            None
        })
        &&& r->Ok_0.count == u32_at(s, o)
        &&& r->Ok_0.eof == (u32_at(s, o + 4) == 1)
        &&& r->Ok_0.data@ == s.subrange(o + 12, o + 12 + u32_at(s, o + 8))
    }
}

/// The bytes of `data` from `start` up to `end`.
pub fn copy_range(data: &[u8], start: usize, end: usize) -> (v: Vec<u8>)
    requires
        start <= end <= data@.len(),
    ensures
        v@ == data@.subrange(start as int, end as int),
{
    let mut v: Vec<u8> = Vec::new();
    let mut i = start;
    while i < end
        invariant
            start <= i <= end <= data@.len(),
            v@ == data@.subrange(start as int, i as int),
        decreases end - i,
    {
        v.push(data[i]);
        assert(data@.subrange(start as int, i + 1) =~= data@.subrange(start as int, i as int).push(
            data@[i as int],
        ));
        i = i + 1;
    }
    v
}

impl ReadReply {
    /// Whether `data` can be decoded without reading past its end.
    pub fn in_bounds(data: &[u8]) -> (b: bool)
        ensures
            b == read_reply_in_bounds(data@),
    {
        let n = data.len();
        if n < 28 || read_u32(data, 24) != 0 {
            return true;
        }
        if n < 32 {
            return false;
        }
        let o: usize = if read_u32(data, 28) == 1 {
            if n - 32 < 84 {
                return true;
            }
            116
        } else {
            32
        };
        if n < o + 12 {
            return false;
        }
        let dl = read_u32(data, o + 8) as usize;
        dl <= n - (o + 12)
    }

    /// Decodes a READ reply.
    pub fn from_bytes(data: &[u8]) -> (r: Result<ReadReply, ReplyError>)
        requires
            read_reply_in_bounds(data@),
        ensures
            read_reply_matches(data@, r),
    {
        if data.len() < 28 {
            return Err(ReplyError::ReplyTooShort);
        }
        let status = read_u32(data, 24);
        if status != 0 {
            return Ok(
                ReadReply { status, attributes: None, count: 0, eof: false, data: Vec::new() },
            );
        }
        let mut offset: usize = 28;
        let has_attrs = read_u32(data, offset) == 1;
        offset = offset + 4;
        let attributes = if has_attrs {
            let attrs = parse_fattr3_at(data, offset)?;
            offset = offset + 84;
            Some(attrs)
        } else {
            None
        };
        let count = read_u32(data, offset);
        offset = offset + 4;
        let eof = read_u32(data, offset) == 1;
        offset = offset + 4;
        let data_length = read_u32(data, offset);
        offset = offset + 4;
        let bytes = copy_range(data, offset, offset + data_length as usize);
        Ok(ReadReply { status, attributes, count, eof, data: bytes })
    }
}

} // verus!
