//! The NFS client's side of ONC RPC: the calls it builds and the replies it
//! decodes, byte for byte.

pub mod access;
pub mod auth;
pub mod getattr;
pub mod lookup;
pub mod mount;
pub mod null;
pub mod read;
pub mod readdirplus;
pub mod wire_laws;

use vstd::prelude::*;
use crate::xdr::{be32, lemma_u32_at_concat, push_bytes, push_u32, read_u32, read_u64, u32_at, u64_at};

verus! {

/// NFS version 3 program number.
pub const NFS_PROGRAM: u32 = 100003;

/// NFS protocol version.
pub const NFS_VERSION: u32 = 3;

/// The words that open every call: transaction id, message type CALL (0),
/// RPC version 2, program, program version and procedure.
pub open spec fn call_header(xid: u32, prog: u32, vers: u32, procedure: u32) -> Seq<u8> {
    be32(xid) + be32(0) + be32(2) + be32(prog) + be32(vers) + be32(procedure)
}

/// Appends the opening words of a call.
pub fn push_call_header(call: &mut Vec<u8>, xid: u32, prog: u32, vers: u32, procedure: u32)
    ensures
        final(call)@ == old(call)@ + call_header(xid, prog, vers, procedure),
{
    push_u32(call, xid);
    push_u32(call, 0);
    push_u32(call, 2);
    push_u32(call, prog);
    push_u32(call, vers);
    push_u32(call, procedure);
    assert(call@ =~= old(call)@ + call_header(xid, prog, vers, procedure));
}

/// A 16-byte file handle as the calls carry it: its length, then its bytes.
pub open spec fn handle_bytes(fh: Seq<u8>) -> Seq<u8> {
    be32(16) + fh
}

/// Appends a 16-byte file handle with its length word.
pub fn push_handle(call: &mut Vec<u8>, fh: &[u8; 16])
    ensures
        final(call)@ == old(call)@ + handle_bytes(fh@),
{
    push_u32(call, 16);
    push_bytes(call, fh.as_slice());
    assert(call@ =~= old(call)@ + handle_bytes(fh@));
}

/// Device numbers of a special file.
#[derive(Debug, Clone, Copy, PartialEq, Eq, Structural)]
pub struct Rdev3 {
    pub specdata1: u32,
    pub specdata2: u32,
}

/// A time stamp: seconds and nanoseconds.
#[derive(Debug, Clone, Copy, PartialEq, Eq, Structural)]
pub struct Nfstime3 {
    pub seconds: u32,
    pub nseconds: u32,
}

/// The attributes of a file, as far as the client decodes them.
#[derive(Debug, Clone, Copy, PartialEq, Eq, Structural)]
pub struct Fattr3 {
    pub file_type: u32,
    pub mode: u32,
    pub nlink: u32,
    pub uid: u32,
    pub gid: u32,
    pub size: u64,
    pub used: u64,
    pub rdev: Rdev3,
    pub fsid: u64,
    pub fileid: u64,
    pub atime: Nfstime3,
    pub mtime: Nfstime3,
    pub ctime: Nfstime3,
}

/// The fixed header of an accepted RPC reply.
#[derive(Debug, Clone, Copy, PartialEq, Eq, Structural)]
pub struct RpcReply {
    pub xid: u32,
    pub message_type: u32,
    pub reply_state: u32,
    pub verifier_flavor: u32,
    pub verifier_length: u32,
    pub accept_state: u32,
}

/// Why a reply could not be decoded.
#[derive(Debug, Clone, Copy, PartialEq, Eq, Structural)]
pub enum ReplyError {
    /// Fewer bytes than the reply header and status need.
    ReplyTooShort,
    /// Fewer than 84 bytes where file attributes begin; `len` is how many
    /// there were.
    AttributesTooShort { len: usize },
    /// A file name that is not UTF-8.
    InvalidName,
}

/// Number of bytes the attribute decoder needs: a 32-byte header followed
/// by 52 bytes of attributes.
pub open spec fn fattr3_wire_len() -> int {
    84
}

/// The attributes decoded from the 84 bytes of `s` that start at `o`: the
/// fields sit after a 32-byte header; file id and times are not decoded.
pub open spec fn fattr3_at(s: Seq<u8>, o: int) -> Fattr3 {
    Fattr3 {
        file_type: u32_at(s, o + 32),
        mode: u32_at(s, o + 36),
        nlink: u32_at(s, o + 40),
        uid: u32_at(s, o + 44),
        gid: u32_at(s, o + 48),
        size: u64_at(s, o + 52),
        used: u64_at(s, o + 60),
        rdev: Rdev3 { specdata1: u32_at(s, o + 68), specdata2: u32_at(s, o + 72) },
        fsid: u64_at(s, o + 76),
        fileid: 0,
        atime: Nfstime3 { seconds: 0, nseconds: 0 },
        mtime: Nfstime3 { seconds: 0, nseconds: 0 },
        ctime: Nfstime3 { seconds: 0, nseconds: 0 },
    }
}

/// Decoding attributes from the bytes of `s` from `o` on.
pub open spec fn fattr3_result(s: Seq<u8>, o: int) -> Result<Fattr3, ReplyError> {
    if s.len() - o < fattr3_wire_len() {
        Err(ReplyError::AttributesTooShort { len: (s.len() - o) as usize })
    } else {
        Ok(fattr3_at(s, o))
    }
}

/// Decodes attributes from the bytes of `data` from `at` on.
pub fn parse_fattr3_at(data: &[u8], at: usize) -> (r: Result<Fattr3, ReplyError>)
    requires
        at <= data@.len(),
    ensures
        r == fattr3_result(data@, at as int),
{
    let n = data.len();
    if n - at < 84 {
        return Err(ReplyError::AttributesTooShort { len: n - at });
    }
    let pos = at + 32;
    Ok(Fattr3 {
        file_type: read_u32(data, pos),
        mode: read_u32(data, pos + 4),
        nlink: read_u32(data, pos + 8),
        uid: read_u32(data, pos + 12),
        gid: read_u32(data, pos + 16),
        size: read_u64(data, pos + 20),
        used: read_u64(data, pos + 28),
        rdev: Rdev3 { specdata1: read_u32(data, pos + 36), specdata2: read_u32(data, pos + 40) },
        fsid: read_u64(data, pos + 44),
        fileid: 0,
        atime: Nfstime3 { seconds: 0, nseconds: 0 },
        mtime: Nfstime3 { seconds: 0, nseconds: 0 },
        ctime: Nfstime3 { seconds: 0, nseconds: 0 },
    })
}

impl Fattr3 {
    /// Decodes the attributes that follow a 32-byte header.
    pub fn from_bytes(data: &[u8]) -> (r: Result<Fattr3, ReplyError>)
        ensures
            r == fattr3_result(data@, 0),
    {
        parse_fattr3_at(data, 0)
    }
}

/// The reply header of `s`, if it is long enough.
pub open spec fn rpc_reply_result(s: Seq<u8>) -> Result<RpcReply, ReplyError> {
    if s.len() < 24 {
        Err(ReplyError::ReplyTooShort)
    } else {
        Ok(
            RpcReply {
                xid: u32_at(s, 0),
                message_type: u32_at(s, 4),
                reply_state: u32_at(s, 8),
                verifier_flavor: u32_at(s, 12),
                verifier_length: u32_at(s, 16),
                accept_state: u32_at(s, 20),
            },
        )
    }
}

/// The 24 bytes of a reply header.
pub open spec fn rpc_reply_bytes(r: RpcReply) -> Seq<u8> {
    be32(r.xid) + be32(r.message_type) + be32(r.reply_state) + be32(r.verifier_flavor) + be32(
        r.verifier_length,
    ) + be32(r.accept_state)
}

impl RpcReply {
    /// Decodes the six words of a reply header.
    pub fn from_bytes(data: &[u8]) -> (r: Result<RpcReply, ReplyError>)
        ensures
            r == rpc_reply_result(data@),
    {
        if data.len() < 24 {
            return Err(ReplyError::ReplyTooShort);
        }
        Ok(
            RpcReply {
                xid: read_u32(data, 0),
                message_type: read_u32(data, 4),
                reply_state: read_u32(data, 8),
                verifier_flavor: read_u32(data, 12),
                verifier_length: read_u32(data, 16),
                accept_state: read_u32(data, 20),
            },
        )
    }
}

/// Decoding the bytes of an encoded reply header, followed by anything,
/// gives that header back.
pub proof fn lemma_rpc_reply_roundtrip(r: RpcReply, rest: Seq<u8>)
    ensures
        rpc_reply_result(rpc_reply_bytes(r) + rest) == Ok::<RpcReply, ReplyError>(r),
{
    let s = rpc_reply_bytes(r) + rest;
    lemma_u32_at_concat(Seq::empty(), r.xid, s.subrange(4, s.len() as int));
    assert(Seq::<u8>::empty() + be32(r.xid) + s.subrange(4, s.len() as int) =~= s);
    lemma_u32_at_concat(s.subrange(0, 4), r.message_type, s.subrange(8, s.len() as int));
    assert(s.subrange(0, 4) + be32(r.message_type) + s.subrange(8, s.len() as int) =~= s);
    lemma_u32_at_concat(s.subrange(0, 8), r.reply_state, s.subrange(12, s.len() as int));
    assert(s.subrange(0, 8) + be32(r.reply_state) + s.subrange(12, s.len() as int) =~= s);
    lemma_u32_at_concat(s.subrange(0, 12), r.verifier_flavor, s.subrange(16, s.len() as int));
    assert(s.subrange(0, 12) + be32(r.verifier_flavor) + s.subrange(16, s.len() as int) =~= s);
    lemma_u32_at_concat(s.subrange(0, 16), r.verifier_length, s.subrange(20, s.len() as int));
    assert(s.subrange(0, 16) + be32(r.verifier_length) + s.subrange(20, s.len() as int) =~= s);
    lemma_u32_at_concat(s.subrange(0, 20), r.accept_state, s.subrange(24, s.len() as int));
    assert(s.subrange(0, 20) + be32(r.accept_state) + s.subrange(24, s.len() as int) =~= s);
}

/// The record-marking word that precedes a message of `len` bytes sent as
/// one last fragment: the high bit set, the length (cut to 32 bits) below.
pub open spec fn record_marker_spec(len: usize) -> u32 {
    0x80000000u32 | (len as u32)
}

/// The record-marking word for a message of `len` bytes.
pub fn record_marker(len: usize) -> (m: u32)
    ensures
        m == record_marker_spec(len),
{
    0x80000000u32 | (len as u32)
}

/// A received record-marking word split into the fragment's size (the low
/// 31 bits) and whether it is the last fragment (the high bit).
pub fn split_record_marker(marker: u32) -> (r: (u32, bool))
    ensures
        r.0 == marker & 0x7fffffff,
        r.1 == (marker & 0x80000000 != 0),
{
    (marker & 0x7fffffff, (marker & 0x80000000) != 0)
}

/// The marker of a message shorter than 2^31 bytes reads back as that
/// length, flagged last.
pub proof fn lemma_record_marker_roundtrip(len: usize)
    requires
        len < 0x80000000,
    ensures
        record_marker_spec(len) & 0x7fffffff == len,
        record_marker_spec(len) & 0x80000000 != 0,
{
    let l = len as u32;
    assert(l == len);
    assert(l < 0x80000000u32 ==> (0x80000000u32 | l) & 0x7fffffff == l) by (bit_vector);
    assert((0x80000000u32 | l) & 0x80000000 != 0) by (bit_vector);
}

/// std's I/O error.
#[verifier::external_type_specification]
#[verifier::external_body]
pub struct ExIoError(std::io::Error);

/// What can go wrong talking to the NFS server from the client.
#[derive(Debug)]
pub enum NfsError {
    NetworkError(String),
    ProtocolError(String),
    MountError(String),
    IoError(std::io::Error),
}

/// Calls std's `Display` for `io::Error`. Nothing is stated of the text:
/// it depends on the operating system's messages.
#[verifier::external_body]
fn io_error_text(e: &std::io::Error) -> String {
    format!("{}", e)
}

impl NfsError {
    /// The text the error is shown as: its kind, then its detail.
    pub fn message(&self) -> (s: String)
        ensures
            match self {
                NfsError::NetworkError(m) => s@ == "Network error: "@ + m@,
                NfsError::ProtocolError(m) => s@ == "Protocol error: "@ + m@,
                NfsError::MountError(m) => s@ == "Mount error: "@ + m@,
                NfsError::IoError(_) => "IO error: "@.is_prefix_of(s@),
            },
    {
        match self {
            NfsError::NetworkError(m) => crate::text::concat_str("Network error: ", m.as_str()),
            NfsError::ProtocolError(m) => crate::text::concat_str("Protocol error: ", m.as_str()),
            NfsError::MountError(m) => crate::text::concat_str("Mount error: ", m.as_str()),
            NfsError::IoError(e) => {
                let detail = io_error_text(e);
                let s = crate::text::concat_str("IO error: ", detail.as_str());
                assert("IO error: "@ =~= s@.subrange(0, "IO error: "@.len() as int));
                s
            },
        }
    }
}

impl From<std::io::Error> for NfsError {
    fn from(err: std::io::Error) -> (r: NfsError) {
        NfsError::IoError(err)
    }
}

impl vstd::std_specs::convert::FromSpecImpl<std::io::Error> for NfsError {
    open spec fn obeys_from_spec() -> bool {
        true
    }

    open spec fn from_spec(v: std::io::Error) -> NfsError {
        NfsError::IoError(v)
    }
}

} // verus!
