//! The RPC reply messages the server sends (RFC 5531), as bytes.

use vstd::prelude::*;
use crate::xdr::{be32, push_u32};

verus! {

/// The accepted-reply header: transaction id, message type REPLY (1),
/// MSG_ACCEPTED (0), an empty AUTH_NULL verifier (0, 0), then `accept_stat`.
pub open spec fn accepted_reply(xid: u32, accept_stat: u32) -> Seq<u8> {
    be32(xid) + be32(1) + be32(0) + be32(0) + be32(0) + be32(accept_stat)
}

/// Appends an accepted-reply header.
pub fn push_accepted_reply(out: &mut Vec<u8>, xid: u32, accept_stat: u32)
    ensures
        final(out)@ == old(out)@ + accepted_reply(xid, accept_stat),
{
    push_u32(out, xid);
    push_u32(out, 1);
    push_u32(out, 0);
    push_u32(out, 0);
    push_u32(out, 0);
    push_u32(out, accept_stat);
    assert(out@ =~= old(out)@ + accepted_reply(xid, accept_stat));
}

/// The header of a successful reply (accept status SUCCESS, 0).
pub open spec fn success_reply(xid: u32) -> Seq<u8> {
    accepted_reply(xid, 0)
}

/// The reply to a call of a program the server does not serve
/// (PROG_UNAVAIL, 1).
pub open spec fn prog_unavail_reply(xid: u32) -> Seq<u8> {
    accepted_reply(xid, 1)
}

/// The reply to a call of a program version the server does not serve
/// (PROG_MISMATCH, 2), naming `version` as both the lowest and highest it
/// serves.
pub open spec fn prog_mismatch_reply(xid: u32, version: u32) -> Seq<u8> {
    accepted_reply(xid, 2) + be32(version) + be32(version)
}

/// The reply to a call of a procedure the program does not have
/// (PROC_UNAVAIL, 3).
pub open spec fn proc_unavail_reply(xid: u32) -> Seq<u8> {
    accepted_reply(xid, 3)
}

/// The reply to a call of an RPC version other than 2: MSG_DENIED (1),
/// RPC_MISMATCH (0), lowest and highest version 2.
pub open spec fn rpc_mismatch_reply(xid: u32) -> Seq<u8> {
    be32(xid) + be32(1) + be32(1) + be32(0) + be32(2) + be32(2)
}

/// Builds the header of a successful reply.
pub fn make_success_reply(xid: u32) -> (out: Vec<u8>)
    ensures
        out@ == success_reply(xid),
{
    let mut out: Vec<u8> = Vec::new();
    push_accepted_reply(&mut out, xid, 0);
    out
}

/// Builds the PROG_UNAVAIL reply.
pub fn prog_unavail_reply_message(xid: u32) -> (out: Vec<u8>)
    ensures
        out@ == prog_unavail_reply(xid),
{
    let mut out: Vec<u8> = Vec::new();
    push_accepted_reply(&mut out, xid, 1);
    out
}

/// Builds the PROG_MISMATCH reply.
pub fn prog_mismatch_reply_message(xid: u32, version: u32) -> (out: Vec<u8>)
    ensures
        out@ == prog_mismatch_reply(xid, version),
{
    let mut out: Vec<u8> = Vec::new();
    push_accepted_reply(&mut out, xid, 2);
    push_u32(&mut out, version);
    push_u32(&mut out, version);
    assert(out@ =~= prog_mismatch_reply(xid, version));
    out
}

/// Builds the PROC_UNAVAIL reply.
pub fn proc_unavail_reply_message(xid: u32) -> (out: Vec<u8>)
    ensures
        out@ == proc_unavail_reply(xid),
{
    let mut out: Vec<u8> = Vec::new();
    push_accepted_reply(&mut out, xid, 3);
    out
}

/// Builds the RPC_MISMATCH reply.
pub fn rpc_vers_mismatch(xid: u32) -> (out: Vec<u8>)
    ensures
        out@ == rpc_mismatch_reply(xid),
{
    let mut out: Vec<u8> = Vec::new();
    push_u32(&mut out, xid);
    push_u32(&mut out, 1);
    push_u32(&mut out, 1);
    push_u32(&mut out, 0);
    push_u32(&mut out, 2);
    push_u32(&mut out, 2);
    assert(out@ =~= rpc_mismatch_reply(xid));
    out
}

} // verus!
