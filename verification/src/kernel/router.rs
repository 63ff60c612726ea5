//! Which handler an NFS call goes to, and which program an RPC call goes to.

use vstd::prelude::*;
use crate::kernel::nfs::{VFSCapabilities, VERSION};
use crate::kernel::reply::{push_accepted_reply, success_reply};
use crate::xdr::{be32, push_u32};

verus! {

/// The procedures of NFS version 3, numbered 0 to 21 in this order; any
/// other number is `INVALID`.
#[allow(non_camel_case_types)]
#[derive(Debug, Clone, Copy, PartialEq, Eq, Structural)]
pub enum NFSProgram {
    NFSPROC3_NULL,
    NFSPROC3_GETATTR,
    NFSPROC3_SETATTR,
    NFSPROC3_LOOKUP,
    NFSPROC3_ACCESS,
    NFSPROC3_READLINK,
    NFSPROC3_READ,
    NFSPROC3_WRITE,
    NFSPROC3_CREATE,
    NFSPROC3_MKDIR,
    NFSPROC3_SYMLINK,
    NFSPROC3_MKNOD,
    NFSPROC3_REMOVE,
    NFSPROC3_RMDIR,
    NFSPROC3_RENAME,
    NFSPROC3_LINK,
    NFSPROC3_READDIR,
    NFSPROC3_READDIRPLUS,
    NFSPROC3_FSSTAT,
    NFSPROC3_FSINFO,
    NFSPROC3_PATHCONF,
    NFSPROC3_COMMIT,
    INVALID,
}

/// The procedure numbered `p`.
pub open spec fn nfs_program_spec(p: u32) -> NFSProgram {
    if p == 0 {
        NFSProgram::NFSPROC3_NULL
    } else if p == 1 {
        NFSProgram::NFSPROC3_GETATTR
    } else if p == 2 {
        NFSProgram::NFSPROC3_SETATTR
    } else if p == 3 {
        NFSProgram::NFSPROC3_LOOKUP
    } else if p == 4 {
        NFSProgram::NFSPROC3_ACCESS
    } else if p == 5 {
        NFSProgram::NFSPROC3_READLINK
    } else if p == 6 {
        NFSProgram::NFSPROC3_READ
    } else if p == 7 {
        NFSProgram::NFSPROC3_WRITE
    } else if p == 8 {
        NFSProgram::NFSPROC3_CREATE
    } else if p == 9 {
        NFSProgram::NFSPROC3_MKDIR
    } else if p == 10 {
        NFSProgram::NFSPROC3_SYMLINK
    } else if p == 11 {
        NFSProgram::NFSPROC3_MKNOD
    } else if p == 12 {
        NFSProgram::NFSPROC3_REMOVE
    } else if p == 13 {
        NFSProgram::NFSPROC3_RMDIR
    } else if p == 14 {
        NFSProgram::NFSPROC3_RENAME
    } else if p == 15 {
        NFSProgram::NFSPROC3_LINK
    } else if p == 16 {
        NFSProgram::NFSPROC3_READDIR
    } else if p == 17 {
        NFSProgram::NFSPROC3_READDIRPLUS
    } else if p == 18 {
        NFSProgram::NFSPROC3_FSSTAT
    } else if p == 19 {
        NFSProgram::NFSPROC3_FSINFO
    } else if p == 20 {
        NFSProgram::NFSPROC3_PATHCONF
    } else if p == 21 {
        NFSProgram::NFSPROC3_COMMIT
    } else {
        NFSProgram::INVALID
    }
}

impl NFSProgram {
    /// The procedure numbered `p`.
    pub fn from_u32(p: u32) -> (r: NFSProgram)
        ensures
            r == nfs_program_spec(p),
    {
        match p {
            0 => NFSProgram::NFSPROC3_NULL,
            1 => NFSProgram::NFSPROC3_GETATTR,
            2 => NFSProgram::NFSPROC3_SETATTR,
            3 => NFSProgram::NFSPROC3_LOOKUP,
            4 => NFSProgram::NFSPROC3_ACCESS,
            5 => NFSProgram::NFSPROC3_READLINK,
            6 => NFSProgram::NFSPROC3_READ,
            7 => NFSProgram::NFSPROC3_WRITE,
            8 => NFSProgram::NFSPROC3_CREATE,
            9 => NFSProgram::NFSPROC3_MKDIR,
            10 => NFSProgram::NFSPROC3_SYMLINK,
            11 => NFSProgram::NFSPROC3_MKNOD,
            12 => NFSProgram::NFSPROC3_REMOVE,
            13 => NFSProgram::NFSPROC3_RMDIR,
            14 => NFSProgram::NFSPROC3_RENAME,
            15 => NFSProgram::NFSPROC3_LINK,
            16 => NFSProgram::NFSPROC3_READDIR,
            17 => NFSProgram::NFSPROC3_READDIRPLUS,
            18 => NFSProgram::NFSPROC3_FSSTAT,
            19 => NFSProgram::NFSPROC3_FSINFO,
            20 => NFSProgram::NFSPROC3_PATHCONF,
            21 => NFSProgram::NFSPROC3_COMMIT,
            _ => NFSProgram::INVALID,
        }
    }
}

/// The procedures that change the file system.
pub open spec fn is_write_procedure(p: NFSProgram) -> bool {
    p == NFSProgram::NFSPROC3_WRITE || p == NFSProgram::NFSPROC3_CREATE || p
        == NFSProgram::NFSPROC3_SETATTR || p == NFSProgram::NFSPROC3_REMOVE || p
        == NFSProgram::NFSPROC3_RMDIR || p == NFSProgram::NFSPROC3_RENAME || p
        == NFSProgram::NFSPROC3_MKDIR || p == NFSProgram::NFSPROC3_SYMLINK
}

/// The server's procedure handlers.
#[derive(Debug, Clone, Copy, PartialEq, Eq, Structural)]
pub enum NfsHandler {
    Null,
    Getattr,
    Lookup,
    Read,
    Fsinfo,
    Access,
    Pathconf,
    Fsstat,
    Readdirplus,
    Write,
    Create,
    Setattr,
    Remove,
    Rename,
    Mkdir,
    Symlink,
    Readlink,
}

/// The handler of procedure `p`, if the server implements it; RMDIR is
/// served by the REMOVE handler.
pub open spec fn handler_of(p: NFSProgram) -> Option<NfsHandler> {
    match p {
        NFSProgram::NFSPROC3_NULL => Some(NfsHandler::Null),
        NFSProgram::NFSPROC3_GETATTR => Some(NfsHandler::Getattr),
        NFSProgram::NFSPROC3_LOOKUP => Some(NfsHandler::Lookup),
        NFSProgram::NFSPROC3_READ => Some(NfsHandler::Read),
        NFSProgram::NFSPROC3_FSINFO => Some(NfsHandler::Fsinfo),
        NFSProgram::NFSPROC3_ACCESS => Some(NfsHandler::Access),
        NFSProgram::NFSPROC3_PATHCONF => Some(NfsHandler::Pathconf),
        NFSProgram::NFSPROC3_FSSTAT => Some(NfsHandler::Fsstat),
        NFSProgram::NFSPROC3_READDIRPLUS => Some(NfsHandler::Readdirplus),
        NFSProgram::NFSPROC3_WRITE => Some(NfsHandler::Write),
        NFSProgram::NFSPROC3_CREATE => Some(NfsHandler::Create),
        NFSProgram::NFSPROC3_SETATTR => Some(NfsHandler::Setattr),
        NFSProgram::NFSPROC3_REMOVE => Some(NfsHandler::Remove),
        NFSProgram::NFSPROC3_RMDIR => Some(NfsHandler::Remove),
        NFSProgram::NFSPROC3_RENAME => Some(NfsHandler::Rename),
        NFSProgram::NFSPROC3_MKDIR => Some(NfsHandler::Mkdir),
        NFSProgram::NFSPROC3_SYMLINK => Some(NfsHandler::Symlink),
        NFSProgram::NFSPROC3_READLINK => Some(NfsHandler::Readlink),
        _ => None,
    }
}

/// What the server does with an NFS call.
#[derive(Debug, Clone, Copy, PartialEq, Eq, Structural)]
pub enum NfsRoute {
    /// Answer PROG_MISMATCH, naming version 3.
    VersionMismatch,
    /// Answer NFS3ERR_ROFS with empty weak cache consistency data.
    ReadOnly,
    /// Hand the call to this handler.
    Handle(NfsHandler),
    /// Answer PROC_UNAVAIL.
    Unavailable,
}

/// What the server does with a call of procedure `procedure` of NFS version
/// `vers` on a file system with capabilities `caps`.
pub open spec fn nfs_route_spec(vers: u32, procedure: u32, caps: VFSCapabilities) -> NfsRoute {
    let p = nfs_program_spec(procedure);
    if vers != VERSION {
        NfsRoute::VersionMismatch
    } else if is_write_procedure(p) && caps != VFSCapabilities::ReadWrite {
        NfsRoute::ReadOnly
    } else {
        match handler_of(p) {
            Some(h) => NfsRoute::Handle(h),
            None => NfsRoute::Unavailable,
        }
    }
}

/// Decides what the server does with an NFS call.
pub fn route_nfs(vers: u32, procedure: u32, caps: VFSCapabilities) -> (r: NfsRoute)
    ensures
        r == nfs_route_spec(vers, procedure, caps),
{
    if vers != VERSION {
        return NfsRoute::VersionMismatch;
    }
    let prog = NFSProgram::from_u32(procedure);
    let writes = match prog {
        NFSProgram::NFSPROC3_WRITE | NFSProgram::NFSPROC3_CREATE | NFSProgram::NFSPROC3_SETATTR
        | NFSProgram::NFSPROC3_REMOVE | NFSProgram::NFSPROC3_RMDIR | NFSProgram::NFSPROC3_RENAME
        | NFSProgram::NFSPROC3_MKDIR | NFSProgram::NFSPROC3_SYMLINK => true,
        _ => false,
    };
    let read_write = match caps {
        VFSCapabilities::ReadWrite => true,
        VFSCapabilities::ReadOnly => false,
    };
    if writes && !read_write {
        return NfsRoute::ReadOnly;
    }
    match prog {
        NFSProgram::NFSPROC3_NULL => NfsRoute::Handle(NfsHandler::Null),
        NFSProgram::NFSPROC3_GETATTR => NfsRoute::Handle(NfsHandler::Getattr),
        NFSProgram::NFSPROC3_LOOKUP => NfsRoute::Handle(NfsHandler::Lookup),
        NFSProgram::NFSPROC3_READ => NfsRoute::Handle(NfsHandler::Read),
        NFSProgram::NFSPROC3_FSINFO => NfsRoute::Handle(NfsHandler::Fsinfo),
        NFSProgram::NFSPROC3_ACCESS => NfsRoute::Handle(NfsHandler::Access),
        NFSProgram::NFSPROC3_PATHCONF => NfsRoute::Handle(NfsHandler::Pathconf),
        NFSProgram::NFSPROC3_FSSTAT => NfsRoute::Handle(NfsHandler::Fsstat),
        NFSProgram::NFSPROC3_READDIRPLUS => NfsRoute::Handle(NfsHandler::Readdirplus),
        NFSProgram::NFSPROC3_WRITE => NfsRoute::Handle(NfsHandler::Write),
        NFSProgram::NFSPROC3_CREATE => NfsRoute::Handle(NfsHandler::Create),
        NFSProgram::NFSPROC3_SETATTR => NfsRoute::Handle(NfsHandler::Setattr),
        NFSProgram::NFSPROC3_REMOVE => NfsRoute::Handle(NfsHandler::Remove),
        NFSProgram::NFSPROC3_RMDIR => NfsRoute::Handle(NfsHandler::Remove),
        NFSProgram::NFSPROC3_RENAME => NfsRoute::Handle(NfsHandler::Rename),
        NFSProgram::NFSPROC3_MKDIR => NfsRoute::Handle(NfsHandler::Mkdir),
        NFSProgram::NFSPROC3_SYMLINK => NfsRoute::Handle(NfsHandler::Symlink),
        NFSProgram::NFSPROC3_READLINK => NfsRoute::Handle(NfsHandler::Readlink),
        _ => NfsRoute::Unavailable,
    }
}

/// On a read-only file system, no procedure that changes the file system
/// reaches a handler: every such call of NFS version 3 is answered
/// NFS3ERR_ROFS.
pub proof fn lemma_read_only_refuses_writes(procedure: u32)
    requires
        is_write_procedure(nfs_program_spec(procedure)),
    ensures
        nfs_route_spec(VERSION, procedure, VFSCapabilities::ReadOnly) == NfsRoute::ReadOnly,
{
}

/// Every procedure the server implements, and only those, reaches a
/// handler on a read-write file system.
pub proof fn lemma_read_write_dispatch(procedure: u32)
    ensures
        nfs_route_spec(VERSION, procedure, VFSCapabilities::ReadWrite) == match handler_of(
            nfs_program_spec(procedure),
        ) {
            Some(h) => NfsRoute::Handle(h),
            None => NfsRoute::Unavailable,
        },
{
}

/// The number RFC 1813 gives the procedure that handler `h` is named
/// after.
pub open spec fn procedure_number(h: NfsHandler) -> u32 {
    match h {
        NfsHandler::Null => 0,
        NfsHandler::Getattr => 1,
        NfsHandler::Setattr => 2,
        NfsHandler::Lookup => 3,
        NfsHandler::Access => 4,
        NfsHandler::Readlink => 5,
        NfsHandler::Read => 6,
        NfsHandler::Write => 7,
        NfsHandler::Create => 8,
        NfsHandler::Mkdir => 9,
        NfsHandler::Symlink => 10,
        NfsHandler::Remove => 12,
        NfsHandler::Rename => 14,
        NfsHandler::Readdirplus => 17,
        NfsHandler::Fsstat => 18,
        NfsHandler::Fsinfo => 19,
        NfsHandler::Pathconf => 20,
    }
}

/// On a read-write file system every handler is reached by a version 3
/// call of the procedure it is named after, and RMDIR (13) reaches the
/// REMOVE handler.
pub proof fn lemma_each_handler_reached_by_its_procedure(h: NfsHandler)
    ensures
        nfs_route_spec(VERSION, procedure_number(h), VFSCapabilities::ReadWrite)
            == NfsRoute::Handle(h),
        nfs_route_spec(VERSION, 13, VFSCapabilities::ReadWrite) == NfsRoute::Handle(
            NfsHandler::Remove,
        ),
{
}

/// On a read-write file system a version 3 call reaches the handler named
/// after its procedure (RMDIR the REMOVE handler); exactly MKNOD (11), LINK
/// (15), READDIR (16), COMMIT (21) and numbers past 21 are answered
/// PROC_UNAVAIL.
pub proof fn lemma_procedure_reaches_its_handler(procedure: u32)
    ensures
        nfs_route_spec(VERSION, procedure, VFSCapabilities::ReadWrite) matches NfsRoute::Handle(h)
            ==> procedure_number(h) == procedure || (procedure == 13 && h == NfsHandler::Remove),
        (nfs_route_spec(VERSION, procedure, VFSCapabilities::ReadWrite) == NfsRoute::Unavailable)
            == (procedure == 11 || procedure == 15 || procedure == 16 || procedure >= 21),
        nfs_route_spec(VERSION, procedure, VFSCapabilities::ReadWrite) is Handle
            || nfs_route_spec(VERSION, procedure, VFSCapabilities::ReadWrite) is Unavailable,
{
}

/// On a read-only file system the procedures that change it (SETATTR 2,
/// WRITE 7, CREATE 8, MKDIR 9, SYMLINK 10, REMOVE 12, RMDIR 13, RENAME 14)
/// are answered NFS3ERR_ROFS, and every other call goes where it goes on a
/// read-write one.
pub proof fn lemma_read_only_routes(procedure: u32)
    ensures
        nfs_route_spec(VERSION, procedure, VFSCapabilities::ReadOnly) == if procedure == 2
            || (7 <= procedure <= 10) || (12 <= procedure <= 14) {
            NfsRoute::ReadOnly
        } else {
            nfs_route_spec(VERSION, procedure, VFSCapabilities::ReadWrite)
        },
{
}

/// A call of any version other than 3 is answered PROG_MISMATCH.
pub proof fn lemma_other_versions_mismatch(vers: u32, procedure: u32, caps: VFSCapabilities)
    requires
        vers != 3,
    ensures
        nfs_route_spec(vers, procedure, caps) == NfsRoute::VersionMismatch,
{
}

/// The NFS3ERR_ROFS reply: a successful RPC reply, the status 30 and empty
/// weak cache consistency data (no attributes before, none after).
pub open spec fn rofs_reply(xid: u32) -> Seq<u8> {
    success_reply(xid) + be32(30) + be32(0) + be32(0)
}

/// Builds the NFS3ERR_ROFS reply.
pub fn rofs_reply_message(xid: u32) -> (out: Vec<u8>)
    ensures
        out@ == rofs_reply(xid),
{
    let mut out: Vec<u8> = Vec::new();
    push_accepted_reply(&mut out, xid, 0);
    push_u32(&mut out, 30);
    push_u32(&mut out, 0);
    push_u32(&mut out, 0);
    assert(out@ =~= rofs_reply(xid));
    out
}

/// The PORTMAP program number.
pub const PORTMAP_PROGRAM: u32 = 100000;

/// The MOUNT program number.
pub const MOUNT_PROGRAM: u32 = 100005;

/// Where an incoming RPC message goes.
#[derive(Debug, Clone, Copy, PartialEq, Eq, Structural)]
pub enum RpcRoute {
    /// The message is a reply, not a call: an error.
    NotACall,
    /// Answer RPC_MISMATCH.
    RpcVersionMismatch,
    Nfs,
    Portmap,
    Mount,
    /// Answer PROG_UNAVAIL.
    ProgramUnavailable,
}

/// Where a message goes: calls of RPC version 2 go to the program they name.
pub open spec fn rpc_route_spec(is_call: bool, rpcvers: u32, prog: u32) -> RpcRoute {
    if !is_call {
        RpcRoute::NotACall
    } else if rpcvers != 2 {
        RpcRoute::RpcVersionMismatch
    } else if prog == crate::kernel::nfs::PROGRAM {
        RpcRoute::Nfs
    } else if prog == PORTMAP_PROGRAM {
        RpcRoute::Portmap
    } else if prog == MOUNT_PROGRAM {
        RpcRoute::Mount
    } else {
        RpcRoute::ProgramUnavailable
    }
}

/// Decides where an incoming RPC message goes.
pub fn route_rpc(is_call: bool, rpcvers: u32, prog: u32) -> (r: RpcRoute)
    ensures
        r == rpc_route_spec(is_call, rpcvers, prog),
{
    if !is_call {
        RpcRoute::NotACall
    } else if rpcvers != 2 {
        RpcRoute::RpcVersionMismatch
    } else if prog == crate::kernel::nfs::PROGRAM {
        RpcRoute::Nfs
    } else if prog == PORTMAP_PROGRAM {
        RpcRoute::Portmap
    } else if prog == MOUNT_PROGRAM {
        RpcRoute::Mount
    } else {
        RpcRoute::ProgramUnavailable
    }
}

/// A reply is never routed as a call; a call of an RPC version other than
/// 2 is answered RPC_MISMATCH; a version 2 call goes to NFS for program
/// 100003, to PORTMAP for 100000, to MOUNT for 100005, and is answered
/// PROG_UNAVAIL for any other program.
pub proof fn lemma_rpc_programs(is_call: bool, rpcvers: u32, prog: u32)
    ensures
        rpc_route_spec(is_call, rpcvers, prog) == if !is_call {
            RpcRoute::NotACall
        } else if rpcvers != 2 {
            RpcRoute::RpcVersionMismatch
        } else if prog == 100003 {
            RpcRoute::Nfs
        } else if prog == 100000 {
            RpcRoute::Portmap
        } else if prog == 100005 {
            RpcRoute::Mount
        } else {
            RpcRoute::ProgramUnavailable
        },
{
}

} // verus!
