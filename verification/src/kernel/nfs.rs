//! The NFS version 3 values the server hands out (RFC 1813).

use vstd::prelude::*;

verus! {

/// NFS version 3 program number.
pub const PROGRAM: u32 = 100003;

/// NFS protocol version.
pub const VERSION: u32 = 3;

/// Status of an NFS procedure.
#[allow(non_camel_case_types)]
#[derive(Debug, Clone, Copy, PartialEq, Eq, Structural)]
pub enum nfsstat3 {
    NFS3_OK,
    NFS3ERR_PERM,
    NFS3ERR_NOENT,
    NFS3ERR_IO,
    NFS3ERR_NXIO,
    NFS3ERR_ACCES,
    NFS3ERR_EXIST,
    NFS3ERR_XDEV,
    NFS3ERR_NODEV,
    NFS3ERR_NOTDIR,
    NFS3ERR_ISDIR,
    NFS3ERR_INVAL,
    NFS3ERR_FBIG,
    NFS3ERR_NOSPC,
    NFS3ERR_ROFS,
    NFS3ERR_MLINK,
    NFS3ERR_NAMETOOLONG,
    NFS3ERR_NOTEMPTY,
    NFS3ERR_DQUOT,
    NFS3ERR_STALE,
    NFS3ERR_REMOTE,
    NFS3ERR_BADHANDLE,
    NFS3ERR_NOT_SYNC,
    NFS3ERR_BAD_COOKIE,
    NFS3ERR_NOTSUPP,
    NFS3ERR_TOOSMALL,
    NFS3ERR_SERVERFAULT,
    NFS3ERR_BADTYPE,
    NFS3ERR_JUKEBOX,
}

/// The number that stands for `s` on the wire.
pub open spec fn nfsstat3_code_spec(s: nfsstat3) -> u32 {
    match s {
        nfsstat3::NFS3_OK => 0,
        nfsstat3::NFS3ERR_PERM => 1,
        nfsstat3::NFS3ERR_NOENT => 2,
        nfsstat3::NFS3ERR_IO => 5,
        nfsstat3::NFS3ERR_NXIO => 6,
        nfsstat3::NFS3ERR_ACCES => 13,
        nfsstat3::NFS3ERR_EXIST => 17,
        nfsstat3::NFS3ERR_XDEV => 18,
        nfsstat3::NFS3ERR_NODEV => 19,
        nfsstat3::NFS3ERR_NOTDIR => 20,
        nfsstat3::NFS3ERR_ISDIR => 21,
        nfsstat3::NFS3ERR_INVAL => 22,
        nfsstat3::NFS3ERR_FBIG => 27,
        nfsstat3::NFS3ERR_NOSPC => 28,
        nfsstat3::NFS3ERR_ROFS => 30,
        nfsstat3::NFS3ERR_MLINK => 31,
        nfsstat3::NFS3ERR_NAMETOOLONG => 63,
        nfsstat3::NFS3ERR_NOTEMPTY => 66,
        nfsstat3::NFS3ERR_DQUOT => 69,
        nfsstat3::NFS3ERR_STALE => 70,
        nfsstat3::NFS3ERR_REMOTE => 71,
        nfsstat3::NFS3ERR_BADHANDLE => 10001,
        nfsstat3::NFS3ERR_NOT_SYNC => 10002,
        nfsstat3::NFS3ERR_BAD_COOKIE => 10003,
        nfsstat3::NFS3ERR_NOTSUPP => 10004,
        nfsstat3::NFS3ERR_TOOSMALL => 10005,
        nfsstat3::NFS3ERR_SERVERFAULT => 10006,
        nfsstat3::NFS3ERR_BADTYPE => 10007,
        nfsstat3::NFS3ERR_JUKEBOX => 10008,
    }
}

impl nfsstat3 {
    /// The number that stands for this status on the wire.
    pub fn code(&self) -> (c: u32)
        ensures
            c == nfsstat3_code_spec(*self),
    {
        match self {
            nfsstat3::NFS3_OK => 0,
            nfsstat3::NFS3ERR_PERM => 1,
            nfsstat3::NFS3ERR_NOENT => 2,
            nfsstat3::NFS3ERR_IO => 5,
            nfsstat3::NFS3ERR_NXIO => 6,
            nfsstat3::NFS3ERR_ACCES => 13,
            nfsstat3::NFS3ERR_EXIST => 17,
            nfsstat3::NFS3ERR_XDEV => 18,
            nfsstat3::NFS3ERR_NODEV => 19,
            nfsstat3::NFS3ERR_NOTDIR => 20,
            nfsstat3::NFS3ERR_ISDIR => 21,
            nfsstat3::NFS3ERR_INVAL => 22,
            nfsstat3::NFS3ERR_FBIG => 27,
            nfsstat3::NFS3ERR_NOSPC => 28,
            nfsstat3::NFS3ERR_ROFS => 30,
            nfsstat3::NFS3ERR_MLINK => 31,
            nfsstat3::NFS3ERR_NAMETOOLONG => 63,
            nfsstat3::NFS3ERR_NOTEMPTY => 66,
            nfsstat3::NFS3ERR_DQUOT => 69,
            nfsstat3::NFS3ERR_STALE => 70,
            nfsstat3::NFS3ERR_REMOTE => 71,
            nfsstat3::NFS3ERR_BADHANDLE => 10001,
            nfsstat3::NFS3ERR_NOT_SYNC => 10002,
            nfsstat3::NFS3ERR_BAD_COOKIE => 10003,
            nfsstat3::NFS3ERR_NOTSUPP => 10004,
            nfsstat3::NFS3ERR_TOOSMALL => 10005,
            nfsstat3::NFS3ERR_SERVERFAULT => 10006,
            nfsstat3::NFS3ERR_BADTYPE => 10007,
            nfsstat3::NFS3ERR_JUKEBOX => 10008,
        }
    }
}

/// The type of a file.
#[allow(non_camel_case_types)]
#[derive(Debug, Clone, Copy, PartialEq, Eq, Structural)]
pub enum ftype3 {
    NF3REG,
    NF3DIR,
    NF3BLK,
    NF3CHR,
    NF3LNK,
    NF3SOCK,
    NF3FIFO,
}

/// A time stamp: seconds and nanoseconds.
#[allow(non_camel_case_types)]
#[derive(Debug, Clone, Copy, PartialEq, Eq, Structural)]
pub struct nfstime3 {
    pub seconds: u32,
    pub nseconds: u32,
}

/// Device numbers of a special file.
#[allow(non_camel_case_types)]
#[derive(Debug, Clone, Copy, PartialEq, Eq, Structural)]
pub struct specdata3 {
    pub specdata1: u32,
    pub specdata2: u32,
}

/// The attributes of a file as the server reports them.
#[allow(non_camel_case_types)]
#[derive(Debug, Clone, Copy, PartialEq, Eq, Structural)]
pub struct fattr3 {
    pub ftype: ftype3,
    pub mode: u32,
    pub nlink: u32,
    pub uid: u32,
    pub gid: u32,
    pub size: u64,
    pub used: u64,
    pub rdev: specdata3,
    pub fsid: u64,
    pub fileid: u64,
    pub atime: nfstime3,
    pub mtime: nfstime3,
    pub ctime: nfstime3,
}

/// Which operations the exported file system allows.
#[derive(Debug, Clone, Copy, PartialEq, Eq, Structural)]
pub enum VFSCapabilities {
    ReadOnly,
    ReadWrite,
}

/// A new mode, or none.
#[allow(non_camel_case_types)]
#[derive(Debug, Clone, Copy, PartialEq, Eq, Structural)]
pub enum set_mode3 {
    Void,
    mode(u32),
}

/// A new owner, or none.
#[allow(non_camel_case_types)]
#[derive(Debug, Clone, Copy, PartialEq, Eq, Structural)]
pub enum set_uid3 {
    Void,
    uid(u32),
}

/// A new group, or none.
#[allow(non_camel_case_types)]
#[derive(Debug, Clone, Copy, PartialEq, Eq, Structural)]
pub enum set_gid3 {
    Void,
    gid(u32),
}

/// A new size, or none.
#[allow(non_camel_case_types)]
#[derive(Debug, Clone, Copy, PartialEq, Eq, Structural)]
pub enum set_size3 {
    Void,
    size(u64),
}

/// How to change the access time.
#[allow(non_camel_case_types)]
#[derive(Debug, Clone, Copy, PartialEq, Eq, Structural)]
pub enum set_atime {
    DONT_CHANGE,
    SET_TO_SERVER_TIME,
    SET_TO_CLIENT_TIME(nfstime3),
}

/// How to change the modification time.
#[allow(non_camel_case_types)]
#[derive(Debug, Clone, Copy, PartialEq, Eq, Structural)]
pub enum set_mtime {
    DONT_CHANGE,
    SET_TO_SERVER_TIME,
    SET_TO_CLIENT_TIME(nfstime3),
}

/// The attributes a SETATTR or CREATE asks to set.
#[allow(non_camel_case_types)]
#[derive(Debug, Clone, Copy, PartialEq, Eq, Structural)]
pub struct sattr3 {
    pub mode: set_mode3,
    pub uid: set_uid3,
    pub gid: set_gid3,
    pub size: set_size3,
    pub atime: set_atime,
    pub mtime: set_mtime,
}

} // verus!
