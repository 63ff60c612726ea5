//! The informational procedures: what FSINFO, PATHCONF and FSSTAT report,
//! which rights ACCESS grants, and the SETATTR guard.

use vstd::prelude::*;
use crate::kernel::nfs::{nfstime3, VFSCapabilities};

verus! {

/// Permission to read data or list a directory.
pub const ACCESS3_READ: u32 = 0x0001;

/// Permission to look a name up in a directory.
pub const ACCESS3_LOOKUP: u32 = 0x0002;

/// Permission to rewrite data or directory entries.
pub const ACCESS3_MODIFY: u32 = 0x0004;

/// Permission to append data or add directory entries.
pub const ACCESS3_EXTEND: u32 = 0x0008;

/// Permission to delete directory entries.
pub const ACCESS3_DELETE: u32 = 0x0010;

/// Permission to execute a file or search a directory.
pub const ACCESS3_EXECUTE: u32 = 0x0020;

/// The rights ACCESS grants of those asked for: all of them on a read-write
/// file system, only reading and looking up on a read-only one.
pub fn granted_access(requested: u32, caps: VFSCapabilities) -> (granted: u32)
    ensures
        caps == VFSCapabilities::ReadWrite ==> granted == requested,
        caps == VFSCapabilities::ReadOnly ==> granted == requested & (ACCESS3_READ
            | ACCESS3_LOOKUP),
{
    match caps {
        VFSCapabilities::ReadWrite => requested,
        VFSCapabilities::ReadOnly => requested & (ACCESS3_READ | ACCESS3_LOOKUP),
    }
}

/// A read-only file system grants no right to change anything.
pub proof fn lemma_read_only_grants_no_change(requested: u32)
    ensures
        requested & (ACCESS3_READ | ACCESS3_LOOKUP) & (ACCESS3_MODIFY | ACCESS3_EXTEND
            | ACCESS3_DELETE) == 0,
{
    assert(requested & (0x0001u32 | 0x0002u32) & (0x0004u32 | 0x0008u32 | 0x0010u32) == 0)
        by (bit_vector);
}

/// The file system can make hard links.
pub const FSF_LINK: u32 = 0x0001;

/// The file system can make symbolic links.
pub const FSF_SYMLINK: u32 = 0x0002;

/// PATHCONF answers the same for every file.
pub const FSF_HOMOGENEOUS: u32 = 0x0008;

/// The server can set file times.
pub const FSF_CANSETTIME: u32 = 0x0010;

/// The limits FSINFO reports.
#[derive(Debug, Clone, Copy, PartialEq, Eq, Structural)]
pub struct FsInfo {
    pub rtmax: u32,
    pub rtpref: u32,
    pub rtmult: u32,
    pub wtmax: u32,
    pub wtpref: u32,
    pub wtmult: u32,
    pub dtpref: u32,
    pub maxfilesize: u64,
    pub time_delta: nfstime3,
    pub properties: u32,
}

/// What FSINFO reports: 1 MiB transfers (124 KiB preferred reads), files
/// up to 128 GiB, millisecond times, symbolic links, homogeneous, times
/// settable.
pub fn fsinfo_limits() -> (r: FsInfo)
    ensures
        r.rtmax == 1048576 && r.rtpref == 126976 && r.rtmult == 1048576,
        r.wtmax == 1048576 && r.wtpref == 1048576 && r.wtmult == 1048576,
        r.dtpref == 1048576,
        r.maxfilesize == 137438953472,
        r.time_delta == (nfstime3 { seconds: 0, nseconds: 1000000 }),
        r.properties == FSF_SYMLINK | FSF_HOMOGENEOUS | FSF_CANSETTIME,
{
    FsInfo {
        rtmax: 1024 * 1024,
        rtpref: 1024 * 124,
        rtmult: 1024 * 1024,
        wtmax: 1024 * 1024,
        wtpref: 1024 * 1024,
        wtmult: 1024 * 1024,
        dtpref: 1024 * 1024,
        maxfilesize: 128 * 1024 * 1024 * 1024,
        time_delta: nfstime3 { seconds: 0, nseconds: 1000000 },
        properties: FSF_SYMLINK | FSF_HOMOGENEOUS | FSF_CANSETTIME,
    }
}

/// What PATHCONF reports.
#[derive(Debug, Clone, Copy, PartialEq, Eq, Structural)]
pub struct PathConf {
    pub linkmax: u32,
    pub name_max: u32,
    pub no_trunc: bool,
    pub chown_restricted: bool,
    pub case_insensitive: bool,
    pub case_preserving: bool,
}

/// What PATHCONF reports: no hard links, names up to 32768 bytes, never
/// cut, ownership changes restricted, case-sensitive and preserved.
pub fn pathconf_limits() -> (r: PathConf)
    ensures
        r == (PathConf {
            linkmax: 0,
            name_max: 32768,
            no_trunc: true,
            chown_restricted: true,
            case_insensitive: false,
            case_preserving: true,
        }),
{
    PathConf {
        linkmax: 0,
        name_max: 32768,
        no_trunc: true,
        chown_restricted: true,
        case_insensitive: false,
        case_preserving: true,
    }
}

/// What FSSTAT reports.
#[derive(Debug, Clone, Copy, PartialEq, Eq, Structural)]
pub struct FsStat {
    pub tbytes: u64,
    pub fbytes: u64,
    pub abytes: u64,
    pub tfiles: u64,
    pub ffiles: u64,
    pub afiles: u64,
    pub invarsec: u32,
}

/// What FSSTAT reports: 1 TiB of space and 2^30 files, all free, and no
/// promise that this stays so.
pub fn fsstat_totals() -> (r: FsStat)
    ensures
        r.tbytes == 1099511627776 && r.fbytes == 1099511627776 && r.abytes == 1099511627776,
        r.tfiles == 1073741824 && r.ffiles == 1073741824 && r.afiles == 1073741824,
        r.invarsec == u32::MAX,
{
    FsStat {
        tbytes: 1024 * 1024 * 1024 * 1024,
        fbytes: 1024 * 1024 * 1024 * 1024,
        abytes: 1024 * 1024 * 1024 * 1024,
        tfiles: 1024 * 1024 * 1024,
        ffiles: 1024 * 1024 * 1024,
        afiles: 1024 * 1024 * 1024,
        invarsec: u32::MAX,
    }
}

/// The guard of SETATTR: none, or the change time the client expects.
#[allow(non_camel_case_types)]
#[derive(Debug, Clone, Copy, PartialEq, Eq, Structural)]
pub enum sattrguard3 {
    Void,
    obj_ctime(nfstime3),
}

/// Whether the guard lets SETATTR through against a file whose change time
/// is `ctime`: always without a guard, else only on an exact match.
pub fn guard_passes(guard: sattrguard3, ctime: nfstime3) -> (b: bool)
    ensures
        b == match guard {
            sattrguard3::Void => true,
            sattrguard3::obj_ctime(c) => c.seconds == ctime.seconds && c.nseconds
                == ctime.nseconds,
        },
{
    match guard {
        sattrguard3::Void => true,
        sattrguard3::obj_ctime(c) => c.seconds == ctime.seconds && c.nseconds == ctime.nseconds,
    }
}

} // verus!
