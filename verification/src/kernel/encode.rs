//! The replies of the server's informational NFS procedures, as bytes
//! (RFC 1813): GETATTR, LOOKUP, ACCESS, FSINFO, FSSTAT, PATHCONF and
//! READLINK.

use vstd::prelude::*;
use crate::kernel::fs_ops::{FsInfo, FsStat, PathConf};
use crate::kernel::nfs::{fattr3, ftype3, nfsstat3, nfsstat3_code_spec};
use crate::kernel::reply::{push_accepted_reply, success_reply};
use crate::xdr::{be32, be64, opaque, push_opaque, push_u32, push_u64};

verus! {

/// The number a file type is sent as.
pub open spec fn ftype3_code(t: ftype3) -> u32 {
    match t {
        ftype3::NF3REG => 1,
        ftype3::NF3DIR => 2,
        ftype3::NF3BLK => 3,
        ftype3::NF3CHR => 4,
        ftype3::NF3LNK => 5,
        ftype3::NF3SOCK => 6,
        ftype3::NF3FIFO => 7,
    }
}

fn ftype3_number(t: ftype3) -> (n: u32)
    ensures
        n == ftype3_code(t),
{
    match t {
        ftype3::NF3REG => 1,
        ftype3::NF3DIR => 2,
        ftype3::NF3BLK => 3,
        ftype3::NF3CHR => 4,
        ftype3::NF3LNK => 5,
        ftype3::NF3SOCK => 6,
        ftype3::NF3FIFO => 7,
    }
}

/// A file's attributes on the wire: 84 bytes, field by field.
pub open spec fn fattr3_bytes(a: fattr3) -> Seq<u8> {
    be32(ftype3_code(a.ftype)) + be32(a.mode) + be32(a.nlink) + be32(a.uid) + be32(a.gid) + be64(
        a.size,
    ) + be64(a.used) + be32(a.rdev.specdata1) + be32(a.rdev.specdata2) + be64(a.fsid) + be64(
        a.fileid,
    ) + be32(a.atime.seconds) + be32(a.atime.nseconds) + be32(a.mtime.seconds) + be32(
        a.mtime.nseconds,
    ) + be32(a.ctime.seconds) + be32(a.ctime.nseconds)
}

/// Appends a file's attributes.
pub fn push_fattr3(out: &mut Vec<u8>, a: &fattr3)
    ensures
        final(out)@ == old(out)@ + fattr3_bytes(*a),
{
    push_u32(out, ftype3_number(a.ftype));
    push_u32(out, a.mode);
    push_u32(out, a.nlink);
    push_u32(out, a.uid);
    push_u32(out, a.gid);
    push_u64(out, a.size);
    push_u64(out, a.used);
    push_u32(out, a.rdev.specdata1);
    push_u32(out, a.rdev.specdata2);
    push_u64(out, a.fsid);
    push_u64(out, a.fileid);
    push_u32(out, a.atime.seconds);
    push_u32(out, a.atime.nseconds);
    push_u32(out, a.mtime.seconds);
    push_u32(out, a.mtime.nseconds);
    push_u32(out, a.ctime.seconds);
    push_u32(out, a.ctime.nseconds);
    assert(out@ =~= old(out)@ + fattr3_bytes(*a));
}

/// Attributes that may be missing: a flag word, then the attributes.
pub open spec fn post_op_attr_bytes(a: Option<fattr3>) -> Seq<u8> {
    match a {
        Some(x) => be32(1) + fattr3_bytes(x),
        None => be32(0),
    }
}

/// Appends attributes that may be missing.
pub fn push_post_op_attr(out: &mut Vec<u8>, a: &Option<fattr3>)
    ensures
        final(out)@ == old(out)@ + post_op_attr_bytes(*a),
{
    match a {
        Some(x) => {
            push_u32(out, 1);
            push_fattr3(out, x);
            assert(out@ =~= old(out)@ + post_op_attr_bytes(*a));
        },
        None => {
            push_u32(out, 0);
        },
    }
}

fn push_status(out: &mut Vec<u8>, s: nfsstat3)
    ensures
        final(out)@ == old(out)@ + be32(nfsstat3_code_spec(s)),
{
    push_u32(out, s.code());
}

/// The reply to GETATTR: the status, then the attributes on success.
pub open spec fn getattr_reply_spec(xid: u32, r: Result<fattr3, nfsstat3>) -> Seq<u8> {
    match r {
        Ok(a) => success_reply(xid) + be32(0) + fattr3_bytes(a),
        Err(s) => success_reply(xid) + be32(nfsstat3_code_spec(s)),
    }
}

/// Builds the reply to GETATTR.
pub fn getattr_reply(xid: u32, r: &Result<fattr3, nfsstat3>) -> (out: Vec<u8>)
    ensures
        out@ == getattr_reply_spec(xid, *r),
{
    let mut out: Vec<u8> = Vec::new();
    push_accepted_reply(&mut out, xid, 0);
    match r {
        Ok(a) => {
            push_u32(&mut out, 0);
            push_fattr3(&mut out, a);
        },
        Err(s) => {
            push_status(&mut out, *s);
        },
    }
    out
}

/// The reply to LOOKUP: on success the status, the found handle, its
/// attributes and the directory's; on failure the status and the
/// directory's attributes.
pub open spec fn lookup_reply_spec(
    xid: u32,
    r: Result<(Seq<u8>, Option<fattr3>), nfsstat3>,
    dir: Option<fattr3>,
) -> Seq<u8> {
    match r {
        Ok((fh, obj)) => success_reply(xid) + be32(0) + opaque(fh) + post_op_attr_bytes(obj)
            + post_op_attr_bytes(dir),
        Err(s) => success_reply(xid) + be32(nfsstat3_code_spec(s)) + post_op_attr_bytes(dir),
    }
}

/// Builds the reply to LOOKUP.
pub fn lookup_reply(
    xid: u32,
    r: &Result<(Vec<u8>, Option<fattr3>), nfsstat3>,
    dir: &Option<fattr3>,
) -> (out: Vec<u8>)
    requires
        r matches Ok((fh, _)) ==> fh@.len() <= u32::MAX,
    ensures
        out@ == lookup_reply_spec(
            xid,
            match r {
                Ok((fh, obj)) => Ok((fh@, *obj)),
                Err(s) => Err(*s),
            },
            *dir,
        ),
{
    let mut out: Vec<u8> = Vec::new();
    push_accepted_reply(&mut out, xid, 0);
    match r {
        Ok((fh, obj)) => {
            push_u32(&mut out, 0);
            push_opaque(&mut out, fh.as_slice());
            push_post_op_attr(&mut out, obj);
            push_post_op_attr(&mut out, dir);
        },
        Err(s) => {
            push_status(&mut out, *s);
            push_post_op_attr(&mut out, dir);
        },
    }
    out
}

/// The reply to a call whose file handle the server could not resolve: the
/// status and no attributes.
pub open spec fn bad_handle_reply_spec(xid: u32, s: nfsstat3) -> Seq<u8> {
    success_reply(xid) + be32(nfsstat3_code_spec(s)) + be32(0)
}

/// Builds the reply to a call whose file handle could not be resolved.
pub fn bad_handle_reply(xid: u32, s: nfsstat3) -> (out: Vec<u8>)
    ensures
        out@ == bad_handle_reply_spec(xid, s),
{
    let mut out: Vec<u8> = Vec::new();
    push_accepted_reply(&mut out, xid, 0);
    push_status(&mut out, s);
    push_u32(&mut out, 0);
    out
}

/// The reply to ACCESS: success, the object's attributes, the rights
/// granted.
pub open spec fn access_reply_spec(xid: u32, obj: Option<fattr3>, granted: u32) -> Seq<u8> {
    success_reply(xid) + be32(0) + post_op_attr_bytes(obj) + be32(granted)
}

/// Builds the reply to ACCESS.
pub fn access_reply(xid: u32, obj: &Option<fattr3>, granted: u32) -> (out: Vec<u8>)
    ensures
        out@ == access_reply_spec(xid, *obj, granted),
{
    let mut out: Vec<u8> = Vec::new();
    push_accepted_reply(&mut out, xid, 0);
    push_u32(&mut out, 0);
    push_post_op_attr(&mut out, obj);
    push_u32(&mut out, granted);
    out
}

/// The reply to FSINFO: success, the root's attributes, then the limits in
/// the order RFC 1813 gives them.
pub open spec fn fsinfo_reply_spec(xid: u32, obj: Option<fattr3>, f: FsInfo) -> Seq<u8> {
    success_reply(xid) + be32(0) + post_op_attr_bytes(obj) + be32(f.rtmax) + be32(f.rtpref) + be32(
        f.rtmult,
    ) + be32(f.wtmax) + be32(f.wtpref) + be32(f.wtmult) + be32(f.dtpref) + be64(f.maxfilesize)
        + be32(f.time_delta.seconds) + be32(f.time_delta.nseconds) + be32(f.properties)
}

/// Builds the reply to FSINFO.
pub fn fsinfo_reply(xid: u32, obj: &Option<fattr3>, f: &FsInfo) -> (out: Vec<u8>)
    ensures
        out@ == fsinfo_reply_spec(xid, *obj, *f),
{
    let mut out: Vec<u8> = Vec::new();
    push_accepted_reply(&mut out, xid, 0);
    push_u32(&mut out, 0);
    push_post_op_attr(&mut out, obj);
    let ghost head = out@;
    push_u32(&mut out, f.rtmax);
    push_u32(&mut out, f.rtpref);
    push_u32(&mut out, f.rtmult);
    push_u32(&mut out, f.wtmax);
    push_u32(&mut out, f.wtpref);
    push_u32(&mut out, f.wtmult);
    push_u32(&mut out, f.dtpref);
    push_u64(&mut out, f.maxfilesize);
    push_u32(&mut out, f.time_delta.seconds);
    push_u32(&mut out, f.time_delta.nseconds);
    push_u32(&mut out, f.properties);
    assert(out@ =~= fsinfo_reply_spec(xid, *obj, *f));
    out
}

/// The reply to FSSTAT: success, the root's attributes, then the totals.
pub open spec fn fsstat_reply_spec(xid: u32, obj: Option<fattr3>, s: FsStat) -> Seq<u8> {
    success_reply(xid) + be32(0) + post_op_attr_bytes(obj) + be64(s.tbytes) + be64(s.fbytes)
        + be64(s.abytes) + be64(s.tfiles) + be64(s.ffiles) + be64(s.afiles) + be32(s.invarsec)
}

/// Builds the reply to FSSTAT.
pub fn fsstat_reply(xid: u32, obj: &Option<fattr3>, s: &FsStat) -> (out: Vec<u8>)
    ensures
        out@ == fsstat_reply_spec(xid, *obj, *s),
{
    let mut out: Vec<u8> = Vec::new();
    push_accepted_reply(&mut out, xid, 0);
    push_u32(&mut out, 0);
    push_post_op_attr(&mut out, obj);
    push_u64(&mut out, s.tbytes);
    push_u64(&mut out, s.fbytes);
    push_u64(&mut out, s.abytes);
    push_u64(&mut out, s.tfiles);
    push_u64(&mut out, s.ffiles);
    push_u64(&mut out, s.afiles);
    push_u32(&mut out, s.invarsec);
    assert(out@ =~= fsstat_reply_spec(xid, *obj, *s));
    out
}

/// A flag on the wire: 1 for true, 0 for false.
pub open spec fn bool_word(b: bool) -> u32 {
    if b {
        1
    } else {
        0
    }
}

/// The reply to PATHCONF: success, the object's attributes, then the
/// limits and flags.
pub open spec fn pathconf_reply_spec(xid: u32, obj: Option<fattr3>, p: PathConf) -> Seq<u8> {
    success_reply(xid) + be32(0) + post_op_attr_bytes(obj) + be32(p.linkmax) + be32(p.name_max)
        + be32(bool_word(p.no_trunc)) + be32(bool_word(p.chown_restricted)) + be32(
        bool_word(p.case_insensitive),
    ) + be32(bool_word(p.case_preserving))
}

fn push_bool(out: &mut Vec<u8>, b: bool)
    ensures
        final(out)@ == old(out)@ + be32(bool_word(b)),
{
    push_u32(out, if b { 1 } else { 0 });
}

/// Builds the reply to PATHCONF.
pub fn pathconf_reply(xid: u32, obj: &Option<fattr3>, p: &PathConf) -> (out: Vec<u8>)
    ensures
        out@ == pathconf_reply_spec(xid, *obj, *p),
{
    let mut out: Vec<u8> = Vec::new();
    push_accepted_reply(&mut out, xid, 0);
    push_u32(&mut out, 0);
    push_post_op_attr(&mut out, obj);
    push_u32(&mut out, p.linkmax);
    push_u32(&mut out, p.name_max);
    push_bool(&mut out, p.no_trunc);
    push_bool(&mut out, p.chown_restricted);
    push_bool(&mut out, p.case_insensitive);
    push_bool(&mut out, p.case_preserving);
    assert(out@ =~= pathconf_reply_spec(xid, *obj, *p));
    out
}

/// The reply to READLINK: on success the status, the link's attributes and
/// its target; on failure the status and the attributes.
pub open spec fn readlink_reply_spec(xid: u32, obj: Option<fattr3>, r: Result<Seq<u8>, nfsstat3>) -> Seq<
    u8,
> {
    match r {
        Ok(target) => success_reply(xid) + be32(0) + post_op_attr_bytes(obj) + opaque(target),
        Err(s) => success_reply(xid) + be32(nfsstat3_code_spec(s)) + post_op_attr_bytes(obj),
    }
}

/// Builds the reply to READLINK.
pub fn readlink_reply(xid: u32, obj: &Option<fattr3>, r: &Result<Vec<u8>, nfsstat3>) -> (out: Vec<
    u8,
>)
    requires
        r matches Ok(t) ==> t@.len() <= u32::MAX,
    ensures
        out@ == readlink_reply_spec(
            xid,
            *obj,
            match r {
                Ok(t) => Ok(t@),
                Err(s) => Err(*s),
            },
        ),
{
    let mut out: Vec<u8> = Vec::new();
    push_accepted_reply(&mut out, xid, 0);
    match r {
        Ok(t) => {
            push_u32(&mut out, 0);
            push_post_op_attr(&mut out, obj);
            push_opaque(&mut out, t.as_slice());
        },
        Err(s) => {
            push_status(&mut out, *s);
            push_post_op_attr(&mut out, obj);
        },
    }
    out
}

} // verus!
