//! The replies of the NFS procedures that change a file system object,
//! SETATTR and SYMLINK, with the weak cache consistency data they carry
//! (RFC 1813): the object's size and times before the change, and its
//! attributes after it.

use vstd::prelude::*;
use crate::kernel::encode::{fattr3_bytes, post_op_attr_bytes, push_fattr3, push_post_op_attr};
use crate::kernel::fs_ops::{guard_passes, sattrguard3};
use crate::kernel::nfs::{fattr3, nfsstat3, nfsstat3_code_spec, nfstime3};
use crate::kernel::reply::{push_accepted_reply, success_reply};
use crate::xdr::{be32, be64, opaque, push_opaque, push_u32, push_u64};

verus! {

/// The part of an object's attributes kept from before a change.
#[allow(non_camel_case_types)]
#[derive(Debug, Clone, Copy, PartialEq, Eq, Structural)]
pub struct wcc_attr {
    pub size: u64,
    pub mtime: nfstime3,
    pub ctime: nfstime3,
}

/// What is kept of `a` from before a change.
pub open spec fn wcc_attr_spec(a: fattr3) -> wcc_attr {
    wcc_attr { size: a.size, mtime: a.mtime, ctime: a.ctime }
}

/// What is kept of `a` from before a change.
pub fn wcc_attr_of(a: &fattr3) -> (w: wcc_attr)
    ensures
        w == wcc_attr_spec(*a),
{
    wcc_attr { size: a.size, mtime: a.mtime, ctime: a.ctime }
}

/// Attributes from before a change, which may be missing: a flag word,
/// then the size, modification time and change time.
pub open spec fn pre_op_attr_bytes(b: Option<wcc_attr>) -> Seq<u8> {
    match b {
        Some(w) => be32(1) + be64(w.size) + be32(w.mtime.seconds) + be32(w.mtime.nseconds) + be32(
            w.ctime.seconds,
        ) + be32(w.ctime.nseconds),
        None => be32(0),
    }
}

/// The weak cache consistency data: before, then after.
pub open spec fn wcc_data_bytes(before: Option<wcc_attr>, after: Option<fattr3>) -> Seq<u8> {
    pre_op_attr_bytes(before) + post_op_attr_bytes(after)
}

/// Appends the weak cache consistency data.
pub fn push_wcc_data(out: &mut Vec<u8>, before: &Option<wcc_attr>, after: &Option<fattr3>)
    ensures
        final(out)@ == old(out)@ + wcc_data_bytes(*before, *after),
{
    match before {
        Some(w) => {
            push_u32(out, 1);
            push_u64(out, w.size);
            push_u32(out, w.mtime.seconds);
            push_u32(out, w.mtime.nseconds);
            push_u32(out, w.ctime.seconds);
            push_u32(out, w.ctime.nseconds);
        },
        None => {
            push_u32(out, 0);
        },
    }
    push_post_op_attr(out, after);
    assert(out@ =~= old(out)@ + wcc_data_bytes(*before, *after));
}

/// A reply that carries only a status.
pub open spec fn status_reply_spec(xid: u32, s: nfsstat3) -> Seq<u8> {
    success_reply(xid) + be32(nfsstat3_code_spec(s))
}

/// Builds a reply that carries only a status, as SETATTR answers a file
/// handle it cannot resolve.
pub fn status_reply(xid: u32, s: nfsstat3) -> (out: Vec<u8>)
    ensures
        out@ == status_reply_spec(xid, s),
{
    let mut out: Vec<u8> = Vec::new();
    push_accepted_reply(&mut out, xid, 0);
    push_u32(&mut out, s.code());
    out
}

/// A failed change: the status, then weak cache consistency data that
/// knows nothing.
pub open spec fn wcc_failure_reply_spec(xid: u32, s: nfsstat3) -> Seq<u8> {
    success_reply(xid) + be32(nfsstat3_code_spec(s)) + wcc_data_bytes(None, None)
}

/// Builds the reply to a change that failed before anything was known of
/// the object: on a read-only export (`NFS3ERR_ROFS`), or when its
/// attributes could not be read.
pub fn wcc_failure_reply(xid: u32, s: nfsstat3) -> (out: Vec<u8>)
    ensures
        out@ == wcc_failure_reply_spec(xid, s),
{
    let mut out: Vec<u8> = Vec::new();
    push_accepted_reply(&mut out, xid, 0);
    push_u32(&mut out, s.code());
    push_wcc_data(&mut out, &None, &None);
    out
}

/// The reply to SETATTR on an object whose attributes before the change
/// were `before`. When the guard does not match the object's change time,
/// the server first writes a `NFS3ERR_NOT_SYNC` reply and then, as it
/// still goes on with the change, the reply for the change's outcome `r`.
pub open spec fn setattr_reply_spec(
    xid: u32,
    before: fattr3,
    guard: sattrguard3,
    r: Result<fattr3, nfsstat3>,
) -> Seq<u8> {
    let guard_ok = match guard {
        sattrguard3::Void => true,
        sattrguard3::obj_ctime(c) => c.seconds == before.ctime.seconds && c.nseconds
            == before.ctime.nseconds,
    };
    let rejected = if guard_ok {
        Seq::empty()
    } else {
        wcc_failure_reply_spec(xid, nfsstat3::NFS3ERR_NOT_SYNC)
    };
    rejected + match r {
        Ok(after) => success_reply(xid) + be32(0) + wcc_data_bytes(
            Some(wcc_attr_spec(before)),
            Some(after),
        ),
        Err(s) => wcc_failure_reply_spec(xid, s),
    }
}

/// Builds the reply to SETATTR from the object's attributes before the
/// change, the request's guard and the outcome of the change.
pub fn setattr_reply(xid: u32, before: &fattr3, guard: sattrguard3, r: &Result<fattr3, nfsstat3>) -> (out:
    Vec<u8>)
    ensures
        out@ == setattr_reply_spec(xid, *before, guard, *r),
{
    let mut out: Vec<u8> = Vec::new();
    if !guard_passes(guard, before.ctime) {
        push_accepted_reply(&mut out, xid, 0);
        push_u32(&mut out, nfsstat3::NFS3ERR_NOT_SYNC.code());
        push_wcc_data(&mut out, &None, &None);
    }
    let ghost head = out@;
    push_accepted_reply(&mut out, xid, 0);
    match r {
        Ok(after) => {
            push_u32(&mut out, 0);
            let pre = Some(wcc_attr_of(before));
            let post = Some(*after);
            push_wcc_data(&mut out, &pre, &post);
        },
        Err(s) => {
            push_u32(&mut out, s.code());
            push_wcc_data(&mut out, &None, &None);
        },
    }
    assert(out@ =~= setattr_reply_spec(xid, *before, guard, *r));
    out
}

/// The reply to SYMLINK: on success the new link's handle and attributes,
/// then the directory's weak cache consistency data; on failure the status
/// and that data.
pub open spec fn symlink_reply_spec(
    xid: u32,
    r: Result<(Seq<u8>, fattr3), nfsstat3>,
    dir_before: Option<wcc_attr>,
    dir_after: Option<fattr3>,
) -> Seq<u8> {
    match r {
        Ok((fh, attrs)) => success_reply(xid) + be32(0) + be32(1) + opaque(fh) + be32(1)
            + fattr3_bytes(attrs) + wcc_data_bytes(dir_before, dir_after),
        Err(s) => success_reply(xid) + be32(nfsstat3_code_spec(s)) + wcc_data_bytes(
            dir_before,
            dir_after,
        ),
    }
}

/// Builds the reply to SYMLINK from the outcome (the link's handle and
/// attributes) and the directory's attributes before and after.
pub fn symlink_reply(
    xid: u32,
    r: &Result<(Vec<u8>, fattr3), nfsstat3>,
    dir_before: &Option<wcc_attr>,
    dir_after: &Option<fattr3>,
) -> (out: Vec<u8>)
    requires
        r matches Ok((fh, _)) ==> fh@.len() <= u32::MAX,
    ensures
        out@ == symlink_reply_spec(
            xid,
            match r {
                Ok((fh, a)) => Ok((fh@, *a)),
                Err(s) => Err(*s),
            },
            *dir_before,
            *dir_after,
        ),
{
    let mut out: Vec<u8> = Vec::new();
    push_accepted_reply(&mut out, xid, 0);
    match r {
        Ok((fh, attrs)) => {
            push_u32(&mut out, 0);
            push_u32(&mut out, 1);
            push_opaque(&mut out, fh.as_slice());
            push_u32(&mut out, 1);
            push_fattr3(&mut out, attrs);
        },
        Err(s) => {
            push_u32(&mut out, s.code());
        },
    }
    push_wcc_data(&mut out, dir_before, dir_after);
    out
}

} // verus!
