//! What the client's calls and reply decoders do on the wire, stated as
//! relations: every call is a whole number of XDR words with its strings
//! sent as XDR opaque fields, and each decoder reads back the words that a
//! reply lays out after the fixed-length attributes.

use vstd::prelude::*;
use crate::rpc::{call_header, fattr3_at, fattr3_wire_len, handle_bytes, NFS_PROGRAM, NFS_VERSION};
use crate::rpc::access::{access_call, access_reply_result, AccessReply, NFS_PROC_ACCESS};
use crate::rpc::auth::{auth_unix_bytes, default_auth_bytes};
use crate::rpc::getattr::getattr_call;
use crate::rpc::lookup::{lookup_call, lookup_reply_matches, LookupReply, NFS_PROC_LOOKUP};
use crate::kernel::mount_handlers::{mnt_noent_reply, mnt_ok_reply};
use crate::rpc::mount::{
    drive_suffix, mount_call, mount_reply_in_bounds, short_auth_bytes, MOUNT_PROC_MNT,
    MOUNT_PROGRAM, MOUNT_VERSION,
};
use crate::rpc::null::null_call;
use crate::rpc::read::{read_call, read_reply_matches, ReadReply};
use crate::rpc::readdirplus::{entry_step, readdirplus_call, EntryModel, EntryStep};
use crate::rpc::ReplyError;
use crate::xdr::{be32, be32_seq, be64, lemma_u32_at_concat, opaque, pad_len, u32_at, u64_at, zeros};

verus! {

proof fn lemma_be32_seq_len(s: Seq<u32>)
    ensures
        be32_seq(s).len() == 4 * s.len(),
    decreases s.len(),
{
    if s.len() > 0 {
        lemma_be32_seq_len(s.drop_last());
    }
}

/// An XDR opaque field is a whole number of words.
pub proof fn lemma_opaque_whole_words(data: Seq<u8>)
    ensures
        opaque(data).len() % 4 == 0,
        opaque(data).len() == 4 + data.len() + pad_len(data.len()),
        pad_len(data.len()) < 4,
{
    let n = data.len();
    let k = n % 4;
    assert(0 <= k < 4);
    assert(pad_len(n) == if k == 0 { 0 } else { 4 - k });
    assert((n + pad_len(n)) % 4 == 0) by (nonlinear_arith)
        requires
            k == n % 4,
            pad_len(n) == if k == 0 { 0 } else { 4 - k },
    ;
    assert(opaque(data).len() == 4 + n + pad_len(n));
}

/// An AUTH_UNIX credential with its verifier is a whole number of words.
pub proof fn lemma_auth_whole_words(stamp: u32, uid: u32, gid: u32, aux_gids: Seq<u32>)
    ensures
        auth_unix_bytes(stamp, uid, gid, aux_gids).len() == 36 + 4 * aux_gids.len(),
{
    lemma_be32_seq_len(aux_gids);
}

proof fn lemma_u64_at_concat(pre: Seq<u8>, x: u64, post: Seq<u8>)
    ensures
        u64_at(pre + be64(x) + post, pre.len() as int) == x,
{
    let hi = (x / 0x1_0000_0000) as u32;
    let lo = (x % 0x1_0000_0000) as u32;
    let s = pre + be64(x) + post;
    assert(s =~= pre + be32(hi) + (be32(lo) + post));
    lemma_u32_at_concat(pre, hi, be32(lo) + post);
    assert(s =~= (pre + be32(hi)) + be32(lo) + post);
    lemma_u32_at_concat(pre + be32(hi), lo, post);
    assert(hi * 0x1_0000_0000 + lo == x) by (nonlinear_arith)
        requires
            hi == x / 0x1_0000_0000,
            lo == x % 0x1_0000_0000,
    ;
}

/// The words of a call header read back: the transaction id, CALL (0), RPC
/// version 2, the program, its version and the procedure.
proof fn lemma_call_header_reads(xid: u32, prog: u32, vers: u32, procedure: u32, post: Seq<u8>)
    ensures
        ({
            let s = call_header(xid, prog, vers, procedure) + post;
            &&& u32_at(s, 0) == xid
            &&& u32_at(s, 4) == 0
            &&& u32_at(s, 8) == 2
            &&& u32_at(s, 12) == prog
            &&& u32_at(s, 16) == vers
            &&& u32_at(s, 20) == procedure
        }),
{
    let s = call_header(xid, prog, vers, procedure) + post;
    let (a, b, c, d, f, g) = (be32(xid), be32(0), be32(2), be32(prog), be32(vers), be32(procedure));
    assert(s =~= Seq::<u8>::empty() + a + (b + c + d + f + g + post));
    lemma_u32_at_concat(Seq::<u8>::empty(), xid, b + c + d + f + g + post);
    assert(s =~= a + b + (c + d + f + g + post));
    lemma_u32_at_concat(a, 0, c + d + f + g + post);
    assert(s =~= (a + b) + c + (d + f + g + post));
    lemma_u32_at_concat(a + b, 2, d + f + g + post);
    assert(s =~= (a + b + c) + d + (f + g + post));
    lemma_u32_at_concat(a + b + c, prog, f + g + post);
    assert(s =~= (a + b + c + d) + f + (g + post));
    lemma_u32_at_concat(a + b + c + d, vers, g + post);
    assert(s =~= (a + b + c + d + f) + g + post);
    lemma_u32_at_concat(a + b + c + d + f, procedure, post);
}

/// The LOOKUP call is the call header, the credential, the directory's
/// handle, and the name as an XDR opaque field; like every call the client
/// builds, it is a whole number of words.
pub proof fn lemma_lookup_call_words(xid: u32, fh: Seq<u8>, name: Seq<u8>)
    requires
        fh.len() == 16,
    ensures
        lookup_call(xid, fh, name) == call_header(xid, NFS_PROGRAM, NFS_VERSION, NFS_PROC_LOOKUP)
            + default_auth_bytes() + handle_bytes(fh) + opaque(name),
        lookup_call(xid, fh, name).len() % 4 == 0,
        lookup_call(xid, fh, name).len() == 24 + default_auth_bytes().len() + 20 + opaque(
            name,
        ).len(),
{
    lemma_auth_whole_words(0, 0, 0, seq![]);
    reveal_with_fuel(be32_seq, 1);
    lemma_auth_whole_words(
        0,
        crate::rpc::auth::DEFAULT_UID,
        crate::rpc::auth::DEFAULT_GID,
        crate::rpc::auth::default_aux_gids_spec(),
    );
    lemma_opaque_whole_words(name);
    let a = call_header(xid, NFS_PROGRAM, NFS_VERSION, NFS_PROC_LOOKUP) + default_auth_bytes()
        + handle_bytes(fh);
    assert(lookup_call(xid, fh, name) =~= a + opaque(name));
}

/// The MNT call is the call header, the short credential, and the path
/// (the user's name followed by `'s drive`) as an XDR opaque field; it is a
/// whole number of words.
pub proof fn lemma_mount_call_words(xid: u32, name: Seq<u8>)
    ensures
        mount_call(xid, name) == call_header(xid, MOUNT_PROGRAM, MOUNT_VERSION, MOUNT_PROC_MNT)
            + short_auth_bytes(0, 0, 0) + opaque(name + drive_suffix()),
        mount_call(xid, name).len() % 4 == 0,
{
    let path = name + drive_suffix();
    lemma_opaque_whole_words(path);
    let a = call_header(xid, MOUNT_PROGRAM, MOUNT_VERSION, MOUNT_PROC_MNT) + short_auth_bytes(
        0,
        0,
        0,
    );
    assert(mount_call(xid, name) =~= a + opaque(path));
}

/// The fixed-shape calls (NULL, GETATTR, ACCESS, READ, READDIRPLUS) are
/// whole numbers of words.
pub proof fn lemma_fixed_calls_words(
    xid: u32,
    fh: Seq<u8>,
    check: u32,
    offset: u64,
    count: u32,
    cookie: u64,
    verf: u64,
    dircount: u32,
    maxcount: u32,
)
    requires
        fh.len() == 16,
    ensures
        null_call(xid).len() % 4 == 0,
        getattr_call(xid, fh).len() % 4 == 0,
        access_call(xid, fh, check).len() % 4 == 0,
        read_call(xid, fh, offset, count).len() % 4 == 0,
        readdirplus_call(xid, fh, cookie, verf, dircount, maxcount).len() % 4 == 0,
{
    lemma_auth_whole_words(
        0,
        crate::rpc::auth::DEFAULT_UID,
        crate::rpc::auth::DEFAULT_GID,
        crate::rpc::auth::default_aux_gids_spec(),
    );
}

proof fn lemma_default_auth_len()
    ensures
        default_auth_bytes().len() == 100,
{
    lemma_auth_whole_words(
        0,
        crate::rpc::auth::DEFAULT_UID,
        crate::rpc::auth::DEFAULT_GID,
        crate::rpc::auth::default_aux_gids_spec(),
    );
}

/// Words read inside a prefix are the prefix's.
proof fn lemma_prefix_reads(p: Seq<u8>, t: Seq<u8>, i: int)
    requires
        0 <= i,
        i + 4 <= p.len(),
    ensures
        u32_at(p + t, i) == u32_at(p, i),
{
    assert((p + t)[i] == p[i] && (p + t)[i + 1] == p[i + 1]);
    assert((p + t)[i + 2] == p[i + 2] && (p + t)[i + 3] == p[i + 3]);
}

/// Whatever follows a prefix, the words and bytes read inside it are the
/// prefix's.
proof fn lemma_lift(p: Seq<u8>, t: Seq<u8>)
    ensures
        forall|i: int| 0 <= i && i + 4 <= p.len() ==> #[trigger] u32_at(p + t, i) == u32_at(p, i),
        forall|i: int| 0 <= i && i + 8 <= p.len() ==> #[trigger] u64_at(p + t, i) == u64_at(p, i),
        forall|a: int, b: int|
            0 <= a <= b <= p.len() ==> #[trigger] (p + t).subrange(a, b) == p.subrange(a, b),
{
    assert forall|i: int| 0 <= i && i + 4 <= p.len() implies #[trigger] u32_at(p + t, i)
        == u32_at(p, i) by {
        lemma_prefix_reads(p, t, i);
    }
    assert forall|i: int| 0 <= i && i + 8 <= p.len() implies #[trigger] u64_at(p + t, i)
        == u64_at(p, i) by {
        lemma_prefix_reads(p, t, i);
        lemma_prefix_reads(p, t, i + 4);
    }
    assert forall|a: int, b: int| 0 <= a <= b <= p.len() implies #[trigger] (p + t).subrange(a, b)
        == p.subrange(a, b) by {
        assert((p + t).subrange(a, b) =~= p.subrange(a, b));
    }
}

/// The opening of a call on a file: the header, a 100-byte credential and
/// the handle as a 16-byte opaque field.
proof fn lemma_handle_prefix(xid: u32, procedure: u32, a: Seq<u8>, fh: Seq<u8>)
    requires
        a.len() == 100,
        fh.len() == 16,
    ensures
        ({
            let p = call_header(xid, NFS_PROGRAM, NFS_VERSION, procedure) + a + handle_bytes(fh);
            &&& p.len() == 144
            &&& u32_at(p, 0) == xid && u32_at(p, 12) == 100003 && u32_at(p, 16) == 3
            &&& u32_at(p, 20) == procedure
            &&& u32_at(p, 124) == 16
            &&& p.subrange(128, 144) == fh
        }),
{
    let hd = call_header(xid, NFS_PROGRAM, NFS_VERSION, procedure);
    let h = hd + a;
    let p = h + handle_bytes(fh);
    assert(hd.len() == 24);
    lemma_call_header_reads(xid, NFS_PROGRAM, NFS_VERSION, procedure, Seq::<u8>::empty());
    assert(hd + Seq::<u8>::empty() =~= hd);
    lemma_lift(hd, a);
    lemma_lift(h, handle_bytes(fh));
    assert(p =~= h + be32(16) + fh);
    lemma_u32_at_concat(h, 16, fh);
    assert(p.subrange(128, 144) =~= fh);
}

/// A 64-bit word appended after `p` reads back at `p`'s end.
proof fn lemma_u64_after(p: Seq<u8>, x: u64)
    ensures
        u64_at(p + be64(x), p.len() as int) == x,
{
    lemma_u64_at_concat(p, x, Seq::<u8>::empty());
    assert(p + be64(x) + Seq::<u8>::empty() =~= p + be64(x));
}

/// A word appended after `p` reads back at `p`'s end.
proof fn lemma_u32_after(p: Seq<u8>, x: u32)
    ensures
        u32_at(p + be32(x), p.len() as int) == x,
{
    lemma_u32_at_concat(p, x, Seq::<u8>::empty());
    assert(p + be32(x) + Seq::<u8>::empty() =~= p + be32(x));
}

/// A GETATTR call reads back: NFS (program 100003) version 3, procedure
/// GETATTR (1), and the handle as a 16-byte opaque field after the 100
/// bytes of the default credential; nothing follows.
pub proof fn lemma_getattr_call_reads(xid: u32, fh: Seq<u8>)
    requires
        fh.len() == 16,
    ensures
        ({
            let s = getattr_call(xid, fh);
            &&& u32_at(s, 0) == xid && u32_at(s, 12) == 100003 && u32_at(s, 16) == 3
            &&& u32_at(s, 20) == 1
            &&& u32_at(s, 124) == 16 && s.subrange(128, 144) == fh
            &&& s.len() == 144
        }),
{
    lemma_default_auth_len();
    lemma_handle_prefix(xid, 1, default_auth_bytes(), fh);
}

/// An ACCESS call reads back: procedure ACCESS (4), the handle, and then
/// the access bits asked for as the last word.
pub proof fn lemma_access_call_reads(xid: u32, fh: Seq<u8>, check: u32)
    requires
        fh.len() == 16,
    ensures
        ({
            let s = access_call(xid, fh, check);
            &&& u32_at(s, 0) == xid && u32_at(s, 12) == 100003 && u32_at(s, 16) == 3
            &&& u32_at(s, 20) == 4
            &&& u32_at(s, 124) == 16 && s.subrange(128, 144) == fh
            &&& u32_at(s, 144) == check
            &&& s.len() == 148
        }),
{
    lemma_default_auth_len();
    let p = call_header(xid, NFS_PROGRAM, NFS_VERSION, NFS_PROC_ACCESS) + default_auth_bytes()
        + handle_bytes(fh);
    lemma_handle_prefix(xid, NFS_PROC_ACCESS, default_auth_bytes(), fh);
    lemma_lift(p, be32(check));
    lemma_u32_after(p, check);
}

/// A READ call reads back: procedure READ (6), the handle, then the offset
/// as a 64-bit word and the count as the last word.
pub proof fn lemma_read_call_reads(xid: u32, fh: Seq<u8>, offset: u64, count: u32)
    requires
        fh.len() == 16,
    ensures
        ({
            let s = read_call(xid, fh, offset, count);
            &&& u32_at(s, 0) == xid && u32_at(s, 12) == 100003 && u32_at(s, 16) == 3
            &&& u32_at(s, 20) == 6
            &&& u32_at(s, 124) == 16 && s.subrange(128, 144) == fh
            &&& u64_at(s, 144) == offset
            &&& u32_at(s, 152) == count
            &&& s.len() == 156
        }),
{
    lemma_default_auth_len();
    let pn = crate::rpc::read::NFS_PROC_READ;
    let p = call_header(xid, NFS_PROGRAM, NFS_VERSION, pn) + default_auth_bytes() + handle_bytes(
        fh,
    );
    let q = p + be64(offset);
    lemma_handle_prefix(xid, pn, default_auth_bytes(), fh);
    lemma_lift(p, be64(offset));
    lemma_lift(q, be32(count));
    lemma_u64_after(p, offset);
    lemma_u32_after(q, count);
}

/// A READDIRPLUS call reads back: procedure READDIRPLUS (17), the handle,
/// then the cookie and the cookie verifier as 64-bit words, the directory
/// count and the maximum count.
#[verifier::spinoff_prover]
#[verifier::rlimit(40)]
pub proof fn lemma_readdirplus_call_reads(
    xid: u32,
    fh: Seq<u8>,
    cookie: u64,
    verf: u64,
    dircount: u32,
    maxcount: u32,
)
    requires
        fh.len() == 16,
    ensures
        ({
            let s = readdirplus_call(xid, fh, cookie, verf, dircount, maxcount);
            &&& u32_at(s, 0) == xid && u32_at(s, 12) == 100003 && u32_at(s, 16) == 3
            &&& u32_at(s, 20) == 17
            &&& u32_at(s, 124) == 16 && s.subrange(128, 144) == fh
            &&& u64_at(s, 144) == cookie
            &&& u64_at(s, 152) == verf
            &&& u32_at(s, 160) == dircount
            &&& u32_at(s, 164) == maxcount
            &&& s.len() == 168
        }),
{
    lemma_default_auth_len();
    let pn = crate::rpc::readdirplus::NFS_PROC_READDIRPLUS;
    let p = call_header(xid, NFS_PROGRAM, NFS_VERSION, pn) + default_auth_bytes() + handle_bytes(
        fh,
    );
    let q1 = p + be64(cookie);
    let q2 = q1 + be64(verf);
    let q3 = q2 + be32(dircount);
    lemma_handle_prefix(xid, pn, default_auth_bytes(), fh);
    lemma_lift(p, be64(cookie));
    lemma_lift(q1, be64(verf));
    lemma_lift(q2, be32(dircount));
    lemma_lift(q3, be32(maxcount));
    lemma_u64_after(p, cookie);
    lemma_u64_after(q1, verf);
    lemma_u32_after(q2, dircount);
    lemma_u32_after(q3, maxcount);
}

/// A LOOKUP call reads back: procedure LOOKUP (3), the directory's handle,
/// then the name's length and its bytes.
pub proof fn lemma_lookup_call_reads(xid: u32, fh: Seq<u8>, name: Seq<u8>)
    requires
        fh.len() == 16,
        name.len() <= u32::MAX,
    ensures
        ({
            let s = lookup_call(xid, fh, name);
            &&& u32_at(s, 0) == xid && u32_at(s, 12) == 100003 && u32_at(s, 16) == 3 && u32_at(
                s,
                20,
            ) == 3
            &&& u32_at(s, 124) == 16 && s.subrange(128, 144) == fh
            &&& u32_at(s, 144) == name.len()
            &&& s.subrange(148, 148 + name.len() as int) == name
        }),
{
    lemma_default_auth_len();
    let p = call_header(xid, NFS_PROGRAM, NFS_VERSION, NFS_PROC_LOOKUP) + default_auth_bytes()
        + handle_bytes(fh);
    let q = p + be32(name.len() as u32);
    let s = lookup_call(xid, fh, name);
    lemma_handle_prefix(xid, NFS_PROC_LOOKUP, default_auth_bytes(), fh);
    lemma_lift(p, be32(name.len() as u32));
    lemma_lift(q, name);
    lemma_lift(q + name, zeros(pad_len(name.len())));
    lemma_u32_after(p, name.len() as u32);
    assert((q + name).subrange(148, 148 + name.len() as int) =~= name);
}

/// The MNT call reads back: MOUNT (program 100005) version 3, procedure
/// MNT (1), and after the 40 bytes of the short credential the path, the
/// user's name followed by `'s drive`, as its length and its bytes.
pub proof fn lemma_mount_call_reads(xid: u32, name: Seq<u8>)
    requires
        name.len() + 8 <= u32::MAX,
    ensures
        ({
            let s = mount_call(xid, name);
            let path = name + drive_suffix();
            &&& u32_at(s, 0) == xid && u32_at(s, 12) == 100005 && u32_at(s, 16) == 3 && u32_at(
                s,
                20,
            ) == 1
            &&& u32_at(s, 64) == path.len()
            &&& s.subrange(68, 68 + path.len() as int) == path
        }),
{
    let path = name + drive_suffix();
    let hd = call_header(xid, MOUNT_PROGRAM, MOUNT_VERSION, MOUNT_PROC_MNT);
    let h = hd + short_auth_bytes(0, 0, 0);
    let q = h + be32(path.len() as u32);
    assert(hd.len() == 24);
    assert(h.len() == 64);
    lemma_call_header_reads(xid, MOUNT_PROGRAM, MOUNT_VERSION, MOUNT_PROC_MNT, Seq::<u8>::empty());
    assert(hd + Seq::<u8>::empty() =~= hd);
    lemma_lift(hd, short_auth_bytes(0, 0, 0));
    lemma_lift(h, be32(path.len() as u32));
    lemma_lift(q, path);
    lemma_lift(q + path, zeros(pad_len(path.len())));
    lemma_u32_after(h, path.len() as u32);
    assert((q + path).subrange(68, 68 + path.len() as int) =~= path);
}

/// The NULL call reads back: NFS (program 100003) version 3, procedure 0.
pub proof fn lemma_null_call_reads(xid: u32)
    ensures
        ({
            let s = null_call(xid);
            u32_at(s, 0) == xid && u32_at(s, 12) == 100003 && u32_at(s, 16) == 3 && u32_at(s, 20)
                == 0
        }),
{
    lemma_call_header_reads(xid, NFS_PROGRAM, NFS_VERSION, 0, short_auth_bytes(0, 0, 0));
}

/// A successful ACCESS reply that carries attributes decodes them from the
/// fixed-length attribute field after the flag word, and its granted access
/// is the word that follows that field.
pub proof fn lemma_access_after_attributes(
    head: Seq<u8>,
    attrs: Seq<u8>,
    access: u32,
    rest: Seq<u8>,
)
    requires
        head.len() == 24,
        attrs.len() == fattr3_wire_len(),
    ensures
        ({
            let s = head + be32(0) + be32(1) + attrs + be32(access) + rest;
            access_reply_result(s) == Ok::<AccessReply, ReplyError>(
                AccessReply { status: 0, attributes: Some(fattr3_at(s, 32)), access },
            )
        }),
{
    let q1 = head + be32(0);
    let q2 = q1 + be32(1);
    let q3 = q2 + attrs;
    let q4 = q3 + be32(access);
    lemma_lift(q1, be32(1));
    lemma_lift(q2, attrs);
    lemma_lift(q3, be32(access));
    lemma_lift(q4, rest);
    lemma_u32_after(head, 0);
    lemma_u32_after(q1, 1);
    lemma_u32_after(q3, access);
}

/// A successful ACCESS reply without attributes has its granted access in
/// the word right after the flag word.
pub proof fn lemma_access_without_attributes(head: Seq<u8>, flag: u32, access: u32, rest: Seq<u8>)
    requires
        head.len() == 24,
        flag != 1,
    ensures
        access_reply_result(head + be32(0) + be32(flag) + be32(access) + rest) == Ok::<
            AccessReply,
            ReplyError,
        >(AccessReply { status: 0, attributes: None, access }),
{
    let q1 = head + be32(0);
    let q2 = q1 + be32(flag);
    let q3 = q2 + be32(access);
    lemma_lift(q1, be32(flag));
    lemma_lift(q2, be32(access));
    lemma_lift(q3, rest);
    lemma_u32_after(head, 0);
    lemma_u32_after(q1, flag);
    lemma_u32_after(q2, access);
}

/// A successful LOOKUP reply holds, after its status, the handle as a
/// 16-byte opaque field and then the object's and the directory's
/// attributes, one fixed-length field after the other: the decoder gives
/// back that handle and decodes the attributes from those two fields.
#[verifier::rlimit(40)]
pub proof fn lemma_lookup_reply_layout(
    head: Seq<u8>,
    handle: Seq<u8>,
    obj: Seq<u8>,
    dir: Seq<u8>,
    rest: Seq<u8>,
    r: Result<LookupReply, ReplyError>,
)
    requires
        head.len() == 24,
        handle.len() == 16,
        obj.len() == fattr3_wire_len(),
        dir.len() == fattr3_wire_len(),
        lookup_reply_matches(head + be32(0) + opaque(handle) + obj + dir + rest, r),
    ensures
        ({
            let s = head + be32(0) + opaque(handle) + obj + dir + rest;
            &&& r matches Ok(v)
            &&& v.status == 0
            &&& v.file_handle matches Some(h) && h@ == handle
            &&& v.attributes == Some(fattr3_at(s, 28 + opaque(handle).len() as int))
            &&& v.dir_attributes == Some(
                fattr3_at(s, 28 + opaque(handle).len() as int + fattr3_wire_len()),
            )
        }),
{
    let q1 = head + be32(0);
    let q2 = q1 + opaque(handle);
    let q3 = q2 + obj;
    let q4 = q3 + dir;
    assert(pad_len(16) == 0);
    assert(zeros(0) =~= Seq::<u8>::empty());
    assert(opaque(handle) =~= be32(16) + handle);
    lemma_lift(q1, opaque(handle));
    lemma_lift(q2, obj);
    lemma_lift(q3, dir);
    lemma_lift(q4, rest);
    lemma_u32_after(head, 0);
    assert(q2 =~= q1 + be32(16) + handle);
    assert(q2.subrange(32, 48) =~= handle);
}

/// A successful READ reply lays out, after the attributes (when its flag
/// is 1), the count, the end-of-file word and the data as an opaque field:
/// the decoder gives back that count, end of file exactly when the word is
/// 1, and the data.
#[verifier::rlimit(40)]
pub proof fn lemma_read_reply_layout(
    head: Seq<u8>,
    attrs: Seq<u8>,
    count: u32,
    eof: u32,
    data: Seq<u8>,
    rest: Seq<u8>,
    r: Result<ReadReply, ReplyError>,
)
    requires
        head.len() == 24,
        attrs.len() == fattr3_wire_len(),
        data.len() <= u32::MAX,
        read_reply_matches(
            head + be32(0) + be32(1) + attrs + be32(count) + be32(eof) + opaque(data) + rest,
            r,
        ),
    ensures
        ({
            let s = head + be32(0) + be32(1) + attrs + be32(count) + be32(eof) + opaque(data)
                + rest;
            &&& r matches Ok(v)
            &&& v.status == 0
            &&& v.attributes == Some(fattr3_at(s, 32))
            &&& v.count == count
            &&& v.eof == (eof == 1)
            &&& v.data@ == data
        }),
{
    let q1 = head + be32(0);
    let q2 = q1 + be32(1);
    let q3 = q2 + attrs;
    let q4 = q3 + be32(count);
    let q5 = q4 + be32(eof);
    let q6 = q5 + opaque(data);
    lemma_lift(q1, be32(1));
    lemma_lift(q2, attrs);
    lemma_lift(q3, be32(count));
    lemma_lift(q4, be32(eof));
    lemma_lift(q5, opaque(data));
    lemma_lift(q6, rest);
    lemma_u32_after(head, 0);
    lemma_u32_after(q1, 1);
    lemma_u32_after(q3, count);
    lemma_u32_after(q4, eof);
    let w = be32(data.len() as u32);
    let z = zeros(pad_len(data.len()));
    assert(q6 =~= q5 + w + data + z);
    lemma_lift(q5 + w, data + z);
    lemma_lift(q5 + w + data, z);
    lemma_u32_after(q5, data.len() as u32);
    assert((q5 + w + data).subrange(128, 128 + data.len() as int) =~= data);
}

/// The server's MNT replies are what the client's decoder reads: a
/// successful one has status 0 at byte 24 and the mounted directory's
/// handle at bytes 32..48, after its length word 16; the one for an unknown
/// directory has status MNT3ERR_NOENT (2).
pub proof fn lemma_mnt_replies_decode(xid: u32, fh: Seq<u8>)
    requires
        fh.len() == 16,
    ensures
        ({
            let s = mnt_ok_reply(xid, fh);
            &&& mount_reply_in_bounds(s)
            &&& s.len() >= 48
            &&& u32_at(s, 24) == 0
            &&& u32_at(s, 28) == 16
            &&& s.subrange(32, 48) == fh
        }),
        mnt_noent_reply(xid).len() >= 28,
        u32_at(mnt_noent_reply(xid), 24) == 2,
{
    let h = crate::kernel::reply::success_reply(xid);
    assert(h.len() == 24);
    assert(pad_len(16) == 0);
    assert(zeros(0) =~= Seq::<u8>::empty());
    let q1 = h + be32(0);
    let q2 = q1 + be32(16);
    let q3 = q2 + fh;
    let s = mnt_ok_reply(xid, fh);
    assert(s =~= q3 + (be32(2) + be32(0) + be32(1)));
    lemma_lift(q1, be32(16));
    lemma_lift(q2, fh);
    lemma_lift(q3, be32(2) + be32(0) + be32(1));
    lemma_u32_after(h, 0);
    lemma_u32_after(q1, 16);
    assert(q3.subrange(32, 48) =~= fh);
    lemma_u32_after(h, 2);
}

/// One entry of a READDIRPLUS listing decodes as the protocol lays it out:
/// at `o` a presence word 1, the 64-bit file id, the name as an XDR opaque
/// field (its length, its bytes, padding to a word boundary), the 64-bit
/// cookie, the attribute flag 1 and the fixed-length attributes, then the
/// handle flag 1 and the handle as a 16-byte opaque field; the entry
/// decodes to that file id, name, cookie, those attributes and that handle,
/// and the next entry starts right after the handle.
pub proof fn lemma_entry_layout(
    s: Seq<u8>,
    o: int,
    fileid: u64,
    name: Seq<u8>,
    cookie: u64,
    handle: Seq<u8>,
)
    requires
        0 <= o,
        ({
            let nl = name.len() as int;
            let o4 = o + 16 + nl + pad_len(name.len());
            let o7 = o4 + 12 + fattr3_wire_len();
            &&& o7 + 24 <= s.len()
            &&& u32_at(s, o) == 1
            &&& u64_at(s, o + 4) == fileid
            &&& u32_at(s, o + 12) == nl
            &&& s.subrange(o + 16, o + 16 + nl) == name
            &&& vstd::utf8::valid_utf8(name)
            &&& u64_at(s, o4) == cookie
            &&& u32_at(s, o4 + 8) == 1
            &&& u32_at(s, o7) == 1
            &&& s.subrange(o7 + 8, o7 + 24) == handle
        }),
    ensures
        ({
            let nl = name.len() as int;
            let o4 = o + 16 + nl + pad_len(name.len());
            let o7 = o4 + 12 + fattr3_wire_len();
            entry_step(s, o) == EntryStep::Entry(
                EntryModel {
                    fileid,
                    name: vstd::utf8::decode_utf8(name),
                    cookie,
                    name_attributes: Some(fattr3_at(s, o4 + 12)),
                    name_handle: Some(handle),
                },
                o7 + 24,
            )
        }),
{
    reveal(entry_step);
}

} // verus!
