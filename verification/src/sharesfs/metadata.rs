//! A node's metadata as the store keeps it, and the attributes NFS
//! reports for it.

use vstd::prelude::*;
use crate::decimal::{decimal, decimal_spec, parse_u32, parse_u64, parse_u8, parse_unsigned_spec};
use crate::kernel::nfs::{
    fattr3, ftype3, nfsstat3, nfstime3, sattr3, set_atime, set_mode3, set_mtime, set_size3, specdata3,
};
use crate::text::str_eq;

verus! {

/// The metadata of one node.
#[derive(Debug, Clone, Copy, PartialEq, Eq, Structural)]
pub struct FileMetadata {
    /// 0 for a directory, 1 for a regular file, 2 for a symbolic link.
    pub ftype: u8,
    pub size: u64,
    pub permissions: u32,
    pub access_time_secs: u32,
    pub access_time_nsecs: u32,
    pub change_time_secs: u32,
    pub change_time_nsecs: u32,
    pub modification_time_secs: u32,
    pub modification_time_nsecs: u32,
    pub fileid: u64,
}

/// The permission bits reported for a stored mode: the owner may always
/// write, and only the nine permission bits are kept.
pub open spec fn mode_unmask_spec(mode: u32) -> u32 {
    (mode | 0x80u32) & 0x1FFu32
}

/// The file type numbered `t` in the store.
pub open spec fn ftype_of_spec(t: u8) -> Option<ftype3> {
    if t == 0 {
        Some(ftype3::NF3DIR)
    } else if t == 1 {
        Some(ftype3::NF3REG)
    } else if t == 2 {
        Some(ftype3::NF3LNK)
    } else {
        None
    }
}

/// The attributes reported for node `fid` with metadata `m` of type `t`.
pub open spec fn fattr3_spec(fid: u64, m: FileMetadata, t: ftype3) -> fattr3 {
    fattr3 {
        ftype: t,
        mode: mode_unmask_spec(m.permissions),
        nlink: 1,
        uid: 0,
        gid: 0,
        size: m.size,
        used: m.size,
        rdev: specdata3 { specdata1: 0, specdata2: 0 },
        fsid: 0,
        fileid: fid,
        atime: nfstime3 { seconds: m.access_time_secs, nseconds: m.access_time_nsecs },
        mtime: nfstime3 { seconds: m.modification_time_secs, nseconds: m.modification_time_nsecs },
        ctime: nfstime3 { seconds: m.change_time_secs, nseconds: m.change_time_nsecs },
    }
}

impl FileMetadata {
    /// Metadata with the given fields.
    pub fn new(
        ftype: u8,
        permissions: u32,
        size: u64,
        access_time_secs: u32,
        access_time_nsecs: u32,
        change_time_secs: u32,
        change_time_nsecs: u32,
        modification_time_secs: u32,
        modification_time_nsecs: u32,
        fileid: u64,
    ) -> (m: FileMetadata)
        ensures
            m == (FileMetadata {
                ftype,
                size,
                permissions,
                access_time_secs,
                access_time_nsecs,
                change_time_secs,
                change_time_nsecs,
                modification_time_secs,
                modification_time_nsecs,
                fileid,
            }),
    {
        FileMetadata {
            ftype,
            permissions,
            size,
            access_time_secs,
            access_time_nsecs,
            change_time_secs,
            change_time_nsecs,
            modification_time_secs,
            modification_time_nsecs,
            fileid,
        }
    }

    /// The permission bits reported for a stored mode.
    pub fn mode_unmask(mode: u32) -> (r: u32)
        ensures
            r == mode_unmask_spec(mode),
    {
        (mode | 0x80) & 0x1FF
    }

    /// The NFS attributes of node `fid`; `NFS3ERR_INVAL` when the stored
    /// type is none of directory, file and symbolic link.
    pub fn metadata_to_fattr3(fid: u64, metadata: &FileMetadata) -> (r: Result<fattr3, nfsstat3>)
        ensures
            ftype_of_spec(metadata.ftype) matches Some(t) ==> r == Ok::<fattr3, nfsstat3>(
                fattr3_spec(fid, *metadata, t),
            ),
            ftype_of_spec(metadata.ftype) is None ==> r == Err::<fattr3, nfsstat3>(
                nfsstat3::NFS3ERR_INVAL,
            ),
    {
        let ftype = match metadata.ftype {
            0 => ftype3::NF3DIR,
            1 => ftype3::NF3REG,
            2 => ftype3::NF3LNK,
            _ => return Err(nfsstat3::NFS3ERR_INVAL),
        };
        Ok(
            fattr3 {
                ftype,
                mode: Self::mode_unmask(metadata.permissions),
                nlink: 1,
                uid: 0,
                gid: 0,
                size: metadata.size,
                used: metadata.size,
                rdev: specdata3 { specdata1: 0, specdata2: 0 },
                fsid: 0,
                fileid: fid,
                atime: nfstime3 {
                    seconds: metadata.access_time_secs,
                    nseconds: metadata.access_time_nsecs,
                },
                mtime: nfstime3 {
                    seconds: metadata.modification_time_secs,
                    nseconds: metadata.modification_time_nsecs,
                },
                ctime: nfstime3 {
                    seconds: metadata.change_time_secs,
                    nseconds: metadata.change_time_nsecs,
                },
            },
        )
    }
}

/// The reported mode always lets the owner write and never sets a bit above
/// the nine permission bits.
pub proof fn lemma_mode_unmask_bits(mode: u32)
    ensures
        mode_unmask_spec(mode) & 0x80u32 == 0x80u32,
        mode_unmask_spec(mode) <= 0x1FFu32,
        mode_unmask_spec(mode_unmask_spec(mode)) == mode_unmask_spec(mode),
{
    assert(((mode | 0x80u32) & 0x1FFu32) & 0x80u32 == 0x80u32) by (bit_vector);
    assert(((mode | 0x80u32) & 0x1FFu32) <= 0x1FFu32) by (bit_vector);
    assert(((((mode | 0x80u32) & 0x1FFu32) | 0x80u32) & 0x1FFu32) == ((mode | 0x80u32) & 0x1FFu32))
        by (bit_vector);
}

/// The value stored for field `name` among `fields`: the last pair with that
/// name wins, as when the pairs are collected into a map.
pub open spec fn field_value(fields: Seq<(Seq<char>, Seq<char>)>, name: Seq<char>) -> Option<
    Seq<char>,
>
    decreases fields.len(),
{
    if fields.len() == 0 {
        None
    } else if fields.last().0 == name {
        Some(fields.last().1)
    } else {
        field_value(fields.drop_last(), name)
    }
}

/// A numeric field: its value when present and readable as a number no
/// larger than `max`, otherwise 0.
pub open spec fn numeric_field(fields: Seq<(Seq<char>, Seq<char>)>, name: Seq<char>, max: nat) -> nat {
    match field_value(fields, name) {
        Some(v) => match parse_unsigned_spec(v, max) {
            Some(n) => n,
            None => 0,
        },
        None => 0,
    }
}

/// The characters of each pair of strings.
pub open spec fn pair_views(v: Seq<(String, String)>) -> Seq<(Seq<char>, Seq<char>)> {
    v.map_values(|e: (String, String)| (e.0@, e.1@))
}

fn find_field(fields: &Vec<(String, String)>, name: &str) -> (r: Option<usize>)
    ensures
        r matches Some(i) ==> i < fields.len() && field_value(pair_views(fields@), name@) == Some(
            fields@[i as int].1@,
        ),
        r is None ==> field_value(pair_views(fields@), name@) is None,
{
    let mut i = fields.len();
    let ghost all = pair_views(fields@);
    assert(all.subrange(0, i as int) =~= all);
    while i > 0
        invariant
            i <= fields.len(),
            all == pair_views(fields@),
            field_value(all, name@) == field_value(all.subrange(0, i as int), name@),
        decreases i,
    {
        let ghost pre = all.subrange(0, i as int);
        assert(pre.last() == (fields@[i - 1].0@, fields@[i - 1].1@));
        if str_eq(fields[i - 1].0.as_str(), name) {
            return Some(i - 1);
        }
        assert(pre.drop_last() =~= all.subrange(0, i - 1));
        i -= 1;
    }
    None
}

fn u64_field(fields: &Vec<(String, String)>, name: &str) -> (n: u64)
    ensures
        n == numeric_field(pair_views(fields@), name@, u64::MAX as nat),
{
    match find_field(fields, name) {
        Some(i) => match parse_u64(fields[i].1.as_str()) {
            Some(v) => v,
            None => 0,
        },
        None => 0,
    }
}

fn u32_field(fields: &Vec<(String, String)>, name: &str) -> (n: u32)
    ensures
        n == numeric_field(pair_views(fields@), name@, u32::MAX as nat),
{
    match find_field(fields, name) {
        Some(i) => match parse_u32(fields[i].1.as_str()) {
            Some(v) => v,
            None => 0,
        },
        None => 0,
    }
}

fn u8_field(fields: &Vec<(String, String)>, name: &str) -> (n: u8)
    ensures
        n == numeric_field(pair_views(fields@), name@, u8::MAX as nat),
{
    match find_field(fields, name) {
        Some(i) => match parse_u8(fields[i].1.as_str()) {
            Some(v) => v,
            None => 0,
        },
        None => 0,
    }
}

/// The metadata that the stored fields `f` describe, each numeric field 0
/// when missing or unreadable.
pub open spec fn metadata_of_fields(f: Seq<(Seq<char>, Seq<char>)>) -> FileMetadata {
    FileMetadata {
        ftype: numeric_field(f, "ftype"@, u8::MAX as nat) as u8,
        permissions: numeric_field(f, "permissions"@, u32::MAX as nat) as u32,
        size: numeric_field(f, "size"@, u64::MAX as nat) as u64,
        access_time_secs: numeric_field(f, "access_time_secs"@, u32::MAX as nat) as u32,
        access_time_nsecs: numeric_field(f, "access_time_nsecs"@, u32::MAX as nat) as u32,
        modification_time_secs: numeric_field(f, "modification_time_secs"@, u32::MAX as nat) as u32,
        modification_time_nsecs: numeric_field(f, "modification_time_nsecs"@, u32::MAX as nat) as u32,
        change_time_secs: numeric_field(f, "change_time_secs"@, u32::MAX as nat) as u32,
        change_time_nsecs: numeric_field(f, "change_time_nsecs"@, u32::MAX as nat) as u32,
        fileid: numeric_field(f, "fileid"@, u64::MAX as nat) as u64,
    }
}

/// The metadata read from a node's stored fields; `NFS3ERR_NOENT` when the
/// node has no fields.
pub fn metadata_from_fields(fields: &Vec<(String, String)>) -> (r: Result<FileMetadata, nfsstat3>)
    ensures
        fields.len() == 0 ==> r == Err::<FileMetadata, nfsstat3>(nfsstat3::NFS3ERR_NOENT),
        fields.len() > 0 ==> r == Ok::<FileMetadata, nfsstat3>(
            metadata_of_fields(pair_views(fields@)),
        ),
{
    if fields.len() == 0 {
        return Err(nfsstat3::NFS3ERR_NOENT);
    }
    Ok(
        FileMetadata {
            ftype: u8_field(fields, "ftype"),
            permissions: u32_field(fields, "permissions"),
            size: u64_field(fields, "size"),
            access_time_secs: u32_field(fields, "access_time_secs"),
            access_time_nsecs: u32_field(fields, "access_time_nsecs"),
            modification_time_secs: u32_field(fields, "modification_time_secs"),
            modification_time_nsecs: u32_field(fields, "modification_time_nsecs"),
            change_time_secs: u32_field(fields, "change_time_secs"),
            change_time_nsecs: u32_field(fields, "change_time_nsecs"),
            fileid: u64_field(fields, "fileid"),
        },
    )
}

/// The permission bits stored when a client sets `mode`.
pub fn mode_unmask_setattr(mode: u32) -> (r: u32)
    ensures
        r == mode_unmask_spec(mode),
{
    (mode | 0x80) & 0x1FF
}

/// A stored field and its text.
pub open spec fn field(name: Seq<char>, value: nat) -> (Seq<char>, Seq<char>) {
    (name, decimal_spec(value))
}

/// The fields a SETATTR writes, in order, given the server's clock
/// (`now_secs`, `now_nsecs`): the access time pair, the modification time
/// pair, the permissions, and the size, each only when asked for.
pub open spec fn setattr_fields_spec(attr: sattr3, now_secs: u64, now_nsecs: u32) -> Seq<
    (Seq<char>, Seq<char>),
> {
    let a = match attr.atime {
        set_atime::SET_TO_SERVER_TIME => seq![
            field("access_time_secs"@, now_secs as nat),
            field("access_time_nsecs"@, now_nsecs as nat),
        ],
        set_atime::SET_TO_CLIENT_TIME(t) => seq![
            field("access_time_secs"@, t.seconds as nat),
            field("access_time_nsecs"@, t.nseconds as nat),
        ],
        set_atime::DONT_CHANGE => seq![],
    };
    let m = match attr.mtime {
        set_mtime::SET_TO_SERVER_TIME => seq![
            field("modification_time_secs"@, now_secs as nat),
            field("modification_time_nsecs"@, now_nsecs as nat),
        ],
        set_mtime::SET_TO_CLIENT_TIME(t) => seq![
            field("modification_time_secs"@, t.seconds as nat),
            field("modification_time_nsecs"@, t.nseconds as nat),
        ],
        set_mtime::DONT_CHANGE => seq![],
    };
    let p = match attr.mode {
        set_mode3::mode(md) => seq![field("permissions"@, mode_unmask_spec(md) as nat)],
        set_mode3::Void => seq![],
    };
    let z = match attr.size {
        set_size3::size(sz) => seq![field("size"@, sz as nat)],
        set_size3::Void => seq![],
    };
    a + m + p + z
}

/// The characters of each pair of strings written.
fn push_field(out: &mut Vec<(String, String)>, name: &str, value: u64)
    ensures
        pair_views(final(out)@) == pair_views(old(out)@).push(field(name@, value as nat)),
{
    out.push((name.to_owned(), decimal(value)));
    assert(pair_views(out@) =~= pair_views(old(out)@).push(field(name@, value as nat)));
}

/// The fields a SETATTR writes to the node's metadata, in order.
pub fn setattr_fields(attr: &sattr3, now_secs: u64, now_nsecs: u32) -> (r: Vec<(String, String)>)
    ensures
        pair_views(r@) == setattr_fields_spec(*attr, now_secs, now_nsecs),
{
    let mut out: Vec<(String, String)> = Vec::new();
    assert(pair_views(out@) =~= Seq::<(Seq<char>, Seq<char>)>::empty());
    match attr.atime {
        set_atime::SET_TO_SERVER_TIME => {
            push_field(&mut out, "access_time_secs", now_secs);
            push_field(&mut out, "access_time_nsecs", now_nsecs as u64);
        },
        set_atime::SET_TO_CLIENT_TIME(t) => {
            push_field(&mut out, "access_time_secs", t.seconds as u64);
            push_field(&mut out, "access_time_nsecs", t.nseconds as u64);
        },
        set_atime::DONT_CHANGE => {},
    }
    let ghost a = pair_views(out@);
    match attr.mtime {
        set_mtime::SET_TO_SERVER_TIME => {
            push_field(&mut out, "modification_time_secs", now_secs);
            push_field(&mut out, "modification_time_nsecs", now_nsecs as u64);
        },
        set_mtime::SET_TO_CLIENT_TIME(t) => {
            push_field(&mut out, "modification_time_secs", t.seconds as u64);
            push_field(&mut out, "modification_time_nsecs", t.nseconds as u64);
        },
        set_mtime::DONT_CHANGE => {},
    }
    let ghost am = pair_views(out@);
    match attr.mode {
        set_mode3::mode(md) => {
            push_field(&mut out, "permissions", mode_unmask_setattr(md) as u64);
        },
        set_mode3::Void => {},
    }
    let ghost amp = pair_views(out@);
    match attr.size {
        set_size3::size(sz) => {
            push_field(&mut out, "size", sz);
        },
        set_size3::Void => {},
    }
    assert(pair_views(out@) =~= setattr_fields_spec(*attr, now_secs, now_nsecs));
    out
}

/// The time fields of a node stamped at `secs` and `nsecs`, in the order
/// they are written: change, modification, access.
pub open spec fn time_fields_spec(secs: u64, nsecs: u32) -> Seq<(Seq<char>, Seq<char>)> {
    seq![
        field("change_time_secs"@, secs as nat),
        field("change_time_nsecs"@, nsecs as nat),
        field("modification_time_secs"@, secs as nat),
        field("modification_time_nsecs"@, nsecs as nat),
        field("access_time_secs"@, secs as nat),
        field("access_time_nsecs"@, nsecs as nat),
    ]
}

/// The fields a new node starts with: its type, size 0, the permissions
/// when given, its times and birth time all at `secs`/`nsecs`, and its file
/// id.
pub open spec fn new_node_fields_spec(
    node_type: Seq<char>,
    permissions: Option<u64>,
    fileid: u64,
    secs: u64,
    nsecs: u32,
) -> Seq<(Seq<char>, Seq<char>)> {
    let head = seq![("ftype"@, node_type), field("size"@, 0)];
    let perm = match permissions {
        Some(p) => seq![field("permissions"@, p as nat)],
        None => seq![],
    };
    head + perm + time_fields_spec(secs, nsecs) + seq![
        field("birth_time_secs"@, secs as nat),
        field("birth_time_nsecs"@, nsecs as nat),
        field("fileid"@, fileid as nat),
    ]
}

fn push_time_fields(out: &mut Vec<(String, String)>, secs: u64, nsecs: u32)
    ensures
        pair_views(final(out)@) == pair_views(old(out)@) + time_fields_spec(secs, nsecs),
{
    push_field(out, "change_time_secs", secs);
    push_field(out, "change_time_nsecs", nsecs as u64);
    push_field(out, "modification_time_secs", secs);
    push_field(out, "modification_time_nsecs", nsecs as u64);
    push_field(out, "access_time_secs", secs);
    push_field(out, "access_time_nsecs", nsecs as u64);
    assert(pair_views(out@) =~= pair_views(old(out)@) + time_fields_spec(secs, nsecs));
}

/// The fields a new node's metadata is created with.
pub fn new_node_fields(
    node_type: &str,
    permissions: Option<u64>,
    fileid: u64,
    secs: u64,
    nsecs: u32,
) -> (r: Vec<(String, String)>)
    ensures
        pair_views(r@) == new_node_fields_spec(node_type@, permissions, fileid, secs, nsecs),
{
    let mut out: Vec<(String, String)> = Vec::new();
    out.push(("ftype".to_owned(), node_type.to_owned()));
    assert(pair_views(out@) =~= seq![("ftype"@, node_type@)]);
    push_field(&mut out, "size", 0);
    match permissions {
        Some(p) => {
            push_field(&mut out, "permissions", p);
        },
        None => {},
    }
    push_time_fields(&mut out, secs, nsecs);
    push_field(&mut out, "birth_time_secs", secs);
    push_field(&mut out, "birth_time_nsecs", nsecs as u64);
    push_field(&mut out, "fileid", fileid);
    assert(pair_views(out@) =~= new_node_fields_spec(node_type@, permissions, fileid, secs, nsecs));
    out
}

/// The fields a new symbolic link starts with: type 2, its target's length
/// as its size, its times and birth time all at `secs`/`nsecs`, and its
/// file id.
pub open spec fn symlink_fields_spec(target_len: u64, fileid: u64, secs: u64, nsecs: u32) -> Seq<
    (Seq<char>, Seq<char>),
> {
    seq![field("ftype"@, 2), field("size"@, target_len as nat)] + time_fields_spec(secs, nsecs)
        + seq![
        field("birth_time_secs"@, secs as nat),
        field("birth_time_nsecs"@, nsecs as nat),
        field("fileid"@, fileid as nat),
    ]
}

/// The fields a new symbolic link's metadata is created with.
pub fn symlink_fields(target_len: u64, fileid: u64, secs: u64, nsecs: u32) -> (r: Vec<
    (String, String),
>)
    ensures
        pair_views(r@) == symlink_fields_spec(target_len, fileid, secs, nsecs),
{
    let mut out: Vec<(String, String)> = Vec::new();
    push_field(&mut out, "ftype", 2);
    push_field(&mut out, "size", target_len);
    push_time_fields(&mut out, secs, nsecs);
    push_field(&mut out, "birth_time_secs", secs);
    push_field(&mut out, "birth_time_nsecs", nsecs as u64);
    push_field(&mut out, "fileid", fileid);
    assert(pair_views(out@) =~= symlink_fields_spec(target_len, fileid, secs, nsecs));
    out
}

/// A field written once, with no later field of the same name, is the
/// value read back for that name.
proof fn lemma_field_read_back(
    pre: Seq<(Seq<char>, Seq<char>)>,
    name: Seq<char>,
    value: Seq<char>,
    post: Seq<(Seq<char>, Seq<char>)>,
)
    requires
        forall|i: int| 0 <= i < post.len() ==> (#[trigger] post[i]).0 != name,
    ensures
        field_value(pre + seq![(name, value)] + post, name) == Some(value),
    decreases post.len(),
{
    let f = pre + seq![(name, value)] + post;
    if post.len() == 0 {
        assert(f.last() == (name, value));
    } else {
        let q = post.drop_last();
        assert forall|i: int| 0 <= i < q.len() implies (#[trigger] q[i]).0 != name by {
            assert(q[i] == post[i]);
        }
        lemma_field_read_back(pre, name, value, q);
        assert(f.drop_last() =~= pre + seq![(name, value)] + q);
        assert(f.last() == post.last());
    }
}

/// A numeric field written once, with no later field of the same name, is
/// read back as the number written.
proof fn lemma_numeric_read_back(
    pre: Seq<(Seq<char>, Seq<char>)>,
    name: Seq<char>,
    n: nat,
    post: Seq<(Seq<char>, Seq<char>)>,
    max: nat,
)
    requires
        n <= max,
        forall|i: int| 0 <= i < post.len() ==> (#[trigger] post[i]).0 != name,
    ensures
        numeric_field(pre + seq![field(name, n)] + post, name, max) == n,
{
    lemma_field_read_back(pre, name, decimal_spec(n), post);
    crate::decimal::lemma_decimal_round_trip(n, max);
}

proof fn lemma_field_names()
    ensures
        "ftype"@.len() == 5,
        "size"@.len() == 4,
        "permissions"@.len() == 11,
        "fileid"@.len() == 6,
        "birth_time_secs"@.len() == 15,
        "birth_time_nsecs"@.len() == 16,
        "change_time_secs"@.len() == 16,
        "change_time_nsecs"@.len() == 17,
        "modification_time_secs"@.len() == 22,
        "modification_time_nsecs"@.len() == 23,
        "access_time_secs"@.len() == 16,
        "access_time_nsecs"@.len() == 17,
{
    reveal_strlit("ftype");
    reveal_strlit("size");
    reveal_strlit("permissions");
    reveal_strlit("fileid");
    reveal_strlit("birth_time_secs");
    reveal_strlit("birth_time_nsecs");
    reveal_strlit("change_time_secs");
    reveal_strlit("change_time_nsecs");
    reveal_strlit("modification_time_secs");
    reveal_strlit("modification_time_nsecs");
    reveal_strlit("access_time_secs");
    reveal_strlit("access_time_nsecs");
}

/// A node created as a symbolic link is reported as one: its metadata, read
/// back from the fields that symlink creation writes, has the symbolic-link
/// type (NF3LNK), the target's length as its size and the file id it was
/// created with.
pub proof fn lemma_symlink_reported_as_link(target_len: u64, fileid: u64, secs: u64, nsecs: u32)
    ensures
        ({
            let m = metadata_of_fields(symlink_fields_spec(target_len, fileid, secs, nsecs));
            &&& ftype_of_spec(m.ftype) == Some(ftype3::NF3LNK)
            &&& m.size == target_len
            &&& m.fileid == fileid
        }),
{
    lemma_field_names();
    let f = symlink_fields_spec(target_len, fileid, secs, nsecs);
    let times = time_fields_spec(secs, nsecs);
    let birth = seq![
        field("birth_time_secs"@, secs as nat),
        field("birth_time_nsecs"@, nsecs as nat),
    ];
    let id = seq![field("fileid"@, fileid as nat)];
    let after_size = times + birth + id;
    assert(f =~= seq![] + seq![field("ftype"@, 2)] + (seq![field("size"@, target_len as nat)]
        + after_size));
    lemma_numeric_read_back(
        seq![],
        "ftype"@,
        2,
        seq![field("size"@, target_len as nat)] + after_size,
        u8::MAX as nat,
    );
    assert(f =~= seq![field("ftype"@, 2)] + seq![field("size"@, target_len as nat)]
        + after_size);
    lemma_numeric_read_back(
        seq![field("ftype"@, 2)],
        "size"@,
        target_len as nat,
        after_size,
        u64::MAX as nat,
    );
    assert(f =~= (seq![field("ftype"@, 2), field("size"@, target_len as nat)] + times + birth)
        + seq![field("fileid"@, fileid as nat)] + Seq::<(Seq<char>, Seq<char>)>::empty());
    lemma_numeric_read_back(
        seq![field("ftype"@, 2), field("size"@, target_len as nat)] + times + birth,
        "fileid"@,
        fileid as nat,
        Seq::<(Seq<char>, Seq<char>)>::empty(),
        u64::MAX as nat,
    );
}

/// A node created with the stored type code `0` is reported as a
/// directory (NF3DIR), and one created with `1` as a regular file
/// (NF3REG); either keeps the file id it was created with.
pub proof fn lemma_new_node_reported_type(
    code: nat,
    permissions: Option<u64>,
    fileid: u64,
    secs: u64,
    nsecs: u32,
)
    requires
        code <= 1,
    ensures
        ({
            let m = metadata_of_fields(
                new_node_fields_spec(decimal_spec(code), permissions, fileid, secs, nsecs),
            );
            &&& ftype_of_spec(m.ftype) == Some(
                if code == 0 {
                    ftype3::NF3DIR
                } else {
                    ftype3::NF3REG
                },
            )
            &&& m.fileid == fileid
        }),
{
    lemma_field_names();
    let f = new_node_fields_spec(decimal_spec(code), permissions, fileid, secs, nsecs);
    let perm: Seq<(Seq<char>, Seq<char>)> = match permissions {
        Some(p) => seq![field("permissions"@, p as nat)],
        None => seq![],
    };
    let times = time_fields_spec(secs, nsecs);
    let birth = seq![
        field("birth_time_secs"@, secs as nat),
        field("birth_time_nsecs"@, nsecs as nat),
    ];
    let rest = seq![field("size"@, 0)] + perm + times + birth + seq![
        field("fileid"@, fileid as nat),
    ];
    assert(f =~= seq![] + seq![field("ftype"@, code)] + rest);
    lemma_numeric_read_back(seq![], "ftype"@, code, rest, u8::MAX as nat);
    let pre = seq![field("ftype"@, code), field("size"@, 0)] + perm + times + birth;
    assert(f =~= pre + seq![field("fileid"@, fileid as nat)] + Seq::<
        (Seq<char>, Seq<char>),
    >::empty());
    lemma_numeric_read_back(
        pre,
        "fileid"@,
        fileid as nat,
        Seq::<(Seq<char>, Seq<char>)>::empty(),
        u64::MAX as nat,
    );
}

/// What a SETATTR with client times and a size writes is what GETATTR then
/// reports: whatever the node's fields were, after the SETATTR's fields are
/// written the reported access time is the client's access time, the
/// reported modification time the client's modification time, and the
/// reported size and space used the size asked for.
pub proof fn lemma_setattr_then_getattr(
    old_fields: Seq<(Seq<char>, Seq<char>)>,
    attr: sattr3,
    ta: nfstime3,
    tm: nfstime3,
    sz: u64,
    now_secs: u64,
    now_nsecs: u32,
    fid: u64,
    t: ftype3,
)
    requires
        attr.atime == set_atime::SET_TO_CLIENT_TIME(ta),
        attr.mtime == set_mtime::SET_TO_CLIENT_TIME(tm),
        attr.size == set_size3::size(sz),
    ensures
        ({
            let m = metadata_of_fields(old_fields + setattr_fields_spec(attr, now_secs, now_nsecs));
            let a = fattr3_spec(fid, m, t);
            &&& a.atime == ta
            &&& a.mtime == tm
            &&& a.size == sz
            &&& a.used == sz
            &&& a.fileid == fid
        }),
{
    lemma_field_names();
    let f = old_fields;
    let x0 = field("access_time_secs"@, ta.seconds as nat);
    let x1 = field("access_time_nsecs"@, ta.nseconds as nat);
    let y0 = field("modification_time_secs"@, tm.seconds as nat);
    let y1 = field("modification_time_nsecs"@, tm.nseconds as nat);
    let pp: Seq<(Seq<char>, Seq<char>)> = match attr.mode {
        set_mode3::mode(md) => seq![field("permissions"@, mode_unmask_spec(md) as nat)],
        set_mode3::Void => seq![],
    };
    let zz = seq![field("size"@, sz as nat)];
    let all = f + setattr_fields_spec(attr, now_secs, now_nsecs);
    let e = Seq::<(Seq<char>, Seq<char>)>::empty();
    assert(all =~= f + seq![x0] + (seq![x1, y0, y1] + pp + zz));
    lemma_numeric_read_back(f, "access_time_secs"@, ta.seconds as nat, seq![x1, y0, y1] + pp + zz, u32::MAX as nat);
    assert(all =~= (f + seq![x0]) + seq![x1] + (seq![y0, y1] + pp + zz));
    lemma_numeric_read_back(f + seq![x0], "access_time_nsecs"@, ta.nseconds as nat, seq![y0, y1] + pp + zz, u32::MAX as nat);
    assert(all =~= (f + seq![x0, x1]) + seq![y0] + (seq![y1] + pp + zz));
    lemma_numeric_read_back(f + seq![x0, x1], "modification_time_secs"@, tm.seconds as nat, seq![y1] + pp + zz, u32::MAX as nat);
    assert(all =~= (f + seq![x0, x1, y0]) + seq![y1] + (pp + zz));
    lemma_numeric_read_back(f + seq![x0, x1, y0], "modification_time_nsecs"@, tm.nseconds as nat, pp + zz, u32::MAX as nat);
    assert(all =~= (f + seq![x0, x1, y0, y1] + pp) + zz + e);
    lemma_numeric_read_back(f + seq![x0, x1, y0, y1] + pp, "size"@, sz as nat, e, u64::MAX as nat);
}

} // verus!
