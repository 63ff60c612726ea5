//! The READDIRPLUS call and its reply: a directory listing with the
//! attributes and handle of each entry.

use vstd::prelude::*;
use vstd::utf8::{decode_utf8, valid_utf8};
use crate::rpc::{
    call_header, fattr3_result, handle_bytes, parse_fattr3_at, push_call_header, push_handle,
    Fattr3, ReplyError, NFS_PROGRAM, NFS_VERSION,
};
use crate::rpc::auth::{default_auth_bytes, AuthUnix};
use crate::rpc::lookup::read_handle;
use crate::rpc::read::copy_range;
use crate::text::string_from_utf8;
use crate::xdr::{be32, be64, pad_len, push_u32, push_u64, read_u32, read_u64, u32_at, u64_at};

verus! {

/// The READDIRPLUS procedure number.
pub const NFS_PROC_READDIRPLUS: u32 = 17;

/// One directory entry of a READDIRPLUS reply.
#[derive(Debug)]
pub struct EntryPlus3 {
    pub fileid: u64,
    pub name: String,
    pub cookie: u64,
    pub name_attributes: Option<Fattr3>,
    pub name_handle: Option<[u8; 16]>,
}

/// The reply to READDIRPLUS.
#[derive(Debug)]
pub struct ReaddirplusReply {
    pub status: u32,
    pub dir_attributes: Option<Fattr3>,
    pub cookieverf: u64,
    pub entries: Vec<EntryPlus3>,
    pub eof: bool,
}

/// A directory entry as a value: the name as characters, the handle as
/// bytes.
pub struct EntryModel {
    pub fileid: u64,
    pub name: Seq<char>,
    pub cookie: u64,
    pub name_attributes: Option<Fattr3>,
    pub name_handle: Option<Seq<u8>>,
}

/// A READDIRPLUS reply as a value.
pub struct ReaddirplusModel {
    pub status: u32,
    pub dir_attributes: Option<Fattr3>,
    pub cookieverf: u64,
    pub entries: Seq<EntryModel>,
    pub eof: bool,
}

impl EntryPlus3 {
    /// This entry as a value.
    pub open spec fn model(&self) -> EntryModel {
        EntryModel {
            fileid: self.fileid,
            name: self.name@,
            cookie: self.cookie,
            name_attributes: self.name_attributes,
            name_handle: match self.name_handle {
                Some(h) => Some(h@),
                None => None,
            },
        }
    }
}

impl ReaddirplusReply {
    /// This reply as a value.
    pub open spec fn model(&self) -> ReaddirplusModel {
        ReaddirplusModel {
            status: self.status,
            dir_attributes: self.dir_attributes,
            cookieverf: self.cookieverf,
            entries: self.entries@.map_values(|e: EntryPlus3| e.model()),
            eof: self.eof,
        }
    }
}

/// The bytes of a READDIRPLUS call for the directory with handle `fh`.
pub open spec fn readdirplus_call(
    xid: u32,
    fh: Seq<u8>,
    cookie: u64,
    cookieverf: u64,
    dircount: u32,
    maxcount: u32,
) -> Seq<u8> {
    call_header(xid, NFS_PROGRAM, NFS_VERSION, NFS_PROC_READDIRPLUS) + default_auth_bytes()
        + handle_bytes(fh) + be64(cookie) + be64(cookieverf) + be32(dircount) + be32(maxcount)
}

/// Builds a READDIRPLUS call with the default credential.
pub fn build_readdirplus_call(
    xid: u32,
    file_handle: &[u8; 16],
    cookie: u64,
    cookieverf: u64,
    dircount: u32,
    maxcount: u32,
) -> (call: Vec<u8>)
    ensures
        call@ == readdirplus_call(xid, file_handle@, cookie, cookieverf, dircount, maxcount),
{
    let mut call: Vec<u8> = Vec::new();
    push_call_header(&mut call, xid, NFS_PROGRAM, NFS_VERSION, NFS_PROC_READDIRPLUS);
    AuthUnix::default().write_to_vec(&mut call);
    push_handle(&mut call, file_handle);
    push_u64(&mut call, cookie);
    push_u64(&mut call, cookieverf);
    push_u32(&mut call, dircount);
    push_u32(&mut call, maxcount);
    assert(call@ =~= readdirplus_call(xid, file_handle@, cookie, cookieverf, dircount, maxcount));
    call
}

/// What decoding one step of the entry list at a position gives.
pub enum EntryStep {
    /// A read would fall outside the buffer.
    OutOfBounds,
    /// The decoding fails with this error.
    Failed(ReplyError),
    /// The list ends; the eof word is at `next`.
    End(int),
    /// An entry, and where the next step starts.
    Entry(EntryModel, int),
}

#[verifier::opaque]
/// Decoding one step of the entry list at `o`: a presence word (1: an entry
/// follows), the file id, the name as an XDR string, the cookie, an
/// attribute flag and attributes, a handle flag and the handle (after its
/// length word).
pub open spec fn entry_step(s: Seq<u8>, o: int) -> EntryStep {
    if o < 0 || o + 4 > s.len() {
        EntryStep::OutOfBounds
    } else if u32_at(s, o) != 1 {
        EntryStep::End(o + 4)
    } else if o + 16 > s.len() {
        EntryStep::OutOfBounds
    } else {
        let fileid = u64_at(s, o + 4);
        let nl = u32_at(s, o + 12) as int;
        let o3 = o + 16;
        if o3 + nl > s.len() {
            EntryStep::OutOfBounds
        } else if !valid_utf8(s.subrange(o3, o3 + nl)) {
            EntryStep::Failed(ReplyError::InvalidName)
        } else {
            let name = decode_utf8(s.subrange(o3, o3 + nl));
            let o4 = o3 + nl + pad_len(nl as nat);
            if o4 + 12 > s.len() {
                EntryStep::OutOfBounds
            } else {
                let cookie = u64_at(s, o4);
                let has_attrs = u32_at(s, o4 + 8) == 1;
                let o6 = o4 + 12;
                if has_attrs && fattr3_result(s, o6) is Err {
                    EntryStep::Failed(fattr3_result(s, o6)->Err_0)
                } else {
                    let attrs = if has_attrs {
                        Some(fattr3_result(s, o6)->Ok_0)
                    } else {
                        None
                    };
                    let o7: int = if has_attrs {
                        o6 + 84
                    } else {
                        o6
                    };
                    if o7 + 4 > s.len() {
                        EntryStep::OutOfBounds
                    } else if u32_at(s, o7) == 1 {
                        if o7 + 24 > s.len() {
                            EntryStep::OutOfBounds
                        } else {
                            EntryStep::Entry(
                                EntryModel {
                                    fileid,
                                    name,
                                    cookie,
                                    name_attributes: attrs,
                                    name_handle: Some(s.subrange(o7 + 8, o7 + 24)),
                                },
                                o7 + 24,
                            )
                        }
                    } else {
                        EntryStep::Entry(
                            EntryModel {
                                fileid,
                                name,
                                cookie,
                                name_attributes: attrs,
                                name_handle: None,
                            },
                            o7 + 4,
                        )
                    }
                }
            }
        }
    }
}

/// What decoding the rest of the entry list gives.
pub enum EntriesOutcome {
    OutOfBounds,
    Failed(ReplyError),
    /// The entries, and where the eof word is.
    Done(Seq<EntryModel>, int),
}

/// `entries` followed by what decoding the rest gave.
pub open spec fn prepend(entries: Seq<EntryModel>, rest: EntriesOutcome) -> EntriesOutcome {
    match rest {
        EntriesOutcome::Done(es, end) => EntriesOutcome::Done(entries + es, end),
        other => other,
    }
}

/// Decoding the entry list from `o` on, entry after entry, until a
/// presence word other than 1.
pub open spec fn entries_from(s: Seq<u8>, o: int) -> EntriesOutcome
    decreases s.len() - o,
{
    match entry_step(s, o) {
        EntryStep::OutOfBounds => EntriesOutcome::OutOfBounds,
        EntryStep::Failed(e) => EntriesOutcome::Failed(e),
        EntryStep::End(next) => EntriesOutcome::Done(Seq::empty(), next),
        EntryStep::Entry(e, next) => if o < next <= s.len() {
            prepend(seq![e], entries_from(s, next))
        } else {
            EntriesOutcome::OutOfBounds
        },
    }
}

/// What decoding a whole READDIRPLUS reply gives.
pub enum ReaddirplusOutcome {
    OutOfBounds,
    Failed(ReplyError),
    Decoded(ReaddirplusModel),
}

/// Decoding the READDIRPLUS reply `s`: status at 24; on success an
/// attribute flag at 28 (1: directory attributes at 32), the cookie
/// verifier, the entry list and the eof word (true when 1).
pub open spec fn readdirplus_outcome(s: Seq<u8>) -> ReaddirplusOutcome {
    if s.len() < 28 {
        ReaddirplusOutcome::Failed(ReplyError::ReplyTooShort)
    } else if u32_at(s, 24) != 0 {
        ReaddirplusOutcome::Decoded(
            ReaddirplusModel {
                status: u32_at(s, 24),
                dir_attributes: None,
                cookieverf: 0,
                entries: Seq::empty(),
                eof: false,
            },
        )
    } else if s.len() < 32 {
        ReaddirplusOutcome::OutOfBounds
    } else if u32_at(s, 28) == 1 && fattr3_result(s, 32) is Err {
        ReaddirplusOutcome::Failed(fattr3_result(s, 32)->Err_0)
    } else {
        let o: int = if u32_at(s, 28) == 1 {
            116
        } else {
            32
        };
        let attrs = if u32_at(s, 28) == 1 {
            Some(fattr3_result(s, 32)->Ok_0)
        } else {
            None
        };
        if o + 8 > s.len() {
            ReaddirplusOutcome::OutOfBounds
        } else {
            match entries_from(s, o + 8) {
                EntriesOutcome::OutOfBounds => ReaddirplusOutcome::OutOfBounds,
                EntriesOutcome::Failed(e) => ReaddirplusOutcome::Failed(e),
                EntriesOutcome::Done(es, end) => if end + 4 > s.len() {
                    ReaddirplusOutcome::OutOfBounds
                } else {
                    ReaddirplusOutcome::Decoded(
                        ReaddirplusModel {
                            status: 0,
                            dir_attributes: attrs,
                            cookieverf: u64_at(s, o),
                            entries: es,
                            eof: u32_at(s, end) == 1,
                        },
                    )
                },
            }
        }
    }
}

/// Whether decoding `s` as a READDIRPLUS reply stays inside the buffer.
pub open spec fn readdirplus_in_bounds(s: Seq<u8>) -> bool {
    !(readdirplus_outcome(s) is OutOfBounds)
}

/// A step that yields an entry moves forward and stays inside the buffer.
proof fn lemma_entry_step_advances(s: Seq<u8>, o: int)
    ensures
        entry_step(s, o) matches EntryStep::Entry(_, next) ==> o < next <= s.len(),
        entry_step(s, o) matches EntryStep::End(next) ==> next <= s.len(),
{
    reveal(entry_step);
}

/// Prepending twice is prepending the concatenation.
proof fn lemma_prepend_twice(a: Seq<EntryModel>, b: Seq<EntryModel>, rest: EntriesOutcome)
    ensures
        prepend(a, prepend(b, rest)) == prepend(a + b, rest),
{
    match rest {
        EntriesOutcome::Done(es, end) => {
            assert(a + (b + es) =~= (a + b) + es);
        },
        _ => {},
    }
}

/// Decodes one step of the entry list at `offset`; `None` when a read
/// would fall outside the buffer.
fn parse_entry_step(data: &[u8], offset: usize) -> (r: Option<
    Result<(Option<EntryPlus3>, usize), ReplyError>,
>)
    ensures
        match entry_step(data@, offset as int) {
            EntryStep::OutOfBounds => r is None,
            EntryStep::Failed(e) => r == Some(Err::<(Option<EntryPlus3>, usize), ReplyError>(e)),
            EntryStep::End(next) => r matches Some(Ok((None, n))) && n == next,
            EntryStep::Entry(e, next) => r matches Some(Ok((Some(x), n))) && n == next && x.model()
                == e,
        },
{
    reveal(entry_step);
    let n = data.len();
    if offset > n || n - offset < 4 {
        return None;
    }
    let mut offset = offset;
    let has_entry = read_u32(data, offset) == 1;
    offset = offset + 4;
    if !has_entry {
        return Some(Ok((None, offset)));
    }
    if n - offset < 12 {
        return None;
    }
    let fileid = read_u64(data, offset);
    offset = offset + 8;
    let name_len = read_u32(data, offset) as usize;
    offset = offset + 4;
    if n - offset < name_len {
        return None;
    }
    let name_bytes = copy_range(data, offset, offset + name_len);
    let name = match string_from_utf8(name_bytes) {
        Ok(s) => s,
        Err(_) => return Some(Err(ReplyError::InvalidName)),
    };
    offset = offset + name_len;
    let padding = (4 - (name_len % 4)) % 4;
    if n - offset < padding || n - offset - padding < 12 {
        return None;
    }
    offset = offset + padding;
    let cookie = read_u64(data, offset);
    offset = offset + 8;
    let has_attrs = read_u32(data, offset) == 1;
    offset = offset + 4;
    let name_attributes = if has_attrs {
        let attrs = match parse_fattr3_at(data, offset) {
            Ok(a) => a,
            Err(e) => return Some(Err(e)),
        };
        offset = offset + 84;
        Some(attrs)
    } else {
        None
    };
    if n - offset < 4 {
        return None;
    }
    let has_handle = read_u32(data, offset) == 1;
    offset = offset + 4;
    let name_handle = if has_handle {
        if n - offset < 20 {
            return None;
        }
        offset = offset + 4;
        let handle = read_handle(data, offset);
        offset = offset + 16;
        Some(handle)
    } else {
        None
    };
    let entry = EntryPlus3 { fileid, name, cookie, name_attributes, name_handle };
    Some(Ok((Some(entry), offset)))
}

/// Decodes the entry list from `offset` on; `None` when a read would fall
/// outside the buffer. Also gives where the eof word is.
fn decode_entries(data: &[u8], from: usize) -> (r: Option<
    Result<(Vec<EntryPlus3>, usize), ReplyError>,
>)
    requires
        from <= data@.len(),
    ensures
        match entries_from(data@, from as int) {
            EntriesOutcome::OutOfBounds => r is None,
            EntriesOutcome::Failed(e) => r == Some(Err::<(Vec<EntryPlus3>, usize), ReplyError>(e)),
            EntriesOutcome::Done(es, end) => r matches Some(Ok((v, n))) && n == end
                && v@.map_values(|e: EntryPlus3| e.model()) == es,
        },
        r matches Some(Ok((_, n))) ==> n <= data@.len(),
{
    let n = data.len();
    let mut offset = from;
    let ghost start = from as int;
    let mut entries: Vec<EntryPlus3> = Vec::new();
    assert(entries@.map_values(|e: EntryPlus3| e.model()) =~= Seq::<EntryModel>::empty());
    loop
        invariant
            n == data@.len(),
            start == from,
            start <= offset <= n,
            entries_from(data@, start) == prepend(
                entries@.map_values(|e: EntryPlus3| e.model()),
                entries_from(data@, offset as int),
            ),
        decreases n - offset,
    {
        proof {
            lemma_entry_step_advances(data@, offset as int);
        }
        match parse_entry_step(data, offset) {
            None => {
                assert(entry_step(data@, offset as int) is OutOfBounds);
                assert(entries_from(data@, offset as int) is OutOfBounds);
                return None;
            },
            Some(Err(e)) => {
                assert(entry_step(data@, offset as int) == EntryStep::Failed(e));
                assert(entries_from(data@, offset as int) == EntriesOutcome::Failed(e));
                return Some(Err(e));
            },
            Some(Ok((None, next))) => {
                assert(entry_step(data@, offset as int) == EntryStep::End(next as int));
                assert(entries_from(data@, offset as int) == EntriesOutcome::Done(
                    Seq::empty(),
                    next as int,
                ));
                let ghost models = entries@.map_values(|e: EntryPlus3| e.model());
                assert(models + Seq::<EntryModel>::empty() =~= models);
                return Some(Ok((entries, next)));
            },
            Some(Ok((Some(entry), next))) => {
                assert(entry_step(data@, offset as int) == EntryStep::Entry(entry.model(), next as int));
                assert(entries_from(data@, offset as int) == prepend(
                    seq![entry.model()],
                    entries_from(data@, next as int),
                ));
                let ghost old_models = entries@.map_values(|e: EntryPlus3| e.model());
                let ghost m = entry.model();
                entries.push(entry);
                proof {
                    assert(entries@.map_values(|e: EntryPlus3| e.model()) =~= old_models + seq![m]);
                    lemma_prepend_twice(old_models, seq![m], entries_from(data@, next as int));
                }
                offset = next;
            },
        }
    }
}

/// Decodes a READDIRPLUS reply; `None` when a read would fall outside the
/// buffer.
fn decode_readdirplus(data: &[u8]) -> (r: Option<Result<ReaddirplusReply, ReplyError>>)
    ensures
        match readdirplus_outcome(data@) {
            ReaddirplusOutcome::OutOfBounds => r is None,
            ReaddirplusOutcome::Failed(e) => r == Some(Err::<ReaddirplusReply, ReplyError>(e)),
            ReaddirplusOutcome::Decoded(m) => r matches Some(Ok(x)) && x.model() == m,
        },
{
    let n = data.len();
    if n < 28 {
        return Some(Err(ReplyError::ReplyTooShort));
    }
    let status = read_u32(data, 24);
    if status != 0 {
        let r = ReaddirplusReply {
            status,
            dir_attributes: None,
            cookieverf: 0,
            entries: Vec::new(),
            eof: false,
        };
        assert(r.model().entries =~= Seq::<EntryModel>::empty());
        return Some(Ok(r));
    }
    if n < 32 {
        return None;
    }
    let mut offset: usize = 28;
    let has_attrs = read_u32(data, offset) == 1;
    offset = offset + 4;
    let dir_attributes = if has_attrs {
        let attrs = match parse_fattr3_at(data, offset) {
            Ok(a) => a,
            Err(e) => return Some(Err(e)),
        };
        offset = offset + 84;
        Some(attrs)
    } else {
        None
    };
    if n - offset < 8 {
        return None;
    }
    let cookieverf = read_u64(data, offset);
    offset = offset + 8;
    let (entries, offset) = match decode_entries(data, offset) {
        None => return None,
        Some(Err(e)) => return Some(Err(e)),
        Some(Ok(x)) => x,
    };
    if n - offset < 4 {
        return None;
    }
    let eof = read_u32(data, offset) == 1;
    Some(Ok(ReaddirplusReply { status, dir_attributes, cookieverf, entries, eof }))
}

impl ReaddirplusReply {
    /// Whether `data` can be decoded without reading past its end.
    pub fn in_bounds(data: &[u8]) -> (b: bool)
        ensures
            b == readdirplus_in_bounds(data@),
    {
        decode_readdirplus(data).is_some()
    }

    /// Decodes a READDIRPLUS reply.
    pub fn from_bytes(data: &[u8]) -> (r: Result<ReaddirplusReply, ReplyError>)
        requires
            readdirplus_in_bounds(data@),
        ensures
            match readdirplus_outcome(data@) {
                ReaddirplusOutcome::OutOfBounds => false,
                ReaddirplusOutcome::Failed(e) => r == Err::<ReaddirplusReply, ReplyError>(e),
                ReaddirplusOutcome::Decoded(m) => r matches Ok(x) && x.model() == m,
            },
    {
        match decode_readdirplus(data) {
            Some(r) => r,
            None => Err(ReplyError::ReplyTooShort),
        }
    }
}

} // verus!
