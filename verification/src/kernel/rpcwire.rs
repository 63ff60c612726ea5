//! Record marking on the server's TCP stream (RFC 1057, section 10): each
//! fragment starts with a word whose high bit flags the last fragment and
//! whose low 31 bits give its length.

use vstd::prelude::*;

verus! {

/// The header of a last fragment of `len` bytes.
pub open spec fn fragment_header_spec(len: usize) -> u32 {
    (len + 0x80000000) as u32
}

/// The header of a last fragment of `len` bytes; fragments must be shorter
/// than 2^31 bytes.
pub fn fragment_header(len: usize) -> (h: u32)
    requires
        len < 0x80000000,
    ensures
        h == fragment_header_spec(len),
{
    len as u32 + 0x80000000u32
}

/// A received fragment header: whether the fragment is the last, and its
/// length.
pub fn parse_fragment_header(header: u32) -> (r: (bool, u32))
    ensures
        r.0 == (header & 0x80000000 > 0),
        r.1 == header & 0x7fffffff,
{
    (header & 0x80000000 > 0, header & 0x7fffffff)
}

/// A header written for a fragment reads back as that fragment's length,
/// flagged last.
pub proof fn lemma_fragment_header_roundtrip(len: usize)
    requires
        len < 0x80000000,
    ensures
        fragment_header_spec(len) & 0x80000000 > 0,
        fragment_header_spec(len) & 0x7fffffff == len,
{
    let l = len as u32;
    assert(l == len);
    assert(fragment_header_spec(len) == ((l + 0x80000000u32) as u32));
    assert(l < 0x80000000u32 ==> ((l + 0x80000000u32) as u32) & 0x80000000 > 0) by (bit_vector);
    assert(l < 0x80000000u32 ==> ((l + 0x80000000u32) as u32) & 0x7fffffff == l) by (bit_vector);
}

/// A record framed for the wire: one last fragment, its header then its
/// bytes.
pub fn frame_record(buf: &[u8]) -> (out: Vec<u8>)
    requires
        buf@.len() < 0x80000000,
    ensures
        out@ == crate::xdr::be32(fragment_header_spec(buf@.len() as usize)) + buf@,
{
    let mut out: Vec<u8> = Vec::new();
    crate::xdr::push_u32(&mut out, fragment_header(buf.len()));
    crate::xdr::push_bytes(&mut out, buf);
    out
}

/// The fragments of the record being received, joined.
pub struct RecordAssembler {
    cur_fragment: Vec<u8>,
}

impl RecordAssembler {
    /// The bytes received so far of the record not yet complete.
    pub closed spec fn pending(&self) -> Seq<u8> {
        self.cur_fragment@
    }

    /// An assembler that has received nothing.
    pub fn new() -> (a: RecordAssembler)
        ensures
            a.pending() == Seq::<u8>::empty(),
    {
        RecordAssembler { cur_fragment: Vec::new() }
    }

    /// Takes in a fragment with header `header` and bytes `data`: its bytes
    /// join the pending ones, and when it is the last fragment the whole
    /// record is handed back and the assembler starts afresh.
    pub fn push_fragment(&mut self, header: u32, data: &[u8]) -> (r: Option<Vec<u8>>)
        requires
            data@.len() == header & 0x7fffffff,
        ensures
            header & 0x80000000 > 0 ==> (r matches Some(rec) && rec@ == old(self).pending() + data@
                && final(self).pending() == Seq::<u8>::empty()),
            !(header & 0x80000000 > 0) ==> r is None && final(self).pending() == old(self).pending()
                + data@,
    {
        let (is_last, _len) = parse_fragment_header(header);
        crate::xdr::push_bytes(&mut self.cur_fragment, data);
        if is_last {
            let mut record: Vec<u8> = Vec::new();
            std::mem::swap(&mut record, &mut self.cur_fragment);
            Some(record)
        } else {
            None
        }
    }
}

/// The record that fragments (header, bytes) give, taken in order after
/// the bytes `acc` already received: the bytes up to and including the
/// first fragment flagged last, joined; `None` when none is flagged.
pub open spec fn record_from(frags: Seq<(u32, Seq<u8>)>, acc: Seq<u8>) -> Option<Seq<u8>>
    decreases frags.len(),
{
    if frags.len() == 0 {
        None
    } else if frags[0].0 & 0x80000000 > 0 {
        Some(acc + frags[0].1)
    } else {
        record_from(frags.drop_first(), acc + frags[0].1)
    }
}

/// The bytes of all fragments, joined.
pub open spec fn joined_fragments(frags: Seq<(u32, Seq<u8>)>) -> Seq<u8>
    decreases frags.len(),
{
    if frags.len() == 0 {
        seq![]
    } else {
        frags[0].1 + joined_fragments(frags.drop_first())
    }
}

/// The record received as the fragments `frags`, pushed in order through
/// a fresh assembler: the bytes up to and including the first fragment
/// flagged last; `None` when no fragment is flagged.
pub fn assemble_record(frags: &Vec<(u32, Vec<u8>)>) -> (r: Option<Vec<u8>>)
    requires
        forall|i: int| 0 <= i < frags@.len() ==> (#[trigger] frags@[i]).1@.len() == frags@[i].0
            & 0x7fffffff,
    ensures
        match record_from(frags@.map_values(|f: (u32, Vec<u8>)| (f.0, f.1@)), seq![]) {
            Some(rec) => r matches Some(v) && v@ == rec,
            None => r is None,
        },
{
    let ghost fs = frags@.map_values(|f: (u32, Vec<u8>)| (f.0, f.1@));
    let mut assembler = RecordAssembler::new();
    let mut i: usize = 0;
    assert(fs.skip(0) =~= fs);
    assert(assembler.pending() =~= seq![]);
    while i < frags.len()
        invariant
            i <= frags@.len(),
            fs == frags@.map_values(|f: (u32, Vec<u8>)| (f.0, f.1@)),
            forall|j: int| 0 <= j < frags@.len() ==> (#[trigger] frags@[j]).1@.len() == frags@[j].0
                & 0x7fffffff,
            record_from(fs, seq![]) == record_from(fs.skip(i as int), assembler.pending()),
        decreases frags@.len() - i,
    {
        let ghost before = assembler.pending();
        assert(fs.skip(i as int)[0] == fs[i as int]);
        assert(fs.skip(i as int).drop_first() =~= fs.skip(i + 1));
        match assembler.push_fragment(frags[i].0, frags[i].1.as_slice()) {
            Some(rec) => {
                return Some(rec);
            },
            None => {},
        }
        i += 1;
    }
    assert(fs.skip(i as int).len() == 0);
    None
}

/// Fragments of which only the last is flagged make one record: all their
/// bytes, joined in order.
pub proof fn lemma_record_is_all_fragments(frags: Seq<(u32, Seq<u8>)>, acc: Seq<u8>)
    requires
        frags.len() > 0,
        frags[frags.len() - 1].0 & 0x80000000 > 0,
        forall|i: int| 0 <= i < frags.len() - 1 ==> !(#[trigger] frags[i].0 & 0x80000000 > 0),
    ensures
        record_from(frags, acc) == Some(acc + joined_fragments(frags)),
    decreases frags.len(),
{
    if frags.len() == 1 {
        assert(joined_fragments(frags.drop_first()) == Seq::<u8>::empty());
        assert(frags[0].1 + Seq::<u8>::empty() =~= frags[0].1);
    } else {
        let t = frags.drop_first();
        assert forall|i: int| 0 <= i < t.len() - 1 implies !(#[trigger] t[i].0 & 0x80000000 > 0) by {
            assert(t[i] == frags[i + 1]);
        }
        assert(!(frags[0].0 & 0x80000000 > 0));
        lemma_record_is_all_fragments(t, acc + frags[0].1);
        assert(acc + frags[0].1 + joined_fragments(t) =~= acc + joined_fragments(frags));
    }
}

} // verus!
