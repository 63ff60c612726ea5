//! Big-endian (XDR) encoding of the fixed-width integers that every RPC
//! message is made of, and reading them back out of a byte buffer.

use vstd::prelude::*;

verus! {

/// The four big-endian bytes of `x`.
pub open spec fn be32(x: u32) -> Seq<u8> {
    seq![
        (x / 0x1000000) as u8,
        ((x / 0x10000) % 0x100) as u8,
        ((x / 0x100) % 0x100) as u8,
        (x % 0x100) as u8,
    ]
}

/// The eight big-endian bytes of `x`.
pub open spec fn be64(x: u64) -> Seq<u8> {
    be32((x / 0x1_0000_0000) as u32) + be32((x % 0x1_0000_0000) as u32)
}

/// The big-endian `u32` held by the four bytes of `s` that start at `i`.
pub open spec fn u32_at(s: Seq<u8>, i: int) -> u32 {
    (s[i] * 0x1000000 + s[i + 1] * 0x10000 + s[i + 2] * 0x100 + s[i + 3]) as u32
}

/// The big-endian `u64` held by the eight bytes of `s` that start at `i`.
pub open spec fn u64_at(s: Seq<u8>, i: int) -> u64 {
    (u32_at(s, i) * 0x1_0000_0000 + u32_at(s, i + 4)) as u64
}

/// The concatenated big-endian encodings of the words of `s`.
pub open spec fn be32_seq(s: Seq<u32>) -> Seq<u8>
    decreases s.len(),
{
    if s.len() == 0 {
        Seq::empty()
    } else {
        be32_seq(s.drop_last()) + be32(s.last())
    }
}

/// `n` zero bytes.
pub open spec fn zeros(n: nat) -> Seq<u8> {
    Seq::new(n, |i: int| 0u8)
}

/// The number of zero bytes that pad `len` bytes of opaque data up to a
/// multiple of four.
pub open spec fn pad_len(len: nat) -> nat {
    ((4 - (len % 4) as int) % 4) as nat
}

/// A variable-length opaque field: its length as a word, the bytes, and the
/// padding that ends it on a four-byte boundary.
pub open spec fn opaque(data: Seq<u8>) -> Seq<u8> {
    be32(data.len() as u32) + data + zeros(pad_len(data.len()))
}

/// Reading a word back gives the word that was written.
pub proof fn lemma_u32_roundtrip(x: u32)
    ensures
        u32_at(be32(x), 0) == x,
{
    assert(((x / 0x1000000) as u8) as u32 * 0x1000000 + (((x / 0x10000) % 0x100) as u8) as u32
        * 0x10000 + (((x / 0x100) % 0x100) as u8) as u32 * 0x100 + ((x % 0x100) as u8) as u32 == x)
        by (bit_vector);
}

/// A word read out of a longer buffer is the word written at that place.
pub proof fn lemma_u32_at_concat(pre: Seq<u8>, x: u32, post: Seq<u8>)
    ensures
        u32_at(pre + be32(x) + post, pre.len() as int) == x,
{
    lemma_u32_roundtrip(x);
    let s = pre + be32(x) + post;
    let i = pre.len() as int;
    assert(s[i] == be32(x)[0] && s[i + 1] == be32(x)[1]);
    assert(s[i + 2] == be32(x)[2] && s[i + 3] == be32(x)[3]);
}

/// Reading a 64-bit value back gives the value that was written.
pub proof fn lemma_u64_roundtrip(x: u64)
    ensures
        u64_at(be64(x), 0) == x,
{
    let hi = (x / 0x1_0000_0000) as u32;
    let lo = (x % 0x1_0000_0000) as u32;
    lemma_u32_at_concat(Seq::empty(), hi, be32(lo));
    lemma_u32_at_concat(be32(hi), lo, Seq::empty());
    assert(Seq::<u8>::empty() + be32(hi) + be32(lo) =~= be64(x));
    assert(be32(hi) + be32(lo) + Seq::<u8>::empty() =~= be64(x));
    assert(hi * 0x1_0000_0000 + lo == x) by (nonlinear_arith)
        requires
            hi == x / 0x1_0000_0000,
            lo == x % 0x1_0000_0000,
    ;
}

/// Appends the big-endian bytes of `x`.
pub fn push_u32(buf: &mut Vec<u8>, x: u32)
    ensures
        final(buf)@ == old(buf)@ + be32(x),
{
    buf.push((x / 0x1000000) as u8);
    buf.push(((x / 0x10000) % 0x100) as u8);
    buf.push(((x / 0x100) % 0x100) as u8);
    buf.push((x % 0x100) as u8);
    assert(buf@ =~= old(buf)@ + be32(x));
}

/// Appends the big-endian bytes of `x`.
pub fn push_u64(buf: &mut Vec<u8>, x: u64)
    ensures
        final(buf)@ == old(buf)@ + be64(x),
{
    push_u32(buf, (x / 0x1_0000_0000) as u32);
    push_u32(buf, (x % 0x1_0000_0000) as u32);
    assert(buf@ =~= old(buf)@ + be64(x));
}

/// Appends each word of `words`, in order, big-endian.
pub fn push_u32_slice(buf: &mut Vec<u8>, words: &[u32])
    ensures
        final(buf)@ == old(buf)@ + be32_seq(words@),
{
    let mut i: usize = 0;
    while i < words.len()
        invariant
            i <= words@.len(),
            buf@ == old(buf)@ + be32_seq(words@.take(i as int)),
        decreases words@.len() - i,
    {
        push_u32(buf, words[i]);
        proof {
            let t = words@.take(i + 1);
            assert(t.drop_last() =~= words@.take(i as int));
            assert(t.last() == words@[i as int]);
        }
        i = i + 1;
    }
    assert(words@.take(words@.len() as int) =~= words@);
}

/// Appends the bytes of `data`, in order.
pub fn push_bytes(buf: &mut Vec<u8>, data: &[u8])
    ensures
        final(buf)@ == old(buf)@ + data@,
{
    let mut i: usize = 0;
    while i < data.len()
        invariant
            i <= data@.len(),
            buf@ == old(buf)@ + data@.take(i as int),
        decreases data@.len() - i,
    {
        buf.push(data[i]);
        assert(data@.take(i + 1) =~= data@.take(i as int).push(data@[i as int]));
        i = i + 1;
    }
    assert(data@.take(data@.len() as int) =~= data@);
}

/// Appends the bytes of `data` from `start` up to `end`, in order.
pub fn push_range(buf: &mut Vec<u8>, data: &[u8], start: usize, end: usize)
    requires
        start <= end <= data@.len(),
    ensures
        final(buf)@ == old(buf)@ + data@.subrange(start as int, end as int),
{
    let mut i = start;
    while i < end
        invariant
            start <= i <= end <= data@.len(),
            buf@ == old(buf)@ + data@.subrange(start as int, i as int),
        decreases end - i,
    {
        buf.push(data[i]);
        assert(data@.subrange(start as int, i + 1) =~= data@.subrange(start as int, i as int).push(
            data@[i as int],
        ));
        i = i + 1;
    }
}

/// Appends `n` zero bytes.
pub fn push_zeros(buf: &mut Vec<u8>, n: usize)
    ensures
        final(buf)@ == old(buf)@ + zeros(n as nat),
{
    let mut i: usize = 0;
    while i < n
        invariant
            i <= n,
            buf@ == old(buf)@ + zeros(i as nat),
        decreases n - i,
    {
        buf.push(0u8);
        assert(zeros((i + 1) as nat) =~= zeros(i as nat).push(0u8));
        i = i + 1;
    }
}

/// Appends `data` as an XDR opaque field: length word, bytes, padding.
pub fn push_opaque(buf: &mut Vec<u8>, data: &[u8])
    requires
        data@.len() <= u32::MAX,
    ensures
        final(buf)@ == old(buf)@ + opaque(data@),
{
    push_u32(buf, data.len() as u32);
    push_bytes(buf, data);
    let padding = (4 - (data.len() % 4)) % 4;
    push_zeros(buf, padding);
    assert(buf@ =~= old(buf)@ + opaque(data@));
}

/// The big-endian word at `at`.
pub fn read_u32(data: &[u8], at: usize) -> (x: u32)
    requires
        at + 4 <= data@.len(),
    ensures
        x == u32_at(data@, at as int),
{
    let b0 = data[at] as u32;
    let b1 = data[at + 1] as u32;
    let b2 = data[at + 2] as u32;
    let b3 = data[at + 3] as u32;
    b0 * 0x1000000 + b1 * 0x10000 + b2 * 0x100 + b3
}

/// The big-endian 64-bit value at `at`.
pub fn read_u64(data: &[u8], at: usize) -> (x: u64)
    requires
        at + 8 <= data@.len(),
    ensures
        x == u64_at(data@, at as int),
{
    let n = data.len();
    assert(at + 4 + 4 <= n);
    let hi = read_u32(data, at) as u64;
    let lo = read_u32(data, at + 4) as u64;
    hi * 0x1_0000_0000 + lo
}

} // verus!
