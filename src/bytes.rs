//! Little-endian integer encoding on byte sequences.

use vstd::prelude::*;

verus! {

/// The two bytes of `v`, low byte first.
pub open spec fn le16(v: u16) -> Seq<u8> {
    seq![(v & 0xff) as u8, (v >> 8) as u8]
}

/// The four bytes of `v`, low byte first.
pub open spec fn le32(v: u32) -> Seq<u8> {
    seq![(v & 0xff) as u8, ((v >> 8) & 0xff) as u8, ((v >> 16) & 0xff) as u8, (v >> 24) as u8]
}

/// The 16-bit value stored little-endian at `s[i..i + 2]`.
pub open spec fn get16(s: Seq<u8>, i: int) -> u16 {
    ((s[i] as u16) | ((s[i + 1] as u16) << 8)) as u16
}

/// The 32-bit value stored little-endian at `s[i..i + 4]`.
pub open spec fn get32(s: Seq<u8>, i: int) -> u32 {
    ((s[i] as u32) | ((s[i + 1] as u32) << 8) | ((s[i + 2] as u32) << 16) | ((s[i + 3]
        as u32) << 24)) as u32
}

proof fn lemma_join16(v: u16)
    ensures
        ((((v & 0xff) as u8) as u16) | ((((v >> 8) as u8) as u16) << 8)) == v,
{
    assert(((((v & 0xff) as u8) as u16) | ((((v >> 8) as u8) as u16) << 8)) == v) by (bit_vector);
}

proof fn lemma_join32(v: u32)
    ensures
        ((((v & 0xff) as u8) as u32) | (((((v >> 8) & 0xff) as u8) as u32) << 8) | (((((v >> 16)
            & 0xff) as u8) as u32) << 16) | ((((v >> 24) as u8) as u32) << 24)) == v,
{
    assert(((((v & 0xff) as u8) as u32) | (((((v >> 8) & 0xff) as u8) as u32) << 8) | (((((v
        >> 16) & 0xff) as u8) as u32) << 16) | ((((v >> 24) as u8) as u32) << 24)) == v)
        by (bit_vector);
}

/// Reading back a 16-bit value from anywhere it was written.
pub proof fn lemma_get16(pre: Seq<u8>, v: u16, post: Seq<u8>)
    ensures
        get16(pre + le16(v) + post, pre.len() as int) == v,
{
    let s = pre + le16(v) + post;
    let i = pre.len() as int;
    assert(s[i] == le16(v)[0]);
    assert(s[i + 1] == le16(v)[1]);
    lemma_join16(v);
}

/// Reading back a 32-bit value from anywhere it was written.
pub proof fn lemma_get32(pre: Seq<u8>, v: u32, post: Seq<u8>)
    ensures
        get32(pre + le32(v) + post, pre.len() as int) == v,
{
    let s = pre + le32(v) + post;
    let i = pre.len() as int;
    assert(s[i] == le32(v)[0]);
    assert(s[i + 1] == le32(v)[1]);
    assert(s[i + 2] == le32(v)[2]);
    assert(s[i + 3] == le32(v)[3]);
    lemma_join32(v);
}

/// Appends the little-endian bytes of `v`.
pub fn push16(out: &mut Vec<u8>, v: u16)
    ensures
        final(out)@ == old(out)@ + le16(v),
{
    out.push((v & 0xff) as u8);
    out.push((v >> 8) as u8);
    assert(final(out)@ =~= old(out)@ + le16(v));
}

/// Appends the little-endian bytes of `v`.
pub fn push32(out: &mut Vec<u8>, v: u32)
    ensures
        final(out)@ == old(out)@ + le32(v),
{
    out.push((v & 0xff) as u8);
    out.push(((v >> 8) & 0xff) as u8);
    out.push(((v >> 16) & 0xff) as u8);
    out.push((v >> 24) as u8);
    assert(final(out)@ =~= old(out)@ + le32(v));
}

/// The 16-bit value stored little-endian at `b[i..i + 2]`.
pub fn read16(b: &[u8], i: usize) -> (r: u16)
    requires
        i + 2 <= b@.len(),
    ensures
        r == get16(b@, i as int),
{
    (b[i] as u16) | ((b[i + 1] as u16) << 8)
}

/// The 32-bit value stored little-endian at `b[i..i + 4]`.
pub fn read32(b: &[u8], i: usize) -> (r: u32)
    requires
        i + 4 <= b@.len(),
    ensures
        r == get32(b@, i as int),
{
    (b[i] as u32) | ((b[i + 1] as u32) << 8) | ((b[i + 2] as u32) << 16) | ((b[i + 3] as u32)
        << 24)
}

} // verus!

verus! {

/// Why a value could not be encoded or decoded.
#[derive(Clone, Copy, Debug, PartialEq, Eq, Structural)]
pub enum CodecError {
    /// A value does not fit the bit field that carries it.
    OutOfRange,
    /// The input is too short or holds a value with no meaning.
    Malformed,
}

/// The words of `ws`, each as four little-endian bytes, in order.
pub open spec fn words_le(ws: Seq<u32>) -> Seq<u8>
    decreases ws.len(),
{
    if ws.len() == 0 {
        Seq::empty()
    } else {
        words_le(ws.drop_last()) + le32(ws.last())
    }
}

/// The halves of `hs`, each as two little-endian bytes, in order.
pub open spec fn halves_le(hs: Seq<u16>) -> Seq<u8>
    decreases hs.len(),
{
    if hs.len() == 0 {
        Seq::empty()
    } else {
        halves_le(hs.drop_last()) + le16(hs.last())
    }
}

pub proof fn lemma_words_le_len(ws: Seq<u32>)
    ensures
        words_le(ws).len() == 4 * ws.len(),
    decreases ws.len(),
{
    if ws.len() > 0 {
        lemma_words_le_len(ws.drop_last());
    }
}

pub proof fn lemma_halves_le_len(hs: Seq<u16>)
    ensures
        halves_le(hs).len() == 2 * hs.len(),
    decreases hs.len(),
{
    if hs.len() > 0 {
        lemma_halves_le_len(hs.drop_last());
    }
}

/// Word `i` of `ws` reads back from its place in the encoding, whatever precedes or follows.
pub proof fn lemma_words_le_get(pre: Seq<u8>, ws: Seq<u32>, post: Seq<u8>, i: int)
    requires
        0 <= i < ws.len(),
    ensures
        get32(pre + words_le(ws) + post, pre.len() + 4 * i) == ws[i],
    decreases ws.len(),
{
    let n = ws.len() - 1;
    let init = ws.drop_last();
    lemma_words_le_len(init);
    if i == n {
        assert(pre + words_le(ws) + post == (pre + words_le(init)) + le32(ws.last()) + post);
        lemma_get32(pre + words_le(init), ws.last(), post);
    } else {
        assert(pre + words_le(ws) + post == pre + words_le(init) + (le32(ws.last()) + post));
        lemma_words_le_get(pre, init, le32(ws.last()) + post, i);
    }
}

/// Half `i` of `hs` reads back from its place in the encoding, whatever precedes or follows.
pub proof fn lemma_halves_le_get(pre: Seq<u8>, hs: Seq<u16>, post: Seq<u8>, i: int)
    requires
        0 <= i < hs.len(),
    ensures
        get16(pre + halves_le(hs) + post, pre.len() + 2 * i) == hs[i],
    decreases hs.len(),
{
    let n = hs.len() - 1;
    let init = hs.drop_last();
    lemma_halves_le_len(init);
    if i == n {
        assert(pre + halves_le(hs) + post == (pre + halves_le(init)) + le16(hs.last()) + post);
        lemma_get16(pre + halves_le(init), hs.last(), post);
    } else {
        assert(pre + halves_le(hs) + post == pre + halves_le(init) + (le16(hs.last()) + post));
        lemma_halves_le_get(pre, init, le16(hs.last()) + post, i);
    }
}

/// Appends each word of `ws` as four little-endian bytes.
pub fn push_words(out: &mut Vec<u8>, ws: &[u32])
    ensures
        final(out)@ == old(out)@ + words_le(ws@),
{
    let mut i: usize = 0;
    while i < ws.len()
        invariant
            i <= ws@.len(),
            out@ == old(out)@ + words_le(ws@.subrange(0, i as int)),
        decreases ws@.len() - i,
    {
        let ghost before = out@;
        push32(out, ws[i]);
        proof {
            assert(ws@.subrange(0, i + 1).drop_last() == ws@.subrange(0, i as int));
            assert(before + le32(ws@[i as int]) == old(out)@ + words_le(ws@.subrange(0, i + 1)));
        }
        i += 1;
    }
    assert(ws@.subrange(0, ws@.len() as int) == ws@);
}

/// Appends each half of `hs` as two little-endian bytes.
pub fn push_halves(out: &mut Vec<u8>, hs: &[u16])
    ensures
        final(out)@ == old(out)@ + halves_le(hs@),
{
    let mut i: usize = 0;
    while i < hs.len()
        invariant
            i <= hs@.len(),
            out@ == old(out)@ + halves_le(hs@.subrange(0, i as int)),
        decreases hs@.len() - i,
    {
        let ghost before = out@;
        push16(out, hs[i]);
        proof {
            assert(hs@.subrange(0, i + 1).drop_last() == hs@.subrange(0, i as int));
            assert(before + le16(hs@[i as int]) == old(out)@ + halves_le(hs@.subrange(0, i + 1)));
        }
        i += 1;
    }
    assert(hs@.subrange(0, hs@.len() as int) == hs@);
}

/// The `n` words stored little-endian from byte `i` on.
pub open spec fn get_words(s: Seq<u8>, i: int, n: nat) -> Seq<u32> {
    Seq::new(n, |k: int| get32(s, i + 4 * k))
}

/// The `n` halves stored little-endian from byte `i` on.
pub open spec fn get_halves(s: Seq<u8>, i: int, n: nat) -> Seq<u16> {
    Seq::new(n, |k: int| get16(s, i + 2 * k))
}

/// Reads `n` little-endian words from byte `i` on.
pub fn read_words(b: &[u8], i: usize, n: usize) -> (r: Vec<u32>)
    requires
        i + 4 * n <= b@.len(),
    ensures
        r@ == get_words(b@, i as int, n as nat),
{
    let mut r: Vec<u32> = Vec::new();
    let mut k: usize = 0;
    let len = b.len();
    while k < n
        invariant
            k <= n,
            len == b@.len(),
            i + 4 * n <= b@.len(),
            r@ == get_words(b@, i as int, k as nat),
        decreases n - k,
    {
        let w = read32(b, i + 4 * k);
        r.push(w);
        k += 1;
        assert(r@ =~= get_words(b@, i as int, k as nat));
    }
    r
}

/// Reads `n` little-endian halves from byte `i` on.
pub fn read_halves(b: &[u8], i: usize, n: usize) -> (r: Vec<u16>)
    requires
        i + 2 * n <= b@.len(),
    ensures
        r@ == get_halves(b@, i as int, n as nat),
{
    let mut r: Vec<u16> = Vec::new();
    let mut k: usize = 0;
    let len = b.len();
    while k < n
        invariant
            k <= n,
            len == b@.len(),
            i + 2 * n <= b@.len(),
            r@ == get_halves(b@, i as int, k as nat),
        decreases n - k,
    {
        let h = read16(b, i + 2 * k);
        r.push(h);
        k += 1;
        assert(r@ =~= get_halves(b@, i as int, k as nat));
    }
    r
}

/// Words written with `words_le` read back as the same words.
pub proof fn lemma_get_words(pre: Seq<u8>, ws: Seq<u32>, post: Seq<u8>)
    ensures
        get_words(pre + words_le(ws) + post, pre.len() as int, ws.len()) == ws,
{
    assert forall|k: int| 0 <= k < ws.len() implies get_words(
        pre + words_le(ws) + post,
        pre.len() as int,
        ws.len(),
    )[k] == ws[k] by {
        lemma_words_le_get(pre, ws, post, k);
    }
    assert(get_words(pre + words_le(ws) + post, pre.len() as int, ws.len()) =~= ws);
}

/// Halves written with `halves_le` read back as the same halves.
pub proof fn lemma_get_halves(pre: Seq<u8>, hs: Seq<u16>, post: Seq<u8>)
    ensures
        get_halves(pre + halves_le(hs) + post, pre.len() as int, hs.len()) == hs,
{
    assert forall|k: int| 0 <= k < hs.len() implies get_halves(
        pre + halves_le(hs) + post,
        pre.len() as int,
        hs.len(),
    )[k] == hs[k] by {
        lemma_halves_le_get(pre, hs, post, k);
    }
    assert(get_halves(pre + halves_le(hs) + post, pre.len() as int, hs.len()) =~= hs);
}

} // verus!
