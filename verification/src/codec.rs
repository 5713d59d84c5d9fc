//! Byte encoding of trivial values inside a record's byte region.
//!
//! Trivial kinds are stored as little-endian bit patterns: one byte for a
//! boolean, four bytes per 32-bit word, eight bytes for a resource
//! identifier. Managed kinds are stored as an eight-byte pool handle; their
//! encoding lives with the accessor, not here.

use vstd::prelude::*;
use vstd::bytes::lemma_auto_spec_u32_to_from_le_bytes;
use vstd::bytes::lemma_auto_spec_u64_to_from_le_bytes;
use vstd::bytes::spec_u32_from_le_bytes;
use vstd::bytes::spec_u32_to_le_bytes;
use vstd::bytes::spec_u64_from_le_bytes;
use vstd::bytes::spec_u64_to_le_bytes;
use vstd::bytes::u32_from_le_bytes;
use vstd::bytes::u32_to_le_bytes;
use vstd::bytes::u64_from_le_bytes;
use vstd::bytes::u64_to_le_bytes;
use vstd::slice::slice_subrange;

use crate::kinds::ValueKind;
use crate::kinds::is_managed;
use crate::kinds::size_of_kind;
use crate::value::ValueModel;
use crate::value::kind_of;
use crate::value::valid_value;

verus! {

/// `buf` with the bytes starting at `off` replaced by `bs`.
pub open spec fn splice_bytes(buf: Seq<u8>, off: int, bs: Seq<u8>) -> Seq<u8>
    recommends
        0 <= off,
        off + bs.len() <= buf.len(),
{
    buf.subrange(0, off) + bs + buf.subrange(off + bs.len(), buf.len() as int)
}

/// Splicing keeps the length, writes `bs` at `off`, and changes no byte
/// outside `[off, off + bs.len())`.
pub proof fn lemma_splice_bytes(buf: Seq<u8>, off: int, bs: Seq<u8>)
    requires
        0 <= off,
        off + bs.len() <= buf.len(),
    ensures
        splice_bytes(buf, off, bs).len() == buf.len(),
        splice_bytes(buf, off, bs).subrange(off, off + bs.len()) =~= bs,
        forall|i: int|
            0 <= i < buf.len() && !(off <= i < off + bs.len()) ==> splice_bytes(buf, off, bs)[i]
                == buf[i],
{
}

/// Concatenation of the little-endian encodings of each word.
pub open spec fn enc_words(ws: Seq<u32>) -> Seq<u8>
    decreases ws.len(),
{
    if ws.len() == 0 {
        Seq::empty()
    } else {
        spec_u32_to_le_bytes(ws[0]) + enc_words(ws.drop_first())
    }
}

/// The words read back from a byte region, four bytes at a time.
pub open spec fn dec_words(bs: Seq<u8>) -> Seq<u32> {
    Seq::new(bs.len() / 4, |i: int| spec_u32_from_le_bytes(bs.subrange(4 * i, 4 * i + 4)))
}

/// Word encoding is four bytes per word and decodes back to the words.
pub proof fn lemma_words_round_trip(ws: Seq<u32>)
    ensures
        enc_words(ws).len() == 4 * ws.len(),
        dec_words(enc_words(ws)) =~= ws,
    decreases ws.len(),
{
    lemma_auto_spec_u32_to_from_le_bytes();
    if ws.len() > 0 {
        lemma_words_round_trip(ws.drop_first());
        let bs = enc_words(ws);
        let head = spec_u32_to_le_bytes(ws[0]);
        let tail = enc_words(ws.drop_first());
        assert forall|i: int| 0 <= i < ws.len() implies dec_words(bs)[i] == ws[i] by {
            if i == 0 {
                assert(bs.subrange(0, 4) =~= head);
            } else {
                assert(bs.subrange(4 * i, 4 * i + 4) =~= tail.subrange(
                    4 * (i - 1),
                    4 * (i - 1) + 4,
                ));
                assert(dec_words(tail)[i - 1] == ws.drop_first()[i - 1]);
            }
        }
    }
}

/// Byte encoding of a trivial value; managed values have no byte encoding
/// of their own (the record bytes hold a pool handle instead).
pub open spec fn enc_value(v: ValueModel) -> Seq<u8> {
    match v {
        ValueModel::Nil => Seq::empty(),
        ValueModel::Bool(b) => Seq::empty().push(
            if b {
                1u8
            } else {
                0u8
            },
        ),
        ValueModel::Int(i) => spec_u32_to_le_bytes(i as u32),
        ValueModel::Float(w) => spec_u32_to_le_bytes(w),
        ValueModel::Rid(r) => spec_u64_to_le_bytes(r),
        ValueModel::Composite(_, ws) => enc_words(ws),
        ValueModel::ObjectRef(_) => Seq::empty(),
        ValueModel::Managed(_, _) => Seq::empty(),
    }
}

/// The trivial value of kind `k` read back from its byte region.
pub open spec fn dec_trivial(k: ValueKind, bs: Seq<u8>) -> ValueModel {
    match k {
        ValueKind::Nil => ValueModel::Nil,
        ValueKind::Bool => ValueModel::Bool(bs[0] != 0),
        ValueKind::Int => ValueModel::Int(spec_u32_from_le_bytes(bs) as i32),
        ValueKind::Float => ValueModel::Float(spec_u32_from_le_bytes(bs)),
        ValueKind::Rid => ValueModel::Rid(spec_u64_from_le_bytes(bs)),
        _ => ValueModel::Composite(k, dec_words(bs)),
    }
}

/// The encoding of a well-formed trivial value has the size of its kind and
/// decodes back to the value.
pub proof fn lemma_trivial_round_trip(v: ValueModel)
    requires
        valid_value(v),
        !is_managed(kind_of(v)),
        kind_of(v) != ValueKind::Object,
    ensures
        enc_value(v).len() == size_of_kind(kind_of(v)),
        dec_trivial(kind_of(v), enc_value(v)) == v,
{
    lemma_auto_spec_u32_to_from_le_bytes();
    lemma_auto_spec_u64_to_from_le_bytes();
    match v {
        ValueModel::Int(i) => {
            assert(i as u32 as i32 == i) by (bit_vector);
        },
        ValueModel::Composite(k, ws) => {
            lemma_words_round_trip(ws);
        },
        _ => {},
    }
}

/// Appending a word appends its four-byte encoding.
pub proof fn lemma_enc_words_snoc(ws: Seq<u32>, w: u32)
    ensures
        enc_words(ws.push(w)) =~= enc_words(ws) + spec_u32_to_le_bytes(w),
    decreases ws.len(),
{
    lemma_auto_spec_u32_to_from_le_bytes();
    if ws.len() == 0 {
        reveal_with_fuel(enc_words, 3);
        assert(ws.push(w)[0] == w);
        assert(ws.push(w).drop_first() =~= Seq::<u32>::empty());
    } else {
        assert(ws.push(w)[0] == ws[0]);
        assert(ws.push(w).drop_first() =~= ws.drop_first().push(w));
        lemma_enc_words_snoc(ws.drop_first(), w);
    }
}

/// Write `src` over `buf` starting at `off`.
pub fn write_bytes(buf: &mut Vec<u8>, off: usize, src: &[u8])
    requires
        off + src@.len() <= old(buf)@.len(),
    ensures
        final(buf)@ =~= splice_bytes(old(buf)@, off as int, src@),
{
    let n = src.len();
    let total = buf.len();
    let mut i: usize = 0;
    while i < n
        invariant
            n == src@.len(),
            total == buf@.len(),
            off + n <= buf@.len(),
            buf@.len() == old(buf)@.len(),
            i <= n,
            forall|j: int| 0 <= j < i ==> buf@[off + j] == src@[j],
            forall|j: int| 0 <= j < buf@.len() && !(off <= j < off + i) ==> buf@[j] == old(buf)@[j],
        decreases n - i,
    {
        buf[off + i] = src[i];
        i = i + 1;
    }
    proof {
        lemma_splice_bytes(old(buf)@, off as int, src@);
        assert(buf@ =~= splice_bytes(old(buf)@, off as int, src@));
    }
}

/// The four bytes at `off`, as a little-endian word.
pub fn read_u32_at(buf: &Vec<u8>, off: usize) -> (w: u32)
    requires
        off + 4 <= buf@.len(),
    ensures
        w == spec_u32_from_le_bytes(buf@.subrange(off as int, off + 4)),
{
    let _l = buf.len();
    let bs = slice_subrange(buf.as_slice(), off, off + 4);
    u32_from_le_bytes(bs)
}

/// The eight bytes at `off`, as a little-endian word.
pub fn read_u64_at(buf: &Vec<u8>, off: usize) -> (w: u64)
    requires
        off + 8 <= buf@.len(),
    ensures
        w == spec_u64_from_le_bytes(buf@.subrange(off as int, off + 8)),
{
    let _l = buf.len();
    let bs = slice_subrange(buf.as_slice(), off, off + 8);
    u64_from_le_bytes(bs)
}

/// Write `w` little-endian over the four bytes at `off`.
pub fn write_u32_at(buf: &mut Vec<u8>, off: usize, w: u32)
    requires
        off + 4 <= old(buf)@.len(),
    ensures
        final(buf)@ =~= splice_bytes(old(buf)@, off as int, spec_u32_to_le_bytes(w)),
{
    let bs = u32_to_le_bytes(w);
    proof {
        lemma_auto_spec_u32_to_from_le_bytes();
    }
    write_bytes(buf, off, bs.as_slice());
}

/// The `n` words stored at `off`.
pub fn read_words(buf: &Vec<u8>, off: usize, n: usize) -> (ws: Vec<u32>)
    requires
        off + 4 * n <= buf@.len(),
    ensures
        ws@ =~= dec_words(buf@.subrange(off as int, off + 4 * n)),
        ws@.len() == n,
{
    let mut ws: Vec<u32> = Vec::new();
    let l = buf.len();
    let mut j: usize = 0;
    while j < n
        invariant
            l == buf@.len(),
            off + 4 * n <= l,
            j <= n,
            ws@.len() == j,
            forall|m: int|
                0 <= m < j ==> ws@[m] == spec_u32_from_le_bytes(
                    buf@.subrange(off + 4 * m, off + 4 * m + 4),
                ),
        decreases n - j,
    {
        let w = read_u32_at(buf, off + 4 * j);
        ws.push(w);
        j = j + 1;
    }
    proof {
        let fb = buf@.subrange(off as int, off + 4 * n);
        assert forall|m: int| 0 <= m < n implies ws@[m] == dec_words(fb)[m] by {
            assert(fb.subrange(4 * m, 4 * m + 4) =~= buf@.subrange(off + 4 * m, off + 4 * m + 4));
        }
        assert(ws@ =~= dec_words(fb));
    }
    ws
}

/// Write each word of `ws` at `off`, four bytes per word.
pub fn write_words(buf: &mut Vec<u8>, off: usize, ws: &Vec<u32>)
    requires
        off + 4 * ws@.len() <= old(buf)@.len(),
    ensures
        final(buf)@ =~= splice_bytes(old(buf)@, off as int, enc_words(ws@)),
{
    let n = ws.len();
    let l = buf.len();
    let mut j: usize = 0;
    while j < n
        invariant
            n == ws@.len(),
            l == buf@.len(),
            off + 4 * n <= l,
            buf@.len() == old(buf)@.len(),
            j <= n,
            buf@.subrange(off as int, off + 4 * j) =~= enc_words(ws@.take(j as int)),
            forall|m: int|
                0 <= m < buf@.len() && !(off <= m < off + 4 * j) ==> buf@[m] == old(buf)@[m],
        decreases n - j,
    {
        let ghost prev = buf@;
        write_u32_at(buf, off + 4 * j, ws[j]);
        proof {
            lemma_auto_spec_u32_to_from_le_bytes();
            lemma_splice_bytes(prev, off + 4 * j, spec_u32_to_le_bytes(ws@[j as int]));
            lemma_enc_words_snoc(ws@.take(j as int), ws@[j as int]);
            lemma_words_round_trip(ws@.take(j as int));
            assert(ws@.take(j + 1) =~= ws@.take(j as int).push(ws@[j as int]));
            assert(buf@.subrange(off as int, off + 4 * (j + 1)) =~= enc_words(ws@.take(j + 1)));
        }
        j = j + 1;
    }
    proof {
        lemma_words_round_trip(ws@);
        lemma_splice_bytes(old(buf)@, off as int, enc_words(ws@));
        assert(ws@.take(n as int) =~= ws@);
        assert(buf@ =~= splice_bytes(old(buf)@, off as int, enc_words(ws@)));
    }
}

/// Write `w` little-endian over the eight bytes at `off`.
pub fn write_u64_at(buf: &mut Vec<u8>, off: usize, w: u64)
    requires
        off + 8 <= old(buf)@.len(),
    ensures
        final(buf)@ =~= splice_bytes(old(buf)@, off as int, spec_u64_to_le_bytes(w)),
{
    let bs = u64_to_le_bytes(w);
    proof {
        lemma_auto_spec_u64_to_from_le_bytes();
    }
    write_bytes(buf, off, bs.as_slice());
}

} // verus!
