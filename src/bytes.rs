//! Little-endian integers and a bounds-checked cursor over a byte slice.
use crate::error::PakError;
use vstd::prelude::*;

verus! {

/// The two little-endian bytes of a `u16`.
pub open spec fn u16_bytes(v: u16) -> Seq<u8> {
    seq![(v % 256) as u8, (v / 256) as u8]
}

/// The four little-endian bytes of a `u32`.
pub open spec fn u32_bytes(v: u32) -> Seq<u8> {
    seq![
        (v % 256) as u8,
        ((v / 0x100) % 256) as u8,
        ((v / 0x1_0000) % 256) as u8,
        (v / 0x100_0000) as u8,
    ]
}

/// The eight little-endian bytes of a `u64`.
pub open spec fn u64_bytes(v: u64) -> Seq<u8> {
    u32_bytes((v % 0x1_0000_0000) as u32) + u32_bytes((v / 0x1_0000_0000) as u32)
}

/// The `u16` whose little-endian bytes start at `at`.
pub open spec fn le_u16(b: Seq<u8>, at: int) -> u16 {
    (b[at] + 256 * b[at + 1]) as u16
}

/// The `u32` whose little-endian bytes start at `at`.
pub open spec fn le_u32(b: Seq<u8>, at: int) -> u32 {
    (b[at] + 0x100 * b[at + 1] + 0x1_0000 * b[at + 2] + 0x100_0000 * b[at + 3]) as u32
}

/// The `u64` whose little-endian bytes start at `at`.
pub open spec fn le_u64(b: Seq<u8>, at: int) -> u64 {
    (le_u32(b, at) + 0x1_0000_0000 * le_u32(b, at + 4)) as u64
}

pub proof fn lemma_u16_round_trip(v: u16)
    ensures
        le_u16(u16_bytes(v), 0) == v,
{
}

pub proof fn lemma_u32_round_trip(v: u32)
    ensures
        le_u32(u32_bytes(v), 0) == v,
{
}

pub proof fn lemma_u64_round_trip(v: u64)
    ensures
        le_u64(u64_bytes(v), 0) == v,
{
    lemma_u32_round_trip((v % 0x1_0000_0000) as u32);
    lemma_u32_round_trip((v / 0x1_0000_0000) as u32);
    let s = u64_bytes(v);
    assert(s.subrange(0, 4) =~= u32_bytes((v % 0x1_0000_0000) as u32));
    assert(s.subrange(4, 8) =~= u32_bytes((v / 0x1_0000_0000) as u32));
    assert(le_u32(s, 0) == le_u32(s.subrange(0, 4), 0));
    assert(le_u32(s, 4) == le_u32(s.subrange(4, 8), 0));
}

/// Bytes read as an integer and written back are the same bytes.
pub proof fn lemma_le_u16_bytes(b: Seq<u8>, at: int)
    requires
        0 <= at && at + 2 <= b.len(),
    ensures
        u16_bytes(le_u16(b, at)) == b.subrange(at, at + 2),
{
    assert(u16_bytes(le_u16(b, at)) =~= b.subrange(at, at + 2));
}

pub proof fn lemma_le_u32_bytes(b: Seq<u8>, at: int)
    requires
        0 <= at && at + 4 <= b.len(),
    ensures
        u32_bytes(le_u32(b, at)) == b.subrange(at, at + 4),
{
    lemma_bytes_of_word(b[at], b[at + 1], b[at + 2], b[at + 3]);
    assert(u32_bytes(le_u32(b, at)) =~= b.subrange(at, at + 4));
}

/// The bytes of a word made of four bytes are those bytes.
proof fn lemma_bytes_of_word(b0: u8, b1: u8, b2: u8, b3: u8)
    ensures
        ({
            let v = (b0 + 0x100 * b1 + 0x1_0000 * b2 + 0x100_0000 * b3) as u32;
            &&& (v % 256) as u8 == b0
            &&& ((v / 0x100) % 256) as u8 == b1
            &&& ((v / 0x1_0000) % 256) as u8 == b2
            &&& (v / 0x100_0000) as u8 == b3
        }),
{
}

pub proof fn lemma_le_u64_bytes(b: Seq<u8>, at: int)
    requires
        0 <= at && at + 8 <= b.len(),
    ensures
        u64_bytes(le_u64(b, at)) == b.subrange(at, at + 8),
{
    lemma_le_u32_bytes(b, at);
    lemma_le_u32_bytes(b, at + 4);
    let v = le_u64(b, at);
    assert((v % 0x1_0000_0000) as u32 == le_u32(b, at));
    assert((v / 0x1_0000_0000) as u32 == le_u32(b, at + 4));
    assert(u64_bytes(v) =~= b.subrange(at, at + 8));
}

/// Appends the little-endian bytes of `v`.
pub fn push_u16(out: &mut Vec<u8>, v: u16)
    ensures
        final(out)@ == old(out)@ + u16_bytes(v),
{
    out.push((v % 256) as u8);
    out.push((v / 256) as u8);
    assert(final(out)@ =~= old(out)@ + u16_bytes(v));
}

pub fn push_u32(out: &mut Vec<u8>, v: u32)
    ensures
        final(out)@ == old(out)@ + u32_bytes(v),
{
    out.push((v % 256) as u8);
    out.push(((v / 0x100) % 256) as u8);
    out.push(((v / 0x1_0000) % 256) as u8);
    out.push((v / 0x100_0000) as u8);
    assert(final(out)@ =~= old(out)@ + u32_bytes(v));
}

pub fn push_u64(out: &mut Vec<u8>, v: u64)
    ensures
        final(out)@ == old(out)@ + u64_bytes(v),
{
    push_u32(out, (v % 0x1_0000_0000) as u32);
    push_u32(out, (v / 0x1_0000_0000) as u32);
    assert(final(out)@ =~= old(out)@ + u64_bytes(v));
}

/// Appends the bytes of `b`.
pub fn extend_bytes(out: &mut Vec<u8>, b: &[u8])
    ensures
        final(out)@ == old(out)@ + b@,
{
    let mut i: usize = 0;
    while i < b.len()
        invariant
            i <= b@.len(),
            out@ == old(out)@ + b@.take(i as int),
        decreases b@.len() - i,
    {
        out.push(b[i]);
        i += 1;
        assert(out@ =~= old(out)@ + b@.take(i as int));
    }
    assert(b@.take(i as int) =~= b@);
}

/// The `u16` at `at`.
pub fn get_u16(b: &[u8], at: usize) -> (r: u16)
    requires
        at + 2 <= b@.len(),
    ensures
        r == le_u16(b@, at as int),
{
    (b[at] as u16) + 256 * (b[at + 1] as u16)
}

/// The `u32` at `at`.
pub fn get_u32(b: &[u8], at: usize) -> (r: u32)
    requires
        at + 4 <= b@.len(),
    ensures
        r == le_u32(b@, at as int),
{
    (b[at] as u32) + 0x100 * (b[at + 1] as u32) + 0x1_0000 * (b[at + 2] as u32) + 0x100_0000 * (
    b[at + 3] as u32)
}

/// The `u64` at `at`.
pub fn get_u64(b: &[u8], at: usize) -> (r: u64)
    requires
        at + 8 <= b@.len(),
    ensures
        r == le_u64(b@, at as int),
{
    let _len = b.len();
    let lo = get_u32(b, at) as u64;
    let hi = get_u32(b, at + 4) as u64;
    lo + 0x1_0000_0000 * hi
}

/// A cursor over a byte slice; every read checks that the bytes are there.
pub struct ByteReader<'a> {
    data: &'a [u8],
    pos: usize,
}

impl<'a> ByteReader<'a> {
    /// All the bytes under the cursor.
    pub closed spec fn data(&self) -> Seq<u8> {
        self.data@
    }

    /// The cursor's position.
    pub closed spec fn pos(&self) -> nat {
        self.pos as nat
    }

    pub closed spec fn wf(&self) -> bool {
        self.pos <= self.data@.len()
    }

    /// How many bytes are left after the cursor.
    pub open spec fn left(&self) -> int {
        self.data().len() - self.pos() as int
    }

    pub fn new(data: &'a [u8]) -> (r: Self)
        ensures
            r.wf(),
            r.data() == data@,
            r.pos() == 0,
    {
        ByteReader { data, pos: 0 }
    }

    /// How many bytes are under the cursor in all.
    pub fn data_len(&self) -> (r: usize)
        requires
            self.wf(),
        ensures
            r == self.data().len(),
            r >= self.pos(),
    {
        self.data.len()
    }

    /// The cursor's position.
    pub fn position(&self) -> (r: usize)
        requires
            self.wf(),
        ensures
            r == self.pos(),
    {
        self.pos
    }

    /// Takes the next `n` bytes; fails, without moving, when fewer are left.
    pub fn read_bytes(&mut self, n: usize) -> (r: Result<&'a [u8], PakError>)
        requires
            old(self).wf(),
        ensures
            final(self).wf(),
            final(self).data() == old(self).data(),
            n <= old(self).left() ==> r is Ok && r->Ok_0@ == old(self).data().subrange(
                old(self).pos() as int,
                old(self).pos() + n,
            ) && final(self).pos() == old(self).pos() + n,
            n > old(self).left() ==> r == Err::<&[u8], PakError>(PakError::UnexpectedEof)
                && final(self).pos() == old(self).pos(),
    {
        if n > self.data.len() - self.pos {
            return Err(PakError::UnexpectedEof);
        }
        let s = vstd::slice::slice_subrange(self.data, self.pos, self.pos + n);
        self.pos = self.pos + n;
        Ok(s)
    }

    pub fn read_u32(&mut self) -> (r: Result<u32, PakError>)
        requires
            old(self).wf(),
        ensures
            final(self).wf(),
            final(self).data() == old(self).data(),
            4 <= old(self).left() ==> r == Ok::<u32, PakError>(
                le_u32(old(self).data(), old(self).pos() as int),
            ) && final(self).pos() == old(self).pos() + 4,
            4 > old(self).left() ==> r == Err::<u32, PakError>(PakError::UnexpectedEof)
                && final(self).pos() == old(self).pos(),
    {
        let b = self.read_bytes(4)?;
        Ok(get_u32(b, 0))
    }
}

} // verus!
