//! The chunk table and the reassembly of entries stored as runs of chunks.
use crate::bytes::{get_u32, le_u32, ByteReader};
use crate::compression::{zstd_decode, zstd_decode_of};
use crate::error::PakError;
use vstd::prelude::*;

verus! {

/// The `meta` word of a chunk stored raw.
pub const RAW_CHUNK_META: u32 = 0x2000_0000;

/// One chunk: where its bytes start in the file, and its `meta` word.
#[derive(Debug, Clone, Copy, PartialEq, Eq)]
pub struct ChunkDesc {
    pub start: u64,
    pub meta: u32,
}

/// Bytes a chunk takes on disk.
pub open spec fn compressed_len_of(c: ChunkDesc, block_size: u32) -> u32 {
    if c.meta == RAW_CHUNK_META {
        block_size
    } else {
        c.meta >> 10
    }
}

impl ChunkDesc {
    pub fn start(&self) -> (r: u64)
        ensures
            r == self.start,
    {
        self.start
    }

    pub fn meta(&self) -> (r: u32)
        ensures
            r == self.meta,
    {
        self.meta
    }

    /// Whether the chunk is stored uncompressed.
    pub fn is_raw(&self) -> (r: bool)
        ensures
            r == (self.meta == RAW_CHUNK_META),
    {
        self.meta == RAW_CHUNK_META
    }

    /// Bytes the chunk takes on disk: a whole block when raw, else `meta >> 10`.
    pub fn compressed_len(&self, block_size: u32) -> (r: u32)
        ensures
            r == compressed_len_of(*self, block_size),
    {
        if self.is_raw() {
            block_size
        } else {
            self.meta >> 10
        }
    }
}

/// The chunk table: a block size (never zero) and the chunks in index order.
#[derive(Debug, Clone)]
pub struct ChunkTable {
    pub block_size: u32,
    pub chunks: Vec<ChunkDesc>,
}

impl ChunkTable {
    pub fn block_size(&self) -> (r: u32)
        ensures
            r == self.block_size,
    {
        self.block_size
    }

    pub fn chunks(&self) -> (r: &[ChunkDesc])
        ensures
            r@ == self.chunks@,
    {
        self.chunks.as_slice()
    }
}

/// How many times the low start words fall from one chunk to the next, up to chunk `i`.
pub open spec fn wraps_before(lows: Seq<u32>, i: int) -> nat
    decreases i,
{
    if i <= 0 {
        0
    } else {
        wraps_before(lows, i - 1) + if lows[i] < lows[i - 1] {
            1nat
        } else {
            0nat
        }
    }
}

/// The 64-bit start of chunk `i`: its low word under a high word that grows by one each
/// time the low word wraps.
pub open spec fn chunk_start(lows: Seq<u32>, i: int) -> u64 {
    ((wraps_before(lows, i) % 0x1_0000_0000) * 0x1_0000_0000 + lows[i]) as u64
}

/// The low start words of the `n` chunk records in `recs`.
pub open spec fn record_lows(recs: Seq<u8>, n: nat) -> Seq<u32> {
    Seq::new(n, |i: int| le_u32(recs, 8 * i))
}

/// The chunks that `n` records describe.
pub open spec fn chunks_of(recs: Seq<u8>, n: nat) -> Seq<ChunkDesc> {
    Seq::new(
        n,
        |i: int| ChunkDesc { start: chunk_start(record_lows(recs, n), i), meta: le_u32(recs, 8 * i + 4) },
    )
}

/// Reads a chunk table: block size, count, then `(start_low, meta)` pairs. A zero block
/// size is refused.
pub fn read_chunk_table(reader: &mut ByteReader) -> (r: Result<ChunkTable, PakError>)
    requires
        old(reader).wf(),
    ensures
        final(reader).wf(),
        final(reader).data() == old(reader).data(),
        ({
            let d = old(reader).data();
            let p = old(reader).pos() as int;
            let bs = le_u32(d, p);
            let n = le_u32(d, p + 4);
            &&& old(reader).left() < 8 ==> r == Err::<ChunkTable, PakError>(PakError::UnexpectedEof)
            &&& old(reader).left() >= 8 && old(reader).left() < 8 + 8 * n ==> r == Err::<
                ChunkTable,
                PakError,
            >(PakError::UnexpectedEof)
            &&& old(reader).left() >= 8 + 8 * n && bs == 0 ==> r == Err::<ChunkTable, PakError>(
                PakError::ZeroBlockSize,
            )
            &&& old(reader).left() >= 8 + 8 * n && bs != 0 ==> r is Ok && r->Ok_0.block_size == bs
                && r->Ok_0.chunks@ == chunks_of(d.subrange(p + 8, p + 8 + 8 * n), n as nat)
                && final(reader).pos() == p + 8 + 8 * n
        }),
{
    let ghost d = reader.data();
    let ghost p = reader.pos() as int;
    let block_size = match reader.read_u32() {
        Ok(v) => v,
        Err(e) => {
            return Err(e);
        },
    };
    let count = match reader.read_u32() {
        Ok(v) => v,
        Err(e) => {
            return Err(e);
        },
    };
    let recs_len = 8 * count as u64;
    if recs_len > (reader.data_len() - reader.position()) as u64 {
        return Err(PakError::UnexpectedEof);
    }
    let recs = match reader.read_bytes(recs_len as usize) {
        Ok(b) => b,
        Err(e) => {
            return Err(e);
        },
    };
    if block_size == 0 {
        return Err(PakError::ZeroBlockSize);
    }
    let ghost lows = record_lows(recs@, count as nat);
    let n = count as usize;
    let rl = recs.len();
    let mut chunks: Vec<ChunkDesc> = Vec::new();
    let mut wraps: u32 = 0;
    let mut prev: u32 = if n > 0 {
        get_u32(recs, 0)
    } else {
        0
    };
    let mut i: usize = 0;
    while i < n
        invariant
            n == count,
            rl == recs@.len(),
            recs@.len() == 8 * n,
            lows == record_lows(recs@, count as nat),
            i <= n,
            chunks@.len() == i,
            wraps == (wraps_before(lows, i - 1) % 0x1_0000_0000),
            i > 0 ==> prev == lows[i - 1],
            i == 0 && n > 0 ==> prev == lows[0],
            forall|j: int| 0 <= j < i ==> chunks@[j] == #[trigger] chunks_of(recs@, n as nat)[j],
        decreases n - i,
    {
        let low = get_u32(recs, 8 * i);
        let meta = get_u32(recs, 8 * i + 4);
        if low < prev {
            wraps = if wraps == 0xFFFF_FFFF {
                0
            } else {
                wraps + 1
            };
        }
        proof {
            assert(lows[i as int] == low);
            if i > 0 {
                assert(wraps_before(lows, i as int) == wraps_before(lows, i - 1) + if low < prev {
                    1nat
                } else {
                    0nat
                });
            }
        }
        let start = (wraps as u64) * 0x1_0000_0000 + low as u64;
        let c = ChunkDesc { start, meta };
        assert(c == chunks_of(recs@, n as nat)[i as int]);
        chunks.push(c);
        prev = low;
        i += 1;
    }
    assert(chunks@ =~= chunks_of(recs@, n as nat));
    proof {
        assert(recs@ =~= d.subrange(p + 8, p + 8 + 8 * count));
    }
    Ok(ChunkTable { block_size, chunks })
}

} // verus!

verus! {

/// The block that chunk `c` decodes to, from the file bytes `src`: its on-disk bytes,
/// taken raw or zstd-decoded, when they lie in `src` and come to exactly one block.
pub open spec fn chunk_block(src: Seq<u8>, c: ChunkDesc, bs: u32) -> Option<Seq<u8>> {
    let len = compressed_len_of(c, bs);
    if c.start + len > src.len() {
        None
    } else {
        let b = src.subrange(c.start as int, c.start + len);
        let out = if c.meta == RAW_CHUNK_META {
            Some(b)
        } else {
            zstd_decode_of(b)
        };
        match out {
            Some(o) => if o.len() == bs {
                Some(o)
            } else {
                None
            },
            None => None,
        }
    }
}

/// How many blocks cover `len` bytes.
pub open spec fn blocks_needed(len: u64, bs: u32) -> int {
    len / (bs as u64) + if len % (bs as u64) != 0 {
        1int
    } else {
        0int
    }
}

/// The first `k` blocks from chunk `start` on, concatenated.
pub open spec fn blocks_concat(
    src: Seq<u8>,
    chunks: Seq<ChunkDesc>,
    bs: u32,
    start: int,
    k: int,
) -> Seq<u8>
    decreases k,
{
    if k <= 0 {
        seq![]
    } else {
        blocks_concat(src, chunks, bs, start, k - 1) + chunk_block(
            src,
            chunks[start + k - 1],
            bs,
        )->0
    }
}

/// Whether the first `k` blocks from chunk `start` on all decode.
pub open spec fn blocks_decode(
    src: Seq<u8>,
    chunks: Seq<ChunkDesc>,
    bs: u32,
    start: int,
    k: int,
) -> bool {
    forall|i: int| 0 <= i < k ==> (#[trigger] chunk_block(src, chunks[start + i], bs)) is Some
}

/// The payload of a chunked entry: the blocks that cover `len` bytes from chunk `start`
/// on, cut to `len` bytes.
pub open spec fn chunked_payload(
    src: Seq<u8>,
    chunks: Seq<ChunkDesc>,
    bs: u32,
    start: int,
    len: u64,
) -> Seq<u8> {
    blocks_concat(src, chunks, bs, start, blocks_needed(len, bs)).take(len as int)
}

/// Whether the span of a chunked entry fits the table: a nonzero block size and, for a
/// nonempty entry, a starting index inside the table with enough chunks after it to
/// cover `len` bytes.
pub open spec fn chunk_span_fits(chunks: Seq<ChunkDesc>, bs: u32, start: u64, len: u64) -> bool {
    &&& bs != 0
    &&& len > 0 ==> start < chunks.len() && start + blocks_needed(len, bs) <= chunks.len()
}

/// Checks the span of a chunked entry before any chunk is read.
pub fn check_chunk_span(table: &ChunkTable, start: u64, len: u64) -> (r: Result<(), PakError>)
    ensures
        r is Ok <==> chunk_span_fits(table.chunks@, table.block_size, start, len),
        table.block_size == 0 ==> r == Err::<(), PakError>(PakError::ZeroBlockSize),
        table.block_size != 0 && !chunk_span_fits(table.chunks@, table.block_size, start, len)
            ==> r matches Err(PakError::InvalidChunkIndex(_)),
{
    let bs = table.block_size as u64;
    if bs == 0 {
        return Err(PakError::ZeroBlockSize);
    }
    let n = table.chunks.len() as u64;
    if len > 0 {
        if start >= n {
            return Err(PakError::InvalidChunkIndex(start));
        }
        proof {
            lemma_needed_fits(len, bs);
        }
        let needed = len / bs + if len % bs != 0 {
            1
        } else {
            0
        };
        if needed > n - start {
            let end = if needed > u64::MAX - start {
                u64::MAX
            } else {
                start + needed
            };
            return Err(PakError::InvalidChunkIndex(end));
        }
    }
    Ok(())
}

/// The rounded-up block count does not overflow.
proof fn lemma_needed_fits(len: u64, bs: u64)
    requires
        bs > 0,
    ensures
        len % bs != 0 ==> len / bs < u64::MAX,
        len == 0 ==> len / bs == 0 && len % bs == 0,
{
    if len % bs != 0 {
        assert(bs >= 2);
        vstd::arithmetic::div_mod::lemma_div_is_ordered_by_denominator(len as int, 2, bs as int);
    }
    if len == 0 {
        assert(len / bs == 0 && len % bs == 0) by (nonlinear_arith)
            requires
                len == 0,
                bs > 0,
        ;
    }
}

/// Enough whole blocks cover the length.
proof fn lemma_blocks_cover(len: u64, bs: u32)
    requires
        bs > 0,
    ensures
        blocks_needed(len, bs) * bs >= len,
        blocks_needed(len, bs) >= 0,
{
    let q = len / (bs as u64);
    let r = len % (bs as u64);
    assert(len == q * bs + r) by (nonlinear_arith)
        requires
            q == len / (bs as u64),
            r == len % (bs as u64),
            bs > 0,
    ;
    assert(blocks_needed(len, bs) * bs >= len) by (nonlinear_arith)
        requires
            len == q * bs + r,
            0 <= r < bs,
            blocks_needed(len, bs) == q + if r != 0 {
                1int
            } else {
                0int
            },
    ;
}

/// The concatenation of `k` decoded blocks is `k` blocks long.
proof fn lemma_concat_len(src: Seq<u8>, chunks: Seq<ChunkDesc>, bs: u32, start: int, k: int)
    requires
        k >= 0,
        blocks_decode(src, chunks, bs, start, k),
    ensures
        blocks_concat(src, chunks, bs, start, k).len() == k * bs,
    decreases k,
{
    if k > 0 {
        let i = k - 1;
        assert(chunk_block(src, chunks[start + i], bs) is Some);
        assert(chunk_block(src, chunks[start + i], bs)->0.len() == bs);
        assert(blocks_concat(src, chunks, bs, start, k) == blocks_concat(src, chunks, bs, start, k - 1)
            + chunk_block(src, chunks[start + i], bs)->0);
        lemma_concat_len(src, chunks, bs, start, k - 1);
        assert((k - 1) * bs + bs == k * bs) by (nonlinear_arith);
        assert(blocks_concat(src, chunks, bs, start, k).len() == k * bs);
    } else {
        assert(k * bs == 0) by (nonlinear_arith)
            requires
                k == 0,
        ;
    }
}

/// Decodes chunk `c` of a source into one block.
fn decode_chunk(source: &[u8], c: ChunkDesc, bs: u32, index: u64) -> (r: Result<Vec<u8>, PakError>)
    ensures
        match r {
            Ok(v) => chunk_block(source@, c, bs) == Some(v@),
            Err(_) => chunk_block(source@, c, bs) is None,
        },
{
    let clen = c.compressed_len(bs) as u64;
    let n = source.len() as u64;
    if c.start > n || clen > n - c.start {
        return Err(
            PakError::ChunkOutOfRange {
                index,
                start: c.start,
                end: if clen > u64::MAX - c.start {
                    u64::MAX
                } else {
                    c.start + clen
                },
                file_size: n,
            },
        );
    }
    let b = vstd::slice::slice_subrange(source, c.start as usize, (c.start + clen) as usize);
    let out = if c.is_raw() {
        let mut v: Vec<u8> = Vec::new();
        crate::bytes::extend_bytes(&mut v, b);
        assert(v@ =~= b@);
        v
    } else {
        match zstd_decode(b) {
            Ok(v) => v,
            Err(message) => {
                return Err(PakError::ChunkDecode { index, message });
            },
        }
    };
    if out.len() as u64 != bs as u64 {
        return Err(PakError::ChunkSize { index, got: out.len() as u64, block_size: bs as u64 });
    }
    Ok(out)
}

/// Reads a chunked entry of `len` bytes starting at chunk `start` from the file bytes
/// `source`: the blocks that cover `len`, in index order, cut to `len` bytes.
pub fn read_chunked(source: &[u8], table: &ChunkTable, start: u64, len: u64) -> (r: Result<
    Vec<u8>,
    PakError,
>)
    ensures
        !chunk_span_fits(table.chunks@, table.block_size, start, len) ==> r is Err,
        chunk_span_fits(table.chunks@, table.block_size, start, len) ==> (r is Ok <==> blocks_decode(
            source@,
            table.chunks@,
            table.block_size,
            start as int,
            blocks_needed(len, table.block_size),
        )),
        r is Ok ==> r->Ok_0@ == chunked_payload(
            source@,
            table.chunks@,
            table.block_size,
            start as int,
            len,
        ) && r->Ok_0@.len() == len,
{
    match check_chunk_span(table, start, len) {
        Ok(()) => {},
        Err(e) => {
            return Err(e);
        },
    }
    let bs = table.block_size;
    proof {
        lemma_needed_fits(len, bs as u64);
    }
    let needed = len / (bs as u64) + if len % (bs as u64) != 0 {
        1
    } else {
        0
    };
    let ghost chunks = table.chunks@;
    let nchunks = table.chunks.len();
    let mut out: Vec<u8> = Vec::new();
    let mut k: u64 = 0;
    while k < needed
        invariant
            chunks == table.chunks@,
            bs == table.block_size,
            bs > 0,
            needed == blocks_needed(len, bs),
            chunk_span_fits(chunks, bs, start, len),
            needed == 0 || start + needed <= chunks.len(),
            nchunks == chunks.len(),
            k <= needed,
            out@ == blocks_concat(source@, chunks, bs, start as int, k as int),
            blocks_decode(source@, chunks, bs, start as int, k as int),
        decreases needed - k,
    {
        assert(start + k < nchunks);
        let idx = start + k;
        let c = table.chunks[idx as usize];
        assert(c == chunks[start + k]);
        match decode_chunk(source, c, bs, idx) {
            Ok(block) => {
                crate::bytes::extend_bytes(&mut out, block.as_slice());
            },
            Err(e) => {
                assert(chunk_block(source@, chunks[start + k], bs) is None);
                return Err(e);
            },
        }
        k += 1;
        assert(blocks_decode(source@, chunks, bs, start as int, k as int)) by {
            assert forall|i: int| 0 <= i < k implies (#[trigger] chunk_block(
                source@,
                chunks[start + i],
                bs,
            )) is Some by {
                if i == k - 1 {
                    assert(chunks[start + i] == c);
                }
            }
        }
    }
    proof {
        lemma_blocks_cover(len, bs);
        lemma_concat_len(source@, chunks, bs, start as int, needed as int);
    }
    out.truncate(len as usize);
    Ok(out)
}

} // verus!
