//! The per-entry decoding pipeline: locate the bytes, decrypt, decompress, and sniff
//! the first eight bytes for an extension.
use crate::bytes::{extend_bytes, le_u32, le_u64};
use crate::chunk::{
    blocks_decode, blocks_needed, chunk_span_fits, chunked_payload, read_chunked, ChunkTable,
};
use crate::cipher::{blocks_plain, decrypt_resource_data, has_zero_divisor, trim_zeros};
use crate::compression::{
    decompress_deflate, decompress_zstd, deflate_decode_of, zstd_decode_of,
};
use crate::error::PakError;
use crate::extension::{extension_for_magic, extension_of};
use crate::pak::{
    compression_kind_of, CompressionKind, EncryptionType, PakEntry, ATTR_CHUNK_INDEX,
};
use vstd::prelude::*;

verus! {

/// Whether payloads of this kind go through the decryptor.
pub open spec fn is_encrypted_kind(e: EncryptionType) -> bool {
    e != EncryptionType::Unencrypted && e != EncryptionType::TypeInvalid
}

/// The decrypted payload, or `None` where decryption fails.
pub open spec fn decrypted_of(raw: Seq<u8>, e: EncryptionType) -> Option<Seq<u8>> {
    if !is_encrypted_kind(e) {
        Some(raw)
    } else if raw.len() < 8 || has_zero_divisor(raw.skip(8)) {
        None
    } else {
        Some(trim_zeros(blocks_plain(raw.skip(8), ((raw.len() - 8) / 128) as nat)))
    }
}

/// The decompressed payload, or `None` where decompression fails.
pub open spec fn decompressed_of(data: Seq<u8>, kind: CompressionKind) -> Option<Seq<u8>> {
    match kind {
        CompressionKind::Store => Some(data),
        CompressionKind::Deflate => deflate_decode_of(data),
        CompressionKind::Zstd => zstd_decode_of(data),
    }
}

/// An entry's content from its stored bytes: decrypted, then decompressed.
pub open spec fn entry_payload(raw: Seq<u8>, e: PakEntry) -> Option<Seq<u8>> {
    match decrypted_of(raw, e.encryption_type) {
        Some(d) => decompressed_of(d, compression_kind_of(e.compression_type.bits)),
        None => None,
    }
}

/// A payload in memory that is decrypted in one go on first use.
pub struct EncryptedReader {
    reader: Vec<u8>,
    encryption: EncryptionType,
    buffer: Vec<u8>,
    has_decrypted: bool,
}

impl EncryptedReader {
    /// The stored bytes.
    pub closed spec fn source(&self) -> Seq<u8> {
        self.reader@
    }

    pub closed spec fn kind(&self) -> EncryptionType {
        self.encryption
    }

    /// The plaintext decrypted so far.
    pub closed spec fn buffered(&self) -> Seq<u8> {
        self.buffer@
    }

    pub fn new(reader: Vec<u8>, encryption: EncryptionType) -> (r: Self)
        ensures
            r.source() == reader@,
            r.kind() == encryption,
            r.buffered() == Seq::<u8>::empty(),
    {
        EncryptedReader { reader, encryption, buffer: Vec::new(), has_decrypted: false }
    }

    /// Whether the payload goes through the decryptor: kinds 1 to 4. An invalid kind
    /// passes the bytes through.
    pub fn is_encrypted(&self) -> (r: bool)
        ensures
            r == is_encrypted_kind(self.kind()),
    {
        self.encryption.is_encrypted()
    }

    /// Decrypts the whole payload into the buffer.
    pub fn decrypt_fill_buf(&mut self) -> (r: Result<(), PakError>)
        ensures
            final(self).source() == old(self).source(),
            final(self).kind() == old(self).kind(),
            ({
                let body = old(self).source();
                if body.len() < 8 || has_zero_divisor(body.skip(8)) {
                    r is Err && final(self).buffered() == old(self).buffered()
                } else {
                    r is Ok && final(self).buffered() == old(self).buffered() + trim_zeros(
                        blocks_plain(body.skip(8), ((body.len() - 8) / 128) as nat),
                    )
                }
            }),
    {
        self.has_decrypted = true;
        match decrypt_resource_data(self.reader.as_slice()) {
            Ok(v) => {
                extend_bytes(&mut self.buffer, v.as_slice());
                Ok(())
            },
            Err(e) => Err(e),
        }
    }

    /// The plain payload: the stored bytes when not encrypted, else their decryption.
    pub fn into_plain(self) -> (r: Result<Vec<u8>, PakError>)
        ensures
            match r {
                Ok(v) => decrypted_of(self.source(), self.kind()) == Some(v@),
                Err(_) => decrypted_of(self.source(), self.kind()) is None,
            },
    {
        if !self.is_encrypted() {
            return Ok(self.reader);
        }
        decrypt_resource_data(self.reader.as_slice())
    }
}

/// Decrypts and decompresses an entry's stored bytes.
pub fn decode_entry(raw: &[u8], entry: &PakEntry) -> (r: Result<Vec<u8>, PakError>)
    ensures
        match r {
            Ok(v) => entry_payload(raw@, *entry) == Some(v@),
            Err(_) => entry_payload(raw@, *entry) is None,
        },
{
    let mut copy: Vec<u8> = Vec::new();
    extend_bytes(&mut copy, raw);
    assert(copy@ =~= raw@);
    let plain = match EncryptedReader::new(copy, entry.encryption_type).into_plain() {
        Ok(v) => v,
        Err(e) => {
            return Err(e);
        },
    };
    let bits = entry.compression_type.bits;
    match entry.compression_type.kind() {
        CompressionKind::Store => Ok(plain),
        CompressionKind::Deflate => match decompress_deflate(plain.as_slice()) {
            Ok(v) => Ok(v),
            Err(crate::compression::CompressionError::IO(message)) => Err(
                PakError::Decompression { compression: bits, message },
            ),
        },
        CompressionKind::Zstd => match decompress_zstd(plain.as_slice()) {
            Ok(v) => Ok(v),
            Err(crate::compression::CompressionError::IO(message)) => Err(
                PakError::Decompression { compression: bits, message },
            ),
        },
    }
}

/// Where an entry's stored bytes come from.
#[derive(Debug, Clone, Copy, PartialEq, Eq)]
pub enum EntrySource {
    /// The byte range `[start, end)` of the file.
    Range { start: u64, end: u64 },
    /// `len` bytes reassembled from chunks, starting at chunk `start_chunk`.
    Chunks { start_chunk: u64, len: u64 },
}

/// How many bytes a chunked entry holds: its uncompressed size, or its compressed size
/// when the former is zero.
pub open spec fn chunked_len(e: PakEntry) -> u64 {
    if e.uncompressed_size != 0 {
        e.uncompressed_size
    } else {
        e.compressed_size
    }
}

/// Whether an entry's offset is a chunk index.
pub open spec fn is_chunked(e: PakEntry) -> bool {
    e.unk_attr.bits & ATTR_CHUNK_INDEX != 0
}

/// Decides where an entry's bytes come from, given whether the archive has a chunk
/// table and how long the file is.
pub fn entry_source(entry: &PakEntry, has_chunk_table: bool, file_size: u64) -> (r: Result<
    EntrySource,
    PakError,
>)
    ensures
        is_chunked(*entry) && !has_chunk_table ==> r == Err::<EntrySource, PakError>(
            PakError::MissingChunkTable,
        ),
        is_chunked(*entry) && has_chunk_table ==> r == Ok::<EntrySource, PakError>(
            EntrySource::Chunks { start_chunk: entry.offset, len: chunked_len(*entry) },
        ),
        !is_chunked(*entry) && entry.offset + entry.compressed_size <= file_size ==> r == Ok::<
            EntrySource,
            PakError,
        >(
            EntrySource::Range {
                start: entry.offset,
                end: (entry.offset + entry.compressed_size) as u64,
            },
        ),
        !is_chunked(*entry) && entry.offset + entry.compressed_size > file_size ==> r == Err::<
            EntrySource,
            PakError,
        >(
            PakError::InvalidEntryRange {
                offset: entry.offset,
                size: entry.compressed_size,
                file_size,
            },
        ),
{
    if entry.offset_is_chunk_index() {
        if !has_chunk_table {
            return Err(PakError::MissingChunkTable);
        }
        let len = if entry.uncompressed_size != 0 {
            entry.uncompressed_size
        } else {
            entry.compressed_size
        };
        Ok(EntrySource::Chunks { start_chunk: entry.offset, len })
    } else {
        if entry.offset > file_size || entry.compressed_size > file_size - entry.offset {
            return Err(
                PakError::InvalidEntryRange {
                    offset: entry.offset,
                    size: entry.compressed_size,
                    file_size,
                },
            );
        }
        Ok(EntrySource::Range { start: entry.offset, end: entry.offset + entry.compressed_size })
    }
}

/// An entry's stored bytes within the file bytes `src`, or `None` where they cannot be
/// had.
pub open spec fn stored_bytes(src: Seq<u8>, e: PakEntry, table: Option<ChunkTable>) -> Option<
    Seq<u8>,
> {
    if is_chunked(e) {
        match table {
            Some(t) => if chunk_span_fits(t.chunks@, t.block_size, e.offset, chunked_len(e))
                && blocks_decode(
                src,
                t.chunks@,
                t.block_size,
                e.offset as int,
                blocks_needed(chunked_len(e), t.block_size),
            ) {
                Some(chunked_payload(src, t.chunks@, t.block_size, e.offset as int, chunked_len(e)))
            } else {
                None
            },
            None => None,
        }
    } else if e.offset + e.compressed_size > src.len() {
        None
    } else {
        Some(src.subrange(e.offset as int, e.offset + e.compressed_size))
    }
}

/// An entry's content within the file bytes `src`.
pub open spec fn entry_content(src: Seq<u8>, e: PakEntry, table: Option<ChunkTable>) -> Option<
    Seq<u8>,
> {
    match stored_bytes(src, e, table) {
        Some(raw) => entry_payload(raw, e),
        None => None,
    }
}

/// The table behind an optional reference.
pub open spec fn owned_table(t: Option<&ChunkTable>) -> Option<ChunkTable> {
    match t {
        Some(t) => Some(*t),
        None => None,
    }
}

/// Reads and decodes one entry from the bytes of the whole file.
pub fn read_entry(source: &[u8], entry: &PakEntry, table: Option<&ChunkTable>) -> (r: Result<
    Vec<u8>,
    PakError,
>)
    ensures
        match r {
            Ok(v) => entry_content(source@, *entry, owned_table(table)) == Some(v@),
            Err(_) => entry_content(source@, *entry, owned_table(table)) is None,
        },
{
    let n = source.len() as u64;
    let src = match entry_source(entry, table.is_some(), n) {
        Ok(s) => s,
        Err(e) => {
            return Err(e);
        },
    };
    match src {
        EntrySource::Range { start, end } => {
            let raw = vstd::slice::slice_subrange(source, start as usize, end as usize);
            decode_entry(raw, entry)
        },
        EntrySource::Chunks { start_chunk, len } => {
            let t = match table {
                Some(t) => t,
                None => {
                    return Err(PakError::MissingChunkTable);
                },
            };
            let raw = match read_chunked(source, t, start_chunk, len) {
                Ok(v) => v,
                Err(e) => {
                    return Err(e);
                },
            };
            decode_entry(raw.as_slice(), entry)
        },
    }
}

/// The extension the first eight bytes of a payload name; nothing for a shorter one.
pub open spec fn sniffed_extension(data: Seq<u8>) -> Option<Seq<char>> {
    if data.len() < 8 {
        None
    } else {
        extension_of(le_u32(data, 0), le_u32(data, 4))
    }
}

/// Captures the first eight bytes of a decoded stream as it flows past, to guess an
/// extension from them.
pub struct ExtensionReader {
    magic_bytes: [u8; 8],
    magic_read_length: usize,
}

impl ExtensionReader {
    /// The bytes captured so far.
    pub closed spec fn captured(&self) -> Seq<u8> {
        self.magic_bytes@.take(self.magic_read_length as int)
    }

    /// All eight magic slots: the captured bytes, then zeros.
    pub closed spec fn magic(&self) -> Seq<u8> {
        self.magic_bytes@
    }

    pub closed spec fn wf(&self) -> bool {
        &&& self.magic_read_length <= 8
        &&& forall|i: int| self.magic_read_length <= i < 8 ==> self.magic_bytes@[i] == 0
    }

    /// The slots hold the captured bytes, then zeros.
    pub proof fn lemma_magic_padded(&self)
        requires
            self.wf(),
        ensures
            self.captured().len() <= 8,
            self.magic() == self.captured() + Seq::new(
                (8 - self.captured().len()) as nat,
                |i: int| 0u8,
            ),
    {
        assert(self.magic() =~= self.captured() + Seq::new(
            (8 - self.captured().len()) as nat,
            |i: int| 0u8,
        ));
    }

    /// Once eight bytes have flowed, the slots hold exactly them.
    pub proof fn lemma_full_magic(&self)
        requires
            self.wf(),
            self.captured().len() == 8,
        ensures
            self.magic() == self.captured(),
    {
        assert(self.magic() =~= self.captured());
    }

    pub fn new() -> (r: Self)
        ensures
            r.wf(),
            r.captured() == Seq::<u8>::empty(),
            r.magic() == seq![0u8, 0, 0, 0, 0, 0, 0, 0],
    {
        let r = ExtensionReader { magic_bytes: [0u8, 0, 0, 0, 0, 0, 0, 0], magic_read_length: 0 };
        assert(r.captured() =~= Seq::<u8>::empty());
        assert(r.magic() =~= seq![0u8, 0, 0, 0, 0, 0, 0, 0]);
        r
    }

    /// Notes the next bytes of the stream; only the first eight of the whole stream are
    /// kept.
    pub fn observe(&mut self, data: &[u8])
        requires
            old(self).wf(),
        ensures
            final(self).wf(),
            final(self).captured() == (old(self).captured() + data@).take(
                vstd::math::min(8, (old(self).captured().len() + data@.len()) as int),
            ),
    {
        let ghost all = self.captured() + data@;
        let mut i: usize = 0;
        while self.magic_read_length < 8 && i < data.len()
            invariant
                self.wf(),
                i <= data@.len(),
                all == old(self).captured() + data@,
                self.magic_read_length == old(self).captured().len() + i,
                self.captured() == all.take(self.magic_read_length as int),
            decreases data@.len() - i,
        {
            let k = self.magic_read_length;
            self.magic_bytes[k] = data[i];
            self.magic_read_length = k + 1;
            i += 1;
            assert(self.captured() =~= all.take(self.magic_read_length as int));
        }
    }

    /// The captured bytes; zero where fewer than eight have flowed.
    pub fn magic_bytes(&self) -> (r: [u8; 8])
        ensures
            r@ == self.magic(),
    {
        self.magic_bytes
    }

    /// The eight magic bytes as one little-endian word.
    pub fn magic_u64(&self) -> (r: u64)
        ensures
            r == le_u64(self.magic(), 0),
    {
        crate::bytes::get_u64(self.magic_bytes.as_slice(), 0)
    }

    /// The first four magic bytes as a little-endian word.
    pub fn magic_lower(&self) -> (r: u32)
        ensures
            r == le_u32(self.magic(), 0),
    {
        crate::bytes::get_u32(self.magic_bytes.as_slice(), 0)
    }

    /// The last four magic bytes as a little-endian word.
    pub fn magic_upper(&self) -> (r: u32)
        ensures
            r == le_u32(self.magic(), 4),
    {
        crate::bytes::get_u32(self.magic_bytes.as_slice(), 4)
    }

    /// The guessed extension; `None` until eight bytes have flowed or for an unknown
    /// magic.
    pub fn determine_extension(&self) -> (r: Option<&'static str>)
        requires
            self.wf(),
        ensures
            r is Some == sniffed_extension(self.captured()) is Some,
            r is Some ==> r->0@ == sniffed_extension(self.captured())->0,
    {
        if self.magic_read_length < 8 {
            return None;
        }
        proof {
            assert(self.captured() =~= self.magic_bytes@);
        }
        extension_for_magic(self.magic_lower(), self.magic_upper())
    }
}

/// Guesses the extension of a whole decoded payload from its first eight bytes.
pub fn sniff_extension(data: &[u8]) -> (r: Option<&'static str>)
    ensures
        r is Some == sniffed_extension(data@) is Some,
        r is Some ==> r->0@ == sniffed_extension(data@)->0,
{
    let mut sniffer = ExtensionReader::new();
    sniffer.observe(data);
    proof {
        if data@.len() >= 8 {
            assert(sniffer.captured() =~= data@.take(8));
            assert(le_u32(data@.take(8), 0) == le_u32(data@, 0));
            assert(le_u32(data@.take(8), 4) == le_u32(data@, 4));
        } else {
            assert(sniffer.captured().len() < 8);
        }
    }
    sniffer.determine_extension()
}

} // verus!
