//! Opening choices and in-memory access to a parsed archive.
use crate::bytes::le_u32;
use crate::chunk::{chunks_of, read_chunk_table, ChunkTable};
use crate::entry::{entry_content, read_entry};
use crate::error::PakError;
use crate::pak::{
    header_error, header_is_supported, PakArchive, PakEntry, FEATURE_CHUNK_TABLE,
    FEATURE_ENTRY_ENCRYPTION,
};
use crate::raw::{header_of_bytes, HEADER_SIZE};
use crate::read::{archive_matches, raw_table, read_archive, table_key_long_enough, toc_len};
use crate::bytes::ByteReader;
use vstd::prelude::*;

verus! {

/// Where entry bytes are read from once an archive is open.
#[derive(Debug, Clone, Copy, PartialEq, Eq)]
pub enum PakBackend {
    /// A read-only memory map of the file.
    Mmap,
    /// Ordinary reads on a duplicated file handle per entry.
    File,
}

impl Default for PakBackend {
    fn default() -> (r: Self)
        ensures
            r == PakBackend::Mmap,
    {
        PakBackend::Mmap
    }
}

/// Chooses how an archive is opened.
#[derive(Debug, Clone, Copy, PartialEq, Eq)]
pub struct PakFileBuilder {
    pub backend: PakBackend,
}

impl PakFileBuilder {
    pub fn new() -> (r: Self)
        ensures
            r.backend == PakBackend::Mmap,
    {
        PakFileBuilder { backend: PakBackend::Mmap }
    }

    pub fn backend(self, backend: PakBackend) -> (r: Self)
        ensures
            r.backend == backend,
    {
        PakFileBuilder { backend }
    }

    /// The memory map when `enabled`, else plain file reads.
    pub fn mmap(self, enabled: bool) -> (r: Self)
        ensures
            r.backend == (if enabled {
                PakBackend::Mmap
            } else {
                PakBackend::File
            }),
    {
        PakFileBuilder {
            backend: if enabled {
                PakBackend::Mmap
            } else {
                PakBackend::File
            },
        }
    }
}

/// Reads the table of contents of a whole file: the archive, then the chunk table when
/// feature bit 5 is set.
pub fn read_toc(data: &[u8]) -> (r: Result<(PakArchive, Option<ChunkTable>), PakError>)
    ensures
        ({
            let d = data@;
            let h = header_of_bytes(d.subrange(0, HEADER_SIZE as int));
            let c = toc_len(h);
            &&& d.len() < HEADER_SIZE ==> r is Err
            &&& d.len() >= HEADER_SIZE && !header_is_supported(h) ==> r == Err::<
                (PakArchive, Option<ChunkTable>),
                PakError,
            >(header_error(h))
            &&& r is Ok && h.feature & FEATURE_ENTRY_ENCRYPTION != FEATURE_ENTRY_ENCRYPTION
                ==> archive_matches(r->Ok_0.0, d, 0, h, raw_table(d, 0, h))
            &&& d.len() >= c && header_is_supported(h) && (h.feature & FEATURE_ENTRY_ENCRYPTION
                != FEATURE_ENTRY_ENCRYPTION || table_key_long_enough(d, 0, h)) && (h.feature
                & FEATURE_CHUNK_TABLE != FEATURE_CHUNK_TABLE || (d.len() >= c + 8 + 8 * le_u32(
                d,
                c + 4,
            ) && le_u32(d, c) != 0)) ==> r is Ok
            &&& r is Ok ==> (r->Ok_0.1 is Some <==> h.feature & FEATURE_CHUNK_TABLE
                == FEATURE_CHUNK_TABLE)
            &&& r is Ok && r->Ok_0.1 is Some ==> r->Ok_0.1->0.block_size == le_u32(d, c)
                && r->Ok_0.1->0.block_size != 0 && r->Ok_0.1->0.chunks@ == chunks_of(
                d.subrange(c + 8, c + 8 + 8 * le_u32(d, c + 4)),
                le_u32(d, c + 4) as nat,
            )
        }),
{
    let mut reader = ByteReader::new(data);
    let archive = match read_archive(&mut reader) {
        Ok(a) => a,
        Err(e) => {
            return Err(e);
        },
    };
    if archive.header.feature.contains(FEATURE_CHUNK_TABLE) {
        match read_chunk_table(&mut reader) {
            Ok(t) => Ok((archive, Some(t))),
            Err(e) => Err(e),
        }
    } else {
        Ok((archive, None))
    }
}

/// A parsed archive, owned or borrowed.
pub enum OwnedPakArchive<'a> {
    Owned(PakArchive),
    Borrowed(&'a PakArchive),
}

impl<'a> OwnedPakArchive<'a> {
    /// The archive itself.
    pub open spec fn archive_spec(&self) -> PakArchive {
        match self {
            OwnedPakArchive::Owned(a) => *a,
            OwnedPakArchive::Borrowed(a) => **a,
        }
    }

    pub fn inner(&self) -> (r: &PakArchive)
        ensures
            *r == self.archive_spec(),
    {
        match self {
            OwnedPakArchive::Owned(inner) => inner,
            OwnedPakArchive::Borrowed(inner) => inner,
        }
    }
}

/// The bytes of a whole archive file together with its parsed archive.
pub struct PakArchiveReader<'a> {
    reader: Vec<u8>,
    archive: OwnedPakArchive<'a>,
}

impl<'a> PakArchiveReader<'a> {
    /// The file bytes.
    pub closed spec fn source(&self) -> Seq<u8> {
        self.reader@
    }

    pub closed spec fn archive_spec(&self) -> PakArchive {
        self.archive.archive_spec()
    }

    pub fn new(reader: Vec<u8>, archive: &'a PakArchive) -> (r: Self)
        ensures
            r.source() == reader@,
            r.archive_spec() == *archive,
    {
        PakArchiveReader { reader, archive: OwnedPakArchive::Borrowed(archive) }
    }

    pub fn new_owned(reader: Vec<u8>, archive: PakArchive) -> (r: Self)
        ensures
            r.source() == reader@,
            r.archive_spec() == archive,
    {
        PakArchiveReader { reader, archive: OwnedPakArchive::Owned(archive) }
    }

    pub fn into_inner(self) -> (r: Vec<u8>)
        ensures
            r@ == self.source(),
    {
        self.reader
    }

    pub fn archive(&self) -> (r: &PakArchive)
        ensures
            *r == self.archive_spec(),
    {
        self.archive.inner()
    }

    /// The decoded content of an entry stored at a byte offset.
    pub fn owned_entry_reader(&self, entry: PakEntry) -> (r: Result<Vec<u8>, PakError>)
        ensures
            match r {
                Ok(v) => entry_content(self.source(), entry, None) == Some(v@),
                Err(_) => entry_content(self.source(), entry, None) is None,
            },
    {
        read_entry(self.reader.as_slice(), &entry, None)
    }

    /// The decoded content of the entry at `index`.
    pub fn owned_entry_reader_by_index(&self, index: usize) -> (r: Result<Vec<u8>, PakError>)
        ensures
            index >= self.archive_spec().entries@.len() ==> r == Err::<Vec<u8>, PakError>(
                PakError::EntryIndexOutOfBounds,
            ),
            index < self.archive_spec().entries@.len() ==> match r {
                Ok(v) => entry_content(
                    self.source(),
                    self.archive_spec().entries@[index as int],
                    None,
                ) == Some(v@),
                Err(_) => entry_content(
                    self.source(),
                    self.archive_spec().entries@[index as int],
                    None,
                ) is None,
            },
    {
        let entries = self.archive.inner().entries();
        if index >= entries.len() {
            return Err(PakError::EntryIndexOutOfBounds);
        }
        let entry = entries[index];
        read_entry(self.reader.as_slice(), &entry, None)
    }
}

/// A failure in the reading layers, with its message.
#[derive(Debug, Clone, PartialEq, Eq)]
pub enum PakReaderError {
    RawData(String),
    Decompression { compression: u8, message: String },
    InvalidCompressionType(u8),
    Extension(String),
}

impl PakReaderError {
    /// The failure as a byte-source error carrying its message.
    pub fn into_io_error(self) -> (r: PakError)
        ensures
            r is IO,
    {
        match self {
            PakReaderError::RawData(m) => PakError::IO(m),
            PakReaderError::Decompression { compression: _, message } => PakError::IO(message),
            PakReaderError::InvalidCompressionType(_) => PakError::IO(String::new()),
            PakReaderError::Extension(m) => PakError::IO(m),
        }
    }
}

} // verus!
