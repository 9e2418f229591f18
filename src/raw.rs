//! The fixed on-disk layouts: the 16-byte header and the two entry records.
use crate::bytes::{
    le_u16, le_u32, le_u64, get_u16, get_u32, get_u64, lemma_le_u16_bytes, lemma_le_u32_bytes, lemma_le_u64_bytes, push_u16,
    push_u32, push_u64, u16_bytes, u32_bytes, u64_bytes, ByteReader,
};
use crate::error::PakError;
use vstd::prelude::*;

verus! {

/// Size of the header.
pub const HEADER_SIZE: usize = 16;

/// Size of a version 2.0 entry record.
pub const ENTRY_V1_SIZE: usize = 24;

/// Size of every later entry record.
pub const ENTRY_V2_SIZE: usize = 48;

/// The header as it lies on disk.
#[derive(Debug, Clone, Copy, PartialEq, Eq)]
pub struct Header {
    pub magic: [u8; 4],
    pub major_version: u8,
    pub minor_version: u8,
    pub feature: u16,
    pub total_files: u32,
    pub hash: u32,
}

/// A version 2.0 entry record as it lies on disk.
#[derive(Debug, Clone, Copy, PartialEq, Eq)]
pub struct EntryV1 {
    pub offset: u64,
    pub uncompressed_size: u64,
    pub hash_name_lower: u32,
    pub hash_name_upper: u32,
}

/// A later entry record as it lies on disk.
#[derive(Debug, Clone, Copy, PartialEq, Eq)]
pub struct EntryV2 {
    pub hash_name_lower: u32,
    pub hash_name_upper: u32,
    pub offset: u64,
    pub compressed_size: u64,
    pub uncompressed_size: u64,
    pub attributes: u64,
    pub checksum: u64,
}

/// The 16 bytes of a header.
pub open spec fn header_bytes(h: Header) -> Seq<u8> {
    h.magic@ + seq![h.major_version, h.minor_version] + u16_bytes(h.feature) + u32_bytes(
        h.total_files,
    ) + u32_bytes(h.hash)
}

/// The 24 bytes of a version 2.0 entry.
pub open spec fn entry_v1_bytes(e: EntryV1) -> Seq<u8> {
    u64_bytes(e.offset) + u64_bytes(e.uncompressed_size) + u32_bytes(e.hash_name_lower) + u32_bytes(
        e.hash_name_upper,
    )
}

/// The 48 bytes of a later entry.
pub open spec fn entry_v2_bytes(e: EntryV2) -> Seq<u8> {
    u32_bytes(e.hash_name_lower) + u32_bytes(e.hash_name_upper) + u64_bytes(e.offset) + u64_bytes(
        e.compressed_size,
    ) + u64_bytes(e.uncompressed_size) + u64_bytes(e.attributes) + u64_bytes(e.checksum)
}

/// The header whose bytes are `b`.
pub open spec fn header_of_bytes(b: Seq<u8>) -> Header {
    Header {
        magic: [b[0], b[1], b[2], b[3]],
        major_version: b[4],
        minor_version: b[5],
        feature: le_u16(b, 6),
        total_files: le_u32(b, 8),
        hash: le_u32(b, 12),
    }
}

/// The version 2.0 entry whose bytes are `b`.
pub open spec fn v1_of_bytes(b: Seq<u8>) -> EntryV1 {
    EntryV1 {
        offset: le_u64(b, 0),
        uncompressed_size: le_u64(b, 8),
        hash_name_lower: le_u32(b, 16),
        hash_name_upper: le_u32(b, 20),
    }
}

/// The later entry whose bytes are `b`.
pub open spec fn v2_of_bytes(b: Seq<u8>) -> EntryV2 {
    EntryV2 {
        hash_name_lower: le_u32(b, 0),
        hash_name_upper: le_u32(b, 4),
        offset: le_u64(b, 8),
        compressed_size: le_u64(b, 16),
        uncompressed_size: le_u64(b, 24),
        attributes: le_u64(b, 32),
        checksum: le_u64(b, 40),
    }
}

impl Header {
    /// Reads a header from exactly 16 bytes.
    pub fn parse(b: &[u8]) -> (r: Header)
        requires
            b@.len() == HEADER_SIZE,
        ensures
            header_bytes(r) == b@,
            r == header_of_bytes(b@),
    {
        let magic = [b[0], b[1], b[2], b[3]];
        let r = Header {
            magic,
            major_version: b[4],
            minor_version: b[5],
            feature: get_u16(b, 6),
            total_files: get_u32(b, 8),
            hash: get_u32(b, 12),
        };
        proof {
            lemma_le_u16_bytes(b@, 6);
            lemma_le_u32_bytes(b@, 8);
            lemma_le_u32_bytes(b@, 12);
            assert(magic@ =~= b@.subrange(0, 4));
            assert(magic == [b@[0], b@[1], b@[2], b@[3]]);
            assert(header_bytes(r) =~= b@);
        }
        r
    }

    /// Reads the next 16 bytes as a header.
    pub fn from_reader(reader: &mut ByteReader) -> (r: Result<Header, PakError>)
        requires
            old(reader).wf(),
        ensures
            final(reader).wf(),
            final(reader).data() == old(reader).data(),
            HEADER_SIZE <= old(reader).left() ==> r is Ok && r->Ok_0 == header_of_bytes(
                old(reader).data().subrange(old(reader).pos() as int, old(reader).pos() + HEADER_SIZE),
            ) && header_bytes(r->Ok_0) == old(
                reader,
            ).data().subrange(old(reader).pos() as int, old(reader).pos() + HEADER_SIZE)
                && final(reader).pos() == old(reader).pos() + HEADER_SIZE,
            HEADER_SIZE > old(reader).left() ==> r == Err::<Header, PakError>(
                PakError::UnexpectedEof,
            ),
    {
        match reader.read_bytes(HEADER_SIZE) {
            Ok(b) => Ok(Header::parse(b)),
            Err(e) => Err(e),
        }
    }

    /// The 16 bytes of the header.
    pub fn into_bytes(self) -> (r: Vec<u8>)
        ensures
            r@ == header_bytes(self),
    {
        let mut out: Vec<u8> = Vec::new();
        out.push(self.magic[0]);
        out.push(self.magic[1]);
        out.push(self.magic[2]);
        out.push(self.magic[3]);
        out.push(self.major_version);
        out.push(self.minor_version);
        push_u16(&mut out, self.feature);
        push_u32(&mut out, self.total_files);
        push_u32(&mut out, self.hash);
        assert(out@ =~= header_bytes(self));
        out
    }
}

impl EntryV1 {
    /// Reads an entry from exactly 24 bytes.
    pub fn parse(b: &[u8]) -> (r: EntryV1)
        requires
            b@.len() == ENTRY_V1_SIZE,
        ensures
            entry_v1_bytes(r) == b@,
            r == v1_of_bytes(b@),
    {
        let r = EntryV1 {
            offset: get_u64(b, 0),
            uncompressed_size: get_u64(b, 8),
            hash_name_lower: get_u32(b, 16),
            hash_name_upper: get_u32(b, 20),
        };
        proof {
            lemma_le_u64_bytes(b@, 0);
            lemma_le_u64_bytes(b@, 8);
            lemma_le_u32_bytes(b@, 16);
            lemma_le_u32_bytes(b@, 20);
            assert(entry_v1_bytes(r) =~= b@);
        }
        r
    }

    /// Reads the next 24 bytes as an entry.
    pub fn from_reader(reader: &mut ByteReader) -> (r: Result<EntryV1, PakError>)
        requires
            old(reader).wf(),
        ensures
            final(reader).wf(),
            final(reader).data() == old(reader).data(),
            ENTRY_V1_SIZE <= old(reader).left() ==> r is Ok && r->Ok_0 == v1_of_bytes(
                old(reader).data().subrange(old(reader).pos() as int, old(reader).pos() + ENTRY_V1_SIZE),
            ) && entry_v1_bytes(r->Ok_0) == old(
                reader,
            ).data().subrange(old(reader).pos() as int, old(reader).pos() + ENTRY_V1_SIZE)
                && final(reader).pos() == old(reader).pos() + ENTRY_V1_SIZE,
            ENTRY_V1_SIZE > old(reader).left() ==> r == Err::<EntryV1, PakError>(
                PakError::UnexpectedEof,
            ),
    {
        match reader.read_bytes(ENTRY_V1_SIZE) {
            Ok(b) => Ok(EntryV1::parse(b)),
            Err(e) => Err(e),
        }
    }

    /// The 24 bytes of the entry.
    pub fn into_bytes(self) -> (r: Vec<u8>)
        ensures
            r@ == entry_v1_bytes(self),
    {
        let mut out: Vec<u8> = Vec::new();
        push_u64(&mut out, self.offset);
        push_u64(&mut out, self.uncompressed_size);
        push_u32(&mut out, self.hash_name_lower);
        push_u32(&mut out, self.hash_name_upper);
        assert(out@ =~= entry_v1_bytes(self));
        out
    }
}

impl EntryV2 {
    /// Reads an entry from exactly 48 bytes.
    #[verifier::rlimit(40)]
    pub fn parse(b: &[u8]) -> (r: EntryV2)
        requires
            b@.len() == ENTRY_V2_SIZE,
        ensures
            entry_v2_bytes(r) == b@,
            r == v2_of_bytes(b@),
    {
        let attributes = get_u64(b, 32);
        let r = EntryV2 {
            hash_name_lower: get_u32(b, 0),
            hash_name_upper: get_u32(b, 4),
            offset: get_u64(b, 8),
            compressed_size: get_u64(b, 16),
            uncompressed_size: get_u64(b, 24),
            attributes,
            checksum: get_u64(b, 40),
        };
        proof {
            lemma_le_u32_bytes(b@, 0);
            lemma_le_u32_bytes(b@, 4);
            lemma_le_u64_bytes(b@, 8);
            lemma_le_u64_bytes(b@, 16);
            lemma_le_u64_bytes(b@, 24);
            lemma_le_u64_bytes(b@, 32);
            lemma_le_u64_bytes(b@, 40);
            assert(entry_v2_bytes(r) =~= b@);
        }
        r
    }

    /// An entry from a byte slice of exactly its size, as the layout reads it.
    pub fn read_from_bytes(b: &[u8]) -> (r: Option<EntryV2>)
        ensures
            b@.len() == ENTRY_V2_SIZE ==> r is Some && entry_v2_bytes(r->0) == b@,
            b@.len() != ENTRY_V2_SIZE ==> r is None,
    {
        if b.len() == ENTRY_V2_SIZE {
            Some(EntryV2::parse(b))
        } else {
            None
        }
    }

    /// Reads the next 48 bytes as an entry.
    pub fn from_reader(reader: &mut ByteReader) -> (r: Result<EntryV2, PakError>)
        requires
            old(reader).wf(),
        ensures
            final(reader).wf(),
            final(reader).data() == old(reader).data(),
            ENTRY_V2_SIZE <= old(reader).left() ==> r is Ok && r->Ok_0 == v2_of_bytes(
                old(reader).data().subrange(old(reader).pos() as int, old(reader).pos() + ENTRY_V2_SIZE),
            ) && entry_v2_bytes(r->Ok_0) == old(
                reader,
            ).data().subrange(old(reader).pos() as int, old(reader).pos() + ENTRY_V2_SIZE)
                && final(reader).pos() == old(reader).pos() + ENTRY_V2_SIZE,
            ENTRY_V2_SIZE > old(reader).left() ==> r == Err::<EntryV2, PakError>(
                PakError::UnexpectedEof,
            ),
    {
        match reader.read_bytes(ENTRY_V2_SIZE) {
            Ok(b) => Ok(EntryV2::parse(b)),
            Err(e) => Err(e),
        }
    }

    /// The 48 bytes of the entry.
    pub fn into_bytes(self) -> (r: Vec<u8>)
        ensures
            r@ == entry_v2_bytes(self),
    {
        let mut out: Vec<u8> = Vec::new();
        push_u32(&mut out, self.hash_name_lower);
        push_u32(&mut out, self.hash_name_upper);
        push_u64(&mut out, self.offset);
        push_u64(&mut out, self.compressed_size);
        push_u64(&mut out, self.uncompressed_size);
        push_u64(&mut out, self.attributes);
        push_u64(&mut out, self.checksum);
        assert(out@ =~= entry_v2_bytes(self));
        out
    }
}

} // verus!
