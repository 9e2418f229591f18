//! The typed model of an archive: header, feature flags, entries and their attributes.
use crate::error::PakError;
use crate::hash::{mix, mix_halves};
use crate::raw::{entry_v2_bytes, EntryV1, EntryV2, Header, ENTRY_V1_SIZE, ENTRY_V2_SIZE};
use vstd::prelude::*;

verus! {

/// Feature bit: the entry table is encrypted with a wrapped key that follows it.
pub const FEATURE_ENTRY_ENCRYPTION: u16 = 0x08;

/// Feature bit: one extra `u32` follows the entry table.
pub const FEATURE_EXTRA_U32: u16 = 0x10;

/// Feature bit: a chunk table follows the table of contents.
pub const FEATURE_CHUNK_TABLE: u16 = 0x20;

/// Every feature bit this library understands.
pub const FEATURE_SUPPORTED: u16 = 0x38;

/// Attribute bits of the compression kind.
pub const ATTR_COMPRESSION_MASK: u64 = 0xF;

/// Attribute bits of the encryption kind.
pub const ATTR_ENCRYPTION_MASK: u64 = 0xFF_0000;

/// Attribute bit: the offset is an index into the chunk table.
pub const ATTR_CHUNK_INDEX: u64 = 0x100_0000;

/// Attribute bits outside the typed sub-fields.
pub const ATTR_UNKNOWN_MASK: u64 = 0xFFFF_FFFF_FF00_FFF0;

/// The header's feature word.
#[derive(Debug, Clone, Copy, PartialEq, Eq, Default)]
pub struct FeatureFlags {
    pub bits: u16,
}

impl FeatureFlags {
    pub fn bits(&self) -> (r: u16)
        ensures
            r == self.bits,
    {
        self.bits
    }

    /// Whether every bit of `mask` is set.
    pub fn contains(&self, mask: u16) -> (r: bool)
        ensures
            r == (self.bits & mask == mask),
    {
        self.bits & mask == mask
    }

    /// Whether no bit outside the supported set is set.
    pub fn check_supported(&self) -> (r: bool)
        ensures
            r == (self.bits & !FEATURE_SUPPORTED == 0),
    {
        self.bits & !FEATURE_SUPPORTED == 0
    }
}

/// The compression sub-field of the attributes (bits 0..3): 0 store, 1 deflate, 2 zstd.
#[derive(Debug, Clone, Copy, PartialEq, Eq, Default)]
pub struct CompressionType {
    pub bits: u8,
}

/// The decoder that a compression sub-field selects.
#[derive(Debug, Clone, Copy, PartialEq, Eq)]
pub enum CompressionKind {
    Store,
    Deflate,
    Zstd,
}

/// Which decoder a compression sub-field selects: deflate when bit 0 is set, else zstd
/// when bit 1 is set, else none.
pub open spec fn compression_kind_of(bits: u8) -> CompressionKind {
    if bits & 1 == 1 {
        CompressionKind::Deflate
    } else if bits & 2 == 2 {
        CompressionKind::Zstd
    } else {
        CompressionKind::Store
    }
}

impl CompressionType {
    pub fn from_bits(bits: u8) -> (r: CompressionType)
        ensures
            r.bits == bits,
    {
        CompressionType { bits }
    }

    pub fn bits(&self) -> (r: u8)
        ensures
            r == self.bits,
    {
        self.bits
    }

    /// The decoder this sub-field selects.
    pub fn kind(&self) -> (r: CompressionKind)
        ensures
            r == compression_kind_of(self.bits),
    {
        if self.bits & 1 == 1 {
            CompressionKind::Deflate
        } else if self.bits & 2 == 2 {
            CompressionKind::Zstd
        } else {
            CompressionKind::Store
        }
    }
}

/// The encryption sub-field of the attributes (bits 16..23).
#[derive(Debug, Clone, Copy, PartialEq, Eq, Default)]
pub enum EncryptionType {
    #[default]
    Unencrypted,
    Type1,
    Type2,
    Type3,
    Type4,
    TypeInvalid,
}

/// The encryption kind named by a sub-field value.
pub open spec fn encryption_of(v: u32) -> EncryptionType {
    if v == 0 {
        EncryptionType::Unencrypted
    } else if v == 1 {
        EncryptionType::Type1
    } else if v == 2 {
        EncryptionType::Type2
    } else if v == 3 {
        EncryptionType::Type3
    } else if v == 4 {
        EncryptionType::Type4
    } else {
        EncryptionType::TypeInvalid
    }
}

/// The sub-field value written for an encryption kind.
pub open spec fn encryption_code(e: EncryptionType) -> u32 {
    match e {
        EncryptionType::Unencrypted => 0,
        EncryptionType::Type1 => 1,
        EncryptionType::Type2 => 2,
        EncryptionType::Type3 => 3,
        EncryptionType::Type4 => 4,
        EncryptionType::TypeInvalid => 5,
    }
}

impl EncryptionType {
    pub fn from_u32(v: u32) -> (r: EncryptionType)
        ensures
            r == encryption_of(v),
    {
        if v == 0 {
            EncryptionType::Unencrypted
        } else if v == 1 {
            EncryptionType::Type1
        } else if v == 2 {
            EncryptionType::Type2
        } else if v == 3 {
            EncryptionType::Type3
        } else if v == 4 {
            EncryptionType::Type4
        } else {
            EncryptionType::TypeInvalid
        }
    }

    pub fn to_u32(&self) -> (r: u32)
        ensures
            r == encryption_code(*self),
    {
        match self {
            EncryptionType::Unencrypted => 0,
            EncryptionType::Type1 => 1,
            EncryptionType::Type2 => 2,
            EncryptionType::Type3 => 3,
            EncryptionType::Type4 => 4,
            EncryptionType::TypeInvalid => 5,
        }
    }

    /// Whether a payload with this kind goes through the decryptor: kinds 1 to 4.
    pub fn is_encrypted(&self) -> (r: bool)
        ensures
            r == (*self != EncryptionType::Unencrypted && *self != EncryptionType::TypeInvalid),
    {
        match self {
            EncryptionType::Unencrypted => false,
            EncryptionType::TypeInvalid => false,
            _ => true,
        }
    }
}

/// The attribute bits outside the typed sub-fields, kept verbatim.
#[derive(Debug, Clone, Copy, PartialEq, Eq, Default)]
pub struct UnkAttr {
    pub bits: u64,
}

impl UnkAttr {
    pub fn bits(&self) -> (r: u64)
        ensures
            r == self.bits,
    {
        self.bits
    }
}

/// Where an entry's bytes are: a byte offset into the file, or a chunk-table index.
#[derive(Debug, Clone, Copy, PartialEq, Eq)]
pub enum EntryOffset {
    FileOffset(u64),
    ChunkIndex(u64),
}

/// One resource of an archive.
#[derive(Debug, Clone, Copy, PartialEq, Eq, Default)]
pub struct PakEntry {
    pub hash_name_lower: u32,
    pub hash_name_upper: u32,
    pub offset: u64,
    pub compressed_size: u64,
    pub uncompressed_size: u64,
    pub compression_type: CompressionType,
    pub encryption_type: EncryptionType,
    pub checksum: u64,
    pub unk_attr: UnkAttr,
}

/// The typed entry read from a version 2.0 record: no compression, encryption or checksum.
pub open spec fn entry_of_v1(e: EntryV1) -> PakEntry {
    PakEntry {
        hash_name_lower: e.hash_name_lower,
        hash_name_upper: e.hash_name_upper,
        offset: e.offset,
        compressed_size: 0,
        uncompressed_size: e.uncompressed_size,
        compression_type: CompressionType { bits: 0 },
        encryption_type: EncryptionType::Unencrypted,
        checksum: 0,
        unk_attr: UnkAttr { bits: 0 },
    }
}

/// The typed entry read from a later record: the attributes split into sub-fields.
pub open spec fn entry_of_v2(e: EntryV2) -> PakEntry {
    PakEntry {
        hash_name_lower: e.hash_name_lower,
        hash_name_upper: e.hash_name_upper,
        offset: e.offset,
        compressed_size: e.compressed_size,
        uncompressed_size: e.uncompressed_size,
        compression_type: CompressionType { bits: (e.attributes & ATTR_COMPRESSION_MASK) as u8 },
        encryption_type: encryption_of(((e.attributes & ATTR_ENCRYPTION_MASK) >> 16) as u32),
        checksum: e.checksum,
        unk_attr: UnkAttr { bits: e.attributes & ATTR_UNKNOWN_MASK },
    }
}

/// The attribute word of a typed entry: each known mask cleared, then the typed
/// sub-fields and the kept unknown bits put in.
pub open spec fn attributes_of(e: PakEntry) -> u64 {
    ((e.compression_type.bits as u64) & ATTR_COMPRESSION_MASK) | (((encryption_code(
        e.encryption_type,
    ) as u64) << 16) & ATTR_ENCRYPTION_MASK) | (e.unk_attr.bits & ATTR_UNKNOWN_MASK)
}

/// The record a typed entry is written as.
pub open spec fn v2_of(e: PakEntry) -> EntryV2 {
    EntryV2 {
        hash_name_lower: e.hash_name_lower,
        hash_name_upper: e.hash_name_upper,
        offset: e.offset,
        compressed_size: e.compressed_size,
        uncompressed_size: e.uncompressed_size,
        attributes: attributes_of(e),
        checksum: e.checksum,
    }
}

/// Splits an attribute word and joins it again.
proof fn lemma_attributes_split_join(a: u64)
    requires
        (a & ATTR_ENCRYPTION_MASK) >> 16 <= 5,
    ensures
        ((((a & ATTR_COMPRESSION_MASK) as u8) as u64) & ATTR_COMPRESSION_MASK) | (((((a
            & ATTR_ENCRYPTION_MASK) >> 16) as u32) as u64) << 16 & ATTR_ENCRYPTION_MASK) | ((a
            & ATTR_UNKNOWN_MASK) & ATTR_UNKNOWN_MASK) == a,
{
    assert(((((a & 0xF) as u8) as u64) & 0xF) | (((((a & 0xFF_0000) >> 16) as u32) as u64) << 16
        & 0xFF_0000) | ((a & 0xFFFF_FFFF_FF00_FFF0) & 0xFFFF_FFFF_FF00_FFF0) == a) by (bit_vector);
}

/// A record whose encryption sub-field is at most 5 is written back exactly as it was
/// read: the unknown attribute bits come back verbatim.
pub proof fn lemma_entry_v2_round_trip(e: EntryV2)
    requires
        (e.attributes & ATTR_ENCRYPTION_MASK) >> 16 <= 5,
    ensures
        v2_of(entry_of_v2(e)) == e,
        entry_v2_bytes(v2_of(entry_of_v2(e))) == entry_v2_bytes(e),
{
    let a = e.attributes;
    let k = ((a & ATTR_ENCRYPTION_MASK) >> 16) as u32;
    assert(encryption_code(encryption_of(k)) == k);
    lemma_attributes_split_join(a);
}

impl PakEntry {
    /// The typed entry of a version 2.0 record.
    pub fn from_v1(e: EntryV1) -> (r: PakEntry)
        ensures
            r == entry_of_v1(e),
    {
        PakEntry {
            hash_name_lower: e.hash_name_lower,
            hash_name_upper: e.hash_name_upper,
            offset: e.offset,
            compressed_size: 0,
            uncompressed_size: e.uncompressed_size,
            compression_type: CompressionType { bits: 0 },
            encryption_type: EncryptionType::Unencrypted,
            checksum: 0,
            unk_attr: UnkAttr { bits: 0 },
        }
    }

    /// The typed entry of a later record.
    pub fn from_v2(e: EntryV2) -> (r: PakEntry)
        ensures
            r == entry_of_v2(e),
    {
        PakEntry {
            hash_name_lower: e.hash_name_lower,
            hash_name_upper: e.hash_name_upper,
            offset: e.offset,
            compressed_size: e.compressed_size,
            uncompressed_size: e.uncompressed_size,
            compression_type: CompressionType { bits: (e.attributes & ATTR_COMPRESSION_MASK) as u8 },
            encryption_type: EncryptionType::from_u32(
                ((e.attributes & ATTR_ENCRYPTION_MASK) >> 16) as u32,
            ),
            checksum: e.checksum,
            unk_attr: UnkAttr { bits: e.attributes & ATTR_UNKNOWN_MASK },
        }
    }

    /// The record this entry is written as.
    pub fn to_v2(&self) -> (r: EntryV2)
        ensures
            r == v2_of(*self),
    {
        let attributes = ((self.compression_type.bits as u64) & ATTR_COMPRESSION_MASK) | (((
        self.encryption_type.to_u32() as u64) << 16) & ATTR_ENCRYPTION_MASK) | (self.unk_attr.bits
            & ATTR_UNKNOWN_MASK);
        EntryV2 {
            hash_name_lower: self.hash_name_lower,
            hash_name_upper: self.hash_name_upper,
            offset: self.offset,
            compressed_size: self.compressed_size,
            uncompressed_size: self.uncompressed_size,
            attributes,
            checksum: self.checksum,
        }
    }

    /// The 64-bit key of the entry's path.
    pub fn hash(&self) -> (r: u64)
        ensures
            r == mix(self.hash_name_upper, self.hash_name_lower),
    {
        mix_halves(self.hash_name_upper, self.hash_name_lower)
    }

    pub fn offset(&self) -> (r: u64)
        ensures
            r == self.offset,
    {
        self.offset
    }

    /// Whether the offset names a chunk-table index (attribute bit 24).
    pub fn offset_is_chunk_index(&self) -> (r: bool)
        ensures
            r == (self.unk_attr.bits & ATTR_CHUNK_INDEX != 0),
    {
        self.unk_attr.bits & ATTR_CHUNK_INDEX != 0
    }

    /// The offset as the tagged value it stands for.
    pub fn offset_kind(&self) -> (r: EntryOffset)
        ensures
            r == (if self.unk_attr.bits & ATTR_CHUNK_INDEX != 0 {
                EntryOffset::ChunkIndex(self.offset)
            } else {
                EntryOffset::FileOffset(self.offset)
            }),
    {
        if self.offset_is_chunk_index() {
            EntryOffset::ChunkIndex(self.offset)
        } else {
            EntryOffset::FileOffset(self.offset)
        }
    }

    pub fn compressed_size(&self) -> (r: u64)
        ensures
            r == self.compressed_size,
    {
        self.compressed_size
    }

    pub fn uncompressed_size(&self) -> (r: u64)
        ensures
            r == self.uncompressed_size,
    {
        self.uncompressed_size
    }

    pub fn compression_type(&self) -> (r: CompressionType)
        ensures
            r == self.compression_type,
    {
        self.compression_type
    }

    pub fn encryption_type(&self) -> (r: EncryptionType)
        ensures
            r == self.encryption_type,
    {
        self.encryption_type
    }

    pub fn checksum(&self) -> (r: u64)
        ensures
            r == self.checksum,
    {
        self.checksum
    }

    pub fn unk_attr(&self) -> (r: &UnkAttr)
        ensures
            *r == self.unk_attr,
    {
        &self.unk_attr
    }

    /// The 48 bytes the entry is written as.
    pub fn into_bytes_v2(self) -> (r: Vec<u8>)
        ensures
            r@ == entry_v2_bytes(v2_of(self)),
    {
        self.to_v2().into_bytes()
    }
}

/// The magic of every PAK.
pub open spec fn is_pak_magic(m: [u8; 4]) -> bool {
    m[0] == 0x4B && m[1] == 0x50 && m[2] == 0x4B && m[3] == 0x41
}

/// Whether a raw header passes every check: magic, version pair and feature bits.
pub open spec fn header_is_supported(h: Header) -> bool {
    &&& is_pak_magic(h.magic)
    &&& (h.major_version == 2 || h.major_version == 4)
    &&& (h.minor_version == 0 || h.minor_version == 1)
    &&& h.feature & !FEATURE_SUPPORTED == 0
}

/// The error for a raw header that fails a check; the checks run in the order magic,
/// version, features.
pub open spec fn header_error(h: Header) -> PakError {
    if !is_pak_magic(h.magic) {
        PakError::InvalidMagic { expected: [0x4B, 0x50, 0x4B, 0x41], found: h.magic }
    } else if !((h.major_version == 2 || h.major_version == 4) && (h.minor_version == 0
        || h.minor_version == 1)) {
        PakError::UnsupportedVersion { major: h.major_version, minor: h.minor_version }
    } else {
        PakError::UnsupportedFeature(h.feature)
    }
}

/// The validated header of an archive.
#[derive(Debug, Clone, Copy, PartialEq, Eq)]
pub struct PakHeader {
    pub magic: [u8; 4],
    pub major_version: u8,
    pub minor_version: u8,
    pub feature: FeatureFlags,
    pub total_files: u32,
    /// Opaque fingerprint, carried through.
    pub hash: u32,
    /// The extra word after the entry table, when the feature bit asks for one.
    pub unk_u32_sig: u32,
}

/// The typed header of a raw one.
pub open spec fn pak_header_of(h: Header) -> PakHeader {
    PakHeader {
        magic: h.magic,
        major_version: h.major_version,
        minor_version: h.minor_version,
        feature: FeatureFlags { bits: h.feature },
        total_files: h.total_files,
        hash: h.hash,
        unk_u32_sig: 0,
    }
}

/// The raw header a typed one is written as.
pub open spec fn raw_of(h: PakHeader) -> Header {
    Header {
        magic: h.magic,
        major_version: h.major_version,
        minor_version: h.minor_version,
        feature: h.feature.bits,
        total_files: h.total_files,
        hash: h.hash,
    }
}

/// Whether entries are version 2.0 records.
pub open spec fn uses_v1_entries(major: u8, minor: u8) -> bool {
    major == 2 && minor == 0
}

/// The size of one entry record for a version pair.
pub open spec fn entry_size_of(major: u8, minor: u8) -> u32 {
    if uses_v1_entries(major, minor) {
        ENTRY_V1_SIZE as u32
    } else {
        ENTRY_V2_SIZE as u32
    }
}

impl PakHeader {
    /// Checks a raw header: magic, then version pair, then feature bits.
    pub fn try_from_raw(h: Header) -> (r: Result<PakHeader, PakError>)
        ensures
            header_is_supported(h) ==> r == Ok::<PakHeader, PakError>(pak_header_of(h)),
            !header_is_supported(h) ==> r == Err::<PakHeader, PakError>(header_error(h)),
    {
        if !(h.magic[0] == 0x4B && h.magic[1] == 0x50 && h.magic[2] == 0x4B && h.magic[3] == 0x41) {
            return Err(PakError::InvalidMagic { expected: [0x4B, 0x50, 0x4B, 0x41], found: h.magic });
        }
        if !((h.major_version == 2 || h.major_version == 4) && (h.minor_version == 0
            || h.minor_version == 1)) {
            return Err(
                PakError::UnsupportedVersion { major: h.major_version, minor: h.minor_version },
            );
        }
        let feature = FeatureFlags { bits: h.feature };
        if !feature.check_supported() {
            return Err(PakError::UnsupportedFeature(h.feature));
        }
        Ok(
            PakHeader {
                magic: h.magic,
                major_version: h.major_version,
                minor_version: h.minor_version,
                feature,
                total_files: h.total_files,
                hash: h.hash,
                unk_u32_sig: 0,
            },
        )
    }

    /// Size of one entry record: 24 bytes for version 2.0, 48 otherwise.
    pub fn entry_size(&self) -> (r: u32)
        ensures
            r == entry_size_of(self.major_version, self.minor_version),
    {
        if self.major_version == 2 && self.minor_version == 0 {
            ENTRY_V1_SIZE as u32
        } else {
            ENTRY_V2_SIZE as u32
        }
    }

    pub fn magic(&self) -> (r: [u8; 4])
        ensures
            r == self.magic,
    {
        self.magic
    }

    pub fn major_version(&self) -> (r: u8)
        ensures
            r == self.major_version,
    {
        self.major_version
    }

    pub fn minor_version(&self) -> (r: u8)
        ensures
            r == self.minor_version,
    {
        self.minor_version
    }

    pub fn feature(&self) -> (r: FeatureFlags)
        ensures
            r == self.feature,
    {
        self.feature
    }

    pub fn total_files(&self) -> (r: u32)
        ensures
            r == self.total_files,
    {
        self.total_files
    }

    pub fn hash(&self) -> (r: u32)
        ensures
            r == self.hash,
    {
        self.hash
    }

    /// The raw header this one is written as.
    pub fn to_raw(&self) -> (r: Header)
        ensures
            r == raw_of(*self),
    {
        Header {
            magic: self.magic,
            major_version: self.major_version,
            minor_version: self.minor_version,
            feature: self.feature.bits,
            total_files: self.total_files,
            hash: self.hash,
        }
    }

    /// The 16 bytes of the header.
    pub fn into_bytes(self) -> (r: Vec<u8>)
        ensures
            r@ == crate::raw::header_bytes(raw_of(self)),
    {
        self.to_raw().into_bytes()
    }
}

/// A checked header written back gives the raw header it came from.
pub proof fn lemma_header_round_trip(h: Header)
    ensures
        raw_of(pak_header_of(h)) == h,
{
}

/// A header and its entries, in on-disk order.
#[derive(Debug, Clone)]
pub struct PakArchive {
    pub header: PakHeader,
    pub entries: Vec<PakEntry>,
}

impl PakArchive {
    pub fn new(header: PakHeader, entries: Vec<PakEntry>) -> (r: PakArchive)
        ensures
            r.header == header,
            r.entries@ == entries@,
    {
        PakArchive { header, entries }
    }

    pub fn header(&self) -> (r: &PakHeader)
        ensures
            *r == self.header,
    {
        &self.header
    }

    pub fn entries(&self) -> (r: &[PakEntry])
        ensures
            r@ == self.entries@,
    {
        self.entries.as_slice()
    }
}

/// The legacy reading of a compression sub-field.
#[derive(Debug, Clone, Copy, Default, PartialEq, Eq)]
pub enum CompressionMethod {
    #[default]
    Store,
    Deflate,
    Zstd,
}

/// Which method an attribute word names: deflate or zstd only when no bit at 16 or
/// above is set.
pub open spec fn compression_method_of(value: u64) -> CompressionMethod {
    if value & 0xF == 1 && value >> 16 == 0 {
        CompressionMethod::Deflate
    } else if value & 0xF == 2 && value >> 16 == 0 {
        CompressionMethod::Zstd
    } else {
        CompressionMethod::Store
    }
}

impl CompressionMethod {
    /// The method an attribute word names.
    pub fn from_attributes(value: u64) -> (r: CompressionMethod)
        ensures
            r == compression_method_of(value),
    {
        if value & 0xF == 1 {
            if value >> 16 > 0 {
                CompressionMethod::Store
            } else {
                CompressionMethod::Deflate
            }
        } else if value & 0xF == 2 {
            if value >> 16 > 0 {
                CompressionMethod::Store
            } else {
                CompressionMethod::Zstd
            }
        } else {
            CompressionMethod::Store
        }
    }
}

} // verus!
