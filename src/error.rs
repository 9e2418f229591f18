//! Errors of the container codec and the readers.
use vstd::prelude::*;

verus! {

/// Everything that can go wrong while reading a PAK.
#[derive(Debug, Clone, PartialEq, Eq)]
pub enum PakError {
    /// A failure of the byte source, with its message.
    IO(String),
    /// The input ended before a structure was complete.
    UnexpectedEof,
    InvalidMagic { expected: [u8; 4], found: [u8; 4] },
    UnsupportedVersion { major: u8, minor: u8 },
    /// Feature bits outside the supported set were set (the raw feature word).
    UnsupportedFeature(u16),
    UnsupportedAlgorithm(u16),
    /// A filename list that is not UTF-8, with the reason.
    InvalidFileList(String),
    EntryIndexOutOfBounds,
    InvalidUtf16,
    /// A chunked entry in an archive without a chunk table.
    MissingChunkTable,
    InvalidChunkIndex(u64),
    /// A chunk table whose block size is zero.
    ZeroBlockSize,
    /// A chunk whose bytes lie outside the source.
    ChunkOutOfRange { index: u64, start: u64, end: u64, file_size: u64 },
    /// A chunk that did not decode, with the decoder's message.
    ChunkDecode { index: u64, message: String },
    /// A chunk that decoded to other than one block.
    ChunkSize { index: u64, got: u64, block_size: u64 },
    InvalidEntryRange { offset: u64, size: u64, file_size: u64 },
    /// A payload that did not decompress (compression kind bits, decoder's message).
    Decompression { compression: u8, message: String },
    /// A wrapped key or payload block that the cipher cannot use.
    InvalidCipherBlock,
    ThreadPoolBuild(String),
}

} // verus!
