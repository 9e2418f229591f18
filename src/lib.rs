//! Reading, extracting and writing PAK resource containers (magic `KPKA`).
pub mod bytes;
pub mod chunk;
pub mod cipher;
pub mod compression;
pub mod entry;
pub mod error;
pub mod extract;
pub mod extension;
pub mod filename;
pub mod hash;
pub mod pack;
pub mod pak;
pub mod pakfile;
pub mod raw;
pub mod read;
pub mod write;
