use ree_pak::bytes::ByteReader;
use ree_pak::chunk::{read_chunk_table, read_chunked};
use ree_pak::cipher::{decrypt_pak_data_with_key, decrypt_resource_data, resize_key};
use ree_pak::compression::{decompress_deflate, decompress_zstd};
use ree_pak::error::PakError;
use ree_pak::pak::{CompressionMethod, EncryptionType, PakEntry, PakHeader};
use ree_pak::pakfile::read_toc;
use ree_pak::raw::{EntryV1, EntryV2, Header};
use ree_pak::read::read_archive;
use std::io::Write;

#[test]
fn test_read_write() {
    let bytes = &[
        0x34, 0x2F, 0x6E, 0xC2, 0xEB, 0xBE, 0xE6, 0x80, 0x95, 0xFA, 0x06, 0x00, 0x00, 0x00, 0x00, 0x00, 0x40, 0x8A,
        0x00, 0x00, 0x00, 0x00, 0x00, 0x00, 0x40, 0x8A, 0x00, 0x00, 0x00, 0x00, 0x00, 0x00, 0x00, 0x00, 0x00, 0x00,
        0x00, 0x00, 0x00, 0x00, 0x00, 0x00, 0x00, 0x00, 0x00, 0x00, 0x00, 0x00,
    ];
    let entry = EntryV2::read_from_bytes(bytes).unwrap();
    assert_eq!(entry.hash_name_lower, 3262000948);
    assert_eq!(entry.hash_name_upper, 2162605803);
    assert_eq!(entry.offset, 457365);
    assert_eq!(entry.compressed_size, 35392);
    assert_eq!(entry.uncompressed_size, 35392);
    assert_eq!(entry.attributes, 0);
    assert_eq!(entry.checksum, 0);

    let write_bytes = entry.into_bytes();
    assert_eq!(write_bytes, *bytes);
}

#[test]
fn test_decompress_zstd() {
    let data = b"Hello, world!";
    let mut compressed = Vec::new();
    zstd::stream::copy_encode(&data[..], &mut compressed, 3).unwrap();
    let decompressed = decompress_zstd(&compressed).unwrap();
    assert_eq!(decompressed, data);
}

#[test]
fn test_decompress_deflate() {
    let data = b"Hello, world!";
    let mut encoder = flate2::write::DeflateEncoder::new(Vec::new(), flate2::Compression::default());
    encoder.write_all(data).unwrap();
    let compressed = encoder.finish().unwrap();

    let decompressed = decompress_deflate(&compressed).unwrap();
    assert_eq!(decompressed, data);
}

#[test]
fn corrupt_streams_do_not_decompress() {
    assert!(decompress_zstd(b"not zstd").is_err());
    assert!(decompress_deflate(&[0xFF, 0xFF, 0xFF]).is_err());
}

#[test]
fn header_round_trip() {
    let bytes = [0x4B, 0x50, 0x4B, 0x41, 0x04, 0x00, 0x08, 0x00, 0x2D, 0x9C, 0x00, 0x00, 0x95, 0x41, 0x39, 0x9F];
    let raw = Header::parse(&bytes);
    assert_eq!(raw.magic, *b"KPKA");
    assert_eq!(raw.major_version, 4);
    assert_eq!(raw.minor_version, 0);
    assert_eq!(raw.feature, 0x0008);
    assert_eq!(raw.total_files, 0x9C2D);
    assert_eq!(raw.hash, 0x9F394195);
    let header = PakHeader::try_from_raw(raw).unwrap();
    assert!(header.feature().contains(0x08));
    assert_eq!(header.into_bytes(), bytes.to_vec());
}

#[test]
fn entry_v1_round_trip() {
    let mut bytes = Vec::new();
    bytes.extend_from_slice(&100u64.to_le_bytes());
    bytes.extend_from_slice(&7u64.to_le_bytes());
    bytes.extend_from_slice(&0x1111_2222u32.to_le_bytes());
    bytes.extend_from_slice(&0x3333_4444u32.to_le_bytes());
    let e = EntryV1::parse(&bytes);
    assert_eq!(e.offset, 100);
    assert_eq!(e.uncompressed_size, 7);
    assert_eq!(e.into_bytes(), bytes);
    let pe = PakEntry::from_v1(e);
    assert_eq!(pe.hash(), 0x3333_4444_1111_2222);
    assert_eq!(pe.compressed_size(), 0);
    assert_eq!(pe.checksum(), 0);
}

#[test]
fn attributes_round_trip_with_unknown_bits() {
    let attrs: u64 = 0xABCD_0000_0102_0002 | (1 << 24);
    let e = EntryV2 {
        hash_name_lower: 1,
        hash_name_upper: 2,
        offset: 3,
        compressed_size: 4,
        uncompressed_size: 5,
        attributes: attrs,
        checksum: 6,
    };
    let pe = PakEntry::from_v2(e);
    assert_eq!(pe.compression_type().bits(), 2);
    assert_eq!(pe.encryption_type(), EncryptionType::Type2);
    assert!(pe.offset_is_chunk_index());
    assert_eq!(pe.into_bytes_v2(), e.into_bytes());
}

#[test]
fn compression_method_reading() {
    assert_eq!(CompressionMethod::from_attributes(1), CompressionMethod::Deflate);
    assert_eq!(CompressionMethod::from_attributes(2), CompressionMethod::Zstd);
    assert_eq!(CompressionMethod::from_attributes(0x1_0001), CompressionMethod::Store);
    assert_eq!(CompressionMethod::from_attributes(0), CompressionMethod::Store);
}

fn header_bytes(major: u8, minor: u8, feature: u16, count: u32) -> Vec<u8> {
    let mut b = b"KPKA".to_vec();
    b.push(major);
    b.push(minor);
    b.extend_from_slice(&feature.to_le_bytes());
    b.extend_from_slice(&count.to_le_bytes());
    b.extend_from_slice(&0u32.to_le_bytes());
    b
}

#[test]
fn header_errors() {
    let mut bad = header_bytes(4, 0, 0, 0);
    bad[0] = b'X';
    let mut r = ByteReader::new(&bad);
    assert!(matches!(read_archive(&mut r), Err(PakError::InvalidMagic { .. })));

    let v = header_bytes(3, 0, 0, 0);
    let mut r = ByteReader::new(&v);
    assert_eq!(read_archive(&mut r).unwrap_err(), PakError::UnsupportedVersion { major: 3, minor: 0 });

    let f = header_bytes(4, 0, 0x40, 0);
    let mut r = ByteReader::new(&f);
    assert_eq!(read_archive(&mut r).unwrap_err(), PakError::UnsupportedFeature(0x40));

    let short = header_bytes(4, 0, 0, 1);
    let mut r = ByteReader::new(&short);
    assert_eq!(read_archive(&mut r).unwrap_err(), PakError::UnexpectedEof);

    let mut r = ByteReader::new(&short[..10]);
    assert_eq!(read_archive(&mut r).unwrap_err(), PakError::UnexpectedEof);
}

#[test]
fn v2_0_archive_uses_v1_entries() {
    let mut b = header_bytes(2, 0, 0, 1);
    b.extend_from_slice(&16u64.to_le_bytes());
    b.extend_from_slice(&5u64.to_le_bytes());
    b.extend_from_slice(&0xAAu32.to_le_bytes());
    b.extend_from_slice(&0xBBu32.to_le_bytes());
    let mut r = ByteReader::new(&b);
    let a = read_archive(&mut r).unwrap();
    assert_eq!(a.header().entry_size(), 24);
    let e = a.entries()[0];
    assert_eq!(e.offset(), 16);
    assert_eq!(e.uncompressed_size(), 5);
    assert_eq!(e.hash(), 0xBB_0000_00AA);
    assert_eq!(e.encryption_type(), EncryptionType::Unencrypted);
    assert_eq!(e.unk_attr().bits(), 0);
}

#[test]
fn extra_word_is_kept() {
    let mut b = header_bytes(4, 0, 0x10, 0);
    b.extend_from_slice(&0xDEAD_BEEFu32.to_le_bytes());
    let mut r = ByteReader::new(&b);
    let a = read_archive(&mut r).unwrap();
    assert_eq!(a.header().unk_u32_sig, 0xDEAD_BEEF);
}

#[test]
fn zero_block_size_is_rejected() {
    let mut b = Vec::new();
    b.extend_from_slice(&0u32.to_le_bytes());
    b.extend_from_slice(&1u32.to_le_bytes());
    b.extend_from_slice(&0u32.to_le_bytes());
    b.extend_from_slice(&0x2000_0000u32.to_le_bytes());
    let mut r = ByteReader::new(&b);
    assert_eq!(read_chunk_table(&mut r).unwrap_err(), PakError::ZeroBlockSize);
}

#[test]
fn chunk_starts_wrap_into_high_word() {
    let mut b = Vec::new();
    b.extend_from_slice(&0x10u32.to_le_bytes());
    b.extend_from_slice(&3u32.to_le_bytes());
    for (low, meta) in [(0xFFFF_FF00u32, 0x2000_0000u32), (0x10, 0x2000_0000), (0x20, 5 << 10)] {
        b.extend_from_slice(&low.to_le_bytes());
        b.extend_from_slice(&meta.to_le_bytes());
    }
    let mut r = ByteReader::new(&b);
    let t = read_chunk_table(&mut r).unwrap();
    assert_eq!(t.block_size(), 0x10);
    assert_eq!(t.chunks()[0].start(), 0xFFFF_FF00);
    assert_eq!(t.chunks()[1].start(), 0x1_0000_0010);
    assert_eq!(t.chunks()[2].start(), 0x1_0000_0020);
    assert!(t.chunks()[0].is_raw());
    assert_eq!(t.chunks()[2].compressed_len(0x10), 5);
    assert_eq!(t.chunks()[0].compressed_len(0x10), 0x10);
}

fn block(seed: u8, len: usize) -> Vec<u8> {
    (0..len).map(|i| (i as u8).wrapping_mul(31).wrapping_add(seed)).collect()
}

#[test]
fn chunk_round_trip() {
    let bs: usize = 0x10000;
    let blocks: Vec<Vec<u8>> = (0..6).map(|i| block(i as u8 * 17 + 1, bs)).collect();
    let mut stored: Vec<(Vec<u8>, u32)> = Vec::new();
    for (i, b) in blocks.iter().enumerate() {
        if i % 2 == 0 {
            stored.push((b.clone(), 0x2000_0000));
        } else {
            let mut z = Vec::new();
            zstd::stream::copy_encode(&b[..], &mut z, 3).unwrap();
            let meta = (z.len() as u32) << 10;
            stored.push((z, meta));
        }
    }
    let mut file = header_bytes(4, 0, 0x20, 1);
    let attrs: u64 = 1 << 24;
    file.extend_from_slice(&1u32.to_le_bytes());
    file.extend_from_slice(&2u32.to_le_bytes());
    file.extend_from_slice(&3u64.to_le_bytes());
    file.extend_from_slice(&0u64.to_le_bytes());
    file.extend_from_slice(&0x1_8000u64.to_le_bytes());
    file.extend_from_slice(&attrs.to_le_bytes());
    file.extend_from_slice(&0u64.to_le_bytes());
    file.extend_from_slice(&(bs as u32).to_le_bytes());
    file.extend_from_slice(&6u32.to_le_bytes());
    let table_end = file.len() + 6 * 8;
    let mut at = table_end;
    for (data, meta) in &stored {
        file.extend_from_slice(&(at as u32).to_le_bytes());
        file.extend_from_slice(&meta.to_le_bytes());
        at += data.len();
    }
    for (data, _) in &stored {
        file.extend_from_slice(data);
    }
    let (archive, table) = read_toc(&file).unwrap();
    let table = table.unwrap();
    let entry = archive.entries()[0];
    let got = ree_pak::entry::read_entry(&file, &entry, Some(&table)).unwrap();
    let mut want = blocks[3].clone();
    want.extend_from_slice(&blocks[4]);
    want.extend_from_slice(&blocks[5][..0x8000]);
    assert_eq!(got.len(), 0x18000);
    let first_diff = (0..got.len()).find(|&i| got[i] != want[i]);
    assert_eq!(first_diff, None);

    assert!(matches!(read_chunked(&file, &table, 5, 0x18000), Err(PakError::InvalidChunkIndex(_))));
    assert!(matches!(read_chunked(&file, &table, 6, 1), Err(PakError::InvalidChunkIndex(6))));
    assert_eq!(read_chunked(&file, &table, 9, 0).unwrap(), Vec::<u8>::new());
    assert!(matches!(
        ree_pak::entry::read_entry(&file, &entry, None),
        Err(PakError::MissingChunkTable)
    ));
}

#[test]
fn table_keystream_formula() {
    let key: Vec<u8> = (0..40u8).collect();
    let data = vec![0u8; 64];
    let out = decrypt_pak_data_with_key(&data, &key);
    for i in 0..64usize {
        let k = (i + key[i % 32] as usize * key[i % 29] as usize) as u8;
        assert_eq!(out[i], k);
    }
    assert_eq!(resize_key(&[1, 2]).len(), 129);
}

#[test]
fn short_encrypted_payload_is_eof() {
    assert_eq!(decrypt_resource_data(&[1, 2, 3]).unwrap_err(), PakError::UnexpectedEof);
    assert_eq!(decrypt_resource_data(&[0; 8]).unwrap(), Vec::<u8>::new());
    assert_eq!(decrypt_resource_data(&[0; 8 + 128]).unwrap_err(), PakError::InvalidCipherBlock);
}

#[test]
fn zero_quotient_block_gives_eight_zero_bytes() {
    let mut data = vec![0u8; 8];
    let mut block = vec![0u8; 128];
    block[0] = 1;
    data.extend_from_slice(&block);
    block[64] = 5;
    data.extend_from_slice(&block);
    assert_eq!(decrypt_resource_data(&data).unwrap(), vec![0, 0, 0, 0, 0, 0, 0, 0, 5]);
}
