use ree_pak::entry::{decode_entry, sniff_extension, ExtensionReader};
use ree_pak::error::PakError;
use ree_pak::extract::{
    path_has_extension, plan_extraction, renamed_path, should_continue, summarize, unknown_rel_path,
    ItemOutcome,
};
use ree_pak::filename::FileNameTable;
use ree_pak::hash::Utf16HashExt;
use ree_pak::pakfile::{read_toc, PakArchiveReader};
use ree_pak::write::{FileOptions, PakOptions, PakWriteError, PakWriter};

#[test]
fn test_pak_writer() {
    let mut writer = PakWriter::new(2);
    writer.start_file("test.txt", FileOptions::default()).unwrap();
    writer.write_all(b"hello world").unwrap();
    writer.start_file("a/test2.txt", FileOptions::default()).unwrap();
    writer.write_all("你好，中国！".as_bytes()).unwrap();
    let (_, vec) = writer.finish();

    println!("{:?}", vec);

    let (archive, _) = read_toc(&vec).unwrap();
    println!("{:#?}", archive);
    let archive_reader = PakArchiveReader::new(vec.clone(), &archive);
    for (i, entry) in archive.entries().iter().enumerate() {
        let buf = archive_reader.owned_entry_reader(*entry).unwrap();
        assert_eq!(buf.len(), entry.uncompressed_size as usize);
        if i == 0 {
            assert_eq!(buf, b"hello world");
        } else if i == 1 {
            assert_eq!(buf, "你好，中国！".as_bytes());
        }
    }
}

#[test]
fn writer_layout_and_limits() {
    let mut w = PakWriter::new(3);
    assert_eq!(w.write_all(b"x").unwrap_err(), PakWriteError::NoFileStarted);
    w.start_file_hash(0x1122_3344_5566_7788, FileOptions::default().with_checksum(9)).unwrap();
    w.write_all(b"abc").unwrap();
    let (n, bytes) = w.finish();
    assert_eq!(n, 1);
    assert_eq!(bytes.len(), 16 + 3 * 48 + 3);
    assert_eq!(&bytes[16 + 48..16 + 3 * 48], &[0u8; 96][..]);
    let (a, _) = read_toc(&bytes).unwrap();
    let e = a.entries()[0];
    assert_eq!(e.hash(), 0x1122_3344_5566_7788);
    assert_eq!(e.offset(), 16 + 3 * 48);
    assert_eq!(e.compressed_size(), 3);
    assert_eq!(e.checksum(), 9);
    assert_eq!(a.header().hash(), 0);

    let mut w = PakWriter::new(1);
    w.start_file("a", FileOptions::default()).unwrap();
    assert_eq!(w.start_file("b", FileOptions::default()).unwrap_err(), PakWriteError::EntryCountExceeded);
    let opts = PakOptions::default().with_version(2, 0);
    assert!(matches!(
        PakWriter::new_with_options(opts),
        Err(PakWriteError::UnsupportedVersion { major: 2, minor: 0 })
    ));
}

#[test]
fn store_entry_extraction() {
    let mut w = PakWriter::new(1);
    w.start_file("test.txt", FileOptions::default()).unwrap();
    w.write_all(b"hello world").unwrap();
    let (_, bytes) = w.finish();
    let (archive, chunks) = read_toc(&bytes).unwrap();
    assert_eq!(archive.header().major_version(), 4);
    let mut table = FileNameTable::new();
    table.push_str("test.txt");
    let plan = plan_extraction(archive.entries(), Some(&table), false).unwrap();
    assert_eq!(plan.items.len(), 1);
    assert_eq!(plan.skipped, 0);
    assert_eq!(plan.items[0].rel_path, "test.txt");
    let data = ree_pak::entry::read_entry(&bytes, &plan.items[0].entry, chunks.as_ref()).unwrap();
    assert_eq!(data, b"hello world");
    assert_eq!(renamed_path("test.txt", sniff_extension(&data)), None);
}

#[test]
fn unknown_name_fallback() {
    let mut payload = vec![0x54, 0x45, 0x58, 0x00, 0x01, 0x02, 0x03, 0x04];
    payload.extend_from_slice(&[7; 20]);
    let mut w = PakWriter::new(1);
    w.start_file_hash(0x0123_4567_89AB_CDEF, FileOptions::default()).unwrap();
    w.write_all(&payload).unwrap();
    let (_, bytes) = w.finish();
    let (archive, _) = read_toc(&bytes).unwrap();
    let table = FileNameTable::new();
    let plan = plan_extraction(archive.entries(), Some(&table), false).unwrap();
    assert_eq!(plan.items[0].rel_path, "_Unknown/0123456789ABCDEF");
    assert!(!plan.items[0].known);
    let data = ree_pak::entry::read_entry(&bytes, &plan.items[0].entry, None).unwrap();
    let ext = sniff_extension(&data);
    assert_eq!(ext, Some("tex"));
    assert_eq!(renamed_path(&plan.items[0].rel_path, ext).unwrap(), "_Unknown/0123456789ABCDEF.tex");

    let skipped = plan_extraction(archive.entries(), Some(&table), true).unwrap();
    assert_eq!(skipped.items.len(), 0);
    assert_eq!(skipped.skipped, 1);
    assert_eq!(unknown_rel_path(0xA), "_Unknown/000000000000000A");
}

#[test]
fn empty_payload_gets_no_extension() {
    assert_eq!(sniff_extension(&[]), None);
    assert_eq!(renamed_path("_Unknown/0000000000000001", sniff_extension(&[])), None);
    let mut s = ExtensionReader::new();
    s.observe(&[0x54, 0x45, 0x58]);
    assert_eq!(s.determine_extension(), None);
    s.observe(&[0, 0, 0, 0, 0, 9, 9]);
    assert_eq!(s.determine_extension(), Some("tex"));
    assert_eq!(s.magic_bytes(), [0x54, 0x45, 0x58, 0, 0, 0, 0, 0]);
    assert_eq!(s.magic_lower(), 0x584554);
    assert_eq!(s.magic_upper(), 0);
}

#[test]
fn known_extension_is_never_renamed() {
    assert_eq!(renamed_path("a/b.txt", Some("tex")), None);
    assert!(path_has_extension("a/b.txt"));
    assert!(!path_has_extension("a.b/c"));
    assert!(!path_has_extension("a/.hidden"));
    assert_eq!(renamed_path("a.b/c", Some("tex")).unwrap(), "a.b/c.tex");
}

#[test]
fn second_magic_word_lookup() {
    let mut m = vec![0u8; 4];
    m.extend_from_slice(&0x20746F6Du32.to_le_bytes());
    assert_eq!(sniff_extension(&m), Some("mot"));
    assert_eq!(sniff_extension(&[1, 2, 3, 4, 5, 6, 7, 8]), None);
}

#[test]
fn outcomes_add_up() {
    let outcomes = vec![
        ItemOutcome { hash: 1, path: "a".to_string(), error: None },
        ItemOutcome { hash: 2, path: "b".to_string(), error: Some("boom".to_string()) },
        ItemOutcome { hash: 3, path: "c".to_string(), error: None },
    ];
    let r = summarize(4, &outcomes);
    assert_eq!(r.extracted, 2);
    assert_eq!(r.failed, 1);
    assert_eq!(r.skipped, 4);
    assert_eq!(r.extracted + r.failed, outcomes.len());
    assert_eq!(r.errors, vec![(2, "b".to_string(), "boom".to_string())]);
    assert!(should_continue(true, true, false));
    assert!(!should_continue(true, false, false));
    assert!(!should_continue(false, true, true));
}

#[test]
fn filename_list_parsing() {
    let text = "# comment\r\nnatives\\stm\\a.txt\r\n\nNatives/STM/b.txt";
    let t = FileNameTable::from_bytes(text.as_bytes()).unwrap();
    assert_eq!(t.len(), 2);
    let a = t.get_file_name("natives/stm/a.txt".hash_mixed()).unwrap();
    assert_eq!(a.to_string().unwrap(), "natives/stm/a.txt");
    let b = t.get_file_name("natives/stm/b.txt".hash_mixed()).unwrap();
    assert_eq!(b.to_string().unwrap(), "Natives/STM/b.txt");

    let mut z = Vec::new();
    zstd::stream::copy_encode(text.as_bytes(), &mut z, 3).unwrap();
    assert_eq!(FileNameTable::from_bytes(&z).unwrap().len(), 2);

    assert!(matches!(FileNameTable::from_bytes(&[0xFF, 0xFE, 0x00]), Err(PakError::InvalidFileList(_))));
    assert!(matches!(
        FileNameTable::from_bytes(&[0x28, 0xB5, 0x2F, 0xFD, 0, 0]),
        Err(PakError::InvalidFileList(_))
    ));
    let t = FileNameTable::from_bytes(b"#only\n\n").unwrap();
    assert_eq!(t.len(), 0);
    let l = FileNameTable::from_list(vec!["x\\y".to_string()]).unwrap();
    assert!(l.get_file_name("x/y".hash_mixed()).is_some());
}

#[test]
fn compressed_entries_decode_to_their_size() {
    let content = b"some resource bytes, repeated repeated repeated".to_vec();
    let mut z = Vec::new();
    zstd::stream::copy_encode(&content[..], &mut z, 3).unwrap();
    let mut entry = ree_pak::pak::PakEntry::default();
    entry.compression_type = ree_pak::pak::CompressionType::from_bits(2);
    entry.compressed_size = z.len() as u64;
    entry.uncompressed_size = content.len() as u64;
    let out = decode_entry(&z, &entry).unwrap();
    assert_eq!(out.len() as u64, entry.uncompressed_size);
    entry.compression_type = ree_pak::pak::CompressionType::from_bits(1);
    assert!(matches!(decode_entry(&z, &entry), Err(PakError::Decompression { compression: 1, .. })));
}

#[test]
fn entry_range_errors() {
    let mut entry = ree_pak::pak::PakEntry::default();
    entry.offset = 10;
    entry.compressed_size = 10;
    assert_eq!(
        ree_pak::entry::read_entry(&[0u8; 15], &entry, None).unwrap_err(),
        PakError::InvalidEntryRange { offset: 10, size: 10, file_size: 15 }
    );
}
