use ree_pak::hash::{murmur3_hash, FileNameFull, Utf16CaseReader, Utf16HashExt, Utf16LeString};

fn hash_string(input: &str) -> u32 {
    let utf16 = input.encode_utf16().flat_map(|x| x.to_le_bytes()).collect::<Vec<u8>>();
    murmur3_hash(&utf16)
}

#[test]
fn test_hash_string() {
    let hash = hash_string("Hello, world!");
    println!("Hash: {:X}", hash);
}

#[test]
fn test_hash_string2() {
    let hash = hash_string("natives/stm/quest/supplydata/supplydata.user.2");
    assert_eq!(hash, 0xD80FAFD3);
}

#[test]
fn test_utf16_case_reader() {
    let test_string = "Hello.TXT";
    let utf16_str = Utf16LeString::new_from_str(test_string);

    let mut upper_reader = Utf16CaseReader::new_uppercase(utf16_str.as_utf16());
    let mut upper_data = Vec::new();
    upper_reader.read_to_end(&mut upper_data);

    let mut lower_reader = Utf16CaseReader::new_lowercase(utf16_str.as_utf16());
    let mut lower_data = Vec::new();
    lower_reader.read_to_end(&mut lower_data);

    assert!(!upper_data.is_empty());
    assert!(!lower_data.is_empty());

    assert_ne!(upper_data, lower_data);
}

#[test]
fn test_utf16_le_string_basic() {
    let test_string = "Hello.TXT";
    let utf16_str = Utf16LeString::new_from_str(test_string);

    assert!(!utf16_str.is_empty());
    assert!(!utf16_str.is_empty());

    let expected_utf16: Vec<u16> = test_string.encode_utf16().collect();
    assert_eq!(utf16_str.as_utf16(), &expected_utf16);

    assert_eq!(utf16_str.to_string().unwrap(), test_string);
}

#[test]
fn test_utf16_string_mixed_hash() {
    let test_string = "test.file";
    let utf16_str = Utf16LeString::new_from_str(test_string);

    let mixed_hash = utf16_str.hash_mixed();
    let lower_hash = utf16_str.hash_lower_case();
    let upper_hash = utf16_str.hash_upper_case();

    let expected_mixed = ((upper_hash as u64) << 32) | (lower_hash as u64);
    assert_eq!(mixed_hash, expected_mixed);
}

#[test]
fn test_compatibility_with_known_values() {
    let filename = "natives/stm/camera/collisionfilter/defaultcamera.cfil.7";

    let utf16_str = Utf16LeString::new_from_str(filename);
    assert_eq!(utf16_str.hash_lower_case(), 0x65B486A1);
    assert_eq!(utf16_str.hash_upper_case(), 0x958EDD0C);
    assert_eq!(utf16_str.hash_mixed(), 0x958EDD0C65B486A1);

    let str_slice: &str = filename;
    assert_eq!(str_slice.hash_lower_case(), 0x65B486A1);
    assert_eq!(str_slice.hash_upper_case(), 0x958EDD0C);
    assert_eq!(str_slice.hash_mixed(), 0x958EDD0C65B486A1);
}

#[test]
fn test_compatibility() {
    let test_cases = vec![
        "test.txt",
        "UPPERCASE.FILE",
        "MiXeD_CaSe.dat",
        "natives/stm/camera/collisionfilter/defaultcamera.cfil.7",
    ];

    for test_str in test_cases {
        let original = FileNameFull::new(test_str);

        let utf16_str = Utf16LeString::new_from_str(test_str);
        let str_impl: &str = test_str;
        let string_impl = test_str.to_string();

        assert_eq!(utf16_str.hash_lower_case(), original.hash_lower_case());
        assert_eq!(utf16_str.hash_upper_case(), original.hash_upper_case());
        assert_eq!(utf16_str.hash_mixed(), original.hash_mixed());
        assert_eq!(str_impl.hash_mixed(), original.hash_mixed());
        assert_eq!(string_impl.hash_mixed(), original.hash_mixed());
    }
}

#[test]
fn key_halves_match_case_hashes() {
    for s in ["a/B/c.txt", "", "natives/x", "ÄÖÜ/x"] {
        let k = s.hash_mixed();
        assert_eq!(k >> 32, s.hash_upper_case() as u64);
        assert_eq!(k & 0xFFFF_FFFF, s.hash_lower_case() as u64);
    }
}

#[test]
fn key_ignores_ascii_case() {
    let s = "natives/stm/Camera/CollisionFilter/defaultcamera.cfil.7";
    let upper = s.to_ascii_uppercase();
    assert_eq!(s.hash_mixed(), upper.as_str().hash_mixed());
    assert_eq!(s.hash_mixed(), 0x958EDD0C65B486A1);
}

#[test]
fn lower_hash_is_murmur_of_lowercase_bytes() {
    let s = "Some/ASCII/Path.TXT";
    let lower = s.to_ascii_lowercase();
    assert_eq!(hash_string(&lower), s.hash_lower_case());
    assert_eq!(hash_string(&s.to_ascii_uppercase()), s.hash_upper_case());
}

#[test]
fn raw_key_hashes_to_itself() {
    let k: u64 = 0x958EDD0C65B486A1;
    assert_eq!(k.hash_lower_case(), 0x65B486A1);
    assert_eq!(k.hash_upper_case(), 0x958EDD0C);
    assert_eq!(k.hash_mixed(), k);
}

#[test]
fn case_reader_streams_in_pieces() {
    let s = Utf16LeString::new_from_str("aB");
    let mut r = Utf16CaseReader::new_uppercase(s.as_utf16());
    let mut buf = [0u8; 3];
    assert_eq!(r.read(&mut buf), 3);
    assert_eq!(buf, [b'A', 0, b'B']);
    let mut one = [9u8; 2];
    assert_eq!(r.read(&mut one), 1);
    assert_eq!(one, [0, 9]);
    assert_eq!(r.read(&mut one), 0);
    assert_eq!(s.as_bytes(), vec![b'a', 0, b'B', 0]);
}

#[test]
fn invalid_utf16_is_reported() {
    let s = Utf16LeString::from_units(vec![0xD800]);
    assert!(s.to_string().is_err());
}

#[test]
fn checked_full_case_hash() {
    let f = FileNameFull::new("MiXeD_CaSe.dat");
    assert_eq!(f.try_hash_mixed(), Some(f.hash_mixed()));
    assert_eq!(f.try_hash_mixed(), Some("mixed_case.dat".hash_mixed()));
}
