use ree_pak::extract::path_escapes_root;
use ree_pak::hash::Utf16HashExt;
use ree_pak::pack::{get_unknown_file_name_hash, pack_file_name, FileName};

#[test]
fn dot_dot_segments_are_checked() {
    assert!(!path_escapes_root("natives/stm/a.txt"));
    assert!(!path_escapes_root("a/../b.txt"));
    assert!(path_escapes_root("../b.txt"));
    assert!(path_escapes_root("a/../../b.txt"));
    assert!(path_escapes_root("/etc/passwd"));
    assert!(!path_escapes_root("a/.../b"));
    assert!(!path_escapes_root("./a"));
    assert!(path_escapes_root(".."));
}

#[test]
fn unknown_names_spell_keys() {
    assert_eq!(get_unknown_file_name_hash("_Unknown/0123456789ABCDEF.tex"), Some(0x0123456789ABCDEF));
    assert_eq!(get_unknown_file_name_hash("_Unknown/0xff"), Some(0xFF));
    assert_eq!(get_unknown_file_name_hash("_Unknown/+1a"), Some(0x1A));
    assert_eq!(get_unknown_file_name_hash("_Unknown/xyz.tex"), None);
    assert_eq!(get_unknown_file_name_hash("_Unknown/10000000000000000"), None);
    assert_eq!(get_unknown_file_name_hash("_Unknown/.tex"), None);
}

#[test]
fn packed_names() {
    assert_eq!(
        pack_file_name("out/dir/natives/stm/a.txt"),
        FileName::Full("natives/stm/a.txt".to_string())
    );
    assert_eq!(pack_file_name("out/_Unknown/00000000000000AB.tex"), FileName::Hash(0xAB));
    assert_eq!(pack_file_name("out/_Unknown/zz"), FileName::Full("out/_Unknown/zz".to_string()));
    assert_eq!(pack_file_name("plain.txt"), FileName::Full("plain.txt".to_string()));
    assert_eq!(FileName::Hash(0xAB).hash(), 0xAB);
    assert_eq!(FileName::Full("natives/stm/a.txt".to_string()).hash(), "natives/stm/a.txt".hash_mixed());
}
