//! The dictionary from path key to path, loaded from a list of paths.
use crate::compression::{zstd_decode, zstd_decode_of};
use crate::error::PakError;
use crate::hash::{hash_mixed_of, utf16_of, Utf16HashExt, Utf16LeString};
use vstd::utf8::{decode_utf8, valid_utf8};
use vstd::prelude::*;
use vstd::string::StringExecFns;

verus! {

broadcast use vstd::std_specs::hash::group_hash_axioms;

/// A path with every backslash turned into a slash.
pub open spec fn normalize_path(s: Seq<char>) -> Seq<char> {
    s.map_values(|c: char| if c == '\\' { '/' } else { c })
}

/// The units stored for a listed path.
pub open spec fn stored_units(s: Seq<char>) -> Seq<u16> {
    utf16_of(normalize_path(s))
}

/// The key a listed path is stored under.
pub open spec fn path_key(s: Seq<char>) -> u64 {
    hash_mixed_of(stored_units(s))
}

/// Map from path key to the path's units.
#[derive(Debug, Clone)]
pub struct FileNameTable {
    file_names: std::collections::HashMap<u64, Utf16LeString>,
}

impl View for FileNameTable {
    type V = Map<u64, Seq<u16>>;

    closed spec fn view(&self) -> Map<u64, Seq<u16>> {
        Map::new(
            |k: u64| self.file_names@.contains_key(k),
            |k: u64| self.file_names@[k]@,
        )
    }
}

impl Utf16LeString {
    /// Encodes a path as UTF-16 with backslashes turned into slashes.
    pub fn new_normalized(s: &str) -> (r: Self)
        ensures
            r@ == stored_units(s@),
    {
        let mut units: Vec<u16> = Vec::new();
        let ghost mut seen: Seq<char> = seq![];
        for c in it: s.chars()
            invariant
                it.seq() == s@,
                seen == s@.take(it.index() as int),
                units@ == utf16_of(normalize_path(seen)),
        {
            let d = if c == '\\' {
                '/'
            } else {
                c
            };
            proof {
                vstd::utf8::char_is_scalar(d);
            }
            let v = d as u32;
            if v < 0x10000 {
                units.push(v as u16);
            } else {
                let w = v - 0x10000;
                units.push((0xD800 + w / 0x400) as u16);
                units.push((0xDC00 + w % 0x400) as u16);
            }
            proof {
                let next = s@.take(it.index() as int + 1);
                assert(next.drop_last() =~= seen);
                assert(normalize_path(next).drop_last() =~= normalize_path(seen));
                assert(normalize_path(next).last() == d);
                seen = next;
            }
        }
        proof {
            assert(seen =~= s@);
        }
        Utf16LeString::from_units(units)
    }
}

impl FileNameTable {
    pub fn new() -> (r: Self)
        ensures
            r@ == Map::<u64, Seq<u16>>::empty(),
    {
        let r = FileNameTable { file_names: std::collections::HashMap::new() };
        assert(r@ =~= Map::<u64, Seq<u16>>::empty());
        r
    }

    /// Adds a path, with backslashes turned into slashes, under its key; a later path
    /// with the same key replaces an earlier one.
    pub fn push_str(&mut self, file_name: &str)
        requires
            short_path(file_name@),
        ensures
            final(self)@ == old(self)@.insert(path_key(file_name@), stored_units(file_name@)),
    {
        let name = Utf16LeString::new_normalized(file_name);
        let hash = name.hash_mixed();
        self.file_names.insert(hash, name);
        assert(final(self)@ =~= old(self)@.insert(path_key(file_name@), stored_units(file_name@)));
    }

    /// The path stored under a key.
    pub fn get_file_name(&self, hash: u64) -> (r: Option<&Utf16LeString>)
        ensures
            match r {
                Some(n) => self@.contains_key(hash) && n@ == self@[hash],
                None => !self@.contains_key(hash),
            },
    {
        self.file_names.get(&hash)
    }

    /// Number of stored paths.
    pub fn len(&self) -> (r: usize)
        ensures
            r == self@.dom().len(),
    {
        assert(self@.dom() =~= self.file_names@.dom());
        self.file_names.len()
    }
}

/// The table a list of paths builds: each path under its key, later ones winning.
pub open spec fn table_of_list(l: Seq<Seq<char>>) -> Map<u64, Seq<u16>>
    decreases l.len(),
{
    if l.len() == 0 {
        Map::empty()
    } else {
        table_of_list(l.drop_last()).insert(path_key(l.last()), stored_units(l.last()))
    }
}

/// A line without one trailing carriage return.
pub open spec fn strip_cr(l: Seq<char>) -> Seq<char> {
    if l.len() > 0 && l.last() == '\r' {
        l.drop_last()
    } else {
        l
    }
}

/// Scanning text: the finished lines, and the line being read.
pub open spec fn scan_lines(s: Seq<char>) -> (Seq<Seq<char>>, Seq<char>)
    decreases s.len(),
{
    if s.len() == 0 {
        (seq![], seq![])
    } else {
        let (ls, cur) = scan_lines(s.drop_last());
        if s.last() == '\n' {
            (ls.push(strip_cr(cur)), seq![])
        } else {
            (ls, cur.push(s.last()))
        }
    }
}

/// The lines of a text, split at `\n` or `\r\n`; a last line needs no terminator.
pub open spec fn text_lines(s: Seq<char>) -> Seq<Seq<char>> {
    let (ls, cur) = scan_lines(s);
    if cur.len() > 0 {
        ls.push(cur)
    } else {
        ls
    }
}

/// Whether a line of a list names a path: it is not empty and not a `#` comment.
pub open spec fn is_listed(l: Seq<char>) -> bool {
    l.len() > 0 && l[0] != '#'
}

/// The table the lines of a list build, skipping empty and comment lines.
pub open spec fn table_of_lines(ls: Seq<Seq<char>>) -> Map<u64, Seq<u16>>
    decreases ls.len(),
{
    if ls.len() == 0 {
        Map::empty()
    } else if is_listed(ls.last()) {
        table_of_lines(ls.drop_last()).insert(path_key(ls.last()), stored_units(ls.last()))
    } else {
        table_of_lines(ls.drop_last())
    }
}

/// Whether a listed path is short enough to hash: under 2^31 units.
pub open spec fn short_path(l: Seq<char>) -> bool {
    stored_units(l).len() < 0x8000_0000
}

/// Whether every listed line of a list is short enough to hash.
pub open spec fn lines_hashable(ls: Seq<Seq<char>>) -> bool {
    forall|k: int| 0 <= k < ls.len() && is_listed(#[trigger] ls[k]) ==> short_path(ls[k])
}

/// The lines finished after a prefix of a text are the first lines of the whole text.
proof fn lemma_scan_prefix(s: Seq<char>, i: int)
    requires
        0 <= i <= s.len(),
    ensures
        scan_lines(s.take(i)).0.len() <= text_lines(s).len(),
        forall|k: int|
            0 <= k < scan_lines(s.take(i)).0.len() ==> text_lines(s)[k] == #[trigger] scan_lines(
                s.take(i),
            ).0[k],
    decreases s.len() - i,
{
    if i < s.len() {
        lemma_scan_prefix(s, i + 1);
        assert(s.take(i + 1).drop_last() =~= s.take(i));
        let a = scan_lines(s.take(i)).0;
        let b = scan_lines(s.take(i + 1)).0;
        assert(b.len() >= a.len() && forall|k: int| 0 <= k < a.len() ==> b[k] == a[k]);
        assert forall|k: int| 0 <= k < a.len() implies text_lines(s)[k] == #[trigger] a[k] by {
            assert(b[k] == a[k]);
        }
    } else {
        assert(s.take(i) =~= s);
        let a = scan_lines(s).0;
        assert(text_lines(s).len() >= a.len() && forall|k: int|
            0 <= k < a.len() ==> text_lines(s)[k] == a[k]);
    }
}

/// The magic of a zstd frame.
pub open spec fn has_zstd_magic(b: Seq<u8>) -> bool {
    b.len() >= 4 && b[0] == 0x28 && b[1] == 0xB5 && b[2] == 0x2F && b[3] == 0xFD
}

/// The text of a list file: zstd-decoded when it starts with the zstd magic.
pub open spec fn list_text_bytes(b: Seq<u8>) -> Option<Seq<u8>> {
    if has_zstd_magic(b) {
        zstd_decode_of(b)
    } else {
        Some(b)
    }
}

/// Relies on String::from_utf8: it accepts exactly the valid UTF-8 byte strings and
/// gives the characters they encode.
#[verifier::external_body]
fn string_from_utf8(bytes: Vec<u8>) -> (r: Result<String, String>)
    ensures
        match r {
            Ok(s) => valid_utf8(bytes@) && s@ == decode_utf8(bytes@),
            Err(_) => !valid_utf8(bytes@),
        },
{
    String::from_utf8(bytes).map_err(|e| e.to_string())
}

/// A text has at least as many units as characters.
proof fn lemma_units_len(s: Seq<char>)
    ensures
        utf16_of(s).len() >= s.len(),
    decreases s.len(),
{
    if s.len() > 0 {
        lemma_units_len(s.drop_last());
    }
}

/// The last unit of an encoded text is its last character when that is a carriage
/// return.
proof fn lemma_strip_cr_units(cur: Seq<char>)
    requires
        cur.len() > 0,
        cur.last() == '\r',
    ensures
        stored_units(strip_cr(cur)) == stored_units(cur).drop_last(),
{
    assert(normalize_path(cur).drop_last() =~= normalize_path(cur.drop_last()));
    assert(normalize_path(cur).last() == '\r');
    assert(normalize_path(cur).len() > 0);
    assert(utf16_of(normalize_path(cur)) == utf16_of(normalize_path(cur).drop_last()) + seq![
        13u16,
    ]);
    assert((utf16_of(normalize_path(cur).drop_last()) + seq![13u16]).drop_last() =~= utf16_of(
        normalize_path(cur).drop_last(),
    ));
}

/// The units of a line grow by those of its next character.
proof fn lemma_push_units(cur: Seq<char>, c: char)
    ensures
        stored_units(cur.push(c)) == stored_units(cur) + crate::hash::char_units(
            if c == '\\' {
                '/'
            } else {
                c
            },
        ),
{
    assert(normalize_path(cur.push(c)).drop_last() =~= normalize_path(cur));
}

impl FileNameTable {
    /// Stores units under their key.
    fn insert_units(&mut self, name: Utf16LeString)
        requires
            name@.len() < 0x8000_0000,
        ensures
            final(self)@ == old(self)@.insert(hash_mixed_of(name@), name@),
    {
        let hash = name.hash_mixed();
        let ghost u = name@;
        self.file_names.insert(hash, name);
        assert(final(self)@ =~= old(self)@.insert(hash_mixed_of(u), u));
    }

    /// Builds a table from paths, each stored under its key; later paths win. A path too
    /// long to hash is refused.
    pub fn from_list(file_names: Vec<String>) -> (r: Result<Self, PakError>)
        ensures
            (forall|i: int| 0 <= i < file_names@.len() ==> short_path(#[trigger] file_names@[i]@))
                ==> r is Ok && r->Ok_0@ == table_of_list(file_names@.map_values(|s: String| s@)),
            !(forall|i: int| 0 <= i < file_names@.len() ==> short_path(#[trigger] file_names@[i]@))
                ==> r matches Err(PakError::InvalidFileList(_)),
    {
        let ghost l = file_names@.map_values(|s: String| s@);
        let mut t = FileNameTable::new();
        let mut i: usize = 0;
        while i < file_names.len()
            invariant
                i <= file_names@.len(),
                l == file_names@.map_values(|s: String| s@),
                t@ == table_of_list(l.take(i as int)),
                forall|j: int| 0 <= j < i ==> short_path(#[trigger] file_names@[j]@),
            decreases file_names@.len() - i,
        {
            let name = Utf16LeString::new_normalized(file_names[i].as_str());
            if name.len() >= 0x8000_0000 {
                return Err(PakError::InvalidFileList(String::from_str("path too long to hash")));
            }
            t.push_str(file_names[i].as_str());
            proof {
                assert(l.take(i as int + 1).drop_last() =~= l.take(i as int));
            }
            i += 1;
        }
        assert(l.take(i as int) =~= l);
        Ok(t)
    }

    /// Builds a table from the text of a list: one path per line, `#` comments and
    /// empty lines skipped. A path too long to hash is refused.
    pub fn from_text(text: &str) -> (r: Result<Self, PakError>)
        ensures
            lines_hashable(text_lines(text@)) ==> r is Ok && r->Ok_0@ == table_of_lines(
                text_lines(text@),
            ),
            !lines_hashable(text_lines(text@)) ==> r matches Err(PakError::InvalidFileList(_)),
    {
        let mut t = FileNameTable::new();
        let mut cur: Vec<u16> = Vec::new();
        let mut cur_len: usize = 0;
        let mut first_is_hash = false;
        let mut last_cr = false;
        let ghost mut seen: Seq<char> = seq![];
        for c in it: text.chars()
            invariant
                it.seq() == text@,
                seen == text@.take(it.index() as int),
                t@ == table_of_lines(scan_lines(seen).0),
                lines_hashable(scan_lines(seen).0),
                cur@ == stored_units(scan_lines(seen).1),
                cur_len <= cur@.len(),
                cur_len == scan_lines(seen).1.len(),
                cur_len > 0 ==> first_is_hash == (scan_lines(seen).1[0] == '#'),
                cur_len > 0 ==> last_cr == (scan_lines(seen).1.last() == '\r'),
        {
            let ghost prev = seen;
            proof {
                let next = text@.take(it.index() as int + 1);
                assert(next.drop_last() =~= prev);
                assert(next.last() == c);
                seen = next;
            }
            if c == '\n' {
                let ghost line = strip_cr(scan_lines(prev).1);
                if cur_len > 0 && last_cr {
                    proof {
                        lemma_strip_cr_units(scan_lines(prev).1);
                    }
                    cur.pop();
                    cur_len = cur_len - 1;
                }
                proof {
                    assert(cur@ == stored_units(line));
                    assert(cur_len == line.len());
                    if cur_len > 0 {
                        assert(line[0] == scan_lines(prev).1[0]);
                    }
                }
                proof {
                    assert(scan_lines(seen).0.drop_last() =~= scan_lines(prev).0);
                    assert(scan_lines(seen).0.last() == line);
                }
                if cur_len > 0 && !first_is_hash {
                    if cur.len() >= 0x8000_0000 {
                        proof {
                            lemma_scan_prefix(text@, it.index() as int + 1);
                            let k = scan_lines(seen).0.len() - 1;
                            assert(scan_lines(seen).0[k] == line);
                            assert(text_lines(text@)[k] == line);
                        }
                        return Err(
                            PakError::InvalidFileList(String::from_str("path too long to hash")),
                        );
                    }
                    let name = Utf16LeString::from_units(cur);
                    t.insert_units(name);
                } else {
                    proof {
                        assert(!is_listed(line));
                    }
                }
                proof {
                    assert forall|k: int|
                        0 <= k < scan_lines(seen).0.len() && is_listed(
                            #[trigger] scan_lines(seen).0[k],
                        ) implies short_path(scan_lines(seen).0[k]) by {
                        if k < scan_lines(prev).0.len() {
                            assert(scan_lines(seen).0[k] == scan_lines(prev).0[k]);
                        }
                    }
                }
                cur = Vec::new();
                cur_len = 0;
                first_is_hash = false;
                last_cr = false;
            } else {
                proof {
                    lemma_push_units(scan_lines(prev).1, c);
                    vstd::utf8::char_is_scalar(c);
                }
                let d = if c == '\\' {
                    '/'
                } else {
                    c
                };
                proof {
                    vstd::utf8::char_is_scalar(d);
                }
                let v = d as u32;
                if v < 0x10000 {
                    cur.push(v as u16);
                } else {
                    let w = v - 0x10000;
                    cur.push((0xD800 + w / 0x400) as u16);
                    cur.push((0xDC00 + w % 0x400) as u16);
                }
                if cur_len == 0 {
                    first_is_hash = c == '#';
                }
                last_cr = c == '\r';
                proof {
                    lemma_units_len(normalize_path(scan_lines(seen).1));
                    assert(cur@ =~= stored_units(scan_lines(seen).1));
                    assert(scan_lines(seen).1 == scan_lines(prev).1.push(c));
                    assert(normalize_path(scan_lines(seen).1).len() == scan_lines(seen).1.len());
                }
                let ul = cur.len();
                assert(cur_len + 1 <= ul);
                cur_len = cur_len + 1;
                proof {
                    assert(cur@ =~= stored_units(scan_lines(seen).1));
                }
            }
        }
        proof {
            assert(seen =~= text@);
        }
        proof {
            if cur_len > 0 {
                assert(text_lines(text@).drop_last() =~= scan_lines(text@).0);
                assert(text_lines(text@).last() == scan_lines(text@).1);
            } else {
                assert(text_lines(text@) == scan_lines(text@).0);
            }
        }
        if cur_len > 0 && !first_is_hash {
            if cur.len() >= 0x8000_0000 {
                proof {
                    let k = text_lines(text@).len() - 1;
                    assert(is_listed(text_lines(text@)[k]));
                }
                return Err(PakError::InvalidFileList(String::from_str("path too long to hash")));
            }
            let name = Utf16LeString::from_units(cur);
            t.insert_units(name);
        }
        proof {
            assert forall|k: int|
                0 <= k < text_lines(text@).len() && is_listed(
                    #[trigger] text_lines(text@)[k],
                ) implies short_path(text_lines(text@)[k]) by {
                if k < scan_lines(text@).0.len() {
                    assert(text_lines(text@)[k] == scan_lines(text@).0[k]);
                }
            }
        }
        Ok(t)
    }

    /// Builds a table from the bytes of a list file, zstd-framed or plain; fails on a
    /// bad frame or on text that is not UTF-8.
    pub fn from_bytes(bytes: &[u8]) -> (r: Result<Self, PakError>)
        ensures
            match list_text_bytes(bytes@) {
                Some(b) => if valid_utf8(b) && lines_hashable(text_lines(decode_utf8(b))) {
                    r is Ok && r->Ok_0@ == table_of_lines(text_lines(decode_utf8(b)))
                } else {
                    r matches Err(PakError::InvalidFileList(_))
                },
                None => r matches Err(PakError::InvalidFileList(_)),
            },
    {
        let raw: Vec<u8> = if bytes.len() >= 4 && bytes[0] == 0x28 && bytes[1] == 0xB5 && bytes[2]
            == 0x2F && bytes[3] == 0xFD {
            match zstd_decode(bytes) {
                Ok(v) => v,
                Err(m) => {
                    return Err(PakError::InvalidFileList(m));
                },
            }
        } else {
            let mut v: Vec<u8> = Vec::new();
            crate::bytes::extend_bytes(&mut v, bytes);
            assert(v@ =~= bytes@);
            v
        };
        match string_from_utf8(raw) {
            Ok(text) => FileNameTable::from_text(text.as_str()),
            Err(m) => Err(PakError::InvalidFileList(m)),
        }
    }
}

} // verus!
