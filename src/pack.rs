//! Naming the files of a directory that is packed: their path from `natives/` on, or
//! the key that an `_Unknown/` file name spells.
use crate::hash::{utf16_of, hash_mixed_of, Utf16HashExt};
use vstd::prelude::*;
use vstd::string::{StrSliceExecFns, StringExecFns};

verus! {

/// The value of a hexadecimal digit, if the character is one.
pub open spec fn hex_digit_value(c: char) -> Option<nat> {
    if '0' <= c <= '9' {
        Some((c as u32 - 48) as nat)
    } else if 'a' <= c <= 'f' {
        Some((c as u32 - 87) as nat)
    } else if 'A' <= c <= 'F' {
        Some((c as u32 - 55) as nat)
    } else {
        None
    }
}

/// The number that hexadecimal digits spell, if they all are digits.
pub open spec fn hex_value(s: Seq<char>) -> Option<nat>
    decreases s.len(),
{
    if s.len() == 0 {
        Some(0)
    } else {
        match (hex_value(s.drop_last()), hex_digit_value(s.last())) {
            (Some(v), Some(d)) => Some(v * 16 + d),
            _ => None,
        }
    }
}

/// A hexadecimal `u64`, as std's radix parsing reads it: an optional `+`, then at
/// least one digit, and no overflow.
pub open spec fn parse_hex_u64(s: Seq<char>) -> Option<u64> {
    let t = if s.len() > 0 && s[0] == '+' {
        s.drop_first()
    } else {
        s
    };
    if t.len() == 0 {
        None
    } else {
        match hex_value(t) {
            Some(v) => if v <= u64::MAX {
                Some(v as u64)
            } else {
                None
            },
            None => None,
        }
    }
}

/// Index of the last occurrence of `c`, if any.
pub open spec fn last_index_of(s: Seq<char>, c: char) -> Option<int>
    decreases s.len(),
{
    if s.len() == 0 {
        None
    } else if s.last() == c {
        Some(s.len() - 1)
    } else {
        last_index_of(s.drop_last(), c)
    }
}

/// The last segment of a path.
pub open spec fn file_name_of(p: Seq<char>) -> Seq<char> {
    match last_index_of(p, '/') {
        Some(i) => p.skip(i + 1),
        None => p,
    }
}

/// The last segment without its extension: everything before its last dot, unless that
/// dot is its first character.
pub open spec fn file_stem_of(p: Seq<char>) -> Seq<char> {
    let n = file_name_of(p);
    match last_index_of(n, '.') {
        Some(i) => if i > 0 {
            n.take(i)
        } else {
            n
        },
        None => n,
    }
}

/// The key an `_Unknown/` file spells: its stem in hexadecimal, with or without `0x`.
pub open spec fn unknown_name_key(p: Seq<char>) -> Option<u64> {
    let stem = file_stem_of(p);
    if stem.len() >= 2 && stem[0] == '0' && stem[1] == 'x' {
        parse_hex_u64(stem.skip(2))
    } else {
        parse_hex_u64(stem)
    }
}

/// Where the last occurrence lies.
proof fn lemma_last_index(s: Seq<char>, c: char)
    ensures
        last_index_of(s, c) is Some ==> 0 <= last_index_of(s, c)->0 < s.len() && s[last_index_of(
            s,
            c,
        )->0] == c,
    decreases s.len(),
{
    if s.len() > 0 && s.last() != c {
        lemma_last_index(s.drop_last(), c);
    }
}

/// The characters of a string, one by one.
fn chars_of(s: &str) -> (r: Vec<char>)
    ensures
        r@ == s@,
{
    let mut out: Vec<char> = Vec::new();
    for c in it: s.chars()
        invariant
            it.seq() == s@,
            out@ == s@.take(it.index() as int),
    {
        out.push(c);
        proof {
            assert(out@ =~= s@.take(it.index() as int + 1));
        }
    }
    assert(out@ =~= s@);
    out
}

/// Index of the last occurrence of `c` in `v`.
fn find_last(v: &Vec<char>, c: char) -> (r: Option<usize>)
    ensures
        match r {
            Some(i) => last_index_of(v@, c) == Some(i as int),
            None => last_index_of(v@, c) is None,
        },
{
    let mut i = v.len();
    assert(v@.take(i as int) =~= v@);
    while i > 0
        invariant
            i <= v@.len(),
            last_index_of(v@, c) == last_index_of(v@.take(i as int), c),
        decreases i,
    {
        proof {
            assert(v@.take(i as int).drop_last() =~= v@.take(i - 1));
        }
        if v[i - 1] == c {
            return Some(i - 1);
        }
        i -= 1;
    }
    None
}

/// Reads hexadecimal digits `v[from..to]` as std's radix parsing does.
fn parse_hex_range(v: &Vec<char>, from: usize, to: usize) -> (r: Option<u64>)
    requires
        from <= to <= v@.len(),
    ensures
        r == parse_hex_u64(v@.subrange(from as int, to as int)),
{
    let ghost s = v@.subrange(from as int, to as int);
    let start = if from < to && v[from] == '+' {
        from + 1
    } else {
        from
    };
    let ghost t = v@.subrange(start as int, to as int);
    proof {
        if from < to {
            assert(s[0] == v@[from as int]);
        }
        if from < to && v@[from as int] == '+' {
            assert(t =~= s.drop_first());
        } else {
            assert(t =~= s);
        }
    }
    if start == to {
        return None;
    }
    let mut value: u64 = 0;
    let mut i = start;
    while i < to
        invariant
            s == v@.subrange(from as int, to as int),
            t == (if s.len() > 0 && s[0] == '+' {
                s.drop_first()
            } else {
                s
            }),
            t.len() > 0,
            start <= i <= to,
            to <= v@.len(),
            t == v@.subrange(start as int, to as int),
            hex_value(v@.subrange(start as int, i as int)) == Some(value as nat),
        decreases to - i,
    {
        let c = v[i];
        let d: u64 = if '0' <= c && c <= '9' {
            (c as u32 - 48) as u64
        } else if 'a' <= c && c <= 'f' {
            (c as u32 - 87) as u64
        } else if 'A' <= c && c <= 'F' {
            (c as u32 - 55) as u64
        } else {
            proof {
                assert(t[(i - start) as int] == c);
                lemma_hex_prefix_none(t, (i - start) as int);
                assert(t.take((i - start + 1) as int) =~= v@.subrange(start as int, i + 1));
                assert(v@.subrange(start as int, i + 1).drop_last() =~= v@.subrange(
                    start as int,
                    i as int,
                ));
            }
            return None;
        };
        proof {
            assert(v@.subrange(start as int, i + 1).drop_last() =~= v@.subrange(
                start as int,
                i as int,
            ));
        }
        if value > (u64::MAX - d) / 16 {
            proof {
                assert(hex_value(v@.subrange(start as int, i + 1)) == Some((value * 16 + d) as nat));
                assert(value * 16 + d > u64::MAX) by (nonlinear_arith)
                    requires
                        value > (u64::MAX - d) / 16,
                        d < 16,
                ;
                assert(t.take((i - start + 1) as int) =~= v@.subrange(start as int, i + 1));
                lemma_hex_grows(t, (i - start + 1) as int);
            }
            return None;
        }
        assert(value * 16 + d <= u64::MAX) by (nonlinear_arith)
            requires
                value <= (u64::MAX - d) / 16,
                d < 16,
        ;
        value = value * 16 + d;
        i += 1;
    }
    proof {
        assert(v@.subrange(start as int, to as int) =~= t);
    }
    Some(value)
}

/// Once a prefix holds a non-digit, the whole has no value.
proof fn lemma_hex_prefix_none(t: Seq<char>, k: int)
    requires
        0 <= k < t.len(),
        hex_digit_value(t[k]) is None,
    ensures
        hex_value(t) is None,
        hex_value(t.take(k + 1)) is None,
    decreases t.len(),
{
    assert(t.take(k + 1).drop_last() =~= t.take(k));
    assert(t.take(k + 1).last() == t[k]);
    if k < t.len() - 1 {
        assert(t.drop_last()[k] == t[k]);
        lemma_hex_prefix_none(t.drop_last(), k);
    }
}

/// A longer digit string never has a smaller value than its prefix.
proof fn lemma_hex_grows(t: Seq<char>, k: int)
    requires
        0 <= k <= t.len(),
        hex_value(t.take(k)) is Some,
    ensures
        hex_value(t) is None || hex_value(t)->0 >= hex_value(t.take(k))->0,
    decreases t.len(),
{
    if k < t.len() {
        assert(t.drop_last().take(k) =~= t.take(k));
        lemma_hex_grows(t.drop_last(), k);
        match (hex_value(t.drop_last()), hex_digit_value(t.last())) {
            (Some(v), Some(d)) => {
                assert(v * 16 + d >= v) by (nonlinear_arith);
            },
            _ => {},
        }
    } else {
        assert(t.take(k) =~= t);
    }
}

/// Where the stem of a path lies among its characters.
#[verifier::rlimit(40)]
fn stem_range(v: &Vec<char>) -> (r: (usize, usize))
    ensures
        r.0 <= r.1 <= v@.len(),
        file_stem_of(v@) == v@.subrange(r.0 as int, r.1 as int),
{
    proof {
        lemma_last_index(v@, '/');
    }
    let _vl = v.len();
    let name_start = match find_last(&v, '/') {
        Some(i) => i + 1,
        None => 0,
    };
    let ghost name = file_name_of(v@);
    proof {
        assert(name =~= v@.subrange(name_start as int, v@.len() as int));
    }
    let mut dot: Option<usize> = None;
    let mut k = v.len();
    assert(name.take(k - name_start) =~= name);
    while k > name_start
        invariant
            name_start <= k <= v@.len(),
            name == v@.subrange(name_start as int, v@.len() as int),
            dot is None ==> last_index_of(name, '.') == last_index_of(
                name.take(k - name_start),
                '.',
            ),
            dot is Some ==> last_index_of(name, '.') == Some(dot->0 - name_start) && dot->0
                >= name_start && dot->0 < v@.len(),
        decreases k,
    {
        if dot.is_none() {
            proof {
                assert(name.take(k - name_start).drop_last() =~= name.take(k - 1 - name_start));
            }
            if v[k - 1] == '.' {
                dot = Some(k - 1);
            }
        }
        k -= 1;
    }
    proof {
        lemma_last_index(name, '.');
        if dot is None {
            assert(name.take(0) =~= Seq::<char>::empty());
        }
    }
    let stem_end = match dot {
        Some(d) => if d > name_start {
            d
        } else {
            v.len()
        },
        None => v.len(),
    };
    proof {
        assert(file_stem_of(v@) =~= v@.subrange(name_start as int, stem_end as int));
    }
    (name_start, stem_end)
}

/// The key an `_Unknown/` file name spells, if its stem is hexadecimal (with or without
/// `0x`).
pub fn get_unknown_file_name_hash(file_path: &str) -> (r: Option<u64>)
    ensures
        r == unknown_name_key(file_path@),
{
    let v = chars_of(file_path);
    let (name_start, stem_end) = stem_range(&v);
    if stem_end - name_start >= 2 && v[name_start] == '0' && v[name_start + 1] == 'x' {
        proof {
            assert(file_stem_of(v@).skip(2) =~= v@.subrange(name_start + 2, stem_end as int));
        }
        parse_hex_range(&v, name_start + 2, stem_end)
    } else {
        parse_hex_range(&v, name_start, stem_end)
    }
}

/// Whether `pat` occurs in `s` at `i`.
pub open spec fn matches_at(s: Seq<char>, pat: Seq<char>, i: int) -> bool {
    0 <= i && i + pat.len() <= s.len() && s.subrange(i, i + pat.len()) == pat
}

/// The first index at or after `i` where `pat` occurs in `s`.
pub open spec fn first_match_from(s: Seq<char>, pat: Seq<char>, i: int) -> Option<int>
    decreases s.len() + 1 - i,
{
    if i < 0 || i + pat.len() > s.len() {
        None
    } else if matches_at(s, pat, i) {
        Some(i)
    } else {
        first_match_from(s, pat, i + 1)
    }
}

/// Finds the first occurrence of `pat` in `v`.
fn find_first(v: &Vec<char>, pat: &Vec<char>) -> (r: Option<usize>)
    requires
        pat@.len() > 0,
    ensures
        match r {
            Some(i) => first_match_from(v@, pat@, 0) == Some(i as int) && i + pat@.len() <= v@.len(),
            None => first_match_from(v@, pat@, 0) is None,
        },
{
    if pat.len() > v.len() {
        return None;
    }
    let vl = v.len();
    let last = vl - pat.len();
    let mut i: usize = 0;
    while i <= last
        invariant
            vl == v@.len(),
            pat@.len() > 0,
            last == v@.len() - pat@.len(),
            pat@.len() <= v@.len(),
            i <= last + 1,
            first_match_from(v@, pat@, 0) == first_match_from(v@, pat@, i as int),
        decreases last + 1 - i,
    {
        let mut j: usize = 0;
        let mut same = true;
        assert(v@.subrange(i as int, i as int) =~= pat@.take(0));
        while j < pat.len() && same
            invariant
                i <= last,
                vl == v@.len(),
                last == v@.len() - pat@.len(),
                j <= pat@.len(),
                same ==> v@.subrange(i as int, i + j) == pat@.take(j as int),
                !same ==> j < pat@.len() && v@[i + j] != pat@[j as int],
            decreases pat@.len() - j + if same {
                1int
            } else {
                0int
            },
        {
            proof {
                assert(v@.subrange(i as int, i + j + 1) =~= v@.subrange(i as int, i + j).push(
                    v@[i + j],
                ));
                assert(pat@.take(j + 1) =~= pat@.take(j as int).push(pat@[j as int]));
            }
            if v[i + j] != pat[j] {
                same = false;
            } else {
                j += 1;
            }
        }
        proof {
            if same {
                assert(pat@.take(pat@.len() as int) =~= pat@);
            } else {
                if matches_at(v@, pat@, i as int) {
                    assert(v@.subrange(i as int, i + pat@.len())[j as int] == v@[i + j]);
                }
            }
        }
        if same {
            return Some(i);
        }
        i += 1;
    }
    None
}

/// The characters of a string literal, as a vector.
fn pattern(s: &str) -> (r: Vec<char>)
    ensures
        r@ == s@,
{
    chars_of(s)
}

/// How a file found under the packed directory is named: its path from the first
/// `natives/` on; failing that, the key its `_Unknown/` name spells; failing that, its
/// path as it is.
pub open spec fn pack_name_of(p: Seq<char>) -> (bool, Seq<char>, u64) {
    match first_match_from(p, "natives/"@, 0) {
        Some(i) => (true, p.skip(i), 0),
        None => match first_match_from(p, "_Unknown/"@, 0) {
            Some(j) => match unknown_name_key(p.skip(j)) {
                Some(h) => (false, seq![], h),
                None => (true, p, 0),
            },
            None => (true, p, 0),
        },
    }
}

/// How a packed file is named: by its path, or by a key.
#[derive(Debug, Clone, PartialEq, Eq)]
pub enum FileName {
    Full(String),
    Hash(u64),
}

/// Names a file found under the packed directory.
pub fn pack_file_name(input_path: &str) -> (r: FileName)
    ensures
        pack_name_of(input_path@).0 ==> (r matches FileName::Full(n) && n@ == pack_name_of(
            input_path@,
        ).1),
        !pack_name_of(input_path@).0 ==> r == FileName::Hash(pack_name_of(input_path@).2),
{
    let v = chars_of(input_path);
    let n = input_path.unicode_len();
    proof {
        reveal_strlit("natives/");
        reveal_strlit("_Unknown/");
    }
    let natives = pattern("natives/");
    match find_first(&v, &natives) {
        Some(i) => {
            let rest = input_path.substring_char(i, n);
            assert(rest@ =~= input_path@.skip(i as int));
            return FileName::Full(String::from_str(rest));
        },
        None => {},
    }
    let unknown = pattern("_Unknown/");
    match find_first(&v, &unknown) {
        Some(j) => {
            let rest = input_path.substring_char(j, n);
            assert(rest@ =~= input_path@.skip(j as int));
            match get_unknown_file_name_hash(rest) {
                Some(h) => FileName::Hash(h),
                None => FileName::Full(String::from_str(input_path)),
            }
        },
        None => FileName::Full(String::from_str(input_path)),
    }
}

impl FileName {
    /// The key the file is stored under.
    pub fn hash(&self) -> (r: u64)
        requires
            match self {
                FileName::Full(n) => utf16_of(n@).len() < 0x8000_0000,
                FileName::Hash(_) => true,
            },
        ensures
            match self {
                FileName::Full(n) => r == hash_mixed_of(utf16_of(n@)),
                FileName::Hash(h) => r == *h,
            },
    {
        match self {
            FileName::Full(name) => name.hash_mixed(),
            FileName::Hash(hash) => {
                let r = hash.hash_mixed();
                proof {
                    crate::hash::lemma_key_split_mix(*hash);
                }
                r
            },
        }
    }
}

} // verus!
