//! Case-insensitive path hashing over UTF-16LE code units.
use vstd::prelude::*;
use crate::error::PakError;

verus! {

/// What MurmurHash3-32 with seed `0xFFFFFFFF` yields for a byte string.
pub uninterp spec fn murmur3_of(data: Seq<u8>) -> u32;

/// Relies on murmur3::murmur3_32 with seed `0xFFFFFFFF`: the hash depends on the bytes alone.
/// It counts bytes in a `u32` and panics past 2^32 - 1 of them, which `requires` leaves
/// out.
#[verifier::external_body]
fn murmur3_of_bytes(data: &[u8]) -> (r: u32)
    requires
        data@.len() < 0x1_0000_0000,
    ensures
        r == murmur3_of(data@),
{
    let mut source = data;
    murmur3::murmur3_32(&mut source, 0xFFFF_FFFF).unwrap()
}

/// Relies on murmur3::murmur3_32 with seed `0xFFFFFFFF`, reading the rest of a case
/// reader's stream through its `std::io::Read` impl, which never fails. It counts bytes
/// in a `u32` and panics past 2^32 - 1 of them, which `requires` leaves out.
#[verifier::external_body]
fn murmur3_of_reader(reader: &mut Utf16CaseReader) -> (r: u32)
    requires
        old(reader).wf(),
        old(reader).rest().len() < 0x1_0000_0000,
    ensures
        r == murmur3_of(old(reader).rest()),
{
    murmur3::murmur3_32(reader, 0xFFFF_FFFF).unwrap()
}

/// std's I/O error, carried opaquely through the case reader's `Read` impl.
#[verifier::external_type_specification]
#[verifier::external_body]
pub struct ExIoError(std::io::Error);

impl<'a> std::io::Read for Utf16CaseReader<'a> {
    #[verifier::external_body]
    fn read(&mut self, buf: &mut [u8]) -> std::io::Result<usize> {
        Ok(Utf16CaseReader::read(self, buf))
    }
}

/// MurmurHash3-32 with seed `0xFFFFFFFF` over `data`.
pub fn murmur3_hash(data: &[u8]) -> (r: u32)
    requires
        data@.len() < 0x1_0000_0000,
    ensures
        r == murmur3_of(data@),
{
    murmur3_of_bytes(data)
}

/// The UTF-16 code units of one character.
pub open spec fn char_units(c: char) -> Seq<u16> {
    let v = c as u32;
    if v < 0x10000 {
        seq![v as u16]
    } else {
        seq![(0xD800 + (v - 0x10000) / 0x400) as u16, (0xDC00 + (v - 0x10000) % 0x400) as u16]
    }
}

/// The UTF-16 encoding of a character sequence.
pub open spec fn utf16_of(s: Seq<char>) -> Seq<u16>
    decreases s.len(),
{
    if s.len() == 0 {
        seq![]
    } else {
        utf16_of(s.drop_last()) + char_units(s.last())
    }
}

/// A code unit with its ASCII letter case set (upper when `upper`, else lower);
/// every other unit is left as it is.
pub open spec fn fold_unit(u: u16, upper: bool) -> u16 {
    if upper && 97 <= u <= 122 {
        (u - 32) as u16
    } else if !upper && 65 <= u <= 90 {
        (u + 32) as u16
    } else {
        u
    }
}

/// Code units in little-endian byte order, two bytes per unit.
pub open spec fn le_bytes_of_units(s: Seq<u16>) -> Seq<u8> {
    Seq::new(
        2 * s.len(),
        |i: int|
            if i % 2 == 0 {
                (s[i / 2] % 256) as u8
            } else {
                (s[i / 2] / 256) as u8
            },
    )
}

/// The case-folded units of a path.
pub open spec fn fold_units(s: Seq<u16>, upper: bool) -> Seq<u16> {
    s.map_values(|u: u16| fold_unit(u, upper))
}

/// The byte stream that is hashed: case-folded units in little-endian order.
pub open spec fn folded_bytes(s: Seq<u16>, upper: bool) -> Seq<u8> {
    le_bytes_of_units(fold_units(s, upper))
}

/// Hash of the lower-cased path.
pub open spec fn hash_lower_of(s: Seq<u16>) -> u32 {
    murmur3_of(folded_bytes(s, false))
}

/// Hash of the upper-cased path.
pub open spec fn hash_upper_of(s: Seq<u16>) -> u32 {
    murmur3_of(folded_bytes(s, true))
}

/// Two 32-bit halves joined into one key, `upper` in the high half.
pub open spec fn mix(upper: u32, lower: u32) -> u64 {
    ((upper as u64) * 0x1_0000_0000 + lower as u64) as u64
}

/// The 64-bit key of a path.
pub open spec fn hash_mixed_of(s: Seq<u16>) -> u64 {
    mix(hash_upper_of(s), hash_lower_of(s))
}

/// Joins two halves with shifts, as the key is computed.
pub fn mix_halves(upper: u32, lower: u32) -> (r: u64)
    ensures
        r == mix(upper, lower),
{
    let r = ((upper as u64) << 32) | (lower as u64);
    assert(r == mix(upper, lower)) by (bit_vector)
        requires
            r == ((upper as u64) << 32) | (lower as u64),
    ;
    r
}

/// The halves of a key come back out of it.
pub proof fn lemma_mix_halves(upper: u32, lower: u32)
    ensures
        mix(upper, lower) >> 32 == upper as u64,
        mix(upper, lower) & 0xFFFF_FFFF == lower as u64,
{
    let m = mix(upper, lower);
    assert(m >> 32 == upper as u64 && m & 0xFFFF_FFFF == lower as u64) by (bit_vector)
        requires
            m == (upper as u64) * 0x1_0000_0000 + lower as u64,
    ;
}

/// For every path the key's high half is the upper-case hash and its low half the
/// lower-case hash.
pub proof fn lemma_key_halves(s: Seq<u16>)
    ensures
        hash_mixed_of(s) >> 32 == hash_upper_of(s) as u64,
        hash_mixed_of(s) & 0xFFFF_FFFF == hash_lower_of(s) as u64,
{
    lemma_mix_halves(hash_upper_of(s), hash_lower_of(s));
}

/// Folding a unit to either case after folding it to upper case is the same as
/// folding it directly.
proof fn lemma_fold_after_upper(u: u16, upper: bool)
    ensures
        fold_unit(fold_unit(u, true), upper) == fold_unit(u, upper),
{
}

/// A path and its ASCII upper-case variant have the same key.
pub proof fn lemma_key_ignores_case(s: Seq<u16>)
    ensures
        hash_mixed_of(s) == hash_mixed_of(fold_units(s, true)),
{
    assert(fold_units(fold_units(s, true), true) =~= fold_units(s, true));
    assert(fold_units(fold_units(s, true), false) =~= fold_units(s, false));
}

/// The ASCII lower-case form of a character; other characters are unchanged.
pub open spec fn ascii_lower_char(c: char) -> char {
    if 'A' <= c <= 'Z' {
        ((c as u32) + 32) as char
    } else {
        c
    }
}

/// Encoding and lower-casing commute for ASCII letters.
proof fn lemma_utf16_lower(s: Seq<char>)
    ensures
        utf16_of(s.map_values(|c: char| ascii_lower_char(c))) =~= fold_units(utf16_of(s), false),
    decreases s.len(),
{
    if s.len() > 0 {
        let t = s.map_values(|c: char| ascii_lower_char(c));
        assert(t.drop_last() =~= s.drop_last().map_values(|c: char| ascii_lower_char(c)));
        lemma_utf16_lower(s.drop_last());
        let c = s.last();
        vstd::utf8::char_is_scalar(c);
        assert(fold_units(utf16_of(s), false) =~= fold_units(utf16_of(s.drop_last()), false)
            + fold_units(char_units(c), false));
        if 'A' <= c <= 'Z' {
            let d = ((c as u32) + 32) as char;
            assert(d as u32 == (c as u32) + 32);
        }
    }
}

/// The ASCII upper-case form of a character; other characters are unchanged.
pub open spec fn ascii_upper_char(c: char) -> char {
    if 'a' <= c <= 'z' {
        ((c as u32) - 32) as char
    } else {
        c
    }
}

/// Encoding and upper-casing commute for ASCII letters.
proof fn lemma_utf16_upper(s: Seq<char>)
    ensures
        utf16_of(s.map_values(|c: char| ascii_upper_char(c))) =~= fold_units(utf16_of(s), true),
    decreases s.len(),
{
    if s.len() > 0 {
        let t = s.map_values(|c: char| ascii_upper_char(c));
        assert(t.drop_last() =~= s.drop_last().map_values(|c: char| ascii_upper_char(c)));
        lemma_utf16_upper(s.drop_last());
        let c = s.last();
        vstd::utf8::char_is_scalar(c);
        assert(fold_units(utf16_of(s), true) =~= fold_units(utf16_of(s.drop_last()), true)
            + fold_units(char_units(c), true));
        if 'a' <= c <= 'z' {
            let d = ((c as u32) - 32) as char;
            assert(d as u32 == (c as u32) - 32);
        }
    }
}

/// A path and its ASCII upper-case variant have the same key.
pub proof fn lemma_path_key_ignores_case(s: Seq<char>)
    ensures
        hash_mixed_of(utf16_of(s)) == hash_mixed_of(
            utf16_of(s.map_values(|c: char| ascii_upper_char(c))),
        ),
{
    lemma_utf16_upper(s);
    lemma_key_ignores_case(utf16_of(s));
}

/// The lower-case hash of a path is MurmurHash3 over the UTF-16LE bytes of its ASCII
/// lower-case form.
pub proof fn lemma_lower_hash_of_lowercase(s: Seq<char>)
    ensures
        murmur3_of(le_bytes_of_units(utf16_of(s.map_values(|c: char| ascii_lower_char(c)))))
            == hash_lower_of(utf16_of(s)),
{
    lemma_utf16_lower(s);
}

/// A path held as UTF-16 code units.
#[derive(Debug, Clone, PartialEq, Eq)]
pub struct Utf16LeString {
    units: Vec<u16>,
}

impl View for Utf16LeString {
    type V = Seq<u16>;

    closed spec fn view(&self) -> Seq<u16> {
        self.units@
    }
}

} // verus!

verus! {

/// Whether the UTF-16 units decode to some string.
#[verifier::opaque]
pub open spec fn is_utf16_of_some(units: Seq<u16>) -> bool {
    exists|s: Seq<char>| #[trigger] utf16_of(s) == units
}

/// Relies on String::from_utf16: it decodes exactly the UTF-16 sequences that some
/// string encodes to, and fails otherwise.
#[verifier::external_body]
fn string_from_utf16(units: &[u16]) -> (r: Option<String>)
    ensures
        match r {
            Some(s) => utf16_of(s@) == units@,
            None => !is_utf16_of_some(units@),
        },
{
    String::from_utf16(units).ok()
}

/// Low byte of a unit.
fn low_byte(u: u16) -> (r: u8)
    ensures
        r == (u % 256) as u8,
{
    (u % 256) as u8
}

/// High byte of a unit.
fn high_byte(u: u16) -> (r: u8)
    ensures
        r == (u / 256) as u8,
{
    (u / 256) as u8
}

/// Sets the ASCII letter case of one unit.
pub fn fold_unit_exec(u: u16, upper: bool) -> (r: u16)
    ensures
        r == fold_unit(u, upper),
{
    if upper && 97 <= u && u <= 122 {
        u - 32
    } else if !upper && 65 <= u && u <= 90 {
        u + 32
    } else {
        u
    }
}

impl Utf16LeString {
    /// Encodes a string as UTF-16.
    pub fn new_from_str(s: &str) -> (r: Self)
        ensures
            r@ == utf16_of(s@),
    {
        let mut units: Vec<u16> = Vec::new();
        let ghost mut seen: Seq<char> = seq![];
        for c in it: s.chars()
            invariant
                it.seq() == s@,
                seen == s@.take(it.index() as int),
                units@ == utf16_of(seen),
        {
            proof {
                vstd::utf8::char_is_scalar(c);
            }
            let v = c as u32;
            if v < 0x10000 {
                units.push(v as u16);
            } else {
                let w = v - 0x10000;
                units.push((0xD800 + w / 0x400) as u16);
                units.push((0xDC00 + w % 0x400) as u16);
            }
            proof {
                let next = s@.take(it.index() as int + 1);
                assert(next.drop_last() =~= seen);
                assert(next.last() == c);
                seen = next;
            }
        }
        proof {
            assert(seen =~= s@);
        }
        Utf16LeString { units }
    }

    /// A string holding exactly these units.
    pub fn from_units(units: Vec<u16>) -> (r: Self)
        ensures
            r@ == units@,
    {
        Utf16LeString { units }
    }

    /// The code units.
    pub fn as_utf16(&self) -> (r: &[u16])
        ensures
            r@ == self@,
    {
        self.units.as_slice()
    }

    /// The code units in little-endian byte order.
    pub fn as_bytes(&self) -> (r: Vec<u8>)
        ensures
            r@ == le_bytes_of_units(self@),
    {
        let mut out: Vec<u8> = Vec::new();
        let mut i: usize = 0;
        while i < self.units.len()
            invariant
                i <= self.units.len(),
                out@ =~= le_bytes_of_units(self@.take(i as int)),
            decreases self.units.len() - i,
        {
            let u = self.units[i];
            out.push(low_byte(u));
            out.push(high_byte(u));
            i += 1;
            assert(out@ =~= le_bytes_of_units(self@.take(i as int)));
        }
        assert(self@.take(i as int) =~= self@);
        out
    }

    /// Decodes the units back into a string.
    pub fn to_string(&self) -> (r: Result<String, PakError>)
        ensures
            match r {
                Ok(s) => utf16_of(s@) == self@,
                Err(e) => e == PakError::InvalidUtf16 && !is_utf16_of_some(self@),
            },
    {
        match string_from_utf16(self.units.as_slice()) {
            Some(s) => Ok(s),
            None => Err(PakError::InvalidUtf16),
        }
    }

    /// Number of code units.
    pub fn len(&self) -> (r: usize)
        ensures
            r == self@.len(),
    {
        self.units.len()
    }

    /// Whether there are no code units.
    pub fn is_empty(&self) -> (r: bool)
        ensures
            r == (self@.len() == 0),
    {
        self.units.len() == 0
    }
}

/// A pull reader over the case-folded little-endian bytes of a unit sequence; it holds
/// at most one pending high byte and never copies the units.
pub struct Utf16CaseReader<'a> {
    data: &'a [u16],
    position: usize,
    uppercase: bool,
    pending_high_byte: Option<u8>,
}

impl<'a> Utf16CaseReader<'a> {
    /// The units being read.
    pub closed spec fn source(&self) -> Seq<u16> {
        self.data@
    }

    /// Whether letters are folded to upper case.
    pub closed spec fn upper(&self) -> bool {
        self.uppercase
    }

    /// The whole byte stream this reader yields.
    pub open spec fn stream(&self) -> Seq<u8> {
        folded_bytes(self.source(), self.upper())
    }

    /// How many bytes of the stream have been yielded.
    pub closed spec fn consumed(&self) -> int {
        2 * self.position - if self.pending_high_byte is Some { 1int } else { 0int }
    }

    pub closed spec fn wf(&self) -> bool {
        &&& self.position <= self.data@.len()
        &&& self.pending_high_byte is Some ==> self.position >= 1
            && self.pending_high_byte->0 == self.stream()[2 * self.position - 1]
    }

    /// Bytes not yet yielded.
    pub open spec fn rest(&self) -> Seq<u8> {
        self.stream().subrange(self.consumed(), self.stream().len() as int)
    }

    pub fn new_uppercase(data: &'a [u16]) -> (r: Self)
        ensures
            r.wf(),
            r.source() == data@,
            r.upper(),
            r.consumed() == 0,
    {
        Utf16CaseReader { data, position: 0, uppercase: true, pending_high_byte: None }
    }

    pub fn new_lowercase(data: &'a [u16]) -> (r: Self)
        ensures
            r.wf(),
            r.source() == data@,
            !r.upper(),
            r.consumed() == 0,
    {
        Utf16CaseReader { data, position: 0, uppercase: false, pending_high_byte: None }
    }

    /// Yields the next byte of the stream, or `None` at its end.
    pub fn next_byte(&mut self) -> (r: Option<u8>)
        requires
            old(self).wf(),
        ensures
            final(self).wf(),
            final(self).source() == old(self).source(),
            final(self).upper() == old(self).upper(),
            0 <= old(self).consumed() <= old(self).stream().len(),
            old(self).consumed() < old(self).stream().len() ==> r == Some(
                old(self).stream()[old(self).consumed()],
            ) && final(self).consumed() == old(self).consumed() + 1,
            old(self).consumed() == old(self).stream().len() ==> r is None && final(self).consumed()
                == old(self).consumed(),
    {
        if let Some(h) = self.pending_high_byte {
            self.pending_high_byte = None;
            Some(h)
        } else if self.position < self.data.len() {
            let u = fold_unit_exec(self.data[self.position], self.uppercase);
            let p = self.position;
            self.position = self.position + 1;
            let lo = low_byte(u);
            let hi = high_byte(u);
            self.pending_high_byte = Some(hi);
            proof {
                let s = self.stream();
                assert((2 * p) / 2 == p && (2 * p) % 2 == 0);
                assert((2 * p + 1) / 2 == p && (2 * p + 1) % 2 == 1);
                assert(fold_units(self.data@, self.uppercase)[p as int] == u);
                assert(s[2 * p] == lo);
                assert(s[2 * p + 1] == hi);
            }
            Some(lo)
        } else {
            None
        }
    }

    /// Fills `buf` from the front with as many stream bytes as fit or remain, and
    /// returns how many it wrote; the rest of `buf` is untouched.
    pub fn read(&mut self, buf: &mut [u8]) -> (n: usize)
        requires
            old(self).wf(),
        ensures
            final(self).wf(),
            final(self).source() == old(self).source(),
            final(self).upper() == old(self).upper(),
            n == vstd::math::min(old(buf)@.len() as int, old(self).rest().len() as int),
            final(self).consumed() == old(self).consumed() + n,
            final(buf)@.len() == old(buf)@.len(),
            final(buf)@.subrange(0, n as int) == old(self).rest().subrange(0, n as int),
            final(buf)@.subrange(n as int, old(buf)@.len() as int) == old(buf)@.subrange(
                n as int,
                old(buf)@.len() as int,
            ),
    {
        let mut n: usize = 0;
        let mut done = false;
        let ghost c0 = self.consumed();
        let ghost b0 = buf@;
        while !done && n < buf.len()
            invariant
                self.wf(),
                self.source() == old(self).source(),
                self.upper() == old(self).upper(),
                c0 == old(self).consumed(),
                b0 == old(buf)@,
                0 <= c0 <= self.stream().len(),
                n <= buf@.len(),
                buf@.len() == b0.len(),
                self.consumed() == c0 + n,
                self.consumed() <= self.stream().len(),
                done ==> self.consumed() == self.stream().len(),
                buf@.subrange(0, n as int) == self.stream().subrange(c0, c0 + n),
                forall|i: int| n <= i < b0.len() ==> buf@[i] == b0[i],
            decreases buf@.len() - n + if done { 0int } else { 1int },
        {
            match self.next_byte() {
                Some(b) => {
                    buf[n] = b;
                    n = n + 1;
                    assert(buf@.subrange(0, n as int) =~= self.stream().subrange(c0, c0 + n));
                },
                None => {
                    done = true;
                },
            }
        }
        assert(old(self).rest().subrange(0, n as int) =~= self.stream().subrange(c0, c0 + n));
        assert(buf@.subrange(n as int, b0.len() as int) =~= b0.subrange(n as int, b0.len() as int));
        n
    }

    /// Appends the rest of the stream to `out` and returns how many bytes that was.
    pub fn read_to_end(&mut self, out: &mut Vec<u8>) -> (n: usize)
        requires
            old(self).wf(),
        ensures
            final(self).wf(),
            final(out)@ == old(out)@ + old(self).rest(),
            n == old(self).rest().len(),
    {
        let ghost c0 = self.consumed();
        let ghost o0 = out@;
        let start = out.len();
        let mut n: usize = 0;
        let mut done = false;
        while !done
            invariant
                self.wf(),
                self.source() == old(self).source(),
                self.upper() == old(self).upper(),
                c0 == old(self).consumed(),
                o0 == old(out)@,
                0 <= c0 <= self.stream().len(),
                self.consumed() == c0 + n,
                self.consumed() <= self.stream().len(),
                start == o0.len(),
                done ==> self.consumed() == self.stream().len(),
                out@ == o0 + self.stream().subrange(c0, c0 + n),
            decreases self.stream().len() - self.consumed() + if done { 0int } else { 1int },
        {
            match self.next_byte() {
                Some(b) => {
                    out.push(b);
                    n = out.len() - start;
                    assert(out@ =~= o0 + self.stream().subrange(c0, c0 + n));
                },
                None => {
                    done = true;
                },
            }
        }
        n
    }
}

/// Hashing of a path in both letter cases.
pub trait Utf16HashExt {
    /// The lower-case half.
    spec fn lower_spec(&self) -> u32;

    /// The upper-case half.
    spec fn upper_spec(&self) -> u32;

    /// Whether the hashed byte streams are short enough to hash: under 2^32 bytes.
    spec fn hashable(&self) -> bool;

    fn hash_lower_case(&self) -> (r: u32)
        requires
            self.hashable(),
        ensures
            r == self.lower_spec(),
    ;

    fn hash_upper_case(&self) -> (r: u32)
        requires
            self.hashable(),
        ensures
            r == self.upper_spec(),
    ;

    /// The 64-bit key: upper half over lower half.
    fn hash_mixed(&self) -> (r: u64)
        requires
            self.hashable(),
        ensures
            r == mix(self.upper_spec(), self.lower_spec()),
    {
        let upper = self.hash_upper_case();
        let lower = self.hash_lower_case();
        mix_halves(upper, lower)
    }
}

/// MurmurHash3 over the case-folded stream of `units`, pulled from a case reader
/// without building the folded bytes.
fn hash_units(units: &[u16], upper: bool) -> (r: u32)
    requires
        units@.len() < 0x8000_0000,
    ensures
        r == murmur3_of(folded_bytes(units@, upper)),
{
    let mut reader = if upper {
        Utf16CaseReader::new_uppercase(units)
    } else {
        Utf16CaseReader::new_lowercase(units)
    };
    assert(reader.rest() =~= folded_bytes(units@, upper));
    murmur3_of_reader(&mut reader)
}

impl Utf16HashExt for Utf16LeString {
    open spec fn hashable(&self) -> bool {
        self@.len() < 0x8000_0000
    }

    open spec fn lower_spec(&self) -> u32 {
        hash_lower_of(self@)
    }

    open spec fn upper_spec(&self) -> u32 {
        hash_upper_of(self@)
    }

    fn hash_lower_case(&self) -> (r: u32) {
        hash_units(self.as_utf16(), false)
    }

    fn hash_upper_case(&self) -> (r: u32) {
        hash_units(self.as_utf16(), true)
    }
}

impl<'a> Utf16HashExt for &'a str {
    open spec fn hashable(&self) -> bool {
        utf16_of((*self)@).len() < 0x8000_0000
    }

    open spec fn lower_spec(&self) -> u32 {
        hash_lower_of(utf16_of((*self)@))
    }

    open spec fn upper_spec(&self) -> u32 {
        hash_upper_of(utf16_of((*self)@))
    }

    fn hash_lower_case(&self) -> (r: u32) {
        Utf16LeString::new_from_str(*self).hash_lower_case()
    }

    fn hash_upper_case(&self) -> (r: u32) {
        Utf16LeString::new_from_str(*self).hash_upper_case()
    }
}

impl Utf16HashExt for String {
    open spec fn hashable(&self) -> bool {
        utf16_of(self@).len() < 0x8000_0000
    }

    open spec fn lower_spec(&self) -> u32 {
        hash_lower_of(utf16_of(self@))
    }

    open spec fn upper_spec(&self) -> u32 {
        hash_upper_of(utf16_of(self@))
    }

    fn hash_lower_case(&self) -> (r: u32) {
        Utf16LeString::new_from_str(self.as_str()).hash_lower_case()
    }

    fn hash_upper_case(&self) -> (r: u32) {
        Utf16LeString::new_from_str(self.as_str()).hash_upper_case()
    }
}

/// A raw key hashes to itself: its halves are read back out of it.
impl Utf16HashExt for u64 {
    open spec fn hashable(&self) -> bool {
        true
    }

    open spec fn lower_spec(&self) -> u32 {
        (*self % 0x1_0000_0000) as u32
    }

    open spec fn upper_spec(&self) -> u32 {
        (*self / 0x1_0000_0000) as u32
    }

    fn hash_lower_case(&self) -> (r: u32) {
        let r = (*self & 0xFFFF_FFFF) as u32;
        assert(r == (*self % 0x1_0000_0000) as u32) by (bit_vector)
            requires
                r == (*self & 0xFFFF_FFFF) as u32,
        ;
        r
    }

    fn hash_upper_case(&self) -> (r: u32) {
        let r = (*self >> 32) as u32;
        assert(r == (*self / 0x1_0000_0000) as u32) by (bit_vector)
            requires
                r == (*self >> 32) as u32,
        ;
        r
    }
}

/// What full Unicode lower-casing yields for a string.
pub uninterp spec fn unicode_lower_of(s: Seq<char>) -> Seq<char>;

/// What full Unicode upper-casing yields for a string.
pub uninterp spec fn unicode_upper_of(s: Seq<char>) -> Seq<char>;

/// Relies on str::to_lowercase: the result depends on the characters alone.
#[verifier::external_body]
fn unicode_lowercase(s: &str) -> (r: String)
    ensures
        r@ == unicode_lower_of(s@),
{
    s.to_lowercase()
}

/// Relies on str::to_uppercase: the result depends on the characters alone.
#[verifier::external_body]
fn unicode_uppercase(s: &str) -> (r: String)
    ensures
        r@ == unicode_upper_of(s@),
{
    s.to_uppercase()
}

/// A path hashed after full Unicode case mapping rather than ASCII folding.
#[derive(Debug, Clone, PartialEq, Eq)]
pub struct FileNameFull {
    name: String,
}

impl View for FileNameFull {
    type V = Seq<char>;

    closed spec fn view(&self) -> Seq<char> {
        self.name@
    }
}

impl FileNameFull {
    pub fn new(s: &str) -> (r: Self)
        ensures
            r@ == s@,
    {
        FileNameFull { name: s.to_owned() }
    }

    /// The key after full case mapping, or `None` when a mapped form is too long to hash.
    pub fn try_hash_mixed(&self) -> (r: Option<u64>)
        ensures
            self.hashable() ==> r == Some(mix(self.upper_spec(), self.lower_spec())),
            !self.hashable() ==> r is None,
    {
        let l = unicode_lowercase(self.name.as_str());
        let u = unicode_uppercase(self.name.as_str());
        if Utf16LeString::new_from_str(l.as_str()).len() >= 0x8000_0000
            || Utf16LeString::new_from_str(u.as_str()).len() >= 0x8000_0000 {
            return None;
        }
        Some(mix_halves(hash_exact(u.as_str()), hash_exact(l.as_str())))
    }
}

/// MurmurHash3 over the UTF-16LE bytes of a string as it is.
fn hash_exact(s: &str) -> (r: u32)
    requires
        utf16_of(s@).len() < 0x8000_0000,
    ensures
        r == murmur3_of(le_bytes_of_units(utf16_of(s@))),
{
    let u = Utf16LeString::new_from_str(s);
    let b = u.as_bytes();
    murmur3_of_bytes(b.as_slice())
}

impl Utf16HashExt for FileNameFull {
    open spec fn hashable(&self) -> bool {
        &&& utf16_of(unicode_lower_of(self@)).len() < 0x8000_0000
        &&& utf16_of(unicode_upper_of(self@)).len() < 0x8000_0000
    }

    open spec fn lower_spec(&self) -> u32 {
        murmur3_of(le_bytes_of_units(utf16_of(unicode_lower_of(self@))))
    }

    open spec fn upper_spec(&self) -> u32 {
        murmur3_of(le_bytes_of_units(utf16_of(unicode_upper_of(self@))))
    }

    fn hash_lower_case(&self) -> (r: u32) {
        let l = unicode_lowercase(self.name.as_str());
        hash_exact(l.as_str())
    }

    fn hash_upper_case(&self) -> (r: u32) {
        let u = unicode_uppercase(self.name.as_str());
        hash_exact(u.as_str())
    }
}

/// A raw key splits into halves that mix back into the same key.
pub proof fn lemma_key_split_mix(k: u64)
    ensures
        mix(k.upper_spec(), k.lower_spec()) == k,
{
}

} // verus!
