//! Parsing the table of contents: header, entry table (optionally decrypted), the extra
//! word, and the chunk table.
use crate::bytes::{le_u32, ByteReader};
use crate::cipher::{decrypt_pak_data, is_table_key, xor_table};
use crate::error::PakError;
use crate::pak::{
    entry_of_v1, entry_of_v2, entry_size_of, header_error, header_is_supported, pak_header_of,
    uses_v1_entries, PakArchive, PakEntry, PakHeader, FEATURE_CHUNK_TABLE,
    FEATURE_ENTRY_ENCRYPTION, FEATURE_EXTRA_U32,
};
use crate::raw::{
    header_of_bytes, v1_of_bytes, v2_of_bytes, EntryV1, EntryV2, Header, ENTRY_V1_SIZE,
    ENTRY_V2_SIZE, HEADER_SIZE,
};
use vstd::prelude::*;

verus! {

/// The `n` entries of an entry table, read as version 2.0 records when `v1`.
pub open spec fn table_entries(t: Seq<u8>, v1: bool, n: nat) -> Seq<PakEntry> {
    Seq::new(
        n,
        |i: int|
            if v1 {
                entry_of_v1(v1_of_bytes(t.subrange(24 * i, 24 * i + 24)))
            } else {
                entry_of_v2(v2_of_bytes(t.subrange(48 * i, 48 * i + 48)))
            },
    )
}

/// Whole records that fit, by division and by multiplication.
proof fn lemma_div_bound(left: int, w: int, n: int)
    requires
        left >= 0,
        w > 0,
        n >= 0,
    ensures
        left / w < n <==> left < w * n,
{
    if left / w < n {
        assert(left < w * n) by (nonlinear_arith)
            requires
                left / w < n,
                w > 0,
                left >= 0,
        ;
    } else {
        assert(left >= w * n) by (nonlinear_arith)
            requires
                left / w >= n,
                w > 0,
                left >= 0,
        ;
    }
}

/// Reads `total_files` version 2.0 records.
pub fn read_entries_v1(reader: &mut ByteReader, total_files: u32) -> (r: Result<
    Vec<PakEntry>,
    PakError,
>)
    requires
        old(reader).wf(),
    ensures
        final(reader).wf(),
        final(reader).data() == old(reader).data(),
        old(reader).left() >= 24 * total_files ==> r is Ok && r->Ok_0@ == table_entries(
            old(reader).data().subrange(
                old(reader).pos() as int,
                old(reader).pos() + 24 * total_files,
            ),
            true,
            total_files as nat,
        ),
        old(reader).left() < 24 * total_files ==> r == Err::<Vec<PakEntry>, PakError>(
            PakError::UnexpectedEof,
        ),
{
    let left = (reader.data_len() - reader.position()) as u64;
    proof {
        lemma_div_bound(left as int, 24, total_files as int);
    }
    if left / 24 < total_files as u64 {
        return Err(PakError::UnexpectedEof);
    }
    let t = match reader.read_bytes((24 * total_files as u64) as usize) {
        Ok(t) => t,
        Err(e) => {
            return Err(e);
        },
    };
    let mut entries: Vec<PakEntry> = Vec::new();
    let mut i: usize = 0;
    let n = total_files as usize;
    let tl = t.len();
    while i < n
        invariant
            n == total_files,
            i <= n,
            tl == t@.len(),
            t@.len() == 24 * n,
            entries@.len() == i,
            forall|j: int|
                0 <= j < i ==> entries@[j] == #[trigger] table_entries(t@, true, n as nat)[j],
        decreases n - i,
    {
        let rec = vstd::slice::slice_subrange(t, 24 * i, 24 * i + 24);
        let e = PakEntry::from_v1(EntryV1::parse(rec));
        assert(rec@ =~= t@.subrange(24 * i, 24 * i + 24));
        assert(table_entries(t@, true, n as nat)[i as int] == e);
        entries.push(e);
        i += 1;
    }
    assert(entries@ =~= table_entries(t@, true, n as nat));
    Ok(entries)
}

/// Reads `total_files` later records.
pub fn read_entries_v2(reader: &mut ByteReader, total_files: u32) -> (r: Result<
    Vec<PakEntry>,
    PakError,
>)
    requires
        old(reader).wf(),
    ensures
        final(reader).wf(),
        final(reader).data() == old(reader).data(),
        old(reader).left() >= 48 * total_files ==> r is Ok && r->Ok_0@ == table_entries(
            old(reader).data().subrange(
                old(reader).pos() as int,
                old(reader).pos() + 48 * total_files,
            ),
            false,
            total_files as nat,
        ),
        old(reader).left() < 48 * total_files ==> r == Err::<Vec<PakEntry>, PakError>(
            PakError::UnexpectedEof,
        ),
{
    let left = (reader.data_len() - reader.position()) as u64;
    proof {
        lemma_div_bound(left as int, 48, total_files as int);
    }
    if left / 48 < total_files as u64 {
        return Err(PakError::UnexpectedEof);
    }
    let t = match reader.read_bytes((48 * total_files as u64) as usize) {
        Ok(t) => t,
        Err(e) => {
            return Err(e);
        },
    };
    let mut entries: Vec<PakEntry> = Vec::new();
    let mut i: usize = 0;
    let n = total_files as usize;
    let tl = t.len();
    while i < n
        invariant
            n == total_files,
            i <= n,
            tl == t@.len(),
            t@.len() == 48 * n,
            entries@.len() == i,
            forall|j: int|
                0 <= j < i ==> entries@[j] == #[trigger] table_entries(t@, false, n as nat)[j],
        decreases n - i,
    {
        let rec = vstd::slice::slice_subrange(t, 48 * i, 48 * i + 48);
        let e = PakEntry::from_v2(EntryV2::parse(rec));
        assert(rec@ =~= t@.subrange(48 * i, 48 * i + 48));
        assert(table_entries(t@, false, n as nat)[i as int] == e);
        entries.push(e);
        i += 1;
    }
    assert(entries@ =~= table_entries(t@, false, n as nat));
    Ok(entries)
}

/// Reads the entry table as the header's version asks: version 2.0 records for (2, 0),
/// later records otherwise.
pub fn read_entries(reader: &mut ByteReader, header: &PakHeader) -> (r: Result<
    Vec<PakEntry>,
    PakError,
>)
    requires
        old(reader).wf(),
    ensures
        final(reader).wf(),
        final(reader).data() == old(reader).data(),
        ({
            let size = entry_size_of(header.major_version, header.minor_version);
            let v1 = uses_v1_entries(header.major_version, header.minor_version);
            &&& old(reader).left() >= size * header.total_files ==> r is Ok && r->Ok_0@
                == table_entries(
                old(reader).data().subrange(
                    old(reader).pos() as int,
                    old(reader).pos() + size * header.total_files,
                ),
                v1,
                header.total_files as nat,
            )
            &&& old(reader).left() < size * header.total_files ==> r == Err::<
                Vec<PakEntry>,
                PakError,
            >(PakError::UnexpectedEof)
        }),
{
    if header.major_version() == 2 && header.minor_version() == 0 {
        read_entries_v1(reader, header.total_files())
    } else {
        read_entries_v2(reader, header.total_files())
    }
}

/// Bytes the table of contents takes before any chunk table: header, entry table, the
/// extra word and the wrapped key, as the feature bits ask.
pub open spec fn toc_len(h: Header) -> int {
    HEADER_SIZE + entry_size_of(h.major_version, h.minor_version) * h.total_files + (if h.feature
        & FEATURE_EXTRA_U32 == FEATURE_EXTRA_U32 {
        4int
    } else {
        0int
    }) + (if h.feature & FEATURE_ENTRY_ENCRYPTION == FEATURE_ENTRY_ENCRYPTION {
        128int
    } else {
        0int
    })
}

/// The raw entry table of an archive whose header is `h`, starting at `p`.
pub open spec fn raw_table(d: Seq<u8>, p: int, h: Header) -> Seq<u8> {
    d.subrange(
        p + HEADER_SIZE,
        p + HEADER_SIZE + entry_size_of(h.major_version, h.minor_version) * h.total_files,
    )
}

/// Where the wrapped key starts.
pub open spec fn key_at(p: int, h: Header) -> int {
    p + HEADER_SIZE + entry_size_of(h.major_version, h.minor_version) * h.total_files + (if h.feature
        & FEATURE_EXTRA_U32 == FEATURE_EXTRA_U32 {
        4int
    } else {
        0int
    })
}

/// Decrypts an entry table with its wrapped key and reads its entries.
fn decrypted_entries(table: &[u8], key: &[u8], header: &PakHeader) -> (r: Result<
    Vec<PakEntry>,
    PakError,
>)
    requires
        table@.len() == entry_size_of(header.major_version, header.minor_version)
            * header.total_files,
    ensures
        (forall|k: Seq<u8>| #[trigger] is_table_key(key@, k) ==> k.len() >= 32) ==> r is Ok,
        r is Ok ==> exists|k: Seq<u8>|
            is_table_key(key@, k) && k.len() >= 32 && r->Ok_0@ == table_entries(
                #[trigger] xor_table(table@, k),
                uses_v1_entries(header.major_version, header.minor_version),
                header.total_files as nat,
            ),
{
    let plain = match decrypt_pak_data(table, key) {
        Ok(v) => v,
        Err(e) => {
            return Err(e);
        },
    };
    let ghost k = choose|k: Seq<u8>|
        is_table_key(key@, k) && k.len() >= 32 && plain@ == #[trigger] xor_table(table@, k);
    let mut sub = ByteReader::new(plain.as_slice());
    let entries = match read_entries(&mut sub, header) {
        Ok(v) => v,
        Err(e) => {
            return Err(e);
        },
    };
    proof {
        assert(sub.data().subrange(0, table@.len() as int) =~= plain@);
        assert(is_table_key(key@, k) && k.len() >= 32 && entries@ == table_entries(
            xor_table(table@, k),
            uses_v1_entries(header.major_version, header.minor_version),
            header.total_files as nat,
        ));
    }
    Ok(entries)
}

/// Whether the key unwrapped from the archive's wrapped key is long enough for the
/// keystream (at least 32 bytes).
pub open spec fn table_key_long_enough(d: Seq<u8>, p: int, h: Header) -> bool {
    forall|k: Seq<u8>|
        #[trigger] is_table_key(d.subrange(key_at(p, h), key_at(p, h) + 128), k) ==> k.len() >= 32
}

/// What a parsed archive holds, given the plain entry table.
pub open spec fn archive_matches(a: PakArchive, d: Seq<u8>, p: int, h: Header, plain: Seq<u8>) -> bool {
    let size = entry_size_of(h.major_version, h.minor_version);
    &&& a.header == (PakHeader {
        unk_u32_sig: if h.feature & FEATURE_EXTRA_U32 == FEATURE_EXTRA_U32 {
            le_u32(d, p + HEADER_SIZE + size * h.total_files)
        } else {
            0
        },
        ..pak_header_of(h)
    })
    &&& a.entries@ == table_entries(
        plain,
        uses_v1_entries(h.major_version, h.minor_version),
        h.total_files as nat,
    )
}

/// Reads the header, the entry table, the extra word when feature bit 4 asks for it, and
/// the wrapped key when feature bit 3 asks for it, decrypting the table with it.
#[verifier::rlimit(50)]
pub fn read_archive(reader: &mut ByteReader) -> (r: Result<PakArchive, PakError>)
    requires
        old(reader).wf(),
    ensures
        final(reader).wf(),
        final(reader).data() == old(reader).data(),
        ({
            let d = old(reader).data();
            let p = old(reader).pos() as int;
            let h = header_of_bytes(d.subrange(p, p + HEADER_SIZE));
            &&& old(reader).left() < HEADER_SIZE ==> r == Err::<PakArchive, PakError>(
                PakError::UnexpectedEof,
            )
            &&& old(reader).left() >= HEADER_SIZE && !header_is_supported(h) ==> r == Err::<
                PakArchive,
                PakError,
            >(header_error(h))
            &&& old(reader).left() >= HEADER_SIZE && header_is_supported(h) && old(reader).left()
                < toc_len(h) ==> r == Err::<PakArchive, PakError>(PakError::UnexpectedEof)
            &&& old(reader).left() >= HEADER_SIZE && header_is_supported(h) && old(reader).left()
                >= toc_len(h) && h.feature & FEATURE_ENTRY_ENCRYPTION != FEATURE_ENTRY_ENCRYPTION ==> r is Ok
                && archive_matches(r->Ok_0, d, p, h, raw_table(d, p, h))
                && final(reader).pos() == p + toc_len(h)
            &&& old(reader).left() >= HEADER_SIZE && header_is_supported(h) && old(reader).left()
                >= toc_len(h) && h.feature & FEATURE_ENTRY_ENCRYPTION == FEATURE_ENTRY_ENCRYPTION
                && table_key_long_enough(d, p, h) ==> r is Ok
            &&& r is Ok && h.feature & FEATURE_ENTRY_ENCRYPTION == FEATURE_ENTRY_ENCRYPTION ==> exists|k: Seq<u8>|
                is_table_key(d.subrange(key_at(p, h), key_at(p, h) + 128), k) && k.len() >= 32
                    && archive_matches(r->Ok_0, d, p, h, #[trigger] xor_table(raw_table(d, p, h), k))
            &&& r is Ok ==> final(reader).pos() == p + toc_len(h)
        }),
{
    let ghost d = reader.data();
    let ghost p = reader.pos() as int;
    let raw = match Header::from_reader(reader) {
        Ok(h) => h,
        Err(e) => {
            return Err(e);
        },
    };
    let mut header = match PakHeader::try_from_raw(raw) {
        Ok(h) => h,
        Err(e) => {
            return Err(e);
        },
    };
    let size = header.entry_size() as u64;
    assert(size * (header.total_files as u64) <= 48 * 0xFFFF_FFFF) by (nonlinear_arith)
        requires
            size <= 48,
            header.total_files <= 0xFFFF_FFFF,
    ;
    let table_len = size * (header.total_files() as u64);
    if table_len > (reader.data_len() - reader.position()) as u64 {
        return Err(PakError::UnexpectedEof);
    }
    let table = match reader.read_bytes(table_len as usize) {
        Ok(t) => t,
        Err(e) => {
            return Err(e);
        },
    };
    proof {
        assert(table@ == raw_table(d, p, raw));
    }
    if header.feature().contains(FEATURE_EXTRA_U32) {
        match reader.read_u32() {
            Ok(v) => {
                header.unk_u32_sig = v;
            },
            Err(e) => {
                return Err(e);
            },
        }
    }
    if header.feature().contains(FEATURE_ENTRY_ENCRYPTION) {
        let key = match reader.read_bytes(128) {
            Ok(k) => k,
            Err(e) => {
                return Err(e);
            },
        };
        proof {
            assert(key@ == d.subrange(key_at(p, raw), key_at(p, raw) + 128));
        }
        match decrypted_entries(table, key, &header) {
            Ok(entries) => Ok(PakArchive::new(header, entries)),
            Err(e) => Err(e),
        }
    } else {
        let mut sub = ByteReader::new(table);
        let entries = match read_entries(&mut sub, &header) {
            Ok(v) => v,
            Err(e) => {
                return Err(e);
            },
        };
        proof {
            assert(sub.data().subrange(0, size * header.total_files) =~= table@);
        }
        Ok(PakArchive::new(header, entries))
    }
}

} // verus!
