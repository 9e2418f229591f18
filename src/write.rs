//! Building a version 4.0 PAK in memory: a table of contents reserved up front, then
//! file payloads stored as they are written.
use crate::bytes::{extend_bytes, lemma_le_u32_bytes, lemma_le_u64_bytes};
use crate::hash::{mix, Utf16HashExt};
use crate::pak::{
    entry_of_v2, v2_of, CompressionType, EncryptionType, FeatureFlags, PakEntry, PakHeader, UnkAttr,
    ATTR_ENCRYPTION_MASK,
};
use crate::raw::{entry_v2_bytes, header_bytes, v2_of_bytes, Header, ENTRY_V2_SIZE, HEADER_SIZE};
use crate::read::table_entries;
use vstd::prelude::*;

verus! {

/// What can go wrong while writing.
#[derive(Debug, Clone, PartialEq, Eq)]
pub enum PakWriteError {
    /// A failure of the sink, with its message.
    IO(String),
    UnsupportedVersion { major: u8, minor: u8 },
    /// More files than the reserved table of contents holds.
    EntryCountExceeded,
    /// Bytes written before any file was started.
    NoFileStarted,
}

/// Options of the archive as a whole.
#[derive(Debug, Clone, Copy, PartialEq, Eq)]
pub struct PakOptions {
    pub major_version: u8,
    pub minor_version: u8,
    pub toc_hash: u32,
    pub pre_allocate_entry_count: u64,
}

impl Default for PakOptions {
    fn default() -> (r: Self)
        ensures
            r == (PakOptions {
                major_version: 4,
                minor_version: 0,
                toc_hash: 0,
                pre_allocate_entry_count: 0,
            }),
    {
        PakOptions { major_version: 4, minor_version: 0, toc_hash: 0, pre_allocate_entry_count: 0 }
    }
}

impl PakOptions {
    pub fn with_version(self, major_version: u8, minor_version: u8) -> (r: Self)
        ensures
            r == (PakOptions { major_version, minor_version, ..self }),
    {
        PakOptions { major_version, minor_version, ..self }
    }

    pub fn with_toc_hash(self, toc_hash: u32) -> (r: Self)
        ensures
            r == (PakOptions { toc_hash, ..self }),
    {
        PakOptions { toc_hash, ..self }
    }

    pub fn with_pre_allocate_entry_count(self, pre_allocate_entry_count: u64) -> (r: Self)
        ensures
            r == (PakOptions { pre_allocate_entry_count, ..self }),
    {
        PakOptions { pre_allocate_entry_count, ..self }
    }
}

/// Options of one file.
#[derive(Debug, Clone, Copy, PartialEq, Eq)]
pub struct FileOptions {
    pub compression_type: CompressionType,
    pub encryption_type: EncryptionType,
    pub checksum: u64,
    pub unk_attr: UnkAttr,
}

impl Default for FileOptions {
    fn default() -> (r: Self)
        ensures
            r == (FileOptions {
                compression_type: CompressionType { bits: 0 },
                encryption_type: EncryptionType::Unencrypted,
                checksum: 0,
                unk_attr: UnkAttr { bits: 0 },
            }),
    {
        FileOptions {
            compression_type: CompressionType { bits: 0 },
            encryption_type: EncryptionType::Unencrypted,
            checksum: 0,
            unk_attr: UnkAttr { bits: 0 },
        }
    }
}

impl FileOptions {
    pub fn with_compression_type(self, compression_type: CompressionType) -> (r: Self)
        ensures
            r == (FileOptions { compression_type, ..self }),
    {
        FileOptions { compression_type, ..self }
    }

    pub fn with_encryption_type(self, encryption_type: EncryptionType) -> (r: Self)
        ensures
            r == (FileOptions { encryption_type, ..self }),
    {
        FileOptions { encryption_type, ..self }
    }

    pub fn with_checksum(self, checksum: u64) -> (r: Self)
        ensures
            r == (FileOptions { checksum, ..self }),
    {
        FileOptions { checksum, ..self }
    }

    pub fn with_unk_attr(self, unk_attr: UnkAttr) -> (r: Self)
        ensures
            r == (FileOptions { unk_attr, ..self }),
    {
        FileOptions { unk_attr, ..self }
    }
}

/// Bytes written to the current file.
#[derive(Debug, Clone, Copy, PartialEq, Eq, Default)]
pub struct PakWriterStats {
    pub bytes_written: u64,
}

impl PakWriterStats {
    /// Counts the bytes of `buf`.
    pub fn update(&mut self, buf: &[u8])
        requires
            old(self).bytes_written + buf@.len() <= u64::MAX,
        ensures
            final(self).bytes_written == old(self).bytes_written + buf@.len(),
    {
        self.bytes_written = self.bytes_written + buf.len() as u64;
    }

    pub fn reset(&mut self)
        ensures
            final(self).bytes_written == 0,
    {
        self.bytes_written = 0;
    }
}

/// The concatenated records of a list of entries.
pub open spec fn entries_bytes(es: Seq<PakEntry>) -> Seq<u8>
    decreases es.len(),
{
    if es.len() == 0 {
        seq![]
    } else {
        entries_bytes(es.drop_last()) + entry_v2_bytes(v2_of(es.last()))
    }
}

/// The header a finished archive gets: fingerprint zero, no feature bits.
pub open spec fn written_header(major: u8, minor: u8, count: u32) -> Header {
    Header {
        magic: [0x4B, 0x50, 0x4B, 0x41],
        major_version: major,
        minor_version: minor,
        feature: 0,
        total_files: count,
        hash: 0,
    }
}

/// Size of a table of contents reserved for `n` entries.
pub open spec fn reserved_size(n: u64) -> int {
    HEADER_SIZE + ENTRY_V2_SIZE * n
}

/// `indexmap::IndexMap`, held opaquely; its contents are named by `index_map_entries`.
#[verifier::external_type_specification]
#[verifier::external_body]
#[verifier::reject_recursive_types(K)]
#[verifier::reject_recursive_types(V)]
#[verifier::reject_recursive_types(S)]
pub struct ExIndexMap<K, V, S>(indexmap::IndexMap<K, V, S>);

/// The key-value pairs of an entry map, in their order.
pub uninterp spec fn index_map_entries(m: indexmap::IndexMap<u64, PakEntry>) -> Seq<(u64, PakEntry)>;

/// The position of the first pair with key `k`, if any.
pub open spec fn key_index(s: Seq<(u64, PakEntry)>, k: u64) -> Option<int>
    decreases s.len(),
{
    if s.len() == 0 {
        None
    } else {
        match key_index(s.drop_last(), k) {
            Some(i) => Some(i),
            None => if s.last().0 == k {
                Some(s.len() - 1)
            } else {
                None
            },
        }
    }
}

/// A found key lies inside the sequence.
proof fn lemma_key_index_bounds(s: Seq<(u64, PakEntry)>, k: u64)
    ensures
        key_index(s, k) is Some ==> 0 <= key_index(s, k)->0 < s.len(),
    decreases s.len(),
{
    if s.len() > 0 {
        lemma_key_index_bounds(s.drop_last(), k);
    }
}

/// Relies on indexmap::IndexMap::new: an empty map.
#[verifier::external_body]
fn index_map_new() -> (r: indexmap::IndexMap<u64, PakEntry>)
    ensures
        index_map_entries(r) == Seq::<(u64, PakEntry)>::empty(),
{
    indexmap::IndexMap::new()
}

/// Relies on indexmap::IndexMap::len: the number of pairs.
#[verifier::external_body]
fn index_map_len(m: &indexmap::IndexMap<u64, PakEntry>) -> (r: usize)
    ensures
        r == index_map_entries(*m).len(),
{
    m.len()
}

/// Relies on indexmap::IndexMap::insert_full: a key already present keeps its place and
/// gets the new value; a new key goes last. Returns the pair's index.
#[verifier::external_body]
fn index_map_insert(m: &mut indexmap::IndexMap<u64, PakEntry>, k: u64, v: PakEntry) -> (r: usize)
    ensures
        match key_index(index_map_entries(*old(m)), k) {
            Some(i) => r == i && index_map_entries(*final(m)) == index_map_entries(*old(m)).update(
                i,
                (k, v),
            ),
            None => r == index_map_entries(*old(m)).len() && index_map_entries(*final(m))
                == index_map_entries(*old(m)).push((k, v)),
        },
{
    m.insert_full(k, v).0
}

/// Relies on indexmap::IndexMap::get_index: the value at a valid index.
#[verifier::external_body]
fn index_map_value(m: &indexmap::IndexMap<u64, PakEntry>, i: usize) -> (r: PakEntry)
    requires
        i < index_map_entries(*m).len(),
    ensures
        r == index_map_entries(*m)[i as int].1,
{
    *m.get_index(i).unwrap().1
}

/// Relies on indexmap::IndexMap::get_index_mut: replaces the value at a valid index,
/// keeping its key and place.
#[verifier::external_body]
fn index_map_set_value(m: &mut indexmap::IndexMap<u64, PakEntry>, i: usize, v: PakEntry)
    requires
        i < index_map_entries(*old(m)).len(),
    ensures
        index_map_entries(*final(m)) == index_map_entries(*old(m)).update(
            i as int,
            (index_map_entries(*old(m))[i as int].0, v),
        ),
{
    *m.get_index_mut(i).unwrap().1 = v;
}

/// The values of an entry map, in their order.
pub open spec fn map_values_of(s: Seq<(u64, PakEntry)>) -> Seq<PakEntry> {
    s.map_values(|p: (u64, PakEntry)| p.1)
}

/// Writes a version 4.0 PAK into memory.
pub struct PakWriter {
    data: Vec<u8>,
    files: indexmap::IndexMap<u64, PakEntry>,
    pak_options: PakOptions,
    writing_to_file: bool,
    current: usize,
    stats: PakWriterStats,
}

impl PakWriter {
    /// The payload bytes written so far.
    pub closed spec fn payload(&self) -> Seq<u8> {
        self.data@
    }

    /// The entries so far, in the order their files were started.
    pub closed spec fn entries(&self) -> Seq<PakEntry> {
        map_values_of(index_map_entries(self.files))
    }

    pub closed spec fn options(&self) -> PakOptions {
        self.pak_options
    }

    /// Whether a file is open for writing.
    pub closed spec fn is_writing(&self) -> bool {
        self.writing_to_file
    }

    /// Bytes written to the open file.
    pub closed spec fn written(&self) -> u64 {
        self.stats.bytes_written
    }

    /// Index of the open file's entry.
    pub closed spec fn current(&self) -> int {
        self.current as int
    }

    pub closed spec fn wf(&self) -> bool {
        &&& self.pak_options.major_version == 4 && self.pak_options.minor_version == 0
        &&& reserved_size(self.pak_options.pre_allocate_entry_count) <= u64::MAX
        &&& index_map_entries(self.files).len() <= self.pak_options.pre_allocate_entry_count
        &&& self.writing_to_file ==> self.current < index_map_entries(self.files).len()
        &&& self.stats.bytes_written <= self.data@.len()
        &&& !self.writing_to_file ==> self.stats.bytes_written == 0
        &&& reserved_size(self.pak_options.pre_allocate_entry_count) + self.data@.len() <= u64::MAX
    }

    /// Starts a writer with the default options and room for `alloc_entry_count` entries.
    pub fn new(alloc_entry_count: u64) -> (r: Self)
        requires
            reserved_size(alloc_entry_count) <= u64::MAX,
        ensures
            r.wf(),
            r.entries() == Seq::<PakEntry>::empty(),
            r.payload() == Seq::<u8>::empty(),
            !r.is_writing(),
            r.options().pre_allocate_entry_count == alloc_entry_count,
    {
        let options = PakOptions {
            major_version: 4,
            minor_version: 0,
            toc_hash: 0,
            pre_allocate_entry_count: alloc_entry_count,
        };
        PakWriter {
            data: Vec::new(),
            files: index_map_new(),
            pak_options: options,
            writing_to_file: false,
            current: 0,
            stats: PakWriterStats { bytes_written: 0 },
        }
    }

    /// Starts a writer; only version 4.0 can be written.
    pub fn new_with_options(options: PakOptions) -> (r: Result<Self, PakWriteError>)
        requires
            reserved_size(options.pre_allocate_entry_count) <= u64::MAX,
        ensures
            (options.major_version == 4 && options.minor_version == 0) ==> r is Ok && r->Ok_0.wf()
                && r->Ok_0.entries() == Seq::<PakEntry>::empty() && r->Ok_0.payload() == Seq::<
                u8,
            >::empty() && !r->Ok_0.is_writing() && r->Ok_0.options() == options,
            !(options.major_version == 4 && options.minor_version == 0) ==> r == Err::<
                PakWriter,
                PakWriteError,
            >(
                PakWriteError::UnsupportedVersion {
                    major: options.major_version,
                    minor: options.minor_version,
                },
            ),
    {
        if !(options.major_version == 4 && options.minor_version == 0) {
            return Err(
                PakWriteError::UnsupportedVersion {
                    major: options.major_version,
                    minor: options.minor_version,
                },
            );
        }
        Ok(
            PakWriter {
                data: Vec::new(),
                files: index_map_new(),
                pak_options: options,
                writing_to_file: false,
                current: 0,
                stats: PakWriterStats { bytes_written: 0 },
            },
        )
    }

    /// Closes the open file, if any, recording its size as both sizes.
    fn try_finish_file(&mut self)
        requires
            old(self).wf(),
        ensures
            final(self).wf(),
            !final(self).is_writing(),
            final(self).payload() == old(self).payload(),
            final(self).options() == old(self).options(),
            old(self).is_writing() ==> final(self).entries() == old(self).entries().update(
                old(self).current(),
                PakEntry {
                    compressed_size: old(self).written(),
                    uncompressed_size: old(self).written(),
                    ..old(self).entries()[old(self).current()]
                },
            ),
            !old(self).is_writing() ==> final(self).entries() == old(self).entries(),
    {
        if !self.writing_to_file {
            return ;
        }
        let n = self.stats.bytes_written;
        let mut e = index_map_value(&self.files, self.current);
        e.compressed_size = n;
        e.uncompressed_size = n;
        index_map_set_value(&mut self.files, self.current, e);
        assert(map_values_of(index_map_entries(self.files)) =~= old(self).entries().update(
            old(self).current(),
            e,
        ));
        self.stats.reset();
        self.writing_to_file = false;
    }

    /// Closes the open file and starts a new one under a key. A key already present
    /// has its entry replaced in place.
    pub fn start_file_hash(&mut self, hash: u64, options: FileOptions) -> (r: Result<
        (),
        PakWriteError,
    >)
        requires
            old(self).wf(),
        ensures
            final(self).wf(),
            final(self).payload() == old(self).payload(),
            final(self).options() == old(self).options(),
            r is Ok ==> final(self).is_writing() && final(self).written() == 0 && final(self).entries()[final(self).current()] == (PakEntry {
                hash_name_lower: (hash % 0x1_0000_0000) as u32,
                hash_name_upper: (hash / 0x1_0000_0000) as u32,
                offset: (reserved_size(old(self).options().pre_allocate_entry_count) + old(self).payload().len()) as u64,
                compressed_size: 0,
                uncompressed_size: 0,
                compression_type: options.compression_type,
                encryption_type: options.encryption_type,
                checksum: options.checksum,
                unk_attr: options.unk_attr,
            }),
            old(self).entries().len() >= old(self).options().pre_allocate_entry_count ==> r == Err::<
                (),
                PakWriteError,
            >(PakWriteError::EntryCountExceeded),
            old(self).entries().len() < old(self).options().pre_allocate_entry_count ==> r is Ok,
    {
        self.try_finish_file();
        assert(self.entries().len() == index_map_entries(self.files).len());
        assert(old(self).entries().len() == index_map_entries(old(self).files).len());
        if index_map_len(&self.files) as u64 >= self.pak_options.pre_allocate_entry_count {
            return Err(PakWriteError::EntryCountExceeded);
        }
        let lower = hash.hash_lower_case();
        let upper = hash.hash_upper_case();
        let offset = (HEADER_SIZE as u64) + (ENTRY_V2_SIZE as u64)
            * self.pak_options.pre_allocate_entry_count + self.data.len() as u64;
        let entry = PakEntry {
            hash_name_lower: lower,
            hash_name_upper: upper,
            offset,
            compressed_size: 0,
            uncompressed_size: 0,
            compression_type: options.compression_type,
            encryption_type: options.encryption_type,
            checksum: options.checksum,
            unk_attr: options.unk_attr,
        };
        let ghost before = index_map_entries(self.files);
        proof {
            lemma_key_index_bounds(before, hash);
        }
        let idx = index_map_insert(&mut self.files, hash, entry);
        self.current = idx;
        proof {
            match key_index(before, hash) {
                Some(k) => {
                    assert(map_values_of(index_map_entries(self.files))[idx as int] == entry);
                },
                None => {
                    assert(map_values_of(index_map_entries(self.files))[idx as int] == entry);
                },
            }
        }
        self.writing_to_file = true;
        Ok(())
    }

    /// Closes the open file and starts a new one under the key of `path`.
    pub fn start_file<H: Utf16HashExt>(&mut self, path: H, options: FileOptions) -> (r: Result<
        (),
        PakWriteError,
    >)
        requires
            old(self).wf(),
            path.hashable(),
        ensures
            final(self).wf(),
            final(self).payload() == old(self).payload(),
            old(self).entries().len() >= old(self).options().pre_allocate_entry_count ==> r == Err::<
                (),
                PakWriteError,
            >(PakWriteError::EntryCountExceeded),
            old(self).entries().len() < old(self).options().pre_allocate_entry_count ==> r is Ok
                && final(self).entries()[final(self).current()].hash_name_lower == path.lower_spec()
                && final(self).entries()[final(self).current()].hash_name_upper == path.upper_spec(),
    {
        let h = path.hash_mixed();
        proof {
            crate::hash::lemma_key_split_mix(h);
            let (u, l) = (path.upper_spec(), path.lower_spec());
            assert(mix(u, l) % 0x1_0000_0000 == l && mix(u, l) / 0x1_0000_0000 == u);
        }
        self.start_file_hash(h, options)
    }

    /// Appends bytes to the open file; fails when no file is open.
    pub fn write(&mut self, buf: &[u8]) -> (r: Result<usize, PakWriteError>)
        requires
            old(self).wf(),
            reserved_size(old(self).options().pre_allocate_entry_count) + old(self).payload().len()
                + buf@.len() <= u64::MAX,
        ensures
            final(self).wf(),
            final(self).entries() == old(self).entries(),
            final(self).options() == old(self).options(),
            final(self).is_writing() == old(self).is_writing(),
            !old(self).is_writing() ==> r == Err::<usize, PakWriteError>(
                PakWriteError::NoFileStarted,
            ) && final(self).payload() == old(self).payload(),
            old(self).is_writing() ==> r == Ok::<usize, PakWriteError>(buf@.len() as usize)
                && final(self).payload() == old(self).payload() + buf@ && final(self).written()
                == old(self).written() + buf@.len(),
    {
        if !self.writing_to_file {
            return Err(PakWriteError::NoFileStarted);
        }
        extend_bytes(&mut self.data, buf);
        self.stats.update(buf);
        Ok(buf.len())
    }

    /// Appends all of `buf` to the open file.
    pub fn write_all(&mut self, buf: &[u8]) -> (r: Result<(), PakWriteError>)
        requires
            old(self).wf(),
            reserved_size(old(self).options().pre_allocate_entry_count) + old(self).payload().len()
                + buf@.len() <= u64::MAX,
        ensures
            final(self).wf(),
            final(self).entries() == old(self).entries(),
            final(self).options() == old(self).options(),
            !old(self).is_writing() ==> r is Err && final(self).payload() == old(self).payload(),
            old(self).is_writing() ==> r is Ok && final(self).payload() == old(self).payload()
                + buf@,
    {
        match self.write(buf) {
            Ok(_) => Ok(()),
            Err(e) => Err(e),
        }
    }

    /// Number of entries so far.
    pub fn entry_count(&self) -> (r: usize)
        ensures
            r == self.entries().len(),
    {
        index_map_len(&self.files)
    }

    /// Closes the open file and lays the archive out: header, entry records in the order
    /// the files were started, zeros for unused reserved records, then the payloads.
    /// Returns the number of entries and the bytes.
    pub fn finish(self) -> (r: (u64, Vec<u8>))
        requires
            self.wf(),
        ensures
            r.0 == self.entries().len(),
            ({
                let es = if self.is_writing() {
                    self.entries().update(
                        self.current(),
                        PakEntry {
                            compressed_size: self.written(),
                            uncompressed_size: self.written(),
                            ..self.entries()[self.current()]
                        },
                    )
                } else {
                    self.entries()
                };
                let slack = (self.options().pre_allocate_entry_count - es.len()) * ENTRY_V2_SIZE;
                r.1@ == header_bytes(
                    written_header(
                        self.options().major_version,
                        self.options().minor_version,
                        es.len() as u32,
                    ),
                ) + entries_bytes(es) + Seq::new(slack as nat, |i: int| 0u8) + self.payload()
            }),
    {
        let mut this = self;
        this.try_finish_file();
        let count = index_map_len(&this.files);
        let ghost es = this.entries();
        let header = PakHeader {
            magic: [0x4B, 0x50, 0x4B, 0x41],
            major_version: this.pak_options.major_version,
            minor_version: this.pak_options.minor_version,
            feature: FeatureFlags { bits: 0 },
            total_files: count as u32,
            hash: 0,
            unk_u32_sig: 0,
        };
        let mut out = header.into_bytes();
        let ghost h = out@;
        let mut i: usize = 0;
        while i < count
            invariant
                count == es.len(),
                es == this.entries(),
                i <= count,
                out@ == h + entries_bytes(es.take(i as int)),
            decreases count - i,
        {
            let rec = index_map_value(&this.files, i).into_bytes_v2();
            extend_bytes(&mut out, rec.as_slice());
            proof {
                assert(es.take(i as int + 1).drop_last() =~= es.take(i as int));
            }
            i += 1;
        }
        assert(es.take(i as int) =~= es);
        let ghost before_slack = out@;
        let slack = (this.pak_options.pre_allocate_entry_count - count as u64) * (
        ENTRY_V2_SIZE as u64);
        let mut k: u64 = 0;
        while k < slack
            invariant
                k <= slack,
                out@ == before_slack + Seq::new(k as nat, |i: int| 0u8),
            decreases slack - k,
        {
            out.push(0);
            k += 1;
            assert(out@ =~= before_slack + Seq::new(k as nat, |i: int| 0u8));
        }
        extend_bytes(&mut out, this.data.as_slice());
        (count as u64, out)
    }
}

/// A 48-byte record read and written back is the same 48 bytes.
proof fn lemma_v2_record_bytes(b: Seq<u8>)
    requires
        b.len() == ENTRY_V2_SIZE,
    ensures
        entry_v2_bytes(v2_of_bytes(b)) == b,
{
    lemma_le_u32_bytes(b, 0);
    lemma_le_u32_bytes(b, 4);
    lemma_le_u64_bytes(b, 8);
    lemma_le_u64_bytes(b, 16);
    lemma_le_u64_bytes(b, 24);
    lemma_le_u64_bytes(b, 32);
    lemma_le_u64_bytes(b, 40);
    assert(entry_v2_bytes(v2_of_bytes(b)) =~= b);
}

/// Whether every record of a later-version entry table has an encryption sub-field of
/// at most 5 (the kinds the typed model names).
#[verifier::opaque]
pub open spec fn encryption_fields_named(t: Seq<u8>, n: nat) -> bool {
    forall|i: int|
        0 <= i < n ==> (#[trigger] v2_of_bytes(t.subrange(48 * i, 48 * i + 48)).attributes
            & ATTR_ENCRYPTION_MASK) >> 16 <= 5
}

/// The entries of a table without its last record are those of the shorter table.
proof fn lemma_table_prefix(t: Seq<u8>, n: nat)
    requires
        n > 0,
        t.len() == 48 * n,
    ensures
        table_entries(t, false, n).drop_last() == table_entries(
            t.subrange(0, 48 * (n - 1)),
            false,
            (n - 1) as nat,
        ),
        table_entries(t, false, n).last() == entry_of_v2(
            v2_of_bytes(t.subrange(48 * (n - 1), 48 * (n - 1) + 48)),
        ),
{
    let head = t.subrange(0, 48 * (n - 1));
    assert forall|i: int| 0 <= i < n - 1 implies table_entries(t, false, n)[i] == table_entries(
        head,
        false,
        (n - 1) as nat,
    )[i] by {
        assert(head.subrange(48 * i, 48 * i + 48) =~= t.subrange(48 * i, 48 * i + 48));
    }
    assert(table_entries(t, false, n).drop_last() =~= table_entries(head, false, (n - 1) as nat));
}

/// One record, typed and written back, is the same bytes.
proof fn lemma_last_record(b: Seq<u8>)
    requires
        b.len() == ENTRY_V2_SIZE,
        (v2_of_bytes(b).attributes & ATTR_ENCRYPTION_MASK) >> 16 <= 5,
    ensures
        entry_v2_bytes(v2_of(entry_of_v2(v2_of_bytes(b)))) == b,
{
    crate::pak::lemma_entry_v2_round_trip(v2_of_bytes(b));
    lemma_v2_record_bytes(b);
}

/// The encryption sub-fields of a table's records are those of its first records.
proof fn lemma_named_prefix(t: Seq<u8>, n: nat)
    requires
        n > 0,
        t.len() == 48 * n,
        encryption_fields_named(t, n),
    ensures
        encryption_fields_named(t.subrange(0, 48 * (n - 1)), (n - 1) as nat),
        (v2_of_bytes(t.subrange(48 * (n - 1), 48 * (n - 1) + 48)).attributes
            & ATTR_ENCRYPTION_MASK) >> 16 <= 5,
{
    reveal(encryption_fields_named);
    let head = t.subrange(0, 48 * (n - 1));
    assert forall|i: int| 0 <= i < n - 1 implies (#[trigger] v2_of_bytes(
        head.subrange(48 * i, 48 * i + 48),
    ).attributes & ATTR_ENCRYPTION_MASK) >> 16 <= 5 by {
        assert(head.subrange(48 * i, 48 * i + 48) =~= t.subrange(48 * i, 48 * i + 48));
    }
    let k = n - 1;
    assert(0 <= k < n);
}

/// A sequence is its two halves around any point.
proof fn lemma_split(t: Seq<u8>, k: int)
    requires
        0 <= k <= t.len(),
    ensures
        t == t.subrange(0, k) + t.subrange(k, t.len() as int),
{
    assert(t =~= t.subrange(0, k) + t.subrange(k, t.len() as int));
}

/// The bytes of a table's entries are those of its first entries, then its last record.
proof fn lemma_table_step(t: Seq<u8>, n: nat)
    requires
        n > 0,
        t.len() == 48 * n,
        (v2_of_bytes(t.subrange(48 * (n - 1), 48 * (n - 1) + 48)).attributes
            & ATTR_ENCRYPTION_MASK) >> 16 <= 5,
    ensures
        entries_bytes(table_entries(t, false, n)) == entries_bytes(
            table_entries(t.subrange(0, 48 * (n - 1)), false, (n - 1) as nat),
        ) + t.subrange(48 * (n - 1), 48 * (n - 1) + 48),
{
    lemma_table_prefix(t, n);
    lemma_last_record(t.subrange(48 * (n - 1), 48 * (n - 1) + 48));
}

/// Writing back the entries read from a later-version entry table gives the table's
/// bytes: the attributes, unknown bits included, and every other field come back
/// verbatim.
pub proof fn lemma_entry_table_round_trip(t: Seq<u8>, n: nat)
    requires
        t.len() == 48 * n,
        encryption_fields_named(t, n),
    ensures
        entries_bytes(table_entries(t, false, n)) == t,
    decreases n,
{
    if n > 0 {
        let m = (n - 1) as nat;
        let head = t.subrange(0, 48 * (n - 1));
        lemma_named_prefix(t, n);
        lemma_entry_table_round_trip(head, m);
        lemma_table_step(t, n);
        lemma_split(t, 48 * (n - 1));
    } else {
        assert(t =~= Seq::<u8>::empty());
    }
}

/// Raw header bytes parsed and written back are the same bytes.
proof fn lemma_header_bytes_of(b: Seq<u8>)
    requires
        b.len() == HEADER_SIZE,
    ensures
        header_bytes(crate::raw::header_of_bytes(b)) == b,
{
    crate::bytes::lemma_le_u16_bytes(b, 6);
    crate::bytes::lemma_le_u32_bytes(b, 8);
    crate::bytes::lemma_le_u32_bytes(b, 12);
    assert(header_bytes(crate::raw::header_of_bytes(b)) =~= b);
}

/// Two 16-byte headers that agree on their first 12 bytes, each followed by the same
/// table, agree outside bytes 12 to 15.
proof fn lemma_concat_parts(hb: Seq<u8>, t: Seq<u8>, hd: Seq<u8>, d: Seq<u8>)
    requires
        hb.len() == 16,
        hd == d.subrange(0, 16),
        hb.subrange(0, 12) == hd.subrange(0, 12),
        d.len() >= 16 + t.len(),
        t == d.subrange(16, 16 + t.len() as int),
    ensures
        (hb + t).len() == 16 + t.len(),
        (hb + t).subrange(0, 12) == d.subrange(0, 12),
        (hb + t).subrange(16, 16 + t.len() as int) == d.subrange(16, 16 + t.len() as int),
{
    assert((hb + t).subrange(0, 12) =~= hb.subrange(0, 12));
    assert(hd.subrange(0, 12) =~= d.subrange(0, 12));
    assert((hb + t).subrange(16, 16 + t.len() as int) =~= t);
}

/// The table of contents a writer lays out for the entries read from a version 4.0
/// archive without feature bits is the archive's own, byte for byte, but for the
/// fingerprint (bytes 12 to 15), which is written as zero.
pub proof fn lemma_toc_rewrite(d: Seq<u8>)
    requires
        d.len() >= HEADER_SIZE,
        ({
            let h = crate::raw::header_of_bytes(d.subrange(0, HEADER_SIZE as int));
            &&& crate::pak::header_is_supported(h)
            &&& h.major_version == 4 && h.minor_version == 0
            &&& h.feature == 0
            &&& d.len() >= crate::read::toc_len(h)
            &&& encryption_fields_named(crate::read::raw_table(d, 0, h), h.total_files as nat)
        }),
    ensures
        ({
            let h = crate::raw::header_of_bytes(d.subrange(0, HEADER_SIZE as int));
            let n = h.total_files;
            let toc = header_bytes(written_header(4, 0, n)) + entries_bytes(
                table_entries(crate::read::raw_table(d, 0, h), false, n as nat),
            );
            &&& toc.len() == crate::read::toc_len(h)
            &&& toc.subrange(0, 12) == d.subrange(0, 12)
            &&& toc.subrange(16, toc.len() as int) == d.subrange(16, crate::read::toc_len(h))
        }),
{
    let b = d.subrange(0, HEADER_SIZE as int);
    let h = crate::raw::header_of_bytes(b);
    lemma_header_bytes_of(b);
    let t = crate::read::raw_table(d, 0, h);
    lemma_entry_table_round_trip(t, h.total_files as nat);
    lemma_header_rewrite(h);
    let hb = header_bytes(written_header(4, 0, h.total_files));
    let f = h.feature;
    assert(f & 0x10 != 0x10 && f & 0x08 != 0x08) by (bit_vector)
        requires
            f == 0,
    ;
    assert(crate::read::toc_len(h) == 16 + 48 * h.total_files);
    assert(t.len() == 48 * h.total_files);
    lemma_concat_parts(hb, t, header_bytes(h), d);
    assert(entries_bytes(table_entries(t, false, h.total_files as nat)) == t);
}

/// The header a writer emits for a parsed header is byte for byte the parsed one, but
/// for the fingerprint, which is written as zero, when no feature bit is set.
pub proof fn lemma_header_rewrite(h: Header)
    requires
        h.magic == [0x4Bu8, 0x50, 0x4B, 0x41],
        h.feature == 0,
    ensures
        header_bytes(written_header(h.major_version, h.minor_version, h.total_files)).subrange(
            0,
            12,
        ) == header_bytes(h).subrange(0, 12),
        header_bytes(Header { hash: h.hash, ..written_header(h.major_version, h.minor_version, h.total_files) })
            == header_bytes(h),
{
    let w = written_header(h.major_version, h.minor_version, h.total_files);
    assert(w.magic@ =~= h.magic@);
    assert(header_bytes(w).subrange(0, 12) =~= header_bytes(h).subrange(0, 12));
    assert(Header { hash: h.hash, ..w } == h);
}

} // verus!
