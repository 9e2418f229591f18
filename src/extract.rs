//! The decisions of an extraction run: where each entry goes, which entries are
//! skipped, how a sniffed extension renames a file, and how outcomes add up.
use crate::entry::sniffed_extension;
use crate::error::PakError;
use crate::filename::FileNameTable;
use crate::hash::{is_utf16_of_some, mix, utf16_of};
use crate::pak::PakEntry;
use vstd::prelude::*;
use vstd::string::{StrSliceExecFns, StringExecFns};

verus! {

/// The uppercase hexadecimal digit of a value below 16.
pub open spec fn hex_char(d: u64) -> char {
    if d < 10 {
        ((d + 48) as u32) as char
    } else {
        ((d + 55) as u32) as char
    }
}

/// The 16 uppercase hexadecimal digits of a key, most significant first.
pub open spec fn hex16(h: u64) -> Seq<char> {
    Seq::new(16, |i: int| hex_char((h >> ((60 - 4 * i) as u64)) & 0xF))
}

/// Where an entry whose path is unknown goes.
pub open spec fn unknown_path_of(h: u64) -> Seq<char> {
    "_Unknown/"@ + hex16(h)
}

/// One hexadecimal digit as a string.
fn hex_str(d: u64) -> (r: &'static str)
    requires
        d < 16,
    ensures
        r@ == seq![hex_char(d)],
{
    proof {
        reveal_strlit("0");
        reveal_strlit("1");
        reveal_strlit("2");
        reveal_strlit("3");
        reveal_strlit("4");
        reveal_strlit("5");
        reveal_strlit("6");
        reveal_strlit("7");
        reveal_strlit("8");
        reveal_strlit("9");
        reveal_strlit("A");
        reveal_strlit("B");
        reveal_strlit("C");
        reveal_strlit("D");
        reveal_strlit("E");
        reveal_strlit("F");
    }
    let r = if d == 0 {
        "0"
    } else if d == 1 {
        "1"
    } else if d == 2 {
        "2"
    } else if d == 3 {
        "3"
    } else if d == 4 {
        "4"
    } else if d == 5 {
        "5"
    } else if d == 6 {
        "6"
    } else if d == 7 {
        "7"
    } else if d == 8 {
        "8"
    } else if d == 9 {
        "9"
    } else if d == 10 {
        "A"
    } else if d == 11 {
        "B"
    } else if d == 12 {
        "C"
    } else if d == 13 {
        "D"
    } else if d == 14 {
        "E"
    } else {
        "F"
    };
    assert(r@ =~= seq![hex_char(d)]);
    r
}

/// The relative path of an entry whose path is unknown: `_Unknown/` and the key in 16
/// uppercase hexadecimal digits.
pub fn unknown_rel_path(hash: u64) -> (r: String)
    ensures
        r@ == unknown_path_of(hash),
{
    let mut s = String::from_str("_Unknown/");
    let mut i: u64 = 0;
    while i < 16
        invariant
            i <= 16,
            s@ == "_Unknown/"@ + hex16(hash).take(i as int),
        decreases 16 - i,
    {
        let shift: u64 = 60 - 4 * i;
        let d = (hash >> shift) & 0xF;
        assert(d < 16) by (bit_vector)
            requires
                d == (hash >> shift) & 0xF,
        ;
        s.append(hex_str(d));
        i += 1;
        assert(s@ =~= "_Unknown/"@ + hex16(hash).take(i as int));
    }
    assert(hex16(hash).take(16) =~= hex16(hash));
    s
}

/// The state of a scan for an extension: whether the current segment has a dot after
/// its first character, and whether the segment has begun.
pub open spec fn ext_scan(p: Seq<char>) -> (bool, bool)
    decreases p.len(),
{
    if p.len() == 0 {
        (false, false)
    } else {
        let (dot, begun) = ext_scan(p.drop_last());
        let c = p.last();
        if c == '/' {
            (false, false)
        } else {
            (dot || (c == '.' && begun), true)
        }
    }
}

/// Whether the last segment of a path has an extension: a dot after its first
/// character.
pub open spec fn has_extension(p: Seq<char>) -> bool {
    ext_scan(p).0
}

/// Whether the last segment of a path has an extension.
pub fn path_has_extension(path: &str) -> (r: bool)
    ensures
        r == has_extension(path@),
{
    let mut dot = false;
    let mut begun = false;
    let ghost mut seen: Seq<char> = seq![];
    for c in it: path.chars()
        invariant
            it.seq() == path@,
            seen == path@.take(it.index() as int),
            dot == ext_scan(seen).0,
            begun == ext_scan(seen).1,
    {
        proof {
            let next = path@.take(it.index() as int + 1);
            assert(next.drop_last() =~= seen);
            seen = next;
        }
        if c == '/' {
            dot = false;
            begun = false;
        } else {
            dot = dot || (c == '.' && begun);
            begun = true;
        }
    }
    proof {
        assert(seen =~= path@);
    }
    dot
}

/// The path a file is renamed to once its extension has been sniffed: the path, a dot
/// and the extension, but only when the path has no extension yet.
pub open spec fn renamed_of(p: Seq<char>, ext: Option<Seq<char>>) -> Option<Seq<char>> {
    if has_extension(p) {
        None
    } else {
        match ext {
            Some(e) => Some(p + "."@ + e),
            None => None,
        }
    }
}

/// The new path of an extracted file, if the sniffed extension renames it.
pub fn renamed_path(path: &str, ext: Option<&str>) -> (r: Option<String>)
    ensures
        r is Some == renamed_of(path@, opt_view(ext)) is Some,
        r is Some ==> r->0@ == renamed_of(path@, opt_view(ext))->0,
{
    if path_has_extension(path) {
        return None;
    }
    match ext {
        Some(e) => {
            let mut s = String::from_str(path);
            s.append(".");
            s.append(e);
            Some(s)
        },
        None => None,
    }
}

/// The characters of an optional string.
pub open spec fn opt_view(s: Option<&str>) -> Option<Seq<char>> {
    match s {
        Some(s) => Some(s@),
        None => None,
    }
}

/// An entry that yields no bytes is never renamed: eight bytes are needed to guess an
/// extension.
pub proof fn lemma_empty_payload_not_renamed(p: Seq<char>)
    ensures
        renamed_of(p, sniffed_extension(Seq::<u8>::empty())) is None,
{
}

/// A path that already has an extension is never renamed, whatever is sniffed.
pub proof fn lemma_extension_kept(p: Seq<char>, ext: Option<Seq<char>>)
    requires
        has_extension(p),
    ensures
        renamed_of(p, ext) is None,
{
}

/// What the segment being read of a path is so far.
#[derive(Debug, Clone, Copy, PartialEq, Eq)]
pub enum SegmentKind {
    Empty,
    Dot,
    DotDot,
    Name,
}

/// A segment after one more character that is not a slash.
pub open spec fn segment_step(k: SegmentKind, c: char) -> SegmentKind {
    if c == '.' {
        match k {
            SegmentKind::Empty => SegmentKind::Dot,
            SegmentKind::Dot => SegmentKind::DotDot,
            _ => SegmentKind::Name,
        }
    } else {
        SegmentKind::Name
    }
}

/// Depth below the root and whether the walk has left it, after a segment ends.
pub open spec fn close_segment(depth: nat, escaped: bool, k: SegmentKind) -> (nat, bool) {
    match k {
        SegmentKind::DotDot => if depth == 0 {
            (0, true)
        } else {
            ((depth - 1) as nat, escaped)
        },
        SegmentKind::Name => (depth + 1, escaped),
        _ => (depth, escaped),
    }
}

/// Walks a relative path segment by segment.
pub open spec fn walk_path(p: Seq<char>) -> (nat, bool, SegmentKind)
    decreases p.len(),
{
    if p.len() == 0 {
        (0, false, SegmentKind::Empty)
    } else {
        let (d, e, k) = walk_path(p.drop_last());
        if p.last() == '/' {
            let (d2, e2) = close_segment(d, e, k);
            (d2, e2, SegmentKind::Empty)
        } else {
            (d, e, segment_step(k, p.last()))
        }
    }
}

/// Whether a relative path leads outside the directory it is joined to: it is absolute,
/// or some `..` climbs above where it started.
pub open spec fn escapes_root(p: Seq<char>) -> bool {
    let w = walk_path(p);
    (p.len() > 0 && p[0] == '/') || close_segment(w.0, w.1, w.2).1
}

/// Whether a relative path leads outside the directory it is joined to.
pub fn path_escapes_root(path: &str) -> (r: bool)
    ensures
        r == escapes_root(path@),
{
    let n = path.unicode_len();
    let mut depth: usize = 0;
    let mut escaped = false;
    let mut kind = SegmentKind::Empty;
    let mut first_slash = false;
    let mut idx: usize = 0;
    let ghost mut seen: Seq<char> = seq![];
    for c in it: path.chars()
        invariant
            it.seq() == path@,
            n == path@.len(),
            idx == it.index(),
            seen == path@.take(it.index() as int),
            walk_path(seen) == (depth as nat, escaped, kind),
            depth <= it.index(),
            idx > 0 ==> first_slash == (path@[0] == '/'),
            idx == 0 ==> !first_slash,
    {
        proof {
            let next = path@.take(it.index() as int + 1);
            assert(next.drop_last() =~= seen);
            seen = next;
        }
        proof {
            assert(seen.last() == c);
            if idx == 0 {
                assert(seen[0] == path@[0]);
            }
        }
        if idx == 0 {
            first_slash = c == '/';
        }
        idx = idx + 1;
        if c == '/' {
            match kind {
                SegmentKind::DotDot => {
                    if depth == 0 {
                        escaped = true;
                    } else {
                        depth = depth - 1;
                    }
                },
                SegmentKind::Name => {
                    depth = depth + 1;
                },
                _ => {},
            }
            kind = SegmentKind::Empty;
        } else {
            kind = if c == '.' {
                match kind {
                    SegmentKind::Empty => SegmentKind::Dot,
                    SegmentKind::Dot => SegmentKind::DotDot,
                    _ => SegmentKind::Name,
                }
            } else {
                SegmentKind::Name
            };
        }
    }
    proof {
        assert(seen =~= path@);
    }
    match kind {
        SegmentKind::DotDot => {
            if depth == 0 {
                escaped = true;
            }
        },
        _ => {},
    }
    first_slash || escaped
}

/// How extraction is scheduled.
#[derive(Debug, Clone, Copy, PartialEq, Eq)]
pub enum ExtractMode {
    Parallel,
    Sequential,
}

impl Default for ExtractMode {
    fn default() -> (r: Self)
        ensures
            r == ExtractMode::Parallel,
    {
        ExtractMode::Parallel
    }
}

/// Progress of an extraction run.
#[derive(Debug, Clone, PartialEq, Eq)]
pub enum ExtractEvent {
    Start { total: usize },
    FileStart { hash: u64, path: String },
    FileDone { hash: u64, path: String, error: Option<String> },
    Finish { extracted: usize, skipped: usize, failed: usize },
    Aborted,
}

/// An entry chosen for extraction, with the relative path it goes to.
#[derive(Debug, Clone)]
pub struct PlannedEntry {
    pub entry: PakEntry,
    pub rel_path: String,
    /// Whether the path came from the filename table.
    pub known: bool,
}

/// The entries of a run, and how many were skipped for lack of a known path.
#[derive(Debug, Clone)]
pub struct ExtractPlan {
    pub items: Vec<PlannedEntry>,
    pub skipped: usize,
}

/// Whether an entry's key has a path in the table.
pub open spec fn is_known(e: PakEntry, table: Option<Map<u64, Seq<u16>>>) -> bool {
    match table {
        Some(m) => m.contains_key(mix(e.hash_name_upper, e.hash_name_lower)),
        None => false,
    }
}

/// The table's map, if there is a table.
pub open spec fn table_view(t: Option<&FileNameTable>) -> Option<Map<u64, Seq<u16>>> {
    match t {
        Some(t) => Some(t@),
        None => None,
    }
}

/// Whether a planned item is the right one for an entry: a known entry goes to its
/// table path, an unknown one under `_Unknown/`.
pub open spec fn plans_entry(item: PlannedEntry, e: PakEntry, table: Option<Map<u64, Seq<u16>>>) -> bool {
    &&& item.entry == e
    &&& item.known == is_known(e, table)
    &&& is_known(e, table) ==> utf16_of(item.rel_path@) == table->0[mix(
        e.hash_name_upper,
        e.hash_name_lower,
    )]
    &&& !is_known(e, table) ==> item.rel_path@ == unknown_path_of(
        mix(e.hash_name_upper, e.hash_name_lower),
    )
}

/// The stored units of a known entry's path.
pub open spec fn known_units(e: PakEntry, table: Option<Map<u64, Seq<u16>>>) -> Seq<u16> {
    table->0[mix(e.hash_name_upper, e.hash_name_lower)]
}

/// Whether every kept entry with a known path has a path that decodes.
pub open spec fn known_paths_decode(entries: Seq<PakEntry>, table: Option<Map<u64, Seq<u16>>>) -> bool {
    forall|i: int|
        0 <= i < entries.len() && is_known(#[trigger] entries[i], table) ==> is_utf16_of_some(
            known_units(entries[i], table),
        )
}

/// Where one entry goes: its table path when known; else under `_Unknown/`, or nowhere
/// when unknown entries are skipped. A table path that is not valid UTF-16 fails.
pub fn plan_entry(entry: &PakEntry, table: Option<&FileNameTable>, skip_unknown: bool) -> (r: Result<
    Option<PlannedEntry>,
    PakError,
>)
    ensures
        match r {
            Ok(Some(item)) => plans_entry(item, *entry, table_view(table)),
            Ok(None) => skip_unknown && !is_known(*entry, table_view(table)),
            Err(e) => e == PakError::InvalidUtf16 && is_known(*entry, table_view(table))
                && !is_utf16_of_some(known_units(*entry, table_view(table))),
        },
        !is_known(*entry, table_view(table)) ==> r is Ok && (r->Ok_0 is None <==> skip_unknown),
        is_known(*entry, table_view(table)) && is_utf16_of_some(
            known_units(*entry, table_view(table)),
        ) ==> r is Ok,
{
    let hash = entry.hash();
    let name = match table {
        Some(t) => t.get_file_name(hash),
        None => None,
    };
    match name {
        Some(n) => match n.to_string() {
            Ok(s) => Ok(Some(PlannedEntry { entry: *entry, rel_path: s, known: true })),
            Err(e) => Err(e),
        },
        None => {
            if skip_unknown {
                Ok(None)
            } else {
                Ok(
                    Some(
                        PlannedEntry { entry: *entry, rel_path: unknown_rel_path(hash), known: false },
                    ),
                )
            }
        },
    }
}

/// The entries a run keeps, in order: all but the unknown ones when those are skipped.
pub open spec fn kept_entries(
    entries: Seq<PakEntry>,
    table: Option<Map<u64, Seq<u16>>>,
    skip_unknown: bool,
) -> Seq<PakEntry>
    decreases entries.len(),
{
    if entries.len() == 0 {
        seq![]
    } else {
        let rest = kept_entries(entries.drop_last(), table, skip_unknown);
        if skip_unknown && !is_known(entries.last(), table) {
            rest
        } else {
            rest.push(entries.last())
        }
    }
}

/// Plans a run over entries in order: each kept entry with its path, the skipped ones
/// counted.
pub fn plan_extraction(entries: &[PakEntry], table: Option<&FileNameTable>, skip_unknown: bool) -> (r:
    Result<ExtractPlan, PakError>)
    ensures
        r is Ok ==> r->Ok_0.items@.len() + r->Ok_0.skipped == entries@.len(),
        r is Ok ==> r->Ok_0.items@.map_values(|it: PlannedEntry| it.entry) == kept_entries(
            entries@,
            table_view(table),
            skip_unknown,
        ),
        r is Ok ==> forall|i: int|
            0 <= i < r->Ok_0.items@.len() ==> plans_entry(
                #[trigger] r->Ok_0.items@[i],
                r->Ok_0.items@[i].entry,
                table_view(table),
            ),
        r is Err ==> r == Err::<ExtractPlan, PakError>(PakError::InvalidUtf16)
            && !known_paths_decode(entries@, table_view(table)),
        known_paths_decode(entries@, table_view(table)) ==> r is Ok,
        table is None ==> r is Ok,
{
    let mut items: Vec<PlannedEntry> = Vec::new();
    let mut skipped: usize = 0;
    let mut i: usize = 0;
    while i < entries.len()
        invariant
            i <= entries@.len(),
            items@.len() + skipped == i,
            items@.map_values(|it: PlannedEntry| it.entry) == kept_entries(
                entries@.take(i as int),
                table_view(table),
                skip_unknown,
            ),
            forall|k: int|
                0 <= k < items@.len() ==> plans_entry(
                    #[trigger] items@[k],
                    items@[k].entry,
                    table_view(table),
                ),
        decreases entries@.len() - i,
    {
        proof {
            assert(entries@.take(i as int + 1).drop_last() =~= entries@.take(i as int));
        }
        let res = plan_entry(&entries[i], table, skip_unknown);
        match res {
            Ok(Some(item)) => {
                items.push(item);
                proof {
                    assert(items@.map_values(|it: PlannedEntry| it.entry) =~= kept_entries(
                        entries@.take(i as int + 1),
                        table_view(table),
                        skip_unknown,
                    ));
                }
            },
            Ok(None) => {
                skipped = skipped + 1;
            },
            Err(e) => {
                proof {
                    assert(is_known(entries@[i as int], table_view(table)));
                    assert(!is_utf16_of_some(known_units(entries@[i as int], table_view(table))));
                    assert(!known_paths_decode(entries@, table_view(table)));
                }
                return Err(e);
            },
        }
        i += 1;
    }
    proof {
        assert(entries@.take(i as int) =~= entries@);
    }
    Ok(ExtractPlan { items, skipped })
}

/// What became of one planned entry.
#[derive(Debug, Clone)]
pub struct ItemOutcome {
    pub hash: u64,
    pub path: String,
    /// The failure's message, or nothing when the file was written.
    pub error: Option<String>,
}

/// The result of a run.
#[derive(Debug, Clone)]
pub struct ExtractReport {
    pub extracted: usize,
    pub skipped: usize,
    pub failed: usize,
    /// `(key, path, message)` of each failure, in the order the outcomes came.
    pub errors: Vec<(u64, String, String)>,
}

/// How many outcomes succeeded.
pub open spec fn count_ok(o: Seq<ItemOutcome>) -> nat
    decreases o.len(),
{
    if o.len() == 0 {
        0
    } else {
        count_ok(o.drop_last()) + if o.last().error is None {
            1nat
        } else {
            0nat
        }
    }
}

/// How many outcomes failed.
pub open spec fn count_failed(o: Seq<ItemOutcome>) -> nat
    decreases o.len(),
{
    if o.len() == 0 {
        0
    } else {
        count_failed(o.drop_last()) + if o.last().error is Some {
            1nat
        } else {
            0nat
        }
    }
}

/// Every outcome is a success or a failure, so the two counts add up to all outcomes.
pub proof fn lemma_outcomes_add_up(o: Seq<ItemOutcome>)
    ensures
        count_ok(o) + count_failed(o) == o.len(),
    decreases o.len(),
{
    if o.len() > 0 {
        lemma_outcomes_add_up(o.drop_last());
    }
}

/// The report of a run from its outcomes and the number of skipped entries.
pub fn summarize(skipped: usize, outcomes: &[ItemOutcome]) -> (r: ExtractReport)
    ensures
        r.extracted == count_ok(outcomes@),
        r.failed == count_failed(outcomes@),
        r.skipped == skipped,
        r.errors@.len() == r.failed,
        r.extracted + r.failed == outcomes@.len(),
{
    let mut extracted: usize = 0;
    let mut failed: usize = 0;
    let mut errors: Vec<(u64, String, String)> = Vec::new();
    let mut i: usize = 0;
    while i < outcomes.len()
        invariant
            i <= outcomes@.len(),
            extracted == count_ok(outcomes@.take(i as int)),
            failed == count_failed(outcomes@.take(i as int)),
            errors@.len() == failed,
        decreases outcomes@.len() - i,
    {
        proof {
            assert(outcomes@.take(i as int + 1).drop_last() =~= outcomes@.take(i as int));
            lemma_outcomes_add_up(outcomes@.take(i as int));
        }
        let o = &outcomes[i];
        match &o.error {
            Some(m) => {
                errors.push((o.hash, o.path.clone(), m.clone()));
                failed = failed + 1;
            },
            None => {
                extracted = extracted + 1;
            },
        }
        i += 1;
    }
    proof {
        assert(outcomes@.take(i as int) =~= outcomes@);
        lemma_outcomes_add_up(outcomes@);
    }
    ExtractReport { extracted, skipped, failed, errors }
}

/// Whether a run goes on after an item: not once cancelled, and not after a failure
/// unless errors are to be collected.
pub fn should_continue(failed: bool, continue_on_error: bool, cancelled: bool) -> (r: bool)
    ensures
        r == (!cancelled && (!failed || continue_on_error)),
{
    !cancelled && (!failed || continue_on_error)
}

} // verus!
