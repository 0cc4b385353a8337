//! The on-disk index of the local search: chunk records, the file manifest and its
//! incremental refresh, storage health, and the bookkeeping of the answer caches.
//!
//! Reading and writing the files is left to the caller; these functions decide what is
//! written, kept, reused or removed.
use vstd::prelude::*;

use crate::hashing::{sha256_hex, sha256_utf8, spec_hex};
use crate::index::local_search::{
    StorageHealthStatus, normalize_search_text, spec_chunk_views, spec_local_chunks, spec_normalize_search_text,
    spec_tokenize, split_content_into_local_chunks, tokenize_search_text,
};
use crate::index::symbols::{spec_symbols_of, symbol_tokens};
use crate::text::{
    append_chars, chars_eq, decimal, lit, spec_decimal, spec_str_lt, spec_trim, str_lt,
    string_from_chars, string_views, to_chars, trim, views,
};

verus! {

/// One indexed chunk of a file, as the chunk files store it (the token counts are kept apart:
/// see `LocalChunkRecord::normalized_text`).
pub struct LocalChunkRecord {
    pub id: String,
    pub path: String,
    pub file_name: String,
    pub start_line: usize,
    pub end_line: usize,
    pub content_hash: String,
    pub content: String,
    /// The search form of `path`, `file_name` and `content`; its token counts are what the
    /// ranking reads.
    pub normalized_text: String,
    pub token_count: usize,
    pub symbol_tokens: Vec<String>,
}

/// A file's entry in the manifest of the local index.
pub struct LocalFileManifestEntry {
    pub path: String,
    pub file_name: String,
    pub modified_unix_sec: u64,
    pub size: u64,
    pub file_hash: String,
    pub chunk_file: String,
    pub chunk_count: usize,
}

/// A file the project scan found.
pub struct DiscoveredFile {
    pub path: String,
    pub file_name: String,
    pub modified_unix_sec: u64,
    pub size: u64,
}

/// The text a chunk is searched by: the path, the file name and the chunk, separated by spaces.
pub open spec fn spec_chunk_text(path: Seq<char>, file_name: Seq<char>, chunk: Seq<char>) -> Seq<
    char,
> {
    path + " "@ + file_name + " "@ + chunk
}

/// How many of `toks` are not blank.
pub open spec fn spec_nonblank_count(toks: Seq<Seq<char>>) -> nat
    decreases toks.len(),
{
    if toks.len() == 0 {
        0
    } else {
        spec_nonblank_count(toks.drop_last()) + if spec_trim(toks.last()).len() > 0 {
            1nat
        } else {
            0nat
        }
    }
}

/// The text a chunk id is the hash of: path, start line, end line and content hash, joined
/// by `:`.
pub open spec fn spec_chunk_id_text(path: Seq<char>, start: int, end: int, hash: Seq<char>) -> Seq<
    char,
> {
    path + ":"@ + spec_decimal(start as nat) + ":"@ + spec_decimal(end as nat) + ":"@ + hash
}

/// `r` is the record of the chunk `part` of the file `path` named `file_name`, whose symbol
/// tokens come from the stem `stem`.
pub open spec fn spec_record_of(
    r: LocalChunkRecord,
    path: Seq<char>,
    file_name: Seq<char>,
    stem: Seq<char>,
    part: (int, int, Seq<char>),
) -> bool {
    &&& r.path@ == path
    &&& r.file_name@ == file_name
    &&& r.start_line == part.0
    &&& r.end_line == part.1
    &&& r.content@ == part.2
    &&& r.content_hash@ == spec_hex(sha256_utf8(part.2))
    &&& r.id@ == spec_hex(sha256_utf8(spec_chunk_id_text(path, part.0, part.1, r.content_hash@)))
    &&& r.normalized_text@ == spec_normalize_search_text(spec_chunk_text(path, file_name, part.2))
    &&& r.token_count == spec_nonblank_count(spec_tokenize(r.normalized_text@))
    &&& spec_symbols_of(stem, part.2, string_views(r.symbol_tokens@))
}

fn nonblank_count(text: &str) -> (n: usize)
    ensures
        n == spec_nonblank_count(spec_tokenize(text@)),
{
    let toks = tokenize_search_text(text);
    let ghost tv = string_views(toks@);
    let mut n: usize = 0;
    let mut i: usize = 0;
    while i < toks.len()
        invariant
            i <= toks.len(),
            tv == string_views(toks@),
            tv == spec_tokenize(text@),
            n == spec_nonblank_count(tv.take(i as int)),
            n <= i,
        decreases toks.len() - i,
    {
        proof {
            assert(tv.take(i + 1).drop_last() =~= tv.take(i as int));
            assert(tv.take(i + 1).last() == toks@[i as int]@);
        }
        let t = trim(&to_chars(toks[i].as_str()));
        if t.len() > 0 {
            n += 1;
        }
        i += 1;
    }
    proof {
        assert(tv.take(toks.len() as int) =~= tv);
    }
    n
}

fn chunk_record(
    path: &str,
    file_name: &str,
    stem: &str,
    start_line: usize,
    end_line: usize,
    chunk: &str,
) -> (r: LocalChunkRecord)
    ensures
        spec_record_of(r, path@, file_name@, stem@, (start_line as int, end_line as int, chunk@)),
{
    let mut text = to_chars(path);
    append_chars(&mut text, &lit(" "));
    append_chars(&mut text, &to_chars(file_name));
    append_chars(&mut text, &lit(" "));
    append_chars(&mut text, &to_chars(chunk));
    let text_s = string_from_chars(text.as_slice());
    let normalized_text = normalize_search_text(text_s.as_str());
    let token_count = nonblank_count(normalized_text.as_str());
    let content_hash = sha256_hex(chunk);
    let mut id_text = to_chars(path);
    append_chars(&mut id_text, &lit(":"));
    append_chars(&mut id_text, &decimal(start_line as u64));
    append_chars(&mut id_text, &lit(":"));
    append_chars(&mut id_text, &decimal(end_line as u64));
    append_chars(&mut id_text, &lit(":"));
    append_chars(&mut id_text, &to_chars(content_hash.as_str()));
    let id_s = string_from_chars(id_text.as_slice());
    let id = sha256_hex(id_s.as_str());
    let symbols = symbol_tokens(stem, chunk);
    proof {
        assert(text@ =~= spec_chunk_text(path@, file_name@, chunk@));
        assert(id_text@ =~= spec_chunk_id_text(
            path@,
            start_line as int,
            end_line as int,
            content_hash@,
        ));
    }
    LocalChunkRecord {
        id,
        path: string_from_chars(to_chars(path).as_slice()),
        file_name: string_from_chars(to_chars(file_name).as_slice()),
        start_line,
        end_line,
        content_hash,
        content: string_from_chars(to_chars(chunk).as_slice()),
        normalized_text,
        token_count,
        symbol_tokens: symbols,
    }
}

/// The records of a file's chunks, one per chunk of `spec_local_chunks`, in order.
pub open spec fn spec_records_of(
    recs: Seq<LocalChunkRecord>,
    path: Seq<char>,
    file_name: Seq<char>,
    stem: Seq<char>,
    content: Seq<char>,
    max_lines_per_blob: usize,
) -> bool {
    let parts = spec_local_chunks(content, max_lines_per_blob);
    recs.len() == parts.len() && forall|i: int|
        0 <= i < recs.len() ==> spec_record_of(#[trigger] recs[i], path, file_name, stem, parts[i])
}

/// The records of the chunks of `content` (see `spec_record_of`); `stem` is the file stem
/// the symbol tokens are taken from.
pub fn build_chunk_records(
    path: &str,
    file_name: &str,
    stem: &str,
    content: &str,
    max_lines_per_blob: usize,
) -> (r: Vec<LocalChunkRecord>)
    ensures
        spec_records_of(r@, path@, file_name@, stem@, content@, max_lines_per_blob),
{
    let parts = split_content_into_local_chunks(path, content, max_lines_per_blob);
    let ghost pv = spec_chunk_views(parts@);
    let mut recs: Vec<LocalChunkRecord> = Vec::new();
    let mut i: usize = 0;
    while i < parts.len()
        invariant
            i <= parts.len(),
            pv == spec_chunk_views(parts@),
            pv == spec_local_chunks(content@, max_lines_per_blob),
            pv.len() == parts.len(),
            recs.len() == i,
            forall|k: int|
                0 <= k < i ==> spec_record_of(#[trigger] recs@[k], path@, file_name@, stem@, pv[k]),
        decreases parts.len() - i,
    {
        let p = &parts[i];
        let rec = chunk_record(path, file_name, stem, p.0, p.1, p.2.as_str());
        proof {
            assert(pv[i as int] == (p.0 as int, p.1 as int, p.2@));
        }
        recs.push(rec);
        i += 1;
    }
    recs
}

} // verus!

verus! {

/// What a manifest entry holds, as plain values.
pub open spec fn spec_entry_view(e: LocalFileManifestEntry) -> (
    Seq<char>,
    Seq<char>,
    u64,
    u64,
    Seq<char>,
    Seq<char>,
    usize,
) {
    (e.path@, e.file_name@, e.modified_unix_sec, e.size, e.file_hash@, e.chunk_file@, e.chunk_count)
}

pub open spec fn spec_entry_views(v: Seq<LocalFileManifestEntry>) -> Seq<
    (Seq<char>, Seq<char>, u64, u64, Seq<char>, Seq<char>, usize),
> {
    v.map_values(|e: LocalFileManifestEntry| spec_entry_view(e))
}

/// The name of the chunk file of the file at `path`: the SHA-256 of the path, then `.json`.
pub open spec fn spec_chunk_file_name(path: Seq<char>) -> Seq<char> {
    spec_hex(sha256_utf8(path)) + ".json"@
}

/// What indexing a file gives, from its sanitised text `content`: nothing for a blank text
/// or one without chunks; else its manifest entry (the hash of the text, the chunk file
/// name, the number of chunks) and its chunk records.
pub open spec fn spec_index_entry(
    r: Option<(LocalFileManifestEntry, Vec<LocalChunkRecord>)>,
    file: DiscoveredFile,
    stem: Seq<char>,
    content: Seq<char>,
    max_lines_per_blob: usize,
) -> bool {
    if spec_trim(content).len() == 0 || spec_local_chunks(content, max_lines_per_blob).len() == 0 {
        r is None
    } else {
        match r {
            None => false,
            Some(pair) => spec_index_pair(pair, file, stem, content, max_lines_per_blob),
        }
    }
}

/// The entry and records of an indexed file (see `spec_index_entry`).
pub open spec fn spec_index_pair(
    pair: (LocalFileManifestEntry, Vec<LocalChunkRecord>),
    file: DiscoveredFile,
    stem: Seq<char>,
    content: Seq<char>,
    max_lines_per_blob: usize,
) -> bool {
    let (entry, records) = pair;
    {
        &&& spec_entry_view(entry) == (
            file.path@,
            file.file_name@,
            file.modified_unix_sec,
            file.size,
            spec_hex(sha256_utf8(content)),
            spec_chunk_file_name(file.path@),
            spec_local_chunks(content, max_lines_per_blob).len() as usize,
        )
        &&& spec_records_of(records@, file.path@, file.file_name@, stem, content, max_lines_per_blob)
    }
}

fn copy_string(s: &String) -> (r: String)
    ensures
        r@ == s@,
{
    string_from_chars(to_chars(s.as_str()).as_slice())
}

/// Indexes a file from its sanitised text (see `spec_index_entry`); the symbol tokens come
/// from the file stem of its path.
pub fn index_file_entry(file: &DiscoveredFile, content: &str, max_lines_per_blob: usize) -> (r:
    Option<(LocalFileManifestEntry, Vec<LocalChunkRecord>)>)
    ensures
        spec_index_entry(
            r,
            *file,
            crate::index::symbols::spec_file_stem(file.path@),
            content@,
            max_lines_per_blob,
        ),
{
    let stem = crate::index::symbols::file_stem_of(file.path.as_str());
    let t = trim(&to_chars(content));
    if t.len() == 0 {
        let r = None;
        proof {
            assert(spec_index_entry(r, *file, stem@, content@, max_lines_per_blob));
        }
        return r;
    }
    let records = build_chunk_records(
        file.path.as_str(),
        file.file_name.as_str(),
        stem.as_str(),
        content,
        max_lines_per_blob,
    );
    if records.len() == 0 {
        let r = None;
        proof {
            assert(spec_index_entry(r, *file, stem@, content@, max_lines_per_blob));
        }
        return r;
    }
    let mut chunk_file = to_chars(sha256_hex(file.path.as_str()).as_str());
    append_chars(&mut chunk_file, &lit(".json"));
    let entry = LocalFileManifestEntry {
        path: copy_string(&file.path),
        file_name: copy_string(&file.file_name),
        modified_unix_sec: file.modified_unix_sec,
        size: file.size,
        file_hash: sha256_hex(content),
        chunk_file: string_from_chars(chunk_file.as_slice()),
        chunk_count: records.len(),
    };
    let r = Some((entry, records));
    proof {
        assert(spec_index_entry(r, *file, stem@, content@, max_lines_per_blob));
    }
    r
}

/// Index of the last of the first `k` old entries with path `p`, or -1.
pub open spec fn spec_last_path(old: Seq<LocalFileManifestEntry>, p: Seq<char>, k: int) -> int
    decreases k,
{
    if k <= 0 {
        -1
    } else if old[k - 1].path@ == p {
        k - 1
    } else {
        spec_last_path(old, p, k - 1)
    }
}

/// The old entry that a discovered file may reuse: the last one with its path, when the
/// refresh is not forced, its modification time and size are unchanged and its chunk file
/// still exists (`chunk_exists`, one flag per old entry).
pub open spec fn spec_reusable(
    old: Seq<LocalFileManifestEntry>,
    chunk_exists: Seq<bool>,
    f: DiscoveredFile,
    force_full: bool,
) -> Option<int> {
    let j = spec_last_path(old, f.path@, old.len() as int);
    if !force_full && j >= 0 && old[j].modified_unix_sec == f.modified_unix_sec && old[j].size
        == f.size && j < chunk_exists.len() && chunk_exists[j] {
        Some(j)
    } else {
        None
    }
}

proof fn lemma_last_path_range(old: Seq<LocalFileManifestEntry>, p: Seq<char>, k: int)
    requires
        0 <= k <= old.len(),
    ensures
        -1 <= spec_last_path(old, p, k) < k,
        spec_last_path(old, p, k) >= 0 ==> old[spec_last_path(old, p, k)].path@ == p,
    decreases k,
{
    if k > 0 {
        lemma_last_path_range(old, p, k - 1);
    }
}

fn last_path(old: &Vec<LocalFileManifestEntry>, p: &String) -> (j: Option<usize>)
    ensures
        match j {
            Some(k) => k == spec_last_path(old@, p@, old.len() as int) && k < old.len(),
            None => spec_last_path(old@, p@, old.len() as int) == -1,
        },
{
    proof {
        lemma_last_path_range(old@, p@, old.len() as int);
    }
    let pc = to_chars(p.as_str());
    let mut k: usize = old.len();
    while k > 0
        invariant
            k <= old.len(),
            pc@ == p@,
            spec_last_path(old@, p@, old.len() as int) == spec_last_path(old@, p@, k as int),
        decreases k,
    {
        if chars_eq(&to_chars(old[k - 1].path.as_str()), &pc) {
            return Some(k - 1);
        }
        k -= 1;
    }
    None
}

/// A discovered file reuses an old entry only when the refresh is not forced and that entry
/// has the file's path, its modification time and its size, and its chunk file still exists;
/// with a forced refresh, or without an old entry for the path, nothing is reused.
pub proof fn law_reuse_only_unchanged(
    old: Seq<LocalFileManifestEntry>,
    chunk_exists: Seq<bool>,
    f: DiscoveredFile,
    force_full: bool,
)
    ensures
        spec_reusable(old, chunk_exists, f, force_full) matches Some(k) ==> {
            &&& 0 <= k < old.len()
            &&& !force_full
            &&& old[k].path@ == f.path@
            &&& old[k].modified_unix_sec == f.modified_unix_sec
            &&& old[k].size == f.size
            &&& k < chunk_exists.len() && chunk_exists[k]
        },
        force_full ==> spec_reusable(old, chunk_exists, f, force_full) is None,
        (forall|k: int| 0 <= k < old.len() ==> #[trigger] old[k].path@ != f.path@)
            ==> spec_reusable(old, chunk_exists, f, force_full) is None,
{
    lemma_last_path_range(old, f.path@, old.len() as int);
    if forall|k: int| 0 <= k < old.len() ==> #[trigger] old[k].path@ != f.path@ {
        let j = spec_last_path(old, f.path@, old.len() as int);
        if j >= 0 {
            assert(old[j].path@ != f.path@);
        }
    }
}

/// For each discovered file, the old entry it reuses, if any (see `spec_reusable`).
pub fn plan_reuse(
    old: &Vec<LocalFileManifestEntry>,
    chunk_exists: &Vec<bool>,
    discovered: &Vec<DiscoveredFile>,
    force_full: bool,
) -> (r: Vec<Option<usize>>)
    ensures
        r.len() == discovered.len(),
        forall|i: int|
            0 <= i < r.len() ==> match #[trigger] r@[i] {
                Some(k) => spec_reusable(old@, chunk_exists@, discovered@[i], force_full) == Some(
                    k as int,
                ),
                None => spec_reusable(old@, chunk_exists@, discovered@[i], force_full) is None,
            },
{
    let mut r: Vec<Option<usize>> = Vec::new();
    let mut i: usize = 0;
    while i < discovered.len()
        invariant
            i <= discovered.len(),
            r.len() == i,
            forall|q: int|
                0 <= q < i ==> match #[trigger] r@[q] {
                    Some(k) => spec_reusable(old@, chunk_exists@, discovered@[q], force_full)
                        == Some(k as int),
                    None => spec_reusable(old@, chunk_exists@, discovered@[q], force_full) is None,
                },
        decreases discovered.len() - i,
    {
        let f = &discovered[i];
        let mut pick: Option<usize> = None;
        if !force_full {
            if let Some(j) = last_path(old, &f.path) {
                if old[j].modified_unix_sec == f.modified_unix_sec && old[j].size == f.size && j
                    < chunk_exists.len() && chunk_exists[j] {
                    pick = Some(j);
                }
            }
        }
        r.push(pick);
        i += 1;
    }
    r
}

/// The reuse decision for discovered file `i`, ignoring indices outside `old`.
pub open spec fn spec_reuse_at(
    old: Seq<LocalFileManifestEntry>,
    reuse: Seq<Option<usize>>,
    i: int,
) -> Option<int> {
    if 0 <= i < reuse.len() {
        match reuse[i] {
            Some(k) => if k < old.len() {
                Some(k as int)
            } else {
                None
            },
            None => None,
        }
    } else {
        None
    }
}

/// The entry that indexing discovered file `i` gave, if any.
pub open spec fn spec_indexed_at(indexed: Seq<Option<LocalFileManifestEntry>>, i: int) -> Option<
    LocalFileManifestEntry,
> {
    if 0 <= i < indexed.len() {
        indexed[i]
    } else {
        None
    }
}

/// The refresh of the first `n` discovered files: the entries, in discovery order; how many
/// files were reused and how many updated; and the paths that stay in the index.  A file
/// that gives no entry counts as updated when the old manifest had it.
pub open spec fn spec_collect(
    old: Seq<LocalFileManifestEntry>,
    discovered: Seq<DiscoveredFile>,
    reuse: Seq<Option<usize>>,
    indexed: Seq<Option<LocalFileManifestEntry>>,
    n: int,
) -> (Seq<LocalFileManifestEntry>, nat, nat, Seq<Seq<char>>)
    decreases n,
{
    if n <= 0 {
        (Seq::empty(), 0, 0, Seq::empty())
    } else {
        let prev = spec_collect(old, discovered, reuse, indexed, n - 1);
        let f = discovered[n - 1];
        match spec_reuse_at(old, reuse, n - 1) {
            Some(k) => (prev.0.push(old[k]), prev.1 + 1, prev.2, prev.3.push(f.path@)),
            None => match spec_indexed_at(indexed, n - 1) {
                Some(e) => (prev.0.push(e), prev.1, prev.2 + 1, prev.3.push(f.path@)),
                None => (
                    prev.0,
                    prev.1,
                    if spec_last_path(old, f.path@, old.len() as int) >= 0 {
                        prev.2 + 1
                    } else {
                        prev.2
                    },
                    prev.3,
                ),
            },
        }
    }
}

/// Old entries whose chunk files go: those that stand for their path (no later old entry has
/// the same path) and whose path no longer stays in the index, among the first `k`.
pub open spec fn spec_deleted(
    old: Seq<LocalFileManifestEntry>,
    retained: Seq<Seq<char>>,
    k: int,
) -> Seq<int>
    decreases k,
{
    if k <= 0 {
        Seq::empty()
    } else {
        let prev = spec_deleted(old, retained, k - 1);
        let j = k - 1;
        if spec_last_path(old, old[j].path@, old.len() as int) == j && !retained.contains(old[j].path@) {
            prev.push(j)
        } else {
            prev
        }
    }
}

/// The paths of a list of entries.
pub open spec fn spec_entry_paths(v: Seq<LocalFileManifestEntry>) -> Seq<Seq<char>> {
    v.map_values(|e: LocalFileManifestEntry| e.path@)
}

/// The result of refreshing the manifest.
pub struct ManifestUpdate {
    /// The new manifest entries, sorted by path.
    pub entries: Vec<LocalFileManifestEntry>,
    pub reused_files: usize,
    pub updated_files: usize,
    /// Indices of the old entries whose chunk files are deleted.
    pub deleted: Vec<usize>,
}

fn copy_entry(e: &LocalFileManifestEntry) -> (r: LocalFileManifestEntry)
    ensures
        spec_entry_view(r) == spec_entry_view(*e),
{
    LocalFileManifestEntry {
        path: copy_string(&e.path),
        file_name: copy_string(&e.file_name),
        modified_unix_sec: e.modified_unix_sec,
        size: e.size,
        file_hash: copy_string(&e.file_hash),
        chunk_file: copy_string(&e.chunk_file),
        chunk_count: e.chunk_count,
    }
}

fn contains_path(v: &Vec<Vec<char>>, p: &Vec<char>) -> (b: bool)
    ensures
        b == views(v@).contains(p@),
{
    let mut i: usize = 0;
    while i < v.len()
        invariant
            i <= v.len(),
            forall|q: int| 0 <= q < i ==> views(v@)[q] != p@,
        decreases v.len() - i,
    {
        if chars_eq(&v[i], p) {
            proof {
                assert(views(v@)[i as int] == p@);
            }
            return true;
        }
        i += 1;
    }
    false
}

/// Finishes a manifest refresh: `reuse` is what `plan_reuse` decided for each discovered
/// file, `indexed` what indexing the others gave.  The new entries are those of
/// `spec_collect`, in stable path order; the counts are its counts; the deleted entries are
/// those of `spec_deleted`, in index order.
pub fn assemble_manifest(
    old: &Vec<LocalFileManifestEntry>,
    discovered: &Vec<DiscoveredFile>,
    reuse: &Vec<Option<usize>>,
    indexed: &Vec<Option<LocalFileManifestEntry>>,
) -> (r: ManifestUpdate)
    ensures
        ({
            let c = spec_collect(old@, discovered@, reuse@, indexed@, discovered.len() as int);
            let order = crate::sorting::spec_stable_order(spec_entry_paths(c.0), c.0.len() as int);
            &&& spec_entry_views(r.entries@) == order.map_values(|i: int| spec_entry_view(c.0[i]))
            &&& r.reused_files == c.1
            &&& r.updated_files == c.2
            &&& crate::sorting::spec_index_seq(r.deleted@) == spec_deleted(old@, c.3, old.len() as int)
        }),
{
    let mut es: Vec<LocalFileManifestEntry> = Vec::new();
    let mut reused: usize = 0;
    let mut updated: usize = 0;
    let mut retained: Vec<Vec<char>> = Vec::new();
    let mut i: usize = 0;
    while i < discovered.len()
        invariant
            i <= discovered.len(),
            ({
                let c = spec_collect(old@, discovered@, reuse@, indexed@, i as int);
                &&& spec_entry_views(es@) == spec_entry_views(c.0)
                &&& spec_entry_paths(es@) == spec_entry_paths(c.0)
                &&& es.len() == c.0.len()
                &&& reused == c.1
                &&& updated == c.2
                &&& views(retained@) == c.3
            }),
            reused <= i,
            updated <= i,
        decreases discovered.len() - i,
    {
        let ghost prev = spec_collect(old@, discovered@, reuse@, indexed@, i as int);
        let ghost pre_es = es@;
        let ghost pre_ret = views(retained@);
        let f = &discovered[i];
        let mut reused_k: Option<usize> = None;
        if i < reuse.len() {
            if let Some(k) = reuse[i] {
                if k < old.len() {
                    reused_k = Some(k);
                }
            }
        }
        match reused_k {
            Some(k) => {
                es.push(copy_entry(&old[k]));
                reused += 1;
                retained.push(to_chars(f.path.as_str()));
                proof {
                    assert(spec_reuse_at(old@, reuse@, i as int) == Some(k as int));
                    let c = spec_collect(old@, discovered@, reuse@, indexed@, i + 1);
                    assert(c.0 == prev.0.push(old@[k as int]));
                    assert(spec_entry_views(es@) =~= spec_entry_views(pre_es).push(
                        spec_entry_view(old@[k as int]),
                    ));
                    assert(spec_entry_views(c.0) =~= spec_entry_views(prev.0).push(
                        spec_entry_view(old@[k as int]),
                    ));
                    assert(spec_entry_paths(es@) =~= spec_entry_paths(pre_es).push(
                        old@[k as int].path@,
                    ));
                    assert(spec_entry_paths(c.0) =~= spec_entry_paths(prev.0).push(
                        old@[k as int].path@,
                    ));
                    assert(views(retained@) =~= c.3);
                }
            },
            None => {
                let mut got: Option<LocalFileManifestEntry> = None;
                if i < indexed.len() {
                    if let Some(e) = &indexed[i] {
                        got = Some(copy_entry(e));
                    }
                }
                proof {
                    assert(spec_reuse_at(old@, reuse@, i as int) is None);
                    match &got {
                        Some(e) => {
                            assert(spec_indexed_at(indexed@, i as int) is Some);
                            assert(spec_entry_view(*e) == spec_entry_view(
                                spec_indexed_at(indexed@, i as int)->0,
                            ));
                        },
                        None => {
                            assert(spec_indexed_at(indexed@, i as int) is None);
                        },
                    }
                }
                match got {
                    Some(e) => {
                        let ghost ev = spec_entry_view(e);
                        let ghost ep = e.path@;
                        es.push(e);
                        updated += 1;
                        retained.push(to_chars(f.path.as_str()));
                        proof {
                            let c = spec_collect(old@, discovered@, reuse@, indexed@, i + 1);
                            let ie = spec_indexed_at(indexed@, i as int)->0;
                            assert(c.0 == prev.0.push(ie));
                            assert(spec_entry_views(es@) =~= spec_entry_views(pre_es).push(ev));
                            assert(spec_entry_views(c.0) =~= spec_entry_views(prev.0).push(
                                spec_entry_view(ie),
                            ));
                            assert(spec_entry_paths(es@) =~= spec_entry_paths(pre_es).push(ep));
                            assert(spec_entry_paths(c.0) =~= spec_entry_paths(prev.0).push(ie.path@));
                            assert(spec_entry_views(es@) =~= spec_entry_views(c.0));
                            assert(spec_entry_paths(es@) =~= spec_entry_paths(c.0));
                            assert(views(retained@) =~= c.3);
                        }
                    },
                    None => {
                        if last_path(old, &f.path).is_some() {
                            updated += 1;
                        }
                    },
                }
            },
        }
        i += 1;
    }
    let ghost c = spec_collect(old@, discovered@, reuse@, indexed@, discovered.len() as int);
    let mut deleted: Vec<usize> = Vec::new();
    proof {
        assert(crate::sorting::spec_index_seq(deleted@) =~= Seq::<int>::empty());
    }
    let mut j: usize = 0;
    while j < old.len()
        invariant
            j <= old.len(),
            views(retained@) == c.3,
            crate::sorting::spec_index_seq(deleted@) == spec_deleted(old@, c.3, j as int),
        decreases old.len() - j,
    {
        let last = last_path(old, &old[j].path);
        let stands = match last {
            Some(k) => k == j,
            None => false,
        };
        if stands && !contains_path(&retained, &to_chars(old[j].path.as_str())) {
            let ghost pre = deleted@;
            deleted.push(j);
            proof {
                assert(crate::sorting::spec_index_seq(deleted@) =~= crate::sorting::spec_index_seq(
                    pre,
                ).push(j as int));
            }
        }
        j += 1;
    }
    let mut keys: Vec<Vec<char>> = Vec::new();
    let mut q: usize = 0;
    while q < es.len()
        invariant
            q <= es.len(),
            views(keys@) == spec_entry_paths(es@).take(q as int),
        decreases es.len() - q,
    {
        let ghost pre = views(keys@);
        keys.push(to_chars(es[q].path.as_str()));
        proof {
            assert(views(keys@) =~= pre.push(es@[q as int].path@));
            assert(spec_entry_paths(es@).take(q + 1) =~= spec_entry_paths(es@).take(q as int).push(
                es@[q as int].path@,
            ));
        }
        q += 1;
    }
    proof {
        assert(spec_entry_paths(es@).take(es.len() as int) =~= spec_entry_paths(es@));
    }
    let order = crate::sorting::stable_order_by_key(&keys);
    let mut entries: Vec<LocalFileManifestEntry> = Vec::new();
    let ghost ord = crate::sorting::spec_index_seq(order@);
    let mut p: usize = 0;
    while p < order.len()
        invariant
            p <= order.len(),
            ord == crate::sorting::spec_index_seq(order@),
            crate::sorting::spec_is_permutation(ord, es.len() as int),
            spec_entry_views(es@) == spec_entry_views(c.0),
            es.len() == c.0.len(),
            spec_entry_views(entries@) == ord.take(p as int).map_values(
                |i: int| spec_entry_view(c.0[i]),
            ),
        decreases order.len() - p,
    {
        let k = order[p];
        proof {
            assert(0 <= ord[p as int] < es.len());
            assert(spec_entry_views(es@)[k as int] == spec_entry_view(es@[k as int]));
        }
        let ghost pre = entries@;
        let e = copy_entry(&es[k]);
        let ghost ev = spec_entry_view(e);
        entries.push(e);
        proof {
            assert(spec_entry_views(es@)[k as int] == spec_entry_views(c.0)[k as int]);
            assert(ord[p as int] == k as int);
            assert(spec_entry_views(c.0)[k as int] == spec_entry_view(c.0[k as int]));
            assert(ev == spec_entry_view(c.0[k as int]));
            assert(ord.take(p + 1).map_values(|i: int| spec_entry_view(c.0[i])) =~= ord.take(
                p as int,
            ).map_values(|i: int| spec_entry_view(c.0[i])).push(spec_entry_view(c.0[k as int])));
            assert(spec_entry_views(entries@) =~= spec_entry_views(pre).push(ev));
            assert(spec_entry_views(entries@) =~= ord.take(p + 1).map_values(
                |i: int| spec_entry_view(c.0[i]),
            ));
        }
        p += 1;
    }
    proof {
        assert(ord.take(order.len() as int) =~= ord);
    }
    ManifestUpdate { entries, reused_files: reused, updated_files: updated, deleted }
}


/// Law: a refreshed manifest lists its entries sorted by path, and it holds every entry that
/// the refresh collected exactly once.
pub proof fn law_manifest_sorted_by_path(
    old: Seq<LocalFileManifestEntry>,
    discovered: Seq<DiscoveredFile>,
    reuse: Seq<Option<usize>>,
    indexed: Seq<Option<LocalFileManifestEntry>>,
)
    ensures
        ({
            let c = spec_collect(old, discovered, reuse, indexed, discovered.len() as int);
            let order = crate::sorting::spec_stable_order(spec_entry_paths(c.0), c.0.len() as int);
            &&& crate::sorting::spec_is_permutation(order, c.0.len() as int)
            &&& forall|a: int, b: int|
                0 <= a < b < order.len() ==> !crate::text::spec_str_lt(
                    #[trigger] c.0[order[b]].path@,
                    #[trigger] c.0[order[a]].path@,
                )
        }),
{
    let c = spec_collect(old, discovered, reuse, indexed, discovered.len() as int);
    let keys = spec_entry_paths(c.0);
    crate::sorting::lemma_stable_order(keys, c.0.len() as int);
    let order = crate::sorting::spec_stable_order(keys, c.0.len() as int);
    assert forall|a: int, b: int| 0 <= a < b < order.len() implies !crate::text::spec_str_lt(
        #[trigger] c.0[order[b]].path@,
        #[trigger] c.0[order[a]].path@,
    ) by {
        assert(keys[order[b]] == c.0[order[b]].path@);
        assert(keys[order[a]] == c.0[order[a]].path@);
    }
}

/// The text the index signature hashes: path, file hash and chunk count of every entry.
pub open spec fn spec_index_signature_text(v: Seq<LocalFileManifestEntry>) -> Seq<char>
    decreases v.len(),
{
    if v.len() == 0 {
        Seq::empty()
    } else {
        spec_index_signature_text(v.drop_last()) + v.last().path@ + v.last().file_hash@
            + spec_decimal(v.last().chunk_count as nat)
    }
}

/// Signature of the index: SHA-256, in lowercase hexadecimal, of its signature text.
pub fn build_index_signature(entries: &Vec<LocalFileManifestEntry>) -> (r: String)
    ensures
        r@ == spec_hex(sha256_utf8(spec_index_signature_text(entries@))),
{
    let mut text: Vec<char> = Vec::new();
    let mut i: usize = 0;
    while i < entries.len()
        invariant
            i <= entries.len(),
            text@ == spec_index_signature_text(entries@.take(i as int)),
        decreases entries.len() - i,
    {
        let e = &entries[i];
        append_chars(&mut text, &to_chars(e.path.as_str()));
        append_chars(&mut text, &to_chars(e.file_hash.as_str()));
        append_chars(&mut text, &decimal(e.chunk_count as u64));
        proof {
            assert(entries@.take(i + 1).drop_last() =~= entries@.take(i as int));
            assert(entries@.take(i + 1).last() == entries@[i as int]);
        }
        i += 1;
    }
    proof {
        assert(entries@.take(entries.len() as int) =~= entries@);
    }
    let s = string_from_chars(text.as_slice());
    sha256_hex(s.as_str())
}

} // verus!

verus! {

/// What reading one chunk file that the manifest lists gave.
#[derive(Clone, Copy, Debug, PartialEq, Eq, Structural)]
pub enum ChunkFileState {
    Missing,
    Unreadable,
    /// It holds this many records.
    Records(usize),
}

/// What reading the manifest gave: its version and, for each entry in order, its chunk file.
pub enum ManifestState {
    Missing,
    Unreadable,
    Loaded { version: u32, chunk_files: Vec<ChunkFileState> },
}

/// The reason the first damaged chunk file among the first `n` gives, if any.
pub open spec fn spec_chunk_damage(files: Seq<ChunkFileState>, n: int) -> Option<Seq<char>>
    decreases n,
{
    if n <= 0 {
        None
    } else {
        match spec_chunk_damage(files, n - 1) {
            Some(r) => Some(r),
            None => match files[n - 1] {
                ChunkFileState::Missing => Some("missing_chunk_file"@),
                ChunkFileState::Unreadable => Some("chunk_unreadable"@),
                ChunkFileState::Records(c) => if c == 0 {
                    Some("empty_chunk_file"@)
                } else {
                    None
                },
            },
        }
    }
}

/// The health of the index storage: `initializing` without a manifest; a rebuild for an
/// unreadable manifest, one of another version, or the first missing, unreadable or empty
/// chunk file; `healthy` otherwise.  `None` stands for healthy with that label.
pub open spec fn spec_storage_health(m: ManifestState) -> Result<Seq<char>, Seq<char>> {
    match m {
        ManifestState::Missing => Ok("initializing"@),
        ManifestState::Unreadable => Err("manifest_unreadable"@),
        ManifestState::Loaded { version, chunk_files } => if version != crate::index::local_search::INDEX_VERSION {
            Err("manifest_version_mismatch"@)
        } else {
            match spec_chunk_damage(chunk_files@, chunk_files.len() as int) {
                Some(r) => Err(r),
                None => Ok("healthy"@),
            }
        },
    }
}

/// Checks the index storage (see `spec_storage_health`: `Ok` is a healthy label, `Err` the
/// reason for a rebuild).
pub fn assess_storage(manifest: &ManifestState) -> (r: StorageHealthStatus)
    ensures
        match spec_storage_health(*manifest) {
            Ok(label) => !r.requires_full_rebuild && r.rebuild_reason is None && r.health_label@
                == label,
            Err(reason) => r.requires_full_rebuild && (r.rebuild_reason matches Some(s) && s@
                == reason) && r.health_label@ == "recovered"@,
        },
{
    match manifest {
        ManifestState::Missing => StorageHealthStatus::healthy("initializing"),
        ManifestState::Unreadable => StorageHealthStatus::requires_rebuild("manifest_unreadable"),
        ManifestState::Loaded { version, chunk_files } => {
            if *version != crate::index::local_search::INDEX_VERSION {
                return StorageHealthStatus::requires_rebuild("manifest_version_mismatch");
            }
            let mut i: usize = 0;
            while i < chunk_files.len()
                invariant
                    i <= chunk_files.len(),
                    spec_chunk_damage(chunk_files@, i as int) is None,
                    spec_storage_health(*manifest) == match spec_chunk_damage(
                        chunk_files@,
                        chunk_files.len() as int,
                    ) {
                        Some(r) => Err(r),
                        None => Ok("healthy"@),
                    },
                decreases chunk_files.len() - i,
            {
                match chunk_files[i] {
                    ChunkFileState::Missing => {
                        proof {
                            assert(spec_chunk_damage(chunk_files@, i as int + 1) == Some("missing_chunk_file"@));
                            lemma_damage_stays(chunk_files@, i as int + 1, chunk_files.len() as int);
                        }
                        return StorageHealthStatus::requires_rebuild("missing_chunk_file");
                    },
                    ChunkFileState::Unreadable => {
                        proof {
                            assert(spec_chunk_damage(chunk_files@, i as int + 1) == Some("chunk_unreadable"@));
                            lemma_damage_stays(chunk_files@, i as int + 1, chunk_files.len() as int);
                        }
                        return StorageHealthStatus::requires_rebuild("chunk_unreadable");
                    },
                    ChunkFileState::Records(c) => {
                        if c == 0 {
                            proof {
                                lemma_damage_stays(chunk_files@, i as int + 1, chunk_files.len() as int);
                            }
                            return StorageHealthStatus::requires_rebuild("empty_chunk_file");
                        }
                    },
                }
                i += 1;
            }
            StorageHealthStatus::healthy("healthy")
        },
    }
}

/// Once a damaged chunk file is found, the first damage stays the reason.
proof fn lemma_damage_stays(files: Seq<ChunkFileState>, k: int, n: int)
    requires
        0 <= k <= n,
    ensures
        spec_chunk_damage(files, k) is Some ==> spec_chunk_damage(files, n) == spec_chunk_damage(
            files,
            k,
        ),
    decreases n - k,
{
    if k < n {
        lemma_damage_stays(files, k, n - 1);
    }
}

/// What reading the index metadata file gave.
#[derive(Clone, Copy, Debug, PartialEq, Eq, Structural)]
pub enum MetaState {
    Missing,
    Unreadable,
    /// It was readable and of this version.
    Version(u32),
}

/// Whether the metadata file is removed: when it is unreadable or of another version.
pub fn meta_needs_reset(meta: MetaState) -> (b: bool)
    ensures
        b == (meta == MetaState::Unreadable || (meta matches MetaState::Version(v) && v
            != crate::index::local_search::INDEX_VERSION)),
{
    match meta {
        MetaState::Missing => false,
        MetaState::Unreadable => true,
        MetaState::Version(v) => v != crate::index::local_search::INDEX_VERSION,
    }
}

} // verus!
