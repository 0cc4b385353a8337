//! The answer and re-rank caches of the local search: which entry answers a query, and
//! which cache files a pruning pass removes.
use vstd::prelude::*;

use crate::index::local_search::{
    spec_sat_sub, QueryCacheEntry, QueryCachePruneStats, QUERY_CACHE_TTL_SEC,
    RERANK_CACHE_TTL_SEC,
};
use crate::text::{
    append_chars, chars_eq, lemma_str_lt_irreflexive, lemma_str_lt_total,
    lemma_str_lt_transitive, lit, lower_seq, spec_lower_seq, spec_str_lt, spec_trim, str_lt,
    string_from_chars, string_views, to_chars, trim,
};

verus! {

/// A cached re-rank answer: the candidate order the model gave for a query.
pub struct RerankCacheEntry {
    pub query: String,
    pub candidate_signature: String,
    pub rerank_model: String,
    pub rerank_mode: String,
    pub ordered_candidate_ids: Vec<String>,
    pub cached_at_unix_sec: u64,
}

/// What a cache entry found under a key says about the current request.
#[derive(Clone, Copy, Debug, PartialEq, Eq, Structural)]
pub enum CacheLookup {
    /// It answers the request.
    Hit,
    /// It is too old and is dropped.
    Expired,
    /// It was cached for another request and stays.
    Miss,
}

/// More than `ttl` seconds have passed since `cached_at` (a clock that went backwards
/// counts as no time passed).
pub open spec fn spec_expired(cached_at: u64, now: u64, ttl: u64) -> bool {
    spec_sat_sub(now as int, cached_at as int) > ttl
}

/// The verdict on a cached answer: expired after `QUERY_CACHE_TTL_SEC`; else a hit when it
/// was cached for the trimmed query, the same candidate signature and the same summary mode.
pub open spec fn spec_query_lookup(
    entry: QueryCacheEntry,
    now: u64,
    query: Seq<char>,
    signature: Seq<char>,
    summary_mode: Seq<char>,
) -> CacheLookup {
    if spec_expired(entry.cached_at_unix_sec, now, QUERY_CACHE_TTL_SEC) {
        CacheLookup::Expired
    } else if entry.query@ == spec_trim(query) && entry.candidate_signature@ == signature
        && entry.summary_mode@ == summary_mode {
        CacheLookup::Hit
    } else {
        CacheLookup::Miss
    }
}

fn same(a: &String, b: &Vec<char>) -> (r: bool)
    ensures
        r == (a@ == b@),
{
    chars_eq(&to_chars(a.as_str()), b)
}

/// The verdict on a cached answer (see `spec_query_lookup`).
pub fn check_query_cache_entry(
    entry: &QueryCacheEntry,
    now_unix_sec: u64,
    query: &str,
    candidate_signature: &str,
    summary_mode: &str,
) -> (r: CacheLookup)
    ensures
        r == spec_query_lookup(*entry, now_unix_sec, query@, candidate_signature@, summary_mode@),
{
    if now_unix_sec.saturating_sub(entry.cached_at_unix_sec) > QUERY_CACHE_TTL_SEC {
        return CacheLookup::Expired;
    }
    let q = trim(&to_chars(query));
    if same(&entry.query, &q) && same(&entry.candidate_signature, &to_chars(candidate_signature))
        && same(&entry.summary_mode, &to_chars(summary_mode)) {
        CacheLookup::Hit
    } else {
        CacheLookup::Miss
    }
}

/// The verdict on a cached re-rank answer: expired after `RERANK_CACHE_TTL_SEC`; else a hit
/// when it was cached for the trimmed query, the same candidate signature, re-rank mode and
/// model.
pub open spec fn spec_rerank_lookup(
    entry: RerankCacheEntry,
    now: u64,
    query: Seq<char>,
    signature: Seq<char>,
    rerank_mode: Seq<char>,
    rerank_model: Seq<char>,
) -> CacheLookup {
    if spec_expired(entry.cached_at_unix_sec, now, RERANK_CACHE_TTL_SEC) {
        CacheLookup::Expired
    } else if entry.query@ == spec_trim(query) && entry.candidate_signature@ == signature
        && entry.rerank_mode@ == rerank_mode && entry.rerank_model@ == rerank_model {
        CacheLookup::Hit
    } else {
        CacheLookup::Miss
    }
}

/// The verdict on a cached re-rank answer (see `spec_rerank_lookup`).
pub fn check_rerank_cache_entry(
    entry: &RerankCacheEntry,
    now_unix_sec: u64,
    query: &str,
    candidate_signature: &str,
    rerank_mode: &str,
    rerank_model: &str,
) -> (r: CacheLookup)
    ensures
        r == spec_rerank_lookup(
            *entry,
            now_unix_sec,
            query@,
            candidate_signature@,
            rerank_mode@,
            rerank_model@,
        ),
{
    if now_unix_sec.saturating_sub(entry.cached_at_unix_sec) > RERANK_CACHE_TTL_SEC {
        return CacheLookup::Expired;
    }
    let q = trim(&to_chars(query));
    if same(&entry.query, &q) && same(&entry.candidate_signature, &to_chars(candidate_signature))
        && same(&entry.rerank_mode, &to_chars(rerank_mode)) && same(
        &entry.rerank_model,
        &to_chars(rerank_model),
    ) {
        CacheLookup::Hit
    } else {
        CacheLookup::Miss
    }
}

fn owned(s: &str) -> (r: String)
    ensures
        r@ == s@,
{
    string_from_chars(to_chars(s).as_slice())
}

/// The cache entry that stores `result` for a request, stamped `now_unix_sec`.
pub fn new_query_cache_entry(
    query: &str,
    candidate_signature: &str,
    summary_mode: &str,
    result: &str,
    now_unix_sec: u64,
) -> (r: QueryCacheEntry)
    ensures
        r.query@ == spec_trim(query@),
        r.candidate_signature@ == candidate_signature@,
        r.summary_mode@ == summary_mode@,
        r.result@ == result@,
        r.cached_at_unix_sec == now_unix_sec,
        spec_query_lookup(r, now_unix_sec, query@, candidate_signature@, summary_mode@)
            == CacheLookup::Hit,
{
    let q = trim(&to_chars(query));
    QueryCacheEntry {
        query: string_from_chars(q.as_slice()),
        candidate_signature: owned(candidate_signature),
        summary_mode: owned(summary_mode),
        result: owned(result),
        cached_at_unix_sec: now_unix_sec,
    }
}

fn copy_strings(v: &Vec<String>) -> (r: Vec<String>)
    ensures
        string_views(r@) == string_views(v@),
{
    let mut r: Vec<String> = Vec::new();
    let mut i: usize = 0;
    while i < v.len()
        invariant
            i <= v.len(),
            string_views(r@) == string_views(v@).take(i as int),
        decreases v.len() - i,
    {
        let ghost pre = string_views(r@);
        r.push(owned(v[i].as_str()));
        proof {
            assert(string_views(r@) =~= pre.push(v@[i as int]@));
            assert(string_views(v@).take(i + 1) =~= string_views(v@).take(i as int).push(
                v@[i as int]@,
            ));
        }
        i += 1;
    }
    proof {
        assert(string_views(v@).take(v.len() as int) =~= string_views(v@));
    }
    r
}

/// The cache entry that stores a re-rank answer, stamped `now_unix_sec`.
pub fn new_rerank_cache_entry(
    query: &str,
    candidate_signature: &str,
    rerank_mode: &str,
    rerank_model: &str,
    ordered_candidate_ids: &Vec<String>,
    now_unix_sec: u64,
) -> (r: RerankCacheEntry)
    ensures
        r.query@ == spec_trim(query@),
        r.candidate_signature@ == candidate_signature@,
        r.rerank_mode@ == rerank_mode@,
        r.rerank_model@ == rerank_model@,
        string_views(r.ordered_candidate_ids@) == string_views(ordered_candidate_ids@),
        r.cached_at_unix_sec == now_unix_sec,
        spec_rerank_lookup(
            r,
            now_unix_sec,
            query@,
            candidate_signature@,
            rerank_mode@,
            rerank_model@,
        ) == CacheLookup::Hit,
{
    let q = trim(&to_chars(query));
    RerankCacheEntry {
        query: string_from_chars(q.as_slice()),
        candidate_signature: owned(candidate_signature),
        rerank_model: owned(rerank_model),
        rerank_mode: owned(rerank_mode),
        ordered_candidate_ids: copy_strings(ordered_candidate_ids),
        cached_at_unix_sec: now_unix_sec,
    }
}

/// The file that stores the cache entry with key `key`: the key, then `.json`.
pub fn cache_file_name(key: &str) -> (r: String)
    ensures
        r@ == key@ + ".json"@,
{
    let mut c = to_chars(key);
    append_chars(&mut c, &lit(".json"));
    string_from_chars(c.as_slice())
}

/// `ext` is `json` in any ASCII case.
pub open spec fn spec_is_json(ext: Seq<char>) -> bool {
    spec_lower_seq(ext) == "json"@
}

fn is_json(ext: &str) -> (b: bool)
    ensures
        b == spec_is_json(ext@),
{
    let l = lower_seq(&to_chars(ext));
    chars_eq(&l, &lit("json"))
}

/// Whether a pruning pass reads a cache file with this extension: one without an extension,
/// or a `json` one.
pub fn is_prunable_cache_file(extension: Option<&str>) -> (b: bool)
    ensures
        b == match extension {
            None => true,
            Some(e) => spec_is_json(e@),
        },
{
    match extension {
        None => true,
        Some(e) => is_json(e),
    }
}

/// Whether a cache file with this extension counts as a cache entry: a `json` one.
pub fn is_counted_cache_file(extension: Option<&str>) -> (b: bool)
    ensures
        b == match extension {
            None => false,
            Some(e) => spec_is_json(e@),
        },
{
    match extension {
        None => false,
        Some(e) => is_json(e),
    }
}

/// What reading a cache file gave.
#[derive(Clone, Copy, Debug, PartialEq, Eq, Structural)]
pub enum CacheRead {
    /// Not a cache entry.
    Invalid,
    /// An entry cached at this time.
    Valid(u64),
}

/// A cache file: its name and what reading it gave.
pub struct CacheFile {
    pub name: String,
    pub read: CacheRead,
}

/// What a pruning pass does with a cache file.
#[derive(Clone, Copy, Debug, PartialEq, Eq, Structural)]
pub enum PruneAction {
    Keep,
    RemoveExpired,
    RemoveInvalid,
    /// Removed because newer entries fill the cache.
    RemoveOverflow,
}

/// File `j` holds an entry that has not expired.
pub open spec fn spec_live(files: Seq<CacheFile>, j: int, now: u64, ttl: u64) -> bool {
    0 <= j < files.len() && match files[j].read {
        CacheRead::Valid(t) => !spec_expired(t, now, ttl),
        CacheRead::Invalid => false,
    }
}

/// Entry `k` comes before entry `j` in the order a pruning pass keeps them: newer first, then
/// by file name, then in listing order.
pub open spec fn spec_before(files: Seq<CacheFile>, k: int, j: int) -> bool {
    match (files[k].read, files[j].read) {
        (CacheRead::Valid(tk), CacheRead::Valid(tj)) => tk > tj || (tk == tj && (spec_str_lt(
            files[k].name@,
            files[j].name@,
        ) || (files[k].name@ == files[j].name@ && k < j))),
        _ => false,
    }
}

/// How many of the first `n` files hold live entries that come before entry `j`.
pub open spec fn spec_ahead(files: Seq<CacheFile>, j: int, now: u64, ttl: u64, n: int) -> nat
    decreases n,
{
    if n <= 0 {
        0
    } else {
        spec_ahead(files, j, now, ttl, n - 1) + if spec_live(files, n - 1, now, ttl)
            && spec_before(files, n - 1, j) {
            1nat
        } else {
            0nat
        }
    }
}

/// What a pruning pass does with file `j`: it removes an unreadable or expired entry, and a
/// live one that `max_entries` live entries come before; it keeps the rest.
pub open spec fn spec_prune_action(
    files: Seq<CacheFile>,
    j: int,
    now: u64,
    ttl: u64,
    max_entries: usize,
) -> PruneAction {
    match files[j].read {
        CacheRead::Invalid => PruneAction::RemoveInvalid,
        CacheRead::Valid(t) => if spec_expired(t, now, ttl) {
            PruneAction::RemoveExpired
        } else if spec_ahead(files, j, now, ttl, files.len() as int) >= max_entries {
            PruneAction::RemoveOverflow
        } else {
            PruneAction::Keep
        },
    }
}

/// How many of the first `n` files are live.
pub open spec fn spec_live_count(files: Seq<CacheFile>, now: u64, ttl: u64, n: int) -> nat
    decreases n,
{
    if n <= 0 {
        0
    } else {
        spec_live_count(files, now, ttl, n - 1) + if spec_live(files, n - 1, now, ttl) {
            1nat
        } else {
            0nat
        }
    }
}

/// How many of the first `n` files the pass treats with `a`.
pub open spec fn spec_action_count(
    files: Seq<CacheFile>,
    now: u64,
    ttl: u64,
    max_entries: usize,
    a: PruneAction,
    n: int,
) -> nat
    decreases n,
{
    if n <= 0 {
        0
    } else {
        spec_action_count(files, now, ttl, max_entries, a, n - 1) + if spec_prune_action(
            files,
            n - 1,
            now,
            ttl,
            max_entries,
        ) == a {
            1nat
        } else {
            0nat
        }
    }
}

fn is_before(files: &Vec<CacheFile>, k: usize, j: usize) -> (b: bool)
    requires
        k < files.len(),
        j < files.len(),
    ensures
        b == spec_before(files@, k as int, j as int),
{
    match (files[k].read, files[j].read) {
        (CacheRead::Valid(tk), CacheRead::Valid(tj)) => {
            if tk != tj {
                tk > tj
            } else {
                let nk = to_chars(files[k].name.as_str());
                let nj = to_chars(files[j].name.as_str());
                str_lt(&nk, &nj) || (chars_eq(&nk, &nj) && k < j)
            }
        },
        _ => false,
    }
}

fn is_live(files: &Vec<CacheFile>, j: usize, now: u64, ttl: u64) -> (b: bool)
    requires
        j < files.len(),
    ensures
        b == spec_live(files@, j as int, now, ttl),
{
    match files[j].read {
        CacheRead::Valid(t) => !(now.saturating_sub(t) > ttl),
        CacheRead::Invalid => false,
    }
}

fn ahead(files: &Vec<CacheFile>, j: usize, now: u64, ttl: u64) -> (c: usize)
    requires
        j < files.len(),
    ensures
        c == spec_ahead(files@, j as int, now, ttl, files.len() as int),
{
    let mut c: usize = 0;
    let mut k: usize = 0;
    while k < files.len()
        invariant
            k <= files.len(),
            j < files.len(),
            c == spec_ahead(files@, j as int, now, ttl, k as int),
            c <= k,
        decreases files.len() - k,
    {
        if is_live(files, k, now, ttl) && is_before(files, k, j) {
            c += 1;
        }
        k += 1;
    }
    c
}

/// One pruning pass over a cache directory: what happens to each file (see
/// `spec_prune_action`), with the counts of each kind of removal and the number of entries
/// kept (`max_entries` at most).
pub fn plan_cache_prune(files: &Vec<CacheFile>, now_unix_sec: u64, ttl: u64, max_entries: usize) -> (r:
    (Vec<PruneAction>, QueryCachePruneStats))
    ensures
        r.0.len() == files.len(),
        forall|j: int|
            0 <= j < files.len() ==> #[trigger] r.0@[j] == spec_prune_action(
                files@,
                j,
                now_unix_sec,
                ttl,
                max_entries,
            ),
        r.1.expired_removed == spec_action_count(
            files@,
            now_unix_sec,
            ttl,
            max_entries,
            PruneAction::RemoveExpired,
            files.len() as int,
        ),
        r.1.invalid_removed == spec_action_count(
            files@,
            now_unix_sec,
            ttl,
            max_entries,
            PruneAction::RemoveInvalid,
            files.len() as int,
        ),
        r.1.overflow_removed == spec_action_count(
            files@,
            now_unix_sec,
            ttl,
            max_entries,
            PruneAction::RemoveOverflow,
            files.len() as int,
        ),
        r.1.kept_entries == if spec_live_count(files@, now_unix_sec, ttl, files.len() as int)
            <= max_entries {
            spec_live_count(files@, now_unix_sec, ttl, files.len() as int)
        } else {
            max_entries as nat
        },
{
    let mut actions: Vec<PruneAction> = Vec::new();
    let mut expired: usize = 0;
    let mut invalid: usize = 0;
    let mut overflow: usize = 0;
    let mut live: usize = 0;
    let mut j: usize = 0;
    while j < files.len()
        invariant
            j <= files.len(),
            actions.len() == j,
            forall|q: int|
                0 <= q < j ==> #[trigger] actions@[q] == spec_prune_action(
                    files@,
                    q,
                    now_unix_sec,
                    ttl,
                    max_entries,
                ),
            expired == spec_action_count(
                files@,
                now_unix_sec,
                ttl,
                max_entries,
                PruneAction::RemoveExpired,
                j as int,
            ),
            invalid == spec_action_count(
                files@,
                now_unix_sec,
                ttl,
                max_entries,
                PruneAction::RemoveInvalid,
                j as int,
            ),
            overflow == spec_action_count(
                files@,
                now_unix_sec,
                ttl,
                max_entries,
                PruneAction::RemoveOverflow,
                j as int,
            ),
            live == spec_live_count(files@, now_unix_sec, ttl, j as int),
            expired <= j,
            invalid <= j,
            overflow <= j,
            live <= j,
        decreases files.len() - j,
    {
        let action = match files[j].read {
            CacheRead::Invalid => PruneAction::RemoveInvalid,
            CacheRead::Valid(t) => {
                if now_unix_sec.saturating_sub(t) > ttl {
                    PruneAction::RemoveExpired
                } else if ahead(files, j, now_unix_sec, ttl) >= max_entries {
                    PruneAction::RemoveOverflow
                } else {
                    PruneAction::Keep
                }
            },
        };
        match action {
            PruneAction::RemoveExpired => {
                expired += 1;
            },
            PruneAction::RemoveInvalid => {
                invalid += 1;
            },
            PruneAction::RemoveOverflow => {
                overflow += 1;
            },
            PruneAction::Keep => {},
        }
        if is_live(files, j, now_unix_sec, ttl) {
            live += 1;
        }
        actions.push(action);
        j += 1;
    }
    let kept = if live <= max_entries {
        live
    } else {
        max_entries
    };
    (
        actions,
        QueryCachePruneStats {
            kept_entries: kept,
            expired_removed: expired,
            invalid_removed: invalid,
            overflow_removed: overflow,
        },
    )
}

proof fn lemma_before_total(files: Seq<CacheFile>, now: u64, ttl: u64, k: int, j: int)
    requires
        spec_live(files, k, now, ttl),
        spec_live(files, j, now, ttl),
        k != j,
    ensures
        spec_before(files, k, j) || spec_before(files, j, k),
{
    if files[k].name@ != files[j].name@ {
        lemma_str_lt_total(files[k].name@, files[j].name@);
    }
}

proof fn lemma_before_irreflexive(files: Seq<CacheFile>, j: int)
    requires
        0 <= j < files.len(),
    ensures
        !spec_before(files, j, j),
{
    lemma_str_lt_irreflexive(files[j].name@);
}

proof fn lemma_before_transitive(files: Seq<CacheFile>, a: int, b: int, c: int)
    requires
        0 <= a < files.len(),
        0 <= b < files.len(),
        0 <= c < files.len(),
        spec_before(files, a, b),
        spec_before(files, b, c),
    ensures
        spec_before(files, a, c),
{
    let (na, nb, nc) = (files[a].name@, files[b].name@, files[c].name@);
    if spec_str_lt(na, nb) && spec_str_lt(nb, nc) {
        lemma_str_lt_transitive(na, nb, nc);
    }
}

/// When `k` comes before `j`, more live entries come before `j` than before `k`.
proof fn lemma_ahead_monotone(files: Seq<CacheFile>, now: u64, ttl: u64, k: int, j: int, n: int)
    requires
        0 <= k < files.len(),
        0 <= j < files.len(),
        0 <= n <= files.len(),
        spec_live(files, k, now, ttl),
        spec_before(files, k, j),
    ensures
        spec_ahead(files, j, now, ttl, n) >= spec_ahead(files, k, now, ttl, n) + if k < n {
            1int
        } else {
            0int
        },
    decreases n,
{
    if n > 0 {
        lemma_ahead_monotone(files, now, ttl, k, j, n - 1);
        let m = n - 1;
        if spec_live(files, m, now, ttl) && spec_before(files, m, k) {
            lemma_before_transitive(files, m, k, j);
        }
        if m == k {
            lemma_before_irreflexive(files, k);
        }
    }
}

/// The set of files the pass keeps.
pub open spec fn spec_kept_set(files: Seq<CacheFile>, now: u64, ttl: u64, max_entries: usize) -> Set<
    int,
> {
    Set::new(
        |j: int|
            0 <= j < files.len() && spec_prune_action(files, j, now, ttl, max_entries)
                == PruneAction::Keep,
    )
}

/// Law: a pruning pass leaves at most `max_entries` entries; it removes no live entry for
/// lack of room while the live entries fit; and every entry it keeps comes before every live
/// entry it removes for lack of room (it keeps the newest).
pub proof fn law_prune_keeps_newest_within_cap(
    files: Seq<CacheFile>,
    now: u64,
    ttl: u64,
    max_entries: usize,
)
    ensures
        spec_kept_set(files, now, ttl, max_entries).finite(),
        spec_kept_set(files, now, ttl, max_entries).len() <= max_entries,
        spec_live_count(files, now, ttl, files.len() as int) <= max_entries ==> forall|j: int|
            #[trigger] spec_live(files, j, now, ttl) ==> spec_prune_action(
                files,
                j,
                now,
                ttl,
                max_entries,
            ) == PruneAction::Keep,
        forall|j: int, k: int|
            0 <= j < files.len() && 0 <= k < files.len() && spec_prune_action(
                files,
                j,
                now,
                ttl,
                max_entries,
            ) == PruneAction::Keep && #[trigger] spec_prune_action(
                files,
                k,
                now,
                ttl,
                max_entries,
            ) == PruneAction::RemoveOverflow ==> #[trigger] spec_before(files, j, k),
{
    let n = files.len() as int;
    let kept = spec_kept_set(files, now, ttl, max_entries);
    let rank = |j: int| spec_ahead(files, j, now, ttl, n) as int;
    vstd::set_lib::lemma_int_range(0, n);
    assert(kept.subset_of(vstd::set_lib::set_int_range(0, n)));
    vstd::set_lib::lemma_len_subset(kept, vstd::set_lib::set_int_range(0, n));
    assert(forall|j: int| #[trigger] kept.contains(j) ==> spec_live(files, j, now, ttl));
    assert forall|a: int, b: int| kept.contains(a) && kept.contains(b) && #[trigger] rank(a)
        == #[trigger] rank(b) implies a == b by {
        if a != b {
            lemma_before_total(files, now, ttl, a, b);
            if spec_before(files, a, b) {
                lemma_ahead_monotone(files, now, ttl, a, b, n);
            } else {
                lemma_ahead_monotone(files, now, ttl, b, a, n);
            }
        }
    }
    let img = kept.map(rank);
    assert(vstd::relations::injective_on(rank, kept));
    vstd::set_lib::lemma_map_size(kept, img, rank);
    vstd::set_lib::lemma_int_range(0, max_entries as int);
    assert forall|x: int| img.contains(x) implies vstd::set_lib::set_int_range(
        0,
        max_entries as int,
    ).contains(x) by {
        let j = choose|j: int| kept.contains(j) && rank(j) == x;
    }
    vstd::set_lib::lemma_len_subset(img, vstd::set_lib::set_int_range(0, max_entries as int));
    if spec_live_count(files, now, ttl, n) <= max_entries {
        assert forall|j: int| #[trigger] spec_live(files, j, now, ttl) implies spec_prune_action(
            files,
            j,
            now,
            ttl,
            max_entries,
        ) == PruneAction::Keep by {
            lemma_ahead_below_live(files, now, ttl, j, n);
        }
    }
    assert forall|j: int, k: int|
        0 <= j < files.len() && 0 <= k < files.len() && spec_prune_action(
            files,
            j,
            now,
            ttl,
            max_entries,
        ) == PruneAction::Keep && #[trigger] spec_prune_action(
            files,
            k,
            now,
            ttl,
            max_entries,
        ) == PruneAction::RemoveOverflow implies #[trigger] spec_before(files, j, k) by {
        if !spec_before(files, j, k) {
            lemma_before_total(files, now, ttl, j, k);
            lemma_ahead_monotone(files, now, ttl, k, j, n);
        }
    }
}

/// Fewer live entries come before a live entry `j` than there are live entries.
proof fn lemma_ahead_below_live(files: Seq<CacheFile>, now: u64, ttl: u64, j: int, n: int)
    requires
        spec_live(files, j, now, ttl),
        0 <= n <= files.len(),
    ensures
        spec_ahead(files, j, now, ttl, n) + if j < n {
            1int
        } else {
            0int
        } <= spec_live_count(files, now, ttl, n),
    decreases n,
{
    if n > 0 {
        lemma_ahead_below_live(files, now, ttl, j, n - 1);
        if n - 1 == j {
            lemma_before_irreflexive(files, j);
        }
    }
}

/// The chunk files nobody references: indices into `names` of those not in `referenced`.
pub fn orphan_chunk_files(names: &Vec<String>, referenced: &Vec<String>) -> (r: Vec<usize>)
    ensures
        forall|a: int| 0 <= a < r.len() ==> #[trigger] r@[a] < names.len(),
        forall|a: int, b: int| 0 <= a < b < r.len() ==> r@[a] < r@[b],
        forall|j: int|
            0 <= j < names.len() ==> (r@.contains(j as usize) <==> !string_views(
                referenced@,
            ).contains(#[trigger] names@[j]@)),
{
    let mut refs: Vec<Vec<char>> = Vec::new();
    let mut i: usize = 0;
    while i < referenced.len()
        invariant
            i <= referenced.len(),
            crate::text::views(refs@) == string_views(referenced@).take(i as int),
        decreases referenced.len() - i,
    {
        let ghost pre = crate::text::views(refs@);
        refs.push(to_chars(referenced[i].as_str()));
        proof {
            assert(crate::text::views(refs@) =~= pre.push(referenced@[i as int]@));
            assert(string_views(referenced@).take(i + 1) =~= string_views(referenced@).take(
                i as int,
            ).push(referenced@[i as int]@));
        }
        i += 1;
    }
    proof {
        assert(string_views(referenced@).take(referenced.len() as int) =~= string_views(
            referenced@,
        ));
    }
    let mut r: Vec<usize> = Vec::new();
    let mut j: usize = 0;
    while j < names.len()
        invariant
            j <= names.len(),
            crate::text::views(refs@) == string_views(referenced@),
            forall|a: int| 0 <= a < r.len() ==> #[trigger] r@[a] < j,
            forall|a: int, b: int| 0 <= a < b < r.len() ==> r@[a] < r@[b],
            forall|q: int|
                0 <= q < j ==> (r@.contains(q as usize) <==> !string_views(referenced@).contains(
                    #[trigger] names@[q]@,
                )),
        decreases names.len() - j,
    {
        let n = to_chars(names[j].as_str());
        let mut found = false;
        let mut k: usize = 0;
        while k < refs.len()
            invariant
                k <= refs.len(),
                n@ == names@[j as int]@,
                found == exists|x: int| 0 <= x < k && #[trigger] crate::text::views(refs@)[x] == n@,
            decreases refs.len() - k,
        {
            if chars_eq(&refs[k], &n) {
                found = true;
            }
            proof {
                assert(crate::text::views(refs@)[k as int] == refs@[k as int]@);
                if found && !(refs@[k as int]@ == n@) {
                    let x = choose|x: int| 0 <= x < k && #[trigger] crate::text::views(refs@)[x] == n@;
                    assert(crate::text::views(refs@)[x] == n@);
                }
            }
            k += 1;
        }
        let ghost pre = r@;
        if !found {
            r.push(j);
        }
        proof {
            assert forall|q: int| 0 <= q < j + 1 implies (r@.contains(q as usize) <==> !string_views(
                referenced@,
            ).contains(#[trigger] names@[q]@)) by {
                if q < j {
                    if r@.contains(q as usize) {
                        let a = choose|a: int| 0 <= a < r.len() && r@[a] == q as usize;
                        if a == pre.len() {
                            assert(r@[a] == j);
                        } else {
                            assert(pre[a] == q as usize);
                        }
                    }
                    if pre.contains(q as usize) {
                        let a = choose|a: int| 0 <= a < pre.len() && pre[a] == q as usize;
                        assert(r@[a] == q as usize);
                    }
                } else {
                    if string_views(referenced@).contains(names@[q]@) {
                        let x = choose|x: int|
                            0 <= x < string_views(referenced@).len() && string_views(referenced@)[x]
                                == names@[q]@;
                        assert(crate::text::views(refs@)[x] == n@);
                        if r@.contains(q as usize) {
                            let a = choose|a: int| 0 <= a < r.len() && r@[a] == q as usize;
                            assert(pre[a] < j);
                        }
                    } else {
                        if found {
                            let x = choose|x: int|
                                0 <= x < refs.len() && #[trigger] crate::text::views(refs@)[x] == n@;
                            assert(string_views(referenced@)[x] == n@);
                        }
                        assert(r@[r.len() - 1] == j);
                    }
                }
            }
        }
        j += 1;
    }
    r
}

} // verus!
