use rust_win32::hashing::sha256_hex;
use rust_win32::index::local_cache::{
    cache_file_name, check_query_cache_entry, check_rerank_cache_entry, is_counted_cache_file,
    is_prunable_cache_file, new_query_cache_entry, new_rerank_cache_entry, orphan_chunk_files,
    plan_cache_prune, CacheFile, CacheLookup, CacheRead, PruneAction,
};
use rust_win32::index::local_search::{QUERY_CACHE_TTL_SEC, RERANK_CACHE_TTL_SEC};
use rust_win32::index::local_store::{
    assemble_manifest, assess_storage, build_chunk_records, build_index_signature,
    index_file_entry, meta_needs_reset, plan_reuse, ChunkFileState, DiscoveredFile,
    LocalFileManifestEntry, ManifestState, MetaState,
};

fn entry(path: &str, mtime: u64, size: u64, count: usize) -> LocalFileManifestEntry {
    LocalFileManifestEntry {
        path: path.to_string(),
        file_name: path.to_string(),
        modified_unix_sec: mtime,
        size,
        file_hash: format!("hash-{path}"),
        chunk_file: format!("{path}.json"),
        chunk_count: count,
    }
}

fn discovered(path: &str, mtime: u64, size: u64) -> DiscoveredFile {
    DiscoveredFile {
        path: path.to_string(),
        file_name: path.to_string(),
        modified_unix_sec: mtime,
        size,
    }
}

#[test]
fn chunk_records_carry_hashes_tokens_and_symbols() {
    let content = "fn alpha() {}\nlet beta = 1;";
    let records = build_chunk_records("src/a.rs", "a.rs", "a", content, 800);
    assert_eq!(records.len(), 1);
    let r = &records[0];
    assert_eq!((r.start_line, r.end_line), (1, 2));
    assert_eq!(r.content, content);
    assert_eq!(r.content_hash, sha256_hex(content));
    assert_eq!(r.id, sha256_hex(&format!("src/a.rs:1:2:{}", r.content_hash)));
    assert_eq!(r.symbol_tokens, vec!["alpha".to_string(), "beta".to_string()]);
    assert_eq!(r.token_count, 10);
    assert!(r.normalized_text.starts_with("src a rs a rs fn alpha"));
}

#[test]
fn index_file_entry_skips_blank_text() {
    let f = discovered("src/a.rs", 5, 10);
    assert!(index_file_entry(&f, "  \n ", 800).is_none());
    let content = "fn alpha() {}\nlet beta = 1;";
    let (e, records) = index_file_entry(&f, content, 800).expect("indexed");
    assert_eq!(e.path, "src/a.rs");
    assert_eq!(e.file_hash, sha256_hex(content));
    assert_eq!(e.chunk_file, format!("{}.json", sha256_hex("src/a.rs")));
    assert_eq!(e.chunk_count, 1);
    assert_eq!((e.modified_unix_sec, e.size), (5, 10));
    assert_eq!(records.len(), 1);
}

#[test]
fn plan_reuse_needs_same_stamp_and_existing_chunk_file() {
    let old = vec![entry("a", 1, 2, 1), entry("b", 3, 4, 1)];
    let disc = vec![discovered("a", 1, 2), discovered("b", 3, 4), discovered("c", 1, 1)];
    assert_eq!(plan_reuse(&old, &vec![true, false], &disc, false), vec![Some(0), None, None]);
    assert_eq!(plan_reuse(&old, &vec![true, true], &disc, true), vec![None, None, None]);
    let changed = vec![discovered("a", 1, 3)];
    assert_eq!(plan_reuse(&old, &vec![true, true], &changed, false), vec![None]);
}

#[test]
fn assemble_manifest_sorts_counts_and_deletes() {
    let old = vec![entry("a", 1, 2, 1), entry("b", 3, 4, 2)];
    let disc = vec![discovered("c", 1, 1), discovered("a", 1, 2), discovered("b", 9, 9)];
    let reuse = vec![None, Some(0), None];
    let indexed = vec![Some(entry("c", 1, 1, 3)), None, None];
    let update = assemble_manifest(&old, &disc, &reuse, &indexed);
    let paths: Vec<&str> = update.entries.iter().map(|e| e.path.as_str()).collect();
    assert_eq!(paths, vec!["a", "c"]);
    assert_eq!(update.reused_files, 1);
    assert_eq!(update.updated_files, 2);
    assert_eq!(update.deleted, vec![1]);
    assert_eq!(
        build_index_signature(&update.entries),
        sha256_hex("ahash-a1chash-c3")
    );
}

#[test]
fn storage_health_reports_first_damage() {
    let h = assess_storage(&ManifestState::Missing);
    assert!(!h.requires_full_rebuild);
    assert_eq!(h.health_label, "initializing");
    let h = assess_storage(&ManifestState::Unreadable);
    assert!(h.requires_full_rebuild);
    assert_eq!(h.rebuild_reason.as_deref(), Some("manifest_unreadable"));
    assert_eq!(h.health_label, "recovered");
    let h = assess_storage(&ManifestState::Loaded { version: 2, chunk_files: vec![] });
    assert_eq!(h.rebuild_reason.as_deref(), Some("manifest_version_mismatch"));
    let h = assess_storage(&ManifestState::Loaded {
        version: 3,
        chunk_files: vec![
            ChunkFileState::Records(2),
            ChunkFileState::Records(0),
            ChunkFileState::Missing,
        ],
    });
    assert_eq!(h.rebuild_reason.as_deref(), Some("empty_chunk_file"));
    let h = assess_storage(&ManifestState::Loaded {
        version: 3,
        chunk_files: vec![ChunkFileState::Unreadable],
    });
    assert_eq!(h.rebuild_reason.as_deref(), Some("chunk_unreadable"));
    let h = assess_storage(&ManifestState::Loaded {
        version: 3,
        chunk_files: vec![ChunkFileState::Missing],
    });
    assert_eq!(h.rebuild_reason.as_deref(), Some("missing_chunk_file"));
    let h = assess_storage(&ManifestState::Loaded {
        version: 3,
        chunk_files: vec![ChunkFileState::Records(1)],
    });
    assert!(!h.requires_full_rebuild);
    assert_eq!(h.health_label, "healthy");
}

#[test]
fn meta_is_reset_when_unreadable_or_outdated() {
    assert!(!meta_needs_reset(MetaState::Missing));
    assert!(meta_needs_reset(MetaState::Unreadable));
    assert!(meta_needs_reset(MetaState::Version(2)));
    assert!(!meta_needs_reset(MetaState::Version(3)));
}

#[test]
fn query_cache_entries_hit_miss_and_expire() {
    let e = new_query_cache_entry("  where is x  ", "sig", "gpt", "answer", 1000);
    assert_eq!(e.query, "where is x");
    assert_eq!(check_query_cache_entry(&e, 1000, "where is x", "sig", "gpt"), CacheLookup::Hit);
    assert_eq!(check_query_cache_entry(&e, 1000, "where is x", "sig2", "gpt"), CacheLookup::Miss);
    assert_eq!(
        check_query_cache_entry(&e, 1000 + QUERY_CACHE_TTL_SEC, "where is x", "sig", "gpt"),
        CacheLookup::Hit
    );
    assert_eq!(
        check_query_cache_entry(&e, 1001 + QUERY_CACHE_TTL_SEC, "where is x", "sig", "gpt"),
        CacheLookup::Expired
    );
    let ids = vec!["a".to_string(), "b".to_string()];
    let r = new_rerank_cache_entry("q", "sig", "broad_only", "m", &ids, 10);
    assert_eq!(check_rerank_cache_entry(&r, 10, " q ", "sig", "broad_only", "m"), CacheLookup::Hit);
    assert_eq!(check_rerank_cache_entry(&r, 10, "q", "sig", "broad_only", "m2"), CacheLookup::Miss);
    assert_eq!(
        check_rerank_cache_entry(&r, 11 + RERANK_CACHE_TTL_SEC, "q", "sig", "broad_only", "m"),
        CacheLookup::Expired
    );
    assert_eq!(r.ordered_candidate_ids, ids);
}

#[test]
fn cache_prune_keeps_newest_within_cap() {
    let files = vec![
        CacheFile { name: "a.json".to_string(), read: CacheRead::Valid(1500) },
        CacheFile { name: "b.json".to_string(), read: CacheRead::Invalid },
        CacheFile { name: "c.json".to_string(), read: CacheRead::Valid(1900) },
        CacheFile { name: "d.json".to_string(), read: CacheRead::Valid(1500) },
        CacheFile { name: "e.json".to_string(), read: CacheRead::Valid(500) },
    ];
    let (actions, stats) = plan_cache_prune(&files, 2000, 1000, 2);
    assert_eq!(
        actions,
        vec![
            PruneAction::Keep,
            PruneAction::RemoveInvalid,
            PruneAction::Keep,
            PruneAction::RemoveOverflow,
            PruneAction::RemoveExpired,
        ]
    );
    assert_eq!(stats.kept_entries, 2);
    assert_eq!(stats.expired_removed, 1);
    assert_eq!(stats.invalid_removed, 1);
    assert_eq!(stats.overflow_removed, 1);
    assert_eq!(stats.total_removed(), 3);
    let (actions, stats) = plan_cache_prune(&files, 2000, 1000, 200);
    assert_eq!(actions[3], PruneAction::Keep);
    assert_eq!(stats.kept_entries, 3);
}

#[test]
fn cache_file_helpers() {
    assert_eq!(cache_file_name("k"), "k.json");
    assert!(is_prunable_cache_file(None));
    assert!(is_prunable_cache_file(Some("JSON")));
    assert!(!is_prunable_cache_file(Some("txt")));
    assert!(!is_counted_cache_file(None));
    assert!(is_counted_cache_file(Some("Json")));
    let names = vec!["x.json".to_string(), "y.json".to_string(), "z.json".to_string()];
    assert_eq!(orphan_chunk_files(&names, &vec!["y.json".to_string()]), vec![0, 2]);
}
