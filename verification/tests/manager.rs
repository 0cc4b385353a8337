use rust_win32::hashing::sha256_hex;
use rust_win32::index::manager::{
    batch_too_large, calculate_blob_name, get_upload_strategy, next_batch_size, plan_batches,
    printable_counts, retrieval_answer, retrieval_backoff_ms, retrieval_fatal_error,
    sanitize_content, should_exclude_path, split_file_content, summarize_index_run,
    wildcard_match,
};

#[test]
fn small_files_stay_whole() {
    let blobs = split_file_content("a.txt", "x\ny\n", 5);
    assert_eq!(blobs.len(), 1);
    assert_eq!(blobs[0].path, "a.txt");
    assert_eq!(blobs[0].content, "x\ny\n");
}

#[test]
fn large_files_are_chunked_and_lose_nothing() {
    let content = "1\r\n2\n3\r4\n5";
    let blobs = split_file_content("f.rs", content, 2);
    let paths: Vec<&str> = blobs.iter().map(|b| b.path.as_str()).collect();
    assert_eq!(paths, vec!["f.rs#chunk1of3", "f.rs#chunk2of3", "f.rs#chunk3of3"]);
    assert_eq!(blobs[0].content, "1\r\n2\n");
    assert_eq!(blobs[1].content, "3\r4\n");
    assert_eq!(blobs[2].content, "5");
    let joined: String = blobs.iter().map(|b| b.content.as_str()).collect();
    assert_eq!(joined, content);
}

#[test]
fn control_characters_are_removed() {
    assert_eq!(sanitize_content("a\u{0}b\tc\u{7f}\n"), "ab\tc\n");
    assert_eq!(printable_counts("a\u{1}\u{b}"), (1, 3));
    assert_eq!(printable_counts(""), (0, 1));
}

#[test]
fn upload_strategy_scales() {
    assert_eq!(get_upload_strategy(10).batch_size, 10);
    assert_eq!(get_upload_strategy(100).concurrency, 2);
    assert_eq!(get_upload_strategy(1999).timeout_ms, 60000);
    assert_eq!(get_upload_strategy(5000).scale_name, "超大型");
    assert_eq!(next_batch_size(30, 0), 30);
    assert_eq!(next_batch_size(30, 1), 15);
    assert_eq!(next_batch_size(8, 2), 5);
}

#[test]
fn batches_cover_all_items() {
    assert_eq!(plan_batches(7, 3), vec![(0, 3), (3, 6), (6, 7)]);
    assert!(plan_batches(0, 3).is_empty());
}

#[test]
fn blob_name_is_sha256_of_path_and_content() {
    assert_eq!(
        sha256_hex("abc"),
        "ba7816bf8f01cfea414140de5dae2223b00361a396177a9cb410ff61f20015ad"
    );
    assert_eq!(calculate_blob_name("a", "bc"), sha256_hex("abc"));
}

#[test]
fn exclusion_by_part_or_whole_path() {
    let patterns = vec!["node_modules".to_string(), "*.log".to_string()];
    assert!(should_exclude_path("web/node_modules/x.js", false, &patterns));
    assert!(should_exclude_path("logs/app.log", false, &patterns));
    assert!(!should_exclude_path("src/main.rs", false, &patterns));
    assert!(should_exclude_path("src/main.rs", true, &patterns));
    assert!(wildcard_match("a.min.js", "*.min.js"));
    assert!(!wildcard_match("a.js", "?.min.js"));
}

#[test]
fn index_run_outcomes() {
    let ok = summarize_index_run(3, 2, 0, None);
    assert_eq!(ok.status, "success");
    assert_eq!(ok.message, "Indexed 5 blobs (existing: 3, new: 2)");
    let partial = summarize_index_run(3, 0, 4, Some("boom".to_string()));
    assert_eq!(partial.status, "partial_success");
    assert_eq!(partial.stats.as_ref().unwrap().failed_batches, Some(4));
    let failed = summarize_index_run(0, 0, 4, None);
    assert_eq!(failed.status, "error");
    let fatal = summarize_index_run(0, 0, 0, Some("bad".to_string()));
    assert_eq!(fatal.message, "bad");
}

#[test]
fn retrieval_errors_and_answers() {
    assert_eq!(retrieval_fatal_error(Some(503), "x").is_some(), true);
    assert!(retrieval_fatal_error(None, "invalid peer certificate").is_some());
    assert_eq!(retrieval_fatal_error(Some(500), "x"), None);
    assert_eq!(retrieval_backoff_ms(0), 1000);
    assert_eq!(retrieval_backoff_ms(1), 2000);
    assert_eq!(retrieval_answer(Some("")), "No relevant code context found for your query.");
    assert_eq!(retrieval_answer(Some("ctx")), "ctx");
    assert!(batch_too_large(&vec![5 * 1024 * 1024, 1]));
    assert!(!batch_too_large(&vec![10, 20]));
}
