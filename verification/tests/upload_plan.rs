use rust_win32::index::manager::{
    build_retrieval_payload, build_upload_payload, calculate_blob_name, plan_upload, stored_names,
    BatchOutcome, Blob, UploadRun, MAX_UPLOAD_ROUNDS,
};
use rust_win32::json::JsonValue;

fn blob(path: &str, content: &str) -> Blob {
    Blob { path: path.to_string(), content: content.to_string() }
}

#[test]
fn plan_splits_known_and_new_blobs_once_each() {
    let blobs = vec![blob("a.rs", "fn a() {}"), blob("b.rs", "fn b() {}"), blob("a.rs", "fn a() {}")];
    let known_name = calculate_blob_name("a.rs", "fn a() {}");
    let new_name = calculate_blob_name("b.rs", "fn b() {}");
    let plan = plan_upload(&blobs, &vec![known_name.clone(), "unrelated".to_string()]);
    assert_eq!(plan.existing_hashes, vec![known_name]);
    assert_eq!(plan.to_upload.len(), 1);
    assert_eq!(plan.to_upload[0].path, "b.rs");
    assert_eq!(calculate_blob_name(&plan.to_upload[0].path, &plan.to_upload[0].content), new_name);
}

#[test]
fn plan_with_empty_index_uploads_every_distinct_blob() {
    let blobs = vec![blob("x", "1"), blob("y", "2"), blob("x", "1")];
    let plan = plan_upload(&blobs, &vec![]);
    assert!(plan.existing_hashes.is_empty());
    let mut paths: Vec<String> = plan.to_upload.iter().map(|b| b.path.clone()).collect();
    paths.sort();
    assert_eq!(paths, vec!["x".to_string(), "y".to_string()]);
}

#[test]
fn upload_rounds_retry_failures_with_smaller_batches() {
    let pending: Vec<Blob> = (0..25).map(|i| blob(&format!("f{i}"), "c")).collect();
    let mut run = UploadRun::start(pending, 10);
    let first = run.next_round().expect("first round");
    assert_eq!(first, vec![(0, 10), (10, 20), (20, 25)]);
    assert_eq!(run.batch_size, 10);
    run.record(BatchOutcome::Stored(vec!["n1".to_string(), "n2".to_string()]));
    run.record(BatchOutcome::Failed(vec![blob("f10", "c"), blob("f11", "c")]));
    run.record(BatchOutcome::Lost);
    run.end_round();
    assert_eq!(run.round, 1);
    assert_eq!(run.pending.len(), 2);
    assert_eq!(run.uploaded, vec!["n1".to_string(), "n2".to_string()]);
    let second = run.next_round().expect("second round");
    assert_eq!(run.batch_size, 5);
    assert_eq!(second, vec![(0, 2)]);
    run.record(BatchOutcome::Stored(vec!["n3".to_string()]));
    run.end_round();
    assert!(run.pending.is_empty());
    assert!(run.next_round().is_none());
    assert_eq!(run.uploaded.len(), 3);
}

#[test]
fn upload_rounds_stop_after_the_limit_or_a_fatal_error() {
    let mut run = UploadRun::start(vec![blob("a", "1")], 10);
    for _ in 0..MAX_UPLOAD_ROUNDS {
        assert!(run.next_round().is_some());
        run.record(BatchOutcome::Failed(vec![blob("a", "1")]));
        run.end_round();
    }
    assert!(run.next_round().is_none());
    assert_eq!(run.pending.len(), 1);

    let mut run = UploadRun::start(vec![blob("a", "1")], 10);
    assert!(run.next_round().is_some());
    run.record(BatchOutcome::Fatal("denied".to_string()));
    run.end_round();
    assert!(run.next_round().is_none());
    assert_eq!(run.fatal, Some("denied".to_string()));
}

#[test]
fn upload_payload_lists_the_batch() {
    let p = build_upload_payload(&vec![blob("a.rs", "x"), blob("b.rs", "y")]);
    let items = p.get("blobs").and_then(|v| v.as_array()).expect("blobs");
    assert_eq!(items.len(), 2);
    assert_eq!(items[1].get("path").and_then(|v| v.as_str()), Some("b.rs"));
    assert_eq!(items[1].get("content").and_then(|v| v.as_str()), Some("y"));
}

#[test]
fn stored_names_keep_only_strings() {
    let reply = JsonValue::Object(vec![(
        "blob_names".to_string(),
        JsonValue::Array(vec![
            JsonValue::Str("h1".to_string()),
            JsonValue::Number("3".to_string()),
            JsonValue::Str("h2".to_string()),
        ]),
    )]);
    assert_eq!(stored_names(&reply), vec!["h1".to_string(), "h2".to_string()]);
    assert!(stored_names(&JsonValue::Object(vec![])).is_empty());
}

#[test]
fn retrieval_payload_carries_query_and_blobs() {
    let p = build_retrieval_payload("find auth", &vec!["n1".to_string()]);
    assert_eq!(p.get("information_request").and_then(|v| v.as_str()), Some("find auth"));
    let added = p.get("blobs").and_then(|b| b.get("added_blobs")).and_then(|v| v.as_array()).expect("added");
    assert_eq!(added.len(), 1);
    assert_eq!(added[0].as_str(), Some("n1"));
    assert!(matches!(p.get("max_output_length"), Some(JsonValue::Number(n)) if n == "0"));
    assert!(matches!(p.get("disable_codebase_retrieval"), Some(JsonValue::Bool(false))));
    assert!(matches!(p.get("enable_commit_retrieval"), Some(JsonValue::Bool(false))));
    assert_eq!(p.get("dialog").and_then(|v| v.as_array()).map(|a| a.len()), Some(0));
}
