use rust_win32::hashing::sha256_hex;
use rust_win32::index::candidates::{apply_rerank_order, build_candidate_signature};
use rust_win32::index::local_search::CandidateView;

fn candidate(path: &str, start: usize, end: usize, hash: &str) -> CandidateView {
    CandidateView {
        id: path.to_string(),
        path: path.to_string(),
        start_line: start,
        end_line: end,
        content_hash: hash.to_string(),
        content: String::new(),
        matched_terms: Vec::new(),
        matched_phrases: Vec::new(),
        reason_labels: Vec::new(),
    }
}

/// Position of each candidate in descending score order (ties keep their order).
fn score_ranks(scores: &[f32]) -> Vec<usize> {
    let mut order: Vec<usize> = (0..scores.len()).collect();
    order.sort_by(|a, b| scores[*b].partial_cmp(&scores[*a]).unwrap());
    let mut ranks = vec![0; scores.len()];
    for (rank, idx) in order.into_iter().enumerate() {
        ranks[idx] = rank;
    }
    ranks
}

fn strs(v: &[&str]) -> Vec<String> {
    v.iter().map(|s| s.to_string()).collect()
}

#[test]
fn apply_rerank_order_reorders_and_preserves_remaining_score_order() {
    let ids = strs(&["src/a.rs", "src/b.rs", "src/c.rs"]);
    let ranks = score_ranks(&[9.0, 7.0, 8.0]);
    let order = apply_rerank_order(&ids, &ranks, &strs(&["src/b.rs", "src/a.rs"]));
    let ordered_paths: Vec<&str> = order.iter().map(|i| ids[*i].as_str()).collect();
    assert_eq!(ordered_paths, vec!["src/b.rs", "src/a.rs", "src/c.rs"]);
}

#[test]
fn apply_rerank_order_ignores_unknown_and_repeated_ids() {
    let ids = strs(&["a", "b", "c", "d"]);
    let ranks = vec![3, 2, 1, 0];
    let order = apply_rerank_order(&ids, &ranks, &strs(&["x", "c", "c", "a"]));
    assert_eq!(order, vec![2, 0, 3, 1]);
}

#[test]
fn apply_rerank_order_keeps_last_of_duplicate_ids() {
    let ids = strs(&["a", "a", "b"]);
    let ranks = vec![0, 1, 2];
    assert_eq!(apply_rerank_order(&ids, &ranks, &strs(&["a"])), vec![1, 2]);
    assert_eq!(apply_rerank_order(&ids, &[0, 0, 0].to_vec(), &Vec::new()), vec![2, 1]);
}

#[test]
fn candidate_signature_hashes_ids_hashes_and_lines() {
    let cands = vec![candidate("a", 1, 10, "h1"), candidate("b", 20, 30, "h2")];
    assert_eq!(build_candidate_signature(&cands), sha256_hex("ah1110bh22030"));
    assert_eq!(build_candidate_signature(&Vec::new()), sha256_hex(""));
    assert_ne!(
        build_candidate_signature(&cands),
        build_candidate_signature(&vec![candidate("a", 1, 11, "h1"), candidate("b", 20, 30, "h2")])
    );
}
