use rust_win32::hashing::sha256_hex;
use rust_win32::index::local_search::{build_token_freq, normalize_search_text};
use rust_win32::index::local_store::LocalChunkRecord;
use rust_win32::index::matching::query_match_facts;
use rust_win32::index::merging::{merge_adjacent_candidates, merge_string_vec, CandidateRecord};
use rust_win32::index::query_terms::build_query_terms;

fn strs(v: &[&str]) -> Vec<String> {
    v.iter().map(|s| s.to_string()).collect()
}

fn cand(id: &str, path: &str, start: usize, end: usize, content: &str, syms: &[&str]) -> CandidateRecord {
    CandidateRecord {
        chunk: LocalChunkRecord {
            id: id.to_string(),
            path: path.to_string(),
            file_name: path.to_string(),
            start_line: start,
            end_line: end,
            content_hash: format!("h{id}"),
            content: content.to_string(),
            normalized_text: content.to_string(),
            token_count: 3,
            symbol_tokens: strs(syms),
        },
        matched_terms: strs(&["t"]),
        matched_phrases: Vec::new(),
        reason_labels: strs(&["正文命中"]),
    }
}

#[test]
fn merge_string_vec_adds_missing_items_sorted() {
    assert_eq!(
        merge_string_vec(&strs(&["x", "a"]), &strs(&["b", "x", "b"])),
        strs(&["a", "b", "x"])
    );
    assert_eq!(merge_string_vec(&Vec::new(), &Vec::new()), Vec::<String>::new());
}

#[test]
fn neighbouring_chunks_of_one_file_are_merged() {
    let cands = vec![
        cand("c0", "a.rs", 20, 40, "  second\n", &["b", "x"]),
        cand("c1", "b.rs", 1, 5, "other", &["o"]),
        cand("c2", "a.rs", 1, 10, "first  \n", &["x", "a"]),
        cand("c3", "a.rs", 100, 110, "far", &["f"]),
    ];
    let merged = merge_adjacent_candidates(&cands);
    assert_eq!(merged.len(), 3);
    let first = &merged[0];
    assert_eq!(first.members, vec![2, 0]);
    let k = &first.candidate.chunk;
    assert_eq!((k.start_line, k.end_line), (1, 40));
    assert_eq!(k.content, "first\n...\nsecond\n");
    assert_eq!(k.content_hash, sha256_hex("hc2:hc0"));
    assert_eq!(k.id, sha256_hex("c2:c0:40"));
    assert_eq!(k.token_count, 6);
    assert_eq!(k.symbol_tokens, strs(&["a", "b", "x"]));
    assert_eq!(first.candidate.matched_terms, strs(&["t"]));
    assert_eq!(merged[1].members, vec![3]);
    assert_eq!(merged[2].members, vec![1]);
    assert_eq!(merged[2].candidate.chunk.path, "b.rs");
}

#[test]
fn merge_keeps_far_apart_chunks_separate() {
    let cands = vec![
        cand("a", "src/index/local_search.rs", 1, 10, "x", &[]),
        cand("b", "src/index/local_search.rs", 80, 90, "y", &[]),
        cand("c", "src/index/local_search.rs", 160, 170, "z", &[]),
        cand("d", "src/main.rs", 20, 30, "w", &[]),
    ];
    let merged = merge_adjacent_candidates(&cands);
    let members: Vec<Vec<usize>> = merged.iter().map(|m| m.members.clone()).collect();
    assert_eq!(members, vec![vec![0], vec![1], vec![2], vec![3]]);
}

#[test]
fn match_facts_report_hits_and_reasons() {
    let terms = build_query_terms("search context");
    let normalized = normalize_search_text("src/search.rs search.rs fn run() { let context = 1; }");
    let freq = build_token_freq(&normalized);
    let facts = query_match_facts(&terms, "src/search.rs", "search.rs", &normalized, &freq, &strs(&["run"]));
    assert_eq!(facts.term_hits.len(), 2);
    assert_eq!(facts.term_hits[0].tf, 2);
    assert!(facts.term_hits[0].in_file_name && facts.term_hits[0].in_path);
    assert!(!facts.term_hits[0].in_symbols);
    assert_eq!(facts.term_hits[1].tf, 1);
    assert!(!facts.term_hits[1].in_path);
    assert_eq!(facts.phrase_hits, vec![false]);
    assert_eq!(facts.matched_terms, strs(&["context", "search"]));
    assert!(facts.matched_phrases.is_empty());
    assert_eq!(facts.reason_labels, strs(&["文件名命中", "正文命中", "路径命中"]));
    let sym = query_match_facts(&build_query_terms("run"), "a", "a", "", &build_token_freq(""), &strs(&["run"]));
    assert!(sym.term_hits[0].in_symbols);
    assert_eq!(sym.reason_labels, strs(&["符号命中"]));
}
