use rust_win32::index::symbols::{extract_symbol_tokens, file_stem_of, symbol_tokens, take_identifier};

fn strs(v: &[&str]) -> Vec<String> {
    v.iter().map(|s| s.to_string()).collect()
}

#[test]
fn take_identifier_stops_at_first_non_identifier_char() {
    assert_eq!(take_identifier("abc_1-x"), "abc_1");
    assert_eq!(take_identifier("(x)"), "");
    assert_eq!(take_identifier("Name"), "Name");
}

#[test]
fn symbol_tokens_collects_stem_and_declarations() {
    let content = "pub fn search_context() {}\n  struct LocalChunkRecord {\nlet x = 1;";
    assert_eq!(
        symbol_tokens("local_search", content),
        strs(&["chunk", "context", "local", "record", "search"])
    );
}

#[test]
fn extract_symbol_tokens_uses_file_stem() {
    let content = "pub fn search_context() {}\n  struct LocalChunkRecord {\nlet x = 1;";
    assert_eq!(
        extract_symbol_tokens("src/index/local_search.rs", content),
        strs(&["chunk", "context", "local", "record", "search"])
    );
    assert_eq!(
        extract_symbol_tokens("src/main.rs", "fn main() {}\nimpl Window {}"),
        strs(&["main", "window"])
    );
}

#[test]
fn file_stem_is_the_file_name_without_extension() {
    assert_eq!(file_stem_of("src/index/local_search.rs"), "local_search");
    assert_eq!(file_stem_of("docs/README"), "README");
    assert_eq!(file_stem_of("a/b/archive.tar.gz"), "archive.tar");
    assert_eq!(file_stem_of(".gitignore"), ".gitignore");
}
