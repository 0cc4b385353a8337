//! Symbol tokens of an indexed file: the words of its file stem and of the identifiers that
//! its declarations introduce.
use vstd::prelude::*;

use crate::index::local_search::spec_tokenize;
use crate::index::query_terms::{long_tokens, spec_long_tokens, spec_utf8_len};
use crate::text::{
    insert_sorted_unique, is_ascii_alnum, lines, lit, push_lit, slice_chars, spec_is_ascii_alnum,
    spec_lines, spec_starts_with, spec_strictly_sorted, spec_trim_start, starts_with,
    string_from_chars, string_views, to_chars, to_strings, trim_start, views,
};

verus! {

/// A character of an identifier: an ASCII letter or digit, or `_`.
pub open spec fn spec_ident_char(c: char) -> bool {
    spec_is_ascii_alnum(c) || c == '_'
}

/// Index of the first character from `i` on that is not an identifier character.
pub open spec fn spec_ident_end(s: Seq<char>, i: int) -> int
    decreases s.len() - i,
{
    if i < 0 || i >= s.len() {
        s.len() as int
    } else if spec_ident_char(s[i]) {
        spec_ident_end(s, i + 1)
    } else {
        i
    }
}

/// The longest prefix of `s` made of identifier characters.
pub open spec fn spec_take_identifier(s: Seq<char>) -> Seq<char> {
    s.take(spec_ident_end(s, 0))
}

proof fn lemma_ident_end(s: Seq<char>, k: int, i: int)
    requires
        0 <= k <= i <= s.len(),
        forall|j: int| k <= j < i ==> spec_ident_char(#[trigger] s[j]),
        i == s.len() || !spec_ident_char(s[i]),
    ensures
        spec_ident_end(s, k) == i,
    decreases i - k,
{
    if k < i {
        lemma_ident_end(s, k + 1, i);
    }
}

fn take_identifier_chars(s: &Vec<char>) -> (r: Vec<char>)
    ensures
        r@ == spec_take_identifier(s@),
{
    let mut i: usize = 0;
    while i < s.len() && (is_ascii_alnum(s[i]) || s[i] == '_')
        invariant
            i <= s.len(),
            forall|j: int| 0 <= j < i ==> spec_ident_char(#[trigger] s@[j]),
        decreases s.len() - i,
    {
        i += 1;
    }
    proof {
        lemma_ident_end(s@, 0, i as int);
    }
    slice_chars(s, 0, i)
}

/// The identifier at the start of `text`: its longest prefix of ASCII letters, digits and
/// underscores.
pub fn take_identifier(text: &str) -> (r: String)
    ensures
        r@ == spec_take_identifier(text@),
{
    let c = to_chars(text);
    let id = take_identifier_chars(&c);
    string_from_chars(id.as_slice())
}

/// The declaration keywords after which an identifier is taken as a symbol.
pub open spec fn spec_symbol_prefixes() -> Seq<Seq<char>> {
    seq![
        "pub fn "@,
        "fn "@,
        "pub struct "@,
        "struct "@,
        "pub enum "@,
        "enum "@,
        "pub trait "@,
        "trait "@,
        "impl "@,
        "class "@,
        "interface "@,
        "type "@,
        "export function "@,
        "function "@,
        "const "@,
        "let "@,
    ]
}

/// `x` is a symbol token that `line` gives through `prefix`: the line, its leading white space
/// removed, starts with `prefix`; the identifier after it has at least two bytes; and `x` is
/// one of the identifier's tokens of at least two bytes.
pub open spec fn spec_line_symbol(line: Seq<char>, prefix: Seq<char>, x: Seq<char>) -> bool {
    let t = spec_trim_start(line);
    let id = spec_take_identifier(t.skip(prefix.len() as int));
    spec_starts_with(t, prefix) && spec_utf8_len(id) >= 2 && spec_long_tokens(spec_tokenize(id)).contains(x)
}

/// `x` is a symbol token of a file with stem `stem` and text `content`: a token of the stem of
/// at least two bytes, or one that a line gives through one of the declaration keywords.
pub open spec fn spec_is_symbol_token(stem: Seq<char>, content: Seq<char>, x: Seq<char>) -> bool {
    spec_long_tokens(spec_tokenize(stem)).contains(x) || exists|li: int, pi: int|
        #![trigger spec_line_symbol(spec_lines(content)[li], spec_symbol_prefixes()[pi], x)]
        0 <= li < spec_lines(content).len() && 0 <= pi < spec_symbol_prefixes().len()
            && spec_line_symbol(spec_lines(content)[li], spec_symbol_prefixes()[pi], x)
}

/// `r` lists the symbol tokens of the stem `stem` and the text `content`, sorted, each once.
pub open spec fn spec_symbols_of(stem: Seq<char>, content: Seq<char>, r: Seq<Seq<char>>) -> bool {
    spec_strictly_sorted(r) && forall|x: Seq<char>| #[trigger]
        r.contains(x) <==> spec_is_symbol_token(stem, content, x)
}

fn insert_all(set: &mut Vec<Vec<char>>, toks: &Vec<Vec<char>>)
    requires
        spec_strictly_sorted(views(old(set)@)),
    ensures
        spec_strictly_sorted(views(final(set)@)),
        forall|x: Seq<char>| #[trigger]
            views(final(set)@).contains(x) <==> (views(old(set)@).contains(x) || views(
                toks@,
            ).contains(x)),
{
    let ghost start = views(set@);
    let mut i: usize = 0;
    while i < toks.len()
        invariant
            i <= toks.len(),
            start == views(old(set)@),
            spec_strictly_sorted(views(set@)),
            forall|x: Seq<char>| #[trigger]
                views(set@).contains(x) <==> (start.contains(x) || views(toks@).take(
                    i as int,
                ).contains(x)),
        decreases toks.len() - i,
    {
        let ghost pre = views(set@);
        insert_sorted_unique(set, crate::text::copy_chars(&toks[i]));
        proof {
            let t = views(toks@);
            assert(t.take(i + 1) =~= t.take(i as int).push(t[i as int]));
            assert forall|x: Seq<char>| #[trigger] views(set@).contains(x) <==> (start.contains(x)
                || t.take(i + 1).contains(x)) by {
                assert(views(set@).contains(x) <==> (pre.contains(x) || x == toks@[i as int]@));
                assert(pre.contains(x) <==> (start.contains(x) || t.take(i as int).contains(x)));
                assert(t[i as int] == toks@[i as int]@);
                if x == t[i as int] {
                    assert(t.take(i + 1)[i as int] == x);
                }
                if t.take(i + 1).contains(x) {
                    let k = choose|k: int| 0 <= k < t.take(i + 1).len() && #[trigger] t.take(i + 1)[k] == x;
                    if k < i {
                        assert(t.take(i as int)[k] == x);
                    }
                }
                if t.take(i as int).contains(x) {
                    let k = choose|k: int| 0 <= k < t.take(i as int).len() && #[trigger] t.take(i as int)[k] == x;
                    assert(t.take(i + 1)[k] == x);
                }
            }
        }
        i += 1;
    }
    proof {
        assert(views(toks@).take(toks.len() as int) =~= views(toks@));
    }
}

fn symbol_prefixes() -> (r: Vec<Vec<char>>)
    ensures
        views(r@) == spec_symbol_prefixes(),
{
    let mut r: Vec<Vec<char>> = Vec::new();
    proof {
        assert(views(r@) =~= Seq::<Seq<char>>::empty());
    }
    push_lit(&mut r, "pub fn ");
    push_lit(&mut r, "fn ");
    push_lit(&mut r, "pub struct ");
    push_lit(&mut r, "struct ");
    push_lit(&mut r, "pub enum ");
    push_lit(&mut r, "enum ");
    push_lit(&mut r, "pub trait ");
    push_lit(&mut r, "trait ");
    push_lit(&mut r, "impl ");
    push_lit(&mut r, "class ");
    push_lit(&mut r, "interface ");
    push_lit(&mut r, "type ");
    push_lit(&mut r, "export function ");
    push_lit(&mut r, "function ");
    push_lit(&mut r, "const ");
    push_lit(&mut r, "let ");
    proof {
        assert(views(r@) =~= spec_symbol_prefixes());
    }
    r
}

fn line_symbols(set: &mut Vec<Vec<char>>, line: &Vec<char>, prefixes: &Vec<Vec<char>>)
    requires
        spec_strictly_sorted(views(old(set)@)),
    ensures
        spec_strictly_sorted(views(final(set)@)),
        forall|x: Seq<char>| #[trigger]
            views(final(set)@).contains(x) <==> (views(old(set)@).contains(x) || exists|pi: int|
                0 <= pi < prefixes.len() && #[trigger] spec_line_symbol(
                    line@,
                    views(prefixes@)[pi],
                    x,
                )),
{
    let ghost start = views(set@);
    let ghost pv = views(prefixes@);
    let t = trim_start(line);
    let mut i: usize = 0;
    while i < prefixes.len()
        invariant
            i <= prefixes.len(),
            start == views(old(set)@),
            pv == views(prefixes@),
            t@ == spec_trim_start(line@),
            spec_strictly_sorted(views(set@)),
            forall|x: Seq<char>| #[trigger]
                views(set@).contains(x) <==> (start.contains(x) || exists|pi: int|
                    0 <= pi < i && #[trigger] spec_line_symbol(line@, pv[pi], x)),
        decreases prefixes.len() - i,
    {
        let ghost pre = views(set@);
        let p = &prefixes[i];
        proof {
            assert(pv[i as int] == p@);
        }
        if starts_with(&t, p) {
            let rest = slice_chars(&t, p.len(), t.len());
            let id = take_identifier_chars(&rest);
            let id_s = string_from_chars(id.as_slice());
            proof {
                assert(rest@ =~= t@.skip(p@.len() as int));
            }
            if id_s.as_str().as_bytes().len() >= 2 {
                let toks = long_tokens(id_s.as_str());
                insert_all(set, &toks);
                proof {
                    assert forall|x: Seq<char>| #[trigger] views(set@).contains(x) <==> (
                    start.contains(x) || exists|pi: int|
                        0 <= pi < i + 1 && #[trigger] spec_line_symbol(line@, pv[pi], x)) by {
                        if views(toks@).contains(x) {
                            assert(spec_line_symbol(line@, pv[i as int], x));
                        }
                        if exists|pi: int| 0 <= pi < i + 1 && #[trigger] spec_line_symbol(line@, pv[pi], x) {
                            let pi = choose|pi: int| 0 <= pi < i + 1 && #[trigger] spec_line_symbol(line@, pv[pi], x);
                            if pi == i {
                                assert(views(toks@).contains(x));
                            }
                        }
                    }
                }
            } else {
                proof {
                    assert forall|x: Seq<char>| #[trigger] views(set@).contains(x) <==> (
                    start.contains(x) || exists|pi: int|
                        0 <= pi < i + 1 && #[trigger] spec_line_symbol(line@, pv[pi], x)) by {
                        if exists|pi: int| 0 <= pi < i + 1 && #[trigger] spec_line_symbol(line@, pv[pi], x) {
                            let pi = choose|pi: int| 0 <= pi < i + 1 && #[trigger] spec_line_symbol(line@, pv[pi], x);
                            assert(pi != i);
                        }
                    }
                }
            }
        } else {
            proof {
                assert forall|x: Seq<char>| #[trigger] views(set@).contains(x) <==> (start.contains(
                    x,
                ) || exists|pi: int| 0 <= pi < i + 1 && #[trigger] spec_line_symbol(line@, pv[pi], x)) by {
                    if exists|pi: int| 0 <= pi < i + 1 && #[trigger] spec_line_symbol(line@, pv[pi], x) {
                        let pi = choose|pi: int| 0 <= pi < i + 1 && #[trigger] spec_line_symbol(line@, pv[pi], x);
                        assert(pi != i);
                    }
                }
            }
        }
        i += 1;
    }
}

/// The symbol tokens of a file whose stem is `file_stem` and whose text is `content`, sorted,
/// each once (see `spec_is_symbol_token`).
pub fn symbol_tokens(file_stem: &str, content: &str) -> (r: Vec<String>)
    ensures
        spec_symbols_of(file_stem@, content@, string_views(r@)),
{
    let mut set: Vec<Vec<char>> = Vec::new();
    proof {
        assert(views(set@) =~= Seq::<Seq<char>>::empty());
    }
    let stem_toks = long_tokens(file_stem);
    insert_all(&mut set, &stem_toks);
    let prefixes = symbol_prefixes();
    let c = to_chars(content);
    let ls = lines(&c);
    let ghost lv = views(ls@);
    let ghost sv = views(stem_toks@);
    let mut li: usize = 0;
    while li < ls.len()
        invariant
            li <= ls.len(),
            lv == views(ls@),
            lv == spec_lines(content@),
            views(prefixes@) == spec_symbol_prefixes(),
            sv == spec_long_tokens(spec_tokenize(file_stem@)),
            spec_strictly_sorted(views(set@)),
            forall|x: Seq<char>| #[trigger]
                views(set@).contains(x) <==> (sv.contains(x) || exists|k: int, pi: int|
                    #![trigger spec_line_symbol(lv[k], spec_symbol_prefixes()[pi], x)]
                    0 <= k < li && 0 <= pi < spec_symbol_prefixes().len() && spec_line_symbol(
                        lv[k],
                        spec_symbol_prefixes()[pi],
                        x,
                    )),
        decreases ls.len() - li,
    {
        let ghost pre = views(set@);
        line_symbols(&mut set, &ls[li], &prefixes);
        proof {
            assert(lv[li as int] == ls@[li as int]@);
            assert forall|x: Seq<char>| #[trigger] views(set@).contains(x) <==> (sv.contains(x)
                || exists|k: int, pi: int|
                #![trigger spec_line_symbol(lv[k], spec_symbol_prefixes()[pi], x)]
                0 <= k < li + 1 && 0 <= pi < spec_symbol_prefixes().len() && spec_line_symbol(
                    lv[k],
                    spec_symbol_prefixes()[pi],
                    x,
                )) by {
                if exists|pi: int|
                    0 <= pi < prefixes.len() && #[trigger] spec_line_symbol(
                        ls@[li as int]@,
                        views(prefixes@)[pi],
                        x,
                    ) {
                    let pi = choose|pi: int|
                        0 <= pi < prefixes.len() && #[trigger] spec_line_symbol(
                            ls@[li as int]@,
                            views(prefixes@)[pi],
                            x,
                        );
                    assert(spec_line_symbol(lv[li as int], spec_symbol_prefixes()[pi], x));
                }
                if exists|k: int, pi: int|
                    #![trigger spec_line_symbol(lv[k], spec_symbol_prefixes()[pi], x)]
                    0 <= k < li + 1 && 0 <= pi < spec_symbol_prefixes().len() && spec_line_symbol(
                        lv[k],
                        spec_symbol_prefixes()[pi],
                        x,
                    ) {
                    let (k, pi) = choose|k: int, pi: int|
                        #![trigger spec_line_symbol(lv[k], spec_symbol_prefixes()[pi], x)]
                        0 <= k < li + 1 && 0 <= pi < spec_symbol_prefixes().len()
                            && spec_line_symbol(lv[k], spec_symbol_prefixes()[pi], x);
                    if k == li {
                        assert(spec_line_symbol(ls@[li as int]@, views(prefixes@)[pi], x));
                    } else {
                        assert(pre.contains(x));
                    }
                }
            }
        }
        li += 1;
    }
    let r = to_strings(&set);
    proof {
        assert forall|x: Seq<char>| #[trigger] string_views(r@).contains(x) <==> spec_is_symbol_token(
            file_stem@,
            content@,
            x,
        ) by {
            if spec_is_symbol_token(file_stem@, content@, x) && !sv.contains(x) {
                let (k, pi) = choose|k: int, pi: int|
                    #![trigger spec_line_symbol(spec_lines(content@)[k], spec_symbol_prefixes()[pi], x)]
                    0 <= k < spec_lines(content@).len() && 0 <= pi < spec_symbol_prefixes().len()
                        && spec_line_symbol(spec_lines(content@)[k], spec_symbol_prefixes()[pi], x);
                assert(spec_line_symbol(lv[k], spec_symbol_prefixes()[pi], x));
            }
            if views(set@).contains(x) && !sv.contains(x) {
                let (k, pi) = choose|k: int, pi: int|
                    #![trigger spec_line_symbol(lv[k], spec_symbol_prefixes()[pi], x)]
                    0 <= k < ls.len() && 0 <= pi < spec_symbol_prefixes().len() && spec_line_symbol(
                        lv[k],
                        spec_symbol_prefixes()[pi],
                        x,
                    );
                assert(spec_line_symbol(spec_lines(content@)[k], spec_symbol_prefixes()[pi], x));
            }
        }
    }
    r
}

/// What `Path::file_name` gives for `path` (its final component, when the path has one and
/// it is valid Unicode), under the path syntax of the target the program is built for.
pub uninterp spec fn path_file_name_of(path: Seq<char>) -> Option<Seq<char>>;

/// What `Path::file_stem` gives for `name` (the file name without its last extension, when
/// there is a file name and it is valid Unicode), under the target's path syntax.
pub uninterp spec fn path_file_stem_of(name: Seq<char>) -> Option<Seq<char>>;

/// `Path::file_name` of `path`, as a string when it is valid Unicode. The contract only names
/// the result (`path_file_name_of`); which component it is follows the target's path syntax
/// and is not stated.
#[verifier::external_body]
fn path_file_name(path: &str) -> (r: Option<String>)
    ensures
        match r {
            Some(n) => path_file_name_of(path@) == Some(n@),
            None => path_file_name_of(path@) is None,
        },
{
    std::path::Path::new(path).file_name().and_then(|s| s.to_str()).map(|s| s.to_string())
}

/// `Path::file_stem` of `name`, as a string when it is valid Unicode. The contract only names
/// the result (`path_file_stem_of`); how it is cut follows the target's path syntax and is not
/// stated.
#[verifier::external_body]
fn path_file_stem(name: &str) -> (r: Option<String>)
    ensures
        match r {
            Some(t) => path_file_stem_of(name@) == Some(t@),
            None => path_file_stem_of(name@) is None,
        },
{
    std::path::Path::new(name).file_stem().and_then(|s| s.to_str()).map(|s| s.to_string())
}

/// The stem of the file at `path`: the stem of its file name (the path itself where it has no
/// file name), or that name where it has no stem.
pub open spec fn spec_file_stem(path: Seq<char>) -> Seq<char> {
    let name = match path_file_name_of(path) {
        Some(n) => n,
        None => path,
    };
    match path_file_stem_of(name) {
        Some(s) => s,
        None => name,
    }
}

/// The stem of the file at `path`: its file name without the extension, as the platform's
/// path rules give them; the file name, or the path itself, where there is none.
pub fn file_stem_of(path: &str) -> (r: String)
    ensures
        r@ == spec_file_stem(path@),
{
    let file_name = match path_file_name(path) {
        Some(n) => n,
        None => path.to_string(),
    };
    match path_file_stem(file_name.as_str()) {
        Some(s) => s,
        None => file_name,
    }
}

/// The symbol tokens of the file at `path` with text `content`: those of its file stem (see
/// `file_stem_of`) and of its declarations.
pub fn extract_symbol_tokens(path: &str, content: &str) -> (r: Vec<String>)
    ensures
        spec_symbols_of(spec_file_stem(path@), content@, string_views(r@)),
{
    let file_stem = file_stem_of(path);
    let r = symbol_tokens(file_stem.as_str(), content);
    proof {
        assert(spec_symbols_of(file_stem@, content@, string_views(r@)));
    }
    r
}

} // verus!
