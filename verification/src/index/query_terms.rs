//! Weighted query terms and phrases of the local keyword search.
//!
//! Weights are fixed-point numbers in ten-thousandths: `18000` stands for a weight of 1.8.
//! Every weight the search uses is a short decimal, so this representation is exact.
use vstd::prelude::*;

use crate::index::local_search::{
    collect_query_hints, looks_like_broad_query, spec_looks_like_broad_query, spec_query_hints,
    spec_tokenize, tokenize_search_text,
};
use crate::text::{
    chars_eq, contains_cjk, copy_chars, join, lit, spec_contains_cjk, spec_join, string_views,
    to_chars, to_strings, views,
};

verus! {

/// Number of bytes of the UTF-8 encoding of `s`, which is what `str::len` returns.
pub open spec fn spec_utf8_len(s: Seq<char>) -> int {
    vstd::utf8::encode_utf8(s).len() as int
}

fn utf8_len(s: &String) -> (n: usize)
    ensures
        n == spec_utf8_len(s@),
{
    s.as_str().as_bytes().len()
}

/// Weight of a query term: 1.8 with a CJK ideograph in it, else 1.6 from twelve bytes on,
/// 1.4 from eight bytes on, and 1.0 below.
pub open spec fn spec_term_weight(t: Seq<char>) -> int {
    if spec_contains_cjk(t) {
        18000
    } else if spec_utf8_len(t) >= 12 {
        16000
    } else if spec_utf8_len(t) >= 8 {
        14000
    } else {
        10000
    }
}

/// Weight of a term that a query hint added: 0.72 of its own weight, at least 0.65.
pub open spec fn spec_hint_weight(t: Seq<char>) -> int {
    let w = spec_term_weight(t) * 72 / 100;
    if w >= 6500 {
        w
    } else {
        6500
    }
}

/// The weight of a term (see `spec_term_weight`).
pub fn weight_for_term(term: &str) -> (w: u128)
    ensures
        w == spec_term_weight(term@),
        w <= 18000,
{
    let c = to_chars(term);
    let len = term.as_bytes().len();
    if contains_cjk(&c) {
        18000
    } else if len >= 12 {
        16000
    } else if len >= 8 {
        14000
    } else {
        10000
    }
}

/// The weight of a hint term (see `spec_hint_weight`).
pub fn hint_weight_for_term(term: &str) -> (w: u128)
    ensures
        w == spec_hint_weight(term@),
        w <= 12960,
{
    let w = weight_for_term(term) * 72 / 100;
    if w >= 6500 {
        w
    } else {
        6500
    }
}

/// A query term and its weight.
#[derive(Clone, Debug)]
pub struct WeightedTerm {
    pub term: String,
    /// In ten-thousandths.
    pub weight: u128,
}

/// A phrase of consecutive query terms and its weight.
#[derive(Clone, Debug)]
pub struct WeightedPhrase {
    pub phrase: String,
    /// In ten-thousandths.
    pub weight: u128,
}

/// The weighted terms and phrases a query is matched by.
#[derive(Clone, Debug)]
pub struct QueryTerms {
    pub weighted_terms: Vec<WeightedTerm>,
    pub phrases: Vec<WeightedPhrase>,
}

/// A query after analysis: its terms, whether it is broad, and the hints that widened it.
#[derive(Clone, Debug)]
pub struct PreparedQuery {
    pub terms: QueryTerms,
    pub broad_intent: bool,
    pub hint_terms: Vec<String>,
    pub hint_phrases: Vec<String>,
}

/// Text and weight of each term.
pub open spec fn spec_term_entries(v: Seq<WeightedTerm>) -> Seq<(Seq<char>, int)> {
    v.map_values(|t: WeightedTerm| (t.term@, t.weight as int))
}

/// Text and weight of each phrase.
pub open spec fn spec_phrase_entries(v: Seq<WeightedPhrase>) -> Seq<(Seq<char>, int)> {
    v.map_values(|p: WeightedPhrase| (p.phrase@, p.weight as int))
}

impl View for QueryTerms {
    type V = (Seq<(Seq<char>, int)>, Seq<(Seq<char>, int)>);

    open spec fn view(&self) -> Self::V {
        (spec_term_entries(self.weighted_terms@), spec_phrase_entries(self.phrases@))
    }
}

/// Whether some entry of `acc` has the text `k`.
pub open spec fn spec_has_key(acc: Seq<(Seq<char>, int)>, k: Seq<char>) -> bool {
    exists|i: int| 0 <= i < acc.len() && (#[trigger] acc[i]).0 == k
}

/// Appends `(k, w)` unless an entry with the text `k` is there already.
pub open spec fn spec_add_new(acc: Seq<(Seq<char>, int)>, k: Seq<char>, w: int) -> Seq<
    (Seq<char>, int),
> {
    if spec_has_key(acc, k) {
        acc
    } else {
        acc.push((k, w))
    }
}

/// The first `n` query terms, each once, in their order, with their weights.
pub open spec fn spec_add_ordered(terms: Seq<Seq<char>>, n: int) -> Seq<(Seq<char>, int)>
    decreases n,
{
    if n <= 0 {
        Seq::empty()
    } else {
        spec_add_new(spec_add_ordered(terms, n - 1), terms[n - 1], spec_term_weight(terms[n - 1]))
    }
}

/// `acc` followed by the first `n` hint terms of at least two bytes that are new, with their
/// hint weights.
pub open spec fn spec_add_hints(acc: Seq<(Seq<char>, int)>, hints: Seq<Seq<char>>, n: int) -> Seq<
    (Seq<char>, int),
>
    decreases n,
{
    if n <= 0 {
        acc
    } else {
        let a = spec_add_hints(acc, hints, n - 1);
        if spec_utf8_len(hints[n - 1]) < 2 {
            a
        } else {
            spec_add_new(a, hints[n - 1], spec_hint_weight(hints[n - 1]))
        }
    }
}

/// Sum of the weights of `ts`.
pub open spec fn spec_weight_sum(ts: Seq<Seq<char>>) -> int
    decreases ts.len(),
{
    if ts.len() == 0 {
        0
    } else {
        spec_weight_sum(ts.drop_last()) + spec_term_weight(ts.last())
    }
}

/// Sum of the hint weights of `ts`.
pub open spec fn spec_hint_weight_sum(ts: Seq<Seq<char>>) -> int
    decreases ts.len(),
{
    if ts.len() == 0 {
        0
    } else {
        spec_hint_weight_sum(ts.drop_last()) + spec_hint_weight(ts.last())
    }
}

/// How many windows of `size` consecutive terms `len` terms have.
pub open spec fn spec_window_count(len: int, size: int) -> int {
    if len >= size {
        len - size + 1
    } else {
        0
    }
}

/// Weight of a phrase of `size` terms whose weights sum to `base`: 1.2 times for two terms,
/// 1.5 times for three.
pub open spec fn spec_phrase_weight(size: int, base: int) -> int {
    if size == 2 {
        base * 12 / 10
    } else {
        base * 15 / 10
    }
}

/// `acc` followed by the first `n` windows of `size` terms, joined by spaces, that are new.
pub open spec fn spec_add_windows(
    acc: Seq<(Seq<char>, int)>,
    terms: Seq<Seq<char>>,
    size: int,
    n: int,
) -> Seq<(Seq<char>, int)>
    decreases n,
{
    if n <= 0 {
        acc
    } else {
        let a = spec_add_windows(acc, terms, size, n - 1);
        let w = terms.subrange(n - 1, n - 1 + size);
        spec_add_new(a, spec_join(w, " "@), spec_phrase_weight(size, spec_weight_sum(w)))
    }
}

/// The terms of `ts` that have at least two bytes, in order (the tokens the search keeps).
pub open spec fn spec_long_tokens(ts: Seq<Seq<char>>) -> Seq<Seq<char>>
    decreases ts.len(),
{
    if ts.len() == 0 {
        Seq::empty()
    } else {
        let r = spec_long_tokens(ts.drop_last());
        if spec_utf8_len(ts.last()) >= 2 {
            r.push(ts.last())
        } else {
            r
        }
    }
}

/// `acc` followed by the first `n` hint phrases that have at least two kept tokens: the
/// tokens joined by spaces, weighted 0.9 times their hint weights, when new.
pub open spec fn spec_add_hint_phrases(
    acc: Seq<(Seq<char>, int)>,
    phrases: Seq<Seq<char>>,
    n: int,
) -> Seq<(Seq<char>, int)>
    decreases n,
{
    if n <= 0 {
        acc
    } else {
        let a = spec_add_hint_phrases(acc, phrases, n - 1);
        let toks = spec_long_tokens(spec_tokenize(phrases[n - 1]));
        if toks.len() < 2 {
            a
        } else {
            spec_add_new(a, spec_join(toks, " "@), spec_hint_weight_sum(toks) * 9 / 10)
        }
    }
}

/// The weighted terms and phrases of a query: its terms then the new hint terms; the
/// windows of two and of three terms then the hint phrases.
pub open spec fn spec_query_terms(
    ordered: Seq<Seq<char>>,
    hints: Seq<Seq<char>>,
    hint_phrases: Seq<Seq<char>>,
) -> (Seq<(Seq<char>, int)>, Seq<(Seq<char>, int)>) {
    let terms = spec_add_hints(spec_add_ordered(ordered, ordered.len() as int), hints, hints.len() as int);
    let p2 = spec_add_windows(Seq::empty(), ordered, 2, spec_window_count(ordered.len() as int, 2));
    let p3 = spec_add_windows(p2, ordered, 3, spec_window_count(ordered.len() as int, 3));
    (terms, spec_add_hint_phrases(p3, hint_phrases, hint_phrases.len() as int))
}

pub open spec fn spec_entries(v: Seq<(Vec<char>, u128)>) -> Seq<(Seq<char>, int)> {
    v.map_values(|p: (Vec<char>, u128)| (p.0@, p.1 as int))
}

fn has_key(acc: &Vec<(Vec<char>, u128)>, k: &Vec<char>) -> (b: bool)
    ensures
        b == spec_has_key(spec_entries(acc@), k@),
{
    let mut i: usize = 0;
    while i < acc.len()
        invariant
            i <= acc.len(),
            forall|j: int| 0 <= j < i ==> (#[trigger] spec_entries(acc@)[j]).0 != k@,
        decreases acc.len() - i,
    {
        if chars_eq(&acc[i].0, k) {
            proof {
                assert(spec_entries(acc@)[i as int].0 == k@);
            }
            return true;
        }
        i += 1;
    }
    proof {
        if spec_has_key(spec_entries(acc@), k@) {
            let j = choose|j: int|
                0 <= j < spec_entries(acc@).len() && (#[trigger] spec_entries(acc@)[j]).0 == k@;
            assert(spec_entries(acc@)[j].0 != k@);
        }
    }
    false
}

fn add_new(acc: &mut Vec<(Vec<char>, u128)>, k: Vec<char>, w: u128)
    ensures
        spec_entries(final(acc)@) == spec_add_new(spec_entries(old(acc)@), k@, w as int),
{
    if !has_key(acc, &k) {
        let ghost kv = k@;
        acc.push((k, w));
        proof {
            assert(spec_entries(acc@) =~= spec_entries(old(acc)@).push((kv, w as int)));
        }
    }
}

/// `acc` followed by the terms of `terms` that are new, with their weights.
fn add_ordered(terms: &Vec<Vec<char>>) -> (acc: Vec<(Vec<char>, u128)>)
    ensures
        spec_entries(acc@) == spec_add_ordered(views(terms@), terms.len() as int),
{
    let mut acc: Vec<(Vec<char>, u128)> = Vec::new();
    proof {
        assert(spec_entries(acc@) =~= Seq::<(Seq<char>, int)>::empty());
    }
    let mut i: usize = 0;
    while i < terms.len()
        invariant
            i <= terms.len(),
            spec_entries(acc@) == spec_add_ordered(views(terms@), i as int),
        decreases terms.len() - i,
    {
        let s = string_from(&terms[i]);
        let w = weight_for_term(s.as_str());
        add_new(&mut acc, copy_chars(&terms[i]), w);
        i += 1;
    }
    acc
}

fn string_from(c: &Vec<char>) -> (s: String)
    ensures
        s@ == c@,
{
    crate::text::string_from_chars(c.as_slice())
}

fn add_hints(acc: &mut Vec<(Vec<char>, u128)>, hints: &Vec<String>)
    ensures
        spec_entries(final(acc)@) == spec_add_hints(
            spec_entries(old(acc)@),
            string_views(hints@),
            hints.len() as int,
        ),
{
    let ghost start = spec_entries(acc@);
    let ghost hv = string_views(hints@);
    let mut i: usize = 0;
    while i < hints.len()
        invariant
            i <= hints.len(),
            start == spec_entries(old(acc)@),
            hv == string_views(hints@),
            spec_entries(acc@) == spec_add_hints(start, hv, i as int),
        decreases hints.len() - i,
    {
        if utf8_len(&hints[i]) >= 2 {
            let w = hint_weight_for_term(hints[i].as_str());
            add_new(acc, to_chars(hints[i].as_str()), w);
        }
        i += 1;
    }
}

fn add_windows(acc: &mut Vec<(Vec<char>, u128)>, terms: &Vec<Vec<char>>, size: usize)
    requires
        size == 2 || size == 3,
    ensures
        spec_entries(final(acc)@) == spec_add_windows(
            spec_entries(old(acc)@),
            views(terms@),
            size as int,
            spec_window_count(terms.len() as int, size as int),
        ),
{
    if terms.len() < size {
        return ;
    }
    let ghost start = spec_entries(acc@);
    let ghost tv = views(terms@);
    let count = terms.len() - size + 1;
    let sep = lit(" ");
    let mut i: usize = 0;
    while i < count
        invariant
            i <= count,
            count == terms.len() - size + 1,
            size == 2 || size == 3,
            size <= terms.len(),
            sep@ == " "@,
            start == spec_entries(old(acc)@),
            tv == views(terms@),
            spec_entries(acc@) == spec_add_windows(start, tv, size as int, i as int),
        decreases count - i,
    {
        let mut parts: Vec<Vec<char>> = Vec::new();
        let mut base: u128 = 0;
        let mut j: usize = 0;
        while j < size
            invariant
                j <= size,
                i < count,
                count == terms.len() - size + 1,
                size == 2 || size == 3,
                tv == views(terms@),
                views(parts@) == tv.subrange(i as int, i + j),
                base == spec_weight_sum(tv.subrange(i as int, i + j)),
                base <= 18000 * j,
            decreases size - j,
        {
            let s = string_from(&terms[i + j]);
            let w = weight_for_term(s.as_str());
            let ghost pre = views(parts@);
            parts.push(copy_chars(&terms[i + j]));
            proof {
                let nxt = tv.subrange(i as int, i + j + 1);
                assert(nxt.drop_last() =~= tv.subrange(i as int, i + j));
                assert(nxt.last() == tv[i + j]);
                assert(views(parts@) =~= nxt);
            }
            base = base + w;
            j += 1;
        }
        let phrase = join(&parts, &sep);
        let weight = if size == 2 {
            base * 12 / 10
        } else {
            base * 15 / 10
        };
        add_new(acc, phrase, weight);
        i += 1;
    }
}

/// The kept tokens (at least two bytes) of `text`.
pub fn long_tokens(text: &str) -> (r: Vec<Vec<char>>)
    ensures
        views(r@) == spec_long_tokens(spec_tokenize(text@)),
{
    let toks = tokenize_search_text(text);
    let ghost tv = string_views(toks@);
    let mut r: Vec<Vec<char>> = Vec::new();
    let mut i: usize = 0;
    while i < toks.len()
        invariant
            i <= toks.len(),
            tv == string_views(toks@),
            tv == spec_tokenize(text@),
            views(r@) == spec_long_tokens(tv.take(i as int)),
        decreases toks.len() - i,
    {
        proof {
            assert(tv.take(i + 1).drop_last() =~= tv.take(i as int));
            assert(tv.take(i + 1).last() == toks@[i as int]@);
        }
        if utf8_len(&toks[i]) >= 2 {
            let ghost pre = views(r@);
            r.push(to_chars(toks[i].as_str()));
            proof {
                assert(views(r@) =~= pre.push(toks@[i as int]@));
            }
        }
        i += 1;
    }
    proof {
        assert(tv.take(toks.len() as int) =~= tv);
    }
    r
}

fn add_hint_phrases(acc: &mut Vec<(Vec<char>, u128)>, phrases: &Vec<String>)
    ensures
        spec_entries(final(acc)@) == spec_add_hint_phrases(
            spec_entries(old(acc)@),
            string_views(phrases@),
            phrases.len() as int,
        ),
{
    let ghost start = spec_entries(acc@);
    let ghost pv = string_views(phrases@);
    let sep = lit(" ");
    let mut i: usize = 0;
    while i < phrases.len()
        invariant
            i <= phrases.len(),
            sep@ == " "@,
            start == spec_entries(old(acc)@),
            pv == string_views(phrases@),
            spec_entries(acc@) == spec_add_hint_phrases(start, pv, i as int),
        decreases phrases.len() - i,
    {
        let toks = long_tokens(phrases[i].as_str());
        let ghost tv = views(toks@);
        if toks.len() >= 2 {
            let mut base: u128 = 0;
            let mut j: usize = 0;
            while j < toks.len()
                invariant
                    j <= toks.len(),
                    tv == views(toks@),
                    base == spec_hint_weight_sum(tv.take(j as int)),
                    base <= 12960 * j,
                decreases toks.len() - j,
            {
                proof {
                    assert(tv.take(j + 1).drop_last() =~= tv.take(j as int));
                }
                let s = string_from(&toks[j]);
                let w = hint_weight_for_term(s.as_str());
                base = base + w;
                j += 1;
            }
            proof {
                assert(tv.take(toks.len() as int) =~= tv);
            }
            let phrase = join(&toks, &sep);
            add_new(acc, phrase, base * 9 / 10);
        }
        i += 1;
    }
}

fn entries_to_terms(v: Vec<(Vec<char>, u128)>) -> (r: Vec<WeightedTerm>)
    ensures
        spec_term_entries(r@) == spec_entries(v@),
{
    let mut r: Vec<WeightedTerm> = Vec::new();
    let mut i: usize = 0;
    while i < v.len()
        invariant
            i <= v.len(),
            spec_term_entries(r@) == spec_entries(v@).take(i as int),
        decreases v.len() - i,
    {
        let ghost pre = r@;
        r.push(WeightedTerm { term: string_from(&v[i].0), weight: v[i].1 });
        proof {
            assert(spec_term_entries(r@) =~= spec_term_entries(pre).push(spec_entries(v@)[i as int]));
            assert(spec_entries(v@).take(i + 1) =~= spec_entries(v@).take(i as int).push(
                spec_entries(v@)[i as int],
            ));
        }
        i += 1;
    }
    proof {
        assert(spec_entries(v@).take(v.len() as int) =~= spec_entries(v@));
    }
    r
}

fn entries_to_phrases(v: Vec<(Vec<char>, u128)>) -> (r: Vec<WeightedPhrase>)
    ensures
        spec_phrase_entries(r@) == spec_entries(v@),
{
    let mut r: Vec<WeightedPhrase> = Vec::new();
    let mut i: usize = 0;
    while i < v.len()
        invariant
            i <= v.len(),
            spec_phrase_entries(r@) == spec_entries(v@).take(i as int),
        decreases v.len() - i,
    {
        let ghost pre = r@;
        r.push(WeightedPhrase { phrase: string_from(&v[i].0), weight: v[i].1 });
        proof {
            assert(spec_phrase_entries(r@) =~= spec_phrase_entries(pre).push(
                spec_entries(v@)[i as int],
            ));
            assert(spec_entries(v@).take(i + 1) =~= spec_entries(v@).take(i as int).push(
                spec_entries(v@)[i as int],
            ));
        }
        i += 1;
    }
    proof {
        assert(spec_entries(v@).take(v.len() as int) =~= spec_entries(v@));
    }
    r
}

/// The weighted terms and phrases of a query from its kept terms, hint terms and hint
/// phrases (see `spec_query_terms`).
pub fn build_query_terms_from_parts(
    ordered_terms: &Vec<String>,
    hint_terms: &Vec<String>,
    hint_phrases: &Vec<String>,
) -> (r: QueryTerms)
    ensures
        r@ == spec_query_terms(
            string_views(ordered_terms@),
            string_views(hint_terms@),
            string_views(hint_phrases@),
        ),
{
    let mut ordered: Vec<Vec<char>> = Vec::new();
    let mut i: usize = 0;
    while i < ordered_terms.len()
        invariant
            i <= ordered_terms.len(),
            views(ordered@) == string_views(ordered_terms@).take(i as int),
        decreases ordered_terms.len() - i,
    {
        let ghost pre = views(ordered@);
        ordered.push(to_chars(ordered_terms[i].as_str()));
        proof {
            assert(views(ordered@) =~= pre.push(ordered_terms@[i as int]@));
            assert(string_views(ordered_terms@).take(i + 1) =~= string_views(ordered_terms@).take(
                i as int,
            ).push(ordered_terms@[i as int]@));
        }
        i += 1;
    }
    proof {
        assert(string_views(ordered_terms@).take(ordered_terms.len() as int) =~= string_views(
            ordered_terms@,
        ));
    }
    let mut terms = add_ordered(&ordered);
    add_hints(&mut terms, hint_terms);
    let mut phrases: Vec<(Vec<char>, u128)> = Vec::new();
    proof {
        assert(spec_entries(phrases@) =~= Seq::<(Seq<char>, int)>::empty());
    }
    add_windows(&mut phrases, &ordered, 2);
    add_windows(&mut phrases, &ordered, 3);
    add_hint_phrases(&mut phrases, hint_phrases);
    QueryTerms { weighted_terms: entries_to_terms(terms), phrases: entries_to_phrases(phrases) }
}

/// The kept tokens of `query` as strings.
fn ordered_terms_of(query: &str) -> (r: Vec<String>)
    ensures
        string_views(r@) == spec_long_tokens(spec_tokenize(query@)),
{
    let t = long_tokens(query);
    to_strings(&t)
}

/// The weighted terms and phrases of a query without hints: its tokens of at least two
/// bytes, their windows of two and three.
pub fn build_query_terms(query: &str) -> (r: QueryTerms)
    ensures
        r@ == spec_query_terms(spec_long_tokens(spec_tokenize(query@)), Seq::empty(), Seq::empty()),
{
    let ordered = ordered_terms_of(query);
    let empty: Vec<String> = Vec::new();
    proof {
        assert(string_views(empty@) =~= Seq::<Seq<char>>::empty());
    }
    build_query_terms_from_parts(&ordered, &empty, &empty)
}

/// Analyses a query: its kept tokens, whether it is broad, the hints that widen it, and the
/// weighted terms and phrases that follow from them.
pub fn prepare_query(query: &str) -> (r: PreparedQuery)
    ensures
        ({
            let ordered = spec_long_tokens(spec_tokenize(query@));
            let broad = spec_looks_like_broad_query(query@, ordered);
            let hints = spec_query_hints(query@, broad);
            &&& r.broad_intent == broad
            &&& string_views(r.hint_terms@) == hints.0
            &&& string_views(r.hint_phrases@) == hints.1
            &&& r.terms@ == spec_query_terms(ordered, hints.0, hints.1)
        }),
{
    let ordered = ordered_terms_of(query);
    let broad_intent = looks_like_broad_query(query, &ordered);
    let (hint_terms, hint_phrases) = collect_query_hints(query, broad_intent);
    let terms = if !broad_intent && hint_terms.len() == 0 && hint_phrases.len() == 0 {
        proof {
            assert(string_views(hint_terms@) =~= Seq::<Seq<char>>::empty());
            assert(string_views(hint_phrases@) =~= Seq::<Seq<char>>::empty());
        }
        build_query_terms(query)
    } else {
        build_query_terms_from_parts(&ordered, &hint_terms, &hint_phrases)
    };
    PreparedQuery { terms, broad_intent, hint_terms, hint_phrases }
}

} // verus!
