//! How a query's terms and phrases meet one indexed chunk: the counts and hits that the
//! ranking scores, and the matched terms, phrases and reasons that the answer shows.
use vstd::prelude::*;

use crate::index::local_search::{normalize_search_text, spec_normalize_search_text, TokenFreq};
use crate::index::query_terms::{spec_phrase_entries, spec_term_entries, QueryTerms};
use crate::text::{
    chars_eq, contains, insert_sorted_unique, lit, spec_contains, spec_strictly_sorted,
    string_views, to_chars, to_strings, views,
};

verus! {

/// How one query term meets a chunk.
#[derive(Clone, Copy, Debug, PartialEq, Eq, Structural)]
pub struct TermHit {
    /// How often the term occurs among the chunk's tokens.
    pub tf: u32,
    /// It is one of the chunk's symbol tokens.
    pub in_symbols: bool,
    /// It occurs in the search form of the chunk's file name.
    pub in_file_name: bool,
    /// It occurs in the search form of the chunk's path.
    pub in_path: bool,
}

/// How a query meets a chunk: one hit per weighted term, one flag per phrase, and the
/// matched terms, matched phrases and reason labels, each sorted and each once.
pub struct MatchFacts {
    pub term_hits: Vec<TermHit>,
    pub phrase_hits: Vec<bool>,
    pub matched_terms: Vec<String>,
    pub matched_phrases: Vec<String>,
    pub reason_labels: Vec<String>,
}

/// The hit of term `t` on a chunk.
pub open spec fn spec_term_hit(
    t: Seq<char>,
    path: Seq<char>,
    file_name: Seq<char>,
    token_freq: TokenFreq,
    symbols: Seq<Seq<char>>,
) -> TermHit {
    TermHit {
        tf: match token_freq.spec_get(t) {
            Some(c) => c,
            None => 0,
        },
        in_symbols: symbols.contains(t),
        in_file_name: spec_contains(spec_normalize_search_text(file_name), t),
        in_path: spec_contains(spec_normalize_search_text(path), t),
    }
}

/// The term matched in some way.
pub open spec fn spec_any_hit(h: TermHit) -> bool {
    h.tf > 0 || h.in_symbols || h.in_file_name || h.in_path
}

/// The label for each kind of hit.
pub open spec fn spec_hit_labels() -> Seq<Seq<char>> {
    seq!["正文命中"@, "符号命中"@, "文件名命中"@, "路径命中"@, "短语命中"@]
}

/// Whether hit kind `k` (body, symbol, file name, path) occurred among `hits`, or (`k == 4`)
/// some phrase matched.
pub open spec fn spec_kind_seen(hits: Seq<TermHit>, phrase_hits: Seq<bool>, k: int) -> bool {
    if k == 4 {
        exists|p: int| 0 <= p < phrase_hits.len() && phrase_hits[p]
    } else {
        exists|i: int|
            0 <= i < hits.len() && (if k == 0 {
                hits[i].tf > 0
            } else if k == 1 {
                hits[i].in_symbols
            } else if k == 2 {
                hits[i].in_file_name
            } else {
                hits[i].in_path
            })
    }
}

/// `f` are the facts of the query `terms` (by its term and phrase entries) on a chunk.
pub open spec fn spec_match_facts(
    f: MatchFacts,
    terms: Seq<(Seq<char>, int)>,
    phrases: Seq<(Seq<char>, int)>,
    path: Seq<char>,
    file_name: Seq<char>,
    normalized_text: Seq<char>,
    token_freq: TokenFreq,
    symbols: Seq<Seq<char>>,
) -> bool {
    &&& f.term_hits.len() == terms.len()
    &&& forall|i: int|
        0 <= i < terms.len() ==> #[trigger] f.term_hits@[i] == spec_term_hit(
            terms[i].0,
            path,
            file_name,
            token_freq,
            symbols,
        )
    &&& f.phrase_hits.len() == phrases.len()
    &&& forall|p: int|
        0 <= p < phrases.len() ==> #[trigger] f.phrase_hits@[p] == spec_contains(
            normalized_text,
            phrases[p].0,
        )
    &&& spec_strictly_sorted(string_views(f.matched_terms@))
    &&& forall|x: Seq<char>| #[trigger]
        string_views(f.matched_terms@).contains(x) <==> exists|i: int|
            0 <= i < terms.len() && terms[i].0 == x && spec_any_hit(#[trigger] f.term_hits@[i])
    &&& spec_strictly_sorted(string_views(f.matched_phrases@))
    &&& forall|x: Seq<char>| #[trigger]
        string_views(f.matched_phrases@).contains(x) <==> exists|p: int|
            0 <= p < phrases.len() && phrases[p].0 == x && #[trigger] f.phrase_hits@[p]
    &&& spec_strictly_sorted(string_views(f.reason_labels@))
    &&& forall|x: Seq<char>| #[trigger]
        string_views(f.reason_labels@).contains(x) <==> exists|k: int|
            0 <= k < 5 && spec_hit_labels()[k] == x && #[trigger] spec_kind_seen(
                f.term_hits@,
                f.phrase_hits@,
                k,
            )
}

fn in_list(v: &Vec<Vec<char>>, x: &Vec<char>) -> (b: bool)
    ensures
        b == views(v@).contains(x@),
{
    let mut i: usize = 0;
    while i < v.len()
        invariant
            i <= v.len(),
            forall|q: int| 0 <= q < i ==> views(v@)[q] != x@,
        decreases v.len() - i,
    {
        if chars_eq(&v[i], x) {
            proof {
                assert(views(v@)[i as int] == x@);
            }
            return true;
        }
        i += 1;
    }
    false
}

fn chars_of(v: &Vec<String>) -> (r: Vec<Vec<char>>)
    ensures
        views(r@) == string_views(v@),
{
    let mut r: Vec<Vec<char>> = Vec::new();
    let mut i: usize = 0;
    while i < v.len()
        invariant
            i <= v.len(),
            views(r@) == string_views(v@).take(i as int),
        decreases v.len() - i,
    {
        let ghost pre = views(r@);
        r.push(to_chars(v[i].as_str()));
        proof {
            assert(views(r@) =~= pre.push(v@[i as int]@));
            assert(string_views(v@).take(i + 1) =~= string_views(v@).take(i as int).push(
                v@[i as int]@,
            ));
        }
        i += 1;
    }
    proof {
        assert(string_views(v@).take(v.len() as int) =~= string_views(v@));
    }
    r
}

/// How the query `terms` meets a chunk (see `spec_match_facts`).
pub fn query_match_facts(
    terms: &QueryTerms,
    path: &str,
    file_name: &str,
    normalized_text: &str,
    token_freq: &TokenFreq,
    symbol_tokens: &Vec<String>,
) -> (r: MatchFacts)
    ensures
        spec_match_facts(
            r,
            terms@.0,
            terms@.1,
            path@,
            file_name@,
            normalized_text@,
            *token_freq,
            string_views(symbol_tokens@),
        ),
{
    let ghost tv = terms@.0;
    let ghost pv = terms@.1;
    let ghost sv = string_views(symbol_tokens@);
    let npath = to_chars(normalize_search_text(path).as_str());
    let nfile = to_chars(normalize_search_text(file_name).as_str());
    let text = to_chars(normalized_text);
    let symbols = chars_of(symbol_tokens);
    let mut hits: Vec<TermHit> = Vec::new();
    let mut matched: Vec<Vec<char>> = Vec::new();
    let mut i: usize = 0;
    while i < terms.weighted_terms.len()
        invariant
            i <= terms.weighted_terms.len(),
            tv == terms@.0,
            tv == spec_term_entries(terms.weighted_terms@),
            tv.len() == terms.weighted_terms.len(),
            npath@ == spec_normalize_search_text(path@),
            nfile@ == spec_normalize_search_text(file_name@),
            views(symbols@) == sv,
            hits.len() == i,
            forall|q: int|
                0 <= q < i ==> #[trigger] hits@[q] == spec_term_hit(
                    tv[q].0,
                    path@,
                    file_name@,
                    *token_freq,
                    sv,
                ),
            spec_strictly_sorted(views(matched@)),
            forall|x: Seq<char>| #[trigger]
                views(matched@).contains(x) <==> exists|q: int|
                    0 <= q < i && tv[q].0 == x && spec_any_hit(#[trigger] hits@[q]),
        decreases terms.weighted_terms.len() - i,
    {
        let t = &terms.weighted_terms[i].term;
        let tc = to_chars(t.as_str());
        proof {
            assert(tv[i as int].0 == t@);
        }
        let tf = match token_freq.get(t.as_str()) {
            Some(c) => *c,
            None => 0,
        };
        let hit = TermHit {
            tf,
            in_symbols: in_list(&symbols, &tc),
            in_file_name: contains(&nfile, &tc),
            in_path: contains(&npath, &tc),
        };
        let ghost pre = views(matched@);
        let ghost pre_hits = hits@;
        if hit.tf > 0 || hit.in_symbols || hit.in_file_name || hit.in_path {
            insert_sorted_unique(&mut matched, tc);
        }
        hits.push(hit);
        proof {
            assert forall|x: Seq<char>| #[trigger] views(matched@).contains(x) <==> exists|q: int|
                0 <= q < i + 1 && tv[q].0 == x && spec_any_hit(#[trigger] hits@[q]) by {
                if exists|q: int| 0 <= q < i + 1 && tv[q].0 == x && spec_any_hit(#[trigger] hits@[q]) {
                    let q = choose|q: int| 0 <= q < i + 1 && tv[q].0 == x && spec_any_hit(#[trigger] hits@[q]);
                    if q < i {
                        assert(hits@[q] == pre_hits[q]);
                        assert(pre.contains(x));
                    }
                }
                if views(matched@).contains(x) && x != t@ {
                    assert(pre.contains(x));
                    let q = choose|q: int| 0 <= q < i && tv[q].0 == x && spec_any_hit(#[trigger] pre_hits[q]);
                    assert(hits@[q] == pre_hits[q]);
                }
                if views(matched@).contains(x) && x == t@ && !spec_any_hit(hit) {
                    assert(pre.contains(x));
                    let q = choose|q: int| 0 <= q < i && tv[q].0 == x && spec_any_hit(#[trigger] pre_hits[q]);
                    assert(hits@[q] == pre_hits[q]);
                }
                if x == t@ && spec_any_hit(hit) {
                    assert(hits@[i as int] == hit);
                }
            }
        }
        i += 1;
    }
    let mut phrase_hits: Vec<bool> = Vec::new();
    let mut matched_phrases: Vec<Vec<char>> = Vec::new();
    let mut p: usize = 0;
    while p < terms.phrases.len()
        invariant
            p <= terms.phrases.len(),
            pv == terms@.1,
            pv == spec_phrase_entries(terms.phrases@),
            pv.len() == terms.phrases.len(),
            text@ == normalized_text@,
            phrase_hits.len() == p,
            forall|q: int|
                0 <= q < p ==> #[trigger] phrase_hits@[q] == spec_contains(normalized_text@, pv[q].0),
            spec_strictly_sorted(views(matched_phrases@)),
            forall|x: Seq<char>| #[trigger]
                views(matched_phrases@).contains(x) <==> exists|q: int|
                    0 <= q < p && pv[q].0 == x && #[trigger] phrase_hits@[q],
        decreases terms.phrases.len() - p,
    {
        let pc = to_chars(terms.phrases[p].phrase.as_str());
        proof {
            assert(pv[p as int].0 == pc@);
        }
        let h = contains(&text, &pc);
        let ghost pre = views(matched_phrases@);
        let ghost pre_hits = phrase_hits@;
        if h {
            insert_sorted_unique(&mut matched_phrases, pc);
        }
        phrase_hits.push(h);
        proof {
            assert forall|x: Seq<char>| #[trigger] views(matched_phrases@).contains(x) <==> exists|q: int|
                0 <= q < p + 1 && pv[q].0 == x && #[trigger] phrase_hits@[q] by {
                if exists|q: int| 0 <= q < p + 1 && pv[q].0 == x && #[trigger] phrase_hits@[q] {
                    let q = choose|q: int| 0 <= q < p + 1 && pv[q].0 == x && #[trigger] phrase_hits@[q];
                    if q < p {
                        assert(phrase_hits@[q] == pre_hits[q]);
                        assert(pre.contains(x));
                    }
                }
                if views(matched_phrases@).contains(x) && (x != pv[p as int].0 || !h) {
                    assert(pre.contains(x));
                    let q = choose|q: int| 0 <= q < p && pv[q].0 == x && #[trigger] pre_hits[q];
                    assert(phrase_hits@[q] == pre_hits[q]);
                }
                if x == pv[p as int].0 && h {
                    assert(phrase_hits@[p as int]);
                }
            }
        }
        p += 1;
    }
    let mut seen: [bool; 5] = [false, false, false, false, false];
    let mut labels: Vec<Vec<char>> = Vec::new();
    let mut k: usize = 0;
    while k < 5
        invariant
            k <= 5,
            spec_strictly_sorted(views(labels@)),
            forall|x: Seq<char>| #[trigger]
                views(labels@).contains(x) <==> exists|q: int|
                    0 <= q < k && spec_hit_labels()[q] == x && #[trigger] spec_kind_seen(
                        hits@,
                        phrase_hits@,
                        q,
                    ),
        decreases 5 - k,
    {
        let mut any = false;
        if k == 4 {
            let mut q: usize = 0;
            while q < phrase_hits.len()
                invariant
                    q <= phrase_hits.len(),
                    any == exists|a: int| 0 <= a < q && phrase_hits@[a],
                decreases phrase_hits.len() - q,
            {
                if phrase_hits[q] {
                    any = true;
                }
                q += 1;
            }
        } else {
            let mut q: usize = 0;
            while q < hits.len()
                invariant
                    q <= hits.len(),
                    k < 4,
                    any == exists|a: int|
                        0 <= a < q && (if k == 0 {
                            hits@[a].tf > 0
                        } else if k == 1 {
                            hits@[a].in_symbols
                        } else if k == 2 {
                            hits@[a].in_file_name
                        } else {
                            hits@[a].in_path
                        }),
                decreases hits.len() - q,
            {
                let h = hits[q];
                let b = if k == 0 {
                    h.tf > 0
                } else if k == 1 {
                    h.in_symbols
                } else if k == 2 {
                    h.in_file_name
                } else {
                    h.in_path
                };
                if b {
                    any = true;
                }
                q += 1;
            }
        }
        let label = if k == 0 {
            lit("正文命中")
        } else if k == 1 {
            lit("符号命中")
        } else if k == 2 {
            lit("文件名命中")
        } else if k == 3 {
            lit("路径命中")
        } else {
            lit("短语命中")
        };
        proof {
            assert(label@ == spec_hit_labels()[k as int]);
            assert(any == spec_kind_seen(hits@, phrase_hits@, k as int));
        }
        let ghost pre = views(labels@);
        if any {
            insert_sorted_unique(&mut labels, label);
        }
        proof {
            assert forall|x: Seq<char>| #[trigger] views(labels@).contains(x) <==> exists|q: int|
                0 <= q < k + 1 && spec_hit_labels()[q] == x && #[trigger] spec_kind_seen(
                    hits@,
                    phrase_hits@,
                    q,
                ) by {
                if exists|q: int|
                    0 <= q < k + 1 && spec_hit_labels()[q] == x && #[trigger] spec_kind_seen(
                        hits@,
                        phrase_hits@,
                        q,
                    ) {
                    let q = choose|q: int|
                        0 <= q < k + 1 && spec_hit_labels()[q] == x && #[trigger] spec_kind_seen(
                            hits@,
                            phrase_hits@,
                            q,
                        );
                    if q < k {
                        assert(pre.contains(x));
                    }
                }
                if views(labels@).contains(x) && (x != label@ || !any) {
                    assert(pre.contains(x));
                }
            }
        }
        k += 1;
    }
    MatchFacts {
        term_hits: hits,
        phrase_hits,
        matched_terms: to_strings(&matched),
        matched_phrases: to_strings(&matched_phrases),
        reason_labels: to_strings(&labels),
    }
}

} // verus!
