//! Merging neighbouring search candidates of one file into a single candidate.
use vstd::prelude::*;

use crate::hashing::{sha256_hex, sha256_utf8, spec_hex};
use crate::index::local_search::{merge_chunk_content, spec_merge_chunk_content};
use crate::index::local_store::LocalChunkRecord;
use crate::sorting::{
    lemma_path_line_order_strict, lemma_stable_order, lemma_stable_order_by, spec_index_seq,
    spec_is_permutation, spec_path_line_keys, spec_path_line_order, spec_stable_order,
    spec_stable_order_by, stable_order_by_key, stable_order_by_path_line,
};
use crate::text::{
    append_chars, chars_eq, decimal, lit, spec_decimal, string_from_chars, string_views, to_chars,
    views,
};

verus! {

/// Lines between the end of one candidate and the start of the next (of the same file) up to
/// which the two are merged.
pub const MERGE_GAP_LINES: usize = 25;

/// A search candidate: a chunk and what of the query it matched.
pub struct CandidateRecord {
    pub chunk: LocalChunkRecord,
    pub matched_terms: Vec<String>,
    pub matched_phrases: Vec<String>,
    pub reason_labels: Vec<String>,
}

/// A candidate after merging, with the indices of the candidates merged into it, in the
/// order they were merged.
pub struct MergedCandidate {
    pub candidate: CandidateRecord,
    pub members: Vec<usize>,
}

/// A candidate as plain values.
pub struct CandView {
    pub id: Seq<char>,
    pub path: Seq<char>,
    pub file_name: Seq<char>,
    pub start: int,
    pub end: int,
    pub hash: Seq<char>,
    pub content: Seq<char>,
    pub normalized: Seq<char>,
    pub tokens: int,
    pub symbols: Seq<Seq<char>>,
    pub terms: Seq<Seq<char>>,
    pub phrases: Seq<Seq<char>>,
    pub labels: Seq<Seq<char>>,
    pub members: Seq<int>,
}

pub open spec fn spec_cand_view(c: CandidateRecord, members: Seq<int>) -> CandView {
    CandView {
        id: c.chunk.id@,
        path: c.chunk.path@,
        file_name: c.chunk.file_name@,
        start: c.chunk.start_line as int,
        end: c.chunk.end_line as int,
        hash: c.chunk.content_hash@,
        content: c.chunk.content@,
        normalized: c.chunk.normalized_text@,
        tokens: c.chunk.token_count as int,
        symbols: string_views(c.chunk.symbol_tokens@),
        terms: string_views(c.matched_terms@),
        phrases: string_views(c.matched_phrases@),
        labels: string_views(c.reason_labels@),
        members,
    }
}

pub open spec fn spec_merged_view(m: MergedCandidate) -> CandView {
    spec_cand_view(m.candidate, spec_index_seq(m.members@))
}

/// The items of `incoming` that are neither in `target` nor earlier in `incoming`, among its
/// first `n`.
pub open spec fn spec_new_items(target: Seq<Seq<char>>, incoming: Seq<Seq<char>>, n: int) -> Seq<
    Seq<char>,
>
    decreases n,
{
    if n <= 0 {
        Seq::empty()
    } else {
        let acc = spec_new_items(target, incoming, n - 1);
        let x = incoming[n - 1];
        if target.contains(x) || acc.contains(x) {
            acc
        } else {
            acc.push(x)
        }
    }
}

/// `target` with the new items of `incoming` added, sorted.
pub open spec fn spec_merge_strings(target: Seq<Seq<char>>, incoming: Seq<Seq<char>>) -> Seq<
    Seq<char>,
> {
    let all = target + spec_new_items(target, incoming, incoming.len() as int);
    spec_stable_order(all, all.len() as int).map_values(|i: int| all[i])
}

fn copy_string(s: &String) -> (r: String)
    ensures
        r@ == s@,
{
    string_from_chars(to_chars(s.as_str()).as_slice())
}

fn in_chars(v: &Vec<Vec<char>>, x: &Vec<char>) -> (b: bool)
    ensures
        b == views(v@).contains(x@),
{
    let mut i: usize = 0;
    while i < v.len()
        invariant
            i <= v.len(),
            forall|q: int| 0 <= q < i ==> views(v@)[q] != x@,
        decreases v.len() - i,
    {
        if chars_eq(&v[i], x) {
            proof {
                assert(views(v@)[i as int] == x@);
            }
            return true;
        }
        i += 1;
    }
    false
}

/// Adds to `target` the items of `incoming` it lacks, each once, and sorts it (see
/// `spec_merge_strings`).
pub fn merge_string_vec(target: &Vec<String>, incoming: &Vec<String>) -> (r: Vec<String>)
    ensures
        string_views(r@) == spec_merge_strings(string_views(target@), string_views(incoming@)),
{
    let ghost tv = string_views(target@);
    let ghost iv = string_views(incoming@);
    let mut all: Vec<Vec<char>> = Vec::new();
    let mut i: usize = 0;
    while i < target.len()
        invariant
            i <= target.len(),
            tv == string_views(target@),
            views(all@) == tv.take(i as int),
        decreases target.len() - i,
    {
        let ghost pre = views(all@);
        all.push(to_chars(target[i].as_str()));
        proof {
            assert(views(all@) =~= pre.push(target@[i as int]@));
            assert(tv.take(i + 1) =~= tv.take(i as int).push(target@[i as int]@));
        }
        i += 1;
    }
    proof {
        assert(tv.take(target.len() as int) =~= tv);
    }
    let tlen = all.len();
    let mut k: usize = 0;
    while k < incoming.len()
        invariant
            k <= incoming.len(),
            tv == string_views(target@),
            iv == string_views(incoming@),
            tlen == tv.len(),
            all.len() >= tlen,
            views(all@) == tv + spec_new_items(tv, iv, k as int),
        decreases incoming.len() - k,
    {
        let x = to_chars(incoming[k].as_str());
        let ghost acc = spec_new_items(tv, iv, k as int);
        proof {
            assert(iv[k as int] == x@);
            assert(views(all@).subrange(0, tlen as int) =~= tv);
            assert(views(all@).subrange(tlen as int, all.len() as int) =~= acc);
        }
        if !in_chars(&all, &x) {
            proof {
                assert(!tv.contains(x@)) by {
                    if tv.contains(x@) {
                        let q = choose|q: int| 0 <= q < tv.len() && tv[q] == x@;
                        assert(views(all@)[q] == x@);
                    }
                }
                assert(!acc.contains(x@)) by {
                    if acc.contains(x@) {
                        let q = choose|q: int| 0 <= q < acc.len() && acc[q] == x@;
                        assert(views(all@)[tlen + q] == x@);
                    }
                }
            }
            let ghost pre = views(all@);
            all.push(x);
            proof {
                assert(views(all@) =~= pre.push(iv[k as int]));
            }
        } else {
            proof {
                let q = choose|q: int| 0 <= q < all.len() && views(all@)[q] == x@;
                if q < tlen {
                    assert(tv[q] == x@);
                } else {
                    assert(acc[q - tlen] == x@);
                }
            }
        }
        k += 1;
    }
    let order = stable_order_by_key(&all);
    let ghost av = views(all@);
    proof {
        lemma_stable_order(av, av.len() as int);
    }
    let mut r: Vec<String> = Vec::new();
    let mut p: usize = 0;
    while p < order.len()
        invariant
            p <= order.len(),
            av == views(all@),
            spec_is_permutation(spec_index_seq(order@), all.len() as int),
            string_views(r@) == spec_index_seq(order@).take(p as int).map_values(|i: int| av[i]),
        decreases order.len() - p,
    {
        let j = order[p];
        proof {
            assert(0 <= spec_index_seq(order@)[p as int] < all.len());
        }
        let ghost pre = string_views(r@);
        r.push(string_from_chars(all[j].as_slice()));
        proof {
            assert(string_views(r@) =~= pre.push(av[j as int]));
            assert(spec_index_seq(order@).take(p + 1).map_values(|i: int| av[i]) =~= spec_index_seq(
                order@,
            ).take(p as int).map_values(|i: int| av[i]).push(av[j as int]));
        }
        p += 1;
    }
    proof {
        assert(spec_index_seq(order@).take(order.len() as int) =~= spec_index_seq(order@));
    }
    r
}

/// Candidate `c` lies close enough after `last` to be merged into it: the same file, and it
/// starts at most `MERGE_GAP_LINES` lines after `last` ends.
pub open spec fn spec_near(last: CandView, c: CandView) -> bool {
    last.path == c.path && c.start <= last.end + MERGE_GAP_LINES
}

/// `last` with `c` merged into it: it ends where the later of the two ends; its content hash
/// and id are rehashed; the texts are joined; token counts are added; symbol tokens,
/// matched terms, phrases and labels are united.
pub open spec fn spec_absorb(last: CandView, c: CandView) -> CandView {
    let end = if c.end > last.end {
        c.end
    } else {
        last.end
    };
    CandView {
        id: spec_hex(sha256_utf8(last.id + ":"@ + c.id + ":"@ + spec_decimal(end as nat))),
        path: last.path,
        file_name: last.file_name,
        start: last.start,
        end,
        hash: spec_hex(sha256_utf8(last.hash + ":"@ + c.hash)),
        content: spec_merge_chunk_content(last.content, c.content),
        normalized: last.normalized,
        tokens: last.tokens + c.tokens,
        symbols: spec_merge_strings(last.symbols, c.symbols),
        terms: spec_merge_strings(last.terms, c.terms),
        phrases: spec_merge_strings(last.phrases, c.phrases),
        labels: spec_merge_strings(last.labels, c.labels),
        members: last.members + c.members,
    }
}

/// The first `n` candidates of `v` (in order) merged: each is merged into the one before it
/// when near it, else it starts a new candidate.
pub open spec fn spec_merge_fold(v: Seq<CandView>, n: int) -> Seq<CandView>
    decreases n,
{
    if n <= 0 {
        Seq::empty()
    } else {
        let acc = spec_merge_fold(v, n - 1);
        let c = v[n - 1];
        if acc.len() > 0 && spec_near(acc.last(), c) {
            acc.update(acc.len() - 1, spec_absorb(acc.last(), c))
        } else {
            acc.push(c)
        }
    }
}

/// The (path, start line) keys of candidates.
pub open spec fn spec_cand_keys(c: Seq<CandidateRecord>) -> Seq<(Seq<char>, int)> {
    Seq::new(c.len(), |i: int| (c[i].chunk.path@, c[i].chunk.start_line as int))
}

/// The candidates sorted by path and start line (stably), each on its own.
pub open spec fn spec_sorted_views(c: Seq<CandidateRecord>) -> Seq<CandView> {
    spec_stable_order_by(spec_path_line_order(), spec_cand_keys(c), c.len() as int).map_values(
        |i: int| spec_cand_view(c[i], seq![i]),
    )
}

/// Neighbouring candidates merged: sorted by path and start line, then merged in that order.
pub open spec fn spec_merge_adjacent(c: Seq<CandidateRecord>) -> Seq<CandView> {
    spec_merge_fold(spec_sorted_views(c), c.len() as int)
}

/// Sum of the token counts of the candidates `order` names.
pub open spec fn spec_token_sum(c: Seq<CandidateRecord>, order: Seq<int>) -> int
    decreases order.len(),
{
    if order.len() == 0 {
        0
    } else {
        spec_token_sum(c, order.drop_last()) + c[order.last()].chunk.token_count
    }
}

/// Sum of the token counts of all candidates.
pub open spec fn spec_total_tokens(c: Seq<CandidateRecord>) -> int {
    spec_token_sum(c, Seq::new(c.len(), |i: int| i))
}

proof fn lemma_token_sum_remove(c: Seq<CandidateRecord>, s: Seq<int>, p: int)
    requires
        0 <= p < s.len(),
    ensures
        spec_token_sum(c, s) == spec_token_sum(c, s.remove(p)) + c[s[p]].chunk.token_count,
    decreases s.len(),
{
    if p < s.len() - 1 {
        lemma_token_sum_remove(c, s.drop_last(), p);
        assert(s.remove(p).drop_last() =~= s.drop_last().remove(p));
        assert(s.remove(p).last() == s.last());
    } else {
        assert(s.remove(p) =~= s.drop_last());
    }
}

proof fn lemma_token_sum_permutation(c: Seq<CandidateRecord>, s: Seq<int>, n: int)
    requires
        spec_is_permutation(s, n),
        n <= c.len(),
    ensures
        spec_token_sum(c, s) == spec_token_sum(c, Seq::new(n as nat, |i: int| i)),
    decreases n,
{
    if n > 0 {
        let p = choose_index(s, n - 1, n);
        lemma_token_sum_remove(c, s, p);
        let t = s.remove(p);
        assert forall|a: int| 0 <= a < t.len() implies 0 <= #[trigger] t[a] < n - 1 by {
            if a < p {
                assert(t[a] == s[a]);
                assert(s[a] != s[p]);
            } else {
                assert(t[a] == s[a + 1]);
                assert(s[a + 1] != s[p]);
            }
        }
        assert forall|a: int, b: int| 0 <= a < b < t.len() implies t[a] != t[b] by {
            let a2 = if a < p {
                a
            } else {
                a + 1
            };
            let b2 = if b < p {
                b
            } else {
                b + 1
            };
            assert(t[a] == s[a2] && t[b] == s[b2]);
        }
        lemma_token_sum_permutation(c, t, n - 1);
        let full = Seq::new(n as nat, |i: int| i);
        assert(full.drop_last() =~= Seq::new((n - 1) as nat, |i: int| i));
    }
}

/// Position of `v` in a permutation of `0 .. n` that holds it.
proof fn choose_index(s: Seq<int>, v: int, n: int) -> (p: int)
    requires
        spec_is_permutation(s, n),
        0 <= v < n,
    ensures
        0 <= p < s.len(),
        s[p] == v,
{
    lemma_permutation_covers(s, n, v);
    choose|p: int| 0 <= p < s.len() && s[p] == v
}

/// A permutation of `0 .. n` holds every value below `n`.
proof fn lemma_permutation_covers(s: Seq<int>, n: int, v: int)
    requires
        spec_is_permutation(s, n),
        0 <= v < n,
    ensures
        exists|p: int| 0 <= p < s.len() && s[p] == v,
{
    let dom = Set::new(|a: int| 0 <= a < s.len());
    let f = |a: int| s[a];
    vstd::set_lib::lemma_int_range(0, s.len() as int);
    assert(dom =~= vstd::set_lib::set_int_range(0, s.len() as int));
    let img = dom.map(f);
    assert(vstd::relations::injective_on(f, dom));
    vstd::set_lib::lemma_map_size(dom, img, f);
    vstd::set_lib::lemma_int_range(0, n);
    assert(img.subset_of(vstd::set_lib::set_int_range(0, n))) by {
        assert forall|x: int| img.contains(x) implies vstd::set_lib::set_int_range(0, n).contains(
            x,
        ) by {
            let a = choose|a: int| dom.contains(a) && f(a) == x;
            assert(0 <= s[a] < n);
        }
    }
    if !img.contains(v) {
        assert(img.subset_of(vstd::set_lib::set_int_range(0, n).remove(v)));
        vstd::set_lib::lemma_len_subset(img, vstd::set_lib::set_int_range(0, n).remove(v));
    }
    let a = choose|a: int| dom.contains(a) && f(a) == v;
    assert(0 <= a < s.len() && s[a] == v);
}

fn copy_strings(v: &Vec<String>) -> (r: Vec<String>)
    ensures
        string_views(r@) == string_views(v@),
{
    let mut r: Vec<String> = Vec::new();
    let mut i: usize = 0;
    while i < v.len()
        invariant
            i <= v.len(),
            string_views(r@) == string_views(v@).take(i as int),
        decreases v.len() - i,
    {
        let ghost pre = string_views(r@);
        r.push(copy_string(&v[i]));
        proof {
            assert(string_views(r@) =~= pre.push(v@[i as int]@));
            assert(string_views(v@).take(i + 1) =~= string_views(v@).take(i as int).push(
                v@[i as int]@,
            ));
        }
        i += 1;
    }
    proof {
        assert(string_views(v@).take(v.len() as int) =~= string_views(v@));
    }
    r
}

fn copy_candidate(c: &CandidateRecord) -> (r: CandidateRecord)
    ensures
        spec_cand_view(r, Seq::empty()) == spec_cand_view(*c, Seq::empty()),
{
    let k = &c.chunk;
    CandidateRecord {
        chunk: LocalChunkRecord {
            id: copy_string(&k.id),
            path: copy_string(&k.path),
            file_name: copy_string(&k.file_name),
            start_line: k.start_line,
            end_line: k.end_line,
            content_hash: copy_string(&k.content_hash),
            content: copy_string(&k.content),
            normalized_text: copy_string(&k.normalized_text),
            token_count: k.token_count,
            symbol_tokens: copy_strings(&k.symbol_tokens),
        },
        matched_terms: copy_strings(&c.matched_terms),
        matched_phrases: copy_strings(&c.matched_phrases),
        reason_labels: copy_strings(&c.reason_labels),
    }
}

fn join3(a: &String, b: &String, end: Option<usize>) -> (r: String)
    ensures
        r@ == match end {
            Some(e) => a@ + ":"@ + b@ + ":"@ + spec_decimal(e as nat),
            None => a@ + ":"@ + b@,
        },
{
    let mut t = to_chars(a.as_str());
    append_chars(&mut t, &lit(":"));
    append_chars(&mut t, &to_chars(b.as_str()));
    if let Some(e) = end {
        append_chars(&mut t, &lit(":"));
        append_chars(&mut t, &decimal(e as u64));
    }
    string_from_chars(t.as_slice())
}

fn absorb(last: &MergedCandidate, c: &CandidateRecord, ci: usize) -> (r: MergedCandidate)
    requires
        last.candidate.chunk.token_count + c.chunk.token_count <= usize::MAX,
    ensures
        spec_merged_view(r) == spec_absorb(spec_merged_view(*last), spec_cand_view(*c, seq![ci as int])),
{
    let l = &last.candidate;
    let end = if c.chunk.end_line > l.chunk.end_line {
        c.chunk.end_line
    } else {
        l.chunk.end_line
    };
    let hash = sha256_hex(join3(&l.chunk.content_hash, &c.chunk.content_hash, None).as_str());
    let id = sha256_hex(join3(&l.chunk.id, &c.chunk.id, Some(end)).as_str());
    let mut members: Vec<usize> = Vec::new();
    let mut i: usize = 0;
    while i < last.members.len()
        invariant
            i <= last.members.len(),
            spec_index_seq(members@) == spec_index_seq(last.members@).take(i as int),
        decreases last.members.len() - i,
    {
        let ghost pre = spec_index_seq(members@);
        members.push(last.members[i]);
        proof {
            assert(spec_index_seq(members@) =~= pre.push(last.members@[i as int] as int));
            assert(spec_index_seq(last.members@).take(i + 1) =~= spec_index_seq(last.members@).take(
                i as int,
            ).push(last.members@[i as int] as int));
        }
        i += 1;
    }
    members.push(ci);
    proof {
        assert(spec_index_seq(last.members@).take(last.members.len() as int) =~= spec_index_seq(
            last.members@,
        ));
        assert(spec_index_seq(members@) =~= spec_index_seq(last.members@) + seq![ci as int]);
    }
    MergedCandidate {
        candidate: CandidateRecord {
            chunk: LocalChunkRecord {
                id,
                path: copy_string(&l.chunk.path),
                file_name: copy_string(&l.chunk.file_name),
                start_line: l.chunk.start_line,
                end_line: end,
                content_hash: hash,
                content: merge_chunk_content(l.chunk.content.as_str(), c.chunk.content.as_str()),
                normalized_text: copy_string(&l.chunk.normalized_text),
                token_count: l.chunk.token_count + c.chunk.token_count,
                symbol_tokens: merge_string_vec(&l.chunk.symbol_tokens, &c.chunk.symbol_tokens),
            },
            matched_terms: merge_string_vec(&l.matched_terms, &c.matched_terms),
            matched_phrases: merge_string_vec(&l.matched_phrases, &c.matched_phrases),
            reason_labels: merge_string_vec(&l.reason_labels, &c.reason_labels),
        },
        members,
    }
}

/// Sum of the token counts of candidate views.
pub open spec fn spec_view_tokens(v: Seq<CandView>) -> int
    decreases v.len(),
{
    if v.len() == 0 {
        0
    } else {
        spec_view_tokens(v.drop_last()) + v.last().tokens
    }
}

proof fn lemma_view_tokens_nonneg(v: Seq<CandView>)
    requires
        forall|i: int| 0 <= i < v.len() ==> (#[trigger] v[i]).tokens >= 0,
    ensures
        spec_view_tokens(v) >= 0,
    decreases v.len(),
{
    if v.len() > 0 {
        lemma_view_tokens_nonneg(v.drop_last());
    }
}

proof fn lemma_token_prefix(c: Seq<CandidateRecord>, s: Seq<int>, k: int)
    requires
        0 <= k <= s.len(),
    ensures
        spec_token_sum(c, s.take(k)) <= spec_token_sum(c, s),
    decreases s.len(),
{
    if k < s.len() {
        lemma_token_prefix(c, s.drop_last(), k);
        assert(s.drop_last().take(k) =~= s.take(k));
    } else {
        assert(s.take(k) =~= s);
    }
}

pub open spec fn spec_merged_views(v: Seq<MergedCandidate>) -> Seq<CandView> {
    v.map_values(|m: MergedCandidate| spec_merged_view(m))
}

/// Merges neighbouring candidates of the same file (see `spec_merge_adjacent`); each merged
/// candidate names the candidates it was built from.
pub fn merge_adjacent_candidates(cands: &Vec<CandidateRecord>) -> (r: Vec<MergedCandidate>)
    requires
        spec_total_tokens(cands@) <= usize::MAX,
    ensures
        spec_merged_views(r@) == spec_merge_adjacent(cands@),
{
    let n = cands.len();
    let mut paths: Vec<Vec<char>> = Vec::new();
    let mut lines: Vec<usize> = Vec::new();
    let mut i: usize = 0;
    while i < n
        invariant
            i <= n,
            n == cands.len(),
            paths.len() == i,
            lines.len() == i,
            forall|q: int|
                0 <= q < i ==> (#[trigger] views(paths@)[q]) == cands@[q].chunk.path@ && lines@[q]
                    == cands@[q].chunk.start_line,
        decreases n - i,
    {
        let ghost pre = views(paths@);
        paths.push(to_chars(cands[i].chunk.path.as_str()));
        lines.push(cands[i].chunk.start_line);
        proof {
            assert(views(paths@) =~= pre.push(cands@[i as int].chunk.path@));
            assert forall|q: int| 0 <= q < i + 1 implies (#[trigger] views(paths@)[q])
                == cands@[q].chunk.path@ && lines@[q] == cands@[q].chunk.start_line by {
                if q < i {
                    assert(views(paths@)[q] == pre[q]);
                }
            }
        }
        i += 1;
    }
    proof {
        assert(spec_path_line_keys(views(paths@), lines@) =~= spec_cand_keys(cands@));
    }
    let order = stable_order_by_path_line(&paths, &lines);
    let ghost ord = spec_index_seq(order@);
    let ghost sv = spec_sorted_views(cands@);
    proof {
        lemma_path_line_order_strict();
        lemma_token_sum_permutation(cands@, ord, n as int);
        assert(Seq::new(n as nat, |i: int| i) =~= Seq::new(cands@.len(), |i: int| i));
    }
    let mut r: Vec<MergedCandidate> = Vec::new();
    proof {
        assert(spec_merged_views(r@) =~= Seq::<CandView>::empty());
        assert(ord.take(0) =~= Seq::<int>::empty());
    }
    let mut p: usize = 0;
    while p < order.len()
        invariant
            p <= order.len(),
            n == cands.len(),
            ord == spec_index_seq(order@),
            spec_is_permutation(ord, n as int),
            sv == spec_sorted_views(cands@),
            sv.len() == n,
            ord == spec_stable_order_by(spec_path_line_order(), spec_cand_keys(cands@), n as int),
            spec_token_sum(cands@, ord) <= usize::MAX,
            spec_merged_views(r@) == spec_merge_fold(sv, p as int),
            spec_view_tokens(spec_merged_views(r@)) == spec_token_sum(cands@, ord.take(p as int)),
        decreases order.len() - p,
    {
        let k = order[p];
        proof {
            assert(0 <= ord[p as int] < n);
            assert(sv[p as int] == spec_cand_view(cands@[k as int], seq![k as int]));
            assert(ord.take(p + 1).drop_last() =~= ord.take(p as int));
            assert(ord.take(p + 1).last() == k as int);
            lemma_token_prefix(cands@, ord, p + 1);
        }
        let c = &cands[k];
        let ghost acc = spec_merged_views(r@);
        let mut merged = false;
        if r.len() > 0 {
            let li = r.len() - 1;
            let last_end = r[li].candidate.chunk.end_line;
            let same = chars_eq(
                &to_chars(r[li].candidate.chunk.path.as_str()),
                &to_chars(c.chunk.path.as_str()),
            );
            let near = c.chunk.start_line <= last_end || c.chunk.start_line - last_end
                <= MERGE_GAP_LINES;
            if same && near {
                proof {
                    assert(acc.last() == spec_merged_view(r@[li as int]));
                    assert(spec_near(acc.last(), sv[p as int]));
                    assert forall|q: int| 0 <= q < acc.len() implies (#[trigger] acc[q]).tokens
                        >= 0 by {
                        assert(acc[q] == spec_merged_view(r@[q]));
                    }
                    lemma_view_tokens_nonneg(acc.drop_last());
                    assert(acc.drop_last().len() == acc.len() - 1);
                }
                let m = absorb(&r[li], c, k);
                let ghost mv = spec_merged_view(m);
                r.set(li, m);
                proof {
                    assert(spec_merged_views(r@) =~= acc.update(li as int, mv));
                    assert(acc.update(li as int, mv).drop_last() =~= acc.drop_last());
                }
                merged = true;
            }
        }
        if !merged {
            let cc = copy_candidate(c);
            let mut members: Vec<usize> = Vec::new();
            members.push(k);
            let m = MergedCandidate { candidate: cc, members };
            proof {
                assert(spec_index_seq(m.members@) =~= seq![k as int]);
                assert(spec_merged_view(m) == sv[p as int]);
                if acc.len() > 0 {
                    assert(acc.last() == spec_merged_view(r@[r.len() - 1]));
                }
            }
            let ghost mv = spec_merged_view(m);
            r.push(m);
            proof {
                assert(spec_merged_views(r@) =~= acc.push(mv));
                assert(acc.push(mv).drop_last() =~= acc);
            }
        }
        p += 1;
    }
    r
}

/// The members of merged candidates, one after another.
pub open spec fn spec_all_members(v: Seq<CandView>) -> Seq<int>
    decreases v.len(),
{
    if v.len() == 0 {
        Seq::empty()
    } else {
        spec_all_members(v.drop_last()) + v.last().members
    }
}

proof fn lemma_fold_members(c: Seq<CandidateRecord>, n: int)
    requires
        0 <= n <= c.len(),
    ensures
        spec_all_members(spec_merge_fold(spec_sorted_views(c), n)) == spec_stable_order_by(
            spec_path_line_order(),
            spec_cand_keys(c),
            c.len() as int,
        ).take(n),
    decreases n,
{
    let sv = spec_sorted_views(c);
    let ord = spec_stable_order_by(spec_path_line_order(), spec_cand_keys(c), c.len() as int);
    lemma_path_line_order_strict();
    lemma_stable_order_by(spec_path_line_order(), spec_cand_keys(c), c.len() as int);
    if n == 0 {
        assert(ord.take(0) =~= Seq::<int>::empty());
    } else {
        lemma_fold_members(c, n - 1);
        let acc = spec_merge_fold(sv, n - 1);
        let v = sv[n - 1];
        assert(v.members == seq![ord[n - 1]]);
        assert(ord.take(n) =~= ord.take(n - 1).push(ord[n - 1]));
        if acc.len() > 0 && spec_near(acc.last(), v) {
            let u = acc.update(acc.len() - 1, spec_absorb(acc.last(), v));
            assert(u.drop_last() =~= acc.drop_last());
            assert(spec_all_members(acc) == spec_all_members(acc.drop_last()) + acc.last().members);
            assert(spec_all_members(u) =~= spec_all_members(acc) + seq![ord[n - 1]]);
        } else {
            assert(acc.push(v).drop_last() =~= acc);
            assert(spec_all_members(acc.push(v)) =~= spec_all_members(acc) + seq![ord[n - 1]]);
        }
    }
}

/// Law: merging loses and repeats no candidate; together the merged candidates are built
/// from every candidate exactly once.
pub proof fn law_merge_keeps_every_candidate(c: Seq<CandidateRecord>)
    ensures
        spec_is_permutation(spec_all_members(spec_merge_adjacent(c)), c.len() as int),
{
    lemma_fold_members(c, c.len() as int);
    lemma_path_line_order_strict();
    lemma_stable_order_by(spec_path_line_order(), spec_cand_keys(c), c.len() as int);
    let ord = spec_stable_order_by(spec_path_line_order(), spec_cand_keys(c), c.len() as int);
    assert(ord.take(c.len() as int) =~= ord);
}

} // verus!
