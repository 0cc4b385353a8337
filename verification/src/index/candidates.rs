//! Candidate lists of the local search: their signature and the order a re-rank gives them.
use vstd::prelude::*;

use crate::hashing::{sha256_hex, sha256_utf8, spec_hex};
use crate::index::local_search::CandidateView;
use crate::text::{
    append_chars, chars_eq, decimal, spec_decimal, string_from_chars, string_views, to_chars,
};

verus! {

/// The text a candidate list is signed by: for every candidate in order, its id, content
/// hash, start line and end line (in decimal), all concatenated.
pub open spec fn spec_signature_text(c: Seq<CandidateView>) -> Seq<char>
    decreases c.len(),
{
    if c.len() == 0 {
        Seq::empty()
    } else {
        spec_signature_text(c.drop_last()) + c.last().id@ + c.last().content_hash@ + spec_decimal(
            c.last().start_line as nat,
        ) + spec_decimal(c.last().end_line as nat)
    }
}

/// Signature of a candidate list: SHA-256, in lowercase hexadecimal, of its signature text.
pub fn build_candidate_signature(candidates: &Vec<CandidateView>) -> (r: String)
    ensures
        r@ == spec_hex(sha256_utf8(spec_signature_text(candidates@))),
{
    let mut text: Vec<char> = Vec::new();
    let mut i: usize = 0;
    while i < candidates.len()
        invariant
            i <= candidates.len(),
            text@ == spec_signature_text(candidates@.take(i as int)),
        decreases candidates.len() - i,
    {
        let c = &candidates[i];
        append_chars(&mut text, &to_chars(c.id.as_str()));
        append_chars(&mut text, &to_chars(c.content_hash.as_str()));
        append_chars(&mut text, &decimal(c.start_line as u64));
        append_chars(&mut text, &decimal(c.end_line as u64));
        proof {
            assert(candidates@.take(i + 1).drop_last() =~= candidates@.take(i as int));
            assert(candidates@.take(i + 1).last() == candidates@[i as int]);
        }
        i += 1;
    }
    proof {
        assert(candidates@.take(candidates.len() as int) =~= candidates@);
    }
    let s = string_from_chars(text.as_slice());
    sha256_hex(s.as_str())
}

/// Index of the last of the first `k` ids that equals `id`, or -1.
pub open spec fn spec_last_with_id(ids: Seq<Seq<char>>, id: Seq<char>, k: int) -> int
    decreases k,
{
    if k <= 0 {
        -1
    } else if ids[k - 1] == id {
        k - 1
    } else {
        spec_last_with_id(ids, id, k - 1)
    }
}

proof fn lemma_last_with_id_range(ids: Seq<Seq<char>>, id: Seq<char>, k: int)
    requires
        0 <= k <= ids.len(),
    ensures
        -1 <= spec_last_with_id(ids, id, k) < k,
    decreases k,
{
    if k > 0 {
        lemma_last_with_id_range(ids, id, k - 1);
    }
}

proof fn lemma_with_rank_range(ranks: Seq<usize>, r: int, k: int)
    requires
        0 <= k <= ranks.len(),
    ensures
        -1 <= spec_with_rank(ranks, r, k) < k,
    decreases k,
{
    if k > 0 {
        lemma_with_rank_range(ranks, r, k - 1);
    }
}

/// Candidate `j` stands for its id: no later candidate has the same id.
pub open spec fn spec_kept(ids: Seq<Seq<char>>, j: int) -> bool {
    0 <= j < ids.len() && spec_last_with_id(ids, ids[j], ids.len() as int) == j
}

/// The candidates the first `n` ordered ids name, in that order, each once.
pub open spec fn spec_picked(ids: Seq<Seq<char>>, ordered: Seq<Seq<char>>, n: int) -> Seq<int>
    decreases n,
{
    if n <= 0 {
        Seq::empty()
    } else {
        let acc = spec_picked(ids, ordered, n - 1);
        let j = spec_last_with_id(ids, ordered[n - 1], ids.len() as int);
        if j >= 0 && !acc.contains(j) {
            acc.push(j)
        } else {
            acc
        }
    }
}

/// Index of the last of the first `k` candidates whose rank is `r`, or -1.
pub open spec fn spec_with_rank(ranks: Seq<usize>, r: int, k: int) -> int
    decreases k,
{
    if k <= 0 {
        -1
    } else if ranks[k - 1] == r {
        k - 1
    } else {
        spec_with_rank(ranks, r, k - 1)
    }
}

/// Whether candidate `j` still has to be placed after `placed`.
pub open spec fn spec_unplaced(ids: Seq<Seq<char>>, placed: Seq<int>, j: int) -> bool {
    j >= 0 && spec_kept(ids, j) && !placed.contains(j)
}

/// `placed` followed by the unplaced candidates of ranks `0` to `n - 1`, in rank order.
pub open spec fn spec_by_rank(ids: Seq<Seq<char>>, ranks: Seq<usize>, placed: Seq<int>, n: int) -> Seq<
    int,
>
    decreases n,
{
    if n <= 0 {
        placed
    } else {
        let acc = spec_by_rank(ids, ranks, placed, n - 1);
        let j = spec_with_rank(ranks, n - 1, ranks.len() as int);
        if spec_unplaced(ids, acc, j) {
            acc.push(j)
        } else {
            acc
        }
    }
}

/// `placed` followed by the unplaced candidates among the first `n`, in index order.
pub open spec fn spec_by_index(ids: Seq<Seq<char>>, placed: Seq<int>, n: int) -> Seq<int>
    decreases n,
{
    if n <= 0 {
        placed
    } else {
        let acc = spec_by_index(ids, placed, n - 1);
        if spec_unplaced(ids, acc, n - 1) {
            acc.push(n - 1)
        } else {
            acc
        }
    }
}

/// The order a re-rank gives: the candidates its ids name, in its order; then the others in
/// the order of their ranks (their score order); then any candidate no rank names.  A
/// candidate whose id a later candidate repeats is left out.
pub open spec fn spec_rerank_order(
    ids: Seq<Seq<char>>,
    ranks: Seq<usize>,
    ordered: Seq<Seq<char>>,
) -> Seq<int> {
    let picked = spec_picked(ids, ordered, ordered.len() as int);
    let by_rank = spec_by_rank(ids, ranks, picked, ranks.len() as int);
    spec_by_index(ids, by_rank, ids.len() as int)
}


/// No index occurs twice in `s`.
pub open spec fn spec_no_dups(s: Seq<int>) -> bool {
    forall|a: int, b: int| 0 <= a < b < s.len() ==> s[a] != s[b]
}

/// Every index in `s` stands for its id.
pub open spec fn spec_all_kept(ids: Seq<Seq<char>>, s: Seq<int>) -> bool {
    forall|a: int| 0 <= a < s.len() ==> spec_kept(ids, #[trigger] s[a])
}

proof fn lemma_last_with_id_names(ids: Seq<Seq<char>>, id: Seq<char>, k: int)
    requires
        0 <= k <= ids.len(),
        spec_last_with_id(ids, id, k) >= 0,
    ensures
        ids[spec_last_with_id(ids, id, k)] == id,
    decreases k,
{
    if k > 0 && ids[k - 1] != id {
        lemma_last_with_id_names(ids, id, k - 1);
    }
}

proof fn lemma_push_fresh(ids: Seq<Seq<char>>, s: Seq<int>, j: int)
    requires
        spec_no_dups(s),
        spec_all_kept(ids, s),
        spec_kept(ids, j),
        !s.contains(j),
    ensures
        spec_no_dups(s.push(j)),
        spec_all_kept(ids, s.push(j)),
{
    let t = s.push(j);
    assert forall|a: int, b: int| 0 <= a < b < t.len() implies t[a] != t[b] by {
        if b == s.len() {
            assert(s[a] == t[a]);
        }
    }
    assert forall|a: int| 0 <= a < t.len() implies spec_kept(ids, #[trigger] t[a]) by {
        if a < s.len() {
            assert(t[a] == s[a]);
        }
    }
}

proof fn lemma_picked(ids: Seq<Seq<char>>, ordered: Seq<Seq<char>>, n: int)
    requires
        0 <= n <= ordered.len(),
    ensures
        spec_no_dups(spec_picked(ids, ordered, n)),
        spec_all_kept(ids, spec_picked(ids, ordered, n)),
    decreases n,
{
    if n > 0 {
        lemma_picked(ids, ordered, n - 1);
        let acc = spec_picked(ids, ordered, n - 1);
        let j = spec_last_with_id(ids, ordered[n - 1], ids.len() as int);
        if j >= 0 && !acc.contains(j) {
            lemma_last_with_id_range(ids, ordered[n - 1], ids.len() as int);
            lemma_last_with_id_names(ids, ordered[n - 1], ids.len() as int);
            lemma_push_fresh(ids, acc, j);
        }
    }
}

proof fn lemma_by_rank(ids: Seq<Seq<char>>, ranks: Seq<usize>, placed: Seq<int>, n: int)
    requires
        0 <= n,
        spec_no_dups(placed),
        spec_all_kept(ids, placed),
    ensures
        spec_no_dups(spec_by_rank(ids, ranks, placed, n)),
        spec_all_kept(ids, spec_by_rank(ids, ranks, placed, n)),
        forall|j: int| placed.contains(j) ==> #[trigger] spec_by_rank(ids, ranks, placed, n).contains(j),
    decreases n,
{
    if n > 0 {
        lemma_by_rank(ids, ranks, placed, n - 1);
        let acc = spec_by_rank(ids, ranks, placed, n - 1);
        let j = spec_with_rank(ranks, n - 1, ranks.len() as int);
        if spec_unplaced(ids, acc, j) {
            lemma_push_fresh(ids, acc, j);
            assert forall|x: int| placed.contains(x) implies #[trigger] acc.push(j).contains(x) by {
                assert(acc.contains(x));
                let k = choose|k: int| 0 <= k < acc.len() && acc[k] == x;
                assert(acc.push(j)[k] == x);
            }
        }
    }
}

proof fn lemma_by_index(ids: Seq<Seq<char>>, placed: Seq<int>, n: int)
    requires
        0 <= n <= ids.len(),
        spec_no_dups(placed),
        spec_all_kept(ids, placed),
    ensures
        spec_no_dups(spec_by_index(ids, placed, n)),
        spec_all_kept(ids, spec_by_index(ids, placed, n)),
        forall|j: int| placed.contains(j) ==> #[trigger] spec_by_index(ids, placed, n).contains(j),
        forall|j: int| 0 <= j < n && spec_kept(ids, j) ==> #[trigger] spec_by_index(ids, placed, n).contains(j),
    decreases n,
{
    if n > 0 {
        lemma_by_index(ids, placed, n - 1);
        let acc = spec_by_index(ids, placed, n - 1);
        if spec_unplaced(ids, acc, n - 1) {
            lemma_push_fresh(ids, acc, n - 1);
            let t = acc.push(n - 1);
            assert forall|x: int| acc.contains(x) implies #[trigger] t.contains(x) by {
                let k = choose|k: int| 0 <= k < acc.len() && acc[k] == x;
                assert(t[k] == x);
            }
            assert(t[acc.len() as int] == n - 1);
        }
    }
}

/// Law: a re-rank reorders and never loses or repeats a candidate.  The order it gives
/// holds each candidate that stands for its id (no later candidate has the same id) exactly
/// once, and nothing else.
pub proof fn law_rerank_order_is_permutation(
    ids: Seq<Seq<char>>,
    ranks: Seq<usize>,
    ordered: Seq<Seq<char>>,
)
    ensures
        spec_no_dups(spec_rerank_order(ids, ranks, ordered)),
        forall|j: int| #[trigger] spec_rerank_order(ids, ranks, ordered).contains(j) <==> spec_kept(ids, j),
{
    let picked = spec_picked(ids, ordered, ordered.len() as int);
    lemma_picked(ids, ordered, ordered.len() as int);
    let by_rank = spec_by_rank(ids, ranks, picked, ranks.len() as int);
    lemma_by_rank(ids, ranks, picked, ranks.len() as int);
    lemma_by_index(ids, by_rank, ids.len() as int);
    let r = spec_rerank_order(ids, ranks, ordered);
    assert forall|j: int| #[trigger] r.contains(j) <==> spec_kept(ids, j) by {
        if r.contains(j) {
            let k = choose|k: int| 0 <= k < r.len() && r[k] == j;
            assert(spec_kept(ids, r[k]));
        }
    }
}

fn last_with_id(ids: &Vec<Vec<char>>, id: &Vec<char>) -> (j: Option<usize>)
    ensures
        match j {
            Some(k) => k == spec_last_with_id(views(ids@), id@, ids.len() as int) && k < ids.len(),
            None => spec_last_with_id(views(ids@), id@, ids.len() as int) == -1,
        },
{
    proof {
        lemma_last_with_id_range(views(ids@), id@, ids.len() as int);
    }
    let mut k: usize = ids.len();
    while k > 0
        invariant
            k <= ids.len(),
            spec_last_with_id(views(ids@), id@, ids.len() as int) == spec_last_with_id(
                views(ids@),
                id@,
                k as int,
            ),
        decreases k,
    {
        if chars_eq(&ids[k - 1], id) {
            proof {
                assert(views(ids@)[k - 1] == ids@[k - 1]@);
            }
            return Some(k - 1);
        }
        proof {
            assert(views(ids@)[k - 1] == ids@[k - 1]@);
        }
        k -= 1;
    }
    None
}

fn with_rank(ranks: &Vec<usize>, r: usize) -> (j: Option<usize>)
    ensures
        match j {
            Some(k) => k == spec_with_rank(ranks@, r as int, ranks.len() as int) && k < ranks.len(),
            None => spec_with_rank(ranks@, r as int, ranks.len() as int) == -1,
        },
{
    proof {
        lemma_with_rank_range(ranks@, r as int, ranks.len() as int);
    }
    let mut k: usize = ranks.len();
    while k > 0
        invariant
            k <= ranks.len(),
            spec_with_rank(ranks@, r as int, ranks.len() as int) == spec_with_rank(
                ranks@,
                r as int,
                k as int,
            ),
        decreases k,
    {
        if ranks[k - 1] == r {
            return Some(k - 1);
        }
        k -= 1;
    }
    None
}

use crate::text::views;

fn contains_index(v: &Vec<usize>, j: usize) -> (b: bool)
    ensures
        b == v@.map_values(|x: usize| x as int).contains(j as int),
{
    let ghost m = v@.map_values(|x: usize| x as int);
    let mut i: usize = 0;
    while i < v.len()
        invariant
            i <= v.len(),
            m == v@.map_values(|x: usize| x as int),
            forall|k: int| 0 <= k < i ==> m[k] != j,
        decreases v.len() - i,
    {
        if v[i] == j {
            proof {
                assert(m[i as int] == j);
            }
            return true;
        }
        i += 1;
    }
    false
}

pub open spec fn spec_indices(v: Seq<usize>) -> Seq<int> {
    v.map_values(|x: usize| x as int)
}

fn is_kept(ids: &Vec<Vec<char>>, j: usize) -> (b: bool)
    requires
        j < ids.len(),
    ensures
        b == spec_kept(views(ids@), j as int),
{
    proof {
        assert(views(ids@)[j as int] == ids@[j as int]@);
    }
    match last_with_id(ids, &ids[j]) {
        Some(k) => k == j,
        None => false,
    }
}

/// The order in which the candidates with ids `ids` stand after a re-rank that answered
/// `ordered_ids`: indices into `ids` (see `spec_rerank_order`).  `score_rank[j]` is the
/// position of candidate `j` in descending score order.
pub fn apply_rerank_order(ids: &Vec<String>, score_rank: &Vec<usize>, ordered_ids: &Vec<String>) -> (r:
    Vec<usize>)
    ensures
        spec_indices(r@) == spec_rerank_order(
            string_views(ids@),
            score_rank@,
            string_views(ordered_ids@),
        ),
{
    let mut idc: Vec<Vec<char>> = Vec::new();
    let mut i: usize = 0;
    while i < ids.len()
        invariant
            i <= ids.len(),
            views(idc@) == string_views(ids@).take(i as int),
        decreases ids.len() - i,
    {
        let ghost pre = views(idc@);
        idc.push(to_chars(ids[i].as_str()));
        proof {
            assert(views(idc@) =~= pre.push(ids@[i as int]@));
            assert(string_views(ids@).take(i + 1) =~= string_views(ids@).take(i as int).push(
                ids@[i as int]@,
            ));
        }
        i += 1;
    }
    proof {
        assert(string_views(ids@).take(ids.len() as int) =~= string_views(ids@));
    }
    let ghost iv = views(idc@);
    let ghost ov = string_views(ordered_ids@);
    let mut r: Vec<usize> = Vec::new();
    proof {
        assert(spec_indices(r@) =~= Seq::<int>::empty());
    }
    let mut n: usize = 0;
    while n < ordered_ids.len()
        invariant
            n <= ordered_ids.len(),
            iv == views(idc@),
            idc.len() == ids.len(),
            ov == string_views(ordered_ids@),
            spec_indices(r@) == spec_picked(iv, ov, n as int),
        decreases ordered_ids.len() - n,
    {
        let o = to_chars(ordered_ids[n].as_str());
        let j = last_with_id(&idc, &o);
        proof {
            assert(ov[n as int] == o@);
        }
        if let Some(j) = j {
            if !contains_index(&r, j) {
                let ghost pre = r@;
                r.push(j);
                proof {
                    assert(spec_indices(r@) =~= spec_indices(pre).push(j as int));
                }
            }
        }
        n += 1;
    }
    let ghost picked = spec_indices(r@);
    let mut k: usize = 0;
    while k < score_rank.len()
        invariant
            k <= score_rank.len(),
            iv == views(idc@),
            idc.len() == ids.len(),
            spec_indices(r@) == spec_by_rank(iv, score_rank@, picked, k as int),
        decreases score_rank.len() - k,
    {
        let j = with_rank(score_rank, k);
        if let Some(j) = j {
            if j < idc.len() && is_kept(&idc, j) && !contains_index(&r, j) {
                let ghost pre = r@;
                r.push(j);
                proof {
                    assert(spec_indices(r@) =~= spec_indices(pre).push(j as int));
                }
            }
        }
        k += 1;
    }
    let ghost by_rank = spec_indices(r@);
    let mut m: usize = 0;
    while m < idc.len()
        invariant
            m <= idc.len(),
            iv == views(idc@),
            idc.len() == ids.len(),
            spec_indices(r@) == spec_by_index(iv, by_rank, m as int),
        decreases idc.len() - m,
    {
        if is_kept(&idc, m) && !contains_index(&r, m) {
            let ghost pre = r@;
            r.push(m);
            proof {
                assert(spec_indices(r@) =~= spec_indices(pre).push(m as int));
            }
        }
        m += 1;
    }
    r
}

} // verus!
