//! Stable ordering of items by a key, the order `sort_by` gives: by a string key (the order
//! of `String`'s `Ord`), or by a path and a line number.
use vstd::prelude::*;

use crate::text::{
    lemma_str_lt_irreflexive, lemma_str_lt_total, lemma_str_lt_transitive, spec_str_lt, str_lt,
    chars_eq, views,
};

verus! {

/// Indices as integers.
pub open spec fn spec_index_seq(v: Seq<usize>) -> Seq<int> {
    v.map_values(|x: usize| x as int)
}

/// `lt` is a strict total order.
pub open spec fn spec_strict_order<K>(lt: spec_fn(K, K) -> bool) -> bool {
    &&& forall|a: K| !#[trigger] lt(a, a)
    &&& forall|a: K, b: K, c: K| #[trigger] lt(a, b) && #[trigger] lt(b, c) ==> lt(a, c)
    &&& forall|a: K, b: K| a != b ==> #[trigger] lt(a, b) || lt(b, a)
}

/// The first position from `p` on in `order` whose key is greater than `k` (the end of
/// `order` when there is none).
pub open spec fn spec_first_greater_by<K>(
    lt: spec_fn(K, K) -> bool,
    keys: Seq<K>,
    order: Seq<int>,
    k: K,
    p: int,
) -> int
    decreases order.len() - p,
{
    if p < 0 || p >= order.len() {
        order.len() as int
    } else if lt(k, keys[order[p]]) {
        p
    } else {
        spec_first_greater_by(lt, keys, order, k, p + 1)
    }
}

/// The stable order of the first `n` items by their keys: each item goes after every earlier
/// item whose key is not greater than its own.
pub open spec fn spec_stable_order_by<K>(lt: spec_fn(K, K) -> bool, keys: Seq<K>, n: int) -> Seq<
    int,
>
    decreases n,
{
    if n <= 0 {
        Seq::empty()
    } else {
        let acc = spec_stable_order_by(lt, keys, n - 1);
        acc.insert(spec_first_greater_by(lt, keys, acc, keys[n - 1], 0), n - 1)
    }
}

/// `order` lists items in non-decreasing key order.
pub open spec fn spec_sorted_by<K>(lt: spec_fn(K, K) -> bool, keys: Seq<K>, order: Seq<int>) -> bool {
    forall|a: int, b: int|
        0 <= a < b < order.len() ==> !lt(#[trigger] keys[order[b]], #[trigger] keys[order[a]])
}

/// `order` lists each of the items `0 .. n` exactly once.
pub open spec fn spec_is_permutation(order: Seq<int>, n: int) -> bool {
    &&& order.len() == n
    &&& forall|a: int| 0 <= a < order.len() ==> 0 <= #[trigger] order[a] < n
    &&& forall|a: int, b: int| 0 <= a < b < order.len() ==> order[a] != order[b]
}

proof fn lemma_first_greater_by<K>(
    lt: spec_fn(K, K) -> bool,
    keys: Seq<K>,
    order: Seq<int>,
    k: K,
    p: int,
)
    requires
        0 <= p <= order.len(),
    ensures
        p <= spec_first_greater_by(lt, keys, order, k, p) <= order.len(),
        forall|q: int|
            p <= q < spec_first_greater_by(lt, keys, order, k, p) ==> !lt(k, #[trigger] keys[order[q]]),
        spec_first_greater_by(lt, keys, order, k, p) < order.len() ==> lt(
            k,
            keys[order[spec_first_greater_by(lt, keys, order, k, p)]],
        ),
    decreases order.len() - p,
{
    if p < order.len() && !lt(k, keys[order[p]]) {
        lemma_first_greater_by(lt, keys, order, k, p + 1);
    }
}

/// The stable order is sorted by key and lists every item once.
pub proof fn lemma_stable_order_by<K>(lt: spec_fn(K, K) -> bool, keys: Seq<K>, n: int)
    requires
        spec_strict_order(lt),
        0 <= n <= keys.len(),
    ensures
        spec_sorted_by(lt, keys, spec_stable_order_by(lt, keys, n)),
        spec_is_permutation(spec_stable_order_by(lt, keys, n), n),
    decreases n,
{
    if n > 0 {
        lemma_stable_order_by(lt, keys, n - 1);
        let acc = spec_stable_order_by(lt, keys, n - 1);
        let k = keys[n - 1];
        let p = spec_first_greater_by(lt, keys, acc, k, 0);
        lemma_first_greater_by(lt, keys, acc, k, 0);
        let r = acc.insert(p, n - 1);
        assert(r =~= spec_stable_order_by(lt, keys, n));
        assert forall|a: int, b: int| 0 <= a < b < r.len() implies !lt(
            #[trigger] keys[r[b]],
            #[trigger] keys[r[a]],
        ) by {
            if b < p {
                assert(r[a] == acc[a] && r[b] == acc[b]);
            } else if b == p {
                assert(r[a] == acc[a]);
                assert(!lt(k, keys[acc[a]]));
            } else if a == p {
                assert(r[b] == acc[b - 1]);
                let x = keys[acc[p]];
                let y = keys[acc[b - 1]];
                assert(lt(k, x));
                if b - 1 > p {
                    assert(!lt(y, x));
                    if x != y {
                        assert(lt(x, y) || lt(y, x));
                        assert(lt(k, x) && lt(x, y));
                    }
                }
                if lt(y, k) {
                    assert(lt(y, k) && lt(k, y));
                    assert(!lt(y, y));
                }
            } else if a < p {
                assert(r[a] == acc[a] && r[b] == acc[b - 1]);
            } else {
                assert(r[a] == acc[a - 1] && r[b] == acc[b - 1]);
            }
        }
        assert forall|a: int| 0 <= a < r.len() implies 0 <= #[trigger] r[a] < n by {
            if a < p {
                assert(r[a] == acc[a]);
            } else if a > p {
                assert(r[a] == acc[a - 1]);
            }
        }
        assert forall|a: int, b: int| 0 <= a < b < r.len() implies r[a] != r[b] by {
            if a < p && b < p {
                assert(r[a] == acc[a] && r[b] == acc[b]);
            } else if a < p && b == p {
                assert(r[a] == acc[a]);
            } else if a < p {
                assert(r[a] == acc[a] && r[b] == acc[b - 1]);
            } else if a == p {
                assert(r[b] == acc[b - 1]);
            } else {
                assert(r[a] == acc[a - 1] && r[b] == acc[b - 1]);
            }
        }
    }
}

/// The order of `String`'s `Ord`.
pub open spec fn spec_str_order() -> spec_fn(Seq<char>, Seq<char>) -> bool {
    |a: Seq<char>, b: Seq<char>| spec_str_lt(a, b)
}

pub proof fn lemma_str_order_strict()
    ensures
        spec_strict_order(spec_str_order()),
{
    let lt = spec_str_order();
    assert forall|a: Seq<char>| !#[trigger] lt(a, a) by {
        lemma_str_lt_irreflexive(a);
    }
    assert forall|a: Seq<char>, b: Seq<char>, c: Seq<char>| #[trigger] lt(a, b) && #[trigger] lt(
        b,
        c,
    ) implies lt(a, c) by {
        lemma_str_lt_transitive(a, b, c);
    }
    assert forall|a: Seq<char>, b: Seq<char>| a != b implies #[trigger] lt(a, b) || lt(b, a) by {
        lemma_str_lt_total(a, b);
    }
}

/// The stable order of the first `n` items by string key.
pub open spec fn spec_stable_order(keys: Seq<Seq<char>>, n: int) -> Seq<int> {
    spec_stable_order_by(spec_str_order(), keys, n)
}

/// `order` lists items in non-decreasing string-key order.
pub open spec fn spec_key_sorted(keys: Seq<Seq<char>>, order: Seq<int>) -> bool {
    spec_sorted_by(spec_str_order(), keys, order)
}

/// The stable order by string key is sorted and lists every item once.
pub proof fn lemma_stable_order(keys: Seq<Seq<char>>, n: int)
    requires
        0 <= n <= keys.len(),
    ensures
        spec_key_sorted(keys, spec_stable_order(keys, n)),
        spec_is_permutation(spec_stable_order(keys, n), n),
{
    lemma_str_order_strict();
    lemma_stable_order_by(spec_str_order(), keys, n);
}

/// The stable order of items by string key (see `spec_stable_order`): sorted by key, equal
/// keys in their original order, each item once.
pub fn stable_order_by_key(keys: &Vec<Vec<char>>) -> (r: Vec<usize>)
    ensures
        spec_index_seq(r@) == spec_stable_order(views(keys@), keys.len() as int),
        spec_key_sorted(views(keys@), spec_index_seq(r@)),
        spec_is_permutation(spec_index_seq(r@), keys.len() as int),
{
    let ghost kv = views(keys@);
    let ghost lt = spec_str_order();
    let mut order: Vec<usize> = Vec::new();
    proof {
        assert(spec_index_seq(order@) =~= Seq::<int>::empty());
    }
    let mut n: usize = 0;
    while n < keys.len()
        invariant
            n <= keys.len(),
            kv == views(keys@),
            lt == spec_str_order(),
            spec_index_seq(order@) == spec_stable_order(kv, n as int),
            spec_is_permutation(spec_index_seq(order@), n as int),
        decreases keys.len() - n,
    {
        proof {
            lemma_stable_order(kv, n as int);
        }
        let ghost acc = spec_index_seq(order@);
        let mut p: usize = 0;
        while p < order.len() && !str_lt(&keys[n], &keys[order[p]])
            invariant
                p <= order.len(),
                n < keys.len(),
                kv == views(keys@),
                lt == spec_str_order(),
                acc == spec_index_seq(order@),
                spec_is_permutation(acc, n as int),
                spec_first_greater_by(lt, kv, acc, kv[n as int], 0) == spec_first_greater_by(
                    lt,
                    kv,
                    acc,
                    kv[n as int],
                    p as int,
                ),
            decreases order.len() - p,
        {
            proof {
                assert(0 <= acc[p as int] < n);
                assert(kv[acc[p as int]] == keys@[order@[p as int] as int]@);
            }
            p += 1;
        }
        proof {
            if p < order.len() {
                assert(0 <= acc[p as int] < n);
                assert(kv[acc[p as int]] == keys@[order@[p as int] as int]@);
            }
            assert(kv[n as int] == keys@[n as int]@);
        }
        order.insert(p, n);
        proof {
            assert(spec_index_seq(order@) =~= acc.insert(p as int, n as int));
            lemma_stable_order(kv, n + 1);
        }
        n += 1;
    }
    proof {
        lemma_stable_order(kv, keys.len() as int);
    }
    order
}

/// The order of (path, line) pairs: by path, then by line.
pub open spec fn spec_path_line_order() -> spec_fn((Seq<char>, int), (Seq<char>, int)) -> bool {
    |a: (Seq<char>, int), b: (Seq<char>, int)| spec_str_lt(a.0, b.0) || (a.0 == b.0 && a.1 < b.1)
}

pub proof fn lemma_path_line_order_strict()
    ensures
        spec_strict_order(spec_path_line_order()),
{
    let lt = spec_path_line_order();
    assert forall|a: (Seq<char>, int)| !#[trigger] lt(a, a) by {
        lemma_str_lt_irreflexive(a.0);
    }
    assert forall|a: (Seq<char>, int), b: (Seq<char>, int), c: (Seq<char>, int)|
        #[trigger] lt(a, b) && #[trigger] lt(b, c) implies lt(a, c) by {
        if spec_str_lt(a.0, b.0) && spec_str_lt(b.0, c.0) {
            lemma_str_lt_transitive(a.0, b.0, c.0);
        }
    }
    assert forall|a: (Seq<char>, int), b: (Seq<char>, int)| a != b implies #[trigger] lt(a, b)
        || lt(b, a) by {
        if a.0 != b.0 {
            lemma_str_lt_total(a.0, b.0);
        }
    }
}

/// The (path, line) keys of items.
pub open spec fn spec_path_line_keys(paths: Seq<Seq<char>>, lines: Seq<usize>) -> Seq<(Seq<char>, int)> {
    Seq::new(paths.len(), |i: int| (paths[i], lines[i] as int))
}

fn path_line_lt(pa: &Vec<char>, la: usize, pb: &Vec<char>, lb: usize) -> (r: bool)
    ensures
        r == (spec_path_line_order())((pa@, la as int), (pb@, lb as int)),
{
    str_lt(pa, pb) || (chars_eq(pa, pb) && la < lb)
}

/// The stable order of items by path, then line (see `spec_stable_order_by`).
pub fn stable_order_by_path_line(paths: &Vec<Vec<char>>, lines: &Vec<usize>) -> (r: Vec<usize>)
    requires
        paths.len() == lines.len(),
    ensures
        spec_index_seq(r@) == spec_stable_order_by(
            spec_path_line_order(),
            spec_path_line_keys(views(paths@), lines@),
            paths.len() as int,
        ),
        spec_sorted_by(
            spec_path_line_order(),
            spec_path_line_keys(views(paths@), lines@),
            spec_index_seq(r@),
        ),
        spec_is_permutation(spec_index_seq(r@), paths.len() as int),
{
    let ghost kv = spec_path_line_keys(views(paths@), lines@);
    let ghost lt = spec_path_line_order();
    proof {
        lemma_path_line_order_strict();
    }
    let mut order: Vec<usize> = Vec::new();
    proof {
        assert(spec_index_seq(order@) =~= Seq::<int>::empty());
    }
    let mut n: usize = 0;
    while n < paths.len()
        invariant
            n <= paths.len(),
            paths.len() == lines.len(),
            kv == spec_path_line_keys(views(paths@), lines@),
            lt == spec_path_line_order(),
            spec_strict_order(lt),
            spec_index_seq(order@) == spec_stable_order_by(lt, kv, n as int),
            spec_is_permutation(spec_index_seq(order@), n as int),
        decreases paths.len() - n,
    {
        proof {
            lemma_stable_order_by(lt, kv, n as int);
        }
        let ghost acc = spec_index_seq(order@);
        let mut p: usize = 0;
        while p < order.len() && !path_line_lt(&paths[n], lines[n], &paths[order[p]], lines[order[p]])
            invariant
                p <= order.len(),
                n < paths.len(),
                paths.len() == lines.len(),
                kv == spec_path_line_keys(views(paths@), lines@),
                lt == spec_path_line_order(),
                acc == spec_index_seq(order@),
                spec_is_permutation(acc, n as int),
                spec_first_greater_by(lt, kv, acc, kv[n as int], 0) == spec_first_greater_by(
                    lt,
                    kv,
                    acc,
                    kv[n as int],
                    p as int,
                ),
            decreases order.len() - p,
        {
            proof {
                assert(0 <= acc[p as int] < n);
                assert(kv[acc[p as int]] == (
                    paths@[order@[p as int] as int]@,
                    lines@[order@[p as int] as int] as int,
                ));
            }
            p += 1;
        }
        proof {
            if p < order.len() {
                assert(0 <= acc[p as int] < n);
                assert(kv[acc[p as int]] == (
                    paths@[order@[p as int] as int]@,
                    lines@[order@[p as int] as int] as int,
                ));
            }
            assert(kv[n as int] == (paths@[n as int]@, lines@[n as int] as int));
        }
        order.insert(p, n);
        proof {
            assert(spec_index_seq(order@) =~= acc.insert(p as int, n as int));
            lemma_stable_order_by(lt, kv, n + 1);
        }
        n += 1;
    }
    proof {
        lemma_stable_order_by(lt, kv, paths.len() as int);
    }
    order
}

} // verus!
