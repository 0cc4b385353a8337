//! Remote index bookkeeping: blob splitting, content clean-up, exclusion rules and upload planning.
use vstd::prelude::*;
use vstd::string::StringSliceAdditionalSpecFns;

use crate::hashing::{sha256_hex, sha256_utf8, spec_hex};
use crate::json::{
    json_str, json_str_array, spec_is_empty_array, spec_is_number, spec_is_str, spec_is_str_array,
    JsonValue,
};
use crate::text::{
    append_chars, contains_string, decimal, lit, slice_chars, spec_decimal, spec_split, split_char,
    string_from_chars, string_views, to_chars, views,
};

verus! {

/// The byte `*`.
pub open spec fn star_byte() -> u8 {
    42u8
}

/// The byte `?`.
pub open spec fn qmark_byte() -> u8 {
    63u8
}

/// Glob matching of `t[i..]` against `p[j..]`: `*` matches any run of bytes (also empty),
/// `?` matches exactly one byte, every other byte matches itself.
pub open spec fn spec_glob_at(t: Seq<u8>, p: Seq<u8>, i: int, j: int) -> bool
    decreases t.len() - i + p.len() - j,
{
    if !(0 <= i <= t.len() && 0 <= j <= p.len()) {
        false
    } else if j == p.len() {
        i == t.len()
    } else if p[j] == star_byte() {
        spec_glob_at(t, p, i, j + 1) || (i < t.len() && spec_glob_at(t, p, i + 1, j))
    } else {
        i < t.len() && (p[j] == qmark_byte() || p[j] == t[i]) && spec_glob_at(t, p, i + 1, j + 1)
    }
}

/// Glob matching of a whole text against a whole pattern.
pub open spec fn spec_glob(t: Seq<u8>, p: Seq<u8>) -> bool {
    spec_glob_at(t, p, 0, 0)
}

/// Every byte of `p` from `j` on is `*`.
pub open spec fn spec_all_stars_from(p: Seq<u8>, j: int) -> bool {
    forall|x: int| j <= x < p.len() ==> p[x] == star_byte()
}

/// The text holds no `*` byte.
pub open spec fn spec_star_free(t: Seq<u8>) -> bool {
    forall|x: int| 0 <= x < t.len() ==> t[x] != star_byte()
}

/// The scan that `wildcard_match` performs, one step per call: literal (or `?`) match first,
/// then a `*` that remembers where it stood, then a return to the last `*` with one more
/// byte swallowed. `star < 0` means no `*` was seen yet.
pub open spec fn spec_wild_run(t: Seq<u8>, p: Seq<u8>, ti: int, pi: int, star: int, mi: int) -> bool
    decreases t.len() + 1 - (if star < 0 {
        -1
    } else {
        mi
    }), t.len() - ti, p.len() - pi,
{
    if !(0 <= ti <= t.len() && 0 <= pi <= p.len() && -1 <= star < pi && (star >= 0 ==> 0 <= mi
        <= ti)) {
        false
    } else if ti < t.len() {
        if pi < p.len() && (p[pi] == qmark_byte() || p[pi] == t[ti]) {
            spec_wild_run(t, p, ti + 1, pi + 1, star, mi)
        } else if pi < p.len() && p[pi] == star_byte() {
            spec_wild_run(t, p, ti, pi + 1, pi, ti)
        } else if star >= 0 {
            spec_wild_run(t, p, mi + 1, star + 1, star, mi + 1)
        } else {
            false
        }
    } else {
        spec_all_stars_from(p, pi)
    }
}

/// `p[j..j + len]` holds no `*` and matches `t[i..i + len]` byte by byte.
pub open spec fn spec_seg_ok(t: Seq<u8>, p: Seq<u8>, i: int, j: int, len: int) -> bool {
    &&& 0 <= len
    &&& 0 <= i
    &&& 0 <= j
    &&& i + len <= t.len()
    &&& j + len <= p.len()
    &&& forall|x: int|
        0 <= x < len ==> #[trigger] p[j + x] != star_byte() && (p[j + x] == qmark_byte() || p[j + x] == t[i
            + x])
}

/// There is a split point `k >= i` from which `t[k..]` matches `p[j..]`.
pub open spec fn spec_glob_some_from(t: Seq<u8>, p: Seq<u8>, i: int, j: int) -> bool {
    exists|k: int| i <= k <= t.len() && #[trigger] spec_glob_at(t, p, k, j)
}

proof fn lemma_star(t: Seq<u8>, p: Seq<u8>, i: int, j: int)
    requires
        0 <= i <= t.len(),
        0 <= j < p.len(),
        p[j] == star_byte(),
    ensures
        spec_glob_at(t, p, i, j) == spec_glob_some_from(t, p, i, j + 1),
    decreases t.len() - i,
{
    assert(spec_glob_at(t, p, i, j) == (spec_glob_at(t, p, i, j + 1) || (i < t.len()
        && spec_glob_at(t, p, i + 1, j))));
    if spec_glob_at(t, p, i, j + 1) {
        assert(spec_glob_some_from(t, p, i, j + 1));
    }
    if i < t.len() {
        lemma_star(t, p, i + 1, j);
        if spec_glob_some_from(t, p, i + 1, j + 1) {
            let k = choose|k: int| i + 1 <= k <= t.len() && #[trigger] spec_glob_at(t, p, k, j + 1);
            assert(i <= k <= t.len() && spec_glob_at(t, p, k, j + 1));
        }
        if spec_glob_some_from(t, p, i, j + 1) {
            let k = choose|k: int| i <= k <= t.len() && #[trigger] spec_glob_at(t, p, k, j + 1);
            if k > i {
                assert(spec_glob_some_from(t, p, i + 1, j + 1));
            }
        }
    } else {
        if spec_glob_some_from(t, p, i, j + 1) {
            let k = choose|k: int| i <= k <= t.len() && #[trigger] spec_glob_at(t, p, k, j + 1);
            assert(k == i);
        }
    }
}

proof fn lemma_seg(t: Seq<u8>, p: Seq<u8>, i: int, j: int, len: int)
    requires
        spec_seg_ok(t, p, i, j, len),
    ensures
        spec_glob_at(t, p, i, j) == spec_glob_at(t, p, i + len, j + len),
    decreases len,
{
    if len > 0 {
        assert(p[j + 0] != star_byte());
        assert(spec_seg_ok(t, p, i + 1, j + 1, len - 1)) by {
            assert forall|x: int| 0 <= x < len - 1 implies #[trigger] p[(j + 1) + x] != star_byte() && (
            p[(j + 1) + x] == qmark_byte() || p[(j + 1) + x] == t[(i + 1) + x]) by {
                assert(p[j + (x + 1)] != star_byte());
                assert(j + (x + 1) == (j + 1) + x);
            }
        }
        lemma_seg(t, p, i + 1, j + 1, len - 1);
    }
}

/// A star-free stretch of pattern must consume that many text bytes.
proof fn lemma_forward(t: Seq<u8>, p: Seq<u8>, k: int, j: int, len: int)
    requires
        0 <= len,
        0 <= k <= t.len(),
        0 <= j,
        j + len <= p.len(),
        forall|x: int| 0 <= x < len ==> #[trigger] p[j + x] != star_byte(),
        spec_glob_at(t, p, k, j),
    ensures
        k + len <= t.len(),
        spec_glob_at(t, p, k + len, j + len),
    decreases len,
{
    if len > 0 {
        assert(p[j + 0] != star_byte());
        assert forall|x: int| 0 <= x < len - 1 implies #[trigger] p[(j + 1) + x] != star_byte() by {
            assert(p[j + (x + 1)] != star_byte());
            assert(j + (x + 1) == (j + 1) + x);
        }
        lemma_forward(t, p, k + 1, j + 1, len - 1);
    }
}

proof fn lemma_tail_stars(t: Seq<u8>, p: Seq<u8>, j: int)
    requires
        0 <= j <= p.len(),
    ensures
        spec_glob_at(t, p, t.len() as int, j) == spec_all_stars_from(p, j),
    decreases p.len() - j,
{
    if j < p.len() {
        lemma_tail_stars(t, p, j + 1);
    }
}

/// The glob-side invariant of the scan, for star-free texts.
pub open spec fn spec_scan_inv(t: Seq<u8>, p: Seq<u8>, ti: int, pi: int, star: int, mi: int) -> bool {
    if star < 0 {
        spec_glob(t, p) == spec_glob_at(t, p, ti, pi)
    } else {
        &&& 0 <= star < p.len()
        &&& p[star] == star_byte()
        &&& pi - (star + 1) == ti - mi
        &&& spec_seg_ok(t, p, mi, star + 1, ti - mi)
        &&& spec_glob(t, p) == spec_glob_some_from(t, p, mi, star + 1)
    }
}

proof fn lemma_step_star(t: Seq<u8>, p: Seq<u8>, ti: int, pi: int, star: int, mi: int)
    requires
        spec_star_free(t),
        0 <= ti <= t.len(),
        0 <= pi < p.len(),
        p[pi] == star_byte(),
        star >= 0 ==> 0 <= mi <= ti,
        spec_scan_inv(t, p, ti, pi, star, mi),
    ensures
        spec_scan_inv(t, p, ti, pi + 1, pi, ti),
{
    lemma_star(t, p, ti, pi);
    if star >= 0 {
        let s = star;
        let len = ti - mi;
        assert(spec_seg_ok(t, p, ti, pi + 1, 0));
        if spec_glob_some_from(t, p, mi, s + 1) {
            let k = choose|k: int| mi <= k <= t.len() && #[trigger] spec_glob_at(t, p, k, s + 1);
            assert forall|x: int| 0 <= x < len implies #[trigger] p[(s + 1) + x] != star_byte() by {
                assert(spec_seg_ok(t, p, mi, s + 1, len));
            }
            lemma_forward(t, p, k, s + 1, len);
            lemma_star(t, p, k + len, pi);
            let k2 = choose|k2: int|
                k + len <= k2 <= t.len() && #[trigger] spec_glob_at(t, p, k2, pi + 1);
            assert(ti <= k2 <= t.len() && spec_glob_at(t, p, k2, pi + 1));
        }
        if spec_glob_some_from(t, p, ti, pi + 1) {
            lemma_seg(t, p, mi, s + 1, len);
            assert(spec_glob_at(t, p, mi, s + 1));
            assert(spec_glob_some_from(t, p, mi, s + 1));
        }
    } else {
        assert(spec_seg_ok(t, p, ti, pi + 1, 0));
    }
}

proof fn lemma_step_match(t: Seq<u8>, p: Seq<u8>, ti: int, pi: int, star: int, mi: int)
    requires
        spec_star_free(t),
        0 <= ti < t.len(),
        0 <= pi < p.len(),
        p[pi] == qmark_byte() || p[pi] == t[ti],
        star >= 0 ==> 0 <= mi <= ti,
        spec_scan_inv(t, p, ti, pi, star, mi),
    ensures
        spec_scan_inv(t, p, ti + 1, pi + 1, star, mi),
{
    assert(p[pi] != star_byte());
    if star >= 0 {
        let len = ti - mi;
        assert(spec_seg_ok(t, p, mi, star + 1, len + 1)) by {
            assert forall|x: int| 0 <= x < len + 1 implies #[trigger] p[(star + 1) + x] != star_byte() && (
            p[(star + 1) + x] == qmark_byte() || p[(star + 1) + x] == t[mi + x]) by {
                if x < len {
                    assert(spec_seg_ok(t, p, mi, star + 1, len));
                } else {
                    assert((star + 1) + x == pi);
                    assert(mi + x == ti);
                }
            }
        }
    }
}

proof fn lemma_dead_end(t: Seq<u8>, p: Seq<u8>, ti: int, pi: int)
    requires
        0 <= ti < t.len(),
        0 <= pi <= p.len(),
        !(pi < p.len() && (p[pi] == qmark_byte() || p[pi] == t[ti])),
        !(pi < p.len() && p[pi] == star_byte()),
    ensures
        !spec_glob_at(t, p, ti, pi),
{
}

proof fn lemma_step_back(t: Seq<u8>, p: Seq<u8>, ti: int, pi: int, star: int, mi: int)
    requires
        spec_star_free(t),
        0 <= ti < t.len(),
        0 <= pi <= p.len(),
        !(pi < p.len() && (p[pi] == qmark_byte() || p[pi] == t[ti])),
        !(pi < p.len() && p[pi] == star_byte()),
        0 <= star,
        0 <= mi <= ti,
        spec_scan_inv(t, p, ti, pi, star, mi),
    ensures
        spec_scan_inv(t, p, mi + 1, star + 1, star, mi + 1),
{
    lemma_dead_end(t, p, ti, pi);
    lemma_seg(t, p, mi, star + 1, ti - mi);
    assert(spec_seg_ok(t, p, mi + 1, star + 1, 0));
    if spec_glob_some_from(t, p, mi, star + 1) {
        let k = choose|k: int| mi <= k <= t.len() && #[trigger] spec_glob_at(t, p, k, star + 1);
        assert(k != mi);
        assert(spec_glob_some_from(t, p, mi + 1, star + 1));
    }
    if spec_glob_some_from(t, p, mi + 1, star + 1) {
        let k = choose|k: int| mi + 1 <= k <= t.len() && #[trigger] spec_glob_at(t, p, k, star + 1);
        assert(spec_glob_some_from(t, p, mi, star + 1));
    }
}

proof fn lemma_at_end(t: Seq<u8>, p: Seq<u8>, pi: int, star: int, mi: int)
    requires
        0 <= pi <= p.len(),
        star >= 0 ==> 0 <= mi <= t.len(),
        spec_scan_inv(t, p, t.len() as int, pi, star, mi),
    ensures
        spec_glob(t, p) == spec_all_stars_from(p, pi),
{
    lemma_tail_stars(t, p, pi);
    if star >= 0 {
        let len = t.len() - mi;
        lemma_seg(t, p, mi, star + 1, len);
        if spec_glob_some_from(t, p, mi, star + 1) {
            let k = choose|k: int| mi <= k <= t.len() && #[trigger] spec_glob_at(t, p, k, star + 1);
            if k > mi {
                assert forall|x: int| 0 <= x < len implies #[trigger] p[(star + 1) + x] != star_byte() by {
                    assert(spec_seg_ok(t, p, mi, star + 1, len));
                }
                lemma_forward(t, p, k, star + 1, len);
            }
        }
        if spec_glob_at(t, p, t.len() as int, pi) {
            assert(spec_glob_at(t, p, mi, star + 1));
        }
    }
}

/// Simple wildcard match (`*` and `?`) over the UTF-8 bytes of `text` and `pattern`.
///
/// The result is the outcome of the single-backtrack scan `spec_wild_run`; for texts that
/// hold no `*` this is exactly glob matching.
pub fn wildcard_match(text: &str, pattern: &str) -> (b: bool)
    ensures
        b == spec_wild_run(text.spec_bytes(), pattern.spec_bytes(), 0, 0, -1, 0),
        spec_star_free(text.spec_bytes()) ==> b == spec_glob(text.spec_bytes(), pattern.spec_bytes()),
{
    wildcard_match_bytes(text.as_bytes(), pattern.as_bytes())
}

/// `wildcard_match` on byte strings.
pub fn wildcard_match_bytes(t: &[u8], p: &[u8]) -> (b: bool)
    ensures
        b == spec_wild_run(t@, p@, 0, 0, -1, 0),
        spec_star_free(t@) ==> b == spec_glob(t@, p@),
{
    let ghost tv = t@;
    let ghost pv = p@;
    let ghost free = spec_star_free(tv);
    let mut ti: usize = 0;
    let mut pi: usize = 0;
    let mut star_idx: Option<usize> = None;
    let mut match_idx: usize = 0;
    let ghost start_val = spec_wild_run(tv, pv, 0, 0, -1, 0);

    while ti < t.len()
        invariant
            tv == t@,
            pv == p@,
            start_val == spec_wild_run(tv, pv, 0, 0, -1, 0),
            free == spec_star_free(tv),
            ti <= t.len(),
            pi <= p.len(),
            match star_idx {
                Some(s) => s < pi && match_idx <= ti,
                None => true,
            },
            start_val == spec_wild_run(tv, pv, ti as int, pi as int, match star_idx {
                Some(s) => s as int,
                None => -1,
            }, match_idx as int),
            free ==> spec_scan_inv(tv, pv, ti as int, pi as int, match star_idx {
                Some(s) => s as int,
                None => -1,
            }, match_idx as int),
        decreases t.len() + 1 - (match star_idx {
            Some(s) => match_idx as int,
            None => -1,
        }), t.len() - ti, p.len() - pi,
    {
        let ghost sv: int = match star_idx {
            Some(s) => s as int,
            None => -1,
        };
        if pi < p.len() && (p[pi] == 63u8 || p[pi] == t[ti]) {
            proof {
                if free {
                    lemma_step_match(tv, pv, ti as int, pi as int, sv, match_idx as int);
                }
            }
            ti += 1;
            pi += 1;
        } else if pi < p.len() && p[pi] == 42u8 {
            proof {
                if free {
                    lemma_step_star(tv, pv, ti as int, pi as int, sv, match_idx as int);
                }
            }
            star_idx = Some(pi);
            match_idx = ti;
            pi += 1;
        } else if let Some(s) = star_idx {
            proof {
                if free {
                    lemma_step_back(tv, pv, ti as int, pi as int, sv, match_idx as int);
                }
            }
            pi = s + 1;
            match_idx += 1;
            ti = match_idx;
        } else {
            proof {
                assert(sv == -1);
                assert(!spec_wild_run(tv, pv, ti as int, pi as int, sv, match_idx as int));
                if free {
                    lemma_dead_end(tv, pv, ti as int, pi as int);
                }
            }
            return false;
        }
    }

    let ghost pi_end = pi;
    let ghost sv: int = match star_idx {
        Some(s) => s as int,
        None => -1,
    };
    proof {
        if free {
            lemma_at_end(tv, pv, pi as int, sv, match_idx as int);
        }
    }
    while pi < p.len() && p[pi] == 42u8
        invariant
            pv == p@,
            pi_end <= pi <= p.len(),
            forall|x: int| pi_end <= x < pi ==> pv[x] == star_byte(),
        decreases p.len() - pi,
    {
        pi += 1;
    }
    proof {
        if pi < p.len() {
            assert(!spec_all_stars_from(pv, pi_end as int));
        }
    }
    pi == p.len()
}


/// Largest content, in bytes, uploaded as one blob.
pub const MAX_BLOB_SIZE: usize = 512000;

/// Largest upload batch, in bytes.
pub const MAX_BATCH_SIZE: usize = 5242880;

/// A piece of a file that is uploaded to the remote index.
pub struct Blob {
    pub path: String,
    pub content: String,
}

/// Counters of one indexing run.
pub struct IndexStats {
    pub total_blobs: usize,
    pub existing_blobs: usize,
    pub new_blobs: usize,
    pub failed_batches: Option<usize>,
}

/// Outcome of one indexing run: `success`, `partial_success` or `error`, a message, and the
/// counters where there are any.
pub struct IndexResult {
    pub status: String,
    pub message: String,
    pub stats: Option<IndexStats>,
}

/// The texts of `parts` one after another.
pub open spec fn spec_concat(parts: Seq<Seq<char>>) -> Seq<char>
    decreases parts.len(),
{
    if parts.len() == 0 {
        Seq::empty()
    } else {
        spec_concat(parts.drop_last()) + parts.last()
    }
}

/// End (exclusive) of the line that contains position `i`: just after its `\n`, `\r\n` or lone
/// `\r`, or the end of the text.
pub open spec fn spec_line_end(s: Seq<char>, i: int) -> int
    decreases s.len() - i,
{
    if i < 0 || i >= s.len() {
        s.len() as int
    } else if s[i] == '\n' {
        i + 1
    } else if s[i] == '\r' {
        if i + 1 < s.len() && s[i + 1] == '\n' {
            i + 2
        } else {
            i + 1
        }
    } else {
        spec_line_end(s, i + 1)
    }
}

pub proof fn lemma_line_end_bounds(s: Seq<char>, i: int)
    requires
        0 <= i < s.len(),
    ensures
        i < spec_line_end(s, i) <= s.len(),
    decreases s.len() - i,
{
    if s[i] != '\n' && s[i] != '\r' {
        if i + 1 < s.len() {
            lemma_line_end_bounds(s, i + 1);
        } else {
            assert(spec_line_end(s, i + 1) == s.len());
        }
    }
}

/// The lines of `s` from position `start` on, each with its line terminator.
pub open spec fn spec_raw_lines_from(s: Seq<char>, start: int) -> Seq<Seq<char>>
    decreases s.len() - start,
{
    if start < 0 || start >= s.len() {
        Seq::empty()
    } else {
        let e = spec_line_end(s, start);
        proof {
            lemma_line_end_bounds(s, start);
        }
        seq![s.subrange(start, e)] + spec_raw_lines_from(s, e)
    }
}

/// The lines of `s`, each keeping its `\n`, `\r\n` or `\r`.
pub open spec fn spec_raw_lines(s: Seq<char>) -> Seq<Seq<char>> {
    spec_raw_lines_from(s, 0)
}

proof fn lemma_concat_prepend(x: Seq<char>, parts: Seq<Seq<char>>)
    ensures
        spec_concat(seq![x] + parts) == x + spec_concat(parts),
    decreases parts.len(),
{
    if parts.len() == 0 {
        assert(seq![x] + parts =~= seq![x]);
        assert(seq![x].drop_last() =~= Seq::<Seq<char>>::empty());
        assert(spec_concat(seq![x]) == spec_concat(Seq::<Seq<char>>::empty()) + x);
        assert(Seq::<char>::empty() + x =~= x);
        assert(x + Seq::<char>::empty() =~= x);
    } else {
        lemma_concat_prepend(x, parts.drop_last());
        let whole = seq![x] + parts;
        assert(whole.drop_last() =~= seq![x] + parts.drop_last());
        assert(whole.last() == parts.last());
        assert(spec_concat(whole) == spec_concat(whole.drop_last()) + whole.last());
        assert(spec_concat(parts) == spec_concat(parts.drop_last()) + parts.last());
        assert(x + spec_concat(parts.drop_last()) + parts.last() =~= x + (spec_concat(
            parts.drop_last(),
        ) + parts.last()));
    }
}

/// The lines of a text, terminators included, put back together are the text.
proof fn lemma_raw_lines_concat(s: Seq<char>, start: int)
    requires
        0 <= start <= s.len(),
    ensures
        spec_concat(spec_raw_lines_from(s, start)) == s.skip(start),
    decreases s.len() - start,
{
    if start >= s.len() {
        assert(s.skip(start) =~= Seq::<char>::empty());
    } else {
        let e = spec_line_end(s, start);
        lemma_line_end_bounds(s, start);
        lemma_raw_lines_concat(s, e);
        lemma_concat_prepend(s.subrange(start, e), spec_raw_lines_from(s, e));
        assert(s.subrange(start, e) + s.skip(e) =~= s.skip(start));
    }
}

fn raw_lines(s: &Vec<char>) -> (r: Vec<Vec<char>>)
    ensures
        views(r@) == spec_raw_lines(s@),
{
    let mut lines: Vec<Vec<char>> = Vec::new();
    let mut start: usize = 0;
    let mut i: usize = 0;
    while i < s.len()
        invariant
            start <= i <= s.len(),
            views(lines@) + spec_raw_lines_from(s@, start as int) == spec_raw_lines(s@),
            spec_line_end(s@, start as int) == spec_line_end(s@, i as int),
            start < s.len() ==> start < i || i == start,
        decreases s.len() - i,
    {
        let ghost before = views(lines@);
        if s[i] == '\n' {
            let end = i + 1;
            proof {
                lemma_line_end_bounds(s@, start as int);
            }
            lines.push(slice_chars(s, start, end));
            proof {
                assert(views(lines@) =~= before.push(s@.subrange(start as int, end as int)));
                assert(spec_raw_lines_from(s@, start as int) =~= seq![s@.subrange(start as int, end as int)] + spec_raw_lines_from(s@, end as int));
                assert(views(lines@) + spec_raw_lines_from(s@, end as int) =~= before + spec_raw_lines_from(s@, start as int));
            }
            start = end;
        } else if s[i] == '\r' {
            proof {
                lemma_line_end_bounds(s@, start as int);
            }
            if i + 1 < s.len() && s[i + 1] == '\n' {
                let end = i + 2;
                lines.push(slice_chars(s, start, end));
                proof {
                    assert(views(lines@) =~= before.push(s@.subrange(start as int, end as int)));
                    assert(spec_raw_lines_from(s@, start as int) =~= seq![s@.subrange(start as int, end as int)] + spec_raw_lines_from(s@, end as int));
                    assert(views(lines@) + spec_raw_lines_from(s@, end as int) =~= before + spec_raw_lines_from(s@, start as int));
                }
                start = end;
                i += 1;
            } else {
                let end = i + 1;
                lines.push(slice_chars(s, start, end));
                proof {
                    assert(views(lines@) =~= before.push(s@.subrange(start as int, end as int)));
                    assert(spec_raw_lines_from(s@, start as int) =~= seq![s@.subrange(start as int, end as int)] + spec_raw_lines_from(s@, end as int));
                    assert(views(lines@) + spec_raw_lines_from(s@, end as int) =~= before + spec_raw_lines_from(s@, start as int));
                }
                start = end;
            }
        }
        i += 1;
    }
    if start < s.len() {
        let ghost before = views(lines@);
        proof {
            lemma_line_end_bounds(s@, start as int);
            assert(spec_line_end(s@, start as int) == s.len());
            assert(spec_raw_lines_from(s@, s.len() as int) =~= Seq::<Seq<char>>::empty());
        }
        lines.push(slice_chars(s, start, s.len()));
        proof {
            assert(views(lines@) =~= before.push(s@.subrange(start as int, s.len() as int)));
            assert(spec_raw_lines_from(s@, start as int) =~= seq![s@.subrange(start as int, s.len() as int)]);
        }
    } else {
        proof {
            assert(spec_raw_lines_from(s@, start as int) =~= Seq::<Seq<char>>::empty());
            assert(views(lines@) + Seq::<Seq<char>>::empty() =~= views(lines@));
        }
    }
    lines
}

/// End (exclusive) of chunk `k` of `m` lines in a list of `total` lines.
pub open spec fn spec_chunk_end(k: int, m: int, total: int) -> int {
    if k * m + m < total {
        k * m + m
    } else {
        total
    }
}

/// Number of chunks of `m` lines that `total` lines (at least one) make.
pub open spec fn spec_chunk_count(total: int, m: int) -> int {
    (total - 1) / m + 1
}

/// Path of chunk `k` (from zero) of `n`.
pub open spec fn spec_chunk_path(path: Seq<char>, k: int, n: int) -> Seq<char> {
    path + "#chunk"@ + spec_decimal((k + 1) as nat) + "of"@ + spec_decimal(n as nat)
}

/// The blobs of a file: the whole file when it has at most `max_lines` lines, else chunks of
/// `max_lines` lines (terminators kept), named `<path>#chunk<k>of<n>`.
pub open spec fn spec_file_blobs(path: Seq<char>, content: Seq<char>, max_lines: int) -> Seq<
    (Seq<char>, Seq<char>),
> {
    let ls = spec_raw_lines(content);
    if ls.len() <= max_lines {
        seq![(path, content)]
    } else {
        let n = spec_chunk_count(ls.len() as int, max_lines);
        Seq::new(
            n as nat,
            |k: int|
                (
                    spec_chunk_path(path, k, n),
                    spec_concat(ls.subrange(k * max_lines, spec_chunk_end(k, max_lines, ls.len() as int))),
                ),
        )
    }
}

pub open spec fn spec_blob_views(v: Seq<Blob>) -> Seq<(Seq<char>, Seq<char>)> {
    v.map_values(|b: Blob| (b.path@, b.content@))
}

fn concat_range(ls: &Vec<Vec<char>>, a: usize, b: usize) -> (r: Vec<char>)
    requires
        a <= b <= ls.len(),
    ensures
        r@ == spec_concat(views(ls@).subrange(a as int, b as int)),
{
    let mut r: Vec<char> = Vec::new();
    let mut i: usize = a;
    proof {
        assert(views(ls@).subrange(a as int, a as int) =~= Seq::<Seq<char>>::empty());
    }
    while i < b
        invariant
            a <= i <= b <= ls.len(),
            r@ == spec_concat(views(ls@).subrange(a as int, i as int)),
        decreases b - i,
    {
        crate::text::append_chars(&mut r, &ls[i]);
        proof {
            let sub = views(ls@).subrange(a as int, i + 1);
            assert(sub.drop_last() =~= views(ls@).subrange(a as int, i as int));
            assert(sub.last() == ls@[i as int]@);
        }
        i += 1;
    }
    r
}

proof fn lemma_chunk_start(k: int, m: int, total: int)
    requires
        m > 0,
        total >= 1,
        0 <= k < spec_chunk_count(total, m),
    ensures
        0 <= k * m < total,
{
    let q = (total - 1) / m;
    assert(k <= q);
    assert(q * m <= total - 1) by (nonlinear_arith)
        requires
            q == (total - 1) / m,
            m > 0,
            total >= 1,
    ;
    assert(k * m <= q * m) by (nonlinear_arith)
        requires
            0 <= k <= q,
            m > 0,
    ;
    assert(0 <= k * m) by (nonlinear_arith)
        requires
            0 <= k,
            m > 0,
    ;
}

/// Splits a file into blobs (see `spec_file_blobs`).
pub fn split_file_content(path: &str, content: &str, max_lines: usize) -> (r: Vec<Blob>)
    requires
        max_lines > 0 || spec_raw_lines(content@).len() == 0,
    ensures
        spec_blob_views(r@) == spec_file_blobs(path@, content@, max_lines as int),
{
    let c = to_chars(content);
    let ls = raw_lines(&c);
    let total = ls.len();
    let mut blobs: Vec<Blob> = Vec::new();
    if total <= max_lines {
        blobs.push(Blob { path: path.to_owned(), content: content.to_owned() });
        proof {
            assert(spec_blob_views(blobs@) =~= seq![(path@, content@)]);
        }
        return blobs;
    }
    let n = (total - 1) / max_lines + 1;
    let ghost lv = views(ls@);
    let ghost want = spec_file_blobs(path@, content@, max_lines as int);
    let mut k: usize = 0;
    let mut start: usize = 0;
    while k < n
        invariant
            max_lines > 0,
            total == ls.len(),
            lv == views(ls@),
            lv == spec_raw_lines(content@),
            total > max_lines,
            n == spec_chunk_count(total as int, max_lines as int),
            want == spec_file_blobs(path@, content@, max_lines as int),
            want.len() == n,
            k <= n,
            k < n ==> start == k * max_lines,
            spec_blob_views(blobs@) == want.take(k as int),
        decreases n - k,
    {
        proof {
            lemma_chunk_start(k as int, max_lines as int, total as int);
        }
        let end = if max_lines < total - start {
            start + max_lines
        } else {
            total
        };
        let chunk = concat_range(&ls, start, end);
        let mut name = to_chars(path);
        crate::text::append_chars(&mut name, &lit("#chunk"));
        crate::text::append_chars(&mut name, &decimal((k + 1) as u64));
        crate::text::append_chars(&mut name, &lit("of"));
        crate::text::append_chars(&mut name, &decimal(n as u64));
        let ghost pre = blobs@;
        blobs.push(Blob { path: string_from_chars(name.as_slice()), content: string_from_chars(chunk.as_slice()) });
        proof {
            assert(end as int == spec_chunk_end(k as int, max_lines as int, total as int));
            assert(spec_blob_views(blobs@) =~= spec_blob_views(pre).push(want[k as int]));
            assert(want.take(k + 1) =~= want.take(k as int).push(want[k as int]));
        }
        if k + 1 < n {
            proof {
                lemma_chunk_start(k + 1, max_lines as int, total as int);
                assert((k + 1) * max_lines == k * max_lines + max_lines) by (nonlinear_arith);
            }
            start = start + max_lines;
        }
        k += 1;
    }
    proof {
        assert(want.take(n as int) =~= want);
    }
    blobs
}

proof fn lemma_concat_split(xs: Seq<Seq<char>>, a: int, b: int)
    requires
        0 <= a <= b <= xs.len(),
    ensures
        spec_concat(xs.subrange(0, b)) == spec_concat(xs.subrange(0, a)) + spec_concat(
            xs.subrange(a, b),
        ),
    decreases b - a,
{
    if b == a {
        assert(xs.subrange(a, b) =~= Seq::<Seq<char>>::empty());
        assert(spec_concat(xs.subrange(0, a)) + Seq::<char>::empty() =~= spec_concat(
            xs.subrange(0, a),
        ));
    } else {
        lemma_concat_split(xs, a, b - 1);
        assert(xs.subrange(0, b).drop_last() =~= xs.subrange(0, b - 1));
        assert(xs.subrange(a, b).drop_last() =~= xs.subrange(a, b - 1));
        assert(spec_concat(xs.subrange(0, b)) == spec_concat(xs.subrange(0, b - 1)) + xs[b - 1]);
        assert(spec_concat(xs.subrange(a, b)) == spec_concat(xs.subrange(a, b - 1)) + xs[b - 1]);
        assert(spec_concat(xs.subrange(0, a)) + spec_concat(xs.subrange(a, b - 1)) + xs[b - 1]
            =~= spec_concat(xs.subrange(0, a)) + (spec_concat(xs.subrange(a, b - 1)) + xs[b
            - 1]));
    }
}

/// The contents of the blobs of a file.
pub open spec fn spec_blob_contents(blobs: Seq<(Seq<char>, Seq<char>)>) -> Seq<Seq<char>> {
    blobs.map_values(|b: (Seq<char>, Seq<char>)| b.1)
}

proof fn lemma_chunks_prefix(ls: Seq<Seq<char>>, m: int, j: int, contents: Seq<Seq<char>>)
    requires
        m > 0,
        ls.len() > m,
        contents.len() == spec_chunk_count(ls.len() as int, m),
        forall|k: int|
            0 <= k < contents.len() ==> #[trigger] contents[k] == spec_concat(
                ls.subrange(k * m, spec_chunk_end(k, m, ls.len() as int)),
            ),
        0 <= j <= contents.len(),
    ensures
        spec_concat(contents.take(j)) == spec_concat(
            ls.subrange(0, if j == 0 { 0 } else { spec_chunk_end(j - 1, m, ls.len() as int) }),
        ),
    decreases j,
{
    let total = ls.len() as int;
    if j == 0 {
        assert(contents.take(0) =~= Seq::<Seq<char>>::empty());
        assert(ls.subrange(0, 0) =~= Seq::<Seq<char>>::empty());
    } else {
        lemma_chunks_prefix(ls, m, j - 1, contents);
        lemma_chunk_start(j - 1, m, total);
        let start = (j - 1) * m;
        let prev_end = if j - 1 == 0 {
            0
        } else {
            spec_chunk_end(j - 2, m, total)
        };
        if j - 1 > 0 {
            lemma_chunk_start(j - 1, m, total);
            assert((j - 2) * m + m == (j - 1) * m) by (nonlinear_arith);
        }
        assert(prev_end == start);
        let end = spec_chunk_end(j - 1, m, total);
        assert(start <= end <= total);
        lemma_concat_split(ls, start, end);
        assert(contents.take(j).drop_last() =~= contents.take(j - 1));
        assert(contents.take(j).last() == contents[j - 1]);
    }
}

/// Splitting a file into blobs loses and repeats nothing: the blob contents, in order, put
/// together are the file (for any positive line limit).
pub proof fn law_split_file_content_preserves_text(path: Seq<char>, content: Seq<char>, max_lines: int)
    requires
        max_lines > 0,
    ensures
        spec_concat(spec_blob_contents(spec_file_blobs(path, content, max_lines))) == content,
{
    let ls = spec_raw_lines(content);
    lemma_raw_lines_concat(content, 0);
    assert(content.skip(0) =~= content);
    let blobs = spec_file_blobs(path, content, max_lines);
    let contents = spec_blob_contents(blobs);
    if ls.len() <= max_lines {
        assert(contents =~= seq![content]);
        assert(seq![content].drop_last() =~= Seq::<Seq<char>>::empty());
        assert(spec_concat(seq![content]) == spec_concat(Seq::<Seq<char>>::empty()) + content);
        assert(Seq::<char>::empty() + content =~= content);
    } else {
        let total = ls.len() as int;
        let n = spec_chunk_count(total, max_lines);
        assert forall|k: int| 0 <= k < contents.len() implies #[trigger] contents[k]
            == spec_concat(ls.subrange(k * max_lines, spec_chunk_end(k, max_lines, total))) by {}
        lemma_chunks_prefix(ls, max_lines, n, contents);
        assert(n * max_lines >= total) by (nonlinear_arith)
            requires
                n == (total - 1) / max_lines + 1,
                max_lines > 0,
                total >= 1,
        ;
        assert((n - 1) * max_lines + max_lines == n * max_lines) by (nonlinear_arith);
        assert(spec_chunk_end(n - 1, max_lines, total) == total);
        assert(contents.take(n) =~= contents);
        assert(ls.subrange(0, total) =~= ls);
        assert(spec_concat(contents) == spec_concat(ls));
    }
}

/// Control characters removed before upload: U+0000..=U+0008, U+000B, U+000C,
/// U+000E..=U+001F and U+007F (tab, line feed and carriage return stay).
pub open spec fn spec_is_stripped_control(c: char) -> bool {
    let u = c as u32;
    u <= 0x08 || u == 0x0B || u == 0x0C || (0x0E <= u && u <= 0x1F) || u == 0x7F
}

/// The characters of `s` that are not stripped controls.
pub open spec fn spec_sanitize(s: Seq<char>) -> Seq<char>
    decreases s.len(),
{
    if s.len() == 0 {
        Seq::empty()
    } else if spec_is_stripped_control(s.last()) {
        spec_sanitize(s.drop_last())
    } else {
        spec_sanitize(s.drop_last()).push(s.last())
    }
}

/// Removes the invisible control characters that the index service cannot parse.
pub fn sanitize_content(content: &str) -> (r: String)
    ensures
        r@ == spec_sanitize(content@),
{
    let c = to_chars(content);
    let mut out: Vec<char> = Vec::new();
    let mut i: usize = 0;
    while i < c.len()
        invariant
            i <= c.len(),
            out@ == spec_sanitize(c@.take(i as int)),
        decreases c.len() - i,
    {
        let ch = c[i];
        let u = ch as u32;
        proof {
            assert(c@.take(i + 1).drop_last() =~= c@.take(i as int));
        }
        if !(u <= 0x08 || u == 0x0B || u == 0x0C || (0x0E <= u && u <= 0x1F) || u == 0x7F) {
            out.push(ch);
        }
        i += 1;
    }
    proof {
        assert(c@.take(c@.len() as int) =~= c@);
    }
    string_from_chars(out.as_slice())
}

/// Characters that count against a text being readable: U+0000..=U+0008,
/// U+000E..=U+001F and U+007F.
pub open spec fn spec_is_non_printable(c: char) -> bool {
    let u = c as u32;
    u <= 0x08 || (0x0E <= u && u <= 0x1F) || u == 0x7F
}

/// Non-printable characters among the first `k` of `s`.
pub open spec fn spec_non_printable_count(s: Seq<char>, k: int) -> nat
    decreases k,
{
    if k <= 0 {
        0
    } else {
        spec_non_printable_count(s, k - 1) + if spec_is_non_printable(s[k - 1]) {
            1nat
        } else {
            0nat
        }
    }
}

/// The counts the binary-content test compares: non-printable characters, and all
/// characters (at least one).
pub fn printable_counts(content: &str) -> (r: (usize, usize))
    ensures
        r.0 == spec_non_printable_count(content@, content@.len() as int),
        r.1 == if content@.len() == 0 {
            1
        } else {
            content@.len()
        },
        r.0 <= r.1,
{
    let c = to_chars(content);
    let mut n: usize = 0;
    let mut i: usize = 0;
    while i < c.len()
        invariant
            i <= c.len(),
            n == spec_non_printable_count(c@, i as int),
            n <= i,
        decreases c.len() - i,
    {
        let u = c[i] as u32;
        if u <= 0x08 || (0x0E <= u && u <= 0x1F) || u == 0x7F {
            n += 1;
        }
        i += 1;
    }
    let total = if c.len() == 0 {
        1
    } else {
        c.len()
    };
    (n, total)
}

/// Batch size, concurrency and timeout of an upload, by the number of blobs.
pub struct UploadStrategy {
    pub batch_size: usize,
    pub concurrency: usize,
    pub timeout_ms: u64,
    pub scale_name: &'static str,
}

pub fn get_upload_strategy(blob_count: usize) -> (r: UploadStrategy)
    ensures
        blob_count < 100 ==> r.batch_size == 10 && r.concurrency == 1 && r.timeout_ms == 30000
            && r.scale_name@ == "小型"@,
        100 <= blob_count < 500 ==> r.batch_size == 30 && r.concurrency == 2 && r.timeout_ms
            == 45000 && r.scale_name@ == "中型"@,
        500 <= blob_count < 2000 ==> r.batch_size == 50 && r.concurrency == 3 && r.timeout_ms
            == 60000 && r.scale_name@ == "大型"@,
        2000 <= blob_count ==> r.batch_size == 70 && r.concurrency == 4 && r.timeout_ms == 90000
            && r.scale_name@ == "超大型"@,
{
    if blob_count < 100 {
        UploadStrategy { batch_size: 10, concurrency: 1, timeout_ms: 30000, scale_name: "小型" }
    } else if blob_count < 500 {
        UploadStrategy { batch_size: 30, concurrency: 2, timeout_ms: 45000, scale_name: "中型" }
    } else if blob_count < 2000 {
        UploadStrategy { batch_size: 50, concurrency: 3, timeout_ms: 60000, scale_name: "大型" }
    } else {
        UploadStrategy { batch_size: 70, concurrency: 4, timeout_ms: 90000, scale_name: "超大型" }
    }
}

/// The batch size of a retry round: halved after the first round, never below five.
pub fn next_batch_size(current: usize, retry_round: usize) -> (r: usize)
    ensures
        r == if retry_round == 0 {
            current
        } else if current / 2 > 5 {
            current / 2
        } else {
            5
        },
{
    if retry_round > 0 {
        let half = current / 2;
        if half > 5 {
            half
        } else {
            5
        }
    } else {
        current
    }
}

/// Cuts `len` items into consecutive batches of `batch_size` (the last one may be shorter):
/// batch `k` is `k * batch_size .. min((k + 1) * batch_size, len)`.
pub fn plan_batches(len: usize, batch_size: usize) -> (r: Vec<(usize, usize)>)
    requires
        batch_size > 0,
    ensures
        r@.len() == if len == 0 {
            0
        } else {
            spec_chunk_count(len as int, batch_size as int)
        },
        forall|k: int|
            0 <= k < r@.len() ==> (#[trigger] r@[k]).0 == k * batch_size && r@[k].1
                == spec_chunk_end(k, batch_size as int, len as int),
{
    let mut r: Vec<(usize, usize)> = Vec::new();
    if len == 0 {
        return r;
    }
    let n = (len - 1) / batch_size + 1;
    let mut k: usize = 0;
    let mut start: usize = 0;
    while k < n
        invariant
            batch_size > 0,
            len > 0,
            n == spec_chunk_count(len as int, batch_size as int),
            k <= n,
            k < n ==> start == k * batch_size,
            r@.len() == k,
            forall|j: int|
                0 <= j < k ==> (#[trigger] r@[j]).0 == j * batch_size && r@[j].1 == spec_chunk_end(
                    j,
                    batch_size as int,
                    len as int,
                ),
        decreases n - k,
    {
        proof {
            lemma_chunk_start(k as int, batch_size as int, len as int);
        }
        let end = if batch_size < len - start {
            start + batch_size
        } else {
            len
        };
        r.push((start, end));
        if k + 1 < n {
            proof {
                lemma_chunk_start(k + 1, batch_size as int, len as int);
                assert((k + 1) * batch_size == k * batch_size + batch_size) by (nonlinear_arith);
            }
            start = start + batch_size;
        }
        k += 1;
    }
    r
}

/// The name a blob is stored under: SHA-256 of its path followed by its content.
pub fn calculate_blob_name(path: &str, content: &str) -> (r: String)
    ensures
        r@ == spec_hex(sha256_utf8(path@ + content@)),
{
    let mut joined = to_chars(path);
    crate::text::append_chars(&mut joined, &to_chars(content));
    let s = string_from_chars(joined.as_slice());
    sha256_hex(s.as_str())
}

/// Index of the first `/` byte at or after `start`, or the length.
pub open spec fn spec_slash_from(s: Seq<u8>, start: int) -> int
    decreases s.len() - start,
{
    if start < 0 || start >= s.len() {
        s.len() as int
    } else if s[start] == 47u8 {
        start
    } else {
        spec_slash_from(s, start + 1)
    }
}

pub proof fn lemma_slash_from_bounds(s: Seq<u8>, start: int)
    requires
        0 <= start <= s.len(),
    ensures
        start <= spec_slash_from(s, start) <= s.len(),
        spec_slash_from(s, start) < s.len() ==> s[spec_slash_from(s, start)] == 47u8,
    decreases s.len() - start,
{
    if start < s.len() && s[start] != 47u8 {
        lemma_slash_from_bounds(s, start + 1);
    }
}

/// The `/`-separated parts of `s` from `start` on (`str::split('/')`).
pub open spec fn spec_path_parts_from(s: Seq<u8>, start: int) -> Seq<Seq<u8>>
    decreases s.len() - start,
{
    if start < 0 || start > s.len() {
        Seq::empty()
    } else {
        let k = spec_slash_from(s, start);
        proof {
            lemma_slash_from_bounds(s, start);
        }
        if k >= s.len() {
            seq![s.subrange(start, s.len() as int)]
        } else {
            seq![s.subrange(start, k)] + spec_path_parts_from(s, k + 1)
        }
    }
}

/// The `/`-separated parts of a path's bytes.
pub open spec fn spec_path_parts(s: Seq<u8>) -> Seq<Seq<u8>> {
    spec_path_parts_from(s, 0)
}

fn path_parts(s: &[u8]) -> (r: Vec<Vec<u8>>)
    ensures
        r@.map_values(|v: Vec<u8>| v@) == spec_path_parts(s@),
{
    let mut r: Vec<Vec<u8>> = Vec::new();
    let mut start: usize = 0;
    loop
        invariant
            start <= s.len(),
            r@.map_values(|v: Vec<u8>| v@) + spec_path_parts_from(s@, start as int)
                == spec_path_parts(s@),
        decreases s.len() - start,
    {
        proof {
            lemma_slash_from_bounds(s@, start as int);
        }
        let mut k: usize = start;
        while k < s.len() && s[k] != 47u8
            invariant
                start <= k <= s.len(),
                spec_slash_from(s@, k as int) == spec_slash_from(s@, start as int),
            decreases s.len() - k,
        {
            k += 1;
        }
        let ghost before = r@.map_values(|v: Vec<u8>| v@);
        let mut piece: Vec<u8> = Vec::new();
        let mut x: usize = start;
        while x < k
            invariant
                start <= x <= k <= s.len(),
                piece@ == s@.subrange(start as int, x as int),
            decreases k - x,
        {
            piece.push(s[x]);
            proof {
                assert(piece@ =~= s@.subrange(start as int, x + 1));
            }
            x += 1;
        }
        let ghost pv = piece@;
        r.push(piece);
        proof {
            assert(r@.map_values(|v: Vec<u8>| v@) =~= before.push(pv));
        }
        if k >= s.len() {
            proof {
                assert(before + spec_path_parts_from(s@, start as int) =~= before.push(pv));
            }
            return r;
        }
        proof {
            assert(before + (seq![pv] + spec_path_parts_from(s@, k + 1)) =~= before.push(pv)
                + spec_path_parts_from(s@, k + 1));
        }
        start = k + 1;
    }
}

/// The UTF-8 bytes of each string.
pub open spec fn spec_byte_views(v: Seq<String>) -> Seq<Seq<u8>> {
    v.map_values(|s: String| vstd::utf8::encode_utf8(s@))
}

/// Pattern `pattern` excludes a path: it matches one of the path's parts or the whole path.
pub open spec fn spec_pattern_excludes(path: Seq<u8>, pattern: Seq<u8>) -> bool {
    (exists|j: int|
        0 <= j < spec_path_parts(path).len() && spec_wild_run(
            #[trigger] spec_path_parts(path)[j],
            pattern,
            0,
            0,
            -1,
            0,
        )) || spec_wild_run(path, pattern, 0, 0, -1, 0)
}

/// No `/` lies between `start` and the first `/` at or after it.
proof fn lemma_slash_from_first(s: Seq<u8>, start: int)
    requires
        0 <= start <= s.len(),
    ensures
        forall|j: int| start <= j < spec_slash_from(s, start) ==> s[j] != 47u8,
    decreases s.len() - start,
{
    if start < s.len() && s[start] != 47u8 {
        lemma_slash_from_first(s, start + 1);
    }
}

/// Every `/`-separated part that starts at or after `start` (where a part begins) is among
/// the parts from `start`.
proof fn lemma_part_listed(s: Seq<u8>, start: int, a: int, b: int)
    requires
        0 <= start <= a <= b <= s.len(),
        start == a || s[a - 1] == 47u8,
        b == s.len() || s[b] == 47u8,
        forall|j: int| a <= j < b ==> s[j] != 47u8,
    ensures
        spec_path_parts_from(s, start).contains(s.subrange(a, b)),
    decreases s.len() - start,
{
    lemma_slash_from_bounds(s, start);
    lemma_slash_from_first(s, start);
    let k = spec_slash_from(s, start);
    if a == start {
        if k < b {
            assert(s[k] != 47u8);
        }
        if b < k {
            assert(s[b] != 47u8);
        }
        assert(k == b);
        if k >= s.len() {
            assert(spec_path_parts_from(s, start)[0] == s.subrange(a, b));
        } else {
            assert(spec_path_parts_from(s, start)[0] == s.subrange(a, b));
        }
    } else {
        if k > a - 1 {
            assert(s[a - 1] != 47u8);
        }
        assert(k <= a - 1);
        lemma_part_listed(s, k + 1, a, b);
        let rest = spec_path_parts_from(s, k + 1);
        let idx = choose|idx: int| 0 <= idx < rest.len() && rest[idx] == s.subrange(a, b);
        assert(spec_path_parts_from(s, start) == seq![s.subrange(start, k)] + rest);
        assert(spec_path_parts_from(s, start)[idx + 1] == s.subrange(a, b));
    }
}

/// A pattern that matches any `/`-separated part of a path (the file name at its end
/// included) excludes the path: `path[a..b]` is such a part when it holds no `/`, starts the
/// path or follows a `/`, and ends the path or precedes a `/`.
pub proof fn law_pattern_matching_a_part_excludes(path: Seq<u8>, pattern: Seq<u8>, a: int, b: int)
    requires
        0 <= a <= b <= path.len(),
        a == 0 || path[a - 1] == 47u8,
        b == path.len() || path[b] == 47u8,
        forall|j: int| a <= j < b ==> path[j] != 47u8,
        spec_wild_run(path.subrange(a, b), pattern, 0, 0, -1, 0),
    ensures
        spec_pattern_excludes(path, pattern),
{
    lemma_part_listed(path, 0, a, b);
    let parts = spec_path_parts(path);
    let j = choose|j: int| 0 <= j < parts.len() && parts[j] == path.subrange(a, b);
    assert(spec_wild_run(spec_path_parts(path)[j], pattern, 0, 0, -1, 0));
}

/// Whether a project path is left out of the index. `relative_path` is the path below the
/// project root with `/` separators and `gitignored` what the project's `.gitignore` says of
/// it; each exclusion pattern is matched (see `wildcard_match`) against every part of the
/// path and against the whole path.
pub fn should_exclude_path(relative_path: &str, gitignored: bool, exclude_patterns: &Vec<String>) -> (b: bool)
    ensures
        b == (gitignored || exists|i: int|
            0 <= i < exclude_patterns@.len() && spec_pattern_excludes(
                relative_path.spec_bytes(),
                #[trigger] spec_byte_views(exclude_patterns@)[i],
            )),
{
    if gitignored {
        return true;
    }
    let pb = relative_path.as_bytes();
    let parts = path_parts(pb);
    let ghost pv = parts@.map_values(|v: Vec<u8>| v@);
    let mut i: usize = 0;
    while i < exclude_patterns.len()
        invariant
            i <= exclude_patterns.len(),
            !gitignored,
            pb@ == relative_path.spec_bytes(),
            pv == parts@.map_values(|v: Vec<u8>| v@),
            pv == spec_path_parts(pb@),
            forall|x: int|
                0 <= x < i ==> !spec_pattern_excludes(
                    pb@,
                    #[trigger] spec_byte_views(exclude_patterns@)[x],
                ),
        decreases exclude_patterns.len() - i,
    {
        let pattern = exclude_patterns[i].as_str().as_bytes();
        let ghost pat = spec_byte_views(exclude_patterns@)[i as int];
        proof {
            assert(pat == pattern@);
        }
        let mut k: usize = 0;
        while k < parts.len()
            invariant
                k <= parts.len(),
                i < exclude_patterns.len(),
                pv == parts@.map_values(|v: Vec<u8>| v@),
                pv == spec_path_parts(pb@),
                pb@ == relative_path.spec_bytes(),
                pat == pattern@,
                pat == spec_byte_views(exclude_patterns@)[i as int],
                forall|y: int| 0 <= y < k ==> !spec_wild_run(#[trigger] pv[y], pat, 0, 0, -1, 0),
            decreases parts.len() - k,
        {
            if wildcard_match_bytes(parts[k].as_slice(), pattern) {
                proof {
                    assert(pv[k as int] == parts@[k as int]@);
                    assert(spec_wild_run(spec_path_parts(pb@)[k as int], pat, 0, 0, -1, 0));
                    assert(spec_pattern_excludes(pb@, pat));
                }
                return true;
            }
            proof {
                assert(pv[k as int] == parts@[k as int]@);
            }
            k += 1;
        }
        if wildcard_match_bytes(pb, pattern) {
            return true;
        }
        proof {
            assert(!spec_pattern_excludes(pb@, pat));
        }
        i += 1;
    }
    false
}

pub open spec fn spec_dec(n: int) -> Seq<char> {
    spec_decimal(n as nat)
}

/// The result of an indexing run from its counts: `existing` blobs already indexed,
/// `uploaded` blobs uploaded now, `failed` blobs still failing after the retries, and the error
/// that stopped the upload, if one did.
pub open spec fn spec_index_result(
    existing: int,
    uploaded: int,
    failed: int,
    fatal_error: Option<Seq<char>>,
) -> (Seq<char>, Seq<char>, Option<(int, int, int, Option<int>)>) {
    match fatal_error {
        Some(err) => if uploaded > 0 {
            (
                "partial_success"@,
                "部分索引成功: "@ + spec_dec(existing + uploaded) + " 个文件块已保存 (已有: "@ + spec_dec(
                    existing,
                ) + ", 新增: "@ + spec_dec(uploaded) + ")。错误: "@ + err
                    + "。请修复问题后重试，已完成的部分会被保留。"@,
                Some((existing + uploaded, existing, uploaded, Some(failed))),
            )
        } else if existing > 0 {
            (
                "partial_success"@,
                "本次上传失败，但保留了 "@ + spec_dec(existing) + " 个已有索引。错误: "@ + err
                    + "。请修复问题后重试。"@,
                Some((existing, existing, 0, Some(failed))),
            )
        } else {
            ("error"@, err, None)
        },
        None => if failed > 0 && uploaded == 0 && existing == 0 {
            ("error"@, "所有文件上传失败，请检查网络连接和服务配置"@, None)
        } else {
            (
                "success"@,
                "Indexed "@ + spec_dec(existing + uploaded) + " blobs (existing: "@ + spec_dec(
                    existing,
                ) + ", new: "@ + spec_dec(uploaded) + ")"@,
                Some((existing + uploaded, existing, uploaded, None)),
            )
        },
    }
}

pub open spec fn spec_index_result_view(r: IndexResult) -> (Seq<char>, Seq<char>, Option<(int, int, int, Option<int>)>) {
    (
        r.status@,
        r.message@,
        match r.stats {
            Some(st) => Some(
                (
                    st.total_blobs as int,
                    st.existing_blobs as int,
                    st.new_blobs as int,
                    match st.failed_batches {
                        Some(f) => Some(f as int),
                        None => None,
                    },
                ),
            ),
            None => None,
        },
    )
}

fn dec(n: usize) -> (r: Vec<char>)
    ensures
        r@ == spec_dec(n as int),
{
    decimal(n as u64)
}

/// Builds the result of an indexing run (see `spec_index_result`).
pub fn summarize_index_run(
    existing: usize,
    uploaded: usize,
    failed: usize,
    fatal_error: Option<String>,
) -> (r: IndexResult)
    requires
        existing + uploaded <= usize::MAX,
    ensures
        spec_index_result_view(r) == spec_index_result(
            existing as int,
            uploaded as int,
            failed as int,
            match fatal_error {
                Some(e) => Some(e@),
                None => None,
            },
        ),
{
    let total = existing + uploaded;
    match fatal_error {
        Some(err) => {
            if uploaded > 0 {
                let mut m = lit("部分索引成功: ");
                append_chars(&mut m, &dec(total));
                append_chars(&mut m, &lit(" 个文件块已保存 (已有: "));
                append_chars(&mut m, &dec(existing));
                append_chars(&mut m, &lit(", 新增: "));
                append_chars(&mut m, &dec(uploaded));
                append_chars(&mut m, &lit(")。错误: "));
                append_chars(&mut m, &to_chars(err.as_str()));
                append_chars(&mut m, &lit("。请修复问题后重试，已完成的部分会被保留。"));
                IndexResult {
                    status: "partial_success".to_owned(),
                    message: string_from_chars(m.as_slice()),
                    stats: Some(
                        IndexStats {
                            total_blobs: total,
                            existing_blobs: existing,
                            new_blobs: uploaded,
                            failed_batches: Some(failed),
                        },
                    ),
                }
            } else if existing > 0 {
                let mut m = lit("本次上传失败，但保留了 ");
                append_chars(&mut m, &dec(existing));
                append_chars(&mut m, &lit(" 个已有索引。错误: "));
                append_chars(&mut m, &to_chars(err.as_str()));
                append_chars(&mut m, &lit("。请修复问题后重试。"));
                IndexResult {
                    status: "partial_success".to_owned(),
                    message: string_from_chars(m.as_slice()),
                    stats: Some(
                        IndexStats {
                            total_blobs: existing,
                            existing_blobs: existing,
                            new_blobs: 0,
                            failed_batches: Some(failed),
                        },
                    ),
                }
            } else {
                IndexResult { status: "error".to_owned(), message: err, stats: None }
            }
        },
        None => {
            if failed > 0 && uploaded == 0 && existing == 0 {
                IndexResult {
                    status: "error".to_owned(),
                    message: "所有文件上传失败，请检查网络连接和服务配置".to_owned(),
                    stats: None,
                }
            } else {
                let mut m = lit("Indexed ");
                append_chars(&mut m, &dec(total));
                append_chars(&mut m, &lit(" blobs (existing: "));
                append_chars(&mut m, &dec(existing));
                append_chars(&mut m, &lit(", new: "));
                append_chars(&mut m, &dec(uploaded));
                append_chars(&mut m, &lit(")"));
                IndexResult {
                    status: "success".to_owned(),
                    message: string_from_chars(m.as_slice()),
                    stats: Some(
                        IndexStats {
                            total_blobs: total,
                            existing_blobs: existing,
                            new_blobs: uploaded,
                            failed_batches: None,
                        },
                    ),
                }
            }
        },
    }
}

/// The result of an indexing run that found no text file.
pub fn no_files_result() -> (r: IndexResult)
    ensures
        r.status@ == "error"@,
        r.message@ == "No text files found in project"@,
        r.stats is None,
{
    IndexResult {
        status: "error".to_owned(),
        message: "No text files found in project".to_owned(),
        stats: None,
    }
}

/// The error that ends the retrieval request at once, for an HTTP status or a transport
/// message that no retry can mend; `None` when another attempt may help.
pub open spec fn spec_retrieval_fatal(status: Option<u16>, message: Seq<char>) -> Option<Seq<char>> {
    if status == Some(401u16) {
        Some("Token 已失效或无效，请更新 ACE_TOKEN 环境变量"@)
    } else if status == Some(403u16) {
        Some("访问被拒绝，Token 可能已被官方禁用，请联系服务提供商"@)
    } else if status == Some(502u16) {
        Some("服务器网关错误 (502)，ACE 服务可能暂时不可用，请稍后重试"@)
    } else if status == Some(503u16) {
        Some("服务暂时不可用 (503)，ACE 服务可能正在维护，请稍后重试"@)
    } else if status == Some(504u16) {
        Some("网关超时 (504)，服务器响应过慢，请稍后重试"@)
    } else if crate::text::spec_contains(message, "certificate"@) || crate::text::spec_contains(
        message,
        "tls"@,
    ) {
        Some("SSL 证书验证失败，请检查 ACE_BASE_URL 配置是否正确，或联系服务提供商"@)
    } else {
        None
    }
}

pub fn retrieval_fatal_error(status: Option<u16>, message: &str) -> (r: Option<String>)
    ensures
        match (r, spec_retrieval_fatal(status, message@)) {
            (Some(a), Some(b)) => a@ == b,
            (None, None) => true,
            _ => false,
        },
{
    match status {
        Some(401) => {
            return Some("Token 已失效或无效，请更新 ACE_TOKEN 环境变量".to_owned());
        },
        Some(403) => {
            return Some("访问被拒绝，Token 可能已被官方禁用，请联系服务提供商".to_owned());
        },
        Some(502) => {
            return Some("服务器网关错误 (502)，ACE 服务可能暂时不可用，请稍后重试".to_owned());
        },
        Some(503) => {
            return Some("服务暂时不可用 (503)，ACE 服务可能正在维护，请稍后重试".to_owned());
        },
        Some(504) => {
            return Some("网关超时 (504)，服务器响应过慢，请稍后重试".to_owned());
        },
        _ => {},
    }
    let m = to_chars(message);
    if crate::text::contains(&m, &lit("certificate")) || crate::text::contains(&m, &lit("tls")) {
        return Some("SSL 证书验证失败，请检查 ACE_BASE_URL 配置是否正确，或联系服务提供商".to_owned());
    }
    None
}

/// Milliseconds to wait after failed retrieval attempt `attempt` (from zero): 1000, 2000, ...
pub fn retrieval_backoff_ms(attempt: u32) -> (ms: u64)
    requires
        attempt < 54,
    ensures
        ms == 1000 * vstd::arithmetic::power2::pow2(attempt as nat),
{
    let mut ms: u64 = 1000;
    let mut i: u32 = 0;
    proof {
        vstd::arithmetic::power2::lemma_pow2(0);
        vstd::arithmetic::power::lemma_pow0(2);
    }
    while i < attempt
        invariant
            i <= attempt < 54,
            ms == 1000 * vstd::arithmetic::power2::pow2(i as nat),
        decreases attempt - i,
    {
        proof {
            vstd::arithmetic::power2::lemma_pow2_adds(i as nat, 1);
            vstd::arithmetic::power2::lemma2_to64();
            vstd::arithmetic::power2::lemma2_to64_rest();
            if i + 1 < 53 {
                vstd::arithmetic::power2::lemma_pow2_strictly_increases((i + 1) as nat, 53);
            }
            let p = vstd::arithmetic::power2::pow2((i + 1) as nat);
            assert(p <= 9007199254740992);
            assert(1000 * p <= 9007199254740992000) by (nonlinear_arith)
                requires
                    p <= 9007199254740992,
            ;
        }
        ms = ms * 2;
        i += 1;
    }
    ms
}

/// The answer of the retrieval service: its formatted context, or a notice when empty.
pub fn retrieval_answer(formatted: Option<&str>) -> (r: String)
    ensures
        r@ == match formatted {
            Some(f) if f@.len() > 0 => f@,
            _ => "No relevant code context found for your query."@,
        },
{
    match formatted {
        Some(f) => if f.is_empty() {
            "No relevant code context found for your query.".to_owned()
        } else {
            f.to_owned()
        },
        None => "No relevant code context found for your query.".to_owned(),
    }
}

/// Whether a batch is over the upload size limit, from the byte sizes of its blobs.
pub fn batch_too_large(sizes: &Vec<usize>) -> (b: bool)
    ensures
        b == (sizes@.fold_left(0int, |acc: int, x: usize| acc + x) > MAX_BATCH_SIZE),
{
    let mut sum: usize = 0;
    let mut i: usize = 0;
    while i < sizes.len()
        invariant
            i <= sizes.len(),
            sum <= MAX_BATCH_SIZE,
            sum == sizes@.take(i as int).fold_left(0int, |acc: int, x: usize| acc + x),
        decreases sizes.len() - i,
    {
        proof {
            assert(sizes@.take(i + 1).drop_last() =~= sizes@.take(i as int));
        }
        if sizes[i] > MAX_BATCH_SIZE - sum {
            proof {
                lemma_fold_sum_monotone(sizes@, i + 1);
            }
            return true;
        }
        sum = sum + sizes[i];
        i += 1;
    }
    proof {
        assert(sizes@.take(sizes@.len() as int) =~= sizes@);
    }
    false
}

proof fn lemma_fold_sum_monotone(s: Seq<usize>, k: int)
    requires
        0 <= k <= s.len(),
    ensures
        s.fold_left(0int, |acc: int, x: usize| acc + x) >= s.take(k).fold_left(
            0int,
            |acc: int, x: usize| acc + x,
        ),
    decreases s.len() - k,
{
    if k < s.len() {
        lemma_fold_sum_monotone(s, k + 1);
        assert(s.take(k + 1).drop_last() =~= s.take(k));
    } else {
        assert(s.take(k) =~= s);
    }
}

/// The name a blob is stored under (see `calculate_blob_name`).
pub open spec fn spec_blob_name(b: Blob) -> Seq<char> {
    spec_hex(sha256_utf8(b.path@ + b.content@))
}

/// The names of a list of blobs.
pub open spec fn spec_blob_names(v: Seq<Blob>) -> Seq<Seq<char>> {
    v.map_values(|b: Blob| spec_blob_name(b))
}

/// No later blob has the name of blob `i` (it is the one kept for that name).
pub open spec fn spec_last_of_name(blobs: Seq<Blob>, i: int) -> bool {
    forall|k: int| i < k < blobs.len() ==> spec_blob_name(#[trigger] blobs[k]) != spec_blob_name(blobs[i])
}

/// `nm[i..n]` holds `x` exactly when `x` is `nm[i]` or `nm[i+1..n]` holds it.
pub proof fn lemma_subrange_step(nm: Seq<Seq<char>>, i: int, n: int)
    requires
        0 <= i < n <= nm.len(),
    ensures
        forall|x: Seq<char>|
            #![trigger nm.subrange(i, n).contains(x)]
            nm.subrange(i, n).contains(x) <==> (x == nm[i] || nm.subrange(i + 1, n).contains(x)),
{
    let whole = nm.subrange(i, n);
    let tail = nm.subrange(i + 1, n);
    assert forall|x: Seq<char>| whole.contains(x) <==> (x == nm[i] || tail.contains(x)) by {
        if whole.contains(x) {
            let k = choose|k: int| 0 <= k < whole.len() && #[trigger] whole[k] == x;
            if k > 0 {
                assert(tail[k - 1] == x);
            }
        }
        if x == nm[i] {
            assert(whole[0] == x);
        }
        if tail.contains(x) {
            let k = choose|k: int| 0 <= k < tail.len() && #[trigger] tail[k] == x;
            assert(whole[k + 1] == x);
        }
    }
}

/// Appending a value a list without repeats lacks keeps it without repeats and adds just it.
pub proof fn lemma_push_new(s: Seq<Seq<char>>, x: Seq<char>)
    requires
        s.no_duplicates(),
        !s.contains(x),
    ensures
        s.push(x).no_duplicates(),
        forall|y: Seq<char>| #![trigger s.push(x).contains(y)] s.push(x).contains(y) <==> (y == x || s.contains(y)),
{
    let t = s.push(x);
    assert forall|a: int, b: int| 0 <= a < b < t.len() implies t[a] != t[b] by {
        if b == s.len() {
            assert(s.contains(s[a]));
        }
    }
    assert forall|y: Seq<char>| t.contains(y) <==> (y == x || s.contains(y)) by {
        if t.contains(y) {
            let k = choose|k: int| 0 <= k < t.len() && #[trigger] t[k] == y;
            if k < s.len() {
                assert(s[k] == y);
            }
        }
        if s.contains(y) {
            let k = choose|k: int| 0 <= k < s.len() && #[trigger] s[k] == y;
            assert(t[k] == y);
        }
        if y == x {
            assert(t[s.len() as int] == y);
        }
    }
}

/// `b` is a copy of a blob that is the last of its name.
pub open spec fn spec_kept_blob(blobs: Seq<Blob>, b: Blob) -> bool {
    exists|j: int|
        0 <= j < blobs.len() && spec_last_of_name(blobs, j) && b.path@ == blobs[j].path@
            && b.content@ == blobs[j].content@
}

/// What an indexing run sends: the names the index already holds, and the blobs it lacks.
pub struct UploadPlan {
    pub existing_hashes: Vec<String>,
    pub to_upload: Vec<Blob>,
}

/// Splits the collected blobs by name into those the index already holds (by their names,
/// each once) and those to upload (one blob per name, the last one collected).
pub fn plan_upload(blobs: &Vec<Blob>, existing: &Vec<String>) -> (r: UploadPlan)
    ensures
        string_views(r.existing_hashes@).no_duplicates(),
        spec_blob_names(r.to_upload@).no_duplicates(),
        forall|x: Seq<char>|
            #![trigger string_views(r.existing_hashes@).contains(x)]
            string_views(r.existing_hashes@).contains(x) <==> (string_views(existing@).contains(x)
                && spec_blob_names(blobs@).contains(x)),
        forall|x: Seq<char>|
            #![trigger spec_blob_names(r.to_upload@).contains(x)]
            spec_blob_names(r.to_upload@).contains(x) <==> (!string_views(existing@).contains(x)
                && spec_blob_names(blobs@).contains(x)),
        forall|t: int| 0 <= t < r.to_upload.len() ==> spec_kept_blob(blobs@, #[trigger] r.to_upload@[t]),
{
    let n = blobs.len();
    let mut names: Vec<String> = Vec::new();
    let mut i: usize = 0;
    while i < n
        invariant
            i <= n == blobs.len(),
            names.len() == i,
            forall|k: int| 0 <= k < i ==> (#[trigger] names@[k])@ == spec_blob_name(blobs@[k]),
        decreases n - i,
    {
        names.push(calculate_blob_name(blobs[i].path.as_str(), blobs[i].content.as_str()));
        i += 1;
    }
    let ghost nm = string_views(names@);
    proof {
        assert(nm =~= spec_blob_names(blobs@));
    }
    let mut seen: Vec<String> = Vec::new();
    let mut known: Vec<String> = Vec::new();
    let mut upload: Vec<Blob> = Vec::new();
    let ghost mut origin: Seq<int> = Seq::empty();
    let ghost ex = string_views(existing@);
    let mut i: usize = n;
    while i > 0
        invariant
            i <= n == blobs.len() == names.len(),
            nm == string_views(names@),
            nm == spec_blob_names(blobs@),
            ex == string_views(existing@),
            string_views(seen@).no_duplicates(),
            forall|x: Seq<char>|
                #![trigger string_views(seen@).contains(x)]
                string_views(seen@).contains(x) <==> nm.subrange(i as int, n as int).contains(x),
            string_views(known@).no_duplicates(),
            forall|x: Seq<char>|
                #![trigger string_views(known@).contains(x)]
                string_views(known@).contains(x) <==> (ex.contains(x) && nm.subrange(
                    i as int,
                    n as int,
                ).contains(x)),
            spec_blob_names(upload@).no_duplicates(),
            forall|x: Seq<char>|
                #![trigger spec_blob_names(upload@).contains(x)]
                spec_blob_names(upload@).contains(x) <==> (!ex.contains(x) && nm.subrange(
                    i as int,
                    n as int,
                ).contains(x)),
            origin.len() == upload.len(),
            forall|t: int|
                0 <= t < upload.len() ==> i <= #[trigger] origin[t] < n && spec_last_of_name(
                    blobs@,
                    origin[t],
                ) && upload@[t].path@ == blobs@[origin[t]].path@ && upload@[t].content@
                    == blobs@[origin[t]].content@,
        decreases i,
    {
        let ghost hi = i as int;
        i -= 1;
        let ghost x0 = nm[i as int];
        proof {
            assert(names@[i as int]@ == x0);
            lemma_subrange_step(nm, i as int, n as int);
        }
        let already = contains_string(&seen, &names[i]);
        if !already {
            proof {
                assert forall|k: int| i < k < n implies spec_blob_name(
                    #[trigger] blobs@[k],
                ) != spec_blob_name(blobs@[i as int]) by {
                    assert(nm.subrange(hi, n as int)[k - hi] == nm[k]);
                    if nm[k] == x0 {
                        assert(nm.subrange(hi, n as int).contains(x0));
                    }
                }
            }
            let ghost seen0 = string_views(seen@);
            seen.push(names[i].clone());
            proof {
                assert(string_views(seen@) =~= seen0.push(x0));
                lemma_push_new(seen0, x0);
            }
            if contains_string(existing, &names[i]) {
                let ghost known0 = string_views(known@);
                known.push(names[i].clone());
                proof {
                    assert(string_views(known@) =~= known0.push(x0));
                    lemma_push_new(known0, x0);
                }
            } else {
                let ghost up0 = spec_blob_names(upload@);
                let b = Blob { path: blobs[i].path.clone(), content: blobs[i].content.clone() };
                upload.push(b);
                proof {
                    assert(spec_blob_names(upload@) =~= up0.push(x0));
                    lemma_push_new(up0, x0);
                    origin = origin.push(i as int);
                }
            }
        }
    }
    proof {
        assert(nm.subrange(0, n as int) =~= nm);
        assert forall|t: int| 0 <= t < upload.len() implies spec_kept_blob(blobs@, #[trigger] upload@[t]) by {
            let j = origin[t];
            assert(0 <= j < blobs.len() && spec_last_of_name(blobs@, j) && upload@[t].path@
                == blobs@[j].path@ && upload@[t].content@ == blobs@[j].content@);
        }
    }
    UploadPlan { existing_hashes: known, to_upload: upload }
}

/// How one uploaded batch ended.
pub enum BatchOutcome {
    /// The service stored the batch under these names.
    Stored(Vec<String>),
    /// The batch failed; these blobs are tried again in the next round.
    Failed(Vec<Blob>),
    /// The upload failed in a way that stops the run.
    Fatal(String),
    /// The upload task was lost; nothing is recorded for it.
    Lost,
}

/// The retry rounds of an upload: what is still pending, the batch size, the round number,
/// the names stored so far, a fatal error if one stopped the run, and the blobs that failed
/// in the current round.
pub struct UploadRun {
    pub pending: Vec<Blob>,
    pub batch_size: usize,
    pub round: usize,
    pub in_round: bool,
    pub uploaded: Vec<String>,
    pub fatal: Option<String>,
    pub failed_in_round: Vec<Blob>,
}

/// Most upload rounds of one run.
pub const MAX_UPLOAD_ROUNDS: usize = 3;

impl UploadRun {
    /// The batch size is positive, and a round is only open while fewer than
    /// `MAX_UPLOAD_ROUNDS` have ended.
    pub open spec fn wf(&self) -> bool {
        &&& self.batch_size > 0
        &&& self.round <= MAX_UPLOAD_ROUNDS
        &&& self.in_round ==> self.round < MAX_UPLOAD_ROUNDS
    }

    /// A run over the blobs to upload, starting with batches of `batch_size`.
    pub fn start(to_upload: Vec<Blob>, batch_size: usize) -> (r: Self)
        requires
            batch_size > 0,
        ensures
            r.wf(),
            r.pending@ == to_upload@,
            r.batch_size == batch_size,
            r.round == 0,
            !r.in_round,
            r.uploaded@.len() == 0,
            r.fatal is None,
            r.failed_in_round@.len() == 0,
    {
        UploadRun {
            pending: to_upload,
            batch_size,
            round: 0,
            in_round: false,
            uploaded: Vec::new(),
            fatal: None,
            failed_in_round: Vec::new(),
        }
    }

    /// Opens the next round while blobs are pending, fewer than `MAX_UPLOAD_ROUNDS` rounds
    /// have run and nothing was fatal: the batch size becomes that of the round (see
    /// `next_batch_size`) and the pending blobs' batches are returned. Otherwise `None`, and
    /// nothing changes.
    pub fn next_round(&mut self) -> (r: Option<Vec<(usize, usize)>>)
        requires
            old(self).wf(),
            !old(self).in_round,
        ensures
            final(self).wf(),
            final(self).pending@ == old(self).pending@,
            final(self).uploaded@ == old(self).uploaded@,
            final(self).fatal == old(self).fatal,
            final(self).failed_in_round@ == old(self).failed_in_round@,
            final(self).round == old(self).round,
            (old(self).pending.len() > 0 && old(self).round < MAX_UPLOAD_ROUNDS
                && old(self).fatal is None) <==> r is Some,
            match r {
                Some(plan) => {
                    &&& final(self).in_round
                    &&& final(self).batch_size == if old(self).round == 0 {
                        old(self).batch_size
                    } else if old(self).batch_size / 2 > 5 {
                        old(self).batch_size / 2
                    } else {
                        5
                    }
                    &&& plan@.len() == spec_chunk_count(
                        old(self).pending.len() as int,
                        final(self).batch_size as int,
                    )
                    &&& forall|k: int|
                        0 <= k < plan@.len() ==> (#[trigger] plan@[k]).0 == k
                            * final(self).batch_size && plan@[k].1 == spec_chunk_end(
                            k,
                            final(self).batch_size as int,
                            old(self).pending.len() as int,
                        )
                },
                None => !final(self).in_round && final(self).batch_size == old(self).batch_size,
            },
    {
        if self.pending.len() > 0 && self.round < MAX_UPLOAD_ROUNDS && self.fatal.is_none() {
            self.batch_size = next_batch_size(self.batch_size, self.round);
            self.in_round = true;
            Some(plan_batches(self.pending.len(), self.batch_size))
        } else {
            None
        }
    }

    /// Records how one batch of the open round ended.
    pub fn record(&mut self, outcome: BatchOutcome)
        ensures
            final(self).pending@ == old(self).pending@,
            final(self).batch_size == old(self).batch_size,
            final(self).round == old(self).round,
            final(self).in_round == old(self).in_round,
            match outcome {
                BatchOutcome::Stored(names) => {
                    &&& final(self).uploaded@ == old(self).uploaded@ + names@
                    &&& final(self).fatal == old(self).fatal
                    &&& final(self).failed_in_round@ == old(self).failed_in_round@
                },
                BatchOutcome::Failed(blobs) => {
                    &&& final(self).failed_in_round@ == old(self).failed_in_round@ + blobs@
                    &&& final(self).uploaded@ == old(self).uploaded@
                    &&& final(self).fatal == old(self).fatal
                },
                BatchOutcome::Fatal(e) => {
                    &&& final(self).fatal == Some(e)
                    &&& final(self).uploaded@ == old(self).uploaded@
                    &&& final(self).failed_in_round@ == old(self).failed_in_round@
                },
                BatchOutcome::Lost => {
                    &&& final(self).uploaded@ == old(self).uploaded@
                    &&& final(self).fatal == old(self).fatal
                    &&& final(self).failed_in_round@ == old(self).failed_in_round@
                },
            },
    {
        match outcome {
            BatchOutcome::Stored(names) => {
                let mut names = names;
                self.uploaded.append(&mut names);
            },
            BatchOutcome::Failed(blobs) => {
                let mut blobs = blobs;
                self.failed_in_round.append(&mut blobs);
            },
            BatchOutcome::Fatal(e) => {
                self.fatal = Some(e);
            },
            BatchOutcome::Lost => {},
        }
    }

    /// Closes the open round: its failed blobs become the pending ones. Without an open round
    /// nothing changes.
    pub fn end_round(&mut self)
        requires
            old(self).wf(),
        ensures
            final(self).wf(),
            final(self).batch_size == old(self).batch_size,
            final(self).uploaded@ == old(self).uploaded@,
            final(self).fatal == old(self).fatal,
            !final(self).in_round,
            old(self).in_round ==> final(self).pending@ == old(self).failed_in_round@
                && final(self).failed_in_round@.len() == 0 && final(self).round == old(self).round
                + 1,
            !old(self).in_round ==> final(self).pending@ == old(self).pending@
                && final(self).failed_in_round@ == old(self).failed_in_round@ && final(self).round
                == old(self).round,
    {
        if self.in_round {
            let mut next: Vec<Blob> = Vec::new();
            std::mem::swap(&mut next, &mut self.failed_in_round);
            self.pending = next;
            self.round = self.round + 1;
            self.in_round = false;
        }
    }
}

/// `v` is `{"checkpoint_id": null, "added_blobs": blobs, "deleted_blobs": []}`.
pub open spec fn spec_is_blob_set(v: JsonValue, blobs: Seq<Seq<char>>) -> bool {
    match v {
        JsonValue::Object(m) => m.len() == 3 && m[0].0@ == "checkpoint_id"@ && m[0].1 is Null
            && m[1].0@ == "added_blobs"@ && spec_is_str_array(m[1].1, blobs) && m[2].0@
            == "deleted_blobs"@ && spec_is_empty_array(m[2].1),
        _ => false,
    }
}

/// The blob set `{"checkpoint_id": null, "added_blobs": names, "deleted_blobs": []}`.
pub fn blob_set(blob_names: &Vec<String>) -> (r: JsonValue)
    ensures
        spec_is_blob_set(r, string_views(blob_names@)),
{
    let mut m: Vec<(String, JsonValue)> = Vec::new();
    m.push(("checkpoint_id".to_string(), JsonValue::Null));
    m.push(("added_blobs".to_string(), json_str_array(blob_names)));
    m.push(("deleted_blobs".to_string(), JsonValue::Array(Vec::new())));
    JsonValue::Object(m)
}

/// `v` is the body of a retrieval request: the query, the indexed blobs, an empty dialog,
/// no output limit, codebase retrieval on and commit retrieval off.
pub open spec fn spec_retrieval_payload(v: JsonValue, query: Seq<char>, blobs: Seq<Seq<char>>) -> bool {
    match v {
        JsonValue::Object(m) => m.len() == 6 && m[0].0@ == "information_request"@ && spec_is_str(
            m[0].1,
            query,
        ) && m[1].0@ == "blobs"@ && spec_is_blob_set(m[1].1, blobs) && m[2].0@ == "dialog"@
            && spec_is_empty_array(m[2].1) && m[3].0@ == "max_output_length"@ && spec_is_number(
            m[3].1,
            "0"@,
        ) && m[4].0@ == "disable_codebase_retrieval"@ && m[4].1 == JsonValue::Bool(false) && m[5].0@
            == "enable_commit_retrieval"@ && m[5].1 == JsonValue::Bool(false),
        _ => false,
    }
}

/// The body of a codebase-retrieval request for `query` over the indexed blobs.
pub fn build_retrieval_payload(query: &str, blob_names: &Vec<String>) -> (r: JsonValue)
    ensures
        spec_retrieval_payload(r, query@, string_views(blob_names@)),
{
    let mut m: Vec<(String, JsonValue)> = Vec::new();
    m.push(("information_request".to_string(), json_str(query)));
    m.push(("blobs".to_string(), blob_set(blob_names)));
    m.push(("dialog".to_string(), JsonValue::Array(Vec::new())));
    m.push(("max_output_length".to_string(), JsonValue::Number("0".to_string())));
    m.push(("disable_codebase_retrieval".to_string(), JsonValue::Bool(false)));
    m.push(("enable_commit_retrieval".to_string(), JsonValue::Bool(false)));
    JsonValue::Object(m)
}

/// `v` is `{"path": path, "content": content}`.
pub open spec fn spec_is_blob_json(v: JsonValue, b: Blob) -> bool {
    match v {
        JsonValue::Object(m) => m.len() == 2 && m[0].0@ == "path"@ && spec_is_str(m[0].1, b.path@)
            && m[1].0@ == "content"@ && spec_is_str(m[1].1, b.content@),
        _ => false,
    }
}

/// `v` is the body of an upload: `{"blobs": [...]}` with the batch's blobs in order.
pub open spec fn spec_upload_payload(v: JsonValue, batch: Seq<Blob>) -> bool {
    match v {
        JsonValue::Object(m) => m.len() == 1 && m[0].0@ == "blobs"@ && match m[0].1 {
            JsonValue::Array(a) => a.len() == batch.len() && forall|i: int|
                0 <= i < a.len() ==> spec_is_blob_json(#[trigger] a@[i], batch[i]),
            _ => false,
        },
        _ => false,
    }
}

/// The body of a batch upload.
pub fn build_upload_payload(batch: &Vec<Blob>) -> (r: JsonValue)
    ensures
        spec_upload_payload(r, batch@),
{
    let mut a: Vec<JsonValue> = Vec::new();
    let mut i: usize = 0;
    while i < batch.len()
        invariant
            i <= batch.len(),
            a.len() == i,
            forall|j: int| 0 <= j < i ==> spec_is_blob_json(#[trigger] a@[j], batch@[j]),
        decreases batch.len() - i,
    {
        let mut o: Vec<(String, JsonValue)> = Vec::new();
        o.push(("path".to_string(), json_str(batch[i].path.as_str())));
        o.push(("content".to_string(), json_str(batch[i].content.as_str())));
        a.push(JsonValue::Object(o));
        i += 1;
    }
    let mut m: Vec<(String, JsonValue)> = Vec::new();
    m.push(("blobs".to_string(), JsonValue::Array(a)));
    JsonValue::Object(m)
}

/// The strings among the first `k` items.
pub open spec fn spec_strings_prefix(items: Seq<JsonValue>, k: int) -> Seq<Seq<char>>
    decreases k,
{
    if k <= 0 {
        Seq::empty()
    } else {
        spec_strings_prefix(items, k - 1) + match items[k - 1] {
            JsonValue::Str(t) => seq![t@],
            _ => Seq::empty(),
        }
    }
}

/// The names an upload reply stored the batch under: the strings of its `blob_names` array
/// (none when it has no such array).
pub open spec fn spec_stored_names(reply: JsonValue) -> Seq<Seq<char>> {
    match reply.spec_get("blob_names"@) {
        Some(JsonValue::Array(a)) => spec_strings_prefix(a@, a@.len() as int),
        _ => Seq::empty(),
    }
}

pub fn stored_names(reply: &JsonValue) -> (r: Vec<String>)
    ensures
        string_views(r@) == spec_stored_names(*reply),
{
    let mut r: Vec<String> = Vec::new();
    match reply.get("blob_names") {
        Some(v) => match v.as_array() {
            Some(items) => {
                let mut i: usize = 0;
                while i < items.len()
                    invariant
                        i <= items.len(),
                        string_views(r@) == spec_strings_prefix(items@, i as int),
                    decreases items.len() - i,
                {
                    let ghost pre = string_views(r@);
                    match items[i].as_str() {
                        Some(t) => {
                            r.push(t.to_string());
                            proof {
                                assert(string_views(r@) =~= pre.push(t@));
                            }
                        },
                        None => {},
                    }
                    proof {
                        assert(string_views(r@) =~= spec_strings_prefix(items@, i + 1));
                    }
                    i += 1;
                }
            },
            None => {},
        },
        None => {},
    }
    r
}

} // verus!
