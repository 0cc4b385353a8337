//! Local keyword search: chunking, tokenisation, query analysis, time budgets, cache keys
//! and the text that is rendered for the summary and re-rank requests.
use vstd::prelude::*;

use crate::index::{LocalIndexRebuildMode, LocalRerankMode};
use crate::hashing::{sha256_hex, sha256_utf8, spec_hex};
use crate::json::{spec_text_parts, text_parts, JsonValue};
use crate::text::{
    append_chars, chars_eq, contains, contains_cjk, copy_chars, decimal, eq_lit,
    insert_sorted_unique, is_ascii_alnum, is_ascii_alpha, is_ascii_digit, is_ascii_lower,
    is_ascii_upper, is_cjk, join, keyword, lemma_sorted_unique, lines, lit, lower_char, lower_seq,
    push_lit, replace_all, slice_chars, spec_contains, spec_contains_cjk, spec_decimal,
    spec_is_ascii_alnum, spec_is_ascii_alpha, spec_is_ascii_digit, spec_is_ascii_lower,
    spec_is_ascii_upper, spec_is_cjk, spec_join, spec_keyword, spec_lines, spec_lower,
    spec_lower_seq, spec_replace, spec_split, spec_strictly_sorted, spec_trim, spec_trim_end,
    spec_trim_start, split_char, string_from_chars, string_views, to_chars, to_strings, trim,
    trim_end, trim_start, views,
};

verus! {

pub const INDEX_VERSION: u32 = 3;

pub const DEFAULT_CHUNK_LINES: usize = 120;

pub const DEFAULT_CHUNK_OVERLAP_LINES: usize = 20;

pub const DEFAULT_TOP_K: usize = 8;

pub const DEFAULT_SUMMARY_TIMEOUT_SEC: u64 = 90;

pub const DEFAULT_SUMMARY_SOFT_TIMEOUT_SEC: u64 = 60;

pub const MIN_SUMMARY_BUDGET_SEC: u64 = 8;

pub const SUMMARY_RESPONSE_GUARD_SEC: u64 = 5;

pub const SUMMARY_MAX_CANDIDATES: usize = 5;

pub const SUMMARY_SNIPPET_MAX_LINES: usize = 18;

pub const SUMMARY_SNIPPET_MAX_CHARS: usize = 1800;

pub const SUMMARY_CONTEXT_MAX_CHARS: usize = 18000;

pub const QUERY_CACHE_TTL_SEC: u64 = 604800;

pub const RERANK_CACHE_TTL_SEC: u64 = 259200;

pub const QUERY_CACHE_MAX_ENTRIES: usize = 200;

pub const RERANK_CACHE_MAX_ENTRIES: usize = 200;

pub const SOFT_MAX_RESULTS_PER_FILE: usize = 2;

pub const RANK_CANDIDATE_POOL_MULTIPLIER: usize = 4;

pub const MIN_RERANK_CANDIDATES: usize = 4;

pub const DEFAULT_RERANK_TIMEOUT_SEC: u64 = 10;

pub const RERANK_RESPONSE_GUARD_SEC: u64 = 6;

pub const MIN_RERANK_BUDGET_SEC: u64 = 4;

pub const RERANK_CONTEXT_MAX_CHARS: usize = 9000;

/// Lines per chunk for a given `max_lines_per_blob`.
pub open spec fn spec_chunk_lines(max_lines_per_blob: usize) -> int {
    let m = if max_lines_per_blob < 1 {
        1
    } else {
        max_lines_per_blob as int
    };
    if m < DEFAULT_CHUNK_LINES {
        m
    } else {
        DEFAULT_CHUNK_LINES as int
    }
}

/// Lines shared by two neighbouring chunks.
pub open spec fn spec_chunk_overlap(chunk_lines: int) -> int {
    let o = if chunk_lines / 3 < DEFAULT_CHUNK_OVERLAP_LINES {
        chunk_lines / 3
    } else {
        DEFAULT_CHUNK_OVERLAP_LINES as int
    };
    if o < 10 {
        10
    } else {
        o
    }
}

/// Distance between the first lines of two neighbouring chunks.
pub open spec fn spec_chunk_step(chunk_lines: int) -> int {
    let d = chunk_lines - spec_chunk_overlap(chunk_lines);
    if d < 1 {
        1
    } else {
        d
    }
}

/// The text with `\r\n` and lone `\r` turned into `\n`.
pub open spec fn spec_normalize_newlines(s: Seq<char>) -> Seq<char> {
    spec_replace(spec_replace(s, "\r\n"@, "\n"@), "\r"@, "\n"@)
}

/// The chunks from line index `start` on: `(first line, last line, trimmed text)`, line
/// numbers counted from 1; chunks whose text is blank are left out.
pub open spec fn spec_chunks_from(ls: Seq<Seq<char>>, start: int, chunk: int, step: int) -> Seq<
    (int, int, Seq<char>),
>
    decreases ls.len() - start,
{
    if start < 0 || start >= ls.len() || chunk < 1 || step < 1 {
        Seq::empty()
    } else {
        let end = if start + chunk < ls.len() {
            start + chunk
        } else {
            ls.len() as int
        };
        let text = spec_trim(spec_join(ls.subrange(start, end), "\n"@));
        let here: Seq<(int, int, Seq<char>)> = if text.len() > 0 {
            seq![(start + 1, end, text)]
        } else {
            Seq::empty()
        };
        if end == ls.len() || start + step >= ls.len() {
            here
        } else {
            here + spec_chunks_from(ls, start + step, chunk, step)
        }
    }
}

/// The overlapping line chunks of a file's content.
pub open spec fn spec_local_chunks(content: Seq<char>, max_lines_per_blob: usize) -> Seq<
    (int, int, Seq<char>),
> {
    let ls = spec_lines(spec_normalize_newlines(content));
    let chunk = spec_chunk_lines(max_lines_per_blob);
    spec_chunks_from(ls, 0, chunk, spec_chunk_step(chunk))
}

pub open spec fn spec_chunk_views(v: Seq<(usize, usize, String)>) -> Seq<(int, int, Seq<char>)> {
    v.map_values(|c: (usize, usize, String)| (c.0 as int, c.1 as int, c.2@))
}

proof fn lemma_chunks_ranges(ls: Seq<Seq<char>>, start: int, chunk: int, step: int)
    requires
        0 <= start,
    ensures
        forall|i: int|
            0 <= i < spec_chunks_from(ls, start, chunk, step).len() ==> {
                let c = #[trigger] spec_chunks_from(ls, start, chunk, step)[i];
                &&& start + 1 <= c.0 <= c.1 <= ls.len()
                &&& c.1 - c.0 + 1 <= chunk
            },
    decreases ls.len() - start,
{
    if !(start < 0 || start >= ls.len() || chunk < 1 || step < 1) {
        let end = if start + chunk < ls.len() {
            start + chunk
        } else {
            ls.len() as int
        };
        let text = spec_trim(spec_join(ls.subrange(start, end), "\n"@));
        let here: Seq<(int, int, Seq<char>)> = if text.len() > 0 {
            seq![(start + 1, end, text)]
        } else {
            Seq::empty()
        };
        if end == ls.len() || start + step >= ls.len() {
            assert(spec_chunks_from(ls, start, chunk, step) == here);
        } else {
            lemma_chunks_ranges(ls, start + step, chunk, step);
            let rest = spec_chunks_from(ls, start + step, chunk, step);
            assert(spec_chunks_from(ls, start, chunk, step) == here + rest);
            assert forall|i: int|
                0 <= i < spec_chunks_from(ls, start, chunk, step).len() implies {
                let c = #[trigger] spec_chunks_from(ls, start, chunk, step)[i];
                &&& start + 1 <= c.0 <= c.1 <= ls.len()
                &&& c.1 - c.0 + 1 <= chunk
            } by {
                if i >= here.len() {
                    assert((here + rest)[i] == rest[i - here.len()]);
                }
            }
        }
    }
}

/// Splits a file into overlapping chunks of at most `min(120, max_lines_per_blob)` lines.
///
/// Every chunk's line range lies inside the file and spans no more than that many lines.
pub fn split_content_into_local_chunks(path: &str, content: &str, max_lines_per_blob: usize) -> (r:
    Vec<(usize, usize, String)>)
    ensures
        spec_chunk_views(r@) == spec_local_chunks(content@, max_lines_per_blob),
        forall|i: int|
            0 <= i < r.len() ==> {
                let c = #[trigger] r@[i];
                &&& 1 <= c.0 <= c.1
                &&& c.1 - c.0 + 1 <= spec_chunk_lines(max_lines_per_blob)
            },
{
    let c = to_chars(content);
    let crlf = lit("\r\n");
    let cr = lit("\r");
    let lf = lit("\n");
    proof {
        reveal_strlit("\r\n");
        reveal_strlit("\r");
    }
    let n1 = replace_all(&c, &crlf, &lf);
    let normalized = replace_all(&n1, &cr, &lf);
    let ls = lines(&normalized);
    let ghost lsv = views(ls@);
    let mut chunks: Vec<(usize, usize, String)> = Vec::new();
    if ls.len() == 0 {
        proof {
            assert(spec_chunk_views(chunks@) =~= Seq::<(int, int, Seq<char>)>::empty());
        }
        return chunks;
    }
    let m = if max_lines_per_blob < 1 {
        1
    } else {
        max_lines_per_blob
    };
    let chunk_lines = if m < DEFAULT_CHUNK_LINES {
        m
    } else {
        DEFAULT_CHUNK_LINES
    };
    let third = chunk_lines / 3;
    let o = if third < DEFAULT_CHUNK_OVERLAP_LINES {
        third
    } else {
        DEFAULT_CHUNK_OVERLAP_LINES
    };
    let overlap = if o < 10 {
        10
    } else {
        o
    };
    let d = if chunk_lines > overlap {
        chunk_lines - overlap
    } else {
        0
    };
    let step = if d < 1 {
        1
    } else {
        d
    };
    proof {
        assert(chunk_lines as int == spec_chunk_lines(max_lines_per_blob));
        assert(step as int == spec_chunk_step(chunk_lines as int));
        lemma_chunks_ranges(lsv, 0, chunk_lines as int, step as int);
    }
    let ghost total = spec_chunks_from(lsv, 0, chunk_lines as int, step as int);
    let nl = lit("\n");
    let mut start: usize = 0;
    loop
        invariant
            lsv == views(ls@),
            lsv == spec_lines(spec_normalize_newlines(c@)),
            c@ == content@,
            nl@ == "\n"@,
            1 <= chunk_lines <= 120,
            1 <= step <= 120,
            chunk_lines as int == spec_chunk_lines(max_lines_per_blob),
            step as int == spec_chunk_step(chunk_lines as int),
            start < ls.len(),
            total == spec_chunks_from(lsv, 0, chunk_lines as int, step as int),
            spec_chunk_views(chunks@) + spec_chunks_from(lsv, start as int, chunk_lines as int,
                step as int) == total,
        decreases ls.len() - start,
    {
        let end = if chunk_lines < ls.len() - start {
            start + chunk_lines
        } else {
            ls.len()
        };
        let mut group: Vec<Vec<char>> = Vec::new();
        let mut k: usize = start;
        while k < end
            invariant
                start <= k <= end <= ls.len(),
                lsv == views(ls@),
                group.len() == k - start,
                forall|j: int| 0 <= j < group.len() ==> #[trigger] group@[j]@ == lsv[start + j],
            decreases end - k,
        {
            let line = crate::text::copy_chars(&ls[k]);
            proof {
                assert(lsv[k as int] == ls@[k as int]@);
            }
            group.push(line);
            k += 1;
        }
        proof {
            assert(views(group@) =~= lsv.subrange(start as int, end as int));
        }
        let joined = join(&group, &nl);
        let text = trim(&joined);
        let ghost before = spec_chunk_views(chunks@);
        let ghost rest = spec_chunks_from(lsv, start as int, chunk_lines as int, step as int);
        if text.len() > 0 {
            let s = crate::text::string_from_chars(text.as_slice());
            chunks.push((start + 1, end, s));
            proof {
                assert(spec_chunk_views(chunks@) =~= before.push((start + 1, end as int, text@)));
            }
        } else {
            proof {
                assert(spec_chunk_views(chunks@) == before);
            }
        }
        if end == ls.len() {
            proof {
                if text.len() > 0 {
                    assert(rest == seq![(start + 1, end as int, text@)]);
                } else {
                    assert(rest =~= Seq::<(int, int, Seq<char>)>::empty());
                }
                assert(spec_chunk_views(chunks@) =~= before + rest);
                lemma_chunks_ranges(lsv, 0, chunk_lines as int, step as int);
                assert forall|i: int| 0 <= i < chunks.len() implies {
                    let c = #[trigger] chunks@[i];
                    &&& 1 <= c.0 <= c.1
                    &&& c.1 - c.0 + 1 <= spec_chunk_lines(max_lines_per_blob)
                } by {
                    assert(spec_chunk_views(chunks@)[i] == total[i]);
                    assert(spec_chunks_from(lsv, 0, chunk_lines as int, step as int)[i] == total[i]);
                }
            }
            return chunks;
        }
        proof {
            let here: Seq<(int, int, Seq<char>)> = if text.len() > 0 {
                seq![(start + 1, end as int, text@)]
            } else {
                Seq::empty()
            };
            assert(rest == here + spec_chunks_from(lsv, start + step, chunk_lines as int, step as int));
            assert(spec_chunk_views(chunks@) =~= before + here);
            assert(before + rest == (before + here) + spec_chunks_from(lsv, start + step, chunk_lines as int, step as int));
        }
        if step >= ls.len() - start {
            proof {
                assert(spec_chunks_from(lsv, start + step, chunk_lines as int, step as int) =~= Seq::<(int, int, Seq<char>)>::empty());
                assert(spec_chunk_views(chunks@) =~= total);
                lemma_chunks_ranges(lsv, 0, chunk_lines as int, step as int);
                assert forall|i: int| 0 <= i < chunks.len() implies {
                    let c = #[trigger] chunks@[i];
                    &&& 1 <= c.0 <= c.1
                    &&& c.1 - c.0 + 1 <= spec_chunk_lines(max_lines_per_blob)
                } by {
                    assert(spec_chunk_views(chunks@)[i] == total[i]);
                    assert(spec_chunks_from(lsv, 0, chunk_lines as int, step as int)[i] == total[i]);
                }
            }
            return chunks;
        }
        start = start + step;
    }
}


/// `s` has a character that is not whitespace.
pub open spec fn spec_has_text(s: Seq<char>) -> bool {
    exists|j: int| 0 <= j < s.len() && !crate::text::spec_is_ws(#[trigger] s[j])
}

proof fn lemma_trim_start_keeps_text(s: Seq<char>)
    requires
        spec_has_text(s),
    ensures
        spec_has_text(crate::text::spec_trim_start(s)),
    decreases s.len(),
{
    if s.len() > 0 && crate::text::spec_is_ws(s[0]) {
        let j = choose|j: int| 0 <= j < s.len() && !crate::text::spec_is_ws(#[trigger] s[j]);
        assert(s.drop_first()[j - 1] == s[j]);
        lemma_trim_start_keeps_text(s.drop_first());
    }
}

proof fn lemma_trim_end_keeps_text(s: Seq<char>)
    requires
        spec_has_text(s),
    ensures
        spec_has_text(crate::text::spec_trim_end(s)),
    decreases s.len(),
{
    if s.len() > 0 && crate::text::spec_is_ws(s.last()) {
        let j = choose|j: int| 0 <= j < s.len() && !crate::text::spec_is_ws(#[trigger] s[j]);
        assert(j < s.len() - 1);
        assert(s.drop_last()[j] == s[j]);
        lemma_trim_end_keeps_text(s.drop_last());
    }
}

proof fn lemma_join_keeps_text(parts: Seq<Seq<char>>, sep: Seq<char>, p: int)
    requires
        0 <= p < parts.len(),
        spec_has_text(parts[p]),
    ensures
        spec_has_text(spec_join(parts, sep)),
    decreases parts.len(),
{
    let j = choose|j: int| 0 <= j < parts[p].len() && !crate::text::spec_is_ws(#[trigger] parts[p][j]);
    if parts.len() == 1 {
        assert(spec_join(parts, sep) == parts[0]);
    } else {
        let front = spec_join(parts.drop_last(), sep);
        assert(spec_join(parts, sep) == front + sep + parts.last());
        if p == parts.len() - 1 {
            let k = front.len() + sep.len() + j;
            assert((front + sep + parts.last())[k] == parts.last()[j]);
        } else {
            assert(parts.drop_last()[p] == parts[p]);
            lemma_join_keeps_text(parts.drop_last(), sep, p);
            let k = choose|k: int| 0 <= k < front.len() && !crate::text::spec_is_ws(#[trigger] front[k]);
            assert((front + sep + parts.last())[k] == front[k]);
        }
    }
}

/// Every line from `start` on that has text lies in some chunk from `start` on, when the step
/// is no longer than a chunk.
proof fn lemma_chunks_cover(ls: Seq<Seq<char>>, start: int, chunk: int, step: int, i: int)
    requires
        0 <= start <= i < ls.len(),
        1 <= step <= chunk,
        spec_has_text(ls[i]),
    ensures
        exists|k: int|
            0 <= k < spec_chunks_from(ls, start, chunk, step).len() && (#[trigger] spec_chunks_from(
                ls,
                start,
                chunk,
                step,
            )[k]).0 <= i + 1 <= spec_chunks_from(ls, start, chunk, step)[k].1,
    decreases ls.len() - start,
{
    let end = if start + chunk < ls.len() {
        start + chunk
    } else {
        ls.len() as int
    };
    let window = ls.subrange(start, end);
    let text = spec_trim(spec_join(window, "\n"@));
    let here: Seq<(int, int, Seq<char>)> = if text.len() > 0 {
        seq![(start + 1, end, text)]
    } else {
        Seq::empty()
    };
    let all = spec_chunks_from(ls, start, chunk, step);
    if i < end {
        assert(window[i - start] == ls[i]);
        lemma_join_keeps_text(window, "\n"@, i - start);
        lemma_trim_start_keeps_text(spec_join(window, "\n"@));
        lemma_trim_end_keeps_text(crate::text::spec_trim_start(spec_join(window, "\n"@)));
        assert(text.len() > 0);
        if end == ls.len() || start + step >= ls.len() {
            assert(all == here);
        } else {
            assert(all == here + spec_chunks_from(ls, start + step, chunk, step));
        }
        assert(all[0] == (start + 1, end, text));
    } else {
        assert(end == start + chunk);
        assert(all == here + spec_chunks_from(ls, start + step, chunk, step));
        lemma_chunks_cover(ls, start + step, chunk, step, i);
        let rest = spec_chunks_from(ls, start + step, chunk, step);
        let k = choose|k: int| 0 <= k < rest.len() && (#[trigger] rest[k]).0 <= i + 1 <= rest[k].1;
        assert(all[here.len() + k] == rest[k]);
    }
}

/// The chunks of a file lose no text: every line of the file (after line-break
/// normalisation) that holds a non-whitespace character lies inside the line range of some
/// chunk. (Only runs of blank lines may fall outside every chunk.)
pub proof fn law_local_chunks_cover_text(content: Seq<char>, max_lines_per_blob: usize, i: int)
    requires
        0 <= i < spec_lines(spec_normalize_newlines(content)).len(),
        spec_has_text(spec_lines(spec_normalize_newlines(content))[i]),
    ensures
        exists|k: int|
            0 <= k < spec_local_chunks(content, max_lines_per_blob).len() && (
            #[trigger] spec_local_chunks(content, max_lines_per_blob)[k]).0 <= i + 1
                <= spec_local_chunks(content, max_lines_per_blob)[k].1,
{
    let ls = spec_lines(spec_normalize_newlines(content));
    let chunk = spec_chunk_lines(max_lines_per_blob);
    let step = spec_chunk_step(chunk);
    assert(1 <= chunk);
    assert(1 <= step <= chunk);
    lemma_chunks_cover(ls, 0, chunk, step, i);
    let all = spec_chunks_from(ls, 0, chunk, step);
    assert(spec_local_chunks(content, max_lines_per_blob) == all);
    let k = choose|k: int| 0 <= k < all.len() && (#[trigger] all[k]).0 <= i + 1 <= all[k].1;
    assert(spec_local_chunks(content, max_lines_per_blob)[k] == all[k]);
}

/// Nanoseconds in one second.
pub const NANOS_PER_SEC: u128 = 1_000_000_000;

/// `a - b`, or zero when `b >= a` (`Duration::saturating_sub` on nanosecond counts).
pub open spec fn spec_sat_sub(a: int, b: int) -> int {
    if a > b {
        a - b
    } else {
        0
    }
}

/// Nanoseconds left of a `search_timeout_sec` budget after `elapsed_nanos`.
pub open spec fn spec_remaining_nanos(search_timeout_sec: u64, elapsed_nanos: u128) -> int {
    spec_sat_sub(search_timeout_sec * NANOS_PER_SEC, elapsed_nanos as int)
}

/// The time the re-rank request may take, in nanoseconds, or `None` when too little is left.
pub open spec fn spec_rerank_timeout(
    search_timeout_sec: u64,
    elapsed_nanos: u128,
    rerank_timeout_sec: u64,
) -> Option<int> {
    let usable = spec_sat_sub(
        spec_remaining_nanos(search_timeout_sec, elapsed_nanos),
        RERANK_RESPONSE_GUARD_SEC * NANOS_PER_SEC,
    );
    let cap = if rerank_timeout_sec > DEFAULT_RERANK_TIMEOUT_SEC {
        rerank_timeout_sec as int
    } else {
        DEFAULT_RERANK_TIMEOUT_SEC as int
    } * NANOS_PER_SEC;
    if usable < MIN_RERANK_BUDGET_SEC * NANOS_PER_SEC {
        None
    } else if usable < cap {
        Some(usable)
    } else {
        Some(cap)
    }
}

/// The time the summary request may take, in nanoseconds, or `None` when too little is left.
pub open spec fn spec_summary_timeout(search_timeout_sec: u64, elapsed_nanos: u128) -> Option<int> {
    let usable = spec_sat_sub(
        spec_remaining_nanos(search_timeout_sec, elapsed_nanos),
        SUMMARY_RESPONSE_GUARD_SEC * NANOS_PER_SEC,
    );
    let soft = DEFAULT_SUMMARY_SOFT_TIMEOUT_SEC * NANOS_PER_SEC;
    let hard = DEFAULT_SUMMARY_TIMEOUT_SEC * NANOS_PER_SEC;
    if usable < MIN_SUMMARY_BUDGET_SEC * NANOS_PER_SEC {
        None
    } else {
        let a = if usable < soft {
            usable
        } else {
            soft
        };
        Some(
            if a < hard {
                a
            } else {
                hard
            },
        )
    }
}

fn remaining_nanos(search_timeout_sec: u64, elapsed_nanos: u128) -> (r: u128)
    ensures
        r == spec_remaining_nanos(search_timeout_sec, elapsed_nanos),
        r <= search_timeout_sec * NANOS_PER_SEC,
{
    let total = (search_timeout_sec as u128) * NANOS_PER_SEC;
    if total > elapsed_nanos {
        total - elapsed_nanos
    } else {
        0
    }
}

/// Budget for the GPT re-rank request (all durations in nanoseconds): what is left of the
/// search timeout after `elapsed_nanos`, less a response guard, capped by the configured
/// re-rank timeout (never below the default); `None` when under the minimum budget.
pub fn compute_local_rerank_timeout(
    search_timeout_sec: u64,
    elapsed_nanos: u128,
    rerank_timeout_sec: u64,
) -> (r: Option<u128>)
    ensures
        r matches Some(v) ==> spec_rerank_timeout(search_timeout_sec, elapsed_nanos, rerank_timeout_sec)
            == Some(v as int),
        r is None <==> spec_rerank_timeout(search_timeout_sec, elapsed_nanos, rerank_timeout_sec)
            is None,
{
    let remaining = remaining_nanos(search_timeout_sec, elapsed_nanos);
    let guard = (RERANK_RESPONSE_GUARD_SEC as u128) * NANOS_PER_SEC;
    let usable = if remaining > guard {
        remaining - guard
    } else {
        0
    };
    if usable < (MIN_RERANK_BUDGET_SEC as u128) * NANOS_PER_SEC {
        return None;
    }
    let cap_sec = if rerank_timeout_sec > DEFAULT_RERANK_TIMEOUT_SEC {
        rerank_timeout_sec
    } else {
        DEFAULT_RERANK_TIMEOUT_SEC
    };
    let cap = (cap_sec as u128) * NANOS_PER_SEC;
    if usable < cap {
        Some(usable)
    } else {
        Some(cap)
    }
}

/// Budget for the GPT summary request (nanoseconds): what is left of the search timeout after
/// `elapsed_nanos`, less a response guard, capped by the soft and the hard summary timeouts;
/// `None` when under the minimum budget.
pub fn compute_local_summary_timeout(search_timeout_sec: u64, elapsed_nanos: u128) -> (r: Option<
    u128,
>)
    ensures
        r matches Some(v) ==> spec_summary_timeout(search_timeout_sec, elapsed_nanos) == Some(
            v as int,
        ),
        r is None <==> spec_summary_timeout(search_timeout_sec, elapsed_nanos) is None,
{
    let remaining = remaining_nanos(search_timeout_sec, elapsed_nanos);
    let guard = (SUMMARY_RESPONSE_GUARD_SEC as u128) * NANOS_PER_SEC;
    let usable = if remaining > guard {
        remaining - guard
    } else {
        0
    };
    if usable < (MIN_SUMMARY_BUDGET_SEC as u128) * NANOS_PER_SEC {
        return None;
    }
    let soft = (DEFAULT_SUMMARY_SOFT_TIMEOUT_SEC as u128) * NANOS_PER_SEC;
    let hard = (DEFAULT_SUMMARY_TIMEOUT_SEC as u128) * NANOS_PER_SEC;
    let a = if usable < soft {
        usable
    } else {
        soft
    };
    Some(
        if a < hard {
            a
        } else {
            hard
        },
    )
}

/// Whole milliseconds left of the search budget after `elapsed_nanos`.
pub fn remaining_budget_ms(search_timeout_sec: u64, elapsed_nanos: u128) -> (r: u128)
    ensures
        r == spec_remaining_nanos(search_timeout_sec, elapsed_nanos) / 1_000_000,
{
    remaining_nanos(search_timeout_sec, elapsed_nanos) / 1_000_000
}

/// Why the local index is (re)built: a storage recovery reason wins, then a forced full
/// rebuild, then whether a manifest existed before.
pub open spec fn spec_rebuild_reason(
    mode: LocalIndexRebuildMode,
    had_manifest: bool,
    recovery_reason: Option<Seq<char>>,
) -> Seq<char> {
    match recovery_reason {
        Some(r) => r,
        None => if mode == LocalIndexRebuildMode::ForceFull {
            "config_force_full"@
        } else if had_manifest {
            "incremental_refresh"@
        } else {
            "initial_build"@
        },
    }
}

pub fn determine_rebuild_reason(
    index_rebuild_mode: LocalIndexRebuildMode,
    had_manifest: bool,
    recovery_reason: Option<&str>,
) -> (r: String)
    ensures
        r@ == spec_rebuild_reason(
            index_rebuild_mode,
            had_manifest,
            match recovery_reason {
                Some(s) => Some(s@),
                None => None,
            },
        ),
{
    if let Some(reason) = recovery_reason {
        return reason.to_owned();
    }
    match index_rebuild_mode {
        LocalIndexRebuildMode::ForceFull => "config_force_full".to_owned(),
        LocalIndexRebuildMode::Auto => if had_manifest {
            "incremental_refresh".to_owned()
        } else {
            "initial_build".to_owned()
        },
    }
}

/// A cached answer of the local search, keyed by query, candidates and summary mode.
pub struct QueryCacheEntry {
    pub query: String,
    pub candidate_signature: String,
    pub summary_mode: String,
    pub result: String,
    pub cached_at_unix_sec: u64,
}

/// An entry is expired once more than `QUERY_CACHE_TTL_SEC` seconds have passed since it was
/// cached (a clock that went backwards counts as no time passed).
pub open spec fn spec_cache_expired(cached_at: u64, now: u64) -> bool {
    spec_sat_sub(now as int, cached_at as int) > QUERY_CACHE_TTL_SEC
}

pub fn is_query_cache_entry_expired(entry: &QueryCacheEntry, now_unix_sec: u64) -> (b: bool)
    ensures
        b == spec_cache_expired(entry.cached_at_unix_sec, now_unix_sec),
{
    now_unix_sec.saturating_sub(entry.cached_at_unix_sec) > QUERY_CACHE_TTL_SEC
}

/// `reasoning_effort` sent with a local summary request: `high` for `gpt-5-pro` (compared
/// trimmed and ASCII-lowercased), `low` otherwise.
pub open spec fn spec_summary_reasoning_effort(model: Seq<char>) -> Seq<char> {
    if spec_keyword(model) == "gpt-5-pro"@ {
        "high"@
    } else {
        "low"@
    }
}

pub fn local_summary_reasoning_effort_for_model(model: &str) -> (r: &'static str)
    ensures
        r@ == spec_summary_reasoning_effort(model@),
{
    let k = keyword(model);
    if eq_lit(&k, "gpt-5-pro") {
        "high"
    } else {
        "low"
    }
}

/// The first twelve characters of a hash, for logs.
pub fn shorten_hash(value: &str) -> (r: String)
    ensures
        r@ == value@.take(if value@.len() < 12 { value@.len() as int } else { 12 }),
{
    let c = to_chars(value);
    let n: usize = if c.len() < 12 {
        c.len()
    } else {
        12
    };
    let t = slice_chars(&c, 0, n);
    string_from_chars(t.as_slice())
}

/// `-` for an empty list, else the items joined by commas.
pub fn render_debug_list(values: &Vec<String>) -> (r: String)
    ensures
        r@ == if values@.len() == 0 {
            "-"@
        } else {
            spec_join(string_views(values@), ","@)
        },
{
    if values.len() == 0 {
        return "-".to_owned();
    }
    let mut parts: Vec<Vec<char>> = Vec::new();
    let mut i: usize = 0;
    while i < values.len()
        invariant
            i <= values.len(),
            parts.len() == i,
            forall|j: int| 0 <= j < i ==> #[trigger] parts@[j]@ == values@[j]@,
        decreases values.len() - i,
    {
        parts.push(to_chars(values[i].as_str()));
        i += 1;
    }
    proof {
        assert(views(parts@) =~= string_views(values@));
    }
    let sep = lit(",");
    let j = join(&parts, &sep);
    string_from_chars(j.as_slice())
}

/// Counters of one pass over the on-disk query cache.
pub struct QueryCachePruneStats {
    pub kept_entries: usize,
    pub expired_removed: usize,
    pub invalid_removed: usize,
    pub overflow_removed: usize,
}

impl QueryCachePruneStats {
    /// Entries removed for any reason.
    pub fn total_removed(&self) -> (r: usize)
        requires
            self.expired_removed + self.invalid_removed + self.overflow_removed <= usize::MAX,
        ensures
            r == self.expired_removed + self.invalid_removed + self.overflow_removed,
    {
        self.expired_removed + self.invalid_removed + self.overflow_removed
    }
}

/// Outcome of the storage health check before indexing.
pub struct StorageHealthStatus {
    pub requires_full_rebuild: bool,
    pub rebuild_reason: Option<String>,
    pub health_label: String,
}

impl StorageHealthStatus {
    /// Storage is usable as it is.
    pub fn healthy(label: &str) -> (r: Self)
        ensures
            !r.requires_full_rebuild,
            r.rebuild_reason is None,
            r.health_label@ == label@,
    {
        StorageHealthStatus {
            requires_full_rebuild: false,
            rebuild_reason: None,
            health_label: label.to_owned(),
        }
    }

    /// Storage was damaged and the index must be rebuilt for `reason`.
    pub fn requires_rebuild(reason: &str) -> (r: Self)
        ensures
            r.requires_full_rebuild,
            r.rebuild_reason matches Some(s) && s@ == reason@,
            r.health_label@ == "recovered"@,
    {
        StorageHealthStatus {
            requires_full_rebuild: true,
            rebuild_reason: Some(reason.to_owned()),
            health_label: "recovered".to_owned(),
        }
    }
}

/// Joins two neighbouring chunk texts with an ellipsis line; an all-blank side gives way to
/// the other.
pub open spec fn spec_merge_chunk_content(left: Seq<char>, right: Seq<char>) -> Seq<char> {
    if spec_trim(left).len() == 0 {
        right
    } else if spec_trim(right).len() == 0 {
        left
    } else {
        spec_trim_end(left) + "\n...\n"@ + spec_trim_start(right)
    }
}

pub fn merge_chunk_content(left: &str, right: &str) -> (r: String)
    ensures
        r@ == spec_merge_chunk_content(left@, right@),
{
    let l = to_chars(left);
    let rr = to_chars(right);
    let lt = trim(&l);
    if lt.len() == 0 {
        return right.to_owned();
    }
    let rt = trim(&rr);
    if rt.len() == 0 {
        return left.to_owned();
    }
    let mut out = trim_end(&l);
    let mid = lit("\n...\n");
    append_chars(&mut out, &mid);
    let tail = trim_start(&rr);
    append_chars(&mut out, &tail);
    string_from_chars(out.as_slice())
}


/// Whether a word boundary (a space) goes before `current`: lower→upper (`searchContext`),
/// letter→digit, digit→letter, and the last capital of an acronym that starts a word
/// (`HTTPServer`).
pub open spec fn spec_should_insert_boundary(prev: char, current: char, next: Option<char>) -> bool {
    (spec_is_ascii_lower(prev) && spec_is_ascii_upper(current)) || (spec_is_ascii_alpha(prev)
        && spec_is_ascii_digit(current)) || (spec_is_ascii_digit(prev) && spec_is_ascii_alpha(
        current,
    )) || (spec_is_ascii_upper(prev) && spec_is_ascii_upper(current) && (next matches Some(n)
        && spec_is_ascii_lower(n)))
}

pub fn should_insert_identifier_boundary(prev: char, current: char, next: Option<char>) -> (b:
    bool)
    ensures
        b == spec_should_insert_boundary(prev, current, next),
{
    (is_ascii_lower(prev) && is_ascii_upper(current)) || (is_ascii_alpha(prev) && is_ascii_digit(
        current,
    )) || (is_ascii_digit(prev) && is_ascii_alpha(current)) || (is_ascii_upper(prev)
        && is_ascii_upper(current) && match next {
        Some(n) => is_ascii_lower(n),
        None => false,
    })
}

/// The character after position `i`, if any.
pub open spec fn spec_next_char(s: Seq<char>, i: int) -> Option<char> {
    if i + 1 < s.len() {
        Some(s[i + 1])
    } else {
        None
    }
}

/// What character `i` of `s` becomes: itself, after a space where a boundary goes.
pub open spec fn spec_expand_piece(s: Seq<char>, i: int) -> Seq<char> {
    if i > 0 && spec_should_insert_boundary(s[i - 1], s[i], spec_next_char(s, i)) {
        seq![' ', s[i]]
    } else {
        seq![s[i]]
    }
}

/// The expansion of the first `n` characters of `s`.
pub open spec fn spec_expand_prefix(s: Seq<char>, n: int) -> Seq<char>
    decreases n,
{
    if n <= 0 {
        Seq::empty()
    } else {
        spec_expand_prefix(s, n - 1) + spec_expand_piece(s, n - 1)
    }
}

/// `text` with a space inserted at every identifier boundary.
pub open spec fn spec_expand_identifier_boundaries(s: Seq<char>) -> Seq<char> {
    spec_expand_prefix(s, s.len() as int)
}

pub fn expand_identifier_boundaries(text: &str) -> (r: String)
    ensures
        r@ == spec_expand_identifier_boundaries(text@),
{
    let chars = to_chars(text);
    let mut out: Vec<char> = Vec::new();
    let mut i: usize = 0;
    while i < chars.len()
        invariant
            i <= chars.len(),
            out@ == spec_expand_prefix(chars@, i as int),
        decreases chars.len() - i,
    {
        let ch = chars[i];
        if i > 0 {
            let next = if i + 1 < chars.len() {
                Some(chars[i + 1])
            } else {
                None
            };
            if should_insert_identifier_boundary(chars[i - 1], ch, next) {
                out.push(' ');
            }
        }
        out.push(ch);
        proof {
            assert(out@ =~= spec_expand_prefix(chars@, i + 1));
        }
        i += 1;
    }
    string_from_chars(out.as_slice())
}

/// Characters kept by search normalisation: ASCII letters and digits (lowercased) and CJK
/// ideographs; everything else becomes a space.
pub open spec fn spec_search_char(c: char) -> char {
    if spec_is_ascii_alnum(c) || spec_is_cjk(c) {
        spec_lower(c)
    } else {
        ' '
    }
}

pub open spec fn spec_normalize_search_text(s: Seq<char>) -> Seq<char> {
    spec_expand_identifier_boundaries(s).map_values(|c: char| spec_search_char(c))
}

fn search_char(c: char) -> (r: char)
    ensures
        r == spec_search_char(c),
{
    if is_ascii_alnum(c) || is_cjk(c) {
        lower_char(c)
    } else {
        ' '
    }
}

fn normalize_chars(text: &str) -> (r: Vec<char>)
    ensures
        r@ == spec_normalize_search_text(text@),
{
    let expanded = expand_identifier_boundaries(text);
    let e = to_chars(expanded.as_str());
    let mut out: Vec<char> = Vec::new();
    let mut i: usize = 0;
    while i < e.len()
        invariant
            i <= e.len(),
            out@ =~= e@.take(i as int).map_values(|c: char| spec_search_char(c)),
        decreases e.len() - i,
    {
        out.push(search_char(e[i]));
        i += 1;
    }
    proof {
        assert(e@.take(e@.len() as int) =~= e@);
    }
    out
}

/// Splits identifiers at their boundaries, lowercases ASCII and blanks out everything that is
/// neither an ASCII letter or digit nor a CJK ideograph.
pub fn normalize_search_text(text: &str) -> (r: String)
    ensures
        r@ == spec_normalize_search_text(text@),
{
    let out = normalize_chars(text);
    string_from_chars(out.as_slice())
}

/// End (exclusive) of the window of width `k` that starts at `w` in a term of `n` characters.
pub open spec fn spec_window_end(n: int, w: int, k: int) -> int {
    if w + k < n {
        w + k
    } else {
        n
    }
}

/// `x` is the window of two, or of three characters, that starts at `w` in `t` (a window of
/// three is only taken when it is longer than one character).
pub open spec fn spec_window_at(t: Seq<char>, x: Seq<char>, w: int) -> bool {
    0 <= w < t.len() && (x == t.subrange(w, spec_window_end(t.len() as int, w, 2)) || (
    spec_window_end(t.len() as int, w, 3) > w + 1 && x == t.subrange(
        w,
        spec_window_end(t.len() as int, w, 3),
    )))
}

pub open spec fn spec_is_cjk_window(t: Seq<char>, x: Seq<char>) -> bool {
    exists|w: int| #[trigger] spec_window_at(t, x, w)
}

/// The pieces a CJK term is searched by: the term itself when it has at most two characters,
/// else its two- and three-character windows, sorted, each once.
pub open spec fn spec_split_cjk(t: Seq<char>) -> Seq<Seq<char>> {
    if t.len() <= 2 {
        seq![t]
    } else {
        choose|r: Seq<Seq<char>>|
            spec_strictly_sorted(r) && forall|x: Seq<char>| #[trigger]
                r.contains(x) <==> spec_is_cjk_window(t, x)
    }
}

fn split_cjk_chars(chars: &Vec<char>) -> (r: Vec<Vec<char>>)
    ensures
        views(r@) == spec_split_cjk(chars@),
{
    let n = chars.len();
    if n <= 2 {
        let mut r: Vec<Vec<char>> = Vec::new();
        r.push(copy_chars(chars));
        proof {
            assert(views(r@) =~= seq![chars@]);
        }
        return r;
    }
    let mut parts: Vec<Vec<char>> = Vec::new();
    let mut w: usize = 0;
    while w < n
        invariant
            n == chars.len(),
            n > 2,
            w <= n,
            spec_strictly_sorted(views(parts@)),
            forall|x: Seq<char>| #[trigger]
                views(parts@).contains(x) <==> exists|v: int|
                    0 <= v < w && #[trigger] spec_window_at(chars@, x, v),
        decreases n - w,
    {
        let ghost before = views(parts@);
        let end = if w < n - 2 {
            w + 2
        } else {
            n
        };
        let a = slice_chars(chars, w, end);
        insert_sorted_unique(&mut parts, a);
        let ghost mid = views(parts@);
        let end3 = if w < n - 3 {
            w + 3
        } else {
            n
        };
        let took3 = end3 > w + 1;
        if took3 {
            let b = slice_chars(chars, w, end3);
            insert_sorted_unique(&mut parts, b);
        }
        proof {
            let t = chars@;
            assert forall|x: Seq<char>| #[trigger]
                views(parts@).contains(x) <==> exists|v: int|
                    0 <= v < w + 1 && #[trigger] spec_window_at(t, x, v) by {
                if views(parts@).contains(x) {
                    if before.contains(x) {
                        let v = choose|v: int| 0 <= v < w && #[trigger] spec_window_at(t, x, v);
                        assert(spec_window_at(t, x, v));
                    } else {
                        assert(spec_window_at(t, x, w as int));
                    }
                }
                if exists|v: int| 0 <= v < w + 1 && #[trigger] spec_window_at(t, x, v) {
                    let v = choose|v: int| 0 <= v < w + 1 && #[trigger] spec_window_at(t, x, v);
                    if v < w {
                        assert(before.contains(x));
                        assert(mid.contains(x));
                    } else {
                        if x == t.subrange(w as int, end as int) {
                            assert(mid.contains(x));
                        }
                    }
                }
            }
        }
        w += 1;
    }
    proof {
        let t = chars@;
        let r = views(parts@);
        assert forall|x: Seq<char>| #[trigger] r.contains(x) <==> spec_is_cjk_window(t, x) by {
            if spec_is_cjk_window(t, x) {
                let v = choose|v: int| #[trigger] spec_window_at(t, x, v);
                assert(0 <= v < n && spec_window_at(t, x, v));
            }
        }
        let c = spec_split_cjk(t);
        assert(spec_strictly_sorted(c) && forall|x: Seq<char>| #[trigger]
            c.contains(x) <==> spec_is_cjk_window(t, x));
        lemma_sorted_unique(r, c);
    }
    parts
}

/// Splits a CJK term into its sorted, distinct two- and three-character windows (a term of at
/// most two characters stays whole).
pub fn split_cjk_term(term: &str) -> (r: Vec<String>)
    ensures
        string_views(r@) == spec_split_cjk(term@),
{
    let c = to_chars(term);
    let parts = split_cjk_chars(&c);
    to_strings(&parts)
}

/// The tokens one whitespace-separated word contributes.
pub open spec fn spec_word_tokens(w: Seq<char>) -> Seq<Seq<char>> {
    if w.len() == 0 {
        Seq::empty()
    } else if spec_contains_cjk(w) {
        spec_split_cjk(w)
    } else {
        seq![w]
    }
}

/// The tokens of the first `k` words.
pub open spec fn spec_tokens_of(words: Seq<Seq<char>>, k: int) -> Seq<Seq<char>>
    decreases k,
{
    if k <= 0 {
        Seq::empty()
    } else {
        spec_tokens_of(words, k - 1) + spec_word_tokens(words[k - 1])
    }
}

/// The search tokens of a text: its normalised form split at spaces, each CJK word replaced by
/// its windows.
pub open spec fn spec_tokenize(text: Seq<char>) -> Seq<Seq<char>> {
    let words = spec_split(spec_normalize_search_text(text), ' ');
    spec_tokens_of(words, words.len() as int)
}

fn tokenize_chars(text: &str) -> (r: Vec<Vec<char>>)
    ensures
        views(r@) == spec_tokenize(text@),
{
    let normalized = normalize_chars(text);
    let words = split_char(&normalized, ' ');
    let ghost wv = views(words@);
    let mut tokens: Vec<Vec<char>> = Vec::new();
    let mut i: usize = 0;
    while i < words.len()
        invariant
            i <= words.len(),
            wv == views(words@),
            views(tokens@) == spec_tokens_of(wv, i as int),
        decreases words.len() - i,
    {
        let w = &words[i];
        let ghost before = views(tokens@);
        if w.len() == 0 {
        } else if contains_cjk(w) {
            let pieces = split_cjk_chars(w);
            let mut k: usize = 0;
            while k < pieces.len()
                invariant
                    k <= pieces.len(),
                    views(tokens@) == before + views(pieces@).take(k as int),
                decreases pieces.len() - k,
            {
                let ghost pre = tokens@;
                tokens.push(copy_chars(&pieces[k]));
                proof {
                    assert(views(tokens@) =~= views(pre).push(pieces@[k as int]@));
                    assert(views(pieces@).take(k + 1) =~= views(pieces@).take(k as int).push(
                        pieces@[k as int]@,
                    ));
                    assert(views(tokens@) =~= before + views(pieces@).take(k + 1));
                }
                k += 1;
            }
            proof {
                assert(views(pieces@).take(pieces.len() as int) =~= views(pieces@));
            }
        } else {
            tokens.push(copy_chars(w));
            proof {
                assert(views(tokens@) =~= before + seq![w@]);
            }
        }
        proof {
            assert(views(tokens@) =~= spec_tokens_of(wv, i + 1));
        }
        i += 1;
    }
    tokens
}

/// The search tokens of `text` (see `spec_tokenize`).
pub fn tokenize_search_text(text: &str) -> (r: Vec<String>)
    ensures
        string_views(r@) == spec_tokenize(text@),
{
    let t = tokenize_chars(text);
    to_strings(&t)
}


/// How often `t` occurs in `s`.
pub open spec fn spec_count(s: Seq<Seq<char>>, t: Seq<char>) -> nat
    decreases s.len(),
{
    if s.len() == 0 {
        0
    } else {
        spec_count(s.drop_last(), t) + if s.last() == t {
            1nat
        } else {
            0nat
        }
    }
}

/// How often the non-blank token `t` occurs among the search tokens of `text` (zero for a
/// blank `t`).
pub open spec fn spec_token_count(text: Seq<char>, t: Seq<char>) -> nat {
    if spec_trim(t).len() > 0 {
        spec_count(spec_tokenize(text), t)
    } else {
        0
    }
}

/// The count stored for `t`: that of the last key equal to `t`.
pub open spec fn spec_lookup(keys: Seq<Seq<char>>, counts: Seq<u32>, t: Seq<char>) -> Option<u32>
    decreases keys.len(),
{
    if keys.len() == 0 || counts.len() != keys.len() {
        None
    } else if keys.last() == t {
        Some(counts.last())
    } else {
        spec_lookup(keys.drop_last(), counts.drop_last(), t)
    }
}

pub open spec fn spec_distinct(keys: Seq<Seq<char>>) -> bool {
    forall|a: int, b: int| 0 <= a < b < keys.len() ==> #[trigger] keys[a] != #[trigger] keys[b]
}

proof fn lemma_lookup_at(keys: Seq<Seq<char>>, counts: Seq<u32>, t: Seq<char>, j: int)
    requires
        keys.len() == counts.len(),
        spec_distinct(keys),
        0 <= j < keys.len(),
        keys[j] == t,
    ensures
        spec_lookup(keys, counts, t) == Some(counts[j]),
    decreases keys.len(),
{
    if j < keys.len() - 1 {
        assert(keys.last() != t);
        lemma_lookup_at(keys.drop_last(), counts.drop_last(), t, j);
    }
}

proof fn lemma_lookup_absent(keys: Seq<Seq<char>>, counts: Seq<u32>, t: Seq<char>)
    requires
        keys.len() == counts.len(),
        forall|j: int| 0 <= j < keys.len() ==> keys[j] != t,
    ensures
        spec_lookup(keys, counts, t) is None,
    decreases keys.len(),
{
    if keys.len() > 0 {
        assert(keys.last() == keys[keys.len() - 1]);
        lemma_lookup_absent(keys.drop_last(), counts.drop_last(), t);
    }
}

proof fn lemma_count_bound(s: Seq<Seq<char>>, t: Seq<char>)
    ensures
        spec_count(s, t) <= s.len(),
    decreases s.len(),
{
    if s.len() > 0 {
        lemma_count_bound(s.drop_last(), t);
    }
}

/// Occurrence counts of search tokens, each token once.
pub struct TokenFreq {
    keys: Vec<Vec<char>>,
    counts: Vec<u32>,
}

impl TokenFreq {
    #[verifier::type_invariant]
    spec fn well_formed(self) -> bool {
        self.keys.len() == self.counts.len() && spec_distinct(views(self.keys@))
    }

    /// The count of `t`, if it occurs.
    pub closed spec fn spec_get(self, t: Seq<char>) -> Option<u32> {
        spec_lookup(views(self.keys@), self.counts@, t)
    }

    /// The count of `token`, if it occurs.
    pub fn get(&self, token: &str) -> (r: Option<&u32>)
        ensures
            r matches Some(c) ==> self.spec_get(token@) == Some(*c),
            r is None <==> self.spec_get(token@) is None,
    {
        proof {
            use_type_invariant(self);
        }
        let t = to_chars(token);
        let mut i: usize = 0;
        while i < self.keys.len()
            invariant
                i <= self.keys.len(),
                self.keys.len() == self.counts.len(),
                spec_distinct(views(self.keys@)),
                t@ == token@,
                forall|j: int| 0 <= j < i ==> (#[trigger] self.keys@[j])@ != t@,
            decreases self.keys.len() - i,
        {
            if chars_eq(&self.keys[i], &t) {
                proof {
                    lemma_lookup_at(views(self.keys@), self.counts@, t@, i as int);
                }
                return Some(&self.counts[i]);
            }
            i += 1;
        }
        proof {
            lemma_lookup_absent(views(self.keys@), self.counts@, t@);
        }
        None
    }
}

proof fn lemma_lookup_some(keys: Seq<Seq<char>>, counts: Seq<u32>, t: Seq<char>)
    requires
        spec_lookup(keys, counts, t) is Some,
    ensures
        exists|j: int| 0 <= j < keys.len() && keys[j] == t,
    decreases keys.len(),
{
    if keys.last() != t {
        lemma_lookup_some(keys.drop_last(), counts.drop_last(), t);
        let j = choose|j: int| 0 <= j < keys.len() - 1 && keys.drop_last()[j] == t;
        assert(keys[j] == t);
    } else {
        assert(keys[keys.len() - 1] == t);
    }
}

impl TokenFreq {
    /// Every token with its count, each token once.
    pub fn to_pairs(&self) -> (r: Vec<(String, u32)>)
        ensures
            forall|i: int| 0 <= i < r.len() ==> self.spec_get((#[trigger] r@[i]).0@) == Some(r@[i].1),
            forall|t: Seq<char>| #[trigger]
                self.spec_get(t) is Some ==> exists|i: int| 0 <= i < r.len() && r@[i].0@ == t,
            forall|i: int, j: int| 0 <= i < j < r.len() ==> r@[i].0@ != r@[j].0@,
    {
        proof {
            use_type_invariant(self);
        }
        let ghost kv = views(self.keys@);
        let mut r: Vec<(String, u32)> = Vec::new();
        let mut i: usize = 0;
        while i < self.keys.len()
            invariant
                i <= self.keys.len(),
                self.keys.len() == self.counts.len(),
                kv == views(self.keys@),
                spec_distinct(kv),
                r.len() == i,
                forall|q: int| 0 <= q < i ==> (#[trigger] r@[q]).0@ == kv[q] && r@[q].1 == self.counts@[q],
            decreases self.keys.len() - i,
        {
            r.push((string_from_chars(self.keys[i].as_slice()), self.counts[i]));
            i += 1;
        }
        proof {
            assert forall|q: int| 0 <= q < r.len() implies self.spec_get((#[trigger] r@[q]).0@)
                == Some(r@[q].1) by {
                lemma_lookup_at(kv, self.counts@, kv[q], q);
            }
            assert forall|t: Seq<char>| #[trigger] self.spec_get(t) is Some implies exists|q: int|
                0 <= q < r.len() && r@[q].0@ == t by {
                lemma_lookup_some(kv, self.counts@, t);
                let j = choose|j: int| 0 <= j < kv.len() && kv[j] == t;
                assert(r@[j].0@ == t);
            }
            assert forall|a: int, b: int| 0 <= a < b < r.len() implies r@[a].0@ != r@[b].0@ by {
                assert(kv[a] != kv[b]);
            }
        }
        r
    }
}

/// Counts the non-blank search tokens of `normalized_text`.
pub fn build_token_freq(normalized_text: &str) -> (r: TokenFreq)
    requires
        spec_tokenize(normalized_text@).len() <= u32::MAX,
    ensures
        forall|t: Seq<char>| #[trigger]
            r.spec_get(t) == if spec_token_count(normalized_text@, t) > 0 {
                Some(spec_token_count(normalized_text@, t) as u32)
            } else {
                None
            },
{
    let tokens = tokenize_chars(normalized_text);
    let ghost tv = views(tokens@);
    let mut keys: Vec<Vec<char>> = Vec::new();
    let mut counts: Vec<u32> = Vec::new();
    let mut i: usize = 0;
    while i < tokens.len()
        invariant
            i <= tokens.len(),
            tv == views(tokens@),
            tv.len() <= u32::MAX,
            keys.len() == counts.len(),
            spec_distinct(views(keys@)),
            forall|j: int| 0 <= j < counts.len() ==> #[trigger] counts@[j] <= i,
            forall|t: Seq<char>| #[trigger]
                spec_lookup(views(keys@), counts@, t) == if spec_trim(t).len() > 0 && spec_count(
                    tv.take(i as int),
                    t,
                ) > 0 {
                    Some(spec_count(tv.take(i as int), t) as u32)
                } else {
                    None
                },
        decreases tokens.len() - i,
    {
        let tok = &tokens[i];
        let ghost kv0 = views(keys@);
        let ghost c0 = counts@;
        proof {
            assert(tv.take(i + 1).drop_last() =~= tv.take(i as int));
            assert(tv.take(i + 1).last() == tok@);
            assert forall|t: Seq<char>| #[trigger]
                spec_count(tv.take(i + 1), t) == spec_count(tv.take(i as int), t) + if tok@
                    == t {
                    1nat
                } else {
                    0nat
                } by {}
            lemma_count_bound(tv.take(i as int), tok@);
        }
        let blank = trim(tok);
        if blank.len() > 0 {
            let mut j: usize = 0;
            while j < keys.len() && !chars_eq(&keys[j], tok)
                invariant
                    j <= keys.len(),
                    forall|a: int| 0 <= a < j ==> (#[trigger] keys@[a])@ != tok@,
                decreases keys.len() - j,
            {
                j += 1;
            }
            if j < keys.len() {
                proof {
                    lemma_lookup_at(kv0, c0, tok@, j as int);
                }
                let c = counts[j];
                counts.set(j, c + 1);
                proof {
                    assert forall|t: Seq<char>| #[trigger]
                        spec_lookup(views(keys@), counts@, t) == if spec_trim(t).len() > 0
                            && spec_count(tv.take(i + 1), t) > 0 {
                            Some(spec_count(tv.take(i + 1), t) as u32)
                        } else {
                            None
                        } by {
                        if t == tok@ {
                            lemma_lookup_at(kv0, counts@, t, j as int);
                        } else {
                            if exists|a: int| 0 <= a < kv0.len() && kv0[a] == t {
                                let a = choose|a: int| 0 <= a < kv0.len() && kv0[a] == t;
                                lemma_lookup_at(kv0, counts@, t, a);
                                lemma_lookup_at(kv0, c0, t, a);
                            } else {
                                lemma_lookup_absent(kv0, counts@, t);
                                lemma_lookup_absent(kv0, c0, t);
                            }
                        }
                    }
                }
            } else {
                proof {
                    lemma_lookup_absent(kv0, c0, tok@);
                }
                keys.push(copy_chars(tok));
                counts.push(1);
                proof {
                    let kv = views(keys@);
                    assert(kv =~= kv0.push(tok@));
                    assert(kv.drop_last() =~= kv0);
                    assert(counts@.drop_last() =~= c0);
                    assert forall|t: Seq<char>| #[trigger]
                        spec_lookup(views(keys@), counts@, t) == if spec_trim(t).len() > 0
                            && spec_count(tv.take(i + 1), t) > 0 {
                            Some(spec_count(tv.take(i + 1), t) as u32)
                        } else {
                            None
                        } by {
                        assert(spec_lookup(kv, counts@, t) == if t == tok@ {
                            Some(1u32)
                        } else {
                            spec_lookup(kv0, c0, t)
                        });
                    }
                }
            }
        } else {
            proof {
                assert forall|t: Seq<char>| #[trigger]
                    spec_lookup(views(keys@), counts@, t) == if spec_trim(t).len() > 0
                        && spec_count(tv.take(i + 1), t) > 0 {
                        Some(spec_count(tv.take(i + 1), t) as u32)
                    } else {
                        None
                    } by {
                    if spec_trim(t).len() > 0 {
                        assert(t != tok@);
                    }
                }
            }
        }
        i += 1;
    }
    proof {
        assert(tv.take(tokens.len() as int) =~= tv);
    }
    TokenFreq { keys, counts }
}

/// The non-blank lines among the first `k` of `ls`, each without trailing whitespace.
pub open spec fn spec_nonblank_lines(ls: Seq<Seq<char>>, k: int) -> Seq<Seq<char>>
    decreases k,
{
    if k <= 0 {
        Seq::empty()
    } else {
        spec_nonblank_lines(ls, k - 1) + if spec_trim(ls[k - 1]).len() > 0 {
            seq![spec_trim_end(ls[k - 1])]
        } else {
            Seq::empty()
        }
    }
}

/// Marker text for a candidate without any content.
pub open spec fn spec_empty_snippet() -> Seq<char> {
    "(empty snippet)"@
}

/// The snippet shown to the summary model: the first `SUMMARY_SNIPPET_MAX_LINES` non-blank
/// lines (right-trimmed) joined by newlines, cut to `SUMMARY_SNIPPET_MAX_CHARS` characters
/// with a truncation marker when longer.
pub open spec fn spec_summary_snippet(content: Seq<char>) -> Seq<char> {
    let ls = spec_lines(content);
    let kept = spec_nonblank_lines(ls, ls.len() as int);
    let taken = if kept.len() <= SUMMARY_SNIPPET_MAX_LINES {
        kept
    } else {
        kept.take(SUMMARY_SNIPPET_MAX_LINES as int)
    };
    if taken.len() == 0 {
        spec_empty_snippet()
    } else {
        let joined = spec_join(taken, "\n"@);
        if joined.len() <= SUMMARY_SNIPPET_MAX_CHARS {
            joined
        } else {
            joined.take(SUMMARY_SNIPPET_MAX_CHARS as int) + "\n... [truncated]"@
        }
    }
}

fn nonblank_lines(ls: &Vec<Vec<char>>, limit: usize) -> (r: Vec<Vec<char>>)
    ensures
        views(r@) == {
            let kept = spec_nonblank_lines(views(ls@), ls@.len() as int);
            if kept.len() <= limit {
                kept
            } else {
                kept.take(limit as int)
            }
        },
{
    let ghost lv = views(ls@);
    let mut r: Vec<Vec<char>> = Vec::new();
    let mut i: usize = 0;
    while i < ls.len()
        invariant
            i <= ls.len(),
            lv == views(ls@),
            views(r@) == {
                let kept = spec_nonblank_lines(lv, i as int);
                if kept.len() <= limit {
                    kept
                } else {
                    kept.take(limit as int)
                }
            },
        decreases ls.len() - i,
    {
        let t = trim(&ls[i]);
        let ghost pre = views(r@);
        let ghost kept0 = spec_nonblank_lines(lv, i as int);
        if t.len() > 0 {
            if r.len() < limit {
                r.push(trim_end(&ls[i]));
            }
            proof {
                let kept1 = spec_nonblank_lines(lv, i + 1);
                assert(kept1 =~= kept0.push(spec_trim_end(lv[i as int])));
                if kept0.len() < limit {
                    assert(views(r@) =~= pre.push(spec_trim_end(lv[i as int])));
                } else {
                    assert(kept1.take(limit as int) =~= kept0.take(limit as int));
                }
            }
        } else {
            proof {
                assert(spec_nonblank_lines(lv, i + 1) =~= kept0);
            }
        }
        i += 1;
    }
    r
}

pub fn build_summary_snippet(content: &str) -> (r: String)
    ensures
        r@ == spec_summary_snippet(content@),
{
    let c = to_chars(content);
    let ls = lines(&c);
    let taken = nonblank_lines(&ls, SUMMARY_SNIPPET_MAX_LINES);
    if taken.len() == 0 {
        return "(empty snippet)".to_owned();
    }
    let nl = lit("\n");
    let joined = join(&taken, &nl);
    if joined.len() <= SUMMARY_SNIPPET_MAX_CHARS {
        return string_from_chars(joined.as_slice());
    }
    let mut shortened = slice_chars(&joined, 0, SUMMARY_SNIPPET_MAX_CHARS);
    let marker = lit("\n... [truncated]");
    append_chars(&mut shortened, &marker);
    string_from_chars(shortened.as_slice())
}

/// The trimmed, non-empty lines among the first `k` of `ls`.
pub open spec fn spec_trimmed_lines(ls: Seq<Seq<char>>, k: int) -> Seq<Seq<char>>
    decreases k,
{
    if k <= 0 {
        Seq::empty()
    } else {
        spec_trimmed_lines(ls, k - 1) + if spec_trim(ls[k - 1]).len() > 0 {
            seq![spec_trim(ls[k - 1])]
        } else {
            Seq::empty()
        }
    }
}

/// A one-line digest of a snippet: its first eight lines, trimmed, blank ones dropped, joined
/// by ` ⏐ `.
pub open spec fn spec_summarize_snippet(content: Seq<char>) -> Seq<char> {
    let ls = spec_lines(content);
    let k = if ls.len() < 8 {
        ls.len() as int
    } else {
        8
    };
    let kept = spec_trimmed_lines(ls, k);
    if kept.len() == 0 {
        spec_empty_snippet()
    } else {
        spec_join(kept, " ⏐ "@)
    }
}

pub fn summarize_snippet(content: &str) -> (r: String)
    ensures
        r@ == spec_summarize_snippet(content@),
{
    let c = to_chars(content);
    let ls = lines(&c);
    let ghost lv = views(ls@);
    let k: usize = if ls.len() < 8 {
        ls.len()
    } else {
        8
    };
    let mut kept: Vec<Vec<char>> = Vec::new();
    let mut i: usize = 0;
    while i < k
        invariant
            i <= k <= ls.len(),
            lv == views(ls@),
            views(kept@) == spec_trimmed_lines(lv, i as int),
        decreases k - i,
    {
        let t = trim(&ls[i]);
        let ghost pre = views(kept@);
        if t.len() > 0 {
            kept.push(t);
            proof {
                assert(views(kept@) =~= pre.push(spec_trim(lv[i as int])));
            }
        }
        proof {
            assert(views(kept@) =~= spec_trimmed_lines(lv, i + 1));
        }
        i += 1;
    }
    if kept.len() == 0 {
        return "(empty snippet)".to_owned();
    }
    let sep = lit(" ⏐ ");
    let j = join(&kept, &sep);
    string_from_chars(j.as_slice())
}

/// A model reply made fit for a log line: line breaks become spaces, the text is trimmed and
/// cut to 400 characters.
pub open spec fn spec_sanitize_response_text(text: Seq<char>) -> Seq<char> {
    let compact = spec_replace(spec_replace(text, "\r\n"@, " "@), "\n"@, " "@);
    let t = spec_trim(compact);
    if t.len() > 400 {
        t.take(400)
    } else {
        t
    }
}

pub fn sanitize_response_text(text: &str) -> (r: String)
    ensures
        r@ == spec_sanitize_response_text(text@),
{
    let c = to_chars(text);
    let crlf = lit("\r\n");
    let lf = lit("\n");
    let sp = lit(" ");
    proof {
        reveal_strlit("\r\n");
        reveal_strlit("\n");
    }
    let a = replace_all(&c, &crlf, &sp);
    let b = replace_all(&a, &lf, &sp);
    let t = trim(&b);
    if t.len() > 400 {
        let cut = slice_chars(&t, 0, 400);
        string_from_chars(cut.as_slice())
    } else {
        string_from_chars(t.as_slice())
    }
}

/// The text of a summary response: the first choice's message `content` string, trimmed, or
/// its content parts' `text` strings joined by newlines and trimmed (which must not be empty).
pub open spec fn spec_chat_completion_text(value: JsonValue) -> Result<Seq<char>, Seq<char>> {
    match value.spec_get("choices"@) {
        Some(JsonValue::Array(choices)) => if choices@.len() == 0 {
            Err("Summary response returned no choices."@)
        } else {
            match choices@[0].spec_get("message"@) {
                None => Err("Summary response missing message."@),
                Some(m) => match m.spec_get("content"@) {
                    Some(JsonValue::Str(c)) => Ok(spec_trim(c@)),
                    Some(JsonValue::Array(parts)) => {
                        let t = spec_trim(
                            spec_join(spec_text_parts(parts@, parts@.len() as int, false), "\n"@),
                        );
                        if t.len() == 0 {
                            Err("Summary response returned empty content."@)
                        } else {
                            Ok(t)
                        }
                    },
                    _ => Err("Summary response missing content."@),
                },
            }
        },
        _ => Err("Summary response missing choices."@),
    }
}

pub fn chat_completion_text(value: &JsonValue) -> (r: Result<String, String>)
    ensures
        match (r, spec_chat_completion_text(*value)) {
            (Ok(a), Ok(b)) => a@ == b,
            (Err(a), Err(b)) => a@ == b,
            _ => false,
        },
{
    let choices = match value.get("choices") {
        Some(JsonValue::Array(c)) => c,
        _ => {
            return Err("Summary response missing choices.".to_owned());
        },
    };
    if choices.len() == 0 {
        return Err("Summary response returned no choices.".to_owned());
    }
    let message = match choices[0].get("message") {
        Some(m) => m,
        None => {
            return Err("Summary response missing message.".to_owned());
        },
    };
    match message.get("content") {
        Some(JsonValue::Str(c)) => {
            let t = trim(&to_chars(c.as_str()));
            Ok(string_from_chars(t.as_slice()))
        },
        Some(JsonValue::Array(parts)) => {
            let texts = text_parts(parts, false);
            let t = trim(&join(&texts, &lit("\n")));
            if t.len() == 0 {
                Err("Summary response returned empty content.".to_owned())
            } else {
                Ok(string_from_chars(t.as_slice()))
            }
        },
        _ => Err("Summary response missing content.".to_owned()),
    }
}

/// The ids picked from the first `k` items: strings that name a candidate, each once, in
/// the model's order.
pub open spec fn spec_rerank_pick(items: Seq<JsonValue>, valid: Seq<Seq<char>>, k: int) -> Seq<
    Seq<char>,
>
    decreases k,
{
    if k <= 0 {
        Seq::empty()
    } else {
        let prev = spec_rerank_pick(items, valid, k - 1);
        match items[k - 1] {
            JsonValue::Str(id) => if valid.contains(id@) && !prev.contains(id@) {
                prev.push(id@)
            } else {
                prev
            },
            _ => prev,
        }
    }
}

/// The re-rank order the model answered: its `ordered_ids` (see `spec_rerank_pick`); an
/// error when the array is missing or names no candidate.
pub open spec fn spec_rerank_ids(value: JsonValue, valid: Seq<Seq<char>>) -> Result<Seq<Seq<char>>, Seq<char>> {
    match value.spec_get("ordered_ids"@) {
        Some(JsonValue::Array(items)) => {
            let ids = spec_rerank_pick(items@, valid, items@.len() as int);
            if ids.len() == 0 {
                Err("Rerank response returned no valid candidate ids."@)
            } else {
                Ok(ids)
            }
        },
        _ => Err("Rerank response missing ordered_ids."@),
    }
}

fn seq_contains_chars(v: &Vec<Vec<char>>, x: &Vec<char>) -> (b: bool)
    ensures
        b == views(v@).contains(x@),
{
    let mut i: usize = 0;
    while i < v.len()
        invariant
            i <= v.len(),
            forall|j: int| 0 <= j < i ==> (#[trigger] v@[j])@ != x@,
        decreases v.len() - i,
    {
        if chars_eq(&v[i], x) {
            proof {
                assert(views(v@)[i as int] == x@);
            }
            return true;
        }
        i += 1;
    }
    proof {
        if views(v@).contains(x@) {
            let j = choose|j: int| 0 <= j < v@.len() && views(v@)[j] == x@;
            assert(v@[j]@ == x@);
        }
    }
    false
}

/// Reads the re-rank order out of the model's parsed answer, keeping only ids of
/// `candidate_ids`, each once.
pub fn rerank_ids(value: &JsonValue, candidate_ids: &Vec<String>) -> (r: Result<Vec<String>, String>)
    ensures
        match (r, spec_rerank_ids(*value, string_views(candidate_ids@))) {
            (Ok(a), Ok(b)) => string_views(a@) == b,
            (Err(a), Err(b)) => a@ == b,
            _ => false,
        },
{
    let items = match value.get("ordered_ids") {
        Some(JsonValue::Array(a)) => a,
        _ => {
            return Err("Rerank response missing ordered_ids.".to_owned());
        },
    };
    let mut valid: Vec<Vec<char>> = Vec::new();
    let mut j: usize = 0;
    while j < candidate_ids.len()
        invariant
            j <= candidate_ids.len(),
            views(valid@) =~= string_views(candidate_ids@).take(j as int),
        decreases candidate_ids.len() - j,
    {
        let ghost pre = valid@;
        valid.push(to_chars(candidate_ids[j].as_str()));
        proof {
            assert(views(valid@) =~= views(pre).push(candidate_ids@[j as int]@));
        }
        j += 1;
    }
    proof {
        assert(string_views(candidate_ids@).take(candidate_ids@.len() as int) =~= string_views(
            candidate_ids@,
        ));
    }
    let ghost vv = views(valid@);
    let mut picked: Vec<Vec<char>> = Vec::new();
    let mut i: usize = 0;
    while i < items.len()
        invariant
            i <= items.len(),
            vv == views(valid@),
            views(picked@) == spec_rerank_pick(items@, vv, i as int),
        decreases items.len() - i,
    {
        let ghost pre = views(picked@);
        match &items[i] {
            JsonValue::Str(id) => {
                let c = to_chars(id.as_str());
                if seq_contains_chars(&valid, &c) && !seq_contains_chars(&picked, &c) {
                    picked.push(c);
                    proof {
                        assert(views(picked@) =~= pre.push(id@));
                    }
                }
            },
            _ => {},
        }
        i += 1;
    }
    if picked.len() == 0 {
        return Err("Rerank response returned no valid candidate ids.".to_owned());
    }
    Ok(to_strings(&picked))
}

/// The query cache key: SHA-256 (hex) of the trimmed query, the trimmed candidate signature
/// and the summary mode, joined by `|`.
pub fn build_query_cache_key(query: &str, candidate_signature: &str, summary_mode: &str) -> (r: String)
    ensures
        r@ == spec_hex(
            sha256_utf8(
                spec_trim(query@) + "|"@ + spec_trim(candidate_signature@) + "|"@ + summary_mode@,
            ),
        ),
{
    let mut key = trim(&to_chars(query));
    append_chars(&mut key, &lit("|"));
    append_chars(&mut key, &trim(&to_chars(candidate_signature)));
    append_chars(&mut key, &lit("|"));
    append_chars(&mut key, &to_chars(summary_mode));
    let k = string_from_chars(key.as_slice());
    sha256_hex(k.as_str())
}

/// The re-rank cache key: SHA-256 (hex) of the trimmed query, the trimmed candidate
/// signature, the re-rank mode and the model, joined by `|`.
pub fn build_rerank_cache_key(
    query: &str,
    candidate_signature: &str,
    rerank_mode: &str,
    rerank_model: &str,
) -> (r: String)
    ensures
        r@ == spec_hex(
            sha256_utf8(
                spec_trim(query@) + "|"@ + spec_trim(candidate_signature@) + "|"@ + rerank_mode@
                    + "|"@ + rerank_model@,
            ),
        ),
{
    let mut key = trim(&to_chars(query));
    append_chars(&mut key, &lit("|"));
    append_chars(&mut key, &trim(&to_chars(candidate_signature)));
    append_chars(&mut key, &lit("|"));
    append_chars(&mut key, &to_chars(rerank_mode));
    append_chars(&mut key, &lit("|"));
    append_chars(&mut key, &to_chars(rerank_model));
    let k = string_from_chars(key.as_slice());
    sha256_hex(k.as_str())
}

/// Re-ranking runs only in `broad_only` mode, for a broad query, with enough candidates.
pub fn should_use_rerank(mode: LocalRerankMode, broad_intent: bool, candidate_count: usize) -> (b: bool)
    ensures
        b == (mode == LocalRerankMode::BroadOnly && broad_intent && candidate_count
            >= MIN_RERANK_CANDIDATES),
{
    match mode {
        LocalRerankMode::BroadOnly => broad_intent && candidate_count >= MIN_RERANK_CANDIDATES,
        LocalRerankMode::Off => false,
    }
}

/// `target` with each of `values` appended that it does not hold yet, in order.
pub open spec fn spec_push_unique(target: Seq<Seq<char>>, values: Seq<Seq<char>>) -> Seq<Seq<char>>
    decreases values.len(),
{
    if values.len() == 0 {
        target
    } else {
        let prev = spec_push_unique(target, values.drop_last());
        if prev.contains(values.last()) {
            prev
        } else {
            prev.push(values.last())
        }
    }
}

fn push_unique_chars(target: &mut Vec<Vec<char>>, values: &Vec<Vec<char>>)
    ensures
        views(final(target)@) == spec_push_unique(views(old(target)@), views(values@)),
{
    let ghost start = views(target@);
    let mut i: usize = 0;
    while i < values.len()
        invariant
            i <= values.len(),
            start == views(old(target)@),
            views(target@) == spec_push_unique(start, views(values@).take(i as int)),
        decreases values.len() - i,
    {
        proof {
            assert(views(values@).take(i + 1).drop_last() =~= views(values@).take(i as int));
            assert(views(values@).take(i + 1).last() == values@[i as int]@);
        }
        if !seq_contains_chars(target, &values[i]) {
            let ghost pre = target@;
            target.push(copy_chars(&values[i]));
            proof {
                assert(views(target@) =~= views(pre).push(values@[i as int]@));
            }
        }
        i += 1;
    }
    proof {
        assert(views(values@).take(values@.len() as int) =~= views(values@));
    }
}

/// Appends the values `target` does not hold yet.
pub fn push_unique_values(target: &mut Vec<String>, values: &Vec<String>)
    ensures
        string_views(final(target)@) == spec_push_unique(string_views(old(target)@), string_views(values@)),
{
    let mut t: Vec<Vec<char>> = Vec::new();
    let mut i: usize = 0;
    while i < target.len()
        invariant
            i <= target.len(),
            views(t@) =~= string_views(target@).take(i as int),
        decreases target.len() - i,
    {
        let ghost pre = t@;
        t.push(to_chars(target[i].as_str()));
        proof {
            assert(views(t@) =~= views(pre).push(target@[i as int]@));
        }
        i += 1;
    }
    proof {
        assert(string_views(target@).take(target@.len() as int) =~= string_views(target@));
    }
    let mut v: Vec<Vec<char>> = Vec::new();
    let mut j: usize = 0;
    while j < values.len()
        invariant
            j <= values.len(),
            views(v@) =~= string_views(values@).take(j as int),
        decreases values.len() - j,
    {
        let ghost pre = v@;
        v.push(to_chars(values[j].as_str()));
        proof {
            assert(views(v@) =~= views(pre).push(values@[j as int]@));
        }
        j += 1;
    }
    proof {
        assert(string_views(values@).take(values@.len() as int) =~= string_views(values@));
    }
    push_unique_chars(&mut t, &v);
    *target = to_strings(&t);
}

/// Appending values never brings in a duplicate: a list without duplicates stays so.
pub proof fn law_push_unique_keeps_distinct(target: Seq<Seq<char>>, values: Seq<Seq<char>>)
    requires
        spec_distinct(target),
    ensures
        spec_distinct(spec_push_unique(target, values)),
        forall|x: Seq<char>| #[trigger] spec_push_unique(target, values).contains(x) <==> (
        target.contains(x) || values.contains(x)),
    decreases values.len(),
{
    if values.len() > 0 {
        law_push_unique_keeps_distinct(target, values.drop_last());
        let prev = spec_push_unique(target, values.drop_last());
        let r = spec_push_unique(target, values);
        assert forall|x: Seq<char>| #[trigger] r.contains(x) <==> (target.contains(x)
            || values.contains(x)) by {
            if values.drop_last().contains(x) {
                let k = choose|k: int| 0 <= k < values.drop_last().len() && values.drop_last()[k] == x;
                assert(values[k] == x);
            }
            if values.contains(x) {
                let k = choose|k: int| 0 <= k < values.len() && values[k] == x;
                if k < values.len() - 1 {
                    assert(values.drop_last()[k] == x);
                }
            }
            if !prev.contains(values.last()) {
                if r.contains(x) {
                    let k = choose|k: int| 0 <= k < r.len() && r[k] == x;
                    if k < prev.len() {
                        assert(prev[k] == x);
                    }
                }
                if prev.contains(x) {
                    let k = choose|k: int| 0 <= k < prev.len() && prev[k] == x;
                    assert(r[k] == x);
                }
                if x == values.last() {
                    assert(r[prev.len() as int] == x);
                }
            }
        }
        if !prev.contains(values.last()) {
            assert forall|a: int, b: int| 0 <= a < b < r.len() implies #[trigger] r[a] != #[trigger] r[b] by {
                if b == prev.len() {
                    assert(prev[a] == r[a]);
                }
            }
        }
    }
}
pub open spec fn spec_local_search_hint_terms() -> Seq<Seq<char>> {
    Seq::empty().push("local"@).push("search"@).push("context"@).push("index"@).push("chunk"@).push("manifest"@).push("query"@).push("cache"@).push("storage"@)
}

pub open spec fn spec_local_search_hint_phrases() -> Seq<Seq<char>> {
    Seq::empty().push("local search"@).push("query cache"@).push("project root"@)
}

pub open spec fn spec_local_search_hint(query: Seq<char>, lowered: Seq<char>) -> bool {
    spec_contains(query, "本地检索"@) || spec_contains(query, "本地搜索"@) || spec_contains(lowered, "local search"@) || spec_contains(lowered, "local_search"@)
}

pub open spec fn spec_enhance_hint_terms() -> Seq<Seq<char>> {
    Seq::empty().push("enhance"@).push("prompt"@).push("provider"@).push("codex"@).push("chat"@).push("completions"@)
}

pub open spec fn spec_enhance_hint_phrases() -> Seq<Seq<char>> {
    Seq::empty().push("enhance prompt"@).push("chat completions"@).push("codex provider"@)
}

pub open spec fn spec_enhance_hint(query: Seq<char>, lowered: Seq<char>) -> bool {
    spec_contains(query, "提示词"@) || spec_contains(query, "增强"@) || spec_contains(lowered, "enhance"@) || spec_contains(lowered, "prompt"@)
}

pub open spec fn spec_codex_hint_terms() -> Seq<Seq<char>> {
    Seq::empty().push("codex"@).push("provider"@).push("config"@).push("model"@).push("api"@).push("key"@).push("base"@).push("timeout"@)
}

pub open spec fn spec_codex_hint_phrases() -> Seq<Seq<char>> {
    Seq::empty().push("codex provider"@).push("chat completions"@)
}

pub open spec fn spec_codex_hint(query: Seq<char>, lowered: Seq<char>) -> bool {
    spec_contains(lowered, "codex"@) || spec_contains(lowered, "gpt"@)
}

pub open spec fn spec_config_hint_terms() -> Seq<Seq<char>> {
    Seq::empty().push("config"@).push("provider"@).push("model"@).push("timeout"@).push("api"@).push("key"@).push("base"@).push("env"@)
}

pub open spec fn spec_config_hint_phrases() -> Seq<Seq<char>> {
    Seq::empty().push("project root"@).push("search timeout"@).push("chat completions"@)
}

pub open spec fn spec_config_hint(query: Seq<char>, lowered: Seq<char>) -> bool {
    spec_contains(query, "配置"@) || spec_contains(lowered, "config"@)
}

pub open spec fn spec_timeout_hint_terms() -> Seq<Seq<char>> {
    Seq::empty().push("timeout"@).push("summary"@).push("search"@).push("context"@).push("request"@).push("retry"@)
}

pub open spec fn spec_timeout_hint_phrases() -> Seq<Seq<char>> {
    Seq::empty().push("search timeout"@).push("summary timeout"@)
}

pub open spec fn spec_timeout_hint(query: Seq<char>, lowered: Seq<char>) -> bool {
    spec_contains(query, "超时"@) || spec_contains(lowered, "timeout"@)
}

pub open spec fn spec_storage_hint_terms() -> Seq<Seq<char>> {
    Seq::empty().push("project"@).push("root"@).push("storage"@).push("manifest"@).push("meta"@).push("chunks"@).push("query"@).push("cache"@)
}

pub open spec fn spec_storage_hint_phrases() -> Seq<Seq<char>> {
    Seq::empty().push("project root"@).push("query cache"@).push("local search"@)
}

pub open spec fn spec_storage_hint(query: Seq<char>, lowered: Seq<char>) -> bool {
    spec_contains(query, ".ace-tool"@) || spec_contains(query, "写到"@) || spec_contains(query, "项目根"@) || spec_contains(lowered, "project root"@)
}

pub open spec fn spec_index_hint_terms() -> Seq<Seq<char>> {
    Seq::empty().push("index"@).push("chunk"@).push("manifest"@).push("meta"@).push("query"@).push("cache"@)
}

pub open spec fn spec_index_hint_phrases() -> Seq<Seq<char>> {
    Seq::empty().push("query cache"@).push("local search"@)
}

pub open spec fn spec_index_hint(query: Seq<char>, lowered: Seq<char>) -> bool {
    spec_contains(query, "索引"@) || spec_contains(query, "缓存"@) || spec_contains(query, "chunk"@) || spec_contains(lowered, "index"@) || spec_contains(lowered, "cache"@) || spec_contains(lowered, "manifest"@)
}

pub open spec fn spec_broad_fallback_terms() -> Seq<Seq<char>> {
    Seq::empty().push("search"@).push("context"@).push("provider"@).push("config"@).push("local"@)
}

/// One hint rule: when it applies, its terms and phrases are added (each once).
pub open spec fn spec_hint_step(
    acc: (Seq<Seq<char>>, Seq<Seq<char>>),
    applies: bool,
    terms: Seq<Seq<char>>,
    phrases: Seq<Seq<char>>,
) -> (Seq<Seq<char>>, Seq<Seq<char>>) {
    if applies {
        (spec_push_unique(acc.0, terms), spec_push_unique(acc.1, phrases))
    } else {
        acc
    }
}

/// The extra search terms and phrases a query's topic suggests (checked on the query and on
/// its trimmed, ASCII-lowercased form); a broad query with no topic gets general terms.
pub open spec fn spec_query_hints(query: Seq<char>, broad_intent: bool) -> (Seq<Seq<char>>, Seq<Seq<char>>) {
    let lowered = spec_lower_seq(spec_trim(query));
    let a0 = (Seq::<Seq<char>>::empty(), Seq::<Seq<char>>::empty());
    let a1 = spec_hint_step(a0, spec_local_search_hint(query, lowered), spec_local_search_hint_terms(), spec_local_search_hint_phrases());
    let a2 = spec_hint_step(a1, spec_enhance_hint(query, lowered), spec_enhance_hint_terms(), spec_enhance_hint_phrases());
    let a3 = spec_hint_step(a2, spec_codex_hint(query, lowered), spec_codex_hint_terms(), spec_codex_hint_phrases());
    let a4 = spec_hint_step(a3, spec_config_hint(query, lowered), spec_config_hint_terms(), spec_config_hint_phrases());
    let a5 = spec_hint_step(a4, spec_timeout_hint(query, lowered), spec_timeout_hint_terms(), spec_timeout_hint_phrases());
    let a6 = spec_hint_step(a5, spec_storage_hint(query, lowered), spec_storage_hint_terms(), spec_storage_hint_phrases());
    let a7 = spec_hint_step(a6, spec_index_hint(query, lowered), spec_index_hint_terms(), spec_index_hint_phrases());
    if broad_intent && a7.0.len() == 0 {
        (spec_push_unique(a7.0, spec_broad_fallback_terms()), a7.1)
    } else {
        a7
    }
}

/// The extra search terms and phrases for a query (see `spec_query_hints`).
pub fn collect_query_hints(query: &str, broad_intent: bool) -> (r: (Vec<String>, Vec<String>))
    ensures
        string_views(r.0@) == spec_query_hints(query@, broad_intent).0,
        string_views(r.1@) == spec_query_hints(query@, broad_intent).1,
{
    let q = to_chars(query);
    let lowered = lower_seq(&trim(&q));
    let mut terms: Vec<Vec<char>> = Vec::new();
    let mut phrases: Vec<Vec<char>> = Vec::new();
    proof {
        assert(views(terms@) =~= Seq::<Seq<char>>::empty());
        assert(views(phrases@) =~= Seq::<Seq<char>>::empty());
    }
    let ghost a0 = (Seq::<Seq<char>>::empty(), Seq::<Seq<char>>::empty());
    let ghost a1 = spec_hint_step(a0, spec_local_search_hint(query@, lowered@), spec_local_search_hint_terms(), spec_local_search_hint_phrases());
    if contains(&q, &lit("本地检索")) || contains(&q, &lit("本地搜索")) || contains(&lowered, &lit("local search")) || contains(&lowered, &lit("local_search")) {
        let mut t: Vec<Vec<char>> = Vec::new();
        proof {
            assert(views(t@) =~= Seq::<Seq<char>>::empty());
        }
        push_lit(&mut t, "local");
        push_lit(&mut t, "search");
        push_lit(&mut t, "context");
        push_lit(&mut t, "index");
        push_lit(&mut t, "chunk");
        push_lit(&mut t, "manifest");
        push_lit(&mut t, "query");
        push_lit(&mut t, "cache");
        push_lit(&mut t, "storage");
        let mut p: Vec<Vec<char>> = Vec::new();
        proof {
            assert(views(p@) =~= Seq::<Seq<char>>::empty());
        }
        push_lit(&mut p, "local search");
        push_lit(&mut p, "query cache");
        push_lit(&mut p, "project root");
        proof {
            assert(views(t@) == spec_local_search_hint_terms());
            assert(views(p@) == spec_local_search_hint_phrases());
        }
        push_unique_chars(&mut terms, &t);
        push_unique_chars(&mut phrases, &p);
    }
    proof {
        assert(views(terms@) == a1.0);
        assert(views(phrases@) == a1.1);
    }
    let ghost a2 = spec_hint_step(a1, spec_enhance_hint(query@, lowered@), spec_enhance_hint_terms(), spec_enhance_hint_phrases());
    if contains(&q, &lit("提示词")) || contains(&q, &lit("增强")) || contains(&lowered, &lit("enhance")) || contains(&lowered, &lit("prompt")) {
        let mut t: Vec<Vec<char>> = Vec::new();
        proof {
            assert(views(t@) =~= Seq::<Seq<char>>::empty());
        }
        push_lit(&mut t, "enhance");
        push_lit(&mut t, "prompt");
        push_lit(&mut t, "provider");
        push_lit(&mut t, "codex");
        push_lit(&mut t, "chat");
        push_lit(&mut t, "completions");
        let mut p: Vec<Vec<char>> = Vec::new();
        proof {
            assert(views(p@) =~= Seq::<Seq<char>>::empty());
        }
        push_lit(&mut p, "enhance prompt");
        push_lit(&mut p, "chat completions");
        push_lit(&mut p, "codex provider");
        proof {
            assert(views(t@) == spec_enhance_hint_terms());
            assert(views(p@) == spec_enhance_hint_phrases());
        }
        push_unique_chars(&mut terms, &t);
        push_unique_chars(&mut phrases, &p);
    }
    proof {
        assert(views(terms@) == a2.0);
        assert(views(phrases@) == a2.1);
    }
    let ghost a3 = spec_hint_step(a2, spec_codex_hint(query@, lowered@), spec_codex_hint_terms(), spec_codex_hint_phrases());
    if contains(&lowered, &lit("codex")) || contains(&lowered, &lit("gpt")) {
        let mut t: Vec<Vec<char>> = Vec::new();
        proof {
            assert(views(t@) =~= Seq::<Seq<char>>::empty());
        }
        push_lit(&mut t, "codex");
        push_lit(&mut t, "provider");
        push_lit(&mut t, "config");
        push_lit(&mut t, "model");
        push_lit(&mut t, "api");
        push_lit(&mut t, "key");
        push_lit(&mut t, "base");
        push_lit(&mut t, "timeout");
        let mut p: Vec<Vec<char>> = Vec::new();
        proof {
            assert(views(p@) =~= Seq::<Seq<char>>::empty());
        }
        push_lit(&mut p, "codex provider");
        push_lit(&mut p, "chat completions");
        proof {
            assert(views(t@) == spec_codex_hint_terms());
            assert(views(p@) == spec_codex_hint_phrases());
        }
        push_unique_chars(&mut terms, &t);
        push_unique_chars(&mut phrases, &p);
    }
    proof {
        assert(views(terms@) == a3.0);
        assert(views(phrases@) == a3.1);
    }
    let ghost a4 = spec_hint_step(a3, spec_config_hint(query@, lowered@), spec_config_hint_terms(), spec_config_hint_phrases());
    if contains(&q, &lit("配置")) || contains(&lowered, &lit("config")) {
        let mut t: Vec<Vec<char>> = Vec::new();
        proof {
            assert(views(t@) =~= Seq::<Seq<char>>::empty());
        }
        push_lit(&mut t, "config");
        push_lit(&mut t, "provider");
        push_lit(&mut t, "model");
        push_lit(&mut t, "timeout");
        push_lit(&mut t, "api");
        push_lit(&mut t, "key");
        push_lit(&mut t, "base");
        push_lit(&mut t, "env");
        let mut p: Vec<Vec<char>> = Vec::new();
        proof {
            assert(views(p@) =~= Seq::<Seq<char>>::empty());
        }
        push_lit(&mut p, "project root");
        push_lit(&mut p, "search timeout");
        push_lit(&mut p, "chat completions");
        proof {
            assert(views(t@) == spec_config_hint_terms());
            assert(views(p@) == spec_config_hint_phrases());
        }
        push_unique_chars(&mut terms, &t);
        push_unique_chars(&mut phrases, &p);
    }
    proof {
        assert(views(terms@) == a4.0);
        assert(views(phrases@) == a4.1);
    }
    let ghost a5 = spec_hint_step(a4, spec_timeout_hint(query@, lowered@), spec_timeout_hint_terms(), spec_timeout_hint_phrases());
    if contains(&q, &lit("超时")) || contains(&lowered, &lit("timeout")) {
        let mut t: Vec<Vec<char>> = Vec::new();
        proof {
            assert(views(t@) =~= Seq::<Seq<char>>::empty());
        }
        push_lit(&mut t, "timeout");
        push_lit(&mut t, "summary");
        push_lit(&mut t, "search");
        push_lit(&mut t, "context");
        push_lit(&mut t, "request");
        push_lit(&mut t, "retry");
        let mut p: Vec<Vec<char>> = Vec::new();
        proof {
            assert(views(p@) =~= Seq::<Seq<char>>::empty());
        }
        push_lit(&mut p, "search timeout");
        push_lit(&mut p, "summary timeout");
        proof {
            assert(views(t@) == spec_timeout_hint_terms());
            assert(views(p@) == spec_timeout_hint_phrases());
        }
        push_unique_chars(&mut terms, &t);
        push_unique_chars(&mut phrases, &p);
    }
    proof {
        assert(views(terms@) == a5.0);
        assert(views(phrases@) == a5.1);
    }
    let ghost a6 = spec_hint_step(a5, spec_storage_hint(query@, lowered@), spec_storage_hint_terms(), spec_storage_hint_phrases());
    if contains(&q, &lit(".ace-tool")) || contains(&q, &lit("写到")) || contains(&q, &lit("项目根")) || contains(&lowered, &lit("project root")) {
        let mut t: Vec<Vec<char>> = Vec::new();
        proof {
            assert(views(t@) =~= Seq::<Seq<char>>::empty());
        }
        push_lit(&mut t, "project");
        push_lit(&mut t, "root");
        push_lit(&mut t, "storage");
        push_lit(&mut t, "manifest");
        push_lit(&mut t, "meta");
        push_lit(&mut t, "chunks");
        push_lit(&mut t, "query");
        push_lit(&mut t, "cache");
        let mut p: Vec<Vec<char>> = Vec::new();
        proof {
            assert(views(p@) =~= Seq::<Seq<char>>::empty());
        }
        push_lit(&mut p, "project root");
        push_lit(&mut p, "query cache");
        push_lit(&mut p, "local search");
        proof {
            assert(views(t@) == spec_storage_hint_terms());
            assert(views(p@) == spec_storage_hint_phrases());
        }
        push_unique_chars(&mut terms, &t);
        push_unique_chars(&mut phrases, &p);
    }
    proof {
        assert(views(terms@) == a6.0);
        assert(views(phrases@) == a6.1);
    }
    let ghost a7 = spec_hint_step(a6, spec_index_hint(query@, lowered@), spec_index_hint_terms(), spec_index_hint_phrases());
    if contains(&q, &lit("索引")) || contains(&q, &lit("缓存")) || contains(&q, &lit("chunk")) || contains(&lowered, &lit("index")) || contains(&lowered, &lit("cache")) || contains(&lowered, &lit("manifest")) {
        let mut t: Vec<Vec<char>> = Vec::new();
        proof {
            assert(views(t@) =~= Seq::<Seq<char>>::empty());
        }
        push_lit(&mut t, "index");
        push_lit(&mut t, "chunk");
        push_lit(&mut t, "manifest");
        push_lit(&mut t, "meta");
        push_lit(&mut t, "query");
        push_lit(&mut t, "cache");
        let mut p: Vec<Vec<char>> = Vec::new();
        proof {
            assert(views(p@) =~= Seq::<Seq<char>>::empty());
        }
        push_lit(&mut p, "query cache");
        push_lit(&mut p, "local search");
        proof {
            assert(views(t@) == spec_index_hint_terms());
            assert(views(p@) == spec_index_hint_phrases());
        }
        push_unique_chars(&mut terms, &t);
        push_unique_chars(&mut phrases, &p);
    }
    proof {
        assert(views(terms@) == a7.0);
        assert(views(phrases@) == a7.1);
    }
    if broad_intent && terms.len() == 0 {
        let mut t: Vec<Vec<char>> = Vec::new();
        proof {
            assert(views(t@) =~= Seq::<Seq<char>>::empty());
        }
        push_lit(&mut t, "search");
        push_lit(&mut t, "context");
        push_lit(&mut t, "provider");
        push_lit(&mut t, "config");
        push_lit(&mut t, "local");
        proof {
            assert(views(t@) == spec_broad_fallback_terms());
        }
        push_unique_chars(&mut terms, &t);
    }
    (to_strings(&terms), to_strings(&phrases))
}

/// Words that mark a broad, topic-level question.
pub open spec fn spec_broad_markers() -> Seq<Seq<char>> {
    Seq::empty().push("配置"@).push("优化"@).push("改造"@).push("机制"@).push("流程"@).push("超时"@).push("本地检索"@).push("提示词"@).push("写到"@).push("缓存"@).push("索引"@)
}

/// Text that anchors a query to code: file extensions, paths, `::` and `_`.
pub open spec fn spec_code_anchors() -> Seq<Seq<char>> {
    Seq::empty().push(".rs"@).push(".toml"@).push(".json"@).push("::"@).push("/"@).push("\\"@).push("_"@)
}

/// A term that names code explicitly: it has an ASCII letter and at least five bytes.
pub open spec fn spec_explicit_ascii_term(t: Seq<char>) -> bool {
    (exists|i: int| 0 <= i < t.len() && spec_is_ascii_alpha(#[trigger] t[i])) && vstd::utf8::encode_utf8(
        t,
    ).len() >= 5
}

/// How many of the first `k` terms name code explicitly.
pub open spec fn spec_explicit_count(terms: Seq<Seq<char>>, k: int) -> nat
    decreases k,
{
    if k <= 0 {
        0
    } else {
        spec_explicit_count(terms, k - 1) + if spec_explicit_ascii_term(terms[k - 1]) {
            1nat
        } else {
            0nat
        }
    }
}

/// A broad query: no code anchor in its trimmed lowercase form, fewer than two explicit
/// ASCII terms, and one of the broad markers in it.
pub open spec fn spec_looks_like_broad_query(query: Seq<char>, terms: Seq<Seq<char>>) -> bool {
    let lowered = spec_lower_seq(spec_trim(query));
    !(exists|i: int| 0 <= i < spec_code_anchors().len() && spec_contains(lowered, #[trigger] spec_code_anchors()[i]))
        && spec_explicit_count(terms, terms.len() as int) < 2 && (exists|i: int|
        0 <= i < spec_broad_markers().len() && spec_contains(query, #[trigger] spec_broad_markers()[i]))
}

fn contains_any_of(s: &Vec<char>, markers: &Vec<Vec<char>>) -> (b: bool)
    ensures
        b == exists|i: int| 0 <= i < markers.len() && spec_contains(s@, #[trigger] views(markers@)[i]),
{
    let mut i: usize = 0;
    while i < markers.len()
        invariant
            i <= markers.len(),
            forall|j: int| 0 <= j < i ==> !spec_contains(s@, #[trigger] views(markers@)[j]),
        decreases markers.len() - i,
    {
        if contains(s, &markers[i]) {
            proof {
                assert(views(markers@)[i as int] == markers@[i as int]@);
            }
            return true;
        }
        i += 1;
    }
    false
}

fn is_explicit_ascii_term(t: &String) -> (b: bool)
    ensures
        b == spec_explicit_ascii_term(t@),
{
    let c = to_chars(t.as_str());
    let mut has_alpha = false;
    let mut i: usize = 0;
    while i < c.len()
        invariant
            i <= c.len(),
            has_alpha == exists|j: int| 0 <= j < i && spec_is_ascii_alpha(#[trigger] c@[j]),
        decreases c.len() - i,
    {
        if is_ascii_alpha(c[i]) {
            has_alpha = true;
        }
        proof {
            if has_alpha && !spec_is_ascii_alpha(c@[i as int]) {
                let j = choose|j: int| 0 <= j < i && spec_is_ascii_alpha(#[trigger] c@[j]);
                assert(spec_is_ascii_alpha(c@[j]));
            }
        }
        i += 1;
    }
    has_alpha && t.as_str().as_bytes().len() >= 5
}

/// Whether a query asks about a topic broadly rather than about named code.
pub fn looks_like_broad_query(query: &str, ordered_terms: &Vec<String>) -> (b: bool)
    ensures
        b == spec_looks_like_broad_query(query@, string_views(ordered_terms@)),
{
    let q = to_chars(query);
    let lowered = lower_seq(&trim(&q));
    let mut anchors: Vec<Vec<char>> = Vec::new();
    proof {
        assert(views(anchors@) =~= Seq::<Seq<char>>::empty());
    }
    push_lit(&mut anchors, ".rs");
    push_lit(&mut anchors, ".toml");
    push_lit(&mut anchors, ".json");
    push_lit(&mut anchors, "::");
    push_lit(&mut anchors, "/");
    push_lit(&mut anchors, "\\");
    push_lit(&mut anchors, "_");
    proof {
        assert(views(anchors@) == spec_code_anchors());
    }
    if contains_any_of(&lowered, &anchors) {
        return false;
    }
    let ghost tv = string_views(ordered_terms@);
    let mut explicit: usize = 0;
    let mut i: usize = 0;
    while i < ordered_terms.len()
        invariant
            i <= ordered_terms.len(),
            tv == string_views(ordered_terms@),
            explicit == spec_explicit_count(tv, i as int),
            explicit <= i,
        decreases ordered_terms.len() - i,
    {
        if is_explicit_ascii_term(&ordered_terms[i]) {
            explicit += 1;
        }
        i += 1;
    }
    if explicit >= 2 {
        return false;
    }
    let mut markers: Vec<Vec<char>> = Vec::new();
    proof {
        assert(views(markers@) =~= Seq::<Seq<char>>::empty());
    }
    push_lit(&mut markers, "配置");
    push_lit(&mut markers, "优化");
    push_lit(&mut markers, "改造");
    push_lit(&mut markers, "机制");
    push_lit(&mut markers, "流程");
    push_lit(&mut markers, "超时");
    push_lit(&mut markers, "本地检索");
    push_lit(&mut markers, "提示词");
    push_lit(&mut markers, "写到");
    push_lit(&mut markers, "缓存");
    push_lit(&mut markers, "索引");
    proof {
        assert(views(markers@) == spec_broad_markers());
    }
    contains_any_of(&q, &markers)
}

/// What the summaries and the re-rank prompt show of a search candidate.
pub struct CandidateView {
    pub id: String,
    pub path: String,
    pub start_line: usize,
    pub end_line: usize,
    pub content_hash: String,
    pub content: String,
    pub matched_terms: Vec<String>,
    pub matched_phrases: Vec<String>,
    pub reason_labels: Vec<String>,
}

/// A candidate as the re-rank model sees it.
pub struct RerankCandidate {
    pub id: String,
    pub path: String,
    pub start_line: usize,
    pub end_line: usize,
    pub reason_summary: String,
    pub snippet: String,
}

/// Why a candidate matched: its reason labels (` / `), `terms=` its matched terms (`, `) and
/// `phrases=` its matched phrases (` | `), the present ones joined by `; `.
pub open spec fn spec_reason_summary(
    labels: Seq<Seq<char>>,
    terms: Seq<Seq<char>>,
    phrases: Seq<Seq<char>>,
) -> Seq<char> {
    let p1: Seq<Seq<char>> = if labels.len() > 0 {
        seq![spec_join(labels, " / "@)]
    } else {
        Seq::empty()
    };
    let p2 = if terms.len() > 0 {
        p1.push("terms="@ + spec_join(terms, ", "@))
    } else {
        p1
    };
    let p3 = if phrases.len() > 0 {
        p2.push("phrases="@ + spec_join(phrases, " | "@))
    } else {
        p2
    };
    spec_join(p3, "; "@)
}

fn chars_list(v: &Vec<String>) -> (r: Vec<Vec<char>>)
    ensures
        views(r@) == string_views(v@),
{
    let mut r: Vec<Vec<char>> = Vec::new();
    let mut i: usize = 0;
    while i < v.len()
        invariant
            i <= v.len(),
            views(r@) =~= string_views(v@).take(i as int),
        decreases v.len() - i,
    {
        let ghost pre = r@;
        r.push(to_chars(v[i].as_str()));
        proof {
            assert(views(r@) =~= views(pre).push(v@[i as int]@));
        }
        i += 1;
    }
    proof {
        assert(string_views(v@).take(v@.len() as int) =~= string_views(v@));
    }
    r
}

fn join_strings(v: &Vec<String>, sep: &str) -> (r: Vec<char>)
    ensures
        r@ == spec_join(string_views(v@), sep@),
{
    join(&chars_list(v), &lit(sep))
}

pub fn render_candidate_reason_summary(candidate: &CandidateView) -> (r: String)
    ensures
        r@ == spec_reason_summary(
            string_views(candidate.reason_labels@),
            string_views(candidate.matched_terms@),
            string_views(candidate.matched_phrases@),
        ),
{
    let mut parts: Vec<Vec<char>> = Vec::new();
    let ghost p0 = views(parts@);
    if candidate.reason_labels.len() > 0 {
        parts.push(join_strings(&candidate.reason_labels, " / "));
    }
    proof {
        assert(views(parts@) =~= if candidate.reason_labels@.len() > 0 {
            seq![spec_join(string_views(candidate.reason_labels@), " / "@)]
        } else {
            Seq::<Seq<char>>::empty()
        });
    }
    if candidate.matched_terms.len() > 0 {
        let ghost pre = views(parts@);
        let mut t = lit("terms=");
        append_chars(&mut t, &join_strings(&candidate.matched_terms, ", "));
        parts.push(t);
        proof {
            assert(views(parts@) =~= pre.push("terms="@ + spec_join(string_views(candidate.matched_terms@), ", "@)));
        }
    }
    if candidate.matched_phrases.len() > 0 {
        let ghost pre = views(parts@);
        let mut t = lit("phrases=");
        append_chars(&mut t, &join_strings(&candidate.matched_phrases, " | "));
        parts.push(t);
        proof {
            assert(views(parts@) =~= pre.push("phrases="@ + spec_join(string_views(candidate.matched_phrases@), " | "@)));
        }
    }
    let j = join(&parts, &lit("; "));
    string_from_chars(j.as_slice())
}

/// The re-rank view of a candidate: its reason summary and its summary snippet.
pub fn build_rerank_candidate(candidate: &CandidateView) -> (r: RerankCandidate)
    ensures
        r.id@ == candidate.id@,
        r.path@ == candidate.path@,
        r.start_line == candidate.start_line,
        r.end_line == candidate.end_line,
        r.reason_summary@ == spec_reason_summary(
            string_views(candidate.reason_labels@),
            string_views(candidate.matched_terms@),
            string_views(candidate.matched_phrases@),
        ),
        r.snippet@ == spec_summary_snippet(candidate.content@),
{
    RerankCandidate {
        id: candidate.id.clone(),
        path: candidate.path.clone(),
        start_line: candidate.start_line,
        end_line: candidate.end_line,
        reason_summary: render_candidate_reason_summary(candidate),
        snippet: build_summary_snippet(candidate.content.as_str()),
    }
}

/// The prompt block of one re-rank candidate.
pub open spec fn spec_rerank_block(c: RerankCandidate) -> Seq<char> {
    "候选ID: "@ + c.id@ + "\n文件: "@ + c.path@ + "\n行号: "@ + spec_decimal(c.start_line as nat)
        + "-"@ + spec_decimal(c.end_line as nat) + "\n命中原因: "@ + c.reason_summary@
        + "\n代码片段:\n"@ + c.snippet@ + "\n"@
}

/// Blocks from `i` on, taken while they fit in `budget` characters (given `total` so far; the
/// first block is always taken).
pub open spec fn spec_take_within(blocks: Seq<Seq<char>>, i: int, total: int, budget: int) -> Seq<
    Seq<char>,
>
    decreases blocks.len() - i,
{
    if i < 0 || i >= blocks.len() {
        Seq::empty()
    } else if total > 0 && total + blocks[i].len() > budget {
        Seq::empty()
    } else {
        seq![blocks[i]] + spec_take_within(blocks, i + 1, total + blocks[i].len(), budget)
    }
}

pub open spec fn spec_rerank_blocks(cands: Seq<RerankCandidate>) -> Seq<Seq<char>> {
    cands.map_values(|c: RerankCandidate| spec_rerank_block(c))
}

/// The re-rank prompt's candidate section: the blocks, in order, as long as they fit in
/// `RERANK_CONTEXT_MAX_CHARS`, separated by newlines.
pub open spec fn spec_rerank_context(cands: Seq<RerankCandidate>) -> Seq<char> {
    spec_join(spec_take_within(spec_rerank_blocks(cands), 0, 0, RERANK_CONTEXT_MAX_CHARS as int), "\n"@)
}

fn rerank_block(c: &RerankCandidate) -> (r: Vec<char>)
    ensures
        r@ == spec_rerank_block(*c),
{
    let mut b = lit("候选ID: ");
    append_chars(&mut b, &to_chars(c.id.as_str()));
    append_chars(&mut b, &lit("\n文件: "));
    append_chars(&mut b, &to_chars(c.path.as_str()));
    append_chars(&mut b, &lit("\n行号: "));
    append_chars(&mut b, &decimal(c.start_line as u64));
    append_chars(&mut b, &lit("-"));
    append_chars(&mut b, &decimal(c.end_line as u64));
    append_chars(&mut b, &lit("\n命中原因: "));
    append_chars(&mut b, &to_chars(c.reason_summary.as_str()));
    append_chars(&mut b, &lit("\n代码片段:\n"));
    append_chars(&mut b, &to_chars(c.snippet.as_str()));
    append_chars(&mut b, &lit("\n"));
    b
}

pub fn take_within(blocks: &Vec<Vec<char>>, budget: usize) -> (r: Vec<Vec<char>>)
    ensures
        views(r@) == spec_take_within(views(blocks@), 0, 0, budget as int),
{
    let ghost bv = views(blocks@);
    let mut r: Vec<Vec<char>> = Vec::new();
    let mut total: usize = 0;
    let mut i: usize = 0;
    while i < blocks.len()
        invariant
            i <= blocks.len(),
            bv == views(blocks@),
            spec_take_within(bv, 0, 0, budget as int) == views(r@) + spec_take_within(
                bv,
                i as int,
                total as int,
                budget as int,
            ),
        decreases blocks.len() - i,
    {
        let len = blocks[i].len();
        if total > 0 && (total > budget || len > budget - total) {
            proof {
                assert(views(r@) + Seq::<Seq<char>>::empty() =~= views(r@));
            }
            return r;
        }
        let ghost pre = views(r@);
        r.push(copy_chars(&blocks[i]));
        proof {
            assert(views(r@) =~= pre.push(bv[i as int]));
            assert(pre + (seq![bv[i as int]] + spec_take_within(bv, i + 1, total + len, budget as int))
                =~= views(r@) + spec_take_within(bv, i + 1, total + len, budget as int));
        }
        total = total + len;
        i += 1;
    }
    proof {
        assert(views(r@) + Seq::<Seq<char>>::empty() =~= views(r@));
    }
    r
}

/// The candidate section of the re-rank prompt (see `spec_rerank_context`).
pub fn render_context_for_rerank(candidates: &Vec<RerankCandidate>) -> (r: String)
    ensures
        r@ == spec_rerank_context(candidates@),
{
    let mut blocks: Vec<Vec<char>> = Vec::new();
    let mut i: usize = 0;
    while i < candidates.len()
        invariant
            i <= candidates.len(),
            views(blocks@) =~= spec_rerank_blocks(candidates@).take(i as int),
        decreases candidates.len() - i,
    {
        let ghost pre = blocks@;
        blocks.push(rerank_block(&candidates[i]));
        proof {
            assert(views(blocks@) =~= views(pre).push(spec_rerank_block(candidates@[i as int])));
        }
        i += 1;
    }
    proof {
        assert(spec_rerank_blocks(candidates@).take(candidates@.len() as int) =~= spec_rerank_blocks(candidates@));
    }
    let taken = take_within(&blocks, RERANK_CONTEXT_MAX_CHARS);
    let j = join(&taken, &lit("\n"));
    string_from_chars(j.as_slice())
}

/// How many of the chosen indices `sel` point at a candidate of file `path`.
pub open spec fn spec_file_count(paths: Seq<Seq<char>>, sel: Seq<int>, path: Seq<char>) -> nat
    decreases sel.len(),
{
    if sel.len() == 0 {
        0
    } else {
        spec_file_count(paths, sel.drop_last(), path) + if paths[sel.last()] == path {
            1nat
        } else {
            0nat
        }
    }
}

/// The first pass over the first `k` candidates: a candidate is chosen while its file has
/// fewer than `soft` chosen candidates, else deferred.
pub open spec fn spec_first_pass(paths: Seq<Seq<char>>, soft: int, k: int) -> (Seq<int>, Seq<int>)
    decreases k,
{
    if k <= 0 {
        (Seq::empty(), Seq::empty())
    } else {
        let prev = spec_first_pass(paths, soft, k - 1);
        if spec_file_count(paths, prev.0, paths[k - 1]) < soft {
            (prev.0.push(k - 1), prev.1)
        } else {
            (prev.0, prev.1.push(k - 1))
        }
    }
}

/// The candidates kept (as indices into the ranked list): at most `top_k`, preferring at most
/// `soft_limit_per_file` per file and filling up with the deferred ones in rank order. With
/// `top_k` zero (and some candidates) the whole list, first-pass choices first, is kept.
pub open spec fn spec_select_diverse(paths: Seq<Seq<char>>, top_k: int, soft: int) -> Seq<int> {
    let n = paths.len() as int;
    if n <= top_k || soft == 0 {
        Seq::new(if n < top_k { n as nat } else { top_k as nat }, |i: int| i)
    } else {
        let fp = spec_first_pass(paths, soft, n);
        if top_k == 0 {
            fp.0 + fp.1
        } else if fp.0.len() >= top_k {
            fp.0.take(top_k)
        } else {
            (fp.0 + fp.1).take(top_k)
        }
    }
}

proof fn lemma_first_pass_sizes(paths: Seq<Seq<char>>, soft: int, k: int)
    requires
        0 <= k <= paths.len(),
    ensures
        spec_first_pass(paths, soft, k).0.len() + spec_first_pass(paths, soft, k).1.len() == k,
        forall|j: int| 0 <= j < spec_first_pass(paths, soft, k).0.len() ==> 0 <= #[trigger] spec_first_pass(paths, soft, k).0[j] < k,
    decreases k,
{
    if k > 0 {
        lemma_first_pass_sizes(paths, soft, k - 1);
    }
}

fn file_count(paths: &Vec<Vec<char>>, sel: &Vec<usize>, path: &Vec<char>) -> (c: usize)
    requires
        forall|j: int| 0 <= j < sel.len() ==> #[trigger] sel@[j] < paths.len(),
    ensures
        c == spec_file_count(views(paths@), sel@.map_values(|x: usize| x as int), path@),
{
    let ghost pv = views(paths@);
    let ghost si = sel@.map_values(|x: usize| x as int);
    let mut c: usize = 0;
    let mut i: usize = 0;
    while i < sel.len()
        invariant
            i <= sel.len(),
            pv == views(paths@),
            si == sel@.map_values(|x: usize| x as int),
            forall|j: int| 0 <= j < sel.len() ==> #[trigger] sel@[j] < paths.len(),
            c == spec_file_count(pv, si.take(i as int), path@),
            c <= i,
        decreases sel.len() - i,
    {
        proof {
            assert(si.take(i + 1).drop_last() =~= si.take(i as int));
            assert(si.take(i + 1).last() == sel@[i as int] as int);
        }
        if chars_eq(&paths[sel[i]], path) {
            c += 1;
        }
        i += 1;
    }
    proof {
        assert(si.take(sel.len() as int) =~= si);
    }
    c
}

/// Picks the candidates to show (see `spec_select_diverse`), given the files of the ranked
/// candidates; returns their indices.
pub fn select_diverse_candidates(paths: &Vec<String>, top_k: usize, soft_limit_per_file: usize) -> (r: Vec<usize>)
    ensures
        r@.map_values(|x: usize| x as int) == spec_select_diverse(
            string_views(paths@),
            top_k as int,
            soft_limit_per_file as int,
        ),
{
    let n = paths.len();
    let ghost pv = string_views(paths@);
    if n <= top_k || soft_limit_per_file == 0 {
        let k = if n < top_k {
            n
        } else {
            top_k
        };
        let mut r: Vec<usize> = Vec::new();
        let mut i: usize = 0;
        while i < k
            invariant
                i <= k,
                r@.map_values(|x: usize| x as int) =~= Seq::new(i as nat, |j: int| j),
            decreases k - i,
        {
            let ghost pre = r@;
            r.push(i);
            proof {
                assert(r@.map_values(|x: usize| x as int) =~= pre.map_values(|x: usize| x as int).push(i as int));
            }
            i += 1;
        }
        return r;
    }
    let ps = chars_list(paths);
    proof {
        assert(views(ps@).len() == ps@.len());
    }
    let mut sel: Vec<usize> = Vec::new();
    let mut def: Vec<usize> = Vec::new();
    let mut i: usize = 0;
    while i < n
        invariant
            n == paths.len(),
            n == ps.len(),
            n > top_k,
            soft_limit_per_file > 0,
            i <= n,
            views(ps@) == pv,
            pv == string_views(paths@),
            sel@.map_values(|x: usize| x as int) == spec_first_pass(pv, soft_limit_per_file as int, i as int).0,
            def@.map_values(|x: usize| x as int) == spec_first_pass(pv, soft_limit_per_file as int, i as int).1,
            forall|j: int| 0 <= j < sel.len() ==> #[trigger] sel@[j] < i,
            top_k > 0 ==> sel.len() < top_k,
        decreases n - i,
    {
        proof {
            lemma_first_pass_sizes(pv, soft_limit_per_file as int, i as int);
        }
        let c = file_count(&ps, &sel, &ps[i]);
        let ghost s0 = sel@;
        let ghost d0 = def@;
        if c < soft_limit_per_file {
            sel.push(i);
            proof {
                assert(sel@.map_values(|x: usize| x as int) =~= s0.map_values(|x: usize| x as int).push(i as int));
            }
        } else {
            def.push(i);
            proof {
                assert(def@.map_values(|x: usize| x as int) =~= d0.map_values(|x: usize| x as int).push(i as int));
            }
        }
        i += 1;
        if sel.len() == top_k {
            proof {
                lemma_first_pass_prefix(pv, soft_limit_per_file as int, i as int, n as int);
                lemma_first_pass_sizes(pv, soft_limit_per_file as int, n as int);
                let fp = spec_first_pass(pv, soft_limit_per_file as int, n as int);
                assert(fp.0.take(top_k as int) =~= sel@.map_values(|x: usize| x as int));
            }
            return sel;
        }
    }
    proof {
        lemma_first_pass_sizes(pv, soft_limit_per_file as int, n as int);
    }
    let mut out = sel;
    let mut k: usize = 0;
    while k < def.len()
        invariant
            k <= def.len(),
            n == paths.len(),
            n > top_k,
            soft_limit_per_file > 0,
            pv == string_views(paths@),
            top_k == 0 || out.len() < top_k,
            out@.map_values(|x: usize| x as int) == (spec_first_pass(pv, soft_limit_per_file as int, n as int).0
                + spec_first_pass(pv, soft_limit_per_file as int, n as int).1.take(k as int)),
            def@.map_values(|x: usize| x as int) == spec_first_pass(pv, soft_limit_per_file as int, n as int).1,
        decreases def.len() - k,
    {
        let ghost o0 = out@;
        out.push(def[k]);
        proof {
            let fp = spec_first_pass(pv, soft_limit_per_file as int, n as int);
            assert(def@.map_values(|x: usize| x as int)[k as int] == def@[k as int] as int);
            assert(fp.1[k as int] == def@[k as int] as int);
            assert(fp.1.take(k + 1) =~= fp.1.take(k as int).push(fp.1[k as int]));
            assert(out@.map_values(|x: usize| x as int) =~= o0.map_values(|x: usize| x as int).push(def@[k as int] as int));
            assert(out@.map_values(|x: usize| x as int) =~= fp.0 + fp.1.take(k + 1));
        }
        k += 1;
        if out.len() == top_k {
            proof {
                let fp = spec_first_pass(pv, soft_limit_per_file as int, n as int);
                assert((fp.0 + fp.1).take(top_k as int) =~= fp.0 + fp.1.take(k as int));
            }
            return out;
        }
    }
    proof {
        let fp = spec_first_pass(pv, soft_limit_per_file as int, n as int);
        assert(fp.1.take(def.len() as int) =~= fp.1);
        if top_k > 0 {
            assert(fp.0.len() + fp.1.len() == n);
            assert(n > top_k);
        }
    }
    out
}

proof fn lemma_first_pass_prefix(paths: Seq<Seq<char>>, soft: int, k: int, n: int)
    requires
        0 <= k <= n,
    ensures
        spec_first_pass(paths, soft, k).0.len() <= spec_first_pass(paths, soft, n).0.len(),
        spec_first_pass(paths, soft, n).0.take(spec_first_pass(paths, soft, k).0.len() as int)
            == spec_first_pass(paths, soft, k).0,
    decreases n - k,
{
    if k < n {
        lemma_first_pass_prefix(paths, soft, k, n - 1);
        let a = spec_first_pass(paths, soft, k).0;
        let b = spec_first_pass(paths, soft, n - 1).0;
        let c = spec_first_pass(paths, soft, n).0;
        assert(c.take(a.len() as int) =~= b.take(a.len() as int));
    } else {
        assert(spec_first_pass(paths, soft, n).0.take(spec_first_pass(paths, soft, n).0.len() as int) =~= spec_first_pass(paths, soft, n).0);
    }
}

/// The lines describing candidate number `n` (from one).
pub open spec fn spec_fallback_candidate_lines(c: CandidateView, n: int) -> Seq<Seq<char>> {
    let head = seq![
        spec_decimal(n as nat) + ". "@ + c.path@ + ":"@ + spec_decimal(c.start_line as nat) + "-"@
            + spec_decimal(c.end_line as nat),
        "   Reasons: "@ + spec_reason_summary(
            string_views(c.reason_labels@),
            string_views(c.matched_terms@),
            string_views(c.matched_phrases@),
        ),
    ];
    let with_terms = if c.matched_terms@.len() > 0 {
        head.push("   Matched terms: "@ + spec_join(string_views(c.matched_terms@), ", "@))
    } else {
        head
    };
    let with_phrases = if c.matched_phrases@.len() > 0 {
        with_terms.push("   Matched phrases: "@ + spec_join(string_views(c.matched_phrases@), " | "@))
    } else {
        with_terms
    };
    with_phrases.push("   Snippet: "@ + spec_summarize_snippet(c.content@))
}

/// The lines of the first `k` candidates.
pub open spec fn spec_fallback_body(cands: Seq<CandidateView>, k: int) -> Seq<Seq<char>>
    decreases k,
{
    if k <= 0 {
        Seq::empty()
    } else {
        spec_fallback_body(cands, k - 1) + spec_fallback_candidate_lines(cands[k - 1], k)
    }
}

/// The local answer given when no model summary is used: a conclusion, the fallback reason if
/// any, the trimmed question, and for every candidate its place, reasons, matches and snippet.
pub open spec fn spec_structured_fallback(
    query: Seq<char>,
    cands: Seq<CandidateView>,
    reason: Option<Seq<char>>,
) -> Seq<char> {
    let head: Seq<Seq<char>> = seq!["Conclusion: 已召回最相关的本地代码片段，当前返回结构化本地结果。"@];
    let with_reason = match reason {
        Some(r) => head.push("Fallback reason: "@ + r),
        None => head,
    };
    let intro = with_reason.push("Question: "@ + spec_trim(query)).push(Seq::empty()).push(
        "Key files and why:"@,
    );
    spec_join(intro + spec_fallback_body(cands, cands.len() as int), "\n"@)
}

fn push_line(lines: &mut Vec<Vec<char>>, line: Vec<char>)
    ensures
        views(final(lines)@) == views(old(lines)@).push(line@),
{
    let ghost pre = lines@;
    let ghost lv = line@;
    lines.push(line);
    proof {
        assert(views(lines@) =~= views(pre).push(lv));
    }
}

fn fallback_candidate_lines(c: &CandidateView, n: usize) -> (r: Vec<Vec<char>>)
    ensures
        views(r@) == spec_fallback_candidate_lines(*c, n as int),
{
    let mut lines: Vec<Vec<char>> = Vec::new();
    let mut first = decimal(n as u64);
    append_chars(&mut first, &lit(". "));
    append_chars(&mut first, &to_chars(c.path.as_str()));
    append_chars(&mut first, &lit(":"));
    append_chars(&mut first, &decimal(c.start_line as u64));
    append_chars(&mut first, &lit("-"));
    append_chars(&mut first, &decimal(c.end_line as u64));
    proof {
        assert(views(lines@) =~= Seq::<Seq<char>>::empty());
    }
    push_line(&mut lines, first);
    let mut reasons = lit("   Reasons: ");
    append_chars(&mut reasons, &to_chars(render_candidate_reason_summary(c).as_str()));
    push_line(&mut lines, reasons);
    if c.matched_terms.len() > 0 {
        let mut t = lit("   Matched terms: ");
        append_chars(&mut t, &join_strings(&c.matched_terms, ", "));
        push_line(&mut lines, t);
    }
    if c.matched_phrases.len() > 0 {
        let mut t = lit("   Matched phrases: ");
        append_chars(&mut t, &join_strings(&c.matched_phrases, " | "));
        push_line(&mut lines, t);
    }
    let mut sn = lit("   Snippet: ");
    append_chars(&mut sn, &to_chars(summarize_snippet(c.content.as_str()).as_str()));
    push_line(&mut lines, sn);
    lines
}

pub fn render_structured_fallback(
    query: &str,
    candidates: &Vec<CandidateView>,
    fallback_reason: Option<&str>,
) -> (r: String)
    ensures
        r@ == spec_structured_fallback(
            query@,
            candidates@,
            match fallback_reason {
                Some(x) => Some(x@),
                None => None,
            },
        ),
{
    let mut lines: Vec<Vec<char>> = Vec::new();
    proof {
        assert(views(lines@) =~= Seq::<Seq<char>>::empty());
    }
    push_line(&mut lines, lit("Conclusion: 已召回最相关的本地代码片段，当前返回结构化本地结果。"));
    if let Some(reason) = fallback_reason {
        let mut l = lit("Fallback reason: ");
        append_chars(&mut l, &to_chars(reason));
        push_line(&mut lines, l);
    }
    let mut q = lit("Question: ");
    append_chars(&mut q, &trim(&to_chars(query)));
    push_line(&mut lines, q);
    push_line(&mut lines, Vec::new());
    push_line(&mut lines, lit("Key files and why:"));
    let ghost intro = views(lines@);
    let mut i: usize = 0;
    while i < candidates.len()
        invariant
            i <= candidates.len(),
            views(lines@) == intro + spec_fallback_body(candidates@, i as int),
        decreases candidates.len() - i,
    {
        let block = fallback_candidate_lines(&candidates[i], i + 1);
        let ghost pre = views(lines@);
        crate::text::append_lines(&mut lines, &block);
        proof {
            assert(views(lines@) =~= intro + spec_fallback_body(candidates@, i + 1));
        }
        i += 1;
    }
    let j = join(&lines, &lit("\n"));
    string_from_chars(j.as_slice())
}
} // verus!
