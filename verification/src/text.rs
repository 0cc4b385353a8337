//! Character-sequence primitives shared by the text-processing modules.
//!
//! Every function here works on `Vec<char>` and is specified over `Seq<char>`,
//! which is the view Verus gives to `String` and `&str`.
use vstd::prelude::*;

verus! {

/// Unicode `White_Space`, the set that `char::is_whitespace` and `str::trim` use.
pub open spec fn spec_is_ws(c: char) -> bool {
    let u = c as u32;
    (0x09 <= u && u <= 0x0D) || u == 0x20 || u == 0x85 || u == 0xA0 || u == 0x1680 || (0x2000
        <= u && u <= 0x200A) || u == 0x2028 || u == 0x2029 || u == 0x202F || u == 0x205F || u
        == 0x3000
}

/// A CJK unified ideograph (U+4E00 ..= U+9FFF).
pub open spec fn spec_is_cjk(c: char) -> bool {
    0x4E00 <= (c as u32) && (c as u32) <= 0x9FFF
}

pub open spec fn spec_is_ascii_upper(c: char) -> bool {
    'A' <= c && c <= 'Z'
}

pub open spec fn spec_is_ascii_lower(c: char) -> bool {
    'a' <= c && c <= 'z'
}

pub open spec fn spec_is_ascii_digit(c: char) -> bool {
    '0' <= c && c <= '9'
}

pub open spec fn spec_is_ascii_alpha(c: char) -> bool {
    spec_is_ascii_upper(c) || spec_is_ascii_lower(c)
}

pub open spec fn spec_is_ascii_alnum(c: char) -> bool {
    spec_is_ascii_alpha(c) || spec_is_ascii_digit(c)
}

/// `char::to_ascii_lowercase`.
pub open spec fn spec_lower(c: char) -> char {
    if spec_is_ascii_upper(c) {
        ((c as u32) + 32) as char
    } else {
        c
    }
}

/// `str::to_ascii_lowercase`.
pub open spec fn spec_lower_seq(s: Seq<char>) -> Seq<char> {
    s.map_values(|c: char| spec_lower(c))
}

pub open spec fn spec_contains_cjk(s: Seq<char>) -> bool {
    exists|i: int| 0 <= i < s.len() && spec_is_cjk(#[trigger] s[i])
}

/// `str::trim_start`.
pub open spec fn spec_trim_start(s: Seq<char>) -> Seq<char>
    decreases s.len(),
{
    if s.len() > 0 && spec_is_ws(s[0]) {
        spec_trim_start(s.drop_first())
    } else {
        s
    }
}

/// `str::trim_end`.
pub open spec fn spec_trim_end(s: Seq<char>) -> Seq<char>
    decreases s.len(),
{
    if s.len() > 0 && spec_is_ws(s.last()) {
        spec_trim_end(s.drop_last())
    } else {
        s
    }
}

/// `str::trim`.
pub open spec fn spec_trim(s: Seq<char>) -> Seq<char> {
    spec_trim_end(spec_trim_start(s))
}

/// `str::starts_with` for a string pattern.
pub open spec fn spec_starts_with(s: Seq<char>, p: Seq<char>) -> bool {
    p.len() <= s.len() && s.subrange(0, p.len() as int) == p
}

/// `str::ends_with` for a string pattern.
pub open spec fn spec_ends_with(s: Seq<char>, p: Seq<char>) -> bool {
    p.len() <= s.len() && s.subrange(s.len() - p.len(), s.len() as int) == p
}

/// `p` occurs in `s` at position `i`.
pub open spec fn spec_occurs_at(s: Seq<char>, p: Seq<char>, i: int) -> bool {
    0 <= i && i + p.len() <= s.len() && s.subrange(i, i + p.len()) == p
}

/// `str::contains` for a string pattern.
pub open spec fn spec_contains(s: Seq<char>, p: Seq<char>) -> bool {
    exists|i: int| spec_occurs_at(s, p, i)
}

/// `str::replace` with a non-empty pattern: non-overlapping occurrences, found left to right.
pub open spec fn spec_replace(s: Seq<char>, from: Seq<char>, to: Seq<char>) -> Seq<char>
    decreases s.len(),
{
    if s.len() == 0 {
        Seq::empty()
    } else if from.len() > 0 && spec_starts_with(s, from) {
        to + spec_replace(s.skip(from.len() as int), from, to)
    } else {
        seq![s[0]] + spec_replace(s.drop_first(), from, to)
    }
}

/// Builds a `String` whose characters are `v`, by collecting them (`FromIterator<char>` for
/// `String`); the contract claims that the string holds exactly those characters in order.
#[verifier::external_body]
pub(crate) fn string_from_chars(v: &[char]) -> (s: String)
    ensures
        s@ == v@,
{
    v.iter().collect()
}

/// The characters of a string slice.
pub fn to_chars(s: &str) -> (v: Vec<char>)
    ensures
        v@ == s@,
{
    let mut v: Vec<char> = Vec::new();
    for c in it: s.chars()
        invariant
            v@ == it.seq().take(it.index() as int),
    {
        v.push(c);
    }
    v
}

pub fn is_ws(c: char) -> (b: bool)
    ensures
        b == spec_is_ws(c),
{
    let u = c as u32;
    (0x09 <= u && u <= 0x0D) || u == 0x20 || u == 0x85 || u == 0xA0 || u == 0x1680 || (0x2000
        <= u && u <= 0x200A) || u == 0x2028 || u == 0x2029 || u == 0x202F || u == 0x205F || u
        == 0x3000
}

pub fn is_cjk(c: char) -> (b: bool)
    ensures
        b == spec_is_cjk(c),
{
    0x4E00 <= (c as u32) && (c as u32) <= 0x9FFF
}

pub fn is_ascii_upper(c: char) -> (b: bool)
    ensures
        b == spec_is_ascii_upper(c),
{
    'A' <= c && c <= 'Z'
}

pub fn is_ascii_lower(c: char) -> (b: bool)
    ensures
        b == spec_is_ascii_lower(c),
{
    'a' <= c && c <= 'z'
}

pub fn is_ascii_digit(c: char) -> (b: bool)
    ensures
        b == spec_is_ascii_digit(c),
{
    '0' <= c && c <= '9'
}

pub fn is_ascii_alpha(c: char) -> (b: bool)
    ensures
        b == spec_is_ascii_alpha(c),
{
    is_ascii_upper(c) || is_ascii_lower(c)
}

pub fn is_ascii_alnum(c: char) -> (b: bool)
    ensures
        b == spec_is_ascii_alnum(c),
{
    is_ascii_alpha(c) || is_ascii_digit(c)
}

pub fn lower_char(c: char) -> (r: char)
    ensures
        r == spec_lower(c),
{
    if 'A' <= c && c <= 'Z' {
        let b: u8 = c as u8;
        (b + 32) as char
    } else {
        c
    }
}

pub fn lower_seq(s: &Vec<char>) -> (r: Vec<char>)
    ensures
        r@ == spec_lower_seq(s@),
{
    let mut r: Vec<char> = Vec::new();
    let mut i: usize = 0;
    while i < s.len()
        invariant
            i <= s.len(),
            r@ == spec_lower_seq(s@.take(i as int)),
        decreases s.len() - i,
    {
        r.push(lower_char(s[i]));
        proof {
            assert(s@.take(i + 1) == s@.take(i as int).push(s@[i as int]));
        }
        i += 1;
    }
    proof {
        assert(s@.take(s.len() as int) == s@);
    }
    r
}

pub fn contains_cjk(s: &Vec<char>) -> (b: bool)
    ensures
        b == spec_contains_cjk(s@),
{
    let mut i: usize = 0;
    while i < s.len()
        invariant
            i <= s.len(),
            forall|j: int| 0 <= j < i ==> !spec_is_cjk(#[trigger] s@[j]),
        decreases s.len() - i,
    {
        if is_cjk(s[i]) {
            return true;
        }
        i += 1;
    }
    false
}

proof fn lemma_trim_start_skip(s: Seq<char>, i: int)
    requires
        0 <= i <= s.len(),
        forall|j: int| 0 <= j < i ==> spec_is_ws(#[trigger] s[j]),
    ensures
        spec_trim_start(s) == spec_trim_start(s.skip(i)),
    decreases i,
{
    if i > 0 {
        assert(s.skip(1) == s.drop_first());
        lemma_trim_start_skip(s.drop_first(), i - 1);
        assert(s.drop_first().skip(i - 1) == s.skip(i));
    } else {
        assert(s.skip(0) == s);
    }
}

proof fn lemma_trim_end_take(s: Seq<char>, k: int)
    requires
        0 <= k <= s.len(),
        forall|j: int| k <= j < s.len() ==> spec_is_ws(#[trigger] s[j]),
    ensures
        spec_trim_end(s) == spec_trim_end(s.take(k)),
    decreases s.len() - k,
{
    if k < s.len() {
        assert(s.take(s.len() - 1) == s.drop_last());
        lemma_trim_end_take(s.drop_last(), k);
        assert(s.drop_last().take(k) == s.take(k));
    } else {
        assert(s.take(s.len() as int) == s);
    }
}

/// Index of the first character that is not whitespace (or the length).
pub fn first_non_ws(s: &Vec<char>) -> (i: usize)
    ensures
        i <= s.len(),
        forall|j: int| 0 <= j < i ==> spec_is_ws(#[trigger] s@[j]),
        i < s.len() ==> !spec_is_ws(s@[i as int]),
        spec_trim_start(s@) == s@.skip(i as int),
{
    let mut i: usize = 0;
    while i < s.len() && is_ws(s[i])
        invariant
            i <= s.len(),
            forall|j: int| 0 <= j < i ==> spec_is_ws(#[trigger] s@[j]),
        decreases s.len() - i,
    {
        i += 1;
    }
    proof {
        lemma_trim_start_skip(s@, i as int);
    }
    i
}

/// One past the last character that is not whitespace (or zero).
pub fn end_non_ws(s: &Vec<char>) -> (k: usize)
    ensures
        k <= s.len(),
        forall|j: int| k <= j < s.len() ==> spec_is_ws(#[trigger] s@[j]),
        k > 0 ==> !spec_is_ws(s@[k - 1]),
        spec_trim_end(s@) == s@.take(k as int),
{
    let mut k: usize = s.len();
    while k > 0 && is_ws(s[k - 1])
        invariant
            k <= s.len(),
            forall|j: int| k <= j < s.len() ==> spec_is_ws(#[trigger] s@[j]),
        decreases k,
    {
        k -= 1;
    }
    proof {
        lemma_trim_end_take(s@, k as int);
    }
    k
}

/// Copies `s[from..to]`.
pub fn slice_chars(s: &Vec<char>, from: usize, to: usize) -> (r: Vec<char>)
    requires
        from <= to <= s.len(),
    ensures
        r@ == s@.subrange(from as int, to as int),
{
    let mut r: Vec<char> = Vec::new();
    let mut i: usize = from;
    while i < to
        invariant
            from <= i <= to <= s.len(),
            r@ == s@.subrange(from as int, i as int),
        decreases to - i,
    {
        r.push(s[i]);
        proof {
            assert(s@.subrange(from as int, i + 1) == s@.subrange(from as int, i as int).push(
                s@[i as int],
            ));
        }
        i += 1;
    }
    r
}

pub fn trim_start(s: &Vec<char>) -> (r: Vec<char>)
    ensures
        r@ == spec_trim_start(s@),
{
    let i = first_non_ws(s);
    slice_chars(s, i, s.len())
}

pub fn trim_end(s: &Vec<char>) -> (r: Vec<char>)
    ensures
        r@ == spec_trim_end(s@),
{
    let k = end_non_ws(s);
    slice_chars(s, 0, k)
}

pub fn trim(s: &Vec<char>) -> (r: Vec<char>)
    ensures
        r@ == spec_trim(s@),
{
    let a = trim_start(s);
    trim_end(&a)
}

/// `p` occurs in `s` at position `i`.
pub fn occurs_at(s: &Vec<char>, p: &Vec<char>, i: usize) -> (b: bool)
    ensures
        b == spec_occurs_at(s@, p@, i as int),
{
    if i > s.len() || p.len() > s.len() - i {
        return false;
    }
    let mut k: usize = 0;
    while k < p.len()
        invariant
            i + p.len() <= s.len(),
            k <= p.len(),
            forall|j: int| 0 <= j < k ==> s@[i + j] == p@[j],
        decreases p.len() - k,
    {
        if s[i + k] != p[k] {
            proof {
                assert(s@.subrange(i as int, i + p.len())[k as int] != p@[k as int]);
            }
            return false;
        }
        k += 1;
    }
    proof {
        assert(s@.subrange(i as int, i + p.len()) =~= p@);
    }
    true
}

pub fn starts_with(s: &Vec<char>, p: &Vec<char>) -> (b: bool)
    ensures
        b == spec_starts_with(s@, p@),
{
    occurs_at(s, p, 0)
}

pub fn ends_with(s: &Vec<char>, p: &Vec<char>) -> (b: bool)
    ensures
        b == spec_ends_with(s@, p@),
{
    if p.len() > s.len() {
        false
    } else {
        occurs_at(s, p, s.len() - p.len())
    }
}

pub fn contains(s: &Vec<char>, p: &Vec<char>) -> (b: bool)
    ensures
        b == spec_contains(s@, p@),
{
    if p.len() > s.len() {
        proof {
            assert forall|i: int| !spec_occurs_at(s@, p@, i) by {}
        }
        return false;
    }
    let limit = s.len() - p.len();
    let mut i: usize = 0;
    while i < limit
        invariant
            p.len() <= s.len(),
            limit == s.len() - p.len(),
            i <= limit,
            forall|j: int| 0 <= j < i ==> !spec_occurs_at(s@, p@, j),
        decreases limit - i,
    {
        if occurs_at(s, p, i) {
            return true;
        }
        i += 1;
    }
    let b = occurs_at(s, p, limit);
    proof {
        if !b {
            assert forall|j: int| !spec_occurs_at(s@, p@, j) by {
                if 0 <= j && j + p@.len() <= s@.len() {
                    assert(j <= limit);
                }
            }
        }
    }
    b
}

/// Copies the characters of a string literal into a vector.
pub fn lit(s: &str) -> (v: Vec<char>)
    ensures
        v@ == s@,
{
    to_chars(s)
}

proof fn lemma_replace_skip(s: Seq<char>, from: Seq<char>, to: Seq<char>, i: int)
    requires
        0 <= i < s.len(),
        from.len() > 0,
        spec_occurs_at(s, from, i),
    ensures
        spec_replace(s.skip(i), from, to) == to + spec_replace(
            s.skip(i + from.len()),
            from,
            to,
        ),
{
    assert(s.skip(i).subrange(0, from.len() as int) == s.subrange(i, i + from.len()));
    assert(s.skip(i).skip(from.len() as int) == s.skip(i + from.len()));
}

proof fn lemma_replace_step(s: Seq<char>, from: Seq<char>, to: Seq<char>, i: int)
    requires
        0 <= i < s.len(),
        from.len() > 0,
        !spec_occurs_at(s, from, i),
    ensures
        spec_replace(s.skip(i), from, to) == seq![s[i]] + spec_replace(s.skip(i + 1), from, to),
{
    if from.len() <= s.skip(i).len() {
        assert(s.skip(i).subrange(0, from.len() as int) =~= s.subrange(i, i + from.len()));
    }
    assert(s.skip(i).drop_first() == s.skip(i + 1));
}

/// `str::replace(from, to)` for a non-empty `from`.
pub fn replace_all(s: &Vec<char>, from: &Vec<char>, to: &Vec<char>) -> (r: Vec<char>)
    requires
        from.len() > 0,
    ensures
        r@ == spec_replace(s@, from@, to@),
{
    let mut r: Vec<char> = Vec::new();
    let mut i: usize = 0;
    proof {
        assert(s@.skip(0) == s@);
    }
    while i < s.len()
        invariant
            from.len() > 0,
            i <= s.len(),
            r@ + spec_replace(s@.skip(i as int), from@, to@) == spec_replace(s@, from@, to@),
        decreases s.len() - i,
    {
        if occurs_at(s, from, i) {
            proof {
                lemma_replace_skip(s@, from@, to@, i as int);
            }
            let mut k: usize = 0;
            let ghost r0 = r@;
            while k < to.len()
                invariant
                    k <= to.len(),
                    r@ == r0 + to@.take(k as int),
                decreases to.len() - k,
            {
                r.push(to[k]);
                proof {
                    assert(to@.take(k + 1) == to@.take(k as int).push(to@[k as int]));
                }
                k += 1;
            }
            proof {
                assert(to@.take(to.len() as int) == to@);
                assert(r0 + (to@ + spec_replace(s@.skip(i + from.len()), from@, to@)) == (r0
                    + to@) + spec_replace(s@.skip(i + from.len()), from@, to@));
            }
            i = i + from.len();
        } else {
            proof {
                lemma_replace_step(s@, from@, to@, i as int);
                assert(r@ + (seq![s@[i as int]] + spec_replace(s@.skip(i + 1), from@, to@)) == r@.push(
                    s@[i as int],
                ) + spec_replace(s@.skip(i + 1), from@, to@));
            }
            r.push(s[i]);
            i += 1;
        }
    }
    proof {
        assert(s@.skip(i as int).len() == 0);
        assert(r@ + Seq::<char>::empty() == r@);
    }
    r
}


/// The views of a sequence of character vectors.
pub open spec fn views(v: Seq<Vec<char>>) -> Seq<Seq<char>> {
    v.map_values(|x: Vec<char>| x@)
}

/// Index of the first `c` at or after `start`, or the length when there is none.
pub open spec fn spec_find_from(s: Seq<char>, c: char, start: int) -> int
    decreases s.len() - start,
{
    if start >= s.len() {
        s.len() as int
    } else if s[start] == c {
        start
    } else {
        spec_find_from(s, c, start + 1)
    }
}

pub proof fn lemma_find_from_bounds(s: Seq<char>, c: char, start: int)
    requires
        0 <= start <= s.len(),
    ensures
        start <= spec_find_from(s, c, start) <= s.len(),
        spec_find_from(s, c, start) < s.len() ==> s[spec_find_from(s, c, start)] == c,
        forall|j: int| start <= j < spec_find_from(s, c, start) ==> s[j] != c,
    decreases s.len() - start,
{
    if start < s.len() && s[start] != c {
        lemma_find_from_bounds(s, c, start + 1);
    }
}

/// Drops one trailing carriage return.
pub open spec fn spec_strip_cr(s: Seq<char>) -> Seq<char> {
    if s.len() > 0 && s.last() == '\r' {
        s.drop_last()
    } else {
        s
    }
}

/// `str::lines` on the suffix of `s` that starts at `start`.
pub open spec fn spec_lines_from(s: Seq<char>, start: int) -> Seq<Seq<char>>
    decreases s.len() - start,
{
    if start < 0 || start >= s.len() {
        Seq::empty()
    } else {
        let k = spec_find_from(s, '\n', start);
        proof {
            lemma_find_from_bounds(s, '\n', start);
        }
        if k >= s.len() {
            seq![s.subrange(start, s.len() as int)]
        } else {
            seq![spec_strip_cr(s.subrange(start, k))] + spec_lines_from(s, k + 1)
        }
    }
}

/// `str::lines`: split at `\n`, drop one `\r` before each `\n`, no line after a final `\n`.
pub open spec fn spec_lines(s: Seq<char>) -> Seq<Seq<char>> {
    spec_lines_from(s, 0)
}

/// `[T]::join(sep)` for sequences of characters.
pub open spec fn spec_join(parts: Seq<Seq<char>>, sep: Seq<char>) -> Seq<char>
    decreases parts.len(),
{
    if parts.len() == 0 {
        Seq::empty()
    } else if parts.len() == 1 {
        parts[0]
    } else {
        spec_join(parts.drop_last(), sep) + sep + parts.last()
    }
}

/// `str::split(c)` on the suffix of `s` that starts at `start` (always at least one piece).
pub open spec fn spec_split_from(s: Seq<char>, c: char, start: int) -> Seq<Seq<char>>
    decreases s.len() - start,
{
    if start < 0 || start > s.len() {
        Seq::empty()
    } else {
        let k = spec_find_from(s, c, start);
        proof {
            lemma_find_from_bounds(s, c, start);
        }
        if k >= s.len() {
            seq![s.subrange(start, s.len() as int)]
        } else {
            seq![s.subrange(start, k)] + spec_split_from(s, c, k + 1)
        }
    }
}

/// `str::split(c)` for a single character.
pub open spec fn spec_split(s: Seq<char>, c: char) -> Seq<Seq<char>> {
    spec_split_from(s, c, 0)
}

/// Copies a character vector.
pub fn copy_chars(s: &Vec<char>) -> (r: Vec<char>)
    ensures
        r@ == s@,
{
    slice_chars(s, 0, s.len())
}

/// Index of the first `c` at or after `start`, or the length.
pub fn find_from(s: &Vec<char>, c: char, start: usize) -> (k: usize)
    requires
        start <= s.len(),
    ensures
        k == spec_find_from(s@, c, start as int),
        start <= k <= s.len(),
{
    proof {
        lemma_find_from_bounds(s@, c, start as int);
    }
    let mut k: usize = start;
    while k < s.len() && s[k] != c
        invariant
            start <= k <= s.len(),
            spec_find_from(s@, c, k as int) == spec_find_from(s@, c, start as int),
        decreases s.len() - k,
    {
        k += 1;
    }
    k
}

/// `str::lines`.
pub fn lines(s: &Vec<char>) -> (r: Vec<Vec<char>>)
    ensures
        views(r@) == spec_lines(s@),
{
    let mut r: Vec<Vec<char>> = Vec::new();
    let mut start: usize = 0;
    while start < s.len()
        invariant
            start <= s.len(),
            views(r@) + spec_lines_from(s@, start as int) == spec_lines(s@),
        decreases s.len() - start,
    {
        let k = find_from(s, '\n', start);
        let ghost before = views(r@);
        if k >= s.len() {
            let piece = slice_chars(s, start, s.len());
            r.push(piece);
            proof {
                assert(views(r@) == before.push(s@.subrange(start as int, s.len() as int)));
                assert(spec_lines_from(s@, s.len() as int) == Seq::<Seq<char>>::empty());
                assert(views(r@) + spec_lines_from(s@, s.len() as int) == views(r@));
            }
            start = s.len();
        } else {
            let mut e = k;
            if e > start && s[e - 1] == '\r' {
                e = e - 1;
            }
            let piece = slice_chars(s, start, e);
            proof {
                assert(piece@ == spec_strip_cr(s@.subrange(start as int, k as int)));
            }
            r.push(piece);
            proof {
                assert(views(r@) == before.push(piece@));
                assert(before + spec_lines_from(s@, start as int) == before + (seq![piece@]
                    + spec_lines_from(s@, k + 1)));
                assert(before + (seq![piece@] + spec_lines_from(s@, k + 1)) == before.push(piece@)
                    + spec_lines_from(s@, k + 1));
            }
            start = k + 1;
        }
    }
    proof {
        assert(views(r@) + Seq::<Seq<char>>::empty() == views(r@));
    }
    r
}

/// `str::split(c)` for a single character.
pub fn split_char(s: &Vec<char>, c: char) -> (r: Vec<Vec<char>>)
    ensures
        views(r@) == spec_split(s@, c),
        r.len() >= 1,
{
    let mut r: Vec<Vec<char>> = Vec::new();
    let mut start: usize = 0;
    loop
        invariant
            start <= s.len(),
            views(r@) + spec_split_from(s@, c, start as int) == spec_split(s@, c),
        decreases s.len() - start,
    {
        let k = find_from(s, c, start);
        let ghost before = views(r@);
        let piece = slice_chars(s, start, k);
        r.push(piece);
        proof {
            assert(views(r@) == before.push(piece@));
        }
        if k >= s.len() {
            proof {
                assert(before + spec_split_from(s@, c, start as int) == before.push(piece@));
            }
            return r;
        }
        proof {
            assert(before + (seq![piece@] + spec_split_from(s@, c, k + 1)) == before.push(piece@)
                + spec_split_from(s@, c, k + 1));
        }
        start = k + 1;
    }
}

/// Appends all of `src` to `dst`.
pub fn append_chars(dst: &mut Vec<char>, src: &Vec<char>)
    ensures
        final(dst)@ == old(dst)@ + src@,
{
    let mut k: usize = 0;
    while k < src.len()
        invariant
            k <= src.len(),
            dst@ == old(dst)@ + src@.take(k as int),
        decreases src.len() - k,
    {
        dst.push(src[k]);
        proof {
            assert(src@.take(k + 1) == src@.take(k as int).push(src@[k as int]));
        }
        k += 1;
    }
    proof {
        assert(src@.take(src.len() as int) == src@);
    }
}

/// `[T]::join(sep)` for character vectors.
pub fn join(parts: &Vec<Vec<char>>, sep: &Vec<char>) -> (r: Vec<char>)
    ensures
        r@ == spec_join(views(parts@), sep@),
{
    let mut r: Vec<char> = Vec::new();
    let mut i: usize = 0;
    while i < parts.len()
        invariant
            i <= parts.len(),
            r@ == spec_join(views(parts@).take(i as int), sep@),
        decreases parts.len() - i,
    {
        proof {
            assert(views(parts@).take(i + 1).drop_last() == views(parts@).take(i as int));
        }
        if i > 0 {
            append_chars(&mut r, sep);
        }
        append_chars(&mut r, &parts[i]);
        proof {
            if i == 0 {
                assert(r@ == parts@[0]@);
            }
        }
        i += 1;
    }
    proof {
        assert(views(parts@).take(parts.len() as int) == views(parts@));
    }
    r
}

pub open spec fn spec_digit(d: nat) -> char {
    ((d % 10) + 48) as char
}

/// The decimal digits of `n` (what `{}` prints for an unsigned integer).
pub open spec fn spec_decimal(n: nat) -> Seq<char>
    decreases n,
{
    if n < 10 {
        seq![spec_digit(n)]
    } else {
        spec_decimal(n / 10).push(spec_digit(n % 10))
    }
}

/// Left-pads `s` with zeros to width `w` (what `{:0w}` prints).
pub open spec fn spec_zero_pad(s: Seq<char>, w: nat) -> Seq<char> {
    if s.len() >= w {
        s
    } else {
        Seq::new((w - s.len()) as nat, |i: int| '0') + s
    }
}

fn digit_char(d: u64) -> (c: char)
    requires
        d < 10,
    ensures
        c == spec_digit(d as nat),
{
    let b: u8 = (d as u8) + 48;
    b as char
}

/// Decimal rendering of an unsigned integer.
pub fn decimal(n: u64) -> (r: Vec<char>)
    ensures
        r@ == spec_decimal(n as nat),
    decreases n,
{
    if n < 10 {
        let mut r: Vec<char> = Vec::new();
        r.push(digit_char(n));
        r
    } else {
        let mut r = decimal(n / 10);
        r.push(digit_char(n % 10));
        r
    }
}

/// Decimal rendering of a 128-bit unsigned integer.
pub fn decimal_u128(n: u128) -> (r: Vec<char>)
    ensures
        r@ == spec_decimal(n as nat),
    decreases n,
{
    if n < 10 {
        let mut r: Vec<char> = Vec::new();
        r.push(digit_char(n as u64));
        r
    } else {
        let mut r = decimal_u128(n / 10);
        r.push(digit_char((n % 10) as u64));
        r
    }
}

/// Decimal rendering left-padded with zeros to `width` characters.
pub fn decimal_padded(n: u64, width: usize) -> (r: Vec<char>)
    ensures
        r@ == spec_zero_pad(spec_decimal(n as nat), width as nat),
{
    let d = decimal(n);
    if d.len() >= width {
        return d;
    }
    let mut r: Vec<char> = Vec::new();
    let mut i: usize = 0;
    while i < width - d.len()
        invariant
            d.len() < width,
            i <= width - d.len(),
            r@ == Seq::new(i as nat, |j: int| '0'),
        decreases width - d.len() - i,
    {
        r.push('0');
        proof {
            assert(r@ =~= Seq::new((i + 1) as nat, |j: int| '0'));
        }
        i += 1;
    }
    append_chars(&mut r, &d);
    r
}

/// Value of a string of ASCII digits.
pub open spec fn spec_digits_value(s: Seq<char>) -> nat
    decreases s.len(),
{
    if s.len() == 0 {
        0
    } else {
        spec_digits_value(s.drop_last()) * 10 + ((s.last() as u32) - 48) as nat
    }
}

pub open spec fn spec_all_digits(s: Seq<char>) -> bool {
    forall|i: int| 0 <= i < s.len() ==> spec_is_ascii_digit(#[trigger] s[i])
}

/// What `u64::from_str` accepts: an optional `+` and at least one ASCII digit, nothing else.
pub open spec fn spec_parse_nat(s: Seq<char>) -> Option<nat> {
    let d = if s.len() > 0 && s[0] == '+' {
        s.drop_first()
    } else {
        s
    };
    if d.len() > 0 && spec_all_digits(d) {
        Some(spec_digits_value(d))
    } else {
        None
    }
}

/// `str::parse::<u64>()`, with the result further bounded by `max` (`u64::MAX` or `usize::MAX`).
pub fn parse_decimal(s: &Vec<char>, max: u64) -> (r: Option<u64>)
    ensures
        r == (match spec_parse_nat(s@) {
            Some(v) => if v <= max {
                Some(v as u64)
            } else {
                None::<u64>
            },
            None => None::<u64>,
        }),
{
    let start: usize = if s.len() > 0 && s[0] == '+' {
        1
    } else {
        0
    };
    let ghost d = s@.skip(start as int);
    proof {
        if start == 1 {
            assert(d == s@.drop_first());
        } else {
            assert(d == s@);
        }
    }
    if start >= s.len() {
        return None;
    }
    let mut acc: u64 = 0;
    let mut overflow = false;
    let mut i: usize = start;
    while i < s.len()
        invariant
            start <= i <= s.len(),
            d == s@.skip(start as int),
            d == (if s@.len() > 0 && s@[0] == '+' {
                s@.drop_first()
            } else {
                s@
            }),
            spec_all_digits(s@.subrange(start as int, i as int)),
            !overflow ==> acc as nat == spec_digits_value(s@.subrange(start as int, i as int))
                && acc <= max,
            overflow ==> spec_digits_value(s@.subrange(start as int, i as int)) > max,
        decreases s.len() - i,
    {
        let c = s[i];
        if !is_ascii_digit(c) {
            proof {
                assert(d[i - start] == c);
                assert(!spec_all_digits(d));
                assert(spec_parse_nat(s@) is None);
            }
            return None;
        }
        let ghost prev = s@.subrange(start as int, i as int);
        let ghost next = s@.subrange(start as int, i + 1);
        proof {
            assert(next.drop_last() == prev);
            assert(next.last() == c);
            assert(spec_all_digits(next));
        }
        let dv: u64 = (c as u32 - 48) as u64;
        if !overflow {
            let wide: u128 = (acc as u128) * 10 + (dv as u128);
            proof {
                assert(spec_digits_value(next) == acc * 10 + dv);
            }
            if wide > max as u128 {
                overflow = true;
            } else {
                acc = wide as u64;
            }
        } else {
            proof {
                assert(spec_digits_value(next) >= spec_digits_value(prev)) by (nonlinear_arith)
                    requires
                        spec_digits_value(next) == spec_digits_value(prev) * 10 + dv,
                {
                }
            }
        }
        i += 1;
    }
    proof {
        assert(s@.subrange(start as int, s.len() as int) == d);
    }
    if overflow {
        None
    } else {
        Some(acc)
    }
}


/// Equality of two character vectors.
pub fn chars_eq(a: &Vec<char>, b: &Vec<char>) -> (r: bool)
    ensures
        r == (a@ == b@),
{
    if a.len() != b.len() {
        return false;
    }
    let mut i: usize = 0;
    while i < a.len()
        invariant
            a.len() == b.len(),
            i <= a.len(),
            forall|j: int| 0 <= j < i ==> a@[j] == b@[j],
        decreases a.len() - i,
    {
        if a[i] != b[i] {
            return false;
        }
        i += 1;
    }
    proof {
        assert(a@ =~= b@);
    }
    true
}

/// `s` equals the string literal `l`.
pub fn eq_lit(s: &Vec<char>, l: &str) -> (r: bool)
    ensures
        r == (s@ == l@),
{
    let v = lit(l);
    chars_eq(s, &v)
}

/// The keyword form of a configuration value: trimmed, then ASCII-lowercased.
pub open spec fn spec_keyword(s: Seq<char>) -> Seq<char> {
    spec_lower_seq(spec_trim(s))
}

pub fn keyword(s: &str) -> (r: Vec<char>)
    ensures
        r@ == spec_keyword(s@),
{
    let c = to_chars(s);
    let t = trim(&c);
    lower_seq(&t)
}

/// A sequence with no whitespace at either end and no ASCII uppercase letter is its own
/// keyword form.
pub proof fn lemma_keyword_fixed(s: Seq<char>)
    requires
        s.len() > 0,
        !spec_is_ws(s[0]),
        !spec_is_ws(s.last()),
        forall|i: int| 0 <= i < s.len() ==> !spec_is_ascii_upper(#[trigger] s[i]),
    ensures
        spec_keyword(s) == s,
{
    assert(spec_trim_start(s) == s);
    assert(spec_trim_end(s) == s);
    assert(spec_lower_seq(s) =~= s);
}


/// Lexicographic order of character sequences by code point, which is the order `String`'s
/// `Ord` gives (UTF-8 keeps code-point order).
pub open spec fn spec_str_lt(a: Seq<char>, b: Seq<char>) -> bool
    decreases a.len(),
{
    if a.len() == 0 {
        b.len() > 0
    } else if b.len() == 0 {
        false
    } else if a[0] != b[0] {
        a[0] < b[0]
    } else {
        spec_str_lt(a.drop_first(), b.drop_first())
    }
}

pub proof fn lemma_str_lt_irreflexive(a: Seq<char>)
    ensures
        !spec_str_lt(a, a),
    decreases a.len(),
{
    if a.len() > 0 {
        lemma_str_lt_irreflexive(a.drop_first());
    }
}

pub proof fn lemma_str_lt_transitive(a: Seq<char>, b: Seq<char>, c: Seq<char>)
    requires
        spec_str_lt(a, b),
        spec_str_lt(b, c),
    ensures
        spec_str_lt(a, c),
    decreases a.len(),
{
    if a.len() > 0 && b.len() > 0 && c.len() > 0 && a[0] == b[0] && b[0] == c[0] {
        lemma_str_lt_transitive(a.drop_first(), b.drop_first(), c.drop_first());
    }
}

pub proof fn lemma_str_lt_total(a: Seq<char>, b: Seq<char>)
    requires
        a != b,
    ensures
        spec_str_lt(a, b) || spec_str_lt(b, a),
    decreases a.len(),
{
    if a.len() > 0 && b.len() > 0 && a[0] == b[0] {
        if a.drop_first() == b.drop_first() {
            assert(a =~= seq![a[0]] + a.drop_first());
            assert(b =~= seq![b[0]] + b.drop_first());
        }
        lemma_str_lt_total(a.drop_first(), b.drop_first());
    } else if a.len() == 0 && b.len() == 0 {
        assert(a =~= b);
    }
}

/// Strictly increasing in `spec_str_lt`: sorted, and no item occurs twice.
pub open spec fn spec_strictly_sorted(v: Seq<Seq<char>>) -> bool {
    forall|i: int, j: int| 0 <= i < j < v.len() ==> spec_str_lt(#[trigger] v[i], #[trigger] v[j])
}

/// `a < b` in the order of `spec_str_lt`.
pub fn str_lt(a: &Vec<char>, b: &Vec<char>) -> (r: bool)
    ensures
        r == spec_str_lt(a@, b@),
{
    let mut i: usize = 0;
    proof {
        assert(a@.skip(0) =~= a@);
        assert(b@.skip(0) =~= b@);
    }
    while i < a.len() && i < b.len()
        invariant
            i <= a.len(),
            i <= b.len(),
            spec_str_lt(a@, b@) == spec_str_lt(a@.skip(i as int), b@.skip(i as int)),
        decreases a.len() - i,
    {
        if a[i] != b[i] {
            return a[i] < b[i];
        }
        proof {
            assert(a@.skip(i as int).drop_first() =~= a@.skip(i + 1));
            assert(b@.skip(i as int).drop_first() =~= b@.skip(i + 1));
        }
        i += 1;
    }
    i == a.len() && i < b.len()
}

/// Inserts `x` into a strictly sorted list, unless it is there already.
pub fn insert_sorted_unique(v: &mut Vec<Vec<char>>, x: Vec<char>)
    requires
        spec_strictly_sorted(views(old(v)@)),
    ensures
        spec_strictly_sorted(views(final(v)@)),
        forall|y: Seq<char>| #[trigger]
            views(final(v)@).contains(y) <==> (views(old(v)@).contains(y) || y == x@),
{
    let ghost old_v = views(v@);
    let mut p: usize = 0;
    while p < v.len() && str_lt(&v[p], &x)
        invariant
            p <= v.len(),
            views(v@) == old_v,
            forall|i: int| 0 <= i < p ==> spec_str_lt(#[trigger] old_v[i], x@),
        decreases v.len() - p,
    {
        p += 1;
    }
    if p < v.len() && chars_eq(&v[p], &x) {
        proof {
            assert forall|y: Seq<char>| #[trigger] views(v@).contains(y) <==> (old_v.contains(y)
                || y == x@) by {
                if y == x@ {
                    assert(views(v@)[p as int] == y);
                }
            }
        }
        return;
    }
    proof {
        if p < v.len() {
            lemma_str_lt_total(old_v[p as int], x@);
        }
    }
    v.insert(p, x);
    let ghost nv = views(v@);
    proof {
        assert(nv =~= old_v.insert(p as int, x@));
        assert forall|i: int, j: int| 0 <= i < j < nv.len() implies spec_str_lt(
            #[trigger] nv[i],
            #[trigger] nv[j],
        ) by {
            if j < p {
                assert(spec_str_lt(old_v[i], old_v[j]));
            } else if j == p {
                assert(spec_str_lt(old_v[i], x@));
            } else if i == p {
                if j - 1 > p {
                    assert(spec_str_lt(old_v[p as int], old_v[j - 1]));
                    lemma_str_lt_transitive(x@, old_v[p as int], old_v[j - 1]);
                }
            } else if i < p {
                assert(spec_str_lt(old_v[i], old_v[j - 1]));
            } else {
                assert(spec_str_lt(old_v[i - 1], old_v[j - 1]));
            }
        }
        assert forall|y: Seq<char>| #[trigger] nv.contains(y) <==> (old_v.contains(y) || y
            == x@) by {
            if nv.contains(y) {
                let k = choose|k: int| 0 <= k < nv.len() && nv[k] == y;
                if k < p {
                    assert(old_v[k] == y);
                } else if k > p {
                    assert(old_v[k - 1] == y);
                }
            }
            if old_v.contains(y) {
                let k = choose|k: int| 0 <= k < old_v.len() && old_v[k] == y;
                if k < p {
                    assert(nv[k] == y);
                } else {
                    assert(nv[k + 1] == y);
                }
            }
            if y == x@ {
                assert(nv[p as int] == y);
            }
        }
    }
}

/// Two strictly sorted sequences with the same items are equal.
pub proof fn lemma_sorted_unique(a: Seq<Seq<char>>, b: Seq<Seq<char>>)
    requires
        spec_strictly_sorted(a),
        spec_strictly_sorted(b),
        forall|y: Seq<char>| a.contains(y) <==> b.contains(y),
    ensures
        a == b,
    decreases a.len(),
{
    if a.len() == 0 {
        if b.len() > 0 {
            assert(b.contains(b[0]));
        }
        assert(a =~= b);
    } else {
        assert(a.contains(a[0]));
        assert(b.len() > 0);
        assert(b.contains(b[0]));
        if a[0] != b[0] {
            let k = choose|k: int| 0 <= k < b.len() && b[k] == a[0];
            let m = choose|m: int| 0 <= m < a.len() && a[m] == b[0];
            assert(spec_str_lt(b[0], a[0]));
            assert(spec_str_lt(a[0], b[0]));
            lemma_str_lt_transitive(a[0], b[0], a[0]);
            lemma_str_lt_irreflexive(a[0]);
        }
        let ta = a.drop_first();
        let tb = b.drop_first();
        assert forall|y: Seq<char>| ta.contains(y) <==> tb.contains(y) by {
            if ta.contains(y) {
                let k = choose|k: int| 0 <= k < ta.len() && ta[k] == y;
                assert(a[k + 1] == y);
                assert(spec_str_lt(a[0], y));
                assert(b.contains(y));
                let m = choose|m: int| 0 <= m < b.len() && b[m] == y;
                if m == 0 {
                    lemma_str_lt_irreflexive(y);
                }
                assert(tb[m - 1] == y);
            }
            if tb.contains(y) {
                let k = choose|k: int| 0 <= k < tb.len() && tb[k] == y;
                assert(b[k + 1] == y);
                assert(spec_str_lt(b[0], y));
                assert(a.contains(y));
                let m = choose|m: int| 0 <= m < a.len() && a[m] == y;
                if m == 0 {
                    lemma_str_lt_irreflexive(y);
                }
                assert(ta[m - 1] == y);
            }
        }
        lemma_sorted_unique(ta, tb);
        assert(a =~= seq![a[0]] + ta);
        assert(b =~= seq![b[0]] + tb);
    }
}

/// A non-empty text has at least one line.
pub proof fn lemma_lines_nonempty(s: Seq<char>)
    requires
        s.len() > 0,
    ensures
        spec_lines(s).len() > 0,
{
    lemma_find_from_bounds(s, '\n', 0);
}
/// The character sequences of a list of strings.
pub open spec fn string_views(v: Seq<String>) -> Seq<Seq<char>> {
    v.map_values(|s: String| s@)
}

/// Whether `s` is one of `v`.
pub fn contains_string(v: &Vec<String>, s: &String) -> (b: bool)
    ensures
        b == string_views(v@).contains(s@),
{
    let mut i: usize = 0;
    while i < v.len()
        invariant
            i <= v.len(),
            forall|j: int| 0 <= j < i ==> v@[j]@ != s@,
        decreases v.len() - i,
    {
        if v[i] == *s {
            proof {
                assert(string_views(v@)[i as int] == s@);
            }
            return true;
        }
        i += 1;
    }
    proof {
        if string_views(v@).contains(s@) {
            let j = choose|j: int| 0 <= j < string_views(v@).len() && string_views(v@)[j] == s@;
            assert(v@[j]@ == s@);
        }
    }
    false
}

/// Turns a list of character vectors into strings.
pub fn to_strings(v: &Vec<Vec<char>>) -> (r: Vec<String>)
    ensures
        string_views(r@) == views(v@),
{
    let mut r: Vec<String> = Vec::new();
    let mut i: usize = 0;
    while i < v.len()
        invariant
            i <= v.len(),
            r.len() == i,
            forall|j: int| 0 <= j < i ==> #[trigger] r@[j]@ == v@[j]@,
        decreases v.len() - i,
    {
        r.push(string_from_chars(v[i].as_slice()));
        i += 1;
    }
    proof {
        assert(string_views(r@) =~= views(v@));
    }
    r
}


/// A visible ASCII character (`char::is_ascii_graphic`) or a space.
pub fn is_ascii_graphic_or_space(c: char) -> (b: bool)
    ensures
        b == (('!' <= c && c <= '~') || c == ' '),
{
    ('!' <= c && c <= '~') || c == ' '
}

/// Appends the characters of a string literal as a new item.
pub fn push_lit(r: &mut Vec<Vec<char>>, s: &str)
    ensures
        views(final(r)@) == views(old(r)@).push(s@),
{
    let ghost before = r@;
    r.push(lit(s));
    proof {
        assert(views(r@) =~= views(before).push(s@));
    }
}

/// Appends copies of all of `src` to `dst`.
pub fn append_lines(dst: &mut Vec<Vec<char>>, src: &Vec<Vec<char>>)
    ensures
        views(final(dst)@) == views(old(dst)@) + views(src@),
{
    let ghost start = views(dst@);
    let mut k: usize = 0;
    while k < src.len()
        invariant
            k <= src.len(),
            start == views(old(dst)@),
            views(dst@) == start + views(src@).take(k as int),
        decreases src.len() - k,
    {
        let ghost pre = dst@;
        dst.push(copy_chars(&src[k]));
        proof {
            assert(views(dst@) =~= views(pre).push(src@[k as int]@));
            assert(views(src@).take(k + 1) =~= views(src@).take(k as int).push(src@[k as int]@));
        }
        k += 1;
    }
    proof {
        assert(views(src@).take(src@.len() as int) =~= views(src@));
    }
}
} // verus!
