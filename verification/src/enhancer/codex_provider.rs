//! The Codex (direct GPT API) enhancement provider: settings validation, the retry policy,
//! error messages and the clean-up of the model's answer.
use vstd::prelude::*;

use crate::json::{
    chat_messages, json_str, spec_is_chat, spec_is_number, spec_is_str, spec_text_parts, text_parts,
    JsonValue,
};
use crate::text::{
    append_chars, contains_cjk, copy_chars, decimal, ends_with, is_ws, join, keyword, lines,
    lit, lower_seq, replace_all, slice_chars, spec_contains, spec_contains_cjk, spec_decimal,
    spec_is_ws, spec_join, spec_keyword, spec_lines, spec_lower_seq, spec_replace,
    spec_starts_with, spec_trim, spec_trim_start, starts_with, string_from_chars, to_chars, trim,
    trim_start, views, contains, eq_lit, parse_decimal, spec_parse_nat,
};

verus! {

/// Attempts made for one enhancement request.
pub const MAX_RETRY_ATTEMPTS: usize = 3;

/// `\r\n` and lone `\r` turned into `\n`.
pub open spec fn spec_normalize_newlines(s: Seq<char>) -> Seq<char> {
    spec_replace(spec_replace(s, "\r\n"@, "\n"@), "\r"@, "\n"@)
}

fn normalize_newlines(s: &Vec<char>) -> (r: Vec<char>)
    ensures
        r@ == spec_normalize_newlines(s@),
{
    let crlf = lit("\r\n");
    let cr = lit("\r");
    let lf = lit("\n");
    proof {
        reveal_strlit("\r\n");
        reveal_strlit("\r");
    }
    let a = replace_all(s, &crlf, &lf);
    replace_all(&a, &cr, &lf)
}

/// Characters that decorate a line of chatter (`*`, `#`, `-`, space, tab).
pub open spec fn spec_is_decoration(c: char) -> bool {
    c == '*' || c == '#' || c == '-' || c == ' ' || c == '\t'
}

/// The line without decoration characters at either end.
pub open spec fn spec_strip_decoration(s: Seq<char>) -> Seq<char>
    decreases s.len(),
{
    if s.len() > 0 && spec_is_decoration(s[0]) {
        spec_strip_decoration(s.drop_first())
    } else if s.len() > 0 && spec_is_decoration(s.last()) {
        spec_strip_decoration(s.drop_last())
    } else {
        s
    }
}

/// English phrases that open a line of chatter (matched ASCII-case-insensitively).
pub open spec fn spec_en_chatter_markers() -> Seq<Seq<char>> {
    seq![
        "here is"@,
        "here's"@,
        "i have"@,
        "enhanced prompt"@,
        "optimized prompt"@,
        "prompt enhancement"@,
    ]
}

/// Chinese phrases that open a line of chatter.
pub open spec fn spec_zh_chatter_markers() -> Seq<Seq<char>> {
    seq![
        "下面是"@,
        "以下是"@,
        "这里是"@,
        "我已"@,
        "我已经"@,
        "已为你"@,
        "增强后的提示词"@,
        "优化后的提示词"@,
        "已触发"@,
    ]
}

/// A line in which the model talks about its answer rather than giving it.
pub open spec fn spec_looks_like_chatter(line: Seq<char>) -> bool {
    let t = spec_strip_decoration(line);
    t.len() > 0 && ((exists|i: int|
        0 <= i < spec_en_chatter_markers().len() && spec_contains(
            spec_lower_seq(t),
            #[trigger] spec_en_chatter_markers()[i],
        )) || (exists|i: int|
        0 <= i < spec_zh_chatter_markers().len() && spec_contains(
            t,
            #[trigger] spec_zh_chatter_markers()[i],
        )))
}

fn is_decoration(c: char) -> (b: bool)
    ensures
        b == spec_is_decoration(c),
{
    c == '*' || c == '#' || c == '-' || c == ' ' || c == '\t'
}

fn strip_decoration(s: &Vec<char>) -> (r: Vec<char>)
    ensures
        r@ == spec_strip_decoration(s@),
{
    let mut a: usize = 0;
    let mut b: usize = s.len();
    proof {
        assert(s@.subrange(0, s@.len() as int) =~= s@);
    }
    while a < b && is_decoration(s[a])
        invariant
            a <= b <= s.len(),
            b == s.len(),
            spec_strip_decoration(s@) == spec_strip_decoration(s@.subrange(a as int, b as int)),
        decreases b - a,
    {
        proof {
            assert(s@.subrange(a as int, b as int).drop_first() =~= s@.subrange(a + 1, b as int));
        }
        a += 1;
    }
    while a < b && is_decoration(s[b - 1])
        invariant
            a <= b <= s.len(),
            spec_strip_decoration(s@) == spec_strip_decoration(s@.subrange(a as int, b as int)),
            a < b ==> !spec_is_decoration(s@[a as int]),
        decreases b - a,
    {
        proof {
            let sub = s@.subrange(a as int, b as int);
            assert(sub.drop_last() =~= s@.subrange(a as int, b - 1));
            assert(!spec_is_decoration(sub[0]));
        }
        b -= 1;
    }
    slice_chars(s, a, b)
}

fn contains_any(s: &Vec<char>, markers: &Vec<Vec<char>>) -> (b: bool)
    ensures
        b == exists|i: int| 0 <= i < markers.len() && spec_contains(s@, #[trigger] views(markers@)[i]),
{
    let mut i: usize = 0;
    while i < markers.len()
        invariant
            i <= markers.len(),
            forall|j: int| 0 <= j < i ==> !spec_contains(s@, #[trigger] views(markers@)[j]),
        decreases markers.len() - i,
    {
        if contains(s, &markers[i]) {
            proof {
                assert(views(markers@)[i as int] == markers@[i as int]@);
            }
            return true;
        }
        i += 1;
    }
    false
}

/// Whether a (trimmed) line is the model's chatter about its answer.
pub fn looks_like_leading_chatter(line: &str) -> (b: bool)
    ensures
        b == spec_looks_like_chatter(line@),
{
    let c = to_chars(line);
    let t = strip_decoration(&c);
    if t.len() == 0 {
        return false;
    }
    let lower = lower_seq(&t);
    let mut en: Vec<Vec<char>> = Vec::new();
    en.push(lit("here is"));
    en.push(lit("here's"));
    en.push(lit("i have"));
    en.push(lit("enhanced prompt"));
    en.push(lit("optimized prompt"));
    en.push(lit("prompt enhancement"));
    proof {
        assert(views(en@) =~= spec_en_chatter_markers());
    }
    if contains_any(&lower, &en) {
        return true;
    }
    let mut zh: Vec<Vec<char>> = Vec::new();
    zh.push(lit("下面是"));
    zh.push(lit("以下是"));
    zh.push(lit("这里是"));
    zh.push(lit("我已"));
    zh.push(lit("我已经"));
    zh.push(lit("已为你"));
    zh.push(lit("增强后的提示词"));
    zh.push(lit("优化后的提示词"));
    zh.push(lit("已触发"));
    proof {
        assert(views(zh@) =~= spec_zh_chatter_markers());
    }
    contains_any(&t, &zh)
}


/// Leading lines that are blank or chatter dropped, as long as more than one line is left.
pub open spec fn spec_drop_chatter(ls: Seq<Seq<char>>) -> Seq<Seq<char>>
    decreases ls.len(),
{
    if ls.len() > 1 && (spec_trim(ls[0]).len() == 0 || spec_looks_like_chatter(spec_trim(ls[0]))) {
        spec_drop_chatter(ls.drop_first())
    } else {
        ls
    }
}

/// The text without the model's opening chatter lines, trimmed.
pub open spec fn spec_strip_leading_chatter(text: Seq<char>) -> Seq<char> {
    spec_trim(spec_join(spec_drop_chatter(spec_lines(spec_normalize_newlines(text))), "\n"@))
}

fn chatter_chars(line: &Vec<char>) -> (b: bool)
    ensures
        b == spec_looks_like_chatter(line@),
{
    let s = string_from_chars(line.as_slice());
    looks_like_leading_chatter(s.as_str())
}

fn chatter_prefix_len(ls: &Vec<Vec<char>>) -> (k: usize)
    ensures
        k <= ls.len(),
        spec_drop_chatter(views(ls@)) == views(ls@).skip(k as int),
{
    let ghost lv = views(ls@);
    let mut k: usize = 0;
    proof {
        assert(lv.skip(0) =~= lv);
    }
    while k < ls.len() && ls.len() - k > 1
        invariant
            k <= ls.len(),
            lv == views(ls@),
            spec_drop_chatter(lv) == spec_drop_chatter(lv.skip(k as int)),
        decreases ls.len() - k,
    {
        let first = trim(&ls[k]);
        let ghost rest = lv.skip(k as int);
        proof {
            assert(rest[0] == ls@[k as int]@);
            assert(rest.drop_first() =~= lv.skip(k + 1));
        }
        if first.len() > 0 && !chatter_chars(&first) {
            return k;
        }
        k += 1;
    }
    k
}

fn lines_from(ls: &Vec<Vec<char>>, k: usize) -> (r: Vec<Vec<char>>)
    requires
        k <= ls.len(),
    ensures
        views(r@) == views(ls@).skip(k as int),
{
    let ghost lv = views(ls@);
    let mut rest: Vec<Vec<char>> = Vec::new();
    let mut i: usize = k;
    while i < ls.len()
        invariant
            k <= i <= ls.len(),
            lv == views(ls@),
            views(rest@) == lv.subrange(k as int, i as int),
        decreases ls.len() - i,
    {
        let ghost pre = rest@;
        rest.push(copy_chars(&ls[i]));
        proof {
            assert(views(rest@) =~= views(pre).push(ls@[i as int]@));
            assert(views(rest@) =~= lv.subrange(k as int, i + 1));
        }
        i += 1;
    }
    proof {
        assert(lv.subrange(k as int, ls.len() as int) =~= lv.skip(k as int));
    }
    rest
}

fn strip_chatter_chars(text: &Vec<char>) -> (r: Vec<char>)
    ensures
        r@ == spec_strip_leading_chatter(text@),
{
    let normalized = normalize_newlines(text);
    let ls = lines(&normalized);
    let k = chatter_prefix_len(&ls);
    let rest = lines_from(&ls, k);
    let nl = lit("\n");
    let joined = join(&rest, &nl);
    trim(&joined)
}

/// Drops the model's opening chatter lines ("here is the enhanced prompt:", "下面是…"), unless
/// only one line is left, and trims the rest.
pub fn strip_leading_chatter_line(text: &str) -> (r: String)
    ensures
        r@ == spec_strip_leading_chatter(text@),
{
    let c = to_chars(text);
    let r = strip_chatter_chars(&c);
    string_from_chars(r.as_slice())
}

/// The text produced so far by collapsing the first `k` lines: a non-blank line is kept with
/// a newline after it, and each run of blank lines becomes one newline.
pub open spec fn spec_collapse_from(ls: Seq<Seq<char>>, k: int) -> Seq<char>
    decreases k,
{
    if k <= 0 {
        Seq::empty()
    } else if spec_trim(ls[k - 1]).len() == 0 {
        if k >= 2 && spec_trim(ls[k - 2]).len() == 0 {
            spec_collapse_from(ls, k - 1)
        } else {
            spec_collapse_from(ls, k - 1).push('\n')
        }
    } else {
        spec_collapse_from(ls, k - 1) + ls[k - 1] + seq!['\n']
    }
}

pub open spec fn spec_collapse_blank_lines(text: Seq<char>) -> Seq<char> {
    let ls = spec_lines(text);
    spec_collapse_from(ls, ls.len() as int)
}

proof fn lemma_collapse_ends_newline(ls: Seq<Seq<char>>, k: int)
    ensures
        spec_collapse_from(ls, k).len() == 0 || spec_collapse_from(ls, k).last() == '\n',
    decreases k,
{
    if k > 0 {
        lemma_collapse_ends_newline(ls, k - 1);
    }
}

fn collapse_chars(text: &Vec<char>) -> (r: Vec<char>)
    ensures
        r@ == spec_collapse_blank_lines(text@),
{
    let ls = lines(text);
    let ghost lv = views(ls@);
    let mut result: Vec<char> = Vec::new();
    let mut blank_run: usize = 0;
    let mut i: usize = 0;
    while i < ls.len()
        invariant
            i <= ls.len(),
            lv == views(ls@),
            blank_run <= i,
            result@ == spec_collapse_from(lv, i as int),
            (blank_run > 0) == (i > 0 && spec_trim(lv[i - 1]).len() == 0),
        decreases ls.len() - i,
    {
        let line = &ls[i];
        let t = trim(line);
        if t.len() == 0 {
            blank_run += 1;
            if blank_run <= 1 {
                result.push('\n');
            }
        } else {
            proof {
                lemma_collapse_ends_newline(lv, i as int);
            }
            if result.len() > 0 && result[result.len() - 1] != '\n' {
                result.push('\n');
            }
            append_chars(&mut result, line);
            result.push('\n');
            blank_run = 0;
        }
        proof {
            assert(result@ =~= spec_collapse_from(lv, i + 1));
        }
        i += 1;
    }
    result
}

/// Keeps each non-blank line followed by a newline and turns every run of blank lines into a
/// single empty line.
pub fn collapse_blank_lines(text: &mut String)
    ensures
        final(text)@ == spec_collapse_blank_lines(old(text)@),
{
    let c = to_chars(text.as_str());
    let r = collapse_chars(&c);
    *text = string_from_chars(r.as_slice());
}

/// How many of the first `k` lines are not blank.
pub open spec fn spec_count_nonblank(ls: Seq<Seq<char>>, k: int) -> nat
    decreases k,
{
    if k <= 0 {
        0
    } else {
        spec_count_nonblank(ls, k - 1) + if spec_trim(ls[k - 1]).len() > 0 {
            1nat
        } else {
            0nat
        }
    }
}

/// A line break after every sentence end: full-width `。！？；` in CJK text, else `. ! ? ;`
/// followed by a space.
pub open spec fn spec_break_sentences(s: Seq<char>) -> Seq<char> {
    if spec_contains_cjk(s) {
        spec_replace(
            spec_replace(spec_replace(spec_replace(s, "。"@, "。\n"@), "！"@, "！\n"@), "？"@, "？\n"@),
            "；"@,
            "；\n"@,
        )
    } else {
        spec_replace(
            spec_replace(spec_replace(spec_replace(s, ". "@, ".\n"@), "! "@, "!\n"@), "? "@, "?\n"@),
            "; "@,
            ";\n"@,
        )
    }
}

/// Text that already has three non-blank lines, or fewer than 80 characters, is only trimmed;
/// a longer paragraph gets a line break after each sentence, blank runs collapsed.
pub open spec fn spec_readability_layout(text: Seq<char>) -> Seq<char> {
    let n = spec_normalize_newlines(text);
    let ls = spec_lines(n);
    if spec_count_nonblank(ls, ls.len() as int) >= 3 || n.len() < 80 {
        spec_trim(n)
    } else {
        spec_trim(spec_collapse_blank_lines(spec_break_sentences(n)))
    }
}

fn replace_lit(s: &Vec<char>, from: &str, to: &str) -> (r: Vec<char>)
    requires
        from@.len() > 0,
    ensures
        r@ == spec_replace(s@, from@, to@),
{
    let f = lit(from);
    let t = lit(to);
    replace_all(s, &f, &t)
}

fn layout_chars(text: &Vec<char>) -> (r: Vec<char>)
    ensures
        r@ == spec_readability_layout(text@),
{
    let n = normalize_newlines(text);
    let ls = lines(&n);
    let ghost lv = views(ls@);
    let mut count: usize = 0;
    let mut i: usize = 0;
    while i < ls.len()
        invariant
            i <= ls.len(),
            lv == views(ls@),
            count == spec_count_nonblank(lv, i as int),
            count <= i,
        decreases ls.len() - i,
    {
        let t = trim(&ls[i]);
        if t.len() > 0 {
            count += 1;
        }
        i += 1;
    }
    if count >= 3 || n.len() < 80 {
        return trim(&n);
    }
    proof {
        reveal_strlit("。");
        reveal_strlit("！");
        reveal_strlit("？");
        reveal_strlit("；");
        reveal_strlit(". ");
        reveal_strlit("! ");
        reveal_strlit("? ");
        reveal_strlit("; ");
    }
    let candidate = if contains_cjk(&n) {
        let a = replace_lit(&n, "。", "。\n");
        let b = replace_lit(&a, "！", "！\n");
        let c = replace_lit(&b, "？", "？\n");
        replace_lit(&c, "；", "；\n")
    } else {
        let a = replace_lit(&n, ". ", ".\n");
        let b = replace_lit(&a, "! ", "!\n");
        let c = replace_lit(&b, "? ", "?\n");
        replace_lit(&c, "; ", ";\n")
    };
    let collapsed = collapse_chars(&candidate);
    trim(&collapsed)
}

/// Breaks a long single paragraph into one sentence per line (see
/// `spec_readability_layout`).
pub fn improve_readability_layout(text: &str) -> (r: String)
    ensures
        r@ == spec_readability_layout(text@),
{
    let c = to_chars(text);
    let r = layout_chars(&c);
    string_from_chars(r.as_slice())
}

/// Leading byte-order marks removed.
pub open spec fn spec_strip_bom(s: Seq<char>) -> Seq<char>
    decreases s.len(),
{
    if s.len() > 0 && s[0] == '\u{feff}' {
        spec_strip_bom(s.drop_first())
    } else {
        s
    }
}

/// The lines of a fenced block's body: up to, not including, the closing fence.
pub open spec fn spec_fence_body(ls: Seq<Seq<char>>) -> Seq<Seq<char>>
    decreases ls.len(),
{
    if ls.len() == 0 || spec_starts_with(spec_trim_start(ls[0]), "```"@) {
        Seq::empty()
    } else {
        seq![ls[0]] + spec_fence_body(ls.drop_first())
    }
}

/// Prefixes the model sometimes puts before the prompt.
pub open spec fn spec_output_labels() -> Seq<Seq<char>> {
    seq![
        "增强后的提示词："@,
        "增强提示词："@,
        "优化后的提示词："@,
        "enhanced prompt:"@,
        "enhanced prompt："@,
        "prompt:"@,
    ]
}

/// The first label (from index `i` on) that `v` starts with, ignoring ASCII case, removed and
/// the rest trimmed; `v` itself when none matches.
pub open spec fn spec_strip_label_from(v: Seq<char>, i: int) -> Seq<char>
    decreases spec_output_labels().len() - i,
{
    if i < 0 || i >= spec_output_labels().len() {
        v
    } else if spec_starts_with(spec_lower_seq(v), spec_lower_seq(spec_output_labels()[i])) {
        spec_trim(v.skip(spec_output_labels()[i].len() as int))
    } else {
        spec_strip_label_from(v, i + 1)
    }
}

proof fn lemma_output_labels_revealed()
    ensures
        spec_output_labels()[0] == seq!['增', '强', '后', '的', '提', '示', '词', '：'],
        spec_output_labels()[1] == seq!['增', '强', '提', '示', '词', '：'],
        spec_output_labels()[2] == seq!['优', '化', '后', '的', '提', '示', '词', '：'],
        spec_output_labels()[3] == seq![
            'e', 'n', 'h', 'a', 'n', 'c', 'e', 'd', ' ', 'p', 'r', 'o', 'm', 'p', 't', ':',
        ],
        spec_output_labels()[4] == seq![
            'e', 'n', 'h', 'a', 'n', 'c', 'e', 'd', ' ', 'p', 'r', 'o', 'm', 'p', 't', '：',
        ],
        spec_output_labels()[5] == seq!['p', 'r', 'o', 'm', 'p', 't', ':'],
{
    reveal_strlit("增强后的提示词：");
    reveal_strlit("增强提示词：");
    reveal_strlit("优化后的提示词：");
    reveal_strlit("enhanced prompt:");
    reveal_strlit("enhanced prompt：");
    reveal_strlit("prompt:");
    assert(spec_output_labels()[0] =~= seq!['增', '强', '后', '的', '提', '示', '词', '：']);
    assert(spec_output_labels()[1] =~= seq!['增', '强', '提', '示', '词', '：']);
    assert(spec_output_labels()[2] =~= seq!['优', '化', '后', '的', '提', '示', '词', '：']);
    assert(spec_output_labels()[3] =~= seq![
        'e', 'n', 'h', 'a', 'n', 'c', 'e', 'd', ' ', 'p', 'r', 'o', 'm', 'p', 't', ':',
    ]);
    assert(spec_output_labels()[4] =~= seq![
        'e', 'n', 'h', 'a', 'n', 'c', 'e', 'd', ' ', 'p', 'r', 'o', 'm', 'p', 't', '：',
    ]);
    assert(spec_output_labels()[5] =~= seq!['p', 'r', 'o', 'm', 'p', 't', ':']);
}

/// No label starts, ignoring ASCII case, with an earlier one: two labels differ, ignoring case,
/// at a position both have.
proof fn lemma_labels_differ(j: int, i: int)
    requires
        0 <= j < i < spec_output_labels().len(),
    ensures
        exists|p: int|
            0 <= p < spec_output_labels()[j].len() && p < spec_output_labels()[i].len()
                && spec_lower_seq(spec_output_labels()[j])[p] != #[trigger] spec_lower_seq(
                spec_output_labels()[i],
            )[p],
{
    lemma_output_labels_revealed();
    let lj = spec_lower_seq(spec_output_labels()[j]);
    let li = spec_lower_seq(spec_output_labels()[i]);
    if j == 0 && i == 1 {
        assert(lj[2] != li[2]);
    } else if j == 3 && i == 4 {
        assert(lj[15] != li[15]);
    } else {
        assert(lj[0] != li[0]);
    }
}

/// The label step removes an output label written in any ASCII case: a text that starts with
/// `x`, equal to label `i` ignoring ASCII case, loses it and is trimmed.
pub proof fn law_label_removed_in_any_case(i: int, x: Seq<char>, s: Seq<char>)
    requires
        0 <= i < spec_output_labels().len(),
        x.len() == spec_output_labels()[i].len(),
        spec_lower_seq(x) == spec_lower_seq(spec_output_labels()[i]),
    ensures
        spec_strip_label_from(x + s, 0) == spec_trim(s),
{
    let v = x + s;
    let lv = spec_lower_seq(v);
    assert(lv =~= spec_lower_seq(x) + spec_lower_seq(s));
    assert forall|j: int| 0 <= j < i implies !spec_starts_with(
        lv,
        spec_lower_seq(#[trigger] spec_output_labels()[j]),
    ) by {
        lemma_labels_differ(j, i);
        let p = choose|p: int|
            0 <= p < spec_output_labels()[j].len() && p < spec_output_labels()[i].len()
                && spec_lower_seq(spec_output_labels()[j])[p] != #[trigger] spec_lower_seq(
                spec_output_labels()[i],
            )[p];
        assert(lv[p] == spec_lower_seq(x)[p]);
        if spec_starts_with(lv, spec_lower_seq(spec_output_labels()[j])) {
            assert(lv.subrange(0, spec_output_labels()[j].len() as int)[p] == lv[p]);
        }
    }
    assert(lv.subrange(0, x.len() as int) =~= spec_lower_seq(spec_output_labels()[i]));
    assert(spec_starts_with(lv, spec_lower_seq(spec_output_labels()[i])));
    assert(v.skip(x.len() as int) =~= s);
    lemma_strip_label_upto(v, i);
}

/// When no label before `i` matches, looking from 0 is looking from `i`.
proof fn lemma_strip_label_upto(v: Seq<char>, i: int)
    requires
        0 <= i < spec_output_labels().len(),
        forall|j: int|
            0 <= j < i ==> !spec_starts_with(
                spec_lower_seq(v),
                spec_lower_seq(#[trigger] spec_output_labels()[j]),
            ),
    ensures
        spec_strip_label_from(v, 0) == spec_strip_label_from(v, i),
    decreases i,
{
    if i > 0 {
        lemma_strip_label_upto(v, i - 1);
        assert(!spec_starts_with(spec_lower_seq(v), spec_lower_seq(spec_output_labels()[i - 1])));
    }
}

/// What is left of the model's answer after cleaning: byte-order marks and surrounding
/// whitespace go, a fenced code block is unwrapped, a leading label and chatter lines are
/// removed, and a long paragraph is laid out one sentence per line.
pub open spec fn spec_clean_codex_output(text: Seq<char>) -> Seq<char> {
    let v1 = spec_trim(spec_strip_bom(text));
    let v2 = if spec_starts_with(v1, "```"@) {
        spec_trim(spec_join(spec_fence_body(spec_lines(v1).drop_first()), "\n"@))
    } else {
        v1
    };
    let v3 = spec_strip_label_from(v2, 0);
    spec_readability_layout(spec_strip_leading_chatter(v3))
}

/// Cleaning an answer that starts with an output label in any ASCII case removes the label:
/// for `x` equal to a label ignoring ASCII case, and `s` not ending in whitespace, cleaning
/// `x + s` is laying out, without leading chatter, the trimmed `s`.
pub proof fn law_clean_removes_label_in_any_case(i: int, x: Seq<char>, s: Seq<char>)
    requires
        0 <= i < spec_output_labels().len(),
        x.len() == spec_output_labels()[i].len(),
        spec_lower_seq(x) == spec_lower_seq(spec_output_labels()[i]),
        s.len() == 0 || !spec_is_ws(s.last()),
    ensures
        spec_clean_codex_output(x + s) == spec_readability_layout(
            spec_strip_leading_chatter(spec_trim(s)),
        ),
{
    lemma_output_labels_revealed();
    let v = x + s;
    let l = spec_output_labels()[i];
    assert(spec_lower_seq(x)[0] == l[0]);
    assert(spec_lower_seq(x)[x.len() - 1] == l[x.len() - 1]);
    assert(v[0] == x[0]);
    assert(!spec_is_ws(v[0]) && v[0] != '\u{feff}' && v[0] != '`');
    assert(!spec_is_ws(v.last())) by {
        if s.len() == 0 {
            assert(v.last() == x[x.len() - 1]);
        } else {
            assert(v.last() == s.last());
        }
    }
    assert(spec_strip_bom(v) == v);
    assert(spec_trim_start(v) == v);
    assert(crate::text::spec_trim_end(v) == v);
    assert(spec_trim(v) == v);
    reveal_strlit("```");
    assert(!spec_starts_with(v, "```"@)) by {
        if spec_starts_with(v, "```"@) {
            assert(v.subrange(0, 3)[0] == v[0]);
        }
    }
    law_label_removed_in_any_case(i, x, s);
}

fn strip_bom(s: &Vec<char>) -> (r: Vec<char>)
    ensures
        r@ == spec_strip_bom(s@),
{
    let mut a: usize = 0;
    proof {
        assert(s@.skip(0) =~= s@);
    }
    while a < s.len() && s[a] == '\u{feff}'
        invariant
            a <= s.len(),
            spec_strip_bom(s@) == spec_strip_bom(s@.skip(a as int)),
        decreases s.len() - a,
    {
        proof {
            assert(s@.skip(a as int).drop_first() =~= s@.skip(a + 1));
        }
        a += 1;
    }
    proof {
        assert(s@.subrange(a as int, s@.len() as int) =~= s@.skip(a as int));
    }
    slice_chars(s, a, s.len())
}

fn fence_body(ls: &Vec<Vec<char>>) -> (r: Vec<Vec<char>>)
    requires
        ls.len() > 0,
    ensures
        views(r@) == spec_fence_body(views(ls@).drop_first()),
{
    let ghost lv = views(ls@);
    let fence = lit("```");
    let mut body: Vec<Vec<char>> = Vec::new();
    let mut i: usize = 1;
    proof {
        assert(lv.drop_first() =~= lv.skip(1));
    }
    while i < ls.len()
        invariant
            1 <= i <= ls.len(),
            lv == views(ls@),
            fence@ == "```"@,
            spec_fence_body(lv.drop_first()) == views(body@) + spec_fence_body(lv.skip(i as int)),
        decreases ls.len() - i,
    {
        let ts = trim_start(&ls[i]);
        let ghost rest = lv.skip(i as int);
        proof {
            assert(rest[0] == ls@[i as int]@);
            assert(rest.drop_first() =~= lv.skip(i + 1));
        }
        if starts_with(&ts, &fence) {
            proof {
                assert(views(body@) + spec_fence_body(rest) =~= views(body@));
            }
            return body;
        }
        let ghost pre = views(body@);
        body.push(copy_chars(&ls[i]));
        proof {
            assert(views(body@) =~= pre.push(ls@[i as int]@));
            assert(pre + spec_fence_body(rest) =~= views(body@) + spec_fence_body(lv.skip(i + 1)));
        }
        i += 1;
    }
    proof {
        assert(views(body@) + spec_fence_body(lv.skip(i as int)) =~= views(body@));
    }
    body
}

fn strip_label(v: &Vec<char>) -> (r: Vec<char>)
    ensures
        r@ == spec_strip_label_from(v@, 0),
{
    let mut labels: Vec<Vec<char>> = Vec::new();
    labels.push(lit("增强后的提示词："));
    labels.push(lit("增强提示词："));
    labels.push(lit("优化后的提示词："));
    labels.push(lit("enhanced prompt:"));
    labels.push(lit("enhanced prompt："));
    labels.push(lit("prompt:"));
    proof {
        assert(views(labels@) =~= spec_output_labels());
    }
    let lower = lower_seq(v);
    let mut i: usize = 0;
    while i < labels.len()
        invariant
            i <= labels.len(),
            views(labels@) == spec_output_labels(),
            lower@ == spec_lower_seq(v@),
            spec_strip_label_from(v@, 0) == spec_strip_label_from(v@, i as int),
        decreases labels.len() - i,
    {
        let ll = lower_seq(&labels[i]);
        proof {
            assert(spec_output_labels()[i as int] == labels@[i as int]@);
        }
        if starts_with(&lower, &ll) {
            let n = labels[i].len();
            let rest = slice_chars(v, n, v.len());
            proof {
                assert(rest@ =~= v@.skip(n as int));
            }
            return trim(&rest);
        }
        i += 1;
    }
    copy_chars(v)
}

/// Cleans the model's answer (see `spec_clean_codex_output`).
pub fn clean_codex_output(text: &str) -> (r: String)
    ensures
        r@ == spec_clean_codex_output(text@),
{
    let c = to_chars(text);
    let nb = strip_bom(&c);
    let v1 = trim(&nb);
    let fence = lit("```");
    let v2 = if starts_with(&v1, &fence) {
        let ls = lines(&v1);
        proof {
            reveal_strlit("```");
            assert(v1@.len() >= 3);
            crate::text::lemma_lines_nonempty(v1@);
        }
        let body = fence_body(&ls);
        let nl = lit("\n");
        let joined = join(&body, &nl);
        trim(&joined)
    } else {
        v1
    };
    let v3 = strip_label(&v2);
    let v4 = strip_chatter_chars(&v3);
    let r = layout_chars(&v4);
    string_from_chars(r.as_slice())
}

/// Line breaks become spaces, the result is trimmed and cut to 300 characters (then marked
/// with `...`).
pub open spec fn spec_sanitize_error_detail(text: Seq<char>) -> Seq<char> {
    let compact = spec_trim(spec_replace(spec_replace(text, "\r"@, " "@), "\n"@, " "@));
    if compact.len() > 300 {
        compact.take(300) + "..."@
    } else {
        compact
    }
}

fn sanitize_detail_chars(text: &Vec<char>) -> (r: Vec<char>)
    ensures
        r@ == spec_sanitize_error_detail(text@),
{
    proof {
        reveal_strlit("\r");
        reveal_strlit("\n");
    }
    let a = replace_lit(text, "\r", " ");
    let b = replace_lit(&a, "\n", " ");
    let compact = trim(&b);
    if compact.len() > 300 {
        let mut short = slice_chars(&compact, 0, 300);
        let dots = lit("...");
        append_chars(&mut short, &dots);
        short
    } else {
        compact
    }
}

pub fn sanitize_error_detail(text: &str) -> (r: String)
    ensures
        r@ == spec_sanitize_error_detail(text@),
{
    let c = to_chars(text);
    let r = sanitize_detail_chars(&c);
    string_from_chars(r.as_slice())
}

/// ` Response: <detail>`, or nothing for an empty detail.
pub open spec fn spec_error_detail_suffix(detail: Seq<char>) -> Seq<char> {
    if detail.len() == 0 {
        Seq::empty()
    } else {
        " Response: "@ + detail
    }
}

pub fn format_error_detail_suffix(detail: &str) -> (r: String)
    ensures
        r@ == spec_error_detail_suffix(detail@),
{
    let d = to_chars(detail);
    if d.len() == 0 {
        return String::new();
    }
    let mut out = lit(" Response: ");
    append_chars(&mut out, &d);
    string_from_chars(out.as_slice())
}

/// The message for an HTTP error status of the Codex API, before the response detail.
pub open spec fn spec_http_error_head(status: u16) -> Seq<char> {
    if status == 401 {
        "Codex API authentication failed (401). Check --codex-api-key / ACE_TOOL_CODEX_API_KEY."@
    } else if status == 403 {
        "Codex API access forbidden (403). Check API key permissions or service policy."@
    } else if status == 429 {
        "Codex API rate limited (429). Check quota, credits, or retry later."@
    } else if status == 503 {
        "Codex API service temporarily unavailable (503)."@
    } else if 500 <= status <= 599 {
        "Codex API server error ("@ + spec_decimal(status as nat) + ")."@
    } else {
        "Codex API request failed with status "@ + spec_decimal(status as nat) + "."@
    }
}

/// The error message for an HTTP error status, with the sanitised response body appended.
pub open spec fn spec_http_error(status: u16, response_text: Seq<char>) -> Seq<char> {
    spec_http_error_head(status) + spec_error_detail_suffix(spec_sanitize_error_detail(response_text))
}

pub fn map_http_error(status: u16, response_text: &str) -> (r: String)
    ensures
        r@ == spec_http_error(status, response_text@),
{
    let text = to_chars(response_text);
    let detail = sanitize_detail_chars(&text);
    let mut out = if status == 401 {
        lit("Codex API authentication failed (401). Check --codex-api-key / ACE_TOOL_CODEX_API_KEY.")
    } else if status == 403 {
        lit("Codex API access forbidden (403). Check API key permissions or service policy.")
    } else if status == 429 {
        lit("Codex API rate limited (429). Check quota, credits, or retry later.")
    } else if status == 503 {
        lit("Codex API service temporarily unavailable (503).")
    } else if 500 <= status && status <= 599 {
        let mut m = lit("Codex API server error (");
        let d = decimal(status as u64);
        append_chars(&mut m, &d);
        let close = lit(").");
        append_chars(&mut m, &close);
        m
    } else {
        let mut m = lit("Codex API request failed with status ");
        let d = decimal(status as u64);
        append_chars(&mut m, &d);
        let close = lit(".");
        append_chars(&mut m, &close);
        m
    };
    if detail.len() > 0 {
        let resp = lit(" Response: ");
        append_chars(&mut out, &resp);
        append_chars(&mut out, &detail);
    }
    string_from_chars(out.as_slice())
}

/// Statuses worth another attempt: 429, 502, 503 and 504.
pub open spec fn spec_retryable_status(status: u16) -> bool {
    status == 429 || status == 502 || status == 503 || status == 504
}

pub fn is_retryable_status(status: u16) -> (b: bool)
    ensures
        b == spec_retryable_status(status),
{
    let codes: [u16; 4] = [429, 502, 503, 504];
    let mut i: usize = 0;
    while i < 4
        invariant
            i <= 4,
            codes@ == seq![429u16, 502u16, 503u16, 504u16],
            forall|j: int| 0 <= j < i ==> codes@[j] != status,
        decreases 4 - i,
    {
        if codes[i] == status {
            return true;
        }
        i += 1;
    }
    false
}

/// Milliseconds to wait after failed attempt `attempt`: 800, 1600, then 2400.
pub open spec fn spec_backoff_ms(attempt: usize) -> u64 {
    if attempt == 1 {
        800
    } else if attempt == 2 {
        1600
    } else {
        2400
    }
}

pub fn backoff_delay_for_attempt(attempt: usize) -> (ms: u64)
    ensures
        ms == spec_backoff_ms(attempt),
{
    match attempt {
        1 => 800,
        2 => 1600,
        _ => 2400,
    }
}

/// A `Retry-After` header value in seconds: trimmed, a `u64` as `str::parse` reads it, and
/// above zero.
pub open spec fn spec_retry_after_seconds(value: Seq<char>) -> Option<u64> {
    match spec_parse_nat(spec_trim(value)) {
        Some(v) => if 0 < v <= u64::MAX {
            Some(v as u64)
        } else {
            None
        },
        None => None,
    }
}

pub fn parse_retry_after_value(value: &str) -> (r: Option<u64>)
    ensures
        r == spec_retry_after_seconds(value@),
{
    let c = to_chars(value);
    let t = trim(&c);
    match parse_decimal(&t, u64::MAX) {
        Some(v) => if v > 0 {
            Some(v)
        } else {
            None
        },
        None => None,
    }
}

/// How one attempt to call the Codex API failed.
pub struct CodexAttemptError {
    pub message: String,
    pub retryable: bool,
    pub retry_after_sec: Option<u64>,
}

/// What one attempt gave.
pub enum AttemptOutcome {
    /// The message content of a successful response.
    Content(String),
    Failed(CodexAttemptError),
}

/// What to do after an attempt.
pub enum RetryStep {
    /// The enhancement is finished, with its result.
    Finished(Result<String, String>),
    /// Wait `delay_ms` milliseconds, then make attempt `next_attempt`.
    RetryAfter { next_attempt: usize, delay_ms: u128 },
}

/// The final error once no more attempts are made.
pub open spec fn spec_final_error(last_error: Seq<char>) -> Seq<char> {
    if last_error.len() == 0 {
        "Codex API request failed after retries."@
    } else {
        last_error + " Retried "@ + spec_decimal(MAX_RETRY_ATTEMPTS as nat) + " times."@
    }
}

pub fn final_error_message(last_error: &str) -> (r: String)
    ensures
        r@ == spec_final_error(last_error@),
{
    let e = to_chars(last_error);
    if e.len() == 0 {
        return "Codex API request failed after retries.".to_owned();
    }
    let mut out = e;
    let a = lit(" Retried ");
    append_chars(&mut out, &a);
    let d = decimal(MAX_RETRY_ATTEMPTS as u64);
    append_chars(&mut out, &d);
    let b = lit(" times.");
    append_chars(&mut out, &b);
    string_from_chars(out.as_slice())
}

/// The result of a response's content: the cleaned answer, or an error when nothing is left.
pub open spec fn spec_content_result(content: Seq<char>) -> Result<Seq<char>, Seq<char>> {
    let cleaned = spec_clean_codex_output(content);
    if cleaned.len() == 0 {
        Err("Codex API returned empty enhancement result."@)
    } else {
        Ok(cleaned)
    }
}

/// Decides what follows an attempt: a response is cleaned and ends the request (an empty
/// result is an error); a failure is retried, after the server's `Retry-After` or the backoff
/// delay, while it is retryable and attempts are left, else it ends the request with the final
/// error.
pub fn next_retry_step(attempt: usize, outcome: AttemptOutcome) -> (r: RetryStep)
    requires
        1 <= attempt <= MAX_RETRY_ATTEMPTS,
    ensures
        match outcome {
            AttemptOutcome::Content(c) => r matches RetryStep::Finished(res) && match (
                res,
                spec_content_result(c@),
            ) {
                (Ok(a), Ok(b)) => a@ == b,
                (Err(a), Err(b)) => a@ == b,
                _ => false,
            },
            AttemptOutcome::Failed(e) => if !e.retryable || attempt == MAX_RETRY_ATTEMPTS {
                r matches RetryStep::Finished(Err(m)) && m@ == spec_final_error(e.message@)
            } else {
                r matches RetryStep::RetryAfter { next_attempt, delay_ms } && next_attempt
                    == attempt + 1 && delay_ms == match e.retry_after_sec {
                    Some(s) => s * 1000,
                    None => spec_backoff_ms(attempt) as int,
                }
            },
        },
        r matches RetryStep::RetryAfter { next_attempt, .. } ==> next_attempt
            <= MAX_RETRY_ATTEMPTS,
{
    match outcome {
        AttemptOutcome::Content(content) => {
            let cleaned = clean_codex_output(content.as_str());
            if cleaned.as_str().is_empty() {
                RetryStep::Finished(Err("Codex API returned empty enhancement result.".to_owned()))
            } else {
                RetryStep::Finished(Ok(cleaned))
            }
        },
        AttemptOutcome::Failed(e) => {
            if !e.retryable || attempt == MAX_RETRY_ATTEMPTS {
                RetryStep::Finished(Err(final_error_message(e.message.as_str())))
            } else {
                let delay_ms: u128 = match e.retry_after_sec {
                    Some(sec) => (sec as u128) * 1000,
                    None => backoff_delay_for_attempt(attempt) as u128,
                };
                RetryStep::RetryAfter { next_attempt: attempt + 1, delay_ms }
            }
        },
    }
}

/// `s` without trailing `/` characters.
pub open spec fn spec_trim_end_slashes(s: Seq<char>) -> Seq<char>
    decreases s.len(),
{
    if s.len() > 0 && s.last() == '/' {
        spec_trim_end_slashes(s.drop_last())
    } else {
        s
    }
}

pub fn trim_end_slashes(s: &Vec<char>) -> (r: Vec<char>)
    ensures
        r@ == spec_trim_end_slashes(s@),
{
    let mut b: usize = s.len();
    proof {
        assert(s@.take(b as int) =~= s@);
    }
    while b > 0 && s[b - 1] == '/'
        invariant
            b <= s.len(),
            spec_trim_end_slashes(s@) == spec_trim_end_slashes(s@.take(b as int)),
        decreases b,
    {
        proof {
            assert(s@.take(b as int).drop_last() =~= s@.take(b - 1));
        }
        b -= 1;
    }
    slice_chars(s, 0, b)
}

/// Validated settings of the Codex provider.
pub struct CodexSettings {
    /// API base URL, trimmed, without trailing slashes.
    pub api_base: String,
    pub api_key: String,
    pub model: String,
    /// `low`, `medium` or `high`.
    pub reasoning_effort: String,
    /// Request timeout in seconds, at least ten.
    pub timeout_sec: u64,
}

/// Why Codex settings are refused, checked in this order; `None` when they are usable.
pub open spec fn spec_codex_settings_error(
    api_base: Seq<char>,
    api_key: Seq<char>,
    model: Seq<char>,
    reasoning_effort: Seq<char>,
) -> Option<Seq<char>> {
    let effort = spec_keyword(reasoning_effort);
    if spec_trim_end_slashes(spec_trim(api_base)).len() == 0 {
        Some("Codex API base URL is required."@)
    } else if spec_trim(api_key).len() == 0 {
        Some("Codex API key is required."@)
    } else if spec_trim(model).len() == 0 {
        Some("Codex model is required."@)
    } else if !(effort == "low"@ || effort == "medium"@ || effort == "high"@) {
        Some("Invalid Codex reasoning effort: "@ + effort + " (expected low|medium|high)"@)
    } else {
        None
    }
}

impl CodexSettings {
    /// Normalises and checks the Codex settings: the base URL is trimmed and loses trailing
    /// slashes, key and model are trimmed, the reasoning effort is trimmed and lowercased and
    /// must be `low`, `medium` or `high`, and the timeout is raised to ten seconds at least.
    pub fn new(
        api_base: &str,
        api_key: &str,
        model: &str,
        reasoning_effort: &str,
        timeout_sec: u64,
    ) -> (r: Result<CodexSettings, String>)
        ensures
            match spec_codex_settings_error(api_base@, api_key@, model@, reasoning_effort@) {
                Some(m) => r matches Err(e) && e@ == m,
                None => r matches Ok(s) && s.api_base@ == spec_trim_end_slashes(spec_trim(api_base@))
                    && s.api_key@ == spec_trim(api_key@) && s.model@ == spec_trim(model@)
                    && s.reasoning_effort@ == spec_keyword(reasoning_effort@) && s.timeout_sec == if timeout_sec > 10 {
                    timeout_sec
                } else {
                    10
                },
            },
    {
        let b = to_chars(api_base);
        let bt = trim(&b);
        let base = trim_end_slashes(&bt);
        if base.len() == 0 {
            return Err("Codex API base URL is required.".to_owned());
        }
        let k = to_chars(api_key);
        let key = trim(&k);
        if key.len() == 0 {
            return Err("Codex API key is required.".to_owned());
        }
        let m = to_chars(model);
        let mdl = trim(&m);
        if mdl.len() == 0 {
            return Err("Codex model is required.".to_owned());
        }
        let effort = keyword(reasoning_effort);
        if !(eq_lit(&effort, "low") || eq_lit(&effort, "medium") || eq_lit(&effort, "high")) {
            let mut msg = lit("Invalid Codex reasoning effort: ");
            append_chars(&mut msg, &effort);
            let tail = lit(" (expected low|medium|high)");
            append_chars(&mut msg, &tail);
            return Err(string_from_chars(msg.as_slice()));
        }
        Ok(
            CodexSettings {
                api_base: string_from_chars(base.as_slice()),
                api_key: string_from_chars(key.as_slice()),
                model: string_from_chars(mdl.as_slice()),
                reasoning_effort: string_from_chars(effort.as_slice()),
                timeout_sec: if timeout_sec > 10 {
                    timeout_sec
                } else {
                    10
                },
            },
        )
    }
}

/// The system prompt of an enhancement request.
pub open spec fn spec_codex_system_prompt() -> Seq<char> {
    "你是提示词增强助手。请把用户提供的原始提示词改写成一版可以直接交给模型执行的最终提示词。\n要求：\n1. 保留原始意图，不改变任务目标；结合对话上下文补足必要约束，但不要杜撰项目事实。\n2. 信息量不能缩水：增强结果的细节、约束和可执行性必须至少不低于原文；若原文偏简略，应适度扩展为更具体版本。\n3. 表达形式要自适应原始语义，不要套固定模板：可用自然分段、小标题或列表，但仅在有助于理解时使用，不强制。\n4. 文本应便于浏览：避免超长单段，保持逻辑连贯与重点清晰。\n5. 只输出增强后的最终提示词正文，不要输出分析、解释、标题前缀或 markdown 代码块。"@
}

/// The user message: the trimmed prompt and the trimmed conversation under two headings.
pub open spec fn spec_codex_user_prompt(prompt: Seq<char>, history: Seq<char>) -> Seq<char> {
    "原始提示词：\n"@ + spec_trim(prompt) + "\n\n对话上下文：\n"@ + spec_trim(history) + "\n"@
}

/// `v` is the enhancement request body: the model, the system and user messages,
/// temperature 0.1 and the reasoning effort.
pub open spec fn spec_chat_completion_payload(
    v: JsonValue,
    model: Seq<char>,
    reasoning_effort: Seq<char>,
    system: Seq<char>,
    user: Seq<char>,
) -> bool {
    match v {
        JsonValue::Object(m) => m.len() == 4 && m[0].0@ == "model"@ && spec_is_str(m[0].1, model)
            && m[1].0@ == "messages"@ && spec_is_chat(m[1].1, system, user) && m[2].0@
            == "temperature"@ && spec_is_number(m[2].1, "0.1"@) && m[3].0@ == "reasoning_effort"@
            && spec_is_str(m[3].1, reasoning_effort),
        _ => false,
    }
}

/// The body of an enhancement request (see `spec_chat_completion_payload`).
pub fn build_chat_completion_payload(
    model: &str,
    reasoning_effort: &str,
    system_prompt: &str,
    user_prompt: &str,
) -> (r: JsonValue)
    ensures
        spec_chat_completion_payload(r, model@, reasoning_effort@, system_prompt@, user_prompt@),
{
    let mut m: Vec<(String, JsonValue)> = Vec::new();
    m.push(("model".to_string(), json_str(model)));
    m.push(("messages".to_string(), chat_messages(system_prompt, user_prompt)));
    m.push(("temperature".to_string(), JsonValue::Number("0.1".to_string())));
    m.push(("reasoning_effort".to_string(), json_str(reasoning_effort)));
    JsonValue::Object(m)
}

/// The system and the user message of an enhancement request.
pub fn build_codex_messages(prompt: &str, history: &str) -> (r: (String, String))
    ensures
        r.0@ == spec_codex_system_prompt(),
        r.1@ == spec_codex_user_prompt(prompt@, history@),
{
    let system = "你是提示词增强助手。请把用户提供的原始提示词改写成一版可以直接交给模型执行的最终提示词。\n要求：\n1. 保留原始意图，不改变任务目标；结合对话上下文补足必要约束，但不要杜撰项目事实。\n2. 信息量不能缩水：增强结果的细节、约束和可执行性必须至少不低于原文；若原文偏简略，应适度扩展为更具体版本。\n3. 表达形式要自适应原始语义，不要套固定模板：可用自然分段、小标题或列表，但仅在有助于理解时使用，不强制。\n4. 文本应便于浏览：避免超长单段，保持逻辑连贯与重点清晰。\n5. 只输出增强后的最终提示词正文，不要输出分析、解释、标题前缀或 markdown 代码块。".to_owned();
    let p = to_chars(prompt);
    let h = to_chars(history);
    let mut out = lit("原始提示词：\n");
    let pt = trim(&p);
    append_chars(&mut out, &pt);
    let mid = lit("\n\n对话上下文：\n");
    append_chars(&mut out, &mid);
    let ht = trim(&h);
    append_chars(&mut out, &ht);
    let end = lit("\n");
    append_chars(&mut out, &end);
    (system, string_from_chars(out.as_slice()))
}

/// How a request that got no HTTP response failed.
pub enum RequestFailure {
    Timeout,
    Connect,
    Other,
}

/// The attempt error for a request that got no response: timeouts and connection failures
/// are retried, anything else is not; `error_text` is the transport's own description.
pub fn map_request_error(failure: RequestFailure, timeout_sec: u64, error_text: &str) -> (r:
    CodexAttemptError)
    ensures
        r.retry_after_sec is None,
        r.retryable == !(failure is Other),
        r.message@ == match failure {
            RequestFailure::Timeout => "Codex API request timed out ("@ + spec_decimal(
                timeout_sec as nat,
            ) + " seconds): "@ + error_text@,
            RequestFailure::Connect => "Failed to connect to Codex API: "@ + error_text@,
            RequestFailure::Other => "Codex API request failed: "@ + error_text@,
        },
{
    let e = to_chars(error_text);
    match failure {
        RequestFailure::Timeout => {
            let mut m = lit("Codex API request timed out (");
            let d = decimal(timeout_sec);
            append_chars(&mut m, &d);
            let s = lit(" seconds): ");
            append_chars(&mut m, &s);
            append_chars(&mut m, &e);
            CodexAttemptError {
                message: string_from_chars(m.as_slice()),
                retryable: true,
                retry_after_sec: None,
            }
        },
        RequestFailure::Connect => {
            let mut m = lit("Failed to connect to Codex API: ");
            append_chars(&mut m, &e);
            CodexAttemptError {
                message: string_from_chars(m.as_slice()),
                retryable: true,
                retry_after_sec: None,
            }
        },
        RequestFailure::Other => {
            let mut m = lit("Codex API request failed: ");
            append_chars(&mut m, &e);
            CodexAttemptError {
                message: string_from_chars(m.as_slice()),
                retryable: false,
                retry_after_sec: None,
            }
        },
    }
}

/// The text of a chat-completion message: its `content` string, or its content parts' `text`
/// strings, trimmed and joined by newlines, the whole trimmed (`None` when there is none).
pub open spec fn spec_message_content(message: JsonValue) -> Option<Seq<char>> {
    match message.spec_get("content"@) {
        Some(JsonValue::Str(s)) => Some(s@),
        Some(JsonValue::Array(parts)) => {
            let texts = spec_text_parts(parts@, parts@.len() as int, true);
            if texts.len() == 0 {
                None
            } else {
                Some(spec_trim(spec_join(texts, "\n"@)))
            }
        },
        _ => None,
    }
}

pub fn extract_message_content(message: &JsonValue) -> (r: Option<String>)
    ensures
        match (r, spec_message_content(*message)) {
            (Some(a), Some(b)) => a@ == b,
            (None, None) => true,
            _ => false,
        },
{
    match message.get("content") {
        Some(content) => match content {
            JsonValue::Str(s) => Some(s.clone()),
            JsonValue::Array(parts) => {
                let texts = text_parts(parts, true);
                if texts.len() == 0 {
                    None
                } else {
                    let joined = join(&texts, &lit("\n"));
                    let t = trim(&joined);
                    Some(string_from_chars(t.as_slice()))
                }
            },
            _ => None,
        },
        None => None,
    }
}

/// What a chat-completion response yields: the first choice's message text, or the error
/// for the first thing missing.
pub open spec fn spec_completion_content(value: JsonValue) -> Result<Seq<char>, Seq<char>> {
    match value.spec_get("choices"@) {
        Some(JsonValue::Array(choices)) => if choices@.len() == 0 {
            Err("Codex API response returned no choices."@)
        } else {
            match choices@[0].spec_get("message"@) {
                None => Err("Codex API response missing message field."@),
                Some(m) => match spec_message_content(m) {
                    Some(c) => if spec_trim(c).len() > 0 {
                        Ok(c)
                    } else {
                        Err("Codex API response returned empty message content."@)
                    },
                    None => Err("Codex API response returned empty message content."@),
                },
            }
        },
        _ => Err("Codex API response missing choices array."@),
    }
}

/// Reads the enhanced prompt out of a parsed chat-completion response.
pub fn completion_content(value: &JsonValue) -> (r: Result<String, String>)
    ensures
        match (r, spec_completion_content(*value)) {
            (Ok(a), Ok(b)) => a@ == b,
            (Err(a), Err(b)) => a@ == b,
            _ => false,
        },
{
    let choices = match value.get("choices") {
        Some(JsonValue::Array(c)) => c,
        _ => {
            return Err("Codex API response missing choices array.".to_owned());
        },
    };
    if choices.len() == 0 {
        return Err("Codex API response returned no choices.".to_owned());
    }
    let message = match choices[0].get("message") {
        Some(m) => m,
        None => {
            return Err("Codex API response missing message field.".to_owned());
        },
    };
    match extract_message_content(message) {
        Some(c) => {
            let t = trim(&to_chars(c.as_str()));
            if t.len() > 0 {
                Ok(c)
            } else {
                Err("Codex API response returned empty message content.".to_owned())
            }
        },
        None => Err("Codex API response returned empty message content.".to_owned()),
    }
}
} // verus!
