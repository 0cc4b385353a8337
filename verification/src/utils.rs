//! Project paths and text decoding helpers.
use vstd::prelude::*;

use crate::text::{
    append_chars, contains, lit, replace_all, spec_contains, spec_ends_with, spec_replace,
    spec_starts_with,
    string_from_chars, to_chars,
};

verus! {

/// `\` path separators turned into `/`.
pub open spec fn spec_normalize_path(path: Seq<char>) -> Seq<char> {
    spec_replace(path, "\\"@, "/"@)
}

/// A path with `/` separators, as the index compares paths on every platform.
pub fn normalize_path(path: &str) -> (r: String)
    ensures
        r@ == spec_normalize_path(path@),
{
    proof {
        reveal_strlit("\\");
    }
    let r = replace_all(&to_chars(path), &lit("\\"), &lit("/"));
    string_from_chars(r.as_slice())
}

/// Replacing one character by another leaves none of the first, and changes nothing where
/// there is none.
proof fn lemma_replace_char(s: Seq<char>, a: char, b: char)
    requires
        a != b,
    ensures
        forall|i: int|
            0 <= i < spec_replace(s, seq![a], seq![b]).len() ==> #[trigger] spec_replace(
                s,
                seq![a],
                seq![b],
            )[i] != a,
        (forall|i: int| 0 <= i < s.len() ==> #[trigger] s[i] != a) ==> spec_replace(
            s,
            seq![a],
            seq![b],
        ) == s,
    decreases s.len(),
{
    if s.len() > 0 {
        lemma_replace_char(s.drop_first(), a, b);
        let rest = spec_replace(s.drop_first(), seq![a], seq![b]);
        assert(s.skip(1) =~= s.drop_first());
        if s[0] == a {
            assert(spec_starts_with(s, seq![a])) by {
                assert(s.subrange(0, 1) =~= seq![a]);
            }
            assert(spec_replace(s, seq![a], seq![b]) == seq![b] + rest);
        } else {
            assert(!spec_starts_with(s, seq![a])) by {
                assert(s.subrange(0, 1)[0] == s[0]);
            }
            assert(spec_replace(s, seq![a], seq![b]) == seq![s[0]] + rest);
            if forall|i: int| 0 <= i < s.len() ==> #[trigger] s[i] != a {
                assert forall|i: int| 0 <= i < s.drop_first().len() implies #[trigger] s.drop_first()[i]
                    != a by {
                    assert(s.drop_first()[i] == s[i + 1]);
                }
                assert(seq![s[0]] + s.drop_first() =~= s);
            }
        }
        let r = spec_replace(s, seq![a], seq![b]);
        assert forall|i: int| 0 <= i < r.len() implies #[trigger] r[i] != a by {
            if i > 0 {
                assert(r[i] == rest[i - 1]);
            }
        }
    }
}

/// A normalized path holds no `\`, and normalizing it again changes nothing.
pub proof fn law_normalize_path(path: Seq<char>)
    ensures
        !spec_normalize_path(path).contains('\\'),
        spec_normalize_path(spec_normalize_path(path)) == spec_normalize_path(path),
{
    reveal_strlit("\\");
    reveal_strlit("/");
    assert("\\"@ =~= seq!['\\']);
    assert("/"@ =~= seq!['/']);
    lemma_replace_char(path, '\\', '/');
    let r = spec_normalize_path(path);
    lemma_replace_char(r, '\\', '/');
}

/// The `.gitignore` text with the tool's directory added, or `None` when it already names
/// `.ace-tool` somewhere.
pub open spec fn spec_gitignore_update(content: Seq<char>) -> Option<Seq<char>> {
    if spec_contains(content, ".ace-tool"@) {
        None
    } else if content.len() == 0 || content.last() == '\n' {
        Some(content + ".ace-tool/\n"@)
    } else {
        Some(content + "\n.ace-tool/\n"@)
    }
}

pub fn gitignore_update(content: &str) -> (r: Option<String>)
    ensures
        match (r, spec_gitignore_update(content@)) {
            (Some(a), Some(b)) => a@ == b,
            (None, None) => true,
            _ => false,
        },
{
    let c = to_chars(content);
    if contains(&c, &lit(".ace-tool")) {
        return None;
    }
    let mut out = to_chars(content);
    if c.len() == 0 || c[c.len() - 1] == '\n' {
        append_chars(&mut out, &lit(".ace-tool/\n"));
    } else {
        append_chars(&mut out, &lit("\n.ace-tool/\n"));
    }
    Some(string_from_chars(out.as_slice()))
}

/// The bytes after a leading UTF-8 byte-order mark (`EF BB BF`), if there is one.
pub fn strip_utf8_bom(bytes: &[u8]) -> (r: Vec<u8>)
    ensures
        r@ == if bytes@.len() >= 3 && bytes@[0] == 0xEF && bytes@[1] == 0xBB && bytes@[2] == 0xBF {
            bytes@.skip(3)
        } else {
            bytes@
        },
{
    let start: usize = if bytes.len() >= 3 && bytes[0] == 0xEF && bytes[1] == 0xBB && bytes[2]
        == 0xBF {
        3
    } else {
        0
    };
    let mut r: Vec<u8> = Vec::new();
    let mut i: usize = start;
    while i < bytes.len()
        invariant
            start <= i <= bytes.len(),
            r@ == bytes@.subrange(start as int, i as int),
        decreases bytes.len() - i,
    {
        r.push(bytes[i]);
        proof {
            assert(r@ =~= bytes@.subrange(start as int, i + 1));
        }
        i += 1;
    }
    proof {
        assert(bytes@.subrange(start as int, bytes@.len() as int) =~= bytes@.skip(start as int));
        assert(bytes@.skip(0) =~= bytes@);
    }
    r
}

/// Replacement characters (U+FFFD) among the first `k` characters.
pub open spec fn spec_replacement_count(s: Seq<char>, k: int) -> nat
    decreases k,
{
    if k <= 0 {
        0
    } else {
        spec_replacement_count(s, k - 1) + if s[k - 1] == '\u{FFFD}' {
            1nat
        } else {
            0nat
        }
    }
}

/// How many characters of a decoded text are replacement characters, and how long it is
/// (at least one).
pub fn replacement_stats(content: &str) -> (r: (usize, usize))
    ensures
        r.0 == spec_replacement_count(content@, content@.len() as int),
        r.1 == if content@.len() == 0 {
            1
        } else {
            content@.len()
        },
{
    let c = to_chars(content);
    let mut n: usize = 0;
    let mut i: usize = 0;
    while i < c.len()
        invariant
            i <= c.len(),
            n == spec_replacement_count(c@, i as int),
            n <= i,
        decreases c.len() - i,
    {
        if c[i] == '\u{FFFD}' {
            n += 1;
        }
        i += 1;
    }
    (n, if c.len() == 0 {
        1
    } else {
        c.len()
    })
}

/// Leading U+FEFF characters removed.
pub fn trim_utf8_bom_char(text: &str) -> (r: String)
    ensures
        r@ == crate::enhancer::codex_provider::spec_strip_bom(text@),
{
    let c = to_chars(text);
    let mut a: usize = 0;
    proof {
        assert(c@.skip(0) =~= c@);
    }
    while a < c.len() && c[a] == '\u{feff}'
        invariant
            a <= c.len(),
            crate::enhancer::codex_provider::spec_strip_bom(c@)
                == crate::enhancer::codex_provider::spec_strip_bom(c@.skip(a as int)),
        decreases c.len() - a,
    {
        proof {
            assert(c@.skip(a as int).drop_first() =~= c@.skip(a + 1));
        }
        a += 1;
    }
    proof {
        assert(c@.subrange(a as int, c@.len() as int) =~= c@.skip(a as int));
    }
    let r = crate::text::slice_chars(&c, a, c.len());
    string_from_chars(r.as_slice())
}

/// What `str::to_lowercase` gives for `s` (Unicode lowercase mapping).
pub uninterp spec fn unicode_lowercase(s: Seq<char>) -> Seq<char>;

/// `str::to_lowercase`: the Unicode lowercase of `s`, whose value is named by
/// `unicode_lowercase`; nothing more of it is stated.
#[verifier::external_body]
pub(crate) fn to_lowercase(s: &str) -> (r: String)
    ensures
        r@ == unicode_lowercase(s@),
{
    s.to_lowercase()
}

/// The key a file extension is looked up by among the indexed extensions: empty without an
/// extension, else a dot and the extension in lowercase.
pub open spec fn spec_extension_key(ext: Option<Seq<char>>) -> Seq<char> {
    match ext {
        Some(e) => if e.len() == 0 {
            Seq::empty()
        } else {
            "."@ + unicode_lowercase(e)
        },
        None => Seq::empty(),
    }
}

/// The characters of an optional string slice.
pub open spec fn spec_opt_chars(s: Option<&str>) -> Option<Seq<char>> {
    match s {
        Some(e) => Some(e@),
        None => None,
    }
}

/// The lookup key of a file extension (see `spec_extension_key`).
pub fn extension_key(ext: Option<&str>) -> (r: String)
    ensures
        r@ == spec_extension_key(spec_opt_chars(ext)),
{
    match ext {
        Some(e) => {
            if crate::text::to_chars(e).len() == 0 {
                return String::new();
            }
            let mut k = crate::text::lit(".");
            crate::text::append_chars(&mut k, &crate::text::to_chars(to_lowercase(e).as_str()));
            crate::text::string_from_chars(k.as_slice())
        },
        None => String::new(),
    }
}

/// Whether a file with this extension is indexed: its key is one of `text_extensions`.
pub fn is_indexed_extension(ext: Option<&str>, text_extensions: &Vec<String>) -> (b: bool)
    ensures
        b == crate::text::string_views(text_extensions@).contains(
            spec_extension_key(spec_opt_chars(ext)),
        ),
{
    let ghost ek = spec_extension_key(spec_opt_chars(ext));
    let k = extension_key(ext);
    let key = crate::text::to_chars(k.as_str());
    let ghost kv = key@;
    proof {
        assert(kv == ek);
    }
    let mut i: usize = 0;
    while i < text_extensions.len()
        invariant
            i <= text_extensions.len(),
            key@ == kv,
            kv == ek,
            ek == spec_extension_key(spec_opt_chars(ext)),
            forall|q: int| 0 <= q < i ==> text_extensions@[q]@ != kv,
        decreases text_extensions.len() - i,
    {
        if crate::text::chars_eq(&crate::text::to_chars(text_extensions[i].as_str()), &key) {
            proof {
                assert(crate::text::string_views(text_extensions@)[i as int] == kv);
                assert(crate::text::string_views(text_extensions@).contains(ek));
            }
            return true;
        }
        i += 1;
    }
    proof {
        if crate::text::string_views(text_extensions@).contains(kv) {
            let q = choose|q: int| 0 <= q < text_extensions.len() && crate::text::string_views(text_extensions@)[q] == kv;
            assert(text_extensions@[q]@ == kv);
        }
    }
    false
}

} // verus!
