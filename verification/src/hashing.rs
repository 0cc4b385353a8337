//! SHA-256 digests in lowercase hexadecimal, used for blob names and cache keys.
use vstd::prelude::*;

use sha2::{Digest, Sha256};

use crate::text::string_from_chars;

verus! {

/// The SHA-256 digest of the UTF-8 encoding of `text`.
pub uninterp spec fn sha256_utf8(text: Seq<char>) -> Seq<u8>;

/// `sha2::Sha256::digest` over the UTF-8 bytes of `text`: the result is that digest (named
/// `sha256_utf8`, nothing is stated of its value) and has the 32 bytes of SHA-256.
#[verifier::external_body]
fn sha256_of_text(text: &str) -> (r: Vec<u8>)
    ensures
        r@ == sha256_utf8(text@),
        r@.len() == 32,
{
    Sha256::digest(text.as_bytes()).to_vec()
}

/// Lowercase hexadecimal digit of `d` (below sixteen).
pub open spec fn spec_hex_digit(d: int) -> char {
    if d < 10 {
        (48 + d) as char
    } else {
        (87 + d) as char
    }
}

/// Two lowercase hexadecimal digits per byte (`{:02x}`).
pub open spec fn spec_hex(b: Seq<u8>) -> Seq<char>
    decreases b.len(),
{
    if b.len() == 0 {
        Seq::empty()
    } else {
        spec_hex(b.drop_last()).push(spec_hex_digit((b.last() / 16) as int)).push(
            spec_hex_digit((b.last() % 16) as int),
        )
    }
}

fn hex_digit(d: u8) -> (c: char)
    requires
        d < 16,
    ensures
        c == spec_hex_digit(d as int),
{
    if d < 10 {
        (48 + d) as char
    } else {
        (87 + d) as char
    }
}

/// Lowercase hexadecimal rendering of bytes.
pub fn hex_lower(bytes: &Vec<u8>) -> (r: Vec<char>)
    ensures
        r@ == spec_hex(bytes@),
{
    let mut r: Vec<char> = Vec::new();
    let mut i: usize = 0;
    while i < bytes.len()
        invariant
            i <= bytes.len(),
            r@ == spec_hex(bytes@.take(i as int)),
        decreases bytes.len() - i,
    {
        let b = bytes[i];
        r.push(hex_digit(b / 16));
        r.push(hex_digit(b % 16));
        proof {
            assert(bytes@.take(i + 1).drop_last() =~= bytes@.take(i as int));
        }
        i += 1;
    }
    proof {
        assert(bytes@.take(bytes@.len() as int) =~= bytes@);
    }
    r
}

/// SHA-256 of the UTF-8 bytes of `text`, in lowercase hexadecimal.
pub fn sha256_hex(text: &str) -> (r: String)
    ensures
        r@ == spec_hex(sha256_utf8(text@)),
        r@.len() == 64,
{
    let digest = sha256_of_text(text);
    let h = hex_lower(&digest);
    proof {
        lemma_hex_len(digest@);
    }
    string_from_chars(h.as_slice())
}

pub proof fn lemma_hex_len(b: Seq<u8>)
    ensures
        spec_hex(b).len() == 2 * b.len(),
    decreases b.len(),
{
    if b.len() > 0 {
        lemma_hex_len(b.drop_last());
    }
}

} // verus!
