//! Helpers on strings and bytes that the rest of the crate shares.
//!
//! Comparing, searching and ordering are verified here, on the UTF-8 form
//! of the strings. Four routines of the standard library are called and
//! taken on trust instead: lossy decoding, lowercasing, splitting into lines
//! and trimming. Each of their results has a name in the specifications.

use vstd::prelude::*;
use vstd::utf8::{decode_utf8, encode_utf8, valid_utf8};

verus! {

/// The text that lossy UTF-8 decoding makes of `bytes`: well-formed
/// sequences decode to their characters, each malformed one becomes U+FFFD.
pub uninterp spec fn lossy_text(bytes: Seq<u8>) -> Seq<char>;

/// `needle` occurs in `hay` starting at offset `at`.
pub open spec fn occurs_at<T>(hay: Seq<T>, needle: Seq<T>, at: int) -> bool {
    0 <= at && at + needle.len() <= hay.len() && hay.subrange(at, at + needle.len()) =~= needle
}

/// `hay` ends with `needle`.
pub open spec fn ends_with<T>(hay: Seq<T>, needle: Seq<T>) -> bool {
    needle.len() <= hay.len() && occurs_at(hay, needle, hay.len() - needle.len())
}

/// `needle` occurs somewhere in `hay`.
pub open spec fn contains_seq<T>(hay: Seq<T>, needle: Seq<T>) -> bool {
    exists|at: int| occurs_at(hay, needle, at)
}

/// The lowercase form of a text under the Unicode case mapping.
pub uninterp spec fn lowercased(text: Seq<char>) -> Seq<char>;

/// Lowercases a string with `str::to_lowercase`, whose result depends on
/// the characters alone.
#[verifier::external_body]
pub(crate) fn lowercase(text: &str) -> (lower: String)
    ensures
        lower@ == lowercased(text@),
{
    text.to_lowercase()
}

/// The lines of a text: split at line feeds, each without its line ending
/// (a line feed, with the carriage return before it if there is one).
pub uninterp spec fn text_lines(text: Seq<char>) -> Seq<Seq<char>>;

/// A text without the whitespace at its two ends.
pub uninterp spec fn trimmed(text: Seq<char>) -> Seq<char>;

/// Splits a text into lines with `str::lines`. The lines depend on the text
/// alone.
#[verifier::external_body]
pub(crate) fn split_lines(text: &str) -> (lines: Vec<String>)
    ensures
        lines@.len() == text_lines(text@).len(),
        forall|i: int| 0 <= i < lines@.len() ==> (#[trigger] lines@[i])@ == text_lines(text@)[i],
{
    text.lines().map(str::to_owned).collect()
}

/// Strips surrounding whitespace with `str::trim`, whose result depends on
/// the characters alone.
#[verifier::external_body]
pub(crate) fn trim<'a>(text: &'a str) -> (inner: &'a str)
    ensures
        inner@ == trimmed(text@),
{
    text.trim()
}

/// Decodes terminal output for display. Calls `String::from_utf8_lossy`:
/// the result is a function of the bytes alone, and for well-formed UTF-8 it
/// is the plain decoding.
#[verifier::external_body]
pub(crate) fn decode_lossy(bytes: &[u8]) -> (text: String)
    ensures
        text@ == lossy_text(bytes@),
        valid_utf8(bytes@) ==> text@ == decode_utf8(bytes@),
{
    String::from_utf8_lossy(bytes).into_owned()
}

/// Whether `needle` occurs in `hay` at offset `at`.
pub fn bytes_match_at(hay: &[u8], needle: &[u8], at: usize) -> (found: bool)
    ensures
        found == occurs_at(hay@, needle@, at as int),
{
    let hay_len = hay.len();
    if at > hay_len || needle.len() > hay_len - at {
        return false;
    }
    let mut i: usize = 0;
    while i < needle.len()
        invariant
            i <= needle@.len(),
            at + needle@.len() <= hay@.len() == hay_len,
            forall|k: int| 0 <= k < i ==> hay@[at + k] == needle@[k],
        decreases needle@.len() - i,
    {
        if hay[at + i] != needle[i] {
            assert(hay@.subrange(at as int, at + needle@.len())[i as int] == hay@[at + i]);
            return false;
        }
        i += 1;
    }
    true
}

/// Whether `hay` ends with `needle`.
pub fn bytes_end_with(hay: &[u8], needle: &[u8]) -> (found: bool)
    ensures
        found == ends_with(hay@, needle@),
{
    if needle.len() > hay.len() {
        return false;
    }
    bytes_match_at(hay, needle, hay.len() - needle.len())
}

/// Whether `needle` occurs anywhere in `hay`.
pub fn bytes_contain(hay: &[u8], needle: &[u8]) -> (found: bool)
    ensures
        found == contains_seq(hay@, needle@),
{
    if needle.len() > hay.len() {
        return false;
    }
    let last: usize = hay.len() - needle.len();
    let mut at: usize = 0;
    loop
        invariant
            last == hay@.len() - needle@.len(),
            at <= last,
            forall|k: int| 0 <= k < at ==> !occurs_at(hay@, needle@, k),
        decreases last - at,
    {
        if bytes_match_at(hay, needle, at) {
            return true;
        }
        if at == last {
            return false;
        }
        at += 1;
    }
}

/// Two byte slices hold the same bytes.
pub fn bytes_eq(a: &[u8], b: &[u8]) -> (same: bool)
    ensures
        same == (a@ == b@),
{
    if a.len() != b.len() {
        return false;
    }
    let same = bytes_match_at(a, b, 0);
    proof {
        assert(a@.subrange(0, a@.len() as int) =~= a@);
    }
    same
}

/// Strings with the same UTF-8 form are the same string.
pub proof fn lemma_utf8_is_injective(a: Seq<char>, b: Seq<char>)
    requires
        encode_utf8(a) == encode_utf8(b),
    ensures
        a == b,
{
    vstd::utf8::encode_utf8_decode_utf8(a);
    vstd::utf8::encode_utf8_decode_utf8(b);
}

/// Two strings hold the same characters.
pub fn str_eq(a: &str, b: &str) -> (same: bool)
    ensures
        same == (a@ == b@),
{
    let same = bytes_eq(a.as_bytes(), b.as_bytes());
    proof {
        if same {
            lemma_utf8_is_injective(a@, b@);
        }
    }
    same
}

/// `text` ends with `suffix`, both taken in their UTF-8 form.
pub open spec fn text_ends_with(text: Seq<char>, suffix: Seq<char>) -> bool {
    ends_with(encode_utf8(text), encode_utf8(suffix))
}

/// `needle` occurs in `text`, both taken in their UTF-8 form.
pub open spec fn text_contains(text: Seq<char>, needle: Seq<char>) -> bool {
    contains_seq(encode_utf8(text), encode_utf8(needle))
}

/// Whether `text` ends with `suffix`.
pub fn str_ends_with(text: &str, suffix: &str) -> (found: bool)
    ensures
        found == text_ends_with(text@, suffix@),
{
    bytes_end_with(text.as_bytes(), suffix.as_bytes())
}

/// Whether `needle` occurs in `text`.
pub fn str_contains(text: &str, needle: &str) -> (found: bool)
    ensures
        found == text_contains(text@, needle@),
{
    bytes_contain(text.as_bytes(), needle.as_bytes())
}

/// Dictionary order on bytes: `a` sorts no later than `b`.
pub open spec fn bytes_le(a: Seq<u8>, b: Seq<u8>) -> bool
    decreases a.len(),
{
    if a.len() == 0 {
        true
    } else if b.len() == 0 {
        false
    } else if a[0] != b[0] {
        a[0] < b[0]
    } else {
        bytes_le(a.drop_first(), b.drop_first())
    }
}

/// Dictionary order on strings by their UTF-8 form, which is the order of
/// the standard library's string comparison.
pub open spec fn text_le(a: Seq<char>, b: Seq<char>) -> bool {
    bytes_le(encode_utf8(a), encode_utf8(b))
}

/// Any two byte strings are comparable.
pub proof fn lemma_bytes_le_total(a: Seq<u8>, b: Seq<u8>)
    ensures
        bytes_le(a, b) || bytes_le(b, a),
    decreases a.len(),
{
    if a.len() > 0 && b.len() > 0 && a[0] == b[0] {
        lemma_bytes_le_total(a.drop_first(), b.drop_first());
    }
}

/// The order is transitive.
pub proof fn lemma_bytes_le_transitive(a: Seq<u8>, b: Seq<u8>, c: Seq<u8>)
    requires
        bytes_le(a, b),
        bytes_le(b, c),
    ensures
        bytes_le(a, c),
    decreases a.len(),
{
    if a.len() > 0 && b.len() > 0 && c.len() > 0 && a[0] == b[0] && b[0] == c[0] {
        lemma_bytes_le_transitive(a.drop_first(), b.drop_first(), c.drop_first());
    }
}

/// Whether `a` sorts no later than `b` in dictionary order.
pub fn bytes_sorted(a: &[u8], b: &[u8]) -> (le: bool)
    ensures
        le == bytes_le(a@, b@),
{
    let mut i: usize = 0;
    proof {
        assert(a@.skip(0) =~= a@);
        assert(b@.skip(0) =~= b@);
    }
    while i < a.len() && i < b.len()
        invariant
            i <= a@.len(),
            i <= b@.len(),
            bytes_le(a@, b@) == bytes_le(a@.skip(i as int), b@.skip(i as int)),
        decreases a@.len() - i,
    {
        proof {
            assert(a@.skip(i as int).drop_first() =~= a@.skip(i + 1));
            assert(b@.skip(i as int).drop_first() =~= b@.skip(i + 1));
        }
        if a[i] != b[i] {
            return a[i] < b[i];
        }
        i += 1;
    }
    i == a.len()
}

/// Whether `a` sorts no later than `b`, as strings.
pub fn str_sorted(a: &str, b: &str) -> (le: bool)
    ensures
        le == text_le(a@, b@),
{
    bytes_sorted(a.as_bytes(), b.as_bytes())
}

} // verus!
