//! Resolving the numeric identifier of a document from its URL.

use vstd::prelude::*;
use crate::decimal::{
    decimal_text, is_digit, is_numeral, lemma_parse_decimal_text, numeral_value, parse_u64,
    parsed_u64, unsigned_part,
};
use crate::error::Error;

verus! {

/// The pattern was rejected when it was compiled.
#[derive(Debug, Clone, Copy)]
struct PatternRejected;

/// Whether `regex::Regex::new` accepts `pattern`.
pub uninterp spec fn pattern_compiles(pattern: Seq<char>) -> bool;

/// The text that the group named `group` captures in the first match of
/// `pattern` in `haystack`, as `regex` finds it: `regex::Regex::captures`
/// followed by `regex::Captures::name`. `None` where there is no match, no
/// such group, or the group took no part in the match.
pub uninterp spec fn named_capture(
    pattern: Seq<char>,
    group: Seq<char>,
    haystack: Seq<char>,
) -> Option<Seq<char>>;

/// Whether `part` is a contiguous stretch of `whole`.
pub open spec fn is_part_of(part: Seq<char>, whole: Seq<char>) -> bool {
    exists|from: int, to: int|
        0 <= from <= to <= whole.len() && part == #[trigger] whole.subrange(from, to)
}

/// Compiles `pattern` with `regex::Regex::new`, searches `haystack` with
/// `regex::Regex::captures` and takes the text of the group named `group`
/// with `regex::Captures::name` and `regex::Match::as_str`.
///
/// Trusted: the result is an error exactly when the pattern does not
/// compile, and otherwise the capture that `named_capture` stands for. A
/// capture is a substring of the haystack, as `regex::Match::as_str`
/// documents. Nothing more is claimed of what a given pattern matches.
#[verifier::external_body]
fn capture_named(pattern: &str, group: &str, haystack: &str) -> (found: Result<
    Option<String>,
    PatternRejected,
>)
    ensures
        found is Ok <==> pattern_compiles(pattern@),
        found matches Ok(Some(text)) ==> named_capture(pattern@, group@, haystack@) == Some(
            text@,
        ),
        found matches Ok(None) ==> named_capture(pattern@, group@, haystack@) is None,
        found matches Ok(Some(text)) ==> is_part_of(text@, haystack@),
{
    let compiled = regex::Regex::new(pattern).map_err(|_| PatternRejected)?;
    let groups = compiled.captures(haystack);
    Ok(groups.and_then(|groups| groups.name(group)).map(|found| found.as_str().to_string()))
}

/// The shape of a document URL, which the URL must have as a whole: the
/// scheme `http` or `https`, the host `www.yumpu.com`, three path segments,
/// the digits of the identifier in the group `id`, and a slug. The pattern
/// is anchored at both ends and its dots are literal; the segments and the
/// slug are not empty and hold neither a slash nor white space.
pub open spec fn document_url_pattern() -> Seq<char> {
    "^https?://www\\.yumpu\\.com/[^/\\s]+/[^/\\s]+/[^/\\s]+/(?P<id>\\d+)/[^/\\s]+$"@
}

/// The name of the group that captures the identifier.
pub open spec fn identifier_group() -> Seq<char> {
    "id"@
}

/// The identifier that a captured digits segment stands for: its value as a
/// `u64`. No capture, or one that is no such number, is an invalid URL.
pub open spec fn identifier_of_capture(capture: Option<Seq<char>>) -> Result<u64, Error> {
    match capture {
        Some(text) => match parsed_u64(text) {
            Some(id) => Ok(id),
            None => Err(Error::InvalidUrl),
        },
        None => Err(Error::InvalidUrl),
    }
}

/// The identifier of the document that `url` names.
pub open spec fn document_id_of(url: Seq<char>) -> Result<u64, Error> {
    if pattern_compiles(document_url_pattern()) {
        identifier_of_capture(named_capture(document_url_pattern(), identifier_group(), url))
    } else {
        Err(Error::InvalidUrl)
    }
}

/// Turns the digits segment captured from a URL into the identifier.
pub fn document_id_from_capture(capture: Option<&str>) -> (result: Result<u64, Error>)
    ensures
        result == identifier_of_capture(
            match capture {
                Some(text) => Some(text@),
                None => None,
            },
        ),
{
    match capture {
        Some(text) => match parse_u64(text) {
            Some(id) => Ok(id),
            None => Err(Error::InvalidUrl),
        },
        None => Err(Error::InvalidUrl),
    }
}

/// Whether `s` holds an ASCII digit.
pub open spec fn has_digit(s: Seq<char>) -> bool {
    exists|i: int| 0 <= i < s.len() && is_digit(#[trigger] s[i])
}

/// Text that reads as a number holds a digit.
pub proof fn lemma_number_has_digit(text: Seq<char>)
    requires
        parsed_u64(text) is Some,
    ensures
        has_digit(text),
{
    let digits = unsigned_part(text);
    assert(is_digit(digits[0]));
    if digits == text {
        assert(is_digit(text[0]));
    } else {
        assert(digits[0] == text[1]);
        assert(is_digit(text[1]));
    }
}

/// A part of a text without digits has no digit either.
pub proof fn lemma_part_without_digit(part: Seq<char>, whole: Seq<char>)
    requires
        is_part_of(part, whole),
        !has_digit(whole),
    ensures
        !has_digit(part),
{
    if has_digit(part) {
        let i = choose|i: int| 0 <= i < part.len() && is_digit(#[trigger] part[i]);
        let (from, to) = choose|from: int, to: int|
            0 <= from <= to <= whole.len() && part == #[trigger] whole.subrange(from, to);
        assert(part[i] == whole[from + i]);
        assert(is_digit(whole[from + i]));
    }
}

/// Resolves the identifier of the document that `yumpu_url` names, or fails
/// with `InvalidUrl`.
///
/// The URL is held against `document_url_pattern` as a whole; the
/// identifier is what the digits segment denotes that the pattern captures.
/// Whatever the pattern matches, an identifier that is returned is the
/// value of a stretch of the URL, and a URL without any digit is invalid.
pub fn parse_document_id(yumpu_url: &str) -> (result: Result<u64, Error>)
    ensures
        result == document_id_of(yumpu_url@),
        result matches Ok(id) ==> exists|text: Seq<char>|
            is_part_of(text, yumpu_url@) && #[trigger] parsed_u64(text) == Some(id),
        !has_digit(yumpu_url@) ==> result == Err::<u64, Error>(Error::InvalidUrl),
{
    let pattern = "^https?://www\\.yumpu\\.com/[^/\\s]+/[^/\\s]+/[^/\\s]+/(?P<id>\\d+)/[^/\\s]+$";
    match capture_named(pattern, "id", yumpu_url) {
        Ok(Some(text)) => {
            let result = document_id_from_capture(Some(text.as_str()));
            proof {
                if result is Ok {
                    assert(is_part_of(text@, yumpu_url@) && parsed_u64(text@) == Some(
                        result->Ok_0,
                    ));
                    lemma_number_has_digit(text@);
                    if !has_digit(yumpu_url@) {
                        lemma_part_without_digit(text@, yumpu_url@);
                    }
                }
            }
            result
        },
        Ok(None) => document_id_from_capture(None),
        Err(_) => Err(Error::InvalidUrl),
    }
}

/// A captured digits segment resolves to the number it denotes: the numeral
/// of any 64-bit number gives that number back.
pub proof fn lemma_numeral_resolves(id: u64)
    ensures
        identifier_of_capture(Some(decimal_text(id as nat))) == Ok::<u64, Error>(id),
{
    lemma_parse_decimal_text(id);
}

/// A captured run of digits, with leading zeros or without, resolves to its
/// value where that fits in 64 bits, and is an invalid URL where it does not.
pub proof fn lemma_digits_resolve(digits: Seq<char>)
    requires
        is_numeral(digits),
    ensures
        numeral_value(digits) <= u64::MAX ==> identifier_of_capture(Some(digits)) == Ok::<
            u64,
            Error,
        >(numeral_value(digits) as u64),
        numeral_value(digits) > u64::MAX ==> identifier_of_capture(Some(digits)) == Err::<
            u64,
            Error,
        >(Error::InvalidUrl),
{
    assert(digits[0] != '+');
    assert(unsigned_part(digits) == digits);
}

/// Resolution fails in one way only: where the URL has no identifier
/// segment to capture, or the segment is no number that fits in 64 bits, the
/// result is `InvalidUrl`; no other error comes out.
pub proof fn lemma_unresolved_is_invalid_url(url: Seq<char>)
    ensures
        document_id_of(url) is Err ==> document_id_of(url) == Err::<u64, Error>(Error::InvalidUrl),
        named_capture(document_url_pattern(), identifier_group(), url) is None ==> document_id_of(
            url,
        ) == Err::<u64, Error>(Error::InvalidUrl),
        named_capture(document_url_pattern(), identifier_group(), url) matches Some(text)
            && parsed_u64(text) is None ==> document_id_of(url) == Err::<u64, Error>(
            Error::InvalidUrl,
        ),
{
}

} // verus!
