//! The calls into std and into the outside crates that the verified code
//! relies on. Each item states what it claims of the function it calls;
//! nothing here is proved.

use vstd::prelude::*;
use crate::b64::base64_url_encode;
use crate::form::{form_encode_pairs, PairView};
use crate::text::{all_ascii, ascii_lower, ascii_upper};

verus! {

/// `String::push`: appends one character to the string.
#[verifier::external_body]
pub(crate) fn push_char(s: &mut String, c: char)
    ensures
        final(s)@ == old(s)@.push(c),
{
    s.push(c);
}

/// What `str::to_lowercase` returns for a text: its Unicode lower-case form.
pub uninterp spec fn lowercase_of(s: Seq<char>) -> Seq<char>;

/// What `str::to_uppercase` returns for a text: its Unicode upper-case form.
pub uninterp spec fn uppercase_of(s: Seq<char>) -> Seq<char>;

/// `str::to_lowercase`. Its result is named; for an ASCII text it is the
/// character-wise ASCII lower-case form, as the documentation of the Unicode
/// case mapping gives it. Nothing is stated of other texts.
#[verifier::external_body]
pub(crate) fn to_lowercase(s: &str) -> (res: String)
    ensures
        res@ == lowercase_of(s@),
        all_ascii(s@) ==> res@ == s@.map_values(|c: char| ascii_lower(c)),
{
    s.to_lowercase()
}

/// `str::to_uppercase`. Its result is named; for an ASCII text it is the
/// character-wise ASCII upper-case form. Nothing is stated of other texts.
#[verifier::external_body]
pub(crate) fn to_uppercase(s: &str) -> (res: String)
    ensures
        res@ == uppercase_of(s@),
        all_ascii(s@) ==> res@ == s@.map_values(|c: char| ascii_upper(c)),
{
    s.to_uppercase()
}

/// `String::from_utf8`: succeeds exactly on valid UTF-8, and then holds the
/// characters that the bytes encode.
#[verifier::external_body]
pub(crate) fn string_from_utf8(bytes: Vec<u8>) -> (res: Option<String>)
    ensures
        res is Some == vstd::utf8::valid_utf8(bytes@),
        res matches Some(s) ==> s@ == vstd::utf8::decode_utf8(bytes@),
{
    String::from_utf8(bytes).ok()
}

/// Whether `regex::Regex::new` accepts a pattern.
pub uninterp spec fn regex_compiles(pattern: Seq<char>) -> bool;

/// What `regex::Regex::captures_iter` finds in a text: for each successive
/// non-overlapping match, the text of each capture group (group 0 being the
/// whole match), or `None` for a group that did not take part in the match.
pub uninterp spec fn regex_captures_of(pattern: Seq<char>, text: Seq<char>) -> Seq<
    Seq<Option<Seq<char>>>,
>;

/// `regex::Regex::new(pattern)` followed by `captures_iter(text)`, each
/// capture turned into the texts of its groups. `None` when the pattern is
/// refused. The matches themselves are named, not stated.
#[verifier::external_body]
pub(crate) fn regex_captures(pattern: &str, text: &str) -> (res: Option<Vec<Vec<Option<String>>>>)
    ensures
        res is Some == regex_compiles(pattern@),
        res matches Some(c) ==> c.deep_view() == regex_captures_of(pattern@, text@),
{
    match regex::Regex::new(pattern) {
        Ok(re) => Some(
            re.captures_iter(text).map(
                |c| c.iter().map(|m| m.map(|m| m.as_str().to_string())).collect(),
            ).collect(),
        ),
        Err(_) => None,
    }
}

/// `base64::engine::general_purpose::URL_SAFE.encode`: the padded URL-safe
/// base64 encoding of the bytes.
#[verifier::external_body]
pub(crate) fn base64_encode(bytes: &[u8]) -> (res: String)
    ensures
        res@ == base64_url_encode(bytes@),
{
    base64::Engine::encode(&base64::engine::general_purpose::URL_SAFE, bytes)
}

/// `base64::engine::general_purpose::URL_SAFE.decode`. The engine requires
/// canonical padding and rejects non-zero trailing bits, so it accepts
/// exactly the encodings that `URL_SAFE.encode` produces, and gives back the
/// bytes that were encoded.
#[verifier::external_body]
pub(crate) fn base64_decode(text: &str) -> (res: Option<Vec<u8>>)
    ensures
        res matches Some(b) ==> base64_url_encode(b@) == text@,
        res is None ==> forall|b: Seq<u8>| #[trigger] base64_url_encode(b) != text@,
{
    base64::Engine::decode(&base64::engine::general_purpose::URL_SAFE, text).ok()
}

/// `serde_urlencoded::to_string` on a sequence of string pairs: each pair
/// serialized as `key=value` by the form-urlencoded byte serializer, the
/// pairs joined with `&`. Serializing string pairs cannot fail.
#[verifier::external_body]
pub(crate) fn form_encode(pairs: &Vec<(String, String)>) -> (res: String)
    ensures
        res@ == form_encode_pairs(pairs.deep_view()),
{
    serde_urlencoded::to_string(pairs).unwrap_or_default()
}

/// What `serde_urlencoded::from_str::<Vec<(String, String)>>` gives for a
/// text: its `&`-separated pairs, split at the first `=`, with `+` read as a
/// space, percent-escapes decoded and invalid UTF-8 replaced by U+FFFD.
pub uninterp spec fn form_pairs_of(text: Seq<char>) -> Seq<PairView>;

/// `serde_urlencoded::from_str::<Vec<(String, String)>>`. The pairs are
/// named, not stated. Deserializing into string pairs cannot fail.
#[verifier::external_body]
pub(crate) fn form_decode(text: &str) -> (res: Vec<(String, String)>)
    ensures
        res.deep_view() == form_pairs_of(text@),
{
    serde_urlencoded::from_str(text).unwrap_or_default()
}

/// Whether `url::Url::parse` accepts a text.
pub uninterp spec fn url_parses(text: Seq<char>) -> bool;

/// What `url::Url::query_pairs` gives for the URL parsed from a text: the
/// pairs of its query, decoded.
pub uninterp spec fn url_query_pairs_of(text: Seq<char>) -> Seq<PairView>;

/// `url::Url::parse(text)` followed by `query_pairs()`, each pair turned
/// into owned strings. `None` when the text is not a URL. The pairs are
/// named, not stated.
#[verifier::external_body]
pub(crate) fn url_query_pairs(text: &str) -> (res: Option<Vec<(String, String)>>)
    ensures
        res is Some == url_parses(text@),
        res matches Some(p) ==> p.deep_view() == url_query_pairs_of(text@),
{
    match url::Url::parse(text) {
        Ok(u) => Some(u.query_pairs().map(|(k, v)| (k.into_owned(), v.into_owned())).collect()),
        Err(_) => None,
    }
}

} // verus!
