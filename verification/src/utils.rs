//! Picking the links out of a text, and reading the groups of regex
//! captures.

use vstd::prelude::*;
use crate::bindings::{regex_captures, regex_compiles, regex_captures_of};
use crate::text::{push_str, replace_all, replace_spec};

verus! {

/// The groups of one match, as characters.
pub type CaptureView = Seq<Option<Seq<char>>>;

/// The pattern of a link: an optional known scheme, `://`, and a run of
/// characters up to whitespace, quotes or angle brackets, not ending in
/// punctuation.
pub const LINK_PATTERN: &'static str = r#"\b(https|ss|vmess|vless|trojan|hysteria2|hy2|hysteria|tuic)?://[^\s<>"']+[^.,;!?)"'\s]"#;

/// The text of group `k`, or `default` when the group did not take part in
/// the match or does not exist (`captures.get(k).map(..).unwrap_or(default)`).
pub open spec fn group_or(cap: CaptureView, k: int, default: Seq<char>) -> Seq<char> {
    if 0 <= k < cap.len() {
        match cap[k] {
            Some(t) => t,
            None => default,
        }
    } else {
        default
    }
}

/// The text of group `k`, or the empty text.
pub open spec fn group_text(cap: CaptureView, k: int) -> Seq<char> {
    group_or(cap, k, seq![])
}

/// The text of group `k` of a match, or `default`.
pub fn group_or_else<'a>(cap: &'a Vec<Option<String>>, k: usize, default: &'a str) -> (res: &'a str)
    ensures
        res@ == group_or(cap.deep_view(), k as int, default@),
{
    if k < cap.len() {
        match &cap[k] {
            Some(s) => s.as_str(),
            None => default,
        }
    } else {
        default
    }
}

/// The text of group `k` of a match, or the empty text.
pub fn group<'a>(cap: &'a Vec<Option<String>>, k: usize) -> (res: &'a str)
    ensures
        res@ == group_text(cap.deep_view(), k as int),
{
    proof {
        reveal_strlit("");
    }
    group_or_else(cap, k, "")
}

/// A link with the escaped `&amp;amp;` turned back into `&` and the escaped
/// `%3D` into `=`.
pub open spec fn clean_link(link: Seq<char>) -> Seq<char> {
    replace_spec(replace_spec(link, "&amp;amp;"@, "&"@), "%3D"@, "="@)
}

/// The cleaned whole-match texts, each followed by a line break.
pub open spec fn links_text(caps: Seq<CaptureView>) -> Seq<char>
    decreases caps.len(),
{
    if caps.len() == 0 {
        seq![]
    } else {
        links_text(caps.drop_last()) + clean_link(group_text(caps.last(), 0)) + seq!['\n']
    }
}

/// What `seperate_links` gives for a text: `None` where the link pattern
/// would be refused.
pub open spec fn links_spec(text: Seq<char>) -> Option<Seq<char>> {
    if regex_compiles(LINK_PATTERN@) {
        Some(links_text(regex_captures_of(LINK_PATTERN@, text)))
    } else {
        None
    }
}

/// One line per match: the whole match, cleaned.
pub fn links_from_captures(caps: &Vec<Vec<Option<String>>>) -> (res: String)
    ensures
        res@ == links_text(caps.deep_view()),
{
    let mut res = String::new();
    let mut i: usize = 0;
    assert(caps.deep_view().take(0) =~= Seq::<CaptureView>::empty());
    while i < caps.len()
        invariant
            i <= caps.len(),
            res@ == links_text(caps.deep_view().take(i as int)),
        decreases caps.len() - i,
    {
        proof {
            reveal_strlit("&amp;amp;");
            reveal_strlit("%3D");
        }
        let link = group(&caps[i], 0);
        let once = replace_all(link, "&amp;amp;", "&");
        let twice = replace_all(once.as_str(), "%3D", "=");
        push_str(&mut res, twice.as_str());
        crate::bindings::push_char(&mut res, '\n');
        assert(caps.deep_view().take(i + 1).drop_last() =~= caps.deep_view().take(i as int));
        assert(caps.deep_view()[i as int] == caps[i as int].deep_view());
        i = i + 1;
    }
    assert(caps.deep_view().take(caps.len() as int) =~= caps.deep_view());
    res
}

/// Separates the links from a text: each match of the link pattern, with
/// `&amp;amp;` turned into `&` and `%3D` into `=`, followed by a line break.
pub fn seperate_links(text: &str) -> (res: String)
    requires
        regex_compiles(LINK_PATTERN@),
    ensures
        links_spec(text@) == Some(res@),
{
    let caps = regex_captures(LINK_PATTERN, text).unwrap();
    links_from_captures(&caps)
}

/// `seperate_links`, or `None` where the link pattern is refused.
pub fn try_seperate_links(text: &str) -> (res: Option<String>)
    ensures
        res is None == links_spec(text@) is None,
        res matches Some(s) ==> links_spec(text@) == Some(s@),
{
    if pattern_compiles(LINK_PATTERN) {
        Some(seperate_links(text))
    } else {
        None
    }
}

/// Whether the regex engine accepts a pattern.
pub fn pattern_compiles(pattern: &str) -> (res: bool)
    ensures
        res == regex_compiles(pattern@),
{
    regex_captures(pattern, "").is_some()
}

} // verus!
