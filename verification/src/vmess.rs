//! VMess links: `vmess://` followed by the base64 of a JSON description of
//! the proxy. The JSON itself is read and written by the application; this
//! module frames and checks the bytes.

use vstd::prelude::*;
use vstd::utf8::{decode_utf8, valid_utf8};
use crate::b64::{base64_url_decode, base64_url_encode, decode_base64};
use crate::bindings::{
    base64_encode,
    regex_captures,
    regex_captures_of,
    regex_compiles,
    string_from_utf8,
};
use crate::link::{
    filter_map,
    kept_by,
    lemma_filter_map_len,
    lemma_filter_map_position,
    lemma_filter_map_push,
};
use crate::utils::{
    group,
    group_text,
    links_spec,
    pattern_compiles,
    seperate_links,
    CaptureView,
    LINK_PATTERN,
};
use crate::text::push_str;

verus! {

/// The pattern of a VMess link: the base64 payload in group 1.
pub const VMESS_PATTERN: &'static str = r#"vmess://((?:[A-Za-z0-9+/]{4})*(?:[A-Za-z0-9+/]{2}==|[A-Za-z0-9+/]{3}=)?)"#;

/// The link of a JSON description: `vmess://` and its base64 encoding.
pub open spec fn vmess_url(json: Seq<u8>) -> Seq<char> {
    "vmess://"@ + base64_url_encode(json)
}

/// The JSON text of one match: its payload decoded from base64 as UTF-8
/// text, or `None` where the payload is empty, is not base64 or does not
/// decode to UTF-8.
pub open spec fn payload_of_capture(cap: CaptureView) -> Option<Seq<char>> {
    let b64 = group_text(cap, 1);
    if b64.len() == 0 {
        None
    } else {
        match base64_url_decode(b64) {
            Some(bytes) => if valid_utf8(bytes) {
                Some(decode_utf8(bytes))
            } else {
                None
            },
            None => None,
        }
    }
}

/// The JSON texts of the matches, in order.
pub open spec fn payloads_of_captures(caps: Seq<CaptureView>) -> Seq<Seq<char>> {
    filter_map(caps, |c: CaptureView| payload_of_capture(c))
}

/// Scraping keeps one payload for every match that reads as one, in the order
/// of the matches: no match gives no payloads; a further match adds its payload
/// at the end where it reads and nothing where it does not; there are as
/// many payloads as readable matches; and the payload of a readable match comes
/// right after those of the readable matches before it.
pub proof fn lemma_payload_one_per_readable_match(caps: Seq<CaptureView>, c: CaptureView, i: int)
    ensures
        payloads_of_captures(Seq::empty()) == Seq::<Seq<char>>::empty(),
        payloads_of_captures(caps.push(c)) == match payload_of_capture(c) {
            Some(v) => payloads_of_captures(caps).push(v),
            None => payloads_of_captures(caps),
        },
        payloads_of_captures(caps).len() == caps.filter(|x: CaptureView| payload_of_capture(x) is Some).len(),
        0 <= i < caps.len() && payload_of_capture(caps[i]) is Some ==> payloads_of_captures(caps)[payloads_of_captures(
            caps.take(i),
        ).len() as int] == payload_of_capture(caps[i])->0,
{
    let f = |x: CaptureView| payload_of_capture(x);
    lemma_filter_map_push(caps, c, f);
    lemma_filter_map_len(caps, f);
    assert(kept_by(f) =~= |x: CaptureView| payload_of_capture(x) is Some);
    if 0 <= i < caps.len() && payload_of_capture(caps[i]) is Some {
        lemma_filter_map_position(caps, f, i);
    }
}

/// What scraping a text gives: the JSON texts of the VMess links among its
/// links, or `None` where a pattern would be refused.
pub open spec fn vmess_scrape_spec(source: Seq<char>) -> Option<Seq<Seq<char>>> {
    match links_spec(source) {
        Some(links) => if regex_compiles(VMESS_PATTERN@) {
            Some(payloads_of_captures(regex_captures_of(VMESS_PATTERN@, links)))
        } else {
            None
        },
        None => None,
    }
}

/// Writes the link of a JSON description.
pub fn url_from_json(json: &[u8]) -> (res: String)
    ensures
        res@ == vmess_url(json@),
{
    let encoded = base64_encode(json);
    let mut s = String::new();
    push_str(&mut s, "vmess://");
    push_str(&mut s, encoded.as_str());
    s
}

/// Reads one match: `None` where it gives no payload.
fn read_capture(cap: &Vec<Option<String>>) -> (res: Option<String>)
    ensures
        match res {
            Some(s) => payload_of_capture(cap.deep_view()) == Some(s@),
            None => payload_of_capture(cap.deep_view()) is None,
        },
{
    let b64 = group(cap, 1);
    if b64.is_empty() {
        return None;
    }
    match decode_base64(b64) {
        Some(bytes) => string_from_utf8(bytes),
        None => None,
    }
}

/// The JSON texts of the given matches of `VMESS_PATTERN`: the payload of
/// each match, where it is not empty and decodes from base64 to UTF-8 text.
pub fn payloads_from_captures(caps: &Vec<Vec<Option<String>>>) -> (res: Vec<String>)
    ensures
        res.deep_view() == payloads_of_captures(caps.deep_view()),
{
    let mut res: Vec<String> = Vec::new();
    let mut i: usize = 0;
    assert(caps.deep_view().take(0) =~= Seq::<CaptureView>::empty());
    while i < caps.len()
        invariant
            i <= caps.len(),
            res.deep_view() == payloads_of_captures(caps.deep_view().take(i as int)),
        decreases caps.len() - i,
    {
        let ghost before = res.deep_view();
        assert(caps.deep_view().take(i + 1).drop_last() =~= caps.deep_view().take(i as int));
        assert(caps.deep_view()[i as int] == caps[i as int].deep_view());
        match read_capture(&caps[i]) {
            Some(p) => {
                res.push(p);
                assert(res.deep_view() =~= before.push(res.deep_view().last()));
            },
            None => {},
        }
        i = i + 1;
    }
    assert(caps.deep_view().take(caps.len() as int) =~= caps.deep_view());
    res
}

/// Scrapes the JSON descriptions of the VMess links out of a text.
pub fn scrape_payloads(source: &str) -> (res: Vec<String>)
    requires
        vmess_scrape_spec(source@) is Some,
    ensures
        vmess_scrape_spec(source@) == Some(res.deep_view()),
{
    let links = seperate_links(source);
    let caps = regex_captures(VMESS_PATTERN, links.as_str()).unwrap();
    payloads_from_captures(&caps)
}

/// `scrape_payloads`, or `None` where a pattern is refused.
pub fn try_scrape_payloads(source: &str) -> (res: Option<Vec<String>>)
    ensures
        res is None == vmess_scrape_spec(source@) is None,
        res matches Some(v) ==> vmess_scrape_spec(source@) == Some(v.deep_view()),
{
    if pattern_compiles(LINK_PATTERN) && pattern_compiles(VMESS_PATTERN) {
        Some(scrape_payloads(source))
    } else {
        None
    }
}

/// Reading back a written link: the payload of the link of a JSON text is
/// that text again.
pub proof fn lemma_payload_read_back(json: Seq<char>, whole: Seq<char>)
    ensures
        ({
            let cap = seq![Some(whole), Some(base64_url_encode(vstd::utf8::encode_utf8(json)))];
            json.len() > 0 ==> payload_of_capture(cap) == Some(json)
        }),
{
    let bytes = vstd::utf8::encode_utf8(json);
    crate::b64::lemma_base64_roundtrip(bytes);
    vstd::utf8::encode_utf8_decode_utf8(json);
    vstd::utf8::encode_utf8_valid_utf8(json);
    if json.len() > 0 {
        assert(bytes.len() > 0) by {
            if bytes.len() == 0 {
                assert(vstd::utf8::decode_utf8(bytes).len() == 0);
            }
        }
        crate::b64::lemma_base64_encode_nonempty(bytes);
    }
}

} // verus!
