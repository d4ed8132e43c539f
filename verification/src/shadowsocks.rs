//! Shadowsocks proxies: `ss://BASE64(method:password)@host:port`.

use vstd::prelude::*;
use vstd::utf8::{decode_utf8, encode_utf8, valid_utf8};
use crate::b64::{base64_url_decode, base64_url_encode, decode_base64};
use crate::bindings::{
    base64_encode,
    regex_captures,
    regex_captures_of,
    regex_compiles,
    string_from_utf8,
};
use crate::link::{
    filter_map,
    kept_by,
    lemma_filter_map_len,
    lemma_filter_map_position,
    lemma_filter_map_push,
};
use crate::utils::{
    group,
    group_or,
    group_or_else,
    group_text,
    links_spec,
    seperate_links,
    pattern_compiles,
    LINK_PATTERN,
    CaptureView,
};
use crate::text::{chars_of, decimal, parse_u32, parse_u32_spec, push_chars, push_decimal, push_str};

verus! {

/// The pattern of a Shadowsocks link: the base64 user information in
/// group 1, the host in group 3 and the port in group 4.
pub const SHADOWSOCKS_PATTERN: &'static str = r#"ss://((?:[A-Za-z0-9+/]{4})*(?:[A-Za-z0-9+/]{2}==|[A-Za-z0-9+/]{3}=)?)@((.+):(\d+))#"#;

/// A Shadowsocks proxy.
pub struct Shadowsocks {
    /// The host address of the Shadowsocks proxy.
    pub host: String,
    /// The port number for the Shadowsocks proxy.
    pub port: u32,
    /// The password associated with the Shadowsocks proxy.
    pub password: String,
    /// The encryption method used by the Shadowsocks proxy.
    pub method: String,
}

/// A Shadowsocks proxy, as characters.
pub struct ShadowsocksView {
    pub host: Seq<char>,
    pub port: u32,
    pub password: Seq<char>,
    pub method: Seq<char>,
}

impl View for Shadowsocks {
    type V = ShadowsocksView;

    open spec fn view(&self) -> ShadowsocksView {
        ShadowsocksView {
            host: self.host@,
            port: self.port,
            password: self.password@,
            method: self.method@,
        }
    }
}

/// The user information of a Shadowsocks URL: `method:password`.
pub open spec fn user_info(v: ShadowsocksView) -> Seq<char> {
    v.method + ":"@ + v.password
}

/// The URL of a Shadowsocks proxy: the user information is base64-encoded.
pub open spec fn shadowsocks_url(v: ShadowsocksView) -> Seq<char> {
    "ss://"@ + base64_url_encode(encode_utf8(user_info(v))) + "@"@ + v.host + ":"@ + decimal(
        v.port as nat,
    )
}

/// The position of the first `c` in `s`, or the length of `s` where there
/// is none.
pub open spec fn field_end(s: Seq<char>, c: char) -> int
    decreases s.len(),
{
    if s.len() == 0 {
        0
    } else if s[0] == c {
        0
    } else {
        1 + field_end(s.drop_first(), c)
    }
}

/// The first field of `s` split at `:`.
pub open spec fn first_field(s: Seq<char>) -> Seq<char> {
    s.take(field_end(s, ':'))
}

/// The second field of `s` split at `:`: what follows the first `:`, up to
/// the next one.
pub open spec fn second_field(s: Seq<char>) -> Seq<char> {
    let rest = s.skip(field_end(s, ':') + 1);
    rest.take(field_end(rest, ':'))
}

/// The port of a match: group 4, or `0` where it did not take part.
pub open spec fn port_text(cap: CaptureView) -> Seq<char> {
    group_or(cap, 4, "0"@)
}

/// Whether a match is skipped: its user information or host is empty, or
/// its port is 0.
pub open spec fn skipped(cap: CaptureView) -> bool {
    group_text(cap, 1).len() == 0 || group_text(cap, 3).len() == 0 || parse_u32_spec(
        port_text(cap),
    ) == Some(0u32)
}

/// Whether a match can be read: its port parses, and unless it is skipped,
/// its user information is base64 of UTF-8 text that holds a `:`.
pub open spec fn capture_readable(cap: CaptureView) -> bool {
    parse_u32_spec(port_text(cap)) is Some && (skipped(cap) || match base64_url_decode(
        group_text(cap, 1),
    ) {
        Some(bytes) => valid_utf8(bytes) && field_end(decode_utf8(bytes), ':') < decode_utf8(
            bytes,
        ).len(),
        None => false,
    })
}

/// The Shadowsocks proxy of a match, or `None` where it is skipped or
/// cannot be read.
pub open spec fn shadowsocks_from_capture(cap: CaptureView) -> Option<ShadowsocksView> {
    if skipped(cap) || !capture_readable(cap) {
        None
    } else {
        let text = decode_utf8(base64_url_decode(group_text(cap, 1)).unwrap());
        Some(
            ShadowsocksView {
                host: group_text(cap, 3),
                port: parse_u32_spec(port_text(cap)).unwrap(),
                password: second_field(text),
                method: first_field(text),
            },
        )
    }
}

/// The Shadowsocks proxies of the matches, in order.
pub open spec fn shadowsockses_from_captures(caps: Seq<CaptureView>) -> Seq<ShadowsocksView> {
    filter_map(caps, |c: CaptureView| shadowsocks_from_capture(c))
}

/// Scraping keeps one proxy for every match that reads as one, in the order
/// of the matches: no match gives no proxies; a further match adds its proxy
/// at the end where it reads and nothing where it does not; there are as
/// many proxies as readable matches; and the proxy of a readable match comes
/// right after those of the readable matches before it.
pub proof fn lemma_shadowsocks_one_per_readable_match(caps: Seq<CaptureView>, c: CaptureView, i: int)
    ensures
        shadowsockses_from_captures(Seq::empty()) == Seq::<ShadowsocksView>::empty(),
        shadowsockses_from_captures(caps.push(c)) == match shadowsocks_from_capture(c) {
            Some(v) => shadowsockses_from_captures(caps).push(v),
            None => shadowsockses_from_captures(caps),
        },
        shadowsockses_from_captures(caps).len() == caps.filter(|x: CaptureView| shadowsocks_from_capture(x) is Some).len(),
        0 <= i < caps.len() && shadowsocks_from_capture(caps[i]) is Some ==> shadowsockses_from_captures(caps)[shadowsockses_from_captures(
            caps.take(i),
        ).len() as int] == shadowsocks_from_capture(caps[i])->0,
{
    let f = |x: CaptureView| shadowsocks_from_capture(x);
    lemma_filter_map_push(caps, c, f);
    lemma_filter_map_len(caps, f);
    assert(kept_by(f) =~= |x: CaptureView| shadowsocks_from_capture(x) is Some);
    if 0 <= i < caps.len() && shadowsocks_from_capture(caps[i]) is Some {
        lemma_filter_map_position(caps, f, i);
    }
}

/// What scraping a text gives: the Shadowsocks proxies among its links, or
/// `None` where a pattern would be refused.
pub open spec fn shadowsocks_scrape_spec(source: Seq<char>) -> Option<Seq<ShadowsocksView>> {
    match links_spec(source) {
        Some(links) => if regex_compiles(SHADOWSOCKS_PATTERN@) {
            Some(shadowsockses_from_captures(regex_captures_of(SHADOWSOCKS_PATTERN@, links)))
        } else {
            None
        },
        None => None,
    }
}

/// The position of the first `c` in `cs` from position `from` on, or the
/// length of `cs`.
fn find_char(cs: &Vec<char>, from: usize, c: char) -> (res: usize)
    requires
        from <= cs.len(),
    ensures
        res == from + field_end(cs@.skip(from as int), c),
        res <= cs.len(),
{
    let mut i: usize = from;
    while i < cs.len()
        invariant
            from <= i <= cs.len(),
            from + field_end(cs@.skip(from as int), c) == i + field_end(cs@.skip(i as int), c),
        decreases cs.len() - i,
    {
        if cs[i] == c {
            return i;
        }
        assert(cs@.skip(i as int).drop_first() =~= cs@.skip(i + 1));
        i = i + 1;
    }
    i
}

proof fn lemma_field_end_bound(s: Seq<char>, c: char)
    ensures
        0 <= field_end(s, c) <= s.len(),
        field_end(s, c) < s.len() ==> s[field_end(s, c)] == c,
        forall|j: int| 0 <= j < field_end(s, c) ==> s[j] != c,
    decreases s.len(),
{
    if s.len() > 0 && s[0] != c {
        lemma_field_end_bound(s.drop_first(), c);
        assert forall|j: int| 0 <= j < field_end(s, c) implies s[j] != c by {
            if j > 0 {
                assert(s[j] == s.drop_first()[j - 1]);
            }
        }
    }
}

/// Reads one match: `None` where it is skipped or cannot be read.
fn read_capture(cap: &Vec<Option<String>>) -> (res: Option<Shadowsocks>)
    ensures
        match res {
            Some(s) => shadowsocks_from_capture(cap.deep_view()) == Some(s@),
            None => shadowsocks_from_capture(cap.deep_view()) is None,
        },
{
    proof {
        reveal_strlit("0");
    }
    let b64 = group(cap, 1);
    let host = group(cap, 3);
    let port_text = group_or_else(cap, 4, "0");
    let port = match parse_u32(port_text) {
        Some(p) => p,
        None => return None,
    };
    if b64.is_empty() || host.is_empty() || port == 0 {
        return None;
    }
    let bytes = match decode_base64(b64) {
        Some(b) => b,
        None => return None,
    };
    let ghost bv = bytes@;
    let text = match string_from_utf8(bytes) {
        Some(t) => t,
        None => return None,
    };
    let cs = chars_of(text.as_str());
    proof {
        lemma_field_end_bound(cs@, ':');
        assert(cs@.skip(0) =~= cs@);
    }
    let first_end = find_char(&cs, 0, ':');
    if first_end == cs.len() {
        return None;
    }
    proof {
        lemma_field_end_bound(cs@.skip(first_end + 1), ':');
    }
    let second_end = find_char(&cs, first_end + 1, ':');
    let mut method = String::new();
    push_chars(&mut method, &cs, 0, first_end);
    let mut password = String::new();
    push_chars(&mut password, &cs, first_end + 1, second_end);
    proof {
        let rest = cs@.skip(first_end + 1);
        lemma_field_end_bound(rest, ':');
        assert(cs@.subrange(first_end + 1, second_end as int) =~= rest.take(field_end(rest, ':')));
        assert(cs@.subrange(0, first_end as int) =~= cs@.take(field_end(cs@, ':')));
    }
    Some(Shadowsocks { host: host.to_owned(), port, password, method })
}

impl Shadowsocks {
    /// Writes the proxy as a URL: `method:password` is base64-encoded.
    pub fn to_url(&self) -> (res: String)
        ensures
            res@ == shadowsocks_url(self@),
    {
        let mut info = String::new();
        push_str(&mut info, self.method.as_str());
        push_str(&mut info, ":");
        push_str(&mut info, self.password.as_str());
        let encoded = base64_encode(info.as_str().as_bytes());
        let mut s = String::new();
        push_str(&mut s, "ss://");
        push_str(&mut s, encoded.as_str());
        push_str(&mut s, "@");
        push_str(&mut s, self.host.as_str());
        push_str(&mut s, ":");
        push_decimal(&mut s, self.port);
        s
    }

    /// The Shadowsocks proxies of the given matches of
    /// `SHADOWSOCKS_PATTERN`: one for each match whose user information and
    /// host are not empty, whose port parses and is not 0, and whose user
    /// information decodes from base64 to UTF-8 text holding a `:`. That text
    /// is split at `:` into method and password. Other matches are skipped.
    pub fn from_captures(caps: &Vec<Vec<Option<String>>>) -> (res: Vec<Shadowsocks>)
        ensures
            res@.map_values(|s: Shadowsocks| s@) == shadowsockses_from_captures(caps.deep_view()),
    {
        let mut res: Vec<Shadowsocks> = Vec::new();
        let mut i: usize = 0;
        assert(caps.deep_view().take(0) =~= Seq::<CaptureView>::empty());
        while i < caps.len()
            invariant
                i <= caps.len(),
                res@.map_values(|s: Shadowsocks| s@) == shadowsockses_from_captures(
                    caps.deep_view().take(i as int),
                ),
            decreases caps.len() - i,
        {
            let ghost before = res@;
            assert(caps.deep_view().take(i + 1).drop_last() =~= caps.deep_view().take(i as int));
            assert(caps.deep_view()[i as int] == caps[i as int].deep_view());
            match read_capture(&caps[i]) {
                Some(p) => {
                    res.push(p);
                    assert(res@.map_values(|s: Shadowsocks| s@) =~= before.map_values(
                        |s: Shadowsocks| s@,
                    ).push(res@.last()@));
                },
                None => {},
            }
            i = i + 1;
        }
        assert(caps.deep_view().take(caps.len() as int) =~= caps.deep_view());
        res
    }

    /// Scrapes the Shadowsocks proxies out of a text: its links are
    /// separated, and each match of `SHADOWSOCKS_PATTERN` among them that can
    /// be read gives a proxy.
    pub fn scrape(source: &str) -> (res: Vec<Shadowsocks>)
        requires
            shadowsocks_scrape_spec(source@) is Some,
        ensures
            shadowsocks_scrape_spec(source@) == Some(res@.map_values(|s: Shadowsocks| s@)),
    {
        let links = seperate_links(source);
        let caps = regex_captures(SHADOWSOCKS_PATTERN, links.as_str()).unwrap();
        Shadowsocks::from_captures(&caps)
    }

    /// `scrape`, or `None` where a pattern is refused.
    pub fn try_scrape(source: &str) -> (res: Option<Vec<Shadowsocks>>)
        ensures
            res is None == shadowsocks_scrape_spec(source@) is None,
            res matches Some(v) ==> shadowsocks_scrape_spec(source@) == Some(
                v@.map_values(|s: Shadowsocks| s@),
            ),
    {
        if pattern_compiles(LINK_PATTERN) && pattern_compiles(SHADOWSOCKS_PATTERN) {
            Some(Shadowsocks::scrape(source))
        } else {
            None
        }
    }
}

proof fn lemma_field_end_concat(a: Seq<char>, b: Seq<char>, c: char)
    requires
        !a.contains(c),
    ensures
        field_end(a + seq![c] + b, c) == a.len(),
    decreases a.len(),
{
    if a.len() > 0 {
        assert((a + seq![c] + b).drop_first() =~= a.drop_first() + seq![c] + b);
        assert(!a.drop_first().contains(c)) by {
            if a.drop_first().contains(c) {
                let j = choose|j: int| 0 <= j < a.drop_first().len() && a.drop_first()[j] == c;
                assert(a[j + 1] == c);
            }
        }
        assert(a[0] != c);
        lemma_field_end_concat(a.drop_first(), b, c);
    }
}

proof fn lemma_field_end_whole(a: Seq<char>, c: char)
    requires
        !a.contains(c),
    ensures
        field_end(a, c) == a.len(),
    decreases a.len(),
{
    if a.len() > 0 {
        assert(!a.drop_first().contains(c)) by {
            if a.drop_first().contains(c) {
                let j = choose|j: int| 0 <= j < a.drop_first().len() && a.drop_first()[j] == c;
                assert(a[j + 1] == c);
            }
        }
        assert(a[0] != c);
        lemma_field_end_whole(a.drop_first(), c);
    }
}

/// Reading back a written URL: the match that `SHADOWSOCKS_PATTERN` gives
/// for the parts of the URL of a proxy (its base64 user information, host
/// and port) reads back as that proxy, provided neither method nor password
/// holds a `:`, the host is not empty and the port is not 0.
pub proof fn lemma_url_parts_read_back(v: ShadowsocksView, whole: Seq<char>, host_port: Seq<char>)
    requires
        !v.method.contains(':'),
        !v.password.contains(':'),
        v.host.len() > 0,
        v.port != 0,
    ensures
        ({
            let cap = seq![
                Some(whole),
                Some(base64_url_encode(encode_utf8(user_info(v)))),
                Some(host_port),
                Some(v.host),
                Some(decimal(v.port as nat)),
            ];
            capture_readable(cap) && shadowsocks_from_capture(cap) == Some(v)
        }),
{
    let info = user_info(v);
    let b64 = base64_url_encode(encode_utf8(info));
    let cap: CaptureView = seq![
        Some(whole),
        Some(b64),
        Some(host_port),
        Some(v.host),
        Some(decimal(v.port as nat)),
    ];
    reveal_strlit(":");
    crate::text::lemma_parse_decimal_roundtrip(v.port);
    crate::b64::lemma_base64_roundtrip(encode_utf8(info));
    vstd::utf8::encode_utf8_decode_utf8(info);
    vstd::utf8::encode_utf8_valid_utf8(info);
    assert(group_text(cap, 1) == b64);
    assert(group_text(cap, 3) == v.host);
    assert(port_text(cap) == decimal(v.port as nat));
    assert(b64.len() > 0) by {
        assert(info.len() > 0);
        assert(encode_utf8(info).len() > 0) by {
            if encode_utf8(info).len() == 0 {
                assert(decode_utf8(encode_utf8(info)).len() == 0);
            }
        }
        assert(b64.len() >= 4) by {
            crate::b64::lemma_base64_encode_nonempty(encode_utf8(info));
        }
    }
    assert(info =~= v.method + seq![':'] + v.password);
    lemma_field_end_concat(v.method, v.password, ':');
    let rest = info.skip(v.method.len() as int + 1);
    assert(rest =~= v.password);
    lemma_field_end_whole(v.password, ':');
    assert(first_field(info) =~= v.method);
    assert(second_field(info) =~= v.password);
}

} // verus!
