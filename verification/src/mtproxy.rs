//! MTProxy proxies, shared as Telegram links:
//! `https://t.me/proxy?server=host&port=port&secret=secret`.

use vstd::prelude::*;
use crate::bindings::{
    regex_captures,
    regex_captures_of,
    regex_compiles,
    url_parses,
    url_query_pairs,
    url_query_pairs_of,
};
use crate::form::PairView;
use crate::link::{
    filter_map,
    kept_by,
    lemma_filter_map_len,
    lemma_filter_map_position,
    lemma_filter_map_push,
};
use crate::utils::{group, group_text, links_spec, seperate_links, try_seperate_links, CaptureView};
use crate::text::{decimal, parse_u32, parse_u32_spec, push_decimal, push_str, str_eq};

verus! {

/// The pattern of an MTProxy link: a URL whose path ends in `/proxy` with a
/// query of server, port and secret, as group 1.
pub const MTPROXY_PATTERN: &'static str = r#"(\w+:\/\/.*\/proxy\?((server=.+)|(port=.+)|(secret=([A-Fa-f0-9]+|[A-Za-z0-9+\/]+))))+"#;

/// An MTProxy proxy.
pub struct MTProxy {
    /// The host address of the MTProxy.
    pub host: String,
    /// The port number for the MTProxy.
    pub port: u32,
    /// The secret associated with the MTProxy.
    pub secret: String,
}

/// An MTProxy proxy, as characters.
pub struct MTProxyView {
    pub host: Seq<char>,
    pub port: u32,
    pub secret: Seq<char>,
}

impl View for MTProxy {
    type V = MTProxyView;

    open spec fn view(&self) -> MTProxyView {
        MTProxyView { host: self.host@, port: self.port, secret: self.secret@ }
    }
}

/// The Telegram link of an MTProxy proxy.
pub open spec fn mtproxy_url(m: MTProxyView) -> Seq<char> {
    "https://t.me/proxy?server="@ + m.host + "&port="@ + decimal(m.port as nat) + "&secret="@
        + m.secret
}

/// The value of the first pair with key `key`.
pub open spec fn first_value(pairs: Seq<PairView>, key: Seq<char>) -> Option<Seq<char>>
    decreases pairs.len(),
{
    if pairs.len() == 0 {
        None
    } else if pairs[0].0 == key {
        Some(pairs[0].1)
    } else {
        first_value(pairs.drop_first(), key)
    }
}

/// The proxy that query pairs describe: the first `server`, `port` and
/// `secret` values, all three needed; a port that does not parse is 443.
pub open spec fn mtproxy_from_pairs(pairs: Seq<PairView>) -> Option<MTProxyView> {
    match (
        first_value(pairs, "server"@),
        first_value(pairs, "port"@),
        first_value(pairs, "secret"@),
    ) {
        (Some(server), Some(port), Some(secret)) => Some(
            MTProxyView {
                host: server,
                port: match parse_u32_spec(port) {
                    Some(p) => p,
                    None => 443,
                },
                secret,
            },
        ),
        _ => None,
    }
}

/// Whether a match can be read: an empty group 1 is skipped, a non-empty
/// one must be a URL.
pub open spec fn capture_readable(cap: CaptureView) -> bool {
    group_text(cap, 1).len() > 0 ==> url_parses(group_text(cap, 1))
}

/// Whether every match can be read.
pub open spec fn captures_readable(caps: Seq<CaptureView>) -> bool {
    forall|i: int| 0 <= i < caps.len() ==> #[trigger] capture_readable(caps[i])
}

/// The proxy of one match: read from the query of the URL in group 1.
pub open spec fn mtproxy_from_capture(cap: CaptureView) -> Option<MTProxyView> {
    if group_text(cap, 1).len() == 0 {
        None
    } else {
        mtproxy_from_pairs(url_query_pairs_of(group_text(cap, 1)))
    }
}

/// The proxies of the matches, in order.
pub open spec fn mtproxies_from_captures(caps: Seq<CaptureView>) -> Seq<MTProxyView> {
    filter_map(caps, |c: CaptureView| mtproxy_from_capture(c))
}

/// Scraping keeps one proxy for every match that reads as one, in the order
/// of the matches: no match gives no proxies; a further match adds its proxy
/// at the end where it reads and nothing where it does not; there are as
/// many proxies as readable matches; and the proxy of a readable match comes
/// right after those of the readable matches before it.
pub proof fn lemma_mtproxy_one_per_readable_match(caps: Seq<CaptureView>, c: CaptureView, i: int)
    ensures
        mtproxies_from_captures(Seq::empty()) == Seq::<MTProxyView>::empty(),
        mtproxies_from_captures(caps.push(c)) == match mtproxy_from_capture(c) {
            Some(v) => mtproxies_from_captures(caps).push(v),
            None => mtproxies_from_captures(caps),
        },
        mtproxies_from_captures(caps).len() == caps.filter(|x: CaptureView| mtproxy_from_capture(x) is Some).len(),
        0 <= i < caps.len() && mtproxy_from_capture(caps[i]) is Some ==> mtproxies_from_captures(caps)[mtproxies_from_captures(
            caps.take(i),
        ).len() as int] == mtproxy_from_capture(caps[i])->0,
{
    let f = |x: CaptureView| mtproxy_from_capture(x);
    lemma_filter_map_push(caps, c, f);
    lemma_filter_map_len(caps, f);
    assert(kept_by(f) =~= |x: CaptureView| mtproxy_from_capture(x) is Some);
    if 0 <= i < caps.len() && mtproxy_from_capture(caps[i]) is Some {
        lemma_filter_map_position(caps, f, i);
    }
}

/// What scraping a text gives: the MTProxy proxies among its links, or
/// `None` where a pattern would be refused or a match is no URL.
pub open spec fn mtproxy_scrape_spec(source: Seq<char>) -> Option<Seq<MTProxyView>> {
    match links_spec(source) {
        Some(links) => if regex_compiles(MTPROXY_PATTERN@) && captures_readable(
            regex_captures_of(MTPROXY_PATTERN@, links),
        ) {
            Some(mtproxies_from_captures(regex_captures_of(MTPROXY_PATTERN@, links)))
        } else {
            None
        },
        None => None,
    }
}

/// The value of the first pair with key `key`.
fn find_value<'a>(pairs: &'a Vec<(String, String)>, key: &str) -> (res: Option<&'a String>)
    ensures
        res is None == first_value(pairs.deep_view(), key@) is None,
        res matches Some(v) ==> first_value(pairs.deep_view(), key@) == Some(v@),
{
    let mut i: usize = 0;
    assert(pairs.deep_view().skip(0) =~= pairs.deep_view());
    while i < pairs.len()
        invariant
            i <= pairs.len(),
            first_value(pairs.deep_view(), key@) == first_value(
                pairs.deep_view().skip(i as int),
                key@,
            ),
        decreases pairs.len() - i,
    {
        assert(pairs.deep_view().skip(i as int)[0] == pairs[i as int].deep_view());
        if str_eq(pairs[i].0.as_str(), key) {
            return Some(&pairs[i].1);
        }
        assert(pairs.deep_view().skip(i as int).drop_first() =~= pairs.deep_view().skip(i + 1));
        i = i + 1;
    }
    None
}

impl MTProxy {
    /// Writes the proxy as a Telegram link.
    pub fn to_url(&self) -> (res: String)
        ensures
            res@ == mtproxy_url(self@),
    {
        let mut s = String::new();
        push_str(&mut s, "https://t.me/proxy?server=");
        push_str(&mut s, self.host.as_str());
        push_str(&mut s, "&port=");
        push_decimal(&mut s, self.port);
        push_str(&mut s, "&secret=");
        push_str(&mut s, self.secret.as_str());
        s
    }

    /// The proxy that the query pairs of a link describe: the first
    /// `server`, `port` and `secret` values, `None` where one is missing; a
    /// port that does not parse is 443.
    pub fn from_query_pairs(pairs: &Vec<(String, String)>) -> (res: Option<MTProxy>)
        ensures
            res is None == mtproxy_from_pairs(pairs.deep_view()) is None,
            res matches Some(m) ==> mtproxy_from_pairs(pairs.deep_view()) == Some(m@),
    {
        let server = find_value(pairs, "server");
        let port = find_value(pairs, "port");
        let secret = find_value(pairs, "secret");
        match (server, port, secret) {
            (Some(server), Some(port), Some(secret)) => {
                let port: u32 = match parse_u32(port.as_str()) {
                    Some(p) => p,
                    None => 443,
                };
                Some(MTProxy { host: server.clone(), port, secret: secret.clone() })
            },
            _ => None,
        }
    }

    /// The proxies of the given matches of `MTPROXY_PATTERN`: the URL in
    /// group 1 of each match is parsed, and its query read.
    pub fn from_captures(caps: &Vec<Vec<Option<String>>>) -> (res: Vec<MTProxy>)
        requires
            captures_readable(caps.deep_view()),
        ensures
            res@.map_values(|m: MTProxy| m@) == mtproxies_from_captures(caps.deep_view()),
    {
        let mut res: Vec<MTProxy> = Vec::new();
        let mut i: usize = 0;
        assert(caps.deep_view().take(0) =~= Seq::<CaptureView>::empty());
        while i < caps.len()
            invariant
                i <= caps.len(),
                captures_readable(caps.deep_view()),
                res@.map_values(|m: MTProxy| m@) == mtproxies_from_captures(
                    caps.deep_view().take(i as int),
                ),
            decreases caps.len() - i,
        {
            let ghost before = res@;
            assert(caps.deep_view().take(i + 1).drop_last() =~= caps.deep_view().take(i as int));
            assert(caps.deep_view()[i as int] == caps[i as int].deep_view());
            assert(capture_readable(caps.deep_view()[i as int]));
            let proxy = group(&caps[i], 1);
            if !proxy.is_empty() {
                let pairs = url_query_pairs(proxy).unwrap();
                match MTProxy::from_query_pairs(&pairs) {
                    Some(m) => {
                        res.push(m);
                        assert(res@.map_values(|m: MTProxy| m@) =~= before.map_values(
                            |m: MTProxy| m@,
                        ).push(res@.last()@));
                    },
                    None => {},
                }
            }
            i = i + 1;
        }
        assert(caps.deep_view().take(caps.len() as int) =~= caps.deep_view());
        res
    }

    /// `from_captures`, or `None` where a non-empty group 1 is no URL.
    pub fn try_from_captures(caps: &Vec<Vec<Option<String>>>) -> (res: Option<Vec<MTProxy>>)
        ensures
            res is None == !captures_readable(caps.deep_view()),
            res matches Some(v) ==> v@.map_values(|m: MTProxy| m@) == mtproxies_from_captures(
                caps.deep_view(),
            ),
    {
        let mut i: usize = 0;
        while i < caps.len()
            invariant
                i <= caps.len(),
                forall|j: int| 0 <= j < i ==> #[trigger] capture_readable(caps.deep_view()[j]),
            decreases caps.len() - i,
        {
            assert(caps.deep_view()[i as int] == caps[i as int].deep_view());
            let proxy = group(&caps[i], 1);
            if !proxy.is_empty() && url_query_pairs(proxy).is_none() {
                assert(!capture_readable(caps.deep_view()[i as int]));
                return None;
            }
            i = i + 1;
        }
        Some(MTProxy::from_captures(caps))
    }

    /// Scrapes the MTProxy proxies out of a text: its links are separated,
    /// and the URL of each match of `MTPROXY_PATTERN` among them is read.
    pub fn scrape(source: &str) -> (res: Vec<MTProxy>)
        requires
            mtproxy_scrape_spec(source@) is Some,
        ensures
            mtproxy_scrape_spec(source@) == Some(res@.map_values(|m: MTProxy| m@)),
    {
        let links = seperate_links(source);
        let caps = regex_captures(MTPROXY_PATTERN, links.as_str()).unwrap();
        MTProxy::from_captures(&caps)
    }

    /// `scrape`, or `None` where a pattern is refused or a match is no URL.
    pub fn try_scrape(source: &str) -> (res: Option<Vec<MTProxy>>)
        ensures
            res is None == mtproxy_scrape_spec(source@) is None,
            res matches Some(v) ==> mtproxy_scrape_spec(source@) == Some(
                v@.map_values(|m: MTProxy| m@),
            ),
    {
        let links = try_seperate_links(source)?;
        let caps = regex_captures(MTPROXY_PATTERN, links.as_str())?;
        match MTProxy::try_from_captures(&caps) {
            Some(_) => Some(MTProxy::scrape(source)),
            None => None,
        }
    }
}

/// Reading back a written link: the query pairs that a link writes,
/// `server`, `port` and `secret` in this order, describe the proxy again.
pub proof fn lemma_query_pairs_read_back(m: MTProxyView)
    ensures
        mtproxy_from_pairs(
            seq![
                ("server"@, m.host),
                ("port"@, decimal(m.port as nat)),
                ("secret"@, m.secret),
            ],
        ) == Some(m),
{
    reveal_strlit("server");
    reveal_strlit("port");
    reveal_strlit("secret");
    let pairs: Seq<PairView> = seq![
        ("server"@, m.host),
        ("port"@, decimal(m.port as nat)),
        ("secret"@, m.secret),
    ];
    crate::text::lemma_parse_decimal_roundtrip(m.port);
    assert(pairs.drop_first()[0].0 == "port"@);
    assert(pairs.drop_first().drop_first()[0].0 == "secret"@);
    assert("port"@.len() != "server"@.len());
    assert("secret"@.len() != "port"@.len());
    assert("secret"@[2] != "server"@[2]);
    let p1 = pairs.drop_first();
    let p2 = p1.drop_first();
    assert(first_value(pairs, "server"@) == Some(m.host));
    assert(first_value(p1, "port"@) == Some(decimal(m.port as nat)));
    assert(first_value(pairs, "port"@) == Some(decimal(m.port as nat)));
    assert(first_value(p2, "secret"@) == Some(m.secret));
    assert(first_value(p1, "secret"@) == Some(m.secret));
    assert(first_value(pairs, "secret"@) == Some(m.secret));
}

} // verus!
