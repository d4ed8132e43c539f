//! Hysteria proxies: `hysteria://auth@host:port?parameters` for version 1,
//! `hy2://auth@host:port?parameters` for version 2.

use vstd::prelude::*;
use crate::bindings::{
    form_encode,
    form_pairs_of,
    regex_captures,
    regex_captures_of,
    regex_compiles,
};
use crate::form::{
    entries_from_pairs,
    keys_distinct,
    lemma_entries_from_distinct_pairs,
    PairView,
    Params,
};
use crate::link::{
    kept_by,
    lemma_filter_map_len,
    lemma_filter_map_position,
    lemma_filter_map_push,
    authority_url,
    filter_map,
    lemma_link_parts_read_back,
    link_parts,
    optional_query,
    read_link_parts,
    write_authority_url,
};
use crate::utils::{group, group_text, links_spec, seperate_links, pattern_compiles, LINK_PATTERN, CaptureView};
use crate::proxy::{dedup, dedup_spec, lemma_dedup_len, pretty_url, Proxy};
use crate::text::{decimal, str_eq};

verus! {

/// The pattern of a Hysteria link: the scheme in group 1, the
/// authentication in group 2, the host in group 4, the port in group 5 and
/// the parameters in group 6.
pub const HYSTERIA_PATTERN: &'static str = r#"(hy2|hysteria2|hysteria)://([A-Za-z0-9\-._~]+)@((.+):(\d+))\?(.+)#"#;

/// A Hysteria proxy.
pub struct Hysteria {
    /// The version of the Hysteria protocol.
    pub version: u8,
    /// The host address of the Hysteria proxy.
    pub host: String,
    /// The port number for the Hysteria proxy.
    pub port: u32,
    /// The authentication string associated with the Hysteria proxy.
    pub auth: String,
    /// Additional parameters associated with the Hysteria proxy.
    pub parameters: Option<Params>,
}

/// A Hysteria proxy, as characters.
pub struct HysteriaView {
    pub version: u8,
    pub host: Seq<char>,
    pub port: u32,
    pub auth: Seq<char>,
    pub parameters: Option<Seq<PairView>>,
}

impl View for Hysteria {
    type V = HysteriaView;

    open spec fn view(&self) -> HysteriaView {
        HysteriaView {
            version: self.version,
            host: self.host@,
            port: self.port,
            auth: self.auth@,
            parameters: match self.parameters {
                Some(p) => Some(p@),
                None => None,
            },
        }
    }
}

/// The scheme of a Hysteria URL: `hysteria` for version 1, `hy2` otherwise.
pub open spec fn hysteria_scheme(version: u8) -> Seq<char> {
    if version == 1 {
        "hysteria"@
    } else {
        "hy2"@
    }
}

/// The type of a Hysteria proxy: `HYSTERIA1` for version 1, `HYSTERIA2`
/// otherwise.
pub open spec fn hysteria_type(version: u8) -> Seq<char> {
    if version == 1 {
        "HYSTERIA1"@
    } else {
        "HYSTERIA2"@
    }
}

/// The URL of a Hysteria proxy.
pub open spec fn hysteria_url(h: HysteriaView) -> Seq<char> {
    authority_url(hysteria_scheme(h.version), h.auth, h.host, h.port, optional_query(h.parameters))
}

/// The descriptive URL of a Hysteria proxy.
pub open spec fn hysteria_pretty(h: HysteriaView) -> Seq<char> {
    pretty_url(hysteria_url(h), hysteria_type(h.version), "TCP"@, "TLS"@, h.host, h.port)
}

/// The descriptive URL of a Hysteria proxy is what `to_url_pretty` writes
/// for it: its URL, then `#`, its type (`HYSTERIA1` or `HYSTERIA2`),
/// `-TCP-TLS%20`, its host, `:` and its port.
pub proof fn lemma_hysteria_pretty_describes(h: Hysteria)
    ensures
        hysteria_pretty(h@) == pretty_url(
            h.url_view(),
            h.type_view(),
            h.network_view(),
            h.security_view(),
            h.host_view(),
            h.port_view(),
        ),
        hysteria_pretty(h@) == hysteria_url(h@) + "#"@ + hysteria_type(h.version) + "-TCP-TLS%20"@
            + h.host@ + ":"@ + decimal(h.port as nat),
{
    reveal_strlit("HYSTERIA1");
    reveal_strlit("HYSTERIA2");
    reveal_strlit("MTPROXY");
    reveal_strlit("VMESS");
    reveal_strlit("#");
    reveal_strlit("-");
    reveal_strlit("TCP");
    reveal_strlit("TLS");
    reveal_strlit("%20");
    reveal_strlit("-TCP-TLS%20");
    assert(hysteria_type(h.version).len() == 9);
    assert(hysteria_type(h.version) != "MTPROXY"@);
    assert(hysteria_type(h.version) != "VMESS"@);
    assert(hysteria_pretty(h@) =~= hysteria_url(h@) + "#"@ + hysteria_type(h.version)
        + "-TCP-TLS%20"@ + h.host@ + ":"@ + decimal(h.port as nat));
}

/// The protocol version that a link scheme stands for: 2 for `hy2` and
/// `hysteria2`, 1 otherwise.
pub open spec fn version_of_scheme(scheme: Seq<char>) -> u8 {
    if scheme == "hy2"@ || scheme == "hysteria2"@ {
        2
    } else {
        1
    }
}

/// The Hysteria proxy of one match, or `None` where a group is empty.
pub open spec fn hysteria_from_capture(cap: CaptureView) -> Option<HysteriaView> {
    let scheme = group_text(cap, 1);
    if scheme.len() == 0 {
        None
    } else {
        match link_parts(cap, 2, 4, 5, 6) {
            Some(p) => Some(
                HysteriaView {
                    version: version_of_scheme(scheme),
                    host: p.host,
                    port: p.port,
                    auth: p.user,
                    parameters: Some(p.params),
                },
            ),
            None => None,
        }
    }
}

/// The Hysteria proxies of the matches, in order.
pub open spec fn hysterias_from_captures(caps: Seq<CaptureView>) -> Seq<HysteriaView> {
    filter_map(caps, |c: CaptureView| hysteria_from_capture(c))
}

/// Scraping keeps one proxy for every match that reads as one, in the order
/// of the matches: no match gives no proxies; a further match adds its proxy
/// at the end where it reads and nothing where it does not; there are as
/// many proxies as readable matches; and the proxy of a readable match comes
/// right after those of the readable matches before it.
pub proof fn lemma_hysteria_one_per_readable_match(caps: Seq<CaptureView>, c: CaptureView, i: int)
    ensures
        hysterias_from_captures(Seq::empty()) == Seq::<HysteriaView>::empty(),
        hysterias_from_captures(caps.push(c)) == match hysteria_from_capture(c) {
            Some(v) => hysterias_from_captures(caps).push(v),
            None => hysterias_from_captures(caps),
        },
        hysterias_from_captures(caps).len() == caps.filter(|x: CaptureView| hysteria_from_capture(x) is Some).len(),
        0 <= i < caps.len() && hysteria_from_capture(caps[i]) is Some ==> hysterias_from_captures(caps)[hysterias_from_captures(
            caps.take(i),
        ).len() as int] == hysteria_from_capture(caps[i])->0,
{
    let f = |x: CaptureView| hysteria_from_capture(x);
    lemma_filter_map_push(caps, c, f);
    lemma_filter_map_len(caps, f);
    assert(kept_by(f) =~= |x: CaptureView| hysteria_from_capture(x) is Some);
    if 0 <= i < caps.len() && hysteria_from_capture(caps[i]) is Some {
        lemma_filter_map_position(caps, f, i);
    }
}

/// What scraping a text gives: the Hysteria proxies among its links, or
/// `None` where a pattern would be refused.
pub open spec fn hysteria_scrape_spec(source: Seq<char>) -> Option<Seq<HysteriaView>> {
    match links_spec(source) {
        Some(links) => if regex_compiles(HYSTERIA_PATTERN@) {
            Some(hysterias_from_captures(regex_captures_of(HYSTERIA_PATTERN@, links)))
        } else {
            None
        },
        None => None,
    }
}

/// The protocol version that a link scheme stands for.
pub fn version_from_scheme(scheme: &str) -> (res: u8)
    ensures
        res == version_of_scheme(scheme@),
{
    if str_eq(scheme, "hy2") || str_eq(scheme, "hysteria2") {
        2
    } else {
        1
    }
}

/// Reading back a written link: a match whose groups hold the scheme,
/// authentication, host, decimal port and query that a link of version 1
/// or 2 writes gives these back, the query decoded into parameters; where
/// decoding the query gives back the written parameters, the match gives
/// back the whole proxy.
pub proof fn lemma_hysteria_read_back(
    h: HysteriaView,
    e: Seq<PairView>,
    cap: CaptureView,
    query: Seq<char>,
)
    requires
        h.version == 1 || h.version == 2,
        cap.len() > 6,
        cap[1] == Some(hysteria_scheme(h.version)),
        cap[2] == Some(h.auth),
        cap[4] == Some(h.host),
        cap[5] == Some(decimal(h.port as nat)),
        cap[6] == Some(query),
        h.auth.len() > 0,
        h.host.len() > 0,
        query.len() > 0,
    ensures
        hysteria_from_capture(cap) == Some(
            HysteriaView { parameters: Some(entries_from_pairs(form_pairs_of(query))), ..h },
        ),
        h.parameters == Some(e) && keys_distinct(e) && form_pairs_of(query) == e
            ==> hysteria_from_capture(cap) == Some(h),
{
    reveal_strlit("hysteria");
    reveal_strlit("hy2");
    reveal_strlit("hysteria2");
    assert("hysteria"@.len() != "hy2"@.len() && "hysteria"@.len() != "hysteria2"@.len());
    assert(version_of_scheme(hysteria_scheme(h.version)) == h.version);
    assert(hysteria_scheme(h.version).len() > 0);
    lemma_link_parts_read_back(cap, 2, 4, 5, 6, h.auth, h.host, h.port, query);
    if h.parameters == Some(e) && keys_distinct(e) && form_pairs_of(query) == e {
        lemma_entries_from_distinct_pairs(e);
    }
}

impl Hysteria {
    /// The Hysteria proxies of the given matches of `HYSTERIA_PATTERN`: one
    /// for each match whose scheme, authentication, host, port and
    /// parameters are not empty.
    pub fn from_captures(caps: &Vec<Vec<Option<String>>>) -> (res: Vec<Hysteria>)
        ensures
            res@.map_values(|h: Hysteria| h@) == hysterias_from_captures(caps.deep_view()),
    {
        let mut res: Vec<Hysteria> = Vec::new();
        let mut i: usize = 0;
        assert(caps.deep_view().take(0) =~= Seq::<CaptureView>::empty());
        while i < caps.len()
            invariant
                i <= caps.len(),
                res@.map_values(|h: Hysteria| h@) == hysterias_from_captures(
                    caps.deep_view().take(i as int),
                ),
            decreases caps.len() - i,
        {
            let ghost before = res@;
            assert(caps.deep_view().take(i + 1).drop_last() =~= caps.deep_view().take(i as int));
            assert(caps.deep_view()[i as int] == caps[i as int].deep_view());
            let scheme = group(&caps[i], 1);
            if !scheme.is_empty() {
                match read_link_parts(&caps[i], 2, 4, 5, 6) {
                    Some(p) => {
                        res.push(
                            Hysteria {
                                version: version_from_scheme(scheme),
                                host: p.host,
                                port: p.port,
                                auth: p.user,
                                parameters: Some(p.params),
                            },
                        );
                        assert(res@.map_values(|h: Hysteria| h@) =~= before.map_values(
                            |h: Hysteria| h@,
                        ).push(res@.last()@));
                    },
                    None => {},
                }
            }
            i = i + 1;
        }
        assert(caps.deep_view().take(caps.len() as int) =~= caps.deep_view());
        res
    }

    /// Scrapes the Hysteria proxies out of a text: its links are separated,
    /// and each match of `HYSTERIA_PATTERN` among them with non-empty fields
    /// gives a proxy.
    pub fn scrape(source: &str) -> (res: Vec<Hysteria>)
        requires
            hysteria_scrape_spec(source@) is Some,
        ensures
            hysteria_scrape_spec(source@) == Some(res@.map_values(|h: Hysteria| h@)),
    {
        let links = seperate_links(source);
        let caps = regex_captures(HYSTERIA_PATTERN, links.as_str()).unwrap();
        Hysteria::from_captures(&caps)
    }

    /// `scrape`, or `None` where a pattern is refused.
    pub fn try_scrape(source: &str) -> (res: Option<Vec<Hysteria>>)
        ensures
            res is None == hysteria_scrape_spec(source@) is None,
            res matches Some(v) ==> hysteria_scrape_spec(source@) == Some(
                v@.map_values(|h: Hysteria| h@),
            ),
    {
        if pattern_compiles(LINK_PATTERN) && pattern_compiles(HYSTERIA_PATTERN) {
            Some(Hysteria::scrape(source))
        } else {
            None
        }
    }

    /// The descriptive URLs of the scraped proxies, each once.
    pub fn scrape_pretty(source: &str) -> (res: Vec<String>)
        requires
            hysteria_scrape_spec(source@) is Some,
        ensures
            res.deep_view() == dedup_spec(
                hysteria_scrape_spec(source@).unwrap().map_values(
                    |h: HysteriaView| hysteria_pretty(h),
                ),
            ),
            res.len() <= hysteria_scrape_spec(source@).unwrap().len(),
    {
        let proxies = Hysteria::scrape(source);
        let ghost views = proxies@.map_values(|h: Hysteria| h@);
        let mut urls: Vec<String> = Vec::new();
        let mut i: usize = 0;
        while i < proxies.len()
            invariant
                i <= proxies.len(),
                views == proxies@.map_values(|h: Hysteria| h@),
                urls.deep_view() == views.take(i as int).map_values(
                    |h: HysteriaView| hysteria_pretty(h),
                ),
            decreases proxies.len() - i,
        {
            let u = proxies[i].to_url_pretty();
            let ghost before = urls.deep_view();
            assert(u@ == hysteria_pretty(views[i as int]));
            urls.push(u);
            assert(urls.deep_view() =~= before.push(u@));
            assert(urls.deep_view() =~= views.take(i + 1).map_values(
                |h: HysteriaView| hysteria_pretty(h),
            )) by {
                assert(before =~= views.take(i as int).map_values(
                    |h: HysteriaView| hysteria_pretty(h),
                ));
            }
            i = i + 1;
        }
        assert(views.take(proxies.len() as int) =~= views);
        proof {
            lemma_dedup_len(urls.deep_view());
        }
        dedup(urls)
    }

    /// `scrape_pretty`, or `None` where a pattern is refused.
    pub fn try_scrape_pretty(source: &str) -> (res: Option<Vec<String>>)
        ensures
            res is None == hysteria_scrape_spec(source@) is None,
            res matches Some(v) ==> v.deep_view() == dedup_spec(
                hysteria_scrape_spec(source@).unwrap().map_values(
                    |h: HysteriaView| hysteria_pretty(h),
                ),
            ),
            res matches Some(v) ==> v.len() <= hysteria_scrape_spec(source@).unwrap().len(),
    {
        match Hysteria::try_scrape(source) {
            Some(_) => Some(Hysteria::scrape_pretty(source)),
            None => None,
        }
    }
}

impl Proxy for Hysteria {
    open spec fn url_view(&self) -> Seq<char> {
        hysteria_url(self@)
    }

    open spec fn host_view(&self) -> Seq<char> {
        self.host@
    }

    open spec fn port_view(&self) -> u32 {
        self.port
    }

    open spec fn network_view(&self) -> Seq<char> {
        "TCP"@
    }

    open spec fn security_view(&self) -> Seq<char> {
        "TLS"@
    }

    open spec fn type_view(&self) -> Seq<char> {
        hysteria_type(self.version)
    }

    fn to_url(&self) -> (res: String) {
        let query = match &self.parameters {
            Some(p) => form_encode(p.entries()),
            None => String::new(),
        };
        let scheme = if self.version == 1 {
            "hysteria"
        } else {
            "hy2"
        };
        write_authority_url(
            scheme,
            self.auth.as_str(),
            self.host.as_str(),
            self.port,
            query.as_str(),
        )
    }

    fn get_host(&self) -> (res: &str) {
        self.host.as_str()
    }

    fn get_port(&self) -> (res: u32) {
        self.port
    }

    fn get_network(&self) -> (res: String) {
        "TCP".to_owned()
    }

    fn get_security(&self) -> (res: String) {
        "TLS".to_owned()
    }

    fn get_type(&self) -> (res: &str) {
        if self.version == 1 {
            "HYSTERIA1"
        } else {
            "HYSTERIA2"
        }
    }
}

} // verus!
