//! Trojan proxies: `trojan://password@host:port?parameters`.

use vstd::prelude::*;
use crate::bindings::{
    form_encode,
    form_pairs_of,
    regex_captures,
    regex_captures_of,
    regex_compiles,
    to_uppercase,
    uppercase_of,
};
use crate::form::{
    entries_from_pairs,
    entries_map,
    form_encode_pairs,
    keys_distinct,
    lemma_entries_from_distinct_pairs,
    param_or,
    PairView,
    Params,
};
use crate::link::{
    kept_by,
    lemma_filter_map_len,
    lemma_filter_map_position,
    lemma_filter_map_push,
    authority_url,
    filter_map,
    lemma_filter_map_source,
    lemma_link_parts_read_back,
    lemma_link_parts_wf,
    link_parts,
    read_link_parts,
    write_authority_url,
};
use crate::utils::{links_spec, seperate_links, pattern_compiles, LINK_PATTERN, CaptureView};
use crate::text::{all_ascii, ascii_upper, decimal};
use crate::proxy::{dedup, dedup_spec, lemma_dedup_len, pretty_url, Proxy};

verus! {

/// The pattern of a Trojan link: the password in group 1, the host in
/// group 3, the port in group 4 and the parameters in group 5.
pub const TROJAN_PATTERN: &'static str = r#"trojan://([A-Za-z0-9\-._~]+)@((.+):(\d+))\?(.+)#"#;

/// A Trojan proxy.
pub struct Trojan {
    /// The host address of the Trojan proxy.
    pub host: String,
    /// The port number for the Trojan proxy.
    pub port: u32,
    /// The password associated with the Trojan proxy.
    pub password: String,
    /// Additional parameters associated with the Trojan proxy.
    pub parameters: Params,
}

/// A Trojan proxy, as characters.
pub struct TrojanView {
    pub host: Seq<char>,
    pub port: u32,
    pub password: Seq<char>,
    pub parameters: Seq<PairView>,
}

impl View for Trojan {
    type V = TrojanView;

    open spec fn view(&self) -> TrojanView {
        TrojanView {
            host: self.host@,
            port: self.port,
            password: self.password@,
            parameters: self.parameters@,
        }
    }
}

/// The URL of a Trojan proxy.
pub open spec fn trojan_url(t: TrojanView) -> Seq<char> {
    authority_url("trojan"@, t.password, t.host, t.port, form_encode_pairs(t.parameters))
}

/// The upper-case form of a text: each ASCII letter raised where the text is
/// ASCII, its Unicode upper case otherwise.
pub open spec fn upper_case(s: Seq<char>) -> Seq<char> {
    if all_ascii(s) {
        s.map_values(|c: char| ascii_upper(c))
    } else {
        uppercase_of(s)
    }
}

/// The network of a Trojan proxy: its `type` parameter, `TCP` by default,
/// in upper case.
pub open spec fn trojan_network(t: TrojanView) -> Seq<char> {
    upper_case(param_or(t.parameters, "type"@, "TCP"@))
}

/// The security of a Trojan proxy: its `security` parameter, `NONE` by
/// default, in upper case.
pub open spec fn trojan_security(t: TrojanView) -> Seq<char> {
    upper_case(param_or(t.parameters, "security"@, "NONE"@))
}

/// A Trojan proxy without a `type` parameter has the network `TCP`, and one
/// without a `security` parameter has the security `NONE`.
pub proof fn lemma_trojan_defaults(t: TrojanView)
    ensures
        !entries_map(t.parameters).contains_key("type"@) ==> trojan_network(t) == "TCP"@,
        !entries_map(t.parameters).contains_key("security"@) ==> trojan_security(t) == "NONE"@,
{
    reveal_strlit("TCP");
    reveal_strlit("NONE");
    assert("TCP"@.map_values(|c: char| ascii_upper(c)) =~= "TCP"@);
    assert("NONE"@.map_values(|c: char| ascii_upper(c)) =~= "NONE"@);
}

/// The descriptive URL of a Trojan proxy.
pub open spec fn trojan_pretty(t: TrojanView) -> Seq<char> {
    pretty_url(trojan_url(t), "TR"@, trojan_network(t), trojan_security(t), t.host, t.port)
}

/// The descriptive URL of a Trojan proxy is what `to_url_pretty` writes for
/// it: its URL, then `#TR-`, its network, `-`, its security, `%20`, its
/// host, `:` and its port.
pub proof fn lemma_trojan_pretty_describes(t: Trojan)
    ensures
        trojan_pretty(t@) == pretty_url(
            t.url_view(),
            t.type_view(),
            t.network_view(),
            t.security_view(),
            t.host_view(),
            t.port_view(),
        ),
        trojan_pretty(t@) == trojan_url(t@) + "#TR-"@ + trojan_network(t@) + "-"@ + trojan_security(
            t@,
        ) + "%20"@ + t.host@ + ":"@ + decimal(t.port as nat),
{
    reveal_strlit("TR");
    reveal_strlit("MTPROXY");
    reveal_strlit("VMESS");
    reveal_strlit("#");
    reveal_strlit("-");
    reveal_strlit("#TR-");
    assert("TR"@.len() != "MTPROXY"@.len());
    assert("TR"@.len() != "VMESS"@.len());
    assert(trojan_pretty(t@) =~= trojan_url(t@) + "#TR-"@ + trojan_network(t@) + "-"@
        + trojan_security(t@) + "%20"@ + t.host@ + ":"@ + decimal(t.port as nat));
}

/// The Trojan proxy of one match, or `None` where a group is empty.
pub open spec fn trojan_from_capture(cap: CaptureView) -> Option<TrojanView> {
    match link_parts(cap, 1, 3, 4, 5) {
        Some(p) => Some(
            TrojanView { host: p.host, port: p.port, password: p.user, parameters: p.params },
        ),
        None => None,
    }
}

/// The Trojan proxies of the matches, in order.
pub open spec fn trojans_from_captures(caps: Seq<CaptureView>) -> Seq<TrojanView> {
    filter_map(caps, |c: CaptureView| trojan_from_capture(c))
}

/// Scraping keeps one proxy for every match that reads as one, in the order
/// of the matches: no match gives no proxies; a further match adds its proxy
/// at the end where it reads and nothing where it does not; there are as
/// many proxies as readable matches; and the proxy of a readable match comes
/// right after those of the readable matches before it.
pub proof fn lemma_trojan_one_per_readable_match(caps: Seq<CaptureView>, c: CaptureView, i: int)
    ensures
        trojans_from_captures(Seq::empty()) == Seq::<TrojanView>::empty(),
        trojans_from_captures(caps.push(c)) == match trojan_from_capture(c) {
            Some(v) => trojans_from_captures(caps).push(v),
            None => trojans_from_captures(caps),
        },
        trojans_from_captures(caps).len() == caps.filter(|x: CaptureView| trojan_from_capture(x) is Some).len(),
        0 <= i < caps.len() && trojan_from_capture(caps[i]) is Some ==> trojans_from_captures(caps)[trojans_from_captures(
            caps.take(i),
        ).len() as int] == trojan_from_capture(caps[i])->0,
{
    let f = |x: CaptureView| trojan_from_capture(x);
    lemma_filter_map_push(caps, c, f);
    lemma_filter_map_len(caps, f);
    assert(kept_by(f) =~= |x: CaptureView| trojan_from_capture(x) is Some);
    if 0 <= i < caps.len() && trojan_from_capture(caps[i]) is Some {
        lemma_filter_map_position(caps, f, i);
    }
}

/// What scraping a text gives: the Trojan proxies among its links, or
/// `None` where a pattern would be refused.
pub open spec fn trojan_scrape_spec(source: Seq<char>) -> Option<Seq<TrojanView>> {
    match links_spec(source) {
        Some(links) => if regex_compiles(TROJAN_PATTERN@) {
            Some(trojans_from_captures(regex_captures_of(TROJAN_PATTERN@, links)))
        } else {
            None
        },
        None => None,
    }
}

/// Every scraped Trojan proxy has a password and a host, and no parameter
/// key occurs twice in it.
pub proof fn lemma_scraped_trojans_wf(caps: Seq<CaptureView>, j: int)
    requires
        0 <= j < trojans_from_captures(caps).len(),
    ensures
        ({
            let t = trojans_from_captures(caps)[j];
            t.password.len() > 0 && t.host.len() > 0 && keys_distinct(t.parameters)
        }),
{
    let f = |c: CaptureView| trojan_from_capture(c);
    lemma_filter_map_source(caps, f, j);
    let i = choose|i: int| 0 <= i < caps.len() && f(caps[i]) == Some(filter_map(caps, f)[j]);
    lemma_link_parts_wf(caps[i], 1, 3, 4, 5);
}

/// Reading back a written link: a match whose groups hold the password,
/// host, decimal port and query that a link writes gives these back, the
/// query decoded into parameters; where decoding the query gives back the
/// written parameters, the match gives back the whole proxy.
pub proof fn lemma_trojan_read_back(t: TrojanView, cap: CaptureView, query: Seq<char>)
    requires
        cap.len() > 5,
        cap[1] == Some(t.password),
        cap[3] == Some(t.host),
        cap[4] == Some(decimal(t.port as nat)),
        cap[5] == Some(query),
        t.password.len() > 0,
        t.host.len() > 0,
        query.len() > 0,
    ensures
        trojan_from_capture(cap) == Some(
            TrojanView { parameters: entries_from_pairs(form_pairs_of(query)), ..t },
        ),
        keys_distinct(t.parameters) && form_pairs_of(query) == t.parameters ==> trojan_from_capture(
            cap,
        ) == Some(t),
{
    lemma_link_parts_read_back(cap, 1, 3, 4, 5, t.password, t.host, t.port, query);
    if keys_distinct(t.parameters) && form_pairs_of(query) == t.parameters {
        lemma_entries_from_distinct_pairs(t.parameters);
    }
}

impl Trojan {
    /// The Trojan proxies of the given matches of `TROJAN_PATTERN`: one for
    /// each match whose password, host, port and parameters are not empty.
    pub fn from_captures(caps: &Vec<Vec<Option<String>>>) -> (res: Vec<Trojan>)
        ensures
            res@.map_values(|t: Trojan| t@) == trojans_from_captures(caps.deep_view()),
    {
        let mut res: Vec<Trojan> = Vec::new();
        let mut i: usize = 0;
        assert(caps.deep_view().take(0) =~= Seq::<CaptureView>::empty());
        while i < caps.len()
            invariant
                i <= caps.len(),
                res@.map_values(|t: Trojan| t@) == trojans_from_captures(
                    caps.deep_view().take(i as int),
                ),
            decreases caps.len() - i,
        {
            let ghost before = res@;
            assert(caps.deep_view().take(i + 1).drop_last() =~= caps.deep_view().take(i as int));
            assert(caps.deep_view()[i as int] == caps[i as int].deep_view());
            match read_link_parts(&caps[i], 1, 3, 4, 5) {
                Some(p) => {
                    res.push(
                        Trojan {
                            host: p.host,
                            port: p.port,
                            password: p.user,
                            parameters: p.params,
                        },
                    );
                    assert(res@.map_values(|t: Trojan| t@) =~= before.map_values(
                        |t: Trojan| t@,
                    ).push(res@.last()@));
                },
                None => {},
            }
            i = i + 1;
        }
        assert(caps.deep_view().take(caps.len() as int) =~= caps.deep_view());
        res
    }

    /// Scrapes the Trojan proxies out of a text: its links are separated,
    /// and each match of `TROJAN_PATTERN` among them with non-empty fields
    /// gives a proxy.
    pub fn scrape(source: &str) -> (res: Vec<Trojan>)
        requires
            trojan_scrape_spec(source@) is Some,
        ensures
            trojan_scrape_spec(source@) == Some(res@.map_values(|t: Trojan| t@)),
    {
        let links = seperate_links(source);
        let caps = regex_captures(TROJAN_PATTERN, links.as_str()).unwrap();
        Trojan::from_captures(&caps)
    }

    /// `scrape`, or `None` where a pattern is refused.
    pub fn try_scrape(source: &str) -> (res: Option<Vec<Trojan>>)
        ensures
            res is None == trojan_scrape_spec(source@) is None,
            res matches Some(v) ==> trojan_scrape_spec(source@) == Some(
                v@.map_values(|t: Trojan| t@),
            ),
    {
        if pattern_compiles(LINK_PATTERN) && pattern_compiles(TROJAN_PATTERN) {
            Some(Trojan::scrape(source))
        } else {
            None
        }
    }

    /// The descriptive URLs of the scraped proxies, each once.
    pub fn scrape_pretty(source: &str) -> (res: Vec<String>)
        requires
            trojan_scrape_spec(source@) is Some,
        ensures
            res.deep_view() == dedup_spec(
                trojan_scrape_spec(source@).unwrap().map_values(|t: TrojanView| trojan_pretty(t)),
            ),
            res.len() <= trojan_scrape_spec(source@).unwrap().len(),
    {
        let proxies = Trojan::scrape(source);
        let ghost views = proxies@.map_values(|t: Trojan| t@);
        let mut urls: Vec<String> = Vec::new();
        let mut i: usize = 0;
        while i < proxies.len()
            invariant
                i <= proxies.len(),
                views == proxies@.map_values(|t: Trojan| t@),
                urls.deep_view() == views.take(i as int).map_values(
                    |t: TrojanView| trojan_pretty(t),
                ),
            decreases proxies.len() - i,
        {
            let u = proxies[i].to_url_pretty();
            let ghost before = urls.deep_view();
            assert(u@ == trojan_pretty(views[i as int]));
            urls.push(u);
            assert(urls.deep_view() =~= before.push(u@));
            assert(urls.deep_view() =~= views.take(i + 1).map_values(
                |t: TrojanView| trojan_pretty(t),
            )) by {
                assert(before =~= views.take(i as int).map_values(
                    |t: TrojanView| trojan_pretty(t),
                ));
            }
            i = i + 1;
        }
        assert(views.take(proxies.len() as int) =~= views);
        proof {
            lemma_dedup_len(urls.deep_view());
        }
        dedup(urls)
    }

    /// `scrape_pretty`, or `None` where a pattern is refused.
    pub fn try_scrape_pretty(source: &str) -> (res: Option<Vec<String>>)
        ensures
            res is None == trojan_scrape_spec(source@) is None,
            res matches Some(v) ==> v.deep_view() == dedup_spec(
                trojan_scrape_spec(source@).unwrap().map_values(|t: TrojanView| trojan_pretty(t)),
            ),
            res matches Some(v) ==> v.len() <= trojan_scrape_spec(source@).unwrap().len(),
    {
        match Trojan::try_scrape(source) {
            Some(_) => Some(Trojan::scrape_pretty(source)),
            None => None,
        }
    }
}

impl Proxy for Trojan {
    open spec fn url_view(&self) -> Seq<char> {
        trojan_url(self@)
    }

    open spec fn host_view(&self) -> Seq<char> {
        self.host@
    }

    open spec fn port_view(&self) -> u32 {
        self.port
    }

    open spec fn network_view(&self) -> Seq<char> {
        trojan_network(self@)
    }

    open spec fn security_view(&self) -> Seq<char> {
        trojan_security(self@)
    }

    open spec fn type_view(&self) -> Seq<char> {
        "TR"@
    }

    fn to_url(&self) -> (res: String) {
        let query = form_encode(self.parameters.entries());
        write_authority_url(
            "trojan",
            self.password.as_str(),
            self.host.as_str(),
            self.port,
            query.as_str(),
        )
    }

    fn get_host(&self) -> (res: &str) {
        self.host.as_str()
    }

    fn get_port(&self) -> (res: u32) {
        self.port
    }

    fn get_network(&self) -> (res: String) {
        to_uppercase(self.parameters.get_or("type", "TCP"))
    }

    fn get_security(&self) -> (res: String) {
        to_uppercase(self.parameters.get_or("security", "NONE"))
    }

    fn get_type(&self) -> (res: &str) {
        "TR"
    }
}

} // verus!
