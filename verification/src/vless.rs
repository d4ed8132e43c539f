//! VLess proxies: `vless://id@host:port?parameters`.

use vstd::prelude::*;
use crate::bindings::{
    form_encode,
    form_pairs_of,
    regex_captures,
    regex_captures_of,
    regex_compiles,
};
use crate::text::decimal;
use crate::form::{
    entries_from_pairs,
    keys_distinct,
    lemma_entries_from_distinct_pairs,
    PairView,
    Params,
};
use crate::link::{
    kept_by,
    lemma_filter_map_len,
    lemma_filter_map_position,
    lemma_filter_map_push,
    authority_url,
    filter_map,
    lemma_link_parts_read_back,
    link_parts,
    optional_query,
    read_link_parts,
    write_authority_url,
};
use crate::utils::{links_spec, seperate_links, pattern_compiles, LINK_PATTERN, CaptureView};

verus! {

/// The pattern of a VLess link: the UUID in group 1, the host in
/// group 3, the port in group 4 and the parameters in group 5.
pub const VLESS_PATTERN: &'static str = r#"vless://([a-fA-F0-9]{8}-[a-fA-F0-9]{4}-[a-fA-F0-9]{4}-[a-fA-F0-9]{4}-[a-fA-F0-9]{12})@((.+):(\d+))\?(.+)#"#;

/// A VLess proxy.
pub struct VLess {
    /// The host address of the VLess proxy.
    pub host: String,
    /// The port number for the VLess proxy.
    pub port: u32,
    /// The UUID of the VLess proxy.
    pub id: String,
    /// Additional parameters associated with the VLess proxy.
    pub parameters: Option<Params>,
}

/// A VLess proxy, as characters.
pub struct VLessView {
    pub host: Seq<char>,
    pub port: u32,
    pub id: Seq<char>,
    pub parameters: Option<Seq<PairView>>,
}

impl View for VLess {
    type V = VLessView;

    open spec fn view(&self) -> VLessView {
        VLessView {
            host: self.host@,
            port: self.port,
            id: self.id@,
            parameters: match self.parameters {
                Some(p) => Some(p@),
                None => None,
            },
        }
    }
}

/// The URL of a VLess proxy.
pub open spec fn vless_url(v: VLessView) -> Seq<char> {
    authority_url("vless"@, v.id, v.host, v.port, optional_query(v.parameters))
}

/// The VLess proxy of one match, or `None` where a group is empty.
pub open spec fn vless_from_capture(cap: CaptureView) -> Option<VLessView> {
    match link_parts(cap, 1, 3, 4, 5) {
        Some(p) => Some(
            VLessView { host: p.host, port: p.port, id: p.user, parameters: Some(p.params) },
        ),
        None => None,
    }
}

/// The VLess proxies of the matches, in order.
pub open spec fn vlesss_from_captures(caps: Seq<CaptureView>) -> Seq<VLessView> {
    filter_map(caps, |c: CaptureView| vless_from_capture(c))
}

/// Scraping keeps one proxy for every match that reads as one, in the order
/// of the matches: no match gives no proxies; a further match adds its proxy
/// at the end where it reads and nothing where it does not; there are as
/// many proxies as readable matches; and the proxy of a readable match comes
/// right after those of the readable matches before it.
pub proof fn lemma_vless_one_per_readable_match(caps: Seq<CaptureView>, c: CaptureView, i: int)
    ensures
        vlesss_from_captures(Seq::empty()) == Seq::<VLessView>::empty(),
        vlesss_from_captures(caps.push(c)) == match vless_from_capture(c) {
            Some(v) => vlesss_from_captures(caps).push(v),
            None => vlesss_from_captures(caps),
        },
        vlesss_from_captures(caps).len() == caps.filter(|x: CaptureView| vless_from_capture(x) is Some).len(),
        0 <= i < caps.len() && vless_from_capture(caps[i]) is Some ==> vlesss_from_captures(caps)[vlesss_from_captures(
            caps.take(i),
        ).len() as int] == vless_from_capture(caps[i])->0,
{
    let f = |x: CaptureView| vless_from_capture(x);
    lemma_filter_map_push(caps, c, f);
    lemma_filter_map_len(caps, f);
    assert(kept_by(f) =~= |x: CaptureView| vless_from_capture(x) is Some);
    if 0 <= i < caps.len() && vless_from_capture(caps[i]) is Some {
        lemma_filter_map_position(caps, f, i);
    }
}

/// What scraping a text gives: the VLess proxies among its links, or
/// `None` where a pattern would be refused.
pub open spec fn vless_scrape_spec(source: Seq<char>) -> Option<Seq<VLessView>> {
    match links_spec(source) {
        Some(links) => if regex_compiles(VLESS_PATTERN@) {
            Some(vlesss_from_captures(regex_captures_of(VLESS_PATTERN@, links)))
        } else {
            None
        },
        None => None,
    }
}

/// Reading back a written link: a match whose groups hold the id,
/// host, decimal port and query that a link writes gives these back, the
/// query decoded into parameters; where decoding the query gives back the
/// written parameters, the match gives back the whole proxy.
pub proof fn lemma_vless_read_back(
    v: VLessView,
    e: Seq<PairView>,
    cap: CaptureView,
    query: Seq<char>,
)
    requires
        cap.len() > 5,
        cap[1] == Some(v.id),
        cap[3] == Some(v.host),
        cap[4] == Some(decimal(v.port as nat)),
        cap[5] == Some(query),
        v.id.len() > 0,
        v.host.len() > 0,
        query.len() > 0,
    ensures
        vless_from_capture(cap) == Some(
            VLessView { parameters: Some(entries_from_pairs(form_pairs_of(query))), ..v },
        ),
        v.parameters == Some(e) && keys_distinct(e) && form_pairs_of(query) == e
            ==> vless_from_capture(cap) == Some(v),
{
    lemma_link_parts_read_back(cap, 1, 3, 4, 5, v.id, v.host, v.port, query);
    if v.parameters == Some(e) && keys_distinct(e) && form_pairs_of(query) == e {
        lemma_entries_from_distinct_pairs(e);
    }
}

impl VLess {
    /// Writes the proxy as a URL.
    pub fn to_url(&self) -> (res: String)
        ensures
            res@ == vless_url(self@),
    {
        let query = match &self.parameters {
            Some(p) => form_encode(p.entries()),
            None => String::new(),
        };
        write_authority_url(
            "vless",
            self.id.as_str(),
            self.host.as_str(),
            self.port,
            query.as_str(),
        )
    }

    /// The VLess proxies of the given matches of `VLESS_PATTERN`: one for
    /// each match whose UUID, host, port and parameters are not empty.
    pub fn from_captures(caps: &Vec<Vec<Option<String>>>) -> (res: Vec<VLess>)
        ensures
            res@.map_values(|v: VLess| v@) == vlesss_from_captures(caps.deep_view()),
    {
        let mut res: Vec<VLess> = Vec::new();
        let mut i: usize = 0;
        assert(caps.deep_view().take(0) =~= Seq::<CaptureView>::empty());
        while i < caps.len()
            invariant
                i <= caps.len(),
                res@.map_values(|v: VLess| v@) == vlesss_from_captures(
                    caps.deep_view().take(i as int),
                ),
            decreases caps.len() - i,
        {
            let ghost before = res@;
            assert(caps.deep_view().take(i + 1).drop_last() =~= caps.deep_view().take(i as int));
            assert(caps.deep_view()[i as int] == caps[i as int].deep_view());
            match read_link_parts(&caps[i], 1, 3, 4, 5) {
                Some(p) => {
                    res.push(
                        VLess {
                            host: p.host,
                            port: p.port,
                            id: p.user,
                            parameters: Some(p.params),
                        },
                    );
                    assert(res@.map_values(|v: VLess| v@) =~= before.map_values(|v: VLess| v@).push(
                        res@.last()@,
                    ));
                },
                None => {},
            }
            i = i + 1;
        }
        assert(caps.deep_view().take(caps.len() as int) =~= caps.deep_view());
        res
    }

    /// Scrapes the VLess proxies out of a text: its links are separated,
    /// and each match of `VLESS_PATTERN` among them with non-empty fields
    /// gives a proxy.
    pub fn scrape(source: &str) -> (res: Vec<VLess>)
        requires
            vless_scrape_spec(source@) is Some,
        ensures
            vless_scrape_spec(source@) == Some(res@.map_values(|v: VLess| v@)),
    {
        let links = seperate_links(source);
        let caps = regex_captures(VLESS_PATTERN, links.as_str()).unwrap();
        VLess::from_captures(&caps)
    }

    /// `scrape`, or `None` where a pattern is refused.
    pub fn try_scrape(source: &str) -> (res: Option<Vec<VLess>>)
        ensures
            res is None == vless_scrape_spec(source@) is None,
            res matches Some(v) ==> vless_scrape_spec(source@) == Some(
                v@.map_values(|x: VLess| x@),
            ),
    {
        if pattern_compiles(LINK_PATTERN) && pattern_compiles(VLESS_PATTERN) {
            Some(VLess::scrape(source))
        } else {
            None
        }
    }
}

} // verus!
