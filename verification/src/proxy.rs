//! The `Proxy` trait: what a proxy tells of itself, and its descriptive URL.

use vstd::prelude::*;
use crate::text::{decimal, push_decimal, push_str, str_eq};

verus! {

/// The descriptive form of a proxy URL:
/// `url#TYPE-NETWORK-SECURITY%20host:port`, except for the `MTPROXY` and
/// `VMESS` types, whose URL is kept as it is.
pub open spec fn pretty_url(
    url: Seq<char>,
    kind: Seq<char>,
    network: Seq<char>,
    security: Seq<char>,
    host: Seq<char>,
    port: u32,
) -> Seq<char> {
    if kind == "MTPROXY"@ || kind == "VMESS"@ {
        url
    } else {
        url + "#"@ + kind + "-"@ + network + "-"@ + security + "%20"@ + host + ":"@ + decimal(
            port as nat,
        )
    }
}

/// The descriptive form of a URL starts with the URL itself.
pub proof fn lemma_pretty_extends_url(
    url: Seq<char>,
    kind: Seq<char>,
    network: Seq<char>,
    security: Seq<char>,
    host: Seq<char>,
    port: u32,
)
    ensures
        url.is_prefix_of(pretty_url(url, kind, network, security, host, port)),
{
    let p = pretty_url(url, kind, network, security, host, port);
    assert(p.take(url.len() as int) =~= url);
}

/// A proxy that can be written as a URL and describes itself.
pub trait Proxy {
    /// The URL of the proxy.
    spec fn url_view(&self) -> Seq<char>;

    /// The host of the proxy.
    spec fn host_view(&self) -> Seq<char>;

    /// The port of the proxy.
    spec fn port_view(&self) -> u32;

    /// The network of the proxy.
    spec fn network_view(&self) -> Seq<char>;

    /// The security of the proxy.
    spec fn security_view(&self) -> Seq<char>;

    /// The type of the proxy.
    spec fn type_view(&self) -> Seq<char>;

    /// Writes the proxy as a URL.
    fn to_url(&self) -> (res: String)
        ensures
            res@ == self.url_view(),
    ;

    /// The host of the proxy.
    fn get_host(&self) -> (res: &str)
        ensures
            res@ == self.host_view(),
    ;

    /// The port of the proxy.
    fn get_port(&self) -> (res: u32)
        ensures
            res == self.port_view(),
    ;

    /// The network of the proxy, in upper case.
    fn get_network(&self) -> (res: String)
        ensures
            res@ == self.network_view(),
    ;

    /// The security of the proxy, in upper case.
    fn get_security(&self) -> (res: String)
        ensures
            res@ == self.security_view(),
    ;

    /// The type of the proxy.
    fn get_type(&self) -> (res: &str)
        ensures
            res@ == self.type_view(),
    ;

    /// The URL with a description of the proxy appended after `#`.
    fn to_url_pretty(&self) -> (res: String)
        ensures
            res@ == pretty_url(
                self.url_view(),
                self.type_view(),
                self.network_view(),
                self.security_view(),
                self.host_view(),
                self.port_view(),
            ),
    {
        let url = self.to_url();
        let kind = self.get_type();
        if str_eq(kind, "MTPROXY") || str_eq(kind, "VMESS") {
            return url;
        }
        let network = self.get_network();
        let security = self.get_security();
        let mut s = url;
        push_str(&mut s, "#");
        push_str(&mut s, kind);
        push_str(&mut s, "-");
        push_str(&mut s, network.as_str());
        push_str(&mut s, "-");
        push_str(&mut s, security.as_str());
        push_str(&mut s, "%20");
        push_str(&mut s, self.get_host());
        push_str(&mut s, ":");
        push_decimal(&mut s, self.get_port());
        s
    }
}

/// The texts with every text that already occurred earlier left out.
pub open spec fn dedup_spec(s: Seq<Seq<char>>) -> Seq<Seq<char>>
    decreases s.len(),
{
    if s.len() == 0 {
        seq![]
    } else {
        let rest = dedup_spec(s.drop_last());
        if rest.contains(s.last()) {
            rest
        } else {
            rest.push(s.last())
        }
    }
}

/// Leaving out repeated texts keeps every text once and adds none.
pub proof fn lemma_dedup(s: Seq<Seq<char>>)
    ensures
        dedup_spec(s).no_duplicates(),
        dedup_spec(s).to_set() == s.to_set(),
    decreases s.len(),
{
    if s.len() > 0 {
        lemma_dedup(s.drop_last());
        let rest = dedup_spec(s.drop_last());
        assert(s =~= s.drop_last().push(s.last()));
        s.drop_last().lemma_push_to_set_commute(s.last());
        if !rest.contains(s.last()) {
            rest.lemma_push_to_set_commute(s.last());
            assert forall|i: int, j: int| 0 <= i < j < rest.push(s.last()).len() implies rest.push(
                s.last(),
            )[i] != rest.push(s.last())[j] by {
                if j == rest.len() {
                    assert(rest[i] == rest.push(s.last())[i]);
                }
            }
        } else {
            assert(rest.to_set().contains(s.last()));
            assert(rest.to_set().insert(s.last()) =~= rest.to_set());
        }
    } else {
        assert(s.to_set() =~= Set::<Seq<char>>::empty());
        assert(dedup_spec(s).to_set() =~= Set::<Seq<char>>::empty());
    }
}

/// Leaving out repeated texts never lengthens the sequence.
pub proof fn lemma_dedup_len(s: Seq<Seq<char>>)
    ensures
        dedup_spec(s).len() <= s.len(),
    decreases s.len(),
{
    if s.len() > 0 {
        lemma_dedup_len(s.drop_last());
    }
}

/// Whether `v` holds a string equal to `s`.
fn contains_str(v: &Vec<String>, s: &str) -> (res: bool)
    ensures
        res == v.deep_view().contains(s@),
{
    let mut i: usize = 0;
    while i < v.len()
        invariant
            i <= v.len(),
            forall|j: int| 0 <= j < i ==> v.deep_view()[j] != s@,
        decreases v.len() - i,
    {
        if str_eq(v[i].as_str(), s) {
            assert(v.deep_view()[i as int] == s@);
            return true;
        }
        i = i + 1;
    }
    false
}

/// The strings with every string that already occurred earlier left out,
/// as collecting them into a set does.
pub fn dedup(items: Vec<String>) -> (res: Vec<String>)
    ensures
        res.deep_view() == dedup_spec(items.deep_view()),
{
    let mut res: Vec<String> = Vec::new();
    let mut i: usize = 0;
    assert(items.deep_view().take(0) =~= Seq::<Seq<char>>::empty());
    while i < items.len()
        invariant
            i <= items.len(),
            res.deep_view() == dedup_spec(items.deep_view().take(i as int)),
        decreases items.len() - i,
    {
        assert(items.deep_view().take(i + 1).drop_last() =~= items.deep_view().take(i as int));
        if !contains_str(&res, items[i].as_str()) {
            let ghost before = res.deep_view();
            res.push(items[i].clone());
            assert(res.deep_view() =~= before.push(items.deep_view()[i as int]));
        }
        i = i + 1;
    }
    assert(items.deep_view().take(items.len() as int) =~= items.deep_view());
    res
}

} // verus!
