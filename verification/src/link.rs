//! What the `user@host:port?query` link formats share: reading their parts
//! from a regex match, and writing them back.

use vstd::prelude::*;
use crate::bindings::{form_decode, form_pairs_of};
use crate::form::{
    form_encode_pairs,
    entries_from_pairs,
    keys_distinct,
    lemma_entries_from_pairs,
    PairView,
    Params,
};
use crate::utils::{group, group_text, CaptureView};
use crate::text::{decimal, parse_u32, parse_u32_spec, push_decimal, push_str};

verus! {

/// The items that `f` maps to `Some`, in order: what
/// `for x in s { if let Some(y) = f(x) { out.push(y) } }` collects.
pub open spec fn filter_map<A, B>(s: Seq<A>, f: spec_fn(A) -> Option<B>) -> Seq<B>
    decreases s.len(),
{
    if s.len() == 0 {
        seq![]
    } else {
        let rest = filter_map(s.drop_last(), f);
        match f(s.last()) {
            Some(b) => rest.push(b),
            None => rest,
        }
    }
}

/// Every item that `filter_map` keeps is what `f` gives for some item of
/// `s`.
pub proof fn lemma_filter_map_source<A, B>(s: Seq<A>, f: spec_fn(A) -> Option<B>, j: int)
    requires
        0 <= j < filter_map(s, f).len(),
    ensures
        exists|i: int| 0 <= i < s.len() && f(s[i]) == Some(filter_map(s, f)[j]),
    decreases s.len(),
{
    let rest = filter_map(s.drop_last(), f);
    if j < rest.len() {
        lemma_filter_map_source(s.drop_last(), f, j);
        let i = choose|i: int| 0 <= i < s.drop_last().len() && f(s.drop_last()[i]) == Some(rest[j]);
        assert(s[i] == s.drop_last()[i]);
    } else {
        assert(f(s[s.len() - 1]) == Some(filter_map(s, f)[j]));
    }
}

/// Whether `f` keeps an item.
pub open spec fn kept_by<A, B>(f: spec_fn(A) -> Option<B>) -> spec_fn(A) -> bool {
    |a: A| f(a) is Some
}

/// Adding an item at the end adds what `f` gives for it, if anything, at the
/// end of what `filter_map` keeps.
pub proof fn lemma_filter_map_push<A, B>(s: Seq<A>, x: A, f: spec_fn(A) -> Option<B>)
    ensures
        filter_map(s.push(x), f) == match f(x) {
            Some(b) => filter_map(s, f).push(b),
            None => filter_map(s, f),
        },
{
    assert(s.push(x).drop_last() =~= s);
}

/// `filter_map` keeps exactly one value for each item that `f` maps to
/// `Some`.
pub proof fn lemma_filter_map_len<A, B>(s: Seq<A>, f: spec_fn(A) -> Option<B>)
    ensures
        filter_map(s, f).len() == s.filter(kept_by(f)).len(),
    decreases s.len(),
{
    reveal(Seq::filter);
    if s.len() > 0 {
        lemma_filter_map_len(s.drop_last(), f);
    }
}

/// The value of the item at `i`, where `f` keeps it, stands in what
/// `filter_map` keeps right after the values of the items before `i`.
pub proof fn lemma_filter_map_position<A, B>(s: Seq<A>, f: spec_fn(A) -> Option<B>, i: int)
    requires
        0 <= i < s.len(),
        f(s[i]) is Some,
    ensures
        filter_map(s.take(i), f).len() < filter_map(s, f).len(),
        filter_map(s, f)[filter_map(s.take(i), f).len() as int] == f(s[i])->0,
    decreases s.len(),
{
    let rest = filter_map(s.drop_last(), f);
    if i == s.len() - 1 {
        assert(s.take(i) =~= s.drop_last());
    } else {
        assert(s.drop_last().take(i) =~= s.take(i));
        assert(s.drop_last()[i] == s[i]);
        lemma_filter_map_position(s.drop_last(), f, i);
    }
}

/// The port read from a text, or 0 where it does not parse
/// (`port.parse::<u32>().unwrap_or(0)`).
pub open spec fn port_or_zero(t: Seq<char>) -> u32 {
    match parse_u32_spec(t) {
        Some(p) => p,
        None => 0,
    }
}

/// The parts of a `user@host:port?query` link, as characters.
pub struct LinkPartsView {
    pub user: Seq<char>,
    pub host: Seq<char>,
    pub port: u32,
    pub params: Seq<PairView>,
}

/// The parts read from the groups `ku`, `kh`, `kp` and `kq` of a match, or
/// `None` where one of these groups is empty. The query is decoded into
/// parameters, a later value of a key replacing an earlier one.
pub open spec fn link_parts(cap: CaptureView, ku: int, kh: int, kp: int, kq: int) -> Option<
    LinkPartsView,
> {
    let user = group_text(cap, ku);
    let host = group_text(cap, kh);
    let port = group_text(cap, kp);
    let query = group_text(cap, kq);
    if user.len() == 0 || host.len() == 0 || port.len() == 0 || query.len() == 0 {
        None
    } else {
        Some(
            LinkPartsView {
                user,
                host,
                port: port_or_zero(port),
                params: entries_from_pairs(form_pairs_of(query)),
            },
        )
    }
}

/// What the parts of a link keep: user and host are not empty, and no
/// parameter key occurs twice.
pub proof fn lemma_link_parts_wf(cap: CaptureView, ku: int, kh: int, kp: int, kq: int)
    requires
        link_parts(cap, ku, kh, kp, kq) is Some,
    ensures
        ({
            let p = link_parts(cap, ku, kh, kp, kq).unwrap();
            p.user.len() > 0 && p.host.len() > 0 && keys_distinct(p.params)
        }),
{
    lemma_entries_from_pairs(form_pairs_of(group_text(cap, kq)));
}

/// Reading back a written link: a match whose groups hold the user, host,
/// decimal port and query that a link writes gives these parts back, the
/// query decoded into parameters.
pub proof fn lemma_link_parts_read_back(
    cap: CaptureView,
    ku: int,
    kh: int,
    kp: int,
    kq: int,
    user: Seq<char>,
    host: Seq<char>,
    port: u32,
    query: Seq<char>,
)
    requires
        0 <= ku < cap.len(),
        0 <= kh < cap.len(),
        0 <= kp < cap.len(),
        0 <= kq < cap.len(),
        cap[ku] == Some(user),
        cap[kh] == Some(host),
        cap[kp] == Some(decimal(port as nat)),
        cap[kq] == Some(query),
        user.len() > 0,
        host.len() > 0,
        query.len() > 0,
    ensures
        link_parts(cap, ku, kh, kp, kq) == Some(
            LinkPartsView { user, host, port, params: entries_from_pairs(form_pairs_of(query)) },
        ),
{
    crate::text::lemma_parse_decimal_roundtrip(port);
    crate::text::lemma_decimal_nonempty(port as nat);
}

/// The parts of a `user@host:port?query` link.
pub struct LinkParts {
    pub user: String,
    pub host: String,
    pub port: u32,
    pub params: Params,
}

impl View for LinkParts {
    type V = LinkPartsView;

    open spec fn view(&self) -> LinkPartsView {
        LinkPartsView {
            user: self.user@,
            host: self.host@,
            port: self.port,
            params: self.params@,
        }
    }
}

/// Reads the parts of a link from the groups `ku`, `kh`, `kp` and `kq` of a
/// match.
pub fn read_link_parts(
    cap: &Vec<Option<String>>,
    ku: usize,
    kh: usize,
    kp: usize,
    kq: usize,
) -> (res: Option<LinkParts>)
    ensures
        res matches Some(p) ==> link_parts(
            cap.deep_view(),
            ku as int,
            kh as int,
            kp as int,
            kq as int,
        ) == Some(p@),
        res is None ==> link_parts(
            cap.deep_view(),
            ku as int,
            kh as int,
            kp as int,
            kq as int,
        ) is None,
{
    let user = group(cap, ku);
    let host = group(cap, kh);
    let port = group(cap, kp);
    let query = group(cap, kq);
    if user.is_empty() || host.is_empty() || port.is_empty() || query.is_empty() {
        return None;
    }
    let port: u32 = match parse_u32(port) {
        Some(p) => p,
        None => 0,
    };
    let pairs = form_decode(query);
    let params = Params::from_pairs(&pairs);
    Some(LinkParts { user: user.to_owned(), host: host.to_owned(), port, params })
}

/// The urlencoded parameters, or nothing where there are none.
pub open spec fn optional_query(p: Option<Seq<PairView>>) -> Seq<char> {
    match p {
        Some(e) => form_encode_pairs(e),
        None => seq![],
    }
}

/// `scheme://user@host:port?query`.
pub open spec fn authority_url(
    scheme: Seq<char>,
    user: Seq<char>,
    host: Seq<char>,
    port: u32,
    query: Seq<char>,
) -> Seq<char> {
    scheme + "://"@ + user + "@"@ + host + ":"@ + decimal(port as nat) + "?"@ + query
}

/// Writes `scheme://user@host:port?query`.
pub fn write_authority_url(scheme: &str, user: &str, host: &str, port: u32, query: &str) -> (res:
    String)
    ensures
        res@ == authority_url(scheme@, user@, host@, port, query@),
{
    let mut s = String::new();
    push_str(&mut s, scheme);
    push_str(&mut s, "://");
    push_str(&mut s, user);
    push_str(&mut s, "@");
    push_str(&mut s, host);
    push_str(&mut s, ":");
    push_decimal(&mut s, port);
    push_str(&mut s, "?");
    push_str(&mut s, query);
    s
}

} // verus!
