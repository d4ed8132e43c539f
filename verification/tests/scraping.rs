use proxy_scraper::hysteria::Hysteria;
use proxy_scraper::mtproxy::MTProxy;
use proxy_scraper::shadowsocks::Shadowsocks;
use proxy_scraper::trojan::Trojan;
use proxy_scraper::tuic::TUIC;
use proxy_scraper::utils::{seperate_links, try_seperate_links};
use proxy_scraper::vless::VLess;
use proxy_scraper::vmess::{scrape_payloads, try_scrape_payloads};
use proxy_scraper::Proxy;

#[test]
fn links_are_separated_one_per_line() {
    let text = "see https://x.com/a?b=1&amp;amp;c=2%3D and <ss://abc@h:1#t>, then trojan://p@q:2?a=b#n.";
    assert_eq!(
        seperate_links(text),
        "https://x.com/a?b=1&c=2=\nss://abc@h:1#t>\ntrojan://p@q:2?a=b#n\n"
    );
    assert_eq!(try_seperate_links(text).unwrap(), seperate_links(text));
}

#[test]
fn no_links_give_empty_text() {
    assert_eq!(seperate_links("nothing to see here"), "");
}

#[test]
fn trojan_scrape_reads_fields() {
    let text = "Check trojan://pass@host.com:443?type=ws&security=tls#name now";
    let proxies = Trojan::scrape(text);
    assert_eq!(proxies.len(), 1);
    let p = &proxies[0];
    assert_eq!(p.password, "pass");
    assert_eq!(p.host, "host.com");
    assert_eq!(p.port, 443);
    assert_eq!(p.parameters.get("type").unwrap(), "ws");
    assert_eq!(p.parameters.get("security").unwrap(), "tls");
    assert_eq!(p.get_network(), "WS");
    assert_eq!(p.to_url(), "trojan://pass@host.com:443?type=ws&security=tls");
}

#[test]
fn trojan_scrape_later_parameter_value_wins() {
    let text = "trojan://pass@host.com:443?type=ws&sni=a&type=grpc#name";
    let proxies = Trojan::scrape(text);
    assert_eq!(proxies.len(), 1);
    assert_eq!(proxies[0].parameters.len(), 2);
    assert_eq!(proxies[0].parameters.get("type").unwrap(), "grpc");
    assert_eq!(proxies[0].get_network(), "GRPC");
}

#[test]
fn trojan_scrape_port_that_overflows_is_zero() {
    let text = "trojan://pass@host.com:99999999999?a=b#name";
    let proxies = Trojan::scrape(text);
    assert_eq!(proxies.len(), 1);
    assert_eq!(proxies[0].port, 0);
}

#[test]
fn trojan_scrape_needs_fragment_and_parameters() {
    assert_eq!(Trojan::scrape("trojan://pass@host.com:443?a=b").len(), 0);
    assert_eq!(Trojan::scrape("trojan://pass@host.com:443#x").len(), 0);
}

#[test]
fn trojan_scrape_pretty_keeps_each_url_once() {
    let text = "trojan://pw@h.com:1?type=ws#a\ntrojan://pw@h.com:1?type=ws#b\ntrojan://pw@i.com:2?x=y#c";
    let urls = Trojan::scrape_pretty(text);
    assert_eq!(
        urls,
        vec![
            "trojan://pw@h.com:1?type=ws#TR-WS-NONE%20h.com:1".to_string(),
            "trojan://pw@i.com:2?x=y#TR-TCP-NONE%20i.com:2".to_string(),
        ]
    );
    assert_eq!(Trojan::try_scrape_pretty(text).unwrap(), urls);
}

#[test]
fn hysteria_scrape_reads_version() {
    let text = "hysteria2://auth@h.com:8443?sni=a.com#x hysteria://key@i.com:443?up=10#y";
    let proxies = Hysteria::scrape(text);
    assert_eq!(proxies.len(), 2);
    assert_eq!(proxies[0].version, 2);
    assert_eq!(proxies[0].auth, "auth");
    assert_eq!(proxies[0].host, "h.com");
    assert_eq!(proxies[0].port, 8443);
    assert_eq!(proxies[1].version, 1);
    assert_eq!(proxies[1].to_url(), "hysteria://key@i.com:443?up=10");
    assert_eq!(Hysteria::scrape_pretty(text).len(), 2);
}

#[test]
fn tuic_scrape_reads_fields() {
    let text = "tuic://auth@h.com:443?congestion_control=bbr#t";
    assert_eq!(seperate_links(text), "tuic://auth@h.com:443?congestion_control=bbr#t\n");
    let proxies = TUIC::scrape(text);
    assert_eq!(proxies.len(), 1);
    assert_eq!(proxies[0].auth, "auth");
    assert_eq!(proxies[0].host, "h.com");
    assert_eq!(proxies[0].port, 443);
    assert_eq!(proxies[0].to_url(), "tuic://auth@h.com:443?congestion_control=bbr");
}

#[test]
fn tuic_from_captures_reads_fields() {
    let some = |s: &str| Some(s.to_string());
    let caps = vec![
        vec![some("whole"), some("auth"), some("h.com:443"), some("h.com"), some("443"), some("cc=bbr")],
        vec![some("whole"), some(""), some("h.com:443"), some("h.com"), some("443"), some("cc=bbr")],
        vec![some("whole"), some("a"), None, some("h"), some("1"), some("x=y")],
    ];
    let proxies = TUIC::from_captures(&caps);
    assert_eq!(proxies.len(), 2);
    assert_eq!(proxies[0].auth, "auth");
    assert_eq!(proxies[0].to_url(), "tuic://auth@h.com:443?cc=bbr");
    assert_eq!(proxies[1].to_url(), "tuic://a@h:1?x=y");
}

#[test]
fn vless_scrape_reads_uuid() {
    let text = "vless://0123abcd-0000-1111-2222-333344445555@h.com:443?encryption=none&type=ws#v";
    let proxies = VLess::try_scrape(text).unwrap();
    assert_eq!(proxies.len(), 1);
    assert_eq!(proxies[0].id, "0123abcd-0000-1111-2222-333344445555");
    assert_eq!(
        proxies[0].to_url(),
        "vless://0123abcd-0000-1111-2222-333344445555@h.com:443?encryption=none&type=ws"
    );
    assert_eq!(VLess::scrape("vless://not-a-uuid@h.com:443?a=b#v").len(), 0);
}

#[test]
fn shadowsocks_scrape_decodes_user_info() {
    let text = "ss://YWVzLTI1Ni1nY206cGFzc3dvcmQ=@example.com:443#tag";
    let proxies = Shadowsocks::scrape(text);
    assert_eq!(proxies.len(), 1);
    assert_eq!(proxies[0].method, "aes-256-gcm");
    assert_eq!(proxies[0].password, "password");
    assert_eq!(proxies[0].host, "example.com");
    assert_eq!(proxies[0].port, 443);
    assert_eq!(proxies[0].to_url(), "ss://YWVzLTI1Ni1nY206cGFzc3dvcmQ=@example.com:443");
}

#[test]
fn shadowsocks_password_is_second_field() {
    // "m:p:q" encodes to "bTpwOnE="
    let proxies = Shadowsocks::scrape("ss://bTpwOnE=@h.com:8#x");
    assert_eq!(proxies.len(), 1);
    assert_eq!(proxies[0].method, "m");
    assert_eq!(proxies[0].password, "p");
}

#[test]
fn shadowsocks_port_zero_is_skipped() {
    assert_eq!(Shadowsocks::scrape("ss://bTpwOnE=@h.com:0#x").len(), 0);
}

#[test]
fn shadowsocks_unreadable_matches_are_skipped() {
    // "abc" has no ':'.
    assert_eq!(Shadowsocks::scrape("ss://YWJj@h.com:1#n").len(), 0);
    assert_eq!(Shadowsocks::try_scrape("ss://YWJj@h.com:1#x").unwrap().len(), 0);
    // the port does not fit in a u32.
    assert_eq!(Shadowsocks::scrape("ss://bTpwOnE=@h.com:99999999999#x").len(), 0);
    // a readable match after an unreadable one is still read.
    let proxies = Shadowsocks::scrape("ss://YWJj@h.com:1#x ss://bTpwOnE=@i.com:2#y");
    assert_eq!(proxies.len(), 1);
    assert_eq!(proxies[0].host, "i.com");
    // nothing to read at all.
    assert_eq!(Shadowsocks::try_scrape("no links").unwrap().len(), 0);
}

#[test]
fn mtproxy_scrape_reads_query() {
    let text = "join https://t.me/proxy?server=1.2.3.4&port=443&secret=abcdef";
    let proxies = MTProxy::scrape(text);
    assert_eq!(proxies.len(), 1);
    assert_eq!(proxies[0].host, "1.2.3.4");
    assert_eq!(proxies[0].port, 443);
    assert_eq!(proxies[0].secret, "abcdef");
    assert_eq!(
        proxies[0].to_url(),
        "https://t.me/proxy?server=1.2.3.4&port=443&secret=abcdef"
    );
}

#[test]
fn mtproxy_port_that_does_not_parse_is_443() {
    let proxies = MTProxy::try_scrape("https://t.me/proxy?server=h&port=x&secret=ab").unwrap();
    assert_eq!(proxies.len(), 1);
    assert_eq!(proxies[0].port, 443);
}

#[test]
fn mtproxy_without_secret_is_skipped() {
    assert_eq!(MTProxy::scrape("https://t.me/proxy?server=h&port=1").len(), 0);
}

#[test]
fn vmess_payloads_are_decoded() {
    let text = "vmess://eyJhZGQiOiJoIn0= and more";
    assert_eq!(scrape_payloads(text), vec!["{\"add\":\"h\"}".to_string()]);
    assert_eq!(try_scrape_payloads(text).unwrap(), scrape_payloads(text));
}

#[test]
fn vmess_payload_that_is_not_utf8_is_skipped() {
    // "gA==" decodes to the single byte 0x80, which is not UTF-8.
    assert_eq!(scrape_payloads("vmess://gA=="), Vec::<String>::new());
    assert_eq!(try_scrape_payloads("vmess://gA== vmess://eyJhZGQiOiJoIn0=").unwrap().len(), 1);
}

#[test]
fn vmess_payload_that_is_not_base64_is_skipped() {
    // "eyJ+" holds a character outside the URL-safe alphabet.
    assert_eq!(scrape_payloads("vmess://eyJ+ and more").len(), 0);
}

#[test]
fn trojan_scrape_pretty_collapses_duplicates() {
    let source = "trojan://pw@example.com:443?security=tls#a trojan://pw@example.com:443?security=tls#b";
    let urls = Trojan::try_scrape_pretty(source).unwrap();
    assert_eq!(
        urls,
        vec!["trojan://pw@example.com:443?security=tls#TR-TCP-TLS%20example.com:443".to_string()]
    );
}
