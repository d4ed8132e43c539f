use proxy_scraper::b64::decode_base64;
use proxy_scraper::form::Params;
use proxy_scraper::hysteria::Hysteria;
use proxy_scraper::trojan::Trojan;
use proxy_scraper::vmess::{scrape_payloads, url_from_json};
use proxy_scraper::Proxy;
use proxy_scraper::kind::ProxyType;
use proxy_scraper::mtproxy::MTProxy;
use proxy_scraper::proxy::dedup;
use proxy_scraper::shadowsocks::Shadowsocks;
use proxy_scraper::text::{join_lines, parse_u32, replace_all, str_eq, u32_to_string};

#[test]
fn parse_u32_follows_std() {
    for s in ["", "+", "-1", "+5", "007", "4294967295", "4294967296", "1a", "\u{663}", " 1"] {
        assert_eq!(parse_u32(s), s.parse::<u32>().ok(), "{s:?}");
    }
}

#[test]
fn decimal_reads_back() {
    for n in [0u32, 1, 9, 10, 99, 100, 443, 65535, 4294967295] {
        let s = u32_to_string(n);
        assert_eq!(s, n.to_string());
        assert_eq!(parse_u32(&s), Some(n));
    }
}

#[test]
fn replace_follows_std() {
    for (s, f, t) in [
        ("&amp;amp;amp;", "&amp;amp;", "&"),
        ("aaaa", "aa", "b"),
        ("a%3Db%3D", "%3D", "="),
        ("", "x", "y"),
        ("xyz", "xyzw", "q"),
    ] {
        assert_eq!(replace_all(s, f, t), s.replace(f, t));
    }
}

#[test]
fn str_eq_compares_characters() {
    assert!(str_eq("abc", "abc"));
    assert!(!str_eq("abc", "abd"));
    assert!(!str_eq("ab", "abc"));
    assert!(str_eq("", ""));
}

#[test]
fn join_lines_puts_breaks_between() {
    assert_eq!(join_lines(&vec![]), "");
    assert_eq!(join_lines(&vec!["a".to_string()]), "a");
    assert_eq!(join_lines(&vec!["a".to_string(), "b".to_string(), "".to_string()]), "a\nb\n");
}

#[test]
fn params_insert_replaces_in_place() {
    let mut p = Params::new();
    p.insert("a".to_string(), "1".to_string());
    p.insert("b".to_string(), "2".to_string());
    p.insert("a".to_string(), "3".to_string());
    assert_eq!(p.len(), 2);
    assert_eq!(
        p.entries(),
        &vec![("a".to_string(), "3".to_string()), ("b".to_string(), "2".to_string())]
    );
    assert_eq!(p.get("a").unwrap(), "3");
    assert!(p.get("c").is_none());
    assert_eq!(p.get_or("c", "dflt"), "dflt");
}

#[test]
fn params_from_pairs_keeps_last_value() {
    let pairs = vec![
        ("k".to_string(), "1".to_string()),
        ("j".to_string(), "2".to_string()),
        ("k".to_string(), "3".to_string()),
    ];
    let p = Params::from_pairs(&pairs);
    assert_eq!(
        p.entries(),
        &vec![("k".to_string(), "3".to_string()), ("j".to_string(), "2".to_string())]
    );
}

#[test]
fn proxy_type_names_ignore_case() {
    assert_eq!(ProxyType::from_str("MTProxy"), Ok(ProxyType::MTProxy));
    assert_eq!(ProxyType::from_str("ss"), Ok(ProxyType::Shadowsocks));
    assert_eq!(ProxyType::from_str("ShadowSocks"), Ok(ProxyType::Shadowsocks));
    assert_eq!(ProxyType::from_str("VMESS"), Ok(ProxyType::VMess));
    assert_eq!(ProxyType::from_str("vless"), Ok(ProxyType::VLess));
    assert_eq!(ProxyType::from_str("Trojan"), Ok(ProxyType::Trojan));
    assert_eq!(ProxyType::from_str("hysteria"), Ok(ProxyType::Hysteria));
    assert_eq!(ProxyType::from_str("TUIC"), Ok(ProxyType::TUIC));
    assert_eq!(ProxyType::from_str("socks5"), Err(()));
    assert_eq!(ProxyType::from_str(""), Err(()));
}

#[test]
fn base64_decoding_undoes_encoding() {
    assert_eq!(decode_base64("YWVzLTI1Ni1nY206cGFzc3dvcmQ=").unwrap(), b"aes-256-gcm:password");
    assert_eq!(decode_base64("").unwrap(), b"");
    assert_eq!(decode_base64("-_8=").unwrap(), vec![0xfb, 0xff]);
    // padding that is not canonical, a character outside the alphabet, and
    // trailing bits that are set are refused.
    assert!(decode_base64("YQ").is_none());
    assert!(decode_base64("+/8=").is_none());
    assert!(decode_base64("YR==").is_none());
}

#[test]
fn shadowsocks_url_reads_back() {
    let proxy = Shadowsocks {
        host: "example.com".to_string(),
        port: 8388,
        password: "pass word".to_string(),
        method: "chacha20-ietf-poly1305".to_string(),
    };
    let text = format!("{}#tag", proxy.to_url());
    let back = Shadowsocks::scrape(&text);
    assert_eq!(back.len(), 1);
    assert_eq!(back[0].host, proxy.host);
    assert_eq!(back[0].port, proxy.port);
    assert_eq!(back[0].password, proxy.password);
    assert_eq!(back[0].method, proxy.method);
}

#[test]
fn mtproxy_query_pairs_read_back() {
    let pairs = vec![
        ("server".to_string(), "h".to_string()),
        ("port".to_string(), "70".to_string()),
        ("secret".to_string(), "ee".to_string()),
    ];
    let m = MTProxy::from_query_pairs(&pairs).unwrap();
    assert_eq!((m.host.as_str(), m.port, m.secret.as_str()), ("h", 70, "ee"));
    assert!(MTProxy::from_query_pairs(&pairs[..2].to_vec()).is_none());
}

#[test]
fn dedup_keeps_first_occurrences() {
    let v = vec!["b", "a", "b", "c", "a"].into_iter().map(String::from).collect();
    assert_eq!(dedup(v), vec!["b".to_string(), "a".to_string(), "c".to_string()]);
}

#[test]
fn trojan_url_reads_back() {
    let mut params = Params::new();
    params.insert("sni".to_string(), "a b.com".to_string());
    let proxy = Trojan {
        host: "host.example".to_string(),
        port: 2053,
        password: "secret-1".to_string(),
        parameters: params,
    };
    let text = format!("{}#name", proxy.to_url());
    let back = Trojan::scrape(&text);
    assert_eq!(back.len(), 1);
    assert_eq!(back[0].host, proxy.host);
    assert_eq!(back[0].port, proxy.port);
    assert_eq!(back[0].password, proxy.password);
    assert_eq!(back[0].parameters.entries(), proxy.parameters.entries());
}

#[test]
fn vmess_url_reads_back() {
    let json = "{\"add\":\"h.com\",\"port\":\"443\"}";
    let url = url_from_json(json.as_bytes());
    assert_eq!(scrape_payloads(&url), vec![json.to_string()]);
}

#[test]
fn pretty_url_starts_with_url() {
    let proxy = Hysteria {
        version: 1,
        host: "h".to_string(),
        port: 5,
        auth: "a".to_string(),
        parameters: None,
    };
    let pretty = proxy.to_url_pretty();
    assert!(pretty.starts_with(&proxy.to_url()));
    assert_eq!(pretty, "hysteria://a@h:5?#HYSTERIA1-TCP-TLS%20h:5");
}
