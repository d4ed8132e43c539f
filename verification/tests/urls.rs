use proxy_scraper::form::Params;
use proxy_scraper::hysteria::Hysteria;
use proxy_scraper::mtproxy::MTProxy;
use proxy_scraper::shadowsocks::Shadowsocks;
use proxy_scraper::trojan::Trojan;
use proxy_scraper::tuic::TUIC;
use proxy_scraper::vless::VLess;
use proxy_scraper::vmess::url_from_json;
use proxy_scraper::Proxy;

#[test]
fn hysteria_to_url_example() {
    let proxy = Hysteria {
        version: 1,
        host: "example.com".to_string(),
        port: 443,
        auth: "auth123".to_string(),
        parameters: Some(Params::new()),
    };
    assert_eq!(proxy.to_url(), "hysteria://auth123@example.com:443?");
}

#[test]
fn hysteria_version_two_uses_hy2_scheme() {
    let mut params = Params::new();
    params.insert("sni".to_string(), "a.com".to_string());
    let proxy = Hysteria {
        version: 2,
        host: "1.2.3.4".to_string(),
        port: 8443,
        auth: "pw".to_string(),
        parameters: Some(params),
    };
    assert_eq!(proxy.to_url(), "hy2://pw@1.2.3.4:8443?sni=a.com");
    assert_eq!(proxy.get_type(), "HYSTERIA2");
    assert_eq!(proxy.get_network(), "TCP");
    assert_eq!(proxy.get_security(), "TLS");
    assert_eq!(proxy.get_host(), "1.2.3.4");
    assert_eq!(proxy.get_port(), 8443);
    assert_eq!(
        proxy.to_url_pretty(),
        "hy2://pw@1.2.3.4:8443?sni=a.com#HYSTERIA2-TCP-TLS%201.2.3.4:8443"
    );
}

#[test]
fn hysteria_without_parameters_has_empty_query() {
    let proxy = Hysteria {
        version: 7,
        host: "h".to_string(),
        port: 1,
        auth: "a".to_string(),
        parameters: None,
    };
    assert_eq!(proxy.to_url(), "hy2://a@h:1?");
    assert_eq!(proxy.get_type(), "HYSTERIA2");
}

#[test]
fn shadowsocks_to_url_example() {
    let proxy = Shadowsocks {
        host: "example.com".to_string(),
        port: 443,
        password: "password".to_string(),
        method: "aes-256-gcm".to_string(),
    };
    assert_eq!(proxy.to_url(), "ss://YWVzLTI1Ni1nY206cGFzc3dvcmQ=@example.com:443");
}

#[test]
fn shadowsocks_to_url_uses_url_safe_alphabet() {
    // 0xfb 0xff encodes to "-_8=" in the URL-safe alphabet.
    let proxy = Shadowsocks {
        host: "h".to_string(),
        port: 1,
        password: "\u{ff}".to_string(),
        method: "".to_string(),
    };
    // ":" then U+00FF as UTF-8 (0xc3 0xbf): 0x3a 0xc3 0xbf -> "OsO_"
    assert_eq!(proxy.to_url(), "ss://OsO_@h:1");
}

#[test]
fn trojan_to_url_example() {
    let proxy = Trojan {
        host: "example.com".to_string(),
        port: 443,
        password: "password123".to_string(),
        parameters: Params::new(),
    };
    assert_eq!(proxy.to_url(), "trojan://password123@example.com:443?");
}

#[test]
fn trojan_to_url_encodes_parameters() {
    let mut params = Params::new();
    params.insert("a b".to_string(), "x&y".to_string());
    params.insert("é".to_string(), "1*2-3.4_5~".to_string());
    let proxy = Trojan {
        host: "h".to_string(),
        port: 0,
        password: "p".to_string(),
        parameters: params,
    };
    assert_eq!(proxy.to_url(), "trojan://p@h:0?a+b=x%26y&%C3%A9=1*2-3.4_5%7E");
}

#[test]
fn trojan_descriptions() {
    let mut params = Params::new();
    params.insert("type".to_string(), "ws".to_string());
    params.insert("security".to_string(), "tls".to_string());
    let proxy = Trojan {
        host: "example.com".to_string(),
        port: 443,
        password: "pw".to_string(),
        parameters: params,
    };
    assert_eq!(proxy.get_network(), "WS");
    assert_eq!(proxy.get_security(), "TLS");
    assert_eq!(proxy.get_type(), "TR");
    assert_eq!(
        proxy.to_url_pretty(),
        "trojan://pw@example.com:443?type=ws&security=tls#TR-WS-TLS%20example.com:443"
    );
}

#[test]
fn trojan_default_network_and_security() {
    let proxy = Trojan {
        host: "h".to_string(),
        port: 2,
        password: "pw".to_string(),
        parameters: Params::new(),
    };
    assert_eq!(proxy.get_network(), "TCP");
    assert_eq!(proxy.get_security(), "NONE");
}

#[test]
fn tuic_to_url_example() {
    let proxy = TUIC {
        host: "example.com".to_string(),
        port: 443,
        auth: "auth123".to_string(),
        parameters: Some(Params::new()),
    };
    assert_eq!(proxy.to_url(), "tuic://auth123@example.com:443?");
}

#[test]
fn vless_to_url_example() {
    let proxy = VLess {
        host: "example.com".to_string(),
        port: 443,
        id: "00000000-0000-0000-0000-000000000000".to_string(),
        parameters: None,
    };
    assert_eq!(
        proxy.to_url(),
        "vless://00000000-0000-0000-0000-000000000000@example.com:443?"
    );
}

#[test]
fn mtproxy_to_url() {
    let proxy = MTProxy {
        host: "1.2.3.4".to_string(),
        port: 4294967295,
        secret: "abcdef".to_string(),
    };
    assert_eq!(
        proxy.to_url(),
        "https://t.me/proxy?server=1.2.3.4&port=4294967295&secret=abcdef"
    );
}

#[test]
fn vmess_url_from_json_example() {
    let json = "{\n  \"add\": \"example.com\",\n  \"host\": \"www.example.com\",\n  \"id\": \"uuid\",\n  \"port\": 443,\n  \"net\": \"tcp\",\n  \"sni\": \"example.com\",\n  \"tls\": \"tls\"\n}";
    assert_eq!(url_from_json(json.as_bytes()), "vmess://ewogICJhZGQiOiAiZXhhbXBsZS5jb20iLAogICJob3N0IjogInd3dy5leGFtcGxlLmNvbSIsCiAgImlkIjogInV1aWQiLAogICJwb3J0IjogNDQzLAogICJuZXQiOiAidGNwIiwKICAic25pIjogImV4YW1wbGUuY29tIiwKICAidGxzIjogInRscyIKfQ==");
}

#[test]
fn trojan_pretty_url_without_parameters() {
    let proxy = Trojan {
        host: "example.com".to_string(),
        port: 443,
        password: "pw".to_string(),
        parameters: Params::new(),
    };
    assert_eq!(
        proxy.to_url_pretty(),
        "trojan://pw@example.com:443?#TR-TCP-NONE%20example.com:443"
    );
}
