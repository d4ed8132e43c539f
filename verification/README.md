# proxy_scraper

Picks the share links of proxies (MTProxy, Shadowsocks, VMess, VLess,
Trojan, Hysteria, TUIC) out of a text, reads each link into a value, and
writes values back as links. The library under `src/` is verified with
Verus; `app/` is the command-line tool that fetches a page and prints what
the library finds in it.

Layout of `src/`:

- `text.rs`: character-level helpers (decimal formatting and parsing,
  replacement, joining) with their specifications.
- `b64.rs`: the URL-safe base64 encoding as a specification, and the proof
  that decoding undoes it.
- `form.rs`: the form-urlencoded serialization of query parameters, and
  `Params`, an ordered collection of parameters without repeated keys.
- `utils.rs`: separating the links of a text; reading regex groups.
- `link.rs`: what the `user@host:port?query` formats share.
- `mtproxy.rs`, `shadowsocks.rs`, `trojan.rs`, `tuic.rs`, `vless.rs`,
  `hysteria.rs`, `vmess.rs`: one module per proxy format.
- `proxy.rs`: the `Proxy` trait and descriptive URLs.
- `kind.rs`: the proxy kinds named on the command line.
- `bindings.rs`: the calls into std and the regex, base64, serde_urlencoded
  and url crates, each with the contract that the verified code relies on.
