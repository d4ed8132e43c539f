//! Proxy scraping: picking the share links of proxies (MTProxy,
//! Shadowsocks, VMess, VLess, Trojan, Hysteria, TUIC) out of a text, reading
//! each into a value, and writing values back as links.

pub mod b64;
pub mod bindings;
pub mod form;
pub mod hysteria;
pub mod kind;
pub mod link;
pub mod mtproxy;
pub mod proxy;
pub mod shadowsocks;
pub mod text;
pub mod trojan;
pub mod tuic;
pub mod utils;
pub mod vless;
pub mod vmess;

pub use proxy::Proxy;
