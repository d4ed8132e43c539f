//! The kinds of proxy, as named on the command line.

use vstd::prelude::*;
use crate::bindings::{lowercase_of, to_lowercase};
use crate::text::{all_ascii, ascii_lower, str_eq};

verus! {

/// A kind of proxy.
#[derive(Debug, Clone, Copy, PartialEq, Eq, Structural)]
pub enum ProxyType {
    MTProxy,
    Shadowsocks,
    VMess,
    VLess,
    Trojan,
    Hysteria,
    TUIC,
}

/// The kind that a lower-case name stands for.
pub open spec fn kind_of_lowercase(name: Seq<char>) -> Option<ProxyType> {
    if name == "mtproxy"@ {
        Some(ProxyType::MTProxy)
    } else if name == "ss"@ || name == "shadowsocks"@ {
        Some(ProxyType::Shadowsocks)
    } else if name == "vmess"@ {
        Some(ProxyType::VMess)
    } else if name == "vless"@ {
        Some(ProxyType::VLess)
    } else if name == "trojan"@ {
        Some(ProxyType::Trojan)
    } else if name == "hysteria"@ {
        Some(ProxyType::Hysteria)
    } else if name == "tuic"@ {
        Some(ProxyType::TUIC)
    } else {
        None
    }
}

/// The kind that a name stands for, whatever its case.
pub open spec fn kind_of_name(name: Seq<char>) -> Option<ProxyType> {
    kind_of_lowercase(lowercase_of(name))
}

impl ProxyType {
    /// The kind that a lower-case name stands for.
    pub fn from_lowercase(name: &str) -> (res: Result<ProxyType, ()>)
        ensures
            match kind_of_lowercase(name@) {
                Some(k) => res == Ok::<ProxyType, ()>(k),
                None => res is Err,
            },
    {
        if str_eq(name, "mtproxy") {
            Ok(ProxyType::MTProxy)
        } else if str_eq(name, "ss") || str_eq(name, "shadowsocks") {
            Ok(ProxyType::Shadowsocks)
        } else if str_eq(name, "vmess") {
            Ok(ProxyType::VMess)
        } else if str_eq(name, "vless") {
            Ok(ProxyType::VLess)
        } else if str_eq(name, "trojan") {
            Ok(ProxyType::Trojan)
        } else if str_eq(name, "hysteria") {
            Ok(ProxyType::Hysteria)
        } else if str_eq(name, "tuic") {
            Ok(ProxyType::TUIC)
        } else {
            Err(())
        }
    }

    /// The kind that a name stands for, whatever its case: `mtproxy`, `ss`
    /// or `shadowsocks`, `vmess`, `vless`, `trojan`, `hysteria` or `tuic`.
    /// An ASCII name is read without regard to its case.
    pub fn from_str(name: &str) -> (res: Result<ProxyType, ()>)
        ensures
            match kind_of_name(name@) {
                Some(k) => res == Ok::<ProxyType, ()>(k),
                None => res is Err,
            },
            all_ascii(name@) ==> match kind_of_lowercase(
                name@.map_values(|c: char| ascii_lower(c)),
            ) {
                Some(k) => res == Ok::<ProxyType, ()>(k),
                None => res is Err,
            },
    {
        let lower = to_lowercase(name);
        ProxyType::from_lowercase(lower.as_str())
    }
}

} // verus!
