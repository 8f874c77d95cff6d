//! Outbound URL validation: the anti-SSRF policy consulted before a web
//! surface is created or navigated.
//!
//! A destination is allowed only when its scheme is `http` or `https`,
//! its host is none of the literal loopback names, and its host is not a
//! dotted-decimal IPv4 address inside one of the private ranges
//! 10.0.0.0/8, 172.16.0.0/12 or 192.168.0.0/16. This is a best-effort,
//! pre-connection check: hostnames that merely resolve to private
//! addresses, IPv6 private ranges and post-load redirects pass it.

use vstd::prelude::*;

use crate::text::{split_on, split_str, str_eq, views_of};
use crate::url_parse::{parse_url, url_parse_result};

verus! {

/// The parts of a parsed absolute URL that the policy reads, as plain
/// strings: the scheme, the host (empty where the URL has none), and the
/// full serialization used to reach the destination.
#[derive(Debug, Clone)]
pub struct UrlParts {
    pub scheme: String,
    pub host: String,
    pub serialization: String,
}

/// The mathematical value of a [`UrlParts`]: its three fields as
/// character sequences.
pub struct UrlPartsView {
    pub scheme: Seq<char>,
    pub host: Seq<char>,
    pub serialization: Seq<char>,
}

impl View for UrlParts {
    type V = UrlPartsView;

    open spec fn view(&self) -> UrlPartsView {
        UrlPartsView { scheme: self.scheme@, host: self.host@, serialization: self.serialization@ }
    }
}

/// The view a triple returned by [`url_parse_result`] stands for.
pub open spec fn parts_view(t: (Seq<char>, Seq<char>, Seq<char>)) -> UrlPartsView {
    UrlPartsView { scheme: t.0, host: t.1, serialization: t.2 }
}

pub open spec fn is_digit(c: char) -> bool {
    48 <= c as u32 && c as u32 <= 57
}

pub open spec fn digit_val(c: char) -> int {
    c as u32 - 48
}

/// The value of a sequence of decimal digits, most significant first.
pub open spec fn decimal_val(t: Seq<char>) -> int
    decreases t.len(),
{
    if t.len() == 0 {
        0
    } else {
        decimal_val(t.drop_last()) * 10 + digit_val(t.last())
    }
}

/// A valid dotted-decimal IPv4 octet as `Ipv4Addr` parses it: one to
/// three digits, no leading zero, value at most 255.
pub open spec fn is_ipv4_octet(t: Seq<char>) -> bool {
    &&& 1 <= t.len() <= 3
    &&& forall|i: int| 0 <= i < t.len() ==> is_digit(t[i])
    &&& t.len() > 1 ==> t[0] != '0'
    &&& decimal_val(t) <= 255
}

/// The four octet values of `h` where `h` is a dotted-decimal IPv4
/// address, `None` otherwise.
pub open spec fn ipv4_octets(h: Seq<char>) -> Option<Seq<int>> {
    let parts = split_on(h, '.');
    if parts.len() == 4 && (forall|i: int| 0 <= i < 4 ==> is_ipv4_octet(parts[i])) {
        Some(
            seq![
                decimal_val(parts[0]),
                decimal_val(parts[1]),
                decimal_val(parts[2]),
                decimal_val(parts[3]),
            ],
        )
    } else {
        None
    }
}

/// The host is an IPv4 address in 10.0.0.0/8, 172.16.0.0/12 or
/// 192.168.0.0/16.
pub open spec fn is_private_ipv4(h: Seq<char>) -> bool {
    match ipv4_octets(h) {
        Some(o) => o[0] == 10 || (o[0] == 172 && 16 <= o[1] <= 31) || (o[0] == 192 && o[1] == 168),
        None => false,
    }
}

pub open spec fn scheme_allowed(s: Seq<char>) -> bool {
    s == "http"@ || s == "https"@
}

/// Hosts blocked by exact string match.
pub open spec fn host_blocked(h: Seq<char>) -> bool {
    h == "localhost"@ || h == "127.0.0.1"@ || h == "0.0.0.0"@ || h == "::1"@
}

/// The whole URL policy: scheme allowed, host not a blocked literal, host
/// not a private IPv4 address.
pub open spec fn url_allowed(u: UrlPartsView) -> bool {
    scheme_allowed(u.scheme) && !host_blocked(u.host) && !is_private_ipv4(u.host)
}

/// The rejection reason [`validate_external_url`] reports for a URL the
/// policy refuses, checked in the policy's order.
pub open spec fn url_reject_message(u: UrlPartsView) -> Seq<char> {
    if !scheme_allowed(u.scheme) {
        "Blocked URL scheme: "@ + u.scheme
    } else if host_blocked(u.host) {
        "Blocked URL host: "@ + u.host
    } else {
        "Blocked private IP: "@ + u.host
    }
}

/// Parses one dotted-decimal octet; `Some` exactly on valid octets.
fn parse_octet(t: &str) -> (r: Option<u8>)
    ensures
        match r {
            Some(v) => is_ipv4_octet(t@) && v as int == decimal_val(t@),
            None => !is_ipv4_octet(t@),
        },
{
    let n = t.unicode_len();
    if n == 0 || n > 3 {
        return None;
    }
    if n > 1 && t.get_char(0) == '0' {
        return None;
    }
    let mut val: u32 = 0;
    let mut i: usize = 0;
    proof {
        assert(t@.take(0) =~= Seq::<char>::empty());
    }
    while i < n
        invariant
            n == t@.len(),
            1 <= n <= 3,
            0 <= i <= n,
            forall|j: int| 0 <= j < i ==> is_digit(t@[j]),
            val as int == decimal_val(t@.take(i as int)),
            i <= 1 ==> val <= 9,
            i <= 2 ==> val <= 99,
            val <= 999,
        decreases n - i,
    {
        let c = t.get_char(i);
        let u = c as u32;
        if !(48 <= u && u <= 57) {
            return None;
        }
        proof {
            assert(t@.take(i + 1).drop_last() =~= t@.take(i as int));
            assert(t@.take(i + 1).last() == t@[i as int]);
        }
        val = val * 10 + (u - 48);
        i += 1;
    }
    proof {
        assert(t@.take(n as int) =~= t@);
    }
    if val > 255 {
        return None;
    }
    Some(val as u8)
}

/// Decides [`is_private_ipv4`] for a host string.
fn host_is_private_ipv4(h: &str) -> (r: bool)
    ensures
        r == is_private_ipv4(h@),
{
    let parts = split_str(h, '.');
    if parts.len() != 4 {
        return false;
    }
    let o0 = parse_octet(parts[0].as_str());
    let o1 = parse_octet(parts[1].as_str());
    let o2 = parse_octet(parts[2].as_str());
    let o3 = parse_octet(parts[3].as_str());
    match (o0, o1, o2, o3) {
        (Some(a), Some(b), Some(c), Some(d)) => {
            proof {
                let sp = split_on(h@, '.');
                assert(sp[0] == parts@[0]@ && sp[1] == parts@[1]@ && sp[2] == parts@[2]@ && sp[3]
                    == parts@[3]@);
                assert(ipv4_octets(h@) == Some(
                    seq![a as int, b as int, c as int, d as int],
                ));
            }
            a == 10 || (a == 172 && 16 <= b && b <= 31) || (a == 192 && b == 168)
        },
        _ => {
            proof {
                let sp = split_on(h@, '.');
                assert(sp[0] == parts@[0]@ && sp[1] == parts@[1]@ && sp[2] == parts@[2]@ && sp[3]
                    == parts@[3]@);
            }
            false
        },
    }
}

/// The URL policy of the shell: given a parsed absolute URL, returns
/// `Ok` exactly on destinations the policy allows, and otherwise the
/// rejection reason for the first rule the URL breaks.
pub fn validate_external_url(u: &UrlParts) -> (r: Result<(), String>)
    ensures
        r is Ok <==> url_allowed(u@),
        r is Err ==> r->Err_0@ == url_reject_message(u@),
{
    if !(str_eq(u.scheme.as_str(), "http") || str_eq(u.scheme.as_str(), "https")) {
        return Err(String::from_str("Blocked URL scheme: ").concat(u.scheme.as_str()));
    }
    if str_eq(u.host.as_str(), "localhost") || str_eq(u.host.as_str(), "127.0.0.1") || str_eq(
        u.host.as_str(),
        "0.0.0.0",
    ) || str_eq(u.host.as_str(), "::1") {
        return Err(String::from_str("Blocked URL host: ").concat(u.host.as_str()));
    }
    if host_is_private_ipv4(u.host.as_str()) {
        return Err(String::from_str("Blocked private IP: ").concat(u.host.as_str()));
    }
    Ok(())
}

/// Parses a candidate destination and holds it to the URL policy: the
/// combined check run before a surface is created or navigated.
pub fn check_url(url: &str) -> (r: Result<UrlParts, String>)
    ensures
        match url_parse_result(url@) {
            None => r is Err,
            Some(t) => if url_allowed(parts_view(t)) {
                r is Ok && r->Ok_0@ == parts_view(t)
            } else {
                r is Err && r->Err_0@ == url_reject_message(parts_view(t))
            },
        },
{
    let parts = match parse_url(url) {
        Ok(p) => p,
        Err(e) => {
            return Err(e);
        },
    };
    match validate_external_url(&parts) {
        Ok(()) => Ok(parts),
        Err(m) => Err(m),
    }
}

} // verus!
