//! Access rules of the box-local status API: who may call it and with what.
use vstd::prelude::*;
use crate::text::{
    concat2, concat3, has_prefix, int_text, int_to_string, seq_eq, starts_with, str_eq, to_chars,
};

verus! {

/// A peer address, by its octets.
#[derive(Debug, Clone, Copy, PartialEq, Eq)]
pub enum PeerIp {
    V4([u8; 4]),
    V6([u8; 16]),
}

/// `Authorization` header value is exactly `Bearer <expected>`.
pub open spec fn bearer_ok(expected: Seq<char>, header: Option<Seq<char>>) -> bool {
    match header {
        Some(h) => has_prefix(h, "Bearer "@) && h.subrange(7, h.len() as int) == expected,
        None => false,
    }
}

/// Whether the `Authorization` header carries the expected bearer token.
pub fn bearer_authorized(expected: &str, header: Option<&str>) -> (b: bool)
    ensures
        b == bearer_ok(
            expected@,
            match header {
                Some(h) => Some(h@),
                None => None,
            },
        ),
{
    match header {
        Some(h) => {
            let c = to_chars(h);
            let p = to_chars("Bearer ");
            proof {
                reveal_strlit("Bearer ");
            }
            if !starts_with(c.as_slice(), p.as_slice()) {
                return false;
            }
            let rest = crate::text::slice_range(c.as_slice(), 7, c.len());
            let e = to_chars(expected);
            seq_eq(rest.as_slice(), e.as_slice())
        },
        None => false,
    }
}

/// Requests that pass the bearer check: `/health` always, everything when no
/// token is configured, else only with the right bearer.
pub open spec fn request_allowed(path: Seq<char>, token: Option<Seq<char>>, header: Option<Seq<char>>) -> bool {
    path == "/health"@ || token is None || bearer_ok(token->0, header)
}

pub fn auth_allows(path: &str, token: Option<&str>, header: Option<&str>) -> (b: bool)
    ensures
        b == request_allowed(
            path@,
            match token {
                Some(t) => Some(t@),
                None => None,
            },
            match header {
                Some(h) => Some(h@),
                None => None,
            },
        ),
{
    if str_eq(path, "/health") {
        return true;
    }
    match token {
        None => true,
        Some(expected) => bearer_authorized(expected, header),
    }
}

/// Browser origins of the desktop app and localhost pages.
pub open spec fn local_origin(origin: Seq<char>) -> bool {
    ||| origin == "null"@
    ||| has_prefix(origin, "http://localhost"@)
    ||| has_prefix(origin, "https://localhost"@)
    ||| has_prefix(origin, "http://tauri.localhost"@)
    ||| has_prefix(origin, "https://tauri.localhost"@)
    ||| has_prefix(origin, "tauri://localhost"@)
}

/// True for Tauri webview and localhost pages talking to this API.
pub fn is_local_desktop_origin(origin: &str) -> (b: bool)
    ensures
        b == local_origin(origin@),
{
    let c = to_chars(origin);
    let s = c.as_slice();
    let null = to_chars("null");
    let a = to_chars("http://localhost");
    let b2 = to_chars("https://localhost");
    let t1 = to_chars("http://tauri.localhost");
    let t2 = to_chars("https://tauri.localhost");
    let t3 = to_chars("tauri://localhost");
    seq_eq(s, null.as_slice()) || starts_with(s, a.as_slice()) || starts_with(s, b2.as_slice())
        || starts_with(s, t1.as_slice()) || starts_with(s, t2.as_slice()) || starts_with(
        s,
        t3.as_slice(),
    )
}

/// Loopback, RFC 1918, link-local or unspecified IPv4.
pub open spec fn local_v4(o: [u8; 4]) -> bool {
    ||| o[0] == 127
    ||| o[0] == 10
    ||| (o[0] == 172 && 16 <= o[1] <= 31)
    ||| (o[0] == 192 && o[1] == 168)
    ||| (o[0] == 169 && o[1] == 254)
    ||| (o[0] == 0 && o[1] == 0 && o[2] == 0 && o[3] == 0)
}

/// First ten octets zero.
pub open spec fn zero_prefix(o: [u8; 16], n: int) -> bool {
    forall|i: int| 0 <= i < n ==> o[i] == 0
}

/// Loopback `::1`, link-local `fe80::/10`, unique local `fc00::/7`, or an
/// IPv4-mapped address whose IPv4 part is local.
pub open spec fn local_v6(o: [u8; 16]) -> bool {
    ||| (zero_prefix(o, 15) && o[15] == 1)
    ||| (o[0] == 0xfe && 0x80 <= o[1] <= 0xbf)
    ||| o[0] == 0xfc
    ||| o[0] == 0xfd
    ||| (zero_prefix(o, 10) && o[10] == 0xff && o[11] == 0xff && local_v4([o[12], o[13], o[14], o[15]]))
}

pub open spec fn local_peer(ip: PeerIp) -> bool {
    match ip {
        PeerIp::V4(o) => local_v4(o),
        PeerIp::V6(o) => local_v6(o),
    }
}

/// Every RFC 1918 peer is on the local network, the whole of 172.16.0.0/12
/// included (Docker bridges live there), and so is its IPv4-mapped IPv6
/// form; so are loopback and link-local peers; a 172.x peer outside
/// 172.16/12, and any peer whose first octet starts no local block, is not.
pub proof fn law_private_peers_are_local(a: u8, b: u8, c: u8, d: u8)
    ensures
        (a == 10 || (a == 172 && 16 <= b <= 31) || (a == 192 && b == 168)) ==> local_peer(
            PeerIp::V4([a, b, c, d]),
        ),
        (a == 10 || (a == 172 && 16 <= b <= 31) || (a == 192 && b == 168)) ==> local_peer(
            PeerIp::V6([0, 0, 0, 0, 0, 0, 0, 0, 0, 0, 0xff, 0xff, a, b, c, d]),
        ),
        (a == 172 && !(16 <= b <= 31)) ==> !local_peer(PeerIp::V4([a, b, c, d])),
        (a == 127 || (a == 169 && b == 254)) ==> local_peer(PeerIp::V4([a, b, c, d])),
        (a != 0 && a != 10 && a != 127 && a != 169 && a != 172 && a != 192) ==> !local_peer(
            PeerIp::V4([a, b, c, d]),
        ),
{
    let o: [u8; 16] = [0, 0, 0, 0, 0, 0, 0, 0, 0, 0, 0xff, 0xff, a, b, c, d];
    assert(zero_prefix(o, 10));
    assert([o[12], o[13], o[14], o[15]] =~= [a, b, c, d]);
}

pub fn is_local_ipv4(o: [u8; 4]) -> (b: bool)
    ensures
        b == local_v4(o),
{
    o[0] == 127 || o[0] == 10 || (o[0] == 172 && 16 <= o[1] && o[1] <= 31) || (o[0] == 192 && o[1]
        == 168) || (o[0] == 169 && o[1] == 254) || (o[0] == 0 && o[1] == 0 && o[2] == 0 && o[3]
        == 0)
}

fn zero_upto(o: &[u8; 16], n: usize) -> (b: bool)
    requires
        n <= 16,
    ensures
        b == zero_prefix(*o, n as int),
{
    let mut i: usize = 0;
    while i < n
        invariant
            n <= 16,
            i <= n,
            forall|j: int| 0 <= j < i ==> o[j] == 0,
        decreases n - i,
    {
        if o[i] != 0 {
            return false;
        }
        i = i + 1;
    }
    true
}

pub fn is_local_ipv6(o: [u8; 16]) -> (b: bool)
    ensures
        b == local_v6(o),
{
    if zero_upto(&o, 15) && o[15] == 1 {
        return true;
    }
    if o[0] == 0xfe && 0x80 <= o[1] && o[1] <= 0xbf {
        return true;
    }
    if o[0] == 0xfc || o[0] == 0xfd {
        return true;
    }
    zero_upto(&o, 10) && o[10] == 0xff && o[11] == 0xff && is_local_ipv4([o[12], o[13], o[14], o[15]])
}

/// True for loopback, RFC1918, IPv6 ULA, and link-local peers.
pub fn is_local_network_ip(ip: PeerIp) -> (b: bool)
    ensures
        b == local_peer(ip),
{
    match ip {
        PeerIp::V4(o) => is_local_ipv4(o),
        PeerIp::V6(o) => is_local_ipv6(o),
    }
}

pub open spec fn unspecified(ip: PeerIp) -> bool {
    match ip {
        PeerIp::V4(o) => o[0] == 0 && o[1] == 0 && o[2] == 0 && o[3] == 0,
        PeerIp::V6(o) => zero_prefix(o, 16),
    }
}

pub open spec fn loopback(ip: PeerIp) -> bool {
    match ip {
        PeerIp::V4(o) => o[0] == 127,
        PeerIp::V6(o) => zero_prefix(o, 15) && o[15] == 1,
    }
}

/// Operator URL of a listener; `addr_display` is the socket address as std prints it.
pub open spec fn listen_url_of(ip: PeerIp, port: u16, addr_display: Seq<char>) -> Seq<char> {
    if unspecified(ip) {
        "http://0.0.0.0:"@ + int_text(port as int) + " (all interfaces)"@
    } else if loopback(ip) {
        "http://localhost:"@ + int_text(port as int)
    } else {
        "http://"@ + addr_display
    }
}

pub fn listen_url(ip: PeerIp, port: u16, addr_display: &str) -> (r: String)
    ensures
        r@ == listen_url_of(ip, port, addr_display@),
{
    let p = int_to_string(port as i64);
    let unspec = match ip {
        PeerIp::V4(o) => o[0] == 0 && o[1] == 0 && o[2] == 0 && o[3] == 0,
        PeerIp::V6(o) => zero_upto(&o, 16),
    };
    if unspec {
        return concat3("http://0.0.0.0:", p.as_str(), " (all interfaces)");
    }
    let lo = match ip {
        PeerIp::V4(o) => o[0] == 127,
        PeerIp::V6(o) => zero_upto(&o, 15) && o[15] == 1,
    };
    if lo {
        return concat2("http://localhost:", p.as_str());
    }
    concat2("http://", addr_display)
}

} // verus!
