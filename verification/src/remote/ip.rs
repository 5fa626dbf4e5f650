//! Textual IP addresses (the forms `std::net::IpAddr` accepts) and the
//! private / link-local classes the LAN filter uses.
use vstd::prelude::*;
use crate::text::{
    all_digits, digits_value, find_from, is_digit, is_hex_digit, split_at_char, split_char,
    occurs_at, views, all_hex, all_hex_chars, slice_range, to_chars,
};

verus! {

/// Parsed address: IPv4 octets, or the first 16-bit group of an IPv6 address.
#[derive(Debug, Clone, Copy, PartialEq, Eq)]
pub enum IpKind {
    V4(u8, u8, u8, u8),
    V6 { first_group: u16 },
}

/// One IPv4 octet: 1-3 digits, no leading zero, at most 255.
pub open spec fn v4_octet_ok(p: Seq<char>) -> bool {
    1 <= p.len() <= 3 && all_digits(p) && !(p.len() > 1 && p[0] == '0') && digits_value(p) <= 255
}

/// Dotted-quad IPv4.
pub open spec fn v4_ok(t: Seq<char>) -> bool {
    let ps = split_at_char(t, '.');
    ps.len() == 4 && v4_octet_ok(ps[0]) && v4_octet_ok(ps[1]) && v4_octet_ok(ps[2])
        && v4_octet_ok(ps[3])
}

/// One IPv6 hex group: 1-4 hex digits.
pub open spec fn hex_group_ok(p: Seq<char>) -> bool {
    1 <= p.len() <= 4 && all_hex(p)
}

/// Number of 16-bit groups in a `:`-separated group list (an IPv4 tail counts
/// two when `v4_tail`), or `None` when malformed. The empty text is zero groups.
pub open spec fn group_count(t: Seq<char>, v4_tail: bool) -> Option<nat> {
    if t.len() == 0 {
        Some(0)
    } else {
        let ps = split_at_char(t, ':');
        if forall|i: int| 0 <= i < ps.len() - 1 ==> hex_group_ok(#[trigger] ps[i]) {
            if hex_group_ok(ps.last()) {
                Some(ps.len())
            } else if v4_tail && v4_ok(ps.last()) {
                Some(ps.len() + 1)
            } else {
                None
            }
        } else {
            None
        }
    }
}

/// Index of the first `::`, if any.
pub open spec fn double_colon_at(t: Seq<char>) -> Option<int> {
    if exists|i: int| occurs_at(t, "::"@, i) {
        Some(choose|i: int| occurs_at(t, "::"@, i) && forall|j: int| 0 <= j < i ==> !occurs_at(t, "::"@, j))
    } else {
        None
    }
}

/// IPv6 text: eight groups, or head `::` tail with at most seven groups.
pub open spec fn v6_ok(t: Seq<char>) -> bool {
    match double_colon_at(t) {
        Some(i) => {
            let head = t.subrange(0, i);
            let tail = t.subrange(i + 2, t.len() as int);
            match (group_count(head, false), group_count(tail, true)) {
                (Some(h), Some(tl)) => h + tl <= 7,
                _ => false,
            }
        },
        None => group_count(t, true) == Some(8nat),
    }
}

/// Value of hex digits, most significant first.
pub open spec fn hex_value(s: Seq<char>) -> nat
    decreases s.len(),
{
    if s.len() == 0 {
        0
    } else {
        hex_value(s.drop_last()) * 16 + hex_digit_value(s.last())
    }
}

pub open spec fn hex_digit_value(c: char) -> nat {
    if '0' <= c <= '9' {
        ((c as u32) - 48) as nat
    } else if 'a' <= c <= 'f' {
        ((c as u32) - 87) as nat
    } else {
        ((c as u32) - 55) as nat
    }
}

/// First group of a valid IPv6 text (zero when the text starts with `::`).
pub open spec fn v6_first_group(t: Seq<char>) -> nat {
    if double_colon_at(t) == Some(0int) {
        0
    } else {
        hex_value(split_at_char(t, ':')[0])
    }
}

/// `text.parse::<IpAddr>()`: IPv4 is tried first, then IPv6.
pub open spec fn ip_kind(t: Seq<char>) -> Option<IpKind> {
    if v4_ok(t) {
        let ps = split_at_char(t, '.');
        Some(
            IpKind::V4(
                digits_value(ps[0]) as u8,
                digits_value(ps[1]) as u8,
                digits_value(ps[2]) as u8,
                digits_value(ps[3]) as u8,
            ),
        )
    } else if v6_ok(t) {
        Some(IpKind::V6 { first_group: v6_first_group(t) as u16 })
    } else {
        None
    }
}

/// RFC 1918 private or 169.254/16 link-local IPv4; fc00::/7 or fe80::/10 IPv6.
pub open spec fn kind_private_or_link_local(k: IpKind) -> bool {
    match k {
        IpKind::V4(a, b, _, _) => a == 10 || (a == 172 && 16 <= b <= 31) || (a == 192 && b == 168)
            || (a == 169 && b == 254),
        IpKind::V6 { first_group } => (0xfc00 <= first_group <= 0xfdff) || (0xfe80 <= first_group
            <= 0xfebf),
    }
}

pub open spec fn private_or_link_local(host: Seq<char>) -> bool {
    match ip_kind(host) {
        Some(k) => kind_private_or_link_local(k),
        None => false,
    }
}

fn octet_of(p: &[char]) -> (r: Option<u8>)
    ensures
        match r {
            Some(v) => v4_octet_ok(p@) && v as nat == digits_value(p@),
            None => !v4_octet_ok(p@),
        },
{
    if p.len() < 1 || p.len() > 3 {
        return None;
    }
    if p.len() > 1 && p[0] == '0' {
        return None;
    }
    let mut acc: u32 = 0;
    let mut i: usize = 0;
    while i < p.len()
        invariant
            1 <= p@.len() <= 3,
            i <= p@.len(),
            acc as nat == digits_value(p@.subrange(0, i as int)),
            i == 0 ==> acc == 0,
            i == 1 ==> acc < 10,
            i == 2 ==> acc < 100,
            i == 3 ==> acc < 1000,
            all_digits(p@.subrange(0, i as int)),
        decreases p@.len() - i,
    {
        let c = p[i];
        if !('0' <= c && c <= '9') {
            assert(!is_digit(p@[i as int]));
            return None;
        }
        assert(p@.subrange(0, i + 1).drop_last() =~= p@.subrange(0, i as int));
        assert(forall|j: int| 0 <= j < i ==> p@.subrange(0, i + 1)[j] == p@.subrange(0, i as int)[j]);
        acc = acc * 10 + (c as u32 - 48);
        i = i + 1;
    }
    assert(p@.subrange(0, i as int) =~= p@);
    if acc > 255 {
        return None;
    }
    Some(acc as u8)
}

fn parse_v4(t: &[char]) -> (r: Option<(u8, u8, u8, u8)>)
    ensures
        match r {
            Some((a, b, c, d)) => v4_ok(t@) && ip_kind(t@) == Some(IpKind::V4(a, b, c, d)),
            None => !v4_ok(t@),
        },
{
    let ps = split_char(t, '.');
    if ps.len() != 4 {
        return None;
    }
    assert(views(ps@)[0] == ps@[0]@ && views(ps@)[1] == ps@[1]@ && views(ps@)[2] == ps@[2]@
        && views(ps@)[3] == ps@[3]@);
    let a = octet_of(ps[0].as_slice());
    let b = octet_of(ps[1].as_slice());
    let c = octet_of(ps[2].as_slice());
    let d = octet_of(ps[3].as_slice());
    match (a, b, c, d) {
        (Some(a), Some(b), Some(c), Some(d)) => Some((a, b, c, d)),
        _ => None,
    }
}

fn hex_group_value(p: &[char]) -> (r: Option<u16>)
    ensures
        match r {
            Some(v) => hex_group_ok(p@) && v as nat == hex_value(p@),
            None => !hex_group_ok(p@),
        },
{
    if p.len() < 1 || p.len() > 4 || !all_hex_chars(p) {
        return None;
    }
    let mut acc: u32 = 0;
    let mut i: usize = 0;
    while i < p.len()
        invariant
            1 <= p@.len() <= 4,
            all_hex(p@),
            i <= p@.len(),
            acc as nat == hex_value(p@.subrange(0, i as int)),
            i == 0 ==> acc == 0,
            i == 1 ==> acc < 16,
            i == 2 ==> acc < 256,
            i == 3 ==> acc < 4096,
            i == 4 ==> acc < 65536,
        decreases p@.len() - i,
    {
        let c = p[i];
        assert(is_hex_digit(p@[i as int]));
        let d: u32 = if '0' <= c && c <= '9' {
            c as u32 - 48
        } else if 'a' <= c && c <= 'f' {
            c as u32 - 87
        } else {
            c as u32 - 55
        };
        assert(p@.subrange(0, i + 1).drop_last() =~= p@.subrange(0, i as int));
        assert(d < 16);
        acc = acc * 16 + d;
        i = i + 1;
    }
    assert(p@.subrange(0, i as int) =~= p@);
    Some(acc as u16)
}

/// Group count of a `:`-separated list (see [`group_count`]); first group value too.
fn count_groups(t: &[char], v4_tail: bool) -> (r: Option<(u128, u16)>)
    ensures
        match r {
            Some((n, g)) => group_count(t@, v4_tail) == Some(n as nat) && (t@.len() > 0 && hex_group_ok(split_at_char(t@, ':')[0]) ==> g as nat == hex_value(split_at_char(t@, ':')[0])),
            None => group_count(t@, v4_tail).is_none(),
        },
{
    if t.len() == 0 {
        return Some((0, 0));
    }
    let ps = split_char(t, ':');
    let ghost pv = split_at_char(t@, ':');
    assert(pv.len() >= 1) by {
        reveal_with_fuel(split_at_char, 1);
    }
    let n = ps.len();
    let mut first: u16 = 0;
    let mut i: usize = 0;
    while i + 1 < n
        invariant
            n == ps@.len(),
            n >= 1,
            t@.len() > 0,
            pv == split_at_char(t@, ':'),
            views(ps@) == pv,
            i + 1 <= n,
            forall|j: int| 0 <= j < i ==> hex_group_ok(#[trigger] pv[j]),
            i > 0 ==> first as nat == hex_value(pv[0]),
        decreases n - i,
    {
        assert(pv[i as int] == ps@[i as int]@);
        match hex_group_value(ps[i].as_slice()) {
            Some(v) => {
                if i == 0 {
                    first = v;
                }
            },
            None => {
                return None;
            },
        }
        i = i + 1;
    }
    assert(pv.last() == ps@[n - 1]@);
    match hex_group_value(ps[n - 1].as_slice()) {
        Some(v) => {
            if n == 1 {
                first = v;
            }
            Some((n as u128, first))
        },
        None => {
            if v4_tail {
                match parse_v4(ps[n - 1].as_slice()) {
                    Some(_) => Some((n as u128 + 1, first)),
                    None => None,
                }
            } else {
                None
            }
        },
    }
}

/// `text.parse::<std::net::IpAddr>()` reduced to [`IpKind`].
pub fn parse_ip_kind(t: &[char]) -> (r: Option<IpKind>)
    ensures
        r == ip_kind(t@),
{
    match parse_v4(t) {
        Some((a, b, c, d)) => {
            return Some(IpKind::V4(a, b, c, d));
        },
        None => {},
    }
    let dc = to_chars("::");
    proof {
        reveal_strlit("::");
    }
    match find_from(t, dc.as_slice(), 0) {
        Some(i) => {
            assert(double_colon_at(t@) == Some(i as int)) by {
                assert(occurs_at(t@, "::"@, i as int));
                let c = choose|k: int| occurs_at(t@, "::"@, k) && forall|j: int| 0 <= j < k ==> !occurs_at(t@, "::"@, j);
                if c < i {
                } else if c > i {
                }
            }
            let n = t.len();
            assert(i + 2 <= n);
            let head = slice_range(t, 0, i);
            let tail = slice_range(t, i + 2, n);
            match (count_groups(head.as_slice(), false), count_groups(tail.as_slice(), true)) {
                (Some((h, g)), Some((tl, _))) => {
                    if h <= 7 && tl <= 7 && h + tl <= 7 {
                        let first: u16 = if i == 0 {
                            0
                        } else {
                            proof {
                                assert(head@.len() > 0);
                                let hp = split_at_char(head@, ':');
                                let tp = split_at_char(t@, ':');
                                reveal_strlit("::");
                                assert(t@.subrange(i as int, i + 2)[0] == t@[i as int]);
                                lemma_first_piece_prefix(t@, i as int);
                            }
                            g
                        };
                        Some(IpKind::V6 { first_group: first })
                    } else {
                        None
                    }
                },
                _ => None,
            }
        },
        None => {
            assert(double_colon_at(t@).is_none());
            match count_groups(t, true) {
                Some((n, g)) => {
                    if n == 8 {
                        proof {
                            reveal_with_fuel(split_at_char, 1);
                        }
                        Some(IpKind::V6 { first_group: g })
                    } else {
                        None
                    }
                },
                None => None,
            }
        },
    }
}

/// The first `:`-piece of a prefix that ends before a `:` is the text's first piece.
pub proof fn lemma_first_piece_prefix(t: Seq<char>, i: int)
    requires
        0 < i < t.len(),
        t[i] == ':',
    ensures
        split_at_char(t.subrange(0, i), ':')[0] == split_at_char(t, ':')[0],
{
    lemma_char_end_prefix(t, i);
    reveal_with_fuel(split_at_char, 1);
    let e = crate::text::char_end(t, ':');
    let h = t.subrange(0, i);
    if e < t.len() {
        assert(t.subrange(0, e as int) =~= h.subrange(0, e as int));
    }
}

pub proof fn lemma_char_end_prefix(t: Seq<char>, i: int)
    requires
        0 <= i < t.len(),
        t[i] == ':',
    ensures
        crate::text::char_end(t, ':') <= i,
        crate::text::char_end(t.subrange(0, i), ':') == crate::text::char_end(t, ':'),
    decreases i,
{
    if i > 0 && t[0] != ':' {
        lemma_char_end_prefix(t.drop_first(), i - 1);
        assert(t.subrange(0, i).drop_first() =~= t.drop_first().subrange(0, i - 1));
    }
}

/// Any text that parses as an IPv4 address in an RFC 1918 block (10/8, the
/// whole of 172.16.0.0/12, 192.168/16) or in 169.254/16 is private or
/// link-local; a 172.x address outside 172.16/12 is not, nor is one whose
/// first octet starts none of these blocks.
pub proof fn law_rfc1918_hosts_are_private(t: Seq<char>, a: u8, b: u8, c: u8, d: u8)
    requires
        ip_kind(t) == Some(IpKind::V4(a, b, c, d)),
    ensures
        a == 172 && b >= 16 && b <= 31 ==> private_or_link_local(t),
        a == 10 || (a == 192 && b == 168) || (a == 169 && b == 254) ==> private_or_link_local(t),
        (a == 172 && (b < 16 || b > 31)) ==> !private_or_link_local(t),
        (a != 10 && a != 169 && a != 172 && a != 192) ==> !private_or_link_local(t),
{
}

/// `host` parses as an IP address in a private or link-local range.
pub fn is_private_or_link_local_ip(host: &str) -> (r: bool)
    ensures
        r == private_or_link_local(host@),
{
    let t = to_chars(host);
    match parse_ip_kind(t.as_slice()) {
        Some(IpKind::V4(a, b, _, _)) => a == 10 || (a == 172 && 16 <= b && b <= 31) || (a == 192
            && b == 168) || (a == 169 && b == 254),
        Some(IpKind::V6 { first_group }) => (0xfc00 <= first_group && first_group <= 0xfdff) || (
        0xfe80 <= first_group && first_group <= 0xfebf),
        None => false,
    }
}

} // verus!
