//! OpenSSH host target: config Host alias or `user@host`.
//!
//! Lists LAN names from `/etc/hosts`, plus OpenSSH `Host` aliases whose
//! `HostName` is private or already named in `/etc/hosts` (no internet aliases).
use vstd::prelude::*;
use crate::error::{message_error, ErrorView, HortoError};
use crate::remote::ip::{ip_kind, is_private_or_link_local_ip, private_or_link_local, IpKind};
use crate::text::{
    char_is_ws, concat2, contains, from_chars, has_prefix, is_ws, lower, lower_chars, owned, seq_eq,
    split_lines, split_ws, starts_with, sviews, to_chars, tokens, trim, trim_chars, lines, views,
    contains_seq,
};

verus! {

/// Destination passed to `ssh` / `scp` as the remote operand.
#[derive(Debug, Clone, PartialEq, Eq)]
pub struct HostSpec {
    /// Raw value suitable for `ssh <spec>` (Host alias or `user@host`).
    pub raw: String,
}

/// A hostname known from `/etc/hosts` and/or OpenSSH config (plus localhost).
#[derive(Debug, Clone, PartialEq, Eq)]
pub struct KnownRemoteHost {
    /// Name suitable as an OpenSSH target (`ssh <name>`) or Status API host.
    pub name: String,
    /// Present as a non-loopback entry in `/etc/hosts` (or synthetic localhost).
    pub in_hosts_file: bool,
    /// Present as a concrete `Host` alias in OpenSSH config (LAN-qualified).
    pub in_ssh_config: bool,
}

/// One OpenSSH `Host` alias with its effective `HostName` (defaults to the alias).
#[derive(Debug, Clone, PartialEq, Eq)]
pub struct SshConfigHost {
    /// `Host` token (no wildcards).
    pub alias: String,
    /// `HostName` value, or the alias when omitted.
    pub host_name: String,
}

/// Rust's `{:?}` rendering of a string slice (quoted, escaped).
pub uninterp spec fn debug_quoted(s: Seq<char>) -> Seq<char>;

/// `format!("{s:?}")`: std's `Debug` rendering of a string slice.
#[verifier::external_body]
fn debug_str(s: &str) -> (r: String)
    ensures
        r@ == debug_quoted(s@),
{
    format!("{s:?}")
}

/// Value of [`parse_host_spec`].
pub open spec fn host_spec_of(input: Seq<char>) -> Result<Seq<char>, ErrorView> {
    let raw = trim(input);
    if raw.len() == 0 {
        Err(message_error("remote host is empty; pass an OpenSSH Host alias or user@host"@))
    } else if exists|i: int| 0 <= i < raw.len() && is_ws(#[trigger] raw[i]) {
        Err(message_error("remote host must not contain whitespace: "@ + debug_quoted(raw)))
    } else {
        Ok(raw)
    }
}

fn has_ws(s: &[char]) -> (r: bool)
    ensures
        r == exists|i: int| 0 <= i < s@.len() && is_ws(#[trigger] s@[i]),
{
    let mut i: usize = 0;
    while i < s.len()
        invariant
            i <= s@.len(),
            forall|j: int| 0 <= j < i ==> !is_ws(#[trigger] s@[j]),
        decreases s@.len() - i,
    {
        if char_is_ws(s[i]) {
            return true;
        }
        i = i + 1;
    }
    false
}

/// Parse a non-empty Host alias or `user@host` string.
pub fn parse_host_spec(input: &str) -> (r: Result<HostSpec, HortoError>)
    ensures
        match r {
            Ok(h) => host_spec_of(input@) == Ok::<Seq<char>, ErrorView>(h.raw@),
            Err(e) => host_spec_of(input@) == Err::<Seq<char>, ErrorView>(e@),
        },
{
    let chars = to_chars(input);
    let t = trim_chars(chars.as_slice());
    let raw = from_chars(t.as_slice());
    if t.len() == 0 {
        return Err(HortoError::msg("remote host is empty; pass an OpenSSH Host alias or user@host"));
    }
    if has_ws(t.as_slice()) {
        let q = debug_str(raw.as_str());
        return Err(HortoError::Message(concat2("remote host must not contain whitespace: ", q.as_str())));
    }
    Ok(HostSpec { raw })
}

// ---------------------------------------------------------------------------
// /etc/hosts
// ---------------------------------------------------------------------------

/// Loopback / link-local / multicast address column of `/etc/hosts`.
pub open spec fn skipped_hosts_address(addr: Seq<char>) -> bool {
    let l = lower(addr);
    l == "::1"@ || has_prefix(l, "127."@) || has_prefix(l, "fe80:"@) || has_prefix(l, "ff0"@)
}

/// Meta names of `/etc/hosts` that are never remote targets.
pub open spec fn skipped_hosts_name(name: Seq<char>) -> bool {
    let l = lower(name);
    l == "localhost"@ || l == "ip6-localhost"@ || l == "ip6-loopback"@ || l == "ip6-allnodes"@
        || l == "ip6-allrouters"@
}

/// Append the host names of one line's name columns, skipping meta names and repeats.
pub open spec fn add_host_names(names: Seq<Seq<char>>, toks: Seq<Seq<char>>) -> Seq<Seq<char>>
    decreases toks.len(),
{
    if toks.len() == 0 {
        names
    } else {
        let n = add_host_names(names, toks.drop_last());
        let t = trim(toks.last());
        if t.len() == 0 || skipped_hosts_name(t) || n.contains(t) {
            n
        } else {
            n.push(t)
        }
    }
}

/// Effect of one `/etc/hosts` line on the names collected so far.
pub open spec fn hosts_line(names: Seq<Seq<char>>, line: Seq<char>) -> Seq<Seq<char>> {
    let l = trim(line);
    if l.len() == 0 || l[0] == '#' {
        names
    } else {
        let toks = tokens(l);
        if toks.len() == 0 || skipped_hosts_address(toks[0]) {
            names
        } else {
            add_host_names(names, toks.drop_first())
        }
    }
}

pub open spec fn hosts_names_of_lines(ls: Seq<Seq<char>>) -> Seq<Seq<char>>
    decreases ls.len(),
{
    if ls.len() == 0 {
        seq![]
    } else {
        hosts_line(hosts_names_of_lines(ls.drop_last()), ls.last())
    }
}

/// Value of [`parse_hosts_file_names`].
pub open spec fn hosts_file_names(text: Seq<char>) -> Seq<Seq<char>> {
    hosts_names_of_lines(lines(text))
}

fn lit_eq(v: &[char], lit: &str) -> (r: bool)
    ensures
        r == (v@ == lit@),
{
    let l = to_chars(lit);
    seq_eq(v, l.as_slice())
}

fn lit_prefix(v: &[char], lit: &str) -> (r: bool)
    ensures
        r == has_prefix(v@, lit@),
{
    let l = to_chars(lit);
    starts_with(v, l.as_slice())
}

fn is_skipped_hosts_address(addr: &[char]) -> (r: bool)
    ensures
        r == skipped_hosts_address(addr@),
{
    let l = lower_chars(addr);
    lit_eq(l.as_slice(), "::1") || lit_prefix(l.as_slice(), "127.") || lit_prefix(
        l.as_slice(),
        "fe80:",
    ) || lit_prefix(l.as_slice(), "ff0")
}

fn is_skipped_hosts_name(name: &[char]) -> (r: bool)
    ensures
        r == skipped_hosts_name(name@),
{
    let l = lower_chars(name);
    lit_eq(l.as_slice(), "localhost") || lit_eq(l.as_slice(), "ip6-localhost") || lit_eq(
        l.as_slice(),
        "ip6-loopback",
    ) || lit_eq(l.as_slice(), "ip6-allnodes") || lit_eq(l.as_slice(), "ip6-allrouters")
}

/// Does `names` already hold `t`?
pub fn names_contain(names: &Vec<String>, t: &[char]) -> (r: bool)
    ensures
        r == sviews(names@).contains(t@),
{
    let mut i: usize = 0;
    while i < names.len()
        invariant
            i <= names@.len(),
            forall|j: int| 0 <= j < i ==> names@[j]@ != t@,
        decreases names@.len() - i,
    {
        let n = to_chars(names[i].as_str());
        if seq_eq(n.as_slice(), t) {
            assert(sviews(names@)[i as int] == t@);
            return true;
        }
        i = i + 1;
    }
    assert forall|j: int| 0 <= j < sviews(names@).len() implies sviews(names@)[j] != t@ by {
        assert(sviews(names@)[j] == names@[j]@);
    }
    false
}

/// Hostnames from `/etc/hosts` text (non-loopback, non-meta).
pub fn parse_hosts_file_names(text: &str) -> (names: Vec<String>)
    ensures
        sviews(names@) == hosts_file_names(text@),
{
    let chars = to_chars(text);
    let ls = split_lines(chars.as_slice());
    let mut names: Vec<String> = Vec::new();
    let mut k: usize = 0;
    assert(sviews(names@) =~= hosts_names_of_lines(views(ls@).subrange(0, 0)));
    while k < ls.len()
        invariant
            k <= ls@.len(),
            views(ls@) == lines(text@),
            sviews(names@) == hosts_names_of_lines(views(ls@).subrange(0, k as int)),
        decreases ls@.len() - k,
    {
        let ghost before = sviews(names@);
        let ghost line = views(ls@)[k as int];
        assert(views(ls@).subrange(0, k + 1).drop_last() =~= views(ls@).subrange(0, k as int));
        assert(views(ls@).subrange(0, k + 1).last() == line);
        let l = trim_chars(ls[k].as_slice());
        if l.len() > 0 && l[0] != '#' {
            let toks = split_ws(l.as_slice());
            if toks.len() > 0 && !is_skipped_hosts_address(toks[0].as_slice()) {
                let ghost tv = views(toks@);
                let mut j: usize = 1;
                assert(tv.drop_first().subrange(0, 0) =~= Seq::<Seq<char>>::empty());
                while j < toks.len()
                    invariant
                        1 <= j <= toks@.len(),
                        tv == views(toks@),
                        sviews(names@) == add_host_names(before, tv.drop_first().subrange(0, j - 1)),
                    decreases toks@.len() - j,
                {
                    let ghost pre = tv.drop_first().subrange(0, j - 1);
                    assert(tv.drop_first().subrange(0, j as int).drop_last() =~= pre);
                    assert(tv.drop_first().subrange(0, j as int).last() == toks@[j as int]@);
                    let name = trim_chars(toks[j].as_slice());
                    if name.len() > 0 && !is_skipped_hosts_name(name.as_slice()) && !names_contain(
                        &names,
                        name.as_slice(),
                    ) {
                        let ghost n0 = sviews(names@);
                        names.push(from_chars(name.as_slice()));
                        assert(sviews(names@) =~= n0.push(name@));
                    }
                    j = j + 1;
                }
                assert(tv.drop_first().subrange(0, j - 1) =~= tv.drop_first());
            }
        }
        k = k + 1;
    }
    assert(views(ls@).subrange(0, k as int) =~= views(ls@));
    names
}


// ---------------------------------------------------------------------------
// OpenSSH config
// ---------------------------------------------------------------------------

/// Host pattern tokens that are never concrete aliases.
pub open spec fn wildcard_token(t: Seq<char>) -> bool {
    contains(t, "*"@) || contains(t, "?"@) || (t.len() > 0 && t[0] == '!')
}

/// Aliases of one `Host` line (wildcards dropped, repeats dropped, in order).
pub open spec fn add_aliases(cur: Seq<Seq<char>>, toks: Seq<Seq<char>>) -> Seq<Seq<char>>
    decreases toks.len(),
{
    if toks.len() == 0 {
        cur
    } else {
        let c = add_aliases(cur, toks.drop_last());
        let t = toks.last();
        if wildcard_token(t) || c.contains(t) {
            c
        } else {
            c.push(t)
        }
    }
}

/// Parser state: finished entries, aliases of the open block, its `HostName`.
pub struct CfgState {
    pub out: Seq<(Seq<char>, Seq<char>)>,
    pub cur: Seq<Seq<char>>,
    pub host_name: Option<Seq<char>>,
}

/// Close the open block: one entry per alias, `HostName` defaulting to the alias.
pub open spec fn flush_block(st: CfgState) -> Seq<(Seq<char>, Seq<char>)> {
    st.out + Seq::new(
        st.cur.len(),
        |i: int|
            (
                st.cur[i],
                match st.host_name {
                    Some(h) => h,
                    None => st.cur[i],
                },
            ),
    )
}

/// Effect of one config line.
pub open spec fn cfg_line(st: CfgState, line: Seq<char>) -> CfgState {
    let t = trim(line);
    if t.len() == 0 || t[0] == '#' {
        st
    } else {
        let toks = tokens(t);
        if toks.len() == 0 {
            st
        } else if lower(toks[0]) == "host"@ {
            CfgState {
                out: flush_block(st),
                cur: add_aliases(seq![], toks.drop_first()),
                host_name: None,
            }
        } else if lower(toks[0]) == "hostname"@ && toks.len() > 1 {
            CfgState { out: st.out, cur: st.cur, host_name: Some(toks[1]) }
        } else {
            st
        }
    }
}

pub open spec fn cfg_of_lines(ls: Seq<Seq<char>>) -> CfgState
    decreases ls.len(),
{
    if ls.len() == 0 {
        CfgState { out: seq![], cur: seq![], host_name: None }
    } else {
        cfg_line(cfg_of_lines(ls.drop_last()), ls.last())
    }
}

/// Value of [`parse_ssh_config_hosts`] as `(alias, host_name)` pairs.
pub open spec fn ssh_config_entries(text: Seq<char>) -> Seq<(Seq<char>, Seq<char>)> {
    flush_block(cfg_of_lines(lines(text)))
}

pub open spec fn entry_views(v: Seq<SshConfigHost>) -> Seq<(Seq<char>, Seq<char>)> {
    Seq::new(v.len(), |i: int| (v[i].alias@, v[i].host_name@))
}

fn is_wildcard_token(t: &[char]) -> (r: bool)
    ensures
        r == wildcard_token(t@),
{
    let star = to_chars("*");
    let q = to_chars("?");
    contains_seq(t, star.as_slice()) || contains_seq(t, q.as_slice()) || (t.len() > 0 && t[0]
        == '!')
}

fn copy_string(s: &String) -> (r: String)
    ensures
        r@ == s@,
{
    owned(s.as_str())
}

fn flush_into(out: &mut Vec<SshConfigHost>, cur: &Vec<String>, host_name: &Option<String>)
    ensures
        entry_views(final(out)@) == flush_block(
            CfgState {
                out: entry_views(old(out)@),
                cur: sviews(cur@),
                host_name: match host_name {
                    Some(h) => Some(h@),
                    None => None,
                },
            },
        ),
{
    let ghost st = CfgState {
        out: entry_views(out@),
        cur: sviews(cur@),
        host_name: match host_name {
            Some(h) => Some(h@),
            None => None,
        },
    };
    let ghost o0 = entry_views(out@);
    let mut i: usize = 0;
    while i < cur.len()
        invariant
            i <= cur@.len(),
            o0 == st.out,
            sviews(cur@) == st.cur,
            st.host_name == match host_name {
                Some(h) => Some(h@),
                None => None::<Seq<char>>,
            },
            entry_views(out@) == flush_block(
                CfgState { out: st.out, cur: st.cur.subrange(0, i as int), host_name: st.host_name },
            ),
        decreases cur@.len() - i,
    {
        let alias = copy_string(&cur[i]);
        let hn = match host_name {
            Some(h) => copy_string(h),
            None => copy_string(&cur[i]),
        };
        let ghost e0 = entry_views(out@);
        out.push(SshConfigHost { alias, host_name: hn });
        assert(entry_views(out@) =~= e0.push((cur@[i as int]@, hn@)));
        i = i + 1;
        assert(entry_views(out@) =~= flush_block(
            CfgState { out: st.out, cur: st.cur.subrange(0, i as int), host_name: st.host_name },
        ));
    }
    assert(st.cur.subrange(0, i as int) =~= st.cur);
}

/// Parse `Host` / `HostName` blocks from OpenSSH config text.
pub fn parse_ssh_config_hosts(text: &str) -> (out: Vec<SshConfigHost>)
    ensures
        entry_views(out@) == ssh_config_entries(text@),
{
    let chars = to_chars(text);
    let ls = split_lines(chars.as_slice());
    let mut out: Vec<SshConfigHost> = Vec::new();
    let mut cur: Vec<String> = Vec::new();
    let mut host_name: Option<String> = None;
    let mut k: usize = 0;
    assert(entry_views(out@) =~= Seq::<(Seq<char>, Seq<char>)>::empty());
    assert(sviews(cur@) =~= Seq::<Seq<char>>::empty());
    while k < ls.len()
        invariant
            k <= ls@.len(),
            views(ls@) == lines(text@),
            cfg_of_lines(views(ls@).subrange(0, k as int)) == (CfgState {
                out: entry_views(out@),
                cur: sviews(cur@),
                host_name: match host_name {
                    Some(h) => Some(h@),
                    None => None,
                },
            }),
        decreases ls@.len() - k,
    {
        let ghost line = views(ls@)[k as int];
        assert(views(ls@).subrange(0, k + 1).drop_last() =~= views(ls@).subrange(0, k as int));
        assert(views(ls@).subrange(0, k + 1).last() == line);
        let t = trim_chars(ls[k].as_slice());
        if t.len() > 0 && t[0] != '#' {
            let toks = split_ws(t.as_slice());
            if toks.len() > 0 {
                let kw = lower_chars(toks[0].as_slice());
                if lit_eq(kw.as_slice(), "host") {
                    flush_into(&mut out, &cur, &host_name);
                    host_name = None;
                    cur = Vec::new();
                    let ghost tv = views(toks@);
                    let mut j: usize = 1;
                    assert(sviews(cur@) =~= add_aliases(seq![], tv.drop_first().subrange(0, 0)));
                    while j < toks.len()
                        invariant
                            1 <= j <= toks@.len(),
                            tv == views(toks@),
                            sviews(cur@) == add_aliases(seq![], tv.drop_first().subrange(0, j - 1)),
                        decreases toks@.len() - j,
                    {
                        let ghost pre = tv.drop_first().subrange(0, j - 1);
                        assert(tv.drop_first().subrange(0, j as int).drop_last() =~= pre);
                        assert(tv.drop_first().subrange(0, j as int).last() == toks@[j as int]@);
                        if !is_wildcard_token(toks[j].as_slice()) && !names_contain(
                            &cur,
                            toks[j].as_slice(),
                        ) {
                            let ghost c0 = sviews(cur@);
                            cur.push(from_chars(toks[j].as_slice()));
                            assert(sviews(cur@) =~= c0.push(toks@[j as int]@));
                        }
                        j = j + 1;
                    }
                    assert(tv.drop_first().subrange(0, j - 1) =~= tv.drop_first());
                } else if lit_eq(kw.as_slice(), "hostname") && toks.len() > 1 {
                    host_name = Some(from_chars(toks[1].as_slice()));
                }
            }
        }
        k = k + 1;
    }
    assert(views(ls@).subrange(0, k as int) =~= views(ls@));
    flush_into(&mut out, &cur, &host_name);
    out
}

/// Concrete `Host` aliases from OpenSSH config text (no wildcards).
pub fn parse_ssh_config_host_aliases(text: &str) -> (r: Vec<String>)
    ensures
        sviews(r@) == Seq::new(ssh_config_entries(text@).len(), |i: int| ssh_config_entries(text@)[i].0),
{
    let hosts = parse_ssh_config_hosts(text);
    let mut r: Vec<String> = Vec::new();
    let mut i: usize = 0;
    while i < hosts.len()
        invariant
            i <= hosts@.len(),
            entry_views(hosts@) == ssh_config_entries(text@),
            r@.len() == i,
            forall|j: int| 0 <= j < i ==> #[trigger] r@[j]@ == hosts@[j].alias@,
        decreases hosts@.len() - i,
    {
        r.push(copy_string(&hosts[i].alias));
        i = i + 1;
    }
    assert(sviews(r@) =~= Seq::new(ssh_config_entries(text@).len(), |j: int| ssh_config_entries(text@)[j].0)) by {
        assert forall|j: int| 0 <= j < r@.len() implies sviews(r@)[j] == ssh_config_entries(text@)[j].0 by {
            assert(entry_views(hosts@)[j].0 == hosts@[j].alias@);
        }
    }
    r
}

// ---------------------------------------------------------------------------
// LAN filter
// ---------------------------------------------------------------------------

/// An SSH config entry targets the LAN (private IP or `/etc/hosts` name).
pub open spec fn host_is_lan(alias: Seq<char>, host_name: Seq<char>, names: Seq<Seq<char>>) -> bool {
    names.contains(alias) || names.contains(host_name) || private_or_link_local(host_name)
}

/// An SSH config host whose `HostName` parses as an address in 172.16.0.0/12
/// (or any other RFC 1918 block) counts as a LAN host, whatever the names
/// from the hosts file.
pub proof fn law_private_host_name_is_lan(
    alias: Seq<char>,
    host_name: Seq<char>,
    names: Seq<Seq<char>>,
    a: u8,
    b: u8,
    c: u8,
    d: u8,
)
    requires
        ip_kind(host_name) == Some(IpKind::V4(a, b, c, d)),
        a == 10 || (a == 172 && b >= 16 && b <= 31) || (a == 192 && b == 168),
    ensures
        host_is_lan(alias, host_name, names),
{
    crate::remote::ip::law_rfc1918_hosts_are_private(host_name, a, b, c, d);
}

/// True when an SSH config entry targets the LAN (private IP or `/etc/hosts` name).
pub fn ssh_host_is_lan(entry: &SshConfigHost, hosts_file_names: &[String]) -> (r: bool)
    ensures
        r == host_is_lan(entry.alias@, entry.host_name@, sviews(hosts_file_names@)),
{
    let alias = to_chars(entry.alias.as_str());
    let hn = to_chars(entry.host_name.as_str());
    let mut i: usize = 0;
    while i < hosts_file_names.len()
        invariant
            i <= hosts_file_names@.len(),
            alias@ == entry.alias@,
            hn@ == entry.host_name@,
            forall|j: int|
                0 <= j < i ==> hosts_file_names@[j]@ != entry.alias@ && hosts_file_names@[j]@
                    != entry.host_name@,
        decreases hosts_file_names@.len() - i,
    {
        let n = to_chars(hosts_file_names[i].as_str());
        if seq_eq(n.as_slice(), alias.as_slice()) || seq_eq(n.as_slice(), hn.as_slice()) {
            assert(sviews(hosts_file_names@)[i as int] == hosts_file_names@[i as int]@);
            return true;
        }
        i = i + 1;
    }
    assert forall|j: int| 0 <= j < sviews(hosts_file_names@).len() implies sviews(
        hosts_file_names@,
    )[j] != entry.alias@ && sviews(hosts_file_names@)[j] != entry.host_name@ by {
        assert(sviews(hosts_file_names@)[j] == hosts_file_names@[j]@);
    }
    is_private_or_link_local_ip(entry.host_name.as_str())
}


// ---------------------------------------------------------------------------
// Merge of `/etc/hosts` names and LAN-qualified SSH aliases
// ---------------------------------------------------------------------------

/// Lexicographic order by code point (the order of `String`'s `Ord`, since UTF-8
/// byte order agrees with code point order).
pub open spec fn lex_lt(a: Seq<char>, b: Seq<char>) -> bool
    decreases a.len(),
{
    if a.len() == 0 {
        b.len() > 0
    } else if b.len() == 0 {
        false
    } else if a[0] != b[0] {
        a[0] < b[0]
    } else {
        lex_lt(a.drop_first(), b.drop_first())
    }
}

pub proof fn lemma_lex_irreflexive(a: Seq<char>)
    ensures
        !lex_lt(a, a),
    decreases a.len(),
{
    if a.len() > 0 {
        lemma_lex_irreflexive(a.drop_first());
    }
}

pub proof fn lemma_lex_total(a: Seq<char>, b: Seq<char>)
    ensures
        a == b || lex_lt(a, b) || lex_lt(b, a),
    decreases a.len(),
{
    if a.len() > 0 && b.len() > 0 && a[0] == b[0] {
        lemma_lex_total(a.drop_first(), b.drop_first());
        if a.drop_first() == b.drop_first() {
            assert(a =~= seq![a[0]] + a.drop_first());
            assert(b =~= seq![b[0]] + b.drop_first());
        }
    } else if a.len() > 0 && b.len() > 0 {
    } else if a.len() == 0 && b.len() == 0 {
        assert(a =~= b);
    }
}

pub proof fn lemma_lex_trans(a: Seq<char>, b: Seq<char>, c: Seq<char>)
    requires
        lex_lt(a, b),
        lex_lt(b, c),
    ensures
        lex_lt(a, c),
    decreases a.len(),
{
    if a.len() > 0 && b.len() > 0 && c.len() > 0 && a[0] == b[0] && b[0] == c[0] {
        lemma_lex_trans(a.drop_first(), b.drop_first(), c.drop_first());
    }
}

pub proof fn lemma_lex_asym(a: Seq<char>, b: Seq<char>)
    requires
        lex_lt(a, b),
    ensures
        !lex_lt(b, a),
{
    if lex_lt(b, a) {
        lemma_lex_trans(a, b, a);
        lemma_lex_irreflexive(a);
    }
}

pub fn lex_less(a: &[char], b: &[char]) -> (r: bool)
    ensures
        r == lex_lt(a@, b@),
{
    let mut i: usize = 0;
    assert(a@.subrange(0, a@.len() as int) =~= a@);
    assert(b@.subrange(0, b@.len() as int) =~= b@);
    loop
        invariant
            i <= a@.len(),
            i <= b@.len(),
            lex_lt(a@, b@) == lex_lt(
                a@.subrange(i as int, a@.len() as int),
                b@.subrange(i as int, b@.len() as int),
            ),
        decreases a@.len() - i,
    {
        let ghost sa = a@.subrange(i as int, a@.len() as int);
        let ghost sb = b@.subrange(i as int, b@.len() as int);
        if i == a.len() {
            return i < b.len();
        }
        if i == b.len() {
            return false;
        }
        if a[i] != b[i] {
            assert(sa[0] == a@[i as int] && sb[0] == b@[i as int]);
            return a[i] < b[i];
        }
        assert(sa.drop_first() =~= a@.subrange(i + 1, a@.len() as int));
        assert(sb.drop_first() =~= b@.subrange(i + 1, b@.len() as int));
        i = i + 1;
    }
}

/// Strictly increasing by [`lex_lt`].
pub open spec fn sorted_strict(v: Seq<Seq<char>>) -> bool {
    forall|i: int, j: int| 0 <= i < j < v.len() ==> lex_lt(#[trigger] v[i], #[trigger] v[j])
}


/// Insert `name` into a strictly sorted name list unless already present.
fn insert_sorted(names: &mut Vec<String>, name: &[char])
    requires
        sorted_strict(sviews(old(names)@)),
    ensures
        sorted_strict(sviews(final(names)@)),
        forall|n: Seq<char>|
            #[trigger] sviews(final(names)@).contains(n) == (sviews(old(names)@).contains(n) || n
                == name@),
{
    let ghost old_v = sviews(names@);
    let mut p: usize = 0;
    while p < names.len()
        invariant
            p <= names@.len(),
            sviews(names@) == old_v,
            sorted_strict(old_v),
            forall|j: int| 0 <= j < p ==> lex_lt(#[trigger] old_v[j], name@),
        ensures
            p <= names@.len(),
            sviews(names@) == old_v,
            forall|j: int| 0 <= j < p ==> lex_lt(#[trigger] old_v[j], name@),
            p < names@.len() ==> !lex_lt(old_v[p as int], name@),
        decreases names@.len() - p,
    {
        let cur = to_chars(names[p].as_str());
        assert(old_v[p as int] == cur@);
        if !lex_less(cur.as_slice(), name) {
            break;
        }
        p = p + 1;
    }
    if p < names.len() {
        let cur = to_chars(names[p].as_str());
        assert(old_v[p as int] == cur@);
        if seq_eq(cur.as_slice(), name) {
            assert forall|n: Seq<char>| #[trigger] sviews(names@).contains(n) == (old_v.contains(n)
                || n == name@) by {
                if n == name@ {
                    assert(old_v[p as int] == n);
                }
            }
            return;
        }
        proof {
            lemma_lex_total(old_v[p as int], name@);
        }
    }
    names.insert(p, from_chars(name));
    let ghost new_v = sviews(names@);
    assert(new_v =~= old_v.subrange(0, p as int).push(name@) + old_v.subrange(
        p as int,
        old_v.len() as int,
    ));
    assert forall|i: int, j: int| 0 <= i < j < new_v.len() implies lex_lt(
        #[trigger] new_v[i],
        #[trigger] new_v[j],
    ) by {
        if j < p {
        } else if j == p {
            assert(new_v[i] == old_v[i]);
        } else if i == p {
            assert(new_v[j] == old_v[j - 1]);
            if j - 1 > p {
                lemma_lex_trans(name@, old_v[p as int], old_v[j - 1]);
            }
        } else if i < p {
            assert(new_v[i] == old_v[i]);
            assert(new_v[j] == old_v[j - 1]);
        } else {
            assert(new_v[i] == old_v[i - 1]);
            assert(new_v[j] == old_v[j - 1]);
        }
    }
    assert forall|n: Seq<char>| #[trigger] new_v.contains(n) == (old_v.contains(n) || n
        == name@) by {
        if old_v.contains(n) {
            let k = choose|k: int| 0 <= k < old_v.len() && #[trigger] old_v[k] == n;
            if k < p {
                assert(new_v[k] == n);
            } else {
                assert(new_v[k + 1] == n);
            }
        }
        if n == name@ {
            assert(new_v[p as int] == n);
        }
        if new_v.contains(n) {
            let k = choose|k: int| 0 <= k < new_v.len() && #[trigger] new_v[k] == n;
            if k < p {
                assert(old_v[k] == n);
            } else if k > p {
                assert(old_v[k - 1] == n);
            }
        }
    }
}

/// Insert every name of `src` other than `localhost` into a strictly sorted list.
fn insert_all_but_localhost(all: &mut Vec<String>, src: &Vec<String>)
    requires
        sorted_strict(sviews(old(all)@)),
    ensures
        sorted_strict(sviews(final(all)@)),
        forall|n: Seq<char>|
            #[trigger] sviews(final(all)@).contains(n) == (sviews(old(all)@).contains(n) || (
            sviews(src@).contains(n) && n != "localhost"@)),
{
    let ghost a0 = sviews(all@);
    let ghost sv = sviews(src@);
    let mut i: usize = 0;
    while i < src.len()
        invariant
            i <= src@.len(),
            sv == sviews(src@),
            sorted_strict(sviews(all@)),
            forall|n: Seq<char>|
                #[trigger] sviews(all@).contains(n) == (a0.contains(n) || (sv.subrange(
                    0,
                    i as int,
                ).contains(n) && n != "localhost"@)),
        decreases src@.len() - i,
    {
        let c = to_chars(src[i].as_str());
        assert(sv[i as int] == c@);
        let ghost before = sviews(all@);
        if !lit_eq(c.as_slice(), "localhost") {
            insert_sorted(all, c.as_slice());
        }
        let ghost s0 = sv.subrange(0, i as int);
        let ghost s1 = sv.subrange(0, i + 1);
        assert(s1 =~= s0.push(c@));
        assert forall|n: Seq<char>| #[trigger] sviews(all@).contains(n) == (a0.contains(n) || (
        s1.contains(n) && n != "localhost"@)) by {
            if s0.contains(n) {
                let q = choose|q: int| 0 <= q < s0.len() && #[trigger] s0[q] == n;
                assert(s1[q] == n);
            }
            if s1.contains(n) {
                let q = choose|q: int| 0 <= q < s1.len() && #[trigger] s1[q] == n;
                if q < i {
                    assert(s0[q] == n);
                }
            }
            if n == c@ {
                assert(s1[i as int] == n);
            }
        }
        i = i + 1;
    }
    assert(sv.subrange(0, i as int) =~= sv);
}

/// LAN-qualified aliases of one SSH config text.
pub open spec fn lan_aliases_of(entries: Seq<(Seq<char>, Seq<char>)>, names: Seq<Seq<char>>) -> Seq<
    Seq<char>,
>
    decreases entries.len(),
{
    if entries.len() == 0 {
        seq![]
    } else {
        let rest = lan_aliases_of(entries.drop_last(), names);
        let e = entries.last();
        if host_is_lan(e.0, e.1, names) {
            rest.push(e.0)
        } else {
            rest
        }
    }
}

/// LAN-qualified aliases of all SSH config texts, in order.
pub open spec fn lan_aliases(texts: Seq<Seq<char>>, names: Seq<Seq<char>>) -> Seq<Seq<char>>
    decreases texts.len(),
{
    if texts.len() == 0 {
        seq![]
    } else {
        lan_aliases(texts.drop_last(), names) + lan_aliases_of(
            ssh_config_entries(texts.last()),
            names,
        )
    }
}

pub open spec fn str_views(v: Seq<&str>) -> Seq<Seq<char>> {
    Seq::new(v.len(), |i: int| v[i]@)
}

pub open spec fn known_views(v: Seq<KnownRemoteHost>) -> Seq<(Seq<char>, bool, bool)> {
    Seq::new(v.len(), |i: int| (v[i].name@, v[i].in_hosts_file, v[i].in_ssh_config))
}

/// Shape of [`merge_known_remote_hosts`]: `localhost` first, then every name of
/// `hosts` or `lan` other than `localhost`, once each, in increasing order, each
/// flagged by where it was found.
pub open spec fn known_hosts_merge(
    r: Seq<(Seq<char>, bool, bool)>,
    hosts: Seq<Seq<char>>,
    lan: Seq<Seq<char>>,
) -> bool {
    &&& r.len() >= 1
    &&& r[0] == ("localhost"@, true, false)
    &&& forall|i: int, j: int| 1 <= i < j < r.len() ==> lex_lt(#[trigger] r[i].0, #[trigger] r[j].0)
    &&& forall|i: int|
        1 <= i < r.len() ==> {
            &&& (#[trigger] r[i]).0 != "localhost"@
            &&& hosts.contains(r[i].0) || lan.contains(r[i].0)
            &&& r[i].1 == hosts.contains(r[i].0)
            &&& r[i].2 == lan.contains(r[i].0)
        }
    &&& forall|n: Seq<char>|
        #![trigger hosts.contains(n)]
        #![trigger lan.contains(n)]
        (hosts.contains(n) || lan.contains(n)) && n != "localhost"@ ==> exists|i: int|
            1 <= i < r.len() && r[i].0 == n
}

/// Aliases of every SSH config text that pass the LAN filter, in order.
fn collect_lan_aliases(hosts_names: &Vec<String>, ssh_config_texts: &[&str]) -> (lan: Vec<String>)
    ensures
        sviews(lan@) == lan_aliases(str_views(ssh_config_texts@), sviews(hosts_names@)),
{
    let ghost hv = sviews(hosts_names@);
    let mut lan: Vec<String> = Vec::new();
    let mut t: usize = 0;
    assert(sviews(lan@) =~= lan_aliases(str_views(ssh_config_texts@).subrange(0, 0), hv));
    while t < ssh_config_texts.len()
        invariant
            t <= ssh_config_texts@.len(),
            hv == sviews(hosts_names@),
            sviews(lan@) == lan_aliases(str_views(ssh_config_texts@).subrange(0, t as int), hv),
        decreases ssh_config_texts@.len() - t,
    {
        let entries = parse_ssh_config_hosts(ssh_config_texts[t]);
        let ghost base = sviews(lan@);
        let ghost ev = entry_views(entries@);
        let mut k: usize = 0;
        assert(ev.subrange(0, 0) =~= Seq::<(Seq<char>, Seq<char>)>::empty());
        assert(base + lan_aliases_of(ev.subrange(0, 0), hv) =~= base);
        while k < entries.len()
            invariant
                k <= entries@.len(),
                ev == entry_views(entries@),
                hv == sviews(hosts_names@),
                sviews(lan@) == base + lan_aliases_of(ev.subrange(0, k as int), hv),
            decreases entries@.len() - k,
        {
            assert(ev.subrange(0, k + 1).drop_last() =~= ev.subrange(0, k as int));
            assert(ev.subrange(0, k + 1).last() == (
            entries@[k as int].alias@,
            entries@[k as int].host_name@,
            ));
            if ssh_host_is_lan(&entries[k], hosts_names.as_slice()) {
                let ghost l0 = sviews(lan@);
                lan.push(copy_string(&entries[k].alias));
                assert(sviews(lan@) =~= l0.push(entries@[k as int].alias@));
            }
            k = k + 1;
        }
        assert(ev.subrange(0, k as int) =~= ev);
        assert(str_views(ssh_config_texts@).subrange(0, t + 1).drop_last() =~= str_views(
            ssh_config_texts@,
        ).subrange(0, t as int));
        assert(str_views(ssh_config_texts@).subrange(0, t + 1).last()
            == ssh_config_texts@[t as int]@);
        t = t + 1;
    }
    assert(str_views(ssh_config_texts@).subrange(0, t as int) =~= str_views(ssh_config_texts@));
    lan
}

/// Testable merge of hosts-file text and SSH config texts (LAN filter applied).
///
/// `localhost` is always first so Desktop can target this machine.
pub fn merge_known_remote_hosts(hosts_file_text: &str, ssh_config_texts: &[&str]) -> (r: Vec<
    KnownRemoteHost,
>)
    ensures
        known_hosts_merge(
            known_views(r@),
            hosts_file_names(hosts_file_text@),
            lan_aliases(str_views(ssh_config_texts@), hosts_file_names(hosts_file_text@)),
        ),
{
    let hosts_names = parse_hosts_file_names(hosts_file_text);
    let lan = collect_lan_aliases(&hosts_names, ssh_config_texts);
    let ghost hv = sviews(hosts_names@);
    let ghost lv = sviews(lan@);
    let mut all: Vec<String> = Vec::new();
    insert_all_but_localhost(&mut all, &hosts_names);
    insert_all_but_localhost(&mut all, &lan);
    let ghost av = sviews(all@);
    assert forall|n: Seq<char>| #[trigger] av.contains(n) == ((hv.contains(n) || lv.contains(n))
        && n != "localhost"@) by {}
    let mut out: Vec<KnownRemoteHost> = Vec::new();
    out.push(
        KnownRemoteHost { name: owned("localhost"), in_hosts_file: true, in_ssh_config: false },
    );
    let mut k: usize = 0;
    while k < all.len()
        invariant
            k <= all@.len(),
            av == sviews(all@),
            hv == sviews(hosts_names@),
            lv == sviews(lan@),
            out@.len() == k + 1,
            known_views(out@)[0] == ("localhost"@, true, false),
            forall|a: int|
                0 <= a < k ==> #[trigger] known_views(out@)[a + 1] == (
                av[a],
                hv.contains(av[a]),
                lv.contains(av[a]),
                ),
        decreases all@.len() - k,
    {
        let c = to_chars(all[k].as_str());
        assert(av[k as int] == c@);
        let in_h = names_contain(&hosts_names, c.as_slice());
        let in_s = names_contain(&lan, c.as_slice());
        let ghost o0 = known_views(out@);
        out.push(
            KnownRemoteHost {
                name: from_chars(c.as_slice()),
                in_hosts_file: in_h,
                in_ssh_config: in_s,
            },
        );
        assert(known_views(out@) =~= o0.push((c@, in_h, in_s)));
        assert forall|a: int| 0 <= a < k + 1 implies #[trigger] known_views(out@)[a + 1] == (
            av[a],
            hv.contains(av[a]),
            lv.contains(av[a]),
        ) by {
            if a < k {
                assert(known_views(out@)[a + 1] == o0[a + 1]);
            }
        }
        k = k + 1;
    }
    let ghost r = known_views(out@);
    assert forall|i: int| 1 <= i < r.len() implies #[trigger] r[i] == (
        av[i - 1],
        hv.contains(av[i - 1]),
        lv.contains(av[i - 1]),
    ) by {
        assert(r[(i - 1) + 1] == r[i]);
    }
    assert forall|i: int, j: int| 1 <= i < j < r.len() implies lex_lt(
        #[trigger] r[i].0,
        #[trigger] r[j].0,
    ) by {
        assert(r[i].0 == av[i - 1]);
        assert(r[j].0 == av[j - 1]);
    }
    assert forall|i: int| 1 <= i < r.len() implies {
        &&& (#[trigger] r[i]).0 != "localhost"@
        &&& hv.contains(r[i].0) || lv.contains(r[i].0)
        &&& r[i].1 == hv.contains(r[i].0)
        &&& r[i].2 == lv.contains(r[i].0)
    } by {
        assert(av.contains(av[i - 1]));
    }
    assert forall|n: Seq<char>|
        #![trigger hv.contains(n)]
        #![trigger lv.contains(n)]
        (hv.contains(n) || lv.contains(n)) && n != "localhost"@ implies exists|
        i: int,
    | 1 <= i < r.len() && r[i].0 == n by {
        assert(av.contains(n));
        let q = choose|q: int| 0 <= q < av.len() && #[trigger] av[q] == n;
        assert(r[q + 1].0 == n);
    }
    out
}

} // verus!
