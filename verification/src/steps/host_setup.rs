//! Host-level setup decisions: base packages (`s1`), the OS / IoT-LAN env
//! (`s2`), the minimal env (`m1`), applying staged configs (`s5`) and the
//! Docker Engine install (`d0`).
use vstd::prelude::*;
use crate::envfile::{
    env_get, env_set, missing_keys, missing_keys_error, ref_views, require_keys, EnvMap,
};
use crate::error::{message_error, ErrorView, HortoError};
use crate::journal::StepJournal;
use crate::remote::bins::{join_path, path_join};
use crate::steps::{
    candidate_eth, eth_pick_ok, is_candidate_eth, iot_complete, iot_env_complete, normalize_yn,
    pick_eth, wants_iot_lan, yes_word,
};
use crate::steps::validate::StepGate;
use crate::text::{
    lemma_trim_idem, char_end, concat2, concat3, contains, contains_seq, find_char_end, from_chars, lines, lower,
    owned, slice_range, split_lines, split_once, split_once_chars, str_contains, to_chars, trim,
    trim_chars, views,
};

verus! {

// ---------------------------------------------------------------------------
// s1: base packages and the Cockpit listen drop-in
// ---------------------------------------------------------------------------

/// Cockpit socket drop-in under the etc root.
pub open spec fn dropin_path(etc: Seq<char>) -> Seq<char> {
    join_path(etc, "systemd/system/cockpit.socket.d/listen.conf"@)
}

pub fn cockpit_dropin_path(etc: &str) -> (r: String)
    ensures
        r@ == dropin_path(etc@),
{
    path_join(etc, "systemd/system/cockpit.socket.d/listen.conf")
}

/// The drop-in is a file whose text sets `ListenStream=9890`.
pub open spec fn dropin_ok(is_file: bool, text: Option<Seq<char>>) -> bool {
    is_file && (text matches Some(t) && contains(t, "ListenStream=9890"@))
}

pub fn cockpit_dropin_present(is_file: bool, text: Option<&str>) -> (b: bool)
    ensures
        b == dropin_ok(
            is_file,
            match text {
                Some(t) => Some(t@),
                None => None,
            },
        ),
{
    if !is_file {
        return false;
    }
    match text {
        Some(t) => str_contains(t, "ListenStream=9890"),
        None => false,
    }
}

/// Dry-run plan of `s1`.
pub open spec fn packages_plan() -> Seq<Seq<char>> {
    seq![
        "apt update"@,
        "apt install -y cockpit cockpit-networkmanager"@,
        "write cockpit.socket drop-in ListenStream=9890"@,
        "systemctl daemon-reload"@,
        "systemctl enable --now cockpit.socket"@,
    ]
}

pub fn plan_packages(journal: &mut StepJournal)
    ensures
        final(journal)@.planned == old(journal)@.planned + packages_plan(),
        final(journal)@.logs == old(journal)@.logs,
{
    let ghost p0 = journal@.planned;
    journal.plan_action(owned("apt update"));
    journal.plan_action(owned("apt install -y cockpit cockpit-networkmanager"));
    journal.plan_action(owned("write cockpit.socket drop-in ListenStream=9890"));
    journal.plan_action(owned("systemctl daemon-reload"));
    journal.plan_action(owned("systemctl enable --now cockpit.socket"));
    assert(journal@.planned =~= p0 + packages_plan());
}

// ---------------------------------------------------------------------------
// s2: OS configuration and IoT-LAN env
// ---------------------------------------------------------------------------

/// Keys `os-configuration.env` must set.
pub open spec fn os_required() -> Seq<Seq<char>> {
    seq!["MY_HOSTNAME"@, "OS_TYPE"@, "NPU_TYPE"@, "INSTALL_TYP"@, "IOT_LAN"@]
}

/// `IOT_LAN` of an env holds a yes answer.
pub open spec fn wants_iot(s: Seq<(Seq<char>, Seq<char>)>) -> bool {
    match env_get(s, "IOT_LAN"@) {
        Some(v) => yes_word(v),
        None => false,
    }
}

/// `s2` counts as done when the OS configuration could be read and sets
/// every required key, and, when it asks for an IoT LAN, the IoT env could
/// be read and is complete.
pub open spec fn env_done(
    os: Option<Seq<(Seq<char>, Seq<char>)>>,
    iot: Option<Seq<(Seq<char>, Seq<char>)>>,
) -> bool {
    os matches Some(m) && missing_keys(m, os_required()).len() == 0 && (wants_iot(m) ==> (
    iot matches Some(i) && iot_complete(i)))
}

pub fn env_setup_done(os: Option<&EnvMap>, iot: Option<&EnvMap>) -> (b: bool)
    ensures
        b == env_done(
            match os {
                Some(m) => Some(m@),
                None => None,
            },
            match iot {
                Some(m) => Some(m@),
                None => None,
            },
        ),
{
    let m = match os {
        Some(m) => m,
        None => return false,
    };
    let keys: [&str; 5] = ["MY_HOSTNAME", "OS_TYPE", "NPU_TYPE", "INSTALL_TYP", "IOT_LAN"];
    assert(ref_views(keys@) =~= os_required());
    if require_keys(m, &keys).is_err() {
        return false;
    }
    if wants_iot_lan(m) {
        return match iot {
            Some(i) => iot_env_complete(i),
            None => false,
        };
    }
    true
}

/// Dry-run plan of `s2`.
pub open spec fn env_plan(os_conf: Seq<char>) -> Seq<Seq<char>> {
    seq![
        "create/update "@ + os_conf + " from embedded config/os-configuration.env"@,
        "prompt OS_TYPE, NPU_TYPE, INSTALL_TYP, IOT_LAN, hostname, URL"@,
        "if IOT_LAN=y: apt IoT packages + iot-lan_conf.env + ETH discovery (WiFi optional)"@,
    ]
}

pub fn plan_env_setup(journal: &mut StepJournal, os_conf: &str)
    ensures
        final(journal)@.planned == old(journal)@.planned + env_plan(os_conf@),
        final(journal)@.logs == old(journal)@.logs,
{
    let ghost p0 = journal@.planned;
    journal.plan_action(concat3("create/update ", os_conf, " from embedded config/os-configuration.env"));
    journal.plan_action(owned("prompt OS_TYPE, NPU_TYPE, INSTALL_TYP, IOT_LAN, hostname, URL"));
    journal.plan_action(
        owned("if IOT_LAN=y: apt IoT packages + iot-lan_conf.env + ETH discovery (WiFi optional)"),
    );
    assert(journal@.planned =~= p0 + env_plan(os_conf@));
}

/// Prompts of the OS configuration: `(label, key, fallback default)`.
pub open spec fn os_prompt_table() -> Seq<(Seq<char>, Seq<char>, Seq<char>)> {
    seq![
        ("Device hostname"@, "MY_HOSTNAME"@, "Horto-OS_xxx"@),
        ("OS type (debian/armbian)"@, "OS_TYPE"@, "debian"@),
        ("NPU type (rkRK3576/rkRK3588/...)"@, "NPU_TYPE"@, "rkRK3588"@),
        ("RAM size label"@, "RAM_SYZE"@, "8gb"@),
        ("Install type (home/satellite/hortex)"@, "INSTALL_TYP"@, "home"@),
        ("Enable IOT-LAN (y/n)"@, "IOT_LAN"@, "n"@),
        ("Public URL / domain"@, "MY_URL"@, "YourDomainName.net"@),
        ("Cloudflare token (optional)"@, "MY_CLOUDFLARE_TOKEN"@, ""@),
    ]
}

/// Value offered for `key`: the current one, else the fallback.
pub open spec fn offered(s: Seq<(Seq<char>, Seq<char>)>, key: Seq<char>, fallback: Seq<char>) -> Seq<char> {
    match env_get(s, key) {
        Some(v) => v,
        None => fallback,
    }
}

pub open spec fn prompt_views(v: Seq<(String, String)>) -> Seq<(Seq<char>, Seq<char>)> {
    Seq::new(v.len(), |i: int| (v[i].0@, v[i].1@))
}

fn offered_value(map: &EnvMap, key: &str, fallback: &str) -> (r: String)
    ensures
        r@ == offered(map@, key@, fallback@),
{
    match map.get(key) {
        Some(v) => owned(v),
        None => owned(fallback),
    }
}

/// The OS-configuration prompts in order, `(label, default)`, each default
/// being the current value of its key or its fallback.
pub fn os_conf_prompts(map: &EnvMap) -> (r: Vec<(String, String)>)
    ensures
        prompt_views(r@) == Seq::new(
            8,
            |i: int|
                (
                    os_prompt_table()[i].0,
                    offered(map@, os_prompt_table()[i].1, os_prompt_table()[i].2),
                ),
        ),
{
    let mut r: Vec<(String, String)> = Vec::new();
    r.push((owned("Device hostname"), offered_value(map, "MY_HOSTNAME", "Horto-OS_xxx")));
    r.push((owned("OS type (debian/armbian)"), offered_value(map, "OS_TYPE", "debian")));
    r.push((owned("NPU type (rkRK3576/rkRK3588/...)"), offered_value(map, "NPU_TYPE", "rkRK3588")));
    r.push((owned("RAM size label"), offered_value(map, "RAM_SYZE", "8gb")));
    r.push((owned("Install type (home/satellite/hortex)"), offered_value(map, "INSTALL_TYP", "home")));
    r.push((owned("Enable IOT-LAN (y/n)"), offered_value(map, "IOT_LAN", "n")));
    r.push((owned("Public URL / domain"), offered_value(map, "MY_URL", "YourDomainName.net")));
    r.push((owned("Cloudflare token (optional)"), offered_value(map, "MY_CLOUDFLARE_TOKEN", "")));
    assert(prompt_views(r@) =~= Seq::new(
        8,
        |i: int|
            (
                os_prompt_table()[i].0,
                offered(map@, os_prompt_table()[i].1, os_prompt_table()[i].2),
            ),
    ));
    r
}

/// Answers to the OS-configuration prompts.
pub struct OsConfAnswers {
    pub hostname: String,
    pub os_type: String,
    pub npu_type: String,
    pub ram_size: String,
    pub install_type: String,
    pub iot_lan: String,
    pub url: String,
    pub cloudflare_token: String,
}

/// `y` for a yes answer, else `n`.
pub open spec fn yn(raw: Seq<char>) -> Seq<char> {
    if yes_word(raw) {
        "y"@
    } else {
        "n"@
    }
}

/// The env after storing the answers, `IOT_LAN` folded to `y` / `n`.
pub open spec fn with_os_answers(s: Seq<(Seq<char>, Seq<char>)>, a: OsConfAnswers) -> Seq<
    (Seq<char>, Seq<char>),
> {
    let s1 = env_set(s, "MY_HOSTNAME"@, a.hostname@);
    let s2 = env_set(s1, "OS_TYPE"@, a.os_type@);
    let s3 = env_set(s2, "NPU_TYPE"@, a.npu_type@);
    let s4 = env_set(s3, "RAM_SYZE"@, a.ram_size@);
    let s5 = env_set(s4, "INSTALL_TYP"@, a.install_type@);
    let s6 = env_set(s5, "IOT_LAN"@, yn(a.iot_lan@));
    let s7 = env_set(s6, "MY_URL"@, a.url@);
    env_set(s7, "MY_CLOUDFLARE_TOKEN"@, a.cloudflare_token@)
}

pub fn apply_os_conf_answers(map: &mut EnvMap, a: &OsConfAnswers)
    ensures
        final(map)@ == with_os_answers(old(map)@, *a),
{
    map.set("MY_HOSTNAME", a.hostname.as_str());
    map.set("OS_TYPE", a.os_type.as_str());
    map.set("NPU_TYPE", a.npu_type.as_str());
    map.set("RAM_SYZE", a.ram_size.as_str());
    map.set("INSTALL_TYP", a.install_type.as_str());
    let y = normalize_yn(a.iot_lan.as_str());
    map.set("IOT_LAN", y.as_str());
    map.set("MY_URL", a.url.as_str());
    map.set("MY_CLOUDFLARE_TOKEN", a.cloudflare_token.as_str());
}

/// Interface row of one `ip -o link show` line: the name between the first
/// `: ` and the next `:`, trimmed, and whether the line says `LOWER_UP`.
pub open spec fn link_row(line: Seq<char>) -> Option<(Seq<char>, bool)> {
    match split_once(line, ": "@) {
        None => None,
        Some((_, rest)) => {
            let name = trim(rest.subrange(0, char_end(rest, ':') as int));
            if candidate_eth(name) {
                Some((name, contains(line, "LOWER_UP"@)))
            } else {
                None
            }
        },
    }
}

/// Candidate Ethernet interfaces of `ip -o link show` output, in order.
pub open spec fn link_rows(ls: Seq<Seq<char>>) -> Seq<(Seq<char>, bool)>
    decreases ls.len(),
{
    if ls.len() == 0 {
        seq![]
    } else {
        match link_row(ls.last()) {
            Some(r) => link_rows(ls.drop_last()).push(r),
            None => link_rows(ls.drop_last()),
        }
    }
}

pub open spec fn iface_views(v: Seq<(String, bool)>) -> Seq<(Seq<char>, bool)> {
    Seq::new(v.len(), |i: int| (v[i].0@, v[i].1))
}

/// `(name, up)` of every candidate Ethernet interface in `ip -o link show`
/// output.
pub fn parse_eth_ifaces(text: &str) -> (r: Vec<(String, bool)>)
    ensures
        iface_views(r@) == link_rows(lines(text@)),
{
    let c = to_chars(text);
    let ls = split_lines(c.as_slice());
    let ghost lv = views(ls@);
    let sep = to_chars(": ");
    let up = to_chars("LOWER_UP");
    let mut r: Vec<(String, bool)> = Vec::new();
    let mut i: usize = 0;
    while i < ls.len()
        invariant
            i <= ls@.len(),
            lv == views(ls@),
            lv == lines(text@),
            sep@ == ": "@,
            up@ == "LOWER_UP"@,
            iface_views(r@) == link_rows(lv.subrange(0, i as int)),
        decreases ls@.len() - i,
    {
        let ghost sub = lv.subrange(0, i + 1);
        assert(sub.drop_last() =~= lv.subrange(0, i as int));
        assert(sub.last() == ls@[i as int]@);
        let line = &ls[i];
        match split_once_chars(line.as_slice(), sep.as_slice()) {
            None => {},
            Some((_, rest)) => {
                let e = find_char_end(rest.as_slice(), ':', 0);
                assert(rest@.subrange(0, rest@.len() as int) =~= rest@);
                let head = slice_range(rest.as_slice(), 0, e);
                let name = trim_chars(head.as_slice());
                let ns = from_chars(name.as_slice());
                if is_candidate_eth(ns.as_str()) {
                    let lower_up = contains_seq(line.as_slice(), up.as_slice());
                    let ghost r0 = iface_views(r@);
                    r.push((ns, lower_up));
                    assert(iface_views(r@) =~= r0.push((name@, lower_up)));
                }
            },
        }
        i = i + 1;
    }
    assert(lv.subrange(0, i as int) =~= lv);
    r
}

pub open spec fn opt_views(o: Option<String>) -> Option<Seq<char>> {
    match o {
        Some(s) => Some(s@),
        None => None,
    }
}

/// `Discovered ETH_LAN=<a>, ETH_IOT1=<b>, ETH_IOT2=<c or not-set>`
pub open spec fn discovered_line(r: (Seq<char>, Seq<char>, Option<Seq<char>>)) -> Seq<char> {
    "Discovered ETH_LAN="@ + r.0 + ", ETH_IOT1="@ + r.1 + ", ETH_IOT2="@ + match r.2 {
        Some(e) => e,
        None => "not-set"@,
    }
}

/// The env after storing a pick of interfaces.
pub open spec fn with_eth(s: Seq<(Seq<char>, Seq<char>)>, r: (Seq<char>, Seq<char>, Option<Seq<char>>)) -> Seq<
    (Seq<char>, Seq<char>),
> {
    let s2 = env_set(env_set(s, "ETH_LAN"@, r.0), "ETH_IOT1"@, r.1);
    match r.2 {
        Some(e) => env_set(s2, "ETH_IOT2"@, e),
        None => s2,
    }
}

/// Store the interfaces picked from `ifaces` (see [`pick_eth`]) as
/// `ETH_LAN`, `ETH_IOT1` and, when there is one, `ETH_IOT2`, and log them.
pub fn assign_eth(map: &mut EnvMap, journal: &mut StepJournal, ifaces: &[(String, bool)])
    ensures
        exists|r: (Seq<char>, Seq<char>, Option<Seq<char>>)|
            #![trigger eth_pick_ok(ifaces@, r)]
            eth_pick_ok(ifaces@, r) && final(map)@ == with_eth(old(map)@, r) && final(journal)@.logs
                == old(journal)@.logs.push(discovered_line(r)),
        final(journal)@.planned == old(journal)@.planned,
{
    let (eth0, eth1, eth2) = pick_eth(ifaces);
    let ghost r = (eth0@, eth1@, opt_views(eth2));
    map.set("ETH_LAN", eth0.as_str());
    map.set("ETH_IOT1", eth1.as_str());
    let mut l = concat3("Discovered ETH_LAN=", eth0.as_str(), ", ETH_IOT1=");
    l.append(eth1.as_str());
    l.append(", ETH_IOT2=");
    match &eth2 {
        Some(e2) => {
            map.set("ETH_IOT2", e2.as_str());
            l.append(e2.as_str());
        },
        None => {
            l.append("not-set");
        },
    }
    journal.log(l);
    assert(eth_pick_ok(ifaces@, r));
}

/// The WiFi interface answer as stored: trimmed, with a blank answer or any
/// casing of `none` meaning no WiFi AP (`none`).
pub open spec fn wifi_iface_of(raw: Seq<char>) -> Seq<char> {
    let t = trim(raw);
    if t.len() == 0 || lower(t) == "none"@ {
        "none"@
    } else {
        t
    }
}

pub fn normalize_wifi_iface(raw: &str) -> (r: String)
    ensures
        r@ == wifi_iface_of(raw@),
{
    let c = to_chars(raw);
    let t = trim_chars(c.as_slice());
    let l = crate::text::lower_chars(t.as_slice());
    let none = to_chars("none");
    if t.len() == 0 || crate::text::seq_eq(l.as_slice(), none.as_slice()) {
        return owned("none");
    }
    from_chars(t.as_slice())
}

/// WiFi prompt default: the stored interface, else `none`.
pub fn wifi_iface_default(map: &EnvMap) -> (r: String)
    ensures
        r@ == offered(map@, "WIFI_INTERFACE"@, "none"@),
{
    offered_value(map, "WIFI_INTERFACE", "none")
}

/// SSID and passphrase prompt defaults: the stored values, else
/// `Horto-IoT-LAN` and nothing.
pub fn wifi_secret_defaults(map: &EnvMap) -> (r: (String, String))
    ensures
        r.0@ == offered(map@, "WIFI_SSID"@, "Horto-IoT-LAN"@),
        r.1@ == offered(map@, "WIFI_PASSPHRASE"@, ""@),
{
    (offered_value(map, "WIFI_SSID", "Horto-IoT-LAN"), offered_value(map, "WIFI_PASSPHRASE", ""))
}

/// The IoT env after the WiFi interface answer: the normalized interface is
/// stored; without a WiFi AP the SSID and passphrase are cleared.
pub open spec fn with_wifi_choice(s: Seq<(Seq<char>, Seq<char>)>, raw: Seq<char>) -> Seq<
    (Seq<char>, Seq<char>),
> {
    let w = wifi_iface_of(raw);
    let s1 = env_set(s, "WIFI_INTERFACE"@, w);
    if w != "none"@ {
        s1
    } else {
        env_set(env_set(s1, "WIFI_SSID"@, ""@), "WIFI_PASSPHRASE"@, ""@)
    }
}

/// Store the WiFi interface answer; `true` when a WiFi AP is wanted (the
/// caller then asks for SSID and passphrase). Without one, the SSID and
/// passphrase are cleared and an Ethernet-only note is logged.
pub fn apply_wifi_choice(map: &mut EnvMap, journal: &mut StepJournal, wifi_raw: &str) -> (wifi: bool)
    ensures
        wifi == (wifi_iface_of(wifi_raw@) != "none"@),
        final(map)@ == with_wifi_choice(old(map)@, wifi_raw@),
        wifi ==> final(journal)@ == old(journal)@,
        !wifi ==> final(journal)@.logs == old(journal)@.logs.push(
            "WIFI_INTERFACE=none; Ethernet-only IoT-LAN (hostapd skipped)"@,
        ),
        final(journal)@.planned == old(journal)@.planned,
{
    let w = normalize_wifi_iface(wifi_raw);
    map.set("WIFI_INTERFACE", w.as_str());
    if !crate::text::str_eq(w.as_str(), "none") {
        return true;
    }
    journal.log(owned("WIFI_INTERFACE=none; Ethernet-only IoT-LAN (hostapd skipped)"));
    map.set("WIFI_SSID", "");
    map.set("WIFI_PASSPHRASE", "");
    false
}

/// `Ok` exactly when the IoT env is complete (see [`iot_env_complete`]);
/// otherwise the error names the missing keys, interface keys first.
pub fn check_iot_env(map: &EnvMap) -> (r: Result<(), HortoError>)
    ensures
        r is Ok <==> iot_complete(map@),
        r matches Err(e) ==> e@ == (if missing_keys(
            map@,
            seq!["ETH_LAN"@, "ETH_IOT1"@, "WIFI_INTERFACE"@],
        ).len() > 0 {
            missing_keys_error(missing_keys(map@, seq!["ETH_LAN"@, "ETH_IOT1"@, "WIFI_INTERFACE"@]))
        } else {
            missing_keys_error(missing_keys(map@, seq!["WIFI_SSID"@]))
        }),
{
    let keys: [&str; 3] = ["ETH_LAN", "ETH_IOT1", "WIFI_INTERFACE"];
    assert(ref_views(keys@) =~= seq!["ETH_LAN"@, "ETH_IOT1"@, "WIFI_INTERFACE"@]);
    require_keys(map, &keys)?;
    if crate::envfile::wifi_ap_enabled(map) {
        let ssid: [&str; 1] = ["WIFI_SSID"];
        assert(ref_views(ssid@) =~= seq!["WIFI_SSID"@]);
        require_keys(map, &ssid)?;
    }
    Ok(())
}

/// Packages an IoT LAN needs: the base set, plus `hostapd` with a WiFi AP.
pub open spec fn iot_package_list(wifi: bool) -> Seq<Seq<char>> {
    if wifi {
        seq!["dnsmasq"@, "iptables"@, "avahi-daemon"@, "hostapd"@]
    } else {
        seq!["dnsmasq"@, "iptables"@, "avahi-daemon"@]
    }
}

pub open spec fn str_views(v: Seq<String>) -> Seq<Seq<char>> {
    Seq::new(v.len(), |i: int| v[i]@)
}

pub fn iot_packages(wifi: bool) -> (r: Vec<String>)
    ensures
        str_views(r@) == iot_package_list(wifi),
{
    let mut r: Vec<String> = Vec::new();
    r.push(owned("dnsmasq"));
    r.push(owned("iptables"));
    r.push(owned("avahi-daemon"));
    if wifi {
        r.push(owned("hostapd"));
    }
    assert(str_views(r@) =~= iot_package_list(wifi));
    r
}

// ---------------------------------------------------------------------------
// m1: minimal env
// ---------------------------------------------------------------------------

/// `m1` counts as done when the minimal env could be read and sets a
/// non-blank `MY_HOSTNAME`.
pub open spec fn minimal_done_spec(env: Option<Seq<(Seq<char>, Seq<char>)>>) -> bool {
    env matches Some(m) && missing_keys(m, seq!["MY_HOSTNAME"@]).len() == 0
}

pub fn minimal_done(env: Option<&EnvMap>) -> (b: bool)
    ensures
        b == minimal_done_spec(
            match env {
                Some(m) => Some(m@),
                None => None,
            },
        ),
{
    match env {
        None => false,
        Some(m) => {
            let keys: [&str; 1] = ["MY_HOSTNAME"];
            assert(ref_views(keys@) =~= seq!["MY_HOSTNAME"@]);
            require_keys(m, &keys).is_ok()
        },
    }
}

/// Hostname offered by `m1`: the env's, else `Horto-OS_xxx`.
pub fn minimal_hostname_default(env: &EnvMap) -> (r: String)
    ensures
        r@ == offered(env@, "MY_HOSTNAME"@, "Horto-OS_xxx"@),
{
    offered_value(env, "MY_HOSTNAME", "Horto-OS_xxx")
}

/// The minimal env `m1` writes: only `MY_HOSTNAME`, which must not be empty.
pub fn minimal_env(hostname: &str) -> (r: Result<EnvMap, HortoError>)
    ensures
        hostname@.len() == 0 ==> (r matches Err(e) && e@ == message_error("MY_HOSTNAME is empty"@)),
        hostname@.len() > 0 ==> (r matches Ok(m) && m@ == env_set(seq![], "MY_HOSTNAME"@, hostname@)),
{
    if hostname.is_empty() {
        return Err(HortoError::msg("MY_HOSTNAME is empty"));
    }
    let mut m = EnvMap::new();
    m.set("MY_HOSTNAME", hostname);
    Ok(m)
}

/// Dry-run plan of `m1`.
pub open spec fn minimal_plan(env_file: Seq<char>) -> Seq<Seq<char>> {
    seq![
        "apt update"@,
        "apt install -y cockpit cockpit-networkmanager"@,
        "write "@ + env_file + " with MY_HOSTNAME"@,
    ]
}

pub fn plan_minimal(journal: &mut StepJournal, env_file: &str)
    ensures
        final(journal)@.planned == old(journal)@.planned + minimal_plan(env_file@),
        final(journal)@.logs == old(journal)@.logs,
{
    let ghost p0 = journal@.planned;
    journal.plan_action(owned("apt update"));
    journal.plan_action(owned("apt install -y cockpit cockpit-networkmanager"));
    journal.plan_action(concat3("write ", env_file, " with MY_HOSTNAME"));
    assert(journal@.planned =~= p0 + minimal_plan(env_file@));
}

// ---------------------------------------------------------------------------
// s5: apply staged configs
// ---------------------------------------------------------------------------

/// Error when the staging tree is missing outside a dry run.
pub open spec fn staging_missing_error(staging: Seq<char>) -> ErrorView {
    message_error("staging directory not found: "@ + staging)
}

/// Gate of `s5`: outside a dry run the staging tree must exist; a dry run
/// only plans.
pub fn apply_staged_gate(staging_is_dir: bool, dry_run: bool, staging: &str) -> (r: Result<StepGate, HortoError>)
    ensures
        (!staging_is_dir && !dry_run) ==> (r matches Err(e) && e@ == staging_missing_error(staging@)),
        dry_run ==> r == Ok::<StepGate, HortoError>(StepGate::Plan),
        (staging_is_dir && !dry_run) ==> r == Ok::<StepGate, HortoError>(StepGate::Run),
{
    if !staging_is_dir && !dry_run {
        return Err(HortoError::msg(concat2("staging directory not found: ", staging).as_str()));
    }
    if dry_run {
        return Ok(StepGate::Plan);
    }
    Ok(StepGate::Run)
}

/// Dry-run plan of `s5`: the whole staging tree for an IoT LAN, else only
/// `hosts` and `hostname`.
pub open spec fn apply_plan(iot: bool, staging: Seq<char>, etc: Seq<char>) -> Seq<Seq<char>> {
    if iot {
        seq![
            "copy "@ + staging + "/* -> "@ + etc + "/"@,
            "handle resolv.conf symlink specially"@,
            "systemctl stop/disable systemd-resolved"@,
        ]
    } else {
        seq!["apply staged hosts + hostname only (host setup, no IoT-LAN)"@]
    }
}

pub fn plan_apply_staged(journal: &mut StepJournal, iot: bool, staging: &str, etc: &str)
    ensures
        final(journal)@.planned == old(journal)@.planned + apply_plan(iot, staging@, etc@),
        final(journal)@.logs == old(journal)@.logs,
{
    let ghost p0 = journal@.planned;
    if iot {
        let mut l = concat3("copy ", staging, "/* -> ");
        l.append(etc);
        l.append("/");
        journal.plan_action(l);
        journal.plan_action(owned("handle resolv.conf symlink specially"));
        journal.plan_action(owned("systemctl stop/disable systemd-resolved"));
    } else {
        journal.plan_action(owned("apply staged hosts + hostname only (host setup, no IoT-LAN)"));
    }
    assert(journal@.planned =~= p0 + apply_plan(iot, staging@, etc@));
}

/// Error when a host-only file is not staged.
pub open spec fn not_staged_error(rel: Seq<char>, staged: Seq<char>) -> ErrorView {
    message_error("staged "@ + rel + " file not found: "@ + staged)
}

pub fn not_staged(rel: &str, staged: &str) -> (e: HortoError)
    ensures
        e@ == not_staged_error(rel@, staged@),
{
    let mut m = concat3("staged ", rel, " file not found: ");
    m.append(staged);
    HortoError::msg(m.as_str())
}

// ---------------------------------------------------------------------------
// d0: Docker Engine
// ---------------------------------------------------------------------------

/// Dry-run plan of `d0`.
pub open spec fn engine_plan(ready: bool, armbian: bool) -> Seq<Seq<char>> {
    if ready {
        seq!["docker engine already available (docker info ok)"@]
    } else if armbian {
        seq!["armbian-config --cmd CON001 (install Docker Engine)"@]
    } else {
        seq![
            "apt update"@,
            "apt install -y docker.io docker-compose-v2"@,
            "systemctl enable --now docker"@,
        ]
    }
}

pub fn plan_docker_engine(journal: &mut StepJournal, ready: bool, armbian: bool)
    ensures
        final(journal)@.planned == old(journal)@.planned + engine_plan(ready, armbian),
        final(journal)@.logs == old(journal)@.logs,
{
    let ghost p0 = journal@.planned;
    if ready {
        journal.plan_action(owned("docker engine already available (docker info ok)"));
    } else if armbian {
        journal.plan_action(owned("armbian-config --cmd CON001 (install Docker Engine)"));
    } else {
        journal.plan_action(owned("apt update"));
        journal.plan_action(owned("apt install -y docker.io docker-compose-v2"));
        journal.plan_action(owned("systemctl enable --now docker"));
    }
    assert(journal@.planned =~= p0 + engine_plan(ready, armbian));
}

/// What `d0` does.
#[derive(Debug, Clone, Copy, PartialEq, Eq)]
pub enum EngineAction {
    /// Docker already works.
    Ready,
    /// Dry run: the plan was recorded.
    Planned,
    /// Install Docker Engine now.
    Install,
}

/// Error when `d0` would install without root.
pub open spec fn engine_root_error() -> ErrorView {
    message_error("d0 requires root to install Docker Engine (or install Docker first)"@)
}

/// Decision of `d0`: nothing when Docker already works, the plan in a dry
/// run, an error without root, else install.
pub fn docker_engine_gate(
    journal: &mut StepJournal,
    ready: bool,
    dry_run: bool,
    is_root: bool,
    armbian: bool,
) -> (r: Result<EngineAction, HortoError>)
    ensures
        ready ==> r == Ok::<EngineAction, HortoError>(EngineAction::Ready)
            && final(journal)@.logs == old(journal)@.logs.push(
            "Docker Engine already available."@,
        ) && final(journal)@.planned == old(journal)@.planned,
        (!ready && dry_run) ==> r == Ok::<EngineAction, HortoError>(EngineAction::Planned)
            && final(journal)@.planned == old(journal)@.planned + engine_plan(ready, armbian)
            && final(journal)@.logs == old(journal)@.logs,
        (!ready && !dry_run && !is_root) ==> (r matches Err(e) && e@ == engine_root_error())
            && final(journal)@ == old(journal)@,
        (!ready && !dry_run && is_root) ==> r == Ok::<EngineAction, HortoError>(
            EngineAction::Install,
        ) && final(journal)@ == old(journal)@,
{
    if ready {
        journal.log(owned("Docker Engine already available."));
        return Ok(EngineAction::Ready);
    }
    if dry_run {
        plan_docker_engine(journal, ready, armbian);
        return Ok(EngineAction::Planned);
    }
    if !is_root {
        return Err(HortoError::msg("d0 requires root to install Docker Engine (or install Docker first)"));
    }
    Ok(EngineAction::Install)
}

// ---------------------------------------------------------------------------
// Resume laws: what a step writes, its done check accepts
// ---------------------------------------------------------------------------

/// Value the OS-configuration answers give `k`, when they set it.
pub open spec fn answer_for(a: OsConfAnswers, k: Seq<char>) -> Option<Seq<char>> {
    if k == "MY_CLOUDFLARE_TOKEN"@ {
        Some(a.cloudflare_token@)
    } else if k == "MY_URL"@ {
        Some(a.url@)
    } else if k == "IOT_LAN"@ {
        Some(yn(a.iot_lan@))
    } else if k == "INSTALL_TYP"@ {
        Some(a.install_type@)
    } else if k == "RAM_SYZE"@ {
        Some(a.ram_size@)
    } else if k == "NPU_TYPE"@ {
        Some(a.npu_type@)
    } else if k == "OS_TYPE"@ {
        Some(a.os_type@)
    } else if k == "MY_HOSTNAME"@ {
        Some(a.hostname@)
    } else {
        None
    }
}

/// After storing the answers, a key holds its answer, and every other key
/// what it held before.
pub proof fn lemma_answers_get(s: Seq<(Seq<char>, Seq<char>)>, a: OsConfAnswers, k: Seq<char>)
    ensures
        env_get(with_os_answers(s, a), k) == (match answer_for(a, k) {
            Some(v) => Some(v),
            None => env_get(s, k),
        }),
{
    let s1 = env_set(s, "MY_HOSTNAME"@, a.hostname@);
    let s2 = env_set(s1, "OS_TYPE"@, a.os_type@);
    let s3 = env_set(s2, "NPU_TYPE"@, a.npu_type@);
    let s4 = env_set(s3, "RAM_SYZE"@, a.ram_size@);
    let s5 = env_set(s4, "INSTALL_TYP"@, a.install_type@);
    let s6 = env_set(s5, "IOT_LAN"@, yn(a.iot_lan@));
    let s7 = env_set(s6, "MY_URL"@, a.url@);
    crate::envfile::lemma_env_set_get(s, "MY_HOSTNAME"@, a.hostname@, k);
    crate::envfile::lemma_env_set_get(s1, "OS_TYPE"@, a.os_type@, k);
    crate::envfile::lemma_env_set_get(s2, "NPU_TYPE"@, a.npu_type@, k);
    crate::envfile::lemma_env_set_get(s3, "RAM_SYZE"@, a.ram_size@, k);
    crate::envfile::lemma_env_set_get(s4, "INSTALL_TYP"@, a.install_type@, k);
    crate::envfile::lemma_env_set_get(s5, "IOT_LAN"@, yn(a.iot_lan@), k);
    crate::envfile::lemma_env_set_get(s6, "MY_URL"@, a.url@, k);
    crate::envfile::lemma_env_set_get(s7, "MY_CLOUDFLARE_TOKEN"@, a.cloudflare_token@, k);
}

/// Distinct keys of the OS configuration.
proof fn lemma_os_keys_distinct()
    ensures
        "MY_HOSTNAME"@ != "OS_TYPE"@,
        "MY_HOSTNAME"@ != "NPU_TYPE"@,
        "MY_HOSTNAME"@ != "RAM_SYZE"@,
        "MY_HOSTNAME"@ != "INSTALL_TYP"@,
        "MY_HOSTNAME"@ != "IOT_LAN"@,
        "MY_HOSTNAME"@ != "MY_URL"@,
        "MY_HOSTNAME"@ != "MY_CLOUDFLARE_TOKEN"@,
        "OS_TYPE"@ != "NPU_TYPE"@,
        "OS_TYPE"@ != "RAM_SYZE"@,
        "OS_TYPE"@ != "INSTALL_TYP"@,
        "OS_TYPE"@ != "IOT_LAN"@,
        "OS_TYPE"@ != "MY_URL"@,
        "OS_TYPE"@ != "MY_CLOUDFLARE_TOKEN"@,
        "NPU_TYPE"@ != "RAM_SYZE"@,
        "NPU_TYPE"@ != "INSTALL_TYP"@,
        "NPU_TYPE"@ != "IOT_LAN"@,
        "NPU_TYPE"@ != "MY_URL"@,
        "NPU_TYPE"@ != "MY_CLOUDFLARE_TOKEN"@,
        "INSTALL_TYP"@ != "IOT_LAN"@,
        "INSTALL_TYP"@ != "MY_URL"@,
        "INSTALL_TYP"@ != "MY_CLOUDFLARE_TOKEN"@,
        "INSTALL_TYP"@ != "RAM_SYZE"@,
        "IOT_LAN"@ != "MY_URL"@,
        "IOT_LAN"@ != "MY_CLOUDFLARE_TOKEN"@,
        "IOT_LAN"@ != "RAM_SYZE"@,
        trim("y"@).len() > 0,
        trim("n"@).len() > 0,
        !yes_word("n"@),
{
    reveal_strlit("MY_HOSTNAME");
    reveal_strlit("OS_TYPE");
    reveal_strlit("NPU_TYPE");
    reveal_strlit("RAM_SYZE");
    reveal_strlit("INSTALL_TYP");
    reveal_strlit("IOT_LAN");
    reveal_strlit("MY_URL");
    reveal_strlit("MY_CLOUDFLARE_TOKEN");
    reveal_strlit("y");
    reveal_strlit("n");
    reveal_strlit("yes");
    assert("MY_HOSTNAME"@.len() == 11);
    assert("OS_TYPE"@.len() == 7);
    assert("NPU_TYPE"@.len() == 8);
    assert("RAM_SYZE"@.len() == 8);
    assert("INSTALL_TYP"@.len() == 11);
    assert("IOT_LAN"@.len() == 7);
    assert("MY_URL"@.len() == 6);
    assert("MY_CLOUDFLARE_TOKEN"@.len() == 19);
    assert("MY_HOSTNAME"@[0] != "INSTALL_TYP"@[0]);
    assert("OS_TYPE"@[1] != "IOT_LAN"@[1]);
    assert("NPU_TYPE"@[0] != "RAM_SYZE"@[0]);
    assert(!crate::text::is_ws('y'));
    assert(!crate::text::is_ws('n'));
    assert(crate::text::trim_start("y"@) == "y"@);
    assert(crate::text::trim_end("y"@) == "y"@);
    assert(crate::text::trim_start("n"@) == "n"@);
    assert(crate::text::trim_end("n"@) == "n"@);
    assert(lower("n"@) =~= "n"@);
}

/// What `s2` stores from the prompts satisfies its own done check: with a
/// non-blank hostname, OS type, NPU type and install type, every required
/// key is set, and unless the IoT-LAN answer is a yes no IoT env is needed.
pub proof fn law_os_answers_complete(s: Seq<(Seq<char>, Seq<char>)>, a: OsConfAnswers)
    requires
        trim(a.hostname@).len() > 0,
        trim(a.os_type@).len() > 0,
        trim(a.npu_type@).len() > 0,
        trim(a.install_type@).len() > 0,
    ensures
        missing_keys(with_os_answers(s, a), os_required()).len() == 0,
        wants_iot(with_os_answers(s, a)) == yes_word(a.iot_lan@),
        !yes_word(a.iot_lan@) ==> forall|iot: Option<Seq<(Seq<char>, Seq<char>)>>|
            env_done(Some(with_os_answers(s, a)), iot),
{
    lemma_os_keys_distinct();
    let t = with_os_answers(s, a);
    lemma_answers_get(s, a, "MY_HOSTNAME"@);
    lemma_answers_get(s, a, "OS_TYPE"@);
    lemma_answers_get(s, a, "NPU_TYPE"@);
    lemma_answers_get(s, a, "INSTALL_TYP"@);
    lemma_answers_get(s, a, "IOT_LAN"@);
    assert(env_get(t, "IOT_LAN"@) == Some(yn(a.iot_lan@)));
    assert(trim(yn(a.iot_lan@)).len() > 0);
    reveal_with_fuel(missing_keys, 6);
    let ks = os_required();
    assert(ks.drop_last() =~= seq!["MY_HOSTNAME"@, "OS_TYPE"@, "NPU_TYPE"@, "INSTALL_TYP"@]);
    assert(ks.drop_last().drop_last() =~= seq!["MY_HOSTNAME"@, "OS_TYPE"@, "NPU_TYPE"@]);
    assert(ks.drop_last().drop_last().drop_last() =~= seq!["MY_HOSTNAME"@, "OS_TYPE"@]);
    assert(ks.drop_last().drop_last().drop_last().drop_last() =~= seq!["MY_HOSTNAME"@]);
    assert(seq!["MY_HOSTNAME"@].drop_last() =~= Seq::<Seq<char>>::empty());
    if yes_word(a.iot_lan@) {
        assert(yn(a.iot_lan@) == "y"@);
        reveal_strlit("y");
        reveal_strlit("yes");
        assert(lower(trim("y"@)) =~= "y"@) by {
            assert(!crate::text::is_ws('y'));
            assert(crate::text::trim_start("y"@) == "y"@);
            assert(crate::text::trim_end("y"@) == "y"@);
        }
    }
}

/// What `m1` writes satisfies its own done check when the hostname is not
/// blank.
pub proof fn law_minimal_env_done(hostname: Seq<char>)
    requires
        trim(hostname).len() > 0,
    ensures
        minimal_done_spec(Some(env_set(seq![], "MY_HOSTNAME"@, hostname))),
{
    crate::envfile::lemma_env_set_get(seq![], "MY_HOSTNAME"@, hostname, "MY_HOSTNAME"@);
    reveal_with_fuel(missing_keys, 2);
    assert(seq!["MY_HOSTNAME"@].drop_last() =~= Seq::<Seq<char>>::empty());
}

/// Reading the env after the interfaces are stored.
proof fn lemma_get_after_eth(
    x: Seq<(Seq<char>, Seq<char>)>,
    r: (Seq<char>, Seq<char>, Option<Seq<char>>),
    k: Seq<char>,
)
    ensures
        env_get(with_eth(x, r), k) == (if k == "ETH_IOT2"@ && r.2 is Some {
            r.2
        } else if k == "ETH_IOT1"@ {
            Some(r.1)
        } else if k == "ETH_LAN"@ {
            Some(r.0)
        } else {
            env_get(x, k)
        }),
{
    lemma_iot_keys();
    let x1 = env_set(x, "ETH_LAN"@, r.0);
    let x2 = env_set(x1, "ETH_IOT1"@, r.1);
    crate::envfile::lemma_env_set_get(x, "ETH_LAN"@, r.0, k);
    crate::envfile::lemma_env_set_get(x1, "ETH_IOT1"@, r.1, k);
    match r.2 {
        Some(e) => {
            crate::envfile::lemma_env_set_get(x2, "ETH_IOT2"@, e, k);
        },
        None => {},
    }
}

/// Distinct keys of the IoT env, and the values they are checked against.
proof fn lemma_iot_keys()
    ensures
        "ETH_LAN"@ != "ETH_IOT1"@,
        "ETH_LAN"@ != "ETH_IOT2"@,
        "ETH_IOT1"@ != "ETH_IOT2"@,
        "WIFI_INTERFACE"@ != "ETH_LAN"@,
        "WIFI_INTERFACE"@ != "ETH_IOT1"@,
        "WIFI_INTERFACE"@ != "ETH_IOT2"@,
        "WIFI_SSID"@ != "ETH_LAN"@,
        "WIFI_SSID"@ != "ETH_IOT1"@,
        "WIFI_SSID"@ != "ETH_IOT2"@,
        "WIFI_SSID"@ != "WIFI_INTERFACE"@,
        "WIFI_PASSPHRASE"@ != "WIFI_INTERFACE"@,
        "WIFI_PASSPHRASE"@ != "WIFI_SSID"@,
        "WIFI_PASSPHRASE"@ != "ETH_LAN"@,
        "WIFI_PASSPHRASE"@ != "ETH_IOT1"@,
        trim("none"@) == "none"@,
        lower("none"@) == "none"@,
        "none"@.len() == 4,
{
    reveal_strlit("ETH_LAN");
    reveal_strlit("ETH_IOT1");
    reveal_strlit("ETH_IOT2");
    reveal_strlit("WIFI_INTERFACE");
    reveal_strlit("WIFI_SSID");
    reveal_strlit("WIFI_PASSPHRASE");
    reveal_strlit("none");
    assert("ETH_LAN"@.len() == 7);
    assert("ETH_IOT1"@.len() == 8);
    assert("ETH_IOT2"@.len() == 8);
    assert("ETH_IOT1"@[7] != "ETH_IOT2"@[7]);
    assert("WIFI_INTERFACE"@.len() == 14);
    assert("WIFI_SSID"@.len() == 9);
    assert("WIFI_PASSPHRASE"@.len() == 15);
    assert(!crate::text::is_ws('n'));
    assert(!crate::text::is_ws('e'));
    assert(crate::text::trim_start("none"@) == "none"@);
    assert(crate::text::trim_end("none"@) == "none"@);
    assert(lower("none"@) =~= "none"@);
}

/// What `s2` stores for the IoT LAN satisfies its own completeness check:
/// after the WiFi answer (with SSID and passphrase when a WiFi AP is
/// wanted, the SSID not blank) and non-blank LAN and first IoT interfaces.
pub proof fn law_iot_answers_complete(
    s: Seq<(Seq<char>, Seq<char>)>,
    raw: Seq<char>,
    ssid: Seq<char>,
    pass: Seq<char>,
    r: (Seq<char>, Seq<char>, Option<Seq<char>>),
)
    requires
        trim(r.0).len() > 0,
        trim(r.1).len() > 0,
    ensures
        wifi_iface_of(raw) == "none"@ ==> iot_complete(with_eth(with_wifi_choice(s, raw), r)),
        (wifi_iface_of(raw) != "none"@ && trim(ssid).len() > 0) ==> iot_complete(
            with_eth(
                env_set(env_set(with_wifi_choice(s, raw), "WIFI_SSID"@, ssid), "WIFI_PASSPHRASE"@, pass),
                r,
            ),
        ),
{
    lemma_iot_keys();
    let w = wifi_iface_of(raw);
    let keys = seq!["ETH_LAN"@, "ETH_IOT1"@, "WIFI_INTERFACE"@];
    assert(keys.drop_last() =~= seq!["ETH_LAN"@, "ETH_IOT1"@]);
    assert(keys.drop_last().drop_last() =~= seq!["ETH_LAN"@]);
    assert(seq!["ETH_LAN"@].drop_last() =~= Seq::<Seq<char>>::empty());
    assert(seq!["WIFI_SSID"@].drop_last() =~= Seq::<Seq<char>>::empty());
    reveal_with_fuel(missing_keys, 4);
    let s1 = env_set(s, "WIFI_INTERFACE"@, w);
    crate::envfile::lemma_env_set_get(s, "WIFI_INTERFACE"@, w, "WIFI_INTERFACE"@);
    if w == "none"@ {
        let s2 = env_set(s1, "WIFI_SSID"@, ""@);
        let s3 = env_set(s2, "WIFI_PASSPHRASE"@, ""@);
        crate::envfile::lemma_env_set_get(s1, "WIFI_SSID"@, ""@, "WIFI_INTERFACE"@);
        crate::envfile::lemma_env_set_get(s2, "WIFI_PASSPHRASE"@, ""@, "WIFI_INTERFACE"@);
        assert(with_wifi_choice(s, raw) == s3);
        let t = with_eth(s3, r);
        lemma_get_after_eth(s3, r, "ETH_LAN"@);
        lemma_get_after_eth(s3, r, "ETH_IOT1"@);
        lemma_get_after_eth(s3, r, "WIFI_INTERFACE"@);
        assert(env_get(t, "WIFI_INTERFACE"@) == Some("none"@));
        assert(crate::envfile::folded_value(t, "WIFI_INTERFACE"@) == "none"@);
        assert(!crate::envfile::wifi_ap_on(t));
    } else {
        let tr = trim(raw);
        assert(w == tr);
        lemma_trim_idem(raw);
        assert(trim(w).len() > 0);
        let s2 = env_set(s1, "WIFI_SSID"@, ssid);
        let s3 = env_set(s2, "WIFI_PASSPHRASE"@, pass);
        crate::envfile::lemma_env_set_get(s1, "WIFI_SSID"@, ssid, "WIFI_INTERFACE"@);
        crate::envfile::lemma_env_set_get(s2, "WIFI_PASSPHRASE"@, pass, "WIFI_INTERFACE"@);
        crate::envfile::lemma_env_set_get(s1, "WIFI_SSID"@, ssid, "WIFI_SSID"@);
        crate::envfile::lemma_env_set_get(s2, "WIFI_PASSPHRASE"@, pass, "WIFI_SSID"@);
        assert(with_wifi_choice(s, raw) == s1);
        lemma_get_after_eth(s3, r, "ETH_LAN"@);
        lemma_get_after_eth(s3, r, "ETH_IOT1"@);
        lemma_get_after_eth(s3, r, "WIFI_INTERFACE"@);
        lemma_get_after_eth(s3, r, "WIFI_SSID"@);
    }
}

} // verus!
