//! Versioned setup steps (s1–s7, m1, d0–d3): metadata and the decisions
//! they take from configuration values.
use vstd::prelude::*;
use crate::envfile::{missing_keys, ref_views, require_keys, wifi_ap_enabled, wifi_ap_on, EnvMap};

use crate::remote::bins::{join_path, path_join};
use crate::remote::ecosystem::EcosystemInstallChoice;
use crate::remote::host::{lex_less, lex_lt};
use crate::stack_opts::{link_views, selected_links, StackOpts};
use crate::text::{
    char_end, from_chars, has_prefix, join, join_strings, lower, lower_chars, owned, seq_eq,
    slice_range, split_ws, starts_with, str_eq, sviews, to_chars, tokens, trim, trim_chars, views,
};
use crate::step::Step;

pub mod activate;
pub mod validate;
pub mod stage;
pub mod docker_tree;
pub mod host_setup;

verus! {

/// d0: Docker Engine from the distribution.
pub struct D0DockerEngine;

/// d1: Docker stacks from the embedded source.
pub struct D1Docker;

/// d2: Dockge and Homepage.
pub struct D2StartStacks;

/// d3: opted-in Docker stacks.
pub struct D3OptionalStacks;

/// m1: minimal pipeline (cockpit + hostname env).
pub struct M1Minimal;

/// s1: base packages.
pub struct S1Packages;

/// s2: environment variables.
pub struct S2Env;

/// s3: `/etc` backup.
pub struct S3Backup;

/// s4: stage configs.
pub struct S4Stage;

/// s5: apply staged configs.
pub struct S5Apply;

/// s6: validate applied configs.
pub struct S6Validate;

/// s7: activate network services.
pub struct S7Activate;

impl Step for D0DockerEngine {
    open spec fn id_view(&self) -> Seq<char> {
        "d0"@
    }

    open spec fn version_view(&self) -> u32 {
        1
    }

    fn id(&self) -> (r: &'static str) {
        "d0"
    }

    fn title(&self) -> (r: &'static str)
        ensures
            r@ == "Install Docker Engine"@,
    {
        "Install Docker Engine"
    }

    fn reference_script(&self) -> (r: &'static str)
        ensures
            r@ == "d0_docker_engine.sh"@,
    {
        "d0_docker_engine.sh"
    }

    fn step_version(&self) -> (r: u32) {
        1
    }
}

impl Step for D1Docker {
    open spec fn id_view(&self) -> Seq<char> {
        "d1"@
    }

    open spec fn version_view(&self) -> u32 {
        3
    }

    fn id(&self) -> (r: &'static str) {
        "d1"
    }

    fn title(&self) -> (r: &'static str)
        ensures
            r@ == "Initialize Docker stacks from embedded source"@,
    {
        "Initialize Docker stacks from embedded source"
    }

    fn reference_script(&self) -> (r: &'static str)
        ensures
            r@ == "d1_docker_init.sh"@,
    {
        "d1_docker_init.sh"
    }

    fn step_version(&self) -> (r: u32) {
        3
    }

    fn depends_on(&self) -> (r: &'static [&'static str])
        ensures
            r@.len() == 1 && r@[0]@ == "d0"@,
    {
        &["d0"]
    }
}

impl Step for D2StartStacks {
    open spec fn id_view(&self) -> Seq<char> {
        "d2"@
    }

    open spec fn version_view(&self) -> u32 {
        1
    }

    fn id(&self) -> (r: &'static str) {
        "d2"
    }

    fn title(&self) -> (r: &'static str)
        ensures
            r@ == "Start Dockge and Homepage"@,
    {
        "Start Dockge and Homepage"
    }

    fn reference_script(&self) -> (r: &'static str)
        ensures
            r@ == "d2_start_stacks.sh"@,
    {
        "d2_start_stacks.sh"
    }

    fn step_version(&self) -> (r: u32) {
        1
    }

    fn depends_on(&self) -> (r: &'static [&'static str])
        ensures
            r@.len() == 1 && r@[0]@ == "d1"@,
    {
        &["d1"]
    }
}

impl Step for D3OptionalStacks {
    open spec fn id_view(&self) -> Seq<char> {
        "d3"@
    }

    open spec fn version_view(&self) -> u32 {
        1
    }

    fn id(&self) -> (r: &'static str) {
        "d3"
    }

    fn title(&self) -> (r: &'static str)
        ensures
            r@ == "Start optional Docker stacks"@,
    {
        "Start optional Docker stacks"
    }

    fn reference_script(&self) -> (r: &'static str)
        ensures
            r@ == "d3_optional_stacks"@,
    {
        "d3_optional_stacks"
    }

    fn step_version(&self) -> (r: u32) {
        1
    }

    fn depends_on(&self) -> (r: &'static [&'static str])
        ensures
            r@.len() == 1 && r@[0]@ == "d2"@,
    {
        &["d2"]
    }
}

impl Step for M1Minimal {
    open spec fn id_view(&self) -> Seq<char> {
        "m1"@
    }

    open spec fn version_view(&self) -> u32 {
        1
    }

    fn id(&self) -> (r: &'static str) {
        "m1"
    }

    fn title(&self) -> (r: &'static str)
        ensures
            r@ == "Minimal: cockpit + hostname env"@,
    {
        "Minimal: cockpit + hostname env"
    }

    fn reference_script(&self) -> (r: &'static str)
        ensures
            r@ == "m1_minimal_setup_run.sh"@,
    {
        "m1_minimal_setup_run.sh"
    }

    fn step_version(&self) -> (r: u32) {
        1
    }
}

impl Step for S1Packages {
    open spec fn id_view(&self) -> Seq<char> {
        "s1"@
    }

    open spec fn version_view(&self) -> u32 {
        3
    }

    fn id(&self) -> (r: &'static str) {
        "s1"
    }

    fn title(&self) -> (r: &'static str)
        ensures
            r@ == "Install base packages"@,
    {
        "Install base packages"
    }

    fn reference_script(&self) -> (r: &'static str)
        ensures
            r@ == "s1_init_horto_os.sh"@,
    {
        "s1_init_horto_os.sh"
    }

    fn step_version(&self) -> (r: u32) {
        3
    }
}

impl Step for S2Env {
    open spec fn id_view(&self) -> Seq<char> {
        "s2"@
    }

    open spec fn version_view(&self) -> u32 {
        3
    }

    fn id(&self) -> (r: &'static str) {
        "s2"
    }

    fn title(&self) -> (r: &'static str)
        ensures
            r@ == "Configure environment variables"@,
    {
        "Configure environment variables"
    }

    fn reference_script(&self) -> (r: &'static str)
        ensures
            r@ == "s2_init_env_vars.sh"@,
    {
        "s2_init_env_vars.sh"
    }

    fn step_version(&self) -> (r: u32) {
        3
    }

    fn depends_on(&self) -> (r: &'static [&'static str])
        ensures
            r@.len() == 1 && r@[0]@ == "s1"@,
    {
        &["s1"]
    }
}

impl Step for S3Backup {
    open spec fn id_view(&self) -> Seq<char> {
        "s3"@
    }

    open spec fn version_view(&self) -> u32 {
        1
    }

    fn id(&self) -> (r: &'static str) {
        "s3"
    }

    fn title(&self) -> (r: &'static str)
        ensures
            r@ == "Backup /etc paths listed in config"@,
    {
        "Backup /etc paths listed in config"
    }

    fn reference_script(&self) -> (r: &'static str)
        ensures
            r@ == "s3_backup_etc_configs.sh"@,
    {
        "s3_backup_etc_configs.sh"
    }

    fn step_version(&self) -> (r: u32) {
        1
    }
}

impl Step for S4Stage {
    open spec fn id_view(&self) -> Seq<char> {
        "s4"@
    }

    open spec fn version_view(&self) -> u32 {
        3
    }

    fn id(&self) -> (r: &'static str) {
        "s4"
    }

    fn title(&self) -> (r: &'static str)
        ensures
            r@ == "Stage configs into active_setup/etc"@,
    {
        "Stage configs into active_setup/etc"
    }

    fn reference_script(&self) -> (r: &'static str)
        ensures
            r@ == "s4_deploy_configs.sh"@,
    {
        "s4_deploy_configs.sh"
    }

    fn step_version(&self) -> (r: u32) {
        3
    }

    fn depends_on(&self) -> (r: &'static [&'static str])
        ensures
            r@.len() == 1 && r@[0]@ == "s3"@,
    {
        &["s3"]
    }
}

impl Step for S5Apply {
    open spec fn id_view(&self) -> Seq<char> {
        "s5"@
    }

    open spec fn version_view(&self) -> u32 {
        2
    }

    fn id(&self) -> (r: &'static str) {
        "s5"
    }

    fn title(&self) -> (r: &'static str)
        ensures
            r@ == "Apply staged configs to /etc"@,
    {
        "Apply staged configs to /etc"
    }

    fn reference_script(&self) -> (r: &'static str)
        ensures
            r@ == "s5_apply_configs.sh"@,
    {
        "s5_apply_configs.sh"
    }

    fn step_version(&self) -> (r: u32) {
        2
    }

    fn depends_on(&self) -> (r: &'static [&'static str])
        ensures
            r@.len() == 1 && r@[0]@ == "s4"@,
    {
        &["s4"]
    }

    fn needs_reboot_after(&self) -> (r: bool)
        ensures
            r,
    {
        true
    }

    fn destructive(&self) -> (r: bool)
        ensures
            r,
    {
        true
    }
}

impl Step for S6Validate {
    open spec fn id_view(&self) -> Seq<char> {
        "s6"@
    }

    open spec fn version_view(&self) -> u32 {
        1
    }

    fn id(&self) -> (r: &'static str) {
        "s6"
    }

    fn title(&self) -> (r: &'static str)
        ensures
            r@ == "Validate applied configs and enable hostapd"@,
    {
        "Validate applied configs and enable hostapd"
    }

    fn reference_script(&self) -> (r: &'static str)
        ensures
            r@ == "s6_validate_configs.sh"@,
    {
        "s6_validate_configs.sh"
    }

    fn step_version(&self) -> (r: u32) {
        1
    }

    fn depends_on(&self) -> (r: &'static [&'static str])
        ensures
            r@.len() == 1 && r@[0]@ == "s5"@,
    {
        &["s5"]
    }
}

impl Step for S7Activate {
    open spec fn id_view(&self) -> Seq<char> {
        "s7"@
    }

    open spec fn version_view(&self) -> u32 {
        3
    }

    fn id(&self) -> (r: &'static str) {
        "s7"
    }

    fn title(&self) -> (r: &'static str)
        ensures
            r@ == "Activate network services"@,
    {
        "Activate network services"
    }

    fn reference_script(&self) -> (r: &'static str)
        ensures
            r@ == "s7_activate_services.sh"@,
    {
        "s7_activate_services.sh"
    }

    /// v3: skip hostapd restart when `WIFI_INTERFACE=none`.
    fn step_version(&self) -> (r: u32) {
        3
    }

    fn depends_on(&self) -> (r: &'static [&'static str])
        ensures
            r@.len() == 1 && r@[0]@ == "s6"@,
    {
        &["s6"]
    }
}

/// Distribution packages of d0.
pub const D0_APT_PACKAGES: [&'static str; 2] = ["docker.io", "docker-compose-v2"];

/// Base packages from tip `s1_init_horto_os.sh` (`IoT` packages move to s2 when `IOT_LAN=y`).
pub const S1_PACKAGES: [&'static str; 2] = ["cockpit", "cockpit-networkmanager"];

/// Port advertised in `service_links.env` / Homepage for Cockpit.
pub const COCKPIT_LISTEN_PORT: u16 = 9890;

/// systemd drop-in body so Cockpit listens on [`COCKPIT_LISTEN_PORT`] (not stock 9090).
pub const COCKPIT_SOCKET_DROPIN: &'static str = "[Socket]\nListenStream=\nListenStream=9890\n";

/// Keys `os-configuration.env` must set.
pub const OS_REQUIRED: [&'static str; 5] = ["MY_HOSTNAME", "OS_TYPE", "NPU_TYPE", "INSTALL_TYP", "IOT_LAN"];

/// Interface keys an IoT LAN setup needs.
pub const IOT_ETH_REQUIRED: [&'static str; 3] = ["ETH_LAN", "ETH_IOT1", "WIFI_INTERFACE"];

/// IoT LAN packages (always).
pub const IOT_PACKAGES_BASE: [&'static str; 3] = ["dnsmasq", "iptables", "avahi-daemon"];

/// IoT LAN packages when a Wi-Fi AP is wanted.
pub const IOT_PACKAGES_WIFI: [&'static str; 1] = ["hostapd"];

/// NPU stack folder for an `NPU_TYPE` value (aliases folded; blank is `none`).
pub open spec fn npu_folder(raw: Seq<char>) -> Seq<char> {
    let t = trim(raw);
    if t.len() == 0 || t == "none"@ {
        "none"@
    } else if t == "rkRK3588"@ || t == "rk3588"@ || t == "RK3588"@ {
        "rk3588"@
    } else if t == "rkRK3576"@ || t == "rk3576"@ || t == "RK3576"@ {
        "rk3576"@
    } else {
        t
    }
}

/// Normalize `NPU_TYPE` to its Docker stack folder name.
pub fn normalize_npu_type(raw: &str) -> (r: String)
    ensures
        r@ == npu_folder(raw@),
{
    let c = to_chars(raw);
    let t = trim_chars(c.as_slice());
    let ts = from_chars(t.as_slice());
    let s = ts.as_str();
    if s.is_empty() || str_eq(s, "none") {
        return owned("none");
    }
    if str_eq(s, "rkRK3588") || str_eq(s, "rk3588") || str_eq(s, "RK3588") {
        return owned("rk3588");
    }
    if str_eq(s, "rkRK3576") || str_eq(s, "rk3576") || str_eq(s, "RK3576") {
        return owned("rk3576");
    }
    ts
}

/// `LINKS=` entries: Homepage and Cockpit, then the chosen services and stacks.
pub open spec fn service_links(stacks: StackOpts, eco: EcosystemInstallChoice) -> Seq<Seq<char>> {
    seq!["Homepage:3021"@, "Cockpit:9890"@] + (if eco.status_api {
        seq!["Status-API:8787"@]
    } else {
        seq![]
    }) + (if eco.mcp {
        seq!["MCP:8790"@]
    } else {
        seq![]
    }) + Seq::new(selected_links(stacks).len(), |i: int| selected_links(stacks)[i].1)
}

/// Build `LINKS=` value: Homepage + Cockpit always, then ecosystem and opted stacks.
pub fn build_service_links_csv(stacks: StackOpts, eco: EcosystemInstallChoice) -> (r: String)
    ensures
        r@ == join(service_links(stacks, eco), ","@),
{
    let mut parts: Vec<String> = Vec::new();
    parts.push(owned("Homepage:3021"));
    parts.push(owned("Cockpit:9890"));
    if eco.status_api {
        parts.push(owned("Status-API:8787"));
    }
    if eco.mcp {
        parts.push(owned("MCP:8790"));
    }
    let ghost head = sviews(parts@);
    let sel = stacks.selected();
    let ghost lv = link_views(sel@);
    assert(lv == selected_links(stacks));
    let mut i: usize = 0;
    while i < sel.len()
        invariant
            i <= sel@.len(),
            lv == link_views(sel@),
            lv == selected_links(stacks),
            sviews(parts@) == head + Seq::new(i as nat, |j: int| lv[j].1),
        decreases sel@.len() - i,
    {
        let ghost p0 = sviews(parts@);
        parts.push(owned(sel[i].link));
        assert(sviews(parts@) =~= p0.push(lv[i as int].1));
        assert(sviews(parts@) =~= head + Seq::new((i + 1) as nat, |j: int| lv[j].1));
        i = i + 1;
    }
    assert(sviews(parts@) =~= service_links(stacks, eco));
    join_strings(&parts, ",")
}

/// Compose directory of one stack.
pub fn stack_dir(docker_root: &str, dir: &str) -> (r: String)
    ensures
        r@ == join_path(docker_root@, dir@),
{
    path_join(docker_root, dir)
}

/// A yes answer: `y` or `yes`, any case, surrounding whitespace ignored.
pub open spec fn yes_word(raw: Seq<char>) -> bool {
    let a = lower(trim(raw));
    a == "y"@ || a == "yes"@
}

pub fn is_yes_word(raw: &str) -> (b: bool)
    ensures
        b == yes_word(raw@),
{
    let c = to_chars(raw);
    let t = trim_chars(c.as_slice());
    let a = lower_chars(t.as_slice());
    let y = to_chars("y");
    let yes = to_chars("yes");
    seq_eq(a.as_slice(), y.as_slice()) || seq_eq(a.as_slice(), yes.as_slice())
}

/// `y` for a yes answer, else `n`.
pub fn normalize_yn(raw: &str) -> (r: String)
    ensures
        r@ == (if yes_word(raw@) {
            "y"@
        } else {
            "n"@
        }),
{
    if is_yes_word(raw) {
        owned("y")
    } else {
        owned("n")
    }
}

/// `IOT_LAN` is a yes answer.
pub fn wants_iot_lan(map: &EnvMap) -> (b: bool)
    ensures
        b == (match crate::envfile::env_get(map@, "IOT_LAN"@) {
            Some(v) => yes_word(v),
            None => false,
        }),
{
    match map.get("IOT_LAN") {
        Some(v) => is_yes_word(v),
        None => false,
    }
}

/// IoT interface keys are set, and `WIFI_SSID` too when a Wi-Fi AP is wanted.
pub open spec fn iot_complete(s: Seq<(Seq<char>, Seq<char>)>) -> bool {
    missing_keys(s, seq!["ETH_LAN"@, "ETH_IOT1"@, "WIFI_INTERFACE"@]).len() == 0 && (wifi_ap_on(s)
        ==> missing_keys(s, seq!["WIFI_SSID"@]).len() == 0)
}

/// Whether the env map holds a complete IoT LAN configuration.
pub fn iot_env_complete(map: &EnvMap) -> (b: bool)
    ensures
        b == iot_complete(map@),
{
    let keys: [&str; 3] = ["ETH_LAN", "ETH_IOT1", "WIFI_INTERFACE"];
    assert(ref_views(keys@) =~= seq!["ETH_LAN"@, "ETH_IOT1"@, "WIFI_INTERFACE"@]);
    if require_keys(map, &keys).is_err() {
        return false;
    }
    if wifi_ap_enabled(map) {
        let ssid: [&str; 1] = ["WIFI_SSID"];
        assert(ref_views(ssid@) =~= seq!["WIFI_SSID"@]);
        return require_keys(map, &ssid).is_ok();
    }
    true
}

/// Interface names that can serve as LAN / IoT Ethernet (not loopback,
/// wireless, Docker, bridges or veths).
pub open spec fn candidate_eth(name: Seq<char>) -> bool {
    let n = lower(name);
    if n == "lo"@ || has_prefix(n, "wlan"@) || has_prefix(n, "wlx"@) || has_prefix(n, "docker"@)
        || has_prefix(n, "br"@) || has_prefix(n, "veth"@) || has_prefix(n, "virbr"@) {
        false
    } else {
        has_prefix(n, "en"@) || has_prefix(n, "eth"@) || n == "wan"@ || has_prefix(n, "lan"@)
    }
}

pub fn is_candidate_eth(name: &str) -> (b: bool)
    ensures
        b == candidate_eth(name@),
{
    let c = to_chars(name);
    let n = lower_chars(c.as_slice());
    let ns = n.as_slice();
    let lo = to_chars("lo");
    let wlan = to_chars("wlan");
    let wlx = to_chars("wlx");
    let docker = to_chars("docker");
    let br = to_chars("br");
    let veth = to_chars("veth");
    let virbr = to_chars("virbr");
    if seq_eq(ns, lo.as_slice()) || starts_with(ns, wlan.as_slice()) || starts_with(ns, wlx.as_slice())
        || starts_with(ns, docker.as_slice()) || starts_with(ns, br.as_slice()) || starts_with(
        ns,
        veth.as_slice(),
    ) || starts_with(ns, virbr.as_slice()) {
        return false;
    }
    let en = to_chars("en");
    let eth = to_chars("eth");
    let wan = to_chars("wan");
    let lan = to_chars("lan");
    starts_with(ns, en.as_slice()) || starts_with(ns, eth.as_slice()) || seq_eq(ns, wan.as_slice())
        || starts_with(ns, lan.as_slice())
}

/// Mode of a staged file: `0o640` under `netplan/`, else `0o644`.
pub open spec fn staged_mode(rel: Seq<char>) -> u32 {
    if rel.subrange(0, char_end(rel, '/') as int) == "netplan"@ {
        0o640
    } else {
        0o644
    }
}

pub fn file_mode_for_staged(rel: &str) -> (m: u32)
    ensures
        m == staged_mode(rel@),
{
    let c = to_chars(rel);
    let e = crate::text::find_char_end(c.as_slice(), '/', 0);
    assert(c@.subrange(0, c@.len() as int) =~= c@);
    let first = slice_range(c.as_slice(), 0, e);
    let netplan = to_chars("netplan");
    if seq_eq(first.as_slice(), netplan.as_slice()) {
        0o640
    } else {
        0o644
    }
}

/// Word after the first `dev` word.
pub open spec fn word_after_dev(ws: Seq<Seq<char>>, i: int) -> Option<Seq<char>>
    decreases ws.len() - i,
{
    if i < 1 || i >= ws.len() {
        None
    } else if ws[i - 1] == "dev"@ {
        Some(ws[i])
    } else {
        word_after_dev(ws, i + 1)
    }
}

/// Parse `ip route show default` output for the WAN device name.
pub fn parse_default_wan_iface(text: &str) -> (r: Option<String>)
    ensures
        match r {
            Some(s) => word_after_dev(tokens(text@), 1) == Some(s@),
            None => word_after_dev(tokens(text@), 1) is None,
        },
{
    let c = to_chars(text);
    let ws = split_ws(c.as_slice());
    let ghost wv = views(ws@);
    let dev = to_chars("dev");
    let mut i: usize = 1;
    while i < ws.len()
        invariant
            1 <= i,
            wv == views(ws@),
            wv == tokens(text@),
            dev@ == "dev"@,
            word_after_dev(wv, 1) == word_after_dev(wv, i as int),
        decreases ws@.len() - i,
    {
        if seq_eq(ws[i - 1].as_slice(), dev.as_slice()) {
            return Some(from_chars(ws[i].as_slice()));
        }
        i = i + 1;
    }
    None
}

/// Names of the interfaces.
pub open spec fn iface_names(ifaces: Seq<(String, bool)>) -> Seq<Seq<char>> {
    Seq::new(ifaces.len(), |i: int| ifaces[i].0@)
}

/// Names of the interfaces that are up (`LOWER_UP`), in order.
pub open spec fn up_names(ifaces: Seq<(String, bool)>) -> Seq<Seq<char>>
    decreases ifaces.len(),
{
    if ifaces.len() == 0 {
        seq![]
    } else if ifaces.last().1 {
        up_names(ifaces.drop_last()).push(ifaces.last().0@)
    } else {
        up_names(ifaces.drop_last())
    }
}

/// Names other than `x`, in order.
pub open spec fn names_except(ns: Seq<Seq<char>>, x: Seq<char>) -> Seq<Seq<char>>
    decreases ns.len(),
{
    if ns.len() == 0 {
        seq![]
    } else if ns.last() == x {
        names_except(ns.drop_last(), x)
    } else {
        names_except(ns.drop_last(), x).push(ns.last())
    }
}

/// Indices of the `lan*` names.
pub open spec fn is_lan(n: Seq<char>) -> bool {
    has_prefix(n, "lan"@)
}

/// `a` comes no later than `b` in byte order.
pub open spec fn lex_le(a: Seq<char>, b: Seq<char>) -> bool {
    !lex_lt(b, a)
}

/// The smallest `lan*` name (at index `i`), and the smallest of the other
/// `lan*` entries as the second IoT port.
pub open spec fn lan_pair_ok(ns: Seq<Seq<char>>, eth1: Seq<char>, eth2: Option<Seq<char>>) -> bool {
    exists|i: int|
        0 <= i < ns.len() && is_lan(ns[i]) && ns[i] == eth1 && (forall|j: int|
            0 <= j < ns.len() && is_lan(#[trigger] ns[j]) ==> lex_le(eth1, ns[j])) && match eth2 {
            None => forall|j: int| 0 <= j < ns.len() && j != i ==> !is_lan(#[trigger] ns[j]),
            Some(e2) => exists|k: int|
                0 <= k < ns.len() && k != i && is_lan(ns[k]) && ns[k] == e2 && (forall|j: int|
                    0 <= j < ns.len() && j != i && is_lan(#[trigger] ns[j]) ==> lex_le(e2, ns[j])),
        }
}

/// Whether the names hold `wan` and some `lan*`.
pub open spec fn has_wan_and_lan(ns: Seq<Seq<char>>) -> bool {
    ns.contains("wan"@) && exists|j: int| 0 <= j < ns.len() && is_lan(#[trigger] ns[j])
}

pub open spec fn nth_or(ns: Seq<Seq<char>>, i: int, dflt: Seq<char>) -> Seq<char> {
    if 0 <= i < ns.len() {
        ns[i]
    } else {
        dflt
    }
}

pub open spec fn nth_opt(ns: Seq<Seq<char>>, i: int) -> Option<Seq<char>> {
    if 0 <= i < ns.len() {
        Some(ns[i])
    } else {
        None
    }
}

/// Choice of `(ETH_LAN, ETH_IOT1, ETH_IOT2)` from the discovered interfaces.
pub open spec fn eth_pick_ok(
    ifaces: Seq<(String, bool)>,
    r: (Seq<char>, Seq<char>, Option<Seq<char>>),
) -> bool {
    let ns = iface_names(ifaces);
    let up = up_names(ifaces);
    if has_wan_and_lan(ns) {
        r.0 == "wan"@ && lan_pair_ok(ns, r.1, r.2)
    } else if up.len() > 0 {
        let rest = names_except(ns, up[0]);
        r.0 == up[0] && r.1 == nth_or(rest, 0, "lan1"@) && r.2 == nth_opt(rest, 1)
    } else {
        r.0 == nth_or(ns, 0, "wan"@) && r.1 == nth_or(ns, 1, "lan1"@) && r.2 == nth_opt(ns, 2)
    }
}

fn names_of(ifaces: &[(String, bool)]) -> (ns: Vec<String>)
    ensures
        sviews(ns@) == iface_names(ifaces@),
{
    let mut ns: Vec<String> = Vec::new();
    let mut i: usize = 0;
    while i < ifaces.len()
        invariant
            i <= ifaces@.len(),
            sviews(ns@) == iface_names(ifaces@).subrange(0, i as int),
        decreases ifaces@.len() - i,
    {
        let ghost n0 = sviews(ns@);
        ns.push(owned(ifaces[i].0.as_str()));
        assert(sviews(ns@) =~= n0.push(ifaces@[i as int].0@));
        assert(iface_names(ifaces@).subrange(0, i + 1) =~= iface_names(ifaces@).subrange(
            0,
            i as int,
        ).push(ifaces@[i as int].0@));
        i = i + 1;
    }
    assert(iface_names(ifaces@).subrange(0, i as int) =~= iface_names(ifaces@));
    ns
}

fn up_names_of(ifaces: &[(String, bool)]) -> (ns: Vec<String>)
    ensures
        sviews(ns@) == up_names(ifaces@),
{
    let mut ns: Vec<String> = Vec::new();
    let mut i: usize = 0;
    assert(ifaces@.subrange(0, 0) =~= Seq::<(String, bool)>::empty());
    while i < ifaces.len()
        invariant
            i <= ifaces@.len(),
            sviews(ns@) == up_names(ifaces@.subrange(0, i as int)),
        decreases ifaces@.len() - i,
    {
        let ghost sub = ifaces@.subrange(0, i + 1);
        assert(sub.drop_last() =~= ifaces@.subrange(0, i as int));
        if ifaces[i].1 {
            let ghost n0 = sviews(ns@);
            ns.push(owned(ifaces[i].0.as_str()));
            assert(sviews(ns@) =~= n0.push(ifaces@[i as int].0@));
        }
        i = i + 1;
    }
    assert(ifaces@.subrange(0, i as int) =~= ifaces@);
    ns
}

fn except_name(ns: &Vec<String>, x: &str) -> (r: Vec<String>)
    ensures
        sviews(r@) == names_except(sviews(ns@), x@),
{
    let ghost sv = sviews(ns@);
    let mut r: Vec<String> = Vec::new();
    let mut i: usize = 0;
    assert(sv.subrange(0, 0) =~= Seq::<Seq<char>>::empty());
    while i < ns.len()
        invariant
            i <= ns@.len(),
            sv == sviews(ns@),
            sviews(r@) == names_except(sv.subrange(0, i as int), x@),
        decreases ns@.len() - i,
    {
        let ghost sub = sv.subrange(0, i + 1);
        assert(sub.drop_last() =~= sv.subrange(0, i as int));
        assert(sub.last() == ns@[i as int]@);
        if !str_eq(ns[i].as_str(), x) {
            let ghost r0 = sviews(r@);
            r.push(owned(ns[i].as_str()));
            assert(sviews(r@) =~= r0.push(ns@[i as int]@));
        }
        i = i + 1;
    }
    assert(sv.subrange(0, i as int) =~= sv);
    r
}

fn nth_or_text(ns: &Vec<String>, i: usize, dflt: &str) -> (r: String)
    ensures
        r@ == nth_or(sviews(ns@), i as int, dflt@),
{
    if i < ns.len() {
        owned(ns[i].as_str())
    } else {
        owned(dflt)
    }
}

fn nth_opt_text(ns: &Vec<String>, i: usize) -> (r: Option<String>)
    ensures
        match r {
            Some(s) => nth_opt(sviews(ns@), i as int) == Some(s@),
            None => nth_opt(sviews(ns@), i as int) is None,
        },
{
    if i < ns.len() {
        Some(owned(ns[i].as_str()))
    } else {
        None
    }
}

/// Index of the smallest `lan*` name other than index `skip` (when any).
fn min_lan_index(ns: &Vec<String>, skip: Option<usize>) -> (r: Option<usize>)
    ensures
        match r {
            Some(i) => {
                &&& i < ns@.len()
                &&& skip != Some(i)
                &&& is_lan(sviews(ns@)[i as int])
                &&& forall|j: int|
                    0 <= j < ns@.len() && Some(j as usize) != skip && is_lan(
                        #[trigger] sviews(ns@)[j],
                    ) ==> lex_le(sviews(ns@)[i as int], sviews(ns@)[j])
            },
            None => forall|j: int|
                0 <= j < ns@.len() && Some(j as usize) != skip ==> !is_lan(#[trigger] sviews(ns@)[j]),
        },
{
    let ghost sv = sviews(ns@);
    let lan = to_chars("lan");
    let mut best: Option<usize> = None;
    let mut i: usize = 0;
    while i < ns.len()
        invariant
            i <= ns@.len(),
            sv == sviews(ns@),
            lan@ == "lan"@,
            match best {
                Some(b) => {
                    &&& b < i
                    &&& skip != Some(b)
                    &&& is_lan(sv[b as int])
                    &&& forall|j: int|
                        0 <= j < i && Some(j as usize) != skip && is_lan(#[trigger] sv[j])
                            ==> lex_le(sv[b as int], sv[j])
                },
                None => forall|j: int| 0 <= j < i && Some(j as usize) != skip ==> !is_lan(#[trigger] sv[j]),
            },
        decreases ns@.len() - i,
    {
        let c = to_chars(ns[i].as_str());
        assert(sv[i as int] == c@);
        if skip != Some(i) && starts_with(c.as_slice(), lan.as_slice()) {
            match best {
                None => {
                    best = Some(i);
                    proof {
                        crate::remote::host::lemma_lex_irreflexive(c@);
                    }
                },
                Some(b) => {
                    let cb = to_chars(ns[b].as_str());
                    assert(sv[b as int] == cb@);
                    if lex_less(c.as_slice(), cb.as_slice()) {
                        proof {
                            assert forall|j: int|
                                0 <= j < i + 1 && Some(j as usize) != skip && is_lan(
                                    #[trigger] sv[j],
                                ) implies lex_le(c@, sv[j]) by {
                                if j < i {
                                    if lex_lt(sv[j], c@) {
                                        crate::remote::host::lemma_lex_trans(sv[j], c@, cb@);
                                        crate::remote::host::lemma_lex_asym(sv[j], cb@);
                                    }
                                } else {
                                    crate::remote::host::lemma_lex_irreflexive(c@);
                                }
                            }
                        }
                        best = Some(i);
                    } else {
                        proof {
                            assert(lex_le(cb@, c@));
                        }
                    }
                },
            }
        }
        i = i + 1;
    }
    best
}

/// Pick `(ETH_LAN, ETH_IOT1, ETH_IOT2)`: `wan` plus the two smallest `lan*`
/// names on Horto boards; else the first interface that is up plus the
/// next ones; else the first names, with `wan` / `lan1` as defaults.
pub fn pick_eth(ifaces: &[(String, bool)]) -> (r: (String, String, Option<String>))
    ensures
        eth_pick_ok(
            ifaces@,
            (
                r.0@,
                r.1@,
                match r.2 {
                    Some(s) => Some(s@),
                    None => None,
                },
            ),
        ),
{
    let ns = names_of(ifaces);
    let ghost sv = sviews(ns@);
    let mut has_wan = false;
    let mut k: usize = 0;
    let wan = to_chars("wan");
    while k < ns.len()
        invariant
            k <= ns@.len(),
            sv == sviews(ns@),
            wan@ == "wan"@,
            has_wan == exists|j: int| 0 <= j < k && #[trigger] sv[j] == "wan"@,
        decreases ns@.len() - k,
    {
        let c = to_chars(ns[k].as_str());
        assert(sv[k as int] == c@);
        if seq_eq(c.as_slice(), wan.as_slice()) {
            has_wan = true;
        }
        k = k + 1;
    }
    proof {
        if has_wan {
            let j = choose|j: int| 0 <= j < k && #[trigger] sv[j] == "wan"@;
            assert(sv.contains("wan"@));
        } else {
            assert(!sv.contains("wan"@));
        }
    }
    let first_lan = min_lan_index(&ns, None);
    if has_wan && first_lan.is_some() {
        let i1 = match first_lan {
            Some(i) => i,
            None => 0,
        };
        let second = min_lan_index(&ns, Some(i1));
        let eth1 = owned(ns[i1].as_str());
        let eth2 = match second {
            Some(i2) => Some(owned(ns[i2].as_str())),
            None => None,
        };
        proof {
            assert(has_wan_and_lan(sv));
            match second {
                Some(i2) => {
                    assert(sv[i2 as int] == eth2->0@);
                },
                None => {},
            }
            assert(lan_pair_ok(
                sv,
                eth1@,
                match eth2 {
                    Some(s) => Some(s@),
                    None => None,
                },
            ));
        }
        return (owned("wan"), eth1, eth2);
    }
    proof {
        assert(!has_wan_and_lan(sv));
    }
    let up = up_names_of(ifaces);
    if up.len() > 0 {
        let eth0 = owned(up[0].as_str());
        let rest = except_name(&ns, eth0.as_str());
        let eth1 = nth_or_text(&rest, 0, "lan1");
        let eth2 = nth_opt_text(&rest, 1);
        return (eth0, eth1, eth2);
    }
    let eth0 = nth_or_text(&ns, 0, "wan");
    let eth1 = nth_or_text(&ns, 1, "lan1");
    let eth2 = nth_opt_text(&ns, 2);
    (eth0, eth1, eth2)
}

} // verus!
