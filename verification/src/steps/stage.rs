//! Which setup file drives staging, the variables templates are rendered
//! with, and the files `s4` stages for each mode.
use vstd::prelude::*;
use crate::envfile::{
    env_set, missing_keys, missing_keys_error, ref_views, require_keys, wifi_ap_enabled, wifi_ap_on,
    EnvMap,
};
use crate::error::{message_error, ErrorView, HortoError};
use crate::journal::StepJournal;
use crate::step::SetupKind;
use crate::text::{concat2, concat3, owned, str_eq};

verus! {

/// Setup files under the active-setup directory, in the order they are
/// looked for.
#[derive(Debug, Clone, Copy, PartialEq, Eq)]
pub enum SetupFile {
    /// Full (IoT-LAN) env file.
    FullEnv,
    /// Minimal setup env file.
    MinimalEnv,
    /// `os-configuration.env`.
    OsConfiguration,
}

/// Stage mode a setup file stands for.
pub open spec fn file_mode(f: SetupFile) -> Seq<char> {
    match f {
        SetupFile::FullEnv => "full"@,
        SetupFile::MinimalEnv => "minimal"@,
        SetupFile::OsConfiguration => "os"@,
    }
}

/// Stage mode of a setup kind.
pub open spec fn kind_mode(k: SetupKind) -> Seq<char> {
    match k {
        SetupKind::Full => "full"@,
        SetupKind::Minimal => "minimal"@,
    }
}

/// First of the setup files that exists.
pub open spec fn first_file(full: bool, minimal: bool, os: bool) -> Option<SetupFile> {
    if full {
        Some(SetupFile::FullEnv)
    } else if minimal {
        Some(SetupFile::MinimalEnv)
    } else if os {
        Some(SetupFile::OsConfiguration)
    } else {
        None
    }
}

pub fn first_setup_file(full_exists: bool, minimal_exists: bool, os_exists: bool) -> (r: Option<SetupFile>)
    ensures
        r == first_file(full_exists, minimal_exists, os_exists),
{
    if full_exists {
        Some(SetupFile::FullEnv)
    } else if minimal_exists {
        Some(SetupFile::MinimalEnv)
    } else if os_exists {
        Some(SetupFile::OsConfiguration)
    } else {
        None
    }
}

pub fn mode_of_file(f: SetupFile) -> (r: &'static str)
    ensures
        r@ == file_mode(f),
{
    match f {
        SetupFile::FullEnv => "full",
        SetupFile::MinimalEnv => "minimal",
        SetupFile::OsConfiguration => "os",
    }
}

/// Stage mode: that of the first existing setup file, else the setup kind's.
pub open spec fn detected_mode(full: bool, minimal: bool, os: bool, kind: SetupKind) -> Seq<char> {
    match first_file(full, minimal, os) {
        Some(f) => file_mode(f),
        None => kind_mode(kind),
    }
}

pub fn detect_mode(full_exists: bool, minimal_exists: bool, os_exists: bool, kind: SetupKind) -> (r: &'static str)
    ensures
        r@ == detected_mode(full_exists, minimal_exists, os_exists, kind),
{
    match first_setup_file(full_exists, minimal_exists, os_exists) {
        Some(f) => mode_of_file(f),
        None => kind.as_str(),
    }
}

/// Error when no setup file exists outside a dry run.
pub open spec fn no_setup_error() -> ErrorView {
    message_error("no active setup file found; run s2 or m1 first"@)
}

/// Variables a dry run stages with when no setup file exists.
pub open spec fn stage_demo() -> Seq<(Seq<char>, Seq<char>)> {
    env_set(
        env_set(
            env_set(
                env_set(env_set(seq![], "MY_HOSTNAME"@, "horto-dryrun"@), "ETH_LAN"@, "wan"@),
                "ETH_IOT1"@,
                "lan1"@,
            ),
            "WIFI_INTERFACE"@,
            "none"@,
        ),
        "WIFI_SSID"@,
        "Horto-IoT-LAN"@,
    )
}

pub fn stage_demo_vars() -> (m: EnvMap)
    ensures
        m@ == stage_demo(),
{
    let mut m = EnvMap::new();
    m.set("MY_HOSTNAME", "horto-dryrun");
    m.set("ETH_LAN", "wan");
    m.set("ETH_IOT1", "lan1");
    m.set("WIFI_INTERFACE", "none");
    m.set("WIFI_SSID", "Horto-IoT-LAN");
    m
}

/// Mode and variables `s4` stages with: those of the setup file that was
/// found (given with its parsed contents), else in a dry run the demo
/// variables under the setup kind's mode, else an error.
pub fn load_vars(found: Option<(SetupFile, EnvMap)>, dry_run: bool, kind: SetupKind) -> (r: Result<
    (String, EnvMap),
    HortoError,
>)
    ensures
        match found {
            Some((f, m)) => r matches Ok((mode, vars)) && mode@ == file_mode(f) && vars@ == m@,
            None => if dry_run {
                r matches Ok((mode, vars)) && mode@ == kind_mode(kind) && vars@ == stage_demo()
            } else {
                r matches Err(e) && e@ == no_setup_error()
            },
        },
{
    match found {
        Some((f, m)) => Ok((owned(mode_of_file(f)), m)),
        None => {
            if dry_run {
                Ok((owned(kind.as_str()), stage_demo_vars()))
            } else {
                Err(HortoError::msg("no active setup file found; run s2 or m1 first"))
            }
        },
    }
}

/// Variables a dry run renders the docker tree with when no env file exists.
pub open spec fn render_demo() -> Seq<(Seq<char>, Seq<char>)> {
    env_set(
        env_set(
            env_set(
                env_set(env_set(seq![], "MY_HOSTNAME"@, "horto-dryrun"@), "WIFI_INTERFACE"@, "wlan0"@),
                "WIFI_SSID"@,
                "Horto-IoT-LAN"@,
            ),
            "WIFI_PASSPHRASE"@,
            ""@,
        ),
        "MY_URL"@,
        "example.net"@,
    )
}

pub fn render_demo_vars() -> (m: EnvMap)
    ensures
        m@ == render_demo(),
{
    let mut m = EnvMap::new();
    m.set("MY_HOSTNAME", "horto-dryrun");
    m.set("WIFI_INTERFACE", "wlan0");
    m.set("WIFI_SSID", "Horto-IoT-LAN");
    m.set("WIFI_PASSPHRASE", "");
    m.set("MY_URL", "example.net");
    m
}

/// Variables `d1` renders the docker tree with: the contents of the full or
/// else minimal env file when one exists, else the demo variables in a dry
/// run, else an error.
pub fn load_render_vars(found: Option<EnvMap>, dry_run: bool) -> (r: Result<EnvMap, HortoError>)
    ensures
        match found {
            Some(m) => r matches Ok(vars) && vars@ == m@,
            None => if dry_run {
                r matches Ok(vars) && vars@ == render_demo()
            } else {
                r matches Err(e) && e@ == no_setup_error()
            },
        },
{
    match found {
        Some(m) => Ok(m),
        None => {
            if dry_run {
                Ok(render_demo_vars())
            } else {
                Err(HortoError::msg("no active setup file found; run s2 or m1 first"))
            }
        },
    }
}

/// One thing `s4` does, in order.
#[derive(Debug, Clone, PartialEq, Eq)]
pub enum StageItem {
    /// Render the embedded template `config/<rel>` into the staging tree.
    Render(String),
    /// Copy the embedded file `config/<rel>` into the staging tree as is.
    Static(String),
    /// Log a line.
    Note(String),
}

pub enum StageItemView {
    Render(Seq<char>),
    Static(Seq<char>),
    Note(Seq<char>),
}

impl View for StageItem {
    type V = StageItemView;

    open spec fn view(&self) -> StageItemView {
        match self {
            StageItem::Render(r) => StageItemView::Render(r@),
            StageItem::Static(r) => StageItemView::Static(r@),
            StageItem::Note(n) => StageItemView::Note(n@),
        }
    }
}

pub open spec fn item_views(v: Seq<StageItem>) -> Seq<StageItemView> {
    Seq::new(v.len(), |i: int| v[i]@)
}

/// `hosts` and `hostname`, rendered in every mode.
pub open spec fn host_items() -> Seq<StageItemView> {
    seq![StageItemView::Render("hosts"@), StageItemView::Render("hostname"@)]
}

/// What the full mode stages after the WiFi part.
pub open spec fn full_tail_items() -> Seq<StageItemView> {
    seq![
        StageItemView::Render("netplan/99-iot-lan.yaml"@),
        StageItemView::Static("resolv.conf"@),
        StageItemView::Static("dnsmasq.d/iot-lan.conf"@),
        StageItemView::Static("sysctl.d/packet_forwarding.conf"@),
        StageItemView::Static("avahi/avahi-daemon.conf"@),
        StageItemView::Static("avahi/hosts"@),
    ]
}

/// Keys the full mode needs, and those a WiFi AP needs on top.
pub open spec fn full_keys() -> Seq<Seq<char>> {
    seq!["MY_HOSTNAME"@, "ETH_LAN"@, "ETH_IOT1"@]
}

pub open spec fn wifi_keys() -> Seq<Seq<char>> {
    seq!["WIFI_INTERFACE"@, "WIFI_SSID"@]
}

/// Items `s4` carries out for `mode` with `vars`, and the error it stops
/// with after them, if any.
pub open spec fn stage_steps(mode: Seq<char>, vars: Seq<(Seq<char>, Seq<char>)>) -> (
    Seq<StageItemView>,
    Option<ErrorView>,
) {
    if mode == "full"@ {
        let m1 = missing_keys(vars, full_keys());
        if m1.len() > 0 {
            (seq![], Some(missing_keys_error(m1)))
        } else if wifi_ap_on(vars) {
            let m2 = missing_keys(vars, wifi_keys());
            if m2.len() > 0 {
                (host_items(), Some(missing_keys_error(m2)))
            } else {
                (
                    host_items().push(StageItemView::Render("hostapd/hostapd.conf"@))
                        + full_tail_items(),
                    None,
                )
            }
        } else {
            (
                host_items().push(
                    StageItemView::Note("WIFI_INTERFACE=none; skipping hostapd staging"@),
                ) + full_tail_items(),
                None,
            )
        }
    } else if mode == "minimal"@ || mode == "os"@ {
        let m = missing_keys(vars, seq!["MY_HOSTNAME"@]);
        if m.len() > 0 {
            (seq![], Some(missing_keys_error(m)))
        } else {
            (host_items().push(StageItemView::Static("resolv.conf"@)), None)
        }
    } else {
        (seq![], Some(message_error("unknown stage mode: "@ + mode)))
    }
}

/// The items `s4` carries out, and the error it stops with after them.
pub struct StagePlan {
    pub items: Vec<StageItem>,
    pub error: Option<HortoError>,
}

fn push_host_items(items: &mut Vec<StageItem>)
    ensures
        item_views(final(items)@) == item_views(old(items)@) + host_items(),
{
    let ghost i0 = item_views(items@);
    items.push(StageItem::Render(owned("hosts")));
    items.push(StageItem::Render(owned("hostname")));
    assert(item_views(items@) =~= i0 + host_items());
}

fn push_full_tail(items: &mut Vec<StageItem>)
    ensures
        item_views(final(items)@) == item_views(old(items)@) + full_tail_items(),
{
    let ghost i0 = item_views(items@);
    items.push(StageItem::Render(owned("netplan/99-iot-lan.yaml")));
    items.push(StageItem::Static(owned("resolv.conf")));
    items.push(StageItem::Static(owned("dnsmasq.d/iot-lan.conf")));
    items.push(StageItem::Static(owned("sysctl.d/packet_forwarding.conf")));
    items.push(StageItem::Static(owned("avahi/avahi-daemon.conf")));
    items.push(StageItem::Static(owned("avahi/hosts")));
    assert(item_views(items@) =~= i0 + full_tail_items());
}

/// What `s4` stages for `mode` (`full`, `minimal` or `os`) with `vars`:
/// the required keys are checked first, `hostapd.conf` only when a WiFi AP
/// is enabled, and an unknown mode is an error.
pub fn stage_plan(mode: &str, vars: &EnvMap) -> (p: StagePlan)
    ensures
        item_views(p.items@) == stage_steps(mode@, vars@).0,
        match p.error {
            Some(e) => stage_steps(mode@, vars@).1 == Some(e@),
            None => stage_steps(mode@, vars@).1 is None,
        },
{
    let mut items: Vec<StageItem> = Vec::new();
    assert(item_views(items@) =~= Seq::<StageItemView>::empty());
    if str_eq(mode, "full") {
        let keys: [&str; 3] = ["MY_HOSTNAME", "ETH_LAN", "ETH_IOT1"];
        assert(ref_views(keys@) =~= full_keys());
        match require_keys(vars, &keys) {
            Err(e) => {
                return StagePlan { items, error: Some(e) };
            },
            Ok(()) => {},
        }
        push_host_items(&mut items);
        if wifi_ap_enabled(vars) {
            let wk: [&str; 2] = ["WIFI_INTERFACE", "WIFI_SSID"];
            assert(ref_views(wk@) =~= wifi_keys());
            match require_keys(vars, &wk) {
                Err(e) => {
                    return StagePlan { items, error: Some(e) };
                },
                Ok(()) => {},
            }
            let ghost i0 = item_views(items@);
            items.push(StageItem::Render(owned("hostapd/hostapd.conf")));
            assert(item_views(items@) =~= i0.push(StageItemView::Render("hostapd/hostapd.conf"@)));
        } else {
            let ghost i0 = item_views(items@);
            items.push(StageItem::Note(owned("WIFI_INTERFACE=none; skipping hostapd staging")));
            assert(item_views(items@) =~= i0.push(
                StageItemView::Note("WIFI_INTERFACE=none; skipping hostapd staging"@),
            ));
        }
        push_full_tail(&mut items);
        return StagePlan { items, error: None };
    }
    if str_eq(mode, "minimal") || str_eq(mode, "os") {
        let keys: [&str; 1] = ["MY_HOSTNAME"];
        assert(ref_views(keys@) =~= seq!["MY_HOSTNAME"@]);
        match require_keys(vars, &keys) {
            Err(e) => {
                return StagePlan { items, error: Some(e) };
            },
            Ok(()) => {},
        }
        push_host_items(&mut items);
        let ghost i0 = item_views(items@);
        items.push(StageItem::Static(owned("resolv.conf")));
        assert(item_views(items@) =~= i0.push(StageItemView::Static("resolv.conf"@)));
        return StagePlan { items, error: None };
    }
    let m = concat2("unknown stage mode: ", mode);
    StagePlan { items, error: Some(HortoError::msg(m.as_str())) }
}

/// Dry-run plan line of `s4`.
pub open spec fn stage_plan_line(staging: Seq<char>, mode: Seq<char>) -> Seq<char> {
    "stage embedded config/ into "@ + staging + " ("@ + mode + " mode)"@
}

pub fn plan_stage(journal: &mut StepJournal, staging: &str, mode: &str)
    ensures
        final(journal)@.planned == old(journal)@.planned.push(stage_plan_line(staging@, mode@)),
        final(journal)@.logs == old(journal)@.logs,
{
    let mut l = concat3("stage embedded config/ into ", staging, " (");
    l.append(mode);
    l.append(" mode)");
    journal.plan_action(l);
}

/// Closing log line of `s4`.
pub open spec fn stage_done_line(staging: Seq<char>, mode: Seq<char>) -> Seq<char> {
    "Step s4 complete: staged in "@ + staging + " using "@ + mode + " mode"@
}

pub fn stage_done_message(staging: &str, mode: &str) -> (r: String)
    ensures
        r@ == stage_done_line(staging@, mode@),
{
    let mut l = concat3("Step s4 complete: staged in ", staging, " using ");
    l.append(mode);
    l.append(" mode");
    l
}

/// The mode `s4` plans with ([`detect_mode`]) is the mode it stages with
/// ([`load_vars`] given the first existing setup file, or, in a dry run with
/// none, the setup kind's).
pub proof fn law_plan_mode_is_stage_mode(full: bool, minimal: bool, os: bool, kind: SetupKind)
    ensures
        match first_file(full, minimal, os) {
            Some(f) => file_mode(f) == detected_mode(full, minimal, os, kind),
            None => kind_mode(kind) == detected_mode(full, minimal, os, kind),
        },
{
}

/// Whether `p` is what [`stage_plan`] gives for `mode` and `vars`.
pub open spec fn staged_as(p: StagePlan, mode: Seq<char>, vars: Seq<(Seq<char>, Seq<char>)>) -> bool {
    &&& item_views(p.items@) == stage_steps(mode, vars).0
    &&& match p.error {
        Some(e) => stage_steps(mode, vars).1 == Some(e@),
        None => stage_steps(mode, vars).1 is None,
    }
}

/// What `s4` does with the setup file that was found: [`load_vars`], then
/// [`stage_plan`] for the mode and variables it gives.
pub fn stage_step(found: Option<(SetupFile, EnvMap)>, dry_run: bool, kind: SetupKind) -> (r: Result<
    (String, StagePlan),
    HortoError,
>)
    ensures
        match found {
            Some((f, m)) => r matches Ok((mode, p)) && mode@ == file_mode(f) && staged_as(p, file_mode(f), m@),
            None => if dry_run {
                r matches Ok((mode, p)) && mode@ == kind_mode(kind) && staged_as(p, kind_mode(kind), stage_demo())
            } else {
                r matches Err(e) && e@ == no_setup_error()
            },
        },
{
    let (mode, vars) = load_vars(found, dry_run, kind)?;
    let plan = stage_plan(mode.as_str(), &vars);
    Ok((mode, plan))
}

} // verus!
