use horto_os_ui_shared::remote::process::Runs;
use std::cell::RefCell;

use horto_os_ui_shared::envfile::{parse, EnvMap};
use horto_os_ui_shared::error::HortoError;
use horto_os_ui_shared::journal::StepJournal;
use horto_os_ui_shared::remote::ecosystem::EcosystemInstallChoice;
use horto_os_ui_shared::remote::process::{CommandOutput, ProcessRunner, StdioMode};
use horto_os_ui_shared::stack_opts::StackOpts;
use horto_os_ui_shared::step::SetupKind;
use horto_os_ui_shared::steps::activate::{
    activation_path, apply_nat_rules, choose_wan_iface, cron_file_path, cron_installed_message,
    ensure_forward_accept,
    ensure_nat_masquerade, export_cron_body, iot_units_to_restart, masquerade_args,
    activation_start, plan_activation, plan_export_cron, run_iptables, ActivationPath,
};
use horto_os_ui_shared::steps::docker_tree::{
    container_name_contains, download_piper_models, ensure_compose, extract_piper_archive,
    homepage_asset_files, merged_message, piper_dir,
    missing_compose_warning, non_stack_files, optional_stacks_done, plan_docker_tree,
    plan_optional_stacks, plan_start_stacks, require_engine, resolve_npu_type, service_links_env,
    stack_prefix_files, stacks_running, start_failed_warning, start_stacks_done,
};
use horto_os_ui_shared::steps::host_setup::{
    apply_os_conf_answers, apply_staged_gate, apply_wifi_choice, assign_eth, check_iot_env,
    cockpit_dropin_path, normalize_wifi_iface, wifi_iface_default, wifi_secret_defaults,
    cockpit_dropin_present, docker_engine_gate, env_setup_done, iot_packages, minimal_done,
    minimal_env, minimal_hostname_default, not_staged, os_conf_prompts, parse_eth_ifaces,
    plan_apply_staged, plan_env_setup, plan_minimal, plan_packages, EngineAction, OsConfAnswers,
};
use horto_os_ui_shared::steps::stage::{
    detect_mode, first_setup_file, load_render_vars, load_vars, plan_stage, stage_done_message,
    stage_plan, stage_step, SetupFile, StageItem,
};
use horto_os_ui_shared::steps::validate::{
    check_exists, check_no_ph, full_setup_gate, has_unreplaced_placeholders,
    netplan_check_failed, plan_validation, run_file_checks, validated_files,
    validate_configs, validation_outcome, validation_start, FileCheck, NetplanCheck, StepGate,
};

/// Replies with the given exit codes in order and records every call.
struct CodeRunner {
    codes: RefCell<Vec<Result<i32, String>>>,
    calls: RefCell<Vec<(String, Vec<String>)>>,
}

impl CodeRunner {
    fn new(codes: Vec<Result<i32, String>>) -> Self {
        CodeRunner { codes: RefCell::new(codes), calls: RefCell::new(Vec::new()) }
    }
}

impl ProcessRunner for CodeRunner {
    fn run(
        &self,
        program: &str,
        args: &[&str],
        _env: &[(&str, &str)],
        _stdio: StdioMode,
    ) -> Result<CommandOutput, HortoError> {
        self.calls
            .borrow_mut()
            .push((program.to_owned(), args.iter().map(|s| (*s).to_owned()).collect()));
        let next = self.codes.borrow_mut().remove(0);
        match next {
            Ok(status) => Ok(CommandOutput { status, stdout: String::new(), stderr: String::new() }),
            Err(m) => Err(HortoError::msg(&m)),
        }
    }

    fn run_with_stdin(
        &self,
        program: &str,
        args: &[&str],
        env: &[(&str, &str)],
        _stdin: &[u8],
    ) -> Result<CommandOutput, HortoError> {
        self.run(program, args, env, StdioMode::Capture)
    }
}

fn env_of(pairs: &[(&str, &str)]) -> EnvMap {
    let mut m = EnvMap::new();
    for (k, v) in pairs {
        m.set(k, v);
    }
    m
}

fn strings(v: &[&str]) -> Vec<String> {
    v.iter().map(|s| (*s).to_owned()).collect()
}

// ---------------------------------------------------------------------------
// s7
// ---------------------------------------------------------------------------

#[test]
fn run_iptables_dry_run_plans_only() {
    let runner = CodeRunner::new(vec![]);
    let mut j = StepJournal::new();
    run_iptables(&mut Runs::new(&runner), &mut j, true, &strings(&["-A", "FORWARD", "-i", "br0"])).unwrap();
    assert!(j.planned.iter().any(|p| p.starts_with("iptables") && p.contains("FORWARD")));
    assert_eq!(j.planned, vec!["iptables -A FORWARD -i br0".to_owned()]);
    assert!(runner.calls.borrow().is_empty());
}

#[test]
fn ensure_nat_helpers_dry_run_plan_iptables() {
    let runner = CodeRunner::new(vec![]);
    let mut j = StepJournal::new();
    ensure_nat_masquerade(&mut Runs::new(&runner), &mut j, true, "enp1s0").unwrap();
    ensure_forward_accept(&mut Runs::new(&runner), &mut j, true, "enp1s0");
    assert!(j.planned.iter().any(|p| p.contains("MASQUERADE") && p.contains("enp1s0")));
    assert!(j.planned.iter().any(|p| p.contains("FORWARD") && p.contains("br0")));
    assert!(j.planned.iter().any(|p| p.contains("RELATED,ESTABLISHED")));
}

#[test]
fn nat_rules_dry_run_plans_iptables() {
    let runner = CodeRunner::new(vec![]);
    let mut j = StepJournal::new();
    let env = env_of(&[("ETH_LAN", "enp1s0")]);
    apply_nat_rules(&mut Runs::new(&runner), &mut j, true, &env, Some("eth9")).unwrap();
    assert!(j.planned.iter().any(|p| p.contains("MASQUERADE") && p.contains("enp1s0")));
    assert_eq!(
        j.planned,
        strings(&[
            "iptables -t nat -A POSTROUTING -o enp1s0 -j MASQUERADE",
            "iptables -A FORWARD -i br0 -o enp1s0 -j ACCEPT",
            "iptables -A FORWARD -i enp1s0 -o br0 -m state --state RELATED,ESTABLISHED -j ACCEPT",
        ])
    );
    assert_eq!(
        j.logs,
        strings(&["Applying NAT / masquerade rules for interface 'enp1s0'..."])
    );
}

#[test]
fn nat_rules_dry_run_uses_default_iface_when_missing_env_key() {
    let runner = CodeRunner::new(vec![]);
    let mut j = StepJournal::new();
    let env = EnvMap::new();
    apply_nat_rules(&mut Runs::new(&runner), &mut j, true, &env, None).unwrap();
    assert!(j.planned.iter().any(|p| p.contains("MASQUERADE")));
    assert!(j.planned.iter().any(|p| p.contains("FORWARD")));
    assert!(j.planned[0].contains("-o eth0 "));
}

#[test]
fn wan_iface_prefers_env_then_route_then_eth0() {
    let with_key = env_of(&[("ETH_LAN", "wan")]);
    assert_eq!(choose_wan_iface(&with_key, Some("enp2s0")), "wan");
    let empty = EnvMap::new();
    assert_eq!(choose_wan_iface(&empty, Some("enp2s0")), "enp2s0");
    assert_eq!(choose_wan_iface(&empty, None), "eth0");
}

#[test]
fn masquerade_checks_before_appending() {
    // Check fails (rule absent), append succeeds.
    let runner = CodeRunner::new(vec![Ok(1), Ok(0)]);
    let mut j = StepJournal::new();
    ensure_nat_masquerade(&mut Runs::new(&runner), &mut j, false, "wan0").unwrap();
    let calls = runner.calls.borrow();
    assert_eq!(calls.len(), 2);
    assert_eq!(calls[0].0, "iptables");
    assert_eq!(calls[0].1, strings(&["-t", "nat", "-C", "POSTROUTING", "-o", "wan0", "-j", "MASQUERADE"]));
    assert_eq!(calls[1].1, strings(&["-t", "nat", "-A", "POSTROUTING", "-o", "wan0", "-j", "MASQUERADE"]));
    assert!(j.planned.is_empty() && j.logs.is_empty());

    // Rule already present: no append.
    let present = CodeRunner::new(vec![Ok(0)]);
    ensure_nat_masquerade(&mut Runs::new(&present), &mut j, false, "wan0").unwrap();
    assert_eq!(present.calls.borrow().len(), 1);
}

#[test]
fn masquerade_append_failure_is_reported() {
    let runner = CodeRunner::new(vec![Ok(1), Ok(2)]);
    let mut j = StepJournal::new();
    let err = ensure_nat_masquerade(&mut Runs::new(&runner), &mut j, false, "wan0").unwrap_err();
    assert_eq!(
        err.to_text(),
        "iptables -t nat -A POSTROUTING -o wan0 -j MASQUERADE failed"
    );
    let spawn = CodeRunner::new(vec![Err("no such program".into())]);
    let err = run_iptables(&mut Runs::new(&spawn), &mut j, false, &masquerade_args("-C", "x")).unwrap_err();
    assert_eq!(err.to_text(), "iptables: no such program");
}

#[test]
fn apply_nat_rules_stops_on_masquerade_failure() {
    let runner = CodeRunner::new(vec![Ok(1), Ok(1)]);
    let mut j = StepJournal::new();
    let env = env_of(&[("ETH_LAN", "wan")]);
    assert!(apply_nat_rules(&mut Runs::new(&runner), &mut j, false, &env, None).is_err());
    assert_eq!(j.logs, strings(&["Applying NAT / masquerade rules for interface 'wan'..."]));

    let ok = CodeRunner::new(vec![Ok(0), Ok(1), Ok(0), Ok(0)]);
    let mut j2 = StepJournal::new();
    apply_nat_rules(&mut Runs::new(&ok), &mut j2, false, &env, None).unwrap();
    assert_eq!(j2.logs.last().unwrap(), "Applied NAT / masquerade rules.");
    let calls = ok.calls.borrow();
    assert_eq!(calls.len(), 4);
    assert_eq!(calls[2].1, strings(&["-A", "FORWARD", "-i", "br0", "-o", "wan", "-j", "ACCEPT"]));
}

#[test]
fn plan_records_activation_actions() {
    let mut j = StepJournal::new();
    plan_activation(&mut j);
    assert!(j.planned.iter().any(|p| p.contains("sysctl")));
    assert!(j.planned.iter().any(|p| p.contains("netplan")));
    assert!(j.planned.iter().any(|p| p.contains("dnsmasq")));
    assert!(j.planned.iter().any(|p| p.contains("hostapd when WiFi AP enabled")));
    assert!(j.planned.iter().any(|p| p.contains("DHCP leases")));
}

#[test]
fn apply_without_full_env_skips_when_not_dry_run() {
    let mut j = StepJournal::new();
    assert_eq!(full_setup_gate(&mut j, "s7", false, false), StepGate::Skip);
    assert!(j.logs.iter().any(|l| l.contains("skipping")));
    assert_eq!(j.planned.len(), 0);
}

#[test]
fn apply_dry_run_without_full_env_still_plans() {
    let mut j = StepJournal::new();
    assert_eq!(full_setup_gate(&mut j, "s7", false, true), StepGate::Plan);
    plan_activation(&mut j);
    assert!(j.planned.iter().any(|p| p.contains("sysctl")));
}

#[test]
fn apply_dry_run_with_full_env_plans_activation() {
    let mut j = StepJournal::new();
    assert_eq!(full_setup_gate(&mut j, "s7", true, true), StepGate::Plan);
    plan_activation(&mut j);
    assert!(j.planned.iter().any(|p| p.contains("netplan")));
    assert_eq!(full_setup_gate(&mut j, "s7", true, false), StepGate::Run);
}

#[test]
fn restart_iot_services_skips_hostapd_when_wifi_none() {
    let env = env_of(&[("WIFI_INTERFACE", "none")]);
    assert_eq!(iot_units_to_restart(Some(&env)), strings(&["dnsmasq", "avahi-daemon"]));
}

#[test]
fn restart_iot_services_skips_hostapd_when_env_missing() {
    assert_eq!(iot_units_to_restart(None), strings(&["dnsmasq", "avahi-daemon"]));
}

#[test]
fn restart_iot_services_restarts_hostapd_when_wifi_set() {
    let env = env_of(&[("WIFI_INTERFACE", "wlan0")]);
    assert_eq!(
        iot_units_to_restart(Some(&env)),
        strings(&["dnsmasq", "hostapd", "avahi-daemon"])
    );
}

#[test]
fn install_cron_dry_run_records_plan_actions() {
    let mut j = StepJournal::new();
    plan_export_cron(&mut j, "/tmp/etc/cron.d/export_dhcp_leases", "/usr/local/bin/horto");
    assert!(j.planned.iter().any(|p| p.contains("cron.d")));
    assert!(j.planned.iter().any(|p| p.contains("systemctl enable")));
    assert_eq!(
        j.planned[1],
        "write /tmp/etc/cron.d/export_dhcp_leases with: * * * * * root /usr/local/bin/horto net export-leases >/dev/null 2>&1"
    );
}

#[test]
fn cron_body_runs_export_leases_every_minute() {
    assert_eq!(
        export_cron_body("horto"),
        "* * * * * root horto net export-leases >/dev/null 2>&1\n"
    );
}

#[test]
fn s7_not_root_exports_leases_only() {
    let mut j = StepJournal::new();
    assert_eq!(activation_path(&mut j, false), ActivationPath::LeasesOnly);
    assert!(j.logs[0].contains("Exporting leases only"));
    let mut j2 = StepJournal::new();
    assert_eq!(activation_path(&mut j2, true), ActivationPath::Activate);
    assert!(j2.logs.is_empty());
}

// ---------------------------------------------------------------------------
// s6
// ---------------------------------------------------------------------------

#[test]
fn plan_records_validate_and_hostapd_actions() {
    let mut j = StepJournal::new();
    plan_validation(&mut j);
    assert!(j.planned.iter().any(|p| p.contains("validate /etc")));
    assert!(j.planned.iter().any(|p| p.contains("netplan generate")));
    assert!(j.planned.iter().any(|p| p.contains("hostapd")));
}

#[test]
fn apply_dry_run_without_full_env_calls_plan() {
    let mut j = StepJournal::new();
    assert_eq!(full_setup_gate(&mut j, "s6", false, true), StepGate::Plan);
    plan_validation(&mut j);
    assert!(j.planned.iter().any(|p| p.contains("validate /etc")));
}

#[test]
fn apply_dry_run_with_full_env_calls_plan() {
    let mut j = StepJournal::new();
    assert_eq!(full_setup_gate(&mut j, "s6", true, true), StepGate::Plan);
    plan_validation(&mut j);
    assert!(j.planned.iter().any(|p| p.contains("validate /etc")));
}

#[test]
fn apply_mode_skips_when_full_env_missing() {
    let mut j = StepJournal::new();
    assert_eq!(full_setup_gate(&mut j, "s6", false, false), StepGate::Skip);
    assert!(j.logs.iter().any(|l| l.contains("skipping")));
    assert_eq!(j.logs[0], "s6 only needed for IoT-LAN (full) setup; skipping");
}

#[test]
fn check_no_ph_reports_missing_and_placeholders() {
    let mut j = StepJournal::new();
    assert!(!check_no_ph(&mut j, "/tmp/missing", None));
    assert!(check_no_ph(&mut j, "/tmp/good.txt", Some("nameserver 1.1.1.1\n")));
    assert!(!check_no_ph(&mut j, "/tmp/bad.txt", Some("{{PLACEHOLDER}} still here\n")));
    assert_eq!(
        j.logs,
        strings(&[
            "ERROR: cannot validate missing file: /tmp/missing",
            "OK: no placeholders remain in /tmp/good.txt",
            "ERROR: unreplaced placeholder found in /tmp/bad.txt",
        ])
    );
}

fn checks_for(etc: &str, present: bool, hosts_text: &str) -> Vec<FileCheck> {
    validated_files()
        .into_iter()
        .map(|(rel, placeholders)| {
            let text = if rel == "hosts" { hosts_text.to_owned() } else { "ok\n".to_owned() };
            FileCheck {
                path: format!("{etc}/{rel}"),
                placeholders,
                is_file: present,
                text: if present { Some(text) } else { None },
            }
        })
        .collect()
}

#[test]
fn apply_mode_fails_when_expected_files_missing() {
    let mut j = StepJournal::new();
    let failed = run_file_checks(&mut j, &checks_for("/tmp/etc", false, ""));
    assert!(failed);
    let err = validation_outcome(&mut j, failed, false).unwrap_err();
    assert!(err.to_text().contains("validation"));
    assert!(j.logs.iter().any(|l| l.contains("ERROR: missing")));
}

#[test]
fn apply_mode_fails_when_placeholder_remains() {
    let mut j = StepJournal::new();
    let failed = run_file_checks(&mut j, &checks_for("/tmp/etc", true, "127.0.0.1 {{MY_HOSTNAME}}\n"));
    assert!(failed);
    let err = validation_outcome(&mut j, failed, true).unwrap_err();
    assert!(err.to_text().contains("validation"));
    assert!(j.logs.iter().any(|l| l.contains("placeholder")));
}

#[test]
fn validation_passes_and_logs_every_file() {
    let mut j = StepJournal::new();
    let failed = run_file_checks(&mut j, &checks_for("/e", true, "127.0.0.1 box\n"));
    assert!(!failed);
    // 8 existence lines plus 3 placeholder lines.
    assert_eq!(j.logs.len(), 11);
    assert_eq!(j.logs[0], "OK: file exists: /e/hosts");
    assert_eq!(j.logs[1], "OK: no placeholders remain in /e/hosts");
    assert!(!netplan_check_failed(&mut j, &NetplanCheck::Generated));
    assert_eq!(validation_outcome(&mut j, failed, false).unwrap(), false);
    assert_eq!(j.logs.last().unwrap(), "Step s6 complete: configuration validation passed.");
    assert!(j.logs.iter().any(|l| l.starts_with("Not root; skip hostapd")));
}

#[test]
fn netplan_outcomes() {
    let mut j = StepJournal::new();
    assert!(!netplan_check_failed(&mut j, &NetplanCheck::NotInstalled));
    assert!(!netplan_check_failed(&mut j, &NetplanCheck::ForeignEtc));
    assert!(!netplan_check_failed(&mut j, &NetplanCheck::NotRoot));
    assert!(netplan_check_failed(&mut j, &NetplanCheck::GenerateFailed));
    assert!(netplan_check_failed(&mut j, &NetplanCheck::GenerateError("boom".into())));
    assert_eq!(j.logs[4], "ERROR: netplan generate: boom");
}

#[test]
fn placeholder_detection() {
    assert!(has_unreplaced_placeholders("a {{X}} b"));
    assert!(!has_unreplaced_placeholders("no braces"));
    assert!(!has_unreplaced_placeholders("}} before {{"));
    assert!(!has_unreplaced_placeholders("{{ unclosed"));
    let mut j = StepJournal::new();
    assert!(check_exists(&mut j, "/x", true));
    assert!(!check_exists(&mut j, "/y", false));
    assert_eq!(j.logs, strings(&["OK: file exists: /x", "ERROR: missing file: /y"]));
}

// ---------------------------------------------------------------------------
// s4 / staging variables
// ---------------------------------------------------------------------------

#[test]
fn detect_mode_prefers_existing_env_files() {
    assert_eq!(detect_mode(true, false, false, SetupKind::Minimal), "full");
    assert_eq!(detect_mode(false, true, false, SetupKind::Full), "minimal");
    assert_eq!(detect_mode(false, false, true, SetupKind::Full), "os");
}

#[test]
fn detect_mode_falls_back_to_setup_kind() {
    assert_eq!(detect_mode(false, false, false, SetupKind::Full), "full");
    assert_eq!(detect_mode(false, false, false, SetupKind::Minimal), "minimal");
}

#[test]
fn plan_uses_detect_mode_label() {
    let mut j = StepJournal::new();
    let mode = detect_mode(false, true, false, SetupKind::Full);
    plan_stage(&mut j, "/srv/active_setup/etc", mode);
    assert!(j.planned.iter().any(|p| p.contains("minimal mode")));
    assert_eq!(
        j.planned[0],
        "stage embedded config/ into /srv/active_setup/etc (minimal mode)"
    );
}

fn item_names(items: &[StageItem]) -> Vec<String> {
    items
        .iter()
        .map(|i| match i {
            StageItem::Render(r) => format!("render {r}"),
            StageItem::Static(r) => format!("static {r}"),
            StageItem::Note(n) => format!("note {n}"),
        })
        .collect()
}

#[test]
fn s4_minimal_mode_staging() {
    let vars = env_of(&[("MY_HOSTNAME", "mini")]);
    let p = stage_plan("minimal", &vars);
    assert!(p.error.is_none());
    assert_eq!(
        item_names(&p.items),
        strings(&["render hosts", "render hostname", "static resolv.conf"])
    );
    let empty = EnvMap::new();
    let p = stage_plan("os", &empty);
    assert!(p.items.is_empty());
    assert_eq!(p.error.unwrap().to_text(), "missing required keys: MY_HOSTNAME");
}

#[test]
fn full_stage_plan_with_and_without_wifi() {
    let ethernet = env_of(&[
        ("MY_HOSTNAME", "box"),
        ("ETH_LAN", "wan"),
        ("ETH_IOT1", "lan1"),
        ("WIFI_INTERFACE", "none"),
    ]);
    let p = stage_plan("full", &ethernet);
    assert!(p.error.is_none());
    assert_eq!(
        item_names(&p.items),
        strings(&[
            "render hosts",
            "render hostname",
            "note WIFI_INTERFACE=none; skipping hostapd staging",
            "render netplan/99-iot-lan.yaml",
            "static resolv.conf",
            "static dnsmasq.d/iot-lan.conf",
            "static sysctl.d/packet_forwarding.conf",
            "static avahi/avahi-daemon.conf",
            "static avahi/hosts",
        ])
    );

    let mut wifi = ethernet.clone();
    wifi.set("WIFI_INTERFACE", "wlan0");
    let p = stage_plan("full", &wifi);
    assert_eq!(item_names(&p.items), strings(&["render hosts", "render hostname"]));
    assert_eq!(p.error.unwrap().to_text(), "missing required keys: WIFI_SSID");

    wifi.set("WIFI_SSID", "Horto");
    let p = stage_plan("full", &wifi);
    assert!(p.error.is_none());
    assert_eq!(item_names(&p.items)[2], "render hostapd/hostapd.conf");
    assert_eq!(p.items.len(), 9);

    let p = stage_plan("full", &EnvMap::new());
    assert_eq!(
        p.error.unwrap().to_text(),
        "missing required keys: MY_HOSTNAME, ETH_LAN, ETH_IOT1"
    );
    let p = stage_plan("weird", &ethernet);
    assert_eq!(p.error.unwrap().to_text(), "unknown stage mode: weird");
}

#[test]
fn load_vars_sources() {
    assert_eq!(first_setup_file(false, true, true), Some(SetupFile::MinimalEnv));
    assert_eq!(first_setup_file(false, false, false), None);
    let found = env_of(&[("MY_HOSTNAME", "a")]);
    let (mode, vars) = load_vars(Some((SetupFile::OsConfiguration, found)), false, SetupKind::Full).unwrap();
    assert_eq!(mode, "os");
    assert_eq!(vars.get("MY_HOSTNAME"), Some("a"));
    let (mode, vars) = load_vars(None, true, SetupKind::Minimal).unwrap();
    assert_eq!(mode, "minimal");
    assert_eq!(vars.get("MY_HOSTNAME"), Some("horto-dryrun"));
    assert_eq!(vars.get("WIFI_INTERFACE"), Some("none"));
    let err = load_vars(None, false, SetupKind::Full).unwrap_err();
    assert_eq!(err.to_text(), "no active setup file found; run s2 or m1 first");
    assert_eq!(
        stage_done_message("/s/etc", "full"),
        "Step s4 complete: staged in /s/etc using full mode"
    );
}

// ---------------------------------------------------------------------------
// d1
// ---------------------------------------------------------------------------

#[test]
fn load_render_vars_prefers_full_env() {
    // The caller loads the first existing env file (full before minimal).
    assert_eq!(first_setup_file(true, true, false), Some(SetupFile::FullEnv));
    let full = env_of(&[("MY_HOSTNAME", "prefer-full")]);
    let vars = load_render_vars(Some(full), false).unwrap();
    assert_eq!(vars.get("MY_HOSTNAME"), Some("prefer-full"));
}

#[test]
fn load_render_vars_falls_back_to_minimal() {
    assert_eq!(first_setup_file(false, true, false), Some(SetupFile::MinimalEnv));
    let minimal = env_of(&[("MY_HOSTNAME", "mini-only")]);
    let vars = load_render_vars(Some(minimal), false).unwrap();
    assert_eq!(vars.get("MY_HOSTNAME"), Some("mini-only"));
}

#[test]
fn load_render_vars_dry_run_returns_demo_vars() {
    let vars = load_render_vars(None, true).unwrap();
    assert!(vars.contains_key("MY_HOSTNAME"));
    assert!(vars.contains_key("WIFI_INTERFACE"));
    assert_eq!(vars.get("MY_URL"), Some("example.net"));
}

#[test]
fn load_render_vars_apply_without_files_errors() {
    let err = load_render_vars(None, false).unwrap_err();
    assert!(err.to_text().contains("active setup"));
}

fn assets() -> Vec<String> {
    strings(&[
        "config/hosts",
        "docker_source/dockge/compose.yaml",
        "docker_source/homepage/compose.yaml",
        "docker_source/stacks/common/evcc/compose.yaml",
        "docker_source/stacks/rk3588/whisper-cv/compose.yaml",
        "homepage_assets/homepage.png",
        "homepage_assets/other.png",
    ])
}

#[test]
fn resolve_npu_type_reads_config_file() {
    let config = env_of(&[("NPU_TYPE", "rk3588")]);
    assert_eq!(resolve_npu_type(Some(&config), "/a/os-configuration.env", &assets()).unwrap(), "rk3588");
}

#[test]
fn resolve_npu_type_rejects_unknown_stack() {
    let config = env_of(&[("NPU_TYPE", "bogus")]);
    let err = resolve_npu_type(Some(&config), "/a/os-configuration.env", &assets()).unwrap_err();
    assert!(err.to_text().contains("bogus"));
    assert_eq!(
        err.to_text(),
        "NPU_TYPE=bogus has no embedded stacks/bogus/ (fix OS_TYPE/NPU_TYPE in os-configuration.env)"
    );
}

#[test]
fn resolve_npu_type_dry_run_reads_embedded_template() {
    // A dry run reads the embedded template when the file is absent.
    let template = parse("OS_TYPE=debian\nNPU_TYPE=rkRK3588\n");
    let npu = resolve_npu_type(Some(&template), "/a/os-configuration.env", &assets()).unwrap();
    assert_eq!(npu, "rk3588");
}

#[test]
fn resolve_npu_type_apply_without_file_errors() {
    let err = resolve_npu_type(None, "/srv/active_setup/os-configuration.env", &assets()).unwrap_err();
    assert!(err.to_text().contains("os-configuration"));
    let none = EnvMap::new();
    assert_eq!(resolve_npu_type(Some(&none), "/x", &Vec::new()).unwrap(), "none");
}

#[test]
fn asset_selection_for_the_docker_tree() {
    let a = assets();
    let non_stacks: Vec<String> = non_stack_files(&a).into_iter().map(|(_, rel)| rel).collect();
    assert_eq!(non_stacks, strings(&["dockge/compose.yaml", "homepage/compose.yaml"]));
    let common = stack_prefix_files(&a, "stacks/common/");
    assert_eq!(common.len(), 1);
    assert_eq!(common[0].0, "docker_source/stacks/common/evcc/compose.yaml");
    assert_eq!(common[0].1, "evcc/compose.yaml");
    let home: Vec<String> = homepage_asset_files(&a).into_iter().map(|(_, n)| n).collect();
    assert_eq!(home, strings(&["homepage.png"]));
    assert_eq!(
        merged_message("stacks/common/", 1, "/srv/docker"),
        "Merged stacks/common/ (1 files) into /srv/docker"
    );
}

#[test]
fn plan_dry_run_lists_stack_merges() {
    let mut j = StepJournal::new();
    plan_docker_tree(&mut j, "/srv/active_setup/os-configuration.env", "/srv/docker", "rk3588", false);
    assert!(j.planned.iter().any(|p| p.contains("stacks/common")));
    assert!(j.planned.iter().any(|p| p.contains("extract embedded docker_source")));
    assert!(j.planned.iter().any(|p| p.contains("piper")));
    assert!(j.planned.iter().any(|p| p == "merge stacks/rk3588 into docker tree"));
}

#[test]
fn plan_skip_piper_when_flag_set() {
    let mut j = StepJournal::new();
    plan_docker_tree(&mut j, "/c", "/d", "none", true);
    assert!(j.planned.iter().any(|p| p.contains("skip piper model download")));
    assert!(j.planned.iter().any(|p| p == "NPU_TYPE=none; skip NPU/GPU stack merge"));
}

// ---------------------------------------------------------------------------
// d2 / d3 / compose
// ---------------------------------------------------------------------------

#[test]
fn dry_run_plans_compose_ups() {
    let mut j = StepJournal::new();
    plan_start_stacks(&mut j, "/srv/docker");
    assert!(j.planned.iter().any(|p| p.contains("dockge") && p.contains("compose up")));
    assert!(j.planned.iter().any(|p| p.contains("homepage") && p.contains("compose up")));
    assert!(j.planned.iter().any(|p| p.contains(":5001") && p.contains(":3021")));
    assert_eq!(j.planned[0], "docker compose up -d in /srv/docker/dockge");
}

#[test]
fn is_done_false_without_compose() {
    let names = strings(&["dockge", "homepage"]);
    assert!(!start_stacks_done(true, false, false, Some(&names)));
}

#[test]
fn is_done_false_when_engine_missing() {
    let names = strings(&["dockge", "homepage"]);
    assert!(!start_stacks_done(false, true, true, Some(&names)));
    assert!(start_stacks_done(true, true, true, Some(&names)));
    assert!(!start_stacks_done(true, true, true, None));
}

#[test]
fn is_done_false_with_only_dockge_compose() {
    let names = strings(&["dockge", "homepage"]);
    assert!(!start_stacks_done(true, true, false, Some(&names)));
}

#[test]
fn apply_errors_without_engine() {
    let err = require_engine(false, "d2").unwrap_err();
    assert!(err.to_text().contains("requires Docker Engine"));
    assert!(require_engine(true, "d3").is_ok());
}

#[test]
fn apply_errors_when_dockge_compose_missing() {
    let err = ensure_compose(false, "Dockge", "/srv/docker/dockge").unwrap_err();
    assert!(err.to_text().contains("Dockge compose missing"));
}

#[test]
fn apply_errors_when_homepage_compose_missing() {
    let err = ensure_compose(false, "Homepage", "/srv/docker/homepage").unwrap_err();
    assert!(err.to_text().contains("Homepage compose missing"));
}

#[test]
fn d2_start_stacks_compose_present_accepts_yml() {
    assert!(ensure_compose(true, "X", "/tmp/stack").is_ok());
}

#[test]
fn d2_start_stacks_ensure_compose_errors_when_absent() {
    let err = ensure_compose(false, "X", "/tmp/x").unwrap_err();
    assert!(err.to_text().contains("X compose missing"));
}

#[test]
fn compose_util_ensure_compose_errors_when_absent() {
    let err = ensure_compose(false, "X", "/tmp/y").unwrap_err();
    assert_eq!(err.to_text(), "X compose missing under /tmp/y; run d1 first");
}

#[test]
fn compose_util_compose_present_accepts_yml() {
    assert!(ensure_compose(true, "X", "/tmp/stack").is_ok());
}

#[test]
fn stacks_running_is_bool() {
    let _ = stacks_running(&Vec::new());
}

#[test]
fn running_stacks_and_container_names() {
    assert!(stacks_running(&strings(&["Dockge-1", "homepage"])));
    assert!(!stacks_running(&strings(&["dockge"])));
    assert!(container_name_contains("EVCC", &strings(&["web", "my-evcc-1"])));
    assert!(!container_name_contains("piper", &strings(&["web"])));
}

#[test]
fn dry_run_plans_selected_stacks() {
    let mut j = StepJournal::new();
    let opts = StackOpts { dockge: true, open_webui: true, ..StackOpts::none() };
    plan_optional_stacks(&mut j, opts, "/srv/docker", "/srv/active_setup");
    assert!(j.planned.iter().any(|p| p.contains("dockge")));
    assert!(j.planned.iter().any(|p| p.contains("open-webui")));
    assert!(j.planned.iter().any(|p| p.contains("service_links")));
    assert_eq!(j.planned[0], "docker compose up -d in /srv/docker/dockge (Dockge:5001)");
    assert_eq!(j.planned.len(), 3);
}

#[test]
fn dry_run_plans_none_selected_message() {
    let mut j = StepJournal::new();
    plan_optional_stacks(&mut j, StackOpts::none(), "/srv/docker", "/srv/active_setup");
    assert!(j.planned.iter().any(|p| p.contains("no optional Docker stacks")));
}

#[test]
fn is_done_false_without_engine_or_links() {
    let stacks = vec![("Dockge:5001".to_owned(), true)];
    assert!(!optional_stacks_done(false, true, Some("Dockge:5001"), &stacks));
    assert!(!optional_stacks_done(true, false, Some("Dockge:5001"), &stacks));
    assert!(optional_stacks_done(true, true, Some("Homepage:3021,dockge:5001"), &stacks));
    assert!(!optional_stacks_done(true, true, Some("Homepage:3021"), &stacks));
    assert!(!optional_stacks_done(true, true, None, &stacks));
    // A stack without compose does not need to be linked.
    assert!(optional_stacks_done(true, true, None, &vec![("Piper:10200".to_owned(), false)]));
}

#[test]
fn apply_skips_missing_compose_and_writes_links() {
    assert_eq!(
        missing_compose_warning("whisper-cv", "/srv/docker/whisper-cv"),
        "warning: whisper-cv compose missing under /srv/docker/whisper-cv; skipping"
    );
    let stacks = StackOpts { dockge: true, whisper: true, ..StackOpts::none() };
    let links = service_links_env(stacks, EcosystemInstallChoice::both());
    let raw = links.get("LINKS").unwrap();
    assert!(raw.contains("Homepage:3021"));
    assert!(raw.contains("Dockge:5001"));
    assert!(raw.contains("Status-API:8787"));
    assert_eq!(links.get("SCHEME"), Some("http"));
    assert_eq!(links.get("HOST"), Some(""));
    let e = HortoError::msg("boom");
    assert_eq!(start_failed_warning("evcc", &e), "warning: failed to start evcc: boom; continuing");
}

// ---------------------------------------------------------------------------
// s1 / s2 / s5 / m1 / d0
// ---------------------------------------------------------------------------

#[test]
fn dry_run_plans_cockpit_port() {
    let mut j = StepJournal::new();
    plan_packages(&mut j);
    assert!(j.planned.iter().any(|p| p.contains("ListenStream=9890")));
    assert!(j.planned.iter().any(|p| p.contains("cockpit.socket")));
}

#[test]
fn configure_writes_dropin_under_etc() {
    assert_eq!(
        cockpit_dropin_path("/tmp/etc"),
        "/tmp/etc/systemd/system/cockpit.socket.d/listen.conf"
    );
    assert!(cockpit_dropin_present(true, Some("[Socket]\nListenStream=\nListenStream=9890\n")));
    assert!(!cockpit_dropin_present(true, Some("ListenStream=9090\n")));
    assert!(!cockpit_dropin_present(false, Some("ListenStream=9890\n")));
}

#[test]
fn assign_eth_logs_iot2_when_present() {
    let mut j = StepJournal::new();
    let mut map = EnvMap::new();
    let ifaces = vec![("wan".to_owned(), true), ("lan1".to_owned(), true), ("lan2".to_owned(), true)];
    assign_eth(&mut map, &mut j, &ifaces);
    assert_eq!(map.get("ETH_LAN"), Some("wan"));
    assert_eq!(map.get("ETH_IOT1"), Some("lan1"));
    assert_eq!(map.get("ETH_IOT2"), Some("lan2"));
    assert!(j.logs.iter().any(|l| l.contains("ETH_IOT2=lan2")));

    let mut map2 = EnvMap::new();
    assign_eth(&mut map2, &mut j, &[("eth0".to_owned(), false)]);
    assert_eq!(map2.get("ETH_LAN"), Some("eth0"));
    assert!(!map2.contains_key("ETH_IOT2"));
    assert!(j.logs.iter().any(|l| l.contains("ETH_IOT2=not-set")));
}

#[test]
fn eth_ifaces_from_ip_link_output() {
    let text = "1: lo: <LOOPBACK,UP,LOWER_UP> mtu 65536\n\
                2: wan: <BROADCAST,MULTICAST,UP,LOWER_UP> mtu 1500\n\
                3: lan1: <NO-CARRIER,BROADCAST,MULTICAST,UP> mtu 1500\n\
                4: wlan0: <BROADCAST,MULTICAST> mtu 1500\n\
                5: eth0@if9: <BROADCAST,LOWER_UP> mtu 1500\n";
    let rows = parse_eth_ifaces(text);
    assert_eq!(
        rows,
        vec![("wan".to_owned(), true), ("lan1".to_owned(), false), ("eth0@if9".to_owned(), true)]
    );
}

#[test]
fn env_setup_done_needs_complete_envs() {
    let os = env_of(&[
        ("MY_HOSTNAME", "box"),
        ("OS_TYPE", "debian"),
        ("NPU_TYPE", "rkRK3588"),
        ("INSTALL_TYP", "home"),
        ("IOT_LAN", "n"),
    ]);
    assert!(env_setup_done(Some(&os), None));
    assert!(!env_setup_done(None, None));
    let mut iot_os = os.clone();
    iot_os.set("IOT_LAN", "y");
    assert!(!env_setup_done(Some(&iot_os), None));
    let iot = env_of(&[("ETH_LAN", "wan"), ("ETH_IOT1", "lan1"), ("WIFI_INTERFACE", "none")]);
    assert!(env_setup_done(Some(&iot_os), Some(&iot)));
    let mut partial = os.clone();
    partial.set("OS_TYPE", " ");
    assert!(!env_setup_done(Some(&partial), None));
}

#[test]
fn os_conf_prompts_and_answers() {
    let map = env_of(&[("MY_HOSTNAME", "old-box"), ("IOT_LAN", "y")]);
    let prompts = os_conf_prompts(&map);
    assert_eq!(prompts.len(), 8);
    assert_eq!(prompts[0], ("Device hostname".to_owned(), "old-box".to_owned()));
    assert_eq!(prompts[1], ("OS type (debian/armbian)".to_owned(), "debian".to_owned()));
    assert_eq!(prompts[5], ("Enable IOT-LAN (y/n)".to_owned(), "y".to_owned()));
    assert_eq!(prompts[7].1, "");
    let mut out = map.clone();
    apply_os_conf_answers(
        &mut out,
        &OsConfAnswers {
            hostname: "new-box".into(),
            os_type: "armbian".into(),
            npu_type: "rkRK3576".into(),
            ram_size: "16gb".into(),
            install_type: "home".into(),
            iot_lan: "YES".into(),
            url: "box.example".into(),
            cloudflare_token: "".into(),
        },
    );
    assert_eq!(out.get("MY_HOSTNAME"), Some("new-box"));
    assert_eq!(out.get("IOT_LAN"), Some("y"));
    assert_eq!(out.get("RAM_SYZE"), Some("16gb"));
    assert_eq!(out.get("MY_CLOUDFLARE_TOKEN"), Some(""));
    let mut j = StepJournal::new();
    plan_env_setup(&mut j, "/srv/active_setup/os-configuration.env");
    assert_eq!(j.planned.len(), 3);
    assert!(j.planned[0].starts_with("create/update /srv/active_setup/os-configuration.env"));
}

#[test]
fn iot_package_sets() {
    assert_eq!(iot_packages(false), strings(&["dnsmasq", "iptables", "avahi-daemon"]));
    assert_eq!(iot_packages(true), strings(&["dnsmasq", "iptables", "avahi-daemon", "hostapd"]));
}

#[test]
fn plan_host_only_when_iot_env_missing() {
    let mut j = StepJournal::new();
    plan_apply_staged(&mut j, false, "/s/etc", "/etc");
    assert!(j.planned.iter().any(|p| p.contains("hosts + hostname only")));
    let mut k = StepJournal::new();
    plan_apply_staged(&mut k, true, "/s/etc", "/etc");
    assert_eq!(k.planned[0], "copy /s/etc/* -> /etc/");
}

#[test]
fn s5_errors_when_staging_missing() {
    let err = apply_staged_gate(false, false, "/srv/active_setup/etc").unwrap_err();
    assert!(err.to_text().contains("staging directory not found"));
    assert_eq!(apply_staged_gate(false, true, "/x").unwrap(), StepGate::Plan);
    assert_eq!(apply_staged_gate(true, false, "/x").unwrap(), StepGate::Run);
    assert_eq!(
        not_staged("hosts", "/s/etc/hosts").to_text(),
        "staged hosts file not found: /s/etc/hosts"
    );
}

#[test]
fn m1_apply_writes_minimal_env_without_root() {
    let env = minimal_env("horto-box").unwrap();
    assert_eq!(env.get("MY_HOSTNAME"), Some("horto-box"));
    assert_eq!(env.keys(), strings(&["MY_HOSTNAME"]));
    assert!(minimal_done(Some(&env)));
    assert!(!minimal_done(None));
    assert_eq!(minimal_env("").unwrap_err().to_text(), "MY_HOSTNAME is empty");
    assert_eq!(minimal_hostname_default(&EnvMap::new()), "Horto-OS_xxx");
    let mut j = StepJournal::new();
    plan_minimal(&mut j, "/srv/active_setup/minimal_setup_vars.env");
    assert_eq!(j.planned[2], "write /srv/active_setup/minimal_setup_vars.env with MY_HOSTNAME");
}

#[test]
fn dry_run_plans_without_install() {
    let mut j = StepJournal::new();
    let action = docker_engine_gate(&mut j, false, true, false, false).unwrap();
    assert_eq!(action, EngineAction::Planned);
    assert!(
        j.planned.iter().any(|p| p.contains("docker"))
            || j.logs.iter().any(|l| l.contains("already available"))
    );
}

#[test]
fn docker_engine_decisions() {
    let mut j = StepJournal::new();
    assert_eq!(docker_engine_gate(&mut j, true, false, false, false).unwrap(), EngineAction::Ready);
    assert_eq!(j.logs, strings(&["Docker Engine already available."]));
    let err = docker_engine_gate(&mut j, false, false, false, false).unwrap_err();
    assert!(err.to_text().starts_with("d0 requires root"));
    assert_eq!(docker_engine_gate(&mut j, false, false, true, true).unwrap(), EngineAction::Install);
    let mut k = StepJournal::new();
    docker_engine_gate(&mut k, false, true, true, true).unwrap();
    assert_eq!(k.planned, strings(&["armbian-config --cmd CON001 (install Docker Engine)"]));
}

// ---------------------------------------------------------------------------
// piper models and the lease-export cron
// ---------------------------------------------------------------------------

#[test]
fn extract_piper_archive_into_docker_root() {
    let runner = CodeRunner::new(vec![Ok(0)]);
    let mut j = StepJournal::new();
    extract_piper_archive(&mut Runs::new(&runner), &mut j, "/srv/docker/docker_repos/piper/m.tar.gz", "/srv/docker");
    assert_eq!(j.logs, strings(&["Piper models extracted under /srv/docker."]));
    let calls = runner.calls.borrow();
    assert_eq!(calls[0].0, "tar");
    assert_eq!(calls[0].1, strings(&["-xzf", "/srv/docker/docker_repos/piper/m.tar.gz", "-C", "/srv/docker"]));
}

#[test]
fn extract_piper_archive_warns_when_tar_fails() {
    let runner = CodeRunner::new(vec![Ok(2)]);
    let mut j = StepJournal::new();
    extract_piper_archive(&mut Runs::new(&runner), &mut j, "/a.tar.gz", "/root");
    assert!(j.logs.iter().any(|l| l.contains("piper model extract failed")));
    assert_eq!(
        j.logs[0],
        "warning: piper model extract failed (tar exit 2); continuing without models"
    );
}

#[test]
fn extract_piper_archive_warns_when_tar_binary_missing() {
    let runner = CodeRunner::new(vec![Err("tar: not found".into())]);
    let mut j = StepJournal::new();
    extract_piper_archive(&mut Runs::new(&runner), &mut j, "/a.tar.gz", "/root");
    assert_eq!(
        j.logs[0],
        "warning: piper model extract failed (tar: not found); continuing without models"
    );
}

#[test]
fn piper_download_then_extract_or_warn() {
    assert_eq!(piper_dir("/srv/docker"), "/srv/docker/docker_repos/piper");
    let ok = CodeRunner::new(vec![Ok(0), Ok(0)]);
    let mut j = StepJournal::new();
    download_piper_models(&mut Runs::new(&ok), &mut j, "/srv/docker/docker_repos/piper", "/srv/docker");
    assert_eq!(j.logs[0], "Downloading piper models...");
    assert_eq!(j.logs[1], "Piper models extracted under /srv/docker.");
    assert_eq!(ok.calls.borrow()[0].0, "wget");
    assert_eq!(ok.calls.borrow()[0].1[1], "/srv/docker/docker_repos/piper/piper-rk3576-models.tar.gz");

    let missing = CodeRunner::new(vec![Err("wget: not found".into())]);
    let mut k = StepJournal::new();
    download_piper_models(&mut Runs::new(&missing), &mut k, "/p", "/r");
    assert_eq!(
        k.logs[1],
        "warning: piper model download failed or wget missing; continuing without models"
    );
    assert_eq!(missing.calls.borrow().len(), 1);
}

#[test]
fn install_cron_writes_under_etc() {
    let file = cron_file_path("/tmp/etc");
    assert_eq!(file, "/tmp/etc/cron.d/export_dhcp_leases");
    assert!(export_cron_body("horto").contains("export-leases"));
    assert_eq!(
        cron_installed_message(&file, "horto"),
        "cron job installed in /tmp/etc/cron.d/export_dhcp_leases (every minute: horto net export-leases)"
    );
}

#[test]
fn written_links_satisfy_the_d3_done_check() {
    let opts = StackOpts { dockge: true, piper: true, openwakeword: true, ..StackOpts::none() };
    let env = service_links_env(opts, EcosystemInstallChoice::none());
    let links = env.get("LINKS");
    let stacks: Vec<(String, bool)> =
        opts.selected().iter().map(|s| (s.link.to_owned(), true)).collect();
    assert_eq!(stacks.len(), 3);
    assert!(optional_stacks_done(true, true, links, &stacks));
}

#[test]
fn stored_os_answers_pass_the_s2_done_check() {
    let mut map = EnvMap::new();
    let answers = OsConfAnswers {
        hostname: "box".into(),
        os_type: "debian".into(),
        npu_type: "none".into(),
        ram_size: "8gb".into(),
        install_type: "home".into(),
        iot_lan: "no".into(),
        url: "x.net".into(),
        cloudflare_token: "".into(),
    };
    apply_os_conf_answers(&mut map, &answers);
    assert!(env_setup_done(Some(&map), None));
    let mut iot_map = EnvMap::new();
    apply_os_conf_answers(&mut iot_map, &OsConfAnswers { iot_lan: "y".into(), ..answers });
    assert!(!env_setup_done(Some(&iot_map), None));
}

#[test]
fn planned_mode_is_the_staged_mode() {
    for (full, minimal, os) in [(true, false, false), (false, true, true), (false, false, true), (false, false, false)] {
        let planned = detect_mode(full, minimal, os, SetupKind::Minimal);
        let found = first_setup_file(full, minimal, os).map(|f| (f, EnvMap::new()));
        let (mode, _) = load_vars(found, true, SetupKind::Minimal).unwrap();
        assert_eq!(planned, mode);
    }
}

#[test]
fn s2_apply_ethernet_only_skips_wifi_ssid() {
    let mut j = StepJournal::new();
    let mut map = env_of(&[("MY_HOSTNAME", "eth-only"), ("WIFI_SSID", "old")]);
    assert_eq!(wifi_iface_default(&map), "none");
    assert!(!apply_wifi_choice(&mut map, &mut j, "none"));
    assert_eq!(map.get("WIFI_INTERFACE"), Some("none"));
    assert_eq!(map.get("WIFI_SSID"), Some(""));
    assert!(j.logs.iter().any(|l| l.contains("Ethernet-only IoT-LAN")));
    assign_eth(&mut map, &mut j, &[("wan".to_owned(), true), ("lan1".to_owned(), true)]);
    assert!(map.contains_key("ETH_LAN"));
    assert!(map.contains_key("ETH_IOT1"));
    assert!(check_iot_env(&map).is_ok());
}

#[test]
fn s2_apply_writes_env_on_temp_paths() {
    let mut j = StepJournal::new();
    let mut map = EnvMap::new();
    assert!(apply_wifi_choice(&mut map, &mut j, " wlan0 "));
    assert_eq!(map.get("WIFI_INTERFACE"), Some("wlan0"));
    assert!(j.logs.is_empty());
    let (ssid, pass) = wifi_secret_defaults(&map);
    assert_eq!((ssid.as_str(), pass.as_str()), ("Horto-IoT-LAN", ""));
    map.set("ETH_LAN", "wan");
    map.set("ETH_IOT1", "lan1");
    assert_eq!(check_iot_env(&map).unwrap_err().to_text(), "missing required keys: WIFI_SSID");
    map.set("WIFI_SSID", "TestSSID");
    assert!(check_iot_env(&map).is_ok());
    assert_eq!(map.get("WIFI_SSID"), Some("TestSSID"));
}

#[test]
fn wifi_answers_normalize() {
    assert_eq!(normalize_wifi_iface(""), "none");
    assert_eq!(normalize_wifi_iface(" NONE "), "none");
    assert_eq!(normalize_wifi_iface("wlan1"), "wlan1");
    assert_eq!(
        check_iot_env(&EnvMap::new()).unwrap_err().to_text(),
        "missing required keys: ETH_LAN, ETH_IOT1, WIFI_INTERFACE"
    );
}

#[test]
fn validate_configs_passes_and_asks_for_hostapd_as_root() {
    let checks = checks_for("/etc", true, "127.0.0.1 box\n");
    let mut j = StepJournal::new();
    assert_eq!(validate_configs(&mut j, &checks, &NetplanCheck::Generated, true).unwrap(), true);
    let n = j.logs.len();
    assert_eq!(j.logs[n - 3], "OK: netplan generate succeeded");
    assert_eq!(j.logs[n - 2], "Enabling hostapd...");
    assert_eq!(j.logs[n - 1], "Step s6 complete: configuration validation passed.");
    assert!(j.planned.is_empty());

    let mut j2 = StepJournal::new();
    assert_eq!(validate_configs(&mut j2, &checks, &NetplanCheck::NotRoot, false).unwrap(), false);
    assert_eq!(
        j2.logs[j2.logs.len() - 2],
        "Not root; skip hostapd unmask/enable/start (avoids polkit prompts)."
    );
}

#[test]
fn validate_configs_fails_on_placeholder_or_netplan() {
    let bad = checks_for("/etc", true, "{{MY_HOSTNAME}}\n");
    let mut j = StepJournal::new();
    let err = validate_configs(&mut j, &bad, &NetplanCheck::Generated, true).unwrap_err();
    assert_eq!(err.to_text(), "Step s6 failed: configuration validation found errors");
    assert_eq!(j.logs.last().unwrap(), "OK: netplan generate succeeded");

    let good = checks_for("/etc", true, "127.0.0.1 box\n");
    let mut j2 = StepJournal::new();
    assert!(validate_configs(&mut j2, &good, &NetplanCheck::GenerateFailed, true).is_err());
    assert_eq!(j2.logs.last().unwrap(), "ERROR: netplan generate failed");
}

#[test]
fn validation_and_activation_start_gate() {
    let mut j = StepJournal::new();
    assert!(!validation_start(&mut j, false, true));
    assert_eq!(j.planned.len(), 3);
    assert!(j.logs.is_empty());
    let mut j2 = StepJournal::new();
    assert!(!validation_start(&mut j2, false, false));
    assert_eq!(j2.logs, strings(&["s6 only needed for IoT-LAN (full) setup; skipping"]));
    let mut j3 = StepJournal::new();
    assert!(validation_start(&mut j3, true, false));
    assert!(j3.logs.is_empty() && j3.planned.is_empty());

    let mut a = StepJournal::new();
    assert_eq!(activation_start(&mut a, true, true, true), None);
    assert_eq!(a.planned.len(), 5);
    let mut a2 = StepJournal::new();
    assert_eq!(activation_start(&mut a2, false, false, true), None);
    assert_eq!(a2.logs, strings(&["s7 only needed for IoT-LAN (full) setup; skipping"]));
    let mut a3 = StepJournal::new();
    assert_eq!(activation_start(&mut a3, true, false, true), Some(ActivationPath::Activate));
    assert!(a3.logs.is_empty());
    let mut a4 = StepJournal::new();
    assert_eq!(activation_start(&mut a4, true, false, false), Some(ActivationPath::LeasesOnly));
    assert_eq!(a4.logs.len(), 1);
}

#[test]
fn stage_step_loads_then_plans() {
    let vars = env_of(&[("MY_HOSTNAME", "box")]);
    let (mode, plan) = stage_step(Some((SetupFile::MinimalEnv, vars)), false, SetupKind::Minimal).unwrap();
    assert_eq!(mode, "minimal");
    assert!(plan.error.is_none());
    assert_eq!(plan.items.len(), 3);

    let err = match stage_step(None, false, SetupKind::Full) {
        Err(e) => e,
        Ok(_) => panic!("expected the missing setup file error"),
    };
    assert_eq!(err.to_text(), "no active setup file found; run s2 or m1 first");

    let (mode, plan) = stage_step(None, true, SetupKind::Full).unwrap();
    assert_eq!(mode, "full");
    assert!(plan.error.is_none());

    let (_, missing) = stage_step(Some((SetupFile::FullEnv, EnvMap::new())), false, SetupKind::Full).unwrap();
    assert!(missing.error.is_some());
    assert!(missing.items.is_empty());
}
