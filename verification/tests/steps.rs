use horto_os_ui_shared::envfile::{parse, require_keys, set_key, wifi_ap_enabled, EnvMap};
use horto_os_ui_shared::remote::ecosystem::EcosystemInstallChoice;
use horto_os_ui_shared::resume::{
    is_stale, mark_failed_now, status_for, status_for_id, ResumeState, StepStatus,
};
use horto_os_ui_shared::stack_opts::StackOpts;
use horto_os_ui_shared::step::{SetupKind, Step};
use horto_os_ui_shared::steps::{
    build_service_links_csv, file_mode_for_staged, iot_env_complete, is_candidate_eth,
    normalize_npu_type, normalize_yn, parse_default_wan_iface, pick_eth, stack_dir,
    wants_iot_lan, M1Minimal, D0DockerEngine, D1Docker, D2StartStacks, D3OptionalStacks, S1Packages,
    S5Apply, S6Validate, S7Activate, COCKPIT_SOCKET_DROPIN, S1_PACKAGES,
};

#[test]
fn trait_defaults_are_stable() {
    // m1 keeps every trait default.
    let step = M1Minimal;
    assert_eq!(step.schema_version(), 1);
    assert!(step.depends_on().is_empty());
    assert!(!step.needs_reboot_after());
    assert!(!step.destructive());
    assert_eq!(step.id(), "m1");
    assert_eq!(step.title(), "Minimal: cockpit + hostname env");
    assert_eq!(step.reference_script(), "m1_minimal_setup_run.sh");
    assert_eq!(step.step_version(), 1);
}

#[test]
fn d0_docker_engine_metadata_is_stable() {
    let step = D0DockerEngine;
    assert_eq!(step.id(), "d0");
    assert_eq!(step.reference_script(), "d0_docker_engine.sh");
    assert_eq!(step.step_version(), 1);
    assert!(step.depends_on().is_empty());
    assert!(!step.title().is_empty());
}

#[test]
fn npu_aliases_map_to_stack_folders() {
    assert_eq!(normalize_npu_type("rkRK3588"), "rk3588");
    assert_eq!(normalize_npu_type("rk3588"), "rk3588");
    assert_eq!(normalize_npu_type("RK3588"), "rk3588");
    assert_eq!(normalize_npu_type("rkRK3576"), "rk3576");
    assert_eq!(normalize_npu_type("RK3576"), "rk3576");
    assert_eq!(normalize_npu_type("rk3576"), "rk3576");
    assert_eq!(normalize_npu_type("none"), "none");
    assert_eq!(normalize_npu_type(""), "none");
    assert_eq!(normalize_npu_type("no_wyoming"), "no_wyoming");
    assert_eq!(normalize_npu_type("custom"), "custom");
}

#[test]
fn d1_docker_trait_metadata_is_stable() {
    let step = D1Docker;
    assert_eq!(step.id(), "d1");
    assert_eq!(step.reference_script(), "d1_docker_init.sh");
    assert_eq!(step.step_version(), 3);
    assert_eq!(step.depends_on(), &["d0"]);
    assert!(!step.title().is_empty());
    assert!(!step.needs_reboot_after());
    assert!(!step.destructive());
}

#[test]
fn d2_start_stacks_metadata_is_stable() {
    let step = D2StartStacks;
    assert_eq!(step.id(), "d2");
    assert_eq!(step.depends_on(), &["d1"]);
    assert_eq!(step.step_version(), 1);
    assert_ne!(step.title(), "");
    assert_eq!(step.reference_script(), "d2_start_stacks.sh");
}

#[test]
fn links_csv_always_homepage_cockpit() {
    let csv = build_service_links_csv(StackOpts::none(), EcosystemInstallChoice::none());
    assert_eq!(csv, "Homepage:3021,Cockpit:9890");
}

#[test]
fn links_csv_includes_ecosystem_and_stacks() {
    let stacks = StackOpts { dockge: true, evcc: true, ..StackOpts::none() };
    let csv = build_service_links_csv(stacks, EcosystemInstallChoice::both());
    assert!(csv.contains("Status-API:8787"));
    assert!(csv.contains("MCP:8790"));
    assert!(csv.contains("Dockge:5001"));
    assert!(csv.contains("EVCC:7070"));
    assert_eq!(csv, "Homepage:3021,Cockpit:9890,Status-API:8787,MCP:8790,Dockge:5001,EVCC:7070");
}

#[test]
fn metadata_stable() {
    assert_eq!(D3OptionalStacks.id(), "d3");
    assert_eq!(D3OptionalStacks.depends_on(), &["d2"]);
    assert_eq!(stack_dir("/srv/docker", "evcc"), "/srv/docker/evcc");
}

#[test]
fn package_list_matches_script() {
    assert_eq!(S1_PACKAGES, ["cockpit", "cockpit-networkmanager"]);
}

#[test]
fn dropin_body_clears_and_sets_9890() {
    assert!(COCKPIT_SOCKET_DROPIN.contains("ListenStream=\n"));
    assert!(COCKPIT_SOCKET_DROPIN.contains("ListenStream=9890"));
}

#[test]
fn step_version_bumped_for_listen_port() {
    assert_eq!(S1Packages.step_version(), 3);
}

fn env_of(pairs: &[(&str, &str)]) -> EnvMap {
    let mut m = EnvMap::new();
    for (k, v) in pairs {
        set_key(&mut m, k, v);
    }
    m
}

#[test]
fn iot_lan_flag_parsing() {
    let mut m = EnvMap::new();
    m.set("IOT_LAN", "y");
    assert!(wants_iot_lan(&m));
    m.set("IOT_LAN", "yes");
    assert!(wants_iot_lan(&m));
    m.set("IOT_LAN", "n");
    assert!(!wants_iot_lan(&m));
    assert_eq!(normalize_yn("YES"), "y");
    assert_eq!(normalize_yn("no"), "n");
}

#[test]
fn iot_env_complete_allows_wifi_none() {
    let mut m = env_of(&[("ETH_LAN", "wan"), ("ETH_IOT1", "lan1"), ("WIFI_INTERFACE", "none")]);
    assert!(iot_env_complete(&m));
    m.set("WIFI_INTERFACE", "wlan0");
    assert!(!iot_env_complete(&m));
    m.set("WIFI_SSID", "Horto-IoT-LAN");
    assert!(iot_env_complete(&m));
}

#[test]
fn candidate_eth_includes_horto_names() {
    assert!(is_candidate_eth("wan"));
    assert!(is_candidate_eth("lan1"));
    assert!(is_candidate_eth("lan2"));
    assert!(is_candidate_eth("eth0"));
    assert!(is_candidate_eth("enp1s0"));
    assert!(!is_candidate_eth("lo"));
    assert!(!is_candidate_eth("wlan0"));
    assert!(!is_candidate_eth("docker0"));
    assert!(!is_candidate_eth("br0"));
}

fn ifs(v: &[(&str, bool)]) -> Vec<(String, bool)> {
    v.iter().map(|(n, u)| ((*n).to_owned(), *u)).collect()
}

#[test]
fn pick_eth_prefers_wan_and_lan_on_r6s() {
    let (eth0, eth1, eth2) = pick_eth(&ifs(&[("lan2", true), ("wan", true), ("lan1", false)]));
    assert_eq!(eth0, "wan");
    assert_eq!(eth1, "lan1");
    assert_eq!(eth2.as_deref(), Some("lan2"));
}

#[test]
fn pick_eth_uses_first_active_when_no_wan_lan() {
    let (eth0, eth1, eth2) = pick_eth(&ifs(&[("enp1s0", false), ("eth0", true), ("eth1", false)]));
    assert_eq!(eth0, "eth0");
    assert_eq!(eth1, "enp1s0");
    assert_eq!(eth2.as_deref(), Some("eth1"));
}

#[test]
fn pick_eth_falls_back_when_none_up() {
    let (eth0, eth1, eth2) = pick_eth(&ifs(&[("eth0", false), ("eth1", false), ("eth2", false)]));
    assert_eq!(eth0, "eth0");
    assert_eq!(eth1, "eth1");
    assert_eq!(eth2.as_deref(), Some("eth2"));
}

#[test]
fn pick_eth_empty_defaults_to_wan_lan1() {
    let (eth0, eth1, eth2) = pick_eth(&[]);
    assert_eq!(eth0, "wan");
    assert_eq!(eth1, "lan1");
    assert!(eth2.is_none());
}

#[test]
fn pick_eth_single_lan_has_no_second_port() {
    let (eth0, eth1, eth2) = pick_eth(&ifs(&[("wan", true), ("lan3", true)]));
    assert_eq!(eth0, "wan");
    assert_eq!(eth1, "lan3");
    assert!(eth2.is_none());
}

#[test]
fn iot_env_complete_false_without_eth_keys() {
    let m = env_of(&[("WIFI_INTERFACE", "none")]);
    assert!(!iot_env_complete(&m));
}

#[test]
fn netplan_files_get_mode_640() {
    assert_eq!(file_mode_for_staged("netplan/99-iot.yaml"), 0o640);
    assert_eq!(file_mode_for_staged("hostname"), 0o644);
    assert_eq!(file_mode_for_staged("dnsmasq.d/iot.conf"), 0o644);
}

#[test]
fn s5_metadata_reboot_and_destructive() {
    assert!(S5Apply.needs_reboot_after());
    assert!(S5Apply.destructive());
    assert_eq!(S5Apply.depends_on(), &["s4"]);
}

#[test]
fn s6_validate_trait_metadata_is_stable() {
    let step = S6Validate;
    assert_eq!(step.id(), "s6");
    assert_eq!(step.reference_script(), "s6_validate_configs.sh");
    assert_eq!(step.step_version(), 1);
    assert_eq!(step.depends_on(), &["s5"]);
    assert!(!step.title().is_empty());
    assert!(!step.needs_reboot_after());
    assert!(!step.destructive());
}

#[test]
fn parse_wan_from_ip_route() {
    assert_eq!(parse_default_wan_iface("default via 1.1.1.1 dev eth0 proto dhcp"), Some("eth0".into()));
    assert!(parse_default_wan_iface("unreachable default").is_none());
}

#[test]
fn s7_activate_trait_metadata_is_stable() {
    let step = S7Activate;
    assert_eq!(step.id(), "s7");
    assert_eq!(step.reference_script(), "s7_activate_services.sh");
    assert_eq!(step.step_version(), 3);
    assert_eq!(step.depends_on(), &["s6"]);
    assert_ne!(step.title(), "");
}

#[test]
fn parse_default_wan_iface_handles_multiple_hops() {
    assert_eq!(
        parse_default_wan_iface("default via 10.0.0.1 dev enp2s0 proto static"),
        Some("enp2s0".into())
    );
    assert_eq!(parse_default_wan_iface(""), None);
    assert_eq!(parse_default_wan_iface("dev"), None);
}

#[test]
fn stale_when_binary_newer() {
    assert!(is_stale(1, 2));
    assert!(!is_stale(2, 2));
    assert!(!is_stale(3, 2));
}

#[test]
fn resume_record_replaces_and_reports_status() {
    let mut state = ResumeState::default();
    assert_eq!(status_for(&state, &S1Packages), StepStatus::Pending);
    state.record("s1", 2, "2024-01-01T00:00:00Z", true);
    assert_eq!(status_for(&state, &S1Packages), StepStatus::Stale);
    state.record_ok(&S1Packages, "2024-01-02T00:00:00Z");
    assert_eq!(status_for(&state, &S1Packages), StepStatus::Done);
    assert_eq!(state.steps.len(), 1);
    state.mark_failed("s1", 3, "2024-01-03T00:00:00Z");
    assert_eq!(status_for(&state, &S1Packages), StepStatus::Failed);
    state.record("s2", 3, "2024-01-03T00:00:00Z", true);
    assert_eq!(status_for_id(&state, "s2", 3), StepStatus::Done);
    assert_eq!(status_for_id(&state, "s1", 3), StepStatus::Failed);
    assert_eq!(state.steps.len(), 2);
}

#[test]
fn setup_kind_as_str() {
    assert_eq!(SetupKind::Full.as_str(), "full");
    assert_eq!(SetupKind::Minimal.as_str(), "minimal");
}

#[test]
fn envfile_require_and_parse_edges() {
    let mut map = parse("# comment\nFOO=bar\nexport BAZ=\"qux\"\nEMPTY=\nNOEQ\nKEY=val # trail\n");
    assert_eq!(map.get("FOO"), Some("bar"));
    assert_eq!(map.get("BAZ"), Some("qux"));
    assert!(map.get("NOEQ").is_none());
    set_key(&mut map, "NEW", "1");
    require_keys(&map, &["FOO", "NEW"]).unwrap();
    let err = require_keys(&map, &["MISSING"]).unwrap_err();
    assert!(err.to_text().contains("MISSING") || err.to_text().contains("missing"));
}

#[test]
fn envfile_set_replaces_value_and_wifi_flag() {
    let mut m = EnvMap::new();
    m.set("A", "1");
    m.set("B", "2");
    m.set("A", "3");
    assert_eq!(m.get("A"), Some("3"));
    assert_eq!(m.get("B"), Some("2"));
    assert_eq!(m.keys(), vec!["B".to_owned(), "A".to_owned()]);
    assert!(!wifi_ap_enabled(&m));
    m.set("WIFI_INTERFACE", " NONE ");
    assert!(!wifi_ap_enabled(&m));
    m.set("WIFI_INTERFACE", "wlan0");
    assert!(wifi_ap_enabled(&m));
}

#[test]
fn mark_failed_now_stamps_utc_rfc3339() {
    let mut state = ResumeState::default();
    mark_failed_now(&mut state, "s1", 2);
    let last = state.steps.last().unwrap();
    assert_eq!(last.id, "s1");
    assert_eq!(last.step_version, 2);
    assert!(!last.ok);
    assert!(last.completed_at.len() >= 20);
    assert!(last.completed_at.ends_with('Z'));
    assert_eq!(&last.completed_at[10..11], "T");
}
