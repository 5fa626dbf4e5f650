use horto_os_ui_shared::error::HortoError;
use horto_os_ui_shared::remote::arch::{box_arch_from_uname, BoxArch};
use horto_os_ui_shared::remote::bins::{
    asset_name, bins_from_presence, cache_bin_dir, default_release_tag, release_download_url,
    release_tag_is_immutable, BOX_BIN_NAMES,
};
use horto_os_ui_shared::remote::ecosystem::{
    parse_api_token_line, remote_enable_ecosystem_script, unit_with_install_dir,
    EcosystemInstallChoice, API_TOKEN_DROP_BASENAME, MCP_UNIT, STATUS_API_UNIT,
};
use horto_os_ui_shared::remote::host::{
    merge_known_remote_hosts, parse_host_spec, parse_hosts_file_names,
    parse_ssh_config_host_aliases, ssh_host_is_lan, SshConfigHost,
};
use horto_os_ui_shared::remote::ip::is_private_or_link_local_ip;
use horto_os_ui_shared::remote::process::{require_ok, CommandOutput};
use horto_os_ui_shared::secret::{redact_secret, wipe_secret};
use horto_os_ui_shared::stack_opts::StackOpts;
use horto_os_ui_shared::text::{int_to_string, join_strings, replace_str, trim_str};

#[test]
fn maps_common_unames() {
    assert_eq!(box_arch_from_uname("x86_64\n").unwrap(), BoxArch::Amd64);
    assert_eq!(box_arch_from_uname("amd64").unwrap(), BoxArch::Amd64);
    assert_eq!(box_arch_from_uname("aarch64").unwrap(), BoxArch::Arm64);
    assert_eq!(box_arch_from_uname("arm64").unwrap(), BoxArch::Arm64);
}

#[test]
fn rejects_unknown() {
    assert!(box_arch_from_uname("riscv64").is_err());
    assert!(box_arch_from_uname("").is_err());
}

#[test]
fn triples_match_release_assets() {
    assert_eq!(BoxArch::Amd64.target_triple(), "x86_64-unknown-linux-gnu");
    assert_eq!(BoxArch::Arm64.target_triple(), "aarch64-unknown-linux-gnu");
    assert_eq!(BoxArch::Amd64.cache_label(), "amd64");
    assert_eq!(BoxArch::Arm64.cache_label(), "arm64");
}

#[test]
fn asset_and_url_shape() {
    let name = asset_name("0.1.0", BoxArch::Amd64);
    assert_eq!(name, "horto-os-ui-0.1.0-x86_64-unknown-linux-gnu.tar.gz");
    assert_eq!(default_release_tag("0.1.0"), "v0.1.0");
    let url = release_download_url("Hortos-Network/horto-os-ui", "v0.1.0", "0.1.0", BoxArch::Arm64);
    assert!(url.contains("/download/v0.1.0/"));
    assert!(url.ends_with("aarch64-unknown-linux-gnu.tar.gz"));
    let tip = release_download_url(
        "Hortos-Network/horto-os-ui",
        "dev-preview",
        "0.1.0",
        BoxArch::Amd64,
    );
    assert!(tip.contains("/download/dev-preview/"));
    assert!(tip.contains("horto-os-ui-0.1.0-x86_64-unknown-linux-gnu.tar.gz"));
    assert!(release_tag_is_immutable("v0.1.0"));
    assert!(release_tag_is_immutable("v1.2.3-rc.1"));
    assert!(!release_tag_is_immutable("dev-preview"));
    assert!(!release_tag_is_immutable("latest"));
    assert!(!release_tag_is_immutable("0.1.0"));
}

#[test]
fn cache_dir_and_presence() {
    assert_eq!(
        cache_bin_dir("/home/u/.cache/horto-os-ui/remote-bins", "v0.1.0", "0.1.0", BoxArch::Arm64),
        "/home/u/.cache/horto-os-ui/remote-bins/v0.1.0/0.1.0/arm64"
    );
    assert_eq!(cache_bin_dir("/c/", "t", "v", BoxArch::Amd64), "/c/t/v/amd64");
    assert_eq!(cache_bin_dir("r", "/x", "1", BoxArch::Amd64), "/x/1/amd64");
    let ok = bins_from_presence("/b", true, true, true, false).unwrap();
    assert_eq!(ok.cli, "/b/horto-os-ui");
    assert_eq!(ok.status_api, "/b/horto-os-ui-status-api");
    assert!(ok.mcp.is_none());
    let with_mcp = bins_from_presence("/b", true, true, true, true).unwrap();
    assert_eq!(with_mcp.mcp.as_deref(), Some("/b/horto-os-ui-mcp"));
    let err = bins_from_presence("/b", true, false, true, true).unwrap_err();
    assert!(err.to_text().contains("/b/horto-os-ui-tui"));
    assert_eq!(BOX_BIN_NAMES.len(), 4);
}

#[test]
fn unit_rewrite_custom_prefix() {
    let u = unit_with_install_dir(STATUS_API_UNIT, "/opt/horto/bin");
    assert!(u.contains("/opt/horto/bin/horto-os-ui-status-api"));
    assert!(!u.contains("/usr/local/bin/horto-os-ui-status-api"));
    let m = unit_with_install_dir(MCP_UNIT, "/opt/horto/bin");
    assert!(m.contains("/opt/horto/bin/horto-os-ui-mcp"));
    assert!(MCP_UNIT.contains("horto-os-ui-status-api.service"));
}

#[test]
fn unit_rewrite_default_prefix_keeps_unit() {
    assert_eq!(unit_with_install_dir(STATUS_API_UNIT, "/usr/local/bin/"), STATUS_API_UNIT);
}

#[test]
fn remote_enable_script_mentions_both_units_and_mcp_bin() {
    let both = EcosystemInstallChoice { status_api: true, mcp: true };
    let s = remote_enable_ecosystem_script("/tmp/stage", "/usr/local/bin", both);
    assert!(s.contains("horto-os-ui-status-api.service"));
    assert!(s.contains("horto-os-ui-mcp.service"));
    assert!(s.contains("horto-os-ui-mcp"));
    assert!(s.contains("enable --now horto-os-ui-mcp.service"));
    assert!(!s.contains("sudo sed"));
}

#[test]
fn remote_enable_script_api_only_skips_mcp_unit() {
    let api = EcosystemInstallChoice { status_api: true, mcp: false };
    let s = remote_enable_ecosystem_script("/tmp/stage", "/usr/local/bin", api);
    assert!(s.contains("horto-os-ui-status-api.service"));
    assert!(!s.contains("horto-os-ui-mcp.service"));
}

#[test]
fn remote_enable_script_custom_prefix_restarts() {
    let both = EcosystemInstallChoice { status_api: true, mcp: true };
    let s = remote_enable_ecosystem_script("/tmp/stage", "/opt/horto/bin", both);
    assert!(s.contains("/opt/horto/bin/horto-os-ui-mcp"));
    assert!(s.contains("restart horto-os-ui-mcp.service"));
}

#[test]
fn remote_enable_script_mcp_only_skips_api_token() {
    let mcp = EcosystemInstallChoice { status_api: false, mcp: true };
    let s = remote_enable_ecosystem_script("/tmp/stage", "/usr/local/bin", mcp);
    assert!(!s.contains("openssl rand"));
    assert!(!s.contains(API_TOKEN_DROP_BASENAME));
    assert!(s.contains("horto-os-ui-mcp.service"));
    assert!(!s.contains("enable --now horto-os-ui-status-api.service"));
}

#[test]
fn remote_enable_script_exact_install_line() {
    let none = EcosystemInstallChoice::none();
    let s = remote_enable_ecosystem_script("/tmp/stage/", "/usr/local/bin", none);
    assert_eq!(
        s,
        "sudo install -m 755 /tmp/stage/horto-os-ui /tmp/stage/horto-os-ui-tui /usr/local/bin/ && sudo systemctl daemon-reload"
    );
}

#[test]
fn parse_api_token_line_accepts_and_rejects() {
    assert_eq!(parse_api_token_line("HORTO_API_TOKEN=aabb\n").as_deref(), Some("aabb"));
    assert_eq!(parse_api_token_line("deadbeef\n").as_deref(), Some("deadbeef"));
    assert!(parse_api_token_line("").is_none());
    assert!(parse_api_token_line("HORTO_API_TOKEN=\n").is_none());
    assert!(parse_api_token_line("not-hex!\n").is_none());
}

#[test]
fn choice_helpers() {
    assert!(!EcosystemInstallChoice::none().any());
    assert!(EcosystemInstallChoice { status_api: true, mcp: false }.any());
    assert!(EcosystemInstallChoice { status_api: false, mcp: true }.any());
    assert!(EcosystemInstallChoice::both().any());
}

#[test]
fn accepts_alias_and_user_host() {
    assert_eq!(parse_host_spec(" horto-box ").unwrap().raw, "horto-box");
    assert_eq!(parse_host_spec("greg@192.168.1.10").unwrap().raw, "greg@192.168.1.10");
}

#[test]
fn rejects_empty_or_spaces() {
    assert!(parse_host_spec("").is_err());
    assert!(parse_host_spec("  ").is_err());
    assert!(parse_host_spec("bad host").is_err());
}

#[test]
fn parses_hosts_file_keeps_lan_drops_loopback() {
    let text = "127.0.0.1\tlocalhost\n127.0.1.1\tdeb\n#10.20.33.233\tcasper-box\n192.168.0.3\tdebby.local\n192.168.0.242\thorto\n::1\tlocalhost ip6-localhost ip6-loopback\nfe80::1\tlinklocal\n";
    let names = parse_hosts_file_names(text);
    assert_eq!(names, vec!["debby.local".to_owned(), "horto".to_owned()]);
}

#[test]
fn parses_ssh_config_aliases_skips_wildcards() {
    let text = "Host *\n  IdentityFile ~/.ssh/id_ed25519\n\nHost horto\n  HostName horto\n  User greg\n\nHost verq_pre_prod box?\n  User groussac\n";
    let names = parse_ssh_config_host_aliases(text);
    assert_eq!(names, vec!["horto".to_owned(), "verq_pre_prod".to_owned()]);
}

#[test]
fn merge_keeps_lan_drops_internet_ssh_alias() {
    let hosts = "192.168.0.242 horto\n192.168.0.3 debby.local\n";
    let ssh = "Host horto\n  HostName horto\n  User greg\n\nHost verq_pre_prod\n  HostName verq.example.com\n  User groussac\n\nHost lab\n  HostName 10.0.0.5\n";
    let list = merge_known_remote_hosts(hosts, &[ssh]);
    let names: Vec<_> = list.iter().map(|h| h.name.as_str()).collect();
    assert_eq!(names, vec!["localhost", "debby.local", "horto", "lab"]);
    assert!(!names.contains(&"verq_pre_prod"));
    let horto = list.iter().find(|h| h.name == "horto").unwrap();
    assert!(horto.in_hosts_file && horto.in_ssh_config);
    let lab = list.iter().find(|h| h.name == "lab").unwrap();
    assert!(!lab.in_hosts_file && lab.in_ssh_config);
    assert_eq!(list[0].name, "localhost");
}

#[test]
fn merge_always_includes_localhost_first() {
    let list = merge_known_remote_hosts("", &[]);
    assert_eq!(list.len(), 1);
    assert_eq!(list[0].name, "localhost");
}

#[test]
fn merge_drops_duplicate_localhost_and_sorts() {
    let list = merge_known_remote_hosts("10.0.0.9 zeta\n10.0.0.8 alpha\n", &["Host localhost\n  HostName 127.0.0.1\nHost alpha\n"]);
    let names: Vec<_> = list.iter().map(|h| h.name.as_str()).collect();
    assert_eq!(names, vec!["localhost", "alpha", "zeta"]);
    assert!(list[1].in_hosts_file && list[1].in_ssh_config);
}

#[test]
fn private_ip_and_lan_helpers() {
    assert!(is_private_or_link_local_ip("10.0.0.1"));
    assert!(is_private_or_link_local_ip("192.168.1.1"));
    assert!(!is_private_or_link_local_ip("8.8.8.8"));
    assert!(!is_private_or_link_local_ip("not-an-ip"));
    let lan = SshConfigHost { alias: "lab".into(), host_name: "10.1.2.3".into() };
    assert!(ssh_host_is_lan(&lan, &[]));
    let wan = SshConfigHost { alias: "edge".into(), host_name: "edge.example.com".into() };
    assert!(!ssh_host_is_lan(&wan, &[]));
    assert!(ssh_host_is_lan(&wan, &["edge".into()]));
}

#[test]
fn command_output_success() {
    assert!(CommandOutput { status: 0, stdout: String::new(), stderr: String::new() }.success());
    assert!(!CommandOutput { status: 1, stdout: String::new(), stderr: String::new() }.success());
}

#[test]
fn require_ok_formats_exit_and_detail() {
    let out = CommandOutput { status: 3, stdout: " out ".into(), stderr: "  ".into() };
    let err = require_ok("tar", &out).unwrap_err();
    assert_eq!(err.to_text(), "tar failed: exit 3: out");
    let out2 = CommandOutput { status: -1, stdout: "x".into(), stderr: " boom \n".into() };
    assert_eq!(require_ok("curl", &out2).unwrap_err().to_text(), "curl failed: exit -1: boom");
    assert!(require_ok("curl", &CommandOutput { status: 0, stdout: String::new(), stderr: "w".into() }).is_ok());
}

#[test]
fn wipe_secret_empties() {
    let mut s = String::from("hunter2");
    wipe_secret(&mut s);
    assert_eq!(s, "");
}

#[test]
fn redact_replaces_and_skips_short() {
    assert_eq!(redact_secret("pw=sekret ok", "sekret"), "pw=******** ok");
    assert_eq!(redact_secret("ab x", "a"), "ab x");
}

#[test]
fn redacted_text_no_longer_holds_the_secret() {
    let out = redact_secret("pw=hunter2 again hunter2hunter2", "hunter2");
    assert!(!out.contains("hunter2"));
    assert_eq!(out, "pw=******** again ****************");
}

#[test]
fn parse_and_csv_roundtrip() {
    let opts = StackOpts::parse_csv("dockge, Open-WebUI ,whisper-cv,deepseek-npu");
    assert!(opts.dockge);
    assert!(opts.open_webui);
    assert!(opts.whisper);
    assert!(opts.deepseek);
    assert!(!opts.evcc);
    assert_eq!(opts.to_csv(), "dockge,open-webui,whisper,deepseek");
}

#[test]
fn parse_aliases_and_ignore_unknown() {
    let opts = StackOpts::parse_csv("openwebui,evcc,piper,open-wake-word,openwakeword,deepseek,,bogus");
    assert!(opts.open_webui);
    assert!(opts.evcc);
    assert!(opts.piper);
    assert!(opts.openwakeword);
    assert!(opts.deepseek);
    assert!(!opts.dockge);
    assert!(opts.any());
    assert_eq!(opts.to_csv(), "open-webui,evcc,deepseek,piper,openwakeword");
    assert!(!StackOpts::none().any());
    assert_eq!(StackOpts::parse_csv("").to_csv(), "");
}

#[test]
fn csv_of_parsed_csv_is_stable() {
    let a = StackOpts { dockge: true, piper: true, ..StackOpts::none() };
    assert_eq!(StackOpts::parse_csv(&a.to_csv()), a);
}

#[test]
fn selected_order_dockge_first() {
    let opts = StackOpts { dockge: true, piper: true, ..StackOpts::none() };
    let sel = opts.selected();
    assert_eq!(sel[0].dir, "dockge");
    assert_eq!(sel[1].dir, "piper");
}

#[test]
fn selected_covers_all_optional_stacks() {
    let opts = StackOpts {
        dockge: true,
        open_webui: true,
        evcc: true,
        whisper: true,
        deepseek: true,
        piper: true,
        openwakeword: true,
    };
    let dirs: Vec<_> = opts.selected().iter().map(|s| s.dir).collect();
    assert_eq!(
        dirs,
        ["dockge", "open-webui", "evcc", "whisper-cv", "deepseek-npu", "piper", "openwakeword"]
    );
}

#[test]
fn error_display_and_exit_codes() {
    assert_eq!(HortoError::RootRequired.exit_code(), 77);
    assert_eq!(HortoError::UnknownStep("x".into()).exit_code(), 2);
    assert_eq!(
        HortoError::NotInPipeline { step: "d1".into(), kind: "minimal".into() }.exit_code(),
        2
    );
    assert_eq!(HortoError::msg("x").exit_code(), 1);
    assert!(HortoError::msg("boom").to_text().contains("boom"));
    assert!(HortoError::command("apt", "fail").to_text().contains("apt"));
    assert!(HortoError::EmbedMissing("a".into()).to_text().contains("embedded"));
    assert!(HortoError::MissingDependency("s5".into(), "s4".into()).to_text().contains("s5"));
}

#[test]
fn text_helpers_exact() {
    assert_eq!(int_to_string(-42), "-42");
    assert_eq!(int_to_string(0), "0");
    assert_eq!(replace_str("a'b'c", "'", "\\'"), "a\\'b\\'c");
    assert_eq!(trim_str("  x y \n"), "x y");
    assert_eq!(join_strings(&vec!["a".to_owned(), "b".to_owned()], ", "), "a, b");
}

#[test]
fn csv_of_a_selection_parses_back() {
    let all = StackOpts {
        dockge: true,
        open_webui: true,
        evcc: true,
        whisper: true,
        deepseek: true,
        piper: true,
        openwakeword: true,
    };
    for opts in [StackOpts::none(), all, StackOpts { evcc: true, piper: true, ..StackOpts::none() }] {
        assert_eq!(StackOpts::parse_csv(&opts.to_csv()), opts);
    }
}

#[test]
fn saved_and_box_tokens_read_back() {
    let hex = "ab".repeat(32);
    assert_eq!(parse_api_token_line(&format!("{hex}\n")), Some(hex.clone()));
    assert_eq!(parse_api_token_line(&format!("HORTO_API_TOKEN={hex}\n")), Some(hex));
}
