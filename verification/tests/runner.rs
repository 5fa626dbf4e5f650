use horto_os_ui_shared::remote::process::Runs;
use horto_os_ui_shared::error::HortoError;
use horto_os_ui_shared::remote::arch::BoxArch;
use horto_os_ui_shared::remote::process::{CommandOutput, ProcessRunner, StdioMode};
use horto_os_ui_shared::remote::runner::apply::{
    evaluate_status_api_verify, pull_remote_api_token, remote_ensure_ssh_key,
    status_api_versions_agree, strip_tip_only_cli_flags, RemoteRunOutcome,
};
use horto_os_ui_shared::remote::runner::options::{
    build_remote_command_at, merge_command_log, remote_progress_message,
    remote_run_banner_detail, session_from, shell_quote, RemoteOptions, RemoteOptionsInput,
};
use horto_os_ui_shared::remote::runner::probe::{
    classify_ssh_failure, normalize_cli_version, probe_remote_cli, remote_box_snapshot,
    remote_cli_version_is_current, remote_doctor, remote_probe_arch, remote_setup_status,
    ssh_command_detail, RemoteBoxCliStatus,
};
use horto_os_ui_shared::remote::runner::reboot::{
    finish_remote_reboot, remote_reboot, remote_reboot_with_sudo_password,
    ssh_drop_after_reboot, wants_reboot_now,
};
use horto_os_ui_shared::remote::runner::status::{
    parse_setup_status_text, remote_json_slice, DoctorReport, ReportDecoder, SetupStatusReport,
    StepStatusRow,
};
use horto_os_ui_shared::remote::runner::token::{
    api_token_config_path_from, parse_api_token_drop, usable_api_token_hex,
    validated_api_token,
};
use horto_os_ui_shared::remote::bins::{cache_root_from, download_release};
use horto_os_ui_shared::remote::ecosystem::{
    ecosystem_install_plan, enable_ecosystem_units, systemctl_arg_lists, EcosystemInstallChoice,
};
use horto_os_ui_shared::remote::runner::apply::{
    remote_install_payload, remote_run_cli, remote_setup_run, remote_upload_cli, RemoteSetupRunArgs,
};
use horto_os_ui_shared::remote::runner::options::{RemoteRunFlags, RemoteRunRequest};
use horto_os_ui_shared::stack_opts::StackOpts;
use horto_os_ui_shared::LONG_VERSION;
use std::collections::HashMap;
use std::sync::Mutex;

type RecordedCall = (String, Vec<String>, Vec<(String, String)>, StdioMode);

/// Scripted runner with a pop-able reply queue per program.
#[derive(Default)]
struct ScriptedRunner {
    scripts: Mutex<HashMap<String, Vec<CommandOutput>>>,
    calls: Mutex<Vec<RecordedCall>>,
}

impl ScriptedRunner {
    fn push(&self, program: &str, output: CommandOutput) {
        self.scripts.lock().expect("lock").entry(program.to_owned()).or_default().push(output);
    }

    fn ok(stdout: &str) -> CommandOutput {
        CommandOutput { status: 0, stdout: stdout.to_owned(), stderr: String::new() }
    }

    fn fail(status: i32, stderr: &str) -> CommandOutput {
        CommandOutput { status, stdout: String::new(), stderr: stderr.to_owned() }
    }

    fn reply(&self, program: &str) -> Result<CommandOutput, HortoError> {
        let mut map = self.scripts.lock().expect("lock");
        let queue = match map.get_mut(program) {
            Some(q) => q,
            None => {
                return Err(HortoError::msg(&format!("scripted runner: unexpected program {program}")))
            }
        };
        if queue.is_empty() {
            return Err(HortoError::msg(&format!("scripted runner: no more replies for {program}")));
        }
        Ok(queue.remove(0))
    }

    fn programs(&self) -> Vec<String> {
        self.calls.lock().unwrap().iter().map(|c| c.0.clone()).collect()
    }
}

impl ProcessRunner for ScriptedRunner {
    fn run(
        &self,
        program: &str,
        args: &[&str],
        env: &[(&str, &str)],
        stdio: StdioMode,
    ) -> Result<CommandOutput, HortoError> {
        self.calls.lock().expect("lock").push((
            program.to_owned(),
            args.iter().map(|s| (*s).to_owned()).collect(),
            env.iter().map(|(k, v)| ((*k).to_owned(), (*v).to_owned())).collect(),
            stdio,
        ));
        self.reply(program)
    }

    fn run_with_stdin(
        &self,
        program: &str,
        args: &[&str],
        env: &[(&str, &str)],
        _stdin: &[u8],
    ) -> Result<CommandOutput, HortoError> {
        self.run(program, args, env, StdioMode::Capture)
    }
}

/// Decodes report JSON with `serde_json::Value`.
struct JsonDecoder;

fn field_bool(v: &serde_json::Value, key: &str) -> bool {
    v.get(key).and_then(serde_json::Value::as_bool).unwrap_or(false)
}

fn field_str(v: &serde_json::Value, key: &str) -> String {
    v.get(key).and_then(serde_json::Value::as_str).unwrap_or("").to_owned()
}

impl ReportDecoder for JsonDecoder {
    fn setup_status(&self, json: &str) -> Result<SetupStatusReport, HortoError> {
        let v: serde_json::Value =
            serde_json::from_str(json).map_err(|e| HortoError::msg(&format!("parse remote JSON: {e}")))?;
        let steps = v
            .get("steps")
            .and_then(serde_json::Value::as_array)
            .ok_or_else(|| HortoError::msg("parse remote JSON: steps"))?
            .iter()
            .map(|s| StepStatusRow {
                id: field_str(s, "id"),
                title: field_str(s, "title"),
                status: field_str(s, "status"),
                step_version: s.get("step_version").and_then(serde_json::Value::as_u64).unwrap_or(0) as u32,
                destructive: field_bool(s, "destructive"),
                needs_reboot_after: field_bool(s, "needs_reboot_after"),
            })
            .collect();
        Ok(SetupStatusReport { kind: field_str(&v, "kind"), steps })
    }

    fn doctor(&self, json: &str) -> Result<DoctorReport, HortoError> {
        let v: serde_json::Value =
            serde_json::from_str(json).map_err(|e| HortoError::msg(&format!("parse remote JSON: {e}")))?;
        if !v.is_object() {
            return Err(HortoError::msg("parse remote JSON: not an object"));
        }
        Ok(DoctorReport {
            is_root: field_bool(&v, "is_root"),
            has_sudo: field_bool(&v, "has_sudo"),
            docker_present: field_bool(&v, "docker_present"),
            active_setup_dir: field_bool(&v, "active_setup_dir"),
            full_env: field_bool(&v, "full_env"),
            minimal_env: field_bool(&v, "minimal_env"),
            docker_dir: field_bool(&v, "docker_dir"),
            backup_dir: field_bool(&v, "backup_dir"),
            notes: Vec::new(),
        })
    }
}

fn box_opts() -> RemoteOptions {
    RemoteOptions { host: "box".into(), ..RemoteOptions::default() }
}

fn push_cli_probes_missing(runner: &ScriptedRunner) {
    runner.push("ssh", ScriptedRunner::fail(1, "missing"));
    runner.push("ssh", ScriptedRunner::fail(1, "missing"));
}

fn push_cli_probe_current(runner: &ScriptedRunner) {
    runner.push("ssh", ScriptedRunner::ok(&format!("{LONG_VERSION}\n")));
}

const SETUP_JSON: &str = r#"{"kind":"full","steps":[{"id":"s1","title":"Base","status":"done","step_version":1,"destructive":false,"needs_reboot_after":false}]}"#;
const DOCTOR_JSON: &str = r#"{"is_root":false,"has_sudo":true,"docker_present":true,"active_setup_dir":true,"full_env":true,"minimal_env":false,"docker_dir":true,"backup_dir":true,"notes":["ok"]}"#;

fn check_shell_quote() {
    assert_eq!(shell_quote(""), "''");
    assert_eq!(shell_quote("setup"), "setup");
    assert_eq!(shell_quote("a b"), "'a b'");
    assert_eq!(shell_quote("a'b"), "'a'\\''b'");
}

#[test]
fn runner_shell_quote_safe_and_unsafe() {
    check_shell_quote();
}

#[test]
fn mod_shell_quote_safe_and_unsafe() {
    check_shell_quote();
}

fn check_progress_message() {
    assert_eq!(
        remote_progress_message("horto", "probe arch (SSH; may ask password)"),
        "[horto remote] PC → box 'horto': probe arch (SSH; may ask password)"
    );
}

#[test]
fn runner_remote_progress_message_labels_host_and_detail() {
    check_progress_message();
}

#[test]
fn mod_remote_progress_message_labels_host_and_detail() {
    check_progress_message();
}

fn check_status_text_reads() {
    let raw = "Setup kind: full\n  [  done] s1 - Install base packages (v1)\n  [pending] s5 - Apply staged configs to /etc (v2) [destructive] [reboot]\n";
    let report = parse_setup_status_text(raw).unwrap();
    assert_eq!(report.kind, "full");
    assert_eq!(report.steps.len(), 2);
    assert_eq!(report.steps[0].id, "s1");
    assert_eq!(report.steps[0].status, "done");
    assert_eq!(report.steps[0].step_version, 1);
    assert_eq!(report.steps[1].id, "s5");
    assert_eq!(report.steps[1].step_version, 2);
    assert!(report.steps[1].destructive);
    assert!(report.steps[1].needs_reboot_after);
}

#[test]
fn runner_parse_setup_status_text_reads_cli_lines() {
    check_status_text_reads();
}

#[test]
fn mod_parse_setup_status_text_reads_cli_lines() {
    check_status_text_reads();
}

fn check_status_text_noise() {
    let raw = "noise before\nSetup kind: minimal\n[broken\n[x] no dash here\n  [  done] s2 - Title only\n";
    let report = parse_setup_status_text(raw).unwrap();
    assert_eq!(report.kind, "minimal");
    assert_eq!(report.steps.len(), 1);
    assert_eq!(report.steps[0].id, "s2");
    assert_eq!(report.steps[0].title, "Title only");
    assert_eq!(report.steps[0].step_version, 0);
}

#[test]
fn runner_parse_setup_status_text_skips_noise_and_allows_title_without_version() {
    check_status_text_noise();
}

#[test]
fn mod_parse_setup_status_text_skips_noise_and_allows_title_without_version() {
    check_status_text_noise();
}

fn check_status_text_errors() {
    let err = parse_setup_status_text("Setup kind: full\njust noise\n").unwrap_err();
    assert!(err.to_text().contains("no step lines"));
}

#[test]
fn runner_parse_setup_status_text_errors_without_steps() {
    check_status_text_errors();
}

#[test]
fn mod_parse_setup_status_text_errors_without_steps() {
    check_status_text_errors();
}

#[test]
fn remote_json_slice_skips_leading_noise() {
    assert_eq!(remote_json_slice("ssh warn\n{\"a\":1}\n").unwrap(), "{\"a\":1}");
    assert_eq!(remote_json_slice("x [1] ").unwrap(), "[1]");
    assert!(remote_json_slice("nothing").unwrap_err().to_text().contains("no JSON"));
}

fn check_banner_detail() {
    assert!(remote_run_banner_detail("horto-os-ui doctor", false).contains("SSH;"));
    assert!(!remote_run_banner_detail("horto-os-ui doctor", false).contains("sudo"));
    assert!(remote_run_banner_detail("sudo horto-os-ui setup", true).contains("SSH + sudo"));
}

#[test]
fn runner_remote_run_banner_detail_marks_sudo() {
    check_banner_detail();
}

#[test]
fn mod_remote_run_banner_detail_marks_sudo() {
    check_banner_detail();
}

#[test]
fn strip_tip_only_cli_flags_drops_ecosystem_and_stacks() {
    let args: Vec<String> = vec![
        "--apply".into(),
        "--install-status-api".into(),
        "--no-install-mcp".into(),
        "--stacks=dockge".into(),
        "setup".into(),
        "run".into(),
        "--full".into(),
    ];
    let stripped = strip_tip_only_cli_flags(&args);
    assert_eq!(
        stripped,
        vec!["--apply".to_owned(), "setup".to_owned(), "run".to_owned(), "--full".to_owned()]
    );
}

fn check_version_match() {
    assert_eq!(normalize_cli_version(&format!("  {LONG_VERSION} \n")), LONG_VERSION);
    assert!(remote_cli_version_is_current(LONG_VERSION));
    assert!(remote_cli_version_is_current(&format!("horto-os-ui {LONG_VERSION}")));
    assert!(!remote_cli_version_is_current("0.0.0 (deadbeef)"));
    assert!(!remote_cli_version_is_current(""));
}

#[test]
fn runner_normalize_and_match_cli_version() {
    check_version_match();
}

#[test]
fn mod_normalize_and_match_cli_version() {
    check_version_match();
}

fn check_classify() {
    assert_eq!(
        classify_ssh_failure("exit 255: Permission denied (publickey,password)"),
        RemoteBoxCliStatus::AuthFailed
    );
    assert_eq!(classify_ssh_failure("exit 255: Connection refused"), RemoteBoxCliStatus::Unreachable);
    assert_eq!(
        classify_ssh_failure("exit 255: Could not resolve hostname"),
        RemoteBoxCliStatus::Unreachable
    );
}

#[test]
fn runner_classify_ssh_failure_auth_vs_unreachable() {
    check_classify();
}

#[test]
fn mod_classify_ssh_failure_auth_vs_unreachable() {
    check_classify();
}

fn check_labels() {
    assert_eq!(RemoteBoxCliStatus::Missing.as_label(), "missing");
    assert_eq!(RemoteBoxCliStatus::AuthFailed.as_label(), "auth failed");
    assert_eq!(RemoteBoxCliStatus::Unreachable.as_label(), "unreachable");
    assert_eq!(RemoteBoxCliStatus::Found("0.1.0 (abc)".into()).as_label(), "0.1.0 (abc)");
}

#[test]
fn runner_remote_box_cli_status_as_label_covers_all_variants() {
    check_labels();
}

#[test]
fn mod_remote_box_cli_status_as_label_covers_all_variants() {
    check_labels();
}

fn check_ssh_detail() {
    assert!(ssh_command_detail(&HortoError::msg("nope")).is_none());
    assert_eq!(ssh_command_detail(&HortoError::command("ssh", "exit 255: x")), Some("exit 255: x"));
    assert_eq!(ssh_command_detail(&HortoError::command("scp", "denied")), Some("denied"));
    assert!(ssh_command_detail(&HortoError::command("tar", "x")).is_none());
}

#[test]
fn runner_ssh_command_detail_filters_non_ssh_errors() {
    check_ssh_detail();
}

#[test]
fn mod_ssh_command_detail_filters_non_ssh_errors() {
    check_ssh_detail();
}

fn check_probe_unreachable() {
    let runner = ScriptedRunner::default();
    runner.push("ssh", ScriptedRunner::fail(255, "Connection refused"));
    let opts = box_opts();
    let probe = probe_remote_cli(&mut Runs::new(&runner), &session_from(&opts).unwrap(), &opts).unwrap();
    assert_eq!(probe.status, RemoteBoxCliStatus::Unreachable);
}

#[test]
fn runner_probe_remote_cli_reports_unreachable_on_connection_refused() {
    check_probe_unreachable();
}

#[test]
fn mod_probe_remote_cli_reports_unreachable_on_connection_refused() {
    check_probe_unreachable();
}

fn check_probe_auth() {
    let runner = ScriptedRunner::default();
    runner.push("ssh", ScriptedRunner::fail(255, "Permission denied"));
    let opts = box_opts();
    let probe = probe_remote_cli(&mut Runs::new(&runner), &session_from(&opts).unwrap(), &opts).unwrap();
    assert_eq!(probe.status, RemoteBoxCliStatus::AuthFailed);
    assert!(!probe.current);
}

#[test]
fn runner_probe_remote_cli_reports_auth_failed() {
    check_probe_auth();
}

#[test]
fn mod_probe_remote_cli_reports_auth_failed() {
    check_probe_auth();
}

fn check_probe_missing() {
    let runner = ScriptedRunner::default();
    push_cli_probes_missing(&runner);
    let opts = box_opts();
    let probe = probe_remote_cli(&mut Runs::new(&runner), &session_from(&opts).unwrap(), &opts).unwrap();
    assert_eq!(probe.status, RemoteBoxCliStatus::Missing);
}

#[test]
fn runner_probe_remote_cli_reports_missing_when_binaries_absent() {
    check_probe_missing();
}

#[test]
fn mod_probe_remote_cli_reports_missing_when_binaries_absent() {
    check_probe_missing();
}

fn check_snapshot_current() {
    let runner = ScriptedRunner::default();
    push_cli_probe_current(&runner);
    runner.push("ssh", ScriptedRunner::ok(SETUP_JSON));
    runner.push("ssh", ScriptedRunner::ok(DOCTOR_JSON));
    let snap = remote_box_snapshot(&mut Runs::new(&runner), &box_opts(), true, &JsonDecoder).unwrap();
    assert!(snap.cli_current);
    assert_eq!(snap.setup.as_ref().unwrap().steps[0].id, "s1");
    assert!(snap.doctor.as_ref().unwrap().has_sudo);
    assert_eq!(runner.programs().iter().filter(|p| *p == "scp").count(), 0);
}

#[test]
fn runner_remote_box_snapshot_no_scp_when_cli_current() {
    check_snapshot_current();
}

#[test]
fn mod_remote_box_snapshot_no_scp_when_cli_current() {
    check_snapshot_current();
}

fn check_snapshot_stale() {
    let runner = ScriptedRunner::default();
    push_cli_probes_missing(&runner);
    let snap = remote_box_snapshot(&mut Runs::new(&runner), &box_opts(), true, &JsonDecoder).unwrap();
    assert!(!snap.cli_current);
    assert!(snap.setup.is_none());
    assert!(snap.doctor.is_none());
    assert_eq!(snap.cli_status, RemoteBoxCliStatus::Missing);
    assert_eq!(runner.programs().iter().filter(|p| *p == "scp").count(), 0);
}

#[test]
fn runner_remote_box_snapshot_stale_skips_status_without_scp() {
    check_snapshot_stale();
}

#[test]
fn mod_remote_box_snapshot_stale_skips_status_without_scp() {
    check_snapshot_stale();
}

fn check_snapshot_text_fallback() {
    let runner = ScriptedRunner::default();
    push_cli_probe_current(&runner);
    runner.push("ssh", ScriptedRunner::ok("not json\n"));
    runner.push("ssh", ScriptedRunner::ok("Setup kind: full\n  [  done] s1 - Install base packages (v1)\n"));
    runner.push(
        "ssh",
        ScriptedRunner::ok(
            r#"{"is_root":false,"has_sudo":true,"docker_present":false,"active_setup_dir":false,"full_env":false,"minimal_env":true,"docker_dir":false,"backup_dir":false,"notes":[]}"#,
        ),
    );
    let snap = remote_box_snapshot(&mut Runs::new(&runner), &box_opts(), true, &JsonDecoder).unwrap();
    assert_eq!(snap.setup.as_ref().unwrap().steps[0].id, "s1");
    assert!(!snap.doctor.as_ref().unwrap().docker_present);
    assert_eq!(runner.programs().iter().filter(|p| *p == "scp").count(), 0);
}

#[test]
fn runner_remote_box_snapshot_falls_back_to_text_status() {
    check_snapshot_text_fallback();
}

#[test]
fn mod_remote_box_snapshot_falls_back_to_text_status() {
    check_snapshot_text_fallback();
}

fn check_probe_skips_empty() {
    let runner = ScriptedRunner::default();
    runner.push("ssh", ScriptedRunner::ok("\n"));
    push_cli_probe_current(&runner);
    let opts = box_opts();
    let probe = probe_remote_cli(&mut Runs::new(&runner), &session_from(&opts).unwrap(), &opts).unwrap();
    assert!(probe.current);
    assert!(probe.path.unwrap().contains("horto-os-ui"));
}

#[test]
fn runner_probe_remote_cli_skips_empty_version_then_accepts_agent() {
    check_probe_skips_empty();
}

#[test]
fn mod_probe_remote_cli_skips_empty_version_then_accepts_agent() {
    check_probe_skips_empty();
}

fn check_probe_keeps_stale() {
    let runner = ScriptedRunner::default();
    runner.push("ssh", ScriptedRunner::ok("0.0.0 (deadbeef)\n"));
    runner.push("ssh", ScriptedRunner::fail(1, "missing"));
    let opts = box_opts();
    let probe = probe_remote_cli(&mut Runs::new(&runner), &session_from(&opts).unwrap(), &opts).unwrap();
    assert!(!probe.current);
    assert_eq!(probe.version.as_deref(), Some("0.0.0 (deadbeef)"));
    assert!(probe.path.is_some());
}

#[test]
fn runner_probe_remote_cli_keeps_stale_install_when_agent_missing() {
    check_probe_keeps_stale();
}

#[test]
fn mod_probe_remote_cli_keeps_stale_install_when_agent_missing() {
    check_probe_keeps_stale();
}

fn check_status_doctor_require_current() {
    let runner = ScriptedRunner::default();
    push_cli_probes_missing(&runner);
    let err = remote_setup_status(&mut Runs::new(&runner), &box_opts(), true, &JsonDecoder).unwrap_err();
    assert!(err.to_text().contains("sync CLI"));

    let runner2 = ScriptedRunner::default();
    push_cli_probes_missing(&runner2);
    let err = remote_doctor(&mut Runs::new(&runner2), &box_opts(), &JsonDecoder).unwrap_err();
    assert!(err.to_text().contains("sync CLI"));
}

#[test]
fn runner_remote_setup_status_and_doctor_require_current_cli() {
    check_status_doctor_require_current();
}

#[test]
fn mod_remote_setup_status_and_doctor_require_current_cli() {
    check_status_doctor_require_current();
}

fn check_status_doctor_current() {
    let runner = ScriptedRunner::default();
    push_cli_probe_current(&runner);
    runner.push("ssh", ScriptedRunner::ok(SETUP_JSON));
    runner.push("ssh", ScriptedRunner::ok(DOCTOR_JSON));
    let status = remote_setup_status(&mut Runs::new(&runner), &box_opts(), true, &JsonDecoder).unwrap();
    assert_eq!(status.steps[0].id, "s1");

    let runner2 = ScriptedRunner::default();
    push_cli_probe_current(&runner2);
    runner2.push("ssh", ScriptedRunner::ok(SETUP_JSON));
    runner2.push("ssh", ScriptedRunner::ok(DOCTOR_JSON));
    let doc = remote_doctor(&mut Runs::new(&runner2), &box_opts(), &JsonDecoder).unwrap();
    assert!(doc.has_sudo);
}

#[test]
fn runner_remote_setup_status_and_doctor_return_reports_when_current() {
    check_status_doctor_current();
}

#[test]
fn mod_remote_setup_status_and_doctor_return_reports_when_current() {
    check_status_doctor_current();
}

fn check_build_command() {
    let cmd = build_remote_command_at(
        "/tmp/agent/horto-os-ui",
        &["--apply".into(), "setup".into(), "run".into(), "--full".into()],
        false,
    );
    assert_eq!(cmd, "/tmp/agent/horto-os-ui --apply setup run --full");
    let cmd_sudo = build_remote_command_at("/tmp/agent/horto-os-ui", &["doctor".into()], true);
    assert!(cmd_sudo.starts_with("sudo "));
}

#[test]
fn runner_build_remote_command_shapes() {
    check_build_command();
}

#[test]
fn mod_build_remote_command_shapes() {
    check_build_command();
}

#[test]
fn build_remote_command_quotes_args() {
    assert_eq!(
        build_remote_command_at("/opt/my bin/horto-os-ui", &["it's".into()], true),
        "sudo '/opt/my bin/horto-os-ui' 'it'\\''s'"
    );
}

#[test]
fn runner_default_options_key_off() {
    assert!(!RemoteOptions::default().install_ssh_key);
}

#[test]
fn mod_default_options_key_off() {
    assert!(!RemoteOptions::default().install_ssh_key);
}

#[test]
fn remote_options_from_input_tag_and_defaults() {
    let opts = RemoteOptions::from_input(RemoteOptionsInput {
        host: "box".into(),
        install_ssh_key: true,
        bin_dir: Some("/bins".into()),
        release_tag: Some("dev-preview".into()),
    });
    assert_eq!(opts.host, "box");
    assert!(opts.install_ssh_key);
    assert_eq!(opts.bin_dir.as_deref(), Some("/bins"));
    assert_eq!(opts.release_tag, "dev-preview");
    let defaults = RemoteOptions::default();
    assert_eq!(defaults.host, "");
    assert!(!defaults.install_ssh_key);
    let blank = RemoteOptions::from_input(RemoteOptionsInput { release_tag: Some("  ".into()), ..RemoteOptionsInput::default() });
    assert_eq!(blank.release_tag, defaults.release_tag);
}

fn check_probe_arch() {
    let runner = ScriptedRunner::default();
    runner.push("ssh", ScriptedRunner::ok("aarch64\n"));
    let arch = remote_probe_arch(&mut Runs::new(&runner), &box_opts()).unwrap();
    assert_eq!(arch, BoxArch::Arm64);
}

#[test]
fn runner_remote_probe_arch_ok() {
    check_probe_arch();
}

#[test]
fn mod_remote_probe_arch_ok() {
    check_probe_arch();
}

fn check_token_drop() {
    assert_eq!(
        parse_api_token_drop("HORTO_API_TOKEN=aabbccddeeff00112233445566778899\n").as_deref(),
        Some("aabbccddeeff00112233445566778899")
    );
    assert_eq!(
        parse_api_token_drop("  deadbeefcafebabedeadbeefcafebabe  \n").as_deref(),
        Some("deadbeefcafebabedeadbeefcafebabe")
    );
    assert!(parse_api_token_drop("").is_none());
    assert!(parse_api_token_drop("not-hex!").is_none());
    assert!(parse_api_token_drop("HORTO_API_TOKEN=abc123\n").is_none());
    assert!(parse_api_token_drop("11223344\n").is_none());
}

#[test]
fn runner_parse_api_token_drop_accepts_prefix_and_bare_hex() {
    check_token_drop();
}

#[test]
fn mod_parse_api_token_drop_accepts_prefix_and_bare_hex() {
    check_token_drop();
}

fn check_token_empty() {
    assert!(parse_api_token_drop("HORTO_API_TOKEN=\n").is_none());
    assert!(parse_api_token_drop("HORTO_API_TOKEN= \n").is_none());
    assert_eq!(
        parse_api_token_drop("\n\nHORTO_API_TOKEN=aabbccddeeff00112233445566778899\n").as_deref(),
        Some("aabbccddeeff00112233445566778899")
    );
}

#[test]
fn runner_parse_api_token_drop_rejects_empty_hex_value() {
    check_token_empty();
}

#[test]
fn mod_parse_api_token_drop_rejects_empty_hex_value() {
    check_token_empty();
}

#[test]
fn token_hex_and_config_path() {
    assert!(usable_api_token_hex("aabb").is_none());
    assert_eq!(
        usable_api_token_hex("HORTO_API_TOKEN= aabbccddeeff00112233445566778899 ").as_deref(),
        Some("aabbccddeeff00112233445566778899")
    );
    assert!(validated_api_token("11223344").unwrap_err().to_text().contains("at least"));
    assert_eq!(
        api_token_config_path_from(Some(" /x/cfg "), Some("/home/u")),
        "/x/cfg/horto-os-ui/api_token"
    );
    assert_eq!(
        api_token_config_path_from(Some("  "), Some("/home/u")),
        "/home/u/.config/horto-os-ui/api_token"
    );
    assert_eq!(api_token_config_path_from(None, None), "./.config/horto-os-ui/api_token");
}

#[test]
fn pull_remote_api_token_rejects_empty_host() {
    let runner = ScriptedRunner::default();
    let err = pull_remote_api_token(&mut Runs::new(&runner), &RemoteOptions { host: "  ".into(), ..RemoteOptions::default() })
        .unwrap_err();
    assert!(err.to_text().contains("empty"));
}

fn check_outcome_default() {
    let o = RemoteRunOutcome::default();
    assert_eq!(o.log, "");
    assert!(o.api_token.is_none());
}

#[test]
fn runner_remote_run_outcome_default_is_empty() {
    check_outcome_default();
}

#[test]
fn mod_remote_run_outcome_default_is_empty() {
    check_outcome_default();
}

fn check_wants_reboot() {
    assert!(wants_reboot_now("y"));
    assert!(wants_reboot_now("YES"));
    assert!(!wants_reboot_now(""));
    assert!(!wants_reboot_now("n"));
    assert!(!wants_reboot_now("maybe"));
}

#[test]
fn runner_wants_reboot_now_parses_answers() {
    check_wants_reboot();
}

#[test]
fn mod_wants_reboot_now_parses_answers() {
    check_wants_reboot();
}

#[test]
fn ssh_drop_after_reboot_matches_expected_phrases() {
    for msg in ["Connection closed by remote host", "Connection reset by peer", "Broken pipe", "ssh: exit 255"] {
        assert!(ssh_drop_after_reboot(&HortoError::msg(msg)), "expected drop: {msg}");
    }
    assert!(!ssh_drop_after_reboot(&HortoError::msg("Sorry, try again.")));
}

#[test]
fn runner_remote_reboot_with_sudo_password_wrapper() {
    let runner = ScriptedRunner::default();
    runner.push("ssh", ScriptedRunner::ok(""));
    remote_reboot_with_sudo_password(&mut Runs::new(&runner), &box_opts(), "secret").unwrap();
    let calls = runner.calls.lock().unwrap();
    assert!(calls[0].1.iter().any(|a| a.contains("sudo -S reboot")));
}

#[test]
fn finish_reboot_password_errors_unless_session_drops() {
    let session = session_from(&box_opts()).unwrap();
    let runner = ScriptedRunner::default();
    runner.push("ssh", ScriptedRunner::fail(1, "Sorry, try again."));
    assert!(finish_remote_reboot(&mut Runs::new(&runner), &session, "y", Some("pw")).is_err());
    let runner2 = ScriptedRunner::default();
    runner2.push("ssh", ScriptedRunner::fail(255, "Connection closed by remote host"));
    assert!(finish_remote_reboot(&mut Runs::new(&runner2), &session, "y", Some("pw")).is_ok());
    let runner3 = ScriptedRunner::default();
    assert!(finish_remote_reboot(&mut Runs::new(&runner3), &session, "no", None).is_ok());
    assert!(runner3.programs().is_empty());
}

fn check_key_and_reboot_wrappers() {
    let runner = ScriptedRunner::default();
    runner.push("ssh", ScriptedRunner::ok(""));
    remote_ensure_ssh_key(&mut Runs::new(&runner), &box_opts()).unwrap();

    let runner2 = ScriptedRunner::default();
    runner2.push("ssh", ScriptedRunner::ok(""));
    remote_reboot(&mut Runs::new(&runner2), &box_opts()).unwrap();
}

#[test]
fn runner_remote_ensure_ssh_key_and_reboot_wrappers() {
    check_key_and_reboot_wrappers();
}

#[test]
fn mod_remote_ensure_ssh_key_and_reboot_wrappers() {
    check_key_and_reboot_wrappers();
}

#[test]
fn merge_command_log_joins_streams() {
    let out = CommandOutput { status: 0, stdout: "a".into(), stderr: "b".into() };
    assert_eq!(merge_command_log(&out, "cmd"), "a\nb");
    let quiet = CommandOutput { status: 0, stdout: " ".into(), stderr: " ".into() };
    assert_eq!(merge_command_log(&quiet, "cmd"), "remote command finished: cmd");
}

fn out(status: i32, stdout: &str, stderr: &str) -> CommandOutput {
    CommandOutput { status, stdout: stdout.to_owned(), stderr: stderr.to_owned() }
}

#[test]
fn status_api_versions_agree_clap_prefix_and_health() {
    assert!(status_api_versions_agree("horto-os-ui-status-api 0.1.0 (deadbeef)", "0.1.0 (deadbeef)"));
    assert!(status_api_versions_agree("0.1.0 (deadbeef)", "0.1.0 (deadbeef)"));
    assert!(!status_api_versions_agree("horto-os-ui-status-api 0.1.0 (aaaaaaa)", "0.1.0 (bbbbbbb)"));
    assert!(!status_api_versions_agree("", "0.1.0 (deadbeef)"));
}

#[test]
fn evaluate_status_api_verify_ok_and_failures() {
    let ok_ver = out(0, "horto-os-ui-status-api 0.1.0 (deadbeef)\n", "");
    let ok_health = out(0, r#"{"ok":true,"cli_version":"0.1.0 (deadbeef)"}"#, "");
    assert!(evaluate_status_api_verify("/usr/local/bin/horto-os-ui-status-api", &ok_ver, &ok_health).is_ok());

    let bad_ver = out(1, "", "fail");
    let err = evaluate_status_api_verify("bin", &bad_ver, &ok_health).unwrap_err();
    assert!(err.to_text().contains("--version"));

    let empty_ver = out(0, "\n", "");
    let err = evaluate_status_api_verify("bin", &empty_ver, &ok_health).unwrap_err();
    assert!(err.to_text().contains("--version"));

    let bad_health = out(7, "", "curl: fail");
    let err = evaluate_status_api_verify("bin", &ok_ver, &bad_health).unwrap_err();
    assert!(err.to_text().contains("/health"));

    let no_cli = out(0, r#"{"ok":true}"#, "");
    let err = evaluate_status_api_verify("bin", &ok_ver, &no_cli).unwrap_err();
    assert!(err.to_text().contains("cli_version"));

    let mismatch = out(0, r#"{"ok":true,"cli_version":"0.1.0 (other)"}"#, "");
    let err = evaluate_status_api_verify("bin", &ok_ver, &mismatch).unwrap_err();
    assert!(err.to_text().contains("!="));
}

// ---- ssh ----

use horto_os_ui_shared::remote::host::parse_host_spec;
use horto_os_ui_shared::remote::ssh::{SshEnv, SshSession};

fn session_box() -> SshSession {
    SshSession { host: parse_host_spec("box").unwrap(), env: SshEnv::default(), config_file: None }
}

#[test]
fn exec_builds_ssh_args() {
    let runner = ScriptedRunner::default();
    runner.push("ssh", ScriptedRunner::ok("x86_64\n"));
    let out = session_box().exec(&mut Runs::new(&runner), "uname -m", StdioMode::Capture).unwrap();
    assert_eq!(out.stdout.trim(), "x86_64");
    let calls = runner.calls.lock().unwrap();
    assert_eq!(calls[0].0, "ssh");
    assert!(calls[0].1.iter().any(|a| a == "box"));
    assert!(calls[0].1.iter().any(|a| a == "uname -m"));
}

#[test]
fn install_key_passes_i_pubkey() {
    let runner = ScriptedRunner::default();
    runner.push("ssh-copy-id", ScriptedRunner::ok(""));
    session_box().install_ssh_key(&mut Runs::new(&runner), Some("/home/u/.ssh/id_ed25519.pub")).unwrap();
    let calls = runner.calls.lock().unwrap();
    let copy = calls.iter().find(|c| c.0 == "ssh-copy-id").unwrap();
    let args = &copy.1;
    let i = args.iter().position(|a| a == "-i").expect("-i missing");
    assert!(args[i + 1].ends_with(".pub"), "expected pubkey after -i, got {}", args[i + 1]);
    assert!(args.iter().any(|a| a == "box"));
}

#[test]
fn install_key_skips_copy_when_key_login_works() {
    let runner = ScriptedRunner::default();
    runner.push("ssh", ScriptedRunner::ok(""));
    session_box().install_ssh_key(&mut Runs::new(&runner), None).unwrap();
    assert_eq!(runner.programs(), vec!["ssh".to_owned()]);
    let runner2 = ScriptedRunner::default();
    runner2.push("ssh", ScriptedRunner::fail(255, "Permission denied"));
    assert!(session_box().install_ssh_key(&mut Runs::new(&runner2), None).unwrap_err().to_text().contains("no default SSH pubkey"));
}

#[test]
fn scp_failure_surfaces() {
    let runner = ScriptedRunner::default();
    runner.push("scp", ScriptedRunner::fail(1, "Permission denied"));
    let err = session_box().scp_to(&mut Runs::new(&runner), "/tmp/x", "/tmp/x").unwrap_err();
    assert!(err.to_text().contains("scp"));
}

#[test]
fn config_file_adds_f_flag() {
    let runner = ScriptedRunner::default();
    runner.push("ssh", ScriptedRunner::ok("ok\n"));
    let session = SshSession {
        host: parse_host_spec("box").unwrap(),
        env: SshEnv::default(),
        config_file: Some("/tmp/ssh_config".into()),
    };
    session.exec(&mut Runs::new(&runner), "true", StdioMode::Capture).unwrap();
    let args = &runner.calls.lock().unwrap()[0].1;
    assert_eq!(args[0], "-F");
    assert_eq!(args[1], "/tmp/ssh_config");
}

#[test]
fn force_askpass_env_pairs() {
    let env = SshEnv { force_askpass: true, askpass: Some("/usr/bin/ssh-askpass".into()), display: None };
    let pairs = env.as_pairs();
    assert_eq!(
        pairs,
        vec![
            ("SSH_ASKPASS_REQUIRE".to_owned(), "force".to_owned()),
            ("SSH_ASKPASS".to_owned(), "/usr/bin/ssh-askpass".to_owned()),
            ("DISPLAY".to_owned(), ":0".to_owned()),
        ]
    );
    assert!(SshEnv::default().as_pairs().is_empty());
}

#[test]
fn require_ok_prefers_stdout_when_stderr_blank() {
    let runner = ScriptedRunner::default();
    runner.push("ssh", CommandOutput { status: 1, stdout: "denied-stdout".into(), stderr: String::new() });
    let err = session_box().exec(&mut Runs::new(&runner), "false", StdioMode::Capture).unwrap_err();
    assert!(err.to_text().contains("denied-stdout"));
}

#[test]
fn remote_has_rsync_true_and_false() {
    let runner = ScriptedRunner::default();
    runner.push("ssh", ScriptedRunner::ok(""));
    let session = session_box();
    assert!(session.remote_has_rsync(&mut Runs::new(&runner)));
    runner.push("ssh", ScriptedRunner::fail(1, "no"));
    assert!(!session.remote_has_rsync(&mut Runs::new(&runner)));
}

#[test]
fn scp_ok_path() {
    let runner = ScriptedRunner::default();
    runner.push("scp", ScriptedRunner::ok(""));
    session_box().scp_to(&mut Runs::new(&runner), "/tmp/x", "/tmp/x").unwrap();
    let args = &runner.calls.lock().unwrap()[0].1;
    assert_eq!(args.last().unwrap(), "box:/tmp/x");
}

// ---- transfer ----

use horto_os_ui_shared::remote::transfer::{file_name_of, prefer_rsync, rsync_copy_args, scp_files, transfer_files};

#[test]
fn prefer_rsync_false_when_local_missing() {
    let runner = ScriptedRunner::default();
    runner.push("rsync", ScriptedRunner::fail(127, "not found"));
    assert!(!prefer_rsync(&mut Runs::new(&runner), &session_box()));
}

#[test]
fn prefer_rsync_true_when_both_ends_have_it() {
    let runner = ScriptedRunner::default();
    runner.push("rsync", ScriptedRunner::ok("rsync  version\n"));
    runner.push("ssh", ScriptedRunner::ok(""));
    assert!(prefer_rsync(&mut Runs::new(&runner), &session_box()));
}

#[test]
fn require_ok_uses_stdout_when_stderr_empty() {
    let runner2 = ScriptedRunner::default();
    runner2.push("rsync", ScriptedRunner::fail(1, ""));
    assert!(!prefer_rsync(&mut Runs::new(&runner2), &session_box()));

    let runner3 = ScriptedRunner::default();
    runner3.push("rsync", ScriptedRunner::ok("v"));
    runner3.push("ssh", ScriptedRunner::fail(1, ""));
    assert!(!prefer_rsync(&mut Runs::new(&runner3), &session_box()));
}

#[test]
fn scp_files_copies_each_local() {
    let runner = ScriptedRunner::default();
    runner.push("ssh", ScriptedRunner::ok(""));
    runner.push("scp", ScriptedRunner::ok(""));
    runner.push("scp", ScriptedRunner::ok(""));
    scp_files(&mut Runs::new(&runner), &session_box(), &["/tmp/t/a.bin", "/tmp/t/b.bin"], "/tmp/dest").unwrap();
    assert_eq!(runner.programs(), vec!["ssh", "scp", "scp"]);
    let calls = runner.calls.lock().unwrap();
    assert_eq!(calls[2].1.last().unwrap(), "box:/tmp/dest/b.bin");
}

#[test]
fn transfer_files_falls_back_to_scp() {
    let runner = ScriptedRunner::default();
    runner.push("rsync", ScriptedRunner::fail(127, "no"));
    runner.push("ssh", ScriptedRunner::ok(""));
    runner.push("scp", ScriptedRunner::ok(""));
    transfer_files(&mut Runs::new(&runner), &session_box(), &["/tmp/t/x"], "/tmp/d").unwrap();
    assert!(runner.programs().iter().any(|p| p == "scp"));
}

#[test]
fn transfer_files_uses_rsync_when_available() {
    let runner = ScriptedRunner::default();
    runner.push("rsync", ScriptedRunner::ok("ok"));
    runner.push("ssh", ScriptedRunner::ok(""));
    runner.push("ssh", ScriptedRunner::ok(""));
    runner.push("rsync", ScriptedRunner::ok(""));
    transfer_files(&mut Runs::new(&runner), &session_box(), &["/tmp/t/x"], "/tmp/d").unwrap();
    assert!(runner.programs().iter().filter(|p| *p == "rsync").count() >= 2);
}

#[test]
fn rsync_failure_surfaces() {
    let runner = ScriptedRunner::default();
    runner.push("rsync", ScriptedRunner::ok("v"));
    runner.push("ssh", ScriptedRunner::ok(""));
    runner.push("ssh", ScriptedRunner::ok(""));
    runner.push("rsync", ScriptedRunner::fail(1, "boom"));
    let err = transfer_files(&mut Runs::new(&runner), &session_box(), &["/tmp/t/x"], "/tmp/d").unwrap_err();
    assert!(err.to_text().contains("rsync"));
}

#[test]
fn file_names_and_rsync_args() {
    assert_eq!(file_name_of("/tmp/a/b.bin").as_deref(), Some("b.bin"));
    assert_eq!(file_name_of("dir/b/").as_deref(), Some("b"));
    assert_eq!(file_name_of("x/.").as_deref(), Some("x"));
    assert!(file_name_of("/").is_none());
    assert!(file_name_of("a/..").is_none());
    assert_eq!(
        rsync_copy_args(&["/a", "/b"], "box", "/d"),
        vec!["-e", "ssh", "-a", "/a", "/b", "box:/d/"]
    );
}

// ---- surfaces ----

use horto_os_ui_shared::remote::surfaces::{
    find_mcp_docker, format_surfaces_report, http_get_request, http_response_label,
    mcp_image_name, probe_api_surface, probe_cli_surface, probe_mcp_surface, probe_ssh_access,
    probe_ssh_surface, probe_surfaces, ssh_pgrep_mcp, ssh_systemctl_active, ApiSurfaceProbe,
    CliSurfaceProbe, HttpProbe, McpHostProbe, SshSurfaceProbe, SurfaceLocal, SurfaceProbeReport,
};

/// HTTP probe for hosts with nothing listening.
struct NoHttp;

impl HttpProbe for NoHttp {
    fn get_label(&self, _host: &str, _port: u16, _path: &str, _bearer: Option<&str>) -> String {
        "unreachable".to_owned()
    }
}

fn local() -> SurfaceLocal {
    SurfaceLocal { api_token: None, mcp_binary: None, mcp_image: mcp_image_name(None) }
}

#[test]
fn format_surfaces_report_includes_local_and_rows() {
    let report = SurfaceProbeReport {
        local_version: "0.1.0 (deadbeef)".into(),
        ssh: SshSurfaceProbe { host: "horto".into(), status: "ok".into(), key_ok: true },
        cli: CliSurfaceProbe {
            status: RemoteBoxCliStatus::Found("0.1.0 (deadbeef)".into()),
            version: Some("0.1.0 (deadbeef)".into()),
            current: true,
        },
        api: ApiSurfaceProbe {
            url: "http://horto:8787".into(),
            health: "ok".into(),
            status: "ok".into(),
            local_token: true,
            unit: "active".into(),
        },
        mcp_pc: McpHostProbe {
            docker: Some("horto-os-ui-mcp:local".into()),
            binary: Some("/usr/bin/horto-os-ui-mcp".into()),
            http_url: "http://horto:8790".into(),
            http_reach: "unreachable".into(),
            unit: String::new(),
            api_health: "ok".into(),
        },
        mcp_box: McpHostProbe {
            docker: None,
            binary: None,
            http_url: "http://horto:8790".into(),
            http_reach: "unreachable".into(),
            unit: "inactive".into(),
            api_health: "ok".into(),
        },
    };
    let text = format_surfaces_report(&report);
    assert!(text.contains("local=0.1.0 (deadbeef)"));
    assert!(text.contains("ssh=ok"));
    assert!(text.contains("cli=0.1.0 (deadbeef)"));
    assert!(text.contains("api=http://horto:8787"));
    assert!(text.contains("mcp_pc"));
    assert!(text.contains("mcp_box"));
    assert!(text.contains("docker=horto-os-ui-mcp:local"));
    assert!(text.contains("mcp_pc docker=horto-os-ui-mcp:local binary=/usr/bin/horto-os-ui-mcp http=http://horto:8790 reach=unreachable unit=- api_health=ok\n"));
    assert!(text.contains("binary=missing"));
}

#[test]
fn probe_ssh_access_ok_and_auth_failed() {
    let runner = ScriptedRunner::default();
    runner.push("ssh", ScriptedRunner::ok(""));
    let p = probe_ssh_access(&mut Runs::new(&runner), &box_opts()).unwrap();
    assert_eq!(p.status, "ok");
    assert!(p.key_ok);

    let runner2 = ScriptedRunner::default();
    runner2.push("ssh", ScriptedRunner::fail(255, "Permission denied"));
    let p2 = probe_ssh_access(&mut Runs::new(&runner2), &box_opts()).unwrap();
    assert_eq!(p2.status, "auth failed");
    assert!(!p2.key_ok);
}

#[test]
fn probe_ssh_access_unreachable() {
    let runner = ScriptedRunner::default();
    runner.push("ssh", ScriptedRunner::fail(255, "Connection refused"));
    let p = probe_ssh_access(&mut Runs::new(&runner), &box_opts()).unwrap();
    assert_eq!(p.status, "unreachable");
}

#[test]
fn probe_surfaces_embedded_skips_ssh() {
    let runner = ScriptedRunner::default();
    let report = probe_surfaces(&mut Runs::new(&runner), &NoHttp, &RemoteOptions::default(), true, &local()).unwrap();
    assert_eq!(report.ssh.status, "n/a");
    assert!(report.cli.current);
    assert!(report.mcp_pc.http_url.starts_with("http://127.0.0.1:8790"));
    assert!(report.mcp_box.http_url.starts_with("http://127.0.0.1:8790"));
}

#[test]
fn probe_surfaces_remote_auth_maps_cli() {
    let runner = ScriptedRunner::default();
    runner.push("ssh", ScriptedRunner::fail(255, "Permission denied"));
    let report = probe_surfaces(&mut Runs::new(&runner), &NoHttp, &box_opts(), false, &local()).unwrap();
    assert_eq!(report.ssh.status, "auth failed");
    assert_eq!(report.cli.status, RemoteBoxCliStatus::AuthFailed);
}

#[test]
fn http_get_label_unreachable_port() {
    assert_eq!(http_response_label(""), "unreachable");
    assert_eq!(NoHttp.get_label("127.0.0.1", 1, "/health", None), "unreachable");
}

#[test]
fn http_labels_from_responses() {
    assert_eq!(http_response_label("HTTP/1.0 200 OK\r\nContent-Length: 2\r\n\r\nok"), "ok");
    assert_eq!(http_response_label("HTTP/1.0 401 Unauthorized\r\n\r\n"), "auth required");
    assert_eq!(http_response_label("HTTP/1.0 503 Service Unavailable\r\n\r\n"), "http 503");
    assert_eq!(http_response_label("not-http-at-all"), "ok");
    assert_eq!(
        http_get_request("h", "/v1/status", Some("tok")),
        "GET /v1/status HTTP/1.0\r\nHost: h\r\nConnection: close\r\nAuthorization: Bearer tok\r\n\r\n"
    );
}

#[test]
fn probe_surfaces_remote_ok_runs_cli_probe() {
    let runner = ScriptedRunner::default();
    runner.push("ssh", ScriptedRunner::ok(""));
    runner.push("ssh", ScriptedRunner::ok(&format!("{LONG_VERSION}\n")));
    runner.push("ssh", ScriptedRunner::ok("active\n"));
    runner.push("ssh", ScriptedRunner::ok("inactive\n"));
    runner.push("ssh", ScriptedRunner::ok(""));
    runner.push("ssh", ScriptedRunner::ok(""));
    runner.push("ssh", ScriptedRunner::ok(""));
    let report = probe_surfaces(&mut Runs::new(&runner), &NoHttp, &box_opts(), false, &local()).unwrap();
    assert_eq!(report.ssh.status, "ok");
    assert!(report.cli.current);
    assert_eq!(report.api.unit, "active");
}

#[test]
fn local_api_token_path_is_under_config() {
    let p = api_token_config_path_from(None, Some("/home/u"));
    assert!(p.contains("horto-os-ui"));
}

#[test]
fn probe_surfaces_remote_ok_mcp_process_fallback() {
    let runner = ScriptedRunner::default();
    runner.push("ssh", ScriptedRunner::ok(""));
    runner.push("ssh", ScriptedRunner::ok(&format!("{LONG_VERSION}\n")));
    runner.push("ssh", ScriptedRunner::ok("active\n"));
    runner.push("ssh", ScriptedRunner::ok("inactive\n"));
    runner.push("ssh", ScriptedRunner::ok("1234 horto-os-ui-mcp\n"));
    runner.push("ssh", ScriptedRunner::ok("/usr/local/bin/horto-os-ui-mcp\n"));
    runner.push("ssh", ScriptedRunner::ok("sha256:deadbeef\n"));
    let report = probe_surfaces(&mut Runs::new(&runner), &NoHttp, &box_opts(), false, &local()).unwrap();
    assert_eq!(report.mcp_box.unit, "process");
    assert_eq!(report.mcp_box.binary.as_deref(), Some("/usr/local/bin/horto-os-ui-mcp"));
    assert_eq!(report.mcp_box.docker.as_deref(), Some("horto-os-ui-mcp:local"));
}

#[test]
fn probe_surfaces_remote_unreachable_maps_cli() {
    let runner = ScriptedRunner::default();
    runner.push("ssh", ScriptedRunner::fail(255, "Connection refused"));
    let report = probe_surfaces(&mut Runs::new(&runner), &NoHttp, &box_opts(), false, &local()).unwrap();
    assert_eq!(report.ssh.status, "unreachable");
    assert_eq!(report.cli.status, RemoteBoxCliStatus::Unreachable);
}

#[test]
fn probe_ssh_access_uses_config_file_flag() {
    let runner = ScriptedRunner::default();
    runner.push("ssh", ScriptedRunner::ok(""));
    let opts = RemoteOptions {
        host: "box".into(),
        ssh_config_file: Some("/tmp/horto-test-ssh-config".into()),
        ..RemoteOptions::default()
    };
    let p = probe_ssh_access(&mut Runs::new(&runner), &opts).unwrap();
    assert_eq!(p.status, "ok");
    let calls = runner.calls.lock().unwrap();
    assert!(calls[0].1.iter().any(|a| a == "-F"));
    assert!(calls[0].1.iter().any(|a| a.contains("horto-test-ssh-config")));
}

#[test]
fn probe_ssh_access_prefers_stdout_when_stderr_empty() {
    let runner = ScriptedRunner::default();
    runner.push(
        "ssh",
        CommandOutput { status: 255, stdout: "Permission denied (publickey)".into(), stderr: String::new() },
    );
    let p = probe_ssh_access(&mut Runs::new(&runner), &box_opts()).unwrap();
    assert_eq!(p.status, "auth failed");
}

#[test]
fn probe_mcp_box_keeps_active_unit() {
    let runner = ScriptedRunner::default();
    runner.push("ssh", ScriptedRunner::ok(""));
    runner.push("ssh", ScriptedRunner::ok(&format!("{LONG_VERSION}\n")));
    runner.push("ssh", ScriptedRunner::ok("active\n"));
    runner.push("ssh", ScriptedRunner::ok("active\n"));
    runner.push("ssh", ScriptedRunner::ok(""));
    runner.push("ssh", ScriptedRunner::ok(""));
    let report = probe_surfaces(&mut Runs::new(&runner), &NoHttp, &box_opts(), false, &local()).unwrap();
    assert_eq!(report.mcp_box.unit, "active");
}

#[test]
fn ssh_helpers_handle_bad_host_and_exec_err() {
    let runner = ScriptedRunner::default();
    let bad = RemoteOptions { host: String::new(), ..RemoteOptions::default() };
    assert_eq!(ssh_systemctl_active(&mut Runs::new(&runner), &bad, "x.service"), "");
    assert_eq!(ssh_pgrep_mcp(&mut Runs::new(&runner), &bad), "");

    let runner2 = ScriptedRunner::default();
    runner2.push("ssh", ScriptedRunner::fail(1, "nope"));
    assert_eq!(ssh_systemctl_active(&mut Runs::new(&runner2), &box_opts(), "x.service"), "");
}

#[test]
fn probe_one_surface_helpers_embedded() {
    let runner = ScriptedRunner::default();
    let opts = RemoteOptions::default();
    let ssh = probe_ssh_surface(&mut Runs::new(&runner), &opts, true).unwrap();
    assert_eq!(ssh.status, "n/a");
    let cli = probe_cli_surface(&mut Runs::new(&runner), &opts, true).unwrap();
    assert!(cli.current);
    let api = probe_api_surface(&mut Runs::new(&runner), &NoHttp, &opts, true, &local()).unwrap();
    assert!(api.url.starts_with("http://127.0.0.1:8787"));
    let (pc, bx) = probe_mcp_surface(&mut Runs::new(&runner), &NoHttp, &opts, true, &local()).unwrap();
    assert!(pc.http_url.starts_with("http://127.0.0.1:8790"));
    assert!(bx.http_url.starts_with("http://127.0.0.1:8790"));
}

#[test]
fn find_mcp_docker_reports_image_when_inspect_ok() {
    let runner = ScriptedRunner::default();
    runner.push("docker", ScriptedRunner::ok("sha256:abc\n"));
    assert_eq!(find_mcp_docker(&mut Runs::new(&runner), &mcp_image_name(None)).as_deref(), Some("horto-os-ui-mcp:local"));
}

#[test]
fn find_mcp_docker_none_when_missing() {
    let runner = ScriptedRunner::default();
    runner.push("docker", ScriptedRunner::fail(1, "No such image"));
    assert!(find_mcp_docker(&mut Runs::new(&runner), &mcp_image_name(Some("  "))).is_none());
}

#[test]
fn probe_one_surface_helpers_remote() {
    let runner = ScriptedRunner::default();
    runner.push("ssh", ScriptedRunner::ok(""));
    runner.push("ssh", ScriptedRunner::ok(""));
    runner.push("ssh", ScriptedRunner::ok(&format!("{LONG_VERSION}\n")));
    runner.push("ssh", ScriptedRunner::ok(""));
    runner.push("ssh", ScriptedRunner::ok("active\n"));
    runner.push("ssh", ScriptedRunner::ok(""));
    runner.push("ssh", ScriptedRunner::ok("inactive\n"));
    runner.push("ssh", ScriptedRunner::ok(""));
    runner.push("ssh", ScriptedRunner::ok(""));
    runner.push("ssh", ScriptedRunner::ok(""));
    let opts = RemoteOptions { host: "box.example".into(), ..RemoteOptions::default() };
    let ssh = probe_ssh_surface(&mut Runs::new(&runner), &opts, false).unwrap();
    assert_eq!(ssh.status, "ok");
    let cli = probe_cli_surface(&mut Runs::new(&runner), &opts, false).unwrap();
    assert!(cli.current);
    let api = probe_api_surface(&mut Runs::new(&runner), &NoHttp, &opts, false, &local()).unwrap();
    assert!(api.url.contains("box.example"));
    let (pc, bx) = probe_mcp_surface(&mut Runs::new(&runner), &NoHttp, &opts, false, &local()).unwrap();
    assert!(pc.http_url.contains("box.example"));
    assert!(bx.http_url.contains("box.example"));
}

#[test]
fn scripted_unexpected_and_exhausted() {
    let runner = ScriptedRunner::default();
    let err = runner.run("nope", &[], &[], StdioMode::Capture).unwrap_err();
    assert!(err.to_text().contains("unexpected"));
    runner.push("once", ScriptedRunner::ok(""));
    runner.run("once", &[], &[], StdioMode::Capture).unwrap();
    let err = runner.run("once", &[], &[], StdioMode::Capture).unwrap_err();
    assert!(err.to_text().contains("no more replies"));
}

fn local_bins(dir: &str) -> horto_os_ui_shared::remote::bins::LocalBins {
    horto_os_ui_shared::remote::bins::bins_in_dir(dir)
}

#[test]
fn install_ecosystem_services_none_is_noop() {
    let bins = local_bins("/tmp/src");
    let plan = ecosystem_install_plan(
        &bins,
        "/tmp/dest",
        "/tmp/etc",
        EcosystemInstallChoice::none(),
    );
    assert!(plan.is_none());
}

#[test]
fn install_ecosystem_services_copies_and_enables_both() {
    let bins = local_bins("/tmp/src");
    let plan = ecosystem_install_plan(&bins, "/tmp/dest", "/tmp/etc", EcosystemInstallChoice::both())
        .unwrap();
    assert_eq!(plan.api_env.as_deref(), Some("/tmp/etc/horto-os-ui/api.env"));
    let dests: Vec<&str> = plan.copies.iter().map(|(_, d)| d.as_str()).collect();
    assert_eq!(
        dests,
        vec![
            "/tmp/dest/horto-os-ui",
            "/tmp/dest/horto-os-ui-tui",
            "/tmp/dest/horto-os-ui-status-api",
            "/tmp/dest/horto-os-ui-mcp",
        ]
    );
    assert_eq!(plan.copies[0].0, "/tmp/src/horto-os-ui");
    assert_eq!(plan.units.len(), 2);
    assert_eq!(plan.units[0].0, "/tmp/etc/systemd/system/horto-os-ui-status-api.service");
    assert!(plan.units[1].1.contains("/tmp/dest/horto-os-ui-mcp"));
    let runner = ScriptedRunner::default();
    for _ in 0..3 {
        runner.push("systemctl", ScriptedRunner::ok(""));
    }
    enable_ecosystem_units(&mut Runs::new(&runner), &plan.systemctl).unwrap();
    let calls = runner.calls.lock().unwrap();
    assert_eq!(calls.len(), 3);
    assert_eq!(calls[0].1, vec!["daemon-reload".to_owned()]);
    assert_eq!(calls[2].1, vec!["enable", "--now", "horto-os-ui-mcp.service"]);
}

#[test]
fn install_ecosystem_services_mcp_only_skips_api_env() {
    let bins = local_bins("/tmp/src");
    let plan = ecosystem_install_plan(
        &bins,
        "/usr/local/bin",
        "/etc",
        EcosystemInstallChoice { status_api: false, mcp: true },
    )
    .unwrap();
    assert!(plan.api_env.is_none());
    assert_eq!(plan.copies.len(), 3);
    assert_eq!(plan.units.len(), 1);
    assert_eq!(plan.units[0].0, "/etc/systemd/system/horto-os-ui-mcp.service");
    assert_eq!(plan.systemctl.len(), 2);
}

#[test]
fn install_ecosystem_services_systemctl_failure() {
    let runner = ScriptedRunner::default();
    runner.push("systemctl", ScriptedRunner::ok(""));
    runner.push("systemctl", ScriptedRunner::fail(1, "unit not found"));
    let err = enable_ecosystem_units(&mut Runs::new(&runner), &systemctl_arg_lists(true, false)).unwrap_err();
    assert_eq!(err.to_text(), "systemctl failed: exit 1: unit not found");
}

#[test]
fn ensure_download_and_extract_success() {
    let runner = ScriptedRunner::default();
    runner.push("curl", ScriptedRunner::ok(""));
    runner.push("tar", ScriptedRunner::ok(""));
    download_release(&mut Runs::new(&runner), "owner/repo", "v0.1.0", "0.1.0", BoxArch::Arm64, "/tmp/cache").unwrap();
    assert_eq!(runner.programs(), vec!["curl".to_owned(), "tar".to_owned()]);
    let calls = runner.calls.lock().unwrap();
    assert!(calls[0].1.iter().any(|a| a.starts_with("https://github.com/owner/repo/releases/download/v0.1.0/")));
    assert!(calls[1].1.iter().any(|a| a == "/tmp/cache"));
}

#[test]
fn tar_failure_uses_stderr_detail() {
    let runner = ScriptedRunner::default();
    runner.push("curl", ScriptedRunner::ok(""));
    runner.push("tar", ScriptedRunner::fail(2, "bad archive"));
    let err = download_release(&mut Runs::new(&runner), "o/r", "tip", "0.1.0", BoxArch::Amd64, "/c").unwrap_err();
    assert!(err.to_text().contains("bad archive"));
    assert!(err.to_text().starts_with("tar failed"));
}

fn push_upload(runner: &ScriptedRunner) {
    runner.push("ssh", ScriptedRunner::ok(""));
    runner.push("scp", ScriptedRunner::ok(""));
    runner.push("ssh", ScriptedRunner::ok(""));
}

fn stale_request(allow: bool) -> RemoteRunRequest {
    RemoteRunRequest {
        options: box_opts(),
        cli_args: vec![
            "--no-install-status-api".into(),
            "setup".into(),
            "run".into(),
            "--full".into(),
        ],
        flags: RemoteRunFlags {
            use_sudo: false,
            install_payload_on_success: false,
            offer_reboot_on_success: false,
            capture_output: false,
            allow_stale_cli: allow,
        },
        ecosystem: EcosystemInstallChoice::none(),
        sudo_password: None,
    }
}

fn last_ssh_args(runner: &ScriptedRunner) -> String {
    runner
        .calls
        .lock()
        .unwrap()
        .iter()
        .rev()
        .find(|c| c.0 == "ssh")
        .map(|c| c.1.join(" "))
        .unwrap_or_default()
}

#[test]
fn remote_run_refuses_stale_cli_unless_allowed() {
    let bins = local_bins("/stubs");
    let runner = ScriptedRunner::default();
    push_cli_probes_missing(&runner);
    push_upload(&runner);
    runner.push("ssh", ScriptedRunner::ok("0.0.0 (deadbeef)\n"));
    runner.push("ssh", ScriptedRunner::fail(1, "missing"));
    let err = remote_run_cli(&mut Runs::new(&runner), &stale_request(false), &bins).unwrap_err();
    let msg = err.to_text();
    assert!(msg.contains("out of date"), "unexpected err: {msg}");
    assert!(msg.contains("deadbeef"), "unexpected err: {msg}");

    let runner2 = ScriptedRunner::default();
    push_cli_probes_missing(&runner2);
    push_upload(&runner2);
    runner2.push("ssh", ScriptedRunner::ok("0.0.0 (deadbeef)\n"));
    runner2.push("ssh", ScriptedRunner::fail(1, "missing"));
    runner2.push("ssh", ScriptedRunner::ok("stale ok\n"));
    let log = remote_run_cli(&mut Runs::new(&runner2), &stale_request(true), &bins).unwrap().log;
    assert!(log.contains("stale ok"));
    let cmd = last_ssh_args(&runner2);
    assert!(!cmd.contains("--no-install-status-api"));
    assert!(cmd.contains("setup run --full"));
}

fn minimal_args() -> RemoteSetupRunArgs {
    RemoteSetupRunArgs {
        options: box_opts(),
        apply: false,
        full: false,
        skip_piper: true,
        ecosystem: EcosystemInstallChoice::none(),
        stack_opts: StackOpts::none(),
        allow_stale_cli: false,
        capture_output: false,
        offer_reboot: false,
        sudo_password: None,
    }
}

fn check_setup_run_minimal() {
    let bins = local_bins("/stubs");
    let runner = ScriptedRunner::default();
    push_cli_probes_missing(&runner);
    push_upload(&runner);
    push_cli_probe_current(&runner);
    runner.push("ssh", ScriptedRunner::ok("pipeline ok\n"));
    let log = remote_setup_run(&mut Runs::new(&runner), minimal_args(), &bins).unwrap().log;
    assert!(log.contains("pipeline ok") || log.contains("remote command"));
    let cli_ssh = last_ssh_args(&runner);
    assert!(!cli_ssh.contains("--apply"));
    assert!(cli_ssh.contains("--skip-piper"));
    assert!(cli_ssh.contains("--minimal"));
}

#[test]
fn runner_remote_setup_run_plan_minimal_skip_piper() {
    check_setup_run_minimal();
}

#[test]
fn mod_remote_setup_run_plan_minimal_skip_piper() {
    check_setup_run_minimal();
}

#[test]
fn runner_remote_setup_run_full_apply_captures_token() {
    let token = "ffeeddccbbaa99887766554433221100";
    let bins = local_bins("/stubs");
    let runner = ScriptedRunner::default();
    push_cli_probes_missing(&runner);
    push_upload(&runner);
    push_cli_probe_current(&runner);
    runner.push("ssh", ScriptedRunner::ok("setup ok\n"));
    // payload: staging dir, rsync missing locally, scp copies, enable script
    runner.push("ssh", ScriptedRunner::ok(""));
    runner.push("rsync", ScriptedRunner::fail(127, "no"));
    runner.push("ssh", ScriptedRunner::ok(""));
    for _ in 0..4 {
        runner.push("scp", ScriptedRunner::ok(""));
    }
    runner.push("ssh", ScriptedRunner::ok(""));
    runner.push("ssh", ScriptedRunner::ok(&format!("HORTO_API_TOKEN={token}\n")));
    runner.push("ssh", ScriptedRunner::ok(""));
    runner.push("ssh", ScriptedRunner::ok("horto-os-ui-status-api 0.1.0 (abc)\n"));
    runner.push("ssh", ScriptedRunner::ok(r#"{"cli_version":"0.1.0 (abc)"}"#));
    let args = RemoteSetupRunArgs {
        apply: true,
        full: true,
        skip_piper: false,
        ecosystem: EcosystemInstallChoice { status_api: true, mcp: false },
        ..minimal_args()
    };
    let outcome = remote_setup_run(&mut Runs::new(&runner), args, &bins).unwrap();
    assert!(outcome.log.contains("setup ok"));
    assert_eq!(outcome.api_token.as_deref(), Some(token));
    let cli_ssh = runner
        .calls
        .lock()
        .unwrap()
        .iter()
        .find(|(p, args, _, _)| p == "ssh" && args.iter().any(|a| a.contains("--full")))
        .map(|(_, args, _, _)| args.join(" "))
        .unwrap_or_default();
    assert!(cli_ssh.contains("--full"));
    assert!(cli_ssh.contains("--apply"));
}

#[test]
fn remote_probe_arch_sends_uname() {
    let runner = ScriptedRunner::default();
    runner.push("ssh", ScriptedRunner::ok("aarch64\n"));
    assert_eq!(remote_probe_arch(&mut Runs::new(&runner), &box_opts()).unwrap(), BoxArch::Arm64);
    let calls = runner.calls.lock().unwrap();
    assert_eq!(calls.len(), 1);
    let args = &calls[0].1;
    assert_eq!(&args[args.len() - 2..], &["box".to_owned(), "uname -m".to_owned()]);
}

fn check_upload_cli_scps_once() {
    let bins = local_bins("/stubs");
    let runner = ScriptedRunner::default();
    push_upload(&runner);
    runner.push("ssh", ScriptedRunner::fail(1, "missing"));
    runner.push("ssh", ScriptedRunner::ok(&format!("{LONG_VERSION}\n")));
    let p = remote_upload_cli(&mut Runs::new(&runner), &box_opts(), &bins).unwrap();
    assert!(p.current);
    assert_eq!(p.path.as_deref(), Some("/tmp/horto-os-ui-remote/horto-os-ui"));
    let calls = runner.calls.lock().unwrap();
    let scps: Vec<&RecordedCall> = calls.iter().filter(|c| c.0 == "scp").collect();
    assert_eq!(scps.len(), 1);
    let args = &scps[0].1;
    assert_eq!(args[args.len() - 2], "/stubs/horto-os-ui");
    assert_eq!(args[args.len() - 1], "box:/tmp/horto-os-ui-remote/horto-os-ui");
    assert!(calls[0].1.iter().any(|a| a.contains("mkdir -p")));
}

#[test]
fn runner_remote_upload_cli_scps_once() {
    check_upload_cli_scps_once();
}

#[test]
fn mod_remote_upload_cli_scps_once() {
    check_upload_cli_scps_once();
}

#[test]
fn remote_install_payload_without_choice_makes_no_call() {
    let bins = local_bins("/stubs");
    let runner = ScriptedRunner::default();
    let got = remote_install_payload(
        &mut Runs::new(&runner),
        &box_opts(),
        &bins,
        EcosystemInstallChoice::none(),
        None,
    )
    .unwrap();
    assert_eq!(got, None);
    assert!(runner.programs().is_empty());
}

#[test]
fn remote_install_payload_mcp_without_binary_makes_no_call() {
    let bins = local_bins("/stubs");
    let mut no_mcp = bins.clone();
    no_mcp.mcp = None;
    let runner = ScriptedRunner::default();
    let choice = EcosystemInstallChoice { status_api: false, mcp: true };
    let got = remote_install_payload(&mut Runs::new(&runner), &box_opts(), &no_mcp, choice, None).unwrap();
    assert_eq!(got, None);
    assert!(runner.programs().is_empty());
}

#[test]
fn cache_root_from_prefers_xdg_then_home_then_tmp() {
    assert_eq!(cache_root_from(Some("/xdg"), Some("/home/u")), "/xdg/horto-os-ui/remote-bins");
    assert_eq!(cache_root_from(None, Some("/home/u")), "/home/u/.cache/horto-os-ui/remote-bins");
    assert_eq!(cache_root_from(None, None), "/tmp/horto-os-ui/remote-bins");
    assert_eq!(cache_root_from(Some("/xdg/"), None), "/xdg/horto-os-ui/remote-bins");
}
