//! Remote CLI probe, arch detection, and box snapshot.
use vstd::prelude::*;
use crate::remote::process::{
    calls_between, lemma_calls_concat, log_grows, out_at, Entry, Runs,
};
use crate::error::{ErrorView, HortoError};
use crate::remote::arch::{box_arch_from_uname, BoxArch};
use crate::remote::host::host_spec_of;
use crate::remote::process::{reply_view, CallInput, OutputView, ProcessRunner, StdioMode};
use crate::remote::arch::arch_of_uname;
use crate::error::message_error;
use crate::remote::runner::options::{
    captured_calls, cli_captured_gives, cli_in, exec_remote_cli_captured, remote_cli_candidates, remote_install_bin,
    remote_session, session_from, shell_quote, shell_quoted, RemoteOptions,
};
use crate::remote::runner::status::{
    parse_setup_status_text, remote_json_slice, remote_json_text, row_views,
    setup_status_text_result, DoctorReport, ReportDecoder, SetupStatusReport, StepRowView,
};
use crate::remote::ssh::{opt_view, ssh_calls, ssh_gives, ssh_request, SessionView, SshSession};
use crate::text::{
    concat2, concat3, contains, contains_seq, first_nonempty_line, first_nonempty_trimmed,
    from_chars, lines, lower, lower_chars, owned, str_eq, sviews, to_chars,
};
use crate::remote::runner::apply::str_result;
use crate::LONG_VERSION;

verus! {

/// First non-empty trimmed line (empty when none).
pub open spec fn normalized_version(raw: Seq<char>) -> Seq<char> {
    first_nonempty_trimmed(lines(raw))
}

/// First line of `horto-os-ui --version` / long-version output.
pub fn normalize_cli_version(raw: &str) -> (r: String)
    ensures
        r@ == normalized_version(raw@),
{
    let c = to_chars(raw);
    let l = first_nonempty_line(c.as_slice());
    from_chars(l.as_slice())
}

/// A version line names this PC's build: bare, or after the binary name.
pub open spec fn version_line_current(v: Seq<char>) -> bool {
    v.len() > 0 && (v == LONG_VERSION@ || v == "horto-os-ui "@ + LONG_VERSION@)
}

/// The first version line of `raw` names this PC's build.
pub open spec fn version_current(raw: Seq<char>) -> bool {
    version_line_current(normalized_version(raw))
}

/// Whether an already normalized version line is this PC's build.
pub fn line_is_current(v: &str) -> (b: bool)
    ensures
        b == version_line_current(v@),
{
    if v.is_empty() {
        return false;
    }
    let prefixed = concat2("horto-os-ui ", LONG_VERSION);
    str_eq(v, LONG_VERSION) || str_eq(v, prefixed.as_str())
}

/// Whether a remote `--version` line matches this PC's baked [`LONG_VERSION`].
pub fn remote_cli_version_is_current(remote_version: &str) -> (b: bool)
    ensures
        b == version_current(remote_version@),
{
    let remote = normalize_cli_version(remote_version);
    line_is_current(remote.as_str())
}

/// Probe `uname -m` on the remote host.
pub fn remote_probe_arch<R: ProcessRunner>(runs: &mut Runs<R>, opts: &RemoteOptions) -> (r: Result<
    BoxArch,
    HortoError,
>)
    ensures
        host_spec_of(opts.host@) matches Err(e) ==> r matches Err(e2) && e2@ == e,
        host_spec_of(opts.host@) is Ok ==> exists|e: Result<OutputView, ErrorView>|
            #[trigger] ssh_gives(
                old(runs).runner(),
                remote_session(*opts),
                "uname -m"@,
                CallInput::Stdio(StdioMode::Capture),
                e,
            ) && match e {
                Err(x) => r matches Err(y) && y@ == x,
                Ok(o) => match arch_of_uname(o.stdout) {
                    Ok(a) => r == Ok::<BoxArch, HortoError>(a),
                    Err(x) => r matches Err(y) && y@ == x,
                },
            },
        final(runs).runner() == old(runs).runner(),
        log_grows(old(runs).log(), final(runs).log()),
        ({
            let t = calls_between(old(runs).log(), final(runs).log());
            match host_spec_of(opts.host@) {
                Err(_) => t.len() == 0,
                Ok(_) => {
                    &&& t.len() == 1
                    &&& t[0].0 == ssh_request(
                        remote_session(*opts),
                        "uname -m"@,
                        CallInput::Stdio(StdioMode::Capture),
                    )
                    &&& match out_at(t, 0, "ssh"@) {
                        Err(x) => r matches Err(y) && y@ == x,
                        Ok(o) => match arch_of_uname(o.stdout) {
                            Ok(a) => r == Ok::<BoxArch, HortoError>(a),
                            Err(x) => r matches Err(y) && y@ == x,
                        },
                    }
                },
            }
        }),
{
    let ghost runner = runs.runner();
    let session = session_from(opts)?;
    let res = session.exec(runs, "uname -m", StdioMode::Capture);
    assert(ssh_gives(runner, remote_session(*opts), "uname -m"@, CallInput::Stdio(StdioMode::Capture), reply_view(res)));
    let out = match res {
        Ok(o) => o,
        Err(e) => {
            return Err(e);
        },
    };
    box_arch_from_uname(out.stdout.as_str())
}

/// How to show the box CLI after SSH was attempted.
#[derive(Debug, Clone, PartialEq, Eq)]
pub enum RemoteBoxCliStatus {
    /// SSH worked; no `horto-os-ui --version` on install/agent paths.
    Missing,
    /// SSH authentication failed (password/key).
    AuthFailed,
    /// Host unreachable / DNS / connection refused / timeout.
    Unreachable,
    /// Version line from the box (current or stale).
    Found(String),
}

/// Mathematical value of a [`RemoteBoxCliStatus`].
pub enum CliStatusView {
    Missing,
    AuthFailed,
    Unreachable,
    Found(Seq<char>),
}

impl View for RemoteBoxCliStatus {
    type V = CliStatusView;

    open spec fn view(&self) -> CliStatusView {
        match self {
            RemoteBoxCliStatus::Missing => CliStatusView::Missing,
            RemoteBoxCliStatus::AuthFailed => CliStatusView::AuthFailed,
            RemoteBoxCliStatus::Unreachable => CliStatusView::Unreachable,
            RemoteBoxCliStatus::Found(v) => CliStatusView::Found(v@),
        }
    }
}

pub open spec fn status_label(s: CliStatusView) -> Seq<char> {
    match s {
        CliStatusView::Missing => "missing"@,
        CliStatusView::AuthFailed => "auth failed"@,
        CliStatusView::Unreachable => "unreachable"@,
        CliStatusView::Found(v) => v,
    }
}

impl RemoteBoxCliStatus {
    /// Compact footer/overview label (`missing`, `auth failed`, version, …).
    pub fn as_label(&self) -> (r: &str)
        ensures
            r@ == status_label(self@),
    {
        match self {
            RemoteBoxCliStatus::Missing => "missing",
            RemoteBoxCliStatus::AuthFailed => "auth failed",
            RemoteBoxCliStatus::Unreachable => "unreachable",
            RemoteBoxCliStatus::Found(v) => v.as_str(),
        }
    }
}

/// OpenSSH failure text that means authentication (case-insensitive).
pub open spec fn auth_failure_text(detail: Seq<char>) -> bool {
    let d = lower(detail);
    ||| contains(d, "permission denied"@)
    ||| contains(d, "authentication failed"@)
    ||| contains(d, "auth failed"@)
    ||| contains(d, "too many authentication"@)
    ||| contains(d, "no supported authentication"@)
    ||| contains(d, "connection closed by remote host"@)
}

/// Classify OpenSSH failure text into auth vs unreachable (best-effort).
pub fn classify_ssh_failure(detail: &str) -> (s: RemoteBoxCliStatus)
    ensures
        s@ == (if auth_failure_text(detail@) {
            CliStatusView::AuthFailed
        } else {
            CliStatusView::Unreachable
        }),
{
    let c = to_chars(detail);
    let d = lower_chars(c.as_slice());
    let p1 = to_chars("permission denied");
    let p2 = to_chars("authentication failed");
    let p3 = to_chars("auth failed");
    let p4 = to_chars("too many authentication");
    let p5 = to_chars("no supported authentication");
    let p6 = to_chars("connection closed by remote host");
    if contains_seq(d.as_slice(), p1.as_slice()) || contains_seq(d.as_slice(), p2.as_slice())
        || contains_seq(d.as_slice(), p3.as_slice()) || contains_seq(d.as_slice(), p4.as_slice())
        || contains_seq(d.as_slice(), p5.as_slice()) || contains_seq(d.as_slice(), p6.as_slice()) {
        return RemoteBoxCliStatus::AuthFailed;
    }
    RemoteBoxCliStatus::Unreachable
}

/// Detail of an `ssh` / `scp` command failure.
pub open spec fn ssh_detail_of(e: ErrorView) -> Option<Seq<char>> {
    match e {
        ErrorView::CommandFailed { program, detail } => if program == "ssh"@ || program
            == "scp"@ {
            Some(detail)
        } else {
            None
        },
        _ => None,
    }
}

/// The failure detail of an `ssh` / `scp` error; `None` for any other error.
pub fn ssh_command_detail(err: &HortoError) -> (r: Option<&str>)
    ensures
        match r {
            Some(d) => ssh_detail_of(err@) == Some(d@),
            None => ssh_detail_of(err@) is None,
        },
{
    match err {
        HortoError::CommandFailed { program, detail } => {
            if str_eq(program.as_str(), "ssh") || str_eq(program.as_str(), "scp") {
                Some(detail.as_str())
            } else {
                None
            }
        },
        _ => None,
    }
}

/// Result of probing CLI binaries already on the box (no SCP).
#[derive(Debug, Clone, PartialEq, Eq)]
pub struct RemoteCliProbe {
    /// Absolute path of the binary that answered `--version`, when any.
    pub path: Option<String>,
    /// Normalized version line from the box, when any.
    pub version: Option<String>,
    /// True when [`version`](Self::version) matches this PC's [`LONG_VERSION`].
    pub current: bool,
    /// Operator-facing box CLI label after a probe (never "not yet refreshed").
    pub status: RemoteBoxCliStatus,
}

/// Probe carrying only a status (no path or version).
pub fn probe_from_status(status: RemoteBoxCliStatus) -> (p: RemoteCliProbe)
    ensures
        p.path is None,
        p.version is None,
        !p.current,
        p.status == status,
{
    RemoteCliProbe { path: None, version: None, current: false, status }
}

/// Probe of a binary that answered with `version`.
pub fn probe_found(path: String, version: String, current: bool) -> (p: RemoteCliProbe)
    ensures
        p.path == Some(path),
        p.version matches Some(v) && v@ == version@,
        p.current == current,
        p.status@ == CliStatusView::Found(version@),
{
    let v2 = owned(version.as_str());
    RemoteCliProbe {
        path: Some(path),
        version: Some(v2),
        current,
        status: RemoteBoxCliStatus::Found(version),
    }
}

/// What every probe result satisfies: a found version is non-empty and comes
/// with the candidate path that printed it; `current` only for a current one.
pub open spec fn probe_consistent(p: RemoteCliProbe, install_dir: Seq<char>, agent_dir: Seq<char>) -> bool {
    match p.status@ {
        CliStatusView::Found(v) => {
            &&& v.len() > 0
            &&& p.version matches Some(pv) && pv@ == v
            &&& p.path matches Some(path) && (path@ == cli_in(install_dir) || path@ == cli_in(
                agent_dir,
            ))
            &&& p.current == version_line_current(v)
        },
        _ => p.path is None && p.version is None && !p.current,
    }
}

/// `test -x <bin> && <bin> --version`.
pub open spec fn version_probe_cmd(bin_quoted: Seq<char>) -> Seq<char> {
    "test -x "@ + bin_quoted + " && "@ + bin_quoted + " --version"@
}

/// Remote exit detail of a missing / non-executable binary (`exit 1` / `exit 127`).
pub open spec fn remote_test_failed(detail: Seq<char>) -> bool {
    contains(lower(detail), "exit 1"@) || contains(lower(detail), "exit 127"@)
}

/// Mathematical value of a [`RemoteCliProbe`].
pub struct CliProbeView {
    pub path: Option<Seq<char>>,
    pub version: Option<Seq<char>>,
    pub current: bool,
    pub status: CliStatusView,
}

impl View for RemoteCliProbe {
    type V = CliProbeView;

    open spec fn view(&self) -> CliProbeView {
        CliProbeView {
            path: opt_view(self.path),
            version: opt_view(self.version),
            current: self.current,
            status: self.status@,
        }
    }
}

/// What one `--version` attempt tells the probe.
pub enum CliAnswer {
    /// The command ran on the box but printed no version (or the binary is missing there).
    Ran,
    /// The binary printed this version line.
    Version(Seq<char>),
    /// SSH itself failed: the probe stops with this status.
    Stop(CliStatusView),
}

/// How a reply to `test -x <bin> && <bin> --version` is read.
pub open spec fn cli_answer(e: Result<OutputView, ErrorView>) -> CliAnswer {
    match e {
        Ok(o) => if normalized_version(o.stdout).len() == 0 {
            CliAnswer::Ran
        } else {
            CliAnswer::Version(normalized_version(o.stdout))
        },
        Err(err) => match ssh_detail_of(err) {
            Some(d) => if remote_test_failed(d) {
                CliAnswer::Ran
            } else {
                CliAnswer::Stop(
                    if auth_failure_text(d) {
                        CliStatusView::AuthFailed
                    } else {
                        CliStatusView::Unreachable
                    },
                )
            },
            None => CliAnswer::Stop(CliStatusView::Unreachable),
        },
    }
}

/// A probe carrying only a status.
pub open spec fn status_probe(s: CliStatusView) -> CliProbeView {
    CliProbeView { path: None, version: None, current: false, status: s }
}

/// A probe of the binary at `path` that printed `v`.
pub open spec fn found_probe(path: Seq<char>, v: Seq<char>, current: bool) -> CliProbeView {
    CliProbeView { path: Some(path), version: Some(v), current, status: CliStatusView::Found(v) }
}

/// Whether the first answer ends the probe (SSH failed, or the binary is current).
pub open spec fn first_answer_decides(a: CliAnswer) -> bool {
    ||| a is Stop
    ||| (a matches CliAnswer::Version(v) && version_line_current(v))
}

/// The probe result from the answers for the install-dir binary `p1` and,
/// when asked, the agent-dir binary `p2`: a current binary wins, an SSH
/// failure stops, the later stale version is kept, else `missing`.
pub open spec fn cli_probe_outcome(a1: CliAnswer, a2: CliAnswer, p1: Seq<char>, p2: Seq<char>) -> CliProbeView {
    match a1 {
        CliAnswer::Stop(s) => status_probe(s),
        CliAnswer::Version(v) if version_line_current(v) => found_probe(p1, v, true),
        _ => match a2 {
            CliAnswer::Stop(s) => status_probe(s),
            CliAnswer::Version(v) => found_probe(p2, v, version_line_current(v)),
            CliAnswer::Ran => match a1 {
                CliAnswer::Version(v) => found_probe(p1, v, false),
                _ => status_probe(CliStatusView::Missing),
            },
        },
    }
}

/// The version command for the binary at `path`.
pub open spec fn version_cmd_for(path: Seq<char>) -> Seq<char> {
    version_probe_cmd(shell_quoted(path))
}

/// Whether `p` is what [`probe_remote_cli`] concludes when `runner` answers
/// its version requests: the install-dir binary is asked first, the agent-dir
/// one only when the first answer does not decide.
pub open spec fn cli_probe_gives<R: ProcessRunner>(
    runner: R,
    s: SessionView,
    install_dir: Seq<char>,
    agent_dir: Seq<char>,
    p: CliProbeView,
) -> bool {
    exists|e1: Result<OutputView, ErrorView>|
        #[trigger] ssh_gives(
            runner,
            s,
            version_cmd_for(cli_in(install_dir)),
            CallInput::Stdio(StdioMode::Capture),
            e1,
        ) && if first_answer_decides(cli_answer(e1)) {
            p == cli_probe_outcome(cli_answer(e1), CliAnswer::Ran, cli_in(install_dir), cli_in(agent_dir))
        } else {
            exists|e2: Result<OutputView, ErrorView>|
                #[trigger] ssh_gives(
                    runner,
                    s,
                    version_cmd_for(cli_in(agent_dir)),
                    CallInput::Stdio(StdioMode::Capture),
                    e2,
                ) && p == cli_probe_outcome(
                    cli_answer(e1),
                    cli_answer(e2),
                    cli_in(install_dir),
                    cli_in(agent_dir),
                )
        }
}

/// Whether `t` is exactly the calls of [`probe_remote_cli`] and `p` its
/// result: the install-dir version request, then the agent-dir one only
/// when the first answer does not decide.
pub open spec fn probe_calls(
    t: Seq<Entry>,
    s: SessionView,
    install_dir: Seq<char>,
    agent_dir: Seq<char>,
    p: CliProbeView,
) -> bool {
    let a1 = cli_answer(out_at(t, 0, "ssh"@));
    &&& t.len() >= 1
    &&& t[0].0 == ssh_request(s, version_cmd_for(cli_in(install_dir)), CallInput::Stdio(StdioMode::Capture))
    &&& if first_answer_decides(a1) {
        t.len() == 1 && p == cli_probe_outcome(a1, CliAnswer::Ran, cli_in(install_dir), cli_in(agent_dir))
    } else {
        &&& t.len() == 2
        &&& t[1].0 == ssh_request(s, version_cmd_for(cli_in(agent_dir)), CallInput::Stdio(StdioMode::Capture))
        &&& p == cli_probe_outcome(
            a1,
            cli_answer(out_at(t, 1, "ssh"@)),
            cli_in(install_dir),
            cli_in(agent_dir),
        )
    }
}

/// Exec value of a [`CliAnswer`].
enum VersionAnswer {
    Ran,
    Version(String),
    Stop(RemoteBoxCliStatus),
}

spec fn answer_view(a: VersionAnswer) -> CliAnswer {
    match a {
        VersionAnswer::Ran => CliAnswer::Ran,
        VersionAnswer::Version(v) => CliAnswer::Version(v@),
        VersionAnswer::Stop(s) => CliAnswer::Stop(s@),
    }
}

/// Ask the binary at `path` for its version over SSH.
fn ask_cli_version<R: ProcessRunner>(runs: &mut Runs<R>, session: &SshSession, path: &str) -> (a:
    VersionAnswer)
    ensures
        exists|e: Result<OutputView, ErrorView>|
            #[trigger] ssh_gives(
                old(runs).runner(),
                session@,
                version_cmd_for(path@),
                CallInput::Stdio(StdioMode::Capture),
                e,
            ) && answer_view(a) == cli_answer(e),
        final(runs).runner() == old(runs).runner(),
        log_grows(old(runs).log(), final(runs).log()),
        ({
            let t = calls_between(old(runs).log(), final(runs).log());
            &&& t.len() == 1
            &&& t[0].0 == ssh_request(session@, version_cmd_for(path@), CallInput::Stdio(StdioMode::Capture))
            &&& answer_view(a) == cli_answer(out_at(t, 0, "ssh"@))
        }),
{
    let ghost runner = runs.runner();
    let q = shell_quote(path);
    let mut cmd = concat3("test -x ", q.as_str(), " && ");
    cmd.append(q.as_str());
    cmd.append(" --version");
    let res = session.exec(runs, cmd.as_str(), StdioMode::Capture);
    assert(cmd@ == version_cmd_for(path@));
    assert(ssh_gives(runner, session@, version_cmd_for(path@), CallInput::Stdio(StdioMode::Capture), reply_view(res)));
    match res {
        Ok(out) => {
            let ver = normalize_cli_version(out.stdout.as_str());
            if ver.as_str().is_empty() {
                VersionAnswer::Ran
            } else {
                VersionAnswer::Version(ver)
            }
        },
        Err(e) => {
            match ssh_command_detail(&e) {
                Some(detail) => {
                    let dc = to_chars(detail);
                    let low = lower_chars(dc.as_slice());
                    let exit1 = to_chars("exit 1");
                    let exit127 = to_chars("exit 127");
                    if contains_seq(low.as_slice(), exit1.as_slice()) || contains_seq(
                        low.as_slice(),
                        exit127.as_slice(),
                    ) {
                        VersionAnswer::Ran
                    } else {
                        VersionAnswer::Stop(classify_ssh_failure(detail))
                    }
                },
                None => VersionAnswer::Stop(RemoteBoxCliStatus::Unreachable),
            }
        },
    }
}

/// Probe install-dir then agent-dir CLI versions over SSH (never SCP).
///
/// Auth / unreachable / missing CLI come back as `Ok` with the matching
/// [`RemoteCliProbe::status`]; this function never fails.
pub fn probe_remote_cli<R: ProcessRunner>(
    runs: &mut Runs<R>,
    session: &SshSession,
    opts: &RemoteOptions,
) -> (r: Result<RemoteCliProbe, HortoError>)
    ensures
        r matches Ok(p) && probe_consistent(p, opts.install_dir@, opts.remote_agent_dir@),
        r matches Ok(p) && cli_probe_gives(old(runs).runner(), session@, opts.install_dir@, opts.remote_agent_dir@, p@),
        final(runs).runner() == old(runs).runner(),
        log_grows(old(runs).log(), final(runs).log()),
        r matches Ok(p) && probe_calls(
            calls_between(old(runs).log(), final(runs).log()),
            session@,
            opts.install_dir@,
            opts.remote_agent_dir@,
            p@,
        ),
{
    let ghost runner = runs.runner();
    let ghost l0 = runs.log();
    let cands = remote_cli_candidates(opts);
    let p1 = &cands[0];
    let p2 = &cands[1];
    let a1 = ask_cli_version(runs, session, p1.as_str());
    let ghost l1 = runs.log();
    let ghost e1 = choose|e: Result<OutputView, ErrorView>|
        #[trigger] ssh_gives(runner, session@, version_cmd_for(p1@), CallInput::Stdio(StdioMode::Capture), e)
            && answer_view(a1) == cli_answer(e);
    let ghost c1 = cli_in(opts.install_dir@);
    let ghost c2 = cli_in(opts.remote_agent_dir@);
    let ghost a1v = answer_view(a1);
    let stale: Option<String> = match a1 {
        VersionAnswer::Stop(s) => {
            let p = probe_from_status(s);
            assert(p@ == cli_probe_outcome(cli_answer(e1), CliAnswer::Ran, c1, c2));
            return Ok(p);
        },
        VersionAnswer::Version(v) => {
            if line_is_current(v.as_str()) {
                let p = probe_found(owned(p1.as_str()), v, true);
                assert(p@ == cli_probe_outcome(cli_answer(e1), CliAnswer::Ran, c1, c2));
                return Ok(p);
            }
            Some(v)
        },
        VersionAnswer::Ran => None,
    };
    let a2 = ask_cli_version(runs, session, p2.as_str());
    proof {
        lemma_calls_concat(l0, l1, runs.log());
    }
    let ghost e2 = choose|e: Result<OutputView, ErrorView>|
        #[trigger] ssh_gives(runner, session@, version_cmd_for(p2@), CallInput::Stdio(StdioMode::Capture), e)
            && answer_view(a2) == cli_answer(e);
    let p = match a2 {
        VersionAnswer::Stop(s) => probe_from_status(s),
        VersionAnswer::Version(v) => {
            let current = line_is_current(v.as_str());
            probe_found(owned(p2.as_str()), v, current)
        },
        VersionAnswer::Ran => match stale {
            Some(v) => probe_found(owned(p1.as_str()), v, false),
            None => probe_from_status(RemoteBoxCliStatus::Missing),
        },
    };
    assert(p@ == cli_probe_outcome(cli_answer(e1), cli_answer(e2), c1, c2));
    Ok(p)
}

/// Setup status + doctor from the box without uploading (TUI `r`).
#[derive(Debug, Clone)]
pub struct RemoteBoxSnapshot {
    /// Whether box CLI long-version matches this PC.
    pub cli_current: bool,
    /// Box CLI version line when a binary answered `--version`.
    pub cli_version: Option<String>,
    /// Operator-facing box CLI status after the probe.
    pub cli_status: RemoteBoxCliStatus,
    /// Pipeline step rows from the box (only when [`cli_current`](Self::cli_current)).
    pub setup: Option<SetupStatusReport>,
    /// Doctor JSON from the box (only when current).
    pub doctor: Option<DoctorReport>,
}

/// Reports are present exactly when the box CLI is current; the version and
/// status agree with the probe that produced them.
pub open spec fn snapshot_consistent(s: RemoteBoxSnapshot) -> bool {
    &&& s.cli_current <==> s.setup is Some
    &&& s.cli_current <==> s.doctor is Some
    &&& match s.cli_status@ {
        CliStatusView::Found(v) => s.cli_version matches Some(x) && x@ == v && s.cli_current
            == version_line_current(v),
        _ => s.cli_version is None && !s.cli_current,
    }
}

/// `setup status --full|--minimal [--json]`.
pub fn setup_status_args(full: bool, json: bool) -> (args: Vec<String>)
    ensures
        sviews(args@) == seq!["setup"@, "status"@, if full {
            "--full"@
        } else {
            "--minimal"@
        }] + if json {
            seq!["--json"@]
        } else {
            seq![]
        },
{
    let mut args: Vec<String> = Vec::new();
    args.push(owned("setup"));
    args.push(owned("status"));
    if full {
        args.push(owned("--full"));
    } else {
        args.push(owned("--minimal"));
    }
    if json {
        args.push(owned("--json"));
    }
    proof {
        let want = seq!["setup"@, "status"@, if full {
            "--full"@
        } else {
            "--minimal"@
        }] + if json {
            seq!["--json"@]
        } else {
            seq![]
        };
        assert(sviews(args@) =~= want);
    }
    args
}

/// `setup status --full|--minimal [--json]` as words.
pub open spec fn status_args_of(full: bool, json: bool) -> Seq<Seq<char>> {
    seq!["setup"@, "status"@, if full {
        "--full"@
    } else {
        "--minimal"@
    }] + if json {
        seq!["--json"@]
    } else {
        seq![]
    }
}

/// `doctor` as words.
pub open spec fn doctor_args_of() -> Seq<Seq<char>> {
    seq!["doctor"@]
}

/// Mathematical value of a setup report: kind and step rows.
pub open spec fn setup_view(rep: SetupStatusReport) -> (Seq<char>, Seq<StepRowView>) {
    (rep.kind@, row_views(rep.steps@))
}

/// Whether a captured log holds a JSON slice the decoder may read.
pub open spec fn json_log_ok(j: Result<Seq<char>, ErrorView>) -> bool {
    j matches Ok(log) && remote_json_text(log) is Ok
}

/// The snapshot fields that come from the probe.
pub open spec fn cli_fields_from(x: RemoteBoxSnapshot, p: CliProbeView) -> bool {
    &&& x.cli_current == p.current
    &&& opt_view(x.cli_version) == p.version
    &&& x.cli_status@ == p.status
}

/// Mathematical value of a decoder's answer.
pub open spec fn decoded_view<T>(r: Result<T, HortoError>) -> Result<T, ErrorView> {
    match r {
        Ok(x) => Ok(x),
        Err(e) => Err(e@),
    }
}

/// The JSON part of a captured log (empty when there is none).
pub open spec fn json_part(log: Seq<char>) -> Seq<char> {
    match remote_json_text(log) {
        Ok(j) => j,
        Err(_) => Seq::<char>::empty(),
    }
}

/// Where the setup report of a current snapshot came from: the decoded JSON
/// report, or the kind and rows read from the text form.
pub open spec fn setup_from(
    x: Option<SetupStatusReport>,
    setup: Result<SetupStatusReport, (Seq<char>, Seq<StepRowView>)>,
) -> bool {
    match setup {
        Ok(rep) => x == Some(rep),
        Err(v) => x matches Some(y) && setup_view(y) == v,
    }
}

/// What a current snapshot makes of the `doctor` log `d`: its JSON slice
/// goes to the decoder, and a decoded report `doc` gives the snapshot with
/// `doctor == Some(doc)` and the setup report `setup`; any failure is the error.
pub open spec fn doctor_outcome<D: ReportDecoder>(
    decoder: D,
    d: Result<Seq<char>, ErrorView>,
    p: CliProbeView,
    setup: Result<SetupStatusReport, (Seq<char>, Seq<StepRowView>)>,
    r: Result<RemoteBoxSnapshot, HortoError>,
) -> bool {
    match d {
        Err(e) => r matches Err(e2) && e2@ == e,
        Ok(log) => match remote_json_text(log) {
            Err(e) => r matches Err(e2) && e2@ == e,
            Ok(js) => exists|dr: Result<DoctorReport, ErrorView>|
                #[trigger] decoder.may_decode_doctor(js, dr) && match dr {
                    Err(e) => r matches Err(e2) && e2@ == e,
                    Ok(doc) => r matches Ok(x) && cli_fields_from(x, p) && x.doctor == Some(doc)
                        && setup_from(x.setup, setup),
                },
        },
    }
}

/// Whether `sr` is what the JSON `setup status` log `j` gave: the decoder's
/// verdict on its JSON slice, or an error when there is no slice.
pub open spec fn json_setup_choice<D: ReportDecoder>(
    decoder: D,
    j: Result<Seq<char>, ErrorView>,
    sr: Result<SetupStatusReport, ErrorView>,
) -> bool {
    if json_log_ok(j) {
        decoder.may_decode_setup(json_part(j->Ok_0), sr)
    } else {
        sr is Err
    }
}

/// Last step of a current snapshot: the `doctor` run, then [`doctor_outcome`].
pub open spec fn doctor_gives<R: ProcessRunner, D: ReportDecoder>(
    runner: R,
    decoder: D,
    s: SessionView,
    bin: Seq<char>,
    p: CliProbeView,
    setup: Result<SetupStatusReport, (Seq<char>, Seq<StepRowView>)>,
    r: Result<RemoteBoxSnapshot, HortoError>,
) -> bool {
    exists|d: Result<Seq<char>, ErrorView>|
        #[trigger] cli_captured_gives(runner, s, bin, doctor_args_of(), d) && doctor_outcome(
            decoder,
            d,
            p,
            setup,
            r,
        )
}

/// The text fallback of `setup status`, then [`doctor_gives`].
pub open spec fn text_status_gives<R: ProcessRunner, D: ReportDecoder>(
    runner: R,
    decoder: D,
    s: SessionView,
    bin: Seq<char>,
    full: bool,
    p: CliProbeView,
    r: Result<RemoteBoxSnapshot, HortoError>,
) -> bool {
    exists|t: Result<Seq<char>, ErrorView>|
        #[trigger] cli_captured_gives(runner, s, bin, status_args_of(full, false), t) && match t {
            Err(e) => r matches Err(e2) && e2@ == e,
            Ok(log) => match setup_status_text_result(log) {
                Err(e) => r matches Err(e2) && e2@ == e,
                Ok(v) => doctor_gives(runner, decoder, s, bin, p, Err(v), r),
            },
        }
}

/// Whether `r` is what [`remote_box_snapshot`] gives for a valid host when
/// `runner` and `decoder` answer: the CLI probe; for a stale or missing CLI
/// nothing more; for a current one `setup status --json` (decoded when the
/// decoder accepts it, else the text form), then `doctor`.
pub open spec fn snapshot_gives<R: ProcessRunner, D: ReportDecoder>(
    runner: R,
    decoder: D,
    opts: RemoteOptions,
    full: bool,
    r: Result<RemoteBoxSnapshot, HortoError>,
) -> bool {
    exists|p: CliProbeView|
        #[trigger] cli_probe_gives(
            runner,
            remote_session(opts),
            opts.install_dir@,
            opts.remote_agent_dir@,
            p,
        ) && snapshot_after_probe(runner, decoder, opts, full, p, r)
}

/// The binary a current snapshot runs: the probed one, else the install-dir CLI.
pub open spec fn snapshot_bin(p: CliProbeView, install_dir: Seq<char>) -> Seq<char> {
    match p.path {
        Some(b) => b,
        None => cli_in(install_dir),
    }
}

/// After the probe `p`: nothing more for a stale or missing CLI; otherwise the
/// JSON status, its text fallback when it is not decoded, and `doctor`.
pub open spec fn snapshot_after_probe<R: ProcessRunner, D: ReportDecoder>(
    runner: R,
    decoder: D,
    opts: RemoteOptions,
    full: bool,
    p: CliProbeView,
    r: Result<RemoteBoxSnapshot, HortoError>,
) -> bool {
    let s = remote_session(opts);
    if !p.current {
        r matches Ok(x) && cli_fields_from(x, p) && x.setup is None && x.doctor is None
    } else {
        let bin = snapshot_bin(p, opts.install_dir@);
        exists|j: Result<Seq<char>, ErrorView>, sr: Result<SetupStatusReport, ErrorView>|
            #[trigger] cli_captured_gives(runner, s, bin, status_args_of(full, true), j)
                && #[trigger] json_setup_choice(decoder, j, sr) && match sr {
                Ok(rep) => doctor_gives(runner, decoder, s, bin, p, Ok(rep), r),
                Err(_) => text_status_gives(runner, decoder, s, bin, full, p, r),
            }
    }
}

/// Whether `t` is exactly the `doctor` call and `r` the snapshot result.
pub open spec fn doctor_calls<D: ReportDecoder>(
    t: Seq<Entry>,
    decoder: D,
    s: SessionView,
    bin: Seq<char>,
    p: CliProbeView,
    setup: Result<SetupStatusReport, (Seq<char>, Seq<StepRowView>)>,
    r: Result<RemoteBoxSnapshot, HortoError>,
) -> bool {
    exists|d: Result<Seq<char>, ErrorView>|
        #[trigger] captured_calls(t, s, bin, doctor_args_of(), d) && doctor_outcome(decoder, d, p, setup, r)
}

/// Whether `t` is exactly the text `setup status` call followed by the
/// `doctor` call (none after a failed text status), and `r` the result.
pub open spec fn text_status_calls<D: ReportDecoder>(
    t: Seq<Entry>,
    decoder: D,
    s: SessionView,
    bin: Seq<char>,
    full: bool,
    p: CliProbeView,
    r: Result<RemoteBoxSnapshot, HortoError>,
) -> bool {
    exists|x: Result<Seq<char>, ErrorView>|
        #![trigger captured_calls(t.subrange(0, 1), s, bin, status_args_of(full, false), x)]
        t.len() >= 1 && captured_calls(t.subrange(0, 1), s, bin, status_args_of(full, false), x)
            && match x {
            Err(e) => t.len() == 1 && (r matches Err(e2) && e2@ == e),
            Ok(log) => match setup_status_text_result(log) {
                Err(e) => t.len() == 1 && (r matches Err(e2) && e2@ == e),
                Ok(v) => doctor_calls(t.subrange(1, t.len() as int), decoder, s, bin, p, Err(v), r),
            },
        }
}

/// Whether `t` is exactly the calls of [`remote_box_snapshot`] after the
/// probe gave `p`, and `r` its result: none for a stale or missing CLI;
/// otherwise `setup status --json`, the text form only when that is not
/// decoded, then `doctor`.
pub open spec fn snapshot_rest_calls<D: ReportDecoder>(
    t: Seq<Entry>,
    decoder: D,
    opts: RemoteOptions,
    full: bool,
    p: CliProbeView,
    r: Result<RemoteBoxSnapshot, HortoError>,
) -> bool {
    let s = remote_session(opts);
    if !p.current {
        t.len() == 0 && (r matches Ok(x) && cli_fields_from(x, p) && x.setup is None && x.doctor is None)
    } else {
        let bin = snapshot_bin(p, opts.install_dir@);
        exists|j: Result<Seq<char>, ErrorView>, sr: Result<SetupStatusReport, ErrorView>|
            #![trigger captured_calls(t.subrange(0, 1), s, bin, status_args_of(full, true), j), json_setup_choice(decoder, j, sr)]
            t.len() >= 1 && captured_calls(t.subrange(0, 1), s, bin, status_args_of(full, true), j)
                && json_setup_choice(decoder, j, sr) && match sr {
                Ok(rep) => doctor_calls(t.subrange(1, t.len() as int), decoder, s, bin, p, Ok(rep), r),
                Err(_) => text_status_calls(t.subrange(1, t.len() as int), decoder, s, bin, full, p, r),
            }
    }
}

/// Whether `t` is exactly the calls of [`remote_box_snapshot`] for a valid
/// host and `r` its result: the CLI probe, then [`snapshot_rest_calls`]. All
/// of them are `ssh` calls; nothing is copied to the box.
pub open spec fn snapshot_calls<D: ReportDecoder>(
    t: Seq<Entry>,
    decoder: D,
    opts: RemoteOptions,
    full: bool,
    r: Result<RemoteBoxSnapshot, HortoError>,
) -> bool {
    exists|k: int, p: CliProbeView|
        #![trigger probe_calls(t.subrange(0, k), remote_session(opts), opts.install_dir@, opts.remote_agent_dir@, p)]
        0 <= k <= t.len() && probe_calls(
            t.subrange(0, k),
            remote_session(opts),
            opts.install_dir@,
            opts.remote_agent_dir@,
            p,
        ) && snapshot_rest_calls(t.subrange(k, t.len() as int), decoder, opts, full, p, r)
}

/// Gluing the probe calls and the rest into [`snapshot_calls`].
proof fn lemma_snapshot_calls<D: ReportDecoder>(
    t1: Seq<Entry>,
    t2: Seq<Entry>,
    decoder: D,
    opts: RemoteOptions,
    full: bool,
    p: CliProbeView,
    r: Result<RemoteBoxSnapshot, HortoError>,
)
    requires
        probe_calls(t1, remote_session(opts), opts.install_dir@, opts.remote_agent_dir@, p),
        snapshot_rest_calls(t2, decoder, opts, full, p, r),
    ensures
        snapshot_calls(t1 + t2, decoder, opts, full, r),
{
    let t = t1 + t2;
    assert(t.subrange(0, t1.len() as int) =~= t1);
    assert(t.subrange(t1.len() as int, t.len() as int) =~= t2);
    assert(probe_calls(t.subrange(0, t1.len() as int), remote_session(opts), opts.install_dir@, opts.remote_agent_dir@, p));
}

/// Whether every call in `t` runs `ssh`.
pub open spec fn only_ssh(t: Seq<Entry>) -> bool {
    forall|i: int| 0 <= i < t.len() ==> (#[trigger] t[i]).0.program == "ssh"@
}

/// Calls that are `ssh` in two parts are `ssh` as a whole.
proof fn lemma_only_ssh_split(t: Seq<Entry>, k: int)
    requires
        0 <= k <= t.len(),
        only_ssh(t.subrange(0, k)),
        only_ssh(t.subrange(k, t.len() as int)),
    ensures
        only_ssh(t),
{
    assert forall|i: int| 0 <= i < t.len() implies (#[trigger] t[i]).0.program == "ssh"@ by {
        if i < k {
            assert(t[i] == t.subrange(0, k)[i]);
        } else {
            assert(t[i] == t.subrange(k, t.len() as int)[i - k]);
        }
    }
}

/// The `doctor` call and the text status call are `ssh` calls.
proof fn lemma_snapshot_rest_only_ssh<D: ReportDecoder>(
    t: Seq<Entry>,
    decoder: D,
    opts: RemoteOptions,
    full: bool,
    p: CliProbeView,
    r: Result<RemoteBoxSnapshot, HortoError>,
)
    requires
        snapshot_rest_calls(t, decoder, opts, full, p, r),
    ensures
        only_ssh(t),
{
    let s = remote_session(opts);
    if p.current {
        let bin = snapshot_bin(p, opts.install_dir@);
        let (j, sr) = choose|j: Result<Seq<char>, ErrorView>, sr: Result<SetupStatusReport, ErrorView>|
            t.len() >= 1 && captured_calls(t.subrange(0, 1), s, bin, status_args_of(full, true), j)
                && json_setup_choice(decoder, j, sr) && match sr {
                Ok(rep) => doctor_calls(t.subrange(1, t.len() as int), decoder, s, bin, p, Ok(rep), r),
                Err(_) => text_status_calls(t.subrange(1, t.len() as int), decoder, s, bin, full, p, r),
            };
        let u = t.subrange(1, t.len() as int);
        assert(only_ssh(t.subrange(0, 1)));
        match sr {
            Ok(rep) => {
                assert(only_ssh(u));
            },
            Err(_) => {
                let x = choose|x: Result<Seq<char>, ErrorView>|
                    u.len() >= 1 && captured_calls(u.subrange(0, 1), s, bin, status_args_of(full, false), x)
                        && match x {
                        Err(e) => u.len() == 1 && (r matches Err(e2) && e2@ == e),
                        Ok(log) => match setup_status_text_result(log) {
                            Err(e) => u.len() == 1 && (r matches Err(e2) && e2@ == e),
                            Ok(v) => doctor_calls(u.subrange(1, u.len() as int), decoder, s, bin, p, Err(v), r),
                        },
                    };
                assert(only_ssh(u.subrange(0, 1)));
                assert(only_ssh(u.subrange(1, u.len() as int)));
                lemma_only_ssh_split(u, 1);
            },
        }
        lemma_only_ssh_split(t, 1);
    }
}

/// A snapshot only ever runs `ssh`: it copies nothing to the box (no `scp`,
/// `rsync` or `ssh-copy-id`), and for a stale or missing CLI it makes no
/// call after the probe.
pub proof fn law_snapshot_only_probes_over_ssh<D: ReportDecoder>(
    t: Seq<Entry>,
    decoder: D,
    opts: RemoteOptions,
    full: bool,
    r: Result<RemoteBoxSnapshot, HortoError>,
)
    requires
        snapshot_calls(t, decoder, opts, full, r),
    ensures
        only_ssh(t),
        r matches Ok(x) && !x.cli_current ==> exists|p: CliProbeView|
            #[trigger] probe_calls(t, remote_session(opts), opts.install_dir@, opts.remote_agent_dir@, p),
{
    let s = remote_session(opts);
    let (k, p) = choose|k: int, p: CliProbeView|
        0 <= k <= t.len() && probe_calls(t.subrange(0, k), s, opts.install_dir@, opts.remote_agent_dir@, p)
            && snapshot_rest_calls(t.subrange(k, t.len() as int), decoder, opts, full, p, r);
    assert(only_ssh(t.subrange(0, k)));
    lemma_snapshot_rest_only_ssh(t.subrange(k, t.len() as int), decoder, opts, full, p, r);
    lemma_only_ssh_split(t, k);
    if !p.current {
        assert(t.subrange(0, k) =~= t);
    }
}

/// Probe CLI version, then fetch setup status and doctor when current. Never SCP.
///
/// Setup status is read as JSON first and, when that fails, from the human
/// text of older agents. Auth / unreachable / missing CLI are `Ok` with
/// [`RemoteBoxSnapshot::cli_status`] set accordingly.
pub fn remote_box_snapshot<R: ProcessRunner, D: ReportDecoder>(
    runs: &mut Runs<R>,
    opts: &RemoteOptions,
    full: bool,
    decoder: &D,
) -> (r: Result<RemoteBoxSnapshot, HortoError>)
    ensures
        host_spec_of(opts.host@) matches Err(e) ==> r matches Err(e2) && e2@ == e,
        r matches Ok(s) ==> snapshot_consistent(s),
        host_spec_of(opts.host@) is Ok ==> snapshot_gives(old(runs).runner(), *decoder, *opts, full, r),
        final(runs).runner() == old(runs).runner(),
        log_grows(old(runs).log(), final(runs).log()),
        host_spec_of(opts.host@) is Err ==> calls_between(old(runs).log(), final(runs).log()).len() == 0,
        host_spec_of(opts.host@) is Ok ==> snapshot_calls(
            calls_between(old(runs).log(), final(runs).log()),
            *decoder,
            *opts,
            full,
            r,
        ),
{
    let ghost runner = runs.runner();
    let ghost dec = *decoder;
    let ghost l0 = runs.log();
    let session = session_from(opts)?;
    let ghost s = session@;
    let probed = probe_remote_cli(runs, &session, opts);
    let ghost l1 = runs.log();
    let ghost t1 = calls_between(l0, l1);
    let probe = match probed {
        Ok(p) => p,
        Err(e) => {
            return Err(e);
        },
    };
    let ghost pv = probe@;
    assert(cli_probe_gives(runner, s, opts.install_dir@, opts.remote_agent_dir@, pv));
    assert(probe_calls(t1, s, opts.install_dir@, opts.remote_agent_dir@, pv));
    assert(s == remote_session(*opts));
    let RemoteCliProbe { path, version, current, status } = probe;
    if !current {
        let snap = RemoteBoxSnapshot {
            cli_current: false,
            cli_version: version,
            cli_status: status,
            setup: None,
            doctor: None,
        };
        proof {
            let rr = Ok::<RemoteBoxSnapshot, HortoError>(snap);
            assert(snapshot_after_probe(runner, dec, *opts, full, pv, rr));
            let t2 = Seq::<Entry>::empty();
            assert(snapshot_rest_calls(t2, dec, *opts, full, pv, rr));
            lemma_snapshot_calls(t1, t2, dec, *opts, full, pv, rr);
            assert(t1 + t2 =~= t1);
        }
        return Ok(snap);
    }
    let remote_bin = match path {
        Some(p) => p,
        None => remote_install_bin(opts),
    };
    let ghost bin = remote_bin@;
    assert(bin == snapshot_bin(pv, opts.install_dir@));
    let json_args = setup_status_args(full, true);
    let json_res = exec_remote_cli_captured(runs, &session, remote_bin.as_str(), json_args.as_slice());
    let ghost l2 = runs.log();
    let ghost tj = calls_between(l1, l2);
    let ghost j = str_result(json_res);
    assert(sviews(json_args@) == status_args_of(full, true));
    assert(cli_captured_gives(runner, s, bin, status_args_of(full, true), j));
    assert(captured_calls(tj, s, bin, status_args_of(full, true), j));
    let ghost mut sr: Result<SetupStatusReport, ErrorView> = Err(message_error(Seq::<char>::empty()));
    let from_json: Option<SetupStatusReport> = match json_res {
        Ok(log) => match remote_json_slice(log.as_str()) {
            Ok(js) => {
                let decoded = decoder.setup_status(js.as_str());
                proof {
                    sr = decoded_view(decoded);
                }
                match decoded {
                    Ok(rep) => Some(rep),
                    Err(_) => None,
                }
            },
            Err(e) => {
                proof {
                    sr = Err(e@);
                }
                None
            },
        },
        Err(e) => {
            proof {
                sr = Err(e@);
            }
            None
        },
    };
    assert(json_setup_choice(dec, j, sr));
    assert(from_json matches Some(rep) ==> sr == Ok::<SetupStatusReport, ErrorView>(rep));
    assert(from_json is None ==> sr is Err);
    let ghost mut text_v: Option<(Seq<char>, Seq<StepRowView>)> = None;
    let ghost mut tx: Seq<Entry> = Seq::empty();
    let setup = match from_json {
        Some(rep) => rep,
        None => {
            let text_args = setup_status_args(full, false);
            let text_res = exec_remote_cli_captured(
                runs,
                &session,
                remote_bin.as_str(),
                text_args.as_slice(),
            );
            let ghost t = str_result(text_res);
            proof {
                tx = calls_between(l2, runs.log());
                lemma_calls_concat(l1, l2, runs.log());
            }
            assert(sviews(text_args@) == status_args_of(full, false));
            assert(cli_captured_gives(runner, s, bin, status_args_of(full, false), t));
            assert(captured_calls(tx, s, bin, status_args_of(full, false), t));
            let text_log = match text_res {
                Ok(l) => l,
                Err(e) => {
                    proof {
                        let rr = Err::<RemoteBoxSnapshot, HortoError>(e);
                        assert(text_status_gives(runner, dec, s, bin, full, pv, rr));
                        assert(snapshot_after_probe(runner, dec, *opts, full, pv, rr));
                        assert(tx.subrange(0, 1) =~= tx);
                        assert(text_status_calls(tx, dec, s, bin, full, pv, rr));
                        let t2 = tj + tx;
                        assert(t2.subrange(0, 1) =~= tj);
                        assert(t2.subrange(1, t2.len() as int) =~= tx);
                        assert(snapshot_rest_calls(t2, dec, *opts, full, pv, rr));
                        lemma_snapshot_calls(t1, t2, dec, *opts, full, pv, rr);
                        lemma_calls_concat(l0, l1, runs.log());
                        assert(calls_between(l0, runs.log()) =~= t1 + t2);
                    }
                    return Err(e);
                },
            };
            match parse_setup_status_text(text_log.as_str()) {
                Ok(rep) => {
                    proof {
                        text_v = Some(setup_view(rep));
                    }
                    rep
                },
                Err(e) => {
                    proof {
                        let rr = Err::<RemoteBoxSnapshot, HortoError>(e);
                        assert(text_status_gives(runner, dec, s, bin, full, pv, rr));
                        assert(snapshot_after_probe(runner, dec, *opts, full, pv, rr));
                        assert(tx.subrange(0, 1) =~= tx);
                        assert(text_status_calls(tx, dec, s, bin, full, pv, rr));
                        let t2 = tj + tx;
                        assert(t2.subrange(0, 1) =~= tj);
                        assert(t2.subrange(1, t2.len() as int) =~= tx);
                        assert(snapshot_rest_calls(t2, dec, *opts, full, pv, rr));
                        lemma_snapshot_calls(t1, t2, dec, *opts, full, pv, rr);
                        lemma_calls_concat(l0, l1, runs.log());
                        assert(calls_between(l0, runs.log()) =~= t1 + t2);
                    }
                    return Err(e);
                },
            }
        },
    };
    let ghost l3 = runs.log();
    assert(calls_between(l1, l3) =~= tj + tx);
    let ghost setup_src: Result<SetupStatusReport, (Seq<char>, Seq<StepRowView>)> = match text_v {
        Some(v) => Err(v),
        None => Ok(setup),
    };
    let mut doctor_args: Vec<String> = Vec::new();
    doctor_args.push(owned("doctor"));
    assert(sviews(doctor_args@) =~= doctor_args_of());
    let doctor_res = exec_remote_cli_captured(runs, &session, remote_bin.as_str(), doctor_args.as_slice());
    let ghost td = calls_between(l3, runs.log());
    let ghost d = str_result(doctor_res);
    assert(cli_captured_gives(runner, s, bin, doctor_args_of(), d));
    assert(captured_calls(td, s, bin, doctor_args_of(), d));
    let ghost mut ddec: Result<DoctorReport, ErrorView> = Err(message_error(Seq::<char>::empty()));
    let result: Result<RemoteBoxSnapshot, HortoError> = match doctor_res {
        Err(e) => Err(e),
        Ok(doctor_log) => match remote_json_slice(doctor_log.as_str()) {
            Err(e) => Err(e),
            Ok(doctor_json) => {
                let decoded = decoder.doctor(doctor_json.as_str());
                proof {
                    ddec = decoded_view(decoded);
                }
                match decoded {
                    Err(e) => Err(e),
                    Ok(doctor) => Ok(
                        RemoteBoxSnapshot {
                            cli_current: true,
                            cli_version: version,
                            cli_status: status,
                            setup: Some(setup),
                            doctor: Some(doctor),
                        },
                    ),
                }
            },
        },
    };
    proof {
        if d is Ok && remote_json_text(d->Ok_0) is Ok {
            assert(dec.may_decode_doctor(remote_json_text(d->Ok_0)->Ok_0, ddec));
        }
    }
    assert(doctor_outcome(dec, d, pv, setup_src, result));
    assert(doctor_gives(runner, dec, s, bin, pv, setup_src, result));
    assert(doctor_calls(td, dec, s, bin, pv, setup_src, result));
    proof {
        lemma_calls_concat(l1, l3, runs.log());
        lemma_calls_concat(l0, l1, runs.log());
        let t2 = tj + tx + td;
        assert(calls_between(l0, runs.log()) =~= t1 + t2);
        assert(t2.subrange(0, 1) =~= tj);
        if text_v is Some {
            assert(text_status_gives(runner, dec, s, bin, full, pv, result));
            let rest = tx + td;
            assert(t2.subrange(1, t2.len() as int) =~= rest);
            assert(rest.subrange(0, 1) =~= tx);
            assert(rest.subrange(1, rest.len() as int) =~= td);
            assert(text_status_calls(rest, dec, s, bin, full, pv, result));
        } else {
            assert(tx.len() == 0);
            assert(t2.subrange(1, t2.len() as int) =~= td);
        }
        assert(snapshot_after_probe(runner, dec, *opts, full, pv, result));
        assert(snapshot_rest_calls(t2, dec, *opts, full, pv, result));
        lemma_snapshot_calls(t1, t2, dec, *opts, full, pv, result);
    }
    result
}

/// Message when the box CLI cannot answer `setup status`.
pub open spec fn sync_setup_text() -> Seq<char> {
    "box CLI missing or outdated; sync CLI (s0) before setup status"@
}

/// Message when the box CLI cannot answer `doctor`.
pub open spec fn sync_doctor_text() -> Seq<char> {
    "box CLI missing or outdated; sync CLI (s0) before doctor"@
}

/// Fetch setup step status from the box (`setup status`, JSON when supported).
///
/// A missing or outdated box CLI is an error (sync the CLI first); the calls
/// made are those of [`remote_box_snapshot`].
pub fn remote_setup_status<R: ProcessRunner, D: ReportDecoder>(
    runs: &mut Runs<R>,
    opts: &RemoteOptions,
    full: bool,
    decoder: &D,
) -> (r: Result<SetupStatusReport, HortoError>)
    ensures
        host_spec_of(opts.host@) matches Err(e) ==> r matches Err(e2) && e2@ == e,
        host_spec_of(opts.host@) is Err ==> calls_between(old(runs).log(), final(runs).log()).len() == 0,
        host_spec_of(opts.host@) is Ok ==> exists|x: Result<RemoteBoxSnapshot, HortoError>|
            #[trigger] snapshot_calls(calls_between(old(runs).log(), final(runs).log()), *decoder, *opts, full, x)
                && snapshot_gives(old(runs).runner(), *decoder, *opts, full, x) && match x {
                Err(e) => r matches Err(e2) && e2@ == e@,
                Ok(snap) => match snap.setup {
                    Some(rep) => r == Ok::<SetupStatusReport, HortoError>(rep),
                    None => r matches Err(e2) && e2@ == message_error(sync_setup_text()),
                },
            },
        final(runs).runner() == old(runs).runner(),
        log_grows(old(runs).log(), final(runs).log()),
{
    let snapped = remote_box_snapshot(runs, opts, full, decoder);
    let ghost x = snapped;
    let snap = match snapped {
        Ok(s) => s,
        Err(e) => {
            return Err(e);
        },
    };
    match snap.setup {
        Some(s) => Ok(s),
        None => Err(
            HortoError::msg("box CLI missing or outdated; sync CLI (s0) before setup status"),
        ),
    }
}

/// Fetch doctor JSON from the box (a missing or outdated box CLI is an error);
/// the calls made are those of [`remote_box_snapshot`] with the full pipeline.
pub fn remote_doctor<R: ProcessRunner, D: ReportDecoder>(
    runs: &mut Runs<R>,
    opts: &RemoteOptions,
    decoder: &D,
) -> (r: Result<DoctorReport, HortoError>)
    ensures
        host_spec_of(opts.host@) matches Err(e) ==> r matches Err(e2) && e2@ == e,
        host_spec_of(opts.host@) is Err ==> calls_between(old(runs).log(), final(runs).log()).len() == 0,
        host_spec_of(opts.host@) is Ok ==> exists|x: Result<RemoteBoxSnapshot, HortoError>|
            #[trigger] snapshot_calls(calls_between(old(runs).log(), final(runs).log()), *decoder, *opts, true, x)
                && snapshot_gives(old(runs).runner(), *decoder, *opts, true, x) && match x {
                Err(e) => r matches Err(e2) && e2@ == e@,
                Ok(snap) => match snap.doctor {
                    Some(d) => r == Ok::<DoctorReport, HortoError>(d),
                    None => r matches Err(e2) && e2@ == message_error(sync_doctor_text()),
                },
            },
        final(runs).runner() == old(runs).runner(),
        log_grows(old(runs).log(), final(runs).log()),
{
    let snapped = remote_box_snapshot(runs, opts, true, decoder);
    let ghost x = snapped;
    let snap = match snapped {
        Ok(s) => s,
        Err(e) => {
            return Err(e);
        },
    };
    match snap.doctor {
        Some(d) => Ok(d),
        None => Err(HortoError::msg("box CLI missing or outdated; sync CLI (s0) before doctor")),
    }
}

} // verus!
