//! Cross-surface probes: SSH, box CLI, status-api, MCP (PC + box).
//!
//! One report powers TUI tabs, `horto-os-ui surfaces`, and Desktop Connection.
//! Processes run through a [`ProcessRunner`], HTTP GETs through an [`HttpProbe`];
//! what only the local machine knows (saved token, MCP binary, image name)
//! comes in a [`SurfaceLocal`].
use vstd::prelude::*;
use crate::remote::process::{calls_between, lemma_calls_concat, lemma_calls_push, log_grows, out_at, Entry, Runs};
use crate::error::{ErrorView, HortoError};
use crate::remote::host::host_spec_of;
use crate::remote::process::{
    call, failure_message, failure_text, reply_ok, reply_view, CallInput, CallView, OutputView,
    ProcessRunner, StdioMode,
};
use crate::remote::runner::options::{remote_session, session_from, RemoteOptions};
use crate::remote::runner::probe::{
    auth_failure_text, classify_ssh_failure, probe_calls, probe_remote_cli, CliProbeView, CliStatusView,
    RemoteBoxCliStatus,
};
use crate::remote::ssh::{
    config_prefix, opt_str_view, opt_view, ref_pair_views, ref_views, ssh_calls, ssh_gives, ssh_request, str_refs, SessionView, SshEnv,
};
use crate::text::{
    concat2, concat3, from_chars, int_text, int_to_string, lines, owned, parse_unsigned,
    parse_unsigned_chars, replace, replace_str, split_lines, split_ws, str_eq, to_chars, tokens,
    trim, trim_chars,
};
use crate::LONG_VERSION;

verus! {

/// Status API HTTP port.
pub const STATUS_API_PORT: u16 = 8787;

/// MCP HTTP port.
pub const MCP_HTTP_PORT: u16 = 8790;

/// Default MCP image tag (matches `docker/cursor-mcp-stdio.sh`).
pub const DEFAULT_MCP_IMAGE: &'static str = "horto-os-ui-mcp:local";

/// SSH reachability / key auth.
#[derive(Debug, Clone, PartialEq, Eq)]
pub struct SshSurfaceProbe {
    /// Host string used for OpenSSH.
    pub host: String,
    /// Operator label: `ok`, `auth failed`, `unreachable`, `n/a`.
    pub status: String,
    /// True when `BatchMode` key login works.
    pub key_ok: bool,
}

/// Box CLI probe row.
#[derive(Debug, Clone, PartialEq, Eq)]
pub struct CliSurfaceProbe {
    /// After probe: missing / auth failed / unreachable / Found(version).
    pub status: RemoteBoxCliStatus,
    /// Normalized version when found.
    pub version: Option<String>,
    /// Matches tip [`LONG_VERSION`].
    pub current: bool,
}

/// Status-api HTTP (+ optional unit via SSH).
#[derive(Debug, Clone, PartialEq, Eq)]
pub struct ApiSurfaceProbe {
    /// Base URL probed (`http://host:8787`).
    pub url: String,
    /// `ok` / `unreachable` / `http <code>` / `auth required`.
    pub health: String,
    /// `/v1/status` label when attempted.
    pub status: String,
    /// Local token file present (never the secret).
    pub local_token: bool,
    /// `systemctl is-active` when SSH worked; empty otherwise.
    pub unit: String,
}

/// MCP readiness on one host (PC or box): stdio runtime + HTTP.
#[derive(Debug, Clone, PartialEq, Eq)]
pub struct McpHostProbe {
    /// Docker image tag when present.
    pub docker: Option<String>,
    /// Path to `horto-os-ui-mcp` when found.
    pub binary: Option<String>,
    /// `http://host:8790`.
    pub http_url: String,
    /// HTTP reachability label for [`Self::http_url`].
    pub http_reach: String,
    /// Unit/process hint when available.
    pub unit: String,
    /// Status-api `/health` on this host (`:8787`).
    pub api_health: String,
}

/// Full surface probe for tip + box.
#[derive(Debug, Clone, PartialEq, Eq)]
pub struct SurfaceProbeReport {
    /// Tip CLI long version (`local=`).
    pub local_version: String,
    /// OpenSSH access to the box (or embedded N/A).
    pub ssh: SshSurfaceProbe,
    /// Box CLI binary / version.
    pub cli: CliSurfaceProbe,
    /// Status API `:8787`.
    pub api: ApiSurfaceProbe,
    /// MCP on the tip (PC).
    pub mcp_pc: McpHostProbe,
    /// MCP on the box.
    pub mcp_box: McpHostProbe,
}

/// A plain HTTP/1.0 GET that answers with a probe label (`ok`, `unreachable`,
/// `auth required`, `http <code>`).
pub trait HttpProbe {
    /// Whether `label` is an answer this prober may give to a GET of `path`
    /// on `host:port` with `bearer`.
    ///
    /// By default any label may come back; a prober whose answers are known
    /// may say which.
    open spec fn may_label(
        &self,
        host: Seq<char>,
        port: u16,
        path: Seq<char>,
        bearer: Option<Seq<char>>,
        label: Seq<char>,
    ) -> bool {
        true
    }

    fn get_label(&self, host: &str, port: u16, path: &str, bearer: Option<&str>) -> (l: String)
        ensures
            self.may_label(host@, port, path@, opt_str_view(bearer), l@),
    ;
}

/// What only the local machine knows, read by the embedding program.
#[derive(Debug, Clone)]
pub struct SurfaceLocal {
    /// Saved tip bearer (hex), when the token file holds a usable one.
    pub api_token: Option<String>,
    /// Local `horto-os-ui-mcp` binary (bin dir or `PATH`), when found.
    pub mcp_binary: Option<String>,
    /// MCP image tag (`HORTO_MCP_IMAGE`, else [`DEFAULT_MCP_IMAGE`]).
    pub mcp_image: String,
}

/// `HORTO_MCP_IMAGE` when set and non-blank, else the default tag.
pub fn mcp_image_name(env_value: Option<&str>) -> (r: String)
    ensures
        r@ == (match env_value {
            Some(v) => if trim(v@).len() > 0 {
                v@
            } else {
                DEFAULT_MCP_IMAGE@
            },
            None => DEFAULT_MCP_IMAGE@,
        }),
{
    match env_value {
        Some(v) => {
            let c = to_chars(v);
            let t = trim_chars(c.as_slice());
            if t.len() > 0 {
                owned(v)
            } else {
                owned(DEFAULT_MCP_IMAGE)
            }
        },
        None => owned(DEFAULT_MCP_IMAGE),
    }
}

/// SSH worked (`ok`) or key login is known to work.
pub open spec fn ssh_usable(p: SshSurfaceProbe) -> bool {
    p.status@ == "ok"@ || p.key_ok
}

pub fn ssh_is_usable(p: &SshSurfaceProbe) -> (b: bool)
    ensures
        b == ssh_usable(*p),
{
    str_eq(p.status.as_str(), "ok") || p.key_ok
}

/// The SSH row of an embedded (on-box) probe.
pub fn embedded_ssh_row() -> (p: SshSurfaceProbe)
    ensures
        p.host@ == "127.0.0.1"@,
        p.status@ == "n/a"@,
        !p.key_ok,
{
    SshSurfaceProbe { host: owned("127.0.0.1"), status: owned("n/a"), key_ok: false }
}

/// The `BatchMode` login probe request of a session.
pub open spec fn ssh_access_request(s: SessionView) -> CallView {
    call(
        "ssh"@,
        config_prefix(s.config) + seq![
            "-o"@,
            "BatchMode=yes"@,
            "-o"@,
            "StrictHostKeyChecking=accept-new"@,
            "-o"@,
            "ConnectTimeout=5"@,
            s.host,
            "true"@,
        ],
        s.env,
        StdioMode::Capture,
    )
}

/// SSH row label for a login probe that ran.
pub open spec fn access_status(o: OutputView) -> Seq<char> {
    if o.status == 0 {
        "ok"@
    } else if auth_failure_text(failure_text(o)) {
        "auth failed"@
    } else {
        "unreachable"@
    }
}

/// Whether `r` is what [`probe_ssh_access`] gives for `opts` when `runner`
/// answers the login probe with one of its replies.
pub open spec fn ssh_access_gives<R: ProcessRunner>(
    runner: R,
    opts: RemoteOptions,
    r: Result<SshSurfaceProbe, HortoError>,
) -> bool {
    match host_spec_of(opts.host@) {
        Err(e) => r matches Err(e2) && e2@ == e,
        Ok(_) => exists|reply: Result<OutputView, ErrorView>|
            #[trigger] runner.may_reply(ssh_access_request(remote_session(opts)), reply) && match reply {
                Err(e) => r matches Err(e2) && e2@ == e,
                Ok(o) => r matches Ok(p) && p.host@ == opts.host@ && p.key_ok == (o.status == 0)
                    && p.status@ == access_status(o),
            },
    }
}

/// Whether `t` is exactly the one login probe of [`probe_ssh_access`] and
/// `r` what its reply gives.
pub open spec fn ssh_access_calls(t: Seq<Entry>, opts: RemoteOptions, r: Result<SshSurfaceProbe, HortoError>) -> bool {
    &&& t.len() == 1
    &&& t[0].0 == ssh_access_request(remote_session(opts))
    &&& match t[0].1 {
        Err(e) => r matches Err(e2) && e2@ == e,
        Ok(o) => r matches Ok(p) && p.host@ == opts.host@ && p.key_ok == (o.status == 0) && p.status@
            == access_status(o),
    }
}

/// `BatchMode` SSH `true` against the box (no password prompt).
///
/// Success means key login works; otherwise the failure text decides between
/// `auth failed` and `unreachable`.
pub fn probe_ssh_access<R: ProcessRunner>(runs: &mut Runs<R>, opts: &RemoteOptions) -> (r: Result<
    SshSurfaceProbe,
    HortoError,
>)
    ensures
        host_spec_of(opts.host@) matches Err(e) ==> r matches Err(e2) && e2@ == e,
        r matches Ok(p) ==> {
            &&& p.host@ == opts.host@
            &&& p.key_ok <==> p.status@ == "ok"@
            &&& p.status@ == "ok"@ || p.status@ == "auth failed"@ || p.status@ == "unreachable"@
        },
        ssh_access_gives(old(runs).runner(), *opts, r),
        final(runs).runner() == old(runs).runner(),
        log_grows(old(runs).log(), final(runs).log()),
        host_spec_of(opts.host@) is Err ==> final(runs).log() == old(runs).log(),
        host_spec_of(opts.host@) is Ok ==> ssh_access_calls(
            calls_between(old(runs).log(), final(runs).log()),
            *opts,
            r,
        ),
{
    let ghost runner = runs.runner();
    let ghost l0 = runs.log();
    let session = session_from(opts)?;
    let pairs = session.env.as_pairs();
    let env = SshEnv::as_refs(&pairs);
    let rest: [&str; 8] = [
        "-o",
        "BatchMode=yes",
        "-o",
        "StrictHostKeyChecking=accept-new",
        "-o",
        "ConnectTimeout=5",
        session.host.raw.as_str(),
        "true",
    ];
    let args = session.with_config_prefix(&rest);
    let refs = str_refs(&args);
    assert(ref_views(rest@) =~= seq![
        "-o"@,
        "BatchMode=yes"@,
        "-o"@,
        "StrictHostKeyChecking=accept-new"@,
        "-o"@,
        "ConnectTimeout=5"@,
        session.host.raw@,
        "true"@,
    ]);
    let res = runs.run("ssh", refs.as_slice(), env.as_slice(), StdioMode::Capture);
    let ghost reply = reply_view(res);
    assert(runner.may_reply(ssh_access_request(remote_session(*opts)), reply));
    proof {
        lemma_calls_push(l0, (ssh_access_request(remote_session(*opts)), reply));
        assert(runs.log() == l0.push((ssh_access_request(remote_session(*opts)), reply)));
    }
    let out = match res {
        Ok(o) => o,
        Err(e) => {
            return Err(e);
        },
    };
    proof {
        reveal_strlit("ok");
        reveal_strlit("auth failed");
        reveal_strlit("unreachable");
        assert("auth failed"@.len() != "ok"@.len());
        assert("unreachable"@.len() != "ok"@.len());
    }
    if out.success() {
        return Ok(SshSurfaceProbe { host: owned(opts.host.as_str()), status: owned("ok"), key_ok: true });
    }
    let text = failure_message(&out);
    let status = match classify_ssh_failure(text.as_str()) {
        RemoteBoxCliStatus::AuthFailed => owned("auth failed"),
        _ => owned("unreachable"),
    };
    Ok(SshSurfaceProbe { host: owned(opts.host.as_str()), status, key_ok: false })
}

/// Probe SSH only (`BatchMode`); embedded probes have nothing to reach.
pub fn probe_ssh_surface<R: ProcessRunner>(runs: &mut Runs<R>, opts: &RemoteOptions, embedded: bool) -> (r:
    Result<SshSurfaceProbe, HortoError>)
    ensures
        embedded ==> (r matches Ok(p) && p.status@ == "n/a"@ && !p.key_ok),
        !embedded && host_spec_of(opts.host@) is Err ==> r is Err,
        !embedded ==> ssh_access_gives(old(runs).runner(), *opts, r),
        final(runs).runner() == old(runs).runner(),
        log_grows(old(runs).log(), final(runs).log()),
        (embedded || host_spec_of(opts.host@) is Err) ==> final(runs).log() == old(runs).log(),
        (!embedded && host_spec_of(opts.host@) is Ok) ==> ssh_access_calls(
            calls_between(old(runs).log(), final(runs).log()),
            *opts,
            r,
        ),
{
    if embedded {
        return Ok(embedded_ssh_row());
    }
    probe_ssh_access(runs, opts)
}

/// Whether `t` is exactly the CLI probe's calls and `r` the row built from
/// its result.
pub open spec fn cli_row_calls(t: Seq<Entry>, opts: RemoteOptions, r: Result<CliSurfaceProbe, HortoError>) -> bool {
    exists|p: CliProbeView|
        #[trigger] probe_calls(t, remote_session(opts), opts.install_dir@, opts.remote_agent_dir@, p) && (r matches Ok(
            c,
        ) && c.status@ == p.status && opt_view(c.version) == p.version && c.current == p.current)
}

/// Box CLI row: the tip itself when embedded, a remote probe when SSH works,
/// else the SSH failure.
pub fn probe_cli_row<R: ProcessRunner>(
    runs: &mut Runs<R>,
    opts: &RemoteOptions,
    embedded: bool,
    ssh: &SshSurfaceProbe,
) -> (r: Result<CliSurfaceProbe, HortoError>)
    ensures
        embedded ==> (r matches Ok(c) && c.current && c.status@ == CliStatusView::Found(
            LONG_VERSION@,
        ) && (c.version matches Some(v) && v@ == LONG_VERSION@)),
        !embedded && !ssh_usable(*ssh) ==> (r matches Ok(c) && !c.current && c.version is None
            && c.status@ == (if ssh.status@ == "auth failed"@ {
            CliStatusView::AuthFailed
        } else {
            CliStatusView::Unreachable
        })),
        host_spec_of(opts.host@) is Ok ==> r is Ok,
        final(runs).runner() == old(runs).runner(),
        log_grows(old(runs).log(), final(runs).log()),
        (embedded || !ssh_usable(*ssh) || host_spec_of(opts.host@) is Err) ==> final(runs).log()
            == old(runs).log(),
        (!embedded && ssh_usable(*ssh) && host_spec_of(opts.host@) is Ok) ==> cli_row_calls(
            calls_between(old(runs).log(), final(runs).log()),
            *opts,
            r,
        ),
{
    if embedded {
        return Ok(
            CliSurfaceProbe {
                status: RemoteBoxCliStatus::Found(owned(LONG_VERSION)),
                version: Some(owned(LONG_VERSION)),
                current: true,
            },
        );
    }
    if ssh_is_usable(ssh) {
        let session = session_from(opts)?;
        let probe = probe_remote_cli(runs, &session, opts)?;
        let ghost pv = probe@;
        let row = CliSurfaceProbe { status: probe.status, version: probe.version, current: probe.current };
        assert(row.status@ == pv.status && opt_view(row.version) == pv.version);
        return Ok(row);
    }
    let status = if str_eq(ssh.status.as_str(), "auth failed") {
        RemoteBoxCliStatus::AuthFailed
    } else {
        RemoteBoxCliStatus::Unreachable
    };
    Ok(CliSurfaceProbe { status, version: None, current: false })
}

/// Whether `t` is exactly the calls of [`probe_cli_surface`] for a remote
/// box with a valid host and `r` its result: the login probe (an error
/// there ends it), then the CLI probe only when SSH is usable.
pub open spec fn cli_surface_calls(t: Seq<Entry>, opts: RemoteOptions, r: Result<CliSurfaceProbe, HortoError>) -> bool {
    &&& t.len() >= 1
    &&& t[0].0 == ssh_access_request(remote_session(opts))
    &&& match t[0].1 {
        Err(e) => t.len() == 1 && (r matches Err(e2) && e2@ == e),
        Ok(_) => exists|sp: SshSurfaceProbe|
            #[trigger] ssh_access_calls(t.subrange(0, 1), opts, Ok::<SshSurfaceProbe, HortoError>(sp)) && if ssh_usable(
                sp,
            ) {
                cli_row_calls(t.subrange(1, t.len() as int), opts, r)
            } else {
                t.len() == 1 && (r matches Ok(c) && !c.current && c.version is None && c.status@ == (if sp.status@
                    == "auth failed"@ {
                    CliStatusView::AuthFailed
                } else {
                    CliStatusView::Unreachable
                }))
            },
    }
}

/// Probe box CLI only.
pub fn probe_cli_surface<R: ProcessRunner>(runs: &mut Runs<R>, opts: &RemoteOptions, embedded: bool) -> (r:
    Result<CliSurfaceProbe, HortoError>)
    ensures
        embedded ==> (r matches Ok(c) && c.current),
        final(runs).runner() == old(runs).runner(),
        log_grows(old(runs).log(), final(runs).log()),
        (embedded || host_spec_of(opts.host@) is Err) ==> final(runs).log() == old(runs).log(),
        (!embedded && host_spec_of(opts.host@) is Ok) ==> cli_surface_calls(
            calls_between(old(runs).log(), final(runs).log()),
            *opts,
            r,
        ),
{
    let ghost l0 = runs.log();
    let ssh = probe_ssh_surface(runs, opts, embedded)?;
    let ghost l1 = runs.log();
    let r = probe_cli_row(runs, opts, embedded, &ssh);
    proof {
        if !embedded && host_spec_of(opts.host@) is Ok {
            lemma_calls_concat(l0, l1, runs.log());
            let ta = calls_between(l0, l1);
            let tb = calls_between(l1, runs.log());
            let t = calls_between(l0, runs.log());
            assert(t =~= ta + tb);
            assert(t.subrange(0, 1) =~= ta);
            assert(t.subrange(1, t.len() as int) =~= tb);
            assert(t[0] == ta[0]);
            assert(ssh_access_calls(t.subrange(0, 1), *opts, Ok::<SshSurfaceProbe, HortoError>(ssh)));
        }
    }
    r
}

/// `http://<host>:<port>`.
pub open spec fn base_url(host: Seq<char>, port: u16) -> Seq<char> {
    "http://"@ + host + ":"@ + int_text(port as int)
}

pub fn base_url_text(host: &str, port: u16) -> (r: String)
    ensures
        r@ == base_url(host@, port),
{
    let p = int_to_string(port as i64);
    let mut r = concat3("http://", host, ":");
    r.append(p.as_str());
    r
}

/// First line of `systemctl is-active` output, trimmed (`unknown` when empty output).
pub open spec fn first_line_or(raw: Seq<char>, dflt: Seq<char>) -> Seq<char> {
    let ls = lines(raw);
    if ls.len() > 0 {
        trim(ls[0])
    } else {
        trim(dflt)
    }
}

pub fn first_line_or_text(raw: &str, dflt: &str) -> (r: String)
    ensures
        r@ == first_line_or(raw@, dflt@),
{
    let c = to_chars(raw);
    let ls = split_lines(c.as_slice());
    if ls.len() > 0 {
        let t = trim_chars(ls[0].as_slice());
        from_chars(t.as_slice())
    } else {
        crate::text::trim_str(dflt)
    }
}

/// `systemctl is-active <unit> 2>/dev/null || true`.
pub open spec fn systemctl_active_cmd(unit: Seq<char>) -> Seq<char> {
    "systemctl is-active "@ + unit + " 2>/dev/null || true"@
}

/// Whether `t` is exactly one `ssh` call running `cmd` (output captured).
pub open spec fn one_ssh_call(t: Seq<Entry>, s: SessionView, cmd: Seq<char>) -> bool {
    t.len() == 1 && t[0].0 == ssh_request(s, cmd, CallInput::Stdio(StdioMode::Capture))
}

/// `systemctl is-active <unit>` on the box: the first output line, `unknown`
/// for empty output, empty when SSH cannot run.
pub fn ssh_systemctl_active<R: ProcessRunner>(runs: &mut Runs<R>, opts: &RemoteOptions, unit: &str) -> (r:
    String)
    ensures
        host_spec_of(opts.host@) is Err ==> r@ == Seq::<char>::empty(),
        host_spec_of(opts.host@) is Ok ==> exists|e: Result<OutputView, ErrorView>|
            #[trigger] ssh_gives(
                old(runs).runner(),
                remote_session(*opts),
                systemctl_active_cmd(unit@),
                CallInput::Stdio(StdioMode::Capture),
                e,
            ) && r@ == match e {
                Ok(o) => first_line_or(o.stdout, "unknown"@),
                Err(_) => Seq::<char>::empty(),
            },
        final(runs).runner() == old(runs).runner(),
        log_grows(old(runs).log(), final(runs).log()),
        host_spec_of(opts.host@) is Err ==> final(runs).log() == old(runs).log(),
        host_spec_of(opts.host@) is Ok ==> ({
            let t = calls_between(old(runs).log(), final(runs).log());
            &&& one_ssh_call(t, remote_session(*opts), systemctl_active_cmd(unit@))
            &&& r@ == match out_at(t, 0, "ssh"@) {
                Ok(o) => first_line_or(o.stdout, "unknown"@),
                Err(_) => Seq::<char>::empty(),
            }
        }),
{
    let ghost runner = runs.runner();
    let ghost l0 = runs.log();
    let session = match session_from(opts) {
        Ok(s) => s,
        Err(_) => {
            return String::new();
        },
    };
    let cmd = concat3("systemctl is-active ", unit, " 2>/dev/null || true");
    let res = session.exec(runs, cmd.as_str(), StdioMode::Capture);
    assert(ssh_gives(runner, remote_session(*opts), systemctl_active_cmd(unit@), CallInput::Stdio(StdioMode::Capture), reply_view(res)));
    assert(ssh_calls(calls_between(l0, runs.log()), remote_session(*opts), systemctl_active_cmd(unit@), CallInput::Stdio(StdioMode::Capture), reply_view(res)));
    match res {
        Ok(out) => first_line_or_text(out.stdout.as_str(), "unknown"),
        Err(_) => String::new(),
    }
}

/// Remote command listing a running MCP server process.
pub const PGREP_MCP_CMD: &'static str = "pgrep -a horto-os-ui-mcp 2>/dev/null | head -1 || true";

/// Remote command printing the path of the MCP binary.
pub const WHICH_MCP_CMD: &'static str = "command -v horto-os-ui-mcp 2>/dev/null || true";

/// `process` when `pgrep` on the box finds the MCP server, else `inactive`
/// (empty when SSH cannot run).
pub fn ssh_pgrep_mcp<R: ProcessRunner>(runs: &mut Runs<R>, opts: &RemoteOptions) -> (r: String)
    ensures
        host_spec_of(opts.host@) is Err ==> r@ == Seq::<char>::empty(),
        host_spec_of(opts.host@) is Ok ==> r@ == "process"@ || r@ == "inactive"@,
        host_spec_of(opts.host@) is Ok ==> exists|e: Result<OutputView, ErrorView>|
            #[trigger] ssh_gives(
                old(runs).runner(),
                remote_session(*opts),
                PGREP_MCP_CMD@,
                CallInput::Stdio(StdioMode::Capture),
                e,
            ) && r@ == (if e matches Ok(o) && trim(o.stdout).len() > 0 {
                "process"@
            } else {
                "inactive"@
            }),
        final(runs).runner() == old(runs).runner(),
        log_grows(old(runs).log(), final(runs).log()),
        host_spec_of(opts.host@) is Err ==> final(runs).log() == old(runs).log(),
        host_spec_of(opts.host@) is Ok ==> ({
            let t = calls_between(old(runs).log(), final(runs).log());
            &&& one_ssh_call(t, remote_session(*opts), PGREP_MCP_CMD@)
            &&& r@ == (if out_at(t, 0, "ssh"@) matches Ok(o) && trim(o.stdout).len() > 0 {
                "process"@
            } else {
                "inactive"@
            })
        }),
{
    let ghost runner = runs.runner();
    let ghost l0 = runs.log();
    let session = match session_from(opts) {
        Ok(s) => s,
        Err(_) => {
            return String::new();
        },
    };
    let res = session.exec(runs, PGREP_MCP_CMD, StdioMode::Capture);
    assert(ssh_gives(runner, remote_session(*opts), PGREP_MCP_CMD@, CallInput::Stdio(StdioMode::Capture), reply_view(res)));
    assert(ssh_calls(calls_between(l0, runs.log()), remote_session(*opts), PGREP_MCP_CMD@, CallInput::Stdio(StdioMode::Capture), reply_view(res)));
    match res {
        Ok(out) => {
            let c = to_chars(out.stdout.as_str());
            let t = trim_chars(c.as_slice());
            if t.len() > 0 {
                owned("process")
            } else {
                owned("inactive")
            }
        },
        Err(_) => owned("inactive"),
    }
}

/// `command -v horto-os-ui-mcp` on the box: the first output line, trimmed,
/// when non-empty.
pub fn ssh_mcp_binary<R: ProcessRunner>(runs: &mut Runs<R>, opts: &RemoteOptions) -> (r: Option<String>)
    ensures
        host_spec_of(opts.host@) is Err ==> r is None,
        r matches Some(p) ==> p@.len() > 0,
        host_spec_of(opts.host@) is Ok ==> exists|e: Result<OutputView, ErrorView>|
            #[trigger] ssh_gives(
                old(runs).runner(),
                remote_session(*opts),
                WHICH_MCP_CMD@,
                CallInput::Stdio(StdioMode::Capture),
                e,
            ) && match e {
                Ok(o) => if first_line_or(o.stdout, ""@).len() > 0 {
                    r matches Some(p) && p@ == first_line_or(o.stdout, ""@)
                } else {
                    r is None
                },
                Err(_) => r is None,
            },
        final(runs).runner() == old(runs).runner(),
        log_grows(old(runs).log(), final(runs).log()),
        host_spec_of(opts.host@) is Err ==> final(runs).log() == old(runs).log(),
        host_spec_of(opts.host@) is Ok ==> ({
            let t = calls_between(old(runs).log(), final(runs).log());
            &&& one_ssh_call(t, remote_session(*opts), WHICH_MCP_CMD@)
            &&& match out_at(t, 0, "ssh"@) {
                Ok(o) => if first_line_or(o.stdout, ""@).len() > 0 {
                    r matches Some(p) && p@ == first_line_or(o.stdout, ""@)
                } else {
                    r is None
                },
                Err(_) => r is None,
            }
        }),
{
    let ghost runner = runs.runner();
    let ghost l0 = runs.log();
    let session = match session_from(opts) {
        Ok(s) => s,
        Err(_) => {
            return None;
        },
    };
    let res = session.exec(runs, WHICH_MCP_CMD, StdioMode::Capture);
    assert(ssh_gives(runner, remote_session(*opts), WHICH_MCP_CMD@, CallInput::Stdio(StdioMode::Capture), reply_view(res)));
    assert(ssh_calls(calls_between(l0, runs.log()), remote_session(*opts), WHICH_MCP_CMD@, CallInput::Stdio(StdioMode::Capture), reply_view(res)));
    match res {
        Ok(out) => {
            let path = first_line_or_text(out.stdout.as_str(), "");
            if path.as_str().is_empty() {
                None
            } else {
                Some(path)
            }
        },
        Err(_) => None,
    }
}

/// `docker image inspect --format '{{.Id}}' '<image>'` with the image quoted.
pub open spec fn docker_inspect_cmd(image: Seq<char>) -> Seq<char> {
    "docker image inspect --format '{{.Id}}' '"@ + replace(image, "'"@, "'\\''"@)
        + "' 2>/dev/null || true"@
}

/// The MCP image on the box, when `docker image inspect` prints an id.
pub fn ssh_mcp_docker<R: ProcessRunner>(runs: &mut Runs<R>, opts: &RemoteOptions, image: &str) -> (r:
    Option<String>)
    ensures
        host_spec_of(opts.host@) is Err ==> r is None,
        r matches Some(i) ==> i@ == image@,
        host_spec_of(opts.host@) is Ok ==> exists|e: Result<OutputView, ErrorView>|
            #[trigger] ssh_gives(
                old(runs).runner(),
                remote_session(*opts),
                docker_inspect_cmd(image@),
                CallInput::Stdio(StdioMode::Capture),
                e,
            ) && (r is Some <==> (e matches Ok(o) && trim(o.stdout).len() > 0)),
        final(runs).runner() == old(runs).runner(),
        log_grows(old(runs).log(), final(runs).log()),
        host_spec_of(opts.host@) is Err ==> final(runs).log() == old(runs).log(),
        host_spec_of(opts.host@) is Ok ==> ({
            let t = calls_between(old(runs).log(), final(runs).log());
            &&& one_ssh_call(t, remote_session(*opts), docker_inspect_cmd(image@))
            &&& (r is Some <==> (out_at(t, 0, "ssh"@) matches Ok(o) && trim(o.stdout).len() > 0))
        }),
{
    let ghost runner = runs.runner();
    let ghost l0 = runs.log();
    let session = match session_from(opts) {
        Ok(s) => s,
        Err(_) => {
            return None;
        },
    };
    proof {
        reveal_strlit("'");
    }
    let quoted = replace_str(image, "'", "'\\''");
    let cmd = concat3("docker image inspect --format '{{.Id}}' '", quoted.as_str(), "' 2>/dev/null || true");
    let res = session.exec(runs, cmd.as_str(), StdioMode::Capture);
    assert(ssh_gives(runner, remote_session(*opts), docker_inspect_cmd(image@), CallInput::Stdio(StdioMode::Capture), reply_view(res)));
    assert(ssh_calls(calls_between(l0, runs.log()), remote_session(*opts), docker_inspect_cmd(image@), CallInput::Stdio(StdioMode::Capture), reply_view(res)));
    match res {
        Ok(out) => {
            let c = to_chars(out.stdout.as_str());
            let t = trim_chars(c.as_slice());
            if t.len() > 0 {
                Some(owned(image))
            } else {
                None
            }
        },
        Err(_) => None,
    }
}

/// The local `docker image inspect` request for `image`.
pub open spec fn docker_inspect_request(image: Seq<char>) -> CallView {
    call("docker"@, seq!["image"@, "inspect"@, "--format"@, "{{.Id}}"@, image], seq![], StdioMode::Capture)
}

/// The local `pgrep -a horto-os-ui-mcp` request.
pub open spec fn pgrep_mcp_request() -> CallView {
    call("pgrep"@, seq!["-a"@, "horto-os-ui-mcp"@], seq![], StdioMode::Capture)
}

/// The MCP image on this machine, when `docker image inspect` succeeds with an id.
pub fn find_mcp_docker<R: ProcessRunner>(runs: &mut Runs<R>, image: &str) -> (r: Option<String>)
    ensures
        r matches Some(i) ==> i@ == image@,
        exists|reply: Result<OutputView, ErrorView>|
            #[trigger] old(runs).runner().may_reply(docker_inspect_request(image@), reply) && (r is Some <==> (reply_ok(reply) && trim(reply->Ok_0.stdout).len() > 0)),
        final(runs).runner() == old(runs).runner(),
        log_grows(old(runs).log(), final(runs).log()),
        ({
            let t = calls_between(old(runs).log(), final(runs).log());
            &&& t.len() == 1
            &&& t[0].0 == docker_inspect_request(image@)
            &&& (r is Some <==> (reply_ok(t[0].1) && trim(t[0].1->Ok_0.stdout).len() > 0))
        }),
{
    let ghost runner = runs.runner();
    let ghost l0 = runs.log();
    let args: [&str; 5] = ["image", "inspect", "--format", "{{.Id}}", image];
    let env: [(&str, &str); 0] = [];
    assert(ref_views(args@) =~= seq!["image"@, "inspect"@, "--format"@, "{{.Id}}"@, image@]);
    assert(ref_pair_views(env@) =~= seq![]);
    let res = runs.run("docker", &args, &env, StdioMode::Capture);
    assert(runner.may_reply(docker_inspect_request(image@), reply_view(res)));
    assert(calls_between(l0, runs.log()) =~= seq![(docker_inspect_request(image@), reply_view(res))]);
    match res {
        Ok(out) => {
            let c = to_chars(out.stdout.as_str());
            let t = trim_chars(c.as_slice());
            if out.success() && t.len() > 0 {
                Some(owned(image))
            } else {
                None
            }
        },
        Err(_) => None,
    }
}

/// `process` when a local `pgrep` finds the MCP server, else empty.
pub fn local_pgrep_mcp<R: ProcessRunner>(runs: &mut Runs<R>) -> (r: String)
    ensures
        r@ == "process"@ || r@ == Seq::<char>::empty(),
        exists|reply: Result<OutputView, ErrorView>|
            #[trigger] old(runs).runner().may_reply(pgrep_mcp_request(), reply) && r@ == (if reply_ok(reply) && trim(reply->Ok_0.stdout).len() > 0 {
                "process"@
            } else {
                Seq::<char>::empty()
            }),
        final(runs).runner() == old(runs).runner(),
        log_grows(old(runs).log(), final(runs).log()),
        ({
            let t = calls_between(old(runs).log(), final(runs).log());
            &&& t.len() == 1
            &&& t[0].0 == pgrep_mcp_request()
            &&& r@ == (if reply_ok(t[0].1) && trim(t[0].1->Ok_0.stdout).len() > 0 {
                "process"@
            } else {
                Seq::<char>::empty()
            })
        }),
{
    let ghost runner = runs.runner();
    let ghost l0 = runs.log();
    let args: [&str; 2] = ["-a", "horto-os-ui-mcp"];
    let env: [(&str, &str); 0] = [];
    assert(ref_views(args@) =~= seq!["-a"@, "horto-os-ui-mcp"@]);
    assert(ref_pair_views(env@) =~= seq![]);
    let res = runs.run("pgrep", &args, &env, StdioMode::Capture);
    assert(runner.may_reply(pgrep_mcp_request(), reply_view(res)));
    assert(calls_between(l0, runs.log()) =~= seq![(pgrep_mcp_request(), reply_view(res))]);
    match res {
        Ok(out) => {
            let c = to_chars(out.stdout.as_str());
            let t = trim_chars(c.as_slice());
            if out.success() && t.len() > 0 {
                owned("process")
            } else {
                String::new()
            }
        },
        Err(_) => String::new(),
    }
}

/// Status API row: `/health`, then `/v1/status` only when healthy; the unit
/// only over a working SSH to a remote box.
pub fn probe_api_row<R: ProcessRunner, H: HttpProbe>(
    runs: &mut Runs<R>,
    http: &H,
    opts: &RemoteOptions,
    host: &str,
    embedded: bool,
    ssh: &SshSurfaceProbe,
    token: Option<&str>,
) -> (a: ApiSurfaceProbe)
    ensures
        a.url@ == base_url(host@, STATUS_API_PORT),
        a.health@ != "ok"@ ==> a.status@ == "skipped"@,
        a.local_token == token is Some,
        (embedded || !ssh_usable(*ssh)) ==> a.unit@ == Seq::<char>::empty(),
        final(runs).runner() == old(runs).runner(),
        log_grows(old(runs).log(), final(runs).log()),
        http.may_label(host@, STATUS_API_PORT, "/health"@, None, a.health@),
        a.health@ == "ok"@ ==> http.may_label(host@, STATUS_API_PORT, "/v1/status"@, opt_str_view(token), a.status@),
        (embedded || !ssh_usable(*ssh) || host_spec_of(opts.host@) is Err) ==> final(runs).log() == old(runs).log(),
        (!embedded && ssh_usable(*ssh) && host_spec_of(opts.host@) is Ok) ==> ({
            let t = calls_between(old(runs).log(), final(runs).log());
            &&& one_ssh_call(t, remote_session(*opts), systemctl_active_cmd("horto-os-ui-status-api.service"@))
            &&& a.unit@ == match out_at(t, 0, "ssh"@) {
                Ok(o) => first_line_or(o.stdout, "unknown"@),
                Err(_) => Seq::<char>::empty(),
            }
        }),
{
    let url = base_url_text(host, STATUS_API_PORT);
    let health = http.get_label(host, STATUS_API_PORT, "/health", None);
    let status = if str_eq(health.as_str(), "ok") {
        http.get_label(host, STATUS_API_PORT, "/v1/status", token)
    } else {
        owned("skipped")
    };
    let unit = if !embedded && ssh_is_usable(ssh) {
        ssh_systemctl_active(runs, opts, "horto-os-ui-status-api.service")
    } else {
        String::new()
    };
    ApiSurfaceProbe { url, health, status, local_token: token.is_some(), unit }
}

/// MCP on this machine.
pub fn probe_mcp_pc<R: ProcessRunner, H: HttpProbe>(
    runs: &mut Runs<R>,
    http: &H,
    host: &str,
    local: &SurfaceLocal,
) -> (p: McpHostProbe)
    ensures
        p.http_url@ == base_url(host@, MCP_HTTP_PORT),
        opt_view(p.binary) == opt_view(local.mcp_binary),
        p.docker matches Some(i) ==> i@ == local.mcp_image@,
        final(runs).runner() == old(runs).runner(),
        log_grows(old(runs).log(), final(runs).log()),
        http.may_label(host@, MCP_HTTP_PORT, "/"@, None, p.http_reach@),
        http.may_label(host@, STATUS_API_PORT, "/health"@, None, p.api_health@),
        ({
            let t = calls_between(old(runs).log(), final(runs).log());
            &&& t.len() == 2
            &&& t[0].0 == docker_inspect_request(local.mcp_image@)
            &&& (p.docker is Some <==> (reply_ok(t[0].1) && trim(t[0].1->Ok_0.stdout).len() > 0))
            &&& t[1].0 == pgrep_mcp_request()
            &&& p.unit@ == (if reply_ok(t[1].1) && trim(t[1].1->Ok_0.stdout).len() > 0 {
                "process"@
            } else {
                Seq::<char>::empty()
            })
        }),
{
    let ghost l0 = runs.log();
    let http_url = base_url_text(host, MCP_HTTP_PORT);
    let docker = find_mcp_docker(runs, local.mcp_image.as_str());
    let ghost l1 = runs.log();
    let binary = match &local.mcp_binary {
        Some(b) => Some(owned(b.as_str())),
        None => None,
    };
    let http_reach = http.get_label(host, MCP_HTTP_PORT, "/", None);
    let unit = local_pgrep_mcp(runs);
    proof {
        lemma_calls_concat(l0, l1, runs.log());
        let t = calls_between(l0, runs.log());
        assert(t[0] == calls_between(l0, l1)[0]);
        assert(t[1] == calls_between(l1, runs.log())[0]);
    }
    let api_health = http.get_label(host, STATUS_API_PORT, "/health", None);
    McpHostProbe { docker, binary, http_url, http_reach, unit, api_health }
}

/// Whether an MCP unit state sends the box probe on to a process check.
pub open spec fn unit_fallback(active: Seq<char>) -> bool {
    active.len() == 0 || active == "inactive"@ || active == "unknown"@
}

/// Whether `t` is exactly the local MCP checks (`docker image inspect`, then
/// `pgrep`) and `p` carries what they found.
pub open spec fn mcp_local_calls(t: Seq<Entry>, image: Seq<char>, p: McpHostProbe) -> bool {
    &&& t.len() == 2
    &&& t[0].0 == docker_inspect_request(image)
    &&& (p.docker is Some <==> (reply_ok(t[0].1) && trim(t[0].1->Ok_0.stdout).len() > 0))
    &&& t[1].0 == pgrep_mcp_request()
    &&& p.unit@ == (if reply_ok(t[1].1) && trim(t[1].1->Ok_0.stdout).len() > 0 {
        "process"@
    } else {
        Seq::<char>::empty()
    })
}

/// Whether `t` is exactly the box MCP checks over SSH and `p` carries what
/// they found: the unit state, a process check only when the unit is not
/// known to run, then the binary and the image.
pub open spec fn mcp_box_ssh_calls(t: Seq<Entry>, s: SessionView, image: Seq<char>, p: McpHostProbe) -> bool {
    let active = match out_at(t, 0, "ssh"@) {
        Ok(o) => first_line_or(o.stdout, "unknown"@),
        Err(_) => Seq::<char>::empty(),
    };
    let b: int = if unit_fallback(active) {
        2
    } else {
        1
    };
    &&& t.len() == b + 2
    &&& t[0].0 == ssh_request(s, systemctl_active_cmd("horto-os-ui-mcp.service"@), CallInput::Stdio(StdioMode::Capture))
    &&& if unit_fallback(active) {
        &&& t[1].0 == ssh_request(s, PGREP_MCP_CMD@, CallInput::Stdio(StdioMode::Capture))
        &&& p.unit@ == (if out_at(t, 1, "ssh"@) matches Ok(o) && trim(o.stdout).len() > 0 {
            "process"@
        } else {
            "inactive"@
        })
    } else {
        p.unit@ == active
    }
    &&& t[b].0 == ssh_request(s, WHICH_MCP_CMD@, CallInput::Stdio(StdioMode::Capture))
    &&& match out_at(t, b, "ssh"@) {
        Ok(o) => if first_line_or(o.stdout, ""@).len() > 0 {
            p.binary matches Some(x) && x@ == first_line_or(o.stdout, ""@)
        } else {
            p.binary is None
        },
        Err(_) => p.binary is None,
    }
    &&& t[b + 1].0 == ssh_request(s, docker_inspect_cmd(image), CallInput::Stdio(StdioMode::Capture))
    &&& (p.docker is Some <==> (out_at(t, b + 1, "ssh"@) matches Ok(o) && trim(o.stdout).len() > 0))
}

/// MCP on the box: local facts when embedded, SSH checks when SSH works
/// (an inactive or unknown unit falls back to a process check), else nothing.
pub fn probe_mcp_box<R: ProcessRunner, H: HttpProbe>(
    runs: &mut Runs<R>,
    http: &H,
    opts: &RemoteOptions,
    host: &str,
    embedded: bool,
    ssh: &SshSurfaceProbe,
    local: &SurfaceLocal,
) -> (p: McpHostProbe)
    ensures
        p.http_url@ == base_url(host@, MCP_HTTP_PORT),
        !embedded && !ssh_usable(*ssh) ==> p.docker is None && p.binary is None && p.unit@
            == Seq::<char>::empty(),
        final(runs).runner() == old(runs).runner(),
        log_grows(old(runs).log(), final(runs).log()),
        http.may_label(host@, MCP_HTTP_PORT, "/"@, None, p.http_reach@),
        http.may_label(host@, STATUS_API_PORT, "/health"@, None, p.api_health@),
        embedded ==> mcp_local_calls(calls_between(old(runs).log(), final(runs).log()), local.mcp_image@, p),
        (!embedded && (!ssh_usable(*ssh) || host_spec_of(opts.host@) is Err)) ==> final(runs).log() == old(
            runs).log(),
        (!embedded && ssh_usable(*ssh) && host_spec_of(opts.host@) is Ok) ==> mcp_box_ssh_calls(
            calls_between(old(runs).log(), final(runs).log()),
            remote_session(*opts),
            local.mcp_image@,
            p,
        ),
{
    let ghost l0 = runs.log();
    let http_url = base_url_text(host, MCP_HTTP_PORT);
    let http_reach = http.get_label(host, MCP_HTTP_PORT, "/", None);
    let api_health = http.get_label(host, STATUS_API_PORT, "/health", None);
    let ssh_ok = !embedded && ssh_is_usable(ssh);
    if embedded {
        let docker = find_mcp_docker(runs, local.mcp_image.as_str());
        let ghost l1 = runs.log();
        let binary = match &local.mcp_binary {
            Some(b) => Some(owned(b.as_str())),
            None => None,
        };
        let unit = local_pgrep_mcp(runs);
        proof {
            lemma_calls_concat(l0, l1, runs.log());
            let t = calls_between(l0, runs.log());
            assert(t[0] == calls_between(l0, l1)[0]);
            assert(t[1] == calls_between(l1, runs.log())[0]);
        }
        return McpHostProbe { docker, binary, http_url, http_reach, unit, api_health };
    }
    if ssh_ok {
        let active = ssh_systemctl_active(runs, opts, "horto-os-ui-mcp.service");
        let ghost l1 = runs.log();
        let fallback = active.as_str().is_empty() || str_eq(active.as_str(), "inactive") || str_eq(
            active.as_str(),
            "unknown",
        );
        assert(fallback == unit_fallback(active@));
        let unit = if fallback {
            ssh_pgrep_mcp(runs, opts)
        } else {
            active
        };
        let ghost l2 = runs.log();
        let binary = ssh_mcp_binary(runs, opts);
        let ghost l3 = runs.log();
        let docker = ssh_mcp_docker(runs, opts, local.mcp_image.as_str());
        proof {
            let l4 = runs.log();
            lemma_calls_concat(l0, l1, l2);
            lemma_calls_concat(l0, l2, l3);
            lemma_calls_concat(l0, l3, l4);
            let t = calls_between(l0, l4);
            let ta = calls_between(l0, l1);
            let tb = calls_between(l1, l2);
            let tc = calls_between(l2, l3);
            let td = calls_between(l3, l4);
            assert(t =~= ta + tb + tc + td);
            assert(t[0] == ta[0]);
            if host_spec_of(opts.host@) is Ok {
                if fallback {
                    assert(t[1] == tb[0]);
                    assert(t[2] == tc[0]);
                    assert(t[3] == td[0]);
                } else {
                    assert(tb.len() == 0);
                    assert(t[1] == tc[0]);
                    assert(t[2] == td[0]);
                }
            }
        }
        return McpHostProbe { docker, binary, http_url, http_reach, unit, api_health };
    }
    McpHostProbe { docker: None, binary: None, http_url, http_reach, unit: String::new(), api_health }
}

/// Host the HTTP probes target: loopback when embedded.
pub fn probe_host(opts: &RemoteOptions, embedded: bool) -> (h: String)
    ensures
        h@ == (if embedded {
            "127.0.0.1"@
        } else {
            opts.host@
        }),
{
    if embedded {
        owned("127.0.0.1")
    } else {
        owned(opts.host.as_str())
    }
}

/// Probe status-api only.
/// Whether `t` is exactly the calls of [`probe_api_surface`] for a remote
/// box with a valid host and `r` its result: the login probe (an error
/// there ends it), then the unit check only when SSH is usable.
pub open spec fn api_surface_calls(t: Seq<Entry>, opts: RemoteOptions, r: Result<ApiSurfaceProbe, HortoError>) -> bool {
    &&& t.len() >= 1
    &&& t[0].0 == ssh_access_request(remote_session(opts))
    &&& match t[0].1 {
        Err(e) => t.len() == 1 && (r matches Err(e2) && e2@ == e),
        Ok(_) => exists|sp: SshSurfaceProbe|
            #[trigger] ssh_access_calls(t.subrange(0, 1), opts, Ok::<SshSurfaceProbe, HortoError>(sp)) && (r matches Ok(
                a,
            ) && if ssh_usable(sp) {
                api_unit_calls(t.subrange(1, t.len() as int), remote_session(opts), a)
            } else {
                t.len() == 1 && a.unit@ == Seq::<char>::empty()
            }),
    }
}

/// Whether `t` is exactly the calls of [`probe_mcp_surface`] and `r` its
/// result: embedded, the local MCP checks twice; otherwise the login probe
/// (an error there ends it), the local MCP checks, and the box checks over
/// SSH only when SSH is usable.
pub open spec fn mcp_surface_calls(
    t: Seq<Entry>,
    opts: RemoteOptions,
    embedded: bool,
    image: Seq<char>,
    r: Result<(McpHostProbe, McpHostProbe), HortoError>,
) -> bool {
    if embedded {
        r matches Ok(p) && t.len() == 4 && mcp_local_calls(t.subrange(0, 2), image, p.0) && mcp_local_calls(
            t.subrange(2, 4),
            image,
            p.1,
        )
    } else {
        &&& t.len() >= 1
        &&& t[0].0 == ssh_access_request(remote_session(opts))
        &&& match t[0].1 {
            Err(e) => t.len() == 1 && (r matches Err(e2) && e2@ == e),
            Ok(_) => exists|sp: SshSurfaceProbe|
                #[trigger] ssh_access_calls(t.subrange(0, 1), opts, Ok::<SshSurfaceProbe, HortoError>(sp)) && (r matches Ok(
                    p,
                ) && t.len() >= 3 && mcp_local_calls(t.subrange(1, 3), image, p.0) && if ssh_usable(sp) {
                    mcp_box_ssh_calls(t.subrange(3, t.len() as int), remote_session(opts), image, p.1)
                } else {
                    t.len() == 3
                }),
        }
    }
}

pub fn probe_api_surface<R: ProcessRunner, H: HttpProbe>(
    runs: &mut Runs<R>,
    http: &H,
    opts: &RemoteOptions,
    embedded: bool,
    local: &SurfaceLocal,
) -> (r: Result<ApiSurfaceProbe, HortoError>)
    ensures
        r matches Ok(a) ==> a.url@ == base_url(
            if embedded {
                "127.0.0.1"@
            } else {
                opts.host@
            },
            STATUS_API_PORT,
        ),
        embedded ==> r is Ok,
        !embedded ==> exists|s: Result<SshSurfaceProbe, HortoError>|
            #[trigger] ssh_access_gives(old(runs).runner(), *opts, s) && (r is Ok <==> s is Ok) && (s matches Err(
                e,
            ) ==> r matches Err(e2) && e2@ == e@),
        final(runs).runner() == old(runs).runner(),
        log_grows(old(runs).log(), final(runs).log()),
        (embedded || host_spec_of(opts.host@) is Err) ==> final(runs).log() == old(runs).log(),
        (!embedded && host_spec_of(opts.host@) is Ok) ==> api_surface_calls(
            calls_between(old(runs).log(), final(runs).log()),
            *opts,
            r,
        ),
{
    let ghost l0 = runs.log();
    let host = probe_host(opts, embedded);
    let probed = probe_ssh_surface(runs, opts, embedded);
    let ssh = match probed {
        Ok(p) => p,
        Err(e) => {
            return Err(e);
        },
    };
    let ghost l1 = runs.log();
    let token: Option<&str> = match &local.api_token {
        Some(t) => Some(t.as_str()),
        None => None,
    };
    let a = probe_api_row(runs, http, opts, host.as_str(), embedded, &ssh, token);
    proof {
        if !embedded && host_spec_of(opts.host@) is Ok {
            lemma_calls_concat(l0, l1, runs.log());
            let ta = calls_between(l0, l1);
            let tb = calls_between(l1, runs.log());
            let t = calls_between(l0, runs.log());
            assert(t =~= ta + tb);
            assert(t.subrange(0, 1) =~= ta);
            assert(t.subrange(1, t.len() as int) =~= tb);
            assert(t[0] == ta[0]);
            assert(ssh_access_calls(t.subrange(0, 1), *opts, Ok::<SshSurfaceProbe, HortoError>(ssh)));
        }
    }
    Ok(a)
}

/// Probe MCP PC + box only.
pub fn probe_mcp_surface<R: ProcessRunner, H: HttpProbe>(
    runs: &mut Runs<R>,
    http: &H,
    opts: &RemoteOptions,
    embedded: bool,
    local: &SurfaceLocal,
) -> (r: Result<(McpHostProbe, McpHostProbe), HortoError>)
    ensures
        r matches Ok(p) ==> p.0.http_url@ == base_url(
            if embedded {
                "127.0.0.1"@
            } else {
                opts.host@
            },
            MCP_HTTP_PORT,
        ) && p.1.http_url@ == p.0.http_url@,
        embedded ==> r is Ok,
        !embedded ==> exists|s: Result<SshSurfaceProbe, HortoError>|
            #[trigger] ssh_access_gives(old(runs).runner(), *opts, s) && (r is Ok <==> s is Ok) && (s matches Err(
                e,
            ) ==> r matches Err(e2) && e2@ == e@),
        final(runs).runner() == old(runs).runner(),
        log_grows(old(runs).log(), final(runs).log()),
        !embedded && host_spec_of(opts.host@) is Err ==> final(runs).log() == old(runs).log(),
        (embedded || host_spec_of(opts.host@) is Ok) ==> mcp_surface_calls(
            calls_between(old(runs).log(), final(runs).log()),
            *opts,
            embedded,
            local.mcp_image@,
            r,
        ),
{
    let ghost l0 = runs.log();
    let host = probe_host(opts, embedded);
    let probed = probe_ssh_surface(runs, opts, embedded);
    let ssh = match probed {
        Ok(p) => p,
        Err(e) => {
            return Err(e);
        },
    };
    let ghost l1 = runs.log();
    let pc = probe_mcp_pc(runs, http, host.as_str(), local);
    let ghost l2 = runs.log();
    let bx = probe_mcp_box(runs, http, opts, host.as_str(), embedded, &ssh, local);
    proof {
        lemma_calls_concat(l0, l1, l2);
        lemma_calls_concat(l0, l2, runs.log());
        let ta = calls_between(l0, l1);
        let tb = calls_between(l1, l2);
        let tc = calls_between(l2, runs.log());
        let t = calls_between(l0, runs.log());
        assert(t =~= ta + tb + tc);
        if embedded {
            assert(t.subrange(0, 2) =~= tb);
            assert(t.subrange(2, 4) =~= tc);
        } else if host_spec_of(opts.host@) is Ok {
            assert(t.subrange(0, 1) =~= ta);
            assert(t[0] == ta[0]);
            assert(t.subrange(1, 3) =~= tb);
            assert(t.subrange(3, t.len() as int) =~= tc);
            assert(ssh_access_calls(t.subrange(0, 1), *opts, Ok::<SshSurfaceProbe, HortoError>(ssh)));
        }
    }
    Ok((pc, bx))
}

/// Whether `t` is exactly the status-api unit check of the API row and `a`
/// carries its answer.
pub open spec fn api_unit_calls(t: Seq<Entry>, s: SessionView, a: ApiSurfaceProbe) -> bool {
    &&& one_ssh_call(t, s, systemctl_active_cmd("horto-os-ui-status-api.service"@))
    &&& a.unit@ == match out_at(t, 0, "ssh"@) {
        Ok(o) => first_line_or(o.stdout, "unknown"@),
        Err(_) => Seq::<char>::empty(),
    }
}

/// Whether `t` is exactly the calls after a working login probe and `rep`
/// carries what they found: with usable SSH the CLI probe, the API unit, the
/// local MCP checks and the box MCP checks; otherwise only the local MCP
/// checks.
pub open spec fn surfaces_rest_calls(t: Seq<Entry>, opts: RemoteOptions, image: Seq<char>, rep: SurfaceProbeReport) -> bool {
    let s = remote_session(opts);
    if ssh_usable(rep.ssh) {
        exists|k: int|
            #![trigger cli_row_calls(t.subrange(0, k), opts, Ok::<CliSurfaceProbe, HortoError>(rep.cli))]
            0 <= k && k + 3 <= t.len() && cli_row_calls(
                t.subrange(0, k),
                opts,
                Ok::<CliSurfaceProbe, HortoError>(rep.cli),
            ) && api_unit_calls(t.subrange(k, k + 1), s, rep.api) && mcp_local_calls(
                t.subrange(k + 1, k + 3),
                image,
                rep.mcp_pc,
            ) && mcp_box_ssh_calls(t.subrange(k + 3, t.len() as int), s, image, rep.mcp_box)
    } else {
        mcp_local_calls(t, image, rep.mcp_pc)
    }
}

/// Whether `t` is exactly the calls of [`probe_surfaces`] and `r` its result:
/// embedded, only the local MCP checks for the tip and for the box;
/// otherwise the login probe (an error there ends the probe) and then
/// [`surfaces_rest_calls`].
pub open spec fn surfaces_calls(
    t: Seq<Entry>,
    opts: RemoteOptions,
    embedded: bool,
    image: Seq<char>,
    r: Result<SurfaceProbeReport, HortoError>,
) -> bool {
    if embedded {
        r matches Ok(rep) && t.len() == 4 && mcp_local_calls(t.subrange(0, 2), image, rep.mcp_pc)
            && mcp_local_calls(t.subrange(2, 4), image, rep.mcp_box)
    } else {
        &&& t.len() >= 1
        &&& t[0].0 == ssh_access_request(remote_session(opts))
        &&& match t[0].1 {
            Err(e) => t.len() == 1 && (r matches Err(e2) && e2@ == e),
            Ok(_) => r matches Ok(rep) && ssh_access_calls(
                t.subrange(0, 1),
                opts,
                Ok::<SshSurfaceProbe, HortoError>(rep.ssh),
            ) && surfaces_rest_calls(t.subrange(1, t.len() as int), opts, image, rep),
        }
    }
}

/// Probe all surfaces for a remote host, or loopback when `embedded`.
pub fn probe_surfaces<R: ProcessRunner, H: HttpProbe>(
    runs: &mut Runs<R>,
    http: &H,
    opts: &RemoteOptions,
    embedded: bool,
    local: &SurfaceLocal,
) -> (r: Result<SurfaceProbeReport, HortoError>)
    ensures
        !embedded && host_spec_of(opts.host@) is Err ==> r is Err,
        r matches Ok(rep) ==> {
            &&& rep.local_version@ == LONG_VERSION@
            &&& embedded ==> rep.ssh.status@ == "n/a"@ && rep.cli.current
            &&& rep.api.url@ == base_url(
                if embedded {
                    "127.0.0.1"@
                } else {
                    opts.host@
                },
                STATUS_API_PORT,
            )
            &&& rep.mcp_pc.http_url@ == base_url(
                if embedded {
                    "127.0.0.1"@
                } else {
                    opts.host@
                },
                MCP_HTTP_PORT,
            )
            &&& rep.mcp_box.http_url@ == rep.mcp_pc.http_url@
            &&& rep.api.local_token == local.api_token is Some
        },
        embedded ==> r is Ok,
        !embedded ==> exists|s: Result<SshSurfaceProbe, HortoError>|
            #[trigger] ssh_access_gives(old(runs).runner(), *opts, s) && match s {
                Ok(p) => r matches Ok(rep) && rep.ssh == p,
                Err(e) => r matches Err(e2) && e2@ == e@,
            },
        final(runs).runner() == old(runs).runner(),
        log_grows(old(runs).log(), final(runs).log()),
        !embedded && host_spec_of(opts.host@) is Err ==> final(runs).log() == old(runs).log(),
        (embedded || host_spec_of(opts.host@) is Ok) ==> surfaces_calls(
            calls_between(old(runs).log(), final(runs).log()),
            *opts,
            embedded,
            local.mcp_image@,
            r,
        ),
{
    let ghost runner = runs.runner();
    let ghost l0 = runs.log();
    let host = probe_host(opts, embedded);
    let ssh = if embedded {
        embedded_ssh_row()
    } else {
        let probed = probe_ssh_access(runs, opts);
        assert(ssh_access_gives(runner, *opts, probed));
        match probed {
            Ok(p) => p,
            Err(e) => {
                return Err(e);
            },
        }
    };
    let ghost l1 = runs.log();
    let cli = match probe_cli_row(runs, opts, embedded, &ssh) {
        Ok(c) => c,
        Err(e) => {
            return Err(e);
        },
    };
    let ghost l2 = runs.log();
    let token: Option<&str> = match &local.api_token {
        Some(t) => Some(t.as_str()),
        None => None,
    };
    let api = probe_api_row(runs, http, opts, host.as_str(), embedded, &ssh, token);
    let ghost l3 = runs.log();
    let mcp_pc = probe_mcp_pc(runs, http, host.as_str(), local);
    let ghost l4 = runs.log();
    let mcp_box = probe_mcp_box(runs, http, opts, host.as_str(), embedded, &ssh, local);
    let report = SurfaceProbeReport { local_version: owned(LONG_VERSION), ssh, cli, api, mcp_pc, mcp_box };
    proof {
        let l5 = runs.log();
        lemma_calls_concat(l0, l1, l2);
        lemma_calls_concat(l0, l2, l3);
        lemma_calls_concat(l0, l3, l4);
        lemma_calls_concat(l0, l4, l5);
        let ta = calls_between(l0, l1);
        let tb = calls_between(l1, l2);
        let tc = calls_between(l2, l3);
        let td = calls_between(l3, l4);
        let te = calls_between(l4, l5);
        let t = calls_between(l0, l5);
        assert(t =~= ta + tb + tc + td + te);
        if embedded {
            assert(t.subrange(0, 2) =~= td);
            assert(t.subrange(2, 4) =~= te);
        } else if host_spec_of(opts.host@) is Ok {
            assert(t.subrange(0, 1) =~= ta);
            assert(t[0] == ta[0]);
            let u = t.subrange(1, t.len() as int);
            assert(u =~= tb + tc + td + te);
            if ssh_usable(ssh) {
                let k = tb.len() as int;
                assert(u.subrange(0, k) =~= tb);
                assert(u.subrange(k, k + 1) =~= tc);
                assert(u.subrange(k + 1, k + 3) =~= td);
                assert(u.subrange(k + 3, u.len() as int) =~= te);
                assert(cli_row_calls(u.subrange(0, k), *opts, Ok::<CliSurfaceProbe, HortoError>(report.cli)));
            } else {
                assert(u =~= td);
            }
        }
    }
    Ok(report)
}

pub open spec fn dash_if_empty(s: Seq<char>) -> Seq<char> {
    if s.len() == 0 {
        "-"@
    } else {
        s
    }
}

/// `-` for an empty value.
pub fn empty_dash(s: &str) -> (r: &str)
    ensures
        r@ == dash_if_empty(s@),
{
    if s.is_empty() {
        "-"
    } else {
        s
    }
}

pub open spec fn bool_text(b: bool) -> Seq<char> {
    if b {
        "true"@
    } else {
        "false"@
    }
}

pub fn bool_str(b: bool) -> (r: &'static str)
    ensures
        r@ == bool_text(b),
{
    if b {
        "true"
    } else {
        "false"
    }
}

pub open spec fn or_missing(o: Option<String>) -> Seq<char> {
    match o {
        Some(s) => s@,
        None => "missing"@,
    }
}

/// One MCP line of the surfaces report.
pub open spec fn mcp_host_line(prefix: Seq<char>, p: McpHostProbe) -> Seq<char> {
    prefix + " docker="@ + or_missing(p.docker) + " binary="@ + or_missing(p.binary) + " http="@
        + p.http_url@ + " reach="@ + p.http_reach@ + " unit="@ + dash_if_empty(p.unit@)
        + " api_health="@ + p.api_health@ + "\n"@
}

/// `<prefix> docker=… binary=… http=… reach=… unit=… api_health=…` line.
pub fn format_mcp_host_line(prefix: &str, p: &McpHostProbe) -> (r: String)
    ensures
        r@ == mcp_host_line(prefix@, *p),
{
    let docker: &str = match &p.docker {
        Some(d) => d.as_str(),
        None => "missing",
    };
    let binary: &str = match &p.binary {
        Some(b) => b.as_str(),
        None => "missing",
    };
    let mut r = concat3(prefix, " docker=", docker);
    r.append(" binary=");
    r.append(binary);
    r.append(" http=");
    r.append(p.http_url.as_str());
    r.append(" reach=");
    r.append(p.http_reach.as_str());
    r.append(" unit=");
    r.append(empty_dash(p.unit.as_str()));
    r.append(" api_health=");
    r.append(p.api_health.as_str());
    r.append("\n");
    r
}

/// Text of [`format_surfaces_report`].
pub open spec fn surfaces_text(r: SurfaceProbeReport) -> Seq<char> {
    "local="@ + r.local_version@ + "\n"@ + "ssh="@ + r.ssh.status@ + " key_ok="@ + bool_text(
        r.ssh.key_ok,
    ) + "\n"@ + "cli="@ + crate::remote::runner::probe::status_label(r.cli.status@)
        + " current="@ + bool_text(r.cli.current) + "\n"@ + "api="@ + r.api.url@ + " health="@
        + r.api.health@ + " status="@ + r.api.status@ + " token_file="@ + bool_text(
        r.api.local_token,
    ) + " unit="@ + dash_if_empty(r.api.unit@) + "\n"@ + mcp_host_line("mcp_pc"@, r.mcp_pc)
        + mcp_host_line("mcp_box"@, r.mcp_box)
}

/// Human-readable multi-line report (CLI `surfaces`).
pub fn format_surfaces_report(report: &SurfaceProbeReport) -> (out: String)
    ensures
        out@ == surfaces_text(*report),
{
    let mut out = concat3("local=", report.local_version.as_str(), "\n");
    out.append("ssh=");
    out.append(report.ssh.status.as_str());
    out.append(" key_ok=");
    out.append(bool_str(report.ssh.key_ok));
    out.append("\n");
    out.append("cli=");
    out.append(report.cli.status.as_label());
    out.append(" current=");
    out.append(bool_str(report.cli.current));
    out.append("\n");
    out.append("api=");
    out.append(report.api.url.as_str());
    out.append(" health=");
    out.append(report.api.health.as_str());
    out.append(" status=");
    out.append(report.api.status.as_str());
    out.append(" token_file=");
    out.append(bool_str(report.api.local_token));
    out.append(" unit=");
    out.append(empty_dash(report.api.unit.as_str()));
    out.append("\n");
    let pc = format_mcp_host_line("mcp_pc", &report.mcp_pc);
    out.append(pc.as_str());
    let bx = format_mcp_host_line("mcp_box", &report.mcp_box);
    out.append(bx.as_str());
    out
}

/// `GET <path> HTTP/1.0` request text, with a bearer header when given.
pub open spec fn http_request_text(host: Seq<char>, path: Seq<char>, bearer: Option<Seq<char>>) -> Seq<
    char,
> {
    "GET "@ + path + " HTTP/1.0\r\nHost: "@ + host + "\r\nConnection: close\r\n"@ + (match bearer {
        Some(t) => "Authorization: Bearer "@ + t + "\r\n"@,
        None => seq![],
    }) + "\r\n"@
}

pub fn http_get_request(host: &str, path: &str, bearer: Option<&str>) -> (r: String)
    ensures
        r@ == http_request_text(
            host@,
            path@,
            match bearer {
                Some(t) => Some(t@),
                None => None,
            },
        ),
{
    let mut r = concat3("GET ", path, " HTTP/1.0\r\nHost: ");
    r.append(host);
    r.append("\r\nConnection: close\r\n");
    if let Some(t) = bearer {
        r.append("Authorization: Bearer ");
        r.append(t);
        r.append("\r\n");
    }
    r.append("\r\n");
    r
}

/// Status code of an HTTP response: the second word of its first line as `u16`.
pub open spec fn http_status_code(text: Seq<char>) -> Option<nat> {
    let ls = lines(text);
    let first = if ls.len() > 0 {
        ls[0]
    } else {
        seq![]
    };
    let ws = tokens(first);
    if ws.len() > 1 {
        parse_unsigned(ws[1], 0xffff)
    } else {
        None
    }
}

/// Probe label of a raw HTTP response.
pub open spec fn http_label(text: Seq<char>) -> Seq<char> {
    match http_status_code(text) {
        Some(c) => if c == 200 {
            "ok"@
        } else if c == 401 || c == 403 {
            "auth required"@
        } else {
            "http "@ + int_text(c as int)
        },
        None => if text.len() == 0 {
            "unreachable"@
        } else {
            "ok"@
        },
    }
}

/// The label depends on the response's status code alone: 200 is `ok`,
/// both 401 and 403 are `auth required`, any other code `c` is `http c`; so
/// `auth required` is given exactly for 401 and 403.
pub proof fn law_forbidden_and_unauthorized_need_auth(text: Seq<char>, c: nat)
    requires
        http_status_code(text) == Some(c),
    ensures
        c == 200 ==> http_label(text) == "ok"@,
        (c == 401 || c == 403) ==> http_label(text) == "auth required"@,
        (c != 200 && c != 401 && c != 403) ==> http_label(text) == "http "@ + int_text(c as int),
        http_label(text) == "auth required"@ <==> (c == 401 || c == 403),
{
    reveal_strlit("ok");
    reveal_strlit("auth required");
    reveal_strlit("http ");
    if c != 200 && c != 401 && c != 403 {
        assert(("http "@ + int_text(c as int))[0] != "auth required"@[0]);
    }
    assert("ok"@.len() != "auth required"@.len());
}

/// Without a status code an empty response is `unreachable` and any other
/// one `ok`.
pub proof fn law_response_without_status_code(text: Seq<char>)
    requires
        http_status_code(text) is None,
    ensures
        text.len() == 0 ==> http_label(text) == "unreachable"@,
        text.len() > 0 ==> http_label(text) == "ok"@,
{
}

/// Label of a raw HTTP response: `ok` for 200 (or a body without a status
/// line), `auth required` for 401/403, `http <code>` otherwise, `unreachable`
/// for an empty response.
pub fn http_response_label(text: &str) -> (r: String)
    ensures
        r@ == http_label(text@),
{
    let c = to_chars(text);
    let ls = split_lines(c.as_slice());
    let first: Vec<char> = if ls.len() > 0 {
        let f = crate::text::slice_range(ls[0].as_slice(), 0, ls[0].len());
        assert(f@ =~= ls@[0]@);
        f
    } else {
        Vec::new()
    };
    let ws = split_ws(first.as_slice());
    let code: Option<u64> = if ws.len() > 1 {
        parse_unsigned_chars(ws[1].as_slice(), 0xffff)
    } else {
        None
    };
    match code {
        Some(v) => {
            if v == 200 {
                owned("ok")
            } else if v == 401 || v == 403 {
                owned("auth required")
            } else {
                let n = int_to_string(v as i64);
                concat2("http ", n.as_str())
            }
        },
        None => {
            if c.len() == 0 {
                owned("unreachable")
            } else {
                owned("ok")
            }
        },
    }
}

} // verus!
