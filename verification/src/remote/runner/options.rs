//! Remote session options, banners, and shared command helpers.
use vstd::prelude::*;
use crate::remote::process::{calls_between, log_grows, out_at, Entry, Runs};
use crate::error::HortoError;
use crate::remote::bins::default_release_tag;
use crate::remote::ecosystem::{EcosystemInstallChoice, DEFAULT_INSTALL_DIR as ECO_INSTALL_DIR};
use crate::remote::host::{host_spec_of, parse_host_spec};
use crate::error::ErrorView;
use crate::remote::process::{reply_view, CallInput, CommandOutput, OutputView, ProcessRunner, StdioMode};
use crate::remote::ssh::{
    opt_view, ssh_env_pairs, ssh_gives, ssh_request, SessionView, SshEnv, SshSession,
};
use crate::text::{
    char_is_alnum, concat2, concat3, is_alnum, join, join_strings, owned, replace, replace_str,
    sviews, to_chars, trim, trim_chars, trim_end_char, trim_end_char_str, trim_str,
};
use crate::VERSION;

verus! {

/// Default GitHub repo that publishes box Release tar.gz assets.
pub const DEFAULT_GITHUB_REPO: &'static str = "Hortos-Network/horto-os-ui";

/// Remote directory for the temporary CLI apply agent.
pub const DEFAULT_REMOTE_AGENT_DIR: &'static str = "/tmp/horto-os-ui-remote";

/// Permanent install directory for CLI + TUI + status-api + MCP on the box.
pub const DEFAULT_INSTALL_DIR: &'static str = ECO_INSTALL_DIR;

/// Options for a remote OpenSSH session and binary source.
#[derive(Debug, Clone)]
pub struct RemoteOptions {
    /// OpenSSH Host alias or `user@host`.
    pub host: String,
    /// When true, run `ssh-copy-id` once before apply. Default false.
    pub install_ssh_key: bool,
    /// Local directory with the box binaries (skips GitHub download).
    pub bin_dir: Option<String>,
    /// Workspace / Release version (`0.1.0`, without `v`). Used in asset filenames.
    pub version: String,
    /// GitHub Release tag to download from (`v0.1.0` or tip `dev-preview`).
    pub release_tag: String,
    /// `owner/repo` for Release downloads.
    pub github_repo: String,
    /// Cache root for downloaded Release assets (empty: the embedding program's default).
    pub cache_root: String,
    /// Remote temp dir for the apply agent.
    pub remote_agent_dir: String,
    /// Remote install dir for permanent binaries.
    pub install_dir: String,
    /// Optional OpenSSH config file (`ssh -F`). Used by tests and custom layouts.
    pub ssh_config_file: Option<String>,
    /// Askpass / environment policy for OpenSSH children.
    pub ssh_env: SshEnv,
    /// Public key for the opt-in key install (the default one under `~/.ssh`,
    /// found by the embedding program; `None` when there is none).
    pub identity_pubkey: Option<String>,
}

impl Default for RemoteOptions {
    fn default() -> (o: Self)
        ensures
            o.host@ == Seq::<char>::empty(),
            !o.install_ssh_key,
            o.bin_dir is None,
            o.version@ == VERSION@,
            o.release_tag@ == "v"@ + VERSION@,
            o.github_repo@ == DEFAULT_GITHUB_REPO@,
            o.cache_root@ == Seq::<char>::empty(),
            o.remote_agent_dir@ == DEFAULT_REMOTE_AGENT_DIR@,
            o.install_dir@ == DEFAULT_INSTALL_DIR@,
            o.ssh_config_file is None,
            !o.ssh_env.force_askpass,
            o.ssh_env.askpass is None,
            o.ssh_env.display is None,
            o.identity_pubkey is None,
    {
        RemoteOptions {
            host: String::new(),
            install_ssh_key: false,
            bin_dir: None,
            version: owned(VERSION),
            release_tag: default_release_tag(VERSION),
            github_repo: owned(DEFAULT_GITHUB_REPO),
            cache_root: String::new(),
            remote_agent_dir: owned(DEFAULT_REMOTE_AGENT_DIR),
            install_dir: owned(DEFAULT_INSTALL_DIR),
            ssh_config_file: None,
            ssh_env: SshEnv::default(),
            identity_pubkey: None,
        }
    }
}

/// Common inputs shared by CLI, TUI, desktop, and MCP when building [`RemoteOptions`].
#[derive(Debug, Clone)]
pub struct RemoteOptionsInput {
    /// OpenSSH Host alias or `user@host`.
    pub host: String,
    /// When true, run `ssh-copy-id` once before apply.
    pub install_ssh_key: bool,
    /// Local directory with the box binaries (skips GitHub download).
    pub bin_dir: Option<String>,
    /// Override Release tag when non-empty after trim; otherwise keep default.
    pub release_tag: Option<String>,
}

impl Default for RemoteOptionsInput {
    fn default() -> (i: Self)
        ensures
            i.host@ == Seq::<char>::empty(),
            !i.install_ssh_key,
            i.bin_dir is None,
            i.release_tag is None,
    {
        RemoteOptionsInput {
            host: String::new(),
            install_ssh_key: false,
            bin_dir: None,
            release_tag: None,
        }
    }
}

impl RemoteOptions {
    /// Build session options from shared surface inputs (host / key / bin / tag).
    pub fn from_input(input: RemoteOptionsInput) -> (o: Self)
        ensures
            o.host@ == input.host@,
            o.install_ssh_key == input.install_ssh_key,
            opt_view(o.bin_dir) == opt_view(input.bin_dir),
            o.release_tag@ == (match input.release_tag {
                Some(t) => if trim(t@).len() > 0 {
                    trim(t@)
                } else {
                    "v"@ + VERSION@
                },
                None => "v"@ + VERSION@,
            }),
            o.version@ == VERSION@,
            o.github_repo@ == DEFAULT_GITHUB_REPO@,
            o.remote_agent_dir@ == DEFAULT_REMOTE_AGENT_DIR@,
            o.install_dir@ == DEFAULT_INSTALL_DIR@,
            o.ssh_config_file is None,
            o.cache_root@ == Seq::<char>::empty(),
            !o.ssh_env.force_askpass,
            o.ssh_env.askpass is None,
            o.ssh_env.display is None,
            o.identity_pubkey is None,
    {
        let mut opts = RemoteOptions::default();
        opts.host = input.host;
        opts.install_ssh_key = input.install_ssh_key;
        opts.bin_dir = input.bin_dir;
        if let Some(tag) = &input.release_tag {
            let t = trim_str(tag.as_str());
            if !t.as_str().is_empty() {
                opts.release_tag = t;
            }
        }
        opts
    }
}

/// Boolean switches for a remote CLI run.
#[derive(Debug, Clone, Copy)]
pub struct RemoteRunFlags {
    /// Prefix with `sudo -n` / `sudo` when true (apply mode).
    pub use_sudo: bool,
    /// After a successful command, install selected ecosystem services on the box.
    pub install_payload_on_success: bool,
    /// After success (and payload install), offer an interactive box reboot (TTY only).
    pub offer_reboot_on_success: bool,
    /// Capture remote stdout/stderr instead of inheriting the local TTY.
    pub capture_output: bool,
    /// When true, run even if the box CLI long-version does not match tip
    /// [`crate::LONG_VERSION`].
    pub allow_stale_cli: bool,
}

impl Default for RemoteRunFlags {
    fn default() -> (f: Self)
        ensures
            !f.use_sudo && !f.install_payload_on_success && !f.offer_reboot_on_success
                && !f.capture_output && !f.allow_stale_cli,
    {
        RemoteRunFlags {
            use_sudo: false,
            install_payload_on_success: false,
            offer_reboot_on_success: false,
            capture_output: false,
            allow_stale_cli: false,
        }
    }
}

/// CLI arguments to run on the box via the uploaded agent (without the binary name).
#[derive(Debug, Clone)]
pub struct RemoteRunRequest {
    /// Session and binary options.
    pub options: RemoteOptions,
    /// Arguments after the remote `horto-os-ui` binary.
    pub cli_args: Vec<String>,
    /// Sudo / payload / reboot / capture switches.
    pub flags: RemoteRunFlags,
    /// Which services to install when [`RemoteRunFlags::install_payload_on_success`] is set.
    pub ecosystem: EcosystemInstallChoice,
    /// Sudo password collected by a UI (`Some`: never inherit the TTY).
    pub sudo_password: Option<String>,
}

/// The session [`session_from`] opens for `opts` once its host is valid.
pub open spec fn remote_session(opts: RemoteOptions) -> SessionView {
    SessionView {
        host: trim(opts.host@),
        config: opt_view(opts.ssh_config_file),
        env: ssh_env_pairs(
            opts.ssh_env.force_askpass,
            opt_view(opts.ssh_env.askpass),
            opt_view(opts.ssh_env.display),
        ),
    }
}

/// OpenSSH session for `opts` (host checked by [`parse_host_spec`]).
pub fn session_from(opts: &RemoteOptions) -> (r: Result<SshSession, HortoError>)
    ensures
        match r {
            Ok(s) => host_spec_of(opts.host@) == Ok::<Seq<char>, crate::error::ErrorView>(
                s.host.raw@,
            ) && opt_view(s.config_file) == opt_view(opts.ssh_config_file)
                && s.env.force_askpass == opts.ssh_env.force_askpass
                && s@ == remote_session(*opts),
            Err(e) => host_spec_of(opts.host@) == Err::<Seq<char>, crate::error::ErrorView>(e@),
        },
{
    let host = parse_host_spec(opts.host.as_str())?;
    let config_file = match &opts.ssh_config_file {
        Some(c) => Some(owned(c.as_str())),
        None => None,
    };
    let env = SshEnv {
        force_askpass: opts.ssh_env.force_askpass,
        askpass: match &opts.ssh_env.askpass {
            Some(a) => Some(owned(a.as_str())),
            None => None,
        },
        display: match &opts.ssh_env.display {
            Some(d) => Some(owned(d.as_str())),
            None => None,
        },
    };
    Ok(SshSession { host, env, config_file })
}

/// Characters a shell word may hold unquoted.
pub open spec fn shell_safe(c: char) -> bool {
    is_alnum(c) || c == '-' || c == '_' || c == '.' || c == '/' || c == '=' || c == ':' || c
        == '+'
}

/// POSIX shell quoting of one word.
pub open spec fn shell_quoted(s: Seq<char>) -> Seq<char> {
    if s.len() == 0 {
        "''"@
    } else if forall|i: int| 0 <= i < s.len() ==> shell_safe(#[trigger] s[i]) {
        s
    } else {
        "'"@ + replace(s, "'"@, "'\\''"@) + "'"@
    }
}

/// Quote `arg` for a POSIX shell: plain when every character is safe, else
/// single-quoted with embedded quotes escaped.
pub fn shell_quote(arg: &str) -> (r: String)
    ensures
        r@ == shell_quoted(arg@),
{
    let c = to_chars(arg);
    if c.len() == 0 {
        return owned("''");
    }
    let mut i: usize = 0;
    let mut safe = true;
    while i < c.len()
        invariant
            i <= c@.len(),
            c@ == arg@,
            safe == forall|j: int| 0 <= j < i ==> shell_safe(#[trigger] c@[j]),
        decreases c@.len() - i,
    {
        let ch = c[i];
        let ok = char_is_alnum(ch) || ch == '-' || ch == '_' || ch == '.' || ch == '/' || ch
            == '=' || ch == ':' || ch == '+';
        safe = safe && ok;
        i = i + 1;
    }
    if safe {
        return owned(arg);
    }
    proof {
        reveal_strlit("'");
    }
    let inner = replace_str(arg, "'", "'\\''");
    concat3("'", inner.as_str(), "'")
}

/// `[horto remote] PC → box '<host>': <detail>`.
pub open spec fn progress_message(host: Seq<char>, detail: Seq<char>) -> Seq<char> {
    "[horto remote] PC → box '"@ + host + "': "@ + detail
}

/// Format an operator progress banner for remote SSH/SCP/key steps.
pub fn remote_progress_message(host: &str, detail: &str) -> (r: String)
    ensures
        r@ == progress_message(host@, detail@),
{
    let mut r = concat3("[horto remote] PC → box '", host, "': ");
    r.append(detail);
    r
}

pub open spec fn run_banner(cmd: Seq<char>, use_sudo: bool) -> Seq<char> {
    if use_sudo {
        "run `"@ + cmd + "` (SSH + sudo; may ask password)"@
    } else {
        "run `"@ + cmd + "` (SSH; may ask password)"@
    }
}

/// Detail line for a remote CLI run banner.
pub fn remote_run_banner_detail(remote_cmd: &str, use_sudo: bool) -> (r: String)
    ensures
        r@ == run_banner(remote_cmd@, use_sudo),
{
    if use_sudo {
        concat3("run `", remote_cmd, "` (SSH + sudo; may ask password)")
    } else {
        concat3("run `", remote_cmd, "` (SSH; may ask password)")
    }
}

/// `<dir without trailing slashes>/horto-os-ui`.
pub open spec fn cli_in(dir: Seq<char>) -> Seq<char> {
    trim_end_char(dir, '/') + "/horto-os-ui"@
}

/// CLI path inside the remote agent dir.
pub fn remote_agent_bin(opts: &RemoteOptions) -> (r: String)
    ensures
        r@ == cli_in(opts.remote_agent_dir@),
{
    let d = trim_end_char_str(opts.remote_agent_dir.as_str(), '/');
    concat2(d.as_str(), "/horto-os-ui")
}

/// CLI path inside the permanent install dir.
pub fn remote_install_bin(opts: &RemoteOptions) -> (r: String)
    ensures
        r@ == cli_in(opts.install_dir@),
{
    let d = trim_end_char_str(opts.install_dir.as_str(), '/');
    concat2(d.as_str(), "/horto-os-ui")
}

/// Where a box CLI may live: install dir first, then the agent dir.
pub fn remote_cli_candidates(opts: &RemoteOptions) -> (r: [String; 2])
    ensures
        r[0]@ == cli_in(opts.install_dir@),
        r[1]@ == cli_in(opts.remote_agent_dir@),
{
    [remote_install_bin(opts), remote_agent_bin(opts)]
}

/// Quote every word.
pub open spec fn quoted_all(words: Seq<Seq<char>>) -> Seq<Seq<char>> {
    Seq::new(words.len(), |i: int| shell_quoted(words[i]))
}

/// Shell words preceding the binary for each sudo style.
pub open spec fn sudo_words(kind: RemoteSudoKind) -> Seq<Seq<char>> {
    match kind {
        RemoteSudoKind::Off => seq![],
        RemoteSudoKind::Prompt => seq!["sudo"@],
        RemoteSudoKind::NonInteractive => seq!["sudo"@, "-n"@],
        RemoteSudoKind::Stdin => seq!["sudo"@, "-S"@, "-p"@, "''"@],
    }
}

/// `<sudo words> <quoted bin> <quoted args…>`.
pub open spec fn remote_command(bin: Seq<char>, args: Seq<Seq<char>>, kind: RemoteSudoKind) -> Seq<
    char,
> {
    join(sudo_words(kind) + seq![shell_quoted(bin)] + quoted_all(args), " "@)
}

/// How a remote command gets root.
#[derive(Debug, Clone, Copy, PartialEq, Eq)]
pub enum RemoteSudoKind {
    /// No sudo.
    Off,
    /// Plain `sudo` (prompts on the inherited TTY).
    Prompt,
    /// `sudo -n` (an empty password means passwordless sudo).
    NonInteractive,
    /// `sudo -S -p ''` fed the password on stdin.
    Stdin,
}

pub open spec fn sudo_kind_of(use_sudo: bool, password: Option<Seq<char>>) -> RemoteSudoKind {
    if !use_sudo {
        RemoteSudoKind::Off
    } else {
        match password {
            None => RemoteSudoKind::Prompt,
            Some(p) => if p.len() == 0 {
                RemoteSudoKind::NonInteractive
            } else {
                RemoteSudoKind::Stdin
            },
        }
    }
}

/// Sudo style for a run: none without sudo; prompt without a password; `-n`
/// for an empty password; stdin otherwise.
pub fn remote_sudo_kind(use_sudo: bool, sudo_password: Option<&str>) -> (k: RemoteSudoKind)
    ensures
        k == sudo_kind_of(
            use_sudo,
            match sudo_password {
                Some(p) => Some(p@),
                None => None,
            },
        ),
{
    if !use_sudo {
        return RemoteSudoKind::Off;
    }
    match sudo_password {
        None => RemoteSudoKind::Prompt,
        Some(p) => if p.is_empty() {
            RemoteSudoKind::NonInteractive
        } else {
            RemoteSudoKind::Stdin
        },
    }
}

/// Remote shell command for `bin` + `cli_args` under the given sudo style.
pub fn build_remote_command_sudo(bin: &str, cli_args: &[String], kind: RemoteSudoKind) -> (r:
    String)
    ensures
        r@ == remote_command(bin@, sviews(cli_args@), kind),
{
    let mut parts: Vec<String> = Vec::new();
    match kind {
        RemoteSudoKind::Off => {},
        RemoteSudoKind::Prompt => {
            parts.push(owned("sudo"));
        },
        RemoteSudoKind::NonInteractive => {
            parts.push(owned("sudo"));
            parts.push(owned("-n"));
        },
        RemoteSudoKind::Stdin => {
            parts.push(owned("sudo"));
            parts.push(owned("-S"));
            parts.push(owned("-p"));
            parts.push(owned("''"));
        },
    }
    assert(sviews(parts@) =~= sudo_words(kind));
    let ghost head = sviews(parts@);
    parts.push(shell_quote(bin));
    let ghost base = sviews(parts@);
    assert(base =~= head + seq![shell_quoted(bin@)]);
    let mut i: usize = 0;
    while i < cli_args.len()
        invariant
            i <= cli_args@.len(),
            sviews(parts@) == base + quoted_all(sviews(cli_args@)).subrange(0, i as int),
        decreases cli_args@.len() - i,
    {
        let ghost p0 = sviews(parts@);
        parts.push(shell_quote(cli_args[i].as_str()));
        assert(sviews(parts@) =~= p0.push(shell_quoted(cli_args@[i as int]@)));
        assert(quoted_all(sviews(cli_args@)).subrange(0, i + 1) =~= quoted_all(
            sviews(cli_args@),
        ).subrange(0, i as int).push(shell_quoted(cli_args@[i as int]@)));
        i = i + 1;
    }
    assert(quoted_all(sviews(cli_args@)).subrange(0, i as int) =~= quoted_all(sviews(cli_args@)));
    join_strings(&parts, " ")
}

/// Remote shell command: optional plain `sudo`, quoted binary, quoted args.
pub fn build_remote_command_at(bin: &str, cli_args: &[String], use_sudo: bool) -> (r: String)
    ensures
        r@ == remote_command(
            bin@,
            sviews(cli_args@),
            if use_sudo {
                RemoteSudoKind::Prompt
            } else {
                RemoteSudoKind::Off
            },
        ),
{
    let kind = if use_sudo {
        RemoteSudoKind::Prompt
    } else {
        RemoteSudoKind::Off
    };
    build_remote_command_sudo(bin, cli_args, kind)
}

/// Log of a finished remote command: stdout, then (newline-separated when both
/// are present) non-blank stderr; a finished marker when everything is blank.
pub open spec fn command_log(o: OutputView, remote_cmd: Seq<char>) -> Seq<char> {
    let log = if trim(o.stderr).len() == 0 {
        o.stdout
    } else if o.stdout.len() == 0 {
        o.stderr
    } else {
        o.stdout + "\n"@ + o.stderr
    };
    if trim(log).len() == 0 {
        "remote command finished: "@ + remote_cmd
    } else {
        log
    }
}

/// Merge captured stdout/stderr into one log.
pub fn merge_command_log(out: &CommandOutput, remote_cmd: &str) -> (r: String)
    ensures
        r@ == command_log(out@, remote_cmd@),
{
    let mut log = owned(out.stdout.as_str());
    let err = to_chars(out.stderr.as_str());
    let te = trim_chars(err.as_slice());
    if te.len() > 0 {
        if !log.as_str().is_empty() {
            log.append("\n");
        }
        log.append(out.stderr.as_str());
    }
    let lc = to_chars(log.as_str());
    let tl = trim_chars(lc.as_slice());
    if tl.len() == 0 {
        return concat2("remote command finished: ", remote_cmd);
    }
    log
}

/// Whether `r` is what [`exec_remote_cli_captured`] gives when `runner`
/// answers: the command (no sudo) over ssh, captured, and its merged log.
pub open spec fn cli_captured_gives<R: ProcessRunner>(
    runner: R,
    s: SessionView,
    bin: Seq<char>,
    args: Seq<Seq<char>>,
    r: Result<Seq<char>, ErrorView>,
) -> bool {
    exists|e: Result<OutputView, ErrorView>|
        #[trigger] ssh_gives(
            runner,
            s,
            remote_command(bin, args, RemoteSudoKind::Off),
            CallInput::Stdio(StdioMode::Capture),
            e,
        ) && r == match e {
            Ok(o) => Ok(command_log(o, remote_command(bin, args, RemoteSudoKind::Off))),
            Err(x) => Err::<Seq<char>, ErrorView>(x),
        }
}

/// Whether `t` is exactly the one `ssh` call of [`exec_remote_cli_captured`]
/// and `r` the merged log (or the error) it gives.
pub open spec fn captured_calls(
    t: Seq<Entry>,
    s: SessionView,
    bin: Seq<char>,
    args: Seq<Seq<char>>,
    r: Result<Seq<char>, ErrorView>,
) -> bool {
    let cmd = remote_command(bin, args, RemoteSudoKind::Off);
    &&& t.len() == 1
    &&& t[0].0 == ssh_request(s, cmd, CallInput::Stdio(StdioMode::Capture))
    &&& r == match out_at(t, 0, "ssh"@) {
        Ok(o) => Ok(command_log(o, cmd)),
        Err(x) => Err::<Seq<char>, ErrorView>(x),
    }
}

/// Run one remote CLI argv list on an already-resolved box binary (Capture),
/// returning the merged log.
pub fn exec_remote_cli_captured<R: ProcessRunner>(
    runs: &mut Runs<R>,
    session: &SshSession,
    remote_bin: &str,
    cli_args: &[String],
) -> (r: Result<String, HortoError>)
    ensures
        cli_captured_gives(
            old(runs).runner(),
            session@,
            remote_bin@,
            sviews(cli_args@),
            match r {
                Ok(l) => Ok(l@),
                Err(e) => Err(e@),
            },
        ),
        final(runs).runner() == old(runs).runner(),
        log_grows(old(runs).log(), final(runs).log()),
        captured_calls(
            calls_between(old(runs).log(), final(runs).log()),
            session@,
            remote_bin@,
            sviews(cli_args@),
            match r {
                Ok(l) => Ok(l@),
                Err(e) => Err(e@),
            },
        ),
{
    let ghost runner = runs.runner();
    let remote_cmd = build_remote_command_at(remote_bin, cli_args, false);
    let res = session.exec(runs, remote_cmd.as_str(), StdioMode::Capture);
    assert(ssh_gives(runner, session@, remote_cmd@, CallInput::Stdio(StdioMode::Capture), reply_view(res)));
    let out = match res {
        Ok(o) => o,
        Err(e) => {
            return Err(e);
        },
    };
    Ok(merge_command_log(&out, remote_cmd.as_str()))
}

} // verus!
