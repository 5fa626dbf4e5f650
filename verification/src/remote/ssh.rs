//! OpenSSH session helpers (`ssh`, `scp`, `ssh-copy-id`).
//!
//! Argument vectors and environment pairs are built by functions with exact
//! contracts; the process itself runs through a [`ProcessRunner`].
use vstd::prelude::*;
use crate::remote::process::{
    calls_between, lemma_calls_push, log_grows, out_at, Entry, Runs,
};
use crate::remote::host::HostSpec;
use crate::remote::process::{
    checked_reply, checked_unit, reply_ok, reply_view, require_ok, unit_view, CallInput, CallView,
    CommandOutput, OutputView, ProcessRunner, StdioMode,
};
use crate::error::ErrorView;
use crate::error::HortoError;
use crate::text::{concat3, owned, sviews};

verus! {

/// Environment overrides for Desktop askpass (and related OpenSSH knobs).
///
/// `askpass` and `display` carry the calling process's `SSH_ASKPASS` and
/// `DISPLAY` values; the embedding program reads them from its environment.
#[derive(Debug, Clone)]
pub struct SshEnv {
    /// When true, set `SSH_ASKPASS_REQUIRE=force` and pass through `SSH_ASKPASS` if set.
    pub force_askpass: bool,
    /// `SSH_ASKPASS` of the calling process, when set.
    pub askpass: Option<String>,
    /// `DISPLAY` of the calling process, when set.
    pub display: Option<String>,
}

impl Default for SshEnv {
    fn default() -> (e: Self)
        ensures
            !e.force_askpass,
            e.askpass is None,
            e.display is None,
    {
        SshEnv { force_askpass: false, askpass: None, display: None }
    }
}

pub open spec fn opt_view(o: Option<String>) -> Option<Seq<char>> {
    match o {
        Some(s) => Some(s@),
        None => None,
    }
}

/// Environment pairs handed to OpenSSH children.
pub open spec fn ssh_env_pairs(
    force: bool,
    askpass: Option<Seq<char>>,
    display: Option<Seq<char>>,
) -> Seq<(Seq<char>, Seq<char>)> {
    if !force {
        seq![]
    } else if askpass is Some && askpass->0.len() > 0 {
        seq![
            ("SSH_ASKPASS_REQUIRE"@, "force"@),
            ("SSH_ASKPASS"@, askpass->0),
            ("DISPLAY"@, if display is Some { display->0 } else { ":0"@ }),
        ]
    } else {
        seq![("SSH_ASKPASS_REQUIRE"@, "force"@)]
    }
}

pub open spec fn pair_views(v: Seq<(String, String)>) -> Seq<(Seq<char>, Seq<char>)> {
    Seq::new(v.len(), |i: int| (v[i].0@, v[i].1@))
}

pub open spec fn ref_pair_views(v: Seq<(&str, &str)>) -> Seq<(Seq<char>, Seq<char>)> {
    Seq::new(v.len(), |i: int| (v[i].0@, v[i].1@))
}

pub open spec fn ref_views(v: Seq<&str>) -> Seq<Seq<char>> {
    Seq::new(v.len(), |i: int| v[i]@)
}

impl SshEnv {
    /// Environment key/value pairs for OpenSSH child processes.
    pub fn as_pairs(&self) -> (out: Vec<(String, String)>)
        ensures
            pair_views(out@) == ssh_env_pairs(
                self.force_askpass,
                opt_view(self.askpass),
                opt_view(self.display),
            ),
    {
        let mut out: Vec<(String, String)> = Vec::new();
        if self.force_askpass {
            out.push((owned("SSH_ASKPASS_REQUIRE"), owned("force")));
            if let Some(ask) = &self.askpass {
                if !ask.as_str().is_empty() {
                    out.push((owned("SSH_ASKPASS"), owned(ask.as_str())));
                    let display = match &self.display {
                        Some(d) => owned(d.as_str()),
                        None => owned(":0"),
                    };
                    out.push((owned("DISPLAY"), display));
                }
            }
        }
        proof {
            let want = ssh_env_pairs(
                self.force_askpass,
                opt_view(self.askpass),
                opt_view(self.display),
            );
            assert(pair_views(out@) =~= want);
        }
        out
    }
}

impl SshEnv {
    /// Borrowed view of owned environment pairs.
    pub fn as_refs(pairs: &Vec<(String, String)>) -> (r: Vec<(&str, &str)>)
        ensures
            ref_pair_views(r@) == pair_views(pairs@),
    {
        let mut r: Vec<(&str, &str)> = Vec::new();
        let mut i: usize = 0;
        while i < pairs.len()
            invariant
                i <= pairs@.len(),
                ref_pair_views(r@) == pair_views(pairs@).subrange(0, i as int),
            decreases pairs@.len() - i,
        {
            let ghost r0 = ref_pair_views(r@);
            r.push((pairs[i].0.as_str(), pairs[i].1.as_str()));
            assert(ref_pair_views(r@) =~= r0.push((pairs@[i as int].0@, pairs@[i as int].1@)));
            assert(pair_views(pairs@).subrange(0, i + 1) =~= pair_views(pairs@).subrange(
                0,
                i as int,
            ).push((pairs@[i as int].0@, pairs@[i as int].1@)));
            i = i + 1;
        }
        assert(pair_views(pairs@).subrange(0, i as int) =~= pair_views(pairs@));
        r
    }
}

/// Borrowed view of owned strings.
pub fn str_refs(v: &Vec<String>) -> (r: Vec<&str>)
    ensures
        ref_views(r@) == sviews(v@),
{
    let mut r: Vec<&str> = Vec::new();
    let mut i: usize = 0;
    while i < v.len()
        invariant
            i <= v@.len(),
            ref_views(r@) == sviews(v@).subrange(0, i as int),
        decreases v@.len() - i,
    {
        let ghost r0 = ref_views(r@);
        r.push(v[i].as_str());
        assert(ref_views(r@) =~= r0.push(v@[i as int]@));
        assert(sviews(v@).subrange(0, i + 1) =~= sviews(v@).subrange(0, i as int).push(
            v@[i as int]@,
        ));
        i = i + 1;
    }
    assert(sviews(v@).subrange(0, i as int) =~= sviews(v@));
    r
}

/// `-F <file>` when a config file is set, else nothing.
pub open spec fn config_prefix(cfg: Option<Seq<char>>) -> Seq<Seq<char>> {
    match cfg {
        Some(c) => seq!["-F"@, c],
        None => seq![],
    }
}

/// `ssh` arguments for running `cmd` on `host`.
pub open spec fn ssh_exec_args(cfg: Option<Seq<char>>, host: Seq<char>, cmd: Seq<char>) -> Seq<
    Seq<char>,
> {
    config_prefix(cfg) + seq![
        "-o"@,
        "BatchMode=no"@,
        "-o"@,
        "StrictHostKeyChecking=accept-new"@,
        host,
        cmd,
    ]
}

/// `scp` arguments for copying `local` to `host:remote`.
pub open spec fn scp_args(
    cfg: Option<Seq<char>>,
    local: Seq<char>,
    host: Seq<char>,
    remote: Seq<char>,
) -> Seq<Seq<char>> {
    config_prefix(cfg) + seq![
        "-o"@,
        "StrictHostKeyChecking=accept-new"@,
        local,
        host + ":"@ + remote,
    ]
}

/// `ssh-copy-id` arguments installing exactly one public key.
pub open spec fn copy_id_args(cfg: Option<Seq<char>>, pubkey: Seq<char>, host: Seq<char>) -> Seq<
    Seq<char>,
> {
    config_prefix(cfg) + seq![
        "-i"@,
        pubkey,
        "-o"@,
        "StrictHostKeyChecking=accept-new"@,
        host,
    ]
}

/// Error text when no default OpenSSH public key exists.
pub const NO_PUBKEY_MESSAGE: &'static str = "no default SSH pubkey in ~/.ssh (tried id_ed25519.pub, id_ecdsa.pub, id_rsa.pub)";

pub open spec fn no_pubkey_text() -> Seq<char> {
    NO_PUBKEY_MESSAGE@
}

/// Remote command that succeeds when `rsync` is on the remote PATH.
pub const RSYNC_PROBE: &'static str = "command -v rsync >/dev/null 2>&1";

/// Default OpenSSH public keys, in the order they are preferred.
pub const DEFAULT_PUBKEY_NAMES: [&'static str; 3] = ["id_ed25519.pub", "id_ecdsa.pub", "id_rsa.pub"];

/// Mathematical value of an [`SshSession`]: target, config file, child environment.
pub struct SessionView {
    pub host: Seq<char>,
    pub config: Option<Seq<char>>,
    pub env: Seq<(Seq<char>, Seq<char>)>,
}

/// The `ssh` request that runs `cmd` on the session's host.
pub open spec fn ssh_request(s: SessionView, cmd: Seq<char>, input: CallInput) -> CallView {
    CallView { program: "ssh"@, args: ssh_exec_args(s.config, s.host, cmd), env: s.env, input }
}

/// The `scp` request that copies `local` to `remote` on the session's host.
pub open spec fn scp_request(s: SessionView, local: Seq<char>, remote: Seq<char>) -> CallView {
    CallView {
        program: "scp"@,
        args: scp_args(s.config, local, s.host, remote),
        env: s.env,
        input: CallInput::Stdio(StdioMode::Inherit),
    }
}

/// The key-only login probe request of a session.
pub open spec fn key_probe_request(s: SessionView) -> CallView {
    CallView {
        program: "ssh"@,
        args: config_prefix(s.config) + seq![
            "-o"@,
            "BatchMode=yes"@,
            "-o"@,
            "StrictHostKeyChecking=accept-new"@,
            s.host,
            "true"@,
        ],
        env: s.env,
        input: CallInput::Stdio(StdioMode::Capture),
    }
}

/// The `ssh-copy-id` request installing `pubkey` on the session's host.
pub open spec fn copy_id_request(s: SessionView, pubkey: Seq<char>) -> CallView {
    CallView {
        program: "ssh-copy-id"@,
        args: copy_id_args(s.config, pubkey, s.host),
        env: s.env,
        input: CallInput::Stdio(StdioMode::Inherit),
    }
}

/// Whether `r` is what [`SshSession::exec`] (or `exec_stdin`) gives back for
/// `cmd` when `runner` answers the `ssh` request with one of its replies.
pub open spec fn ssh_gives<R: ProcessRunner>(
    runner: R,
    s: SessionView,
    cmd: Seq<char>,
    input: CallInput,
    r: Result<OutputView, ErrorView>,
) -> bool {
    exists|reply: Result<OutputView, ErrorView>|
        #[trigger] runner.may_reply(ssh_request(s, cmd, input), reply) && r == checked_reply(
            "ssh"@,
            reply,
        )
}

/// View of an optional borrowed string.
pub open spec fn opt_str_view(o: Option<&str>) -> Option<Seq<char>> {
    match o {
        Some(s) => Some(s@),
        None => None,
    }
}

/// Whether `r` is what [`SshSession::install_ssh_key`] gives when `runner`
/// answers its requests: nothing to do when key login already works, else
/// `ssh-copy-id` of exactly `pubkey` (an error when there is none).
pub open spec fn key_install_gives<R: ProcessRunner>(
    runner: R,
    s: SessionView,
    pubkey: Option<Seq<char>>,
    r: Result<(), ErrorView>,
) -> bool {
    exists|probe: Result<OutputView, ErrorView>|
        #[trigger] runner.may_reply(key_probe_request(s), probe) && if reply_ok(probe) {
            r is Ok
        } else {
            match pubkey {
                None => r == Err::<(), ErrorView>(crate::error::message_error(no_pubkey_text())),
                Some(p) => exists|copy: Result<OutputView, ErrorView>|
                    #[trigger] runner.may_reply(copy_id_request(s, p), copy) && r == checked_unit(
                        "ssh-copy-id"@,
                        copy,
                    ),
            }
        }
}

/// Whether `t` is exactly the one `ssh` call that runs `cmd`, and `r` what
/// [`SshSession::exec`] makes of its reply.
pub open spec fn ssh_calls(
    t: Seq<Entry>,
    s: SessionView,
    cmd: Seq<char>,
    input: CallInput,
    r: Result<OutputView, ErrorView>,
) -> bool {
    t.len() == 1 && t[0].0 == ssh_request(s, cmd, input) && r == out_at(t, 0, "ssh"@)
}

/// Whether `t` is exactly the one `scp` call copying `local` to `remote`, and
/// `r` what [`SshSession::scp_to`] makes of its reply.
pub open spec fn scp_calls(
    t: Seq<Entry>,
    s: SessionView,
    local: Seq<char>,
    remote: Seq<char>,
    r: Result<(), ErrorView>,
) -> bool {
    t.len() == 1 && t[0].0 == scp_request(s, local, remote) && r == checked_unit("scp"@, t[0].1)
}

/// Whether `t` is exactly the calls of [`SshSession::install_ssh_key`]: the
/// key probe, then `ssh-copy-id` only when the probe fails and a key is
/// known; `r` is the result.
pub open spec fn key_calls(
    t: Seq<Entry>,
    s: SessionView,
    pubkey: Option<Seq<char>>,
    r: Result<(), ErrorView>,
) -> bool {
    &&& t.len() >= 1
    &&& t[0].0 == key_probe_request(s)
    &&& if reply_ok(t[0].1) {
        t.len() == 1 && r is Ok
    } else {
        match pubkey {
            None => t.len() == 1 && r == Err::<(), ErrorView>(
                crate::error::message_error(no_pubkey_text()),
            ),
            Some(p) => t.len() == 2 && t[1].0 == copy_id_request(s, p) && r == checked_unit(
                "ssh-copy-id"@,
                t[1].1,
            ),
        }
    }
}

/// Once the key probe logs in, no key is copied: the install is that one
/// probe and succeeds.
pub proof fn law_working_key_skips_copy(t: Seq<Entry>, s: SessionView, pubkey: Option<Seq<char>>, r: Result<(), ErrorView>)
    requires
        key_calls(t, s, pubkey, r),
        reply_ok(t[0].1),
    ensures
        t.len() == 1,
        t[0].0.program == "ssh"@,
        r is Ok,
{
}

/// SSH destination plus askpass policy.
#[derive(Debug, Clone)]
pub struct SshSession {
    /// OpenSSH Host or `user@host`.
    pub host: HostSpec,
    /// Askpass / env policy.
    pub env: SshEnv,
    /// Optional `ssh -F` / `scp -F` config file (tests / non-default layouts).
    pub config_file: Option<String>,
}

impl View for SshSession {
    type V = SessionView;

    open spec fn view(&self) -> SessionView {
        SessionView {
            host: self.host.raw@,
            config: opt_view(self.config_file),
            env: ssh_env_pairs(
                self.env.force_askpass,
                opt_view(self.env.askpass),
                opt_view(self.env.display),
            ),
        }
    }
}

impl SshSession {
    /// `-F <config>` (when set) followed by `rest`.
    pub fn with_config_prefix(&self, rest: &[&str]) -> (owned_args: Vec<String>)
        ensures
            sviews(owned_args@) == config_prefix(opt_view(self.config_file)) + ref_views(rest@),
    {
        let mut out: Vec<String> = Vec::new();
        if let Some(cfg) = &self.config_file {
            out.push(owned("-F"));
            out.push(owned(cfg.as_str()));
        }
        let ghost base = sviews(out@);
        assert(base =~= config_prefix(opt_view(self.config_file)));
        let mut i: usize = 0;
        while i < rest.len()
            invariant
                i <= rest@.len(),
                sviews(out@) == base + ref_views(rest@).subrange(0, i as int),
            decreases rest@.len() - i,
        {
            let ghost o0 = sviews(out@);
            out.push(owned(rest[i]));
            assert(sviews(out@) =~= o0.push(rest@[i as int]@));
            assert(ref_views(rest@).subrange(0, i + 1) =~= ref_views(rest@).subrange(
                0,
                i as int,
            ).push(rest@[i as int]@));
            i = i + 1;
        }
        assert(ref_views(rest@).subrange(0, i as int) =~= ref_views(rest@));
        out
    }

    /// Arguments of `ssh` for [`SshSession::exec`].
    pub fn exec_args(&self, remote_cmd: &str) -> (args: Vec<String>)
        ensures
            sviews(args@) == ssh_exec_args(opt_view(self.config_file), self.host.raw@, remote_cmd@),
    {
        let rest: [&str; 6] = [
            "-o",
            "BatchMode=no",
            "-o",
            "StrictHostKeyChecking=accept-new",
            self.host.raw.as_str(),
            remote_cmd,
        ];
        let args = self.with_config_prefix(&rest);
        proof {
            reveal_strlit("-o");
            reveal_strlit("BatchMode=no");
            reveal_strlit("StrictHostKeyChecking=accept-new");
            assert(ref_views(rest@) =~= seq![
                "-o"@,
                "BatchMode=no"@,
                "-o"@,
                "StrictHostKeyChecking=accept-new"@,
                self.host.raw@,
                remote_cmd@,
            ]);
        }
        args
    }

    /// Arguments of `scp` for [`SshSession::scp_to`].
    pub fn scp_args(&self, local: &str, remote_path: &str) -> (args: Vec<String>)
        ensures
            sviews(args@) == scp_args(
                opt_view(self.config_file),
                local@,
                self.host.raw@,
                remote_path@,
            ),
    {
        let dest = concat3(self.host.raw.as_str(), ":", remote_path);
        let rest: [&str; 4] = ["-o", "StrictHostKeyChecking=accept-new", local, dest.as_str()];
        let args = self.with_config_prefix(&rest);
        proof {
            assert(ref_views(rest@) =~= seq![
                "-o"@,
                "StrictHostKeyChecking=accept-new"@,
                local@,
                self.host.raw@ + ":"@ + remote_path@,
            ]);
        }
        args
    }

    /// Arguments of `ssh-copy-id` for [`SshSession::install_ssh_key`].
    pub fn copy_id_args(&self, pubkey_path: &str) -> (args: Vec<String>)
        ensures
            sviews(args@) == copy_id_args(
                opt_view(self.config_file),
                pubkey_path@,
                self.host.raw@,
            ),
    {
        let rest: [&str; 5] = [
            "-i",
            pubkey_path,
            "-o",
            "StrictHostKeyChecking=accept-new",
            self.host.raw.as_str(),
        ];
        let args = self.with_config_prefix(&rest);
        proof {
            assert(ref_views(rest@) =~= seq![
                "-i"@,
                pubkey_path@,
                "-o"@,
                "StrictHostKeyChecking=accept-new"@,
                self.host.raw@,
            ]);
        }
        args
    }

    /// Run a remote shell command via `ssh`.
    ///
    /// Probes use [`StdioMode::Capture`]. Interactive apply uses inherit so
    /// OpenSSH / sudo can prompt on a TTY. A non-zero exit becomes a
    /// [`HortoError::CommandFailed`] for `ssh`.
    pub fn exec<R: ProcessRunner>(&self, runs: &mut Runs<R>, remote_cmd: &str, stdio: StdioMode) -> (r:
        Result<CommandOutput, HortoError>)
        ensures
            r matches Ok(o) ==> o.status == 0,
            ssh_gives(old(runs).runner(), self@, remote_cmd@, CallInput::Stdio(stdio), reply_view(r)),
            final(runs).runner() == old(runs).runner(),
            log_grows(old(runs).log(), final(runs).log()),
            ssh_calls(
                calls_between(old(runs).log(), final(runs).log()),
                self@,
                remote_cmd@,
                CallInput::Stdio(stdio),
                reply_view(r),
            ),
    {
        let ghost runner = runs.runner();
        let ghost l0 = runs.log();
        let pairs = self.env.as_pairs();
        let env = SshEnv::as_refs(&pairs);
        let owned_args = self.exec_args(remote_cmd);
        let refs = str_refs(&owned_args);
        let res = runs.run("ssh", refs.as_slice(), env.as_slice(), stdio);
        let ghost req = ssh_request(self@, remote_cmd@, CallInput::Stdio(stdio));
        let ghost reply = reply_view(res);
        assert(runner.may_reply(req, reply));
        proof {
            lemma_calls_push(l0, (req, reply));
        }
        let out = match res {
            Ok(o) => o,
            Err(e) => {
                return Err(e);
            },
        };
        match require_ok("ssh", &out) {
            Ok(()) => Ok(out),
            Err(e) => Err(e),
        }
    }

    /// Run a remote shell command via `ssh`, feeding `stdin` (captured output).
    ///
    /// Used to hand a sudo password to `sudo -S` without a TTY.
    pub fn exec_stdin<R: ProcessRunner>(&self, runs: &mut Runs<R>, remote_cmd: &str, stdin: &[u8]) -> (r:
        Result<CommandOutput, HortoError>)
        ensures
            r matches Ok(o) ==> o.status == 0,
            ssh_gives(old(runs).runner(), self@, remote_cmd@, CallInput::Stdin(stdin@), reply_view(r)),
            final(runs).runner() == old(runs).runner(),
            log_grows(old(runs).log(), final(runs).log()),
            ssh_calls(
                calls_between(old(runs).log(), final(runs).log()),
                self@,
                remote_cmd@,
                CallInput::Stdin(stdin@),
                reply_view(r),
            ),
    {
        let ghost runner = runs.runner();
        let ghost l0 = runs.log();
        let pairs = self.env.as_pairs();
        let env = SshEnv::as_refs(&pairs);
        let owned_args = self.exec_args(remote_cmd);
        let refs = str_refs(&owned_args);
        let res = runs.run_with_stdin("ssh", refs.as_slice(), env.as_slice(), stdin);
        let ghost req = ssh_request(self@, remote_cmd@, CallInput::Stdin(stdin@));
        let ghost reply = reply_view(res);
        assert(runner.may_reply(req, reply));
        proof {
            lemma_calls_push(l0, (req, reply));
        }
        let out = match res {
            Ok(o) => o,
            Err(e) => {
                return Err(e);
            },
        };
        match require_ok("ssh", &out) {
            Ok(()) => Ok(out),
            Err(e) => Err(e),
        }
    }

    /// Copy a local file to a remote path with `scp`.
    pub fn scp_to<R: ProcessRunner>(&self, runs: &mut Runs<R>, local: &str, remote_path: &str) -> (r:
        Result<(), HortoError>)
        ensures
            exists|reply: Result<OutputView, ErrorView>|
                #[trigger] old(runs).runner().may_reply(scp_request(self@, local@, remote_path@), reply)
                    && unit_view(r) == checked_unit("scp"@, reply),
            final(runs).runner() == old(runs).runner(),
            log_grows(old(runs).log(), final(runs).log()),
            scp_calls(
                calls_between(old(runs).log(), final(runs).log()),
                self@,
                local@,
                remote_path@,
                unit_view(r),
            ),
    {
        let ghost runner = runs.runner();
        let ghost l0 = runs.log();
        let pairs = self.env.as_pairs();
        let env = SshEnv::as_refs(&pairs);
        let owned_args = self.scp_args(local, remote_path);
        let refs = str_refs(&owned_args);
        let res = runs.run("scp", refs.as_slice(), env.as_slice(), StdioMode::Inherit);
        let ghost req = scp_request(self@, local@, remote_path@);
        let ghost reply = reply_view(res);
        assert(runner.may_reply(req, reply));
        proof {
            lemma_calls_push(l0, (req, reply));
        }
        let out = match res {
            Ok(o) => o,
            Err(e) => {
                return Err(e);
            },
        };
        require_ok("scp", &out)
    }

    /// Arguments of the key-only login probe (`BatchMode=yes`, runs `true`).
    pub fn key_probe_args(&self) -> (args: Vec<String>)
        ensures
            sviews(args@) == config_prefix(opt_view(self.config_file)) + seq![
                "-o"@,
                "BatchMode=yes"@,
                "-o"@,
                "StrictHostKeyChecking=accept-new"@,
                self.host.raw@,
                "true"@,
            ],
    {
        let rest: [&str; 6] = [
            "-o",
            "BatchMode=yes",
            "-o",
            "StrictHostKeyChecking=accept-new",
            self.host.raw.as_str(),
            "true",
        ];
        let args = self.with_config_prefix(&rest);
        proof {
            assert(ref_views(rest@) =~= seq![
                "-o"@,
                "BatchMode=yes"@,
                "-o"@,
                "StrictHostKeyChecking=accept-new"@,
                self.host.raw@,
                "true"@,
            ]);
        }
        args
    }

    /// Opt-in: install one public key with `ssh-copy-id -i <pubkey>`.
    ///
    /// A box that already accepts key login is left alone. Without `-i`,
    /// `ssh-copy-id` would install every key from `ssh-add -L`; `pubkey_path`
    /// is `None` when no default key exists, which is an error once a copy
    /// is needed.
    pub fn install_ssh_key<R: ProcessRunner>(&self, runs: &mut Runs<R>, pubkey_path: Option<&str>) -> (r:
        Result<(), HortoError>)
        ensures
            pubkey_path is None ==> (r is Ok || (r matches Err(e) && e@
                == crate::error::message_error(no_pubkey_text()))),
            key_install_gives(old(runs).runner(), self@, opt_str_view(pubkey_path), unit_view(r)),
            final(runs).runner() == old(runs).runner(),
            log_grows(old(runs).log(), final(runs).log()),
            key_calls(
                calls_between(old(runs).log(), final(runs).log()),
                self@,
                opt_str_view(pubkey_path),
                unit_view(r),
            ),
    {
        let ghost runner = runs.runner();
        let ghost l0 = runs.log();
        let pairs = self.env.as_pairs();
        let env = SshEnv::as_refs(&pairs);
        let probe_args = self.key_probe_args();
        let probe_refs = str_refs(&probe_args);
        let probed = runs.run("ssh", probe_refs.as_slice(), env.as_slice(), StdioMode::Capture);
        let ghost probe = reply_view(probed);
        assert(runner.may_reply(key_probe_request(self@), probe));
        let ghost l1 = runs.log();
        proof {
            lemma_calls_push(l0, (key_probe_request(self@), probe));
        }
        if let Ok(out) = probed {
            if out.success() {
                return Ok(());
            }
        }
        let pubkey = match pubkey_path {
            Some(p) => p,
            None => {
                return Err(HortoError::msg(NO_PUBKEY_MESSAGE));
            },
        };
        let owned_args = self.copy_id_args(pubkey);
        let refs = str_refs(&owned_args);
        let res = runs.run("ssh-copy-id", refs.as_slice(), env.as_slice(), StdioMode::Inherit);
        let ghost copy = reply_view(res);
        assert(runner.may_reply(copy_id_request(self@, pubkey@), copy));
        proof {
            lemma_calls_push(l1, (copy_id_request(self@, pubkey@), copy));
            crate::remote::process::lemma_calls_concat(l0, l1, runs.log());
        }
        assert(opt_str_view(pubkey_path) == Some(pubkey@));
        let out = match res {
            Ok(o) => o,
            Err(e) => {
                return Err(e);
            },
        };
        require_ok("ssh-copy-id", &out)
    }

    /// Probe whether `rsync` exists on the remote host.
    pub fn remote_has_rsync<R: ProcessRunner>(&self, runs: &mut Runs<R>) -> (b: bool)
        ensures
            exists|e: Result<OutputView, ErrorView>|
                #[trigger] ssh_gives(
                    old(runs).runner(),
                    self@,
                    RSYNC_PROBE@,
                    CallInput::Stdio(StdioMode::Capture),
                    e,
                ) && b == (e is Ok),
            final(runs).runner() == old(runs).runner(),
            log_grows(old(runs).log(), final(runs).log()),
            ({
                let t = calls_between(old(runs).log(), final(runs).log());
                &&& t.len() == 1
                &&& t[0].0 == ssh_request(self@, RSYNC_PROBE@, CallInput::Stdio(StdioMode::Capture))
                &&& b == (out_at(t, 0, "ssh"@) is Ok)
            }),
    {
        let ghost runner = runs.runner();
        let res = self.exec(runs, RSYNC_PROBE, StdioMode::Capture);
        assert(ssh_gives(runner, self@, RSYNC_PROBE@, CallInput::Stdio(StdioMode::Capture), reply_view(res)));
        res.is_ok()
    }
}

} // verus!
