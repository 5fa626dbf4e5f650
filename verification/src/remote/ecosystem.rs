//! Shared status-api + MCP install (remote payload and embedded full apply).
use vstd::prelude::*;
use crate::remote::process::{calls_between, log_grows, Entry, Runs};
use crate::error::{ErrorView, HortoError};
use crate::remote::bins::{join_path, path_join, LocalBins};
use crate::remote::process::{
    call, checked_unit, reply_ok, reply_view, require_ok, unit_view, CallView, OutputView,
    ProcessRunner, StdioMode,
};
use crate::remote::ssh::{ref_pair_views, str_refs};
use crate::text::{
    all_hex, all_hex_chars, concat2, concat3, first_nonempty_line, first_nonempty_trimmed,
    from_chars, join, join_strings, lines, owned, replace, replace_str, strip_prefix_or_self,
    strip_prefix_or_self_chars, str_eq, sviews, to_chars, trim, trim_chars, trim_end_char,
    trim_end_char_str,
};

verus! {

/// Default install prefix for box binaries and unit `ExecStart` paths.
pub const DEFAULT_INSTALL_DIR: &'static str = "/usr/local/bin";

/// Which ecosystem services to install (user opt-in, default neither).
#[derive(Debug, Clone, Copy, PartialEq, Eq)]
pub struct EcosystemInstallChoice {
    /// Install/enable `horto-os-ui-status-api`.
    pub status_api: bool,
    /// Install/enable `horto-os-ui-mcp`.
    pub mcp: bool,
}

impl Default for EcosystemInstallChoice {
    fn default() -> (c: Self)
        ensures
            !c.status_api && !c.mcp,
    {
        EcosystemInstallChoice { status_api: false, mcp: false }
    }
}

impl EcosystemInstallChoice {
    /// Neither service.
    pub fn none() -> (c: Self)
        ensures
            !c.status_api && !c.mcp,
    {
        EcosystemInstallChoice { status_api: false, mcp: false }
    }

    /// Both services.
    pub fn both() -> (c: Self)
        ensures
            c.status_api && c.mcp,
    {
        EcosystemInstallChoice { status_api: true, mcp: true }
    }

    /// True when at least one service is selected.
    pub fn any(self) -> (b: bool)
        ensures
            b == (self.status_api || self.mcp),
    {
        self.status_api || self.mcp
    }
}

/// Status-api systemd unit body (`ExecStart` defaults to `/usr/local/bin`).
pub const STATUS_API_UNIT: &'static str = "[Unit]\nDescription=Horto OS UI status API\nAfter=network.target\n\n[Service]\nType=simple\nEnvironmentFile=/etc/horto-os-ui/api.env\nExecStart=/usr/local/bin/horto-os-ui-status-api --bind 0.0.0.0:8787\nRestart=on-failure\n\n[Install]\nWantedBy=multi-user.target\n";

/// MCP systemd unit (starts after the status API it talks to).
pub const MCP_UNIT: &'static str = "[Unit]\nDescription=Horto OS UI MCP server\nAfter=network.target horto-os-ui-status-api.service\nWants=horto-os-ui-status-api.service\n\n[Service]\nType=simple\nEnvironmentFile=-/etc/horto-os-ui/api.env\nExecStart=/usr/local/bin/horto-os-ui-mcp\nRestart=on-failure\n\n[Install]\nWantedBy=multi-user.target\n";

/// User-owned drop file basename for token capture (remote).
pub const API_TOKEN_DROP_BASENAME: &'static str = ".horto-os-ui-api-token";

/// Ensure `/etc/horto-os-ui/api.env` exists with a random bearer token (0600).
///
/// Reuses an existing file so reinstall does not rotate the token. Writes the
/// hex into `$HOME/.horto-os-ui-api-token` (0600) for PC-side Capture (no TTY echo).
pub const ENSURE_API_TOKEN_SCRIPT: &'static str = "\nset -e\nsudo mkdir -p /etc/horto-os-ui\nif [ ! -f /etc/horto-os-ui/api.env ]; then\n  TOKEN=$(openssl rand -hex 32 2>/dev/null || head -c 32 /dev/urandom | od -An -tx1 | tr -d ' \\n')\n  printf 'HORTO_API_TOKEN=%s\\n' \"$TOKEN\" | sudo tee /etc/horto-os-ui/api.env >/dev/null\n  sudo chmod 600 /etc/horto-os-ui/api.env\nfi\nDROP=\"${HOME}/.horto-os-ui-api-token\"\nsudo grep '^HORTO_API_TOKEN=' /etc/horto-os-ui/api.env > \"$DROP\"\nchmod 600 \"$DROP\"\n";

/// Systemd unit path of the status API.
pub const API_UNIT_PATH: &'static str = "/etc/systemd/system/horto-os-ui-status-api.service";

/// Systemd unit path of the MCP server.
pub const MCP_UNIT_PATH: &'static str = "/etc/systemd/system/horto-os-ui-mcp.service";

/// `unit` with `/usr/local/bin/` rewritten to `<install>/` unless the install
/// prefix (trailing `/` ignored) is the default one.
pub open spec fn unit_for(unit: Seq<char>, install_dir: Seq<char>) -> Seq<char> {
    let install = trim_end_char(install_dir, '/');
    if install == DEFAULT_INSTALL_DIR@ {
        unit
    } else {
        replace(unit, "/usr/local/bin/"@, install + "/"@)
    }
}

/// Rewrite default `/usr/local/bin/` ExecStart paths for a custom install prefix.
pub fn unit_with_install_dir(unit: &str, install_dir: &str) -> (r: String)
    ensures
        r@ == unit_for(unit@, install_dir@),
{
    let install = trim_end_char_str(install_dir, '/');
    if str_eq(install.as_str(), DEFAULT_INSTALL_DIR) {
        return owned(unit);
    }
    let to = concat2(install.as_str(), "/");
    proof {
        reveal_strlit("/usr/local/bin/");
    }
    replace_str(unit, "/usr/local/bin/", to.as_str())
}

/// Binaries installed for `c`: CLI and TUI always, then the chosen services.
pub open spec fn eco_bin_names(status_api: bool, mcp: bool) -> Seq<Seq<char>> {
    seq!["horto-os-ui"@, "horto-os-ui-tui"@] + (if status_api {
        seq!["horto-os-ui-status-api"@]
    } else {
        seq![]
    }) + (if mcp {
        seq!["horto-os-ui-mcp"@]
    } else {
        seq![]
    })
}

/// `<staging>/<name>` for each name.
pub open spec fn staged_paths(staging: Seq<char>, names: Seq<Seq<char>>) -> Seq<Seq<char>> {
    Seq::new(names.len(), |i: int| staging + "/"@ + names[i])
}

/// `sudo tee <path>` heredoc writing `unit`.
pub open spec fn unit_heredoc(path: Seq<char>, unit: Seq<char>) -> Seq<char> {
    "sudo tee "@ + path + " > /dev/null <<'HORTO_UNIT_EOF'\n"@ + unit + "HORTO_UNIT_EOF\n"@
}

pub open spec fn when(b: bool, s: Seq<char>) -> Seq<char> {
    if b {
        s
    } else {
        seq![]
    }
}

/// Shell fragment of [`remote_enable_ecosystem_script`].
pub open spec fn enable_script(
    staging_dir: Seq<char>,
    install_dir: Seq<char>,
    status_api: bool,
    mcp: bool,
) -> Seq<char> {
    let install = trim_end_char(install_dir, '/');
    let staging = trim_end_char(staging_dir, '/');
    when(
        status_api,
        ENSURE_API_TOKEN_SCRIPT@ + "\n"@ + unit_heredoc(
            API_UNIT_PATH@,
            unit_for(STATUS_API_UNIT@, install),
        ),
    ) + when(mcp, unit_heredoc(MCP_UNIT_PATH@, unit_for(MCP_UNIT@, install)))
        + "sudo install -m 755 "@ + join(staged_paths(staging, eco_bin_names(status_api, mcp)), " "@)
        + " "@ + install + "/"@ + " && sudo systemctl daemon-reload"@ + when(
        status_api,
        " && sudo systemctl enable --now horto-os-ui-status-api.service"@,
    ) + when(mcp, " && sudo systemctl enable --now horto-os-ui-mcp.service"@) + when(
        install != DEFAULT_INSTALL_DIR@,
        " && sudo systemctl daemon-reload"@ + when(
            status_api,
            " && sudo systemctl restart horto-os-ui-status-api.service"@,
        ) + when(mcp, " && sudo systemctl restart horto-os-ui-mcp.service"@),
    )
}

/// The `sudo tee` heredoc for one unit file.
pub fn unit_heredoc_text(path: &str, unit: &str) -> (r: String)
    ensures
        r@ == unit_heredoc(path@, unit@),
{
    let mut r = concat3("sudo tee ", path, " > /dev/null <<'HORTO_UNIT_EOF'\n");
    r.append(unit);
    r.append("HORTO_UNIT_EOF\n");
    r
}

/// Staged binary paths, space separated.
pub fn staged_bin_list(staging: &str, status_api: bool, mcp: bool) -> (r: String)
    ensures
        r@ == join(staged_paths(staging@, eco_bin_names(status_api, mcp)), " "@),
{
    let mut names: Vec<&str> = Vec::new();
    names.push("horto-os-ui");
    names.push("horto-os-ui-tui");
    if status_api {
        names.push("horto-os-ui-status-api");
    }
    if mcp {
        names.push("horto-os-ui-mcp");
    }
    let ghost want = eco_bin_names(status_api, mcp);
    assert(Seq::new(names@.len(), |i: int| names@[i]@) =~= want);
    let mut paths: Vec<String> = Vec::new();
    let mut i: usize = 0;
    while i < names.len()
        invariant
            i <= names@.len(),
            Seq::new(names@.len(), |i: int| names@[i]@) == want,
            sviews(paths@) == staged_paths(staging@, want).subrange(0, i as int),
        decreases names@.len() - i,
    {
        let ghost p0 = sviews(paths@);
        assert(Seq::new(names@.len(), |i: int| names@[i]@)[i as int] == names@[i as int]@);
        let item = concat3(staging, "/", names[i]);
        assert(item@ == staging@ + "/"@ + want[i as int]);
        paths.push(item);
        assert(sviews(paths@) =~= p0.push(staging@ + "/"@ + want[i as int]));
        assert(staged_paths(staging@, want).subrange(0, i + 1) =~= staged_paths(
            staging@,
            want,
        ).subrange(0, i as int).push(staging@ + "/"@ + want[i as int]));
        i = i + 1;
    }
    assert(staged_paths(staging@, want).subrange(0, i as int) =~= staged_paths(staging@, want));
    join_strings(&paths, " ")
}

/// Shell fragment: install selected bins/units from `staging`.
///
/// Always installs CLI + TUI. Adds status-api / MCP bins and units per `choice`.
/// `staging` already contains the binary basenames.
pub fn remote_enable_ecosystem_script(
    staging: &str,
    install_dir: &str,
    choice: EcosystemInstallChoice,
) -> (script: String)
    ensures
        script@ == enable_script(staging@, install_dir@, choice.status_api, choice.mcp),
{
    let install = trim_end_char_str(install_dir, '/');
    let stage = trim_end_char_str(staging, '/');
    let mut script = String::new();
    let ghost s0 = script@;
    if choice.status_api {
        let api_unit = unit_with_install_dir(STATUS_API_UNIT, install.as_str());
        script.append(ENSURE_API_TOKEN_SCRIPT);
        script.append("\n");
        let doc = unit_heredoc_text(API_UNIT_PATH, api_unit.as_str());
        script.append(doc.as_str());
    }
    let ghost s1 = script@;
    if choice.mcp {
        let mcp_unit = unit_with_install_dir(MCP_UNIT, install.as_str());
        let doc = unit_heredoc_text(MCP_UNIT_PATH, mcp_unit.as_str());
        script.append(doc.as_str());
    }
    let ghost s2 = script@;
    let bins = staged_bin_list(stage.as_str(), choice.status_api, choice.mcp);
    script.append("sudo install -m 755 ");
    script.append(bins.as_str());
    script.append(" ");
    script.append(install.as_str());
    script.append("/");
    script.append(" && sudo systemctl daemon-reload");
    let ghost s3 = script@;
    if choice.status_api {
        script.append(" && sudo systemctl enable --now horto-os-ui-status-api.service");
    }
    if choice.mcp {
        script.append(" && sudo systemctl enable --now horto-os-ui-mcp.service");
    }
    let ghost s4 = script@;
    let custom = !str_eq(install.as_str(), DEFAULT_INSTALL_DIR);
    if custom {
        script.append(" && sudo systemctl daemon-reload");
        if choice.status_api {
            script.append(" && sudo systemctl restart horto-os-ui-status-api.service");
        }
        if choice.mcp {
            script.append(" && sudo systemctl restart horto-os-ui-mcp.service");
        }
    }
    proof {
        let install_v = trim_end_char(install_dir@, '/');
        assert(s1 =~= when(
            choice.status_api,
            ENSURE_API_TOKEN_SCRIPT@ + "\n"@ + unit_heredoc(
                API_UNIT_PATH@,
                unit_for(STATUS_API_UNIT@, install_v),
            ),
        ));
        assert(s2 =~= s1 + when(
            choice.mcp,
            unit_heredoc(MCP_UNIT_PATH@, unit_for(MCP_UNIT@, install_v)),
        ));
        assert(s4 =~= s3 + when(
            choice.status_api,
            " && sudo systemctl enable --now horto-os-ui-status-api.service"@,
        ) + when(choice.mcp, " && sudo systemctl enable --now horto-os-ui-mcp.service"@));
        assert(script@ =~= enable_script(staging@, install_dir@, choice.status_api, choice.mcp));
    }
    script
}

/// Token of an `api.env` body: first non-empty trimmed line, without a
/// `HORTO_API_TOKEN=` prefix, trimmed; kept only when non-empty and all hex.
pub open spec fn api_token_line(raw: Seq<char>) -> Option<Seq<char>> {
    let line = first_nonempty_trimmed(lines(raw));
    let hex = trim(strip_prefix_or_self(line, "HORTO_API_TOKEN="@));
    if line.len() == 0 || hex.len() == 0 || !all_hex(hex) {
        None
    } else {
        Some(hex)
    }
}

/// Parse `HORTO_API_TOKEN=<hex>` (or bare hex) from an `api.env` body.
pub fn parse_api_token_line(raw: &str) -> (r: Option<String>)
    ensures
        match r {
            Some(s) => api_token_line(raw@) == Some(s@),
            None => api_token_line(raw@) is None,
        },
{
    let chars = to_chars(raw);
    let line = first_nonempty_line(chars.as_slice());
    if line.len() == 0 {
        return None;
    }
    let prefix = to_chars("HORTO_API_TOKEN=");
    let rest = strip_prefix_or_self_chars(line.as_slice(), prefix.as_slice());
    let hex = trim_chars(rest.as_slice());
    if hex.len() == 0 || !all_hex_chars(hex.as_slice()) {
        return None;
    }
    Some(from_chars(hex.as_slice()))
}

/// `(source, basename)` of each binary installed: CLI and TUI always, then
/// the chosen services.
pub open spec fn eco_pairs(bins: LocalBins, status_api: bool, mcp: bool) -> Seq<(Seq<char>, Seq<char>)> {
    seq![(bins.cli@, "horto-os-ui"@), (bins.tui@, "horto-os-ui-tui"@)] + (if status_api {
        seq![(bins.status_api@, "horto-os-ui-status-api"@)]
    } else {
        seq![]
    }) + (if mcp {
        seq![(bins.mcp->0@, "horto-os-ui-mcp"@)]
    } else {
        seq![]
    })
}

pub open spec fn pair_views(v: Seq<(String, String)>) -> Seq<(Seq<char>, Seq<char>)> {
    Seq::new(v.len(), |i: int| (v[i].0@, v[i].1@))
}

/// `(source, basename)` pairs copied into the install dir for `choice`.
pub fn install_pairs(bins: &LocalBins, status_api: bool, mcp: bool) -> (pairs: Vec<(String, String)>)
    requires
        mcp ==> bins.mcp is Some,
    ensures
        pair_views(pairs@) == eco_pairs(*bins, status_api, mcp),
{
    let mut pairs: Vec<(String, String)> = Vec::new();
    pairs.push((owned(bins.cli.as_str()), owned("horto-os-ui")));
    pairs.push((owned(bins.tui.as_str()), owned("horto-os-ui-tui")));
    if status_api {
        pairs.push((owned(bins.status_api.as_str()), owned("horto-os-ui-status-api")));
    }
    if mcp {
        match &bins.mcp {
            Some(m) => pairs.push((owned(m.as_str()), owned("horto-os-ui-mcp"))),
            None => {},
        }
    }
    assert(pair_views(pairs@) =~= eco_pairs(*bins, status_api, mcp));
    pairs
}

/// `systemctl` argument lists: reload, then enable each chosen unit.
pub open spec fn systemctl_plan(status_api: bool, mcp: bool) -> Seq<Seq<Seq<char>>> {
    seq![seq!["daemon-reload"@]] + (if status_api {
        seq![seq!["enable"@, "--now"@, "horto-os-ui-status-api.service"@]]
    } else {
        seq![]
    }) + (if mcp {
        seq![seq!["enable"@, "--now"@, "horto-os-ui-mcp.service"@]]
    } else {
        seq![]
    })
}

pub open spec fn list_views(v: Seq<Vec<String>>) -> Seq<Seq<Seq<char>>> {
    Seq::new(v.len(), |i: int| sviews(v[i]@))
}

pub fn systemctl_arg_lists(status_api: bool, mcp: bool) -> (lists: Vec<Vec<String>>)
    ensures
        list_views(lists@) == systemctl_plan(status_api, mcp),
{
    let mut lists: Vec<Vec<String>> = Vec::new();
    let mut reload: Vec<String> = Vec::new();
    reload.push(owned("daemon-reload"));
    assert(sviews(reload@) =~= seq!["daemon-reload"@]);
    lists.push(reload);
    if status_api {
        let mut a: Vec<String> = Vec::new();
        a.push(owned("enable"));
        a.push(owned("--now"));
        a.push(owned("horto-os-ui-status-api.service"));
        assert(sviews(a@) =~= seq!["enable"@, "--now"@, "horto-os-ui-status-api.service"@]);
        lists.push(a);
    }
    if mcp {
        let mut m: Vec<String> = Vec::new();
        m.push(owned("enable"));
        m.push(owned("--now"));
        m.push(owned("horto-os-ui-mcp.service"));
        assert(sviews(m@) =~= seq!["enable"@, "--now"@, "horto-os-ui-mcp.service"@]);
        lists.push(m);
    }
    assert(list_views(lists@) =~= systemctl_plan(status_api, mcp));
    lists
}

/// `<etc>/horto-os-ui/api.env`, the status API's token env file.
pub open spec fn api_env_of(etc_root: Seq<char>) -> Seq<char> {
    join_path(join_path(etc_root, "horto-os-ui"@), "api.env"@)
}

pub fn api_env_path(etc_root: &str) -> (r: String)
    ensures
        r@ == api_env_of(etc_root@),
{
    let d = path_join(etc_root, "horto-os-ui");
    path_join(d.as_str(), "api.env")
}

/// What installing the ecosystem services on this host consists of.
pub struct EcoInstallPlan {
    /// `api.env` that holds the status API token, when the API is chosen.
    pub api_env: Option<String>,
    /// Binaries to install, `(source, destination)`.
    pub copies: Vec<(String, String)>,
    /// Unit files to write, `(path, body)`.
    pub units: Vec<(String, String)>,
    /// `systemctl` argument lists, run in order.
    pub systemctl: Vec<Vec<String>>,
}

/// Destination of each binary under the install dir.
pub open spec fn copy_plan(pairs: Seq<(Seq<char>, Seq<char>)>, install_dir: Seq<char>) -> Seq<
    (Seq<char>, Seq<char>),
> {
    Seq::new(pairs.len(), |i: int| (pairs[i].0, join_path(install_dir, pairs[i].1)))
}

/// Unit files under `<etc>/systemd/system` with `ExecStart` under the install dir.
pub open spec fn unit_plan(etc_root: Seq<char>, install_dir: Seq<char>, status_api: bool, mcp: bool) -> Seq<
    (Seq<char>, Seq<char>),
> {
    let dir = join_path(join_path(etc_root, "systemd"@), "system"@);
    (if status_api {
        seq![
            (
                join_path(dir, "horto-os-ui-status-api.service"@),
                unit_for(STATUS_API_UNIT@, install_dir),
            ),
        ]
    } else {
        seq![]
    }) + (if mcp {
        seq![(join_path(dir, "horto-os-ui-mcp.service"@), unit_for(MCP_UNIT@, install_dir))]
    } else {
        seq![]
    })
}

/// Install plan for `choice` (`None` when nothing is chosen). MCP counts as
/// chosen only when the local bins hold an MCP binary.
pub fn ecosystem_install_plan(
    bins: &LocalBins,
    install_dir: &str,
    etc_root: &str,
    choice: EcosystemInstallChoice,
) -> (r: Option<EcoInstallPlan>)
    ensures
        !(choice.status_api || choice.mcp) ==> r is None,
        (choice.status_api || choice.mcp) ==> (r matches Some(p) && {
            let mcp = choice.mcp && bins.mcp is Some;
            &&& (choice.status_api ==> (p.api_env matches Some(a) && a@ == api_env_of(etc_root@)))
            &&& (!choice.status_api ==> p.api_env is None)
            &&& pair_views(p.copies@) == copy_plan(eco_pairs(*bins, choice.status_api, mcp), install_dir@)
            &&& pair_views(p.units@) == unit_plan(etc_root@, install_dir@, choice.status_api, mcp)
            &&& list_views(p.systemctl@) == systemctl_plan(choice.status_api, mcp)
        }),
{
    if !choice.any() {
        return None;
    }
    let mcp = choice.mcp && bins.mcp.is_some();
    let api_env = if choice.status_api {
        Some(api_env_path(etc_root))
    } else {
        None
    };
    let pairs = install_pairs(bins, choice.status_api, mcp);
    let ghost pv = pair_views(pairs@);
    let mut copies: Vec<(String, String)> = Vec::new();
    let mut i: usize = 0;
    while i < pairs.len()
        invariant
            i <= pairs@.len(),
            pv == pair_views(pairs@),
            pair_views(copies@) == copy_plan(pv.subrange(0, i as int), install_dir@),
        decreases pairs@.len() - i,
    {
        let dest = path_join(install_dir, pairs[i].1.as_str());
        let ghost c0 = pair_views(copies@);
        copies.push((owned(pairs[i].0.as_str()), dest));
        assert(pv[i as int] == (pairs@[i as int].0@, pairs@[i as int].1@));
        assert(pair_views(copies@) =~= c0.push((pv[i as int].0, join_path(install_dir@, pv[i as int].1))));
        assert(copy_plan(pv.subrange(0, i + 1), install_dir@) =~= copy_plan(pv.subrange(0, i as int), install_dir@).push((pv[i as int].0, join_path(install_dir@, pv[i as int].1))));
        i = i + 1;
    }
    assert(pv.subrange(0, i as int) =~= pv);
    let sysd = path_join(etc_root, "systemd");
    let dir = path_join(sysd.as_str(), "system");
    let mut units: Vec<(String, String)> = Vec::new();
    if choice.status_api {
        units.push(
            (
                path_join(dir.as_str(), "horto-os-ui-status-api.service"),
                unit_with_install_dir(STATUS_API_UNIT, install_dir),
            ),
        );
    }
    if mcp {
        units.push(
            (
                path_join(dir.as_str(), "horto-os-ui-mcp.service"),
                unit_with_install_dir(MCP_UNIT, install_dir),
            ),
        );
    }
    assert(pair_views(units@) =~= unit_plan(etc_root@, install_dir@, choice.status_api, mcp));
    let systemctl = systemctl_arg_lists(choice.status_api, mcp);
    Some(EcoInstallPlan { api_env, copies, units, systemctl })
}

/// The `systemctl` request with `args`.
pub open spec fn systemctl_request(args: Seq<Seq<char>>) -> CallView {
    call("systemctl"@, args, seq![], StdioMode::Capture)
}

/// Whether `r` is the outcome of running `lists` in order when `replies` are
/// the replies to the `systemctl` requests that were made: runs stop at the
/// first reply that is not a success.
pub open spec fn systemctl_runs_give<R: ProcessRunner>(
    runner: R,
    lists: Seq<Seq<Seq<char>>>,
    replies: Seq<Result<OutputView, ErrorView>>,
    r: Result<(), ErrorView>,
) -> bool {
    &&& replies.len() <= lists.len()
    &&& forall|k: int|
        #![trigger replies[k]]
        0 <= k < replies.len() ==> runner.may_reply(systemctl_request(lists[k]), replies[k])
    &&& forall|k: int| #![trigger replies[k]] 0 <= k < replies.len() - 1 ==> reply_ok(replies[k])
    &&& if replies.len() > 0 && !reply_ok(replies.last()) {
        r == checked_unit("systemctl"@, replies.last())
    } else {
        replies.len() == lists.len() && r is Ok
    }
}

/// Whether `t` is exactly the `systemctl` calls made for `lists` and `r`
/// their outcome: one call per list, in order, stopping after the first
/// reply that is not a success.
pub open spec fn systemctl_calls(t: Seq<Entry>, lists: Seq<Seq<Seq<char>>>, r: Result<(), ErrorView>) -> bool {
    &&& t.len() <= lists.len()
    &&& forall|k: int| #![trigger t[k]] 0 <= k < t.len() ==> t[k].0 == systemctl_request(lists[k])
    &&& forall|k: int| #![trigger t[k]] 0 <= k < t.len() - 1 ==> reply_ok(t[k].1)
    &&& if t.len() > 0 && !reply_ok(t.last().1) {
        r == checked_unit("systemctl"@, t.last().1)
    } else {
        t.len() == lists.len() && r is Ok
    }
}

/// Run the `systemctl` argument lists in order, stopping at the first that
/// cannot run or exits non-zero (a [`HortoError::CommandFailed`] for
/// `systemctl`).
pub fn enable_ecosystem_units<R: ProcessRunner>(runs: &mut Runs<R>, lists: &Vec<Vec<String>>) -> (r: Result<(), HortoError>)
    ensures
        lists@.len() == 0 ==> r is Ok,
        exists|replies: Seq<Result<OutputView, ErrorView>>|
            #[trigger] systemctl_runs_give(old(runs).runner(), list_views(lists@), replies, unit_view(r)),
        final(runs).runner() == old(runs).runner(),
        log_grows(old(runs).log(), final(runs).log()),
        systemctl_calls(calls_between(old(runs).log(), final(runs).log()), list_views(lists@), unit_view(r)),
{
    let ghost runner = runs.runner();
    let ghost l0 = runs.log();
    let ghost lv = list_views(lists@);
    let ghost mut replies: Seq<Result<OutputView, ErrorView>> = seq![];
    let mut i: usize = 0;
    let env: Vec<(&str, &str)> = Vec::new();
    assert(ref_pair_views(env@) =~= seq![]);
    while i < lists.len()
        invariant
            i <= lists@.len(),
            lv == list_views(lists@),
            env@.len() == 0,
            runs.runner() == runner,
            log_grows(l0, runs.log()),
            runner == old(runs).runner(),
            l0 == old(runs).log(),
            replies.len() == i,
            forall|k: int|
                #![trigger replies[k]]
                0 <= k < replies.len() ==> runner.may_reply(systemctl_request(lv[k]), replies[k]),
            forall|k: int| #![trigger replies[k]] 0 <= k < replies.len() ==> reply_ok(replies[k]),
            calls_between(l0, runs.log()).len() == i,
            forall|k: int|
                #![trigger calls_between(l0, runs.log())[k]]
                0 <= k < i ==> calls_between(l0, runs.log())[k] == (systemctl_request(lv[k]), replies[k]),
        decreases lists@.len() - i,
    {
        let ghost lb = runs.log();
        let refs = str_refs(&lists[i]);
        assert(ref_pair_views(env@) =~= seq![]);
        let res = runs.run("systemctl", refs.as_slice(), env.as_slice(), StdioMode::Capture);
        let ghost rep = reply_view(res);
        assert(lv[i as int] == sviews(lists@[i as int]@));
        assert(runner.may_reply(systemctl_request(lv[i as int]), rep));
        let ghost next = replies.push(rep);
        assert(next[i as int] == rep);
        assert(next.last() == rep);
        proof {
            assert(calls_between(l0, runs.log()) =~= calls_between(l0, lb).push((systemctl_request(lv[i as int]), rep)));
            let t = calls_between(l0, runs.log());
            assert forall|k: int| 0 <= k < i + 1 implies #[trigger] t[k] == (systemctl_request(lv[k]), next[k]) by {
                if k < i {
                    assert(t[k] == calls_between(l0, lb)[k]);
                }
            }
        }
        let out = match res {
            Ok(o) => o,
            Err(e) => {
                assert(systemctl_runs_give(runner, lv, next, Err(e@)));
                assert(calls_between(l0, runs.log()).last() == (systemctl_request(lv[i as int]), rep));
                assert(systemctl_calls(calls_between(l0, runs.log()), lv, Err(e@)));
                return Err(e);
            },
        };
        match require_ok("systemctl", &out) {
            Ok(()) => {},
            Err(e) => {
                assert(systemctl_runs_give(runner, lv, next, Err(e@)));
                assert(calls_between(l0, runs.log()).last() == (systemctl_request(lv[i as int]), rep));
                assert(systemctl_calls(calls_between(l0, runs.log()), lv, Err(e@)));
                return Err(e);
            },
        }
        proof {
            replies = next;
        }
        i = i + 1;
    }
    assert(systemctl_runs_give(runner, lv, replies, Ok(())));
    proof {
        let t = calls_between(l0, runs.log());
        if t.len() > 0 {
            assert(t.last() == t[t.len() - 1]);
            assert(reply_ok(replies[t.len() - 1]));
        }
    }
    Ok(())
}

} // verus!
