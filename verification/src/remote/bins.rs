//! Local Release cache naming and `--bin-dir` resolution for box binaries.
//!
//! Paths are `/`-joined strings; the embedding program checks them on disk.
use vstd::prelude::*;
use crate::remote::process::{
    calls_between, lemma_calls_concat, lemma_calls_push, log_grows, Entry, Runs,
};
use crate::error::{message_error, ErrorView, HortoError};
use crate::remote::arch::{cache_label_of, target_triple_of, BoxArch};
use crate::remote::process::{
    call, checked_unit, reply_ok, reply_view, require_ok, unit_view, CallView, OutputView, ProcessRunner,
    StdioMode,
};
use crate::remote::ssh::{ref_pair_views, str_refs};
use crate::text::{concat2, concat3, is_digit, owned, sviews, to_chars};

verus! {

/// Basenames of the box binaries a Release ships (CLI, TUI, status API, MCP).
pub const BOX_BIN_NAMES: [&'static str; 4] = [
    "horto-os-ui",
    "horto-os-ui-tui",
    "horto-os-ui-status-api",
    "horto-os-ui-mcp",
];

/// Paths to the box binaries after cache extract or `--bin-dir`.
#[derive(Debug, Clone)]
pub struct LocalBins {
    /// Directory that contains the binaries.
    pub dir: String,
    /// CLI apply agent.
    pub cli: String,
    /// TUI binary.
    pub tui: String,
    /// Status API binary.
    pub status_api: String,
    /// MCP binary, when the directory holds one.
    pub mcp: Option<String>,
}

/// `Path::join`: an absolute `name` replaces `dir`; otherwise no separator
/// after an empty `dir` or one that already ends in `/`.
pub open spec fn join_path(dir: Seq<char>, name: Seq<char>) -> Seq<char> {
    if name.len() > 0 && name[0] == '/' {
        name
    } else if dir.len() == 0 {
        name
    } else if dir.last() == '/' {
        dir + name
    } else {
        dir + "/"@ + name
    }
}

/// `Path::new(dir).join(name)`: an absolute `name` replaces `dir`.
pub fn path_join(dir: &str, name: &str) -> (r: String)
    ensures
        r@ == join_path(dir@, name@),
{
    let n = to_chars(name);
    if n.len() > 0 && n[0] == '/' {
        return owned(name);
    }
    let d = to_chars(dir);
    if d.len() == 0 {
        return owned(name);
    }
    if d[d.len() - 1] == '/' {
        return concat2(dir, name);
    }
    concat3(dir, "/", name)
}

/// Default cache root for downloaded box binaries, from the values of
/// `XDG_CACHE_HOME` and `HOME`: `$XDG_CACHE_HOME/horto-os-ui/remote-bins`,
/// else `$HOME/.cache/horto-os-ui/remote-bins`, else under `/tmp`.
pub open spec fn cache_root_of(xdg_cache_home: Option<Seq<char>>, home: Option<Seq<char>>) -> Seq<char> {
    let base = match xdg_cache_home {
        Some(x) => x,
        None => match home {
            Some(h) => join_path(h, ".cache"@),
            None => "/tmp"@,
        },
    };
    join_path(join_path(base, "horto-os-ui"@), "remote-bins"@)
}

/// [`cache_root_of`] for the given environment values (the caller reads them).
pub fn cache_root_from(xdg_cache_home: Option<&str>, home: Option<&str>) -> (r: String)
    ensures
        r@ == cache_root_of(
            match xdg_cache_home {
                Some(x) => Some(x@),
                None => None,
            },
            match home {
                Some(h) => Some(h@),
                None => None,
            },
        ),
{
    let base = match xdg_cache_home {
        Some(x) => owned(x),
        None => match home {
            Some(h) => path_join(h, ".cache"),
            None => owned("/tmp"),
        },
    };
    let app = path_join(base.as_str(), "horto-os-ui");
    path_join(app.as_str(), "remote-bins")
}

/// `horto-os-ui-<version>-<triple>.tar.gz`.
pub open spec fn asset_name_of(version: Seq<char>, arch: BoxArch) -> Seq<char> {
    "horto-os-ui-"@ + version + "-"@ + target_triple_of(arch) + ".tar.gz"@
}

/// Release tarball file name for a version + target triple.
pub fn asset_name(version: &str, arch: BoxArch) -> (r: String)
    ensures
        r@ == asset_name_of(version@, arch),
{
    let mut r = concat3("horto-os-ui-", version, "-");
    r.append(arch.target_triple());
    r.append(".tar.gz");
    r
}

/// Default GitHub Release tag for a Cargo version (`0.1.0` → `v0.1.0`).
pub fn default_release_tag(version: &str) -> (r: String)
    ensures
        r@ == "v"@ + version@,
{
    concat2("v", version)
}

/// `https://github.com/<repo>/releases/download/<tag>/<asset>`.
pub open spec fn release_url_of(
    repo: Seq<char>,
    tag: Seq<char>,
    version: Seq<char>,
    arch: BoxArch,
) -> Seq<char> {
    "https://github.com/"@ + repo + "/releases/download/"@ + tag + "/"@ + asset_name_of(
        version,
        arch,
    )
}

/// GitHub Release download URL for a box tar.gz asset.
///
/// `release_tag` is the GitHub tag (`v0.1.0` or tip Pre-release `dev-preview`).
/// The asset **filename** still embeds `version` (Cargo workspace version).
pub fn release_download_url(repo: &str, release_tag: &str, version: &str, arch: BoxArch) -> (r:
    String)
    ensures
        r@ == release_url_of(repo@, release_tag@, version@, arch),
{
    let name = asset_name(version, arch);
    let mut r = concat3("https://github.com/", repo, "/releases/download/");
    r.append(release_tag);
    r.append("/");
    r.append(name.as_str());
    r
}

/// Stable tags look like `v0.1.0` (leading `v` + digit).
pub open spec fn immutable_tag(tag: Seq<char>) -> bool {
    tag.len() >= 2 && tag[0] == 'v' && is_digit(tag[1])
}

/// Whether a Release tag is treated as immutable for the local remote-bins cache.
///
/// Tip tags such as `dev-preview` are overwritten in place with the same asset
/// filenames, so a warm cache would keep stale tip binaries forever.
pub fn release_tag_is_immutable(release_tag: &str) -> (r: bool)
    ensures
        r == immutable_tag(release_tag@),
{
    let c = to_chars(release_tag);
    c.len() >= 2 && c[0] == 'v' && '0' <= c[1] && c[1] <= '9'
}

/// `<root>/<tag>/<version>/<arch label>`.
pub open spec fn cache_dir_of(
    root: Seq<char>,
    tag: Seq<char>,
    version: Seq<char>,
    arch: BoxArch,
) -> Seq<char> {
    join_path(join_path(join_path(root, tag), version), cache_label_of(arch))
}

/// Cache directory for one release tag + version + arch.
pub fn cache_bin_dir(cache_root: &str, release_tag: &str, version: &str, arch: BoxArch) -> (r:
    String)
    ensures
        r@ == cache_dir_of(cache_root@, release_tag@, version@, arch),
{
    let a = path_join(cache_root, release_tag);
    let b = path_join(a.as_str(), version);
    path_join(b.as_str(), arch.cache_label())
}

/// The binary paths inside `dir` (MCP included as a candidate).
pub fn bins_in_dir(dir: &str) -> (b: LocalBins)
    ensures
        b.dir@ == dir@,
        b.cli@ == join_path(dir@, "horto-os-ui"@),
        b.tui@ == join_path(dir@, "horto-os-ui-tui"@),
        b.status_api@ == join_path(dir@, "horto-os-ui-status-api"@),
        b.mcp matches Some(m) && m@ == join_path(dir@, "horto-os-ui-mcp"@),
{
    LocalBins {
        dir: owned(dir),
        cli: path_join(dir, "horto-os-ui"),
        tui: path_join(dir, "horto-os-ui-tui"),
        status_api: path_join(dir, "horto-os-ui-status-api"),
        mcp: Some(path_join(dir, "horto-os-ui-mcp")),
    }
}

/// Error for a required binary that is not a file.
pub open spec fn missing_binary_error_of(path: Seq<char>) -> ErrorView {
    message_error(
        "missing binary "@ + path
            + " (expected horto-os-ui, horto-os-ui-tui, horto-os-ui-status-api)"@,
    )
}

pub fn missing_binary_error(path: &str) -> (e: HortoError)
    ensures
        e@ == missing_binary_error_of(path@),
{
    let m = concat3(
        "missing binary ",
        path,
        " (expected horto-os-ui, horto-os-ui-tui, horto-os-ui-status-api)",
    );
    HortoError::msg(m.as_str())
}

/// Settle a bins directory from which of its files exist.
///
/// CLI, TUI and status API are required (checked in that order); MCP is kept
/// only when present.
pub fn bins_from_presence(
    dir: &str,
    cli_ok: bool,
    tui_ok: bool,
    api_ok: bool,
    mcp_ok: bool,
) -> (r: Result<LocalBins, HortoError>)
    ensures
        (cli_ok && tui_ok && api_ok) <==> r.is_ok(),
        r matches Ok(b) ==> {
            &&& b.dir@ == dir@
            &&& b.cli@ == join_path(dir@, "horto-os-ui"@)
            &&& b.tui@ == join_path(dir@, "horto-os-ui-tui"@)
            &&& b.status_api@ == join_path(dir@, "horto-os-ui-status-api"@)
            &&& (mcp_ok ==> (b.mcp matches Some(m) && m@ == join_path(dir@, "horto-os-ui-mcp"@)))
            &&& (!mcp_ok ==> b.mcp is None)
        },
        r matches Err(e) ==> e@ == missing_binary_error_of(
            if !cli_ok {
                join_path(dir@, "horto-os-ui"@)
            } else if !tui_ok {
                join_path(dir@, "horto-os-ui-tui"@)
            } else {
                join_path(dir@, "horto-os-ui-status-api"@)
            },
        ),
{
    let mut b = bins_in_dir(dir);
    if !cli_ok {
        return Err(missing_binary_error(b.cli.as_str()));
    }
    if !tui_ok {
        return Err(missing_binary_error(b.tui.as_str()));
    }
    if !api_ok {
        return Err(missing_binary_error(b.status_api.as_str()));
    }
    if !mcp_ok {
        b.mcp = None;
    }
    Ok(b)
}

/// Whether a warm cache may be reused: the CLI is there and the tag is immutable.
pub fn cache_reusable(marker_is_file: bool, release_tag: &str) -> (r: bool)
    ensures
        r == (marker_is_file && immutable_tag(release_tag@)),
{
    marker_is_file && release_tag_is_immutable(release_tag)
}

/// `curl -fsSL -o <tarball> <url>` arguments.
pub fn curl_args(tarball: &str, url: &str) -> (args: Vec<String>)
    ensures
        sviews(args@) == seq!["-fsSL"@, "-o"@, tarball@, url@],
{
    let mut args: Vec<String> = Vec::new();
    args.push(owned("-fsSL"));
    args.push(owned("-o"));
    args.push(owned(tarball));
    args.push(owned(url));
    assert(sviews(args@) =~= seq!["-fsSL"@, "-o"@, tarball@, url@]);
    args
}

/// `tar -xzf <tarball> -C <dest> --strip-components=1` arguments.
pub fn tar_args(tarball: &str, dest: &str) -> (args: Vec<String>)
    ensures
        sviews(args@) == seq!["-xzf"@, tarball@, "-C"@, dest@, "--strip-components=1"@],
{
    let mut args: Vec<String> = Vec::new();
    args.push(owned("-xzf"));
    args.push(owned(tarball));
    args.push(owned("-C"));
    args.push(owned(dest));
    args.push(owned("--strip-components=1"));
    assert(sviews(args@) =~= seq!["-xzf"@, tarball@, "-C"@, dest@, "--strip-components=1"@]);
    args
}

/// The `curl` request fetching `url` into `tarball`.
pub open spec fn curl_request(tarball: Seq<char>, url: Seq<char>) -> CallView {
    call("curl"@, seq!["-fsSL"@, "-o"@, tarball, url], seq![], StdioMode::Capture)
}

/// The `tar` request unpacking `tarball` into `dest`.
pub open spec fn tar_request(tarball: Seq<char>, dest: Seq<char>) -> CallView {
    call(
        "tar"@,
        seq!["-xzf"@, tarball, "-C"@, dest, "--strip-components=1"@],
        seq![],
        StdioMode::Capture,
    )
}

/// Whether `t` is exactly the calls of [`download_release`] and `r` its
/// result: `curl`, then `tar` only when `curl` succeeded.
pub open spec fn download_calls(
    t: Seq<Entry>,
    tarball: Seq<char>,
    url: Seq<char>,
    dest: Seq<char>,
    r: Result<(), ErrorView>,
) -> bool {
    &&& t.len() >= 1
    &&& t[0].0 == curl_request(tarball, url)
    &&& match checked_unit("curl"@, t[0].1) {
        Err(e) => t.len() == 1 && r == Err::<(), ErrorView>(e),
        Ok(_) => t.len() == 2 && t[1].0 == tar_request(tarball, dest) && r == checked_unit(
            "tar"@,
            t[1].1,
        ),
    }
}

/// A download whose `curl` did not succeed makes no other call: `tar` runs
/// only after a successful fetch, and only `curl` and `tar` are ever run.
pub proof fn law_failed_download_never_untars(
    t: Seq<Entry>,
    tarball: Seq<char>,
    url: Seq<char>,
    dest: Seq<char>,
    r: Result<(), ErrorView>,
)
    requires
        download_calls(t, tarball, url, dest, r),
    ensures
        !reply_ok(t[0].1) ==> t.len() == 1 && r is Err,
        forall|i: int| 0 <= i < t.len() ==> (#[trigger] t[i]).0.program == "curl"@ || t[i].0.program == "tar"@,
{
}

/// Fetch the Release tarball for `arch` into `dest` with `curl`, then unpack
/// it there with `tar`; stops at the first program that cannot run or exits
/// non-zero (a [`HortoError::CommandFailed`] naming it).
pub fn download_release<R: ProcessRunner>(
    runs: &mut Runs<R>,
    repo: &str,
    release_tag: &str,
    version: &str,
    arch: BoxArch,
    dest: &str,
) -> (r: Result<(), HortoError>)
    ensures
        ({
            let tarball = join_path(dest@, asset_name_of(version@, arch));
            exists|c: Result<OutputView, ErrorView>|
                #[trigger] old(runs).runner().may_reply(
                    curl_request(tarball, release_url_of(repo@, release_tag@, version@, arch)),
                    c,
                ) && match checked_unit("curl"@, c) {
                    Err(e) => unit_view(r) == Err::<(), ErrorView>(e),
                    Ok(_) => exists|t: Result<OutputView, ErrorView>|
                        #[trigger] old(runs).runner().may_reply(tar_request(tarball, dest@), t) && unit_view(r)
                            == checked_unit("tar"@, t),
                }
        }),
        final(runs).runner() == old(runs).runner(),
        log_grows(old(runs).log(), final(runs).log()),
        download_calls(
            calls_between(old(runs).log(), final(runs).log()),
            join_path(dest@, asset_name_of(version@, arch)),
            release_url_of(repo@, release_tag@, version@, arch),
            dest@,
            unit_view(r),
        ),
{
    let ghost runner = runs.runner();
    let ghost l0 = runs.log();
    let url = release_download_url(repo, release_tag, version, arch);
    let name = asset_name(version, arch);
    let tarball = path_join(dest, name.as_str());
    let env: Vec<(&str, &str)> = Vec::new();
    assert(ref_pair_views(env@) =~= seq![]);
    let curl = curl_args(tarball.as_str(), url.as_str());
    let curl_refs = str_refs(&curl);
    let res = runs.run("curl", curl_refs.as_slice(), env.as_slice(), StdioMode::Capture);
    assert(runner.may_reply(curl_request(tarball@, url@), reply_view(res)));
    let ghost l1 = runs.log();
    proof {
        lemma_calls_push(l0, (curl_request(tarball@, url@), reply_view(res)));
    }
    let out = match res {
        Ok(o) => o,
        Err(e) => {
            return Err(e);
        },
    };
    if let Err(e) = require_ok("curl", &out) {
        return Err(e);
    }
    let tar = tar_args(tarball.as_str(), dest);
    let tar_refs = str_refs(&tar);
    let res = runs.run("tar", tar_refs.as_slice(), env.as_slice(), StdioMode::Capture);
    assert(runner.may_reply(tar_request(tarball@, dest@), reply_view(res)));
    proof {
        lemma_calls_push(l1, (tar_request(tarball@, dest@), reply_view(res)));
        lemma_calls_concat(l0, l1, runs.log());
    }
    let out = match res {
        Ok(o) => o,
        Err(e) => {
            return Err(e);
        },
    };
    require_ok("tar", &out)
}

} // verus!
