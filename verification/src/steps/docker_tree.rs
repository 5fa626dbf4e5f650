//! The docker tree (`d1`–`d3`): which embedded assets land where, which NPU
//! stack is merged, compose presence, and when the stacks count as running.
use vstd::prelude::*;
use crate::remote::process::{calls_between, lemma_calls_concat, log_grows, Entry, Runs};
use crate::envfile::{env_get, env_set, lemma_env_set_get, EnvMap};
use crate::remote::ecosystem::EcosystemInstallChoice;
use crate::error::{error_text, message_error, ErrorView, HortoError};
use crate::journal::StepJournal;
use crate::remote::process::{
    call, reply_ok, reply_view, CallView, OutputView, ProcessRunner, StdioMode,
};
use crate::remote::ssh::{ref_pair_views, str_refs};
use crate::remote::bins::{join_path, path_join};
use crate::stack_opts::{any_selected, selected_links, StackOpts};
use crate::steps::{build_service_links_csv, normalize_npu_type, npu_folder, service_links};
use crate::text::{
    char_end, concat2, concat3, contains, lemma_char_end_le, lemma_contains_lower,
    lemma_contains_prefix, lemma_join_contains, find_char_end, has_prefix, int_text, int_to_string,
    join, join_strings, lower, lower_chars, owned, slice_range, starts_with, str_contains, str_eq,
    sviews, to_chars, from_chars,
};

verus! {

/// Error when `os-configuration.env` is missing outside a dry run.
pub open spec fn missing_config_error(path: Seq<char>) -> ErrorView {
    message_error("missing "@ + path + "; run setup so os-configuration is staged"@)
}

/// Error when no embedded stack folder exists for the NPU type.
pub open spec fn unknown_stack_error(npu: Seq<char>) -> ErrorView {
    message_error(
        "NPU_TYPE="@ + npu + " has no embedded stacks/"@ + npu
            + "/ (fix OS_TYPE/NPU_TYPE in os-configuration.env)"@,
    )
}

/// Some asset path starts with `p`.
pub open spec fn any_with_prefix(assets: Seq<Seq<char>>, p: Seq<char>) -> bool {
    exists|i: int| 0 <= i < assets.len() && has_prefix(#[trigger] assets[i], p)
}

/// `NPU_TYPE` of the configuration (`none` when unset), folded to its stack
/// folder.
pub open spec fn npu_of(config: Seq<(Seq<char>, Seq<char>)>) -> Seq<char> {
    npu_folder(
        match env_get(config, "NPU_TYPE"@) {
            Some(v) => v,
            None => "none"@,
        },
    )
}

fn any_asset_with_prefix(assets: &Vec<String>, probe: &str) -> (b: bool)
    ensures
        b == any_with_prefix(sviews(assets@), probe@),
{
    let p = to_chars(probe);
    let mut i: usize = 0;
    while i < assets.len()
        invariant
            i <= assets@.len(),
            p@ == probe@,
            forall|j: int| 0 <= j < i ==> !has_prefix(#[trigger] sviews(assets@)[j], probe@),
        decreases assets@.len() - i,
    {
        let a = to_chars(assets[i].as_str());
        if starts_with(a.as_slice(), p.as_slice()) {
            assert(has_prefix(sviews(assets@)[i as int], probe@));
            return true;
        }
        i = i + 1;
    }
    false
}

/// The NPU stack `d1` merges: from the OS configuration (given parsed, or
/// `None` when the file at `config_path` is missing and this is no dry run),
/// and only when the embedded assets hold `docker_source/stacks/<npu>/`
/// (`none` needs no folder).
pub fn resolve_npu_type(config: Option<&EnvMap>, config_path: &str, assets: &Vec<String>) -> (r:
    Result<String, HortoError>)
    ensures
        match config {
            None => r matches Err(e) && e@ == missing_config_error(config_path@),
            Some(m) => {
                let npu = npu_of(m@);
                if npu == "none"@ || any_with_prefix(
                    sviews(assets@),
                    "docker_source/stacks/"@ + npu + "/"@,
                ) {
                    r matches Ok(s) && s@ == npu
                } else {
                    r matches Err(e) && e@ == unknown_stack_error(npu)
                }
            },
        },
{
    let m = match config {
        None => {
            let mut t = concat2("missing ", config_path);
            t.append("; run setup so os-configuration is staged");
            return Err(HortoError::msg(t.as_str()));
        },
        Some(m) => m,
    };
    let raw = match m.get("NPU_TYPE") {
        Some(v) => v,
        None => "none",
    };
    let npu = normalize_npu_type(raw);
    if str_eq(npu.as_str(), "none") {
        return Ok(npu);
    }
    let probe = concat3("docker_source/stacks/", npu.as_str(), "/");
    if any_asset_with_prefix(assets, probe.as_str()) {
        return Ok(npu);
    }
    let mut t = concat3("NPU_TYPE=", npu.as_str(), " has no embedded stacks/");
    t.append(npu.as_str());
    t.append("/ (fix OS_TYPE/NPU_TYPE in os-configuration.env)");
    Err(HortoError::msg(t.as_str()))
}

/// Assets under `prefix` whose remainder is non-empty, starts with `need`
/// and does not start with `avoid`, as `(asset, remainder)` in asset order.
pub open spec fn assets_under(
    assets: Seq<Seq<char>>,
    prefix: Seq<char>,
    need: Seq<char>,
    avoid: Option<Seq<char>>,
) -> Seq<(Seq<char>, Seq<char>)>
    decreases assets.len(),
{
    if assets.len() == 0 {
        seq![]
    } else {
        let prev = assets_under(assets.drop_last(), prefix, need, avoid);
        let a = assets.last();
        let rest = a.subrange(prefix.len() as int, a.len() as int);
        if has_prefix(a, prefix) && rest.len() > 0 && has_prefix(rest, need) && !(avoid matches Some(
            x,
        ) && has_prefix(rest, x)) {
            prev.push((a, rest))
        } else {
            prev
        }
    }
}

pub open spec fn pair_views(v: Seq<(String, String)>) -> Seq<(Seq<char>, Seq<char>)> {
    Seq::new(v.len(), |i: int| (v[i].0@, v[i].1@))
}

fn select_assets(assets: &Vec<String>, prefix: &str, need: &str, avoid: Option<&str>) -> (r: Vec<
    (String, String),
>)
    ensures
        pair_views(r@) == assets_under(
            sviews(assets@),
            prefix@,
            need@,
            match avoid {
                Some(x) => Some(x@),
                None => None,
            },
        ),
{
    let ghost av = match avoid {
        Some(x) => Some(x@),
        None => None::<Seq<char>>,
    };
    let p = to_chars(prefix);
    let nd = to_chars(need);
    let mut r: Vec<(String, String)> = Vec::new();
    let mut i: usize = 0;
    while i < assets.len()
        invariant
            i <= assets@.len(),
            p@ == prefix@,
            nd@ == need@,
            av == match avoid {
                Some(x) => Some(x@),
                None => None::<Seq<char>>,
            },
            pair_views(r@) == assets_under(sviews(assets@).subrange(0, i as int), prefix@, need@, av),
        decreases assets@.len() - i,
    {
        let ghost sub = sviews(assets@).subrange(0, i + 1);
        assert(sub.drop_last() =~= sviews(assets@).subrange(0, i as int));
        assert(sub.last() == assets@[i as int]@);
        let a = to_chars(assets[i].as_str());
        if starts_with(a.as_slice(), p.as_slice()) {
            let rest = slice_range(a.as_slice(), p.len(), a.len());
            let keep = rest.len() > 0 && starts_with(rest.as_slice(), nd.as_slice()) && match avoid {
                Some(x) => {
                    let xc = to_chars(x);
                    !starts_with(rest.as_slice(), xc.as_slice())
                },
                None => true,
            };
            if keep {
                let ghost r0 = pair_views(r@);
                r.push((owned(assets[i].as_str()), from_chars(rest.as_slice())));
                assert(pair_views(r@) =~= r0.push((assets@[i as int]@, rest@)));
            }
        }
        i = i + 1;
    }
    assert(sviews(assets@).subrange(0, i as int) =~= sviews(assets@));
    r
}

/// The docker source tree without `stacks/`: `(asset, path under the docker
/// root)` of every embedded `docker_source/` file outside `stacks/`.
pub fn non_stack_files(assets: &Vec<String>) -> (r: Vec<(String, String)>)
    ensures
        pair_views(r@) == assets_under(sviews(assets@), "docker_source/"@, ""@, Some("stacks/"@)),
{
    select_assets(assets, "docker_source/", "", Some("stacks/"))
}

/// One stack folder (`stack_prefix` such as `stacks/common/`): `(asset, path
/// under the docker root)` of every file below it.
pub fn stack_prefix_files(assets: &Vec<String>, stack_prefix: &str) -> (r: Vec<(String, String)>)
    ensures
        pair_views(r@) == assets_under(sviews(assets@), "docker_source/"@ + stack_prefix@, ""@, None),
{
    let prefix = concat2("docker_source/", stack_prefix);
    select_assets(assets, prefix.as_str(), "", None)
}

/// Homepage assets: `(asset, file name)` of every `homepage_assets/` file
/// whose name starts with `homepage`.
pub fn homepage_asset_files(assets: &Vec<String>) -> (r: Vec<(String, String)>)
    ensures
        pair_views(r@) == assets_under(sviews(assets@), "homepage_assets/"@, "homepage"@, None),
{
    select_assets(assets, "homepage_assets/", "homepage", None)
}

/// `Merged <prefix> (<count> files) into <target>`
pub open spec fn merged_line(stack_prefix: Seq<char>, count: u32, target: Seq<char>) -> Seq<char> {
    "Merged "@ + stack_prefix + " ("@ + int_text(count as int) + " files) into "@ + target
}

pub fn merged_message(stack_prefix: &str, count: u32, target: &str) -> (r: String)
    ensures
        r@ == merged_line(stack_prefix@, count, target@),
{
    let n = int_to_string(count as i64);
    let mut l = concat3("Merged ", stack_prefix, " (");
    l.append(n.as_str());
    l.append(" files) into ");
    l.append(target);
    l
}

/// Dry-run plan of `d1`.
pub open spec fn docker_tree_plan(os_conf: Seq<char>, docker: Seq<char>, npu: Seq<char>, skip_piper: bool) -> Seq<
    Seq<char>,
> {
    seq![
        "ensure "@ + os_conf,
        "extract embedded docker_source/ (non-stacks) -> "@ + docker,
        "merge stacks/common into docker tree"@,
        if npu == "none"@ {
            "NPU_TYPE=none; skip NPU/GPU stack merge"@
        } else {
            "merge stacks/"@ + npu + " into docker tree"@
        },
        "copy homepage_assets/* into docker/assets"@,
        "render {{VAR}} placeholders under docker tree"@,
        if skip_piper {
            "skip piper model download (--skip-piper)"@
        } else {
            "download piper models (warn-only on failure)"@
        },
    ]
}

pub fn plan_docker_tree(journal: &mut StepJournal, os_conf: &str, docker: &str, npu: &str, skip_piper: bool)
    ensures
        final(journal)@.planned == old(journal)@.planned + docker_tree_plan(
            os_conf@,
            docker@,
            npu@,
            skip_piper,
        ),
        final(journal)@.logs == old(journal)@.logs,
{
    let ghost p0 = journal@.planned;
    journal.plan_action(concat2("ensure ", os_conf));
    journal.plan_action(concat2("extract embedded docker_source/ (non-stacks) -> ", docker));
    journal.plan_action(owned("merge stacks/common into docker tree"));
    if str_eq(npu, "none") {
        journal.plan_action(owned("NPU_TYPE=none; skip NPU/GPU stack merge"));
    } else {
        journal.plan_action(concat3("merge stacks/", npu, " into docker tree"));
    }
    journal.plan_action(owned("copy homepage_assets/* into docker/assets"));
    journal.plan_action(owned("render {{VAR}} placeholders under docker tree"));
    if skip_piper {
        journal.plan_action(owned("skip piper model download (--skip-piper)"));
    } else {
        journal.plan_action(owned("download piper models (warn-only on failure)"));
    }
    assert(journal@.planned =~= p0 + docker_tree_plan(os_conf@, docker@, npu@, skip_piper));
}

/// Error when a stack directory has no compose file.
pub open spec fn compose_missing_error(name: Seq<char>, dir: Seq<char>) -> ErrorView {
    message_error(name + " compose missing under "@ + dir + "; run d1 first"@)
}

/// `Ok` when `dir` has `compose.yaml` or `compose.yml` (`present`).
pub fn ensure_compose(present: bool, name: &str, dir: &str) -> (r: Result<(), HortoError>)
    ensures
        present ==> r is Ok,
        !present ==> (r matches Err(e) && e@ == compose_missing_error(name@, dir@)),
{
    if present {
        return Ok(());
    }
    let mut m = concat2(name, " compose missing under ");
    m.append(dir);
    m.append("; run d1 first");
    Err(HortoError::msg(m.as_str()))
}

/// Dockge and Homepage both appear among the running container names
/// (compared ASCII case-insensitively over the comma-joined list).
pub open spec fn core_stacks_running(names: Seq<Seq<char>>) -> bool {
    let all = lower(join(names, ","@));
    contains(all, "dockge"@) && contains(all, "homepage"@)
}

pub fn stacks_running(names: &Vec<String>) -> (b: bool)
    ensures
        b == core_stacks_running(sviews(names@)),
{
    let all = join_strings(names, ",");
    let c = to_chars(all.as_str());
    let l = lower_chars(c.as_slice());
    let ls = from_chars(l.as_slice());
    str_contains(ls.as_str(), "dockge") && str_contains(ls.as_str(), "homepage")
}

/// Some running container name contains `needle`, ASCII case-insensitively.
pub open spec fn name_contains(names: Seq<Seq<char>>, needle: Seq<char>) -> bool {
    exists|i: int| 0 <= i < names.len() && contains(lower(#[trigger] names[i]), lower(needle))
}

pub fn container_name_contains(needle: &str, names: &Vec<String>) -> (b: bool)
    ensures
        b == name_contains(sviews(names@), needle@),
{
    let nc = to_chars(needle);
    let nl = lower_chars(nc.as_slice());
    let mut i: usize = 0;
    while i < names.len()
        invariant
            i <= names@.len(),
            nl@ == lower(needle@),
            forall|j: int| 0 <= j < i ==> !contains(lower(#[trigger] sviews(names@)[j]), lower(needle@)),
        decreases names@.len() - i,
    {
        let c = to_chars(names[i].as_str());
        let l = lower_chars(c.as_slice());
        if crate::text::contains_seq(l.as_slice(), nl.as_slice()) {
            assert(contains(lower(sviews(names@)[i as int]), lower(needle@)));
            return true;
        }
        i = i + 1;
    }
    false
}

/// `d2` counts as done when the engine is ready, both compose files exist
/// and Dockge and Homepage run (`names` is `None` when the container list
/// could not be read).
pub open spec fn start_stacks_done_spec(
    engine_ready: bool,
    dockge_compose: bool,
    homepage_compose: bool,
    names: Option<Seq<Seq<char>>>,
) -> bool {
    engine_ready && dockge_compose && homepage_compose && (names matches Some(n)
        && core_stacks_running(n))
}

pub fn start_stacks_done(
    engine_ready: bool,
    dockge_compose: bool,
    homepage_compose: bool,
    names: Option<&Vec<String>>,
) -> (b: bool)
    ensures
        b == start_stacks_done_spec(
            engine_ready,
            dockge_compose,
            homepage_compose,
            match names {
                Some(n) => Some(sviews(n@)),
                None => None,
            },
        ),
{
    if !engine_ready || !dockge_compose || !homepage_compose {
        return false;
    }
    match names {
        Some(n) => stacks_running(n),
        None => false,
    }
}

/// Dry-run plan of `d2`.
pub open spec fn start_stacks_plan(docker: Seq<char>) -> Seq<Seq<char>> {
    seq![
        "docker compose up -d in "@ + join_path(docker, "dockge"@),
        "docker compose up -d in "@ + join_path(docker, "homepage"@),
        "Dockge http://<hostname>:5001 ; Homepage http://<hostname>:3021"@,
    ]
}

pub fn plan_start_stacks(journal: &mut StepJournal, docker: &str)
    ensures
        final(journal)@.planned == old(journal)@.planned + start_stacks_plan(docker@),
        final(journal)@.logs == old(journal)@.logs,
{
    let ghost p0 = journal@.planned;
    let d = path_join(docker, "dockge");
    let h = path_join(docker, "homepage");
    journal.plan_action(concat2("docker compose up -d in ", d.as_str()));
    journal.plan_action(concat2("docker compose up -d in ", h.as_str()));
    journal.plan_action(owned("Dockge http://<hostname>:5001 ; Homepage http://<hostname>:3021"));
    assert(journal@.planned =~= p0 + start_stacks_plan(docker@));
}

/// Service name of a `Name:port` link: the part before the first `:`.
pub open spec fn link_name(link: Seq<char>) -> Seq<char> {
    link.subrange(0, char_end(link, ':') as int)
}

pub open spec fn link_views(v: Seq<(String, bool)>) -> Seq<(Seq<char>, bool)> {
    Seq::new(v.len(), |i: int| (v[i].0@, v[i].1))
}

/// `d3` counts as done when the engine is ready, the filtered links file
/// exists, and every selected stack whose compose file exists is named in
/// its `LINKS` value (ASCII case-insensitively). `stacks` lists the
/// selected stacks as `(link, compose present)`; `links` is the `LINKS`
/// value, `None` when it could not be read.
pub open spec fn optional_stacks_done_spec(
    engine_ready: bool,
    links_file: bool,
    links: Option<Seq<char>>,
    stacks: Seq<(Seq<char>, bool)>,
) -> bool {
    &&& engine_ready
    &&& links_file
    &&& forall|k: int|
        0 <= k < stacks.len() && (#[trigger] stacks[k]).1 ==> (links matches Some(l) && contains(
            lower(l),
            lower(link_name(stacks[k].0)),
        ))
}

pub fn optional_stacks_done(
    engine_ready: bool,
    links_file: bool,
    links: Option<&str>,
    stacks: &Vec<(String, bool)>,
) -> (b: bool)
    ensures
        b == optional_stacks_done_spec(
            engine_ready,
            links_file,
            match links {
                Some(l) => Some(l@),
                None => None,
            },
            link_views(stacks@),
        ),
{
    let ghost lv = match links {
        Some(l) => Some(l@),
        None => None::<Seq<char>>,
    };
    if !engine_ready || !links_file {
        return false;
    }
    let mut i: usize = 0;
    while i < stacks.len()
        invariant
            i <= stacks@.len(),
            lv == match links {
                Some(l) => Some(l@),
                None => None::<Seq<char>>,
            },
            forall|k: int|
                0 <= k < i && (#[trigger] link_views(stacks@)[k]).1 ==> (lv matches Some(l)
                    && contains(lower(l), lower(link_name(link_views(stacks@)[k].0)))),
        decreases stacks@.len() - i,
    {
        if stacks[i].1 {
            assert(link_views(stacks@)[i as int] == (stacks@[i as int].0@, stacks@[i as int].1));
            let raw = match links {
                Some(l) => l,
                None => {
                    assert(link_views(stacks@)[i as int].1);
                    return false;
                },
            };
            let lc = to_chars(stacks[i].0.as_str());
            let e = find_char_end(lc.as_slice(), ':', 0);
            assert(lc@.subrange(0, lc@.len() as int) =~= lc@);
            let name = slice_range(lc.as_slice(), 0, e);
            assert(name@ == link_name(link_views(stacks@)[i as int].0));
            let name_l = lower_chars(name.as_slice());
            let rc = to_chars(raw);
            let raw_l = lower_chars(rc.as_slice());
            if !crate::text::contains_seq(raw_l.as_slice(), name_l.as_slice()) {
                assert(link_views(stacks@)[i as int].1);
                assert(!contains(lower(raw@), lower(link_name(link_views(stacks@)[i as int].0))));
                return false;
            }
        }
        i = i + 1;
    }
    true
}

/// Dry-run plan of `d3` for the selected stacks under `docker`.
pub open spec fn optional_plan_lines(links: Seq<(Seq<char>, Seq<char>)>, docker: Seq<char>) -> Seq<
    Seq<char>,
>
    decreases links.len(),
{
    if links.len() == 0 {
        seq![]
    } else {
        optional_plan_lines(links.drop_last(), docker).push(
            "docker compose up -d in "@ + join_path(docker, links.last().0) + " ("@
                + links.last().1 + ")"@,
        )
    }
}

pub open spec fn optional_stacks_plan(opts: StackOpts, docker: Seq<char>, active_setup: Seq<char>) -> Seq<
    Seq<char>,
> {
    optional_plan_lines(selected_links(opts), docker) + (if any_selected(opts) {
        seq![]
    } else {
        seq!["no optional Docker stacks selected"@]
    }) + seq!["write filtered service_links.env under "@ + active_setup]
}

pub fn plan_optional_stacks(journal: &mut StepJournal, opts: StackOpts, docker: &str, active_setup: &str)
    ensures
        final(journal)@.planned == old(journal)@.planned + optional_stacks_plan(
            opts,
            docker@,
            active_setup@,
        ),
        final(journal)@.logs == old(journal)@.logs,
{
    let ghost p0 = journal@.planned;
    let sel = opts.selected();
    let ghost lv = crate::stack_opts::link_views(sel@);
    let mut i: usize = 0;
    while i < sel.len()
        invariant
            i <= sel@.len(),
            lv == crate::stack_opts::link_views(sel@),
            lv == selected_links(opts),
            journal@.planned == p0 + optional_plan_lines(lv.subrange(0, i as int), docker@),
            journal@.logs == old(journal)@.logs,
        decreases sel@.len() - i,
    {
        let dir = path_join(docker, sel[i].dir);
        let mut l = concat3("docker compose up -d in ", dir.as_str(), " (");
        l.append(sel[i].link);
        l.append(")");
        journal.plan_action(l);
        proof {
            let s = lv.subrange(0, i + 1);
            assert(s.drop_last() =~= lv.subrange(0, i as int));
            assert(s.last() == (sel@[i as int].dir@, sel@[i as int].link@));
            assert(journal@.planned =~= p0 + optional_plan_lines(s, docker@));
        }
        i = i + 1;
    }
    assert(lv.subrange(0, i as int) =~= lv);
    let ghost p1 = journal@.planned;
    if !opts.any() {
        journal.plan_action(owned("no optional Docker stacks selected"));
    }
    journal.plan_action(concat2("write filtered service_links.env under ", active_setup));
    assert(journal@.planned =~= p0 + optional_stacks_plan(opts, docker@, active_setup@));
}

/// The filtered `service_links.env` contents: `HOST` empty, `LINKS` from
/// [`build_service_links_csv`], `SCHEME` `http` (in key order).
pub open spec fn links_env(stacks: StackOpts, eco: EcosystemInstallChoice) -> Seq<(Seq<char>, Seq<char>)> {
    env_set(
        env_set(env_set(seq![], "HOST"@, ""@), "LINKS"@, join(service_links(stacks, eco), ","@)),
        "SCHEME"@,
        "http"@,
    )
}

pub fn service_links_env(stacks: StackOpts, eco: EcosystemInstallChoice) -> (m: EnvMap)
    ensures
        m@ == links_env(stacks, eco),
{
    let links = build_service_links_csv(stacks, eco);
    let mut m = EnvMap::new();
    m.set("HOST", "");
    m.set("LINKS", links.as_str());
    m.set("SCHEME", "http");
    m
}

/// Error of `d2` / `d3` without a working Docker Engine.
pub open spec fn engine_missing_error(step: Seq<char>) -> ErrorView {
    message_error(step + " requires Docker Engine; run d0 first (or install Docker)"@)
}

pub fn require_engine(ready: bool, step: &str) -> (r: Result<(), HortoError>)
    ensures
        ready ==> r is Ok,
        !ready ==> (r matches Err(e) && e@ == engine_missing_error(step@)),
{
    if ready {
        return Ok(());
    }
    Err(HortoError::msg(concat2(step, " requires Docker Engine; run d0 first (or install Docker)").as_str()))
}

/// Warning of `d3` for a selected stack without a compose file.
pub open spec fn missing_compose_line(stack: Seq<char>, dir: Seq<char>) -> Seq<char> {
    "warning: "@ + stack + " compose missing under "@ + dir + "; skipping"@
}

pub fn missing_compose_warning(stack: &str, dir: &str) -> (r: String)
    ensures
        r@ == missing_compose_line(stack@, dir@),
{
    let mut l = concat3("warning: ", stack, " compose missing under ");
    l.append(dir);
    l.append("; skipping");
    l
}

/// Warning of `d3` when a stack failed to start (`d3` goes on).
pub open spec fn start_failed_line(stack: Seq<char>, reason: Seq<char>) -> Seq<char> {
    "warning: failed to start "@ + stack + ": "@ + reason + "; continuing"@
}

pub fn start_failed_warning(stack: &str, e: &HortoError) -> (r: String)
    ensures
        r@ == start_failed_line(stack@, error_text(e@)),
{
    let t = e.to_text();
    let mut l = concat3("warning: failed to start ", stack, ": ");
    l.append(t.as_str());
    l.append("; continuing");
    l
}

/// Where the piper voice models are downloaded from.
pub const PIPER_MODELS_URL: &'static str = "https://github.com/Hanzo-Huang/rk3576-home-assistant-voice/releases/download/models-v1/piper-rk3576-models.tar.gz";

/// File name of the downloaded piper models archive.
pub const PIPER_ARCHIVE_NAME: &'static str = "piper-rk3576-models.tar.gz";

/// Download directory of the piper models under the docker root.
pub open spec fn piper_dir_of(docker: Seq<char>) -> Seq<char> {
    join_path(docker, "docker_repos/piper"@)
}

pub fn piper_dir(docker: &str) -> (r: String)
    ensures
        r@ == piper_dir_of(docker@),
{
    path_join(docker, "docker_repos/piper")
}

/// The line logged after unpacking the piper models into `root`: success,
/// a non-zero `tar` exit, or `tar` not running at all.
pub open spec fn extract_line(l: Seq<char>, root: Seq<char>) -> bool {
    ||| l == "Piper models extracted under "@ + root + "."@
    ||| exists|code: int|
        l == "warning: piper model extract failed (tar exit "@ + #[trigger] int_text(code)
            + "); continuing without models"@
    ||| exists|t: Seq<char>|
        l == #[trigger] extract_failed_line(t)
}

pub open spec fn extract_failed_line(reason: Seq<char>) -> Seq<char> {
    "warning: piper model extract failed ("@ + reason + "); continuing without models"@
}

/// The `tar -xzf <archive> -C <root>` request.
pub open spec fn piper_tar_request(archive: Seq<char>, root: Seq<char>) -> CallView {
    call("tar"@, seq!["-xzf"@, archive, "-C"@, root], seq![], StdioMode::Inherit)
}

/// The `wget -O <archive> <models url>` request.
pub open spec fn piper_wget_request(archive: Seq<char>) -> CallView {
    call("wget"@, seq!["-O"@, archive, PIPER_MODELS_URL@], seq![], StdioMode::Inherit)
}

/// The line logged for a `tar` reply.
pub open spec fn extract_line_of(reply: Result<OutputView, ErrorView>, root: Seq<char>) -> Seq<char> {
    match reply {
        Ok(o) => if o.status == 0 {
            "Piper models extracted under "@ + root + "."@
        } else {
            "warning: piper model extract failed (tar exit "@ + int_text(o.status as int)
                + "); continuing without models"@
        },
        Err(x) => extract_failed_line(error_text(x)),
    }
}

/// Whether `t` is exactly the calls of [`download_piper_models`] and `last`
/// its final log line: `wget` of the archive, then `tar` only when the
/// download succeeded.
pub open spec fn piper_calls(t: Seq<Entry>, archive: Seq<char>, root: Seq<char>, last: Seq<char>) -> bool {
    &&& t.len() >= 1
    &&& t[0].0 == piper_wget_request(archive)
    &&& if reply_ok(t[0].1) {
        t.len() == 2 && t[1].0 == piper_tar_request(archive, root) && last == extract_line_of(t[1].1, root)
    } else {
        t.len() == 1 && last == download_failed_line()
    }
}

/// Line logged when the download did not succeed.
pub open spec fn download_failed_line() -> Seq<char> {
    "warning: piper model download failed or wget missing; continuing without models"@
}

/// Unpack the piper models archive into the docker tree root (members such
/// as `piper/model/...` land beside the piper compose project); failures
/// only warn.
pub fn extract_piper_archive<R: ProcessRunner>(
    runs: &mut Runs<R>,
    journal: &mut StepJournal,
    archive: &str,
    root: &str,
)
    ensures
        final(journal)@.logs.len() == old(journal)@.logs.len() + 1,
        final(journal)@.logs.drop_last() == old(journal)@.logs,
        extract_line(final(journal)@.logs.last(), root@),
        final(journal)@.planned == old(journal)@.planned,
        exists|reply: Result<OutputView, ErrorView>|
            #[trigger] old(runs).runner().may_reply(piper_tar_request(archive@, root@), reply)
                && final(journal)@.logs.last() == extract_line_of(reply, root@),
        final(runs).runner() == old(runs).runner(),
        log_grows(old(runs).log(), final(runs).log()),
        ({
            let t = calls_between(old(runs).log(), final(runs).log());
            &&& t.len() == 1
            &&& t[0].0 == piper_tar_request(archive@, root@)
            &&& final(journal)@.logs.last() == extract_line_of(t[0].1, root@)
        }),
{
    let ghost runner = runs.runner();
    let ghost lr0 = runs.log();
    let mut args: Vec<String> = Vec::new();
    args.push(owned("-xzf"));
    args.push(owned(archive));
    args.push(owned("-C"));
    args.push(owned(root));
    let refs = str_refs(&args);
    let env: Vec<(&str, &str)> = Vec::new();
    assert(ref_pair_views(env@) =~= seq![]);
    assert(sviews(args@) =~= seq!["-xzf"@, archive@, "-C"@, root@]);
    let ghost l0 = journal@.logs;
    let res = runs.run("tar", refs.as_slice(), env.as_slice(), StdioMode::Inherit);
    let ghost reply = reply_view(res);
    assert(runner.may_reply(piper_tar_request(archive@, root@), reply));
    assert(calls_between(lr0, runs.log()) =~= seq![(piper_tar_request(archive@, root@), reply)]);
    match res {
        Ok(out) => {
            if out.success() {
                journal.log(concat3("Piper models extracted under ", root, "."));
            } else {
                let code = int_to_string(out.status as i64);
                let l = concat3(
                    "warning: piper model extract failed (tar exit ",
                    code.as_str(),
                    "); continuing without models",
                );
                journal.log(l);
                assert(journal@.logs.last() == "warning: piper model extract failed (tar exit "@
                    + int_text(out.status as int) + "); continuing without models"@);
            }
        },
        Err(e) => {
            let t = e.to_text();
            let l = concat3(
                "warning: piper model extract failed (",
                t.as_str(),
                "); continuing without models",
            );
            journal.log(l);
            assert(journal@.logs.last() == extract_failed_line(t@));
        },
    }
    assert(journal@.logs.drop_last() =~= l0);
    assert(journal@.logs.last() == extract_line_of(reply, root@));
}

/// Download the piper models into `piper_dir` with `wget` and unpack them
/// into `root`; a failed download only warns.
pub fn download_piper_models<R: ProcessRunner>(
    runs: &mut Runs<R>,
    journal: &mut StepJournal,
    piper_dir: &str,
    root: &str,
)
    ensures
        final(journal)@.logs.len() == old(journal)@.logs.len() + 2,
        final(journal)@.logs.subrange(0, old(journal)@.logs.len() as int) == old(journal)@.logs,
        final(journal)@.logs[old(journal)@.logs.len() as int] == "Downloading piper models..."@,
        ({
            let l = final(journal)@.logs.last();
            l == "warning: piper model download failed or wget missing; continuing without models"@
                || extract_line(l, root@)
        }),
        final(journal)@.planned == old(journal)@.planned,
        ({
            let archive = join_path(piper_dir@, PIPER_ARCHIVE_NAME@);
            exists|w: Result<OutputView, ErrorView>|
                #[trigger] old(runs).runner().may_reply(piper_wget_request(archive), w) && if reply_ok(w) {
                    exists|t: Result<OutputView, ErrorView>|
                        #[trigger] old(runs).runner().may_reply(piper_tar_request(archive, root@), t)
                            && final(journal)@.logs.last() == extract_line_of(t, root@)
                } else {
                    final(journal)@.logs.last() == download_failed_line()
                }
        }),
        final(runs).runner() == old(runs).runner(),
        log_grows(old(runs).log(), final(runs).log()),
        piper_calls(
            calls_between(old(runs).log(), final(runs).log()),
            join_path(piper_dir@, PIPER_ARCHIVE_NAME@),
            root@,
            final(journal)@.logs.last(),
        ),
{
    let ghost runner = runs.runner();
    let ghost lr0 = runs.log();
    let ghost l0 = journal@.logs;
    let archive = path_join(piper_dir, PIPER_ARCHIVE_NAME);
    journal.log(owned("Downloading piper models..."));
    let ghost l1 = journal@.logs;
    let mut args: Vec<String> = Vec::new();
    args.push(owned("-O"));
    args.push(owned(archive.as_str()));
    args.push(owned(PIPER_MODELS_URL));
    let refs = str_refs(&args);
    let env: Vec<(&str, &str)> = Vec::new();
    assert(ref_pair_views(env@) =~= seq![]);
    assert(sviews(args@) =~= seq!["-O"@, archive@, PIPER_MODELS_URL@]);
    let res = runs.run("wget", refs.as_slice(), env.as_slice(), StdioMode::Inherit);
    let ghost w = reply_view(res);
    assert(runner.may_reply(piper_wget_request(archive@), w));
    let ghost lr1 = runs.log();
    assert(calls_between(lr0, lr1) =~= seq![(piper_wget_request(archive@), w)]);
    let ok = match res {
        Ok(out) => out.success(),
        Err(_) => false,
    };
    if ok {
        extract_piper_archive(runs, journal, archive.as_str(), root);
        proof {
            lemma_calls_concat(lr0, lr1, runs.log());
            let t = calls_between(lr0, runs.log());
            assert(t[0] == calls_between(lr0, lr1)[0]);
            assert(t[1] == calls_between(lr1, runs.log())[0]);
        }
    } else {
        journal.log(
            owned("warning: piper model download failed or wget missing; continuing without models"),
        );
    }
    assert(journal@.logs.drop_last() == l1);
    assert(l1 == l0.push("Downloading piper models..."@));
    assert(journal@.logs[l0.len() as int] == l1[l0.len() as int]);
    assert(journal@.logs.subrange(0, l0.len() as int) =~= l0);
}

/// After `d3` writes the filtered links for a selection
/// ([`service_links_env`]), its resume check ([`optional_stacks_done`])
/// counts every selected stack as started, whichever of them have compose
/// files, once the engine is ready.
#[verifier::spinoff_prover]
#[verifier::rlimit(40)]
pub proof fn law_written_links_mark_stacks_done(
    opts: StackOpts,
    eco: EcosystemInstallChoice,
    compose: Seq<bool>,
)
    requires
        compose.len() == selected_links(opts).len(),
    ensures
        optional_stacks_done_spec(
            true,
            true,
            env_get(links_env(opts, eco), "LINKS"@),
            Seq::new(compose.len(), |k: int| (selected_links(opts)[k].1, compose[k])),
        ),
{
    reveal_strlit("LINKS");
    reveal_strlit("SCHEME");
    reveal_strlit("HOST");
    let csv = join(service_links(opts, eco), ","@);
    let inner = env_set(env_set(seq![], "HOST"@, ""@), "LINKS"@, csv);
    assert("LINKS"@.len() == 5 && "SCHEME"@.len() == 6);
    assert("LINKS"@ != "SCHEME"@);
    assert(links_env(opts, eco) == env_set(inner, "SCHEME"@, "http"@));
    lemma_env_set_get(inner, "SCHEME"@, "http"@, "LINKS"@);
    lemma_env_set_get(env_set(seq![], "HOST"@, ""@), "LINKS"@, csv, "LINKS"@);
    assert(env_get(links_env(opts, eco), "LINKS"@) == Some(csv));
    let sel = selected_links(opts);
    let parts = service_links(opts, eco);
    let head: int = 2 + (if eco.status_api { 1int } else { 0 }) + (if eco.mcp { 1int } else { 0 });
    let stacks = Seq::new(compose.len(), |k: int| (selected_links(opts)[k].1, compose[k]));
    assert forall|k: int| 0 <= k < stacks.len() && (#[trigger] stacks[k]).1 implies (Some(csv) matches Some(l)
        && contains(lower(l), lower(link_name(stacks[k].0)))) by {
        let link = sel[k].1;
        assert(parts[head + k] == link);
        lemma_join_contains(parts, ","@, head + k);
        lemma_char_end_le(link, ':');
        lemma_contains_prefix(csv, link, char_end(link, ':') as int);
        lemma_contains_lower(csv, link_name(link));
    }
}

} // verus!
