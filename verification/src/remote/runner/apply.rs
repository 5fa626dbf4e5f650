//! Upload the remote CLI when stale, run commands, and install the payload.
//!
//! Local binaries are resolved by the caller (after [`super::probe::remote_probe_arch`]),
//! since that reads the local disk; everything else runs over the runner.
use vstd::prelude::*;
use crate::remote::process::{
    calls_between, lemma_calls_concat, lemma_split, log_grows, out_at, Entry, Runs,
};
use vstd::utf8::encode_utf8;
use crate::error::{message_error, ErrorView, HortoError};
use crate::remote::bins::LocalBins;
use crate::remote::ecosystem::{
    enable_script, remote_enable_ecosystem_script, EcosystemInstallChoice, API_TOKEN_DROP_BASENAME,
};
use crate::remote::host::host_spec_of;
use crate::remote::process::{
    checked_unit, failure_detail, output_detail, reply_view, unit_of, unit_view, CallInput,
    CommandOutput, OutputView, ProcessRunner, StdioMode,
};
use crate::remote::runner::options::{
    build_remote_command_sudo, cli_in, command_log, merge_command_log, remote_agent_bin,
    remote_command, remote_session, remote_sudo_kind, session_from, shell_quote, shell_quoted,
    sudo_kind_of, RemoteOptions, RemoteRunFlags, RemoteRunRequest,
    RemoteSudoKind,
};
use crate::remote::runner::probe::{
    cli_probe_gives, probe_calls, normalize_cli_version, normalized_version, probe_consistent, probe_remote_cli,
    status_label, CliProbeView, RemoteCliProbe,
};
use crate::remote::runner::token::{drop_token, parse_api_token_drop};
use crate::remote::ssh::{
    key_calls, key_install_gives, opt_str_view, opt_view, scp_request, ssh_calls, ssh_gives, ssh_request,
    SessionView, SshSession,
};
use crate::remote::transfer::{transfer_calls, transfer_files, transfer_gives};
use crate::secret::{redact_secret, redacted, wipe_secret};
use crate::stack_opts::StackOpts;
use crate::remote::runner::options::{quoted_all, sudo_words};
use crate::text::{has_prefix, join, lemma_join_front, lemma_join_starts, lemma_prefix_concat};
use crate::text::{
    all_hex, concat2, concat3, find_first_chars, find_str, from_chars, has_suffix, int_text,
    int_to_string, owned, seq_eq, slice_range, sviews, to_chars, trim, trim_chars,
    trim_end_char, trim_end_char_str, ends_with,
};
use crate::LONG_VERSION;

verus! {

/// Mathematical value of a string result.
pub open spec fn str_result(r: Result<String, HortoError>) -> Result<Seq<char>, ErrorView> {
    match r {
        Ok(s) => Ok(s@),
        Err(e) => Err(e@),
    }
}

/// Whether `r` is what [`upload_remote_cli`] gives when `runner` answers its
/// requests: `mkdir -p` of the agent dir, `scp` of the local CLI, `chmod +x`,
/// stopping at the first failure.
pub open spec fn upload_gives<R: ProcessRunner>(
    runner: R,
    s: SessionView,
    agent_dir: Seq<char>,
    local_cli: Seq<char>,
    r: Result<Seq<char>, ErrorView>,
) -> bool {
    exists|m: Result<OutputView, ErrorView>|
        #[trigger] ssh_gives(
            runner,
            s,
            "mkdir -p "@ + shell_quoted(agent_dir),
            CallInput::Stdio(StdioMode::Capture),
            m,
        ) && match m {
            Err(e) => r == Err::<Seq<char>, ErrorView>(e),
            Ok(_) => exists|c: Result<OutputView, ErrorView>|
                #[trigger] runner.may_reply(scp_request(s, local_cli, cli_in(agent_dir)), c)
                    && match checked_unit("scp"@, c) {
                    Err(e) => r == Err::<Seq<char>, ErrorView>(e),
                    Ok(_) => exists|x: Result<OutputView, ErrorView>|
                        #[trigger] ssh_gives(
                            runner,
                            s,
                            "chmod +x "@ + shell_quoted(cli_in(agent_dir)),
                            CallInput::Stdio(StdioMode::Capture),
                            x,
                        ) && r == match x {
                            Err(e) => Err::<Seq<char>, ErrorView>(e),
                            Ok(_) => Ok(cli_in(agent_dir)),
                        },
                },
        }
}

/// Whether `t` is exactly the calls of [`upload_remote_cli`] and `r` its
/// result: `mkdir -p`, one `scp` of the CLI, `chmod +x`, stopping at the
/// first failure.
pub open spec fn upload_calls(
    t: Seq<Entry>,
    s: SessionView,
    agent_dir: Seq<char>,
    local_cli: Seq<char>,
    r: Result<Seq<char>, ErrorView>,
) -> bool {
    &&& t.len() >= 1
    &&& t[0].0 == ssh_request(s, "mkdir -p "@ + shell_quoted(agent_dir), CallInput::Stdio(StdioMode::Capture))
    &&& match out_at(t, 0, "ssh"@) {
        Err(e) => t.len() == 1 && r == Err::<Seq<char>, ErrorView>(e),
        Ok(_) => {
            &&& t.len() >= 2
            &&& t[1].0 == scp_request(s, local_cli, cli_in(agent_dir))
            &&& match checked_unit("scp"@, t[1].1) {
                Err(e) => t.len() == 2 && r == Err::<Seq<char>, ErrorView>(e),
                Ok(_) => {
                    &&& t.len() == 3
                    &&& t[2].0 == ssh_request(
                        s,
                        "chmod +x "@ + shell_quoted(cli_in(agent_dir)),
                        CallInput::Stdio(StdioMode::Capture),
                    )
                    &&& r == match out_at(t, 2, "ssh"@) {
                        Err(e) => Err::<Seq<char>, ErrorView>(e),
                        Ok(_) => Ok(cli_in(agent_dir)),
                    }
                },
            }
        },
    }
}

/// Whether `t` is exactly the calls of [`maybe_install_key`]: none unless
/// the options ask for a key, else [`key_calls`].
pub open spec fn maybe_key_calls(t: Seq<Entry>, s: SessionView, opts: RemoteOptions, r: Result<(), ErrorView>) -> bool {
    if opts.install_ssh_key {
        key_calls(t, s, opt_view(opts.identity_pubkey), r)
    } else {
        t.len() == 0 && r is Ok
    }
}

/// Whether `t` is exactly the calls of [`ensure_remote_cli`] and `r` its
/// result: the probe, then the upload only when no current CLI was found.
pub open spec fn ensure_calls(
    t: Seq<Entry>,
    s: SessionView,
    opts: RemoteOptions,
    local_cli: Seq<char>,
    r: Result<Seq<char>, ErrorView>,
) -> bool {
    exists|k: int, p: CliProbeView|
        #![trigger probe_calls(t.subrange(0, k), s, opts.install_dir@, opts.remote_agent_dir@, p)]
        0 <= k <= t.len() && probe_calls(
            t.subrange(0, k),
            s,
            opts.install_dir@,
            opts.remote_agent_dir@,
            p,
        ) && if p.current && p.path is Some {
            k == t.len() && r == Ok::<Seq<char>, ErrorView>(p.path->0)
        } else {
            upload_calls(t.subrange(k, t.len() as int), s, opts.remote_agent_dir@, local_cli, r)
        }
}

/// Whether `t` is exactly the calls of [`prepare_remote_agent`] for a valid
/// host and `r` the box CLI path: [`ensure_calls`], then [`maybe_key_calls`].
pub open spec fn prepare_calls(
    t: Seq<Entry>,
    s: SessionView,
    opts: RemoteOptions,
    local_cli: Seq<char>,
    r: Result<Seq<char>, ErrorView>,
) -> bool {
    exists|k: int, e: Result<Seq<char>, ErrorView>|
        #![trigger ensure_calls(t.subrange(0, k), s, opts, local_cli, e)]
        0 <= k <= t.len() && ensure_calls(t.subrange(0, k), s, opts, local_cli, e) && match e {
            Err(x) => k == t.len() && r == Err::<Seq<char>, ErrorView>(x),
            Ok(b) => exists|kr: Result<(), ErrorView>|
                #[trigger] maybe_key_calls(t.subrange(k, t.len() as int), s, opts, kr) && r == match kr {
                    Err(x) => Err::<Seq<char>, ErrorView>(x),
                    Ok(_) => Ok(b),
                },
        }
}

/// Create the agent dir, copy the CLI there and make it executable.
pub fn upload_remote_cli<R: ProcessRunner>(
    runs: &mut Runs<R>,
    session: &SshSession,
    opts: &RemoteOptions,
    bins: &LocalBins,
) -> (r: Result<String, HortoError>)
    ensures
        r matches Ok(b) ==> b@ == cli_in(opts.remote_agent_dir@),
        upload_gives(old(runs).runner(), session@, opts.remote_agent_dir@, bins.cli@, str_result(r)),
        final(runs).runner() == old(runs).runner(),
        log_grows(old(runs).log(), final(runs).log()),
        upload_calls(
            calls_between(old(runs).log(), final(runs).log()),
            session@,
            opts.remote_agent_dir@,
            bins.cli@,
            str_result(r),
        ),
{
    let ghost runner = runs.runner();
    let ghost s = session@;
    let ghost l0 = runs.log();
    let dir_q = shell_quote(opts.remote_agent_dir.as_str());
    let mkdir = concat2("mkdir -p ", dir_q.as_str());
    let made = session.exec(runs, mkdir.as_str(), StdioMode::Capture);
    let ghost l1 = runs.log();
    assert(ssh_gives(runner, s, "mkdir -p "@ + shell_quoted(opts.remote_agent_dir@), CallInput::Stdio(StdioMode::Capture), reply_view(made)));
    if let Err(e) = made {
        return Err(e);
    }
    let remote_bin = remote_agent_bin(opts);
    let copied = session.scp_to(runs, bins.cli.as_str(), remote_bin.as_str());
    let ghost l2 = runs.log();
    proof {
        lemma_calls_concat(l0, l1, l2);
    }
    let ghost c = choose|c: Result<OutputView, ErrorView>|
        #[trigger] runner.may_reply(scp_request(s, bins.cli@, remote_bin@), c)
            && unit_view(copied) == checked_unit("scp"@, c);
    if let Err(e) = copied {
        return Err(e);
    }
    let bin_q = shell_quote(remote_bin.as_str());
    let chmod = concat2("chmod +x ", bin_q.as_str());
    let changed = session.exec(runs, chmod.as_str(), StdioMode::Capture);
    proof {
        lemma_calls_concat(l0, l2, runs.log());
    }
    assert(ssh_gives(runner, s, "chmod +x "@ + shell_quoted(cli_in(opts.remote_agent_dir@)), CallInput::Stdio(StdioMode::Capture), reply_view(changed)));
    if let Err(e) = changed {
        return Err(e);
    }
    Ok(remote_bin)
}

/// Opt-in: install the tip pubkey on the box (`ssh-copy-id`).
pub fn remote_ensure_ssh_key<R: ProcessRunner>(runs: &mut Runs<R>, opts: &RemoteOptions) -> (r: Result<
    (),
    HortoError,
>)
    ensures
        host_spec_of(opts.host@) matches Err(e) ==> r matches Err(e2) && e2@ == e,
        host_spec_of(opts.host@) is Ok ==> key_install_gives(
            old(runs).runner(),
            remote_session(*opts),
            opt_view(opts.identity_pubkey),
            unit_view(r),
        ),
        final(runs).runner() == old(runs).runner(),
        log_grows(old(runs).log(), final(runs).log()),
        host_spec_of(opts.host@) is Err ==> calls_between(old(runs).log(), final(runs).log()).len() == 0,
        host_spec_of(opts.host@) is Ok ==> key_calls(
            calls_between(old(runs).log(), final(runs).log()),
            remote_session(*opts),
            opt_view(opts.identity_pubkey),
            unit_view(r),
        ),
{
    let session = session_from(opts)?;
    let pubkey: Option<&str> = match &opts.identity_pubkey {
        Some(p) => Some(p.as_str()),
        None => None,
    };
    assert(opt_str_view(pubkey) == opt_view(opts.identity_pubkey));
    session.install_ssh_key(runs, pubkey)
}

/// Install the key when the options ask for it.
pub fn maybe_install_key<R: ProcessRunner>(
    runs: &mut Runs<R>,
    session: &SshSession,
    opts: &RemoteOptions,
) -> (r: Result<(), HortoError>)
    ensures
        !opts.install_ssh_key ==> r is Ok,
        opts.install_ssh_key ==> key_install_gives(
            old(runs).runner(),
            session@,
            opt_view(opts.identity_pubkey),
            unit_view(r),
        ),
        final(runs).runner() == old(runs).runner(),
        log_grows(old(runs).log(), final(runs).log()),
        maybe_key_calls(calls_between(old(runs).log(), final(runs).log()), session@, *opts, unit_view(r)),
{
    if opts.install_ssh_key {
        let pubkey: Option<&str> = match &opts.identity_pubkey {
            Some(p) => Some(p.as_str()),
            None => None,
        };
        assert(opt_str_view(pubkey) == opt_view(opts.identity_pubkey));
        return session.install_ssh_key(runs, pubkey);
    }
    Ok(())
}

/// Whether `r` is what [`remote_upload_cli`] gives for a valid host: the
/// upload ([`upload_gives`]), the key install when asked, then the probe.
pub open spec fn upload_then_probe_gives<R: ProcessRunner>(
    runner: R,
    opts: RemoteOptions,
    local_cli: Seq<char>,
    r: Result<RemoteCliProbe, HortoError>,
) -> bool {
    let s = remote_session(opts);
    exists|u: Result<Seq<char>, ErrorView>|
        #[trigger] upload_gives(runner, s, opts.remote_agent_dir@, local_cli, u) && match u {
            Err(e) => r matches Err(e2) && e2@ == e,
            Ok(_) => {
                let probed = r matches Ok(p) && cli_probe_gives(
                    runner,
                    s,
                    opts.install_dir@,
                    opts.remote_agent_dir@,
                    p@,
                );
                if opts.install_ssh_key {
                    exists|k: Result<(), ErrorView>|
                        #[trigger] key_install_gives(runner, s, opt_view(opts.identity_pubkey), k)
                            && match k {
                            Err(e) => r matches Err(e2) && e2@ == e,
                            Ok(_) => probed,
                        }
                } else {
                    probed
                }
            },
        }
}

/// Whether `t` is exactly the calls of [`remote_upload_cli`] for a valid host
/// and `r` its result: [`upload_calls`] (one `scp`, no version probe before
/// it), then [`maybe_key_calls`], then the CLI probe.
pub open spec fn upload_probe_calls(
    t: Seq<Entry>,
    opts: RemoteOptions,
    local_cli: Seq<char>,
    r: Result<RemoteCliProbe, HortoError>,
) -> bool {
    let s = remote_session(opts);
    exists|k1: int, u: Result<Seq<char>, ErrorView>|
        #![trigger upload_calls(t.subrange(0, k1), s, opts.remote_agent_dir@, local_cli, u)]
        0 <= k1 <= t.len() && upload_calls(t.subrange(0, k1), s, opts.remote_agent_dir@, local_cli, u)
            && match u {
            Err(e) => k1 == t.len() && (r matches Err(e2) && e2@ == e),
            Ok(_) => exists|k2: int, kr: Result<(), ErrorView>|
                #![trigger maybe_key_calls(t.subrange(k1, k2), s, opts, kr)]
                k1 <= k2 <= t.len() && maybe_key_calls(t.subrange(k1, k2), s, opts, kr) && match kr {
                    Err(e) => k2 == t.len() && (r matches Err(e2) && e2@ == e),
                    Ok(_) => r matches Ok(p) && probe_calls(
                        t.subrange(k2, t.len() as int),
                        s,
                        opts.install_dir@,
                        opts.remote_agent_dir@,
                        p@,
                    ),
                },
        }
}

/// Upload the PC CLI to the box agent dir (s0 / explicit sync), then probe it.
pub fn remote_upload_cli<R: ProcessRunner>(
    runs: &mut Runs<R>,
    opts: &RemoteOptions,
    bins: &LocalBins,
) -> (r: Result<RemoteCliProbe, HortoError>)
    ensures
        host_spec_of(opts.host@) matches Err(e) ==> r matches Err(e2) && e2@ == e,
        r matches Ok(p) ==> probe_consistent(p, opts.install_dir@, opts.remote_agent_dir@),
        host_spec_of(opts.host@) is Ok ==> upload_then_probe_gives(old(runs).runner(), *opts, bins.cli@, r),
        final(runs).runner() == old(runs).runner(),
        log_grows(old(runs).log(), final(runs).log()),
        host_spec_of(opts.host@) is Err ==> calls_between(old(runs).log(), final(runs).log()).len() == 0,
        host_spec_of(opts.host@) is Ok ==> upload_probe_calls(
            calls_between(old(runs).log(), final(runs).log()),
            *opts,
            bins.cli@,
            r,
        ),
{
    let ghost runner = runs.runner();
    let ghost l0 = runs.log();
    let session = session_from(opts)?;
    let ghost s = session@;
    assert(s == remote_session(*opts));
    let up = upload_remote_cli(runs, &session, opts, bins);
    let ghost l1 = runs.log();
    let ghost t1 = calls_between(l0, l1);
    let ghost uv = str_result(up);
    assert(upload_gives(runner, s, opts.remote_agent_dir@, bins.cli@, str_result(up)));
    assert(upload_calls(t1, s, opts.remote_agent_dir@, bins.cli@, uv));
    if let Err(e) = up {
        proof {
            assert(t1.subrange(0, t1.len() as int) =~= t1);
            assert(upload_calls(t1.subrange(0, t1.len() as int), s, opts.remote_agent_dir@, bins.cli@, uv));
        }
        return Err(e);
    }
    let keyed = maybe_install_key(runs, &session, opts);
    let ghost l2 = runs.log();
    let ghost t2 = calls_between(l1, l2);
    let ghost kv = unit_view(keyed);
    assert(maybe_key_calls(t2, s, *opts, kv));
    proof {
        lemma_calls_concat(l0, l1, l2);
        assert((t1 + t2).subrange(0, t1.len() as int) =~= t1);
        assert((t1 + t2).subrange(t1.len() as int, (t1 + t2).len() as int) =~= t2);
        assert(upload_calls((t1 + t2).subrange(0, t1.len() as int), s, opts.remote_agent_dir@, bins.cli@, uv));
    }
    if opts.install_ssh_key {
        assert(key_install_gives(runner, s, opt_view(opts.identity_pubkey), unit_view(keyed)));
    }
    if let Err(e) = keyed {
        proof {
            let t = t1 + t2;
            assert(maybe_key_calls(t.subrange(t1.len() as int, t.len() as int), s, *opts, kv));
        }
        return Err(e);
    }
    let probed = probe_remote_cli(runs, &session, opts);
    assert(probed matches Ok(p) && cli_probe_gives(runner, s, opts.install_dir@, opts.remote_agent_dir@, p@));
    proof {
        let l3 = runs.log();
        let t3 = calls_between(l2, l3);
        lemma_calls_concat(l0, l2, l3);
        let t = t1 + t2 + t3;
        assert(calls_between(l0, l3) =~= t);
        let k1 = t1.len() as int;
        let k2 = k1 + t2.len();
        assert(t.subrange(0, k1) =~= t1);
        assert(t.subrange(k1, k2) =~= t2);
        assert(t.subrange(k2, t.len() as int) =~= t3);
        assert(upload_calls(t.subrange(0, k1), s, opts.remote_agent_dir@, bins.cli@, uv));
        assert(maybe_key_calls(t.subrange(k1, k2), s, *opts, kv));
        assert(probed matches Ok(p) && probe_calls(t.subrange(k2, t.len() as int), s, opts.install_dir@, opts.remote_agent_dir@, p@));
    }
    probed
}

/// Whether `r` is what [`ensure_remote_cli`] gives when `runner` answers: the
/// probed binary when it is current, otherwise the upload of `local_cli`.
pub open spec fn ensure_cli_gives<R: ProcessRunner>(
    runner: R,
    s: SessionView,
    opts: RemoteOptions,
    local_cli: Seq<char>,
    r: Result<Seq<char>, ErrorView>,
) -> bool {
    exists|p: CliProbeView|
        #[trigger] cli_probe_gives(runner, s, opts.install_dir@, opts.remote_agent_dir@, p) && if p.current
            && p.path is Some {
            r == Ok::<Seq<char>, ErrorView>(p.path->0)
        } else {
            upload_gives(runner, s, opts.remote_agent_dir@, local_cli, r)
        }
}

/// Whether `r` (the box CLI path) is what [`prepare_remote_agent`] gives for a
/// valid host: [`ensure_cli_gives`], then the key install when asked.
pub open spec fn prepare_gives<R: ProcessRunner>(
    runner: R,
    opts: RemoteOptions,
    local_cli: Seq<char>,
    r: Result<Seq<char>, ErrorView>,
) -> bool {
    let s = remote_session(opts);
    exists|e: Result<Seq<char>, ErrorView>|
        #[trigger] ensure_cli_gives(runner, s, opts, local_cli, e) && match e {
            Err(x) => r == Err::<Seq<char>, ErrorView>(x),
            Ok(b) => if opts.install_ssh_key {
                exists|k: Result<(), ErrorView>|
                    #[trigger] key_install_gives(runner, s, opt_view(opts.identity_pubkey), k) && r
                        == match k {
                        Err(x) => Err::<Seq<char>, ErrorView>(x),
                        Ok(_) => Ok(b),
                    }
            } else {
                r == Ok::<Seq<char>, ErrorView>(b)
            },
        }
}

/// Ensure a current CLI on the box: reuse when version matches, otherwise SCP once.
pub fn ensure_remote_cli<R: ProcessRunner>(
    runs: &mut Runs<R>,
    session: &SshSession,
    opts: &RemoteOptions,
    bins: &LocalBins,
) -> (r: Result<String, HortoError>)
    ensures
        r matches Ok(b) ==> b@ == cli_in(opts.install_dir@) || b@ == cli_in(
            opts.remote_agent_dir@,
        ),
        ensure_cli_gives(old(runs).runner(), session@, *opts, bins.cli@, str_result(r)),
        final(runs).runner() == old(runs).runner(),
        log_grows(old(runs).log(), final(runs).log()),
        ensure_calls(calls_between(old(runs).log(), final(runs).log()), session@, *opts, bins.cli@, str_result(r)),
{
    let ghost runner = runs.runner();
    let ghost l0 = runs.log();
    let probed = probe_remote_cli(runs, session, opts);
    let ghost l1 = runs.log();
    let ghost t1 = calls_between(l0, l1);
    let probe = match probed {
        Ok(p) => p,
        Err(e) => {
            return Err(e);
        },
    };
    let ghost pv = probe@;
    assert(cli_probe_gives(runner, session@, opts.install_dir@, opts.remote_agent_dir@, probe@));
    assert(probe_calls(t1, session@, opts.install_dir@, opts.remote_agent_dir@, pv));
    if probe.current {
        if let Some(path) = probe.path {
            proof {
                assert(t1.subrange(0, t1.len() as int) =~= t1);
                assert(probe_calls(t1.subrange(0, t1.len() as int), session@, opts.install_dir@, opts.remote_agent_dir@, pv));
            }
            return Ok(path);
        }
    }
    let up = upload_remote_cli(runs, session, opts, bins);
    proof {
        lemma_calls_concat(l0, l1, runs.log());
        let t2 = calls_between(l1, runs.log());
        lemma_split(t1, t2);
        let t = t1 + t2;
        assert(probe_calls(t.subrange(0, t1.len() as int), session@, opts.install_dir@, opts.remote_agent_dir@, pv));
        assert(upload_calls(t.subrange(t1.len() as int, t.len() as int), session@, opts.remote_agent_dir@, bins.cli@, str_result(up)));
    }
    up
}

/// Open the session, make sure a current CLI is on the box, install the key
/// when asked; returns the session and the box CLI path.
pub fn prepare_remote_agent<R: ProcessRunner>(
    runs: &mut Runs<R>,
    opts: &RemoteOptions,
    bins: &LocalBins,
) -> (r: Result<(SshSession, String), HortoError>)
    ensures
        host_spec_of(opts.host@) matches Err(e) ==> r matches Err(e2) && e2@ == e,
        r matches Ok(p) ==> p.1@ == cli_in(opts.install_dir@) || p.1@ == cli_in(
            opts.remote_agent_dir@,
        ),
        r matches Ok(p) ==> p.0@ == remote_session(*opts),
        host_spec_of(opts.host@) is Ok ==> prepare_gives(
            old(runs).runner(),
            *opts,
            bins.cli@,
            match r {
                Ok(p) => Ok(p.1@),
                Err(e) => Err(e@),
            },
        ),
        final(runs).runner() == old(runs).runner(),
        log_grows(old(runs).log(), final(runs).log()),
        host_spec_of(opts.host@) is Err ==> calls_between(old(runs).log(), final(runs).log()).len() == 0,
        host_spec_of(opts.host@) is Ok ==> prepare_calls(
            calls_between(old(runs).log(), final(runs).log()),
            remote_session(*opts),
            *opts,
            bins.cli@,
            match r {
                Ok(p) => Ok(p.1@),
                Err(e) => Err(e@),
            },
        ),
{
    let ghost runner = runs.runner();
    let ghost l0 = runs.log();
    let session = session_from(opts)?;
    let ghost s = session@;
    let ensured = ensure_remote_cli(runs, &session, opts, bins);
    let ghost l1 = runs.log();
    let ghost t1 = calls_between(l0, l1);
    let ghost ev = str_result(ensured);
    assert(ensure_cli_gives(runner, s, *opts, bins.cli@, str_result(ensured)));
    assert(ensure_calls(t1, s, *opts, bins.cli@, ev));
    let remote_bin = match ensured {
        Ok(b) => b,
        Err(e) => {
            proof {
                assert(t1.subrange(0, t1.len() as int) =~= t1);
                assert(ensure_calls(t1.subrange(0, t1.len() as int), s, *opts, bins.cli@, ev));
            }
            return Err(e);
        },
    };
    let keyed = maybe_install_key(runs, &session, opts);
    proof {
        lemma_calls_concat(l0, l1, runs.log());
        let t2 = calls_between(l1, runs.log());
        lemma_split(t1, t2);
        let t = t1 + t2;
        assert(ensure_calls(t.subrange(0, t1.len() as int), s, *opts, bins.cli@, ev));
        assert(maybe_key_calls(t.subrange(t1.len() as int, t.len() as int), s, *opts, unit_view(keyed)));
    }
    if opts.install_ssh_key {
        assert(key_install_gives(runner, s, opt_view(opts.identity_pubkey), unit_view(keyed)));
    }
    if let Err(e) = keyed {
        return Err(e);
    }
    Ok((session, remote_bin))
}

/// Result of a remote CLI run (log text plus optional captured status-api bearer).
#[derive(Debug, Clone, PartialEq, Eq)]
pub struct RemoteRunOutcome {
    /// Merged remote stdout/stderr (or a short finished marker when Inherit was empty).
    pub log: String,
    /// Hex bearer from payload install, when captured from the box drop file.
    pub api_token: Option<String>,
}

impl Default for RemoteRunOutcome {
    fn default() -> (o: Self)
        ensures
            o.log@ == Seq::<char>::empty(),
            o.api_token is None,
    {
        RemoteRunOutcome { log: String::new(), api_token: None }
    }
}

/// Flags only the tip CLI understands.
pub open spec fn tip_only_flag(s: Seq<char>) -> bool {
    ||| s == "--install-status-api"@
    ||| s == "--no-install-status-api"@
    ||| s == "--install-mcp"@
    ||| s == "--no-install-mcp"@
    ||| s == "--stacks"@
    ||| crate::text::has_prefix(s, "--stacks="@)
}

/// `args` without tip-only flags, order kept.
pub open spec fn portable_args(args: Seq<Seq<char>>) -> Seq<Seq<char>>
    decreases args.len(),
{
    if args.len() == 0 {
        seq![]
    } else if tip_only_flag(args.last()) {
        portable_args(args.drop_last())
    } else {
        portable_args(args.drop_last()).push(args.last())
    }
}

/// Drop tip-only globals so an older box agent can still parse argv.
pub fn strip_tip_only_cli_flags(args: &[String]) -> (r: Vec<String>)
    ensures
        sviews(r@) == portable_args(sviews(args@)),
{
    let f1 = to_chars("--install-status-api");
    let f2 = to_chars("--no-install-status-api");
    let f3 = to_chars("--install-mcp");
    let f4 = to_chars("--no-install-mcp");
    let f5 = to_chars("--stacks");
    let f6 = to_chars("--stacks=");
    let mut out: Vec<String> = Vec::new();
    let mut i: usize = 0;
    assert(sviews(args@).subrange(0, 0) =~= Seq::<Seq<char>>::empty());
    while i < args.len()
        invariant
            i <= args@.len(),
            f1@ == "--install-status-api"@,
            f2@ == "--no-install-status-api"@,
            f3@ == "--install-mcp"@,
            f4@ == "--no-install-mcp"@,
            f5@ == "--stacks"@,
            f6@ == "--stacks="@,
            sviews(out@) == portable_args(sviews(args@).subrange(0, i as int)),
        decreases args@.len() - i,
    {
        let c = to_chars(args[i].as_str());
        let ghost sub = sviews(args@).subrange(0, i + 1);
        assert(sub.drop_last() =~= sviews(args@).subrange(0, i as int));
        assert(sub.last() == c@);
        let tip = seq_eq(c.as_slice(), f1.as_slice()) || seq_eq(c.as_slice(), f2.as_slice())
            || seq_eq(c.as_slice(), f3.as_slice()) || seq_eq(c.as_slice(), f4.as_slice())
            || seq_eq(c.as_slice(), f5.as_slice()) || crate::text::starts_with(
            c.as_slice(),
            f6.as_slice(),
        );
        if !tip {
            let ghost o0 = sviews(out@);
            out.push(owned(args[i].as_str()));
            assert(sviews(out@) =~= o0.push(c@));
        }
        i = i + 1;
    }
    assert(sviews(args@).subrange(0, i as int) =~= sviews(args@));
    out
}

/// Refusal text for a box CLI that is not the tip build.
pub open spec fn stale_cli_text(label: Seq<char>) -> Seq<char> {
    "Box CLI is out of date (box="@ + label + ", tip="@ + LONG_VERSION@
        + "). Sync CLI first, refresh tip release or set HORTO_BIN_DIR to matching bins, or allow an old CLI."@
}

pub fn stale_cli_error(box_label: &str) -> (e: HortoError)
    ensures
        e@ == message_error(stale_cli_text(box_label@)),
{
    let mut m = concat3("Box CLI is out of date (box=", box_label, ", tip=");
    m.append(LONG_VERSION);
    m.append(
        "). Sync CLI first, refresh tip release or set HORTO_BIN_DIR to matching bins, or allow an old CLI.",
    );
    HortoError::msg(m.as_str())
}

/// Label of a box CLI in the stale refusal: its version, else its status.
pub open spec fn probe_label(p: CliProbeView) -> Seq<char> {
    match p.version {
        Some(v) => v,
        None => status_label(p.status),
    }
}

/// The argv actually sent: unchanged for a current CLI, tip-only flags dropped otherwise.
pub open spec fn sent_args(current: bool, args: Seq<Seq<char>>) -> Seq<Seq<char>> {
    if current {
        args
    } else {
        portable_args(args)
    }
}

/// What the remote command is fed: the password line for `sudo -S`, else
/// captured or inherited stdio.
pub open spec fn run_input(kind: RemoteSudoKind, pw: Option<Seq<char>>, capture: bool) -> CallInput {
    match kind {
        RemoteSudoKind::Stdin => CallInput::Stdin(
            encode_utf8(
                match pw {
                    Some(p) => p,
                    None => Seq::<char>::empty(),
                } + "\n"@,
            ),
        ),
        _ => CallInput::Stdio(
            if capture {
                StdioMode::Capture
            } else {
                StdioMode::Inherit
            },
        ),
    }
}

/// The remote command of a sudo run begins with `sudo -S -p ''` and the
/// binary when a non-empty password is known, and the call is fed that
/// password and a newline on stdin; an empty password gives `sudo -n` with
/// nothing fed; no password gives plain `sudo` (it prompts on the terminal);
/// without sudo the command is the binary itself and the password is not fed.
pub proof fn law_sudo_password_goes_to_stdin(
    bin: Seq<char>,
    args: Seq<Seq<char>>,
    pw: Seq<char>,
    capture: bool,
)
    ensures
        pw.len() > 0 ==> has_prefix(
            remote_command(bin, args, sudo_kind_of(true, Some(pw))),
            "sudo -S -p '' "@ + shell_quoted(bin),
        ),
        pw.len() > 0 ==> run_input(sudo_kind_of(true, Some(pw)), Some(pw), capture) == CallInput::Stdin(
            encode_utf8(pw + "\n"@),
        ),
        has_prefix(
            remote_command(bin, args, sudo_kind_of(true, Some(Seq::<char>::empty()))),
            "sudo -n "@ + shell_quoted(bin),
        ),
        run_input(sudo_kind_of(true, Some(Seq::<char>::empty())), Some(Seq::<char>::empty()), capture) is Stdio,
        has_prefix(remote_command(bin, args, sudo_kind_of(true, None)), "sudo "@ + shell_quoted(bin)),
        has_prefix(remote_command(bin, args, sudo_kind_of(false, Some(pw))), shell_quoted(bin)),
        run_input(sudo_kind_of(false, Some(pw)), Some(pw), capture) is Stdio,
{
    reveal_strlit("sudo");
    reveal_strlit("-S");
    reveal_strlit("-p");
    reveal_strlit("''");
    reveal_strlit("-n");
    reveal_strlit(" ");
    reveal_strlit("sudo -S -p '' ");
    reveal_strlit("sudo -n ");
    reveal_strlit("sudo ");
    let q = shell_quoted(bin);
    let tail = seq![q] + quoted_all(args);
    lemma_join_starts(tail, " "@);
    assert(tail[0] == q);
    if pw.len() > 0 {
        let ws = sudo_words(RemoteSudoKind::Stdin) + seq![q] + quoted_all(args);
        lemma_join_front(ws, " "@);
        lemma_join_front(ws.drop_first(), " "@);
        lemma_join_front(ws.drop_first().drop_first(), " "@);
        lemma_join_front(ws.drop_first().drop_first().drop_first(), " "@);
        assert(ws.drop_first().drop_first().drop_first().drop_first() =~= tail);
        let c = join(ws, " "@);
        assert(c =~= "sudo"@ + " "@ + ("-S"@ + " "@ + ("-p"@ + " "@ + ("''"@ + " "@ + join(tail, " "@)))));
        assert(c =~= "sudo -S -p '' "@ + join(tail, " "@));
        lemma_prefix_concat("sudo -S -p '' "@, join(tail, " "@), q);
    }
    {
        let ws = sudo_words(RemoteSudoKind::NonInteractive) + seq![q] + quoted_all(args);
        lemma_join_front(ws, " "@);
        lemma_join_front(ws.drop_first(), " "@);
        assert(ws.drop_first().drop_first() =~= tail);
        let c = join(ws, " "@);
        assert(c =~= "sudo -n "@ + join(tail, " "@));
        lemma_prefix_concat("sudo -n "@, join(tail, " "@), q);
    }
    assert(sudo_words(RemoteSudoKind::Off) + seq![q] + quoted_all(args) =~= tail);
    {
        let ws = sudo_words(RemoteSudoKind::Prompt) + seq![q] + quoted_all(args);
        lemma_join_front(ws, " "@);
        assert(ws.drop_first() =~= tail);
        let c = join(ws, " "@);
        assert(c =~= "sudo "@ + join(tail, " "@));
        lemma_prefix_concat("sudo "@, join(tail, " "@), q);
    }
}

/// The secret redacted from the log (empty without a password).
pub open spec fn pw_text(pw: Option<Seq<char>>) -> Seq<char> {
    match pw {
        Some(p) => p,
        None => Seq::<char>::empty(),
    }
}

/// After the command ran with output `o`: the redacted log, then the payload
/// install when asked, whose token is returned.
pub open spec fn run_finish_gives<R: ProcessRunner>(
    runner: R,
    opts: RemoteOptions,
    flags: RemoteRunFlags,
    eco: EcosystemInstallChoice,
    pw: Option<Seq<char>>,
    bins: LocalBins,
    log: Seq<char>,
    r: Result<RemoteRunOutcome, HortoError>,
) -> bool {
    if flags.install_payload_on_success && (eco.status_api || eco.mcp) {
        exists|t: Result<Option<Seq<char>>, ErrorView>|
            #[trigger] install_payload_gives(runner, opts, bins, eco, pw, t) && match t {
                Err(e) => r matches Err(e2) && e2@ == e,
                Ok(tok) => r matches Ok(x) && x.log@ == log && opt_view(x.api_token) == tok,
            }
    } else {
        r matches Ok(x) && x.log@ == log && x.api_token is None
    }
}

/// Whether `r` is what [`remote_run_cli`] gives for a valid host when `runner`
/// answers: prepare the agent ([`prepare_gives`]), probe the CLI, refuse a
/// stale one unless allowed, run the command (tip-only flags dropped for a
/// stale CLI), redact the password from its log, then install the payload
/// when asked.
pub open spec fn run_cli_gives<R: ProcessRunner>(
    runner: R,
    opts: RemoteOptions,
    args: Seq<Seq<char>>,
    flags: RemoteRunFlags,
    eco: EcosystemInstallChoice,
    pw: Option<Seq<char>>,
    bins: LocalBins,
    r: Result<RemoteRunOutcome, HortoError>,
) -> bool {
    let s = remote_session(opts);
    exists|pr: Result<Seq<char>, ErrorView>|
        #[trigger] prepare_gives(runner, opts, bins.cli@, pr) && match pr {
            Err(e) => r matches Err(e2) && e2@ == e,
            Ok(bin) => exists|p: CliProbeView|
                #[trigger] cli_probe_gives(runner, s, opts.install_dir@, opts.remote_agent_dir@, p)
                    && run_after_probe_gives(runner, opts, args, flags, eco, pw, bins, bin, p, r),
        }
}

/// After the probe `p`: the stale refusal, or the command on `bin`.
pub open spec fn run_after_probe_gives<R: ProcessRunner>(
    runner: R,
    opts: RemoteOptions,
    args: Seq<Seq<char>>,
    flags: RemoteRunFlags,
    eco: EcosystemInstallChoice,
    pw: Option<Seq<char>>,
    bins: LocalBins,
    bin: Seq<char>,
    p: CliProbeView,
    r: Result<RemoteRunOutcome, HortoError>,
) -> bool {
    if !p.current && !flags.allow_stale_cli {
        r matches Err(e2) && e2@ == message_error(stale_cli_text(probe_label(p)))
    } else {
        let kind = sudo_kind_of(flags.use_sudo, pw);
        run_command_gives(
            runner,
            opts,
            flags,
            eco,
            pw,
            bins,
            remote_command(bin, sent_args(p.current, args), kind),
            run_input(kind, pw, flags.capture_output || pw is Some),
            r,
        )
    }
}

/// Running `cmd` over ssh, then [`run_finish_gives`] with its redacted log.
pub open spec fn run_command_gives<R: ProcessRunner>(
    runner: R,
    opts: RemoteOptions,
    flags: RemoteRunFlags,
    eco: EcosystemInstallChoice,
    pw: Option<Seq<char>>,
    bins: LocalBins,
    cmd: Seq<char>,
    input: CallInput,
    r: Result<RemoteRunOutcome, HortoError>,
) -> bool {
    exists|out: Result<OutputView, ErrorView>|
        #[trigger] ssh_gives(runner, remote_session(opts), cmd, input, out) && match out {
            Err(e) => r matches Err(e2) && e2@ == e,
            Ok(o) => run_finish_gives(
                runner,
                opts,
                flags,
                eco,
                pw,
                bins,
                redacted(command_log(o, cmd), pw_text(pw)),
                r,
            ),
        }
}

/// Whether `t` is exactly the calls [`remote_run_cli`] makes once the probe
/// gave `p` and the agent is at `bin`, and `r` its result: nothing for a
/// refused stale CLI; else the command over ssh, then, when asked, the
/// payload install ([`install_payload_calls`]) and nothing else.
pub open spec fn run_rest_calls(
    t: Seq<Entry>,
    opts: RemoteOptions,
    args: Seq<Seq<char>>,
    flags: RemoteRunFlags,
    eco: EcosystemInstallChoice,
    pw: Option<Seq<char>>,
    bins: LocalBins,
    bin: Seq<char>,
    p: CliProbeView,
    r: Result<RemoteRunOutcome, HortoError>,
) -> bool {
    if !p.current && !flags.allow_stale_cli {
        t.len() == 0 && (r matches Err(e2) && e2@ == message_error(stale_cli_text(probe_label(p))))
    } else {
        let kind = sudo_kind_of(flags.use_sudo, pw);
        let cmd = remote_command(bin, sent_args(p.current, args), kind);
        &&& t.len() >= 1
        &&& t[0].0 == ssh_request(
            remote_session(opts),
            cmd,
            run_input(kind, pw, flags.capture_output || pw is Some),
        )
        &&& match out_at(t, 0, "ssh"@) {
            Err(e) => t.len() == 1 && (r matches Err(e2) && e2@ == e),
            Ok(o) => {
                let log = redacted(command_log(o, cmd), pw_text(pw));
                if flags.install_payload_on_success && (eco.status_api || eco.mcp) {
                    exists|tk: Result<Option<Seq<char>>, ErrorView>|
                        #[trigger] install_payload_calls(t.subrange(1, t.len() as int), opts, bins, eco, pw, tk)
                            && match tk {
                            Err(e) => r matches Err(e2) && e2@ == e,
                            Ok(tok) => r matches Ok(x) && x.log@ == log && opt_view(x.api_token) == tok,
                        }
                } else {
                    t.len() == 1 && (r matches Ok(x) && x.log@ == log && x.api_token is None)
                }
            },
        }
    }
}

/// Whether `t` is exactly the calls of [`remote_run_cli`] for a valid host and
/// `r` its result: [`prepare_calls`], then the CLI probe, then
/// [`run_rest_calls`].
pub open spec fn run_cli_calls(
    t: Seq<Entry>,
    opts: RemoteOptions,
    args: Seq<Seq<char>>,
    flags: RemoteRunFlags,
    eco: EcosystemInstallChoice,
    pw: Option<Seq<char>>,
    bins: LocalBins,
    r: Result<RemoteRunOutcome, HortoError>,
) -> bool {
    let s = remote_session(opts);
    exists|k1: int, pr: Result<Seq<char>, ErrorView>|
        #![trigger prepare_calls(t.subrange(0, k1), s, opts, bins.cli@, pr)]
        0 <= k1 <= t.len() && prepare_calls(t.subrange(0, k1), s, opts, bins.cli@, pr) && match pr {
            Err(e) => k1 == t.len() && (r matches Err(e2) && e2@ == e),
            Ok(bin) => exists|k2: int, p: CliProbeView|
                #![trigger probe_calls(t.subrange(k1, k2), s, opts.install_dir@, opts.remote_agent_dir@, p)]
                k1 <= k2 <= t.len() && probe_calls(
                    t.subrange(k1, k2),
                    s,
                    opts.install_dir@,
                    opts.remote_agent_dir@,
                    p,
                ) && run_rest_calls(t.subrange(k2, t.len() as int), opts, args, flags, eco, pw, bins, bin, p, r),
        }
}

/// A box CLI that is stale when that is not allowed is refused with the
/// out-of-date error, and nothing runs after the probe that found it.
pub proof fn law_stale_refusal_runs_nothing(
    t: Seq<Entry>,
    opts: RemoteOptions,
    args: Seq<Seq<char>>,
    flags: RemoteRunFlags,
    eco: EcosystemInstallChoice,
    pw: Option<Seq<char>>,
    bins: LocalBins,
    bin: Seq<char>,
    p: CliProbeView,
    r: Result<RemoteRunOutcome, HortoError>,
)
    requires
        run_rest_calls(t, opts, args, flags, eco, pw, bins, bin, p, r),
        !p.current,
        !flags.allow_stale_cli,
    ensures
        t.len() == 0,
        r matches Err(e) && e@ == message_error(stale_cli_text(probe_label(p))),
{
}

/// A run that succeeds without a payload install makes exactly one call
/// after the probe: the command itself over `ssh` (no `scp`, no `rsync`).
pub proof fn law_plain_run_is_one_ssh_call(
    t: Seq<Entry>,
    opts: RemoteOptions,
    args: Seq<Seq<char>>,
    flags: RemoteRunFlags,
    eco: EcosystemInstallChoice,
    pw: Option<Seq<char>>,
    bins: LocalBins,
    bin: Seq<char>,
    p: CliProbeView,
    r: Result<RemoteRunOutcome, HortoError>,
)
    requires
        run_rest_calls(t, opts, args, flags, eco, pw, bins, bin, p, r),
        p.current || flags.allow_stale_cli,
        !(flags.install_payload_on_success && (eco.status_api || eco.mcp)),
    ensures
        t.len() == 1,
        t[0].0.program == "ssh"@,
{
}

/// Gluing the three stages of [`run_cli_calls`].
proof fn lemma_run_cli_calls(
    t1: Seq<Entry>,
    t2: Seq<Entry>,
    t3: Seq<Entry>,
    opts: RemoteOptions,
    args: Seq<Seq<char>>,
    flags: RemoteRunFlags,
    eco: EcosystemInstallChoice,
    pw: Option<Seq<char>>,
    bins: LocalBins,
    bin: Seq<char>,
    p: CliProbeView,
    r: Result<RemoteRunOutcome, HortoError>,
)
    requires
        prepare_calls(t1, remote_session(opts), opts, bins.cli@, Ok::<Seq<char>, ErrorView>(bin)),
        probe_calls(t2, remote_session(opts), opts.install_dir@, opts.remote_agent_dir@, p),
        run_rest_calls(t3, opts, args, flags, eco, pw, bins, bin, p, r),
    ensures
        run_cli_calls(t1 + t2 + t3, opts, args, flags, eco, pw, bins, r),
{
    let t = t1 + t2 + t3;
    let k1 = t1.len() as int;
    let k2 = k1 + t2.len();
    assert(t.subrange(0, k1) =~= t1);
    assert(t.subrange(k1, k2) =~= t2);
    assert(t.subrange(k2, t.len() as int) =~= t3);
    let s = remote_session(opts);
    assert(prepare_calls(t.subrange(0, k1), s, opts, bins.cli@, Ok::<Seq<char>, ErrorView>(bin)));
    assert(probe_calls(t.subrange(k1, k2), s, opts.install_dir@, opts.remote_agent_dir@, p));
}

/// A copy of `v`.
fn copy_strings(v: &[String]) -> (r: Vec<String>)
    ensures
        sviews(r@) == sviews(v@),
{
    let mut r: Vec<String> = Vec::new();
    let mut i: usize = 0;
    while i < v.len()
        invariant
            i <= v@.len(),
            sviews(r@) == sviews(v@).subrange(0, i as int),
        decreases v@.len() - i,
    {
        let ghost r0 = sviews(r@);
        r.push(owned(v[i].as_str()));
        assert(sviews(r@) =~= r0.push(v@[i as int]@));
        assert(sviews(v@).subrange(0, i + 1) =~= sviews(v@).subrange(0, i as int).push(
            v@[i as int]@,
        ));
        i = i + 1;
    }
    assert(sviews(v@).subrange(0, i as int) =~= sviews(v@));
    r
}

/// Upload the CLI agent (if needed), optionally install a public key, run a remote CLI command.
///
/// Refuses when the box CLI long-version does not match tip [`LONG_VERSION`], unless
/// [`RemoteRunFlags::allow_stale_cli`] is set. With allow + stale, tip-only argv flags
/// (`--install-*` / `--stacks`) are stripped so older agents can still parse.
/// A sudo password goes to `sudo -S` on stdin and is wiped after use and
/// redacted from the returned log. The reboot offer is the caller's (it needs a TTY).
pub fn remote_run_cli<R: ProcessRunner>(
    runs: &mut Runs<R>,
    req: &RemoteRunRequest,
    bins: &LocalBins,
) -> (r: Result<RemoteRunOutcome, HortoError>)
    ensures
        host_spec_of(req.options.host@) matches Err(e) ==> r matches Err(e2) && e2@ == e,
        r matches Ok(o) ==> exists|ov: OutputView, cmd: Seq<char>|
            o.log@ == redacted(
                command_log(ov, cmd),
                match req.sudo_password {
                    Some(p) => p@,
                    None => Seq::<char>::empty(),
                },
            ),
        r matches Ok(o) ==> (!(req.flags.install_payload_on_success && (req.ecosystem.status_api
            || req.ecosystem.mcp)) ==> o.api_token is None),
        r matches Ok(o) ==> (o.api_token is Some ==> req.ecosystem.status_api),
        host_spec_of(req.options.host@) is Ok ==> run_cli_gives(
            old(runs).runner(),
            req.options,
            sviews(req.cli_args@),
            req.flags,
            req.ecosystem,
            opt_view(req.sudo_password),
            *bins,
            r,
        ),
        final(runs).runner() == old(runs).runner(),
        log_grows(old(runs).log(), final(runs).log()),
        host_spec_of(req.options.host@) is Err ==> calls_between(old(runs).log(), final(runs).log()).len() == 0,
        host_spec_of(req.options.host@) is Ok ==> run_cli_calls(
            calls_between(old(runs).log(), final(runs).log()),
            req.options,
            sviews(req.cli_args@),
            req.flags,
            req.ecosystem,
            opt_view(req.sudo_password),
            *bins,
            r,
        ),
{
    let ghost runner = runs.runner();
    let ghost l0 = runs.log();
    let opts = &req.options;
    let ghost pwv = opt_view(req.sudo_password);
    let ghost argv = sviews(req.cli_args@);
    let prepared = prepare_remote_agent(runs, opts, bins);
    let ghost l1 = runs.log();
    let ghost t1 = calls_between(l0, l1);
    let (session, remote_bin) = match prepared {
        Ok(p) => p,
        Err(e) => {
            proof {
                if host_spec_of(req.options.host@) is Ok {
                    let sv = remote_session(req.options);
                    assert(t1.subrange(0, t1.len() as int) =~= t1);
                    assert(prepare_calls(t1.subrange(0, t1.len() as int), sv, req.options, bins.cli@, Err::<Seq<char>, ErrorView>(e@)));
                }
            }
            return Err(e);
        },
    };
    let ghost s = session@;
    assert(host_spec_of(req.options.host@) is Ok);
    assert(prepare_calls(t1, s, req.options, bins.cli@, Ok::<Seq<char>, ErrorView>(remote_bin@)));
    assert(prepare_gives(runner, req.options, bins.cli@, Ok::<Seq<char>, ErrorView>(remote_bin@)));
    let probed = probe_remote_cli(runs, &session, opts);
    let ghost l2 = runs.log();
    let ghost t2 = calls_between(l1, l2);
    proof {
        lemma_calls_concat(l0, l1, l2);
    }
    let probe = match probed {
        Ok(p) => p,
        Err(e) => {
            return Err(e);
        },
    };
    assert(cli_probe_gives(runner, s, opts.install_dir@, opts.remote_agent_dir@, probe@));
    assert(probe_calls(t2, s, opts.install_dir@, opts.remote_agent_dir@, probe@));
    if !probe.current && !req.flags.allow_stale_cli {
        let label: &str = match &probe.version {
            Some(v) => v.as_str(),
            None => probe.status.as_label(),
        };
        assert(label@ == probe_label(probe@));
        let refused = stale_cli_error(label);
        proof {
            let rr = Err::<RemoteRunOutcome, HortoError>(refused);
            let t3 = Seq::<Entry>::empty();
            assert(run_rest_calls(t3, req.options, argv, req.flags, req.ecosystem, pwv, *bins, remote_bin@, probe@, rr));
            lemma_run_cli_calls(t1, t2, t3, req.options, argv, req.flags, req.ecosystem, pwv, *bins, remote_bin@, probe@, rr);
            assert(calls_between(l0, l2) =~= t1 + t2 + t3);
        }
        return Err(refused);
    }
    let cli_args: Vec<String> = if probe.current {
        copy_strings(req.cli_args.as_slice())
    } else {
        strip_tip_only_cli_flags(req.cli_args.as_slice())
    };
    assert(sviews(cli_args@) == sent_args(probe.current, sviews(req.cli_args@)));
    let pw: Option<&str> = match &req.sudo_password {
        Some(p) => Some(p.as_str()),
        None => None,
    };
    assert(opt_str_view(pw) == pwv);
    let sudo_kind = remote_sudo_kind(req.flags.use_sudo, pw);
    let remote_cmd = build_remote_command_sudo(remote_bin.as_str(), cli_args.as_slice(), sudo_kind);
    let capture = req.flags.capture_output || req.sudo_password.is_some();
    let ghost input = run_input(sudo_kind, pwv, capture);
    let ran = match sudo_kind {
        RemoteSudoKind::Stdin => {
            let pass: &str = match pw {
                Some(p) => p,
                None => "",
            };
            proof {
                reveal_strlit("");
            }
            let mut feed = concat2(pass, "\n");
            assert(pass@ == pw_text(pwv));
            let result = session.exec_stdin(runs, remote_cmd.as_str(), feed.as_str().as_bytes());
            wipe_secret(&mut feed);
            result
        },
        _ => {
            let stdio = if capture {
                StdioMode::Capture
            } else {
                StdioMode::Inherit
            };
            session.exec(runs, remote_cmd.as_str(), stdio)
        },
    };
    assert(ssh_gives(runner, s, remote_cmd@, input, reply_view(ran)));
    let ghost cmdv = remote_command(
        remote_bin@,
        sent_args(probe.current, sviews(req.cli_args@)),
        sudo_kind_of(req.flags.use_sudo, pwv),
    );
    assert(remote_cmd@ == cmdv);
    assert(s == remote_session(req.options));
    assert(input == run_input(sudo_kind_of(req.flags.use_sudo, pwv), pwv, req.flags.capture_output || pwv is Some));
    assert(ssh_gives(runner, remote_session(req.options), cmdv, run_input(sudo_kind_of(req.flags.use_sudo, pwv), pwv, req.flags.capture_output || pwv is Some), reply_view(ran)));
    let ghost l3 = runs.log();
    let ghost t3 = calls_between(l2, l3);
    assert(ssh_calls(t3, s, remote_cmd@, input, reply_view(ran)));
    proof {
        lemma_calls_concat(l0, l2, l3);
        lemma_calls_concat(l0, l1, l2);
        assert(calls_between(l0, l3) =~= t1 + t2 + t3);
    }
    let out = match ran {
        Ok(o) => o,
        Err(e) => {
            proof {
                let rr = Err::<RemoteRunOutcome, HortoError>(e);
                assert(run_rest_calls(t3, req.options, argv, req.flags, req.ecosystem, pwv, *bins, remote_bin@, probe@, rr));
                lemma_run_cli_calls(t1, t2, t3, req.options, argv, req.flags, req.ecosystem, pwv, *bins, remote_bin@, probe@, rr);
                assert(run_command_gives(runner, req.options, req.flags, req.ecosystem, pwv, *bins, cmdv, input, rr));
                assert(run_after_probe_gives(runner, req.options, sviews(req.cli_args@), req.flags, req.ecosystem, pwv, *bins, remote_bin@, probe@, rr));
                assert(run_cli_gives(runner, req.options, sviews(req.cli_args@), req.flags, req.ecosystem, pwv, *bins, rr));
            }
            return Err(e);
        },
    };
    let secret: &str = match pw {
        Some(p) => p,
        None => "",
    };
    let merged = merge_command_log(&out, remote_cmd.as_str());
    let log = redact_secret(merged.as_str(), secret);
    proof {
        reveal_strlit("");
        assert(secret@ == match req.sudo_password {
            Some(p) => p@,
            None => Seq::<char>::empty(),
        });
        assert(secret@ == pw_text(pwv));
        assert(log@ == redacted(command_log(out@, remote_cmd@), secret@));
    }
    let install_payload = req.flags.install_payload_on_success && req.ecosystem.any();
    let api_token = if install_payload {
        let installed = remote_install_payload(runs, opts, bins, req.ecosystem, pw);
        assert(install_payload_gives(runner, *opts, *bins, req.ecosystem, pwv, opt_str_result(installed)));
        proof {
            lemma_calls_concat(l0, l3, runs.log());
            let t4 = calls_between(l3, runs.log());
            assert((t3 + t4)[0] == t3[0]);
            assert(calls_between(l0, runs.log()) =~= t1 + t2 + (t3 + t4));
            assert((t3 + t4).subrange(1, (t3 + t4).len() as int) =~= t4);
            assert(install_payload_calls(t4, req.options, *bins, req.ecosystem, pwv, opt_str_result(installed)));
        }
        match installed {
            Ok(t) => t,
            Err(e) => {
                proof {
                    let rr = Err::<RemoteRunOutcome, HortoError>(e);
                    let t4 = calls_between(l3, runs.log());
                    assert(run_rest_calls(t3 + t4, req.options, argv, req.flags, req.ecosystem, pwv, *bins, remote_bin@, probe@, rr));
                    lemma_run_cli_calls(t1, t2, t3 + t4, req.options, argv, req.flags, req.ecosystem, pwv, *bins, remote_bin@, probe@, rr);
                    assert(run_finish_gives(runner, req.options, req.flags, req.ecosystem, pwv, *bins, log@, rr));
                    assert(run_command_gives(runner, req.options, req.flags, req.ecosystem, pwv, *bins, cmdv, input, rr));
                    assert(run_after_probe_gives(runner, req.options, sviews(req.cli_args@), req.flags, req.ecosystem, pwv, *bins, remote_bin@, probe@, rr));
                    assert(run_cli_gives(runner, req.options, sviews(req.cli_args@), req.flags, req.ecosystem, pwv, *bins, rr));
                }
                return Err(e);
            },
        }
    } else {
        None
    };
    let outcome = RemoteRunOutcome { log, api_token };
    proof {
        let rr = Ok::<RemoteRunOutcome, HortoError>(outcome);
        let t4 = calls_between(l3, runs.log());
        if install_payload {
            assert(run_rest_calls(t3 + t4, req.options, argv, req.flags, req.ecosystem, pwv, *bins, remote_bin@, probe@, rr));
            lemma_run_cli_calls(t1, t2, t3 + t4, req.options, argv, req.flags, req.ecosystem, pwv, *bins, remote_bin@, probe@, rr);
        } else {
            assert(run_rest_calls(t3, req.options, argv, req.flags, req.ecosystem, pwv, *bins, remote_bin@, probe@, rr));
            lemma_run_cli_calls(t1, t2, t3, req.options, argv, req.flags, req.ecosystem, pwv, *bins, remote_bin@, probe@, rr);
        }
        assert(run_finish_gives(runner, req.options, req.flags, req.ecosystem, pwv, *bins, outcome.log@, rr));
        assert(run_command_gives(runner, req.options, req.flags, req.ecosystem, pwv, *bins, cmdv, input, rr));
        assert(run_after_probe_gives(runner, req.options, sviews(req.cli_args@), req.flags, req.ecosystem, pwv, *bins, remote_bin@, probe@, rr));
        assert(run_cli_gives(runner, req.options, sviews(req.cli_args@), req.flags, req.ecosystem, pwv, *bins, rr));
    }
    Ok(outcome)
}

/// Inputs for [`remote_setup_run`] (avoids a long bool parameter list).
#[derive(Debug, Clone)]
pub struct RemoteSetupRunArgs {
    /// Session and binary options.
    pub options: RemoteOptions,
    /// Privileged apply on the box.
    pub apply: bool,
    /// Full pipeline when true; minimal when false.
    pub full: bool,
    /// Skip piper model download.
    pub skip_piper: bool,
    /// Ecosystem services to install after successful apply.
    pub ecosystem: EcosystemInstallChoice,
    /// Optional Docker stacks for d3.
    pub stack_opts: StackOpts,
    /// Allow setup when box CLI ≠ tip long-version.
    pub allow_stale_cli: bool,
    /// Pipe remote stdout/stderr back to the caller (Desktop / MCP).
    pub capture_output: bool,
    /// After apply, prompt to reboot the box (CLI/TUI).
    pub offer_reboot: bool,
    /// When `Some`, Desktop-style Capture + `sudo -S` / `sudo -n` (never Inherit).
    pub sudo_password: Option<String>,
}

pub open spec fn flag_if(on: bool, yes: Seq<char>, no: Seq<char>) -> Seq<char> {
    if on {
        yes
    } else {
        no
    }
}

/// `horto-os-ui` argv of a remote `setup run`.
pub open spec fn setup_run_argv(
    apply: bool,
    skip_piper: bool,
    stacks_csv: Seq<char>,
    status_api: bool,
    mcp: bool,
    full: bool,
) -> Seq<Seq<char>> {
    (if apply {
        seq!["--apply"@]
    } else {
        seq![]
    }) + (if skip_piper {
        seq!["--skip-piper"@]
    } else {
        seq![]
    }) + (if stacks_csv.len() > 0 {
        seq!["--stacks="@ + stacks_csv]
    } else {
        seq![]
    }) + seq![
        flag_if(status_api, "--install-status-api"@, "--no-install-status-api"@),
        flag_if(mcp, "--install-mcp"@, "--no-install-mcp"@),
        "setup"@,
        "run"@,
        flag_if(full, "--full"@, "--minimal"@),
    ]
}

/// Arguments of a remote `setup run` (global flags first, then the subcommand).
pub fn setup_run_cli_args(
    apply: bool,
    skip_piper: bool,
    stacks_csv: &str,
    ecosystem: EcosystemInstallChoice,
    full: bool,
) -> (args: Vec<String>)
    ensures
        sviews(args@) == setup_run_argv(
            apply,
            skip_piper,
            stacks_csv@,
            ecosystem.status_api,
            ecosystem.mcp,
            full,
        ),
{
    let mut args: Vec<String> = Vec::new();
    if apply {
        args.push(owned("--apply"));
    }
    if skip_piper {
        args.push(owned("--skip-piper"));
    }
    if !stacks_csv.is_empty() {
        args.push(concat2("--stacks=", stacks_csv));
    }
    if ecosystem.status_api {
        args.push(owned("--install-status-api"));
    } else {
        args.push(owned("--no-install-status-api"));
    }
    if ecosystem.mcp {
        args.push(owned("--install-mcp"));
    } else {
        args.push(owned("--no-install-mcp"));
    }
    args.push(owned("setup"));
    args.push(owned("run"));
    if full {
        args.push(owned("--full"));
    } else {
        args.push(owned("--minimal"));
    }
    assert(sviews(args@) =~= setup_run_argv(
        apply,
        skip_piper,
        stacks_csv@,
        ecosystem.status_api,
        ecosystem.mcp,
        full,
    ));
    args
}

/// The run request of a remote `setup run`.
pub fn setup_run_request(args: RemoteSetupRunArgs) -> (req: RemoteRunRequest)
    ensures
        sviews(req.cli_args@) == setup_run_argv(
            args.apply,
            args.skip_piper,
            crate::text::join(crate::stack_opts::csv_ids(args.stack_opts), ","@),
            args.ecosystem.status_api,
            args.ecosystem.mcp,
            args.full,
        ),
        req.flags.use_sudo == args.apply,
        req.flags.install_payload_on_success == (args.apply && (args.ecosystem.status_api
            || args.ecosystem.mcp)),
        req.flags.offer_reboot_on_success == args.offer_reboot,
        req.flags.capture_output == args.capture_output,
        req.flags.allow_stale_cli == args.allow_stale_cli,
        req.ecosystem == args.ecosystem,
        req.sudo_password == args.sudo_password,
        req.options == args.options,
{
    let RemoteSetupRunArgs {
        options,
        apply,
        full,
        skip_piper,
        ecosystem,
        stack_opts,
        allow_stale_cli,
        capture_output,
        offer_reboot,
        sudo_password,
    } = args;
    let stacks_csv = stack_opts.to_csv();
    let cli_args = setup_run_cli_args(apply, skip_piper, stacks_csv.as_str(), ecosystem, full);
    RemoteRunRequest {
        options,
        cli_args,
        ecosystem,
        flags: RemoteRunFlags {
            use_sudo: apply,
            install_payload_on_success: apply && ecosystem.any(),
            offer_reboot_on_success: offer_reboot,
            capture_output,
            allow_stale_cli,
        },
        sudo_password,
    }
}

/// Convenience: remote `setup run` with optional payload install.
pub fn remote_setup_run<R: ProcessRunner>(
    runs: &mut Runs<R>,
    args: RemoteSetupRunArgs,
    bins: &LocalBins,
) -> (r: Result<RemoteRunOutcome, HortoError>)
    ensures
        host_spec_of(args.options.host@) matches Err(e) ==> r matches Err(e2) && e2@ == e,
        r matches Ok(o) ==> (!(args.apply && (args.ecosystem.status_api || args.ecosystem.mcp))
            ==> o.api_token is None),
        host_spec_of(args.options.host@) is Ok ==> run_cli_gives(
            old(runs).runner(),
            args.options,
            setup_run_argv(
                args.apply,
                args.skip_piper,
                crate::text::join(crate::stack_opts::csv_ids(args.stack_opts), ","@),
                args.ecosystem.status_api,
                args.ecosystem.mcp,
                args.full,
            ),
            setup_run_flags(args),
            args.ecosystem,
            opt_view(args.sudo_password),
            *bins,
            r,
        ),
        final(runs).runner() == old(runs).runner(),
        log_grows(old(runs).log(), final(runs).log()),
        host_spec_of(args.options.host@) is Err ==> calls_between(old(runs).log(), final(runs).log()).len() == 0,
        host_spec_of(args.options.host@) is Ok ==> run_cli_calls(
            calls_between(old(runs).log(), final(runs).log()),
            args.options,
            setup_run_argv(
                args.apply,
                args.skip_piper,
                crate::text::join(crate::stack_opts::csv_ids(args.stack_opts), ","@),
                args.ecosystem.status_api,
                args.ecosystem.mcp,
                args.full,
            ),
            setup_run_flags(args),
            args.ecosystem,
            opt_view(args.sudo_password),
            *bins,
            r,
        ),
{
    let ghost a = args;
    let req = setup_run_request(args);
    assert(req.flags == setup_run_flags(a));
    remote_run_cli(runs, &req, bins)
}

/// Flags of a remote `setup run`: sudo and payload install with apply.
pub open spec fn setup_run_flags(args: RemoteSetupRunArgs) -> RemoteRunFlags {
    RemoteRunFlags {
        use_sudo: args.apply,
        install_payload_on_success: args.apply && (args.ecosystem.status_api || args.ecosystem.mcp),
        offer_reboot_on_success: args.offer_reboot,
        capture_output: args.capture_output,
        allow_stale_cli: args.allow_stale_cli,
    }
}

/// Remote command that runs the enable script for a sudo password choice.
pub open spec fn enable_cmd(enable: Seq<char>, sudo: Option<Seq<char>>) -> Seq<char> {
    match sudo {
        Some(p) => if p.len() == 0 {
            "sudo -n bash -s"@
        } else {
            "sudo -S -p '' bash -s"@
        },
        None => enable,
    }
}

/// What the enable command is fed: the script (after the password line) on
/// stdin, or the terminal when no password is known.
pub open spec fn enable_input(enable: Seq<char>, sudo: Option<Seq<char>>) -> CallInput {
    match sudo {
        Some(p) => if p.len() == 0 {
            CallInput::Stdin(encode_utf8(enable))
        } else {
            CallInput::Stdin(encode_utf8(p + "\n"@ + enable))
        },
        None => CallInput::Stdio(StdioMode::Inherit),
    }
}

/// Whether `r` is what [`exec_payload_enable`] gives when `runner` answers.
pub open spec fn payload_enable_gives<R: ProcessRunner>(
    runner: R,
    s: SessionView,
    enable: Seq<char>,
    sudo: Option<Seq<char>>,
    r: Result<(), ErrorView>,
) -> bool {
    exists|e: Result<OutputView, ErrorView>|
        #[trigger] ssh_gives(runner, s, enable_cmd(enable, sudo), enable_input(enable, sudo), e)
            && r == unit_of(e)
}

/// Whether `t` is exactly the one enable call of [`exec_payload_enable`] and
/// `r` its outcome.
pub open spec fn enable_calls(
    t: Seq<Entry>,
    s: SessionView,
    enable: Seq<char>,
    sudo: Option<Seq<char>>,
    r: Result<(), ErrorView>,
) -> bool {
    t.len() == 1 && t[0].0 == ssh_request(s, enable_cmd(enable, sudo), enable_input(enable, sudo)) && r
        == unit_of(out_at(t, 0, "ssh"@))
}

/// Run the multi-sudo enable script without a TTY when a password is known.
///
/// Empty password: `sudo -n bash -s`. A password: `sudo -S -p '' bash -s`
/// fed password + script on stdin (the feed is wiped). None: inherit the TTY.
pub fn exec_payload_enable<R: ProcessRunner>(
    runs: &mut Runs<R>,
    session: &SshSession,
    enable: &str,
    sudo_password: Option<&str>,
) -> (r: Result<(), HortoError>)
    ensures
        payload_enable_gives(old(runs).runner(), session@, enable@, opt_str_view(sudo_password), unit_view(r)),
        final(runs).runner() == old(runs).runner(),
        log_grows(old(runs).log(), final(runs).log()),
        enable_calls(
            calls_between(old(runs).log(), final(runs).log()),
            session@,
            enable@,
            opt_str_view(sudo_password),
            unit_view(r),
        ),
{
    let ghost runner = runs.runner();
    let ghost l0 = runs.log();
    let ghost sudo = opt_str_view(sudo_password);
    let result = match sudo_password {
        Some(pass) => {
            if pass.is_empty() {
                let res = session.exec_stdin(runs, "sudo -n bash -s", enable.as_bytes());
                assert(ssh_gives(runner, session@, enable_cmd(enable@, sudo), enable_input(enable@, sudo), reply_view(res)));
                assert(ssh_calls(calls_between(l0, runs.log()), session@, enable_cmd(enable@, sudo), enable_input(enable@, sudo), reply_view(res)));
                res
            } else {
                let mut feed = concat3(pass, "\n", enable);
                let res = session.exec_stdin(
                    runs,
                    "sudo -S -p '' bash -s",
                    feed.as_str().as_bytes(),
                );
                assert(ssh_gives(runner, session@, enable_cmd(enable@, sudo), enable_input(enable@, sudo), reply_view(res)));
                assert(ssh_calls(calls_between(l0, runs.log()), session@, enable_cmd(enable@, sudo), enable_input(enable@, sudo), reply_view(res)));
                wipe_secret(&mut feed);
                res
            }
        },
        None => {
            let res = session.exec(runs, enable, StdioMode::Inherit);
            assert(ssh_gives(runner, session@, enable_cmd(enable@, sudo), enable_input(enable@, sudo), reply_view(res)));
            assert(ssh_calls(calls_between(l0, runs.log()), session@, enable_cmd(enable@, sudo), enable_input(enable@, sudo), reply_view(res)));
            res
        },
    };
    match result {
        Ok(_) => Ok(()),
        Err(e) => Err(e),
    }
}

/// The services actually installable: MCP only when its binary is known.
pub open spec fn effective_choice(c: EcosystemInstallChoice, bins: LocalBins) -> (bool, bool) {
    (c.status_api, c.mcp && bins.mcp is Some)
}

/// Mathematical value of an optional-string result.
pub open spec fn opt_str_result(r: Result<Option<String>, HortoError>) -> Result<
    Option<Seq<char>>,
    ErrorView,
> {
    match r {
        Ok(o) => Ok(opt_view(o)),
        Err(e) => Err(e@),
    }
}

/// Local files of the payload: CLI, TUI, status-api, then MCP when present.
pub open spec fn payload_locals(bins: LocalBins) -> Seq<Seq<char>> {
    seq![bins.cli@, bins.tui@, bins.status_api@] + match bins.mcp {
        Some(m) => seq![m@],
        None => Seq::<Seq<char>>::empty(),
    }
}

/// Remote staging directory of the payload.
pub open spec fn payload_staging(agent_dir: Seq<char>) -> Seq<char> {
    trim_end_char(agent_dir, '/') + "/payload"@
}

/// The box path of the API token drop file.
pub open spec fn token_drop_path() -> Seq<char> {
    "$HOME/"@ + API_TOKEN_DROP_BASENAME@
}

/// What happens after the enable script succeeded: with status-api, read the
/// drop file, remove it, verify the service; the token read is returned.
pub open spec fn after_enable_gives<R: ProcessRunner>(
    runner: R,
    s: SessionView,
    install: Seq<char>,
    status_api: bool,
    r: Result<Option<Seq<char>>, ErrorView>,
) -> bool {
    if !status_api {
        r == Ok::<Option<Seq<char>>, ErrorView>(None)
    } else {
        exists|c: Result<OutputView, ErrorView>|
            #[trigger] ssh_gives(
                runner,
                s,
                "cat "@ + token_drop_path() + " 2>/dev/null || true"@,
                CallInput::Stdio(StdioMode::Capture),
                c,
            ) && match c {
                Err(e) => r == Err::<Option<Seq<char>>, ErrorView>(e),
                Ok(co) => (exists|rm: Result<OutputView, ErrorView>|
                    #[trigger] ssh_gives(
                        runner,
                        s,
                        "rm -f "@ + token_drop_path(),
                        CallInput::Stdio(StdioMode::Capture),
                        rm,
                    )) && exists|v: Result<(), ErrorView>|
                    #[trigger] verify_gives(runner, s, install, v) && r == match v {
                        Err(e) => Err::<Option<Seq<char>>, ErrorView>(e),
                        Ok(_) => Ok(drop_token(co.stdout)),
                    },
            }
    }
}

/// After the payload was copied: the enable script, then [`after_enable_gives`].
pub open spec fn after_transfer_gives<R: ProcessRunner>(
    runner: R,
    s: SessionView,
    staging: Seq<char>,
    install: Seq<char>,
    api: bool,
    mcp: bool,
    sudo: Option<Seq<char>>,
    r: Result<Option<Seq<char>>, ErrorView>,
) -> bool {
    exists|en: Result<(), ErrorView>|
        #[trigger] payload_enable_gives(runner, s, enable_script(staging, install, api, mcp), sudo, en)
            && match en {
            Err(e) => r == Err::<Option<Seq<char>>, ErrorView>(e),
            Ok(_) => after_enable_gives(runner, s, install, api, r),
        }
}

/// After the staging dir was made: the copy, then [`after_transfer_gives`].
pub open spec fn after_mkdir_gives<R: ProcessRunner>(
    runner: R,
    s: SessionView,
    bins: LocalBins,
    staging: Seq<char>,
    install: Seq<char>,
    api: bool,
    mcp: bool,
    sudo: Option<Seq<char>>,
    r: Result<Option<Seq<char>>, ErrorView>,
) -> bool {
    exists|t: Result<(), ErrorView>|
        #[trigger] transfer_gives(runner, s, payload_locals(bins), staging, t) && match t {
            Err(e) => r == Err::<Option<Seq<char>>, ErrorView>(e),
            Ok(_) => after_transfer_gives(runner, s, staging, install, api, mcp, sudo, r),
        }
}

/// Whether `r` is what [`remote_install_payload`] gives when `runner` answers
/// its requests, `sudo` being the known sudo password.
pub open spec fn install_payload_gives<R: ProcessRunner>(
    runner: R,
    opts: RemoteOptions,
    bins: LocalBins,
    choice: EcosystemInstallChoice,
    sudo: Option<Seq<char>>,
    r: Result<Option<Seq<char>>, ErrorView>,
) -> bool {
    let api = choice.status_api;
    let mcp = choice.mcp && bins.mcp is Some;
    let s = remote_session(opts);
    let staging = payload_staging(opts.remote_agent_dir@);
    let install = trim_end_char(opts.install_dir@, '/');
    if !(api || mcp) {
        r == Ok::<Option<Seq<char>>, ErrorView>(None)
    } else {
        match host_spec_of(opts.host@) {
            Err(e) => r == Err::<Option<Seq<char>>, ErrorView>(e),
            Ok(_) => exists|m: Result<OutputView, ErrorView>|
                #[trigger] ssh_gives(
                    runner,
                    s,
                    "mkdir -p "@ + shell_quoted(staging),
                    CallInput::Stdio(StdioMode::Capture),
                    m,
                ) && match m {
                    Err(e) => r == Err::<Option<Seq<char>>, ErrorView>(e),
                    Ok(_) => after_mkdir_gives(runner, s, bins, staging, install, api, mcp, sudo, r),
                },
        }
    }
}

/// Whether `t` is exactly the calls made after the enable script succeeded,
/// and `r` the outcome: none without status-api; else `cat` of the drop
/// file, `rm` of it, then [`verify_calls`].
pub open spec fn after_enable_calls(
    t: Seq<Entry>,
    s: SessionView,
    install: Seq<char>,
    status_api: bool,
    r: Result<Option<Seq<char>>, ErrorView>,
) -> bool {
    if !status_api {
        t.len() == 0 && r == Ok::<Option<Seq<char>>, ErrorView>(None)
    } else {
        &&& t.len() >= 1
        &&& t[0].0 == ssh_request(
            s,
            "cat "@ + token_drop_path() + " 2>/dev/null || true"@,
            CallInput::Stdio(StdioMode::Capture),
        )
        &&& match out_at(t, 0, "ssh"@) {
            Err(e) => t.len() == 1 && r == Err::<Option<Seq<char>>, ErrorView>(e),
            Ok(co) => {
                &&& t.len() >= 2
                &&& t[1].0 == ssh_request(s, "rm -f "@ + token_drop_path(), CallInput::Stdio(StdioMode::Capture))
                &&& exists|v: Result<(), ErrorView>|
                    #[trigger] verify_calls(t.subrange(2, t.len() as int), s, install, v) && r == match v {
                        Err(e) => Err::<Option<Seq<char>>, ErrorView>(e),
                        Ok(_) => Ok(drop_token(co.stdout)),
                    }
            },
        }
    }
}

/// Whether `t` is exactly the calls of [`remote_install_payload`] and `r`
/// its result: none when nothing is to be installed or the host is invalid;
/// else `mkdir -p` of the staging dir, the copy ([`transfer_calls`]), the
/// enable script ([`enable_calls`]) and [`after_enable_calls`], each only
/// when the one before succeeded.
pub open spec fn install_payload_calls(
    t: Seq<Entry>,
    opts: RemoteOptions,
    bins: LocalBins,
    choice: EcosystemInstallChoice,
    sudo: Option<Seq<char>>,
    r: Result<Option<Seq<char>>, ErrorView>,
) -> bool {
    let api = choice.status_api;
    let mcp = effective_choice(choice, bins).1;
    let s = remote_session(opts);
    let staging = payload_staging(opts.remote_agent_dir@);
    let install = trim_end_char(opts.install_dir@, '/');
    if !(api || mcp) {
        t.len() == 0 && r == Ok::<Option<Seq<char>>, ErrorView>(None)
    } else {
        match host_spec_of(opts.host@) {
            Err(e) => t.len() == 0 && r == Err::<Option<Seq<char>>, ErrorView>(e),
            Ok(_) => {
                &&& t.len() >= 1
                &&& t[0].0 == ssh_request(s, "mkdir -p "@ + shell_quoted(staging), CallInput::Stdio(StdioMode::Capture))
                &&& match out_at(t, 0, "ssh"@) {
                    Err(e) => t.len() == 1 && r == Err::<Option<Seq<char>>, ErrorView>(e),
                    Ok(_) => exists|k: int, tr: Result<(), ErrorView>|
                        #![trigger transfer_calls(t.subrange(1, k), s, payload_locals(bins), staging, tr)]
                        1 <= k <= t.len() && transfer_calls(t.subrange(1, k), s, payload_locals(bins), staging, tr)
                            && match tr {
                            Err(e) => k == t.len() && r == Err::<Option<Seq<char>>, ErrorView>(e),
                            Ok(_) => k + 1 <= t.len() && exists|en: Result<(), ErrorView>|
                                #[trigger] enable_calls(
                                    t.subrange(k, k + 1),
                                    s,
                                    enable_script(staging, install, api, mcp),
                                    sudo,
                                    en,
                                ) && match en {
                                    Err(e) => k + 1 == t.len() && r == Err::<Option<Seq<char>>, ErrorView>(e),
                                    Ok(_) => after_enable_calls(t.subrange(k + 1, t.len() as int), s, install, api, r),
                                },
                        },
                }
            },
        }
    }
}

/// With no service to install (MCP counts only when its binary is known),
/// the payload install makes no call and gives no token.
pub proof fn law_empty_payload_makes_no_call(
    t: Seq<Entry>,
    opts: RemoteOptions,
    bins: LocalBins,
    choice: EcosystemInstallChoice,
    sudo: Option<Seq<char>>,
    r: Result<Option<Seq<char>>, ErrorView>,
)
    requires
        install_payload_calls(t, opts, bins, choice, sudo, r),
        !choice.status_api,
        !(choice.mcp && bins.mcp is Some),
    ensures
        t.len() == 0,
        r == Ok::<Option<Seq<char>>, ErrorView>(None),
{
}

/// Gluing the stages of [`install_payload_calls`] after a made staging dir.
proof fn lemma_payload_calls(
    tm: Seq<Entry>,
    ttr: Seq<Entry>,
    ten: Seq<Entry>,
    tae: Seq<Entry>,
    opts: RemoteOptions,
    bins: LocalBins,
    choice: EcosystemInstallChoice,
    sudo: Option<Seq<char>>,
    tr: Result<(), ErrorView>,
    en: Result<(), ErrorView>,
    r: Result<Option<Seq<char>>, ErrorView>,
)
    requires
        choice.status_api || (choice.mcp && bins.mcp is Some),
        host_spec_of(opts.host@) is Ok,
        tm.len() == 1,
        tm[0].0 == ssh_request(
            remote_session(opts),
            "mkdir -p "@ + shell_quoted(payload_staging(opts.remote_agent_dir@)),
            CallInput::Stdio(StdioMode::Capture),
        ),
        out_at(tm, 0, "ssh"@) is Ok,
        transfer_calls(ttr, remote_session(opts), payload_locals(bins), payload_staging(opts.remote_agent_dir@), tr),
        match tr {
            Err(e) => ten.len() == 0 && tae.len() == 0 && r == Err::<Option<Seq<char>>, ErrorView>(e),
            Ok(_) => enable_calls(
                ten,
                remote_session(opts),
                enable_script(
                    payload_staging(opts.remote_agent_dir@),
                    trim_end_char(opts.install_dir@, '/'),
                    choice.status_api,
                    choice.mcp && bins.mcp is Some,
                ),
                sudo,
                en,
            ) && match en {
                Err(e) => tae.len() == 0 && r == Err::<Option<Seq<char>>, ErrorView>(e),
                Ok(_) => after_enable_calls(
                    tae,
                    remote_session(opts),
                    trim_end_char(opts.install_dir@, '/'),
                    choice.status_api,
                    r,
                ),
            },
        },
    ensures
        install_payload_calls(tm + ttr + ten + tae, opts, bins, choice, sudo, r),
{
    let t = tm + ttr + ten + tae;
    let k: int = 1 + ttr.len() as int;
    let n: int = ten.len() as int;
    assert(t[0] == tm[0]);
    assert(t.subrange(1, k) =~= ttr);
    assert(t.subrange(k, k + n) =~= ten);
    assert(t.subrange(k + n, t.len() as int) =~= tae);
    let s = remote_session(opts);
    let staging = payload_staging(opts.remote_agent_dir@);
    assert(transfer_calls(t.subrange(1, k), s, payload_locals(bins), staging, tr));
    assert(out_at(t, 0, "ssh"@) == out_at(tm, 0, "ssh"@));
    let install = trim_end_char(opts.install_dir@, '/');
    let api = choice.status_api;
    let mcp = effective_choice(choice, bins).1;
    if tr is Ok {
        assert(ten.len() == 1);
        assert(t.subrange(k, k + 1) =~= ten);
        assert(enable_calls(t.subrange(k, k + 1), s, enable_script(staging, install, api, mcp), sudo, en));
        if en is Ok {
            assert(after_enable_calls(t.subrange(k + 1, t.len() as int), s, install, api, r));
        } else {
            assert(k + 1 == t.len());
        }
    } else {
        assert(k == t.len());
    }
}

/// Copy CLI + TUI + status-api (+ MCP when present) into `install_dir` and enable units.
///
/// Missing `horto-os-ui-mcp` skips MCP transfer/enable; other units still install.
/// Returns the captured hex bearer when the drop file can be read.
pub fn remote_install_payload<R: ProcessRunner>(
    runs: &mut Runs<R>,
    opts: &RemoteOptions,
    bins: &LocalBins,
    choice: EcosystemInstallChoice,
    sudo_password: Option<&str>,
) -> (r: Result<Option<String>, HortoError>)
    ensures
        !(choice.status_api || (choice.mcp && bins.mcp is Some)) ==> r matches Ok(None),
        r matches Ok(Some(t)) ==> choice.status_api && t@.len() >= 32 && all_hex(t@),
        install_payload_gives(
            old(runs).runner(),
            *opts,
            *bins,
            choice,
            opt_str_view(sudo_password),
            opt_str_result(r),
        ),
        final(runs).runner() == old(runs).runner(),
        log_grows(old(runs).log(), final(runs).log()),
        install_payload_calls(
            calls_between(old(runs).log(), final(runs).log()),
            *opts,
            *bins,
            choice,
            opt_str_view(sudo_password),
            opt_str_result(r),
        ),
{
    let ghost runner = runs.runner();
    let ghost l0 = runs.log();
    let ghost orig = choice;
    let choice = EcosystemInstallChoice {
        status_api: choice.status_api,
        mcp: choice.mcp && bins.mcp.is_some(),
    };
    if !choice.any() {
        return Ok(None);
    }
    let session = match session_from(opts) {
        Ok(s) => s,
        Err(e) => {
            return Err(e);
        },
    };
    let ghost s = session@;
    let agent = trim_end_char_str(opts.remote_agent_dir.as_str(), '/');
    let staging = concat2(agent.as_str(), "/payload");
    let staging_q = shell_quote(staging.as_str());
    let mkdir = concat2("mkdir -p ", staging_q.as_str());
    let made = session.exec(runs, mkdir.as_str(), StdioMode::Capture);
    assert(staging@ == payload_staging(opts.remote_agent_dir@));
    assert(s == remote_session(*opts));
    assert(ssh_gives(runner, s, "mkdir -p "@ + shell_quoted(staging@), CallInput::Stdio(StdioMode::Capture), reply_view(made)));
    let ghost l1 = runs.log();
    let ghost tm = calls_between(l0, l1);
    assert(ssh_calls(tm, s, "mkdir -p "@ + shell_quoted(staging@), CallInput::Stdio(StdioMode::Capture), reply_view(made)));
    if let Err(e) = made {
        assert(install_payload_gives(runner, *opts, *bins, orig, opt_str_view(sudo_password), Err(e@)));
        return Err(e);
    }
    let mut locals: Vec<&str> = Vec::new();
    locals.push(bins.cli.as_str());
    locals.push(bins.tui.as_str());
    locals.push(bins.status_api.as_str());
    if let Some(m) = &bins.mcp {
        locals.push(m.as_str());
    }
    assert(crate::remote::ssh::ref_views(locals@) =~= payload_locals(*bins));
    let moved = transfer_files(runs, &session, locals.as_slice(), staging.as_str());
    assert(transfer_gives(runner, s, payload_locals(*bins), staging@, unit_view(moved)));
    let ghost l2 = runs.log();
    let ghost ttr = calls_between(l1, l2);
    assert(transfer_calls(ttr, s, payload_locals(*bins), staging@, unit_view(moved)));
    assert(choice.mcp == effective_choice(orig, *bins).1);
    proof {
        lemma_calls_concat(l0, l1, l2);
    }
    if let Err(e) = moved {
        assert(after_mkdir_gives(runner, s, *bins, staging@, trim_end_char(opts.install_dir@, '/'), choice.status_api, choice.mcp, opt_str_view(sudo_password), Err(e@)));
        proof {
            let em = Seq::<Entry>::empty();
            lemma_payload_calls(tm, ttr, em, em, *opts, *bins, orig, opt_str_view(sudo_password), Err(e@), Ok(()), Err(e@));
            assert(calls_between(l0, l2) =~= tm + ttr + em + em);
        }
        return Err(e);
    }
    let install = trim_end_char_str(opts.install_dir.as_str(), '/');
    let enable = remote_enable_ecosystem_script(staging.as_str(), install.as_str(), choice);
    let enabled = exec_payload_enable(runs, &session, enable.as_str(), sudo_password);
    assert(payload_enable_gives(runner, s, enable@, opt_str_view(sudo_password), unit_view(enabled)));
    let ghost api = choice.status_api;
    let ghost mcp = choice.mcp;
    let ghost sudo = opt_str_view(sudo_password);
    let ghost l3 = runs.log();
    let ghost ten = calls_between(l2, l3);
    assert(enable_calls(ten, s, enable@, sudo, unit_view(enabled)));
    assert(enable@ == enable_script(staging@, install@, api, mcp));
    proof {
        lemma_calls_concat(l0, l2, l3);
    }
    if let Err(e) = enabled {
        assert(after_transfer_gives(runner, s, staging@, install@, api, mcp, sudo, Err(e@)));
        assert(after_mkdir_gives(runner, s, *bins, staging@, install@, api, mcp, sudo, Err(e@)));
        proof {
            let em = Seq::<Entry>::empty();
            lemma_payload_calls(tm, ttr, ten, em, *opts, *bins, orig, sudo, Ok(()), Err(e@), Err(e@));
            assert(calls_between(l0, l3) =~= tm + ttr + ten + em);
        }
        return Err(e);
    }
    let mut api_token: Option<String> = None;
    if choice.status_api {
        let drop_path = concat2("$HOME/", API_TOKEN_DROP_BASENAME);
        let cat = concat3("cat ", drop_path.as_str(), " 2>/dev/null || true");
        let cat_res = session.exec(runs, cat.as_str(), StdioMode::Capture);
        assert(cat@ == "cat "@ + token_drop_path() + " 2>/dev/null || true"@);
        assert(ssh_gives(runner, s, "cat "@ + token_drop_path() + " 2>/dev/null || true"@, CallInput::Stdio(StdioMode::Capture), reply_view(cat_res)));
        let ghost l4 = runs.log();
        let ghost tc = calls_between(l3, l4);
        assert(ssh_calls(tc, s, "cat "@ + token_drop_path() + " 2>/dev/null || true"@, CallInput::Stdio(StdioMode::Capture), reply_view(cat_res)));
        proof {
            lemma_calls_concat(l0, l3, l4);
        }
        let cat_out = match cat_res {
            Ok(o) => o,
            Err(e) => {
                assert(after_enable_gives(runner, s, install@, api, Err(e@)));
                assert(after_transfer_gives(runner, s, staging@, install@, api, mcp, sudo, Err(e@)));
                assert(after_mkdir_gives(runner, s, *bins, staging@, install@, api, mcp, sudo, Err(e@)));
                proof {
                    assert(after_enable_calls(tc, s, install@, api, Err(e@)));
                    lemma_payload_calls(tm, ttr, ten, tc, *opts, *bins, orig, sudo, Ok(()), Ok(()), Err(e@));
                    assert(calls_between(l0, l4) =~= tm + ttr + ten + tc);
                }
                return Err(e);
            },
        };
        api_token = parse_api_token_drop(cat_out.stdout.as_str());
        let rm = concat2("rm -f ", drop_path.as_str());
        let rm_res = session.exec(runs, rm.as_str(), StdioMode::Capture);
        assert(rm@ == "rm -f "@ + token_drop_path());
        assert(ssh_gives(runner, s, "rm -f "@ + token_drop_path(), CallInput::Stdio(StdioMode::Capture), reply_view(rm_res)));
        let ghost l5 = runs.log();
        let ghost trm = calls_between(l4, l5);
        assert(ssh_calls(trm, s, "rm -f "@ + token_drop_path(), CallInput::Stdio(StdioMode::Capture), reply_view(rm_res)));
        let verified = verify_remote_status_api(runs, &session, install.as_str());
        assert(verify_gives(runner, s, install@, unit_view(verified)));
        let ghost l6 = runs.log();
        let ghost tv = calls_between(l5, l6);
        assert(verify_calls(tv, s, install@, unit_view(verified)));
        proof {
            lemma_calls_concat(l3, l4, l5);
            lemma_calls_concat(l3, l5, l6);
            lemma_calls_concat(l0, l3, l6);
            let tae = tc + trm + tv;
            assert(calls_between(l3, l6) =~= tae);
            assert(tae[0] == tc[0]);
            assert(tae[1] == trm[0]);
            assert(tae.subrange(2, tae.len() as int) =~= tv);
            assert(out_at(tae, 0, "ssh"@) == out_at(tc, 0, "ssh"@));
            assert(verify_calls(tae.subrange(2, tae.len() as int), s, install@, unit_view(verified)));
        }
        if let Err(e) = verified {
            assert(after_enable_gives(runner, s, install@, api, Err(e@)));
            assert(after_transfer_gives(runner, s, staging@, install@, api, mcp, sudo, Err(e@)));
            assert(after_mkdir_gives(runner, s, *bins, staging@, install@, api, mcp, sudo, Err(e@)));
            proof {
                let tae = tc + trm + tv;
                assert(after_enable_calls(tae, s, install@, api, Err(e@)));
                lemma_payload_calls(tm, ttr, ten, tae, *opts, *bins, orig, sudo, Ok(()), Ok(()), Err(e@));
                assert(calls_between(l0, l6) =~= tm + ttr + ten + tae);
            }
            return Err(e);
        }
        proof {
            let tae = tc + trm + tv;
            assert(after_enable_calls(tae, s, install@, api, opt_str_result(Ok::<Option<String>, HortoError>(api_token))));
            lemma_payload_calls(tm, ttr, ten, tae, *opts, *bins, orig, sudo, Ok(()), Ok(()), opt_str_result(Ok::<Option<String>, HortoError>(api_token)));
            assert(calls_between(l0, l6) =~= tm + ttr + ten + tae);
        }
    } else {
        proof {
            let em = Seq::<Entry>::empty();
            assert(after_enable_calls(em, s, install@, api, opt_str_result(Ok::<Option<String>, HortoError>(api_token))));
            lemma_payload_calls(tm, ttr, ten, em, *opts, *bins, orig, sudo, Ok(()), Ok(()), opt_str_result(Ok::<Option<String>, HortoError>(api_token)));
            assert(calls_between(l0, l3) =~= tm + ttr + ten + em);
        }
    }
    assert(after_enable_gives(runner, s, install@, api, opt_str_result(Ok::<Option<String>, HortoError>(api_token))));
    assert(after_transfer_gives(runner, s, staging@, install@, api, mcp, sudo, opt_str_result(Ok::<Option<String>, HortoError>(api_token))));
    assert(after_mkdir_gives(runner, s, *bins, staging@, install@, api, mcp, sudo, opt_str_result(Ok::<Option<String>, HortoError>(api_token))));
    Ok(api_token)
}

/// Read the status-api bearer the payload install left in the box drop file.
pub fn pull_remote_api_token<R: ProcessRunner>(runs: &mut Runs<R>, opts: &RemoteOptions) -> (r: Result<
    Option<String>,
    HortoError,
>)
    ensures
        host_spec_of(opts.host@) matches Err(e) ==> r matches Err(e2) && e2@ == e,
        r matches Ok(Some(t)) ==> t@.len() >= 32 && all_hex(t@),
        host_spec_of(opts.host@) is Ok ==> exists|c: Result<OutputView, ErrorView>|
            #[trigger] ssh_gives(
                old(runs).runner(),
                remote_session(*opts),
                "cat "@ + token_drop_path() + " 2>/dev/null || true"@,
                CallInput::Stdio(StdioMode::Capture),
                c,
            ) && opt_str_result(r) == match c {
                Ok(o) => Ok(drop_token(o.stdout)),
                Err(e) => Err::<Option<Seq<char>>, ErrorView>(e),
            },
        final(runs).runner() == old(runs).runner(),
        log_grows(old(runs).log(), final(runs).log()),
        host_spec_of(opts.host@) is Err ==> final(runs).log() == old(runs).log(),
        host_spec_of(opts.host@) is Ok ==> ({
            let t = calls_between(old(runs).log(), final(runs).log());
            &&& t.len() == 1
            &&& t[0].0 == ssh_request(
                remote_session(*opts),
                "cat "@ + token_drop_path() + " 2>/dev/null || true"@,
                CallInput::Stdio(StdioMode::Capture),
            )
            &&& opt_str_result(r) == match out_at(t, 0, "ssh"@) {
                Ok(o) => Ok(drop_token(o.stdout)),
                Err(e) => Err::<Option<Seq<char>>, ErrorView>(e),
            }
        }),
{
    let ghost runner = runs.runner();
    let ghost l0 = runs.log();
    let session = session_from(opts)?;
    let drop_path = concat2("$HOME/", API_TOKEN_DROP_BASENAME);
    let cat = concat3("cat ", drop_path.as_str(), " 2>/dev/null || true");
    let res = session.exec(runs, cat.as_str(), StdioMode::Capture);
    assert(cat@ == "cat "@ + token_drop_path() + " 2>/dev/null || true"@);
    assert(ssh_gives(runner, remote_session(*opts), "cat "@ + token_drop_path() + " 2>/dev/null || true"@, CallInput::Stdio(StdioMode::Capture), reply_view(res)));
    assert(ssh_calls(calls_between(l0, runs.log()), remote_session(*opts), "cat "@ + token_drop_path() + " 2>/dev/null || true"@, CallInput::Stdio(StdioMode::Capture), reply_view(res)));
    let out = match res {
        Ok(o) => o,
        Err(e) => {
            return Err(e);
        },
    };
    let t = parse_api_token_drop(out.stdout.as_str());
    assert(opt_view(t) == drop_token(out.stdout@));
    Ok(t)
}

/// Local `/health` request run on the box.
pub const HEALTH_CURL_CMD: &'static str = "curl -fsS --connect-timeout 3 --max-time 8 http://127.0.0.1:8787/health";

/// `<install>/horto-os-ui-status-api --version`, the binary quoted.
pub open spec fn status_api_version_cmd(install_dir: Seq<char>) -> Seq<char> {
    shell_quoted(install_dir + "/horto-os-ui-status-api"@) + " --version"@
}

/// Whether `r` is what [`verify_remote_status_api`] gives when `runner`
/// answers: the on-disk `--version`, then `/health`, then the comparison.
pub open spec fn verify_gives<R: ProcessRunner>(
    runner: R,
    s: SessionView,
    install_dir: Seq<char>,
    r: Result<(), ErrorView>,
) -> bool {
    exists|v: Result<OutputView, ErrorView>|
        #[trigger] ssh_gives(
            runner,
            s,
            status_api_version_cmd(install_dir),
            CallInput::Stdio(StdioMode::Capture),
            v,
        ) && match v {
            Err(e) => r == Err::<(), ErrorView>(e),
            Ok(vo) => exists|h: Result<OutputView, ErrorView>|
                #[trigger] ssh_gives(runner, s, HEALTH_CURL_CMD@, CallInput::Stdio(StdioMode::Capture), h)
                    && match h {
                    Err(e) => r == Err::<(), ErrorView>(e),
                    Ok(ho) => r == status_api_verify_result(
                        install_dir + "/horto-os-ui-status-api"@,
                        vo,
                        ho,
                    ),
                },
        }
}

/// Whether `t` is exactly the calls of [`verify_remote_status_api`] and `r`
/// its outcome: the on-disk `--version`, then `/health` only when that ran.
pub open spec fn verify_calls(t: Seq<Entry>, s: SessionView, install_dir: Seq<char>, r: Result<(), ErrorView>) -> bool {
    &&& t.len() >= 1
    &&& t[0].0 == ssh_request(s, status_api_version_cmd(install_dir), CallInput::Stdio(StdioMode::Capture))
    &&& match out_at(t, 0, "ssh"@) {
        Err(e) => t.len() == 1 && r == Err::<(), ErrorView>(e),
        Ok(vo) => {
            &&& t.len() == 2
            &&& t[1].0 == ssh_request(s, HEALTH_CURL_CMD@, CallInput::Stdio(StdioMode::Capture))
            &&& r == match out_at(t, 1, "ssh"@) {
                Err(e) => Err::<(), ErrorView>(e),
                Ok(ho) => status_api_verify_result(install_dir + "/horto-os-ui-status-api"@, vo, ho),
            }
        },
    }
}

/// Confirm on-disk status-api `--version` matches the running `/health` `cli_version`.
pub fn verify_remote_status_api<R: ProcessRunner>(
    runs: &mut Runs<R>,
    session: &SshSession,
    install_dir: &str,
) -> (r: Result<(), HortoError>)
    ensures
        r is Ok ==> exists|v: OutputView, h: OutputView|
            v.status == 0 && h.status == 0 && (#[trigger] status_api_verify_result(
                install_dir@ + "/horto-os-ui-status-api"@,
                v,
                h,
            )) is Ok,
        verify_gives(old(runs).runner(), session@, install_dir@, unit_view(r)),
        final(runs).runner() == old(runs).runner(),
        log_grows(old(runs).log(), final(runs).log()),
        verify_calls(calls_between(old(runs).log(), final(runs).log()), session@, install_dir@, unit_view(r)),
{
    let ghost runner = runs.runner();
    let ghost l0 = runs.log();
    let bin = concat2(install_dir, "/horto-os-ui-status-api");
    let bin_q = shell_quote(bin.as_str());
    let ver_cmd = concat2(bin_q.as_str(), " --version");
    let ver_res = session.exec(runs, ver_cmd.as_str(), StdioMode::Capture);
    assert(ssh_gives(runner, session@, status_api_version_cmd(install_dir@), CallInput::Stdio(StdioMode::Capture), reply_view(ver_res)));
    let ghost l1 = runs.log();
    assert(ssh_calls(calls_between(l0, l1), session@, status_api_version_cmd(install_dir@), CallInput::Stdio(StdioMode::Capture), reply_view(ver_res)));
    let ver_out = match ver_res {
        Ok(o) => o,
        Err(e) => {
            return Err(e);
        },
    };
    let health_res = session.exec(runs, HEALTH_CURL_CMD, StdioMode::Capture);
    assert(ssh_gives(runner, session@, HEALTH_CURL_CMD@, CallInput::Stdio(StdioMode::Capture), reply_view(health_res)));
    proof {
        let l2 = runs.log();
        assert(ssh_calls(calls_between(l1, l2), session@, HEALTH_CURL_CMD@, CallInput::Stdio(StdioMode::Capture), reply_view(health_res)));
        lemma_calls_concat(l0, l1, l2);
        let t = calls_between(l0, l2);
        assert(t =~= calls_between(l0, l1) + calls_between(l1, l2));
        assert(t[0] == calls_between(l0, l1)[0]);
        assert(t[1] == calls_between(l1, l2)[0]);
    }
    let health_out = match health_res {
        Ok(o) => o,
        Err(e) => {
            return Err(e);
        },
    };
    let r = evaluate_status_api_verify(bin.as_str(), &ver_out, &health_out);
    assert(r is Ok ==> status_api_verify_result(bin@, ver_out@, health_out@) is Ok);
    r
}

/// On-disk `--version` and `/health` `cli_version` name the same build:
/// both non-empty, and equal or the disk line ends with the health one
/// (Clap prints `horto-os-ui-status-api 0.1.0 (abc)`; health uses `0.1.0 (abc)`).
pub open spec fn versions_agree(on_disk: Seq<char>, health_cli: Seq<char>) -> bool {
    let disk = normalized_version(on_disk);
    let health = normalized_version(health_cli);
    disk.len() > 0 && health.len() > 0 && (disk == health || has_suffix(disk, " "@ + health)
        || has_suffix(disk, health))
}

/// True when on-disk `--version` and `/health` `cli_version` name the same build.
pub fn status_api_versions_agree(on_disk: &str, health_cli: &str) -> (b: bool)
    ensures
        b == versions_agree(on_disk@, health_cli@),
{
    let disk = normalize_cli_version(on_disk);
    let health = normalize_cli_version(health_cli);
    if disk.as_str().is_empty() || health.as_str().is_empty() {
        return false;
    }
    let d = to_chars(disk.as_str());
    let h = to_chars(health.as_str());
    let spaced = concat2(" ", health.as_str());
    let sp = to_chars(spaced.as_str());
    seq_eq(d.as_slice(), h.as_slice()) || ends_with(d.as_slice(), sp.as_slice()) || ends_with(
        d.as_slice(),
        h.as_slice(),
    )
}

/// The string value of `key` in the JSON object `text`; named, not restated.
pub uninterp spec fn json_str_field(text: Seq<char>, key: Seq<char>) -> Option<Seq<char>>;

/// `serde_json::from_str::<serde_json::Value>(text)`, then the string at `key`:
/// `None` when the text is not JSON, `key` is absent or its value is not a string.
#[verifier::external_body]
fn json_string_field(text: &str, key: &str) -> (r: Option<String>)
    ensures
        match r {
            Some(s) => json_str_field(text@, key@) == Some(s@),
            None => json_str_field(text@, key@) is None,
        },
{
    let value: serde_json::Value = serde_json::from_str(text).ok()?;
    value.get(key).and_then(|v| v.as_str()).map(|s| s.to_owned())
}

/// Trimmed `cli_version` field, dropped when blank.
pub open spec fn cli_version_of_field(field: Option<Seq<char>>) -> Option<Seq<char>> {
    match field {
        Some(v) => if trim(v).len() > 0 {
            Some(trim(v))
        } else {
            None
        },
        None => None,
    }
}

/// Post-processing of the `cli_version` field read from `/health`.
pub fn cli_version_from_field(field: Option<String>) -> (r: Option<String>)
    ensures
        match r {
            Some(s) => cli_version_of_field(match field {
                Some(f) => Some(f@),
                None => None,
            }) == Some(s@),
            None => cli_version_of_field(match field {
                Some(f) => Some(f@),
                None => None,
            }) is None,
        },
{
    match field {
        Some(v) => {
            let c = to_chars(v.as_str());
            let t = trim_chars(c.as_slice());
            if t.len() > 0 {
                Some(from_chars(t.as_slice()))
            } else {
                None
            }
        },
        None => None,
    }
}

/// `cli_version` of a `/health` body (JSON from its first `{`).
pub open spec fn health_version_of(body: Seq<char>) -> Option<Seq<char>> {
    match find_str(body, "{"@) {
        Some(i) => cli_version_of_field(
            json_str_field(trim(body.subrange(i, body.len() as int)), "cli_version"@),
        ),
        None => None,
    }
}

/// Parse non-empty `cli_version` from a status-api `/health` JSON body.
pub fn health_cli_version(body: &str) -> (r: Option<String>)
    ensures
        match r {
            Some(s) => health_version_of(body@) == Some(s@),
            None => health_version_of(body@) is None,
        },
{
    let c = to_chars(body);
    let brace = to_chars("{");
    let start = match find_first_chars(c.as_slice(), brace.as_slice()) {
        Some(i) => i,
        None => {
            return None;
        },
    };
    proof {
        crate::text::lemma_find_first_in_bounds(c@, brace@, 0);
    }
    let rest = slice_range(c.as_slice(), start, c.len());
    let t = trim_chars(rest.as_slice());
    let json = from_chars(t.as_slice());
    let field = json_string_field(json.as_str(), "cli_version");
    cli_version_from_field(field)
}

/// Outcome of the `--version` vs `/health` check.
pub open spec fn status_api_verify_result(bin: Seq<char>, ver: OutputView, health: OutputView) -> Result<
    (),
    ErrorView,
> {
    let on_disk = normalized_version(ver.stdout);
    if ver.status != 0 || on_disk.len() == 0 {
        Err(
            message_error(
                "status-api install verify failed: `"@ + bin
                    + " --version` empty or non-zero (exit "@ + int_text(ver.status as int)
                    + ")"@,
            ),
        )
    } else if health.status != 0 {
        Err(
            message_error(
                "status-api install verify failed: GET http://127.0.0.1:8787/health (exit "@
                    + int_text(health.status as int) + "): "@ + failure_detail(health),
            ),
        )
    } else {
        match health_version_of(health.stdout) {
            None => Err(
                message_error(
                    "status-api install verify failed: /health missing cli_version (got "@
                        + trim(health.stdout) + ")"@,
                ),
            ),
            Some(running) => if versions_agree(on_disk, running) {
                Ok(())
            } else {
                Err(
                    message_error(
                        "status-api install verify failed: on-disk `"@ + on_disk
                            + "` != running /health cli_version `"@ + running + "`"@,
                    ),
                )
            },
        }
    }
}

/// Check captured `--version` and `/health` outputs agree on the installed build.
pub fn evaluate_status_api_verify(
    bin: &str,
    ver_out: &CommandOutput,
    health_out: &CommandOutput,
) -> (r: Result<(), HortoError>)
    ensures
        match r {
            Ok(()) => status_api_verify_result(bin@, ver_out@, health_out@) is Ok,
            Err(e) => status_api_verify_result(bin@, ver_out@, health_out@) == Err::<(), ErrorView>(
                e@,
            ),
        },
{
    let on_disk = normalize_cli_version(ver_out.stdout.as_str());
    if !ver_out.success() || on_disk.as_str().is_empty() {
        let code = int_to_string(ver_out.status as i64);
        let mut m = concat3("status-api install verify failed: `", bin, " --version` empty or non-zero (exit ");
        m.append(code.as_str());
        m.append(")");
        return Err(HortoError::msg(m.as_str()));
    }
    if !health_out.success() {
        let code = int_to_string(health_out.status as i64);
        let detail = output_detail(health_out);
        let mut m = concat3(
            "status-api install verify failed: GET http://127.0.0.1:8787/health (exit ",
            code.as_str(),
            "): ",
        );
        m.append(detail.as_str());
        return Err(HortoError::msg(m.as_str()));
    }
    let running = match health_cli_version(health_out.stdout.as_str()) {
        Some(v) => v,
        None => {
            let got = crate::text::trim_str(health_out.stdout.as_str());
            let m = concat3(
                "status-api install verify failed: /health missing cli_version (got ",
                got.as_str(),
                ")",
            );
            return Err(HortoError::msg(m.as_str()));
        },
    };
    if !status_api_versions_agree(on_disk.as_str(), running.as_str()) {
        let mut m = concat3("status-api install verify failed: on-disk `", on_disk.as_str(), "` != running /health cli_version `");
        m.append(running.as_str());
        m.append("`");
        return Err(HortoError::msg(m.as_str()));
    }
    Ok(())
}

} // verus!
