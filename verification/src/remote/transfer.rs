//! File transfer: `scp` first; prefer `rsync -e ssh` when both ends have it.
use vstd::prelude::*;
use crate::remote::process::{calls_between, lemma_calls_concat, log_grows, out_at, Entry, Runs};
use crate::error::{message_error, ErrorView, HortoError};
use crate::remote::process::{
    call, checked_unit, reply_ok, reply_view, require_ok, unit_view, CallInput, CallView,
    OutputView, ProcessRunner, StdioMode,
};
use crate::remote::ssh::{
    ref_pair_views, ref_views, scp_calls, scp_request, ssh_calls, ssh_gives, ssh_request, SessionView,
    str_refs, SshEnv, SshSession, RSYNC_PROBE,
};
use crate::text::{
    concat2, concat3, from_chars, owned, seq_eq, split_at_char, split_char, sviews, to_chars, views,
};

verus! {

/// Last path component that is neither empty nor `.`.
pub open spec fn last_normal(parts: Seq<Seq<char>>) -> Option<Seq<char>>
    decreases parts.len(),
{
    if parts.len() == 0 {
        None
    } else if parts.last().len() == 0 || parts.last() == "."@ {
        last_normal(parts.drop_last())
    } else {
        Some(parts.last())
    }
}

/// `Path::file_name` of a `/`-separated path: the final normal component,
/// none when the path ends in `..` or has no component.
pub open spec fn path_file_name(p: Seq<char>) -> Option<Seq<char>> {
    match last_normal(split_at_char(p, '/')) {
        Some(l) => if l == ".."@ {
            None
        } else {
            Some(l)
        },
        None => None,
    }
}

/// File name of a local path (see [`path_file_name`]).
pub fn file_name_of(path: &str) -> (r: Option<String>)
    ensures
        match r {
            Some(s) => path_file_name(path@) == Some(s@),
            None => path_file_name(path@) is None,
        },
{
    let chars = to_chars(path);
    let parts = split_char(chars.as_slice(), '/');
    let dot = to_chars(".");
    let dotdot = to_chars("..");
    let ghost pv = views(parts@);
    let mut i: usize = parts.len();
    assert(pv.subrange(0, i as int) =~= pv);
    while i > 0
        invariant
            i <= parts@.len(),
            pv == views(parts@),
            pv == split_at_char(path@, '/'),
            dot@ == "."@,
            dotdot@ == ".."@,
            last_normal(pv) == last_normal(pv.subrange(0, i as int)),
        decreases i,
    {
        let p = &parts[i - 1];
        let ghost sub = pv.subrange(0, i as int);
        assert(sub.last() == p@);
        assert(sub.drop_last() =~= pv.subrange(0, i - 1));
        if p.len() > 0 && !seq_eq(p.as_slice(), dot.as_slice()) {
            if seq_eq(p.as_slice(), dotdot.as_slice()) {
                return None;
            }
            return Some(from_chars(p.as_slice()));
        }
        i = i - 1;
    }
    None
}

/// `mkdir -p <dir>` remote command.
pub open spec fn mkdir_cmd(dir: Seq<char>) -> Seq<char> {
    "mkdir -p "@ + dir
}

/// `rsync` arguments copying `locals` into `host:dir/`.
pub open spec fn rsync_args(locals: Seq<Seq<char>>, host: Seq<char>, dir: Seq<char>) -> Seq<
    Seq<char>,
> {
    seq!["-e"@, "ssh"@, "-a"@] + locals + seq![host + ":"@ + dir + "/"@]
}

/// Arguments of the `rsync` copy in [`transfer_files`].
pub fn rsync_copy_args(locals: &[&str], host: &str, remote_dir: &str) -> (args: Vec<String>)
    ensures
        sviews(args@) == rsync_args(ref_views(locals@), host@, remote_dir@),
{
    let mut args: Vec<String> = Vec::new();
    args.push(owned("-e"));
    args.push(owned("ssh"));
    args.push(owned("-a"));
    let ghost base = sviews(args@);
    assert(base =~= seq!["-e"@, "ssh"@, "-a"@]);
    let mut i: usize = 0;
    while i < locals.len()
        invariant
            i <= locals@.len(),
            sviews(args@) == base + ref_views(locals@).subrange(0, i as int),
        decreases locals@.len() - i,
    {
        let ghost a0 = sviews(args@);
        args.push(owned(locals[i]));
        assert(sviews(args@) =~= a0.push(locals@[i as int]@));
        assert(ref_views(locals@).subrange(0, i + 1) =~= ref_views(locals@).subrange(
            0,
            i as int,
        ).push(locals@[i as int]@));
        i = i + 1;
    }
    assert(ref_views(locals@).subrange(0, i as int) =~= ref_views(locals@));
    let mut dest = concat3(host, ":", remote_dir);
    dest.append("/");
    let ghost a1 = sviews(args@);
    args.push(dest);
    assert(sviews(args@) =~= a1.push(host@ + ":"@ + remote_dir@ + "/"@));
    args
}

/// The local `rsync --version` request.
pub open spec fn rsync_version_request() -> CallView {
    call("rsync"@, seq!["--version"@], seq![], StdioMode::Capture)
}

/// Whether `b` is what [`prefer_rsync`] gives when `runner` answers its requests.
pub open spec fn prefer_rsync_gives<R: ProcessRunner>(runner: R, s: SessionView, b: bool) -> bool {
    exists|local: Result<OutputView, ErrorView>|
        #[trigger] runner.may_reply(rsync_version_request(), local) && if reply_ok(local) {
            exists|e: Result<OutputView, ErrorView>|
                #[trigger] ssh_gives(runner, s, RSYNC_PROBE@, CallInput::Stdio(StdioMode::Capture), e)
                    && b == (e is Ok)
        } else {
            !b
        }
}

/// Error text for a local path without a file name.
pub open spec fn bad_name_text() -> Seq<char> {
    "bad local file name for scp"@
}

/// Remote destination of one copied file.
pub open spec fn scp_dest(local: Seq<char>, dir: Seq<char>) -> Seq<char> {
    dir + "/"@ + path_file_name(local)->0
}

/// Whether `r` is the outcome of copying `locals` one by one into `dir`,
/// when `replies` are the replies to the `scp` requests that were made:
/// copies stop at the first failure or at the first path without a file name.
pub open spec fn scp_copies_give<R: ProcessRunner>(
    runner: R,
    s: SessionView,
    locals: Seq<Seq<char>>,
    dir: Seq<char>,
    replies: Seq<Result<OutputView, ErrorView>>,
    r: Result<(), ErrorView>,
) -> bool {
    &&& replies.len() <= locals.len()
    &&& forall|k: int|
        #![trigger replies[k]]
        0 <= k < replies.len() ==> path_file_name(locals[k]) is Some && runner.may_reply(
            scp_request(s, locals[k], scp_dest(locals[k], dir)),
            replies[k],
        )
    &&& forall|k: int| #![trigger replies[k]] 0 <= k < replies.len() - 1 ==> reply_ok(replies[k])
    &&& if replies.len() > 0 && !reply_ok(replies.last()) {
        r == checked_unit("scp"@, replies.last())
    } else if replies.len() < locals.len() {
        path_file_name(locals[replies.len() as int]) is None && r == Err::<(), ErrorView>(
            message_error(bad_name_text()),
        )
    } else {
        r is Ok
    }
}

/// Whether `r` is what [`scp_files`] gives when `runner` answers its requests.
pub open spec fn scp_files_gives<R: ProcessRunner>(
    runner: R,
    s: SessionView,
    locals: Seq<Seq<char>>,
    dir: Seq<char>,
    r: Result<(), ErrorView>,
) -> bool {
    exists|m: Result<OutputView, ErrorView>|
        #[trigger] ssh_gives(runner, s, mkdir_cmd(dir), CallInput::Stdio(StdioMode::Capture), m)
            && match m {
            Err(e) => r == Err::<(), ErrorView>(e),
            Ok(_) => exists|replies: Seq<Result<OutputView, ErrorView>>|
                #[trigger] scp_copies_give(runner, s, locals, dir, replies, r),
        }
}

/// The `rsync` request copying `locals` into `dir` on the session's host.
pub open spec fn rsync_copy_request(s: SessionView, locals: Seq<Seq<char>>, dir: Seq<char>) -> CallView {
    CallView {
        program: "rsync"@,
        args: rsync_args(locals, s.host, dir),
        env: s.env,
        input: CallInput::Stdio(StdioMode::Inherit),
    }
}

/// Whether `r` is what [`transfer_files`] gives when `runner` answers its
/// requests: `rsync` when both ends have it, else `scp` file by file.
pub open spec fn transfer_gives<R: ProcessRunner>(
    runner: R,
    s: SessionView,
    locals: Seq<Seq<char>>,
    dir: Seq<char>,
    r: Result<(), ErrorView>,
) -> bool {
        exists|pr: bool|
            #[trigger] prefer_rsync_gives(runner, s, pr) && if pr {
                exists|m: Result<OutputView, ErrorView>|
                    #[trigger] ssh_gives(
                        runner,
                        s,
                        mkdir_cmd(dir),
                        CallInput::Stdio(StdioMode::Capture),
                        m,
                    ) && match m {
                        Err(e) => r == Err::<(), ErrorView>(e),
                        Ok(_) => exists|reply: Result<OutputView, ErrorView>|
                            #[trigger] runner.may_reply(
                                rsync_copy_request(s, locals, dir),
                                reply,
                            ) && r == checked_unit("rsync"@, reply),
                    }
            } else {
                scp_files_gives(runner, s, locals, dir, r)
            }
}

/// Whether `t` is exactly the calls of [`prefer_rsync`] and `b` its answer:
/// the local `rsync --version`, then the remote probe only when that worked.
pub open spec fn prefer_calls(t: Seq<Entry>, s: SessionView, b: bool) -> bool {
    &&& t.len() >= 1
    &&& t[0].0 == rsync_version_request()
    &&& if reply_ok(t[0].1) {
        &&& t.len() == 2
        &&& t[1].0 == ssh_request(s, RSYNC_PROBE@, CallInput::Stdio(StdioMode::Capture))
        &&& b == (out_at(t, 1, "ssh"@) is Ok)
    } else {
        t.len() == 1 && !b
    }
}

/// Whether `t` is exactly the `scp` copies of [`scp_files`] after the
/// directory was made, and `r` their outcome: one call per local path in
/// order, stopping after the first failure or before a path without a file
/// name.
pub open spec fn scp_copy_calls(
    t: Seq<Entry>,
    s: SessionView,
    locals: Seq<Seq<char>>,
    dir: Seq<char>,
    r: Result<(), ErrorView>,
) -> bool {
    &&& t.len() <= locals.len()
    &&& forall|k: int|
        #![trigger t[k]]
        0 <= k < t.len() ==> path_file_name(locals[k]) is Some && t[k].0 == scp_request(
            s,
            locals[k],
            scp_dest(locals[k], dir),
        )
    &&& forall|k: int| #![trigger t[k]] 0 <= k < t.len() - 1 ==> reply_ok(t[k].1)
    &&& if t.len() > 0 && !reply_ok(t.last().1) {
        r == checked_unit("scp"@, t.last().1)
    } else if t.len() < locals.len() {
        path_file_name(locals[t.len() as int]) is None && r == Err::<(), ErrorView>(
            message_error(bad_name_text()),
        )
    } else {
        r is Ok
    }
}

/// Whether `t` is exactly the calls of [`scp_files`] and `r` its outcome:
/// `mkdir -p` of the directory, then [`scp_copy_calls`] when it worked.
pub open spec fn scp_files_calls(
    t: Seq<Entry>,
    s: SessionView,
    locals: Seq<Seq<char>>,
    dir: Seq<char>,
    r: Result<(), ErrorView>,
) -> bool {
    &&& t.len() >= 1
    &&& t[0].0 == ssh_request(s, mkdir_cmd(dir), CallInput::Stdio(StdioMode::Capture))
    &&& match out_at(t, 0, "ssh"@) {
        Err(e) => t.len() == 1 && r == Err::<(), ErrorView>(e),
        Ok(_) => scp_copy_calls(t.subrange(1, t.len() as int), s, locals, dir, r),
    }
}

/// Whether `t` is exactly the calls of [`transfer_files`] and `r` its
/// outcome: [`prefer_calls`]; then `mkdir -p` and one `rsync` when both
/// ends have it, else [`scp_files_calls`].
pub open spec fn transfer_calls(
    t: Seq<Entry>,
    s: SessionView,
    locals: Seq<Seq<char>>,
    dir: Seq<char>,
    r: Result<(), ErrorView>,
) -> bool {
    exists|k: int, pr: bool|
        #![trigger prefer_calls(t.subrange(0, k), s, pr)]
        0 <= k <= t.len() && prefer_calls(t.subrange(0, k), s, pr) && ({
            let u = t.subrange(k, t.len() as int);
            if pr {
                &&& u.len() >= 1
                &&& u[0].0 == ssh_request(s, mkdir_cmd(dir), CallInput::Stdio(StdioMode::Capture))
                &&& match out_at(u, 0, "ssh"@) {
                    Err(e) => u.len() == 1 && r == Err::<(), ErrorView>(e),
                    Ok(_) => u.len() == 2 && u[1].0 == rsync_copy_request(s, locals, dir) && r
                        == checked_unit("rsync"@, u[1].1),
                }
            } else {
                scp_files_calls(u, s, locals, dir, r)
            }
        })
}

/// True when local `rsync` exists and the remote host has `rsync` on PATH.
pub fn prefer_rsync<R: ProcessRunner>(runs: &mut Runs<R>, session: &SshSession) -> (b: bool)
    ensures
        prefer_rsync_gives(old(runs).runner(), session@, b),
        final(runs).runner() == old(runs).runner(),
        log_grows(old(runs).log(), final(runs).log()),
        prefer_calls(calls_between(old(runs).log(), final(runs).log()), session@, b),
{
    let ghost runner = runs.runner();
    let ghost l0 = runs.log();
    let args: [&str; 1] = ["--version"];
    let env: [(&str, &str); 0] = [];
    assert(ref_views(args@) =~= seq!["--version"@]);
    assert(ref_pair_views(env@) =~= seq![]);
    let res = runs.run("rsync", &args, &env, StdioMode::Capture);
    let ghost local = reply_view(res);
    assert(runner.may_reply(rsync_version_request(), local));
    let ghost l1 = runs.log();
    assert(calls_between(l0, l1) =~= seq![(rsync_version_request(), local)]);
    let ok = match res {
        Ok(o) => o.success(),
        Err(_) => false,
    };
    if !ok {
        return false;
    }
    let has = session.remote_has_rsync(runs);
    proof {
        lemma_calls_concat(l0, l1, runs.log());
    }
    has
}

/// Copy one or more local files to a remote directory using `scp`.
///
/// Creates the directory first; a local path without a file name is refused.
pub fn scp_files<R: ProcessRunner>(
    runs: &mut Runs<R>,
    session: &SshSession,
    locals: &[&str],
    remote_dir: &str,
) -> (r: Result<(), HortoError>)
    ensures
        r is Ok ==> forall|i: int| 0 <= i < locals@.len() ==> path_file_name(#[trigger] locals@[i]@) is Some,
        scp_files_gives(old(runs).runner(), session@, ref_views(locals@), remote_dir@, unit_view(r)),
        final(runs).runner() == old(runs).runner(),
        log_grows(old(runs).log(), final(runs).log()),
        scp_files_calls(
            calls_between(old(runs).log(), final(runs).log()),
            session@,
            ref_views(locals@),
            remote_dir@,
            unit_view(r),
        ),
{
    let ghost runner = runs.runner();
    let ghost l0 = runs.log();
    let ghost lv = ref_views(locals@);
    let cmd = concat2("mkdir -p ", remote_dir);
    let made = session.exec(runs, cmd.as_str(), StdioMode::Capture);
    let ghost m = reply_view(made);
    assert(ssh_gives(runner, session@, mkdir_cmd(remote_dir@), CallInput::Stdio(StdioMode::Capture), m));
    let ghost l1 = runs.log();
    let ghost t0 = calls_between(l0, l1);
    assert(ssh_calls(t0, session@, mkdir_cmd(remote_dir@), CallInput::Stdio(StdioMode::Capture), m));
    match made {
        Ok(_) => {},
        Err(e) => {
            return Err(e);
        },
    }
    let ghost mut replies: Seq<Result<OutputView, ErrorView>> = seq![];
    let mut i: usize = 0;
    while i < locals.len()
        invariant
            i <= locals@.len(),
            lv == ref_views(locals@),
            replies.len() == i,
            runs.runner() == runner,
            log_grows(l0, runs.log()),
            runner == old(runs).runner(),
            l0 == old(runs).log(),
            m is Ok,
            ssh_gives(runner, session@, mkdir_cmd(remote_dir@), CallInput::Stdio(StdioMode::Capture), m),
            forall|j: int| 0 <= j < i ==> path_file_name(#[trigger] locals@[j]@) is Some,
            forall|k: int|
                #![trigger replies[k]]
                0 <= k < replies.len() ==> path_file_name(lv[k]) is Some && runner.may_reply(
                    scp_request(session@, lv[k], scp_dest(lv[k], remote_dir@)),
                    replies[k],
                ),
            forall|k: int| #![trigger replies[k]] 0 <= k < replies.len() ==> reply_ok(replies[k]),
            log_grows(l0, l1),
            log_grows(l1, runs.log()),
            t0 == calls_between(l0, l1),
            ssh_calls(t0, session@, mkdir_cmd(remote_dir@), CallInput::Stdio(StdioMode::Capture), m),
            calls_between(l1, runs.log()).len() == i,
            forall|k: int|
                #![trigger calls_between(l1, runs.log())[k]]
                0 <= k < i ==> calls_between(l1, runs.log())[k].0 == scp_request(
                    session@,
                    lv[k],
                    scp_dest(lv[k], remote_dir@),
                ) && reply_ok(calls_between(l1, runs.log())[k].1),
        decreases locals@.len() - i,
    {
        assert(lv[i as int] == locals@[i as int]@);
        let ghost lb = runs.log();
        let name = match file_name_of(locals[i]) {
            Some(n) => n,
            None => {
                proof {
                    assert(scp_copies_give(runner, session@, lv, remote_dir@, replies, Err(message_error(bad_name_text()))));
                    lemma_calls_concat(l0, l1, runs.log());
                    let tc = calls_between(l1, runs.log());
                    let t = calls_between(l0, runs.log());
                    assert(t =~= t0 + tc);
                    assert(t.subrange(1, t.len() as int) =~= tc);
                    assert(scp_copy_calls(tc, session@, lv, remote_dir@, Err(message_error(bad_name_text()))));
                }
                return Err(HortoError::msg("bad local file name for scp"));
            },
        };
        let remote_path = concat3(remote_dir, "/", name.as_str());
        let copied = session.scp_to(runs, locals[i], remote_path.as_str());
        proof {
            let e = calls_between(lb, runs.log());
            assert(scp_calls(e, session@, locals@[i as int]@, remote_path@, unit_view(copied)));
            assert(calls_between(l1, runs.log()) =~= calls_between(l1, lb).push(e[0]));
        }
        let ghost rep = choose|reply: Result<OutputView, ErrorView>|
            #[trigger] runner.may_reply(scp_request(session@, locals@[i as int]@, remote_path@), reply)
                && unit_view(copied) == checked_unit("scp"@, reply);
        let ghost next = replies.push(rep);
        assert(remote_path@ == scp_dest(lv[i as int], remote_dir@));
        assert(next[i as int] == rep);
        match copied {
            Ok(()) => {},
            Err(e) => {
                proof {
                    assert(!reply_ok(rep));
                    assert(next.last() == rep);
                    assert(scp_copies_give(runner, session@, lv, remote_dir@, next, unit_view(copied)));
                    lemma_calls_concat(l0, l1, runs.log());
                    let tc = calls_between(l1, runs.log());
                    let t = calls_between(l0, runs.log());
                    assert(t =~= t0 + tc);
                    assert(t.subrange(1, t.len() as int) =~= tc);
                    assert(tc.last() == tc[i as int]);
                    assert(scp_copy_calls(tc, session@, lv, remote_dir@, unit_view(copied)));
                }
                return Err(e);
            },
        }
        proof {
            replies = next;
        }
        i = i + 1;
    }
    proof {
        assert(scp_copies_give(runner, session@, lv, remote_dir@, replies, Ok(())));
        lemma_calls_concat(l0, l1, runs.log());
        let tc = calls_between(l1, runs.log());
        let t = calls_between(l0, runs.log());
        assert(t =~= t0 + tc);
        assert(t.subrange(1, t.len() as int) =~= tc);
        if tc.len() > 0 {
            assert(tc.last() == tc[tc.len() - 1]);
        }
        assert(scp_copy_calls(tc, session@, lv, remote_dir@, Ok(())));
    }
    Ok(())
}

/// Copy files with rsync when available, otherwise scp.
pub fn transfer_files<R: ProcessRunner>(
    runs: &mut Runs<R>,
    session: &SshSession,
    locals: &[&str],
    remote_dir: &str,
) -> (r: Result<(), HortoError>)
    ensures
        transfer_gives(old(runs).runner(), session@, ref_views(locals@), remote_dir@, unit_view(r)),
        final(runs).runner() == old(runs).runner(),
        log_grows(old(runs).log(), final(runs).log()),
        transfer_calls(
            calls_between(old(runs).log(), final(runs).log()),
            session@,
            ref_views(locals@),
            remote_dir@,
            unit_view(r),
        ),
{
    let ghost runner = runs.runner();
    let ghost l0 = runs.log();
    let pr = prefer_rsync(runs, session);
    let ghost l1 = runs.log();
    let ghost t1 = calls_between(l0, l1);
    assert(prefer_rsync_gives(runner, session@, pr));
    assert(prefer_calls(t1, session@, pr));
    if pr {
        let cmd = concat2("mkdir -p ", remote_dir);
        let made = session.exec(runs, cmd.as_str(), StdioMode::Capture);
        let ghost m = reply_view(made);
        assert(ssh_gives(runner, session@, mkdir_cmd(remote_dir@), CallInput::Stdio(StdioMode::Capture), m));
        let ghost l2 = runs.log();
        let ghost t2 = calls_between(l1, l2);
        assert(ssh_calls(t2, session@, mkdir_cmd(remote_dir@), CallInput::Stdio(StdioMode::Capture), m));
        proof {
            lemma_calls_concat(l0, l1, l2);
            let t = t1 + t2;
            assert(t.subrange(0, t1.len() as int) =~= t1);
            assert(t.subrange(t1.len() as int, t.len() as int) =~= t2);
            assert(prefer_calls(t.subrange(0, t1.len() as int), session@, pr));
        }
        match made {
            Ok(_) => {},
            Err(e) => {
                return Err(e);
            },
        }
        let owned_args = rsync_copy_args(locals, session.host.raw.as_str(), remote_dir);
        let args = str_refs(&owned_args);
        let env_owned = session.env.as_pairs();
        let env_refs = SshEnv::as_refs(&env_owned);
        let res = runs.run("rsync", args.as_slice(), env_refs.as_slice(), StdioMode::Inherit);
        let ghost reply = reply_view(res);
        assert(runner.may_reply(rsync_copy_request(session@, ref_views(locals@), remote_dir@), reply));
        proof {
            let l3 = runs.log();
            assert(calls_between(l2, l3) =~= seq![(rsync_copy_request(session@, ref_views(locals@), remote_dir@), reply)]);
            lemma_calls_concat(l0, l2, l3);
            lemma_calls_concat(l0, l1, l2);
            let u = t2 + calls_between(l2, l3);
            let t = t1 + u;
            assert(calls_between(l0, l3) =~= t);
            assert(t.subrange(0, t1.len() as int) =~= t1);
            assert(t.subrange(t1.len() as int, t.len() as int) =~= u);
            assert(prefer_calls(t.subrange(0, t1.len() as int), session@, pr));
        }
        let out = match res {
            Ok(o) => o,
            Err(e) => {
                return Err(e);
            },
        };
        return require_ok("rsync", &out);
    }
    let copied = scp_files(runs, session, locals, remote_dir);
    proof {
        let l3 = runs.log();
        lemma_calls_concat(l0, l1, l3);
        let u = calls_between(l1, l3);
        let t = t1 + u;
        assert(t.subrange(0, t1.len() as int) =~= t1);
        assert(t.subrange(t1.len() as int, t.len() as int) =~= u);
        assert(prefer_calls(t.subrange(0, t1.len() as int), session@, pr));
    }
    copied
}

} // verus!
