//! Remote box reboot helpers.
use vstd::prelude::*;
use crate::remote::process::{calls_between, log_grows, out_at, Entry, Runs};
use vstd::utf8::encode_utf8;
use crate::error::{error_text, ErrorView, HortoError};
use crate::remote::host::host_spec_of;
use crate::remote::process::{
    reply_view, unit_view, CallInput, OutputView, ProcessRunner, StdioMode,
};
use crate::remote::runner::options::{remote_session, session_from, RemoteOptions};
use crate::remote::ssh::{opt_str_view, ssh_gives, ssh_request, SessionView, SshSession};
use crate::secret::wipe_secret;
use crate::text::{
    concat2, contains, contains_seq, lower, lower_chars, seq_eq, to_chars, trim, trim_chars,
};

verus! {

/// A reboot prompt answer that means "reboot now": `y` or `yes`, any case,
/// surrounding whitespace ignored.
pub open spec fn reboot_answer_yes(raw: Seq<char>) -> bool {
    let a = lower(trim(raw));
    a == "y"@ || a == "yes"@
}

/// Whether a reboot prompt answer means reboot now.
pub fn wants_reboot_now(raw: &str) -> (b: bool)
    ensures
        b == reboot_answer_yes(raw@),
{
    let c = to_chars(raw);
    let t = trim_chars(c.as_slice());
    let a = lower_chars(t.as_slice());
    let y = to_chars("y");
    let yes = to_chars("yes");
    seq_eq(a.as_slice(), y.as_slice()) || seq_eq(a.as_slice(), yes.as_slice())
}

/// Error text that means the SSH session dropped because the box went down.
pub open spec fn reboot_drop_text(e: ErrorView) -> bool {
    let s = lower(error_text(e));
    ||| contains(s, "connection closed"@)
    ||| contains(s, "connection reset"@)
    ||| contains(s, "broken pipe"@)
    ||| contains(s, "exit 255"@)
}

/// Whether an error is the expected session drop once reboot starts.
pub fn ssh_drop_after_reboot(err: &HortoError) -> (b: bool)
    ensures
        b == reboot_drop_text(err@),
{
    let t = err.to_text();
    let c = to_chars(t.as_str());
    let s = lower_chars(c.as_slice());
    let p1 = to_chars("connection closed");
    let p2 = to_chars("connection reset");
    let p3 = to_chars("broken pipe");
    let p4 = to_chars("exit 255");
    contains_seq(s.as_slice(), p1.as_slice()) || contains_seq(s.as_slice(), p2.as_slice())
        || contains_seq(s.as_slice(), p3.as_slice()) || contains_seq(s.as_slice(), p4.as_slice())
}

/// Whether `r` is what a confirmed reboot gives when `runner` answers: `sudo
/// reboot` on the terminal (any outcome is fine), or `sudo -S reboot` fed the
/// password, where only an error other than the expected drop is kept.
pub open spec fn reboot_gives<R: ProcessRunner>(
    runner: R,
    s: SessionView,
    sudo: Option<Seq<char>>,
    r: Result<(), ErrorView>,
) -> bool {
    if sudo is Some {
        exists|e: Result<OutputView, ErrorView>|
            #[trigger] ssh_gives(
                runner,
                s,
                "sudo -S reboot"@,
                CallInput::Stdin(encode_utf8(password_line(sudo->0))),
                e,
            ) && r == sudo_reboot_result(e)
    } else {
        r is Ok && exists|e: Result<OutputView, ErrorView>|
            #[trigger] ssh_gives(runner, s, "sudo reboot"@, CallInput::Stdio(StdioMode::Inherit), e)
    }
}

/// A `sudo -S reboot` reply gives [`reboot_gives`] for that password.
proof fn lemma_reboot_some<R: ProcessRunner>(runner: R, s: SessionView, p: Seq<char>, r: Result<(), ErrorView>, e: Result<OutputView, ErrorView>)
    requires
        ssh_gives(runner, s, "sudo -S reboot"@, CallInput::Stdin(encode_utf8(password_line(p))), e),
        r == sudo_reboot_result(e),
    ensures
        reboot_gives(runner, s, Some(p), r),
{
    assert(Some(p)->0 == p);
    assert(exists|e2: Result<OutputView, ErrorView>| #[trigger] ssh_gives(runner, s, "sudo -S reboot"@, CallInput::Stdin(encode_utf8(password_line(p))), e2) && r == sudo_reboot_result(e2));
}

/// Whether `t` is exactly the calls of a reboot answered `yes` (or not) and
/// `r` its result: nothing without a yes; otherwise one `ssh` call, `sudo
/// reboot` on the terminal or `sudo -S reboot` fed the password line.
pub open spec fn reboot_calls(
    t: Seq<Entry>,
    s: SessionView,
    yes: bool,
    sudo: Option<Seq<char>>,
    r: Result<(), ErrorView>,
) -> bool {
    if !yes {
        t.len() == 0 && r is Ok
    } else if sudo is Some {
        &&& t.len() == 1
        &&& t[0].0 == ssh_request(
            s,
            "sudo -S reboot"@,
            CallInput::Stdin(encode_utf8(password_line(sudo->0))),
        )
        &&& r == sudo_reboot_result(out_at(t, 0, "ssh"@))
    } else {
        &&& t.len() == 1
        &&& t[0].0 == ssh_request(s, "sudo reboot"@, CallInput::Stdio(StdioMode::Inherit))
        &&& r is Ok
    }
}

/// A password followed by a newline, as fed to `sudo -S`.
pub open spec fn password_line(p: Seq<char>) -> Seq<char> {
    p + "\n"@
}

/// Outcome of `sudo -S reboot`: an expected session drop counts as success.
pub open spec fn sudo_reboot_result(e: Result<OutputView, ErrorView>) -> Result<(), ErrorView> {
    match e {
        Err(x) => if reboot_drop_text(x) {
            Ok(())
        } else {
            Err(x)
        },
        Ok(_) => Ok(()),
    }
}

/// Reboot the box when `answer` says so.
///
/// Without a password, `sudo reboot` runs on the inherited TTY and any SSH
/// error counts as the expected drop. With one, `sudo -S reboot` is fed the
/// password on stdin and only a session drop is forgiven.
pub fn finish_remote_reboot<R: ProcessRunner>(
    runs: &mut Runs<R>,
    session: &SshSession,
    answer: &str,
    sudo_password: Option<&str>,
) -> (r: Result<(), HortoError>)
    ensures
        !reboot_answer_yes(answer@) ==> r is Ok,
        sudo_password is None ==> r is Ok,
        r matches Err(e) ==> !reboot_drop_text(e@),
        reboot_answer_yes(answer@) ==> reboot_gives(
            old(runs).runner(),
            session@,
            opt_str_view(sudo_password),
            unit_view(r),
        ),
        final(runs).runner() == old(runs).runner(),
        log_grows(old(runs).log(), final(runs).log()),
        reboot_calls(
            calls_between(old(runs).log(), final(runs).log()),
            session@,
            reboot_answer_yes(answer@),
            opt_str_view(sudo_password),
            unit_view(r),
        ),
{
    let ghost runner = runs.runner();
    if !wants_reboot_now(answer) {
        return Ok(());
    }
    let result = match sudo_password {
        Some(pass) => {
            let mut feed = concat2(pass, "\n");
            let out = session.exec_stdin(runs, "sudo -S reboot", feed.as_str().as_bytes());
            assert(ssh_gives(runner, session@, "sudo -S reboot"@, CallInput::Stdin(encode_utf8(password_line(pass@))), reply_view(out)));
            wipe_secret(&mut feed);
            let ghost ov = reply_view(out);
            let res: Result<(), HortoError> = match out {
                Ok(_) => Ok(()),
                Err(e) => {
                    if ssh_drop_after_reboot(&e) {
                        Ok(())
                    } else {
                        Err(e)
                    }
                },
            };
            assert(opt_str_view(sudo_password) == Some(pass@));
            assert(unit_view(res) == sudo_reboot_result(ov));
            assert(ssh_gives(runner, session@, "sudo -S reboot"@, CallInput::Stdin(encode_utf8(password_line(pass@))), ov));
            proof {
                lemma_reboot_some(runner, session@, pass@, unit_view(res), ov);
            }
            res
        },
        None => {
            let res = session.exec(runs, "sudo reboot", StdioMode::Inherit);
            assert(ssh_gives(runner, session@, "sudo reboot"@, CallInput::Stdio(StdioMode::Inherit), reply_view(res)));
            assert(reboot_gives(runner, session@, opt_str_view(sudo_password), Ok(())));
            Ok(())
        },
    };
    result
}

/// The answer `y` confirms a reboot.
proof fn lemma_y_confirms()
    ensures
        reboot_answer_yes("y"@),
{
    reveal_strlit("y");
    let y = "y"@;
    assert(y.len() == 1 && y[0] == 'y');
    assert(!crate::text::is_ws('y'));
    assert(crate::text::trim_start(y) == y);
    assert(crate::text::trim_end(y) == y);
    assert(lower(y) =~= y);
}

/// Issue `sudo reboot` on the box (password on the terminal via Inherit).
pub fn remote_reboot<R: ProcessRunner>(runs: &mut Runs<R>, opts: &RemoteOptions) -> (r: Result<
    (),
    HortoError,
>)
    ensures
        match host_spec_of(opts.host@) {
            Ok(_) => r is Ok,
            Err(e) => r matches Err(e2) && e2@ == e,
        },
        host_spec_of(opts.host@) is Ok ==> reboot_gives(
            old(runs).runner(),
            remote_session(*opts),
            None,
            unit_view(r),
        ),
        final(runs).runner() == old(runs).runner(),
        log_grows(old(runs).log(), final(runs).log()),
        host_spec_of(opts.host@) is Err ==> calls_between(old(runs).log(), final(runs).log()).len() == 0,
        host_spec_of(opts.host@) is Ok ==> reboot_calls(
            calls_between(old(runs).log(), final(runs).log()),
            remote_session(*opts),
            true,
            None,
            unit_view(r),
        ),
{
    let session = session_from(opts)?;
    proof {
        lemma_y_confirms();
    }
    finish_remote_reboot(runs, &session, "y", None)
}

/// Issue `sudo reboot` using a sudo password already collected by the UI
/// (`sudo -S` over captured SSH; no cooked TTY needed).
pub fn remote_reboot_with_sudo_password<R: ProcessRunner>(
    runs: &mut Runs<R>,
    opts: &RemoteOptions,
    sudo_password: &str,
) -> (r: Result<(), HortoError>)
    ensures
        host_spec_of(opts.host@) matches Err(e) ==> r matches Err(e2) && e2@ == e,
        host_spec_of(opts.host@) is Ok ==> reboot_gives(
            old(runs).runner(),
            remote_session(*opts),
            Some(sudo_password@),
            unit_view(r),
        ),
        final(runs).runner() == old(runs).runner(),
        log_grows(old(runs).log(), final(runs).log()),
        host_spec_of(opts.host@) is Err ==> calls_between(old(runs).log(), final(runs).log()).len() == 0,
        host_spec_of(opts.host@) is Ok ==> reboot_calls(
            calls_between(old(runs).log(), final(runs).log()),
            remote_session(*opts),
            true,
            Some(sudo_password@),
            unit_view(r),
        ),
{
    let session = session_from(opts)?;
    proof {
        lemma_y_confirms();
    }
    finish_remote_reboot(runs, &session, "y", Some(sudo_password))
}

} // verus!
