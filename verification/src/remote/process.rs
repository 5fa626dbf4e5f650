//! Injectable process runner for OpenSSH / curl / tar (unit-testable).
use vstd::prelude::*;
use crate::error::{command_error, ErrorView, HortoError};
use crate::remote::ssh::{ref_pair_views, ref_views};
use crate::text::{concat2, from_chars, int_text, int_to_string, to_chars, trim, trim_chars};

verus! {

/// How child stdio is connected.
#[derive(Debug, Clone, Copy, PartialEq, Eq)]
pub enum StdioMode {
    /// Pipe stdout/stderr so the parent can read them (probes, downloads).
    Capture,
    /// Inherit stdin/stdout/stderr so OpenSSH can prompt on a TTY.
    Inherit,
}

/// Captured stdout/stderr and exit status from an external program.
#[derive(Debug, Clone)]
pub struct CommandOutput {
    /// Process exit code (or -1 when the OS status had no code).
    pub status: i32,
    /// UTF-8 lossy stdout (empty when [`StdioMode::Inherit`]).
    pub stdout: String,
    /// UTF-8 lossy stderr (empty when [`StdioMode::Inherit`]).
    pub stderr: String,
}

/// Mathematical value of a [`CommandOutput`].
pub struct OutputView {
    pub status: i32,
    pub stdout: Seq<char>,
    pub stderr: Seq<char>,
}

impl View for CommandOutput {
    type V = OutputView;

    open spec fn view(&self) -> OutputView {
        OutputView { status: self.status, stdout: self.stdout@, stderr: self.stderr@ }
    }
}

impl CommandOutput {
    /// Whether the process exited with status 0.
    pub fn success(&self) -> (b: bool)
        ensures
            b == (self.status == 0),
    {
        self.status == 0
    }
}

/// What a run is fed besides its arguments and environment.
pub enum CallInput {
    /// Stdio connected as given.
    Stdio(StdioMode),
    /// Output captured while these bytes go to stdin.
    Stdin(Seq<u8>),
}

/// Mathematical value of one request to run a program.
pub struct CallView {
    pub program: Seq<char>,
    pub args: Seq<Seq<char>>,
    pub env: Seq<(Seq<char>, Seq<char>)>,
    pub input: CallInput,
}

/// Mathematical value of what a run gave back.
pub open spec fn reply_view(r: Result<CommandOutput, HortoError>) -> Result<OutputView, ErrorView> {
    match r {
        Ok(o) => Ok(o@),
        Err(e) => Err(e@),
    }
}

/// A reply as `require_ok` leaves it: a non-zero exit becomes the command error of `program`.
pub open spec fn checked_reply(program: Seq<char>, reply: Result<OutputView, ErrorView>) -> Result<
    OutputView,
    ErrorView,
> {
    match reply {
        Ok(o) => if o.status == 0 {
            Ok(o)
        } else {
            Err(failure_error(program, o))
        },
        Err(e) => Err(e),
    }
}

/// Mathematical value of a unit result.
pub open spec fn unit_view(r: Result<(), HortoError>) -> Result<(), ErrorView> {
    match r {
        Ok(()) => Ok(()),
        Err(e) => Err(e@),
    }
}

/// A reply with its output dropped.
pub open spec fn unit_of(e: Result<OutputView, ErrorView>) -> Result<(), ErrorView> {
    match e {
        Ok(_) => Ok(()),
        Err(x) => Err(x),
    }
}

/// `checked_reply` with the output dropped.
pub open spec fn checked_unit(program: Seq<char>, reply: Result<OutputView, ErrorView>) -> Result<
    (),
    ErrorView,
> {
    match checked_reply(program, reply) {
        Ok(_) => Ok(()),
        Err(e) => Err(e),
    }
}

/// Whether a reply counts as success: the program ran and exited 0.
pub open spec fn reply_ok(reply: Result<OutputView, ErrorView>) -> bool {
    reply matches Ok(o) && o.status == 0
}

/// A run request with stdio connected as given.
pub open spec fn call(
    program: Seq<char>,
    args: Seq<Seq<char>>,
    env: Seq<(Seq<char>, Seq<char>)>,
    stdio: StdioMode,
) -> CallView {
    CallView { program, args, env, input: CallInput::Stdio(stdio) }
}

/// Runs external programs (real OS or a test double).
///
/// Implementations decide what comes back: `may_reply` says which replies a
/// runner may give to a request, and each run gives one of them. Callers in
/// this crate state the request they make and what they do with any reply.
pub trait ProcessRunner {
    /// Whether `reply` is a reply this runner may give to `request`.
    ///
    /// By default any reply may come back; a runner whose replies are known
    /// may say which.
    open spec fn may_reply(&self, request: CallView, reply: Result<OutputView, ErrorView>) -> bool {
        true
    }

    /// Execute `program` with `args`, optional env, and stdio mode.
    fn run(&self, program: &str, args: &[&str], env: &[(&str, &str)], stdio: StdioMode) -> (r:
        Result<CommandOutput, HortoError>)
        ensures
            self.may_reply(
                call(program@, ref_views(args@), ref_pair_views(env@), stdio),
                reply_view(r),
            ),
    ;

    /// Execute `program` capturing output while feeding `stdin` bytes.
    fn run_with_stdin(&self, program: &str, args: &[&str], env: &[(&str, &str)], stdin: &[u8]) -> (r:
        Result<CommandOutput, HortoError>)
        ensures
            self.may_reply(
                CallView {
                    program: program@,
                    args: ref_views(args@),
                    env: ref_pair_views(env@),
                    input: CallInput::Stdin(stdin@),
                },
                reply_view(r),
            ),
    ;
}

/// One logged run: the request and the reply it got.
pub type Entry = (CallView, Result<OutputView, ErrorView>);

/// A runner together with the log of every request made through it.
///
/// Library functions reach programs only through [`Runs::run`] and
/// [`Runs::run_with_stdin`], which append each request and its reply to the
/// log, so a contract can say exactly which calls a function makes.
pub struct Runs<R: ProcessRunner> {
    runner: R,
    log: Ghost<Seq<Entry>>,
}

impl<R: ProcessRunner> Runs<R> {
    /// The runner underneath.
    pub closed spec fn runner(&self) -> R {
        self.runner
    }

    /// Every request made so far, with its reply, oldest first.
    pub closed spec fn log(&self) -> Seq<Entry> {
        self.log@
    }

    /// Wrap `runner` with an empty log.
    pub fn new(runner: R) -> (r: Self)
        ensures
            r.log() == Seq::<Entry>::empty(),
            r.runner() == runner,
    {
        Runs { runner, log: Ghost(Seq::empty()) }
    }

    /// Give the runner back.
    pub fn into_inner(self) -> (r: R)
        ensures
            r == self.runner(),
    {
        self.runner
    }

    /// Run `program` and log the request with its reply.
    pub fn run(&mut self, program: &str, args: &[&str], env: &[(&str, &str)], stdio: StdioMode) -> (r:
        Result<CommandOutput, HortoError>)
        ensures
            final(self).runner() == old(self).runner(),
            final(self).log() == old(self).log().push(
                (call(program@, ref_views(args@), ref_pair_views(env@), stdio), reply_view(r)),
            ),
            old(self).runner().may_reply(
                call(program@, ref_views(args@), ref_pair_views(env@), stdio),
                reply_view(r),
            ),
    {
        let r = self.runner.run(program, args, env, stdio);
        proof {
            self.log@ = self.log@.push(
                (call(program@, ref_views(args@), ref_pair_views(env@), stdio), reply_view(r)),
            );
        }
        r
    }

    /// Run `program` fed `stdin` and log the request with its reply.
    pub fn run_with_stdin(&mut self, program: &str, args: &[&str], env: &[(&str, &str)], stdin: &[u8]) -> (r:
        Result<CommandOutput, HortoError>)
        ensures
            final(self).runner() == old(self).runner(),
            final(self).log() == old(self).log().push(
                (
                    CallView {
                        program: program@,
                        args: ref_views(args@),
                        env: ref_pair_views(env@),
                        input: CallInput::Stdin(stdin@),
                    },
                    reply_view(r),
                ),
            ),
            old(self).runner().may_reply(
                CallView {
                    program: program@,
                    args: ref_views(args@),
                    env: ref_pair_views(env@),
                    input: CallInput::Stdin(stdin@),
                },
                reply_view(r),
            ),
    {
        let r = self.runner.run_with_stdin(program, args, env, stdin);
        proof {
            self.log@ = self.log@.push(
                (
                    CallView {
                        program: program@,
                        args: ref_views(args@),
                        env: ref_pair_views(env@),
                        input: CallInput::Stdin(stdin@),
                    },
                    reply_view(r),
                ),
            );
        }
        r
    }
}

/// A shared runner is a runner.
impl<'a, T: ProcessRunner> ProcessRunner for &'a T {
    fn run(&self, program: &str, args: &[&str], env: &[(&str, &str)], stdio: StdioMode) -> (r:
        Result<CommandOutput, HortoError>) {
        (**self).run(program, args, env, stdio)
    }

    fn run_with_stdin(&self, program: &str, args: &[&str], env: &[(&str, &str)], stdin: &[u8]) -> (r:
        Result<CommandOutput, HortoError>) {
        (**self).run_with_stdin(program, args, env, stdin)
    }
}

/// The calls made between two states of a runner's log.
pub open spec fn calls_between(before: Seq<Entry>, after: Seq<Entry>) -> Seq<Entry> {
    after.subrange(before.len() as int, after.len() as int)
}

/// The reply of the `i`-th call as `require_ok` for `program` leaves it.
pub open spec fn out_at(t: Seq<Entry>, i: int, program: Seq<char>) -> Result<OutputView, ErrorView> {
    checked_reply(program, t[i].1)
}

/// Calls made in two steps are the calls of each step, in order.
pub proof fn lemma_calls_concat(a: Seq<Entry>, b: Seq<Entry>, c: Seq<Entry>)
    requires
        log_grows(a, b),
        log_grows(b, c),
    ensures
        log_grows(a, c),
        calls_between(a, c) =~= calls_between(a, b) + calls_between(b, c),
{
}

/// A log grows by one entry with each run.
pub proof fn lemma_calls_push(a: Seq<Entry>, e: Entry)
    ensures
        log_grows(a, a.push(e)),
        calls_between(a, a.push(e)) =~= seq![e],
{
}

/// The two parts of a concatenation are its subranges.
pub proof fn lemma_split(a: Seq<Entry>, b: Seq<Entry>)
    ensures
        (a + b).subrange(0, a.len() as int) =~= a,
        (a + b).subrange(a.len() as int, (a + b).len() as int) =~= b,
{
}

/// `after` extends `before`.
pub open spec fn log_grows(before: Seq<Entry>, after: Seq<Entry>) -> bool {
    before.len() <= after.len() && forall|i: int| 0 <= i < before.len() ==> after[i] == before[i]
}

/// Failure detail: trimmed stderr, or trimmed stdout when stderr is blank.
pub open spec fn failure_detail(o: OutputView) -> Seq<char> {
    if trim(o.stderr).len() == 0 {
        trim(o.stdout)
    } else {
        trim(o.stderr)
    }
}

/// `exit <status>: <detail>` text of a failed command.
pub open spec fn failure_text(o: OutputView) -> Seq<char> {
    "exit "@ + int_text(o.status as int) + ": "@ + failure_detail(o)
}

/// Error for a non-zero exit of `program`.
pub open spec fn failure_error(program: Seq<char>, o: OutputView) -> ErrorView {
    command_error(program, failure_text(o))
}

/// Trimmed stderr, or trimmed stdout when stderr is blank.
pub fn output_detail(out: &CommandOutput) -> (d: String)
    ensures
        d@ == failure_detail(out@),
{
    let e = to_chars(out.stderr.as_str());
    let te = trim_chars(e.as_slice());
    if te.len() == 0 {
        let o = to_chars(out.stdout.as_str());
        let to = trim_chars(o.as_slice());
        from_chars(to.as_slice())
    } else {
        from_chars(te.as_slice())
    }
}

/// `exit <status>: <detail>`.
pub fn failure_message(out: &CommandOutput) -> (m: String)
    ensures
        m@ == failure_text(out@),
{
    let code = int_to_string(out.status as i64);
    let mut m = concat2("exit ", code.as_str());
    m.append(": ");
    let d = output_detail(out);
    m.append(d.as_str());
    m
}

/// `Ok` on exit 0, otherwise a [`HortoError::CommandFailed`] for `program`.
pub fn require_ok(program: &str, out: &CommandOutput) -> (r: Result<(), HortoError>)
    ensures
        out.status == 0 <==> r.is_ok(),
        r matches Err(e) ==> e@ == failure_error(program@, out@),
{
    if out.success() {
        return Ok(());
    }
    let m = failure_message(out);
    Err(HortoError::command(program, m.as_str()))
}

} // verus!
