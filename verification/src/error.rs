//! Engine error type and its operator-facing text.
use vstd::prelude::*;
use crate::text::{concat2, concat3, owned};

verus! {

/// Errors from the remote / setup engine.
#[derive(Debug)]
pub enum HortoError {
    /// Free-form message.
    Message(String),
    /// External program failed.
    CommandFailed { program: String, detail: String },
    /// Apply mode needs root.
    RootRequired,
    /// Step id is not registered.
    UnknownStep(String),
    /// Step exists but not in the chosen pipeline.
    NotInPipeline { step: String, kind: String },
    /// A dependency step is not done (step, dependency).
    MissingDependency(String, String),
    /// Embedded asset path missing.
    EmbedMissing(String),
}

/// Mathematical value of a [`HortoError`].
pub enum ErrorView {
    Message(Seq<char>),
    CommandFailed { program: Seq<char>, detail: Seq<char> },
    RootRequired,
    UnknownStep(Seq<char>),
    NotInPipeline { step: Seq<char>, kind: Seq<char> },
    MissingDependency(Seq<char>, Seq<char>),
    EmbedMissing(Seq<char>),
}

impl View for HortoError {
    type V = ErrorView;

    open spec fn view(&self) -> ErrorView {
        match self {
            HortoError::Message(m) => ErrorView::Message(m@),
            HortoError::CommandFailed { program, detail } => ErrorView::CommandFailed {
                program: program@,
                detail: detail@,
            },
            HortoError::RootRequired => ErrorView::RootRequired,
            HortoError::UnknownStep(s) => ErrorView::UnknownStep(s@),
            HortoError::NotInPipeline { step, kind } => ErrorView::NotInPipeline {
                step: step@,
                kind: kind@,
            },
            HortoError::MissingDependency(a, b) => ErrorView::MissingDependency(a@, b@),
            HortoError::EmbedMissing(a) => ErrorView::EmbedMissing(a@),
        }
    }
}

/// Process exit code for an error.
pub open spec fn exit_code_of(e: ErrorView) -> i32 {
    match e {
        ErrorView::RootRequired => 77,
        ErrorView::UnknownStep(_) => 2,
        ErrorView::NotInPipeline { .. } => 2,
        _ => 1,
    }
}

/// Operator-facing text of an error.
pub open spec fn error_text(e: ErrorView) -> Seq<char> {
    match e {
        ErrorView::Message(m) => m,
        ErrorView::CommandFailed { program, detail } => program + " failed: "@ + detail,
        ErrorView::RootRequired => "apply mode requires root (re-run with sudo)"@,
        ErrorView::UnknownStep(s) => "unknown step: "@ + s,
        ErrorView::NotInPipeline { step, kind } => "step "@ + step + " is not in the "@ + kind
            + " pipeline"@,
        ErrorView::MissingDependency(a, b) => "step "@ + a + " requires "@ + b
            + " to be done first"@,
        ErrorView::EmbedMissing(a) => "embedded asset missing: "@ + a,
    }
}

pub open spec fn message_error(m: Seq<char>) -> ErrorView {
    ErrorView::Message(m)
}

pub open spec fn command_error(program: Seq<char>, detail: Seq<char>) -> ErrorView {
    ErrorView::CommandFailed { program, detail }
}

impl HortoError {
    /// Free-form message error.
    pub fn msg(m: &str) -> (e: HortoError)
        ensures
            e@ == message_error(m@),
    {
        HortoError::Message(owned(m))
    }

    /// External command failure.
    pub fn command(program: &str, detail: &str) -> (e: HortoError)
        ensures
            e@ == command_error(program@, detail@),
    {
        HortoError::CommandFailed { program: owned(program), detail: owned(detail) }
    }

    /// Exit code: 77 root required, 2 usage (unknown step / wrong pipeline), else 1.
    pub fn exit_code(&self) -> (c: i32)
        ensures
            c == exit_code_of(self@),
    {
        match self {
            HortoError::RootRequired => 77,
            HortoError::UnknownStep(_) => 2,
            HortoError::NotInPipeline { .. } => 2,
            _ => 1,
        }
    }

    /// The error's display text.
    pub fn to_text(&self) -> (t: String)
        ensures
            t@ == error_text(self@),
    {
        match self {
            HortoError::Message(m) => owned(m.as_str()),
            HortoError::CommandFailed { program, detail } => concat3(
                program.as_str(),
                " failed: ",
                detail.as_str(),
            ),
            HortoError::RootRequired => owned("apply mode requires root (re-run with sudo)"),
            HortoError::UnknownStep(s) => concat2("unknown step: ", s.as_str()),
            HortoError::NotInPipeline { step, kind } => {
                let mut t = concat3("step ", step.as_str(), " is not in the ");
                t.append(kind.as_str());
                t.append(" pipeline");
                t
            },
            HortoError::MissingDependency(a, b) => {
                let mut t = concat3("step ", a.as_str(), " requires ");
                t.append(b.as_str());
                t.append(" to be done first");
                t
            },
            HortoError::EmbedMissing(a) => concat2("embedded asset missing: ", a.as_str()),
        }
    }
}

} // verus!
