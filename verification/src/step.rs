//! Setup step metadata and the pipeline kinds.
use vstd::prelude::*;

verus! {

/// One setup / ops step: stable id, title, version and dependencies.
///
/// Steps are versioned (`step_version`) and may declare dependencies
/// (`depends_on`); resume bookkeeping compares recorded versions against
/// [`Step::step_version`].
pub trait Step {
    /// The id as a sequence of characters.
    spec fn id_view(&self) -> Seq<char>;

    /// The implementation version.
    spec fn version_view(&self) -> u32;

    /// Stable short id (`s1`, `m1`, `d1`, …).
    fn id(&self) -> (r: &'static str)
        ensures
            r@ == self.id_view(),
    ;

    /// Human-readable title for TUI / status.
    fn title(&self) -> &'static str;

    /// Legacy shell script this step absorbs (documentation / tip-sync).
    fn reference_script(&self) -> &'static str;

    /// Schema of the step trait itself (rarely bumped).
    fn schema_version(&self) -> (r: u32)
        default_ensures
            r == 1,
    {
        1
    }

    /// Implementation version; resume marks stale when this increases.
    fn step_version(&self) -> (r: u32)
        ensures
            r == self.version_view(),
    ;

    /// Step ids that must be `Done` before this step may run.
    fn depends_on(&self) -> (r: &'static [&'static str])
        default_ensures
            r@.len() == 0,
    {
        &[]
    }

    /// Advise a reboot after a successful apply.
    fn needs_reboot_after(&self) -> (r: bool)
        default_ensures
            !r,
    {
        false
    }

    /// True when apply can overwrite live host config.
    fn destructive(&self) -> (r: bool)
        default_ensures
            !r,
    {
        false
    }
}

/// Which setup pipeline runs.
#[derive(Debug, Clone, Copy, PartialEq, Eq)]
pub enum SetupKind {
    /// Full box setup (IoT LAN, Docker stacks).
    Full,
    /// Cockpit + hostname only.
    Minimal,
}

impl SetupKind {
    /// `full` / `minimal`.
    pub fn as_str(self) -> (r: &'static str)
        ensures
            r@ == (match self {
                SetupKind::Full => "full"@,
                SetupKind::Minimal => "minimal"@,
            }),
    {
        match self {
            SetupKind::Full => "full",
            SetupKind::Minimal => "minimal",
        }
    }
}

} // verus!
