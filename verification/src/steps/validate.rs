//! Validation of applied configs (`s6`): which files must exist, which must
//! be free of template placeholders, and the verdict with `netplan generate`.
use vstd::prelude::*;
use crate::error::{message_error, ErrorView, HortoError};
use crate::journal::StepJournal;
use crate::text::{concat2, find_from, occurs_at, owned, to_chars};

verus! {

/// Whether a step that only matters for the full IoT-LAN setup runs.
#[derive(Debug, Clone, Copy, PartialEq, Eq)]
pub enum StepGate {
    /// Dry run: record the plan only.
    Plan,
    /// No full-setup env file: nothing to do.
    Skip,
    /// Do the work.
    Run,
}

/// `<step> only needed for IoT-LAN (full) setup; skipping`
pub open spec fn skip_line(step: Seq<char>) -> Seq<char> {
    step + " only needed for IoT-LAN (full) setup; skipping"@
}

/// Gate of `s6` / `s7`: a dry run always plans; otherwise the step runs only
/// when the full-setup env file exists, and logs why it skips when not.
pub fn full_setup_gate(journal: &mut StepJournal, step: &str, full_env_exists: bool, dry_run: bool) -> (g: StepGate)
    ensures
        g == (if dry_run {
            StepGate::Plan
        } else if !full_env_exists {
            StepGate::Skip
        } else {
            StepGate::Run
        }),
        g == StepGate::Skip ==> final(journal)@.logs == old(journal)@.logs.push(skip_line(step@)),
        g != StepGate::Skip ==> final(journal)@.logs == old(journal)@.logs,
        final(journal)@.planned == old(journal)@.planned,
{
    if dry_run {
        return StepGate::Plan;
    }
    if !full_env_exists {
        journal.log(concat2(step, " only needed for IoT-LAN (full) setup; skipping"));
        return StepGate::Skip;
    }
    StepGate::Run
}

/// A `{{` followed, two or more characters on, by `}}`: a template
/// placeholder that rendering left in place.
pub open spec fn has_placeholder(text: Seq<char>) -> bool {
    exists|i: int, j: int|
        #![trigger occurs_at(text, "{{"@, i), occurs_at(text, "}}"@, j)]
        i + 2 <= j && occurs_at(text, "{{"@, i) && occurs_at(text, "}}"@, j)
}

pub fn has_unreplaced_placeholders(text: &str) -> (b: bool)
    ensures
        b == has_placeholder(text@),
{
    let c = to_chars(text);
    let open = to_chars("{{");
    let close = to_chars("}}");
    proof {
        reveal_strlit("{{");
        reveal_strlit("}}");
    }
    match find_from(c.as_slice(), open.as_slice(), 0) {
        None => false,
        Some(i) => {
            let n = c.len();
            assert(i + 2 <= n);
            match find_from(c.as_slice(), close.as_slice(), i + 2) {
                Some(j) => {
                    assert(occurs_at(text@, "{{"@, i as int) && occurs_at(text@, "}}"@, j as int));
                    true
                },
                None => {
                    assert forall|a: int, b: int|
                        a + 2 <= b && occurs_at(text@, "{{"@, a) implies !occurs_at(
                        text@,
                        "}}"@,
                        b,
                    ) by {
                        assert(a >= i);
                    }
                    false
                },
            }
        },
    }
}

/// Log line of the existence check of `path`.
pub open spec fn exists_line(path: Seq<char>, is_file: bool) -> Seq<char> {
    if is_file {
        "OK: file exists: "@ + path
    } else {
        "ERROR: missing file: "@ + path
    }
}

/// Record whether `path` is a regular file; `true` when it is.
pub fn check_exists(journal: &mut StepJournal, path: &str, is_file: bool) -> (ok: bool)
    ensures
        ok == is_file,
        final(journal)@.logs == old(journal)@.logs.push(exists_line(path@, is_file)),
        final(journal)@.planned == old(journal)@.planned,
{
    if is_file {
        journal.log(concat2("OK: file exists: ", path));
        true
    } else {
        journal.log(concat2("ERROR: missing file: ", path));
        false
    }
}

/// Outcome and log line of the placeholder check of `path`, whose text is
/// `None` when it could not be read.
pub open spec fn placeholder_check(path: Seq<char>, text: Option<Seq<char>>) -> (bool, Seq<char>) {
    match text {
        None => (false, "ERROR: cannot validate missing file: "@ + path),
        Some(t) => if has_placeholder(t) {
            (false, "ERROR: unreplaced placeholder found in "@ + path)
        } else {
            (true, "OK: no placeholders remain in "@ + path)
        },
    }
}

pub open spec fn opt_view(text: Option<&str>) -> Option<Seq<char>> {
    match text {
        Some(t) => Some(t@),
        None => None,
    }
}

/// Record whether the readable text of `path` is free of placeholders;
/// `true` when it is.
pub fn check_no_ph(journal: &mut StepJournal, path: &str, text: Option<&str>) -> (ok: bool)
    ensures
        ok == placeholder_check(path@, opt_view(text)).0,
        final(journal)@.logs == old(journal)@.logs.push(placeholder_check(path@, opt_view(text)).1),
        final(journal)@.planned == old(journal)@.planned,
{
    match text {
        None => {
            journal.log(concat2("ERROR: cannot validate missing file: ", path));
            false
        },
        Some(t) => {
            if has_unreplaced_placeholders(t) {
                journal.log(concat2("ERROR: unreplaced placeholder found in ", path));
                false
            } else {
                journal.log(concat2("OK: no placeholders remain in ", path));
                true
            }
        },
    }
}

/// Files `s6` checks, relative to the etc root, each with whether it must
/// also be free of placeholders, in the order they are checked.
pub open spec fn validated_list() -> Seq<(Seq<char>, bool)> {
    seq![
        ("hosts"@, true),
        ("netplan/99-iot-lan.yaml"@, true),
        ("hostapd/hostapd.conf"@, true),
        ("avahi/avahi-daemon.conf"@, false),
        ("avahi/hosts"@, false),
        ("resolv.conf"@, false),
        ("dnsmasq.d/iot-lan.conf"@, false),
        ("sysctl.d/packet_forwarding.conf"@, false),
    ]
}

pub open spec fn pair_views(v: Seq<(String, bool)>) -> Seq<(Seq<char>, bool)> {
    Seq::new(v.len(), |i: int| (v[i].0@, v[i].1))
}

pub fn validated_files() -> (r: Vec<(String, bool)>)
    ensures
        pair_views(r@) == validated_list(),
{
    let mut r: Vec<(String, bool)> = Vec::new();
    r.push((owned("hosts"), true));
    r.push((owned("netplan/99-iot-lan.yaml"), true));
    r.push((owned("hostapd/hostapd.conf"), true));
    r.push((owned("avahi/avahi-daemon.conf"), false));
    r.push((owned("avahi/hosts"), false));
    r.push((owned("resolv.conf"), false));
    r.push((owned("dnsmasq.d/iot-lan.conf"), false));
    r.push((owned("sysctl.d/packet_forwarding.conf"), false));
    assert(pair_views(r@) =~= validated_list());
    r
}

/// One validated file as observed on disk.
pub struct FileCheck {
    /// Path as reported in the log.
    pub path: String,
    /// Whether the file must also be free of placeholders.
    pub placeholders: bool,
    /// Whether the path is a regular file.
    pub is_file: bool,
    /// Its text, when it could be read.
    pub text: Option<String>,
}

pub struct FileCheckView {
    pub path: Seq<char>,
    pub placeholders: bool,
    pub is_file: bool,
    pub text: Option<Seq<char>>,
}

impl View for FileCheck {
    type V = FileCheckView;

    open spec fn view(&self) -> FileCheckView {
        FileCheckView {
            path: self.path@,
            placeholders: self.placeholders,
            is_file: self.is_file,
            text: match self.text {
                Some(t) => Some(t@),
                None => None,
            },
        }
    }
}

/// A file passes when it exists and, where required, has no placeholder.
pub open spec fn file_ok(c: FileCheckView) -> bool {
    c.is_file && (!c.placeholders || placeholder_check(c.path, c.text).0)
}

/// Log lines of one file's checks.
pub open spec fn file_lines(c: FileCheckView) -> Seq<Seq<char>> {
    if c.placeholders {
        seq![exists_line(c.path, c.is_file), placeholder_check(c.path, c.text).1]
    } else {
        seq![exists_line(c.path, c.is_file)]
    }
}

pub open spec fn check_views(cs: Seq<FileCheck>) -> Seq<FileCheckView> {
    Seq::new(cs.len(), |i: int| cs[i]@)
}

/// Log lines of a list of checks, file after file.
pub open spec fn checks_lines(cs: Seq<FileCheckView>) -> Seq<Seq<char>>
    decreases cs.len(),
{
    if cs.len() == 0 {
        seq![]
    } else {
        checks_lines(cs.drop_last()) + file_lines(cs.last())
    }
}

/// Run every file check in order; `true` when any of them failed.
pub fn run_file_checks(journal: &mut StepJournal, checks: &Vec<FileCheck>) -> (failed: bool)
    ensures
        failed == exists|k: int| 0 <= k < checks@.len() && !file_ok(#[trigger] checks@[k]@),
        final(journal)@.logs == old(journal)@.logs + checks_lines(check_views(checks@)),
        final(journal)@.planned == old(journal)@.planned,
{
    let ghost l0 = journal@.logs;
    let mut failed = false;
    let mut i: usize = 0;
    while i < checks.len()
        invariant
            i <= checks@.len(),
            failed == exists|k: int| 0 <= k < i && !file_ok(#[trigger] checks@[k]@),
            journal@.logs == l0 + checks_lines(check_views(checks@).subrange(0, i as int)),
            journal@.planned == old(journal)@.planned,
        decreases checks@.len() - i,
    {
        let c = &checks[i];
        let ghost before = journal@.logs;
        let e = check_exists(journal, c.path.as_str(), c.is_file);
        let mut ok = e;
        if c.placeholders {
            let t = match &c.text {
                Some(s) => Some(s.as_str()),
                None => None,
            };
            let p = check_no_ph(journal, c.path.as_str(), t);
            ok = e && p;
            assert(journal@.logs =~= before + file_lines(c@));
        } else {
            assert(journal@.logs =~= before + file_lines(c@));
        }
        assert(ok == file_ok(c@));
        if !ok {
            failed = true;
        }
        proof {
            let s = check_views(checks@).subrange(0, i + 1);
            assert(s.drop_last() =~= check_views(checks@).subrange(0, i as int));
            assert(s.last() == c@);
        }
        i = i + 1;
    }
    assert(check_views(checks@).subrange(0, i as int) =~= check_views(checks@));
    failed
}

/// What became of `netplan generate`.
#[derive(Debug, Clone, PartialEq, Eq)]
pub enum NetplanCheck {
    /// No `netplan` program on this host.
    NotInstalled,
    /// The etc root is not `/etc` (a test tree).
    ForeignEtc,
    /// Not running as root.
    NotRoot,
    /// `netplan generate` succeeded.
    Generated,
    /// `netplan generate` exited non-zero.
    GenerateFailed,
    /// `netplan generate` could not be run (the reason).
    GenerateError(String),
}

/// Log line of a netplan outcome, and whether it fails validation.
pub open spec fn netplan_verdict(c: NetplanCheck) -> (bool, Seq<char>) {
    match c {
        NetplanCheck::NotInstalled => (
            false,
            "WARNING: netplan command not found; skipping netplan validation"@,
        ),
        NetplanCheck::ForeignEtc => (false, "WARNING: etc is not /etc; skipping netplan generate"@),
        NetplanCheck::NotRoot => (false, "WARNING: not root; skipping netplan generate"@),
        NetplanCheck::Generated => (false, "OK: netplan generate succeeded"@),
        NetplanCheck::GenerateFailed => (true, "ERROR: netplan generate failed"@),
        NetplanCheck::GenerateError(e) => (true, "ERROR: netplan generate: "@ + e@),
    }
}

/// Record the netplan outcome; `true` when it fails validation.
pub fn netplan_check_failed(journal: &mut StepJournal, c: &NetplanCheck) -> (failed: bool)
    ensures
        failed == netplan_verdict(*c).0,
        final(journal)@.logs == old(journal)@.logs.push(netplan_verdict(*c).1),
        final(journal)@.planned == old(journal)@.planned,
{
    match c {
        NetplanCheck::NotInstalled => {
            journal.log(owned("WARNING: netplan command not found; skipping netplan validation"));
            false
        },
        NetplanCheck::ForeignEtc => {
            journal.log(owned("WARNING: etc is not /etc; skipping netplan generate"));
            false
        },
        NetplanCheck::NotRoot => {
            journal.log(owned("WARNING: not root; skipping netplan generate"));
            false
        },
        NetplanCheck::Generated => {
            journal.log(owned("OK: netplan generate succeeded"));
            false
        },
        NetplanCheck::GenerateFailed => {
            journal.log(owned("ERROR: netplan generate failed"));
            true
        },
        NetplanCheck::GenerateError(e) => {
            journal.log(concat2("ERROR: netplan generate: ", e.as_str()));
            true
        },
    }
}

/// Error `s6` ends with when any check failed.
pub open spec fn validation_error() -> ErrorView {
    message_error("Step s6 failed: configuration validation found errors"@)
}

/// Verdict of `s6`: an error when anything failed; otherwise the hostapd
/// enable phase is logged and `Ok(true)` asks the caller to unmask, enable
/// and start hostapd (only as root), `Ok(false)` to leave it.
pub fn validation_outcome(journal: &mut StepJournal, failed: bool, is_root: bool) -> (r: Result<bool, HortoError>)
    ensures
        failed ==> (r matches Err(e) && e@ == validation_error()),
        failed ==> final(journal)@ == old(journal)@,
        !failed ==> r == Ok::<bool, HortoError>(is_root),
        (!failed && is_root) ==> final(journal)@.logs == old(journal)@.logs.push(
            "Enabling hostapd..."@,
        ).push("Step s6 complete: configuration validation passed."@),
        (!failed && !is_root) ==> final(journal)@.logs == old(journal)@.logs.push(
            "Enabling hostapd..."@,
        ).push("Not root; skip hostapd unmask/enable/start (avoids polkit prompts)."@).push(
            "Step s6 complete: configuration validation passed."@,
        ),
        final(journal)@.planned == old(journal)@.planned,
{
    if failed {
        return Err(HortoError::msg("Step s6 failed: configuration validation found errors"));
    }
    journal.log(owned("Enabling hostapd..."));
    if !is_root {
        journal.log(owned("Not root; skip hostapd unmask/enable/start (avoids polkit prompts)."));
    }
    journal.log(owned("Step s6 complete: configuration validation passed."));
    Ok(is_root)
}

/// Dry-run plan of `s6`.
pub open spec fn validation_plan() -> Seq<Seq<char>> {
    seq![
        "validate /etc hosts, netplan, hostapd, avahi, resolv, dnsmasq, sysctl"@,
        "netplan generate"@,
        "systemctl unmask/enable/start hostapd"@,
    ]
}

pub fn plan_validation(journal: &mut StepJournal)
    ensures
        final(journal)@.planned == old(journal)@.planned + validation_plan(),
        final(journal)@.logs == old(journal)@.logs,
{
    let ghost p0 = journal@.planned;
    journal.plan_action(owned("validate /etc hosts, netplan, hostapd, avahi, resolv, dnsmasq, sysctl"));
    journal.plan_action(owned("netplan generate"));
    journal.plan_action(owned("systemctl unmask/enable/start hostapd"));
    assert(journal@.planned =~= p0 + validation_plan());
}

/// Whether any file check or the netplan outcome fails validation.
pub open spec fn validation_failed(checks: Seq<FileCheck>, netplan: NetplanCheck) -> bool {
    (exists|k: int| 0 <= k < checks.len() && !file_ok(#[trigger] checks[k]@)) || netplan_verdict(netplan).0
}

/// The work of `s6` once [`full_setup_gate`] says run: every file check in
/// order, then the netplan outcome, then [`validation_outcome`]. An error
/// when anything failed; otherwise `Ok(is_root)`, `true` asking the caller
/// to unmask, enable and start hostapd.
pub fn validate_configs(
    journal: &mut StepJournal,
    checks: &Vec<FileCheck>,
    netplan: &NetplanCheck,
    is_root: bool,
) -> (r: Result<bool, HortoError>)
    ensures
        validation_failed(checks@, *netplan) ==> (r matches Err(e) && e@ == validation_error()),
        !validation_failed(checks@, *netplan) ==> r == Ok::<bool, HortoError>(is_root),
        ({
            let checked = old(journal)@.logs + checks_lines(check_views(checks@)) + seq![
                netplan_verdict(*netplan).1,
            ];
            &&& validation_failed(checks@, *netplan) ==> final(journal)@.logs == checked
            &&& (!validation_failed(checks@, *netplan) && is_root) ==> final(journal)@.logs == checked
                + seq!["Enabling hostapd..."@, "Step s6 complete: configuration validation passed."@]
            &&& (!validation_failed(checks@, *netplan) && !is_root) ==> final(journal)@.logs == checked
                + seq![
                "Enabling hostapd..."@,
                "Not root; skip hostapd unmask/enable/start (avoids polkit prompts)."@,
                "Step s6 complete: configuration validation passed."@,
            ]
        }),
        final(journal)@.planned == old(journal)@.planned,
{
    let ghost l0 = journal@.logs;
    let files_failed = run_file_checks(journal, checks);
    let ghost l1 = journal@.logs;
    let netplan_failed = netplan_check_failed(journal, netplan);
    assert(journal@.logs =~= l0 + checks_lines(check_views(checks@)) + seq![netplan_verdict(*netplan).1]);
    let ghost l2 = journal@.logs;
    let r = validation_outcome(journal, files_failed || netplan_failed, is_root);
    proof {
        if !(files_failed || netplan_failed) {
            if is_root {
                assert(journal@.logs =~= l2 + seq!["Enabling hostapd..."@, "Step s6 complete: configuration validation passed."@]);
            } else {
                assert(journal@.logs =~= l2 + seq![
                    "Enabling hostapd..."@,
                    "Not root; skip hostapd unmask/enable/start (avoids polkit prompts)."@,
                    "Step s6 complete: configuration validation passed."@,
                ]);
            }
        }
    }
    r
}

/// How `s6` starts: a dry run records [`validation_plan`]; without the
/// full-setup env file it logs the skip; `true` when the checks are to run
/// ([`validate_configs`]).
pub fn validation_start(journal: &mut StepJournal, full_env_exists: bool, dry_run: bool) -> (run: bool)
    ensures
        run == (!dry_run && full_env_exists),
        dry_run ==> final(journal)@.planned == old(journal)@.planned + validation_plan()
            && final(journal)@.logs == old(journal)@.logs,
        (!dry_run && !full_env_exists) ==> final(journal)@.logs == old(journal)@.logs.push(
            skip_line("s6"@),
        ) && final(journal)@.planned == old(journal)@.planned,
        run ==> final(journal)@ == old(journal)@,
{
    match full_setup_gate(journal, "s6", full_env_exists, dry_run) {
        StepGate::Plan => {
            plan_validation(journal);
            false
        },
        StepGate::Skip => false,
        StepGate::Run => true,
    }
}

} // verus!
