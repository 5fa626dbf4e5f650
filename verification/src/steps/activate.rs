//! Network activation after validation (`s7`): which interface gets NAT,
//! the iptables rules that implement it, the services to restart and the
//! lease-export cron entry.
use vstd::prelude::*;
use crate::remote::process::{calls_between, lemma_calls_concat, lemma_calls_push, log_grows, Entry, Runs};
use crate::envfile::{env_get, wifi_ap_enabled, wifi_ap_on, EnvMap};
use crate::error::{error_text, message_error, ErrorView, HortoError};
use crate::journal::StepJournal;
use crate::steps::validate::{full_setup_gate, skip_line, StepGate};
use crate::remote::bins::{join_path, path_join};
use crate::remote::process::{
    call, reply_view, unit_view, CallView, OutputView, ProcessRunner, StdioMode,
};
use crate::remote::ssh::{opt_str_view, ref_pair_views, str_refs};
use crate::text::{concat2, concat3, has_prefix, join, join_strings, owned, sviews, trim, trim_str};

verus! {

/// WAN interface for NAT: `ETH_LAN` from the IoT env, else the default
/// route's device, else `eth0`.
pub open spec fn wan_choice(eth_lan: Option<Seq<char>>, route_wan: Option<Seq<char>>) -> Seq<char> {
    match eth_lan {
        Some(w) => w,
        None => match route_wan {
            Some(r) => r,
            None => "eth0"@,
        },
    }
}

/// The interface NAT is applied to.
pub fn choose_wan_iface(env: &EnvMap, route_wan: Option<&str>) -> (r: String)
    ensures
        r@ == wan_choice(
            env_get(env@, "ETH_LAN"@),
            match route_wan {
                Some(w) => Some(w@),
                None => None,
            },
        ),
{
    match env.get("ETH_LAN") {
        Some(w) => owned(w),
        None => match route_wan {
            Some(r) => owned(r),
            None => owned("eth0"),
        },
    }
}

/// `iptables` arguments of the masquerade rule, `op` being `-C` or `-A`.
pub open spec fn masquerade_rule(op: Seq<char>, wan: Seq<char>) -> Seq<Seq<char>> {
    seq!["-t"@, "nat"@, op, "POSTROUTING"@, "-o"@, wan, "-j"@, "MASQUERADE"@]
}

/// Forwarding from the IoT bridge out through `wan`.
pub open spec fn forward_out_rule(op: Seq<char>, wan: Seq<char>) -> Seq<Seq<char>> {
    seq![op, "FORWARD"@, "-i"@, "br0"@, "-o"@, wan, "-j"@, "ACCEPT"@]
}

/// Replies from `wan` back into the IoT bridge.
pub open spec fn forward_back_rule(op: Seq<char>, wan: Seq<char>) -> Seq<Seq<char>> {
    seq![
        op,
        "FORWARD"@,
        "-i"@,
        wan,
        "-o"@,
        "br0"@,
        "-m"@,
        "state"@,
        "--state"@,
        "RELATED,ESTABLISHED"@,
        "-j"@,
        "ACCEPT"@,
    ]
}

pub fn masquerade_args(op: &str, wan: &str) -> (r: Vec<String>)
    ensures
        sviews(r@) == masquerade_rule(op@, wan@),
{
    let mut r: Vec<String> = Vec::new();
    r.push(owned("-t"));
    r.push(owned("nat"));
    r.push(owned(op));
    r.push(owned("POSTROUTING"));
    r.push(owned("-o"));
    r.push(owned(wan));
    r.push(owned("-j"));
    r.push(owned("MASQUERADE"));
    assert(sviews(r@) =~= masquerade_rule(op@, wan@));
    r
}

pub fn forward_out_args(op: &str, wan: &str) -> (r: Vec<String>)
    ensures
        sviews(r@) == forward_out_rule(op@, wan@),
{
    let mut r: Vec<String> = Vec::new();
    r.push(owned(op));
    r.push(owned("FORWARD"));
    r.push(owned("-i"));
    r.push(owned("br0"));
    r.push(owned("-o"));
    r.push(owned(wan));
    r.push(owned("-j"));
    r.push(owned("ACCEPT"));
    assert(sviews(r@) =~= forward_out_rule(op@, wan@));
    r
}

pub fn forward_back_args(op: &str, wan: &str) -> (r: Vec<String>)
    ensures
        sviews(r@) == forward_back_rule(op@, wan@),
{
    let mut r: Vec<String> = Vec::new();
    r.push(owned(op));
    r.push(owned("FORWARD"));
    r.push(owned("-i"));
    r.push(owned(wan));
    r.push(owned("-o"));
    r.push(owned("br0"));
    r.push(owned("-m"));
    r.push(owned("state"));
    r.push(owned("--state"));
    r.push(owned("RELATED,ESTABLISHED"));
    r.push(owned("-j"));
    r.push(owned("ACCEPT"));
    assert(sviews(r@) =~= forward_back_rule(op@, wan@));
    r
}

/// The command line of an `iptables` call, as planned or reported.
pub open spec fn iptables_line(args: Seq<Seq<char>>) -> Seq<char> {
    "iptables "@ + join(args, " "@)
}

/// The errors an `iptables` call can end in: the rule command failed, or the
/// program could not be run at all.
pub open spec fn iptables_failure(args: Seq<Seq<char>>, e: ErrorView) -> bool {
    ||| e == message_error(iptables_line(args) + " failed"@)
    ||| (e matches ErrorView::Message(m) && has_prefix(m, "iptables: "@))
}

/// The `iptables` request with `args` (terminal inherited, no extra env).
pub open spec fn iptables_request(args: Seq<Seq<char>>) -> CallView {
    call("iptables"@, args, seq![], StdioMode::Inherit)
}

/// What [`run_iptables`] makes of a reply: exit 0 is success, another exit
/// is `<line> failed`, a program that could not run is `iptables: <error>`.
pub open spec fn iptables_result(args: Seq<Seq<char>>, reply: Result<OutputView, ErrorView>) -> Result<
    (),
    ErrorView,
> {
    match reply {
        Err(x) => Err(message_error("iptables: "@ + error_text(x))),
        Ok(o) => if o.status == 0 {
            Ok(())
        } else {
            Err(message_error(iptables_line(args) + " failed"@))
        },
    }
}

/// Whether `r` is what one `iptables` call with `args` gives when `runner` answers.
pub open spec fn iptables_gives<R: ProcessRunner>(
    runner: R,
    args: Seq<Seq<char>>,
    r: Result<(), ErrorView>,
) -> bool {
    exists|reply: Result<OutputView, ErrorView>|
        #[trigger] runner.may_reply(iptables_request(args), reply) && r == iptables_result(args, reply)
}

/// Check-then-append: the `check` call; only when it fails, the `append` call,
/// whose outcome is `r`.
pub open spec fn check_append_gives<R: ProcessRunner>(
    runner: R,
    check: Seq<Seq<char>>,
    append: Seq<Seq<char>>,
    r: Result<(), ErrorView>,
) -> bool {
    exists|c: Result<(), ErrorView>|
        #[trigger] iptables_gives(runner, check, c) && if c is Ok {
            r is Ok
        } else {
            iptables_gives(runner, append, r)
        }
}

/// Whether `t` is exactly one `iptables` call with `args` and `r` what
/// [`run_iptables`] makes of its reply.
pub open spec fn iptables_calls(t: Seq<Entry>, args: Seq<Seq<char>>, r: Result<(), ErrorView>) -> bool {
    t.len() == 1 && t[0].0 == iptables_request(args) && r == iptables_result(args, t[0].1)
}

/// Whether `t` is exactly the check-then-append calls and `r` their outcome:
/// the `check` call, and the `append` call only when the check fails.
pub open spec fn check_append_calls(
    t: Seq<Entry>,
    check: Seq<Seq<char>>,
    append: Seq<Seq<char>>,
    r: Result<(), ErrorView>,
) -> bool {
    &&& t.len() >= 1
    &&& t[0].0 == iptables_request(check)
    &&& if iptables_result(check, t[0].1) is Ok {
        t.len() == 1 && r is Ok
    } else {
        t.len() == 2 && t[1].0 == iptables_request(append) && r == iptables_result(append, t[1].1)
    }
}

/// Whether `t` is exactly the two forwarding rules' check-then-append calls,
/// `br0` to `wan` first (outcomes ignored).
pub open spec fn forward_calls(t: Seq<Entry>, wan: Seq<char>) -> bool {
    exists|k: int, x: Result<(), ErrorView>, y: Result<(), ErrorView>|
        #![trigger check_append_calls(t.subrange(0, k), forward_out_rule("-C"@, wan), forward_out_rule("-A"@, wan), x), check_append_calls(t.subrange(k, t.len() as int), forward_back_rule("-C"@, wan), forward_back_rule("-A"@, wan), y)]
        0 <= k <= t.len() && check_append_calls(
            t.subrange(0, k),
            forward_out_rule("-C"@, wan),
            forward_out_rule("-A"@, wan),
            x,
        ) && check_append_calls(
            t.subrange(k, t.len() as int),
            forward_back_rule("-C"@, wan),
            forward_back_rule("-A"@, wan),
            y,
        )
}

pub fn iptables_command_line(args: &Vec<String>) -> (r: String)
    ensures
        r@ == iptables_line(sviews(args@)),
{
    let j = join_strings(args, " ");
    concat2("iptables ", j.as_str())
}

/// Run `iptables` with `args`; in a dry run only plan the call.
pub fn run_iptables<R: ProcessRunner>(
    runs: &mut Runs<R>,
    journal: &mut StepJournal,
    dry_run: bool,
    args: &Vec<String>,
) -> (r: Result<(), HortoError>)
    ensures
        dry_run ==> r is Ok,
        dry_run ==> final(journal)@.planned == old(journal)@.planned.push(
            iptables_line(sviews(args@)),
        ),
        dry_run ==> final(journal)@.logs == old(journal)@.logs,
        !dry_run ==> final(journal)@ == old(journal)@,
        r matches Err(e) ==> iptables_failure(sviews(args@), e@),
        !dry_run ==> iptables_gives(old(runs).runner(), sviews(args@), unit_view(r)),
        final(runs).runner() == old(runs).runner(),
        log_grows(old(runs).log(), final(runs).log()),
        dry_run ==> final(runs).log() == old(runs).log(),
        !dry_run ==> iptables_calls(calls_between(old(runs).log(), final(runs).log()), sviews(args@), unit_view(r)),
{
    let ghost runner = runs.runner();
    let ghost l0 = runs.log();
    if dry_run {
        journal.plan_action(iptables_command_line(args));
        return Ok(());
    }
    let refs = str_refs(args);
    let env: Vec<(&str, &str)> = Vec::new();
    assert(ref_pair_views(env@) =~= seq![]);
    let res = runs.run("iptables", refs.as_slice(), env.as_slice(), StdioMode::Inherit);
    let ghost reply = reply_view(res);
    assert(runner.may_reply(iptables_request(sviews(args@)), reply));
    proof {
        reveal_strlit(" failed");
        reveal_strlit("iptables: ");
        lemma_calls_push(l0, (iptables_request(sviews(args@)), reply));
        assert(runs.log() == l0.push((iptables_request(sviews(args@)), reply)));
    }
    match res {
        Err(e) => {
            let t = e.to_text();
            let m = concat2("iptables: ", t.as_str());
            proof {
                reveal_strlit("iptables: ");
                assert(has_prefix(m@, "iptables: "@)) by {
                    assert(m@.subrange(0, 10) =~= "iptables: "@);
                }
            }
            Err(HortoError::msg(m.as_str()))
        },
        Ok(out) => {
            if out.success() {
                Ok(())
            } else {
                let line = iptables_command_line(args);
                let m = concat2(line.as_str(), " failed");
                Err(HortoError::msg(m.as_str()))
            }
        },
    }
}

/// Make sure the masquerade rule for `wan` is present: check it, and append
/// it only when the check fails.
pub fn ensure_nat_masquerade<R: ProcessRunner>(
    runs: &mut Runs<R>,
    journal: &mut StepJournal,
    dry_run: bool,
    wan: &str,
) -> (r: Result<(), HortoError>)
    ensures
        dry_run ==> r is Ok,
        dry_run ==> final(journal)@.planned == old(journal)@.planned.push(
            iptables_line(masquerade_rule("-C"@, wan@)),
        ),
        dry_run ==> final(journal)@.logs == old(journal)@.logs,
        !dry_run ==> final(journal)@ == old(journal)@,
        r matches Err(e) ==> iptables_failure(masquerade_rule("-A"@, wan@), e@),
        !dry_run ==> check_append_gives(
            old(runs).runner(),
            masquerade_rule("-C"@, wan@),
            masquerade_rule("-A"@, wan@),
            unit_view(r),
        ),
        final(runs).runner() == old(runs).runner(),
        log_grows(old(runs).log(), final(runs).log()),
        dry_run ==> final(runs).log() == old(runs).log(),
        !dry_run ==> check_append_calls(
            calls_between(old(runs).log(), final(runs).log()),
            masquerade_rule("-C"@, wan@),
            masquerade_rule("-A"@, wan@),
            unit_view(r),
        ),
{
    let ghost runner = runs.runner();
    let ghost l0 = runs.log();
    let check = masquerade_args("-C", wan);
    let checked = run_iptables(runs, journal, dry_run, &check);
    let ghost l1 = runs.log();
    let ghost c = unit_view(checked);
    match checked {
        Ok(()) => Ok(()),
        Err(_) => {
            let append = masquerade_args("-A", wan);
            let r = run_iptables(runs, journal, dry_run, &append);
            if !dry_run {
                assert(iptables_gives(runner, masquerade_rule("-C"@, wan@), c));
                proof {
                    lemma_calls_concat(l0, l1, runs.log());
                }
            }
            r
        },
    }
}

/// Check-then-append one rule, ignoring the outcome.
fn ensure_rule<R: ProcessRunner>(
    runs: &mut Runs<R>,
    journal: &mut StepJournal,
    dry_run: bool,
    check: &Vec<String>,
    append: &Vec<String>,
)
    ensures
        dry_run ==> final(journal)@.planned == old(journal)@.planned.push(
            iptables_line(sviews(check@)),
        ),
        dry_run ==> final(journal)@.logs == old(journal)@.logs,
        !dry_run ==> final(journal)@ == old(journal)@,
        !dry_run ==> exists|x: Result<(), ErrorView>|
            #[trigger] check_append_gives(old(runs).runner(), sviews(check@), sviews(append@), x),
        final(runs).runner() == old(runs).runner(),
        log_grows(old(runs).log(), final(runs).log()),
        dry_run ==> final(runs).log() == old(runs).log(),
        !dry_run ==> exists|x: Result<(), ErrorView>|
            #[trigger] check_append_calls(
                calls_between(old(runs).log(), final(runs).log()),
                sviews(check@),
                sviews(append@),
                x,
            ),
{
    let ghost runner = runs.runner();
    let ghost l0 = runs.log();
    let checked = run_iptables(runs, journal, dry_run, check);
    let ghost l1 = runs.log();
    let ghost c = unit_view(checked);
    match checked {
        Ok(()) => {
            if !dry_run {
                assert(check_append_gives(runner, sviews(check@), sviews(append@), Ok(())));
                assert(check_append_calls(calls_between(l0, l1), sviews(check@), sviews(append@), Ok(())));
            }
        },
        Err(_) => {
            let appended = run_iptables(runs, journal, dry_run, append);
            if !dry_run {
                assert(iptables_gives(runner, sviews(check@), c));
                assert(check_append_gives(runner, sviews(check@), sviews(append@), unit_view(appended)));
                proof {
                    lemma_calls_concat(l0, l1, runs.log());
                }
                assert(check_append_calls(calls_between(l0, runs.log()), sviews(check@), sviews(append@), unit_view(appended)));
            }
        },
    }
}

/// Both forwarding rules went through check-then-append (outcomes ignored).
pub open spec fn forward_rules_run<R: ProcessRunner>(runner: R, wan: Seq<char>) -> bool {
    &&& exists|x: Result<(), ErrorView>|
        #[trigger] check_append_gives(
            runner,
            forward_out_rule("-C"@, wan),
            forward_out_rule("-A"@, wan),
            x,
        )
    &&& exists|y: Result<(), ErrorView>|
        #[trigger] check_append_gives(
            runner,
            forward_back_rule("-C"@, wan),
            forward_back_rule("-A"@, wan),
            y,
        )
}

/// Make sure both forwarding rules between `br0` and `wan` are present
/// (check, append when missing); failures are ignored.
pub fn ensure_forward_accept<R: ProcessRunner>(
    runs: &mut Runs<R>,
    journal: &mut StepJournal,
    dry_run: bool,
    wan: &str,
)
    ensures
        dry_run ==> final(journal)@.planned == old(journal)@.planned.push(
            iptables_line(forward_out_rule("-C"@, wan@)),
        ).push(iptables_line(forward_back_rule("-C"@, wan@))),
        dry_run ==> final(journal)@.logs == old(journal)@.logs,
        !dry_run ==> final(journal)@ == old(journal)@,
        !dry_run ==> forward_rules_run(old(runs).runner(), wan@),
        final(runs).runner() == old(runs).runner(),
        log_grows(old(runs).log(), final(runs).log()),
        dry_run ==> final(runs).log() == old(runs).log(),
        !dry_run ==> forward_calls(calls_between(old(runs).log(), final(runs).log()), wan@),
{
    let ghost l0 = runs.log();
    let out_check = forward_out_args("-C", wan);
    let out_append = forward_out_args("-A", wan);
    ensure_rule(runs, journal, dry_run, &out_check, &out_append);
    let ghost l1 = runs.log();
    let back_check = forward_back_args("-C", wan);
    let back_append = forward_back_args("-A", wan);
    ensure_rule(runs, journal, dry_run, &back_check, &back_append);
    proof {
        if !dry_run {
            let l2 = runs.log();
            lemma_calls_concat(l0, l1, l2);
            let t1 = calls_between(l0, l1);
            let t2 = calls_between(l1, l2);
            let t = t1 + t2;
            assert(t.subrange(0, t1.len() as int) =~= t1);
            assert(t.subrange(t1.len() as int, t.len() as int) =~= t2);
            let x = choose|x: Result<(), ErrorView>| #[trigger] check_append_calls(t1, forward_out_rule("-C"@, wan@), forward_out_rule("-A"@, wan@), x);
            let y = choose|y: Result<(), ErrorView>| #[trigger] check_append_calls(t2, forward_back_rule("-C"@, wan@), forward_back_rule("-A"@, wan@), y);
            assert(check_append_calls(t.subrange(0, t1.len() as int), forward_out_rule("-C"@, wan@), forward_out_rule("-A"@, wan@), x));
            assert(check_append_calls(t.subrange(t1.len() as int, t.len() as int), forward_back_rule("-C"@, wan@), forward_back_rule("-A"@, wan@), y));
        }
    }
}

/// Whether `t` is exactly the calls of [`apply_nat_rules`] for `wan` and
/// `r` its outcome: the masquerade check-then-append, and the forwarding
/// rules only when that succeeded.
pub open spec fn nat_calls(t: Seq<Entry>, wan: Seq<char>, r: Result<(), ErrorView>) -> bool {
    exists|k: int, m: Result<(), ErrorView>|
        #![trigger check_append_calls(t.subrange(0, k), masquerade_rule("-C"@, wan), masquerade_rule("-A"@, wan), m)]
        0 <= k <= t.len() && check_append_calls(
            t.subrange(0, k),
            masquerade_rule("-C"@, wan),
            masquerade_rule("-A"@, wan),
            m,
        ) && match m {
            Err(e) => k == t.len() && r == Err::<(), ErrorView>(e),
            Ok(_) => r is Ok && forward_calls(t.subrange(k, t.len() as int), wan),
        }
}

/// `Applying NAT / masquerade rules for interface '<wan>'...`
pub open spec fn nat_start_line(wan: Seq<char>) -> Seq<char> {
    "Applying NAT / masquerade rules for interface '"@ + wan + "'..."@
}

/// Apply NAT / masquerade for the chosen WAN interface (see [`wan_choice`]).
/// A dry run plans the three append commands; otherwise the rules are
/// ensured, masquerade first, and a failure of the masquerade rule is
/// returned. Whether to persist the rules is the caller's question.
pub fn apply_nat_rules<R: ProcessRunner>(
    runs: &mut Runs<R>,
    journal: &mut StepJournal,
    dry_run: bool,
    env: &EnvMap,
    route_wan: Option<&str>,
) -> (r: Result<(), HortoError>)
    ensures
        ({
            let wan = wan_choice(env_get(env@, "ETH_LAN"@), opt_str_view(route_wan));
            &&& dry_run ==> r is Ok
            &&& dry_run ==> final(journal)@.logs == old(journal)@.logs.push(nat_start_line(wan))
            &&& dry_run ==> final(journal)@.planned == old(journal)@.planned.push(
                iptables_line(masquerade_rule("-A"@, wan)),
            ).push(iptables_line(forward_out_rule("-A"@, wan))).push(
                iptables_line(forward_back_rule("-A"@, wan)),
            )
            &&& !dry_run ==> final(journal)@.planned == old(journal)@.planned
            &&& (!dry_run && r is Ok) ==> final(journal)@.logs == old(journal)@.logs.push(
                nat_start_line(wan),
            ).push("Applied NAT / masquerade rules."@)
            &&& (!dry_run && r is Err) ==> final(journal)@.logs == old(journal)@.logs.push(
                nat_start_line(wan),
            )
            &&& r matches Err(e) ==> iptables_failure(masquerade_rule("-A"@, wan), e@)
            &&& !dry_run ==> exists|m: Result<(), ErrorView>|
                #[trigger] check_append_gives(
                    old(runs).runner(),
                    masquerade_rule("-C"@, wan),
                    masquerade_rule("-A"@, wan),
                    m,
                ) && match m {
                    Err(e) => unit_view(r) == Err::<(), ErrorView>(e),
                    Ok(_) => r is Ok && forward_rules_run(old(runs).runner(), wan),
                }
            &&& dry_run ==> final(runs).log() == old(runs).log()
            &&& !dry_run ==> nat_calls(calls_between(old(runs).log(), final(runs).log()), wan, unit_view(r))
        }),
        final(runs).runner() == old(runs).runner(),
        log_grows(old(runs).log(), final(runs).log()),
{
    let ghost runner = runs.runner();
    let ghost l0 = runs.log();
    let wan = choose_wan_iface(env, route_wan);
    journal.log(concat3("Applying NAT / masquerade rules for interface '", wan.as_str(), "'..."));
    if dry_run {
        let m = masquerade_args("-A", wan.as_str());
        journal.plan_action(iptables_command_line(&m));
        let o = forward_out_args("-A", wan.as_str());
        journal.plan_action(iptables_command_line(&o));
        let b = forward_back_args("-A", wan.as_str());
        journal.plan_action(iptables_command_line(&b));
        return Ok(());
    }
    let masq = ensure_nat_masquerade(runs, journal, dry_run, wan.as_str());
    let ghost l1 = runs.log();
    let ghost t1 = calls_between(l0, l1);
    let ghost mv = unit_view(masq);
    assert(check_append_gives(runner, masquerade_rule("-C"@, wan@), masquerade_rule("-A"@, wan@), unit_view(masq)));
    assert(check_append_calls(t1, masquerade_rule("-C"@, wan@), masquerade_rule("-A"@, wan@), mv));
    match masq {
        Err(e) => {
            assert(check_append_gives(runner, masquerade_rule("-C"@, wan@), masquerade_rule("-A"@, wan@), Err(e@)));
            proof {
                assert(t1.subrange(0, t1.len() as int) =~= t1);
                assert(check_append_calls(t1.subrange(0, t1.len() as int), masquerade_rule("-C"@, wan@), masquerade_rule("-A"@, wan@), mv));
            }
            Err(e)
        },
        Ok(()) => {
            ensure_forward_accept(runs, journal, dry_run, wan.as_str());
            proof {
                let l2 = runs.log();
                lemma_calls_concat(l0, l1, l2);
                let t2 = calls_between(l1, l2);
                let t = t1 + t2;
                assert(t.subrange(0, t1.len() as int) =~= t1);
                assert(t.subrange(t1.len() as int, t.len() as int) =~= t2);
                assert(check_append_calls(t.subrange(0, t1.len() as int), masquerade_rule("-C"@, wan@), masquerade_rule("-A"@, wan@), mv));
                assert(forward_calls(t.subrange(t1.len() as int, t.len() as int), wan@));
            }
            assert(forward_rules_run(runner, wan@));
            journal.log(owned("Applied NAT / masquerade rules."));
            assert(check_append_gives(runner, masquerade_rule("-C"@, wan@), masquerade_rule("-A"@, wan@), Ok(())));
            Ok(())
        },
    }
}

/// Units restarted after activation: `dnsmasq`, `hostapd` only when the
/// IoT env enables a WiFi AP, then `avahi-daemon`.
pub open spec fn iot_units(wifi: bool) -> Seq<Seq<char>> {
    if wifi {
        seq!["dnsmasq"@, "hostapd"@, "avahi-daemon"@]
    } else {
        seq!["dnsmasq"@, "avahi-daemon"@]
    }
}

/// Services [`S7Activate`](crate::steps::S7Activate) restarts, given the IoT
/// env when it could be read (`None` counts as no WiFi AP).
pub fn iot_units_to_restart(env: Option<&EnvMap>) -> (r: Vec<String>)
    ensures
        sviews(r@) == iot_units(
            match env {
                Some(m) => wifi_ap_on(m@),
                None => false,
            },
        ),
{
    let wifi = match env {
        Some(m) => wifi_ap_enabled(m),
        None => false,
    };
    let mut r: Vec<String> = Vec::new();
    r.push(owned("dnsmasq"));
    if wifi {
        r.push(owned("hostapd"));
    }
    r.push(owned("avahi-daemon"));
    assert(sviews(r@) =~= iot_units(wifi));
    r
}

/// `/etc/cron.d` line exporting DHCP leases every minute as root.
pub open spec fn cron_body(horto_bin: Seq<char>) -> Seq<char> {
    "* * * * * root "@ + horto_bin + " net export-leases >/dev/null 2>&1\n"@
}

pub fn export_cron_body(horto_bin: &str) -> (r: String)
    ensures
        r@ == cron_body(horto_bin@),
{
    concat3("* * * * * root ", horto_bin, " net export-leases >/dev/null 2>&1\n")
}

/// `<etc>/cron.d/export_dhcp_leases`.
pub open spec fn cron_file_of(etc: Seq<char>) -> Seq<char> {
    join_path(join_path(etc, "cron.d"@), "export_dhcp_leases"@)
}

pub fn cron_file_path(etc: &str) -> (r: String)
    ensures
        r@ == cron_file_of(etc@),
{
    let d = path_join(etc, "cron.d");
    path_join(d.as_str(), "export_dhcp_leases")
}

/// Log line after the cron entry is installed.
pub open spec fn cron_installed_line(cron_file: Seq<char>, horto_bin: Seq<char>) -> Seq<char> {
    "cron job installed in "@ + cron_file + " (every minute: "@ + horto_bin + " net export-leases)"@
}

pub fn cron_installed_message(cron_file: &str, horto_bin: &str) -> (r: String)
    ensures
        r@ == cron_installed_line(cron_file@, horto_bin@),
{
    let mut l = concat3("cron job installed in ", cron_file, " (every minute: ");
    l.append(horto_bin);
    l.append(" net export-leases)");
    l
}

/// Dry-run plan of the lease-export cron install.
pub fn plan_export_cron(journal: &mut StepJournal, cron_file: &str, horto_bin: &str)
    ensures
        final(journal)@.logs == old(journal)@.logs,
        final(journal)@.planned == old(journal)@.planned.push(
            "ensure package cron is installed"@,
        ).push("write "@ + cron_file@ + " with: "@ + trim(cron_body(horto_bin@))).push(
            "systemctl enable --now cron"@,
        ),
{
    let body = export_cron_body(horto_bin);
    let t = trim_str(body.as_str());
    journal.plan_action(owned("ensure package cron is installed"));
    let mut w = concat3("write ", cron_file, " with: ");
    w.append(t.as_str());
    journal.plan_action(w);
    journal.plan_action(owned("systemctl enable --now cron"));
}

/// Dry-run plan of `s7`.
pub open spec fn activation_plan() -> Seq<Seq<char>> {
    seq![
        "sysctl --system"@,
        "netplan generate && netplan apply"@,
        "restart dnsmasq, avahi-daemon (hostapd when WiFi AP enabled)"@,
        "optional NAT (HORTO_APPLY_NAT=1 or confirm)"@,
        "export DHCP leases + install /etc/cron.d/export_dhcp_leases (horto net export-leases)"@,
    ]
}

pub fn plan_activation(journal: &mut StepJournal)
    ensures
        final(journal)@.planned == old(journal)@.planned + activation_plan(),
        final(journal)@.logs == old(journal)@.logs,
{
    let ghost p0 = journal@.planned;
    journal.plan_action(owned("sysctl --system"));
    journal.plan_action(owned("netplan generate && netplan apply"));
    journal.plan_action(owned("restart dnsmasq, avahi-daemon (hostapd when WiFi AP enabled)"));
    journal.plan_action(owned("optional NAT (HORTO_APPLY_NAT=1 or confirm)"));
    journal.plan_action(
        owned(
            "export DHCP leases + install /etc/cron.d/export_dhcp_leases (horto net export-leases)",
        ),
    );
    assert(journal@.planned =~= p0 + activation_plan());
}

/// What `s7` does once it runs for real.
#[derive(Debug, Clone, Copy, PartialEq, Eq)]
pub enum ActivationPath {
    /// Not root: only export the DHCP leases.
    LeasesOnly,
    /// sysctl, netplan, service restarts, optional NAT, leases and cron.
    Activate,
}

/// Privileged activation needs root; without it `s7` only exports leases
/// and says so.
pub fn activation_path(journal: &mut StepJournal, is_root: bool) -> (p: ActivationPath)
    ensures
        p == (if is_root {
            ActivationPath::Activate
        } else {
            ActivationPath::LeasesOnly
        }),
        !is_root ==> final(journal)@.logs == old(journal)@.logs.push(
            "Not root; skipping privileged activate (sysctl/netplan/services/NAT/cron). Exporting leases only."@,
        ),
        is_root ==> final(journal)@.logs == old(journal)@.logs,
        final(journal)@.planned == old(journal)@.planned,
{
    if is_root {
        ActivationPath::Activate
    } else {
        journal.log(
            owned(
                "Not root; skipping privileged activate (sysctl/netplan/services/NAT/cron). Exporting leases only.",
            ),
        );
        ActivationPath::LeasesOnly
    }
}

/// How `s7` starts: a dry run records [`activation_plan`]; without the
/// full-setup env file it logs the skip; otherwise [`activation_path`] says
/// whether it activates or only exports leases. `None` when nothing more runs.
pub fn activation_start(journal: &mut StepJournal, full_env_exists: bool, dry_run: bool, is_root: bool) -> (r:
    Option<ActivationPath>)
    ensures
        dry_run ==> r is None && final(journal)@.planned == old(journal)@.planned + activation_plan()
            && final(journal)@.logs == old(journal)@.logs,
        (!dry_run && !full_env_exists) ==> r is None && final(journal)@.logs == old(journal)@.logs.push(
            skip_line("s7"@),
        ) && final(journal)@.planned == old(journal)@.planned,
        (!dry_run && full_env_exists) ==> r == Some(
            if is_root {
                ActivationPath::Activate
            } else {
                ActivationPath::LeasesOnly
            },
        ) && final(journal)@.planned == old(journal)@.planned && (is_root ==> final(journal)@.logs
            == old(journal)@.logs) && (!is_root ==> final(journal)@.logs == old(journal)@.logs.push(
            "Not root; skipping privileged activate (sysctl/netplan/services/NAT/cron). Exporting leases only."@,
        )),
{
    match full_setup_gate(journal, "s7", full_env_exists, dry_run) {
        StepGate::Plan => {
            plan_activation(journal);
            None
        },
        StepGate::Skip => None,
        StepGate::Run => Some(activation_path(journal, is_root)),
    }
}

} // verus!
