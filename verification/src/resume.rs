//! Per-step completion records for setup resume.
//!
//! The records live in a JSON file that the embedding program reads and
//! writes; this module decides what the records say.
use vstd::prelude::*;
use crate::step::Step;
use crate::text::{owned, str_eq};

verus! {

/// One recorded attempt for a step id.
#[derive(Debug, Clone)]
pub struct ResumeStepRecord {
    /// Step id (`s1`, `d1`, …).
    pub id: String,
    /// [`Step::step_version`] at record time.
    pub step_version: u32,
    /// UTC timestamp (RFC 3339) when the record was written.
    pub completed_at: String,
    /// `true` on success, `false` on recorded failure.
    pub ok: bool,
}

/// Serialized resume file: ordered step completion records.
#[derive(Debug, Clone)]
pub struct ResumeState {
    /// Completion / failure records (latest per id wins for [`status_for`]).
    pub steps: Vec<ResumeStepRecord>,
}

impl Default for ResumeState {
    fn default() -> (s: Self)
        ensures
            s.steps@.len() == 0,
    {
        ResumeState { steps: Vec::new() }
    }
}

/// Derived status of a registered step against [`ResumeState`].
#[derive(Debug, Clone, Copy, PartialEq, Eq)]
pub enum StepStatus {
    /// No matching record (or only superseded entries).
    Pending,
    /// Last record is ok and `step_version` is current or newer than the binary's.
    Done,
    /// Last record is ok but recorded version is older than the binary's.
    Stale,
    /// Last record has `ok: false`.
    Failed,
}

/// `(id, version, ok)` of each record.
pub open spec fn record_views(v: Seq<ResumeStepRecord>) -> Seq<(Seq<char>, u32, bool)> {
    Seq::new(v.len(), |i: int| (v[i].id@, v[i].step_version, v[i].ok))
}

/// `(version, ok)` of the latest record for `id`.
pub open spec fn last_record(s: Seq<(Seq<char>, u32, bool)>, id: Seq<char>) -> Option<(u32, bool)>
    decreases s.len(),
{
    if s.len() == 0 {
        None
    } else if s.last().0 == id {
        Some((s.last().1, s.last().2))
    } else {
        last_record(s.drop_last(), id)
    }
}

/// Status of a step with id `id` at binary version `v`.
pub open spec fn status_of(s: Seq<(Seq<char>, u32, bool)>, id: Seq<char>, v: u32) -> StepStatus {
    match last_record(s, id) {
        Some(r) => if !r.1 {
            StepStatus::Failed
        } else if r.0 >= v {
            StepStatus::Done
        } else {
            StepStatus::Stale
        },
        None => StepStatus::Pending,
    }
}

/// Records other than those of `id`, order kept.
pub open spec fn without_id(s: Seq<(Seq<char>, u32, bool)>, id: Seq<char>) -> Seq<
    (Seq<char>, u32, bool),
>
    decreases s.len(),
{
    if s.len() == 0 {
        seq![]
    } else if s.last().0 == id {
        without_id(s.drop_last(), id)
    } else {
        without_id(s.drop_last(), id).push(s.last())
    }
}

/// Status for `step` from the latest matching record.
pub fn status_for<S: Step>(state: &ResumeState, step: &S) -> (r: StepStatus)
    ensures
        r == status_of(record_views(state.steps@), step.id_view(), step.version_view()),
{
    let id = step.id();
    let v = step.step_version();
    status_for_id(state, id, v)
}

/// Status of the step with id `id` at binary version `version`.
pub fn status_for_id(state: &ResumeState, id: &str, version: u32) -> (r: StepStatus)
    ensures
        r == status_of(record_views(state.steps@), id@, version),
{
    let ghost s = record_views(state.steps@);
    let mut i: usize = state.steps.len();
    assert(s.subrange(0, i as int) =~= s);
    while i > 0
        invariant
            i <= state.steps@.len(),
            s == record_views(state.steps@),
            last_record(s, id@) == last_record(s.subrange(0, i as int), id@),
        decreases i,
    {
        let ghost sub = s.subrange(0, i as int);
        assert(sub.drop_last() =~= s.subrange(0, i - 1));
        let r = &state.steps[i - 1];
        assert(sub.last() == (r.id@, r.step_version, r.ok));
        if str_eq(r.id.as_str(), id) {
            if !r.ok {
                return StepStatus::Failed;
            }
            if r.step_version >= version {
                return StepStatus::Done;
            }
            return StepStatus::Stale;
        }
        i = i - 1;
    }
    StepStatus::Pending
}

/// True when recorded completion is older than the binary's `step_version`.
pub fn is_stale(recorded_version: u32, binary_version: u32) -> (b: bool)
    ensures
        b == (binary_version > recorded_version),
{
    binary_version > recorded_version
}

impl ResumeState {
    /// Replace any prior record for `id` with a new one (last in order).
    pub fn record(&mut self, id: &str, step_version: u32, completed_at: &str, ok: bool)
        ensures
            record_views(final(self).steps@) == without_id(record_views(old(self).steps@), id@).push(
                (id@, step_version, ok),
            ),
            final(self).steps@.len() > 0,
            final(self).steps@.last().completed_at@ == completed_at@,
    {
        let ghost s = record_views(self.steps@);
        let mut kept: Vec<ResumeStepRecord> = Vec::new();
        let mut i: usize = 0;
        assert(s.subrange(0, 0) =~= Seq::<(Seq<char>, u32, bool)>::empty());
        while i < self.steps.len()
            invariant
                i <= self.steps@.len(),
                s == record_views(self.steps@),
                record_views(kept@) == without_id(s.subrange(0, i as int), id@),
            decreases self.steps@.len() - i,
        {
            let ghost sub = s.subrange(0, i + 1);
            assert(sub.drop_last() =~= s.subrange(0, i as int));
            let r = &self.steps[i];
            assert(sub.last() == (r.id@, r.step_version, r.ok));
            if !str_eq(r.id.as_str(), id) {
                let ghost k0 = record_views(kept@);
                kept.push(
                    ResumeStepRecord {
                        id: owned(r.id.as_str()),
                        step_version: r.step_version,
                        completed_at: owned(r.completed_at.as_str()),
                        ok: r.ok,
                    },
                );
                assert(record_views(kept@) =~= k0.push(sub.last()));
            }
            i = i + 1;
        }
        assert(s.subrange(0, i as int) =~= s);
        let ghost k1 = record_views(kept@);
        kept.push(
            ResumeStepRecord {
                id: owned(id),
                step_version,
                completed_at: owned(completed_at),
                ok,
            },
        );
        assert(record_views(kept@) =~= k1.push((id@, step_version, ok)));
        self.steps = kept;
    }

    /// Record a successful completion of `step` (replacing earlier records).
    pub fn record_ok<S: Step>(&mut self, step: &S, completed_at: &str)
        ensures
            record_views(final(self).steps@) == without_id(
                record_views(old(self).steps@),
                step.id_view(),
            ).push((step.id_view(), step.version_view(), true)),
            final(self).steps@.len() > 0,
            final(self).steps@.last().completed_at@ == completed_at@,
    {
        let id = step.id();
        let v = step.step_version();
        self.record(id, v, completed_at, true);
    }

    /// Record a failure of `step_id` at `step_version` (replacing earlier records).
    pub fn mark_failed(&mut self, step_id: &str, step_version: u32, completed_at: &str)
        ensures
            record_views(final(self).steps@) == without_id(record_views(old(self).steps@), step_id@).push(
                (step_id@, step_version, false),
            ),
            final(self).steps@.len() > 0,
            final(self).steps@.last().completed_at@ == completed_at@,
    {
        self.record(step_id, step_version, completed_at, false);
    }
}

/// Whether `s` has the outline of a UTC RFC 3339 stamp as chrono writes it
/// with `Z`: at least `YYYY-MM-DDTHH:MM:SS` and the zone letter, ending in `Z`.
pub open spec fn utc_stamp_shape(s: Seq<char>) -> bool {
    s.len() >= 20 && s.last() == 'Z'
}

/// The current UTC time, RFC 3339 (`chrono::Utc::now`, then
/// `DateTime::to_rfc3339_opts` with `use_z`). Which instant comes back is not
/// stated; chrono's writer emits the date, `T`, the time and, for the zero
/// UTC offset, `Z`, which is the shape stated here.
#[verifier::external_body]
fn utc_now_rfc3339() -> (r: String)
    ensures
        utc_stamp_shape(r@),
{
    chrono::Utc::now().to_rfc3339_opts(chrono::SecondsFormat::AutoSi, true)
}

/// Record a successful completion of `step` stamped with the current time.
pub fn record_ok_now<S: Step>(state: &mut ResumeState, step: &S)
    ensures
        record_views(final(state).steps@) == without_id(record_views(old(state).steps@), step.id_view()).push(
            (step.id_view(), step.version_view(), true),
        ),
        final(state).steps@.len() > 0,
        utc_stamp_shape(final(state).steps@.last().completed_at@),
{
    let now = utc_now_rfc3339();
    state.record_ok(step, now.as_str());
}

/// Record a failure of `step_id` stamped with the current time.
pub fn mark_failed_now(state: &mut ResumeState, step_id: &str, step_version: u32)
    ensures
        record_views(final(state).steps@) == without_id(record_views(old(state).steps@), step_id@).push(
            (step_id@, step_version, false),
        ),
        final(state).steps@.len() > 0,
        utc_stamp_shape(final(state).steps@.last().completed_at@),
{
    let now = utc_now_rfc3339();
    state.mark_failed(step_id, step_version, now.as_str());
}

pub proof fn lemma_without_id_last(s: Seq<(Seq<char>, u32, bool)>, id: Seq<char>, other: Seq<char>)
    ensures
        last_record(without_id(s, id), other) == (if other == id {
            None
        } else {
            last_record(s, other)
        }),
    decreases s.len(),
{
    if s.len() > 0 {
        lemma_without_id_last(s.drop_last(), id, other);
        let w = without_id(s.drop_last(), id);
        assert(w.push(s.last()).drop_last() =~= w);
    }
}

/// A step recorded ok at version `v` is done at any binary version up to `v`
/// and stale at a newer one; other steps keep their status.
pub proof fn law_record_ok_status(
    s: Seq<(Seq<char>, u32, bool)>,
    id: Seq<char>,
    v: u32,
    other: Seq<char>,
    binary: u32,
)
    ensures
        status_of(without_id(s, id).push((id, v, true)), id, binary) == (if v >= binary {
            StepStatus::Done
        } else {
            StepStatus::Stale
        }),
        other != id ==> status_of(without_id(s, id).push((id, v, true)), other, binary)
            == status_of(s, other, binary),
{
    let w = without_id(s, id);
    assert(w.push((id, v, true)).drop_last() =~= w);
    lemma_without_id_last(s, id, other);
}

/// A step marked failed reads as failed whatever the binary version; other
/// steps keep their status.
pub proof fn law_mark_failed_status(
    s: Seq<(Seq<char>, u32, bool)>,
    id: Seq<char>,
    v: u32,
    other: Seq<char>,
    binary: u32,
)
    ensures
        status_of(without_id(s, id).push((id, v, false)), id, binary) == StepStatus::Failed,
        other != id ==> status_of(without_id(s, id).push((id, v, false)), other, binary)
            == status_of(s, other, binary),
{
    let w = without_id(s, id);
    assert(w.push((id, v, false)).drop_last() =~= w);
    lemma_without_id_last(s, id, other);
}

/// No two records share a step id.
pub open spec fn unique_ids(s: Seq<(Seq<char>, u32, bool)>) -> bool {
    forall|i: int, j: int| 0 <= i < j < s.len() ==> (#[trigger] s[i]).0 != (#[trigger] s[j]).0
}

/// Every record left by `without_id` is a record of `s` with another id.
proof fn lemma_without_id_members(s: Seq<(Seq<char>, u32, bool)>, id: Seq<char>)
    ensures
        forall|i: int|
            0 <= i < without_id(s, id).len() ==> (#[trigger] without_id(s, id)[i]).0 != id && s.contains(
                without_id(s, id)[i],
            ),
    decreases s.len(),
{
    if s.len() > 0 {
        lemma_without_id_members(s.drop_last(), id);
        let w = without_id(s.drop_last(), id);
        assert forall|i: int| 0 <= i < without_id(s, id).len() implies (#[trigger] without_id(s, id)[i]).0
            != id && s.contains(without_id(s, id)[i]) by {
            if i < w.len() {
                assert(without_id(s, id)[i] == w[i]);
                let k = choose|k: int| 0 <= k < s.drop_last().len() && s.drop_last()[k] == w[i];
                assert(s[k] == w[i]);
            } else {
                assert(without_id(s, id)[i] == s.last());
                assert(s[s.len() - 1] == s.last());
            }
        }
    }
}

/// `without_id` keeps a state with one record per id that way.
proof fn lemma_without_id_unique(s: Seq<(Seq<char>, u32, bool)>, id: Seq<char>)
    requires
        unique_ids(s),
    ensures
        unique_ids(without_id(s, id)),
    decreases s.len(),
{
    if s.len() > 0 {
        let d = s.drop_last();
        assert(unique_ids(d)) by {
            assert forall|i: int, j: int| 0 <= i < j < d.len() implies (#[trigger] d[i]).0 != (#[trigger] d[j]).0 by {
                assert(d[i] == s[i] && d[j] == s[j]);
            }
        }
        lemma_without_id_unique(d, id);
        lemma_without_id_members(d, id);
        let w = without_id(d, id);
        if s.last().0 != id {
            assert forall|i: int, j: int| 0 <= i < j < w.push(s.last()).len() implies (#[trigger] w.push(s.last())[i]).0
                != (#[trigger] w.push(s.last())[j]).0 by {
                if j < w.len() {
                    assert(w.push(s.last())[i] == w[i] && w.push(s.last())[j] == w[j]);
                } else {
                    assert(w.push(s.last())[i] == w[i]);
                    assert(w.push(s.last())[j] == s.last());
                    let k = choose|k: int| 0 <= k < d.len() && d[k] == w[i];
                    assert(s[k] == d[k]);
                    assert(s[s.len() - 1] == s.last());
                }
            }
        }
    }
}

/// Recording keeps one record per step id: the new record is the only one
/// for its id, and a state with one record per id stays that way.
pub proof fn law_record_single_entry(s: Seq<(Seq<char>, u32, bool)>, id: Seq<char>, v: u32, ok: bool)
    ensures
        ({
            let r = without_id(s, id).push((id, v, ok));
            &&& r.last().0 == id
            &&& forall|i: int| 0 <= i < r.len() - 1 ==> (#[trigger] r[i]).0 != id
            &&& unique_ids(s) ==> unique_ids(r)
        }),
{
    lemma_without_id_members(s, id);
    let w = without_id(s, id);
    let r = w.push((id, v, ok));
    assert forall|i: int| 0 <= i < r.len() - 1 implies (#[trigger] r[i]).0 != id by {
        assert(r[i] == w[i]);
    }
    if unique_ids(s) {
        lemma_without_id_unique(s, id);
        assert forall|i: int, j: int| 0 <= i < j < r.len() implies (#[trigger] r[i]).0 != (#[trigger] r[j]).0 by {
            if j < w.len() {
                assert(r[i] == w[i] && r[j] == w[j]);
            } else {
                assert(r[i] == w[i]);
            }
        }
    }
}

} // verus!
