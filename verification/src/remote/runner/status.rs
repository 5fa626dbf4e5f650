//! Setup status and doctor reports fetched from the box.
use vstd::prelude::*;
use crate::error::{message_error, ErrorView, HortoError};
use crate::text::{lemma_char_end_concat, find_first, find_last, is_ws, lemma_find_first_at, lemma_find_last_at, lemma_trim_fixed, occurs_at};
use crate::text::{
    char_end, contains, contains_seq, find_char_end, find_str, from_chars, has_prefix, lines,
    parse_unsigned, parse_unsigned_chars, rfind_chars, rfind_str, slice_range, split_lines,
    split_once, split_once_chars, starts_with, to_chars, trim, trim_chars, views,
};

verus! {

/// One pipeline step row of `setup status`.
#[derive(Debug, Clone)]
pub struct StepStatusRow {
    /// Step id (`s1`, `d2`, …).
    pub id: String,
    /// Human title.
    pub title: String,
    /// Status word (`done`, `pending`, `failed`, `stale`, …).
    pub status: String,
    /// Step version recorded on the box.
    pub step_version: u32,
    /// Step changes live system files.
    pub destructive: bool,
    /// Step wants a reboot afterwards.
    pub needs_reboot_after: bool,
}

/// `setup status` of one pipeline kind.
#[derive(Debug, Clone)]
pub struct SetupStatusReport {
    /// Pipeline kind (`full` / `minimal`).
    pub kind: String,
    /// Step rows in pipeline order.
    pub steps: Vec<StepStatusRow>,
}

/// `doctor` report of a box.
#[derive(Debug, Clone)]
pub struct DoctorReport {
    pub is_root: bool,
    pub has_sudo: bool,
    pub docker_present: bool,
    pub active_setup_dir: bool,
    pub full_env: bool,
    pub minimal_env: bool,
    pub docker_dir: bool,
    pub backup_dir: bool,
    /// Free-form notes.
    pub notes: Vec<String>,
}

/// Decodes the JSON reports a box CLI prints (`setup status --json`, `doctor`).
///
/// `json` starts at the first `{` or `[` of the remote output, trimmed.
pub trait ReportDecoder {
    /// Whether `r` is a decoding of `json` as a setup report that this
    /// decoder may give.
    ///
    /// By default any outcome may come back; a decoder whose results are
    /// known may say which.
    open spec fn may_decode_setup(&self, json: Seq<char>, r: Result<SetupStatusReport, ErrorView>) -> bool {
        true
    }

    /// Whether `r` is a decoding of `json` as a doctor report that this
    /// decoder may give (any, by default).
    open spec fn may_decode_doctor(&self, json: Seq<char>, r: Result<DoctorReport, ErrorView>) -> bool {
        true
    }

    fn setup_status(&self, json: &str) -> (r: Result<SetupStatusReport, HortoError>)
        ensures
            self.may_decode_setup(
                json@,
                match r {
                    Ok(x) => Ok(x),
                    Err(e) => Err(e@),
                },
            ),
    ;

    fn doctor(&self, json: &str) -> (r: Result<DoctorReport, HortoError>)
        ensures
            self.may_decode_doctor(
                json@,
                match r {
                    Ok(x) => Ok(x),
                    Err(e) => Err(e@),
                },
            ),
    ;
}

/// Mathematical value of a [`StepStatusRow`].
pub struct StepRowView {
    pub id: Seq<char>,
    pub title: Seq<char>,
    pub status: Seq<char>,
    pub step_version: u32,
    pub destructive: bool,
    pub needs_reboot_after: bool,
}

impl View for StepStatusRow {
    type V = StepRowView;

    open spec fn view(&self) -> StepRowView {
        StepRowView {
            id: self.id@,
            title: self.title@,
            status: self.status@,
            step_version: self.step_version,
            destructive: self.destructive,
            needs_reboot_after: self.needs_reboot_after,
        }
    }
}

pub open spec fn row_views(v: Seq<StepStatusRow>) -> Seq<StepRowView> {
    Seq::new(v.len(), |i: int| v[i]@)
}

/// `s.trim_start_matches(p)` for a non-empty `p`.
pub open spec fn trim_start_str(s: Seq<char>, p: Seq<char>) -> Seq<char>
    decreases s.len(),
{
    if p.len() > 0 && has_prefix(s, p) {
        trim_start_str(s.subrange(p.len() as int, s.len() as int), p)
    } else {
        s
    }
}

/// Piece of `s` before its first `c` (the whole of `s` when there is none).
pub open spec fn before_char(s: Seq<char>, c: char) -> Seq<char> {
    s.subrange(0, char_end(s, c) as int)
}

/// Title and version/flags tail of the text after `<id> - `.
pub open spec fn title_split(after_id: Seq<char>) -> (Seq<char>, Seq<char>) {
    match rfind_str(after_id, " (v"@) {
        Some(i) => (after_id.subrange(0, i), after_id.subrange(i, after_id.len() as int)),
        None => (after_id, seq![]),
    }
}

/// Version in ` (v<N>)…`, `0` when absent or malformed.
pub open spec fn version_of_flags(flags: Seq<char>) -> u32 {
    match parse_unsigned(before_char(trim_start_str(flags, " (v"@), ')'), 0xffff_ffff) {
        Some(v) => v as u32,
        None => 0,
    }
}

/// Step row of one trimmed `[<status>] <id> - <title> (v<N>) [flags]` line.
pub open spec fn step_row_of(line: Seq<char>) -> Option<StepRowView> {
    if !has_prefix(line, "["@) {
        None
    } else {
        match split_once(line.drop_first(), "]"@) {
            None => None,
            Some(sp) => match split_once(trim(sp.1), " - "@) {
                None => None,
                Some(ia) => {
                    let ts = title_split(ia.1);
                    Some(
                        StepRowView {
                            id: trim(ia.0),
                            title: trim(ts.0),
                            status: trim(sp.0),
                            step_version: version_of_flags(ts.1),
                            destructive: contains(ts.1, "[destructive]"@),
                            needs_reboot_after: contains(ts.1, "[reboot]"@),
                        },
                    )
                },
            },
        }
    }
}

/// Splitting `a + (m + b)` at `m` when `a` holds no `m[0]` and `m` is one character.
proof fn lemma_split_at_first(a: Seq<char>, m: Seq<char>, b: Seq<char>)
    requires
        m.len() >= 1,
        forall|i: int| 0 <= i < a.len() ==> a[i] != m[0],
    ensures
        split_once(a + (m + b), m) == Some((a, b)),
{
    let s = a + (m + b);
    let k = a.len() as int;
    assert(s.subrange(k, k + m.len()) =~= m);
    assert forall|j: int| 0 <= j < k implies !occurs_at(s, m, j) by {
        if occurs_at(s, m, j) {
            assert(s.subrange(j, j + m.len())[0] == s[j]);
            assert(s[j] == a[j]);
        }
    }
    lemma_find_first_at(s, m, 0, k);
    assert(s.subrange(0, k) =~= a);
    assert(s.subrange(k + m.len(), s.len() as int) =~= b);
}

/// Trimming a single space off text that is already trimmed.
proof fn lemma_trim_after_space(x: Seq<char>)
    requires
        x.len() > 0,
        !is_ws(x[0]),
        !is_ws(x.last()),
    ensures
        trim(" "@ + x) == x,
{
    reveal_strlit(" ");
    let r = " "@ + x;
    assert(r[0] == ' ');
    assert(is_ws(' '));
    assert(r.drop_first() =~= x);
    lemma_trim_fixed(x);
}

/// The title split of `title + (" (v" + (n + ")"))` when `n` holds no space.
proof fn lemma_title_split_marker(title: Seq<char>, n: Seq<char>)
    requires
        forall|i: int| 0 <= i < n.len() ==> n[i] != ' ',
    ensures
        title_split(title + (" (v"@ + (n + ")"@))).0 == title,
        title_split(title + (" (v"@ + (n + ")"@))).1 == " (v"@ + (n + ")"@),
{
    reveal_strlit(" (v");
    reveal_strlit(")");
    let r2 = title + (" (v"@ + (n + ")"@));
    let t = title.len() as int;
    let at = r2.len() - 3;
    assert(r2.subrange(t, t + 3) =~= " (v"@);
    assert forall|j: int| t < j <= at implies !occurs_at(r2, " (v"@, j) by {
        if occurs_at(r2, " (v"@, j) {
            assert(r2.subrange(j, j + 3)[0] == r2[j]);
            assert(" (v"@[0] == ' ');
            if j == t + 1 {
                assert(r2[j] == '(');
            } else if j == t + 2 {
                assert(r2[j] == 'v');
            } else {
                assert(r2[j] == n[j - t - 3]);
            }
        }
    }
    lemma_find_last_at(r2, " (v"@, at, t);
    assert(r2.subrange(0, t) =~= title);
    assert(r2.subrange(t, r2.len() as int) =~= " (v"@ + (n + ")"@));
}

/// The row of a step line `[<st>] <id> - <title> (v<n>)`, field by field.
proof fn lemma_step_line_row(st: Seq<char>, id: Seq<char>, title: Seq<char>, n: Seq<char>)
    requires
        forall|i: int| 0 <= i < st.len() ==> st[i] != ']',
        id.len() > 0,
        forall|i: int| 0 <= i < id.len() ==> !is_ws(#[trigger] id[i]),
        forall|i: int| 0 <= i < n.len() ==> n[i] != ' ',
    ensures
        step_row_of("["@ + st + "] "@ + id + " - "@ + title + " (v"@ + n + ")"@) == Some(
            StepRowView {
                id: id,
                title: trim(title),
                status: trim(st),
                step_version: version_of_flags(" (v"@ + (n + ")"@)),
                destructive: contains(" (v"@ + (n + ")"@), "[destructive]"@),
                needs_reboot_after: contains(" (v"@ + (n + ")"@), "[reboot]"@),
            },
        ),
{
    reveal_strlit("[");
    reveal_strlit("]");
    reveal_strlit("] ");
    reveal_strlit(" ");
    reveal_strlit(" - ");
    reveal_strlit(" (v");
    reveal_strlit(")");
    let r2 = title + (" (v"@ + (n + ")"@));
    let after = id + (" - "@ + r2);
    let r1 = " "@ + after;
    let rest0 = st + ("]"@ + r1);
    let line = "["@ + rest0;
    assert("] "@ =~= "]"@ + " "@);
    assert(line =~= "["@ + st + "] "@ + id + " - "@ + title + " (v"@ + n + ")"@);
    assert(line.subrange(0, 1) =~= "["@);
    assert(line.drop_first() =~= rest0);
    lemma_split_at_first(st, "]"@, r1);
    assert(after[0] == id[0]);
    assert(after.last() == ')');
    assert(!is_ws(')'));
    lemma_trim_after_space(after);
    assert forall|i: int| 0 <= i < id.len() implies id[i] != " - "@[0] by {
        assert(is_ws(' '));
    }
    lemma_split_at_first(id, " - "@, r2);
    lemma_title_split_marker(title, n);
    assert(id.last() == id[id.len() - 1]);
    lemma_trim_fixed(id);
}

/// In a step line `[<st>] <id> - <title> (v<n>)` the row's title is the
/// trimmed `<title>`, without the version marker, whatever `<title>` holds;
/// the id is `<id>` and the status the trimmed `<st>` (for a status without
/// `]`, an id without whitespace and a version text without spaces).
pub proof fn law_step_title_drops_version(st: Seq<char>, id: Seq<char>, title: Seq<char>, n: Seq<char>)
    requires
        forall|i: int| 0 <= i < st.len() ==> st[i] != ']',
        id.len() > 0,
        forall|i: int| 0 <= i < id.len() ==> !is_ws(#[trigger] id[i]),
        forall|i: int| 0 <= i < n.len() ==> n[i] != ' ',
    ensures
        step_row_of("["@ + st + "] "@ + id + " - "@ + title + " (v"@ + n + ")"@) matches Some(r) && r.title
            == trim(title) && r.id == id && r.status == trim(st),
{
    lemma_step_line_row(st, id, title, n);
}

/// The version of a step line `[<st>] <id> - <title> (v<n>)` is the number
/// `<n>` spells (0 when it is not a number that fits), read from the last
/// version marker, and the line carries no `[destructive]` or `[reboot]`
/// flag (for a status without `]`, an id without whitespace and `<n>`
/// without spaces, brackets or `)`).
#[verifier::spinoff_prover]
pub proof fn law_step_version_from_marker(st: Seq<char>, id: Seq<char>, title: Seq<char>, n: Seq<char>)
    requires
        forall|i: int| 0 <= i < st.len() ==> st[i] != ']',
        id.len() > 0,
        forall|i: int| 0 <= i < id.len() ==> !is_ws(#[trigger] id[i]),
        forall|i: int| 0 <= i < n.len() ==> n[i] != ' ' && n[i] != ')' && n[i] != '[',
    ensures
        step_row_of("["@ + st + "] "@ + id + " - "@ + title + " (v"@ + n + ")"@) matches Some(r)
            && r.step_version == (match parse_unsigned(n, 0xffff_ffff) {
            Some(v) => v as u32,
            None => 0u32,
        }) && !r.destructive && !r.needs_reboot_after,
{
    reveal_strlit("[");
    reveal_strlit("]");
    reveal_strlit("] ");
    reveal_strlit(" - ");
    reveal_strlit(" (v");
    reveal_strlit(")");
    reveal_strlit("[destructive]");
    reveal_strlit("[reboot]");
    lemma_step_line_row(st, id, title, n);
    let f = " (v"@ + (n + ")"@);
    let x = n + ")"@;
    assert(f.subrange(0, 3) =~= " (v"@);
    assert(f.subrange(3, f.len() as int) =~= x);
    assert(!has_prefix(x, " (v"@)) by {
        if has_prefix(x, " (v"@) {
            assert(x.subrange(0, 3)[0] == x[0]);
            if n.len() > 0 {
                assert(x[0] == n[0]);
            } else {
                assert(x[0] == ')');
            }
        }
    }
    assert(trim_start_str(x, " (v"@) == x);
    assert(trim_start_str(f, " (v"@) == x);
    lemma_char_end_concat(n, ")"@, ')');
    assert(char_end(")"@, ')') == 0);
    assert(before_char(x, ')') =~= n);
    assert forall|i: int| !occurs_at(f, "[destructive]"@, i) && !occurs_at(f, "[reboot]"@, i) by {
        if occurs_at(f, "[destructive]"@, i) {
            assert(f.subrange(i, i + 13)[0] == f[i]);
            assert(f[i] == '[');
            if i < 3 {
                assert(f[i] == " (v"@[i]);
            } else if i < 3 + n.len() {
                assert(f[i] == n[i - 3]);
            } else {
                assert(f[i] == ')');
            }
        }
        if occurs_at(f, "[reboot]"@, i) {
            assert(f.subrange(i, i + 8)[0] == f[i]);
            assert(f[i] == '[');
            if i < 3 {
                assert(f[i] == " (v"@[i]);
            } else if i < 3 + n.len() {
                assert(f[i] == n[i - 3]);
            } else {
                assert(f[i] == ')');
            }
        }
    }
    assert(!contains(f, "[destructive]"@));
    assert(!contains(f, "[reboot]"@));
}

/// Kind and rows read from the lines of a human `setup status` text: the last
/// `Setup kind:` line names the kind (`full` by default), step lines add rows.
pub open spec fn status_fold(ls: Seq<Seq<char>>) -> (Seq<char>, Seq<StepRowView>)
    decreases ls.len(),
{
    if ls.len() == 0 {
        ("full"@, seq![])
    } else {
        let prev = status_fold(ls.drop_last());
        let line = trim(ls.last());
        if has_prefix(line, "Setup kind:"@) {
            (trim(line.subrange(11, line.len() as int)), prev.1)
        } else {
            match step_row_of(line) {
                Some(r) => (prev.0, prev.1.push(r)),
                None => prev,
            }
        }
    }
}

/// `s.trim_start_matches(p)` (`p` non-empty).
pub fn trim_start_matches_chars(s: &[char], p: &[char]) -> (r: Vec<char>)
    requires
        p@.len() > 0,
    ensures
        r@ == trim_start_str(s@, p@),
{
    let mut i: usize = 0;
    assert(s@.subrange(0, s@.len() as int) =~= s@);
    loop
        invariant
            p@.len() > 0,
            i <= s@.len(),
            trim_start_str(s@, p@) == trim_start_str(s@.subrange(i as int, s@.len() as int), p@),
        decreases s@.len() - i,
    {
        let rest = slice_range(s, i, s.len());
        if !starts_with(rest.as_slice(), p) {
            return rest;
        }
        assert(rest@.subrange(p@.len() as int, rest@.len() as int) =~= s@.subrange(
            i + p@.len(),
            s@.len() as int,
        ));
        i = i + p.len();
    }
}

/// Step row of one trimmed status line, when it is one.
pub fn parse_step_row(line: &[char]) -> (r: Option<StepStatusRow>)
    ensures
        match r {
            Some(row) => step_row_of(line@) == Some(row@),
            None => step_row_of(line@) is None,
        },
{
    proof {
        reveal_strlit("[");
        reveal_strlit(" (v");
    }
    let lb = to_chars("[");
    if !starts_with(line, lb.as_slice()) {
        return None;
    }
    let rest = slice_range(line, 1, line.len());
    assert(rest@ =~= line@.drop_first());
    let rb = to_chars("]");
    let (status_part, after_status) = match split_once_chars(rest.as_slice(), rb.as_slice()) {
        Some(parts) => parts,
        None => {
            return None;
        },
    };
    let status = trim_chars(status_part.as_slice());
    let after = trim_chars(after_status.as_slice());
    let dash = to_chars(" - ");
    let (id, after_id) = match split_once_chars(after.as_slice(), dash.as_slice()) {
        Some(parts) => parts,
        None => {
            return None;
        },
    };
    let ver_mark = to_chars(" (v");
    let (title, flags) = match rfind_chars(after_id.as_slice(), ver_mark.as_slice()) {
        Some(i) => {
            proof {
                crate::text::lemma_find_last_in_bounds(
                    after_id@,
                    ver_mark@,
                    after_id@.len() - ver_mark@.len(),
                );
            }
            (slice_range(after_id.as_slice(), 0, i), slice_range(after_id.as_slice(), i, after_id.len()))
        },
        None => {
            let all = slice_range(after_id.as_slice(), 0, after_id.len());
            assert(all@ =~= after_id@);
            (all, Vec::new())
        },
    };
    let tail = trim_start_matches_chars(flags.as_slice(), ver_mark.as_slice());
    let e = find_char_end(tail.as_slice(), ')', 0);
    assert(tail@.subrange(0, tail@.len() as int) =~= tail@);
    let num = slice_range(tail.as_slice(), 0, e);
    let step_version: u32 = match parse_unsigned_chars(num.as_slice(), 0xffff_ffff) {
        Some(v) => v as u32,
        None => 0,
    };
    let destructive_mark = to_chars("[destructive]");
    let reboot_mark = to_chars("[reboot]");
    let destructive = contains_seq(flags.as_slice(), destructive_mark.as_slice());
    let needs_reboot_after = contains_seq(flags.as_slice(), reboot_mark.as_slice());
    let id_t = trim_chars(id.as_slice());
    let title_t = trim_chars(title.as_slice());
    Some(
        StepStatusRow {
            id: from_chars(id_t.as_slice()),
            title: from_chars(title_t.as_slice()),
            status: from_chars(status.as_slice()),
            step_version,
            destructive,
            needs_reboot_after,
        },
    )
}

/// Value of [`parse_setup_status_text`].
pub open spec fn setup_status_text_result(raw: Seq<char>) -> Result<
    (Seq<char>, Seq<StepRowView>),
    ErrorView,
> {
    let f = status_fold(lines(raw));
    if f.1.len() == 0 {
        Err(message_error("remote setup status produced no step lines"@))
    } else {
        Ok(f)
    }
}

/// Parse human `setup status` lines from older box agents (no `--json`).
pub fn parse_setup_status_text(raw: &str) -> (r: Result<SetupStatusReport, HortoError>)
    ensures
        match r {
            Ok(rep) => setup_status_text_result(raw@) == Ok::<
                (Seq<char>, Seq<StepRowView>),
                ErrorView,
            >((rep.kind@, row_views(rep.steps@))),
            Err(e) => setup_status_text_result(raw@) == Err::<
                (Seq<char>, Seq<StepRowView>),
                ErrorView,
            >(e@),
        },
{
    let chars = to_chars(raw);
    let ls = split_lines(chars.as_slice());
    let ghost lv = views(ls@);
    let mut kind = to_chars("full");
    let mut steps: Vec<StepStatusRow> = Vec::new();
    let kind_mark = to_chars("Setup kind:");
    proof {
        reveal_strlit("Setup kind:");
    }
    let mut i: usize = 0;
    assert(lv.subrange(0, 0) =~= Seq::<Seq<char>>::empty());
    while i < ls.len()
        invariant
            i <= ls@.len(),
            lv == views(ls@),
            lv == lines(raw@),
            kind_mark@ == "Setup kind:"@,
            kind_mark@.len() == 11,
            status_fold(lv.subrange(0, i as int)) == (kind@, row_views(steps@)),
        decreases ls@.len() - i,
    {
        let ghost sub = lv.subrange(0, i + 1);
        assert(sub.drop_last() =~= lv.subrange(0, i as int));
        assert(sub.last() == ls@[i as int]@);
        let line = trim_chars(ls[i].as_slice());
        if starts_with(line.as_slice(), kind_mark.as_slice()) {
            let rest = slice_range(line.as_slice(), 11, line.len());
            kind = trim_chars(rest.as_slice());
        } else {
            match parse_step_row(line.as_slice()) {
                Some(row) => {
                    let ghost r0 = row_views(steps@);
                    steps.push(row);
                    assert(row_views(steps@) =~= r0.push(steps@.last()@));
                },
                None => {},
            }
        }
        i = i + 1;
    }
    assert(lv.subrange(0, i as int) =~= lv);
    if steps.len() == 0 {
        return Err(HortoError::msg("remote setup status produced no step lines"));
    }
    Ok(SetupStatusReport { kind: from_chars(kind.as_slice()), steps })
}

/// Start of the JSON document in remote output: the first `{`, else the first `[`.
pub open spec fn json_start(raw: Seq<char>) -> Option<int> {
    match find_str(raw, "{"@) {
        Some(i) => Some(i),
        None => find_str(raw, "["@),
    }
}

/// Trimmed JSON text of remote output (leading noise dropped).
pub open spec fn remote_json_text(raw: Seq<char>) -> Result<Seq<char>, ErrorView> {
    match json_start(raw) {
        Some(i) => Ok(trim(raw.subrange(i, raw.len() as int))),
        None => Err(message_error("remote output had no JSON object or array"@)),
    }
}

/// The JSON part of captured remote output, for a [`ReportDecoder`].
pub fn remote_json_slice(raw: &str) -> (r: Result<String, HortoError>)
    ensures
        match r {
            Ok(s) => remote_json_text(raw@) == Ok::<Seq<char>, ErrorView>(s@),
            Err(e) => remote_json_text(raw@) == Err::<Seq<char>, ErrorView>(e@),
        },
{
    let chars = to_chars(raw);
    let brace = to_chars("{");
    let bracket = to_chars("[");
    let start = match crate::text::find_first_chars(chars.as_slice(), brace.as_slice()) {
        Some(i) => {
            proof {
                crate::text::lemma_find_first_in_bounds(chars@, brace@, 0);
            }
            i
        },
        None => match crate::text::find_first_chars(chars.as_slice(), bracket.as_slice()) {
            Some(i) => {
                proof {
                    crate::text::lemma_find_first_in_bounds(chars@, bracket@, 0);
                }
                i
            },
            None => {
                return Err(HortoError::msg("remote output had no JSON object or array"));
            },
        },
    };
    let rest = slice_range(chars.as_slice(), start, chars.len());
    let t = trim_chars(rest.as_slice());
    Ok(from_chars(t.as_slice()))
}

} // verus!
