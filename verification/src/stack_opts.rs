//! Optional Docker stack selection for Full setup (`d3`).
use vstd::prelude::*;
use crate::text::{
    is_ws, lemma_split_join, trim_end, trim_start, join, join_strings, lower, lower_chars, owned,
    seq_eq, split_at_char, split_char, sviews, to_chars, trim, trim_chars, views,
};

verus! {

/// Which optional Docker stacks to start in `d3` (Homepage stays in `d2`).
#[derive(Debug, Clone, Copy, PartialEq, Eq, Default)]
pub struct StackOpts {
    /// Dockge compose stack (`:5001`).
    pub dockge: bool,
    /// Open-WebUI (`:3000`).
    pub open_webui: bool,
    /// EVCC (`:7070`).
    pub evcc: bool,
    /// Whisper STT (`whisper-cv`, `:8000`).
    pub whisper: bool,
    /// `DeepSeek` / NPU LLM (`deepseek-npu`, `:8001`).
    pub deepseek: bool,
    /// Piper TTS (`:10200`).
    pub piper: bool,
    /// `OpenWakeWord` (`:10400`).
    pub openwakeword: bool,
}

/// One selected stack: compose directory name under the docker root + Services link label:port.
#[derive(Debug, Clone, Copy, PartialEq, Eq)]
pub struct StackLink {
    /// Directory under `/srv/docker` (or dockge sibling for Dockge).
    pub dir: &'static str,
    /// `Name:port` fragment for `service_links.env` `LINKS`.
    pub link: &'static str,
}

/// Normalized key of one CSV token: trimmed and ASCII lower-cased.
pub open spec fn csv_key(part: Seq<char>) -> Seq<char> {
    lower(trim(part))
}

/// Some comma-separated token of `raw` normalizes to one of `a` or `b`.
pub open spec fn names_either(raw: Seq<char>, a: Seq<char>, b: Seq<char>) -> bool {
    exists|i: int|
        0 <= i < split_at_char(raw, ',').len() && (#[trigger] csv_key(split_at_char(raw, ',')[i])
            == a || csv_key(split_at_char(raw, ',')[i]) == b)
}

/// Value of [`StackOpts::parse_csv`]: a flag is set iff some token names it
/// (aliases included); unknown tokens are ignored.
pub open spec fn parsed_opts(raw: Seq<char>) -> StackOpts {
    StackOpts {
        dockge: names_either(raw, "dockge"@, "dockge"@),
        open_webui: names_either(raw, "open-webui"@, "openwebui"@),
        evcc: names_either(raw, "evcc"@, "evcc"@),
        whisper: names_either(raw, "whisper"@, "whisper-cv"@),
        deepseek: names_either(raw, "deepseek"@, "deepseek-npu"@),
        piper: names_either(raw, "piper"@, "piper"@),
        openwakeword: names_either(raw, "openwakeword"@, "open-wake-word"@),
    }
}

pub open spec fn opt_part(on: bool, name: Seq<char>) -> Seq<Seq<char>> {
    if on {
        seq![name]
    } else {
        seq![]
    }
}

/// Selected stack ids in the stable order used by [`StackOpts::to_csv`].
pub open spec fn csv_ids(o: StackOpts) -> Seq<Seq<char>> {
    opt_part(o.dockge, "dockge"@) + opt_part(o.open_webui, "open-webui"@) + opt_part(
        o.evcc,
        "evcc"@,
    ) + opt_part(o.whisper, "whisper"@) + opt_part(o.deepseek, "deepseek"@) + opt_part(
        o.piper,
        "piper"@,
    ) + opt_part(o.openwakeword, "openwakeword"@)
}

pub open spec fn any_selected(o: StackOpts) -> bool {
    o.dockge || o.open_webui || o.evcc || o.whisper || o.deepseek || o.piper || o.openwakeword
}

pub open spec fn opt_link(on: bool, dir: Seq<char>, link: Seq<char>) -> Seq<(Seq<char>, Seq<char>)> {
    if on {
        seq![(dir, link)]
    } else {
        seq![]
    }
}

/// Selected stacks as `(dir, link)` in start order (Dockge first).
pub open spec fn selected_links(o: StackOpts) -> Seq<(Seq<char>, Seq<char>)> {
    opt_link(o.dockge, "dockge"@, "Dockge:5001"@) + opt_link(
        o.open_webui,
        "open-webui"@,
        "Open-WebUI:3000"@,
    ) + opt_link(o.evcc, "evcc"@, "EVCC:7070"@) + opt_link(
        o.whisper,
        "whisper-cv"@,
        "Whisper:8000"@,
    ) + opt_link(o.deepseek, "deepseek-npu"@, "DeepSeek:8001"@) + opt_link(
        o.piper,
        "piper"@,
        "Piper:10200"@,
    ) + opt_link(o.openwakeword, "openwakeword"@, "OpenWakeWord:10400"@)
}

pub open spec fn link_views(v: Seq<StackLink>) -> Seq<(Seq<char>, Seq<char>)> {
    Seq::new(v.len(), |i: int| (v[i].dir@, v[i].link@))
}

fn key_is(key: &Vec<char>, lit: &str) -> (r: bool)
    ensures
        r == (key@ == lit@),
{
    let l = to_chars(lit);
    seq_eq(key.as_slice(), l.as_slice())
}

fn push_if(parts: &mut Vec<String>, on: bool, name: &str)
    ensures
        sviews(final(parts)@) == sviews(old(parts)@) + opt_part(on, name@),
{
    let ghost before = sviews(parts@);
    if on {
        parts.push(owned(name));
        assert(sviews(parts@) =~= before + seq![name@]);
    } else {
        assert(sviews(parts@) =~= before + Seq::<Seq<char>>::empty());
    }
}

fn push_link_if(out: &mut Vec<StackLink>, on: bool, dir: &'static str, link: &'static str)
    ensures
        link_views(final(out)@) == link_views(old(out)@) + opt_link(on, dir@, link@),
{
    let ghost before = link_views(out@);
    if on {
        out.push(StackLink { dir, link });
        assert(link_views(out@) =~= before + seq![(dir@, link@)]);
    } else {
        assert(link_views(out@) =~= before + Seq::<(Seq<char>, Seq<char>)>::empty());
    }
}

impl StackOpts {
    /// No optional stacks selected.
    pub fn none() -> (o: Self)
        ensures
            !any_selected(o),
    {
        StackOpts {
            dockge: false,
            open_webui: false,
            evcc: false,
            whisper: false,
            deepseek: false,
            piper: false,
            openwakeword: false,
        }
    }

    /// Parse a comma-separated list (`dockge,open-webui,evcc,…`). Unknown tokens are ignored.
    pub fn parse_csv(raw: &str) -> (o: Self)
        ensures
            o == parsed_opts(raw@),
    {
        let chars = to_chars(raw);
        let parts = split_char(chars.as_slice(), ',');
        let ghost ps = split_at_char(raw@, ',');
        let mut opts = StackOpts::none();
        let mut k: usize = 0;
        while k < parts.len()
            invariant
                k <= parts@.len(),
                views(parts@) == ps,
                ps == split_at_char(raw@, ','),
                opts.dockge == (exists|i: int| 0 <= i < k && (#[trigger] csv_key(ps[i]) == "dockge"@ || csv_key(ps[i]) == "dockge"@)),
                opts.open_webui == (exists|i: int| 0 <= i < k && (#[trigger] csv_key(ps[i]) == "open-webui"@ || csv_key(ps[i]) == "openwebui"@)),
                opts.evcc == (exists|i: int| 0 <= i < k && (#[trigger] csv_key(ps[i]) == "evcc"@ || csv_key(ps[i]) == "evcc"@)),
                opts.whisper == (exists|i: int| 0 <= i < k && (#[trigger] csv_key(ps[i]) == "whisper"@ || csv_key(ps[i]) == "whisper-cv"@)),
                opts.deepseek == (exists|i: int| 0 <= i < k && (#[trigger] csv_key(ps[i]) == "deepseek"@ || csv_key(ps[i]) == "deepseek-npu"@)),
                opts.piper == (exists|i: int| 0 <= i < k && (#[trigger] csv_key(ps[i]) == "piper"@ || csv_key(ps[i]) == "piper"@)),
                opts.openwakeword == (exists|i: int| 0 <= i < k && (#[trigger] csv_key(ps[i]) == "openwakeword"@ || csv_key(ps[i]) == "open-wake-word"@)),
            decreases parts@.len() - k,
        {
            assert(ps[k as int] == parts@[k as int]@);
            let t = trim_chars(parts[k].as_slice());
            let key = lower_chars(t.as_slice());
            assert(key@ == csv_key(ps[k as int]));
            if key_is(&key, "dockge") {
                opts.dockge = true;
            }
            if key_is(&key, "open-webui") || key_is(&key, "openwebui") {
                opts.open_webui = true;
            }
            if key_is(&key, "evcc") {
                opts.evcc = true;
            }
            if key_is(&key, "whisper") || key_is(&key, "whisper-cv") {
                opts.whisper = true;
            }
            if key_is(&key, "deepseek") || key_is(&key, "deepseek-npu") {
                opts.deepseek = true;
            }
            if key_is(&key, "piper") {
                opts.piper = true;
            }
            if key_is(&key, "openwakeword") || key_is(&key, "open-wake-word") {
                opts.openwakeword = true;
            }
            k = k + 1;
        }
        opts
    }

    /// CSV of selected stack ids (stable order).
    pub fn to_csv(self) -> (r: String)
        ensures
            r@ == join(csv_ids(self), ","@),
    {
        let mut parts: Vec<String> = Vec::new();
        assert(sviews(parts@) =~= Seq::<Seq<char>>::empty());
        push_if(&mut parts, self.dockge, "dockge");
        push_if(&mut parts, self.open_webui, "open-webui");
        push_if(&mut parts, self.evcc, "evcc");
        push_if(&mut parts, self.whisper, "whisper");
        push_if(&mut parts, self.deepseek, "deepseek");
        push_if(&mut parts, self.piper, "piper");
        push_if(&mut parts, self.openwakeword, "openwakeword");
        assert(sviews(parts@) =~= csv_ids(self));
        join_strings(&parts, ",")
    }

    /// True when at least one optional stack is selected.
    pub fn any(self) -> (b: bool)
        ensures
            b == any_selected(self),
    {
        self.dockge || self.open_webui || self.evcc || self.whisper || self.deepseek
            || self.piper || self.openwakeword
    }

    /// Selected stacks in start order (Dockge first).
    pub fn selected(self) -> (out: Vec<StackLink>)
        ensures
            link_views(out@) == selected_links(self),
    {
        let mut out: Vec<StackLink> = Vec::new();
        assert(link_views(out@) =~= Seq::<(Seq<char>, Seq<char>)>::empty());
        push_link_if(&mut out, self.dockge, "dockge", "Dockge:5001");
        push_link_if(&mut out, self.open_webui, "open-webui", "Open-WebUI:3000");
        push_link_if(&mut out, self.evcc, "evcc", "EVCC:7070");
        push_link_if(&mut out, self.whisper, "whisper-cv", "Whisper:8000");
        push_link_if(&mut out, self.deepseek, "deepseek-npu", "DeepSeek:8001");
        push_link_if(&mut out, self.piper, "piper", "Piper:10200");
        push_link_if(&mut out, self.openwakeword, "openwakeword", "OpenWakeWord:10400");
        assert(link_views(out@) =~= selected_links(self));
        out
    }
}

/// A token of lower-case letters and `-` is its own CSV key.
proof fn lemma_plain_key(s: Seq<char>)
    requires
        s.len() > 0,
        forall|i: int| 0 <= i < s.len() ==> ('a' <= #[trigger] s[i] <= 'z' || s[i] == '-'),
    ensures
        csv_key(s) == s,
{
    assert('a' <= s[0] <= 'z' || s[0] == '-');
    assert(!is_ws(s[0]));
    assert(trim_start(s) == s);
    assert('a' <= s[s.len() - 1] <= 'z' || s[s.len() - 1] == '-');
    assert(!is_ws(s.last()));
    assert(trim_end(s) == s);
    assert(lower(s) =~= s);
}

/// `x` is the id of a stack selected in `o`.
spec fn selected_id(o: StackOpts, x: Seq<char>) -> bool {
    ||| (o.dockge && x == "dockge"@)
    ||| (o.open_webui && x == "open-webui"@)
    ||| (o.evcc && x == "evcc"@)
    ||| (o.whisper && x == "whisper"@)
    ||| (o.deepseek && x == "deepseek"@)
    ||| (o.piper && x == "piper"@)
    ||| (o.openwakeword && x == "openwakeword"@)
}

proof fn lemma_part_ids(s: Seq<Seq<char>>, f: bool, x: Seq<char>, o: StackOpts)
    requires
        forall|i: int| 0 <= i < s.len() ==> selected_id(o, #[trigger] s[i]),
        f ==> selected_id(o, x),
    ensures
        forall|i: int| 0 <= i < (s + opt_part(f, x)).len() ==> selected_id(o, #[trigger] (s + opt_part(f, x))[i]),
{
    assert forall|i: int| 0 <= i < (s + opt_part(f, x)).len() implies selected_id(o, #[trigger] (s + opt_part(f, x))[i]) by {
        if i < s.len() {
            assert((s + opt_part(f, x))[i] == s[i]);
        } else {
            assert((s + opt_part(f, x))[i] == x);
        }
    }
}

proof fn lemma_part_has(s: Seq<Seq<char>>, f: bool, x: Seq<char>, y: Seq<char>)
    ensures
        (exists|i: int| 0 <= i < s.len() && #[trigger] s[i] == y) ==> exists|i: int|
            0 <= i < (s + opt_part(f, x)).len() && #[trigger] (s + opt_part(f, x))[i] == y,
        f ==> exists|i: int| 0 <= i < (s + opt_part(f, x)).len() && #[trigger] (s + opt_part(f, x))[i] == x,
{
    let t = s + opt_part(f, x);
    if exists|i: int| 0 <= i < s.len() && #[trigger] s[i] == y {
        let i = choose|i: int| 0 <= i < s.len() && #[trigger] s[i] == y;
        assert(t[i] == y);
    }
    if f {
        assert(t[s.len() as int] == x);
    }
}

/// Every token of the CSV is the id of a selected stack, and every selected
/// stack's id is a token.
proof fn lemma_ids_of(o: StackOpts)
    ensures
        forall|i: int| 0 <= i < csv_ids(o).len() ==> selected_id(o, #[trigger] csv_ids(o)[i]),
        forall|x: Seq<char>| selected_id(o, x) ==> exists|i: int| 0 <= i < csv_ids(o).len() && #[trigger] csv_ids(o)[i] == x,
{
    let e = Seq::<Seq<char>>::empty();
    let s1 = e + opt_part(o.dockge, "dockge"@);
    let s2 = s1 + opt_part(o.open_webui, "open-webui"@);
    let s3 = s2 + opt_part(o.evcc, "evcc"@);
    let s4 = s3 + opt_part(o.whisper, "whisper"@);
    let s5 = s4 + opt_part(o.deepseek, "deepseek"@);
    let s6 = s5 + opt_part(o.piper, "piper"@);
    let s7 = s6 + opt_part(o.openwakeword, "openwakeword"@);
    assert(s1 =~= opt_part(o.dockge, "dockge"@));
    assert(s7 =~= csv_ids(o));
    lemma_part_ids(e, o.dockge, "dockge"@, o);
    lemma_part_ids(s1, o.open_webui, "open-webui"@, o);
    lemma_part_ids(s2, o.evcc, "evcc"@, o);
    lemma_part_ids(s3, o.whisper, "whisper"@, o);
    lemma_part_ids(s4, o.deepseek, "deepseek"@, o);
    lemma_part_ids(s5, o.piper, "piper"@, o);
    lemma_part_ids(s6, o.openwakeword, "openwakeword"@, o);
    assert forall|x: Seq<char>| selected_id(o, x) implies exists|i: int| 0 <= i < csv_ids(o).len() && #[trigger] csv_ids(o)[i] == x by {
        lemma_part_has(e, o.dockge, "dockge"@, x);
        lemma_part_has(s1, o.open_webui, "open-webui"@, x);
        lemma_part_has(s2, o.evcc, "evcc"@, x);
        lemma_part_has(s3, o.whisper, "whisper"@, x);
        lemma_part_has(s4, o.deepseek, "deepseek"@, x);
        lemma_part_has(s5, o.piper, "piper"@, x);
        lemma_part_has(s6, o.openwakeword, "openwakeword"@, x);
    }
}

/// The ids are their own keys, hold no comma, and differ from the names and
/// aliases of the other stacks.
proof fn lemma_id_literals()
    ensures
        csv_key("dockge"@) == "dockge"@,
        csv_key("open-webui"@) == "open-webui"@,
        csv_key("evcc"@) == "evcc"@,
        csv_key("whisper"@) == "whisper"@,
        csv_key("deepseek"@) == "deepseek"@,
        csv_key("piper"@) == "piper"@,
        csv_key("openwakeword"@) == "openwakeword"@,
        forall|x: Seq<char>, j: int|
            (x == "dockge"@ || x == "open-webui"@ || x == "evcc"@ || x == "whisper"@ || x
                == "deepseek"@ || x == "piper"@ || x == "openwakeword"@) && 0 <= j < x.len() ==> #[trigger] x[j]
                != ',',
        "dockge"@.len() == 6,
        "open-webui"@.len() == 10,
        "openwebui"@.len() == 9,
        "evcc"@.len() == 4,
        "whisper"@.len() == 7,
        "whisper-cv"@.len() == 10,
        "deepseek"@.len() == 8,
        "deepseek-npu"@.len() == 12,
        "piper"@.len() == 5,
        "openwakeword"@.len() == 12,
        "open-wake-word"@.len() == 14,
        "open-webui"@[0] != "whisper-cv"@[0],
        "deepseek-npu"@[0] != "openwakeword"@[0],
{
    reveal_strlit("dockge");
    reveal_strlit("open-webui");
    reveal_strlit("openwebui");
    reveal_strlit("evcc");
    reveal_strlit("whisper");
    reveal_strlit("whisper-cv");
    reveal_strlit("deepseek");
    reveal_strlit("deepseek-npu");
    reveal_strlit("piper");
    reveal_strlit("openwakeword");
    reveal_strlit("open-wake-word");
    lemma_plain_key("dockge"@);
    lemma_plain_key("open-webui"@);
    lemma_plain_key("evcc"@);
    lemma_plain_key("whisper"@);
    lemma_plain_key("deepseek"@);
    lemma_plain_key("piper"@);
    lemma_plain_key("openwakeword"@);
}

/// No id of a selection holds a comma, and each is its own key.
proof fn lemma_ids_plain(o: StackOpts)
    ensures
        forall|i: int, j: int|
            0 <= i < csv_ids(o).len() && 0 <= j < csv_ids(o)[i].len() ==> #[trigger] csv_ids(o)[i][j]
                != ',',
        forall|i: int| 0 <= i < csv_ids(o).len() ==> csv_key(#[trigger] csv_ids(o)[i]) == csv_ids(o)[i],
{
    lemma_id_literals();
    lemma_ids_of(o);
    let ids = csv_ids(o);
    assert forall|i: int, j: int| 0 <= i < ids.len() && 0 <= j < ids[i].len() implies #[trigger] ids[i][j] != ',' by {
        assert(selected_id(o, ids[i]));
    }
    assert forall|i: int| 0 <= i < ids.len() implies csv_key(#[trigger] ids[i]) == ids[i] by {
        assert(selected_id(o, ids[i]));
    }
}

/// Splitting the CSV of a selection gives its ids, or one empty token when
/// nothing is selected.
proof fn lemma_split_ids(o: StackOpts)
    ensures
        csv_ids(o).len() > 0 ==> split_at_char(join(csv_ids(o), ","@), ',') == csv_ids(o),
        csv_ids(o).len() == 0 ==> split_at_char(join(csv_ids(o), ","@), ',') == seq![Seq::<char>::empty()],
{
    lemma_ids_plain(o);
    reveal_strlit(",");
    let ids = csv_ids(o);
    assert(","@ =~= seq![',']);
    if ids.len() == 0 {
        assert(join(ids, ","@) =~= Seq::<char>::empty());
    } else {
        lemma_split_join(ids, ',');
    }
}

/// Tokens of the CSV a selection writes: each normalizes to a selected id
/// (or is the lone empty token of an empty selection), and each selected id
/// is among them.
proof fn lemma_tokens(o: StackOpts)
    ensures
        ({
            let ps = split_at_char(join(csv_ids(o), ","@), ',');
            &&& forall|i: int|
                0 <= i < ps.len() ==> (csv_key(#[trigger] ps[i]).len() == 0 || selected_id(
                    o,
                    csv_key(ps[i]),
                ))
            &&& forall|x: Seq<char>|
                selected_id(o, x) ==> exists|i: int| 0 <= i < ps.len() && csv_key(#[trigger] ps[i]) == x
        }),
{
    lemma_split_ids(o);
    lemma_ids_plain(o);
    lemma_ids_of(o);
    let ids = csv_ids(o);
    let ps = split_at_char(join(ids, ","@), ',');
    if ids.len() == 0 {
        let e = Seq::<char>::empty();
        assert(trim_start(e) =~= e);
        assert(trim_end(e) =~= e);
        assert(csv_key(ps[0]) =~= e);
        assert forall|x: Seq<char>| selected_id(o, x) implies exists|i: int| 0 <= i < ps.len() && csv_key(#[trigger] ps[i]) == x by {
            let i = choose|i: int| 0 <= i < ids.len() && #[trigger] ids[i] == x;
        }
    } else {
        assert forall|x: Seq<char>| selected_id(o, x) implies exists|i: int| 0 <= i < ps.len() && csv_key(#[trigger] ps[i]) == x by {
            let i = choose|i: int| 0 <= i < ids.len() && #[trigger] ids[i] == x;
            assert(csv_key(ps[i]) == x);
        }
        assert forall|i: int| 0 <= i < ps.len() implies (csv_key(#[trigger] ps[i]).len() == 0 || selected_id(o, csv_key(ps[i]))) by {
            assert(csv_key(ids[i]) == ids[i]);
        }
    }
}

/// A flag parsed from the CSV a selection writes is on iff its name or alias
/// is a selected id.
proof fn lemma_names(o: StackOpts, a: Seq<char>, b: Seq<char>)
    requires
        a.len() > 0,
        b.len() > 0,
    ensures
        names_either(join(csv_ids(o), ","@), a, b) == (selected_id(o, a) || selected_id(o, b)),
{
    lemma_tokens(o);
    let raw = join(csv_ids(o), ","@);
    let ps = split_at_char(raw, ',');
    if selected_id(o, a) {
        let i = choose|i: int| 0 <= i < ps.len() && csv_key(#[trigger] ps[i]) == a;
        assert(names_either(raw, a, b));
    } else if selected_id(o, b) {
        let i = choose|i: int| 0 <= i < ps.len() && csv_key(#[trigger] ps[i]) == b;
        assert(names_either(raw, a, b));
    } else {
        assert forall|i: int| 0 <= i < ps.len() implies !(#[trigger] csv_key(ps[i]) == a || csv_key(ps[i]) == b) by {}
    }
}

/// Which names and aliases are selected ids.
proof fn lemma_selected_literals(o: StackOpts)
    ensures
        selected_id(o, "dockge"@) == o.dockge,
        selected_id(o, "open-webui"@) == o.open_webui,
        !selected_id(o, "openwebui"@),
        selected_id(o, "evcc"@) == o.evcc,
        selected_id(o, "whisper"@) == o.whisper,
        !selected_id(o, "whisper-cv"@),
        selected_id(o, "deepseek"@) == o.deepseek,
        !selected_id(o, "deepseek-npu"@),
        selected_id(o, "piper"@) == o.piper,
        selected_id(o, "openwakeword"@) == o.openwakeword,
        !selected_id(o, "open-wake-word"@),
{
    lemma_id_literals();
}

/// Parsing the CSV a selection writes ([`StackOpts::to_csv`]) gives the
/// selection back ([`StackOpts::parse_csv`]).
pub proof fn law_csv_roundtrip(o: StackOpts)
    ensures
        parsed_opts(join(csv_ids(o), ","@)) == o,
{
    lemma_id_literals();
    lemma_selected_literals(o);
    lemma_names(o, "dockge"@, "dockge"@);
    lemma_names(o, "open-webui"@, "openwebui"@);
    lemma_names(o, "evcc"@, "evcc"@);
    lemma_names(o, "whisper"@, "whisper-cv"@);
    lemma_names(o, "deepseek"@, "deepseek-npu"@);
    lemma_names(o, "piper"@, "piper"@);
    lemma_names(o, "openwakeword"@, "open-wake-word"@);
}

} // verus!
