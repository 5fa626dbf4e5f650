//! `KEY=value` env files (`os-configuration.env`, `iot-lan_conf.env`): an
//! ordered key/value map where the latest value of a key wins.
use vstd::prelude::*;
use crate::error::{message_error, ErrorView, HortoError};
use crate::text::{
    from_chars, join, join_strings, lines, lower, lower_chars, owned, seq_eq, slice_range,
    split_lines, split_once, split_once_chars, str_eq, strip_prefix_or_self,
    strip_prefix_or_self_chars, sviews, to_chars, trim, trim_chars, views,
};

verus! {

/// Value of `k` in an entry list: the last entry with that key.
pub open spec fn env_get(s: Seq<(Seq<char>, Seq<char>)>, k: Seq<char>) -> Option<Seq<char>>
    decreases s.len(),
{
    if s.len() == 0 {
        None
    } else if s.last().0 == k {
        Some(s.last().1)
    } else {
        env_get(s.drop_last(), k)
    }
}

/// Entries whose key is not `k`, order kept.
pub open spec fn without_key(s: Seq<(Seq<char>, Seq<char>)>, k: Seq<char>) -> Seq<
    (Seq<char>, Seq<char>),
>
    decreases s.len(),
{
    if s.len() == 0 {
        seq![]
    } else if s.last().0 == k {
        without_key(s.drop_last(), k)
    } else {
        without_key(s.drop_last(), k).push(s.last())
    }
}

/// Entry list after setting `k` to `v`: the old entries of `k` go, the new one is last.
pub open spec fn env_set(s: Seq<(Seq<char>, Seq<char>)>, k: Seq<char>, v: Seq<char>) -> Seq<
    (Seq<char>, Seq<char>),
> {
    without_key(s, k).push((k, v))
}

pub proof fn lemma_without_key_get(s: Seq<(Seq<char>, Seq<char>)>, k: Seq<char>, k2: Seq<char>)
    ensures
        env_get(without_key(s, k), k2) == (if k2 == k {
            None
        } else {
            env_get(s, k2)
        }),
    decreases s.len(),
{
    if s.len() > 0 {
        lemma_without_key_get(s.drop_last(), k, k2);
        let w = without_key(s.drop_last(), k);
        assert(w.push(s.last()).drop_last() =~= w);
    }
}

/// Setting a key gives it the new value and leaves every other key as it was.
pub proof fn lemma_env_set_get(
    s: Seq<(Seq<char>, Seq<char>)>,
    k: Seq<char>,
    v: Seq<char>,
    k2: Seq<char>,
)
    ensures
        env_get(env_set(s, k, v), k2) == (if k2 == k {
            Some(v)
        } else {
            env_get(s, k2)
        }),
{
    lemma_without_key_get(s, k, k2);
    let w = without_key(s, k);
    assert(w.push((k, v)).drop_last() =~= w);
}

/// Ordered env map (latest value of a key wins; setting a key moves it last).
#[derive(Debug, Clone)]
pub struct EnvMap {
    entries: Vec<(String, String)>,
}

pub open spec fn entry_views(v: Seq<(String, String)>) -> Seq<(Seq<char>, Seq<char>)> {
    Seq::new(v.len(), |i: int| (v[i].0@, v[i].1@))
}

impl View for EnvMap {
    type V = Seq<(Seq<char>, Seq<char>)>;

    closed spec fn view(&self) -> Seq<(Seq<char>, Seq<char>)> {
        entry_views(self.entries@)
    }
}

impl EnvMap {
    /// Empty map.
    pub fn new() -> (m: Self)
        ensures
            m@ == Seq::<(Seq<char>, Seq<char>)>::empty(),
    {
        let m = EnvMap { entries: Vec::new() };
        assert(m@ =~= Seq::<(Seq<char>, Seq<char>)>::empty());
        m
    }

    /// Value of `key`, when set.
    pub fn get(&self, key: &str) -> (r: Option<&str>)
        ensures
            match r {
                Some(v) => env_get(self@, key@) == Some(v@),
                None => env_get(self@, key@) is None,
            },
    {
        let ghost s = self@;
        let mut i: usize = self.entries.len();
        assert(s.subrange(0, i as int) =~= s);
        while i > 0
            invariant
                i <= self.entries@.len(),
                s == self@,
                s == entry_views(self.entries@),
                env_get(s, key@) == env_get(s.subrange(0, i as int), key@),
            decreases i,
        {
            let ghost sub = s.subrange(0, i as int);
            assert(sub.drop_last() =~= s.subrange(0, i - 1));
            assert(sub.last() == (self.entries@[i - 1].0@, self.entries@[i - 1].1@));
            if str_eq(self.entries[i - 1].0.as_str(), key) {
                return Some(self.entries[i - 1].1.as_str());
            }
            i = i - 1;
        }
        None
    }

    /// Whether `key` is set.
    pub fn contains_key(&self, key: &str) -> (b: bool)
        ensures
            b == env_get(self@, key@) is Some,
    {
        self.get(key).is_some()
    }

    /// Set `key` to `value` (replacing an earlier value).
    pub fn set(&mut self, key: &str, value: &str)
        ensures
            final(self)@ == env_set(old(self)@, key@, value@),
    {
        let ghost s = self@;
        let mut kept: Vec<(String, String)> = Vec::new();
        let mut i: usize = 0;
        assert(s.subrange(0, 0) =~= Seq::<(Seq<char>, Seq<char>)>::empty());
        while i < self.entries.len()
            invariant
                i <= self.entries@.len(),
                s == entry_views(self.entries@),
                entry_views(kept@) == without_key(s.subrange(0, i as int), key@),
            decreases self.entries@.len() - i,
        {
            let ghost sub = s.subrange(0, i + 1);
            assert(sub.drop_last() =~= s.subrange(0, i as int));
            assert(sub.last() == (self.entries@[i as int].0@, self.entries@[i as int].1@));
            if !str_eq(self.entries[i].0.as_str(), key) {
                let ghost k0 = entry_views(kept@);
                kept.push((owned(self.entries[i].0.as_str()), owned(self.entries[i].1.as_str())));
                assert(entry_views(kept@) =~= k0.push(sub.last()));
            }
            i = i + 1;
        }
        assert(s.subrange(0, i as int) =~= s);
        let ghost k1 = entry_views(kept@);
        kept.push((owned(key), owned(value)));
        assert(entry_views(kept@) =~= k1.push((key@, value@)));
        self.entries = kept;
    }

    /// Keys in entry order.
    pub fn keys(&self) -> (r: Vec<String>)
        ensures
            sviews(r@) == Seq::new(self@.len(), |i: int| self@[i].0),
    {
        let mut r: Vec<String> = Vec::new();
        let mut i: usize = 0;
        while i < self.entries.len()
            invariant
                i <= self.entries@.len(),
                sviews(r@) == Seq::new(i as nat, |j: int| self@[j].0),
            decreases self.entries@.len() - i,
        {
            let ghost r0 = sviews(r@);
            r.push(owned(self.entries[i].0.as_str()));
            assert(self@[i as int].0 == self.entries@[i as int].0@);
            assert(sviews(r@) =~= r0.push(self@[i as int].0));
            assert(sviews(r@) =~= Seq::new((i + 1) as nat, |j: int| self@[j].0));
            i = i + 1;
        }
        r
    }
}

/// Set `key` in `map` (free-function form used by steps).
pub fn set_key(map: &mut EnvMap, key: &str, value: &str)
    ensures
        final(map)@ == env_set(old(map)@, key@, value@),
{
    map.set(key, value);
}

/// Value with one pair of matching surrounding quotes removed.
pub open spec fn unquote(v: Seq<char>) -> Seq<char> {
    if v.len() >= 2 && (v[0] == '"' || v[0] == '\'') && v.last() == v[0] {
        v.subrange(1, v.len() - 1)
    } else {
        v
    }
}

/// `(key, value)` of one env line: blank and `#` lines and lines without `=`
/// or with an empty key carry none; a leading `export ` is ignored.
pub open spec fn env_line(raw: Seq<char>) -> Option<(Seq<char>, Seq<char>)> {
    let line = trim(raw);
    if line.len() == 0 || line[0] == '#' {
        None
    } else {
        match split_once(strip_prefix_or_self(line, "export "@), "="@) {
            None => None,
            Some(kv) => if trim(kv.0).len() == 0 {
                None
            } else {
                Some((trim(kv.0), unquote(trim(kv.1))))
            },
        }
    }
}

/// Entries of an env text, in line order.
pub open spec fn env_fold(ls: Seq<Seq<char>>) -> Seq<(Seq<char>, Seq<char>)>
    decreases ls.len(),
{
    if ls.len() == 0 {
        seq![]
    } else {
        let prev = env_fold(ls.drop_last());
        match env_line(ls.last()) {
            Some(kv) => env_set(prev, kv.0, kv.1),
            None => prev,
        }
    }
}

pub fn unquote_chars(v: &[char]) -> (r: Vec<char>)
    ensures
        r@ == unquote(v@),
{
    let n = v.len();
    if n >= 2 && (v[0] == '"' || v[0] == '\'') && v[n - 1] == v[0] {
        slice_range(v, 1, n - 1)
    } else {
        let r = slice_range(v, 0, n);
        assert(v@.subrange(0, n as int) =~= v@);
        r
    }
}

/// Parse one env line.
pub fn parse_env_line(raw: &[char]) -> (r: Option<(String, String)>)
    ensures
        match r {
            Some(kv) => env_line(raw@) == Some((kv.0@, kv.1@)),
            None => env_line(raw@) is None,
        },
{
    let line = trim_chars(raw);
    if line.len() == 0 || line[0] == '#' {
        return None;
    }
    let export = to_chars("export ");
    let body = strip_prefix_or_self_chars(line.as_slice(), export.as_slice());
    let eq = to_chars("=");
    match split_once_chars(body.as_slice(), eq.as_slice()) {
        None => None,
        Some((k, v)) => {
            let key = trim_chars(k.as_slice());
            if key.len() == 0 {
                return None;
            }
            let vt = trim_chars(v.as_slice());
            let value = unquote_chars(vt.as_slice());
            Some((from_chars(key.as_slice()), from_chars(value.as_slice())))
        },
    }
}

/// Parse `KEY=value` lines (comments, blanks and malformed lines skipped;
/// a later value of a key replaces an earlier one).
pub fn parse(text: &str) -> (m: EnvMap)
    ensures
        m@ == env_fold(lines(text@)),
{
    let chars = to_chars(text);
    let ls = split_lines(chars.as_slice());
    let ghost lv = views(ls@);
    let mut map = EnvMap::new();
    let mut i: usize = 0;
    assert(lv.subrange(0, 0) =~= Seq::<Seq<char>>::empty());
    while i < ls.len()
        invariant
            i <= ls@.len(),
            lv == views(ls@),
            lv == lines(text@),
            map@ == env_fold(lv.subrange(0, i as int)),
        decreases ls@.len() - i,
    {
        let ghost sub = lv.subrange(0, i + 1);
        assert(sub.drop_last() =~= lv.subrange(0, i as int));
        assert(sub.last() == ls@[i as int]@);
        match parse_env_line(ls[i].as_slice()) {
            Some((k, v)) => map.set(k.as_str(), v.as_str()),
            None => {},
        }
        i = i + 1;
    }
    assert(lv.subrange(0, i as int) =~= lv);
    map
}

/// A key counts as present when its value is not blank.
pub open spec fn key_present(s: Seq<(Seq<char>, Seq<char>)>, k: Seq<char>) -> bool {
    env_get(s, k) matches Some(v) && trim(v).len() > 0
}

/// Keys of `keys` that are absent or blank, in order.
pub open spec fn missing_keys(s: Seq<(Seq<char>, Seq<char>)>, keys: Seq<Seq<char>>) -> Seq<Seq<char>>
    decreases keys.len(),
{
    if keys.len() == 0 {
        seq![]
    } else if key_present(s, keys.last()) {
        missing_keys(s, keys.drop_last())
    } else {
        missing_keys(s, keys.drop_last()).push(keys.last())
    }
}

pub open spec fn ref_views(v: Seq<&str>) -> Seq<Seq<char>> {
    Seq::new(v.len(), |i: int| v[i]@)
}

/// Error naming the missing keys.
pub open spec fn missing_keys_error(missing: Seq<Seq<char>>) -> ErrorView {
    message_error("missing required keys: "@ + join(missing, ", "@))
}

/// `Ok` when every key is set to a non-blank value, else an error naming the
/// missing ones.
pub fn require_keys(map: &EnvMap, keys: &[&str]) -> (r: Result<(), HortoError>)
    ensures
        match r {
            Ok(()) => missing_keys(map@, ref_views(keys@)).len() == 0,
            Err(e) => missing_keys(map@, ref_views(keys@)).len() > 0 && e@ == missing_keys_error(
                missing_keys(map@, ref_views(keys@)),
            ),
        },
{
    let ghost kv = ref_views(keys@);
    let mut missing: Vec<String> = Vec::new();
    let mut i: usize = 0;
    assert(kv.subrange(0, 0) =~= Seq::<Seq<char>>::empty());
    while i < keys.len()
        invariant
            i <= keys@.len(),
            kv == ref_views(keys@),
            sviews(missing@) == missing_keys(map@, kv.subrange(0, i as int)),
        decreases keys@.len() - i,
    {
        let ghost sub = kv.subrange(0, i + 1);
        assert(sub.drop_last() =~= kv.subrange(0, i as int));
        assert(sub.last() == keys@[i as int]@);
        let present = match map.get(keys[i]) {
            Some(v) => {
                let c = to_chars(v);
                let t = trim_chars(c.as_slice());
                t.len() > 0
            },
            None => false,
        };
        if !present {
            let ghost m0 = sviews(missing@);
            missing.push(owned(keys[i]));
            assert(sviews(missing@) =~= m0.push(keys@[i as int]@));
        }
        i = i + 1;
    }
    assert(kv.subrange(0, i as int) =~= kv);
    if missing.len() == 0 {
        return Ok(());
    }
    let list = join_strings(&missing, ", ");
    let mut m = owned("missing required keys: ");
    m.append(list.as_str());
    Err(HortoError::msg(m.as_str()))
}

/// Trimmed, lower-cased value of `k` (empty when unset).
pub open spec fn folded_value(s: Seq<(Seq<char>, Seq<char>)>, k: Seq<char>) -> Seq<char> {
    match env_get(s, k) {
        Some(v) => lower(trim(v)),
        None => seq![],
    }
}

pub fn folded_value_of(map: &EnvMap, key: &str) -> (r: Vec<char>)
    ensures
        r@ == folded_value(map@, key@),
{
    match map.get(key) {
        Some(v) => {
            let c = to_chars(v);
            let t = trim_chars(c.as_slice());
            lower_chars(t.as_slice())
        },
        None => Vec::new(),
    }
}

/// Wi-Fi AP wanted: `WIFI_INTERFACE` set to something other than `none`.
pub open spec fn wifi_ap_on(s: Seq<(Seq<char>, Seq<char>)>) -> bool {
    let w = folded_value(s, "WIFI_INTERFACE"@);
    w.len() > 0 && w != "none"@
}

pub fn wifi_ap_enabled(map: &EnvMap) -> (b: bool)
    ensures
        b == wifi_ap_on(map@),
{
    let w = folded_value_of(map, "WIFI_INTERFACE");
    let none = to_chars("none");
    w.len() > 0 && !seq_eq(w.as_slice(), none.as_slice())
}

} // verus!
