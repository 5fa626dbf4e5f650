//! Character-level text toolkit: every operation states its result over
//! `Seq<char>` views (trim, lines, tokens, search, replace, case, numbers).
use vstd::prelude::*;

verus! {

// ---------------------------------------------------------------------------
// Character classes
// ---------------------------------------------------------------------------

/// Unicode `White_Space` (the class `char::is_whitespace` and `str::trim` use).
pub open spec fn is_ws(c: char) -> bool {
    let u = c as u32;
    ||| 0x09 <= u <= 0x0D
    ||| u == 0x20
    ||| u == 0x85
    ||| u == 0xA0
    ||| u == 0x1680
    ||| 0x2000 <= u <= 0x200A
    ||| u == 0x2028
    ||| u == 0x2029
    ||| u == 0x202F
    ||| u == 0x205F
    ||| u == 0x3000
}

pub open spec fn is_digit(c: char) -> bool {
    '0' <= c <= '9'
}

pub open spec fn is_hex_digit(c: char) -> bool {
    ||| '0' <= c <= '9'
    ||| 'a' <= c <= 'f'
    ||| 'A' <= c <= 'F'
}

pub open spec fn is_alnum(c: char) -> bool {
    ||| '0' <= c <= '9'
    ||| 'a' <= c <= 'z'
    ||| 'A' <= c <= 'Z'
}

pub open spec fn lower_char(c: char) -> char {
    if 'A' <= c <= 'Z' {
        ((c as u32) + 32) as char
    } else {
        c
    }
}

pub open spec fn lower(s: Seq<char>) -> Seq<char> {
    Seq::new(s.len(), |i: int| lower_char(s[i]))
}

pub open spec fn all_hex(s: Seq<char>) -> bool {
    forall|i: int| 0 <= i < s.len() ==> is_hex_digit(#[trigger] s[i])
}

pub fn char_is_ws(c: char) -> (b: bool)
    ensures
        b == is_ws(c),
{
    let u = c as u32;
    (0x09 <= u && u <= 0x0D) || u == 0x20 || u == 0x85 || u == 0xA0 || u == 0x1680 || (0x2000
        <= u && u <= 0x200A) || u == 0x2028 || u == 0x2029 || u == 0x202F || u == 0x205F || u
        == 0x3000
}

pub fn char_is_hex(c: char) -> (b: bool)
    ensures
        b == is_hex_digit(c),
{
    ('0' <= c && c <= '9') || ('a' <= c && c <= 'f') || ('A' <= c && c <= 'F')
}

pub fn char_is_alnum(c: char) -> (b: bool)
    ensures
        b == is_alnum(c),
{
    ('0' <= c && c <= '9') || ('a' <= c && c <= 'z') || ('A' <= c && c <= 'Z')
}

pub fn char_lower(c: char) -> (r: char)
    ensures
        r == lower_char(c),
{
    if 'A' <= c && c <= 'Z' {
        let b = c as u8;
        assert(65 <= b <= 90);
        let r = (b + 32) as char;
        assert(r as u32 == (c as u32) + 32);
        r
    } else {
        c
    }
}

// ---------------------------------------------------------------------------
// Conversions between `str`, `String` and `Vec<char>`
// ---------------------------------------------------------------------------

/// Copy the characters of `s` into a vector.
pub fn to_chars(s: &str) -> (v: Vec<char>)
    ensures
        v@ == s@,
{
    let n = s.unicode_len();
    let mut v: Vec<char> = Vec::new();
    let mut i: usize = 0;
    while i < n
        invariant
            n == s@.len(),
            i <= n,
            v@ == s@.subrange(0, i as int),
        decreases n - i,
    {
        let c = s.get_char(i);
        v.push(c);
        i = i + 1;
        assert(v@ =~= s@.subrange(0, i as int));
    }
    assert(v@ =~= s@);
    v
}

/// `String::push`: append one character.
#[verifier::external_body]
pub(crate) fn push_char(s: &mut String, c: char)
    ensures
        final(s)@ == old(s)@.push(c),
{
    s.push(c);
}

/// Append the characters of `v` to `s`.
pub fn push_chars(s: &mut String, v: &[char])
    ensures
        final(s)@ == old(s)@ + v@,
{
    let mut i: usize = 0;
    while i < v.len()
        invariant
            i <= v@.len(),
            s@ == old(s)@ + v@.subrange(0, i as int),
        decreases v@.len() - i,
    {
        push_char(s, v[i]);
        i = i + 1;
        assert(s@ =~= old(s)@ + v@.subrange(0, i as int));
    }
    assert(v@.subrange(0, v@.len() as int) =~= v@);
}

/// Build a string from a slice of characters.
pub fn from_chars(v: &[char]) -> (s: String)
    ensures
        s@ == v@,
{
    let mut s = String::new();
    push_chars(&mut s, v);
    assert(s@ =~= v@);
    s
}

/// Owned copy of a string slice.
pub fn owned(s: &str) -> (r: String)
    ensures
        r@ == s@,
{
    String::from_str(s)
}

/// Concatenation of two slices into a new string.
pub fn concat2(a: &str, b: &str) -> (r: String)
    ensures
        r@ == a@ + b@,
{
    let mut r = String::from_str(a);
    r.append(b);
    r
}

/// Concatenation of three slices into a new string.
pub fn concat3(a: &str, b: &str, c: &str) -> (r: String)
    ensures
        r@ == a@ + b@ + c@,
{
    let mut r = String::from_str(a);
    r.append(b);
    r.append(c);
    r
}

// ---------------------------------------------------------------------------
// Equality, prefixes, suffixes, search
// ---------------------------------------------------------------------------

pub fn seq_eq(a: &[char], b: &[char]) -> (r: bool)
    ensures
        r == (a@ == b@),
{
    if a.len() != b.len() {
        return false;
    }
    let mut i: usize = 0;
    while i < a.len()
        invariant
            a@.len() == b@.len(),
            i <= a@.len(),
            forall|j: int| 0 <= j < i ==> a@[j] == b@[j],
        decreases a@.len() - i,
    {
        if a[i] != b[i] {
            return false;
        }
        i = i + 1;
    }
    assert(a@ =~= b@);
    true
}

/// String equality by character view.
pub fn str_eq(a: &str, b: &str) -> (r: bool)
    ensures
        r == (a@ == b@),
{
    let va = to_chars(a);
    let vb = to_chars(b);
    seq_eq(va.as_slice(), vb.as_slice())
}

pub open spec fn has_prefix(s: Seq<char>, p: Seq<char>) -> bool {
    p.len() <= s.len() && s.subrange(0, p.len() as int) == p
}

pub open spec fn has_suffix(s: Seq<char>, p: Seq<char>) -> bool {
    p.len() <= s.len() && s.subrange(s.len() - p.len(), s.len() as int) == p
}

pub open spec fn occurs_at(s: Seq<char>, p: Seq<char>, i: int) -> bool {
    0 <= i && i + p.len() <= s.len() && s.subrange(i, i + p.len()) == p
}

pub open spec fn contains(s: Seq<char>, p: Seq<char>) -> bool {
    exists|i: int| occurs_at(s, p, i)
}

/// Does `p` occur in `s` starting at index `at`?
pub fn match_at(s: &[char], p: &[char], at: usize) -> (r: bool)
    ensures
        r == occurs_at(s@, p@, at as int),
{
    if at > s.len() || p.len() > s.len() - at {
        return false;
    }
    let sl = s.len();
    let mut i: usize = 0;
    while i < p.len()
        invariant
            sl == s@.len(),
            at + p@.len() <= s@.len(),
            i <= p@.len(),
            at + i <= s@.len(),
            forall|j: int| 0 <= j < i ==> s@[at + j] == p@[j],
        decreases p@.len() - i,
    {
        if s[at + i] != p[i] {
            assert(s@.subrange(at as int, at + p@.len())[i as int] != p@[i as int]);
            return false;
        }
        i = i + 1;
    }
    assert(s@.subrange(at as int, at + p@.len()) =~= p@);
    true
}

pub fn starts_with(s: &[char], p: &[char]) -> (r: bool)
    ensures
        r == has_prefix(s@, p@),
{
    match_at(s, p, 0)
}

pub fn ends_with(s: &[char], p: &[char]) -> (r: bool)
    ensures
        r == has_suffix(s@, p@),
{
    if p.len() > s.len() {
        return false;
    }
    match_at(s, p, s.len() - p.len())
}

/// First index at or after `from` where `p` occurs, or `None`.
pub fn find_from(s: &[char], p: &[char], from: usize) -> (r: Option<usize>)
    ensures
        match r {
            Some(i) => from <= i && occurs_at(s@, p@, i as int) && forall|j: int|
                from <= j < i ==> !occurs_at(s@, p@, j),
            None => forall|j: int| from <= j ==> !occurs_at(s@, p@, j),
        },
{
    if from > s.len() {
        assert forall|j: int| from <= j implies !occurs_at(s@, p@, j) by {}
        return None;
    }
    let mut i = from;
    while i <= s.len()
        invariant
            from <= i,
            i <= s@.len() + 1,
            forall|j: int| from <= j < i ==> !occurs_at(s@, p@, j),
        decreases s@.len() + 1 - i,
    {
        if match_at(s, p, i) {
            return Some(i);
        }
        if i == s.len() {
            assert forall|j: int| from <= j implies !occurs_at(s@, p@, j) by {
                if j > i {
                    assert(!(j + p@.len() <= s@.len()));
                }
            }
            return None;
        }
        i = i + 1;
    }
    None
}

pub fn contains_seq(s: &[char], p: &[char]) -> (r: bool)
    ensures
        r == contains(s@, p@),
{
    match find_from(s, p, 0) {
        Some(_) => true,
        None => false,
    }
}

/// `haystack.contains(needle)` for string slices.
pub fn str_contains(hay: &str, needle: &str) -> (r: bool)
    ensures
        r == contains(hay@, needle@),
{
    let h = to_chars(hay);
    let n = to_chars(needle);
    contains_seq(h.as_slice(), n.as_slice())
}

// ---------------------------------------------------------------------------
// Trimming
// ---------------------------------------------------------------------------

pub open spec fn trim_start(s: Seq<char>) -> Seq<char>
    decreases s.len(),
{
    if s.len() > 0 && is_ws(s[0]) {
        trim_start(s.drop_first())
    } else {
        s
    }
}

pub open spec fn trim_end(s: Seq<char>) -> Seq<char>
    decreases s.len(),
{
    if s.len() > 0 && is_ws(s.last()) {
        trim_end(s.drop_last())
    } else {
        s
    }
}

/// `str::trim`.
pub open spec fn trim(s: Seq<char>) -> Seq<char> {
    trim_end(trim_start(s))
}

/// Index of the first non-whitespace character (or the length).
pub fn skip_ws(s: &[char], from: usize) -> (r: usize)
    requires
        from <= s@.len(),
    ensures
        from <= r <= s@.len(),
        trim_start(s@.subrange(from as int, s@.len() as int)) == s@.subrange(
            r as int,
            s@.len() as int,
        ),
        forall|j: int| from <= j < r ==> is_ws(#[trigger] s@[j]),
        r < s@.len() ==> !is_ws(s@[r as int]),
{
    let mut i = from;
    while i < s.len() && char_is_ws(s[i])
        invariant
            from <= i <= s@.len(),
            trim_start(s@.subrange(from as int, s@.len() as int)) == trim_start(
                s@.subrange(i as int, s@.len() as int),
            ),
            forall|j: int| from <= j < i ==> is_ws(#[trigger] s@[j]),
        decreases s@.len() - i,
    {
        assert(s@.subrange(i as int, s@.len() as int).drop_first() =~= s@.subrange(
            i + 1,
            s@.len() as int,
        ));
        i = i + 1;
    }
    i
}

/// One past the last non-whitespace character in `s[from..to]` (or `from`).
pub fn skip_ws_back(s: &[char], from: usize, to: usize) -> (r: usize)
    requires
        from <= to <= s@.len(),
    ensures
        from <= r <= to,
        trim_end(s@.subrange(from as int, to as int)) == s@.subrange(from as int, r as int),
{
    let mut e = to;
    while e > from && char_is_ws(s[e - 1])
        invariant
            from <= e <= to,
            to <= s@.len(),
            trim_end(s@.subrange(from as int, to as int)) == trim_end(
                s@.subrange(from as int, e as int),
            ),
        decreases e - from,
    {
        assert(s@.subrange(from as int, e as int).drop_last() =~= s@.subrange(
            from as int,
            e - 1,
        ));
        e = e - 1;
    }
    e
}

/// Trim a character slice.
pub fn trim_chars(s: &[char]) -> (r: Vec<char>)
    ensures
        r@ == trim(s@),
{
    let b = skip_ws(s, 0);
    let e = skip_ws_back(s, b, s.len());
    assert(s@.subrange(0, s@.len() as int) =~= s@);
    let mut r: Vec<char> = Vec::new();
    let mut i = b;
    while i < e
        invariant
            b <= i <= e,
            e <= s@.len(),
            r@ == s@.subrange(b as int, i as int),
        decreases e - i,
    {
        r.push(s[i]);
        i = i + 1;
        assert(r@ =~= s@.subrange(b as int, i as int));
    }
    r
}

/// `str::trim`, returning an owned string.
pub fn trim_str(s: &str) -> (r: String)
    ensures
        r@ == trim(s@),
{
    let v = to_chars(s);
    let t = trim_chars(v.as_slice());
    from_chars(t.as_slice())
}

/// Case fold to ASCII lower case.
pub fn lower_chars(s: &[char]) -> (r: Vec<char>)
    ensures
        r@ == lower(s@),
{
    let mut r: Vec<char> = Vec::new();
    let mut i: usize = 0;
    while i < s.len()
        invariant
            i <= s@.len(),
            r@ =~= lower(s@.subrange(0, i as int)),
        decreases s@.len() - i,
    {
        let c = char_lower(s[i]);
        r.push(c);
        i = i + 1;
        assert(r@ =~= lower(s@.subrange(0, i as int)));
    }
    assert(s@.subrange(0, s@.len() as int) =~= s@);
    r
}

pub fn all_hex_chars(s: &[char]) -> (r: bool)
    ensures
        r == all_hex(s@),
{
    let mut i: usize = 0;
    while i < s.len()
        invariant
            i <= s@.len(),
            forall|j: int| 0 <= j < i ==> is_hex_digit(#[trigger] s@[j]),
        decreases s@.len() - i,
    {
        if !char_is_hex(s[i]) {
            return false;
        }
        i = i + 1;
    }
    true
}


/// Character views of a sequence of character vectors.
pub open spec fn views(r: Seq<Vec<char>>) -> Seq<Seq<char>> {
    Seq::new(r.len(), |i: int| r[i]@)
}

// ---------------------------------------------------------------------------
// Lines (`str::lines`)
// ---------------------------------------------------------------------------

/// Index of the first `'\n'` in `s`, or its length.
pub open spec fn line_end(s: Seq<char>) -> nat
    decreases s.len(),
{
    if s.len() == 0 || s[0] == '\n' {
        0
    } else {
        1 + line_end(s.drop_first())
    }
}

pub open spec fn strip_cr(l: Seq<char>) -> Seq<char> {
    if l.len() > 0 && l.last() == '\r' {
        l.drop_last()
    } else {
        l
    }
}

/// `str::lines`: split at `'\n'`, drop one trailing `'\r'` per line, no final empty line.
pub open spec fn lines(s: Seq<char>) -> Seq<Seq<char>>
    decreases s.len(),
{
    if s.len() == 0 {
        seq![]
    } else {
        let e = line_end(s);
        if e >= s.len() {
            seq![strip_cr(s)]
        } else {
            seq![strip_cr(s.subrange(0, e as int))] + lines(s.subrange(e as int + 1, s.len() as int))
        }
    }
}

pub proof fn lemma_line_end_bound(s: Seq<char>)
    ensures
        line_end(s) <= s.len(),
        line_end(s) < s.len() ==> s[line_end(s) as int] == '\n',
        forall|j: int| 0 <= j < line_end(s) ==> s[j] != '\n',
    decreases s.len(),
{
    if s.len() > 0 && s[0] != '\n' {
        lemma_line_end_bound(s.drop_first());
        assert forall|j: int| 0 <= j < line_end(s) implies s[j] != '\n' by {
            if j > 0 {
                assert(s[j] == s.drop_first()[j - 1]);
            }
        }
    }
}

/// Position of the first `'\n'` at or after `from` (or the length).
pub fn find_line_end(s: &[char], from: usize) -> (r: usize)
    requires
        from <= s@.len(),
    ensures
        r == from + line_end(s@.subrange(from as int, s@.len() as int)),
        r <= s@.len(),
{
    let mut i = from;
    while i < s.len() && s[i] != '\n'
        invariant
            from <= i <= s@.len(),
            line_end(s@.subrange(from as int, s@.len() as int)) == (i - from) + line_end(
                s@.subrange(i as int, s@.len() as int),
            ),
        decreases s@.len() - i,
    {
        assert(s@.subrange(i as int, s@.len() as int).drop_first() =~= s@.subrange(
            i + 1,
            s@.len() as int,
        ));
        i = i + 1;
    }
    i
}

/// Copy `s[a..b]`.
pub fn slice_range(s: &[char], a: usize, b: usize) -> (r: Vec<char>)
    requires
        a <= b <= s@.len(),
    ensures
        r@ == s@.subrange(a as int, b as int),
{
    let mut r: Vec<char> = Vec::new();
    let mut i = a;
    while i < b
        invariant
            a <= i <= b,
            b <= s@.len(),
            r@ == s@.subrange(a as int, i as int),
        decreases b - i,
    {
        r.push(s[i]);
        i = i + 1;
        assert(r@ =~= s@.subrange(a as int, i as int));
    }
    r
}

pub fn strip_cr_vec(l: Vec<char>) -> (r: Vec<char>)
    ensures
        r@ == strip_cr(l@),
{
    let mut l = l;
    let ghost l0 = l@;
    if l.len() > 0 && l[l.len() - 1] == '\r' {
        l.pop();
        assert(l@ =~= l0.drop_last());
    }
    l
}

/// `str::lines` over a character slice.
pub fn split_lines(s: &[char]) -> (r: Vec<Vec<char>>)
    ensures
        views(r@) == lines(s@),
{
    let mut r: Vec<Vec<char>> = Vec::new();
    let mut p: usize = 0;
    assert(s@.subrange(0, s@.len() as int) =~= s@);
    while p < s.len()
        invariant
            p <= s@.len(),
            views(r@) + lines(s@.subrange(p as int, s@.len() as int)) == lines(s@),
        decreases s@.len() - p,
    {
        let ghost sub = s@.subrange(p as int, s@.len() as int);
        let e = find_line_end(s, p);
        let line = slice_range(s, p, e);
        let line = strip_cr_vec(line);
        let ghost old_r = views(r@);
        r.push(line);
        assert(views(r@) =~= old_r.push(line@));
        assert(sub.subrange(0, (e - p) as int) =~= s@.subrange(p as int, e as int));
        if e >= s.len() {
            assert(sub =~= s@.subrange(p as int, e as int));
            assert(lines(sub) == seq![strip_cr(sub)]);
            p = s.len();
            assert(lines(s@.subrange(p as int, s@.len() as int)) =~= seq![]);
            assert(views(r@) =~= old_r + lines(sub));
        } else {
            assert(sub.subrange(e - p + 1, sub.len() as int) =~= s@.subrange(
                e + 1,
                s@.len() as int,
            ));
            p = e + 1;
            assert(views(r@) + lines(s@.subrange(p as int, s@.len() as int)) =~= old_r + lines(
                sub,
            ));
        }
    }
    assert(lines(s@.subrange(p as int, s@.len() as int)) =~= seq![]);
    assert(views(r@) =~= views(r@) + lines(s@.subrange(p as int, s@.len() as int)));
    r
}

/// First line of `ls` whose trim is non-empty, trimmed; empty when none.
pub open spec fn first_nonempty_trimmed(ls: Seq<Seq<char>>) -> Seq<char>
    decreases ls.len(),
{
    if ls.len() == 0 {
        seq![]
    } else if trim(ls[0]).len() > 0 {
        trim(ls[0])
    } else {
        first_nonempty_trimmed(ls.drop_first())
    }
}

/// `raw.lines().map(str::trim).find(|l| !l.is_empty()).unwrap_or("")`.
pub fn first_nonempty_line(raw: &[char]) -> (r: Vec<char>)
    ensures
        r@ == first_nonempty_trimmed(lines(raw@)),
{
    let ls = split_lines(raw);
    assert(views(ls@).subrange(0, views(ls@).len() as int) =~= views(ls@));
    let mut k: usize = 0;
    while k < ls.len()
        invariant
            k <= views(ls@).len(),
            views(ls@) == lines(raw@),
            first_nonempty_trimmed(lines(raw@)) == first_nonempty_trimmed(
                views(ls@).subrange(k as int, views(ls@).len() as int),
            ),
        decreases views(ls@).len() - k,
    {
        let ghost rest = views(ls@).subrange(k as int, views(ls@).len() as int);
        assert(rest[0] == ls@[k as int]@);
        let t = trim_chars(ls[k].as_slice());
        if t.len() > 0 {
            return t;
        }
        assert(rest.drop_first() =~= views(ls@).subrange(k + 1, views(ls@).len() as int));
        k = k + 1;
    }
    Vec::new()
}

// ---------------------------------------------------------------------------
// Whitespace tokens (`str::split_whitespace`)
// ---------------------------------------------------------------------------

/// Index of the first whitespace character in `s`, or its length.
pub open spec fn token_end(s: Seq<char>) -> nat
    decreases s.len(),
{
    if s.len() == 0 || is_ws(s[0]) {
        0
    } else {
        1 + token_end(s.drop_first())
    }
}

pub open spec fn tokens(s: Seq<char>) -> Seq<Seq<char>>
    decreases s.len(),
{
    if s.len() == 0 {
        seq![]
    } else if is_ws(s[0]) {
        tokens(s.drop_first())
    } else {
        let e = token_end(s);
        if e >= s.len() {
            seq![s]
        } else {
            seq![s.subrange(0, e as int)] + tokens(s.subrange(e as int, s.len() as int))
        }
    }
}

pub fn find_token_end(s: &[char], from: usize) -> (r: usize)
    requires
        from <= s@.len(),
    ensures
        r == from + token_end(s@.subrange(from as int, s@.len() as int)),
        r <= s@.len(),
{
    let mut i = from;
    while i < s.len() && !char_is_ws(s[i])
        invariant
            from <= i <= s@.len(),
            token_end(s@.subrange(from as int, s@.len() as int)) == (i - from) + token_end(
                s@.subrange(i as int, s@.len() as int),
            ),
        decreases s@.len() - i,
    {
        assert(s@.subrange(i as int, s@.len() as int).drop_first() =~= s@.subrange(
            i + 1,
            s@.len() as int,
        ));
        i = i + 1;
    }
    i
}

/// `str::split_whitespace` over a character slice.
pub fn split_ws(s: &[char]) -> (r: Vec<Vec<char>>)
    ensures
        views(r@) == tokens(s@),
{
    let mut r: Vec<Vec<char>> = Vec::new();
    let mut p: usize = 0;
    assert(s@.subrange(0, s@.len() as int) =~= s@);
    while p < s.len()
        invariant
            p <= s@.len(),
            views(r@) + tokens(s@.subrange(p as int, s@.len() as int)) == tokens(s@),
        decreases s@.len() - p,
    {
        let ghost sub = s@.subrange(p as int, s@.len() as int);
        if char_is_ws(s[p]) {
            assert(sub.drop_first() =~= s@.subrange(p + 1, s@.len() as int));
            p = p + 1;
        } else {
            let e = find_token_end(s, p);
            assert(e > p) by {
                assert(sub[0] == s@[p as int]);
            }
            let tok = slice_range(s, p, e);
            let ghost old_r = views(r@);
            r.push(tok);
            assert(views(r@) =~= old_r.push(tok@));
            assert(sub.subrange(0, (e - p) as int) =~= s@.subrange(p as int, e as int));
            if e >= s.len() {
                assert(sub =~= s@.subrange(p as int, e as int));
                p = s.len();
                assert(tokens(s@.subrange(p as int, s@.len() as int)) =~= seq![]);
                assert(views(r@) =~= old_r + tokens(sub));
            } else {
                assert(sub.subrange((e - p) as int, sub.len() as int) =~= s@.subrange(
                    e as int,
                    s@.len() as int,
                ));
                p = e;
                assert(views(r@) + tokens(s@.subrange(p as int, s@.len() as int)) =~= old_r
                    + tokens(sub));
            }
        }
    }
    assert(tokens(s@.subrange(p as int, s@.len() as int)) =~= seq![]);
    assert(views(r@) =~= views(r@) + tokens(s@.subrange(p as int, s@.len() as int)));
    r
}


// ---------------------------------------------------------------------------
// Splitting at one character (`str::split(c)`)
// ---------------------------------------------------------------------------

/// Index of the first `c` in `s`, or its length.
pub open spec fn char_end(s: Seq<char>, c: char) -> nat
    decreases s.len(),
{
    if s.len() == 0 || s[0] == c {
        0
    } else {
        1 + char_end(s.drop_first(), c)
    }
}

/// `str::split(c)`: always at least one piece.
pub open spec fn split_at_char(s: Seq<char>, c: char) -> Seq<Seq<char>>
    decreases s.len(),
{
    let e = char_end(s, c);
    if e >= s.len() {
        seq![s]
    } else {
        seq![s.subrange(0, e as int)] + split_at_char(s.subrange(e as int + 1, s.len() as int), c)
    }
}

pub fn find_char_end(s: &[char], c: char, from: usize) -> (r: usize)
    requires
        from <= s@.len(),
    ensures
        r == from + char_end(s@.subrange(from as int, s@.len() as int), c),
        r <= s@.len(),
{
    let mut i = from;
    while i < s.len() && s[i] != c
        invariant
            from <= i <= s@.len(),
            char_end(s@.subrange(from as int, s@.len() as int), c) == (i - from) + char_end(
                s@.subrange(i as int, s@.len() as int),
                c,
            ),
        decreases s@.len() - i,
    {
        assert(s@.subrange(i as int, s@.len() as int).drop_first() =~= s@.subrange(
            i + 1,
            s@.len() as int,
        ));
        i = i + 1;
    }
    i
}

pub fn split_char(s: &[char], c: char) -> (r: Vec<Vec<char>>)
    ensures
        views(r@) == split_at_char(s@, c),
{
    let mut r: Vec<Vec<char>> = Vec::new();
    let mut p: usize = 0;
    assert(s@.subrange(0, s@.len() as int) =~= s@);
    loop
        invariant
            p <= s@.len(),
            views(r@) + split_at_char(s@.subrange(p as int, s@.len() as int), c) == split_at_char(
                s@,
                c,
            ),
        decreases s@.len() - p,
    {
        let ghost sub = s@.subrange(p as int, s@.len() as int);
        let e = find_char_end(s, c, p);
        let piece = slice_range(s, p, e);
        let ghost old_r = views(r@);
        r.push(piece);
        assert(views(r@) =~= old_r.push(piece@));
        assert(sub.subrange(0, (e - p) as int) =~= s@.subrange(p as int, e as int));
        if e >= s.len() {
            assert(sub =~= s@.subrange(p as int, e as int));
            assert(views(r@) =~= old_r + split_at_char(sub, c));
            return r;
        }
        assert(sub.subrange(e - p + 1, sub.len() as int) =~= s@.subrange(
            e + 1,
            s@.len() as int,
        ));
        p = e + 1;
        assert(views(r@) + split_at_char(s@.subrange(p as int, s@.len() as int), c) =~= old_r
            + split_at_char(sub, c));
    }
}

// ---------------------------------------------------------------------------
// Replacement (`str::replace`)
// ---------------------------------------------------------------------------

/// Left-to-right, non-overlapping replacement of `from` (non-empty) by `to`.
pub open spec fn replace(s: Seq<char>, from: Seq<char>, to: Seq<char>) -> Seq<char>
    decreases s.len(),
{
    if from.len() == 0 || s.len() < from.len() {
        s
    } else if s.subrange(0, from.len() as int) == from {
        to + replace(s.subrange(from.len() as int, s.len() as int), from, to)
    } else {
        seq![s[0]] + replace(s.drop_first(), from, to)
    }
}

pub fn replace_chars(s: &[char], from: &[char], to: &[char]) -> (r: Vec<char>)
    requires
        from@.len() > 0,
    ensures
        r@ == replace(s@, from@, to@),
{
    let mut r: Vec<char> = Vec::new();
    let mut i: usize = 0;
    assert(s@.subrange(0, s@.len() as int) =~= s@);
    while i < s.len()
        invariant
            from@.len() > 0,
            i <= s@.len(),
            r@ + replace(s@.subrange(i as int, s@.len() as int), from@, to@) == replace(
                s@,
                from@,
                to@,
            ),
        decreases s@.len() - i,
    {
        let ghost sub = s@.subrange(i as int, s@.len() as int);
        let ghost r0 = r@;
        if match_at(s, from, i) {
            assert(sub.subrange(0, from@.len() as int) =~= s@.subrange(
                i as int,
                i + from@.len(),
            ));
            let mut k: usize = 0;
            while k < to.len()
                invariant
                    k <= to@.len(),
                    r@ == r0 + to@.subrange(0, k as int),
                decreases to@.len() - k,
            {
                r.push(to[k]);
                k = k + 1;
                assert(r@ =~= r0 + to@.subrange(0, k as int));
            }
            assert(to@.subrange(0, to@.len() as int) =~= to@);
            assert(sub.subrange(from@.len() as int, sub.len() as int) =~= s@.subrange(
                i + from@.len(),
                s@.len() as int,
            ));
            i = i + from.len();
            assert(r@ + replace(s@.subrange(i as int, s@.len() as int), from@, to@) =~= r0
                + replace(sub, from@, to@));
        } else {
            r.push(s[i]);
            proof {
                if sub.len() >= from@.len() {
                    assert(sub.subrange(0, from@.len() as int) =~= s@.subrange(
                        i as int,
                        i + from@.len(),
                    ));
                }
            }
            assert(sub.drop_first() =~= s@.subrange(i + 1, s@.len() as int));
            i = i + 1;
            assert(r@ + replace(s@.subrange(i as int, s@.len() as int), from@, to@) =~= r0
                + replace(sub, from@, to@));
        }
    }
    assert(replace(s@.subrange(i as int, s@.len() as int), from@, to@) =~= seq![]);
    assert(r@ =~= r@ + replace(s@.subrange(i as int, s@.len() as int), from@, to@));
    r
}

/// `text.replace(from, to)` for string slices (`from` non-empty).
pub fn replace_str(text: &str, from: &str, to: &str) -> (r: String)
    requires
        from@.len() > 0,
    ensures
        r@ == replace(text@, from@, to@),
{
    let t = to_chars(text);
    let f = to_chars(from);
    let o = to_chars(to);
    let v = replace_chars(t.as_slice(), f.as_slice(), o.as_slice());
    from_chars(v.as_slice())
}

// ---------------------------------------------------------------------------
// Decimal numbers
// ---------------------------------------------------------------------------

pub open spec fn digit_char(d: nat) -> char {
    ((d % 10) + 48) as char
}

/// Decimal digits of `n` (no sign, no leading zeros).
pub open spec fn decimal(n: nat) -> Seq<char>
    decreases n,
{
    if n < 10 {
        seq![digit_char(n)]
    } else {
        decimal(n / 10).push(digit_char(n % 10))
    }
}

/// Decimal text of a signed integer (`-` for negatives), as `Display` prints it.
pub open spec fn int_text(n: int) -> Seq<char> {
    if n < 0 {
        seq!['-'] + decimal((-n) as nat)
    } else {
        decimal(n as nat)
    }
}

pub fn digit_of(d: u64) -> (c: char)
    requires
        d < 10,
    ensures
        c == digit_char(d as nat),
{
    let b = (d as u8) + 48;
    b as char
}

pub fn decimal_chars(n: u64) -> (r: Vec<char>)
    ensures
        r@ == decimal(n as nat),
    decreases n,
{
    if n < 10 {
        let mut v: Vec<char> = Vec::new();
        v.push(digit_of(n));
        assert(v@ =~= decimal(n as nat));
        v
    } else {
        let mut v = decimal_chars(n / 10);
        v.push(digit_of(n % 10));
        v
    }
}

/// `n.to_string()` for an `i64`.
pub fn int_to_string(n: i64) -> (r: String)
    ensures
        r@ == int_text(n as int),
{
    if n < 0 {
        let m: u64 = if n == i64::MIN {
            9223372036854775808u64
        } else {
            (-n) as u64
        };
        let v = decimal_chars(m);
        let mut s = String::new();
        push_char(&mut s, '-');
        push_chars(&mut s, v.as_slice());
        assert(s@ =~= int_text(n as int));
        s
    } else {
        let v = decimal_chars(n as u64);
        from_chars(v.as_slice())
    }
}

/// Value of a run of ASCII digits (most significant first).
pub open spec fn digits_value(s: Seq<char>) -> nat
    decreases s.len(),
{
    if s.len() == 0 {
        0
    } else {
        digits_value(s.drop_last()) * 10 + ((s.last() as u32) - 48) as nat
    }
}

pub open spec fn all_digits(s: Seq<char>) -> bool {
    forall|i: int| 0 <= i < s.len() ==> is_digit(#[trigger] s[i])
}

/// Digits after an optional leading `+` (the forms `str::parse` accepts for unsigned types).
pub open spec fn unsigned_body(s: Seq<char>) -> Seq<char> {
    if s.len() > 0 && s[0] == '+' {
        s.drop_first()
    } else {
        s
    }
}

/// `s.parse::<uN>().ok()` where `max` is the type's largest value.
pub open spec fn parse_unsigned(s: Seq<char>, max: nat) -> Option<nat> {
    let b = unsigned_body(s);
    if b.len() > 0 && all_digits(b) && digits_value(b) <= max {
        Some(digits_value(b))
    } else {
        None
    }
}

pub proof fn lemma_digits_value_prefix_mono(s: Seq<char>, k: int)
    requires
        0 <= k <= s.len(),
        all_digits(s),
    ensures
        digits_value(s.subrange(0, k)) <= digits_value(s),
    decreases s.len() - k,
{
    if k < s.len() {
        lemma_digits_value_prefix_mono(s, k + 1);
        assert(s.subrange(0, k + 1).drop_last() =~= s.subrange(0, k));
        assert(is_digit(s[k]));
    } else {
        assert(s.subrange(0, k) =~= s);
    }
}

/// Parse an unsigned decimal, returning `None` when malformed or above `max`.
pub fn parse_unsigned_chars(s: &[char], max: u64) -> (r: Option<u64>)
    requires
        max < 0x1_0000_0000_0000u64,
    ensures
        match r {
            Some(v) => parse_unsigned(s@, max as nat) == Some(v as nat),
            None => parse_unsigned(s@, max as nat).is_none(),
        },
{
    let start: usize = if s.len() > 0 && s[0] == '+' {
        1
    } else {
        0
    };
    let ghost b = unsigned_body(s@);
    assert(b =~= s@.subrange(start as int, s@.len() as int));
    if start >= s.len() {
        return None;
    }
    let mut acc: u64 = 0;
    let mut i = start;
    while i < s.len()
        invariant
            start <= i <= s@.len(),
            max < 0x1_0000_0000_0000u64,
            b == s@.subrange(start as int, s@.len() as int),
            b == unsigned_body(s@),
            acc as nat == digits_value(s@.subrange(start as int, i as int)),
            acc <= max,
            all_digits(s@.subrange(start as int, i as int)),
        decreases s@.len() - i,
    {
        let c = s[i];
        if !('0' <= c && c <= '9') {
            assert(b[i - start] == c);
            return None;
        }
        let d = (c as u32 - 48) as u64;
        assert(s@.subrange(start as int, i + 1).drop_last() =~= s@.subrange(start as int, i as int));
        assert(s@.subrange(start as int, i + 1).last() == c);
        let next = acc * 10 + d;
        assert(all_digits(s@.subrange(start as int, i + 1))) by {
            assert forall|j: int| 0 <= j < i + 1 - start implies is_digit(
                #[trigger] s@.subrange(start as int, i + 1)[j],
            ) by {
                if j < i - start {
                    assert(s@.subrange(start as int, i + 1)[j] == s@.subrange(
                        start as int,
                        i as int,
                    )[j]);
                }
            }
        }
        if next > max {
            proof {
                let full = s@.subrange(start as int, s@.len() as int);
                if all_digits(full) {
                    assert(full.subrange(0, i + 1 - start) =~= s@.subrange(start as int, i + 1));
                    lemma_digits_value_prefix_mono(full, i + 1 - start);
                }
            }
            return None;
        }
        acc = next;
        i = i + 1;
    }
    assert(s@.subrange(start as int, i as int) =~= b);
    Some(acc)
}


// ---------------------------------------------------------------------------
// Joining
// ---------------------------------------------------------------------------

/// Character views of a sequence of strings.
pub open spec fn sviews(v: Seq<String>) -> Seq<Seq<char>> {
    Seq::new(v.len(), |i: int| v[i]@)
}

/// `parts.join(sep)`.
pub open spec fn join(parts: Seq<Seq<char>>, sep: Seq<char>) -> Seq<char>
    decreases parts.len(),
{
    if parts.len() == 0 {
        seq![]
    } else if parts.len() == 1 {
        parts[0]
    } else {
        join(parts.drop_last(), sep) + sep + parts.last()
    }
}

pub fn join_strings(parts: &Vec<String>, sep: &str) -> (r: String)
    ensures
        r@ == join(sviews(parts@), sep@),
{
    let mut r = String::new();
    let mut i: usize = 0;
    while i < parts.len()
        invariant
            i <= parts@.len(),
            r@ == join(sviews(parts@).subrange(0, i as int), sep@),
        decreases parts@.len() - i,
    {
        let ghost pre = sviews(parts@).subrange(0, i as int);
        if i > 0 {
            r.append(sep);
        }
        r.append(parts[i].as_str());
        i = i + 1;
        assert(sviews(parts@).subrange(0, i as int).drop_last() =~= pre);
        assert(r@ =~= join(sviews(parts@).subrange(0, i as int), sep@));
    }
    assert(sviews(parts@).subrange(0, i as int) =~= sviews(parts@));
    r
}


// ---------------------------------------------------------------------------
// Trailing characters and prefixes
// ---------------------------------------------------------------------------

/// `s.trim_end_matches(c)`.
pub open spec fn trim_end_char(s: Seq<char>, c: char) -> Seq<char>
    decreases s.len(),
{
    if s.len() > 0 && s.last() == c {
        trim_end_char(s.drop_last(), c)
    } else {
        s
    }
}

/// Owned `s.trim_end_matches(c)`.
pub fn trim_end_char_str(s: &str, c: char) -> (r: String)
    ensures
        r@ == trim_end_char(s@, c),
{
    let v = to_chars(s);
    let mut n: usize = v.len();
    assert(v@.subrange(0, n as int) =~= v@);
    while n > 0 && v[n - 1] == c
        invariant
            n <= v@.len(),
            trim_end_char(v@, c) == trim_end_char(v@.subrange(0, n as int), c),
        decreases n,
    {
        assert(v@.subrange(0, n as int).drop_last() =~= v@.subrange(0, n - 1));
        n = n - 1;
    }
    let t = slice_range(v.as_slice(), 0, n);
    assert(v@.subrange(0, v@.len() as int) =~= v@);
    from_chars(t.as_slice())
}

/// `s.strip_prefix(p).unwrap_or(s)`.
pub open spec fn strip_prefix_or_self(s: Seq<char>, p: Seq<char>) -> Seq<char> {
    if has_prefix(s, p) {
        s.subrange(p.len() as int, s.len() as int)
    } else {
        s
    }
}

pub fn strip_prefix_or_self_chars(s: &[char], p: &[char]) -> (r: Vec<char>)
    ensures
        r@ == strip_prefix_or_self(s@, p@),
{
    if starts_with(s, p) {
        slice_range(s, p.len(), s.len())
    } else {
        let r = slice_range(s, 0, s.len());
        assert(s@.subrange(0, s@.len() as int) =~= s@);
        r
    }
}


// ---------------------------------------------------------------------------
// First / last occurrence (`str::find`, `str::rfind`, `split_once`)
// ---------------------------------------------------------------------------

/// Start of the first occurrence of `p` at or after `from`.
pub open spec fn find_first(s: Seq<char>, p: Seq<char>, from: int) -> Option<int>
    decreases s.len() + 1 - from,
{
    if from < 0 || from + p.len() > s.len() {
        None
    } else if occurs_at(s, p, from) {
        Some(from)
    } else {
        find_first(s, p, from + 1)
    }
}

/// Start of the last occurrence of `p` starting at or before `at`.
pub open spec fn find_last(s: Seq<char>, p: Seq<char>, at: int) -> Option<int>
    decreases at + 1,
{
    if at < 0 {
        None
    } else if occurs_at(s, p, at) {
        Some(at)
    } else {
        find_last(s, p, at - 1)
    }
}

/// `s.find(p)`.
pub open spec fn find_str(s: Seq<char>, p: Seq<char>) -> Option<int> {
    find_first(s, p, 0)
}

/// `s.rfind(p)`.
pub open spec fn rfind_str(s: Seq<char>, p: Seq<char>) -> Option<int> {
    find_last(s, p, s.len() - p.len())
}

pub fn find_first_chars(s: &[char], p: &[char]) -> (r: Option<usize>)
    ensures
        match r {
            Some(i) => find_str(s@, p@) == Some(i as int),
            None => find_str(s@, p@) is None,
        },
{
    if p.len() > s.len() {
        return None;
    }
    let last: usize = s.len() - p.len();
    let mut i: usize = 0;
    while i <= last
        invariant
            last == s@.len() - p@.len(),
            i <= last + 1,
            find_str(s@, p@) == find_first(s@, p@, i as int),
        decreases last + 1 - i,
    {
        if match_at(s, p, i) {
            return Some(i);
        }
        if i == last {
            assert(find_first(s@, p@, i + 1) is None);
            return None;
        }
        i = i + 1;
    }
    None
}

pub fn rfind_chars(s: &[char], p: &[char]) -> (r: Option<usize>)
    ensures
        match r {
            Some(i) => rfind_str(s@, p@) == Some(i as int),
            None => rfind_str(s@, p@) is None,
        },
{
    if p.len() > s.len() {
        return None;
    }
    let mut i: usize = s.len() - p.len();
    loop
        invariant
            i + p@.len() <= s@.len(),
            rfind_str(s@, p@) == find_last(s@, p@, i as int),
        decreases i,
    {
        if match_at(s, p, i) {
            return Some(i);
        }
        if i == 0 {
            assert(find_last(s@, p@, -1) is None);
            return None;
        }
        i = i - 1;
    }
}

/// `s.split_once(p)`.
pub open spec fn split_once(s: Seq<char>, p: Seq<char>) -> Option<(Seq<char>, Seq<char>)> {
    match find_str(s, p) {
        Some(i) => Some((s.subrange(0, i), s.subrange(i + p.len(), s.len() as int))),
        None => None,
    }
}

pub fn split_once_chars(s: &[char], p: &[char]) -> (r: Option<(Vec<char>, Vec<char>)>)
    ensures
        match r {
            Some(parts) => split_once(s@, p@) == Some((parts.0@, parts.1@)),
            None => split_once(s@, p@) is None,
        },
{
    match find_first_chars(s, p) {
        Some(i) => {
            proof {
                lemma_find_first_in_bounds(s@, p@, 0);
            }
            let n = s.len();
            assert(i + p@.len() <= n);
            let j: usize = i + p.len();
            let a = slice_range(s, 0, i);
            let b = slice_range(s, j, n);
            Some((a, b))
        },
        None => None,
    }
}

pub proof fn lemma_find_first_in_bounds(s: Seq<char>, p: Seq<char>, from: int)
    ensures
        find_first(s, p, from) matches Some(i) ==> from <= i && i + p.len() <= s.len()
            && occurs_at(s, p, i),
    decreases s.len() + 1 - from,
{
    if !(from < 0 || from + p.len() > s.len()) && !occurs_at(s, p, from) {
        lemma_find_first_in_bounds(s, p, from + 1);
    }
}

pub proof fn lemma_find_last_in_bounds(s: Seq<char>, p: Seq<char>, at: int)
    ensures
        find_last(s, p, at) matches Some(i) ==> 0 <= i <= at && occurs_at(s, p, i),
    decreases at + 1,
{
    if at >= 0 && !occurs_at(s, p, at) {
        lemma_find_last_in_bounds(s, p, at - 1);
    }
}


// ---------------------------------------------------------------------------
// Splitting what was joined
// ---------------------------------------------------------------------------

/// `char_end` of a concatenation whose first part holds no `c`.
pub proof fn lemma_char_end_concat(a: Seq<char>, b: Seq<char>, c: char)
    requires
        forall|i: int| 0 <= i < a.len() ==> a[i] != c,
    ensures
        char_end(a + b, c) == a.len() + char_end(b, c),
    decreases a.len(),
{
    if a.len() > 0 {
        lemma_char_end_concat(a.drop_first(), b, c);
        assert((a + b).drop_first() =~= a.drop_first() + b);
        assert((a + b)[0] == a[0]);
    } else {
        assert(a + b =~= b);
    }
}

/// `join` seen from the front.
pub proof fn lemma_join_front(parts: Seq<Seq<char>>, sep: Seq<char>)
    requires
        parts.len() >= 2,
    ensures
        join(parts, sep) == parts[0] + sep + join(parts.drop_first(), sep),
    decreases parts.len(),
{
    if parts.len() == 2 {
        assert(parts.drop_last().len() == 1);
        assert(parts.drop_first().len() == 1);
        assert(parts.drop_last()[0] == parts[0]);
        assert(parts.drop_first()[0] == parts.last());
        assert(join(parts.drop_last(), sep) == parts[0]);
        assert(join(parts.drop_first(), sep) == parts[1]);
        assert(join(parts, sep) == join(parts.drop_last(), sep) + sep + parts.last());
        assert(join(parts, sep) =~= parts[0] + sep + join(parts.drop_first(), sep));
    } else {
        lemma_join_front(parts.drop_last(), sep);
        let dl = parts.drop_last();
        let df = parts.drop_first();
        assert(dl.drop_first() =~= df.drop_last());
        assert(df.last() == parts.last());
        assert(dl[0] == parts[0]);
        assert(join(parts, sep) == join(dl, sep) + sep + parts.last());
        assert(join(df, sep) == join(df.drop_last(), sep) + sep + df.last());
        assert(join(parts, sep) =~= parts[0] + sep + join(df, sep));
    }
}

/// The first occurrence at or after `from` is at `k` when `p` occurs at `k`
/// and nowhere between.
pub proof fn lemma_find_first_at(s: Seq<char>, p: Seq<char>, from: int, k: int)
    requires
        0 <= from <= k,
        occurs_at(s, p, k),
        forall|j: int| from <= j < k ==> !occurs_at(s, p, j),
    ensures
        find_first(s, p, from) == Some(k),
    decreases k - from,
{
    if from < k {
        lemma_find_first_at(s, p, from + 1, k);
    }
}

/// The last occurrence at or before `at` is at `k` when `p` occurs at `k`
/// and nowhere after it up to `at`.
pub proof fn lemma_find_last_at(s: Seq<char>, p: Seq<char>, at: int, k: int)
    requires
        0 <= k <= at,
        occurs_at(s, p, k),
        forall|j: int| k < j <= at ==> !occurs_at(s, p, j),
    ensures
        find_last(s, p, at) == Some(k),
    decreases at - k,
{
    if k < at {
        lemma_find_last_at(s, p, at - 1, k);
    }
}

/// Text that neither starts nor ends with whitespace is its own trim.
pub proof fn lemma_trim_fixed(s: Seq<char>)
    requires
        s.len() > 0,
        !is_ws(s[0]),
        !is_ws(s.last()),
    ensures
        trim(s) == s,
{
}

/// A join starts with its first part.
pub proof fn lemma_join_starts(parts: Seq<Seq<char>>, sep: Seq<char>)
    requires
        parts.len() >= 1,
    ensures
        has_prefix(join(parts, sep), parts[0]),
{
    if parts.len() == 1 {
        assert(join(parts, sep).subrange(0, parts[0].len() as int) =~= parts[0]);
    } else {
        lemma_join_front(parts, sep);
        assert(join(parts, sep).subrange(0, parts[0].len() as int) =~= parts[0]);
    }
}

/// A prefix of `y` after `x` is a prefix of `x + y`.
pub proof fn lemma_prefix_concat(x: Seq<char>, y: Seq<char>, p: Seq<char>)
    requires
        has_prefix(y, p),
    ensures
        has_prefix(x + y, x + p),
{
    assert((x + y).subrange(0, (x + p).len() as int) =~= x + p);
}

/// Splitting at `c` what was joined with `c` gives the parts back, when no
/// part holds `c`.
pub proof fn lemma_split_join(parts: Seq<Seq<char>>, c: char)
    requires
        parts.len() >= 1,
        forall|i: int, j: int| 0 <= i < parts.len() && 0 <= j < parts[i].len() ==> #[trigger] parts[i][j] != c,
    ensures
        split_at_char(join(parts, seq![c]), c) == parts,
    decreases parts.len(),
{
    if parts.len() == 1 {
        let p = parts[0];
        assert forall|j: int| 0 <= j < p.len() implies p[j] != c by {
            assert(parts[0][j] != c);
        }
        lemma_char_end_concat(p, seq![], c);
        assert(p + Seq::<char>::empty() =~= p);
        assert(seq![p] =~= parts);
    } else {
        let p = parts[0];
        let df = parts.drop_first();
        assert forall|j: int| 0 <= j < p.len() implies p[j] != c by {
            assert(parts[0][j] != c);
        }
        assert forall|i: int, j: int| 0 <= i < df.len() && 0 <= j < df[i].len() implies #[trigger] df[i][j] != c by {
            assert(df[i] == parts[i + 1]);
            assert(parts[i + 1][j] != c);
        }
        lemma_join_front(parts, seq![c]);
        let rest = join(df, seq![c]);
        let s = p + seq![c] + rest;
        assert(s =~= p + (seq![c] + rest));
        lemma_char_end_concat(p, seq![c] + rest, c);
        assert((seq![c] + rest)[0] == c);
        assert(char_end(s, c) == p.len());
        assert(s.subrange(0, p.len() as int) =~= p);
        assert(s.subrange(p.len() as int + 1, s.len() as int) =~= rest);
        lemma_split_join(df, c);
        assert(seq![p] + df =~= parts);
    }
}

// ---------------------------------------------------------------------------
// Occurrences
// ---------------------------------------------------------------------------

/// Every part of a join occurs in it.
pub proof fn lemma_join_contains(parts: Seq<Seq<char>>, sep: Seq<char>, i: int)
    requires
        0 <= i < parts.len(),
    ensures
        contains(join(parts, sep), parts[i]),
    decreases parts.len(),
{
    let j = join(parts, sep);
    if parts.len() == 1 {
        assert(j == parts[0]);
        assert(occurs_at(j, parts[i], 0)) by {
            assert(j.subrange(0, parts[0].len() as int) =~= parts[0]);
        }
    } else {
        let dl = parts.drop_last();
        let jd = join(dl, sep);
        assert(j == jd + sep + parts.last());
        if i == parts.len() - 1 {
            let at: int = (jd.len() + sep.len()) as int;
            assert(j.subrange(at, at + parts[i].len()) =~= parts[i]);
            assert(occurs_at(j, parts[i], at));
        } else {
            lemma_join_contains(dl, sep, i);
            assert(dl[i] == parts[i]);
            let k = choose|k: int| occurs_at(jd, parts[i], k);
            assert(j.subrange(k, k + parts[i].len()) =~= jd.subrange(k, k + parts[i].len()));
            assert(occurs_at(j, parts[i], k));
        }
    }
}

/// A prefix of something that occurs occurs too.
pub proof fn lemma_contains_prefix(s: Seq<char>, p: Seq<char>, n: int)
    requires
        contains(s, p),
        0 <= n <= p.len(),
    ensures
        contains(s, p.subrange(0, n)),
{
    let k = choose|k: int| occurs_at(s, p, k);
    assert(s.subrange(k, k + n) =~= p.subrange(0, n)) by {
        assert forall|x: int| 0 <= x < n implies s.subrange(k, k + n)[x] == p.subrange(0, n)[x] by {
            assert(s.subrange(k, k + p.len())[x] == p[x]);
        }
    }
    assert(occurs_at(s, p.subrange(0, n), k));
}

/// Occurrences survive ASCII lower-casing.
pub proof fn lemma_contains_lower(s: Seq<char>, p: Seq<char>)
    requires
        contains(s, p),
    ensures
        contains(lower(s), lower(p)),
{
    let k = choose|k: int| occurs_at(s, p, k);
    assert(lower(s).subrange(k, k + p.len()) =~= lower(p)) by {
        assert forall|x: int| 0 <= x < p.len() implies lower(s).subrange(k, k + p.len())[x] == lower(p)[x] by {
            assert(s.subrange(k, k + p.len())[x] == p[x]);
        }
    }
    assert(occurs_at(lower(s), lower(p), k));
}

/// `char_end` never passes the end.
pub proof fn lemma_char_end_le(s: Seq<char>, c: char)
    ensures
        char_end(s, c) <= s.len(),
    decreases s.len(),
{
    if s.len() > 0 && s[0] != c {
        lemma_char_end_le(s.drop_first(), c);
    }
}

/// Hex text has no surrounding whitespace.
pub proof fn lemma_trim_hex(h: Seq<char>)
    requires
        all_hex(h),
    ensures
        trim(h) == h,
{
    if h.len() > 0 {
        assert(is_hex_digit(h[0]));
        assert(!is_ws(h[0]));
        assert(is_hex_digit(h[h.len() - 1]));
        assert(!is_ws(h.last()));
    }
    assert(trim_start(h) == h);
    assert(trim_end(h) == h);
}

/// A line end found in a concatenation whose first part has none.
pub proof fn lemma_line_end_concat(a: Seq<char>, b: Seq<char>)
    requires
        forall|i: int| 0 <= i < a.len() ==> a[i] != '\n',
    ensures
        line_end(a + b) == a.len() + line_end(b),
    decreases a.len(),
{
    if a.len() > 0 {
        lemma_line_end_concat(a.drop_first(), b);
        assert((a + b).drop_first() =~= a.drop_first() + b);
        assert((a + b)[0] == a[0]);
    } else {
        assert(a + b =~= b);
    }
}

/// The lines of one line followed by a newline.
pub proof fn lemma_lines_one(s: Seq<char>)
    requires
        forall|i: int| 0 <= i < s.len() ==> s[i] != '\n',
    ensures
        lines(s + seq!['\n']) == seq![strip_cr(s)],
{
    let t = s + seq!['\n'];
    lemma_line_end_concat(s, seq!['\n']);
    assert(line_end(seq!['\n']) == 0);
    assert(t.subrange(0, s.len() as int) =~= s);
    assert(t.subrange(s.len() as int + 1, t.len() as int) =~= Seq::<char>::empty());
    assert(lines(Seq::<char>::empty()) =~= Seq::<Seq<char>>::empty());
    assert(seq![strip_cr(s)] + Seq::<Seq<char>>::empty() =~= seq![strip_cr(s)]);
}

/// After `trim_start`, the text starts with a non-blank character.
pub proof fn lemma_trim_start_head(s: Seq<char>)
    ensures
        trim_start(s).len() > 0 ==> !is_ws(trim_start(s)[0]),
        trim_start(s).len() <= s.len(),
    decreases s.len(),
{
    if s.len() > 0 && is_ws(s[0]) {
        lemma_trim_start_head(s.drop_first());
    }
}

/// `trim_end` keeps a prefix that ends, when not empty, in a non-blank character.
pub proof fn lemma_trim_end_prefix(s: Seq<char>)
    ensures
        trim_end(s).len() <= s.len(),
        trim_end(s) == s.subrange(0, trim_end(s).len() as int),
        trim_end(s).len() > 0 ==> !is_ws(trim_end(s).last()),
    decreases s.len(),
{
    if s.len() > 0 && is_ws(s.last()) {
        lemma_trim_end_prefix(s.drop_last());
        let t = trim_end(s.drop_last());
        assert(s.drop_last().subrange(0, t.len() as int) =~= s.subrange(0, t.len() as int));
    } else {
        assert(s.subrange(0, s.len() as int) =~= s);
    }
}

/// Trimming twice is trimming once.
pub proof fn lemma_trim_idem(s: Seq<char>)
    ensures
        trim(trim(s)) == trim(s),
{
    let a = trim_start(s);
    let t = trim_end(a);
    lemma_trim_start_head(s);
    lemma_trim_end_prefix(a);
    if t.len() > 0 {
        assert(t[0] == a[0]);
        assert(!is_ws(t[0]));
        assert(trim_start(t) == t);
        assert(trim_end(t) == t);
    } else {
        assert(trim_start(t) == t);
        assert(trim_end(t) == t);
    }
}

// ---------------------------------------------------------------------------
// What replacing leaves behind
// ---------------------------------------------------------------------------

/// Nothing but `*` characters.
pub open spec fn all_stars(t: Seq<char>) -> bool {
    forall|i: int| 0 <= i < t.len() ==> t[i] == '*'
}

/// No `*` character.
pub open spec fn star_free(t: Seq<char>) -> bool {
    forall|i: int| 0 <= i < t.len() ==> t[i] != '*'
}

/// Before the first replacement the text is unchanged: a star-free prefix
/// of the result is a prefix of the input.
pub proof fn lemma_replace_star_free_prefix(s: Seq<char>, from: Seq<char>, to: Seq<char>, m: int)
    requires
        from.len() > 0,
        to.len() > 0,
        all_stars(to),
        0 <= m <= replace(s, from, to).len(),
        star_free(replace(s, from, to).subrange(0, m)),
    ensures
        m <= s.len(),
        replace(s, from, to).subrange(0, m) == s.subrange(0, m),
    decreases s.len(),
{
    let r = replace(s, from, to);
    if s.len() < from.len() {
        assert(r == s);
    } else if s.subrange(0, from.len() as int) == from {
        if m > 0 {
            assert(r[0] == to[0]);
            assert(r.subrange(0, m)[0] == r[0]);
        }
        assert(r.subrange(0, m) =~= s.subrange(0, 0)) by {
            if m > 0 {
                assert(false);
            }
        }
    } else {
        let d = s.drop_first();
        let rd = replace(d, from, to);
        assert(r == seq![s[0]] + rd);
        if m > 0 {
            assert(star_free(rd.subrange(0, m - 1))) by {
                assert forall|i: int| 0 <= i < m - 1 implies #[trigger] rd.subrange(0, m - 1)[i] != '*' by {
                    assert(rd.subrange(0, m - 1)[i] == r.subrange(0, m)[i + 1]);
                }
            }
            lemma_replace_star_free_prefix(d, from, to, m - 1);
            assert(r.subrange(0, m) =~= seq![s[0]] + rd.subrange(0, m - 1));
            assert(s.subrange(0, m) =~= seq![s[0]] + d.subrange(0, m - 1));
        } else {
            assert(r.subrange(0, 0) =~= s.subrange(0, 0));
        }
    }
}

/// Replacing every occurrence of a star-free `from` by stars leaves no
/// occurrence of it.
pub proof fn lemma_replace_removes(s: Seq<char>, from: Seq<char>, to: Seq<char>)
    requires
        from.len() > 0,
        star_free(from),
        to.len() > 0,
        all_stars(to),
    ensures
        !contains(replace(s, from, to), from),
    decreases s.len(),
{
    let r = replace(s, from, to);
    if s.len() < from.len() {
        assert(r == s);
        assert forall|k: int| !occurs_at(r, from, k) by {}
    } else if s.subrange(0, from.len() as int) == from {
        let rest = s.subrange(from.len() as int, s.len() as int);
        let rr = replace(rest, from, to);
        lemma_replace_removes(rest, from, to);
        assert(r == to + rr);
        assert forall|k: int| !occurs_at(r, from, k) by {
            if occurs_at(r, from, k) {
                if k < to.len() {
                    assert(r.subrange(k, k + from.len())[0] == r[k]);
                    assert(r[k] == to[k]);
                    assert(from[0] == '*');
                } else {
                    let k2 = k - to.len();
                    assert(r.subrange(k, k + from.len()) =~= rr.subrange(k2, k2 + from.len()));
                    assert(occurs_at(rr, from, k2));
                }
            }
        }
    } else {
        let d = s.drop_first();
        let rd = replace(d, from, to);
        lemma_replace_removes(d, from, to);
        assert(r == seq![s[0]] + rd);
        assert forall|k: int| !occurs_at(r, from, k) by {
            if occurs_at(r, from, k) {
                if k == 0 {
                    let w = r.subrange(0, from.len() as int);
                    assert(w == from);
                    lemma_replace_star_free_prefix(s, from, to, from.len() as int);
                    assert(s.subrange(0, from.len() as int) == from);
                } else {
                    assert(r.subrange(k, k + from.len()) =~= rd.subrange(k - 1, k - 1 + from.len()));
                    assert(occurs_at(rd, from, k - 1));
                }
            }
        }
    }
}

} // verus!
