//! System askpass (`SSH_ASKPASS`) for secrets when there is no cooked TTY:
//! which program to run and what its output means.
use vstd::prelude::*;
use crate::error::{message_error, ErrorView, HortoError};
use crate::text::{from_chars, to_chars, trim, trim_chars};

verus! {

/// Askpass programs looked for on `PATH`, in order, when `SSH_ASKPASS` is unset.
pub const ASKPASS_NAMES: [&'static str; 5] = [
    "ssh-askpass",
    "x11-ssh-askpass",
    "gnome-ssh-askpass",
    "ksshaskpass",
    "lxqt-openssh-askpass",
];

/// Error when no askpass program can be found.
pub open spec fn no_askpass_error() -> ErrorView {
    message_error("No askpass program found. Set SSH_ASKPASS to an askpass binary on PATH."@)
}

/// The askpass to run: `SSH_ASKPASS` (trimmed) when it is set and not
/// blank, else the first of [`ASKPASS_NAMES`] found on `PATH` (`found[i]`
/// being where the `i`-th was found), else an error.
pub open spec fn askpass_of(env: Option<Seq<char>>, found: Seq<Option<Seq<char>>>) -> Option<Seq<char>>
    decreases found.len(),
{
    if env matches Some(v) && trim(v).len() > 0 {
        Some(trim(env->0))
    } else if found.len() == 0 {
        None
    } else if found[0] is Some {
        found[0]
    } else {
        askpass_of(None, found.drop_first())
    }
}

pub open spec fn found_views(v: Seq<Option<String>>) -> Seq<Option<Seq<char>>> {
    Seq::new(
        v.len(),
        |i: int|
            match v[i] {
                Some(s) => Some(s@),
                None => None,
            },
    )
}

pub fn resolve_askpass(env_askpass: Option<&str>, found: &Vec<Option<String>>) -> (r: Result<String, HortoError>)
    ensures
        match askpass_of(
            match env_askpass {
                Some(v) => Some(v@),
                None => None,
            },
            found_views(found@),
        ) {
            Some(p) => r matches Ok(s) && s@ == p,
            None => r matches Err(e) && e@ == no_askpass_error(),
        },
{
    if let Some(v) = env_askpass {
        let c = to_chars(v);
        let t = trim_chars(c.as_slice());
        if t.len() > 0 {
            return Ok(from_chars(t.as_slice()));
        }
    }
    let ghost ev = match env_askpass {
        Some(v) => Some(v@),
        None => None::<Seq<char>>,
    };
    let ghost fv = found_views(found@);
    assert(askpass_of(ev, fv) == askpass_of(None, fv));
    let mut i: usize = 0;
    assert(fv.subrange(0, fv.len() as int) =~= fv);
    while i < found.len()
        invariant
            i <= found@.len(),
            fv == found_views(found@),
            ev == match env_askpass {
                Some(v) => Some(v@),
                None => None::<Seq<char>>,
            },
            askpass_of(ev, fv) == askpass_of(None, fv.subrange(i as int, fv.len() as int)),
        decreases found@.len() - i,
    {
        let ghost rest = fv.subrange(i as int, fv.len() as int);
        assert(rest.drop_first() =~= fv.subrange(i + 1, fv.len() as int));
        match &found[i] {
            Some(p) => {
                assert(rest[0] == Some(p@));
                assert(askpass_of(None, rest) == Some(p@));
                return Ok(crate::text::owned(p.as_str()));
            },
            None => {},
        }
        i = i + 1;
    }
    Err(HortoError::msg("No askpass program found. Set SSH_ASKPASS to an askpass binary on PATH."))
}

/// `s` without trailing newlines and carriage returns.
pub open spec fn strip_line_end(s: Seq<char>) -> Seq<char>
    decreases s.len(),
{
    if s.len() > 0 && (s.last() == '\n' || s.last() == '\r') {
        strip_line_end(s.drop_last())
    } else {
        s
    }
}

/// The secret an askpass run gave: an error when it failed, else its stdout
/// without trailing line ends, which must not be empty.
pub open spec fn secret_of(success: bool, stdout: Seq<char>) -> Result<Seq<char>, ErrorView> {
    if !success {
        Err(message_error("Askpass cancelled or failed"@))
    } else if strip_line_end(stdout).len() == 0 {
        Err(message_error("Askpass returned an empty secret"@))
    } else {
        Ok(strip_line_end(stdout))
    }
}

fn strip_line_end_chars(c: &[char]) -> (r: Vec<char>)
    ensures
        r@ == strip_line_end(c@),
{
    let mut n: usize = c.len();
    assert(c@.subrange(0, n as int) =~= c@);
    while n > 0 && (c[n - 1] == '\n' || c[n - 1] == '\r')
        invariant
            n <= c@.len(),
            strip_line_end(c@) == strip_line_end(c@.subrange(0, n as int)),
        decreases n,
    {
        assert(c@.subrange(0, n as int).drop_last() =~= c@.subrange(0, n - 1));
        n = n - 1;
    }
    crate::text::slice_range(c, 0, n)
}

pub fn askpass_secret(success: bool, stdout: &str) -> (r: Result<String, HortoError>)
    ensures
        match secret_of(success, stdout@) {
            Ok(s) => r matches Ok(x) && x@ == s,
            Err(e) => r matches Err(x) && x@ == e,
        },
{
    if !success {
        return Err(HortoError::msg("Askpass cancelled or failed"));
    }
    let c = to_chars(stdout);
    let s = strip_line_end_chars(c.as_slice());
    if s.len() == 0 {
        return Err(HortoError::msg("Askpass returned an empty secret"));
    }
    Ok(from_chars(s.as_slice()))
}

} // verus!
