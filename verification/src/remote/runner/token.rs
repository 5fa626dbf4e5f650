//! Status-api bearer token: parsing the box drop file and the local save path.
use vstd::prelude::*;
use crate::error::{message_error, ErrorView, HortoError};
use crate::remote::bins::{join_path, path_join};
use crate::remote::ecosystem::api_token_line;
use crate::text::{
    has_prefix, is_hex_digit, is_ws, lemma_lines_one, lemma_trim_hex, strip_cr, trim_end,
    trim_start, all_hex, all_hex_chars, first_nonempty_line, first_nonempty_trimmed, from_chars,
    lines, strip_prefix_or_self, strip_prefix_or_self_chars, to_chars, trim, trim_chars,
};

verus! {

/// Minimum tip bearer length. Box install writes 64 hex chars; shorter leftovers
/// (including unit-test junk) must never be treated as a real Status API token.
pub const MIN_API_TOKEN_HEX_LEN: usize = 32;

/// Hex of `HORTO_API_TOKEN=<hex>` or bare hex, trimmed, when it is all hex
/// digits and at least [`MIN_API_TOKEN_HEX_LEN`] long.
pub open spec fn usable_token(raw: Seq<char>) -> Option<Seq<char>> {
    let hex = trim(strip_prefix_or_self(raw, "HORTO_API_TOKEN="@));
    if hex.len() < MIN_API_TOKEN_HEX_LEN || !all_hex(hex) {
        None
    } else {
        Some(hex)
    }
}

/// Return trimmed hex when it is usable as a tip Status API bearer.
///
/// Accepts `HORTO_API_TOKEN=<hex>` or bare hex. Rejects empty, non-hex, and
/// anything shorter than [`MIN_API_TOKEN_HEX_LEN`].
pub fn usable_api_token_hex(raw: &str) -> (r: Option<String>)
    ensures
        match r {
            Some(h) => usable_token(raw@) == Some(h@),
            None => usable_token(raw@) is None,
        },
{
    let c = to_chars(raw);
    let p = to_chars("HORTO_API_TOKEN=");
    let rest = strip_prefix_or_self_chars(c.as_slice(), p.as_slice());
    let hex = trim_chars(rest.as_slice());
    if hex.len() < MIN_API_TOKEN_HEX_LEN || !all_hex_chars(hex.as_slice()) {
        None
    } else {
        Some(from_chars(hex.as_slice()))
    }
}

/// Token of a drop file: its first non-empty trimmed line, when usable.
pub open spec fn drop_token(raw: Seq<char>) -> Option<Seq<char>> {
    let line = first_nonempty_trimmed(lines(raw));
    if line.len() == 0 {
        None
    } else {
        usable_token(line)
    }
}

/// Parse drop-file contents: `HORTO_API_TOKEN=<hex>` or bare hex.
pub fn parse_api_token_drop(raw: &str) -> (r: Option<String>)
    ensures
        match r {
            Some(h) => drop_token(raw@) == Some(h@),
            None => drop_token(raw@) is None,
        },
{
    let c = to_chars(raw);
    let line = first_nonempty_line(c.as_slice());
    if line.len() == 0 {
        return None;
    }
    let s = from_chars(line.as_slice());
    usable_api_token_hex(s.as_str())
}

/// Local bearer path: `$XDG_CONFIG_HOME/horto-os-ui/api_token` when that is
/// set and non-blank, else `$HOME/.config/horto-os-ui/api_token` (`.` for HOME
/// when unset).
pub open spec fn token_path_of(xdg: Option<Seq<char>>, home: Option<Seq<char>>) -> Seq<char> {
    if xdg is Some && trim(xdg->0).len() > 0 {
        join_path(join_path(trim(xdg->0), "horto-os-ui"@), "api_token"@)
    } else {
        let h = if home is Some {
            home->0
        } else {
            "."@
        };
        join_path(join_path(join_path(h, ".config"@), "horto-os-ui"@), "api_token"@)
    }
}

/// [`token_path_of`] for the given `XDG_CONFIG_HOME` and `HOME` values.
pub fn api_token_config_path_from(xdg_config_home: Option<&str>, home: Option<&str>) -> (r: String)
    ensures
        r@ == token_path_of(
            match xdg_config_home {
                Some(x) => Some(x@),
                None => None,
            },
            match home {
                Some(h) => Some(h@),
                None => None,
            },
        ),
{
    if let Some(x) = xdg_config_home {
        let c = to_chars(x);
        let t = trim_chars(c.as_slice());
        if t.len() > 0 {
            let ts = from_chars(t.as_slice());
            let a = path_join(ts.as_str(), "horto-os-ui");
            return path_join(a.as_str(), "api_token");
        }
    }
    let h = match home {
        Some(h) => h,
        None => ".",
    };
    let a = path_join(h, ".config");
    let b = path_join(a.as_str(), "horto-os-ui");
    path_join(b.as_str(), "api_token")
}

/// Error for a bearer that is not usable.
pub open spec fn short_token_error() -> ErrorView {
    message_error("status-api bearer must be at least 32 hex characters"@)
}

/// The hex to save, or the error given before anything is written.
pub fn validated_api_token(token: &str) -> (r: Result<String, HortoError>)
    ensures
        match r {
            Ok(h) => usable_token(token@) == Some(h@),
            Err(e) => usable_token(token@) is None && e@ == short_token_error(),
        },
{
    match usable_api_token_hex(token) {
        Some(h) => Ok(h),
        None => Err(HortoError::msg("status-api bearer must be at least 32 hex characters")),
    }
}

/// What a hex line reads back as in a token file.
proof fn lemma_hex_line(prefix: Seq<char>, h: Seq<char>)
    requires
        h.len() > 0,
        all_hex(h),
        prefix == ""@ || prefix == "HORTO_API_TOKEN="@,
    ensures
        api_token_line(prefix + h + "\n"@) == Some(h),
{
    reveal_strlit("HORTO_API_TOKEN=");
    reveal_strlit("\n");
    reveal_strlit("");
    let line = prefix + h;
    assert(prefix + h + "\n"@ =~= line + seq!['\n']);
    assert forall|i: int| 0 <= i < line.len() implies line[i] != '\n' by {
        if i >= prefix.len() {
            assert(line[i] == h[i - prefix.len()]);
            assert(is_hex_digit(h[i - prefix.len()]));
        }
    }
    lemma_lines_one(line);
    assert(line.len() > 0 && line.last() == h.last());
    assert(is_hex_digit(h[h.len() - 1]));
    assert(strip_cr(line) == line);
    lemma_trim_hex(h);
    if prefix == "HORTO_API_TOKEN="@ {
        assert(!is_ws(line[0]));
        assert(trim_start(line) == line);
        assert(!is_ws(line.last()));
        assert(trim_end(line) == line);
        assert(line.subrange(0, 16) =~= prefix);
        assert(strip_prefix_or_self(line, "HORTO_API_TOKEN="@) =~= h);
    } else {
        assert(line =~= h);
        assert(is_hex_digit(h[0]));
        assert(h[0] != 'H');
        if has_prefix(h, "HORTO_API_TOKEN="@) {
            assert(h.subrange(0, 16)[0] == h[0]);
            assert("HORTO_API_TOKEN="@[0] == 'H');
        }
    }
}

/// A bearer saved locally (the validated hex and a newline) reads back as
/// itself ([`parse_api_token_line`] of what [`validated_api_token`] allows).
pub proof fn law_saved_token_reads_back(token: Seq<char>)
    requires
        usable_token(token) is Some,
    ensures
        api_token_line(usable_token(token)->0 + "\n"@) == usable_token(token),
{
    reveal_strlit("");
    let h = usable_token(token)->0;
    assert(""@ + h =~= h);
    lemma_hex_line(""@, h);
}

/// The box's `api.env` line `HORTO_API_TOKEN=<hex>` reads back as the hex.
pub proof fn law_api_env_reads_back(h: Seq<char>)
    requires
        h.len() > 0,
        all_hex(h),
    ensures
        api_token_line("HORTO_API_TOKEN="@ + h + "\n"@) == Some(h),
{
    lemma_hex_line("HORTO_API_TOKEN="@, h);
}

} // verus!
