//! Map box `uname -m` to GitHub Release target triples.
use vstd::prelude::*;
use crate::error::{ErrorView, HortoError};
use crate::text::{concat3, str_eq, to_chars, trim, trim_chars, from_chars};

verus! {

/// Box architecture labels used for Release assets and local cache paths.
#[derive(Debug, Clone, Copy, PartialEq, Eq)]
pub enum BoxArch {
    /// `x86_64` / amd64.
    Amd64,
    /// `aarch64` / arm64.
    Arm64,
}

pub open spec fn target_triple_of(a: BoxArch) -> Seq<char> {
    match a {
        BoxArch::Amd64 => "x86_64-unknown-linux-gnu"@,
        BoxArch::Arm64 => "aarch64-unknown-linux-gnu"@,
    }
}

pub open spec fn cache_label_of(a: BoxArch) -> Seq<char> {
    match a {
        BoxArch::Amd64 => "amd64"@,
        BoxArch::Arm64 => "arm64"@,
    }
}

impl BoxArch {
    /// Rust target triple for Release tar.gz assets.
    pub fn target_triple(self) -> (r: &'static str)
        ensures
            r@ == target_triple_of(self),
    {
        match self {
            BoxArch::Amd64 => "x86_64-unknown-linux-gnu",
            BoxArch::Arm64 => "aarch64-unknown-linux-gnu",
        }
    }

    /// Short arch label used in cache directories.
    pub fn cache_label(self) -> (r: &'static str)
        ensures
            r@ == cache_label_of(self),
    {
        match self {
            BoxArch::Amd64 => "amd64",
            BoxArch::Arm64 => "arm64",
        }
    }
}

/// Value of [`box_arch_from_uname`] on the trimmed machine string.
pub open spec fn arch_of_uname(raw: Seq<char>) -> Result<BoxArch, ErrorView> {
    let t = trim(raw);
    if t == "x86_64"@ || t == "amd64"@ {
        Ok(BoxArch::Amd64)
    } else if t == "aarch64"@ || t == "arm64"@ {
        Ok(BoxArch::Arm64)
    } else if t.len() == 0 {
        Err(ErrorView::Message("empty uname -m from remote host"@))
    } else {
        Err(
            ErrorView::Message(
                "unsupported box architecture: "@ + t + " (need x86_64 or aarch64)"@,
            ),
        )
    }
}

/// Parse `uname -m` output into a supported box architecture.
pub fn box_arch_from_uname(uname_m: &str) -> (r: Result<BoxArch, HortoError>)
    ensures
        match r {
            Ok(a) => arch_of_uname(uname_m@) == Ok::<BoxArch, ErrorView>(a),
            Err(e) => arch_of_uname(uname_m@) == Err::<BoxArch, ErrorView>(e@),
        },
{
    let raw = to_chars(uname_m);
    let t = trim_chars(raw.as_slice());
    let ts = from_chars(t.as_slice());
    let s = ts.as_str();
    if str_eq(s, "x86_64") || str_eq(s, "amd64") {
        Ok(BoxArch::Amd64)
    } else if str_eq(s, "aarch64") || str_eq(s, "arm64") {
        Ok(BoxArch::Arm64)
    } else if t.len() == 0 {
        Err(HortoError::msg("empty uname -m from remote host"))
    } else {
        Err(HortoError::Message(concat3("unsupported box architecture: ", s, " (need x86_64 or aarch64)")))
    }
}

} // verus!
