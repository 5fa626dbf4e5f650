//! Secret handling helpers (sudo passwords): wipe memory, never log.
use vstd::prelude::*;
use vstd::string::StringSliceAdditionalSpecFns;
use vstd::utf8::encode_utf8;
use crate::text::{all_stars, contains, lemma_replace_removes, owned, replace, replace_str, star_free};

verus! {

/// `String::into_bytes`: the UTF-8 bytes of the string, moved out.
#[verifier::external_body]
fn string_into_bytes(s: String) -> (b: Vec<u8>)
    ensures
        b@ == encode_utf8(s@),
{
    s.into_bytes()
}

/// Overwrite every byte of `bytes` with zero.
fn zero_bytes(bytes: &mut Vec<u8>)
    ensures
        final(bytes)@.len() == old(bytes)@.len(),
        forall|i: int| 0 <= i < final(bytes)@.len() ==> final(bytes)@[i] == 0,
{
    let n = bytes.len();
    let mut i: usize = 0;
    while i < n
        invariant
            n == bytes@.len(),
            i <= n,
            forall|j: int| 0 <= j < i ==> bytes@[j] == 0,
        decreases n - i,
    {
        bytes.set(i, 0);
        i = i + 1;
    }
}

/// Overwrite a secret [`String`]'s bytes then clear it.
///
/// Call after the last use of a password buffer (stdin feed, IPC copy).
pub fn wipe_secret(s: &mut String)
    ensures
        final(s)@ == Seq::<char>::empty(),
{
    let mut taken = String::new();
    std::mem::swap(s, &mut taken);
    let mut bytes = string_into_bytes(taken);
    zero_bytes(&mut bytes);
}

/// Replacement text for a redacted secret.
pub open spec fn redaction() -> Seq<char> {
    "********"@
}

/// Value of [`redact_secret`]: unchanged for secrets under two bytes, else every
/// occurrence replaced by `********`.
pub open spec fn redacted(text: Seq<char>, secret: Seq<char>) -> Seq<char> {
    if encode_utf8(secret).len() < 2 {
        text
    } else {
        replace(text, secret, redaction())
    }
}

/// Replace every occurrence of `secret` in `text` (when secret is non-empty).
///
/// Skips secrets shorter than 2 bytes to avoid nuking common letters.
pub fn redact_secret(text: &str, secret: &str) -> (r: String)
    ensures
        r@ == redacted(text@, secret@),
{
    if secret.as_bytes().len() < 2 {
        return owned(text);
    }
    proof {
        if secret@.len() == 0 {
            assert(secret@ =~= Seq::<char>::empty());
            assert(encode_utf8(secret@) =~= Seq::<u8>::empty()) by {
                reveal_with_fuel(encode_utf8, 1);
            }
        }
    }
    replace_str(text, secret, "********")
}

/// After redaction, a secret of two or more bytes that holds no `*` no
/// longer occurs in the text.
pub proof fn law_redaction_removes_secret(text: Seq<char>, secret: Seq<char>)
    requires
        encode_utf8(secret).len() >= 2,
        star_free(secret),
    ensures
        !contains(redacted(text, secret), secret),
{
    reveal_strlit("********");
    if secret.len() == 0 {
        assert(secret =~= Seq::<char>::empty());
        assert(encode_utf8(secret) =~= Seq::<u8>::empty()) by {
            reveal_with_fuel(encode_utf8, 1);
        }
    }
    assert(all_stars(redaction()));
    lemma_replace_removes(text, secret, redaction());
}

} // verus!
