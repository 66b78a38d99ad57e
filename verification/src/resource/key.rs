//! Where an object lives inside a pool.
//!
//! The first two hex digits of the sha256 form a shard directory, so that no single
//! directory holds tens of thousands of files. Every entry point first folds its input
//! to lower-case hex: the storage layers name files by the lower-case hex digest, and a
//! case mismatch would make a database hit point at a missing file.
use vstd::prelude::*;
use crate::common::text::{
    chars_of, is_hex_char, is_hex_digit, is_ws, lemma_trim_back_at, lemma_trim_front_at, lower,
    lowercase, owned, push_char, push_text, string_of, trim, trimmed, ascii_lowercase,
};

verus! {

/// The input was not 64 hexadecimal characters.
pub struct InvalidSha256(pub String);

/// The `Debug` rendering of a string slice (`format!("{:?}", s)`).
pub uninterp spec fn debug_rendering(s: Seq<char>) -> Seq<char>;

/// Renders `s` as `format!("{:?}", s)` does: quoted and escaped.
#[verifier::external_body]
pub(crate) fn debug_text(s: &str) -> (out: String)
    ensures
        out@ == debug_rendering(s@),
{
    format!("{:?}", s)
}

/// The message of an [`InvalidSha256`] holding `raw`.
pub open spec fn invalid_sha256_message(raw: Seq<char>) -> Seq<char> {
    "invalid sha256 "@ + debug_rendering(raw) + ", expected 64 hex chars"@
}

impl InvalidSha256 {
    /// `invalid sha256 "<input>", expected 64 hex chars`.
    pub fn message(&self) -> (out: String)
        ensures
            out@ == invalid_sha256_message(self.0@),
    {
        let mut out = owned("invalid sha256 ");
        let quoted = debug_text(self.0.as_str());
        push_text(&mut out, quoted.as_str());
        push_text(&mut out, ", expected 64 hex chars");
        out
    }
}

/// 64 hexadecimal characters, of either case.
pub open spec fn is_sha256_text(s: Seq<char>) -> bool {
    &&& s.len() == 64
    &&& forall|i: int| 0 <= i < 64 ==> is_hex_char(#[trigger] s[i])
}

/// `ab/cdef...`: the first two characters, a slash, the other sixty-two.
pub open spec fn object_key_text(s: Seq<char>) -> Seq<char> {
    s.subrange(0, 2) + seq!['/'] + s.subrange(2, s.len() as int)
}

/// What [`normalize_sha256`] makes of its input: trimmed, then folded to lower case.
pub open spec fn normalized(raw: Seq<char>) -> Seq<char> {
    lowercase(trimmed(raw))
}

/// Whether the characters are 64 hex digits.
pub fn is_sha256_chars(chars: &Vec<char>) -> (ok: bool)
    ensures
        ok == is_sha256_text(chars@),
{
    if chars.len() != 64 {
        return false;
    }
    let mut i: usize = 0;
    while i < 64
        invariant
            i <= 64,
            chars.len() == 64,
            forall|k: int| 0 <= k < i ==> is_hex_char(#[trigger] chars@[k]),
        decreases 64 - i,
    {
        if !is_hex_digit(chars[i]) {
            return false;
        }
        i += 1;
    }
    true
}

/// `sha256` (64 hex characters) → `ab/cdef...`; anything else is refused with the input.
pub fn object_key(sha256: &str) -> (r: Result<String, InvalidSha256>)
    ensures
        match r {
            Ok(key) => is_sha256_text(sha256@) && key@ == object_key_text(sha256@),
            Err(e) => !is_sha256_text(sha256@) && e.0@ == sha256@,
        },
{
    let chars = chars_of(sha256);
    if !is_sha256_chars(&chars) {
        return Err(InvalidSha256(owned(sha256)));
    }
    let mut key = string_of(&chars, 0, 2);
    push_char(&mut key, '/');
    let tail = string_of(&chars, 2, 64);
    push_text(&mut key, tail.as_str());
    assert(key@ =~= object_key_text(sha256@));
    Ok(key)
}

/// Trims, folds to lower case, then checks for 64 hex digits. Every handler entry uses
/// this; the string it returns is lower-case and safe for object paths.
pub fn normalize_sha256(raw: &str) -> (r: Result<String, InvalidSha256>)
    ensures
        match r {
            Ok(s) => is_sha256_text(normalized(raw@)) && s@ == normalized(raw@),
            Err(e) => !is_sha256_text(normalized(raw@)) && e.0@ == normalized(raw@),
        },
{
    let trimmed_raw = trim(raw);
    let sha256 = ascii_lowercase(trimmed_raw.as_str());
    match object_key(sha256.as_str()) {
        Ok(_) => Ok(sha256),
        Err(e) => Err(e),
    }
}

/// Normalizing twice changes nothing: a normalized sha256 is its own normal form.
pub proof fn normalize_is_idempotent(raw: Seq<char>)
    requires
        is_sha256_text(normalized(raw)),
    ensures
        normalized(normalized(raw)) == normalized(raw),
        is_sha256_text(normalized(normalized(raw))),
{
    let t = normalized(raw);
    assert(!is_ws(t[0]));
    assert(!is_ws(t[63]));
    lemma_trim_front_at(t, 0);
    assert(t.subrange(0, 64) =~= t);
    lemma_trim_back_at(t, 64);
    assert(trimmed(t) == t);
    assert forall|i: int| 0 <= i < 64 implies lower(#[trigger] t[i]) == t[i] by {
        let u = trimmed(raw);
        assert(t[i] == lower(u[i]));
    }
    assert(lowercase(t) =~= t);
}

/// A normalized sha256 holds only lower-case hex digits.
pub proof fn normalized_is_lower_hex(raw: Seq<char>)
    requires
        is_sha256_text(normalized(raw)),
    ensures
        forall|i: int|
            0 <= i < 64 ==> ('0' <= #[trigger] normalized(raw)[i] <= '9' || 'a' <= normalized(
                raw,
            )[i] <= 'f'),
{
    let t = normalized(raw);
    assert forall|i: int| 0 <= i < 64 implies ('0' <= #[trigger] t[i] <= '9' || 'a' <= t[i]
        <= 'f') by {
        let u = trimmed(raw);
        assert(t[i] == lower(u[i]));
        assert(is_hex_char(t[i]));
    }
}

} // verus!
