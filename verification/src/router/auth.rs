//! Admin authentication.
//!
//! The key comes from the `ADMIN_KEY` variable. Without it a random 64-byte key is made
//! at start-up; it is never printed in full, so a real deployment must set `ADMIN_KEY`.
use vstd::prelude::*;
use crate::common::text::{join2, owned, push_char};
use crate::router::error::AppError;
use crate::resource::secret::{all_hex, decode_hex_result, hex_decoded, hex_value};
use vstd::utf8::{encode_scalar, encode_utf8, is_ascii_chars, is_ascii_chars_encode_utf8};
use crate::common::random::os_random_bytes;

verus! {

/// The request header that carries the admin key.
pub const ADMIN_KEY_HEADER: &'static str = "x-admin-key";

/// The lower-case hex digit for `n < 16`.
pub open spec fn hex_digit(n: u8) -> char {
    if n < 10 {
        (('0' as u8) + n) as char
    } else {
        (('a' as u8) + n - 10) as char
    }
}

/// Two lower-case hex digits per byte, high nibble first.
pub open spec fn hex_text(bytes: Seq<u8>) -> Seq<char> {
    Seq::new(
        2 * bytes.len(),
        |i: int|
            if i % 2 == 0 {
                hex_digit(bytes[i / 2] >> 4)
            } else {
                hex_digit(bytes[i / 2] & 0x0f)
            },
    )
}

/// The hex digit of a nibble.
pub fn nibble_char(n: u8) -> (c: char)
    requires
        n < 16,
    ensures
        c == hex_digit(n),
{
    if n < 10 {
        (48u8 + n) as char
    } else {
        (87u8 + n) as char
    }
}

/// Lower-case hex of `bytes`, high nibble first.
pub fn hex_encode(bytes: &[u8]) -> (out: String)
    ensures
        out@ == hex_text(bytes@),
{
    let mut out = String::new();
    let mut i: usize = 0;
    while i < bytes.len()
        invariant
            i <= bytes.len(),
            out@ == hex_text(bytes@.subrange(0, i as int)),
        decreases bytes.len() - i,
    {
        let b = bytes[i];
        assert(b >> 4 < 16) by (bit_vector);
        assert(b & 0x0f < 16) by (bit_vector);
        push_char(&mut out, nibble_char(b >> 4));
        push_char(&mut out, nibble_char(b & 0x0f));
        i += 1;
        assert(out@ =~= hex_text(bytes@.subrange(0, i as int)));
    }
    assert(bytes@.subrange(0, bytes.len() as int) =~= bytes@);
    out
}

/// The byte at `i`, or 0 past the end.
pub open spec fn byte_or_zero(s: Seq<u8>, i: int) -> u8 {
    if 0 <= i < s.len() {
        s[i]
    } else {
        0
    }
}

proof fn or_zero(a: usize, b: usize)
    ensures
        (a | b) == 0 <==> (a == 0 && b == 0),
{
    assert((a | b) == 0 <==> (a == 0 && b == 0)) by (bit_vector);
}

proof fn xor_zero_usize(a: usize, b: usize)
    ensures
        (a ^ b) == 0 <==> a == b,
{
    assert((a ^ b) == 0 <==> a == b) by (bit_vector);
}

proof fn xor_zero_u8(a: u8, b: u8)
    ensures
        ((a ^ b) as usize) == 0 <==> a == b,
{
    assert(((a ^ b) as usize) == 0 <==> a == b) by (bit_vector);
}

/// Constant-time comparison: the length difference is folded into the accumulator and
/// every position up to the longer length is visited, so the time taken does not depend
/// on where the inputs differ.
pub fn constant_time_eq(left: &[u8], right: &[u8]) -> (same: bool)
    ensures
        same == (left@ == right@),
{
    let mut diff: usize = left.len() ^ right.len();
    proof {
        xor_zero_usize(left.len(), right.len());
    }
    let max = if left.len() >= right.len() {
        left.len()
    } else {
        right.len()
    };
    let mut i: usize = 0;
    while i < max
        invariant
            i <= max,
            max == if left.len() >= right.len() {
                left.len()
            } else {
                right.len()
            },
            (diff == 0) <==> (left.len() == right.len() && forall|k: int|
                0 <= k < i ==> byte_or_zero(left@, k) == byte_or_zero(right@, k)),
        decreases max - i,
    {
        let l: u8 = if i < left.len() {
            left[i]
        } else {
            0
        };
        let r: u8 = if i < right.len() {
            right[i]
        } else {
            0
        };
        proof {
            xor_zero_u8(l, r);
            or_zero(diff, (l ^ r) as usize);
        }
        let ghost before = diff;
        diff = diff | ((l ^ r) as usize);
        assert((diff == 0) <==> (left.len() == right.len() && forall|k: int|
            0 <= k < i + 1 ==> byte_or_zero(left@, k) == byte_or_zero(right@, k))) by {
            if left.len() == right.len() && forall|k: int|
                0 <= k < i + 1 ==> byte_or_zero(left@, k) == byte_or_zero(right@, k) {
                assert(byte_or_zero(left@, i as int) == l);
            }
        }
        i += 1;
    }
    proof {
        if diff == 0 {
            assert(left@ =~= right@) by {
                assert forall|k: int| 0 <= k < left.len() implies left@[k] == right@[k] by {
                    assert(byte_or_zero(left@, k) == byte_or_zero(right@, k));
                }
            }
        } else if left@ == right@ {
            assert(forall|k: int|
                0 <= k < max ==> byte_or_zero(left@, k) == byte_or_zero(right@, k));
        }
    }
    diff == 0
}

/// A fresh admin key: 64 random bytes as 128 lower-case hex characters. `None` when the
/// operating system's random source is unavailable.
pub fn generate_admin_key() -> (key: Option<String>)
    ensures
        key matches Some(k) ==> k@.len() == 128 && exists|b: Seq<u8>|
            b.len() == 64 && k@ == hex_text(b),
{
    match os_random_bytes(64) {
        Some(bytes) => Some(hex_encode(bytes.as_slice())),
        None => None,
    }
}

/// The decision of the admin middleware: the header must be present and equal the key.
pub fn check_admin_key(provided: Option<&str>, admin_key: &str) -> (r: Result<(), AppError>)
    ensures
        match provided {
            Some(p) => if p@ == admin_key@ {
                r is Ok
            } else {
                r matches Err(AppError::Unauthorized(m)) && m@ == "invalid admin key"@
            },
            None => r matches Err(AppError::Unauthorized(m)) && m@ == "missing "@
                + ADMIN_KEY_HEADER@ + " header"@,
        },
{
    match provided {
        Some(key) => {
            let same = constant_time_eq(key.as_bytes(), admin_key.as_bytes());
            proof {
                crate::common::text::lemma_bytes_injective(key@, admin_key@);
            }
            if same {
                Ok(())
            } else {
                Err(AppError::Unauthorized(owned("invalid admin key")))
            }
        },
        None => {
            let m = join2("missing ", ADMIN_KEY_HEADER);
            Err(AppError::Unauthorized(crate::common::text::join2(m.as_str(), " header")))
        },
    }
}

/// A hex digit is an ASCII character whose byte reads back as its nibble.
proof fn lemma_hex_digit_byte(n: u8)
    requires
        n < 16,
    ensures
        '\0' <= hex_digit(n) <= '\u{7f}',
        hex_value(hex_digit(n) as u8) == Some(n),
{
}

/// Decoding the hex text of some bytes gives the bytes back: [`decode_hex`] undoes
/// [`hex_encode`].
///
/// [`decode_hex`]: crate::resource::secret::decode_hex
pub proof fn law_hex_round_trip(bytes: Seq<u8>)
    ensures
        decode_hex_result(encode_utf8(hex_text(bytes))) == Ok::<Seq<u8>, Seq<char>>(bytes),
{
    let t = hex_text(bytes);
    assert forall|i: int| 0 <= i < t.len() implies '\0' <= #[trigger] t[i] <= '\u{7f}'
        && hex_value(t[i] as u8) is Some by {
        let b = bytes[i / 2];
        assert(b >> 4 < 16 && b & 0x0f < 16) by (bit_vector);
        if i % 2 == 0 {
            lemma_hex_digit_byte(b >> 4);
        } else {
            lemma_hex_digit_byte(b & 0x0f);
        }
    }
    assert(is_ascii_chars(t));
    is_ascii_chars_encode_utf8(t);
    let e = encode_utf8(t);
    assert(e.len() == 2 * bytes.len());
    assert(e.len() % 2 == 0);
    assert(all_hex(e)) by {
        assert forall|i: int| 0 <= i < e.len() implies (#[trigger] hex_value(e[i])) is Some by {
            assert(t[i] as u8 == e[i]);
        }
    }
    assert(hex_decoded(e) =~= bytes) by {
        assert forall|k: int| 0 <= k < bytes.len() implies #[trigger] hex_decoded(e)[k] == bytes[k] by {
            let b = bytes[k];
            assert(b >> 4 < 16 && b & 0x0f < 16) by (bit_vector);
            lemma_hex_digit_byte(b >> 4);
            lemma_hex_digit_byte(b & 0x0f);
            assert(t[2 * k] as u8 == e[2 * k]);
            assert(t[2 * k + 1] as u8 == e[2 * k + 1]);
            assert(t[2 * k] == hex_digit(b >> 4));
            assert(t[2 * k + 1] == hex_digit(b & 0x0f));
            assert(((b >> 4) as int) * 16 + ((b & 0x0f) as int) == b as int) by (bit_vector);
        }
    }
}

/// Characters whose UTF-8 bytes are all below 128 are ASCII.
proof fn lemma_small_bytes_ascii(s: Seq<char>)
    requires
        forall|i: int| 0 <= i < encode_utf8(s).len() ==> #[trigger] encode_utf8(s)[i] < 128,
    ensures
        is_ascii_chars(s),
    decreases s.len(),
{
    if s.len() > 0 {
        let head = encode_scalar(s[0] as u32);
        let rest = encode_utf8(s.drop_first());
        assert(encode_utf8(s) == head + rest);
        assert(head.len() > 0);
        assert(encode_utf8(s)[0] == head[0]);
        let c = s[0] as u32;
        if c > 0x7f {
            assert(c > 0x7f ==> (0xC0u8 | ((c >> 6) & 0x1F) as u8) >= 128
                && (0xE0u8 | ((c >> 12) & 0x0F) as u8) >= 128
                && (0xF0u8 | ((c >> 18) & 0x7) as u8) >= 128) by (bit_vector);
        }
        assert forall|i: int| 0 <= i < rest.len() implies #[trigger] rest[i] < 128 by {
            assert(encode_utf8(s)[head.len() + i] == rest[i]);
        }
        lemma_small_bytes_ascii(s.drop_first());
        assert(c <= 0x7f);
        vstd::utf8::char_u32_cast(s[0], c);
        assert(s[0] == (c as char));
        assert((c as char) <= '\u{7f}');
        assert forall|i: int| 0 <= i < s.len() implies '\0' <= #[trigger] s[i] <= '\u{7f}' by {
            if i > 0 {
                assert(s[i] == s.drop_first()[i - 1]);
            }
        }
    }
}

/// A lower-case hex digit byte is the hex digit of its value.
proof fn lemma_hex_byte_digit(b: u8)
    requires
        hex_value(b) is Some,
    ensures
        hex_value(b)->0 < 16,
        hex_digit(hex_value(b)->0) as u8 == b,
{
}

/// Text that decodes as hex is the hex text of what it decodes to: [`hex_encode`] undoes
/// [`decode_hex`].
///
/// [`decode_hex`]: crate::resource::secret::decode_hex
pub proof fn law_hex_decoded_round_trip(text: Seq<char>, bytes: Seq<u8>)
    requires
        decode_hex_result(encode_utf8(text)) == Ok::<Seq<u8>, Seq<char>>(bytes),
    ensures
        hex_text(bytes) == text,
{
    let e = encode_utf8(text);
    assert forall|i: int| 0 <= i < e.len() implies #[trigger] e[i] < 128 by {
        assert(hex_value(e[i]) is Some);
    }
    lemma_small_bytes_ascii(text);
    is_ascii_chars_encode_utf8(text);
    let v = hex_decoded(e);
    assert(v == bytes);
    let h = hex_text(v);
    assert(h.len() == text.len());
    assert forall|i: int| 0 <= i < text.len() implies #[trigger] h[i] == text[i] by {
        let k = i / 2;
        let hi = hex_value(e[2 * k])->0;
        let lo = hex_value(e[2 * k + 1])->0;
        lemma_hex_byte_digit(e[2 * k]);
        lemma_hex_byte_digit(e[2 * k + 1]);
        assert(hex_value(e[2 * k]) is Some);
        assert(hex_value(e[2 * k + 1]) is Some);
        let b = v[k];
        assert(b == ((hi as int) * 16 + (lo as int)) as u8);
        assert(hi < 16 && lo < 16 && b == ((hi as int) * 16 + (lo as int)) as u8 ==> b >> 4 == hi
            && b & 0x0f == lo) by (bit_vector);
        assert(text[i] as u8 == e[i]);
        assert('\0' <= text[i] <= '\u{7f}');
        assert(hex_digit(b >> 4) as u8 == e[2 * k]);
        assert(hex_digit(b & 0x0f) as u8 == e[2 * k + 1]);
        assert(h[i] as u8 == text[i] as u8);
    }
    assert(h =~= text);
}

} // verus!
