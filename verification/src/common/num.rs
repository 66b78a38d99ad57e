//! Decimal parsing of unsigned integers, as `str::parse` does it for `u64` and `u32`.
use vstd::prelude::*;
use crate::common::text::chars_of;

verus! {

/// Why a decimal text was refused (`std::num::IntErrorKind`).
#[derive(Clone, Copy, PartialEq, Eq, Structural)]
pub enum IntErrorKind {
    Empty,
    InvalidDigit,
    PosOverflow,
}

/// The text of a parse error (`ParseIntError`'s `Display`).
pub open spec fn int_error_text(k: IntErrorKind) -> Seq<char> {
    match k {
        IntErrorKind::Empty => "cannot parse integer from empty string"@,
        IntErrorKind::InvalidDigit => "invalid digit found in string"@,
        IntErrorKind::PosOverflow => "number too large to fit in target type"@,
    }
}

impl IntErrorKind {
    /// The error's text.
    pub fn to_text(&self) -> (s: &'static str)
        ensures
            s@ == int_error_text(*self),
    {
        match self {
            IntErrorKind::Empty => "cannot parse integer from empty string",
            IntErrorKind::InvalidDigit => "invalid digit found in string",
            IntErrorKind::PosOverflow => "number too large to fit in target type",
        }
    }
}

/// Whether `c` is a decimal digit.
pub open spec fn is_digit(c: char) -> bool {
    '0' <= c && c <= '9'
}

/// The value of a decimal digit.
pub open spec fn digit_value(c: char) -> nat {
    ((c as u32) - 48) as nat
}

/// Reads `d` left to right onto `acc`: a non-digit or a value over `max` stops it, with
/// whichever comes first.
pub open spec fn read_digits(d: Seq<char>, acc: nat, max: nat) -> Result<nat, IntErrorKind>
    decreases d.len(),
{
    if d.len() == 0 {
        Ok(acc)
    } else if !is_digit(d[0]) {
        Err(IntErrorKind::InvalidDigit)
    } else if acc * 10 + digit_value(d[0]) > max {
        Err(IntErrorKind::PosOverflow)
    } else {
        read_digits(d.drop_first(), acc * 10 + digit_value(d[0]), max)
    }
}

/// An unsigned decimal with an optional leading `+`, at most `max`.
pub open spec fn parse_unsigned(s: Seq<char>, max: nat) -> Result<nat, IntErrorKind> {
    if s.len() == 0 {
        Err(IntErrorKind::Empty)
    } else if s[0] == '+' && s.len() == 1 {
        Err(IntErrorKind::InvalidDigit)
    } else if s[0] == '+' {
        read_digits(s.drop_first(), 0, max)
    } else {
        read_digits(s, 0, max)
    }
}

/// What the digits read to never exceeds the bound.
pub proof fn lemma_read_bound(d: Seq<char>, acc: nat, max: nat)
    requires
        acc <= max,
    ensures
        read_digits(d, acc, max) matches Ok(v) ==> v <= max,
    decreases d.len(),
{
    if d.len() > 0 && is_digit(d[0]) && acc * 10 + digit_value(d[0]) <= max {
        lemma_read_bound(d.drop_first(), acc * 10 + digit_value(d[0]), max);
    }
}

/// Reading `d` onto `acc` equals reading its first `i` characters, then the rest.
proof fn lemma_read_split(d: Seq<char>, acc: nat, max: nat, i: int)
    requires
        0 <= i <= d.len(),
    ensures
        read_digits(d, acc, max) == match read_digits(d.subrange(0, i), acc, max) {
            Ok(a) => read_digits(d.subrange(i, d.len() as int), a, max),
            Err(e) => Err(e),
        },
    decreases i,
{
    if i == 0 {
        assert(d.subrange(0, 0) =~= Seq::<char>::empty());
        assert(d.subrange(0, d.len() as int) =~= d);
    } else if !is_digit(d[0]) {
    } else if acc * 10 + digit_value(d[0]) > max {
    } else {
        lemma_read_split(d.drop_first(), acc * 10 + digit_value(d[0]), max, i - 1);
        assert(d.subrange(0, i).drop_first() =~= d.drop_first().subrange(0, i - 1));
        assert(d.drop_first().subrange(i - 1, d.len() - 1) =~= d.subrange(i, d.len() as int));
    }
}

/// Parses `chars[from..]` as decimal digits of value at most `max`.
fn read_digits_exec(chars: &Vec<char>, from: usize, max: u64) -> (r: Result<u64, IntErrorKind>)
    requires
        from <= chars.len(),
    ensures
        match read_digits(chars@.subrange(from as int, chars.len() as int), 0, max as nat) {
            Ok(v) => r == Ok::<u64, IntErrorKind>(v as u64),
            Err(e) => r == Err::<u64, IntErrorKind>(e),
        },
        r matches Ok(v) ==> v <= max,
{
    let ghost d = chars@.subrange(from as int, chars.len() as int);
    let mut acc: u64 = 0;
    let mut i: usize = from;
    while i < chars.len()
        invariant
            from <= i <= chars.len(),
            d == chars@.subrange(from as int, chars.len() as int),
            acc <= max,
            read_digits(d.subrange(0, i - from), 0, max as nat) == Ok::<nat, IntErrorKind>(acc as nat),
        decreases chars.len() - i,
    {
        let c = chars[i];
        proof {
            lemma_read_split(d.subrange(0, i + 1 - from), 0, max as nat, i - from);
            assert(d.subrange(0, i + 1 - from).subrange(0, i - from) =~= d.subrange(0, i - from));
            let rest = d.subrange(0, i + 1 - from).subrange(i - from, i + 1 - from);
            assert(rest =~= seq![c]);
            assert(rest.drop_first() =~= Seq::<char>::empty());
        }
        if !('0' <= c && c <= '9') {
            proof {
                lemma_read_split(d, 0, max as nat, i + 1 - from);
            }
            return Err(IntErrorKind::InvalidDigit);
        }
        let v: u64 = (c as u64) - 48;
        assert(v as nat == digit_value(c));
        if v > max || acc > (max - v) / 10 {
            assert(acc * 10 + v > max) by (nonlinear_arith)
                requires
                    v > max || acc > (max - v) / 10,
            {
            }
            proof {
                lemma_read_split(d, 0, max as nat, i + 1 - from);
            }
            return Err(IntErrorKind::PosOverflow);
        }
        assert(acc * 10 + v <= max) by (nonlinear_arith)
            requires
                acc <= (max - v) / 10,
                v <= max,
        {
        }
        let ghost old_acc = acc;
        acc = acc * 10 + v;
        proof {
            reveal_with_fuel(read_digits, 2);
            assert(read_digits(seq![c], old_acc as nat, max as nat) == Ok::<nat, IntErrorKind>(acc as nat));
        }
        i += 1;
    }
    proof {
        assert(d.subrange(0, d.len() as int) =~= d);
    }
    Ok(acc)
}

/// `s.parse::<u64>()` when `max` is `u64::MAX`, `s.parse::<u32>()` when it is
/// `u32::MAX`: an optional `+`, then decimal digits, at most `max`.
pub fn parse_unsigned_text(s: &str, max: u64) -> (r: Result<u64, IntErrorKind>)
    ensures
        match parse_unsigned(s@, max as nat) {
            Ok(v) => r == Ok::<u64, IntErrorKind>(v as u64),
            Err(e) => r == Err::<u64, IntErrorKind>(e),
        },
        r matches Ok(v) ==> v <= max,
        parse_unsigned(s@, max as nat) matches Ok(v) ==> v <= max,
{
    proof {
        lemma_read_bound(s@, 0, max as nat);
        if s@.len() > 0 {
            lemma_read_bound(s@.drop_first(), 0, max as nat);
        }
    }
    let chars = chars_of(s);
    if chars.len() == 0 {
        return Err(IntErrorKind::Empty);
    }
    if chars[0] == '+' {
        if chars.len() == 1 {
            return Err(IntErrorKind::InvalidDigit);
        }
        assert(chars@.subrange(1, chars.len() as int) =~= s@.drop_first());
        read_digits_exec(&chars, 1, max)
    } else {
        assert(chars@.subrange(0, chars.len() as int) =~= s@);
        read_digits_exec(&chars, 0, max)
    }
}

} // verus!
