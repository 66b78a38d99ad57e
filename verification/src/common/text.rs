//! Character-level string helpers shared by the key, path and configuration logic.
use vstd::prelude::*;

verus! {

/// Characters with the Unicode `White_Space` property, which is what `str::trim` removes.
pub open spec fn is_ws(c: char) -> bool {
    ||| ('\u{9}' <= c && c <= '\u{d}')
    ||| c == ' '
    ||| c == '\u{85}'
    ||| c == '\u{a0}'
    ||| c == '\u{1680}'
    ||| ('\u{2000}' <= c && c <= '\u{200a}')
    ||| c == '\u{2028}'
    ||| c == '\u{2029}'
    ||| c == '\u{202f}'
    ||| c == '\u{205f}'
    ||| c == '\u{3000}'
}

/// `s` without its leading whitespace.
pub open spec fn trim_front(s: Seq<char>) -> Seq<char>
    decreases s.len(),
{
    if s.len() > 0 && is_ws(s[0]) {
        trim_front(s.drop_first())
    } else {
        s
    }
}

/// `s` without its trailing whitespace.
pub open spec fn trim_back(s: Seq<char>) -> Seq<char>
    decreases s.len(),
{
    if s.len() > 0 && is_ws(s.last()) {
        trim_back(s.drop_last())
    } else {
        s
    }
}

/// `s` without leading and trailing whitespace, as `str::trim` gives it.
pub open spec fn trimmed(s: Seq<char>) -> Seq<char> {
    trim_back(trim_front(s))
}

/// `s` without every leading occurrence of `c`.
pub open spec fn strip_front(s: Seq<char>, c: char) -> Seq<char>
    decreases s.len(),
{
    if s.len() > 0 && s[0] == c {
        strip_front(s.drop_first(), c)
    } else {
        s
    }
}

/// `s` without every trailing occurrence of `c`.
pub open spec fn strip_back(s: Seq<char>, c: char) -> Seq<char>
    decreases s.len(),
{
    if s.len() > 0 && s.last() == c {
        strip_back(s.drop_last(), c)
    } else {
        s
    }
}

/// `s` without `c` at either end, as `str::trim_matches(c)` gives it.
pub open spec fn strip_both(s: Seq<char>, c: char) -> Seq<char> {
    strip_back(strip_front(s, c), c)
}

/// ASCII letters fold to lower case; every other character is kept.
pub open spec fn lower(c: char) -> char {
    if 'A' <= c && c <= 'Z' {
        ((c as u32) + 32) as char
    } else {
        c
    }
}

/// `s` with ASCII upper-case letters folded, as `str::to_ascii_lowercase` gives it.
pub open spec fn lowercase(s: Seq<char>) -> Seq<char> {
    s.map_values(|c: char| lower(c))
}

/// An ASCII hexadecimal digit, either case.
pub open spec fn is_hex_char(c: char) -> bool {
    ||| ('0' <= c && c <= '9')
    ||| ('a' <= c && c <= 'f')
    ||| ('A' <= c && c <= 'F')
}

/// Whether `prefix` begins `s`.
pub open spec fn has_prefix(s: Seq<char>, prefix: Seq<char>) -> bool {
    prefix.len() <= s.len() && s.subrange(0, prefix.len() as int) == prefix
}

/// Whether `suffix` ends `s`.
pub open spec fn has_suffix(s: Seq<char>, suffix: Seq<char>) -> bool {
    suffix.len() <= s.len() && s.subrange(s.len() - suffix.len(), s.len() as int) == suffix
}

/// Appends `c` to `s` (`String::push`).
#[verifier::external_body]
pub(crate) fn push_char(s: &mut String, c: char)
    ensures
        final(s)@ == old(s)@.push(c),
{
    s.push(c);
}

/// Appends `tail` to `s` (`String::push_str`).
#[verifier::external_body]
pub(crate) fn push_text(s: &mut String, tail: &str)
    ensures
        final(s)@ == old(s)@ + tail@,
{
    s.push_str(tail);
}

/// Whether two string slices hold the same characters (`str == str`).
#[verifier::external_body]
pub(crate) fn str_eq(a: &str, b: &str) -> (same: bool)
    ensures
        same == (a@ == b@),
{
    a == b
}

/// The characters of `s`, in order.
pub fn chars_of(s: &str) -> (out: Vec<char>)
    ensures
        out@ == s@,
{
    let mut out: Vec<char> = Vec::new();
    for c in it: s.chars()
        invariant
            out@ == it.seq().take(it.index() as int),
            it.seq() == s@,
    {
        out.push(c);
    }
    out
}

/// A string made of the characters `chars[from..to]`.
pub fn string_of(chars: &Vec<char>, from: usize, to: usize) -> (out: String)
    requires
        from <= to <= chars.len(),
    ensures
        out@ == chars@.subrange(from as int, to as int),
{
    let mut out = String::new();
    let mut i = from;
    while i < to
        invariant
            from <= i <= to <= chars.len(),
            out@ == chars@.subrange(from as int, i as int),
        decreases to - i,
    {
        push_char(&mut out, chars[i]);
        i += 1;
        assert(out@ =~= chars@.subrange(from as int, i as int));
    }
    out
}

/// A copy of `s` as an owned string.
pub fn owned(s: &str) -> (out: String)
    ensures
        out@ == s@,
{
    let mut out = String::new();
    push_text(&mut out, s);
    assert(out@ =~= s@);
    out
}

/// Whether `c` is whitespace in the sense of `str::trim`.
pub fn is_whitespace(c: char) -> (ws: bool)
    ensures
        ws == is_ws(c),
{
    ('\u{9}' <= c && c <= '\u{d}') || c == ' ' || c == '\u{85}' || c == '\u{a0}' || c == '\u{1680}'
        || ('\u{2000}' <= c && c <= '\u{200a}') || c == '\u{2028}' || c == '\u{2029}' || c
        == '\u{202f}' || c == '\u{205f}' || c == '\u{3000}'
}

/// Whether `c` is an ASCII hexadecimal digit.
pub fn is_hex_digit(c: char) -> (hex: bool)
    ensures
        hex == is_hex_char(c),
{
    ('0' <= c && c <= '9') || ('a' <= c && c <= 'f') || ('A' <= c && c <= 'F')
}

/// Leading whitespace of `s[i..]` is exactly what `trim_front` drops.
pub proof fn lemma_trim_front_at(s: Seq<char>, i: int)
    requires
        0 <= i <= s.len(),
        forall|k: int| 0 <= k < i ==> is_ws(#[trigger] s[k]),
        i == s.len() || !is_ws(s[i]),
    ensures
        trim_front(s) == s.subrange(i, s.len() as int),
    decreases i,
{
    if i == 0 {
        assert(s.subrange(0, s.len() as int) =~= s);
    } else {
        let t = s.drop_first();
        assert forall|k: int| 0 <= k < i - 1 implies is_ws(#[trigger] t[k]) by {
            assert(t[k] == s[k + 1]);
        }
        lemma_trim_front_at(t, i - 1);
        assert(t.subrange(i - 1, t.len() as int) =~= s.subrange(i, s.len() as int));
    }
}

/// Trailing whitespace of `s[..j]` is exactly what `trim_back` drops.
pub proof fn lemma_trim_back_at(s: Seq<char>, j: int)
    requires
        0 <= j <= s.len(),
        forall|k: int| j <= k < s.len() ==> is_ws(#[trigger] s[k]),
        j == 0 || !is_ws(s[j - 1]),
    ensures
        trim_back(s) == s.subrange(0, j),
    decreases s.len() - j,
{
    if j == s.len() {
        assert(s.subrange(0, j) =~= s);
    } else {
        let t = s.drop_last();
        assert forall|k: int| j <= k < t.len() implies is_ws(#[trigger] t[k]) by {
            assert(t[k] == s[k]);
        }
        lemma_trim_back_at(t, j);
        assert(t.subrange(0, j) =~= s.subrange(0, j));
    }
}

/// Leading `c`s of `s[i..]` are exactly what `strip_front` drops.
pub proof fn lemma_strip_front_at(s: Seq<char>, c: char, i: int)
    requires
        0 <= i <= s.len(),
        forall|k: int| 0 <= k < i ==> #[trigger] s[k] == c,
        i == s.len() || s[i] != c,
    ensures
        strip_front(s, c) == s.subrange(i, s.len() as int),
    decreases i,
{
    if i == 0 {
        assert(s.subrange(0, s.len() as int) =~= s);
    } else {
        let t = s.drop_first();
        assert forall|k: int| 0 <= k < i - 1 implies #[trigger] t[k] == c by {
            assert(t[k] == s[k + 1]);
        }
        lemma_strip_front_at(t, c, i - 1);
        assert(t.subrange(i - 1, t.len() as int) =~= s.subrange(i, s.len() as int));
    }
}

/// Trailing `c`s of `s[..j]` are exactly what `strip_back` drops.
pub proof fn lemma_strip_back_at(s: Seq<char>, c: char, j: int)
    requires
        0 <= j <= s.len(),
        forall|k: int| j <= k < s.len() ==> #[trigger] s[k] == c,
        j == 0 || s[j - 1] != c,
    ensures
        strip_back(s, c) == s.subrange(0, j),
    decreases s.len() - j,
{
    if j == s.len() {
        assert(s.subrange(0, j) =~= s);
    } else {
        let t = s.drop_last();
        assert forall|k: int| j <= k < t.len() implies #[trigger] t[k] == c by {
            assert(t[k] == s[k]);
        }
        lemma_strip_back_at(t, c, j);
        assert(t.subrange(0, j) =~= s.subrange(0, j));
    }
}

/// The bounds `[from, to)` of `trimmed(chars)` inside `chars`.
pub fn trim_bounds(chars: &Vec<char>) -> (r: (usize, usize))
    ensures
        r.0 <= r.1 <= chars.len(),
        chars@.subrange(r.0 as int, r.1 as int) == trimmed(chars@),
{
    let n = chars.len();
    let mut i: usize = 0;
    while i < n && is_whitespace(chars[i])
        invariant
            i <= n == chars.len(),
            forall|k: int| 0 <= k < i ==> is_ws(#[trigger] chars@[k]),
        decreases n - i,
    {
        i += 1;
    }
    proof {
        lemma_trim_front_at(chars@, i as int);
    }
    let ghost front = chars@.subrange(i as int, n as int);
    let mut j: usize = n;
    while j > i && is_whitespace(chars[j - 1])
        invariant
            i <= j <= n == chars.len(),
            forall|k: int| j <= k < n ==> is_ws(#[trigger] chars@[k]),
        decreases j - i,
    {
        j -= 1;
    }
    proof {
        assert forall|k: int| j - i <= k < front.len() implies is_ws(#[trigger] front[k]) by {
            assert(front[k] == chars@[k + i]);
        }
        if j > i {
            assert(front[j - i - 1] == chars@[j - 1]);
        }
        lemma_trim_back_at(front, j - i);
        assert(front.subrange(0, j - i) =~= chars@.subrange(i as int, j as int));
    }
    (i, j)
}

/// `s` without leading and trailing whitespace (`str::trim`).
pub fn trim(s: &str) -> (out: String)
    ensures
        out@ == trimmed(s@),
{
    let chars = chars_of(s);
    let (from, to) = trim_bounds(&chars);
    string_of(&chars, from, to)
}

/// The bounds `[from, to)` of `strip_both(chars, c)` inside `chars`.
pub fn strip_bounds(chars: &Vec<char>, c: char) -> (r: (usize, usize))
    ensures
        r.0 <= r.1 <= chars.len(),
        chars@.subrange(r.0 as int, r.1 as int) == strip_both(chars@, c),
        chars@.subrange(r.0 as int, chars.len() as int) == strip_front(chars@, c),
{
    let n = chars.len();
    let mut i: usize = 0;
    while i < n && chars[i] == c
        invariant
            i <= n == chars.len(),
            forall|k: int| 0 <= k < i ==> #[trigger] chars@[k] == c,
        decreases n - i,
    {
        i += 1;
    }
    proof {
        lemma_strip_front_at(chars@, c, i as int);
    }
    let ghost front = chars@.subrange(i as int, n as int);
    let mut j: usize = n;
    while j > i && chars[j - 1] == c
        invariant
            i <= j <= n == chars.len(),
            forall|k: int| j <= k < n ==> #[trigger] chars@[k] == c,
        decreases j - i,
    {
        j -= 1;
    }
    proof {
        assert forall|k: int| j - i <= k < front.len() implies #[trigger] front[k] == c by {
            assert(front[k] == chars@[k + i]);
        }
        if j > i {
            assert(front[j - i - 1] == chars@[j - 1]);
        }
        lemma_strip_back_at(front, c, j - i);
        assert(front.subrange(0, j - i) =~= chars@.subrange(i as int, j as int));
    }
    (i, j)
}

/// The end of `strip_back(chars, c)` inside `chars`.
pub fn strip_back_end(chars: &Vec<char>, c: char) -> (j: usize)
    ensures
        j <= chars.len(),
        chars@.subrange(0, j as int) == strip_back(chars@, c),
{
    let n = chars.len();
    let mut j: usize = n;
    while j > 0 && chars[j - 1] == c
        invariant
            j <= n == chars.len(),
            forall|k: int| j <= k < n ==> #[trigger] chars@[k] == c,
        decreases j,
    {
        j -= 1;
    }
    proof {
        lemma_strip_back_at(chars@, c, j as int);
    }
    j
}

/// `s` without `c` at either end (`str::trim_matches`).
pub fn strip_matches(s: &str, c: char) -> (out: String)
    ensures
        out@ == strip_both(s@, c),
{
    let chars = chars_of(s);
    let (from, to) = strip_bounds(&chars, c);
    string_of(&chars, from, to)
}

/// `s` without leading `c`s (`str::trim_start_matches`).
pub fn strip_start(s: &str, c: char) -> (out: String)
    ensures
        out@ == strip_front(s@, c),
{
    let chars = chars_of(s);
    let (from, _to) = strip_bounds(&chars, c);
    string_of(&chars, from, chars.len())
}

/// `s` without trailing `c`s (`str::trim_end_matches`).
pub fn strip_end(s: &str, c: char) -> (out: String)
    ensures
        out@ == strip_back(s@, c),
{
    let chars = chars_of(s);
    let to = strip_back_end(&chars, c);
    string_of(&chars, 0, to)
}

/// `c` folded to ASCII lower case.
pub fn lower_char(c: char) -> (out: char)
    ensures
        out == lower(c),
{
    if 'A' <= c && c <= 'Z' {
        let code: u8 = (c as u8) + 32;
        code as char
    } else {
        c
    }
}

/// `s` with ASCII upper-case letters folded (`str::to_ascii_lowercase`).
pub fn ascii_lowercase(s: &str) -> (out: String)
    ensures
        out@ == lowercase(s@),
{
    let chars = chars_of(s);
    let mut out = String::new();
    let mut i: usize = 0;
    while i < chars.len()
        invariant
            i <= chars.len(),
            chars@ == s@,
            out@ == lowercase(chars@.subrange(0, i as int)),
        decreases chars.len() - i,
    {
        let c = lower_char(chars[i]);
        push_char(&mut out, c);
        i += 1;
        assert(out@ =~= lowercase(chars@.subrange(0, i as int)));
    }
    assert(chars@.subrange(0, chars.len() as int) =~= chars@);
    out
}

/// Whether `s` begins with `prefix` (`str::starts_with`).
pub fn starts_with(s: &str, prefix: &str) -> (yes: bool)
    ensures
        yes == has_prefix(s@, prefix@),
{
    let sc = chars_of(s);
    let pc = chars_of(prefix);
    if pc.len() > sc.len() {
        return false;
    }
    let mut i: usize = 0;
    while i < pc.len()
        invariant
            i <= pc.len() <= sc.len(),
            sc@ == s@,
            pc@ == prefix@,
            forall|k: int| 0 <= k < i ==> sc@[k] == pc@[k],
        decreases pc.len() - i,
    {
        if sc[i] != pc[i] {
            assert(sc@.subrange(0, pc.len() as int)[i as int] != pc@[i as int]);
            return false;
        }
        i += 1;
    }
    assert(sc@.subrange(0, pc.len() as int) =~= pc@);
    true
}

/// Whether `s` ends with `suffix` (`str::ends_with`).
pub fn ends_with(s: &str, suffix: &str) -> (yes: bool)
    ensures
        yes == has_suffix(s@, suffix@),
{
    let sc = chars_of(s);
    let pc = chars_of(suffix);
    if pc.len() > sc.len() {
        return false;
    }
    let off = sc.len() - pc.len();
    let mut i: usize = 0;
    while i < pc.len()
        invariant
            i <= pc.len() <= sc.len(),
            off == sc.len() - pc.len(),
            sc@ == s@,
            pc@ == suffix@,
            forall|k: int| 0 <= k < i ==> sc@[off + k] == pc@[k],
        decreases pc.len() - i,
    {
        if sc[off + i] != pc[i] {
            assert(sc@.subrange(off as int, sc.len() as int)[i as int] != pc@[i as int]);
            return false;
        }
        i += 1;
    }
    assert(sc@.subrange(off as int, sc.len() as int) =~= pc@);
    true
}

} // verus!

verus! {

/// `a` followed by `b`.
pub fn join2(a: &str, b: &str) -> (out: String)
    ensures
        out@ == a@ + b@,
{
    let mut out = owned(a);
    push_text(&mut out, b);
    out
}

/// `a`, `b` and `c` in a row.
pub fn join3(a: &str, b: &str, c: &str) -> (out: String)
    ensures
        out@ == a@ + b@ + c@,
{
    let mut out = owned(a);
    push_text(&mut out, b);
    push_text(&mut out, c);
    out
}

/// `a`, `b`, `c` and `d` in a row.
pub fn join4(a: &str, b: &str, c: &str, d: &str) -> (out: String)
    ensures
        out@ == a@ + b@ + c@ + d@,
{
    let mut out = owned(a);
    push_text(&mut out, b);
    push_text(&mut out, c);
    push_text(&mut out, d);
    out
}

} // verus!

verus! {

/// Two strings with the same UTF-8 bytes are the same string.
pub proof fn lemma_bytes_injective(a: Seq<char>, b: Seq<char>)
    ensures
        vstd::utf8::encode_utf8(a) == vstd::utf8::encode_utf8(b) ==> a == b,
{
    vstd::utf8::encode_utf8_decode_utf8(a);
    vstd::utf8::encode_utf8_decode_utf8(b);
}

} // verus!

verus! {

/// The decimal digit for `d < 10`.
pub open spec fn digit_char(d: nat) -> char {
    ((d + 48) as u8) as char
}

/// Decimal text of `n`, without leading zeros (`"0"` for zero).
pub open spec fn decimal(n: nat) -> Seq<char>
    decreases n,
{
    if n < 10 {
        seq![digit_char(n)]
    } else {
        decimal(n / 10).push(digit_char(n % 10))
    }
}

/// Decimal text of `n` (`n.to_string()`).
pub fn decimal_text(n: u64) -> (out: String)
    ensures
        out@ == decimal(n as nat),
    decreases n,
{
    if n < 10 {
        let mut out = String::new();
        push_char(&mut out, ((n as u8) + 48) as char);
        assert(out@ =~= decimal(n as nat));
        out
    } else {
        let mut out = decimal_text(n / 10);
        push_char(&mut out, (((n % 10) as u8) + 48) as char);
        assert(out@ =~= decimal(n as nat));
        out
    }
}

} // verus!

verus! {

/// The views of a list of strings, as a set.
pub open spec fn seq_views(v: Seq<String>) -> Set<Seq<char>> {
    Set::new(|s: Seq<char>| exists|i: int| 0 <= i < v.len() && #[trigger] v[i]@ == s)
}

/// Whether `v` holds an element equal to `item`.
pub fn list_contains(v: &Vec<String>, item: &str) -> (yes: bool)
    ensures
        yes == seq_views(v@).contains(item@),
        yes == exists|i: int| 0 <= i < v@.len() && #[trigger] v@[i]@ == item@,
{
    let mut i: usize = 0;
    while i < v.len()
        invariant
            i <= v.len(),
            forall|j: int| 0 <= j < i ==> (#[trigger] v@[j])@ != item@,
        decreases v.len() - i,
    {
        if str_eq(v[i].as_str(), item) {
            assert(v@[i as int]@ == item@);
            return true;
        }
        i += 1;
    }
    false
}

} // verus!

verus! {

/// Index of the first `c` in `s`, or `s.len()` when there is none.
pub open spec fn first_index_of(s: Seq<char>, c: char) -> int
    decreases s.len(),
{
    if s.len() == 0 {
        0
    } else if s[0] == c {
        0
    } else {
        1 + first_index_of(s.drop_first(), c)
    }
}

/// The pieces of `s` between occurrences of `c` (`str::split(c)`): never empty, one more
/// piece than there are separators.
pub open spec fn split_on(s: Seq<char>, c: char) -> Seq<Seq<char>>
    decreases s.len(),
{
    let i = first_index_of(s, c);
    if i >= s.len() {
        seq![s]
    } else {
        proof {
            lemma_first_index_bounds(s, c);
        }
        seq![s.subrange(0, i)] + split_on(s.subrange(i + 1, s.len() as int), c)
    }
}

pub proof fn lemma_first_index(s: Seq<char>, c: char, i: int)
    requires
        0 <= i <= s.len(),
        forall|k: int| 0 <= k < i ==> #[trigger] s[k] != c,
        i == s.len() || s[i] == c,
    ensures
        first_index_of(s, c) == i,
    decreases i,
{
    if i > 0 {
        let t = s.drop_first();
        assert forall|k: int| 0 <= k < i - 1 implies #[trigger] t[k] != c by {
            assert(t[k] == s[k + 1]);
        }
        lemma_first_index(t, c, i - 1);
    }
}

pub proof fn lemma_first_index_bounds(s: Seq<char>, c: char)
    ensures
        0 <= first_index_of(s, c) <= s.len(),
    decreases s.len(),
{
    if s.len() > 0 && s[0] != c {
        lemma_first_index_bounds(s.drop_first(), c);
    }
}

/// The pieces of `chars[from..]` split at `c`.
pub fn split_chars(chars: &Vec<char>, c: char) -> (pieces: Vec<String>)
    ensures
        pieces@.map_values(|p: String| p@) == split_on(chars@, c),
{
    let mut pieces: Vec<String> = Vec::new();
    let mut start: usize = 0;
    let mut i: usize = 0;
    assert(chars@.subrange(0, chars.len() as int) =~= chars@);
    assert(pieces@.map_values(|p: String| p@) =~= Seq::<Seq<char>>::empty());
    while i < chars.len()
        invariant
            start <= i <= chars.len(),
            forall|k: int| start <= k < i ==> #[trigger] chars@[k] != c,
            pieces@.map_values(|p: String| p@) + split_on(chars@.subrange(start as int, chars.len() as int), c)
                == split_on(chars@, c),
        decreases chars.len() - i,
    {
        if chars[i] == c {
            let piece = string_of(chars, start, i);
            proof {
                let rest = chars@.subrange(start as int, chars.len() as int);
                lemma_first_index(rest, c, i - start);
                assert(rest.subrange(0, i - start) =~= chars@.subrange(start as int, i as int));
                assert(rest.subrange(i - start + 1, rest.len() as int) =~= chars@.subrange(i + 1, chars.len() as int));
            }
            let ghost before = pieces@;
            pieces.push(piece);
            proof {
                assert(pieces@.map_values(|p: String| p@) =~= before.map_values(|p: String| p@).push(chars@.subrange(start as int, i as int)));
            }
            start = i + 1;
        }
        i += 1;
    }
    let last = string_of(chars, start, chars.len());
    proof {
        let rest = chars@.subrange(start as int, chars.len() as int);
        lemma_first_index(rest, c, rest.len() as int);
    }
    let ghost before = pieces@;
    pieces.push(last);
    proof {
        assert(pieces@.map_values(|p: String| p@) =~= before.map_values(|p: String| p@).push(chars@.subrange(start as int, chars.len() as int)));
    }
    pieces
}

} // verus!
