//! Lexicographic order of strings (by code point, which is also the order of their UTF-8
//! bytes, as `String`'s `Ord` compares) and sorting of string lists.
use vstd::prelude::*;
use crate::common::text::chars_of;

verus! {

/// `a` comes strictly before `b`.
pub open spec fn lex_lt(a: Seq<char>, b: Seq<char>) -> bool
    decreases a.len(),
{
    if b.len() == 0 {
        false
    } else if a.len() == 0 {
        true
    } else if a[0] != b[0] {
        (a[0] as u32) < (b[0] as u32)
    } else {
        lex_lt(a.drop_first(), b.drop_first())
    }
}

/// Nothing comes before itself.
pub proof fn lemma_lex_irreflexive(a: Seq<char>)
    ensures
        !lex_lt(a, a),
    decreases a.len(),
{
    if a.len() > 0 {
        lemma_lex_irreflexive(a.drop_first());
    }
}

/// Of two different strings, exactly one comes first.
pub proof fn lemma_lex_total(a: Seq<char>, b: Seq<char>)
    ensures
        a != b ==> (lex_lt(a, b) || lex_lt(b, a)),
        !(lex_lt(a, b) && lex_lt(b, a)),
    decreases a.len(),
{
    if a.len() > 0 && b.len() > 0 {
        if a[0] == b[0] {
            lemma_lex_total(a.drop_first(), b.drop_first());
            if a != b {
                assert(a =~= seq![a[0]] + a.drop_first());
                assert(b =~= seq![b[0]] + b.drop_first());
            }
        } else {
            vstd::utf8::char_u32_cast(a[0], a[0] as u32);
            vstd::utf8::char_u32_cast(b[0], b[0] as u32);
        }
    } else if a.len() == 0 && b.len() == 0 {
        assert(a =~= b);
    }
}

/// The order is transitive.
pub proof fn lemma_lex_transitive(a: Seq<char>, b: Seq<char>, c: Seq<char>)
    requires
        lex_lt(a, b),
        lex_lt(b, c),
    ensures
        lex_lt(a, c),
    decreases a.len(),
{
    if a.len() > 0 && b.len() > 0 && c.len() > 0 && a[0] == b[0] && b[0] == c[0] {
        lemma_lex_transitive(a.drop_first(), b.drop_first(), c.drop_first());
    }
}

/// Whether `a` comes strictly before `b`.
pub fn less_than(a: &str, b: &str) -> (lt: bool)
    ensures
        lt == lex_lt(a@, b@),
{
    let ac = chars_of(a);
    let bc = chars_of(b);
    let mut i: usize = 0;
    assert(ac@.subrange(0, ac.len() as int) =~= ac@);
    assert(bc@.subrange(0, bc.len() as int) =~= bc@);
    while i < ac.len() && i < bc.len() && ac[i] == bc[i]
        invariant
            i <= ac.len(),
            i <= bc.len(),
            ac@ == a@,
            bc@ == b@,
            lex_lt(a@, b@) == lex_lt(ac@.subrange(i as int, ac.len() as int), bc@.subrange(
                i as int,
                bc.len() as int,
            )),
        decreases ac.len() - i,
    {
        proof {
            let x = ac@.subrange(i as int, ac.len() as int);
            let y = bc@.subrange(i as int, bc.len() as int);
            assert(x.drop_first() =~= ac@.subrange(i + 1, ac.len() as int));
            assert(y.drop_first() =~= bc@.subrange(i + 1, bc.len() as int));
        }
        i += 1;
    }
    if i == bc.len() {
        false
    } else if i == ac.len() {
        true
    } else {
        (ac[i] as u32) < (bc[i] as u32)
    }
}

/// Strictly increasing views.
pub open spec fn strictly_sorted(v: Seq<String>) -> bool {
    forall|i: int, j: int| 0 <= i < j < v.len() ==> lex_lt(#[trigger] v[i]@, #[trigger] v[j]@)
}

/// No two elements share a view.
pub open spec fn distinct_views(v: Seq<String>) -> bool {
    forall|i: int, j: int| 0 <= i < j < v.len() ==> #[trigger] v[i]@ != #[trigger] v[j]@
}

/// The set of views of `v`.
pub open spec fn view_set(v: Seq<String>) -> Set<Seq<char>> {
    Set::new(|s: Seq<char>| exists|i: int| 0 <= i < v.len() && #[trigger] v[i]@ == s)
}

/// `v` sorted in increasing order. The elements must be distinct.
pub fn sort_strings(v: Vec<String>) -> (out: Vec<String>)
    requires
        distinct_views(v@),
    ensures
        out@.len() == v@.len(),
        strictly_sorted(out@),
        view_set(out@) == view_set(v@),
{
    let mut out: Vec<String> = Vec::new();
    let mut i: usize = 0;
    while i < v.len()
        invariant
            i <= v.len(),
            distinct_views(v@),
            out@.len() == i,
            strictly_sorted(out@),
            view_set(out@) == view_set(v@.subrange(0, i as int)),
        decreases v.len() - i,
    {
        let x = v[i].clone();
        let mut p: usize = 0;
        while p < out.len() && less_than(out[p].as_str(), x.as_str())
            invariant
                p <= out.len(),
                x@ == v@[i as int]@,
                forall|q: int| 0 <= q < p ==> lex_lt(#[trigger] out@[q]@, x@),
            decreases out.len() - p,
        {
            p += 1;
        }
        proof {
            assert(!view_set(out@).contains(x@)) by {
                if view_set(out@).contains(x@) {
                    let j = choose|j: int| 0 <= j < i && #[trigger] v@.subrange(0, i as int)[j]@ == x@;
                    assert(v@[j]@ == v@[i as int]@);
                }
            }
            assert forall|q: int| p <= q < out@.len() implies lex_lt(x@, #[trigger] out@[q]@) by {
                lemma_lex_total(x@, out@[p as int]@);
                assert(out@[p as int]@ != x@) by {
                    assert(view_set(out@).contains(out@[p as int]@));
                }
                if q > p {
                    lemma_lex_transitive(x@, out@[p as int]@, out@[q]@);
                }
            }
        }
        let ghost before = out@;
        out.insert(p, x);
        proof {
            assert forall|a: int, b: int| 0 <= a < b < out@.len() implies lex_lt(
                #[trigger] out@[a]@,
                #[trigger] out@[b]@,
            ) by {
                if b < p {
                    assert(out@[a] == before[a] && out@[b] == before[b]);
                } else if b == p {
                    assert(out@[a] == before[a]);
                } else if a == p {
                    assert(out@[b] == before[b - 1]);
                } else if a < p {
                    assert(out@[a] == before[a] && out@[b] == before[b - 1]);
                } else {
                    assert(out@[a] == before[a - 1] && out@[b] == before[b - 1]);
                }
            }
            let next = v@.subrange(0, i + 1);
            assert(view_set(out@) =~= view_set(next)) by {
                assert forall|s: Seq<char>| view_set(out@).contains(s) implies view_set(next).contains(s) by {
                    let j = choose|j: int| 0 <= j < out@.len() && #[trigger] out@[j]@ == s;
                    if j == p {
                        assert(next[i as int]@ == s);
                    } else {
                        let jj = if j < p { j } else { j - 1 };
                        assert(out@[j] == before[jj]);
                        assert(view_set(before).contains(s));
                        let k = choose|k: int| 0 <= k < i && #[trigger] v@.subrange(0, i as int)[k]@ == s;
                        assert(next[k]@ == s);
                    }
                }
                assert forall|s: Seq<char>| view_set(next).contains(s) implies view_set(out@).contains(s) by {
                    let k = choose|k: int| 0 <= k < i + 1 && #[trigger] next[k]@ == s;
                    if k == i {
                        assert(out@[p as int]@ == s);
                    } else {
                        assert(v@.subrange(0, i as int)[k]@ == s);
                        assert(view_set(before).contains(s));
                        let j = choose|j: int| 0 <= j < before.len() && #[trigger] before[j]@ == s;
                        if j < p {
                            assert(out@[j] == before[j]);
                        } else {
                            assert(out@[j + 1] == before[j]);
                        }
                    }
                }
            }
        }
        i += 1;
    }
    assert(v@.subrange(0, v.len() as int) =~= v@);
    out
}

} // verus!
