//! Character-level helpers shared by the parsers, each with an exact contract.

use vstd::prelude::*;
use vstd::std_specs::iter::IteratorSpec;

verus! {

/// True when `p` is a prefix of `s`.
pub open spec fn has_prefix(s: Seq<char>, p: Seq<char>) -> bool {
    p.len() <= s.len() && s.take(p.len() as int) == p
}

/// The pieces of `s` between occurrences of `d`, in order; never empty
/// (the empty text is one empty piece).
pub open spec fn split_on(s: Seq<char>, d: char) -> Seq<Seq<char>>
    decreases s.len(),
{
    if s.len() == 0 {
        seq![Seq::empty()]
    } else {
        let pieces = split_on(s.drop_last(), d);
        if s.last() == d {
            pieces.push(Seq::empty())
        } else {
            pieces.update(pieces.len() - 1, pieces.last().push(s.last()))
        }
    }
}

/// The texts that `spans` mark out in `cs`, each from its start up to its end.
pub open spec fn spans_text(cs: Seq<char>, spans: Seq<(usize, usize)>) -> Seq<Seq<char>> {
    spans.map_values(|p: (usize, usize)| cs.subrange(p.0 as int, p.1 as int))
}

/// The positions in `cs` of the pieces of `cs` after `from` between
/// occurrences of `d`.
pub fn split_spans(cs: &Vec<char>, from: usize, d: char) -> (r: Vec<(usize, usize)>)
    requires
        from <= cs.len(),
    ensures
        spans_text(cs@, r@) == split_on(cs@.skip(from as int), d),
        forall|k: int| 0 <= k < r.len() ==> from <= #[trigger] r@[k].0 <= r@[k].1 <= cs.len(),
{
    let mut spans: Vec<(usize, usize)> = Vec::new();
    let mut start: usize = from;
    let mut i: usize = from;
    assert(cs@.subrange(from as int, from as int) =~= Seq::<char>::empty());
    assert(spans_text(cs@, spans@).push(cs@.subrange(start as int, i as int)) =~= seq![
        Seq::<char>::empty(),
    ]);
    while i < cs.len()
        invariant
            from <= start <= i <= cs.len(),
            forall|k: int|
                0 <= k < spans.len() ==> from <= #[trigger] spans@[k].0 <= spans@[k].1 <= cs.len(),
            spans_text(cs@, spans@).push(cs@.subrange(start as int, i as int)) == split_on(
                cs@.subrange(from as int, i as int),
                d,
            ),
        decreases cs.len() - i,
    {
        let ghost t = cs@.subrange(from as int, i + 1);
        let ghost before = spans_text(cs@, spans@).push(cs@.subrange(start as int, i as int));
        assert(t.drop_last() =~= cs@.subrange(from as int, i as int));
        assert(t.last() == cs@[i as int]);
        if cs[i] == d {
            let ghost old_spans = spans@;
            spans.push((start, i));
            assert(spans_text(cs@, spans@) =~= spans_text(cs@, old_spans).push(
                cs@.subrange(start as int, i as int),
            ));
            start = i + 1;
            assert(cs@.subrange(start as int, start as int) =~= Seq::<char>::empty());
            assert(spans_text(cs@, spans@).push(cs@.subrange(start as int, i + 1)) =~= before.push(
                Seq::empty(),
            ));
        } else {
            assert(cs@.subrange(start as int, i + 1) =~= cs@.subrange(start as int, i as int).push(
                cs@[i as int],
            ));
            assert(spans_text(cs@, spans@).push(cs@.subrange(start as int, i + 1)) =~= before.update(
                before.len() - 1,
                before.last().push(cs@[i as int]),
            ));
        }
        i += 1;
    }
    let ghost old_spans = spans@;
    spans.push((start, cs.len()));
    assert(spans_text(cs@, spans@) =~= spans_text(cs@, old_spans).push(
        cs@.subrange(start as int, i as int),
    ));
    assert(cs@.subrange(from as int, cs.len() as int) =~= cs@.skip(from as int));
    spans
}

/// The characters of `s`.
pub fn chars_of(s: &str) -> (r: Vec<char>)
    ensures
        r@ == s@,
{
    broadcast use vstd::string::group_string_axioms;

    let mut r: Vec<char> = Vec::new();
    let mut it = s.chars();
    loop
        invariant
            r@ + it.remaining() == s@,
            it.decrease() is Some,
        ensures
            r@ == s@,
        decreases it.decrease()->0,
    {
        match it.next() {
            Some(c) => {
                r.push(c);
            }
            None => {
                assert(r@ =~= r@ + it.remaining());
                break;
            }
        }
    }
    r
}

/// Whether the characters of `cs` from `start` up to `end` spell `lit`.
pub fn span_is(cs: &Vec<char>, start: usize, end: usize, lit: &str) -> (r: bool)
    requires
        start <= end <= cs.len(),
    ensures
        r == (cs@.subrange(start as int, end as int) == lit@),
{
    let l = chars_of(lit);
    if end - start != l.len() {
        return false;
    }
    let mut i: usize = 0;
    while i < l.len()
        invariant
            start <= end <= cs.len(),
            end - start == l.len(),
            l@ == lit@,
            i <= l.len(),
            forall|j: int| 0 <= j < i ==> cs@[start + j] == l@[j],
        decreases l.len() - i,
    {
        if cs[start + i] != l[i] {
            assert(cs@.subrange(start as int, end as int)[i as int] != lit@[i as int]);
            return false;
        }
        i += 1;
    }
    assert(cs@.subrange(start as int, end as int) =~= lit@);
    true
}

/// Whether `cs` begins with `lit`.
pub fn starts_with(cs: &Vec<char>, lit: &str) -> (r: bool)
    ensures
        r == has_prefix(cs@, lit@),
{
    let n = lit.unicode_len();
    if n > cs.len() {
        false
    } else {
        assert(cs@.take(n as int) =~= cs@.subrange(0, n as int));
        span_is(cs, 0, n, lit)
    }
}

/// An ASCII decimal digit.
pub open spec fn is_digit(c: char) -> bool {
    '0' <= c <= '9'
}

/// The value of the decimal digit `c`.
pub open spec fn digit_value(c: char) -> nat {
    (c as u32 - '0' as u32) as nat
}

/// Every character of `d` is a decimal digit.
pub open spec fn all_digits(d: Seq<char>) -> bool {
    forall|i: int| 0 <= i < d.len() ==> is_digit(#[trigger] d[i])
}

/// `s` without one leading `+`, if it has one.
pub open spec fn without_plus(s: Seq<char>) -> Seq<char> {
    if s.len() > 0 && s[0] == '+' {
        s.drop_first()
    } else {
        s
    }
}

/// The number that the decimal digits `d` denote.
pub open spec fn digits_value(d: Seq<char>) -> nat
    decreases d.len(),
{
    if d.len() == 0 {
        0
    } else {
        digits_value(d.drop_last()) * 10 + digit_value(d.last())
    }
}

/// The text of an unsigned 64-bit decimal number: an optional `+`, then one
/// or more ASCII digits whose value fits in 64 bits.
pub open spec fn parsed_u64(s: Seq<char>) -> Option<u64> {
    let d = without_plus(s);
    if d.len() > 0 && all_digits(d) && digits_value(d) <= u64::MAX {
        Some(digits_value(d) as u64)
    } else {
        None
    }
}

/// Reads `s` as an unsigned 64-bit decimal number.
pub fn parse_u64(s: &str) -> (r: Option<u64>)
    ensures
        r == parsed_u64(s@),
{
    let cs = chars_of(s);
    let mut start: usize = 0;
    if cs.len() > 0 && cs[0] == '+' {
        start = 1;
    }
    let ghost d = cs@.skip(start as int);
    assert(d == without_plus(s@));
    if start == cs.len() {
        return None;
    }
    let mut i: usize = start;
    let mut acc: u64 = 0;
    let mut big = false;
    while i < cs.len()
        invariant
            start <= i <= cs.len(),
            cs@ == s@,
            d == cs@.skip(start as int),
            d == without_plus(s@),
            forall|j: int| start <= j < i ==> is_digit(#[trigger] cs@[j]),
            !big ==> acc == digits_value(cs@.subrange(start as int, i as int)),
            big ==> digits_value(cs@.subrange(start as int, i as int)) > u64::MAX,
        decreases cs.len() - i,
    {
        let c = cs[i];
        if !('0' <= c && c <= '9') {
            assert(!is_digit(d[i - start]));
            return None;
        }
        let dv = (c as u32 - '0' as u32) as u64;
        assert(cs@.subrange(start as int, i + 1).drop_last() =~= cs@.subrange(
            start as int,
            i as int,
        ));
        if !big {
            match acc.checked_mul(10) {
                Some(m) => match m.checked_add(dv) {
                    Some(v) => {
                        acc = v;
                    },
                    None => {
                        big = true;
                    },
                },
                None => {
                    big = true;
                },
            }
        }
        i += 1;
    }
    assert(cs@.subrange(start as int, cs.len() as int) =~= d);
    if big {
        None
    } else {
        Some(acc)
    }
}

} // verus!
