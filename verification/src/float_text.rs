use vstd::prelude::*;
use crate::level::is_digit;

verus! {

/// An exponent mark.
pub open spec fn is_exp_mark(c: char) -> bool {
    c == 'e' || c == 'E'
}

/// `s` spells the lower-case word `w`, each letter in either case.
pub open spec fn spells(s: Seq<char>, w: Seq<char>) -> bool {
    &&& s.len() == w.len()
    &&& forall|i: int| 0 <= i < s.len() ==> s[i] == w[i] || (s[i] as u32) + 32 == (w[i] as u32)
}

/// `Digit+ | Digit+ '.' Digit* | Digit* '.' Digit+`: digits and at most one
/// point, with at least one digit.
pub open spec fn is_decimal(s: Seq<char>) -> bool {
    &&& forall|i: int| 0 <= i < s.len() ==> is_digit(#[trigger] s[i]) || s[i] == '.'
    &&& forall|i: int, j: int| 0 <= i < j < s.len() && s[i] == '.' ==> s[j] != '.'
    &&& exists|i: int| 0 <= i < s.len() && is_digit(#[trigger] s[i])
}

/// `t` without its leading sign, if it has one.
pub open spec fn unsigned(t: Seq<char>) -> Seq<char> {
    if t.len() > 0 && (t[0] == '+' || t[0] == '-') {
        t.drop_first()
    } else {
        t
    }
}

/// `Sign? Digit+`, the part of an exponent after its mark.
pub open spec fn is_exponent(t: Seq<char>) -> bool {
    let u = unsigned(t);
    &&& u.len() > 0
    &&& forall|i: int| 0 <= i < u.len() ==> is_digit(#[trigger] u[i])
}

/// `Decimal Exp?` with `Exp ::= ('e' | 'E') Sign? Digit+`.
pub open spec fn is_number(s: Seq<char>) -> bool {
    ||| (forall|i: int| 0 <= i < s.len() ==> !is_exp_mark(#[trigger] s[i])) && is_decimal(s)
    ||| exists|q: int|
        0 <= q < s.len() && is_exp_mark(#[trigger] s[q]) && is_decimal(s.take(q)) && is_exponent(
            s.skip(q + 1),
        )
}

/// The texts that `str::parse::<f32>` accepts, by the grammar that its
/// documentation gives: an optional sign, then `inf`, `infinity`, `nan` (in
/// any case) or a decimal number with an optional exponent. Whitespace is not
/// accepted anywhere.
pub open spec fn is_float_text(s: Seq<char>) -> bool {
    let u = unsigned(s);
    ||| spells(u, seq!['i', 'n', 'f'])
    ||| spells(u, seq!['i', 'n', 'f', 'i', 'n', 'i', 't', 'y'])
    ||| spells(u, seq!['n', 'a', 'n'])
    ||| is_number(u)
}

fn spells_in(v: &Vec<char>, lo: usize, hi: usize, w: &Vec<char>) -> (b: bool)
    requires
        lo <= hi <= v@.len(),
    ensures
        b == spells(v@.subrange(lo as int, hi as int), w@),
{
    let ghost s = v@.subrange(lo as int, hi as int);
    if hi - lo != w.len() {
        return false;
    }
    let mut i: usize = 0;
    while i < w.len()
        invariant
            hi - lo == w@.len(),
            lo <= hi <= v@.len(),
            s == v@.subrange(lo as int, hi as int),
            0 <= i <= w.len(),
            forall|k: int| 0 <= k < i ==> s[k] == w@[k] || (s[k] as u32) + 32 == (w@[k] as u32),
        decreases w.len() - i,
    {
        let c = v[lo + i];
        let d = w[i];
        assert(s[i as int] == c);
        if !(c == d || ((d as u32) >= 32 && (c as u32) == (d as u32) - 32)) {
            return false;
        }
        i = i + 1;
    }
    true
}

fn decimal_in(v: &Vec<char>, lo: usize, hi: usize) -> (b: bool)
    requires
        lo <= hi <= v@.len(),
    ensures
        b == is_decimal(v@.subrange(lo as int, hi as int)),
{
    let ghost s = v@.subrange(lo as int, hi as int);
    let mut i = lo;
    let mut dot = false;
    let mut digit = false;
    while i < hi
        invariant
            lo <= i <= hi <= v@.len(),
            s == v@.subrange(lo as int, hi as int),
            forall|k: int| 0 <= k < i - lo ==> is_digit(#[trigger] s[k]) || s[k] == '.',
            forall|k: int, j: int| 0 <= k < j < i - lo && s[k] == '.' ==> s[j] != '.',
            dot <==> exists|k: int| 0 <= k < i - lo && #[trigger] s[k] == '.',
            digit <==> exists|k: int| 0 <= k < i - lo && is_digit(#[trigger] s[k]),
        decreases hi - i,
    {
        let c = v[i];
        assert(s[i - lo] == c);
        if c == '.' {
            if dot {
                let ghost k = choose|k: int| 0 <= k < i - lo && #[trigger] s[k] == '.';
                assert(!(forall|k: int, j: int| 0 <= k < j < s.len() && s[k] == '.' ==> s[j] != '.'));
                return false;
            }
            dot = true;
        } else if '0' <= c && c <= '9' {
            digit = true;
        } else {
            assert(!is_digit(s[i - lo]) && s[i - lo] != '.');
            return false;
        }
        i = i + 1;
    }
    digit
}

fn exponent_in(v: &Vec<char>, lo: usize, hi: usize) -> (b: bool)
    requires
        lo <= hi <= v@.len(),
    ensures
        b == is_exponent(v@.subrange(lo as int, hi as int)),
{
    let ghost t = v@.subrange(lo as int, hi as int);
    let mut start = lo;
    if lo < hi && (v[lo] == '+' || v[lo] == '-') {
        start = lo + 1;
    }
    let ghost u = v@.subrange(start as int, hi as int);
    assert(u =~= unsigned(t));
    if start == hi {
        return false;
    }
    let mut i = start;
    while i < hi
        invariant
            lo <= start <= i <= hi <= v@.len(),
            u == v@.subrange(start as int, hi as int),
            t == v@.subrange(lo as int, hi as int),
            u == unsigned(t),
            forall|k: int| 0 <= k < i - start ==> is_digit(#[trigger] u[k]),
        decreases hi - i,
    {
        assert(u[i - start] == v@[i as int]);
        if !('0' <= v[i] && v[i] <= '9') {
            assert(!is_digit(u[i - start]));
            return false;
        }
        i = i + 1;
    }
    true
}

fn number_in(v: &Vec<char>, lo: usize, hi: usize) -> (b: bool)
    requires
        lo <= hi <= v@.len(),
    ensures
        b == is_number(v@.subrange(lo as int, hi as int)),
{
    let ghost s = v@.subrange(lo as int, hi as int);
    let mut q = lo;
    while q < hi && !(v[q] == 'e' || v[q] == 'E')
        invariant
            lo <= q <= hi <= v@.len(),
            s == v@.subrange(lo as int, hi as int),
            forall|k: int| 0 <= k < q - lo ==> !is_exp_mark(#[trigger] s[k]),
        decreases hi - q,
    {
        assert(s[q - lo] == v@[q as int]);
        q = q + 1;
    }
    if q == hi {
        let b = decimal_in(v, lo, hi);
        proof {
            if exists|p: int|
                0 <= p < s.len() && is_exp_mark(#[trigger] s[p]) && is_decimal(s.take(p))
                    && is_exponent(s.skip(p + 1)) {
                let p = choose|p: int|
                    0 <= p < s.len() && is_exp_mark(#[trigger] s[p]) && is_decimal(s.take(p))
                        && is_exponent(s.skip(p + 1));
                assert(!is_exp_mark(s[p]));
            }
        }
        b
    } else {
        let ghost qq = q - lo;
        assert(s[qq] == v@[q as int]);
        assert(s.take(qq) =~= v@.subrange(lo as int, q as int));
        assert(s.skip(qq + 1) =~= v@.subrange(q + 1, hi as int));
        let d = decimal_in(v, lo, q);
        let e = exponent_in(v, q + 1, hi);
        proof {
            if d && e {
                assert(is_exp_mark(s[qq]));
            } else {
                if exists|p: int|
                    0 <= p < s.len() && is_exp_mark(#[trigger] s[p]) && is_decimal(s.take(p))
                        && is_exponent(s.skip(p + 1)) {
                    let p = choose|p: int|
                        0 <= p < s.len() && is_exp_mark(#[trigger] s[p]) && is_decimal(s.take(p))
                            && is_exponent(s.skip(p + 1));
                    if p < qq {
                        assert(!is_exp_mark(s[p]));
                    } else if p > qq {
                        assert(s.take(p)[qq] == s[qq]);
                        assert(!(is_digit(s.take(p)[qq]) || s.take(p)[qq] == '.'));
                    }
                }
            }
            assert(!(forall|i: int| 0 <= i < s.len() ==> !is_exp_mark(#[trigger] s[i])));
        }
        d && e
    }
}

/// Whether `v[lo..hi]` is a number that `str::parse::<f32>` accepts (see
/// `is_float_text`).
pub(crate) fn float_text_in(v: &Vec<char>, lo: usize, hi: usize) -> (b: bool)
    requires
        lo <= hi <= v@.len(),
    ensures
        b == is_float_text(v@.subrange(lo as int, hi as int)),
{
    let ghost s = v@.subrange(lo as int, hi as int);
    let mut start = lo;
    if lo < hi && (v[lo] == '+' || v[lo] == '-') {
        start = lo + 1;
    }
    assert(v@.subrange(start as int, hi as int) =~= unsigned(s));
    let inf = vec!['i', 'n', 'f'];
    let infinity = vec!['i', 'n', 'f', 'i', 'n', 'i', 't', 'y'];
    let nan = vec!['n', 'a', 'n'];
    proof {
        assert(inf@ =~= seq!['i', 'n', 'f']);
        assert(infinity@ =~= seq!['i', 'n', 'f', 'i', 'n', 'i', 't', 'y']);
        assert(nan@ =~= seq!['n', 'a', 'n']);
    }
    spells_in(v, start, hi, &inf) || spells_in(v, start, hi, &infinity) || spells_in(
        v,
        start,
        hi,
        &nan,
    ) || number_in(v, start, hi)
}

} // verus!
