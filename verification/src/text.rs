use vstd::prelude::*;

verus! {

/// The characters that `char::is_whitespace` accepts: those with the Unicode
/// `White_Space` property.
pub open spec fn spec_is_whitespace(c: char) -> bool {
    ||| ('\u{0009}' <= c && c <= '\u{000D}')
    ||| c == ' '
    ||| c == '\u{0085}'
    ||| c == '\u{00A0}'
    ||| c == '\u{1680}'
    ||| ('\u{2000}' <= c && c <= '\u{200A}')
    ||| c == '\u{2028}'
    ||| c == '\u{2029}'
    ||| c == '\u{202F}'
    ||| c == '\u{205F}'
    ||| c == '\u{3000}'
}

/// Whether `c` is whitespace, as `char::is_whitespace` decides it.
pub fn is_whitespace(c: char) -> (b: bool)
    ensures
        b == spec_is_whitespace(c),
{
    ('\u{0009}' <= c && c <= '\u{000D}') || c == ' ' || c == '\u{0085}' || c == '\u{00A0}' || c
        == '\u{1680}' || ('\u{2000}' <= c && c <= '\u{200A}') || c == '\u{2028}' || c == '\u{2029}'
        || c == '\u{202F}' || c == '\u{205F}' || c == '\u{3000}'
}

/// `s` without its leading whitespace.
pub open spec fn trim_start(s: Seq<char>) -> Seq<char>
    decreases s.len(),
{
    if s.len() > 0 && spec_is_whitespace(s[0]) {
        trim_start(s.drop_first())
    } else {
        s
    }
}

/// `s` without its trailing whitespace.
pub open spec fn trim_end(s: Seq<char>) -> Seq<char>
    decreases s.len(),
{
    if s.len() > 0 && spec_is_whitespace(s.last()) {
        trim_end(s.drop_last())
    } else {
        s
    }
}

/// `s` without leading and trailing whitespace, as `str::trim` gives it.
pub open spec fn trim(s: Seq<char>) -> Seq<char> {
    trim_end(trim_start(s))
}

/// The pieces of `s` between the occurrences of `sep`, as `str::split` with a
/// character gives them: one more piece than there are separators.
pub open spec fn split(s: Seq<char>, sep: char) -> Seq<Seq<char>>
    decreases s.len(),
{
    if s.len() == 0 {
        seq![Seq::<char>::empty()]
    } else {
        let p = split(s.drop_last(), sep);
        if s.last() == sep {
            p.push(Seq::<char>::empty())
        } else {
            p.update(p.len() - 1, p.last().push(s.last()))
        }
    }
}

/// A line without the carriage return of a `"\r\n"` ending.
pub open spec fn strip_cr(l: Seq<char>) -> Seq<char> {
    if l.len() > 0 && l.last() == '\r' {
        l.drop_last()
    } else {
        l
    }
}

/// The lines of `s`, as `str::lines` gives them: split at `'\n'`, a `'\r'`
/// before a `'\n'` dropped, and no empty last line after a final `'\n'`.
pub open spec fn lines(s: Seq<char>) -> Seq<Seq<char>> {
    let p = split(s, '\n');
    let body = p.take(p.len() - 1).map_values(|l: Seq<char>| strip_cr(l));
    if p.last().len() == 0 {
        body
    } else {
        body.push(p.last())
    }
}

/// Splitting always gives at least one piece, as `str::split` does.
pub proof fn lemma_split_nonempty(s: Seq<char>, sep: char)
    ensures
        split(s, sep).len() >= 1,
    decreases s.len(),
{
    if s.len() > 0 {
        lemma_split_nonempty(s.drop_last(), sep);
    }
}

/// The characters of `s`.
pub(crate) fn chars_of(s: &str) -> (v: Vec<char>)
    ensures
        v@ == s@,
{
    let mut v: Vec<char> = Vec::new();
    for c in it: s.chars()
        invariant
            v@ == it.seq().take(it.index() as int),
            it.seq() == s@,
    {
        v.push(c);
        assert(v@ =~= it.seq().take(it.index() + 1));
    }
    assert(v@ =~= s@);
    v
}

/// Append `c` to `s` (`String::push`).
#[verifier::external_body]
pub(crate) fn push_char(s: &mut String, c: char)
    ensures
        final(s)@ == old(s)@.push(c),
{
    s.push(c);
}

/// A string of the characters `v`.
pub(crate) fn string_of(v: &[char]) -> (s: String)
    ensures
        s@ == v@,
{
    let mut s = String::new();
    for i in 0..v.len()
        invariant
            s@ == v@.take(i as int),
    {
        push_char(&mut s, v[i]);
        assert(s@ =~= v@.take(i + 1));
    }
    assert(v@.take(v@.len() as int) =~= v@);
    s
}

pub(crate) proof fn lemma_trim_start_skip(s: Seq<char>, i: int)
    requires
        0 <= i <= s.len(),
        forall|k: int| 0 <= k < i ==> spec_is_whitespace(#[trigger] s[k]),
        i == s.len() || !spec_is_whitespace(s[i]),
    ensures
        trim_start(s) == s.skip(i),
    decreases i,
{
    if i > 0 {
        lemma_trim_start_skip(s.drop_first(), i - 1);
        assert(s.drop_first().skip(i - 1) =~= s.skip(i));
    } else {
        assert(s.skip(0) =~= s);
    }
}

proof fn lemma_trim_end_take(s: Seq<char>, j: int)
    requires
        0 <= j <= s.len(),
        forall|k: int| j <= k < s.len() ==> spec_is_whitespace(#[trigger] s[k]),
        j == 0 || !spec_is_whitespace(s[j - 1]),
    ensures
        trim_end(s) == s.take(j),
    decreases s.len() - j,
{
    if j < s.len() {
        lemma_trim_end_take(s.drop_last(), j);
        assert(s.drop_last().take(j) =~= s.take(j));
    } else {
        assert(s.take(j) =~= s);
    }
}

/// Bounds `(a, b)` such that `v[a..b]` is `v[lo..hi]` trimmed.
pub(crate) fn trim_bounds(v: &Vec<char>, lo: usize, hi: usize) -> (r: (usize, usize))
    requires
        lo <= hi <= v@.len(),
    ensures
        lo <= r.0 <= r.1 <= hi,
        v@.subrange(r.0 as int, r.1 as int) == trim(v@.subrange(lo as int, hi as int)),
{
    let mut a = lo;
    while a < hi && is_whitespace(v[a])
        invariant
            lo <= a <= hi <= v@.len(),
            forall|k: int| lo <= k < a ==> spec_is_whitespace(#[trigger] v@[k]),
        decreases hi - a,
    {
        a = a + 1;
    }
    let mut b = hi;
    while b > a && is_whitespace(v[b - 1])
        invariant
            lo <= a <= b <= hi <= v@.len(),
            forall|k: int| b <= k < hi ==> spec_is_whitespace(#[trigger] v@[k]),
        decreases b - a,
    {
        b = b - 1;
    }
    proof {
        let s = v@.subrange(lo as int, hi as int);
        lemma_trim_start_skip(s, a - lo);
        let t = s.skip(a - lo);
        assert(t =~= v@.subrange(a as int, hi as int));
        lemma_trim_end_take(t, b - a);
        assert(t.take(b - a) =~= v@.subrange(a as int, b as int));
    }
    (a, b)
}

/// The text of `v` that lies between `r.0` and `r.1`.
pub open spec fn range_text(v: Seq<char>, r: (usize, usize)) -> Seq<char> {
    v.subrange(r.0 as int, r.1 as int)
}

/// Ranges of `v[lo..hi]` whose texts are the pieces `split` gives.
pub(crate) fn split_ranges(v: &Vec<char>, lo: usize, hi: usize, sep: char) -> (r: Vec<
    (usize, usize),
>)
    requires
        lo <= hi <= v@.len(),
    ensures
        r@.len() == split(v@.subrange(lo as int, hi as int), sep).len(),
        forall|k: int|
            0 <= k < r@.len() ==> lo <= (#[trigger] r@[k]).0 <= r@[k].1 <= hi && range_text(v@, r@[k])
                == split(v@.subrange(lo as int, hi as int), sep)[k],
{
    let mut ranges: Vec<(usize, usize)> = Vec::new();
    ranges.push((lo, lo));
    let mut i = lo;
    proof {
        assert(v@.subrange(lo as int, lo as int) =~= Seq::<char>::empty());
    }
    while i < hi
        invariant
            lo <= i <= hi <= v@.len(),
            ranges@.len() == split(v@.subrange(lo as int, i as int), sep).len(),
            ranges@.len() >= 1,
            ranges@.last().1 == i,
            forall|k: int|
                0 <= k < ranges@.len() ==> lo <= (#[trigger] ranges@[k]).0 <= ranges@[k].1 <= i
                    && range_text(v@, ranges@[k]) == split(v@.subrange(lo as int, i as int), sep)[k],
        decreases hi - i,
    {
        let ghost prev = ranges@;
        let ghost s1 = v@.subrange(lo as int, i + 1);
        proof {
            assert(s1.drop_last() =~= v@.subrange(lo as int, i as int));
            assert(s1.last() == v@[i as int]);
            lemma_split_nonempty(v@.subrange(lo as int, i as int), sep);
        }
        if v[i] == sep {
            ranges.push((i + 1, i + 1));
            proof {
                assert(v@.subrange(i + 1, i + 1) =~= Seq::<char>::empty());
                assert forall|k: int|
                    0 <= k < ranges@.len() implies lo <= (#[trigger] ranges@[k]).0 <= ranges@[k].1
                        <= i + 1 && range_text(v@, ranges@[k]) == split(s1, sep)[k] by {
                    if k < prev.len() {
                        assert(ranges@[k] == prev[k]);
                    }
                }
            }
        } else {
            let last = ranges.len() - 1;
            let start = ranges[last].0;
            ranges.set(last, (start, i + 1));
            proof {
                assert(v@.subrange(start as int, i + 1) =~= v@.subrange(start as int, i as int).push(
                    v@[i as int],
                ));
                assert forall|k: int|
                    0 <= k < ranges@.len() implies lo <= (#[trigger] ranges@[k]).0 <= ranges@[k].1
                        <= i + 1 && range_text(v@, ranges@[k]) == split(s1, sep)[k] by {
                    if k < last {
                        assert(ranges@[k] == prev[k]);
                    }
                }
            }
        }
        i = i + 1;
    }
    ranges
}

/// Ranges of `v` whose texts are the lines that `lines` gives.
pub(crate) fn line_ranges(v: &Vec<char>) -> (r: Vec<(usize, usize)>)
    ensures
        r@.len() == lines(v@).len(),
        forall|k: int|
            0 <= k < r@.len() ==> (#[trigger] r@[k]).0 <= r@[k].1 <= v@.len() && range_text(v@, r@[k])
                == lines(v@)[k],
{
    let pieces = split_ranges(v, 0, v.len(), '\n');
    let ghost p = split(v@, '\n');
    proof {
        assert(v@.subrange(0, v@.len() as int) =~= v@);
        lemma_split_nonempty(v@, '\n');
    }
    let n = pieces.len();
    let mut out: Vec<(usize, usize)> = Vec::new();
    let mut k: usize = 0;
    while k + 1 < n
        invariant
            n == pieces@.len() == p.len(),
            n >= 1,
            k + 1 <= n,
            out@.len() == k,
            forall|m: int|
                0 <= m < pieces@.len() ==> (#[trigger] pieces@[m]).0 <= pieces@[m].1 <= v@.len()
                    && range_text(v@, pieces@[m]) == p[m],
            forall|m: int|
                0 <= m < k ==> (#[trigger] out@[m]).0 <= out@[m].1 <= v@.len() && range_text(v@, out@[m])
                    == strip_cr(p[m]),
        decreases n - k,
    {
        let (a, b) = pieces[k];
        if b > a && v[b - 1] == '\r' {
            out.push((a, b - 1));
            proof {
                assert(range_text(v@, (a, (b - 1) as usize)) =~= p[k as int].drop_last());
            }
        } else {
            out.push((a, b));
        }
        k = k + 1;
    }
    let (a, b) = pieces[n - 1];
    if b > a {
        out.push((a, b));
    }
    proof {
        let body = p.take(p.len() - 1).map_values(|l: Seq<char>| strip_cr(l));
        if b > a {
            assert(out@ =~= out@.take(k as int).push((a, b)));
        }
        assert forall|m: int| 0 <= m < out@.len() implies (#[trigger] out@[m]).0 <= out@[m].1
            <= v@.len() && range_text(v@, out@[m]) == lines(v@)[m] by {
            if m < k {
                assert(body[m] == strip_cr(p[m]));
            }
        }
    }
    out
}

} // verus!
