use vstd::prelude::*;
use crate::action_loader::{
    cubic_in, not_three, spec_parse_cubic, spec_parse_point, version_1, CurveView, Curve, Error,
    ErrorView, Part, parts_result_view, parts_view, point_in, reason_not_three,
};
use crate::text::{is_whitespace, lemma_trim_start_skip, push_char, spec_is_whitespace, trim_start, chars_of, split, split_ranges, string_of};

verus! {

/// Index of the first character of `s` at or after `k` that differs from the
/// expected text `e` (running past the end of `s` counts as a difference), or
/// `e.len()` when `s` starts with `e`.
pub open spec fn mismatch_from(s: Seq<char>, e: Seq<char>, k: int) -> int
    decreases e.len() - k,
{
    if k >= e.len() {
        e.len() as int
    } else if k >= s.len() || s[k] != e[k] {
        k
    } else {
        mismatch_from(s, e, k + 1)
    }
}

/// What expecting a fixed text does to the remaining input.
pub enum ExpectStep {
    /// The text was there; the input after it.
    Matched(Seq<char>),
    /// The text was not there; the error and the input left after it.
    Failed(ErrorView, Seq<char>),
    /// The input ended before the text was complete.
    Panics,
}

/// Expecting `e` at the start of `s`: on a difference at position `k` the
/// differing character has been read, and the error names the expected
/// character and the one found instead. Input that ends before `e` is
/// complete leaves no character to name.
pub open spec fn spec_expect(s: Seq<char>, e: Seq<char>) -> ExpectStep {
    let k = mismatch_from(s, e, 0);
    if k >= e.len() {
        ExpectStep::Matched(s.skip(e.len() as int))
    } else if k < s.len() {
        ExpectStep::Failed(ErrorView::ExpectedError { input: e[k], got: s[k] }, s.skip(k + 1))
    } else {
        ExpectStep::Panics
    }
}

/// Index of the first `'\n'` of `s`, or its length.
pub open spec fn line_end(s: Seq<char>) -> int
    decreases s.len(),
{
    if s.len() == 0 {
        0
    } else if s[0] == '\n' {
        0
    } else {
        1 + line_end(s.drop_first())
    }
}

/// The word that starts a part.
pub open spec fn part_word() -> Seq<char> {
    seq!['p', 'a', 'r', 't']
}

/// The reason given when a linear curve has the wrong number of points.
pub open spec fn not_two() -> Seq<char> {
    seq!['l', 'e', 'n', 'g', 't', 'h', ' ', 'w', 'a', 's', ' ', 'n', 'o', 't', ' ', '2']
}

/// The reason given when a curve line starts with neither `c:` nor `l:`.
pub open spec fn unknown_curve() -> Seq<char> {
    seq!['u', 'n', 'k', 'n', 'o', 'w', 'n', ' ', 'c', 'u', 'r', 'v', 'e']
}

/// What a linear curve line `p0 | p1` gives.
pub open spec fn spec_parse_linear(s: Seq<char>) -> Result<CurveView, ErrorView> {
    let d = split(s, '|');
    if d.len() != 2 {
        Err(ErrorView::ParseCubicFailed { input: s, reason: not_two() })
    } else {
        match spec_parse_point(d[0]) {
            Err(e) => Err(e),
            Ok(p0) => match spec_parse_point(d[1]) {
                Err(e) => Err(e),
                Ok(p1) => Ok(CurveView::Linear(p0, p1)),
            },
        }
    }
}

/// What a part gives: nothing when only whitespace is left; else, after
/// leading whitespace, a line that starts with `c:` followed by a cubic
/// curve or with `l:` followed by a linear one.
pub open spec fn spec_parse_part(s: Seq<char>) -> Result<Option<CurveView>, ErrorView> {
    let r = trim_start(s);
    let line = r.take(line_end(r));
    if r.len() == 0 {
        Ok(None)
    } else if line.len() >= 2 && line[0] == 'c' && line[1] == ':' {
        match spec_parse_cubic(line.skip(2)) {
            Ok(c) => Ok(Some(c)),
            Err(e) => Err(e),
        }
    } else if line.len() >= 2 && line[0] == 'l' && line[1] == ':' {
        match spec_parse_linear(line.skip(2)) {
            Ok(c) => Ok(Some(c)),
            Err(e) => Err(e),
        }
    } else {
        Err(ErrorView::ParseCubicFailed { input: line, reason: unknown_curve() })
    }
}

/// How `ActionParser::parse` ends on the input `s`.
pub enum ParseOutcome {
    Done(Result<Seq<CurveView>, ErrorView>),
    Panics,
}

/// What `ActionParser::parse` does with the input `s`: nothing on empty
/// input; else, after whitespace, the header `version: 1`, whitespace, the
/// word `part`, and one part, if anything but whitespace follows.
pub open spec fn spec_parser_parse(s: Seq<char>) -> ParseOutcome {
    if s.len() == 0 {
        ParseOutcome::Done(Ok(Seq::empty()))
    } else {
        match spec_expect(trim_start(s), version_1()) {
            ExpectStep::Panics => ParseOutcome::Panics,
            ExpectStep::Failed(e, _) => ParseOutcome::Done(Err(e)),
            ExpectStep::Matched(r2) => match spec_expect(trim_start(r2), part_word()) {
                ExpectStep::Panics => ParseOutcome::Panics,
                ExpectStep::Failed(e, _) => ParseOutcome::Done(Err(e)),
                ExpectStep::Matched(r4) => match spec_parse_part(r4) {
                    Err(e) => ParseOutcome::Done(Err(e)),
                    Ok(None) => ParseOutcome::Done(Ok(Seq::empty())),
                    Ok(Some(c)) => ParseOutcome::Done(Ok(seq![c])),
                },
            },
        }
    }
}

proof fn lemma_mismatch_skip(s: Seq<char>, e: Seq<char>, k: int)
    requires
        0 <= k <= e.len(),
        k <= s.len(),
        forall|m: int| 0 <= m < k ==> s[m] == e[m],
    ensures
        mismatch_from(s, e, 0) == mismatch_from(s, e, k),
    decreases k,
{
    if k > 0 {
        lemma_mismatch_skip(s, e, k - 1);
    }
}

proof fn lemma_line_end(s: Seq<char>, n: int)
    requires
        0 <= n <= s.len(),
        forall|m: int| 0 <= m < n ==> s[m] != '\n',
        n == s.len() || s[n] == '\n',
    ensures
        line_end(s) == n,
    decreases n,
{
    if n > 0 {
        lemma_line_end(s.drop_first(), n - 1);
    }
}

fn reason_not_two() -> (s: String)
    ensures
        s@ == not_two(),
{
    let s = String::from_str("length was not 2");
    proof {
        reveal_strlit("length was not 2");
        assert(s@ =~= not_two());
    }
    s
}

fn reason_unknown_curve() -> (s: String)
    ensures
        s@ == unknown_curve(),
{
    let s = String::from_str("unknown curve");
    proof {
        reveal_strlit("unknown curve");
        assert(s@ =~= unknown_curve());
    }
    s
}

fn linear_in(v: &Vec<char>, lo: usize, hi: usize) -> (r: Result<Curve, Error>)
    requires
        lo <= hi <= v@.len(),
    ensures
        match r {
            Ok(c) => spec_parse_linear(v@.subrange(lo as int, hi as int)) == Ok::<
                CurveView,
                ErrorView,
            >(c@),
            Err(e) => spec_parse_linear(v@.subrange(lo as int, hi as int)) == Err::<
                CurveView,
                ErrorView,
            >(e@),
        },
{
    let d = split_ranges(v, lo, hi, '|');
    if d.len() != 2 {
        let input = string_of(&v.as_slice()[lo..hi]);
        return Err(Error::ParseCubicFailed { input, reason: reason_not_two() });
    }
    let p0 = point_in(v, d[0].0, d[0].1)?;
    let p1 = point_in(v, d[1].0, d[1].1)?;
    Ok(Curve::Linear(p0, p1))
}

/// A reader over the text of an action file.
pub struct ActionParser {
    chars: Vec<char>,
    pos: usize,
}

impl ActionParser {
    #[verifier::type_invariant]
    spec fn wf(&self) -> bool {
        self.pos <= self.chars@.len()
    }

    /// The input not yet read.
    pub closed spec fn rest(&self) -> Seq<char> {
        self.chars@.skip(self.pos as int)
    }

    /// A reader at the start of `data`.
    pub fn new(data: &str) -> (p: ActionParser)
        ensures
            p.rest() == data@,
    {
        let chars = chars_of(data);
        let p = ActionParser { chars, pos: 0 };
        assert(p.rest() =~= data@);
        p
    }

    /// Read the text `expected`. On a difference the differing character has
    /// been read, and the error names the expected character and the one
    /// found.
    fn expect_string(&mut self, expected: &str) -> (r: Result<String, Error>)
        requires
            !(spec_expect(old(self).rest(), expected@) is Panics),
        ensures
            match spec_expect(old(self).rest(), expected@) {
                ExpectStep::Matched(rest) => r matches Ok(s) && s@ == expected@ && final(self).rest()
                    == rest,
                ExpectStep::Failed(e, rest) => r matches Err(err) && err@ == e && final(self).rest()
                    == rest,
                ExpectStep::Panics => false,
            },
    {
        proof {
            use_type_invariant(&*self);
        }
        let ghost s = self.rest();
        let e = chars_of(expected);
        let mut parsed = String::new();
        let mut k: usize = 0;
        let ghost p0 = self.pos;
        while k < e.len()
            invariant
                self.pos <= self.chars@.len(),
                s == self.chars@.skip(p0 as int),
                s == old(self).rest(),
                e@ == expected@,
                0 <= k <= e@.len(),
                self.pos == p0 + k,
                forall|m: int| 0 <= m < k ==> s[m] == e@[m],
                parsed@ == e@.take(k as int),
                !(spec_expect(s, expected@) is Panics),
            decreases e@.len() - k,
        {
            if self.pos < self.chars.len() && self.chars[self.pos] == e[k] {
                self.pos = self.pos + 1;
                push_char(&mut parsed, e[k]);
                assert(parsed@ =~= e@.take(k + 1));
                k = k + 1;
            } else {
                proof {
                    lemma_mismatch_skip(s, e@, k as int);
                    assert(mismatch_from(s, e@, k as int) == k);
                }
                let got = self.chars[self.pos];
                self.pos = self.pos + 1;
                proof {
                    assert(self.chars@.skip(self.pos as int) =~= s.skip(k + 1));
                    assert(s[k as int] == got);
                    assert(e@[k as int] == expected@[k as int]);
                    assert(mismatch_from(s, expected@, 0) == k);
                }
                return Err(Error::ExpectedError { input: e[k], got });
            }
        }
        proof {
            lemma_mismatch_skip(s, e@, k as int);
            assert(parsed@ =~= e@);
            assert(self.chars@.skip(self.pos as int) =~= s.skip(e@.len() as int));
        }
        Ok(parsed)
    }

    /// Read characters while `condition` holds of them, and return them.
    fn consume_while<F>(&mut self, condition: F) -> (r: String) where F: Fn(char) -> bool
        requires
            forall|c: char| condition.requires((c,)),
        ensures
            r@.len() <= old(self).rest().len(),
            r@ == old(self).rest().take(r@.len() as int),
            final(self).rest() == old(self).rest().skip(r@.len() as int),
            forall|i: int| 0 <= i < r@.len() ==> condition.ensures((old(self).rest()[i],), true),
            r@.len() == old(self).rest().len() || condition.ensures(
                (old(self).rest()[r@.len() as int],),
                false,
            ),
    {
        proof {
            use_type_invariant(&*self);
        }
        let ghost s = self.rest();
        let ghost p0 = self.pos;
        let mut result = String::new();
        while self.pos < self.chars.len() && condition(self.chars[self.pos])
            invariant
                p0 <= self.pos <= self.chars@.len(),
                s == self.chars@.skip(p0 as int),
                forall|c: char| condition.requires((c,)),
                result@ == s.take(self.pos - p0),
                forall|i: int| 0 <= i < self.pos - p0 ==> condition.ensures((s[i],), true),
            decreases self.chars@.len() - self.pos,
        {
            let c = self.chars[self.pos];
            push_char(&mut result, c);
            self.pos = self.pos + 1;
            assert(result@ =~= s.take(self.pos - p0));
        }
        assert(self.chars@.skip(self.pos as int) =~= s.skip(self.pos - p0));
        result
    }

    /// Read and return all of the remaining input.
    fn rest_of_input(&mut self) -> (r: String)
        ensures
            r@ == old(self).rest(),
            final(self).rest() == Seq::<char>::empty(),
    {
        proof {
            use_type_invariant(&*self);
        }
        let ghost s = self.rest();
        let ghost p0 = self.pos;
        let mut result = String::new();
        while self.pos < self.chars.len()
            invariant
                p0 <= self.pos <= self.chars@.len(),
                s == self.chars@.skip(p0 as int),
                result@ == s.take(self.pos - p0),
            decreases self.chars@.len() - self.pos,
        {
            let c = self.chars[self.pos];
            push_char(&mut result, c);
            self.pos = self.pos + 1;
            assert(result@ =~= s.take(self.pos - p0));
        }
        assert(result@ =~= s);
        assert(self.chars@.skip(self.pos as int) =~= Seq::<char>::empty());
        result
    }

    /// Read one part: nothing if only whitespace is left; else, after
    /// whitespace, a line that starts with `c:` and holds a cubic curve or
    /// with `l:` and holds a linear one.
    fn parse_part(&mut self) -> (r: Result<Option<Part>, Error>)
        ensures
            match r {
                Ok(None) => spec_parse_part(old(self).rest()) == Ok::<Option<CurveView>, ErrorView>(
                    None,
                ),
                Ok(Some(p)) => spec_parse_part(old(self).rest()) == Ok::<
                    Option<CurveView>,
                    ErrorView,
                >(Some(p.curve@)),
                Err(e) => spec_parse_part(old(self).rest()) == Err::<Option<CurveView>, ErrorView>(
                    e@,
                ),
            },
    {
        let ghost s = old(self).rest();
        self.skip_whitespace();
        proof {
            use_type_invariant(&*self);
        }
        let ghost t = self.rest();
        if self.pos == self.chars.len() {
            assert(t =~= Seq::<char>::empty());
            return Ok(None);
        }
        let start = self.pos;
        let mut end = start;
        while end < self.chars.len() && self.chars[end] != '\n'
            invariant
                start <= end <= self.chars@.len(),
                t == self.chars@.skip(start as int),
                forall|m: int| start <= m < end ==> self.chars@[m] != '\n',
            decreases self.chars@.len() - end,
        {
            end = end + 1;
        }
        proof {
            lemma_line_end(t, end - start);
            assert(t.take(end - start) =~= self.chars@.subrange(start as int, end as int));
            if end - start >= 2 {
                assert(t.take(end - start).skip(2) =~= self.chars@.subrange(
                    start + 2,
                    end as int,
                ));
            }
        }
        if end - start >= 2 && self.chars[start] == 'c' && self.chars[start + 1] == ':' {
            let curve = cubic_in(&self.chars, start + 2, end)?;
            self.pos = end;
            Ok(Some(Part { curve }))
        } else if end - start >= 2 && self.chars[start] == 'l' && self.chars[start + 1] == ':' {
            let curve = linear_in(&self.chars, start + 2, end)?;
            self.pos = end;
            Ok(Some(Part { curve }))
        } else {
            let input = string_of(&self.chars.as_slice()[start..end]);
            self.pos = end;
            Err(Error::ParseCubicFailed { input, reason: reason_unknown_curve() })
        }
    }

    /// Read an action: on empty input no parts; otherwise, after whitespace,
    /// the header `version: 1`, whitespace, the word `part`, and one part.
    pub fn parse(&mut self) -> (r: Result<Vec<Part>, Error>)
        requires
            !(spec_parser_parse(old(self).rest()) is Panics),
        ensures
            spec_parser_parse(old(self).rest()) == ParseOutcome::Done(parts_result_view(r)),
    {
        proof {
            use_type_invariant(&*self);
        }
        let mut parts: Vec<Part> = Vec::new();
        if self.pos < self.chars.len() {
            self.skip_whitespace();
            let header = String::from_str("version: 1");
            proof {
                reveal_strlit("version: 1");
                assert(header@ =~= version_1());
            }
            self.expect_string(header.as_str())?;
            self.skip_whitespace();
            let word = String::from_str("part");
            proof {
                reveal_strlit("part");
                assert(word@ =~= part_word());
            }
            self.expect_string(word.as_str())?;
            match self.parse_part()? {
                Some(part) => {
                    parts.push(part);
                    proof {
                        assert(parts_view(parts@) =~= seq![parts@[0].curve@]);
                    }
                },
                None => {
                    proof {
                        assert(parts_view(parts@) =~= Seq::<CurveView>::empty());
                    }
                },
            }
            self.skip_whitespace();
            return Ok(parts);
        }
        proof {
            assert(parts_view(parts@) =~= Seq::<CurveView>::empty());
        }
        Ok(parts)
    }

    /// Skip whitespace.
    fn skip_whitespace(&mut self)
        ensures
            final(self).rest() == trim_start(old(self).rest()),
    {
        let ghost s = self.rest();
        let ws = |c: char| -> (b: bool)
            ensures
                b == spec_is_whitespace(c),
            { is_whitespace(c) };
        let skipped = self.consume_while(ws);
        proof {
            let n = skipped@.len() as int;
            assert forall|k: int| 0 <= k < n implies spec_is_whitespace(#[trigger] s[k]) by {
                assert(ws.ensures((s[k],), true));
            }
            if n < s.len() {
                assert(ws.ensures((s[n],), false));
            }
            lemma_trim_start_skip(s, n);
        }
    }
}

} // verus!
