use vstd::prelude::*;
use crate::float_text::{float_text_in, is_float_text};
use crate::text::{
    push_char, chars_of, line_ranges, lines, range_text, split, split_ranges, string_of, trim, trim_bounds,
};

verus! {

/// Why an action file could not be read.
#[derive(Debug)]
pub enum Error {
    ParsePointFailed { input: String, reason: String },
    ParseCubicFailed { input: String, reason: String },
    VersionError { input: String },
    ExpectedError { input: char, got: char },
}

/// `Error` with its strings as character sequences.
pub enum ErrorView {
    ParsePointFailed { input: Seq<char>, reason: Seq<char> },
    ParseCubicFailed { input: Seq<char>, reason: Seq<char> },
    VersionError { input: Seq<char> },
    ExpectedError { input: char, got: char },
}

impl View for Error {
    type V = ErrorView;

    open spec fn view(&self) -> ErrorView {
        match self {
            Error::ParsePointFailed { input, reason } => ErrorView::ParsePointFailed {
                input: input@,
                reason: reason@,
            },
            Error::ParseCubicFailed { input, reason } => ErrorView::ParseCubicFailed {
                input: input@,
                reason: reason@,
            },
            Error::VersionError { input } => ErrorView::VersionError { input: input@ },
            Error::ExpectedError { input, got } => ErrorView::ExpectedError {
                input: *input,
                got: *got,
            },
        }
    }
}

/// A control point of a curve. Each coordinate is kept as the text of its
/// number; turning the text into a number is left to the caller.
#[derive(Debug)]
pub struct PointText {
    pub x: String,
    pub y: String,
    pub z: String,
}

impl View for PointText {
    type V = (Seq<char>, Seq<char>, Seq<char>);

    open spec fn view(&self) -> (Seq<char>, Seq<char>, Seq<char>) {
        (self.x@, self.y@, self.z@)
    }
}

/// A Bezier curve of an action: linear through two control points or
/// quadratic ("cubic" in the file format) through three.
#[derive(Debug)]
pub enum Curve {
    Linear(PointText, PointText),
    Cubic(PointText, PointText, PointText),
}

/// `Curve` with its points as character sequences.
pub enum CurveView {
    Linear((Seq<char>, Seq<char>, Seq<char>), (Seq<char>, Seq<char>, Seq<char>)),
    Cubic(
        (Seq<char>, Seq<char>, Seq<char>),
        (Seq<char>, Seq<char>, Seq<char>),
        (Seq<char>, Seq<char>, Seq<char>),
    ),
}

impl View for Curve {
    type V = CurveView;

    open spec fn view(&self) -> CurveView {
        match self {
            Curve::Linear(p0, p1) => CurveView::Linear(p0@, p1@),
            Curve::Cubic(p0, p1, p2) => CurveView::Cubic(p0@, p1@, p2@),
        }
    }
}

/// One part of an action: a curve followed over the whole time of the action.
#[derive(Debug)]
pub struct Part {
    pub curve: Curve,
}

/// The reason given when a point or curve has the wrong number of pieces.
pub open spec fn not_three() -> Seq<char> {
    seq!['l', 'e', 'n', 'g', 't', 'h', ' ', 'w', 'a', 's', ' ', 'n', 'o', 't', ' ', '3']
}

/// The header line of a version 1 action file.
pub open spec fn version_1() -> Seq<char> {
    seq!['v', 'e', 'r', 's', 'i', 'o', 'n', ':', ' ', '1']
}

/// The reason given when the coordinate named `axis` is no number.
pub open spec fn bad_coordinate(axis: char) -> Seq<char> {
    seq!['E', 'r', 'r', 'o', 'r', ' ', 'p', 'a', 'r', 's', 'i', 'n', 'g', ' ', axis]
}

/// What `parse_point` gives for the text `s`: three comma separated
/// coordinates, each trimmed and each a number that `f32` parsing accepts;
/// the first coordinate that is not fails the point.
pub open spec fn spec_parse_point(s: Seq<char>) -> Result<
    (Seq<char>, Seq<char>, Seq<char>),
    ErrorView,
> {
    let d = split(s, ',');
    if d.len() != 3 {
        Err(ErrorView::ParsePointFailed { input: s, reason: not_three() })
    } else if !is_float_text(trim(d[0])) {
        Err(ErrorView::ParsePointFailed { input: s, reason: bad_coordinate('x') })
    } else if !is_float_text(trim(d[1])) {
        Err(ErrorView::ParsePointFailed { input: s, reason: bad_coordinate('y') })
    } else if !is_float_text(trim(d[2])) {
        Err(ErrorView::ParsePointFailed { input: s, reason: bad_coordinate('z') })
    } else {
        Ok((trim(d[0]), trim(d[1]), trim(d[2])))
    }
}

/// What `parse_cubic` gives for the text `s`: three points separated by `|`,
/// the first failing point's error otherwise.
pub open spec fn spec_parse_cubic(s: Seq<char>) -> Result<CurveView, ErrorView> {
    let d = split(s, '|');
    if d.len() != 3 {
        Err(ErrorView::ParseCubicFailed { input: s, reason: not_three() })
    } else {
        match spec_parse_point(d[0]) {
            Err(e) => Err(e),
            Ok(p0) => match spec_parse_point(d[1]) {
                Err(e) => Err(e),
                Ok(p1) => match spec_parse_point(d[2]) {
                    Err(e) => Err(e),
                    Ok(p2) => Ok(CurveView::Cubic(p0, p1, p2)),
                },
            },
        }
    }
}

/// What `parse_v1` gives for the lines `ls`: one curve per line, or the
/// error of the first line that fails.
pub open spec fn spec_parse_v1(ls: Seq<Seq<char>>) -> Result<Seq<CurveView>, ErrorView>
    decreases ls.len(),
{
    if ls.len() == 0 {
        Ok(Seq::empty())
    } else {
        match spec_parse_v1(ls.drop_last()) {
            Err(e) => Err(e),
            Ok(cs) => match spec_parse_cubic(ls.last()) {
                Err(e) => Err(e),
                Ok(c) => Ok(cs.push(c)),
            },
        }
    }
}

/// What `parse` gives for the text `s`: a first line that reads
/// `version: 1` (after trimming) and then one curve per line.
pub open spec fn spec_parse(s: Seq<char>) -> Result<Seq<CurveView>, ErrorView> {
    let ls = lines(s);
    if trim(ls[0]) == version_1() {
        spec_parse_v1(ls.drop_first())
    } else {
        Err(ErrorView::VersionError { input: ls[0] })
    }
}

/// The curves of a list of parts.
pub open spec fn parts_view(ps: Seq<Part>) -> Seq<CurveView> {
    ps.map_values(|p: Part| p.curve@)
}

/// A parts result with its contents as sequences.
pub open spec fn parts_result_view(r: Result<Vec<Part>, Error>) -> Result<
    Seq<CurveView>,
    ErrorView,
> {
    match r {
        Ok(ps) => Ok(parts_view(ps@)),
        Err(e) => Err(e@),
    }
}

pub(crate) fn reason_not_three() -> (s: String)
    ensures
        s@ == not_three(),
{
    let s = String::from_str("length was not 3");
    proof {
        reveal_strlit("length was not 3");
        assert(s@ =~= not_three());
    }
    s
}

fn reason_bad_coordinate(axis: char) -> (s: String)
    ensures
        s@ == bad_coordinate(axis),
{
    let mut s = String::from_str("Error parsing ");
    proof {
        reveal_strlit("Error parsing ");
    }
    push_char(&mut s, axis);
    proof {
        assert(s@ =~= bad_coordinate(axis));
    }
    s
}

pub(crate) fn point_in(v: &Vec<char>, lo: usize, hi: usize) -> (r: Result<PointText, Error>)
    requires
        lo <= hi <= v@.len(),
    ensures
        match r {
            Ok(p) => spec_parse_point(v@.subrange(lo as int, hi as int)) == Ok::<
                (Seq<char>, Seq<char>, Seq<char>),
                ErrorView,
            >(p@),
            Err(e) => spec_parse_point(v@.subrange(lo as int, hi as int)) == Err::<
                (Seq<char>, Seq<char>, Seq<char>),
                ErrorView,
            >(e@),
        },
{
    let d = split_ranges(v, lo, hi, ',');
    if d.len() != 3 {
        let input = string_of(&v.as_slice()[lo..hi]);
        return Err(Error::ParsePointFailed { input, reason: reason_not_three() });
    }
    let (a0, b0) = trim_bounds(v, d[0].0, d[0].1);
    let (a1, b1) = trim_bounds(v, d[1].0, d[1].1);
    let (a2, b2) = trim_bounds(v, d[2].0, d[2].1);
    if !float_text_in(v, a0, b0) {
        let input = string_of(&v.as_slice()[lo..hi]);
        return Err(Error::ParsePointFailed { input, reason: reason_bad_coordinate('x') });
    }
    if !float_text_in(v, a1, b1) {
        let input = string_of(&v.as_slice()[lo..hi]);
        return Err(Error::ParsePointFailed { input, reason: reason_bad_coordinate('y') });
    }
    if !float_text_in(v, a2, b2) {
        let input = string_of(&v.as_slice()[lo..hi]);
        return Err(Error::ParsePointFailed { input, reason: reason_bad_coordinate('z') });
    }
    let x = string_of(&v.as_slice()[a0..b0]);
    let y = string_of(&v.as_slice()[a1..b1]);
    let z = string_of(&v.as_slice()[a2..b2]);
    Ok(PointText { x, y, z })
}

pub(crate) fn cubic_in(v: &Vec<char>, lo: usize, hi: usize) -> (r: Result<Curve, Error>)
    requires
        lo <= hi <= v@.len(),
    ensures
        match r {
            Ok(c) => spec_parse_cubic(v@.subrange(lo as int, hi as int)) == Ok::<
                CurveView,
                ErrorView,
            >(c@),
            Err(e) => spec_parse_cubic(v@.subrange(lo as int, hi as int)) == Err::<
                CurveView,
                ErrorView,
            >(e@),
        },
{
    let d = split_ranges(v, lo, hi, '|');
    if d.len() != 3 {
        let input = string_of(&v.as_slice()[lo..hi]);
        return Err(Error::ParseCubicFailed { input, reason: reason_not_three() });
    }
    let p0 = point_in(v, d[0].0, d[0].1)?;
    let p1 = point_in(v, d[1].0, d[1].1)?;
    let p2 = point_in(v, d[2].0, d[2].1)?;
    Ok(Curve::Cubic(p0, p1, p2))
}

/// Read a point from the text `x, y, z`.
pub fn parse_point(string_data: &str) -> (r: Result<PointText, Error>)
    ensures
        match r {
            Ok(p) => spec_parse_point(string_data@) == Ok::<
                (Seq<char>, Seq<char>, Seq<char>),
                ErrorView,
            >(p@),
            Err(e) => spec_parse_point(string_data@) == Err::<
                (Seq<char>, Seq<char>, Seq<char>),
                ErrorView,
            >(e@),
        },
{
    let v = chars_of(string_data);
    proof {
        assert(v@.subrange(0, v@.len() as int) =~= v@);
    }
    point_in(&v, 0, v.len())
}

/// Read a curve from the text `p0 | p1 | p2`.
pub fn parse_cubic(string_data: &str) -> (r: Result<Curve, Error>)
    ensures
        match r {
            Ok(c) => spec_parse_cubic(string_data@) == Ok::<CurveView, ErrorView>(c@),
            Err(e) => spec_parse_cubic(string_data@) == Err::<CurveView, ErrorView>(e@),
        },
{
    let v = chars_of(string_data);
    proof {
        assert(v@.subrange(0, v@.len() as int) =~= v@);
    }
    cubic_in(&v, 0, v.len())
}

proof fn lemma_v1_error_persists(ls: Seq<Seq<char>>, j: int)
    requires
        0 <= j <= ls.len(),
        spec_parse_v1(ls.take(j)) is Err,
    ensures
        spec_parse_v1(ls) == spec_parse_v1(ls.take(j)),
    decreases ls.len() - j,
{
    if ls.len() == j {
        assert(ls.take(j) =~= ls);
    } else {
        assert(ls.drop_last().take(j) =~= ls.take(j));
        lemma_v1_error_persists(ls.drop_last(), j);
    }
}

/// Read one curve per line, stopping at the first line that fails.
pub fn parse_v1(lines: Vec<&str>) -> (r: Result<Vec<Part>, Error>)
    ensures
        parts_result_view(r) == spec_parse_v1(lines@.map_values(|l: &str| l@)),
{
    let ghost ls = lines@.map_values(|l: &str| l@);
    let mut parts: Vec<Part> = Vec::new();
    proof {
        assert(parts_view(parts@) =~= Seq::<CurveView>::empty());
        assert(ls.take(0).len() == 0);
    }
    let mut i: usize = 0;
    while i < lines.len()
        invariant
            0 <= i <= lines@.len(),
            ls == lines@.map_values(|l: &str| l@),
            spec_parse_v1(ls.take(i as int)) == Ok::<Seq<CurveView>, ErrorView>(parts_view(parts@)),
        decreases lines@.len() - i,
    {
        proof {
            assert(ls.take(i + 1).drop_last() =~= ls.take(i as int));
            assert(ls.take(i + 1).last() == lines@[i as int]@);
        }
        let curve = match parse_cubic(lines[i]) {
            Ok(c) => c,
            Err(e) => {
                proof {
                    lemma_v1_error_persists(ls, i + 1);
                }
                return Err(e);
            },
        };
        let part = Part { curve };
        let ghost prev = parts@;
        parts.push(part);
        proof {
            assert(parts@.drop_last() =~= prev);
            assert(parts_view(parts@) =~= parts_view(prev).push(parts@.last().curve@));
        }
        i = i + 1;
    }
    proof {
        assert(ls.take(lines@.len() as int) =~= ls);
    }
    Ok(parts)
}

/// Whether `v[a..b]` is the text `w`.
fn range_equals(v: &Vec<char>, a: usize, b: usize, w: &Vec<char>) -> (r: bool)
    requires
        a <= b <= v@.len(),
    ensures
        r == (v@.subrange(a as int, b as int) == w@),
{
    if b - a != w.len() {
        return false;
    }
    let mut k: usize = 0;
    while k < w.len()
        invariant
            a <= b <= v@.len(),
            b - a == w@.len(),
            0 <= k <= w@.len(),
            forall|m: int| 0 <= m < k ==> v@[a + m] == w@[m],
        decreases w@.len() - k,
    {
        if v[a + k] != w[k] {
            proof {
                assert(v@.subrange(a as int, b as int)[k as int] != w@[k as int]);
            }
            return false;
        }
        k = k + 1;
    }
    assert(v@.subrange(a as int, b as int) =~= w@);
    true
}

/// The characters of the header line `version: 1`.
fn version_1_chars() -> (w: Vec<char>)
    ensures
        w@ == version_1(),
{
    let w = chars_of("version: 1");
    proof {
        reveal_strlit("version: 1");
        assert(w@ =~= version_1());
    }
    w
}

/// The curves of the lines `ranges[start..]` of `v`.
fn parse_lines_in(v: &Vec<char>, ranges: &Vec<(usize, usize)>, start: usize) -> (r: Result<
    Vec<Part>,
    Error,
>)
    requires
        start <= ranges@.len(),
        forall|k: int|
            0 <= k < ranges@.len() ==> (#[trigger] ranges@[k]).0 <= ranges@[k].1 <= v@.len(),
    ensures
        parts_result_view(r) == spec_parse_v1(
            ranges@.skip(start as int).map_values(|q: (usize, usize)| range_text(v@, q)),
        ),
{
    let ghost ls = ranges@.skip(start as int).map_values(|q: (usize, usize)| range_text(v@, q));
    let mut parts: Vec<Part> = Vec::new();
    proof {
        assert(parts_view(parts@) =~= Seq::<CurveView>::empty());
        assert(ls.take(0).len() == 0);
    }
    let mut i: usize = start;
    while i < ranges.len()
        invariant
            start <= i <= ranges@.len(),
            forall|k: int|
                0 <= k < ranges@.len() ==> (#[trigger] ranges@[k]).0 <= ranges@[k].1 <= v@.len(),
            ls == ranges@.skip(start as int).map_values(|q: (usize, usize)| range_text(v@, q)),
            spec_parse_v1(ls.take(i - start)) == Ok::<Seq<CurveView>, ErrorView>(
                parts_view(parts@),
            ),
        decreases ranges@.len() - i,
    {
        proof {
            assert(ls.take(i - start + 1).drop_last() =~= ls.take(i - start));
            assert(ls.take(i - start + 1).last() == range_text(v@, ranges@[i as int]));
        }
        let curve = match cubic_in(v, ranges[i].0, ranges[i].1) {
            Ok(c) => c,
            Err(e) => {
                proof {
                    lemma_v1_error_persists(ls, i - start + 1);
                }
                return Err(e);
            },
        };
        let part = Part { curve };
        let ghost prev = parts@;
        parts.push(part);
        proof {
            assert(parts@.drop_last() =~= prev);
            assert(parts_view(parts@) =~= parts_view(prev).push(parts@.last().curve@));
        }
        i = i + 1;
    }
    proof {
        assert(ls.take(ranges@.len() - start) =~= ls);
    }
    Ok(parts)
}

/// Read an action file: a first line that reads `version: 1` (surrounding
/// whitespace aside), then one curve per line.
pub fn parse(input: &str) -> (r: Result<Vec<Part>, Error>)
    requires
        lines(input@).len() >= 1,
    ensures
        parts_result_view(r) == spec_parse(input@),
{
    let v = chars_of(input);
    let ranges = line_ranges(&v);
    let (a, b) = trim_bounds(&v, ranges[0].0, ranges[0].1);
    let header = version_1_chars();
    if range_equals(&v, a, b, &header) {
        proof {
            assert(ranges@.skip(1).map_values(|q: (usize, usize)| range_text(v@, q)) =~= lines(
                v@,
            ).drop_first());
        }
        parse_lines_in(&v, &ranges, 1)
    } else {
        let input = string_of(&v.as_slice()[ranges[0].0..ranges[0].1]);
        Err(Error::VersionError { input })
    }
}

} // verus!
