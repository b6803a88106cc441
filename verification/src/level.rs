use vstd::prelude::*;
use crate::text::{chars_of, line_ranges, lines, range_text, trim, trim_bounds};

verus! {

/// A level: a grid of cell codes, one digit per cell, row after row.
#[derive(Debug)]
pub struct Level {
    pub width: i32,
    pub height: i32,
    pub level_data: Vec<i32>,
}

/// Whether `c` is one of the digits `'0'` to `'9'`, the only characters that
/// `str::parse::<i32>` accepts on its own.
pub open spec fn is_digit(c: char) -> bool {
    '0' <= c && c <= '9'
}

/// The value of the digit `c`.
pub open spec fn digit_value(c: char) -> i32 {
    (c as u32 - '0' as u32) as i32
}

/// The trimmed lines of a level text.
pub open spec fn level_rows(s: Seq<char>) -> Seq<Seq<char>> {
    lines(s).map_values(|l: Seq<char>| trim(l))
}

/// The cell codes of the rows `rows`, row after row.
pub open spec fn cells_of(rows: Seq<Seq<char>>) -> Seq<i32>
    decreases rows.len(),
{
    if rows.len() == 0 {
        Seq::empty()
    } else {
        cells_of(rows.drop_last()) + rows.last().map_values(|c: char| digit_value(c))
    }
}

/// The width a level text yields: the length of its last trimmed line, and 1
/// when there is no line or the last one is blank.
pub open spec fn level_width(s: Seq<char>) -> int {
    let rows = level_rows(s);
    if rows.len() == 0 || rows.last().len() == 0 {
        1
    } else {
        ((rows.last().len() - 1) as i32) + 1
    }
}

/// The height a level text yields: its number of lines, and 1 when it has none.
pub open spec fn level_height(s: Seq<char>) -> int {
    let n = lines(s).len();
    if n == 0 {
        1
    } else {
        ((n - 1) as i32) + 1
    }
}

/// Every trimmed line of the level text consists of digits.
pub open spec fn level_cells_ok(s: Seq<char>) -> bool {
    let rows = level_rows(s);
    forall|k: int, m: int| 0 <= k < rows.len() && 0 <= m < rows[k].len() ==> is_digit(#[trigger] rows[k][m])
}

/// The width and height of the level text fit in an `i32`.
pub open spec fn level_size_ok(s: Seq<char>) -> bool {
    let rows = level_rows(s);
    &&& (rows.len() > 0 && rows.last().len() > 0 ==> ((rows.last().len() - 1) as i32) < i32::MAX)
    &&& (rows.len() > 0 ==> ((rows.len() - 1) as i32) < i32::MAX)
}

/// Texts that `Level::load` turns into a level: every trimmed line consists
/// of digits, and the width and height fit in an `i32`.
pub open spec fn level_text_ok(s: Seq<char>) -> bool {
    level_cells_ok(s) && level_size_ok(s)
}

/// Why a level could not be read.
#[derive(Debug)]
pub enum Error {
    /// A cell of the level named `name` is not a digit.
    LevelParseFailed { name: String },
}

/// Whether the width and height of `level_data_str` fit in an `i32`, as
/// `Level::load` needs.
pub fn level_fits(level_data_str: &str) -> (b: bool)
    ensures
        b == level_size_ok(level_data_str@),
{
    let v = chars_of(level_data_str);
    let ranges = line_ranges(&v);
    let ghost rows = level_rows(v@);
    let n = ranges.len();
    if n == 0 {
        return true;
    }
    let (lo, hi) = ranges[n - 1];
    let (a, b) = trim_bounds(&v, lo, hi);
    proof {
        assert(rows.last() == trim(lines(v@)[n - 1]));
    }
    let last_len = b - a;
    if last_len > 0 && ((last_len - 1) as i32) == i32::MAX {
        return false;
    }
    if ((n - 1) as i32) == i32::MAX {
        return false;
    }
    true
}

/// Whether `level_data_str` is a text that `Level::load` accepts.
pub fn is_valid_level(level_data_str: &str) -> (b: bool)
    ensures
        b == level_text_ok(level_data_str@),
{
    let v = chars_of(level_data_str);
    let ranges = line_ranges(&v);
    let ghost rows = level_rows(v@);
    let n = ranges.len();
    let mut k: usize = 0;
    let mut last_len: usize = 0;
    while k < n
        invariant
            n == ranges@.len() == rows.len(),
            rows == level_rows(v@),
            0 <= k <= n,
            v@ == level_data_str@,
            forall|j: int|
                0 <= j < n ==> (#[trigger] ranges@[j]).0 <= ranges@[j].1 <= v@.len() && range_text(
                    v@,
                    ranges@[j],
                ) == lines(v@)[j],
            forall|j: int, m: int|
                0 <= j < k && 0 <= m < rows[j].len() ==> is_digit(#[trigger] rows[j][m]),
            k > 0 ==> last_len == rows[k - 1].len(),
        decreases n - k,
    {
        let (lo, hi) = ranges[k];
        let (a, b) = trim_bounds(&v, lo, hi);
        proof {
            assert(rows[k as int] == trim(lines(v@)[k as int]));
        }
        let mut m = a;
        while m < b
            invariant
                lo <= a <= m <= b <= hi <= v@.len(),
                v@.subrange(a as int, b as int) == rows[k as int],
                rows == level_rows(v@),
                v@ == level_data_str@,
                0 <= k < rows.len(),
                forall|t: int| a <= t < m ==> is_digit(#[trigger] v@[t]),
            decreases b - m,
        {
            if !('0' <= v[m] && v[m] <= '9') {
                proof {
                    assert(rows[k as int][m - a] == v@[m as int]);
                    assert(!is_digit(rows[k as int][m - a]));
                    assert(!level_text_ok(level_data_str@));
                }
                return false;
            }
            m = m + 1;
        }
        proof {
            assert forall|j: int, t: int|
                0 <= j < k + 1 && 0 <= t < rows[j].len() implies is_digit(#[trigger] rows[j][t]) by {
                if j == k {
                    assert(rows[j][t] == v@[a + t]);
                }
            }
        }
        last_len = b - a;
        k = k + 1;
    }
    if n > 0 {
        if last_len > 0 && ((last_len - 1) as i32) == i32::MAX {
            return false;
        }
        if ((n - 1) as i32) == i32::MAX {
            return false;
        }
    }
    true
}

impl Level {
    /// Build the level named `name` from its text: each line, trimmed, is a
    /// row of digits, one cell each. The width is that of the last row (at
    /// least 1), the height the number of lines (at least 1). A cell that is
    /// not a digit fails the level.
    pub fn load(name: &str, level_data_str: &str) -> (r: Result<Level, Error>)
        requires
            level_size_ok(level_data_str@),
        ensures
            match r {
                Ok(level) => {
                    &&& level_cells_ok(level_data_str@)
                    &&& level.level_data@ == cells_of(level_rows(level_data_str@))
                    &&& level.width == level_width(level_data_str@)
                    &&& level.height == level_height(level_data_str@)
                },
                Err(Error::LevelParseFailed { name: n }) => !level_cells_ok(level_data_str@) && n@
                    == name@,
            },
    {
        if !is_valid_level(level_data_str) {
            return Err(Error::LevelParseFailed { name: name.to_string() });
        }
        let v = chars_of(level_data_str);
        let ranges = line_ranges(&v);
        let ghost rows = level_rows(v@);
        let mut level_data: Vec<i32> = Vec::new();
        let mut height: i32 = 0;
        let mut width: i32 = 0;
        let n = ranges.len();
        let mut i: usize = 0;
        while i < n
            invariant
                n == ranges@.len() == rows.len(),
                rows == level_rows(v@),
                0 <= i <= n,
                v@ == level_data_str@,
                level_text_ok(v@),
                forall|j: int|
                    0 <= j < n ==> (#[trigger] ranges@[j]).0 <= ranges@[j].1 <= v@.len()
                        && range_text(v@, ranges@[j]) == lines(v@)[j],
                level_data@ == cells_of(rows.take(i as int)),
                i == 0 ==> height == 0 && width == 0,
                i > 0 ==> height == ((i - 1) as i32),
                i > 0 && rows[i - 1].len() == 0 ==> width == 0,
                i > 0 && rows[i - 1].len() > 0 ==> width == ((rows[i - 1].len() - 1) as i32),
            decreases n - i,
        {
            let (lo, hi) = ranges[i];
            let (a, b) = trim_bounds(&v, lo, hi);
            proof {
                assert(rows[i as int] == trim(lines(v@)[i as int]));
            }
            width = 0;
            let ghost before = level_data@;
            let mut j = a;
            while j < b
                invariant
                    lo <= a <= j <= b <= hi <= v@.len(),
                    v@.subrange(a as int, b as int) == rows[i as int],
                    0 <= i < n == rows.len(),
                    rows == level_rows(v@),
                    level_text_ok(v@),
                    level_data@ == before + rows[i as int].take(j - a).map_values(
                        |c: char| digit_value(c),
                    ),
                    j == a ==> width == 0,
                    j > a ==> width == ((j - a - 1) as i32),
                decreases b - j,
            {
                let c = v[j];
                proof {
                    assert(rows[i as int][j - a] == c);
                    assert(is_digit(rows[i as int][j - a]));
                }
                let p: i32 = (c as u32 - '0' as u32) as i32;
                level_data.push(p);
                width = (j - a) as i32;
                proof {
                    assert(rows[i as int].take(j + 1 - a) =~= rows[i as int].take(j - a).push(c));
                    assert(rows[i as int].take(j + 1 - a).map_values(|c: char| digit_value(c))
                        =~= rows[i as int].take(j - a).map_values(|c: char| digit_value(c)).push(
                        digit_value(c),
                    ));
                }
                j = j + 1;
            }
            height = i as i32;
            proof {
                assert(rows[i as int].take(b - a) =~= rows[i as int]);
                assert(rows.take(i + 1).drop_last() =~= rows.take(i as int));
                assert(rows.take(i + 1).last() == rows[i as int]);
            }
            i = i + 1;
        }
        proof {
            assert(rows.take(n as int) =~= rows);
        }
        Ok(Level { width: width + 1, height: height + 1, level_data })
    }
}

} // verus!
