use vstd::prelude::*;
use crate::text::{chars_of, push_char, range_text, split, split_ranges, string_of};

verus! {

/// `s` with every occurrence of `pat` taken out, as `str::replace(pat, "")`
/// finds them: from the left, without overlaps. An empty `pat` leaves `s`
/// as it is.
pub open spec fn remove_all(s: Seq<char>, pat: Seq<char>) -> Seq<char>
    decreases s.len(),
{
    if pat.len() == 0 || s.len() == 0 {
        s
    } else if pat.len() <= s.len() && s.take(pat.len() as int) == pat {
        remove_all(s.skip(pat.len() as int), pat)
    } else {
        seq![s[0]] + remove_all(s.skip(1), pat)
    }
}

/// The parts of a resource name between its `/` separators: the directories
/// and the file name that lead from the resource root to the resource.
pub fn resource_path_parts(location: &str) -> (parts: Vec<String>)
    ensures
        parts@.len() == split(location@, '/').len(),
        forall|k: int| 0 <= k < parts@.len() ==> (#[trigger] parts@[k])@ == split(location@, '/')[k],
{
    let v = chars_of(location);
    let ranges = split_ranges(&v, 0, v.len(), '/');
    proof {
        assert(v@.subrange(0, v@.len() as int) =~= location@);
    }
    let mut parts: Vec<String> = Vec::new();
    let mut k: usize = 0;
    while k < ranges.len()
        invariant
            0 <= k <= ranges.len(),
            v@ == location@,
            ranges@.len() == split(location@, '/').len(),
            forall|j: int|
                0 <= j < ranges@.len() ==> 0 <= (#[trigger] ranges@[j]).0 <= ranges@[j].1 <= v@.len()
                    && range_text(v@, ranges@[j]) == split(location@, '/')[j],
            parts@.len() == k,
            forall|j: int| 0 <= j < k ==> (#[trigger] parts@[j])@ == split(location@, '/')[j],
        decreases ranges.len() - k,
    {
        let (lo, hi) = ranges[k];
        let mut piece: Vec<char> = Vec::new();
        let mut i = lo;
        while i < hi
            invariant
                lo <= i <= hi <= v@.len(),
                piece@ == v@.subrange(lo as int, i as int),
            decreases hi - i,
        {
            piece.push(v[i]);
            assert(piece@ =~= v@.subrange(lo as int, i + 1));
            i = i + 1;
        }
        parts.push(string_of(piece.as_slice()));
        k = k + 1;
    }
    parts
}

/// `full_path` with every occurrence of `root_path` taken out (see
/// `remove_all`).
pub fn strip_root(full_path: &str, root_path: &str) -> (r: String)
    ensures
        r@ == remove_all(full_path@, root_path@),
{
    let v = chars_of(full_path);
    let pat = chars_of(root_path);
    let n = v.len();
    let m = pat.len();
    let mut out = String::new();
    if m == 0 {
        return string_of(v.as_slice());
    }
    let mut i: usize = 0;
    proof {
        assert(v@.skip(0) =~= v@);
        assert(out@ + remove_all(v@, pat@) =~= remove_all(v@, pat@));
    }
    while i < n
        invariant
            v@ == full_path@,
            pat@ == root_path@,
            n == v@.len(),
            m == pat@.len(),
            m > 0,
            i <= n,
            out@ + remove_all(v@.skip(i as int), pat@) == remove_all(v@, pat@),
        decreases n - i,
    {
        let ghost rest = v@.skip(i as int);
        let mut same = m <= n - i;
        let mut j: usize = 0;
        while same && j < m
            invariant
                v@ == full_path@,
                pat@ == root_path@,
                n == v@.len(),
                m == pat@.len(),
                i < n,
                j <= m,
                same ==> m <= n - i,
                same ==> forall|t: int| 0 <= t < j ==> v@[i + t] == pat@[t],
                !same ==> !(m <= n - i && rest.take(m as int) == pat@),
                rest == v@.skip(i as int),
            decreases (m - j + if same { 1int } else { 0int }),
        {
            if v[i + j] != pat[j] {
                same = false;
                proof {
                    assert(rest.take(m as int)[j as int] == v@[i + j]);
                }
            } else {
                j = j + 1;
            }
        }
        if same {
            proof {
                assert(rest.take(m as int) =~= pat@);
                assert(rest.skip(m as int) =~= v@.skip(i + m));
            }
            i = i + m;
        } else {
            proof {
                assert(rest.skip(1) =~= v@.skip(i + 1));
                assert(out@.push(v@[i as int]) + remove_all(v@.skip(i + 1), pat@) =~= out@ + (seq![
                    rest[0],
                ] + remove_all(rest.skip(1), pat@)));
            }
            push_char(&mut out, v[i]);
            i = i + 1;
        }
    }
    proof {
        assert(v@.skip(n as int) =~= Seq::<char>::empty());
        assert(out@ + Seq::<char>::empty() =~= out@);
    }
    out
}

/// `s` without its first character, which is a single byte: what the
/// byte range `s[1..]` gives.
pub fn drop_first_char(s: &str) -> (r: String)
    requires
        s@.len() >= 1,
        s@[0] < '\u{80}',
    ensures
        r@ == s@.drop_first(),
{
    let v = chars_of(s);
    let mut out = String::new();
    let mut i: usize = 1;
    while i < v.len()
        invariant
            1 <= i <= v@.len(),
            v@ == s@,
            out@ == v@.subrange(1, i as int),
        decreases v.len() - i,
    {
        push_char(&mut out, v[i]);
        assert(out@ =~= v@.subrange(1, i + 1));
        i = i + 1;
    }
    assert(out@ =~= s@.drop_first());
    out
}

/// Whether `bytes` holds a zero byte, which a C string cannot carry.
pub fn contains_nul(bytes: &Vec<u8>) -> (b: bool)
    ensures
        b == bytes@.contains(0u8),
{
    let mut i: usize = 0;
    while i < bytes.len()
        invariant
            0 <= i <= bytes.len(),
            forall|k: int| 0 <= k < i ==> bytes@[k] != 0u8,
        decreases bytes.len() - i,
    {
        if bytes[i] == 0 {
            assert(bytes@[i as int] == 0u8);
            return true;
        }
        i = i + 1;
    }
    false
}

} // verus!
