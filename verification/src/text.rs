//! Character and string utilities shared by the parsing pipeline:
//! ASCII case-insensitive comparison, substring containment, and
//! splitting text into lines.

use vstd::prelude::*;

verus! {

/// `a` equals `b` after folding an ASCII upper-case `a` to lower case.
pub open spec fn char_eq_ci(a: char, b: char) -> bool {
    a == b || (65 <= a as int <= 90 && a as int + 32 == b as int)
}

/// `s` equals `t` character by character, folding ASCII upper case in `s`
/// to lower case.
pub open spec fn eq_ignore_ascii_case(s: Seq<char>, t: Seq<char>) -> bool {
    s.len() == t.len() && forall|i: int| 0 <= i < s.len() ==> char_eq_ci(s[i], t[i])
}

/// Compares `s` against a lower-case token `t`, folding ASCII upper case
/// characters of `s`.
pub fn chars_eq_ignore_case(s: &str, t: &str) -> (r: bool)
    ensures
        r == eq_ignore_ascii_case(s@, t@),
{
    let sn = s.unicode_len();
    let tn = t.unicode_len();
    if sn != tn {
        return false;
    }
    let mut i: usize = 0;
    while i < sn
        invariant
            0 <= i <= sn,
            sn == s@.len(),
            sn == t@.len(),
            forall|k: int| 0 <= k < i ==> char_eq_ci(s@[k], t@[k]),
        decreases sn - i,
    {
        let a = s.get_char(i);
        let b = t.get_char(i);
        let au = a as u32;
        let bu = b as u32;
        if !(a == b || (65 <= au && au <= 90 && au + 32 == bu)) {
            assert(!char_eq_ci(s@[i as int], t@[i as int]));
            return false;
        }
        i += 1;
    }
    true
}

/// `needle` occurs as a contiguous run somewhere in `hay`; an empty needle
/// occurs in every sequence.
pub open spec fn contains_sub(hay: Seq<char>, needle: Seq<char>) -> bool {
    exists|i: int|
        0 <= i <= hay.len() - needle.len() && #[trigger] hay.subrange(i, i + needle.len())
            == needle
}

/// The needle matches `hay` exactly at offset `i`.
fn match_at(hay: &str, needle: &str, i: usize) -> (r: bool)
    requires
        i + needle@.len() <= hay@.len() <= usize::MAX,
    ensures
        r == (hay@.subrange(i as int, i + needle@.len()) == needle@),
{
    let nn = needle.unicode_len();
    let mut k: usize = 0;
    while k < nn
        invariant
            0 <= k <= nn,
            nn == needle@.len(),
            i + nn <= hay@.len() <= usize::MAX,
            forall|m: int| 0 <= m < k ==> hay@[i + m] == needle@[m],
        decreases nn - k,
    {
        if hay.get_char(i + k) != needle.get_char(k) {
            assert(hay@.subrange(i as int, i + needle@.len())[k as int] == hay@[i + k]);
            return false;
        }
        k += 1;
    }
    assert(hay@.subrange(i as int, i + needle@.len()) =~= needle@);
    true
}

/// Literal (non-regex) substring containment check.
pub fn str_contains(hay: &str, needle: &str) -> (r: bool)
    ensures
        r == contains_sub(hay@, needle@),
{
    let hn = hay.unicode_len();
    let nn = needle.unicode_len();
    if nn > hn {
        return false;
    }
    if nn == 0 {
        assert(hay@.subrange(0, 0) =~= needle@);
        assert(hay@.subrange(0, 0 + needle@.len() as int) == needle@);
        return true;
    }
    let bound = hn - nn + 1;
    let mut i: usize = 0;
    while i < bound
        invariant
            0 <= i <= bound,
            bound == hn - nn + 1,
            1 <= nn <= hn,
            hn == hay@.len(),
            nn == needle@.len(),
            forall|j: int| 0 <= j < i ==> #[trigger] hay@.subrange(j, j + nn as int) != needle@,
        decreases bound - i,
    {
        if match_at(hay, needle, i) {
            assert(0 <= i as int <= hay@.len() - needle@.len() && hay@.subrange(
                i as int,
                i + needle@.len(),
            ) == needle@);
            return true;
        }
        i += 1;
    }
    false
}

/// Index of the first line feed at or after `from`, or the length of `s`
/// when no line feed remains.
pub open spec fn find_newline(s: Seq<char>, from: int) -> int
    decreases s.len() - from,
    when 0 <= from <= s.len()
{
    if from >= s.len() {
        s.len() as int
    } else if s[from] == '\n' {
        from
    } else {
        find_newline(s, from + 1)
    }
}

pub proof fn lemma_find_newline_bounds(s: Seq<char>, from: int)
    requires
        0 <= from <= s.len(),
    ensures
        from <= find_newline(s, from) <= s.len(),
    decreases s.len() - from,
{
    if from < s.len() && s[from] != '\n' {
        lemma_find_newline_bounds(s, from + 1);
    }
}

/// If no line feed lies in `[from, i)` and `i` is a line feed or the end,
/// then `i` is the first line feed position.
pub proof fn lemma_find_newline_at(s: Seq<char>, from: int, i: int)
    requires
        0 <= from <= i <= s.len(),
        forall|k: int| from <= k < i ==> s[k] != '\n',
        i == s.len() || s[i] == '\n',
    ensures
        find_newline(s, from) == i,
    decreases i - from,
{
    if from < i {
        lemma_find_newline_at(s, from + 1, i);
    }
}

/// The pieces of `s` between line feeds, from `from` to the end; `n`
/// separators yield `n + 1` pieces.
pub open spec fn split_lines_from(s: Seq<char>, from: int) -> Seq<Seq<char>>
    decreases s.len() - from,
    when 0 <= from <= s.len()
    via split_lines_from_decreases
{
    let j = find_newline(s, from);
    if j >= s.len() {
        seq![s.subrange(from, s.len() as int)]
    } else {
        seq![s.subrange(from, j)] + split_lines_from(s, j + 1)
    }
}

#[via_fn]
proof fn split_lines_from_decreases(s: Seq<char>, from: int) {
    lemma_find_newline_bounds(s, from);
}

/// `s` split on the line feed character alone; a trailing line feed yields
/// a final empty piece.
pub open spec fn split_lines(s: Seq<char>) -> Seq<Seq<char>> {
    split_lines_from(s, 0)
}

/// The views of a sequence of owned strings.
pub open spec fn line_views(v: Seq<String>) -> Seq<Seq<char>> {
    v.map_values(|s: String| s@)
}

/// Splits `s` on the line feed character only; no carriage-return handling,
/// and a trailing line feed produces a final empty element.
pub fn split_into_lines(s: &str) -> (r: Vec<String>)
    ensures
        line_views(r@) == split_lines(s@),
{
    let n = s.unicode_len();
    let mut res: Vec<String> = Vec::new();
    let mut start: usize = 0;
    let mut i: usize = 0;
    while i < n
        invariant
            0 <= start <= i <= n,
            n == s@.len(),
            forall|k: int| start <= k < i ==> s@[k] != '\n',
            split_lines(s@) == line_views(res@) + split_lines_from(s@, start as int),
        decreases n - i,
    {
        if s.get_char(i) == '\n' {
            let piece = String::from_str(s.substring_char(start, i));
            proof {
                lemma_find_newline_at(s@, start as int, i as int);
                assert(res@.push(piece).map_values(|x: String| x@) =~= line_views(res@).push(
                    piece@,
                ));
                assert(line_views(res@).push(piece@) + split_lines_from(s@, i + 1) =~= line_views(
                    res@,
                ) + (seq![s@.subrange(start as int, i as int)] + split_lines_from(s@, i + 1)));
            }
            res.push(piece);
            start = i + 1;
        }
        i += 1;
    }
    let piece = String::from_str(s.substring_char(start, n));
    proof {
        lemma_find_newline_at(s@, start as int, n as int);
        assert(res@.push(piece).map_values(|x: String| x@) =~= line_views(res@).push(piece@));
        assert(line_views(res@).push(piece@) =~= line_views(res@) + seq![
            s@.subrange(start as int, n as int),
        ]);
    }
    res.push(piece);
    res
}

} // verus!
