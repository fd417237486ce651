//! Ignore-pattern matching for the tree-sync engine. Patterns are matched
//! glob-style against the segments of a path relative to the walk root:
//! `*` matches any run of characters within a segment, `?` matches one
//! character, and every other character matches itself, case-sensitively.
//! A path is ignored when any of its segments matches any pattern. This is
//! a documented design choice: pattern semantics are deliberately segment-
//! local, so a pattern never spans a `/`.

use vstd::prelude::*;
use crate::strutil::strs;

verus! {

/// Whether pattern `p` matches the whole of `s`: `*` matches any run of
/// characters, `?` exactly one, anything else itself.
pub open spec fn glob_match(p: Seq<char>, s: Seq<char>) -> bool
    decreases p.len(), s.len(),
{
    if p.len() == 0 {
        s.len() == 0
    } else if p[0] == '*' {
        glob_match(p.drop_first(), s) || (s.len() > 0 && glob_match(p, s.drop_first()))
    } else {
        s.len() > 0 && (p[0] == '?' || p[0] == s[0]) && glob_match(
            p.drop_first(),
            s.drop_first(),
        )
    }
}

/// Matches the pattern suffix from `pi` against the string suffix from `si`.
fn glob_match_at(p: &str, s: &str, pi: usize, si: usize) -> (r: bool)
    requires
        pi <= p@.len(),
        si <= s@.len(),
    ensures
        r == glob_match(p@.skip(pi as int), s@.skip(si as int)),
    decreases p@.len() - pi, s@.len() - si,
{
    let plen = p.unicode_len();
    let slen = s.unicode_len();
    if pi == plen {
        proof {
            assert(p@.skip(pi as int).len() == 0);
            assert(s@.skip(si as int).len() == s@.len() - si);
        }
        return si == slen;
    }
    let pc = p.get_char(pi);
    proof {
        assert(p@.skip(pi as int)[0] == p@[pi as int]);
        assert(p@.skip(pi as int).drop_first() =~= p@.skip(pi as int + 1));
        if si < s@.len() {
            assert(s@.skip(si as int)[0] == s@[si as int]);
            assert(s@.skip(si as int).drop_first() =~= s@.skip(si as int + 1));
        }
    }
    if pc == '*' {
        if glob_match_at(p, s, pi + 1, si) {
            return true;
        }
        if si < slen {
            return glob_match_at(p, s, pi, si + 1);
        }
        return false;
    }
    if si == slen {
        return false;
    }
    let sc = s.get_char(si);
    if pc == '?' || pc == sc {
        return glob_match_at(p, s, pi + 1, si + 1);
    }
    false
}

/// Whether `pattern` matches the whole of `name`, as `glob_match` states.
pub fn glob_match_str(pattern: &str, name: &str) -> (r: bool)
    ensures
        r == glob_match(pattern@, name@),
{
    proof {
        assert(pattern@.skip(0) =~= pattern@);
        assert(name@.skip(0) =~= name@);
    }
    glob_match_at(pattern, name, 0, 0)
}

/// The index of the first occurrence of `sep` in `s`, or `-1` when absent.
pub open spec fn find_sep(s: Seq<char>, sep: char) -> int
    decreases s.len(),
{
    if s.len() == 0 {
        -1
    } else if s[0] == sep {
        0
    } else {
        let r = find_sep(s.drop_first(), sep);
        if r == -1 {
            -1
        } else {
            r + 1
        }
    }
}

proof fn lemma_find_sep_at(s: Seq<char>, sep: char, k: int)
    requires
        0 <= k < s.len(),
        forall|j: int| 0 <= j < k ==> s[j] != sep,
        s[k] == sep,
    ensures
        find_sep(s, sep) == k,
    decreases k,
{
    if k > 0 {
        lemma_find_sep_at(s.drop_first(), sep, k - 1);
    }
}

proof fn lemma_find_sep_none(s: Seq<char>, sep: char)
    requires
        forall|j: int| 0 <= j < s.len() ==> s[j] != sep,
    ensures
        find_sep(s, sep) == -1,
    decreases s.len(),
{
    if s.len() > 0 {
        lemma_find_sep_none(s.drop_first(), sep);
    }
}

/// The first separator index lies inside the sequence when there is one.
proof fn lemma_find_sep_bounds(s: Seq<char>, sep: char)
    ensures
        find_sep(s, sep) == -1 || (0 <= find_sep(s, sep) < s.len() && s[find_sep(s, sep)] == sep),
    decreases s.len(),
{
    if s.len() > 0 && s[0] != sep {
        lemma_find_sep_bounds(s.drop_first(), sep);
    }
}

/// The segments of `s` split on `sep`: an empty string yields one empty
/// segment, and a separator at either end yields an empty segment there.
pub open spec fn split_on(s: Seq<char>, sep: char) -> Seq<Seq<char>>
    decreases s.len(),
    via split_on_decreases
{
    let i = find_sep(s, sep);
    if i == -1 {
        seq![s]
    } else {
        seq![s.take(i)] + split_on(s.skip(i + 1), sep)
    }
}

#[via_fn]
proof fn split_on_decreases(s: Seq<char>, sep: char) {
    lemma_find_sep_bounds(s, sep);
}

/// Splitting at the first separator: a separator-free prefix of length `k`
/// followed by a separator splits off that prefix.
proof fn lemma_split_at_sep(s: Seq<char>, sep: char, k: int)
    requires
        0 <= k < s.len(),
        forall|j: int| 0 <= j < k ==> s[j] != sep,
        s[k] == sep,
    ensures
        split_on(s, sep) == seq![s.take(k)] + split_on(s.skip(k + 1), sep),
{
    lemma_find_sep_at(s, sep, k);
}

proof fn lemma_split_no_sep(s: Seq<char>, sep: char)
    requires
        forall|j: int| 0 <= j < s.len() ==> s[j] != sep,
    ensures
        split_on(s, sep) == seq![s],
{
    lemma_find_sep_none(s, sep);
}

/// The segments of `s` split on `/`.
pub fn split_segments(s: &str) -> (r: Vec<String>)
    ensures
        strs(r@) == split_on(s@, '/'),
{
    let n = s.unicode_len();
    let mut out: Vec<String> = Vec::new();
    let mut start: usize = 0;
    let mut i: usize = 0;
    proof {
        assert(s@.skip(0) =~= s@);
    }
    while i < n
        invariant
            start <= i <= n,
            n == s@.len(),
            forall|j: int| start <= j < i ==> s@[j] != '/',
            split_on(s@, '/') =~= strs(out@) + split_on(s@.skip(start as int), '/'),
        decreases n - i,
    {
        let c = s.get_char(i);
        if c == '/' {
            let seg = s.substring_char(start, i);
            let owned: String = seg.to_owned();
            out.push(owned);
            proof {
                let suffix = s@.skip(start as int);
                assert(forall|j: int|
                    0 <= j < i - start ==> suffix[j] == s@[j + start] && suffix[j] != '/');
                assert(suffix[i - start] == s@[i as int]);
                lemma_split_at_sep(suffix, '/', i as int - start as int);
                assert(suffix.take(i as int - start as int) =~= s@.subrange(
                    start as int,
                    i as int,
                ));
                assert(suffix.skip(i as int - start as int + 1) =~= s@.skip(i as int + 1));
                assert(strs(out@) =~= strs(out@.drop_last().push(out@.last())));
                assert(strs(out@) =~= strs(out@.drop_last()).push(out@.last()@));
                assert(strs(out@) + split_on(s@.skip(i as int + 1), '/') =~= strs(out@.drop_last())
                    + split_on(s@.skip(start as int), '/'));
            }
            start = i + 1;
        }
        i = i + 1;
    }
    let seg = s.substring_char(start, n);
    let owned: String = seg.to_owned();
    out.push(owned);
    proof {
        let suffix = s@.skip(start as int);
        assert(forall|j: int|
            0 <= j < suffix.len() ==> suffix[j] == s@[j + start] && suffix[j] != '/');
        lemma_split_no_sep(suffix, '/');
        assert(suffix =~= s@.subrange(start as int, n as int));
        assert(strs(out@) =~= strs(out@.drop_last()).push(out@.last()@));
        assert(strs(out@) =~= split_on(s@, '/'));
    }
    out
}

/// Whether any segment of the relative path `rel` matches any pattern in
/// `pats`.
pub open spec fn spec_ignored(rel: Seq<char>, pats: Seq<Seq<char>>) -> bool {
    exists|i: int, j: int|
        0 <= i < pats.len() && 0 <= j < split_on(rel, '/').len() && glob_match(
            pats[i],
            split_on(rel, '/')[j],
        )
}

/// Whether the relative path `rel` matches the ignore list `patterns`:
/// true when any of its `/`-separated segments matches any pattern.
pub fn is_ignored(rel: &str, patterns: &Vec<String>) -> (r: bool)
    ensures
        r == spec_ignored(rel@, strs(patterns@)),
{
    let segments = split_segments(rel);
    let mut i: usize = 0;
    while i < patterns.len()
        invariant
            i <= patterns.len(),
            strs(segments@) == split_on(rel@, '/'),
            forall|a: int, b: int|
                0 <= a < i && 0 <= b < split_on(rel@, '/').len() ==> !glob_match(
                    strs(patterns@)[a],
                    split_on(rel@, '/')[b],
                ),
        decreases patterns.len() - i,
    {
        let mut j: usize = 0;
        while j < segments.len()
            invariant
                i < patterns.len(),
                j <= segments.len(),
                strs(segments@) == split_on(rel@, '/'),
                forall|b: int|
                    0 <= b < j ==> !glob_match(strs(patterns@)[i as int], split_on(rel@, '/')[b]),
            decreases segments.len() - j,
        {
            if glob_match_str(patterns[i].as_str(), segments[j].as_str()) {
                proof {
                    assert(strs(patterns@)[i as int] == patterns@[i as int]@);
                    assert(split_on(rel@, '/')[j as int] == segments@[j as int]@);
                    assert(glob_match(strs(patterns@)[i as int], split_on(rel@, '/')[j as int]));
                }
                return true;
            }
            proof {
                assert(strs(patterns@)[i as int] == patterns@[i as int]@);
                assert(split_on(rel@, '/')[j as int] == segments@[j as int]@);
            }
            j = j + 1;
        }
        i = i + 1;
    }
    false
}

} // verus!
