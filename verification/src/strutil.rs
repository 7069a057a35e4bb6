//! Verified string scanning: first/last occurrence of a character,
//! splitting on a separator, and substring tests.
//!
//! Filenames arrive as arbitrary strings; every parse below is specified
//! against these sequence-level functions.

use vstd::prelude::*;
use vstd::string::StrSliceExecFns;
use vstd::string::StringExecFns;

verus! {

/// Index of the first occurrence of `c` in `s`, or `-1` when absent.
pub open spec fn spec_find(s: Seq<char>, c: char) -> int
    decreases s.len(),
{
    if s.len() == 0 {
        -1
    } else if s[0] == c {
        0
    } else if spec_find(s.drop_first(), c) < 0 {
        -1
    } else {
        1 + spec_find(s.drop_first(), c)
    }
}

/// Index of the last occurrence of `c` in `s`, or `-1` when absent.
pub open spec fn spec_rfind(s: Seq<char>, c: char) -> int
    decreases s.len(),
{
    if s.len() == 0 {
        -1
    } else if s[s.len() - 1] == c {
        s.len() - 1
    } else {
        spec_rfind(s.drop_last(), c)
    }
}

pub proof fn lemma_spec_find(s: Seq<char>, c: char)
    ensures
        -1 <= spec_find(s, c) < s.len(),
        spec_find(s, c) >= 0 ==> s[spec_find(s, c)] == c,
        forall|j: int| 0 <= j < spec_find(s, c) ==> s[j] != c,
        spec_find(s, c) == -1 ==> forall|j: int| 0 <= j < s.len() ==> s[j] != c,
    decreases s.len(),
{
    if s.len() > 0 && s[0] != c {
        lemma_spec_find(s.drop_first(), c);
        assert(forall|j: int| 1 <= j < s.len() ==> s[j] == s.drop_first()[j - 1]);
    }
}

/// `spec_find` is pinned by the first-occurrence property.
pub proof fn lemma_spec_find_is(s: Seq<char>, c: char, i: int)
    requires
        0 <= i < s.len(),
        s[i] == c,
        forall|j: int| 0 <= j < i ==> s[j] != c,
    ensures
        spec_find(s, c) == i,
{
    lemma_spec_find(s, c);
    let f = spec_find(s, c);
    if f == -1 {
        assert(s[i] != c);
    } else if f < i {
        assert(s[f] != c);
    } else if f > i {
        assert(s[i] != c);
    }
}

pub proof fn lemma_spec_find_none(s: Seq<char>, c: char)
    requires
        forall|j: int| 0 <= j < s.len() ==> s[j] != c,
    ensures
        spec_find(s, c) == -1,
{
    lemma_spec_find(s, c);
    let f = spec_find(s, c);
    if f >= 0 {
        assert(s[f] != c);
    }
}

pub proof fn lemma_spec_rfind(s: Seq<char>, c: char)
    ensures
        -1 <= spec_rfind(s, c) < s.len(),
        spec_rfind(s, c) >= 0 ==> s[spec_rfind(s, c)] == c,
        forall|j: int| spec_rfind(s, c) < j < s.len() ==> s[j] != c,
    decreases s.len(),
{
    if s.len() > 0 && s[s.len() - 1] != c {
        lemma_spec_rfind(s.drop_last(), c);
        assert(forall|j: int| 0 <= j < s.len() - 1 ==> s[j] == s.drop_last()[j]);
    }
}

/// `spec_rfind` is pinned by the last-occurrence property.
pub proof fn lemma_spec_rfind_is(s: Seq<char>, c: char, i: int)
    requires
        0 <= i < s.len(),
        s[i] == c,
        forall|j: int| i < j < s.len() ==> s[j] != c,
    ensures
        spec_rfind(s, c) == i,
{
    lemma_spec_rfind(s, c);
    let f = spec_rfind(s, c);
    if f == -1 {
        assert(s[i] != c);
    } else if f < i {
        assert(s[i] != c);
    } else if f > i {
        assert(s[f] != c);
    }
}

pub proof fn lemma_spec_rfind_none(s: Seq<char>, c: char)
    requires
        forall|j: int| 0 <= j < s.len() ==> s[j] != c,
    ensures
        spec_rfind(s, c) == -1,
{
    lemma_spec_rfind(s, c);
    let f = spec_rfind(s, c);
    if f >= 0 {
        assert(s[f] != c);
    }
}

/// The segments of `s` between occurrences of `sep`; always at least one
/// segment, and an occurrence of `sep` at either end yields an empty segment.
pub open spec fn spec_split(s: Seq<char>, sep: char) -> Seq<Seq<char>>
    decreases s.len(),
    via spec_split_decreases
{
    let i = spec_find(s, sep);
    if i < 0 {
        seq![s]
    } else {
        seq![s.subrange(0, i)] + spec_split(s.subrange(i + 1, s.len() as int), sep)
    }
}

#[via_fn]
proof fn spec_split_decreases(s: Seq<char>, sep: char) {
    lemma_spec_find(s, sep);
}

/// The views of a vector of strings, in order.
pub open spec fn views_of(q: Seq<String>) -> Seq<Seq<char>> {
    Seq::new(q.len(), |i: int| q[i]@)
}

/// Whether `c` occurs in `s`.
pub fn contains_char(s: &str, c: char) -> (r: bool)
    ensures
        r == s@.contains(c),
{
    let n = s.unicode_len();
    let mut i: usize = 0;
    while i < n
        invariant
            0 <= i <= n == s@.len(),
            forall|j: int| 0 <= j < i ==> s@[j] != c,
        decreases n - i,
    {
        if s.get_char(i) == c {
            return true;
        }
        i += 1;
    }
    false
}

/// Index of the first occurrence of `c` in `s`, if any.
pub fn find_char(s: &str, c: char) -> (r: Option<usize>)
    ensures
        match r {
            Some(i) => i == spec_find(s@, c) && i < s@.len() && s@[i as int] == c,
            None => spec_find(s@, c) == -1,
        },
{
    let n = s.unicode_len();
    let mut i: usize = 0;
    while i < n
        invariant
            0 <= i <= n == s@.len(),
            forall|j: int| 0 <= j < i ==> s@[j] != c,
        decreases n - i,
    {
        if s.get_char(i) == c {
            proof {
                lemma_spec_find_is(s@, c, i as int);
            }
            return Some(i);
        }
        i += 1;
    }
    proof {
        lemma_spec_find_none(s@, c);
    }
    None
}

/// Index of the last occurrence of `c` in `s`, if any.
pub fn rfind_char(s: &str, c: char) -> (r: Option<usize>)
    ensures
        match r {
            Some(i) => i == spec_rfind(s@, c) && i < s@.len() && s@[i as int] == c,
            None => spec_rfind(s@, c) == -1,
        },
{
    let n = s.unicode_len();
    let mut i: usize = n;
    while i > 0
        invariant
            0 <= i <= n == s@.len(),
            forall|j: int| i <= j < n ==> s@[j] != c,
        decreases i,
    {
        i -= 1;
        if s.get_char(i) == c {
            proof {
                lemma_spec_rfind_is(s@, c, i as int);
            }
            return Some(i);
        }
    }
    proof {
        lemma_spec_rfind_none(s@, c);
    }
    None
}

/// Splits `s` on `sep`; the result always has at least one element.
pub fn split_str(s: &str, sep: char) -> (parts: Vec<String>)
    ensures
        views_of(parts@) == spec_split(s@, sep),
        parts@.len() >= 1,
{
    let n = s.unicode_len();
    let mut parts: Vec<String> = Vec::new();
    let mut start: usize = 0;
    let mut i: usize = 0;
    proof {
        assert(s@.subrange(0, n as int) =~= s@);
        assert(views_of(parts@) + spec_split(s@, sep) =~= spec_split(s@, sep));
    }
    while i < n
        invariant
            0 <= start <= i <= n == s@.len(),
            spec_split(s@, sep) == views_of(parts@) + spec_split(
                s@.subrange(start as int, n as int),
                sep,
            ),
            forall|j: int| start <= j < i ==> s@[j] != sep,
        decreases n - i,
    {
        if s.get_char(i) == sep {
            let piece = s.substring_char(start, i).to_owned();
            let ghost prior = views_of(parts@);
            proof {
                let rem = s@.subrange(start as int, n as int);
                assert(forall|j: int| 0 <= j < i - start ==> rem[j] != sep);
                lemma_spec_find_is(rem, sep, i - start);
                assert(rem.subrange(0, i - start) =~= s@.subrange(start as int, i as int));
                assert(rem.subrange(i - start + 1, rem.len() as int) =~= s@.subrange(
                    i + 1,
                    n as int,
                ));
            }
            parts.push(piece);
            proof {
                assert(views_of(parts@) =~= prior + seq![s@.subrange(start as int, i as int)]);
                assert(spec_split(s@, sep) == views_of(parts@) + spec_split(
                    s@.subrange(i + 1, n as int),
                    sep,
                ));
            }
            start = i + 1;
        }
        i += 1;
    }
    let piece = s.substring_char(start, n).to_owned();
    let ghost prior = views_of(parts@);
    proof {
        let rem = s@.subrange(start as int, n as int);
        lemma_spec_find_none(rem, sep);
        assert(spec_split(rem, sep) == seq![rem]);
    }
    parts.push(piece);
    proof {
        assert(views_of(parts@) =~= prior + seq![s@.subrange(start as int, n as int)]);
        assert(views_of(parts@) =~= spec_split(s@, sep));
    }
    parts
}

/// `s` with every occurrence of `from` replaced by `to`, elementwise.
pub open spec fn spec_replace(s: Seq<char>, from: char, to: char) -> Seq<char> {
    Seq::new(s.len(), |i: int| if s[i] == from { to } else { s[i] })
}

/// Replaces every `-` in `s` with `:`.
pub fn dash_to_colon(s: &str) -> (r: String)
    ensures
        r@ == spec_replace(s@, '-', ':'),
{
    proof {
        reveal_strlit(":");
    }
    let n = s.unicode_len();
    let mut out = String::new();
    let mut i: usize = 0;
    proof {
        assert(out@ =~= spec_replace(s@, '-', ':').subrange(0, 0));
    }
    while i < n
        invariant
            0 <= i <= n == s@.len(),
            out@ == spec_replace(s@, '-', ':').subrange(0, i as int),
        decreases n - i,
    {
        proof {
            reveal_strlit(":");
        }
        if s.get_char(i) == '-' {
            out.append(":");
        } else {
            let piece = s.substring_char(i, i + 1);
            proof {
                assert(piece@ =~= seq![s@[i as int]]);
            }
            out.append(piece);
        }
        proof {
            assert(out@ =~= spec_replace(s@, '-', ':').subrange(0, i + 1));
        }
        i += 1;
    }
    proof {
        assert(spec_replace(s@, '-', ':').subrange(0, n as int) =~= spec_replace(s@, '-', ':'));
    }
    out
}

/// The prefix of `s` before the first occurrence of `c` (all of `s` when
/// `c` is absent); equals the first segment of the split on `c`.
pub fn prefix_before(s: &str, c: char) -> (r: String)
    ensures
        r@ == spec_split(s@, c)[0],
{
    let n = s.unicode_len();
    let mut i: usize = 0;
    while i < n
        invariant
            0 <= i <= n == s@.len(),
            forall|j: int| 0 <= j < i ==> s@[j] != c,
        decreases n - i,
    {
        if s.get_char(i) == c {
            proof {
                lemma_spec_find_is(s@, c, i as int);
            }
            return s.substring_char(0, i).to_owned();
        }
        i += 1;
    }
    proof {
        lemma_spec_find_none(s@, c);
        assert(s@.subrange(0, n as int) =~= s@);
    }
    s.substring_char(0, n).to_owned()
}

} // verus!
