//! Substring search, splitting and joining over character sequences.
//!
//! Every executable function here carries an exact contract over the spec
//! model: `find_first` names the first occurrence of a pattern, `split_on`
//! the list of separated segments, and `join_on` the inverse gluing. The
//! request parser, the header extractor and the response builder are all
//! specified in terms of these functions.

use vstd::prelude::*;
use vstd::string::*;

verus! {

/// The pattern `pat` occurs in `s` at position `i`.
pub open spec fn occurs_at(s: Seq<char>, pat: Seq<char>, i: int) -> bool {
    0 <= i && i + pat.len() <= s.len() && s.subrange(i, i + pat.len() as int) == pat
}

/// Index of the first occurrence of `pat` in `s`, or -1 when there is none.
pub open spec fn find_first(s: Seq<char>, pat: Seq<char>) -> int
    decreases s.len(),
{
    if occurs_at(s, pat, 0) {
        0
    } else if s.len() == 0 {
        -1
    } else {
        let r = find_first(s.skip(1), pat);
        if r < 0 {
            -1
        } else {
            r + 1
        }
    }
}

/// `pat` occurs somewhere in `s`.
pub open spec fn contains_seq(s: Seq<char>, pat: Seq<char>) -> bool {
    find_first(s, pat) >= 0
}

proof fn lemma_occurs_skip(s: Seq<char>, pat: Seq<char>, j: int)
    requires
        j >= 1,
        s.len() >= 1,
    ensures
        occurs_at(s, pat, j) <==> occurs_at(s.skip(1), pat, j - 1),
{
    assert(s.skip(1).len() == s.len() - 1);
    if occurs_at(s, pat, j) {
        assert(s.skip(1).subrange(j - 1, j - 1 + pat.len() as int) =~= s.subrange(
            j,
            j + pat.len() as int,
        ));
    }
    if occurs_at(s.skip(1), pat, j - 1) {
        assert(s.subrange(j, j + pat.len() as int) =~= s.skip(1).subrange(
            j - 1,
            j - 1 + pat.len() as int,
        ));
    }
}

/// `find_first` points at the first occurrence: the occurrence it names is
/// real, nothing occurs earlier, and -1 means nothing occurs at all.
pub proof fn lemma_find_first(s: Seq<char>, pat: Seq<char>)
    ensures
        find_first(s, pat) >= -1,
        find_first(s, pat) >= 0 ==> occurs_at(s, pat, find_first(s, pat)),
        forall|j: int| 0 <= j < find_first(s, pat) ==> !occurs_at(s, pat, j),
        find_first(s, pat) == -1 ==> forall|j: int| !occurs_at(s, pat, j),
    decreases s.len(),
{
    if occurs_at(s, pat, 0) {
    } else if s.len() == 0 {
        assert forall|j: int| !occurs_at(s, pat, j) by {
            if occurs_at(s, pat, j) {
                assert(j == 0);
            }
        }
    } else {
        lemma_find_first(s.skip(1), pat);
        let r = find_first(s.skip(1), pat);
        if r < 0 {
            assert forall|j: int| !occurs_at(s, pat, j) by {
                if occurs_at(s, pat, j) {
                    if j >= 1 {
                        lemma_occurs_skip(s, pat, j);
                    }
                }
            }
        } else {
            lemma_occurs_skip(s, pat, r + 1);
            assert forall|j: int| 0 <= j < r + 1 implies !occurs_at(s, pat, j) by {
                if j >= 1 && occurs_at(s, pat, j) {
                    lemma_occurs_skip(s, pat, j);
                }
            }
        }
    }
}

/// An occurrence with nothing earlier is exactly what `find_first` names.
pub proof fn lemma_find_first_is(s: Seq<char>, pat: Seq<char>, i: int)
    requires
        occurs_at(s, pat, i),
        forall|j: int| 0 <= j < i ==> !occurs_at(s, pat, j),
    ensures
        find_first(s, pat) == i,
{
    lemma_find_first(s, pat);
    let f = find_first(s, pat);
    if f < 0 {
        assert(!occurs_at(s, pat, i));
    } else if f < i {
        assert(!occurs_at(s, pat, f));
    } else if f > i {
        assert(!occurs_at(s, pat, i));
    }
}

/// Segments of `s` between the occurrences of the separator `sep`, in order.
/// A string without the separator is a single segment; a separator with no
/// characters separates nothing.
pub open spec fn split_on(s: Seq<char>, sep: Seq<char>) -> Seq<Seq<char>>
    decreases s.len(),
    via split_on_decreases
{
    if sep.len() == 0 || find_first(s, sep) < 0 {
        seq![s]
    } else {
        let i = find_first(s, sep);
        seq![s.subrange(0, i)] + split_on(s.skip(i + sep.len() as int), sep)
    }
}

#[via_fn]
proof fn split_on_decreases(s: Seq<char>, sep: Seq<char>) {
    lemma_find_first(s, sep);
}

/// The segments glued back together with `sep` between consecutive ones.
pub open spec fn join_on(parts: Seq<Seq<char>>, sep: Seq<char>) -> Seq<char>
    decreases parts.len(),
{
    if parts.len() == 0 {
        Seq::empty()
    } else if parts.len() == 1 {
        parts[0]
    } else {
        parts[0] + sep + join_on(parts.skip(1), sep)
    }
}

/// Splitting yields at least one segment.
pub proof fn lemma_split_on_len(s: Seq<char>, sep: Seq<char>)
    ensures
        split_on(s, sep).len() >= 1,
{
}

/// Splitting on a separator and joining with it reproduces the input.
pub proof fn lemma_join_of_split(s: Seq<char>, sep: Seq<char>)
    requires
        sep.len() >= 1,
    ensures
        join_on(split_on(s, sep), sep) == s,
    decreases s.len(),
{
    lemma_find_first(s, sep);
    let i = find_first(s, sep);
    if i < 0 {
    } else {
        let rest = s.skip(i + sep.len() as int);
        lemma_join_of_split(rest, sep);
        let parts = split_on(s, sep);
        let tail = split_on(rest, sep);
        assert(parts == seq![s.subrange(0, i)] + tail);
        assert(parts.len() >= 2);
        assert(parts.skip(1) =~= tail);
        assert(parts[0] == s.subrange(0, i));
        assert(s.subrange(i, i + sep.len() as int) == sep);
        assert(join_on(parts, sep) == s.subrange(0, i) + sep + rest);
        assert(s.subrange(0, i) + sep + rest =~= s);
    }
}

/// Every string is a substring of itself.
pub proof fn lemma_contains_self(s: Seq<char>)
    ensures
        contains_seq(s, s),
{
    assert(s.subrange(0, s.len() as int) =~= s);
    lemma_find_first_is(s, s, 0);
}

/// A substring of either part is a substring of the concatenation.
pub proof fn lemma_contains_concat(a: Seq<char>, b: Seq<char>, pat: Seq<char>)
    ensures
        contains_seq(a, pat) ==> contains_seq(a + b, pat),
        contains_seq(b, pat) ==> contains_seq(a + b, pat),
{
    lemma_find_first(a + b, pat);
    if contains_seq(a, pat) {
        lemma_find_first(a, pat);
        let i = find_first(a, pat);
        assert((a + b).subrange(i, i + pat.len() as int) =~= a.subrange(i, i + pat.len() as int));
        assert(occurs_at(a + b, pat, i));
        if find_first(a + b, pat) == -1 {
            assert(!occurs_at(a + b, pat, i));
        }
    }
    if contains_seq(b, pat) {
        lemma_find_first(b, pat);
        let i = find_first(b, pat);
        assert((a + b).subrange(a.len() + i, a.len() + i + pat.len() as int) =~= b.subrange(
            i,
            i + pat.len() as int,
        ));
        assert(occurs_at(a + b, pat, a.len() + i));
        if find_first(a + b, pat) == -1 {
            assert(!occurs_at(a + b, pat, a.len() + i));
        }
    }
}

/// The pair (before, after) around the first occurrence of `sep` in `s`.
pub open spec fn split_once(s: Seq<char>, sep: Seq<char>) -> Option<(Seq<char>, Seq<char>)> {
    let i = find_first(s, sep);
    if i < 0 {
        None
    } else {
        Some((s.subrange(0, i), s.skip(i + sep.len() as int)))
    }
}

/// The last pair whose first component contains `needle`, if any. Matching is
/// by substring containment and later entries shadow earlier ones.
pub open spec fn last_match(ps: Seq<(Seq<char>, Seq<char>)>, needle: Seq<char>) -> Option<
    (Seq<char>, Seq<char>),
>
    decreases ps.len(),
{
    if ps.len() == 0 {
        None
    } else if contains_seq(ps.last().0, needle) {
        Some(ps.last())
    } else {
        last_match(ps.drop_last(), needle)
    }
}

/// Character-for-character string equality.
pub fn str_eq(a: &str, b: &str) -> (r: bool)
    ensures
        r == (a@ == b@),
{
    let na = a.unicode_len();
    let nb = b.unicode_len();
    if na != nb {
        return false;
    }
    let mut i: usize = 0;
    while i < na
        invariant
            na == a@.len(),
            na == b@.len(),
            0 <= i <= na,
            forall|j: int| 0 <= j < i ==> a@[j] == b@[j],
        decreases na - i,
    {
        if a.get_char(i) != b.get_char(i) {
            proof {
                assert(a@[i as int] != b@[i as int]);
            }
            return false;
        }
        i += 1;
    }
    proof {
        assert(a@ =~= b@);
    }
    true
}

/// First occurrence of `pat` in `s` as a character index, if any.
pub fn find_sub(s: &str, pat: &str) -> (r: Option<usize>)
    ensures
        match r {
            Some(i) => find_first(s@, pat@) == i as int,
            None => find_first(s@, pat@) == -1,
        },
{
    let n = s.unicode_len();
    let m = pat.unicode_len();
    if m == 0 {
        proof {
            assert(s@.subrange(0, 0) =~= pat@);
            lemma_find_first_is(s@, pat@, 0);
        }
        return Some(0);
    }
    if m > n {
        proof {
            lemma_find_first(s@, pat@);
            if find_first(s@, pat@) >= 0 {
                assert(occurs_at(s@, pat@, find_first(s@, pat@)));
            }
        }
        return None;
    }
    let mut i: usize = 0;
    while i <= n - m
        invariant
            n == s@.len(),
            m == pat@.len(),
            1 <= m <= n,
            0 <= i <= n - m + 1,
            forall|j: int| 0 <= j < i ==> !occurs_at(s@, pat@, j),
        decreases n - i,
    {
        let mut k: usize = 0;
        let mut matches = true;
        while k < m
            invariant
                n == s@.len(),
                m == pat@.len(),
                0 <= i <= n - m,
                0 <= k <= m,
                matches ==> forall|l: int| 0 <= l < k ==> s@[i + l] == pat@[l],
                !matches ==> !occurs_at(s@, pat@, i as int),
            decreases m - k,
        {
            if s.get_char(i + k) != pat.get_char(k) {
                proof {
                    if occurs_at(s@, pat@, i as int) {
                        assert(s@.subrange(i as int, i + m as int)[k as int] == pat@[k as int]);
                    }
                }
                matches = false;
                k = m;
            } else {
                k += 1;
            }
        }
        if matches {
            proof {
                assert(s@.subrange(i as int, i + m as int) =~= pat@);
                lemma_find_first_is(s@, pat@, i as int);
            }
            return Some(i);
        }
        i += 1;
    }
    proof {
        lemma_find_first(s@, pat@);
        if find_first(s@, pat@) >= 0 {
            let f = find_first(s@, pat@);
            assert(occurs_at(s@, pat@, f));
        }
    }
    None
}

/// Whether `s` contains `pat` as a substring.
pub fn contains_sub(s: &str, pat: &str) -> (r: bool)
    ensures
        r == contains_seq(s@, pat@),
{
    find_sub(s, pat).is_some()
}

/// All segments of `s` between occurrences of `sep`, in source order.
pub fn split_str(s: &str, sep: &str) -> (parts: Vec<String>)
    requires
        sep@.len() >= 1,
    ensures
        parts.deep_view() == split_on(s@, sep@),
{
    let mut parts: Vec<String> = Vec::new();
    let mut rest: &str = s;
    loop
        invariant
            sep@.len() >= 1,
            split_on(s@, sep@) == parts.deep_view() + split_on(rest@, sep@),
        decreases rest@.len(),
    {
        let ghost old_dv = parts.deep_view();
        match find_sub(rest, sep) {
            Some(i) => {
                proof {
                    lemma_find_first(rest@, sep@);
                }
                let m = sep.unicode_len();
                let n = rest.unicode_len();
                let pre = rest.substring_char(0, i);
                parts.push(pre.to_owned());
                let ghost prev = rest@;
                rest = rest.substring_char(i + m, n);
                proof {
                    assert(rest@ =~= prev.skip(i + sep@.len() as int));
                    assert(parts.deep_view() =~= old_dv.push(prev.subrange(0, i as int)));
                    assert(split_on(prev, sep@) == seq![prev.subrange(0, i as int)] + split_on(
                        rest@,
                        sep@,
                    ));
                    assert(old_dv.push(prev.subrange(0, i as int)) + split_on(rest@, sep@)
                        =~= old_dv + split_on(prev, sep@));
                }
            },
            None => {
                parts.push(rest.to_owned());
                proof {
                    assert(split_on(rest@, sep@) == seq![rest@]);
                    assert(parts.deep_view() =~= old_dv.push(rest@));
                    assert(old_dv.push(rest@) =~= old_dv + seq![rest@]);
                }
                return parts;
            },
        }
    }
}

/// The text before and after the first occurrence of `sep` in `s`, if any.
pub fn split_once_str(s: &str, sep: &str) -> (r: Option<(String, String)>)
    requires
        sep@.len() >= 1,
    ensures
        match r {
            Some(p) => split_once(s@, sep@) == Some((p.0@, p.1@)),
            None => split_once(s@, sep@) is None,
        },
{
    match find_sub(s, sep) {
        Some(i) => {
            proof {
                lemma_find_first(s@, sep@);
            }
            let n = s.unicode_len();
            let m = sep.unicode_len();
            let pre = s.substring_char(0, i).to_owned();
            let post = s.substring_char(i + m, n).to_owned();
            proof {
                assert(post@ =~= s@.skip(i + sep@.len() as int));
            }
            Some((pre, post))
        },
        None => None,
    }
}

/// Value of the last pair whose first component contains `needle`, if any.
pub fn last_match_value(ps: &Vec<(String, String)>, needle: &str) -> (r: Option<String>)
    ensures
        match r {
            Some(v) => last_match(ps.deep_view(), needle@) matches Some(p) && p.1 == v@,
            None => last_match(ps.deep_view(), needle@) is None,
        },
{
    let mut found: Option<String> = None;
    let mut i: usize = 0;
    while i < ps.len()
        invariant
            0 <= i <= ps.len(),
            match found {
                Some(v) => last_match(ps.deep_view().take(i as int), needle@) matches Some(p)
                    && p.1 == v@,
                None => last_match(ps.deep_view().take(i as int), needle@) is None,
            },
        decreases ps.len() - i,
    {
        proof {
            let dv = ps.deep_view();
            assert(dv.take(i + 1).drop_last() =~= dv.take(i as int));
            assert(dv.take(i + 1).last() == dv[i as int]);
            assert(dv[i as int] == (ps[i as int].0@, ps[i as int].1@));
        }
        if contains_sub(ps[i].0.as_str(), needle) {
            found = Some(ps[i].1.clone());
        }
        i += 1;
    }
    proof {
        assert(ps.deep_view().take(ps.len() as int) =~= ps.deep_view());
    }
    found
}

} // verus!
