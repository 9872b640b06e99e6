//! Character-level helpers for the protocol's text handling: equality of
//! string slices and first-occurrence substring search, both with exact
//! specifications over `Seq<char>`.

use vstd::prelude::*;

verus! {

/// True when `pat` occurs in `s` starting at index `i`.
pub open spec fn match_at(s: Seq<char>, pat: Seq<char>, i: int) -> bool {
    0 <= i && i + pat.len() <= s.len() && s.subrange(i, i + pat.len() as int) == pat
}

/// Index of the first occurrence of `pat` in `s`, or `None` when `pat`
/// does not occur in `s`.
pub open spec fn find_sub(s: Seq<char>, pat: Seq<char>) -> Option<int>
    decreases s.len(),
{
    if pat.len() == 0 {
        Some(0)
    } else if s.len() < pat.len() {
        None
    } else if s.subrange(0, pat.len() as int) == pat {
        Some(0)
    } else {
        match find_sub(s.drop_first(), pat) {
            Some(i) => Some(i + 1),
            None => None,
        }
    }
}

proof fn lemma_match_shift(s: Seq<char>, pat: Seq<char>, j: int)
    requires
        s.len() >= 1,
        0 <= j,
    ensures
        match_at(s, pat, j + 1) <==> match_at(s.drop_first(), pat, j),
{
    if j + 1 + pat.len() <= s.len() {
        assert(s.drop_first().subrange(j, j + pat.len() as int) =~= s.subrange(
            j + 1,
            j + 1 + pat.len() as int,
        ));
    }
}

/// `find_sub` returns the first match: a returned index matches and no
/// earlier index does; `None` means no index matches at all.
pub proof fn lemma_find_sub_first(s: Seq<char>, pat: Seq<char>)
    ensures
        match find_sub(s, pat) {
            Some(i) => match_at(s, pat, i) && (forall|j: int|
                0 <= j < i ==> !match_at(s, pat, j)),
            None => forall|j: int| !match_at(s, pat, j),
        },
    decreases s.len(),
{
    if pat.len() == 0 {
        assert(s.subrange(0, 0) =~= pat);
    } else if s.len() < pat.len() {
    } else if s.subrange(0, pat.len() as int) == pat {
    } else {
        lemma_find_sub_first(s.drop_first(), pat);
        assert forall|j: int| 0 <= j implies (match_at(s, pat, j + 1) <==> match_at(
            s.drop_first(),
            pat,
            j,
        )) by {
            lemma_match_shift(s, pat, j);
        }
        match find_sub(s.drop_first(), pat) {
            Some(i) => {
                assert forall|j: int| 0 <= j < i + 1 implies !match_at(s, pat, j) by {
                    if j > 0 {
                        lemma_match_shift(s, pat, j - 1);
                    }
                }
            },
            None => {
                assert forall|j: int| !match_at(s, pat, j) by {
                    if j > 0 {
                        lemma_match_shift(s, pat, j - 1);
                    }
                }
            },
        }
    }
}

/// Character-for-character equality of two string slices.
pub fn str_eq(a: &str, b: &str) -> (r: bool)
    ensures
        r == (a@ == b@),
{
    let n = a.unicode_len();
    if n != b.unicode_len() {
        return false;
    }
    let mut i: usize = 0;
    while i < n
        invariant
            i <= n,
            n == a@.len(),
            n == b@.len(),
            forall|k: int| 0 <= k < i ==> a@[k] == b@[k],
        decreases n - i,
    {
        if a.get_char(i) != b.get_char(i) {
            return false;
        }
        i += 1;
    }
    proof {
        assert(a@ =~= b@);
    }
    true
}

/// First occurrence of `pat` in `s`, as `find_sub` names it.
pub fn find_first(s: &str, pat: &str) -> (r: Option<usize>)
    ensures
        match r {
            Some(i) => find_sub(s@, pat@) == Some(i as int),
            None => find_sub(s@, pat@) is None,
        },
{
    let n = s.unicode_len();
    let m = pat.unicode_len();
    proof {
        lemma_find_sub_first(s@, pat@);
    }
    if m > n {
        return None;
    }
    if m == 0 {
        proof {
            assert(s@.subrange(0, 0) =~= pat@);
        }
        return Some(0);
    }
    let mut i: usize = 0;
    while i <= n - m
        invariant
            n == s@.len(),
            m == pat@.len(),
            1 <= m <= n,
            i <= n - m + 1,
            forall|k: int| 0 <= k < i ==> !match_at(s@, pat@, k),
        decreases n - i,
    {
        let mut j: usize = 0;
        let mut mismatch = false;
        while j < m
            invariant
                n == s@.len(),
                m == pat@.len(),
                i + m <= n,
                j <= m,
                !mismatch ==> forall|k: int| 0 <= k < j ==> s@[i + k] == pat@[k],
                mismatch ==> !match_at(s@, pat@, i as int),
            decreases m - j,
        {
            if s.get_char(i + j) != pat.get_char(j) {
                proof {
                    if match_at(s@, pat@, i as int) {
                        assert(s@.subrange(i as int, i as int + m as int)[j as int] == s@[
                            i + j
                        ]);
                    }
                }
                mismatch = true;
                j = m;
            } else {
                j += 1;
            }
        }
        if !mismatch {
            proof {
                assert forall|k: int| 0 <= k < m implies s@.subrange(
                    i as int,
                    i as int + m as int,
                )[k] == pat@[k] by {
                    assert(s@.subrange(i as int, i as int + m as int)[k] == s@[i + k]);
                }
                assert(s@.subrange(i as int, i as int + m as int) =~= pat@);
                assert(match_at(s@, pat@, i as int));
                lemma_find_sub_first(s@, pat@);
                assert(find_sub(s@, pat@) == Some(i as int)) by {
                    match find_sub(s@, pat@) {
                        Some(p) => {
                            if p < i {
                                assert(!match_at(s@, pat@, p));
                            }
                            if p > i {
                                assert(!match_at(s@, pat@, i as int));
                            }
                        },
                        None => {
                            assert(!match_at(s@, pat@, i as int));
                        },
                    }
                }
            }
            return Some(i);
        }
        i += 1;
    }
    proof {
        assert forall|k: int| !match_at(s@, pat@, k) by {
            if 0 <= k && k + m <= n {
                assert(!match_at(s@, pat@, k));
            }
        }
        lemma_find_sub_first(s@, pat@);
    }
    None
}

} // verus!
