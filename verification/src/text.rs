//! Verified character-level string operations: equality, substring search,
//! and first-occurrence replacement.

use vstd::prelude::*;

verus! {

/// Whether `pat` occurs in `s` starting at position `i`.
pub open spec fn is_match_at(s: Seq<char>, pat: Seq<char>, i: int) -> bool {
    0 <= i && i + pat.len() <= s.len() && s.subrange(i, i + pat.len() as int) == pat
}

/// The least position `>= i` at which `pat` occurs in `s`, if any.
pub open spec fn find_from(s: Seq<char>, pat: Seq<char>, i: int) -> Option<int>
    decreases s.len() + 1 - i,
{
    if i + pat.len() > s.len() {
        None
    } else if is_match_at(s, pat, i) {
        Some(i)
    } else {
        find_from(s, pat, i + 1)
    }
}

/// `s` with the first occurrence of `pat` (if any) replaced by `rep`.
pub open spec fn replace_first_spec(s: Seq<char>, pat: Seq<char>, rep: Seq<char>) -> Seq<char> {
    match find_from(s, pat, 0) {
        None => s,
        Some(i) => s.subrange(0, i) + rep + s.subrange(i + pat.len() as int, s.len() as int),
    }
}

proof fn lemma_find_from_found(s: Seq<char>, pat: Seq<char>, lo: int, i: int)
    requires
        lo <= i,
        is_match_at(s, pat, i),
        forall|k: int| lo <= k < i ==> !is_match_at(s, pat, k),
    ensures
        find_from(s, pat, lo) == Some(i),
    decreases i - lo,
{
    if lo < i {
        lemma_find_from_found(s, pat, lo + 1, i);
    }
}

proof fn lemma_find_from_none(s: Seq<char>, pat: Seq<char>, lo: int)
    requires
        forall|k: int| lo <= k ==> !is_match_at(s, pat, k),
    ensures
        find_from(s, pat, lo) == None::<int>,
    decreases s.len() + 1 - lo,
{
    if lo + pat.len() <= s.len() {
        lemma_find_from_none(s, pat, lo + 1);
    }
}

/// Whether the characters of `a` and `b` are the same sequence.
pub fn str_eq(a: &str, b: &str) -> (r: bool)
    ensures
        r == (a@ == b@),
{
    let an: usize = a.unicode_len();
    let bn: usize = b.unicode_len();
    if an != bn {
        return false;
    }
    let mut i: usize = 0;
    while i < an
        invariant
            0 <= i <= an,
            an == a@.len(),
            an == b@.len(),
            forall|k: int| 0 <= k < i ==> a@[k] == b@[k],
        decreases an - i,
    {
        if a.get_char(i) != b.get_char(i) {
            return false;
        }
        i = i + 1;
    }
    proof {
        assert(a@ =~= b@);
    }
    true
}

/// The least position at which `pat` occurs in `s`, if any.
pub fn find_first(s: &str, pat: &str) -> (r: Option<usize>)
    ensures
        match r {
            Some(i) => find_from(s@, pat@, 0) == Some(i as int) && is_match_at(s@, pat@, i as int),
            None => find_from(s@, pat@, 0) == None::<int>,
        },
{
    let n: usize = s.unicode_len();
    let m: usize = pat.unicode_len();
    if m > n {
        proof {
            assert(forall|k: int| 0 <= k ==> !is_match_at(s@, pat@, k));
            lemma_find_from_none(s@, pat@, 0);
        }
        return None;
    }
    let mut i: usize = 0;
    while i <= n - m
        invariant
            0 <= i <= n - m + 1,
            m <= n,
            n == s@.len(),
            m == pat@.len(),
            forall|k: int| 0 <= k < i ==> !is_match_at(s@, pat@, k),
        decreases n + 1 - m - i,
    {
        let mut j: usize = 0;
        let mut hit: bool = true;
        while j < m
            invariant
                0 <= j <= m,
                0 <= i,
                i + m <= n,
                n == s@.len(),
                m == pat@.len(),
                hit == (forall|k: int| 0 <= k < j ==> s@[i + k] == pat@[k]),
            decreases m - j,
        {
            if s.get_char(i + j) != pat.get_char(j) {
                hit = false;
                proof {
                    assert(s@[i + j] != pat@[j as int]);
                }
                j = m;
            } else {
                j = j + 1;
            }
        }
        if hit {
            proof {
                assert(s@.subrange(i as int, i + m as int) =~= pat@);
                lemma_find_from_found(s@, pat@, 0, i as int);
            }
            return Some(i);
        }
        proof {
            if is_match_at(s@, pat@, i as int) {
                assert(forall|k: int| 0 <= k < m ==> #[trigger] s@.subrange(
                    i as int,
                    i + m as int,
                )[k] == s@[i + k]);
                assert(false);
            }
        }
        i = i + 1;
    }
    proof {
        assert(forall|k: int| 0 <= k ==> !is_match_at(s@, pat@, k));
        lemma_find_from_none(s@, pat@, 0);
    }
    None
}

/// `s` with the first occurrence of `pat` (if any) replaced by `rep`.
pub fn replace_first(s: &str, pat: &str, rep: &str) -> (r: String)
    ensures
        r@ == replace_first_spec(s@, pat@, rep@),
{
    let n: usize = s.unicode_len();
    let m: usize = pat.unicode_len();
    match find_first(s, pat) {
        None => s.to_owned(),
        Some(i) => {
            let mut out: String = s.substring_char(0, i).to_owned();
            out.append(rep);
            out.append(s.substring_char(i + m, n));
            out
        },
    }
}

} // verus!
