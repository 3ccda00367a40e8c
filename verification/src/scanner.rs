//! Extraction of `${alias}` placeholder tokens from a template expression.
//!
//! A placeholder is `${`, followed by the shortest run of characters that
//! contains no `$`, followed by `}`. Matches are found left to right and do
//! not overlap or nest; a stray `}` is ignored, and a `${` that reaches a `$`
//! or the end of the text before any `}` yields no match at that position.

use vstd::prelude::*;

verus! {

/// The position of the `}` closing a placeholder whose content starts at `i`:
/// the first `}` at or after `i`, unless a `$` or the end of `s` comes first.
pub open spec fn close_delim(s: Seq<char>, i: int) -> Option<int>
    decreases s.len() + 1 - i,
{
    if i < 0 || i >= s.len() {
        None
    } else if s[i] == '}' {
        Some(i)
    } else if s[i] == '$' {
        None
    } else {
        close_delim(s, i + 1)
    }
}

/// Every placeholder alias in `s`, in left-to-right order of the matches.
pub open spec fn scan_spec(s: Seq<char>) -> Seq<Seq<char>>
    decreases s.len(),
    via scan_spec_decreases
{
    if s.len() < 2 {
        Seq::empty()
    } else if s[0] == '$' && s[1] == '{' {
        match close_delim(s, 2) {
            Some(j) => seq![s.subrange(2, j)] + scan_spec(s.subrange(j + 1, s.len() as int)),
            None => scan_spec(s.subrange(1, s.len() as int)),
        }
    } else {
        scan_spec(s.subrange(1, s.len() as int))
    }
}

#[via_fn]
proof fn scan_spec_decreases(s: Seq<char>) {
    if s.len() >= 2 && s[0] == '$' && s[1] == '{' {
        lemma_close_delim_bounds(s, 2);
    }
}

proof fn lemma_close_delim_bounds(s: Seq<char>, i: int)
    ensures
        close_delim(s, i) matches Some(j) ==> i <= j < s.len(),
    decreases s.len() + 1 - i,
{
    if 0 <= i < s.len() && s[i] != '}' && s[i] != '$' {
        lemma_close_delim_bounds(s, i + 1);
    }
}

proof fn lemma_close_delim_found(s: Seq<char>, i: int, m: int)
    requires
        0 <= i <= m < s.len(),
        s[m] == '}',
        forall|k: int| i <= k < m ==> s[k] != '}' && s[k] != '$',
    ensures
        close_delim(s, i) == Some(m),
    decreases m - i,
{
    if i < m {
        lemma_close_delim_found(s, i + 1, m);
    }
}

proof fn lemma_close_delim_none(s: Seq<char>, i: int, m: int)
    requires
        0 <= i <= m <= s.len(),
        m < s.len() ==> s[m] == '$',
        forall|k: int| i <= k < m ==> s[k] != '}' && s[k] != '$',
    ensures
        close_delim(s, i) == None::<int>,
    decreases m - i,
{
    if i < m {
        lemma_close_delim_none(s, i + 1, m);
    }
}

/// Scans a template expression and returns its placeholder aliases, in order
/// of appearance.
pub fn scan_placeholders(line: &str) -> (r: Vec<String>)
    ensures
        r.deep_view() == scan_spec(line@),
{
    let n: usize = line.unicode_len();
    let mut out: Vec<String> = Vec::new();
    let mut i: usize = 0;
    proof {
        assert(line@.skip(0) =~= line@);
        assert(out.deep_view() + scan_spec(line@) =~= scan_spec(line@));
    }
    while n - i > 1
        invariant
            0 <= i <= n,
            n == line@.len(),
            out.deep_view() + scan_spec(line@.skip(i as int)) == scan_spec(line@),
        decreases n - i,
    {
        let ghost t = line@.skip(i as int);
        if line.get_char(i) == '$' && line.get_char(i + 1) == '{' {
            // Look for the closing `}`; a `$` on the way cancels the match.
            let mut j: usize = i + 2;
            while j < n && line.get_char(j) != '}' && line.get_char(j) != '$'
                invariant
                    i + 2 <= j <= n,
                    n == line@.len(),
                    forall|k: int| i + 2 <= k < j ==> line@[k] != '}' && line@[k] != '$',
                decreases n - j,
            {
                j = j + 1;
            }
            proof {
                assert(t[0] == '$' && t[1] == '{');
                assert forall|k: int| 2 <= k < j - i implies t[k] != '}' && t[k] != '$' by {
                    assert(t[k] == line@[i + k]);
                }
            }
            if j < n && line.get_char(j) == '}' {
                let m: usize = j;
                proof {
                    assert(t[m - i] == '}');
                    lemma_close_delim_found(t, 2, m - i);
                    assert(t.subrange(2, m - i) =~= line@.subrange(i + 2, m as int));
                    assert(t.subrange((m - i + 1) as int, t.len() as int) =~= line@.skip(m + 1));
                    assert(scan_spec(t) == seq![line@.subrange(i + 2, m as int)] + scan_spec(
                        line@.skip(m + 1),
                    ));
                }
                let alias: String = line.substring_char(i + 2, m).to_owned();
                let ghost odv = out.deep_view();
                out.push(alias);
                proof {
                    assert(out.deep_view() =~= odv.push(line@.subrange(i + 2, m as int)));
                    assert(out.deep_view() + scan_spec(line@.skip(m + 1)) =~= scan_spec(line@));
                }
                i = m + 1;
            } else {
                proof {
                    if j < n {
                        assert(line@[j as int] == '$');
                        assert(t[j - i] == '$');
                    }
                    lemma_close_delim_none(t, 2, j - i);
                    assert(t.subrange(1, t.len() as int) =~= line@.skip(i + 1));
                    assert(scan_spec(t) == scan_spec(line@.skip(i + 1)));
                }
                i = i + 1;
            }
        } else {
            proof {
                assert(t[0] == line@[i as int] && t[1] == line@[i + 1]);
                assert(t.subrange(1, t.len() as int) =~= line@.skip(i + 1));
                assert(scan_spec(t) == scan_spec(line@.skip(i + 1)));
            }
            i = i + 1;
        }
    }
    proof {
        assert(scan_spec(line@.skip(i as int)) =~= Seq::<Seq<char>>::empty());
        assert(out.deep_view() =~= scan_spec(line@));
    }
    out
}

/// The literal text of the placeholder token for `alias`.
pub open spec fn token_of(alias: Seq<char>) -> Seq<char> {
    "${"@ + alias + "}"@
}

/// A lone placeholder token over an alias free of `$` and `}` scans to
/// exactly that alias.
pub proof fn lemma_scan_single_token(alias: Seq<char>)
    requires
        forall|i: int| 0 <= i < alias.len() ==> alias[i] != '$' && alias[i] != '}',
    ensures
        scan_spec(token_of(alias)) == seq![alias],
{
    reveal_strlit("${");
    reveal_strlit("}");
    let t = token_of(alias);
    assert(t.len() == alias.len() + 3);
    assert(t[0] == '$');
    assert(t[1] == '{');
    assert forall|k: int| 2 <= k < alias.len() + 2 implies t[k] != '}' && t[k] != '$' by {
        assert(t[k] == alias[k - 2]);
    }
    assert(t[alias.len() as int + 2] == '}');
    lemma_close_delim_found(t, 2, alias.len() + 2 as int);
    assert(t.subrange(2, alias.len() + 2 as int) =~= alias);
    let rest = t.subrange(alias.len() + 3 as int, t.len() as int);
    assert(rest.len() == 0);
    assert(scan_spec(rest) =~= Seq::<Seq<char>>::empty());
    assert(scan_spec(t) =~= seq![alias]);
}

/// Builds the literal placeholder token `${alias}`.
pub fn placeholder_token(alias: &str) -> (r: String)
    ensures
        r@ == token_of(alias@),
{
    let mut t: String = String::from_str("${");
    t.append(alias);
    t.append("}");
    t
}

} // verus!
