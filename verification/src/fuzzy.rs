//! Fuzzy matching of a typed pattern against a command name: the pattern's
//! characters must occur in the name in order, whatever their case, and a
//! match scores higher the more of its characters stand side by side and the
//! earlier it starts.

use vstd::prelude::*;
use crate::chars::{chars_of, fold_case, to_lower};

verus! {

/// What each pair of neighbouring pattern characters that are matched side by
/// side adds to the score. One position of a later start takes one off.
pub const RUN_BONUS: i128 = 16;

/// `e` places the characters of `p` from `i` on in `n` at or after `j`: one
/// position of `n` for each, in rising order, each holding the pattern's
/// character up to case.
pub open spec fn embeds_from(p: Seq<char>, n: Seq<char>, i: int, j: int, e: Seq<int>) -> bool {
    &&& e.len() == p.len() - i
    &&& forall|k: int|
        0 <= k < e.len() ==> j <= #[trigger] e[k] < n.len() && fold_case(n[e[k]]) == fold_case(
            p[i + k],
        )
    &&& forall|a: int, b: int| 0 <= a < b < e.len() ==> #[trigger] e[a] < #[trigger] e[b]
}

/// The pattern `p` is a subsequence of the name `n`, up to case: its
/// characters occur in `n` in the same order, not necessarily side by side.
pub open spec fn is_subsequence(p: Seq<char>, n: Seq<char>) -> bool {
    exists|e: Seq<int>| embeds_from(p, n, 0, 0, e)
}

/// The leftmost placement of the characters of `p` from `i` on in `n` at or
/// after `j`: each character at the first position that holds it after the
/// one before. `None` if `n` runs out first.
pub open spec fn align_from(p: Seq<char>, n: Seq<char>, i: int, j: int) -> Option<Seq<int>>
    decreases n.len() - j,
{
    if i < 0 || j < 0 || i >= p.len() {
        Some(Seq::empty())
    } else if j >= n.len() {
        None
    } else if fold_case(p[i]) == fold_case(n[j]) {
        match align_from(p, n, i + 1, j + 1) {
            Some(rest) => Some(seq![j] + rest),
            None => None,
        }
    } else {
        align_from(p, n, i, j + 1)
    }
}

/// The leftmost placement of `p` in `n`, if `p` is a subsequence of `n`.
pub open spec fn alignment(p: Seq<char>, n: Seq<char>) -> Option<Seq<int>> {
    align_from(p, n, 0, 0)
}

/// How many positions of `e` directly follow the position before them.
pub open spec fn adjacent_pairs(e: Seq<int>) -> nat
    decreases e.len(),
{
    if e.len() < 2 {
        0
    } else {
        adjacent_pairs(e.drop_last()) + if e[e.len() - 1] == e[e.len() - 2] + 1 {
            1nat
        } else {
            0nat
        }
    }
}

/// The score of a placement: `RUN_BONUS` for each position that directly
/// follows the one before it, less the position of the first. Nothing placed
/// scores 0.
pub open spec fn placement_score(e: Seq<int>) -> int {
    if e.len() == 0 {
        0
    } else {
        RUN_BONUS * adjacent_pairs(e) - e[0]
    }
}

/// The score of the name `n` for the pattern `p`: that of the leftmost
/// placement of `p` in `n`, and `None` where `p` is no subsequence of `n`. The
/// empty pattern matches every name with score 0.
pub open spec fn fuzzy_score(p: Seq<char>, n: Seq<char>) -> Option<int> {
    match alignment(p, n) {
        Some(e) => Some(placement_score(e)),
        None => None,
    }
}

/// The leftmost placement is a placement.
pub proof fn lemma_alignment_embeds(p: Seq<char>, n: Seq<char>, i: int, j: int)
    requires
        0 <= i <= p.len(),
        0 <= j,
        align_from(p, n, i, j) is Some,
    ensures
        embeds_from(p, n, i, j, align_from(p, n, i, j)->0),
    decreases n.len() - j,
{
    if i < p.len() {
        if fold_case(p[i]) == fold_case(n[j]) {
            lemma_alignment_embeds(p, n, i + 1, j + 1);
            let rest = align_from(p, n, i + 1, j + 1)->0;
            let e = seq![j] + rest;
            assert forall|k: int| 0 <= k < e.len() implies j <= #[trigger] e[k] < n.len()
                && fold_case(n[e[k]]) == fold_case(p[i + k]) by {
                if k > 0 {
                    assert(e[k] == rest[k - 1]);
                }
            }
            assert forall|a: int, b: int| 0 <= a < b < e.len() implies #[trigger] e[a]
                < #[trigger] e[b] by {
                assert(e[b] == rest[b - 1]);
                if a > 0 {
                    assert(e[a] == rest[a - 1]);
                }
            }
        } else {
            lemma_alignment_embeds(p, n, i, j + 1);
        }
    }
}

/// Where any placement exists, the leftmost one does.
pub proof fn lemma_embedding_aligns(p: Seq<char>, n: Seq<char>, i: int, j: int, e: Seq<int>)
    requires
        0 <= i <= p.len(),
        0 <= j,
        embeds_from(p, n, i, j, e),
    ensures
        align_from(p, n, i, j) is Some,
    decreases n.len() - j,
{
    if i < p.len() {
        assert(j <= e[0] < n.len());
        if fold_case(p[i]) == fold_case(n[j]) {
            let rest = e.skip(1);
            assert forall|k: int| 0 <= k < rest.len() implies j + 1 <= #[trigger] rest[k] < n.len()
                && fold_case(n[rest[k]]) == fold_case(p[i + 1 + k]) by {
                assert(rest[k] == e[k + 1]);
                assert(e[0] < e[k + 1]);
            }
            assert forall|a: int, b: int| 0 <= a < b < rest.len() implies #[trigger] rest[a]
                < #[trigger] rest[b] by {
                assert(rest[a] == e[a + 1]);
                assert(rest[b] == e[b + 1]);
            }
            lemma_embedding_aligns(p, n, i + 1, j + 1, rest);
        } else {
            assert forall|k: int| 0 <= k < e.len() implies j + 1 <= #[trigger] e[k] by {
                if k > 0 {
                    assert(e[0] < e[k]);
                }
            }
            lemma_embedding_aligns(p, n, i, j + 1, e);
        }
    }
}

/// A name has a score exactly if the pattern is a subsequence of it: names
/// in which the pattern's characters do not occur in order are discarded, and
/// no others.
pub proof fn lemma_score_iff_subsequence(p: Seq<char>, n: Seq<char>)
    ensures
        fuzzy_score(p, n) is Some <==> is_subsequence(p, n),
{
    if alignment(p, n) is Some {
        lemma_alignment_embeds(p, n, 0, 0);
    }
    if is_subsequence(p, n) {
        let e = choose|e: Seq<int>| embeds_from(p, n, 0, 0, e);
        lemma_embedding_aligns(p, n, 0, 0, e);
    }
}

/// The empty pattern matches every name, with score 0.
pub proof fn lemma_empty_pattern(n: Seq<char>)
    ensures
        fuzzy_score(Seq::<char>::empty(), n) == Some(0int),
{
}

/// A placement of `m` characters has at most `m - 1` that follow their
/// neighbour directly.
pub proof fn lemma_adjacent_pairs_bound(e: Seq<int>)
    ensures
        adjacent_pairs(e) <= e.len(),
        e.len() > 0 ==> adjacent_pairs(e) < e.len(),
    decreases e.len(),
{
    if e.len() >= 2 {
        lemma_adjacent_pairs_bound(e.drop_last());
    }
}

/// Of two placements, the one with more positions that directly follow their
/// neighbour scores higher if it starts no later, and the one that starts
/// earlier scores higher if it has no fewer such positions.
pub proof fn lemma_score_rewards(a: Seq<int>, b: Seq<int>)
    requires
        a.len() > 0,
        b.len() > 0,
        adjacent_pairs(a) >= adjacent_pairs(b),
        a[0] <= b[0],
    ensures
        placement_score(a) >= placement_score(b),
        adjacent_pairs(a) > adjacent_pairs(b) || a[0] < b[0] ==> placement_score(a)
            > placement_score(b),
{
    assert(RUN_BONUS * adjacent_pairs(a) >= RUN_BONUS * adjacent_pairs(b)) by (nonlinear_arith)
        requires
            adjacent_pairs(a) >= adjacent_pairs(b),
            RUN_BONUS == 16,
    ;
    if adjacent_pairs(a) > adjacent_pairs(b) {
        assert(RUN_BONUS * adjacent_pairs(a) > RUN_BONUS * adjacent_pairs(b)) by (nonlinear_arith)
            requires
                adjacent_pairs(a) > adjacent_pairs(b),
                RUN_BONUS == 16,
        ;
    }
}

/// Scores `name` for `pattern`.
pub fn score(pattern: &Vec<char>, name: &Vec<char>) -> (r: Option<i128>)
    ensures
        r is Some <==> fuzzy_score(pattern@, name@) is Some,
        r is Some ==> r->0 == fuzzy_score(pattern@, name@)->0,
        r is Some <==> is_subsequence(pattern@, name@),
{
    let ghost p = pattern@;
    let ghost n = name@;
    let mut i: usize = 0;
    let mut j: usize = 0;
    let mut adjacent: usize = 0;
    let mut start: usize = 0;
    let mut last: usize = 0;
    let ghost mut found: Seq<int> = Seq::empty();
    proof {
        lemma_score_iff_subsequence(p, n);
        assert(found + align_from(p, n, 0, 0)->0 == align_from(p, n, 0, 0)->0);
    }
    while i < pattern.len() && j < name.len()
        invariant
            p == pattern@,
            n == name@,
            i <= p.len(),
            j <= n.len(),
            found.len() == i,
            i > 0 ==> last == found.last() && last < j && start == found[0],
            adjacent == adjacent_pairs(found),
            alignment(p, n) is Some <==> align_from(p, n, i as int, j as int) is Some,
            alignment(p, n) is Some ==> alignment(p, n)->0 == found + align_from(
                p,
                n,
                i as int,
                j as int,
            )->0,
        decreases n.len() - j,
    {
        if to_lower(pattern[i]) == to_lower(name[j]) {
            proof {
                lemma_adjacent_pairs_bound(found);
                assert(found.push(j as int).drop_last() == found);
                if align_from(p, n, i + 1, j + 1) is Some {
                    let rest = align_from(p, n, i + 1, j + 1)->0;
                    assert(found + (seq![j as int] + rest) == found.push(j as int) + rest);
                }
            }
            if i > 0 && last + 1 == j {
                adjacent = adjacent + 1;
            }
            if i == 0 {
                start = j;
            }
            last = j;
            i = i + 1;
            proof {
                found = found.push(j as int);
            }
        }
        j = j + 1;
    }
    if i == pattern.len() {
        proof {
            assert(found + Seq::<int>::empty() == found);
            lemma_adjacent_pairs_bound(found);
        }
        if i == 0 {
            Some(0)
        } else {
            let run: i128 = adjacent as i128;
            let from: i128 = start as i128;
            Some(RUN_BONUS * run - from)
        }
    } else {
        None
    }
}

/// Scores the name `name` for the pattern `pattern`: `None` if the
/// characters of `pattern` do not occur in `name` in order, up to case.
pub fn score_str(pattern: &str, name: &str) -> (r: Option<i128>)
    ensures
        r is Some <==> fuzzy_score(pattern@, name@) is Some,
        r is Some ==> r->0 == fuzzy_score(pattern@, name@)->0,
        r is Some <==> is_subsequence(pattern@, name@),
{
    let p = chars_of(pattern);
    let n = chars_of(name);
    score(&p, &n)
}

} // verus!
