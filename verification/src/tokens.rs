//! Splitting a line into tokens: the maximal runs of characters that hold no
//! whitespace.

use vstd::prelude::*;
use crate::chars::{is_space, is_whitespace, views};

verus! {

/// The first position at or after `i` that holds no whitespace, or the length
/// of `s` if there is none.
pub open spec fn skip_spaces(s: Seq<char>, i: int) -> int
    decreases s.len() - i,
{
    if 0 <= i < s.len() && is_space(s[i]) {
        skip_spaces(s, i + 1)
    } else {
        i
    }
}

/// The first position at or after `i` that holds whitespace, or the length of
/// `s` if there is none.
pub open spec fn word_end(s: Seq<char>, i: int) -> int
    decreases s.len() - i,
{
    if 0 <= i < s.len() && !is_space(s[i]) {
        word_end(s, i + 1)
    } else {
        i
    }
}

/// Where whitespace skipping from `i` ends: at or after `i`, within `s`, on a
/// character that is no whitespace if on any.
pub proof fn lemma_skip_spaces(s: Seq<char>, i: int)
    requires
        0 <= i <= s.len(),
    ensures
        i <= skip_spaces(s, i) <= s.len(),
        skip_spaces(s, i) < s.len() ==> !is_space(s[skip_spaces(s, i)]),
        forall|k: int| i <= k < skip_spaces(s, i) ==> is_space(#[trigger] s[k]),
    decreases s.len() - i,
{
    if i < s.len() && is_space(s[i]) {
        lemma_skip_spaces(s, i + 1);
    }
}

/// Where the word that starts at `i` ends: within `s`, on whitespace if on any
/// character, and after `i` if `i` holds a character that is no whitespace.
pub proof fn lemma_word_end(s: Seq<char>, i: int)
    requires
        0 <= i <= s.len(),
    ensures
        i <= word_end(s, i) <= s.len(),
        word_end(s, i) < s.len() ==> is_space(s[word_end(s, i)]),
        i < s.len() && !is_space(s[i]) ==> i < word_end(s, i),
        forall|k: int| i <= k < word_end(s, i) ==> !is_space(#[trigger] s[k]),
    decreases s.len() - i,
{
    if i < s.len() && !is_space(s[i]) {
        lemma_word_end(s, i + 1);
    }
}

/// The tokens of `s` that start at or after `i`.
pub open spec fn tokens_from(s: Seq<char>, i: int) -> Seq<Seq<char>>
    decreases s.len() - i,
{
    let start = skip_spaces(s, i);
    if 0 <= i && start < s.len() {
        let end = word_end(s, start);
        proof {
            lemma_skip_spaces(s, i);
            lemma_word_end(s, start);
        }
        seq![s.subrange(start, end)] + tokens_from(s, end)
    } else {
        Seq::empty()
    }
}

/// The tokens of `s`: its maximal runs of characters that are no whitespace,
/// in order.
pub open spec fn tokens(s: Seq<char>) -> Seq<Seq<char>> {
    tokens_from(s, 0)
}

/// Whether `s` ends with a whitespace character.
pub open spec fn ends_with_space(s: Seq<char>) -> bool {
    s.len() > 0 && is_space(s.last())
}

/// Every token holds at least one character and no whitespace.
pub proof fn lemma_tokens_are_words(s: Seq<char>, i: int)
    requires
        0 <= i <= s.len(),
    ensures
        forall|k: int|
            0 <= k < tokens_from(s, i).len() ==> (#[trigger] tokens_from(s, i)[k]).len() > 0,
        forall|k: int, j: int|
            0 <= k < tokens_from(s, i).len() && 0 <= j < tokens_from(s, i)[k].len() ==> !is_space(
                #[trigger] tokens_from(s, i)[k][j],
            ),
    decreases s.len() - i,
{
    let start = skip_spaces(s, i);
    lemma_skip_spaces(s, i);
    if start < s.len() {
        let end = word_end(s, start);
        lemma_word_end(s, start);
        lemma_tokens_are_words(s, end);
        let first = s.subrange(start, end);
        let rest = tokens_from(s, end);
        assert(tokens_from(s, i) == seq![first] + rest);
        assert forall|k: int, j: int|
            0 <= k < tokens_from(s, i).len() && 0 <= j < tokens_from(s, i)[k].len() implies !is_space(
            #[trigger] tokens_from(s, i)[k][j],
        ) by {
            if k == 0 {
                assert(first[j] == s[start + j]);
            } else {
                assert(tokens_from(s, i)[k] == rest[k - 1]);
            }
        }
        assert forall|k: int| 0 <= k < tokens_from(s, i).len() implies (#[trigger] tokens_from(
            s,
            i,
        )[k]).len() > 0 by {
            if k > 0 {
                assert(tokens_from(s, i)[k] == rest[k - 1]);
            }
        }
    }
}

/// A text that holds only whitespace from `i` on has no token from `i` on.
pub proof fn lemma_no_tokens_in_spaces(s: Seq<char>, i: int)
    requires
        0 <= i <= s.len(),
        forall|k: int| i <= k < s.len() ==> is_space(#[trigger] s[k]),
    ensures
        tokens_from(s, i) == Seq::<Seq<char>>::empty(),
{
    lemma_skip_spaces(s, i);
}

/// In a text that ends with a character that is no whitespace, the last token
/// is the end of the text: the text is what stands before that token,
/// followed by the token.
pub proof fn lemma_last_token_is_suffix(s: Seq<char>, i: int)
    requires
        0 <= i < s.len(),
        !is_space(s.last()),
    ensures
        tokens_from(s, i).len() > 0,
        tokens_from(s, i).last().len() <= s.len() - i,
        tokens_from(s, i).last() == s.skip(s.len() - tokens_from(s, i).last().len()),
    decreases s.len() - i,
{
    let start = skip_spaces(s, i);
    lemma_skip_spaces(s, i);
    let end = word_end(s, start);
    lemma_word_end(s, start);
    let first = s.subrange(start, end);
    let rest = tokens_from(s, end);
    assert(tokens_from(s, i) == seq![first] + rest);
    if end < s.len() {
        lemma_last_token_is_suffix(s, end);
        assert(tokens_from(s, i).last() == rest.last());
    } else {
        assert(rest == Seq::<Seq<char>>::empty());
        assert(tokens_from(s, i).last() == first);
        assert(first == s.skip(s.len() - first.len()));
    }
}

/// Skipping whitespace looks at nothing but the characters it skips and the
/// one it stops at: within a prefix `a` of `a + b` it goes as in `a`, and
/// where `a` is all whitespace from `i` on it goes on into `b`.
pub proof fn lemma_skip_spaces_in_prefix(a: Seq<char>, b: Seq<char>, i: int)
    requires
        0 <= i <= a.len(),
    ensures
        skip_spaces(a, i) < a.len() ==> skip_spaces(a + b, i) == skip_spaces(a, i),
        skip_spaces(a, i) >= a.len() ==> skip_spaces(a + b, i) == skip_spaces(
            a + b,
            a.len() as int,
        ),
    decreases a.len() - i,
{
    if i < a.len() {
        assert((a + b)[i] == a[i]);
        if is_space(a[i]) {
            lemma_skip_spaces_in_prefix(a, b, i + 1);
        }
    }
}

/// A word that ends within a prefix `a` of `a + b` ends there in `a + b`
/// too.
pub proof fn lemma_word_end_in_prefix(a: Seq<char>, b: Seq<char>, i: int)
    requires
        0 <= i <= a.len(),
    ensures
        word_end(a, i) < a.len() ==> word_end(a + b, i) == word_end(a, i),
    decreases a.len() - i,
{
    if i < a.len() {
        assert((a + b)[i] == a[i]);
        if !is_space(a[i]) {
            lemma_word_end_in_prefix(a, b, i + 1);
        }
    }
}

/// Behind a prefix `a`, whitespace is skipped and words end in `a + b` as
/// they do in `b`, and the tokens are those of `b`.
pub proof fn lemma_tokens_behind_prefix(a: Seq<char>, b: Seq<char>, i: int)
    requires
        0 <= i <= b.len(),
    ensures
        skip_spaces(a + b, a.len() + i) == a.len() + skip_spaces(b, i),
        word_end(a + b, a.len() + i) == a.len() + word_end(b, i),
        tokens_from(a + b, a.len() + i) == tokens_from(b, i),
    decreases b.len() - i, 2int,
{
    lemma_shift(a, b, i);
    let start = skip_spaces(b, i);
    lemma_skip_spaces(b, i);
    if start < b.len() {
        let end = word_end(b, start);
        lemma_word_end(b, start);
        lemma_shift(a, b, start);
        lemma_tokens_behind_prefix(a, b, end);
        assert((a + b).subrange(a.len() + start, a.len() + end) == b.subrange(start, end));
    }
}

/// Behind a prefix `a`, whitespace is skipped and words end in `a + b` as
/// they do in `b`.
proof fn lemma_shift(a: Seq<char>, b: Seq<char>, i: int)
    requires
        0 <= i <= b.len(),
    ensures
        skip_spaces(a + b, a.len() + i) == a.len() + skip_spaces(b, i),
        word_end(a + b, a.len() + i) == a.len() + word_end(b, i),
    decreases b.len() - i, 1int,
{
    if i < b.len() {
        assert((a + b)[a.len() + i] == b[i]);
        lemma_shift(a, b, i + 1);
    }
}

/// A text that is cut behind whitespace, or before its first character, has
/// the tokens of the part before the cut followed by those of the part
/// behind it.
pub proof fn lemma_tokens_concat(a: Seq<char>, b: Seq<char>)
    requires
        a.len() == 0 || is_space(a.last()),
    ensures
        tokens(a + b) == tokens(a) + tokens(b),
{
    lemma_tokens_upto_cut(a, b, 0);
    lemma_tokens_behind_prefix(a, b, 0);
}

/// The tokens of `a + b` from a position within `a`, where `a` ends with
/// whitespace: those of `a` from there, then all that start behind `a`.
proof fn lemma_tokens_upto_cut(a: Seq<char>, b: Seq<char>, i: int)
    requires
        0 <= i <= a.len(),
        a.len() == 0 || is_space(a.last()),
    ensures
        tokens_from(a + b, i) == tokens_from(a, i) + tokens_from(a + b, a.len() as int),
    decreases a.len() - i,
{
    let s = a + b;
    let n = a.len() as int;
    lemma_skip_spaces(a, i);
    lemma_skip_spaces_in_prefix(a, b, i);
    let start = skip_spaces(a, i);
    if start < n {
        lemma_word_end(a, start);
        lemma_word_end_in_prefix(a, b, start);
        let end = word_end(a, start);
        assert(end < n) by {
            if end >= n {
                assert(!is_space(a[n - 1]));
            }
        }
        lemma_tokens_upto_cut(a, b, end);
        assert(s.subrange(start, end) == a.subrange(start, end));
        assert(seq![a.subrange(start, end)] + (tokens_from(a, end) + tokens_from(s, n)) == (
        seq![a.subrange(start, end)] + tokens_from(a, end)) + tokens_from(s, n));
    } else {
        assert(tokens_from(a, i) == Seq::<Seq<char>>::empty());
        assert(Seq::<Seq<char>>::empty() + tokens_from(s, n) == tokens_from(s, n));
    }
}

/// A word, that is one character or more and none of them whitespace, is its
/// own single token, also with one whitespace character behind it.
pub proof fn lemma_tokens_of_word(word: Seq<char>, space: char)
    requires
        word.len() > 0,
        forall|k: int| 0 <= k < word.len() ==> !is_space(#[trigger] word[k]),
        is_space(space),
    ensures
        tokens(word) == seq![word],
        tokens(word + seq![space]) == seq![word],
{
    let n = word.len() as int;
    lemma_word_runs(word, 0);
    assert(!is_space(word[0]));
    assert(skip_spaces(word, 0) == 0);
    assert(word.subrange(0, n) == word);
    assert(tokens_from(word, n) == Seq::<Seq<char>>::empty());
    assert(tokens_from(word, 0) == seq![word] + tokens_from(word, n));
    assert(seq![word] + Seq::<Seq<char>>::empty() == seq![word]);
    let s = word + seq![space];
    assert forall|k: int| 0 <= k < n implies !is_space(#[trigger] s[k]) by {
        assert(s[k] == word[k]);
    }
    assert(s[n] == space);
    lemma_word_runs_to(s, 0, n);
    assert(!is_space(s[0]));
    assert(skip_spaces(s, 0) == 0);
    assert(s.subrange(0, n) == word);
    assert(skip_spaces(s, n + 1) == n + 1);
    assert(skip_spaces(s, n) == n + 1);
    assert(tokens_from(s, n) == Seq::<Seq<char>>::empty());
    assert(tokens_from(s, 0) == seq![word] + tokens_from(s, n));
}

/// In a text without whitespace every word runs to the end.
proof fn lemma_word_runs(s: Seq<char>, i: int)
    requires
        0 <= i <= s.len(),
        forall|k: int| 0 <= k < s.len() ==> !is_space(#[trigger] s[k]),
    ensures
        word_end(s, i) == s.len(),
    decreases s.len() - i,
{
    if i < s.len() {
        lemma_word_runs(s, i + 1);
    }
}

/// A word runs to the first whitespace behind it.
proof fn lemma_word_runs_to(s: Seq<char>, i: int, end: int)
    requires
        0 <= i <= end < s.len(),
        forall|k: int| i <= k < end ==> !is_space(#[trigger] s[k]),
        is_space(s[end]),
    ensures
        word_end(s, i) == end,
    decreases end - i,
{
    if i < end {
        lemma_word_runs_to(s, i + 1, end);
    }
}

/// In a text that ends with a character that is no whitespace, the last
/// token starts the text or stands behind whitespace.
pub proof fn lemma_last_token_start(s: Seq<char>, i: int)
    requires
        0 <= i < s.len(),
        !is_space(s.last()),
        i == 0 || is_space(s[i - 1]) || is_space(s[i]),
    ensures
        tokens_from(s, i).len() > 0,
        i <= s.len() - tokens_from(s, i).last().len(),
        s.len() - tokens_from(s, i).last().len() == 0 || is_space(
            s[s.len() - tokens_from(s, i).last().len() - 1],
        ),
    decreases s.len() - i,
{
    let start = skip_spaces(s, i);
    lemma_skip_spaces(s, i);
    let end = word_end(s, start);
    lemma_word_end(s, start);
    let first = s.subrange(start, end);
    let rest = tokens_from(s, end);
    assert(tokens_from(s, i) == seq![first] + rest);
    if start > i {
        assert(is_space(s[start - 1]));
    }
    if end < s.len() {
        lemma_last_token_start(s, end);
        assert(tokens_from(s, i).last() == rest.last());
    } else {
        assert(rest == Seq::<Seq<char>>::empty());
        assert(tokens_from(s, i).last() == first);
    }
}

/// Splits `s` into its tokens.
pub fn split_tokens(s: &Vec<char>) -> (r: Vec<Vec<char>>)
    ensures
        views(r@) == tokens(s@),
{
    let mut out: Vec<Vec<char>> = Vec::new();
    let mut i: usize = 0;
    loop
        invariant
            i <= s.len(),
            tokens(s@) == views(out@) + tokens_from(s@, i as int),
        ensures
            tokens(s@) == views(out@),
        decreases s.len() - i,
    {
        let ghost from = i as int;
        while i < s.len() && is_whitespace(s[i])
            invariant
                from <= i <= s.len(),
                skip_spaces(s@, i as int) == skip_spaces(s@, from),
            decreases s.len() - i,
        {
            i += 1;
        }
        if i >= s.len() {
            assert(views(out@) + Seq::<Seq<char>>::empty() == views(out@));
            break;
        }
        let start = i;
        let mut word: Vec<char> = Vec::new();
        while i < s.len() && !is_whitespace(s[i])
            invariant
                start <= i <= s.len(),
                word_end(s@, i as int) == word_end(s@, start as int),
                word@ == s@.subrange(start as int, i as int),
            decreases s.len() - i,
        {
            word.push(s[i]);
            assert(s@.subrange(start as int, i + 1) == s@.subrange(start as int, i as int).push(
                s@[i as int],
            ));
            i += 1;
        }
        proof {
            lemma_word_end(s@, start as int);
            assert(views(out@.push(word)) == views(out@) + seq![word@]);
            assert(views(out@) + (seq![word@] + tokens_from(s@, i as int)) == (views(out@)
                + seq![word@]) + tokens_from(s@, i as int));
        }
        out.push(word);
    }
    out
}

/// Tells whether `s` ends with a whitespace character.
pub fn ends_with_whitespace(s: &Vec<char>) -> (r: bool)
    ensures
        r == ends_with_space(s@),
{
    s.len() > 0 && is_whitespace(s[s.len() - 1])
}

} // verus!
