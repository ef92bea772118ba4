//! Completion of the command line against the grammar: which commands may
//! stand where the line ends, which of them the last, unfinished token
//! matches, and in which order they are offered.

use vstd::prelude::*;
use vstd::seq_lib::{to_multiset_contains, to_multiset_insert, to_multiset_len, to_multiset_remove};
use crate::chars::{
    copy_chars, extend_chars, is_space, lemma_lex_asymmetric, lemma_lex_irreflexive, lemma_lex_total,
    lemma_lex_transitive, lex_less, lex_lt, strings_of, texts, views,
};
use crate::fuzzy::{fuzzy_score, lemma_empty_pattern, score};
use crate::grammar::{
    children_at, lemma_children_at_push, lemma_children_at_wf, names, names_of, CommandGrammar,
    Tree,
};
use crate::text_buffer::{BufferState, TextBuffer};
use crate::tokens::{
    ends_with_space, ends_with_whitespace, lemma_last_token_is_suffix, lemma_last_token_start,
    lemma_tokens_are_words, lemma_tokens_concat, lemma_tokens_of_word, split_tokens, tokens,
};

verus! {

/// The tokens of `text` that are complete: all of them where `text` ends with
/// whitespace or holds no token, and all but the last otherwise.
pub open spec fn committed_path(text: Seq<char>) -> Seq<Seq<char>> {
    if ends_with_space(text) || tokens(text).len() == 0 {
        tokens(text)
    } else {
        tokens(text).drop_last()
    }
}

/// The token of `text` that is still being typed: the last one where `text`
/// does not end with whitespace, and the empty token otherwise.
pub open spec fn partial_token(text: Seq<char>) -> Seq<char> {
    if ends_with_space(text) || tokens(text).len() == 0 {
        Seq::empty()
    } else {
        tokens(text).last()
    }
}

/// The names of the commands that may follow the complete tokens of `text`,
/// in the order of the grammar `g`.
pub open spec fn candidates(g: Seq<Tree>, text: Seq<char>) -> Seq<Seq<char>> {
    names(children_at(g, committed_path(text)))
}

/// The candidates that the token being typed matches: all of them where that
/// token is empty.
pub open spec fn survivors(g: Seq<Tree>, text: Seq<char>) -> Seq<Seq<char>> {
    candidates(g, text).filter(qualifier(partial_token(text)))
}

/// `text` with the token being typed replaced by `name` and one space.
pub open spec fn completed_text(text: Seq<char>, name: Seq<char>) -> Seq<char> {
    text.take(text.len() - partial_token(text).len()) + name + seq![' ']
}

/// The token being typed is the end of the text: the text is what stands
/// before that token, followed by it.
pub proof fn lemma_partial_ends_text(text: Seq<char>)
    ensures
        partial_token(text).len() <= text.len(),
        text == text.take(text.len() - partial_token(text).len()) + partial_token(text),
{
    if ends_with_space(text) || tokens(text).len() == 0 {
        assert(text.take(text.len() as int) + Seq::<char>::empty() == text);
    } else {
        if text.len() > 0 {
            lemma_last_token_is_suffix(text, 0);
            let cut = text.len() - partial_token(text).len();
            assert(text == text.take(cut) + text.skip(cut));
        }
    }
}

/// What stands before the token being typed is empty or ends with
/// whitespace, and its tokens are the complete tokens of the text.
pub proof fn lemma_text_before_partial(text: Seq<char>)
    ensures
        text.len() == partial_token(text).len() || is_space(
            text[text.len() - partial_token(text).len() - 1],
        ),
        tokens(text.take(text.len() - partial_token(text).len())) == committed_path(text),
{
    lemma_partial_ends_text(text);
    let partial = partial_token(text);
    let before = text.take(text.len() - partial.len());
    if ends_with_space(text) {
        assert(before == text);
    } else if text.len() == 0 {
        assert(before == text);
    } else {
        lemma_last_token_is_suffix(text, 0);
        lemma_last_token_start(text, 0);
        lemma_tokens_are_words(text, 0);
        assert(partial == tokens(text).last());
        assert(before.len() > 0 ==> before.last() == text[before.len() - 1]);
        lemma_tokens_concat(before, partial);
        lemma_tokens_of_word(partial, ' ');
        assert(tokens(text) == tokens(before) + seq![partial]);
        assert(tokens(before) =~= tokens(text).drop_last());
    }
}

/// A completion commits the name it puts in: once the token being typed is
/// replaced by a name and a space, the complete tokens are those from
/// before followed by the name, and no token is being typed. The next
/// request therefore offers what lies below the command of that name: each
/// completion descends the grammar by one level.
pub proof fn lemma_completion_descends(g: Seq<Tree>, text: Seq<char>, name: Seq<char>)
    requires
        name.len() > 0,
        forall|k: int| 0 <= k < name.len() ==> !is_space(#[trigger] name[k]),
    ensures
        committed_path(completed_text(text, name)) == committed_path(text).push(name),
        partial_token(completed_text(text, name)) == Seq::<char>::empty(),
        candidates(g, completed_text(text, name)) == names(
            children_at(children_at(g, committed_path(text)), seq![name]),
        ),
{
    lemma_text_before_partial(text);
    lemma_partial_ends_text(text);
    let before = text.take(text.len() - partial_token(text).len());
    let done = completed_text(text, name);
    assert(before.len() > 0 ==> before.last() == text[before.len() - 1]);
    assert(done == before + (name + seq![' ']));
    lemma_tokens_concat(before, name + seq![' ']);
    lemma_tokens_of_word(name, ' ');
    assert(done.last() == ' ');
    assert(tokens(done) == committed_path(text).push(name));
    lemma_children_at_push(g, committed_path(text), name);
}

/// The names that the pattern `partial` matches.
pub open spec fn qualifier(partial: Seq<char>) -> spec_fn(Seq<char>) -> bool {
    |name: Seq<char>| fuzzy_score(partial, name) is Some
}

/// The order in which matching names are offered: the higher score first, and
/// of two names with the same score the lexically smaller one.
pub open spec fn ranks_before(partial: Seq<char>, a: Seq<char>, b: Seq<char>) -> bool {
    let sa = fuzzy_score(partial, a);
    let sb = fuzzy_score(partial, b);
    &&& sa is Some
    &&& sb is Some
    &&& (sa->0 > sb->0 || (sa->0 == sb->0 && lex_lt(a, b)))
}

/// Every name of `list` ranks before all that follow it.
pub open spec fn is_ranked(partial: Seq<char>, list: Seq<Seq<char>>) -> bool {
    forall|i: int, j: int|
        0 <= i < j < list.len() ==> ranks_before(partial, #[trigger] list[i], #[trigger] list[j])
}

/// `list` holds the names of `of`, each as often as `of` does, in ranked
/// order.
pub open spec fn is_ranking(partial: Seq<char>, list: Seq<Seq<char>>, of: Seq<Seq<char>>) -> bool {
    &&& list.to_multiset() == of.to_multiset()
    &&& is_ranked(partial, list)
}

/// No name ranks before itself, and of two names at most one ranks before
/// the other.
pub proof fn lemma_ranks_asymmetric(partial: Seq<char>, a: Seq<char>, b: Seq<char>)
    ensures
        !ranks_before(partial, a, a),
        ranks_before(partial, a, b) ==> !ranks_before(partial, b, a),
{
    lemma_lex_irreflexive(a, 0);
    if lex_lt(a, b) {
        lemma_lex_asymmetric(a, b, 0);
    }
}

/// The ranking order is transitive.
pub proof fn lemma_ranks_transitive(partial: Seq<char>, a: Seq<char>, b: Seq<char>, c: Seq<char>)
    requires
        ranks_before(partial, a, b),
        ranks_before(partial, b, c),
    ensures
        ranks_before(partial, a, c),
{
    if lex_lt(a, b) && lex_lt(b, c) {
        lemma_lex_transitive(a, b, c, 0);
    }
}

/// Of two different matching names one ranks before the other: with the
/// tie-break by name the order is total.
pub proof fn lemma_ranks_total(partial: Seq<char>, a: Seq<char>, b: Seq<char>)
    requires
        fuzzy_score(partial, a) is Some,
        fuzzy_score(partial, b) is Some,
        a != b,
    ensures
        ranks_before(partial, a, b) || ranks_before(partial, b, a),
{
    if !lex_lt(a, b) && !lex_lt(b, a) {
        assert(a.take(0) == b.take(0));
        lemma_lex_total(a, b, 0);
    }
}

/// With nothing typed of the next token, no name is filtered out and the
/// names are ranked in lexical order.
pub proof fn lemma_empty_partial_lists_all(all: Seq<Seq<char>>, a: Seq<char>, b: Seq<char>)
    ensures
        all.filter(qualifier(Seq::<char>::empty())) == all,
        ranks_before(Seq::<char>::empty(), a, b) == lex_lt(a, b),
    decreases all.len(),
{
    lemma_empty_pattern(a);
    lemma_empty_pattern(b);
    reveal(Seq::filter);
    if all.len() > 0 {
        lemma_empty_partial_lists_all(all.drop_last(), a, b);
        lemma_empty_pattern(all.last());
        assert(all.drop_last().push(all.last()) == all);
    }
}

/// A ranked list holds no name twice.
pub proof fn lemma_ranked_no_duplicates(partial: Seq<char>, list: Seq<Seq<char>>)
    requires
        is_ranked(partial, list),
    ensures
        list.no_duplicates(),
{
    assert forall|i: int, j: int| 0 <= i < list.len() && 0 <= j < list.len() && i != j implies list[i]
        != list[j] by {
        lemma_ranks_asymmetric(partial, list[i], list[i]);
        if i < j {
            assert(ranks_before(partial, list[i], list[j]));
        } else {
            assert(ranks_before(partial, list[j], list[i]));
        }
    }
}

/// The names of a ranked list that follow the first are ranked.
proof fn lemma_ranked_tail(partial: Seq<char>, list: Seq<Seq<char>>)
    requires
        is_ranked(partial, list),
        list.len() > 0,
    ensures
        is_ranked(partial, list.drop_first()),
{
    let tail = list.drop_first();
    assert forall|i: int, j: int| 0 <= i < j < tail.len() implies ranks_before(
        partial,
        #[trigger] tail[i],
        #[trigger] tail[j],
    ) by {
        assert(tail[i] == list[i + 1]);
        assert(tail[j] == list[j + 1]);
    }
}

/// The ranking of given names is unique: two ranked lists of the same names
/// are the same list. What is offered, and in which order, depends on nothing
/// but the names and the pattern.
pub proof fn lemma_ranking_unique(partial: Seq<char>, x: Seq<Seq<char>>, y: Seq<Seq<char>>)
    requires
        is_ranked(partial, x),
        is_ranked(partial, y),
        x.to_multiset() == y.to_multiset(),
    ensures
        x == y,
    decreases x.len(),
{
    to_multiset_len(x);
    to_multiset_len(y);
    if x.len() > 0 {
        assert(x.contains(x[0]));
        assert(y.contains(y[0]));
        to_multiset_contains(x, x[0]);
        to_multiset_contains(y, x[0]);
        to_multiset_contains(x, y[0]);
        to_multiset_contains(y, y[0]);
        let k = choose|k: int| 0 <= k < y.len() && y[k] == x[0];
        let m = choose|m: int| 0 <= m < x.len() && x[m] == y[0];
        if k > 0 && m > 0 {
            assert(ranks_before(partial, y[0], y[k]));
            assert(ranks_before(partial, x[0], x[m]));
            lemma_ranks_asymmetric(partial, x[0], y[0]);
        }
        assert(x[0] == y[0]);
        assert(x.drop_first() == x.remove(0));
        assert(y.drop_first() == y.remove(0));
        to_multiset_remove(x, 0);
        to_multiset_remove(y, 0);
        lemma_ranked_tail(partial, x);
        lemma_ranked_tail(partial, y);
        lemma_ranking_unique(partial, x.drop_first(), y.drop_first());
        assert(x == seq![x[0]] + x.drop_first());
        assert(y == seq![y[0]] + y.drop_first());
    } else {
        assert(x =~= y);
    }
}

/// Tells whether the name `a` with score `sa` ranks before the name `b` with
/// score `sb`.
fn comes_before(sa: i128, a: &Vec<char>, sb: i128, b: &Vec<char>) -> (r: bool)
    ensures
        r == (sa > sb || (sa == sb && lex_lt(a@, b@))),
{
    if sa != sb {
        sa > sb
    } else {
        lex_less(a, b)
    }
}

/// Puts `names` in ranked order; `scores` holds the score of each.
fn rank(names: Vec<Vec<char>>, scores: Vec<i128>, Ghost(partial): Ghost<Seq<char>>) -> (r: Vec<
    Vec<char>,
>)
    requires
        names@.len() == scores@.len(),
        forall|k: int|
            0 <= k < names@.len() ==> fuzzy_score(partial, #[trigger] names@[k]@) == Some(
                scores@[k] as int,
            ),
        views(names@).no_duplicates(),
    ensures
        is_ranking(partial, views(r@), views(names@)),
{
    let ghost all = views(names@);
    let mut rest = names;
    let mut rest_scores = scores;
    let mut out: Vec<Vec<char>> = Vec::new();
    let mut out_scores: Vec<i128> = Vec::new();
    let ghost mut from: Seq<int> = Seq::empty();
    proof {
        assert(views(out@) =~= all.skip(all.len() as int));
        assert(all.take(all.len() as int) == all);
    }
    while rest.len() > 0
        invariant
            all.no_duplicates(),
            rest@.len() == rest_scores@.len(),
            rest@.len() <= all.len(),
            views(rest@) == all.take(rest@.len() as int),
            forall|k: int|
                0 <= k < rest@.len() ==> fuzzy_score(partial, #[trigger] rest@[k]@) == Some(
                    rest_scores@[k] as int,
                ),
            out@.len() == out_scores@.len(),
            out@.len() == from.len(),
            forall|k: int|
                0 <= k < out@.len() ==> rest@.len() <= #[trigger] from[k] < all.len() && all[from[k]]
                    == out@[k]@,
            forall|k: int|
                0 <= k < out@.len() ==> fuzzy_score(partial, #[trigger] out@[k]@) == Some(
                    out_scores@[k] as int,
                ),
            is_ranked(partial, views(out@)),
            views(out@).to_multiset() == all.skip(rest@.len() as int).to_multiset(),
        decreases rest@.len(),
    {
        let ghost before_rest = views(rest@);
        let ghost before_out = views(out@);
        let ghost at = rest@.len() - 1;
        let name = rest.pop().unwrap();
        let score = rest_scores.pop().unwrap();
        proof {
            assert(views(rest@) =~= all.take(rest@.len() as int));
            assert(before_rest[at] == name@);
            assert(name@ == all[at]);
            assert(all.skip(at) =~= all.skip(at + 1).insert(0, name@));
            to_multiset_insert(all.skip(at + 1), 0, name@);
        }
        let mut pos: usize = 0;
        while pos < out.len() && comes_before(out_scores[pos], &out[pos], score, &name)
            invariant
                pos <= out@.len(),
                out@.len() == out_scores@.len(),
                fuzzy_score(partial, name@) == Some(score as int),
                forall|k: int|
                    0 <= k < out@.len() ==> fuzzy_score(partial, #[trigger] out@[k]@) == Some(
                        out_scores@[k] as int,
                    ),
                forall|k: int| 0 <= k < pos ==> ranks_before(partial, #[trigger] out@[k]@, name@),
            decreases out@.len() - pos,
        {
            pos += 1;
        }
        proof {
            assert forall|k: int| pos <= k < out@.len() implies ranks_before(
                partial,
                name@,
                #[trigger] out@[k]@,
            ) by {
                assert(from[pos as int] != at);
                assert(all[from[pos as int]] != all[at]);
                lemma_ranks_total(partial, name@, out@[pos as int]@);
                if k > pos {
                    assert(ranks_before(
                        partial,
                        views(out@)[pos as int],
                        views(out@)[k],
                    ));
                    lemma_ranks_transitive(partial, name@, out@[pos as int]@, out@[k]@);
                }
            }
        }
        out.insert(pos, name);
        out_scores.insert(pos, score);
        proof {
            from = from.insert(pos as int, at);
            assert(views(out@) =~= before_out.insert(pos as int, name@));
            to_multiset_insert(before_out, pos as int, name@);
            assert forall|i: int, j: int| 0 <= i < j < views(out@).len() implies ranks_before(
                partial,
                #[trigger] views(out@)[i],
                #[trigger] views(out@)[j],
            ) by {
                let a = if i < pos {
                    i
                } else {
                    i - 1
                };
                let b = if j < pos {
                    j
                } else {
                    j - 1
                };
                if i != pos && j != pos {
                    assert(ranks_before(partial, before_out[a], before_out[b]));
                } else if i == pos {
                    assert(views(out@)[j] == out@[j]@);
                    assert(out@[j]@ == before_out[b]);
                } else {
                    assert(views(out@)[i] == before_out[a]);
                }
            }
        }
    }
    assert(all.skip(0) == all);
    out
}

/// The names of `all` that `partial` matches, in the order of `all`, and the
/// score of each.
fn matching(all: &Vec<Vec<char>>, partial: &Vec<char>) -> (r: (Vec<Vec<char>>, Vec<i128>))
    ensures
        views(r.0@) == views(all@).filter(qualifier(partial@)),
        r.0@.len() == r.1@.len(),
        forall|k: int|
            0 <= k < r.0@.len() ==> fuzzy_score(partial@, #[trigger] r.0@[k]@) == Some(
                r.1@[k] as int,
            ),
{
    let ghost pred = qualifier(partial@);
    let mut kept: Vec<Vec<char>> = Vec::new();
    let mut scores: Vec<i128> = Vec::new();
    let mut i: usize = 0;
    proof {
        reveal(Seq::filter);
        assert(views(kept@) =~= views(all@).take(0).filter(pred));
    }
    while i < all.len()
        invariant
            i <= all@.len(),
            pred == qualifier(partial@),
            kept@.len() == scores@.len(),
            views(kept@) == views(all@).take(i as int).filter(pred),
            forall|k: int|
                0 <= k < kept@.len() ==> fuzzy_score(partial@, #[trigger] kept@[k]@) == Some(
                    scores@[k] as int,
                ),
        decreases all@.len() - i,
    {
        proof {
            let upto = views(all@).take(i as int);
            assert(views(all@).take(i + 1) == upto.push(all@[i as int]@));
            upto.lemma_filter_push(all@[i as int]@, pred);
        }
        match score(partial, &all[i]) {
            Some(points) => {
                let name = copy_chars(&all[i]);
                assert(views(kept@.push(name)) =~= views(kept@).push(name@));
                kept.push(name);
                scores.push(points);
            },
            None => {},
        }
        i += 1;
    }
    assert(views(all@).take(all@.len() as int) == views(all@));
    (kept, scores)
}

/// Splits `text` into its complete tokens and the token being typed.
pub fn split_line(text: &Vec<char>) -> (r: (Vec<Vec<char>>, Vec<char>))
    ensures
        views(r.0@) == committed_path(text@),
        r.1@ == partial_token(text@),
{
    let mut path = split_tokens(text);
    let ghost all_tokens = views(path@);
    let mut partial: Vec<char> = Vec::new();
    if !ends_with_whitespace(text) && path.len() > 0 {
        partial = path.pop().unwrap();
        assert(views(path@) =~= all_tokens.drop_last());
    }
    (path, partial)
}

/// A filtered sequence holds nothing twice if the sequence did not.
proof fn lemma_filter_no_duplicates(s: Seq<Seq<char>>, pred: spec_fn(Seq<char>) -> bool)
    requires
        s.no_duplicates(),
    ensures
        s.filter(pred).no_duplicates(),
    decreases s.len(),
{
    reveal(Seq::filter);
    if s.len() > 0 {
        let front = s.drop_last();
        lemma_filter_no_duplicates(front, pred);
        if pred(s.last()) {
            let kept = front.filter(pred);
            assert forall|i: int| 0 <= i < kept.len() implies kept[i] != s.last() by {
                front.lemma_filter_contains_rev(pred, kept[i]);
                let k = choose|k: int| 0 <= k < front.len() && front[k] == kept[i];
                assert(s[k] == kept[i]);
            }
        }
    }
}

/// What a completion request does to the text `text` and which names it
/// lists, given the names `found` that the token being typed matches: with
/// none, nothing; with one, the token is replaced by that name and a space,
/// and nothing is listed; with more, the text stays and the names are listed
/// in ranked order.
pub open spec fn completion_of(
    text: Seq<char>,
    found: Seq<Seq<char>>,
    after: Seq<char>,
    list: Seq<Seq<char>>,
) -> bool {
    if found.len() == 0 {
        after == text && list.len() == 0
    } else if found.len() == 1 {
        after == completed_text(text, found[0]) && list.len() == 0
    } else {
        after == text && is_ranking(partial_token(text), list, found)
    }
}

/// A ranked list of one name holds the name it ranks.
proof fn lemma_ranking_of_one(partial: Seq<char>, list: Seq<Seq<char>>, of: Seq<Seq<char>>)
    requires
        is_ranking(partial, list, of),
    ensures
        list.len() == of.len(),
        of.len() == 1 ==> list[0] == of[0],
{
    to_multiset_len(list);
    to_multiset_len(of);
    if of.len() == 1 {
        assert(of.contains(of[0]));
        to_multiset_contains(of, of[0]);
        to_multiset_contains(list, of[0]);
    }
}

/// The names of the commands at `path` that `partial` matches, best match
/// first.
fn matches_at(grammar: &CommandGrammar, path: &Vec<Vec<char>>, partial: &Vec<char>) -> (r: Vec<
    Vec<char>,
>)
    ensures
        is_ranking(
            partial@,
            views(r@),
            names(children_at(grammar@, views(path@))).filter(qualifier(partial@)),
        ),
        r@.len() == names(children_at(grammar@, views(path@))).filter(qualifier(partial@)).len(),
        r@.len() == 1 ==> r@[0]@ == names(children_at(grammar@, views(path@))).filter(
            qualifier(partial@),
        )[0],
{
    let nodes = grammar.walk(path);
    let all = names_of(nodes);
    let (found, scores) = matching(&all, partial);
    proof {
        lemma_children_at_wf(grammar@, views(path@));
        let f = children_at(grammar@, views(path@));
        assert(names(f).no_duplicates()) by {
            assert forall|i: int, j: int|
                0 <= i < names(f).len() && 0 <= j < names(f).len() && i != j implies names(f)[i]
                != names(f)[j] by {
                if i < j {
                    assert(f[i].name != f[j].name);
                } else {
                    assert(f[j].name != f[i].name);
                }
            }
        }
        lemma_filter_no_duplicates(names(f), qualifier(partial@));
    }
    let ranked = rank(found, scores, Ghost(partial@));
    proof {
        lemma_ranking_of_one(
            partial@,
            views(ranked@),
            names(children_at(grammar@, views(path@))).filter(qualifier(partial@)),
        );
    }
    ranked
}

/// The names that a completion request for the line `text` finds: those of
/// the commands that may follow the complete tokens of the line and that the
/// token being typed matches, best match first.
pub fn ranked_matches(grammar: &CommandGrammar, text: &Vec<char>) -> (r: Vec<Vec<char>>)
    ensures
        is_ranking(partial_token(text@), views(r@), survivors(grammar@, text@)),
{
    let (path, partial) = split_line(text);
    matches_at(grammar, &path, &partial)
}

/// Answers a completion request for the line in `buffer`.
///
/// The candidates are the commands that may follow the complete tokens of
/// the line; those that the token being typed matches survive. With one
/// survivor the line is completed by its name and a space, and the cursor
/// put behind them. With several the line and the cursor stay, and the
/// survivors are returned, best match first. With none, nothing changes and
/// nothing is returned.
pub fn complete(grammar: &CommandGrammar, buffer: &mut TextBuffer) -> (list: Vec<String>)
    ensures
        completion_of(
            old(buffer)@.text,
            survivors(grammar@, old(buffer)@.text),
            final(buffer)@.text,
            texts(list@),
        ),
        survivors(grammar@, old(buffer)@.text).len() == 1 ==> final(buffer)@
            == BufferState::filled(final(buffer)@.text),
        survivors(grammar@, old(buffer)@.text).len() != 1 ==> final(buffer)@ == old(buffer)@,
{
    let text = copy_chars(buffer.chars());
    let (path, partial) = split_line(&text);
    let mut found = matches_at(grammar, &path, &partial);
    if found.len() == 0 {
        Vec::new()
    } else if found.len() == 1 {
        let name = found.pop().unwrap();
        let ghost before = text@;
        proof {
            lemma_partial_ends_text(before);
        }
        let mut line = text;
        line.truncate(line.len() - partial.len());
        assert(line@ == before.take(before.len() - partial@.len()));
        extend_chars(&mut line, &name);
        line.push(' ');
        assert(line@ == completed_text(before, name@));
        buffer.fill(line);
        Vec::new()
    } else {
        strings_of(&found)
    }
}

} // verus!
