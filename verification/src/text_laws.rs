//! What holds of the reader, for all texts.

use vstd::prelude::*;
use crate::text::{
    blanked, is_run, is_separator, lemma_run_len_bounds, lemma_split_after_run, run_len,
    separator, split, tokens, whitespace,
};

verus! {

/// The longest prefix without a separator holds no separator, and a
/// separator follows it unless it reaches the end of the text.
pub proof fn lemma_run_is_maximal(text: Seq<char>, sep: spec_fn(char) -> bool)
    ensures
        run_len(text, sep) <= text.len(),
        is_run(text.take(run_len(text, sep) as int), sep),
        run_len(text, sep) < text.len() ==> sep(text[run_len(text, sep) as int]),
    decreases text.len(),
{
    if text.len() > 0 && !sep(text[0]) {
        let tail = text.skip(1);
        lemma_run_is_maximal(tail, sep);
        let n = run_len(text, sep);
        assert forall|i: int| 0 <= i < n implies !sep(#[trigger] text.take(n as int)[i]) by {
            if i > 0 {
                assert(text.take(n as int)[i] == tail.take(n - 1)[i - 1]);
            }
        }
        if n < text.len() {
            assert(text[n as int] == tail[n - 1]);
        }
    }
}

/// Every piece is a non-empty run.
pub proof fn law_pieces_are_runs(text: Seq<char>, sep: spec_fn(char) -> bool, i: int)
    requires
        0 <= i < split(text, sep).len(),
    ensures
        split(text, sep)[i].len() > 0,
        is_run(split(text, sep)[i], sep),
    decreases text.len(),
{
    if text.len() == 0 {
    } else if sep(text[0]) {
        law_pieces_are_runs(text.skip(1), sep, i);
    } else {
        let n = run_len(text, sep);
        lemma_run_len_bounds(text, sep);
        lemma_run_is_maximal(text, sep);
        if i > 0 {
            law_pieces_are_runs(text.skip(n as int), sep, i - 1);
        }
    }
}

/// Every token is non-empty and holds neither a parenthesis nor whitespace.
pub proof fn law_tokens_are_runs(text: Seq<char>, i: int, j: int)
    requires
        0 <= i < tokens(text).len(),
        0 <= j < tokens(text)[i].len(),
    ensures
        tokens(text)[i].len() > 0,
        !is_separator(tokens(text)[i][j]),
{
    law_pieces_are_runs(text, separator(), i);
}

/// Two texts of the same length split alike under two notions of separator
/// when they have their separators at the same places and agree on every
/// other character.
pub proof fn lemma_split_alike(
    a: Seq<char>,
    sep_a: spec_fn(char) -> bool,
    b: Seq<char>,
    sep_b: spec_fn(char) -> bool,
)
    requires
        a.len() == b.len(),
        forall|i: int| 0 <= i < a.len() ==> sep_a(#[trigger] a[i]) == sep_b(b[i]),
        forall|i: int| 0 <= i < a.len() && !sep_a(#[trigger] a[i]) ==> a[i] == b[i],
    ensures
        run_len(a, sep_a) == run_len(b, sep_b),
        split(a, sep_a) == split(b, sep_b),
    decreases a.len(),
{
    if a.len() == 0 {
    } else {
        assert(sep_a(a[0]) == sep_b(b[0]));
        // The run lengths agree: by the same argument on the texts after
        // their first characters.
        let a1 = a.skip(1);
        let b1 = b.skip(1);
        assert forall|i: int| 0 <= i < a1.len() implies sep_a(#[trigger] a1[i]) == sep_b(
            b1[i],
        ) by {
            assert(a1[i] == a[i + 1]);
        }
        assert forall|i: int| 0 <= i < a1.len() && !sep_a(#[trigger] a1[i]) implies a1[i]
            == b1[i] by {
            assert(a1[i] == a[i + 1]);
        }
        lemma_split_alike(a1, sep_a, b1, sep_b);
        if !sep_a(a[0]) {
            let n = run_len(a, sep_a);
            lemma_run_len_bounds(a, sep_a);
            lemma_run_is_maximal(a, sep_a);
            assert(a.take(n as int) =~= b.take(n as int)) by {
                assert forall|i: int| 0 <= i < n implies a.take(n as int)[i] == b.take(
                    n as int,
                )[i] by {
                    assert(!sep_a(a.take(n as int)[i]));
                    assert(a.take(n as int)[i] == a[i]);
                }
            }
            let an = a.skip(n as int);
            let bn = b.skip(n as int);
            assert forall|i: int| 0 <= i < an.len() implies sep_a(#[trigger] an[i]) == sep_b(
                bn[i],
            ) by {
                assert(an[i] == a[i + n]);
            }
            assert forall|i: int| 0 <= i < an.len() && !sep_a(#[trigger] an[i]) implies an[i]
                == bn[i] by {
                assert(an[i] == a[i + n]);
            }
            lemma_split_alike(an, sep_a, bn, sep_b);
        }
    }
}

/// Reading is the same as putting a space in place of every parenthesis and
/// splitting the outcome on whitespace, dropping the empty pieces.
pub proof fn law_tokens_by_blanking(text: Seq<char>)
    ensures
        tokens(text) == split(blanked(text), whitespace()),
{
    lemma_split_alike(text, separator(), blanked(text), whitespace());
}

/// Parentheses do not matter to the reader beyond separating tokens: a text
/// reads as it does with spaces in their place.
pub proof fn law_parentheses_are_blanks(text: Seq<char>)
    ensures
        tokens(text) == tokens(blanked(text)),
{
    lemma_split_alike(text, separator(), blanked(text), separator());
}

/// Splitting goes piece by piece: where `b` is empty or starts with a
/// separator, the pieces of `a + b` are those of `a`, then those of `b`.
pub proof fn law_split_concat(a: Seq<char>, b: Seq<char>, sep: spec_fn(char) -> bool)
    requires
        b.len() == 0 || sep(b[0]),
    ensures
        split(a + b, sep) == split(a, sep) + split(b, sep),
    decreases a.len(),
{
    let text = a + b;
    if a.len() == 0 {
        assert(text =~= b);
        assert(split(a, sep) + split(b, sep) =~= split(b, sep));
    } else if sep(a[0]) {
        assert(text[0] == a[0]);
        assert(text.skip(1) =~= a.skip(1) + b);
        law_split_concat(a.skip(1), b, sep);
    } else {
        let n = run_len(a, sep);
        lemma_run_len_bounds(a, sep);
        lemma_run_is_maximal(a, sep);
        let run = a.take(n as int);
        let rest = a.skip(n as int);
        assert(a =~= run + rest);
        assert(text =~= run + (rest + b));
        if rest.len() > 0 {
            assert((rest + b)[0] == a[n as int]);
        } else {
            assert(rest + b =~= b);
        }
        lemma_split_after_run(run, rest + b, sep);
        law_split_concat(rest, b, sep);
        assert(seq![run] + (split(rest, sep) + split(b, sep)) =~= (seq![run] + split(rest, sep))
            + split(b, sep));
    }
}

/// The given tokens written one after the other, a space after each.
pub open spec fn spaced(texts: Seq<Seq<char>>) -> Seq<char>
    decreases texts.len(),
{
    if texts.len() == 0 {
        Seq::empty()
    } else {
        texts[0] + seq![' '] + spaced(texts.skip(1))
    }
}

/// What is written with spaces in between is read back as it was: the
/// tokens of a text made of non-empty runs, a space after each, are those
/// runs.
pub proof fn law_tokens_of_spaced(texts: Seq<Seq<char>>)
    requires
        forall|i: int|
            0 <= i < texts.len() ==> (#[trigger] texts[i]).len() > 0 && is_run(
                texts[i],
                separator(),
            ),
    ensures
        tokens(spaced(texts)) == texts,
    decreases texts.len(),
{
    if texts.len() > 0 {
        let first = texts[0];
        let rest = seq![' '] + spaced(texts.skip(1));
        assert(spaced(texts) =~= first + rest);
        assert(rest[0] == ' ');
        lemma_split_after_run(first, rest, separator());
        assert(rest.skip(1) =~= spaced(texts.skip(1)));
        assert forall|i: int| 0 <= i < texts.skip(1).len() implies (#[trigger] texts.skip(
            1,
        )[i]).len() > 0 && is_run(texts.skip(1)[i], separator()) by {
            assert(texts.skip(1)[i] == texts[i + 1]);
        }
        law_tokens_of_spaced(texts.skip(1));
        assert(seq![first] + texts.skip(1) =~= texts);
    }
}

} // verus!
