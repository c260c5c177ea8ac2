//! The reader: from text to a flat list of atoms.

use vstd::prelude::*;
use crate::form::{lemma_list_view, views, Form};
use crate::model::{atoms, FormView};

verus! {

/// The characters with the Unicode property `White_Space`.
pub open spec fn is_whitespace(c: char) -> bool {
    ||| ('\u{9}' <= c && c <= '\u{d}')
    ||| c == ' '
    ||| c == '\u{85}'
    ||| c == '\u{a0}'
    ||| c == '\u{1680}'
    ||| ('\u{2000}' <= c && c <= '\u{200a}')
    ||| c == '\u{2028}'
    ||| c == '\u{2029}'
    ||| c == '\u{202f}'
    ||| c == '\u{205f}'
    ||| c == '\u{3000}'
}

/// What separates tokens: a parenthesis or a whitespace character. The
/// reader takes both parentheses for blanks.
pub open spec fn is_separator(c: char) -> bool {
    c == '(' || c == ')' || is_whitespace(c)
}

/// [`is_whitespace`] as a predicate.
pub open spec fn whitespace() -> spec_fn(char) -> bool {
    |c: char| is_whitespace(c)
}

/// [`is_separator`] as a predicate.
pub open spec fn separator() -> spec_fn(char) -> bool {
    |c: char| is_separator(c)
}

/// The length of the longest prefix of `text` in which `sep` holds of no
/// character.
pub open spec fn run_len(text: Seq<char>, sep: spec_fn(char) -> bool) -> nat
    decreases text.len(),
{
    if text.len() == 0 || sep(text[0]) {
        0
    } else {
        1 + run_len(text.skip(1), sep)
    }
}

/// The longest prefix without a separator lies within the text, and is not
/// empty when the text starts with a character that is no separator.
pub proof fn lemma_run_len_bounds(text: Seq<char>, sep: spec_fn(char) -> bool)
    ensures
        run_len(text, sep) <= text.len(),
        text.len() > 0 && !sep(text[0]) ==> run_len(text, sep) >= 1,
    decreases text.len(),
{
    if text.len() > 0 && !sep(text[0]) {
        lemma_run_len_bounds(text.skip(1), sep);
    }
}

/// The pieces of `text` between the characters of which `sep` holds, in
/// order, without the empty ones: the maximal runs of characters that are no
/// separators.
pub open spec fn split(text: Seq<char>, sep: spec_fn(char) -> bool) -> Seq<Seq<char>>
    decreases text.len(),
{
    if text.len() == 0 {
        Seq::empty()
    } else if sep(text[0]) {
        split(text.skip(1), sep)
    } else {
        let n = run_len(text, sep);
        proof {
            lemma_run_len_bounds(text, sep);
        }
        seq![text.take(n as int)] + split(text.skip(n as int), sep)
    }
}

/// The tokens of `text`, in order: its maximal runs of characters that are
/// neither parentheses nor whitespace.
pub open spec fn tokens(text: Seq<char>) -> Seq<Seq<char>> {
    split(text, separator())
}

/// The text with a space in place of every parenthesis.
pub open spec fn blanked(text: Seq<char>) -> Seq<char> {
    Seq::new(
        text.len(),
        |i: int|
            if text[i] == '(' || text[i] == ')' {
                ' '
            } else {
                text[i]
            },
    )
}

/// Whether `sep` holds of no character of `text`.
pub open spec fn is_run(text: Seq<char>, sep: spec_fn(char) -> bool) -> bool {
    forall|i: int| 0 <= i < text.len() ==> !sep(#[trigger] text[i])
}

/// A run that ends the text, or that a separator follows, is as long as the
/// longest prefix without a separator.
pub proof fn lemma_run_len(run: Seq<char>, rest: Seq<char>, sep: spec_fn(char) -> bool)
    requires
        is_run(run, sep),
        rest.len() == 0 || sep(rest[0]),
    ensures
        run_len(run + rest, sep) == run.len(),
    decreases run.len(),
{
    let text = run + rest;
    if run.len() == 0 {
        assert(text =~= rest);
    } else {
        assert(text[0] == run[0]);
        assert(text.skip(1) =~= run.skip(1) + rest);
        assert(is_run(run.skip(1), sep)) by {
            assert forall|i: int| 0 <= i < run.skip(1).len() implies !sep(
                #[trigger] run.skip(1)[i],
            ) by {
                assert(run.skip(1)[i] == run[i + 1]);
            }
        }
        lemma_run_len(run.skip(1), rest, sep);
    }
}

/// A non-empty run before a separator, or at the end of the text, is the
/// first piece.
pub proof fn lemma_split_after_run(run: Seq<char>, rest: Seq<char>, sep: spec_fn(char) -> bool)
    requires
        is_run(run, sep),
        run.len() > 0,
        rest.len() == 0 || sep(rest[0]),
    ensures
        split(run + rest, sep) == seq![run] + split(rest, sep),
{
    let text = run + rest;
    lemma_run_len(run, rest, sep);
    assert(text[0] == run[0]);
    assert(text.take(run.len() as int) =~= run);
    assert(text.skip(run.len() as int) =~= rest);
}

/// Whether `c` separates tokens.
pub fn is_separator_char(c: char) -> (r: bool)
    ensures
        r == is_separator(c),
{
    c == '(' || c == ')' || ('\u{9}' <= c && c <= '\u{d}') || c == ' ' || c == '\u{85}' || c
        == '\u{a0}' || c == '\u{1680}' || ('\u{2000}' <= c && c <= '\u{200a}') || c == '\u{2028}'
        || c == '\u{2029}' || c == '\u{202f}' || c == '\u{205f}' || c == '\u{3000}'
}

/// `String::push`: appends one character to the end of the string.
#[verifier::external_body]
fn push_char(text: &mut String, c: char)
    ensures
        final(text)@ == old(text)@.push(c),
{
    text.push(c)
}

/// Reads `sexp` into the flat list of its tokens, each one an atom.
///
/// Parentheses only separate tokens, as whitespace does: the nesting that
/// they express is not kept.
pub fn reader(sexp: String) -> (r: Form)
    ensures
        r@ == FormView::List(atoms(tokens(sexp@))),
{
    let mut list: Vec<Form> = Vec::new();
    let mut current = String::new();
    let ghost text = sexp@;
    assert(current@ + text.skip(0) =~= text);
    assert(views(list@) + atoms(tokens(text)) =~= atoms(tokens(text)));
    for c in it: sexp.as_str().chars()
        invariant
            it.seq() == text,
            is_run(current@, separator()),
            atoms(tokens(text)) == views(list@) + atoms(
                tokens(current@ + text.skip(it.index() as int)),
            ),
    {
        let ghost rest = text.skip(it.index() as int);
        let ghost after = text.skip(it.index() + 1);
        let ghost done = views(list@);
        let ghost pending = current@;
        assert(rest =~= seq![c] + after);
        if is_separator_char(c) {
            if !current.as_str().is_empty() {
                proof {
                    lemma_split_after_run(pending, rest, separator());
                    assert(tokens(rest) == tokens(after)) by {
                        assert(rest.skip(1) =~= after);
                    }
                    assert(atoms(tokens(pending + rest)) =~= seq![FormView::Atom(pending)]
                        + atoms(tokens(after)));
                }
                list.push(Form::Atom(current));
                current = String::new();
                assert(current@ + after =~= after);
                assert(views(list@) =~= done.push(FormView::Atom(pending)));
            } else {
                assert(pending + rest =~= rest);
                assert(rest.skip(1) =~= after);
                assert(pending + after =~= after);
            }
        } else {
            push_char(&mut current, c);
            assert(current@ + after =~= pending + rest);
        }
    }
    proof {
        let done = views(list@);
        let rest = text.skip(text.len() as int);
        assert(current@ + rest =~= current@);
        if current@.len() > 0 {
            lemma_split_after_run(current@, rest, separator());
            assert(tokens(rest) =~= Seq::<Seq<char>>::empty());
            assert(atoms(tokens(text)) =~= done.push(FormView::Atom(current@)));
        } else {
            assert(atoms(tokens(text)) =~= done);
        }
    }
    if !current.as_str().is_empty() {
        list.push(Form::Atom(current));
    }
    proof {
        lemma_list_view(list);
        assert(views(list@) =~= atoms(tokens(text)));
    }
    Form::List(list)
}

} // verus!
