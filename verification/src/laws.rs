//! What holds of the operations and of the evaluator, for all forms.

use vstd::prelude::*;
use crate::evaluator::{
    eval_model, head_primitive, lemma_nth_of_list, primitive_named, EvalError, Primitive,
};
use crate::model::{assoc_model, atoms, truth, zip_pairs, FormView};
use crate::text::{is_run, lemma_split_after_run, separator, split, tokens};

verus! {

/// Two atoms can always be compared, and they compare equal exactly when
/// their texts are the same.
pub proof fn law_eq_of_atoms(a: Seq<char>, b: Seq<char>)
    ensures
        FormView::Atom(a).comparable(FormView::Atom(b)),
        truth(FormView::Atom(a) == FormView::Atom(b)) == truth(a == b),
        a == b ==> truth(FormView::Atom(a) == FormView::Atom(b)) == FormView::T,
        a != b ==> truth(FormView::Atom(a) == FormView::Atom(b)) == FormView::Nil,
{
}

/// `Nil`, `T`, every atom and the empty list are atomic; a list with an item
/// and a pair are not.
pub proof fn law_atom_classification(
    text: Seq<char>,
    x: FormView,
    y: FormView,
    items: Seq<FormView>,
)
    ensures
        FormView::Nil.is_atomic(),
        FormView::T.is_atomic(),
        FormView::Atom(text).is_atomic(),
        FormView::List(Seq::empty()).is_atomic(),
        !FormView::List(seq![x]).is_atomic(),
        items.len() > 0 ==> !FormView::List(items).is_atomic(),
        !FormView::Pair(Box::new(x), Box::new(y)).is_atomic(),
{
}

/// Only `Nil` and the empty list are null; both are atomic.
pub proof fn law_null_classification(v: FormView)
    ensures
        v.is_null() <==> (v == FormView::Nil || v == FormView::List(Seq::empty())),
        v.is_null() ==> v.is_atomic(),
{
    if let FormView::List(items) = v {
        if items.len() == 0 {
            assert(items =~= Seq::empty());
        }
    }
}

/// `cons` on a list puts the value in front; `car` and `cdr` of the result
/// give back the value and the list.
pub proof fn law_cons_on_list(items: Seq<FormView>, value: FormView)
    ensures
        FormView::List(items).cons(value) == FormView::List(seq![value] + items),
        FormView::List(items).cons(value).car() == Some(value),
        FormView::List(items).cons(value).cdr() == Some(FormView::List(items)),
{
    assert((seq![value] + items).skip(1) =~= items);
}

/// `cons` on a form that is no list builds a cell; `car` and `cdr` of the
/// cell give back the form and the value.
pub proof fn law_cons_on_other(receiver: FormView, value: FormView)
    requires
        !(receiver is List),
    ensures
        receiver.cons(value) == FormView::Pair(Box::new(receiver), Box::new(value)),
        receiver.cons(value).car() == Some(receiver),
        receiver.cons(value).cdr() == Some(value),
{
}

/// `cons` of `a` on the list `(b c)` is the list `(a b c)`.
pub proof fn law_cons_three(a: FormView, b: FormView, c: FormView)
    ensures
        FormView::List(seq![b, c]).cons(a) == FormView::List(seq![a, b, c]),
        FormView::List(seq![a, b, c]).car() == Some(a),
        FormView::List(seq![a, b, c]).cdr() == Some(FormView::List(seq![b, c])),
{
    assert(seq![a] + seq![b, c] =~= seq![a, b, c]);
    assert(seq![a, b, c].skip(1) =~= seq![b, c]);
}

/// The pairing of two lists of equal length is as long as they are, and its
/// `i`-th entry is the cell of their `i`-th items.
pub proof fn law_pair_entries(keys: Seq<FormView>, values: Seq<FormView>, i: int)
    requires
        keys.len() == values.len(),
        0 <= i < keys.len(),
    ensures
        zip_pairs(keys, values).len() == keys.len(),
        zip_pairs(keys, values)[i] == FormView::Pair(Box::new(keys[i]), Box::new(values[i])),
        zip_pairs(keys, values)[i].car() == Some(keys[i]),
        zip_pairs(keys, values)[i].cdr() == Some(values[i]),
{
}

/// The pairing of `(a1 a2)` and `(b1 b2)` holds the cells `(a1, b1)` and
/// `(a2, b2)`, in this order.
pub proof fn law_pair_two(a1: FormView, a2: FormView, b1: FormView, b2: FormView)
    ensures
        zip_pairs(seq![a1, a2], seq![b1, b2]) == seq![
            FormView::Pair(Box::new(a1), Box::new(b1)),
            FormView::Pair(Box::new(a2), Box::new(b2)),
        ],
{
    assert(zip_pairs(seq![a1, a2], seq![b1, b2]) =~= seq![
        FormView::Pair(Box::new(a1), Box::new(b1)),
        FormView::Pair(Box::new(a2), Box::new(b2)),
    ]);
}

/// In the pairing of keys and values, the first key is found with the first
/// value.
pub proof fn law_assoc_first_key(keys: Seq<FormView>, values: Seq<FormView>)
    requires
        keys.len() == values.len(),
        keys.len() > 0,
    ensures
        assoc_model(keys[0], FormView::List(zip_pairs(keys, values))) == Some(values[0]),
{
}

/// A key other than that of the first entry is not found, wherever else in
/// the list it may sit: no entry after the first is consulted.
pub proof fn law_assoc_other_key(key: FormView, entries: Seq<FormView>)
    requires
        entries.len() > 0 ==> entries[0].car() != Some(key),
    ensures
        assoc_model(key, FormView::List(entries)) == None::<FormView>,
{
}

/// The evaluator reads its operands by `car` and `cdr`: the head is `car`,
/// the first argument `car` of `cdr`, the second `car` of `cdr` of `cdr`.
pub proof fn law_elements(v: FormView)
    ensures
        v.nth(0) == v.car(),
        v.nth(1) == v.cadr(),
        v.nth(2) == (match v.cddr() {
            Some(rest) => rest.car(),
            None => None,
        }),
{
    reveal_with_fuel(FormView::nth, 3);
}

/// A form without a head is its own value: atoms, `T`, `Nil`, lambdas and
/// the empty list evaluate to themselves.
pub proof fn law_eval_without_head(v: FormView)
    requires
        v.car() is None,
    ensures
        eval_model(v) == Ok::<FormView, EvalError>(v),
{
}

/// A terminal value (an atom, `T` or `Nil`) is its own value.
pub proof fn law_eval_terminal(v: FormView)
    requires
        v is Atom || v is T || v is Nil,
    ensures
        eval_model(v) == Ok::<FormView, EvalError>(v),
{
}

/// Evaluating is idempotent on terminal values: where the value of a form is
/// an atom, `T` or `Nil`, evaluating that value gives it back unchanged.
pub proof fn law_eval_twice(v: FormView)
    requires
        eval_model(v) matches Ok(value) && (value is Atom || value is T || value is Nil),
    ensures
        eval_model(eval_model(v)->Ok_0) == eval_model(v),
{
}

/// A form with a head that names no primitive has the value `Nil`.
pub proof fn law_eval_unknown_head(v: FormView)
    requires
        v.car() matches Some(head) && head_primitive(head) is None,
    ensures
        eval_model(v) == Ok::<FormView, EvalError>(FormView::Nil),
{
}

/// The six names of primitives are told apart.
pub proof fn law_primitive_names()
    ensures
        primitive_named("quote"@) == Some(Primitive::Quote),
        primitive_named("atom"@) == Some(Primitive::Atom),
        primitive_named("eq"@) == Some(Primitive::Eq),
        primitive_named("car"@) == Some(Primitive::Car),
        primitive_named("cdr"@) == Some(Primitive::Cdr),
        primitive_named("cons"@) == Some(Primitive::Cons),
{
    reveal_strlit("quote");
    reveal_strlit("atom");
    reveal_strlit("eq");
    reveal_strlit("car");
    reveal_strlit("cdr");
    reveal_strlit("cons");
    assert("quote"@.len() == 5);
    assert("atom"@.len() == 4);
    assert("eq"@.len() == 2);
    assert("car"@[1] == 'a');
    assert("cdr"@[1] == 'd');
    assert("cons"@[1] == 'o');
    assert("atom"@[1] == 't');
}

/// `quote` gives its argument back as it stands, whatever the argument is.
pub proof fn law_eval_quote(argument: FormView)
    ensures
        eval_model(FormView::List(seq![FormView::Atom("quote"@), argument])) == Ok::<
            FormView,
            EvalError,
        >(argument),
{
    law_primitive_names();
    let form = FormView::List(seq![FormView::Atom("quote"@), argument]);
    lemma_nth_of_list(seq![FormView::Atom("quote"@), argument], 1);
}

/// `cons` of two atoms evaluates to the cell of the two atoms.
pub proof fn law_eval_cons_of_atoms(a: Seq<char>, b: Seq<char>)
    ensures
        eval_model(
            FormView::List(seq![FormView::Atom("cons"@), FormView::Atom(a), FormView::Atom(b)]),
        ) == Ok::<FormView, EvalError>(
            FormView::Pair(Box::new(FormView::Atom(a)), Box::new(FormView::Atom(b))),
        ),
{
    law_primitive_names();
    let items = seq![FormView::Atom("cons"@), FormView::Atom(a), FormView::Atom(b)];
    lemma_nth_of_list(items, 1);
    lemma_nth_of_list(items, 2);
    assert(eval_model(FormView::Atom(a)) == Ok::<FormView, EvalError>(FormView::Atom(a)));
    assert(eval_model(FormView::Atom(b)) == Ok::<FormView, EvalError>(FormView::Atom(b)));
}

/// `car` of an atom has no value: an atom has no `car`.
pub proof fn law_eval_car_of_atom(a: Seq<char>)
    ensures
        eval_model(FormView::List(seq![FormView::Atom("car"@), FormView::Atom(a)])) == Err::<
            FormView,
            EvalError,
        >(EvalError::TypeMismatch),
{
    law_primitive_names();
    let items = seq![FormView::Atom("car"@), FormView::Atom(a)];
    lemma_nth_of_list(items, 1);
    assert(eval_model(FormView::Atom(a)) == Ok::<FormView, EvalError>(FormView::Atom(a)));
}

/// The text of a form with a head and arguments: in parentheses, the head
/// and the arguments with one space before each argument.
pub open spec fn written(head: Seq<char>, arguments: Seq<Seq<char>>) -> Seq<char> {
    seq!['('] + head + written_arguments(arguments)
}

/// The arguments of a written form and the closing parenthesis.
pub open spec fn written_arguments(arguments: Seq<Seq<char>>) -> Seq<char>
    decreases arguments.len(),
{
    if arguments.len() == 0 {
        seq![')']
    } else {
        seq![' '] + arguments[0] + written_arguments(arguments.skip(1))
    }
}

/// What follows the head of a written form starts with a separator, and is
/// read back as the arguments that were written.
pub proof fn law_read_arguments(arguments: Seq<Seq<char>>)
    requires
        forall|i: int|
            0 <= i < arguments.len() ==> (#[trigger] arguments[i]).len() > 0 && is_run(
                arguments[i],
                separator(),
            ),
    ensures
        written_arguments(arguments).len() > 0,
        separator()(written_arguments(arguments)[0]),
        tokens(written_arguments(arguments)) == arguments,
    decreases arguments.len(),
{
    let text = written_arguments(arguments);
    if arguments.len() == 0 {
        assert(text[0] == ')');
        assert(text.skip(1).len() == 0);
        assert(split(text.skip(1), separator()) =~= Seq::<Seq<char>>::empty());
        assert(tokens(text) =~= arguments);
    } else {
        let first = arguments[0];
        let others = arguments.skip(1);
        let rest = written_arguments(others);
        assert forall|i: int| 0 <= i < others.len() implies (#[trigger] others[i]).len() > 0
            && is_run(others[i], separator()) by {
            assert(others[i] == arguments[i + 1]);
        }
        law_read_arguments(others);
        assert(text.skip(1) =~= first + rest);
        lemma_split_after_run(first, rest, separator());
        assert(seq![first] + others =~= arguments);
    }
}

/// A written form is read as the list of its head and its arguments.
pub proof fn law_read_written(head: Seq<char>, arguments: Seq<Seq<char>>)
    requires
        head.len() > 0,
        is_run(head, separator()),
        forall|i: int|
            0 <= i < arguments.len() ==> (#[trigger] arguments[i]).len() > 0 && is_run(
                arguments[i],
                separator(),
            ),
    ensures
        tokens(written(head, arguments)) == seq![head] + arguments,
{
    let text = written(head, arguments);
    let rest = written_arguments(arguments);
    law_read_arguments(arguments);
    assert(text[0] == '(');
    assert(text.skip(1) =~= head + rest);
    lemma_split_after_run(head, rest, separator());
}

/// The names of the primitives can be written as heads: they are not empty
/// and hold no separator.
pub proof fn law_primitive_names_are_runs()
    ensures
        "quote"@.len() > 0 && is_run("quote"@, separator()),
        "atom"@.len() > 0 && is_run("atom"@, separator()),
        "eq"@.len() > 0 && is_run("eq"@, separator()),
        "car"@.len() > 0 && is_run("car"@, separator()),
        "cdr"@.len() > 0 && is_run("cdr"@, separator()),
        "cons"@.len() > 0 && is_run("cons"@, separator()),
{
    reveal_strlit("quote");
    reveal_strlit("atom");
    reveal_strlit("eq");
    reveal_strlit("car");
    reveal_strlit("cdr");
    reveal_strlit("cons");
}

/// From text to value: for all atoms `a` and `b`, the text `(cons a b)` is
/// read and evaluated to the cell of `a` and `b`.
pub proof fn law_read_eval_cons(a: Seq<char>, b: Seq<char>)
    requires
        a.len() > 0 && is_run(a, separator()),
        b.len() > 0 && is_run(b, separator()),
    ensures
        eval_model(FormView::List(atoms(tokens(written("cons"@, seq![a, b])))))
            == Ok::<FormView, EvalError>(
            FormView::Pair(Box::new(FormView::Atom(a)), Box::new(FormView::Atom(b))),
        ),
{
    law_primitive_names_are_runs();
    law_read_written("cons"@, seq![a, b]);
    assert(atoms(seq!["cons"@] + seq![a, b]) =~= seq![
        FormView::Atom("cons"@),
        FormView::Atom(a),
        FormView::Atom(b),
    ]);
    law_eval_cons_of_atoms(a, b);
}

/// From text to value: for every atom `a`, the text `(quote a)` is read and
/// evaluated to the atom `a`, which is not evaluated.
pub proof fn law_read_eval_quote(a: Seq<char>)
    requires
        a.len() > 0 && is_run(a, separator()),
    ensures
        eval_model(FormView::List(atoms(tokens(written("quote"@, seq![a])))))
            == Ok::<FormView, EvalError>(FormView::Atom(a)),
{
    law_primitive_names_are_runs();
    law_read_written("quote"@, seq![a]);
    assert(atoms(seq!["quote"@] + seq![a]) =~= seq![FormView::Atom("quote"@), FormView::Atom(a)]);
    law_eval_quote(FormView::Atom(a));
}

} // verus!
