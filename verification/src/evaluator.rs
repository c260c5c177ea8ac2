//! The evaluator: a recursive interpreter that dispatches on the head of a
//! form.

use vstd::prelude::*;
use crate::form::{lemma_list_view, views, Form};
use crate::model::{truth, FormView};

verus! {

/// The operations that the evaluator knows by name.
#[derive(Debug, Clone, Copy, PartialEq, Eq, Structural)]
pub enum Primitive {
    Quote,
    Atom,
    Eq,
    Car,
    Cdr,
    Cons,
}

/// Why a form has no value.
#[derive(Debug, Clone, Copy, PartialEq, Eq, Structural)]
pub enum EvalError {
    /// A primitive was given fewer arguments than it takes.
    MissingArgument,
    /// A primitive was applied to a value on which it is not defined: `car`
    /// or `cdr` to a form without one, `eq` to forms that cannot be compared.
    TypeMismatch,
}

impl FormView {
    /// The `n`-th element of a form read as a list: `car` after `n` times
    /// `cdr`. Element 0 is the head, the arguments follow.
    pub open spec fn nth(self, n: nat) -> Option<FormView>
        decreases n,
    {
        if n == 0 {
            self.car()
        } else {
            match self.cdr() {
                Some(rest) => rest.nth((n - 1) as nat),
                None => None,
            }
        }
    }
}

/// The primitive that a name stands for, if any.
pub open spec fn primitive_named(name: Seq<char>) -> Option<Primitive> {
    if name == "quote"@ {
        Some(Primitive::Quote)
    } else if name == "atom"@ {
        Some(Primitive::Atom)
    } else if name == "eq"@ {
        Some(Primitive::Eq)
    } else if name == "car"@ {
        Some(Primitive::Car)
    } else if name == "cdr"@ {
        Some(Primitive::Cdr)
    } else if name == "cons"@ {
        Some(Primitive::Cons)
    } else {
        None
    }
}

/// The primitive that the head of a form selects: the head must be an atom
/// with the name of a primitive.
pub open spec fn head_primitive(head: FormView) -> Option<Primitive> {
    match head {
        FormView::Atom(name) => primitive_named(name),
        _ => None,
    }
}

/// In a list, the `n`-th element is the item at index `n`.
pub proof fn lemma_nth_of_list(items: Seq<FormView>, n: nat)
    ensures
        FormView::List(items).nth(n) == (if n < items.len() {
            Some(items[n as int])
        } else {
            None
        }),
    decreases n,
{
    if n > 0 && items.len() > 0 {
        lemma_nth_of_list(items.skip(1), (n - 1) as nat);
    }
}

/// Every element of a form is a proper part of it.
pub proof fn lemma_nth_is_part(v: FormView, n: nat)
    ensures
        v.nth(n) matches Some(element) ==> decreases_to!(v => element),
    decreases n,
{
    match v {
        FormView::Pair(first, second) => {
            if n > 0 {
                lemma_nth_is_part(*second, (n - 1) as nat);
            }
        },
        FormView::List(items) => {
            lemma_nth_of_list(items, n);
        },
        _ => {},
    }
}

/// The value of a form, or the reason why it has none.
///
/// A form without a head (an atom, `T`, `Nil`, a lambda, the empty list) is
/// its own value. A form whose head is not the name of a primitive has the
/// value `Nil`. Otherwise the primitive is applied to the values of the
/// elements that follow the head; `quote` alone takes its argument as it
/// stands. Elements beyond the primitive's arity are ignored.
pub open spec fn eval_model(v: FormView) -> Result<FormView, EvalError>
    decreases v,
{
    match v.nth(0) {
        None => Ok(v),
        Some(head) => match head_primitive(head) {
            None => Ok(FormView::Nil),
            Some(Primitive::Quote) => match v.nth(1) {
                None => Err(EvalError::MissingArgument),
                Some(argument) => Ok(argument),
            },
            Some(Primitive::Atom) => match v.nth(1) {
                None => Err(EvalError::MissingArgument),
                Some(argument) => {
                    proof {
                        lemma_nth_is_part(v, 1);
                    }
                    match eval_model(argument) {
                        Err(e) => Err(e),
                        Ok(value) => Ok(truth(value.is_atomic())),
                    }
                },
            },
            Some(Primitive::Car) => match v.nth(1) {
                None => Err(EvalError::MissingArgument),
                Some(argument) => {
                    proof {
                        lemma_nth_is_part(v, 1);
                    }
                    match eval_model(argument) {
                        Err(e) => Err(e),
                        Ok(value) => match value.car() {
                            Some(first) => Ok(first),
                            None => Err(EvalError::TypeMismatch),
                        },
                    }
                },
            },
            Some(Primitive::Cdr) => match v.nth(1) {
                None => Err(EvalError::MissingArgument),
                Some(argument) => {
                    proof {
                        lemma_nth_is_part(v, 1);
                    }
                    match eval_model(argument) {
                        Err(e) => Err(e),
                        Ok(value) => match value.cdr() {
                            Some(rest) => Ok(rest),
                            None => Err(EvalError::TypeMismatch),
                        },
                    }
                },
            },
            Some(Primitive::Eq) => match (v.nth(1), v.nth(2)) {
                (Some(left), Some(right)) => {
                    proof {
                        lemma_nth_is_part(v, 1);
                        lemma_nth_is_part(v, 2);
                    }
                    match eval_model(left) {
                        Err(e) => Err(e),
                        Ok(a) => match eval_model(right) {
                            Err(e) => Err(e),
                            Ok(b) => if a.comparable(b) {
                                Ok(truth(a == b))
                            } else {
                                Err(EvalError::TypeMismatch)
                            },
                        },
                    }
                },
                _ => Err(EvalError::MissingArgument),
            },
            Some(Primitive::Cons) => match (v.nth(1), v.nth(2)) {
                (Some(left), Some(right)) => {
                    proof {
                        lemma_nth_is_part(v, 1);
                        lemma_nth_is_part(v, 2);
                    }
                    match eval_model(left) {
                        Err(e) => Err(e),
                        Ok(a) => match eval_model(right) {
                            Err(e) => Err(e),
                            Ok(b) => Ok(a.cons(b)),
                        },
                    }
                },
                _ => Err(EvalError::MissingArgument),
            },
        },
    }
}

/// The value of the outcome of an evaluation.
pub open spec fn result_view(outcome: Result<Form, EvalError>) -> Result<FormView, EvalError> {
    match outcome {
        Ok(form) => Ok(form@),
        Err(e) => Err(e),
    }
}

/// Whether the text of an atom is `name`.
fn is_named(text: &String, name: &str) -> (r: bool)
    ensures
        r == (text@ == name@),
{
    *text == name.to_owned()
}

/// The primitive that `head` selects, if any.
fn primitive_of(head: &Form) -> (r: Option<Primitive>)
    ensures
        r == head_primitive(head@),
{
    match head {
        Form::Atom(text) => {
            if is_named(text, "quote") {
                Some(Primitive::Quote)
            } else if is_named(text, "atom") {
                Some(Primitive::Atom)
            } else if is_named(text, "eq") {
                Some(Primitive::Eq)
            } else if is_named(text, "car") {
                Some(Primitive::Car)
            } else if is_named(text, "cdr") {
                Some(Primitive::Cdr)
            } else if is_named(text, "cons") {
                Some(Primitive::Cons)
            } else {
                None
            }
        },
        _ => None,
    }
}

/// The `n`-th element of `form`, borrowed from it.
fn element(form: &Form, n: usize) -> (r: Option<&Form>)
    ensures
        match form@.nth(n as nat) {
            Some(v) => r matches Some(part) && part@ == v && decreases_to!(form => part),
            None => r is None,
        },
    decreases n,
{
    match form {
        Form::Pair(cell) => {
            if n == 0 {
                Some(&cell.0)
            } else {
                element(&cell.1, n - 1)
            }
        },
        Form::List(items) => {
            proof {
                lemma_list_view(*items);
                lemma_nth_of_list(views(items@), n as nat);
            }
            if n < items.len() {
                Some(&items[n])
            } else {
                None
            }
        },
        _ => None,
    }
}

/// Evaluates a borrowed form. The recursion goes into the elements of the
/// form, which are parts of it.
fn eval_ref(form: &Form) -> (r: Result<Form, EvalError>)
    ensures
        result_view(r) == eval_model(form@),
    decreases form,
{
    let head = match element(form, 0) {
        Some(head) => head,
        None => {
            return Ok(form.clone());
        },
    };
    let primitive = match primitive_of(head) {
        Some(primitive) => primitive,
        None => {
            return Ok(Form::Nil);
        },
    };
    let first = match element(form, 1) {
        Some(first) => first,
        None => {
            return Err(EvalError::MissingArgument);
        },
    };
    match primitive {
        Primitive::Quote => Ok(first.clone()),
        Primitive::Atom => {
            let value = eval_ref(first)?;
            Ok(value.atom())
        },
        Primitive::Car => {
            let value = eval_ref(first)?;
            match value.car() {
                Some(part) => Ok(part),
                None => Err(EvalError::TypeMismatch),
            }
        },
        Primitive::Cdr => {
            let value = eval_ref(first)?;
            match value.cdr() {
                Some(rest) => Ok(rest),
                None => Err(EvalError::TypeMismatch),
            }
        },
        Primitive::Eq => {
            let second = match element(form, 2) {
                Some(second) => second,
                None => {
                    return Err(EvalError::MissingArgument);
                },
            };
            let left = eval_ref(first)?;
            let right = eval_ref(second)?;
            if left.comparable(&right) {
                Ok(left.eq(&right))
            } else {
                Err(EvalError::TypeMismatch)
            }
        },
        Primitive::Cons => {
            let second = match element(form, 2) {
                Some(second) => second,
                None => {
                    return Err(EvalError::MissingArgument);
                },
            };
            let mut left = eval_ref(first)?;
            let right = eval_ref(second)?;
            Ok(left.cons(right))
        },
    }
}

/// Evaluates `form`: `Ok` with its value, or `Err` with the reason why it
/// has none. Every form is accepted.
pub fn try_eval(form: Form) -> (r: Result<Form, EvalError>)
    ensures
        result_view(r) == eval_model(form@),
        form@.car() is None ==> result_view(r) == Ok::<FormView, EvalError>(form@),
{
    eval_ref(&form)
}

/// Evaluates a form that has a value.
///
/// A form has no value where a primitive lacks an argument or meets a value
/// on which it is not defined. Such a form is a violation of this function's
/// contract; [`try_eval`] takes it and reports the reason.
pub fn eval(form: Form) -> (r: Form)
    requires
        eval_model(form@) is Ok,
    ensures
        eval_model(form@) == Ok::<FormView, EvalError>(r@),
        form@.car() is None ==> r@ == form@,
{
    match try_eval(form) {
        Ok(value) => value,
        Err(_) => vstd::pervasive::unreached(),
    }
}

} // verus!
