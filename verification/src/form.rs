//! Forms: the values of the language.

use vstd::prelude::*;
use vstd::std_specs::cmp::PartialEqSpecImpl;
use crate::model::FormView;

verus! {

/// A native procedure from an optional argument to a form.
///
/// Verus has no model of function pointers, so the pointer is hidden from
/// the proofs: to them a `Callable` is a value known only by its identity,
/// which is the address it holds. It can be copied, compared with another
/// one and called; nothing is stated of what a call returns.
#[verifier::external_body]
#[derive(Debug)]
pub struct Callable(pub fn(Option<Form>) -> Form);

/// A value of the language.
///
/// Its mathematical value is `self@`, a [`FormView`].
#[derive(Debug)]
pub enum Form {
    /// A symbolic name; two atoms are equal when their texts are.
    Atom(String),
    /// The true value.
    T,
    /// The false value, which also stands for the empty list.
    Nil,
    /// An ordered cell of two forms.
    Pair(Box<(Form, Form)>),
    /// An ordered sequence of forms.
    List(Vec<Form>),
    /// A native procedure, run by [`Form::apply`].
    Lambda(Callable),
}

impl Copy for Callable {
}

impl Clone for Callable {
    /// The copy is the same callable.
    fn clone(&self) -> (c: Self)
        ensures
            c == *self,
    {
        *self
    }
}

impl Callable {
    /// Calls the function pointer on `arg`. The procedure is the caller's
    /// own code: nothing is claimed of what it returns, and where it panics
    /// or does not return, neither does this call.
    #[verifier::external_body]
    pub(crate) fn call(&self, arg: Option<Form>) -> (r: Form) {
        (self.0)(arg)
    }

    /// `std::ptr::fn_addr_eq` on the two function pointers: whether both
    /// hold the same address. The address is all there is to a function
    /// pointer, so this is claimed to tell whether the two callables are the
    /// same value.
    #[verifier::external_body]
    fn same(&self, other: &Callable) -> (b: bool)
        ensures
            b == (*self == *other),
    {
        std::ptr::fn_addr_eq(self.0, other.0)
    }
}

impl View for Form {
    type V = FormView;

    open spec fn view(&self) -> FormView
        decreases self,
    {
        match self {
            Form::Atom(text) => FormView::Atom(text@),
            Form::T => FormView::T,
            Form::Nil => FormView::Nil,
            Form::Pair(cell) => FormView::Pair(Box::new(cell.0@), Box::new(cell.1@)),
            Form::List(items) => FormView::List(
                Seq::new(
                    items.len() as nat,
                    |i: int|
                        if 0 <= i < items.len() {
                            items[i]@
                        } else {
                            FormView::Nil
                        },
                ),
            ),
            Form::Lambda(callable) => FormView::Lambda(*callable),
        }
    }
}

/// The values that a vector of forms holds, in order.
pub open spec fn views(items: Seq<Form>) -> Seq<FormView> {
    Seq::new(items.len(), |i: int| items[i]@)
}

/// The value of a list is the sequence of the values of its items.
pub proof fn lemma_list_view(items: Vec<Form>)
    ensures
        Form::List(items)@ == FormView::List(views(items@)),
{
    assert(Form::List(items)@->List_0 =~= views(items@));
}

impl Clone for Form {
    /// A deep copy, of the same value.
    fn clone(&self) -> (r: Self)
        ensures
            r@ == self@,
        decreases self,
    {
        match self {
            Form::Atom(text) => Form::Atom(text.clone()),
            Form::T => Form::T,
            Form::Nil => Form::Nil,
            Form::Pair(cell) => Form::Pair(Box::new((cell.0.clone(), cell.1.clone()))),
            Form::List(items) => {
                let mut copy: Vec<Form> = Vec::new();
                let mut i: usize = 0;
                while i < items.len()
                    invariant
                        self is List,
                        self->List_0 == *items,
                        i <= items.len(),
                        copy.len() == i,
                        forall|k: int| 0 <= k < i ==> copy[k]@ == items[k]@,
                    decreases items.len() - i,
                {
                    copy.push(items[i].clone());
                    i += 1;
                }
                proof {
                    lemma_list_view(copy);
                    lemma_list_view(*items);
                    assert(views(copy@) =~= views(items@));
                }
                Form::List(copy)
            },
            Form::Lambda(callable) => Form::Lambda(*callable),
        }
    }
}

impl PartialEq for Form {
    /// Structural equality: whether both forms have the same value.
    fn eq(&self, other: &Form) -> (r: bool) {
        self.same_value(other)
    }
}

impl PartialEqSpecImpl for Form {
    open spec fn obeys_eq_spec() -> bool {
        true
    }

    open spec fn eq_spec(&self, other: &Form) -> bool {
        self@ == other@
    }
}

impl Form {
    /// Whether both forms have the same value, compared slot by slot.
    fn same_value(&self, other: &Form) -> (r: bool)
        ensures
            r == (self@ == other@),
        decreases self,
    {
        match (self, other) {
            (Form::Atom(a), Form::Atom(b)) => *a == *b,
            (Form::T, Form::T) => true,
            (Form::Nil, Form::Nil) => true,
            (Form::Pair(a), Form::Pair(b)) => a.0.same_value(&b.0) && a.1.same_value(&b.1),
            (Form::List(a), Form::List(b)) => {
                proof {
                    lemma_list_view(*a);
                    lemma_list_view(*b);
                }
                if a.len() != b.len() {
                    assert(views(a@).len() != views(b@).len());
                    return false;
                }
                let mut i: usize = 0;
                while i < a.len()
                    invariant
                        self is List,
                        self->List_0 == *a,
                        a.len() == b.len(),
                        i <= a.len(),
                        forall|k: int| 0 <= k < i ==> a[k]@ == b[k]@,
                        self@ == FormView::List(views(a@)),
                        other@ == FormView::List(views(b@)),
                    decreases a.len() - i,
                {
                    if !a[i].same_value(&b[i]) {
                        assert(views(a@)[i as int] != views(b@)[i as int]);
                        return false;
                    }
                    i += 1;
                }
                assert(views(a@) =~= views(b@));
                true
            },
            (Form::Lambda(a), Form::Lambda(b)) => a.same(b),
            _ => false,
        }
    }
}

} // verus!
