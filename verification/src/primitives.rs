//! The primitive operations of the language, as methods of [`Form`].

use vstd::prelude::*;
use crate::form::{lemma_list_view, views, Form};
use crate::model::{assoc_defined, assoc_model, truth, zip_pairs, FormView};

verus! {

/// The value of an optional form.
pub open spec fn option_view(form: Option<Form>) -> Option<FormView> {
    match form {
        Some(f) => Some(f@),
        None => None,
    }
}

/// The list of copies of the items of `items` from index `start` on.
fn list_from(items: &Vec<Form>, start: usize) -> (r: Form)
    requires
        start <= items.len(),
    ensures
        r@ == FormView::List(views(items@).skip(start as int)),
{
    let mut rest: Vec<Form> = Vec::new();
    let mut i: usize = start;
    while i < items.len()
        invariant
            start <= i <= items.len(),
            rest.len() == i - start,
            forall|k: int| 0 <= k < rest.len() ==> rest[k]@ == items[k + start]@,
        decreases items.len() - i,
    {
        rest.push(items[i].clone());
        i += 1;
    }
    proof {
        lemma_list_view(rest);
        assert(views(rest@) =~= views(items@).skip(start as int));
    }
    Form::List(rest)
}

impl Form {
    /// Returns the form itself, unevaluated.
    pub fn quote(self) -> (r: Self)
        ensures
            r == self,
    {
        self
    }

    /// `T` when the form is atomic, else `Nil`.
    pub fn atom(&self) -> (r: Self)
        ensures
            r@ == truth(self@.is_atomic()),
    {
        match self {
            Form::Atom(_) => Form::T,
            Form::T => Form::T,
            Form::Nil => Form::T,
            Form::Pair(_) => Form::Nil,
            Form::List(items) => {
                if items.len() == 0 {
                    Form::T
                } else {
                    Form::Nil
                }
            },
            Form::Lambda(_) => Form::Nil,
        }
    }

    /// On a list, takes the items out of the receiver and returns a new list
    /// with `value` in front of them; the receiver is left an empty list. On
    /// any other form, returns the cell `(self, value)` and leaves the
    /// receiver as it was.
    pub fn cons(&mut self, value: Form) -> (r: Form)
        ensures
            r@ == old(self)@.cons(value@),
            final(self)@ == (if old(self)@ is List {
                FormView::List(Seq::empty())
            } else {
                old(self)@
            }),
    {
        match self {
            Form::List(items) => {
                proof {
                    lemma_list_view(*items);
                }
                let mut list: Vec<Form> = Vec::new();
                list.push(value);
                list.append(items);
                proof {
                    lemma_list_view(list);
                    lemma_list_view(*items);
                    assert(views(list@) =~= seq![value@] + views(old(self)->List_0@));
                    assert(views(items@) =~= Seq::<FormView>::empty());
                }
                Form::List(list)
            },
            _ => Form::Pair(Box::new((self.clone(), value))),
        }
    }

    /// The first slot of a pair or the first item of a non-empty list;
    /// `None` for every other form, the empty list among them.
    pub fn car(&self) -> (r: Option<Self>)
        ensures
            option_view(r) == self@.car(),
    {
        match self {
            Form::Pair(cell) => Some(cell.0.clone()),
            Form::List(items) => {
                if items.len() > 0 {
                    Some(items[0].clone())
                } else {
                    None
                }
            },
            _ => None,
        }
    }

    /// The second slot of a pair or a non-empty list without its first item;
    /// `None` for every other form, the empty list among them.
    pub fn cdr(&self) -> (r: Option<Self>)
        ensures
            option_view(r) == self@.cdr(),
    {
        match self {
            Form::Pair(cell) => Some(cell.1.clone()),
            Form::List(items) => {
                proof {
                    lemma_list_view(*items);
                }
                if items.len() > 0 {
                    Some(list_from(items, 1))
                } else {
                    None
                }
            },
            _ => None,
        }
    }

    /// `car` of `cdr`.
    pub fn cadr(&self) -> (r: Option<Self>)
        ensures
            option_view(r) == self@.cadr(),
    {
        match self {
            Form::Pair(cell) => cell.1.car(),
            Form::List(items) => {
                proof {
                    lemma_list_view(*items);
                }
                if items.len() > 1 {
                    Some(items[1].clone())
                } else {
                    None
                }
            },
            _ => None,
        }
    }

    /// `cdr` of `cdr`.
    pub fn cddr(&self) -> (r: Option<Self>)
        ensures
            option_view(r) == self@.cddr(),
    {
        match self {
            Form::Pair(cell) => cell.1.cdr(),
            Form::List(items) => {
                proof {
                    lemma_list_view(*items);
                }
                if items.len() > 1 {
                    assert(views(items@).skip(1).skip(1) =~= views(items@).skip(2));
                    Some(list_from(items, 2))
                } else {
                    None
                }
            },
            _ => None,
        }
    }

    /// Structural equality of two forms of the same variant: `T` when they
    /// have the same value, else `Nil`. Forms of different variants, and
    /// lambdas, cannot be compared.
    pub fn eq(&self, rhs: &Self) -> (r: Self)
        requires
            self@.comparable(rhs@),
        ensures
            r@ == truth(self@ == rhs@),
    {
        if self.comparable(rhs) {
            if *self == *rhs {
                Form::T
            } else {
                Form::Nil
            }
        } else {
            vstd::pervasive::unreached()
        }
    }

    /// Whether `eq` is defined on the two forms.
    pub fn comparable(&self, rhs: &Self) -> (r: bool)
        ensures
            r == self@.comparable(rhs@),
    {
        match (self, rhs) {
            (Form::Atom(_), Form::Atom(_)) => true,
            (Form::T, Form::T) => true,
            (Form::Nil, Form::Nil) => true,
            (Form::Pair(_), Form::Pair(_)) => true,
            (Form::List(_), Form::List(_)) => true,
            _ => false,
        }
    }

    /// Zips two lists of equal length into the list of the cells
    /// `(self[i], rhs[i])`, in order.
    pub fn pair(self, rhs: Self) -> (r: Self)
        requires
            self@ is List,
            rhs@ is List,
            self@->List_0.len() == rhs@->List_0.len(),
        ensures
            r@ == FormView::List(zip_pairs(self@->List_0, rhs@->List_0)),
    {
        match (self, rhs) {
            (Form::List(mut keys), Form::List(mut values)) => {
                let ghost key_views = views(keys@);
                let ghost value_views = views(values@);
                proof {
                    lemma_list_view(keys);
                    lemma_list_view(values);
                }
                if keys.len() != values.len() {
                    return vstd::pervasive::unreached();
                }
                // Cells come off the ends of both lists, last cell first.
                let mut reversed: Vec<Form> = Vec::new();
                while keys.len() > 0
                    invariant
                        keys.len() == values.len(),
                        keys.len() + reversed.len() == key_views.len(),
                        key_views.len() == value_views.len(),
                        views(keys@) == key_views.take(keys.len() as int),
                        views(values@) == value_views.take(values.len() as int),
                        forall|k: int|
                            0 <= k < reversed.len() ==> (#[trigger] reversed[k])@ == zip_pairs(
                                key_views,
                                value_views,
                            )[key_views.len() - 1 - k],
                    decreases keys.len(),
                {
                    let ghost n = keys.len() - 1;
                    assert(views(keys@)[n] == key_views[n]);
                    assert(views(values@)[n] == value_views[n]);
                    let key = keys.pop();
                    let value = values.pop();
                    match (key, value) {
                        (Some(key), Some(value)) => {
                            reversed.push(Form::Pair(Box::new((key, value))));
                        },
                        _ => vstd::pervasive::unreached(),
                    }
                    assert(views(keys@) =~= key_views.take(keys.len() as int));
                    assert(views(values@) =~= value_views.take(values.len() as int));
                }
                let ghost total = reversed.len();
                let mut cells: Vec<Form> = Vec::new();
                while reversed.len() > 0
                    invariant
                        total == key_views.len(),
                        reversed.len() + cells.len() == total,
                        forall|k: int|
                            0 <= k < reversed.len() ==> (#[trigger] reversed[k])@ == zip_pairs(
                                key_views,
                                value_views,
                            )[total - 1 - k],
                        forall|k: int|
                            0 <= k < cells.len() ==> (#[trigger] cells[k])@ == zip_pairs(
                                key_views,
                                value_views,
                            )[k],
                    decreases reversed.len(),
                {
                    match reversed.pop() {
                        Some(cell) => {
                            cells.push(cell);
                        },
                        None => vstd::pervasive::unreached(),
                    }
                }
                proof {
                    lemma_list_view(cells);
                    assert(views(cells@) =~= zip_pairs(key_views, value_views));
                }
                Form::List(cells)
            },
            _ => vstd::pervasive::unreached(),
        }
    }

    /// Looks `self` up as a key in the association list `plist`, and returns
    /// the value of the first entry when its key equals `self`.
    ///
    /// Only the first entry of `plist` is consulted: a key that sits further
    /// down the list is reported absent, as is every key in an empty list.
    pub fn assoc(self, plist: Self) -> (r: Option<Self>)
        requires
            assoc_defined(self@, plist@),
        ensures
            option_view(r) == assoc_model(self@, plist@),
    {
        match plist {
            Form::List(entries) => {
                proof {
                    lemma_list_view(entries);
                }
                if entries.len() > 0 {
                    let entry = &entries[0];
                    match entry.car() {
                        Some(key) => {
                            if self.eq(&key) == Form::T {
                                entry.cdr()
                            } else {
                                None
                            }
                        },
                        None => vstd::pervasive::unreached(),
                    }
                } else {
                    None
                }
            },
            _ => vstd::pervasive::unreached(),
        }
    }

    /// `T` for `Nil` and for the empty list, else `Nil`.
    pub fn null(&self) -> (r: Self)
        ensures
            r@ == truth(self@.is_null()),
    {
        match self {
            Form::Atom(_) => Form::Nil,
            Form::T => Form::Nil,
            Form::Nil => Form::T,
            Form::Pair(_) => Form::Nil,
            Form::List(items) => {
                if items.is_empty() {
                    Form::T
                } else {
                    Form::Nil
                }
            },
            Form::Lambda(_) => Form::Nil,
        }
    }

    /// `T` when both forms are exactly `T`, else `Nil`.
    pub fn and(&self, rhs: &Self) -> (r: Self)
        ensures
            r@ == truth(self@ is T && rhs@ is T),
    {
        match (self, rhs) {
            (Form::T, Form::T) => Form::T,
            _ => Form::Nil,
        }
    }

    /// `T` when the form is exactly `Nil`, else `Nil`.
    pub fn not(&self) -> (r: Self)
        ensures
            r@ == truth(self@ is Nil),
    {
        match self {
            Form::Nil => Form::T,
            _ => Form::Nil,
        }
    }

    /// Moves the items of the list `other` to the end of the list `self`;
    /// `other` is left an empty list.
    pub fn append(&mut self, other: &mut Self)
        requires
            old(self)@ is List,
            old(other)@ is List,
        ensures
            final(self)@ == FormView::List(old(self)@->List_0 + old(other)@->List_0),
            final(other)@ == FormView::List(Seq::empty()),
    {
        match (self, other) {
            (Form::List(left), Form::List(right)) => {
                proof {
                    lemma_list_view(*left);
                    lemma_list_view(*right);
                }
                left.append(right);
                proof {
                    lemma_list_view(*left);
                    lemma_list_view(*right);
                    assert(views(left@) =~= old(self)@->List_0 + old(other)@->List_0);
                    assert(views(right@) =~= Seq::<FormView>::empty());
                }
            },
            _ => vstd::pervasive::unreached(),
        }
    }

    /// Runs the procedure of a lambda on `params`. What comes back is
    /// whatever the procedure returns.
    pub fn apply(self, params: Option<Form>) -> (r: Self)
        requires
            self@ is Lambda,
    {
        match self {
            Form::Lambda(callable) => callable.call(params),
            _ => vstd::pervasive::unreached(),
        }
    }
}

} // verus!
