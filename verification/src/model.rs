//! The mathematical model of forms.
//!
//! Every contract in this crate is stated over [`FormView`], the value a
//! [`Form`](crate::form::Form) denotes, and over the spec functions below.

use vstd::prelude::*;
use crate::form::Callable;

verus! {

/// The value of a form: atoms are their text, lists are sequences.
pub enum FormView {
    Atom(Seq<char>),
    T,
    Nil,
    Pair(Box<FormView>, Box<FormView>),
    List(Seq<FormView>),
    Lambda(Callable),
}

/// The truth encoding: `T` for true, `Nil` for false.
pub open spec fn truth(b: bool) -> FormView {
    if b {
        FormView::T
    } else {
        FormView::Nil
    }
}

/// The element-wise pairing of two sequences, as long as the first one.
pub open spec fn zip_pairs(keys: Seq<FormView>, values: Seq<FormView>) -> Seq<FormView> {
    Seq::new(keys.len(), |i: int| FormView::Pair(Box::new(keys[i]), Box::new(values[i])))
}

/// The atoms with the given texts, in order.
pub open spec fn atoms(texts: Seq<Seq<char>>) -> Seq<FormView> {
    Seq::new(texts.len(), |i: int| FormView::Atom(texts[i]))
}

/// What `assoc` finds for `key` in `plist`: the value of the first entry
/// when that entry's key is `key`. No entry after the first is consulted.
pub open spec fn assoc_model(key: FormView, plist: FormView) -> Option<FormView> {
    match plist {
        FormView::List(entries) => if entries.len() > 0 && entries[0].car() == Some(key) {
            entries[0].cdr()
        } else {
            None
        },
        _ => None,
    }
}

/// The inputs on which `assoc` is defined: `plist` is a list, and if it has
/// a first entry, that entry has a key, of the same variant as `key`.
pub open spec fn assoc_defined(key: FormView, plist: FormView) -> bool {
    plist matches FormView::List(entries) && (entries.len() > 0 ==> (entries[0].car() matches Some(
        first_key,
    ) && key.comparable(first_key)))
}

impl FormView {
    /// `Atom`, `T`, `Nil` and the empty list are atomic; pairs, non-empty
    /// lists and lambdas are not.
    pub open spec fn is_atomic(self) -> bool {
        match self {
            FormView::Atom(_) => true,
            FormView::T => true,
            FormView::Nil => true,
            FormView::Pair(_, _) => false,
            FormView::List(items) => items.len() == 0,
            FormView::Lambda(_) => false,
        }
    }

    /// Only `Nil` and the empty list are null.
    pub open spec fn is_null(self) -> bool {
        match self {
            FormView::Nil => true,
            FormView::List(items) => items.len() == 0,
            _ => false,
        }
    }

    /// The first slot of a pair, or the first element of a non-empty list.
    pub open spec fn car(self) -> Option<FormView> {
        match self {
            FormView::Pair(first, _) => Some(*first),
            FormView::List(items) => if items.len() > 0 {
                Some(items[0])
            } else {
                None
            },
            _ => None,
        }
    }

    /// The second slot of a pair, or a non-empty list without its first element.
    pub open spec fn cdr(self) -> Option<FormView> {
        match self {
            FormView::Pair(_, second) => Some(*second),
            FormView::List(items) => if items.len() > 0 {
                Some(FormView::List(items.skip(1)))
            } else {
                None
            },
            _ => None,
        }
    }

    /// `car` of `cdr`.
    pub open spec fn cadr(self) -> Option<FormView> {
        match self.cdr() {
            Some(rest) => rest.car(),
            None => None,
        }
    }

    /// `cdr` of `cdr`.
    pub open spec fn cddr(self) -> Option<FormView> {
        match self.cdr() {
            Some(rest) => rest.cdr(),
            None => None,
        }
    }

    /// Two forms can be compared when they are of the same variant, and that
    /// variant is not `Lambda`.
    pub open spec fn comparable(self, other: FormView) -> bool {
        match (self, other) {
            (FormView::Atom(_), FormView::Atom(_)) => true,
            (FormView::T, FormView::T) => true,
            (FormView::Nil, FormView::Nil) => true,
            (FormView::Pair(_, _), FormView::Pair(_, _)) => true,
            (FormView::List(_), FormView::List(_)) => true,
            _ => false,
        }
    }

    /// What `cons` builds from the receiver `self` and `value`: a list with
    /// `value` in front when the receiver is a list, else the cell
    /// `(self, value)`.
    pub open spec fn cons(self, value: FormView) -> FormView {
        match self {
            FormView::List(items) => FormView::List(seq![value] + items),
            _ => FormView::Pair(Box::new(self), Box::new(value)),
        }
    }

    /// Whether no lambda occurs in `self`, at any depth.
    pub open spec fn lambda_free(self) -> bool
        decreases self,
    {
        match self {
            FormView::Atom(_) => true,
            FormView::T => true,
            FormView::Nil => true,
            FormView::Pair(first, second) => first.lambda_free() && second.lambda_free(),
            FormView::List(items) => forall|i: int|
                0 <= i < items.len() ==> (#[trigger] items[i]).lambda_free(),
            FormView::Lambda(_) => false,
        }
    }

    /// Whether `self` is a cell of two atoms.
    pub open spec fn is_atom_pair(self) -> bool {
        self matches FormView::Pair(first, second) && *first is Atom && *second is Atom
    }

    /// Whether `self` is a list of atoms.
    pub open spec fn is_atom_list(self) -> bool {
        self matches FormView::List(items) && forall|i: int|
            0 <= i < items.len() ==> #[trigger] items[i] is Atom
    }

    /// Whether `self` is a list of cells of two atoms.
    pub open spec fn is_atom_pair_list(self) -> bool {
        self matches FormView::List(items) && forall|i: int|
            0 <= i < items.len() ==> (#[trigger] items[i]).is_atom_pair()
    }
}

} // verus!
