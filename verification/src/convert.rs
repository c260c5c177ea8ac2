//! Conversions between forms and plain Rust values.

use vstd::prelude::*;
use vstd::std_specs::convert::FromSpecImpl;
use crate::form::{lemma_list_view, views, Form};
use crate::model::{atoms, FormView};

verus! {

/// The texts of a sequence of strings.
pub open spec fn texts(strings: Seq<String>) -> Seq<Seq<char>> {
    Seq::new(strings.len(), |i: int| strings[i]@)
}

/// The texts of a sequence of string slices.
pub open spec fn slice_texts(names: Seq<&str>) -> Seq<Seq<char>> {
    Seq::new(names.len(), |i: int| names[i]@)
}

/// The texts of a sequence of pairs of strings.
pub open spec fn pair_texts(pairs: Seq<(String, String)>) -> Seq<(Seq<char>, Seq<char>)> {
    Seq::new(pairs.len(), |i: int| (pairs[i].0@, pairs[i].1@))
}

/// The cell of the atoms with the texts `first` and `second`.
pub open spec fn atom_pair(first: Seq<char>, second: Seq<char>) -> FormView {
    FormView::Pair(Box::new(FormView::Atom(first)), Box::new(FormView::Atom(second)))
}

/// The cells of atoms with the given texts, in order.
pub open spec fn atom_pairs(texts: Seq<(Seq<char>, Seq<char>)>) -> Seq<FormView> {
    Seq::new(texts.len(), |i: int| atom_pair(texts[i].0, texts[i].1))
}

// A `String` cannot be written down in a specification, only its text can.
// The conversions from string slices therefore state their results through
// the view of the form, and give `from_spec` no meaning.

impl<'a> From<&'a str> for Form {
    /// The atom with the text `s`.
    fn from(s: &'a str) -> (r: Form)
        ensures
            r@ == FormView::Atom(s@),
    {
        Form::Atom(s.to_owned())
    }
}

impl<'a> FromSpecImpl<&'a str> for Form {
    open spec fn obeys_from_spec() -> bool {
        false
    }

    open spec fn from_spec(s: &'a str) -> Form {
        arbitrary()
    }
}

impl<'a> From<(&'a str, &'a str)> for Form {
    /// The cell of the atoms with the texts `pair.0` and `pair.1`.
    fn from(pair: (&'a str, &'a str)) -> (r: Form)
        ensures
            r@ == atom_pair(pair.0@, pair.1@),
    {
        Form::Pair(Box::new((Form::from(pair.0), Form::from(pair.1))))
    }
}

impl<'a> FromSpecImpl<(&'a str, &'a str)> for Form {
    open spec fn obeys_from_spec() -> bool {
        false
    }

    open spec fn from_spec(pair: (&'a str, &'a str)) -> Form {
        arbitrary()
    }
}

impl From<(Form, Form)> for Form {
    /// The cell of the two forms.
    fn from(pair: (Form, Form)) -> (r: Form)
        ensures
            r@ == FormView::Pair(Box::new(pair.0@), Box::new(pair.1@)),
    {
        Form::Pair(Box::new(pair))
    }
}

impl FromSpecImpl<(Form, Form)> for Form {
    open spec fn obeys_from_spec() -> bool {
        true
    }

    open spec fn from_spec(pair: (Form, Form)) -> Form {
        Form::Pair(Box::new(pair))
    }
}

impl<'a> From<Vec<&'a str>> for Form {
    /// The list of the atoms with the given texts, in order.
    fn from(names: Vec<&'a str>) -> (r: Form)
        ensures
            r@ == FormView::List(atoms(slice_texts(names@))),
    {
        let mut list: Vec<Form> = Vec::new();
        let mut i: usize = 0;
        while i < names.len()
            invariant
                i <= names.len(),
                list.len() == i,
                forall|k: int| 0 <= k < i ==> list[k]@ == FormView::Atom(names[k]@),
            decreases names.len() - i,
        {
            list.push(Form::from(names[i]));
            i += 1;
        }
        proof {
            lemma_list_view(list);
            assert(views(list@) =~= atoms(slice_texts(names@)));
        }
        Form::List(list)
    }
}

impl<'a> FromSpecImpl<Vec<&'a str>> for Form {
    open spec fn obeys_from_spec() -> bool {
        false
    }

    open spec fn from_spec(names: Vec<&'a str>) -> Form {
        arbitrary()
    }
}

impl From<Vec<Form>> for Form {
    /// The list of the given forms, in order.
    fn from(items: Vec<Form>) -> (r: Form)
        ensures
            r@ == FormView::List(views(items@)),
    {
        proof {
            lemma_list_view(items);
        }
        Form::List(items)
    }
}

impl FromSpecImpl<Vec<Form>> for Form {
    open spec fn obeys_from_spec() -> bool {
        true
    }

    open spec fn from_spec(items: Vec<Form>) -> Form {
        Form::List(items)
    }
}

impl Form {
    /// The text of an atom.
    pub fn into_string(self) -> (text: String)
        requires
            self@ is Atom,
        ensures
            text@ == self@->Atom_0,
    {
        match self {
            Form::Atom(text) => text,
            _ => vstd::pervasive::unreached(),
        }
    }

    /// The texts of a cell of two atoms.
    pub fn into_string_pair(self) -> (pair: (String, String))
        requires
            self@.is_atom_pair(),
        ensures
            self@ == atom_pair(pair.0@, pair.1@),
    {
        match self {
            Form::Pair(cell) => {
                let (first, second) = *cell;
                (first.into_string(), second.into_string())
            },
            _ => vstd::pervasive::unreached(),
        }
    }

    /// The texts of a list of atoms, in order.
    pub fn into_strings(self) -> (strings: Vec<String>)
        requires
            self@.is_atom_list(),
        ensures
            self@ == FormView::List(atoms(texts(strings@))),
    {
        match self {
            Form::List(items) => {
                proof {
                    lemma_list_view(items);
                }
                let mut strings: Vec<String> = Vec::new();
                let ghost all = items@;
                for item in it: items.into_iter()
                    invariant
                        it.seq() == all,
                        strings.len() == it.index(),
                        forall|k: int| 0 <= k < all.len() ==> (#[trigger] views(all)[k]) is Atom,
                        forall|k: int|
                            0 <= k < it.index() ==> all[k]@ == FormView::Atom(
                                (#[trigger] strings[k])@,
                            ),
                {
                    assert(views(all)[it.index() as int] is Atom);
                    strings.push(item.into_string());
                }
                assert(views(all) =~= atoms(texts(strings@)));
                strings
            },
            _ => vstd::pervasive::unreached(),
        }
    }

    /// The texts of a list of cells of two atoms, in order.
    pub fn into_string_pairs(self) -> (pairs: Vec<(String, String)>)
        requires
            self@.is_atom_pair_list(),
        ensures
            self@ == FormView::List(atom_pairs(pair_texts(pairs@))),
    {
        match self {
            Form::List(items) => {
                proof {
                    lemma_list_view(items);
                    assert forall|k: int| 0 <= k < items.len() implies (#[trigger] views(
                        items@,
                    )[k]).is_atom_pair() by {
                        assert(self@->List_0[k].is_atom_pair());
                    }
                }
                let mut pairs: Vec<(String, String)> = Vec::new();
                let ghost all = items@;
                for item in it: items.into_iter()
                    invariant
                        it.seq() == all,
                        pairs.len() == it.index(),
                        forall|k: int|
                            0 <= k < all.len() ==> (#[trigger] views(all)[k]).is_atom_pair(),
                        forall|k: int|
                            0 <= k < it.index() ==> all[k]@ == atom_pair(
                                (#[trigger] pairs[k]).0@,
                                pairs[k].1@,
                            ),
                {
                    assert(views(all)[it.index() as int].is_atom_pair());
                    pairs.push(item.into_string_pair());
                }
                assert(views(all) =~= atom_pairs(pair_texts(pairs@)));
                pairs
            },
            _ => vstd::pervasive::unreached(),
        }
    }
}

} // verus!
