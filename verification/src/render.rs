//! The text by which a form is shown.

use vstd::prelude::*;
use crate::form::{lemma_list_view, views, Form};
use crate::model::FormView;

verus! {

/// The text that the `Debug` formatting of a string with the characters
/// `text` gives: the string in double quotes, with escapes.
pub uninterp spec fn debug_of_text(text: Seq<char>) -> Seq<char>;

/// The text that the derived `Debug` formatting gives for the two slots of a
/// cell with the values `first` and `second`, neither of which holds a
/// lambda.
pub uninterp spec fn debug_of_cell(first: FormView, second: FormView) -> Seq<char>;

/// The text that the derived `Debug` formatting gives for a vector of forms
/// with the values `items`, none of which holds a lambda.
pub uninterp spec fn debug_of_items(items: Seq<FormView>) -> Seq<char>;

/// How a form is shown: an atom as its quoted text, `T` and `Nil` as the
/// tokens `T` and `NIL`, a lambda as `LAMBDA`, cells and lists in their
/// structural debug form.
///
/// The debug form of a lambda inside a cell or a list shows the address of
/// its procedure, which is not the same from one run to the next: the text
/// is stated for the forms of which [`is_stable`] holds.
pub open spec fn rendering(v: FormView) -> Seq<char> {
    match v {
        FormView::Atom(text) => debug_of_text(text),
        FormView::T => "T"@,
        FormView::Nil => "NIL"@,
        FormView::Pair(first, second) => debug_of_cell(*first, *second),
        FormView::List(items) => debug_of_items(items),
        FormView::Lambda(_) => "LAMBDA"@,
    }
}

/// Whether the text of a form is the same in every run: the form is a
/// lambda, or holds none.
pub open spec fn is_stable(v: FormView) -> bool {
    v is Lambda || v.lambda_free()
}

/// `format!` with `{:?}` on a string. `Debug` for a string reads nothing but
/// its characters, so the text is claimed to be a function of them.
#[verifier::external_body]
fn debug_text(text: &String) -> (r: String)
    ensures
        r@ == debug_of_text(text@),
{
    format!("{:?}", text)
}

/// `format!` with `{:?}` on the two slots of a cell. Where no lambda occurs
/// in them, the derived `Debug` of a form reads nothing but the variants and
/// the characters of the atoms, so the text is claimed to be a function of
/// the two values. Nothing is claimed where a lambda occurs: its address is
/// shown.
#[verifier::external_body]
fn debug_cell(cell: &(Form, Form)) -> (r: String)
    ensures
        cell.0@.lambda_free() && cell.1@.lambda_free() ==> r@ == debug_of_cell(cell.0@, cell.1@),
{
    format!("{:?}", cell)
}

/// `format!` with `{:?}` on a vector of forms. As for a cell, the text is
/// claimed to be a function of the values of the items where no lambda
/// occurs in them, and nothing is claimed where one does.
#[verifier::external_body]
fn debug_items(items: &Vec<Form>) -> (r: String)
    ensures
        FormView::List(views(items@)).lambda_free() ==> r@ == debug_of_items(views(items@)),
{
    format!("{:?}", items)
}

impl Form {
    /// The text by which the form is shown.
    pub fn to_string(&self) -> (text: String)
        ensures
            is_stable(self@) ==> text@ == rendering(self@),
    {
        match self {
            Form::Atom(name) => debug_text(name),
            Form::T => "T".to_owned(),
            Form::Nil => "NIL".to_owned(),
            Form::Pair(cell) => debug_cell(cell),
            Form::List(items) => {
                proof {
                    lemma_list_view(*items);
                }
                debug_items(items)
            },
            Form::Lambda(_) => "LAMBDA".to_owned(),
        }
    }
}

} // verus!
