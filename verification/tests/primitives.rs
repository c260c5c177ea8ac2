use purisp::form::{Callable, Form};

fn atom(text: &str) -> Form {
    Form::Atom(text.to_string())
}

fn cell(first: Form, second: Form) -> Form {
    Form::Pair(Box::new((first, second)))
}

fn yes(_: Option<Form>) -> Form {
    Form::T
}

fn no(_: Option<Form>) -> Form {
    Form::Nil
}

#[test]
fn quote_returns_the_form() {
    let form = Form::List(vec![atom("car"), atom("x")]);
    assert_eq!(form.clone().quote(), form);
}

#[test]
fn atom_is_true_of_atoms_t_nil_and_the_empty_list() {
    assert_eq!(Form::Nil.atom(), Form::T);
    assert_eq!(Form::T.atom(), Form::T);
    assert_eq!(atom("x").atom(), Form::T);
    assert_eq!(atom("").atom(), Form::T);
    assert_eq!(Form::List(vec![]).atom(), Form::T);
}

#[test]
fn atom_is_false_of_pairs_lists_and_lambdas() {
    assert_eq!(Form::List(vec![atom("x")]).atom(), Form::Nil);
    assert_eq!(Form::List(vec![Form::Nil]).atom(), Form::Nil);
    assert_eq!(cell(atom("x"), atom("y")).atom(), Form::Nil);
    assert_eq!(Form::Lambda(Callable(yes)).atom(), Form::Nil);
}

#[test]
fn null_is_true_of_nil_and_the_empty_list_only() {
    assert_eq!(Form::Nil.null(), Form::T);
    assert_eq!(Form::List(vec![]).null(), Form::T);
    assert_eq!(Form::T.null(), Form::Nil);
    assert_eq!(atom("x").null(), Form::Nil);
    assert_eq!(cell(Form::Nil, Form::Nil).null(), Form::Nil);
    assert_eq!(Form::List(vec![Form::Nil]).null(), Form::Nil);
    assert_eq!(Form::Lambda(Callable(yes)).null(), Form::Nil);
}

#[test]
fn and_is_true_only_of_two_t() {
    assert_eq!(Form::T.and(&Form::T), Form::T);
    assert_eq!(Form::T.and(&Form::Nil), Form::Nil);
    assert_eq!(Form::Nil.and(&Form::T), Form::Nil);
    assert_eq!(Form::Nil.and(&Form::Nil), Form::Nil);
    assert_eq!(atom("x").and(&Form::T), Form::Nil);
    assert_eq!(Form::T.and(&atom("x")), Form::Nil);
    assert_eq!(Form::T.and(&Form::List(vec![Form::T])), Form::Nil);
}

#[test]
fn not_is_true_only_of_nil() {
    assert_eq!(Form::Nil.not(), Form::T);
    assert_eq!(Form::T.not(), Form::Nil);
    assert_eq!(atom("x").not(), Form::Nil);
    assert_eq!(Form::List(vec![]).not(), Form::Nil);
    assert_eq!(cell(Form::Nil, Form::Nil).not(), Form::Nil);
}

#[test]
fn cons_on_a_list_prepends() {
    let mut list = Form::List(vec![atom("b"), atom("c")]);
    let longer = list.cons(atom("a"));
    assert_eq!(longer, Form::List(vec![atom("a"), atom("b"), atom("c")]));
    assert_eq!(longer.car(), Some(atom("a")));
    assert_eq!(longer.cdr(), Some(Form::List(vec![atom("b"), atom("c")])));
}

#[test]
fn cons_on_a_list_takes_the_items_out_of_the_receiver() {
    let mut list = Form::List(vec![atom("b"), atom("c")]);
    let _ = list.cons(atom("a"));
    assert_eq!(list, Form::List(vec![]));
}

#[test]
fn cons_on_the_empty_list_gives_a_list_of_one() {
    let mut list = Form::List(vec![]);
    assert_eq!(list.cons(atom("a")), Form::List(vec![atom("a")]));
}

#[test]
fn cons_keeps_nested_structure() {
    let inner = Form::List(vec![atom("x"), cell(atom("k"), atom("v"))]);
    let mut list = Form::List(vec![inner.clone()]);
    let longer = list.cons(inner.clone());
    assert_eq!(longer, Form::List(vec![inner.clone(), inner]));
}

#[test]
fn cons_on_another_form_builds_a_cell_and_keeps_the_receiver() {
    let mut receiver = atom("key");
    let pair = receiver.cons(atom("value"));
    assert_eq!(pair, cell(atom("key"), atom("value")));
    assert_eq!(receiver, atom("key"));

    assert_eq!(Form::Nil.cons(Form::T), cell(Form::Nil, Form::T));
    assert_eq!(
        cell(atom("a"), atom("b")).cons(atom("c")),
        cell(cell(atom("a"), atom("b")), atom("c"))
    );
}

#[test]
fn car_and_cdr_of_a_cell() {
    let pair = cell(atom("a"), Form::List(vec![atom("b")]));
    assert_eq!(pair.car(), Some(atom("a")));
    assert_eq!(pair.cdr(), Some(Form::List(vec![atom("b")])));
}

#[test]
fn cdr_of_a_list_of_one_is_the_empty_list() {
    let list = Form::List(vec![atom("a")]);
    assert_eq!(list.car(), Some(atom("a")));
    assert_eq!(list.cdr(), Some(Form::List(vec![])));
}

#[test]
fn car_and_cdr_are_absent_where_undefined() {
    for form in [
        atom("a"),
        Form::T,
        Form::Nil,
        Form::List(vec![]),
        Form::Lambda(Callable(yes)),
    ] {
        assert_eq!(form.car(), None);
        assert_eq!(form.cdr(), None);
        assert_eq!(form.cadr(), None);
        assert_eq!(form.cddr(), None);
    }
}

#[test]
fn cadr_and_cddr_of_a_list() {
    let list = Form::List(vec![atom("a"), atom("b"), atom("c")]);
    assert_eq!(list.cadr(), Some(atom("b")));
    assert_eq!(list.cddr(), Some(Form::List(vec![atom("c")])));

    let one = Form::List(vec![atom("a")]);
    assert_eq!(one.cadr(), None);
    assert_eq!(one.cddr(), None);

    let two = Form::List(vec![atom("a"), atom("b")]);
    assert_eq!(two.cadr(), Some(atom("b")));
    assert_eq!(two.cddr(), Some(Form::List(vec![])));
}

#[test]
fn cadr_and_cddr_of_a_cell() {
    let pair = cell(atom("a"), cell(atom("b"), atom("c")));
    assert_eq!(pair.cadr(), Some(atom("b")));
    assert_eq!(pair.cddr(), Some(atom("c")));

    let short = cell(atom("a"), atom("b"));
    assert_eq!(short.cadr(), None);
    assert_eq!(short.cddr(), None);
}

#[test]
fn eq_of_atoms_goes_by_their_text() {
    assert_eq!(atom("abc").eq(&atom("abc")), Form::T);
    assert_eq!(atom("abc").eq(&atom("abd")), Form::Nil);
    assert_eq!(atom("abc").eq(&atom("ab")), Form::Nil);
    assert_eq!(atom("").eq(&atom("")), Form::T);
    assert_eq!(atom("a").eq(&atom("A")), Form::Nil);
}

#[test]
fn eq_of_the_singletons() {
    assert_eq!(Form::T.eq(&Form::T), Form::T);
    assert_eq!(Form::Nil.eq(&Form::Nil), Form::T);
}

#[test]
fn eq_of_cells_and_lists_goes_by_structure() {
    let a = cell(atom("k"), Form::List(vec![atom("v"), Form::Nil]));
    let b = cell(atom("k"), Form::List(vec![atom("v"), Form::Nil]));
    let c = cell(atom("k"), Form::List(vec![atom("v"), Form::T]));
    assert_eq!(a.eq(&b), Form::T);
    assert_eq!(a.eq(&c), Form::Nil);

    let short = Form::List(vec![atom("a")]);
    let long = Form::List(vec![atom("a"), atom("b")]);
    assert_eq!(short.eq(&long), Form::Nil);
    assert_eq!(long.eq(&short), Form::Nil);
    assert_eq!(long.eq(&long.clone()), Form::T);
    assert_eq!(Form::List(vec![]).eq(&Form::List(vec![])), Form::T);

    // Items of different variants make the lists differ.
    let mixed = Form::List(vec![atom("a"), Form::T]);
    assert_eq!(long.eq(&mixed), Form::Nil);
}

#[test]
fn eq_tells_lambdas_inside_lists_apart() {
    let first = Callable(yes);
    let second = Callable(no);
    let a = Form::List(vec![Form::Lambda(first)]);
    let b = Form::List(vec![Form::Lambda(first)]);
    let c = Form::List(vec![Form::Lambda(second)]);
    assert_eq!(a.eq(&b), Form::T);
    assert_eq!(a.eq(&c), Form::Nil);
}

#[test]
fn comparable_forms_are_of_the_same_variant() {
    assert!(atom("a").comparable(&atom("b")));
    assert!(Form::T.comparable(&Form::T));
    assert!(Form::Nil.comparable(&Form::Nil));
    assert!(cell(Form::T, Form::T).comparable(&cell(Form::Nil, Form::Nil)));
    assert!(Form::List(vec![]).comparable(&Form::List(vec![Form::T])));

    assert!(!atom("a").comparable(&cell(Form::T, Form::T)));
    assert!(!Form::T.comparable(&Form::Nil));
    assert!(!Form::Nil.comparable(&Form::List(vec![])));
    assert!(!Form::List(vec![]).comparable(&cell(Form::T, Form::T)));
    assert!(!Form::Lambda(Callable(yes)).comparable(&Form::Lambda(Callable(yes))));
    assert!(!Form::Lambda(Callable(yes)).comparable(&atom("a")));
}

#[test]
fn equality_of_forms_is_structural() {
    assert_eq!(atom("a"), atom("a"));
    assert_ne!(atom("a"), atom("b"));
    assert_ne!(atom("a"), Form::T);
    assert_ne!(Form::Nil, Form::List(vec![]));
    assert_ne!(Form::T, Form::Nil);
    assert_ne!(cell(atom("a"), atom("b")), cell(atom("b"), atom("a")));
    assert_ne!(
        Form::List(vec![atom("a"), atom("b")]),
        cell(atom("a"), atom("b"))
    );
    let callable = Callable(yes);
    assert_eq!(Form::Lambda(callable), Form::Lambda(callable));
    assert_ne!(Form::Lambda(Callable(yes)), Form::Lambda(Callable(no)));
}

#[test]
fn a_clone_has_the_same_value() {
    let form = Form::List(vec![
        atom("a"),
        cell(Form::T, Form::List(vec![Form::Nil, atom("b")])),
        Form::Lambda(Callable(yes)),
        Form::List(vec![]),
    ]);
    let copy = form.clone();
    assert_eq!(copy, form);
}

#[test]
fn pair_zips_two_lists_in_order() {
    let keys = Form::List(vec![atom("a1"), atom("a2")]);
    let values = Form::List(vec![atom("b1"), atom("b2")]);
    assert_eq!(
        keys.pair(values),
        Form::List(vec![
            cell(atom("a1"), atom("b1")),
            cell(atom("a2"), atom("b2")),
        ])
    );
}

#[test]
fn pair_keeps_nested_items() {
    let keys = Form::List(vec![Form::List(vec![atom("x")]), Form::T]);
    let values = Form::List(vec![cell(atom("k"), atom("v")), Form::Nil]);
    assert_eq!(
        keys.pair(values),
        Form::List(vec![
            cell(Form::List(vec![atom("x")]), cell(atom("k"), atom("v"))),
            cell(Form::T, Form::Nil),
        ])
    );
}

#[test]
fn pair_of_empty_lists_is_empty() {
    assert_eq!(
        Form::List(vec![]).pair(Form::List(vec![])),
        Form::List(vec![])
    );
}

#[test]
fn assoc_finds_the_key_of_the_first_entry() {
    let plist = Form::List(vec![
        cell(atom("a"), atom("1")),
        cell(atom("b"), atom("2")),
    ]);
    assert_eq!(atom("a").assoc(plist), Some(atom("1")));
}

#[test]
fn assoc_consults_the_first_entry_only() {
    let plist = Form::List(vec![
        cell(atom("a"), atom("1")),
        cell(atom("b"), atom("2")),
    ]);
    assert_eq!(atom("b").assoc(plist.clone()), None);
    assert_eq!(atom("z").assoc(plist), None);
}

#[test]
fn assoc_tells_an_absent_key_from_the_value_nil() {
    let plist = Form::List(vec![cell(atom("a"), Form::Nil)]);
    assert_eq!(atom("a").assoc(plist.clone()), Some(Form::Nil));
    assert_eq!(atom("d").assoc(plist), None);
}

#[test]
fn assoc_finds_nothing_in_the_empty_list() {
    assert_eq!(atom("a").assoc(Form::List(vec![])), None);
}

#[test]
fn assoc_takes_an_entry_that_is_a_list() {
    let plist = Form::List(vec![Form::List(vec![atom("a"), atom("1")])]);
    assert_eq!(atom("a").assoc(plist), Some(Form::List(vec![atom("1")])));
}

#[test]
fn assoc_compares_keys_by_structure() {
    let key = Form::List(vec![atom("k"), atom("l")]);
    let plist = Form::List(vec![cell(key.clone(), atom("1"))]);
    assert_eq!(key.assoc(plist.clone()), Some(atom("1")));
    assert_eq!(Form::List(vec![atom("k")]).assoc(plist), None);
}

#[test]
fn append_moves_the_items_of_the_other_list() {
    let mut left = Form::List(vec![atom("a")]);
    let mut right = Form::List(vec![atom("b")]);
    left.append(&mut right);
    assert_eq!(left, Form::List(vec![atom("a"), atom("b")]));
    assert_eq!(right, Form::List(vec![]));
}

#[test]
fn append_keeps_order_and_nesting() {
    let mut left = Form::List(vec![atom("a"), Form::List(vec![atom("b")])]);
    let mut right = Form::List(vec![cell(atom("c"), atom("d")), atom("e")]);
    left.append(&mut right);
    assert_eq!(
        left,
        Form::List(vec![
            atom("a"),
            Form::List(vec![atom("b")]),
            cell(atom("c"), atom("d")),
            atom("e"),
        ])
    );
}

#[test]
fn append_of_empty_lists() {
    let mut left = Form::List(vec![]);
    let mut right = Form::List(vec![atom("a")]);
    left.append(&mut right);
    assert_eq!(left, Form::List(vec![atom("a")]));

    let mut empty = Form::List(vec![]);
    left.append(&mut empty);
    assert_eq!(left, Form::List(vec![atom("a")]));
    assert_eq!(empty, Form::List(vec![]));
}

#[test]
fn apply_hands_the_argument_to_the_procedure() {
    let second = Form::Lambda(Callable(|list| match list {
        Some(form) => form.cadr().unwrap(),
        None => Form::Nil,
    }));
    assert_eq!(
        second.clone().apply(Some(Form::List(vec![atom("a"), atom("b")]))),
        atom("b")
    );
    assert_eq!(second.apply(None), Form::Nil);
}

#[test]
fn from_a_pair_of_forms() {
    let pair = Form::from((atom("a"), Form::List(vec![atom("b")])));
    assert_eq!(pair, cell(atom("a"), Form::List(vec![atom("b")])));
}

#[test]
fn from_and_into_keep_the_texts() {
    assert_eq!(Form::from("").into_string(), "");
    assert_eq!(Form::from("a b").into_string(), "a b");
    assert_eq!(
        Form::from(Vec::<&str>::new()).into_strings(),
        Vec::<String>::new()
    );
    assert_eq!(
        Form::from(vec!["x", "y", "z"]).into_strings(),
        vec!["x".to_string(), "y".to_string(), "z".to_string()]
    );
    assert_eq!(
        Form::from(("k", "v")).into_string_pair(),
        ("k".to_string(), "v".to_string())
    );
    assert_eq!(
        Form::List(vec![]).into_string_pairs(),
        Vec::<(String, String)>::new()
    );
}
