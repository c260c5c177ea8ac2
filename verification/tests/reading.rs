use purisp::form::Form;
use purisp::reader;
use purisp::text::is_separator_char;

fn atoms(texts: &[&str]) -> Form {
    Form::List(texts.iter().map(|t| Form::Atom(t.to_string())).collect())
}

#[test]
fn reads_a_flat_list_of_atoms() {
    assert_eq!(
        reader("(cons 1 2)".to_string()),
        atoms(&["cons", "1", "2"])
    );
}

#[test]
fn nesting_is_not_kept() {
    assert_eq!(
        reader("((cons) 1 2)".to_string()),
        reader("(cons 1 2)".to_string())
    );
    assert_eq!(
        reader("(car (quote a))".to_string()),
        atoms(&["car", "quote", "a"])
    );
}

#[test]
fn parentheses_separate_tokens() {
    assert_eq!(reader("a(b)c".to_string()), atoms(&["a", "b", "c"]));
    assert_eq!(reader("cons)1(2".to_string()), atoms(&["cons", "1", "2"]));
}

#[test]
fn empty_tokens_are_dropped() {
    assert_eq!(
        reader("  ( cons   1    2 )  ".to_string()),
        atoms(&["cons", "1", "2"])
    );
}

#[test]
fn text_without_tokens_reads_as_the_empty_list() {
    assert_eq!(reader("".to_string()), Form::List(vec![]));
    assert_eq!(reader("   ".to_string()), Form::List(vec![]));
    assert_eq!(reader("()".to_string()), Form::List(vec![]));
    assert_eq!(reader("(( ) )".to_string()), Form::List(vec![]));
}

#[test]
fn a_single_token_reads_as_a_list_of_one() {
    assert_eq!(reader("a".to_string()), atoms(&["a"]));
    assert_eq!(reader("hello".to_string()), atoms(&["hello"]));
}

#[test]
fn the_last_token_needs_no_separator_after_it() {
    assert_eq!(reader("(quote a".to_string()), atoms(&["quote", "a"]));
}

#[test]
fn every_whitespace_character_separates() {
    assert_eq!(
        reader("cons\t1\n2\r\n3".to_string()),
        atoms(&["cons", "1", "2", "3"])
    );
    assert_eq!(
        reader("a\u{a0}b\u{2003}c\u{3000}d".to_string()),
        atoms(&["a", "b", "c", "d"])
    );
}

#[test]
fn tokens_keep_every_other_character() {
    assert_eq!(
        reader("(eq \"x\" 'y [z] 1.5 λ)".to_string()),
        atoms(&["eq", "\"x\"", "'y", "[z]", "1.5", "λ"])
    );
}

#[test]
fn separators_are_the_parentheses_and_whitespace() {
    for c in ['(', ')', ' ', '\t', '\n', '\u{b}', '\u{c}', '\r'] {
        assert!(is_separator_char(c));
    }
    for c in ['a', '0', '[', ']', '"', '\'', '.', '\u{0}', '\u{8}', '\u{e}', '\u{200b}'] {
        assert!(!is_separator_char(c));
    }
}

#[test]
fn whitespace_is_what_the_standard_library_calls_whitespace() {
    let mut code: u32 = 0;
    while code <= 0x11_0000 {
        if let Some(c) = char::from_u32(code) {
            if c != '(' && c != ')' {
                assert_eq!(is_separator_char(c), c.is_whitespace());
            }
        }
        code += 1;
    }
}
