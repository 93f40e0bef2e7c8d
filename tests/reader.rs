use unlisp::cons::List;
use unlisp::object::{objects_equal, LispObject, Symbol};
use unlisp::reader::{is_read_eof, ReadError, Reader};

fn sym(x: &str) -> LispObject {
    LispObject::Symbol(Symbol::new(x))
}

fn same(a: &LispObject, b: &LispObject) -> bool {
    objects_equal(a, b)
}

#[test]
fn test_empty() {
    let mut reader = Reader::create("");
    assert!(reader.read_form().unwrap().is_none());

    let mut reader = Reader::create("foo");
    let _ = reader.read_form().unwrap().unwrap();
    assert!(reader.read_form().unwrap().is_none());
}

#[test]
fn reader_test_integer_literal() {
    let mut reader = Reader::create("1 12 1000 2019");

    assert!(same(&reader.read_form().unwrap().unwrap(), &LispObject::Integer(1)));
    assert!(same(&reader.read_form().unwrap().unwrap(), &LispObject::Integer(12)));
    assert!(same(&reader.read_form().unwrap().unwrap(), &LispObject::Integer(1000)));
    assert!(same(&reader.read_form().unwrap().unwrap(), &LispObject::Integer(2019)));
}

#[test]
fn reader_test_string_literal() {
    let mut reader = Reader::create("\"\" \"foo\" \"bar\"");

    assert!(same(&reader.read_form().unwrap().unwrap(), &LispObject::String("".to_string())));
    assert!(same(&reader.read_form().unwrap().unwrap(), &LispObject::String("foo".to_string())));
    assert!(same(&reader.read_form().unwrap().unwrap(), &LispObject::String("bar".to_string())));
}

#[test]
fn reader_test_symbol() {
    let mut reader = Reader::create("x foo bar*");

    assert!(same(&reader.read_form().unwrap().unwrap(), &sym("x")));
    assert!(same(&reader.read_form().unwrap().unwrap(), &sym("foo")));
    assert!(same(&reader.read_form().unwrap().unwrap(), &sym("bar*")));
}

#[test]
fn test_list() {
    let mut reader = Reader::create("() (foo bar) (foo (bar baz) quux)");

    assert!(same(&reader.read_form().unwrap().unwrap(), &LispObject::nil()));
    assert!(same(
        &reader.read_form().unwrap().unwrap(),
        &LispObject::List(List::from_rev_iter(vec![sym("foo"), sym("bar")]))
    ));
    assert!(same(
        &reader.read_form().unwrap().unwrap(),
        &LispObject::List(List::from_rev_iter(vec![
            sym("foo"),
            LispObject::List(List::from_rev_iter(vec![sym("bar"), sym("baz")])),
            sym("quux")
        ]))
    ));
}

#[test]
fn test_nil_t() {
    let mut reader = Reader::create("nil t");

    assert!(same(&reader.read_form().unwrap().unwrap(), &LispObject::nil()));
    assert!(same(&reader.read_form().unwrap().unwrap(), &LispObject::T));
}

#[test]
fn test_incomplete_list() {
    let mut reader = Reader::create("(foo");
    assert!(is_read_eof(&reader.read_form()));
}

#[test]
fn reader_unbalanced_parens() {
    let mut reader = Reader::create(")");
    assert!(matches!(reader.read_form(), Err(ReadError::UnbalancedParens)));
}

#[test]
fn reader_other_errors() {
    let mut reader = Reader::create("99999999999999999999");
    assert!(matches!(reader.read_form(), Err(ReadError::IntegerOverflow)));
    let mut reader = Reader::create("(a # b)");
    assert!(matches!(reader.read_form(), Err(ReadError::UnexpectedToken)));
}

#[test]
fn reader_skips_comments_between_forms() {
    let mut reader = Reader::create("; first\n(a ; inner\n b) ; last");
    let f = reader.read_form().unwrap().unwrap();
    assert!(same(&f, &LispObject::List(List::from_rev_iter(vec![sym("a"), sym("b")]))));
    assert!(reader.read_form().unwrap().is_none());
}
