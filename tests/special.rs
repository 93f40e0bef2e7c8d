use unlisp::common::{eval_source, init_env, prepare_natives, prepare_specials, RunError};
use unlisp::env::GlobalEnv;
use unlisp::error::LispError;
use unlisp::object::{objects_equal, LispObject};
use unlisp::print::to_text;
use unlisp::reader::Reader;

fn context(specials: bool, natives: bool, stdlib: bool) -> GlobalEnv {
    let mut g = GlobalEnv::new();
    if stdlib {
        assert!(init_env(&mut g).is_ok());
    } else {
        if specials {
            prepare_specials(&mut g);
        }
        if natives {
            prepare_natives(&mut g);
        }
    }
    g
}

fn read(s: &str) -> LispObject {
    let mut reader = Reader::create(s);
    match reader.read_form() {
        Ok(Some(f)) => f,
        _ => panic!("cannot read {}", s),
    }
}

fn run(g: &GlobalEnv, src: &str) -> Result<LispObject, RunError> {
    let mut g = g.clone();
    eval_source(&mut g, src)
}

fn ok_eval(g: &GlobalEnv, src: &str) -> LispObject {
    match run(g, src) {
        Ok(v) => v,
        Err(RunError::Eval(e)) => panic!("{} failed: {}", src, e.err.message()),
        Err(RunError::Read(e)) => panic!("{} could not be read: {:?}", src, e),
        Err(RunError::Missing(m)) => panic!("{} is missing", m),
    }
}

fn assert_ok(g: &GlobalEnv, src: &str, expected: &str) {
    let v = ok_eval(g, src);
    assert!(
        objects_equal(&v, &read(expected)),
        "{} gave {}, expected {}",
        src,
        to_text(&v),
        expected
    );
}

fn err_eval(g: &GlobalEnv, src: &str) -> LispError {
    match run(g, src) {
        Err(RunError::Eval(e)) => e.err,
        _ => panic!("{} did not fail", src),
    }
}


fn ctx() -> GlobalEnv {
    context(true, false, false)
}

fn is_syntax(e: &LispError) -> bool {
    matches!(e, LispError::Syntax(_))
}

#[test]
fn test_quote() {
    let ctx = ctx();
    assert!(matches!(err_eval(&ctx, "(quote)"), LispError::Arity(_)));

    assert_ok(&ctx, "(quote 1)", "1");
    assert_ok(&ctx, "(quote \"foo\")", "\"foo\"");
    assert_ok(&ctx, "(quote (add 1 2))", "(add 1 2)");
}

#[test]
fn test_if() {
    let ctx = ctx();
    assert!(is_syntax(&err_eval(&ctx, "(if)")));
    assert!(is_syntax(&err_eval(&ctx, "(if t)")));

    assert_ok(&ctx, "(if t 1 2)", "1");
    assert_ok(&ctx, "(if nil 1 2)", "2");
    assert_ok(&ctx, "(if nil 1)", "nil");
    assert_ok(&ctx, "(if (quote (foo bar)) 1 2)", "1");
    assert_ok(&ctx, "(if (quote ()) 1 2)", "2");
}

#[test]
fn test_lambda_syntax() {
    let ctx = ctx();
    assert!(is_syntax(&err_eval(&ctx, "(lambda)")));
    assert!(is_syntax(&err_eval(&ctx, "(lambda 1)")));
    assert!(is_syntax(&err_eval(&ctx, "(lambda (1))")));
    assert!(is_syntax(&err_eval(&ctx, "(lambda foo)")));
    assert!(is_syntax(&err_eval(&ctx, "(lambda foo (1))")));

    assert!(matches!(ok_eval(&ctx, "(lambda (x) x)"), LispObject::Fn(_)));
    assert!(matches!(ok_eval(&ctx, "(lambda foo (x) x)"), LispObject::Fn(_)));
}

#[test]
fn test_set_fn() {
    let ctx = ctx();
    assert!(is_syntax(&err_eval(&ctx, "(set-fn)")));
    assert!(is_syntax(&err_eval(&ctx, "(set-fn 1)")));
    assert!(is_syntax(&err_eval(&ctx, "(set-fn foo)")));
    assert!(matches!(err_eval(&ctx, "(set-fn foo 2)"), LispError::Cast(_)));

    assert_ok(&ctx, "(set-fn x (lambda () (quote x))) (x)", "x");
    assert_ok(&ctx, "(set-fn x (lambda (y) (if y 1 2))) (x t)", "1");
    assert_ok(&ctx, "(set-fn x (lambda (y) (if y 1 2))) (x nil)", "2");
}

#[test]
fn test_let() {
    let ctx = ctx();
    assert!(is_syntax(&err_eval(&ctx, "(let)")));
    assert!(is_syntax(&err_eval(&ctx, "(let 1)")));
    assert!(is_syntax(&err_eval(&ctx, "(let (x))")));
    assert!(is_syntax(&err_eval(&ctx, "(let ((1 1)))")));

    assert_ok(&ctx, "(let ())", "nil");
    assert_ok(&ctx, "(let ((x 1)) x)", "1");
    assert_ok(&ctx, "(let ((x 1) (y (if x 2 3))) y)", "2");
    assert_ok(&ctx, "(let ((x nil) (y (if x 2 3))) y)", "3");
    assert_ok(&ctx, "(let ((x nil) (y (let ((x t)) (if x 2 3)))) y)", "2");
}

#[test]
fn test_set_macro_fn() {
    let ctx = ctx();
    assert!(is_syntax(&err_eval(&ctx, "(set-macro-fn)")));
    assert!(is_syntax(&err_eval(&ctx, "(set-macro-fn 1)")));
    assert!(is_syntax(&err_eval(&ctx, "(set-macro-fn foo)")));
    assert!(matches!(err_eval(&ctx, "(set-macro-fn foo 2)"), LispError::Cast(_)));

    assert_ok(&ctx, "(set-macro-fn x (lambda () 1)) (x)", "1");
    assert_ok(&ctx, "(set-macro-fn x (lambda () (quote (let ((x 1)) x)))) (x)", "1");
    assert_ok(
        &ctx,
        "(set-macro-fn x (lambda (y)
                           (if y
                               (quote (let ((x 1)) x))
                               (quote (let ((x 2)) x)))))
              (x t)",
        "1",
    );
    assert_ok(
        &ctx,
        "(set-macro-fn x (lambda (y)
                           (if y
                               (quote (let ((x 1)) x))
                               (quote (let ((x 2)) x)))))
             (x nil)",
        "2",
    );
}

#[test]
fn lambda_rest_marker_must_be_followed_by_one_name() {
    let ctx = ctx();
    assert!(is_syntax(&err_eval(&ctx, "(lambda (x &) x)")));
    assert!(is_syntax(&err_eval(&ctx, "(lambda (x & a b) x)")));
    assert!(is_syntax(&err_eval(&ctx, "(lambda (& &) 1)")));
    assert!(matches!(ok_eval(&ctx, "(lambda (x & a) x)"), LispObject::Fn(_)));
}

#[test]
fn let_clause_errors_name_the_fault() {
    let ctx = ctx();
    match err_eval(&ctx, "(let ((x 1) ()) x)") {
        LispError::Syntax(s) => assert_eq!(s.message, "empty binding clause"),
        _ => panic!("expected a syntax error"),
    }
    match err_eval(&ctx, "(let ((x)) x)") {
        LispError::Syntax(s) => assert_eq!(s.message, "no value in binding clause"),
        _ => panic!("expected a syntax error"),
    }
}

#[test]
fn illegal_function_call() {
    let ctx = ctx();
    match err_eval(&ctx, "(1 2)") {
        LispError::Syntax(s) => assert_eq!(s.message, "illegal function call"),
        _ => panic!("expected a syntax error"),
    }
}

#[test]
fn undefined_value_symbol() {
    let ctx = ctx();
    match err_eval(&ctx, "foo") {
        LispError::UndefinedSymbol(u) => {
            assert_eq!(u.symbol_name, "foo");
            assert!(!u.is_fn);
        }
        _ => panic!("expected an undefined symbol"),
    }
}
