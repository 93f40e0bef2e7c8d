use unlisp::common::{eval_source, init_env, prepare_natives, prepare_specials, RunError};
use unlisp::env::GlobalEnv;
use unlisp::error::LispError;
use unlisp::object::{objects_equal, LispObject};
use unlisp::print::to_text;
use unlisp::reader::Reader;

fn context(specials: bool, natives: bool, stdlib: bool) -> GlobalEnv {
    let mut g = GlobalEnv::new();
    if stdlib {
        assert!(init_env(&mut g).is_ok());
    } else {
        if specials {
            prepare_specials(&mut g);
        }
        if natives {
            prepare_natives(&mut g);
        }
    }
    g
}

fn read(s: &str) -> LispObject {
    let mut reader = Reader::create(s);
    match reader.read_form() {
        Ok(Some(f)) => f,
        _ => panic!("cannot read {}", s),
    }
}

fn run(g: &GlobalEnv, src: &str) -> Result<LispObject, RunError> {
    let mut g = g.clone();
    eval_source(&mut g, src)
}

fn ok_eval(g: &GlobalEnv, src: &str) -> LispObject {
    match run(g, src) {
        Ok(v) => v,
        Err(RunError::Eval(e)) => panic!("{} failed: {}", src, e.err.message()),
        Err(RunError::Read(e)) => panic!("{} could not be read: {:?}", src, e),
        Err(RunError::Missing(m)) => panic!("{} is missing", m),
    }
}

fn assert_ok(g: &GlobalEnv, src: &str, expected: &str) {
    let v = ok_eval(g, src);
    assert!(
        objects_equal(&v, &read(expected)),
        "{} gave {}, expected {}",
        src,
        to_text(&v),
        expected
    );
}

fn err_eval(g: &GlobalEnv, src: &str) -> LispError {
    match run(g, src) {
        Err(RunError::Eval(e)) => e.err,
        _ => panic!("{} did not fail", src),
    }
}


fn ctx() -> GlobalEnv {
    context(true, true, false)
}

fn is_arity(e: &LispError) -> bool {
    matches!(e, LispError::Arity(_))
}

fn is_cast(e: &LispError) -> bool {
    matches!(e, LispError::Cast(_))
}

fn is_generic(e: &LispError) -> bool {
    matches!(e, LispError::Generic(_))
}

#[test]
fn test_cons() {
    let ctx = ctx();

    assert!(is_arity(&err_eval(&ctx, "(cons)")));
    assert!(is_arity(&err_eval(&ctx, "(cons 1)")));

    assert_ok(&ctx, "(cons 1 nil)", "(1)");
    assert_ok(&ctx, "(cons 1 ())", "(1)");
    assert_ok(&ctx, "(cons 1 (quote (2 3)))", "(1 2 3)");
    assert_ok(&ctx, "(cons (quote (1 2 3)) (quote (2 3)))", "((1 2 3) 2 3)");
}

#[test]
fn test_first() {
    let ctx = ctx();

    assert!(is_arity(&err_eval(&ctx, "(first)")));
    assert!(is_generic(&err_eval(&ctx, "(first nil)")));

    assert_ok(&ctx, "(first (quote (1)))", "1");
    assert_ok(&ctx, "(first (quote (1 2)))", "1");
    assert_ok(&ctx, "(first (quote ((1 2 3) 2)))", "(1 2 3)");
}

#[test]
fn test_rest() {
    let ctx = ctx();
    assert!(is_arity(&err_eval(&ctx, "(rest)")));

    assert_ok(&ctx, "(rest nil)", "nil");
    assert_ok(&ctx, "(rest (quote (1)))", "nil");
    assert_ok(&ctx, "(rest (quote (1 (1 2 3) 4 5)))", "((1 2 3) 4 5)");
}

#[test]
fn test_equal() {
    let ctx = ctx();
    assert!(is_arity(&err_eval(&ctx, "(equal)")));
    assert!(is_arity(&err_eval(&ctx, "(equal 1)")));

    assert_ok(&ctx, "(equal 1 1)", "t");
    assert_ok(&ctx, "(equal 1 2)", "nil");
    assert_ok(&ctx, "(equal 1 (quote foo))", "nil");
    assert_ok(&ctx, "(equal (quote foo) (quote foo))", "t");
    assert_ok(&ctx, "(equal (quote (x y (z 1))) (quote (x y (z 1))))", "t");
    assert_ok(&ctx, "(equal (quote (x y (z 1))) (quote (x y (z 2))))", "nil");
}

#[test]
fn test_apply() {
    let ctx = ctx();

    assert!(is_arity(&err_eval(&ctx, "(apply)")));
    assert!(is_arity(&err_eval(
        &ctx,
        "(set-fn x (lambda ())) (apply (symbol-function (quote x)))"
    )));
    assert!(is_arity(&err_eval(
        &ctx,
        "(set-fn x (lambda ())) (apply (symbol-function (quote x)) (quote (1 2)))"
    )));

    assert_ok(&ctx, "(apply (symbol-function (quote +)) (quote (1 2)))", "3");
    assert_ok(&ctx, "(apply (symbol-function (quote +)) (quote (1 2 5)))", "8");
    assert_ok(&ctx, "(apply (symbol-function (quote cons)) 1 (quote ((2))))", "(1 2)");
    assert_ok(
        &ctx,
        "(apply (symbol-function (quote apply)) (symbol-function (quote +)) 1 (quote ((2))))",
        "3",
    );
}

#[test]
fn test_add() {
    let ctx = ctx();

    assert_ok(&ctx, "(+)", "0");
    assert_ok(&ctx, "(+ 1)", "1");
    assert_ok(&ctx, "(+ 1 2)", "3");
    assert_ok(&ctx, "(+ 1 2 3 4 5)", "15");
}

#[test]
fn test_sub() {
    let ctx = ctx();

    assert!(is_arity(&err_eval(&ctx, "(-)")));

    assert_ok(&ctx, "(+ (- 1) 1)", "0");
    assert_ok(&ctx, "(+ 1 (- 1 2))", "0");
    assert_ok(&ctx, "(+ 13 (- 1 2 3 4 5))", "0");
}

#[test]
fn test_mul() {
    let ctx = ctx();

    assert_ok(&ctx, "(*)", "1");
    assert_ok(&ctx, "(* 1)", "1");
    assert_ok(&ctx, "(* 1 2)", "2");
    assert_ok(&ctx, "(* 1 2 3 4 5)", "120");
}

#[test]
fn test_lt() {
    let ctx = ctx();
    assert!(is_arity(&err_eval(&ctx, "(<)")));
    assert!(is_arity(&err_eval(&ctx, "(< 1)")));
    assert!(is_cast(&err_eval(&ctx, "(< 1 (quote x))")));

    assert_ok(&ctx, "(< 1 2)", "t");
    assert_ok(&ctx, "(< 2 1)", "nil");
}

#[test]
fn test_gt() {
    let ctx = ctx();
    assert!(is_arity(&err_eval(&ctx, "(>)")));
    assert!(is_arity(&err_eval(&ctx, "(> 1)")));
    assert!(is_cast(&err_eval(&ctx, "(> 1 (quote x))")));

    assert_ok(&ctx, "(> 1 2)", "nil");
    assert_ok(&ctx, "(> 2 1)", "t");
}

#[test]
fn test_listp() {
    let ctx = ctx();
    assert!(is_arity(&err_eval(&ctx, "(listp)")));

    assert_ok(&ctx, "(listp (quote 1))", "nil");
    assert_ok(&ctx, "(listp nil)", "t");
    assert_ok(&ctx, "(listp (quote (1 2 3)))", "t");
}

#[test]
fn test_emptyp() {
    let ctx = ctx();
    assert!(is_arity(&err_eval(&ctx, "(emptyp)")));

    assert_ok(&ctx, "(emptyp nil)", "t");
    assert_ok(&ctx, "(emptyp ())", "t");
    assert_ok(&ctx, "(emptyp (quote (1 2 3)))", "nil");
}

#[test]
fn test_symbolp() {
    let ctx = ctx();
    assert!(is_arity(&err_eval(&ctx, "(symbolp)")));

    assert_ok(&ctx, "(symbolp (quote x))", "t");

    assert_ok(&ctx, "(symbolp 1)", "nil");

    assert_ok(&ctx, "(symbolp nil)", "nil");
    assert_ok(&ctx, "(symbolp t)", "nil");
}

#[test]
fn test_macroexpand_1() {
    let ctx = ctx();
    assert!(is_arity(&err_eval(&ctx, "(macroexpand-1)")));

    assert_ok(
        &ctx,
        "(set-macro-fn x (lambda (arg) (if arg (quote x) (quote y)))) (macroexpand-1 (quote (x t)))",
        "x",
    );
    assert_ok(
        &ctx,
        "(set-macro-fn x (lambda (arg) (if arg (quote x) (quote y)))) (macroexpand-1 (quote (x nil)))",
        "y",
    );
    assert_ok(&ctx, "(macroexpand-1 (quote (cons 1 nil)))", "(cons 1 nil)");
}

#[test]
fn test_error() {
    let ctx = ctx();
    assert!(is_arity(&err_eval(&ctx, "(error)")));
    assert!(is_cast(&err_eval(&ctx, "(error 1)")));

    assert!(is_generic(&err_eval(&ctx, "(error \"foo\")")));
}

#[test]
fn test_symbol_function() {
    let ctx = ctx();
    assert!(is_arity(&err_eval(&ctx, "(symbol-function)")));
    assert!(is_cast(&err_eval(&ctx, "(symbol-function 1)")));

    assert!(matches!(
        ok_eval(&ctx, "(set-fn foo (lambda (x) x)) (symbol-function (quote foo))"),
        LispObject::Fn(_)
    ));
    assert_ok(
        &ctx,
        "(set-fn foo (lambda (x) x)) (set-fn bar (symbol-function (quote foo))) (bar 1)",
        "1",
    );
}

#[test]
fn test_higher_order_funcs() {
    let ctx = ctx();
    assert_ok(
        &ctx,
        "(set-fn ho (lambda (f) (set-fn f f) (f 5)))
             (set-fn foo (lambda (x) x))
             (ho (symbol-function (quote foo)))",
        "5",
    );
}

#[test]
fn print_writes_the_rendering() {
    let mut g = ctx();
    let v = eval_source(&mut g, "(print (quote (1 -2 \"s\" t nil))) (println 7) (stdout-write \"raw\")");
    assert!(v.is_ok());
    let out = g.take_output();
    assert_eq!(out, vec!["(1 -2 \"s\" t nil)".to_string(), "7\n".to_string(), "raw".to_string()]);
    assert!(g.take_output().is_empty());
}

#[test]
fn stdout_write_needs_a_string() {
    let ctx = ctx();
    assert!(is_cast(&err_eval(&ctx, "(stdout-write 1)")));
}

#[test]
fn error_trace_leaves_out_its_own_frame() {
    let ctx = ctx();
    match run(&ctx, "(set-fn f (lambda () (error \"boom\"))) (f)") {
        Err(RunError::Eval(e)) => {
            assert_eq!(e.err.message(), "boom");
            let frames: Vec<String> = unlisp::print::stack_trace_lines(&e.stack_trace);
            assert_eq!(frames, vec!["f".to_string(), "<top>".to_string()]);
        }
        _ => panic!("expected an error"),
    }
}

#[test]
fn arithmetic_wraps_on_overflow() {
    let ctx = ctx();
    assert_eq!(to_text(&ok_eval(&ctx, "(+ 9223372036854775807 1)")), "-9223372036854775808");
    assert_eq!(to_text(&ok_eval(&ctx, "(* 4611686018427387904 2)")), "-9223372036854775808");
    assert_eq!(to_text(&ok_eval(&ctx, "(- 0 9223372036854775807 2)")), "9223372036854775807");
}

#[test]
fn cast_error_names_the_value_and_type() {
    let ctx = ctx();
    let e = err_eval(&ctx, "(+ 1 (quote (a b)))");
    assert_eq!(e.message(), "cannot cast (a b) to i64");
}
