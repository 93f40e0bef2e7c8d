use unlisp::common::{eval_source, init_env, prepare_natives, prepare_specials, RunError};
use unlisp::env::GlobalEnv;
use unlisp::error::LispError;
use unlisp::object::{objects_equal, LispObject};
use unlisp::print::to_text;
use unlisp::reader::Reader;

fn context(specials: bool, natives: bool, stdlib: bool) -> GlobalEnv {
    let mut g = GlobalEnv::new();
    if stdlib {
        assert!(init_env(&mut g).is_ok());
    } else {
        if specials {
            prepare_specials(&mut g);
        }
        if natives {
            prepare_natives(&mut g);
        }
    }
    g
}

fn read(s: &str) -> LispObject {
    let mut reader = Reader::create(s);
    match reader.read_form() {
        Ok(Some(f)) => f,
        _ => panic!("cannot read {}", s),
    }
}

fn run(g: &GlobalEnv, src: &str) -> Result<LispObject, RunError> {
    let mut g = g.clone();
    eval_source(&mut g, src)
}

fn ok_eval(g: &GlobalEnv, src: &str) -> LispObject {
    match run(g, src) {
        Ok(v) => v,
        Err(RunError::Eval(e)) => panic!("{} failed: {}", src, e.err.message()),
        Err(RunError::Read(e)) => panic!("{} could not be read: {:?}", src, e),
        Err(RunError::Missing(m)) => panic!("{} is missing", m),
    }
}

fn assert_ok(g: &GlobalEnv, src: &str, expected: &str) {
    let v = ok_eval(g, src);
    assert!(
        objects_equal(&v, &read(expected)),
        "{} gave {}, expected {}",
        src,
        to_text(&v),
        expected
    );
}

fn err_eval(g: &GlobalEnv, src: &str) -> LispError {
    match run(g, src) {
        Err(RunError::Eval(e)) => e.err,
        _ => panic!("{} did not fail", src),
    }
}


fn ctx() -> GlobalEnv {
    context(true, true, true)
}

#[test]
fn test_quasiquote() {
    let ctx = ctx();

    assert_ok(&ctx, "(qquote 1)", "1");
    assert_ok(&ctx, "(qquote foo)", "foo");

    assert_ok(&ctx, "(qquote (unq 1))", "1");
    assert_ok(&ctx, "(qquote ((unqs (list 1 2 3))))", "(1 2 3)");

    assert_ok(&ctx, "(let ((x 1)) (qquote (unq x)))", "1");
    assert_ok(&ctx, "(let ((x (list 1 2 3))) (qquote ((unqs x))))", "(1 2 3)");

    assert_ok(&ctx, "(let ((x 1)) (qquote (qquote (unq (unq x)))))", "1");
    assert_ok(&ctx, "(let ((x (quote foo))) (qquote (qquote (unq (unq x)))))", "foo");

    assert_ok(
        &ctx,
        "(defmacro abbrev (long short)
           (qquote
            (defmacro (unq short) (& body)
              (qquote ((unq (quote (unq long))) (unqs body))))))

         (abbrev defun defn)
         (defn inc (x) (+ x 1))

         (inc 5)",
        "6",
    );
}

#[test]
fn scenario_sum() {
    assert_ok(&ctx(), "(+ 1 2 3 4 5)", "15");
}

#[test]
fn scenario_if_nil() {
    assert_ok(&ctx(), "(if nil 1 2)", "2");
}

#[test]
fn scenario_let_star() {
    assert_ok(&ctx(), "(let ((x 1) (y (+ x 2))) y)", "3");
}

#[test]
fn scenario_rest_parameter() {
    assert_ok(&ctx(), "(set-fn f (lambda (x & rest) (cons x rest))) (f 1 2 3)", "(1 2 3)");
    assert_ok(&ctx(), "(set-fn f (lambda (x & rest) rest)) (f 1)", "nil");
}

#[test]
fn scenario_apply() {
    assert_ok(&ctx(), "(apply (symbol-function (quote +)) 1 (quote (2 3)))", "6");
}

#[test]
fn scenario_first_of_nil_is_generic() {
    assert!(matches!(err_eval(&ctx(), "(first nil)"), LispError::Generic(_)));
}

#[test]
fn scenario_add_symbol_is_cast() {
    assert!(matches!(err_eval(&ctx(), "(+ 1 (quote x))"), LispError::Cast(_)));
}

#[test]
fn scenario_undefined_function() {
    match err_eval(&ctx(), "(undefined-sym)") {
        LispError::UndefinedSymbol(u) => {
            assert_eq!(u.symbol_name, "undefined-sym");
            assert!(u.is_fn);
        }
        _ => panic!("expected an undefined symbol"),
    }
}

#[test]
fn scenario_cons_one_argument_is_arity() {
    assert!(matches!(err_eval(&ctx(), "(cons 1)"), LispError::Arity(_)));
}

#[test]
fn stdlib_defun_defines_functions() {
    assert_ok(&ctx(), "(defun sq (x) (* x x)) (sq 7)", "49");
}

#[test]
fn recursive_function_over_a_list() {
    assert_ok(
        &ctx(),
        "(defun len (l) (if (emptyp l) 0 (+ 1 (len (rest l)))))
         (len (quote (a b c d e f g h i j k l m n o p q r s t)))",
        "20",
    );
}

#[test]
fn callee_sees_caller_locals() {
    assert_ok(
        &ctx(),
        "(defun show () y)
         (defun outer (y) (show))
         (outer 42)",
        "42",
    );
}

#[test]
fn macros_expand_before_evaluation() {
    assert_ok(
        &ctx(),
        "(defmacro unless (c & body) (qquote (if (unq c) nil (let () (unqs body)))))
         (unless nil 1 2 3)",
        "3",
    );
}
