use unlisp::common::{eval_source, init_env, prepare_natives, prepare_specials, RunError};
use unlisp::env::GlobalEnv;
use unlisp::error::LispError;
use unlisp::object::{objects_equal, LispObject};
use unlisp::print::to_text;
use unlisp::reader::Reader;

fn context(specials: bool, natives: bool, stdlib: bool) -> GlobalEnv {
    let mut g = GlobalEnv::new();
    if stdlib {
        assert!(init_env(&mut g).is_ok());
    } else {
        if specials {
            prepare_specials(&mut g);
        }
        if natives {
            prepare_natives(&mut g);
        }
    }
    g
}

fn read(s: &str) -> LispObject {
    let mut reader = Reader::create(s);
    match reader.read_form() {
        Ok(Some(f)) => f,
        _ => panic!("cannot read {}", s),
    }
}

fn run(g: &GlobalEnv, src: &str) -> Result<LispObject, RunError> {
    let mut g = g.clone();
    eval_source(&mut g, src)
}

fn ok_eval(g: &GlobalEnv, src: &str) -> LispObject {
    match run(g, src) {
        Ok(v) => v,
        Err(RunError::Eval(e)) => panic!("{} failed: {}", src, e.err.message()),
        Err(RunError::Read(e)) => panic!("{} could not be read: {:?}", src, e),
        Err(RunError::Missing(m)) => panic!("{} is missing", m),
    }
}

fn assert_ok(g: &GlobalEnv, src: &str, expected: &str) {
    let v = ok_eval(g, src);
    assert!(
        objects_equal(&v, &read(expected)),
        "{} gave {}, expected {}",
        src,
        to_text(&v),
        expected
    );
}

fn err_eval(g: &GlobalEnv, src: &str) -> LispError {
    match run(g, src) {
        Err(RunError::Eval(e)) => e.err,
        _ => panic!("{} did not fail", src),
    }
}

use unlisp::cons::List;
use unlisp::env::Env;
use unlisp::eval::{call_function_object, eval, MAX_DEPTH};
use unlisp::macroexpand::macroexpand_all;
use unlisp::object::{Function, Symbol};

#[test]
fn self_evaluating_values_evaluate_to_themselves() {
    let mut g = context(true, true, false);
    let env = Env::new();
    let f = match ok_eval(&g, "(lambda (x) x)") {
        LispObject::Fn(f) => f,
        _ => panic!("expected a function"),
    };
    let values = vec![
        LispObject::Integer(-4),
        LispObject::String("text".to_string()),
        LispObject::T,
        LispObject::Fn(f),
    ];
    for v in values.iter() {
        let r = eval(&mut g, &env, v, MAX_DEPTH).ok().unwrap();
        assert!(objects_equal(&r, v));
    }
}

#[test]
fn quote_gives_its_form_back() {
    let ctx = context(true, false, false);
    assert_ok(&ctx, "(quote (a (b \"c\") 1))", "(a (b \"c\") 1)");
    assert_ok(&ctx, "(quote nil)", "nil");
    assert_ok(&ctx, "(quote quote)", "quote");
}

#[test]
fn cons_first_tail_length() {
    let xs: List<i64> = List::from_iter(vec![2, 3]);
    let l = xs.cons(1);
    assert_eq!(*l.first().unwrap(), 1);
    assert_eq!(l.len(), xs.len() + 1);
    assert_eq!(l.tail().rc_iter().iter().map(|r| **r).collect::<Vec<i64>>(), vec![2, 3]);
    assert_eq!(l.tailn(5).len(), 0);
    assert!(List::<i64>::empty().tail().is_empty());
    assert!(List::<i64>::empty().first().is_none());
}

#[test]
fn equal_is_reflexive_symmetric_transitive() {
    let ctx = context(true, true, false);
    assert_ok(&ctx, "(equal (quote (1 (a \"s\"))) (quote (1 (a \"s\"))))", "t");
    assert_ok(&ctx, "(equal (quote (x 2)) (quote (x 3)))", "nil");
    assert_ok(&ctx, "(equal (quote (x 3)) (quote (x 2)))", "nil");
    assert_ok(
        &ctx,
        "(let ((a (quote (1 2))) (b (cons 1 (quote (2)))) (c (cons 1 (cons 2 nil))))
           (if (equal a b) (if (equal b c) (equal a c) nil) nil))",
        "t",
    );
}

#[test]
fn macroexpand_all_twice_is_once() {
    let mut g = context(true, true, true);
    let env = Env::new();
    let form = read("(qquote (a (unq (qquote (b (unqs c))))))");
    let once = macroexpand_all(&mut g, &env, &form, MAX_DEPTH).ok().unwrap();
    let twice = macroexpand_all(&mut g, &env, &once, MAX_DEPTH).ok().unwrap();
    assert!(objects_equal(&once, &twice));
}

#[test]
fn arguments_after_a_failing_one_are_not_evaluated() {
    let ctx = context(true, true, false);
    let mut g = ctx.clone();
    let r = eval_source(
        &mut g,
        "(cons (error \"stop\") (set-fn g (lambda () 1)))",
    );
    assert!(matches!(r, Err(RunError::Eval(_))));
    assert!(matches!(run(&g, "(g)"), Err(RunError::Eval(_))));
    let mut g2 = ctx.clone();
    let r2 = eval_source(&mut g2, "(cons (set-fn g (lambda () 1)) (error \"stop\"))");
    assert!(matches!(r2, Err(RunError::Eval(_))));
    assert_ok(&g2, "(g)", "1");
}

#[test]
fn arity_mismatch_reports_counts() {
    let mut g = context(true, true, false);
    let env = Env::new();
    let f = Function::new_interpreted(
        None,
        List::from_iter(vec![Symbol::new("a"), Symbol::new("b")]),
        None,
        List::empty(),
    );
    let args = List::from_iter(vec![LispObject::Integer(1)]);
    match call_function_object(&mut g, &env, &f, args, false, None, MAX_DEPTH) {
        Err(e) => match e.err {
            LispError::Arity(a) => {
                assert_eq!(a.expected_args_count, 2);
                assert_eq!(a.actual_args_count, 1);
                assert!(!a.is_vararg);
                assert_eq!(a.fn_name, "lambda/<anon>/2");
            }
            _ => panic!("expected an arity error"),
        },
        Ok(_) => panic!("expected an error"),
    }
    match err_eval(&g, "(set-fn two (lambda (a b) a)) (two 1 2 3)") {
        LispError::Arity(a) => {
            assert_eq!(a.expected_args_count, 2);
            assert_eq!(a.actual_args_count, 3);
            assert!(!a.is_vararg);
            assert_eq!(a.fn_name, "two");
        }
        _ => panic!("expected an arity error"),
    }
}

#[test]
fn deep_recursion_hits_the_depth_limit() {
    let ctx = context(true, true, false);
    match err_eval(&ctx, "(set-fn loop (lambda (x) (loop x))) (loop 1)") {
        LispError::Generic(g) => assert_eq!(g.message, "evaluation is nested too deeply"),
        _ => panic!("expected the depth error"),
    }
}

#[test]
fn rendering_of_values() {
    let ctx = context(true, true, false);
    assert_eq!(to_text(&ok_eval(&ctx, "(quote (1 \"two\" three (t nil)))")), "(1 \"two\" three (t nil))");
    assert_eq!(to_text(&ok_eval(&ctx, "(symbol-function (quote cons))")), "#<NATIVE-FN>");
    assert_eq!(to_text(&ok_eval(&ctx, "(lambda (x) x)")), "#<INTERPRETED-FN>");
    assert_eq!(to_text(&ok_eval(&ctx, "(- 12)")), "-12");
}

#[test]
fn local_bindings_do_not_leak() {
    let ctx = context(true, true, false);
    assert!(matches!(err_eval(&ctx, "(let ((x 1)) x) x"), LispError::UndefinedSymbol(_)));
    assert!(matches!(
        err_eval(&ctx, "(set-fn f (lambda (y) y)) (f 2) y"),
        LispError::UndefinedSymbol(_)
    ));
}

#[test]
fn signature_frames_render_their_shape() {
    let ctx = context(true, true, false);
    match run(&ctx, "(apply (lambda named (a & r) (error \"x\")) 1 nil)") {
        Err(RunError::Eval(e)) => {
            let lines = unlisp::print::stack_trace_lines(&e.stack_trace);
            assert_eq!(
                lines,
                vec!["lambda/named/1+".to_string(), "apply".to_string(), "<top>".to_string()]
            );
        }
        _ => panic!("expected an error"),
    }
    match run(&ctx, "(apply (lambda named (a & r) (car)) 1 nil)") {
        Err(RunError::Eval(e)) => {
            let lines = unlisp::print::stack_trace_lines(&e.stack_trace);
            assert_eq!(
                lines,
                vec!["lambda/named/1+".to_string(), "apply".to_string(), "<top>".to_string()]
            );
        }
        _ => panic!("expected an error"),
    }
}
