//! Setting up an environment, and running source text in it.

use crate::cons::List;
use crate::env::{Env, GlobalEnv, function_in};
use crate::error::{ErrorWithStackTrace, EvalResult};
use crate::eval::{eval, keeps, ok_wf};
use crate::macroexpand::macroexpand_all;
use crate::object::{
    Function, FunctionBody, LispObject, NativeFn, SpecialForm, Symbol, fn_wf, is_self_evaluating,
};
use crate::reader::{ReadError, Reader, form_fails, form_reads};
use crate::lexer::{LexError, TokenModel, next_token_spec};
use crate::native::nil_obj;
use crate::semantics::{mx_eval_rel, witness};
use vstd::prelude::*;

verus! {

/// The bootstrap library: `list`, `defmacro`, `defun`, and quasi-quotation
/// through `qquote` with the markers `unq` and `unqs`.
pub const STDLIB: &'static str = "
(set-fn list (lambda list (& xs) xs))

(set-macro-fn defmacro
  (lambda defmacro (name args & body)
    (list (quote set-macro-fn) name (cons (quote lambda) (cons name (cons args body))))))

(set-macro-fn defun
  (lambda defun (name args & body)
    (list (quote set-fn) name (cons (quote lambda) (cons name (cons args body))))))

(defun qq-append (a b)
  (if (emptyp a) b (cons (first a) (qq-append (rest a) b))))

(defun qq-unqs-p (h)
  (if (listp h) (if (emptyp h) nil (equal (first h) (quote unqs))) nil))

(defun qq-list (xs)
  (if (emptyp xs)
      (quote nil)
      (let ((h (first xs)) (tail-code (qq-list (rest xs))))
        (if (qq-unqs-p h)
            (list (quote qq-append) (first (rest h)) tail-code)
            (list (quote cons) (qq-expand h) tail-code)))))

(defun qq-expand (x)
  (if (listp x)
      (if (emptyp x)
          (quote nil)
          (if (equal (first x) (quote unq))
              (first (rest x))
              (if (equal (first x) (quote qquote))
                  (qq-expand (qq-expand (first (rest x))))
                  (qq-list x))))
      (list (quote quote) x)))

(defmacro qquote (x) (qq-expand x))
";

/// Why running source text stopped.
pub enum RunError {
    Read(ReadError),
    Eval(ErrorWithStackTrace),
    /// The bootstrap library left this macro undefined.
    Missing(String),
}

/// The special forms that `prepare_specials` installs, under their names.
pub open spec fn specials_installed(g: GlobalEnv) -> bool {
    &&& g.special_of("quote"@) == Some(SpecialForm::Quote)
    &&& g.special_of("if"@) == Some(SpecialForm::If)
    &&& g.special_of("let"@) == Some(SpecialForm::Let)
    &&& g.special_of("set-fn"@) == Some(SpecialForm::SetFn)
    &&& g.special_of("set-macro-fn"@) == Some(SpecialForm::SetMacroFn)
    &&& g.special_of("lambda"@) == Some(SpecialForm::Lambda)
}

/// The names of the special forms.
pub open spec fn is_special_name(k: Seq<char>) -> bool {
    k == "quote"@ || k == "if"@ || k == "let"@ || k == "set-fn"@ || k == "set-macro-fn"@ || k
        == "lambda"@
}

/// Installs the special forms `quote`, `if`, `let`, `set-fn`, `set-macro-fn`
/// and `lambda`.
pub fn prepare_specials(g: &mut GlobalEnv)
    requires
        old(g).wf(),
    ensures
        final(g).wf(),
        specials_installed(*final(g)),
        forall|k: Seq<char>| !is_special_name(k) ==> #[trigger] final(g).special_of(k) == old(g).special_of(k),
        final(g).values == old(g).values,
        final(g).functions == old(g).functions,
        final(g).macros == old(g).macros,
{
    proof {
        reveal_strlit("quote");
        reveal_strlit("if");
        reveal_strlit("let");
        reveal_strlit("set-fn");
        reveal_strlit("set-macro-fn");
        reveal_strlit("lambda");
        assert("quote"@.len() == 5 && "quote"@[0] == 'q');
        assert("quote"@[1] == 'u');
        assert("if"@.len() == 2 && "if"@[0] == 'i');
        assert("if"@[1] == 'f');
        assert("let"@.len() == 3 && "let"@[0] == 'l');
        assert("let"@[1] == 'e');
        assert("set-fn"@.len() == 6 && "set-fn"@[0] == 's');
        assert("set-fn"@[1] == 'e');
        assert("set-macro-fn"@.len() == 12 && "set-macro-fn"@[0] == 's');
        assert("set-macro-fn"@[1] == 'e');
        assert("lambda"@.len() == 6 && "lambda"@[0] == 'l');
        assert("lambda"@[1] == 'a');
    }
    g.set_global_special(Symbol::new("quote"), SpecialForm::Quote);
    g.set_global_special(Symbol::new("if"), SpecialForm::If);
    g.set_global_special(Symbol::new("let"), SpecialForm::Let);
    g.set_global_special(Symbol::new("set-fn"), SpecialForm::SetFn);
    g.set_global_special(Symbol::new("set-macro-fn"), SpecialForm::SetMacroFn);
    g.set_global_special(Symbol::new("lambda"), SpecialForm::Lambda);
}

/// The primitive that is bound to `name` in the function namespace.
pub open spec fn native_named(g: GlobalEnv, name: Seq<char>) -> Option<NativeFn> {
    match function_in(g.functions_map(), name) {
        Some(f) => match f.body {
            FunctionBody::Native(op) => Some(op),
            FunctionBody::Interpreted(_) => None,
        },
        None => None,
    }
}

/// The parameter count and rest flag of the function bound to `name`.
pub open spec fn shape_of(g: GlobalEnv, name: Seq<char>) -> (int, bool) {
    match function_in(g.functions_map(), name) {
        Some(f) => (f.sig.arglist@.len() as int, f.sig.restarg is Some),
        None => (-1, false),
    }
}

/// The function bound to `name` carries that name.
pub open spec fn named_as(g: GlobalEnv, name: Seq<char>) -> bool {
    function_in(g.functions_map(), name) matches Some(f) && f.sig.name matches Some(s) && s@ == name
}

/// The names of the primitives.
pub open spec fn is_native_name(k: Seq<char>) -> bool {
k == "cons"@ || k == "first"@ || k == "rest"@ || k == "equal"@ || k == "apply"@ || k == "+"@ || k == "-"@ || k == "*"@ || k == "<"@ || k == ">"@ || k == "listp"@ || k == "emptyp"@ || k == "symbolp"@ || k == "print"@ || k == "println"@ || k == "stdout-write"@ || k == "macroexpand-1"@ || k == "error"@ || k == "symbol-function"@
}

/// The primitives that `prepare_natives` installs, under their names.
pub open spec fn natives_installed(g: GlobalEnv) -> bool {
    &&& native_named(g, "cons"@) == Some(NativeFn::Cons)
    &&& native_named(g, "first"@) == Some(NativeFn::First)
    &&& native_named(g, "rest"@) == Some(NativeFn::Rest)
    &&& native_named(g, "equal"@) == Some(NativeFn::Equal)
    &&& native_named(g, "apply"@) == Some(NativeFn::Apply)
    &&& native_named(g, "+"@) == Some(NativeFn::Add)
    &&& native_named(g, "-"@) == Some(NativeFn::Sub)
    &&& native_named(g, "*"@) == Some(NativeFn::Mul)
    &&& native_named(g, "<"@) == Some(NativeFn::Lt)
    &&& native_named(g, ">"@) == Some(NativeFn::Gt)
    &&& native_named(g, "listp"@) == Some(NativeFn::Listp)
    &&& native_named(g, "emptyp"@) == Some(NativeFn::Emptyp)
    &&& native_named(g, "symbolp"@) == Some(NativeFn::Symbolp)
    &&& native_named(g, "print"@) == Some(NativeFn::Print)
    &&& native_named(g, "println"@) == Some(NativeFn::Println)
    &&& native_named(g, "stdout-write"@) == Some(NativeFn::StdoutWrite)
    &&& native_named(g, "macroexpand-1"@) == Some(NativeFn::Macroexpand1)
    &&& native_named(g, "error"@) == Some(NativeFn::RaiseError)
    &&& native_named(g, "symbol-function"@) == Some(NativeFn::SymbolFunction)
    &&& shape_of(g, "cons"@) == (2int, false)
    &&& shape_of(g, "first"@) == (1int, false)
    &&& shape_of(g, "rest"@) == (1int, false)
    &&& shape_of(g, "equal"@) == (2int, false)
    &&& shape_of(g, "apply"@) == (2int, true)
    &&& shape_of(g, "+"@) == (0int, true)
    &&& shape_of(g, "-"@) == (1int, true)
    &&& shape_of(g, "*"@) == (0int, true)
    &&& shape_of(g, "<"@) == (2int, false)
    &&& shape_of(g, ">"@) == (2int, false)
    &&& shape_of(g, "listp"@) == (1int, false)
    &&& shape_of(g, "emptyp"@) == (1int, false)
    &&& shape_of(g, "symbolp"@) == (1int, false)
    &&& shape_of(g, "print"@) == (1int, false)
    &&& shape_of(g, "println"@) == (1int, false)
    &&& shape_of(g, "stdout-write"@) == (1int, false)
    &&& shape_of(g, "macroexpand-1"@) == (1int, false)
    &&& shape_of(g, "error"@) == (1int, false)
    &&& shape_of(g, "symbol-function"@) == (1int, false)
    &&& named_as(g, "cons"@)
    &&& named_as(g, "first"@)
    &&& named_as(g, "rest"@)
    &&& named_as(g, "equal"@)
    &&& named_as(g, "apply"@)
    &&& named_as(g, "+"@)
    &&& named_as(g, "-"@)
    &&& named_as(g, "*"@)
    &&& named_as(g, "<"@)
    &&& named_as(g, ">"@)
    &&& named_as(g, "listp"@)
    &&& named_as(g, "emptyp"@)
    &&& named_as(g, "symbolp"@)
    &&& named_as(g, "print"@)
    &&& named_as(g, "println"@)
    &&& named_as(g, "stdout-write"@)
    &&& named_as(g, "macroexpand-1"@)
    &&& named_as(g, "error"@)
    &&& named_as(g, "symbol-function"@)
}

/// A primitive function named `name` with the given parameter names.
fn make_native(name: &str, params: Vec<&str>, rest: Option<&str>, op: NativeFn) -> (r: Function)
    ensures
        fn_wf(r),
        r.body == FunctionBody::Native(op),
        r.sig.name matches Some(s) && s@ == name@,
        r.sig.arglist@.len() == params@.len(),
        r.sig.restarg is Some <==> rest is Some,
{
    let mut syms: Vec<Symbol> = Vec::new();
    let mut i: usize = 0;
    while i < params.len()
        invariant
            i <= params@.len(),
            syms@.len() == i,
        decreases params.len() - i,
    {
        syms.push(Symbol::new(params[i]));
        i = i + 1;
    }
    let restarg = match rest {
        Some(r) => Some(Symbol::new(r)),
        None => None,
    };
    Function::new_native(Some(Symbol::new(name)), List::from_rev_iter(syms), restarg, op)
}

/// Binds a primitive under `name`.
fn save(g: &mut GlobalEnv, name: &str, params: Vec<&str>, rest: Option<&str>, op: NativeFn)
    requires
        old(g).wf(),
    ensures
        final(g).wf(),
        final(g).functions_map() == old(g).functions_map().insert(
            name@,
            crate::env::Binding::Function(final(g).functions_map()[name@]->Function_0),
        ),
        native_named(*final(g), name@) == Some(op),
        shape_of(*final(g), name@) == (params@.len() as int, rest is Some),
        named_as(*final(g), name@),
        final(g).values == old(g).values,
        final(g).macros == old(g).macros,
        final(g).specials == old(g).specials,
{
    let f = make_native(name, params, rest, op);
    let s = Symbol::new(name);
    g.set_global_function(&s, f);
}

/// Installs the primitive functions under their names.
pub fn prepare_natives(g: &mut GlobalEnv)
    requires
        old(g).wf(),
    ensures
        final(g).wf(),
        natives_installed(*final(g)),
        forall|k: Seq<char>|
            !is_native_name(k) ==> #[trigger] function_in(final(g).functions_map(), k) == function_in(
                old(g).functions_map(),
                k,
            ),
        final(g).values == old(g).values,
        final(g).macros == old(g).macros,
        final(g).specials == old(g).specials,
{
    proof {
        reveal_strlit("cons");
        reveal_strlit("first");
        reveal_strlit("rest");
        reveal_strlit("equal");
        reveal_strlit("apply");
        reveal_strlit("+");
        reveal_strlit("-");
        reveal_strlit("*");
        reveal_strlit("<");
        reveal_strlit(">");
        reveal_strlit("listp");
        reveal_strlit("emptyp");
        reveal_strlit("symbolp");
        reveal_strlit("print");
        reveal_strlit("println");
        reveal_strlit("stdout-write");
        reveal_strlit("macroexpand-1");
        reveal_strlit("error");
        reveal_strlit("symbol-function");
        assert("cons"@.len() == 4 && "cons"@[0] == 'c');
        assert("cons"@[1] == 'o');
        assert("first"@.len() == 5 && "first"@[0] == 'f');
        assert("first"@[1] == 'i');
        assert("rest"@.len() == 4 && "rest"@[0] == 'r');
        assert("rest"@[1] == 'e');
        assert("equal"@.len() == 5 && "equal"@[0] == 'e');
        assert("equal"@[1] == 'q');
        assert("apply"@.len() == 5 && "apply"@[0] == 'a');
        assert("apply"@[1] == 'p');
        assert("+"@.len() == 1 && "+"@[0] == '+');
        assert("-"@.len() == 1 && "-"@[0] == '-');
        assert("*"@.len() == 1 && "*"@[0] == '*');
        assert("<"@.len() == 1 && "<"@[0] == '<');
        assert(">"@.len() == 1 && ">"@[0] == '>');
        assert("listp"@.len() == 5 && "listp"@[0] == 'l');
        assert("listp"@[1] == 'i');
        assert("emptyp"@.len() == 6 && "emptyp"@[0] == 'e');
        assert("emptyp"@[1] == 'm');
        assert("symbolp"@.len() == 7 && "symbolp"@[0] == 's');
        assert("symbolp"@[1] == 'y');
        assert("print"@.len() == 5 && "print"@[0] == 'p');
        assert("print"@[1] == 'r');
        assert("println"@.len() == 7 && "println"@[0] == 'p');
        assert("println"@[1] == 'r');
        assert("stdout-write"@.len() == 12 && "stdout-write"@[0] == 's');
        assert("stdout-write"@[1] == 't');
        assert("macroexpand-1"@.len() == 13 && "macroexpand-1"@[0] == 'm');
        assert("macroexpand-1"@[1] == 'a');
        assert("error"@.len() == 5 && "error"@[0] == 'e');
        assert("error"@[1] == 'r');
        assert("symbol-function"@.len() == 15 && "symbol-function"@[0] == 's');
        assert("symbol-function"@[1] == 'y');
    }
    save(g, "cons", vec!["item", "list"], None, NativeFn::Cons);
    save(g, "first", vec!["list"], None, NativeFn::First);
    save(g, "rest", vec!["list"], None, NativeFn::Rest);
    save(g, "equal", vec!["x", "y"], None, NativeFn::Equal);
    save(g, "apply", vec!["arg", "fn"], Some("args"), NativeFn::Apply);
    save(g, "+", vec![], Some("args"), NativeFn::Add);
    save(g, "-", vec!["from"], Some("args"), NativeFn::Sub);
    save(g, "*", vec![], Some("args"), NativeFn::Mul);
    save(g, "<", vec!["x", "y"], None, NativeFn::Lt);
    save(g, ">", vec!["x", "y"], None, NativeFn::Gt);
    save(g, "listp", vec!["arg"], None, NativeFn::Listp);
    save(g, "emptyp", vec!["arg"], None, NativeFn::Emptyp);
    save(g, "symbolp", vec!["arg"], None, NativeFn::Symbolp);
    save(g, "print", vec!["x"], None, NativeFn::Print);
    save(g, "println", vec!["x"], None, NativeFn::Println);
    save(g, "stdout-write", vec!["s"], None, NativeFn::StdoutWrite);
    save(g, "macroexpand-1", vec!["arg"], None, NativeFn::Macroexpand1);
    save(g, "error", vec!["arg"], None, NativeFn::RaiseError);
    save(g, "symbol-function", vec!["arg"], None, NativeFn::SymbolFunction);
}

/// Expands the macros of a form, then evaluates it, from the top level
/// with the depth budget of the global environment.
pub fn macroexpand_and_eval(g: &mut GlobalEnv, env: &Env, form: &LispObject) -> (r: EvalResult)
    requires
        old(g).wf(),
        env.wf(),
        form.wf(),
    ensures
        keeps(*old(g), *final(g)),
        ok_wf(r),
        is_self_evaluating(*form) ==> r == Ok::<LispObject, ErrorWithStackTrace>(*form)
            && *final(g) == *old(g),
        mx_eval_rel(*old(g), *env, *form, *final(g), r),
{
    let depth = g.max_depth;
    let expanded = match macroexpand_all(g, env, form, depth) {
        Ok(x) => x,
        Err(e) => {
            proof {
                assert(witness((*g, Err::<LispObject, ErrorWithStackTrace>(e))));
            }
            return Err(e);
        },
    };
    let ghost gm = *g;
    proof {
        assert(witness((gm, Ok::<LispObject, ErrorWithStackTrace>(expanded))));
    }
    let depth = g.max_depth;
    eval(g, env, &expanded, depth)
}

/// A top-level environment: no local binding, and a trace holding only `Top`.
pub open spec fn top_env(env: Env) -> bool {
    &&& env.wf()
    &&& env.values_map() == crate::env::no_bindings()
    &&& env.functions_map() == crate::env::no_bindings()
    &&& env.macros_map() == crate::env::no_bindings()
    &&& env.stack_trace@ == seq![crate::env::StackFrameDesignator::Top]
}

/// Running the forms of `s` from `pos` in turn, each expanded then evaluated,
/// after a last value `last`: the value of the last form (`last` when none is
/// left), the first read error, or the first evaluation error.
pub open spec fn source_rel(
    g0: GlobalEnv,
    env: Env,
    s: Seq<char>,
    pos: int,
    last: LispObject,
    g1: GlobalEnv,
    r: Result<LispObject, RunError>,
) -> bool
    decreases s.len() - pos,
{
    if next_token_spec(s, pos).0 == Err::<TokenModel, LexError>(LexError::Eof) {
        g1 == g0 && r == Ok::<LispObject, RunError>(last)
    } else {
        (exists|e: ReadError|
            #[trigger] witness(e) && form_fails(s, pos, e) && g1 == g0 && r == Err::<LispObject, RunError>(
                RunError::Read(e),
            )) || (exists|o: LispObject, end: int, gm: GlobalEnv, rv: EvalResult|
            #[trigger] witness((o, end, gm, rv)) && pos < end && end <= s.len() && form_reads(
                o,
                s,
                pos,
                end,
            ) && mx_eval_rel(g0, env, o, gm, rv) && match rv {
                Err(e) => g1 == gm && r == Err::<LispObject, RunError>(RunError::Eval(e)),
                Ok(v) => source_rel(gm, env, s, end, v, g1, r),
            })
    }
}

/// Reads every form of `text` and expands and evaluates each in turn at the
/// top level; the result is the last form's value (`nil` when there is none).
pub fn eval_source(g: &mut GlobalEnv, text: &str) -> (r: Result<LispObject, RunError>)
    requires
        old(g).wf(),
    ensures
        keeps(*old(g), *final(g)),
        r matches Ok(v) ==> v.wf(),
        exists|env: Env|
            #[trigger] witness(env) && top_env(env) && source_rel(
                *old(g),
                env,
                text@,
                0,
                nil_obj(),
                *final(g),
                r,
            ),
{
    let env = Env::new();
    let mut reader = Reader::create(text);
    let mut res = LispObject::nil();
    let ghost s = text@;
    proof {
        assert(witness(env));
    }
    loop
        invariant
            keeps(*old(g), *g),
            env.wf(),
            top_env(env),
            reader.wf(),
            res.wf(),
            reader.lexer.chars@ == s,
            s == text@,
            forall|g1: GlobalEnv, r1: Result<LispObject, RunError>|
                #[trigger] source_rel(*g, env, s, reader.lexer.pos as int, res, g1, r1) ==> source_rel(
                    *old(g),
                    env,
                    s,
                    0,
                    nil_obj(),
                    g1,
                    r1,
                ),
        decreases reader.lexer.chars@.len() - reader.lexer.pos,
    {
        let ghost pos = reader.lexer.pos as int;
        let ghost gb = *g;
        let ghost resb = res;
        match reader.read_form() {
            Ok(Some(form)) => {
                match macroexpand_and_eval(g, &env, &form) {
                    Ok(v) => {
                        let ghost end = reader.lexer.pos as int;
                        proof {
                            assert forall|g1: GlobalEnv, r1: Result<LispObject, RunError>|
                                #[trigger] source_rel(*g, env, s, end, v, g1, r1) implies source_rel(
                                    *old(g),
                                    env,
                                    s,
                                    0,
                                    nil_obj(),
                                    g1,
                                    r1,
                                ) by {
                                assert(witness((form, end, *g, Ok::<LispObject, ErrorWithStackTrace>(v))));
                                assert(source_rel(gb, env, s, pos, resb, g1, r1));
                            }
                        }
                        res = v;
                    },
                    Err(e) => {
                        let r: Result<LispObject, RunError> = Err(RunError::Eval(e));
                        proof {
                            let end = reader.lexer.pos as int;
                            assert(witness((form, end, *g, Err::<LispObject, ErrorWithStackTrace>(e))));
                            assert(source_rel(gb, env, s, pos, resb, *g, r));
                            assert(witness(env));
                        }
                        return r;
                    },
                }
            },
            Ok(None) => {
                let r: Result<LispObject, RunError> = Ok(res);
                proof {
                    assert(source_rel(*g, env, s, pos, res, *g, r));
                    assert(witness(env));
                }
                return r;
            },
            Err(e) => {
                let r: Result<LispObject, RunError> = Err(RunError::Read(e));
                proof {
                    assert(witness(e));
                    assert(source_rel(*g, env, s, pos, res, *g, r));
                    assert(witness(env));
                }
                return r;
            },
        }
    }
}

/// What running a library text does: the relation of `eval_source`, with
/// the value of the last form dropped.
pub open spec fn stdlib_rel(g0: GlobalEnv, text: Seq<char>, g1: GlobalEnv, r: Result<(), RunError>) -> bool {
    exists|env: Env, r2: Result<LispObject, RunError>|
        #[trigger] witness((env, r2)) && top_env(env) && source_rel(g0, env, text, 0, nil_obj(), g1, r2)
            && (r is Ok <==> r2 is Ok) && (r2 is Err ==> r == Err::<(), RunError>(r2->Err_0))
}

/// Runs the text of a bootstrap library; any error stops it.
pub fn eval_stdlib(g: &mut GlobalEnv, text: &str) -> (r: Result<(), RunError>)
    requires
        old(g).wf(),
    ensures
        keeps(*old(g), *final(g)),
        stdlib_rel(*old(g), text@, *final(g), r),
{
    let r2 = eval_source(g, text);
    let r = match r2 {
        Ok(_) => Ok(()),
        Err(e) => Err(e),
    };
    proof {
        let env = choose|env: Env|
            #[trigger] witness(env) && top_env(env) && source_rel(*old(g), env, text@, 0, nil_obj(), *g, r2);
        assert(witness((env, r2)));
    }
    r
}

/// Installs the special forms and primitives, then runs the bootstrap library.
pub fn init_env(g: &mut GlobalEnv) -> (r: Result<(), RunError>)
    requires
        old(g).wf(),
    ensures
        final(g).wf(),
        specials_installed(*final(g)),
        exists|gm: GlobalEnv, rs: Result<(), RunError>|
            #[trigger] witness((gm, rs)) && specials_installed(gm) && natives_installed(gm)
                && gm.values == old(g).values && gm.macros == old(g).macros && stdlib_rel(
                gm,
                STDLIB@,
                *final(g),
                rs,
            ) && (rs is Err ==> r == rs) && (r is Ok ==> rs is Ok),
        r is Ok ==> function_in(final(g).macros_map(), "defmacro"@) is Some && function_in(
            final(g).macros_map(),
            "qquote"@,
        ) is Some,
{
    prepare_specials(g);
    prepare_natives(g);
    let ghost g1 = *g;
    let rs = eval_stdlib(g, STDLIB);
    assert(final(g).specials == g1.specials);
    proof {
        assert(witness((g1, rs)));
    }
    match rs {
        Err(e) => return Err(e),
        Ok(()) => {},
    }
    let env = Env::new();
    if env.lookup_symbol_macro(g, &Symbol::new("defmacro")).is_none() {
        return Err(RunError::Missing("defmacro".to_string()));
    }
    if env.lookup_symbol_macro(g, &Symbol::new("qquote")).is_none() {
        return Err(RunError::Missing("qquote".to_string()));
    }
    Ok(())
}

} // verus!
