//! The meaning of evaluation, as relations between a global environment
//! before, the local environment, the form, the depth budget, the global
//! environment after, and the result. Each relation follows one step of the
//! evaluator; the evaluator's functions are proved to meet them.

use crate::cons::drop_front;
use crate::env::{Binding, Env, GlobalEnv, StackFrameDesignator};
use crate::error::{
    ErrorWithStackTrace, EvalResult, is_arity_err, is_cast_err, is_syntax_err, is_undefined_err,
};
use crate::eval::{arity_ok_spec, is_depth_err, lambda_post, quote_post};
use crate::native::{
    add_post, bool_obj, compare_post, cons_post, emptyp_post, first_post, mul_post, nil_obj,
    output_appended, rest_post, sub_post,
};
use crate::object::{Function, FunctionBody, LispObject, NativeFn, SpecialForm, Symbol, obj_eq};
use crate::print::render;
use crate::special::{clause_symbol, clause_value, let_error};
use vstd::prelude::*;

verus! {

/// The values of argument forms evaluated so far, or the error that stopped them.
pub type ArgsResult = Result<Seq<LispObject>, ErrorWithStackTrace>;

/// Names the witnesses of an existential step; always true.
pub open spec fn witness<A>(a: A) -> bool {
    true
}

/// `e1` has the same bindings and trace as `e0`.
pub open spec fn same_frame(e1: Env, e0: Env) -> bool {
    &&& e1.wf()
    &&& e1.values_map() == e0.values_map()
    &&& e1.functions_map() == e0.functions_map()
    &&& e1.macros_map() == e0.macros_map()
    &&& e1.stack_trace == e0.stack_trace
}

/// Only the output of the global environment differs.
pub open spec fn only_output_changed(g0: GlobalEnv, g1: GlobalEnv) -> bool {
    &&& g1.values == g0.values
    &&& g1.functions == g0.functions
    &&& g1.macros == g0.macros
    &&& g1.specials == g0.specials
    &&& g1.max_depth == g0.max_depth
}

/// Evaluating `form` in `env` with budget `d` takes `g0` to `g1` and gives `r`.
pub open spec fn eval_rel(g0: GlobalEnv, env: Env, form: LispObject, d: nat, g1: GlobalEnv, r: EvalResult) -> bool
    decreases d, 3nat, 0nat,
{
    match form {
        LispObject::Symbol(s) => g1 == g0 && match env.value_of(&g0, s@) {
            Some(v) => r == Ok::<LispObject, ErrorWithStackTrace>(v),
            None => r is Err && is_undefined_err(r->Err_0, s@, false, env.stack_trace),
        },
        LispObject::List(l) => if l@.len() == 0 {
            g1 == g0 && r == Ok::<LispObject, ErrorWithStackTrace>(nil_obj())
        } else {
            match l@[0] {
                LispObject::Symbol(s) => if d == 0 {
                    g1 == g0 && r is Err && is_depth_err(r->Err_0, env.stack_trace)
                } else {
                    match g0.special_of(s@) {
                        Some(sf) => special_rel(g0, env, sf, drop_front(l@, 1), (d - 1) as nat, g1, r),
                        None => match env.function_of(&g0, s@) {
                            Some(f) => call_rel(
                                g0,
                                env,
                                f,
                                drop_front(l@, 1),
                                true,
                                Some(s),
                                (d - 1) as nat,
                                g1,
                                r,
                            ),
                            None => g1 == g0 && r is Err && is_undefined_err(
                                r->Err_0,
                                s@,
                                true,
                                env.stack_trace,
                            ),
                        },
                    }
                },
                _ => g1 == g0 && r is Err && is_syntax_err(
                    r->Err_0,
                    "illegal function call"@,
                    env.stack_trace,
                ),
            }
        },
        _ => g1 == g0 && r == Ok::<LispObject, ErrorWithStackTrace>(form),
    }
}

/// Evaluating argument forms left to right; the first error stops the rest.
pub open spec fn args_rel(g0: GlobalEnv, env: Env, forms: Seq<LispObject>, d: nat, g1: GlobalEnv, r: ArgsResult) -> bool
    decreases d, 4nat, forms.len(),
{
    if forms.len() == 0 {
        g1 == g0 && r == Ok::<Seq<LispObject>, ErrorWithStackTrace>(Seq::empty())
    } else {
        (exists|e: ErrorWithStackTrace|
            #[trigger] witness(e) && args_rel(g0, env, forms.drop_last(), d, g1, Err::<Seq<LispObject>, ErrorWithStackTrace>(e))
                && r == Err::<Seq<LispObject>, ErrorWithStackTrace>(e)) || (exists|gm: GlobalEnv, vs: Seq<LispObject>, rv: EvalResult|
            #[trigger] witness((gm, vs, rv)) && args_rel(g0, env, forms.drop_last(), d, gm, Ok::<Seq<LispObject>, ErrorWithStackTrace>(vs))
                && eval_rel(gm, env, forms.last(), d, g1, rv) && match rv {
                Err(e) => r == Err::<Seq<LispObject>, ErrorWithStackTrace>(e),
                Ok(v) => r == Ok::<Seq<LispObject>, ErrorWithStackTrace>(vs.push(v)),
            })
    }
}

/// Evaluating body forms in turn: the last value, `nil` for no form, or the first error.
pub open spec fn body_rel(g0: GlobalEnv, env: Env, body: Seq<LispObject>, d: nat, g1: GlobalEnv, r: EvalResult) -> bool
    decreases d, 4nat, body.len(),
{
    if body.len() == 0 {
        g1 == g0 && r == Ok::<LispObject, ErrorWithStackTrace>(nil_obj())
    } else {
        (exists|e: ErrorWithStackTrace|
            #[trigger] witness(e) && body_rel(g0, env, body.drop_last(), d, g1, Err::<LispObject, ErrorWithStackTrace>(e))
                && r == Err::<LispObject, ErrorWithStackTrace>(e)) || (exists|gm: GlobalEnv, v: LispObject|
            #[trigger] witness((gm, v)) && body_rel(g0, env, body.drop_last(), d, gm, Ok::<LispObject, ErrorWithStackTrace>(v))
                && eval_rel(gm, env, body.last(), d, g1, r))
    }
}

/// The name that an arity error gives the callee.
pub open spec fn hint_name(nh: Option<Symbol>, f: Function) -> Seq<char> {
    match nh {
        Some(s) => s@,
        None => crate::print::render_sig(f.sig),
    }
}

/// The frame that a call records.
pub open spec fn frame_of(nh: Option<Symbol>, f: Function) -> StackFrameDesignator {
    match nh {
        Some(s) => StackFrameDesignator::Name(s),
        None => StackFrameDesignator::Signature(f.sig),
    }
}

/// Calling `f`: evaluate the arguments if asked, check their count, record
/// the frame, then run the body.
pub open spec fn call_rel(
    g0: GlobalEnv,
    env: Env,
    f: Function,
    args: Seq<LispObject>,
    eval_args: bool,
    nh: Option<Symbol>,
    d: nat,
    g1: GlobalEnv,
    r: EvalResult,
) -> bool
    decreases d, 8nat, 0nat,
{
    if eval_args && d == 0 {
        g1 == g0 && r is Err && is_depth_err(r->Err_0, env.stack_trace)
    } else {
        exists|gm: GlobalEnv, ra: ArgsResult|
            #[trigger] witness((gm, ra)) && call_args_stage(g0, env, args, eval_args, d, gm, ra) && match ra {
                Err(e) => g1 == gm && r == Err::<LispObject, ErrorWithStackTrace>(e),
                Ok(vals) => if !arity_ok_spec(f, vals.len() as int) {
                    g1 == gm && r is Err && is_arity_err(
                        r->Err_0,
                        f.sig.arglist@.len() as int,
                        vals.len() as int,
                        f.sig.restarg is Some,
                        env.stack_trace,
                    ) && r->Err_0.err->Arity_0.fn_name@ == hint_name(nh, f)
                } else if d == 0 || env.stack_trace@.len() >= usize::MAX {
                    g1 == gm && r is Err && is_depth_err(r->Err_0, env.stack_trace)
                } else {
                    frame_rel(gm, env, f, vals, nh, (d - 1) as nat, g1, r)
                },
            }
    }
}

/// The argument values of a call: evaluated when asked, given otherwise.
pub open spec fn call_args_stage(
    g0: GlobalEnv,
    env: Env,
    args: Seq<LispObject>,
    eval_args: bool,
    d: nat,
    g1: GlobalEnv,
    r: ArgsResult,
) -> bool
    decreases d, 2nat, 0nat,
{
    if eval_args {
        d > 0 && args_rel(g0, env, args, (d - 1) as nat, g1, r)
    } else {
        g1 == g0 && r == Ok::<Seq<LispObject>, ErrorWithStackTrace>(args)
    }
}

/// The bindings of a frame: each positional parameter bound to its value in
/// turn, and the rest parameter to the list `rest` of the values after them.
pub open spec fn frame_locals(
    m: Map<Seq<char>, Binding>,
    f: Function,
    vals: Seq<LispObject>,
    rest: crate::cons::List<LispObject>,
) -> Map<Seq<char>, Binding> {
    let n = f.sig.arglist@.len() as int;
    let bound = crate::eval::bind_params(m, f.sig.arglist@, vals, n);
    match f.sig.restarg {
        None => bound,
        Some(rs) => bound.insert(rs@, Binding::Value(LispObject::List(rest))),
    }
}

/// Running the body of `f` on `vals` in a frame over `env` that records the call.
pub open spec fn frame_rel(
    g0: GlobalEnv,
    env: Env,
    f: Function,
    vals: Seq<LispObject>,
    nh: Option<Symbol>,
    d: nat,
    g1: GlobalEnv,
    r: EvalResult,
) -> bool
    decreases d, 7nat, 0nat,
{
    exists|fe: Env|
        #![trigger frame_env_of(fe)]
        frame_env_of(fe) && fe.wf() && fe.functions_map() == env.functions_map() && fe.macros_map()
            == env.macros_map() && fe.stack_trace@ == seq![frame_of(nh, f)] + env.stack_trace@
            && match f.body {
            FunctionBody::Native(op) => fe.values_map() == env.values_map() && native_rel(
                g0,
                fe,
                op,
                vals,
                d,
                g1,
                r,
            ),
            FunctionBody::Interpreted(body) => exists|rest: crate::cons::List<LispObject>|
                #[trigger] witness(rest) && rest@ == drop_front(vals, f.sig.arglist@.len() as int) && fe.values_map()
                    == frame_locals(env.values_map(), f, vals, rest) && body_rel(
                    g0,
                    fe,
                    body@,
                    d,
                    g1,
                    r,
                ),
        }
}

/// A trigger for the frame environment of a call.
pub open spec fn frame_env_of(fe: Env) -> bool {
    true
}

/// What a primitive does with its argument values, in the frame `env` of the call.
pub open spec fn native_rel(g0: GlobalEnv, env: Env, op: NativeFn, args: Seq<LispObject>, d: nat, g1: GlobalEnv, r: EvalResult) -> bool
    decreases d, 6nat, 0nat,
{
    let (n, vararg) = crate::native::native_arity(op);
    if !crate::native::arity_ok(n, vararg, args.len() as int) {
        g1 == g0 && r is Err && is_arity_err(r->Err_0, n, args.len() as int, vararg, env.stack_trace)
    } else {
        match op {
            NativeFn::Cons => g1 == g0 && cons_post(args, r, env.stack_trace),
            NativeFn::First => g1 == g0 && first_post(args, r, env.stack_trace),
            NativeFn::Rest => g1 == g0 && rest_post(args, r, env.stack_trace),
            NativeFn::Emptyp => g1 == g0 && crate::native::emptyp_post(args, r, env.stack_trace),
            NativeFn::Equal => g1 == g0 && r == Ok::<LispObject, ErrorWithStackTrace>(
                bool_obj(obj_eq(args[0], args[1])),
            ),
            NativeFn::Listp => g1 == g0 && r == Ok::<LispObject, ErrorWithStackTrace>(
                bool_obj(args[0] is List),
            ),
            NativeFn::Symbolp => g1 == g0 && r == Ok::<LispObject, ErrorWithStackTrace>(
                bool_obj(args[0] is Symbol),
            ),
            NativeFn::Add => g1 == g0 && add_post(args, r, env.stack_trace),
            NativeFn::Sub => g1 == g0 && sub_post(args, r, env.stack_trace),
            NativeFn::Mul => g1 == g0 && mul_post(args, r, env.stack_trace),
            NativeFn::Lt => g1 == g0 && compare_post(args, true, r, env.stack_trace),
            NativeFn::Gt => g1 == g0 && compare_post(args, false, r, env.stack_trace),
            NativeFn::Print => only_output_changed(g0, g1) && r == Ok::<LispObject, ErrorWithStackTrace>(
                args[0],
            ) && output_appended(g0.output@, g1.output@, render(args[0])),
            NativeFn::Println => only_output_changed(g0, g1) && r == Ok::<
                LispObject,
                ErrorWithStackTrace,
            >(args[0]) && output_appended(g0.output@, g1.output@, render(args[0]) + "\n"@),
            NativeFn::StdoutWrite => if args[0] is String {
                only_output_changed(g0, g1) && r == Ok::<LispObject, ErrorWithStackTrace>(nil_obj())
                    && output_appended(g0.output@, g1.output@, args[0]->String_0@)
            } else {
                g1 == g0 && r is Err && is_cast_err(r->Err_0, args[0], "String"@, env.stack_trace)
            },
            NativeFn::SymbolFunction => g1 == g0 && if args[0] is Symbol {
                match env.function_of(&g0, args[0]->Symbol_0@) {
                    Some(f) => r == Ok::<LispObject, ErrorWithStackTrace>(LispObject::Fn(f)),
                    None => r is Err && is_undefined_err(
                        r->Err_0,
                        args[0]->Symbol_0@,
                        true,
                        env.stack_trace,
                    ),
                }
            } else {
                r is Err && is_cast_err(r->Err_0, args[0], "Symbol"@, env.stack_trace)
            },
            NativeFn::RaiseError => g1 == g0 && r is Err && if args[0] is String {
                r->Err_0.err is Generic && r->Err_0.err->Generic_0.message@ == args[0]->String_0@
                    && r->Err_0.stack_trace@ == drop_front(env.stack_trace@, 1)
            } else {
                is_cast_err(r->Err_0, args[0], "String"@, env.stack_trace)
            },
            NativeFn::Apply => apply_rel(g0, env, args, d, g1, r),
            NativeFn::Macroexpand1 => mx1_rel(g0, env, args, d, g1, r),
        }
    }
}

/// `(apply f x... l)`: calls `f` on `x...` followed by the elements of `l`.
pub open spec fn apply_rel(g0: GlobalEnv, env: Env, args: Seq<LispObject>, d: nat, g1: GlobalEnv, r: EvalResult) -> bool
    decreases d, 5nat, 0nat,
{
    if d == 0 {
        g1 == g0 && r is Err && is_depth_err(r->Err_0, env.stack_trace)
    } else if !(args[0] is Fn) {
        g1 == g0 && r is Err && is_cast_err(r->Err_0, args[0], "Function"@, env.stack_trace)
    } else if !(args.last() is List) {
        g1 == g0 && r is Err && is_cast_err(r->Err_0, args.last(), "List"@, env.stack_trace)
    } else {
        call_rel(
            g0,
            env,
            args[0]->Fn_0,
            args.subrange(1, args.len() - 1) + args.last()->List_0@,
            false,
            None,
            (d - 1) as nat,
            g1,
            r,
        )
    }
}

/// `(macroexpand-1 x)`: one expansion step when `x` calls a macro, else `x`.
pub open spec fn mx1_rel(g0: GlobalEnv, env: Env, args: Seq<LispObject>, d: nat, g1: GlobalEnv, r: EvalResult) -> bool
    decreases d, 5nat, 0nat,
{
    let x = args[0];
    if d == 0 {
        g1 == g0 && r is Err && is_depth_err(r->Err_0, env.stack_trace)
    } else if x is List && x->List_0@.len() > 0 && x->List_0@[0] is Symbol && env.macro_of(
        &g0,
        x->List_0@[0]->Symbol_0@,
    ) is Some {
        call_rel(
            g0,
            env,
            env.macro_of(&g0, x->List_0@[0]->Symbol_0@)->0,
            drop_front(x->List_0@, 1),
            false,
            Some(x->List_0@[0]->Symbol_0),
            (d - 1) as nat,
            g1,
            r,
        )
    } else {
        g1 == g0 && r == Ok::<LispObject, ErrorWithStackTrace>(x)
    }
}

/// Running a special form on its unevaluated argument forms.
pub open spec fn special_rel(g0: GlobalEnv, env: Env, sf: SpecialForm, args: Seq<LispObject>, d: nat, g1: GlobalEnv, r: EvalResult) -> bool
    decreases d, 6nat, 0nat,
{
    match sf {
        SpecialForm::Quote => g1 == g0 && quote_post(args, r, env.stack_trace),
        SpecialForm::Lambda => g1 == g0 && lambda_post(args, r, env.stack_trace),
        SpecialForm::If => if_rel(g0, env, args, d, g1, r),
        SpecialForm::Let => let_rel(g0, env, args, d, g1, r),
        SpecialForm::SetFn => set_fn_rel(g0, env, args, false, d, g1, r),
        SpecialForm::SetMacroFn => set_fn_rel(g0, env, args, true, d, g1, r),
    }
}

/// `(if c t [e])`.
pub open spec fn if_rel(g0: GlobalEnv, env: Env, args: Seq<LispObject>, d: nat, g1: GlobalEnv, r: EvalResult) -> bool
    decreases d, 4nat, 0nat,
{
    if args.len() == 0 {
        g1 == g0 && r is Err && is_syntax_err(r->Err_0, "no condition in if"@, env.stack_trace)
    } else if args.len() == 1 {
        g1 == g0 && r is Err && is_syntax_err(r->Err_0, "no then in if"@, env.stack_trace)
    } else {
        exists|gm: GlobalEnv, rc: EvalResult|
            #[trigger] witness((gm, rc)) && eval_rel(g0, env, args[0], d, gm, rc) && match rc {
                Err(e) => g1 == gm && r == Err::<LispObject, ErrorWithStackTrace>(e),
                Ok(c) => if c.is_nil() {
                    if args.len() > 2 {
                        eval_rel(gm, env, args[2], d, g1, r)
                    } else {
                        g1 == gm && r == Ok::<LispObject, ErrorWithStackTrace>(nil_obj())
                    }
                } else {
                    eval_rel(gm, env, args[1], d, g1, r)
                },
            }
    }
}

/// The first `k` clauses of a `let`, each value evaluated in the bindings made
/// before it; `res` holds the error that stopped them, if any, and `ek` the
/// bindings made.
pub open spec fn clauses_rel(
    g0: GlobalEnv,
    env: Env,
    bs: Seq<LispObject>,
    k: nat,
    d: nat,
    g1: GlobalEnv,
    ek: Env,
    res: Option<ErrorWithStackTrace>,
) -> bool
    decreases d, 4nat, k,
{
    if k == 0 {
        g1 == g0 && res is None && same_frame(ek, env)
    } else {
        exists|gm: GlobalEnv, em: Env, rm: Option<ErrorWithStackTrace>|
            #[trigger] witness((gm, em, rm)) && clauses_rel(g0, env, bs, (k - 1) as nat, d, gm, em, rm) && match rm {
                Some(e) => g1 == gm && res == Some(e),
                None => exists|rv: EvalResult|
                    #[trigger] witness(rv) && eval_rel(gm, em, clause_value(bs[k - 1]), d, g1, rv) && match rv {
                        Err(e) => res == Some(e),
                        Ok(v) => res is None && ek.wf() && ek.values_map() == em.values_map().insert(
                            clause_symbol(bs[k - 1])@,
                            Binding::Value(v),
                        ) && ek.functions_map() == em.functions_map() && ek.macros_map()
                            == em.macros_map() && ek.stack_trace == em.stack_trace,
                    },
            }
    }
}

/// `(let ((s v)...) body...)`.
pub open spec fn let_rel(g0: GlobalEnv, env: Env, args: Seq<LispObject>, d: nat, g1: GlobalEnv, r: EvalResult) -> bool
    decreases d, 5nat, 0nat,
{
    match let_error(args) {
        Some(m) => g1 == g0 && r is Err && is_syntax_err(r->Err_0, m, env.stack_trace),
        None => {
            let bs = args[0]->List_0@;
            exists|gm: GlobalEnv, em: Env, res: Option<ErrorWithStackTrace>|
                #[trigger] witness((gm, em, res)) && clauses_rel(g0, env, bs, bs.len(), d, gm, em, res) && match res {
                    Some(e) => g1 == gm && r == Err::<LispObject, ErrorWithStackTrace>(e),
                    None => body_rel(gm, em, drop_front(args, 1), d, g1, r),
                }
        },
    }
}

/// `(set-fn s f)`, or `(set-macro-fn s f)` when `mac`.
pub open spec fn set_fn_rel(g0: GlobalEnv, env: Env, args: Seq<LispObject>, mac: bool, d: nat, g1: GlobalEnv, r: EvalResult) -> bool
    decreases d, 4nat, 0nat,
{
    if args.len() < 2 || !(args[0] is Symbol) {
        g1 == g0 && r is Err && r->Err_0.err is Syntax && r->Err_0.stack_trace == env.stack_trace
    } else {
        exists|gm: GlobalEnv, rv: EvalResult|
            #[trigger] witness((gm, rv)) && eval_rel(g0, env, args[1], d, gm, rv) && match rv {
                Err(e) => g1 == gm && r == Err::<LispObject, ErrorWithStackTrace>(e),
                Ok(v) => match v {
                    LispObject::Fn(f) => r == Ok::<LispObject, ErrorWithStackTrace>(nil_obj())
                        && g1.values == gm.values && g1.specials == gm.specials && g1.output
                        == gm.output && g1.max_depth == gm.max_depth && if mac {
                        g1.functions == gm.functions && g1.macros_map() == gm.macros_map().insert(
                            args[0]->Symbol_0@,
                            Binding::Function(f),
                        )
                    } else {
                        g1.macros == gm.macros && g1.functions_map() == gm.functions_map().insert(
                            args[0]->Symbol_0@,
                            Binding::Function(f),
                        )
                    },
                    _ => g1 == gm && r is Err && is_cast_err(
                        r->Err_0,
                        v,
                        "Function"@,
                        env.stack_trace,
                    ),
                },
            }
    }
}

} // verus!

verus! {

/// An error in the first `i` argument forms is the error of them all.
pub proof fn lemma_args_err_extends(
    g0: GlobalEnv,
    env: Env,
    forms: Seq<LispObject>,
    i: int,
    d: nat,
    g1: GlobalEnv,
    e: ErrorWithStackTrace,
)
    requires
        0 <= i <= forms.len(),
        args_rel(g0, env, forms.take(i), d, g1, Err(e)),
    ensures
        args_rel(g0, env, forms, d, g1, Err(e)),
    decreases forms.len() - i,
{
    if i < forms.len() {
        let f2 = forms.take(i + 1);
        let rm: ArgsResult = Err(e);
        assert(f2.drop_last() =~= forms.take(i));
        assert(f2.len() > 0);
        assert(args_rel(g0, env, f2.drop_last(), d, g1, rm));
        lemma_args_err_step(g0, env, f2, d, g1, e);
        lemma_args_err_extends(g0, env, forms, i + 1, d, g1, e);
    } else {
        assert(forms.take(i) =~= forms);
    }
}

/// An error in the first `i` body forms is the error of the whole body.
pub proof fn lemma_body_err_extends(
    g0: GlobalEnv,
    env: Env,
    body: Seq<LispObject>,
    i: int,
    d: nat,
    g1: GlobalEnv,
    e: ErrorWithStackTrace,
)
    requires
        0 <= i <= body.len(),
        body_rel(g0, env, body.take(i), d, g1, Err(e)),
    ensures
        body_rel(g0, env, body, d, g1, Err(e)),
    decreases body.len() - i,
{
    if i < body.len() {
        let b2 = body.take(i + 1);
        let rm: EvalResult = Err(e);
        assert(b2.drop_last() =~= body.take(i));
        assert(b2.len() > 0);
        assert(body_rel(g0, env, b2.drop_last(), d, g1, rm));
        lemma_body_err_step(g0, env, b2, d, g1, e);
        lemma_body_err_extends(g0, env, body, i + 1, d, g1, e);
    } else {
        assert(body.take(i) =~= body);
    }
}

/// An error in the first `i` clauses of a `let` is the error of them all.
pub proof fn lemma_clauses_err_extends(
    g0: GlobalEnv,
    env: Env,
    bs: Seq<LispObject>,
    i: nat,
    k: nat,
    d: nat,
    g1: GlobalEnv,
    ek: Env,
    e: ErrorWithStackTrace,
)
    requires
        i <= k,
        clauses_rel(g0, env, bs, i, d, g1, ek, Some(e)),
    ensures
        clauses_rel(g0, env, bs, k, d, g1, ek, Some(e)),
    decreases k - i,
{
    if i < k {
        assert(witness((g1, ek, Some(e))));
        assert(clauses_rel(g0, env, bs, i + 1, d, g1, ek, Some(e)));
        lemma_clauses_err_extends(g0, env, bs, i + 1, k, d, g1, ek, e);
    }
}

} // verus!

verus! {

/// One more argument form evaluated after the others succeeded.
pub proof fn lemma_args_step(
    g0: GlobalEnv,
    env: Env,
    forms: Seq<LispObject>,
    d: nat,
    gm: GlobalEnv,
    vs: Seq<LispObject>,
    g1: GlobalEnv,
    rv: EvalResult,
)
    requires
        forms.len() > 0,
        args_rel(g0, env, forms.drop_last(), d, gm, Ok(vs)),
        eval_rel(gm, env, forms.last(), d, g1, rv),
    ensures
        args_rel(
            g0,
            env,
            forms,
            d,
            g1,
            match rv {
                Err(e) => Err(e),
                Ok(v) => Ok(vs.push(v)),
            },
        ),
{
    assert(witness((gm, vs, rv)));
}

} // verus!

verus! {

/// An error before the last argument form is the error of them all.
pub proof fn lemma_args_err_step(g0: GlobalEnv, env: Env, forms: Seq<LispObject>, d: nat, g1: GlobalEnv, e: ErrorWithStackTrace)
    requires
        forms.len() > 0,
        args_rel(g0, env, forms.drop_last(), d, g1, Err(e)),
    ensures
        args_rel(g0, env, forms, d, g1, Err(e)),
{
    assert(witness(e));
}

/// An error before the last body form is the error of the whole body.
pub proof fn lemma_body_err_step(g0: GlobalEnv, env: Env, body: Seq<LispObject>, d: nat, g1: GlobalEnv, e: ErrorWithStackTrace)
    requires
        body.len() > 0,
        body_rel(g0, env, body.drop_last(), d, g1, Err(e)),
    ensures
        body_rel(g0, env, body, d, g1, Err(e)),
{
    assert(witness(e));
}

} // verus!

verus! {

/// One more body form evaluated after the others succeeded.
pub proof fn lemma_body_step(
    g0: GlobalEnv,
    env: Env,
    body: Seq<LispObject>,
    d: nat,
    gm: GlobalEnv,
    v: LispObject,
    g1: GlobalEnv,
    r: EvalResult,
)
    requires
        body.len() > 0,
        body_rel(g0, env, body.drop_last(), d, gm, Ok(v)),
        eval_rel(gm, env, body.last(), d, g1, r),
    ensures
        body_rel(g0, env, body, d, g1, r),
{
    assert(witness((gm, v)));
}

} // verus!

verus! {

/// How many leading elements of a well-formed `lambda` form expansion keeps:
/// `lambda`, the name if any, and the parameter list.
pub open spec fn lambda_keep(args: Seq<LispObject>) -> int {
    if args[0] is Symbol {
        3
    } else {
        2
    }
}

/// `r` is a list value whose elements are `v`.
pub open spec fn list_result(r: EvalResult, v: Seq<LispObject>) -> bool {
    r is Ok && r->Ok_0 is List && r->Ok_0->List_0@ == v
}

/// The expansion of a `let`: the head, the clauses reduced to a symbol and an
/// expanded value, then the expanded body.
pub open spec fn let_expansion(
    r: EvalResult,
    head: LispObject,
    bs: Seq<LispObject>,
    vals: Seq<LispObject>,
    body: Seq<LispObject>,
) -> bool {
    &&& r is Ok && r->Ok_0 is List
    &&& ({
        let l = r->Ok_0->List_0@;
        &&& l.len() == body.len() + 2
        &&& l[0] == head
        &&& l[1] is List
        &&& l[1]->List_0@.len() == bs.len()
        &&& vals.len() == bs.len()
        &&& forall|i: int|
            0 <= i < bs.len() ==> (#[trigger] l[1]->List_0@[i]) is List && l[1]->List_0@[i]->List_0@
                == seq![LispObject::Symbol(clause_symbol(bs[i])), vals[i]]
        &&& l.skip(2) == body
    })
}

/// Expanding the macros of a form.
pub open spec fn mx_rel(g0: GlobalEnv, env: Env, form: LispObject, d: nat, g1: GlobalEnv, r: EvalResult) -> bool
    decreases d, 2nat, 0nat,
{
    match form {
        LispObject::List(l) => if l@.len() == 0 {
            g1 == g0 && r == Ok::<LispObject, ErrorWithStackTrace>(nil_obj())
        } else {
            let head = l@[0];
            let args = drop_front(l@, 1);
            let name = if head is Symbol { head->Symbol_0@ } else { Seq::empty() };
            if head is Symbol && name == "quote"@ {
                g1 == g0 && if args.len() == 1 {
                    r == Ok::<LispObject, ErrorWithStackTrace>(form)
                } else {
                    r is Err && is_arity_err(r->Err_0, 1, args.len() as int, false, env.stack_trace)
                        && r->Err_0.err->Arity_0.fn_name@ == "quote"@
                }
            } else if d == 0 {
                g1 == g0 && r is Err && is_depth_err(r->Err_0, env.stack_trace)
            } else if head is Symbol && name == "lambda"@ {
                match crate::special::lambda_error(args) {
                    Some(m) => g1 == g0 && r is Err && is_syntax_err(r->Err_0, m, env.stack_trace),
                    None => exists|rb: ArgsResult|
                        #[trigger] witness(rb) && mxl_rel(
                            g0,
                            env,
                            drop_front(args, lambda_keep(args) - 1),
                            (d - 1) as nat,
                            g1,
                            rb,
                        ) && match rb {
                            Err(e) => r == Err::<LispObject, ErrorWithStackTrace>(e),
                            Ok(eb) => list_result(r, l@.take(lambda_keep(args)) + eb),
                        },
                }
            } else if head is Symbol && name == "let"@ {
                match let_error(args) {
                    Some(m) => g1 == g0 && r is Err && is_syntax_err(r->Err_0, m, env.stack_trace),
                    None => exists|gm: GlobalEnv, rb: ArgsResult|
                        #[trigger] witness((gm, rb)) && mxl_rel(
                            g0,
                            env,
                            drop_front(args, 1),
                            (d - 1) as nat,
                            gm,
                            rb,
                        ) && match rb {
                            Err(e) => g1 == gm && r == Err::<LispObject, ErrorWithStackTrace>(e),
                            Ok(eb) => exists|rc: ArgsResult|
                                #[trigger] witness(rc) && mx_clauses_rel(
                                    gm,
                                    env,
                                    args[0]->List_0@,
                                    args[0]->List_0@.len(),
                                    (d - 1) as nat,
                                    g1,
                                    rc,
                                ) && match rc {
                                    Err(e) => r == Err::<LispObject, ErrorWithStackTrace>(e),
                                    Ok(vals) => let_expansion(r, head, args[0]->List_0@, vals, eb),
                                },
                        },
                }
            } else if head is Symbol && env.macro_of(&g0, name) is Some {
                exists|gm: GlobalEnv, re: EvalResult|
                    #[trigger] witness((gm, re)) && call_rel(
                        g0,
                        env,
                        env.macro_of(&g0, name)->0,
                        args,
                        false,
                        Some(head->Symbol_0),
                        (d - 1) as nat,
                        gm,
                        re,
                    ) && match re {
                        Err(e) => g1 == gm && r == Err::<LispObject, ErrorWithStackTrace>(e),
                        Ok(x) => mx_rel(gm, env, x, (d - 1) as nat, g1, r),
                    }
            } else {
                exists|rb: ArgsResult|
                    #[trigger] witness(rb) && mxl_rel(g0, env, l@, (d - 1) as nat, g1, rb) && match rb {
                        Err(e) => r == Err::<LispObject, ErrorWithStackTrace>(e),
                        Ok(es) => list_result(r, es),
                    }
            }
        },
        _ => g1 == g0 && r == Ok::<LispObject, ErrorWithStackTrace>(form),
    }
}

/// Expanding each form of a list in turn; the first error stops the rest.
pub open spec fn mxl_rel(g0: GlobalEnv, env: Env, forms: Seq<LispObject>, d: nat, g1: GlobalEnv, r: ArgsResult) -> bool
    decreases d, 3nat, forms.len(),
{
    if forms.len() == 0 {
        g1 == g0 && r == Ok::<Seq<LispObject>, ErrorWithStackTrace>(Seq::empty())
    } else {
        (exists|e: ErrorWithStackTrace|
            #[trigger] witness(e) && mxl_rel(g0, env, forms.drop_last(), d, g1, Err::<Seq<LispObject>, ErrorWithStackTrace>(e))
                && r == Err::<Seq<LispObject>, ErrorWithStackTrace>(e)) || (exists|gm: GlobalEnv, vs: Seq<LispObject>, rv: EvalResult|
            #[trigger] witness((gm, vs, rv)) && mxl_rel(g0, env, forms.drop_last(), d, gm, Ok::<Seq<LispObject>, ErrorWithStackTrace>(vs))
                && mx_rel(gm, env, forms.last(), d, g1, rv) && match rv {
                Err(e) => r == Err::<Seq<LispObject>, ErrorWithStackTrace>(e),
                Ok(v) => r == Ok::<Seq<LispObject>, ErrorWithStackTrace>(vs.push(v)),
            })
    }
}

/// Expanding the value forms of the first `k` clauses of a `let` in turn.
pub open spec fn mx_clauses_rel(g0: GlobalEnv, env: Env, bs: Seq<LispObject>, k: nat, d: nat, g1: GlobalEnv, r: ArgsResult) -> bool
    decreases d, 3nat, k,
{
    if k == 0 {
        g1 == g0 && r == Ok::<Seq<LispObject>, ErrorWithStackTrace>(Seq::empty())
    } else {
        (exists|e: ErrorWithStackTrace|
            #[trigger] witness(e) && mx_clauses_rel(g0, env, bs, (k - 1) as nat, d, g1, Err::<Seq<LispObject>, ErrorWithStackTrace>(e))
                && r == Err::<Seq<LispObject>, ErrorWithStackTrace>(e)) || (exists|gm: GlobalEnv, vs: Seq<LispObject>, rv: EvalResult|
            #[trigger] witness((gm, vs, rv)) && mx_clauses_rel(g0, env, bs, (k - 1) as nat, d, gm, Ok::<Seq<LispObject>, ErrorWithStackTrace>(vs))
                && mx_rel(gm, env, clause_value(bs[k - 1]), d, g1, rv) && match rv {
                Err(e) => r == Err::<Seq<LispObject>, ErrorWithStackTrace>(e),
                Ok(v) => r == Ok::<Seq<LispObject>, ErrorWithStackTrace>(vs.push(v)),
            })
    }
}

/// Expanding a form, then evaluating the expansion with the depth budget of
/// the global environment after expansion.
pub open spec fn mx_eval_rel(g0: GlobalEnv, env: Env, form: LispObject, g1: GlobalEnv, r: EvalResult) -> bool {
    exists|gm: GlobalEnv, re: EvalResult|
        #[trigger] witness((gm, re)) && mx_rel(g0, env, form, g0.max_depth as nat, gm, re) && match re {
            Err(e) => g1 == gm && r == Err::<LispObject, ErrorWithStackTrace>(e),
            Ok(x) => eval_rel(gm, env, x, gm.max_depth as nat, g1, r),
        }
}

} // verus!

verus! {

/// One more form expanded after the others succeeded.
pub proof fn lemma_mxl_step(
    g0: GlobalEnv,
    env: Env,
    forms: Seq<LispObject>,
    d: nat,
    gm: GlobalEnv,
    vs: Seq<LispObject>,
    g1: GlobalEnv,
    rv: EvalResult,
)
    requires
        forms.len() > 0,
        mxl_rel(g0, env, forms.drop_last(), d, gm, Ok(vs)),
        mx_rel(gm, env, forms.last(), d, g1, rv),
    ensures
        mxl_rel(
            g0,
            env,
            forms,
            d,
            g1,
            match rv {
                Err(e) => Err(e),
                Ok(v) => Ok(vs.push(v)),
            },
        ),
{
    assert(witness((gm, vs, rv)));
}

/// An error in the first `i` forms is the error of the whole expansion.
pub proof fn lemma_mxl_err_extends(
    g0: GlobalEnv,
    env: Env,
    forms: Seq<LispObject>,
    i: int,
    d: nat,
    g1: GlobalEnv,
    e: ErrorWithStackTrace,
)
    requires
        0 <= i <= forms.len(),
        mxl_rel(g0, env, forms.take(i), d, g1, Err(e)),
    ensures
        mxl_rel(g0, env, forms, d, g1, Err(e)),
    decreases forms.len() - i,
{
    if i < forms.len() {
        let f2 = forms.take(i + 1);
        assert(f2.drop_last() =~= forms.take(i));
        assert(witness(e));
        assert(mxl_rel(g0, env, f2, d, g1, Err(e)));
        lemma_mxl_err_extends(g0, env, forms, i + 1, d, g1, e);
    } else {
        assert(forms.take(i) =~= forms);
    }
}

/// One more clause value expanded after the others succeeded.
pub proof fn lemma_mxc_step(
    g0: GlobalEnv,
    env: Env,
    bs: Seq<LispObject>,
    k: nat,
    d: nat,
    gm: GlobalEnv,
    vs: Seq<LispObject>,
    g1: GlobalEnv,
    rv: EvalResult,
)
    requires
        k > 0,
        mx_clauses_rel(g0, env, bs, (k - 1) as nat, d, gm, Ok(vs)),
        mx_rel(gm, env, clause_value(bs[k - 1]), d, g1, rv),
    ensures
        mx_clauses_rel(
            g0,
            env,
            bs,
            k,
            d,
            g1,
            match rv {
                Err(e) => Err(e),
                Ok(v) => Ok(vs.push(v)),
            },
        ),
{
    assert(witness((gm, vs, rv)));
}

/// An error in the first `i` clause values is the error of them all.
pub proof fn lemma_mxc_err_extends(
    g0: GlobalEnv,
    env: Env,
    bs: Seq<LispObject>,
    i: nat,
    k: nat,
    d: nat,
    g1: GlobalEnv,
    e: ErrorWithStackTrace,
)
    requires
        i <= k,
        mx_clauses_rel(g0, env, bs, i, d, g1, Err(e)),
    ensures
        mx_clauses_rel(g0, env, bs, k, d, g1, Err(e)),
    decreases k - i,
{
    if i < k {
        assert(witness(e));
        assert(mx_clauses_rel(g0, env, bs, i + 1, d, g1, Err(e)));
        lemma_mxc_err_extends(g0, env, bs, i + 1, k, d, g1, e);
    }
}

} // verus!
