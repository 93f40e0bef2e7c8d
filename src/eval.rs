//! The evaluator: form dispatch, the function-call protocol and the special
//! forms, which call back into each other. Every step down takes one unit
//! of a depth budget, so evaluation that nests too deeply ends in an error.

use crate::cons::{List, drop_front, link_view};
use crate::env::{Binding, Env, GlobalEnv, StackTrace, first_hit, function_in, value_in};
use crate::error::{
    ArityError, ErrorWithStackTrace, EvalResult, GenericError, LispError, SyntaxError,
    UndefinedSymbol, is_arity_err, is_cast_err, is_generic_err, is_syntax_err, is_undefined_err,
};
use crate::native::{
    arg_values, arity_ok, cast_err, lemma_links_wf_from_elems, lemma_tail_links_wf, lisp_bool, native_add,
    native_compare, native_cons, native_emptyp, native_equal, native_first,
    native_listp, native_mul, native_print, native_raise_error, native_rest, native_stdout_write,
    native_sub, native_symbol_function, native_symbolp, nil_obj,
};
use crate::object::{
    Function, FunctionBody, LispObject, NativeFn, SpecialForm, Symbol, fn_wf, is_self_evaluating,
    lemma_links_wf_elems, links_wf,
};
use crate::print::{render_sig, sig_to_text};
use crate::special::{lambda_error, parse_lambda, parse_let, parse_quote};
use crate::semantics::{
    ArgsResult, apply_rel, args_rel, lemma_args_err_extends, lemma_args_step, lemma_body_err_extends, lemma_body_step, witness,
    lemma_clauses_err_extends, clauses_rel, body_rel, call_rel, eval_rel, if_rel, let_rel, mx1_rel,
    native_rel, set_fn_rel, special_rel,
};
use vstd::prelude::*;

verus! {

/// The depth budget that top-level evaluation starts with unless the global
/// environment asks for another: enough for a few hundred nested calls on
/// the stack of an ordinary thread.
pub const MAX_DEPTH: usize = 1000;

/// `g1` is a well-formed successor of `g0`: the special forms and the global
/// values never change.
pub open spec fn keeps(g0: GlobalEnv, g1: GlobalEnv) -> bool {
    g1.wf() && g1.specials == g0.specials && g1.values == g0.values
}

/// A successful result is a well-formed value.
pub open spec fn ok_wf(r: EvalResult) -> bool {
    r is Ok ==> r->Ok_0.wf()
}

/// A non-empty list: a call of some kind.
pub open spec fn is_call(form: LispObject) -> bool {
    form is List && form->List_0@.len() > 0
}

/// The head of a call.
pub open spec fn call_head(form: LispObject) -> LispObject {
    form->List_0@[0]
}

/// The argument forms of a call.
pub open spec fn call_args(form: LispObject) -> Seq<LispObject> {
    drop_front(form->List_0@, 1)
}

/// The name that an arity error gives the callee: the call-site name, or the
/// rendering of its signature.
pub open spec fn callee_name(name_hint: Option<&Symbol>, f: Function) -> Seq<char> {
    match name_hint {
        Some(s) => s@,
        None => render_sig(f.sig),
    }
}

/// The argument at `i` is an unbound symbol and every argument before it
/// is simple.
pub open spec fn unbound_at(env: &Env, g: &GlobalEnv, s: Seq<LispObject>, i: int) -> bool {
    &&& 0 <= i < s.len()
    &&& forall|j: int| 0 <= j < i ==> is_simple(env, g, #[trigger] s[j])
    &&& s[i] is Symbol
    &&& env.value_of(g, s[i]->Symbol_0@) is None
}

/// Evaluation stopped at the unbound symbol at `i`: its error came back and
/// no later argument changed the global environment.
pub open spec fn stopped_at(
    env: &Env,
    g0: GlobalEnv,
    g1: GlobalEnv,
    s: Seq<LispObject>,
    i: int,
    r_err: bool,
    e: ErrorWithStackTrace,
) -> bool {
    &&& r_err
    &&& is_undefined_err(e, s[i]->Symbol_0@, false, env.stack_trace)
    &&& g1 == g0
}

/// A form whose value is known without evaluation: a self-evaluating value or `nil`.
pub open spec fn is_literal(o: LispObject) -> bool {
    is_self_evaluating(o) || o.is_nil()
}

/// The value of a literal form.
pub open spec fn literal_value(o: LispObject) -> LispObject {
    if o.is_nil() {
        nil_obj()
    } else {
        o
    }
}

/// The values of evaluated arguments, or their error.
pub open spec fn args_result(r: Result<List<LispObject>, ErrorWithStackTrace>) -> ArgsResult {
    match r {
        Ok(l) => Ok(l@),
        Err(e) => Err(e),
    }
}

/// Whether `k` arguments suit `f`.
pub open spec fn arity_ok_spec(f: Function, k: int) -> bool {
    arity_ok(f.sig.arglist@.len() as int, f.sig.restarg is Some, k)
}

/// The call-site name as a value.
pub open spec fn opt_hint(h: Option<&Symbol>) -> Option<Symbol> {
    match h {
        Some(s) => Some(*s),
        None => None,
    }
}

/// What `(quote x...)` gives: its one argument, else the arity error of `quote`.
pub open spec fn quote_post(args: Seq<LispObject>, r: EvalResult, t: StackTrace) -> bool {
    if args.len() == 1 {
        r == Ok::<LispObject, ErrorWithStackTrace>(args[0])
    } else {
        r is Err && is_arity_err(r->Err_0, 1, args.len() as int, false, t)
            && r->Err_0.err->Arity_0.fn_name@ == "quote"@
    }
}

/// What `(lambda [name] (params...) body...)` gives: the syntax error that
/// `lambda_error` names, or a function with the parsed name, parameters and body.
pub open spec fn lambda_post(args: Seq<LispObject>, r: EvalResult, t: StackTrace) -> bool {
    &&& r is Ok <==> lambda_error(args) is None
    &&& r is Err ==> is_syntax_err(r->Err_0, lambda_error(args)->0, t)
    &&& r is Ok ==> ({
        let named = args[0] is Symbol;
        let al = (if named { args[1] } else { args[0] })->List_0@.map_values(
            |o: LispObject| o->Symbol_0,
        );
        let a = crate::special::amp_index(al);
        let f = r->Ok_0->Fn_0;
        &&& r->Ok_0 is Fn
        &&& f.sig.name == (if named { Some(args[0]->Symbol_0) } else { None::<Symbol> })
        &&& f.sig.arglist@ == al.take(a)
        &&& f.sig.restarg == (if a == al.len() { None::<Symbol> } else { Some(al.last()) })
        &&& f.body is Interpreted
        &&& f.body->Interpreted_0@ == drop_front(args, if named { 2 } else { 1 })
    })
}

/// Every form is a literal.
pub open spec fn all_literal(s: Seq<LispObject>) -> bool {
    forall|i: int| 0 <= i < s.len() ==> is_literal(#[trigger] s[i])
}

/// What a body of literal forms gives: the value of the last, or `nil`.
pub open spec fn literal_body_value(s: Seq<LispObject>) -> LispObject {
    if s.len() == 0 {
        nil_obj()
    } else {
        literal_value(s.last())
    }
}

/// The local bindings after the first `k` clauses of a `let`, each value
/// simple in the bindings made so far; `None` when one is not simple.
pub open spec fn let_bind(
    m: Map<Seq<char>, Binding>,
    g: &GlobalEnv,
    bs: Seq<LispObject>,
    k: int,
) -> Option<Map<Seq<char>, Binding>>
    decreases k,
{
    if k <= 0 {
        Some(m)
    } else {
        match let_bind(m, g, bs, k - 1) {
            None => None,
            Some(acc) => {
                let v = crate::special::clause_value(bs[k - 1]);
                if simple_in(acc, g, v) {
                    Some(
                        acc.insert(
                            crate::special::clause_symbol(bs[k - 1])@,
                            Binding::Value(simple_value_in(acc, g, v)),
                        ),
                    )
                } else {
                    None
                }
            },
        }
    }
}

/// A clause sequence that binds simply all the way binds simply on every prefix.
proof fn lemma_let_bind_prefix(m: Map<Seq<char>, Binding>, g: &GlobalEnv, bs: Seq<LispObject>, i: int, k: int)
    requires
        0 <= i <= k,
        let_bind(m, g, bs, k) is Some,
    ensures
        let_bind(m, g, bs, i) is Some,
    decreases k - i,
{
    if i < k {
        lemma_let_bind_prefix(m, g, bs, i, k - 1);
    }
}

/// What a well-formed `let` gives when each binding value is simple in the
/// bindings made before it and the body is simple in all of them.
pub open spec fn simple_let(env: &Env, g: &GlobalEnv, args: Seq<LispObject>) -> Option<LispObject> {
    if crate::special::let_error(args) is Some {
        None
    } else {
        let bs = args[0]->List_0@;
        let body = drop_front(args, 1);
        match let_bind(env.values_map(), g, bs, bs.len() as int) {
            Some(locals) => if all_simple_in(locals, g, body) {
                Some(simple_body_value_in(locals, g, body))
            } else {
                None
            },
            None => None,
        }
    }
}


/// The value of `s` with these local bindings: local first, then global.
pub open spec fn value_from(locals: Map<Seq<char>, Binding>, g: &GlobalEnv, s: Seq<char>) -> Option<LispObject> {
    first_hit(value_in(locals, s), value_in(g.values_map(), s))
}

/// A form whose value needs no call, with these local bindings: a literal,
/// or a symbol with a value.
pub open spec fn simple_in(locals: Map<Seq<char>, Binding>, g: &GlobalEnv, o: LispObject) -> bool {
    is_literal(o) || (o is Symbol && value_from(locals, g, o->Symbol_0@) is Some)
}

/// The value of a simple form, with these local bindings.
pub open spec fn simple_value_in(locals: Map<Seq<char>, Binding>, g: &GlobalEnv, o: LispObject) -> LispObject {
    if o is Symbol {
        value_from(locals, g, o->Symbol_0@)->0
    } else {
        literal_value(o)
    }
}

/// What a body of simple forms gives with these local bindings: the value of
/// the last form, or `nil`.
pub open spec fn simple_body_value_in(
    locals: Map<Seq<char>, Binding>,
    g: &GlobalEnv,
    body: Seq<LispObject>,
) -> LispObject {
    if body.len() == 0 {
        nil_obj()
    } else {
        simple_value_in(locals, g, body.last())
    }
}

/// Every form of a body is simple with these local bindings.
pub open spec fn all_simple_in(locals: Map<Seq<char>, Binding>, g: &GlobalEnv, s: Seq<LispObject>) -> bool {
    forall|i: int| 0 <= i < s.len() ==> simple_in(locals, g, #[trigger] s[i])
}

/// The local bindings after binding the first `k` parameters to their values in turn.
pub open spec fn bind_params(
    m: Map<Seq<char>, Binding>,
    params: Seq<Symbol>,
    vals: Seq<LispObject>,
    k: int,
) -> Map<Seq<char>, Binding>
    decreases k,
{
    if k <= 0 {
        m
    } else {
        bind_params(m, params, vals, k - 1).insert(params[k - 1]@, Binding::Value(vals[k - 1]))
    }
}

/// A form whose value needs no call: a literal, or a symbol with a value.
pub open spec fn is_simple(env: &Env, g: &GlobalEnv, o: LispObject) -> bool {
    simple_in(env.values_map(), g, o)
}

/// The value of a simple form.
pub open spec fn simple_value(env: &Env, g: &GlobalEnv, o: LispObject) -> LispObject {
    simple_value_in(env.values_map(), g, o)
}

/// Every form is simple.
pub open spec fn all_simple(env: &Env, g: &GlobalEnv, s: Seq<LispObject>) -> bool {
    forall|i: int| 0 <= i < s.len() ==> is_simple(env, g, #[trigger] s[i])
}

/// The values of simple forms.
pub open spec fn simple_values(env: &Env, g: &GlobalEnv, s: Seq<LispObject>) -> Seq<LispObject> {
    s.map_values(|o: LispObject| simple_value(env, g, o))
}

/// What `(if c t [e])` gives when its condition and the chosen branch are
/// simple: the chosen branch's value, `nil` for a missing else branch.
pub open spec fn simple_if(env: &Env, g: &GlobalEnv, args: Seq<LispObject>) -> Option<LispObject> {
    if args.len() < 2 || !is_simple(env, g, args[0]) {
        None
    } else if !simple_value(env, g, args[0]).is_nil() {
        if is_simple(env, g, args[1]) { Some(simple_value(env, g, args[1])) } else { None }
    } else if args.len() == 2 {
        Some(nil_obj())
    } else if is_simple(env, g, args[2]) {
        Some(simple_value(env, g, args[2]))
    } else {
        None
    }
}

/// The error for a budget that ran out.
pub open spec fn is_depth_err(e: ErrorWithStackTrace, t: StackTrace) -> bool {
    is_generic_err(e, "evaluation is nested too deeply"@, t)
}

/// The error for a depth budget that ran out, in the frame of `env`.
pub fn depth_error(env: &Env) -> (e: ErrorWithStackTrace)
    ensures
        is_depth_err(e, env.stack_trace),
{
    depth_err(env)
}

fn depth_err(env: &Env) -> (e: ErrorWithStackTrace)
    ensures
        is_depth_err(e, env.stack_trace),
{
    env.st_err(LispError::Generic(GenericError::new("evaluation is nested too deeply".to_string())))
}

fn syntax_err(env: &Env, msg: &str) -> (e: ErrorWithStackTrace)
    ensures
        is_syntax_err(e, msg@, env.stack_trace),
{
    env.st_err(LispError::Syntax(SyntaxError::new(msg.to_string())))
}

/// A list value made of well-formed values.
pub(crate) fn list_of(v: Vec<LispObject>) -> (r: List<LispObject>)
    requires
        forall|i: int| 0 <= i < v@.len() ==> (#[trigger] v@[i]).wf(),
    ensures
        r.wf(),
        links_wf(r.head),
        r@ == v@,
{
    let r = List::from_rev_iter(v);
    proof {
        assert forall|i: int| 0 <= i < link_view(r.head).len() implies (#[trigger] link_view(r.head)[i]).wf() by {
            assert(link_view(r.head)[i] == v@[i]);
        }
        lemma_links_wf_from_elems(r.head);
    }
    r
}

/// Evaluates a form.
///
/// Integers, strings, `t` and functions evaluate to themselves; `nil` to
/// `nil`; a symbol to its value, local first; a call whose head is a symbol
/// runs the special form or the function of that name; any other call is a
/// syntax error. A call made with no depth budget left fails with a
/// generic error instead.
pub fn eval(g: &mut GlobalEnv, env: &Env, form: &LispObject, depth: usize) -> (r: EvalResult)
    requires
        old(g).wf(),
        env.wf(),
        form.wf(),
    ensures
        keeps(*old(g), *final(g)),
        ok_wf(r),
        is_self_evaluating(*form) ==> r == Ok::<LispObject, ErrorWithStackTrace>(*form)
            && *final(g) == *old(g),
        form.is_nil() ==> r == Ok::<LispObject, ErrorWithStackTrace>(nil_obj()) && *final(g)
            == *old(g),
        form is Symbol ==> *final(g) == *old(g) && match env.value_of(old(g), form->Symbol_0@) {
            Some(v) => r == Ok::<LispObject, ErrorWithStackTrace>(v),
            None => r is Err && is_undefined_err(
                r->Err_0,
                form->Symbol_0@,
                false,
                env.stack_trace,
            ),
        },
        is_call(*form) && !(call_head(*form) is Symbol) ==> *final(g) == *old(g) && r is Err
            && is_syntax_err(r->Err_0, "illegal function call"@, env.stack_trace),
        is_call(*form) && call_head(*form) is Symbol && depth == 0 ==> *final(g) == *old(g)
            && r is Err && is_depth_err(r->Err_0, env.stack_trace),
        is_call(*form) && call_head(*form) is Symbol && depth > 0 ==> ({
            let s = call_head(*form)->Symbol_0@;
            let args = call_args(*form);
            &&& old(g).special_of(s) is None && env.function_of(old(g), s) is None ==> *final(g)
                == *old(g) && r is Err && is_undefined_err(r->Err_0, s, true, env.stack_trace)
            &&& old(g).special_of(s) == Some(SpecialForm::Quote) ==> *final(g) == *old(g) && (
            if args.len() == 1 {
                r == Ok::<LispObject, ErrorWithStackTrace>(args[0])
            } else {
                r is Err && is_arity_err(r->Err_0, 1, args.len() as int, false, env.stack_trace)
            })
            &&& old(g).special_of(s) == Some(SpecialForm::Lambda) ==> *final(g) == *old(g) && (r
                is Ok <==> lambda_error(args) is None) && (r is Ok ==> r->Ok_0 is Fn
                && r->Ok_0->Fn_0.body is Interpreted)
            &&& old(g).special_of(s) == Some(SpecialForm::SetFn) && r is Ok ==> r->Ok_0 == nil_obj()
                && args.len() >= 2 && args[0] is Symbol && function_in(
                final(g).functions_map(),
                args[0]->Symbol_0@,
            ) is Some
            &&& old(g).special_of(s) == Some(SpecialForm::SetMacroFn) && r is Ok ==> r->Ok_0
                == nil_obj() && args.len() >= 2 && args[0] is Symbol && function_in(
                final(g).macros_map(),
                args[0]->Symbol_0@,
            ) is Some
            &&& old(g).special_of(s) == Some(SpecialForm::If) && args.len() < 2 ==> r is Err
                && r->Err_0.err is Syntax && *final(g) == *old(g)
            &&& old(g).special_of(s) == Some(SpecialForm::If) && simple_if(env, old(g), args) is Some
                ==> r == Ok::<LispObject, ErrorWithStackTrace>(simple_if(env, old(g), args)->0)
                && *final(g) == *old(g)
            &&& old(g).special_of(s) == Some(SpecialForm::Let) && simple_let(env, old(g), args) is Some
                ==> r == Ok::<LispObject, ErrorWithStackTrace>(simple_let(env, old(g), args)->0)
                && *final(g) == *old(g)
            &&& old(g).special_of(s) is None && env.function_of(old(g), s) is Some && depth > 1
                ==> forall|i: int|
                unbound_at(env, old(g), args, i) ==> stopped_at(
                    env,
                    *old(g),
                    *final(g),
                    args,
                    i,
                    r is Err,
                    r->Err_0,
                )
            &&& old(g).special_of(s) is None && env.function_of(old(g), s) is Some
                && all_simple(env, old(g), args) && depth > 1 ==> ({
                let f = env.function_of(old(g), s)->0;
                &&& simple_call_post(
                    f,
                    s,
                    simple_values(env, old(g), args),
                    r,
                    env.stack_trace,
                    depth - 1,
                    env.values_map(),
                    old(g),
                )
                &&& !arity_ok(f.sig.arglist@.len() as int, f.sig.restarg is Some, args.len() as int)
                    ==> *final(g) == *old(g)
            })
        }),
        eval_rel(*old(g), *env, *form, depth as nat, *final(g), r),
    decreases depth, 3nat,
{
    match form {
        LispObject::T | LispObject::Integer(_) | LispObject::String(_) | LispObject::Fn(_) => {
            Ok(form.clone())
        },
        LispObject::Symbol(s) => {
            let v = env.lookup_symbol_value(g, s);
            match v {
                Some(v) => Ok(v),
                None => Err(
                    env.st_err(LispError::UndefinedSymbol(UndefinedSymbol::new(s.name(), false))),
                ),
            }
        },
        LispObject::List(list) => {
            if list.is_empty() {
                return Ok(LispObject::nil());
            }
            proof {
                lemma_links_wf_elems(list.head);
            }
            match list.ufirst() {
                LispObject::Symbol(s) => {
                    if depth == 0 {
                        return Err(depth_err(env));
                    }
                    let args = list.tail();
                    proof {
                        lemma_tail_links_wf(list, 1);
                    }
                    match env.lookup_symbol_special(g, s) {
                        Some(sf) => call_special(g, env, sf, &args, depth - 1),
                        None => match env.lookup_symbol_function(g, s) {
                            Some(f) => call_function_object(
                                g,
                                env,
                                &f,
                                args,
                                true,
                                Some(s),
                                depth - 1,
                            ),
                            None => Err(
                                env.st_err(
                                    LispError::UndefinedSymbol(UndefinedSymbol::new(s.name(), true)),
                                ),
                            ),
                        },
                    }
                },
                _ => Err(syntax_err(env, "illegal function call")),
            }
        },
    }
}

/// Evaluates argument forms left to right; the first error ends the work,
/// and no later form is evaluated.
fn eval_args(g: &mut GlobalEnv, env: &Env, forms: &List<LispObject>, depth: usize) -> (r: Result<
    List<LispObject>,
    ErrorWithStackTrace,
>)
    requires
        old(g).wf(),
        env.wf(),
        forms.wf(),
        links_wf(forms.head),
    ensures
        keeps(*old(g), *final(g)),
        r is Ok ==> r->Ok_0.wf() && links_wf(r->Ok_0.head) && r->Ok_0@.len() == forms@.len(),
        all_simple(env, old(g), forms@) ==> *final(g) == *old(g) && r is Ok && r->Ok_0@
            == simple_values(env, old(g), forms@),
        forall|i: int|
            unbound_at(env, old(g), forms@, i) ==> stopped_at(
                env,
                *old(g),
                *final(g),
                forms@,
                i,
                r is Err,
                r->Err_0,
            ),
        args_rel(*old(g), *env, forms@, depth as nat, *final(g), args_result(r)),
    decreases depth, 4nat,
{
    let items = arg_values(forms);
    let mut out: Vec<LispObject> = Vec::new();
    let mut i: usize = 0;
    assert(forms@.take(0) =~= Seq::<LispObject>::empty());
    while i < items.len()
        invariant
            keeps(*old(g), *g),
            env.wf(),
            items@.len() == forms@.len(),
            forall|j: int| 0 <= j < items@.len() ==> (#[trigger] items@[j]).wf(),
            i <= items@.len(),
            out@.len() == i,
            forall|j: int| 0 <= j < out@.len() ==> (#[trigger] out@[j]).wf(),
            forall|j: int| 0 <= j < items@.len() ==> *items@[j] == forms@[j],
            all_simple(env, old(g), forms@) ==> *g == *old(g) && out@ == simple_values(
                env,
                old(g),
                forms@,
            ).take(i as int),
            forall|k: int| unbound_at(env, old(g), forms@, k) ==> i <= k && *g == *old(g),
            args_rel(*old(g), *env, forms@.take(i as int), depth as nat, *g, Ok::<Seq<LispObject>, ErrorWithStackTrace>(out@)),
        decreases items.len() - i,
    {
        assert(items@[i as int].wf());
        let ghost g_before = *g;
        let ghost out_before = out@;
        let ghost f2 = forms@.take(i + 1);
        assert(f2.drop_last() =~= forms@.take(i as int));
        assert(f2.last() == forms@[i as int]);
        let v = match eval(g, env, &*items[i], depth) {
            Ok(v) => v,
            Err(e) => {
                proof {
                    assert forall|k: int| unbound_at(env, old(g), forms@, k) implies stopped_at(
                        env,
                        *old(g),
                        *g,
                        forms@,
                        k,
                        true,
                        e,
                    ) by {
                        if k > i {
                            assert(is_simple(env, old(g), forms@[i as int]));
                        }
                    }
                    lemma_args_step(*old(g), *env, f2, depth as nat, g_before, out_before, *g, Err(e));
                    lemma_args_err_extends(*old(g), *env, forms@, i + 1, depth as nat, *g, e);
                }
                return Err(e);
            },
        };
        proof {
            assert forall|k: int| unbound_at(env, old(g), forms@, k) implies i + 1 <= k && *g == *old(g) by {
                if k > i {
                    assert(is_simple(env, old(g), forms@[i as int]));
                }
            }
        }
        out.push(v);
        proof {
            lemma_args_step(*old(g), *env, f2, depth as nat, g_before, out_before, *g, Ok(v));
            assert(out@ == out_before.push(v));
        }
        proof {
            if all_simple(env, old(g), forms@) {
                assert(is_simple(env, old(g), forms@[i as int]));
                assert(out@ =~= simple_values(env, old(g), forms@).take(i + 1));
            }
        }
        i = i + 1;
    }
    proof {
        if all_simple(env, old(g), forms@) {
            assert(out@ =~= simple_values(env, old(g), forms@));
        }
        assert(forms@.take(i as int) =~= forms@);
    }
    Ok(list_of(out))
}

/// Evaluates body forms in turn; the result is the last one's, or `nil`.
fn eval_body(g: &mut GlobalEnv, env: &Env, body: &List<LispObject>, depth: usize) -> (r: EvalResult)
    requires
        old(g).wf(),
        env.wf(),
        body.wf(),
        links_wf(body.head),
    ensures
        keeps(*old(g), *final(g)),
        ok_wf(r),
        all_simple_in(env.values_map(), old(g), body@) ==> r == Ok::<LispObject, ErrorWithStackTrace>(
            simple_body_value_in(env.values_map(), old(g), body@),
        ) && *final(g) == *old(g),
        body_rel(*old(g), *env, body@, depth as nat, *final(g), r),
    decreases depth, 4nat,
{
    let items = arg_values(body);
    let mut res = lisp_bool(false);
    let mut i: usize = 0;
    assert(body@.take(0) =~= Seq::<LispObject>::empty());
    while i < items.len()
        invariant
            keeps(*old(g), *g),
            env.wf(),
            items@.len() == body@.len(),
            forall|j: int| 0 <= j < items@.len() ==> (#[trigger] items@[j]).wf(),
            i <= items@.len(),
            res.wf(),
            forall|j: int| 0 <= j < items@.len() ==> *items@[j] == body@[j],
            all_simple_in(env.values_map(), old(g), body@) ==> *g == *old(g) && res == (if i == 0 {
                nil_obj()
            } else {
                simple_value_in(env.values_map(), old(g), body@[i - 1])
            }),
            body_rel(*old(g), *env, body@.take(i as int), depth as nat, *g, Ok::<LispObject, ErrorWithStackTrace>(res)),
        decreases items.len() - i,
    {
        assert(items@[i as int].wf());
        let ghost g_before = *g;
        let ghost res_before = res;
        let ghost b2 = body@.take(i + 1);
        assert(b2.drop_last() =~= body@.take(i as int));
        assert(b2.last() == body@[i as int]);
        res = match eval(g, env, &*items[i], depth) {
            Ok(v) => v,
            Err(e) => {
                proof {
                    lemma_body_step(*old(g), *env, b2, depth as nat, g_before, res_before, *g, Err(e));
                    lemma_body_err_extends(*old(g), *env, body@, i + 1, depth as nat, *g, e);
                }
                return Err(e);
            },
        };
        proof {
            lemma_body_step(*old(g), *env, b2, depth as nat, g_before, res_before, *g, Ok(res));
        }
        proof {
            if all_simple_in(env.values_map(), old(g), body@) {
                assert(simple_in(env.values_map(), old(g), body@[i as int]));
            }
        }
        i = i + 1;
    }
    assert(body@.take(i as int) =~= body@);
    Ok(res)
}

/// Calls a function: evaluates the arguments if asked, checks their count,
/// records the frame, binds the parameters and runs the body.
pub fn call_function_object(
    g: &mut GlobalEnv,
    env: &Env,
    function: &Function,
    args: List<LispObject>,
    eval_args_first: bool,
    name_hint: Option<&Symbol>,
    depth: usize,
) -> (r: EvalResult)
    requires
        old(g).wf(),
        env.wf(),
        fn_wf(*function),
        args.wf(),
        links_wf(args.head),
    ensures
        keeps(*old(g), *final(g)),
        ok_wf(r),
        (!eval_args_first || (depth > 0 && all_simple(env, old(g), args@))) && !arity_ok(
            function.sig.arglist@.len() as int,
            function.sig.restarg is Some,
            args@.len() as int,
        ) ==> *final(g) == *old(g) && r is Err && is_arity_err(
            r->Err_0,
            function.sig.arglist@.len() as int,
            args@.len() as int,
            function.sig.restarg is Some,
            env.stack_trace,
        ) && r->Err_0.err->Arity_0.fn_name@ == callee_name(name_hint, *function),
        eval_args_first && depth > 0 ==> forall|i: int|
            unbound_at(env, old(g), args@, i) ==> stopped_at(
                env,
                *old(g),
                *final(g),
                args@,
                i,
                r is Err,
                r->Err_0,
            ),
        eval_args_first && depth > 0 && !arity_ok(
            function.sig.arglist@.len() as int,
            function.sig.restarg is Some,
            args@.len() as int,
        ) ==> r is Err,
        (!eval_args_first || all_simple(env, old(g), args@)) && arity_ok(
            function.sig.arglist@.len() as int,
            function.sig.restarg is Some,
            args@.len() as int,
        ) && depth > 0 && env.stack_trace@.len() < usize::MAX ==> ({
            let t = seq![
                match name_hint {
                    Some(s) => crate::env::StackFrameDesignator::Name(*s),
                    None => crate::env::StackFrameDesignator::Signature(function.sig),
                },
            ] + env.stack_trace@;
            &&& function.body is Interpreted && all_literal(function.body->Interpreted_0@) ==> r
                == Ok::<LispObject, ErrorWithStackTrace>(
                literal_body_value(function.body->Interpreted_0@),
            ) && final(g).values == old(g).values && final(g).functions == old(g).functions
                && final(g).macros == old(g).macros
            &&& function.body is Interpreted && function.sig.restarg is None ==> ({
                let locals = bind_params(
                    env.values_map(),
                    function.sig.arglist@,
                    call_values(eval_args_first, env, old(g), args@),
                    function.sig.arglist@.len() as int,
                );
                let body = function.body->Interpreted_0@;
                all_simple_in(locals, old(g), body) ==> r == Ok::<LispObject, ErrorWithStackTrace>(
                    simple_body_value_in(locals, old(g), body),
                ) && *final(g) == *old(g)
            })
        }),
        call_rel(*old(g), *env, *function, args@, eval_args_first, opt_hint(name_hint), depth as nat, *final(g), r),
    decreases depth, 1nat,
{
    let ghost args0 = args@;
    let args = if eval_args_first {
        if depth == 0 {
            return Err(depth_err(env));
        }
        match eval_args(g, env, &args, depth - 1) {
            Ok(a) => a,
            Err(e) => {
                proof {
                    assert(witness((*g, Err::<Seq<LispObject>, ErrorWithStackTrace>(e))));
                }
                return Err(e);
            },
        }
    } else {
        args
    };
    let ghost gm = *g;
    proof {
        assert(witness((gm, Ok::<Seq<LispObject>, ErrorWithStackTrace>(args@))));
    }
    let n = function.sig.arglist.len();
    let k = args.len();
    let has_rest = function.sig.restarg.is_some();
    if k < n || (!has_rest && k != n) {
        let name = match name_hint {
            Some(s) => s.name(),
            None => sig_to_text(&function.sig),
        };
        return Err(env.st_err(LispError::Arity(ArityError::new(n, k, has_rest, name))));
    }
    if depth == 0 {
        return Err(depth_err(env));
    }
    let mut frame_env = env.snapshot();
    let pushed = match name_hint {
        Some(s) => frame_env.push_stack_frame_name(s.clone()),
        None => frame_env.push_stack_frame_sig(function.sig.clone()),
    };
    if !pushed {
        return Err(depth_err(env));
    }
    assert(frame_env.stack_trace@ == seq![crate::semantics::frame_of(opt_hint(name_hint), *function)]
        + env.stack_trace@);
    match &function.body {
        FunctionBody::Native(op) => {
            let r = call_native(g, &frame_env, *op, &args, depth - 1);
            proof {
                assert(crate::semantics::frame_env_of(frame_env));
            }
            r
        },
        FunctionBody::Interpreted(body) => {
            let params = function.sig.arglist.rc_iter();
            let items = arg_values(&args);
            let mut i: usize = 0;
            while i < n
                invariant
                    frame_env.wf(),
                    n == params@.len(),
                    n <= items@.len(),
                    forall|j: int| 0 <= j < items@.len() ==> (#[trigger] items@[j]).wf(),
                    forall|j: int| 0 <= j < items@.len() ==> *items@[j] == args@[j],
                    forall|j: int| 0 <= j < params@.len() ==> *params@[j] == function.sig.arglist@[j],
                    i <= n,
                    frame_env.values_map() == bind_params(
                        env.values_map(),
                        function.sig.arglist@,
                        args@,
                        i as int,
                    ),
                    *g == gm,
                    frame_env.functions_map() == env.functions_map(),
                    frame_env.macros_map() == env.macros_map(),
                    frame_env.stack_trace@ == seq![crate::semantics::frame_of(opt_hint(name_hint), *function)]
                        + env.stack_trace@,
                decreases n - i,
            {
                assert(items@[i as int].wf());
                frame_env.set_local_value(&params[i], (*items[i]).clone());
                i = i + 1;
            }
            let rest_list = args.tailn(n);
            proof {
                lemma_tail_links_wf(&args, n as int);
            }
            match &function.sig.restarg {
                Some(rest) => {
                    frame_env.set_local_value(rest, LispObject::List(rest_list.clone()));
                },
                None => {},
            }
            let r = eval_body(g, &frame_env, body, depth - 1);
            proof {
                assert(crate::semantics::frame_env_of(frame_env));
                assert(witness(rest_list));
            }
            r
        },
    }
}

/// What calling `f` by the name `s` on simple argument forms with the values
/// `args` gives: the arity error when their count does not suit `f`; else,
/// for a body of simple forms and no rest parameter, the value of the last
/// form with the parameters bound over the caller's locals; for a primitive,
/// what it gives in the frame of the call.
pub open spec fn simple_call_post(
    f: Function,
    s: Seq<char>,
    args: Seq<LispObject>,
    r: EvalResult,
    t: StackTrace,
    depth: int,
    caller_locals: Map<Seq<char>, Binding>,
    g: &GlobalEnv,
) -> bool {
    if !arity_ok(f.sig.arglist@.len() as int, f.sig.restarg is Some, args.len() as int) {
        r is Err && is_arity_err(
            r->Err_0,
            f.sig.arglist@.len() as int,
            args.len() as int,
            f.sig.restarg is Some,
            t,
        ) && r->Err_0.err->Arity_0.fn_name@ == s
    } else {
        &&& depth > 0 && t@.len() < usize::MAX && f.body is Interpreted && f.sig.restarg is None
            ==> ({
            let locals = bind_params(caller_locals, f.sig.arglist@, args, f.sig.arglist@.len() as int);
            let body = f.body->Interpreted_0@;
            all_simple_in(locals, g, body) ==> r == Ok::<LispObject, ErrorWithStackTrace>(
                simple_body_value_in(locals, g, body),
            )
        })
    }
}

/// The argument values of a call: the values of simple forms when they are
/// evaluated, the forms themselves otherwise.
pub open spec fn call_values(eval_args_first: bool, env: &Env, g: &GlobalEnv, args: Seq<LispObject>) -> Seq<LispObject> {
    if eval_args_first {
        simple_values(env, g, args)
    } else {
        args
    }
}

/// Runs a primitive in the frame `env` that the call recorded.
fn call_native(g: &mut GlobalEnv, env: &Env, op: NativeFn, args: &List<LispObject>, depth: usize) -> (r: EvalResult)
    requires
        old(g).wf(),
        env.wf(),
        args.wf(),
        links_wf(args.head),
    ensures
        keeps(*old(g), *final(g)),
        ok_wf(r),
        native_rel(*old(g), *env, op, args@, depth as nat, *final(g), r),
    decreases depth, 6nat,
{
    let k = args.len();
    let (n, vararg): (usize, bool) = match op {
        NativeFn::Cons | NativeFn::Equal | NativeFn::Lt | NativeFn::Gt => (2, false),
        NativeFn::Add | NativeFn::Mul => (0, true),
        NativeFn::Sub => (1, true),
        NativeFn::Apply => (2, true),
        _ => (1, false),
    };
    if k < n || (!vararg && k != n) {
        return Err(env.st_err(LispError::Arity(ArityError::new(n, k, vararg, "native function".to_string()))));
    }
    match op {
        NativeFn::Cons => native_cons(env, args),
        NativeFn::First => native_first(env, args),
        NativeFn::Rest => native_rest(env, args),
        NativeFn::Equal => native_equal(args),
        NativeFn::Listp => native_listp(args),
        NativeFn::Emptyp => native_emptyp(env, args),
        NativeFn::Symbolp => native_symbolp(args),
        NativeFn::Add => native_add(env, args),
        NativeFn::Sub => native_sub(env, args),
        NativeFn::Mul => native_mul(env, args),
        NativeFn::Lt => native_compare(env, args, true),
        NativeFn::Gt => native_compare(env, args, false),
        NativeFn::Print => native_print(g, args, false),
        NativeFn::Println => native_print(g, args, true),
        NativeFn::StdoutWrite => native_stdout_write(g, env, args),
        NativeFn::Apply => native_apply(g, env, args, depth),
        NativeFn::Macroexpand1 => native_macroexpand_1(g, env, args, depth),
        NativeFn::SymbolFunction => native_symbol_function(g, env, args),
        NativeFn::RaiseError => native_raise_error(env, args),
    }
}

/// `(apply f x... l)`: calls `f` with `x...` followed by the elements of `l`.
fn native_apply(g: &mut GlobalEnv, env: &Env, args: &List<LispObject>, depth: usize) -> (r: EvalResult)
    requires
        old(g).wf(),
        env.wf(),
        args.wf(),
        links_wf(args.head),
        args@.len() >= 2,
    ensures
        keeps(*old(g), *final(g)),
        ok_wf(r),
        depth > 0 && !(args@[0] is Fn) ==> r is Err && is_cast_err(
            r->Err_0,
            args@[0],
            "Function"@,
            env.stack_trace,
        ) && *final(g) == *old(g),
        depth > 0 && args@[0] is Fn && !(args@.last() is List) ==> r is Err && is_cast_err(
            r->Err_0,
            args@.last(),
            "List"@,
            env.stack_trace,
        ) && *final(g) == *old(g),
        apply_rel(*old(g), *env, args@, depth as nat, *final(g), r),
    decreases depth, 5nat,
{
    if depth == 0 {
        return Err(depth_err(env));
    }
    let items = arg_values(args);
    let n = items.len();
    let f = match &*items[0] {
        LispObject::Fn(f) => f,
        _ => return Err(cast_err(env, &*items[0], "Function")),
    };
    let last = match &*items[n - 1] {
        LispObject::List(l) => l,
        _ => return Err(cast_err(env, &*items[n - 1], "List")),
    };
    proof {
        lemma_links_wf_elems(last.head);
    }
    let tail_items = last.rc_iter();
    let mut spread: Vec<LispObject> = Vec::new();
    let mut i: usize = 1;
    while i < n - 1
        invariant
            n == items@.len(),
            n >= 2,
            1 <= i <= n - 1,
            forall|j: int| 0 <= j < items@.len() ==> (#[trigger] items@[j]).wf(),
            forall|j: int| 0 <= j < spread@.len() ==> (#[trigger] spread@[j]).wf(),
            forall|j: int| 0 <= j < items@.len() ==> *items@[j] == args@[j],
            args@.len() == n,
            spread@ == args@.subrange(1, i as int),
        decreases n - 1 - i,
    {
        assert(items@[i as int].wf());
        let ghost before = spread@;
        let x = (*items[i]).clone();
        assert(x == args@[i as int]);
        spread.push(x);
        assert(spread@ == before.push(args@[i as int]));
        assert(spread@ =~= args@.subrange(1, i + 1));
        i = i + 1;
    }
    let mut j: usize = 0;
    assert(last@.take(0) =~= Seq::<LispObject>::empty());
    assert(args@.subrange(1, n - 1) + Seq::<LispObject>::empty() =~= args@.subrange(1, n - 1));
    while j < tail_items.len()
        invariant
            tail_items@.len() == last@.len(),
            forall|k: int| 0 <= k < tail_items@.len() ==> *tail_items@[k] == last@[k],
            forall|k: int| 0 <= k < last@.len() ==> (#[trigger] last@[k]).wf(),
            forall|k: int| 0 <= k < spread@.len() ==> (#[trigger] spread@[k]).wf(),
            j <= tail_items@.len(),
            args@.len() == n,
            n >= 2,
            spread@ == args@.subrange(1, n - 1) + last@.take(j as int),
        decreases tail_items.len() - j,
    {
        assert(last@[j as int].wf());
        spread.push((*tail_items[j]).clone());
        assert(spread@ =~= args@.subrange(1, n - 1) + last@.take(j + 1));
        j = j + 1;
    }
    assert(last@.take(j as int) =~= last@);
    let call_args = list_of(spread);
    call_function_object(g, env, f, call_args, false, None, depth - 1)
}

/// A non-empty list whose head is a symbol bound as a macro.
pub open spec fn is_macro_call(env: &Env, g: &GlobalEnv, o: LispObject) -> bool {
    &&& is_call(o)
    &&& call_head(o) is Symbol
    &&& env.macro_of(g, call_head(o)->Symbol_0@) is Some
}

/// `(macroexpand-1 x)`: one expansion step when `x` is a call of a macro,
/// otherwise `x` itself.
fn native_macroexpand_1(g: &mut GlobalEnv, env: &Env, args: &List<LispObject>, depth: usize) -> (r: EvalResult)
    requires
        old(g).wf(),
        env.wf(),
        args.wf(),
        links_wf(args.head),
        args@.len() == 1,
    ensures
        keeps(*old(g), *final(g)),
        ok_wf(r),
        depth > 0 && !is_macro_call(env, old(g), args@[0]) ==> r == Ok::<LispObject, ErrorWithStackTrace>(args@[0])
            && *final(g) == *old(g),
        mx1_rel(*old(g), *env, args@, depth as nat, *final(g), r),
    decreases depth, 5nat,
{
    if depth == 0 {
        return Err(depth_err(env));
    }
    let items = arg_values(args);
    let arg = &*items[0];
    match arg {
        LispObject::List(list) => {
            if list.is_empty() {
                return Ok(arg.clone());
            }
            proof {
                lemma_links_wf_elems(list.head);
            }
            match list.ufirst() {
                LispObject::Symbol(s) => match env.lookup_symbol_macro(g, s) {
                    Some(m) => {
                        let rest = list.tail();
                        proof {
                            lemma_tail_links_wf(list, 1);
                        }
                        call_function_object(g, env, &m, rest, false, Some(s), depth - 1)
                    },
                    None => Ok(arg.clone()),
                },
                _ => Ok(arg.clone()),
            }
        },
        _ => Ok(arg.clone()),
    }
}

/// Runs a special form on its unevaluated argument forms.
fn call_special(g: &mut GlobalEnv, env: &Env, sf: SpecialForm, args: &List<LispObject>, depth: usize) -> (r: EvalResult)
    requires
        old(g).wf(),
        env.wf(),
        args.wf(),
        links_wf(args.head),
    ensures
        keeps(*old(g), *final(g)),
        ok_wf(r),
        sf == SpecialForm::Quote ==> *final(g) == *old(g) && (if args@.len() == 1 {
            r == Ok::<LispObject, ErrorWithStackTrace>(args@[0])
        } else {
            r is Err && is_arity_err(r->Err_0, 1, args@.len() as int, false, env.stack_trace)
        }),
        sf == SpecialForm::Lambda ==> *final(g) == *old(g) && (r is Ok <==> lambda_error(args@)
            is None) && (r is Ok ==> r->Ok_0 is Fn && r->Ok_0->Fn_0.body is Interpreted),
        sf == SpecialForm::SetFn && r is Ok ==> r->Ok_0 == nil_obj() && args@.len() >= 2 && args@[0] is Symbol
            && function_in(final(g).functions_map(), args@[0]->Symbol_0@) is Some,
        sf == SpecialForm::SetMacroFn && r is Ok ==> r->Ok_0 == nil_obj() && args@.len() >= 2 && args@[0] is Symbol
            && function_in(final(g).macros_map(), args@[0]->Symbol_0@) is Some,
        sf == SpecialForm::If ==> (args@.len() < 2 ==> r is Err && r->Err_0.err is Syntax && *final(g) == *old(g)),
        sf == SpecialForm::If && simple_if(env, old(g), args@) is Some ==> r == Ok::<LispObject, ErrorWithStackTrace>(
            simple_if(env, old(g), args@)->0,
        ) && *final(g) == *old(g),
        sf == SpecialForm::Let && simple_let(env, old(g), args@) is Some ==> r == Ok::<LispObject, ErrorWithStackTrace>(
            simple_let(env, old(g), args@)->0,
        ) && *final(g) == *old(g),
        special_rel(*old(g), *env, sf, args@, depth as nat, *final(g), r),
    decreases depth, 6nat,
{
    match sf {
        SpecialForm::Quote => match parse_quote(args) {
            Ok(q) => Ok(q.0),
            Err(e) => Err(env.st_err(e)),
        },
        SpecialForm::Lambda => match parse_lambda(args) {
            Ok(p) => Ok(
                LispObject::Fn(Function::new_interpreted(p.name, p.simple_args, p.restarg, p.body)),
            ),
            Err(e) => Err(env.st_err(e)),
        },
        SpecialForm::If => if_form(g, env, args, depth),
        SpecialForm::Let => let_form(g, env, args, depth),
        SpecialForm::SetFn => set_fn(g, env, args, false, depth),
        SpecialForm::SetMacroFn => set_fn(g, env, args, true, depth),
    }
}

/// `(if c t [e])`: `t` when `c` is not `nil`, else `e` (or `nil`).
fn if_form(g: &mut GlobalEnv, env: &Env, args: &List<LispObject>, depth: usize) -> (r: EvalResult)
    requires
        old(g).wf(),
        env.wf(),
        args.wf(),
        links_wf(args.head),
    ensures
        keeps(*old(g), *final(g)),
        ok_wf(r),
        args@.len() == 0 ==> *final(g) == *old(g) && r is Err && is_syntax_err(
            r->Err_0,
            "no condition in if"@,
            env.stack_trace,
        ),
        args@.len() == 1 ==> *final(g) == *old(g) && r is Err && is_syntax_err(
            r->Err_0,
            "no then in if"@,
            env.stack_trace,
        ),
        simple_if(env, old(g), args@) matches Some(v) ==> r == Ok::<LispObject, ErrorWithStackTrace>(v)
            && *final(g) == *old(g),
        if_rel(*old(g), *env, args@, depth as nat, *final(g), r),
    decreases depth, 4nat,
{
    let items = arg_values(args);
    if items.len() == 0 {
        return Err(syntax_err(env, "no condition in if"));
    }
    if items.len() == 1 {
        return Err(syntax_err(env, "no then in if"));
    }
    assert(items@[0].wf());
    let cond = match eval(g, env, &*items[0], depth) {
        Ok(c) => c,
        Err(e) => {
            proof {
                assert(witness((*g, Err::<LispObject, ErrorWithStackTrace>(e))));
            }
            return Err(e);
        },
    };
    let ghost gm = *g;
    proof {
        assert(witness((gm, Ok::<LispObject, ErrorWithStackTrace>(cond))));
    }
    let is_nil = match &cond {
        LispObject::List(l) => l.is_empty(),
        _ => false,
    };
    if is_nil {
        if items.len() > 2 {
            assert(items@[2].wf());
            eval(g, env, &*items[2], depth)
        } else {
            Ok(LispObject::nil())
        }
    } else {
        assert(items@[1].wf());
        eval(g, env, &*items[1], depth)
    }
}

/// `(let ((s v)...) body...)`: binds each `s` in turn, later values seeing
/// earlier bindings, then runs the body.
fn let_form(g: &mut GlobalEnv, env: &Env, args: &List<LispObject>, depth: usize) -> (r: EvalResult)
    requires
        old(g).wf(),
        env.wf(),
        args.wf(),
        links_wf(args.head),
    ensures
        keeps(*old(g), *final(g)),
        ok_wf(r),
        crate::special::let_error(args@) is Some ==> *final(g) == *old(g) && r is Err
            && is_syntax_err(
            r->Err_0,
            crate::special::let_error(args@)->0,
            env.stack_trace,
        ),
        simple_let(env, old(g), args@) matches Some(v) ==> r == Ok::<LispObject, ErrorWithStackTrace>(v)
            && *final(g) == *old(g),
        let_rel(*old(g), *env, args@, depth as nat, *final(g), r),
    decreases depth, 5nat,
{
    let parsed = match parse_let(args) {
        Ok(p) => p,
        Err(e) => return Err(env.st_err(e)),
    };
    let mut new_env = env.snapshot();
    let mut i: usize = 0;
    assert(clauses_rel(*old(g), *env, args@[0]->List_0@, 0, depth as nat, *g, new_env, None));
    while i < parsed.bindings.len()
        invariant
            keeps(*old(g), *g),
            new_env.wf(),
            crate::special::let_error(args@) is None,
            forall|j: int| 0 <= j < parsed.bindings@.len() ==> (#[trigger] parsed.bindings@[j]).1.wf(),
            parsed.bindings@.len() == args@[0]->List_0@.len(),
            forall|j: int|
                0 <= j < parsed.bindings@.len() ==> (#[trigger] parsed.bindings@[j]).1
                    == crate::special::clause_value(args@[0]->List_0@[j]),
            forall|j: int|
                0 <= j < parsed.bindings@.len() ==> (#[trigger] parsed.bindings@[j]).0
                    == crate::special::clause_symbol(args@[0]->List_0@[j]),
            i <= parsed.bindings@.len(),
            let_bind(env.values_map(), old(g), args@[0]->List_0@, args@[0]->List_0@.len() as int) is Some
                ==> *g == *old(g) && let_bind(env.values_map(), old(g), args@[0]->List_0@, i as int)
                == Some(new_env.values_map()),
            clauses_rel(*old(g), *env, args@[0]->List_0@, i as nat, depth as nat, *g, new_env, None),
        decreases parsed.bindings.len() - i,
    {
        assert(parsed.bindings@[i as int].1.wf());
        proof {
            let bs = args@[0]->List_0@;
            if let_bind(env.values_map(), old(g), bs, bs.len() as int) is Some {
                lemma_let_bind_prefix(env.values_map(), old(g), bs, i + 1, bs.len() as int);
            }
        }
        let ghost acc = new_env.values_map();
        let ghost em = new_env;
        let ghost gb = *g;
        let val = match eval(g, &new_env, &parsed.bindings[i].1, depth) {
            Ok(v) => v,
            Err(e) => {
                proof {
                    let bs = args@[0]->List_0@;
                    assert(witness((gb, em, None::<ErrorWithStackTrace>)));
                    assert(witness(Err::<LispObject, ErrorWithStackTrace>(e)));
                    assert(clauses_rel(*old(g), *env, bs, (i + 1) as nat, depth as nat, *g, em, Some(e)));
                    lemma_clauses_err_extends(*old(g), *env, bs, (i + 1) as nat, bs.len(), depth as nat, *g, em, e);
                    assert(witness((*g, em, Some(e))));
                }
                return Err(e);
            },
        };
        new_env.set_local_value(&parsed.bindings[i].0, val);
        proof {
            let bs = args@[0]->List_0@;
            assert(witness((gb, em, None::<ErrorWithStackTrace>)));
            assert(witness(Ok::<LispObject, ErrorWithStackTrace>(val)));
            assert(clauses_rel(*old(g), *env, bs, (i + 1) as nat, depth as nat, *g, new_env, None));
        }
        proof {
            let bs = args@[0]->List_0@;
            if let_bind(env.values_map(), old(g), bs, bs.len() as int) is Some {
                let v = crate::special::clause_value(bs[i as int]);
                assert(let_bind(env.values_map(), old(g), bs, i + 1) is Some);
                assert(simple_in(acc, old(g), v));
                assert(val == simple_value_in(acc, old(g), v));
                assert(new_env.values_map() == acc.insert(
                    crate::special::clause_symbol(bs[i as int])@,
                    Binding::Value(simple_value_in(acc, old(g), v)),
                ));
            }
        }
        i = i + 1;
    }
    let ghost gc = *g;
    let r = eval_body(g, &new_env, &parsed.body, depth);
    proof {
        assert(witness((gc, new_env, None::<ErrorWithStackTrace>)));
    }
    r
}

/// `(set-fn s f)` and, with `as_macro`, `(set-macro-fn s f)`: evaluates `f`,
/// which must give a function, and binds `s` to it globally.
fn set_fn(g: &mut GlobalEnv, env: &Env, args: &List<LispObject>, as_macro: bool, depth: usize) -> (r: EvalResult)
    requires
        old(g).wf(),
        env.wf(),
        args.wf(),
        links_wf(args.head),
    ensures
        keeps(*old(g), *final(g)),
        ok_wf(r),
        r is Ok ==> r->Ok_0 == nil_obj(),
        r is Ok ==> args@.len() >= 2 && args@[0] is Symbol && (if as_macro {
            function_in(final(g).macros_map(), args@[0]->Symbol_0@)
        } else {
            function_in(final(g).functions_map(), args@[0]->Symbol_0@)
        }) is Some,
        args@.len() == 0 ==> *final(g) == *old(g) && r is Err && r->Err_0.err is Syntax,
        args@.len() >= 1 && !(args@[0] is Symbol) ==> *final(g) == *old(g) && r is Err
            && r->Err_0.err is Syntax,
        args@.len() == 1 ==> *final(g) == *old(g) && r is Err && r->Err_0.err is Syntax,
        set_fn_rel(*old(g), *env, args@, as_macro, depth as nat, *final(g), r),
    decreases depth, 4nat,
{
    let items = arg_values(args);
    if items.len() == 0 {
        return Err(syntax_err(env, if as_macro { "no symbol in set-macro-fn" } else { "no symbol in set-fn" }));
    }
    let sym = match &*items[0] {
        LispObject::Symbol(s) => s,
        _ => return Err(syntax_err(env, if as_macro { "not a symbol in set-macro-fn" } else { "not a symbol in set-fn" })),
    };
    if items.len() == 1 {
        return Err(syntax_err(env, if as_macro { "no function in set-macro-fn" } else { "no function in set-fn" }));
    }
    assert(items@[1].wf());
    let val = match eval(g, env, &*items[1], depth) {
        Ok(v) => v,
        Err(e) => {
            proof {
                assert(witness((*g, Err::<LispObject, ErrorWithStackTrace>(e))));
            }
            return Err(e);
        },
    };
    let ghost gm = *g;
    proof {
        assert(witness((gm, Ok::<LispObject, ErrorWithStackTrace>(val))));
    }
    match val {
        LispObject::Fn(f) => {
            if as_macro {
                g.set_global_macro(sym, f);
            } else {
                g.set_global_function(sym, f);
            }
            Ok(LispObject::nil())
        },
        _ => Err(cast_err(env, &val, "Function")),
    }
}

} // verus!
