//! Rewrites forms by running user macros until none stands at a head,
//! leaving quoted data and binding positions as they are.

use crate::cons::{List, drop_front};
use crate::env::{Env, GlobalEnv};
use crate::error::{ErrorWithStackTrace, EvalResult, is_arity_err};
use crate::eval::{
    call_args, call_function_object, list_of, call_head, is_call, is_depth_err, keeps,
    ok_wf,
};
use crate::native::{lemma_tail_links_wf, nil_obj};
use crate::object::{LispObject, is_self_evaluating, lemma_links_wf_elems, links_wf};
use crate::special::{parse_lambda, parse_let, parse_quote};
use crate::eval::args_result;
use crate::semantics::{
    lemma_mxc_err_extends, lemma_mxc_step, lemma_mxl_err_extends, lemma_mxl_step, mx_clauses_rel,
    mx_rel, mxl_rel, witness,
};
use vstd::prelude::*;

verus! {

/// A value that expansion leaves alone: a symbol or a self-evaluating value.
pub open spec fn is_atom(o: LispObject) -> bool {
    is_self_evaluating(o) || o is Symbol
}

/// Every element is an atom.
pub open spec fn all_atoms(s: Seq<LispObject>) -> bool {
    forall|i: int| 0 <= i < s.len() ==> is_atom(#[trigger] s[i])
}

/// A call made of atoms whose head is not `quote`, `lambda`, `let` or a macro.
pub open spec fn plain_call(env: &Env, g: &GlobalEnv, form: LispObject) -> bool {
    &&& is_call(form)
    &&& all_atoms(form->List_0@)
    &&& call_head(form) is Symbol ==> {
        let s = call_head(form)->Symbol_0@;
        s != "quote"@ && s != "lambda"@ && s != "let"@ && env.macro_of(g, s) is None
    }
}

/// A list with the elements of a plain call is itself a plain call. With the
/// `ensures` of `macroexpand_all`, which leaves a plain call's elements as they
/// are, expanding it twice gives the elements of expanding it once. This says
/// nothing of other forms: it is not idempotence in general.
pub proof fn lemma_plain_call_expansion_is_stable(env: &Env, g: &GlobalEnv, form: LispObject, out: LispObject)
    requires
        plain_call(env, g, form),
        out is List,
        out->List_0@ == form->List_0@,
    ensures
        plain_call(env, g, out),
{
}

/// Expands each element of a list.
fn macroexpand_list(g: &mut GlobalEnv, env: &Env, list: &List<LispObject>, depth: usize) -> (r: Result<
    List<LispObject>,
    ErrorWithStackTrace,
>)
    requires
        old(g).wf(),
        env.wf(),
        list.wf(),
        links_wf(list.head),
    ensures
        keeps(*old(g), *final(g)),
        r is Ok ==> r->Ok_0.wf() && links_wf(r->Ok_0.head) && r->Ok_0@.len() == list@.len(),
        all_atoms(list@) ==> r is Ok && r->Ok_0@ == list@ && *final(g) == *old(g),
        mxl_rel(*old(g), *env, list@, depth as nat, *final(g), args_result(r)),
    decreases depth, 3nat,
{
    proof {
        lemma_links_wf_elems(list.head);
    }
    let items = list.rc_iter();
    let mut out: Vec<LispObject> = Vec::new();
    let mut i: usize = 0;
    assert(list@.take(0) =~= Seq::<LispObject>::empty());
    while i < items.len()
        invariant
            keeps(*old(g), *g),
            env.wf(),
            items@.len() == list@.len(),
            forall|j: int| 0 <= j < items@.len() ==> *items@[j] == list@[j],
            forall|j: int| 0 <= j < list@.len() ==> (#[trigger] list@[j]).wf(),
            i <= items@.len(),
            out@.len() == i,
            forall|j: int| 0 <= j < out@.len() ==> (#[trigger] out@[j]).wf(),
            all_atoms(list@) ==> *g == *old(g) && out@ == list@.take(i as int),
            mxl_rel(*old(g), *env, list@.take(i as int), depth as nat, *g, Ok::<Seq<LispObject>, ErrorWithStackTrace>(out@)),
        decreases items.len() - i,
    {
        assert(list@[i as int].wf());
        let ghost gb = *g;
        let ghost ob = out@;
        let ghost f2 = list@.take(i + 1);
        assert(f2.drop_last() =~= list@.take(i as int));
        assert(f2.last() == list@[i as int]);
        let v = match macroexpand_all(g, env, &*items[i], depth) {
            Ok(v) => v,
            Err(e) => {
                proof {
                    lemma_mxl_step(*old(g), *env, f2, depth as nat, gb, ob, *g, Err(e));
                    lemma_mxl_err_extends(*old(g), *env, list@, i + 1, depth as nat, *g, e);
                }
                return Err(e);
            },
        };
        proof {
            lemma_mxl_step(*old(g), *env, f2, depth as nat, gb, ob, *g, Ok(v));
        }
        out.push(v);
        proof {
            if all_atoms(list@) {
                assert(is_atom(list@[i as int]));
                assert(out@ =~= list@.take(i + 1));
            }
        }
        i = i + 1;
    }
    proof {
        if all_atoms(list@) {
            assert(out@ =~= list@);
        }
        assert(list@.take(i as int) =~= list@);
    }
    Ok(list_of(out))
}

/// Expands every macro call in a form.
///
/// Atoms and `nil` stay as they are; a `quote` form is checked and kept
/// whole; in `lambda` and `let` forms only the code positions are expanded;
/// a call of a macro is replaced by the macro's result, which is expanded
/// again; any other list has each element expanded.
pub fn macroexpand_all(g: &mut GlobalEnv, env: &Env, form: &LispObject, depth: usize) -> (r: EvalResult)
    requires
        old(g).wf(),
        env.wf(),
        form.wf(),
    ensures
        keeps(*old(g), *final(g)),
        ok_wf(r),
        is_self_evaluating(*form) || form is Symbol ==> r == Ok::<LispObject, ErrorWithStackTrace>(*form)
            && *final(g) == *old(g),
        form.is_nil() ==> r == Ok::<LispObject, ErrorWithStackTrace>(nil_obj()) && *final(g)
            == *old(g),
        is_call(*form) && call_head(*form) is Symbol && call_head(*form)->Symbol_0@ == "quote"@
            ==> *final(g) == *old(g) && if call_args(*form).len() == 1 {
            r == Ok::<LispObject, ErrorWithStackTrace>(*form)
        } else {
            r is Err && is_arity_err(r->Err_0, 1, call_args(*form).len() as int, false, env.stack_trace)
        },
        is_call(*form) && !(call_head(*form) is Symbol && call_head(*form)->Symbol_0@ == "quote"@)
            && depth == 0 ==> *final(g) == *old(g) && r is Err && is_depth_err(r->Err_0, env.stack_trace),
        plain_call(env, old(g), *form) && depth > 0 ==> r is Ok && r->Ok_0 is List
            && r->Ok_0->List_0@ == form->List_0@ && *final(g) == *old(g),
        mx_rel(*old(g), *env, *form, depth as nat, *final(g), r),
    decreases depth, 2nat,
{
    match form {
        LispObject::T | LispObject::Integer(_) | LispObject::String(_) | LispObject::Fn(_)
        | LispObject::Symbol(_) => Ok(form.clone()),
        LispObject::List(list) => {
            if list.is_empty() {
                return Ok(LispObject::nil());
            }
            proof {
                lemma_links_wf_elems(list.head);
            }
            let args = list.tail();
            proof {
                lemma_tail_links_wf(list, 1);
            }
            let head = list.ufirst();
            proof {
                reveal_strlit("let");
                reveal_strlit("lambda");
                reveal_strlit("quote");
                assert("let"@[0] != "quote"@[0]);
                assert("lambda"@[0] != "quote"@[0]);
                assert("let"@[1] != "lambda"@[1]);
            }
            if let LispObject::Symbol(s) = head {
                if s.is("quote") {
                    return match parse_quote(&args) {
                        Ok(_) => Ok(form.clone()),
                        Err(e) => Err(env.st_err(e)),
                    };
                }
            }
            if depth == 0 {
                return Err(crate::eval::depth_error(env));
            }
            match head {
                LispObject::Symbol(s) => {
                    if s.is("lambda") {
                        let parsed = match parse_lambda(&args) {
                            Ok(p) => p,
                            Err(e) => return Err(env.st_err(e)),
                        };
                        let body = match macroexpand_list(g, env, &parsed.body, depth - 1) {
                            Ok(b) => b,
                            Err(e) => {
                                proof {
                                    assert(witness(Err::<Seq<LispObject>, ErrorWithStackTrace>(e)));
                                }
                                return Err(e);
                            },
                        };
                        proof {
                            assert(witness(Ok::<Seq<LispObject>, ErrorWithStackTrace>(body@)));
                        }
                        let items = list.rc_iter();
                        let keep: usize = if parsed.name.is_some() { 3 } else { 2 };
                        assert(keep as int == crate::semantics::lambda_keep(args@));
                        assert(list@.len() >= keep);
                        let body_items = body.rc_iter();
                        proof {
                            lemma_links_wf_elems(body.head);
                        }
                        let mut out: Vec<LispObject> = Vec::new();
                        let mut i: usize = 0;
                        while i < keep && i < items.len()
                            invariant
                                items@.len() == list@.len(),
                                forall|j: int| 0 <= j < items@.len() ==> *items@[j] == list@[j],
                                forall|j: int| 0 <= j < list@.len() ==> (#[trigger] list@[j]).wf(),
                                forall|j: int| 0 <= j < out@.len() ==> (#[trigger] out@[j]).wf(),
                                i <= keep,
                                keep <= list@.len(),
                                out@ == list@.take(i as int),
                            decreases keep - i,
                        {
                            assert(list@[i as int].wf());
                            out.push((*items[i]).clone());
                            assert(out@ =~= list@.take(i + 1));
                            i = i + 1;
                        }
                        assert(out@ =~= list@.take(keep as int) + body@.take(0));
                        let mut j: usize = 0;
                        while j < body_items.len()
                            invariant
                                body_items@.len() == body@.len(),
                                forall|k: int| 0 <= k < body_items@.len() ==> *body_items@[k] == body@[k],
                                forall|k: int| 0 <= k < body@.len() ==> (#[trigger] body@[k]).wf(),
                                forall|k: int| 0 <= k < out@.len() ==> (#[trigger] out@[k]).wf(),
                                j <= body_items@.len(),
                                out@ == list@.take(keep as int) + body@.take(j as int),
                            decreases body_items.len() - j,
                        {
                            assert(body@[j as int].wf());
                            out.push((*body_items[j]).clone());
                            assert(out@ =~= list@.take(keep as int) + body@.take(j + 1));
                            j = j + 1;
                        }
                        assert(body@.take(j as int) =~= body@);
                        return Ok(LispObject::List(list_of(out)));
                    }
                    if s.is("let") {
                        let parsed = match parse_let(&args) {
                            Ok(p) => p,
                            Err(e) => return Err(env.st_err(e)),
                        };
                        let body = match macroexpand_list(g, env, &parsed.body, depth - 1) {
                            Ok(b) => b,
                            Err(e) => {
                                proof {
                                    assert(witness((*g, Err::<Seq<LispObject>, ErrorWithStackTrace>(e))));
                                }
                                return Err(e);
                            },
                        };
                        let ghost gm = *g;
                        proof {
                            assert(witness((gm, Ok::<Seq<LispObject>, ErrorWithStackTrace>(body@))));
                        }
                        let ghost bs = args@[0]->List_0@;
                        let ghost mut vals: Seq<LispObject> = Seq::empty();
                        let mut clauses: Vec<LispObject> = Vec::new();
                        let mut i: usize = 0;
                        while i < parsed.bindings.len()
                            invariant
                                keeps(*old(g), *g),
                                env.wf(),
                                depth > 0,
                                is_call(*form),
                                call_head(*form) is Symbol,
                                call_head(*form)->Symbol_0@ == "let"@,
                                "let"@ != "quote"@,
                                forall|k: int| 0 <= k < parsed.bindings@.len() ==> (#[trigger] parsed.bindings@[k]).1.wf(),
                                forall|k: int| 0 <= k < clauses@.len() ==> (#[trigger] clauses@[k]).wf(),
                                bs == args@[0]->List_0@,
                                parsed.bindings@.len() == bs.len(),
                                forall|j: int|
                                    0 <= j < parsed.bindings@.len() ==> (#[trigger] parsed.bindings@[j]).1
                                        == crate::special::clause_value(bs[j]),
                                forall|j: int|
                                    0 <= j < parsed.bindings@.len() ==> (#[trigger] parsed.bindings@[j]).0
                                        == crate::special::clause_symbol(bs[j]),
                                i <= parsed.bindings@.len(),
                                clauses@.len() == i,
                                vals.len() == i,
                                forall|k: int|
                                    0 <= k < i ==> (#[trigger] clauses@[k]) is List && clauses@[k]->List_0@
                                        == seq![LispObject::Symbol(crate::special::clause_symbol(bs[k])), vals[k]],
                                mx_clauses_rel(gm, *env, bs, i as nat, (depth - 1) as nat, *g, Ok::<Seq<LispObject>, ErrorWithStackTrace>(vals)),
                                crate::special::let_error(args@) is None,
                                args@ == call_args(*form),
                                "let"@ != "lambda"@,
                                mxl_rel(*old(g), *env, drop_front(args@, 1), (depth - 1) as nat, gm, Ok::<Seq<LispObject>, ErrorWithStackTrace>(body@)),
                            decreases parsed.bindings.len() - i,
                        {
                            assert(parsed.bindings@[i as int].1.wf());
                            let ghost gb = *g;
                            let v = match macroexpand_all(g, env, &parsed.bindings[i].1, depth - 1) {
                                Ok(v) => v,
                                Err(e) => {
                                    proof {
                                        lemma_mxc_step(gm, *env, bs, (i + 1) as nat, (depth - 1) as nat, gb, vals, *g, Err(e));
                                        lemma_mxc_err_extends(gm, *env, bs, (i + 1) as nat, bs.len(), (depth - 1) as nat, *g, e);
                                        assert(witness(Err::<Seq<LispObject>, ErrorWithStackTrace>(e)));
                                        assert(witness((gm, Ok::<Seq<LispObject>, ErrorWithStackTrace>(body@))));
                                    }
                                    return Err(e);
                                },
                            };
                            proof {
                                lemma_mxc_step(gm, *env, bs, (i + 1) as nat, (depth - 1) as nat, gb, vals, *g, Ok(v));
                            }
                            let mut clause: Vec<LispObject> = Vec::new();
                            clause.push(LispObject::Symbol(parsed.bindings[i].0.clone()));
                            clause.push(v);
                            assert(clause@[0].wf());
                            let cl = list_of(clause);
                            assert(cl@ =~= seq![LispObject::Symbol(crate::special::clause_symbol(bs[i as int])), v]);
                            clauses.push(LispObject::List(cl));
                            proof {
                                vals = vals.push(v);
                            }
                            i = i + 1;
                        }
                        proof {
                            assert(witness(Ok::<Seq<LispObject>, ErrorWithStackTrace>(vals)));
                        }
                        let mut out: Vec<LispObject> = Vec::new();
                        out.push(head.clone());
                        let cls = list_of(clauses);
                        out.push(LispObject::List(cls));
                        assert(out@.len() == 2);
                        let body_items = body.rc_iter();
                        proof {
                            lemma_links_wf_elems(body.head);
                        }
                        let mut j: usize = 0;
                        while j < body_items.len()
                            invariant
                                body_items@.len() == body@.len(),
                                forall|k: int| 0 <= k < body_items@.len() ==> *body_items@[k] == body@[k],
                                forall|k: int| 0 <= k < body@.len() ==> (#[trigger] body@[k]).wf(),
                                forall|k: int| 0 <= k < out@.len() ==> (#[trigger] out@[k]).wf(),
                                j <= body_items@.len(),
                                out@.len() == 2 + j,
                                out@[0] == *head,
                                out@[1] == LispObject::List(cls),
                                out@.skip(2) == body@.take(j as int),
                            decreases body_items.len() - j,
                        {
                            assert(body@[j as int].wf());
                            out.push((*body_items[j]).clone());
                            assert(out@.skip(2) =~= body@.take(j + 1));
                            j = j + 1;
                        }
                        assert(body@.take(j as int) =~= body@);
                        return Ok(LispObject::List(list_of(out)));
                    }
                    match env.lookup_symbol_macro(g, s) {
                        Some(m) => {
                            let expanded = match call_function_object(g, env, &m, args, false, Some(s), depth - 1) {
                                Ok(x) => x,
                                Err(e) => {
                                    proof {
                                        assert(witness((*g, Err::<LispObject, ErrorWithStackTrace>(e))));
                                    }
                                    return Err(e);
                                },
                            };
                            let ghost gm = *g;
                            proof {
                                assert(witness((gm, Ok::<LispObject, ErrorWithStackTrace>(expanded))));
                            }
                            macroexpand_all(g, env, &expanded, depth - 1)
                        },
                        None => {
                            let l = match macroexpand_list(g, env, list, depth - 1) {
                                Ok(l) => l,
                                Err(e) => {
                                    proof {
                                        assert(witness(Err::<Seq<LispObject>, ErrorWithStackTrace>(e)));
                                    }
                                    return Err(e);
                                },
                            };
                            proof {
                                assert(witness(Ok::<Seq<LispObject>, ErrorWithStackTrace>(l@)));
                            }
                            Ok(LispObject::List(l))
                        },
                    }
                },
                _ => {
                    let l = match macroexpand_list(g, env, list, depth - 1) {
                        Ok(l) => l,
                        Err(e) => {
                            proof {
                                assert(witness(Err::<Seq<LispObject>, ErrorWithStackTrace>(e)));
                            }
                            return Err(e);
                        },
                    };
                    proof {
                        assert(witness(Ok::<Seq<LispObject>, ErrorWithStackTrace>(l@)));
                    }
                    Ok(LispObject::List(l))
                },
            }
        },
    }
}


} // verus!
