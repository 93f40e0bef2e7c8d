//! The built-in primitives that need no evaluation of their own.

use crate::cons::{List, drop_front, link_view};
use crate::env::{Env, GlobalEnv};
use crate::error::{
    CastError, ErrorWithStackTrace, EvalResult, GenericError, LispError, UndefinedSymbol, is_cast_err,
    is_generic_err, is_undefined_err,
};
use crate::object::{LispObject, NativeFn, obj_eq, links_wf, lemma_links_wf_elems, objects_equal};
use crate::print::{render, to_text};
use std::rc::Rc;
use vstd::prelude::*;
use vstd::string::StringExecFns;

verus! {

/// The empty list.
pub open spec fn nil_obj() -> LispObject {
    LispObject::List(List { head: None, length: 0 })
}

/// `t` for true, `nil` for false.
pub open spec fn bool_obj(b: bool) -> LispObject {
    if b {
        LispObject::T
    } else {
        nil_obj()
    }
}

/// The number of positional parameters of a primitive, and whether it takes more.
pub open spec fn native_arity(op: NativeFn) -> (int, bool) {
    match op {
        NativeFn::Cons | NativeFn::Equal | NativeFn::Lt | NativeFn::Gt => (2, false),
        NativeFn::Add | NativeFn::Mul => (0, true),
        NativeFn::Sub => (1, true),
        NativeFn::Apply => (2, true),
        _ => (1, false),
    }
}

/// Whether `k` arguments suit a callee with `n` positional parameters.
pub open spec fn arity_ok(n: int, vararg: bool, k: int) -> bool {
    if vararg {
        k >= n
    } else {
        k == n
    }
}

/// The first `i` arguments are integers.
pub open spec fn ints_upto(s: Seq<LispObject>, i: int) -> bool {
    forall|j: int| 0 <= j < i ==> (#[trigger] s[j]) is Integer
}

/// `r` is the cast error for the first argument that is not an integer.
pub open spec fn first_non_int_err(s: Seq<LispObject>, r: EvalResult, t: crate::env::StackTrace) -> bool {
    &&& r is Err
    &&& exists|i: int|
        #![trigger s[i]]
        0 <= i < s.len() && ints_upto(s, i) && !(s[i] is Integer) && is_cast_err(
            r->Err_0,
            s[i],
            "i64"@,
            t,
        )
}

/// The integer held by an integer value.
pub open spec fn int_of(o: LispObject) -> i64 {
    o->Integer_0
}

/// The sum of integer values, wrapping on overflow.
pub open spec fn wsum(s: Seq<LispObject>) -> i64
    decreases s.len(),
{
    if s.len() == 0 {
        0
    } else {
        wsum(s.drop_last()).wrapping_add(int_of(s.last()))
    }
}

/// The product of integer values, wrapping on overflow.
pub open spec fn wprod(s: Seq<LispObject>) -> i64
    decreases s.len(),
{
    if s.len() == 0 {
        1
    } else {
        wprod(s.drop_last()).wrapping_mul(int_of(s.last()))
    }
}

/// The first integer minus each of the others in turn, wrapping on overflow.
pub open spec fn wdiff(s: Seq<LispObject>) -> i64
    decreases s.len(),
{
    if s.len() <= 1 {
        int_of(s[0])
    } else {
        wdiff(s.drop_last()).wrapping_sub(int_of(s.last()))
    }
}

/// The sum of the arguments, or the cast error for the first that is not an integer.
pub open spec fn add_post(s: Seq<LispObject>, r: EvalResult, t: crate::env::StackTrace) -> bool {
    if ints_upto(s, s.len() as int) {
        r == Ok::<LispObject, ErrorWithStackTrace>(LispObject::Integer(wsum(s)))
    } else {
        first_non_int_err(s, r, t)
    }
}

/// The product of the arguments, or the cast error for the first that is not an integer.
pub open spec fn mul_post(s: Seq<LispObject>, r: EvalResult, t: crate::env::StackTrace) -> bool {
    if ints_upto(s, s.len() as int) {
        r == Ok::<LispObject, ErrorWithStackTrace>(LispObject::Integer(wprod(s)))
    } else {
        first_non_int_err(s, r, t)
    }
}

/// One argument negated, or the first minus the others; or the cast error.
pub open spec fn sub_post(s: Seq<LispObject>, r: EvalResult, t: crate::env::StackTrace) -> bool {
    if ints_upto(s, s.len() as int) {
        if s.len() == 1 {
            r == Ok::<LispObject, ErrorWithStackTrace>(
                LispObject::Integer(0i64.wrapping_sub(int_of(s[0]))),
            )
        } else {
            r == Ok::<LispObject, ErrorWithStackTrace>(LispObject::Integer(wdiff(s)))
        }
    } else {
        first_non_int_err(s, r, t)
    }
}

/// `t` when the first of two integers is the smaller (`less`) or the greater.
pub open spec fn compare_post(s: Seq<LispObject>, less: bool, r: EvalResult, t: crate::env::StackTrace) -> bool {
    if ints_upto(s, 2) {
        r == Ok::<LispObject, ErrorWithStackTrace>(
            bool_obj(
                if less {
                    int_of(s[0]) < int_of(s[1])
                } else {
                    int_of(s[0]) > int_of(s[1])
                },
            ),
        )
    } else {
        first_non_int_err(s, r, t)
    }
}

/// Builds a boolean value.
pub fn lisp_bool(b: bool) -> (r: LispObject)
    ensures
        r == bool_obj(b),
        r.wf(),
{
    if b {
        LispObject::T
    } else {
        LispObject::List(List { head: None, length: 0 })
    }
}

/// The cast error for `x` and the type named `to`, in the frame of `env`.
pub fn cast_err(env: &Env, x: &LispObject, to: &str) -> (e: ErrorWithStackTrace)
    ensures
        is_cast_err(e, *x, to@, env.stack_trace),
{
    env.st_err(LispError::Cast(CastError::new(to_text(x), to.to_string())))
}

/// The elements of a well-formed list, each well formed.
pub(crate) fn arg_values(args: &List<LispObject>) -> (r: Vec<Rc<LispObject>>)
    requires
        args.wf(),
        links_wf(args.head),
    ensures
        r@.len() == args@.len(),
        forall|i: int| 0 <= i < r@.len() ==> *r@[i] == args@[i] && (#[trigger] r@[i]).wf(),
{
    proof {
        lemma_links_wf_elems(args.head);
    }
    args.rc_iter()
}

/// `(+ x...)`: the sum of the arguments.
pub fn native_add(env: &Env, args: &List<LispObject>) -> (r: EvalResult)
    requires
        args.wf(),
        links_wf(args.head),
    ensures
        add_post(args@, r, env.stack_trace),
{
    let v = arg_values(args);
    let ghost s = args@;
    let mut res: i64 = 0;
    let mut i: usize = 0;
    while i < v.len()
        invariant
            s == args@,
            v@.len() == s.len(),
            forall|j: int| 0 <= j < v@.len() ==> *v@[j] == s[j],
            i <= v@.len(),
            ints_upto(s, i as int),
            res == wsum(s.subrange(0, i as int)),
        decreases v.len() - i,
    {
        match &*v[i] {
            LispObject::Integer(x) => {
                assert(s.subrange(0, i + 1).drop_last() =~= s.subrange(0, i as int));
                res = res.wrapping_add(*x);
                i = i + 1;
            },
            _ => {
                let e = cast_err(env, &*v[i], "i64");
                assert(is_cast_err(e, s[i as int], "i64"@, env.stack_trace));
                assert(!(s[i as int] is Integer));
                assert(!ints_upto(s, s.len() as int));
                let r: EvalResult = Err(e);
                assert(first_non_int_err(s, r, env.stack_trace));
                return r;
            },
        }
    }
    assert(s.subrange(0, i as int) =~= s);
    Ok(LispObject::Integer(res))
}

/// `(* x...)`: the product of the arguments.
pub fn native_mul(env: &Env, args: &List<LispObject>) -> (r: EvalResult)
    requires
        args.wf(),
        links_wf(args.head),
    ensures
        mul_post(args@, r, env.stack_trace),
{
    let v = arg_values(args);
    let ghost s = args@;
    let mut res: i64 = 1;
    let mut i: usize = 0;
    while i < v.len()
        invariant
            s == args@,
            v@.len() == s.len(),
            forall|j: int| 0 <= j < v@.len() ==> *v@[j] == s[j],
            i <= v@.len(),
            ints_upto(s, i as int),
            res == wprod(s.subrange(0, i as int)),
        decreases v.len() - i,
    {
        match &*v[i] {
            LispObject::Integer(x) => {
                assert(s.subrange(0, i + 1).drop_last() =~= s.subrange(0, i as int));
                res = res.wrapping_mul(*x);
                i = i + 1;
            },
            _ => {
                let e = cast_err(env, &*v[i], "i64");
                assert(is_cast_err(e, s[i as int], "i64"@, env.stack_trace));
                assert(!(s[i as int] is Integer));
                assert(!ints_upto(s, s.len() as int));
                let r: EvalResult = Err(e);
                assert(first_non_int_err(s, r, env.stack_trace));
                return r;
            },
        }
    }
    assert(s.subrange(0, i as int) =~= s);
    Ok(LispObject::Integer(res))
}

/// `(- x y...)`: `x` negated when alone, else `x` minus each of the others.
pub fn native_sub(env: &Env, args: &List<LispObject>) -> (r: EvalResult)
    requires
        args.wf(),
        links_wf(args.head),
        args@.len() >= 1,
    ensures
        sub_post(args@, r, env.stack_trace),
{
    let v = arg_values(args);
    let ghost s = args@;
    let mut res: i64 = 0;
    let mut i: usize = 0;
    while i < v.len()
        invariant
            s == args@,
            v@.len() == s.len(),
            s.len() >= 1,
            forall|j: int| 0 <= j < v@.len() ==> *v@[j] == s[j],
            i <= v@.len(),
            ints_upto(s, i as int),
            i >= 1 ==> res == wdiff(s.subrange(0, i as int)),
        decreases v.len() - i,
    {
        match &*v[i] {
            LispObject::Integer(x) => {
                if i == 0 {
                    res = *x;
                } else {
                    assert(s.subrange(0, i + 1).drop_last() =~= s.subrange(0, i as int));
                    res = res.wrapping_sub(*x);
                }
                i = i + 1;
            },
            _ => {
                let e = cast_err(env, &*v[i], "i64");
                assert(is_cast_err(e, s[i as int], "i64"@, env.stack_trace));
                assert(!(s[i as int] is Integer));
                assert(!ints_upto(s, s.len() as int));
                let r: EvalResult = Err(e);
                assert(first_non_int_err(s, r, env.stack_trace));
                return r;
            },
        }
    }
    assert(s.subrange(0, i as int) =~= s);
    if v.len() == 1 {
        Ok(LispObject::Integer(0i64.wrapping_sub(res)))
    } else {
        Ok(LispObject::Integer(res))
    }
}

/// `(< x y)` when `less`, else `(> x y)`.
pub fn native_compare(env: &Env, args: &List<LispObject>, less: bool) -> (r: EvalResult)
    requires
        args.wf(),
        links_wf(args.head),
        args@.len() == 2,
    ensures
        compare_post(args@, less, r, env.stack_trace),
        r is Ok ==> r->Ok_0.wf(),
{
    let v = arg_values(args);
    let ghost s = args@;
    match &*v[0] {
        LispObject::Integer(x) => match &*v[1] {
            LispObject::Integer(y) => {
                if less {
                    Ok(lisp_bool(*x < *y))
                } else {
                    Ok(lisp_bool(*x > *y))
                }
            },
            _ => {
                let e = cast_err(env, &*v[1], "i64");
                assert(ints_upto(s, 1));
                assert(is_cast_err(e, s[1], "i64"@, env.stack_trace));
                Err(e)
            },
        },
        _ => {
            let e = cast_err(env, &*v[0], "i64");
            assert(ints_upto(s, 0));
            assert(is_cast_err(e, s[0], "i64"@, env.stack_trace));
            Err(e)
        },
    }
}

/// `(cons x l)`: `x` in front of the elements of the list `l`; a cast error
/// when `l` is not a list.
pub open spec fn cons_post(s: Seq<LispObject>, r: EvalResult, t: crate::env::StackTrace) -> bool {
    &&& s[1] is List && s[1]->List_0@.len() < usize::MAX ==> is_list_result(r, seq![s[0]] + s[1]->List_0@)
    &&& s[1] is List && s[1]->List_0@.len() >= usize::MAX ==> r is Err
    &&& !(s[1] is List) ==> r is Err && is_cast_err(r->Err_0, s[1], "List"@, t)
}

/// `(first l)`: the head of a non-empty list; a generic error on `nil`.
pub open spec fn first_post(s: Seq<LispObject>, r: EvalResult, t: crate::env::StackTrace) -> bool {
    &&& s[0] is List && s[0]->List_0@.len() > 0 ==> r == Ok::<LispObject, ErrorWithStackTrace>(s[0]->List_0@[0])
    &&& s[0] is List && s[0]->List_0@.len() == 0 ==> r is Err && is_generic_err(
        r->Err_0,
        "cannot do first on empty list"@,
        t,
    )
    &&& !(s[0] is List) ==> r is Err && is_cast_err(r->Err_0, s[0], "List"@, t)
}

/// `(rest l)`: the list without its head.
pub open spec fn rest_post(s: Seq<LispObject>, r: EvalResult, t: crate::env::StackTrace) -> bool {
    &&& s[0] is List ==> is_list_result(r, drop_front(s[0]->List_0@, 1))
    &&& !(s[0] is List) ==> r is Err && is_cast_err(r->Err_0, s[0], "List"@, t)
}

/// `(emptyp l)`: whether the list is empty.
pub open spec fn emptyp_post(s: Seq<LispObject>, r: EvalResult, t: crate::env::StackTrace) -> bool {
    &&& s[0] is List ==> r == Ok::<LispObject, ErrorWithStackTrace>(bool_obj(s[0]->List_0@.len() == 0))
    &&& !(s[0] is List) ==> r is Err && is_cast_err(r->Err_0, s[0], "List"@, t)
}

/// `r` is a list value with these elements.
pub open spec fn is_list_result(r: EvalResult, v: Seq<LispObject>) -> bool {
    &&& r is Ok
    &&& r->Ok_0 is List
    &&& r->Ok_0->List_0@ == v
}

/// The outputs after writing `text`: one more chunk, holding that text.
pub open spec fn output_appended(before: Seq<String>, after: Seq<String>, text: Seq<char>) -> bool {
    &&& after.len() == before.len() + 1
    &&& after.take(before.len() as int) == before
    &&& after.last()@ == text
}

/// `(cons x l)`: `x` in front of the elements of the list `l`.
pub fn native_cons(env: &Env, args: &List<LispObject>) -> (r: EvalResult)
    requires
        args.wf(),
        links_wf(args.head),
        args@.len() == 2,
    ensures
        r is Ok ==> r->Ok_0.wf(),
        cons_post(args@, r, env.stack_trace),
{
    let v = arg_values(args);
    match &*v[1] {
        LispObject::List(l) => {
            if l.len() == usize::MAX {
                return Err(env.st_err(LispError::Generic(GenericError::new("list is too long".to_string()))));
            }
            let item: LispObject = (*v[0]).clone();
            let out = l.cons(item);
            proof {
                lemma_links_wf_elems(l.head);
                assert forall|i: int| 0 <= i < link_view(out.head).len() implies (#[trigger] link_view(out.head)[i]).wf() by {
                    if i > 0 {
                        assert(link_view(out.head)[i] == l@[i - 1]);
                    }
                }
                lemma_links_wf_from_elems(out.head);
            }
            Ok(LispObject::List(out))
        },
        _ => Err(cast_err(env, &*v[1], "List")),
    }
}

/// `(first l)`: the head of a non-empty list.
pub fn native_first(env: &Env, args: &List<LispObject>) -> (r: EvalResult)
    requires
        args.wf(),
        links_wf(args.head),
        args@.len() == 1,
    ensures
        r is Ok ==> r->Ok_0.wf(),
        first_post(args@, r, env.stack_trace),
{
    let v = arg_values(args);
    match &*v[0] {
        LispObject::List(l) => {
            proof {
                lemma_links_wf_elems(l.head);
            }
            match l.first() {
                Some(x) => Ok(x.clone()),
                None => Err(env.st_err(LispError::Generic(GenericError::new("cannot do first on empty list".to_string())))),
            }
        },
        _ => Err(cast_err(env, &*v[0], "List")),
    }
}

/// `(rest l)`: the list without its head; the rest of `nil` is `nil`.
pub fn native_rest(env: &Env, args: &List<LispObject>) -> (r: EvalResult)
    requires
        args.wf(),
        links_wf(args.head),
        args@.len() == 1,
    ensures
        r is Ok ==> r->Ok_0.wf(),
        rest_post(args@, r, env.stack_trace),
{
    let v = arg_values(args);
    match &*v[0] {
        LispObject::List(l) => {
            let t = l.tail();
            proof {
                lemma_tail_links_wf(l, 1);
            }
            Ok(LispObject::List(t))
        },
        _ => Err(cast_err(env, &*v[0], "List")),
    }
}

/// The cells after the first `n` of a well-formed chain are well formed.
pub proof fn lemma_tail_links_wf(l: &List<LispObject>, n: int)
    requires
        l.wf(),
        links_wf(l.head),
        0 <= n,
    ensures
        forall|t: List<LispObject>| t.wf() && #[trigger] t@ == drop_front(l@, n) ==> links_wf(t.head),
{
    assert forall|t: List<LispObject>| t.wf() && #[trigger] t@ == drop_front(l@, n) implies links_wf(t.head) by {
        lemma_links_wf_elems(l.head);
        assert forall|i: int| 0 <= i < link_view(t.head).len() implies (#[trigger] link_view(t.head)[i]).wf() by {
            assert(link_view(t.head)[i] == l@[i + n]);
        }
        lemma_links_wf_from_elems(t.head);
    }
}

/// A chain whose elements are all well formed is well formed.
pub proof fn lemma_links_wf_from_elems(l: crate::cons::Link<LispObject>)
    requires
        forall|i: int| 0 <= i < link_view(l).len() ==> (#[trigger] link_view(l)[i]).wf(),
    ensures
        links_wf(l),
    decreases l,
{
    if l is Some {
        let t = l->0.tail;
        assert forall|i: int| 0 <= i < link_view(t).len() implies (#[trigger] link_view(t)[i]).wf() by {
            assert(link_view(t)[i] == link_view(l)[i + 1]);
        }
        lemma_links_wf_from_elems(t);
        assert(link_view(l)[0] == *l->0.elem);
    }
}

/// `(equal x y)`: `t` when the values are structurally equal.
pub fn native_equal(args: &List<LispObject>) -> (r: EvalResult)
    requires
        args.wf(),
        links_wf(args.head),
        args@.len() == 2,
    ensures
        r == Ok::<LispObject, ErrorWithStackTrace>(bool_obj(obj_eq(args@[0], args@[1]))),
        r->Ok_0.wf(),
{
    let v = arg_values(args);
    Ok(lisp_bool(objects_equal(&*v[0], &*v[1])))
}

/// `(listp x)`: `t` when `x` is a list.
pub fn native_listp(args: &List<LispObject>) -> (r: EvalResult)
    requires
        args.wf(),
        links_wf(args.head),
        args@.len() == 1,
    ensures
        r == Ok::<LispObject, ErrorWithStackTrace>(bool_obj(args@[0] is List)),
        r->Ok_0.wf(),
{
    let v = arg_values(args);
    Ok(lisp_bool(matches!(&*v[0], LispObject::List(_))))
}

/// `(symbolp x)`: `t` when `x` is a symbol (`nil` and `t` are not).
pub fn native_symbolp(args: &List<LispObject>) -> (r: EvalResult)
    requires
        args.wf(),
        links_wf(args.head),
        args@.len() == 1,
    ensures
        r == Ok::<LispObject, ErrorWithStackTrace>(bool_obj(args@[0] is Symbol)),
        r->Ok_0.wf(),
{
    let v = arg_values(args);
    Ok(lisp_bool(matches!(&*v[0], LispObject::Symbol(_))))
}

/// `(emptyp l)`: `t` when the list `l` is empty.
pub fn native_emptyp(env: &Env, args: &List<LispObject>) -> (r: EvalResult)
    requires
        args.wf(),
        links_wf(args.head),
        args@.len() == 1,
    ensures
        r is Ok ==> r->Ok_0.wf(),
        emptyp_post(args@, r, env.stack_trace),
{
    let v = arg_values(args);
    match &*v[0] {
        LispObject::List(l) => Ok(lisp_bool(l.is_empty())),
        _ => Err(cast_err(env, &*v[0], "List")),
    }
}

/// `(print x)` and, with `newline`, `(println x)`: writes the rendering of `x`
/// and gives `x` back.
pub fn native_print(g: &mut GlobalEnv, args: &List<LispObject>, newline: bool) -> (r: EvalResult)
    requires
        args.wf(),
        links_wf(args.head),
        args@.len() == 1,
    ensures
        r == Ok::<LispObject, ErrorWithStackTrace>(args@[0]),
        r->Ok_0.wf(),
        output_appended(
            old(g).output@,
            final(g).output@,
            render(args@[0]) + if newline { "\n"@ } else { Seq::empty() },
        ),
        final(g).values == old(g).values,
        final(g).functions == old(g).functions,
        final(g).macros == old(g).macros,
        final(g).specials == old(g).specials,
        final(g).max_depth == old(g).max_depth,
{
    let v = arg_values(args);
    let mut text = to_text(&*v[0]);
    if newline {
        text.append("\n");
    }
    g.output.push(text);
    assert(g.output@.take(old(g).output@.len() as int) =~= old(g).output@);
    Ok((*v[0]).clone())
}

/// `(stdout-write s)`: writes the text of the string `s` as it is.
pub fn native_stdout_write(g: &mut GlobalEnv, env: &Env, args: &List<LispObject>) -> (r: EvalResult)
    requires
        args.wf(),
        links_wf(args.head),
        args@.len() == 1,
    ensures
        r is Ok ==> r->Ok_0.wf(),
        args@[0] is String ==> r == Ok::<LispObject, ErrorWithStackTrace>(nil_obj())
            && output_appended(old(g).output@, final(g).output@, args@[0]->String_0@),
        !(args@[0] is String) ==> r is Err && is_cast_err(r->Err_0, args@[0], "String"@, env.stack_trace)
            && final(g).output == old(g).output,
        final(g).values == old(g).values,
        final(g).functions == old(g).functions,
        final(g).macros == old(g).macros,
        final(g).specials == old(g).specials,
        final(g).max_depth == old(g).max_depth,
{
    let v = arg_values(args);
    match &*v[0] {
        LispObject::String(s) => {
            g.output.push(s.clone());
            assert(g.output@.take(old(g).output@.len() as int) =~= old(g).output@);
            Ok(lisp_bool(false))
        },
        _ => Err(cast_err(env, &*v[0], "String")),
    }
}

/// `(symbol-function s)`: the function bound to the symbol `s`.
pub fn native_symbol_function(g: &GlobalEnv, env: &Env, args: &List<LispObject>) -> (r: EvalResult)
    requires
        g.wf(),
        env.wf(),
        args.wf(),
        links_wf(args.head),
        args@.len() == 1,
    ensures
        r is Ok ==> r->Ok_0.wf(),
        args@[0] is Symbol ==> match env.function_of(g, args@[0]->Symbol_0@) {
            Some(f) => r == Ok::<LispObject, ErrorWithStackTrace>(LispObject::Fn(f)),
            None => r is Err && is_undefined_err(
                r->Err_0,
                args@[0]->Symbol_0@,
                true,
                env.stack_trace,
            ),
        },
        !(args@[0] is Symbol) ==> r is Err && is_cast_err(r->Err_0, args@[0], "Symbol"@, env.stack_trace),
{
    let v = arg_values(args);
    match &*v[0] {
        LispObject::Symbol(s) => match env.lookup_symbol_function(g, s) {
            Some(f) => Ok(LispObject::Fn(f)),
            None => Err(env.st_err(LispError::UndefinedSymbol(UndefinedSymbol::new(s.name(), true)))),
        },
        _ => Err(cast_err(env, &*v[0], "Symbol")),
    }
}

/// `(error s)`: raises a generic error with the text of `s`, whose trace
/// leaves out the frame of `error` itself.
pub fn native_raise_error(env: &Env, args: &List<LispObject>) -> (r: EvalResult)
    requires
        env.wf(),
        args.wf(),
        links_wf(args.head),
        args@.len() == 1,
    ensures
        r is Err,
        args@[0] is String ==> r->Err_0.err is Generic && r->Err_0.err->Generic_0.message@
            == args@[0]->String_0@ && r->Err_0.stack_trace@ == drop_front(env.stack_trace@, 1),
        !(args@[0] is String) ==> is_cast_err(r->Err_0, args@[0], "String"@, env.stack_trace),
{
    let v = arg_values(args);
    match &*v[0] {
        LispObject::String(s) => {
            let mut err = env.st_err(LispError::Generic(GenericError::new(s.clone())));
            err.stack_trace = err.stack_trace.tail();
            Err(err)
        },
        _ => Err(cast_err(env, &*v[0], "String")),
    }
}

} // verus!
