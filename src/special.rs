//! The shapes of the special forms `quote`, `let` and `lambda`.

use crate::cons::{List, drop_front};
use crate::error::{ArityError, LispError, SyntaxError};
use crate::object::{LispObject, Symbol, lemma_links_wf_elems, links_wf};
use vstd::prelude::*;
use vstd::string::StringExecFns;

verus! {

/// The argument of a `quote` form.
pub struct ParsedQuote(pub LispObject);

/// `(quote x)` takes exactly one argument.
pub fn parse_quote(args: &List<LispObject>) -> (r: Result<ParsedQuote, LispError>)
    requires
        args.wf(),
        links_wf(args.head),
    ensures
        args@.len() == 1 ==> r is Ok && r->Ok_0.0 == args@[0],
        args@.len() != 1 ==> r is Err && r->Err_0 is Arity && r->Err_0->Arity_0.expected_args_count
            == 1 && r->Err_0->Arity_0.actual_args_count == args@.len()
            && !r->Err_0->Arity_0.is_vararg && r->Err_0->Arity_0.fn_name@ == "quote"@,
        r is Ok ==> r->Ok_0.0.wf(),
{
    if args.len() != 1 {
        return Err(LispError::Arity(ArityError::new(1, args.len(), false, "quote".to_string())));
    }
    proof {
        lemma_links_wf_elems(args.head);
    }
    Ok(ParsedQuote(args.ufirst().clone()))
}

/// The bindings and body of a `let` form.
pub struct ParsedLet {
    pub bindings: Vec<(Symbol, LispObject)>,
    pub body: List<LispObject>,
}

/// Why a binding clause of `let` is malformed, if it is.
pub open spec fn binding_error(b: LispObject) -> Option<Seq<char>> {
    if !(b is List) {
        Some("let binding is not a list"@)
    } else if b->List_0@.len() == 0 {
        Some("empty binding clause"@)
    } else if !(b->List_0@[0] is Symbol) {
        Some("not a symbol in binding clause"@)
    } else if b->List_0@.len() < 2 {
        Some("no value in binding clause"@)
    } else {
        None
    }
}

/// Why a `let` form with these arguments is malformed, if it is: the first fault found.
pub open spec fn let_error(args: Seq<LispObject>) -> Option<Seq<char>> {
    if args.len() == 0 {
        Some("no bindings in let"@)
    } else if !(args[0] is List) {
        Some("let bindings are not a list"@)
    } else {
        clauses_error(args[0]->List_0@)
    }
}

/// The fault of the first malformed clause, if any.
pub open spec fn clauses_error(bs: Seq<LispObject>) -> Option<Seq<char>>
    decreases bs.len(),
{
    if bs.len() == 0 {
        None
    } else {
        match binding_error(bs[0]) {
            Some(m) => Some(m),
            None => clauses_error(bs.skip(1)),
        }
    }
}

/// The symbol and value form of a well-formed binding clause.
pub open spec fn clause_symbol(b: LispObject) -> Symbol {
    b->List_0@[0]->Symbol_0
}

pub open spec fn clause_value(b: LispObject) -> LispObject {
    b->List_0@[1]
}

/// Splits `(let ((s v) ...) body...)` into its clauses and its body.
pub fn parse_let(args: &List<LispObject>) -> (r: Result<ParsedLet, LispError>)
    requires
        args.wf(),
        links_wf(args.head),
    ensures
        r is Ok <==> let_error(args@) is None,
        r is Err ==> r->Err_0 is Syntax && let_error(args@) == Some(r->Err_0->Syntax_0.message@),
        r is Ok ==> ({
            let bs = args@[0]->List_0@;
            &&& r->Ok_0.bindings@.len() == bs.len()
            &&& forall|i: int|
                0 <= i < bs.len() ==> (#[trigger] r->Ok_0.bindings@[i]).0 == clause_symbol(bs[i])
                    && r->Ok_0.bindings@[i].1 == clause_value(bs[i]) && r->Ok_0.bindings@[i].1.wf()
            &&& r->Ok_0.body@ == drop_front(args@, 1)
            &&& r->Ok_0.body.wf()
            &&& links_wf(r->Ok_0.body.head)
        }),
{
    proof {
        lemma_links_wf_elems(args.head);
    }
    let first = match args.first() {
        None => return Err(LispError::Syntax(SyntaxError::new("no bindings in let".to_string()))),
        Some(f) => f,
    };
    let clauses = match first {
        LispObject::List(l) => l,
        _ => return Err(LispError::Syntax(SyntaxError::new("let bindings are not a list".to_string()))),
    };
    proof {
        lemma_links_wf_elems(clauses.head);
    }
    let ghost bs = clauses@;
    let cv = clauses.rc_iter();
    let mut collected: Vec<(Symbol, LispObject)> = Vec::new();
    let mut i: usize = 0;
    assert(bs.skip(0) =~= bs);
    while i < cv.len()
        invariant
            bs == clauses@,
            args@.len() > 0,
            args@[0] is List,
            bs == args@[0]->List_0@,
            cv@.len() == bs.len(),
            forall|j: int| 0 <= j < cv@.len() ==> *cv@[j] == bs[j] && bs[j].wf(),
            i <= cv@.len(),
            clauses_error(bs) == clauses_error(bs.skip(i as int)),
            collected@.len() == i,
            forall|j: int|
                0 <= j < i ==> (#[trigger] collected@[j]).0 == clause_symbol(bs[j])
                    && collected@[j].1 == clause_value(bs[j]) && collected@[j].1.wf(),
        decreases cv.len() - i,
    {
        let ghost b = bs[i as int];
        assert(bs.skip(i as int)[0] == b);
        assert(bs.skip(i as int).skip(1) =~= bs.skip(i + 1));
        let msg: Option<&str>;
        match &*cv[i] {
            LispObject::List(cl) => {
                proof {
                    lemma_links_wf_elems(cl.head);
                }
                if cl.len() == 0 {
                    msg = Some("empty binding clause");
                } else {
                    match cl.ufirst() {
                        LispObject::Symbol(s) => {
                            if cl.len() < 2 {
                                msg = Some("no value in binding clause");
                            } else {
                                let rest = cl.tail();
                                let val = rest.ufirst().clone();
                                collected.push((s.clone(), val));
                                msg = None;
                            }
                        },
                        _ => {
                            msg = Some("not a symbol in binding clause");
                        },
                    }
                }
            },
            _ => {
                msg = Some("let binding is not a list");
            },
        }
        match msg {
            Some(m) => {
                assert(binding_error(b) == Some(m@));
                return Err(LispError::Syntax(SyntaxError::new(String::from_str(m))));
            },
            None => {},
        }
        i = i + 1;
    }
    assert(bs.skip(i as int) =~= Seq::<LispObject>::empty());
    let body = args.tail();
    proof {
        crate::native::lemma_tail_links_wf(args, 1);
    }
    Ok(ParsedLet { bindings: collected, body })
}

/// The parts of a `lambda` form.
pub struct ParsedLambda {
    pub name: Option<Symbol>,
    pub simple_args: List<Symbol>,
    pub restarg: Option<Symbol>,
    pub body: List<LispObject>,
}

/// The position of the first `&` among the parameters, or their count.
pub open spec fn amp_index(s: Seq<Symbol>) -> int
    decreases s.len(),
{
    if s.len() == 0 {
        0
    } else if s[0]@ == "&"@ {
        0
    } else {
        1 + amp_index(s.skip(1))
    }
}

/// A parameter list is well formed when `&` is absent, or stands once just
/// before the last parameter.
pub open spec fn arglist_ok(s: Seq<Symbol>) -> bool {
    let a = amp_index(s);
    a == s.len() || (a == s.len() - 2 && s.last()@ != "&"@)
}

/// No parameter before the first `&` is `&`, and the first `&` stands at `amp_index`.
proof fn lemma_amp_index(s: Seq<Symbol>)
    ensures
        0 <= amp_index(s) <= s.len(),
        forall|j: int| 0 <= j < amp_index(s) ==> (#[trigger] s[j])@ != "&"@,
        amp_index(s) < s.len() ==> s[amp_index(s)]@ == "&"@,
    decreases s.len(),
{
    if s.len() > 0 && s[0]@ != "&"@ {
        lemma_amp_index(s.skip(1));
        assert forall|j: int| 0 <= j < amp_index(s) implies (#[trigger] s[j])@ != "&"@ by {
            if j > 0 {
                assert(s[j] == s.skip(1)[j - 1]);
            }
        }
    }
}

/// Splits a parameter list at `&` into positional parameters and a rest parameter.
pub fn parse_arglist(arglist: Vec<Symbol>) -> (r: Result<(List<Symbol>, Option<Symbol>), LispError>)
    ensures
        r is Ok <==> arglist_ok(arglist@),
        r is Err ==> r->Err_0 is Syntax && r->Err_0->Syntax_0.message@
            == "wrong syntax near '&' in lambda"@,
        r is Ok ==> ({
            let a = amp_index(arglist@);
            &&& r->Ok_0.0.wf()
            &&& r->Ok_0.0@ == arglist@.take(a)
            &&& r->Ok_0.1 == if a == arglist@.len() {
                None
            } else {
                Some(arglist@.last())
            }
        }),
{
    proof {
        lemma_amp_index(arglist@);
    }
    let n = arglist.len();
    let mut i: usize = 0;
    while i < n && !arglist[i].is("&")
        invariant
            n == arglist@.len(),
            i <= n,
            i <= amp_index(arglist@),
            0 <= amp_index(arglist@) <= n,
            forall|j: int| 0 <= j < amp_index(arglist@) ==> (#[trigger] arglist@[j])@ != "&"@,
            amp_index(arglist@) < n ==> arglist@[amp_index(arglist@)]@ == "&"@,
        decreases n - i,
    {
        i = i + 1;
    }
    assert(i == amp_index(arglist@));
    let restarg: Option<Symbol>;
    if i == n {
        restarg = None;
    } else if n >= 2 && i == n - 2 && !arglist[n - 1].is("&") {
        restarg = Some(arglist[n - 1].clone());
    } else {
        return Err(LispError::Syntax(SyntaxError::new("wrong syntax near '&' in lambda".to_string())));
    }
    let mut simple: Vec<Symbol> = Vec::new();
    let mut k: usize = 0;
    while k < i
        invariant
            i <= n,
            n == arglist@.len(),
            k <= i,
            simple@ == arglist@.take(k as int),
        decreases i - k,
    {
        simple.push(arglist[k].clone());
        assert(arglist@.take(k + 1) =~= arglist@.take(k as int).push(arglist@[k as int]));
        k = k + 1;
    }
    Ok((List::from_rev_iter(simple), restarg))
}

/// Every element is a symbol.
pub open spec fn all_symbols(s: Seq<LispObject>) -> bool {
    forall|j: int| 0 <= j < s.len() ==> (#[trigger] s[j]) is Symbol
}

/// Why a `lambda` form with these arguments is malformed, if it is.
pub open spec fn lambda_error(args: Seq<LispObject>) -> Option<Seq<char>> {
    if args.len() == 0 || (args[0] is Symbol && args.len() < 2) {
        Some("no arglist in lambda"@)
    } else {
        let al = if args[0] is Symbol { args[1] } else { args[0] };
        if !(al is List) {
            Some("lambda arglist is not a list"@)
        } else if !all_symbols(al->List_0@) {
            Some("expected symbol in arglist"@)
        } else if !arglist_ok(al->List_0@.map_values(|o: LispObject| o->Symbol_0)) {
            Some("wrong syntax near '&' in lambda"@)
        } else {
            None
        }
    }
}

/// Splits `(lambda [name] (params...) body...)` into its parts.
pub fn parse_lambda(args: &List<LispObject>) -> (r: Result<ParsedLambda, LispError>)
    requires
        args.wf(),
        links_wf(args.head),
    ensures
        r is Ok <==> lambda_error(args@) is None,
        r is Err ==> r->Err_0 is Syntax && lambda_error(args@) == Some(r->Err_0->Syntax_0.message@),
        r is Ok ==> ({
            let named = args@[0] is Symbol;
            let al = (if named { args@[1] } else { args@[0] })->List_0@.map_values(
                |o: LispObject| o->Symbol_0,
            );
            let a = amp_index(al);
            &&& r->Ok_0.name == if named { Some(args@[0]->Symbol_0) } else { None }
            &&& r->Ok_0.simple_args.wf()
            &&& r->Ok_0.simple_args@ == al.take(a)
            &&& r->Ok_0.restarg == if a == al.len() { None } else { Some(al.last()) }
            &&& r->Ok_0.body@ == drop_front(args@, if named { 2 } else { 1 })
            &&& r->Ok_0.body.wf()
            &&& links_wf(r->Ok_0.body.head)
        }),
{
    proof {
        lemma_links_wf_elems(args.head);
    }
    if args.len() == 0 {
        return Err(LispError::Syntax(SyntaxError::new("no arglist in lambda".to_string())));
    }
    let name: Option<Symbol>;
    let arglist: &LispObject;
    let body: List<LispObject>;
    let av = args.rc_iter();
    match &*av[0] {
        LispObject::Symbol(s) => {
            if args.len() < 2 {
                return Err(LispError::Syntax(SyntaxError::new("no arglist in lambda".to_string())));
            }
            name = Some(s.clone());
            arglist = &*av[1];
            body = args.tailn(2);
            proof {
                crate::native::lemma_tail_links_wf(args, 2);
            }
        },
        _ => {
            name = None;
            arglist = &*av[0];
            body = args.tail();
            proof {
                crate::native::lemma_tail_links_wf(args, 1);
            }
        },
    }
    let al = match arglist {
        LispObject::List(l) => l,
        _ => return Err(LispError::Syntax(SyntaxError::new("lambda arglist is not a list".to_string()))),
    };
    let ghost als = al@;
    let items = al.rc_iter();
    let mut syms: Vec<Symbol> = Vec::new();
    let mut i: usize = 0;
    while i < items.len()
        invariant
            als == al@,
            args@.len() > 0,
            args@[0] is Symbol ==> args@.len() >= 2 && args@[1] == *arglist,
            !(args@[0] is Symbol) ==> args@[0] == *arglist,
            *arglist == LispObject::List(*al),
            items@.len() == als.len(),
            forall|j: int| 0 <= j < items@.len() ==> *items@[j] == als[j],
            i <= items@.len(),
            syms@.len() == i,
            forall|j: int| 0 <= j < i ==> (#[trigger] als[j]) is Symbol && syms@[j] == als[j]->Symbol_0,
        decreases items.len() - i,
    {
        match &*items[i] {
            LispObject::Symbol(s) => {
                syms.push(s.clone());
            },
            _ => {
                assert(!(als[i as int] is Symbol));
                return Err(LispError::Syntax(SyntaxError::new("expected symbol in arglist".to_string())));
            },
        }
        i = i + 1;
    }
    assert(syms@ =~= als.map_values(|o: LispObject| o->Symbol_0));
    let (simple_args, restarg) = match parse_arglist(syms) {
        Ok(p) => p,
        Err(e) => return Err(e),
    };
    Ok(ParsedLambda { name, simple_args, restarg, body })
}

} // verus!
