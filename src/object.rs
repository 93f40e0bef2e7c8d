//! The runtime values of the language: symbols, functions and objects.

use crate::cons::{Link, List};
use std::rc::Rc;
use vstd::prelude::*;

verus! {

/// An identifier; two symbols are the same symbol when their names are.
pub struct Symbol(pub Rc<String>);

impl View for Symbol {
    type V = Seq<char>;

    open spec fn view(&self) -> Seq<char> {
        (*self.0)@
    }
}

impl Symbol {
    /// A symbol with the given name.
    pub fn new(s: &str) -> (r: Symbol)
        ensures
            r@ == s@,
    {
        Symbol(Rc::new(s.to_string()))
    }

    /// A symbol that takes over the given name.
    pub fn from_string(s: String) -> (r: Symbol)
        ensures
            r@ == s@,
    {
        Symbol(Rc::new(s))
    }

    /// The name of the symbol.
    pub fn name(&self) -> (r: String)
        ensures
            r@ == self@,
    {
        (*self.0).clone()
    }

    /// Whether two symbols have the same name.
    pub fn same(&self, o: &Symbol) -> (r: bool)
        ensures
            r == (self@ == o@),
    {
        *self.0 == *o.0
    }

    /// Whether the symbol is named `s`.
    pub fn is(&self, s: &str) -> (r: bool)
        ensures
            r == (self@ == s@),
    {
        let t = s.to_string();
        *self.0 == t
    }
}

impl Clone for Symbol {
    fn clone(&self) -> (r: Self)
        ensures
            r == *self,
    {
        Symbol(Rc::clone(&self.0))
    }
}

/// Clones an optional symbol exactly.
pub fn clone_opt_symbol(s: &Option<Symbol>) -> (r: Option<Symbol>)
    ensures
        r == *s,
{
    match s {
        None => None,
        Some(x) => Some(x.clone()),
    }
}

/// The built-in primitives that a native function runs.
#[derive(Clone, Copy, PartialEq, Eq, Structural, Debug)]
pub enum NativeFn {
    Cons,
    First,
    Rest,
    Equal,
    Listp,
    Emptyp,
    Symbolp,
    Add,
    Sub,
    Mul,
    Lt,
    Gt,
    Print,
    Println,
    StdoutWrite,
    Apply,
    Macroexpand1,
    SymbolFunction,
    RaiseError,
}

/// The special forms, whose arguments reach the handler unevaluated.
#[derive(Clone, Copy, PartialEq, Eq, Structural, Debug)]
pub enum SpecialForm {
    Quote,
    If,
    Let,
    Lambda,
    SetFn,
    SetMacroFn,
}

/// What runs when a function is called.
pub enum FunctionBody {
    Interpreted(List<LispObject>),
    Native(NativeFn),
}

/// The name and parameters of a function.
pub struct FunctionSignature {
    pub name: Option<Symbol>,
    pub arglist: List<Symbol>,
    pub restarg: Option<Symbol>,
}

/// A first-class function: its signature and its body.
pub struct Function {
    pub sig: FunctionSignature,
    pub body: FunctionBody,
}

/// A value of the language; code is made of the same values.
pub enum LispObject {
    T,
    Symbol(Symbol),
    Integer(i64),
    String(String),
    List(List<LispObject>),
    Fn(Function),
}

impl FunctionSignature {
    pub open spec fn wf(&self) -> bool {
        self.arglist.wf()
    }

    /// A signature from its parts.
    pub fn new(name: Option<Symbol>, arglist: List<Symbol>, restarg: Option<Symbol>) -> (r: Self)
        ensures
            r.name == name,
            r.arglist == arglist,
            r.restarg == restarg,
    {
        FunctionSignature { name, arglist, restarg }
    }
}

impl Clone for FunctionSignature {
    fn clone(&self) -> (r: Self)
        ensures
            r == *self,
    {
        FunctionSignature {
            name: clone_opt_symbol(&self.name),
            arglist: self.arglist.clone(),
            restarg: clone_opt_symbol(&self.restarg),
        }
    }
}

impl Clone for FunctionBody {
    fn clone(&self) -> (r: Self)
        ensures
            r == *self,
    {
        match self {
            FunctionBody::Interpreted(l) => FunctionBody::Interpreted(l.clone()),
            FunctionBody::Native(n) => FunctionBody::Native(*n),
        }
    }
}

impl Clone for Function {
    fn clone(&self) -> (r: Self)
        ensures
            r == *self,
    {
        Function { sig: self.sig.clone(), body: self.body.clone() }
    }
}

impl Clone for LispObject {
    fn clone(&self) -> (r: Self)
        ensures
            r == *self,
    {
        match self {
            LispObject::T => LispObject::T,
            LispObject::Symbol(s) => LispObject::Symbol(s.clone()),
            LispObject::Integer(i) => LispObject::Integer(*i),
            LispObject::String(s) => LispObject::String(s.clone()),
            LispObject::List(l) => LispObject::List(l.clone()),
            LispObject::Fn(f) => LispObject::Fn(f.clone()),
        }
    }
}

impl Function {
    pub open spec fn wf(&self) -> bool {
        &&& self.sig.wf()
        &&& match self.body {
            FunctionBody::Interpreted(l) => l.wf(),
            FunctionBody::Native(_) => true,
        }
    }

    /// A function whose body is a sequence of forms.
    pub fn new_interpreted(
        name: Option<Symbol>,
        arglist: List<Symbol>,
        restarg: Option<Symbol>,
        body: List<LispObject>,
    ) -> (r: Self)
        ensures
            r.sig.name == name,
            r.sig.arglist == arglist,
            r.sig.restarg == restarg,
            r.body == FunctionBody::Interpreted(body),
    {
        Function {
            sig: FunctionSignature::new(name, arglist, restarg),
            body: FunctionBody::Interpreted(body),
        }
    }

    /// A function whose body is a primitive.
    pub fn new_native(
        name: Option<Symbol>,
        arglist: List<Symbol>,
        restarg: Option<Symbol>,
        body: NativeFn,
    ) -> (r: Self)
        ensures
            r.sig.name == name,
            r.sig.arglist == arglist,
            r.sig.restarg == restarg,
            r.body == FunctionBody::Native(body),
    {
        Function { sig: FunctionSignature::new(name, arglist, restarg), body: FunctionBody::Native(body) }
    }
}

impl LispObject {
    /// The empty list, which is also false.
    pub fn nil() -> (r: Self)
        ensures
            r.is_nil(),
            r.wf(),
    {
        LispObject::List(List::empty())
    }

    pub open spec fn is_nil(&self) -> bool {
        self is List && self->List_0@.len() == 0
    }

    /// Every list inside the value keeps its length right.
    pub open spec fn wf(&self) -> bool
        decreases self,
    {
        match self {
            LispObject::List(l) => l.wf() && links_wf(l.head),
            LispObject::Fn(f) => fn_wf(*f),
            _ => true,
        }
    }
}

/// A function whose parameter list and body are well formed.
pub open spec fn fn_wf(f: Function) -> bool
    decreases f,
{
    &&& f.wf()
    &&& match f.body {
        FunctionBody::Interpreted(l) => links_wf(l.head),
        FunctionBody::Native(_) => true,
    }
}

/// Every element of the chain is well formed.
pub open spec fn links_wf(l: Link<LispObject>) -> bool
    decreases l,
{
    match l {
        None => true,
        Some(c) => (*c.elem).wf() && links_wf(c.tail),
    }
}

/// Every element of a well-formed chain is well formed.
pub proof fn lemma_links_wf_elems(l: Link<LispObject>)
    requires
        links_wf(l),
    ensures
        forall|i: int|
            0 <= i < crate::cons::link_view(l).len() ==> (#[trigger] crate::cons::link_view(l)[i]).wf(),
    decreases l,
{
    if l is Some {
        let t = l->0.tail;
        lemma_links_wf_elems(t);
        assert forall|i: int| 0 <= i < crate::cons::link_view(l).len() implies (
        #[trigger] crate::cons::link_view(l)[i]).wf() by {
            if i > 0 {
                assert(crate::cons::link_view(l)[i] == crate::cons::link_view(t)[i - 1]);
            }
        }
    }
}

/// Whether a value evaluates to itself.
pub open spec fn is_self_evaluating(o: LispObject) -> bool {
    o is T || o is Integer || o is String || o is Fn
}

/// Structural equality of values, as the `equal` primitive decides it.
pub open spec fn obj_eq(a: LispObject, b: LispObject) -> bool
    decreases a,
{
    match (a, b) {
        (LispObject::T, LispObject::T) => true,
        (LispObject::Integer(x), LispObject::Integer(y)) => x == y,
        (LispObject::String(x), LispObject::String(y)) => x@ == y@,
        (LispObject::Symbol(x), LispObject::Symbol(y)) => x@ == y@,
        (LispObject::List(x), LispObject::List(y)) => link_eq(x.head, y.head),
        (LispObject::Fn(f), LispObject::Fn(g)) => fn_eq(f, g),
        _ => false,
    }
}

/// Element-wise equality of two chains.
pub open spec fn link_eq(a: Link<LispObject>, b: Link<LispObject>) -> bool
    decreases a,
{
    match (a, b) {
        (None, None) => true,
        (Some(x), Some(y)) => obj_eq(*x.elem, *y.elem) && link_eq(x.tail, y.tail),
        _ => false,
    }
}

/// The names of a list of symbols.
pub open spec fn names(l: List<Symbol>) -> Seq<Seq<char>> {
    l@.map_values(|s: Symbol| s@)
}

/// The name of an optional symbol.
pub open spec fn opt_name(s: Option<Symbol>) -> Option<Seq<char>> {
    match s {
        None => None,
        Some(x) => Some(x@),
    }
}

/// Two signatures name the same function with the same parameters.
pub open spec fn sig_eq(a: FunctionSignature, b: FunctionSignature) -> bool {
    &&& opt_name(a.name) == opt_name(b.name)
    &&& names(a.arglist) == names(b.arglist)
    &&& opt_name(a.restarg) == opt_name(b.restarg)
}

/// Equal signatures and the same body: equal forms, or the same primitive.
pub open spec fn fn_eq(a: Function, b: Function) -> bool
    decreases a,
{
    &&& sig_eq(a.sig, b.sig)
    &&& match (a.body, b.body) {
        (FunctionBody::Interpreted(x), FunctionBody::Interpreted(y)) => link_eq(x.head, y.head),
        (FunctionBody::Native(x), FunctionBody::Native(y)) => x == y,
        _ => false,
    }
}

} // verus!

verus! {

/// The names of the symbols of a chain.
pub open spec fn link_names(l: Link<Symbol>) -> Seq<Seq<char>> {
    crate::cons::link_view(l).map_values(|s: Symbol| s@)
}

fn symbol_links_equal(a: &Link<Symbol>, b: &Link<Symbol>) -> (r: bool)
    ensures
        r == (link_names(*a) == link_names(*b)),
    decreases a,
{
    match a {
        None => match b {
            None => true,
            Some(_) => {
                assert(link_names(*b).len() > 0);
                false
            },
        },
        Some(ca) => match b {
            None => {
                assert(link_names(*a).len() > 0);
                false
            },
            Some(cb) => {
                assert(link_names(*a) =~= seq![(*ca.elem)@] + link_names(ca.tail));
                assert(link_names(*b) =~= seq![(*cb.elem)@] + link_names(cb.tail));
                if !ca.elem.same(&cb.elem) {
                    assert(link_names(*a)[0] != link_names(*b)[0]);
                    return false;
                }
                let t = symbol_links_equal(&ca.tail, &cb.tail);
                if !t {
                    assert(link_names(ca.tail) =~= link_names(*a).skip(1));
                    assert(link_names(cb.tail) =~= link_names(*b).skip(1));
                }
                t
            },
        },
    }
}

fn opt_symbols_equal(a: &Option<Symbol>, b: &Option<Symbol>) -> (r: bool)
    ensures
        r == (opt_name(*a) == opt_name(*b)),
{
    match a {
        None => b.is_none(),
        Some(x) => match b {
            None => false,
            Some(y) => x.same(y),
        },
    }
}

/// Whether two signatures name the same function with the same parameters.
pub fn signatures_equal(a: &FunctionSignature, b: &FunctionSignature) -> (r: bool)
    ensures
        r == sig_eq(*a, *b),
{
    opt_symbols_equal(&a.name, &b.name) && symbol_links_equal(&a.arglist.head, &b.arglist.head)
        && opt_symbols_equal(&a.restarg, &b.restarg)
}

/// Whether two functions are equal: equal signatures, and equal body forms or
/// the same primitive.
pub fn functions_equal(a: &Function, b: &Function) -> (r: bool)
    ensures
        r == fn_eq(*a, *b),
    decreases a,
{
    if !signatures_equal(&a.sig, &b.sig) {
        return false;
    }
    match &a.body {
        FunctionBody::Interpreted(x) => match &b.body {
            FunctionBody::Interpreted(y) => links_equal(&x.head, &y.head),
            FunctionBody::Native(_) => false,
        },
        FunctionBody::Native(x) => match &b.body {
            FunctionBody::Interpreted(_) => false,
            FunctionBody::Native(y) => *x == *y,
        },
    }
}

/// Element-wise equality of two chains of values.
pub fn links_equal(a: &Link<LispObject>, b: &Link<LispObject>) -> (r: bool)
    ensures
        r == link_eq(*a, *b),
    decreases a,
{
    match a {
        None => b.is_none(),
        Some(ca) => match b {
            None => false,
            Some(cb) => objects_equal(&ca.elem, &cb.elem) && links_equal(&ca.tail, &cb.tail),
        },
    }
}

/// Structural equality of two values, as the `equal` primitive decides it.
pub fn objects_equal(a: &LispObject, b: &LispObject) -> (r: bool)
    ensures
        r == obj_eq(*a, *b),
    decreases a,
{
    match a {
        LispObject::T => matches!(b, LispObject::T),
        LispObject::Integer(x) => match b {
            LispObject::Integer(y) => *x == *y,
            _ => false,
        },
        LispObject::String(x) => match b {
            LispObject::String(y) => *x == *y,
            _ => false,
        },
        LispObject::Symbol(x) => match b {
            LispObject::Symbol(y) => x.same(y),
            _ => false,
        },
        LispObject::List(x) => match b {
            LispObject::List(y) => links_equal(&x.head, &y.head),
            _ => false,
        },
        LispObject::Fn(f) => match b {
            LispObject::Fn(g) => functions_equal(f, g),
            _ => false,
        },
    }
}

} // verus!

verus! {

/// The first element of a non-empty chain.
pub open spec fn head_of(l: Link<LispObject>) -> LispObject {
    *l->0.elem
}

/// The chain after the first cell of a non-empty chain.
pub open spec fn rest_of(l: Link<LispObject>) -> Link<LispObject> {
    l->0.tail
}

/// The forms of an interpreted body, or no chain for a primitive.
pub open spec fn body_link(f: Function) -> Link<LispObject> {
    match f.body {
        FunctionBody::Interpreted(l) => l.head,
        FunctionBody::Native(_) => None,
    }
}

/// Every value equals itself.
pub proof fn lemma_obj_eq_refl(a: LispObject)
    ensures
        obj_eq(a, a),
    decreases a,
{
    match a {
        LispObject::List(l) => lemma_link_eq_refl(l.head),
        LispObject::Fn(f) => lemma_fn_eq_refl(f),
        _ => {},
    }
}

/// Every chain equals itself.
pub proof fn lemma_link_eq_refl(l: Link<LispObject>)
    ensures
        link_eq(l, l),
    decreases l,
{
    if l is Some {
        lemma_obj_eq_refl(head_of(l));
        lemma_link_eq_refl(rest_of(l));
    }
}

/// Every function equals itself.
pub proof fn lemma_fn_eq_refl(f: Function)
    ensures
        fn_eq(f, f),
    decreases f,
{
    if f.body is Interpreted {
        lemma_link_eq_refl(body_link(f));
    }
}

/// Equality of values holds both ways.
pub proof fn lemma_obj_eq_symm(a: LispObject, b: LispObject)
    requires
        obj_eq(a, b),
    ensures
        obj_eq(b, a),
    decreases a,
{
    match (a, b) {
        (LispObject::List(x), LispObject::List(y)) => lemma_link_eq_symm(x.head, y.head),
        (LispObject::Fn(f), LispObject::Fn(g)) => lemma_fn_eq_symm(f, g),
        _ => {},
    }
}

/// Equality of chains holds both ways.
pub proof fn lemma_link_eq_symm(a: Link<LispObject>, b: Link<LispObject>)
    requires
        link_eq(a, b),
    ensures
        link_eq(b, a),
    decreases a,
{
    if a is Some && b is Some {
        lemma_obj_eq_symm(head_of(a), head_of(b));
        lemma_link_eq_symm(rest_of(a), rest_of(b));
    }
}

/// Equality of functions holds both ways.
pub proof fn lemma_fn_eq_symm(a: Function, b: Function)
    requires
        fn_eq(a, b),
    ensures
        fn_eq(b, a),
    decreases a,
{
    if a.body is Interpreted && b.body is Interpreted {
        lemma_link_eq_symm(body_link(a), body_link(b));
    }
}

/// Equality of values carries over a chain of equalities.
pub proof fn lemma_obj_eq_trans(a: LispObject, b: LispObject, c: LispObject)
    requires
        obj_eq(a, b),
        obj_eq(b, c),
    ensures
        obj_eq(a, c),
    decreases a,
{
    match (a, b, c) {
        (LispObject::List(x), LispObject::List(y), LispObject::List(z)) => lemma_link_eq_trans(
            x.head,
            y.head,
            z.head,
        ),
        (LispObject::Fn(f), LispObject::Fn(g), LispObject::Fn(h)) => lemma_fn_eq_trans(f, g, h),
        _ => {},
    }
}

/// Equality of chains carries over a chain of equalities.
pub proof fn lemma_link_eq_trans(a: Link<LispObject>, b: Link<LispObject>, c: Link<LispObject>)
    requires
        link_eq(a, b),
        link_eq(b, c),
    ensures
        link_eq(a, c),
    decreases a,
{
    if a is Some && b is Some && c is Some {
        lemma_obj_eq_trans(head_of(a), head_of(b), head_of(c));
        lemma_link_eq_trans(rest_of(a), rest_of(b), rest_of(c));
    }
}

/// Equality of functions carries over a chain of equalities.
pub proof fn lemma_fn_eq_trans(a: Function, b: Function, c: Function)
    requires
        fn_eq(a, b),
        fn_eq(b, c),
    ensures
        fn_eq(a, c),
    decreases a,
{
    if a.body is Interpreted && b.body is Interpreted && c.body is Interpreted {
        lemma_link_eq_trans(body_link(a), body_link(b), body_link(c));
    }
}

/// The equality that `equal` decides is an equivalence on all values: every
/// value equals itself, equality holds both ways, and it carries over a chain.
pub proof fn lemma_equal_is_equivalence(a: LispObject, b: LispObject, c: LispObject)
    ensures
        obj_eq(a, a),
        obj_eq(a, b) ==> obj_eq(b, a),
        obj_eq(a, b) && obj_eq(b, c) ==> obj_eq(a, c),
{
    lemma_obj_eq_refl(a);
    if obj_eq(a, b) {
        lemma_obj_eq_symm(a, b);
        if obj_eq(b, c) {
            lemma_obj_eq_trans(a, b, c);
        }
    }
}

} // verus!
