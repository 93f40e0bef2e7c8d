//! Name bindings: the global environment shared by every frame, and the
//! local environment that each call frame extends without leaking back.

use crate::cons::List;
use crate::error::{ErrorWithStackTrace, LispError};
use crate::object::{fn_wf, Function, FunctionSignature, LispObject, SpecialForm, Symbol};
use vstd::prelude::*;

verus! {

/// What a name is bound to in one of the namespaces.
pub enum Binding {
    Value(LispObject),
    Function(Function),
    Special(SpecialForm),
}

impl Clone for Binding {
    fn clone(&self) -> (r: Self)
        ensures
            r == *self,
    {
        match self {
            Binding::Value(v) => Binding::Value(v.clone()),
            Binding::Function(f) => Binding::Function(f.clone()),
            Binding::Special(s) => Binding::Special(*s),
        }
    }
}

impl Binding {
    pub open spec fn wf(&self) -> bool {
        match self {
            Binding::Value(v) => v.wf(),
            Binding::Function(f) => fn_wf(*f),
            Binding::Special(_) => true,
        }
    }
}

#[verifier::external_type_specification]
#[verifier::external_body]
#[verifier::reject_recursive_types(K)]
#[verifier::reject_recursive_types(V)]
#[verifier::reject_recursive_types(S)]
pub struct ExImHashMap<K, V, S>(im::HashMap<K, V, S>);

/// The bindings that a persistent hash map holds, by name.
pub uninterp spec fn bindings_of(m: im::HashMap<String, Binding>) -> Map<Seq<char>, Binding>;

/// The namespace with no binding.
pub open spec fn no_bindings() -> Map<Seq<char>, Binding> {
    Map::empty()
}

/// Relies on `im::HashMap::new`: a map with no entry.
#[verifier::external_body]
fn bindings_new() -> (r: im::HashMap<String, Binding>)
    ensures
        bindings_of(r) == no_bindings(),
{
    im::HashMap::new()
}

/// Relies on `im::HashMap::get`: the value stored under a key equal to `k`.
#[verifier::external_body]
fn bindings_get<'a>(m: &'a im::HashMap<String, Binding>, k: &String) -> (r: Option<&'a Binding>)
    ensures
        r is None <==> !bindings_of(*m).contains_key(k@),
        r is Some ==> *r->0 == bindings_of(*m)[k@],
{
    m.get(k)
}

/// Relies on `im::HashMap::insert`: `k` maps to `v` afterwards, and every
/// other key keeps its value.
#[verifier::external_body]
fn bindings_insert(m: &mut im::HashMap<String, Binding>, k: String, v: Binding)
    ensures
        bindings_of(*final(m)) == bindings_of(*old(m)).insert(k@, v),
{
    m.insert(k, v);
}

/// Relies on `im::HashMap`'s `Clone`: the copy holds the same entries.
#[verifier::external_body]
fn bindings_clone(m: &im::HashMap<String, Binding>) -> (r: im::HashMap<String, Binding>)
    ensures
        bindings_of(r) == bindings_of(*m),
{
    m.clone()
}

/// Every binding in the map is well formed.
pub open spec fn map_wf(m: Map<Seq<char>, Binding>) -> bool {
    forall|k: Seq<char>| #[trigger] m.contains_key(k) ==> m[k].wf()
}

/// The value that a namespace binds to `k`, if any.
pub open spec fn value_in(m: Map<Seq<char>, Binding>, k: Seq<char>) -> Option<LispObject> {
    if m.contains_key(k) && m[k] is Value {
        Some(m[k]->Value_0)
    } else {
        None
    }
}

/// The function that a namespace binds to `k`, if any.
pub open spec fn function_in(m: Map<Seq<char>, Binding>, k: Seq<char>) -> Option<Function> {
    if m.contains_key(k) && m[k] is Function {
        Some(m[k]->Function_0)
    } else {
        None
    }
}

/// The special form bound to `k`, if any.
pub open spec fn special_in(m: Map<Seq<char>, Binding>, k: Seq<char>) -> Option<SpecialForm> {
    if m.contains_key(k) && m[k] is Special {
        Some(m[k]->Special_0)
    } else {
        None
    }
}

/// Local first, then global: the first hit wins.
pub open spec fn first_hit<A>(local: Option<A>, global: Option<A>) -> Option<A> {
    if local is Some {
        local
    } else {
        global
    }
}

/// How a frame of the stack trace names its call.
pub enum StackFrameDesignator {
    Signature(FunctionSignature),
    Name(Symbol),
    Top,
}

impl Clone for StackFrameDesignator {
    fn clone(&self) -> (r: Self)
        ensures
            r == *self,
    {
        match self {
            StackFrameDesignator::Signature(s) => StackFrameDesignator::Signature(s.clone()),
            StackFrameDesignator::Name(s) => StackFrameDesignator::Name(s.clone()),
            StackFrameDesignator::Top => StackFrameDesignator::Top,
        }
    }
}

/// The frames of a call chain, youngest first.
pub type StackTrace = List<StackFrameDesignator>;

/// The bindings that every frame sees, and the output written so far.
pub struct GlobalEnv {
    pub values: im::HashMap<String, Binding>,
    pub functions: im::HashMap<String, Binding>,
    pub macros: im::HashMap<String, Binding>,
    pub specials: im::HashMap<String, Binding>,
    pub output: Vec<String>,
    /// The depth budget of each top-level evaluation.
    pub max_depth: usize,
}

impl Clone for GlobalEnv {
    /// A copy with the same bindings; the copies change independently.
    fn clone(&self) -> (r: Self)
        ensures
            r.values_map() == self.values_map(),
            r.functions_map() == self.functions_map(),
            r.macros_map() == self.macros_map(),
            r.specials_map() == self.specials_map(),
    {
        GlobalEnv {
            values: bindings_clone(&self.values),
            functions: bindings_clone(&self.functions),
            macros: bindings_clone(&self.macros),
            specials: bindings_clone(&self.specials),
            output: self.output.clone(),
            max_depth: self.max_depth,
        }
    }
}

impl GlobalEnv {
    pub open spec fn values_map(&self) -> Map<Seq<char>, Binding> {
        bindings_of(self.values)
    }

    pub open spec fn functions_map(&self) -> Map<Seq<char>, Binding> {
        bindings_of(self.functions)
    }

    pub open spec fn macros_map(&self) -> Map<Seq<char>, Binding> {
        bindings_of(self.macros)
    }

    pub open spec fn specials_map(&self) -> Map<Seq<char>, Binding> {
        bindings_of(self.specials)
    }

    pub open spec fn wf(&self) -> bool {
        &&& map_wf(self.values_map())
        &&& map_wf(self.functions_map())
        &&& map_wf(self.macros_map())
    }

    /// The special form bound to `s`; specials are only ever global.
    pub open spec fn special_of(&self, s: Seq<char>) -> Option<SpecialForm> {
        special_in(self.specials_map(), s)
    }

    /// An environment with no binding and no output.
    pub fn new() -> (r: Self)
        ensures
            r.wf(),
            r.values_map() == no_bindings(),
            r.functions_map() == no_bindings(),
            r.macros_map() == no_bindings(),
            r.specials_map() == no_bindings(),
            r.output@ == Seq::<String>::empty(),
            r.max_depth == crate::eval::MAX_DEPTH,
    {
        GlobalEnv {
            values: bindings_new(),
            functions: bindings_new(),
            macros: bindings_new(),
            specials: bindings_new(),
            output: Vec::new(),
            max_depth: crate::eval::MAX_DEPTH,
        }
    }

    /// Hands out the text written so far, leaving none behind.
    pub fn take_output(&mut self) -> (r: Vec<String>)
        ensures
            r@ == old(self).output@,
            final(self).output@ == Seq::<String>::empty(),
            final(self).values == old(self).values,
            final(self).functions == old(self).functions,
            final(self).macros == old(self).macros,
            final(self).specials == old(self).specials,
            final(self).max_depth == old(self).max_depth,
    {
        let mut out = Vec::new();
        std::mem::swap(&mut out, &mut self.output);
        out
    }

    /// Installs a special form under `s`.
    pub fn set_global_special(&mut self, s: Symbol, val: SpecialForm)
        ensures
            final(self).specials_map() == old(self).specials_map().insert(s@, Binding::Special(val)),
            final(self).values == old(self).values,
            final(self).functions == old(self).functions,
            final(self).macros == old(self).macros,
            final(self).output == old(self).output,
            final(self).max_depth == old(self).max_depth,
    {
        bindings_insert(&mut self.specials, s.name(), Binding::Special(val));
    }

    /// Binds `s` to `f` in the global function namespace.
    pub fn set_global_function(&mut self, s: &Symbol, f: Function)
        requires
            old(self).wf(),
            fn_wf(f),
        ensures
            final(self).wf(),
            final(self).functions_map() == old(self).functions_map().insert(s@, Binding::Function(f)),
            final(self).values == old(self).values,
            final(self).macros == old(self).macros,
            final(self).specials == old(self).specials,
            final(self).output == old(self).output,
            final(self).max_depth == old(self).max_depth,
    {
        bindings_insert(&mut self.functions, s.name(), Binding::Function(f));
        assert(map_wf(self.functions_map()));
    }

    /// Binds `s` to `f` in the global macro namespace.
    pub fn set_global_macro(&mut self, s: &Symbol, f: Function)
        requires
            old(self).wf(),
            fn_wf(f),
        ensures
            final(self).wf(),
            final(self).macros_map() == old(self).macros_map().insert(s@, Binding::Function(f)),
            final(self).values == old(self).values,
            final(self).functions == old(self).functions,
            final(self).specials == old(self).specials,
            final(self).output == old(self).output,
            final(self).max_depth == old(self).max_depth,
    {
        bindings_insert(&mut self.macros, s.name(), Binding::Function(f));
        assert(map_wf(self.macros_map()));
    }

}

/// Looks `s` up for a value in one namespace map.
fn lookup_value_in(m: &im::HashMap<String, Binding>, s: &Symbol) -> (r: Option<LispObject>)
    ensures
        r == value_in(bindings_of(*m), s@),
{
    let k = s.name();
    match bindings_get(m, &k) {
        Some(Binding::Value(v)) => Some(v.clone()),
        _ => None,
    }
}

/// Looks `s` up for a function in one namespace map.
fn lookup_function_in(m: &im::HashMap<String, Binding>, s: &Symbol) -> (r: Option<Function>)
    ensures
        r == function_in(bindings_of(*m), s@),
{
    let k = s.name();
    match bindings_get(m, &k) {
        Some(Binding::Function(f)) => Some(f.clone()),
        _ => None,
    }
}

/// The bindings of one call frame, and the frames that led to it.
pub struct Env {
    pub values: im::HashMap<String, Binding>,
    pub functions: im::HashMap<String, Binding>,
    pub macros: im::HashMap<String, Binding>,
    pub stack_trace: StackTrace,
}

impl Env {
    pub open spec fn values_map(&self) -> Map<Seq<char>, Binding> {
        bindings_of(self.values)
    }

    pub open spec fn functions_map(&self) -> Map<Seq<char>, Binding> {
        bindings_of(self.functions)
    }

    pub open spec fn macros_map(&self) -> Map<Seq<char>, Binding> {
        bindings_of(self.macros)
    }

    pub open spec fn wf(&self) -> bool {
        &&& map_wf(self.values_map())
        &&& map_wf(self.functions_map())
        &&& map_wf(self.macros_map())
        &&& self.stack_trace.wf()
        &&& forall|i: int|
            0 <= i < self.stack_trace@.len() ==> frame_wf(#[trigger] self.stack_trace@[i])
    }

    /// The value of `s`: local first, then global.
    pub open spec fn value_of(&self, g: &GlobalEnv, s: Seq<char>) -> Option<LispObject> {
        first_hit(value_in(self.values_map(), s), value_in(g.values_map(), s))
    }

    /// The function bound to `s`: local first, then global.
    pub open spec fn function_of(&self, g: &GlobalEnv, s: Seq<char>) -> Option<Function> {
        first_hit(function_in(self.functions_map(), s), function_in(g.functions_map(), s))
    }

    /// The macro bound to `s`: local first, then global.
    pub open spec fn macro_of(&self, g: &GlobalEnv, s: Seq<char>) -> Option<Function> {
        first_hit(function_in(self.macros_map(), s), function_in(g.macros_map(), s))
    }

    /// A top-level environment: no local binding, and a trace holding only `Top`.
    pub fn new() -> (r: Self)
        ensures
            r.wf(),
            r.values_map() == no_bindings(),
            r.functions_map() == no_bindings(),
            r.macros_map() == no_bindings(),
            r.stack_trace@ == seq![StackFrameDesignator::Top],
    {
        let trace = List::empty().cons(StackFrameDesignator::Top);
        Env {
            values: bindings_new(),
            functions: bindings_new(),
            macros: bindings_new(),
            stack_trace: trace,
        }
    }

    /// A copy of the local bindings and trace; global bindings stay shared.
    pub fn snapshot(&self) -> (r: Self)
        ensures
            r.values_map() == self.values_map(),
            r.functions_map() == self.functions_map(),
            r.macros_map() == self.macros_map(),
            r.stack_trace == self.stack_trace,
    {
        Env {
            values: bindings_clone(&self.values),
            functions: bindings_clone(&self.functions),
            macros: bindings_clone(&self.macros),
            stack_trace: self.stack_trace.clone(),
        }
    }

    /// The special form bound to `s`; specials are only ever global.
    pub fn lookup_symbol_special(&self, g: &GlobalEnv, s: &Symbol) -> (r: Option<SpecialForm>)
        ensures
            r == g.special_of(s@),
    {
        let k = s.name();
        match bindings_get(&g.specials, &k) {
            Some(Binding::Special(f)) => Some(*f),
            _ => None,
        }
    }

    /// The value of `s`: local first, then global.
    pub fn lookup_symbol_value(&self, g: &GlobalEnv, s: &Symbol) -> (r: Option<LispObject>)
        ensures
            r == self.value_of(g, s@),
    {
        let l = lookup_value_in(&self.values, s);
        if l.is_some() {
            l
        } else {
            lookup_value_in(&g.values, s)
        }
    }

    /// The function bound to `s`: local first, then global.
    pub fn lookup_symbol_function(&self, g: &GlobalEnv, s: &Symbol) -> (r: Option<Function>)
        ensures
            r == self.function_of(g, s@),
    {
        let l = lookup_function_in(&self.functions, s);
        if l.is_some() {
            l
        } else {
            lookup_function_in(&g.functions, s)
        }
    }

    /// The macro bound to `s`: local first, then global.
    pub fn lookup_symbol_macro(&self, g: &GlobalEnv, s: &Symbol) -> (r: Option<Function>)
        ensures
            r == self.macro_of(g, s@),
    {
        let l = lookup_function_in(&self.macros, s);
        if l.is_some() {
            l
        } else {
            lookup_function_in(&g.macros, s)
        }
    }

    /// Binds `s` to `val` in this frame's value namespace.
    pub fn set_local_value(&mut self, s: &Symbol, val: LispObject)
        requires
            old(self).wf(),
            val.wf(),
        ensures
            final(self).wf(),
            final(self).values_map() == old(self).values_map().insert(s@, Binding::Value(val)),
            final(self).functions == old(self).functions,
            final(self).macros == old(self).macros,
            final(self).stack_trace == old(self).stack_trace,
    {
        bindings_insert(&mut self.values, s.name(), Binding::Value(val));
        assert(map_wf(self.values_map()));
    }

    /// Records a call made by name; fails when the trace cannot grow.
    pub fn push_stack_frame_name(&mut self, name: Symbol) -> (r: bool)
        requires
            old(self).wf(),
        ensures
            final(self).wf(),
            r == (old(self).stack_trace@.len() < usize::MAX),
            r ==> final(self).stack_trace@ == seq![StackFrameDesignator::Name(name)]
                + old(self).stack_trace@,
            !r ==> final(self).stack_trace == old(self).stack_trace,
            final(self).values == old(self).values,
            final(self).functions == old(self).functions,
            final(self).macros == old(self).macros,
    {
        if self.stack_trace.len() == usize::MAX {
            return false;
        }
        let ghost frame = StackFrameDesignator::Name(name);
        self.stack_trace = self.stack_trace.cons(StackFrameDesignator::Name(name));
        assert(forall|i: int|
            0 < i < self.stack_trace@.len() ==> self.stack_trace@[i] == old(self).stack_trace@[i
                - 1]);
        true
    }

    /// Records a call made through a function value; fails when the trace cannot grow.
    pub fn push_stack_frame_sig(&mut self, sig: FunctionSignature) -> (r: bool)
        requires
            old(self).wf(),
            sig.wf(),
        ensures
            final(self).wf(),
            r == (old(self).stack_trace@.len() < usize::MAX),
            r ==> final(self).stack_trace@ == seq![StackFrameDesignator::Signature(sig)]
                + old(self).stack_trace@,
            !r ==> final(self).stack_trace == old(self).stack_trace,
            final(self).values == old(self).values,
            final(self).functions == old(self).functions,
            final(self).macros == old(self).macros,
    {
        if self.stack_trace.len() == usize::MAX {
            return false;
        }
        self.stack_trace = self.stack_trace.cons(StackFrameDesignator::Signature(sig));
        assert(forall|i: int|
            0 < i < self.stack_trace@.len() ==> self.stack_trace@[i] == old(self).stack_trace@[i
                - 1]);
        true
    }

    /// The frames that led to this one, youngest first.
    pub fn get_stack_trace(&self) -> (r: StackTrace)
        ensures
            r == self.stack_trace,
    {
        self.stack_trace.clone()
    }

    /// Attaches this frame's stack trace to an error.
    pub fn st_err(&self, err: LispError) -> (r: ErrorWithStackTrace)
        ensures
            r.err == err,
            r.stack_trace == self.stack_trace,
    {
        ErrorWithStackTrace::new(err, self.get_stack_trace())
    }
}

/// A frame whose signature has a well-formed parameter list.
pub open spec fn frame_wf(f: StackFrameDesignator) -> bool {
    match f {
        StackFrameDesignator::Signature(s) => s.wf(),
        _ => true,
    }
}

} // verus!
