//! The textual rendering of values, signatures and stack traces.

use crate::cons::{Link, List};
use crate::env::{StackFrameDesignator, StackTrace};
use crate::object::{FunctionBody, FunctionSignature, LispObject};
use vstd::prelude::*;
use vstd::string::StringExecFns;

verus! {

/// The decimal digit for `d < 10`.
pub open spec fn digit_char(d: nat) -> char {
    if d == 0 { '0' } else if d == 1 { '1' } else if d == 2 { '2' } else if d == 3 { '3' }
    else if d == 4 { '4' } else if d == 5 { '5' } else if d == 6 { '6' } else if d == 7 { '7' }
    else if d == 8 { '8' } else { '9' }
}

/// The decimal digits of `n`, most significant first, without leading zeros.
pub open spec fn nat_text(n: nat) -> Seq<char>
    decreases n,
{
    if n < 10 {
        seq![digit_char(n)]
    } else {
        nat_text(n / 10) + seq![digit_char(n % 10)]
    }
}

/// The decimal text of an integer, with a leading `-` when it is negative.
pub open spec fn int_text(i: int) -> Seq<char> {
    if i < 0 {
        seq!['-'] + nat_text((-i) as nat)
    } else {
        nat_text(i as nat)
    }
}

/// Relies on `i64`'s `Display` (through `to_string`): decimal digits with a
/// leading `-` for negative numbers.
#[verifier::external_body]
pub(crate) fn int_to_string(i: i64) -> (r: String)
    ensures
        r@ == int_text(i as int),
{
    i.to_string()
}

/// Relies on `usize`'s `Display` (through `to_string`): decimal digits.
#[verifier::external_body]
pub(crate) fn usize_to_string(n: usize) -> (r: String)
    ensures
        r@ == int_text(n as int),
{
    n.to_string()
}

/// How a value prints: `nil` for the empty list, `t`, decimal integers,
/// quoted strings, symbol names, function markers and parenthesised lists.
pub open spec fn render(o: LispObject) -> Seq<char>
    decreases o,
{
    match o {
        LispObject::T => "t"@,
        LispObject::Integer(i) => int_text(i as int),
        LispObject::String(s) => "\""@ + s@ + "\""@,
        LispObject::Symbol(s) => s@,
        LispObject::Fn(f) => match f.body {
            FunctionBody::Native(_) => "#<NATIVE-FN>"@,
            FunctionBody::Interpreted(_) => "#<INTERPRETED-FN>"@,
        },
        LispObject::List(l) => match l.head {
            None => "nil"@,
            Some(_) => "("@ + render_elems(l.head) + ")"@,
        },
    }
}

/// The renderings of the elements of a chain, separated by single spaces.
pub open spec fn render_elems(l: Link<LispObject>) -> Seq<char>
    decreases l,
{
    match l {
        None => Seq::empty(),
        Some(c) => match c.tail {
            None => render(*c.elem),
            Some(_) => render(*c.elem) + " "@ + render_elems(c.tail),
        },
    }
}

/// Appends the rendering of `o` to `out`.
pub fn render_into(o: &LispObject, out: &mut String)
    ensures
        final(out)@ == old(out)@ + render(*o),
    decreases o,
{
    match o {
        LispObject::T => out.append("t"),
        LispObject::Integer(i) => {
            let s = int_to_string(*i);
            out.append(s.as_str());
        },
        LispObject::String(s) => {
            out.append("\"");
            out.append(s.as_str());
            out.append("\"");
        },
        LispObject::Symbol(s) => out.append((*s.0).as_str()),
        LispObject::Fn(f) => match &f.body {
            FunctionBody::Native(_) => out.append("#<NATIVE-FN>"),
            FunctionBody::Interpreted(_) => out.append("#<INTERPRETED-FN>"),
        },
        LispObject::List(l) => match &l.head {
            None => out.append("nil"),
            Some(_) => {
                out.append("(");
                render_elems_into(&l.head, out);
                out.append(")");
            },
        },
    }
}

/// Appends the renderings of the elements of a chain, separated by spaces.
pub fn render_elems_into(l: &Link<LispObject>, out: &mut String)
    ensures
        final(out)@ == old(out)@ + render_elems(*l),
    decreases l,
{
    match l {
        None => {},
        Some(c) => {
            render_into(&c.elem, out);
            match &c.tail {
                None => {},
                Some(_) => {
                    out.append(" ");
                    render_elems_into(&c.tail, out);
                },
            }
        },
    }
}

/// The printed form of a value.
pub fn to_text(o: &LispObject) -> (r: String)
    ensures
        r@ == render(*o),
{
    let mut out = String::new();
    render_into(o, &mut out);
    out
}

/// How a signature names a frame: `lambda/<name or <anon>>/<positional count>`,
/// followed by `+` when there is a rest parameter.
pub open spec fn render_sig(s: FunctionSignature) -> Seq<char> {
    "lambda/"@ + match s.name {
        None => "<anon>"@,
        Some(n) => n@,
    } + "/"@ + int_text(s.arglist@.len() as int) + match s.restarg {
        None => Seq::empty(),
        Some(_) => "+"@,
    }
}

/// The text of a signature, as stack traces and arity errors show it.
pub fn sig_to_text(s: &FunctionSignature) -> (r: String)
    ensures
        r@ == render_sig(*s),
{
    let mut out = String::from_str("lambda/");
    match &s.name {
        None => out.append("<anon>"),
        Some(n) => out.append((*n.0).as_str()),
    }
    out.append("/");
    let n = usize_to_string(s.arglist.rc_iter().len());
    out.append(n.as_str());
    match &s.restarg {
        None => {},
        Some(_) => out.append("+"),
    }
    assert(out@ =~= render_sig(*s));
    out
}

/// How a frame of a stack trace prints: `<top>`, the name of the call, or
/// the signature of the function.
pub open spec fn render_frame(f: StackFrameDesignator) -> Seq<char> {
    match f {
        StackFrameDesignator::Top => "<top>"@,
        StackFrameDesignator::Name(s) => s@,
        StackFrameDesignator::Signature(s) => render_sig(s),
    }
}

/// The printed frames of a stack trace, youngest first.
pub fn stack_trace_lines(trace: &StackTrace) -> (r: Vec<String>)
    ensures
        r@.len() == trace@.len(),
        forall|i: int| 0 <= i < r@.len() ==> (#[trigger] r@[i])@ == render_frame(trace@[i]),
{
    let frames = trace.rc_iter();
    let mut out: Vec<String> = Vec::new();
    let mut i: usize = 0;
    while i < frames.len()
        invariant
            frames@.len() == trace@.len(),
            forall|j: int| 0 <= j < frames@.len() ==> *frames@[j] == trace@[j],
            i <= frames@.len(),
            out@.len() == i,
            forall|j: int| 0 <= j < i ==> (#[trigger] out@[j])@ == render_frame(trace@[j]),
        decreases frames.len() - i,
    {
        let line = match &*frames[i] {
            StackFrameDesignator::Top => String::from_str("<top>"),
            StackFrameDesignator::Name(s) => s.name(),
            StackFrameDesignator::Signature(s) => sig_to_text(s),
        };
        out.push(line);
        i = i + 1;
    }
    out
}

} // verus!
