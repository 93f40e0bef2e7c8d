//! The kinds of errors that evaluation raises, and their stack traces.

use crate::env::StackTrace;
use crate::print::{int_text, usize_to_string};
use vstd::prelude::*;
use vstd::string::StringExecFns;

verus! {

/// A value could not be taken as the type that was asked for.
pub struct CastError {
    pub from: String,
    pub to: String,
}

impl CastError {
    /// The rendering of the value and the name of the wanted type.
    pub fn new(from: String, to: String) -> (r: Self)
        ensures
            r.from@ == from@,
            r.to@ == to@,
    {
        CastError { from, to }
    }
}

/// A function was called with the wrong number of arguments.
pub struct ArityError {
    pub actual_args_count: usize,
    pub expected_args_count: usize,
    pub is_vararg: bool,
    pub fn_name: String,
}

impl ArityError {
    /// The counts, whether the callee takes a rest parameter, and its name.
    pub fn new(expected: usize, actual: usize, is_vararg: bool, fn_name: String) -> (r: Self)
        ensures
            r.expected_args_count == expected,
            r.actual_args_count == actual,
            r.is_vararg == is_vararg,
            r.fn_name@ == fn_name@,
    {
        ArityError {
            expected_args_count: expected,
            actual_args_count: actual,
            is_vararg,
            fn_name,
        }
    }
}

/// A form has a shape that its position does not allow.
pub struct SyntaxError {
    pub message: String,
}

impl SyntaxError {
    /// An error with the given message.
    pub fn new(message: String) -> (r: Self)
        ensures
            r.message@ == message@,
    {
        SyntaxError { message }
    }
}

/// A symbol has no binding in the namespace that was searched.
pub struct UndefinedSymbol {
    pub symbol_name: String,
    pub is_fn: bool,
}

impl UndefinedSymbol {
    /// `is_fn` tells whether the function namespace was searched.
    pub fn new(symbol_name: String, is_fn: bool) -> (r: Self)
        ensures
            r.symbol_name@ == symbol_name@,
            r.is_fn == is_fn,
    {
        UndefinedSymbol { symbol_name, is_fn }
    }
}

/// An error raised by a program, or by a primitive with a message.
pub struct GenericError {
    pub message: String,
}

impl GenericError {
    /// An error with the given message.
    pub fn new(message: String) -> (r: Self)
        ensures
            r.message@ == message@,
    {
        GenericError { message }
    }
}

/// Every kind of error that evaluation raises.
pub enum LispError {
    Syntax(SyntaxError),
    Arity(ArityError),
    Cast(CastError),
    UndefinedSymbol(UndefinedSymbol),
    Generic(GenericError),
}

/// The text that describes an error.
pub open spec fn error_text(e: LispError) -> Seq<char> {
    match e {
        LispError::Syntax(s) => s.message@,
        LispError::Generic(g) => g.message@,
        LispError::Cast(c) => "cannot cast "@ + c.from@ + " to "@ + c.to@,
        LispError::Arity(a) => "wrong number of arguments ("@ + int_text(a.actual_args_count as int)
            + ") passed to "@ + a.fn_name@,
        LispError::UndefinedSymbol(u) => "undefined "@ + (if u.is_fn {
            "function"@
        } else {
            "symbol"@
        }) + " "@ + u.symbol_name@,
    }
}

impl LispError {
    /// The message that describes the error.
    pub fn message(&self) -> (r: String)
        ensures
            r@ == error_text(*self),
    {
        match self {
            LispError::Syntax(s) => s.message.clone(),
            LispError::Generic(g) => g.message.clone(),
            LispError::Cast(c) => {
                let mut out = String::from_str("cannot cast ");
                out.append(c.from.as_str());
                out.append(" to ");
                out.append(c.to.as_str());
                out
            },
            LispError::Arity(a) => {
                let mut out = String::from_str("wrong number of arguments (");
                let n = usize_to_string(a.actual_args_count);
                out.append(n.as_str());
                out.append(") passed to ");
                out.append(a.fn_name.as_str());
                out
            },
            LispError::UndefinedSymbol(u) => {
                let mut out = String::from_str("undefined ");
                if u.is_fn {
                    out.append("function");
                } else {
                    out.append("symbol");
                }
                out.append(" ");
                out.append(u.symbol_name.as_str());
                assert(out@ =~= error_text(*self));
                out
            },
        }
    }
}

/// An error together with the stack trace of the frame that raised it.
pub struct ErrorWithStackTrace {
    pub err: LispError,
    pub stack_trace: StackTrace,
}

impl ErrorWithStackTrace {
    /// Attaches a stack trace to an error.
    pub fn new(err: LispError, trace: StackTrace) -> (r: Self)
        ensures
            r.err == err,
            r.stack_trace == trace,
    {
        ErrorWithStackTrace { err, stack_trace: trace }
    }
}

} // verus!

verus! {

/// What evaluating a form gives.
pub type EvalResult = Result<crate::object::LispObject, ErrorWithStackTrace>;

/// A cast error for value `x` and type name `to`, raised in the frame with trace `t`.
pub open spec fn is_cast_err(
    e: ErrorWithStackTrace,
    x: crate::object::LispObject,
    to: Seq<char>,
    t: StackTrace,
) -> bool {
    &&& e.err is Cast
    &&& e.err->Cast_0.from@ == crate::print::render(x)
    &&& e.err->Cast_0.to@ == to
    &&& e.stack_trace == t
}

/// An arity error with these counts, raised in the frame with trace `t`.
pub open spec fn is_arity_err(
    e: ErrorWithStackTrace,
    expected: int,
    actual: int,
    vararg: bool,
    t: StackTrace,
) -> bool {
    &&& e.err is Arity
    &&& e.err->Arity_0.expected_args_count == expected
    &&& e.err->Arity_0.actual_args_count == actual
    &&& e.err->Arity_0.is_vararg == vararg
    &&& e.stack_trace == t
}

/// A syntax error with this message, raised in the frame with trace `t`.
pub open spec fn is_syntax_err(e: ErrorWithStackTrace, msg: Seq<char>, t: StackTrace) -> bool {
    &&& e.err is Syntax
    &&& e.err->Syntax_0.message@ == msg
    &&& e.stack_trace == t
}

/// A generic error with this message, raised in the frame with trace `t`.
pub open spec fn is_generic_err(e: ErrorWithStackTrace, msg: Seq<char>, t: StackTrace) -> bool {
    &&& e.err is Generic
    &&& e.err->Generic_0.message@ == msg
    &&& e.stack_trace == t
}

/// An undefined-symbol error for `name` in the function (`is_fn`) or value namespace.
pub open spec fn is_undefined_err(
    e: ErrorWithStackTrace,
    name: Seq<char>,
    is_fn: bool,
    t: StackTrace,
) -> bool {
    &&& e.err is UndefinedSymbol
    &&& e.err->UndefinedSymbol_0.symbol_name@ == name
    &&& e.err->UndefinedSymbol_0.is_fn == is_fn
    &&& e.stack_trace == t
}

} // verus!
