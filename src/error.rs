use vstd::prelude::*;

use crate::parser::{ParseError, ParseErrorKind};

verus! {

/// Why evaluation stopped.
#[derive(Debug, Clone, Copy, PartialEq, Eq, Structural)]
pub enum RuntimeErrorKind {
    /// A name is not bound in the environment.
    UnboundIdentifier,
    /// The operator of a call is not a callable value, or the call is empty.
    NotCallable,
    /// A callable received the wrong number of operands.
    ArityMismatch,
    /// An operand has the wrong type: an integer or a boolean was expected.
    TypeError,
    /// A special form is malformed: a binder or a parameter is not an identifier.
    MalformedForm,
    /// A value that has no text (unit, a callable) was to be converted to text.
    NotPrintable,
    /// A closure has no body expression.
    EmptyBody,
    /// Integer arithmetic left the 64-bit range.
    Overflow,
    /// A node that the evaluator does not take (a program, a definition, a non-literal token).
    InvalidNode,
    /// A definition native was reached other than as a top-level statement.
    MisplacedDefinition,
    /// A line of input was asked for and none is left.
    InputExhausted,
    /// Evaluation nested deeper than its budget allows.
    DepthExceeded,
}

#[derive(Debug)]
pub struct RuntimeError {
    pub kind: RuntimeErrorKind,
    pub message: String,
}

impl RuntimeError {
    pub fn new_err(kind: RuntimeErrorKind, message: &str) -> (r: RuntimeError)
        ensures
            r.kind == kind,
            r.message@ == message@,
    {
        RuntimeError { kind, message: message.to_owned() }
    }

    pub fn new<T>(kind: RuntimeErrorKind, message: &str) -> (r: Result<T, RuntimeError>)
        ensures
            r matches Err(e) && e.kind == kind && e.message@ == message@,
    {
        Err(RuntimeError::new_err(kind, message))
    }
}

/// The stage at which a run failed, with the reason.
#[derive(Debug, Clone, Copy, PartialEq, Eq, Structural)]
pub enum InterpreterErrorKind {
    Parse(ParseErrorKind),
    Runtime(RuntimeErrorKind),
}

/// A failure of a whole run: reading the text or evaluating it.
#[derive(Debug)]
pub struct InterpreterError {
    pub kind: InterpreterErrorKind,
    pub message: String,
}

impl InterpreterError {
    pub fn new(kind: InterpreterErrorKind, message: &str) -> (r: InterpreterError)
        ensures
            r.kind == kind,
            r.message@ == message@,
    {
        InterpreterError { kind, message: message.to_owned() }
    }

    pub fn from_parse_error(e: ParseError) -> (r: InterpreterError)
        ensures
            r.kind == InterpreterErrorKind::Parse(e.kind),
            r.message@ == e.message@,
    {
        InterpreterError { kind: InterpreterErrorKind::Parse(e.kind), message: e.message }
    }

    pub fn from_runtime_error(e: RuntimeError) -> (r: InterpreterError)
        ensures
            r.kind == InterpreterErrorKind::Runtime(e.kind),
            r.message@ == e.message@,
    {
        InterpreterError { kind: InterpreterErrorKind::Runtime(e.kind), message: e.message }
    }
}

} // verus!
