use vstd::prelude::*;

use crate::environment::Context;
use crate::error::{InterpreterError, InterpreterErrorKind};
use crate::eval::{default_env, eval_program, MAX_DEPTH};
use crate::lexer::lex;
use crate::parser::{parse, parse_program};
use crate::semantics::{default_bindings, sem_program};
use crate::value::Value;

verus! {

/// Runs whole programs from their text.
pub struct RuspInterpreter {}

impl RuspInterpreter {
    pub fn new() -> (r: RuspInterpreter) {
        RuspInterpreter {  }
    }

    /// Reads `input` as a program and evaluates it in the default environment. Output and input
    /// lines go through `ctx`. A text that does not parse is not evaluated at all.
    pub fn run(&self, input: &str, ctx: &mut Context) -> (r: Result<Value, InterpreterError>)
        requires
            old(ctx).wf(),
        ensures
            final(ctx).wf(),
            match parse_program(input@) {
                Err(k) => (r matches Err(e) && e.kind == InterpreterErrorKind::Parse(k))
                    && final(ctx)@ == old(ctx)@,
                Ok(program) => {
                    let (res, _, c) = sem_program(
                        MAX_DEPTH as nat,
                        default_bindings(),
                        old(ctx)@,
                        program,
                    );
                    &&& final(ctx)@ == c
                    &&& match res {
                        Ok(v) => r matches Ok(x) && x@ == v,
                        Err(k) => r matches Err(e) && e.kind == InterpreterErrorKind::Runtime(k),
                    }
                },
            },
    {
        let mut tokens = lex(input);
        let ast = match parse(&mut tokens) {
            Ok(a) => a,
            Err(e) => {
                return Err(InterpreterError::from_parse_error(e));
            },
        };
        let mut env = default_env();
        match eval_program(&mut env, ctx, &ast) {
            Ok(v) => Ok(v),
            Err(e) => Err(InterpreterError::from_runtime_error(e)),
        }
    }
}

} // verus!
