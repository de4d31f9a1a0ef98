use rusp::environment::{Context, IOStream};
use rusp::error::{InterpreterErrorKind, RuntimeErrorKind};
use rusp::interpreter::RuspInterpreter;
use rusp::parser::ParseErrorKind;
use rusp::value::Value;

#[test]
fn run_returns_unit_and_collects_output() {
    let interp = RuspInterpreter::new();
    let mut ctx = Context::new(IOStream::new_in_memory_buffer());
    let r = interp.run("(defun inc (x) (+ x 1)) (write (inc 4))", &mut ctx);
    assert!(matches!(r, Ok(Value::Unit)));
    assert_eq!(ctx.stdout.lines, vec!["5".to_string()]);
}

#[test]
fn run_reports_parse_errors_before_evaluating() {
    let interp = RuspInterpreter::new();
    let mut ctx = Context::new(IOStream::new_in_memory_buffer());
    let r = interp.run("(write 1) (write 2", &mut ctx);
    assert_eq!(r.unwrap_err().kind, InterpreterErrorKind::Parse(ParseErrorKind::UnexpectedEnd));
    assert!(ctx.stdout.lines.is_empty());
}

#[test]
fn run_reports_runtime_errors() {
    let interp = RuspInterpreter::new();
    let mut ctx = Context::new(IOStream::new_in_memory_buffer());
    let r = interp.run("(write 1) (+ 1 \"x\")", &mut ctx);
    assert_eq!(
        r.unwrap_err().kind,
        InterpreterErrorKind::Runtime(RuntimeErrorKind::TypeError)
    );
    assert_eq!(ctx.stdout.lines, vec!["1".to_string()]);
}
