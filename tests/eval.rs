use rusp::builtins::{
    call_native, defun, expect_id_list, if_impl, lambda, less_than, let_impl, list, minus, plus,
    readline, to_str, write_impl,
};
use rusp::environment::{Context, Environment, IOStream};
use rusp::error::{RuntimeError, RuntimeErrorKind};
use rusp::eval::{default_env, eval, eval_function, eval_program, eval_maybe_mutate_env, MAX_DEPTH};
use rusp::lexer::{lex, Token};
use rusp::parser::{parse, ASTNode};
use rusp::value::{ClosureImpl, Native, Value};
use std::rc::Rc;

fn program(s: &str) -> Vec<ASTNode> {
    let mut tokens = lex(s);
    match parse(&mut tokens).unwrap() {
        ASTNode::Program { statements } => statements,
        other => panic!("expected a program, found {:?}", other),
    }
}

fn new_ctx() -> Context {
    Context::new(IOStream::new_in_memory_buffer())
}

/// Runs each statement in turn; returns the last statement's result and the output lines.
fn run_with(s: &str, ctx: &mut Context) -> Result<Value, RuntimeError> {
    let mut env = default_env();
    let mut last = Ok(Value::Unit);
    for stmt in program(s).iter() {
        last = eval_maybe_mutate_env(&mut env, ctx, stmt);
        if last.is_err() {
            break;
        }
    }
    last
}

fn run(s: &str) -> (Result<Value, RuntimeError>, Vec<String>) {
    let mut ctx = new_ctx();
    let r = run_with(s, &mut ctx);
    (r, ctx.stdout.lines)
}

fn int_of(r: Result<Value, RuntimeError>) -> i64 {
    match r {
        Ok(Value::Int(i)) => i,
        Ok(other) => panic!("expected an integer, found {:?}", other),
        Err(e) => panic!("expected an integer, found error {:?}", e),
    }
}

fn str_of(r: Result<Value, RuntimeError>) -> String {
    match r {
        Ok(Value::Str(s)) => s,
        Ok(other) => panic!("expected a string, found {:?}", other),
        Err(e) => panic!("expected a string, found error {:?}", e),
    }
}

fn err_of(r: Result<Value, RuntimeError>) -> RuntimeErrorKind {
    match r {
        Ok(v) => panic!("expected an error, found {:?}", v),
        Err(e) => e.kind,
    }
}

#[test]
fn addition_of_two_literals() {
    assert_eq!(int_of(run("(+ 1 2)").0), 3);
}

#[test]
fn subtraction_and_comparison() {
    assert_eq!(int_of(run("(- 10 25)").0), -15);
    assert!(matches!(run("(< 1 2)").0, Ok(Value::Boolean(true))));
    assert!(matches!(run("(< 2 1)").0, Ok(Value::Boolean(false))));
    assert!(matches!(run("(< 2 2)").0, Ok(Value::Boolean(false))));
}

#[test]
fn let_binds_for_its_body_only() {
    assert_eq!(int_of(run("(let x 5 (+ x 1))").0), 6);
    assert_eq!(err_of(run("(let x 5 (+ x 1)) x").0), RuntimeErrorKind::UnboundIdentifier);
}

#[test]
fn let_evaluates_bound_value_in_outer_environment() {
    assert_eq!(int_of(run("(let x 1 (let x (+ x 10) x))").0), 11);
}

#[test]
fn let_binder_must_be_identifier() {
    assert_eq!(err_of(run("(let 3 5 3)").0), RuntimeErrorKind::MalformedForm);
}

#[test]
fn if_takes_then_branch_without_evaluating_else() {
    let (r, out) = run("(if (< 1 2) 10 (write \"else\"))");
    assert_eq!(int_of(r), 10);
    assert!(out.is_empty());
}

#[test]
fn if_takes_else_branch_without_evaluating_then() {
    let (r, out) = run("(if (< 2 1) (write \"then\") 20)");
    assert_eq!(int_of(r), 20);
    assert!(out.is_empty());
}

#[test]
fn if_condition_must_be_boolean() {
    assert_eq!(err_of(run("(if 1 2 3)").0), RuntimeErrorKind::TypeError);
}

#[test]
fn lambda_applied_to_two_arguments() {
    assert_eq!(int_of(run("((lambda (x y) (+ x y)) 3 4)").0), 7);
}

#[test]
fn lambda_applied_to_one_argument_is_arity_error() {
    assert_eq!(err_of(run("((lambda (x y) (+ x y)) 3)").0), RuntimeErrorKind::ArityMismatch);
}

#[test]
fn lambda_bound_by_let_is_callable() {
    assert_eq!(int_of(run("(let add (lambda (x y) (+ x y)) (add 3 4))").0), 7);
}

#[test]
fn lambda_parameter_must_be_identifier() {
    assert_eq!(err_of(run("(lambda (x 1) x)").0), RuntimeErrorKind::MalformedForm);
}

#[test]
fn defun_is_visible_to_the_next_statement() {
    let (r, _) = run("(defun inc (x) (+ x 1)) (inc 4)");
    assert_eq!(int_of(r), 5);
}

#[test]
fn defun_body_runs_each_expression_and_returns_the_last() {
    let (r, out) = run("(defun f (x) (write x) (+ x 1)) (f 4)");
    assert_eq!(int_of(r), 5);
    assert_eq!(out, vec!["4".to_string()]);
}

#[test]
fn recursive_definition() {
    let src = "(defun sum (n) (if (< n 1) 0 (+ n (sum (- n 1))))) (sum 10)";
    assert_eq!(int_of(run(src).0), 55);
}

#[test]
fn defun_with_empty_body_fails_when_called() {
    assert_eq!(err_of(run("(defun f ()) (f)").0), RuntimeErrorKind::EmptyBody);
}

#[test]
fn str_of_int_string_and_list() {
    assert_eq!(str_of(run("(str 42)").0), "42");
    assert_eq!(str_of(run("(str \"hi\")").0), "hi");
    assert_eq!(str_of(run("(str (list 1 2))").0), "(1 2)");
}

#[test]
fn str_of_negative_boolean_and_nested_list() {
    assert_eq!(str_of(run("(str (- 0 7))").0), "-7");
    assert_eq!(str_of(run("(str (< 1 2))").0), "true");
    assert_eq!(str_of(run("(str (< 2 1))").0), "false");
    assert_eq!(str_of(run("(str (list 1 (list \"a\" (< 1 2)) (list)))").0), "(1 (a true) ())");
}

#[test]
fn str_of_callable_or_unit_is_not_printable() {
    assert_eq!(err_of(run("(str +)").0), RuntimeErrorKind::NotPrintable);
    assert_eq!(err_of(run("(str (write 1))").0), RuntimeErrorKind::NotPrintable);
    assert_eq!(err_of(run("(str (list 1 if))").0), RuntimeErrorKind::NotPrintable);
}

#[test]
fn runtime_to_str_of_values() {
    assert_eq!(Value::Int(42).runtime_to_str().unwrap(), "42");
    assert_eq!(Value::Int(i64::MIN).runtime_to_str().unwrap(), "-9223372036854775808");
    assert_eq!(Value::Str("hi".to_string()).runtime_to_str().unwrap(), "hi");
    let l = Value::List(Rc::new(vec![Value::Int(1), Value::Int(2)]));
    assert_eq!(l.runtime_to_str().unwrap(), "(1 2)");
    assert_eq!(Value::Unit.runtime_to_str().unwrap_err().kind, RuntimeErrorKind::NotPrintable);
}

#[test]
fn unbound_identifier_call_fails() {
    let e = run("(foo)").0.unwrap_err();
    assert_eq!(e.kind, RuntimeErrorKind::UnboundIdentifier);
    assert!(e.message.contains("'foo'"));
}

#[test]
fn calling_a_non_callable_fails() {
    assert_eq!(err_of(run("(5 1 2)").0), RuntimeErrorKind::NotCallable);
}

#[test]
fn empty_call_is_not_callable() {
    assert_eq!(err_of(run("()").0), RuntimeErrorKind::NotCallable);
}

#[test]
fn adding_a_string_is_a_type_error() {
    assert_eq!(err_of(run("(+ 1 \"x\")").0), RuntimeErrorKind::TypeError);
}

#[test]
fn native_arity_is_checked() {
    assert_eq!(err_of(run("(+ 1)").0), RuntimeErrorKind::ArityMismatch);
    assert_eq!(err_of(run("(str 1 2)").0), RuntimeErrorKind::ArityMismatch);
}

#[test]
fn arithmetic_overflow_is_an_error() {
    assert_eq!(err_of(run("(+ 9223372036854775807 1)").0), RuntimeErrorKind::Overflow);
    assert_eq!(err_of(run("(- (- 0 9223372036854775807) 2)").0), RuntimeErrorKind::Overflow);
}

#[test]
fn write_sends_lines_in_order() {
    let (r, out) = run("(write \"a\") (write 1) (write (list 1 \"b\"))");
    assert!(matches!(r, Ok(Value::Unit)));
    assert_eq!(out, vec!["a".to_string(), "1".to_string(), "(1 b)".to_string()]);
}

#[test]
fn error_stops_later_statements() {
    let (r, out) = run("(write 1) (foo) (write 2)");
    assert_eq!(err_of(r), RuntimeErrorKind::UnboundIdentifier);
    assert_eq!(out, vec!["1".to_string()]);
}

#[test]
fn list_evaluates_operands_left_to_right() {
    let (r, out) = run("(list (write 1) (write 2))");
    assert!(matches!(r, Ok(Value::List(_))));
    assert_eq!(out, vec!["1".to_string(), "2".to_string()]);
}

#[test]
fn readline_takes_input_lines_in_order() {
    let mut ctx = Context::with_input(
        IOStream::new_in_memory_buffer(),
        vec!["first".to_string(), "second".to_string()],
    );
    let r = run_with("(write (readline)) (readline)", &mut ctx);
    assert_eq!(str_of(r), "second");
    assert_eq!(ctx.stdout.lines, vec!["first".to_string()]);
}

#[test]
fn readline_without_input_is_an_error() {
    assert_eq!(err_of(run("(readline)").0), RuntimeErrorKind::InputExhausted);
}

#[test]
fn deep_recursion_stops_with_depth_error() {
    let src = "(defun loop (n) (loop (+ n 1))) (loop 0)";
    assert_eq!(err_of(run(src).0), RuntimeErrorKind::DepthExceeded);
}

#[test]
fn defun_reached_inside_an_expression_is_misplaced() {
    assert_eq!(err_of(run("(let d defun (d f (x) x))").0), RuntimeErrorKind::MisplacedDefinition);
}

#[test]
fn definition_node_inside_eval_is_invalid() {
    let stmts = program("(defun f (x) x)");
    let env = default_env();
    let mut ctx = new_ctx();
    assert_eq!(err_of(eval(&env, &mut ctx, &stmts[0])), RuntimeErrorKind::InvalidNode);
}

#[test]
fn eval_program_returns_unit_and_keeps_definitions() {
    let mut tokens = lex("(defun inc (x) (+ x 1)) (write (inc 1))");
    let ast = parse(&mut tokens).unwrap();
    let mut env = default_env();
    let mut ctx = new_ctx();
    let r = eval_program(&mut env, &mut ctx, &ast);
    assert!(matches!(r, Ok(Value::Unit)));
    assert_eq!(ctx.stdout.lines, vec!["2".to_string()]);
    assert!(matches!(env.get("inc"), Some(Value::Closure(_))));
}

#[test]
fn closure_invoke_binds_parameters() {
    let body = program("(+ x y)");
    let ids = vec!["x".to_string(), "y".to_string()];
    let closure = ClosureImpl::new_rc(&ids, &body);
    let env = default_env();
    let mut ctx = new_ctx();
    let r = closure.invoke(&env, &mut ctx, &[Value::Int(3), Value::Int(4)], MAX_DEPTH);
    assert_eq!(int_of(r), 7);
    let r = closure.invoke(&env, &mut ctx, &[Value::Int(3)], MAX_DEPTH);
    assert_eq!(err_of(r), RuntimeErrorKind::ArityMismatch);
}

#[test]
fn environment_extend_leaves_parent_unchanged() {
    let mut parent = Environment::new();
    parent.insert("a", Value::Int(1));
    let child = parent.extend("b", Value::Int(2));
    let shadow = child.extend("a", Value::Int(3));
    assert!(parent.get("b").is_none());
    assert!(matches!(child.get("a"), Some(Value::Int(1))));
    assert!(matches!(child.get("b"), Some(Value::Int(2))));
    assert!(matches!(shadow.get("a"), Some(Value::Int(3))));
    assert!(matches!(parent.get("a"), Some(Value::Int(1))));
}

#[test]
fn natives_called_directly() {
    let env = Environment::new();
    let mut ctx = new_ctx();
    assert_eq!(int_of(plus(&env, &mut ctx, &[Value::Int(2), Value::Int(3)])), 5);
    assert_eq!(int_of(minus(&env, &mut ctx, &[Value::Int(2), Value::Int(3)])), -1);
    assert!(matches!(
        less_than(&env, &mut ctx, &[Value::Int(2), Value::Int(3)]),
        Ok(Value::Boolean(true))
    ));
    assert_eq!(str_of(to_str(&env, &mut ctx, &[Value::Int(12)])), "12");
    assert!(matches!(write_impl(&env, &mut ctx, &[Value::Int(7)]), Ok(Value::Unit)));
    assert_eq!(ctx.stdout.lines, vec!["7".to_string()]);
    assert_eq!(err_of(readline(&env, &mut ctx, &[])), RuntimeErrorKind::InputExhausted);
    assert_eq!(
        int_of(call_native(Native::Plus, &env, &mut ctx, &[Value::Int(1), Value::Int(1)])),
        2
    );
}

#[test]
fn special_forms_called_directly() {
    let env = default_env();
    let mut ctx = new_ctx();
    let args = program("(< 1 2) 1 2");
    assert_eq!(int_of(if_impl(&env, &mut ctx, &args, MAX_DEPTH)), 1);
    let args = program("x 5 (+ x x)");
    assert_eq!(int_of(let_impl(&env, &mut ctx, &args, MAX_DEPTH)), 10);
    let args = program("1 2 3");
    match list(&env, &mut ctx, &args, MAX_DEPTH) {
        Ok(Value::List(items)) => assert_eq!(items.len(), 3),
        other => panic!("expected a list, found {:?}", other),
    }
    let args = program("(a b) (+ a b)");
    assert!(matches!(lambda(&env, &mut ctx, &args), Ok(Value::Closure(_))));
}

#[test]
fn defun_native_installs_binding() {
    let mut env = default_env();
    let args = program("twice (x) (+ x x)");
    assert!(matches!(defun(&mut env, &args), Ok(Value::Unit)));
    assert!(matches!(env.get("twice"), Some(Value::Closure(_))));
    let args = program("3 (x) x");
    assert_eq!(err_of(defun(&mut env, &args)), RuntimeErrorKind::MalformedForm);
}

#[test]
fn id_list_reads_names() {
    let nodes = program("(a b c)");
    assert_eq!(expect_id_list(&nodes[0]).unwrap(), vec!["a", "b", "c"]);
    let nodes = program("(a 1)");
    assert_eq!(expect_id_list(&nodes[0]).unwrap_err().kind, RuntimeErrorKind::MalformedForm);
    let nodes = program("a");
    assert!(expect_id_list(&nodes[0]).unwrap().is_empty());
}

#[test]
fn eval_function_dispatches_lazy_natives() {
    let env = default_env();
    let mut ctx = new_ctx();
    let args = program("(< 2 1) (write 1) 9");
    let r = eval_function(&env, &mut ctx, &Value::LazyFunction(rusp::value::LazyNative::If), &args, MAX_DEPTH);
    assert_eq!(int_of(r), 9);
    assert!(ctx.stdout.lines.is_empty());
}

#[test]
fn value_parse_of_tokens() {
    assert!(matches!(Value::parse(&Token::IntLiteral(4)), Ok(Value::Int(4))));
    assert!(matches!(Value::parse(&Token::StringLiteral("s".to_string())), Ok(Value::Str(s)) if s == "s"));
    assert_eq!(
        Value::parse(&Token::OpenParen).unwrap_err().kind,
        RuntimeErrorKind::InvalidNode
    );
    assert!(Value::Function(Native::Plus).is_callable());
    assert!(!Value::Int(1).is_callable());
}
