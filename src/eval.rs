use vstd::prelude::*;

use crate::builtins::{call_native, defun, if_impl, lambda, let_impl, list};
use crate::environment::{Context, Environment};
use crate::error::{RuntimeError, RuntimeErrorKind};
use crate::parser::{
    lemma_defun_view, lemma_program_view, lemma_sexpr_view, nodes_view, ASTNode, AstView,
};
use crate::semantics::{
    default_bindings, is_definition_call, lookup_name, sem_apply, sem_eval,
    sem_eval_args, sem_program, sem_statement, sem_statements, Env,
};
use crate::value::{
    is_callable_view, values_view, ClosureImpl, LazyNative, MutatingNative, Native, Value,
    ValueView,
};
use crate::environment::CtxView;
use vstd::slice::slice_subrange;
use vstd::string::StringExecFns;

verus! {

/// What evaluation returns: a value, or the error that stopped it.
pub type RuspResult = Result<Value, RuntimeError>;

/// How deep evaluation may nest within one top-level statement.
pub const MAX_DEPTH: u64 = 400;

pub open spec fn result_view(r: RuspResult) -> Result<ValueView, RuntimeErrorKind> {
    match r {
        Ok(v) => Ok(v@),
        Err(e) => Err(e.kind),
    }
}

pub open spec fn args_result_view(r: Result<Vec<Value>, RuntimeError>) -> Result<
    Seq<ValueView>,
    RuntimeErrorKind,
> {
    match r {
        Ok(v) => Ok(values_view(v@)),
        Err(e) => Err(e.kind),
    }
}

/// The environment that a run starts from: the natives under their names.
pub fn default_env() -> (r: Environment)
    ensures
        r@ == default_bindings(),
{
    let mut env = Environment::new();
    env.insert("<", Value::Function(Native::LessThan));
    env.insert("write", Value::Function(Native::Write));
    env.insert("if", Value::LazyFunction(LazyNative::If));
    env.insert("let", Value::LazyFunction(LazyNative::Let));
    env.insert("lambda", Value::LazyFunction(LazyNative::Lambda));
    env.insert("+", Value::Function(Native::Plus));
    env.insert("-", Value::Function(Native::Minus));
    env.insert("str", Value::Function(Native::Str));
    env.insert("list", Value::LazyFunction(LazyNative::List));
    env.insert("readline", Value::Function(Native::Readline));
    env.insert("defun", Value::EnvMutatingFunction(MutatingNative::Defun));
    proof {
        reveal_strlit("<");
        reveal_strlit("write");
        reveal_strlit("if");
        reveal_strlit("let");
        reveal_strlit("lambda");
        reveal_strlit("+");
        reveal_strlit("-");
        reveal_strlit("str");
        reveal_strlit("list");
        reveal_strlit("readline");
        reveal_strlit("defun");
        assert("<"@ =~= seq!['<']);
        assert("write"@ =~= seq!['w', 'r', 'i', 't', 'e']);
        assert("if"@ =~= seq!['i', 'f']);
        assert("let"@ =~= seq!['l', 'e', 't']);
        assert("lambda"@ =~= seq!['l', 'a', 'm', 'b', 'd', 'a']);
        assert("+"@ =~= seq!['+']);
        assert("-"@ =~= seq!['-']);
        assert("str"@ =~= seq!['s', 't', 'r']);
        assert("list"@ =~= seq!['l', 'i', 's', 't']);
        assert("readline"@ =~= seq!['r', 'e', 'a', 'd', 'l', 'i', 'n', 'e']);
        assert("defun"@ =~= seq!['d', 'e', 'f', 'u', 'n']);
    }
    env
}

/// Once a prefix of the operands fails, evaluating all of them fails the same way.
proof fn lemma_args_prefix_err(fuel: nat, env: Env, ctx: CtxView, args: Seq<AstView>, n: int)
    requires
        0 <= n <= args.len(),
        sem_eval_args(fuel, env, ctx, args.take(n)).0 is Err,
    ensures
        sem_eval_args(fuel, env, ctx, args) == sem_eval_args(fuel, env, ctx, args.take(n)),
    decreases args.len() - n,
{
    if n < args.len() {
        assert(args.take(n + 1).drop_last() =~= args.take(n));
        lemma_args_prefix_err(fuel, env, ctx, args, n + 1);
    } else {
        assert(args.take(n) =~= args);
    }
}

/// Once a prefix of the statements fails, the program fails the same way.
proof fn lemma_statements_prefix_err(
    fuel: nat,
    env: Env,
    ctx: CtxView,
    stmts: Seq<AstView>,
    n: int,
)
    requires
        0 <= n <= stmts.len(),
        sem_statements(fuel, env, ctx, stmts.take(n)).0 is Err,
    ensures
        sem_statements(fuel, env, ctx, stmts) == sem_statements(fuel, env, ctx, stmts.take(n)),
    decreases stmts.len() - n,
{
    if n < stmts.len() {
        assert(stmts.take(n + 1).drop_last() =~= stmts.take(n));
        lemma_statements_prefix_err(fuel, env, ctx, stmts, n + 1);
    } else {
        assert(stmts.take(n) =~= stmts);
    }
}

/// Evaluates the operands from left to right.
pub fn resolve_args(env: &Environment, ctx: &mut Context, args: &[ASTNode], depth: u64) -> (r:
    Result<Vec<Value>, RuntimeError>)
    requires
        old(ctx).wf(),
    ensures
        final(ctx).wf(),
        (args_result_view(r), final(ctx)@) == sem_eval_args(
            depth as nat,
            env@,
            old(ctx)@,
            nodes_view(args@),
        ),
    decreases depth, 1nat,
{
    let ghost nv = nodes_view(args@);
    let ghost c0 = ctx@;
    let mut arg_values: Vec<Value> = Vec::new();
    let mut i: usize = 0;
    assert(nv.take(0) =~= seq![]);
    assert(values_view(arg_values@) =~= seq![]);
    while i < args.len()
        invariant
            i <= args@.len(),
            ctx.wf(),
            c0 == old(ctx)@,
            nv == nodes_view(args@),
            sem_eval_args(depth as nat, env@, c0, nv.take(i as int)) == (
                Ok::<Seq<ValueView>, RuntimeErrorKind>(values_view(arg_values@)),
                ctx@,
            ),
        decreases args@.len() - i,
    {
        assert(nv.take(i as int + 1).drop_last() =~= nv.take(i as int));
        assert(nv.take(i as int + 1).last() == args@[i as int]@);
        match eval_at(env, ctx, &args[i], depth) {
            Ok(v) => {
                let ghost before = arg_values@;
                arg_values.push(v);
                assert(values_view(arg_values@) =~= values_view(before).push(v@));
            },
            Err(e) => {
                proof {
                    assert(sem_eval_args(depth as nat, env@, c0, nv.take(i as int + 1)).0 is Err);
                    lemma_args_prefix_err(depth as nat, env@, c0, nv, i as int + 1);
                }
                return Err(e);
            },
        }
        i = i + 1;
    }
    assert(nv.take(i as int) =~= nv);
    Ok(arg_values)
}

/// The value bound to `identifier`.
fn resolve_identifier(env: &Environment, identifier: &str) -> (r: RuspResult)
    ensures
        result_view(r) == lookup_name(env@, identifier@),
{
    match env.get(identifier) {
        Some(value) => Ok(value.duplicate()),
        None => {
            let mut message = "Failed to find identifier '".to_owned();
            message.append(identifier);
            message.append("' in the environment.");
            RuntimeError::new(RuntimeErrorKind::UnboundIdentifier, message.as_str())
        },
    }
}

/// Evaluates the operator of a call, which must be callable.
fn eval_expect_callable(env: &Environment, ctx: &mut Context, arg: &ASTNode, depth: u64) -> (r:
    RuspResult)
    requires
        old(ctx).wf(),
    ensures
        final(ctx).wf(),
        match sem_eval(depth as nat, env@, old(ctx)@, arg@) {
            (Ok(v), c) => final(ctx)@ == c && if is_callable_view(v) {
                (r matches Ok(x) && x@ == v)
            } else {
                (r matches Err(e) && e.kind == RuntimeErrorKind::NotCallable)
            },
            (Err(k), c) => final(ctx)@ == c && (r matches Err(e) && e.kind == k),
        },
    decreases depth, 1nat,
{
    let value = eval_at(env, ctx, arg, depth)?;
    if value.is_callable() {
        Ok(value)
    } else {
        RuntimeError::new(
            RuntimeErrorKind::NotCallable,
            "The operator of a call is not a function value.",
        )
    }
}

/// Applies a callable to unevaluated operands, by its kind.
pub fn eval_function(
    env: &Environment,
    ctx: &mut Context,
    func: &Value,
    args: &[ASTNode],
    depth: u64,
) -> (r: RuspResult)
    requires
        old(ctx).wf(),
    ensures
        final(ctx).wf(),
        (result_view(r), final(ctx)@) == sem_apply(
            depth as nat,
            env@,
            old(ctx)@,
            func@,
            nodes_view(args@),
        ),
    decreases depth, 3nat,
{
    match func {
        Value::Closure(closure) => {
            let vals = resolve_args(env, ctx, args, depth)?;
            closure.invoke(env, ctx, vals.as_slice(), depth)
        },
        Value::Function(n) => {
            let vals = resolve_args(env, ctx, args, depth)?;
            call_native(*n, env, ctx, vals.as_slice())
        },
        Value::LazyFunction(l) => match l {
            LazyNative::If => if_impl(env, ctx, args, depth),
            LazyNative::Let => let_impl(env, ctx, args, depth),
            LazyNative::Lambda => lambda(env, ctx, args),
            LazyNative::List => list(env, ctx, args, depth),
        },
        Value::EnvMutatingFunction(_) => RuntimeError::new(
            RuntimeErrorKind::MisplacedDefinition,
            "A definition may only stand as a top-level statement.",
        ),
        _ => RuntimeError::new(
            RuntimeErrorKind::NotCallable,
            "Could not evaluate a value as a function call.",
        ),
    }
}

/// Evaluates `ast` in `env`, nesting at most `depth` levels deep.
pub fn eval_at(env: &Environment, ctx: &mut Context, ast: &ASTNode, depth: u64) -> (r:
    RuspResult)
    requires
        old(ctx).wf(),
    ensures
        final(ctx).wf(),
        (result_view(r), final(ctx)@) == sem_eval(depth as nat, env@, old(ctx)@, ast@),
    decreases depth, 0nat,
{
    if depth == 0 {
        return RuntimeError::new(
            RuntimeErrorKind::DepthExceeded,
            "Evaluation nested too deeply.",
        );
    }
    match ast {
        ASTNode::Terminal { token } => Value::parse(token),
        ASTNode::Identifier { name } => resolve_identifier(env, name.as_str()),
        ASTNode::SExpr { children } => {
            proof {
                lemma_sexpr_view(*children);
            }
            if children.len() == 0 {
                return RuntimeError::new(RuntimeErrorKind::NotCallable, "Found an empty call.");
            }
            let func = eval_expect_callable(env, ctx, &children[0], depth - 1)?;
            let operands = slice_subrange(children.as_slice(), 1, children.len());
            assert(nodes_view(operands@) =~= nodes_view(children@).drop_first());
            eval_function(env, ctx, &func, operands, depth - 1)
        },
        _ => RuntimeError::new(
            RuntimeErrorKind::InvalidNode,
            "Found a program or a definition inside an expression.",
        ),
    }
}

/// Evaluates `ast` in `env`. The environment is left as it is.
pub fn eval(env: &Environment, ctx: &mut Context, ast: &ASTNode) -> (r: RuspResult)
    requires
        old(ctx).wf(),
    ensures
        final(ctx).wf(),
        (result_view(r), final(ctx)@) == sem_eval(MAX_DEPTH as nat, env@, old(ctx)@, ast@),
{
    eval_at(env, ctx, ast, MAX_DEPTH)
}

/// The name that a bare identifier node holds.
fn extract_identifier(node: &ASTNode) -> (r: Option<String>)
    ensures
        match node@ {
            AstView::Identifier(n) => r matches Some(s) && s@ == n,
            _ => r is None,
        },
{
    if let ASTNode::Identifier { name } = node {
        Some(name.clone())
    } else {
        None
    }
}

/// Whether `children` is a call whose operator is a name bound to a definition native.
fn is_definition_target(env: &Environment, children: &Vec<ASTNode>) -> (r: bool)
    ensures
        r == is_definition_call(env@, AstView::SExpr(nodes_view(children@))),
{
    if children.len() == 0 {
        return false;
    }
    match extract_identifier(&children[0]) {
        Some(name) => match env.get(name.as_str()) {
            Some(Value::EnvMutatingFunction(_)) => true,
            _ => false,
        },
        None => false,
    }
}

/// Evaluates one top-level statement. A definition, or a call of a name bound to a definition
/// native, adds a binding to `env`; anything else is evaluated without changing it.
pub fn eval_maybe_mutate_env(env: &mut Environment, ctx: &mut Context, ast: &ASTNode) -> (r: RuspResult)
    requires
        old(ctx).wf(),
    ensures
        final(ctx).wf(),
        (result_view(r), final(env)@, final(ctx)@) == sem_statement(
            MAX_DEPTH as nat,
            old(env)@,
            old(ctx)@,
            ast@,
        ),
{
    match ast {
        ASTNode::Defun { name, params, body } => {
            proof {
                lemma_defun_view(*name, *params, *body);
            }
            let closure = Value::Closure(ClosureImpl::new_rc(params.as_slice(), body.as_slice()));
            env.insert(name.as_str(), closure);
            Ok(Value::Unit)
        },
        ASTNode::SExpr { children } => {
            proof {
                lemma_sexpr_view(*children);
            }
            if is_definition_target(env, children) {
                let operands = slice_subrange(children.as_slice(), 1, children.len());
                assert(nodes_view(operands@) =~= nodes_view(children@).drop_first());
                defun(env, operands)
            } else {
                eval(env, ctx, ast)
            }
        },
        _ => eval(env, ctx, ast),
    }
}

/// Evaluates a program: each statement in turn, each seeing the definitions of those before
/// it. The first error stops the run.
pub fn eval_program(env: &mut Environment, ctx: &mut Context, ast: &ASTNode) -> (r: RuspResult)
    requires
        old(ctx).wf(),
    ensures
        final(ctx).wf(),
        (result_view(r), final(env)@, final(ctx)@) == sem_program(
            MAX_DEPTH as nat,
            old(env)@,
            old(ctx)@,
            ast@,
        ),
{
    match ast {
        ASTNode::Program { statements } => {
            proof {
                lemma_program_view(*statements);
            }
            let ghost sv = nodes_view(statements@);
            let ghost e0 = env@;
            let ghost c0 = ctx@;
            let mut i: usize = 0;
            assert(sv.take(0) =~= seq![]);
            while i < statements.len()
                invariant
                    i <= statements@.len(),
                    ctx.wf(),
                    c0 == old(ctx)@,
                    e0 == old(env)@,
                    ast@ == AstView::Program(sv),
                    sv == nodes_view(statements@),
                    sem_statements(MAX_DEPTH as nat, e0, c0, sv.take(i as int)) == (
                        Ok::<ValueView, RuntimeErrorKind>(ValueView::Unit),
                        env@,
                        ctx@,
                    ),
                decreases statements@.len() - i,
            {
                assert(sv.take(i as int + 1).drop_last() =~= sv.take(i as int));
                assert(sv.take(i as int + 1).last() == statements@[i as int]@);
                match eval_maybe_mutate_env(env, ctx, &statements[i]) {
                    Ok(_) => {},
                    Err(e) => {
                        proof {
                            assert(sem_statements(MAX_DEPTH as nat, e0, c0, sv.take(i as int + 1)).0 is Err);
                            lemma_statements_prefix_err(
                                MAX_DEPTH as nat,
                                e0,
                                c0,
                                sv,
                                i as int + 1,
                            );
                        }
                        return Err(e);
                    },
                }
                i = i + 1;
            }
            assert(sv.take(i as int) =~= sv);
            Ok(Value::Unit)
        },
        _ => eval_maybe_mutate_env(env, ctx, ast),
    }
}

} // verus!
