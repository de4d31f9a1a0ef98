//! The meaning of programs, stated as spec functions over the models of syntax trees, values,
//! environments and contexts. The evaluator in `eval` and `builtins` is proved to compute it.
use vstd::prelude::*;

use crate::environment::CtxView;
use crate::error::RuntimeErrorKind;
use crate::parser::AstView;
use crate::value::{
    is_callable_view, literal_value, text_of, LazyNative, MutatingNative, Native, ValueView,
};

verus! {

/// The model of an environment: names bound to values.
pub type Env = Map<Seq<char>, ValueView>;

/// What evaluating an expression gives: a value or an error, and the context afterwards.
pub type Outcome = (Result<ValueView, RuntimeErrorKind>, CtxView);

/// What evaluating a list of operands gives: their values or an error, and the context afterwards.
pub type ArgsOutcome = (Result<Seq<ValueView>, RuntimeErrorKind>, CtxView);

/// What evaluating a top-level statement gives: also the environment afterwards.
pub type StatementOutcome = (Result<ValueView, RuntimeErrorKind>, Env, CtxView);

pub open spec fn lookup_name(env: Env, name: Seq<char>) -> Result<ValueView, RuntimeErrorKind> {
    if env.contains_key(name) {
        Ok(env[name])
    } else {
        Err(RuntimeErrorKind::UnboundIdentifier)
    }
}

/// Integer addition, subtraction and comparison; a result outside 64 bits is an overflow.
pub open spec fn int_op(n: Native, a: i64, b: i64) -> Result<ValueView, RuntimeErrorKind> {
    let s: int = if n == Native::Plus {
        a + b
    } else {
        a - b
    };
    if n == Native::LessThan {
        Ok(ValueView::Boolean(a < b))
    } else if i64::MIN <= s <= i64::MAX {
        Ok(ValueView::Int(s as i64))
    } else {
        Err(RuntimeErrorKind::Overflow)
    }
}

/// A call of an eager native on evaluated operands.
pub open spec fn native_call(n: Native, args: Seq<ValueView>, ctx: CtxView) -> Outcome {
    match n {
        Native::Plus | Native::Minus | Native::LessThan => {
            if args.len() != 2 {
                (Err(RuntimeErrorKind::ArityMismatch), ctx)
            } else {
                match (args[0], args[1]) {
                    (ValueView::Int(a), ValueView::Int(b)) => (int_op(n, a, b), ctx),
                    _ => (Err(RuntimeErrorKind::TypeError), ctx),
                }
            }
        },
        Native::Str => {
            if args.len() != 1 {
                (Err(RuntimeErrorKind::ArityMismatch), ctx)
            } else {
                match text_of(args[0]) {
                    Some(t) => (Ok(ValueView::Str(t)), ctx),
                    None => (Err(RuntimeErrorKind::NotPrintable), ctx),
                }
            }
        },
        Native::Write => {
            if args.len() != 1 {
                (Err(RuntimeErrorKind::ArityMismatch), ctx)
            } else {
                match text_of(args[0]) {
                    Some(t) => (
                        Ok(ValueView::Unit),
                        CtxView { output: ctx.output.push(t), input: ctx.input },
                    ),
                    None => (Err(RuntimeErrorKind::NotPrintable), ctx),
                }
            }
        },
        Native::Readline => {
            if args.len() != 0 {
                (Err(RuntimeErrorKind::ArityMismatch), ctx)
            } else if ctx.input.len() == 0 {
                (Err(RuntimeErrorKind::InputExhausted), ctx)
            } else {
                (
                    Ok(ValueView::Str(ctx.input[0])),
                    CtxView { output: ctx.output, input: ctx.input.drop_first() },
                )
            }
        },
    }
}

/// The names of a list of identifier nodes; any other node makes the list malformed.
pub open spec fn id_list(nodes: Seq<AstView>) -> Result<Seq<Seq<char>>, RuntimeErrorKind>
    decreases nodes.len(),
{
    if nodes.len() == 0 {
        Ok(seq![])
    } else {
        match (id_list(nodes.drop_last()), nodes.last()) {
            (Ok(ids), AstView::Identifier(n)) => Ok(ids.push(n)),
            (Err(k), _) => Err(k),
            _ => Err(RuntimeErrorKind::MalformedForm),
        }
    }
}

/// The parameter names that a parameter-list node gives: a call node lists them, any other
/// node gives none.
pub open spec fn param_names(node: AstView) -> Result<Seq<Seq<char>>, RuntimeErrorKind> {
    match node {
        AstView::SExpr(children) => id_list(children),
        _ => Ok(seq![]),
    }
}

/// `(lambda params body)`: a closure over the parameter names and the one body expression.
pub open spec fn lambda_value(args: Seq<AstView>) -> Result<ValueView, RuntimeErrorKind> {
    if args.len() != 2 {
        Err(RuntimeErrorKind::ArityMismatch)
    } else {
        match param_names(args[0]) {
            Ok(ids) => Ok(ValueView::Closure(ids, seq![args[1]])),
            Err(k) => Err(k),
        }
    }
}

/// `(defun name params body...)`: the name and the closure that it is to be bound to.
pub open spec fn define_binding(args: Seq<AstView>) -> Result<
    (Seq<char>, ValueView),
    RuntimeErrorKind,
> {
    if args.len() < 2 {
        Err(RuntimeErrorKind::ArityMismatch)
    } else {
        match (args[0], param_names(args[1])) {
            (AstView::Identifier(n), Ok(ids)) => Ok(
                (n, ValueView::Closure(ids, args.subrange(2, args.len() as int))),
            ),
            (AstView::Identifier(_), Err(k)) => Err(k),
            _ => Err(RuntimeErrorKind::MalformedForm),
        }
    }
}

/// The environment with each parameter bound to its argument, in order.
pub open spec fn bind_all(env: Env, ids: Seq<Seq<char>>, vals: Seq<ValueView>) -> Env
    decreases ids.len(),
{
    if ids.len() == 0 || vals.len() == 0 {
        env
    } else {
        bind_all(env, ids.drop_last(), vals.drop_last()).insert(ids.last(), vals.last())
    }
}

/// Evaluating `node` in `env` with at most `fuel` levels of nesting.
pub open spec fn sem_eval(fuel: nat, env: Env, ctx: CtxView, node: AstView) -> Outcome
    decreases fuel, 0nat, 0nat,
{
    if fuel == 0 {
        (Err(RuntimeErrorKind::DepthExceeded), ctx)
    } else {
        let f = (fuel - 1) as nat;
        match node {
            AstView::Terminal(t) => (literal_value(t), ctx),
            AstView::Identifier(n) => (lookup_name(env, n), ctx),
            AstView::SExpr(children) => {
                if children.len() == 0 {
                    (Err(RuntimeErrorKind::NotCallable), ctx)
                } else {
                    let (op, c1) = sem_eval(f, env, ctx, children[0]);
                    match op {
                        Err(k) => (Err(k), c1),
                        Ok(v) => if is_callable_view(v) {
                            sem_apply(f, env, c1, v, children.drop_first())
                        } else {
                            (Err(RuntimeErrorKind::NotCallable), c1)
                        },
                    }
                }
            },
            _ => (Err(RuntimeErrorKind::InvalidNode), ctx),
        }
    }
}

/// Applying the callable `func` to the operand nodes `args`.
pub open spec fn sem_apply(
    fuel: nat,
    env: Env,
    ctx: CtxView,
    func: ValueView,
    args: Seq<AstView>,
) -> Outcome
    decreases fuel, 3nat, 0nat,
{
    match func {
        ValueView::Function(n) => {
            let (vals, c1) = sem_eval_args(fuel, env, ctx, args);
            match vals {
                Err(k) => (Err(k), c1),
                Ok(vs) => native_call(n, vs, c1),
            }
        },
        ValueView::Closure(ids, body) => {
            let (vals, c1) = sem_eval_args(fuel, env, ctx, args);
            match vals {
                Err(k) => (Err(k), c1),
                Ok(vs) => sem_invoke(fuel, env, c1, ids, body, vs),
            }
        },
        ValueView::LazyFunction(LazyNative::If) => sem_if(fuel, env, ctx, args),
        ValueView::LazyFunction(LazyNative::Let) => sem_let(fuel, env, ctx, args),
        ValueView::LazyFunction(LazyNative::Lambda) => (lambda_value(args), ctx),
        ValueView::LazyFunction(LazyNative::List) => {
            let (vals, c1) = sem_eval_args(fuel, env, ctx, args);
            match vals {
                Err(k) => (Err(k), c1),
                Ok(vs) => (Ok(ValueView::List(vs)), c1),
            }
        },
        ValueView::EnvMutatingFunction(_) => (Err(RuntimeErrorKind::MisplacedDefinition), ctx),
        _ => (Err(RuntimeErrorKind::NotCallable), ctx),
    }
}

/// Calling a closure on evaluated arguments: the arity must match, the body must not be empty,
/// and the body runs in the calling environment extended with the parameters.
pub open spec fn sem_invoke(
    fuel: nat,
    env: Env,
    ctx: CtxView,
    ids: Seq<Seq<char>>,
    body: Seq<AstView>,
    vals: Seq<ValueView>,
) -> Outcome
    decreases fuel, 2nat, 0nat,
{
    if ids.len() != vals.len() {
        (Err(RuntimeErrorKind::ArityMismatch), ctx)
    } else if body.len() == 0 {
        (Err(RuntimeErrorKind::EmptyBody), ctx)
    } else {
        sem_seq(fuel, bind_all(env, ids, vals), ctx, body)
    }
}

/// Evaluating expressions in turn; the last one's value is the result, unit where there is none.
pub open spec fn sem_seq(fuel: nat, env: Env, ctx: CtxView, exprs: Seq<AstView>) -> Outcome
    decreases fuel, 1nat, exprs.len(),
{
    if exprs.len() == 0 {
        (Ok(ValueView::Unit), ctx)
    } else {
        let (r, c) = sem_seq(fuel, env, ctx, exprs.drop_last());
        match r {
            Err(k) => (Err(k), c),
            Ok(_) => sem_eval(fuel, env, c, exprs.last()),
        }
    }
}

/// Evaluating operands from left to right, stopping at the first error.
pub open spec fn sem_eval_args(fuel: nat, env: Env, ctx: CtxView, args: Seq<AstView>) -> ArgsOutcome
    decreases fuel, 1nat, args.len(),
{
    if args.len() == 0 {
        (Ok(seq![]), ctx)
    } else {
        let (r, c) = sem_eval_args(fuel, env, ctx, args.drop_last());
        match r {
            Err(k) => (Err(k), c),
            Ok(vs) => {
                let (v, c2) = sem_eval(fuel, env, c, args.last());
                match v {
                    Err(k) => (Err(k), c2),
                    Ok(x) => (Ok(vs.push(x)), c2),
                }
            },
        }
    }
}

/// `(if cond then else)`: the condition must be a boolean; only the chosen branch is evaluated.
pub open spec fn sem_if(fuel: nat, env: Env, ctx: CtxView, args: Seq<AstView>) -> Outcome
    decreases fuel, 2nat, 0nat,
{
    if args.len() != 3 {
        (Err(RuntimeErrorKind::ArityMismatch), ctx)
    } else {
        let (c, c1) = sem_eval(fuel, env, ctx, args[0]);
        match c {
            Err(k) => (Err(k), c1),
            Ok(ValueView::Boolean(b)) => sem_eval(
                fuel,
                env,
                c1,
                if b {
                    args[1]
                } else {
                    args[2]
                },
            ),
            Ok(_) => (Err(RuntimeErrorKind::TypeError), c1),
        }
    }
}

/// `(let name bound body)`: `bound` is evaluated in the outer environment, `body` in the
/// environment extended with `name`.
pub open spec fn sem_let(fuel: nat, env: Env, ctx: CtxView, args: Seq<AstView>) -> Outcome
    decreases fuel, 2nat, 0nat,
{
    if args.len() != 3 {
        (Err(RuntimeErrorKind::ArityMismatch), ctx)
    } else {
        let (v, c1) = sem_eval(fuel, env, ctx, args[1]);
        match v {
            Err(k) => (Err(k), c1),
            Ok(x) => match args[0] {
                AstView::Identifier(n) => sem_eval(fuel, env.insert(n, x), c1, args[2]),
                _ => (Err(RuntimeErrorKind::MalformedForm), c1),
            },
        }
    }
}

/// Whether a statement is a call whose operator is a name bound to a definition native.
pub open spec fn is_definition_call(env: Env, node: AstView) -> bool {
    &&& node matches AstView::SExpr(children)
    &&& children.len() > 0
    &&& children[0] matches AstView::Identifier(n)
    &&& env.contains_key(n)
    &&& env[n] is EnvMutatingFunction
}

/// A top-level statement: a definition installs a binding; anything else is evaluated.
pub open spec fn sem_statement(fuel: nat, env: Env, ctx: CtxView, node: AstView) -> StatementOutcome {
    match node {
        AstView::Defun(name, params, body) => (
            Ok(ValueView::Unit),
            env.insert(name, ValueView::Closure(params, body)),
            ctx,
        ),
        _ => {
            if is_definition_call(env, node) {
                match define_binding(node->SExpr_0.drop_first()) {
                    Ok((n, v)) => (Ok(ValueView::Unit), env.insert(n, v), ctx),
                    Err(k) => (Err(k), env, ctx),
                }
            } else {
                let (r, c) = sem_eval(fuel, env, ctx, node);
                (r, env, c)
            }
        },
    }
}

/// Top-level statements in turn, each seeing the bindings of those before it; the first error
/// stops the run.
pub open spec fn sem_statements(
    fuel: nat,
    env: Env,
    ctx: CtxView,
    stmts: Seq<AstView>,
) -> StatementOutcome
    decreases stmts.len(),
{
    if stmts.len() == 0 {
        (Ok(ValueView::Unit), env, ctx)
    } else {
        let (r, e, c) = sem_statements(fuel, env, ctx, stmts.drop_last());
        match r {
            Err(k) => (Err(k), e, c),
            Ok(_) => {
                let (r2, e2, c2) = sem_statement(fuel, e, c, stmts.last());
                match r2 {
                    Ok(_) => (Ok(ValueView::Unit), e2, c2),
                    Err(k) => (Err(k), e2, c2),
                }
            },
        }
    }
}

/// A whole program; a node that is not a program is taken as one statement.
pub open spec fn sem_program(fuel: nat, env: Env, ctx: CtxView, node: AstView) -> StatementOutcome {
    match node {
        AstView::Program(stmts) => sem_statements(fuel, env, ctx, stmts),
        _ => sem_statement(fuel, env, ctx, node),
    }
}

/// The bindings that a run starts from.
pub open spec fn default_bindings() -> Env {
    Map::empty().insert(seq!['<'], ValueView::Function(Native::LessThan)).insert(
        seq!['w', 'r', 'i', 't', 'e'],
        ValueView::Function(Native::Write),
    ).insert(seq!['i', 'f'], ValueView::LazyFunction(LazyNative::If)).insert(
        seq!['l', 'e', 't'],
        ValueView::LazyFunction(LazyNative::Let),
    ).insert(
        seq!['l', 'a', 'm', 'b', 'd', 'a'],
        ValueView::LazyFunction(LazyNative::Lambda),
    ).insert(seq!['+'], ValueView::Function(Native::Plus)).insert(
        seq!['-'],
        ValueView::Function(Native::Minus),
    ).insert(seq!['s', 't', 'r'], ValueView::Function(Native::Str)).insert(
        seq!['l', 'i', 's', 't'],
        ValueView::LazyFunction(LazyNative::List),
    ).insert(
        seq!['r', 'e', 'a', 'd', 'l', 'i', 'n', 'e'],
        ValueView::Function(Native::Readline),
    ).insert(
        seq!['d', 'e', 'f', 'u', 'n'],
        ValueView::EnvMutatingFunction(MutatingNative::Defun),
    )
}

} // verus!
