use vstd::prelude::*;

use crate::environment::{Context, CtxView, Environment};
use crate::error::{RuntimeError, RuntimeErrorKind};
use crate::eval::{eval_at, resolve_args, result_view, RuspResult};
use crate::parser::{
    copy_names, copy_nodes, lemma_sexpr_view, names_view, nodes_view, ASTNode, AstView,
};
use crate::semantics::{
    bind_all, define_binding, id_list, int_op, lambda_value, native_call, param_names, sem_apply,
    sem_if, sem_invoke, sem_let, sem_seq, Env,
};
use crate::value::{lemma_list_view, values_view, ClosureImpl, LazyNative, Native, Value, ValueView};
use std::rc::Rc;
use vstd::slice::slice_subrange;

verus! {

/// `(readline)`: the next input line.
pub fn readline(_env: &Environment, ctx: &mut Context, args: &[Value]) -> (r: RuspResult)
    requires
        old(ctx).wf(),
    ensures
        final(ctx).wf(),
        (result_view(r), final(ctx)@) == native_call(
            Native::Readline,
            values_view(args@),
            old(ctx)@,
        ),
{
    if args.len() != 0 {
        return RuntimeError::new(RuntimeErrorKind::ArityMismatch, "'readline' takes no operands.");
    }
    match ctx.read_line() {
        Some(line) => Ok(Value::Str(line)),
        None => RuntimeError::new(RuntimeErrorKind::InputExhausted, "No input line is left."),
    }
}

/// Integer addition, subtraction or comparison of two values.
fn binary_int_func(op: Native, lhs: &Value, rhs: &Value) -> (r: RuspResult)
    requires
        op == Native::Plus || op == Native::Minus || op == Native::LessThan,
    ensures
        result_view(r) == match (lhs@, rhs@) {
            (ValueView::Int(a), ValueView::Int(b)) => int_op(op, a, b),
            _ => Err(RuntimeErrorKind::TypeError),
        },
{
    match (lhs, rhs) {
        (Value::Int(a), Value::Int(b)) => {
            if op == Native::LessThan {
                Ok(Value::Boolean(*a < *b))
            } else if op == Native::Plus {
                match a.checked_add(*b) {
                    Some(s) => Ok(Value::Int(s)),
                    None => RuntimeError::new(RuntimeErrorKind::Overflow, "'+' overflowed."),
                }
            } else {
                match a.checked_sub(*b) {
                    Some(s) => Ok(Value::Int(s)),
                    None => RuntimeError::new(RuntimeErrorKind::Overflow, "'-' overflowed."),
                }
            }
        },
        _ => RuntimeError::new(
            RuntimeErrorKind::TypeError,
            "Expected both operands to be integers.",
        ),
    }
}

fn binary_native(op: Native, args: &[Value]) -> (r: RuspResult)
    requires
        op == Native::Plus || op == Native::Minus || op == Native::LessThan,
    ensures
        result_view(r) == if args@.len() != 2 {
            Err(RuntimeErrorKind::ArityMismatch)
        } else {
            match (args@[0]@, args@[1]@) {
                (ValueView::Int(a), ValueView::Int(b)) => int_op(op, a, b),
                _ => Err(RuntimeErrorKind::TypeError),
            }
        },
{
    if args.len() != 2 {
        return RuntimeError::new(RuntimeErrorKind::ArityMismatch, "Expected two operands.");
    }
    binary_int_func(op, &args[0], &args[1])
}

/// `(+ a b)`.
pub fn plus(_env: &Environment, ctx: &mut Context, args: &[Value]) -> (r: RuspResult)
    ensures
        *final(ctx) == *old(ctx),
        (result_view(r), final(ctx)@) == native_call(Native::Plus, values_view(args@), old(ctx)@),
{
    binary_native(Native::Plus, args)
}

/// `(- a b)`.
pub fn minus(_env: &Environment, ctx: &mut Context, args: &[Value]) -> (r: RuspResult)
    ensures
        *final(ctx) == *old(ctx),
        (result_view(r), final(ctx)@) == native_call(Native::Minus, values_view(args@), old(ctx)@),
{
    binary_native(Native::Minus, args)
}

/// `(< a b)`.
pub fn less_than(_env: &Environment, ctx: &mut Context, args: &[Value]) -> (r: RuspResult)
    ensures
        *final(ctx) == *old(ctx),
        (result_view(r), final(ctx)@) == native_call(
            Native::LessThan,
            values_view(args@),
            old(ctx)@,
        ),
{
    binary_native(Native::LessThan, args)
}

/// `(str v)`: the text of `v`.
pub fn to_str(_env: &Environment, ctx: &mut Context, args: &[Value]) -> (r: RuspResult)
    ensures
        *final(ctx) == *old(ctx),
        (result_view(r), final(ctx)@) == native_call(Native::Str, values_view(args@), old(ctx)@),
{
    if args.len() != 1 {
        return RuntimeError::new(RuntimeErrorKind::ArityMismatch, "'str' takes one operand.");
    }
    match args[0].runtime_to_str() {
        Ok(s) => Ok(Value::Str(s)),
        Err(e) => Err(e),
    }
}

/// `(write v)`: sends the text of `v` to the output as one line.
pub fn write_impl(_env: &Environment, ctx: &mut Context, args: &[Value]) -> (r: RuspResult)
    requires
        old(ctx).wf(),
    ensures
        final(ctx).wf(),
        (result_view(r), final(ctx)@) == native_call(Native::Write, values_view(args@), old(ctx)@),
{
    if args.len() != 1 {
        return RuntimeError::new(RuntimeErrorKind::ArityMismatch, "'write' takes one operand.");
    }
    match args[0].runtime_to_str() {
        Ok(s) => {
            ctx.stdout.write(s);
            Ok(Value::Unit)
        },
        Err(e) => Err(e),
    }
}

/// Calls an eager native on evaluated operands.
pub fn call_native(n: Native, env: &Environment, ctx: &mut Context, args: &[Value]) -> (r:
    RuspResult)
    requires
        old(ctx).wf(),
    ensures
        final(ctx).wf(),
        (result_view(r), final(ctx)@) == native_call(n, values_view(args@), old(ctx)@),
{
    match n {
        Native::Plus => plus(env, ctx, args),
        Native::Minus => minus(env, ctx, args),
        Native::LessThan => less_than(env, ctx, args),
        Native::Write => write_impl(env, ctx, args),
        Native::Str => to_str(env, ctx, args),
        Native::Readline => readline(env, ctx, args),
    }
}

/// `(list a b ...)`: the values of the operands, in order.
pub fn list(env: &Environment, ctx: &mut Context, args: &[ASTNode], depth: u64) -> (r: RuspResult)
    requires
        old(ctx).wf(),
    ensures
        final(ctx).wf(),
        (result_view(r), final(ctx)@) == sem_apply(
            depth as nat,
            env@,
            old(ctx)@,
            ValueView::LazyFunction(LazyNative::List),
            nodes_view(args@),
        ),
    decreases depth, 2nat,
{
    let lst = resolve_args(env, ctx, args, depth)?;
    proof {
        lemma_list_view(lst);
    }
    Ok(Value::List(Rc::new(lst)))
}

/// `(let name bound body)`.
pub fn let_impl(env: &Environment, ctx: &mut Context, args: &[ASTNode], depth: u64) -> (r:
    RuspResult)
    requires
        old(ctx).wf(),
    ensures
        final(ctx).wf(),
        (result_view(r), final(ctx)@) == sem_let(depth as nat, env@, old(ctx)@, nodes_view(args@)),
    decreases depth, 2nat,
{
    if args.len() != 3 {
        return RuntimeError::new(RuntimeErrorKind::ArityMismatch, "'let' takes three operands.");
    }
    let bound_value = eval_at(env, ctx, &args[1], depth)?;
    match &args[0] {
        ASTNode::Identifier { name } => {
            let new_env = env.extend(name.as_str(), bound_value);
            eval_at(&new_env, ctx, &args[2], depth)
        },
        _ => RuntimeError::new(
            RuntimeErrorKind::MalformedForm,
            "The first operand of 'let' must be an identifier.",
        ),
    }
}

/// `(if cond then else)`.
pub fn if_impl(env: &Environment, ctx: &mut Context, args: &[ASTNode], depth: u64) -> (r:
    RuspResult)
    requires
        old(ctx).wf(),
    ensures
        final(ctx).wf(),
        (result_view(r), final(ctx)@) == sem_if(depth as nat, env@, old(ctx)@, nodes_view(args@)),
    decreases depth, 2nat,
{
    if args.len() != 3 {
        return RuntimeError::new(RuntimeErrorKind::ArityMismatch, "'if' takes three operands.");
    }
    match eval_at(env, ctx, &args[0], depth)? {
        Value::Boolean(condition) => {
            if condition {
                eval_at(env, ctx, &args[1], depth)
            } else {
                eval_at(env, ctx, &args[2], depth)
            }
        },
        _ => RuntimeError::new(RuntimeErrorKind::TypeError, "Could not evaluate value as bool."),
    }
}

/// Once a prefix of a list has a node that is not an identifier, so has the list.
proof fn lemma_id_list_prefix_err(nodes: Seq<AstView>, n: int)
    requires
        0 <= n <= nodes.len(),
        id_list(nodes.take(n)) is Err,
    ensures
        id_list(nodes) == id_list(nodes.take(n)),
    decreases nodes.len() - n,
{
    if n < nodes.len() {
        assert(nodes.take(n + 1).drop_last() =~= nodes.take(n));
        lemma_id_list_prefix_err(nodes, n + 1);
    } else {
        assert(nodes.take(n) =~= nodes);
    }
}

/// The parameter names that a parameter-list node gives.
pub fn expect_id_list(node: &ASTNode) -> (r: Result<Vec<String>, RuntimeError>)
    ensures
        match param_names(node@) {
            Ok(ids) => r matches Ok(v) && names_view(v@) == ids,
            Err(k) => r matches Err(e) && e.kind == k,
        },
{
    let mut ids: Vec<String> = Vec::new();
    if let ASTNode::SExpr { children } = node {
        proof {
            lemma_sexpr_view(*children);
        }
        let ghost nv = nodes_view(children@);
        let mut i: usize = 0;
        assert(nv.take(0) =~= seq![]);
        assert(names_view(ids@) =~= seq![]);
        while i < children.len()
            invariant
                i <= children@.len(),
                nv == nodes_view(children@),
                param_names(node@) == id_list(nv),
                id_list(nv.take(i as int)) == Ok::<Seq<Seq<char>>, RuntimeErrorKind>(
                    names_view(ids@),
                ),
            decreases children@.len() - i,
        {
            assert(nv.take(i as int + 1).drop_last() =~= nv.take(i as int));
            assert(nv.take(i as int + 1).last() == children@[i as int]@);
            if let ASTNode::Identifier { name } = &children[i] {
                let ghost before = ids@;
                ids.push(name.clone());
                assert(names_view(ids@) =~= names_view(before).push(name@));
            } else {
                proof {
                    assert(id_list(nv.take(i as int + 1)) is Err);
                    lemma_id_list_prefix_err(nv, i as int + 1);
                    assert(param_names(node@) == id_list(nv));
                }
                return RuntimeError::new(
                    RuntimeErrorKind::MalformedForm,
                    "Found an expression in a parameter list that isn't an identifier.",
                );
            }
            i = i + 1;
        }
        assert(nv.take(i as int) =~= nv);
    }
    Ok(ids)
}

/// `(lambda params body)`: a closure; nothing is evaluated.
pub fn lambda(_env: &Environment, ctx: &mut Context, args: &[ASTNode]) -> (r: RuspResult)
    ensures
        *final(ctx) == *old(ctx),
        result_view(r) == lambda_value(nodes_view(args@)),
{
    if args.len() != 2 {
        return RuntimeError::new(RuntimeErrorKind::ArityMismatch, "'lambda' takes two operands.");
    }
    let ids = expect_id_list(&args[0])?;
    let body = slice_subrange(args, 1, 2);
    let closure = ClosureImpl::new_rc(ids.as_slice(), body);
    assert(nodes_view(body@) =~= seq![nodes_view(args@)[1]]);
    Ok(Value::Closure(closure))
}

/// `(defun name params body...)`: binds `name` to a closure in `env`.
pub fn defun(env: &mut Environment, args: &[ASTNode]) -> (r: RuspResult)
    ensures
        match define_binding(nodes_view(args@)) {
            Ok((n, v)) => r matches Ok(u) && u@ == ValueView::Unit && final(env)@ == old(env)@.insert(
                n,
                v,
            ),
            Err(k) => r matches Err(e) && e.kind == k && final(env)@ == old(env)@,
        },
{
    if args.len() < 2 {
        return RuntimeError::new(
            RuntimeErrorKind::ArityMismatch,
            "'defun' takes a name, a parameter list and a body.",
        );
    }
    let name = match &args[0] {
        ASTNode::Identifier { name } => name,
        _ => {
            return RuntimeError::new(
                RuntimeErrorKind::MalformedForm,
                "Expected identifier as first argument to defun.",
            );
        },
    };
    let ids = expect_id_list(&args[1])?;
    let body = slice_subrange(args, 2, args.len());
    let closure = Value::Closure(ClosureImpl::new_rc(ids.as_slice(), body));
    assert(nodes_view(body@) =~= nodes_view(args@).subrange(2, args@.len() as int));
    env.insert(name.as_str(), closure);
    Ok(Value::Unit)
}

/// Once a prefix of a body fails, the whole body fails the same way.
proof fn lemma_seq_prefix_err(
    fuel: nat,
    env: Env,
    ctx: CtxView,
    exprs: Seq<AstView>,
    n: int,
)
    requires
        0 <= n <= exprs.len(),
        sem_seq(fuel, env, ctx, exprs.take(n)).0 is Err,
    ensures
        sem_seq(fuel, env, ctx, exprs) == sem_seq(fuel, env, ctx, exprs.take(n)),
    decreases exprs.len() - n,
{
    if n < exprs.len() {
        assert(exprs.take(n + 1).drop_last() =~= exprs.take(n));
        lemma_seq_prefix_err(fuel, env, ctx, exprs, n + 1);
    } else {
        assert(exprs.take(n) =~= exprs);
    }
}

impl ClosureImpl {
    /// A shared closure over copies of the names and body expressions.
    pub fn new_rc(ids: &[String], body: &[ASTNode]) -> (r: Rc<ClosureImpl>)
        ensures
            names_view(r.ids@) == names_view(ids@),
            nodes_view(r.body@) == nodes_view(body@),
    {
        Rc::new(ClosureImpl { ids: copy_names(ids), body: copy_nodes(body) })
    }

    /// Calls the closure on evaluated arguments, in the calling environment.
    pub fn invoke(&self, env: &Environment, ctx: &mut Context, args: &[Value], depth: u64) -> (r:
        RuspResult)
        requires
            old(ctx).wf(),
        ensures
            final(ctx).wf(),
            (result_view(r), final(ctx)@) == sem_invoke(
                depth as nat,
                env@,
                old(ctx)@,
                names_view(self.ids@),
                nodes_view(self.body@),
                values_view(args@),
            ),
        decreases depth, 2nat,
    {
        if self.ids.len() != args.len() {
            return RuntimeError::new(
                RuntimeErrorKind::ArityMismatch,
                "Invalid number of arguments passed to a closure.",
            );
        }
        if self.body.len() == 0 {
            return RuntimeError::new(
                RuntimeErrorKind::EmptyBody,
                "Not enough expressions in the closure body.",
            );
        }
        let ghost ids = names_view(self.ids@);
        let ghost vals = values_view(args@);
        let mut new_env = env.duplicate();
        let mut i: usize = 0;
        while i < self.ids.len()
            invariant
                i <= self.ids@.len(),
                self.ids@.len() == args@.len(),
                ids == names_view(self.ids@),
                vals == values_view(args@),
                new_env@ == bind_all(env@, ids.take(i as int), vals.take(i as int)),
            decreases self.ids@.len() - i,
        {
            assert(ids.take(i as int + 1).drop_last() =~= ids.take(i as int));
            assert(vals.take(i as int + 1).drop_last() =~= vals.take(i as int));
            new_env.insert(self.ids[i].as_str(), args[i].duplicate());
            i = i + 1;
        }
        assert(ids.take(i as int) =~= ids);
        assert(vals.take(i as int) =~= vals);
        let ghost body = nodes_view(self.body@);
        let ghost c0 = ctx@;
        let mut result = Value::Unit;
        let mut j: usize = 0;
        assert(body.take(0) =~= seq![]);
        while j < self.body.len()
            invariant
                j <= self.body@.len(),
                ctx.wf(),
                c0 == old(ctx)@,
                new_env@ == bind_all(env@, ids, vals),
                ids == names_view(self.ids@),
                vals == values_view(args@),
                self.ids@.len() == args@.len(),
                self.body@.len() > 0,
                body == nodes_view(self.body@),
                sem_seq(depth as nat, new_env@, c0, body.take(j as int)) == (
                    Ok::<ValueView, RuntimeErrorKind>(result@),
                    ctx@,
                ),
            decreases self.body@.len() - j,
        {
            assert(body.take(j as int + 1).drop_last() =~= body.take(j as int));
            assert(body.take(j as int + 1).last() == self.body@[j as int]@);
            match eval_at(&new_env, ctx, &self.body[j], depth) {
                Ok(v) => {
                    result = v;
                },
                Err(e) => {
                    proof {
                        assert(sem_seq(depth as nat, new_env@, c0, body.take(j as int + 1)).0 is Err);
                        lemma_seq_prefix_err(depth as nat, new_env@, c0, body, j as int + 1);
                    }
                    return Err(e);
                },
            }
            j = j + 1;
        }
        assert(body.take(j as int) =~= body);
        Ok(result)
    }
}

} // verus!
