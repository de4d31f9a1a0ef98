//! Properties of the language that hold for every program, proved from the semantics.
use vstd::prelude::*;

use crate::environment::CtxView;
use crate::error::RuntimeErrorKind;
use crate::parser::AstView;
use crate::semantics::{
    bind_all, native_call, sem_apply, sem_eval, sem_eval_args, sem_if, sem_seq, sem_statement,
    sem_statements, Env,
};
use crate::value::{LazyNative, Native, ValueView};

verus! {

/// `(if c a b)`: once the condition `c` evaluates to `true`, the else-branch is never evaluated:
/// the value and the output are the same whatever that branch holds. Likewise for `false` and
/// the then-branch.
pub proof fn lemma_if_untaken_branch_irrelevant(
    fuel: nat,
    env: Env,
    ctx: CtxView,
    if_name: Seq<char>,
    c: AstView,
    a1: AstView,
    a2: AstView,
    b1: AstView,
    b2: AstView,
)
    requires
        fuel > 0,
        env.contains_key(if_name),
        env[if_name] == ValueView::LazyFunction(LazyNative::If),
    ensures
        sem_eval((fuel - 1) as nat, env, ctx, c).0 == Ok::<ValueView, RuntimeErrorKind>(
            ValueView::Boolean(true),
        ) ==> sem_eval(fuel, env, ctx, AstView::SExpr(seq![AstView::Identifier(if_name), c, a1, b1]))
            == sem_eval(fuel, env, ctx, AstView::SExpr(seq![AstView::Identifier(if_name), c, a1, b2])),
        sem_eval((fuel - 1) as nat, env, ctx, c).0 == Ok::<ValueView, RuntimeErrorKind>(
            ValueView::Boolean(false),
        ) ==> sem_eval(fuel, env, ctx, AstView::SExpr(seq![AstView::Identifier(if_name), c, a1, b1]))
            == sem_eval(fuel, env, ctx, AstView::SExpr(seq![AstView::Identifier(if_name), c, a2, b1])),
{
    let f = (fuel - 1) as nat;
    assert(f < fuel);
    assert(seq![AstView::Identifier(if_name), c, a1, b1].drop_first() =~= seq![c, a1, b1]);
    assert(seq![AstView::Identifier(if_name), c, a1, b2].drop_first() =~= seq![c, a1, b2]);
    assert(seq![AstView::Identifier(if_name), c, a2, b1].drop_first() =~= seq![c, a2, b1]);
    let i = AstView::Identifier(if_name);
    assert(seq![i, c, a1, b1][0] == i);
    assert(seq![i, c, a1, b2][0] == i);
    assert(seq![i, c, a2, b1][0] == i);
    assert(seq![c, a1, b1][0] == c && seq![c, a1, b1][1] == a1 && seq![c, a1, b1][2] == b1);
    assert(seq![c, a1, b2][0] == c && seq![c, a1, b2][1] == a1 && seq![c, a1, b2][2] == b2);
    assert(seq![c, a2, b1][0] == c && seq![c, a2, b1][1] == a2 && seq![c, a2, b1][2] == b1);
    if f > 0 {
        let op = ValueView::LazyFunction(LazyNative::If);
        assert(sem_eval(f, env, ctx, i) == (Ok::<ValueView, RuntimeErrorKind>(op), ctx));
        assert(sem_apply(f, env, ctx, op, seq![c, a1, b1]) == sem_if(f, env, ctx, seq![c, a1, b1]));
        assert(sem_apply(f, env, ctx, op, seq![c, a1, b2]) == sem_if(f, env, ctx, seq![c, a1, b2]));
        assert(sem_apply(f, env, ctx, op, seq![c, a2, b1]) == sem_if(f, env, ctx, seq![c, a2, b1]));
        assert(sem_eval(fuel, env, ctx, AstView::SExpr(seq![i, c, a1, b1])) == sem_if(
            f,
            env,
            ctx,
            seq![c, a1, b1],
        ));
        assert(sem_eval(fuel, env, ctx, AstView::SExpr(seq![i, c, a1, b2])) == sem_if(
            f,
            env,
            ctx,
            seq![c, a1, b2],
        ));
        assert(sem_eval(fuel, env, ctx, AstView::SExpr(seq![i, c, a2, b1])) == sem_if(
            f,
            env,
            ctx,
            seq![c, a2, b1],
        ));
    }
}

/// `(let x v body)` binds `x` for `body` alone: a later statement does not see it.
pub proof fn lemma_let_binding_not_visible_after(
    fuel: nat,
    env: Env,
    ctx: CtxView,
    let_name: Seq<char>,
    x: Seq<char>,
    bound: AstView,
    body: AstView,
)
    requires
        fuel > 0,
        env.contains_key(let_name),
        env[let_name] == ValueView::LazyFunction(LazyNative::Let),
        !env.contains_key(x),
    ensures
        ({
            let stmt = AstView::SExpr(
                seq![AstView::Identifier(let_name), AstView::Identifier(x), bound, body],
            );
            sem_statement(fuel, env, ctx, stmt).0 is Ok ==> sem_statements(
                fuel,
                env,
                ctx,
                seq![stmt, AstView::Identifier(x)],
            ).0 == Err::<ValueView, RuntimeErrorKind>(RuntimeErrorKind::UnboundIdentifier)
        }),
{
    let stmt = AstView::SExpr(
        seq![AstView::Identifier(let_name), AstView::Identifier(x), bound, body],
    );
    let stmts = seq![stmt, AstView::Identifier(x)];
    assert(stmts.drop_last() =~= seq![stmt]);
    assert(stmts.last() == AstView::Identifier(x));
    assert(seq![stmt].drop_last() =~= Seq::<AstView>::empty());
    assert(seq![stmt].last() == stmt);
    assert(seq![AstView::Identifier(let_name), AstView::Identifier(x), bound, body][0]
        == AstView::Identifier(let_name));
    let (r1, e1, c1) = sem_statement(fuel, env, ctx, stmt);
    assert(e1 == env);
    assert(sem_statements(fuel, env, ctx, Seq::<AstView>::empty()) == (
        Ok::<ValueView, RuntimeErrorKind>(ValueView::Unit),
        env,
        ctx,
    ));
    assert(sem_statements(fuel, env, ctx, seq![stmt]) == (
        match r1 {
            Ok(_) => Ok::<ValueView, RuntimeErrorKind>(ValueView::Unit),
            Err(k) => Err(k),
        },
        e1,
        c1,
    ));
}

/// A definition installed by one statement is visible to the next: the next statement runs in
/// the environment extended with the defined closure.
pub proof fn lemma_definition_visible_to_next_statement(
    fuel: nat,
    env: Env,
    ctx: CtxView,
    name: Seq<char>,
    params: Seq<Seq<char>>,
    body: Seq<AstView>,
    next: AstView,
)
    ensures
        ({
            let extended = env.insert(name, ValueView::Closure(params, body));
            let (r, e, c) = sem_statement(fuel, extended, ctx, next);
            sem_statements(fuel, env, ctx, seq![AstView::Defun(name, params, body), next]) == (
                match r {
                    Ok(_) => Ok::<ValueView, RuntimeErrorKind>(ValueView::Unit),
                    Err(k) => Err(k),
                },
                e,
                c,
            )
        }),
{
    let d = AstView::Defun(name, params, body);
    assert(seq![d, next].drop_last() =~= seq![d]);
    assert(seq![d, next].last() == next);
    assert(seq![d].drop_last() =~= Seq::<AstView>::empty());
    assert(seq![d].last() == d);
    assert(sem_statements(fuel, env, ctx, Seq::<AstView>::empty()) == (
        Ok::<ValueView, RuntimeErrorKind>(ValueView::Unit),
        env,
        ctx,
    ));
    assert(sem_statements(fuel, env, ctx, seq![d]) == (
        Ok::<ValueView, RuntimeErrorKind>(ValueView::Unit),
        env.insert(name, ValueView::Closure(params, body)),
        ctx,
    ));
}

/// Calling a closure: where the operands evaluate to as many values as it has parameters, its
/// body runs with each parameter bound to its value; with any other count it is an arity error.
pub proof fn lemma_closure_call(
    fuel: nat,
    env: Env,
    ctx: CtxView,
    ids: Seq<Seq<char>>,
    body: Seq<AstView>,
    args: Seq<AstView>,
)
    ensures
        ({
            let (vals, c) = sem_eval_args(fuel, env, ctx, args);
            vals matches Ok(vs) ==> sem_apply(fuel, env, ctx, ValueView::Closure(ids, body), args)
                == if vs.len() != ids.len() {
                (Err(RuntimeErrorKind::ArityMismatch), c)
            } else if body.len() == 0 {
                (Err(RuntimeErrorKind::EmptyBody), c)
            } else {
                sem_seq(fuel, bind_all(env, ids, vs), c, body)
            }
        }),
{
}

/// `str` gives a string back unchanged.
pub proof fn lemma_str_of_string(s: Seq<char>, ctx: CtxView)
    ensures
        native_call(Native::Str, seq![ValueView::Str(s)], ctx) == (
            Ok::<ValueView, RuntimeErrorKind>(ValueView::Str(s)),
            ctx,
        ),
{
}

} // verus!
