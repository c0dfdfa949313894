use vstd::prelude::*;
use crate::ast::Expr;
use crate::span::WithSpan;
use crate::typechecker::{
    check_args, check_deref, check_expr, check_expr_node, env_ok, expr_out, exprs_out,
    lemma_lookup_ok, node_shape, operands_swapped, spec_get_fun, EnvView, WithOptionSpan,
};
use crate::typed::{lemma_ptes_full, pte_full, PartialExpr, PartiallyTypedExpr};
use crate::typing::{lemma_basic_roundtrip, PartialType};

verus! {

/// When checking the arguments of a call reports no error, checking each of
/// them reports none.
proof fn lemma_check_args_parts(
    args: Seq<WithSpan<Expr>>,
    params: Seq<WithOptionSpan<PartialType>>,
    env: EnvView,
    names: Seq<String>,
)
    requires
        check_args(args, params, env, names).len() == 0,
    ensures
        forall|k: int|
            0 <= k < args.len() ==> check_expr(#[trigger] args[k], env, names, false).2.len() == 0,
    decreases args.len(),
{
    if args.len() > 0 {
        let d = args.drop_last();
        lemma_check_args_parts(d, params, env, names);
        assert forall|k: int| 0 <= k < args.len() implies check_expr(
            #[trigger] args[k],
            env,
            names,
            false,
        ).2.len() == 0 by {
            if k < args.len() - 1 {
                assert(d[k] == args[k]);
            }
        }
    }
}

/// Checked arguments are, one by one, what checking each argument builds.
proof fn lemma_exprs_out_parts(
    es: Seq<WithSpan<Expr>>,
    env: EnvView,
    names: Seq<String>,
    rs: Seq<PartiallyTypedExpr>,
)
    requires
        exprs_out(es, env, names, rs),
    ensures
        rs.len() == es.len(),
        forall|k: int| 0 <= k < es.len() ==> expr_out(#[trigger] es[k], env, names, rs[k]),
    decreases es.len(),
{
    if es.len() > 0 {
        let d = es.drop_last();
        let rd = rs.drop_last();
        lemma_exprs_out_parts(d, env, names, rd);
        assert forall|k: int| 0 <= k < es.len() implies expr_out(
            #[trigger] es[k],
            env,
            names,
            rs[k],
        ) by {
            if k < es.len() - 1 {
                assert(d[k] == es[k]);
                assert(rd[k] == rs[k]);
            }
        }
    }
}

/// What [`expr_out`] says of a checked expression, taken apart.
proof fn lemma_expr_out_parts(
    e: WithSpan<Expr>,
    env: EnvView,
    names: Seq<String>,
    r: PartiallyTypedExpr,
)
    requires
        expr_out(e, env, names, r),
    ensures
        r.ty == check_expr(e, env, names, false).0,
        node_shape(e, env, names, r.inner),
{
}

/// When checking an expression reports no error, what it builds is all there
/// and every type in it is known: a missing node or an unknown type only ever
/// comes with an error, reported for it or for one of its parts. This holds in
/// any environment whose bindings all have known types, as the checker's do.
pub proof fn lemma_no_error_full(
    e: WithSpan<Expr>,
    env: EnvView,
    names: Seq<String>,
    discarded: bool,
    r: PartiallyTypedExpr,
)
    requires
        env_ok(env),
        expr_out(e, env, names, r),
        check_expr(e, env, names, discarded).2.len() == 0,
    ensures
        pte_full(r),
    decreases e, 1nat,
{
    assert(check_expr_node(e, env, names).2.len() == 0);
    lemma_expr_out_parts(e, env, names, r);
    match e.inner {
        Expr::Ident(name) => {
            lemma_lookup_ok(env, name.inner);
        },
        Expr::SizeOf(t) => {
            lemma_basic_roundtrip(t.inner);
        },
        Expr::Assign { .. } => {
            lemma_no_error_full_assign(e, env, names, r);
        },
        Expr::Op { .. } => {
            lemma_no_error_full_op(e, env, names, r);
        },
        Expr::Call { .. } => {
            lemma_no_error_full_call(e, env, names, r);
        },
        Expr::True => {},
        Expr::False => {},
        Expr::Null => {},
        Expr::Int(_) => {},
        _ => {
            lemma_no_error_full_unary(e, env, names, r);
        },
    }
}

/// [`lemma_no_error_full`] on an expression with one operand.
#[verifier::spinoff_prover]
proof fn lemma_no_error_full_unary(
    e: WithSpan<Expr>,
    env: EnvView,
    names: Seq<String>,
    r: PartiallyTypedExpr,
)
    requires
        env_ok(env),
        expr_out(e, env, names, r),
        check_expr_node(e, env, names).2.len() == 0,
        e.inner is Addr || e.inner is Deref || e.inner is PrefixIncr || e.inner is PrefixDecr
            || e.inner is PostfixIncr || e.inner is PostfixDecr || e.inner is Pos || e.inner is Neg
            || e.inner is Not,
    ensures
        pte_full(r),
    decreases e, 0nat,
{
    let node = check_expr_node(e, env, names);
    lemma_expr_out_parts(e, env, names, r);
    assert(r.ty == node.0);
    match e.inner {
        Expr::Addr(a) => {
            if let Some(PartialExpr::Addr(b)) = r.inner {
                lemma_no_error_full(*a, env, names, false, *b);
                let t = check_expr(*a, env, names, false).0;
                lemma_expr_out_parts(*a, env, names, *b);
                assert(b.ty == t);
                assert(r.ty == node.0);
                assert(node.0 == t.spec_ptr());
            }
        },
        Expr::Deref(a) => {
            if let Some(PartialExpr::Deref(b)) = r.inner {
                lemma_no_error_full(*a, env, names, false, *b);
                let t = check_expr(*a, env, names, false).0;
                lemma_expr_out_parts(*a, env, names, *b);
                assert(b.ty == t);
                assert(r.ty == node.0);
                assert(node.0 == check_deref(t, check_expr(*a, env, names, false).1).0);
            }
        },
        Expr::PrefixIncr(a) => {
            if let Some(PartialExpr::PrefixIncr(b)) = r.inner {
                lemma_no_error_full(*a, env, names, false, *b);
                let t = check_expr(*a, env, names, false).0;
                lemma_expr_out_parts(*a, env, names, *b);
                assert(b.ty == t);
                assert(r.ty == node.0);
                assert(node.0 == t);
            }
        },
        Expr::PrefixDecr(a) => {
            if let Some(PartialExpr::PrefixDecr(b)) = r.inner {
                lemma_no_error_full(*a, env, names, false, *b);
                let t = check_expr(*a, env, names, false).0;
                lemma_expr_out_parts(*a, env, names, *b);
                assert(b.ty == t);
                assert(r.ty == node.0);
                assert(node.0 == t);
            }
        },
        Expr::PostfixIncr(a) => {
            if let Some(PartialExpr::PostfixIncr(b)) = r.inner {
                lemma_no_error_full(*a, env, names, false, *b);
                let t = check_expr(*a, env, names, false).0;
                lemma_expr_out_parts(*a, env, names, *b);
                assert(b.ty == t);
                assert(r.ty == node.0);
                assert(node.0 == t);
            }
        },
        Expr::PostfixDecr(a) => {
            if let Some(PartialExpr::PostfixDecr(b)) = r.inner {
                lemma_no_error_full(*a, env, names, false, *b);
                let t = check_expr(*a, env, names, false).0;
                lemma_expr_out_parts(*a, env, names, *b);
                assert(b.ty == t);
                assert(r.ty == node.0);
                assert(node.0 == t);
            }
        },
        Expr::Pos(a) => {
            if let Some(PartialExpr::Pos(b)) = r.inner {
                lemma_no_error_full(*a, env, names, false, *b);
                let t = check_expr(*a, env, names, false).0;
                lemma_expr_out_parts(*a, env, names, *b);
                assert(b.ty == t);
                assert(r.ty == node.0);
                assert(node.0 == PartialType::int_type());
            }
        },
        Expr::Neg(a) => {
            if let Some(PartialExpr::Neg(b)) = r.inner {
                lemma_no_error_full(*a, env, names, false, *b);
                let t = check_expr(*a, env, names, false).0;
                lemma_expr_out_parts(*a, env, names, *b);
                assert(b.ty == t);
                assert(r.ty == node.0);
                assert(node.0 == PartialType::int_type());
            }
        },
        Expr::Not(a) => {
            if let Some(PartialExpr::Not(b)) = r.inner {
                lemma_no_error_full(*a, env, names, false, *b);
                let t = check_expr(*a, env, names, false).0;
                lemma_expr_out_parts(*a, env, names, *b);
                assert(b.ty == t);
                assert(r.ty == node.0);
                assert(node.0 == PartialType::int_type());
            }
        },
        _ => {},
    }
}

/// [`lemma_no_error_full`] on an assignment.
#[verifier::spinoff_prover]
proof fn lemma_no_error_full_assign(
    e: WithSpan<Expr>,
    env: EnvView,
    names: Seq<String>,
    r: PartiallyTypedExpr,
)
    requires
        env_ok(env),
        expr_out(e, env, names, r),
        check_expr_node(e, env, names).2.len() == 0,
        e.inner is Assign,
    ensures
        pte_full(r),
    decreases e, 0nat,
{
    let node = check_expr_node(e, env, names);
    lemma_expr_out_parts(e, env, names, r);
    assert(r.ty == node.0);
    if let Expr::Assign { lhs, rhs } = e.inner {
        if let Some(PartialExpr::Assign { lhs: l, rhs: rr }) = r.inner {
            lemma_no_error_full(*lhs, env, names, false, *l);
            lemma_no_error_full(*rhs, env, names, false, *rr);
            lemma_expr_out_parts(*lhs, env, names, *l);
        }
    }
}

/// [`lemma_no_error_full`] on a binary operation.
#[verifier::spinoff_prover]
#[verifier::rlimit(40)]
proof fn lemma_no_error_full_op(
    e: WithSpan<Expr>,
    env: EnvView,
    names: Seq<String>,
    r: PartiallyTypedExpr,
)
    requires
        env_ok(env),
        expr_out(e, env, names, r),
        check_expr_node(e, env, names).2.len() == 0,
        e.inner is Op,
    ensures
        pte_full(r),
    decreases e, 0nat,
{
    let node = check_expr_node(e, env, names);
    lemma_expr_out_parts(e, env, names, r);
    assert(r.ty == node.0);
    if let Expr::Op { op, lhs, rhs } = e.inner {
        if let Some(PartialExpr::Op { op: o, lhs: l, rhs: rr }) = r.inner {
            let t1 = check_expr(*lhs, env, names, false).0;
            let t2 = check_expr(*rhs, env, names, false).0;
            if operands_swapped(op, t1, t2) {
                lemma_no_error_full(*lhs, env, names, false, *rr);
                lemma_no_error_full(*rhs, env, names, false, *l);
                lemma_expr_out_parts(*lhs, env, names, *rr);
                lemma_expr_out_parts(*rhs, env, names, *l);
            } else {
                lemma_no_error_full(*lhs, env, names, false, *l);
                lemma_no_error_full(*rhs, env, names, false, *rr);
                lemma_expr_out_parts(*lhs, env, names, *l);
                lemma_expr_out_parts(*rhs, env, names, *rr);
            }
        }
    }
}

/// [`lemma_no_error_full`] on a call.
#[verifier::spinoff_prover]
proof fn lemma_no_error_full_call(
    e: WithSpan<Expr>,
    env: EnvView,
    names: Seq<String>,
    r: PartiallyTypedExpr,
)
    requires
        env_ok(env),
        expr_out(e, env, names, r),
        check_expr_node(e, env, names).2.len() == 0,
        e.inner is Call,
    ensures
        pte_full(r),
    decreases e, 0nat,
{
    let node = check_expr_node(e, env, names);
    lemma_expr_out_parts(e, env, names, r);
    assert(r.ty == node.0);
    if let Expr::Call { name, args } = e.inner {
        lemma_lookup_ok(env, name.inner);
        if let Ok((_, params, _, _)) = spec_get_fun(env, name, names) {
            if let Some(PartialExpr::Call { name: n, args: a }) = r.inner {
                lemma_check_args_parts(args@, params, env, names);
                lemma_exprs_out_parts(args@, env, names, a@);
                assert forall|k: int| 0 <= k < a@.len() implies #[trigger] pte_full(a@[k]) by {
                    assert(decreases_to!(args => args@));
                    assert(decreases_to!(args@ => args@[k]));
                    lemma_no_error_full(args@[k], env, names, false, a@[k]);
                }
                lemma_ptes_full(a@);
            }
        }
    }
}

} // verus!
