use vstd::prelude::*;
use crate::ast::{
    expr_height, expr_small, expr_wf, instr_height, instr_wf, lemma_args_height, lemma_exprs_wf,
    type_bound, var_decl_wf, BinOp, DeclOrInstr, Expr, File, FunDecl, Ident, Instr, VarDecl,
};
use crate::environment::{env_get, frame_get, lemma_env_get_mem, Environment};
use crate::error::{errs_view, plain, plain_help, plain_text, report_error, Error, ErrorKind, ErrorView, Result};
use crate::span::{Span, WithSpan};
use crate::text::{
    decimal, lemma_decimal_injective, lemma_decimal_no_dot, usize_to_string, Style, Styled,
};
use crate::typed::{
    FullFunDecl, PartialFile, TypedFile, lemma_ptes_full, pfun_full, pitem_full, pte_full, ptes_full, pti_full, PartialFunDecl,
    PartiallyTypedInstr, PartialDeclOrInstr, PartialExpr, PartialInstr,
    PartialVarDecl, PartiallyTypedExpr, TypedInstr, WithType,
};
use crate::typing::{compatible, lemma_basic_roundtrip, type_text, PartialBasisType, PartialType, Type};

verus! {

/// A value with the span it was declared at, if any (builtins have none).
pub type WithOptionSpan<T> = (T, Option<Span>);

/// What a name is bound to.
#[derive(Debug)]
pub enum Binding {
    /// A variable, with its type.
    Var(WithOptionSpan<PartialType>),
    /// A function, with its return type and the types of its parameters.
    Fun(WithOptionSpan<PartialType>, Vec<WithOptionSpan<PartialType>>),
}

/// A binding, the span of its definition (none for builtins) and the name it gets
/// in the checked program.
pub type Entry = (Binding, Option<Span>, Ident);

/// The scoped bindings seen while checking.
pub type TypeEnvironment = Environment<Entry>;

/// A binding as the contracts see it.
pub enum BindingView {
    Var(WithOptionSpan<PartialType>),
    Fun(WithOptionSpan<PartialType>, Seq<WithOptionSpan<PartialType>>),
}

pub open spec fn binding_view(b: Binding) -> BindingView {
    match b {
        Binding::Var(t) => BindingView::Var(t),
        Binding::Fun(t, args) => BindingView::Fun(t, args@),
    }
}

/// An entry of the environment as the contracts see it.
pub type EntryView = (BindingView, Option<Span>, Ident);

pub open spec fn entry_view(e: Entry) -> EntryView {
    (binding_view(e.0), e.1, e.2)
}

/// The contents of a [`TypeEnvironment`], as the contracts see them.
pub type EnvView = Seq<Seq<(Ident, EntryView)>>;

pub open spec fn env_view(f: Seq<Seq<(Ident, Entry)>>) -> EnvView {
    Seq::new(f.len(), |i: int| Seq::new(f[i].len(), |j: int| (f[i][j].0, entry_view(f[i][j].1))))
}

/// The contents of the environment, as the contracts see them.
pub open spec fn tenv(env: &TypeEnvironment) -> EnvView {
    env_view(env@)
}

proof fn lemma_frame_view_get(f: Seq<(Ident, Entry)>, k: Ident)
    ensures
        frame_get(Seq::new(f.len(), |j: int| (f[j].0, entry_view(f[j].1))), k) == match frame_get(
            f,
            k,
        ) {
            Some(v) => Some(entry_view(v)),
            None => None,
        },
    decreases f.len(),
{
    let g = Seq::new(f.len(), |j: int| (f[j].0, entry_view(f[j].1)));
    if f.len() > 0 {
        let fd = f.drop_last();
        lemma_frame_view_get(fd, k);
        assert(g.drop_last() =~= Seq::new(fd.len(), |j: int| (fd[j].0, entry_view(fd[j].1))));
    }
}

/// Looking up in the view of an environment finds the view of what a lookup finds.
proof fn lemma_env_view_get(f: Seq<Seq<(Ident, Entry)>>, k: Ident)
    ensures
        env_get(env_view(f), k) == match env_get(f, k) {
            Some((d, v)) => Some((d, entry_view(v))),
            None => None,
        },
    decreases f.len(),
{
    if f.len() > 0 {
        let fd = f.drop_last();
        lemma_env_view_get(fd, k);
        lemma_frame_view_get(f.last(), k);
        assert(env_view(f).drop_last() =~= env_view(fd));
        assert(env_view(f).last() =~= Seq::new(
            f.last().len(),
            |j: int| (f.last()[j].0, entry_view(f.last()[j].1)),
        ));
    }
}

/// A type with at most one indirection more than a declared type may have.
pub open spec fn ty_bounded(t: PartialType) -> bool {
    t.indirection_count <= type_bound() + 1
}

/// A type is known and bounded (see [`ty_bounded`]): as every declared type is.
pub open spec fn ty_ok(t: PartialType) -> bool {
    ty_bounded(t) && t.basis != PartialBasisType::Error
}

/// Every type in the binding is known and bounded (see [`ty_ok`]).
pub open spec fn binding_ok(b: BindingView) -> bool {
    match b {
        BindingView::Var((t, _)) => ty_ok(t),
        BindingView::Fun((t, _), args) => ty_ok(t) && forall|k: int|
            0 <= k < args.len() ==> #[trigger] ty_ok(args[k].0),
    }
}

/// Every type bound in the environment is known and bounded (see [`ty_ok`]).
pub open spec fn env_ok(env: EnvView) -> bool {
    forall|i: int, j: int|
        0 <= i < env.len() && 0 <= j < env[i].len() ==> #[trigger] binding_ok(env[i][j].1.0)
}

pub(crate) proof fn lemma_lookup_ok(env: EnvView, k: Ident)
    requires
        env_ok(env),
    ensures
        env_get(env, k) matches Some((d, v)) ==> binding_ok(v.0),
{
    lemma_env_get_mem(env, k);
    if let Some((d, v)) = env_get(env, k) {
        let (i, j) = choose|i: int, j: int|
            0 <= i < env.len() && 0 <= j < env[i].len() && #[trigger] env[i][j] == (k, v);
        assert(binding_ok(env[i][j].1.0));
    }
}

/// What looking up a variable gives: its type (with its declaration span) and its
/// new name, or the error to report.
pub open spec fn spec_get_var(env: EnvView, ident: WithSpan<Ident>, names: Seq<String>) -> core::result::Result<
    (WithOptionSpan<PartialType>, Ident),
    ErrorKind,
> {
    match env_get(env, ident.inner) {
        Some((_, (BindingView::Fun(_, _), span, _))) => Err(
            ErrorKind::SymbolIsFunction {
                name: names[ident.inner as int],
                span: ident.span,
                definition_span: span,
            },
        ),
        Some((_, (BindingView::Var(ty), _, new_name))) => Ok((ty, new_name)),
        None => Err(ErrorKind::NameError { name: names[ident.inner as int], span: ident.span }),
    }
}

/// What looking up a function gives: its return type, its parameter types, the span
/// of its definition and its new name, or the error to report.
pub open spec fn spec_get_fun(env: EnvView, ident: WithSpan<Ident>, names: Seq<String>) -> core::result::Result<
    (WithOptionSpan<PartialType>, Seq<WithOptionSpan<PartialType>>, Option<Span>, Ident),
    ErrorKind,
> {
    match env_get(env, ident.inner) {
        Some((_, (BindingView::Fun(ty, args), span, new_name))) => Ok((ty, args, span, new_name)),
        Some((_, (BindingView::Var(_), span, _))) => Err(
            ErrorKind::SymbolIsVariable {
                name: names[ident.inner as int],
                span: ident.span,
                definition_span: span,
            },
        ),
        None => Err(ErrorKind::NameError { name: names[ident.inner as int], span: ident.span }),
    }
}

/// The first names of the table `table` are `names`.
pub open spec fn names_agree(table: Seq<String>, names: Seq<String>) -> bool {
    names.len() <= table.len() && forall|i: int| 0 <= i < names.len() ==> #[trigger] table[i] == names[i]
}

fn clone_opt_span(s: &Option<Span>) -> (r: Option<Span>)
    ensures
        r == *s,
{
    match s {
        Some(s) => Some(s.clone()),
        None => None,
    }
}

fn clone_name(name_of: &Vec<String>, id: Ident) -> (r: String)
    requires
        id < name_of@.len(),
    ensures
        r == name_of@[id as int],
{
    name_of[id].clone()
}

/// Looks up the function `ident`.
fn get_fun<'env>(env: &'env TypeEnvironment, ident: &WithSpan<Ident>, name_of: &Vec<String>) -> (r:
    Result<
        ((WithOptionSpan<PartialType>, &'env Vec<WithOptionSpan<PartialType>>), &'env Option<Span>, Ident),
    >)
    requires
        ident.inner < name_of@.len(),
    ensures
        match (r, spec_get_fun(tenv(env), *ident, name_of@)) {
            (Ok(((ty, args), span, new_name)), Ok((ty2, args2, span2, new_name2))) => ty == ty2
                && args@ == args2 && *span == span2 && new_name == new_name2,
            (Err(e), Err(k)) => e@ == plain(k),
            _ => false,
        },
{
    proof {
        lemma_env_view_get(env@, ident.inner);
    }
    match env.get(&ident.inner) {
        Some((_, (Binding::Fun(ty, args), span, new_name))) => {
            Ok(((((*ty).0, clone_opt_span(&ty.1)), args), span, *new_name))
        },
        Some((_, (Binding::Var(_), span, _))) => Err(
            Error::new(
                ErrorKind::SymbolIsVariable {
                    name: clone_name(name_of, ident.inner),
                    span: ident.span.clone(),
                    definition_span: clone_opt_span(span),
                },
            ),
        ),
        None => Err(
            Error::new(
                ErrorKind::NameError {
                    name: clone_name(name_of, ident.inner),
                    span: ident.span.clone(),
                },
            ),
        ),
    }
}

/// Looks up the variable `ident`.
fn get_var(env: &TypeEnvironment, ident: &WithSpan<Ident>, name_of: &Vec<String>) -> (r: Result<
    (WithOptionSpan<PartialType>, Ident),
>)
    requires
        ident.inner < name_of@.len(),
    ensures
        match (r, spec_get_var(tenv(env), *ident, name_of@)) {
            (Ok(x), Ok(y)) => x == y,
            (Err(e), Err(k)) => e@ == plain(k),
            _ => false,
        },
{
    proof {
        lemma_env_view_get(env@, ident.inner);
    }
    match env.get(&ident.inner) {
        Some((_, (Binding::Fun(_, _), span, _))) => Err(
            Error::new(
                ErrorKind::SymbolIsFunction {
                    name: clone_name(name_of, ident.inner),
                    span: ident.span.clone(),
                    definition_span: clone_opt_span(span),
                },
            ),
        ),
        Some((_, (Binding::Var(ty), _, new_name))) => Ok(((ty.0, clone_opt_span(&ty.1)), *new_name)),
        None => Err(
            Error::new(
                ErrorKind::NameError {
                    name: clone_name(name_of, ident.inner),
                    span: ident.span.clone(),
                },
            ),
        ),
    }
}


/// A type mismatch with no reason and no hint.
pub open spec fn mismatch(
    span: Span,
    expected: PartialType,
    found: PartialType,
    origin: Option<Span>,
) -> ErrorView {
    plain(
        ErrorKind::TypeMismatch {
            span,
            expected_type: expected,
            found_type: found,
            origin_span: origin,
        },
    )
}

/// Invalid operands to a builtin binary operator.
pub open spec fn binop_kind(
    left: PartialType,
    right: PartialType,
    span: Span,
    op: &'static str,
) -> ErrorKind {
    ErrorKind::BuiltinBinopTypeMismatch { left_type: left, right_type: right, span, op }
}

pub open spec fn casting_reason(t1: PartialType, t2: PartialType) -> Seq<char> {
    "casting between "@ + type_text(t1) + " and "@ + type_text(t2) + " is undefined"@
}

pub open spec fn addition_reason(t1: PartialType) -> Seq<char> {
    "addition over `"@ + type_text(t1) + "` is undefined"@
}

/// The error for taking the address of a value that has none.
pub open spec fn addr_rvalue_error(span: Span, expression_span: Span) -> ErrorView {
    (
        ErrorKind::AddressOfRvalue { span, expression_span },
        None,
        seq![plain_help("you could allocate this expression, by binding it to a variable"@)],
    )
}

/// The type and errors of `lhs op rhs`, from the types and spans of the checked
/// operands; `span` is the span of the whole expression.
pub open spec fn check_binop(
    op: BinOp,
    t1: PartialType,
    s1: Span,
    t2: PartialType,
    s2: Span,
    span: Span,
) -> (PartialType, Seq<ErrorView>) {
    let int_t = PartialType::int_type();
    let error_t = PartialType::error_type();
    match op {
        BinOp::Eq | BinOp::NEq | BinOp::Lt | BinOp::Le | BinOp::Gt | BinOp::Ge => (
            int_t,
            if !compatible(t1, t2) {
                seq![mismatch(s2, t1, t2, None)]
            } else {
                seq![]
            },
        ),
        BinOp::Mul | BinOp::Div | BinOp::Mod | BinOp::LOr | BinOp::LAnd => (
            int_t,
            (if !compatible(t1, int_t) {
                seq![mismatch(s1, int_t, t1, None)]
            } else {
                seq![]
            }) + (if !compatible(t2, int_t) {
                seq![mismatch(s2, int_t, t2, None)]
            } else {
                seq![]
            }),
        ),
        BinOp::Add => if t1.is_ptr() && t2.is_ptr() {
            (
                error_t,
                seq![
                    (
                        binop_kind(t1, t2, span, "+"),
                        Some("pointers cannot be added."@),
                        seq![plain_help("maybe you meant to subtract the pointers?"@)],
                    ),
                ],
            )
        } else {
            let (a, b) = if t2.is_ptr() {
                (t2, t1)
            } else {
                (t1, t2)
            };
            if a.is_ptr() {
                (
                    a,
                    if !compatible(b, int_t) {
                        seq![plain(binop_kind(a, b, span, "+"))]
                    } else {
                        seq![]
                    },
                )
            } else if !compatible(a, b) {
                (
                    error_t,
                    seq![
                        (binop_kind(a, b, span, "+"), Some(casting_reason(a, b)), seq![]),
                    ],
                )
            } else if !compatible(a, int_t) {
                (error_t, seq![(binop_kind(a, b, span, "+"), Some(addition_reason(a)), seq![])])
            } else {
                (int_t, seq![])
            }
        },
        BinOp::Sub => if t1.is_ptr() {
            if t2.is_ptr() {
                if t1 != t2 {
                    (
                        error_t,
                        seq![
                            (
                                binop_kind(t1, t2, span, "-"),
                                Some("heterogeneous pointers cannot be subtracted"@),
                                seq![],
                            ),
                        ],
                    )
                } else {
                    (int_t, seq![])
                }
            } else if !compatible(t2, int_t) {
                (error_t, seq![plain(binop_kind(t1, t2, span, "-"))])
            } else {
                (t1, seq![])
            }
        } else if !compatible(t1, int_t) || !compatible(t1, t2) {
            (
                error_t,
                seq![
                    (
                        binop_kind(t1, t2, span, "-"),
                        None,
                        if compatible(t1, int_t) && t2.is_ptr() {
                            seq![
                                plain_help(
                                    "maybe you meant to have the operands the other way around"@,
                                ),
                            ]
                        } else {
                            seq![]
                        },
                    ),
                ],
            )
        } else {
            (int_t, seq![])
        },
    }
}

/// The type and errors of `*e`, from the type and span of the checked `e`.
pub open spec fn check_deref(t: PartialType, s: Span) -> (PartialType, Seq<ErrorView>) {
    match t.spec_deref_ptr() {
        Some(ty) => if ty == PartialType::void_type() {
            (PartialType::error_type(), seq![plain(ErrorKind::DerefVoidPointer { span: s })])
        } else {
            (ty, seq![])
        },
        None => match t.spec_to_basic() {
            Some(bt) => (
                PartialType::error_type(),
                seq![plain(ErrorKind::DerefNonPointer { ty: bt, span: s })],
            ),
            None => (PartialType::error_type(), seq![]),
        },
    }
}

/// The span of the declaration of the variable (or function) assigned to, if the
/// left-hand side is a bound name.
pub open spec fn assign_var_span(env: EnvView, lhs: Expr) -> Option<Option<Span>> {
    match lhs {
        Expr::Ident(ident) => match env_get(env, ident.inner) {
            Some((_, (BindingView::Fun((_, span), _), _, _))) => Some(span),
            Some((_, (BindingView::Var((_, span)), _, _))) => Some(span),
            None => None,
        },
        _ => None,
    }
}

/// The error for mutating `inner` (inside `span`) if it is not an lvalue.
pub open spec fn mutation_errors(span: Span, inner: WithSpan<Expr>) -> Seq<ErrorView> {
    if !inner.inner.is_lvalue() {
        seq![plain(ErrorKind::IncrOrDecrRvalue { span, expression_span: inner.span })]
    } else {
        seq![]
    }
}

/// Checking an expression in the environment `env`: the type found, the span of
/// the checked expression and the errors reported, in order. `discarded` tells
/// whether the value is thrown away (then it may be `void`).
pub open spec fn check_expr(
    e: WithSpan<Expr>,
    env: EnvView,
    names: Seq<String>,
    discarded: bool,
) -> (PartialType, Span, Seq<ErrorView>)
    decreases e, 1nat,
{
    let (ty, span, errs, early) = check_expr_node(e, env, names);
    if !early && !discarded && ty == PartialType::void_type() {
        (ty, span, errs.push(plain(ErrorKind::VoidExpression { span })))
    } else {
        (ty, span, errs)
    }
}

/// Checking an expression, before the check that a kept value is not `void`; the
/// last component tells whether that check is skipped (for a failed call).
pub open spec fn check_expr_node(e: WithSpan<Expr>, env: EnvView, names: Seq<String>) -> (
    PartialType,
    Span,
    Seq<ErrorView>,
    bool,
)
    decreases e, 0nat,
{
    let int_t = PartialType::int_type();
    let error_t = PartialType::error_type();
    match e.inner {
        Expr::True => (PartialType::bool_type(), e.span, seq![], false),
        Expr::False => (PartialType::bool_type(), e.span, seq![], false),
        Expr::Null => (PartialType::void_type().spec_ptr(), e.span, seq![], false),
        Expr::Int(_) => (int_t, e.span, seq![], false),
        Expr::Ident(name) => match spec_get_var(env, name, names) {
            Ok(((ty, _), _)) => (ty, e.span, seq![], false),
            Err(k) => (error_t, e.span, seq![plain(k)], false),
        },
        Expr::SizeOf(ty) => (
            int_t,
            ty.span,
            if !ty.inner.spec_is_eq(&Type::void_type()) {
                seq![]
            } else {
                seq![plain(ErrorKind::SizeofVoid { span: e.span })]
            },
            false,
        ),
        Expr::Addr(inner) => {
            let pre = if !inner.inner.is_lvalue() {
                seq![addr_rvalue_error(e.span, inner.span)]
            } else {
                seq![]
            };
            let (t, _, errs) = check_expr(*inner, env, names, false);
            (t.spec_ptr(), e.span, pre + errs, false)
        },
        Expr::Deref(inner) => {
            let (t, s, errs) = check_expr(*inner, env, names, false);
            let (ty, more) = check_deref(t, s);
            (ty, e.span, errs + more, false)
        },
        Expr::Assign { lhs, rhs } => {
            let pre = if !lhs.inner.is_lvalue() {
                seq![plain(ErrorKind::RvalueAssignment { span: lhs.span })]
            } else {
                seq![]
            };
            let (t1, _, e1) = check_expr(*lhs, env, names, false);
            let (t2, _, e2) = check_expr(*rhs, env, names, false);
            let mm = if !compatible(t1, t2) {
                match assign_var_span(env, lhs.inner) {
                    Some(span) => seq![mismatch(rhs.span, t1, t2, span)],
                    None => seq![mismatch(e.span, t1, t2, None)],
                }
            } else {
                seq![]
            };
            (
                if t1 == error_t {
                    t2
                } else {
                    t1
                },
                e.span,
                pre + e1 + e2 + mm,
                false,
            )
        },
        Expr::PrefixIncr(inner) => {
            let (t, _, errs) = check_expr(*inner, env, names, false);
            (t, e.span, mutation_errors(e.span, *inner) + errs, false)
        },
        Expr::PrefixDecr(inner) => {
            let (t, _, errs) = check_expr(*inner, env, names, false);
            (t, e.span, mutation_errors(e.span, *inner) + errs, false)
        },
        Expr::PostfixIncr(inner) => {
            let (t, _, errs) = check_expr(*inner, env, names, false);
            (t, e.span, mutation_errors(e.span, *inner) + errs, false)
        },
        Expr::PostfixDecr(inner) => {
            let (t, _, errs) = check_expr(*inner, env, names, false);
            (t, e.span, mutation_errors(e.span, *inner) + errs, false)
        },
        Expr::Pos(inner) => {
            let (t, s, errs) = check_expr(*inner, env, names, false);
            (
                int_t,
                e.span,
                errs + if !compatible(t, int_t) {
                    seq![mismatch(s, int_t, t, None)]
                } else {
                    seq![]
                },
                false,
            )
        },
        Expr::Neg(inner) => {
            let (t, s, errs) = check_expr(*inner, env, names, false);
            (
                int_t,
                e.span,
                errs + if !compatible(t, int_t) {
                    seq![mismatch(s, int_t, t, None)]
                } else {
                    seq![]
                },
                false,
            )
        },
        Expr::Not(inner) => {
            let (t, s, errs) = check_expr(*inner, env, names, false);
            (
                int_t,
                e.span,
                errs + if t == PartialType::void_type() {
                    seq![plain(ErrorKind::VoidExpression { span: s })]
                } else {
                    seq![]
                },
                false,
            )
        },
        Expr::Op { op, lhs, rhs } => {
            let (t1, s1, e1) = check_expr(*lhs, env, names, false);
            let (t2, s2, e2) = check_expr(*rhs, env, names, false);
            let (ty, more) = check_binop(op, t1, s1, t2, s2, e.span);
            (ty, e.span, e1 + e2 + more, false)
        },
        Expr::Call { name, args } => match spec_get_fun(env, name, names) {
            Err(k) => (error_t, e.span, seq![plain(k)], true),
            Ok(((ret, _), params, fun_span, _)) => if args@.len() != params.len() {
                (
                    ret,
                    e.span,
                    seq![
                        plain(
                            ErrorKind::ArityMismatch {
                                found_arity: args@.len() as usize,
                                expected_arity: params.len() as usize,
                                span: e.span,
                                definition_span: fun_span,
                                function_name: names[name.inner as int],
                            },
                        ),
                    ],
                    true,
                )
            } else {
                (ret, e.span, check_args(args@, params, env, names), false)
            },
        },
    }
}

/// Whether checking `lhs op rhs` puts its operands the other way around: for an
/// addition whose second operand only is a pointer.
pub open spec fn operands_swapped(op: BinOp, t1: PartialType, t2: PartialType) -> bool {
    op == BinOp::Add && t1.indirection_count == 0 && t2.indirection_count > 0
}

/// The checked expression `r` is what checking `e` builds: the type and span that
/// [`check_expr`] gives, and the node that [`node_shape`] says.
pub open spec fn expr_out(e: WithSpan<Expr>, env: EnvView, names: Seq<String>, r: PartiallyTypedExpr) -> bool
    decreases e, 1nat,
{
    let (ty, span, _) = check_expr(e, env, names, false);
    &&& r.ty == ty
    &&& r.span == span
    &&& node_shape(e, env, names, r.inner)
}

/// The node that checking `e` builds: the same constructor over the checked parts
/// (see [`expr_out`]), with names replaced by the names they are bound to and the
/// operands of an addition swapped where [`operands_swapped`] says; there is no
/// node for a call that cannot be made (an unknown function, or a wrong number of
/// arguments) nor for `sizeof(void)`.
pub open spec fn node_shape(
    e: WithSpan<Expr>,
    env: EnvView,
    names: Seq<String>,
    inner: Option<PartialExpr>,
) -> bool
    decreases e, 0nat,
{
    match e.inner {
        Expr::True => inner == Some(PartialExpr::True),
        Expr::False => inner == Some(PartialExpr::False),
        Expr::Null => inner == Some(PartialExpr::Null),
        Expr::Int(n) => inner == Some(PartialExpr::Int(n)),
        Expr::Ident(name) => inner == Some(
            PartialExpr::Ident(
                WithSpan {
                    inner: match spec_get_var(env, name, names) {
                        Ok((_, new_name)) => new_name,
                        Err(_) => name.inner,
                    },
                    span: name.span,
                },
            ),
        ),
        Expr::SizeOf(ty) => inner == if !ty.inner.spec_is_eq(&Type::void_type()) {
            Some(PartialExpr::SizeOf(WithSpan { inner: ty.inner.spec_from_basic(), span: ty.span }))
        } else {
            None
        },
        Expr::Addr(a) => inner matches Some(PartialExpr::Addr(b)) && expr_out(*a, env, names, *b),
        Expr::Deref(a) => inner matches Some(PartialExpr::Deref(b)) && expr_out(*a, env, names, *b),
        Expr::PrefixIncr(a) => inner matches Some(PartialExpr::PrefixIncr(b)) && expr_out(
            *a,
            env,
            names,
            *b,
        ),
        Expr::PrefixDecr(a) => inner matches Some(PartialExpr::PrefixDecr(b)) && expr_out(
            *a,
            env,
            names,
            *b,
        ),
        Expr::PostfixIncr(a) => inner matches Some(PartialExpr::PostfixIncr(b)) && expr_out(
            *a,
            env,
            names,
            *b,
        ),
        Expr::PostfixDecr(a) => inner matches Some(PartialExpr::PostfixDecr(b)) && expr_out(
            *a,
            env,
            names,
            *b,
        ),
        Expr::Pos(a) => inner matches Some(PartialExpr::Pos(b)) && expr_out(*a, env, names, *b),
        Expr::Neg(a) => inner matches Some(PartialExpr::Neg(b)) && expr_out(*a, env, names, *b),
        Expr::Not(a) => inner matches Some(PartialExpr::Not(b)) && expr_out(*a, env, names, *b),
        Expr::Assign { lhs, rhs } => inner matches Some(PartialExpr::Assign { lhs: l, rhs: r })
            && expr_out(*lhs, env, names, *l) && expr_out(*rhs, env, names, *r),
        Expr::Op { op, lhs, rhs } => inner matches Some(PartialExpr::Op { op: o, lhs: l, rhs: r })
            && o == op && if operands_swapped(
            op,
            check_expr(*lhs, env, names, false).0,
            check_expr(*rhs, env, names, false).0,
        ) {
            expr_out(*lhs, env, names, *r) && expr_out(*rhs, env, names, *l)
        } else {
            expr_out(*lhs, env, names, *l) && expr_out(*rhs, env, names, *r)
        },
        Expr::Call { name, args } => match spec_get_fun(env, name, names) {
            Ok((_, params, _, new_name)) => if args@.len() != params.len() {
                inner is None
            } else {
                inner matches Some(PartialExpr::Call { name: n, args: a }) && n == WithSpan {
                    inner: new_name,
                    span: name.span,
                } && exprs_out(args@, env, names, a@)
            },
            Err(_) => inner is None,
        },
    }
}

/// Each checked expression of `rs` is what checking the one of `es` builds.
pub open spec fn exprs_out(
    es: Seq<WithSpan<Expr>>,
    env: EnvView,
    names: Seq<String>,
    rs: Seq<PartiallyTypedExpr>,
) -> bool
    decreases es, 0nat,
{
    es.len() == rs.len() && (es.len() == 0 || (exprs_out(es.drop_last(), env, names, rs.drop_last())
        && expr_out(es.last(), env, names, rs.last())))
}

/// The errors of checking the arguments of a call against the parameters, in order.
pub open spec fn check_args(
    args: Seq<WithSpan<Expr>>,
    params: Seq<WithOptionSpan<PartialType>>,
    env: EnvView,
    names: Seq<String>,
) -> Seq<ErrorView>
    decreases args,
{
    if args.len() == 0 {
        seq![]
    } else {
        let k = args.len() - 1;
        let (t, s, errs) = check_expr(args.last(), env, names, false);
        check_args(args.drop_last(), params, env, names) + errs + if !compatible(
            t,
            params[k].0,
        ) {
            seq![mismatch(s, params[k].0, t, params[k].1)]
        } else {
            seq![]
        }
    }
}

fn type_text_string(t: &PartialType) -> (s: String)
    ensures
        s@ == type_text(*t),
{
    t.name()
}

fn casting_reason_text(t1: &PartialType, t2: &PartialType) -> (s: String)
    ensures
        s@ == casting_reason(*t1, *t2),
{
    let mut s = String::from_str("casting between ");
    s.append(type_text_string(t1).as_str());
    s.append(" and ");
    s.append(type_text_string(t2).as_str());
    s.append(" is undefined");
    s
}

fn addition_reason_text(t1: &PartialType) -> (s: String)
    ensures
        s@ == addition_reason(*t1),
{
    let mut s = String::from_str("addition over `");
    s.append(type_text_string(t1).as_str());
    s.append("` is undefined");
    s
}

fn binop_error(t1: PartialType, t2: PartialType, span: &Span, op: &'static str) -> (e: Error)
    ensures
        e@ == plain(binop_kind(t1, t2, *span, op)),
{
    Error::new(
        ErrorKind::BuiltinBinopTypeMismatch {
            left_type: t1,
            right_type: t2,
            span: span.clone(),
            op,
        },
    )
}

fn report_mismatch(
    errors: &mut Vec<Error>,
    span: &Span,
    expected: PartialType,
    found: PartialType,
    origin: &Option<Span>,
)
    ensures
        errs_view(final(errors)@) == errs_view(old(errors)@).push(
            mismatch(*span, expected, found, *origin),
        ),
{
    report_error(
        errors,
        Error::new(
            ErrorKind::TypeMismatch {
                span: span.clone(),
                expected_type: expected,
                found_type: found,
                origin_span: clone_opt_span(origin),
            },
        ),
    );
}

fn boxed(e: PartiallyTypedExpr) -> (r: Box<PartiallyTypedExpr>)
    ensures
        *r == e,
{
    Box::new(e)
}

/// Checks an expression: gives it its type, renames its identifiers as the
/// environment says and reports its errors in `errors`, as [`check_expr`] says.
/// `discarded` tells whether the value will be thrown away.
fn type_expr(
    e: &WithSpan<Expr>,
    env: &TypeEnvironment,
    name_of: &Vec<String>,
    Ghost(names): Ghost<Seq<String>>,
    discarded: bool,
    errors: &mut Vec<Error>,
) -> (r: PartiallyTypedExpr)
    requires
        expr_wf(e.inner, names.len() as nat),
        expr_small(*e),
        env_ok(tenv(env)),
        names_agree(name_of@, names),
    ensures
        ({
            let (ty, span, errs) = check_expr(*e, tenv(env), names, discarded);
            &&& r.ty == ty
            &&& r.span == span
            &&& errs_view(final(errors)@) == errs_view(old(errors)@) + errs
            &&& errs.len() == 0 ==> pte_full(r)
        }),
        r.ty.indirection_count <= type_bound() + expr_height(e.inner) + 1,
        expr_out(*e, tenv(env), names, r),
    decreases e, 2nat,
{
    let (expr, early) = type_expr_node(e, env, name_of, Ghost(names), errors);
    if !early && !discarded && expr.ty.is_void() {
        report_error(errors, Error::new(ErrorKind::VoidExpression { span: expr.span.clone() }));
        assert(errs_view(errors@) =~= errs_view(old(errors)@) + check_expr(
            *e,
            tenv(env),
            names,
            discarded,
        ).2);
    }
    expr
}

/// What checking an expression node gives (see [`check_expr_node`]), with the
/// errors before and after.
spec fn node_result_ok(
    e: WithSpan<Expr>,
    env: EnvView,
    names: Seq<String>,
    before: Seq<Error>,
    after: Seq<Error>,
    r: (PartiallyTypedExpr, bool),
) -> bool {
    let (ty, span, errs, early) = check_expr_node(e, env, names);
    &&& r.0.ty == ty
    &&& r.0.span == span
    &&& r.1 == early
    &&& errs_view(after) == errs_view(before) + errs
    &&& errs.len() == 0 ==> pte_full(r.0)
    &&& r.0.ty.indirection_count <= type_bound() + expr_height(e.inner) + 1
    &&& node_shape(e, env, names, r.0.inner)
}

/// Checks an expression, before the check that a kept value is not `void` (see
/// [`check_expr_node`]).
fn type_expr_node(
    e: &WithSpan<Expr>,
    env: &TypeEnvironment,
    name_of: &Vec<String>,
    Ghost(names): Ghost<Seq<String>>,
    errors: &mut Vec<Error>,
) -> (r: (PartiallyTypedExpr, bool))
    requires
        expr_wf(e.inner, names.len() as nat),
        expr_small(*e),
        env_ok(tenv(env)),
        names_agree(name_of@, names),
    ensures
        node_result_ok(*e, tenv(env), names, old(errors)@, final(errors)@, r),
    decreases e, 1nat,
{
    let ghost start = errs_view(errors@);
    let int_t = PartialType::int_type();
    match &e.inner {
        Expr::True => (WithType::new(Some(PartialExpr::True), PartialType::bool_type(), e.span.clone()), false),
        Expr::False => (WithType::new(Some(PartialExpr::False), PartialType::bool_type(), e.span.clone()), false),
        Expr::Null => (WithType::new(Some(PartialExpr::Null), PartialType::void_type().ptr(), e.span.clone()), false),
        Expr::Int(n) => (WithType::new(Some(PartialExpr::Int(*n)), int_t, e.span.clone()), false),
        Expr::Ident(_) => type_ident(e, env, name_of, Ghost(names), errors),
        Expr::SizeOf(ty) => {
            let value = if !ty.inner.is_eq(&Type::void_type()) {
                Some(PartialExpr::SizeOf(WithSpan { inner: ty.inner.from_basic(), span: ty.span.clone() }))
            } else {
                report_error(errors, Error::new(ErrorKind::SizeofVoid { span: e.span.clone() }));
                None
            };
            assert(errs_view(errors@) =~= start + check_expr_node(*e, tenv(env), names).2);
            (WithType::new(value, int_t, ty.span.clone()), false)
        },
        Expr::Addr(_) => type_addr(e, env, name_of, Ghost(names), errors),
        Expr::Deref(_) => type_deref(e, env, name_of, Ghost(names), errors),
        Expr::Assign { .. } => type_assign(e, env, name_of, Ghost(names), errors),
        Expr::PrefixIncr(_) | Expr::PrefixDecr(_) | Expr::PostfixIncr(_) | Expr::PostfixDecr(_) => {
            type_incr_decr(e, env, name_of, Ghost(names), errors)
        },
        Expr::Pos(_) | Expr::Neg(_) => type_sign(e, env, name_of, Ghost(names), errors),
        Expr::Not(_) => type_not(e, env, name_of, Ghost(names), errors),
        Expr::Op { .. } => type_op(e, env, name_of, Ghost(names), errors),
        Expr::Call { .. } => type_call(e, env, name_of, Ghost(names), errors),
    }
}

fn type_ident(
    e: &WithSpan<Expr>,
    env: &TypeEnvironment,
    name_of: &Vec<String>,
    Ghost(names): Ghost<Seq<String>>,
    errors: &mut Vec<Error>,
) -> (r: (PartiallyTypedExpr, bool))
    requires
        e.inner is Ident,
        expr_wf(e.inner, names.len() as nat),
        env_ok(tenv(env)),
        names_agree(name_of@, names),
    ensures
        node_result_ok(*e, tenv(env), names, old(errors)@, final(errors)@, r),
{
    let ghost start = errs_view(errors@);
    match &e.inner {
        Expr::Ident(name) => {
            proof {
                lemma_lookup_ok(tenv(env), name.inner);
            }
            let ((ty, _), new_name) = match get_var(env, name, name_of) {
                Ok(r) => r,
                Err(error_value) => {
                    report_error(errors, error_value);
                    ((PartialType::error_type(), None), name.inner)
                },
            };
            assert(errs_view(errors@) =~= start + check_expr_node(*e, tenv(env), names).2);
            (
                WithType::new(
                    Some(PartialExpr::Ident(WithSpan { inner: new_name, span: name.span.clone() })),
                    ty,
                    e.span.clone(),
                ),
                false,
            )
        },
        _ => unreached(),
    }
}

fn type_addr(
    e: &WithSpan<Expr>,
    env: &TypeEnvironment,
    name_of: &Vec<String>,
    Ghost(names): Ghost<Seq<String>>,
    errors: &mut Vec<Error>,
) -> (r: (PartiallyTypedExpr, bool))
    requires
        e.inner is Addr,
        expr_wf(e.inner, names.len() as nat),
        expr_small(*e),
        env_ok(tenv(env)),
        names_agree(name_of@, names),
    ensures
        node_result_ok(*e, tenv(env), names, old(errors)@, final(errors)@, r),
    decreases e, 0nat,
{
    let ghost start = errs_view(errors@);
    match &e.inner {
        Expr::Addr(inner_e) => {
            if !inner_e.inner.is_lvalue() {
                report_error(
                    errors,
                    Error::new(
                        ErrorKind::AddressOfRvalue {
                            span: e.span.clone(),
                            expression_span: inner_e.span.clone(),
                        },
                    ).add_help(plain_text("you could allocate this expression, by binding it to a variable")),
                );
            }
            let inner = type_expr(&**inner_e, env, name_of, Ghost(names), false, errors);
            let ty = inner.ty.ptr();
            assert(errs_view(errors@) =~= start + check_expr_node(*e, tenv(env), names).2);
            (WithType::new(Some(PartialExpr::Addr(boxed(inner))), ty, e.span.clone()), false)
        },
        _ => unreached(),
    }
}

fn type_deref(
    e: &WithSpan<Expr>,
    env: &TypeEnvironment,
    name_of: &Vec<String>,
    Ghost(names): Ghost<Seq<String>>,
    errors: &mut Vec<Error>,
) -> (r: (PartiallyTypedExpr, bool))
    requires
        e.inner is Deref,
        expr_wf(e.inner, names.len() as nat),
        expr_small(*e),
        env_ok(tenv(env)),
        names_agree(name_of@, names),
    ensures
        node_result_ok(*e, tenv(env), names, old(errors)@, final(errors)@, r),
    decreases e, 0nat,
{
    let ghost start = errs_view(errors@);
    let error_t = PartialType::error_type();
    match &e.inner {
        Expr::Deref(inner_e) => {
            let inner = type_expr(&**inner_e, env, name_of, Ghost(names), false, errors);
            let ty: PartialType = match inner.ty.deref_ptr() {
                Some(ty) => {
                    if ty.is_void() {
                        report_error(errors, Error::new(ErrorKind::DerefVoidPointer { span: inner.span.clone() }));
                        error_t
                    } else {
                        ty
                    }
                },
                None => {
                    match inner.ty.to_basic() {
                        Some(ty) => {
                            report_error(errors, Error::new(ErrorKind::DerefNonPointer { ty, span: inner.span.clone() }));
                        },
                        None => {},
                    }
                    error_t
                },
            };
            assert(errs_view(errors@) =~= start + check_expr_node(*e, tenv(env), names).2);
            (WithType::new(Some(PartialExpr::Deref(boxed(inner))), ty, e.span.clone()), false)
        },
        _ => unreached(),
    }
}

fn type_assign(
    e: &WithSpan<Expr>,
    env: &TypeEnvironment,
    name_of: &Vec<String>,
    Ghost(names): Ghost<Seq<String>>,
    errors: &mut Vec<Error>,
) -> (r: (PartiallyTypedExpr, bool))
    requires
        e.inner is Assign,
        expr_wf(e.inner, names.len() as nat),
        expr_small(*e),
        env_ok(tenv(env)),
        names_agree(name_of@, names),
    ensures
        node_result_ok(*e, tenv(env), names, old(errors)@, final(errors)@, r),
    decreases e, 0nat,
{
    let ghost start = errs_view(errors@);
    match &e.inner {
        Expr::Assign { lhs, rhs } => {
            if !lhs.inner.is_lvalue() {
                report_error(errors, Error::new(ErrorKind::RvalueAssignment { span: lhs.span.clone() }));
            }
            let var_span: Option<&Option<Span>> = match &lhs.inner {
                Expr::Ident(ident) => match {
                    proof {
                        lemma_env_view_get(env@, ident.inner);
                    }
                    env.get(&ident.inner)
                } {
                    Some((_, (Binding::Fun((_, span), _), _, _))) => Some(span),
                    Some((_, (Binding::Var((_, span)), _, _))) => Some(span),
                    None => None,
                },
                _ => None,
            };
            let lhs_t = type_expr(&**lhs, env, name_of, Ghost(names), false, errors);
            let rhs_t = type_expr(&**rhs, env, name_of, Ghost(names), false, errors);
            let ty1 = lhs_t.ty;
            let ty2 = rhs_t.ty;
            if !ty1.is_eq(&ty2) {
                match var_span {
                    Some(span) => report_mismatch(errors, &rhs.span, ty1, ty2, span),
                    None => report_mismatch(errors, &e.span, ty1, ty2, &None),
                }
            }
            let found_type = if ty1 == PartialType::error_type() {
                ty2
            } else {
                ty1
            };
            assert(errs_view(errors@) =~= start + check_expr_node(*e, tenv(env), names).2);
            (
                WithType::new(
                    Some(PartialExpr::Assign { lhs: boxed(lhs_t), rhs: boxed(rhs_t) }),
                    found_type,
                    e.span.clone(),
                ),
                false,
            )
        },
        _ => unreached(),
    }
}

fn type_incr_decr(
    e: &WithSpan<Expr>,
    env: &TypeEnvironment,
    name_of: &Vec<String>,
    Ghost(names): Ghost<Seq<String>>,
    errors: &mut Vec<Error>,
) -> (r: (PartiallyTypedExpr, bool))
    requires
        e.inner is PrefixIncr || e.inner is PrefixDecr || e.inner is PostfixIncr
            || e.inner is PostfixDecr,
        expr_wf(e.inner, names.len() as nat),
        expr_small(*e),
        env_ok(tenv(env)),
        names_agree(name_of@, names),
    ensures
        node_result_ok(*e, tenv(env), names, old(errors)@, final(errors)@, r),
    decreases e, 0nat,
{
    let ghost start = errs_view(errors@);
    match &e.inner {
        Expr::PrefixIncr(inner_e) => {
            let inner = type_mutated(e, inner_e, env, name_of, Ghost(names), errors);
            let ty = inner.ty;
            assert(errs_view(errors@) =~= start + check_expr_node(*e, tenv(env), names).2);
            (WithType::new(Some(PartialExpr::PrefixIncr(boxed(inner))), ty, e.span.clone()), false)
        },
        Expr::PrefixDecr(inner_e) => {
            let inner = type_mutated(e, inner_e, env, name_of, Ghost(names), errors);
            let ty = inner.ty;
            assert(errs_view(errors@) =~= start + check_expr_node(*e, tenv(env), names).2);
            (WithType::new(Some(PartialExpr::PrefixDecr(boxed(inner))), ty, e.span.clone()), false)
        },
        Expr::PostfixIncr(inner_e) => {
            let inner = type_mutated(e, inner_e, env, name_of, Ghost(names), errors);
            let ty = inner.ty;
            assert(errs_view(errors@) =~= start + check_expr_node(*e, tenv(env), names).2);
            (WithType::new(Some(PartialExpr::PostfixIncr(boxed(inner))), ty, e.span.clone()), false)
        },
        Expr::PostfixDecr(inner_e) => {
            let inner = type_mutated(e, inner_e, env, name_of, Ghost(names), errors);
            let ty = inner.ty;
            assert(errs_view(errors@) =~= start + check_expr_node(*e, tenv(env), names).2);
            (WithType::new(Some(PartialExpr::PostfixDecr(boxed(inner))), ty, e.span.clone()), false)
        },
        _ => unreached(),
    }
}

fn type_sign(
    e: &WithSpan<Expr>,
    env: &TypeEnvironment,
    name_of: &Vec<String>,
    Ghost(names): Ghost<Seq<String>>,
    errors: &mut Vec<Error>,
) -> (r: (PartiallyTypedExpr, bool))
    requires
        e.inner is Pos || e.inner is Neg,
        expr_wf(e.inner, names.len() as nat),
        expr_small(*e),
        env_ok(tenv(env)),
        names_agree(name_of@, names),
    ensures
        node_result_ok(*e, tenv(env), names, old(errors)@, final(errors)@, r),
    decreases e, 0nat,
{
    let ghost start = errs_view(errors@);
    let int_t = PartialType::int_type();
    match &e.inner {
        Expr::Pos(inner_e) => {
            let inner = type_expr(&**inner_e, env, name_of, Ghost(names), false, errors);
            let ty = inner.ty;
            if !ty.is_eq(&int_t) {
                report_mismatch(errors, &inner.span, int_t, ty, &None);
            }
            assert(errs_view(errors@) =~= start + check_expr_node(*e, tenv(env), names).2);
            (WithType::new(Some(PartialExpr::Pos(boxed(inner))), int_t, e.span.clone()), false)
        },
        Expr::Neg(inner_e) => {
            let inner = type_expr(&**inner_e, env, name_of, Ghost(names), false, errors);
            let ty = inner.ty;
            if !ty.is_eq(&int_t) {
                report_mismatch(errors, &inner.span, int_t, ty, &None);
            }
            assert(errs_view(errors@) =~= start + check_expr_node(*e, tenv(env), names).2);
            (WithType::new(Some(PartialExpr::Neg(boxed(inner))), int_t, e.span.clone()), false)
        },
        _ => unreached(),
    }
}

fn type_not(
    e: &WithSpan<Expr>,
    env: &TypeEnvironment,
    name_of: &Vec<String>,
    Ghost(names): Ghost<Seq<String>>,
    errors: &mut Vec<Error>,
) -> (r: (PartiallyTypedExpr, bool))
    requires
        e.inner is Not,
        expr_wf(e.inner, names.len() as nat),
        expr_small(*e),
        env_ok(tenv(env)),
        names_agree(name_of@, names),
    ensures
        node_result_ok(*e, tenv(env), names, old(errors)@, final(errors)@, r),
    decreases e, 0nat,
{
    let ghost start = errs_view(errors@);
    match &e.inner {
        Expr::Not(inner_e) => {
            let inner = type_expr(&**inner_e, env, name_of, Ghost(names), false, errors);
            if inner.ty.is_void() {
                report_error(errors, Error::new(ErrorKind::VoidExpression { span: inner.span.clone() }));
            }
            assert(errs_view(errors@) =~= start + check_expr_node(*e, tenv(env), names).2);
            (WithType::new(Some(PartialExpr::Not(boxed(inner))), PartialType::int_type(), e.span.clone()), false)
        },
        _ => unreached(),
    }
}

fn type_op(
    e: &WithSpan<Expr>,
    env: &TypeEnvironment,
    name_of: &Vec<String>,
    Ghost(names): Ghost<Seq<String>>,
    errors: &mut Vec<Error>,
) -> (r: (PartiallyTypedExpr, bool))
    requires
        e.inner is Op,
        expr_wf(e.inner, names.len() as nat),
        expr_small(*e),
        env_ok(tenv(env)),
        names_agree(name_of@, names),
    ensures
        node_result_ok(*e, tenv(env), names, old(errors)@, final(errors)@, r),
    decreases e, 0nat,
{
    let ghost start = errs_view(errors@);
    match &e.inner {
        Expr::Op { op, lhs, rhs } => {
            let lhs_t = type_expr(&**lhs, env, name_of, Ghost(names), false, errors);
            let rhs_t = type_expr(&**rhs, env, name_of, Ghost(names), false, errors);
            let r = type_binop(*op, lhs_t, rhs_t, &e.span, errors);
            assert(errs_view(errors@) =~= start + check_expr_node(*e, tenv(env), names).2);
            (r, false)
        },
        _ => unreached(),
    }
}

fn type_call(
    e: &WithSpan<Expr>,
    env: &TypeEnvironment,
    name_of: &Vec<String>,
    Ghost(names): Ghost<Seq<String>>,
    errors: &mut Vec<Error>,
) -> (r: (PartiallyTypedExpr, bool))
    requires
        e.inner is Call,
        expr_wf(e.inner, names.len() as nat),
        expr_small(*e),
        env_ok(tenv(env)),
        names_agree(name_of@, names),
    ensures
        node_result_ok(*e, tenv(env), names, old(errors)@, final(errors)@, r),
    decreases e, 0nat,
{
    let ghost start = errs_view(errors@);
    match &e.inner {
        Expr::Call { name, args } => {
            proof {
                lemma_lookup_ok(tenv(env), name.inner);
            }
            let (((ret_ty, _), args_ty), fun_span, new_name) = match get_fun(env, name, name_of) {
                Ok(stuff) => stuff,
                Err(error_value) => {
                    report_error(errors, error_value);
                    assert(errs_view(errors@) =~= start + check_expr_node(*e, tenv(env), names).2);
                    return (WithType::new(None, PartialType::error_type(), e.span.clone()), true);
                },
            };
            if args.len() != args_ty.len() {
                report_error(
                    errors,
                    Error::new(
                        ErrorKind::ArityMismatch {
                            found_arity: args.len(),
                            expected_arity: args_ty.len(),
                            span: e.span.clone(),
                            definition_span: clone_opt_span(fun_span),
                            function_name: clone_name(name_of, name.inner),
                        },
                    ),
                );
                assert(errs_view(errors@) =~= start + check_expr_node(*e, tenv(env), names).2);
                return (WithType::new(None, ret_ty, e.span.clone()), true);
            }
            proof {
                lemma_args_height(args@);
                lemma_exprs_wf(args@, names.len() as nat);
            }
            let typed_args = type_args(args, args_ty, env, name_of, Ghost(names), errors);
            assert(errs_view(errors@) =~= start + check_expr_node(*e, tenv(env), names).2);
            (
                WithType::new(
                    Some(
                        PartialExpr::Call {
                            name: WithSpan { inner: new_name, span: name.span.clone() },
                            args: typed_args,
                        },
                    ),
                    ret_ty,
                    e.span.clone(),
                ),
                false,
            )
        },
        _ => unreached(),
    }
}

/// Checks the operand of `++` or `--` (`e` is the whole expression).
fn type_mutated(
    e: &WithSpan<Expr>,
    inner_e: &Box<WithSpan<Expr>>,
    env: &TypeEnvironment,
    name_of: &Vec<String>,
    Ghost(names): Ghost<Seq<String>>,
    errors: &mut Vec<Error>,
) -> (r: PartiallyTypedExpr)
    requires
        expr_wf(inner_e.inner, names.len() as nat),
        expr_small(**inner_e),
        env_ok(tenv(env)),
        names_agree(name_of@, names),
    ensures
        ({
            let (ty, span, errs) = check_expr(**inner_e, tenv(env), names, false);
            &&& r.ty == ty
            &&& r.span == span
            &&& errs_view(final(errors)@) == errs_view(old(errors)@) + mutation_errors(e.span, **inner_e) + errs
            &&& errs.len() == 0 ==> pte_full(r)
        }),
        r.ty.indirection_count <= type_bound() + expr_height(inner_e.inner) + 1,
        expr_out(**inner_e, tenv(env), names, r),
    decreases inner_e, 3nat,
{
    let ghost start = errs_view(errors@);
    if !inner_e.inner.is_lvalue() {
        report_error(
            errors,
            Error::new(
                ErrorKind::IncrOrDecrRvalue {
                    span: e.span.clone(),
                    expression_span: inner_e.span.clone(),
                },
            ),
        );
    }
    let ghost mid = errs_view(errors@);
    assert(mid =~= start + mutation_errors(e.span, **inner_e));
    let r = type_expr(&**inner_e, env, name_of, Ghost(names), false, errors);
    assert(errs_view(errors@) =~= start + mutation_errors(e.span, **inner_e) + check_expr(**inner_e, tenv(env), names, false).2);
    r
}

/// Gives `lhs op rhs` its type from its checked operands and reports its errors,
/// as [`check_binop`] says.
fn type_binop(
    op: BinOp,
    lhs: PartiallyTypedExpr,
    rhs: PartiallyTypedExpr,
    span: &Span,
    errors: &mut Vec<Error>,
) -> (r: PartiallyTypedExpr)
    requires
        lhs.ty.indirection_count < usize::MAX,
        rhs.ty.indirection_count < usize::MAX,
    ensures
        ({
            let (ty, errs) = check_binop(op, lhs.ty, lhs.span, rhs.ty, rhs.span, *span);
            &&& r.ty == ty
            &&& r.span == *span
            &&& errs_view(final(errors)@) == errs_view(old(errors)@) + errs
            &&& (errs.len() == 0 && pte_full(lhs) && pte_full(rhs)) ==> pte_full(r)
        }),
        r.ty.indirection_count <= lhs.ty.indirection_count || r.ty.indirection_count <= rhs.ty.indirection_count,
        r.inner matches Some(PartialExpr::Op { op: o, lhs: l, rhs: rr }) && o == op && if operands_swapped(
            op,
            lhs.ty,
            rhs.ty,
        ) {
            *l == rhs && *rr == lhs
        } else {
            *l == lhs && *rr == rhs
        },
{
    let ghost start = errs_view(errors@);
    let int_t = PartialType::int_type();
    let error_t = PartialType::error_type();
    let ty1 = lhs.ty;
    let ty2 = rhs.ty;
    match op {
        BinOp::Eq | BinOp::NEq | BinOp::Lt | BinOp::Le | BinOp::Gt | BinOp::Ge => {
            if !ty1.is_eq(&ty2) {
                report_mismatch(errors, &rhs.span, ty1, ty2, &None);
            }
            assert(errs_view(errors@) =~= start + check_binop(op, ty1, lhs.span, ty2, rhs.span, *span).1);
            WithType::new(Some(PartialExpr::Op { op, lhs: boxed(lhs), rhs: boxed(rhs) }), int_t, span.clone())
        },
        BinOp::Mul | BinOp::Div | BinOp::Mod | BinOp::LOr | BinOp::LAnd => {
            if !ty1.is_eq(&int_t) {
                report_mismatch(errors, &lhs.span, int_t, ty1, &None);
            }
            if !ty2.is_eq(&int_t) {
                report_mismatch(errors, &rhs.span, int_t, ty2, &None);
            }
            assert(errs_view(errors@) =~= start + check_binop(op, ty1, lhs.span, ty2, rhs.span, *span).1);
            WithType::new(Some(PartialExpr::Op { op, lhs: boxed(lhs), rhs: boxed(rhs) }), int_t, span.clone())
        },
        BinOp::Add => {
            if ty1.is_ptr() && ty2.is_ptr() {
                report_error(
                    errors,
                    binop_error(ty1, ty2, span, "+").reason(String::from_str("pointers cannot be added.")).add_help(
                        plain_text("maybe you meant to subtract the pointers?"),
                    ),
                );
                assert(errs_view(errors@) =~= start + check_binop(op, ty1, lhs.span, ty2, rhs.span, *span).1);
                WithType::new(Some(PartialExpr::Op { op, lhs: boxed(lhs), rhs: boxed(rhs) }), error_t, span.clone())
            } else {
                let (a, b, first, second) = if ty2.is_ptr() {
                    (ty2, ty1, rhs, lhs)
                } else {
                    (ty1, ty2, lhs, rhs)
                };
                let ret_type = if a.is_ptr() {
                    if !b.is_eq(&int_t) {
                        report_error(errors, binop_error(a, b, span, "+"));
                    }
                    a
                } else if !a.is_eq(&b) {
                    report_error(errors, binop_error(a, b, span, "+").reason(casting_reason_text(&a, &b)));
                    error_t
                } else if !a.is_eq(&int_t) {
                    report_error(errors, binop_error(a, b, span, "+").reason(addition_reason_text(&a)));
                    error_t
                } else {
                    int_t
                };
                assert(errs_view(errors@) =~= start + check_binop(op, ty1, lhs.span, ty2, rhs.span, *span).1);
                WithType::new(
                    Some(PartialExpr::Op { op, lhs: boxed(first), rhs: boxed(second) }),
                    ret_type,
                    span.clone(),
                )
            }
        },
        BinOp::Sub => {
            let ret_type = if ty1.is_ptr() {
                if ty2.is_ptr() {
                    if ty1 != ty2 {
                        report_error(
                            errors,
                            binop_error(ty1, ty2, span, "-").reason(
                                String::from_str("heterogeneous pointers cannot be subtracted"),
                            ),
                        );
                        error_t
                    } else {
                        int_t
                    }
                } else if !ty2.is_eq(&int_t) {
                    report_error(errors, binop_error(ty1, ty2, span, "-"));
                    error_t
                } else {
                    ty1
                }
            } else if !ty1.is_eq(&int_t) || !ty1.is_eq(&ty2) {
                let mut error_value = binop_error(ty1, ty2, span, "-");
                if ty1.is_eq(&int_t) && ty2.is_ptr() {
                    error_value = error_value.add_help(
                        plain_text("maybe you meant to have the operands the other way around"),
                    );
                }
                report_error(errors, error_value);
                error_t
            } else {
                int_t
            };
            assert(errs_view(errors@) =~= start + check_binop(op, ty1, lhs.span, ty2, rhs.span, *span).1);
            WithType::new(Some(PartialExpr::Op { op, lhs: boxed(lhs), rhs: boxed(rhs) }), ret_type, span.clone())
        },
    }
}

/// Checks the arguments of a call against the parameter types, as [`check_args`] says.
#[verifier::loop_isolation(false)]
fn type_args(
    args: &Vec<WithSpan<Expr>>,
    params: &Vec<WithOptionSpan<PartialType>>,
    env: &TypeEnvironment,
    name_of: &Vec<String>,
    Ghost(names): Ghost<Seq<String>>,
    errors: &mut Vec<Error>,
) -> (r: Vec<PartiallyTypedExpr>)
    requires
        args@.len() == params@.len(),
        forall|k: int| 0 <= k < args@.len() ==> #[trigger] expr_wf(args@[k].inner, names.len() as nat),
        forall|k: int| 0 <= k < args@.len() ==> #[trigger] expr_height(args@[k].inner) <= type_bound(),
        env_ok(tenv(env)),
        names_agree(name_of@, names),
    ensures
        errs_view(final(errors)@) == errs_view(old(errors)@) + check_args(args@, params@, tenv(env), names),
        check_args(args@, params@, tenv(env), names).len() == 0 ==> ptes_full(r@),
        exprs_out(args@, tenv(env), names, r@),
    decreases args, 0nat,
{
    let ghost start = errs_view(errors@);
    let mut typed_args: Vec<PartiallyTypedExpr> = Vec::new();
    let mut i: usize = 0;
    while i < args.len()
        invariant
            0 <= i <= args@.len(),
            typed_args@.len() == i,
            errs_view(errors@) == start + check_args(args@.take(i as int), params@, tenv(env), names),
            check_args(args@.take(i as int), params@, tenv(env), names).len() == 0 ==> forall|k: int|
                0 <= k < i ==> #[trigger] pte_full(typed_args@[k]),
            exprs_out(args@.take(i as int), tenv(env), names, typed_args@),
        decreases args@.len() - i,
    {
        proof {
            assert(decreases_to!(args => args@));
            assert(decreases_to!(args@ => args@[i as int]));
        }
        let ghost before = errs_view(errors@);
        let arg = type_expr(&args[i], env, name_of, Ghost(names), false, errors);
        let arg_ty = arg.ty;
        let ty = params[i].0;
        if !arg_ty.is_eq(&ty) {
            report_mismatch(errors, &arg.span, ty, arg_ty, &params[i].1);
        }
        proof {
            let pre = args@.take(i as int);
            let next = args@.take(i + 1);
            assert(next.drop_last() =~= pre);
            assert(next.last() == args@[i as int]);
            assert(errs_view(errors@) =~= start + check_args(next, params@, tenv(env), names));
        }
        let ghost before_args = typed_args@;
        typed_args.push(arg);
        proof {
            assert(typed_args@.drop_last() =~= before_args);
        }
        i = i + 1;
    }
    assert(args@.take(args@.len() as int) =~= args@);
    proof {
        lemma_ptes_full(typed_args@);
    }
    typed_args
}


/// The return type of the function being checked, with the span of its declaration.
pub type ReturnType = WithOptionSpan<PartialType>;

/// The environment with `(k, v)` bound in its innermost frame.
pub open spec fn env_insert(env: EnvView, k: Ident, v: EntryView) -> EnvView {
    env.update(env.len() - 1, env.last().push((k, v)))
}

/// The new name of a nested function: `fun_`, its name, then the line and column
/// where its declaration starts.
pub open spec fn nested_fun_name(name: Seq<char>, span: Span) -> Seq<char> {
    "fun_"@ + name + loc_text(span.start)
}

/// A location written as `line.column`.
pub open spec fn loc_text(loc: (usize, usize)) -> Seq<char> {
    decimal(loc.0 as nat) + "."@ + decimal(loc.1 as nat)
}

/// A written location holds one `.`, right after the digits of its line: the
/// text before it is the line's number and the text after it the column's.
pub proof fn lemma_loc_text_split(loc: (usize, usize))
    ensures
        forall|i: int|
            0 <= i < loc_text(loc).len() ==> (#[trigger] loc_text(loc)[i] == '.' <==> i
                == decimal(loc.0 as nat).len()),
        loc_text(loc).subrange(0, decimal(loc.0 as nat).len() as int) == decimal(loc.0 as nat),
        loc_text(loc).skip(decimal(loc.0 as nat).len() + 1int) == decimal(loc.1 as nat),
{
    let line = decimal(loc.0 as nat);
    let column = decimal(loc.1 as nat);
    reveal_strlit(".");
    let dot = "."@;
    assert(dot =~= seq!['.']);
    let s = line + dot + column;
    assert(loc_text(loc) == s);
    lemma_decimal_no_dot(loc.0 as nat);
    lemma_decimal_no_dot(loc.1 as nat);
    assert forall|i: int| 0 <= i < s.len() implies (#[trigger] s[i] == '.' <==> i == line.len()) by {
        if i < line.len() {
            assert(s[i] == line[i]);
        } else if i > line.len() {
            assert(s[i] == column[i - line.len() - 1]);
        } else {
            assert(s[i] == dot[0]);
        }
    }
    assert(s.subrange(0, line.len() as int) =~= line);
    assert(s.skip(line.len() + 1int) =~= column);
}

/// Two locations are written alike exactly when they are equal.
pub proof fn lemma_loc_text_injective(a: (usize, usize), b: (usize, usize))
    ensures
        loc_text(a) == loc_text(b) <==> a == b,
{
    if loc_text(a) == loc_text(b) {
        let s = loc_text(a);
        let ka = decimal(a.0 as nat).len();
        let kb = decimal(b.0 as nat).len();
        lemma_loc_text_split(a);
        lemma_loc_text_split(b);
        assert(s[ka as int] == '.');
        assert(s[kb as int] == '.');
        assert(ka == kb);
        lemma_decimal_injective(a.0 as nat, b.0 as nat);
        lemma_decimal_injective(a.1 as nat, b.1 as nat);
    }
}

/// The error for a name declared a second time in the same block, if it is.
pub open spec fn reuse_errors(
    name: Ident,
    span: Span,
    env: EnvView,
    names: Seq<String>,
) -> Seq<ErrorView> {
    match env_get(env, name) {
        Some((d, (_, opt_span, _))) => if d == 0 {
            seq![
                plain(
                    ErrorKind::SymbolDefinedTwice {
                        first_definition: opt_span->0,
                        second_definition: span,
                        name: names[name as int],
                    },
                ),
            ]
        } else {
            seq![]
        },
        None => seq![],
    }
}

/// The assignment that the initial value of a declaration stands for
/// (`ty x = e;` is `ty x; x = e;`).
pub open spec fn init_assign(name: WithSpan<Ident>, value: WithSpan<Expr>, span: Span) -> WithSpan<
    Expr,
> {
    WithSpan {
        inner: Expr::Assign {
            lhs: Box::new(WithSpan { inner: Expr::Ident(name), span: name.span }),
            rhs: Box::new(value),
        },
        span,
    }
}

/// The binding of a declared variable.
pub open spec fn var_entry(ty: WithSpan<Type>, name: Ident, span: Span) -> EntryView {
    (BindingView::Var((ty.inner.spec_from_basic(), Some(ty.span))), Some(span), name)
}

/// Checking a variable declaration (`ty`, `name`, optional `value`, at `span`): the
/// errors and the environment with the variable bound.
pub open spec fn check_var_decl(
    ty: WithSpan<Type>,
    name: WithSpan<Ident>,
    value: Option<WithSpan<Expr>>,
    span: Span,
    env: EnvView,
    names: Seq<String>,
) -> (Seq<ErrorView>, EnvView) {
    let e1 = if ty.inner.spec_is_eq(&Type::void_type()) {
        seq![plain(ErrorKind::VoidVariable { span, name: names[name.inner as int] })]
    } else {
        seq![]
    };
    let e2 = reuse_errors(name.inner, span, env, names);
    let env2 = env_insert(env, name.inner, var_entry(ty, name.inner, span));
    let e3 = match value {
        Some(value) => check_expr(init_assign(name, value, span), env2, names, true).2,
        None => seq![],
    };
    (e1 + e2 + e3, env2)
}

/// The errors of checking some expressions, in order, none of them discarded.
pub open spec fn check_exprs(s: Seq<WithSpan<Expr>>, env: EnvView, names: Seq<String>) -> Seq<
    ErrorView,
>
    decreases s.len(),
{
    if s.len() == 0 {
        seq![]
    } else {
        check_exprs(s.drop_last(), env, names) + check_expr(s.last(), env, names, false).2
    }
}

/// The errors of checking the condition of a loop: those of the expression, then
/// one more if it is `void`.
pub open spec fn check_cond(
    cond: Option<WithSpan<Expr>>,
    env: EnvView,
    names: Seq<String>,
) -> (Seq<ErrorView>, Seq<ErrorView>) {
    match cond {
        Some(c) => {
            let (t, s, errs) = check_expr(c, env, names, false);
            (
                errs,
                if t == PartialType::void_type() {
                    seq![plain(ErrorKind::VoidExpression { span: s })]
                } else {
                    seq![]
                },
            )
        },
        None => (seq![], seq![]),
    }
}

/// The error for `return;` in a function that does not return `void`.
pub open spec fn return_void_error(span: Span, ret: ReturnType) -> ErrorView {
    (
        ErrorKind::TypeMismatch {
            span,
            expected_type: ret.0,
            found_type: PartialType::void_type(),
            origin_span: ret.1,
        },
        Some(
            "a `return` statement without arguments requires the current function to have a return type `void`"@,
        ),
        seq![
            seq![
                (Style::plain(), "try adding an argument `"@),
                (Style::bold(), "return /* "@ + type_text(ret.0) + " */;"@),
                (Style::plain(), "`"@),
            ],
        ],
    )
}

/// Checking an instruction at loop nesting `loop_level`, in a function returning
/// `ret`, with `count` names in the table: the errors reported, in order, and the
/// names added to the table for nested functions. The environment is left as it was.
pub open spec fn check_instr(
    i: WithSpan<Instr>,
    loop_level: nat,
    ret: ReturnType,
    env: EnvView,
    names: Seq<String>,
    count: nat,
) -> (Seq<ErrorView>, Seq<Seq<char>>)
    decreases i, 0nat,
{
    match i.inner {
        Instr::EmptyInstr => (seq![], seq![]),
        Instr::ExprInstr(e) => (check_expr(e, env, names, true).2, seq![]),
        Instr::If { cond, then_branch, else_branch } => {
            let c = check_expr(cond, env, names, false).2;
            let (e1, n1) = check_instr(*then_branch, loop_level, ret, env, names, count);
            let (e2, n2) = match *else_branch {
                Some(b) => check_instr(b, loop_level, ret, env, names, count + n1.len()),
                None => (seq![], seq![]),
            };
            (c + e1 + e2, n1 + n2)
        },
        Instr::While { cond, body } => {
            let (c, v) = check_cond(Some(cond), env, names);
            let (e1, n1) = check_instr(*body, loop_level + 1, ret, env, names, count);
            (c + e1 + v, n1)
        },
        Instr::For { loop_var: None, cond, incr, body } => {
            let (c, v) = check_cond(cond, env, names);
            let inc = check_exprs(incr@, env, names);
            let (e1, n1) = check_instr(*body, loop_level + 1, ret, env, names, count);
            (c + inc + e1 + v, n1)
        },
        Instr::For { loop_var: Some(decl), cond, incr, body } => {
            let env0 = env.push(Seq::empty());
            let (d, env1) = check_var_decl(
                decl.inner.ty,
                decl.inner.name,
                decl.inner.value,
                decl.span,
                env0,
                names,
            );
            let (c, v) = check_cond(cond, env1, names);
            let inc = check_exprs(incr@, env1, names);
            let (e1, n1) = check_instr(*body, loop_level + 1, ret, env1, names, count);
            (d + c + inc + e1 + v, n1)
        },
        Instr::Block(b) => {
            let (errs, new_names, _) = check_items(
                b.inner@,
                loop_level,
                ret,
                env.push(Seq::empty()),
                names,
                count,
            );
            (errs, new_names)
        },
        Instr::Return(None) => if ret.0 != PartialType::void_type() {
            (seq![return_void_error(i.span, ret)], seq![])
        } else {
            (seq![], seq![])
        },
        Instr::Return(Some(e)) => {
            let (t, _, errs) = check_expr(e, env, names, ret.0 == PartialType::void_type());
            (
                errs + if !compatible(t, ret.0) {
                    seq![mismatch(i.span, ret.0, t, ret.1)]
                } else {
                    seq![]
                },
                seq![],
            )
        },
        _ => if loop_level == 0 {
            (seq![plain(ErrorKind::BreakContinueOutsideLoop { span: i.span })], seq![])
        } else {
            (seq![], seq![])
        },
    }
}

/// Checking the items of a block, in order, in the environment `env` (whose
/// innermost frame is the block's): the errors, the names added for nested functions
/// and the environment after the last item.
pub open spec fn check_items(
    s: Seq<DeclOrInstr>,
    loop_level: nat,
    ret: ReturnType,
    env: EnvView,
    names: Seq<String>,
    count: nat,
) -> (Seq<ErrorView>, Seq<Seq<char>>, EnvView)
    decreases s, 1nat,
{
    if s.len() == 0 {
        (seq![], seq![], env)
    } else {
        let (e0, n0, env0) = check_items(s.drop_last(), loop_level, ret, env, names, count);
        let (e1, n1, env1) = check_item(s.last(), loop_level, ret, env0, names, count + n0.len());
        (e0 + e1, n0 + n1, env1)
    }
}

/// Checking one item of a block (see [`check_items`]).
pub open spec fn check_item(
    d: DeclOrInstr,
    loop_level: nat,
    ret: ReturnType,
    env: EnvView,
    names: Seq<String>,
    count: nat,
) -> (Seq<ErrorView>, Seq<Seq<char>>, EnvView)
    decreases d, 0nat,
{
    match d {
        DeclOrInstr::Fun(f) => {
            let e1 = reuse_errors(f.inner.name.inner, f.span, env, names);
            let (e2, n2, env2) = check_fun(f, env, names, count, false);
            (e1 + e2, n2, env2)
        },
        DeclOrInstr::Var(v) => {
            let (e1, env1) = check_var_decl(
                v.inner.ty,
                v.inner.name,
                v.inner.value,
                v.span,
                env,
                names,
            );
            (e1, seq![], env1)
        },
        DeclOrInstr::Instr(i) => {
            let (e1, n1) = check_instr(i, loop_level, ret, env, names, count);
            (e1, n1, env)
        },
    }
}

/// Both are missing, or both are there and `r` is what checking `e` builds.
pub open spec fn opt_expr_out(
    e: Option<WithSpan<Expr>>,
    env: EnvView,
    names: Seq<String>,
    r: Option<PartiallyTypedExpr>,
) -> bool {
    match e {
        Some(x) => r matches Some(y) && expr_out(x, env, names, y),
        None => r is None,
    }
}

/// The checked items for a variable declaration: the declaration, with no value,
/// then, where it has a value, the assignment of that value as an instruction,
/// checked once the variable is bound.
pub open spec fn var_out(
    ty: WithSpan<Type>,
    name: WithSpan<Ident>,
    value: Option<WithSpan<Expr>>,
    span: Span,
    loop_level: nat,
    ret: ReturnType,
    env: EnvView,
    names: Seq<String>,
    outs: Seq<PartialDeclOrInstr>,
) -> bool {
    let env2 = check_var_decl(ty, name, value, span, env, names).1;
    &&& outs.len() >= 1
    &&& outs[0] == PartialDeclOrInstr::Var(
        WithSpan {
            inner: PartialVarDecl {
                ty: WithSpan { inner: ty.inner.spec_from_basic(), span: ty.span },
                name,
                value: None,
            },
            span,
        },
    )
    &&& match value {
        None => outs.len() == 1,
        Some(v) => {
            &&& outs.len() == 2
            &&& outs[1] matches PartialDeclOrInstr::Instr(t)
            &&& t.span == span
            &&& t.loop_level == loop_level
            &&& t.expected_return_type == ret.0
            &&& t.instr matches PartialInstr::ExprInstr(x)
            &&& expr_out(init_assign(name, v, span), env2, names, x)
        },
    }
}

/// How many checked items an item of a block gives: two for a variable declared
/// with a value, one otherwise.
pub open spec fn item_count(d: DeclOrInstr) -> nat {
    match d {
        DeclOrInstr::Var(v) => if v.inner.value is Some {
            2
        } else {
            1
        },
        _ => 1,
    }
}

/// The checked instruction `r` is what checking `i` builds (as [`check_instr`]
/// checks it): its span, loop level and return type, and the instruction that
/// [`instr_shape`] says.
pub open spec fn instr_out(
    i: WithSpan<Instr>,
    loop_level: nat,
    ret: ReturnType,
    env: EnvView,
    names: Seq<String>,
    count: nat,
    r: PartiallyTypedInstr,
) -> bool
    decreases i, 1nat,
{
    &&& r.span == instr_out_span(i)
    &&& r.loop_level == loop_level
    &&& r.expected_return_type == ret.0
    &&& instr_shape(i, loop_level, ret, env, names, count, r.instr)
}

/// The `for` loop that checking a loop with no declaration builds: its condition,
/// its increments, and its body one loop level deeper.
pub open spec fn for_shape(
    cond: Option<WithSpan<Expr>>,
    incr: Vec<WithSpan<Expr>>,
    body: Box<WithSpan<Instr>>,
    loop_level: nat,
    ret: ReturnType,
    env: EnvView,
    names: Seq<String>,
    count: nat,
    out: PartialInstr,
) -> bool
    decreases body, 2nat,
{
    out matches PartialInstr::For { loop_var: v, cond: c, incr: inc, body: b } && v is None
        && opt_expr_out(cond, env, names, c) && exprs_out(incr@, env, names, inc@) && instr_out(
        *body,
        loop_level + 1,
        ret,
        env,
        names,
        count,
        *b,
    )
}

/// The instruction that checking `i` builds: the same instruction over the
/// checked parts, but for a `for` loop with a declaration, which becomes a block
/// of the checked declaration then the loop without it.
pub open spec fn instr_shape(
    i: WithSpan<Instr>,
    loop_level: nat,
    ret: ReturnType,
    env: EnvView,
    names: Seq<String>,
    count: nat,
    out: PartialInstr,
) -> bool
    decreases i, 0nat,
{
    match i.inner {
        Instr::EmptyInstr => out is EmptyInstr,
        Instr::Break => out is Break,
        Instr::Continue => out is Continue,
        Instr::ExprInstr(e) => out matches PartialInstr::ExprInstr(x) && expr_out(e, env, names, x),
        Instr::Return(None) => out == PartialInstr::Return(None),
        Instr::Return(Some(e)) => out matches PartialInstr::Return(Some(x)) && expr_out(
            e,
            env,
            names,
            x,
        ),
        Instr::If { cond, then_branch, else_branch } => {
            let n1 = check_instr(*then_branch, loop_level, ret, env, names, count).1;
            out matches PartialInstr::If { cond: c, then_branch: t, else_branch: eb } && expr_out(
                cond,
                env,
                names,
                c,
            ) && instr_out(*then_branch, loop_level, ret, env, names, count, *t) && match *else_branch {
                Some(b) => *eb matches Some(b2) && instr_out(
                    b,
                    loop_level,
                    ret,
                    env,
                    names,
                    count + n1.len(),
                    b2,
                ),
                None => *eb is None,
            }
        },
        Instr::While { cond, body } => out matches PartialInstr::While { cond: c, body: b }
            && expr_out(cond, env, names, c) && instr_out(*body, loop_level + 1, ret, env, names, count, *b),
        Instr::For { loop_var: None, cond, incr, body } => for_shape(
            cond,
            incr,
            body,
            loop_level,
            ret,
            env,
            names,
            count,
            out,
        ),
        Instr::For { loop_var: Some(decl), cond, incr, body } => {
            let env0 = env.push(Seq::empty());
            let env1 = check_var_decl(
                decl.inner.ty,
                decl.inner.name,
                decl.inner.value,
                decl.span,
                env0,
                names,
            ).1;
            &&& out matches PartialInstr::Block(b)
            &&& b.span == i.span
            &&& b.inner@.len() >= 1
            &&& var_out(
                decl.inner.ty,
                decl.inner.name,
                decl.inner.value,
                decl.span,
                loop_level,
                ret,
                env0,
                names,
                b.inner@.drop_last(),
            )
            &&& b.inner@.last() matches PartialDeclOrInstr::Instr(t)
            &&& t.span == i.span
            &&& t.loop_level == loop_level
            &&& t.expected_return_type == ret.0
            &&& for_shape(cond, incr, body, loop_level, ret, env1, names, count, t.instr)
        },
        Instr::Block(b) => out matches PartialInstr::Block(ob) && ob.span == b.span && items_out(
            b.inner@,
            loop_level,
            ret,
            env.push(Seq::empty()),
            names,
            count,
            ob.inner@,
        ),
    }
}

/// The checked items `outs` are what checking the items `s` of a block builds, in
/// order (see [`item_out`]).
pub open spec fn items_out(
    s: Seq<DeclOrInstr>,
    loop_level: nat,
    ret: ReturnType,
    env: EnvView,
    names: Seq<String>,
    count: nat,
    outs: Seq<PartialDeclOrInstr>,
) -> bool
    decreases s, 1nat,
{
    if s.len() == 0 {
        outs.len() == 0
    } else {
        let (_, n0, env0) = check_items(s.drop_last(), loop_level, ret, env, names, count);
        let k = outs.len() - item_count(s.last());
        &&& outs.len() >= item_count(s.last())
        &&& items_out(s.drop_last(), loop_level, ret, env, names, count, outs.take(k))
        &&& item_out(s.last(), loop_level, ret, env0, names, count + n0.len(), outs.skip(k))
    }
}

/// The checked items that checking one item of a block builds: the checked
/// function, the checked declaration (see [`var_out`]) or the checked instruction.
pub open spec fn item_out(
    d: DeclOrInstr,
    loop_level: nat,
    ret: ReturnType,
    env: EnvView,
    names: Seq<String>,
    count: nat,
    outs: Seq<PartialDeclOrInstr>,
) -> bool
    decreases d, 0nat,
{
    match d {
        DeclOrInstr::Fun(f) => {
            &&& outs.len() == 1
            &&& outs[0] matches PartialDeclOrInstr::Fun(g)
            &&& fun_out(f, env, names, count, false, g)
        },
        DeclOrInstr::Var(v) => var_out(
            v.inner.ty,
            v.inner.name,
            v.inner.value,
            v.span,
            loop_level,
            ret,
            env,
            names,
            outs,
        ),
        DeclOrInstr::Instr(i) => {
            &&& outs.len() == 1
            &&& outs[0] matches PartialDeclOrInstr::Instr(t)
            &&& instr_out(i, loop_level, ret, env, names, count, t)
        },
    }
}

/// The checked function `out` is what checking `decl` builds (as [`check_fun`]
/// checks it): its signature (see [`partial_signature`]) under its new name, and
/// its code checked after its parameters, which the checked code leaves out.
pub open spec fn fun_out(
    decl: WithSpan<FunDecl>,
    env: EnvView,
    names: Seq<String>,
    count: nat,
    toplevel: bool,
    out: WithSpan<PartialFunDecl>,
) -> bool
    decreases decl, 0nat,
{
    let f = decl.inner;
    let ret = (f.ty.inner.spec_from_basic(), Some(f.ty.span));
    let (new_name, n1) = spec_fun_new_name(f.name.inner, Some(decl.span), toplevel, names, count);
    let env1 = env_insert(
        env,
        f.name.inner,
        (BindingView::Fun(ret, param_types(f.params@)), Some(decl.span), new_name),
    );
    let env2 = check_params(f.params@, env1.push(Seq::empty()), names).1;
    &&& partial_signature(out, decl, new_name)
    &&& items_out(f.code.inner@, 0, ret, env2, names, count + n1.len(), out.inner.code.inner@)
}

/// The parameter types of a function, as bound.
pub open spec fn param_types(params: Seq<(WithSpan<Type>, WithSpan<Ident>)>) -> Seq<
    WithOptionSpan<PartialType>,
> {
    Seq::new(params.len(), |k: int| (params[k].0.inner.spec_from_basic(), Some(params[k].0.span)))
}

/// Checking the parameters of a function, declared in turn as variables.
pub open spec fn check_params(
    params: Seq<(WithSpan<Type>, WithSpan<Ident>)>,
    env: EnvView,
    names: Seq<String>,
) -> (Seq<ErrorView>, EnvView)
    decreases params.len(),
{
    if params.len() == 0 {
        (seq![], env)
    } else {
        let (e0, env0) = check_params(params.drop_last(), env, names);
        let (ty, name) = params.last();
        let (e1, env1) = check_var_decl(ty, name, None, ty.span.spec_sup(&name.span), env0, names);
        (e0 + e1, env1)
    }
}

/// Checking a function declaration: the errors, the names added and the
/// environment with the function bound in the innermost frame.
pub open spec fn check_fun(
    decl: WithSpan<FunDecl>,
    env: EnvView,
    names: Seq<String>,
    count: nat,
    toplevel: bool,
) -> (Seq<ErrorView>, Seq<Seq<char>>, EnvView)
    decreases decl, 0nat,
{
    let f = decl.inner;
    let ret = (f.ty.inner.spec_from_basic(), Some(f.ty.span));
    let (new_name, n1) = spec_fun_new_name(f.name.inner, Some(decl.span), toplevel, names, count);
    let env1 = env_insert(
        env,
        f.name.inner,
        (BindingView::Fun(ret, param_types(f.params@)), Some(decl.span), new_name),
    );
    let (e1, env2) = check_params(f.params@, env1.push(Seq::empty()), names);
    let (e2, n2, _) = check_items(f.code.inner@, 0, ret, env2, names, count + n1.len());
    (e1 + e2, n1 + n2, env1)
}


/// Every binding outside the outermost frame has the span of its definition.
pub open spec fn env_spans_ok(env: EnvView) -> bool {
    forall|i: int, j: int|
        1 <= i < env.len() && 0 <= j < env[i].len() ==> (#[trigger] env[i][j]).1.1 is Some
}

/// What the checker keeps true of its environment: every bound type is known and
/// bounded, bindings in inner frames have spans, and there is an outermost frame.
pub open spec fn env_inv(env: EnvView) -> bool {
    env_ok(env) && env_spans_ok(env) && env.len() >= 1
}

/// `after` is `before` with the names `added` appended.
pub open spec fn names_extended(before: Seq<String>, after: Seq<String>, added: Seq<Seq<char>>) -> bool {
    &&& after.len() == before.len() + added.len()
    &&& forall|i: int| 0 <= i < before.len() ==> #[trigger] after[i] == before[i]
    &&& forall|i: int| 0 <= i < added.len() ==> #[trigger] after[before.len() + i]@ == added[i]
}

proof fn lemma_names_extended_trans(
    a: Seq<String>,
    b: Seq<String>,
    c: Seq<String>,
    x: Seq<Seq<char>>,
    y: Seq<Seq<char>>,
)
    requires
        names_extended(a, b, x),
        names_extended(b, c, y),
    ensures
        names_extended(a, c, x + y),
{
    assert forall|i: int| 0 <= i < (x + y).len() implies #[trigger] c[a.len() + i]@ == (x + y)[i] by {
        if i < x.len() {
            assert(c[a.len() + i] == b[a.len() + i]);
        } else {
            assert(c[b.len() + (i - x.len())]@ == y[i - x.len()]);
        }
    }
}

proof fn lemma_names_extended_refl(a: Seq<String>)
    ensures
        names_extended(a, a, seq![]),
{
}

proof fn lemma_names_agree_extended(a: Seq<String>, b: Seq<String>, x: Seq<Seq<char>>, names: Seq<String>)
    requires
        names_agree(a, names),
        names_extended(a, b, x),
    ensures
        names_agree(b, names),
{
    assert forall|i: int| 0 <= i < names.len() implies #[trigger] b[i] == names[i] by {
        assert(b[i] == a[i]);
    }
}

proof fn lemma_env_inv_insert(env: EnvView, k: Ident, v: EntryView)
    requires
        env_inv(env),
        binding_ok(v.0),
        v.1 is Some,
    ensures
        env_inv(env_insert(env, k, v)),
{
    let e2 = env_insert(env, k, v);
    assert forall|i: int, j: int| 0 <= i < e2.len() && 0 <= j < e2[i].len() implies #[trigger] binding_ok(
        e2[i][j].1.0,
    ) by {
        if i == env.len() - 1 && j == env.last().len() {
        } else {
            assert(e2[i][j] == env[i][j]);
        }
    }
    assert forall|i: int, j: int| 1 <= i < e2.len() && 0 <= j < e2[i].len() implies (
    #[trigger] e2[i][j]).1.1 is Some by {
        if i == env.len() - 1 && j == env.last().len() {
        } else {
            assert(e2[i][j] == env[i][j]);
        }
    }
}

proof fn lemma_env_inv_push(env: EnvView)
    requires
        env_inv(env),
    ensures
        env_inv(env.push(Seq::empty())),
{
    let e2 = env.push(Seq::empty());
    assert forall|i: int, j: int| 0 <= i < e2.len() && 0 <= j < e2[i].len() implies #[trigger] binding_ok(
        e2[i][j].1.0,
    ) by {
        assert(e2[i][j] == env[i][j]);
    }
    assert forall|i: int, j: int| 1 <= i < e2.len() && 0 <= j < e2[i].len() implies (
    #[trigger] e2[i][j]).1.1 is Some by {
        assert(e2[i][j] == env[i][j]);
    }
}

/// Binds `k` to `v` in the innermost frame.
fn env_bind(env: &mut TypeEnvironment, k: Ident, v: Entry)
    requires
        old(env)@.len() > 0,
    ensures
        tenv(final(env)) == env_insert(tenv(old(env)), k, entry_view(v)),
        final(env)@.len() == old(env)@.len(),
        final(env)@.drop_last() == old(env)@.drop_last(),
{
    let ghost before = env@;
    env.insert(k, v);
    assert(env@.drop_last() =~= before.drop_last());
    proof {
        let a = env_view(env@);
        let b = env_insert(env_view(before), k, entry_view(v));
        assert(a.len() == b.len());
        assert forall|i: int| 0 <= i < a.len() implies #[trigger] a[i] == b[i] by {
            if i == before.len() - 1 {
                assert(a[i] =~= b[i]);
            } else {
                assert(a[i] =~= b[i]);
            }
        }
        assert(a =~= b);
    }
}

/// Opens a new innermost frame.
fn env_open(env: &mut TypeEnvironment)
    ensures
        tenv(final(env)) == tenv(old(env)).push(Seq::empty()),
        final(env)@ == old(env)@.push(Seq::empty()),
{
    let ghost before = env@;
    env.begin_frame();
    proof {
        let a = env_view(env@);
        let b = env_view(before).push(Seq::empty());
        assert forall|i: int| 0 <= i < a.len() implies #[trigger] a[i] == b[i] by {
            assert(a[i] =~= b[i]);
        }
        assert(a =~= b);
    }
}

/// Closes the innermost frame.
fn env_close(env: &mut TypeEnvironment)
    requires
        old(env)@.len() > 0,
    ensures
        tenv(final(env)) == tenv(old(env)).drop_last(),
        final(env)@ == old(env)@.drop_last(),
{
    let ghost before = env@;
    env.end_frame();
    proof {
        let a = env_view(env@);
        let b = env_view(before).drop_last();
        assert forall|i: int| 0 <= i < a.len() implies #[trigger] a[i] == b[i] by {
            assert(a[i] =~= b[i]);
        }
        assert(a =~= b);
    }
}

/// A location written as `line.column`.
pub fn format_loc(loc: (usize, usize)) -> (s: String)
    ensures
        s@ == loc_text(loc),
{
    let mut s = usize_to_string(loc.0);
    s.append(".");
    s.append(usize_to_string(loc.1).as_str());
    s
}

/// The new name of a function: `fun_`, its name and where it starts (see
/// [`nested_fun_name`]), where the span is known.
pub open spec fn fresh_fun_name(name: Seq<char>, span: Option<Span>) -> Seq<char> {
    match span {
        Some(span) => nested_fun_name(name, span),
        None => "fun_"@ + name,
    }
}

/// The name a function gets, and the names it adds to the table (see
/// [`insert_new_fun`]).
pub open spec fn spec_fun_new_name(
    name: Ident,
    span: Option<Span>,
    toplevel: bool,
    names: Seq<String>,
    count: nat,
) -> (Ident, Seq<Seq<char>>) {
    if !toplevel && names[name as int]@ != "main"@ {
        (count as Ident, seq![fresh_fun_name(names[name as int]@, span)])
    } else {
        (name, seq![])
    }
}

/// Binds the function `ident` in the innermost frame, under a fresh name if it is
/// nested (and not `main`), and returns that name.
fn insert_new_fun(
    env: &mut TypeEnvironment,
    ident: Ident,
    fun_binding: (WithOptionSpan<PartialType>, Vec<WithOptionSpan<PartialType>>),
    span: Option<Span>,
    fun_is_toplevel: bool,
    name_of: &mut Vec<String>,
    Ghost(names): Ghost<Seq<String>>,
) -> (new_name: Ident)
    requires
        ident < names.len(),
        names_agree(old(name_of)@, names),
        old(env)@.len() > 0,
    ensures
        ({
            let (n, added) = spec_fun_new_name(
                ident,
                span,
                fun_is_toplevel,
                names,
                old(name_of)@.len() as nat,
            );
            &&& new_name == n
            &&& names_extended(old(name_of)@, final(name_of)@, added)
            &&& tenv(final(env)) == env_insert(
                tenv(old(env)),
                ident,
                (BindingView::Fun(fun_binding.0, fun_binding.1@), span, new_name),
            )
        }),
        final(env)@.len() == old(env)@.len(),
        final(env)@.drop_last() == old(env)@.drop_last(),
{
    let new_name = if !fun_is_toplevel && name_of[ident] != String::from_str("main") {
        let mut new_name_str = String::from_str("fun_");
        new_name_str.append(name_of[ident].as_str());
        match &span {
            Some(span) => new_name_str.append(format_loc(span.start()).as_str()),
            None => {},
        }
        let new_name = name_of.len();
        name_of.push(new_name_str);
        new_name
    } else {
        ident
    };
    let ghost v = (Binding::Fun(fun_binding.0, fun_binding.1), span, new_name);
    env_bind(env, ident, (Binding::Fun(fun_binding.0, fun_binding.1), span, new_name));
    new_name
}

/// Binds the variable `ident` in the innermost frame; a variable keeps its name.
fn insert_new_var(
    env: &mut TypeEnvironment,
    ident: Ident,
    var_binding: WithOptionSpan<PartialType>,
    span: Span,
) -> (new_name: Ident)
    requires
        old(env)@.len() > 0,
    ensures
        new_name == ident,
        tenv(final(env)) == env_insert(
            tenv(old(env)),
            ident,
            (BindingView::Var(var_binding), Some(span), ident),
        ),
        final(env)@.len() == old(env)@.len(),
        final(env)@.drop_last() == old(env)@.drop_last(),
{
    env_bind(env, ident, (Binding::Var(var_binding), Some(span), ident));
    ident
}

/// Fails if `var_name` is already declared in the innermost frame.
fn assert_var_is_not_reused(
    var_name: &WithSpan<Ident>,
    env: &TypeEnvironment,
    name_of: &Vec<String>,
    Ghost(names): Ghost<Seq<String>>,
) -> (r: Result<()>)
    requires
        var_name.inner < names.len(),
        names_agree(name_of@, names),
        env_spans_ok(tenv(env)),
        tenv(env).len() >= 2,
    ensures
        match r {
            Ok(_) => reuse_errors(var_name.inner, var_name.span, tenv(env), names).len() == 0,
            Err(e) => seq![e@] == reuse_errors(var_name.inner, var_name.span, tenv(env), names),
        },
{
    proof {
        lemma_env_view_get(env@, var_name.inner);
        lemma_env_get_mem(tenv(env), var_name.inner);
        lemma_env_get_top(tenv(env), var_name.inner);
    }
    match env.get(&var_name.inner) {
        Some((d, (_, opt_span, _))) => {
            if d == 0 {
                let first = match opt_span {
                    Some(s) => s.clone(),
                    None => unreached(),
                };
                Err(
                    Error::new(
                        ErrorKind::SymbolDefinedTwice {
                            first_definition: first,
                            second_definition: var_name.span.clone(),
                            name: clone_name(name_of, var_name.inner),
                        },
                    ),
                )
            } else {
                Ok(())
            }
        },
        None => Ok(()),
    }
}

/// A binding found at depth 0 is in the innermost frame.
proof fn lemma_env_get_top(env: EnvView, k: Ident)
    requires
        env.len() >= 1,
    ensures
        env_get(env, k) matches Some((d, v)) ==> d == 0 ==> exists|j: int|
            0 <= j < env.last().len() && #[trigger] env.last()[j] == (k, v),
{
    crate::environment::lemma_frame_get_mem(env.last(), k);
}


/// Checks the initial value of a declared variable, as the assignment it stands
/// for (see [`init_assign`]), whose value is thrown away.
fn type_decl_init(
    name: &WithSpan<Ident>,
    value: &WithSpan<Expr>,
    span: &Span,
    env: &TypeEnvironment,
    name_of: &Vec<String>,
    Ghost(names): Ghost<Seq<String>>,
    errors: &mut Vec<Error>,
) -> (r: PartiallyTypedExpr)
    requires
        name.inner < names.len(),
        expr_wf(value.inner, names.len() as nat),
        expr_small(*value),
        env_ok(tenv(env)),
        names_agree(name_of@, names),
    ensures
        ({
            let (ty, sp, errs) = check_expr(init_assign(*name, *value, *span), tenv(env), names, true);
            &&& r.ty == ty
            &&& r.span == sp
            &&& errs_view(final(errors)@) == errs_view(old(errors)@) + errs
            &&& errs.len() == 0 ==> pte_full(r)
        }),
        expr_out(init_assign(*name, *value, *span), tenv(env), names, r),
{
    let ghost start = errs_view(errors@);
    let ghost whole = init_assign(*name, *value, *span);
    let lhs = WithSpan { inner: Expr::Ident(name.copied()), span: name.span.clone() };
    proof {
        lemma_env_view_get(env@, name.inner);
    }
    let var_span: Option<&Option<Span>> = match env.get(&name.inner) {
        Some((_, (Binding::Fun((_, span), _), _, _))) => Some(span),
        Some((_, (Binding::Var((_, span)), _, _))) => Some(span),
        None => None,
    };
    let lhs_t = type_expr(&lhs, env, name_of, Ghost(names), false, errors);
    let rhs_t = type_expr(value, env, name_of, Ghost(names), false, errors);
    let ty1 = lhs_t.ty;
    let ty2 = rhs_t.ty;
    if !ty1.is_eq(&ty2) {
        match var_span {
            Some(s) => report_mismatch(errors, &value.span, ty1, ty2, s),
            None => report_mismatch(errors, span, ty1, ty2, &None),
        }
    }
    let found_type = if ty1 == PartialType::error_type() {
        ty2
    } else {
        ty1
    };
    assert(errs_view(errors@) =~= start + check_expr(whole, tenv(env), names, true).2);
    WithType::new(
        Some(PartialExpr::Assign { lhs: boxed(lhs_t), rhs: boxed(rhs_t) }),
        found_type,
        span.clone(),
    )
}

/// The declared type, seen as a partial one, with its span.
fn partial_ty(ty: &WithSpan<Type>) -> (r: WithSpan<PartialType>)
    ensures
        r.inner == ty.inner.spec_from_basic(),
        r.span == ty.span,
{
    WithSpan { inner: ty.inner.from_basic(), span: ty.span.clone() }
}

/// Checks a variable declaration (the `Var` items of a block): reports a `void`
/// variable and a name declared twice in the block, binds the variable, then checks
/// its initial value as an assignment. The checked items are appended to `out`.
fn typecheck_var_decl(
    ty: &WithSpan<Type>,
    name: &WithSpan<Ident>,
    value: &Option<WithSpan<Expr>>,
    span: &Span,
    loop_level: usize,
    ret: &ReturnType,
    env: &mut TypeEnvironment,
    name_of: &Vec<String>,
    Ghost(names): Ghost<Seq<String>>,
    errors: &mut Vec<Error>,
    out: &mut Vec<PartialDeclOrInstr>,
)
    requires
        var_decl_wf(VarDecl { ty: *ty, name: *name, value: *value }, names.len() as nat),
        env_inv(tenv(old(env))),
        tenv(old(env)).len() >= 2,
        names_agree(name_of@, names),
        ty_ok(ret.0),
    ensures
        ({
            let (errs, env2) = check_var_decl(*ty, *name, *value, *span, tenv(old(env)), names);
            &&& errs_view(final(errors)@) == errs_view(old(errors)@) + errs
            &&& tenv(final(env)) == env2
            &&& final(env)@.len() == old(env)@.len()
            &&& final(env)@.drop_last() == old(env)@.drop_last()
            &&& final(out)@.len() >= old(out)@.len()
            &&& final(out)@.subrange(0, old(out)@.len() as int) == old(out)@
            &&& errs.len() == 0 ==> forall|k: int|
                old(out)@.len() <= k < final(out)@.len() ==> #[trigger] pitem_full(final(out)@[k])
        }),
        env_inv(tenv(final(env))),
        var_out(
            *ty,
            *name,
            *value,
            *span,
            loop_level as nat,
            *ret,
            tenv(old(env)),
            names,
            final(out)@.skip(old(out)@.len() as int),
        ),
{
    let ghost start = errs_view(errors@);
    let ghost out0 = out@;
    let ghost env0 = tenv(env);
    if ty.inner.is_eq(&Type::void_type()) {
        report_error(
            errors,
            Error::new(ErrorKind::VoidVariable { span: span.clone(), name: clone_name(name_of, name.inner) }),
        );
    }
    match assert_var_is_not_reused(&name.with_span(span.clone()), env, name_of, Ghost(names)) {
        Err(error_value) => report_error(errors, error_value),
        Ok(_) => {},
    }
    let ghost mid = errs_view(errors@);
    let new_name = insert_new_var(
        env,
        name.inner,
        (ty.inner.from_basic(), Some(ty.span.clone())),
        span.clone(),
    );
    proof {
        lemma_env_inv_insert(env0, name.inner, var_entry(*ty, name.inner, *span));
    }
    out.push(
        PartialDeclOrInstr::Var(
            WithSpan::new(
                PartialVarDecl {
                    ty: partial_ty(ty),
                    name: WithSpan { inner: new_name, span: name.span.clone() },
                    value: None,
                },
                span.clone(),
            ),
        ),
    );
    match value {
        Some(value) => {
            let typed_assign = type_decl_init(name, value, span, env, name_of, Ghost(names), errors);
            out.push(
                PartialDeclOrInstr::Instr(
                    TypedInstr {
                        instr: PartialInstr::ExprInstr(typed_assign),
                        span: span.clone(),
                        loop_level,
                        expected_return_type: ret.0,
                    },
                ),
            );
        },
        None => {},
    }
    assert(errs_view(errors@) =~= start + check_var_decl(*ty, *name, *value, *span, env0, names).0);
    assert(out@.subrange(0, out0.len() as int) =~= out0);
    assert(out@.skip(out0.len() as int)[0] == out@[out0.len() as int]);
    if value.is_some() {
        assert(out@.skip(out0.len() as int)[1] == out@[out0.len() as int + 1]);
    }
}


/// Where a checked instruction says it stands: a block keeps its own span.
pub open spec fn instr_out_span(i: WithSpan<Instr>) -> Span {
    match i.inner {
        Instr::Block(b) => b.span,
        _ => i.span,
    }
}

/// What checking an instruction gives (see [`check_instr`]), with the name tables
/// and error lists before and after.
spec fn instr_post(
    i: WithSpan<Instr>,
    loop_level: usize,
    ret: ReturnType,
    env0: EnvView,
    names: Seq<String>,
    nm0: Seq<String>,
    nm1: Seq<String>,
    er0: Seq<Error>,
    er1: Seq<Error>,
    r: PartiallyTypedInstr,
) -> bool {
    let (errs, added) = check_instr(i, loop_level as nat, ret, env0, names, nm0.len());
    &&& errs_view(er1) == errs_view(er0) + errs
    &&& names_extended(nm0, nm1, added)
    &&& r.span == instr_out_span(i)
    &&& r.loop_level == loop_level
    &&& r.expected_return_type == ret.0
    &&& errs.len() == 0 ==> pti_full(r)
    &&& instr_shape(i, loop_level as nat, ret, env0, names, nm0.len(), r.instr)
}

/// What the instruction checkers need: well-formed input, room for the loop
/// levels, a known return type and a sound environment and name table.
spec fn instr_pre(
    i: WithSpan<Instr>,
    loop_level: usize,
    ret: ReturnType,
    env0: EnvView,
    names: Seq<String>,
    nm0: Seq<String>,
) -> bool {
    &&& instr_wf(i.inner, names.len() as nat)
    &&& loop_level + instr_height(i.inner) <= type_bound()
    &&& ty_ok(ret.0)
    &&& env_inv(env0)
    &&& names_agree(nm0, names)
}

fn return_help(t: &PartialType) -> (r: Vec<Styled>)
    ensures
        r.deep_view() == seq![
            (Style::plain(), "try adding an argument `"@),
            (Style::bold(), "return /* "@ + type_text(*t) + " */;"@),
            (Style::plain(), "`"@),
        ],
{
    let mut code = String::from_str("return /* ");
    code.append(t.name().as_str());
    code.append(" */;");
    let mut r = Vec::new();
    r.push(Styled { style: Style::plain(), text: String::from_str("try adding an argument `") });
    r.push(Styled { style: Style::bold(), text: code });
    r.push(Styled { style: Style::plain(), text: String::from_str("`") });
    assert(r.deep_view() =~= seq![
        (Style::plain(), "try adding an argument `"@),
        (Style::bold(), "return /* "@ + type_text(*t) + " */;"@),
        (Style::plain(), "`"@),
    ]);
    r
}

/// The error for a checked branch whose return type is not the function's: a type
/// mismatch at the branch, with a hint that it should not happen.
pub open spec fn branch_mismatch(span: Span, return_type: PartialType, found: PartialType) -> ErrorView {
    (
        ErrorKind::TypeMismatch {
            span,
            expected_type: return_type,
            found_type: found,
            origin_span: None,
        },
        None,
        seq![plain_help("this should not happen"@)],
    )
}

/// Reports that a checked branch disagrees with the function's return type (which
/// the checker never lets happen): the errors are unchanged when they agree, and
/// get [`branch_mismatch`] last otherwise.
fn check_branch_return_type(
    branch: &PartiallyTypedInstr,
    return_type: PartialType,
    errors: &mut Vec<Error>,
)
    ensures
        branch.expected_return_type == return_type ==> final(errors)@ == old(errors)@,
        branch.expected_return_type != return_type ==> errs_view(final(errors)@) == errs_view(
            old(errors)@,
        ).push(branch_mismatch(branch.span, return_type, branch.expected_return_type)),
{
    if branch.expected_return_type != return_type {
        let ghost before = errs_view(errors@);
        let help = plain_text("this should not happen");
        let e = Error::new(
            ErrorKind::TypeMismatch {
                span: branch.span.clone(),
                expected_type: return_type,
                found_type: branch.expected_return_type,
                origin_span: None,
            },
        ).add_help(help);
        assert(e@ == branch_mismatch(branch.span, return_type, branch.expected_return_type)) by {
            assert(Seq::<Seq<(Style, Seq<char>)>>::empty().push(plain_help("this should not happen"@))
                =~= seq![plain_help("this should not happen"@)]);
        }
        report_error(errors, e);
    }
}

/// Checks an instruction at loop nesting `loop_level` in a function returning
/// `ret`, as [`check_instr`] says; the environment is left as it was.
fn typecheck_instr(
    instr: &WithSpan<Instr>,
    loop_level: usize,
    ret: &ReturnType,
    env: &mut TypeEnvironment,
    name_of: &mut Vec<String>,
    Ghost(names): Ghost<Seq<String>>,
    errors: &mut Vec<Error>,
) -> (r: PartiallyTypedInstr)
    requires
        instr_pre(*instr, loop_level, *ret, tenv(old(env)), names, old(name_of)@),
    ensures
        instr_post(
            *instr,
            loop_level,
            *ret,
            tenv(old(env)),
            names,
            old(name_of)@,
            final(name_of)@,
            old(errors)@,
            final(errors)@,
            r,
        ),
        final(env)@ == old(env)@,
    decreases instr, 1nat,
{
    let ghost start = errs_view(errors@);
    let ghost env0 = tenv(env);
    let return_type = ret.0;
    proof {
        lemma_names_extended_refl(name_of@);
    }
    match &instr.inner {
        Instr::EmptyInstr => {
            assert(errs_view(errors@) =~= start + check_instr(*instr, loop_level as nat, *ret, env0, names, name_of@.len()).0);
            TypedInstr { instr: PartialInstr::EmptyInstr, span: instr.span.clone(), loop_level, expected_return_type: return_type }
        },
        Instr::ExprInstr(e) => {
            let typed = type_expr(e, env, name_of, Ghost(names), true, errors);
            TypedInstr { instr: PartialInstr::ExprInstr(typed), span: instr.span.clone(), loop_level, expected_return_type: return_type }
        },
        Instr::If { .. } => typecheck_if(instr, loop_level, ret, env, name_of, Ghost(names), errors),
        Instr::While { .. } => typecheck_while(instr, loop_level, ret, env, name_of, Ghost(names), errors),
        Instr::For { loop_var: None, .. } => typecheck_for(instr, loop_level, ret, env, name_of, Ghost(names), errors),
        Instr::For { loop_var: Some(_), .. } => typecheck_for_decl(instr, loop_level, ret, env, name_of, Ghost(names), errors),
        Instr::Block(block) => typecheck_block(block, loop_level, ret, env, name_of, Ghost(names), errors),
        Instr::Return(None) => {
            if !return_type.is_void() {
                report_error(
                    errors,
                    Error::new(
                        ErrorKind::TypeMismatch {
                            span: instr.span.clone(),
                            expected_type: return_type,
                            found_type: PartialType::void_type(),
                            origin_span: clone_opt_span(&ret.1),
                        },
                    ).reason(
                        String::from_str(
                            "a `return` statement without arguments requires the current function to have a return type `void`",
                        ),
                    ).add_help(return_help(&return_type)),
                );
            }
            assert(errs_view(errors@) =~= start + check_instr(*instr, loop_level as nat, *ret, env0, names, name_of@.len()).0);
            TypedInstr { instr: PartialInstr::Return(None), span: instr.span.clone(), loop_level, expected_return_type: return_type }
        },
        Instr::Return(Some(e)) => {
            let typed = type_expr(e, env, name_of, Ghost(names), return_type.is_void(), errors);
            if !typed.ty.is_eq(&return_type) {
                report_mismatch(errors, &instr.span, return_type, typed.ty, &ret.1);
            }
            assert(errs_view(errors@) =~= start + check_instr(*instr, loop_level as nat, *ret, env0, names, name_of@.len()).0);
            TypedInstr { instr: PartialInstr::Return(Some(typed)), span: instr.span.clone(), loop_level, expected_return_type: return_type }
        },
        Instr::Break | Instr::Continue => {
            if loop_level == 0 {
                report_error(errors, Error::new(ErrorKind::BreakContinueOutsideLoop { span: instr.span.clone() }));
            }
            assert(errs_view(errors@) =~= start + check_instr(*instr, loop_level as nat, *ret, env0, names, name_of@.len()).0);
            TypedInstr {
                instr: if let Instr::Break = instr.inner {
                    PartialInstr::Break
                } else {
                    PartialInstr::Continue
                },
                span: instr.span.clone(),
                loop_level,
                expected_return_type: return_type,
            }
        },
    }
}

fn typecheck_if(
    instr: &WithSpan<Instr>,
    loop_level: usize,
    ret: &ReturnType,
    env: &mut TypeEnvironment,
    name_of: &mut Vec<String>,
    Ghost(names): Ghost<Seq<String>>,
    errors: &mut Vec<Error>,
) -> (r: PartiallyTypedInstr)
    requires
        instr.inner is If,
        instr_pre(*instr, loop_level, *ret, tenv(old(env)), names, old(name_of)@),
    ensures
        instr_post(
            *instr,
            loop_level,
            *ret,
            tenv(old(env)),
            names,
            old(name_of)@,
            final(name_of)@,
            old(errors)@,
            final(errors)@,
            r,
        ),
        final(env)@ == old(env)@,
    decreases instr, 0nat,
{
    let ghost start = errs_view(errors@);
    let ghost env0 = tenv(env);
    let ghost nm0 = name_of@;
    let return_type = ret.0;
    match &instr.inner {
        Instr::If { cond, then_branch: tb, else_branch: eb } => {
            let cond = type_expr(cond, env, name_of, Ghost(names), false, errors);
            let ghost nm1 = name_of@;
            let then_branch = typecheck_instr(&**tb, loop_level, ret, env, name_of, Ghost(names), errors);
            let ghost nm2 = name_of@;
            proof {
                lemma_names_agree_extended(nm1, nm2, check_instr(**tb, loop_level as nat, *ret, env0, names, nm0.len()).1, names);
            }
            let else_branch = match &**eb {
                Some(b) => Some(typecheck_instr(b, loop_level, ret, env, name_of, Ghost(names), errors)),
                None => {
                    proof {
                        lemma_names_extended_refl(name_of@);
                    }
                    None
                },
            };
            proof {
                let (e1, n1) = check_instr(**tb, loop_level as nat, *ret, env0, names, nm0.len());
                let (e2, n2) = match &**eb {
                    Some(b) => check_instr(*b, loop_level as nat, *ret, env0, names, nm0.len() + n1.len()),
                    None => (seq![], seq![]),
                };
                lemma_names_extended_trans(nm0, nm2, name_of@, n1, n2);
            }
            check_branch_return_type(&then_branch, return_type, errors);
            match &else_branch {
                Some(b) => check_branch_return_type(b, return_type, errors),
                None => {},
            }
            assert(errs_view(errors@) =~= start + check_instr(*instr, loop_level as nat, *ret, env0, names, nm0.len()).0);
            TypedInstr {
                instr: PartialInstr::If {
                    cond,
                    then_branch: Box::new(then_branch),
                    else_branch: Box::new(else_branch),
                },
                span: instr.span.clone(),
                loop_level,
                expected_return_type: return_type,
            }
        },
        _ => unreached(),
    }
}

fn typecheck_while(
    instr: &WithSpan<Instr>,
    loop_level: usize,
    ret: &ReturnType,
    env: &mut TypeEnvironment,
    name_of: &mut Vec<String>,
    Ghost(names): Ghost<Seq<String>>,
    errors: &mut Vec<Error>,
) -> (r: PartiallyTypedInstr)
    requires
        instr.inner is While,
        instr_pre(*instr, loop_level, *ret, tenv(old(env)), names, old(name_of)@),
    ensures
        instr_post(
            *instr,
            loop_level,
            *ret,
            tenv(old(env)),
            names,
            old(name_of)@,
            final(name_of)@,
            old(errors)@,
            final(errors)@,
            r,
        ),
        final(env)@ == old(env)@,
    decreases instr, 0nat,
{
    let ghost start = errs_view(errors@);
    let ghost env0 = tenv(env);
    let ghost nm0 = name_of@;
    let return_type = ret.0;
    match &instr.inner {
        Instr::While { cond, body } => {
            let cond = type_expr(cond, env, name_of, Ghost(names), false, errors);
            let body = typecheck_instr(&**body, loop_level + 1, ret, env, name_of, Ghost(names), errors);
            if cond.ty.is_void() {
                report_error(errors, Error::new(ErrorKind::VoidExpression { span: cond.span.clone() }));
            }
            check_branch_return_type(&body, return_type, errors);
            assert(errs_view(errors@) =~= start + check_instr(*instr, loop_level as nat, *ret, env0, names, nm0.len()).0);
            TypedInstr {
                instr: PartialInstr::While { cond, body: Box::new(body) },
                span: instr.span.clone(),
                loop_level,
                expected_return_type: return_type,
            }
        },
        _ => unreached(),
    }
}

/// Checks a `for` loop without a declaration: its condition, its increments, its
/// body one loop level deeper, then that the condition is not `void`.
#[verifier::spinoff_prover]
#[verifier::rlimit(40)]
fn typecheck_for_loop(
    cond: &Option<WithSpan<Expr>>,
    incr: &Vec<WithSpan<Expr>>,
    body: &Box<WithSpan<Instr>>,
    span: &Span,
    loop_level: usize,
    ret: &ReturnType,
    env: &mut TypeEnvironment,
    name_of: &mut Vec<String>,
    Ghost(names): Ghost<Seq<String>>,
    errors: &mut Vec<Error>,
) -> (r: PartiallyTypedInstr)
    requires
        crate::ast::opt_expr_wf(*cond, names.len() as nat),
        crate::ast::opt_expr_small(*cond),
        crate::ast::exprs_wf(incr@, names.len() as nat),
        forall|k: int| 0 <= k < incr@.len() ==> #[trigger] expr_small(incr@[k]),
        instr_pre(**body, (loop_level + 1) as usize, *ret, tenv(old(env)), names, old(name_of)@),
        loop_level < usize::MAX,
    ensures
        ({
            let (c, v) = check_cond(*cond, tenv(old(env)), names);
            let inc = check_exprs(incr@, tenv(old(env)), names);
            let (e1, n1) = check_instr(
                **body,
                (loop_level + 1) as nat,
                *ret,
                tenv(old(env)),
                names,
                old(name_of)@.len() as nat,
            );
            &&& errs_view(final(errors)@) == errs_view(old(errors)@) + (c + inc + e1 + v)
            &&& names_extended(old(name_of)@, final(name_of)@, n1)
            &&& r.span == *span
            &&& r.loop_level == loop_level
            &&& r.expected_return_type == ret.0
            &&& (c + inc + e1 + v).len() == 0 ==> pti_full(r)
        }),
        final(env)@ == old(env)@,
        for_shape(
            *cond,
            *incr,
            *body,
            loop_level as nat,
            *ret,
            tenv(old(env)),
            names,
            old(name_of)@.len() as nat,
            r.instr,
        ),
    decreases body, 2nat,
{
    let ghost start = errs_view(errors@);
    let ghost env0 = tenv(env);
    let return_type = ret.0;
    let cond_t = match cond {
        Some(c) => Some(type_expr(c, env, name_of, Ghost(names), false, errors)),
        None => None,
    };
    let ghost after_cond = errs_view(errors@);
    proof {
        lemma_exprs_wf(incr@, names.len() as nat);
    }
    let mut incr_t: Vec<PartiallyTypedExpr> = Vec::new();
    let mut k: usize = 0;
    while k < incr.len()
        invariant
            0 <= k <= incr@.len(),
            incr_t@.len() == k,
            errs_view(errors@) == after_cond + check_exprs(incr@.take(k as int), env0, names),
            check_exprs(incr@.take(k as int), env0, names).len() == 0 ==> forall|m: int|
                0 <= m < k ==> #[trigger] pte_full(incr_t@[m]),
            exprs_out(incr@.take(k as int), env0, names, incr_t@),
            env0 == tenv(env),
            env_ok(env0),
            names_agree(name_of@, names),
            forall|m: int| 0 <= m < incr@.len() ==> #[trigger] expr_wf(incr@[m].inner, names.len() as nat),
            forall|m: int| 0 <= m < incr@.len() ==> #[trigger] expr_small(incr@[m]),
        decreases incr@.len() - k,
    {
        let typed = type_expr(&incr[k], env, name_of, Ghost(names), false, errors);
        proof {
            let next = incr@.take(k + 1);
            assert(next.drop_last() =~= incr@.take(k as int));
            assert(errs_view(errors@) =~= after_cond + check_exprs(next, env0, names));
        }
        let ghost before_incr = incr_t@;
        incr_t.push(typed);
        proof {
            assert(incr_t@.drop_last() =~= before_incr);
        }
        k = k + 1;
    }
    assert(incr@.take(incr@.len() as int) =~= incr@);
    proof {
        lemma_ptes_full(incr_t@);
    }
    let body_t = typecheck_instr(&**body, loop_level + 1, ret, env, name_of, Ghost(names), errors);
    match &cond_t {
        Some(c) => {
            if c.ty.is_void() {
                report_error(errors, Error::new(ErrorKind::VoidExpression { span: c.span.clone() }));
            }
        },
        None => {},
    }
    check_branch_return_type(&body_t, return_type, errors);
    proof {
        let (c, v) = check_cond(*cond, env0, names);
        let inc = check_exprs(incr@, env0, names);
        let (e1, n1) = check_instr(**body, (loop_level + 1) as nat, *ret, env0, names, old(name_of)@.len() as nat);
        assert(errs_view(errors@) =~= start + (c + inc + e1 + v));
    }
    TypedInstr {
        instr: PartialInstr::For { loop_var: None, cond: cond_t, incr: incr_t, body: Box::new(body_t) },
        span: span.clone(),
        loop_level,
        expected_return_type: return_type,
    }
}

fn typecheck_for(
    instr: &WithSpan<Instr>,
    loop_level: usize,
    ret: &ReturnType,
    env: &mut TypeEnvironment,
    name_of: &mut Vec<String>,
    Ghost(names): Ghost<Seq<String>>,
    errors: &mut Vec<Error>,
) -> (r: PartiallyTypedInstr)
    requires
        instr.inner matches Instr::For { loop_var: None, .. },
        instr_pre(*instr, loop_level, *ret, tenv(old(env)), names, old(name_of)@),
    ensures
        instr_post(
            *instr,
            loop_level,
            *ret,
            tenv(old(env)),
            names,
            old(name_of)@,
            final(name_of)@,
            old(errors)@,
            final(errors)@,
            r,
        ),
        final(env)@ == old(env)@,
    decreases instr, 0nat,
{
    let ghost start = errs_view(errors@);
    let ghost env0 = tenv(env);
    let ghost raw0 = env@;
    let ghost nm0 = name_of@;
    match &instr.inner {
        Instr::For { loop_var: None, cond, incr, body } => {
            let r = typecheck_for_loop(cond, incr, body, &instr.span, loop_level, ret, env, name_of, Ghost(names), errors);
            assert(errs_view(errors@) =~= start + check_instr(*instr, loop_level as nat, *ret, env0, names, nm0.len()).0);
            r
        },
        _ => unreached(),
    }
}

/// Checks a `for` loop with a declaration, as the block of the declaration then the
/// loop without it.
#[verifier::rlimit(50)]
fn typecheck_for_decl(
    instr: &WithSpan<Instr>,
    loop_level: usize,
    ret: &ReturnType,
    env: &mut TypeEnvironment,
    name_of: &mut Vec<String>,
    Ghost(names): Ghost<Seq<String>>,
    errors: &mut Vec<Error>,
) -> (r: PartiallyTypedInstr)
    requires
        instr.inner matches Instr::For { loop_var: Some(_), .. },
        instr_pre(*instr, loop_level, *ret, tenv(old(env)), names, old(name_of)@),
    ensures
        instr_post(
            *instr,
            loop_level,
            *ret,
            tenv(old(env)),
            names,
            old(name_of)@,
            final(name_of)@,
            old(errors)@,
            final(errors)@,
            r,
        ),
        final(env)@ == old(env)@,
    decreases instr, 0nat,
{
    let ghost start = errs_view(errors@);
    let ghost env0 = tenv(env);
    let ghost raw0 = env@;
    let ghost nm0 = name_of@;
    match &instr.inner {
        Instr::For { loop_var: Some(decl), cond, incr, body } => {
            env_open(env);
            proof {
                lemma_env_inv_push(env0);
            }
            let mut typed_block: Vec<PartialDeclOrInstr> = Vec::new();
            typecheck_var_decl(
                &decl.inner.ty,
                &decl.inner.name,
                &decl.inner.value,
                &decl.span,
                loop_level,
                ret,
                env,
                name_of,
                Ghost(names),
                errors,
                &mut typed_block,
            );
            let ghost after_decl = errs_view(errors@);
            let for_t = typecheck_for_loop(cond, incr, body, &instr.span, loop_level, ret, env, name_of, Ghost(names), errors);
            let ghost n_before = typed_block@.len();
            typed_block.push(PartialDeclOrInstr::Instr(for_t));
            env_close(env);
            assert(env@ =~= raw0);
            proof {
                let (d, env1) = check_var_decl(decl.inner.ty, decl.inner.name, decl.inner.value, decl.span, env0.push(Seq::empty()), names);
                let (c, v) = check_cond(*cond, env1, names);
                let inc = check_exprs(incr@, env1, names);
                let (e1, n1) = check_instr(**body, (loop_level + 1) as nat, *ret, env1, names, nm0.len());
                assert(errs_view(errors@) =~= start + (d + c + inc + e1 + v));
                if (d + c + inc + e1 + v).len() == 0 {
                    crate::typed::lemma_pitems_full(typed_block@);
                }
            }
            TypedInstr {
                instr: PartialInstr::Block(WithSpan { inner: typed_block, span: instr.span.clone() }),
                span: instr.span.clone(),
                loop_level,
                expected_return_type: ret.0,
            }
        },
        _ => unreached(),
    }
}

/// Checks a block in a new innermost frame; the environment is left as it was.
fn typecheck_block(
    block: &WithSpan<Vec<DeclOrInstr>>,
    loop_level: usize,
    ret: &ReturnType,
    env: &mut TypeEnvironment,
    name_of: &mut Vec<String>,
    Ghost(names): Ghost<Seq<String>>,
    errors: &mut Vec<Error>,
) -> (r: PartiallyTypedInstr)
    requires
        crate::ast::items_wf(block.inner@, names.len() as nat),
        loop_level + crate::ast::items_height(block.inner@) <= type_bound(),
        ty_ok(ret.0),
        env_inv(tenv(old(env))),
        names_agree(old(name_of)@, names),
    ensures
        ({
            let (errs, added, _) = check_items(
                block.inner@,
                loop_level as nat,
                *ret,
                tenv(old(env)).push(Seq::empty()),
                names,
                old(name_of)@.len() as nat,
            );
            &&& errs_view(final(errors)@) == errs_view(old(errors)@) + errs
            &&& names_extended(old(name_of)@, final(name_of)@, added)
            &&& r.span == block.span
            &&& r.loop_level == loop_level
            &&& r.expected_return_type == ret.0
            &&& errs.len() == 0 ==> pti_full(r)
        }),
        final(env)@ == old(env)@,
        r.instr matches PartialInstr::Block(b) && b.span == block.span && items_out(
            block.inner@,
            loop_level as nat,
            *ret,
            tenv(old(env)).push(Seq::empty()),
            names,
            old(name_of)@.len() as nat,
            b.inner@,
        ),
    decreases block, 0nat,
{
    let ghost raw0 = env@;
    let ghost env0 = tenv(env);
    env_open(env);
    proof {
        lemma_env_inv_push(env0);
    }
    let mut typed_block: Vec<PartialDeclOrInstr> = Vec::new();
    typecheck_items(&block.inner, loop_level, ret, env, name_of, Ghost(names), errors, &mut typed_block);
    assert(typed_block@.skip(0) =~= typed_block@);
    env_close(env);
    assert(env@ =~= raw0);
    proof {
        crate::typed::lemma_pitems_full(typed_block@);
    }
    TypedInstr {
        instr: PartialInstr::Block(WithSpan { inner: typed_block, span: block.span.clone() }),
        span: block.span.clone(),
        loop_level,
        expected_return_type: ret.0,
    }
}

/// Checks the items of a block in turn, in the current innermost frame, and
/// appends the checked items to `out`.
#[verifier::loop_isolation(false)]
#[verifier::spinoff_prover]
#[verifier::rlimit(40)]
fn typecheck_items(
    items: &Vec<DeclOrInstr>,
    loop_level: usize,
    ret: &ReturnType,
    env: &mut TypeEnvironment,
    name_of: &mut Vec<String>,
    Ghost(names): Ghost<Seq<String>>,
    errors: &mut Vec<Error>,
    out: &mut Vec<PartialDeclOrInstr>,
)
    requires
        crate::ast::items_wf(items@, names.len() as nat),
        loop_level + crate::ast::items_height(items@) <= type_bound(),
        ty_ok(ret.0),
        env_inv(tenv(old(env))),
        tenv(old(env)).len() >= 2,
        names_agree(old(name_of)@, names),
    ensures
        ({
            let (errs, added, env2) = check_items(
                items@,
                loop_level as nat,
                *ret,
                tenv(old(env)),
                names,
                old(name_of)@.len() as nat,
            );
            &&& errs_view(final(errors)@) == errs_view(old(errors)@) + errs
            &&& names_extended(old(name_of)@, final(name_of)@, added)
            &&& tenv(final(env)) == env2
            &&& final(env)@.len() == old(env)@.len()
            &&& final(env)@.drop_last() == old(env)@.drop_last()
            &&& final(out)@.len() >= old(out)@.len()
            &&& final(out)@.subrange(0, old(out)@.len() as int) == old(out)@
            &&& errs.len() == 0 ==> forall|k: int|
                old(out)@.len() <= k < final(out)@.len() ==> #[trigger] pitem_full(final(out)@[k])
        }),
        env_inv(tenv(final(env))),
        items_out(
            items@,
            loop_level as nat,
            *ret,
            tenv(old(env)),
            names,
            old(name_of)@.len() as nat,
            final(out)@.skip(old(out)@.len() as int),
        ),
    decreases items, 0nat,
{
    let ghost start = errs_view(errors@);
    let ghost env0 = tenv(env);
    let ghost raw0 = env@;
    let ghost nm0 = name_of@;
    let ghost out0 = out@;
    proof {
        crate::ast::lemma_items_wf(items@, names.len() as nat);
        crate::ast::lemma_items_height(items@);
        lemma_names_extended_refl(name_of@);
    }
    let mut k: usize = 0;
    while k < items.len()
        invariant
            0 <= k <= items@.len(),
            ({
                let (errs, added, env2) = check_items(
                    items@.take(k as int),
                    loop_level as nat,
                    *ret,
                    env0,
                    names,
                    nm0.len() as nat,
                );
                &&& errs_view(errors@) == start + errs
                &&& names_extended(nm0, name_of@, added)
                &&& tenv(env) == env2
                &&& errs.len() == 0 ==> forall|m: int|
                    out0.len() <= m < out@.len() ==> #[trigger] pitem_full(out@[m])
            }),
            env@.len() == raw0.len(),
            env@.drop_last() == raw0.drop_last(),
            env_inv(tenv(env)),
            names_agree(name_of@, names),
            out@.len() >= out0.len(),
            out@.subrange(0, out0.len() as int) == out0,
            items_out(
                items@.take(k as int),
                loop_level as nat,
                *ret,
                env0,
                names,
                nm0.len() as nat,
                out@.skip(out0.len() as int),
            ),
        decreases items@.len() - k,
    {
        let ghost prefix = items@.take(k as int);
        let ghost next = items@.take(k + 1);
        let ghost (e0, n0, env_k) = check_items(prefix, loop_level as nat, *ret, env0, names, nm0.len() as nat);
        let ghost nm_k = name_of@;
        let ghost out_k = out@;
        assert(next.drop_last() =~= prefix);
        assert(next.last() == items@[k as int]);
        assert(crate::ast::item_wf(items@[k as int], names.len() as nat));
        proof {
            assert(decreases_to!(items => items@));
            assert(decreases_to!(items@ => items@[k as int]));
        }
        typecheck_item(&items[k], loop_level, ret, env, name_of, Ghost(names), errors, out);
        proof {
            let (e1, n1, env1) = check_item(items@[k as int], loop_level as nat, *ret, env_k, names, nm_k.len() as nat);
            lemma_item_out_count(items@[k as int], loop_level as nat, *ret, env_k, names, nm_k.len() as nat, out@.skip(out_k.len() as int));
            let all = out@.skip(out0.len() as int);
            let cut = all.len() - item_count(items@[k as int]);
            assert(all.take(cut) =~= out_k.skip(out0.len() as int));
            assert(all.skip(cut) =~= out@.skip(out_k.len() as int));
            assert(nm_k.len() == nm0.len() + n0.len());
            assert(errs_view(errors@) =~= start + (e0 + e1));
            lemma_names_extended_trans(nm0, nm_k, name_of@, n0, n1);
            assert(check_items(next, loop_level as nat, *ret, env0, names, nm0.len() as nat) == (e0 + e1, n0 + n1, env1));
            if (e0 + e1).len() == 0 {
                assert forall|m: int| out0.len() <= m < out@.len() implies #[trigger] pitem_full(out@[m]) by {
                    if m < out_k.len() {
                        assert(out@[m] == out_k[m]);
                    }
                }
            }
        }
        assert(out@.subrange(0, out0.len() as int) =~= out0);
        k = k + 1;
    }
    assert(items@.take(items@.len() as int) =~= items@);
}

/// The checked items of one item of a block are as many as [`item_count`] says.
proof fn lemma_item_out_count(
    d: DeclOrInstr,
    loop_level: nat,
    ret: ReturnType,
    env: EnvView,
    names: Seq<String>,
    count: nat,
    outs: Seq<PartialDeclOrInstr>,
)
    requires
        item_out(d, loop_level, ret, env, names, count, outs),
    ensures
        outs.len() == item_count(d),
{
}

/// Checks one item of a block (see [`check_item`]) and appends the checked items to `out`.
fn typecheck_item(
    item: &DeclOrInstr,
    loop_level: usize,
    ret: &ReturnType,
    env: &mut TypeEnvironment,
    name_of: &mut Vec<String>,
    Ghost(names): Ghost<Seq<String>>,
    errors: &mut Vec<Error>,
    out: &mut Vec<PartialDeclOrInstr>,
)
    requires
        crate::ast::item_wf(*item, names.len() as nat),
        item matches DeclOrInstr::Instr(i) ==> loop_level + instr_height(i.inner) <= type_bound(),
        ty_ok(ret.0),
        env_inv(tenv(old(env))),
        tenv(old(env)).len() >= 2,
        names_agree(old(name_of)@, names),
    ensures
        ({
            let (errs, added, env2) = check_item(
                *item,
                loop_level as nat,
                *ret,
                tenv(old(env)),
                names,
                old(name_of)@.len() as nat,
            );
            &&& errs_view(final(errors)@) == errs_view(old(errors)@) + errs
            &&& names_extended(old(name_of)@, final(name_of)@, added)
            &&& tenv(final(env)) == env2
            &&& final(env)@.len() == old(env)@.len()
            &&& final(env)@.drop_last() == old(env)@.drop_last()
            &&& final(out)@.len() >= old(out)@.len()
            &&& final(out)@.subrange(0, old(out)@.len() as int) == old(out)@
            &&& errs.len() == 0 ==> forall|k: int|
                old(out)@.len() <= k < final(out)@.len() ==> #[trigger] pitem_full(final(out)@[k])
        }),
        env_inv(tenv(final(env))),
        names_agree(final(name_of)@, names),
        item_out(
            *item,
            loop_level as nat,
            *ret,
            tenv(old(env)),
            names,
            old(name_of)@.len() as nat,
            final(out)@.skip(old(out)@.len() as int),
        ),
    decreases item, 0nat,
{
    let ghost start = errs_view(errors@);
    let ghost env_k = tenv(env);
    let ghost nm_k = name_of@;
    let ghost out0 = out@;
    proof {
        lemma_names_extended_refl(name_of@);
    }
    match item {
        DeclOrInstr::Fun(fun_decl) => {
            match assert_var_is_not_reused(
                &fun_decl.inner.name.with_span(fun_decl.span.clone()),
                env,
                name_of,
                Ghost(names),
            ) {
                Err(error_value) => report_error(errors, error_value),
                Ok(_) => {},
            }
            let f = typecheck_fun(fun_decl, env, name_of, Ghost(names), false, errors);
            out.push(PartialDeclOrInstr::Fun(f));
            assert(out@.skip(out0.len() as int)[0] == out@[out0.len() as int]);
            proof {
                let e1 = reuse_errors(fun_decl.inner.name.inner, fun_decl.span, env_k, names);
                let (e2, n2, env2) = check_fun(*fun_decl, env_k, names, nm_k.len() as nat, false);
                assert(errs_view(errors@) =~= start + (e1 + e2));
                lemma_names_agree_extended(nm_k, name_of@, n2, names);
            }
        },
        DeclOrInstr::Var(var_decl) => {
            typecheck_var_decl(
                &var_decl.inner.ty,
                &var_decl.inner.name,
                &var_decl.inner.value,
                &var_decl.span,
                loop_level,
                ret,
                env,
                name_of,
                Ghost(names),
                errors,
                out,
            );
        },
        DeclOrInstr::Instr(instr) => {
            let t = typecheck_instr(instr, loop_level, ret, env, name_of, Ghost(names), errors);
            out.push(PartialDeclOrInstr::Instr(t));
            assert(out@.skip(out0.len() as int)[0] == out@[out0.len() as int]);
            proof {
                let (e1, n1) = check_instr(*instr, loop_level as nat, *ret, env_k, names, nm_k.len() as nat);
                lemma_names_agree_extended(nm_k, name_of@, n1, names);
            }
        },
    }
    assert(out@.subrange(0, out0.len() as int) =~= out0);
}

/// The parameter types of a function, as bound.
fn param_binding(params: &Vec<(WithSpan<Type>, WithSpan<Ident>)>) -> (r: Vec<WithOptionSpan<PartialType>>)
    ensures
        r@ == param_types(params@),
{
    let mut r: Vec<WithOptionSpan<PartialType>> = Vec::new();
    let mut k: usize = 0;
    while k < params.len()
        invariant
            0 <= k <= params@.len(),
            r@ == param_types(params@.take(k as int)),
        decreases params@.len() - k,
    {
        r.push((params[k].0.inner.from_basic(), Some(params[k].0.span.clone())));
        k = k + 1;
        assert(r@ =~= param_types(params@.take(k as int)));
    }
    assert(params@.take(params@.len() as int) =~= params@);
    r
}

/// The parameters with their types seen as partial ones.
/// The parameter with its type seen as a partial one.
pub open spec fn partial_param(
    p: (WithSpan<PartialType>, WithSpan<Ident>),
    d: (WithSpan<Type>, WithSpan<Ident>),
) -> bool {
    p.0.inner == d.0.inner.spec_from_basic() && p.0.span == d.0.span && p.1 == d.1
}

/// The checked function has the type, parameters, spans and depth of its
/// declaration, with types seen as partial ones, and the name `name`.
pub open spec fn partial_signature(p: WithSpan<PartialFunDecl>, d: WithSpan<FunDecl>, name: Ident) -> bool {
    &&& p.span == d.span
    &&& p.inner.ty.inner == d.inner.ty.inner.spec_from_basic()
    &&& p.inner.ty.span == d.inner.ty.span
    &&& p.inner.name == WithSpan { inner: name, span: d.inner.name.span }
    &&& p.inner.params@.len() == d.inner.params@.len()
    &&& (forall|k: int|
        0 <= k < d.inner.params@.len() ==> #[trigger] partial_param(p.inner.params@[k], d.inner.params@[k]))
    &&& p.inner.code.span == d.inner.code.span
    &&& p.inner.depth == d.inner.depth
}

/// The checked function has the name, type, parameters, spans and depth of its
/// declaration.
pub open spec fn keeps_signature(f: WithSpan<FullFunDecl>, d: WithSpan<FunDecl>) -> bool {
    &&& f.span == d.span
    &&& f.inner.ty == d.inner.ty
    &&& f.inner.name == d.inner.name
    &&& f.inner.params@ == d.inner.params@
    &&& f.inner.code.span == d.inner.code.span
    &&& f.inner.depth == d.inner.depth
}

/// A partially checked function with the signature of its declaration keeps it
/// once its types are known.
proof fn lemma_keeps_signature(p: WithSpan<PartialFunDecl>, f: WithSpan<FullFunDecl>, d: WithSpan<FunDecl>)
    requires
        partial_signature(p, d, d.inner.name.inner),
        f.span == p.span,
        crate::typed::pfun_as(p.inner, f.inner),
    ensures
        keeps_signature(f, d),
{
    lemma_basic_roundtrip(d.inner.ty.inner);
    assert forall|k: int| 0 <= k < d.inner.params@.len() implies f.inner.params@[k] == d.inner.params@[k] by {
        assert(crate::typed::params_as(p.inner.params@[k], f.inner.params@[k]));
        assert(partial_param(p.inner.params@[k], d.inner.params@[k]));
        lemma_basic_roundtrip(d.inner.params@[k].0.inner);
    }
    assert(f.inner.params@ =~= d.inner.params@);
}

fn partial_params(params: &Vec<(WithSpan<Type>, WithSpan<Ident>)>) -> (r: Vec<(WithSpan<PartialType>, WithSpan<Ident>)>)
    ensures
        r@.len() == params@.len(),
        forall|k: int| 0 <= k < r@.len() ==> (#[trigger] r@[k]).0.inner.spec_to_basic() is Some,
        forall|k: int| 0 <= k < r@.len() ==> #[trigger] partial_param(r@[k], params@[k]),
{
    let mut r: Vec<(WithSpan<PartialType>, WithSpan<Ident>)> = Vec::new();
    let mut k: usize = 0;
    while k < params.len()
        invariant
            0 <= k <= params@.len(),
            r@.len() == k,
            forall|m: int| 0 <= m < r@.len() ==> (#[trigger] r@[m]).0.inner.spec_to_basic() is Some,
            forall|m: int| 0 <= m < r@.len() ==> #[trigger] partial_param(r@[m], params@[m]),
        decreases params@.len() - k,
    {
        r.push((partial_ty(&params[k].0), params[k].1.copied()));
        k = k + 1;
    }
    r
}

/// Checks a function declaration: binds it in the innermost frame (under a fresh
/// name if nested), then checks its body, with its parameters declared in a new
/// frame. The function stays bound afterwards.
fn typecheck_fun(
    decl: &WithSpan<FunDecl>,
    env: &mut TypeEnvironment,
    name_of: &mut Vec<String>,
    Ghost(names): Ghost<Seq<String>>,
    toplevel: bool,
    errors: &mut Vec<Error>,
) -> (r: WithSpan<PartialFunDecl>)
    requires
        crate::ast::fun_wf(decl.inner, names.len() as nat),
        env_inv(tenv(old(env))),
        names_agree(old(name_of)@, names),
    ensures
        ({
            let (errs, added, env1) = check_fun(*decl, tenv(old(env)), names, old(name_of)@.len() as nat, toplevel);
            &&& errs_view(final(errors)@) == errs_view(old(errors)@) + errs
            &&& names_extended(old(name_of)@, final(name_of)@, added)
            &&& tenv(final(env)) == env1
            &&& errs.len() == 0 ==> pfun_full(r.inner)
        }),
        final(env)@.len() == old(env)@.len(),
        final(env)@.drop_last() == old(env)@.drop_last(),
        env_inv(tenv(final(env))),
        r.span == decl.span,
        partial_signature(
            r,
            *decl,
            spec_fun_new_name(
                decl.inner.name.inner,
                Some(decl.span),
                toplevel,
                names,
                old(name_of)@.len() as nat,
            ).0,
        ),
        fun_out(*decl, tenv(old(env)), names, old(name_of)@.len() as nat, toplevel, r),
    decreases decl, 0nat,
{
    let ghost start = errs_view(errors@);
    let ghost env0 = tenv(env);
    let ghost nm0 = name_of@;
    let ret: ReturnType = (decl.inner.ty.inner.from_basic(), Some(decl.inner.ty.span.clone()));
    let args = param_binding(&decl.inner.params);
    let new_name = insert_new_fun(
        env,
        decl.inner.name.inner,
        ((ret.0, clone_opt_span(&ret.1)), args),
        Some(decl.span.clone()),
        toplevel,
        name_of,
        Ghost(names),
    );
    let ghost raw1 = env@;
    let ghost env1 = tenv(env);
    let ghost nm1 = name_of@;
    proof {
        let (n, added) = spec_fun_new_name(decl.inner.name.inner, Some(decl.span), toplevel, names, nm0.len() as nat);
        lemma_names_agree_extended(nm0, nm1, added, names);
        assert forall|m: int| 0 <= m < param_types(decl.inner.params@).len() implies #[trigger] ty_ok(
            param_types(decl.inner.params@)[m].0,
        ) by {
            assert(crate::ast::ty_wf(decl.inner.params@[m].0));
        }
        assert(binding_ok(BindingView::Fun(ret, param_types(decl.inner.params@))));
        lemma_env_inv_insert(env0, decl.inner.name.inner, (BindingView::Fun(ret, param_types(decl.inner.params@)), Some(decl.span), new_name));
    }
    env_open(env);
    proof {
        lemma_env_inv_push(env1);
    }
    let ghost env2 = tenv(env);
    let ghost after_insert = errs_view(errors@);
    let mut scratch: Vec<PartialDeclOrInstr> = Vec::new();
    let mut k: usize = 0;
    while k < decl.inner.params.len()
        invariant
            0 <= k <= decl.inner.params@.len(),
            ({
                let (errs, env3) = check_params(decl.inner.params@.take(k as int), env2, names);
                &&& errs_view(errors@) == after_insert + errs
                &&& tenv(env) == env3
            }),
            env@.len() == raw1.len() + 1,
            raw1.len() >= 1,
            env@.drop_last() == raw1,
            env_inv(tenv(env)),
            names_agree(name_of@, names),
            name_of@ == nm1,
            crate::ast::fun_wf(decl.inner, names.len() as nat),
            ty_ok(ret.0),
        decreases decl.inner.params@.len() - k,
    {
        let ghost prefix = decl.inner.params@.take(k as int);
        let ghost next = decl.inner.params@.take(k + 1);
        let ghost errs_k = errs_view(errors@);
        let param = &decl.inner.params[k];
        proof {
            crate::ast::lemma_fun_param_wf(decl.inner, names.len() as nat, k as int);
        }
        let span = param.0.span.sup(&param.1.span);
        typecheck_var_decl(&param.0, &param.1, &None, &span, 0, &ret, env, name_of, Ghost(names), errors, &mut scratch);
        proof {
            assert(next.drop_last() =~= prefix);
            assert(next.last() == decl.inner.params@[k as int]);
            let (e0, env_k) = check_params(prefix, env2, names);
            let (e1, env_k1) = check_var_decl(param.0, param.1, None, span, env_k, names);
            assert(errs_view(errors@) =~= after_insert + (e0 + e1));
        }
        k = k + 1;
    }
    assert(decl.inner.params@.take(decl.inner.params@.len() as int) =~= decl.inner.params@);
    let ghost after_params = errs_view(errors@);
    let mut code: Vec<PartialDeclOrInstr> = Vec::new();
    typecheck_items(&decl.inner.code.inner, 0, &ret, env, name_of, Ghost(names), errors, &mut code);
    assert(code@.skip(0) =~= code@);
    env_close(env);
    assert(env@ =~= raw1);
    proof {
        let (n, n1) = spec_fun_new_name(decl.inner.name.inner, Some(decl.span), toplevel, names, nm0.len() as nat);
        let (e1, env3) = check_params(decl.inner.params@, env2, names);
        let (e2, n2, _) = check_items(decl.inner.code.inner@, 0, ret, env3, names, nm0.len() + n1.len());
        assert(errs_view(errors@) =~= start + (e1 + e2));
        lemma_names_extended_trans(nm0, nm1, name_of@, n1, n2);
        crate::typed::lemma_pitems_full(code@);
    }
    WithSpan {
        inner: PartialFunDecl {
            ty: partial_ty(&decl.inner.ty),
            name: WithSpan { inner: new_name, span: decl.inner.name.span.clone() },
            params: partial_params(&decl.inner.params),
            code: WithSpan { inner: code, span: decl.inner.code.span.clone() },
            depth: decl.inner.depth,
        },
        span: decl.span.clone(),
    }
}


/// Whether the declaration is that of `main`.
pub open spec fn is_main(d: WithSpan<FunDecl>, names: Seq<String>) -> bool {
    names[d.inner.name.inner as int]@ == "main"@
}

/// The position of the first declaration of `main`, if any.
pub open spec fn first_main(s: Seq<WithSpan<FunDecl>>, names: Seq<String>) -> Option<int>
    decreases s.len(),
{
    if s.len() == 0 {
        None
    } else {
        match first_main(s.drop_last(), names) {
            Some(k) => Some(k),
            None => if is_main(s.last(), names) {
                Some(s.len() - 1)
            } else {
                None
            },
        }
    }
}

/// `main` must be of type `int()`.
pub open spec fn main_is_wrong(d: WithSpan<FunDecl>) -> bool {
    d.inner.ty.inner != Type::int_type() || d.inner.params@.len() != 0
}

/// How many errors the check of `main` reports: one if it is missing or has the
/// wrong type, none otherwise.
pub open spec fn main_error_count(decls: Seq<WithSpan<FunDecl>>, names: Seq<String>) -> nat {
    match first_main(decls, names) {
        None => 1,
        Some(k) => if main_is_wrong(decls[k]) {
            1
        } else {
            0
        },
    }
}

/// The error reported by the check of `main`.
pub open spec fn main_error_is(e: ErrorView, decls: Seq<WithSpan<FunDecl>>, names: Seq<String>) -> bool {
    match first_main(decls, names) {
        None => e == plain(ErrorKind::NoMainFunction),
        Some(k) => {
            let d = decls[k];
            &&& e.1 is None
            &&& e.2.len() == 0
            &&& match e.0 {
                ErrorKind::IncorrectMainFunctionType { ty, params, span } => {
                    &&& ty == d.inner.ty.inner
                    &&& params@ == param_types(d.inner.params@).map_values(
                        |p: WithOptionSpan<PartialType>| p.0,
                    )
                    &&& span == d.span
                },
                _ => false,
            }
        },
    }
}

/// The builtin functions, bound in the outermost frame: `malloc` (name 0) takes an
/// `int` and returns a `void*`, `putchar` (name 1) takes an `int` and returns an `int`.
pub open spec fn builtin_env() -> EnvView {
    seq![
        seq![
            (
                0,
                (
                    BindingView::Fun(
                        (PartialType::void_type().spec_ptr(), None),
                        seq![(PartialType::int_type(), None)],
                    ),
                    None,
                    0,
                ),
            ),
            (
                1,
                (
                    BindingView::Fun(
                        (PartialType::int_type(), None),
                        seq![(PartialType::int_type(), None)],
                    ),
                    None,
                    1,
                ),
            ),
        ],
    ]
}

/// Checking the toplevel functions in turn: for each, an error if a function of
/// that name is already bound, then the errors of the function itself.
pub open spec fn check_toplevel(
    s: Seq<WithSpan<FunDecl>>,
    env: EnvView,
    names: Seq<String>,
    count: nat,
) -> (Seq<ErrorView>, Seq<Seq<char>>, EnvView)
    decreases s.len(),
{
    if s.len() == 0 {
        (seq![], seq![], env)
    } else {
        let (e0, n0, env0) = check_toplevel(s.drop_last(), env, names, count);
        let d = s.last();
        let dup = match spec_get_fun(env0, WithSpan { inner: d.inner.name.inner, span: d.span }, names) {
            Ok((_, _, first, _)) => seq![
                plain(
                    ErrorKind::FunctionDefinedTwice {
                        first_definition: first,
                        second_definition: d.span,
                        name: names[d.inner.name.inner as int],
                    },
                ),
            ],
            Err(_) => seq![],
        };
        let (e1, n1, env1) = check_fun(d, env0, names, count + n0.len(), true);
        (e0 + dup + e1, n0 + n1, env1)
    }
}

/// Checking never builds a `for` loop with a declaration: such a loop becomes a
/// block of its checked declaration followed by the loop without it.
pub proof fn lemma_no_for_with_declaration(
    i: WithSpan<Instr>,
    loop_level: nat,
    ret: ReturnType,
    env: EnvView,
    names: Seq<String>,
    count: nat,
    r: PartiallyTypedInstr,
)
    requires
        instr_out(i, loop_level, ret, env, names, count, r),
    ensures
        !(r.instr matches PartialInstr::For { loop_var: Some(_), .. }),
        i.inner matches Instr::For { loop_var: Some(_), .. } ==> r.instr is Block,
{
    assert(instr_shape(i, loop_level, ret, env, names, count, r.instr));
    match i.inner {
        Instr::For { loop_var: None, cond, incr, body } => {
            assert(for_shape(cond, incr, body, loop_level, ret, env, names, count, r.instr));
        },
        _ => {},
    }
}

/// A function keeps its name at the toplevel, and so does `main` anywhere; a
/// nested function takes the next name of the table, `fun_` then its name and
/// the line and column where it begins (see [`format_loc`]), and only that name
/// is added.
pub proof fn lemma_fun_names(name: Ident, span: Span, toplevel: bool, names: Seq<String>, count: nat)
    ensures
        (toplevel || names[name as int]@ == "main"@) ==> spec_fun_new_name(
            name,
            Some(span),
            toplevel,
            names,
            count,
        ) == (name, Seq::<Seq<char>>::empty()),
        !(toplevel || names[name as int]@ == "main"@) ==> spec_fun_new_name(
            name,
            Some(span),
            toplevel,
            names,
            count,
        ) == (count as Ident, seq!["fun_"@ + names[name as int]@ + loc_text(span.start)]),
{
    assert(Seq::<Seq<char>>::empty() =~= seq![]);
}

/// The environment in which the `k`-th toplevel function is checked, and how
/// many names the table has then.
pub open spec fn toplevel_state(decls: Seq<WithSpan<FunDecl>>, k: int, names: Seq<String>) -> (EnvView, nat) {
    let (_, added, env) = check_toplevel(decls.take(k), builtin_env(), names, names.len() as nat);
    (env, names.len() + added.len())
}

/// `f` is the function that checking the toplevel declaration `decl` builds (see
/// [`fun_out`]), with all its types known.
pub open spec fn checked_fun(
    decl: WithSpan<FunDecl>,
    env: EnvView,
    names: Seq<String>,
    count: nat,
    f: WithSpan<FullFunDecl>,
) -> bool {
    exists|p: WithSpan<PartialFunDecl>|
        #[trigger] fun_out(decl, env, names, count, true, p) && p.span == f.span
            && crate::typed::pfun_as(p.inner, f.inner)
}

/// Type checks a whole program. `name_of` is the table of names; nested functions
/// get fresh names, appended to it. The builtins `malloc` and `putchar` are the
/// names 0 and 1. Gives the checked program if no error was found, and otherwise
/// all the errors found, in order: first the one about `main`, if any (see
/// [`main_error_is`]), then those of [`check_toplevel`].
#[verifier::spinoff_prover]
#[verifier::rlimit(40)]
pub fn typecheck(file: File, name_of: &mut Vec<String>) -> (r: core::result::Result<TypedFile, Vec<Error>>)
    requires
        crate::ast::file_wf(file, old(name_of)@.len() as nat),
    ensures
        ({
            let names = old(name_of)@;
            let decls = file.fun_decls@;
            let (errs, added, _) = check_toplevel(decls, builtin_env(), names, names.len() as nat);
            let m = main_error_count(decls, names);
            &&& names_extended(names, final(name_of)@, added)
            &&& match r {
                Ok(f) => {
                    &&& m == 0
                    &&& errs.len() == 0
                    &&& f.fun_decls@.len() == decls.len()
                    &&& forall|k: int| 0 <= k < decls.len() ==> #[trigger] keeps_signature(f.fun_decls@[k], decls[k])
                    &&& forall|k: int|
                        0 <= k < decls.len() ==> #[trigger] checked_fun(
                            decls[k],
                            toplevel_state(decls, k, names).0,
                            names,
                            toplevel_state(decls, k, names).1,
                            f.fun_decls@[k],
                        )
                },
                Err(es) => {
                    &&& m + errs.len() > 0
                    &&& es@.len() == m + errs.len()
                    &&& errs_view(es@.skip(m as int)) == errs
                    &&& m == 1 ==> main_error_is(es@[0]@, decls, names)
                },
            }
        }),
{
    let ghost names = name_of@;
    let ghost decls = file.fun_decls@;
    let mut errors: Vec<Error> = Vec::new();
    let mut main_idx: Option<usize> = None;
    let mut k: usize = 0;
    while k < file.fun_decls.len()
        invariant
            0 <= k <= decls.len(),
            decls == file.fun_decls@,
            names == name_of@,
            crate::ast::file_wf(file, names.len() as nat),
            first_main(decls.take(k as int), names) == match main_idx {
                Some(i) => Some(i as int),
                None => None::<int>,
            },
            main_idx matches Some(i) ==> i < k,
        decreases decls.len() - k,
    {
        assert(decls.take(k + 1).drop_last() =~= decls.take(k as int));
        if main_idx.is_none() {
            assert(crate::ast::fun_wf(decls[k as int].inner, names.len() as nat));
            if name_of[file.fun_decls[k].inner.name.inner] == String::from_str("main") {
                main_idx = Some(k);
            }
        }
        k = k + 1;
    }
    assert(decls.take(decls.len() as int) =~= decls);
    let ghost mi = first_main(decls, names);
    match main_idx {
        Some(i) => {
            assert(mi == Some(i as int));
            let main_decl = &file.fun_decls[i];
            assert(*main_decl == decls[i as int]);
            let wrong = main_decl.inner.ty.inner != Type::int_type() || main_decl.inner.params.len() != 0;
            assert(wrong == main_is_wrong(decls[i as int]));
            if wrong {
                let mut params: Vec<PartialType> = Vec::new();
                let mut j: usize = 0;
                while j < main_decl.inner.params.len()
                    invariant
                        0 <= j <= main_decl.inner.params@.len(),
                        params@ == param_types(main_decl.inner.params@.take(j as int)).map_values(
                            |p: WithOptionSpan<PartialType>| p.0,
                        ),
                    decreases main_decl.inner.params@.len() - j,
                {
                    params.push(main_decl.inner.params[j].0.inner.from_basic());
                    j = j + 1;
                    assert(params@ =~= param_types(main_decl.inner.params@.take(j as int)).map_values(
                        |p: WithOptionSpan<PartialType>| p.0,
                    ));
                }
                assert(main_decl.inner.params@.take(main_decl.inner.params@.len() as int) =~= main_decl.inner.params@);
                report_error(
                    &mut errors,
                    Error::new(
                        ErrorKind::IncorrectMainFunctionType {
                            ty: main_decl.inner.ty.inner,
                            params,
                            span: main_decl.span.clone(),
                        },
                    ),
                );
                assert(errs_view(errors@).len() == 1);
            }
        },
        None => {
            assert(mi is None);
            report_error(&mut errors, Error::new(ErrorKind::NoMainFunction));
            assert(errs_view(errors@).len() == 1);
        },
    }
    let ghost m = main_error_count(decls, names);
    assert(errors@.len() == m);
    let mut env: TypeEnvironment = Environment::new();
    env_open(&mut env);
    let mut malloc_args: Vec<WithOptionSpan<PartialType>> = Vec::new();
    malloc_args.push((PartialType::int_type(), None));
    env_bind(
        &mut env,
        0,
        (Binding::Fun((PartialType::void_type().ptr(), None), malloc_args), None, 0),
    );
    let mut putchar_args: Vec<WithOptionSpan<PartialType>> = Vec::new();
    putchar_args.push((PartialType::int_type(), None));
    env_bind(&mut env, 1, (Binding::Fun((PartialType::int_type(), None), putchar_args), None, 1));
    assert(tenv(&env) =~~= builtin_env());
    let ghost env0 = tenv(&env);
    proof {
        assert(env_inv(env0)) by {
            assert forall|i: int, j: int| 0 <= i < env0.len() && 0 <= j < env0[i].len() implies #[trigger] binding_ok(
                env0[i][j].1.0,
            ) by {
                assert(i == 0);
                if j == 0 {
                    assert(binding_ok(env0[0][0].1.0));
                } else {
                    assert(binding_ok(env0[0][1].1.0));
                }
            }
        }
        lemma_names_extended_refl(name_of@);
    }
    let ghost start = errs_view(errors@);
    assert(m == 1 ==> main_error_is(start[0], decls, names));
    let mut fun_decls: Vec<WithSpan<PartialFunDecl>> = Vec::new();
    let mut k: usize = 0;
    while k < file.fun_decls.len()
        invariant
            0 <= k <= decls.len(),
            decls == file.fun_decls@,
            start.len() == m,
            m == main_error_count(decls, names),
            m == 1 ==> main_error_is(start[0], decls, names),
            env0 == builtin_env(),
            names == old(name_of)@,
            crate::ast::file_wf(file, names.len() as nat),
            ({
                let (errs, added, env2) = check_toplevel(decls.take(k as int), env0, names, names.len() as nat);
                &&& errs_view(errors@) == start + errs
                &&& names_extended(names, name_of@, added)
                &&& tenv(&env) == env2
                &&& errs.len() == 0 ==> forall|m: int| 0 <= m < k ==> #[trigger] pfun_full(fun_decls@[m].inner)
            }),
            fun_decls@.len() == k,
            forall|j: int| 0 <= j < k ==> #[trigger] partial_signature(fun_decls@[j], decls[j], decls[j].inner.name.inner),
            forall|j: int|
                0 <= j < k ==> #[trigger] fun_out(
                    decls[j],
                    toplevel_state(decls, j, names).0,
                    names,
                    toplevel_state(decls, j, names).1,
                    true,
                    fun_decls@[j],
                ),
            env_inv(tenv(&env)),
            names_agree(name_of@, names),
        decreases decls.len() - k,
    {
        let ghost prefix = decls.take(k as int);
        let ghost next = decls.take(k + 1);
        assert(next.drop_last() =~= prefix);
        let ghost (e0, n0, env_k) = check_toplevel(prefix, env0, names, names.len() as nat);
        let ghost nm_k = name_of@;
        let ghost fd_k = fun_decls@;
        let decl = &file.fun_decls[k];
        assert(crate::ast::fun_wf(decl.inner, names.len() as nat));
        match get_fun(&env, &decl.inner.name.with_span(decl.span.clone()), name_of) {
            Ok((_, first_definition, _)) => {
                report_error(
                    &mut errors,
                    Error::new(
                        ErrorKind::FunctionDefinedTwice {
                            first_definition: clone_opt_span(first_definition),
                            second_definition: decl.span.clone(),
                            name: clone_name(name_of, decl.inner.name.inner),
                        },
                    ),
                );
            },
            Err(_) => {},
        }
        let f = typecheck_fun(decl, &mut env, name_of, Ghost(names), true, &mut errors);
        fun_decls.push(f);
        proof {
            let d = decls[k as int];
            let dup = match spec_get_fun(env_k, WithSpan { inner: d.inner.name.inner, span: d.span }, names) {
                Ok((_, _, first, _)) => seq![
                    plain(
                        ErrorKind::FunctionDefinedTwice {
                            first_definition: first,
                            second_definition: d.span,
                            name: names[d.inner.name.inner as int],
                        },
                    ),
                ],
                Err(_) => seq![],
            };
            let (e1, n1, env1) = check_fun(d, env_k, names, nm_k.len() as nat, true);
            assert(errs_view(errors@) =~= start + (e0 + dup + e1));
            lemma_names_extended_trans(names, nm_k, name_of@, n0, n1);
            lemma_names_agree_extended(nm_k, name_of@, n1, names);
            if (e0 + dup + e1).len() == 0 {
                assert forall|m: int| 0 <= m < k + 1 implies #[trigger] pfun_full(fun_decls@[m].inner) by {
                    if m < k {
                        assert(fun_decls@[m] == fd_k[m]);
                    }
                }
            }
            assert forall|j: int| 0 <= j < k + 1 implies #[trigger] partial_signature(fun_decls@[j], decls[j], decls[j].inner.name.inner) by {
                if j < k {
                    assert(fun_decls@[j] == fd_k[j]);
                }
            }
            assert(toplevel_state(decls, k as int, names) == (env_k, nm_k.len() as nat));
            assert forall|j: int|
                0 <= j < k + 1 implies #[trigger] fun_out(
                    decls[j],
                    toplevel_state(decls, j, names).0,
                    names,
                    toplevel_state(decls, j, names).1,
                    true,
                    fun_decls@[j],
                ) by {
                if j < k {
                    assert(fun_decls@[j] == fd_k[j]);
                }
            }
        }
        k = k + 1;
    }
    assert(decls.take(decls.len() as int) =~= decls);
    if errors.len() == 0 {
        let partial = PartialFile { fun_decls };
        proof {
            crate::typed::lemma_pfuns_full(partial.fun_decls@);
        }
        let ghost pd = partial.fun_decls@;
        match partial.to_full() {
            Some(f) => {
                proof {
                    assert forall|k: int| 0 <= k < decls.len() implies #[trigger] keeps_signature(f.fun_decls@[k], decls[k]) by {
                        assert(partial_signature(pd[k], decls[k], decls[k].inner.name.inner));
                        lemma_keeps_signature(pd[k], f.fun_decls@[k], decls[k]);
                    }
                    assert forall|k: int|
                        0 <= k < decls.len() implies #[trigger] checked_fun(
                            decls[k],
                            toplevel_state(decls, k, names).0,
                            names,
                            toplevel_state(decls, k, names).1,
                            f.fun_decls@[k],
                        ) by {
                        assert(fun_out(
                            decls[k],
                            toplevel_state(decls, k, names).0,
                            names,
                            toplevel_state(decls, k, names).1,
                            true,
                            pd[k],
                        ));
                    }
                }
                Ok(f)
            },
            None => unreached(),
        }
    } else {
        proof {
            let (errs, added, _) = check_toplevel(decls, env0, names, names.len() as nat);
            assert(errs_view(errors@) == start + errs);
            assert(errors@.len() == m + errs.len());
            assert forall|i: int| 0 <= i < errs.len() implies #[trigger] errs_view(errors@.skip(m as int))[i] == errs[i] by {
                assert(errs_view(errors@)[m + i] == (start + errs)[m + i]);
                assert(errors@.skip(m as int)[i] == errors@[m + i]);
            }
            assert(errs_view(errors@.skip(m as int)) =~= errs);
            if m == 1 {
                assert(errs_view(errors@)[0] == errors@[0]@);
            }
        }
        Err(errors)
    }
}

} // verus!
