use vstd::prelude::*;
use crate::ast::{BinOp, Instr};
use crate::error::{ErrorKind, ErrorView};
use crate::span::{Span, WithSpan};
use crate::typechecker::{
    check_binop, check_cond, check_instr, first_main, main_error_count, main_error_is, EnvView,
    ReturnType,
};
use crate::ast::FunDecl;
use crate::text::Style;
use crate::typing::{PartialType, Type};

verus! {

/// The difference of two pointers of the same type is an `int`, with no error.
pub proof fn lemma_pointer_difference(t: PartialType, s1: Span, s2: Span, span: Span)
    requires
        t.indirection_count > 0,
    ensures
        check_binop(BinOp::Sub, t, s1, t, s2, span) == (
            PartialType::int_type(),
            Seq::<ErrorView>::empty(),
        ),
{
}

/// The difference of two pointers of different types is refused: one error,
/// and a type that is not known.
pub proof fn lemma_heterogeneous_pointer_difference(
    t1: PartialType,
    t2: PartialType,
    s1: Span,
    s2: Span,
    span: Span,
)
    requires
        t1.indirection_count > 0,
        t2.indirection_count > 0,
        t1 != t2,
    ensures
        check_binop(BinOp::Sub, t1, s1, t2, s2, span).0 == PartialType::error_type(),
        check_binop(BinOp::Sub, t1, s1, t2, s2, span).1.len() == 1,
{
}

/// A pointer minus an `int` is a pointer of the same type, with no error.
pub proof fn lemma_pointer_minus_int(t: PartialType, s1: Span, s2: Span, span: Span)
    requires
        t.indirection_count > 0,
    ensures
        check_binop(BinOp::Sub, t, s1, PartialType::int_type(), s2, span) == (
            t,
            Seq::<ErrorView>::empty(),
        ),
{
}

/// The check of `main` reports nothing exactly when there is a `main` and the
/// first one is `int main()`: it returns an `int` and takes no parameter. A
/// `main` with parameters is reported, as an incorrect type of `main`.
pub proof fn lemma_main_must_be_int_of_nothing(decls: Seq<WithSpan<FunDecl>>, names: Seq<String>)
    ensures
        main_error_count(decls, names) == 0 <==> (first_main(decls, names) matches Some(k)
            && decls[k].inner.ty.inner == Type::int_type() && decls[k].inner.params@.len() == 0),
        main_error_count(decls, names) <= 1,
        (first_main(decls, names) matches Some(k) && decls[k].inner.params@.len() > 0) ==> (
        main_error_count(decls, names) == 1 && forall|e: ErrorView|
            #[trigger] main_error_is(e, decls, names) ==> e.0 is IncorrectMainFunctionType),
{
}

/// A `break` or a `continue` is reported exactly when it stands outside any loop.
pub proof fn lemma_break_needs_a_loop(
    i: WithSpan<Instr>,
    loop_level: nat,
    ret: ReturnType,
    env: EnvView,
    names: Seq<String>,
    count: nat,
)
    requires
        i.inner is Break || i.inner is Continue,
    ensures
        check_instr(i, loop_level, ret, env, names, count).0.len() == 0 <==> loop_level > 0,
        loop_level == 0 ==> check_instr(i, loop_level, ret, env, names, count).0 == seq![
            (ErrorKind::BreakContinueOutsideLoop { span: i.span }, None::<Seq<char>>, Seq::<Seq<(Style, Seq<char>)>>::empty()),
        ],
{
}

/// The body of a `while` loop, and of a `for` loop, is inside that loop: a
/// `break` or `continue` that is the whole body adds no error to those of the
/// loop's condition, whatever the depth of the loop, at top level too.
pub proof fn lemma_loop_body_is_in_the_loop(
    i: WithSpan<Instr>,
    loop_level: nat,
    ret: ReturnType,
    env: EnvView,
    names: Seq<String>,
    count: nat,
)
    requires
        match i.inner {
            Instr::While { body, .. } => body.inner is Break || body.inner is Continue,
            Instr::For { loop_var: None, body, .. } => body.inner is Break || body.inner is Continue,
            _ => false,
        },
    ensures
        match i.inner {
            Instr::While { cond, .. } => check_instr(i, loop_level, ret, env, names, count).0
                == check_cond(Some(cond), env, names).0 + check_cond(Some(cond), env, names).1,
            _ => true,
        },
        check_instr(i, loop_level, ret, env, names, count) == check_instr(
            i,
            0,
            ret,
            env,
            names,
            count,
        ),
{
    match i.inner {
        Instr::While { cond, body } => {
            lemma_break_needs_a_loop(*body, loop_level + 1, ret, env, names, count);
            lemma_break_needs_a_loop(*body, 1, ret, env, names, count);
            assert(check_instr(*body, loop_level + 1, ret, env, names, count) == (
                Seq::<ErrorView>::empty(),
                Seq::<Seq<char>>::empty(),
            ));
            assert(check_instr(*body, 1, ret, env, names, count) == (
                Seq::<ErrorView>::empty(),
                Seq::<Seq<char>>::empty(),
            ));
            let (c, v) = check_cond(Some(cond), env, names);
            assert(c + Seq::<ErrorView>::empty() + v =~= c + v);
        },
        Instr::For { body, .. } => {
            lemma_break_needs_a_loop(*body, loop_level + 1, ret, env, names, count);
            lemma_break_needs_a_loop(*body, 1, ret, env, names, count);
            assert(check_instr(*body, loop_level + 1, ret, env, names, count) == (
                Seq::<ErrorView>::empty(),
                Seq::<Seq<char>>::empty(),
            ));
            assert(check_instr(*body, 1, ret, env, names, count) == (
                Seq::<ErrorView>::empty(),
                Seq::<Seq<char>>::empty(),
            ));
        },
        _ => {},
    }
}

} // verus!
