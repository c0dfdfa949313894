use petitc::ast::BinOp;
use petitc::span::{Span, WithSpan};
use petitc::typed::{
    FullExpr, PartialExpr, PartialFile, PartialFunDecl, PartialVarDecl, PartiallyTypedExpr,
    WithType,
};
use petitc::typing::{BasisType, PartialBasisType, PartialType, Type};

fn sp(from: usize) -> Span {
    Span { file: String::from("t.c"), start: (0, from), end: (0, from), start_byte: from, end_byte: from }
}

fn int_p() -> PartialType {
    PartialType { basis: PartialBasisType::Int, indirection_count: 0 }
}

fn pte(e: PartialExpr, ty: PartialType, at: usize) -> PartiallyTypedExpr {
    WithType { inner: Some(e), ty, span: sp(at) }
}

#[test]
fn a_copied_prefix_increment_becomes_a_postfix_one() {
    let e = PartialExpr::PrefixIncr(Box::new(pte(PartialExpr::Int(3), int_p(), 2)));
    match e.clone() {
        PartialExpr::PostfixIncr(b) => {
            assert!(matches!(b.inner, Some(PartialExpr::Int(3))));
            assert_eq!(b.ty, int_p());
            assert_eq!(b.span.start, (0, 2));
        },
        other => panic!("unexpected copy {:?}", other),
    }
    let d = PartialExpr::PrefixDecr(Box::new(pte(PartialExpr::True, int_p(), 1)));
    assert!(matches!(d.clone(), PartialExpr::PrefixDecr(_)));
}

#[test]
fn copies_reach_inside_calls() {
    let inner = PartialExpr::PrefixIncr(Box::new(pte(PartialExpr::Null, int_p(), 4)));
    let call = PartialExpr::Call {
        name: WithSpan { inner: 7, span: sp(0) },
        args: vec![pte(inner, int_p(), 3), pte(PartialExpr::Int(1), int_p(), 6)],
    };
    match call.clone() {
        PartialExpr::Call { name, args } => {
            assert_eq!(name.inner, 7);
            assert_eq!(args.len(), 2);
            assert!(matches!(args[0].inner, Some(PartialExpr::PostfixIncr(_))));
            assert!(matches!(args[1].inner, Some(PartialExpr::Int(1))));
        },
        other => panic!("unexpected copy {:?}", other),
    }
}

#[test]
fn known_types_make_a_full_expression() {
    let e = PartialExpr::Op {
        op: BinOp::Add,
        lhs: Box::new(pte(PartialExpr::Int(1), int_p(), 0)),
        rhs: Box::new(pte(PartialExpr::Int(2), int_p(), 4)),
    };
    match e.to_full() {
        Some(FullExpr::Op { op, lhs, rhs }) => {
            assert_eq!(op, BinOp::Add);
            assert!(matches!(lhs.inner, FullExpr::Int(1)));
            assert!(matches!(rhs.inner, FullExpr::Int(2)));
            assert_eq!(lhs.ty, Type { basis: BasisType::Int, indirection_count: 0 });
            assert_eq!(rhs.span.start, (0, 4));
        },
        other => panic!("unexpected result {:?}", other),
    }
}

#[test]
fn an_unknown_type_or_a_missing_part_gives_nothing() {
    let unknown = PartialType { basis: PartialBasisType::Error, indirection_count: 0 };
    let e = PartialExpr::Not(Box::new(pte(PartialExpr::Int(1), unknown, 0)));
    assert!(e.to_full().is_none());
    let missing = PartialExpr::Neg(Box::new(WithType { inner: None, ty: int_p(), span: sp(0) }));
    assert!(missing.to_full().is_none());
}

#[test]
fn a_value_with_unknown_parts_is_dropped_from_its_declaration() {
    let unknown = PartialType { basis: PartialBasisType::Error, indirection_count: 0 };
    let value = pte(PartialExpr::Not(Box::new(pte(PartialExpr::Int(1), unknown, 9))), int_p(), 8);
    let decl = PartialVarDecl {
        ty: WithSpan { inner: int_p(), span: sp(0) },
        name: WithSpan { inner: 3, span: sp(4) },
        value: Some(value),
    };
    let full = decl.to_full().unwrap();
    assert!(full.value.is_none());
    assert_eq!(full.name.inner, 3);
    let no_value = PartialVarDecl {
        ty: WithSpan { inner: int_p(), span: sp(0) },
        name: WithSpan { inner: 3, span: sp(4) },
        value: Some(WithType { inner: None, ty: int_p(), span: sp(8) }),
    };
    assert!(no_value.to_full().is_none());
}

#[test]
fn an_empty_function_keeps_its_signature() {
    let f = PartialFunDecl {
        ty: WithSpan { inner: int_p(), span: sp(0) },
        name: WithSpan { inner: 2, span: sp(4) },
        params: vec![(WithSpan { inner: int_p(), span: sp(9) }, WithSpan { inner: 3, span: sp(13) })],
        code: WithSpan { inner: Vec::new(), span: sp(16) },
        depth: 0,
    };
    let file = PartialFile { fun_decls: vec![WithSpan { inner: f, span: sp(0) }] };
    let full = file.to_full().unwrap();
    assert_eq!(full.fun_decls.len(), 1);
    let g = &full.fun_decls[0].inner;
    assert_eq!(g.name.inner, 2);
    assert_eq!(g.params.len(), 1);
    assert_eq!(g.params[0].0.inner, Type { basis: BasisType::Int, indirection_count: 0 });
    assert_eq!(g.params[0].1.inner, 3);
    assert_eq!(g.code.span.start, (0, 16));
}
