use petitc::ast::{check_file, BinOp, DeclOrInstr, Expr, File, FunDecl, Instr, VarDecl};
use petitc::error::ErrorKind;
use petitc::span::{Span, WithSpan};
use petitc::typechecker::{format_loc, typecheck};
use petitc::typed::{FullDeclOrInstr, FullExpr, FullInstr};
use petitc::typing::{BasisType, PartialBasisType, Type};

fn sp(line: usize, from: usize, to: usize) -> Span {
    Span {
        file: String::from("t.c"),
        start: (line, from),
        end: (line, to),
        start_byte: 100 * line + from,
        end_byte: 100 * line + to,
    }
}

fn ws<T>(inner: T, span: Span) -> WithSpan<T> {
    WithSpan { inner, span }
}

fn int_ty() -> Type {
    Type { basis: BasisType::Int, indirection_count: 0 }
}

fn void() -> Type {
    Type { basis: BasisType::Void, indirection_count: 0 }
}

fn names(extra: &[&str]) -> Vec<String> {
    let mut v = vec![String::from("malloc"), String::from("putchar")];
    v.extend(extra.iter().map(|s| String::from(*s)));
    v
}

fn fun(ty: Type, name: usize, code: Vec<DeclOrInstr>, depth: usize, span: Span) -> WithSpan<FunDecl> {
    ws(
        FunDecl {
            ty: ws(ty, span.clone()),
            name: ws(name, span.clone()),
            params: Vec::new(),
            code: ws(code, span.clone()),
            depth,
        },
        span,
    )
}

fn instr(i: Instr, span: Span) -> DeclOrInstr {
    DeclOrInstr::Instr(ws(i, span))
}

fn ret(e: Expr, span: Span) -> DeclOrInstr {
    instr(Instr::Return(Some(ws(e, span.clone()))), span)
}

#[test]
fn locations_are_written_line_dot_column() {
    assert_eq!(format_loc((3, 14)), "3.14");
    assert_eq!(format_loc((0, 0)), "0.0");
}

#[test]
fn a_program_without_main() {
    let mut name_of = names(&[]);
    let r = typecheck(File { fun_decls: Vec::new() }, &mut name_of);
    let errs = r.unwrap_err();
    assert_eq!(errs.len(), 1);
    assert!(matches!(*errs[0].kind, ErrorKind::NoMainFunction));
    assert_eq!(name_of.len(), 2);
}

#[test]
fn a_correct_program() {
    let mut name_of = names(&["main"]);
    let main = fun(int_ty(), 2, vec![ret(Expr::Int(0), sp(0, 13, 21))], 0, sp(0, 0, 23));
    let typed = typecheck(File { fun_decls: vec![main] }, &mut name_of).unwrap();
    assert_eq!(typed.fun_decls.len(), 1);
    assert_eq!(typed.fun_decls[0].inner.name.inner, 2);
    assert_eq!(typed.fun_decls[0].inner.ty.inner, int_ty());
    assert_eq!(typed.fun_decls[0].inner.depth, 0);
    assert!(typed.fun_decls[0].inner.params.is_empty());
    assert_eq!(typed.fun_decls[0].span.end, (0, 23));
    assert_eq!(typed.fun_decls[0].inner.code.inner.len(), 1);
    assert_eq!(name_of.len(), 3);
}

#[test]
fn main_of_the_wrong_type() {
    let mut name_of = names(&["main"]);
    let main = fun(void(), 2, Vec::new(), 0, sp(0, 0, 12));
    let errs = typecheck(File { fun_decls: vec![main] }, &mut name_of).unwrap_err();
    assert_eq!(errs.len(), 1);
    match &*errs[0].kind {
        ErrorKind::IncorrectMainFunctionType { ty, params, span } => {
            assert_eq!(*ty, void());
            assert!(params.is_empty());
            assert_eq!(span.start, (0, 0));
            assert_eq!(span.end, (0, 12));
        },
        other => panic!("unexpected error {:?}", other),
    }
}

#[test]
fn an_undefined_name() {
    let mut name_of = names(&["main", "y"]);
    let main = fun(
        int_ty(),
        2,
        vec![ret(Expr::Ident(ws(3, sp(0, 20, 20))), sp(0, 13, 21))],
        0,
        sp(0, 0, 23),
    );
    let errs = typecheck(File { fun_decls: vec![main] }, &mut name_of).unwrap_err();
    assert_eq!(errs.len(), 1);
    match &*errs[0].kind {
        ErrorKind::NameError { name, span } => {
            assert_eq!(name, "y");
            assert_eq!(span.start, (0, 20));
        },
        other => panic!("unexpected error {:?}", other),
    }
    assert!(errs[0].reason.is_none());
    assert!(errs[0].helps.is_empty());
}

#[test]
fn break_outside_a_loop() {
    let mut name_of = names(&["main"]);
    let main = fun(
        int_ty(),
        2,
        vec![instr(Instr::Break, sp(1, 2, 7)), ret(Expr::Int(0), sp(2, 2, 10))],
        0,
        sp(0, 0, 12),
    );
    let errs = typecheck(File { fun_decls: vec![main] }, &mut name_of).unwrap_err();
    assert_eq!(errs.len(), 1);
    match &*errs[0].kind {
        ErrorKind::BreakContinueOutsideLoop { span } => assert_eq!(span.start, (1, 2)),
        other => panic!("unexpected error {:?}", other),
    }
}

#[test]
fn a_builtin_called_with_too_few_arguments() {
    let mut name_of = names(&["main"]);
    let call = Expr::Call { name: ws(1, sp(1, 2, 8)), args: Vec::new() };
    let main = fun(
        int_ty(),
        2,
        vec![instr(Instr::ExprInstr(ws(call, sp(1, 2, 10))), sp(1, 2, 11)), ret(Expr::Int(0), sp(2, 2, 10))],
        0,
        sp(0, 0, 12),
    );
    let errs = typecheck(File { fun_decls: vec![main] }, &mut name_of).unwrap_err();
    assert_eq!(errs.len(), 1);
    match &*errs[0].kind {
        ErrorKind::ArityMismatch { found_arity, expected_arity, span, definition_span, function_name } => {
            assert_eq!(*found_arity, 0);
            assert_eq!(*expected_arity, 1);
            assert_eq!(span.start, (1, 2));
            assert!(definition_span.is_none());
            assert_eq!(function_name, "putchar");
        },
        other => panic!("unexpected error {:?}", other),
    }
}

#[test]
fn a_function_defined_twice() {
    let mut name_of = names(&["main", "f"]);
    let f1 = fun(int_ty(), 3, vec![ret(Expr::Int(0), sp(0, 10, 18))], 0, sp(0, 0, 20));
    let f2 = fun(int_ty(), 3, vec![ret(Expr::Int(1), sp(1, 10, 18))], 0, sp(1, 0, 20));
    let main = fun(int_ty(), 2, vec![ret(Expr::Int(0), sp(2, 13, 21))], 0, sp(2, 0, 23));
    let errs = typecheck(File { fun_decls: vec![f1, f2, main] }, &mut name_of).unwrap_err();
    assert_eq!(errs.len(), 1);
    match &*errs[0].kind {
        ErrorKind::FunctionDefinedTwice { first_definition, second_definition, name } => {
            assert_eq!(first_definition.as_ref().unwrap().start, (0, 0));
            assert_eq!(second_definition.start, (1, 0));
            assert_eq!(name, "f");
        },
        other => panic!("unexpected error {:?}", other),
    }
}

#[test]
fn a_builtin_cannot_be_redefined() {
    let mut name_of = names(&["main"]);
    let m = fun(int_ty(), 0, vec![ret(Expr::Int(0), sp(0, 10, 18))], 0, sp(0, 0, 20));
    let main = fun(int_ty(), 2, vec![ret(Expr::Int(0), sp(1, 13, 21))], 0, sp(1, 0, 23));
    let errs = typecheck(File { fun_decls: vec![m, main] }, &mut name_of).unwrap_err();
    assert_eq!(errs.len(), 1);
    match &*errs[0].kind {
        ErrorKind::FunctionDefinedTwice { first_definition, second_definition, name } => {
            assert!(first_definition.is_none());
            assert_eq!(second_definition.start, (0, 0));
            assert_eq!(name, "malloc");
        },
        other => panic!("unexpected error {:?}", other),
    }
}

#[test]
fn nested_functions_get_fresh_names() {
    let mut name_of = names(&["main", "f"]);
    let f = DeclOrInstr::Fun(fun(int_ty(), 3, vec![ret(Expr::Int(1), sp(0, 21, 29))], 1, sp(0, 13, 31)));
    let call = Expr::Call { name: ws(3, sp(0, 39, 39)), args: Vec::new() };
    let main = fun(int_ty(), 2, vec![f, ret(call, sp(0, 32, 43))], 0, sp(0, 0, 45));
    let typed = typecheck(File { fun_decls: vec![main] }, &mut name_of).unwrap();
    assert_eq!(name_of.len(), 5);
    assert_eq!(name_of[4], "fun_f0.13");
    let code = &typed.fun_decls[0].inner.code.inner;
    assert_eq!(code.len(), 2);
    match &code[0] {
        FullDeclOrInstr::Fun(d) => assert_eq!(d.inner.name.inner, 4),
        other => panic!("unexpected item {:?}", other),
    }
    match &code[1] {
        FullDeclOrInstr::Instr(i) => match &i.instr {
            FullInstr::Return(Some(e)) => match &e.inner {
                FullExpr::Call { name, args } => {
                    assert_eq!(name.inner, 4);
                    assert!(args.is_empty());
                    assert_eq!(e.ty, int_ty());
                },
                other => panic!("unexpected expression {:?}", other),
            },
            other => panic!("unexpected instruction {:?}", other),
        },
        other => panic!("unexpected item {:?}", other),
    }
}

#[test]
fn unknown_types_are_reported_once() {
    let mut name_of = names(&["main", "y"]);
    let e = Expr::Op {
        op: BinOp::Add,
        lhs: Box::new(ws(Expr::Ident(ws(3, sp(0, 20, 20))), sp(0, 20, 20))),
        rhs: Box::new(ws(Expr::Int(1), sp(0, 24, 24))),
    };
    let main = fun(int_ty(), 2, vec![ret(e, sp(0, 13, 25))], 0, sp(0, 0, 27));
    let errs = typecheck(File { fun_decls: vec![main] }, &mut name_of).unwrap_err();
    assert_eq!(errs.len(), 1);
    assert!(matches!(*errs[0].kind, ErrorKind::NameError { .. }));
    let _ = PartialBasisType::Error;
}

#[test]
fn pointers_cannot_be_added() {

    let mut name_of = names(&["main", "p"]);
    let ptr = Type { basis: BasisType::Int, indirection_count: 1 };
    let decl = DeclOrInstr::Var(ws(
        VarDecl { ty: ws(ptr, sp(1, 2, 5)), name: ws(3, sp(1, 7, 7)), value: None },
        sp(1, 2, 8),
    ));
    let p = || ws(Expr::Ident(ws(3, sp(2, 9, 9))), sp(2, 9, 9));
    let sum = Expr::Op { op: BinOp::Add, lhs: Box::new(p()), rhs: Box::new(p()) };
    let main = fun(int_ty(), 2, vec![decl, ret(sum, sp(2, 2, 14))], 0, sp(0, 0, 16));
    let errs = typecheck(File { fun_decls: vec![main] }, &mut name_of).unwrap_err();
    assert_eq!(errs.len(), 1);
    match &*errs[0].kind {
        ErrorKind::BuiltinBinopTypeMismatch { left_type, right_type, op, .. } => {
            assert_eq!(left_type.indirection_count, 1);
            assert_eq!(right_type.indirection_count, 1);
            assert_eq!(*op, "+");
        },
        other => panic!("unexpected error {:?}", other),
    }
    assert_eq!(errs[0].reason.as_deref(), Some("pointers cannot be added."));
    assert_eq!(errs[0].helps.len(), 1);
    let help: String = errs[0].helps[0].iter().map(|p| p.text.as_str()).collect();
    assert_eq!(help, "maybe you meant to subtract the pointers?");
}

#[test]
fn well_formed_programs_are_recognised() {

    let main = fun(int_ty(), 2, vec![ret(Expr::Int(0), sp(0, 13, 21))], 0, sp(0, 0, 23));
    let file = File { fun_decls: vec![main] };
    assert!(check_file(&file, 3));
    // the name of `main` is not in a table of two names
    assert!(!check_file(&file, 2));
    let unknown = fun(int_ty(), 2, vec![ret(Expr::Ident(ws(9, sp(0, 20, 20))), sp(0, 13, 21))], 0, sp(0, 0, 23));
    assert!(!check_file(&File { fun_decls: vec![unknown] }, 3));
    let deep_type = Type { basis: BasisType::Int, indirection_count: usize::MAX };
    let bad = fun(deep_type, 2, Vec::new(), 0, sp(0, 0, 23));
    assert!(!check_file(&File { fun_decls: vec![bad] }, 3));
}

/// `int main() { <items> return 0; }` with names malloc, putchar, main, x, f.
fn check_main_body(items: Vec<DeclOrInstr>) -> Vec<petitc::error::Error> {
    let mut name_of = names(&["main", "x", "f"]);
    let mut code = items;
    code.push(ret(Expr::Int(0), sp(9, 2, 10)));
    let main = fun(int_ty(), 2, code, 0, sp(0, 0, 12));
    typecheck(File { fun_decls: vec![main] }, &mut name_of).unwrap_err()
}

fn expr_instr(e: Expr, line: usize) -> DeclOrInstr {
    instr(Instr::ExprInstr(ws(e, sp(line, 2, 9))), sp(line, 2, 10))
}

fn var(ty: Type, name: usize, value: Option<WithSpan<Expr>>, line: usize) -> DeclOrInstr {
    DeclOrInstr::Var(ws(VarDecl { ty: ws(ty, sp(line, 2, 4)), name: ws(name, sp(line, 6, 6)), value }, sp(line, 2, 7)))
}

fn boxed(e: Expr, line: usize, col: usize) -> Box<WithSpan<Expr>> {
    Box::new(ws(e, sp(line, col, col)))
}

#[test]
fn taking_the_address_of_a_value() {
    let errs = check_main_body(vec![expr_instr(Expr::Addr(boxed(Expr::Int(1), 1, 3)), 1)]);
    assert_eq!(errs.len(), 1);
    match &*errs[0].kind {
        ErrorKind::AddressOfRvalue { span, expression_span } => {
            assert_eq!(span.end, (1, 9));
            assert_eq!(expression_span.start, (1, 3));
        },
        other => panic!("unexpected error {:?}", other),
    }
    let help: String = errs[0].helps[0].iter().map(|p| p.text.as_str()).collect();
    assert_eq!(help, "you could allocate this expression, by binding it to a variable");
}

#[test]
fn dereferencing_a_value_or_a_void_pointer() {
    let errs = check_main_body(vec![expr_instr(Expr::Deref(boxed(Expr::Int(1), 1, 3)), 1)]);
    assert_eq!(errs.len(), 1);
    match &*errs[0].kind {
        ErrorKind::DerefNonPointer { ty, span } => {
            assert_eq!(*ty, int_ty());
            assert_eq!(span.start, (1, 3));
        },
        other => panic!("unexpected error {:?}", other),
    }
    let errs = check_main_body(vec![expr_instr(Expr::Deref(boxed(Expr::Null, 1, 3)), 1)]);
    assert_eq!(errs.len(), 1);
    assert!(matches!(&*errs[0].kind, ErrorKind::DerefVoidPointer { span } if span.start == (1, 3)));
}

#[test]
fn a_variable_declared_twice_or_void() {
    let errs = check_main_body(vec![var(int_ty(), 3, None, 1), var(int_ty(), 3, None, 2)]);
    assert_eq!(errs.len(), 1);
    match &*errs[0].kind {
        ErrorKind::SymbolDefinedTwice { first_definition, second_definition, name } => {
            assert_eq!(first_definition.start, (1, 2));
            assert_eq!(second_definition.start, (2, 2));
            assert_eq!(name, "x");
        },
        other => panic!("unexpected error {:?}", other),
    }
    let errs = check_main_body(vec![var(void(), 3, None, 1)]);
    assert_eq!(errs.len(), 1);
    assert!(matches!(&*errs[0].kind, ErrorKind::VoidVariable { name, .. } if name == "x"));
}

#[test]
fn sizeof_void_and_assigning_to_a_value() {
    let errs = check_main_body(vec![expr_instr(Expr::SizeOf(ws(void(), sp(1, 9, 12))), 1)]);
    assert_eq!(errs.len(), 1);
    assert!(matches!(&*errs[0].kind, ErrorKind::SizeofVoid { span } if span.start == (1, 2)));
    let assign = Expr::Assign { lhs: boxed(Expr::Int(1), 1, 2), rhs: boxed(Expr::Int(2), 1, 6) };
    let errs = check_main_body(vec![expr_instr(assign, 1)]);
    assert_eq!(errs.len(), 1);
    assert!(matches!(&*errs[0].kind, ErrorKind::RvalueAssignment { span } if span.start == (1, 2)));
    let errs = check_main_body(vec![expr_instr(Expr::PostfixIncr(boxed(Expr::Int(1), 1, 2)), 1)]);
    assert_eq!(errs.len(), 1);
    assert!(matches!(&*errs[0].kind, ErrorKind::IncrOrDecrRvalue { expression_span, .. } if expression_span.start == (1, 2)));
}

#[test]
fn a_function_used_as_a_variable_and_back() {
    let errs = check_main_body(vec![expr_instr(Expr::Ident(ws(2, sp(1, 2, 5))), 1)]);
    assert_eq!(errs.len(), 1);
    match &*errs[0].kind {
        ErrorKind::SymbolIsFunction { name, span, definition_span } => {
            assert_eq!(name, "main");
            assert_eq!(span.start, (1, 2));
            assert_eq!(definition_span.as_ref().unwrap().start, (0, 0));
        },
        other => panic!("unexpected error {:?}", other),
    }
    let call = Expr::Call { name: ws(3, sp(2, 2, 2)), args: Vec::new() };
    let errs = check_main_body(vec![var(int_ty(), 3, None, 1), expr_instr(call, 2)]);
    assert_eq!(errs.len(), 1);
    match &*errs[0].kind {
        ErrorKind::SymbolIsVariable { name, span, definition_span } => {
            assert_eq!(name, "x");
            assert_eq!(span.start, (2, 2));
            assert_eq!(definition_span.as_ref().unwrap().start, (1, 2));
        },
        other => panic!("unexpected error {:?}", other),
    }
}

#[test]
fn a_declaration_with_a_value_of_the_wrong_type() {
    let ptr = Type { basis: BasisType::Int, indirection_count: 1 };
    let errs = check_main_body(vec![var(ptr, 3, Some(ws(Expr::Int(1), sp(1, 10, 10))), 1)]);
    assert_eq!(errs.len(), 1);
    match &*errs[0].kind {
        ErrorKind::TypeMismatch { span, expected_type, found_type, origin_span } => {
            assert_eq!(span.start, (1, 10));
            assert_eq!(expected_type.indirection_count, 1);
            assert_eq!(found_type.indirection_count, 0);
            assert_eq!(origin_span.as_ref().unwrap().start, (1, 2));
        },
        other => panic!("unexpected error {:?}", other),
    }
}

#[test]
fn returning_nothing_or_a_void_value_from_main() {
    let mut name_of = names(&["main"]);
    let main = fun(int_ty(), 2, vec![instr(Instr::Return(None), sp(1, 2, 8))], 0, sp(0, 0, 12));
    let errs = typecheck(File { fun_decls: vec![main] }, &mut name_of).unwrap_err();
    assert_eq!(errs.len(), 1);
    assert!(matches!(&*errs[0].kind, ErrorKind::TypeMismatch { span, .. } if span.start == (1, 2)));
    assert!(errs[0].reason.as_deref().unwrap().starts_with("a `return` statement without arguments"));
    let help: String = errs[0].helps[0].iter().map(|p| p.text.as_str()).collect();
    assert_eq!(help, "try adding an argument `return /* int */;`");

    let mut name_of = names(&["main", "f"]);
    let f = fun(void(), 3, Vec::new(), 0, sp(0, 0, 10));
    let call = Expr::Call { name: ws(3, sp(2, 9, 9)), args: Vec::new() };
    let main = fun(int_ty(), 2, vec![ret(call, sp(2, 2, 12))], 0, sp(1, 0, 14));
    let errs = typecheck(File { fun_decls: vec![f, main] }, &mut name_of).unwrap_err();
    assert_eq!(errs.len(), 2);
    assert!(matches!(&*errs[0].kind, ErrorKind::VoidExpression { .. }));
    assert!(matches!(&*errs[1].kind, ErrorKind::TypeMismatch { .. }));
}

#[test]
fn a_for_loop_with_a_declaration_becomes_a_block() {
    let mut name_of = names(&["main", "x"]);
    let decl = ws(
        VarDecl { ty: ws(int_ty(), sp(1, 7, 9)), name: ws(3, sp(1, 11, 11)), value: Some(ws(Expr::Int(0), sp(1, 15, 15))) },
        sp(1, 7, 15),
    );
    let cond = ws(
        Expr::Op { op: BinOp::Lt, lhs: boxed(Expr::Ident(ws(3, sp(1, 18, 18))), 1, 18), rhs: boxed(Expr::Int(1), 1, 22) },
        sp(1, 18, 22),
    );
    let incr = vec![ws(Expr::PostfixIncr(boxed(Expr::Ident(ws(3, sp(1, 25, 25))), 1, 25)), sp(1, 25, 27))];
    let body = Box::new(ws(Instr::Block(ws(Vec::new(), sp(1, 30, 31))), sp(1, 30, 31)));
    let for_loop = instr(Instr::For { loop_var: Some(decl), cond: Some(cond), incr, body }, sp(1, 2, 31));
    let main = fun(int_ty(), 2, vec![for_loop, ret(Expr::Int(0), sp(2, 2, 10))], 0, sp(0, 0, 40));
    let typed = typecheck(File { fun_decls: vec![main] }, &mut name_of).unwrap();
    let code = &typed.fun_decls[0].inner.code.inner;
    assert_eq!(code.len(), 2);
    match &code[0] {
        FullDeclOrInstr::Instr(i) => match &i.instr {
            FullInstr::Block(b) => {
                assert_eq!(b.inner.len(), 3);
                assert!(matches!(&b.inner[0], FullDeclOrInstr::Var(v) if v.inner.name.inner == 3 && v.inner.value.is_none()));
                assert!(matches!(&b.inner[1], FullDeclOrInstr::Instr(t) if matches!(&t.instr, FullInstr::ExprInstr(e) if matches!(e.inner, FullExpr::Assign { .. }))));
                assert!(matches!(&b.inner[2], FullDeclOrInstr::Instr(t) if matches!(&t.instr, FullInstr::For { loop_var: None, .. })));
            },
            other => panic!("unexpected instruction {:?}", other),
        },
        other => panic!("unexpected item {:?}", other),
    }
}

#[test]
fn a_nested_main_keeps_its_name() {
    let mut name_of = names(&["main"]);
    let inner_main = DeclOrInstr::Fun(fun(int_ty(), 2, vec![ret(Expr::Int(1), sp(1, 14, 22))], 1, sp(1, 2, 24)));
    let main = fun(int_ty(), 2, vec![inner_main, ret(Expr::Int(0), sp(2, 2, 10))], 0, sp(0, 0, 30));
    let typed = typecheck(File { fun_decls: vec![main] }, &mut name_of).unwrap();
    assert_eq!(name_of.len(), 3);
    match &typed.fun_decls[0].inner.code.inner[0] {
        FullDeclOrInstr::Fun(d) => assert_eq!(d.inner.name.inner, 2),
        other => panic!("unexpected item {:?}", other),
    }
}

#[test]
fn distinct_locations_are_written_apart() {
    assert_ne!(format_loc((1, 23)), format_loc((12, 3)));
    assert_ne!(format_loc((10, 0)), format_loc((1, 0)));
    assert_eq!(format_loc((12, 3)), format_loc((12, 3)));
    let s = format_loc((120, 45));
    assert_eq!(s.matches('.').count(), 1);
    assert_eq!(s.split('.').collect::<Vec<_>>(), vec!["120", "45"]);
}
