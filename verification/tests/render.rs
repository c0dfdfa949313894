use petitc::error::{Error, ErrorKind, ParseError};
use petitc::span::{Source, Span};
use petitc::text::{Style, Styled};
use petitc::typing::{BasisType, PartialBasisType, PartialType, Type};

fn flat(m: &[Styled]) -> String {
    m.iter().map(|p| p.text.as_str()).collect()
}

fn source() -> Vec<Source> {
    vec![Source::new(String::from("test.c"), "int main() {\n  return x;\n}\n".chars().collect())]
}

fn sp(start: (usize, usize), end: (usize, usize), start_byte: usize, end_byte: usize) -> Span {
    Span { file: String::from("test.c"), start, end, start_byte, end_byte }
}

fn x_span() -> Span {
    sp((1, 9), (1, 9), 22, 22)
}

fn main_span() -> Span {
    sp((0, 4), (0, 7), 4, 7)
}

fn plain(s: &str) -> Vec<Styled> {
    vec![Styled { style: Style::plain(), text: String::from(s) }]
}

#[test]
fn name_error_report() {
    let e = Error::new(ErrorKind::NameError { name: String::from("x"), span: x_span() });
    let src = source();
    assert!(e.fits(&src));
    assert_eq!(
        flat(&e.render(&src)),
        "File \"test.c\", line 2, character 9:\nerror: symbol `x` is undefined.\n   --> test.c:2:9\n    | \n2   |   return x;\n    |          ^ not found in this scope\n"
    );
}

#[test]
fn headline_styles() {
    let e = Error::new(ErrorKind::NoMainFunction);
    let m = e.render(&source());
    assert_eq!(flat(&m), "error: expected to find symbol `main` at toplevel\n");
    assert_eq!(m[0].style, Style::red());
    assert_eq!(m[1].style, Style::white());
    assert_eq!(m[2].style, Style::plain());
}

#[test]
fn helps_and_reason_come_last() {
    let e = Error::new(ErrorKind::NoMainFunction)
        .add_help(plain("write one"))
        .add_help(plain("or two"))
        .reason(String::from("it was missing"));
    assert_eq!(
        flat(&e.render(&source())),
        "error: expected to find symbol `main` at toplevel\n  = help: write one\n  = help: or two\n  = note: this error was triggered because it was missing\n"
    );
}

#[test]
fn syntax_error_lists_alternatives() {
    let mk = |alternatives: Vec<&str>| {
        Error::new(ErrorKind::Beans(ParseError::SyntaxError {
            name: String::from("RBRACE"),
            alternatives: alternatives.into_iter().map(String::from).collect(),
            span: sp((2, 0), (2, 0), 25, 25),
        }))
    };
    let head = "File \"test.c\", line 3, character 0:\nerror: the token RBRACE cannot be recognized here\n   --> test.c:3:0\n    | \n3   | }\n    | ^ \n";
    assert_eq!(
        flat(&mk(vec![]).render(&source())),
        format!("{}  = help: no token would make sense here, what have you done?\n", head)
    );
    assert_eq!(
        flat(&mk(vec!["SEMI"]).render(&source())),
        format!("{}  = help: try inserting SEMI right before\n", head)
    );
    assert_eq!(
        flat(&mk(vec!["SEMI", "COMMA", "RPAR"]).render(&source())),
        format!("{}  = help: SEMI, COMMA or RPAR were expected here\n", head)
    );
}

#[test]
fn internal_and_io_errors() {
    let e = Error::new(ErrorKind::Beans(ParseError::Other { message: String::from(" oops") }));
    assert_eq!(flat(&e.render(&source())), "The parsing engine encountered an internal error: oops\n");
    let e = Error::new(ErrorKind::IoError(String::from(" no such file")));
    assert_eq!(flat(&e.render(&source())), "The engine encountered a io error: no such file\n");
}

#[test]
fn wrong_main_type() {
    let e = Error::new(ErrorKind::IncorrectMainFunctionType {
        ty: Type { basis: BasisType::Void, indirection_count: 0 },
        params: vec![
            PartialType { basis: PartialBasisType::Int, indirection_count: 0 },
            PartialType { basis: PartialBasisType::Bool, indirection_count: 2 },
        ],
        span: main_span(),
    });
    let text = flat(&e.render(&source()));
    assert!(text.starts_with(
        "File \"test.c\", line 1, characters 4-7:\nerror: signature mismatch, `main` should be of type `int()`, not `void(int, bool**)`\n"
    ));
    assert!(text.ends_with("    |     ^^^^ \n"));
}

#[test]
fn symbol_is_a_function() {
    let e = Error::new(ErrorKind::SymbolIsFunction {
        name: String::from("f"),
        span: x_span(),
        definition_span: None,
    });
    assert_eq!(
        flat(&e.render(&source())),
        "File \"test.c\", line 2, character 9:\nerror: symbol `f` is a function, not a variable\n   --> test.c:2:9\n    | \n2   |   return x;\n    |          ^ `f` is used as a variable\n  = help: maybe you meant to call `f`\n"
    );
}

#[test]
fn symbol_is_a_variable_with_its_definition() {
    let e = Error::new(ErrorKind::SymbolIsVariable {
        name: String::from("x"),
        span: x_span(),
        definition_span: Some(main_span()),
    });
    assert_eq!(
        flat(&e.render(&source())),
        "File \"test.c\", line 2, character 9:\nerror: symbol `x` is a varaible, not a function\n   --> test.c:1:4\n    | \n1   | int main() {\n    |     ~~~~ `x` is defined here\n2   |   return x;\n    |          ^ `x` is used as a function\n"
    );
}

#[test]
fn arity_of_a_builtin() {
    let e = Error::new(ErrorKind::ArityMismatch {
        found_arity: 0,
        expected_arity: 1,
        span: x_span(),
        definition_span: None,
        function_name: String::from("putchar"),
    });
    assert_eq!(
        flat(&e.render(&source())),
        "File \"test.c\", line 2, character 9:\nerror: arity mismatch between this function call and its definition.\n   --> test.c:2:9\n    | \n2   |   return x;\n    |          ^ found 0 arguments\n    = note: `putchar` is a builtin function which takes 1 arguments\n"
    );
}

#[test]
fn function_defined_twice_as_a_builtin() {
    let e = Error::new(ErrorKind::FunctionDefinedTwice {
        first_definition: None,
        second_definition: main_span(),
        name: String::from("malloc"),
    });
    assert_eq!(
        flat(&e.render(&source())),
        "File \"test.c\", line 1, characters 4-7:\nerror: the symbol `malloc` is defined twice at the toplevel\n   --> test.c:1:4\n    | \n1   | int main() {\n    |     ^^^^ definition found here\n    = note: `malloc` is a builtin function\n"
    );
}

#[test]
fn lvalue_headlines_have_italics() {
    let e = Error::new(ErrorKind::RvalueAssignment { span: x_span() });
    let m = e.render(&source());
    let text = flat(&m);
    assert!(text.contains("error: only expressions that are lvalues can be assigned to\n"));
    assert!(m.iter().any(|p| p.text == "lvalues" && p.style == Style::white().italic()));
    let e = Error::new(ErrorKind::IncrOrDecrRvalue { span: main_span(), expression_span: x_span() });
    let text = flat(&e.render(&source()));
    assert!(text.starts_with(
        "File \"test.c\", line 1, characters 4-7:\nerror: only lvalue expressions can be mutated\n   --> test.c:2:9\n"
    ));
    assert!(text.ends_with("^ cannot mutate this expression\n"));
}

#[test]
fn sizeof_void_hint() {
    let e = Error::new(ErrorKind::SizeofVoid { span: x_span() });
    let m = e.render(&source());
    assert!(flat(&m).ends_with("    |          ^ \n  = hint: use gcc!\n"));
    assert_eq!(m[m.len() - 2].style, Style::white().italic());
}

#[test]
fn type_mismatch_with_and_without_origin() {
    let int = PartialType { basis: PartialBasisType::Int, indirection_count: 0 };
    let void = PartialType { basis: PartialBasisType::Void, indirection_count: 0 };
    let e = Error::new(ErrorKind::TypeMismatch {
        span: x_span(),
        expected_type: int,
        found_type: void,
        origin_span: None,
    });
    let text = flat(&e.render(&source()));
    assert!(text.contains("error: expected type `int`, found `void` instead\n"));
    assert!(text.ends_with("^ this expression has a wrong type\n"));
    let e = Error::new(ErrorKind::TypeMismatch {
        span: x_span(),
        expected_type: int,
        found_type: void,
        origin_span: Some(main_span()),
    });
    let text = flat(&e.render(&source()));
    assert!(text.contains("~~~~ conflicting type declaration\n"));
}

#[test]
fn binop_and_variable_mismatches() {
    let int = PartialType { basis: PartialBasisType::Int, indirection_count: 1 };
    let boolean = PartialType { basis: PartialBasisType::Bool, indirection_count: 0 };
    let e = Error::new(ErrorKind::BuiltinBinopTypeMismatch {
        left_type: int,
        right_type: boolean,
        span: x_span(),
        op: "+",
    });
    assert!(flat(&e.render(&source())).contains("error: invalid operands to binary `+` for `int*` and `bool`\n"));
    let e = Error::new(ErrorKind::VariableTypeMismatch {
        span: x_span(),
        definition_span: main_span(),
        expected_type: int,
        found_type: boolean,
        variable_name: String::from("p"),
    });
    let text = flat(&e.render(&source()));
    assert!(text.contains("error: the symbol `p` has been defined with type `int*`, but it was assigned `bool`\n"));
    assert!(text.contains("~~~~ `p` is defined here\n"));
}

#[test]
fn errors_that_do_not_fit() {
    let src = source();
    let e = Error::new(ErrorKind::NameError {
        name: String::from("x"),
        span: sp((7, 0), (7, 0), 40, 40),
    });
    assert!(!e.fits(&src));
    let overlapping = Error::new(ErrorKind::SymbolDefinedTwice {
        first_definition: sp((0, 4), (0, 7), 4, 7),
        second_definition: sp((0, 5), (0, 6), 5, 6),
        name: String::from("main"),
    });
    assert!(!overlapping.fits(&src));
    assert!(Error::new(ErrorKind::NoMainFunction).fits(&src));
}

#[test]
fn parse_errors_on_a_span() {
    let at_end = sp((3, 0), (3, 0), 27, 27);
    let e = Error::new(ErrorKind::Beans(ParseError::SyntaxErrorValidPrefix { span: at_end.clone() }));
    assert_eq!(
        flat(&e.render(&source())),
        "File \"test.c\", line 4, character 0:\nerror: this file is syntactically valid but incomplete\n   --> test.c:4:0\n    | \n4   | \n    | ^ the rest of the program is missing\n"
    );
    let e = Error::new(ErrorKind::Beans(ParseError::LexingError { span: x_span() }));
    assert!(flat(&e.render(&source())).contains("error: this file cannot be lexed\n"));
    assert!(flat(&e.render(&source())).ends_with("^ unable to recognize a token here\n"));
    let e = Error::new(ErrorKind::Beans(ParseError::UnwantedToken {
        span: x_span(),
        message: String::from("no such token"),
    }));
    assert!(flat(&e.render(&source())).contains("error: no such token\n"));
}

#[test]
fn errors_on_values_and_pointers() {
    let e = Error::new(ErrorKind::AddressOfRvalue { span: main_span(), expression_span: x_span() });
    let text = flat(&e.render(&source()));
    assert!(text.starts_with("File \"test.c\", line 1, characters 4-7:\nerror: cannot take the address of an rvalue expression\n   --> test.c:2:9\n"));
    assert!(text.ends_with("^ this expression has no address in memory\n"));
    let e = Error::new(ErrorKind::DerefNonPointer {
        ty: Type { basis: BasisType::Bool, indirection_count: 0 },
        span: x_span(),
    });
    let text = flat(&e.render(&source()));
    assert!(text.contains("error: cannot cast `bool` as `_*`\n"));
    assert!(text.ends_with("^ this is not a pointer, it cannot be dereferenced\n"));
    let e = Error::new(ErrorKind::DerefVoidPointer { span: x_span() });
    assert!(flat(&e.render(&source())).ends_with(
        "  = help: try casting this value to an other pointer type before dereferencing it\n"
    ));
    let e = Error::new(ErrorKind::VoidExpression { span: x_span() });
    assert!(flat(&e.render(&source())).ends_with(
        "  = note: expressions with type `void` can only be discarded\n"
    ));
}

#[test]
fn errors_on_declarations_and_loops() {
    let e = Error::new(ErrorKind::SymbolDefinedTwice {
        first_definition: main_span(),
        second_definition: x_span(),
        name: String::from("x"),
    });
    let text = flat(&e.render(&source()));
    assert!(text.contains("error: the symbol `x` is defined twice in the same block\n"));
    assert!(text.contains("~~~~ first definition found here\n"));
    assert!(text.ends_with("^ second definition found here\n"));
    let e = Error::new(ErrorKind::VoidVariable { span: x_span(), name: String::from("v") });
    let text = flat(&e.render(&source()));
    assert!(text.contains("error: this symbol `v` has been declared with type `void`\n"));
    assert!(text.ends_with("^ `void` is not a valid type for a variable\n"));
    let e = Error::new(ErrorKind::BreakContinueOutsideLoop { span: x_span() });
    let text = flat(&e.render(&source()));
    assert!(text.contains("error: break or continue statement outside of a loop\n"));
    assert!(text.ends_with("^ `break` and `continue` must be within loops\n"));
}

#[test]
fn each_span_is_shown_from_its_own_file() {
    let lib_def = Span { file: String::from("lib.c"), start: (0, 4), end: (0, 4), start_byte: 4, end_byte: 4 };
    let e = Error::new(ErrorKind::SymbolDefinedTwice {
        first_definition: lib_def,
        second_definition: x_span(),
        name: String::from("x"),
    });
    let only_main = source();
    assert!(!e.fits(&only_main));
    let mut both = source();
    both.push(Source::new(String::from("lib.c"), "int x;\n".chars().collect()));
    assert!(e.fits(&both));
    let text = flat(&e.render(&both));
    assert!(text.contains("error: the symbol `x` is defined twice in the same block\n"));
    assert!(text.contains("   --> lib.c:1:4\n    | \n1   | int x;\n    |     ~ first definition found here\n"));
    assert!(text.contains("   ::: test.c:2:9\n    | \n2   |   return x;\n    |          ^ second definition found here\n"));
}

#[test]
fn helps_come_in_order_before_the_note() {
    let e = Error::new(ErrorKind::NoMainFunction)
        .add_help(plain("first"))
        .add_help(plain("second"))
        .add_help(plain("third"));
    let text = flat(&e.render(&source()));
    assert_eq!(
        text,
        "error: expected to find symbol `main` at toplevel\n  = help: first\n  = help: second\n  = help: third\n"
    );
    let with_reason = e.reason(String::from("why"));
    assert!(flat(&with_reason.render(&source())).ends_with("  = help: third\n  = note: this error was triggered because why\n"));
}
