use vstd::prelude::*;
use crate::span::Span;
use crate::text::{Style, Styled};
use crate::typing::{PartialType, Type};

pub mod display;
pub mod render;

verus! {

/// The errors of the parsing engine, with what their messages show.
#[derive(Debug)]
pub enum ParseError {
    /// A token (`name`) that cannot stand here; `alternatives` could.
    SyntaxError { name: String, alternatives: Vec<String>, span: Span },
    /// The input ends where more was expected.
    SyntaxErrorValidPrefix { span: Span },
    /// No token can be recognised here.
    LexingError { span: Span },
    /// A token that the grammar forbids, with its own message.
    UnwantedToken { span: Span, message: String },
    /// Any other error of the parsing engine, as the engine writes it.
    Other { message: String },
}

/// What went wrong.
#[derive(Debug)]
#[allow(inconsistent_fields)]
pub enum ErrorKind {
    Beans(ParseError),
    /// An input/output error, as the system writes it.
    IoError(String),
    AddressOfRvalue { span: Span, expression_span: Span },
    DerefNonPointer { ty: Type, span: Span },
    NoMainFunction,
    IncorrectMainFunctionType { ty: Type, params: Vec<PartialType>, span: Span },
    BreakContinueOutsideLoop { span: Span },
    NameError { name: String, span: Span },
    SymbolDefinedTwice { first_definition: Span, second_definition: Span, name: String },
    FunctionDefinedTwice { first_definition: Option<Span>, second_definition: Span, name: String },
    ArityMismatch {
        found_arity: usize,
        expected_arity: usize,
        span: Span,
        definition_span: Option<Span>,
        function_name: String,
    },
    VoidVariable { span: Span, name: String },
    VoidExpression { span: Span },
    DerefVoidPointer { span: Span },
    VariableTypeMismatch {
        span: Span,
        definition_span: Span,
        expected_type: PartialType,
        found_type: PartialType,
        variable_name: String,
    },
    SizeofVoid { span: Span },
    RvalueAssignment { span: Span },
    TypeMismatch {
        span: Span,
        expected_type: PartialType,
        found_type: PartialType,
        origin_span: Option<Span>,
    },
    IncrOrDecrRvalue { span: Span, expression_span: Span },
    SymbolIsFunction { name: String, span: Span, definition_span: Option<Span> },
    SymbolIsVariable { name: String, span: Span, definition_span: Option<Span> },
    BuiltinBinopTypeMismatch {
        left_type: PartialType,
        right_type: PartialType,
        span: Span,
        op: &'static str,
    },
}

/// An error: what went wrong, possibly why, and hints to mend it.
#[derive(Debug)]
pub struct Error {
    pub kind: Box<ErrorKind>,
    pub reason: Option<String>,
    pub helps: Vec<Vec<Styled>>,
}

/// An error as the checker's contracts see it: its kind, the text of its reason
/// and the styled text of each hint.
pub type ErrorView = (ErrorKind, Option<Seq<char>>, Seq<Seq<(Style, Seq<char>)>>);

/// The text of an optional string.
pub open spec fn opt_text(s: Option<String>) -> Option<Seq<char>> {
    match s {
        Some(s) => Some(s@),
        None => None,
    }
}

impl View for Error {
    type V = ErrorView;

    open spec fn view(&self) -> ErrorView {
        (*self.kind, opt_text(self.reason), self.helps.deep_view())
    }
}

/// An error of the given kind, with no reason and no hint.
pub open spec fn plain(kind: ErrorKind) -> ErrorView {
    (kind, None, Seq::empty())
}

/// A hint made of one piece of plain text.
pub open spec fn plain_help(s: Seq<char>) -> Seq<(Style, Seq<char>)> {
    seq![(Style::plain(), s)]
}

/// The errors of a list, as their contracts see them.
pub open spec fn errs_view(s: Seq<Error>) -> Seq<ErrorView> {
    Seq::new(s.len(), |i: int| s[i]@)
}

/// A piece of plain text, as a hint.
pub fn plain_text(s: &str) -> (r: Vec<Styled>)
    ensures
        r.deep_view() == plain_help(s@),
{
    let mut r = Vec::new();
    r.push(Styled { style: Style::plain(), text: String::from_str(s) });
    assert(r.deep_view() =~= plain_help(s@));
    r
}

impl Error {
    /// The same error, triggered because of `reason`.
    pub fn reason(self, reason: String) -> (r: Self)
        ensures
            r@ == (self@.0, Some(reason@), self@.2),
    {
        Error { kind: self.kind, reason: Some(reason), helps: self.helps }
    }

    /// The same error, with one more hint, last.
    pub fn add_help(self, help: Vec<Styled>) -> (r: Self)
        ensures
            r@ == (self@.0, self@.1, self@.2.push(help.deep_view())),
    {
        let mut helps = self.helps;
        let ghost before = helps.deep_view();
        helps.push(help);
        assert(helps.deep_view() =~= before.push(help.deep_view()));
        Error { kind: self.kind, reason: self.reason, helps }
    }

    /// An error of kind `kind`, with no reason and no hint.
    pub fn new(kind: ErrorKind) -> (r: Self)
        ensures
            r@ == plain(kind),
    {
        let r = Error { kind: Box::new(kind), reason: None, helps: Vec::new() };
        assert(r.helps.deep_view() =~= Seq::<Seq<(Style, Seq<char>)>>::empty());
        r
    }
}

/// Appends `e` to the list of reported errors.
pub fn report_error(errors: &mut Vec<Error>, e: Error)
    ensures
        errs_view(final(errors)@) == errs_view(old(errors)@).push(e@),
{
    let ghost before = errs_view(errors@);
    let ghost v = e@;
    errors.push(e);
    assert(errs_view(errors@) =~= before.push(v));
}

impl From<ParseError> for ErrorKind {
    fn from(error: ParseError) -> (r: Self) {
        ErrorKind::Beans(error)
    }
}

impl vstd::std_specs::convert::FromSpecImpl<ParseError> for ErrorKind {
    open spec fn obeys_from_spec() -> bool {
        true
    }

    open spec fn from_spec(error: ParseError) -> Self {
        ErrorKind::Beans(error)
    }
}

/// The result of an operation that may fail with an [`Error`].
pub type Result<T> = core::result::Result<T, Error>;

} // verus!
