use vstd::prelude::*;
use crate::error::display::{
    annotation, annotation_msg, annotation_text, column_size, emit_all, headline, headline_msg,
    hint_fits, hint_fits_check, in_blue, in_red, in_white, in_white_italic, join, join_strings,
    left_column_size_of, lemma_append2, lemma_append3, lemma_append4, pretty_span,
    pretty_span_hint, pretty_span_hint_msg, pretty_span_msg, span, span_msg, texts, txt, Msg,
};
use crate::error::{Error, ErrorKind, ErrorView, ParseError};
use crate::span::{find_source, lemma_shown_rows, shown_from, source_for, span_shown, Source, Span};
use crate::text::{decimal, emit, emit_str, repeat, repeat_str, usize_to_string, Style, Styled};
use crate::typing::{type_text, PartialType, Type};

verus! {

broadcast use lemma_shown_rows;

/// How a list of types is written: each type, separated by commas.
pub open spec fn type_texts(s: Seq<PartialType>) -> Seq<Seq<char>> {
    s.map_values(|t: PartialType| type_text(t))
}

/// How a fully known type is written.
pub open spec fn full_type_text(t: Type) -> Seq<char> {
    type_text(t.spec_from_basic())
}

/// The source of the file of `span` among `srcs`.
pub open spec fn src_of(srcs: Seq<Source>, span: Span) -> Source {
    match source_for(srcs, span.file@) {
        Some(src) => src,
        None => arbitrary(),
    }
}

/// The report on a span (see [`pretty_span_msg`]), from the source of its file.
pub open spec fn ps_msg(
    srcs: Seq<Source>,
    span: Span,
    underline: Seq<char>,
    message: Seq<char>,
    arrow: Seq<char>,
    show_line: bool,
) -> Msg {
    pretty_span_msg(src_of(srcs, span), span, underline, message, arrow, show_line)
}

/// The report on a span with a hint (see [`pretty_span_hint_msg`]), each from the
/// source of its own file.
pub open spec fn psh_msg(
    srcs: Seq<Source>,
    span: Span,
    message: Seq<char>,
    hint: Span,
    hint_message: Seq<char>,
) -> Msg {
    pretty_span_hint_msg(src_of(srcs, span), span, message, src_of(srcs, hint), hint, hint_message)
}

/// The hint that a syntax error gives: which tokens were expected.
pub open spec fn alternatives_text(alternatives: Seq<Seq<char>>) -> Seq<char> {
    if alternatives.len() == 0 {
        "no token would make sense here, what have you done?"@
    } else if alternatives.len() == 1 {
        "try inserting "@ + alternatives[0] + " right before"@
    } else {
        join(alternatives.drop_last(), ", "@) + " or "@ + alternatives.last() + " were expected here"@
    }
}

/// The report on a span, or with a hint when there is one.
pub open spec fn maybe_hint_msg(
    srcs: Seq<Source>,
    span: Span,
    message: Seq<char>,
    hint: Option<Span>,
    hint_message: Seq<char>,
) -> Msg {
    match hint {
        Some(h) => psh_msg(srcs, span, message, h, hint_message),
        None => ps_msg(srcs, span, "^"@, message, "-->"@, true),
    }
}

/// What an error of the parsing engine shows.
pub open spec fn parse_error_msg(p: ParseError, srcs: Seq<Source>) -> Msg {
    match p {
        ParseError::SyntaxError { name, alternatives, span } => span_msg(span) + headline_msg(
            "the token "@ + name@ + " cannot be recognized here"@,
        ) + ps_msg(srcs, span, "^"@, ""@, "-->"@, true),
        ParseError::SyntaxErrorValidPrefix { span } => span_msg(span) + headline_msg(
            "this file is syntactically valid but incomplete"@,
        ) + ps_msg(srcs, span, "^"@, "the rest of the program is missing"@, "-->"@, true),
        ParseError::LexingError { span } => span_msg(span) + headline_msg(
            "this file cannot be lexed"@,
        ) + ps_msg(srcs, span, "^"@, "unable to recognize a token here"@, "-->"@, true),
        ParseError::UnwantedToken { span, message } => span_msg(span) + headline_msg(message@)
            + ps_msg(srcs, span, "^"@, ""@, "-->"@, true),
        ParseError::Other { message } => txt(
            "The parsing engine encountered an internal error:"@ + message@ + "\n"@,
        ),
    }
}

/// The note that a function is a builtin one, under a report on `span`.
pub open spec fn builtin_note_msg(span: Span, text: Seq<char>) -> Msg {
    annotation_msg(
        repeat(" "@, column_size(span.end.0 as int)) + " "@,
        "note:"@,
        txt(text),
    )
}

/// What an error of the first group of kinds shows.
pub open spec fn kind_msg_a(k: ErrorKind, srcs: Seq<Source>) -> Msg {
    match k {
        ErrorKind::Beans(p) => parse_error_msg(p, srcs),
        ErrorKind::IoError(e) => txt("The engine encountered a io error:"@ + e@ + "\n"@),
        ErrorKind::NoMainFunction => headline_msg("expected to find symbol `main` at toplevel"@),
        ErrorKind::IncorrectMainFunctionType { ty, params, span } => span_msg(span)
            + headline_msg(
            "signature mismatch, `main` should be of type `int()`, not `"@ + full_type_text(ty)
                + "("@ + join(type_texts(params@), ", "@) + ")`"@,
        ) + ps_msg(srcs, span, "^"@, ""@, "-->"@, true),
        ErrorKind::BreakContinueOutsideLoop { span } => span_msg(span) + headline_msg(
            "break or continue statement outside of a loop"@,
        ) + ps_msg(
            srcs,
            span,
            "^"@,
            "`break` and `continue` must be within loops"@,
            "-->"@,
            true,
        ),
        ErrorKind::NameError { name, span } => span_msg(span) + headline_msg(
            "symbol `"@ + name@ + "` is undefined."@,
        ) + ps_msg(srcs, span, "^"@, "not found in this scope"@, "-->"@, true),
        ErrorKind::SymbolIsFunction { name, span, definition_span } => span_msg(span)
            + headline_msg("symbol `"@ + name@ + "` is a function, not a variable"@)
            + maybe_hint_msg(
            srcs,
            span,
            "`"@ + name@ + "` is used as a variable"@,
            definition_span,
            "`"@ + name@ + "` is defined here"@,
        ),
        ErrorKind::SymbolIsVariable { name, span, definition_span } => span_msg(span)
            + headline_msg("symbol `"@ + name@ + "` is a varaible, not a function"@)
            + maybe_hint_msg(
            srcs,
            span,
            "`"@ + name@ + "` is used as a function"@,
            definition_span,
            "`"@ + name@ + "` is defined here"@,
        ),
        _ => Seq::empty(),
    }
}

/// The report on a call with the wrong number of arguments.
pub open spec fn arity_body_msg(
    srcs: Seq<Source>,
    span: Span,
    found_arity: usize,
    expected_arity: usize,
    definition_span: Option<Span>,
    function_name: Seq<char>,
) -> Msg {
    match definition_span {
        Some(d) => psh_msg(
            srcs,
            span,
            "found "@ + decimal(found_arity as nat) + " arguments"@,
            d,
            "expected "@ + decimal(expected_arity as nat) + " arguments"@,
        ),
        None => ps_msg(
            srcs,
            span,
            "^"@,
            "found "@ + decimal(found_arity as nat) + " arguments"@,
            "-->"@,
            true,
        ) + builtin_note_msg(
            span,
            "`"@ + function_name + "` is a builtin function which takes "@ + decimal(
                expected_arity as nat,
            ) + " arguments"@,
        ),
    }
}

/// The report on a function defined twice.
pub open spec fn fun_twice_body_msg(
    srcs: Seq<Source>,
    second_definition: Span,
    first_definition: Option<Span>,
    name: Seq<char>,
) -> Msg {
    match first_definition {
        Some(f) => psh_msg(
            srcs,
            second_definition,
            "second definition found here"@,
            f,
            "first definition found here"@,
        ),
        None => ps_msg(
            srcs,
            second_definition,
            "^"@,
            "definition found here"@,
            "-->"@,
            true,
        ) + builtin_note_msg(second_definition, "`"@ + name + "` is a builtin function"@),
    }
}

/// What an error of the second group of kinds shows.
pub open spec fn kind_msg_b(k: ErrorKind, srcs: Seq<Source>) -> Msg {
    match k {
        ErrorKind::AddressOfRvalue { span, expression_span } => span_msg(span) + headline_msg(
            "cannot take the address of an rvalue expression"@,
        ) + ps_msg(
            srcs,
            expression_span,
            "^"@,
            "this expression has no address in memory"@,
            "-->"@,
            true,
        ),
        ErrorKind::DerefNonPointer { ty, span } => span_msg(span) + headline_msg(
            "cannot cast `"@ + full_type_text(ty) + "` as `_*`"@,
        ) + ps_msg(
            srcs,
            span,
            "^"@,
            "this is not a pointer, it cannot be dereferenced"@,
            "-->"@,
            true,
        ),
        ErrorKind::SymbolDefinedTwice { first_definition, second_definition, name } => span_msg(
            second_definition,
        ) + headline_msg("the symbol `"@ + name@ + "` is defined twice in the same block"@)
            + psh_msg(
            srcs,
            second_definition,
            "second definition found here"@,
            first_definition,
            "first definition found here"@,
        ),
        ErrorKind::ArityMismatch {
            found_arity,
            expected_arity,
            span,
            definition_span,
            function_name,
        } => span_msg(span) + headline_msg(
            "arity mismatch between this function call and its definition."@,
        ) + arity_body_msg(srcs, span, found_arity, expected_arity, definition_span, function_name@),
        ErrorKind::FunctionDefinedTwice { first_definition, second_definition, name } => span_msg(
            second_definition,
        ) + headline_msg("the symbol `"@ + name@ + "` is defined twice at the toplevel"@)
            + fun_twice_body_msg(srcs, second_definition, first_definition, name@),
        ErrorKind::VoidVariable { span, name } => span_msg(span) + headline_msg(
            "this symbol `"@ + name@ + "` has been declared with type `void`"@,
        ) + ps_msg(
            srcs,
            span,
            "^"@,
            "`void` is not a valid type for a variable"@,
            "-->"@,
            true,
        ),
        _ => Seq::empty(),
    }
}

/// The hint under an error on the size of `void`.
pub open spec fn sizeof_hint_msg() -> Msg {
    txt("  "@) + in_blue("="@) + txt(" "@) + in_white("hint: "@) + in_white_italic("use gcc!"@)
        + txt("\n"@)
}

/// The headline of an error whose message has a word in italics.
pub open spec fn italic_headline_msg(pre: Seq<char>, word: Seq<char>, post: Seq<char>) -> Msg {
    in_red("error"@) + in_white(": "@ + pre) + in_white_italic(word) + in_white(post) + txt(
        "\n"@,
    )
}

/// What an error of the third group of kinds shows.
pub open spec fn kind_msg_c(k: ErrorKind, srcs: Seq<Source>) -> Msg {
    match k {
        ErrorKind::VariableTypeMismatch {
            span,
            definition_span,
            expected_type,
            found_type,
            variable_name,
        } => span_msg(span) + headline_msg(
            "the symbol `"@ + variable_name@ + "` has been defined with type `"@ + type_text(
                expected_type,
            ) + "`, but it was assigned `"@ + type_text(found_type) + "`"@,
        ) + psh_msg(
            srcs,
            span,
            ""@,
            definition_span,
            "`"@ + variable_name@ + "` is defined here"@,
        ),
        ErrorKind::DerefVoidPointer { span } => span_msg(span) + headline_msg(
            "`void*` cannot be dereferenced"@,
        ) + ps_msg(srcs, span, "^"@, ""@, "-->"@, true) + annotation_msg(
            "  "@,
            "help:"@,
            txt("try casting this value to an other pointer type before dereferencing it"@),
        ),
        ErrorKind::VoidExpression { span } => span_msg(span) + headline_msg(
            "this expression has type `void`, which is forbidden"@,
        ) + ps_msg(srcs, span, "^"@, ""@, "-->"@, true) + annotation_msg(
            "  "@,
            "note:"@,
            txt("expressions with type `void` can only be discarded"@),
        ),
        ErrorKind::SizeofVoid { span } => span_msg(span) + headline_msg(
            "`void` does not have a size"@,
        ) + ps_msg(srcs, span, "^"@, ""@, "-->"@, true) + sizeof_hint_msg(),
        ErrorKind::RvalueAssignment { span } => span_msg(span) + italic_headline_msg(
            "only expressions that are "@,
            "lvalues"@,
            " can be assigned to"@,
        ) + ps_msg(srcs, span, "^"@, "cannot assign to this expression"@, "-->"@, true),
        ErrorKind::TypeMismatch { span, expected_type, found_type, origin_span } => span_msg(
            span,
        ) + headline_msg(
            "expected type `"@ + type_text(expected_type) + "`, found `"@ + type_text(found_type)
                + "` instead"@,
        ) + maybe_hint_msg(
            srcs,
            span,
            "this expression has a wrong type"@,
            origin_span,
            "conflicting type declaration"@,
        ),
        ErrorKind::IncrOrDecrRvalue { span, expression_span } => span_msg(span)
            + italic_headline_msg("only "@, "lvalue"@, " expressions can be mutated"@)
            + ps_msg(
            srcs,
            expression_span,
            "^"@,
            "cannot mutate this expression"@,
            "-->"@,
            true,
        ),
        ErrorKind::BuiltinBinopTypeMismatch { left_type, right_type, span, op } => span_msg(span)
            + headline_msg(
            "invalid operands to binary `"@ + op@ + "` for `"@ + type_text(left_type)
                + "` and `"@ + type_text(right_type) + "`"@,
        ) + ps_msg(srcs, span, "^"@, "invalid arithmetic operation"@, "-->"@, true),
        _ => Seq::empty(),
    }
}

/// Whether a kind belongs to the first group.
pub open spec fn in_group_a(k: ErrorKind) -> bool {
    k is Beans || k is IoError || k is NoMainFunction || k is IncorrectMainFunctionType
        || k is BreakContinueOutsideLoop || k is NameError || k is SymbolIsFunction
        || k is SymbolIsVariable
}

/// Whether a kind belongs to the second group.
pub open spec fn in_group_b(k: ErrorKind) -> bool {
    k is AddressOfRvalue || k is DerefNonPointer || k is SymbolDefinedTwice || k is ArityMismatch
        || k is FunctionDefinedTwice || k is VoidVariable
}

/// What the kind of an error shows, before the hints.
pub open spec fn kind_msg(k: ErrorKind, srcs: Seq<Source>) -> Msg {
    if in_group_a(k) {
        kind_msg_a(k, srcs)
    } else if in_group_b(k) {
        kind_msg_b(k, srcs)
    } else {
        kind_msg_c(k, srcs)
    }
}

/// The hint that the kind of an error adds to those of the error.
pub open spec fn kind_help(k: ErrorKind) -> Option<Msg> {
    match k {
        ErrorKind::Beans(ParseError::SyntaxError { alternatives, .. }) => Some(
            txt(alternatives_text(texts(alternatives@))),
        ),
        ErrorKind::SymbolIsFunction { name, .. } => Some(
            txt("maybe you meant to call `"@ + name@ + "`"@),
        ),
        _ => None,
    }
}

/// All the hints an error shows: its own, then the one of its kind.
pub open spec fn all_helps(e: ErrorView) -> Seq<Msg> {
    match kind_help(e.0) {
        Some(h) => e.2.push(h),
        None => e.2,
    }
}

/// The hints, one line each.
pub open spec fn helps_msg(helps: Seq<Msg>) -> Msg
    decreases helps.len(),
{
    if helps.len() == 0 {
        Seq::empty()
    } else {
        helps_msg(helps.drop_last()) + annotation_msg("  "@, "help:"@, helps.last())
    }
}

/// The note that gives the reason of an error, if it has one.
pub open spec fn reason_msg(reason: Option<Seq<char>>) -> Msg {
    match reason {
        Some(r) => annotation_msg(
            "  "@,
            "note:"@,
            txt("this error was triggered because "@ + r),
        ),
        None => Seq::empty(),
    }
}

/// What an error shows: what went wrong and where, the hints, then the reason.
pub open spec fn error_msg(e: ErrorView, srcs: Seq<Source>) -> Msg {
    kind_msg(e.0, srcs) + helps_msg(all_helps(e)) + reason_msg(e.1)
}

/// The help lines of a list of helps, one after another: those of `a`, then
/// those of `b`.
pub proof fn lemma_helps_msg_concat(a: Seq<Msg>, b: Seq<Msg>)
    ensures
        helps_msg(a + b) == helps_msg(a) + helps_msg(b),
    decreases b.len(),
{
    if b.len() == 0 {
        assert(a + b =~= a);
        assert(helps_msg(a) + helps_msg(b) =~= helps_msg(a));
    } else {
        assert((a + b).drop_last() =~= a + b.drop_last());
        lemma_helps_msg_concat(a, b.drop_last());
        assert(helps_msg(a) + helps_msg(b.drop_last()) + annotation_msg("  "@, "help:"@, b.last())
            =~= helps_msg(a) + (helps_msg(b.drop_last()) + annotation_msg("  "@, "help:"@, b.last())));
    }
}

/// What every error shows, whatever its kind: after what its kind shows, one
/// help line for each of its own helps, in the order they were added; then the
/// help line its kind adds, if any; then, exactly when it has a reason, the note
/// that gives it, last.
pub proof fn lemma_error_msg_layout(e: ErrorView, srcs: Seq<Source>)
    ensures
        error_msg(e, srcs) == kind_msg(e.0, srcs) + helps_msg(e.2) + match kind_help(e.0) {
            Some(h) => annotation_msg("  "@, "help:"@, h),
            None => Seq::empty(),
        } + match e.1 {
            Some(r) => annotation_msg("  "@, "note:"@, txt("this error was triggered because "@ + r)),
            None => Seq::<(Style, Seq<char>)>::empty(),
        },
        forall|i: int|
            0 <= i < e.2.len() ==> #[trigger] helps_msg(e.2) == helps_msg(e.2.take(i))
                + annotation_msg("  "@, "help:"@, e.2[i]) + helps_msg(e.2.skip(i + 1)),
{
    match kind_help(e.0) {
        Some(h) => {
            assert(e.2.push(h).drop_last() =~= e.2);
        },
        None => {
            assert(helps_msg(e.2) + Seq::<(Style, Seq<char>)>::empty() =~= helps_msg(e.2));
        },
    }
    match e.1 {
        Some(r) => {},
        None => {
            assert(kind_msg(e.0, srcs) + helps_msg(all_helps(e)) + Seq::<(Style, Seq<char>)>::empty()
                =~= kind_msg(e.0, srcs) + helps_msg(all_helps(e)));
        },
    }
    assert forall|i: int|
        0 <= i < e.2.len() implies #[trigger] helps_msg(e.2) == helps_msg(e.2.take(i))
            + annotation_msg("  "@, "help:"@, e.2[i]) + helps_msg(e.2.skip(i + 1)) by {
        lemma_helps_msg_at(e.2, i);
    }
}

/// The help lines of `hs` hold the one of its `i`-th help between those of
/// the helps before it and those of the helps after it.
proof fn lemma_helps_msg_at(hs: Seq<Msg>, i: int)
    requires
        0 <= i < hs.len(),
    ensures
        helps_msg(hs) == helps_msg(hs.take(i)) + annotation_msg("  "@, "help:"@, hs[i])
            + helps_msg(hs.skip(i + 1)),
{
    let one = seq![hs[i]];
    assert(hs =~= hs.take(i) + one + hs.skip(i + 1));
    lemma_helps_msg_concat(hs.take(i) + one, hs.skip(i + 1));
    lemma_helps_msg_concat(hs.take(i), one);
    assert(one.drop_last() =~= Seq::<Msg>::empty());
    assert(one.last() == hs[i]);
    assert(helps_msg(one.drop_last()) =~= Seq::<(Style, Seq<char>)>::empty());
    assert(helps_msg(one) =~= annotation_msg("  "@, "help:"@, hs[i]));
}

/// Whether a span and an optional hint can be shown together.
pub open spec fn opt_hint_fits(srcs: Seq<Source>, span: Span, hint: Option<Span>) -> bool {
    match hint {
        Some(h) => shown_from(srcs, h) && hint_fits(span, h),
        None => true,
    }
}

/// Whether every span of an error can be shown from `srcs`.
pub open spec fn kind_fits(k: ErrorKind, srcs: Seq<Source>) -> bool {
    match k {
        ErrorKind::Beans(p) => match p {
            ParseError::SyntaxError { span, .. } => shown_from(srcs, span),
            ParseError::SyntaxErrorValidPrefix { span } => shown_from(srcs, span),
            ParseError::LexingError { span } => shown_from(srcs, span),
            ParseError::UnwantedToken { span, .. } => shown_from(srcs, span),
            ParseError::Other { .. } => true,
        },
        ErrorKind::IoError(_) => true,
        ErrorKind::NoMainFunction => true,
        ErrorKind::AddressOfRvalue { span, expression_span } => shown_from(srcs, span)
            && shown_from(srcs, expression_span),
        ErrorKind::DerefNonPointer { span, .. } => shown_from(srcs, span),
        ErrorKind::IncorrectMainFunctionType { span, .. } => shown_from(srcs, span),
        ErrorKind::BreakContinueOutsideLoop { span } => shown_from(srcs, span),
        ErrorKind::NameError { span, .. } => shown_from(srcs, span),
        ErrorKind::SymbolDefinedTwice { first_definition, second_definition, .. } => shown_from(
            srcs,
            second_definition,
        ) && shown_from(srcs, first_definition) && hint_fits(second_definition, first_definition),
        ErrorKind::FunctionDefinedTwice { first_definition, second_definition, .. } => shown_from(
            srcs,
            second_definition,
        ) && opt_hint_fits(srcs, second_definition, first_definition),
        ErrorKind::ArityMismatch { span, definition_span, .. } => shown_from(srcs, span)
            && opt_hint_fits(srcs, span, definition_span),
        ErrorKind::VoidVariable { span, .. } => shown_from(srcs, span),
        ErrorKind::VoidExpression { span } => shown_from(srcs, span),
        ErrorKind::DerefVoidPointer { span } => shown_from(srcs, span),
        ErrorKind::VariableTypeMismatch { span, definition_span, .. } => shown_from(srcs, span)
            && shown_from(srcs, definition_span) && hint_fits(span, definition_span),
        ErrorKind::SizeofVoid { span } => shown_from(srcs, span),
        ErrorKind::RvalueAssignment { span } => shown_from(srcs, span),
        ErrorKind::TypeMismatch { span, origin_span, .. } => shown_from(srcs, span) && opt_hint_fits(
            srcs,
            span,
            origin_span,
        ),
        ErrorKind::IncrOrDecrRvalue { span, expression_span } => shown_from(srcs, span)
            && shown_from(srcs, expression_span),
        ErrorKind::SymbolIsFunction { span, definition_span, .. } => shown_from(srcs, span)
            && opt_hint_fits(srcs, span, definition_span),
        ErrorKind::SymbolIsVariable { span, definition_span, .. } => shown_from(srcs, span)
            && opt_hint_fits(srcs, span, definition_span),
        ErrorKind::BuiltinBinopTypeMismatch { span, .. } => shown_from(srcs, span),
    }
}

/// The source of the file of `span` among `srcs`, where it can be shown.
fn source_of<'a>(srcs: &'a Vec<Source>, span: &Span) -> (r: &'a Source)
    requires
        shown_from(srcs@, *span),
    ensures
        *r == src_of(srcs@, *span),
        r.wf(),
        r.fits(*span),
        span.start.0 < usize::MAX,
        span.end.0 < usize::MAX,
{
    match find_source(srcs, span) {
        Some(src) => src,
        None => unreached(),
    }
}

/// Writes the report on `span`, from the source of its file (see [`pretty_span`]).
fn ps(
    srcs: &Vec<Source>,
    span: &Span,
    underline: &str,
    message: &str,
    arrow: &str,
    show_line: bool,
    out: &mut Vec<Styled>,
)
    requires
        shown_from(srcs@, *span),
    ensures
        final(out).deep_view() == old(out).deep_view() + ps_msg(
            srcs@,
            *span,
            underline@,
            message@,
            arrow@,
            show_line,
        ),
{
    pretty_span(source_of(srcs, span), span, underline, message, arrow, show_line, out);
}

/// Writes the report on `span` with a hint on `hint_span`, each from the source of
/// its own file (see [`pretty_span_hint`]).
fn psh(
    srcs: &Vec<Source>,
    span: &Span,
    message: &str,
    hint_span: &Span,
    hint_message: &str,
    out: &mut Vec<Styled>,
)
    requires
        shown_from(srcs@, *span),
        shown_from(srcs@, *hint_span),
        hint_fits(*span, *hint_span),
    ensures
        final(out).deep_view() == old(out).deep_view() + psh_msg(
            srcs@,
            *span,
            message@,
            *hint_span,
            hint_message@,
        ),
{
    let src = source_of(srcs, span);
    let hint_src = source_of(srcs, hint_span);
    pretty_span_hint(src, span, message, hint_src, hint_span, hint_message, out);
}

/// The hint that a syntax error gives: which tokens were expected.
fn alternatives_string(alternatives: &Vec<String>) -> (s: String)
    ensures
        s@ == alternatives_text(texts(alternatives@)),
{
    let n = alternatives.len();
    if n == 0 {
        String::from_str("no token would make sense here, what have you done?")
    } else if n == 1 {
        let mut s = String::from_str("try inserting ");
        s.append(alternatives[0].as_str());
        s.append(" right before");
        s
    } else {
        let mut s = join_strings(alternatives, n - 1, ", ");
        s.append(" or ");
        s.append(alternatives[n - 1].as_str());
        s.append(" were expected here");
        assert(texts(alternatives@).drop_last() =~= texts(alternatives@.subrange(0, n - 1)));
        s
    }
}

/// How a list of types is written: each type, separated by commas.
fn type_list(params: &Vec<PartialType>) -> (s: String)
    ensures
        s@ == join(type_texts(params@), ", "@),
{
    let mut s = String::new();
    let mut i: usize = 0;
    while i < params.len()
        invariant
            i <= params.len(),
            s@ == join(type_texts(params@.subrange(0, i as int)), ", "@),
        decreases params.len() - i,
    {
        let ghost next = type_texts(params@.subrange(0, i + 1));
        assert(next.drop_last() =~= type_texts(params@.subrange(0, i as int)));
        if i > 0 {
            s.append(", ");
        } else {
            assert(s@ =~= Seq::<char>::empty());
        }
        let t = params[i].name();
        s.append(t.as_str());
        assert(s@ =~= join(next, ", "@));
        i = i + 1;
    }
    assert(params@.subrange(0, i as int) =~= params@);
    s
}

/// Writes the report on `sp`, with a hint when there is one.
fn maybe_hint(
    srcs: &Vec<Source>,
    sp: &Span,
    message: &str,
    hint: &Option<Span>,
    hint_message: &str,
    out: &mut Vec<Styled>,
)
    requires
        shown_from(srcs@, *sp),
        opt_hint_fits(srcs@, *sp, *hint),
    ensures
        final(out).deep_view() == old(out).deep_view() + maybe_hint_msg(
            srcs@,
            *sp,
            message@,
            *hint,
            hint_message@,
        ),
{
    match hint {
        Some(h) => psh(srcs, sp, message, h, hint_message, out),
        None => ps(srcs, sp, "^", message, "-->", true, out),
    }
}

/// Writes the note that a function is a builtin one, under a report on `sp`.
fn builtin_note(sp: &Span, text: &str, out: &mut Vec<Styled>)
    requires
        sp.end.0 < usize::MAX,
    ensures
        final(out).deep_view() == old(out).deep_view() + builtin_note_msg(*sp, text@),
{
    let mut indent = repeat_str(" ", left_column_size_of(sp.end.0));
    indent.append(" ");
    annotation_text(indent.as_str(), "note:", text, out);
}

/// Writes what an error of the parsing engine shows.
fn render_parse_error(p: &ParseError, srcs: &Vec<Source>, out: &mut Vec<Styled>)
    requires
        kind_fits(ErrorKind::Beans(*p), srcs@),
    ensures
        final(out).deep_view() == old(out).deep_view() + parse_error_msg(*p, srcs@),
{
    let ghost before = out.deep_view();
    match p {
        ParseError::SyntaxError { name, alternatives, span: sp } => {
            span(sp, out);
            let mut m = String::from_str("the token ");
            m.append(name.as_str());
            m.append(" cannot be recognized here");
            headline(m.as_str(), out);
            ps(srcs, sp, "^", "", "-->", true, out);
            proof {
                lemma_append3(
                    before,
                    span_msg(*sp),
                    headline_msg(m@),
                    ps_msg(srcs@, *sp, "^"@, ""@, "-->"@, true),
                );
            }
        },
        ParseError::SyntaxErrorValidPrefix { span: sp } => {
            span(sp, out);
            headline("this file is syntactically valid but incomplete", out);
            ps(srcs, sp, "^", "the rest of the program is missing", "-->", true, out);
            proof {
                lemma_append3(
                    before,
                    span_msg(*sp),
                    headline_msg("this file is syntactically valid but incomplete"@),
                    ps_msg(
                        srcs@,
                        *sp,
                        "^"@,
                        "the rest of the program is missing"@,
                        "-->"@,
                        true,
                    ),
                );
            }
        },
        ParseError::LexingError { span: sp } => {
            span(sp, out);
            headline("this file cannot be lexed", out);
            ps(srcs, sp, "^", "unable to recognize a token here", "-->", true, out);
            proof {
                lemma_append3(
                    before,
                    span_msg(*sp),
                    headline_msg("this file cannot be lexed"@),
                    ps_msg(
                        srcs@,
                        *sp,
                        "^"@,
                        "unable to recognize a token here"@,
                        "-->"@,
                        true,
                    ),
                );
            }
        },
        ParseError::UnwantedToken { span: sp, message } => {
            span(sp, out);
            headline(message.as_str(), out);
            ps(srcs, sp, "^", "", "-->", true, out);
            proof {
                lemma_append3(
                    before,
                    span_msg(*sp),
                    headline_msg(message@),
                    ps_msg(srcs@, *sp, "^"@, ""@, "-->"@, true),
                );
            }
        },
        ParseError::Other { message } => {
            let mut m = String::from_str("The parsing engine encountered an internal error:");
            m.append(message.as_str());
            m.append("\n");
            emit(out, Style::plain(), m);
            assert(out.deep_view() =~= before + parse_error_msg(*p, srcs@));
        },
    }
}

/// Writes what an error of the first group of kinds shows.
fn render_a(k: &ErrorKind, srcs: &Vec<Source>, out: &mut Vec<Styled>)
    requires
        kind_fits(*k, srcs@),
        in_group_a(*k),
    ensures
        final(out).deep_view() == old(out).deep_view() + kind_msg_a(*k, srcs@),
{
    let ghost before = out.deep_view();
    match k {
        ErrorKind::Beans(p) => render_parse_error(p, srcs, out),
        ErrorKind::IoError(e) => {
            let mut m = String::from_str("The engine encountered a io error:");
            m.append(e.as_str());
            m.append("\n");
            emit(out, Style::plain(), m);
            assert(out.deep_view() =~= before + kind_msg_a(*k, srcs@));
        },
        ErrorKind::NoMainFunction => {
            headline("expected to find symbol `main` at toplevel", out);
        },
        ErrorKind::IncorrectMainFunctionType { ty, params, span: sp } => {
            span(sp, out);
            let mut m = String::from_str("signature mismatch, `main` should be of type `int()`, not `");
            m.append(ty.from_basic().name().as_str());
            m.append("(");
            m.append(type_list(params).as_str());
            m.append(")`");
            headline(m.as_str(), out);
            ps(srcs, sp, "^", "", "-->", true, out);
            proof {
                lemma_append3(
                    before,
                    span_msg(*sp),
                    headline_msg(m@),
                    ps_msg(srcs@, *sp, "^"@, ""@, "-->"@, true),
                );
            }
        },
        ErrorKind::BreakContinueOutsideLoop { span: sp } => {
            span(sp, out);
            headline("break or continue statement outside of a loop", out);
            ps(
                srcs,
                sp,
                "^",
                "`break` and `continue` must be within loops",
                "-->",
                true,
                out,
            );
            proof {
                lemma_append3(
                    before,
                    span_msg(*sp),
                    headline_msg("break or continue statement outside of a loop"@),
                    ps_msg(
                        srcs@,
                        *sp,
                        "^"@,
                        "`break` and `continue` must be within loops"@,
                        "-->"@,
                        true,
                    ),
                );
            }
        },
        ErrorKind::NameError { name, span: sp } => {
            span(sp, out);
            let mut m = String::from_str("symbol `");
            m.append(name.as_str());
            m.append("` is undefined.");
            headline(m.as_str(), out);
            ps(srcs, sp, "^", "not found in this scope", "-->", true, out);
            proof {
                lemma_append3(
                    before,
                    span_msg(*sp),
                    headline_msg(m@),
                    ps_msg(srcs@, *sp, "^"@, "not found in this scope"@, "-->"@, true),
                );
            }
        },
        ErrorKind::SymbolIsFunction { name, span: sp, definition_span } => {
            span(sp, out);
            let mut m = String::from_str("symbol `");
            m.append(name.as_str());
            m.append("` is a function, not a variable");
            headline(m.as_str(), out);
            let mut used = String::from_str("`");
            used.append(name.as_str());
            used.append("` is used as a variable");
            let mut defined = String::from_str("`");
            defined.append(name.as_str());
            defined.append("` is defined here");
            maybe_hint(srcs, sp, used.as_str(), definition_span, defined.as_str(), out);
            proof {
                lemma_append3(
                    before,
                    span_msg(*sp),
                    headline_msg(m@),
                    maybe_hint_msg(srcs@, *sp, used@, *definition_span, defined@),
                );
            }
        },
        ErrorKind::SymbolIsVariable { name, span: sp, definition_span } => {
            span(sp, out);
            let mut m = String::from_str("symbol `");
            m.append(name.as_str());
            m.append("` is a varaible, not a function");
            headline(m.as_str(), out);
            let mut used = String::from_str("`");
            used.append(name.as_str());
            used.append("` is used as a function");
            let mut defined = String::from_str("`");
            defined.append(name.as_str());
            defined.append("` is defined here");
            maybe_hint(srcs, sp, used.as_str(), definition_span, defined.as_str(), out);
            proof {
                lemma_append3(
                    before,
                    span_msg(*sp),
                    headline_msg(m@),
                    maybe_hint_msg(srcs@, *sp, used@, *definition_span, defined@),
                );
            }
        },
        _ => {},
    }
}

/// Writes the report on a call with the wrong number of arguments.
fn arity_body(
    srcs: &Vec<Source>,
    sp: &Span,
    found_arity: usize,
    expected_arity: usize,
    definition_span: &Option<Span>,
    function_name: &str,
    out: &mut Vec<Styled>,
)
    requires
        shown_from(srcs@, *sp),
        opt_hint_fits(srcs@, *sp, *definition_span),
    ensures
        final(out).deep_view() == old(out).deep_view() + arity_body_msg(
            srcs@,
            *sp,
            found_arity,
            expected_arity,
            *definition_span,
            function_name@,
        ),
{
    let ghost before = out.deep_view();
    let mut found = String::from_str("found ");
    found.append(usize_to_string(found_arity).as_str());
    found.append(" arguments");
    match definition_span {
        Some(d) => {
            let mut expected = String::from_str("expected ");
            expected.append(usize_to_string(expected_arity).as_str());
            expected.append(" arguments");
            psh(srcs, sp, found.as_str(), d, expected.as_str(), out);
        },
        None => {
            ps(srcs, sp, "^", found.as_str(), "-->", true, out);
            let mut note = String::from_str("`");
            note.append(function_name);
            note.append("` is a builtin function which takes ");
            note.append(usize_to_string(expected_arity).as_str());
            note.append(" arguments");
            builtin_note(sp, note.as_str(), out);
            proof {
                lemma_append2(
                    before,
                    ps_msg(srcs@, *sp, "^"@, found@, "-->"@, true),
                    builtin_note_msg(*sp, note@),
                );
            }
        },
    }
}

/// Writes the report on a function defined twice.
fn fun_twice_body(
    srcs: &Vec<Source>,
    second_definition: &Span,
    first_definition: &Option<Span>,
    name: &str,
    out: &mut Vec<Styled>,
)
    requires
        shown_from(srcs@, *second_definition),
        opt_hint_fits(srcs@, *second_definition, *first_definition),
    ensures
        final(out).deep_view() == old(out).deep_view() + fun_twice_body_msg(
            srcs@,
            *second_definition,
            *first_definition,
            name@,
        ),
{
    let ghost before = out.deep_view();
    match first_definition {
        Some(f) => {
            psh(
                srcs,
                second_definition,
                "second definition found here",
                f,
                "first definition found here",
                out,
            );
        },
        None => {
            ps(srcs, second_definition, "^", "definition found here", "-->", true, out);
            let mut note = String::from_str("`");
            note.append(name);
            note.append("` is a builtin function");
            builtin_note(second_definition, note.as_str(), out);
            proof {
                lemma_append2(
                    before,
                    ps_msg(
                        srcs@,
                        *second_definition,
                        "^"@,
                        "definition found here"@,
                        "-->"@,
                        true,
                    ),
                    builtin_note_msg(*second_definition, note@),
                );
            }
        },
    }
}

/// Writes what an error of the second group of kinds shows.
fn render_b(k: &ErrorKind, srcs: &Vec<Source>, out: &mut Vec<Styled>)
    requires
        kind_fits(*k, srcs@),
        in_group_b(*k),
    ensures
        final(out).deep_view() == old(out).deep_view() + kind_msg_b(*k, srcs@),
{
    let ghost before = out.deep_view();
    match k {
        ErrorKind::AddressOfRvalue { span: sp, expression_span } => {
            span(sp, out);
            headline("cannot take the address of an rvalue expression", out);
            ps(
                srcs,
                expression_span,
                "^",
                "this expression has no address in memory",
                "-->",
                true,
                out,
            );
            proof {
                lemma_append3(
                    before,
                    span_msg(*sp),
                    headline_msg("cannot take the address of an rvalue expression"@),
                    ps_msg(
                        srcs@,
                        *expression_span,
                        "^"@,
                        "this expression has no address in memory"@,
                        "-->"@,
                        true,
                    ),
                );
            }
        },
        ErrorKind::DerefNonPointer { ty, span: sp } => {
            span(sp, out);
            let mut m = String::from_str("cannot cast `");
            m.append(ty.from_basic().name().as_str());
            m.append("` as `_*`");
            headline(m.as_str(), out);
            ps(
                srcs,
                sp,
                "^",
                "this is not a pointer, it cannot be dereferenced",
                "-->",
                true,
                out,
            );
            proof {
                lemma_append3(
                    before,
                    span_msg(*sp),
                    headline_msg(m@),
                    ps_msg(
                        srcs@,
                        *sp,
                        "^"@,
                        "this is not a pointer, it cannot be dereferenced"@,
                        "-->"@,
                        true,
                    ),
                );
            }
        },
        ErrorKind::SymbolDefinedTwice { first_definition, second_definition, name } => {
            span(second_definition, out);
            let mut m = String::from_str("the symbol `");
            m.append(name.as_str());
            m.append("` is defined twice in the same block");
            headline(m.as_str(), out);
            psh(
                srcs,
                second_definition,
                "second definition found here",
                first_definition,
                "first definition found here",
                out,
            );
            proof {
                lemma_append3(
                    before,
                    span_msg(*second_definition),
                    headline_msg(m@),
                    psh_msg(
                        srcs@,
                        *second_definition,
                        "second definition found here"@,
                        *first_definition,
                        "first definition found here"@,
                    ),
                );
            }
        },
        ErrorKind::ArityMismatch {
            found_arity,
            expected_arity,
            span: sp,
            definition_span,
            function_name,
        } => {
            span(sp, out);
            headline("arity mismatch between this function call and its definition.", out);
            arity_body(
                srcs,
                sp,
                *found_arity,
                *expected_arity,
                definition_span,
                function_name.as_str(),
                out,
            );
            proof {
                lemma_append3(
                    before,
                    span_msg(*sp),
                    headline_msg(
                        "arity mismatch between this function call and its definition."@,
                    ),
                    arity_body_msg(
                        srcs@,
                        *sp,
                        *found_arity,
                        *expected_arity,
                        *definition_span,
                        function_name@,
                    ),
                );
            }
        },
        ErrorKind::FunctionDefinedTwice { first_definition, second_definition, name } => {
            span(second_definition, out);
            let mut m = String::from_str("the symbol `");
            m.append(name.as_str());
            m.append("` is defined twice at the toplevel");
            headline(m.as_str(), out);
            fun_twice_body(srcs, second_definition, first_definition, name.as_str(), out);
            proof {
                lemma_append3(
                    before,
                    span_msg(*second_definition),
                    headline_msg(m@),
                    fun_twice_body_msg(srcs@, *second_definition, *first_definition, name@),
                );
            }
        },
        ErrorKind::VoidVariable { span: sp, name } => {
            span(sp, out);
            let mut m = String::from_str("this symbol `");
            m.append(name.as_str());
            m.append("` has been declared with type `void`");
            headline(m.as_str(), out);
            ps(
                srcs,
                sp,
                "^",
                "`void` is not a valid type for a variable",
                "-->",
                true,
                out,
            );
            proof {
                lemma_append3(
                    before,
                    span_msg(*sp),
                    headline_msg(m@),
                    ps_msg(
                        srcs@,
                        *sp,
                        "^"@,
                        "`void` is not a valid type for a variable"@,
                        "-->"@,
                        true,
                    ),
                );
            }
        },
        _ => {},
    }
}

/// Writes the hint under an error on the size of `void`.
fn sizeof_hint(out: &mut Vec<Styled>)
    ensures
        final(out).deep_view() == old(out).deep_view() + sizeof_hint_msg(),
{
    let ghost before = out.deep_view();
    emit_str(out, Style::plain(), "  ");
    emit_str(out, Style::blue(), "=");
    emit_str(out, Style::plain(), " ");
    emit_str(out, Style::white(), "hint: ");
    emit_str(out, Style::white().italic(), "use gcc!");
    emit_str(out, Style::plain(), "\n");
    assert(out.deep_view() =~= before + sizeof_hint_msg());
}

/// Writes the headline of an error whose message has `word` in italics.
fn italic_headline(pre: &str, word: &str, post: &str, out: &mut Vec<Styled>)
    ensures
        final(out).deep_view() == old(out).deep_view() + italic_headline_msg(pre@, word@, post@),
{
    let ghost before = out.deep_view();
    emit_str(out, Style::red(), "error");
    let mut s = String::from_str(": ");
    s.append(pre);
    emit(out, Style::white(), s);
    emit_str(out, Style::white().italic(), word);
    emit_str(out, Style::white(), post);
    emit_str(out, Style::plain(), "\n");
    assert(out.deep_view() =~= before + italic_headline_msg(pre@, word@, post@));
}

/// Writes what an error of the third group of kinds shows, for its first kinds.
#[verifier::spinoff_prover]
#[verifier::rlimit(40)]
fn render_c1(k: &ErrorKind, srcs: &Vec<Source>, out: &mut Vec<Styled>)
    requires
        kind_fits(*k, srcs@),
        k is VariableTypeMismatch || k is DerefVoidPointer || k is VoidExpression
            || k is SizeofVoid,
    ensures
        final(out).deep_view() == old(out).deep_view() + kind_msg_c(*k, srcs@),
{
    let ghost before = out.deep_view();
    match k {
        ErrorKind::VariableTypeMismatch {
            span: sp,
            definition_span,
            expected_type,
            found_type,
            variable_name,
        } => {
            span(sp, out);
            let mut m = String::from_str("the symbol `");
            m.append(variable_name.as_str());
            m.append("` has been defined with type `");
            m.append(expected_type.name().as_str());
            m.append("`, but it was assigned `");
            m.append(found_type.name().as_str());
            m.append("`");
            headline(m.as_str(), out);
            let mut defined = String::from_str("`");
            defined.append(variable_name.as_str());
            defined.append("` is defined here");
            psh(srcs, sp, "", definition_span, defined.as_str(), out);
            proof {
                lemma_append3(
                    before,
                    span_msg(*sp),
                    headline_msg(m@),
                    psh_msg(srcs@, *sp, ""@, *definition_span, defined@),
                );
            }
        },
        ErrorKind::DerefVoidPointer { span: sp } => {
            span(sp, out);
            headline("`void*` cannot be dereferenced", out);
            ps(srcs, sp, "^", "", "-->", true, out);
            annotation_text(
                "  ",
                "help:",
                "try casting this value to an other pointer type before dereferencing it",
                out,
            );
            proof {
                lemma_append4(
                    before,
                    span_msg(*sp),
                    headline_msg("`void*` cannot be dereferenced"@),
                    ps_msg(srcs@, *sp, "^"@, ""@, "-->"@, true),
                    annotation_msg(
                        "  "@,
                        "help:"@,
                        txt(
                            "try casting this value to an other pointer type before dereferencing it"@,
                        ),
                    ),
                );
            }
        },
        ErrorKind::VoidExpression { span: sp } => {
            span(sp, out);
            headline("this expression has type `void`, which is forbidden", out);
            ps(srcs, sp, "^", "", "-->", true, out);
            annotation_text(
                "  ",
                "note:",
                "expressions with type `void` can only be discarded",
                out,
            );
            proof {
                lemma_append4(
                    before,
                    span_msg(*sp),
                    headline_msg("this expression has type `void`, which is forbidden"@),
                    ps_msg(srcs@, *sp, "^"@, ""@, "-->"@, true),
                    annotation_msg(
                        "  "@,
                        "note:"@,
                        txt("expressions with type `void` can only be discarded"@),
                    ),
                );
            }
        },
        ErrorKind::SizeofVoid { span: sp } => {
            span(sp, out);
            headline("`void` does not have a size", out);
            ps(srcs, sp, "^", "", "-->", true, out);
            sizeof_hint(out);
            proof {
                lemma_append4(
                    before,
                    span_msg(*sp),
                    headline_msg("`void` does not have a size"@),
                    ps_msg(srcs@, *sp, "^"@, ""@, "-->"@, true),
                    sizeof_hint_msg(),
                );
            }
        },
        _ => {},
    }
}

/// Writes what an error of the third group of kinds shows, for its last kinds.
fn render_c2(k: &ErrorKind, srcs: &Vec<Source>, out: &mut Vec<Styled>)
    requires
        kind_fits(*k, srcs@),
        k is RvalueAssignment || k is TypeMismatch || k is IncrOrDecrRvalue
            || k is BuiltinBinopTypeMismatch,
    ensures
        final(out).deep_view() == old(out).deep_view() + kind_msg_c(*k, srcs@),
{
    let ghost before = out.deep_view();
    match k {
        ErrorKind::RvalueAssignment { span: sp } => {
            span(sp, out);
            italic_headline("only expressions that are ", "lvalues", " can be assigned to", out);
            ps(srcs, sp, "^", "cannot assign to this expression", "-->", true, out);
            proof {
                lemma_append3(
                    before,
                    span_msg(*sp),
                    italic_headline_msg(
                        "only expressions that are "@,
                        "lvalues"@,
                        " can be assigned to"@,
                    ),
                    ps_msg(
                        srcs@,
                        *sp,
                        "^"@,
                        "cannot assign to this expression"@,
                        "-->"@,
                        true,
                    ),
                );
            }
        },
        ErrorKind::TypeMismatch { span: sp, expected_type, found_type, origin_span } => {
            span(sp, out);
            let mut m = String::from_str("expected type `");
            m.append(expected_type.name().as_str());
            m.append("`, found `");
            m.append(found_type.name().as_str());
            m.append("` instead");
            headline(m.as_str(), out);
            maybe_hint(
                srcs,
                sp,
                "this expression has a wrong type",
                origin_span,
                "conflicting type declaration",
                out,
            );
            proof {
                lemma_append3(
                    before,
                    span_msg(*sp),
                    headline_msg(m@),
                    maybe_hint_msg(
                        srcs@,
                        *sp,
                        "this expression has a wrong type"@,
                        *origin_span,
                        "conflicting type declaration"@,
                    ),
                );
            }
        },
        ErrorKind::IncrOrDecrRvalue { span: sp, expression_span } => {
            span(sp, out);
            italic_headline("only ", "lvalue", " expressions can be mutated", out);
            ps(
                srcs,
                expression_span,
                "^",
                "cannot mutate this expression",
                "-->",
                true,
                out,
            );
            proof {
                lemma_append3(
                    before,
                    span_msg(*sp),
                    italic_headline_msg("only "@, "lvalue"@, " expressions can be mutated"@),
                    ps_msg(
                        srcs@,
                        *expression_span,
                        "^"@,
                        "cannot mutate this expression"@,
                        "-->"@,
                        true,
                    ),
                );
            }
        },
        ErrorKind::BuiltinBinopTypeMismatch { left_type, right_type, span: sp, op } => {
            span(sp, out);
            let mut m = String::from_str("invalid operands to binary `");
            m.append(op);
            m.append("` for `");
            m.append(left_type.name().as_str());
            m.append("` and `");
            m.append(right_type.name().as_str());
            m.append("`");
            headline(m.as_str(), out);
            ps(srcs, sp, "^", "invalid arithmetic operation", "-->", true, out);
            proof {
                lemma_append3(
                    before,
                    span_msg(*sp),
                    headline_msg(m@),
                    ps_msg(srcs@, *sp, "^"@, "invalid arithmetic operation"@, "-->"@, true),
                );
            }
        },
        _ => {},
    }
}

/// Writes what the kind of an error shows, before the hints.
fn render_kind(k: &ErrorKind, srcs: &Vec<Source>, out: &mut Vec<Styled>)
    requires
        kind_fits(*k, srcs@),
    ensures
        final(out).deep_view() == old(out).deep_view() + kind_msg(*k, srcs@),
{
    match k {
        ErrorKind::Beans(_)
        | ErrorKind::IoError(_)
        | ErrorKind::NoMainFunction
        | ErrorKind::IncorrectMainFunctionType { .. }
        | ErrorKind::BreakContinueOutsideLoop { .. }
        | ErrorKind::NameError { .. }
        | ErrorKind::SymbolIsFunction { .. }
        | ErrorKind::SymbolIsVariable { .. } => render_a(k, srcs, out),
        ErrorKind::AddressOfRvalue { .. }
        | ErrorKind::DerefNonPointer { .. }
        | ErrorKind::SymbolDefinedTwice { .. }
        | ErrorKind::ArityMismatch { .. }
        | ErrorKind::FunctionDefinedTwice { .. }
        | ErrorKind::VoidVariable { .. } => render_b(k, srcs, out),
        ErrorKind::VariableTypeMismatch { .. }
        | ErrorKind::DerefVoidPointer { .. }
        | ErrorKind::VoidExpression { .. }
        | ErrorKind::SizeofVoid { .. } => render_c1(k, srcs, out),
        _ => render_c2(k, srcs, out),
    }
}

/// Whether a span and an optional hint can be shown together from `srcs`.
fn opt_hint_fits_check(srcs: &Vec<Source>, span: &Span, hint: &Option<Span>) -> (b: bool)
    ensures
        b == opt_hint_fits(srcs@, *span, *hint),
{
    match hint {
        Some(h) => span_shown(srcs, h) && hint_fits_check(span, h),
        None => true,
    }
}

/// Whether every span of an error of kind `k` can be shown from `srcs`.
pub fn kind_fits_check(k: &ErrorKind, srcs: &Vec<Source>) -> (b: bool)
    ensures
        b == kind_fits(*k, srcs@),
{
    match k {
        ErrorKind::Beans(p) => match p {
            ParseError::SyntaxError { span: sp, .. } => span_shown(srcs, sp),
            ParseError::SyntaxErrorValidPrefix { span: sp } => span_shown(srcs, sp),
            ParseError::LexingError { span: sp } => span_shown(srcs, sp),
            ParseError::UnwantedToken { span: sp, .. } => span_shown(srcs, sp),
            ParseError::Other { .. } => true,
        },
        ErrorKind::IoError(_) => true,
        ErrorKind::NoMainFunction => true,
        ErrorKind::AddressOfRvalue { span: sp, expression_span } => span_shown(srcs, sp)
            && span_shown(srcs, expression_span),
        ErrorKind::DerefNonPointer { span: sp, .. } => span_shown(srcs, sp),
        ErrorKind::IncorrectMainFunctionType { span: sp, .. } => span_shown(srcs, sp),
        ErrorKind::BreakContinueOutsideLoop { span: sp } => span_shown(srcs, sp),
        ErrorKind::NameError { span: sp, .. } => span_shown(srcs, sp),
        ErrorKind::SymbolDefinedTwice { first_definition, second_definition, .. } => span_shown(
            srcs,
            second_definition,
        ) && span_shown(srcs, first_definition) && hint_fits_check(
            second_definition,
            first_definition,
        ),
        ErrorKind::FunctionDefinedTwice { first_definition, second_definition, .. } => span_shown(
            srcs,
            second_definition,
        ) && opt_hint_fits_check(srcs, second_definition, first_definition),
        ErrorKind::ArityMismatch { span: sp, definition_span, .. } => span_shown(srcs, sp)
            && opt_hint_fits_check(srcs, sp, definition_span),
        ErrorKind::VoidVariable { span: sp, .. } => span_shown(srcs, sp),
        ErrorKind::VoidExpression { span: sp } => span_shown(srcs, sp),
        ErrorKind::DerefVoidPointer { span: sp } => span_shown(srcs, sp),
        ErrorKind::VariableTypeMismatch { span: sp, definition_span, .. } => span_shown(srcs, sp)
            && span_shown(srcs, definition_span) && hint_fits_check(sp, definition_span),
        ErrorKind::SizeofVoid { span: sp } => span_shown(srcs, sp),
        ErrorKind::RvalueAssignment { span: sp } => span_shown(srcs, sp),
        ErrorKind::TypeMismatch { span: sp, origin_span, .. } => span_shown(srcs, sp)
            && opt_hint_fits_check(srcs, sp, origin_span),
        ErrorKind::IncrOrDecrRvalue { span: sp, expression_span } => span_shown(srcs, sp)
            && span_shown(srcs, expression_span),
        ErrorKind::SymbolIsFunction { span: sp, definition_span, .. } => span_shown(srcs, sp)
            && opt_hint_fits_check(srcs, sp, definition_span),
        ErrorKind::SymbolIsVariable { span: sp, definition_span, .. } => span_shown(srcs, sp)
            && opt_hint_fits_check(srcs, sp, definition_span),
        ErrorKind::BuiltinBinopTypeMismatch { span: sp, .. } => span_shown(srcs, sp),
    }
}

/// Writes the hint that the kind of an error adds, if it adds one.
fn render_kind_help(k: &ErrorKind, out: &mut Vec<Styled>)
    ensures
        final(out).deep_view() == old(out).deep_view() + match kind_help(*k) {
            Some(h) => annotation_msg("  "@, "help:"@, h),
            None => Seq::empty(),
        },
{
    let ghost before = out.deep_view();
    match k {
        ErrorKind::Beans(ParseError::SyntaxError { alternatives, .. }) => {
            let t = alternatives_string(alternatives);
            annotation_text("  ", "help:", t.as_str(), out);
        },
        ErrorKind::SymbolIsFunction { name, .. } => {
            let mut t = String::from_str("maybe you meant to call `");
            t.append(name.as_str());
            t.append("`");
            annotation_text("  ", "help:", t.as_str(), out);
        },
        _ => {
            assert(out.deep_view() =~= before + Seq::<(Style, Seq<char>)>::empty());
        },
    }
}

impl Error {
    /// The message that reports this error: what went wrong, shown on the lines
    /// of `srcs` it designates, then the hints and the reason.
    pub fn render(&self, srcs: &Vec<Source>) -> (r: Vec<Styled>)
        requires
            kind_fits(self@.0, srcs@),
        ensures
            r.deep_view() == error_msg(self@, srcs@),
    {
        let mut out: Vec<Styled> = Vec::new();
        render_kind(&self.kind, srcs, &mut out);
        let ghost k = kind_msg(self@.0, srcs@);
        assert(out.deep_view() =~= k);
        assert(self@.2.subrange(0, 0) =~= Seq::<Msg>::empty());
        assert(k + helps_msg(self@.2.subrange(0, 0)) =~= k);
        let mut i: usize = 0;
        while i < self.helps.len()
            invariant
                i <= self.helps.len(),
                self@.2 == self.helps.deep_view(),
                out.deep_view() == k + helps_msg(self@.2.subrange(0, i as int)),
            decreases self.helps.len() - i,
        {
            annotation("  ", "help:", &self.helps[i], &mut out);
            proof {
                assert(self@.2.subrange(0, i + 1).drop_last() =~= self@.2.subrange(0, i as int));
                lemma_append2(
                    k,
                    helps_msg(self@.2.subrange(0, i as int)),
                    annotation_msg("  "@, "help:"@, self@.2[i as int]),
                );
            }
            i = i + 1;
        }
        assert(self@.2.subrange(0, i as int) =~= self@.2);
        render_kind_help(&self.kind, &mut out);
        proof {
            match kind_help(self@.0) {
                Some(h) => {
                    assert(self@.2.push(h).drop_last() =~= self@.2);
                    lemma_append2(k, helps_msg(self@.2), annotation_msg("  "@, "help:"@, h));
                },
                None => {
                    assert(out.deep_view() =~= k + helps_msg(self@.2));
                },
            }
        }
        let ghost with_helps = out.deep_view();
        match &self.reason {
            Some(r) => {
                let mut t = String::from_str("this error was triggered because ");
                t.append(r.as_str());
                annotation_text("  ", "note:", t.as_str(), &mut out);
            },
            None => {},
        }
        proof {
            lemma_append2(k, helps_msg(all_helps(self@)), reason_msg(self@.1));
            assert(out.deep_view() =~= with_helps + reason_msg(self@.1));
        }
        out
    }

    /// Whether every span of this error can be shown from `srcs`.
    pub fn fits(&self, srcs: &Vec<Source>) -> (b: bool)
        ensures
            b == kind_fits(self@.0, srcs@),
    {
        kind_fits_check(&self.kind, srcs)
    }
}

} // verus!
