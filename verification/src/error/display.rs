use vstd::prelude::*;
use crate::span::{loc_le, location_le, Location, Source, Span};
use crate::text::{
    chars_to_string, decimal, emit, emit_str, lemma_pad_right_len, lemma_repeat_len, pad_right,
    pad_right_str, repeat, repeat_str, trimmed_end, usize_to_string, Style, Styled,
};

verus! {

/// A message: pieces of text, each with its style.
pub type Msg = Seq<(Style, Seq<char>)>;

/// How many lines are shown at each end of a long stretch of text.
pub const NB_LINES_SHOWN: usize = 3;

/// Plain text, as a message.
pub open spec fn txt(s: Seq<char>) -> Msg {
    seq![(Style::plain(), s)]
}

/// Text in bold bright red, as a message.
pub open spec fn in_red(s: Seq<char>) -> Msg {
    seq![(Style::red(), s)]
}

/// Text in bold bright blue, as a message.
pub open spec fn in_blue(s: Seq<char>) -> Msg {
    seq![(Style::blue(), s)]
}

/// Text in bold bright white, as a message.
pub open spec fn in_white(s: Seq<char>) -> Msg {
    seq![(Style::white(), s)]
}

/// Text in bold bright white italics, as a message.
pub open spec fn in_white_italic(s: Seq<char>) -> Msg {
    seq![(Style::white().italic(), s)]
}

/// The headline of an error: the word `error`, then `message`.
pub open spec fn headline_msg(message: Seq<char>) -> Msg {
    in_red("error"@) + in_white(": "@ + message) + txt("\n"@)
}

/// A line that adds to a report: after `indent`, a sign, the `label`, then `body`.
pub open spec fn annotation_msg(indent: Seq<char>, label: Seq<char>, body: Msg) -> Msg {
    txt(indent) + in_blue("="@) + txt(" "@) + in_white(label) + txt(" "@) + body + txt("\n"@)
}

/// The texts of `s`, with `sep` between each two of them.
pub open spec fn join(s: Seq<Seq<char>>, sep: Seq<char>) -> Seq<char>
    decreases s.len(),
{
    if s.len() == 0 {
        Seq::empty()
    } else if s.len() == 1 {
        s[0]
    } else {
        join(s.drop_last(), sep) + sep + s.last()
    }
}

/// How the lines and columns from `start` to `end` are written; lines are shown
/// counted from 1, columns from 0.
pub open spec fn loc_text(start: Location, end: Location) -> Seq<char> {
    if start.0 == end.0 {
        if start.1 == end.1 {
            "line "@ + decimal((start.0 + 1) as nat) + ", character "@ + decimal(start.1 as nat)
        } else {
            "line "@ + decimal((start.0 + 1) as nat) + ", characters "@ + decimal(
                start.1 as nat,
            ) + "-"@ + decimal(end.1 as nat)
        }
    } else {
        "lines "@ + decimal((start.0 + 1) as nat) + "-"@ + decimal((end.0 + 1) as nat)
            + ", characters "@ + decimal(start.1 as nat) + "-"@ + decimal(end.1 as nat)
    }
}

/// The headline that places a span: its file, then its lines and columns.
pub open spec fn span_msg(span: Span) -> Msg {
    txt("File \""@ + span.file@ + "\", "@) + txt(loc_text(span.start, span.end)) + txt(":\n"@)
}

/// The left column of a report, holding `content` padded to `size` characters.
pub open spec fn left_column_with_msg(size: nat, content: Seq<char>) -> Msg {
    txt(pad_right(content, size) + " "@) + in_blue("|"@) + txt(" "@)
}

/// The empty left column of a report, `size` characters wide.
pub open spec fn left_column_msg(size: nat) -> Msg {
    txt(repeat(" "@, size) + " "@) + in_blue("|"@) + txt(" "@)
}

/// An empty left column, then the end of the line.
pub open spec fn left_column_newline_msg(size: nat) -> Msg {
    left_column_msg(size) + txt("\n"@)
}

/// Line `line` of the source, numbered from 1 in the left column, after `padding`.
pub open spec fn single_line_msg(src: Source, size: nat, padding: Seq<char>, line: int) -> Msg {
    left_column_with_msg(size, decimal((line + 1) as nat)) + in_red(padding) + txt(
        src.line_text(line) + "\n"@,
    )
}

/// The lines of the source from `from` (included) to `to` (excluded).
pub open spec fn lines_msg(src: Source, size: nat, padding: Seq<char>, from: int, to: int) -> Msg
    decreases to - from,
{
    if to <= from {
        Seq::empty()
    } else {
        lines_msg(src, size, padding, from, to - 1) + single_line_msg(src, size, padding, to - 1)
    }
}

/// The line that announces a report: an arrow, then the file, line and column of
/// the beginning of `span`.
pub open spec fn error_report_msg(span: Span, size: nat, arrow: Seq<char>) -> Msg {
    txt(repeat(" "@, size)) + in_blue(arrow) + txt(
        " "@ + span.file@ + ":"@ + decimal((span.start.0 + 1) as nat) + ":"@ + decimal(
            span.start.1 as nat,
        ) + "\n"@,
    )
}

/// A line under a line of source: `offset` copies of `offset_char` after `padding`,
/// then `length` copies of `filler` and the message.
pub open spec fn comment_msg(
    filler: Seq<char>,
    offset: nat,
    padding: Seq<char>,
    offset_char: Seq<char>,
    length: nat,
    size: nat,
    message: Seq<char>,
) -> Msg {
    left_column_msg(size) + in_red(padding + repeat(offset_char, offset)) + in_red(
        repeat(filler, length) + " "@ + message,
    ) + txt("\n"@)
}

/// The width of the left column of a report on a span that begins on line `line`:
/// the width of the line's number, and at least 3.
pub open spec fn column_size(line: int) -> nat {
    let n = decimal((line + 1) as nat).len();
    if n >= 3 {
        n
    } else {
        3
    }
}

/// The report on a span that covers several lines.
pub open spec fn multiline_msg(
    src: Source,
    span: Span,
    underline: Seq<char>,
    message: Seq<char>,
) -> Msg {
    let size = column_size(span.start.0 as int);
    let s = span.start.0 as int;
    let e = span.end.0 as int;
    let n = NB_LINES_SHOWN as int;
    single_line_msg(src, size, "  "@, s) + comment_msg(
        underline,
        (span.start_byte - src.line_byte(s)) as nat,
        " _"@,
        "_"@,
        1,
        size,
        ""@,
    ) + (if e - s <= 2 * n {
        lines_msg(src, size, "| "@, s + 1, e)
    } else {
        lines_msg(src, size, "| "@, s + 1, s + n) + left_column_with_msg(size, "..."@) + in_red(
            "|"@,
        ) + txt(" \n"@) + lines_msg(src, size, "| "@, e - n, e)
    }) + single_line_msg(src, size, "| "@, e) + comment_msg(
        underline,
        (span.end_byte - src.line_byte(e)) as nat,
        " -"@,
        "-"@,
        1,
        size,
        message,
    )
}

/// The report on a span: the announcing line if `show_line`, then the lines of
/// the span, with `underline` under it and `message`.
pub open spec fn pretty_span_msg(
    src: Source,
    span: Span,
    underline: Seq<char>,
    message: Seq<char>,
    arrow: Seq<char>,
    show_line: bool,
) -> Msg {
    let size = column_size(span.start.0 as int);
    let s = span.start.0 as int;
    (if show_line {
        error_report_msg(span, size, arrow) + left_column_newline_msg(size)
    } else {
        Seq::empty()
    }) + if span.start.0 != span.end.0 {
        multiline_msg(src, span, underline, message)
    } else {
        single_line_msg(src, size, ""@, s) + comment_msg(
            underline,
            (span.start_byte - src.line_byte(s)) as nat,
            ""@,
            " "@,
            (span.end.1 - span.start.1 + 1) as nat,
            size,
            message,
        )
    }
}

/// Whether a span and a hint both lie on one and the same line.
pub open spec fn same_line(span: Span, hint: Span) -> bool {
    hint.start.0 == hint.end.0 && span.start.0 == span.end.0 && span.start.0 == hint.end.0
}

/// Whether a span and a hint can be shown together: when they lie on one line,
/// they do not overlap.
pub open spec fn hint_fits(span: Span, hint: Span) -> bool {
    same_line(span, hint) ==> (hint.start.1 > span.end.1 || span.start.1 > hint.end.1)
}

/// Two marks on one line: `first` under `l1` characters after `o1` spaces, then
/// `second` under `l2` characters after `o2` more, with its message; then on the
/// next line the message of the first mark, under its end.
pub open spec fn marks_msg(
    size: nat,
    o1: nat,
    l1: nat,
    o2: nat,
    l2: nat,
    first: Seq<char>,
    second: Seq<char>,
    first_message: Seq<char>,
    second_message: Seq<char>,
) -> Msg {
    left_column_msg(size) + txt(repeat(" "@, o1)) + in_red(repeat(first, l1)) + txt(
        repeat(" "@, o2),
    ) + in_red(repeat(second, l2) + " "@ + second_message) + txt("\n"@) + left_column_msg(size)
        + txt(repeat(" "@, (o1 + l1 - 1) as nat)) + in_red(first_message) + txt("\n"@)
}

/// The elision mark between two reports on the same file, when lines lie between.
pub open spec fn gap_msg(span: Span, hint: Span, size: nat) -> Msg {
    if span.file@ == hint.file@ && hint.end.0 + 1 < span.start.0 {
        left_column_with_msg(size, "..."@) + txt("\n"@)
    } else {
        Seq::empty()
    }
}

/// The report on a span together with a hint, both on one line.
pub open spec fn same_line_hint_msg(
    src: Source,
    span: Span,
    message: Seq<char>,
    hint: Span,
    hint_message: Seq<char>,
) -> Msg {
    let size = column_size(span.start.0 as int);
    error_report_msg(span, size, "-->"@) + left_column_newline_msg(size) + single_line_msg(
        src,
        size,
        ""@,
        span.start.0 as int,
    ) + if hint.start.1 > span.end.1 {
        marks_msg(
            size,
            span.start.1 as nat,
            (span.end.1 - span.start.1 + 1) as nat,
            (hint.start.1 - span.end.1 - 1) as nat,
            (hint.end.1 - hint.start.1 + 1) as nat,
            "^"@,
            "~"@,
            message,
            hint_message,
        )
    } else {
        marks_msg(
            size,
            hint.start.1 as nat,
            (hint.end.1 - hint.start.1 + 1) as nat,
            (span.start.1 - hint.end.1 - 1) as nat,
            (span.end.1 - span.start.1 + 1) as nat,
            "~"@,
            "^"@,
            hint_message,
            message,
        )
    }
}

/// The reports on a span and on a hint, one after the other in the order of
/// the text; each shows the lines of its own source.
pub open spec fn apart_hint_msg(
    src: Source,
    span: Span,
    message: Seq<char>,
    hint_src: Source,
    hint: Span,
    hint_message: Seq<char>,
) -> Msg {
    let size = column_size(span.start.0 as int);
    if loc_le(hint.end, span.start) {
        pretty_span_msg(hint_src, hint, "~"@, hint_message, "-->"@, true) + gap_msg(span, hint, size)
            + pretty_span_msg(src, span, "^"@, message, ":::"@, span.file@ != hint.file@)
    } else {
        pretty_span_msg(src, span, "^"@, message, "-->"@, true) + gap_msg(span, hint, size)
            + pretty_span_msg(hint_src, hint, "~"@, hint_message, ":::"@, span.file@ != hint.file@)
    }
}

/// The report on a span (in `src`) together with a hint on another span (in
/// `hint_src`). When both lie on the same line number, that line is shown once,
/// from the source of the span.
pub open spec fn pretty_span_hint_msg(
    src: Source,
    span: Span,
    message: Seq<char>,
    hint_src: Source,
    hint: Span,
    hint_message: Seq<char>,
) -> Msg {
    if same_line(span, hint) {
        same_line_hint_msg(src, span, message, hint, hint_message)
    } else {
        apart_hint_msg(src, span, message, hint_src, hint, hint_message)
    }
}

/// Writes the headline that places `span`: its file, lines and columns.
pub fn span(span: &Span, out: &mut Vec<Styled>)
    requires
        span.start.0 < usize::MAX,
        span.end.0 < usize::MAX,
    ensures
        final(out).deep_view() == old(out).deep_view() + span_msg(*span),
{
    let ghost before = out.deep_view();
    let mut s = String::from_str("File \"");
    s.append(span.file.as_str());
    s.append("\", ");
    emit(out, Style::plain(), s);
    locations(span.start, span.end, out);
    emit_str(out, Style::plain(), ":\n");
    assert(out.deep_view() =~= before + span_msg(*span));
}

/// Writes where a stretch from `start` to `end` lies: its lines, counted from 1,
/// and its columns.
pub fn locations(start: Location, end: Location, out: &mut Vec<Styled>)
    requires
        start.0 < usize::MAX,
        end.0 < usize::MAX,
    ensures
        final(out).deep_view() == old(out).deep_view() + txt(loc_text(start, end)),
{
    let ghost before = out.deep_view();
    let mut s;
    if start.0 == end.0 {
        s = String::from_str("line ");
        s.append(usize_to_string(start.0 + 1).as_str());
        if start.1 == end.1 {
            s.append(", character ");
            s.append(usize_to_string(start.1).as_str());
        } else {
            s.append(", characters ");
            s.append(usize_to_string(start.1).as_str());
            s.append("-");
            s.append(usize_to_string(end.1).as_str());
        }
    } else {
        s = String::from_str("lines ");
        s.append(usize_to_string(start.0 + 1).as_str());
        s.append("-");
        s.append(usize_to_string(end.0 + 1).as_str());
        s.append(", characters ");
        s.append(usize_to_string(start.1).as_str());
        s.append("-");
        s.append(usize_to_string(end.1).as_str());
    }
    emit(out, Style::plain(), s);
    assert(out.deep_view() =~= before + txt(loc_text(start, end)));
}

/// Writes the left column of a report: `content`, padded to `left_column_size`
/// characters, and the rule.
pub fn left_column_with(left_column_size: usize, content: &str, out: &mut Vec<Styled>)
    ensures
        final(out).deep_view() == old(out).deep_view() + left_column_with_msg(
            left_column_size as nat,
            content@,
        ),
{
    let ghost before = out.deep_view();
    let mut s = pad_right_str(content, left_column_size);
    s.append(" ");
    emit(out, Style::plain(), s);
    emit_str(out, Style::blue(), "|");
    emit_str(out, Style::plain(), " ");
    assert(out.deep_view() =~= before + left_column_with_msg(left_column_size as nat, content@));
}

/// Writes an empty left column of a report, `left_column_size` characters wide,
/// and the rule.
pub fn left_column(left_column_size: usize, out: &mut Vec<Styled>)
    ensures
        final(out).deep_view() == old(out).deep_view() + left_column_msg(left_column_size as nat),
{
    let ghost before = out.deep_view();
    let mut s = repeat_str(" ", left_column_size);
    s.append(" ");
    emit(out, Style::plain(), s);
    emit_str(out, Style::blue(), "|");
    emit_str(out, Style::plain(), " ");
    assert(out.deep_view() =~= before + left_column_msg(left_column_size as nat));
}

/// Writes an empty left column, then ends the line.
pub fn left_column_newline(left_column_size: usize, out: &mut Vec<Styled>)
    ensures
        final(out).deep_view() == old(out).deep_view() + left_column_newline_msg(
            left_column_size as nat,
        ),
{
    let ghost before = out.deep_view();
    left_column(left_column_size, out);
    emit_str(out, Style::plain(), "\n");
    assert(out.deep_view() =~= before + left_column_newline_msg(left_column_size as nat));
}

/// The text of line `line` of the source, without the white space at its end.
fn line_string(src: &Source, line: usize) -> (s: String)
    requires
        src.wf(),
        line < src.lines@.len(),
    ensures
        s@ == src.line_text(line as int),
{
    let nb_lines = src.lines.len();
    let begin = src.lines[line];
    let end = if line + 1 == nb_lines {
        src.text.len()
    } else {
        src.lines[line + 1]
    };
    let k = trimmed_end(&src.text, begin, end);
    chars_to_string(&src.text, begin, k)
}

/// Writes line `line_nb` of the source, with its number (from 1) in the left
/// column and `padding` before it.
pub fn single_line(
    src: &Source,
    left_column_size: usize,
    padding: &str,
    line_nb: usize,
    out: &mut Vec<Styled>,
)
    requires
        src.wf(),
        line_nb < src.lines@.len(),
    ensures
        final(out).deep_view() == old(out).deep_view() + single_line_msg(
            *src,
            left_column_size as nat,
            padding@,
            line_nb as int,
        ),
{
    let ghost before = out.deep_view();
    let nb_lines = src.lines.len();
    left_column_with(left_column_size, usize_to_string(line_nb + 1).as_str(), out);
    emit_str(out, Style::red(), padding);
    let mut s = line_string(src, line_nb);
    s.append("\n");
    emit(out, Style::plain(), s);
    assert(out.deep_view() =~= before + single_line_msg(
        *src,
        left_column_size as nat,
        padding@,
        line_nb as int,
    ));
}

/// Writes the lines of the source from `from` (included) to `to` (excluded).
fn lines(
    src: &Source,
    left_column_size: usize,
    padding: &str,
    from: usize,
    to: usize,
    out: &mut Vec<Styled>,
)
    requires
        src.wf(),
        to <= src.lines@.len(),
    ensures
        final(out).deep_view() == old(out).deep_view() + lines_msg(
            *src,
            left_column_size as nat,
            padding@,
            from as int,
            to as int,
        ),
{
    let ghost before = out.deep_view();
    let mut line = from;
    if to <= from {
        assert(out.deep_view() =~= before + lines_msg(
            *src,
            left_column_size as nat,
            padding@,
            from as int,
            to as int,
        ));
        return ;
    }
    assert(lines_msg(*src, left_column_size as nat, padding@, from as int, from as int)
        =~= Seq::empty());
    assert(out.deep_view() =~= before + lines_msg(
        *src,
        left_column_size as nat,
        padding@,
        from as int,
        from as int,
    ));
    while line < to
        invariant
            src.wf(),
            from <= line <= to <= src.lines@.len(),
            out.deep_view() == before + lines_msg(
                *src,
                left_column_size as nat,
                padding@,
                from as int,
                line as int,
            ),
        decreases to - line,
    {
        single_line(src, left_column_size, padding, line, out);
        assert(out.deep_view() =~= before + lines_msg(
            *src,
            left_column_size as nat,
            padding@,
            from as int,
            line + 1,
        ));
        line = line + 1;
    }
}

/// Writes the line that announces a report: `arrow`, then the file, line and
/// column where `span` begins.
pub fn error_report(span: &Span, left_column_size: usize, arrow: &str, out: &mut Vec<Styled>)
    requires
        span.start.0 < usize::MAX,
    ensures
        final(out).deep_view() == old(out).deep_view() + error_report_msg(
            *span,
            left_column_size as nat,
            arrow@,
        ),
{
    let ghost before = out.deep_view();
    emit(out, Style::plain(), repeat_str(" ", left_column_size));
    emit_str(out, Style::blue(), arrow);
    let mut s = String::from_str(" ");
    s.append(span.file.as_str());
    s.append(":");
    s.append(usize_to_string(span.start.0 + 1).as_str());
    s.append(":");
    s.append(usize_to_string(span.start.1).as_str());
    s.append("\n");
    emit(out, Style::plain(), s);
    assert(out.deep_view() =~= before + error_report_msg(*span, left_column_size as nat, arrow@));
}

/// Writes a line under a line of source: an empty left column, `padding`, `offset`
/// copies of `offset_char`, `length` copies of `underline_filler`, then `message`.
pub fn comment(
    underline_filler: &str,
    offset: usize,
    padding: &str,
    offset_char: &str,
    length: usize,
    left_column_size: usize,
    message: &str,
    out: &mut Vec<Styled>,
)
    ensures
        final(out).deep_view() == old(out).deep_view() + comment_msg(
            underline_filler@,
            offset as nat,
            padding@,
            offset_char@,
            length as nat,
            left_column_size as nat,
            message@,
        ),
{
    let ghost before = out.deep_view();
    left_column(left_column_size, out);
    let mut s = String::from_str(padding);
    s.append(repeat_str(offset_char, offset).as_str());
    emit(out, Style::red(), s);
    let mut t = repeat_str(underline_filler, length);
    t.append(" ");
    t.append(message);
    emit(out, Style::red(), t);
    emit_str(out, Style::plain(), "\n");
    assert(out.deep_view() =~= before + comment_msg(
        underline_filler@,
        offset as nat,
        padding@,
        offset_char@,
        length as nat,
        left_column_size as nat,
        message@,
    ));
}

/// The width of the left column of a report on a span that begins on line `line`.
pub(crate) fn left_column_size_of(line: usize) -> (n: usize)
    requires
        line < usize::MAX,
    ensures
        n == column_size(line as int),
{
    let n = usize_to_string(line + 1).as_str().unicode_len();
    if n >= 3 {
        n
    } else {
        3
    }
}

/// Where line `n` of `src` begins, in bytes, known to be no more than `bound`.
fn line_byte_of(src: &Source, n: usize, bound: usize) -> (b: usize)
    requires
        src.wf(),
        n < src.lines@.len(),
        src.line_byte(n as int) <= bound,
    ensures
        b == src.line_byte(n as int),
{
    match src.line_byte_within(n, bound) {
        Some(b) => b,
        None => unreached(),
    }
}

/// Writes the lines of a span that covers several lines, the first and last
/// ones marked, and the message under the last one.
fn pretty_span_lines(
    src: &Source,
    span: &Span,
    left_column_size: usize,
    underline: &str,
    message: &str,
    out: &mut Vec<Styled>,
)
    requires
        src.wf(),
        src.fits(*span),
        span.start.0 != span.end.0,
        left_column_size == column_size(span.start.0 as int),
    ensures
        final(out).deep_view() == old(out).deep_view() + multiline_msg(
            *src,
            *span,
            underline@,
            message@,
        ),
{
    let ghost before = out.deep_view();
    let s = span.start.0;
    let e = span.end.0;
    single_line(src, left_column_size, "  ", s, out);
    let start_offset = span.start_byte - line_byte_of(src, s, span.start_byte);
    comment(underline, start_offset, " _", "_", 1, left_column_size, "", out);
    let ghost head = out.deep_view();
    if e - s <= 2 * NB_LINES_SHOWN {
        lines(src, left_column_size, "| ", s + 1, e, out);
    } else {
        lines(src, left_column_size, "| ", s + 1, s + NB_LINES_SHOWN, out);
        left_column_with(left_column_size, "...", out);
        emit_str(out, Style::red(), "|");
        emit_str(out, Style::plain(), " \n");
        lines(src, left_column_size, "| ", e - NB_LINES_SHOWN, e, out);
    }
    single_line(src, left_column_size, "| ", e, out);
    let end_offset = span.end_byte - line_byte_of(src, e, span.end_byte);
    comment(underline, end_offset, " -", "-", 1, left_column_size, message, out);
    assert(out.deep_view() =~= before + multiline_msg(*src, *span, underline@, message@));
}

/// Writes the report on `span`: the announcing line with `arrow` if `show_line`,
/// then the lines of the span with `underline` under it, and `message`. A mark
/// stands as many places into its line as the span's byte offset lies past the
/// line's first byte.
pub fn pretty_span(
    src: &Source,
    span: &Span,
    underline: &str,
    message: &str,
    arrow: &str,
    show_line: bool,
    out: &mut Vec<Styled>,
)
    requires
        src.wf(),
        src.fits(*span),
    ensures
        final(out).deep_view() == old(out).deep_view() + pretty_span_msg(
            *src,
            *span,
            underline@,
            message@,
            arrow@,
            show_line,
        ),
{
    let ghost before = out.deep_view();
    let nb_lines = src.lines.len();
    let left_column_size = left_column_size_of(span.start.0);
    if show_line {
        error_report(span, left_column_size, arrow, out);
        left_column_newline(left_column_size, out);
    }
    if span.start.0 != span.end.0 {
        pretty_span_lines(src, span, left_column_size, underline, message, out);
    } else {
        single_line(src, left_column_size, "", span.start.0, out);
        let offset = span.start_byte - line_byte_of(src, span.start.0, span.start_byte);
        comment(
            underline,
            offset,
            "",
            " ",
            span.end.1 - span.start.1 + 1,
            left_column_size,
            message,
            out,
        );
    }
    assert(out.deep_view() =~= before + pretty_span_msg(
        *src,
        *span,
        underline@,
        message@,
        arrow@,
        show_line,
    ));
}

/// Writes two marks on one line, and the message of the first under its end.
fn marks(
    left_column_size: usize,
    o1: usize,
    l1: usize,
    o2: usize,
    l2: usize,
    first: &str,
    second: &str,
    first_message: &str,
    second_message: &str,
    out: &mut Vec<Styled>,
)
    requires
        1 <= o1 + l1 <= usize::MAX,
    ensures
        final(out).deep_view() == old(out).deep_view() + marks_msg(
            left_column_size as nat,
            o1 as nat,
            l1 as nat,
            o2 as nat,
            l2 as nat,
            first@,
            second@,
            first_message@,
            second_message@,
        ),
{
    let ghost before = out.deep_view();
    left_column(left_column_size, out);
    emit(out, Style::plain(), repeat_str(" ", o1));
    emit(out, Style::red(), repeat_str(first, l1));
    emit(out, Style::plain(), repeat_str(" ", o2));
    let mut s = repeat_str(second, l2);
    s.append(" ");
    s.append(second_message);
    emit(out, Style::red(), s);
    emit_str(out, Style::plain(), "\n");
    left_column(left_column_size, out);
    emit(out, Style::plain(), repeat_str(" ", o1 + l1 - 1));
    emit_str(out, Style::red(), first_message);
    emit_str(out, Style::plain(), "\n");
    assert(out.deep_view() =~= before + marks_msg(
        left_column_size as nat,
        o1 as nat,
        l1 as nat,
        o2 as nat,
        l2 as nat,
        first@,
        second@,
        first_message@,
        second_message@,
    ));
}

/// Writes a report on `span` together with a hint on `hint_span`, both on one line.
fn same_line_hint(
    src: &Source,
    span: &Span,
    message: &str,
    hint_span: &Span,
    hint_message: &str,
    out: &mut Vec<Styled>,
)
    requires
        src.wf(),
        src.fits(*span),
        loc_le(hint_span.start, hint_span.end),
        hint_span.end.1 < usize::MAX,
        hint_fits(*span, *hint_span),
        same_line(*span, *hint_span),
    ensures
        final(out).deep_view() == old(out).deep_view() + same_line_hint_msg(
            *src,
            *span,
            message@,
            *hint_span,
            hint_message@,
        ),
{
    let ghost before = out.deep_view();
    let nb_lines = src.lines.len();
    let left_column_size = left_column_size_of(span.start.0);
    error_report(span, left_column_size, "-->", out);
    left_column_newline(left_column_size, out);
    single_line(src, left_column_size, "", span.start.0, out);
    if hint_span.start.1 > span.end.1 {
        let offset1 = span.start.1;
        let length1 = span.end.1 - span.start.1 + 1;
        let offset2 = hint_span.start.1 - (offset1 + length1);
        let length2 = hint_span.end.1 - hint_span.start.1 + 1;
        marks(
            left_column_size,
            offset1,
            length1,
            offset2,
            length2,
            "^",
            "~",
            message,
            hint_message,
            out,
        );
    } else {
        let offset1 = hint_span.start.1;
        let length1 = hint_span.end.1 - hint_span.start.1 + 1;
        let offset2 = span.start.1 - (offset1 + length1);
        let length2 = span.end.1 - span.start.1 + 1;
        marks(
            left_column_size,
            offset1,
            length1,
            offset2,
            length2,
            "~",
            "^",
            hint_message,
            message,
            out,
        );
    }
    assert(out.deep_view() =~= before + same_line_hint_msg(
        *src,
        *span,
        message@,
        *hint_span,
        hint_message@,
    ));
}

/// Writes the elision mark between two reports on the same file, when lines
/// lie between them.
fn gap(span: &Span, hint_span: &Span, left_column_size: usize, out: &mut Vec<Styled>)
    requires
        hint_span.end.0 < usize::MAX,
    ensures
        final(out).deep_view() == old(out).deep_view() + gap_msg(
            *span,
            *hint_span,
            left_column_size as nat,
        ),
{
    let ghost before = out.deep_view();
    if span.file == hint_span.file && hint_span.end.0 + 1 < span.start.0 {
        left_column_with(left_column_size, "...", out);
        emit_str(out, Style::plain(), "\n");
    }
    assert(out.deep_view() =~= before + gap_msg(*span, *hint_span, left_column_size as nat));
}

/// The rule of the left column stands at the same place on every line of a
/// report: after `size + 1` characters, whether the column is empty or holds
/// something (a line number, `...`) no wider than `size`; the rest of the
/// column is the same.
pub proof fn lemma_rule_aligned(size: nat, content: Seq<char>)
    requires
        content.len() <= size,
    ensures
        left_column_with_msg(size, content)[0].1.len() == size + 1,
        left_column_msg(size)[0].1.len() == size + 1,
        left_column_with_msg(size, content).len() == left_column_msg(size).len(),
        left_column_with_msg(size, content).subrange(1, 3) == left_column_msg(size).subrange(1, 3),
{
    reveal_strlit(" ");
    lemma_pad_right_len(content, size);
    lemma_repeat_len(" "@, size);
    assert(left_column_with_msg(size, content).subrange(1, 3) =~= left_column_msg(size).subrange(
        1,
        3,
    ));
}

/// Appending two messages one after the other appends their concatenation.
pub proof fn lemma_append2(a: Msg, b: Msg, c: Msg)
    ensures
        a + b + c == a + (b + c),
{
    assert(a + b + c =~= a + (b + c));
}

/// Appending three messages one after the other appends their concatenation.
pub proof fn lemma_append3(a: Msg, b: Msg, c: Msg, d: Msg)
    ensures
        a + b + c + d == a + (b + c + d),
{
    assert(a + b + c + d =~= a + (b + c + d));
}

/// Appending four messages one after the other appends their concatenation.
pub proof fn lemma_append4(a: Msg, b: Msg, c: Msg, d: Msg, e: Msg)
    ensures
        a + b + c + d + e == a + (b + c + d + e),
{
    assert(a + b + c + d + e =~= a + (b + c + d + e));
}

/// Writes the reports on `span` and on `hint_span`, one after the other in the
/// order of the text.
fn apart_hint(
    src: &Source,
    span: &Span,
    message: &str,
    hint_src: &Source,
    hint_span: &Span,
    hint_message: &str,
    out: &mut Vec<Styled>,
)
    requires
        src.wf(),
        src.fits(*span),
        hint_src.wf(),
        hint_src.fits(*hint_span),
    ensures
        final(out).deep_view() == old(out).deep_view() + apart_hint_msg(
            *src,
            *span,
            message@,
            *hint_src,
            *hint_span,
            hint_message@,
        ),
{
    let ghost before = out.deep_view();
    let nb_lines = src.lines.len();
    let nb_hint_lines = hint_src.lines.len();
    let left_column_size = left_column_size_of(span.start.0);
    let same_file = span.file == hint_span.file;
    let ghost g = gap_msg(*span, *hint_span, left_column_size as nat);
    if location_le(hint_span.end, span.start) {
        pretty_span(hint_src, hint_span, "~", hint_message, "-->", true, out);
        gap(span, hint_span, left_column_size, out);
        pretty_span(src, span, "^", message, ":::", !same_file, out);
        proof {
            lemma_append3(
                before,
                pretty_span_msg(*hint_src, *hint_span, "~"@, hint_message@, "-->"@, true),
                g,
                pretty_span_msg(*src, *span, "^"@, message@, ":::"@, !same_file),
            );
        }
    } else {
        pretty_span(src, span, "^", message, "-->", true, out);
        gap(span, hint_span, left_column_size, out);
        pretty_span(hint_src, hint_span, "~", hint_message, ":::", !same_file, out);
        proof {
            lemma_append3(
                before,
                pretty_span_msg(*src, *span, "^"@, message@, "-->"@, true),
                g,
                pretty_span_msg(*hint_src, *hint_span, "~"@, hint_message@, ":::"@, !same_file),
            );
        }
    }
}

/// Writes the report on `span` (a stretch of `src`) with `message`, together
/// with the hint `hint_message` on `hint_span` (a stretch of `hint_src`): both on
/// one line when they share it, else one after the other in the order of the text.
pub fn pretty_span_hint(
    src: &Source,
    span: &Span,
    message: &str,
    hint_src: &Source,
    hint_span: &Span,
    hint_message: &str,
    out: &mut Vec<Styled>,
)
    requires
        src.wf(),
        src.fits(*span),
        hint_src.wf(),
        hint_src.fits(*hint_span),
        hint_fits(*span, *hint_span),
    ensures
        final(out).deep_view() == old(out).deep_view() + pretty_span_hint_msg(
            *src,
            *span,
            message@,
            *hint_src,
            *hint_span,
            hint_message@,
        ),
{
    if hint_span.start.0 == hint_span.end.0 && span.start.0 == span.end.0 && span.start.0
        == hint_span.end.0 {
        same_line_hint(src, span, message, hint_span, hint_message, out);
    } else {
        apart_hint(src, span, message, hint_src, hint_span, hint_message, out);
    }
}

/// Writes the headline of an error: the word `error`, then `message`.
pub fn headline(message: &str, out: &mut Vec<Styled>)
    ensures
        final(out).deep_view() == old(out).deep_view() + headline_msg(message@),
{
    let ghost before = out.deep_view();
    emit_str(out, Style::red(), "error");
    let mut s = String::from_str(": ");
    s.append(message);
    emit(out, Style::white(), s);
    emit_str(out, Style::plain(), "\n");
    assert(out.deep_view() =~= before + headline_msg(message@));
}

/// Writes the pieces of `message`, in order.
pub fn emit_all(out: &mut Vec<Styled>, message: &Vec<Styled>)
    ensures
        final(out).deep_view() == old(out).deep_view() + message.deep_view(),
{
    let ghost before = out.deep_view();
    let mut i: usize = 0;
    while i < message.len()
        invariant
            i <= message.len(),
            out.deep_view() == before + message.deep_view().subrange(0, i as int),
        decreases message.len() - i,
    {
        let piece = message[i].clone();
        let ghost prev = out.deep_view();
        assert(piece.deep_view() == message.deep_view()[i as int]);
        out.push(piece);
        assert(out.deep_view() =~= prev.push(message.deep_view()[i as int]));
        assert(out.deep_view() =~= before + message.deep_view().subrange(0, i + 1));
        i = i + 1;
    }
    assert(message.deep_view().subrange(0, i as int) =~= message.deep_view());
}

/// Writes a line that adds to a report: after `indent`, a sign, `label`, then
/// the pieces of `body`.
pub fn annotation(indent: &str, label: &str, body: &Vec<Styled>, out: &mut Vec<Styled>)
    ensures
        final(out).deep_view() == old(out).deep_view() + annotation_msg(
            indent@,
            label@,
            body.deep_view(),
        ),
{
    let ghost before = out.deep_view();
    emit_str(out, Style::plain(), indent);
    emit_str(out, Style::blue(), "=");
    emit_str(out, Style::plain(), " ");
    emit_str(out, Style::white(), label);
    emit_str(out, Style::plain(), " ");
    emit_all(out, body);
    emit_str(out, Style::plain(), "\n");
    assert(out.deep_view() =~= before + annotation_msg(indent@, label@, body.deep_view()));
}

/// Writes a line that adds to a report: after `indent`, a sign, `label`, then
/// the plain text `body`.
pub fn annotation_text(indent: &str, label: &str, body: &str, out: &mut Vec<Styled>)
    ensures
        final(out).deep_view() == old(out).deep_view() + annotation_msg(
            indent@,
            label@,
            txt(body@),
        ),
{
    let mut v: Vec<Styled> = Vec::new();
    emit_str(&mut v, Style::plain(), body);
    assert(v.deep_view() =~= txt(body@));
    annotation(indent, label, &v, out);
}

/// The texts of a list of strings.
pub open spec fn texts(s: Seq<String>) -> Seq<Seq<char>> {
    s.map_values(|x: String| x@)
}

/// Writes the texts of the first `count` strings of `v`, with `sep` between each
/// two of them.
pub fn join_strings(v: &Vec<String>, count: usize, sep: &str) -> (s: String)
    requires
        count <= v.len(),
    ensures
        s@ == join(texts(v@.subrange(0, count as int)), sep@),
{
    let mut s = String::new();
    let mut i: usize = 0;
    while i < count
        invariant
            i <= count <= v.len(),
            s@ == join(texts(v@.subrange(0, i as int)), sep@),
        decreases count - i,
    {
        let ghost next = texts(v@.subrange(0, i + 1));
        assert(next.drop_last() =~= texts(v@.subrange(0, i as int)));
        if i > 0 {
            s.append(sep);
        } else {
            assert(s@ =~= Seq::<char>::empty());
        }
        s.append(v[i].as_str());
        assert(s@ =~= join(next, sep@));
        i = i + 1;
    }
    s
}

/// Whether a span and a hint can be shown together.
pub fn hint_fits_check(span: &Span, hint: &Span) -> (b: bool)
    ensures
        b == hint_fits(*span, *hint),
{
    !(hint.start.0 == hint.end.0 && span.start.0 == span.end.0 && span.start.0 == hint.end.0)
        || hint.start.1 > span.end.1 || span.start.1 > hint.end.1
}

} // verus!
