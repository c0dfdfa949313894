use petitc::error::display::{
    comment, error_report, left_column, left_column_newline, left_column_with, locations,
    pretty_span, pretty_span_hint, single_line, span,
};
use petitc::span::{find_source, span_shown, Source, Span};
use petitc::text::{Color, Style, Styled};

fn flat(m: &[Styled]) -> String {
    m.iter().map(|p| p.text.as_str()).collect()
}

fn source() -> Source {
    Source::new(String::from("test.c"), "int main() {\n  return x;\n}\n".chars().collect())
}

fn sp(start: (usize, usize), end: (usize, usize), start_byte: usize, end_byte: usize) -> Span {
    Span { file: String::from("test.c"), start, end, start_byte, end_byte }
}

#[test]
fn lines_of_a_source() {
    let src = source();
    assert_eq!(src.lines, vec![0, 13, 25, 27]);
    assert_eq!(src.text.len(), 27);
    let empty = Source::new(String::from("empty.c"), Vec::new());
    assert_eq!(empty.lines, vec![0]);
    let no_newline = Source::new(String::from("ab.c"), "a\nb".chars().collect());
    assert_eq!(no_newline.lines, vec![0, 2]);
}

#[test]
fn spans_that_fit() {
    let src = source();
    assert!(src.span_fits(&sp((1, 9), (1, 9), 22, 22)));
    assert!(src.span_fits(&sp((0, 4), (2, 0), 4, 25)));
    // ends before it begins
    assert!(!src.span_fits(&sp((1, 9), (1, 2), 22, 15)));
    // past the last line
    assert!(!src.span_fits(&sp((4, 0), (4, 0), 30, 30)));
    // offset before the beginning of its line
    assert!(!src.span_fits(&sp((1, 0), (1, 0), 3, 3)));
}

#[test]
fn locations_on_one_line_and_more() {
    let mut out = Vec::new();
    locations((0, 3), (0, 3), &mut out);
    assert_eq!(flat(&out), "line 1, character 3");
    let mut out = Vec::new();
    locations((1, 2), (1, 5), &mut out);
    assert_eq!(flat(&out), "line 2, characters 2-5");
    let mut out = Vec::new();
    locations((0, 4), (2, 1), &mut out);
    assert_eq!(flat(&out), "lines 1-3, characters 4-1");
}

#[test]
fn headline_of_a_span() {
    let mut out = Vec::new();
    span(&sp((1, 9), (1, 9), 22, 22), &mut out);
    assert_eq!(flat(&out), "File \"test.c\", line 2, character 9:\n");
}

#[test]
fn left_columns() {
    let mut out = Vec::new();
    left_column_with(3, "12", &mut out);
    assert_eq!(flat(&out), "12  | ");
    assert_eq!(out[1].style, Style::blue());
    assert_eq!(out[1].style.color, Color::BrightBlue);
    assert!(out[1].style.bold);
    let mut out = Vec::new();
    left_column_with(3, "1234", &mut out);
    assert_eq!(flat(&out), "1234 | ");
    let mut out = Vec::new();
    left_column(3, &mut out);
    assert_eq!(flat(&out), "    | ");
    let mut out = Vec::new();
    left_column_newline(4, &mut out);
    assert_eq!(flat(&out), "     | \n");
}

#[test]
fn a_comment_under_a_line() {
    let mut out = Vec::new();
    comment("^", 2, "", " ", 3, 3, "msg", &mut out);
    assert_eq!(flat(&out), "    |   ^^^ msg\n");
    let mut out = Vec::new();
    comment("^", 4, " _", "_", 1, 3, "", &mut out);
    assert_eq!(flat(&out), "    |  _____^ \n");
}

#[test]
fn one_line_of_source() {
    let src = source();
    let mut out = Vec::new();
    single_line(&src, 3, "| ", 1, &mut out);
    assert_eq!(flat(&out), "2   | |   return x;\n");
    let mut out = Vec::new();
    single_line(&src, 3, "", 3, &mut out);
    assert_eq!(flat(&out), "4   | \n");
}

#[test]
fn announcing_line() {
    let mut out = Vec::new();
    error_report(&sp((1, 9), (1, 9), 22, 22), 3, "-->", &mut out);
    assert_eq!(flat(&out), "   --> test.c:2:9\n");
}

#[test]
fn report_on_a_span_of_one_line() {
    let src = source();
    let mut out = Vec::new();
    pretty_span(&src, &sp((1, 9), (1, 9), 22, 22), "^", "not found in this scope", "-->", true, &mut out);
    assert_eq!(
        flat(&out),
        "   --> test.c:2:9\n    | \n2   |   return x;\n    |          ^ not found in this scope\n"
    );
    let mut out = Vec::new();
    pretty_span(&src, &sp((1, 2), (1, 7), 15, 20), "~", "here", ":::", false, &mut out);
    assert_eq!(flat(&out), "2   |   return x;\n    |   ~~~~~~ here\n");
}

#[test]
fn report_on_a_span_of_several_lines() {
    let src = source();
    let mut out = Vec::new();
    pretty_span(&src, &sp((0, 4), (2, 0), 4, 25), "^", "msg", "-->", true, &mut out);
    assert_eq!(
        flat(&out),
        "   --> test.c:1:4\n    | \n1   |   int main() {\n    |  _____^ \n2   | |   return x;\n3   | | }\n    |  -^ msg\n"
    );
}

#[test]
fn report_on_a_long_span_elides_its_middle() {
    let text: String = (1..=10).map(|i| format!("l{}\n", i)).collect();
    let src = Source::new(String::from("test.c"), text.chars().collect());
    let start_byte = src.lines[0];
    let end_byte = src.lines[9] + 1;
    let mut out = Vec::new();
    pretty_span(&src, &sp((0, 0), (9, 1), start_byte, end_byte), "^", "m", "-->", false, &mut out);
    assert_eq!(
        flat(&out),
        "1   |   l1\n    |  _^ \n2   | | l2\n3   | | l3\n... | |\u{20}\n7   | | l7\n8   | | l8\n9   | | l9\n10  | | l10\n    |  --^ m\n"
    );
}

#[test]
fn hint_on_the_same_line() {
    let src = source();
    let mut out = Vec::new();
    pretty_span_hint(
        &src,
        &sp((0, 4), (0, 7), 4, 7),
        "second",
        &src,
        &sp((0, 0), (0, 2), 0, 2),
        "first",
        &mut out,
    );
    assert_eq!(
        flat(&out),
        "   --> test.c:1:4\n    | \n1   | int main() {\n    | ~~~ ^^^^ second\n    |   first\n"
    );
    let mut out = Vec::new();
    pretty_span_hint(
        &src,
        &sp((0, 0), (0, 2), 0, 2),
        "first",
        &src,
        &sp((0, 4), (0, 7), 4, 7),
        "second",
        &mut out,
    );
    assert_eq!(
        flat(&out),
        "   --> test.c:1:0\n    | \n1   | int main() {\n    | ^^^ ~~~~ second\n    |   first\n"
    );
}

#[test]
fn hint_on_another_line() {
    let src = source();
    let mut out = Vec::new();
    pretty_span_hint(
        &src,
        &sp((1, 9), (1, 9), 22, 22),
        "m",
        &src,
        &sp((0, 4), (0, 7), 4, 7),
        "hm",
        &mut out,
    );
    assert_eq!(
        flat(&out),
        "   --> test.c:1:4\n    | \n1   | int main() {\n    |     ~~~~ hm\n2   |   return x;\n    |          ^ m\n"
    );
}

#[test]
fn hint_far_before_the_span() {
    let src = source();
    let mut out = Vec::new();
    pretty_span_hint(
        &src,
        &sp((2, 0), (2, 0), 25, 25),
        "m",
        &src,
        &sp((0, 0), (0, 2), 0, 2),
        "hm",
        &mut out,
    );
    assert_eq!(
        flat(&out),
        "   --> test.c:1:0\n    | \n1   | int main() {\n    | ~~~ hm\n... | \n3   | }\n    | ^ m\n"
    );
}

#[test]
fn hint_after_the_span() {
    let src = source();
    let mut out = Vec::new();
    pretty_span_hint(
        &src,
        &sp((0, 4), (0, 7), 4, 7),
        "m",
        &src,
        &sp((1, 9), (1, 9), 22, 22),
        "hm",
        &mut out,
    );
    assert_eq!(
        flat(&out),
        "   --> test.c:1:4\n    | \n1   | int main() {\n    |     ^^^^ m\n2   |   return x;\n    |          ~ hm\n"
    );
}

#[test]
fn pieces_carry_their_styles() {
    let src = source();
    let mut out = Vec::new();
    pretty_span(&src, &sp((1, 9), (1, 9), 22, 22), "^", "m", "-->", true, &mut out);
    let red: Vec<&str> = out.iter().filter(|p| p.style == Style::red()).map(|p| p.text.as_str()).collect();
    assert_eq!(red, vec!["", "         ", "^ m"]);
    let blue: Vec<&str> = out.iter().filter(|p| p.style == Style::blue()).map(|p| p.text.as_str()).collect();
    assert_eq!(blue, vec!["-->", "|", "|", "|"]);
}

#[test]
fn the_rule_of_the_left_column_is_aligned() {
    for content in ["", "7", "42", "...", "100"] {
        let mut with = Vec::new();
        left_column_with(3, content, &mut with);
        let mut without = Vec::new();
        left_column(3, &mut without);
        assert_eq!(with[0].text.chars().count(), 4);
        assert_eq!(without[0].text.chars().count(), 4);
        assert_eq!(with[1].text, without[1].text);
        assert_eq!(with[2].text, without[2].text);
    }
}

#[test]
fn the_union_of_two_spans_covers_both() {
    let a = sp((1, 9), (1, 9), 22, 22);
    let b = sp((0, 4), (0, 7), 4, 7);
    let u = a.sup(&b);
    assert_eq!(u.start, (0, 4));
    assert_eq!(u.end, (1, 9));
    assert_eq!(u.start_byte, 4);
    assert_eq!(u.end_byte, 22);
    let v = b.sup(&a);
    assert_eq!((v.start, v.end, v.start_byte, v.end_byte), (u.start, u.end, u.start_byte, u.end_byte));
}

#[test]
fn hint_in_another_file_shows_its_own_line() {
    let src = source();
    let lib = Source::new(String::from("lib.c"), "int x;\n".chars().collect());
    let hint = Span { file: String::from("lib.c"), start: (0, 4), end: (0, 4), start_byte: 4, end_byte: 4 };
    let mut out = Vec::new();
    pretty_span_hint(&src, &sp((1, 9), (1, 9), 22, 22), "m", &lib, &hint, "hm", &mut out);
    assert_eq!(
        flat(&out),
        "   --> lib.c:1:4\n    | \n1   | int x;\n    |     ~ hm\n   ::: test.c:2:9\n    | \n2   |   return x;\n    |          ^ m\n"
    );
}

#[test]
fn a_span_is_shown_from_the_source_of_its_file() {
    let srcs = vec![source(), Source::new(String::from("lib.c"), "int x;\n".chars().collect())];
    let in_lib = Span { file: String::from("lib.c"), start: (0, 4), end: (0, 4), start_byte: 4, end_byte: 4 };
    assert_eq!(find_source(&srcs, &in_lib).map(|s| s.file.as_str()), Some("lib.c"));
    assert!(span_shown(&srcs, &in_lib));
    let in_main = sp((1, 9), (1, 9), 22, 22);
    assert_eq!(find_source(&srcs, &in_main).map(|s| s.text.len()), Some(27));
    assert!(span_shown(&srcs, &in_main));
    let elsewhere = Span { file: String::from("other.c"), start: (0, 0), end: (0, 0), start_byte: 0, end_byte: 0 };
    assert!(find_source(&srcs, &elsewhere).is_none());
    assert!(!span_shown(&srcs, &elsewhere));
    let past_lib = Span { file: String::from("lib.c"), start: (3, 0), end: (3, 0), start_byte: 9, end_byte: 9 };
    assert!(!span_shown(&srcs, &past_lib));
}

#[test]
fn marks_stand_at_byte_offsets() {
    let src = Source::new(String::from("u.c"), "é x\n".chars().collect());
    let x = Span { file: String::from("u.c"), start: (0, 2), end: (0, 2), start_byte: 3, end_byte: 3 };
    assert!(src.span_fits(&x));
    let mut out = Vec::new();
    pretty_span(&src, &x, "^", "m", "-->", true, &mut out);
    assert_eq!(flat(&out), "   --> u.c:1:2\n    | \n1   | é x\n    |    ^ m\n");

    let src = Source::new(String::from("v.c"), "é\n  x\n".chars().collect());
    assert_eq!(src.lines, vec![0, 2, 6]);
    let x = Span { file: String::from("v.c"), start: (1, 2), end: (1, 2), start_byte: 5, end_byte: 5 };
    let mut out = Vec::new();
    pretty_span(&src, &x, "^", "m", "-->", false, &mut out);
    assert_eq!(flat(&out), "2   |   x\n    |   ^ m\n");
    let before_line = Span { file: String::from("v.c"), start: (1, 0), end: (1, 0), start_byte: 2, end_byte: 2 };
    assert!(!src.span_fits(&before_line));
}
