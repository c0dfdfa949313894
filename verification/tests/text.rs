use petitc::text::{
    char_is_white, chars_to_string, pad_right_str, repeat_str, trimmed_end, usize_to_string,
};

#[test]
fn decimal_writing_of_numbers() {
    assert_eq!(usize_to_string(0), "0");
    assert_eq!(usize_to_string(7), "7");
    assert_eq!(usize_to_string(10), "10");
    assert_eq!(usize_to_string(4096), "4096");
    assert_eq!(usize_to_string(usize::MAX), usize::MAX.to_string());
}

#[test]
fn repeating_a_string() {
    assert_eq!(repeat_str("ab", 3), "ababab");
    assert_eq!(repeat_str("^", 0), "");
    assert_eq!(repeat_str("", 5), "");
}

#[test]
fn padding_on_the_right() {
    assert_eq!(pad_right_str("12", 3), "12 ");
    assert_eq!(pad_right_str("...", 3), "...");
    assert_eq!(pad_right_str("1234", 3), "1234");
    assert_eq!(pad_right_str("", 2), "  ");
}

#[test]
fn white_space_is_recognised() {
    assert!(char_is_white(' '));
    assert!(char_is_white('\t'));
    assert!(char_is_white('\n'));
    assert!(char_is_white('\r'));
    assert!(char_is_white('\u{a0}'));
    assert!(char_is_white('\u{3000}'));
    assert!(!char_is_white('a'));
    assert!(!char_is_white('_'));
    for c in ['x', ' ', '\u{2009}', '\u{85}', '0', '\u{200b}'] {
        assert_eq!(char_is_white(c), c.is_whitespace());
    }
}

#[test]
fn slicing_and_trimming_characters() {
    let v: Vec<char> = "ab  \t\ncd".chars().collect();
    assert_eq!(chars_to_string(&v, 0, 2), "ab");
    assert_eq!(chars_to_string(&v, 6, 8), "cd");
    assert_eq!(trimmed_end(&v, 0, 6), 2);
    assert_eq!(trimmed_end(&v, 2, 6), 2);
    assert_eq!(trimmed_end(&v, 0, 8), 8);
}
