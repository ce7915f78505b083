use filo::text::{
    chars_of, joined, decimal_string, is_blank_str, is_whitespace_char, owned, same_text,
    string_of_range,
};

#[test]
fn white_space_is_what_the_standard_library_trims() {
    let mut c = '\0';
    loop {
        assert_eq!(is_whitespace_char(c), c.is_whitespace(), "U+{:04X}", c as u32);
        if c == char::MAX {
            break;
        }
        c = char::from_u32(c as u32 + 1).unwrap_or('\u{E000}');
    }
}

#[test]
fn a_text_is_blank_when_trimming_leaves_nothing() {
    for text in ["", " ", "\t\r\n", "\u{3000}\u{2028}", "a", " a ", "\u{200B}", " \u{FEFF}"] {
        assert_eq!(is_blank_str(text), text.trim().is_empty(), "{:?}", text);
    }
}

#[test]
fn a_number_is_written_in_decimal() {
    for n in [0u64, 1, 9, 10, 11, 99, 100, 101, 1_000_000, 18_446_744_073_709_551_615] {
        assert_eq!(decimal_string(n), format!("{}", n));
    }
}

#[test]
fn texts_are_taken_apart_and_put_together() {
    assert_eq!(chars_of("aé日"), vec!['a', 'é', '日']);
    assert_eq!(chars_of(""), Vec::<char>::new());
    let v = chars_of("hello");
    assert_eq!(string_of_range(&v, 1, 4), "ell");
    assert_eq!(string_of_range(&v, 0, 5), "hello");
    assert_eq!(string_of_range(&v, 3, 3), "");
    assert_eq!(owned("abc"), "abc");
    assert_eq!(joined("ab", "cd"), "abcd");
    assert_eq!(joined("", ""), "");
    assert!(same_text("é", "é"));
    assert!(!same_text("e", "é"));
    assert!(!same_text("a", "ab"));
}
