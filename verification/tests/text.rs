use editor_core::text::{chars_of, line_end, push_chars, push_decimal, push_slice, string_of};

fn chars(s: &str) -> Vec<char> {
    s.chars().collect()
}

#[test]
fn chars_of_lists_the_characters() {
    assert_eq!(chars_of("aä→"), vec!['a', 'ä', '→']);
    assert_eq!(chars_of(""), Vec::<char>::new());
}

#[test]
fn string_of_takes_a_stretch() {
    let v = chars("hello");
    assert_eq!(string_of(&v, 0, 5), "hello");
    assert_eq!(string_of(&v, 1, 3), "el");
    assert_eq!(string_of(&v, 5, 5), "");
    assert_eq!(string_of(&chars("äöü"), 2, 3), "ü");
}

#[test]
fn line_end_finds_the_next_line_feed() {
    let v = chars("ab\ncd\n\nef");
    assert_eq!(line_end(&v, 0), 2);
    assert_eq!(line_end(&v, 2), 2);
    assert_eq!(line_end(&v, 3), 5);
    assert_eq!(line_end(&v, 6), 6);
    assert_eq!(line_end(&v, 7), 9);
    assert_eq!(line_end(&v, 9), 9);
    assert_eq!(line_end(&chars("a\rb"), 0), 3);
}

#[test]
fn push_decimal_writes_numbers_without_leading_zeros() {
    let decimal = |n: usize| {
        let mut out = Vec::new();
        push_decimal(&mut out, n);
        out.into_iter().collect::<String>()
    };
    assert_eq!(decimal(0), "0");
    assert_eq!(decimal(7), "7");
    assert_eq!(decimal(10), "10");
    assert_eq!(decimal(1234567890), "1234567890");
    assert_eq!(decimal(usize::MAX), usize::MAX.to_string());
}

#[test]
fn push_decimal_and_push_chars_append() {
    let mut out = chars("n=");
    push_decimal(&mut out, 42);
    push_chars(&mut out, "; ä");
    push_chars(&mut out, "");
    assert_eq!(out, chars("n=42; ä"));
}

#[test]
fn push_slice_appends_a_stretch() {
    let mut out = chars("ab");
    push_slice(&mut out, &chars("012345"), 2, 5);
    assert_eq!(out, chars("ab234"));
    push_slice(&mut out, &chars("xyz"), 3, 3);
    assert_eq!(out, chars("ab234"));
    let mut numbers = vec![1u8];
    push_slice(&mut numbers, &vec![7, 8, 9], 0, 2);
    assert_eq!(numbers, vec![1, 7, 8]);
}
