use editor_core::highlighting::{Category, HighlightSpan};
use editor_core::{FileType, Row, SearchDirection};

fn text(row: &Row) -> String {
    row.render(0, row.len())
}

#[test]
fn from_keeps_the_text() {
    let row = Row::from("let x = 5;");
    assert_eq!(row.len(), 10);
    assert!(!row.is_empty());
    assert_eq!(text(&row), "let x = 5;");
}

#[test]
fn default_row_is_empty() {
    let row = Row::default();
    assert_eq!(row.len(), 0);
    assert!(row.is_empty());
    assert_eq!(text(&row), "");
    assert!(row.highlight_spans().is_empty());
}

#[test]
fn len_counts_characters_not_bytes() {
    let row = Row::from("häß→x");
    assert_eq!(row.len(), 5);
    assert_eq!(row.as_bytes().len(), "häß→x".len());
}

#[test]
fn as_bytes_is_utf8_without_terminator() {
    let row = Row::from("aé→");
    assert_eq!(row.as_bytes(), "aé→".as_bytes().to_vec());
    assert_eq!(Row::from("").as_bytes(), Vec::<u8>::new());
}

#[test]
fn render_clips_to_the_line() {
    let row = Row::from("hello world");
    assert_eq!(row.render(0, 5), "hello");
    assert_eq!(row.render(6, 11), "world");
    assert_eq!(row.render(6, 100), "world");
    assert_eq!(row.render(11, 100), "");
    assert_eq!(row.render(50, 100), "");
    assert_eq!(row.render(5, 2), "");
    assert_eq!(row.render(usize::MAX, usize::MAX), "");
    assert_eq!(row.render(0, usize::MAX), "hello world");
}

#[test]
fn render_counts_in_characters() {
    let row = Row::from("äöü");
    assert_eq!(row.render(1, 2), "ö");
}

#[test]
fn insert_puts_the_character_before_the_offset() {
    let mut row = Row::from("ac");
    row.insert(1, 'b');
    assert_eq!(text(&row), "abc");
    row.insert(0, '>');
    assert_eq!(text(&row), ">abc");
    row.insert(4, '<');
    assert_eq!(text(&row), ">abc<");
}

#[test]
fn insert_beyond_the_end_appends() {
    let mut row = Row::from("ab");
    row.insert(17, 'c');
    assert_eq!(text(&row), "abc");
}

#[test]
fn delete_removes_one_character() {
    let mut row = Row::from("abc");
    row.delete(1);
    assert_eq!(text(&row), "ac");
    row.delete(0);
    assert_eq!(text(&row), "c");
}

#[test]
fn delete_at_or_beyond_the_end_does_nothing() {
    let mut row = Row::from("abc");
    row.delete(3);
    assert_eq!(text(&row), "abc");
    row.delete(usize::MAX);
    assert_eq!(text(&row), "abc");
}

#[test]
fn insert_then_delete_restores_the_line() {
    for at in 0..=5 {
        let mut row = Row::from("héllo");
        row.insert(at, '→');
        assert_eq!(row.len(), 6);
        row.delete(at);
        assert_eq!(text(&row), "héllo");
    }
}

#[test]
fn split_cuts_the_line_in_two() {
    let mut row = Row::from("let x = 5;");
    let tail = row.split(3);
    assert_eq!(text(&row), "let");
    assert_eq!(text(&tail), " x = 5;");
}

#[test]
fn split_at_the_ends() {
    let mut row = Row::from("abc");
    let tail = row.split(0);
    assert_eq!(text(&row), "");
    assert_eq!(text(&tail), "abc");
    let mut row = Row::from("abc");
    let tail = row.split(3);
    assert_eq!(text(&row), "abc");
    assert_eq!(text(&tail), "");
    let mut row = Row::from("abc");
    let tail = row.split(99);
    assert_eq!(text(&row), "abc");
    assert_eq!(text(&tail), "");
}

#[test]
fn split_then_append_restores_the_line() {
    for at in 0..=5 {
        let mut row = Row::from("héllo");
        let tail = row.split(at);
        assert_eq!(row.len() + tail.len(), 5);
        row.append(&tail);
        assert_eq!(text(&row), "héllo");
    }
}

#[test]
fn append_joins_two_lines() {
    let mut row = Row::from("foo");
    row.append(&Row::from("bar"));
    assert_eq!(text(&row), "foobar");
    row.append(&Row::default());
    assert_eq!(text(&row), "foobar");
}

#[test]
fn find_forward_returns_the_first_offset_from_the_start() {
    let row = Row::from("abcabcabc");
    assert_eq!(row.find("bc", 0, SearchDirection::Forward), Some(1));
    assert_eq!(row.find("bc", 1, SearchDirection::Forward), Some(1));
    assert_eq!(row.find("bc", 2, SearchDirection::Forward), Some(4));
    assert_eq!(row.find("bc", 7, SearchDirection::Forward), Some(7));
    assert_eq!(row.find("bc", 8, SearchDirection::Forward), None);
    assert_eq!(row.find("bc", 9, SearchDirection::Forward), None);
    assert_eq!(row.find("bc", 100, SearchDirection::Forward), None);
}

#[test]
fn find_backward_returns_the_last_offset_up_to_the_start() {
    let row = Row::from("abcabcabc");
    assert_eq!(row.find("bc", 9, SearchDirection::Backward), Some(7));
    assert_eq!(row.find("bc", 100, SearchDirection::Backward), Some(7));
    assert_eq!(row.find("bc", 7, SearchDirection::Backward), Some(7));
    assert_eq!(row.find("bc", 6, SearchDirection::Backward), Some(4));
    assert_eq!(row.find("bc", 1, SearchDirection::Backward), Some(1));
    assert_eq!(row.find("bc", 0, SearchDirection::Backward), None);
}

#[test]
fn find_is_case_sensitive_and_exact() {
    let row = Row::from("Hello hello");
    assert_eq!(row.find("hello", 0, SearchDirection::Forward), Some(6));
    assert_eq!(row.find("HELLO", 0, SearchDirection::Forward), None);
    assert_eq!(row.find("h.llo", 0, SearchDirection::Forward), None);
    assert_eq!(row.find("hello world", 0, SearchDirection::Forward), None);
}

#[test]
fn find_gives_character_offsets() {
    let row = Row::from("ääx");
    assert_eq!(row.find("x", 0, SearchDirection::Forward), Some(2));
    assert_eq!(row.find("x", 5, SearchDirection::Backward), Some(2));
}

#[test]
fn find_of_the_empty_term_stands_at_the_start() {
    let row = Row::from("abc");
    assert_eq!(row.find("", 1, SearchDirection::Forward), Some(1));
    assert_eq!(row.find("", 3, SearchDirection::Forward), Some(3));
    assert_eq!(row.find("", 4, SearchDirection::Forward), None);
    assert_eq!(row.find("", 9, SearchDirection::Backward), Some(3));
}

#[test]
fn find_chars_agrees_with_find() {
    let row = Row::from("one two one");
    let needle: Vec<char> = "one".chars().collect();
    assert_eq!(row.find_chars(&needle, 1, SearchDirection::Forward), Some(8));
    assert_eq!(row.find_chars(&needle, 7, SearchDirection::Backward), Some(0));
}

#[test]
fn from_chars_copies_a_stretch() {
    let chars: Vec<char> = "hello world".chars().collect();
    let row = Row::from_chars(&chars, 6, 11);
    assert_eq!(text(&row), "world");
    assert_eq!(Row::from_chars(&chars, 3, 3).len(), 0);
}

#[test]
fn write_to_appends_the_line() {
    let mut out = String::from(">");
    Row::from("añb").write_to(&mut out);
    assert_eq!(out, ">añb");
}

#[test]
fn mutation_leaves_the_stored_spans_alone() {
    let opts = FileType::from("a.rs").highlighting_options();
    let mut row = Row::from("12 ab");
    row.highlight(opts, None);
    let before = row.highlight_spans();
    assert_eq!(before, vec![HighlightSpan { start: 0, end: 2, category: Category::Number }]);
    row.insert(0, 'x');
    assert_eq!(row.highlight_spans(), before);
    row.highlight(opts, None);
    assert!(row.highlight_spans().is_empty());
}

#[test]
fn visible_categories_are_clipped_like_the_text() {
    let opts = FileType::from("a.rs").highlighting_options();
    let mut row = Row::from("a 12");
    assert_eq!(row.visible_categories(0, 10), vec![]);
    row.highlight(opts, None);
    assert_eq!(
        row.visible_categories(0, 10),
        vec![Category::Plain, Category::Plain, Category::Number, Category::Number]
    );
    assert_eq!(row.visible_categories(3, 4), vec![Category::Number]);
    assert_eq!(row.visible_categories(4, 9), vec![]);
    assert_eq!(row.visible_categories(3, 1), vec![]);
}
