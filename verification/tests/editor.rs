use editor_core::editor::{Action, Editor, Key, Prompt, StatusMessage, MESSAGE_MILLIS, QUIT_TIMES};
use editor_core::highlighting::Category;
use editor_core::terminal::Size;
use editor_core::{Document, Position, Terminal};

fn at(x: usize, y: usize) -> Position {
    Position { x, y }
}

fn editor_on(contents: &str, columns: u16, rows: u16) -> Editor {
    Editor::new(
        Document::from_contents("file.rs", contents),
        Terminal::with_dimensions(columns, rows),
        StatusMessage::from(String::from("HELP"), 0),
    )
}

fn editor(contents: &str) -> Editor {
    editor_on(contents, 80, 26)
}

fn lines(editor: &Editor) -> Vec<String> {
    let doc = editor.document();
    (0..doc.len()).map(|y| doc.row(y).map(|row| row.render(0, row.len())).unwrap_or_default()).collect()
}

fn press(editor: &mut Editor, keys: &[Key]) {
    for key in keys {
        editor.process_key(*key, 0);
    }
}

#[test]
fn terminal_sets_two_rows_aside() {
    assert_eq!(Terminal::with_dimensions(80, 24).size, Size { width: 80, height: 22 });
    assert_eq!(*Terminal::with_dimensions(80, 24).size(), Size { width: 80, height: 22 });
    assert_eq!(Terminal::with_dimensions(10, 2).size, Size { width: 10, height: 0 });
    assert_eq!(Terminal::with_dimensions(10, 1).size, Size { width: 10, height: 0 });
    assert_eq!(Terminal::with_dimensions(0, 0).size, Size { width: 0, height: 0 });
}

#[test]
fn cell_of_holds_places_to_the_screen() {
    assert_eq!(Terminal::cell_of(&at(3, 7)), (3, 7));
    assert_eq!(Terminal::cell_of(&at(0, 0)), (0, 0));
    assert_eq!(Terminal::cell_of(&at(65535, 65534)), (65535, 65534));
    assert_eq!(Terminal::cell_of(&at(70000, usize::MAX)), (65535, 65535));
}

#[test]
fn default_position_is_the_origin() {
    assert_eq!(Position::default(), at(0, 0));
}

#[test]
fn new_editor_starts_at_the_top() {
    let e = editor("a\nb\n");
    assert_eq!(e.cursor_position(), at(0, 0));
    assert_eq!(e.offset(), at(0, 0));
    assert!(!e.should_quit());
    assert_eq!(e.message_bar(0), "HELP");
    assert_eq!(lines(&e), ["a", "b"]);
}

#[test]
fn right_and_left_wrap_at_line_ends() {
    let mut e = editor("ab\ncd\n");
    e.move_cursor(Key::Right);
    assert_eq!(e.cursor_position(), at(1, 0));
    e.move_cursor(Key::Right);
    assert_eq!(e.cursor_position(), at(2, 0));
    e.move_cursor(Key::Right);
    assert_eq!(e.cursor_position(), at(0, 1));
    e.move_cursor(Key::Left);
    assert_eq!(e.cursor_position(), at(2, 0));
    e.move_cursor(Key::Left);
    e.move_cursor(Key::Left);
    assert_eq!(e.cursor_position(), at(0, 0));
    e.move_cursor(Key::Left);
    assert_eq!(e.cursor_position(), at(0, 0));
}

#[test]
fn right_stops_behind_the_last_line() {
    let mut e = editor("a\n");
    e.move_cursor(Key::Right);
    e.move_cursor(Key::Right);
    assert_eq!(e.cursor_position(), at(0, 1));
    e.move_cursor(Key::Right);
    assert_eq!(e.cursor_position(), at(0, 1));
    e.move_cursor(Key::Down);
    assert_eq!(e.cursor_position(), at(0, 1));
}

#[test]
fn up_and_down_fit_the_column_to_the_line() {
    let mut e = editor("long line\nab\nlonger line\n");
    e.move_cursor(Key::End);
    assert_eq!(e.cursor_position(), at(9, 0));
    e.move_cursor(Key::Down);
    assert_eq!(e.cursor_position(), at(2, 1));
    e.move_cursor(Key::Down);
    assert_eq!(e.cursor_position(), at(2, 2));
    e.move_cursor(Key::Down);
    assert_eq!(e.cursor_position(), at(0, 3));
    e.move_cursor(Key::Up);
    assert_eq!(e.cursor_position(), at(0, 2));
    e.move_cursor(Key::Up);
    e.move_cursor(Key::Up);
    e.move_cursor(Key::Up);
    assert_eq!(e.cursor_position(), at(0, 0));
}

#[test]
fn home_and_end_go_to_the_ends_of_the_line() {
    let mut e = editor("hello\n");
    e.move_cursor(Key::End);
    assert_eq!(e.cursor_position(), at(5, 0));
    e.move_cursor(Key::Home);
    assert_eq!(e.cursor_position(), at(0, 0));
}

#[test]
fn page_keys_move_by_the_height_of_the_screen() {
    let contents = "x\n".repeat(30);
    let mut e = editor_on(&contents, 80, 12);
    e.move_cursor(Key::PageDown);
    assert_eq!(e.cursor_position(), at(0, 10));
    e.move_cursor(Key::PageDown);
    assert_eq!(e.cursor_position(), at(0, 20));
    e.move_cursor(Key::PageDown);
    assert_eq!(e.cursor_position(), at(0, 30));
    e.move_cursor(Key::PageDown);
    assert_eq!(e.cursor_position(), at(0, 30));
    e.move_cursor(Key::PageUp);
    assert_eq!(e.cursor_position(), at(0, 20));
    e.move_cursor(Key::PageUp);
    e.move_cursor(Key::PageUp);
    assert_eq!(e.cursor_position(), at(0, 0));
    e.move_cursor(Key::PageUp);
    assert_eq!(e.cursor_position(), at(0, 0));
}

#[test]
fn other_keys_do_not_move_the_caret() {
    let mut e = editor("ab\n");
    e.move_cursor(Key::Right);
    for key in [Key::Other, Key::Enter, Key::Char('x'), Key::Esc, Key::Delete] {
        e.move_cursor(key);
        assert_eq!(e.cursor_position(), at(1, 0));
    }
    assert_eq!(lines(&e), ["ab"]);
}

#[test]
fn scroll_follows_the_caret_down_and_up() {
    let contents = "x\n".repeat(50);
    let mut e = editor_on(&contents, 80, 12);
    for _ in 0..9 {
        e.process_key(Key::Down, 0);
    }
    assert_eq!(e.cursor_position(), at(0, 9));
    assert_eq!(e.offset(), at(0, 0));
    e.process_key(Key::Down, 0);
    assert_eq!(e.offset(), at(0, 1));
    e.process_key(Key::PageDown, 0);
    assert_eq!(e.cursor_position(), at(0, 20));
    assert_eq!(e.offset(), at(0, 11));
    assert_eq!(e.screen_cursor(), at(0, 9));
    e.process_key(Key::PageUp, 0);
    assert_eq!(e.cursor_position(), at(0, 10));
    assert_eq!(e.offset(), at(0, 10));
    assert_eq!(e.screen_cursor(), at(0, 0));
}

#[test]
fn scroll_follows_the_caret_sideways() {
    let mut e = editor_on("0123456789abcdef\n", 10, 12);
    for _ in 0..9 {
        e.process_key(Key::Right, 0);
    }
    assert_eq!(e.offset(), at(0, 0));
    e.process_key(Key::Right, 0);
    assert_eq!(e.cursor_position(), at(10, 0));
    assert_eq!(e.offset(), at(1, 0));
    assert_eq!(e.screen_line(0), "123456789a");
    assert_eq!(e.screen_cursor(), at(9, 0));
    e.move_cursor(Key::Home);
    e.scroll();
    assert_eq!(e.offset(), at(0, 0));
}

#[test]
fn typing_inserts_and_moves_right() {
    let mut e = editor("");
    press(&mut e, &[Key::Char('h'), Key::Char('i')]);
    assert_eq!(lines(&e), ["hi"]);
    assert_eq!(e.cursor_position(), at(2, 0));
    assert!(e.document().needs_saving());
}

#[test]
fn control_with_another_letter_types_the_letter() {
    let mut e = editor("");
    assert_eq!(e.process_key(Key::Ctrl('x'), 0), Action::Idle);
    assert_eq!(lines(&e), ["x"]);
}

#[test]
fn enter_breaks_the_line_and_goes_to_the_next() {
    let mut e = editor("let x = 5;\n");
    press(&mut e, &[Key::Right, Key::Right, Key::Right, Key::Enter]);
    assert_eq!(lines(&e), ["let", " x = 5;"]);
    assert_eq!(e.cursor_position(), at(0, 1));
}

#[test]
fn delete_removes_the_character_under_the_caret() {
    let mut e = editor("abc\n");
    press(&mut e, &[Key::Right, Key::Delete]);
    assert_eq!(lines(&e), ["ac"]);
    assert_eq!(e.cursor_position(), at(1, 0));
}

#[test]
fn backspace_removes_the_character_before_the_caret() {
    let mut e = editor("abc\n");
    press(&mut e, &[Key::Right, Key::Right, Key::Backspace]);
    assert_eq!(lines(&e), ["ac"]);
    assert_eq!(e.cursor_position(), at(1, 0));
}

#[test]
fn backspace_at_the_start_of_a_line_joins_lines() {
    let mut e = editor("ab\ncd\n");
    press(&mut e, &[Key::Down, Key::Backspace]);
    assert_eq!(lines(&e), ["abcd"]);
    assert_eq!(e.cursor_position(), at(2, 0));
}

#[test]
fn backspace_at_the_very_start_does_nothing() {
    let mut e = editor("ab\n");
    press(&mut e, &[Key::Backspace]);
    assert_eq!(lines(&e), ["ab"]);
    assert!(!e.document().needs_saving());
}

#[test]
fn home_end_and_unknown_keys_are_not_handled() {
    let mut e = editor("ab\n");
    press(&mut e, &[Key::End, Key::Other, Key::Home]);
    assert_eq!(e.cursor_position(), at(0, 0));
    assert_eq!(lines(&e), ["ab"]);
}

#[test]
fn quit_key_stops_a_clean_editor_at_once() {
    let mut e = editor("ab\n");
    assert_eq!(e.process_key(Key::Esc, 0), Action::Idle);
    assert!(e.should_quit());
    let mut e = editor("ab\n");
    e.process_key(Key::Ctrl('c'), 0);
    assert!(e.should_quit());
    assert_eq!(lines(&e), ["ab"]);
}

#[test]
fn quit_key_is_refused_three_times_with_unsaved_changes() {
    let mut e = editor("");
    e.process_key(Key::Char('a'), 0);
    assert_eq!(QUIT_TIMES, 3);
    e.process_key(Key::Esc, 7);
    assert!(!e.should_quit());
    assert_eq!(
        e.message_bar(7),
        "WARNING! File has unsaved changes still. Press Esc 3 more times to quit"
    );
    e.process_key(Key::Ctrl('c'), 8);
    assert_eq!(
        e.message_bar(8),
        "WARNING! File has unsaved changes still. Press Esc 2 more times to quit"
    );
    e.process_key(Key::Esc, 9);
    assert_eq!(
        e.message_bar(9),
        "WARNING! File has unsaved changes still. Press Esc 1 more times to quit"
    );
    assert!(!e.should_quit());
    e.process_key(Key::Esc, 10);
    assert!(e.should_quit());
}

#[test]
fn another_key_starts_the_count_of_quit_keys_again() {
    let mut e = editor("");
    e.process_key(Key::Char('a'), 0);
    e.process_key(Key::Esc, 1);
    e.process_key(Key::Esc, 2);
    e.process_key(Key::Left, 3);
    assert_eq!(e.message_bar(3), "");
    e.process_key(Key::Esc, 4);
    assert_eq!(
        e.message_bar(4),
        "WARNING! File has unsaved changes still. Press Esc 3 more times to quit"
    );
    assert!(!e.should_quit());
}

#[test]
fn save_and_search_keys_are_left_to_the_caller() {
    let mut e = editor("ab\n");
    assert_eq!(e.process_key(Key::Ctrl('s'), 0), Action::Save);
    assert_eq!(e.process_key(Key::Ctrl('f'), 0), Action::Search);
    assert_eq!(lines(&e), ["ab"]);
    assert_eq!(e.cursor_position(), at(0, 0));
    assert_eq!(e.message_bar(0), "HELP");
    assert!(!e.document().needs_saving());
}

#[test]
fn search_preview_moves_to_the_first_match() {
    let mut e = editor_on("one\ntwo\nthree two\n", 80, 4);
    e.search_preview("two");
    assert_eq!(e.cursor_position(), at(0, 1));
    e.search_preview("thr");
    assert_eq!(e.cursor_position(), at(0, 2));
    assert_eq!(e.offset(), at(0, 1));
    e.search_preview("absent");
    assert_eq!(e.cursor_position(), at(0, 2));
    assert_eq!(e.message_bar(0), "HELP");
}

#[test]
fn search_finished_moves_or_reports() {
    let mut e = editor("one\ntwo\n");
    e.search_finished(Some("wo"), 5);
    assert_eq!(e.cursor_position(), at(1, 1));
    assert_eq!(e.message_bar(5), "HELP");
    e.search_finished(Some("four"), 6);
    assert_eq!(e.cursor_position(), at(1, 1));
    assert_eq!(e.message_bar(6), "Not found :four.");
    e.search_finished(None, 7);
    assert_eq!(e.cursor_position(), at(1, 1));
    assert_eq!(e.message_bar(7), "Not found :four.");
}

#[test]
fn save_without_a_name_can_be_given_up() {
    let mut e = Editor::new(
        Document::default(),
        Terminal::with_dimensions(80, 24),
        StatusMessage::from(String::new(), 0),
    );
    assert!(e.needs_file_name());
    e.process_key(Key::Char('1'), 0);
    e.save_aborted(3);
    assert_eq!(e.message_bar(3), "Save aborted.");
    assert!(e.document().needs_saving());
    assert!(e.needs_file_name());
}

#[test]
fn save_finished_marks_the_buffer_as_saved() {
    let mut e = Editor::new(
        Document::default(),
        Terminal::with_dimensions(80, 24),
        StatusMessage::from(String::new(), 0),
    );
    e.process_key(Key::Char('1'), 0);
    e.set_file_name(String::from("one.rs"));
    assert!(!e.needs_file_name());
    assert_eq!(e.document().file_type(), "No filetype");
    assert_eq!(e.document().contents(), "1\n");
    e.save_finished(true, 4);
    assert_eq!(e.message_bar(4), "File saved seccessfully");
    assert!(!e.document().needs_saving());
    assert_eq!(e.document().file_type(), "Rust");
    assert_eq!(e.document().row(0).map(|row| row.highlight_spans().len()), Some(1));
}

#[test]
fn save_finished_reports_a_failed_write() {
    let mut e = editor("ab\n");
    e.process_key(Key::Char('1'), 0);
    e.save_finished(false, 4);
    assert_eq!(e.message_bar(4), "Error while writing this file!");
    assert!(e.document().needs_saving());
}

#[test]
fn a_save_after_a_refused_quit_clears_the_message_bar() {
    let mut e = editor("");
    e.process_key(Key::Char('a'), 0);
    e.process_key(Key::Esc, 1);
    assert_eq!(e.process_key(Key::Ctrl('s'), 2), Action::Save);
    e.save_finished(true, 3);
    assert_eq!(e.message_bar(3), "");
    e.process_key(Key::Char('b'), 4);
    e.process_key(Key::Esc, 5);
    assert_eq!(
        e.message_bar(5),
        "WARNING! File has unsaved changes still. Press Esc 3 more times to quit"
    );
}

#[test]
fn set_status_shows_in_the_message_bar_for_five_seconds() {
    let mut e = editor("");
    e.set_status(String::from("hello"), 1000);
    assert_eq!(MESSAGE_MILLIS, 5000);
    assert_eq!(e.message_bar(1000), "hello");
    assert_eq!(e.message_bar(5999), "hello");
    assert_eq!(e.message_bar(6000), "");
    assert_eq!(e.message_bar(u64::MAX), "");
    assert_eq!(e.message_bar(0), "hello");
}

#[test]
fn message_bar_is_cut_to_the_width() {
    let mut e = editor_on("", 4, 10);
    e.set_status(String::from("häßlich"), 0);
    assert_eq!(e.message_bar(0), "häßl");
}

#[test]
fn prompt_collects_characters() {
    let mut p = Prompt::new();
    assert_eq!(p.text(), None);
    assert!(!p.key(Key::Char('a')));
    assert!(!p.key(Key::Char('b')));
    assert!(!p.key(Key::Ctrl('c')));
    assert_eq!(p.text(), Some(String::from("abc")));
    assert_eq!(p.line("Search: "), "Search: abc");
    assert!(!p.key(Key::Backspace));
    assert_eq!(p.text(), Some(String::from("ab")));
    assert!(!p.key(Key::Left));
    assert!(!p.key(Key::Other));
    assert!(p.key(Key::Enter));
    assert_eq!(p.text(), Some(String::from("ab")));
}

#[test]
fn prompt_ignores_control_characters() {
    let mut p = Prompt::new();
    for c in ['\u{0}', '\t', '\n', '\u{1f}', '\u{7f}', '\u{80}', '\u{9f}'] {
        assert!(!p.key(Key::Char(c)));
    }
    assert_eq!(p.text(), None);
    for c in [' ', '~', '\u{a0}', 'ä'] {
        p.key(Key::Char(c));
    }
    assert_eq!(p.text(), Some(String::from(" ~\u{a0}ä")));
}

#[test]
fn prompt_backspace_on_nothing_and_escape() {
    let mut p = Prompt::new();
    assert!(!p.key(Key::Backspace));
    assert_eq!(p.text(), None);
    p.key(Key::Char('ä'));
    p.key(Key::Backspace);
    assert_eq!(p.text(), None);
    p.key(Key::Char('x'));
    assert!(p.key(Key::Esc));
    assert_eq!(p.text(), None);
    assert_eq!(p.line("Save as: "), "Save as: ");
}

#[test]
fn status_bar_shows_name_lines_and_place() {
    let mut e = editor_on("a\nb\nc\n", 30, 10);
    assert_eq!(e.status_bar(), "file.rs - 3 lines          1/3");
    e.process_key(Key::Down, 0);
    e.process_key(Key::Char('x'), 0);
    assert_eq!(e.status_bar(), "file.rs - 3 lines (modified)2/");
    let e = editor_on("a\nb\nc\n", 40, 10);
    assert_eq!(e.status_bar().chars().count(), 40);
}

#[test]
fn status_bar_marks_unsaved_changes() {
    let mut e = editor_on("a\n", 40, 10);
    e.process_key(Key::Char('x'), 0);
    assert_eq!(e.status_bar(), "file.rs - 1 lines (modified)         1/1");
}

#[test]
fn status_bar_without_a_name_and_with_a_long_one() {
    let e = Editor::new(
        Document::default(),
        Terminal::with_dimensions(30, 10),
        StatusMessage::from(String::new(), 0),
    );
    assert_eq!(e.status_bar(), "[No Name] - 0 lines        1/0");
    let e = Editor::new(
        Document::from_contents("abcdefghijklmnopqrstuvwxyz.txt", "1\n"),
        Terminal::with_dimensions(40, 10),
        StatusMessage::from(String::new(), 0),
    );
    assert_eq!(e.status_bar(), "abcdefghijklmnopqrst - 1 lines       1/1");
}

#[test]
fn status_bar_is_cut_to_a_narrow_screen() {
    let e = editor_on("a\n", 5, 10);
    assert_eq!(e.status_bar(), "file.");
    let e = editor_on("a\n", 0, 10);
    assert_eq!(e.status_bar(), "");
}

#[test]
fn welcome_line_is_moved_towards_the_middle() {
    let e = editor_on("", 35, 10);
    assert_eq!(e.welcome_line(), "~    Welcome to my text editor");
    let e = editor_on("", 25, 10);
    assert_eq!(e.welcome_line(), "~Welcome to my text edito");
    let e = editor_on("", 27, 10);
    assert_eq!(e.welcome_line(), "~Welcome to my text editor");
    let e = editor_on("", 0, 10);
    assert_eq!(e.welcome_line(), "");
}

#[test]
fn screen_lines_of_an_empty_buffer() {
    let e = editor_on("", 35, 11);
    assert_eq!(e.screen_line(0), "~");
    assert_eq!(e.screen_line(3), "~    Welcome to my text editor");
    assert_eq!(e.screen_line(4), "~");
}

#[test]
fn screen_lines_show_the_buffer() {
    let e = editor_on("hello world\nx\n", 5, 11);
    assert_eq!(e.screen_line(0), "hello");
    assert_eq!(e.screen_line(1), "x");
    assert_eq!(e.screen_line(2), "~");
    assert_eq!(e.screen_line(3), "~");
    assert_eq!(e.screen_line(u16::MAX), "~");
}

#[test]
fn screen_categories_follow_the_view() {
    let mut e = editor_on("ab 12 // c\nx\n", 4, 11);
    assert_eq!(
        e.screen_categories(0),
        vec![Category::Plain, Category::Plain, Category::Plain, Category::Number]
    );
    assert_eq!(e.screen_categories(1), vec![Category::Plain]);
    assert_eq!(e.screen_categories(2), vec![]);
    for _ in 0..6 {
        e.process_key(Key::Right, 0);
    }
    assert_eq!(e.offset(), at(3, 0));
    assert_eq!(e.screen_line(0), "12 /");
    assert_eq!(
        e.screen_categories(0),
        vec![Category::Number, Category::Number, Category::Plain, Category::Comment]
    );
    assert_eq!(e.screen_size(), Size { width: 4, height: 9 });
}
