use notula::cursor::CursorPosition;
use notula::lines::split_lines;
use notula::text_ops::{
    delete_char_at_position, get_char_offset, insert_newline_at_position, insert_text_at_position,
};

#[test]
fn split_keeps_trailing_line() {
    let parts = split_lines("a\nb\n");
    assert_eq!(parts, vec![String::from("a"), String::from("b"), String::new()]);
    assert_eq!(split_lines(""), vec![String::new()]);
    assert_eq!(split_lines("xy"), vec![String::from("xy")]);
    assert_eq!(split_lines("\n"), vec![String::new(), String::new()]);
}

#[test]
fn cursor_getters() {
    let c = CursorPosition::new(2, 5);
    assert_eq!(c.get_line_position(), 2);
    assert_eq!(c.get_column_position(), 5);
}

#[test]
fn cursor_moves_within_two_lines() {
    let text = "hello\nhi";
    let mut c = CursorPosition::new(0, 4);
    c.move_down(text);
    assert_eq!((c.line, c.column), (1, 2));
    c.move_up(text);
    assert_eq!((c.line, c.column), (0, 2));
    c.move_left(text);
    assert_eq!((c.line, c.column), (0, 1));
    c.move_right(text);
    assert_eq!((c.line, c.column), (0, 2));
}

#[test]
fn cursor_wraps_at_line_boundaries() {
    let text = "ab\ncd";
    let mut c = CursorPosition::new(0, 2);
    c.move_right(text);
    assert_eq!((c.line, c.column), (1, 0));
    c.move_left(text);
    assert_eq!((c.line, c.column), (0, 2));
}

#[test]
fn cursor_enters_trailing_line_after_final_separator() {
    // "ab\n" has a materialized trailing empty line below "ab"
    let text = "ab\n";
    let mut c = CursorPosition::new(0, 2);
    c.move_down(text);
    assert_eq!((c.line, c.column), (1, 0));
    // at the very end nothing moves further
    c.move_right(text);
    assert_eq!((c.line, c.column), (1, 0));
    c.move_down(text);
    assert_eq!((c.line, c.column), (1, 0));
}

#[test]
fn cursor_jump_clamps_both_coordinates() {
    let text = "hello\nhi";
    let mut c = CursorPosition::new(0, 0);
    c.move_to_line_and_column(9, 9, text);
    assert_eq!((c.line, c.column), (1, 2));
    c.move_to_line_and_column(0, 3, text);
    assert_eq!((c.line, c.column), (0, 3));
    c.move_to_line_end(text);
    assert_eq!((c.line, c.column), (0, 5));
    c.move_to_line_start();
    assert_eq!((c.line, c.column), (0, 0));
}

#[test]
fn cursor_move_right_by_adds_columns() {
    let mut c = CursorPosition::new(0, 1);
    c.move_right_by(4);
    assert_eq!((c.line, c.column), (0, 5));
}

#[test]
fn offset_counts_lines_and_separators() {
    let text = "ab\ncd\nef";
    assert_eq!(get_char_offset(text, CursorPosition::new(0, 0)), 0);
    assert_eq!(get_char_offset(text, CursorPosition::new(0, 2)), 2);
    assert_eq!(get_char_offset(text, CursorPosition::new(1, 1)), 4);
    assert_eq!(get_char_offset(text, CursorPosition::new(2, 2)), 8);
}

#[test]
fn insert_text_at_cursor_position() {
    let mut text = String::from("ab\ncd");
    insert_text_at_position(&mut text, CursorPosition::new(1, 1), "X");
    assert_eq!(text, String::from("ab\ncXd"));
    insert_text_at_position(&mut text, CursorPosition::new(0, 0), ">>");
    assert_eq!(text, String::from(">>ab\ncXd"));
}

#[test]
fn insert_newline_splits_flat_text() {
    let mut text = String::from("abcd");
    insert_newline_at_position(&mut text, CursorPosition::new(0, 2));
    assert_eq!(text, String::from("ab\ncd"));
}

#[test]
fn delete_char_before_cursor_position() {
    let mut text = String::from("ab\ncd");
    delete_char_at_position(&mut text, CursorPosition::new(1, 1));
    assert_eq!(text, String::from("ab\nd"));
    // at line start the separator before the cursor is removed
    let mut text2 = String::from("ab\ncd");
    delete_char_at_position(&mut text2, CursorPosition::new(1, 0));
    assert_eq!(text2, String::from("abcd"));
    // at the very start of the text nothing happens
    let mut text3 = String::from("ab");
    delete_char_at_position(&mut text3, CursorPosition::new(0, 0));
    assert_eq!(text3, String::from("ab"));
}

#[test]
fn multibyte_characters_count_as_one_column() {
    let mut text = String::from("héllo");
    insert_text_at_position(&mut text, CursorPosition::new(0, 2), "X");
    assert_eq!(text, String::from("héXllo"));
    let mut c = CursorPosition::new(0, 0);
    c.move_to_line_end(text.as_str());
    assert_eq!(c.column, 6);
}
