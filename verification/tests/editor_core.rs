use notula::document::{DocumentLine, LineElement};
use notula::editor::{EditorCore, InputEvent};

fn text_line(s: &str) -> DocumentLine {
    DocumentLine {
        element: LineElement::Text(String::from(s)),
    }
}

fn image_line(id: &str, width: u32, height: u32) -> DocumentLine {
    DocumentLine {
        element: LineElement::Image {
            id: String::from(id),
            width,
            height,
        },
    }
}

fn texts(lines: &Vec<DocumentLine>) -> Vec<String> {
    lines.iter().map(|l| l.text_content()).collect()
}

#[test]
fn insert_char_advances_cursor() {
    // document ["ab|c"] with the cursor at column 2
    let mut lines = vec![text_line("abc")];
    let mut core = EditorCore::new();
    core.cursor_col = 2;
    let modified = core.insert_char('X', &mut lines);
    assert!(modified);
    assert_eq!(texts(&lines), vec![String::from("abXc")]);
    assert_eq!(core.cursor_line, 0);
    assert_eq!(core.cursor_col, 3);
}

#[test]
fn backspace_at_line_start_merges() {
    // ["abc", "def"] with the cursor at (1,0)
    let mut lines = vec![text_line("abc"), text_line("def")];
    let mut core = EditorCore::new();
    core.cursor_line = 1;
    core.cursor_col = 0;
    let modified = core.handle_backspace(&mut lines);
    assert!(modified);
    assert_eq!(texts(&lines), vec![String::from("abcdef")]);
    assert_eq!(core.cursor_line, 0);
    assert_eq!(core.cursor_col, 3);
}

#[test]
fn delete_selection_across_lines() {
    // selection from (0,1) to (1,2) over ["hello", "world"]
    let mut lines = vec![text_line("hello"), text_line("world")];
    let mut core = EditorCore::new();
    core.selection_start = Some((0, 1));
    core.selection_end = Some((1, 2));
    let modified = core.delete_selection(&mut lines);
    assert!(modified);
    assert_eq!(texts(&lines), vec![String::from("hrld")]);
    assert_eq!(core.cursor_line, 0);
    assert_eq!(core.cursor_col, 1);
}

#[test]
fn delete_selection_clears_selection() {
    let mut lines = vec![text_line("hello")];
    let mut core = EditorCore::new();
    core.selection_start = Some((0, 1));
    core.selection_end = Some((0, 3));
    assert!(core.has_selection());
    assert!(core.delete_selection(&mut lines));
    assert!(!core.has_selection());
    assert_eq!(texts(&lines), vec![String::from("hlo")]);

    // without an active selection it reports no deletion, and still no
    // selection is active afterward
    let mut idle = EditorCore::new();
    assert!(!idle.delete_selection(&mut lines));
    assert!(!idle.has_selection());
}

#[test]
fn delete_selection_same_line_reversed_anchors() {
    let mut lines = vec![text_line("hello")];
    let mut core = EditorCore::new();
    core.selection_start = Some((0, 4));
    core.selection_end = Some((0, 1));
    assert!(core.delete_selection(&mut lines));
    assert_eq!(texts(&lines), vec![String::from("ho")]);
    assert_eq!(core.cursor_col, 1);
}

#[test]
fn insert_then_backspace_restores_line() {
    let mut lines = vec![text_line("hello")];
    let mut core = EditorCore::new();
    core.cursor_col = 3;
    assert!(core.insert_char('Z', &mut lines));
    assert_eq!(texts(&lines), vec![String::from("helZlo")]);
    assert!(core.handle_backspace(&mut lines));
    assert_eq!(texts(&lines), vec![String::from("hello")]);
    assert_eq!(core.cursor_col, 3);
}

#[test]
fn enter_then_backspace_restores_line() {
    let mut lines = vec![text_line("hello")];
    let mut core = EditorCore::new();
    core.cursor_col = 2;
    assert!(core.handle_enter(&mut lines));
    assert_eq!(texts(&lines), vec![String::from("he"), String::from("llo")]);
    assert_eq!(core.cursor_line, 1);
    assert_eq!(core.cursor_col, 0);
    assert!(core.handle_backspace(&mut lines));
    assert_eq!(texts(&lines), vec![String::from("hello")]);
    assert_eq!(core.cursor_line, 0);
    assert_eq!(core.cursor_col, 2);
}

#[test]
fn insert_on_phantom_line_materializes_it() {
    let mut lines = vec![text_line("ab")];
    let mut core = EditorCore::new();
    core.cursor_line = 1;
    core.cursor_col = 0;
    assert!(core.insert_char('x', &mut lines));
    assert_eq!(texts(&lines), vec![String::from("ab"), String::from("x")]);
    assert_eq!(core.cursor_line, 1);
    assert_eq!(core.cursor_col, 1);
}

#[test]
fn insert_on_image_line_is_rejected() {
    let mut lines = vec![image_line("pic", 4, 4)];
    let mut core = EditorCore::new();
    let modified = core.insert_char('x', &mut lines);
    assert!(!modified);
    assert_eq!(lines.len(), 1);
    assert!(!lines[0].is_empty());
    assert_eq!(lines[0].text_content(), String::new());
}

#[test]
fn forward_delete_within_and_across_lines() {
    let mut lines = vec![text_line("ab"), text_line("cd")];
    let mut core = EditorCore::new();
    core.cursor_col = 1;
    assert!(core.handle_delete(&mut lines));
    assert_eq!(texts(&lines), vec![String::from("a"), String::from("cd")]);
    // now at the end of the first line: the next line merges up
    assert!(core.handle_delete(&mut lines));
    assert_eq!(texts(&lines), vec![String::from("acd")]);
    // cursor did not move
    assert_eq!(core.cursor_line, 0);
    assert_eq!(core.cursor_col, 1);
    // at the very end of the document nothing happens
    core.cursor_col = 3;
    assert!(!core.handle_delete(&mut lines));
}

#[test]
fn cursor_moves_clamp_to_line_lengths() {
    let lines = vec![text_line("long line"), text_line("ab")];
    let mut core = EditorCore::new();
    core.cursor_col = 9;
    core.move_cursor_down(&lines);
    assert_eq!(core.cursor_line, 1);
    assert_eq!(core.cursor_col, 2);
    core.move_cursor_up(&lines);
    assert_eq!(core.cursor_line, 0);
    assert_eq!(core.cursor_col, 2);
    core.move_cursor_left(&lines);
    assert_eq!(core.cursor_col, 1);
    // wrap to previous line end
    let mut wrap = EditorCore::new();
    wrap.cursor_line = 1;
    wrap.cursor_col = 0;
    wrap.move_cursor_left(&lines);
    assert_eq!(wrap.cursor_line, 0);
    assert_eq!(wrap.cursor_col, 9);
    // wrap to next line start
    wrap.move_cursor_right(&lines);
    assert_eq!(wrap.cursor_line, 1);
    assert_eq!(wrap.cursor_col, 0);
}

#[test]
fn handle_event_types_text_and_skips_controls() {
    let mut lines = vec![text_line("ab")];
    let mut core = EditorCore::new();
    core.cursor_col = 1;
    let modified = core.handle_event(&InputEvent::Text(String::from("x\u{7}y")), &mut lines);
    assert!(modified);
    assert_eq!(texts(&lines), vec![String::from("axyb")]);
    assert_eq!(core.cursor_col, 3);
    assert!(!core.has_selection());
}

#[test]
fn handle_event_replaces_selection_with_text() {
    let mut lines = vec![text_line("hello")];
    let mut core = EditorCore::new();
    core.selection_start = Some((0, 1));
    core.selection_end = Some((0, 4));
    let modified = core.handle_event(&InputEvent::Text(String::from("i")), &mut lines);
    assert!(modified);
    assert_eq!(texts(&lines), vec![String::from("hio")]);
    assert_eq!(core.cursor_col, 2);
}

#[test]
fn handle_event_shift_arrows_grow_selection() {
    let mut lines = vec![text_line("abc")];
    let mut core = EditorCore::new();
    assert!(!core.handle_event(&InputEvent::ArrowRight { shift: true }, &mut lines));
    assert!(core.has_selection());
    assert_eq!(core.selection_start, Some((0, 0)));
    assert_eq!(core.selection_end, Some((0, 1)));
    assert!(!core.handle_event(&InputEvent::ArrowRight { shift: true }, &mut lines));
    assert_eq!(core.selection_end, Some((0, 2)));
    // a plain arrow clears the selection
    assert!(!core.handle_event(&InputEvent::ArrowLeft { shift: false }, &mut lines));
    assert!(!core.has_selection());
    assert_eq!(core.cursor_col, 1);
}

#[test]
fn handle_event_select_all_then_backspace_empties_document() {
    let mut lines = vec![text_line("abc"), text_line("defg")];
    let mut core = EditorCore::new();
    assert!(!core.handle_event(&InputEvent::SelectAll, &mut lines));
    assert_eq!(core.selection_start, Some((0, 0)));
    assert_eq!(core.selection_end, Some((1, 4)));
    assert!(core.handle_event(&InputEvent::Backspace, &mut lines));
    assert_eq!(texts(&lines), vec![String::new()]);
    assert_eq!(core.cursor_line, 0);
    assert_eq!(core.cursor_col, 0);
}

#[test]
fn handle_event_enter_splits_line() {
    let mut lines = vec![text_line("abcd")];
    let mut core = EditorCore::new();
    core.cursor_col = 2;
    assert!(core.handle_event(&InputEvent::Enter, &mut lines));
    assert_eq!(texts(&lines), vec![String::from("ab"), String::from("cd")]);
    assert_eq!(core.cursor_line, 1);
    assert_eq!(core.cursor_col, 0);
}

#[test]
fn reset_restores_initial_state() {
    let mut core = EditorCore::new();
    core.cursor_line = 3;
    core.cursor_col = 7;
    core.selection_start = Some((1, 1));
    core.selection_end = Some((2, 2));
    core.reset();
    assert_eq!(core.cursor_line, 0);
    assert_eq!(core.cursor_col, 0);
    assert_eq!(core.selection_start, None);
    assert_eq!(core.selection_end, None);
}

#[test]
fn selection_anchors_follow_cursor() {
    let mut core = EditorCore::new();
    core.cursor_line = 1;
    core.cursor_col = 2;
    core.start_selection();
    assert_eq!(core.selection_start, Some((1, 2)));
    assert_eq!(core.selection_end, Some((1, 2)));
    assert!(!core.has_selection());
    core.cursor_col = 4;
    core.update_selection();
    assert_eq!(core.selection_end, Some((1, 4)));
    assert!(core.has_selection());
    core.clear_selection();
    assert_eq!(core.selection_start, None);
    assert_eq!(core.selection_end, None);
}

#[test]
fn backspace_at_phantom_line_start_moves_cursor_only() {
    // the cursor may rest one past the last stored line; backspace there
    // only moves it to the end of the last stored line
    let mut lines = vec![text_line("ab")];
    let mut core = EditorCore::new();
    core.cursor_line = 1;
    core.cursor_col = 0;
    let modified = core.handle_backspace(&mut lines);
    assert!(!modified);
    assert_eq!(texts(&lines), vec![String::from("ab")]);
    assert_eq!(core.cursor_line, 0);
    assert_eq!(core.cursor_col, 2);
}

#[test]
fn backspace_at_document_start_is_a_no_op() {
    let mut lines = vec![text_line("ab")];
    let mut core = EditorCore::new();
    assert!(!core.handle_backspace(&mut lines));
    assert_eq!(texts(&lines), vec![String::from("ab")]);
    assert_eq!(core.cursor_line, 0);
    assert_eq!(core.cursor_col, 0);
}

#[test]
fn update_selection_without_start_is_a_no_op() {
    let mut core = EditorCore::new();
    core.cursor_col = 3;
    core.update_selection();
    assert_eq!(core.selection_start, None);
    assert_eq!(core.selection_end, None);
}

#[test]
fn handle_event_delete_replaces_selection() {
    let mut lines = vec![text_line("abc"), text_line("def")];
    let mut core = EditorCore::new();
    core.selection_start = Some((0, 2));
    core.selection_end = Some((1, 1));
    assert!(core.handle_event(&InputEvent::Delete, &mut lines));
    assert_eq!(texts(&lines), vec![String::from("abef")]);
    assert_eq!(core.cursor_line, 0);
    assert_eq!(core.cursor_col, 2);
    assert!(!core.has_selection());
}

#[test]
fn backspace_merges_empty_line_after_image() {
    let mut lines = vec![image_line("pic", 8, 8), text_line("x")];
    let mut core = EditorCore::new();
    core.cursor_line = 1;
    core.cursor_col = 0;
    assert!(core.handle_backspace(&mut lines));
    // the text line is dropped; the image line cannot absorb its text
    assert_eq!(lines.len(), 1);
    assert_eq!(core.cursor_line, 0);
    assert_eq!(core.cursor_col, 0);
}
