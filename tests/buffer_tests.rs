use zen_vim::buffer::Buffer;
use zen_vim::{EditorError, Position};

fn buffer_with(lines: &[&str]) -> Buffer {
    let mut b = Buffer::new(1, "t".to_string());
    b.content = lines.iter().map(|s| s.to_string()).collect();
    b
}

fn lines(b: &Buffer) -> Vec<&str> {
    b.content.iter().map(|s| s.as_str()).collect()
}

#[test]
fn insert_char_scenario() {
    let mut b = buffer_with(&["ab"]);
    b.insert_char('X');
    assert_eq!(lines(&b), vec!["Xab"]);
    assert_eq!(b.cursor.position(), Position { row: 0, col: 1 });
    assert!(b.modified);
}

#[test]
fn new_buffer_has_one_blank_line() {
    let b = Buffer::new(7, "scratch".to_string());
    assert_eq!(b.id, 7);
    assert_eq!(b.name, "scratch");
    assert_eq!(lines(&b), vec![""]);
    assert_eq!(b.cursor.position(), Position { row: 0, col: 0 });
    assert!(!b.modified);
    assert!(b.path.is_none());
}

#[test]
fn insert_char_counts_columns_in_characters() {
    let mut b = buffer_with(&["héllo"]);
    b.cursor.move_to_position(Position { row: 0, col: 2 });
    b.insert_char('ß');
    assert_eq!(lines(&b), vec!["héßllo"]);
    assert_eq!(b.cursor.position(), Position { row: 0, col: 3 });
}

#[test]
fn insert_newline_splits_line() {
    let mut b = buffer_with(&["hello world"]);
    b.cursor.move_to_position(Position { row: 0, col: 5 });
    b.insert_newline();
    assert_eq!(lines(&b), vec!["hello", " world"]);
    assert_eq!(b.cursor.position(), Position { row: 1, col: 0 });
    assert!(b.modified);
}

#[test]
fn backspace_deletes_left_of_cursor() {
    let mut b = buffer_with(&["abc"]);
    b.cursor.move_to_position(Position { row: 0, col: 2 });
    b.backspace();
    assert_eq!(lines(&b), vec!["ac"]);
    assert_eq!(b.cursor.position(), Position { row: 0, col: 1 });
}

#[test]
fn backspace_at_line_start_joins_lines() {
    let mut b = buffer_with(&["ab", "cd"]);
    b.cursor.move_to_position(Position { row: 1, col: 0 });
    b.backspace();
    assert_eq!(lines(&b), vec!["abcd"]);
    assert_eq!(b.cursor.position(), Position { row: 0, col: 2 });
}

#[test]
fn backspace_at_buffer_start_changes_nothing() {
    let mut b = buffer_with(&["ab"]);
    b.backspace();
    assert_eq!(lines(&b), vec!["ab"]);
    assert_eq!(b.cursor.position(), Position { row: 0, col: 0 });
    assert!(!b.modified);
}

#[test]
fn delete_char_under_cursor() {
    let mut b = buffer_with(&["abc"]);
    b.cursor.move_to_position(Position { row: 0, col: 1 });
    b.delete_char();
    assert_eq!(lines(&b), vec!["ac"]);
    assert_eq!(b.cursor.position(), Position { row: 0, col: 1 });
}

#[test]
fn delete_char_at_line_end_joins_next_line() {
    let mut b = buffer_with(&["ab", "cd"]);
    b.cursor.move_to_position(Position { row: 0, col: 2 });
    b.delete_char();
    assert_eq!(lines(&b), vec!["abcd"]);
    assert_eq!(b.cursor.position(), Position { row: 0, col: 2 });
}

#[test]
fn delete_line_of_only_line_empties_it() {
    let mut b = buffer_with(&["abc"]);
    b.cursor.move_to_position(Position { row: 0, col: 2 });
    b.delete_line();
    assert_eq!(lines(&b), vec![""]);
    assert_eq!(b.cursor.position(), Position { row: 0, col: 0 });
}

#[test]
fn delete_last_line_moves_cursor_up() {
    let mut b = buffer_with(&["a", "b", "c"]);
    b.cursor.move_to_position(Position { row: 2, col: 1 });
    b.delete_line();
    assert_eq!(lines(&b), vec!["a", "b"]);
    assert_eq!(b.cursor.position(), Position { row: 1, col: 0 });
}

#[test]
fn delete_middle_line_keeps_row() {
    let mut b = buffer_with(&["a", "b", "c"]);
    b.cursor.move_to_position(Position { row: 1, col: 1 });
    b.delete_line();
    assert_eq!(lines(&b), vec!["a", "c"]);
    assert_eq!(b.cursor.position(), Position { row: 1, col: 0 });
}

#[test]
fn open_line_below_and_above() {
    let mut b = buffer_with(&["a", "b"]);
    b.insert_line_below();
    assert_eq!(lines(&b), vec!["a", "", "b"]);
    assert_eq!(b.cursor.position(), Position { row: 1, col: 0 });
    b.insert_line_above();
    assert_eq!(lines(&b), vec!["a", "", "", "b"]);
    assert_eq!(b.cursor.position(), Position { row: 1, col: 0 });
    b.undo();
    b.undo();
    assert_eq!(lines(&b), vec!["a", "b"]);
}

#[test]
fn undo_then_redo_restores_edit_sequence() {
    let mut b = buffer_with(&["ab"]);
    b.insert_char('1');
    b.insert_newline();
    b.insert_char('2');
    b.backspace();
    b.delete_line();
    let after: Vec<String> = b.content.clone();
    for _ in 0..5 {
        b.undo();
    }
    assert_eq!(lines(&b), vec!["ab"]);
    for _ in 0..5 {
        b.redo();
    }
    assert_eq!(b.content, after);
}

#[test]
fn undo_moves_cursor_back_within_content() {
    let mut b = buffer_with(&["ab"]);
    b.cursor.move_to_position(Position { row: 0, col: 2 });
    b.insert_newline();
    assert_eq!(b.cursor.position(), Position { row: 1, col: 0 });
    b.undo();
    assert_eq!(lines(&b), vec!["ab"]);
    assert_eq!(b.cursor.position(), Position { row: 0, col: 0 });
    assert!(b.modified);
}

#[test]
fn undo_with_nothing_to_undo_changes_nothing() {
    let mut b = buffer_with(&["ab"]);
    b.undo();
    b.redo();
    assert_eq!(lines(&b), vec!["ab"]);
    assert!(!b.modified);
}

#[test]
fn new_edit_clears_redo() {
    let mut b = buffer_with(&["a"]);
    b.insert_char('x');
    b.undo();
    b.insert_char('y');
    b.redo();
    assert_eq!(lines(&b), vec!["ay"]);
}

#[test]
fn undo_stack_holds_at_most_one_hundred_snapshots() {
    let mut b = buffer_with(&[""]);
    for _ in 0..150 {
        b.insert_char('x');
    }
    assert_eq!(b.undo_stack.len(), 100);
    for _ in 0..150 {
        b.undo();
    }
    assert_eq!(b.content, vec!["x".repeat(50)]);
    assert_eq!(b.undo_stack.len(), 0);
    assert_eq!(b.redo_stack.len(), 100);
}

#[test]
fn text_joins_lines_with_newlines() {
    let b = buffer_with(&["a", "", "b"]);
    assert_eq!(b.text(), "a\n\nb");
    let one = buffer_with(&[""]);
    assert_eq!(one.text(), "");
}

#[test]
fn save_then_reopen_gives_same_lines() {
    for content in [vec!["a", "", "b"], vec![""], vec!["x", ""], vec!["", ""], vec!["tab\there", "crlf\r"]] {
        let b = buffer_with(&content);
        let reopened = Buffer::from_file(2, "/tmp/f.txt", Some(b.text().as_str()));
        assert_eq!(reopened.content, b.content);
    }
}

#[test]
fn from_file_splits_text_and_names_buffer() {
    let b = Buffer::from_file(3, "/home/u/notes.md", Some("one\ntwo\n"));
    assert_eq!(lines(&b), vec!["one", "two", ""]);
    assert_eq!(b.name, "notes.md");
    assert_eq!(b.path.as_deref(), Some("/home/u/notes.md"));
    assert!(!b.modified);
}

#[test]
fn from_missing_file_gives_one_blank_line() {
    let b = Buffer::from_file(3, "new.txt", None);
    assert_eq!(lines(&b), vec![""]);
    assert_eq!(b.name, "new.txt");
}

#[test]
fn from_file_without_file_name_is_untitled() {
    let b = Buffer::from_file(3, "/", Some(""));
    assert_eq!(b.name, "untitled");
    assert_eq!(lines(&b), vec![""]);
}

#[test]
fn save_target_without_path_is_an_error() {
    let b = buffer_with(&["a"]);
    assert_eq!(b.save_target(), Err(EditorError::NoFilePath));
    let f = Buffer::from_file(1, "x.txt", None);
    assert_eq!(f.save_target(), Ok("x.txt".to_string()));
}

#[test]
fn mark_saved_adopts_path_and_clears_modified() {
    let mut b = buffer_with(&["a"]);
    b.insert_char('b');
    b.mark_saved("out.txt".to_string());
    assert_eq!(b.path.as_deref(), Some("out.txt"));
    assert!(!b.modified);
}

#[test]
fn get_line_and_line_count() {
    let b = buffer_with(&["a", "b"]);
    assert_eq!(b.line_count(), 2);
    assert_eq!(b.get_line(1).map(|s| s.as_str()), Some("b"));
    assert!(b.get_line(2).is_none());
}

#[test]
fn cursor_stays_within_content_after_every_edit() {
    let mut b = buffer_with(&["abc", "de", ""]);
    let ops: Vec<fn(&mut Buffer)> = vec![
        |b| b.insert_char('q'),
        |b| b.insert_newline(),
        |b| b.backspace(),
        |b| b.delete_char(),
        |b| b.delete_line(),
        |b| b.undo(),
        |b| b.redo(),
        |b| b.insert_line_below(),
        |b| b.insert_line_above(),
    ];
    for round in 0..60 {
        let op = ops[(round * 7 + 3) % ops.len()];
        op(&mut b);
        let pos = b.cursor.position();
        assert!(!b.content.is_empty());
        assert!(pos.row < b.content.len());
        assert!(pos.col <= b.content[pos.row].chars().count());
    }
}
