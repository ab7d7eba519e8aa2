use zen_vim::{BufferManager, EditorError, Position};

fn manager_with(lines: &[&str]) -> BufferManager {
    let mut m = BufferManager::new();
    m.create_buffer("one".to_string());
    m.current_buffer_mut().unwrap().content = lines.iter().map(|s| s.to_string()).collect();
    m
}

fn cursor(m: &BufferManager) -> (usize, usize) {
    let p = m.current_buffer().unwrap().cursor.position();
    (p.row, p.col)
}

#[test]
fn close_modified_buffer_is_refused() {
    let mut m = BufferManager::new();
    let id = m.create_buffer("a".to_string());
    assert_eq!(id, 1);
    m.insert_char('x');
    assert_eq!(m.close_buffer(1), Err(EditorError::UnsavedChanges));
    assert_eq!(m.list_buffers().len(), 1);
    assert_eq!(m.current_buffer().unwrap().id, 1);
}

#[test]
fn ids_increase_and_new_buffer_is_current() {
    let mut m = BufferManager::new();
    assert!(m.is_empty());
    assert_eq!(m.create_buffer("a".to_string()), 1);
    assert_eq!(m.open_file("b.txt", Some("x\ny")), 2);
    assert_eq!(m.create_buffer("c".to_string()), 3);
    assert_eq!(m.current_buffer().unwrap().id, 3);
    let ids: Vec<usize> = m.list_buffers().iter().map(|b| b.id).collect();
    assert_eq!(ids, vec![1, 2, 3]);
    assert!(m.has_free_id());
}

#[test]
fn close_current_picks_a_remaining_buffer() {
    let mut m = BufferManager::new();
    m.create_buffer("a".to_string());
    m.create_buffer("b".to_string());
    assert_eq!(m.close_buffer(2), Ok(()));
    assert_eq!(m.current_buffer().unwrap().id, 1);
    assert_eq!(m.close_buffer(1), Ok(()));
    assert!(m.current_buffer().is_none());
    assert!(m.is_empty());
    assert_eq!(m.close_buffer(9), Ok(()));
}

#[test]
fn switch_buffer_only_to_open_ids() {
    let mut m = BufferManager::new();
    m.create_buffer("a".to_string());
    m.create_buffer("b".to_string());
    assert!(m.switch_buffer(1));
    assert_eq!(m.current_buffer().unwrap().id, 1);
    assert!(!m.switch_buffer(5));
    assert_eq!(m.current_buffer().unwrap().id, 1);
}

#[test]
fn next_and_previous_buffer_wrap_around() {
    let mut m = BufferManager::new();
    m.create_buffer("a".to_string());
    m.create_buffer("b".to_string());
    m.create_buffer("c".to_string());
    m.next_buffer();
    assert_eq!(m.current_buffer().unwrap().id, 1);
    m.previous_buffer();
    assert_eq!(m.current_buffer().unwrap().id, 3);
    m.previous_buffer();
    assert_eq!(m.current_buffer().unwrap().id, 2);
}

#[test]
fn operations_without_current_buffer_do_nothing() {
    let mut m = BufferManager::new();
    m.move_cursor_left();
    m.insert_char('a');
    m.delete_line();
    m.undo();
    m.next_buffer();
    assert!(m.is_empty());
    assert!(m.current_buffer().is_none());
    assert_eq!(m.save_current().err(), Some(EditorError::NoCurrentBuffer));
    assert_eq!(m.save_current_as("x").err(), Some(EditorError::NoCurrentBuffer));
}

#[test]
fn save_current_needs_a_path() {
    let mut m = manager_with(&["a", "b"]);
    assert_eq!(m.save_current().err(), Some(EditorError::NoFilePath));
    let req = m.save_current_as("out.txt").unwrap();
    assert_eq!(req.id, 1);
    assert_eq!(req.path, "out.txt");
    assert_eq!(req.text, "a\nb");
    m.insert_char('z');
    m.mark_saved(req.id, req.path);
    let b = m.current_buffer().unwrap();
    assert!(!b.modified);
    assert_eq!(b.path.as_deref(), Some("out.txt"));
    let again = m.save_current().unwrap();
    assert_eq!(again.text, "za\nb");
}

#[test]
fn open_file_reads_lines() {
    let mut m = BufferManager::new();
    m.open_file("dir/notes.txt", Some("one\ntwo"));
    let b = m.current_buffer().unwrap();
    assert_eq!(b.content, vec!["one".to_string(), "two".to_string()]);
    assert_eq!(b.name, "notes.txt");
}

#[test]
fn line_and_file_motions() {
    let mut m = manager_with(&["abc", "de", "fghi"]);
    m.move_to_line_end();
    assert_eq!(cursor(&m), (0, 3));
    m.move_to_line_start();
    assert_eq!(cursor(&m), (0, 0));
    m.move_to_file_end();
    assert_eq!(cursor(&m), (2, 4));
    m.move_to_file_start();
    assert_eq!(cursor(&m), (0, 0));
    m.move_cursor_down();
    m.move_cursor_right();
    assert_eq!(cursor(&m), (1, 1));
    m.move_cursor_up();
    m.move_cursor_left();
    assert_eq!(cursor(&m), (0, 0));
}

#[test]
fn word_motions_through_manager() {
    let mut m = manager_with(&["hello big world"]);
    m.move_word_forward();
    assert_eq!(cursor(&m), (0, 6));
    m.move_to_end_of_word();
    assert_eq!(cursor(&m), (0, 14));
    m.move_word_backward();
    assert_eq!(cursor(&m), (0, 10));
    m.move_word_forward_whitespace();
    assert_eq!(cursor(&m), (0, 10));
    m.move_word_backward_whitespace();
    assert_eq!(cursor(&m), (0, 6));
}

#[test]
fn edits_through_manager() {
    let mut m = manager_with(&["ab"]);
    m.insert_tab();
    m.insert_newline();
    m.insert_char('c');
    assert_eq!(m.current_buffer().unwrap().content, vec!["\t".to_string(), "cab".to_string()]);
    m.backspace();
    m.delete_char();
    assert_eq!(m.current_buffer().unwrap().content, vec!["\t".to_string(), "b".to_string()]);
    m.insert_line_above();
    m.insert_line_below();
    assert_eq!(m.current_buffer().unwrap().content.len(), 4);
    m.undo();
    m.undo();
    m.redo();
    assert_eq!(m.current_buffer().unwrap().content.len(), 3);
}

#[test]
fn search_forward_wraps_to_start() {
    let mut m = manager_with(&["foo", "bar", "baz"]);
    m.current_buffer_mut().unwrap().cursor.move_to_position(Position { row: 2, col: 0 });
    m.jump_to_match("foo", true);
    assert_eq!(cursor(&m), (0, 0));
}

#[test]
fn search_forward_skips_match_under_cursor() {
    let mut m = manager_with(&["foo foo", "x foo"]);
    m.jump_to_match("foo", true);
    assert_eq!(cursor(&m), (0, 4));
    m.jump_to_match("foo", true);
    assert_eq!(cursor(&m), (1, 2));
    m.jump_to_match("foo", true);
    assert_eq!(cursor(&m), (0, 0));
}

#[test]
fn search_backward_wraps_to_end() {
    let mut m = manager_with(&["foo", "bar foo", "foo x"]);
    m.jump_to_match("foo", false);
    assert_eq!(cursor(&m), (2, 0));
    m.jump_to_match("foo", false);
    assert_eq!(cursor(&m), (1, 4));
}

#[test]
fn search_not_found_leaves_cursor() {
    let mut m = manager_with(&["abc", "def"]);
    m.move_cursor_right();
    m.jump_to_match("zzz", true);
    assert_eq!(cursor(&m), (0, 1));
    m.jump_to_match("zzz", false);
    assert_eq!(cursor(&m), (0, 1));
}

#[test]
fn search_counts_columns_in_characters() {
    let mut m = manager_with(&["ééé foo"]);
    m.jump_to_match("foo", true);
    assert_eq!(cursor(&m), (0, 4));
}

#[test]
fn rename_and_resume_leave_the_manager_as_it_is() {
    let mut m = manager_with(&["abc"]);
    m.insert_char('x');
    assert_eq!(m.rename_current_file(), Ok(()));
    assert_eq!(m.resume_session(), Ok(()));
    assert_eq!(m.list_buffers().len(), 1);
    assert_eq!(m.current_buffer().unwrap().content, vec!["xabc".to_string()]);
    assert_eq!(cursor(&m), (0, 1));
}
