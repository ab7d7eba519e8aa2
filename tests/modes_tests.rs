use zen_vim::{BufferManager, EditorAction, Key, Mode, ModeManager, Position};

fn setup(lines: &[&str]) -> (ModeManager, BufferManager) {
    let mut m = BufferManager::new();
    m.create_buffer("one".to_string());
    m.current_buffer_mut().unwrap().content = lines.iter().map(|s| s.to_string()).collect();
    (ModeManager::new(), m)
}

fn cursor(m: &BufferManager) -> (usize, usize) {
    let p = m.current_buffer().unwrap().cursor.position();
    (p.row, p.col)
}

fn lines(m: &BufferManager) -> Vec<String> {
    m.current_buffer().unwrap().content.clone()
}

fn type_keys(mm: &mut ModeManager, bm: &mut BufferManager, keys: &str) -> Vec<EditorAction> {
    keys.chars().map(|c| mm.handle_key(Key::Char(c), bm)).collect()
}

fn run_command(mm: &mut ModeManager, bm: &mut BufferManager, cmd: &str) -> EditorAction {
    mm.handle_key(Key::Char(':'), bm);
    type_keys(mm, bm, cmd);
    mm.handle_key(Key::Enter, bm)
}

#[test]
fn starts_in_normal_mode() {
    let mm = ModeManager::new();
    assert_eq!(mm.current_mode(), Mode::Normal);
    assert_eq!(mm.command_buffer(), "");
    assert_eq!(Mode::Normal.label(), "NORMAL");
    assert_eq!(Mode::Insert.label(), "INSERT");
    assert_eq!(Mode::Visual.label(), "VISUAL");
    assert_eq!(Mode::Command.label(), "COMMAND");
}

#[test]
fn insert_mode_types_text() {
    let (mut mm, mut bm) = setup(&["ab"]);
    mm.handle_key(Key::Char('i'), &mut bm);
    assert_eq!(mm.current_mode(), Mode::Insert);
    type_keys(&mut mm, &mut bm, "Xy");
    mm.handle_key(Key::Enter, &mut bm);
    mm.handle_key(Key::Tab, &mut bm);
    assert_eq!(lines(&bm), vec!["Xy".to_string(), "\tab".to_string()]);
    mm.handle_key(Key::Backspace, &mut bm);
    mm.handle_key(Key::Delete, &mut bm);
    assert_eq!(lines(&bm), vec!["Xy".to_string(), "b".to_string()]);
    mm.handle_key(Key::Esc, &mut bm);
    assert_eq!(mm.current_mode(), Mode::Normal);
}

#[test]
fn normal_mode_motions() {
    let (mut mm, mut bm) = setup(&["hello world", "second"]);
    type_keys(&mut mm, &mut bm, "w");
    assert_eq!(cursor(&bm), (0, 6));
    type_keys(&mut mm, &mut bm, "$");
    assert_eq!(cursor(&bm), (0, 11));
    type_keys(&mut mm, &mut bm, "0j");
    assert_eq!(cursor(&bm), (1, 0));
    type_keys(&mut mm, &mut bm, "G");
    assert_eq!(cursor(&bm), (1, 6));
    type_keys(&mut mm, &mut bm, "g");
    assert_eq!(cursor(&bm), (0, 0));
    type_keys(&mut mm, &mut bm, "ll");
    mm.handle_key(Key::Left, &mut bm);
    assert_eq!(cursor(&bm), (0, 1));
    mm.handle_key(Key::Down, &mut bm);
    mm.handle_key(Key::Up, &mut bm);
    mm.handle_key(Key::Right, &mut bm);
    assert_eq!(cursor(&bm), (0, 2));
    type_keys(&mut mm, &mut bm, "e");
    assert_eq!(cursor(&bm), (0, 10));
    type_keys(&mut mm, &mut bm, "b");
    assert_eq!(cursor(&bm), (0, 6));
    type_keys(&mut mm, &mut bm, "kh");
    assert_eq!(cursor(&bm), (0, 5));
}

#[test]
fn mode_switch_keys_reposition_cursor() {
    let (mut mm, mut bm) = setup(&["abc", "def"]);
    type_keys(&mut mm, &mut bm, "A");
    assert_eq!(mm.current_mode(), Mode::Insert);
    assert_eq!(cursor(&bm), (0, 3));
    mm.handle_key(Key::Esc, &mut bm);
    type_keys(&mut mm, &mut bm, "I");
    assert_eq!(cursor(&bm), (0, 0));
    mm.handle_key(Key::Esc, &mut bm);
    type_keys(&mut mm, &mut bm, "a");
    assert_eq!(cursor(&bm), (0, 1));
    mm.handle_key(Key::Esc, &mut bm);
    type_keys(&mut mm, &mut bm, "o");
    assert_eq!(lines(&bm), vec!["abc".to_string(), "".to_string(), "def".to_string()]);
    assert_eq!(cursor(&bm), (1, 0));
    mm.handle_key(Key::Esc, &mut bm);
    type_keys(&mut mm, &mut bm, "O");
    assert_eq!(lines(&bm).len(), 4);
    assert_eq!(cursor(&bm), (1, 0));
    assert_eq!(mm.current_mode(), Mode::Insert);
}

#[test]
fn visual_mode_only_leaves_on_escape() {
    let (mut mm, mut bm) = setup(&["abc"]);
    type_keys(&mut mm, &mut bm, "v");
    assert_eq!(mm.current_mode(), Mode::Visual);
    type_keys(&mut mm, &mut bm, "lxd");
    assert_eq!(lines(&bm), vec!["abc".to_string()]);
    assert_eq!(cursor(&bm), (0, 0));
    mm.handle_key(Key::Esc, &mut bm);
    assert_eq!(mm.current_mode(), Mode::Normal);
}

#[test]
fn delete_keys_and_undo_redo() {
    let (mut mm, mut bm) = setup(&["abc", "def"]);
    type_keys(&mut mm, &mut bm, "x");
    assert_eq!(lines(&bm), vec!["bc".to_string(), "def".to_string()]);
    type_keys(&mut mm, &mut bm, "d");
    assert_eq!(lines(&bm), vec!["def".to_string()]);
    type_keys(&mut mm, &mut bm, "uu");
    assert_eq!(lines(&bm), vec!["abc".to_string(), "def".to_string()]);
    mm.handle_key(Key::Ctrl('r'), &mut bm);
    assert_eq!(lines(&bm), vec!["bc".to_string(), "def".to_string()]);
}

#[test]
fn command_line_editing() {
    let (mut mm, mut bm) = setup(&["abc"]);
    mm.handle_key(Key::Char(':'), &mut bm);
    assert_eq!(mm.current_mode(), Mode::Command);
    type_keys(&mut mm, &mut bm, "wqz");
    mm.handle_key(Key::Backspace, &mut bm);
    assert_eq!(mm.command_buffer(), "wq");
    mm.handle_key(Key::Esc, &mut bm);
    assert_eq!(mm.current_mode(), Mode::Normal);
    assert_eq!(mm.command_buffer(), "");
    mm.handle_key(Key::Char(':'), &mut bm);
    mm.handle_key(Key::Backspace, &mut bm);
    assert_eq!(mm.command_buffer(), "");
}

#[test]
fn ex_commands_name_the_action() {
    let (mut mm, mut bm) = setup(&["abc"]);
    assert_eq!(run_command(&mut mm, &mut bm, "q"), EditorAction::Quit);
    assert_eq!(mm.current_mode(), Mode::Normal);
    assert_eq!(run_command(&mut mm, &mut bm, "quit"), EditorAction::Quit);
    assert_eq!(run_command(&mut mm, &mut bm, "q!"), EditorAction::Quit);
    assert_eq!(run_command(&mut mm, &mut bm, "w"), EditorAction::Save);
    assert_eq!(run_command(&mut mm, &mut bm, " write "), EditorAction::Save);
    assert_eq!(run_command(&mut mm, &mut bm, "wq"), EditorAction::SaveAndQuit);
    assert_eq!(run_command(&mut mm, &mut bm, "x"), EditorAction::SaveAndQuit);
    assert_eq!(run_command(&mut mm, &mut bm, "wq!"), EditorAction::SaveAndQuit);
    assert_eq!(run_command(&mut mm, &mut bm, "w  out.txt "), EditorAction::SaveAs("out.txt".to_string()));
    assert_eq!(run_command(&mut mm, &mut bm, "e notes.md"), EditorAction::Open("notes.md".to_string()));
    assert_eq!(run_command(&mut mm, &mut bm, "frobnicate"), EditorAction::Nothing);
    assert_eq!(run_command(&mut mm, &mut bm, ""), EditorAction::Nothing);
    assert_eq!(lines(&bm), vec!["abc".to_string()]);
}

#[test]
fn execute_command_directly() {
    let (mut mm, mut bm) = setup(&["xx foo"]);
    assert_eq!(mm.execute_command("  /foo  ", &mut bm), EditorAction::Nothing);
    assert_eq!(cursor(&bm), (0, 3));
    assert_eq!(mm.last_search_pattern(), "foo");
    assert_eq!(mm.execute_command("/", &mut bm), EditorAction::Nothing);
    assert_eq!(mm.last_search_pattern(), "foo");
}

#[test]
fn slash_search_and_repeat() {
    let (mut mm, mut bm) = setup(&["foo", "bar", "baz foo"]);
    mm.handle_key(Key::Char('/'), &mut bm);
    assert_eq!(mm.current_mode(), Mode::Command);
    assert_eq!(mm.command_buffer(), "/");
    type_keys(&mut mm, &mut bm, "foo");
    assert_eq!(mm.handle_key(Key::Enter, &mut bm), EditorAction::Nothing);
    assert_eq!(mm.current_mode(), Mode::Normal);
    assert_eq!(cursor(&bm), (2, 4));
    type_keys(&mut mm, &mut bm, "n");
    assert_eq!(cursor(&bm), (0, 0));
    type_keys(&mut mm, &mut bm, "N");
    assert_eq!(cursor(&bm), (2, 4));
}

#[test]
fn search_wraps_from_last_row() {
    let (mut mm, mut bm) = setup(&["foo", "bar", "baz"]);
    bm.current_buffer_mut().unwrap().cursor.move_to_position(Position { row: 2, col: 0 });
    mm.search_in_buffer("foo", &mut bm);
    assert_eq!(cursor(&bm), (0, 0));
    mm.search_backward_in_buffer("ba", &mut bm);
    assert_eq!(cursor(&bm), (2, 0));
}

#[test]
fn star_searches_word_under_cursor() {
    let (mut mm, mut bm) = setup(&["alpha beta", "gamma alpha"]);
    type_keys(&mut mm, &mut bm, "l*");
    assert_eq!(mm.last_search_pattern(), "alpha");
    assert_eq!(cursor(&bm), (1, 6));
    assert_eq!(mm.get_word_under_cursor(&bm), Some("alpha".to_string()));
}

#[test]
fn word_under_cursor_needs_a_letter_or_digit() {
    let (mut mm, mut bm) = setup(&["a -- b"]);
    bm.current_buffer_mut().unwrap().cursor.move_to_position(Position { row: 0, col: 2 });
    assert_eq!(mm.get_word_under_cursor(&bm), None);
    type_keys(&mut mm, &mut bm, "*");
    assert_eq!(mm.last_search_pattern(), "");
    bm.current_buffer_mut().unwrap().cursor.move_to_position(Position { row: 0, col: 6 });
    assert_eq!(mm.get_word_under_cursor(&bm), None);
}

#[test]
fn word_under_cursor_is_none_on_the_space_after_a_word() {
    let (mut mm, mut bm) = setup(&["foo bar"]);
    bm.current_buffer_mut().unwrap().cursor.move_to_position(Position { row: 0, col: 3 });
    assert_eq!(mm.get_word_under_cursor(&bm), None);
    type_keys(&mut mm, &mut bm, "*");
    assert_eq!(mm.last_search_pattern(), "");
    assert_eq!(cursor(&bm), (0, 3));
    bm.current_buffer_mut().unwrap().cursor.move_to_position(Position { row: 0, col: 6 });
    assert_eq!(mm.get_word_under_cursor(&bm), Some("bar".to_string()));
}

#[test]
fn n_without_pattern_does_nothing() {
    let (mut mm, mut bm) = setup(&["abc abc"]);
    type_keys(&mut mm, &mut bm, "nN");
    assert_eq!(cursor(&bm), (0, 0));
}

#[test]
fn ctrl_n_and_ctrl_p_cycle_buffers() {
    let (mut mm, mut bm) = setup(&["a"]);
    bm.create_buffer("two".to_string());
    assert_eq!(bm.current_buffer().unwrap().id, 2);
    mm.handle_key(Key::Ctrl('n'), &mut bm);
    assert_eq!(bm.current_buffer().unwrap().id, 1);
    mm.handle_key(Key::Ctrl('p'), &mut bm);
    assert_eq!(bm.current_buffer().unwrap().id, 2);
}

#[test]
fn set_mode_and_prefix() {
    let mut mm = ModeManager::new();
    mm.set_command_mode_with_prefix('/');
    assert_eq!(mm.command_buffer(), "/");
    mm.set_mode(Mode::Normal);
    assert_eq!(mm.command_buffer(), "/");
    mm.set_mode(Mode::Command);
    assert_eq!(mm.command_buffer(), "");
    assert_eq!(mm.last_mode, Mode::Normal);
}

#[test]
fn keys_without_buffer_change_only_mode() {
    let mut bm = BufferManager::new();
    let mut mm = ModeManager::new();
    for c in "hjklwbeGg0$xduin".chars() {
        mm.handle_key(Key::Char(c), &mut bm);
    }
    assert_eq!(mm.current_mode(), Mode::Insert);
    mm.handle_key(Key::Char('z'), &mut bm);
    assert!(bm.is_empty());
}
