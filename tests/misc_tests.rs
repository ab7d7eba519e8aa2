use zen_vim::config::Config;
use zen_vim::picker::{contains_text, is_ignored, matching_indices, Picker, PickerType};
use zen_vim::session::SessionManager;
use zen_vim::modes::flag_run;
use zen_vim::text::{join_text, space_flags_of, split_text, trim_bounds, trim_range};
use zen_vim::ui::{leader_action, route_key, visible_rows, Dashboard, LeaderAction, Route, UI};
use zen_vim::{BufferManager, Key, Mode};

#[test]
fn default_config_values() {
    let c = Config::default();
    assert_eq!(c.ui.theme, "zen");
    assert!(!c.ui.show_line_numbers);
    assert_eq!(c.ui.tab_width, 2);
    assert_eq!(c.keymaps.leader, " ");
    assert_eq!(c.keymaps.timeout_ms, 1000);
    assert_eq!(c.picker.file_ignore_patterns, vec![".git", "node_modules", "target", "*.pyc"]);
    assert_eq!(c.picker.max_results, 100);
    assert!(c.picker.preview_enabled);
    assert_eq!(c.dashboard.max_recent_files, 5);
    assert!(c.dashboard.custom_header.is_none());
}

#[test]
fn split_and_join_text() {
    assert_eq!(split_text("a\nb\n"), vec!["a", "b", ""]);
    assert_eq!(split_text(""), vec![""]);
    let parts = vec!["x".to_string(), "".to_string(), "y".to_string()];
    assert_eq!(join_text(&parts), "x\n\ny");
    assert_eq!(split_text(&join_text(&parts)), parts);
}

#[test]
fn dashboard_keys_pick_actions() {
    let mut d = Dashboard::new(&Config::default());
    assert_eq!(d.handle_key(Key::Char('f')), Some("files".to_string()));
    assert_eq!(d.handle_key(Key::Char('p')), Some("files".to_string()));
    assert_eq!(d.handle_key(Key::Char('t')), Some("grep".to_string()));
    assert_eq!(d.handle_key(Key::Char('b')), Some("buffers".to_string()));
    assert_eq!(d.handle_key(Key::Char('r')), Some("resume".to_string()));
    assert_eq!(d.handle_key(Key::Char('q')), Some("quit".to_string()));
    assert_eq!(d.handle_key(Key::Char('z')), None);
    assert_eq!(d.handle_key(Key::Enter), None);
    assert_eq!(d.menu_items().len(), 5);
    let ui = UI::new(&Config::default());
    assert_eq!(ui.config.ui.theme, "zen");
}

#[test]
fn visible_rows_follow_cursor() {
    assert_eq!(visible_rows(0, 10, 3), (0, 3));
    assert_eq!(visible_rows(15, 10, 40), (6, 16));
    assert_eq!(visible_rows(9, 10, 40), (0, 10));
}

#[test]
fn routing_and_leader_keys() {
    assert_eq!(route_key(Mode::Normal, Key::Char('q')), Route::Quit);
    assert_eq!(route_key(Mode::Normal, Key::Char(' ')), Route::Leader);
    assert_eq!(route_key(Mode::Insert, Key::Char('q')), Route::Editor);
    assert_eq!(leader_action(Key::Char('f')), Some(LeaderAction::FindFiles));
    assert_eq!(leader_action(Key::Char('/')), Some(LeaderAction::GrepText));
    assert_eq!(leader_action(Key::Char('s')), Some(LeaderAction::ResumeSession));
    assert_eq!(leader_action(Key::Char('z')), None);
}

#[test]
fn session_file_under_home() {
    let s = SessionManager::new(Some("/home/u"));
    assert_eq!(s.session_file(), "/home/u/.config/zen-vim/session.json");
    let t = SessionManager::new(None);
    assert_eq!(t.session_file(), "./.config/zen-vim/session.json");
}

fn found(pairs: &[(&str, &str)]) -> Vec<(String, String)> {
    pairs.iter().map(|(a, b)| (a.to_string(), b.to_string())).collect()
}

#[test]
fn file_picker_skips_ignored_and_limits() {
    let mut config = Config::default();
    config.picker.max_results = 2;
    let p = Picker::new_file_picker(
        &config,
        found(&[("src/a.rs", "/p/src/a.rs"), ("target/x", "/p/target/x"), ("b.rs", "/p/b.rs"), ("c.rs", "/p/c.rs")]),
    );
    let shown: Vec<&str> = p.items.iter().map(|i| i.display.as_str()).collect();
    assert_eq!(shown, vec!["src/a.rs", "b.rs"]);
    assert_eq!(p.items[1].path.as_deref(), Some("/p/b.rs"));
    assert_eq!(p.filtered_items, vec![0, 1]);
    assert_eq!(p.selected, Some(0));
    assert!(matches!(p.picker_type, PickerType::Files));
}

#[test]
fn picker_selection_wraps() {
    let mut p = Picker::new_file_picker(&Config::default(), found(&[("a", "a"), ("b", "b"), ("c", "c")]));
    p.move_selection_up();
    assert_eq!(p.selected, Some(2));
    p.move_selection_down();
    assert_eq!(p.selected, Some(0));
    p.move_selection_down();
    let r = p.select_current();
    assert_eq!(r.selected_file.as_deref(), Some("b"));
    assert_eq!(r.selected_buffer_id, None);
}

#[test]
fn picker_filter_ignores_case() {
    let mut p = Picker::new_file_picker(
        &Config::default(),
        found(&[("README.md", "r"), ("src/Main.rs", "m"), ("lib.rs", "l")]),
    );
    p.input = "MAIN".to_string();
    p.update_filter();
    assert_eq!(p.filtered_items, vec![1]);
    assert_eq!(p.selected, Some(0));
    assert_eq!(p.select_current().selected_file.as_deref(), Some("m"));
    p.input = "zzz".to_string();
    p.update_filter();
    assert!(p.filtered_items.is_empty());
    assert_eq!(p.selected, None);
    assert!(p.select_current().selected_file.is_none());
    p.input.clear();
    p.update_filter();
    assert_eq!(p.filtered_items, vec![0, 1, 2]);
}

#[test]
fn buffer_picker_marks_modified() {
    let mut bm = BufferManager::new();
    bm.create_buffer("a".to_string());
    bm.open_file("/x/b.txt", None);
    bm.insert_char('!');
    let p = Picker::new_buffer_picker(&Config::default(), &bm);
    let shown: Vec<&str> = p.items.iter().map(|i| i.display.as_str()).collect();
    assert_eq!(shown, vec!["a", "b.txt [+]"]);
    assert_eq!(p.items[1].buffer_id, Some(2));
    assert_eq!(p.items[1].path.as_deref(), Some("/x/b.txt"));
}

#[test]
fn grep_output_becomes_items() {
    let mut p = Picker::new_grep_picker(&Config::default());
    p.input = "foo".to_string();
    p.set_grep_results(Some("src/a.rs:12:let foo = 1;\nnot a match\nb.txt:x:foo: bar\n"));
    p.update_filter();
    assert_eq!(p.items.len(), 2);
    assert_eq!(p.items[0].display, "src/a.rs:12: let foo = 1;");
    assert_eq!(p.items[0].path.as_deref(), Some("src/a.rs"));
    assert_eq!(p.items[0].line_number, Some(12));
    assert_eq!(p.items[0].match_text.as_deref(), Some("let foo = 1;"));
    assert_eq!(p.items[1].line_number, None);
    assert_eq!(p.items[1].match_text.as_deref(), Some("foo: bar"));
    assert_eq!(p.filtered_items, vec![0, 1]);
    assert_eq!(p.selected, Some(0));
    p.set_grep_results(None);
    assert!(p.items.is_empty());
}

#[test]
fn grep_output_is_read_up_to_limit() {
    let mut p = Picker::new_grep_picker(&Config::default());
    let text: String = (0..150).map(|i| format!("f:{}:x\n", i)).collect();
    p.set_grep_results(Some(&text));
    assert_eq!(p.items.len(), 100);
}

#[test]
fn text_helpers() {
    assert!(contains_text("hello", "ll"));
    assert!(!contains_text("hello", "lo!"));
    assert!(contains_text("", ""));
    let pats = vec![".git".to_string()];
    assert!(is_ignored("a/.git/x", "y", &pats));
    assert!(is_ignored("y", "a/.git", &pats));
    assert!(!is_ignored("a", "b", &pats));
    let texts = vec!["ab".to_string(), "b".to_string(), "c".to_string()];
    assert_eq!(matching_indices(&texts, "b"), vec![0, 1]);
}

#[test]
fn trimming_by_flags() {
    let flags = vec![true, false, true, false, true, true];
    assert_eq!(trim_range(&flags, 0, 6), (1, 4));
    assert_eq!(trim_range(&flags, 4, 6), (6, 6));
    let chars: Vec<char> = " \t w x\u{a0}".chars().collect();
    assert_eq!(space_flags_of(&chars), vec![true, true, true, false, true, false, true]);
    assert_eq!(trim_bounds(&chars, 0, chars.len()), (3, 6));
}

#[test]
fn runs_of_flags() {
    let flags = vec![false, true, true, false, true];
    assert_eq!(flag_run(&flags, 2), (1, 3));
    assert_eq!(flag_run(&flags, 3), (1, 3));
    assert_eq!(flag_run(&flags, 0), (0, 0));
}

#[test]
fn copied_settings_are_equal() {
    let mut c = Config::default();
    c.dashboard.custom_header = Some("hi".to_string());
    c.ui.tab_width = 8;
    let d = c.copied();
    assert_eq!(d.dashboard.custom_header.as_deref(), Some("hi"));
    assert_eq!(d.ui.tab_width, 8);
    assert_eq!(d.picker.file_ignore_patterns, c.picker.file_ignore_patterns);
    let dash = Dashboard::new(&c);
    assert_eq!(dash.config.ui.tab_width, 8);
}

#[test]
fn grep_line_numbers_follow_decimal_parsing() {
    let mut p = Picker::new_grep_picker(&Config::default());
    p.set_grep_results(Some("a:+7:x\nb::y\nc:007:z\nd:1 :w\ne:99999999999999999999999:v\n"));
    assert_eq!(p.items.len(), 5);
    assert_eq!(p.items[0].line_number, Some(7));
    assert_eq!(p.items[1].line_number, None);
    assert_eq!(p.items[2].line_number, Some(7));
    assert_eq!(p.items[3].line_number, None);
    assert_eq!(p.items[4].line_number, None);
}
