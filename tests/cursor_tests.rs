use zen_vim::cursor::{word_backward_target, word_end_target, word_forward_target};
use zen_vim::text::{classes_of, CharClass};
use zen_vim::{Cursor, Position};

fn content(lines: &[&str]) -> Vec<String> {
    lines.iter().map(|s| s.to_string()).collect()
}

fn at(c: &Cursor) -> (usize, usize) {
    let p = c.position();
    (p.row, p.col)
}

fn cursor_at(row: usize, col: usize) -> Cursor {
    let mut c = Cursor::new();
    c.move_to_position(Position { row, col });
    c
}

#[test]
fn sticky_column_returns_after_short_line() {
    let text = content(&["0123456789", "abc", "abcdefgh"]);
    let mut c = cursor_at(0, 5);
    c.move_down(&text);
    assert_eq!(at(&c), (1, 3));
    c.move_down(&text);
    assert_eq!(at(&c), (2, 5));
    c.move_up(&text);
    c.move_up(&text);
    assert_eq!(at(&c), (0, 5));
}

#[test]
fn move_right_wraps_to_next_line() {
    let text = content(&["abc", ""]);
    let mut c = Cursor::new();
    c.move_right(&text);
    c.move_right(&text);
    c.move_right(&text);
    assert_eq!(at(&c), (0, 3));
    c.move_right(&text);
    assert_eq!(at(&c), (1, 0));
    c.move_right(&text);
    assert_eq!(at(&c), (1, 0));
}

#[test]
fn move_left_wraps_to_previous_line_end() {
    let text = content(&["abc", "d"]);
    let mut c = cursor_at(1, 0);
    c.move_left(&text);
    assert_eq!(at(&c), (0, 3));
    let mut first = Cursor::new();
    first.move_left(&text);
    assert_eq!(at(&first), (0, 0));
}

#[test]
fn vertical_moves_stop_at_buffer_edges() {
    let text = content(&["ab", "cd"]);
    let mut c = Cursor::new();
    c.move_up(&text);
    assert_eq!(at(&c), (0, 0));
    c.move_down(&text);
    c.move_down(&text);
    assert_eq!(at(&c), (1, 0));
}

#[test]
fn word_forward_lands_on_next_word() {
    let text = content(&["hello world"]);
    let mut c = Cursor::new();
    c.move_word_forward(&text);
    assert_eq!(at(&c), (0, 6));
}

#[test]
fn word_forward_stops_at_punctuation_runs() {
    let text = content(&["foo.bar baz_qux"]);
    let mut c = Cursor::new();
    c.move_word_forward(&text);
    assert_eq!(at(&c), (0, 3));
    c.move_word_forward(&text);
    assert_eq!(at(&c), (0, 4));
    c.move_word_forward(&text);
    assert_eq!(at(&c), (0, 8));
    c.move_word_forward(&text);
    assert_eq!(at(&c), (0, 8));
}

#[test]
fn word_forward_crosses_to_next_line() {
    let text = content(&["one  ", "two"]);
    let mut c = Cursor::new();
    c.move_word_forward(&text);
    assert_eq!(at(&c), (1, 0));
}

#[test]
fn big_word_forward_skips_punctuation() {
    let text = content(&["foo.bar baz"]);
    let mut c = Cursor::new();
    c.move_word_forward_whitespace(&text);
    assert_eq!(at(&c), (0, 8));
}

#[test]
fn word_backward_goes_to_word_start() {
    let text = content(&["hello world"]);
    let mut c = cursor_at(0, 9);
    c.move_word_backward(&text);
    assert_eq!(at(&c), (0, 6));
    c.move_word_backward(&text);
    assert_eq!(at(&c), (0, 0));
}

#[test]
fn word_backward_from_column_zero_goes_to_line_above_end() {
    let text = content(&["abc", "def"]);
    let mut c = cursor_at(1, 0);
    c.move_word_backward(&text);
    assert_eq!(at(&c), (0, 3));
}

#[test]
fn big_word_backward_treats_punctuation_as_word() {
    let text = content(&["a foo.bar"]);
    let mut c = cursor_at(0, 9);
    c.move_word_backward_whitespace(&text);
    assert_eq!(at(&c), (0, 2));
    let mut d = cursor_at(0, 9);
    d.move_word_backward(&text);
    assert_eq!(at(&d), (0, 6));
}

#[test]
fn end_of_word_lands_on_last_character() {
    let text = content(&["hello world"]);
    let mut c = cursor_at(0, 2);
    c.move_to_end_of_word(&text);
    assert_eq!(at(&c), (0, 10));
    c.move_to_end_of_word(&text);
    assert_eq!(at(&c), (0, 10));
    let mut d = cursor_at(0, 5);
    d.move_to_end_of_word(&text);
    assert_eq!(at(&d), (0, 10));
}

#[test]
fn end_of_word_on_empty_line_does_nothing() {
    let text = content(&[""]);
    let mut c = Cursor::new();
    c.move_to_end_of_word(&text);
    assert_eq!(at(&c), (0, 0));
}

#[test]
fn move_to_column_sets_desired_column() {
    let text = content(&["abcdef", "ab", "abcdef"]);
    let mut c = Cursor::new();
    c.move_to_column(4);
    c.move_down(&text);
    c.move_down(&text);
    assert_eq!(at(&c), (2, 4));
    assert_eq!(c.clamp_column(&text, 9), 6);
}

#[test]
fn classes_follow_character_kinds() {
    let chars: Vec<char> = "a_1 .é\t".chars().collect();
    let cls = classes_of(&chars, false);
    assert_eq!(
        cls,
        vec![
            CharClass::Word,
            CharClass::Word,
            CharClass::Word,
            CharClass::Space,
            CharClass::Punct,
            CharClass::Word,
            CharClass::Space
        ]
    );
    let big = classes_of(&chars, true);
    assert_eq!(big[4], CharClass::Word);
}

#[test]
fn targets_over_classes() {
    let (w, p, s) = (CharClass::Word, CharClass::Punct, CharClass::Space);
    let cls = vec![w, w, p, p, s, s, w];
    assert_eq!(word_forward_target(&cls, 0), 2);
    assert_eq!(word_forward_target(&cls, 2), 6);
    assert_eq!(word_forward_target(&cls, 4), 6);
    assert_eq!(word_backward_target(&cls, 6), 2);
    assert_eq!(word_backward_target(&cls, 2), 0);
    assert_eq!(word_end_target(&cls, 0), 6);
    let tail = vec![w, s, s];
    assert_eq!(word_forward_target(&tail, 0), 3);
    assert_eq!(word_end_target(&tail, 1), 2);
}
