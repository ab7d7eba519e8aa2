//! The modal key dispatcher: Normal, Insert, Visual and Command modes, the
//! command line and its small ex-style grammar.
use vstd::prelude::*;

use crate::buffer::Buffer;
use crate::cursor::Cursor;
use crate::manager::BufferManager;
use crate::search::search_cursor;
use crate::text::{
    alphanumeric, chars_of, equals_literal, has_literal_prefix, is_alphanumeric, pop_char, push_char,
    starts_with, string_of, trim_bounds, trimmed,
};

verus! {

#[derive(Clone, Copy, Debug, PartialEq, Eq, Structural)]
pub enum Mode {
    Normal,
    Insert,
    Visual,
    Command,
}

impl Mode {
    /// The name a status line shows for the mode.
    pub fn label(&self) -> (r: &'static str)
        ensures
            r@ == match self {
                Mode::Normal => "NORMAL"@,
                Mode::Insert => "INSERT"@,
                Mode::Visual => "VISUAL"@,
                Mode::Command => "COMMAND"@,
            },
    {
        match self {
            Mode::Normal => "NORMAL",
            Mode::Insert => "INSERT",
            Mode::Visual => "VISUAL",
            Mode::Command => "COMMAND",
        }
    }
}

/// A key press: a character (with Control held or not) or a named key.
#[derive(Clone, Copy, Debug, PartialEq, Eq, Structural)]
pub enum Key {
    Char(char),
    Ctrl(char),
    Esc,
    Enter,
    Backspace,
    Delete,
    Tab,
    Left,
    Right,
    Up,
    Down,
    Other,
}

/// What the caller is to do after a key: the editor itself does no file I/O and
/// does not end the process.
#[derive(Clone, Debug, PartialEq, Eq)]
pub enum EditorAction {
    Nothing,
    Quit,
    /// Save the current buffer.
    Save,
    /// Save the current buffer, then quit.
    SaveAndQuit,
    /// Save the current buffer under the given path.
    SaveAs(String),
    /// Open the file at the given path.
    Open(String),
}

pub struct ModeManager {
    pub current_mode: Mode,
    pub last_mode: Mode,
    pub command_buffer: String,
    pub last_search_pattern: String,
}

/// Steps back from `p` while the flag just before `p` is set.
pub open spec fn flag_run_start(flags: Seq<bool>, p: int) -> int
    decreases p,
{
    if 0 < p <= flags.len() && flags[p - 1] {
        flag_run_start(flags, p - 1)
    } else {
        p
    }
}

/// Steps forward from `p` while the flag at `p` is set.
pub open spec fn flag_run_end(flags: Seq<bool>, p: int) -> int
    decreases flags.len() - p,
{
    if 0 <= p < flags.len() && flags[p] {
        flag_run_end(flags, p + 1)
    } else {
        p
    }
}

/// Whether each character of a line is a letter or digit.
pub open spec fn alnum_flags(line: Seq<char>) -> Seq<bool> {
    line.map_values(|c: char| alphanumeric(c))
}

/// The run of letters and digits that holds column `col`; there is none where
/// the character at `col` is not a letter or digit, or at or past the end of
/// the line.
pub open spec fn word_at(line: Seq<char>, col: int) -> Option<Seq<char>> {
    if col < 0 || col >= line.len() || !alphanumeric(line[col]) {
        None
    } else {
        Some(line.subrange(flag_run_start(alnum_flags(line), col), flag_run_end(alnum_flags(line), col)))
    }
}

/// The bounds `[start, end)` of the set flags that run up to and from `col`.
pub fn flag_run(flags: &Vec<bool>, col: usize) -> (r: (usize, usize))
    requires
        col < flags.len(),
    ensures
        r.0 == flag_run_start(flags@, col as int),
        r.1 == flag_run_end(flags@, col as int),
        r.0 <= col <= r.1 <= flags.len(),
{
    let mut start = col;
    while start > 0 && flags[start - 1]
        invariant
            start <= col < flags.len(),
            flag_run_start(flags@, start as int) == flag_run_start(flags@, col as int),
        decreases start,
    {
        start -= 1;
    }
    let mut end = col;
    while end < flags.len() && flags[end]
        invariant
            col <= end <= flags.len(),
            flag_run_end(flags@, end as int) == flag_run_end(flags@, col as int),
        decreases flags.len() - end,
    {
        end += 1;
    }
    (start, end)
}

/// The word under the cursor of the current buffer.
pub open spec fn current_word(bm: BufferManager) -> Option<Seq<char>> {
    match bm.current_index() {
        Some(i) => {
            let b = bm.buffers@[i];
            word_at(b.lines()[b.row()], b.col())
        },
        None => None,
    }
}

/// `new` is `old` after a search for `pat` in the current buffer.
pub open spec fn searched(old: BufferManager, new: BufferManager, pat: Seq<char>, forward: bool) -> bool {
    new.moves_current(old, |b: Buffer| search_cursor(b.cursor, b.lines(), pat, forward))
}

/// The action of a command line that is not a search, by its trimmed text.
pub open spec fn command_action(t: Seq<char>, a: EditorAction) -> bool {
    if t == "q"@ || t == "quit"@ || t == "q!"@ {
        a == EditorAction::Quit
    } else if t == "w"@ || t == "write"@ {
        a == EditorAction::Save
    } else if t == "wq"@ || t == "x"@ || t == "wq!"@ {
        a == EditorAction::SaveAndQuit
    } else if starts_with(t, "w "@) {
        a matches EditorAction::SaveAs(n) && n@ == trimmed(t.subrange(2, t.len() as int))
    } else if starts_with(t, "e "@) {
        a matches EditorAction::Open(n) && n@ == trimmed(t.subrange(2, t.len() as int))
    } else {
        a == EditorAction::Nothing
    }
}

/// Executing the command line `cmd` leaves the search pattern `new_pat` (it was
/// `old_pat`), the buffers `new_bm` (they were `old_bm`), and gives `a`.
pub open spec fn executed(
    cmd: Seq<char>,
    old_pat: Seq<char>,
    new_pat: Seq<char>,
    old_bm: BufferManager,
    new_bm: BufferManager,
    a: EditorAction,
) -> bool {
    let t = trimmed(cmd);
    if t.len() > 0 && t[0] == '/' {
        let p = t.subrange(1, t.len() as int);
        &&& a == EditorAction::Nothing
        &&& if p.len() > 0 {
            new_pat == p && searched(old_bm, new_bm, p, true)
        } else {
            new_pat == old_pat && new_bm == old_bm
        }
    } else {
        new_pat == old_pat && new_bm == old_bm && command_action(t, a)
    }
}

impl ModeManager {
    /// `new` is `old` switched to mode `m`; entering Command mode empties the
    /// command line.
    pub open spec fn switched(old: ModeManager, new: ModeManager, m: Mode) -> bool {
        &&& new.current_mode == m
        &&& new.last_mode == old.current_mode
        &&& new.last_search_pattern == old.last_search_pattern
        &&& new.command_buffer@ == if m == Mode::Command {
            Seq::empty()
        } else {
            old.command_buffer@
        }
    }

    /// A key in Normal mode.
    pub open spec fn normal_step(
        o: ModeManager,
        n: ModeManager,
        ob: BufferManager,
        nb: BufferManager,
        key: Key,
    ) -> bool {
        match key {
            Key::Char('h') | Key::Left => n == o && nb.moves_current(ob, |b: Buffer| b.cursor.left_in(b.lines())),
            Key::Char('j') | Key::Down => n == o && nb.moves_current(ob, |b: Buffer| b.cursor.down_in(b.lines())),
            Key::Char('k') | Key::Up => n == o && nb.moves_current(ob, |b: Buffer| b.cursor.up_in(b.lines())),
            Key::Char('l') | Key::Right => n == o && nb.moves_current(ob, |b: Buffer| b.cursor.right_in(b.lines())),
            Key::Char('w') => n == o && nb.moves_current(
                ob,
                |b: Buffer| b.cursor.word_forward_in(b.lines(), false),
            ),
            Key::Char('W') => n == o && nb.moves_current(
                ob,
                |b: Buffer| b.cursor.word_forward_in(b.lines(), true),
            ),
            Key::Char('b') => n == o && nb.moves_current(
                ob,
                |b: Buffer| b.cursor.word_backward_in(b.lines(), false),
            ),
            Key::Char('B') => n == o && nb.moves_current(
                ob,
                |b: Buffer| b.cursor.word_backward_in(b.lines(), true),
            ),
            Key::Char('e') | Key::Char('E') => n == o && nb.moves_current(
                ob,
                |b: Buffer| b.cursor.word_end_in(b.lines()),
            ),
            Key::Char('0') => n == o && nb.moves_current(ob, |b: Buffer| Cursor::at(b.row(), 0)),
            Key::Char('$') => n == o && nb.moves_current(
                ob,
                |b: Buffer| Cursor::at(b.row(), b.lines()[b.row()].len() as int),
            ),
            Key::Char('g') => n == o && nb.moves_current(ob, |b: Buffer| Cursor::at(0, 0)),
            Key::Char('G') => n == o && nb.moves_current(
                ob,
                |b: Buffer| Cursor::at(b.lines().len() - 1, b.lines().last().len() as int),
            ),
            Key::Char('i') => ModeManager::switched(o, n, Mode::Insert) && nb == ob,
            Key::Char('I') => ModeManager::switched(o, n, Mode::Insert) && nb.moves_current(
                ob,
                |b: Buffer| Cursor::at(b.row(), 0),
            ),
            Key::Char('a') => ModeManager::switched(o, n, Mode::Insert) && nb.moves_current(
                ob,
                |b: Buffer| b.cursor.right_in(b.lines()),
            ),
            Key::Char('A') => ModeManager::switched(o, n, Mode::Insert) && nb.moves_current(
                ob,
                |b: Buffer| Cursor::at(b.row(), b.lines()[b.row()].len() as int),
            ),
            Key::Char('o') => ModeManager::switched(o, n, Mode::Insert) && nb.updates_current(
                ob,
                |x: Buffer, y: Buffer| Buffer::insert_line_below_post(x, y),
            ),
            Key::Char('O') => ModeManager::switched(o, n, Mode::Insert) && nb.updates_current(
                ob,
                |x: Buffer, y: Buffer| Buffer::insert_line_above_post(x, y),
            ),
            Key::Char('v') => ModeManager::switched(o, n, Mode::Visual) && nb == ob,
            Key::Char(':') => ModeManager::switched(o, n, Mode::Command) && nb == ob,
            Key::Char('/') => {
                &&& n.current_mode == Mode::Command
                &&& n.last_mode == o.current_mode
                &&& n.last_search_pattern == o.last_search_pattern
                &&& n.command_buffer@ == seq!['/']
                &&& nb == ob
            },
            Key::Char('x') => n == o && nb.updates_current(
                ob,
                |x: Buffer, y: Buffer| Buffer::delete_char_post(x, y),
            ),
            Key::Char('d') => n == o && nb.updates_current(
                ob,
                |x: Buffer, y: Buffer| Buffer::delete_line_post(x, y),
            ),
            Key::Char('u') => n == o && nb.updates_current(ob, |x: Buffer, y: Buffer| Buffer::undo_post(x, y)),
            Key::Ctrl('r') => n == o && nb.updates_current(ob, |x: Buffer, y: Buffer| Buffer::redo_post(x, y)),
            Key::Char('n') => n == o && if o.last_search_pattern@.len() > 0 {
                searched(ob, nb, o.last_search_pattern@, true)
            } else {
                nb == ob
            },
            Key::Char('N') => n == o && if o.last_search_pattern@.len() > 0 {
                searched(ob, nb, o.last_search_pattern@, false)
            } else {
                nb == ob
            },
            Key::Char('*') => match current_word(ob) {
                Some(w) => {
                    &&& n == ModeManager { last_search_pattern: n.last_search_pattern, ..o }
                    &&& n.last_search_pattern@ == w
                    &&& searched(ob, nb, w, true)
                },
                None => n == o && nb == ob,
            },
            Key::Ctrl('n') => n == o && nb.cycled(ob, 1),
            Key::Ctrl('p') => n == o && nb.cycled(ob, ob.buffers.len() - 1),
            _ => n == o && nb == ob,
        }
    }

    /// A key in Insert mode.
    pub open spec fn insert_step(
        o: ModeManager,
        n: ModeManager,
        ob: BufferManager,
        nb: BufferManager,
        key: Key,
    ) -> bool {
        match key {
            Key::Esc => ModeManager::switched(o, n, Mode::Normal) && nb == ob,
            Key::Char(c) => n == o && nb.updates_current(
                ob,
                |x: Buffer, y: Buffer| Buffer::insert_char_post(x, y, c),
            ),
            Key::Enter => n == o && nb.updates_current(
                ob,
                |x: Buffer, y: Buffer| Buffer::insert_newline_post(x, y),
            ),
            Key::Backspace => n == o && nb.updates_current(
                ob,
                |x: Buffer, y: Buffer| Buffer::backspace_post(x, y),
            ),
            Key::Delete => n == o && nb.updates_current(
                ob,
                |x: Buffer, y: Buffer| Buffer::delete_char_post(x, y),
            ),
            Key::Tab => n == o && nb.updates_current(
                ob,
                |x: Buffer, y: Buffer| Buffer::insert_char_post(x, y, '\t'),
            ),
            _ => n == o && nb == ob,
        }
    }

    /// A key in Command mode, which gives `a`.
    pub open spec fn command_step(
        o: ModeManager,
        n: ModeManager,
        ob: BufferManager,
        nb: BufferManager,
        key: Key,
        a: EditorAction,
    ) -> bool {
        match key {
            Key::Esc => {
                &&& n.current_mode == Mode::Normal
                &&& n.last_mode == o.current_mode
                &&& n.last_search_pattern == o.last_search_pattern
                &&& n.command_buffer@ == Seq::<char>::empty()
                &&& nb == ob
                &&& a == EditorAction::Nothing
            },
            Key::Enter => {
                &&& n.current_mode == Mode::Normal
                &&& n.last_mode == o.current_mode
                &&& n.command_buffer@ == o.command_buffer@
                &&& executed(o.command_buffer@, o.last_search_pattern@, n.last_search_pattern@, ob, nb, a)
            },
            Key::Backspace => {
                &&& n == ModeManager { command_buffer: n.command_buffer, ..o }
                &&& n.command_buffer@ == if o.command_buffer@.len() > 0 {
                    o.command_buffer@.drop_last()
                } else {
                    o.command_buffer@
                }
                &&& nb == ob
                &&& a == EditorAction::Nothing
            },
            Key::Char(c) => {
                &&& n == ModeManager { command_buffer: n.command_buffer, ..o }
                &&& n.command_buffer@ == o.command_buffer@.push(c)
                &&& nb == ob
                &&& a == EditorAction::Nothing
            },
            _ => n == o && nb == ob && a == EditorAction::Nothing,
        }
    }

    /// The effect of `key` in the mode `o` is in.
    pub open spec fn key_step(
        o: ModeManager,
        n: ModeManager,
        ob: BufferManager,
        nb: BufferManager,
        key: Key,
        a: EditorAction,
    ) -> bool {
        match o.current_mode {
            Mode::Normal => ModeManager::normal_step(o, n, ob, nb, key) && a == EditorAction::Nothing,
            Mode::Insert => ModeManager::insert_step(o, n, ob, nb, key) && a == EditorAction::Nothing,
            Mode::Visual => {
                &&& a == EditorAction::Nothing
                &&& nb == ob
                &&& if key == Key::Esc {
                    ModeManager::switched(o, n, Mode::Normal)
                } else {
                    n == o
                }
            },
            Mode::Command => ModeManager::command_step(o, n, ob, nb, key, a),
        }
    }

    pub fn new() -> (r: ModeManager)
        ensures
            r.current_mode == Mode::Normal,
            r.last_mode == Mode::Normal,
            r.command_buffer@ == Seq::<char>::empty(),
            r.last_search_pattern@ == Seq::<char>::empty(),
    {
        ModeManager {
            current_mode: Mode::Normal,
            last_mode: Mode::Normal,
            command_buffer: String::new(),
            last_search_pattern: String::new(),
        }
    }

    pub fn current_mode(&self) -> (r: Mode)
        ensures
            r == self.current_mode,
    {
        self.current_mode
    }

    /// Switches to `mode`, remembering the mode left; entering Command mode
    /// empties the command line.
    pub fn set_mode(&mut self, mode: Mode)
        ensures
            ModeManager::switched(*old(self), *final(self), mode),
    {
        self.last_mode = self.current_mode;
        self.current_mode = mode;
        if mode == Mode::Command {
            self.command_buffer = String::new();
        }
    }

    /// Enters Command mode with `prefix` as the command line.
    pub fn set_command_mode_with_prefix(&mut self, prefix: char)
        ensures
            final(self).current_mode == Mode::Command,
            final(self).last_mode == old(self).current_mode,
            final(self).last_search_pattern == old(self).last_search_pattern,
            final(self).command_buffer@ == seq![prefix],
    {
        self.last_mode = self.current_mode;
        self.current_mode = Mode::Command;
        let mut line = String::new();
        push_char(&mut line, prefix);
        assert(line@ =~= seq![prefix]);
        self.command_buffer = line;
    }

    pub fn command_buffer(&self) -> (r: &str)
        ensures
            r@ == self.command_buffer@,
    {
        self.command_buffer.as_str()
    }

    pub fn last_search_pattern(&self) -> (r: &str)
        ensures
            r@ == self.last_search_pattern@,
    {
        self.last_search_pattern.as_str()
    }

    /// Moves the current buffer's cursor to the next match of `pattern` after
    /// it, wrapping to the start of the buffer.
    pub fn search_in_buffer(&self, pattern: &str, buffer_manager: &mut BufferManager)
        requires
            old(buffer_manager).wf(),
        ensures
            final(buffer_manager).wf(),
            searched(*old(buffer_manager), *final(buffer_manager), pattern@, true),
    {
        buffer_manager.jump_to_match(pattern, true);
    }

    /// Moves the current buffer's cursor to the previous match of `pattern`
    /// before it, wrapping to the end of the buffer.
    pub fn search_backward_in_buffer(&self, pattern: &str, buffer_manager: &mut BufferManager)
        requires
            old(buffer_manager).wf(),
        ensures
            final(buffer_manager).wf(),
            searched(*old(buffer_manager), *final(buffer_manager), pattern@, false),
    {
        buffer_manager.jump_to_match(pattern, false);
    }

    /// The run of letters and digits under the cursor of the current buffer.
    pub fn get_word_under_cursor(&self, buffer_manager: &BufferManager) -> (r: Option<String>)
        requires
            buffer_manager.wf(),
        ensures
            match current_word(*buffer_manager) {
                Some(w) => r matches Some(s) && s@ == w,
                None => r is None,
            },
    {
        match buffer_manager.current_buffer() {
            None => None,
            Some(buffer) => {
                let pos = buffer.cursor.position();
                let chars = chars_of(buffer.content[pos.row].as_str());
                if pos.col >= chars.len() {
                    return None;
                }
                let mut flags: Vec<bool> = Vec::new();
                let mut i: usize = 0;
                while i < chars.len()
                    invariant
                        i <= chars.len(),
                        flags@ == alnum_flags(chars@.subrange(0, i as int)),
                    decreases chars.len() - i,
                {
                    flags.push(is_alphanumeric(chars[i]));
                    i += 1;
                    assert(flags@ =~= alnum_flags(chars@.subrange(0, i as int)));
                }
                assert(chars@.subrange(0, i as int) =~= chars@);
                if !flags[pos.col] {
                    return None;
                }
                let (start, end) = flag_run(&flags, pos.col);
                Some(string_of(&chars, start, end))
            },
        }
    }

    /// Runs a command line: `/pattern` searches forward and becomes the last
    /// search pattern; the others name what the caller is to do; anything else
    /// is ignored.
    pub fn execute_command(&mut self, command: &str, buffer_manager: &mut BufferManager) -> (r:
        EditorAction)
        requires
            old(buffer_manager).wf(),
        ensures
            final(buffer_manager).wf(),
            *final(self) == (ModeManager { last_search_pattern: final(self).last_search_pattern, ..*old(self) }),
            executed(
                command@,
                old(self).last_search_pattern@,
                final(self).last_search_pattern@,
                *old(buffer_manager),
                *final(buffer_manager),
                r,
            ),
    {
        let chars = chars_of(command);
        let (a, b) = trim_bounds(&chars, 0, chars.len());
        assert(chars@.subrange(0, chars.len() as int) =~= command@);
        let ghost t = trimmed(command@);
        assert(t == chars@.subrange(a as int, b as int));
        proof {
            reveal_strlit("w ");
            reveal_strlit("e ");
        }
        if a < b && chars[a] == '/' {
            let pattern = string_of(&chars, a + 1, b);
            assert(pattern@ =~= t.subrange(1, t.len() as int));
            if pattern.unicode_len() > 0 {
                self.search_in_buffer(pattern.as_str(), buffer_manager);
                self.last_search_pattern = pattern;
            }
            return EditorAction::Nothing;
        }
        if equals_literal(&chars, a, b, "q") || equals_literal(&chars, a, b, "quit") || equals_literal(
            &chars,
            a,
            b,
            "q!",
        ) {
            EditorAction::Quit
        } else if equals_literal(&chars, a, b, "w") || equals_literal(&chars, a, b, "write") {
            EditorAction::Save
        } else if equals_literal(&chars, a, b, "wq") || equals_literal(&chars, a, b, "x")
            || equals_literal(&chars, a, b, "wq!") {
            EditorAction::SaveAndQuit
        } else if has_literal_prefix(&chars, a, b, "w ") {
            let (c, d) = trim_bounds(&chars, a + 2, b);
            assert(chars@.subrange(a + 2, b as int) =~= t.subrange(2, t.len() as int));
            EditorAction::SaveAs(string_of(&chars, c, d))
        } else if has_literal_prefix(&chars, a, b, "e ") {
            let (c, d) = trim_bounds(&chars, a + 2, b);
            assert(chars@.subrange(a + 2, b as int) =~= t.subrange(2, t.len() as int));
            EditorAction::Open(string_of(&chars, c, d))
        } else {
            EditorAction::Nothing
        }
    }

    fn handle_normal_mode(&mut self, key: Key, buffer_manager: &mut BufferManager)
        requires
            old(buffer_manager).wf(),
            old(self).current_mode == Mode::Normal,
        ensures
            final(buffer_manager).wf(),
            ModeManager::normal_step(*old(self), *final(self), *old(buffer_manager), *final(buffer_manager), key),
    {
        match key {
            Key::Char('h') | Key::Left => buffer_manager.move_cursor_left(),
            Key::Char('j') | Key::Down => buffer_manager.move_cursor_down(),
            Key::Char('k') | Key::Up => buffer_manager.move_cursor_up(),
            Key::Char('l') | Key::Right => buffer_manager.move_cursor_right(),
            Key::Char('w') => buffer_manager.move_word_forward(),
            Key::Char('W') => buffer_manager.move_word_forward_whitespace(),
            Key::Char('b') => buffer_manager.move_word_backward(),
            Key::Char('B') => buffer_manager.move_word_backward_whitespace(),
            Key::Char('e') | Key::Char('E') => buffer_manager.move_to_end_of_word(),
            Key::Char('0') => buffer_manager.move_to_line_start(),
            Key::Char('$') => buffer_manager.move_to_line_end(),
            Key::Char('g') => buffer_manager.move_to_file_start(),
            Key::Char('G') => buffer_manager.move_to_file_end(),
            Key::Char('i') => self.set_mode(Mode::Insert),
            Key::Char('I') => {
                buffer_manager.move_to_line_start();
                self.set_mode(Mode::Insert);
            },
            Key::Char('a') => {
                buffer_manager.move_cursor_right();
                self.set_mode(Mode::Insert);
            },
            Key::Char('A') => {
                buffer_manager.move_to_line_end();
                self.set_mode(Mode::Insert);
            },
            Key::Char('o') => {
                buffer_manager.insert_line_below();
                self.set_mode(Mode::Insert);
            },
            Key::Char('O') => {
                buffer_manager.insert_line_above();
                self.set_mode(Mode::Insert);
            },
            Key::Char('v') => self.set_mode(Mode::Visual),
            Key::Char(':') => self.set_mode(Mode::Command),
            Key::Char('/') => self.set_command_mode_with_prefix('/'),
            Key::Char('x') => buffer_manager.delete_char(),
            Key::Char('d') => buffer_manager.delete_line(),
            Key::Char('u') => buffer_manager.undo(),
            Key::Ctrl('r') => buffer_manager.redo(),
            Key::Char('n') => {
                if self.last_search_pattern.as_str().unicode_len() > 0 {
                    self.search_in_buffer(self.last_search_pattern.as_str(), buffer_manager);
                }
            },
            Key::Char('N') => {
                if self.last_search_pattern.as_str().unicode_len() > 0 {
                    self.search_backward_in_buffer(self.last_search_pattern.as_str(), buffer_manager);
                }
            },
            Key::Char('*') => {
                if let Some(word) = self.get_word_under_cursor(buffer_manager) {
                    self.search_in_buffer(word.as_str(), buffer_manager);
                    self.last_search_pattern = word;
                }
            },
            Key::Ctrl('n') => buffer_manager.next_buffer(),
            Key::Ctrl('p') => buffer_manager.previous_buffer(),
            _ => {},
        }
    }

    fn handle_insert_mode(&mut self, key: Key, buffer_manager: &mut BufferManager)
        requires
            old(buffer_manager).wf(),
        ensures
            final(buffer_manager).wf(),
            ModeManager::insert_step(*old(self), *final(self), *old(buffer_manager), *final(buffer_manager), key),
    {
        match key {
            Key::Esc => self.set_mode(Mode::Normal),
            Key::Char(c) => buffer_manager.insert_char(c),
            Key::Enter => buffer_manager.insert_newline(),
            Key::Backspace => buffer_manager.backspace(),
            Key::Delete => buffer_manager.delete_char(),
            Key::Tab => buffer_manager.insert_tab(),
            _ => {},
        }
    }

    fn handle_visual_mode(&mut self, key: Key)
        ensures
            if key == Key::Esc {
                ModeManager::switched(*old(self), *final(self), Mode::Normal)
            } else {
                *final(self) == *old(self)
            },
    {
        if key == Key::Esc {
            self.set_mode(Mode::Normal);
        }
    }

    fn handle_command_mode(&mut self, key: Key, buffer_manager: &mut BufferManager) -> (r: EditorAction)
        requires
            old(buffer_manager).wf(),
        ensures
            final(buffer_manager).wf(),
            ModeManager::command_step(*old(self), *final(self), *old(buffer_manager), *final(buffer_manager), key, r),
    {
        match key {
            Key::Esc => {
                self.set_mode(Mode::Normal);
                self.command_buffer = String::new();
                EditorAction::Nothing
            },
            Key::Enter => {
                let command = self.command_buffer.clone();
                let action = self.execute_command(command.as_str(), buffer_manager);
                self.set_mode(Mode::Normal);
                action
            },
            Key::Backspace => {
                pop_char(&mut self.command_buffer);
                EditorAction::Nothing
            },
            Key::Char(c) => {
                push_char(&mut self.command_buffer, c);
                EditorAction::Nothing
            },
            _ => EditorAction::Nothing,
        }
    }

    /// Takes one key in the current mode and carries out what it asks for; the
    /// result says what the caller is to do after it.
    pub fn handle_key(&mut self, key: Key, buffer_manager: &mut BufferManager) -> (r: EditorAction)
        requires
            old(buffer_manager).wf(),
        ensures
            final(buffer_manager).wf(),
            ModeManager::key_step(*old(self), *final(self), *old(buffer_manager), *final(buffer_manager), key, r),
    {
        match self.current_mode {
            Mode::Normal => {
                self.handle_normal_mode(key, buffer_manager);
                EditorAction::Nothing
            },
            Mode::Insert => {
                self.handle_insert_mode(key, buffer_manager);
                EditorAction::Nothing
            },
            Mode::Visual => {
                self.handle_visual_mode(key);
                EditorAction::Nothing
            },
            Mode::Command => self.handle_command_mode(key, buffer_manager),
        }
    }
}

} // verus!
