//! What the screen shows: the start dashboard's menu, the editor view's visible
//! rows, and where keys go before the mode dispatcher.
use vstd::prelude::*;

use crate::config::Config;
use crate::modes::{Key, Mode};

verus! {

/// The start screen with its menu.
pub struct Dashboard {
    pub config: Config,
}

/// The action of a dashboard menu key: the first menu entry whose key holds
/// the character typed.
pub open spec fn menu_action(c: char) -> Option<Seq<char>> {
    if c == 'p' || c == 'f' {
        Some("files"@)
    } else if c == 't' {
        Some("grep"@)
    } else if c == 'b' {
        Some("buffers"@)
    } else if c == 'r' {
        Some("resume"@)
    } else if c == 'q' {
        Some("quit"@)
    } else {
        None
    }
}

impl Dashboard {
    pub fn new(config: &Config) -> (r: Dashboard)
        ensures
            r.config.same_as(*config),
    {
        Dashboard { config: config.copied() }
    }

    /// The menu: each entry's keys, what it is called, and its action.
    pub fn menu_items(&self) -> (r: Vec<(&'static str, &'static str, &'static str)>)
        ensures
            r@.len() == 5,
            r@[0].0@ == "pf"@ && r@[0].1@ == "Find Files"@ && r@[0].2@ == "files"@,
            r@[1].0@ == "pt"@ && r@[1].1@ == "Grep Text"@ && r@[1].2@ == "grep"@,
            r@[2].0@ == "pb"@ && r@[2].1@ == "Buffers"@ && r@[2].2@ == "buffers"@,
            r@[3].0@ == "pr"@ && r@[3].1@ == "Resume Session"@ && r@[3].2@ == "resume"@,
            r@[4].0@ == "q"@ && r@[4].1@ == "Quit"@ && r@[4].2@ == "quit"@,
    {
        let mut items: Vec<(&'static str, &'static str, &'static str)> = Vec::new();
        items.push(("pf", "Find Files", "files"));
        items.push(("pt", "Grep Text", "grep"));
        items.push(("pb", "Buffers", "buffers"));
        items.push(("pr", "Resume Session", "resume"));
        items.push(("q", "Quit", "quit"));
        items
    }

    /// The action a key picks from the menu, if any.
    pub fn handle_key(&mut self, key: Key) -> (r: Option<String>)
        ensures
            match key {
                Key::Char(c) => match menu_action(c) {
                    Some(a) => r matches Some(s) && s@ == a,
                    None => r is None,
                },
                _ => r is None,
            },
    {
        match key {
            Key::Char(c) => {
                if c == 'p' || c == 'f' {
                    Some(String::from_str("files"))
                } else if c == 't' {
                    Some(String::from_str("grep"))
                } else if c == 'b' {
                    Some(String::from_str("buffers"))
                } else if c == 'r' {
                    Some(String::from_str("resume"))
                } else if c == 'q' {
                    Some(String::from_str("quit"))
                } else {
                    None
                }
            },
            _ => None,
        }
    }
}

/// The editor view and its settings.
pub struct UI {
    pub config: Config,
}

impl UI {
    pub fn new(config: &Config) -> (r: UI)
        ensures
            r.config.same_as(*config),
    {
        UI { config: config.copied() }
    }
}

/// The rows `[start, end)` that a view of `height` rows shows so that the
/// cursor's row is its last row once the cursor is below the first screen.
pub fn visible_rows(cursor_row: usize, height: usize, line_count: usize) -> (r: (usize, usize))
    requires
        cursor_row < line_count,
    ensures
        r.0 == if cursor_row >= height {
            cursor_row - height + 1
        } else {
            0
        },
        r.1 == if r.0 + height <= line_count {
            r.0 + height
        } else {
            line_count as int
        },
{
    let start = if cursor_row >= height {
        cursor_row - height + 1
    } else {
        0
    };
    let end = if height <= line_count - start {
        start + height
    } else {
        line_count
    };
    (start, end)
}

/// Where a key goes before the mode dispatcher sees it.
#[derive(Clone, Copy, Debug, PartialEq, Eq, Structural)]
pub enum Route {
    /// End the editor.
    Quit,
    /// Wait for a second key of a leader sequence.
    Leader,
    /// Hand the key to the mode dispatcher.
    Editor,
}

/// `q` ends the editor and a space starts a leader sequence, in Normal mode;
/// every other key goes to the mode dispatcher.
pub fn route_key(mode: Mode, key: Key) -> (r: Route)
    ensures
        r == if mode == Mode::Normal && key == Key::Char('q') {
            Route::Quit
        } else if mode == Mode::Normal && key == Key::Char(' ') {
            Route::Leader
        } else {
            Route::Editor
        },
{
    if mode == Mode::Normal && key == Key::Char('q') {
        Route::Quit
    } else if mode == Mode::Normal && key == Key::Char(' ') {
        Route::Leader
    } else {
        Route::Editor
    }
}

/// What the key after the leader asks for.
#[derive(Clone, Copy, Debug, PartialEq, Eq, Structural)]
pub enum LeaderAction {
    FindFiles,
    GrepText,
    Buffers,
    ResumeSession,
    Dashboard,
    Quit,
}

pub open spec fn leader_action_of(key: Key) -> Option<LeaderAction> {
    match key {
        Key::Char('f') => Some(LeaderAction::FindFiles),
        Key::Char('/') => Some(LeaderAction::GrepText),
        Key::Char('b') => Some(LeaderAction::Buffers),
        Key::Char('s') => Some(LeaderAction::ResumeSession),
        Key::Char('d') => Some(LeaderAction::Dashboard),
        Key::Char('q') => Some(LeaderAction::Quit),
        _ => None,
    }
}

/// The action of the key that follows the leader, if it has one.
pub fn leader_action(key: Key) -> (r: Option<LeaderAction>)
    ensures
        r == leader_action_of(key),
{
    match key {
        Key::Char('f') => Some(LeaderAction::FindFiles),
        Key::Char('/') => Some(LeaderAction::GrepText),
        Key::Char('b') => Some(LeaderAction::Buffers),
        Key::Char('s') => Some(LeaderAction::ResumeSession),
        Key::Char('d') => Some(LeaderAction::Dashboard),
        Key::Char('q') => Some(LeaderAction::Quit),
        _ => None,
    }
}

} // verus!
