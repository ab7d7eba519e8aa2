//! A buffer: lines of text, a cursor, file metadata and snapshot undo/redo.
use vstd::prelude::*;

use crate::cursor::{Cursor, Position, min_int};
use crate::error::EditorError;
use crate::history::{
    History, UNDO_LIMIT, after_edits, edited, lemma_undo_redo_inverse, recorded, redo_step, redo_times, undo_step,
    undo_times,
};
use crate::text::{
    char_count, join_lines, join_text, lemma_split_join, lines_view, no_line_breaks, split_lines,
    split_text, substring, with_inserted, with_removed,
};

verus! {

/// The last component of a path, where the path names one.
pub uninterp spec fn file_name_of(path: Seq<char>) -> Option<Seq<char>>;

/// Relies on `std::path::Path::file_name`: the final component of the path, or
/// nothing where the path ends in `..` or is a root; it depends on the path alone.
#[verifier::external_body]
fn file_name(path: &str) -> (r: Option<String>)
    ensures
        r is Some <==> file_name_of(path@) is Some,
        r is Some ==> r->0@ == file_name_of(path@)->0,
{
    std::path::Path::new(path).file_name().map(|n| n.to_string_lossy().into_owned())
}

/// The name a buffer for `path` is shown under.
pub open spec fn name_for_path(path: Seq<char>) -> Seq<char> {
    match file_name_of(path) {
        Some(n) => n,
        None => "untitled"@,
    }
}

pub struct Buffer {
    pub id: usize,
    pub path: Option<String>,
    pub content: Vec<String>,
    pub cursor: Cursor,
    pub modified: bool,
    pub name: String,
    pub undo_stack: Vec<Vec<String>>,
    pub redo_stack: Vec<Vec<String>>,
}

/// The snapshots of a stack, as lines.
pub open spec fn snapshots(stack: Seq<Vec<String>>) -> Seq<Seq<Seq<char>>> {
    stack.map_values(|s: Vec<String>| lines_view(s@))
}

/// The cursor moved onto `lines`: the row at most the last, the column at most
/// the row's length; the remembered column is kept.
pub open spec fn fitted(c: Cursor, lines: Seq<Seq<char>>) -> Cursor {
    let row = min_int(c.row(), lines.len() - 1);
    Cursor {
        position: Position { row: row as usize, col: min_int(c.col(), lines[row].len() as int) as usize },
        desired_col: c.desired_col,
    }
}

/// Saving a buffer and opening the saved file again gives back the same lines,
/// as long as no line holds a line break. `text` is what saving writes (what
/// `text` and `save_current_as` return), and `reopened` a buffer opened on that
/// text (as `from_file` and `open_file` ensure).
pub proof fn lemma_save_reopen(b: Buffer, text: Seq<char>, reopened: Buffer)
    requires
        b.wf(),
        no_line_breaks(b.lines()),
        text == join_lines(b.lines()),
        reopened.lines() == split_lines(text),
    ensures
        reopened.lines() == b.lines(),
{
    lemma_split_join(b.lines());
}

/// The lines of each buffer of a sequence.
pub open spec fn lines_of(bs: Seq<Buffer>) -> Seq<Seq<Seq<char>>> {
    bs.map_values(|b: Buffer| b.lines())
}

proof fn lemma_edit_chain(edits: Seq<Buffer>, k: int)
    requires
        0 <= k < edits.len(),
        forall|i: int| 1 <= i < edits.len() ==> (#[trigger] edits[i]).edit_of(edits[i - 1]),
    ensures
        edits[k].history() == after_edits(edits[0].history(), lines_of(edits.subrange(1, k + 1))),
    decreases k,
{
    if k > 0 {
        lemma_edit_chain(edits, k - 1);
        let s = lines_of(edits.subrange(1, k + 1));
        assert(s.drop_last() =~= lines_of(edits.subrange(1, k)));
        assert(edits[k].edit_of(edits[k - 1]));
    }
}

proof fn lemma_undo_chain(undos: Seq<Buffer>, k: int)
    requires
        0 <= k < undos.len(),
        forall|i: int| 1 <= i < undos.len() ==> Buffer::undo_post(undos[i - 1], #[trigger] undos[i]),
    ensures
        undos[k].history() == undo_times(undos[0].history(), k as nat),
    decreases k,
{
    if k > 0 {
        lemma_undo_chain(undos, k - 1);
        assert(Buffer::undo_post(undos[k - 1], undos[k]));
    }
}

proof fn lemma_redo_chain(redos: Seq<Buffer>, k: int)
    requires
        0 <= k < redos.len(),
        forall|i: int| 1 <= i < redos.len() ==> Buffer::redo_post(redos[i - 1], #[trigger] redos[i]),
    ensures
        redos[k].history() == redo_times(redos[0].history(), k as nat),
    decreases k,
{
    if k > 0 {
        lemma_redo_chain(redos, k - 1);
        assert(Buffer::redo_post(redos[k - 1], redos[k]));
    }
}

/// Undoing as many edits as were made, at most `UNDO_LIMIT`, brings back the
/// lines from before the first edit, and as many redos then bring back the
/// lines that the last edit left. `edits` are the buffer before and after each
/// edit, each one an edit of the one before it, as every editing method
/// ensures; `undos` are the buffer after the last edit and after each `undo`,
/// and `redos` the buffer after the last undo and after each `redo`.
pub proof fn lemma_undo_redo_calls(edits: Seq<Buffer>, undos: Seq<Buffer>, redos: Seq<Buffer>)
    requires
        1 <= edits.len() <= UNDO_LIMIT + 1,
        edits[0].wf(),
        forall|i: int| 1 <= i < edits.len() ==> (#[trigger] edits[i]).edit_of(edits[i - 1]),
        undos.len() == edits.len(),
        undos[0] == edits.last(),
        forall|i: int| 1 <= i < undos.len() ==> Buffer::undo_post(undos[i - 1], #[trigger] undos[i]),
        redos.len() == edits.len(),
        redos[0] == undos.last(),
        forall|i: int| 1 <= i < redos.len() ==> Buffer::redo_post(redos[i - 1], #[trigger] redos[i]),
    ensures
        undos.last().lines() == edits[0].lines(),
        redos.last().lines() == edits.last().lines(),
{
    let n = edits.len() - 1;
    let h = edits[0].history();
    let es = lines_of(edits.subrange(1, n + 1));
    lemma_edit_chain(edits, n);
    lemma_undo_chain(undos, n);
    lemma_redo_chain(redos, n);
    lemma_undo_redo_inverse(h, es);
}

/// A copy of a buffer's lines.
fn copy_of(content: &Vec<String>) -> (r: Vec<String>)
    ensures
        r@ == content@,
{
    let r = content.clone();
    assert(r@ =~= content@) by {
        assert forall|i: int| 0 <= i < r.len() implies r@[i] == content@[i] by {
            assert(cloned::<String>(content[i], r[i]));
        }
    }
    r
}

impl Buffer {
    /// The lines of the buffer.
    pub open spec fn lines(&self) -> Seq<Seq<char>> {
        lines_view(self.content@)
    }

    /// The lines with the undo and redo snapshots.
    pub open spec fn history(&self) -> History {
        History {
            content: self.lines(),
            undo: snapshots(self.undo_stack@),
            redo: snapshots(self.redo_stack@),
        }
    }

    /// At least one line, the cursor on a line and at most at its end, at most
    /// `UNDO_LIMIT` snapshots, each of at least one line.
    pub open spec fn wf(&self) -> bool {
        &&& self.content.len() >= 1
        &&& self.cursor.within(self.lines())
        &&& self.undo_stack.len() + self.redo_stack.len() <= UNDO_LIMIT
        &&& forall|i: int| 0 <= i < self.undo_stack.len() ==> #[trigger] self.undo_stack@[i].len() >= 1
        &&& forall|i: int| 0 <= i < self.redo_stack.len() ==> #[trigger] self.redo_stack@[i].len() >= 1
    }

    /// Id, path and name are those of `other`.
    pub open spec fn same_file(&self, other: Buffer) -> bool {
        self.id == other.id && self.path == other.path && self.name == other.name
    }

    /// The content as it was changed by an edit, recorded in the history.
    pub open spec fn edit_of(&self, old: Buffer) -> bool {
        &&& self.wf()
        &&& self.same_file(old)
        &&& self.history() == edited(old.history(), self.lines())
    }

    /// The cursor's row.
    pub open spec fn row(&self) -> int {
        self.cursor.row()
    }

    /// The cursor's column.
    pub open spec fn col(&self) -> int {
        self.cursor.col()
    }

    /// What `insert_char(ch)` makes of `old`.
    pub open spec fn insert_char_post(old: Buffer, new: Buffer, ch: char) -> bool {
        &&& new.edit_of(old)
        &&& new.lines() == old.lines().update(old.row(), old.lines()[old.row()].insert(old.col(), ch))
        &&& new.cursor == Cursor::at(old.row(), old.col() + 1)
        &&& new.modified
    }

    /// What `insert_newline` makes of `old`.
    pub open spec fn insert_newline_post(old: Buffer, new: Buffer) -> bool {
        let line = old.lines()[old.row()];
        &&& new.edit_of(old)
        &&& new.lines() == old.lines().update(old.row(), line.subrange(0, old.col())).insert(
            old.row() + 1,
            line.subrange(old.col(), line.len() as int),
        )
        &&& new.cursor == Cursor::at(old.row() + 1, 0)
        &&& new.modified
    }

    /// What `backspace` makes of `old`.
    pub open spec fn backspace_post(old: Buffer, new: Buffer) -> bool {
        let (row, col) = (old.row(), old.col());
        let lines = old.lines();
        &&& new.edit_of(old)
        &&& if col > 0 {
            &&& new.lines() == lines.update(row, lines[row].remove(col - 1))
            &&& new.cursor == Cursor::at(row, col - 1)
            &&& new.modified
        } else if row > 0 {
            &&& new.lines() == lines.update(row - 1, lines[row - 1] + lines[row]).remove(row)
            &&& new.cursor == Cursor::at(row - 1, lines[row - 1].len() as int)
            &&& new.modified
        } else {
            &&& new.lines() == lines
            &&& new.cursor == old.cursor
            &&& new.modified == old.modified
        }
    }

    /// What `delete_char` makes of `old`.
    pub open spec fn delete_char_post(old: Buffer, new: Buffer) -> bool {
        let (row, col) = (old.row(), old.col());
        let lines = old.lines();
        &&& new.edit_of(old)
        &&& new.cursor == old.cursor
        &&& if col < lines[row].len() {
            &&& new.lines() == lines.update(row, lines[row].remove(col))
            &&& new.modified
        } else if row + 1 < lines.len() {
            &&& new.lines() == lines.update(row, lines[row] + lines[row + 1]).remove(row + 1)
            &&& new.modified
        } else {
            &&& new.lines() == lines
            &&& new.modified == old.modified
        }
    }

    /// What `delete_line` makes of `old`.
    pub open spec fn delete_line_post(old: Buffer, new: Buffer) -> bool {
        let (row, n) = (old.row(), old.lines().len());
        &&& new.edit_of(old)
        &&& new.lines() == if n == 1 {
            seq![Seq::<char>::empty()]
        } else {
            old.lines().remove(row)
        }
        &&& new.cursor == Cursor::at(
            if n > 1 && row == n - 1 {
                row - 1
            } else {
                row
            },
            0,
        )
        &&& new.modified
    }

    /// What `insert_line_below` makes of `old`.
    pub open spec fn insert_line_below_post(old: Buffer, new: Buffer) -> bool {
        &&& new.edit_of(old)
        &&& new.lines() == old.lines().insert(old.row() + 1, Seq::empty())
        &&& new.cursor == Cursor::at(old.row() + 1, 0)
        &&& new.modified
    }

    /// What `insert_line_above` makes of `old`.
    pub open spec fn insert_line_above_post(old: Buffer, new: Buffer) -> bool {
        &&& new.edit_of(old)
        &&& new.lines() == old.lines().insert(old.row(), Seq::empty())
        &&& new.cursor == Cursor::at(old.row(), 0)
        &&& new.modified
    }

    /// What `undo` makes of `old`: the cursor is fitted onto the restored lines.
    pub open spec fn undo_post(old: Buffer, new: Buffer) -> bool {
        &&& new.wf()
        &&& new.same_file(old)
        &&& new.history() == undo_step(old.history())
        &&& if old.undo_stack.len() > 0 {
            new.cursor == fitted(old.cursor, new.lines()) && new.modified
        } else {
            new.cursor == old.cursor && new.modified == old.modified
        }
    }

    /// What `redo` makes of `old`: the cursor is fitted onto the restored lines.
    pub open spec fn redo_post(old: Buffer, new: Buffer) -> bool {
        &&& new.wf()
        &&& new.same_file(old)
        &&& new.history() == redo_step(old.history())
        &&& if old.redo_stack.len() > 0 {
            new.cursor == fitted(old.cursor, new.lines()) && new.modified
        } else {
            new.cursor == old.cursor && new.modified == old.modified
        }
    }

    /// An empty buffer: one blank line, no path, nothing to undo.
    pub fn new(id: usize, name: String) -> (r: Buffer)
        ensures
            r.wf(),
            r.id == id,
            r.name == name,
            r.path is None,
            r.lines() == seq![Seq::<char>::empty()],
            r.cursor == Cursor::at(0, 0),
            !r.modified,
            r.undo_stack.len() == 0,
            r.redo_stack.len() == 0,
    {
        let mut content: Vec<String> = Vec::new();
        content.push(String::new());
        let r = Buffer {
            id,
            path: None,
            content,
            cursor: Cursor::new(),
            modified: false,
            name,
            undo_stack: Vec::new(),
            redo_stack: Vec::new(),
        };
        assert(r.lines() =~= seq![Seq::<char>::empty()]);
        r
    }

    /// A buffer for the file at `path`, whose text is `text`; `None` stands for
    /// a file that does not exist, which gives one blank line.
    pub fn from_file(id: usize, path: &str, text: Option<&str>) -> (r: Buffer)
        ensures
            r.wf(),
            r.id == id,
            r.path matches Some(p) && p@ == path@,
            r.name@ == name_for_path(path@),
            r.lines() == match text {
                Some(t) => split_lines(t@),
                None => seq![Seq::<char>::empty()],
            },
            r.cursor == Cursor::at(0, 0),
            !r.modified,
            r.undo_stack.len() == 0,
            r.redo_stack.len() == 0,
    {
        let content = match text {
            Some(t) => split_text(t),
            None => {
                let mut v: Vec<String> = Vec::new();
                v.push(String::new());
                assert(lines_view(v@) =~= seq![Seq::<char>::empty()]);
                v
            },
        };
        proof {
            if let Some(t) = text {
                crate::text::lemma_split_lines_len(t@);
            }
        }
        let name = match file_name(path) {
            Some(n) => n,
            None => String::from_str("untitled"),
        };
        Buffer {
            id,
            path: Some(String::from_str(path)),
            content,
            cursor: Cursor::new(),
            modified: false,
            name,
            undo_stack: Vec::new(),
            redo_stack: Vec::new(),
        }
    }

    /// The text that saving writes: the lines joined with `'\n'`.
    pub fn text(&self) -> (r: String)
        ensures
            r@ == join_lines(self.lines()),
    {
        join_text(&self.content)
    }

    /// Where saving writes: the buffer's path, or `NoFilePath`.
    pub fn save_target(&self) -> (r: Result<String, EditorError>)
        ensures
            match self.path {
                Some(p) => r matches Ok(t) && t@ == p@,
                None => r == Err::<String, EditorError>(EditorError::NoFilePath),
            },
    {
        match &self.path {
            Some(p) => Ok(p.clone()),
            None => Err(EditorError::NoFilePath),
        }
    }

    /// Records that the content was written to `path`: the path is adopted and
    /// the buffer is no longer modified.
    pub fn mark_saved(&mut self, path: String)
        ensures
            final(self).path == Some(path),
            !final(self).modified,
            final(self).id == old(self).id,
            final(self).name == old(self).name,
            final(self).content == old(self).content,
            final(self).cursor == old(self).cursor,
            final(self).undo_stack == old(self).undo_stack,
            final(self).redo_stack == old(self).redo_stack,
    {
        self.path = Some(path);
        self.modified = false;
    }

    /// Records the content for undo, evicting the oldest snapshot when
    /// `UNDO_LIMIT` are kept, and forgets what could be redone.
    fn push_undo(&mut self)
        requires
            old(self).wf(),
        ensures
            snapshots(final(self).undo_stack@) == recorded(
                snapshots(old(self).undo_stack@),
                old(self).lines(),
            ),
            final(self).undo_stack.len() <= UNDO_LIMIT,
            forall|i: int|
                0 <= i < final(self).undo_stack.len() ==> #[trigger] final(self).undo_stack@[i].len()
                    >= 1,
            final(self).redo_stack.len() == 0,
            snapshots(final(self).redo_stack@) == Seq::<Seq<Seq<char>>>::empty(),
            final(self).content == old(self).content,
            final(self).cursor == old(self).cursor,
            final(self).modified == old(self).modified,
            final(self).same_file(*old(self)),
    {
        let ghost old_undo = self.undo_stack@;
        if self.undo_stack.len() >= UNDO_LIMIT {
            self.undo_stack.remove(0);
            assert(self.undo_stack@ == old_undo.drop_first());
        }
        self.undo_stack.push(copy_of(&self.content));
        self.redo_stack.clear();
        assert(snapshots(self.undo_stack@) =~= recorded(snapshots(old_undo), old(self).lines()));
        assert(snapshots(self.redo_stack@) =~= Seq::<Seq<Seq<char>>>::empty());
    }

    /// Inserts `ch` at the cursor and moves past it.
    pub fn insert_char(&mut self, ch: char)
        requires
            old(self).wf(),
        ensures
            Buffer::insert_char_post(*old(self), *final(self), ch),
    {
        self.push_undo();
        let pos = self.cursor.position();
        let line = with_inserted(&self.content[pos.row], pos.col, ch);
        self.content.set(pos.row, line);
        self.cursor.move_right(&self.content);
        self.modified = true;
        assert(self.lines() =~= old(self).lines().update(
            pos.row as int,
            old(self).lines()[pos.row as int].insert(pos.col as int, ch),
        ));
    }

    /// Splits the line at the cursor; the cursor goes to the start of the new
    /// second line.
    pub fn insert_newline(&mut self)
        requires
            old(self).wf(),
        ensures
            Buffer::insert_newline_post(*old(self), *final(self)),
    {
        self.push_undo();
        let pos = self.cursor.position();
        let n = char_count(self.content[pos.row].as_str());
        let before = substring(&self.content[pos.row], 0, pos.col);
        let after = substring(&self.content[pos.row], pos.col, n);
        self.content.set(pos.row, before);
        self.content.insert(pos.row + 1, after);
        self.cursor.move_down(&self.content);
        self.cursor.move_to_column(0);
        self.modified = true;
        let ghost line = old(self).lines()[pos.row as int];
        assert(self.lines() =~= old(self).lines().update(pos.row as int, line.subrange(0, pos.col as int)).insert(
            pos.row + 1,
            line.subrange(pos.col as int, line.len() as int),
        ));
    }

    /// Deletes the character left of the cursor; at the start of a line, joins
    /// the line onto the one above.
    pub fn backspace(&mut self)
        requires
            old(self).wf(),
        ensures
            Buffer::backspace_post(*old(self), *final(self)),
    {
        self.push_undo();
        let pos = self.cursor.position();
        let ghost lines = old(self).lines();
        let ghost row = pos.row as int;
        let ghost col = pos.col as int;
        if pos.col > 0 {
            let line = with_removed(&self.content[pos.row], pos.col - 1);
            self.content.set(pos.row, line);
            self.cursor.move_left(&self.content);
            self.modified = true;
            assert(self.lines() =~= lines.update(row, lines[row].remove(col - 1)));
        } else if pos.row > 0 {
            let current = self.content.remove(pos.row);
            let prev_len = char_count(self.content[pos.row - 1].as_str());
            let mut joined = self.content[pos.row - 1].clone();
            joined.append(current.as_str());
            self.content.set(pos.row - 1, joined);
            self.cursor.move_up(&self.content);
            self.cursor.move_to_column(prev_len);
            self.modified = true;
            assert(self.lines() =~= lines.update(row - 1, lines[row - 1] + lines[row]).remove(row));
        }
    }

    /// Deletes the character under the cursor; at the end of a line, joins the
    /// next line onto it.
    pub fn delete_char(&mut self)
        requires
            old(self).wf(),
        ensures
            Buffer::delete_char_post(*old(self), *final(self)),
    {
        self.push_undo();
        let pos = self.cursor.position();
        let ghost lines = old(self).lines();
        let ghost row = pos.row as int;
        let n = char_count(self.content[pos.row].as_str());
        if pos.col < n {
            let line = with_removed(&self.content[pos.row], pos.col);
            self.content.set(pos.row, line);
            self.modified = true;
            assert(self.lines() =~= lines.update(row, lines[row].remove(pos.col as int)));
        } else if pos.row + 1 < self.content.len() {
            let next = self.content.remove(pos.row + 1);
            let mut joined = self.content[pos.row].clone();
            joined.append(next.as_str());
            self.content.set(pos.row, joined);
            self.modified = true;
            assert(self.lines() =~= lines.update(row, lines[row] + lines[row + 1]).remove(row + 1));
        }
    }

    /// Removes the cursor's line (the only line is emptied instead); the cursor
    /// goes to column 0, up one row where the last row was removed.
    pub fn delete_line(&mut self)
        requires
            old(self).wf(),
        ensures
            Buffer::delete_line_post(*old(self), *final(self)),
    {
        self.push_undo();
        let pos = self.cursor.position();
        if self.content.len() == 1 {
            self.content.set(0, String::new());
            assert(self.lines() =~= seq![Seq::<char>::empty()]);
        } else {
            self.content.remove(pos.row);
            if pos.row >= self.content.len() && pos.row > 0 {
                self.cursor.move_up(&self.content);
            }
            assert(self.lines() =~= old(self).lines().remove(pos.row as int));
        }
        self.cursor.move_to_column(0);
        self.modified = true;
    }

    /// Opens a blank line below the cursor's line and moves onto it.
    pub fn insert_line_below(&mut self)
        requires
            old(self).wf(),
        ensures
            Buffer::insert_line_below_post(*old(self), *final(self)),
    {
        self.push_undo();
        let pos = self.cursor.position();
        self.content.insert(pos.row + 1, String::new());
        self.cursor.move_down(&self.content);
        self.cursor.move_to_column(0);
        self.modified = true;
        assert(self.lines() =~= old(self).lines().insert(pos.row + 1, Seq::empty()));
    }

    /// Opens a blank line above the cursor's line and moves onto it.
    pub fn insert_line_above(&mut self)
        requires
            old(self).wf(),
        ensures
            Buffer::insert_line_above_post(*old(self), *final(self)),
    {
        self.push_undo();
        let pos = self.cursor.position();
        self.content.insert(pos.row, String::new());
        self.cursor.move_to_column(0);
        self.modified = true;
        assert(self.lines() =~= old(self).lines().insert(pos.row as int, Seq::empty()));
    }

    /// Brings the cursor onto the content after it was replaced.
    fn fit_cursor(&mut self)
        requires
            old(self).content.len() >= 1,
        ensures
            final(self).cursor == fitted(old(self).cursor, old(self).lines()),
            final(self).content == old(self).content,
            final(self).modified == old(self).modified,
            final(self).undo_stack == old(self).undo_stack,
            final(self).redo_stack == old(self).redo_stack,
            final(self).same_file(*old(self)),
    {
        let last = self.content.len() - 1;
        if self.cursor.position.row > last {
            self.cursor.position.row = last;
        }
        let n = char_count(self.content[self.cursor.position.row].as_str());
        if self.cursor.position.col > n {
            self.cursor.position.col = n;
        }
    }

    /// Goes back to the newest undo snapshot; the content it replaces can be
    /// redone.
    pub fn undo(&mut self)
        requires
            old(self).wf(),
        ensures
            Buffer::undo_post(*old(self), *final(self)),
    {
        let ghost h = self.history();
        if let Some(previous) = self.undo_stack.pop() {
            self.redo_stack.push(copy_of(&self.content));
            self.content = previous;
            self.modified = true;
            self.fit_cursor();
            assert(snapshots(self.undo_stack@) =~= h.undo.drop_last());
            assert(snapshots(self.redo_stack@) =~= h.redo.push(h.content));
            assert(self.undo_stack.len() + self.redo_stack.len() <= UNDO_LIMIT);
            assert forall|i: int| 0 <= i < self.redo_stack.len() implies #[trigger] self.redo_stack@[i].len()
                >= 1 by {
                if i < self.redo_stack.len() - 1 {
                    assert(self.redo_stack@[i] == old(self).redo_stack@[i]);
                }
            }
        }
    }

    /// Goes forward to the newest redo snapshot; the content it replaces can be
    /// undone.
    pub fn redo(&mut self)
        requires
            old(self).wf(),
        ensures
            Buffer::redo_post(*old(self), *final(self)),
    {
        let ghost h = self.history();
        if let Some(next) = self.redo_stack.pop() {
            self.undo_stack.push(copy_of(&self.content));
            self.content = next;
            self.modified = true;
            self.fit_cursor();
            assert(snapshots(self.redo_stack@) =~= h.redo.drop_last());
            assert(snapshots(self.undo_stack@) =~= h.undo.push(h.content));
            assert forall|i: int| 0 <= i < self.undo_stack.len() implies #[trigger] self.undo_stack@[i].len()
                >= 1 by {
                if i < self.undo_stack.len() - 1 {
                    assert(self.undo_stack@[i] == old(self).undo_stack@[i]);
                }
            }
        }
    }

    pub fn line_count(&self) -> (r: usize)
        ensures
            r == self.content.len(),
    {
        self.content.len()
    }

    pub fn get_line(&self, row: usize) -> (r: Option<&String>)
        ensures
            match r {
                Some(s) => row < self.content.len() && *s == self.content@[row as int],
                None => row >= self.content.len(),
            },
    {
        if row < self.content.len() {
            Some(&self.content[row])
        } else {
            None
        }
    }
}

} // verus!
