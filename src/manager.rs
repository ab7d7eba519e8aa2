//! The registry of open buffers, with the current one, and the operations that
//! act on the current buffer.
use vstd::prelude::*;

use crate::buffer::{Buffer, name_for_path};
use crate::cursor::{Cursor, Position, lemma_motions_within};
use crate::error::EditorError;
use crate::search::{find_backward, find_forward, lemma_search_within, search_cursor};
use crate::text::{char_count, chars_of, join_lines, split_lines};
use vstd::arithmetic::div_mod::{lemma_mod_add_multiples_vanish, lemma_mod_self_0, lemma_small_mod};

verus! {

/// What saving the current buffer writes: which buffer, where, and the text.
pub struct SaveRequest {
    pub id: usize,
    pub path: String,
    pub text: String,
}

/// The index of the buffer with id `id`, if one has it.
pub open spec fn index_of(bufs: Seq<Buffer>, id: usize) -> Option<int> {
    if exists|i: int| 0 <= i < bufs.len() && #[trigger] bufs[i].id == id {
        Some(choose|i: int| 0 <= i < bufs.len() && #[trigger] bufs[i].id == id)
    } else {
        None
    }
}

/// Ids strictly increase along the sequence.
pub open spec fn ids_increasing(bufs: Seq<Buffer>) -> bool {
    forall|i: int, j: int| 0 <= i < j < bufs.len() ==> bufs[i].id < bufs[j].id
}

proof fn lemma_index_of(bufs: Seq<Buffer>, i: int)
    requires
        ids_increasing(bufs),
        0 <= i < bufs.len(),
    ensures
        index_of(bufs, bufs[i].id) == Some(i),
{
    let id = bufs[i].id;
    assert(bufs[i].id == id);
    let j = choose|j: int| 0 <= j < bufs.len() && #[trigger] bufs[j].id == id;
    if j < i {
        assert(bufs[j].id < bufs[i].id);
    } else if j > i {
        assert(bufs[i].id < bufs[j].id);
    }
}

/// The buffers open in the editor, ordered by id, and which one is current.
pub struct BufferManager {
    pub buffers: Vec<Buffer>,
    pub current_buffer_id: Option<usize>,
    pub next_id: usize,
}

impl BufferManager {
    /// Every buffer well formed, ids increasing and below `next_id`, and the
    /// current id, if any, that of an open buffer.
    pub open spec fn wf(&self) -> bool {
        &&& forall|i: int| 0 <= i < self.buffers.len() ==> (#[trigger] self.buffers@[i]).wf()
        &&& ids_increasing(self.buffers@)
        &&& forall|i: int| 0 <= i < self.buffers.len() ==> (#[trigger] self.buffers@[i]).id < self.next_id
        &&& self.current_buffer_id matches Some(id) ==> index_of(self.buffers@, id) is Some
    }

    /// The index of the current buffer.
    pub open spec fn current_index(&self) -> Option<int> {
        match self.current_buffer_id {
            Some(id) => index_of(self.buffers@, id),
            None => None,
        }
    }

    /// `self` is `old` with the current buffer, if any, changed as `f` relates
    /// them, and nothing else changed.
    pub open spec fn updates_current(&self, old: BufferManager, f: spec_fn(Buffer, Buffer) -> bool) -> bool {
        &&& self.current_buffer_id == old.current_buffer_id
        &&& self.next_id == old.next_id
        &&& self.buffers.len() == old.buffers.len()
        &&& match old.current_index() {
            Some(i) => {
                &&& forall|j: int|
                    0 <= j < self.buffers.len() && j != i ==> self.buffers@[j] == old.buffers@[j]
                &&& f(old.buffers@[i], self.buffers@[i])
            },
            None => self.buffers@ == old.buffers@,
        }
    }

    /// `self` is `old` with the current buffer's cursor set as `f` gives it.
    pub open spec fn moves_current(&self, old: BufferManager, f: spec_fn(Buffer) -> Cursor) -> bool {
        self.updates_current(old, |o: Buffer, n: Buffer| n == Buffer { cursor: f(o), ..o })
    }

    /// `self` is `old` with the buffer `step` places after the current one (in
    /// id order, wrapping around) made current.
    pub open spec fn cycled(&self, old: BufferManager, step: int) -> bool {
        &&& self.buffers == old.buffers
        &&& self.next_id == old.next_id
        &&& self.current_buffer_id == match old.current_index() {
            Some(i) => Some(old.buffers@[(i + step) % old.buffers.len() as int].id),
            None => old.current_buffer_id,
        }
    }

    /// A buffer made for `id` that holds `lines` and nothing to undo or redo.
    pub open spec fn fresh(b: Buffer, id: usize, lines: Seq<Seq<char>>) -> bool {
        &&& b.wf()
        &&& b.id == id
        &&& b.lines() == lines
        &&& b.cursor == Cursor::at(0, 0)
        &&& !b.modified
        &&& b.undo_stack.len() == 0
        &&& b.redo_stack.len() == 0
    }

    /// `self` is `old` with one buffer added with id `old.next_id`, current.
    pub open spec fn added(&self, old: BufferManager) -> bool {
        &&& self.wf()
        &&& self.next_id == old.next_id + 1
        &&& self.buffers.len() == old.buffers.len() + 1
        &&& self.buffers@.drop_last() == old.buffers@
        &&& self.current_buffer_id == Some(old.next_id)
    }

    proof fn lemma_current_index(&self)
        requires
            self.wf(),
        ensures
            self.current_index() matches Some(i) ==> 0 <= i < self.buffers.len()
                && self.buffers@[i].id == self.current_buffer_id->0,
            self.current_buffer_id is Some <==> self.current_index() is Some,
    {
        if let Some(id) = self.current_buffer_id {
            let bufs = self.buffers@;
            let i = choose|i: int| 0 <= i < bufs.len() && #[trigger] bufs[i].id == id;
        }
    }

    /// The index of the buffer with id `id`.
    fn find(&self, id: usize) -> (r: Option<usize>)
        requires
            ids_increasing(self.buffers@),
        ensures
            r matches Some(i) ==> index_of(self.buffers@, id) == Some(i as int),
            r is None ==> index_of(self.buffers@, id) is None,
    {
        let mut i: usize = 0;
        while i < self.buffers.len()
            invariant
                i <= self.buffers.len(),
                ids_increasing(self.buffers@),
                forall|j: int| 0 <= j < i ==> (#[trigger] self.buffers@[j]).id != id,
            decreases self.buffers.len() - i,
        {
            if self.buffers[i].id == id {
                proof {
                    lemma_index_of(self.buffers@, i as int);
                }
                return Some(i);
            }
            i += 1;
        }
        None
    }

    fn current_position(&self) -> (r: Option<usize>)
        requires
            self.wf(),
        ensures
            r matches Some(i) ==> self.current_index() == Some(i as int) && i < self.buffers.len(),
            r is None ==> self.current_index() is None,
    {
        proof {
            self.lemma_current_index();
        }
        match self.current_buffer_id {
            Some(id) => self.find(id),
            None => None,
        }
    }

    pub fn new() -> (r: BufferManager)
        ensures
            r.wf(),
            r.buffers.len() == 0,
            r.current_buffer_id is None,
            r.next_id == 1,
    {
        BufferManager { buffers: Vec::new(), current_buffer_id: None, next_id: 1 }
    }

    pub fn is_empty(&self) -> (r: bool)
        ensures
            r == (self.buffers.len() == 0),
    {
        self.buffers.len() == 0
    }

    /// Whether another buffer can be given a fresh id.
    pub fn has_free_id(&self) -> (r: bool)
        ensures
            r == (self.next_id < usize::MAX),
    {
        self.next_id < usize::MAX
    }

    proof fn lemma_push(old: BufferManager, new: BufferManager)
        requires
            old.wf(),
            new.buffers@ == old.buffers@.push(new.buffers@.last()),
            new.buffers@.last().wf(),
            new.buffers@.last().id == old.next_id,
            new.next_id == old.next_id + 1,
            new.current_buffer_id == Some(old.next_id),
        ensures
            new.wf(),
    {
        let n = new.buffers.len() - 1;
        assert(forall|i: int| 0 <= i < n ==> new.buffers@[i] == old.buffers@[i]);
        lemma_index_of(new.buffers@, n);
    }

    /// Opens a new empty buffer named `name` and makes it current.
    pub fn create_buffer(&mut self, name: String) -> (r: usize)
        requires
            old(self).wf(),
            old(self).next_id < usize::MAX,
        ensures
            r == old(self).next_id,
            final(self).added(*old(self)),
            BufferManager::fresh(final(self).buffers@.last(), r, seq![Seq::<char>::empty()]),
            final(self).buffers@.last().name == name,
            final(self).buffers@.last().path is None,
    {
        let id = self.next_id;
        self.next_id = self.next_id + 1;
        let buffer = Buffer::new(id, name);
        self.buffers.push(buffer);
        self.current_buffer_id = Some(id);
        proof {
            BufferManager::lemma_push(*old(self), *self);
            assert(self.buffers@.drop_last() =~= old(self).buffers@);
        }
        id
    }

    /// Opens a buffer for the file at `path`, whose text is `text` (`None` for a
    /// file that does not exist), and makes it current.
    pub fn open_file(&mut self, path: &str, text: Option<&str>) -> (r: usize)
        requires
            old(self).wf(),
            old(self).next_id < usize::MAX,
        ensures
            r == old(self).next_id,
            final(self).added(*old(self)),
            BufferManager::fresh(
                final(self).buffers@.last(),
                r,
                match text {
                    Some(t) => split_lines(t@),
                    None => seq![Seq::<char>::empty()],
                },
            ),
            final(self).buffers@.last().path matches Some(p) && p@ == path@,
            final(self).buffers@.last().name@ == name_for_path(path@),
    {
        let id = self.next_id;
        self.next_id = self.next_id + 1;
        let buffer = Buffer::from_file(id, path, text);
        self.buffers.push(buffer);
        self.current_buffer_id = Some(id);
        proof {
            BufferManager::lemma_push(*old(self), *self);
            assert(self.buffers@.drop_last() =~= old(self).buffers@);
        }
        id
    }

    pub fn current_buffer(&self) -> (r: Option<&Buffer>)
        requires
            self.wf(),
        ensures
            match self.current_index() {
                Some(i) => r matches Some(b) && *b == self.buffers@[i],
                None => r is None,
            },
    {
        match self.current_position() {
            Some(i) => Some(&self.buffers[i]),
            None => None,
        }
    }

    /// The current buffer, to change in place; the caller keeps it well formed.
    pub fn current_buffer_mut(&mut self) -> (r: Option<&mut Buffer>)
        requires
            old(self).wf(),
        ensures
            match old(self).current_index() {
                Some(i) => r matches Some(b) && *b == old(self).buffers@[i] && final(self).buffers@
                    == old(self).buffers@.update(i, *final(b)),
                None => r is None && final(self).buffers@ == old(self).buffers@,
            },
            final(self).current_buffer_id == old(self).current_buffer_id,
            final(self).next_id == old(self).next_id,
    {
        match self.current_position() {
            Some(i) => Some(&mut self.buffers[i]),
            None => None,
        }
    }

    /// Renaming the current file is not offered: the manager is left as it is.
    pub fn rename_current_file(&mut self) -> (r: Result<(), EditorError>)
        requires
            old(self).wf(),
        ensures
            r is Ok,
            *final(self) == *old(self),
    {
        Ok(())
    }

    /// Leaves the manager as it is: a saved session is restored by the caller,
    /// through `open_file`, `switch_buffer` and the cursors of the buffers.
    pub fn resume_session(&mut self) -> (r: Result<(), EditorError>)
        requires
            old(self).wf(),
        ensures
            r is Ok,
            *final(self) == *old(self),
    {
        Ok(())
    }

    /// Makes the buffer with id `id` current, if it is open.
    pub fn switch_buffer(&mut self, id: usize) -> (r: bool)
        requires
            old(self).wf(),
        ensures
            final(self).wf(),
            r == (index_of(old(self).buffers@, id) is Some),
            final(self).current_buffer_id == if r {
                Some(id)
            } else {
                old(self).current_buffer_id
            },
            final(self).buffers == old(self).buffers,
            final(self).next_id == old(self).next_id,
    {
        match self.find(id) {
            Some(_) => {
                self.current_buffer_id = Some(id);
                true
            },
            None => false,
        }
    }

    /// Closes the buffer with id `id`, unless it holds unsaved changes. Where it
    /// was current, the first remaining buffer becomes current.
    pub fn close_buffer(&mut self, id: usize) -> (r: Result<(), EditorError>)
        requires
            old(self).wf(),
        ensures
            final(self).wf(),
            final(self).next_id == old(self).next_id,
            match index_of(old(self).buffers@, id) {
                Some(i) => if old(self).buffers@[i].modified {
                    &&& r == Err::<(), EditorError>(EditorError::UnsavedChanges)
                    &&& final(self).buffers == old(self).buffers
                    &&& final(self).current_buffer_id == old(self).current_buffer_id
                } else {
                    &&& r is Ok
                    &&& final(self).buffers@ == old(self).buffers@.remove(i)
                    &&& final(self).current_buffer_id == if old(self).current_buffer_id == Some(id) {
                        if final(self).buffers.len() > 0 {
                            Some(final(self).buffers@[0].id)
                        } else {
                            None
                        }
                    } else {
                        old(self).current_buffer_id
                    }
                },
                None => {
                    &&& r is Ok
                    &&& final(self).buffers == old(self).buffers
                    &&& final(self).current_buffer_id == old(self).current_buffer_id
                },
            },
    {
        match self.find(id) {
            Some(i) => {
                if self.buffers[i].modified {
                    return Err(EditorError::UnsavedChanges);
                }
                self.buffers.remove(i);
                let ghost bufs = self.buffers@;
                assert(ids_increasing(bufs)) by {
                    assert forall|a: int, b: int| 0 <= a < b < bufs.len() implies bufs[a].id
                        < bufs[b].id by {
                        let oa = if a < i { a } else { a + 1 };
                        let ob = if b < i { b } else { b + 1 };
                        assert(bufs[a] == old(self).buffers@[oa]);
                        assert(bufs[b] == old(self).buffers@[ob]);
                    }
                }
                assert(forall|a: int| 0 <= a < bufs.len() ==> #[trigger] bufs[a] == old(self).buffers@[if a < i { a } else { a + 1 }]);
                if self.current_buffer_id == Some(id) {
                    if self.buffers.len() > 0 {
                        self.current_buffer_id = Some(self.buffers[0].id);
                        proof {
                            lemma_index_of(bufs, 0);
                        }
                    } else {
                        self.current_buffer_id = None;
                    }
                } else {
                    proof {
                        if let Some(cid) = self.current_buffer_id {
                            let k = index_of(old(self).buffers@, cid)->0;
                            old(self).lemma_current_index();
                            assert(k != i);
                            let nk = if k < i { k } else { k - 1 };
                            assert(bufs[nk] == old(self).buffers@[k]);
                            lemma_index_of(bufs, nk);
                        }
                    }
                }
                Ok(())
            },
            None => {
                proof {
                    if self.current_buffer_id == Some(id) {
                        old(self).lemma_current_index();
                    }
                }
                Ok(())
            },
        }
    }

    /// The open buffers, ordered by id.
    pub fn list_buffers(&self) -> (r: Vec<&Buffer>)
        ensures
            r.len() == self.buffers.len(),
            forall|i: int| 0 <= i < r.len() ==> *r@[i] == self.buffers@[i],
    {
        let mut r: Vec<&Buffer> = Vec::new();
        let mut i: usize = 0;
        while i < self.buffers.len()
            invariant
                i <= self.buffers.len(),
                r.len() == i,
                forall|j: int| 0 <= j < i ==> *r@[j] == self.buffers@[j],
            decreases self.buffers.len() - i,
        {
            r.push(&self.buffers[i]);
            i += 1;
        }
        r
    }

    /// Makes the buffer after the current one current, the first after the last.
    pub fn next_buffer(&mut self)
        requires
            old(self).wf(),
        ensures
            final(self).wf(),
            final(self).buffers == old(self).buffers,
            final(self).next_id == old(self).next_id,
            final(self).cycled(*old(self), 1),
    {
        if let Some(i) = self.current_position() {
            let n = self.buffers.len();
            let j = if i + 1 < n {
                i + 1
            } else {
                0
            };
            assert(j as int == (i + 1) % n as int) by {
                if i + 1 < n {
                    lemma_small_mod((i + 1) as nat, n as nat);
                } else {
                    lemma_mod_self_0(n as int);
                }
            }
            self.current_buffer_id = Some(self.buffers[j].id);
            proof {
                lemma_index_of(self.buffers@, j as int);
            }
        }
    }

    /// Makes the buffer before the current one current, the last before the first.
    pub fn previous_buffer(&mut self)
        requires
            old(self).wf(),
        ensures
            final(self).wf(),
            final(self).buffers == old(self).buffers,
            final(self).next_id == old(self).next_id,
            final(self).cycled(*old(self), old(self).buffers.len() - 1),
    {
        if let Some(i) = self.current_position() {
            let n = self.buffers.len();
            let j = if i > 0 {
                i - 1
            } else {
                n - 1
            };
            assert(j as int == (i + n - 1) % n as int) by {
                if i > 0 {
                    lemma_mod_add_multiples_vanish((i - 1) as int, n as int);
                    lemma_small_mod((i - 1) as nat, n as nat);
                } else {
                    lemma_small_mod((n - 1) as nat, n as nat);
                }
            }
            self.current_buffer_id = Some(self.buffers[j].id);
            proof {
                lemma_index_of(self.buffers@, j as int);
            }
        }
    }

    /// Moves the current buffer's cursor to the next match of `pattern`, after
    /// the cursor when `forward`, before it otherwise, wrapping around the
    /// buffer; it stays where it is when there is none.
    pub fn jump_to_match(&mut self, pattern: &str, forward: bool)
        requires
            old(self).wf(),
        ensures
            final(self).wf(),
            final(self).moves_current(
                *old(self),
                |b: Buffer| search_cursor(b.cursor, b.lines(), pattern@, forward),
            ),
    {
        if let Some(i) = self.current_position() {
            let pat = chars_of(pattern);
            let b = &mut self.buffers[i];
            let row = b.cursor.position.row;
            let col = b.cursor.position.col;
            let found = if forward {
                find_forward(&b.content, &pat, row, col)
            } else {
                find_backward(&b.content, &pat, row, col)
            };
            proof {
                lemma_search_within(b.lines(), pat@, row as int, col as int);
            }
            if let Some((r, c)) = found {
                b.cursor.move_to_position(Position { row: r, col: c });
            }
            proof {
                BufferManager::lemma_updated(*old(self), *self, i as int);
            }
        }
    }

    proof fn lemma_updated(old: BufferManager, new: BufferManager, i: int)
        requires
            old.wf(),
            old.current_index() == Some(i),
            0 <= i < old.buffers.len(),
            new.buffers@ == old.buffers@.update(i, new.buffers@[i]),
            new.buffers@[i].wf(),
            new.buffers@[i].id == old.buffers@[i].id,
            new.current_buffer_id == old.current_buffer_id,
            new.next_id == old.next_id,
        ensures
            new.wf(),
            new.current_index() == Some(i),
            forall|j: int| 0 <= j < new.buffers.len() && j != i ==> new.buffers@[j] == old.buffers@[j],
    {
        old.lemma_current_index();
        assert(forall|j: int| 0 <= j < new.buffers.len() ==> #[trigger] new.buffers@[j].id == old.buffers@[j].id);
        lemma_index_of(new.buffers@, i);
    }

    /// Moves to column 0 of the current buffer's line.
    pub fn move_to_line_start(&mut self)
        requires
            old(self).wf(),
        ensures
            final(self).wf(),
            final(self).moves_current(*old(self), |b: Buffer| Cursor::at(b.row(), 0)),
    {
        if let Some(i) = self.current_position() {
            let b = &mut self.buffers[i];
            b.cursor.move_to_column(0);
            proof {
                BufferManager::lemma_updated(*old(self), *self, i as int);
            }
        }
    }

    /// Moves past the last character of the current buffer's line.
    pub fn move_to_line_end(&mut self)
        requires
            old(self).wf(),
        ensures
            final(self).wf(),
            final(self).moves_current(
                *old(self),
                |b: Buffer| Cursor::at(b.row(), b.lines()[b.row()].len() as int),
            ),
    {
        if let Some(i) = self.current_position() {
            let b = &mut self.buffers[i];
            let n = char_count(b.content[b.cursor.position.row].as_str());
            b.cursor.move_to_column(n);
            proof {
                BufferManager::lemma_updated(*old(self), *self, i as int);
            }
        }
    }

    /// Moves to the first character of the current buffer.
    pub fn move_to_file_start(&mut self)
        requires
            old(self).wf(),
        ensures
            final(self).wf(),
            final(self).moves_current(*old(self), |b: Buffer| Cursor::at(0, 0)),
    {
        if let Some(i) = self.current_position() {
            let b = &mut self.buffers[i];
            b.cursor.move_to_position(Position { row: 0, col: 0 });
            proof {
                BufferManager::lemma_updated(*old(self), *self, i as int);
            }
        }
    }

    /// Moves past the last character of the current buffer's last line.
    pub fn move_to_file_end(&mut self)
        requires
            old(self).wf(),
        ensures
            final(self).wf(),
            final(self).moves_current(
                *old(self),
                |b: Buffer| Cursor::at(b.lines().len() - 1, b.lines().last().len() as int),
            ),
    {
        if let Some(i) = self.current_position() {
            let b = &mut self.buffers[i];
            let last_row = b.content.len() - 1;
            let last_col = char_count(b.content[last_row].as_str());
            b.cursor.move_to_position(Position { row: last_row, col: last_col });
            proof {
                BufferManager::lemma_updated(*old(self), *self, i as int);
            }
        }
    }

    /// What saving the current buffer writes: `NoCurrentBuffer` without one,
    /// `NoFilePath` where it has no path.
    pub fn save_current(&self) -> (r: Result<SaveRequest, EditorError>)
        requires
            self.wf(),
        ensures
            match self.current_index() {
                None => r == Err::<SaveRequest, EditorError>(EditorError::NoCurrentBuffer),
                Some(i) => match self.buffers@[i].path {
                    None => r == Err::<SaveRequest, EditorError>(EditorError::NoFilePath),
                    Some(p) => r matches Ok(q) && q.id == self.buffers@[i].id && q.path@ == p@
                        && q.text@ == join_lines(self.buffers@[i].lines()),
                },
            },
    {
        match self.current_position() {
            None => Err(EditorError::NoCurrentBuffer),
            Some(i) => {
                let b = &self.buffers[i];
                match b.save_target() {
                    Ok(path) => Ok(SaveRequest { id: b.id, path, text: b.text() }),
                    Err(e) => Err(e),
                }
            },
        }
    }

    /// What saving the current buffer under `path` writes, or `NoCurrentBuffer`.
    pub fn save_current_as(&self, path: &str) -> (r: Result<SaveRequest, EditorError>)
        requires
            self.wf(),
        ensures
            match self.current_index() {
                None => r == Err::<SaveRequest, EditorError>(EditorError::NoCurrentBuffer),
                Some(i) => r matches Ok(q) && q.id == self.buffers@[i].id && q.path@ == path@
                    && q.text@ == join_lines(self.buffers@[i].lines()),
            },
    {
        match self.current_position() {
            None => Err(EditorError::NoCurrentBuffer),
            Some(i) => {
                let b = &self.buffers[i];
                Ok(SaveRequest { id: b.id, path: String::from_str(path), text: b.text() })
            },
        }
    }

    /// Records that buffer `id` was written to `path`: it adopts the path and is
    /// no longer modified. Nothing changes where no buffer has that id.
    pub fn mark_saved(&mut self, id: usize, path: String)
        requires
            old(self).wf(),
        ensures
            final(self).wf(),
            final(self).current_buffer_id == old(self).current_buffer_id,
            final(self).next_id == old(self).next_id,
            final(self).buffers.len() == old(self).buffers.len(),
            match index_of(old(self).buffers@, id) {
                None => final(self).buffers@ == old(self).buffers@,
                Some(i) => {
                    &&& forall|j: int|
                        0 <= j < final(self).buffers.len() && j != i ==> final(self).buffers@[j]
                            == old(self).buffers@[j]
                    &&& final(self).buffers@[i] == Buffer {
                        path: Some(path),
                        modified: false,
                        ..old(self).buffers@[i]
                    }
                },
            },
    {
        if let Some(i) = self.find(id) {
            let b = &mut self.buffers[i];
            b.mark_saved(path);
            proof {
                let new = *self;
                assert(forall|j: int| 0 <= j < new.buffers.len() ==> #[trigger] new.buffers@[j].id == old(self).buffers@[j].id);
                if let Some(cid) = new.current_buffer_id {
                    let k = index_of(old(self).buffers@, cid)->0;
                    old(self).lemma_current_index();
                    lemma_index_of(new.buffers@, k);
                }
            }
        }
    }

    /// One character left in the current buffer.
    pub fn move_cursor_left(&mut self)
        requires
            old(self).wf(),
        ensures
            final(self).wf(),
            final(self).moves_current(*old(self), |b: Buffer| b.cursor.left_in(b.lines())),
    {
        if let Some(i) = self.current_position() {
            let b = &mut self.buffers[i];
            proof {
                lemma_motions_within(b.cursor, b.lines());
            }
            b.cursor.move_left(&b.content);
            proof {
                BufferManager::lemma_updated(*old(self), *self, i as int);
            }
        }
    }

    /// One character right in the current buffer.
    pub fn move_cursor_right(&mut self)
        requires
            old(self).wf(),
        ensures
            final(self).wf(),
            final(self).moves_current(*old(self), |b: Buffer| b.cursor.right_in(b.lines())),
    {
        if let Some(i) = self.current_position() {
            let b = &mut self.buffers[i];
            proof {
                lemma_motions_within(b.cursor, b.lines());
            }
            b.cursor.move_right(&b.content);
            proof {
                BufferManager::lemma_updated(*old(self), *self, i as int);
            }
        }
    }

    /// One line up in the current buffer.
    pub fn move_cursor_up(&mut self)
        requires
            old(self).wf(),
        ensures
            final(self).wf(),
            final(self).moves_current(*old(self), |b: Buffer| b.cursor.up_in(b.lines())),
    {
        if let Some(i) = self.current_position() {
            let b = &mut self.buffers[i];
            proof {
                lemma_motions_within(b.cursor, b.lines());
            }
            b.cursor.move_up(&b.content);
            proof {
                BufferManager::lemma_updated(*old(self), *self, i as int);
            }
        }
    }

    /// One line down in the current buffer.
    pub fn move_cursor_down(&mut self)
        requires
            old(self).wf(),
        ensures
            final(self).wf(),
            final(self).moves_current(*old(self), |b: Buffer| b.cursor.down_in(b.lines())),
    {
        if let Some(i) = self.current_position() {
            let b = &mut self.buffers[i];
            proof {
                lemma_motions_within(b.cursor, b.lines());
            }
            b.cursor.move_down(&b.content);
            proof {
                BufferManager::lemma_updated(*old(self), *self, i as int);
            }
        }
    }

    /// To the start of the next word in the current buffer.
    pub fn move_word_forward(&mut self)
        requires
            old(self).wf(),
        ensures
            final(self).wf(),
            final(self).moves_current(*old(self), |b: Buffer| b.cursor.word_forward_in(b.lines(), false)),
    {
        if let Some(i) = self.current_position() {
            let b = &mut self.buffers[i];
            proof {
                lemma_motions_within(b.cursor, b.lines());
            }
            b.cursor.move_word_forward(&b.content);
            proof {
                BufferManager::lemma_updated(*old(self), *self, i as int);
            }
        }
    }

    /// To the start of the previous word in the current buffer.
    pub fn move_word_backward(&mut self)
        requires
            old(self).wf(),
        ensures
            final(self).wf(),
            final(self).moves_current(*old(self), |b: Buffer| b.cursor.word_backward_in(b.lines(), false)),
    {
        if let Some(i) = self.current_position() {
            let b = &mut self.buffers[i];
            proof {
                lemma_motions_within(b.cursor, b.lines());
            }
            b.cursor.move_word_backward(&b.content);
            proof {
                BufferManager::lemma_updated(*old(self), *self, i as int);
            }
        }
    }

    /// To the start of the next blank-separated word in the current buffer.
    pub fn move_word_forward_whitespace(&mut self)
        requires
            old(self).wf(),
        ensures
            final(self).wf(),
            final(self).moves_current(*old(self), |b: Buffer| b.cursor.word_forward_in(b.lines(), true)),
    {
        if let Some(i) = self.current_position() {
            let b = &mut self.buffers[i];
            proof {
                lemma_motions_within(b.cursor, b.lines());
            }
            b.cursor.move_word_forward_whitespace(&b.content);
            proof {
                BufferManager::lemma_updated(*old(self), *self, i as int);
            }
        }
    }

    /// To the start of the previous blank-separated word in the current buffer.
    pub fn move_word_backward_whitespace(&mut self)
        requires
            old(self).wf(),
        ensures
            final(self).wf(),
            final(self).moves_current(*old(self), |b: Buffer| b.cursor.word_backward_in(b.lines(), true)),
    {
        if let Some(i) = self.current_position() {
            let b = &mut self.buffers[i];
            proof {
                lemma_motions_within(b.cursor, b.lines());
            }
            b.cursor.move_word_backward_whitespace(&b.content);
            proof {
                BufferManager::lemma_updated(*old(self), *self, i as int);
            }
        }
    }

    /// Onto the end of the current or next word in the current buffer.
    pub fn move_to_end_of_word(&mut self)
        requires
            old(self).wf(),
        ensures
            final(self).wf(),
            final(self).moves_current(*old(self), |b: Buffer| b.cursor.word_end_in(b.lines())),
    {
        if let Some(i) = self.current_position() {
            let b = &mut self.buffers[i];
            proof {
                lemma_motions_within(b.cursor, b.lines());
            }
            b.cursor.move_to_end_of_word(&b.content);
            proof {
                BufferManager::lemma_updated(*old(self), *self, i as int);
            }
        }
    }

    /// Inserts `ch` at the cursor of the current buffer.
    pub fn insert_char(&mut self, ch: char)
        requires
            old(self).wf(),
        ensures
            final(self).wf(),
            final(self).updates_current(*old(self), |o: Buffer, n: Buffer| Buffer::insert_char_post(o, n, ch)),
    {
        if let Some(i) = self.current_position() {
            let b = &mut self.buffers[i];
            b.insert_char(ch);
            proof {
                BufferManager::lemma_updated(*old(self), *self, i as int);
            }
        }
    }

    /// Splits the current buffer's line at the cursor.
    pub fn insert_newline(&mut self)
        requires
            old(self).wf(),
        ensures
            final(self).wf(),
            final(self).updates_current(*old(self), |o: Buffer, n: Buffer| Buffer::insert_newline_post(o, n)),
    {
        if let Some(i) = self.current_position() {
            let b = &mut self.buffers[i];
            b.insert_newline();
            proof {
                BufferManager::lemma_updated(*old(self), *self, i as int);
            }
        }
    }

    /// Inserts a tab character at the cursor of the current buffer.
    pub fn insert_tab(&mut self)
        requires
            old(self).wf(),
        ensures
            final(self).wf(),
            final(self).updates_current(*old(self), |o: Buffer, n: Buffer| Buffer::insert_char_post(o, n, '\t')),
    {
        if let Some(i) = self.current_position() {
            let b = &mut self.buffers[i];
            b.insert_char('\t');
            proof {
                BufferManager::lemma_updated(*old(self), *self, i as int);
            }
        }
    }

    /// Deletes left of the cursor in the current buffer.
    pub fn backspace(&mut self)
        requires
            old(self).wf(),
        ensures
            final(self).wf(),
            final(self).updates_current(*old(self), |o: Buffer, n: Buffer| Buffer::backspace_post(o, n)),
    {
        if let Some(i) = self.current_position() {
            let b = &mut self.buffers[i];
            b.backspace();
            proof {
                BufferManager::lemma_updated(*old(self), *self, i as int);
            }
        }
    }

    /// Deletes under the cursor in the current buffer.
    pub fn delete_char(&mut self)
        requires
            old(self).wf(),
        ensures
            final(self).wf(),
            final(self).updates_current(*old(self), |o: Buffer, n: Buffer| Buffer::delete_char_post(o, n)),
    {
        if let Some(i) = self.current_position() {
            let b = &mut self.buffers[i];
            b.delete_char();
            proof {
                BufferManager::lemma_updated(*old(self), *self, i as int);
            }
        }
    }

    /// Deletes the cursor's line in the current buffer.
    pub fn delete_line(&mut self)
        requires
            old(self).wf(),
        ensures
            final(self).wf(),
            final(self).updates_current(*old(self), |o: Buffer, n: Buffer| Buffer::delete_line_post(o, n)),
    {
        if let Some(i) = self.current_position() {
            let b = &mut self.buffers[i];
            b.delete_line();
            proof {
                BufferManager::lemma_updated(*old(self), *self, i as int);
            }
        }
    }

    /// Opens a blank line below the cursor in the current buffer.
    pub fn insert_line_below(&mut self)
        requires
            old(self).wf(),
        ensures
            final(self).wf(),
            final(self).updates_current(*old(self), |o: Buffer, n: Buffer| Buffer::insert_line_below_post(o, n)),
    {
        if let Some(i) = self.current_position() {
            let b = &mut self.buffers[i];
            b.insert_line_below();
            proof {
                BufferManager::lemma_updated(*old(self), *self, i as int);
            }
        }
    }

    /// Opens a blank line above the cursor in the current buffer.
    pub fn insert_line_above(&mut self)
        requires
            old(self).wf(),
        ensures
            final(self).wf(),
            final(self).updates_current(*old(self), |o: Buffer, n: Buffer| Buffer::insert_line_above_post(o, n)),
    {
        if let Some(i) = self.current_position() {
            let b = &mut self.buffers[i];
            b.insert_line_above();
            proof {
                BufferManager::lemma_updated(*old(self), *self, i as int);
            }
        }
    }

    /// Undoes the last edit of the current buffer.
    pub fn undo(&mut self)
        requires
            old(self).wf(),
        ensures
            final(self).wf(),
            final(self).updates_current(*old(self), |o: Buffer, n: Buffer| Buffer::undo_post(o, n)),
    {
        if let Some(i) = self.current_position() {
            let b = &mut self.buffers[i];
            b.undo();
            proof {
                BufferManager::lemma_updated(*old(self), *self, i as int);
            }
        }
    }

    /// Redoes the last undone edit of the current buffer.
    pub fn redo(&mut self)
        requires
            old(self).wf(),
        ensures
            final(self).wf(),
            final(self).updates_current(*old(self), |o: Buffer, n: Buffer| Buffer::redo_post(o, n)),
    {
        if let Some(i) = self.current_position() {
            let b = &mut self.buffers[i];
            b.redo();
            proof {
                BufferManager::lemma_updated(*old(self), *self, i as int);
            }
        }
    }
}

} // verus!
