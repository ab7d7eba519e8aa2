//! Cursor positions and the motions that move them over a buffer's lines.
use vstd::prelude::*;

use crate::text::{CharClass, char_count, chars_of, classes, classes_of, lines_view};

verus! {

/// A place in a buffer: a row and a column counted in characters.
#[derive(Clone, Copy, Debug, PartialEq, Eq, Structural)]
pub struct Position {
    pub row: usize,
    pub col: usize,
}

/// A position, and the column that vertical motion tries to return to.
#[derive(Clone, Copy, Debug)]
pub struct Cursor {
    pub position: Position,
    pub desired_col: usize,
}

/// The smaller of two integers.
pub open spec fn min_int(a: int, b: int) -> int {
    if a <= b {
        a
    } else {
        b
    }
}

/// The length of line `row`, or 0 where there is no such line.
pub open spec fn line_len(lines: Seq<Seq<char>>, row: int) -> int {
    if 0 <= row < lines.len() {
        lines[row].len() as int
    } else {
        0
    }
}

/// The column that `desired` comes to on line `row`.
pub open spec fn clamped_col(lines: Seq<Seq<char>>, row: int, desired: int) -> int {
    if 0 <= row < lines.len() {
        min_int(desired, lines[row].len() as int)
    } else {
        0
    }
}

/// The first index from `p` on whose class is not `k` (or the length).
pub open spec fn skip_forward(cls: Seq<CharClass>, p: int, k: CharClass) -> int
    decreases cls.len() - p,
{
    if 0 <= p < cls.len() && cls[p] == k {
        skip_forward(cls, p + 1, k)
    } else {
        p
    }
}

/// The first index from `p` on whose class is `k` (or the length).
pub open spec fn skip_to(cls: Seq<CharClass>, p: int, k: CharClass) -> int
    decreases cls.len() - p,
{
    if 0 <= p < cls.len() && cls[p] != k {
        skip_to(cls, p + 1, k)
    } else {
        p
    }
}

/// Steps back from `p` while the class at `p` is `k`, stopping at 0.
pub open spec fn skip_backward(cls: Seq<CharClass>, p: int, k: CharClass) -> int
    decreases p,
{
    if 0 < p < cls.len() && cls[p] == k {
        skip_backward(cls, p - 1, k)
    } else {
        p
    }
}

/// Steps back from `p` while the class just before `p` is `k`.
pub open spec fn run_start(cls: Seq<CharClass>, p: int, k: CharClass) -> int
    decreases p,
{
    if 0 < p <= cls.len() && cls[p - 1] == k {
        run_start(cls, p - 1, k)
    } else {
        p
    }
}

/// Where a forward word motion from `col` lands on its line: past the run under
/// the cursor, then past whitespace (the line's length where nothing follows).
pub open spec fn word_forward_col(cls: Seq<CharClass>, col: int) -> int {
    let p = if cls[col] != CharClass::Space {
        skip_forward(cls, col, cls[col])
    } else {
        col
    };
    skip_forward(cls, p, CharClass::Space)
}

/// Where a backward word motion from `col` lands: back over whitespace, then to
/// the start of the run found there.
pub open spec fn word_backward_col(cls: Seq<CharClass>, col: int) -> int {
    let p = skip_backward(cls, col - 1, CharClass::Space);
    if 0 <= p < cls.len() && cls[p] != CharClass::Space {
        run_start(cls, p, cls[p])
    } else {
        p
    }
}

/// Where an end-of-word motion from `col` lands: past the word under the
/// cursor, past what is not a word, to the last character of the next word.
pub open spec fn word_end_col(cls: Seq<CharClass>, col: int) -> int {
    let past_here = if 0 <= col < cls.len() && cls[col] == CharClass::Word {
        skip_forward(cls, col, CharClass::Word)
    } else {
        col
    };
    let word_start = skip_to(cls, past_here, CharClass::Word);
    let past_word = skip_forward(cls, word_start, CharClass::Word);
    let on_last = if past_word > 0 {
        past_word - 1
    } else {
        past_word
    };
    min_int(on_last, cls.len() - 1)
}

/// Moves past the run of class `k` that starts at `from`.
pub fn skip_run(cls: &Vec<CharClass>, from: usize, k: CharClass) -> (r: usize)
    requires
        from <= cls.len(),
    ensures
        r == skip_forward(cls@, from as int, k),
        from <= r <= cls.len(),
{
    let mut p = from;
    while p < cls.len() && cls[p] == k
        invariant
            from <= p <= cls.len(),
            skip_forward(cls@, p as int, k) == skip_forward(cls@, from as int, k),
        decreases cls.len() - p,
    {
        p += 1;
    }
    p
}

/// Moves from `from` to the next character of class `k`.
pub fn skip_until(cls: &Vec<CharClass>, from: usize, k: CharClass) -> (r: usize)
    requires
        from <= cls.len(),
    ensures
        r == skip_to(cls@, from as int, k),
        from <= r <= cls.len(),
{
    let mut p = from;
    while p < cls.len() && cls[p] != k
        invariant
            from <= p <= cls.len(),
            skip_to(cls@, p as int, k) == skip_to(cls@, from as int, k),
        decreases cls.len() - p,
    {
        p += 1;
    }
    p
}

/// Steps back from `from` while the class there is `k`.
pub fn skip_back(cls: &Vec<CharClass>, from: usize, k: CharClass) -> (r: usize)
    ensures
        r == skip_backward(cls@, from as int, k),
        r <= from,
{
    let mut p = from;
    while p > 0 && p < cls.len() && cls[p] == k
        invariant
            p <= from,
            skip_backward(cls@, p as int, k) == skip_backward(cls@, from as int, k),
        decreases p,
    {
        p -= 1;
    }
    p
}

/// Steps back from `from` to the start of the run of class `k` that ends there.
pub fn back_to_run_start(cls: &Vec<CharClass>, from: usize, k: CharClass) -> (r: usize)
    ensures
        r == run_start(cls@, from as int, k),
        r <= from,
{
    let mut p = from;
    while p > 0 && p <= cls.len() && cls[p - 1] == k
        invariant
            p <= from,
            run_start(cls@, p as int, k) == run_start(cls@, from as int, k),
        decreases p,
    {
        p -= 1;
    }
    p
}

/// The column that a forward word motion reaches on a line of classes `cls`.
pub fn word_forward_target(cls: &Vec<CharClass>, col: usize) -> (r: usize)
    requires
        col < cls.len(),
    ensures
        r == word_forward_col(cls@, col as int),
        r <= cls.len(),
{
    let here = cls[col];
    let p = if here != CharClass::Space {
        skip_run(cls, col, here)
    } else {
        col
    };
    skip_run(cls, p, CharClass::Space)
}

/// The column that a backward word motion from `col` reaches.
pub fn word_backward_target(cls: &Vec<CharClass>, col: usize) -> (r: usize)
    requires
        col > 0,
    ensures
        r == word_backward_col(cls@, col as int),
        r < col,
{
    let p = skip_back(cls, col - 1, CharClass::Space);
    if p < cls.len() && cls[p] != CharClass::Space {
        back_to_run_start(cls, p, cls[p])
    } else {
        p
    }
}

/// The column that an end-of-word motion from `col` reaches.
pub fn word_end_target(cls: &Vec<CharClass>, col: usize) -> (r: usize)
    requires
        cls.len() > 0,
    ensures
        r == word_end_col(cls@, col as int),
        r < cls.len(),
{
    let past_here = if col < cls.len() && cls[col] == CharClass::Word {
        skip_run(cls, col, CharClass::Word)
    } else {
        col
    };
    let word_start = if past_here < cls.len() {
        skip_until(cls, past_here, CharClass::Word)
    } else {
        past_here
    };
    let past_word = if word_start < cls.len() {
        skip_run(cls, word_start, CharClass::Word)
    } else {
        word_start
    };
    let on_last = if past_word > 0 {
        past_word - 1
    } else {
        past_word
    };
    if on_last < cls.len() - 1 {
        on_last
    } else {
        cls.len() - 1
    }
}

proof fn lemma_skip_bounds(cls: Seq<CharClass>, p: int, k: CharClass)
    requires
        0 <= p <= cls.len(),
    ensures
        p <= skip_forward(cls, p, k) <= cls.len(),
        p <= skip_to(cls, p, k) <= cls.len(),
    decreases cls.len() - p,
{
    if p < cls.len() {
        lemma_skip_bounds(cls, p + 1, k);
    }
}

proof fn lemma_back_bounds(cls: Seq<CharClass>, p: int, k: CharClass)
    requires
        0 <= p,
    ensures
        0 <= skip_backward(cls, p, k) <= p,
        0 <= run_start(cls, p, k) <= p,
    decreases p,
{
    if p > 0 {
        lemma_back_bounds(cls, p - 1, k);
    }
}

/// Every motion keeps a cursor that lies within the lines within them.
pub proof fn lemma_motions_within(c: Cursor, lines: Seq<Seq<char>>)
    requires
        c.within(lines),
        lines.len() <= usize::MAX,
    ensures
        c.left_in(lines).within(lines),
        c.right_in(lines).within(lines),
        c.up_in(lines).within(lines),
        c.down_in(lines).within(lines),
        c.word_forward_in(lines, false).within(lines),
        c.word_forward_in(lines, true).within(lines),
        c.word_backward_in(lines, false).within(lines),
        c.word_backward_in(lines, true).within(lines),
        c.word_end_in(lines).within(lines),
{
    let line = lines[c.row()];
    assert forall|big: bool| #[trigger] c.word_forward_in(lines, big).within(lines) by {
        let cls = classes(line, big);
        if c.col() < cls.len() {
            lemma_skip_bounds(cls, c.col(), cls[c.col()]);
            let p = if cls[c.col()] != CharClass::Space {
                skip_forward(cls, c.col(), cls[c.col()])
            } else {
                c.col()
            };
            lemma_skip_bounds(cls, p, CharClass::Space);
        }
    }
    assert forall|big: bool| #[trigger] c.word_backward_in(lines, big).within(lines) by {
        let cls = classes(line, big);
        if c.col() > 0 {
            lemma_back_bounds(cls, c.col() - 1, CharClass::Space);
            let p = skip_backward(cls, c.col() - 1, CharClass::Space);
            if 0 <= p < cls.len() {
                lemma_back_bounds(cls, p, cls[p]);
            }
        }
    }
    if line.len() > 0 {
        let cls = classes(line, false);
        let col = c.col();
        if 0 <= col < cls.len() {
            lemma_skip_bounds(cls, col, CharClass::Word);
        }
        let past_here = if 0 <= col < cls.len() && cls[col] == CharClass::Word {
            skip_forward(cls, col, CharClass::Word)
        } else {
            col
        };
        lemma_skip_bounds(cls, past_here, CharClass::Word);
        let word_start = skip_to(cls, past_here, CharClass::Word);
        lemma_skip_bounds(cls, word_start, CharClass::Word);
    }
}

impl Cursor {
    /// The cursor's row.
    pub open spec fn row(self) -> int {
        self.position.row as int
    }

    /// The cursor's column.
    pub open spec fn col(self) -> int {
        self.position.col as int
    }

    /// The cursor at `(row, col)`, remembering `col`.
    pub open spec fn at(row: int, col: int) -> Cursor {
        Cursor { position: Position { row: row as usize, col: col as usize }, desired_col: col as usize }
    }

    /// The cursor lies within `lines`.
    pub open spec fn within(self, lines: Seq<Seq<char>>) -> bool {
        self.row() < lines.len() && self.col() <= lines[self.row()].len()
    }

    /// One character left; from column 0, the end of the line above.
    pub open spec fn left_in(self, lines: Seq<Seq<char>>) -> Cursor {
        if self.col() > 0 {
            Cursor::at(self.row(), self.col() - 1)
        } else if self.row() > 0 {
            Cursor::at(self.row() - 1, line_len(lines, self.row() - 1))
        } else {
            self
        }
    }

    /// One character right; from the end of a line, the start of the next.
    pub open spec fn right_in(self, lines: Seq<Seq<char>>) -> Cursor {
        if self.row() < lines.len() {
            if self.col() < lines[self.row()].len() {
                Cursor::at(self.row(), self.col() + 1)
            } else if self.row() + 1 < lines.len() {
                Cursor::at(self.row() + 1, 0)
            } else {
                self
            }
        } else {
            self
        }
    }

    /// One line up, at the remembered column or the shorter line's end.
    pub open spec fn up_in(self, lines: Seq<Seq<char>>) -> Cursor {
        if self.row() > 0 {
            Cursor {
                position: Position {
                    row: (self.row() - 1) as usize,
                    col: clamped_col(lines, self.row() - 1, self.desired_col as int) as usize,
                },
                desired_col: self.desired_col,
            }
        } else {
            self
        }
    }

    /// One line down, at the remembered column or the shorter line's end.
    pub open spec fn down_in(self, lines: Seq<Seq<char>>) -> Cursor {
        if self.row() + 1 < lines.len() {
            Cursor {
                position: Position {
                    row: (self.row() + 1) as usize,
                    col: clamped_col(lines, self.row() + 1, self.desired_col as int) as usize,
                },
                desired_col: self.desired_col,
            }
        } else {
            self
        }
    }

    /// Forward word motion; `big` treats every non-whitespace character alike.
    pub open spec fn word_forward_in(self, lines: Seq<Seq<char>>, big: bool) -> Cursor {
        if self.row() >= lines.len() {
            self
        } else {
            let cls = classes(lines[self.row()], big);
            let t = if self.col() < cls.len() {
                word_forward_col(cls, self.col())
            } else {
                cls.len() as int
            };
            if t < cls.len() {
                Cursor::at(self.row(), t)
            } else if self.row() + 1 < lines.len() {
                Cursor::at(self.row() + 1, 0)
            } else {
                self
            }
        }
    }

    /// Backward word motion; `big` treats every non-whitespace character alike.
    pub open spec fn word_backward_in(self, lines: Seq<Seq<char>>, big: bool) -> Cursor {
        if self.col() > 0 {
            if self.row() < lines.len() {
                Cursor::at(self.row(), word_backward_col(classes(lines[self.row()], big), self.col()))
            } else {
                self
            }
        } else if self.row() > 0 {
            if self.row() - 1 < lines.len() {
                Cursor::at(self.row() - 1, lines[self.row() - 1].len() as int)
            } else {
                Cursor {
                    position: Position { row: (self.row() - 1) as usize, col: self.position.col },
                    desired_col: self.desired_col,
                }
            }
        } else {
            self
        }
    }

    /// Onto the last character of the current or next word of the line.
    pub open spec fn word_end_in(self, lines: Seq<Seq<char>>) -> Cursor {
        if self.row() < lines.len() && lines[self.row()].len() > 0 {
            Cursor::at(self.row(), word_end_col(classes(lines[self.row()], false), self.col()))
        } else {
            self
        }
    }

    pub fn new() -> (r: Cursor)
        ensures
            r == Cursor::at(0, 0),
    {
        Cursor { position: Position { row: 0, col: 0 }, desired_col: 0 }
    }

    pub fn position(&self) -> (r: Position)
        ensures
            r == self.position,
    {
        self.position
    }

    /// Sets the position, and remembers its column.
    pub fn move_to_position(&mut self, pos: Position)
        ensures
            *final(self) == Cursor::at(pos.row as int, pos.col as int),
    {
        self.position = pos;
        self.desired_col = pos.col;
    }

    /// Sets the column on the same row, and remembers it.
    pub fn move_to_column(&mut self, col: usize)
        ensures
            *final(self) == Cursor::at(old(self).row(), col as int),
    {
        self.position.col = col;
        self.desired_col = col;
    }

    /// One character left; from column 0, to the end of the line above.
    pub fn move_left(&mut self, content: &[String])
        ensures
            *final(self) == old(self).left_in(lines_view(content@)),
    {
        if self.position.col > 0 {
            self.position.col = self.position.col - 1;
            self.desired_col = self.position.col;
        } else if self.position.row > 0 {
            self.position.row = self.position.row - 1;
            self.position.col = if self.position.row < content.len() {
                char_count(content[self.position.row].as_str())
            } else {
                0
            };
            self.desired_col = self.position.col;
        }
    }

    /// One character right; from the end of a line, to the start of the next.
    pub fn move_right(&mut self, content: &[String])
        ensures
            *final(self) == old(self).right_in(lines_view(content@)),
    {
        if self.position.row < content.len() {
            let line_len = char_count(content[self.position.row].as_str());
            if self.position.col < line_len {
                self.position.col = self.position.col + 1;
                self.desired_col = self.position.col;
            } else if self.position.row + 1 < content.len() {
                self.position.row = self.position.row + 1;
                self.position.col = 0;
                self.desired_col = 0;
            }
        }
    }

    /// One line up, at the remembered column or the line's end if shorter.
    pub fn move_up(&mut self, content: &[String])
        ensures
            *final(self) == old(self).up_in(lines_view(content@)),
    {
        if self.position.row > 0 {
            self.position.row = self.position.row - 1;
            self.position.col = self.clamp_column(content, self.desired_col);
        }
    }

    /// One line down, at the remembered column or the line's end if shorter.
    pub fn move_down(&mut self, content: &[String])
        ensures
            *final(self) == old(self).down_in(lines_view(content@)),
    {
        if self.position.row < content.len() && self.position.row + 1 < content.len() {
            self.position.row = self.position.row + 1;
            self.position.col = self.clamp_column(content, self.desired_col);
        }
    }

    /// The column that `desired_col` comes to on the cursor's line.
    pub fn clamp_column(&self, content: &[String], desired_col: usize) -> (r: usize)
        ensures
            r == clamped_col(lines_view(content@), self.row(), desired_col as int),
    {
        if self.position.row < content.len() {
            let line_len = char_count(content[self.position.row].as_str());
            if desired_col < line_len {
                desired_col
            } else {
                line_len
            }
        } else {
            0
        }
    }

    fn word_forward(&mut self, content: &[String], big: bool)
        ensures
            *final(self) == old(self).word_forward_in(lines_view(content@), big),
    {
        let row = self.position.row;
        let col = self.position.col;
        if row < content.len() {
            let chars = chars_of(content[row].as_str());
            let cls = classes_of(&chars, big);
            let target = if col < cls.len() {
                word_forward_target(&cls, col)
            } else {
                cls.len()
            };
            if target < cls.len() {
                self.position.col = target;
                self.desired_col = target;
            } else if row + 1 < content.len() {
                self.position.row = row + 1;
                self.position.col = 0;
                self.desired_col = 0;
            }
        }
    }

    fn word_backward(&mut self, content: &[String], big: bool)
        ensures
            *final(self) == old(self).word_backward_in(lines_view(content@), big),
    {
        if self.position.col > 0 {
            if self.position.row < content.len() {
                let chars = chars_of(content[self.position.row].as_str());
                let cls = classes_of(&chars, big);
                let target = word_backward_target(&cls, self.position.col);
                self.position.col = target;
                self.desired_col = target;
            }
        } else if self.position.row > 0 {
            self.position.row = self.position.row - 1;
            if self.position.row < content.len() {
                self.position.col = char_count(content[self.position.row].as_str());
                self.desired_col = self.position.col;
            }
        }
    }

    /// To the start of the next word: letters, digits and `_` form words, other
    /// non-blank characters form runs of their own; crosses to the next line.
    pub fn move_word_forward(&mut self, content: &[String])
        ensures
            *final(self) == old(self).word_forward_in(lines_view(content@), false),
    {
        self.word_forward(content, false);
    }

    /// To the start of the word before the cursor; from column 0, to the end of
    /// the line above.
    pub fn move_word_backward(&mut self, content: &[String])
        ensures
            *final(self) == old(self).word_backward_in(lines_view(content@), false),
    {
        self.word_backward(content, false);
    }

    /// To the start of the next run of non-blank characters.
    pub fn move_word_forward_whitespace(&mut self, content: &[String])
        ensures
            *final(self) == old(self).word_forward_in(lines_view(content@), true),
    {
        self.word_forward(content, true);
    }

    /// To the start of the run of non-blank characters before the cursor.
    pub fn move_word_backward_whitespace(&mut self, content: &[String])
        ensures
            *final(self) == old(self).word_backward_in(lines_view(content@), true),
    {
        self.word_backward(content, true);
    }

    /// Onto the last character of the current or next word of the line.
    pub fn move_to_end_of_word(&mut self, content: &[String])
        ensures
            *final(self) == old(self).word_end_in(lines_view(content@)),
    {
        if self.position.row < content.len() {
            let chars = chars_of(content[self.position.row].as_str());
            if chars.len() > 0 {
                let cls = classes_of(&chars, false);
                let target = word_end_target(&cls, self.position.col);
                self.position.col = target;
                self.desired_col = target;
            }
        }
    }
}

} // verus!
