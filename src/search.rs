//! Plain, case-sensitive substring search over a buffer's lines, by characters.
use vstd::prelude::*;

use crate::cursor::Cursor;
use crate::text::{chars_of, lines_view};

verus! {

/// `pat` occurs in `line` at column `s`.
pub open spec fn matches_at(line: Seq<char>, pat: Seq<char>, s: int) -> bool {
    0 <= s && s + pat.len() <= line.len() && line.subrange(s, s + pat.len()) == pat
}

/// The first column from `from` on where `pat` occurs in `line`.
pub open spec fn first_match_from(line: Seq<char>, pat: Seq<char>, from: int) -> Option<int>
    decreases line.len() + 1 - from,
{
    if from < 0 || from + pat.len() > line.len() {
        None
    } else if matches_at(line, pat, from) {
        Some(from)
    } else {
        first_match_from(line, pat, from + 1)
    }
}

/// The last column where `pat` occurs in `line` and ends at or before `end`.
pub open spec fn last_match_before(line: Seq<char>, pat: Seq<char>, end: int) -> Option<int>
    decreases end + 1,
{
    if end < pat.len() {
        None
    } else if matches_at(line, pat, end - pat.len()) {
        Some(end - pat.len())
    } else {
        last_match_before(line, pat, end - 1)
    }
}

/// The first match in rows `r` on, starting at column `start_col` on `start_row`.
pub open spec fn first_in_rows(
    lines: Seq<Seq<char>>,
    pat: Seq<char>,
    r: int,
    start_row: int,
    start_col: int,
) -> Option<(int, int)>
    decreases lines.len() - r,
{
    if r < 0 || r >= lines.len() {
        None
    } else {
        match first_match_from(lines[r], pat, if r == start_row { start_col } else { 0 }) {
            Some(s) => Some((r, s)),
            None => first_in_rows(lines, pat, r + 1, start_row, start_col),
        }
    }
}

/// The first match in whole rows from `r` up to, not including, `stop`.
pub open spec fn first_in_rows_before(lines: Seq<Seq<char>>, pat: Seq<char>, r: int, stop: int) -> Option<
    (int, int),
>
    decreases stop - r,
{
    if r < 0 || r >= stop || r >= lines.len() {
        None
    } else {
        match first_match_from(lines[r], pat, 0) {
            Some(s) => Some((r, s)),
            None => first_in_rows_before(lines, pat, r + 1, stop),
        }
    }
}

/// The last match in rows `r` down to 0, ending by `start_col` on `start_row`.
pub open spec fn last_in_rows(
    lines: Seq<Seq<char>>,
    pat: Seq<char>,
    r: int,
    start_row: int,
    start_col: int,
) -> Option<(int, int)>
    decreases r + 1,
{
    if r < 0 || r >= lines.len() {
        None
    } else {
        match last_match_before(
            lines[r],
            pat,
            if r == start_row {
                start_col
            } else {
                lines[r].len() as int
            },
        ) {
            Some(s) => Some((r, s)),
            None => last_in_rows(lines, pat, r - 1, start_row, start_col),
        }
    }
}

/// The last match in whole rows from `r` down to, not including, `stop`.
pub open spec fn last_in_rows_after(lines: Seq<Seq<char>>, pat: Seq<char>, r: int, stop: int) -> Option<
    (int, int),
>
    decreases r + 1,
{
    if r <= stop || r < 0 || r >= lines.len() {
        None
    } else {
        match last_match_before(lines[r], pat, lines[r].len() as int) {
            Some(s) => Some((r, s)),
            None => last_in_rows_after(lines, pat, r - 1, stop),
        }
    }
}

/// Forward search from `(row, col)`: from one column past the cursor to the end
/// of the buffer, then the rows before `row`.
pub open spec fn search_forward(lines: Seq<Seq<char>>, pat: Seq<char>, row: int, col: int) -> Option<
    (int, int),
> {
    match first_in_rows(lines, pat, row, row, col + 1) {
        Some(p) => Some(p),
        None => first_in_rows_before(lines, pat, 0, row),
    }
}

/// Backward search from `(row, col)`: matches that end by one column before the
/// cursor, back to row 0, then from the last row down to the rows after `row`.
pub open spec fn search_backward(lines: Seq<Seq<char>>, pat: Seq<char>, row: int, col: int) -> Option<
    (int, int),
> {
    let start_col = if col > 0 {
        col - 1
    } else {
        0
    };
    match last_in_rows(lines, pat, row, row, start_col) {
        Some(p) => Some(p),
        None => last_in_rows_after(lines, pat, lines.len() - 1, row),
    }
}

/// The cursor after a search for `pat`: at the match found, or where it was.
pub open spec fn search_cursor(c: Cursor, lines: Seq<Seq<char>>, pat: Seq<char>, forward: bool) -> Cursor {
    match (if forward {
        search_forward(lines, pat, c.row(), c.col())
    } else {
        search_backward(lines, pat, c.row(), c.col())
    }) {
        Some((r, s)) => Cursor::at(r, s),
        None => c,
    }
}

/// Whether `pat` occurs in `hay` at `s`.
pub fn occurs_at(hay: &Vec<char>, pat: &Vec<char>, s: usize) -> (r: bool)
    requires
        s + pat.len() <= hay.len(),
    ensures
        r == matches_at(hay@, pat@, s as int),
{
    let mut k: usize = 0;
    while k < pat.len()
        invariant
            k <= pat.len(),
            s + pat.len() <= hay.len(),
            forall|j: int| 0 <= j < k ==> hay@[s + j] == pat@[j],
        decreases pat.len() - k,
    {
        if hay[s + k] != pat[k] {
            assert(hay@.subrange(s as int, s + pat.len())[k as int] != pat@[k as int]);
            return false;
        }
        k += 1;
    }
    assert(hay@.subrange(s as int, s + pat.len()) =~= pat@);
    true
}

/// The first column from `from` on where `pat` occurs in `hay`.
pub fn find_from(hay: &Vec<char>, pat: &Vec<char>, from: usize) -> (r: Option<usize>)
    ensures
        match r {
            Some(s) => first_match_from(hay@, pat@, from as int) == Some(s as int),
            None => first_match_from(hay@, pat@, from as int) is None,
        },
        r matches Some(s) ==> from <= s && s + pat.len() <= hay.len(),
{
    if pat.len() > hay.len() {
        return None;
    }
    let last = hay.len() - pat.len();
    let mut s = from;
    while s <= last
        invariant
            last == hay.len() - pat.len(),
            from <= s,
            first_match_from(hay@, pat@, s as int) == first_match_from(hay@, pat@, from as int),
        decreases last + 1 - s,
    {
        if occurs_at(hay, pat, s) {
            return Some(s);
        }
        if s == last {
            assert(first_match_from(hay@, pat@, s + 1) is None);
            return None;
        }
        s += 1;
    }
    None
}

/// The last column where `pat` occurs in `hay` and ends at or before `end`.
pub fn rfind_before(hay: &Vec<char>, pat: &Vec<char>, end: usize) -> (r: Option<usize>)
    ensures
        match r {
            Some(s) => last_match_before(hay@, pat@, end as int) == Some(s as int),
            None => last_match_before(hay@, pat@, end as int) is None,
        },
        r matches Some(s) ==> s + pat.len() <= hay.len(),
{
    let mut e = end;
    while e >= pat.len()
        invariant
            e <= end,
            last_match_before(hay@, pat@, e as int) == last_match_before(hay@, pat@, end as int),
        decreases e,
    {
        let s = e - pat.len();
        if e <= hay.len() && occurs_at(hay, pat, s) {
            return Some(s);
        }
        if e == 0 {
            assert(last_match_before(hay@, pat@, -1) is None);
            return None;
        }
        e -= 1;
    }
    None
}

proof fn lemma_first_match_bounds(line: Seq<char>, pat: Seq<char>, from: int)
    ensures
        first_match_from(line, pat, from) matches Some(s) ==> from <= s && s + pat.len() <= line.len(),
    decreases line.len() + 1 - from,
{
    if !(from < 0 || from + pat.len() > line.len()) && !matches_at(line, pat, from) {
        lemma_first_match_bounds(line, pat, from + 1);
    }
}

proof fn lemma_last_match_bounds(line: Seq<char>, pat: Seq<char>, end: int)
    ensures
        last_match_before(line, pat, end) matches Some(s) ==> 0 <= s && s + pat.len() <= line.len(),
    decreases end + 1,
{
    if end >= pat.len() && !matches_at(line, pat, end - pat.len()) {
        lemma_last_match_bounds(line, pat, end - 1);
    }
}

/// Whether a forward search from `(row, col)` looks at column `s` of row `r`:
/// the columns past the cursor on its row, and every column of the other rows.
pub open spec fn forward_scanned(lines: Seq<Seq<char>>, row: int, col: int, r: int, s: int) -> bool {
    0 <= r < lines.len() && 0 <= s && (r != row || s > col)
}

/// How far row `r` comes after `row` in the order a forward search visits the
/// rows: `row` itself, the rows after it, then the rows from the first on.
pub open spec fn forward_row_rank(lines: Seq<Seq<char>>, row: int, r: int) -> int {
    if r >= row {
        r - row
    } else {
        r + lines.len() - row
    }
}

/// Whether column `s` of row `r` comes before column `s2` of row `r2` in the
/// order a forward search from row `row` visits them.
pub open spec fn forward_before(lines: Seq<Seq<char>>, row: int, r: int, s: int, r2: int, s2: int) -> bool {
    forward_row_rank(lines, row, r) < forward_row_rank(lines, row, r2) || (r == r2 && s < s2)
}

proof fn lemma_first_match_is_first(line: Seq<char>, pat: Seq<char>, from: int)
    requires
        0 <= from,
    ensures
        match first_match_from(line, pat, from) {
            Some(s) => from <= s && matches_at(line, pat, s) && forall|t: int|
                from <= t < s ==> !#[trigger] matches_at(line, pat, t),
            None => forall|t: int| from <= t ==> !#[trigger] matches_at(line, pat, t),
        },
    decreases line.len() + 1 - from,
{
    if from + pat.len() <= line.len() && !matches_at(line, pat, from) {
        lemma_first_match_is_first(line, pat, from + 1);
    }
}

proof fn lemma_rows_first(lines: Seq<Seq<char>>, pat: Seq<char>, r: int, row: int, col: int)
    requires
        0 <= row <= r,
        0 <= col,
    ensures
        match first_in_rows(lines, pat, r, row, col) {
            Some((a, b)) => {
                &&& r <= a < lines.len()
                &&& (if a == row { col } else { 0 }) <= b
                &&& matches_at(lines[a], pat, b)
                &&& forall|t: int, u: int|
                    r <= t < a && (if t == row { col } else { 0 }) <= u ==> !#[trigger] matches_at(
                        lines[t],
                        pat,
                        u,
                    )
                &&& forall|u: int| (if a == row { col } else { 0 }) <= u < b ==> !#[trigger] matches_at(lines[a], pat, u)
            },
            None => forall|t: int, u: int|
                r <= t < lines.len() && (if t == row { col } else { 0 }) <= u ==> !#[trigger] matches_at(
                    lines[t],
                    pat,
                    u,
                ),
        },
    decreases lines.len() - r,
{
    if r < lines.len() {
        let from = if r == row { col } else { 0 };
        lemma_first_match_is_first(lines[r], pat, from);
        if first_match_from(lines[r], pat, from) is None {
            lemma_rows_first(lines, pat, r + 1, row, col);
        }
    }
}

proof fn lemma_rows_before_first(lines: Seq<Seq<char>>, pat: Seq<char>, r: int, stop: int)
    requires
        0 <= r,
        stop <= lines.len(),
    ensures
        match first_in_rows_before(lines, pat, r, stop) {
            Some((a, b)) => {
                &&& r <= a < stop
                &&& 0 <= b
                &&& matches_at(lines[a], pat, b)
                &&& forall|t: int, u: int| r <= t < a && 0 <= u ==> !#[trigger] matches_at(lines[t], pat, u)
                &&& forall|u: int| 0 <= u < b ==> !#[trigger] matches_at(lines[a], pat, u)
            },
            None => forall|t: int, u: int| r <= t < stop && 0 <= u ==> !#[trigger] matches_at(lines[t], pat, u),
        },
    decreases stop - r,
{
    if r < stop {
        lemma_first_match_is_first(lines[r], pat, 0);
        if first_match_from(lines[r], pat, 0) is None {
            lemma_rows_before_first(lines, pat, r + 1, stop);
        }
    }
}

/// A forward search finds the first match after the cursor, wrapping around:
/// where it finds one, the match lies at a column it scans, and no match lies
/// at a scanned column that it visits earlier; where it finds none, no match
/// lies at any scanned column.
pub proof fn lemma_search_forward_first(lines: Seq<Seq<char>>, pat: Seq<char>, row: int, col: int)
    requires
        0 <= row < lines.len(),
        0 <= col,
    ensures
        match search_forward(lines, pat, row, col) {
            Some((r, s)) => {
                &&& forward_scanned(lines, row, col, r, s)
                &&& matches_at(lines[r], pat, s)
                &&& forall|r2: int, s2: int|
                    forward_scanned(lines, row, col, r2, s2) && forward_before(lines, row, r2, s2, r, s)
                        ==> !#[trigger] matches_at(lines[r2], pat, s2)
            },
            None => forall|r2: int, s2: int|
                forward_scanned(lines, row, col, r2, s2) ==> !#[trigger] matches_at(lines[r2], pat, s2),
        },
{
    lemma_rows_first(lines, pat, row, row, col + 1);
    lemma_rows_before_first(lines, pat, 0, row);
}

/// Every match that a search finds lies within the lines.
pub proof fn lemma_search_within(lines: Seq<Seq<char>>, pat: Seq<char>, row: int, col: int)
    ensures
        search_forward(lines, pat, row, col) matches Some((r, c)) ==> 0 <= r < lines.len() && 0 <= c
            <= lines[r].len(),
        search_backward(lines, pat, row, col) matches Some((r, c)) ==> 0 <= r < lines.len() && 0
            <= c <= lines[r].len(),
{
    assert forall|line: Seq<char>, from: int|
        (#[trigger] first_match_from(line, pat, from) matches Some(s) ==> 0 <= s <= line.len()) by {
        lemma_first_match_bounds(line, pat, from);
    }
    assert forall|line: Seq<char>, end: int|
        (#[trigger] last_match_before(line, pat, end) matches Some(s) ==> 0 <= s <= line.len()) by {
        lemma_last_match_bounds(line, pat, end);
    }
    lemma_rows_within(lines, pat, row, row, col + 1);
    lemma_rows_before_within(lines, pat, 0, row);
    let start_col = if col > 0 {
        col - 1
    } else {
        0
    };
    lemma_rows_back_within(lines, pat, row, row, start_col);
    lemma_rows_after_within(lines, pat, lines.len() - 1, row);
}

proof fn lemma_rows_within(lines: Seq<Seq<char>>, pat: Seq<char>, r: int, start_row: int, start_col: int)
    requires
        forall|line: Seq<char>, from: int| #[trigger] first_match_from(line, pat, from) matches Some(s)
            ==> 0 <= s <= line.len(),
    ensures
        first_in_rows(lines, pat, r, start_row, start_col) matches Some((a, b)) ==> 0 <= a < lines.len()
            && 0 <= b <= lines[a].len(),
    decreases lines.len() - r,
{
    if !(r < 0 || r >= lines.len()) {
        lemma_rows_within(lines, pat, r + 1, start_row, start_col);
    }
}

proof fn lemma_rows_before_within(lines: Seq<Seq<char>>, pat: Seq<char>, r: int, stop: int)
    requires
        forall|line: Seq<char>, from: int| #[trigger] first_match_from(line, pat, from) matches Some(s)
            ==> 0 <= s <= line.len(),
    ensures
        first_in_rows_before(lines, pat, r, stop) matches Some((a, b)) ==> 0 <= a < lines.len() && 0
            <= b <= lines[a].len(),
    decreases stop - r,
{
    if !(r < 0 || r >= stop || r >= lines.len()) {
        lemma_rows_before_within(lines, pat, r + 1, stop);
    }
}

proof fn lemma_rows_back_within(
    lines: Seq<Seq<char>>,
    pat: Seq<char>,
    r: int,
    start_row: int,
    start_col: int,
)
    requires
        forall|line: Seq<char>, end: int| #[trigger] last_match_before(line, pat, end) matches Some(s)
            ==> 0 <= s <= line.len(),
    ensures
        last_in_rows(lines, pat, r, start_row, start_col) matches Some((a, b)) ==> 0 <= a < lines.len()
            && 0 <= b <= lines[a].len(),
    decreases r + 1,
{
    if !(r < 0 || r >= lines.len()) {
        lemma_rows_back_within(lines, pat, r - 1, start_row, start_col);
    }
}

proof fn lemma_rows_after_within(lines: Seq<Seq<char>>, pat: Seq<char>, r: int, stop: int)
    requires
        forall|line: Seq<char>, end: int| #[trigger] last_match_before(line, pat, end) matches Some(s)
            ==> 0 <= s <= line.len(),
    ensures
        last_in_rows_after(lines, pat, r, stop) matches Some((a, b)) ==> 0 <= a < lines.len() && 0
            <= b <= lines[a].len(),
    decreases r + 1,
{
    if !(r <= stop || r < 0 || r >= lines.len()) {
        lemma_rows_after_within(lines, pat, r - 1, stop);
    }
}

/// Forward search over `content` from `(row, col)`.
pub fn find_forward(content: &Vec<String>, pat: &Vec<char>, row: usize, col: usize) -> (r: Option<(usize, usize)>)
    requires
        row < content.len(),
    ensures
        match r {
            Some((a, b)) => search_forward(lines_view(content@), pat@, row as int, col as int) == Some(
                (a as int, b as int),
            ),
            None => search_forward(lines_view(content@), pat@, row as int, col as int) is None,
        },
{
    let ghost lines = lines_view(content@);
    let mut r: usize = row;
    while r < content.len()
        invariant
            row <= r <= content.len(),
            lines == lines_view(content@),
            first_in_rows(lines, pat@, r as int, row as int, col + 1) == first_in_rows(
                lines,
                pat@,
                row as int,
                row as int,
                col + 1,
            ),
        decreases content.len() - r,
    {
        let hay = chars_of(content[r].as_str());
        let found = if r == row {
            if col < hay.len() {
                find_from(&hay, pat, col + 1)
            } else {
                None
            }
        } else {
            find_from(&hay, pat, 0)
        };
        if let Some(s) = found {
            return Some((r, s));
        }
        r += 1;
    }
    let mut r: usize = 0;
    while r < row
        invariant
            r <= row < content.len(),
            lines == lines_view(content@),
            first_in_rows(lines, pat@, row as int, row as int, col + 1) is None,
            first_in_rows_before(lines, pat@, r as int, row as int) == first_in_rows_before(
                lines,
                pat@,
                0,
                row as int,
            ),
        decreases row - r,
    {
        let hay = chars_of(content[r].as_str());
        if let Some(s) = find_from(&hay, pat, 0) {
            return Some((r, s));
        }
        r += 1;
    }
    None
}

/// Backward search over `content` from `(row, col)`.
pub fn find_backward(content: &Vec<String>, pat: &Vec<char>, row: usize, col: usize) -> (r: Option<(usize, usize)>)
    requires
        row < content.len(),
    ensures
        match r {
            Some((a, b)) => search_backward(lines_view(content@), pat@, row as int, col as int) == Some(
                (a as int, b as int),
            ),
            None => search_backward(lines_view(content@), pat@, row as int, col as int) is None,
        },
{
    let ghost lines = lines_view(content@);
    let start_col = if col > 0 {
        col - 1
    } else {
        0
    };
    let mut r: usize = row + 1;
    while r > 0
        invariant
            r <= row + 1,
            row < content.len(),
            start_col == (if col > 0 { col - 1 } else { 0 }),
            lines == lines_view(content@),
            last_in_rows(lines, pat@, r - 1, row as int, start_col as int) == last_in_rows(
                lines,
                pat@,
                row as int,
                row as int,
                start_col as int,
            ),
        decreases r,
    {
        let i = r - 1;
        let hay = chars_of(content[i].as_str());
        let end = if i == row {
            start_col
        } else {
            hay.len()
        };
        if let Some(s) = rfind_before(&hay, pat, end) {
            return Some((i, s));
        }
        r -= 1;
    }
    let mut r: usize = content.len();
    while r > row + 1
        invariant
            row + 1 <= r <= content.len(),
            start_col == (if col > 0 { col - 1 } else { 0 }),
            lines == lines_view(content@),
            last_in_rows(lines, pat@, row as int, row as int, start_col as int) is None,
            last_in_rows_after(lines, pat@, r - 1, row as int) == last_in_rows_after(
                lines,
                pat@,
                lines.len() - 1,
                row as int,
            ),
        decreases r,
    {
        let i = r - 1;
        let hay = chars_of(content[i].as_str());
        if let Some(s) = rfind_before(&hay, pat, hay.len()) {
            return Some((i, s));
        }
        r -= 1;
    }
    None
}

} // verus!
