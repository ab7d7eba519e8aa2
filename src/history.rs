//! The model of a buffer's snapshot history: its content and two bounded stacks
//! of earlier and later contents.
use vstd::prelude::*;

verus! {

/// How many snapshots a buffer keeps at most, undo and redo together.
pub const UNDO_LIMIT: usize = 100;

/// The lines of a buffer and its two stacks of snapshots, newest last.
pub struct History {
    pub content: Seq<Seq<char>>,
    pub undo: Seq<Seq<Seq<char>>>,
    pub redo: Seq<Seq<Seq<char>>>,
}

/// `stack` with `snap` pushed, the oldest snapshot evicted when the stack is full.
pub open spec fn recorded(stack: Seq<Seq<Seq<char>>>, snap: Seq<Seq<char>>) -> Seq<Seq<Seq<char>>> {
    if stack.len() >= UNDO_LIMIT {
        stack.drop_first().push(snap)
    } else {
        stack.push(snap)
    }
}

/// The history after an edit that leaves `content`: the previous content is
/// recorded for undo and the redo stack is emptied.
pub open spec fn edited(h: History, content: Seq<Seq<char>>) -> History {
    History { content, undo: recorded(h.undo, h.content), redo: Seq::empty() }
}

/// One undo: the newest undo snapshot becomes the content, and the content is
/// kept for redo. Nothing changes where there is nothing to undo.
pub open spec fn undo_step(h: History) -> History {
    if h.undo.len() == 0 {
        h
    } else {
        History { content: h.undo.last(), undo: h.undo.drop_last(), redo: h.redo.push(h.content) }
    }
}

/// One redo: the newest redo snapshot becomes the content, and the content is
/// kept for undo. Nothing changes where there is nothing to redo.
pub open spec fn redo_step(h: History) -> History {
    if h.redo.len() == 0 {
        h
    } else {
        History { content: h.redo.last(), undo: h.undo.push(h.content), redo: h.redo.drop_last() }
    }
}

/// The history after a sequence of edits, each given by the content it leaves.
pub open spec fn after_edits(h: History, edits: Seq<Seq<Seq<char>>>) -> History
    decreases edits.len(),
{
    if edits.len() == 0 {
        h
    } else {
        edited(after_edits(h, edits.drop_last()), edits.last())
    }
}

/// The history after `n` undos.
pub open spec fn undo_times(h: History, n: nat) -> History
    decreases n,
{
    if n == 0 {
        h
    } else {
        undo_step(undo_times(h, (n - 1) as nat))
    }
}

/// The history after `n` redos.
pub open spec fn redo_times(h: History, n: nat) -> History
    decreases n,
{
    if n == 0 {
        h
    } else {
        redo_step(redo_times(h, (n - 1) as nat))
    }
}

/// The contents seen along a sequence of edits, the first before any edit.
pub open spec fn contents_along(h: History, edits: Seq<Seq<Seq<char>>>) -> Seq<Seq<Seq<char>>> {
    seq![h.content] + edits
}

proof fn lemma_after_edits(h: History, edits: Seq<Seq<Seq<char>>>)
    requires
        edits.len() <= UNDO_LIMIT,
        h.undo.len() <= UNDO_LIMIT,
    ensures
        ({
            let e = after_edits(h, edits);
            let c = contents_along(h, edits);
            let k = edits.len() as int;
            &&& e.content == c[k]
            &&& k >= 1 ==> e.redo.len() == 0
            &&& k == 0 ==> e == h
            &&& k <= e.undo.len() <= UNDO_LIMIT
            &&& forall|i: int| 0 <= i < k ==> #[trigger] e.undo[e.undo.len() - k + i] == c[i]
        }),
    decreases edits.len(),
{
    let c = contents_along(h, edits);
    let k = edits.len() as int;
    if k > 0 {
        let init = edits.drop_last();
        lemma_after_edits(h, init);
        let p = after_edits(h, init);
        let cp = contents_along(h, init);
        assert(forall|i: int| 0 <= i < k ==> cp[i] == c[i]);
        assert(p.content == c[k - 1]);
        let e = after_edits(h, edits);
        assert(e == edited(p, edits.last()));
        assert(e.content == c[k]);
        assert forall|i: int| 0 <= i < k implies #[trigger] e.undo[e.undo.len() - k + i] == c[i] by {
            if i < k - 1 {
                assert(p.undo[p.undo.len() - (k - 1) + i] == cp[i]);
                if p.undo.len() >= UNDO_LIMIT {
                    assert(e.undo.len() == p.undo.len());
                    assert(e.undo[e.undo.len() - k + i] == p.undo.drop_first()[p.undo.len() - k + i]);
                } else {
                    assert(e.undo[e.undo.len() - k + i] == p.undo[p.undo.len() + 1 - k + i]);
                }
            } else {
                assert(e.undo.last() == p.content);
            }
        }
    }
}

proof fn lemma_undos(h: History, n: nat)
    requires
        n <= h.undo.len(),
    ensures
        ({
            let u = undo_times(h, n);
            &&& n == 0 ==> u.content == h.content
            &&& n > 0 ==> u.content == h.undo[h.undo.len() - n]
            &&& u.undo == h.undo.subrange(0, h.undo.len() - n)
            &&& u.redo.len() == h.redo.len() + n
            &&& forall|i: int| 0 <= i < h.redo.len() ==> #[trigger] u.redo[i] == h.redo[i]
            &&& n > 0 ==> u.redo[h.redo.len() as int] == h.content
            &&& forall|i: int|
                1 <= i < n ==> #[trigger] u.redo[h.redo.len() + i] == h.undo[h.undo.len() - i]
        }),
    decreases n,
{
    if n > 0 {
        lemma_undos(h, (n - 1) as nat);
        let p = undo_times(h, (n - 1) as nat);
        assert(p.undo.len() == h.undo.len() - (n - 1));
        assert(p.undo.len() > 0);
        let u = undo_times(h, n);
        assert(u == undo_step(p));
        assert(u.undo =~= h.undo.subrange(0, h.undo.len() - n));
        assert(u.content == h.undo[h.undo.len() - n]);
        assert forall|i: int| 1 <= i < n implies #[trigger] u.redo[h.redo.len() + i] == h.undo[h.undo.len()
            - i] by {
            if i < n - 1 {
                assert(u.redo[h.redo.len() + i] == p.redo[h.redo.len() + i]);
            }
        }
    }
}

proof fn lemma_redos(h: History, n: nat)
    requires
        n <= h.redo.len(),
    ensures
        ({
            let r = redo_times(h, n);
            &&& n == 0 ==> r.content == h.content
            &&& n > 0 ==> r.content == h.redo[h.redo.len() - n]
            &&& r.redo == h.redo.subrange(0, h.redo.len() - n)
        }),
    decreases n,
{
    if n > 0 {
        lemma_redos(h, (n - 1) as nat);
        let p = redo_times(h, (n - 1) as nat);
        assert(p.redo.len() > 0);
        let r = redo_times(h, n);
        assert(r == redo_step(p));
        assert(r.redo =~= h.redo.subrange(0, h.redo.len() - n));
    }
}

/// For any sequence of at most `UNDO_LIMIT` edits, as many undos bring back the
/// content from before the first edit, and as many redos after them bring back
/// the content that the last edit left. No stack ever holds more than
/// `UNDO_LIMIT` snapshots.
pub proof fn lemma_undo_redo_inverse(h: History, edits: Seq<Seq<Seq<char>>>)
    requires
        edits.len() <= UNDO_LIMIT,
        h.undo.len() <= UNDO_LIMIT,
    ensures
        after_edits(h, edits).undo.len() <= UNDO_LIMIT,
        undo_times(after_edits(h, edits), edits.len()).content == h.content,
        redo_times(undo_times(after_edits(h, edits), edits.len()), edits.len()).content
            == after_edits(h, edits).content,
{
    let n = edits.len();
    let e = after_edits(h, edits);
    let c = contents_along(h, edits);
    lemma_after_edits(h, edits);
    lemma_undos(e, n);
    let u = undo_times(e, n);
    if n > 0 {
        assert(e.undo[e.undo.len() - n + 0] == c[0]);
        assert(u.content == h.content);
        lemma_redos(u, n);
        assert(u.redo.len() == n);
        assert(redo_times(u, n).content == u.redo[0]);
        assert(u.redo[e.redo.len() as int] == e.content);
    }
}

} // verus!
