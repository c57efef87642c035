//! What undoing and redoing do to the finished strokes.
//!
//! Both lists of a session end in a stroke that is not part of the history:
//! the stroke in progress, and the blank that follows the undone strokes.
//! Without them the two lists are a pair of stacks.
use vstd::prelude::*;
use crate::painting::blank;
use crate::painting::DrawObjView;
use crate::painting::PaintingView;

verus! {

/// The finished strokes of a session, and the strokes that can be redone.
pub struct History {
    pub done: Seq<DrawObjView>,
    pub undone: Seq<DrawObjView>,
}

/// The history of a session that has a stroke in progress.
pub open spec fn history(v: PaintingView) -> History {
    History {
        done: v.shapes.drop_last(),
        undone: if v.last_actions.len() > 0 {
            v.last_actions.drop_last()
        } else {
            Seq::empty()
        },
    }
}

/// One step back: the last finished stroke becomes the first to redo.
pub open spec fn back(h: History) -> History {
    if h.done.len() > 0 {
        History { done: h.done.drop_last(), undone: h.undone.push(h.done.last()) }
    } else {
        h
    }
}

/// One step forth: the first stroke to redo becomes the last finished one.
pub open spec fn forth(h: History) -> History {
    if h.undone.len() > 0 {
        History { done: h.done.push(h.undone.last()), undone: h.undone.drop_last() }
    } else {
        h
    }
}

/// `n` steps back.
pub open spec fn back_times(h: History, n: nat) -> History
    decreases n,
{
    if n == 0 {
        h
    } else {
        back(back_times(h, (n - 1) as nat))
    }
}

/// `n` steps forth.
pub open spec fn forth_times(h: History, n: nat) -> History
    decreases n,
{
    if n == 0 {
        h
    } else {
        forth(forth_times(h, (n - 1) as nat))
    }
}

/// The session after undoing `n` times.
pub open spec fn undone_times(v: PaintingView, n: nat) -> PaintingView
    decreases n,
{
    if n == 0 {
        v
    } else {
        undone_times(v, (n - 1) as nat).undone()
    }
}

/// The session after redoing `n` times.
pub open spec fn redone_times(v: PaintingView, n: nat) -> PaintingView
    decreases n,
{
    if n == 0 {
        v
    } else {
        redone_times(v, (n - 1) as nat).redone()
    }
}

/// Undoing is one step back in the history and touches nothing else.
pub proof fn lemma_undone_history(v: PaintingView)
    requires
        v.shapes.len() >= 1,
    ensures
        history(v.undone()) == back(history(v)),
        v.undone().shapes.len() >= 1,
        v.undone() == (PaintingView {
            shapes: v.undone().shapes,
            last_actions: v.undone().last_actions,
            ..v
        }),
{
    let u = v.undone();
    if v.shapes.len() > 1 {
        let n = v.shapes.len() as int;
        assert(u.shapes.drop_last() =~= v.shapes.drop_last().drop_last());
        assert(v.shapes.drop_last().last() == v.shapes[n - 2]);
        let kept = if v.last_actions.len() > 0 {
            v.last_actions.drop_last()
        } else {
            v.last_actions
        };
        assert(kept =~= history(v).undone);
        assert(u.last_actions.drop_last() =~= kept.push(v.shapes[n - 2]));
    }
}

/// Redoing is one step forth in the history and touches nothing else.
pub proof fn lemma_redone_history(v: PaintingView)
    requires
        v.shapes.len() >= 1,
    ensures
        history(v.redone()) == forth(history(v)),
        v.redone().shapes.len() >= 1,
        v.redone() == (PaintingView {
            shapes: v.redone().shapes,
            last_actions: v.redone().last_actions,
            ..v
        }),
{
    let r = v.redone();
    if v.last_actions.len() > 1 {
        let m = v.last_actions.len() as int;
        assert(v.last_actions.drop_last().last() == v.last_actions[m - 2]);
        assert(r.shapes.drop_last() =~= v.shapes.drop_last().push(v.last_actions[m - 2]));
        assert(r.last_actions.drop_last() =~= v.last_actions.drop_last().drop_last());
    }
}

/// A step back followed by a step forth changes nothing, where there is a
/// finished stroke to step back over.
pub proof fn lemma_back_forth(h: History)
    requires
        h.done.len() > 0,
    ensures
        forth(back(h)) == h,
{
    let b = back(h);
    assert(b.undone.last() == h.done.last());
    assert(b.done.push(b.undone.last()) =~= h.done);
    assert(b.undone.drop_last() =~= h.undone);
}

/// Stepping forth once and then `n` times is stepping forth `n` times and
/// then once.
pub proof fn lemma_forth_commutes(h: History, n: nat)
    ensures
        forth_times(forth(h), n) == forth(forth_times(h, n)),
    decreases n,
{
    if n > 0 {
        lemma_forth_commutes(h, (n - 1) as nat);
    }
}

/// `n` steps back take `n` strokes from the finished ones, where there are
/// that many.
pub proof fn lemma_back_times_len(h: History, n: nat)
    requires
        n <= h.done.len(),
    ensures
        back_times(h, n).done.len() == h.done.len() - n,
    decreases n,
{
    if n > 0 {
        lemma_back_times_len(h, (n - 1) as nat);
    }
}

/// `n` steps back followed by `n` steps forth change nothing, where there
/// are `n` finished strokes.
pub proof fn lemma_back_forth_times(h: History, n: nat)
    requires
        n <= h.done.len(),
    ensures
        forth_times(back_times(h, n), n) == h,
    decreases n,
{
    if n > 0 {
        let d = back_times(h, (n - 1) as nat);
        lemma_back_times_len(h, (n - 1) as nat);
        lemma_back_forth(d);
        lemma_forth_commutes(back(d), (n - 1) as nat);
        lemma_back_forth_times(h, (n - 1) as nat);
    }
}

/// Undoing `n` times is `n` steps back in the history and touches nothing
/// else.
pub proof fn lemma_undone_times(v: PaintingView, n: nat)
    requires
        v.shapes.len() >= 1,
    ensures
        history(undone_times(v, n)) == back_times(history(v), n),
        undone_times(v, n).shapes.len() >= 1,
        undone_times(v, n) == (PaintingView {
            shapes: undone_times(v, n).shapes,
            last_actions: undone_times(v, n).last_actions,
            ..v
        }),
    decreases n,
{
    if n > 0 {
        lemma_undone_times(v, (n - 1) as nat);
        lemma_undone_history(undone_times(v, (n - 1) as nat));
    }
}

/// Redoing `n` times is `n` steps forth in the history and touches nothing
/// else.
pub proof fn lemma_redone_times(v: PaintingView, n: nat)
    requires
        v.shapes.len() >= 1,
    ensures
        history(redone_times(v, n)) == forth_times(history(v), n),
        redone_times(v, n).shapes.len() >= 1,
        n > 0 && history(v).undone.len() >= n ==> redone_times(v, n).shapes.last() == blank(
            v.stroke,
        ),
        redone_times(v, n) == (PaintingView {
            shapes: redone_times(v, n).shapes,
            last_actions: redone_times(v, n).last_actions,
            ..v
        }),
    decreases n,
{
    if n > 0 {
        let before = redone_times(v, (n - 1) as nat);
        lemma_redone_times(v, (n - 1) as nat);
        lemma_redone_history(before);
        if history(v).undone.len() >= n {
            lemma_forth_times_len(history(v), (n - 1) as nat);
        }
    }
}

/// `n` steps forth take `n` strokes from those to redo, where there are
/// that many.
pub proof fn lemma_forth_times_len(h: History, n: nat)
    requires
        n <= h.undone.len(),
    ensures
        forth_times(h, n).undone.len() == h.undone.len() - n,
    decreases n,
{
    if n > 0 {
        lemma_forth_times_len(h, (n - 1) as nat);
    }
}

/// Undoing `n` times and then redoing `n` times, where the session holds
/// `n` finished strokes, brings every finished stroke back in its place,
/// with its points and its style, and leaves the strokes to redo as they
/// were. The stroke in progress is then a blank one, and nothing else of
/// the session has changed.
pub proof fn lemma_undo_redo(v: PaintingView, n: nat)
    requires
        v.shapes.len() >= 1,
        n <= v.shapes.len() - 1,
    ensures
        ({
            let r = redone_times(undone_times(v, n), n);
            &&& r.shapes.len() == v.shapes.len()
            &&& r.shapes.drop_last() == v.shapes.drop_last()
            &&& history(r) == history(v)
            &&& n > 0 ==> r.shapes == v.shapes.drop_last().push(blank(v.stroke))
            &&& r == (PaintingView { shapes: r.shapes, last_actions: r.last_actions, ..v })
        }),
{
    let u = undone_times(v, n);
    let r = redone_times(u, n);
    lemma_undone_times(v, n);
    lemma_redone_times(u, n);
    lemma_back_forth_times(history(v), n);
    assert(history(r) == history(v));
    assert(r.shapes.drop_last().len() == v.shapes.drop_last().len());
    if n > 0 {
        lemma_back_times_undone(history(v), n);
        assert(r.shapes =~= r.shapes.drop_last().push(r.shapes.last()));
    }
}

/// `n` steps back add `n` strokes to those to redo, where there are that
/// many finished ones.
pub proof fn lemma_back_times_undone(h: History, n: nat)
    requires
        n <= h.done.len(),
    ensures
        back_times(h, n).undone.len() == h.undone.len() + n,
    decreases n,
{
    if n > 0 {
        lemma_back_times_undone(h, (n - 1) as nat);
        lemma_back_times_len(h, (n - 1) as nat);
    }
}

} // verus!
