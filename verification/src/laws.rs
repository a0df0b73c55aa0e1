//! The navigation laws: the round-trip guarantees that the whole cursor
//! structure exists to provide.

use crate::page_manager::{
    spec_activate_down, spec_activate_left, spec_activate_right, spec_activate_up,
    spec_activate_most_right, spec_execute_move, spec_left_times, spec_nth_subpage,
    spec_right_times, lemma_left_times_outer, lemma_right_times_outer, wf_manager, wf_levs_down,
    wf_lev, LevelView, ManagerView, SiblingView,
};
use crate::PageNavigation;
use vstd::prelude::*;

verus! {

/// A move left followed by a move right restores the manager exactly: the
/// same active page and the same sibling, ancestor and child chains.
pub proof fn lemma_left_then_right<P>(v: ManagerView<P>)
    requires
        v.left.len() > 0,
    ensures
        spec_activate_right(spec_activate_left(v)) == v,
{
    assert(spec_activate_right(spec_activate_left(v)) =~= v);
}

/// A move right followed by a move left restores the manager exactly.
pub proof fn lemma_right_then_left<P>(v: ManagerView<P>)
    requires
        v.right.len() > 0,
    ensures
        spec_activate_left(spec_activate_right(v)) == v,
{
    assert(spec_activate_left(spec_activate_right(v)) =~= v);
}

/// Repeated moves left shorten the left chain one by one.
pub proof fn lemma_left_times_len<P>(v: ManagerView<P>, k: nat)
    requires
        k <= v.left.len(),
    ensures
        spec_left_times(v, k).left.len() == v.left.len() - k,
    decreases k,
{
    if k > 0 {
        lemma_left_times_len(spec_activate_left(v), (k - 1) as nat);
    }
}

/// Repeated moves right shorten the right chain one by one.
pub proof fn lemma_right_times_len<P>(v: ManagerView<P>, k: nat)
    requires
        k <= v.right.len(),
    ensures
        spec_right_times(v, k).right.len() == v.right.len() - k,
    decreases k,
{
    if k > 0 {
        lemma_right_times_len(spec_activate_right(v), (k - 1) as nat);
    }
}

/// Any number of moves left followed by the same number of moves right
/// restores the manager exactly, as long as the row is long enough for the
/// moves to happen.
pub proof fn lemma_lefts_then_rights<P>(v: ManagerView<P>, k: nat)
    requires
        k <= v.left.len(),
    ensures
        spec_right_times(spec_left_times(v, k), k) == v,
    decreases k,
{
    if k > 0 {
        lemma_left_times_outer(v, (k - 1) as nat);
        lemma_left_times_len(v, (k - 1) as nat);
        let w = spec_left_times(v, (k - 1) as nat);
        assert(spec_left_times(v, k) == spec_activate_left(w));
        lemma_left_then_right(w);
        lemma_lefts_then_rights(v, (k - 1) as nat);
        assert(spec_right_times(spec_activate_left(w), k) == spec_right_times(w, (k - 1) as nat));
    }
}

/// Any number of moves right followed by the same number of moves left
/// restores the manager exactly, as long as the row is long enough for the
/// moves to happen.
pub proof fn lemma_rights_then_lefts<P>(v: ManagerView<P>, k: nat)
    requires
        k <= v.right.len(),
    ensures
        spec_left_times(spec_right_times(v, k), k) == v,
    decreases k,
{
    if k > 0 {
        lemma_right_times_outer(v, (k - 1) as nat);
        lemma_right_times_len(v, (k - 1) as nat);
        let w = spec_right_times(v, (k - 1) as nat);
        assert(spec_right_times(v, k) == spec_activate_right(w));
        lemma_right_then_left(w);
        lemma_rights_then_lefts(v, (k - 1) as nat);
        assert(spec_left_times(spec_activate_right(w), k) == spec_left_times(w, (k - 1) as nat));
    }
}

/// A descent immediately followed by an ascent restores the manager
/// exactly: the same parent page is active again and its sibling, ancestor
/// and child chains are unchanged. This needs the structural invariant:
/// the child entered must be a normalized level.
pub proof fn lemma_down_then_up<P>(v: ManagerView<P>)
    requires
        wf_manager(v),
        v.down.len() > 0,
    ensures
        spec_activate_up(spec_activate_down(v)) == v,
{
    let d = spec_activate_down(v);
    let c = v.down.last();
    assert(wf_levs_down(v.down.drop_last()) && c.right.len() == 0 && wf_lev(c));
    assert(c.right =~= Seq::<SiblingView<P>>::empty());
    assert(spec_activate_most_right(d) == d);
    assert(d.up.last() == (LevelView { page: v.page, left: v.left, right: v.right }));
    assert(c =~= (LevelView { page: c.page, left: c.left, right: Seq::empty() }));
    assert(v.down.drop_last().push(c) =~= v.down);
    assert(spec_activate_up(spec_activate_down(v)) =~= v);
}

/// Ascending with no level above and an already normalized row is a no-op.
pub proof fn lemma_up_at_top<P>(v: ManagerView<P>)
    requires
        v.up.len() == 0,
        v.right.len() == 0,
    ensures
        spec_activate_up(v) == v,
{
}

/// Subpage indices zero and one are the same move, and both descend to the
/// nearest child entry of the down chain.
pub proof fn lemma_nth_subpage_zero_one<P>(v: ManagerView<P>)
    ensures
        spec_nth_subpage(v, 0) == spec_nth_subpage(v, 1),
        spec_nth_subpage(v, 1) == spec_activate_down(v),
{
}

/// Once the left end of the child row is reached, further moves left stay
/// there.
pub proof fn lemma_left_times_clamp<P>(v: ManagerView<P>, k: nat)
    requires
        k >= v.left.len(),
    ensures
        spec_left_times(v, k) == spec_left_times(v, v.left.len()),
    decreases k,
{
    if k > v.left.len() {
        if v.left.len() == 0 {
            lemma_left_times_clamp(v, (k - 1) as nat);
        } else {
            lemma_left_times_clamp(spec_activate_left(v), (k - 1) as nat);
            lemma_left_times_len(v, v.left.len());
        }
    }
}

/// A subpage index beyond the number of children is clamped: every such
/// index lands on the leftmost child of the row, and never errors.
pub proof fn lemma_nth_subpage_clamp<P>(v: ManagerView<P>, n1: usize, n2: usize)
    requires
        n1 >= 1 + spec_activate_down(v).left.len(),
        n2 >= 1 + spec_activate_down(v).left.len(),
    ensures
        spec_nth_subpage(v, n1) == spec_nth_subpage(v, n2),
        spec_nth_subpage(v, n1).left.len() == 0,
{
    let d = spec_activate_down(v);
    lemma_left_times_clamp(d, (n1 - 1) as nat);
    lemma_left_times_clamp(d, (n2 - 1) as nat);
    lemma_left_times_len(d, d.left.len());
}

/// Walking right to the end of the row is moving right as often as the
/// row allows.
pub proof fn lemma_most_right_is_right_times<P>(v: ManagerView<P>)
    ensures
        spec_activate_most_right(v) == spec_right_times(v, v.right.len()),
    decreases v.right.len(),
{
    if v.right.len() > 0 {
        lemma_most_right_is_right_times(spec_activate_right(v));
    }
}

/// Repeated moves left grow the right chain one by one.
pub proof fn lemma_left_times_right_len<P>(v: ManagerView<P>, k: nat)
    requires
        k <= v.left.len(),
    ensures
        spec_left_times(v, k).right.len() == v.right.len() + k,
    decreases k,
{
    if k > 0 {
        lemma_left_times_right_len(spec_activate_left(v), (k - 1) as nat);
    }
}

/// A descent to any subpage, immediately followed by an ascent, restores
/// the manager exactly, whatever the requested index was: the ascent
/// renormalizes the child row before leaving it.
pub proof fn lemma_nth_subpage_then_up<P>(v: ManagerView<P>, n: usize)
    requires
        wf_manager(v),
        v.down.len() > 0,
    ensures
        spec_activate_up(spec_nth_subpage(v, n)) == v,
{
    let d = spec_activate_down(v);
    let c = v.down.last();
    assert(wf_levs_down(v.down.drop_last()) && c.right.len() == 0 && wf_lev(c));
    let j_raw: nat = if n <= 1 {
        0nat
    } else {
        (n - 1) as nat
    };
    let j: nat = if j_raw <= d.left.len() {
        j_raw
    } else {
        d.left.len()
    };
    if j_raw > d.left.len() {
        lemma_left_times_clamp(d, j_raw);
    }
    assert(spec_nth_subpage(v, n) == spec_left_times(d, j));
    lemma_left_times_right_len(d, j);
    lemma_most_right_is_right_times(spec_left_times(d, j));
    assert(spec_left_times(d, j).right.len() == j);
    lemma_lefts_then_rights(d, j);
    assert(spec_activate_most_right(spec_left_times(d, j)) == d);
    lemma_down_then_up(v);
    assert(spec_activate_most_right(d) == d);
}

/// Registering a child and ascending right away restores the parent page
/// and its sibling and ancestor chains exactly; the fresh child stays
/// behind as the nearest entry of the child row.
pub proof fn lemma_register_sub_then_up<P>(v: ManagerView<P>, p: P)
    ensures
        ({
            let sub = ManagerView {
                page: p,
                left: Seq::<SiblingView<P>>::empty(),
                right: Seq::<SiblingView<P>>::empty(),
                up: v.up.push(LevelView { page: v.page, left: v.left, right: v.right }),
                down: v.down,
            };
            let back = spec_activate_up(sub);
            &&& back.page == v.page
            &&& back.left == v.left
            &&& back.right == v.right
            &&& back.up == v.up
            &&& back.down == v.down.push(
                LevelView {
                    page: p,
                    left: Seq::<SiblingView<P>>::empty(),
                    right: Seq::<SiblingView<P>>::empty(),
                },
            )
        }),
{
    let sub = ManagerView {
        page: p,
        left: Seq::<SiblingView<P>>::empty(),
        right: Seq::<SiblingView<P>>::empty(),
        up: v.up.push(LevelView { page: v.page, left: v.left, right: v.right }),
        down: v.down,
    };
    assert(spec_activate_most_right(sub) == sub);
    assert(sub.up.last() == (LevelView { page: v.page, left: v.left, right: v.right }));
    assert(sub.up.drop_last() =~= v.up);
}

/// The cursor effect of a run of dispatched directives. A movement
/// dispatch executes its directive and then follows whatever chain the
/// pages' own updates answer with; when every page consulted answers
/// `Update` the chain stops at once, so each dispatch moves the cursor by
/// exactly [`spec_execute_move`], and a whole run of them by this fold.
/// Only the active page's own content may age along the way.
pub open spec fn spec_execute_moves<P>(
    v: ManagerView<P>,
    navs: Seq<PageNavigation>,
) -> ManagerView<P>
    decreases navs.len(),
{
    if navs.len() == 0 {
        v
    } else {
        spec_execute_moves(spec_execute_move(v, navs[0]), navs.drop_first())
    }
}

/// As long as the row does not run out, a dispatched `Left` never wraps,
/// so a run of them is a plain repeated move left.
pub proof fn lemma_execute_lefts<P>(v: ManagerView<P>, k: nat)
    requires
        k <= v.left.len(),
    ensures
        spec_execute_moves(v, Seq::new(k, |i: int| PageNavigation::Left)) == spec_left_times(v, k),
    decreases k,
{
    if k > 0 {
        let navs = Seq::new(k, |i: int| PageNavigation::Left);
        assert(navs[0] == PageNavigation::Left);
        assert(navs.drop_first() =~= Seq::new((k - 1) as nat, |i: int| PageNavigation::Left));
        assert(spec_execute_move(v, PageNavigation::Left) == spec_activate_left(v));
        lemma_execute_lefts(spec_activate_left(v), (k - 1) as nat);
    }
}

/// A dispatched `Right` is a plain move right, boundary included.
pub proof fn lemma_execute_rights<P>(v: ManagerView<P>, k: nat)
    ensures
        spec_execute_moves(v, Seq::new(k, |i: int| PageNavigation::Right)) == spec_right_times(
            v,
            k,
        ),
    decreases k,
{
    if k > 0 {
        let navs = Seq::new(k, |i: int| PageNavigation::Right);
        assert(navs[0] == PageNavigation::Right);
        assert(navs.drop_first() =~= Seq::new((k - 1) as nat, |i: int| PageNavigation::Right));
        lemma_execute_rights(spec_activate_right(v), (k - 1) as nat);
    }
}

/// Repeated moves right grow the left chain one by one.
pub proof fn lemma_right_times_left_len<P>(v: ManagerView<P>, k: nat)
    requires
        k <= v.right.len(),
    ensures
        spec_right_times(v, k).left.len() == v.left.len() + k,
    decreases k,
{
    if k > 0 {
        lemma_right_times_left_len(spec_activate_right(v), (k - 1) as nat);
    }
}

/// Dispatching `Left` k times and then `Right` k times, with every move
/// inside the row and every page answering the idle directive, restores
/// the cursor exactly.
pub proof fn lemma_dispatched_lefts_then_rights<P>(v: ManagerView<P>, k: nat)
    requires
        k <= v.left.len(),
    ensures
        spec_execute_moves(
            spec_execute_moves(v, Seq::new(k, |i: int| PageNavigation::Left)),
            Seq::new(k, |i: int| PageNavigation::Right),
        ) == v,
{
    lemma_execute_lefts(v, k);
    lemma_execute_rights(spec_left_times(v, k), k);
    lemma_lefts_then_rights(v, k);
}

/// Dispatching `Right` k times and then `Left` k times, with every move
/// inside the row and every page answering the idle directive, restores
/// the cursor exactly.
pub proof fn lemma_dispatched_rights_then_lefts<P>(v: ManagerView<P>, k: nat)
    requires
        k <= v.right.len(),
    ensures
        spec_execute_moves(
            spec_execute_moves(v, Seq::new(k, |i: int| PageNavigation::Right)),
            Seq::new(k, |i: int| PageNavigation::Left),
        ) == v,
{
    lemma_execute_rights(v, k);
    lemma_right_times_len(v, k);
    lemma_right_times_left_len(v, k);
    lemma_execute_lefts(spec_right_times(v, k), k);
    lemma_rights_then_lefts(v, k);
}

/// Dispatching a descent to any subpage and then `Up`, with every page
/// answering the idle directive, makes the parent the active page again
/// with every chain as it was before the descent.
pub proof fn lemma_dispatched_nth_then_up<P>(v: ManagerView<P>, n: usize)
    requires
        wf_manager(v),
        v.down.len() > 0,
    ensures
        spec_execute_moves(v, seq![PageNavigation::NthSubpage(n), PageNavigation::Up]) == v,
{
    let navs = seq![PageNavigation::NthSubpage(n), PageNavigation::Up];
    let w1 = spec_execute_move(v, PageNavigation::NthSubpage(n));
    let w2 = spec_execute_move(w1, PageNavigation::Up);
    assert(navs[0] == PageNavigation::NthSubpage(n));
    assert(navs.drop_first() =~= seq![PageNavigation::Up]);
    assert(spec_execute_moves(v, navs) == spec_execute_moves(w1, seq![PageNavigation::Up]));
    assert(seq![PageNavigation::Up][0] == PageNavigation::Up);
    assert(seq![PageNavigation::Up].drop_first() =~= Seq::<PageNavigation>::empty());
    assert(spec_execute_moves(w1, seq![PageNavigation::Up]) == spec_execute_moves(
        w2,
        Seq::<PageNavigation>::empty(),
    ));
    assert(spec_execute_moves(w2, Seq::<PageNavigation>::empty()) == w2);
    lemma_nth_subpage_then_up(v, n);
}

/// Dispatching subpage index zero and dispatching index one execute the
/// same move: both descend to the nearest child.
pub proof fn lemma_dispatched_nth_zero_one<P>(v: ManagerView<P>)
    ensures
        spec_execute_move(v, PageNavigation::NthSubpage(0)) == spec_execute_move(
            v,
            PageNavigation::NthSubpage(1),
        ),
        spec_execute_move(v, PageNavigation::NthSubpage(1)) == spec_activate_down(v),
{
    lemma_nth_subpage_zero_one(v);
}

} // verus!
