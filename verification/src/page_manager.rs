//! The tree cursor that owns all pages and executes navigation directives.

use crate::{Interaction, PageError, PageInterface, PageNavigation};
use vstd::prelude::*;

verus! {

/// A sibling of the active page, stored on the `left` or `right` chain.
///
/// Besides the page itself the node carries, for the *other* axis, the
/// ancestor and child context that was current the last time this page was
/// focused. A page pushed out of focus must take that context along, or it
/// would be lost.
pub struct SiblingNode<P> {
    pub page: P,
    pub up: Vec<LevelNode<P>>,
    pub down: Vec<LevelNode<P>>,
}

/// A page of another tree level, stored on the `up` or `down` chain,
/// carrying the sibling context that was current the last time its level
/// was focused.
pub struct LevelNode<P> {
    pub page: P,
    pub left: Vec<SiblingNode<P>>,
    pub right: Vec<SiblingNode<P>>,
}

/// The mathematical shape of a stored sibling.
#[verifier::ext_equal]
pub ghost struct SiblingView<P> {
    pub page: P,
    pub up: Seq<LevelView<P>>,
    pub down: Seq<LevelView<P>>,
}

/// The mathematical shape of a stored level entry.
#[verifier::ext_equal]
pub ghost struct LevelView<P> {
    pub page: P,
    pub left: Seq<SiblingView<P>>,
    pub right: Seq<SiblingView<P>>,
}

/// The mathematical shape of the cursor: the active page and the four
/// chains around it. All chains are ordered nearest-last, so the chain
/// element adjacent to the active page is the last element of its sequence.
#[verifier::ext_equal]
pub ghost struct ManagerView<P> {
    pub page: P,
    pub left: Seq<SiblingView<P>>,
    pub right: Seq<SiblingView<P>>,
    pub up: Seq<LevelView<P>>,
    pub down: Seq<LevelView<P>>,
}

pub open spec fn sib_view<P>(n: SiblingNode<P>) -> SiblingView<P>
    decreases n,
{
    SiblingView { page: n.page, up: lev_chain_view(n.up@), down: lev_chain_view(n.down@) }
}

pub open spec fn sib_chain_view<P>(s: Seq<SiblingNode<P>>) -> Seq<SiblingView<P>>
    decreases s,
{
    if s.len() == 0 {
        Seq::empty()
    } else {
        sib_chain_view(s.drop_last()).push(sib_view(s.last()))
    }
}

pub open spec fn lev_view<P>(n: LevelNode<P>) -> LevelView<P>
    decreases n,
{
    LevelView { page: n.page, left: sib_chain_view(n.left@), right: sib_chain_view(n.right@) }
}

pub open spec fn lev_chain_view<P>(s: Seq<LevelNode<P>>) -> Seq<LevelView<P>>
    decreases s,
{
    if s.len() == 0 {
        Seq::empty()
    } else {
        lev_chain_view(s.drop_last()).push(lev_view(s.last()))
    }
}

pub proof fn lemma_sib_chain_view_len<P>(s: Seq<SiblingNode<P>>)
    ensures
        sib_chain_view(s).len() == s.len(),
    decreases s,
{
    if s.len() > 0 {
        lemma_sib_chain_view_len(s.drop_last());
    }
}

pub proof fn lemma_lev_chain_view_len<P>(s: Seq<LevelNode<P>>)
    ensures
        lev_chain_view(s).len() == s.len(),
    decreases s,
{
    if s.len() > 0 {
        lemma_lev_chain_view_len(s.drop_last());
    }
}

pub proof fn lemma_sib_chain_view_push<P>(s: Seq<SiblingNode<P>>, n: SiblingNode<P>)
    ensures
        sib_chain_view(s.push(n)) == sib_chain_view(s).push(sib_view(n)),
{
    assert(s.push(n).drop_last() =~= s);
    assert(s.push(n).last() == n);
}

pub proof fn lemma_lev_chain_view_push<P>(s: Seq<LevelNode<P>>, n: LevelNode<P>)
    ensures
        lev_chain_view(s.push(n)) == lev_chain_view(s).push(lev_view(n)),
{
    assert(s.push(n).drop_last() =~= s);
    assert(s.push(n).last() == n);
}

pub proof fn lemma_sib_chain_view_pop<P>(s: Seq<SiblingNode<P>>)
    requires
        s.len() > 0,
    ensures
        sib_chain_view(s).len() == s.len(),
        sib_chain_view(s.drop_last()) == sib_chain_view(s).drop_last(),
        sib_view(s.last()) == sib_chain_view(s).last(),
{
    lemma_sib_chain_view_len(s);
    lemma_sib_chain_view_len(s.drop_last());
    assert(sib_chain_view(s.drop_last()).push(sib_view(s.last())).drop_last() =~= sib_chain_view(
        s.drop_last(),
    ));
}

pub proof fn lemma_sib_chain_view_index<P>(s: Seq<SiblingNode<P>>, i: int)
    requires
        0 <= i < s.len(),
    ensures
        sib_chain_view(s).len() == s.len(),
        sib_chain_view(s)[i] == sib_view(s[i]),
    decreases s,
{
    lemma_sib_chain_view_len(s);
    if i < s.len() - 1 {
        lemma_sib_chain_view_len(s.drop_last());
        lemma_sib_chain_view_index(s.drop_last(), i);
    }
}

pub proof fn lemma_lev_chain_view_pop<P>(s: Seq<LevelNode<P>>)
    requires
        s.len() > 0,
    ensures
        lev_chain_view(s).len() == s.len(),
        lev_chain_view(s.drop_last()) == lev_chain_view(s).drop_last(),
        lev_view(s.last()) == lev_chain_view(s).last(),
{
    lemma_lev_chain_view_len(s);
    lemma_lev_chain_view_len(s.drop_last());
    assert(lev_chain_view(s.drop_last()).push(lev_view(s.last())).drop_last() =~= lev_chain_view(
        s.drop_last(),
    ));
}

/// How many navigation directives the manager follows within one update
/// call before it stops the chain. A page whose update keeps answering with
/// a further move (for example a zero-length lifetime whose target expires
/// again at once) would otherwise keep the manager busy forever; such a
/// configuration is a hazard of the directive design, and the chain is cut
/// off here rather than followed without bound.
pub const UPDATE_CHAIN_LIMIT: usize = 64;

/// The internal run state of the manager.
#[derive(Debug, Clone, Copy, PartialEq, Eq, Structural)]
pub enum PageManagerState {
    Startup,
    Operational,
    Shutdown,
}

/// Move the focus to the nearest left sibling. Without a left sibling the
/// cursor is unchanged. The displaced page takes the current ancestor and
/// child context with it onto the right chain; the context the left sibling
/// stashed away is installed in its place.
pub open spec fn spec_activate_left<P>(v: ManagerView<P>) -> ManagerView<P> {
    if v.left.len() == 0 {
        v
    } else {
        ManagerView {
            page: v.left.last().page,
            left: v.left.drop_last(),
            right: v.right.push(SiblingView { page: v.page, up: v.up, down: v.down }),
            up: v.left.last().up,
            down: v.left.last().down,
        }
    }
}

/// Move the focus to the nearest right sibling; the mirror image of
/// [`spec_activate_left`].
pub open spec fn spec_activate_right<P>(v: ManagerView<P>) -> ManagerView<P> {
    if v.right.len() == 0 {
        v
    } else {
        ManagerView {
            page: v.right.last().page,
            left: v.left.push(SiblingView { page: v.page, up: v.up, down: v.down }),
            right: v.right.drop_last(),
            up: v.right.last().up,
            down: v.right.last().down,
        }
    }
}

/// Move the focus right until the right chain is exhausted.
pub open spec fn spec_activate_most_right<P>(v: ManagerView<P>) -> ManagerView<P>
    decreases v.right.len(),
{
    if v.right.len() == 0 {
        v
    } else {
        spec_activate_most_right(spec_activate_right(v))
    }
}

/// Move the focus to the nearest child. Without children the cursor is
/// unchanged. The level left behind is stashed on the `up` chain with its
/// sibling context; the child's stashed sibling context is installed.
pub open spec fn spec_activate_down<P>(v: ManagerView<P>) -> ManagerView<P> {
    if v.down.len() == 0 {
        v
    } else {
        ManagerView {
            page: v.down.last().page,
            left: v.down.last().left,
            right: v.down.last().right,
            up: v.up.push(LevelView { page: v.page, left: v.left, right: v.right }),
            down: v.down.drop_last(),
        }
    }
}

/// Ascend one level: first normalize the current level by walking to its
/// rightmost sibling, then pop the nearest ancestor level. The normalized
/// level is stashed on the `down` chain; with an empty `up` chain only the
/// normalization happens.
pub open spec fn spec_activate_up<P>(v: ManagerView<P>) -> ManagerView<P> {
    let w = spec_activate_most_right(v);
    if w.up.len() == 0 {
        w
    } else {
        ManagerView {
            page: w.up.last().page,
            left: w.up.last().left,
            right: w.up.last().right,
            up: w.up.drop_last(),
            down: w.down.push(LevelView { page: w.page, left: w.left, right: Seq::empty() }),
        }
    }
}

/// The count of level entries standing in an `up` chain anywhere in the
/// structure: in the manager's own `up` chain or stashed inside any sibling,
/// at any depth. Each ascent removes exactly one such entry, which makes
/// this the termination measure for going home.
pub open spec fn up_weight_sibs<P>(s: Seq<SiblingView<P>>) -> nat
    decreases s,
{
    if s.len() == 0 {
        0
    } else {
        up_weight_sibs(s.drop_last()) + up_weight_sib(s.last())
    }
}

pub open spec fn up_weight_sib<P>(n: SiblingView<P>) -> nat
    decreases n,
{
    n.up.len() + up_weight_levs(n.up) + up_weight_levs(n.down)
}

pub open spec fn up_weight_levs<P>(s: Seq<LevelView<P>>) -> nat
    decreases s,
{
    if s.len() == 0 {
        0
    } else {
        up_weight_levs(s.drop_last()) + up_weight_lev(s.last())
    }
}

pub open spec fn up_weight_lev<P>(n: LevelView<P>) -> nat
    decreases n,
{
    up_weight_sibs(n.left) + up_weight_sibs(n.right)
}

pub open spec fn up_weight<P>(v: ManagerView<P>) -> nat {
    v.up.len() + up_weight_levs(v.up) + up_weight_levs(v.down) + up_weight_sibs(v.left)
        + up_weight_sibs(v.right)
}

pub proof fn lemma_up_weight_sibs_push<P>(s: Seq<SiblingView<P>>, n: SiblingView<P>)
    ensures
        up_weight_sibs(s.push(n)) == up_weight_sibs(s) + up_weight_sib(n),
{
    assert(s.push(n).drop_last() =~= s);
    assert(s.push(n).last() == n);
}

pub proof fn lemma_up_weight_levs_push<P>(s: Seq<LevelView<P>>, n: LevelView<P>)
    ensures
        up_weight_levs(s.push(n)) == up_weight_levs(s) + up_weight_lev(n),
{
    assert(s.push(n).drop_last() =~= s);
    assert(s.push(n).last() == n);
}

/// A single step right keeps the up-weight: the stashed ancestry only moves
/// between the manager's own fields and a sibling node.
pub proof fn lemma_up_weight_right<P>(v: ManagerView<P>)
    requires
        v.right.len() > 0,
    ensures
        up_weight(spec_activate_right(v)) == up_weight(v),
{
    lemma_up_weight_sibs_push(v.left, SiblingView { page: v.page, up: v.up, down: v.down });
    assert(up_weight_sibs(v.right) == up_weight_sibs(v.right.drop_last()) + up_weight_sib(
        v.right.last(),
    ));
}

/// Walking right to the end of the row empties the right chain, grows the
/// left chain by the same count, and keeps the up-weight.
pub proof fn lemma_most_right_shape<P>(v: ManagerView<P>)
    ensures
        spec_activate_most_right(v).right.len() == 0,
        spec_activate_most_right(v).left.len() == v.left.len() + v.right.len(),
        up_weight(spec_activate_most_right(v)) == up_weight(v),
    decreases v.right.len(),
{
    if v.right.len() > 0 {
        lemma_up_weight_right(v);
        lemma_most_right_shape(spec_activate_right(v));
    }
}

/// A successful ascent removes exactly one entry from an up chain.
pub proof fn lemma_up_weight_up<P>(v: ManagerView<P>)
    requires
        spec_activate_most_right(v).up.len() > 0,
    ensures
        up_weight(spec_activate_up(v)) + 1 == up_weight(v),
{
    lemma_most_right_shape(v);
    let w = spec_activate_most_right(v);
    let n = w.up.last();
    lemma_up_weight_levs_push(
        w.down,
        LevelView { page: w.page, left: w.left, right: Seq::empty() },
    );
    assert(up_weight_levs(w.up) == up_weight_levs(w.up.drop_last()) + up_weight_lev(n));
    assert(up_weight_sibs(Seq::<SiblingView<P>>::empty()) == 0);
    assert(up_weight_lev(LevelView { page: w.page, left: w.left, right: Seq::empty() })
        == up_weight_sibs(w.left));
    assert(up_weight_sibs(w.right) == 0);
}

/// The number of pages stored in a sibling chain, stashed context included.
pub open spec fn page_count_sibs<P>(s: Seq<SiblingView<P>>) -> nat
    decreases s,
{
    if s.len() == 0 {
        0
    } else {
        page_count_sibs(s.drop_last()) + page_count_sib(s.last())
    }
}

pub open spec fn page_count_sib<P>(n: SiblingView<P>) -> nat
    decreases n,
{
    1 + page_count_levs(n.up) + page_count_levs(n.down)
}

/// The number of pages stored in a level chain, stashed context included.
pub open spec fn page_count_levs<P>(s: Seq<LevelView<P>>) -> nat
    decreases s,
{
    if s.len() == 0 {
        0
    } else {
        page_count_levs(s.drop_last()) + page_count_lev(s.last())
    }
}

pub open spec fn page_count_lev<P>(n: LevelView<P>) -> nat
    decreases n,
{
    1 + page_count_sibs(n.left) + page_count_sibs(n.right)
}

/// How many pages the cursor owns in all: the active page and every page
/// stored in one of the chains, at any depth. Every navigation move keeps
/// this count: no page is ever lost, duplicated or handed out.
pub open spec fn page_count<P>(v: ManagerView<P>) -> nat {
    1 + page_count_sibs(v.left) + page_count_sibs(v.right) + page_count_levs(v.up)
        + page_count_levs(v.down)
}

pub proof fn lemma_page_count_sibs_push<P>(s: Seq<SiblingView<P>>, n: SiblingView<P>)
    ensures
        page_count_sibs(s.push(n)) == page_count_sibs(s) + page_count_sib(n),
{
    assert(s.push(n).drop_last() =~= s);
    assert(s.push(n).last() == n);
}

pub proof fn lemma_page_count_levs_push<P>(s: Seq<LevelView<P>>, n: LevelView<P>)
    ensures
        page_count_levs(s.push(n)) == page_count_levs(s) + page_count_lev(n),
{
    assert(s.push(n).drop_last() =~= s);
    assert(s.push(n).last() == n);
}

/// A step left moves pages between the chains and the focus, one for one.
pub proof fn lemma_page_count_left<P>(v: ManagerView<P>)
    ensures
        page_count(spec_activate_left(v)) == page_count(v),
{
    if v.left.len() > 0 {
        lemma_page_count_sibs_push(v.right, SiblingView { page: v.page, up: v.up, down: v.down });
        assert(page_count_sibs(v.left) == page_count_sibs(v.left.drop_last()) + page_count_sib(
            v.left.last(),
        ));
    }
}

/// A step right moves pages between the chains and the focus, one for one.
pub proof fn lemma_page_count_right<P>(v: ManagerView<P>)
    ensures
        page_count(spec_activate_right(v)) == page_count(v),
{
    if v.right.len() > 0 {
        lemma_page_count_sibs_push(v.left, SiblingView { page: v.page, up: v.up, down: v.down });
        assert(page_count_sibs(v.right) == page_count_sibs(v.right.drop_last()) + page_count_sib(
            v.right.last(),
        ));
    }
}

pub proof fn lemma_page_count_most_right<P>(v: ManagerView<P>)
    ensures
        page_count(spec_activate_most_right(v)) == page_count(v),
    decreases v.right.len(),
{
    if v.right.len() > 0 {
        lemma_page_count_right(v);
        lemma_page_count_most_right(spec_activate_right(v));
    }
}

/// A descent moves pages between the chains and the focus, one for one.
pub proof fn lemma_page_count_down<P>(v: ManagerView<P>)
    ensures
        page_count(spec_activate_down(v)) == page_count(v),
{
    if v.down.len() > 0 {
        lemma_page_count_levs_push(v.up, LevelView { page: v.page, left: v.left, right: v.right });
        assert(page_count_levs(v.down) == page_count_levs(v.down.drop_last()) + page_count_lev(
            v.down.last(),
        ));
    }
}

/// An ascent moves pages between the chains and the focus, one for one.
pub proof fn lemma_page_count_up<P>(v: ManagerView<P>)
    ensures
        page_count(spec_activate_up(v)) == page_count(v),
{
    lemma_page_count_most_right(v);
    let w = spec_activate_most_right(v);
    lemma_most_right_shape(v);
    if w.up.len() > 0 {
        lemma_page_count_levs_push(
            w.down,
            LevelView { page: w.page, left: w.left, right: Seq::empty() },
        );
        assert(page_count_levs(w.up) == page_count_levs(w.up.drop_last()) + page_count_lev(
            w.up.last(),
        ));
        assert(page_count_sibs(Seq::<SiblingView<P>>::empty()) == 0);
        assert(page_count_sibs(w.right) == 0);
    }
}

/// Going home keeps every page in place.
pub proof fn lemma_page_count_home<P>(v: ManagerView<P>)
    ensures
        page_count(spec_activate_home(v)) == page_count(v),
    decreases up_weight(v),
{
    if spec_activate_most_right(v).up.len() == 0 {
        lemma_page_count_most_right(v);
    } else {
        lemma_up_weight_up(v);
        lemma_page_count_up(v);
        lemma_page_count_home(spec_activate_up(v));
    }
}

pub proof fn lemma_page_count_left_times<P>(v: ManagerView<P>, k: nat)
    ensures
        page_count(spec_left_times(v, k)) == page_count(v),
    decreases k,
{
    if k > 0 {
        lemma_page_count_left(v);
        lemma_page_count_left_times(spec_activate_left(v), (k - 1) as nat);
    }
}

/// Descending to any subpage keeps every page in place.
pub proof fn lemma_page_count_nth_subpage<P>(v: ManagerView<P>, n: usize)
    ensures
        page_count(spec_nth_subpage(v, n)) == page_count(v),
{
    lemma_page_count_down(v);
    lemma_page_count_left_times(spec_activate_down(v), if n <= 1 { 0nat } else { (n - 1) as nat });
}

/// Ascend until no level is above, then walk to the rightmost sibling of
/// the top level. A level's true ancestry is stashed with its rightmost
/// sibling, so whether a level is the top one shows only after the walk
/// right that every ascent starts with.
pub open spec fn spec_activate_home<P>(v: ManagerView<P>) -> ManagerView<P>
    decreases up_weight(v),
    via spec_activate_home_decreases::<P>
{
    if spec_activate_most_right(v).up.len() == 0 {
        spec_activate_most_right(v)
    } else {
        spec_activate_home(spec_activate_up(v))
    }
}

#[via_fn]
proof fn spec_activate_home_decreases<P>(v: ManagerView<P>) {
    if spec_activate_most_right(v).up.len() > 0 {
        lemma_up_weight_up(v);
    }
}

/// A `Left` navigation directive wraps: at the left end of a sibling row
/// the focus turns around to the rightmost sibling.
pub open spec fn spec_left_wrap<P>(v: ManagerView<P>) -> ManagerView<P> {
    if v.left.len() == 0 {
        spec_activate_most_right(v)
    } else {
        spec_activate_left(v)
    }
}

/// `k` moves to the left in a row, each one stopping at the boundary.
pub open spec fn spec_left_times<P>(v: ManagerView<P>, k: nat) -> ManagerView<P>
    decreases k,
{
    if k == 0 {
        v
    } else {
        spec_left_times(spec_activate_left(v), (k - 1) as nat)
    }
}

/// `k` moves to the right in a row, each one stopping at the boundary.
pub open spec fn spec_right_times<P>(v: ManagerView<P>, k: nat) -> ManagerView<P>
    decreases k,
{
    if k == 0 {
        v
    } else {
        spec_right_times(spec_activate_right(v), (k - 1) as nat)
    }
}

/// Peeling a repeated move from the inside or from the outside comes to the
/// same thing.
pub proof fn lemma_left_times_outer<P>(v: ManagerView<P>, k: nat)
    ensures
        spec_left_times(v, k + 1) == spec_activate_left(spec_left_times(v, k)),
    decreases k,
{
    assert(spec_left_times(v, k + 1) == spec_left_times(spec_activate_left(v), k));
    if k > 0 {
        lemma_left_times_outer(spec_activate_left(v), (k - 1) as nat);
    } else {
        assert(spec_left_times(spec_activate_left(v), 0nat) == spec_activate_left(v));
    }
}

/// Peeling a repeated move from the inside or from the outside comes to the
/// same thing.
pub proof fn lemma_right_times_outer<P>(v: ManagerView<P>, k: nat)
    ensures
        spec_right_times(v, k + 1) == spec_activate_right(spec_right_times(v, k)),
    decreases k,
{
    assert(spec_right_times(v, k + 1) == spec_right_times(spec_activate_right(v), k));
    if k > 0 {
        lemma_right_times_outer(spec_activate_right(v), (k - 1) as nat);
    } else {
        assert(spec_right_times(spec_activate_right(v), 0nat) == spec_activate_right(v));
    }
}

/// The `NthSubpage(n)` directive: descend to the nearest child, then move
/// left `max(n, 1) - 1` times. An index of zero or one selects the nearest
/// child; an index beyond the row is clamped at the leftmost child by the
/// boundary behavior of the single move.
pub open spec fn spec_nth_subpage<P>(v: ManagerView<P>, n: usize) -> ManagerView<P> {
    spec_left_times(spec_activate_down(v), if n <= 1 { 0nat } else { (n - 1) as nat })
}

/// Every stored sibling keeps a well-formed stashed context.
pub open spec fn wf_sibs<P>(s: Seq<SiblingView<P>>) -> bool
    decreases s,
{
    s.len() == 0 || (wf_sibs(s.drop_last()) && wf_sib(s.last()))
}

pub open spec fn wf_sib<P>(n: SiblingView<P>) -> bool
    decreases n,
{
    wf_levs_up(n.up) && wf_levs_down(n.down)
}

/// Entries of an `up` chain may carry any sibling context, as long as it is
/// well formed in turn.
pub open spec fn wf_levs_up<P>(s: Seq<LevelView<P>>) -> bool
    decreases s,
{
    s.len() == 0 || (wf_levs_up(s.drop_last()) && wf_lev(s.last()))
}

/// Entries of a `down` chain are normalized: they were stashed either by a
/// child registration or by an ascent, and both leave a level whose right
/// chain is empty.
pub open spec fn wf_levs_down<P>(s: Seq<LevelView<P>>) -> bool
    decreases s,
{
    s.len() == 0 || (wf_levs_down(s.drop_last()) && s.last().right.len() == 0 && wf_lev(s.last()))
}

pub open spec fn wf_lev<P>(n: LevelView<P>) -> bool
    decreases n,
{
    wf_sibs(n.left) && wf_sibs(n.right)
}

/// The manager's structural invariant: every chain is well formed, and in
/// particular every child entry is a normalized level. A freshly built
/// manager is well formed and every navigation and registration operation
/// preserves this.
pub open spec fn wf_manager<P>(v: ManagerView<P>) -> bool {
    wf_sibs(v.left) && wf_sibs(v.right) && wf_levs_up(v.up) && wf_levs_down(v.down)
}

pub proof fn lemma_wf_sibs_push<P>(s: Seq<SiblingView<P>>, n: SiblingView<P>)
    ensures
        wf_sibs(s.push(n)) == (wf_sibs(s) && wf_sib(n)),
{
    assert(s.push(n).drop_last() =~= s);
    assert(s.push(n).last() == n);
}

pub proof fn lemma_wf_levs_up_push<P>(s: Seq<LevelView<P>>, n: LevelView<P>)
    ensures
        wf_levs_up(s.push(n)) == (wf_levs_up(s) && wf_lev(n)),
{
    assert(s.push(n).drop_last() =~= s);
    assert(s.push(n).last() == n);
}

pub proof fn lemma_wf_levs_down_push<P>(s: Seq<LevelView<P>>, n: LevelView<P>)
    ensures
        wf_levs_down(s.push(n)) == (wf_levs_down(s) && n.right.len() == 0 && wf_lev(n)),
{
    assert(s.push(n).drop_last() =~= s);
    assert(s.push(n).last() == n);
}

/// A step left keeps the cursor well formed.
pub proof fn lemma_wf_activate_left<P>(v: ManagerView<P>)
    requires
        wf_manager(v),
    ensures
        wf_manager(spec_activate_left(v)),
{
    if v.left.len() > 0 {
        assert(wf_sibs(v.left.drop_last()) && wf_sib(v.left.last()));
        assert(wf_levs_up(v.left.last().up) && wf_levs_down(v.left.last().down));
        lemma_wf_sibs_push(v.right, SiblingView { page: v.page, up: v.up, down: v.down });
        assert(wf_sib(SiblingView { page: v.page, up: v.up, down: v.down }));
    }
}

/// A step right keeps the cursor well formed.
pub proof fn lemma_wf_activate_right<P>(v: ManagerView<P>)
    requires
        wf_manager(v),
    ensures
        wf_manager(spec_activate_right(v)),
{
    if v.right.len() > 0 {
        assert(wf_sibs(v.right.drop_last()) && wf_sib(v.right.last()));
        assert(wf_levs_up(v.right.last().up) && wf_levs_down(v.right.last().down));
        lemma_wf_sibs_push(v.left, SiblingView { page: v.page, up: v.up, down: v.down });
        assert(wf_sib(SiblingView { page: v.page, up: v.up, down: v.down }));
    }
}

/// Walking to the right end keeps the cursor well formed.
pub proof fn lemma_wf_most_right<P>(v: ManagerView<P>)
    requires
        wf_manager(v),
    ensures
        wf_manager(spec_activate_most_right(v)),
    decreases v.right.len(),
{
    if v.right.len() > 0 {
        lemma_wf_activate_right(v);
        lemma_wf_most_right(spec_activate_right(v));
    }
}

/// A descent keeps the cursor well formed.
pub proof fn lemma_wf_activate_down<P>(v: ManagerView<P>)
    requires
        wf_manager(v),
    ensures
        wf_manager(spec_activate_down(v)),
{
    if v.down.len() > 0 {
        assert(wf_levs_down(v.down.drop_last()) && v.down.last().right.len() == 0 && wf_lev(
            v.down.last(),
        ));
        assert(wf_sibs(v.down.last().left) && wf_sibs(v.down.last().right));
        lemma_wf_levs_up_push(v.up, LevelView { page: v.page, left: v.left, right: v.right });
        assert(wf_lev(LevelView { page: v.page, left: v.left, right: v.right }));
    }
}

/// An ascent keeps the cursor well formed: the level it stashes on the
/// `down` chain has just been normalized.
pub proof fn lemma_wf_activate_up<P>(v: ManagerView<P>)
    requires
        wf_manager(v),
    ensures
        wf_manager(spec_activate_up(v)),
{
    lemma_wf_most_right(v);
    lemma_most_right_shape(v);
    let w = spec_activate_most_right(v);
    if w.up.len() > 0 {
        assert(wf_levs_up(w.up.drop_last()) && wf_lev(w.up.last()));
        assert(wf_sibs(w.up.last().left) && wf_sibs(w.up.last().right));
        lemma_wf_levs_down_push(
            w.down,
            LevelView { page: w.page, left: w.left, right: Seq::empty() },
        );
        assert(wf_sibs(Seq::<SiblingView<P>>::empty()));
        assert(wf_lev(LevelView { page: w.page, left: w.left, right: Seq::empty() }));
    }
}

/// Going home keeps the cursor well formed.
pub proof fn lemma_wf_activate_home<P>(v: ManagerView<P>)
    requires
        wf_manager(v),
    ensures
        wf_manager(spec_activate_home(v)),
    decreases up_weight(v),
{
    if spec_activate_most_right(v).up.len() == 0 {
        lemma_wf_most_right(v);
    } else {
        lemma_up_weight_up(v);
        lemma_wf_activate_up(v);
        lemma_wf_activate_home(spec_activate_up(v));
    }
}

/// Repeated steps left keep the cursor well formed.
pub proof fn lemma_wf_left_times<P>(v: ManagerView<P>, k: nat)
    requires
        wf_manager(v),
    ensures
        wf_manager(spec_left_times(v, k)),
    decreases k,
{
    if k > 0 {
        lemma_wf_activate_left(v);
        lemma_wf_left_times(spec_activate_left(v), (k - 1) as nat);
    }
}

/// Descending to any subpage keeps the cursor well formed.
pub proof fn lemma_wf_nth_subpage<P>(v: ManagerView<P>, n: usize)
    requires
        wf_manager(v),
    ensures
        wf_manager(spec_nth_subpage(v, n)),
{
    lemma_wf_activate_down(v);
    lemma_wf_left_times(spec_activate_down(v), if n <= 1 { 0nat } else { (n - 1) as nat });
}

/// The cursor with its active page replaced: what a page's own update does
/// to the manager, seen on the abstract view.
pub open spec fn spec_with_page<P>(v: ManagerView<P>, p: P) -> ManagerView<P> {
    ManagerView { page: p, left: v.left, right: v.right, up: v.up, down: v.down }
}

/// What one navigation directive does to the cursor. The system and update
/// directives leave the cursor where it is.
pub open spec fn spec_execute_move<P>(v: ManagerView<P>, nav: PageNavigation) -> ManagerView<P> {
    match nav {
        PageNavigation::Left => spec_left_wrap(v),
        PageNavigation::Right => spec_activate_right(v),
        PageNavigation::Up => spec_activate_up(v),
        PageNavigation::Home => spec_activate_home(v),
        PageNavigation::NthSubpage(index) => spec_nth_subpage(v, index),
        _ => v,
    }
}

/// `v2` arises from `v1` by an update chain of at most `k` moves: the
/// active page changes its own state and answers a directive, the
/// directive is executed, and the page then in focus is asked in turn.
/// Everything the dispatch machinery does to the cursor is of this shape:
/// pages are only rearranged by navigation moves, and only the page in
/// focus is handed out for mutation.
pub open spec fn spec_chain_reachable<P>(v1: ManagerView<P>, v2: ManagerView<P>, k: nat) -> bool
    decreases k,
{
    ||| (exists|p: P| v2 == spec_with_page(v1, p))
    ||| (k > 0 && exists|p: P, nav: PageNavigation|
        spec_chain_reachable(spec_execute_move(spec_with_page(v1, p), nav), v2, (k - 1) as nat))
}

/// A chain may stop at once.
pub proof fn lemma_chain_reachable_refl<P>(v: ManagerView<P>, k: nat)
    ensures
        spec_chain_reachable(v, v, k),
{
    assert(v == spec_with_page(v, v.page));
}

/// A shorter chain is also a longer one.
pub proof fn lemma_chain_reachable_mono<P>(v1: ManagerView<P>, v2: ManagerView<P>, j: nat, k: nat)
    requires
        spec_chain_reachable(v1, v2, j),
        j <= k,
    ensures
        spec_chain_reachable(v1, v2, k),
    decreases j,
{
    if !(exists|p: P| v2 == spec_with_page(v1, p)) {
        let (p, nav): (P, PageNavigation) = choose|p: P, nav: PageNavigation|
            spec_chain_reachable(spec_execute_move(spec_with_page(v1, p), nav), v2, (j - 1) as nat);
        lemma_chain_reachable_mono(
            spec_execute_move(spec_with_page(v1, p), nav),
            v2,
            (j - 1) as nat,
            (k - 1) as nat,
        );
    }
}

/// A replacement of the active page folds into the chain's last link.
pub proof fn lemma_chain_reachable_replace<P>(
    v1: ManagerView<P>,
    v2: ManagerView<P>,
    p: P,
    k: nat,
)
    requires
        spec_chain_reachable(v1, v2, k),
    ensures
        spec_chain_reachable(v1, spec_with_page(v2, p), k),
    decreases k,
{
    if exists|q: P| v2 == spec_with_page(v1, q) {
        let q: P = choose|q: P| v2 == spec_with_page(v1, q);
        assert(spec_with_page(v2, p) == spec_with_page(v1, p));
    } else {
        let (q, nav): (P, PageNavigation) = choose|q: P, nav: PageNavigation|
            spec_chain_reachable(spec_execute_move(spec_with_page(v1, q), nav), v2, (k - 1) as nat);
        lemma_chain_reachable_replace(
            spec_execute_move(spec_with_page(v1, q), nav),
            v2,
            p,
            (k - 1) as nat,
        );
    }
}

/// One more replace-and-move link extends a chain at its far end.
pub proof fn lemma_chain_reachable_extend<P>(
    v1: ManagerView<P>,
    v2: ManagerView<P>,
    p: P,
    nav: PageNavigation,
    k: nat,
)
    requires
        spec_chain_reachable(v1, v2, k),
    ensures
        spec_chain_reachable(v1, spec_execute_move(spec_with_page(v2, p), nav), k + 1),
    decreases k,
{
    let v3 = spec_execute_move(spec_with_page(v2, p), nav);
    if exists|q: P| v2 == spec_with_page(v1, q) {
        let q: P = choose|q: P| v2 == spec_with_page(v1, q);
        assert(spec_with_page(v2, p) == spec_with_page(v1, p));
        lemma_chain_reachable_refl(v3, k);
        assert(spec_chain_reachable(spec_execute_move(spec_with_page(v1, p), nav), v3, k));
    } else {
        let (q, m): (P, PageNavigation) = choose|q: P, m: PageNavigation|
            spec_chain_reachable(spec_execute_move(spec_with_page(v1, q), m), v2, (k - 1) as nat);
        lemma_chain_reachable_extend(
            spec_execute_move(spec_with_page(v1, q), m),
            v2,
            p,
            nav,
            (k - 1) as nat,
        );
    }
}

/// A chain that begins after a page replacement is a chain from the
/// unreplaced cursor as well.
pub proof fn lemma_chain_reachable_after_replace<P>(
    v1: ManagerView<P>,
    v2: ManagerView<P>,
    p: P,
    k: nat,
)
    requires
        spec_chain_reachable(spec_with_page(v1, p), v2, k),
    ensures
        spec_chain_reachable(v1, v2, k),
    decreases k,
{
    let w = spec_with_page(v1, p);
    if exists|q: P| v2 == spec_with_page(w, q) {
        let q: P = choose|q: P| v2 == spec_with_page(w, q);
        assert(v2 == spec_with_page(v1, q));
    } else {
        let (q, nav): (P, PageNavigation) = choose|q: P, nav: PageNavigation|
            spec_chain_reachable(spec_execute_move(spec_with_page(w, q), nav), v2, (k - 1) as nat);
        assert(spec_with_page(w, q) == spec_with_page(v1, q));
    }
}

/// The PageManager is responsible for switching among pages while
/// pages do not know about other pages.
/// The PageManager also dispatches events and updates the current page.
///
/// Only a "home" page is mandatory. Any other pages are optional.
/// Startup and shutdown pages are purely information pages and are
/// activated only by the `SystemStart` and `SystemStop` events.
///
/// Trees of pages are modeled by four chains seen from the one active page:
/// `left` and `right` hold the siblings of the active page (nearest first),
/// `up` holds the ancestor levels exited by descending (innermost first),
/// and `down` holds the children of the active page. The tree root is
/// where both the `up` and the `left` chains are empty. From the active
/// page every other page can be navigated to.
///
/// All chains are owned stacks, so tearing the manager down unlinks the
/// nodes of a level iteratively and never recurses over the length of a
/// sibling chain; only the tree depth shows up as nesting.
pub struct PageManager<D, P> {
    display: D,
    page: P,
    left: Vec<SiblingNode<P>>,
    right: Vec<SiblingNode<P>>,
    up: Vec<LevelNode<P>>,
    down: Vec<LevelNode<P>>,
    startup: Option<P>,
    shutdown: Option<P>,
    state: PageManagerState,
}

impl<D, P> View for PageManager<D, P> {
    type V = ManagerView<P>;

    closed spec fn view(&self) -> ManagerView<P> {
        ManagerView {
            page: self.page,
            left: sib_chain_view(self.left@),
            right: sib_chain_view(self.right@),
            up: lev_chain_view(self.up@),
            down: lev_chain_view(self.down@),
        }
    }
}

impl<D, P: PageInterface<D>> PageManager<D, P> {
    /// The current run state of the dispatch state machine.
    pub closed spec fn spec_state(&self) -> PageManagerState {
        self.state
    }

    /// The registered startup page, if any.
    pub closed spec fn spec_startup(&self) -> Option<P> {
        self.startup
    }

    /// The registered shutdown page, if any.
    pub closed spec fn spec_shutdown(&self) -> Option<P> {
        self.shutdown
    }

    /// The display the manager renders to.
    pub closed spec fn spec_display(&self) -> D {
        self.display
    }

    /// Everything outside the cursor is unchanged between `pre` and `post`.
    pub open spec fn same_surroundings(pre: &Self, post: &Self) -> bool {
        &&& post.spec_state() == pre.spec_state()
        &&& post.spec_startup() == pre.spec_startup()
        &&& post.spec_shutdown() == pre.spec_shutdown()
        &&& post.spec_display() == pre.spec_display()
    }

    /// PageManager Constructor
    ///
    /// Arguments
    ///
    /// * `display`: The display data structure where all output is rendered
    ///   to. The display data structure and the logic attached makes the
    ///   rendered output appear on some output facility viewable by a human.
    /// * `home`: The "home" page. There must be at least one page. Other
    ///   pages are added by `register_*` calls.
    pub fn new(display: D, home: P) -> (r: Self)
        ensures
            r@ == (ManagerView {
                page: home,
                left: Seq::<SiblingView<P>>::empty(),
                right: Seq::<SiblingView<P>>::empty(),
                up: Seq::<LevelView<P>>::empty(),
                down: Seq::<LevelView<P>>::empty(),
            }),
            r.spec_state() == PageManagerState::Startup,
            r.spec_startup() is None,
            r.spec_shutdown() is None,
            r.spec_display() == display,
            wf_manager(r@),
    {
        let r = PageManager {
            display,
            page: home,
            left: Vec::new(),
            right: Vec::new(),
            up: Vec::new(),
            down: Vec::new(),
            startup: None,
            shutdown: None,
            state: PageManagerState::Startup,
        };
        proof {
            assert(r@.left =~= Seq::<SiblingView<P>>::empty());
            assert(r@.right =~= Seq::<SiblingView<P>>::empty());
            assert(r@.up =~= Seq::<LevelView<P>>::empty());
            assert(r@.down =~= Seq::<LevelView<P>>::empty());
        }
        r
    }

    /// Navigate to the nearest left page.
    ///
    /// If there is no left page it returns false and the cursor is
    /// unchanged; a sibling row does not wrap here.
    pub fn activate_left(&mut self) -> (r: bool)
        ensures
            r == (old(self)@.left.len() > 0),
            final(self)@ == spec_activate_left(old(self)@),
            Self::same_surroundings(old(self), final(self)),
    {
        proof {
            lemma_sib_chain_view_len(self.left@);
        }
        match self.left.pop() {
            None => false,
            Some(node) => {
                let mut node = node;
                proof {
                    lemma_sib_chain_view_pop(old(self).left@);
                }
                core::mem::swap(&mut self.page, &mut node.page);
                core::mem::swap(&mut self.up, &mut node.up);
                core::mem::swap(&mut self.down, &mut node.down);
                self.right.push(node);
                proof {
                    lemma_sib_chain_view_push(old(self).right@, self.right@.last());
                    assert(self@ =~= spec_activate_left(old(self)@));
                }
                true
            },
        }
    }

    /// Navigate to the nearest right page.
    ///
    /// If there is no right page it returns false and the cursor is
    /// unchanged; a sibling row does not wrap here.
    pub fn activate_right(&mut self) -> (r: bool)
        ensures
            r == (old(self)@.right.len() > 0),
            final(self)@ == spec_activate_right(old(self)@),
            Self::same_surroundings(old(self), final(self)),
    {
        proof {
            lemma_sib_chain_view_len(self.right@);
        }
        match self.right.pop() {
            None => false,
            Some(node) => {
                let mut node = node;
                proof {
                    lemma_sib_chain_view_pop(old(self).right@);
                }
                core::mem::swap(&mut self.page, &mut node.page);
                core::mem::swap(&mut self.up, &mut node.up);
                core::mem::swap(&mut self.down, &mut node.down);
                self.left.push(node);
                proof {
                    lemma_sib_chain_view_push(old(self).left@, self.left@.last());
                    assert(self@ =~= spec_activate_right(old(self)@));
                }
                true
            },
        }
    }

    /// Navigate right until the right end of the current sibling row.
    pub fn activate_most_right(&mut self)
        ensures
            final(self)@ == spec_activate_most_right(old(self)@),
            Self::same_surroundings(old(self), final(self)),
    {
        loop
            invariant
                spec_activate_most_right(self@) == spec_activate_most_right(old(self)@),
                Self::same_surroundings(old(self), self),
            ensures
                self@ == spec_activate_most_right(old(self)@),
                Self::same_surroundings(old(self), self),
            decreases self@.right.len(),
        {
            if !self.activate_right() {
                break ;
            }
        }
    }

    /// Navigate to the nearest child page.
    ///
    /// If there are no children it returns false and the cursor is
    /// unchanged.
    pub fn activate_down(&mut self) -> (r: bool)
        ensures
            r == (old(self)@.down.len() > 0),
            final(self)@ == spec_activate_down(old(self)@),
            Self::same_surroundings(old(self), final(self)),
    {
        proof {
            lemma_lev_chain_view_len(self.down@);
        }
        match self.down.pop() {
            None => false,
            Some(node) => {
                let mut node = node;
                proof {
                    lemma_lev_chain_view_pop(old(self).down@);
                }
                core::mem::swap(&mut self.page, &mut node.page);
                core::mem::swap(&mut self.left, &mut node.left);
                core::mem::swap(&mut self.right, &mut node.right);
                self.up.push(node);
                proof {
                    lemma_lev_chain_view_push(old(self).up@, self.up@.last());
                    assert(self@ =~= spec_activate_down(old(self)@));
                }
                true
            },
        }
    }

    /// Navigate one level up.
    ///
    /// The manager always ascends from the rightmost sibling of the level
    /// being left, so the current level is normalized by walking right
    /// first. If there is no level above, it returns false and only the
    /// normalization has happened.
    pub fn activate_up(&mut self) -> (r: bool)
        ensures
            r == (spec_activate_most_right(old(self)@).up.len() > 0),
            final(self)@ == spec_activate_up(old(self)@),
            Self::same_surroundings(old(self), final(self)),
    {
        self.activate_most_right();
        let ghost mid = *self;
        proof {
            lemma_most_right_shape(old(self)@);
            lemma_lev_chain_view_len(self.up@);
        }
        match self.up.pop() {
            None => false,
            Some(node) => {
                let mut node = node;
                proof {
                    lemma_lev_chain_view_pop(mid.up@);
                }
                core::mem::swap(&mut self.page, &mut node.page);
                core::mem::swap(&mut self.left, &mut node.left);
                core::mem::swap(&mut self.right, &mut node.right);
                self.down.push(node);
                proof {
                    lemma_lev_chain_view_push(mid.down@, self.down@.last());
                    assert(mid@.right =~= Seq::<SiblingView<P>>::empty());
                    assert(self@ =~= spec_activate_up(old(self)@));
                }
                true
            },
        }
    }

    /// Navigate to the home page: ascend to the top level, then walk to the
    /// rightmost sibling of that level.
    pub fn activate_home(&mut self)
        ensures
            final(self)@ == spec_activate_home(old(self)@),
            Self::same_surroundings(old(self), final(self)),
    {
        loop
            invariant
                spec_activate_home(self@) == spec_activate_home(old(self)@),
                Self::same_surroundings(old(self), self),
            ensures
                self@ == spec_activate_home(old(self)@),
                self@.right.len() == 0,
                Self::same_surroundings(old(self), self),
            decreases up_weight(self@),
        {
            proof {
                if spec_activate_most_right(self@).up.len() > 0 {
                    lemma_up_weight_up(self@);
                } else {
                    lemma_most_right_shape(self@);
                }
            }
            if !self.activate_up() {
                break ;
            }
        }
        self.activate_most_right();
    }

    /// Register a new page
    ///
    /// The page is registered in the "left" direction of the active page.
    /// The registered page will be the new active page. The page it
    /// displaces keeps its ancestor and child context, stashed on the right
    /// chain; the new page starts with no context of its own.
    ///
    /// Arguments
    ///
    /// * `page` - The page to be registered and activated.
    pub fn register(&mut self, page: P)
        ensures
            final(self)@ == (ManagerView {
                page: page,
                left: old(self)@.left,
                right: old(self)@.right.push(
                    SiblingView {
                        page: old(self)@.page,
                        up: old(self)@.up,
                        down: old(self)@.down,
                    },
                ),
                up: Seq::<LevelView<P>>::empty(),
                down: Seq::<LevelView<P>>::empty(),
            }),
            Self::same_surroundings(old(self), final(self)),
            wf_manager(old(self)@) ==> wf_manager(final(self)@),
            page_count(final(self)@) == page_count(old(self)@) + 1,
    {
        proof {
            lemma_page_count_sibs_push(
                self@.right,
                SiblingView { page: self@.page, up: self@.up, down: self@.down },
            );
            assert(page_count_levs(Seq::<LevelView<P>>::empty()) == 0);
            if wf_manager(self@) {
                lemma_wf_sibs_push(
                    self@.right,
                    SiblingView { page: self@.page, up: self@.up, down: self@.down },
                );
                assert(wf_sibs(Seq::<SiblingView<P>>::empty()));
                assert(wf_levs_up(Seq::<LevelView<P>>::empty()));
                assert(wf_levs_down(Seq::<LevelView<P>>::empty()));
            }
        }
        self.left.push(SiblingNode { page, up: Vec::new(), down: Vec::new() });
        proof {
            lemma_sib_chain_view_push(old(self).left@, self.left@.last());
        }
        self.activate_left();
        proof {
            assert(old(self)@.left.push(
                SiblingView {
                    page: self@.page,
                    up: Seq::<LevelView<P>>::empty(),
                    down: Seq::<LevelView<P>>::empty(),
                },
            ).drop_last() =~= old(self)@.left);
            assert(self@.up =~= Seq::<LevelView<P>>::empty());
            assert(self@.down =~= Seq::<LevelView<P>>::empty());
        }
    }

    /// Register a new sub page
    ///
    /// The page is registered in the "down" direction of the active page.
    /// The registered page will be the new active page; the level left
    /// behind is stashed on the `up` chain.
    ///
    /// Arguments
    ///
    /// * `page` - The page to be registered and activated.
    pub fn register_sub(&mut self, page: P)
        ensures
            final(self)@ == (ManagerView {
                page: page,
                left: Seq::<SiblingView<P>>::empty(),
                right: Seq::<SiblingView<P>>::empty(),
                up: old(self)@.up.push(
                    LevelView {
                        page: old(self)@.page,
                        left: old(self)@.left,
                        right: old(self)@.right,
                    },
                ),
                down: old(self)@.down,
            }),
            Self::same_surroundings(old(self), final(self)),
            wf_manager(old(self)@) ==> wf_manager(final(self)@),
            page_count(final(self)@) == page_count(old(self)@) + 1,
    {
        proof {
            lemma_page_count_levs_push(
                self@.up,
                LevelView { page: self@.page, left: self@.left, right: self@.right },
            );
            assert(page_count_sibs(Seq::<SiblingView<P>>::empty()) == 0);
            if wf_manager(self@) {
                lemma_wf_levs_up_push(
                    self@.up,
                    LevelView { page: self@.page, left: self@.left, right: self@.right },
                );
                assert(wf_sibs(Seq::<SiblingView<P>>::empty()));
                assert(wf_levs_down(Seq::<LevelView<P>>::empty()));
            }
        }
        self.down.push(LevelNode { page, left: Vec::new(), right: Vec::new() });
        proof {
            lemma_lev_chain_view_push(old(self).down@, self.down@.last());
        }
        self.activate_down();
        proof {
            assert(old(self)@.down.push(
                LevelView {
                    page: self@.page,
                    left: Seq::<SiblingView<P>>::empty(),
                    right: Seq::<SiblingView<P>>::empty(),
                },
            ).drop_last() =~= old(self)@.down);
            assert(self@.left =~= Seq::<SiblingView<P>>::empty());
            assert(self@.right =~= Seq::<SiblingView<P>>::empty());
        }
    }

    /// Register a startup page
    ///
    /// There can be just one startup page. Multiple calls to this function
    /// overwrite the previously set startup page.
    ///
    /// Arguments
    ///
    /// * `page` - The page that should serve for startup.
    pub fn register_startup(&mut self, page: P)
        ensures
            final(self).spec_startup() == Some(page),
            final(self)@ == old(self)@,
            final(self).spec_state() == old(self).spec_state(),
            final(self).spec_shutdown() == old(self).spec_shutdown(),
            final(self).spec_display() == old(self).spec_display(),
    {
        self.startup = Some(page);
    }

    /// The run state the dispatch state machine enters after reporting a
    /// navigation result.
    pub open spec fn spec_state_after(nav: PageNavigation) -> PageManagerState {
        match nav {
            PageNavigation::SystemStart => PageManagerState::Startup,
            PageNavigation::SystemStop => PageManagerState::Shutdown,
            _ => PageManagerState::Operational,
        }
    }

    /// The titles of the current child row: the nearest child first, then
    /// that child's stashed left siblings from the nearest outward.
    fn collect_sub_titles(&self) -> (r: Vec<String>)
        ensures
            r@.len() == if self@.down.len() == 0 {
                0int
            } else {
                1int + self@.down.last().left.len()
            },
    {
        let mut out: Vec<String> = Vec::new();
        if self.down.len() > 0 {
            proof {
                lemma_lev_chain_view_pop(self.down@);
            }
            let node = &self.down[self.down.len() - 1];
            out.push(node.page.title().to_owned());
            proof {
                lemma_sib_chain_view_len(node.left@);
            }
            let mut i: usize = node.left.len();
            while i > 0
                invariant
                    i <= node.left@.len(),
                    out@.len() == 1 + (node.left@.len() - i),
                decreases i,
            {
                i = i - 1;
                out.push(node.left[i].page.title().to_owned());
            }
        }
        out
    }

    /// Execute one movement directive against the cursor. A `Left` at the
    /// left end of a row wraps around to the rightmost sibling; the other
    /// moves stop at their boundary. `NthSubpage` descends once and then
    /// moves left, clamped at the leftmost child.
    fn execute_move(&mut self, navigation: PageNavigation)
        ensures
            Self::same_surroundings(old(self), final(self)),
            final(self)@ == spec_execute_move(old(self)@, navigation),
            wf_manager(old(self)@) ==> wf_manager(final(self)@),
            page_count(final(self)@) == page_count(old(self)@),
    {
        proof {
            lemma_page_count_left(self@);
            lemma_page_count_right(self@);
            lemma_page_count_up(self@);
            lemma_page_count_home(self@);
            lemma_page_count_most_right(self@);
            match navigation {
                PageNavigation::NthSubpage(index) => lemma_page_count_nth_subpage(self@, index),
                _ => (),
            }
            if wf_manager(self@) {
                if self@.left.len() == 0 {
                    lemma_most_right_shape(self@);
                    lemma_wf_most_right(self@);
                } else {
                    lemma_wf_activate_left(self@);
                }
                lemma_wf_activate_right(self@);
                lemma_wf_activate_up(self@);
                lemma_wf_activate_home(self@);
                match navigation {
                    PageNavigation::NthSubpage(index) => lemma_wf_nth_subpage(self@, index),
                    _ => (),
                }
            }
        }
        match navigation {
            PageNavigation::Left => {
                // when navigating left, we turn around at the end, in case
                // there is no previous page
                if !self.activate_left() {
                    self.activate_most_right();
                }
            },
            PageNavigation::Right => {
                self.activate_right();
            },
            PageNavigation::Home => {
                self.activate_home();
            },
            PageNavigation::Up => {
                self.activate_up();
            },
            PageNavigation::NthSubpage(index) => {
                self.activate_down();
                let ghost descended = self@;
                let ghost done: nat = 0nat;
                let mut remaining: usize = index;
                while remaining > 1
                    invariant
                        Self::same_surroundings(old(self), self),
                        self@ == spec_left_times(descended, done),
                        index <= 1 ==> done == 0 && remaining == index,
                        index > 1 ==> done + remaining == index && 1 <= remaining,
                    decreases remaining,
                {
                    proof {
                        lemma_left_times_outer(descended, done);
                    }
                    self.activate_left();
                    proof {
                        done = done + 1;
                    }
                    remaining = remaining - 1;
                }
            },
            _ => {},
        }
    }

    /// Update the content of the active page on the display.
    ///
    /// The active page decides what an update tick means: it may answer
    /// with a further navigation directive, which is executed before the
    /// display is refreshed, and the page then active is asked in turn.
    /// Each page asked for an update is owed one display refresh once the
    /// chain has settled.
    ///
    /// An update error of a page ends the chain at once and propagates to
    /// the caller.
    pub fn update(&mut self) -> (r: Result<(), PageError>)
        ensures
            wf_manager(old(self)@) ==> wf_manager(final(self)@),
            page_count(final(self)@) == page_count(old(self)@),
            spec_chain_reachable(old(self)@, final(self)@, UPDATE_CHAIN_LIMIT as nat),
            final(self).spec_startup() is Some <==> old(self).spec_startup() is Some,
            final(self).spec_shutdown() is Some <==> old(self).spec_shutdown() is Some,
    {
        let mut owed: usize = 0;
        let mut fuel: usize = UPDATE_CHAIN_LIMIT;
        proof {
            lemma_chain_reachable_refl(self@, 0nat);
        }
        loop
            invariant_except_break
                owed + fuel == UPDATE_CHAIN_LIMIT,
                fuel >= 1,
            invariant
                fuel <= UPDATE_CHAIN_LIMIT,
                wf_manager(old(self)@) ==> wf_manager(self@),
                page_count(self@) == page_count(old(self)@),
                spec_chain_reachable(old(self)@, self@, (UPDATE_CHAIN_LIMIT - fuel) as nat),
                self.spec_startup() is Some <==> old(self).spec_startup() is Some,
                self.spec_shutdown() is Some <==> old(self).spec_shutdown() is Some,
            ensures
                wf_manager(old(self)@) ==> wf_manager(self@),
                page_count(self@) == page_count(old(self)@),
                spec_chain_reachable(old(self)@, self@, UPDATE_CHAIN_LIMIT as nat),
                self.spec_startup() is Some <==> old(self).spec_startup() is Some,
                self.spec_shutdown() is Some <==> old(self).spec_shutdown() is Some,
            decreases fuel,
        {
            let ghost at_entry = self@;
            let ghost spent: nat = (UPDATE_CHAIN_LIMIT - fuel) as nat;
            let titles = self.collect_sub_titles();
            let navigation = match self.page.update(Some(&titles)) {
                Ok(n) => n,
                Err(e) => {
                    proof {
                        lemma_chain_reachable_replace(old(self)@, at_entry, self@.page, spent);
                        lemma_chain_reachable_mono(
                            old(self)@,
                            self@,
                            spent,
                            UPDATE_CHAIN_LIMIT as nat,
                        );
                    }
                    return Err(e);
                },
            };
            proof {
                assert(self@ == spec_with_page(at_entry, self@.page));
                lemma_chain_reachable_replace(old(self)@, at_entry, self@.page, spent);
            }
            owed = owed + 1;
            fuel = fuel - 1;
            proof {
                lemma_chain_reachable_mono(
                    old(self)@,
                    self@,
                    spent,
                    (UPDATE_CHAIN_LIMIT - fuel) as nat,
                );
            }
            match navigation {
                PageNavigation::Update => {
                    proof {
                        lemma_chain_reachable_mono(
                            old(self)@,
                            self@,
                            (UPDATE_CHAIN_LIMIT - fuel) as nat,
                            UPDATE_CHAIN_LIMIT as nat,
                        );
                    }
                    break ;
                },
                PageNavigation::SystemStart => {
                    // reset the ordinary page structure to home in case
                    // there is no startup page
                    proof {
                        if wf_manager(self@) {
                            lemma_wf_activate_home(self@);
                        }
                        lemma_page_count_home(self@);
                        lemma_chain_reachable_extend(
                            old(self)@,
                            at_entry,
                            self@.page,
                            PageNavigation::Home,
                            spent,
                        );
                        assert(spec_activate_home(self@) == spec_execute_move(
                            spec_with_page(at_entry, self@.page),
                            PageNavigation::Home,
                        ));
                    }
                    self.activate_home();
                    let mut next = PageNavigation::SystemStart;
                    proof {
                        lemma_chain_reachable_mono(
                            old(self)@,
                            self@,
                            (UPDATE_CHAIN_LIMIT - fuel) as nat,
                            UPDATE_CHAIN_LIMIT as nat,
                        );
                    }
                    if let Some(st) = &mut self.startup {
                        next = match st.update(None) {
                            Ok(n) => n,
                            Err(e) => {
                                return Err(e);
                            },
                        };
                        st.display(&mut self.display);
                    }
                    self.state = Self::exec_state_after(next);
                    break ;
                },
                PageNavigation::SystemStop => {
                    let mut next = PageNavigation::SystemStop;
                    proof {
                        lemma_chain_reachable_mono(
                            old(self)@,
                            self@,
                            (UPDATE_CHAIN_LIMIT - fuel) as nat,
                            UPDATE_CHAIN_LIMIT as nat,
                        );
                    }
                    if let Some(sd) = &mut self.shutdown {
                        next = match sd.update(None) {
                            Ok(n) => n,
                            Err(e) => {
                                return Err(e);
                            },
                        };
                        sd.display(&mut self.display);
                    }
                    self.state = Self::exec_state_after(next);
                    break ;
                },
                _ => {
                    proof {
                        lemma_chain_reachable_extend(
                            old(self)@,
                            at_entry,
                            self@.page,
                            navigation,
                            spent,
                        );
                    }
                    self.execute_move(navigation);
                    self.state = PageManagerState::Operational;
                },
            }
            if fuel == 0 {
                // the chain is cut off: see UPDATE_CHAIN_LIMIT
                proof {
                    lemma_chain_reachable_mono(
                        old(self)@,
                        self@,
                        (UPDATE_CHAIN_LIMIT - fuel) as nat,
                        UPDATE_CHAIN_LIMIT as nat,
                    );
                }
                break ;
            }
        }
        while owed > 0
            invariant
                wf_manager(old(self)@) ==> wf_manager(self@),
                page_count(self@) == page_count(old(self)@),
                spec_chain_reachable(old(self)@, self@, UPDATE_CHAIN_LIMIT as nat),
                self.spec_startup() is Some <==> old(self).spec_startup() is Some,
                self.spec_shutdown() is Some <==> old(self).spec_shutdown() is Some,
            decreases owed,
        {
            self.page.display(&mut self.display);
            owed = owed - 1;
        }
        Ok(())
    }

    /// The executable twin of [`Self::spec_state_after`].
    fn exec_state_after(nav: PageNavigation) -> (r: PageManagerState)
        ensures
            r == Self::spec_state_after(nav),
    {
        match nav {
            PageNavigation::SystemStart => PageManagerState::Startup,
            PageNavigation::SystemStop => PageManagerState::Shutdown,
            _ => PageManagerState::Operational,
        }
    }

    /// Dispatch an interaction event
    ///
    /// Routes the interaction to the page responsible for the current run
    /// state - the startup page while starting, the shutdown page while
    /// stopping, the active page otherwise - and executes the navigation
    /// directive that page answers with.
    ///
    /// Arguments
    ///
    /// * `interaction` - The interaction event to dispatch
    pub fn dispatch_interaction(&mut self, interaction: Interaction) -> (r: Result<
        PageNavigation,
        PageError,
    >)
        ensures
            r matches Ok(n) ==> final(self).spec_state() == Self::spec_state_after(n),
            final(self).spec_startup() is Some <==> old(self).spec_startup() is Some,
            final(self).spec_shutdown() is Some <==> old(self).spec_shutdown() is Some,
            wf_manager(old(self)@) ==> wf_manager(final(self)@),
            page_count(final(self)@) == page_count(old(self)@),
            spec_chain_reachable(old(self)@, final(self)@, (UPDATE_CHAIN_LIMIT + 1) as nat),
    {
        let navigation = match self.state {
            PageManagerState::Startup => match &mut self.startup {
                None => self.page.dispatch(interaction),
                Some(x) => x.dispatch(interaction),
            },
            PageManagerState::Operational => self.page.dispatch(interaction),
            PageManagerState::Shutdown => match &mut self.shutdown {
                None => self.page.dispatch(interaction),
                Some(x) => x.dispatch(interaction),
            },
        };
        let ghost mid = self@;
        proof {
            assert(mid =~= spec_with_page(old(self)@, mid.page));
        }
        let r = self.dispatch(navigation);
        proof {
            assert(spec_with_page(mid, mid.page) =~= mid);
            if navigation is SystemStart {
                lemma_chain_reachable_refl(self@, 0nat);
                assert(spec_chain_reachable(
                    spec_execute_move(spec_with_page(mid, mid.page), PageNavigation::Home),
                    self@,
                    0nat,
                ));
                assert(spec_chain_reachable(mid, self@, 1nat));
                lemma_chain_reachable_mono(mid, self@, 1nat, (UPDATE_CHAIN_LIMIT + 1) as nat);
            } else if navigation is SystemStop {
                lemma_chain_reachable_refl(self@, (UPDATE_CHAIN_LIMIT + 1) as nat);
            } else {
                assert(spec_chain_reachable(
                    spec_execute_move(spec_with_page(mid, mid.page), navigation),
                    self@,
                    UPDATE_CHAIN_LIMIT as nat,
                ));
                assert(spec_chain_reachable(mid, self@, (UPDATE_CHAIN_LIMIT + 1) as nat));
            }
            lemma_chain_reachable_after_replace(
                old(self)@,
                self@,
                mid.page,
                (UPDATE_CHAIN_LIMIT + 1) as nat,
            );
        }
        r
    }

    /// Dispatch a navigation event
    ///
    /// A movement directive is executed against the cursor and the then
    /// active page is updated; the result reported back is `Update`, the
    /// move having been fully applied. `SystemStart` resets the cursor to
    /// home and runs the startup page, `SystemStop` runs the shutdown page;
    /// both report that page's answer back without executing it, or the
    /// event itself when no such page is registered. The run state
    /// afterwards is determined by the reported result.
    ///
    /// Arguments
    ///
    /// * `navigation` - The navigation event to dispatch
    pub fn dispatch(&mut self, navigation: PageNavigation) -> (r: Result<
        PageNavigation,
        PageError,
    >)
        ensures
            r matches Ok(n) ==> final(self).spec_state() == Self::spec_state_after(n),
            r matches Ok(n) ==> match navigation {
                PageNavigation::SystemStart => old(self).spec_startup() is None
                    ==> n == PageNavigation::SystemStart,
                PageNavigation::SystemStop => old(self).spec_shutdown() is None
                    ==> n == PageNavigation::SystemStop,
                _ => n == PageNavigation::Update,
            },
            navigation is SystemStart && old(self).spec_startup() is None ==> r == Ok::<
                PageNavigation,
                PageError,
            >(PageNavigation::SystemStart),
            navigation is SystemStop && old(self).spec_shutdown() is None ==> r == Ok::<
                PageNavigation,
                PageError,
            >(PageNavigation::SystemStop),
            navigation is SystemStart ==> final(self)@ == spec_activate_home(old(self)@),
            navigation is SystemStop ==> final(self)@ == old(self)@,
            !(navigation is SystemStart) && !(navigation is SystemStop)
                ==> spec_chain_reachable(
                spec_execute_move(old(self)@, navigation),
                final(self)@,
                UPDATE_CHAIN_LIMIT as nat,
            ),
            final(self).spec_startup() is Some <==> old(self).spec_startup() is Some,
            final(self).spec_shutdown() is Some <==> old(self).spec_shutdown() is Some,
            wf_manager(old(self)@) ==> wf_manager(final(self)@),
            page_count(final(self)@) == page_count(old(self)@),
    {
        let mut navigation = navigation;
        match navigation {
            PageNavigation::SystemStart => {
                // reset the ordinary page structure to home in case there
                // is no startup page
                proof {
                    if wf_manager(self@) {
                        lemma_wf_activate_home(self@);
                    }
                    lemma_page_count_home(self@);
                }
                self.activate_home();
                if let Some(page) = &mut self.startup {
                    navigation = match page.update(None) {
                        Ok(n) => n,
                        Err(e) => {
                            return Err(e);
                        },
                    };
                    page.display(&mut self.display);
                }
            },
            PageNavigation::SystemStop => {
                if let Some(page) = &mut self.shutdown {
                    navigation = match page.update(None) {
                        Ok(n) => n,
                        Err(e) => {
                            return Err(e);
                        },
                    };
                    page.display(&mut self.display);
                }
            },
            PageNavigation::Update => {
                let res = self.update();
                if let Err(e) = res {
                    return Err(e);
                }
            },
            _ => {
                self.execute_move(navigation);
                let res = self.update();
                if let Err(e) = res {
                    return Err(e);
                }
                navigation = PageNavigation::Update;
            },
        }
        // keep the internal state for correct HMI interaction routing
        self.state = Self::exec_state_after(navigation);
        Ok(navigation)
    }

    /// Register a shutdown page
    ///
    /// There can be just one shutdown page. Multiple calls to this function
    /// overwrite the previously set shutdown page.
    ///
    /// Arguments
    ///
    /// * `page` - The page that should serve for shutdown.
    pub fn register_shutdown(&mut self, page: P)
        ensures
            final(self).spec_shutdown() == Some(page),
            final(self)@ == old(self)@,
            final(self).spec_state() == old(self).spec_state(),
            final(self).spec_startup() == old(self).spec_startup(),
            final(self).spec_display() == old(self).spec_display(),
    {
        self.shutdown = Some(page);
    }
}

/// The children of the active page, in walk order: the nearest entry of
/// the down chain first, then that entry's stashed left siblings from the
/// nearest outward. After a `Home` or `Up` normalization this is exactly
/// the registration order of the children.
pub open spec fn spec_children<P>(v: ManagerView<P>) -> Seq<P> {
    if v.down.len() == 0 {
        Seq::empty()
    } else {
        seq![v.down.last().page] + Seq::new(
            v.down.last().left.len(),
            |i: int| v.down.last().left[v.down.last().left.len() - 1 - i].page,
        )
    }
}

/// A read-only walk over the current children of the active page, for
/// diagnostics and testing: first the nearest child, then that child's
/// stashed left siblings from the nearest outward - the same order in which
/// the subpage titles are handed to the active page on an update tick.
pub struct SubPageIterator<'a, P> {
    node: Option<&'a LevelNode<P>>,
    fresh: bool,
    index: usize,
}

impl<'a, P> SubPageIterator<'a, P> {
    /// All the pages of the child row, in walk order.
    pub closed spec fn spec_full(&self) -> Seq<P> {
        match self.node {
            None => Seq::empty(),
            Some(n) => seq![n.page] + Seq::new(
                n.left@.len(),
                |i: int| n.left@[n.left@.len() - 1 - i].page,
            ),
        }
    }

    /// The pages the walk has not yielded yet.
    pub closed spec fn spec_remaining(&self) -> Seq<P> {
        match self.node {
            None => Seq::empty(),
            Some(n) => if self.fresh || self.index > n.left@.len() {
                self.spec_full()
            } else {
                self.spec_full().skip(self.spec_full().len() - self.index)
            },
        }
    }

    /// Yield the next child page, front to back.
    pub fn next(&mut self) -> (r: Option<&'a P>)
        ensures
            old(self).spec_remaining().len() == 0 ==> r is None && final(self).spec_remaining()
                == old(self).spec_remaining(),
            old(self).spec_remaining().len() > 0 ==> (r matches Some(p) && *p == old(
                self,
            ).spec_remaining()[0]) && final(self).spec_remaining() == old(
                self,
            ).spec_remaining().drop_first(),
    {
        match self.node {
            None => None,
            Some(n) => {
                proof {
                    assert(self.spec_full().len() == 1 + n.left@.len());
                }
                if self.fresh {
                    self.fresh = false;
                    self.index = n.left.len();
                    proof {
                        assert(final(self).spec_remaining() =~= old(
                            self,
                        ).spec_full().drop_first());
                    }
                    Some(&n.page)
                } else if self.index == 0 {
                    None
                } else if self.index > n.left.len() {
                    // not reachable from a freshly built walk; start over
                    self.fresh = false;
                    self.index = n.left.len();
                    proof {
                        assert(final(self).spec_remaining() =~= old(
                            self,
                        ).spec_full().drop_first());
                    }
                    Some(&n.page)
                } else {
                    self.index = self.index - 1;
                    proof {
                        assert(final(self).spec_remaining() =~= old(
                            self,
                        ).spec_remaining().drop_first());
                    }
                    Some(&n.left[self.index].page)
                }
            },
        }
    }
}

impl<D, P: PageInterface<D>> PageManager<D, P> {
    /// Read-only iteration over the current children of the active page:
    /// the walk yields exactly [`spec_children`] of the cursor, front to
    /// back, and borrows the manager unchanged.
    pub fn sub_iter(&self) -> (it: SubPageIterator<'_, P>)
        ensures
            it.spec_remaining() == spec_children(self@),
    {
        if self.down.len() > 0 {
            proof {
                lemma_lev_chain_view_pop(self.down@);
            }
            let node = &self.down[self.down.len() - 1];
            proof {
                lemma_sib_chain_view_len(node.left@);
            }
            let it = SubPageIterator { node: Some(node), fresh: true, index: 0 };
            proof {
                assert forall|i: int| 0 <= i < node.left@.len() implies sib_chain_view(
                    node.left@,
                )[i].page == node.left@[i].page by {
                    lemma_sib_chain_view_index(node.left@, i);
                }
                assert(it.spec_remaining() =~= spec_children(self@));
            }
            it
        } else {
            let it = SubPageIterator { node: None, fresh: true, index: 0 };
            proof {
                assert(it.spec_remaining() =~= spec_children(self@));
            }
            it
        }
    }
}

} // verus!
