//! What holds of pane trees whatever is done to them.

use vstd::prelude::*;
use crate::geometry::{Axis, Dir, Rect};
use crate::ids::TerminalId;
use crate::pane::{
    blanks, distinct, filled, first_pane, halves, has_leaf, heir, is_pane, latest_pane,
    layout_blanks, layout_of, node_of, pane_count, pane_showing, payload_at, placed, preferred,
    reachable, resized, rest, slot_of, split_at, splits_along, stamp, target_among, with_payload,
    without, Layout, Node, PaneId, Placement, TreeView,
};
use crate::ratio::{Adjust, RATIO_MAX, RATIO_MIN};

verus! {

// --- the panes of the changed nodes ---

proof fn first_pane_is_a_leaf<P>(node: Node<P>)
    ensures
        has_leaf(node, first_pane(node)),
    decreases node,
{
    match node {
        Node::Leaf { .. } => {},
        Node::Split { first, .. } => {
            first_pane_is_a_leaf(*first);
        },
    }
}

pub(crate) proof fn latest_pane_is_a_leaf<P>(node: Node<P>, stamps: Map<PaneId, u64>)
    ensures
        has_leaf(node, latest_pane(node, stamps)),
    decreases node,
{
    match node {
        Node::Leaf { .. } => {},
        Node::Split { first, second, .. } => {
            latest_pane_is_a_leaf(*first, stamps);
            latest_pane_is_a_leaf(*second, stamps);
        },
    }
}

pub(crate) proof fn pane_showing_is_a_leaf<P>(node: Node<P>, payload: P)
    ensures
        pane_showing(node, payload) is Some ==> has_leaf(node, pane_showing(node, payload)->0),
    decreases node,
{
    match node {
        Node::Leaf { .. } => {},
        Node::Split { first, second, .. } => {
            pane_showing_is_a_leaf(*first, payload);
            pane_showing_is_a_leaf(*second, payload);
        },
    }
}

proof fn with_payload_keeps_panes<P>(node: Node<P>, id: PaneId, payload: Option<P>)
    ensures
        forall|k: PaneId|
            #[trigger] has_leaf(with_payload(node, id, payload), k) == has_leaf(node, k),
        distinct(node) ==> distinct(with_payload(node, id, payload)),
    decreases node,
{
    match node {
        Node::Leaf { .. } => {
            reveal_with_fuel(has_leaf, 2);
        },
        Node::Split { first, second, .. } => {
            with_payload_keeps_panes(*first, id, payload);
            with_payload_keeps_panes(*second, id, payload);
            let out = with_payload(node, id, payload);
            assert forall|k: PaneId| #[trigger] has_leaf(out, k) == has_leaf(node, k) by {
                assert(has_leaf(with_payload(*first, id, payload), k) == has_leaf(*first, k));
                assert(has_leaf(with_payload(*second, id, payload), k) == has_leaf(*second, k));
            }
        },
    }
}

proof fn filled_keeps_panes<P>(node: Node<P>, supply: Seq<P>)
    ensures
        forall|k: PaneId| #[trigger] has_leaf(filled(node, supply), k) == has_leaf(node, k),
        distinct(node) ==> distinct(filled(node, supply)),
    decreases node,
{
    match node {
        Node::Leaf { .. } => {
            reveal_with_fuel(has_leaf, 2);
        },
        Node::Split { first, second, .. } => {
            filled_keeps_panes(*first, supply);
            let other = rest(supply, blanks(*first));
            filled_keeps_panes(*second, other);
            let out = filled(node, supply);
            assert forall|k: PaneId| #[trigger] has_leaf(out, k) == has_leaf(node, k) by {
                assert(has_leaf(filled(*first, supply), k) == has_leaf(*first, k));
                assert(has_leaf(filled(*second, other), k) == has_leaf(*second, k));
            }
        },
    }
}

pub(crate) proof fn resized_keeps_panes<P>(node: Node<P>, id: PaneId, axis: Axis, how: Adjust)
    ensures
        forall|k: PaneId| #[trigger] has_leaf(resized(node, id, axis, how), k) == has_leaf(node, k),
        distinct(node) ==> distinct(resized(node, id, axis, how)),
    decreases node,
{
    match node {
        Node::Leaf { .. } => {
            reveal_with_fuel(has_leaf, 2);
        },
        Node::Split { first, second, .. } => {
            resized_keeps_panes(*first, id, axis, how);
            resized_keeps_panes(*second, id, axis, how);
            let out = resized(node, id, axis, how);
            assert forall|k: PaneId| #[trigger] has_leaf(out, k) == has_leaf(node, k) by {
                assert(has_leaf(resized(*first, id, axis, how), k) == has_leaf(*first, k));
                assert(has_leaf(resized(*second, id, axis, how), k) == has_leaf(*second, k));
            }
        },
    }
}

pub(crate) proof fn split_of_absent<P>(node: Node<P>, target: PaneId, axis: Axis, new_id: PaneId)
    requires
        !has_leaf(node, target),
    ensures
        split_at(node, target, axis, new_id) == node,
    decreases node,
{
    match node {
        Node::Leaf { .. } => {},
        Node::Split { first, second, .. } => {
            split_of_absent(*first, target, axis, new_id);
            split_of_absent(*second, target, axis, new_id);
        },
    }
}

pub(crate) proof fn split_adds_a_pane<P>(node: Node<P>, target: PaneId, axis: Axis, new_id: PaneId)
    requires
        distinct(node),
        has_leaf(node, target),
        !has_leaf(node, new_id),
    ensures
        forall|k: PaneId| #[trigger]
            has_leaf(split_at(node, target, axis, new_id), k) == (has_leaf(node, k) || k == new_id),
        distinct(split_at(node, target, axis, new_id)),
    decreases node,
{
    match node {
        Node::Leaf { id, payload } => {
            let a = Node::Leaf { id, payload };
            let b = Node::<P>::Leaf { id: new_id, payload: None };
            reveal_with_fuel(has_leaf, 2);
            assert(has_leaf(node, new_id) == (id == new_id));
            let out = split_at(node, target, axis, new_id);
            assert forall|k: PaneId| #[trigger]
                has_leaf(out, k) == (has_leaf(node, k) || k == new_id) by {
                assert(has_leaf(a, k) == (id == k));
                assert(has_leaf(b, k) == (new_id == k));
            }
            assert forall|k: PaneId| !(#[trigger] has_leaf(a, k) && has_leaf(b, k)) by {}
            assert(distinct(a));
            assert(distinct(b));
        },
        Node::Split { first, second, .. } => {
            assert(!has_leaf(*first, new_id) && !has_leaf(*second, new_id));
            if has_leaf(*first, target) {
                assert(!has_leaf(*second, target));
                split_adds_a_pane(*first, target, axis, new_id);
                split_of_absent(*second, target, axis, new_id);
            } else {
                split_adds_a_pane(*second, target, axis, new_id);
                split_of_absent(*first, target, axis, new_id);
            }
            let out = split_at(node, target, axis, new_id);
            let (f, s) = (split_at(*first, target, axis, new_id), split_at(*second, target, axis, new_id));
            assert forall|k: PaneId| #[trigger]
                has_leaf(out, k) == (has_leaf(node, k) || k == new_id) by {
                assert(has_leaf(out, k) == (has_leaf(f, k) || has_leaf(s, k)));
            }
            assert forall|k: PaneId| !(#[trigger] has_leaf(f, k) && has_leaf(s, k)) by {
                assert(!(has_leaf(*first, k) && has_leaf(*second, k)));
            }
        },
    }
}

pub(crate) proof fn without_absent<P>(node: Node<P>, target: PaneId)
    requires
        !has_leaf(node, target),
    ensures
        without(node, target) == Some(node),
        heir(node, target) is None,
    decreases node,
{
    match node {
        Node::Leaf { .. } => {},
        Node::Split { first, second, .. } => {
            without_absent(*first, target);
            without_absent(*second, target);
        },
    }
}

/// Closing a pane takes away that pane and no other, and the focus finds a pane that is left.
pub proof fn closing_takes_one_pane<P>(node: Node<P>, target: PaneId)
    requires
        distinct(node),
        has_leaf(node, target),
    ensures
        without(node, target) is None <==> is_pane(node, target),
        without(node, target) matches Some(left) ==> {
            &&& distinct(left)
            &&& forall|k: PaneId| #[trigger]
                has_leaf(left, k) == (has_leaf(node, k) && k != target)
            &&& heir(node, target) matches Some(next) && has_leaf(left, next)
        },
    decreases node,
{
    match node {
        Node::Leaf { .. } => {},
        Node::Split { first, second, .. } => {
            if is_pane(*first, target) {
                first_pane_is_a_leaf(*second);
                assert(has_leaf(*first, target));
                assert(!has_leaf(*second, target));
                assert forall|k: PaneId| #[trigger]
                    has_leaf(*second, k) == (has_leaf(node, k) && k != target) by {
                    assert(has_leaf(*first, k) == (k == target));
                }
            } else if is_pane(*second, target) {
                first_pane_is_a_leaf(*first);
                assert(has_leaf(*second, target));
                assert(!has_leaf(*first, target));
                assert forall|k: PaneId| #[trigger]
                    has_leaf(*first, k) == (has_leaf(node, k) && k != target) by {
                    assert(has_leaf(*second, k) == (k == target));
                }
            } else if has_leaf(*first, target) {
                assert(!has_leaf(*second, target));
                closing_takes_one_pane(*first, target);
                without_absent(*second, target);
                let left = without(node, target)->0;
                assert(left is Split);
                assert forall|k: PaneId| #[trigger]
                    has_leaf(left, k) == (has_leaf(node, k) && k != target) by {
                    assert(has_leaf(without(*first, target)->0, k) == (has_leaf(*first, k) && k
                        != target));
                }
                assert(heir(*first, target) is Some);
                assert(has_leaf(left, heir(*first, target)->0));
            } else {
                closing_takes_one_pane(*second, target);
                without_absent(*first, target);
                let left = without(node, target)->0;
                assert forall|k: PaneId| #[trigger]
                    has_leaf(left, k) == (has_leaf(node, k) && k != target) by {
                    assert(has_leaf(without(*second, target)->0, k) == (has_leaf(*second, k) && k
                        != target));
                }
                assert(has_leaf(left, heir(*second, target)->0));
            }
        },
    }
}

// --- what every operation keeps ---

pub(crate) proof fn focus_on_keeps_wf<P>(v: TreeView<P>, id: PaneId)
    requires
        (TreeView { focus: id, ..v }).wf(),
    ensures
        v.focus_on(id).wf(),
{
    let w = v.focus_on(id);
    assert forall|k: PaneId| #[trigger] w.stamps.contains_key(k) implies w.stamps[k]
        <= w.clock by {
        if k != id {
            assert((TreeView { focus: id, ..v }).stamps.contains_key(k));
        }
    }
}

/// An empty tree is well formed.
pub proof fn empty_is_wf<P>()
    ensures
        TreeView::<P>::empty().wf(),
{
}

/// Opening a payload keeps a tree well formed.
pub proof fn open_keeps_wf<P>(v: TreeView<P>, payload: P)
    requires
        v.wf(),
        v.root is None ==> v.next_id < u64::MAX,
    ensures
        v.open(payload).wf(),
        v.open(payload).focused_payload() == Some(payload),
{
    match v.root {
        None => {
            let node = Node::Leaf { id: v.next_id, payload: Some(payload) };
            let w = TreeView { root: Some(node), next_id: (v.next_id + 1) as u64, ..v };
            assert(has_leaf(node, v.next_id));
            focus_on_keeps_wf(w, v.next_id);
        },
        Some(node) => {
            with_payload_keeps_panes(node, v.focus, Some(payload));
            with_payload_shows_it(node, v.focus, Some(payload));
        },
    }
}

pub(crate) proof fn no_payload_elsewhere<P>(node: Node<P>, id: PaneId)
    ensures
        payload_at(node, id) is Some <==> has_leaf(node, id),
    decreases node,
{
    match node {
        Node::Leaf { .. } => {},
        Node::Split { first, second, .. } => {
            no_payload_elsewhere(*first, id);
            no_payload_elsewhere(*second, id);
        },
    }
}

proof fn with_payload_shows_it<P>(node: Node<P>, id: PaneId, payload: Option<P>)
    requires
        has_leaf(node, id),
    ensures
        payload_at(with_payload(node, id, payload), id) == Some(payload),
    decreases node,
{
    match node {
        Node::Leaf { .. } => {},
        Node::Split { first, second, .. } => {
            no_payload_elsewhere(*first, id);
            if has_leaf(*first, id) {
                with_payload_shows_it(*first, id, payload);
            } else {
                with_payload_shows_it(*second, id, payload);
            }
        },
    }
}

/// Splitting keeps a tree well formed; the focus is on the new pane, which is blank.
pub proof fn split_keeps_wf<P>(v: TreeView<P>, axis: Axis)
    requires
        v.wf(),
        v.root is Some ==> v.next_id < u64::MAX,
    ensures
        v.split(axis).wf(),
        v.root is Some ==> v.split(axis).focus == v.next_id,
{
    if let Some(node) = v.root {
        split_adds_a_pane(node, v.focus, axis, v.next_id);
        let out = split_at(node, v.focus, axis, v.next_id);
        let w = TreeView { root: Some(out), next_id: (v.next_id + 1) as u64, ..v };
        assert(has_leaf(out, v.next_id));
        focus_on_keeps_wf(w, v.next_id);
    }
}

/// Closing any pane keeps a tree well formed.
pub proof fn close_keeps_wf<P>(v: TreeView<P>, id: PaneId)
    requires
        v.wf(),
    ensures
        v.close_id(id).wf(),
{
    if let Some(node) = v.root {
        if has_leaf(node, id) {
            closing_takes_one_pane(node, id);
        } else {
            without_absent(node, id);
        }
        let left = TreeView { root: without(node, id), stamps: v.stamps.remove(id), ..v };
        if v.focus == id {
            match left.root {
                Some(rest) => {
                    let next = heir(node, id)->0;
                    assert(has_leaf(rest, next));
                    assert(TreeView { focus: next, ..left }.wf());
                    focus_on_keeps_wf(left, next);
                },
                None => {},
            }
        }
    }
}

/// Closing the pane of a payload keeps a tree well formed.
pub proof fn close_payload_keeps_wf<P>(v: TreeView<P>, payload: P)
    requires
        v.wf(),
    ensures
        v.close_payload(payload).wf(),
{
    if let Some(id) = v.showing(payload) {
        close_keeps_wf(v, id);
    }
}

/// Filling blank panes keeps a tree well formed.
pub proof fn fill_keeps_wf<P>(v: TreeView<P>, supply: Seq<P>)
    requires
        v.wf(),
    ensures
        v.fill_blanks(supply).wf(),
{
    if let Some(node) = v.root {
        filled_keeps_panes(node, supply);
    }
}

/// Moving a boundary keeps a tree well formed.
pub proof fn resize_keeps_wf<P>(v: TreeView<P>, axis: Axis, how: Adjust)
    requires
        v.wf(),
    ensures
        v.move_boundary(axis, how).wf(),
{
    if let Some(node) = v.root {
        resized_keeps_panes(node, v.focus, axis, how);
    }
}

/// Every way of moving the focus keeps a tree well formed.
pub proof fn focusing_keeps_wf<P>(v: TreeView<P>, payload: P, dir: Dir, area: Rect)
    requires
        v.wf(),
    ensures
        v.focus_most_recent().wf(),
        v.focus_payload(payload).wf(),
        v.navigate(dir, area).wf(),
{
    if let Some(node) = v.root {
        latest_pane_is_a_leaf(node, v.stamps);
        focus_on_keeps_wf(v, latest_pane(node, v.stamps));
        pane_showing_is_a_leaf(node, payload);
        if let Some(id) = v.showing(payload) {
            focus_on_keeps_wf(v, id);
        }
        if let Some(id) = v.nav_target(dir, area) {
            let places = v.layout(area);
            let cur = slot_of(places, v.focus)->0;
            best_target(dir, v.focus, cur, v.stamps, places, places.len());
            let i = target_among(dir, v.focus, cur, v.stamps, places, places.len())->0;
            placements_are_leaves(node, area, v.focus, i);
            focus_on_keeps_wf(v, id);
        }
    }
}

pub(crate) proof fn placements_are_leaves<P>(node: Node<P>, slot: Rect, focus: PaneId, i: int)
    requires
        0 <= i < placed(node, slot, focus).len(),
    ensures
        has_leaf(node, placed(node, slot, focus)[i].id),
    decreases node,
{
    match node {
        Node::Leaf { .. } => {},
        Node::Split { axis, ratio, first, second } => {
            let (a, b) = halves(slot, axis, ratio);
            let n = placed(*first, a, focus).len();
            if i < n {
                placements_are_leaves(*first, a, focus, i);
            } else {
                placements_are_leaves(*second, b, focus, i - n);
            }
        },
    }
}

/// A move goes to a pane that it can reach and that no other reachable pane is preferred to.
pub proof fn best_target<P>(
    dir: Dir,
    focus: PaneId,
    cur: Rect,
    stamps: Map<PaneId, u64>,
    places: Seq<Placement<P>>,
    n: nat,
)
    requires
        n <= places.len(),
    ensures
        target_among(dir, focus, cur, stamps, places, n) matches Some(b) ==> {
            &&& 0 <= b < n
            &&& reachable(dir, focus, cur, places[b])
            &&& forall|k: int|
                0 <= k < n && reachable(dir, focus, cur, #[trigger] places[k]) ==> !preferred(
                    dir,
                    cur,
                    stamps,
                    places[k],
                    places[b],
                )
        },
        target_among(dir, focus, cur, stamps, places, n) is None ==> forall|k: int|
            0 <= k < n ==> !reachable(dir, focus, cur, #[trigger] places[k]),
    decreases n,
{
    if n > 0 {
        best_target(dir, focus, cur, stamps, places, (n - 1) as nat);
    }
}

/// The tree of a persisted layout is well formed.
pub proof fn from_layout_is_wf(layout: Layout)
    requires
        pane_count(layout) < u64::MAX,
    ensures
        TreeView::<TerminalId>::from_layout(layout).wf(),
{
    let node = node_of(layout, 1);
    numbered_panes(layout, 1);
    first_pane_is_a_leaf(node);
    let v = TreeView::<TerminalId> {
        root: Some(node),
        focus: 0,
        next_id: (1 + pane_count(layout)) as u64,
        clock: 0,
        stamps: Map::empty(),
    };
    focus_on_keeps_wf(v, first_pane(node));
}

proof fn numbered_panes(layout: Layout, next: nat)
    requires
        next + pane_count(layout) <= u64::MAX,
    ensures
        pane_count(layout) >= 1,
        distinct(node_of(layout, next)),
        forall|k: PaneId| #[trigger]
            has_leaf(node_of(layout, next), k) == (next <= k < next + pane_count(layout)),
    decreases layout,
{
    match layout {
        Layout::Leaf { .. } => {
            reveal_with_fuel(has_leaf, 2);
        },
        Layout::Split { first, second, .. } => {
            numbered_panes(*first, next);
            numbered_panes(*second, next + pane_count(*first));
            let (f, s) = (node_of(*first, next), node_of(*second, next + pane_count(*first)));
            let out = node_of(layout, next);
            assert forall|k: PaneId| #[trigger]
                has_leaf(out, k) == (next <= k < next + pane_count(layout)) by {
                assert(has_leaf(out, k) == (has_leaf(f, k) || has_leaf(s, k)));
            }
        },
    }
}

// --- round trips ---

proof fn layout_of_node_of(layout: Layout, next: nat)
    ensures
        layout_of(node_of(layout, next)) == layout,
    decreases layout,
{
    match layout {
        Layout::Leaf { .. } => {},
        Layout::Split { first, second, .. } => {
            layout_of_node_of(*first, next);
            layout_of_node_of(*second, next + pane_count(*first));
        },
    }
}

/// A layout survives being restored and persisted again.
pub proof fn layouts_round_trip(layout: Layout)
    ensures
        TreeView::<TerminalId>::from_layout(layout).to_layout() == Some(layout),
{
    layout_of_node_of(layout, 1);
}

proof fn unsplit<P>(node: Node<P>, target: PaneId, axis: Axis, new_id: PaneId)
    requires
        distinct(node),
        has_leaf(node, target),
        !has_leaf(node, new_id),
    ensures
        without(split_at(node, target, axis, new_id), new_id) == Some(node),
        heir(split_at(node, target, axis, new_id), new_id) == Some(target),
    decreases node,
{
    match node {
        Node::Leaf { .. } => {},
        Node::Split { first, second, .. } => {
            assert(!has_leaf(*first, new_id) && !has_leaf(*second, new_id));
            if has_leaf(*first, target) {
                assert(!has_leaf(*second, target));
                unsplit(*first, target, axis, new_id);
                split_of_absent(*second, target, axis, new_id);
                without_absent(*second, new_id);
                assert(split_at(*first, target, axis, new_id) is Split);
            } else {
                unsplit(*second, target, axis, new_id);
                split_of_absent(*first, target, axis, new_id);
                without_absent(*first, new_id);
                assert(split_at(*second, target, axis, new_id) is Split);
            }
        },
    }
}

/// Closing the pane that a split made brings back the panes there were, with the focus where it
/// was.
pub proof fn close_undoes_split<P>(v: TreeView<P>, axis: Axis)
    requires
        v.wf(),
        v.root is Some,
        v.next_id < u64::MAX,
    ensures
        v.split(axis).close().root == v.root,
        v.split(axis).close().focus == v.focus,
{
    let node = v.root->0;
    unsplit(node, v.focus, axis, v.next_id);
}

// --- filling ---

pub(crate) proof fn filled_by_enough_leaves_none<P>(node: Node<P>, supply: Seq<P>)
    requires
        blanks(node) <= supply.len(),
    ensures
        blanks(filled(node, supply)) == 0,
    decreases node,
{
    match node {
        Node::Leaf { .. } => {},
        Node::Split { first, second, .. } => {
            filled_by_enough_leaves_none(*first, supply);
            filled_by_enough_leaves_none(*second, rest(supply, blanks(*first)));
        },
    }
}

proof fn filled_keeps_shown<P>(node: Node<P>, supply: Seq<P>, id: PaneId)
    requires
        distinct(node),
        payload_at(node, id) matches Some(p) && p is Some,
    ensures
        payload_at(filled(node, supply), id) == payload_at(node, id),
    decreases node,
{
    match node {
        Node::Leaf { .. } => {},
        Node::Split { first, second, .. } => {
            let other = rest(supply, blanks(*first));
            no_payload_elsewhere(*first, id);
            no_payload_elsewhere(*second, id);
            filled_keeps_panes(*first, supply);
            no_payload_elsewhere(filled(*first, supply), id);
            if has_leaf(*first, id) {
                filled_keeps_shown(*first, supply, id);
            } else {
                filled_keeps_shown(*second, other, id);
            }
        },
    }
}

/// A supply that is large enough leaves no pane blank, and panes that showed something go on
/// showing it.
pub proof fn filling_fills_blanks_alone<P>(v: TreeView<P>, supply: Seq<P>, id: PaneId)
    requires
        v.wf(),
        v.root is Some,
    ensures
        v.blank_count() <= supply.len() ==> v.fill_blanks(supply).blank_count() == 0,
        (payload_at(v.root->0, id) matches Some(p) && p is Some) ==> payload_at(
            v.fill_blanks(supply).root->0,
            id,
        ) == payload_at(v.root->0, id),
{
    let node = v.root->0;
    if v.blank_count() <= supply.len() {
        filled_by_enough_leaves_none(node, supply);
    }
    if payload_at(node, id) matches Some(p) && p is Some {
        filled_keeps_shown(node, supply, id);
    }
}

proof fn blanks_of_layout(layout: Layout, next: nat)
    ensures
        blanks(node_of(layout, next)) == layout_blanks(layout),
    decreases layout,
{
    match layout {
        Layout::Leaf { .. } => {},
        Layout::Split { first, second, .. } => {
            blanks_of_layout(*first, next);
            blanks_of_layout(*second, next + pane_count(*first));
        },
    }
}

/// A restored tree has as many blank panes as its layout.
pub proof fn restored_blanks(layout: Layout)
    ensures
        TreeView::<TerminalId>::from_layout(layout).blank_count() == layout_blanks(layout),
{
    blanks_of_layout(layout, 1);
}

// --- recency ---

/// Whether the focused pane carries the latest stamp, and it alone.
pub open spec fn focus_is_latest<P>(v: TreeView<P>) -> bool {
    &&& v.stamps.contains_key(v.focus)
    &&& v.stamps[v.focus] >= 1
    &&& forall|k: PaneId| #[trigger]
        v.stamps.contains_key(k) && k != v.focus ==> v.stamps[k] < v.stamps[v.focus]
}

/// Every change of focus leaves the focused pane with the latest stamp.
pub proof fn focusing_stamps_latest<P>(v: TreeView<P>, id: PaneId)
    requires
        v.wf(),
        v.clock < u64::MAX,
    ensures
        focus_is_latest(v.focus_on(id)),
{
    let w = v.focus_on(id);
    assert forall|k: PaneId| #[trigger] w.stamps.contains_key(k) && k != w.focus implies w.stamps[k]
        < w.stamps[w.focus] by {
        assert(v.stamps.contains_key(k));
    }
}

proof fn latest_is_greatest<P>(node: Node<P>, stamps: Map<PaneId, u64>, id: PaneId)
    requires
        has_leaf(node, id),
        forall|k: PaneId| #[trigger] has_leaf(node, k) && k != id ==> stamp(stamps, k) < stamp(stamps, id),
    ensures
        latest_pane(node, stamps) == id,
    decreases node,
{
    match node {
        Node::Leaf { .. } => {},
        Node::Split { first, second, .. } => {
            latest_pane_is_a_leaf(*first, stamps);
            latest_pane_is_a_leaf(*second, stamps);
            assert forall|k: PaneId| #[trigger] has_leaf(*first, k) && k != id implies stamp(stamps, k)
                < stamp(stamps, id) by {
                assert(has_leaf(node, k));
            }
            assert forall|k: PaneId| #[trigger] has_leaf(*second, k) && k != id implies stamp(stamps, k)
                < stamp(stamps, id) by {
                assert(has_leaf(node, k));
            }
            if has_leaf(*first, id) {
                latest_is_greatest(*first, stamps, id);
            }
            if has_leaf(*second, id) {
                latest_is_greatest(*second, stamps, id);
            }
        },
    }
}

/// Coming back to the panes lands where the focus was left.
pub proof fn returning_keeps_the_focus<P>(v: TreeView<P>)
    requires
        v.wf(),
        v.root is Some,
        focus_is_latest(v),
    ensures
        v.focus_most_recent().focus == v.focus,
{
    let node = v.root->0;
    assert forall|k: PaneId| #[trigger] has_leaf(node, k) && k != v.focus implies stamp(v.stamps, k)
        < stamp(v.stamps, v.focus) by {
        if v.stamps.contains_key(k) {
        }
    }
    latest_is_greatest(node, v.stamps, v.focus);
}

// --- resizing ---

/// Whether `after` differs from `before` in the ratio of at most one split, and that one lies
/// between the bounds.
pub open spec fn one_boundary_moved<P>(before: Node<P>, after: Node<P>) -> bool
    decreases before,
{
    before == after || match (before, after) {
        (
            Node::Split { axis, ratio, first, second },
            Node::Split { axis: axis2, ratio: ratio2, first: first2, second: second2 },
        ) => {
            &&& axis == axis2
            &&& {
                ||| first == first2 && second == second2 && RATIO_MIN <= ratio2 <= RATIO_MAX
                ||| ratio == ratio2 && second == second2 && one_boundary_moved(*first, *first2)
                ||| ratio == ratio2 && first == first2 && one_boundary_moved(*second, *second2)
            }
        },
        _ => false,
    }
}

/// A resize moves one boundary at most, and keeps it between the bounds.
pub proof fn resize_moves_one_boundary<P>(node: Node<P>, id: PaneId, axis: Axis, how: Adjust)
    ensures
        one_boundary_moved(node, resized(node, id, axis, how)),
    decreases node,
{
    match node {
        Node::Leaf { .. } => {},
        Node::Split { axis: own, ratio, first, second } => {
            if has_leaf(*first, id) {
                resize_moves_one_boundary(*first, id, axis, how);
                if !splits_along(*first, id, axis) {
                    nothing_along(*first, id, axis, how);
                }
            } else if has_leaf(*second, id) {
                resize_moves_one_boundary(*second, id, axis, how);
                if !splits_along(*second, id, axis) {
                    nothing_along(*second, id, axis, how);
                }
            }
        },
    }
}

pub(crate) proof fn nothing_along<P>(node: Node<P>, id: PaneId, axis: Axis, how: Adjust)
    requires
        !splits_along(node, id, axis),
    ensures
        resized(node, id, axis, how) == node,
    decreases node,
{
    match node {
        Node::Leaf { .. } => {},
        Node::Split { first, second, .. } => {
            if has_leaf(*first, id) {
                nothing_along(*first, id, axis, how);
            } else if has_leaf(*second, id) {
                nothing_along(*second, id, axis, how);
            }
        },
    }
}

// --- tiling ---

/// Whether every split under `node` has a slot with something to divide.
pub open spec fn roomy<P>(node: Node<P>, slot: Rect) -> bool
    decreases node,
{
    match node {
        Node::Leaf { .. } => true,
        Node::Split { axis, ratio, first, second } => {
            let (a, b) = halves(slot, axis, ratio);
            &&& match axis {
                Axis::LeftRight => slot.width >= 1,
                Axis::TopBottom => slot.height >= 1,
            }
            &&& roomy(*first, a)
            &&& roomy(*second, b)
        },
    }
}

/// How many of `places` cover the cell `(col, row)`.
pub open spec fn covering<P>(places: Seq<Placement<P>>, col: u16, row: u16) -> nat
    decreases places.len(),
{
    if places.len() == 0 {
        0
    } else {
        covering(places.drop_last(), col, row) + if places.last().rect.has(col, row) {
            1nat
        } else {
            0nat
        }
    }
}

proof fn covering_adds<P>(a: Seq<Placement<P>>, b: Seq<Placement<P>>, col: u16, row: u16)
    ensures
        covering(a + b, col, row) == covering(a, col, row) + covering(b, col, row),
    decreases b.len(),
{
    if b.len() == 0 {
        assert(a + b =~= a);
    } else {
        covering_adds(a, b.drop_last(), col, row);
        assert((a + b).drop_last() =~= a + b.drop_last());
        assert((a + b).last() == b.last());
    }
}

/// Panes tile their area: a cell of the area belongs to exactly one pane, and no pane reaches
/// beyond it.
pub proof fn panes_tile_the_area<P>(node: Node<P>, slot: Rect, focus: PaneId, col: u16, row: u16)
    requires
        slot.fits(),
        roomy(node, slot),
    ensures
        covering(placed(node, slot, focus), col, row) == if slot.has(col, row) {
            1nat
        } else {
            0nat
        },
    decreases node,
{
    match node {
        Node::Leaf { .. } => {
            let places = placed(node, slot, focus);
            assert(places.drop_last() =~= Seq::<Placement<P>>::empty());
            assert(covering(places.drop_last(), col, row) == 0);
        },
        Node::Split { axis, ratio, first, second } => {
            let (a, b) = halves(slot, axis, ratio);
            panes_tile_the_area(*first, a, focus, col, row);
            panes_tile_the_area(*second, b, focus, col, row);
            covering_adds(placed(*first, a, focus), placed(*second, b, focus), col, row);
        },
    }
}

} // verus!
