//! The focus is where it was left: whatever was done to a tree of panes, its focused pane is the one
//! focused most recently.

use vstd::prelude::*;
use crate::geometry::{Axis, Dir, Rect};
use crate::ids::TerminalId;
use crate::pane::{
    first_pane, heir, latest_pane, node_of, pane_count, spec_axis_and_grow, split_at, without,
    Layout, Node, PaneId, TreeView,
};
use crate::pane_laws::{
    close_keeps_wf, close_payload_keeps_wf, empty_is_wf, fill_keeps_wf, focus_is_latest,
    focusing_keeps_wf, focusing_stamps_latest, from_layout_is_wf, open_keeps_wf, resize_keeps_wf,
    returning_keeps_the_focus, split_keeps_wf,
};
use crate::ratio::Adjust;

verus! {

/// Whether the focused pane, if there is one, carries the latest stamp.
pub open spec fn focus_is_recent<P>(v: TreeView<P>) -> bool {
    v.root is Some ==> focus_is_latest(v)
}

/// Whether the clock and the ids of a tree can go on for `n` more steps.
pub open spec fn lasts<P>(v: TreeView<P>, n: int) -> bool {
    v.clock + n <= u64::MAX && v.next_id + n <= u64::MAX
}

// --- one call ---

proof fn focusing_is_recent<P>(v: TreeView<P>, id: PaneId)
    requires
        v.clock < u64::MAX,
        forall|k: PaneId| #[trigger] v.stamps.contains_key(k) ==> v.stamps[k] <= v.clock,
    ensures
        focus_is_latest(v.focus_on(id)),
{
    let w = v.focus_on(id);
    assert forall|k: PaneId| #[trigger] w.stamps.contains_key(k) && k != w.focus implies w.stamps[k]
        < w.stamps[w.focus] by {
        assert(v.stamps.contains_key(k));
    }
}

/// Opening a payload leaves the focus on the most recent pane.
pub proof fn opening_keeps_the_focus_recent<P>(v: TreeView<P>, payload: P)
    requires
        v.wf(),
        lasts(v, 1),
        focus_is_recent(v),
    ensures
        focus_is_recent(v.open(payload)),
{
    if v.root is None {
        let id = v.next_id;
        let w = TreeView {
            root: Some(Node::Leaf { id, payload: Some(payload) }),
            next_id: (id + 1) as u64,
            ..v
        };
        focusing_is_recent(w, id);
    }
}

/// Filling blank panes leaves the focus on the most recent pane.
pub proof fn filling_keeps_the_focus_recent<P>(v: TreeView<P>, supply: Seq<P>)
    requires
        focus_is_recent(v),
    ensures
        focus_is_recent(v.fill_blanks(supply)),
{
}

/// Splitting puts the focus on the new pane, which is then the most recent one.
pub proof fn splitting_keeps_the_focus_recent<P>(v: TreeView<P>, axis: Axis)
    requires
        v.wf(),
        lasts(v, 1),
    ensures
        focus_is_recent(v.split(axis)),
{
    if let Some(node) = v.root {
        let w = TreeView {
            root: Some(split_at(node, v.focus, axis, v.next_id)),
            next_id: (v.next_id + 1) as u64,
            ..v
        };
        focusing_is_recent(w, v.next_id);
    }
}

/// Closing a pane, the focused one or another, leaves the focus on the most recent pane.
pub proof fn closing_keeps_the_focus_recent<P>(v: TreeView<P>, id: PaneId)
    requires
        v.wf(),
        lasts(v, 1),
        focus_is_recent(v),
    ensures
        focus_is_recent(v.close_id(id)),
{
    if let Some(node) = v.root {
        let left = TreeView {
            root: without(node, id),
            stamps: v.stamps.remove(id),
            ..v
        };
        assert forall|k: PaneId| #[trigger] left.stamps.contains_key(k) implies left.stamps[k]
            <= left.clock by {
            assert(v.stamps.contains_key(k));
        }
        if v.focus != id {
            assert forall|k: PaneId| #[trigger]
                left.stamps.contains_key(k) && k != left.focus implies left.stamps[k]
                < left.stamps[left.focus] by {
                assert(v.stamps.contains_key(k));
            }
        } else {
            match (heir(node, id), left.root) {
                (Some(next), _) => {
                    focusing_is_recent(left, next);
                },
                (None, Some(rest)) => {
                    focusing_is_recent(left, first_pane(rest));
                },
                (None, None) => {},
            }
        }
    }
}

/// Closing the pane of a payload leaves the focus on the most recent pane.
pub proof fn closing_a_payload_keeps_the_focus_recent<P>(v: TreeView<P>, payload: P)
    requires
        v.wf(),
        lasts(v, 1),
        focus_is_recent(v),
    ensures
        focus_is_recent(v.close_payload(payload)),
{
    if let Some(id) = v.showing(payload) {
        closing_keeps_the_focus_recent(v, id);
    }
}

/// Wherever the focus is moved, the pane it is moved to is the most recent one.
pub proof fn moving_keeps_the_focus_recent<P>(v: TreeView<P>, payload: P, dir: Dir, area: Rect)
    requires
        v.wf(),
        lasts(v, 1),
        focus_is_recent(v),
    ensures
        focus_is_recent(v.focus_most_recent()),
        focus_is_recent(v.focus_payload(payload)),
        focus_is_recent(v.navigate(dir, area)),
{
    if let Some(node) = v.root {
        focusing_stamps_latest(v, latest_pane(node, v.stamps));
    }
    if let Some(id) = v.showing(payload) {
        focusing_stamps_latest(v, id);
    }
    if let Some(id) = v.nav_target(dir, area) {
        focusing_stamps_latest(v, id);
    }
}

/// Resizing leaves the focus on the most recent pane.
pub proof fn resizing_keeps_the_focus_recent<P>(v: TreeView<P>, axis: Axis, how: Adjust)
    requires
        focus_is_recent(v),
    ensures
        focus_is_recent(v.move_boundary(axis, how)),
{
}

// --- any number of them ---

/// One call that changes a tree.
pub enum TreeStep<P> {
    Open(P),
    FillBlanks(Seq<P>),
    Split(Axis),
    Close,
    ClosePayload(P),
    FocusMostRecent,
    FocusPayload(P),
    Navigate(Dir, Rect),
    Resize(Dir, u32),
    ResizeSnap(Dir),
}

/// The tree after a call.
pub open spec fn stepped<P>(v: TreeView<P>, step: TreeStep<P>) -> TreeView<P> {
    match step {
        TreeStep::Open(payload) => v.open(payload),
        TreeStep::FillBlanks(supply) => v.fill_blanks(supply),
        TreeStep::Split(axis) => v.split(axis),
        TreeStep::Close => v.close(),
        TreeStep::ClosePayload(payload) => v.close_payload(payload),
        TreeStep::FocusMostRecent => v.focus_most_recent(),
        TreeStep::FocusPayload(payload) => v.focus_payload(payload),
        TreeStep::Navigate(dir, area) => v.navigate(dir, area),
        TreeStep::Resize(dir, step) => v.resize(dir, step),
        TreeStep::ResizeSnap(dir) => v.resize_snap(dir),
    }
}

/// The tree after calls one after another.
pub open spec fn after_steps<P>(v: TreeView<P>, steps: Seq<TreeStep<P>>) -> TreeView<P>
    decreases steps.len(),
{
    if steps.len() == 0 {
        v
    } else {
        stepped(after_steps(v, steps.drop_last()), steps.last())
    }
}

proof fn a_step_keeps_the_focus_recent<P>(v: TreeView<P>, step: TreeStep<P>, more: int)
    requires
        v.wf(),
        focus_is_recent(v),
        lasts(v, more + 1),
        0 <= more,
    ensures
        stepped(v, step).wf(),
        focus_is_recent(stepped(v, step)),
        lasts(stepped(v, step), more),
{
    match step {
        TreeStep::Open(payload) => {
            open_keeps_wf(v, payload);
            opening_keeps_the_focus_recent(v, payload);
        },
        TreeStep::FillBlanks(supply) => {
            fill_keeps_wf(v, supply);
        },
        TreeStep::Split(axis) => {
            split_keeps_wf(v, axis);
            splitting_keeps_the_focus_recent(v, axis);
        },
        TreeStep::Close => {
            close_keeps_wf(v, v.focus);
            closing_keeps_the_focus_recent(v, v.focus);
        },
        TreeStep::ClosePayload(payload) => {
            close_payload_keeps_wf(v, payload);
            closing_a_payload_keeps_the_focus_recent(v, payload);
        },
        TreeStep::FocusMostRecent => {
            moves_are_fine(v, step);
        },
        TreeStep::FocusPayload(payload) => {
            moves_are_fine(v, step);
        },
        TreeStep::Navigate(dir, area) => {
            moves_are_fine(v, step);
        },
        TreeStep::Resize(dir, by) => {
            let (axis, grow) = spec_axis_and_grow(dir);
            resize_keeps_wf(v, axis, Adjust::Nudge { step: by, grow });
        },
        TreeStep::ResizeSnap(dir) => {
            let (axis, grow) = spec_axis_and_grow(dir);
            resize_keeps_wf(v, axis, Adjust::Snap { grow });
        },
    }
}

proof fn moves_are_fine<P>(v: TreeView<P>, step: TreeStep<P>)
    requires
        v.wf(),
        focus_is_recent(v),
        lasts(v, 1),
        step is FocusMostRecent || step is FocusPayload || step is Navigate,
    ensures
        stepped(v, step).wf(),
        focus_is_recent(stepped(v, step)),
{
    let any: P = arbitrary();
    let area = Rect { x: 0, y: 0, width: 0, height: 0 };
    match step {
        TreeStep::FocusPayload(payload) => {
            focusing_keeps_wf(v, payload, Dir::Left, area);
            moving_keeps_the_focus_recent(v, payload, Dir::Left, area);
        },
        TreeStep::Navigate(dir, area) => {
            focusing_keeps_wf(v, any, dir, area);
            moving_keeps_the_focus_recent(v, any, dir, area);
        },
        _ => {
            focusing_keeps_wf(v, any, Dir::Left, area);
            moving_keeps_the_focus_recent(v, any, Dir::Left, area);
        },
    }
}

proof fn steps_keep_the_focus_recent<P>(v: TreeView<P>, steps: Seq<TreeStep<P>>, more: int)
    requires
        v.wf(),
        focus_is_recent(v),
        0 <= more,
        lasts(v, steps.len() + more),
    ensures
        after_steps(v, steps).wf(),
        focus_is_recent(after_steps(v, steps)),
        lasts(after_steps(v, steps), more),
    decreases steps.len(),
{
    if steps.len() > 0 {
        steps_keep_the_focus_recent(v, steps.drop_last(), more + 1);
        a_step_keeps_the_focus_recent(after_steps(v, steps.drop_last()), steps.last(), more);
    }
}

proof fn returning_changes_nothing_shown<P>(v: TreeView<P>, area: Rect)
    requires
        v.wf(),
        focus_is_recent(v),
    ensures
        v.focus_most_recent().focus == v.focus,
        v.focus_most_recent().root == v.root,
        v.focus_most_recent().layout(area) == v.layout(area),
        v.focus_most_recent().focused_payload() == v.focused_payload(),
{
    if v.root is Some {
        returning_keeps_the_focus(v);
    }
}

/// Whatever calls a tree went through from the time it was made, coming back to its panes lands on the
/// focused one: the layout and what the focused pane shows stay as they are, and a tree without panes
/// stays without.
pub proof fn coming_back_lands_where_the_focus_was_left<P>(steps: Seq<TreeStep<P>>, area: Rect)
    requires
        steps.len() < u64::MAX - 1,
    ensures
        ({
            let v = after_steps(TreeView::<P>::empty(), steps);
            let w = v.focus_most_recent();
            &&& w.layout(area) == v.layout(area)
            &&& w.focused_payload() == v.focused_payload()
            &&& v.root is None ==> w == v
        }),
{
    empty_is_wf::<P>();
    steps_keep_the_focus_recent(TreeView::<P>::empty(), steps, 0);
    returning_changes_nothing_shown(after_steps(TreeView::<P>::empty(), steps), area);
}

/// The same of a tree that was restored from a layout, whose focus is on its first pane to begin with.
pub proof fn coming_back_to_a_restored_tree(
    layout: Layout,
    steps: Seq<TreeStep<TerminalId>>,
    area: Rect,
)
    requires
        pane_count(layout) + steps.len() < u64::MAX - 1,
    ensures
        TreeView::<TerminalId>::from_layout(layout).focus == first_pane(
            node_of(layout, 1),
        ),
        ({
            let v = after_steps(TreeView::<TerminalId>::from_layout(layout), steps);
            let w = v.focus_most_recent();
            &&& w.layout(area) == v.layout(area)
            &&& w.focused_payload() == v.focused_payload()
            &&& v.root is None ==> w == v
        }),
{
    from_layout_is_wf(layout);
    let start = TreeView::<TerminalId>::from_layout(layout);
    let bare = TreeView::<TerminalId> {
        root: Some(node_of(layout, 1)),
        focus: 0,
        next_id: (1 + pane_count(layout)) as u64,
        clock: 0,
        stamps: Map::empty(),
    };
    focusing_is_recent(bare, first_pane(node_of(layout, 1)));
    steps_keep_the_focus_recent(start, steps, 0);
    returning_changes_nothing_shown(after_steps(start, steps), area);
}

} // verus!
