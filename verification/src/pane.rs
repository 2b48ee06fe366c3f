//! The tiled main area: a binary space partition of panes with split, close, directional movement
//! and resizing. It only computes rectangles; a pane carries a payload (the client puts a terminal
//! there) that the tree never looks into.

use vstd::prelude::*;
use std::collections::HashMap;
use crate::geometry::{add_to, minus, plus, rect, take_off, Axis, Dir, Rect};
use crate::ids::{Ident, TerminalId};
use crate::pane_laws::{
    close_keeps_wf, closing_takes_one_pane, fill_keeps_wf, focus_on_keeps_wf, from_layout_is_wf,
    latest_pane_is_a_leaf, open_keeps_wf, pane_showing_is_a_leaf, placements_are_leaves,
    resize_keeps_wf, split_adds_a_pane, split_keeps_wf, without_absent,
};
use crate::ratio::{adjust, adjusted, first_len, share, Adjust, HALF};

verus! {

broadcast use vstd::std_specs::hash::group_hash_axioms;

/// Names one pane of a tree.
pub type PaneId = u64;

/// One node of a tree: a pane, or a split of its slot between two nodes.
#[derive(Debug)]
pub enum Node<P> {
    Leaf { id: PaneId, payload: Option<P> },
    Split { axis: Axis, ratio: u32, first: Box<Node<P>>, second: Box<Node<P>> },
}

/// A layout as it is persisted: the tree without pane ids or focus.
#[derive(Debug, PartialEq, Eq)]
pub enum Layout {
    Leaf { terminal: Option<TerminalId> },
    Split { axis: Axis, ratio: u32, first: Box<Layout>, second: Box<Layout> },
}

/// Where a pane stands, for drawing and hit-testing.
#[derive(Clone, Copy, Debug, PartialEq)]
pub struct Placement<P> {
    pub id: PaneId,
    pub payload: Option<P>,
    pub rect: Rect,
    pub focused: bool,
}

/// What came of an attempt to move.
#[derive(Clone, Copy, Debug, PartialEq, Eq, Structural)]
pub enum Nav {
    Moved,
    Stay,
    /// No pane lies to the left: focus belongs in the sidebar.
    ExitLeft,
}

/// The tiled layout: a tree of splits with one pane focused.
///
/// The focus clock and the stamps record when each pane was last focused, by any means. They are
/// never persisted.
pub struct PaneTree<P> {
    root: Option<Node<P>>,
    focus: PaneId,
    next_id: PaneId,
    clock: u64,
    last_focus: HashMap<PaneId, u64>,
}

/// The state of a tree.
pub struct TreeView<P> {
    pub root: Option<Node<P>>,
    pub focus: PaneId,
    pub next_id: PaneId,
    pub clock: u64,
    pub stamps: Map<PaneId, u64>,
}

impl<P> View for PaneTree<P> {
    type V = TreeView<P>;

    closed spec fn view(&self) -> TreeView<P> {
        TreeView {
            root: self.root,
            focus: self.focus,
            next_id: self.next_id,
            clock: self.clock,
            stamps: self.last_focus@,
        }
    }
}

impl<P> PaneTree<P> {
    #[verifier::type_invariant]
    spec fn inv(self) -> bool {
        self@.wf()
    }
}

// --- what the nodes of a tree are ---

/// The panes under a node, in reading order of the tree.
pub open spec fn leaves<P>(node: Node<P>) -> Seq<(PaneId, Option<P>)>
    decreases node,
{
    match node {
        Node::Leaf { id, payload } => seq![(id, payload)],
        Node::Split { first, second, .. } => leaves(*first) + leaves(*second),
    }
}

/// Whether a pane `id` lies under `node`.
pub open spec fn has_leaf<P>(node: Node<P>, id: PaneId) -> bool
    decreases node,
{
    match node {
        Node::Leaf { id: lid, .. } => lid == id,
        Node::Split { first, second, .. } => has_leaf(*first, id) || has_leaf(*second, id),
    }
}

/// What pane `id` under `node` shows: `None` where there is no such pane.
pub open spec fn payload_at<P>(node: Node<P>, id: PaneId) -> Option<Option<P>>
    decreases node,
{
    match node {
        Node::Leaf { id: lid, payload } => if lid == id {
            Some(payload)
        } else {
            None
        },
        Node::Split { first, second, .. } => match payload_at(*first, id) {
            Some(p) => Some(p),
            None => payload_at(*second, id),
        },
    }
}

/// The payloads under a node, blank panes left out.
pub open spec fn shown<P>(node: Node<P>) -> Seq<P>
    decreases node,
{
    match node {
        Node::Leaf { payload, .. } => match payload {
            Some(p) => seq![p],
            None => Seq::empty(),
        },
        Node::Split { first, second, .. } => shown(*first) + shown(*second),
    }
}

/// The first pane under `node` that shows `payload`.
pub open spec fn pane_showing<P>(node: Node<P>, payload: P) -> Option<PaneId>
    decreases node,
{
    match node {
        Node::Leaf { id, payload: p } => if p == Some(payload) {
            Some(id)
        } else {
            None
        },
        Node::Split { first, second, .. } => match pane_showing(*first, payload) {
            Some(id) => Some(id),
            None => pane_showing(*second, payload),
        },
    }
}

/// The first pane under a node.
pub open spec fn first_pane<P>(node: Node<P>) -> PaneId
    decreases node,
{
    match node {
        Node::Leaf { id, .. } => id,
        Node::Split { first, .. } => first_pane(*first),
    }
}

/// When pane `id` was last focused: zero for one that never was.
pub open spec fn stamp(stamps: Map<PaneId, u64>, id: PaneId) -> u64 {
    if stamps.contains_key(id) {
        stamps[id]
    } else {
        0
    }
}

/// The most recently focused pane under a node, the first of them on a tie.
pub open spec fn latest_pane<P>(node: Node<P>, stamps: Map<PaneId, u64>) -> PaneId
    decreases node,
{
    match node {
        Node::Leaf { id, .. } => id,
        Node::Split { first, second, .. } => {
            let a = latest_pane(*first, stamps);
            let b = latest_pane(*second, stamps);
            if stamp(stamps, b) > stamp(stamps, a) {
                b
            } else {
                a
            }
        },
    }
}

/// The number of blank panes under a node.
pub open spec fn blanks<P>(node: Node<P>) -> nat
    decreases node,
{
    match node {
        Node::Leaf { payload, .. } => if payload is None {
            1
        } else {
            0
        },
        Node::Split { first, second, .. } => blanks(*first) + blanks(*second),
    }
}

// --- how the operations change them ---

/// `node` with pane `id` showing `payload`.
pub open spec fn with_payload<P>(node: Node<P>, id: PaneId, payload: Option<P>) -> Node<P>
    decreases node,
{
    match node {
        Node::Leaf { id: lid, payload: p } => if lid == id {
            Node::Leaf { id: lid, payload }
        } else {
            node
        },
        Node::Split { axis, ratio, first, second } => if has_leaf(*first, id) {
            Node::Split {
                axis,
                ratio,
                first: Box::new(with_payload(*first, id, payload)),
                second,
            }
        } else {
            Node::Split {
                axis,
                ratio,
                first,
                second: Box::new(with_payload(*second, id, payload)),
            }
        },
    }
}

/// `supply` without its first `n` items, or nothing where it has no more than those.
pub open spec fn rest<P>(supply: Seq<P>, n: nat) -> Seq<P> {
    if n <= supply.len() {
        supply.skip(n as int)
    } else {
        Seq::empty()
    }
}

/// The first `n` items of `supply`, or all of them where there are fewer.
pub open spec fn used<P>(supply: Seq<P>, n: nat) -> Seq<P> {
    if n <= supply.len() {
        supply.take(n as int)
    } else {
        supply
    }
}

/// `node` with its blank panes given the items of `supply` in order, as far as they go.
pub open spec fn filled<P>(node: Node<P>, supply: Seq<P>) -> Node<P>
    decreases node,
{
    match node {
        Node::Leaf { id, payload } => if payload is None && supply.len() > 0 {
            Node::Leaf { id, payload: Some(supply[0]) }
        } else {
            node
        },
        Node::Split { axis, ratio, first, second } => Node::Split {
            axis,
            ratio,
            first: Box::new(filled(*first, supply)),
            second: Box::new(filled(*second, rest(supply, blanks(*first)))),
        },
    }
}

/// `node` with pane `target` split along `axis`; the new, blank pane is `new_id`.
pub open spec fn split_at<P>(node: Node<P>, target: PaneId, axis: Axis, new_id: PaneId) -> Node<P>
    decreases node,
{
    match node {
        Node::Leaf { id, payload } => if id == target {
            Node::Split {
                axis,
                ratio: HALF,
                first: Box::new(node),
                second: Box::new(Node::Leaf { id: new_id, payload: None }),
            }
        } else {
            node
        },
        Node::Split { axis: own, ratio, first, second } => Node::Split {
            axis: own,
            ratio,
            first: Box::new(split_at(*first, target, axis, new_id)),
            second: Box::new(split_at(*second, target, axis, new_id)),
        },
    }
}

/// Whether `node` is the pane `id` itself.
pub open spec fn is_pane<P>(node: Node<P>, id: PaneId) -> bool {
    match node {
        Node::Leaf { id: lid, .. } => lid == id,
        Node::Split { .. } => false,
    }
}

/// `node` without pane `target`, whose sibling takes over their common slot.
pub open spec fn without<P>(node: Node<P>, target: PaneId) -> Option<Node<P>>
    decreases node,
{
    match node {
        Node::Leaf { id, .. } => if id == target {
            None
        } else {
            Some(node)
        },
        Node::Split { axis, ratio, first, second } => if is_pane(*first, target) {
            Some(*second)
        } else if is_pane(*second, target) {
            Some(*first)
        } else {
            match (without(*first, target), without(*second, target)) {
                (Some(f), Some(s)) => Some(
                    Node::Split { axis, ratio, first: Box::new(f), second: Box::new(s) },
                ),
                (Some(only), None) => Some(only),
                (None, Some(only)) => Some(only),
                (None, None) => None,
            }
        },
    }
}

/// The pane that focus falls to when `target` closes: the first one under its sibling.
pub open spec fn heir<P>(node: Node<P>, target: PaneId) -> Option<PaneId>
    decreases node,
{
    match node {
        Node::Leaf { .. } => None,
        Node::Split { first, second, .. } => if is_pane(*first, target) {
            Some(first_pane(*second))
        } else if is_pane(*second, target) {
            Some(first_pane(*first))
        } else {
            match heir(*first, target) {
                Some(id) => Some(id),
                None => heir(*second, target),
            }
        },
    }
}

/// Whether a split of axis `axis` lies between `node` and pane `id` under it.
pub open spec fn splits_along<P>(node: Node<P>, id: PaneId, axis: Axis) -> bool
    decreases node,
{
    match node {
        Node::Leaf { .. } => false,
        Node::Split { axis: own, first, second, .. } => if has_leaf(*first, id) {
            own == axis || splits_along(*first, id, axis)
        } else if has_leaf(*second, id) {
            own == axis || splits_along(*second, id, axis)
        } else {
            false
        },
    }
}

/// `node` with the boundary nearest above pane `id`, among those of axis `axis`, moved as `how`
/// says.
pub open spec fn resized<P>(node: Node<P>, id: PaneId, axis: Axis, how: Adjust) -> Node<P>
    decreases node,
{
    match node {
        Node::Leaf { .. } => node,
        Node::Split { axis: own, ratio, first, second } => if has_leaf(*first, id) {
            Node::Split {
                axis: own,
                ratio: if own == axis && !splits_along(*first, id, axis) {
                    adjusted(ratio, how)
                } else {
                    ratio
                },
                first: Box::new(resized(*first, id, axis, how)),
                second,
            }
        } else if has_leaf(*second, id) {
            Node::Split {
                axis: own,
                ratio: if own == axis && !splits_along(*second, id, axis) {
                    adjusted(ratio, how)
                } else {
                    ratio
                },
                first,
                second: Box::new(resized(*second, id, axis, how)),
            }
        } else {
            node
        },
    }
}

/// The axis that a direction moves along, and whether it moves boundaries to larger ratios.
pub open spec fn spec_axis_and_grow(dir: Dir) -> (Axis, bool) {
    match dir {
        Dir::Right => (Axis::LeftRight, true),
        Dir::Left => (Axis::LeftRight, false),
        Dir::Down => (Axis::TopBottom, true),
        Dir::Up => (Axis::TopBottom, false),
    }
}

// --- geometry ---

/// The two parts of a slot split along `axis`.
pub open spec fn halves(r: Rect, axis: Axis, ratio: u32) -> (Rect, Rect) {
    match axis {
        Axis::LeftRight => {
            let w = first_len(r.width, ratio);
            (
                rect(r.x, r.y, w, r.height),
                rect(plus(r.x, w), r.y, minus(r.width, w), r.height),
            )
        },
        Axis::TopBottom => {
            let h = first_len(r.height, ratio);
            (
                rect(r.x, r.y, r.width, h),
                rect(r.x, plus(r.y, h), r.width, minus(r.height, h)),
            )
        },
    }
}

/// The placements of the panes under `node` when it has the slot `slot`.
pub open spec fn placed<P>(node: Node<P>, slot: Rect, focus: PaneId) -> Seq<Placement<P>>
    decreases node,
{
    match node {
        Node::Leaf { id, payload } => seq![
            Placement { id, payload, rect: slot, focused: id == focus },
        ],
        Node::Split { axis, ratio, first, second } => {
            let (a, b) = halves(slot, axis, ratio);
            placed(*first, a, focus) + placed(*second, b, focus)
        },
    }
}

/// Whether `other` lies wholly on the `dir` side of `cur` and faces it.
pub open spec fn lies_in(dir: Dir, cur: Rect, other: Rect) -> bool {
    let overlap_v = cur.y < other.spec_bottom() && other.y < cur.spec_bottom();
    let overlap_h = cur.x < other.spec_right() && other.x < cur.spec_right();
    match dir {
        Dir::Left => other.spec_right() <= cur.x && overlap_v,
        Dir::Right => other.x >= cur.spec_right() && overlap_v,
        Dir::Up => other.spec_bottom() <= cur.y && overlap_h,
        Dir::Down => other.y >= cur.spec_bottom() && overlap_h,
    }
}

/// The distance between two rectangles along `dir`.
pub open spec fn gap(dir: Dir, cur: Rect, other: Rect) -> u16 {
    match dir {
        Dir::Left => minus(cur.x, other.spec_right()),
        Dir::Right => minus(other.x, cur.spec_right()),
        Dir::Up => minus(cur.y, other.spec_bottom()),
        Dir::Down => minus(other.y, cur.spec_bottom()),
    }
}

/// How far the middles of two rectangles lie apart across `dir`.
pub open spec fn offset(dir: Dir, cur: Rect, other: Rect) -> nat {
    let d = match dir {
        Dir::Left => (other.y + other.height / 2) - (cur.y + cur.height / 2),
        Dir::Right => (other.y + other.height / 2) - (cur.y + cur.height / 2),
        Dir::Up => (other.x + other.width / 2) - (cur.x + cur.width / 2),
        Dir::Down => (other.x + other.width / 2) - (cur.x + cur.width / 2),
    };
    if d < 0 {
        (-d) as nat
    } else {
        d as nat
    }
}

/// Whether a move in `dir` from `cur` prefers `a` to `b`: the nearer one, then the one focused more
/// recently, then the one better aligned.
pub open spec fn preferred<P>(
    dir: Dir,
    cur: Rect,
    stamps: Map<PaneId, u64>,
    a: Placement<P>,
    b: Placement<P>,
) -> bool {
    let (ga, gb) = (gap(dir, cur, a.rect), gap(dir, cur, b.rect));
    let (sa, sb) = (stamp(stamps, a.id), stamp(stamps, b.id));
    ga < gb || (ga == gb && (sa > sb || (sa == sb && offset(dir, cur, a.rect) < offset(
        dir,
        cur,
        b.rect,
    ))))
}

/// Whether `p` is a place that a move in `dir` from the pane `focus` at `cur` can reach.
pub open spec fn reachable<P>(dir: Dir, focus: PaneId, cur: Rect, p: Placement<P>) -> bool {
    p.id != focus && lies_in(dir, cur, p.rect)
}

/// The place, among the first `n`, that a move in `dir` goes to: of those it can reach, the first
/// that no other is preferred to.
pub open spec fn target_among<P>(
    dir: Dir,
    focus: PaneId,
    cur: Rect,
    stamps: Map<PaneId, u64>,
    places: Seq<Placement<P>>,
    n: nat,
) -> Option<int>
    decreases n,
{
    if n == 0 {
        None
    } else {
        let before = target_among(dir, focus, cur, stamps, places, (n - 1) as nat);
        let p = places[n - 1];
        if !reachable(dir, focus, cur, p) {
            before
        } else {
            match before {
                None => Some(n - 1),
                Some(b) => if preferred(dir, cur, stamps, p, places[b]) {
                    Some(n - 1)
                } else {
                    Some(b)
                },
            }
        }
    }
}

/// The slot of pane `id`, if it is placed.
pub open spec fn slot_of<P>(places: Seq<Placement<P>>, id: PaneId) -> Option<Rect>
    decreases places.len(),
{
    if places.len() == 0 {
        None
    } else if places[0].id == id {
        Some(places[0].rect)
    } else {
        slot_of(places.drop_first(), id)
    }
}

// --- the state of a tree ---

impl<P> TreeView<P> {
    /// A tree without panes.
    pub open spec fn empty() -> TreeView<P> {
        TreeView { root: None, focus: 0, next_id: 1, clock: 0, stamps: Map::empty() }
    }

    /// What every tree keeps: its panes have different ids, all of them handed out already; the
    /// focus is on one of them, or on nothing when there is none; no stamp is ahead of the clock.
    pub open spec fn wf(self) -> bool {
        &&& self.next_id >= 1
        &&& forall|id: PaneId| #[trigger]
            self.stamps.contains_key(id) ==> self.stamps[id] <= self.clock
        &&& match self.root {
            None => self.focus == 0,
            Some(node) => {
                &&& distinct(node)
                &&& forall|id: PaneId| #[trigger] has_leaf(node, id) ==> 1 <= id < self.next_id
                &&& has_leaf(node, self.focus)
            },
        }
    }

    /// The tree with the focus on `id`, stamped as the latest.
    pub open spec fn focus_on(self, id: PaneId) -> TreeView<P> {
        let clock = if self.clock < u64::MAX {
            (self.clock + 1) as u64
        } else {
            self.clock
        };
        TreeView { focus: id, clock, stamps: self.stamps.insert(id, clock), ..self }
    }

    /// What the focused pane shows.
    pub open spec fn focused_payload(self) -> Option<P> {
        match self.root {
            None => None,
            Some(node) => match payload_at(node, self.focus) {
                Some(p) => p,
                None => None,
            },
        }
    }

    /// The payloads of all panes.
    pub open spec fn payloads(self) -> Seq<P> {
        match self.root {
            None => Seq::empty(),
            Some(node) => shown(node),
        }
    }

    /// The tree with `payload` in the focused pane, or in a first pane where there was none.
    pub open spec fn open(self, payload: P) -> TreeView<P> {
        match self.root {
            None => TreeView {
                root: Some(Node::Leaf { id: self.next_id, payload: Some(payload) }),
                next_id: (self.next_id + 1) as u64,
                ..self
            }.focus_on(self.next_id),
            Some(node) => TreeView {
                root: Some(with_payload(node, self.focus, Some(payload))),
                ..self
            },
        }
    }

    /// The tree with its blank panes filled from `supply`.
    pub open spec fn fill_blanks(self, supply: Seq<P>) -> TreeView<P> {
        match self.root {
            None => self,
            Some(node) => TreeView { root: Some(filled(node, supply)), ..self },
        }
    }

    /// The number of blank panes.
    pub open spec fn blank_count(self) -> nat {
        match self.root {
            None => 0,
            Some(node) => blanks(node),
        }
    }

    /// The tree with the focused pane split along `axis` and the focus on the new pane.
    pub open spec fn split(self, axis: Axis) -> TreeView<P> {
        match self.root {
            None => self,
            Some(node) => TreeView {
                root: Some(split_at(node, self.focus, axis, self.next_id)),
                next_id: (self.next_id + 1) as u64,
                ..self
            }.focus_on(self.next_id),
        }
    }

    /// The tree without pane `id`. Where that was the focused one, the focus goes to the first pane
    /// of its sibling.
    pub open spec fn close_id(self, id: PaneId) -> TreeView<P> {
        match self.root {
            None => self,
            Some(node) => {
                let left = TreeView {
                    root: without(node, id),
                    stamps: self.stamps.remove(id),
                    ..self
                };
                if self.focus != id {
                    left
                } else {
                    match (heir(node, id), left.root) {
                        (Some(next), _) => left.focus_on(next),
                        (None, Some(node)) => left.focus_on(first_pane(node)),
                        (None, None) => TreeView { focus: 0, ..left },
                    }
                }
            },
        }
    }

    /// The tree without the focused pane.
    pub open spec fn close(self) -> TreeView<P> {
        self.close_id(self.focus)
    }

    /// The first pane that shows `payload`.
    pub open spec fn showing(self, payload: P) -> Option<PaneId> {
        match self.root {
            None => None,
            Some(node) => pane_showing(node, payload),
        }
    }

    /// The tree without the pane that shows `payload`, if there is one.
    pub open spec fn close_payload(self, payload: P) -> TreeView<P> {
        match self.showing(payload) {
            Some(id) => self.close_id(id),
            None => self,
        }
    }

    /// The tree with the focus on the pane focused most recently.
    pub open spec fn focus_most_recent(self) -> TreeView<P> {
        match self.root {
            None => self,
            Some(node) => self.focus_on(latest_pane(node, self.stamps)),
        }
    }

    /// The tree with the focus on the pane that shows `payload`, if there is one.
    pub open spec fn focus_payload(self, payload: P) -> TreeView<P> {
        match self.showing(payload) {
            Some(id) => self.focus_on(id),
            None => self,
        }
    }

    /// The placements of all panes in `area`.
    pub open spec fn layout(self, area: Rect) -> Seq<Placement<P>> {
        match self.root {
            None => Seq::empty(),
            Some(node) => placed(node, area, self.focus),
        }
    }

    /// The pane that a move in `dir` goes to.
    pub open spec fn nav_target(self, dir: Dir, area: Rect) -> Option<PaneId> {
        let places = self.layout(area);
        match slot_of(places, self.focus) {
            None => None,
            Some(cur) => match target_among(
                dir,
                self.focus,
                cur,
                self.stamps,
                places,
                places.len(),
            ) {
                None => None,
                Some(i) => Some(places[i].id),
            },
        }
    }

    /// The tree after a move in `dir`.
    pub open spec fn navigate(self, dir: Dir, area: Rect) -> TreeView<P> {
        match self.nav_target(dir, area) {
            Some(id) => self.focus_on(id),
            None => self,
        }
    }

    /// What a move in `dir` reports.
    pub open spec fn nav_result(self, dir: Dir, area: Rect) -> Nav {
        match self.nav_target(dir, area) {
            Some(_) => Nav::Moved,
            None => if dir == Dir::Left && slot_of(self.layout(area), self.focus) is Some {
                Nav::ExitLeft
            } else {
                Nav::Stay
            },
        }
    }

    /// The tree with the boundary nearest above the focused pane, along `axis`, moved.
    pub open spec fn move_boundary(self, axis: Axis, how: Adjust) -> TreeView<P> {
        match self.root {
            None => self,
            Some(node) => TreeView {
                root: Some(resized(node, self.focus, axis, how)),
                ..self
            },
        }
    }

    /// The tree with that boundary nudged by `step` in `dir`.
    pub open spec fn resize(self, dir: Dir, step: u32) -> TreeView<P> {
        let (axis, grow) = spec_axis_and_grow(dir);
        self.move_boundary(axis, Adjust::Nudge { step, grow })
    }

    /// The tree with that boundary moved to the next stop in `dir`.
    pub open spec fn resize_snap(self, dir: Dir) -> TreeView<P> {
        let (axis, grow) = spec_axis_and_grow(dir);
        self.move_boundary(axis, Adjust::Snap { grow })
    }
}

/// Whether no two panes under a node have the same id.
pub open spec fn distinct<P>(node: Node<P>) -> bool
    decreases node,
{
    match node {
        Node::Leaf { .. } => true,
        Node::Split { first, second, .. } => {
            &&& distinct(*first)
            &&& distinct(*second)
            &&& forall|id: PaneId|
                !(#[trigger] has_leaf(*first, id) && has_leaf(*second, id))
        },
    }
}

// --- tree helpers ---

fn find_payload<P: Ident>(node: &Node<P>, id: PaneId) -> (out: Option<Option<P>>)
    ensures
        out == payload_at(*node, id),
    decreases node,
{
    match node {
        Node::Leaf { id: lid, payload } => if *lid == id {
            Some(*payload)
        } else {
            None
        },
        Node::Split { first, second, .. } => match find_payload(first, id) {
            Some(p) => Some(p),
            None => find_payload(second, id),
        },
    }
}

fn collect_payloads<P: Ident>(node: &Node<P>, out: &mut Vec<P>)
    ensures
        final(out)@ == old(out)@ + shown(*node),
    decreases node,
{
    match node {
        Node::Leaf { payload, .. } => {
            if let Some(p) = payload {
                out.push(*p);
                assert(out@ =~= old(out)@ + shown(*node));
            } else {
                assert(out@ =~= old(out)@ + shown(*node));
            }
        },
        Node::Split { first, second, .. } => {
            collect_payloads(first, out);
            collect_payloads(second, out);
            assert(out@ =~= old(out)@ + shown(*node));
        },
    }
}

fn leaf_with_payload<P: Ident>(node: &Node<P>, payload: P) -> (out: Option<PaneId>)
    ensures
        out == pane_showing(*node, payload),
    decreases node,
{
    match node {
        Node::Leaf { id, payload: p } => match p {
            Some(q) => if q.same(payload) {
                Some(*id)
            } else {
                None
            },
            None => None,
        },
        Node::Split { first, second, .. } => match leaf_with_payload(first, payload) {
            Some(id) => Some(id),
            None => leaf_with_payload(second, payload),
        },
    }
}

fn contains<P>(node: &Node<P>, id: PaneId) -> (b: bool)
    ensures
        b == has_leaf(*node, id),
    decreases node,
{
    match node {
        Node::Leaf { id: lid, .. } => *lid == id,
        Node::Split { first, second, .. } => contains(first, id) || contains(second, id),
    }
}

fn first_leaf<P>(node: &Node<P>) -> (id: PaneId)
    ensures
        id == first_pane(*node),
    decreases node,
{
    match node {
        Node::Leaf { id, .. } => *id,
        Node::Split { first, .. } => first_leaf(first),
    }
}

fn stamp_of(stamps: &HashMap<PaneId, u64>, id: PaneId) -> (s: u64)
    ensures
        s == stamp(stamps@, id),
{
    match stamps.get(&id) {
        Some(s) => *s,
        None => 0,
    }
}

fn most_recent_leaf<P>(node: &Node<P>, stamps: &HashMap<PaneId, u64>) -> (id: PaneId)
    ensures
        id == latest_pane(*node, stamps@),
    decreases node,
{
    match node {
        Node::Leaf { id, .. } => *id,
        Node::Split { first, second, .. } => {
            let a: PaneId = most_recent_leaf(first, stamps);
            let b: PaneId = most_recent_leaf(second, stamps);
            if stamp_of(stamps, b) > stamp_of(stamps, a) {
                b
            } else {
                a
            }
        },
    }
}

fn set_payload<P>(node: Node<P>, id: PaneId, payload: Option<P>) -> (out: Node<P>)
    ensures
        out == with_payload(node, id, payload),
    decreases node,
{
    match node {
        Node::Leaf { id: lid, payload: p } => if lid == id {
            Node::Leaf { id: lid, payload }
        } else {
            Node::Leaf { id: lid, payload: p }
        },
        Node::Split { axis, ratio, first, second } => {
            if contains(&first, id) {
                let f = set_payload(*first, id, payload);
                Node::Split { axis, ratio, first: Box::new(f), second }
            } else {
                let s = set_payload(*second, id, payload);
                Node::Split { axis, ratio, first, second: Box::new(s) }
            }
        },
    }
}

fn split_leaf<P>(node: Node<P>, target: PaneId, axis: Axis, new_id: PaneId) -> (out: Node<P>)
    ensures
        out == split_at(node, target, axis, new_id),
    decreases node,
{
    match node {
        Node::Leaf { id, payload } => if id == target {
            Node::Split {
                axis,
                ratio: HALF,
                first: Box::new(Node::Leaf { id, payload }),
                second: Box::new(Node::Leaf { id: new_id, payload: None }),
            }
        } else {
            Node::Leaf { id, payload }
        },
        // The existing split keeps its own axis; the requested one goes on down.
        Node::Split { axis: own, ratio, first, second } => {
            let f = split_leaf(*first, target, axis, new_id);
            let s = split_leaf(*second, target, axis, new_id);
            Node::Split { axis: own, ratio, first: Box::new(f), second: Box::new(s) }
        },
    }
}


/// Give blank panes the items of `supply` from `from` on; the second result is the first one left.
fn fill_blank_leaves<P: Ident>(node: Node<P>, supply: &Vec<P>, from: usize) -> (out: (
    Node<P>,
    usize,
))
    requires
        from <= supply@.len(),
    ensures
        out.0 == filled(node, supply@.skip(from as int)),
        out.1 == if from + blanks(node) <= supply@.len() {
            from + blanks(node)
        } else {
            supply@.len() as int
        },
    decreases node,
{
    match node {
        Node::Leaf { id, payload } => {
            if payload.is_none() && from < supply.len() {
                (Node::Leaf { id, payload: Some(supply[from]) }, from + 1)
            } else {
                (Node::Leaf { id, payload }, from)
            }
        },
        Node::Split { axis, ratio, first, second } => {
            let ghost n = blanks(*first);
            let (f, mid) = fill_blank_leaves(*first, supply, from);
            assert(supply@.skip(mid as int) =~= rest(supply@.skip(from as int), n));
            let (s, end) = fill_blank_leaves(*second, supply, mid);
            (Node::Split { axis, ratio, first: Box::new(f), second: Box::new(s) }, end)
        },
    }
}

fn is_leaf<P>(node: &Node<P>, id: PaneId) -> (b: bool)
    ensures
        b == is_pane(*node, id),
{
    match node {
        Node::Leaf { id: lid, .. } => *lid == id,
        Node::Split { .. } => false,
    }
}

fn close_leaf<P>(node: Node<P>, target: PaneId) -> (out: (Option<Node<P>>, Option<PaneId>))
    ensures
        out.0 == without(node, target),
        out.1 == heir(node, target),
    decreases node,
{
    match node {
        Node::Leaf { id, payload } => if id == target {
            (None, None)
        } else {
            (Some(Node::Leaf { id, payload }), None)
        },
        Node::Split { axis, ratio, first, second } => {
            if is_leaf(&first, target) {
                let next: PaneId = first_leaf(&second);
                return (Some(*second), Some(next));
            }
            if is_leaf(&second, target) {
                let next: PaneId = first_leaf(&first);
                return (Some(*first), Some(next));
            }
            let (nf, ff) = close_leaf(*first, target);
            let (ns, fs) = close_leaf(*second, target);
            let next = match ff {
                Some(id) => Some(id),
                None => fs,
            };
            match (nf, ns) {
                (Some(f), Some(s)) => (
                    Some(Node::Split { axis, ratio, first: Box::new(f), second: Box::new(s) }),
                    next,
                ),
                (Some(only), None) => (Some(only), next),
                (None, Some(only)) => (Some(only), next),
                (None, None) => (None, next),
            }
        },
    }
}

fn axis_and_grow(dir: Dir) -> (out: (Axis, bool))
    ensures
        out == spec_axis_and_grow(dir),
{
    match dir {
        Dir::Right => (Axis::LeftRight, true),
        Dir::Left => (Axis::LeftRight, false),
        Dir::Down => (Axis::TopBottom, true),
        Dir::Up => (Axis::TopBottom, false),
    }
}

proof fn nothing_to_resize<P>(node: Node<P>, id: PaneId, axis: Axis, how: Adjust)
    requires
        !has_leaf(node, id),
    ensures
        resized(node, id, axis, how) == node,
{
}

/// Moves the boundary; the other results say whether `focus` lies under the node, and whether a
/// boundary was moved.
fn resize_toward<P>(node: Node<P>, focus: PaneId, axis: Axis, how: Adjust) -> (out: (
    Node<P>,
    bool,
    bool,
))
    ensures
        out.0 == resized(node, focus, axis, how),
        out.1 == has_leaf(node, focus),
        out.2 == splits_along(node, focus, axis),
    decreases node,
{
    match node {
        Node::Leaf { id, payload } => (Node::Leaf { id, payload }, id == focus, false),
        Node::Split { axis: own, ratio, first, second } => {
            let ghost f0 = *first;
            let (f, in_first, handled_first) = resize_toward(*first, focus, axis, how);
            if in_first {
                if !handled_first && own == axis {
                    let moved: u32 = adjust(ratio, how);
                    (
                        Node::Split { axis: own, ratio: moved, first: Box::new(f), second },
                        true,
                        true,
                    )
                } else {
                    (Node::Split { axis: own, ratio, first: Box::new(f), second }, true, handled_first)
                }
            } else {
                proof {
                    nothing_to_resize(f0, focus, axis, how);
                }
                let (s, in_second, handled_second) = resize_toward(*second, focus, axis, how);
                if in_second && !handled_second && own == axis {
                    let moved: u32 = adjust(ratio, how);
                    (
                        Node::Split {
                            axis: own,
                            ratio: moved,
                            first: Box::new(f),
                            second: Box::new(s),
                        },
                        true,
                        true,
                    )
                } else {
                    (
                        Node::Split { axis: own, ratio, first: Box::new(f), second: Box::new(s) },
                        in_second,
                        handled_second,
                    )
                }
            }
        },
    }
}

fn split_rect(r: Rect, axis: Axis, ratio: u32) -> (out: (Rect, Rect))
    ensures
        out == halves(r, axis, ratio),
{
    match axis {
        Axis::LeftRight => {
            let w: u16 = share(r.width, ratio);
            (
                Rect::new(r.x, r.y, w, r.height),
                Rect::new(add_to(r.x, w), r.y, take_off(r.width, w), r.height),
            )
        },
        Axis::TopBottom => {
            let h: u16 = share(r.height, ratio);
            (
                Rect::new(r.x, r.y, r.width, h),
                Rect::new(r.x, add_to(r.y, h), r.width, take_off(r.height, h)),
            )
        },
    }
}

fn layout_node<P: Ident>(node: &Node<P>, slot: Rect, focus: PaneId, out: &mut Vec<Placement<P>>)
    ensures
        final(out)@ == old(out)@ + placed(*node, slot, focus),
    decreases node,
{
    match node {
        Node::Leaf { id, payload } => {
            out.push(Placement { id: *id, payload: *payload, rect: slot, focused: *id == focus });
            assert(out@ =~= old(out)@ + placed(*node, slot, focus));
        },
        Node::Split { axis, ratio, first, second } => {
            let (a, b) = split_rect(slot, *axis, *ratio);
            layout_node(first, a, focus, out);
            layout_node(second, b, focus, out);
            assert(out@ =~= old(out)@ + placed(*node, slot, focus));
        },
    }
}

fn in_dir(dir: Dir, cur: Rect, other: Rect) -> (b: bool)
    ensures
        b == lies_in(dir, cur, other),
{
    let overlap_v = cur.y < other.bottom() && other.y < cur.bottom();
    let overlap_h = cur.x < other.right() && other.x < cur.right();
    match dir {
        Dir::Left => other.right() <= cur.x && overlap_v,
        Dir::Right => other.x >= cur.right() && overlap_v,
        Dir::Up => other.bottom() <= cur.y && overlap_h,
        Dir::Down => other.y >= cur.bottom() && overlap_h,
    }
}

fn apart(a: u32, b: u32) -> (d: u32)
    ensures
        d == if a < b {
            b - a
        } else {
            a - b
        },
{
    if a < b {
        b - a
    } else {
        a - b
    }
}

fn dist(dir: Dir, cur: Rect, other: Rect) -> (out: (u16, u32))
    ensures
        out.0 == gap(dir, cur, other),
        out.1 == offset(dir, cur, other),
{
    let g: u16 = match dir {
        Dir::Left => take_off(cur.x, other.right()),
        Dir::Right => take_off(other.x, cur.right()),
        Dir::Up => take_off(cur.y, other.bottom()),
        Dir::Down => take_off(other.y, cur.bottom()),
    };
    let cx: u32 = cur.x as u32 + (cur.width / 2) as u32;
    let cy: u32 = cur.y as u32 + (cur.height / 2) as u32;
    let ox: u32 = other.x as u32 + (other.width / 2) as u32;
    let oy: u32 = other.y as u32 + (other.height / 2) as u32;
    let perp: u32 = match dir {
        Dir::Left => apart(oy, cy),
        Dir::Right => apart(oy, cy),
        Dir::Up => apart(ox, cx),
        Dir::Down => apart(ox, cx),
    };
    (g, perp)
}

fn find_slot<P>(places: &Vec<Placement<P>>, id: PaneId) -> (out: Option<Rect>)
    ensures
        out == slot_of(places@, id),
{
    let mut i: usize = 0;
    assert(places@.skip(0) =~= places@);
    while i < places.len()
        invariant
            i <= places@.len(),
            slot_of(places@, id) == slot_of(places@.skip(i as int), id),
        decreases places@.len() - i,
    {
        assert(places@.skip(i as int).drop_first() =~= places@.skip(i + 1));
        if places[i].id == id {
            return Some(places[i].rect);
        }
        i = i + 1;
    }
    None
}

impl<P: Ident> Default for PaneTree<P> {
    fn default() -> (tree: Self)
        ensures
            tree@ == TreeView::<P>::empty(),
    {
        Self::new()
    }
}

impl<P: Ident> PaneTree<P> {
    /// A tree without panes.
    pub fn new() -> (tree: Self)
        ensures
            tree@ == TreeView::<P>::empty(),
    {
        PaneTree { root: None, focus: 0, next_id: 1, clock: 0, last_focus: HashMap::new() }
    }

    /// The tree itself, with one without panes left in its place.
    fn taken(&mut self) -> (tree: Self)
        ensures
            tree@ == old(self)@,
            tree@.wf(),
            final(self)@ == TreeView::<P>::empty(),
    {
        let mut tree = PaneTree::new();
        std::mem::swap(self, &mut tree);
        proof {
            use_type_invariant(&tree);
        }
        tree
    }

    /// A tree with the focus moved to `id`, which is stamped. Every change of focus comes through
    /// here, so the stamps tell of any visit: by key, by mouse, by a split.
    fn focused(
        root: Node<P>,
        next_id: PaneId,
        clock: u64,
        last_focus: HashMap<PaneId, u64>,
        id: PaneId,
    ) -> (tree: Self)
        requires
            (TreeView { root: Some(root), focus: id, next_id, clock, stamps: last_focus@ }).wf(),
        ensures
            tree@ == (TreeView {
                root: Some(root),
                focus: id,
                next_id,
                clock,
                stamps: last_focus@,
            }).focus_on(id),
    {
        let ghost v = TreeView {
            root: Some(root),
            focus: id,
            next_id,
            clock,
            stamps: last_focus@,
        };
        let clock: u64 = if clock < u64::MAX {
            clock + 1
        } else {
            clock
        };
        let mut last_focus = last_focus;
        last_focus.insert(id, clock);
        proof {
            focus_on_keeps_wf(v, id);
        }
        PaneTree { root: Some(root), focus: id, next_id, clock, last_focus }
    }

    fn set_focus(&mut self, id: PaneId)
        requires
            old(self)@.root matches Some(node) && has_leaf(node, id),
        ensures
            final(self)@ == old(self)@.focus_on(id),
    {
        let PaneTree { root, focus: _, next_id, clock, last_focus } = self.taken();
        if let Some(node) = root {
            *self = Self::focused(node, next_id, clock, last_focus, id);
        }
    }

    /// Whether the tree has no panes.
    pub fn is_empty(&self) -> (b: bool)
        ensures
            b == (self@.root is None),
    {
        self.root.is_none()
    }

    /// Whether another pane id can be handed out.
    pub fn has_room(&self) -> (b: bool)
        ensures
            b == (self@.next_id < u64::MAX),
    {
        self.next_id < u64::MAX
    }

    /// What the focused pane shows.
    pub fn focused_payload(&self) -> (out: Option<P>)
        ensures
            out == self@.focused_payload(),
    {
        match &self.root {
            None => None,
            Some(node) => match find_payload(node, self.focus) {
                Some(p) => p,
                None => None,
            },
        }
    }

    /// Every payload shown in a pane, in tree order.
    pub fn payloads(&self) -> (out: Vec<P>)
        ensures
            out@ == self@.payloads(),
    {
        let mut out: Vec<P> = Vec::new();
        if let Some(node) = &self.root {
            collect_payloads(node, &mut out);
            assert(out@ =~= shown(*node));
        }
        out
    }

    /// Put `payload` into the focused pane, making a first pane if there is none.
    pub fn open(&mut self, payload: P)
        requires
            old(self)@.root is None ==> old(self)@.next_id < u64::MAX,
        ensures
            final(self)@ == old(self)@.open(payload),
    {
        let ghost v = self@;
        let PaneTree { root, focus, next_id, clock, last_focus } = self.taken();
        match root {
            None => {
                let node = Node::Leaf { id: next_id, payload: Some(payload) };
                assert(has_leaf(node, next_id));
                *self = Self::focused(node, next_id + 1, clock, last_focus, next_id);
            },
            Some(node) => {
                let node = set_payload(node, focus, Some(payload));
                proof {
                    open_keeps_wf(v, payload);
                }
                *self = PaneTree { root: Some(node), focus, next_id, clock, last_focus };
            },
        }
    }

    /// Give the blank panes, first pane first, the items of `supply` as far as they go, and return
    /// those that were given out.
    ///
    /// A layout restored after the daemon was restarted has blank panes where its shells were: a
    /// blank pane is one that waits for its terminal, as a split leaves behind.
    pub fn fill_blanks(&mut self, supply: &Vec<P>) -> (out: Vec<P>)
        ensures
            final(self)@ == old(self)@.fill_blanks(supply@),
            out@ == used(supply@, old(self)@.blank_count()),
    {
        let ghost v = self@;
        let PaneTree { root, focus, next_id, clock, last_focus } = self.taken();
        match root {
            None => {
                assert(used(supply@, 0) =~= Seq::<P>::empty());
                *self = PaneTree { root: None, focus, next_id, clock, last_focus };
                Vec::new()
            },
            Some(node) => {
                assert(supply@.skip(0) =~= supply@);
                let (node, n) = fill_blank_leaves(node, supply, 0);
                proof {
                    fill_keeps_wf(v, supply@);
                }
                *self = PaneTree { root: Some(node), focus, next_id, clock, last_focus };
                let mut out: Vec<P> = Vec::new();
                let mut i: usize = 0;
                while i < n
                    invariant
                        i <= n <= supply@.len(),
                        out@ == supply@.take(i as int),
                    decreases n - i,
                {
                    out.push(supply[i]);
                    assert(out@ =~= supply@.take(i + 1));
                    i = i + 1;
                }
                assert(out@ =~= used(supply@, old(self)@.blank_count()));
                out
            },
        }
    }

    /// Split the focused pane; the new, blank pane gets the focus. Nothing happens without panes.
    pub fn split(&mut self, axis: Axis)
        requires
            old(self)@.root is Some ==> old(self)@.next_id < u64::MAX,
        ensures
            final(self)@ == old(self)@.split(axis),
    {
        if self.root.is_none() {
            return;
        }
        let ghost v = self@;
        let PaneTree { root, focus, next_id, clock, last_focus } = self.taken();
        if let Some(node) = root {
            proof {
                split_keeps_wf(v, axis);
                split_adds_a_pane(node, v.focus, axis, v.next_id);
            }
            let node = split_leaf(node, focus, axis, next_id);
            *self = Self::focused(node, next_id + 1, clock, last_focus, next_id);
        }
    }

    /// Close the focused pane; the focus moves to its sibling.
    pub fn close(&mut self)
        ensures
            final(self)@ == old(self)@.close(),
    {
        self.close_id(self.focus);
    }

    /// Close the pane showing `payload`, if any, and say whether there was one.
    pub fn close_payload(&mut self, payload: P) -> (found: bool)
        ensures
            final(self)@ == old(self)@.close_payload(payload),
            found == (old(self)@.showing(payload) is Some),
    {
        let at = match &self.root {
            None => None,
            Some(node) => leaf_with_payload(node, payload),
        };
        match at {
            Some(id) => {
                self.close_id(id);
                true
            },
            None => false,
        }
    }

    fn close_id(&mut self, id: PaneId)
        ensures
            final(self)@ == old(self)@.close_id(id),
    {
        if self.root.is_none() {
            return;
        }
        let ghost v = self@;
        let PaneTree { root, focus, next_id, clock, last_focus } = self.taken();
        if let Some(node) = root {
            proof {
                close_keeps_wf(v, id);
                if has_leaf(node, id) {
                    closing_takes_one_pane(node, id);
                } else {
                    without_absent(node, id);
                }
            }
            let (left, sibling) = close_leaf(node, id);
            let mut last_focus = last_focus;
            last_focus.remove(&id);
            *self = match left {
                None => PaneTree { root: None, focus: 0, next_id, clock, last_focus },
                Some(rest) => if focus != id {
                    PaneTree { root: Some(rest), focus, next_id, clock, last_focus }
                } else {
                    let next: PaneId = match sibling {
                        Some(next) => next,
                        None => first_leaf(&rest),
                    };
                    Self::focused(rest, next_id, clock, last_focus, next)
                },
            };
        }
    }

    /// Focus the pane worked in most recently: where the user left off, coming back from the
    /// sidebar. A tree without history gives its first pane.
    pub fn focus_most_recent(&mut self)
        ensures
            final(self)@ == old(self)@.focus_most_recent(),
    {
        let latest = match &self.root {
            None => None,
            Some(node) => Some(most_recent_leaf(node, &self.last_focus)),
        };
        if let Some(id) = latest {
            proof {
                latest_pane_is_a_leaf(self@.root->0, self@.stamps);
            }
            self.set_focus(id);
        }
    }

    /// Focus the pane holding `payload`, as when a click landed on it, and say whether there is one.
    pub fn focus_payload(&mut self, payload: P) -> (found: bool)
        ensures
            final(self)@ == old(self)@.focus_payload(payload),
            found == (old(self)@.showing(payload) is Some),
    {
        let at = match &self.root {
            None => None,
            Some(node) => leaf_with_payload(node, payload),
        };
        match at {
            Some(id) => {
                proof {
                    pane_showing_is_a_leaf(self@.root->0, payload);
                }
                self.set_focus(id);
                true
            },
            None => false,
        }
    }

    /// Move the focus in `dir` within `area`. The nearest pane wins; on a tie the most recently
    /// focused one, then the one whose middle is closest.
    pub fn navigate(&mut self, dir: Dir, area: Rect) -> (nav: Nav)
        ensures
            final(self)@ == old(self)@.navigate(dir, area),
            nav == old(self)@.nav_result(dir, area),
    {
        let places = self.layout(area);
        let cur = match find_slot(&places, self.focus) {
            Some(r) => r,
            None => {
                return Nav::Stay;
            },
        };
        let mut best: Option<usize> = None;
        let mut i: usize = 0;
        while i < places.len()
            invariant
                i <= places@.len(),
                self == old(self),
                best is Some ==> best->0 < i,
                match (best, target_among(
                    dir,
                    self.focus,
                    cur,
                    self.last_focus@,
                    places@,
                    i as nat,
                )) {
                    (Some(a), Some(b)) => a as int == b,
                    (None, None) => true,
                    _ => false,
                },
            decreases places@.len() - i,
        {
            let p = places[i];
            if p.id != self.focus && in_dir(dir, cur, p.rect) {
                let better = match best {
                    None => true,
                    Some(b) => {
                        let q = places[b];
                        let (pg, pp) = dist(dir, cur, p.rect);
                        let (qg, qp) = dist(dir, cur, q.rect);
                        let ps: u64 = stamp_of(&self.last_focus, p.id);
                        let qs: u64 = stamp_of(&self.last_focus, q.id);
                        pg < qg || (pg == qg && (ps > qs || (ps == qs && pp < qp)))
                    },
                };
                if better {
                    best = Some(i);
                }
            }
            i = i + 1;
        }
        match best {
            Some(b) => {
                let id: PaneId = places[b].id;
                proof {
                    placements_are_leaves(self@.root->0, area, self@.focus, b as int);
                }
                self.set_focus(id);
                Nav::Moved
            },
            None => if dir == Dir::Left {
                Nav::ExitLeft
            } else {
                Nav::Stay
            },
        }
    }

    /// Grow or shrink the focused pane in `dir` by `step`, moving the nearest boundary above it that
    /// lies that way.
    pub fn resize(&mut self, dir: Dir, step: u32)
        ensures
            final(self)@ == old(self)@.resize(dir, step),
    {
        let (axis, grow) = axis_and_grow(dir);
        self.adjust_boundary(axis, Adjust::Nudge { step, grow });
    }

    /// Snap the boundary that [`PaneTree::resize`] would move to the next stop in `dir`. Stops are
    /// fractions of the split's own slot, so nested splits behave like the outermost one.
    pub fn resize_snap(&mut self, dir: Dir)
        ensures
            final(self)@ == old(self)@.resize_snap(dir),
    {
        let (axis, grow) = axis_and_grow(dir);
        self.adjust_boundary(axis, Adjust::Snap { grow });
    }

    fn adjust_boundary(&mut self, axis: Axis, how: Adjust)
        ensures
            final(self)@ == old(self)@.move_boundary(axis, how),
    {
        if self.root.is_none() {
            return;
        }
        let ghost v = self@;
        let PaneTree { root, focus, next_id, clock, last_focus } = self.taken();
        if let Some(node) = root {
            let (node, _under, _moved) = resize_toward(node, focus, axis, how);
            proof {
                resize_keeps_wf(v, axis, how);
            }
            *self = PaneTree { root: Some(node), focus, next_id, clock, last_focus };
        }
    }

    /// The placement of every pane within `area`.
    pub fn layout(&self, area: Rect) -> (out: Vec<Placement<P>>)
        ensures
            out@ == self@.layout(area),
    {
        let mut out: Vec<Placement<P>> = Vec::new();
        if let Some(node) = &self.root {
            layout_node(node, area, self.focus, &mut out);
            assert(out@ =~= placed(*node, area, self.focus));
        }
        out
    }
}


// --- layouts as they are persisted ---

/// The layout of a node.
pub open spec fn layout_of(node: Node<TerminalId>) -> Layout
    decreases node,
{
    match node {
        Node::Leaf { payload, .. } => Layout::Leaf { terminal: payload },
        Node::Split { axis, ratio, first, second } => Layout::Split {
            axis,
            ratio,
            first: Box::new(layout_of(*first)),
            second: Box::new(layout_of(*second)),
        },
    }
}

/// The number of panes of a layout.
pub open spec fn pane_count(layout: Layout) -> nat
    decreases layout,
{
    match layout {
        Layout::Leaf { .. } => 1,
        Layout::Split { first, second, .. } => pane_count(*first) + pane_count(*second),
    }
}

/// The number of blank panes of a layout.
pub open spec fn layout_blanks(layout: Layout) -> nat
    decreases layout,
{
    match layout {
        Layout::Leaf { terminal } => if terminal is None {
            1
        } else {
            0
        },
        Layout::Split { first, second, .. } => layout_blanks(*first) + layout_blanks(*second),
    }
}

/// The node for a layout, its panes numbered from `next` on.
pub open spec fn node_of(layout: Layout, next: nat) -> Node<TerminalId>
    decreases layout,
{
    match layout {
        Layout::Leaf { terminal } => Node::Leaf { id: next as u64, payload: terminal },
        Layout::Split { axis, ratio, first, second } => Node::Split {
            axis,
            ratio,
            first: Box::new(node_of(*first, next)),
            second: Box::new(node_of(*second, next + pane_count(*first))),
        },
    }
}

impl TreeView<TerminalId> {
    /// The layout to persist.
    pub open spec fn to_layout(self) -> Option<Layout> {
        match self.root {
            None => None,
            Some(node) => Some(layout_of(node)),
        }
    }

    /// The tree for a persisted layout, with the focus on its first pane.
    pub open spec fn from_layout(layout: Layout) -> TreeView<TerminalId> {
        TreeView {
            root: Some(node_of(layout, 1)),
            focus: 0,
            next_id: (1 + pane_count(layout)) as u64,
            clock: 0,
            stamps: Map::empty(),
        }.focus_on(first_pane(node_of(layout, 1)))
    }
}

impl View for Layout {
    type V = Layout;

    open spec fn view(&self) -> Layout {
        *self
    }
}

impl Layout {
    /// The number of panes, held at the largest number that can be told.
    pub fn panes(&self) -> (n: u64)
        ensures
            n == if pane_count(*self) <= u64::MAX {
                pane_count(*self)
            } else {
                u64::MAX as nat
            },
        decreases self,
    {
        match self {
            Layout::Leaf { .. } => 1,
            Layout::Split { first, second, .. } => {
                let a: u64 = first.panes();
                let b: u64 = second.panes();
                if a > u64::MAX - b {
                    u64::MAX
                } else {
                    a + b
                }
            },
        }
    }

    /// The number of blank panes, held at the largest number that can be told.
    pub fn blank_panes(&self) -> (n: usize)
        ensures
            n == if layout_blanks(*self) <= usize::MAX {
                layout_blanks(*self)
            } else {
                usize::MAX as nat
            },
        decreases self,
    {
        match self {
            Layout::Leaf { terminal } => if terminal.is_none() {
                1
            } else {
                0
            },
            Layout::Split { first, second, .. } => {
                let a: usize = first.blank_panes();
                let b: usize = second.blank_panes();
                if a > usize::MAX - b {
                    usize::MAX
                } else {
                    a + b
                }
            },
        }
    }

    /// A layout with the same panes and splits.
    pub fn copy(&self) -> (out: Layout)
        ensures
            out == *self,
        decreases self,
    {
        match self {
            Layout::Leaf { terminal } => Layout::Leaf { terminal: *terminal },
            Layout::Split { axis, ratio, first, second } => {
                let f = first.copy();
                let s = second.copy();
                Layout::Split { axis: *axis, ratio: *ratio, first: Box::new(f), second: Box::new(s) }
            },
        }
    }
}

fn node_to_layout(node: &Node<TerminalId>) -> (out: Layout)
    ensures
        out == layout_of(*node),
    decreases node,
{
    match node {
        Node::Leaf { payload, .. } => Layout::Leaf { terminal: *payload },
        Node::Split { axis, ratio, first, second } => {
            let f = node_to_layout(first);
            let s = node_to_layout(second);
            Layout::Split { axis: *axis, ratio: *ratio, first: Box::new(f), second: Box::new(s) }
        },
    }
}

fn layout_to_node(layout: &Layout, next_id: PaneId) -> (out: (Node<TerminalId>, PaneId))
    requires
        next_id + pane_count(*layout) <= u64::MAX,
    ensures
        out.0 == node_of(*layout, next_id as nat),
        out.1 == next_id + pane_count(*layout),
    decreases layout,
{
    match layout {
        Layout::Leaf { terminal } => (
            Node::Leaf { id: next_id, payload: *terminal },
            next_id + 1,
        ),
        Layout::Split { axis, ratio, first, second } => {
            let (f, mid) = layout_to_node(first, next_id);
            let (s, end) = layout_to_node(second, mid);
            (
                Node::Split { axis: *axis, ratio: *ratio, first: Box::new(f), second: Box::new(s) },
                end,
            )
        },
    }
}

impl PaneTree<TerminalId> {
    /// The tree as a layout to persist: `None` when it is empty.
    pub fn to_layout(&self) -> (out: Option<Layout>)
        ensures
            out == self@.to_layout(),
    {
        match &self.root {
            None => None,
            Some(node) => Some(node_to_layout(node)),
        }
    }

    /// The tree for a persisted layout, with the focus on its first pane. The history of the focus
    /// is not persisted, so only that pane carries a stamp.
    pub fn from_layout(layout: &Layout) -> (tree: Self)
        requires
            pane_count(*layout) < u64::MAX,
        ensures
            tree@ == TreeView::<TerminalId>::from_layout(*layout),
    {
        let (root, next_id) = layout_to_node(layout, 1);
        let focus: PaneId = first_leaf(&root);
        proof {
            from_layout_is_wf(*layout);
        }
        Self::focused(root, next_id, 0, HashMap::new(), focus)
    }
}

} // verus!
