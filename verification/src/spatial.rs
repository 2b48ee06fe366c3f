//! Where panes lie and where movement leads, told by the rectangles that are drawn.

use vstd::prelude::*;
use crate::geometry::{Axis, Dir, Rect};
use crate::pane::{
    distinct, first_pane, gap, halves, has_leaf, heir, is_pane, leaves, lies_in, pane_showing,
    payload_at, placed, preferred, reachable, resized, slot_of, split_at, splits_along, stamp,
    target_among, without, Nav, Node, PaneId, Placement, TreeView,
};
use crate::pane_laws::{
    best_target, no_payload_elsewhere, nothing_along, pane_showing_is_a_leaf, placements_are_leaves,
    resized_keeps_panes, split_of_absent, without_absent,
};
use crate::ratio::{adjusted, snap_stops, Adjust, HALF, ONE, RATIO_MAX, RATIO_MIN, SNAP_EPS};
use crate::ratio_laws::{half_is_half, nudges_go_where_they_are_told, snaps_go_to_the_next_stop};

verus! {

// --- rectangles ---

/// Whether row `y` crosses `r`.
pub open spec fn in_rows(r: Rect, y: int) -> bool {
    r.y <= y < r.y + r.height
}

/// Whether column `x` crosses `r`.
pub open spec fn in_columns(r: Rect, x: int) -> bool {
    r.x <= x < r.x + r.width
}

/// Whether `r` has any cells.
pub open spec fn has_cells(r: Rect) -> bool {
    r.width > 0 && r.height > 0
}

/// Whether `b` is seen from `a` when looking in `dir`: nothing of it lies on any other side, and the
/// two have a row in common when looking sideways, a column when looking up or down.
pub open spec fn faces(dir: Dir, a: Rect, b: Rect) -> bool {
    match dir {
        Dir::Left => b.x + b.width <= a.x && exists|y: int| #[trigger] in_rows(a, y) && in_rows(b, y),
        Dir::Right => a.x + a.width <= b.x && exists|y: int| #[trigger] in_rows(a, y) && in_rows(b, y),
        Dir::Up => b.y + b.height <= a.y && exists|x: int| #[trigger] in_columns(a, x) && in_columns(
            b,
            x,
        ),
        Dir::Down => a.y + a.height <= b.y && exists|x: int| #[trigger] in_columns(a, x)
            && in_columns(b, x),
    }
}

/// The cells between `a` and `b`, which is seen from it in `dir`.
pub open spec fn cells_between(dir: Dir, a: Rect, b: Rect) -> int {
    match dir {
        Dir::Left => a.x - (b.x + b.width),
        Dir::Right => b.x - (a.x + a.width),
        Dir::Up => a.y - (b.y + b.height),
        Dir::Down => b.y - (a.y + a.height),
    }
}

/// How far the middle of `b` lies from that of `a`, across `dir`.
pub open spec fn middles_apart(dir: Dir, a: Rect, b: Rect) -> int {
    let d = match dir {
        Dir::Left => b.y + b.height / 2 - a.y - a.height / 2,
        Dir::Right => b.y + b.height / 2 - a.y - a.height / 2,
        Dir::Up => b.x + b.width / 2 - a.x - a.width / 2,
        Dir::Down => b.x + b.width / 2 - a.x - a.width / 2,
    };
    if d >= 0 {
        d
    } else {
        -d
    }
}

pub(crate) proof fn placements_fit<P>(node: Node<P>, slot: Rect, focus: PaneId, i: int)
    requires
        slot.fits(),
        0 <= i < placed(node, slot, focus).len(),
    ensures
        placed(node, slot, focus)[i].rect.fits(),
    decreases node,
{
    match node {
        Node::Leaf { .. } => {},
        Node::Split { axis, ratio, first, second } => {
            let (a, b) = halves(slot, axis, ratio);
            let n = placed(*first, a, focus).len();
            if i < n {
                placements_fit(*first, a, focus, i);
            } else {
                placements_fit(*second, b, focus, i - n);
            }
        },
    }
}

pub(crate) proof fn placements_differ<P>(node: Node<P>, slot: Rect, focus: PaneId, i: int, j: int)
    requires
        distinct(node),
        0 <= i < placed(node, slot, focus).len(),
        0 <= j < placed(node, slot, focus).len(),
        placed(node, slot, focus)[i].id == placed(node, slot, focus)[j].id,
    ensures
        i == j,
    decreases node,
{
    match node {
        Node::Leaf { .. } => {},
        Node::Split { axis, ratio, first, second } => {
            let (a, b) = halves(slot, axis, ratio);
            let (p, q) = (placed(*first, a, focus), placed(*second, b, focus));
            let n = p.len();
            let id = placed(node, slot, focus)[i].id;
            if i < n {
                placements_are_leaves(*first, a, focus, i);
                assert(has_leaf(*first, id));
            } else {
                placements_are_leaves(*second, b, focus, i - n);
                assert(has_leaf(*second, id));
            }
            if j < n {
                placements_are_leaves(*first, a, focus, j);
                assert(has_leaf(*first, id));
            } else {
                placements_are_leaves(*second, b, focus, j - n);
                assert(has_leaf(*second, id));
            }
            if i < n && j < n {
                placements_differ(*first, a, focus, i, j);
            } else if i >= n && j >= n {
                placements_differ(*second, b, focus, i - n, j - n);
            }
        },
    }
}

proof fn slot_is_placed<P>(places: Seq<Placement<P>>, id: PaneId, i: int)
    requires
        0 <= i < places.len(),
        places[i].id == id,
        forall|k: int| 0 <= k < places.len() && (#[trigger] places[k]).id == id ==> k == i,
    ensures
        slot_of(places, id) == Some(places[i].rect),
    decreases places.len(),
{
    if places[0].id != id {
        let rest = places.drop_first();
        assert forall|k: int| 0 <= k < rest.len() && (#[trigger] rest[k]).id == id implies k == i
            - 1 by {
            assert(places[k + 1].id == id);
        }
        slot_is_placed(rest, id, i - 1);
    } else {
        assert(0 == i);
    }
}

/// A pane that is focused and placed is found at its place.
proof fn focus_is_found<P>(v: TreeView<P>, area: Rect, i: int)
    requires
        v.wf(),
        0 <= i < v.layout(area).len(),
        v.layout(area)[i].id == v.focus,
    ensures
        slot_of(v.layout(area), v.focus) == Some(v.layout(area)[i].rect),
{
    let node = v.root->0;
    let places = v.layout(area);
    assert forall|k: int| 0 <= k < places.len() && (#[trigger] places[k]).id == v.focus implies k
        == i by {
        placements_differ(node, area, v.focus, k, i);
    }
    slot_is_placed(places, v.focus, i);
}

// --- moving ---

/// A move lands on a pane that faces the one it left: a row is common to both where it goes left or
/// right, a column where it goes up or down, and the new pane lies wholly on that side.
pub proof fn moves_land_on_a_facing_pane<P>(v: TreeView<P>, dir: Dir, area: Rect, i: int, j: int)
    requires
        v.wf(),
        area.fits(),
        0 <= i < v.layout(area).len(),
        v.layout(area)[i].id == v.focus,
        0 <= j < v.layout(area).len(),
        v.layout(area)[j].id == v.navigate(dir, area).focus,
        v.navigate(dir, area).focus != v.focus,
        has_cells(v.layout(area)[i].rect),
        has_cells(v.layout(area)[j].rect),
    ensures
        ({
            let (a, b) = (v.layout(area)[i].rect, v.layout(area)[j].rect);
            match dir {
                Dir::Left => b.x + b.width <= a.x && exists|y: int| #[trigger] in_rows(a, y)
                    && in_rows(b, y),
                Dir::Right => a.x + a.width <= b.x && exists|y: int| #[trigger] in_rows(a, y)
                    && in_rows(b, y),
                Dir::Up => b.y + b.height <= a.y && exists|x: int| #[trigger] in_columns(a, x)
                    && in_columns(b, x),
                Dir::Down => a.y + a.height <= b.y && exists|x: int| #[trigger] in_columns(a, x)
                    && in_columns(b, x),
            }
        }),
{
    moves_go_to_the_nearest_facing_pane(v, dir, area, i, j, j);
    let (a, b) = (v.layout(area)[i].rect, v.layout(area)[j].rect);
    assert(faces(dir, a, b));
    if dir == Dir::Left || dir == Dir::Right {
        let y = choose|y: int| #[trigger] in_rows(a, y) && in_rows(b, y);
        assert(in_rows(a, y) && in_rows(b, y));
    } else {
        let x = choose|x: int| #[trigger] in_columns(a, x) && in_columns(b, x);
        assert(in_columns(a, x) && in_columns(b, x));
    }
}

/// Of the panes that face the focused one, a move goes to one that no other is nearer than; of the
/// nearest ones, to one that no other was focused later than; and of those never focused, or focused
/// at one time, to one whose middle is closest.
pub proof fn moves_go_to_the_nearest_facing_pane<P>(
    v: TreeView<P>,
    dir: Dir,
    area: Rect,
    i: int,
    j: int,
    k: int,
)
    requires
        v.wf(),
        area.fits(),
        0 <= i < v.layout(area).len(),
        v.layout(area)[i].id == v.focus,
        0 <= j < v.layout(area).len(),
        v.layout(area)[j].id == v.navigate(dir, area).focus,
        v.navigate(dir, area).focus != v.focus,
        0 <= k < v.layout(area).len(),
        has_cells(v.layout(area)[i].rect),
        has_cells(v.layout(area)[j].rect),
    ensures
        ({
            let places = v.layout(area);
            let (a, b, c) = (places[i].rect, places[j].rect, places[k].rect);
            &&& faces(dir, a, b)
            &&& k != i && faces(dir, a, c) ==> {
                ||| cells_between(dir, a, b) < cells_between(dir, a, c)
                ||| cells_between(dir, a, b) == cells_between(dir, a, c) && stamp(
                    v.stamps,
                    places[j].id,
                ) > stamp(v.stamps, places[k].id)
                ||| cells_between(dir, a, b) == cells_between(dir, a, c) && stamp(
                    v.stamps,
                    places[j].id,
                ) == stamp(v.stamps, places[k].id) && middles_apart(dir, a, b) <= middles_apart(
                    dir,
                    a,
                    c,
                )
            }
        }),
{
    let node = v.root->0;
    let places = v.layout(area);
    focus_is_found(v, area, i);
    placements_fit(node, area, v.focus, i);
    placements_fit(node, area, v.focus, j);
    placements_fit(node, area, v.focus, k);
    let (a, b, c) = (places[i].rect, places[j].rect, places[k].rect);
    best_target(dir, v.focus, a, v.stamps, places, places.len());
    let t = target_among(dir, v.focus, a, v.stamps, places, places.len())->0;
    placements_differ(node, area, v.focus, t, j);
    meets(dir, a, b);
    if k != i && faces(dir, a, c) {
        meets(dir, a, c);
        if places[k].id == v.focus {
            placements_differ(node, area, v.focus, k, i);
        }
        assert(!preferred(dir, a, v.stamps, places[k], places[j]));
    }
}

proof fn meets(dir: Dir, a: Rect, b: Rect)
    requires
        a.fits(),
        b.fits(),
    ensures
        faces(dir, a, b) ==> lies_in(dir, a, b),
        lies_in(dir, a, b) && has_cells(a) && has_cells(b) ==> faces(dir, a, b),
        faces(dir, a, b) ==> gap(dir, a, b) == cells_between(dir, a, b),
{
    let y = if a.y < b.y {
        b.y as int
    } else {
        a.y as int
    };
    let x = if a.x < b.x {
        b.x as int
    } else {
        a.x as int
    };
    if lies_in(dir, a, b) && has_cells(a) && has_cells(b) {
        match dir {
            Dir::Left => {
                assert(in_rows(a, y) && in_rows(b, y));
            },
            Dir::Right => {
                assert(in_rows(a, y) && in_rows(b, y));
            },
            Dir::Up => {
                assert(in_columns(a, x) && in_columns(b, x));
            },
            Dir::Down => {
                assert(in_columns(a, x) && in_columns(b, x));
            },
        }
    }
}

/// A move stays where it is only if no pane faces the focused one on that side; where one does, it
/// goes. Off the left edge it reports the way out.
pub proof fn moves_stay_only_where_nothing_faces<P>(
    v: TreeView<P>,
    dir: Dir,
    area: Rect,
    i: int,
    k: int,
)
    requires
        v.wf(),
        area.fits(),
        0 <= i < v.layout(area).len(),
        v.layout(area)[i].id == v.focus,
        0 <= k < v.layout(area).len(),
    ensures
        k != i && faces(dir, v.layout(area)[i].rect, v.layout(area)[k].rect) ==> {
            &&& v.navigate(dir, area).focus != v.focus
            &&& v.nav_result(dir, area) == Nav::Moved
        },
        v.nav_result(dir, area) == Nav::Moved <==> v.navigate(dir, area).focus != v.focus,
        v.nav_result(dir, area) == Nav::ExitLeft <==> dir == Dir::Left && v.navigate(
            dir,
            area,
        ).focus == v.focus,
        v.navigate(dir, area).root == v.root,
        v.navigate(dir, area).next_id == v.next_id,
{
    let node = v.root->0;
    let places = v.layout(area);
    focus_is_found(v, area, i);
    placements_fit(node, area, v.focus, i);
    placements_fit(node, area, v.focus, k);
    let (a, c) = (places[i].rect, places[k].rect);
    best_target(dir, v.focus, a, v.stamps, places, places.len());
    if k != i && faces(dir, a, c) {
        meets(dir, a, c);
        if places[k].id == v.focus {
            placements_differ(node, area, v.focus, k, i);
        }
        assert(reachable(dir, v.focus, a, places[k]));
    }
}

// --- splitting ---

/// Whether two placements are of one pane, with the same contents at the same place.
pub open spec fn same_place<P>(a: Placement<P>, b: Placement<P>) -> bool {
    a.id == b.id && a.payload == b.payload && a.rect == b.rect
}

proof fn absent_split_places_alike<P>(
    node: Node<P>,
    slot: Rect,
    f: PaneId,
    g: PaneId,
    k: int,
)
    requires
        0 <= k < placed(node, slot, f).len(),
    ensures
        placed(node, slot, f).len() == placed(node, slot, g).len(),
        same_place(placed(node, slot, f)[k], placed(node, slot, g)[k]),
    decreases node,
{
    match node {
        Node::Leaf { .. } => {},
        Node::Split { axis, ratio, first, second } => {
            let (a, b) = halves(slot, axis, ratio);
            let n = placed(*first, a, f).len();
            focus_does_not_count(*first, a, f, g);
            focus_does_not_count(*second, b, f, g);
            if k < n {
                absent_split_places_alike(*first, a, f, g, k);
            } else {
                absent_split_places_alike(*second, b, f, g, k - n);
            }
        },
    }
}

pub(crate) proof fn focus_does_not_count<P>(node: Node<P>, slot: Rect, f: PaneId, g: PaneId)
    ensures
        placed(node, slot, f).len() == placed(node, slot, g).len(),
        placed(node, slot, f).len() >= 1,
    decreases node,
{
    match node {
        Node::Leaf { .. } => {},
        Node::Split { axis, ratio, first, second } => {
            let (a, b) = halves(slot, axis, ratio);
            focus_does_not_count(*first, a, f, g);
            focus_does_not_count(*second, b, f, g);
        },
    }
}

proof fn split_is_placed<P>(
    node: Node<P>,
    slot: Rect,
    f: PaneId,
    g: PaneId,
    target: PaneId,
    axis: Axis,
    new_id: PaneId,
    i: int,
)
    requires
        distinct(node),
        0 <= i < placed(node, slot, f).len(),
        placed(node, slot, f)[i].id == target,
    ensures
        ({
            let before = placed(node, slot, f);
            let after = placed(split_at(node, target, axis, new_id), slot, g);
            &&& after.len() == before.len() + 1
            &&& forall|k: int| 0 <= k < i ==> same_place(#[trigger] after[k], before[k])
            &&& forall|k: int|
                i + 1 < k < after.len() ==> same_place(#[trigger] after[k], before[k - 1])
            &&& after[i].id == target && after[i].payload == before[i].payload
            &&& after[i].rect == halves(before[i].rect, axis, HALF).0
            &&& after[i + 1].id == new_id && after[i + 1].payload is None
            &&& after[i + 1].rect == halves(before[i].rect, axis, HALF).1
        }),
    decreases node,
{
    let before = placed(node, slot, f);
    let after = placed(split_at(node, target, axis, new_id), slot, g);
    match node {
        Node::Leaf { id, payload } => {
            reveal_with_fuel(placed, 3);
        },
        Node::Split { axis: own, ratio, first, second } => {
            let (a, b) = halves(slot, own, ratio);
            let n = placed(*first, a, f).len();
            let (f1, s1) = (
                split_at(*first, target, axis, new_id),
                split_at(*second, target, axis, new_id),
            );
            assert(after == placed(f1, a, g) + placed(s1, b, g));
            if i < n {
                placements_are_leaves(*first, a, f, i);
                assert(has_leaf(*first, target) && !has_leaf(*second, target));
                split_of_absent(*second, target, axis, new_id);
                split_is_placed(*first, a, f, g, target, axis, new_id, i);
                focus_does_not_count(*second, b, f, g);
                assert forall|k: int| i + 1 < k < after.len() implies same_place(
                    #[trigger] after[k],
                    before[k - 1],
                ) by {
                    if k >= n + 1 {
                        absent_split_places_alike(*second, b, f, g, k - 1 - n);
                    } else {
                        assert(same_place(placed(f1, a, g)[k], placed(*first, a, f)[k - 1]));
                    }
                }
                assert forall|k: int| 0 <= k < i implies same_place(
                    #[trigger] after[k],
                    before[k],
                ) by {
                    assert(same_place(placed(f1, a, g)[k], placed(*first, a, f)[k]));
                }
            } else {
                placements_are_leaves(*second, b, f, i - n);
                assert(has_leaf(*second, target));
                assert(!has_leaf(*first, target));
                split_of_absent(*first, target, axis, new_id);
                split_is_placed(*second, b, f, g, target, axis, new_id, i - n);
                focus_does_not_count(*first, a, f, g);
                assert forall|k: int| 0 <= k < i implies same_place(
                    #[trigger] after[k],
                    before[k],
                ) by {
                    if k < n {
                        absent_split_places_alike(*first, a, f, g, k);
                    } else {
                        assert(same_place(placed(s1, b, g)[k - n], placed(*second, b, f)[k - n]));
                    }
                }
                assert forall|k: int| i + 1 < k < after.len() implies same_place(
                    #[trigger] after[k],
                    before[k - 1],
                ) by {
                    assert(same_place(placed(s1, b, g)[k - n], placed(*second, b, f)[k - n - 1]));
                }
            }
        },
    }
}

/// A split divides the focused pane and no other: what it showed stays in the first part, to the
/// left or above; the new pane is the second part, to the right or below, as large as the first or
/// one cell smaller. It is blank, and focused.
pub proof fn a_split_divides_the_focused_pane<P>(v: TreeView<P>, axis: Axis, area: Rect, i: int)
    requires
        v.wf(),
        v.next_id < u64::MAX,
        area.fits(),
        0 <= i < v.layout(area).len(),
        v.layout(area)[i].id == v.focus,
        has_cells(v.layout(area)[i].rect),
    ensures
        ({
            let before = v.layout(area);
            let w = v.split(axis);
            let after = w.layout(area);
            let (r, a, b) = (before[i].rect, after[i].rect, after[i + 1].rect);
            &&& after.len() == before.len() + 1
            &&& forall|k: int| 0 <= k < i ==> same_place(#[trigger] after[k], before[k])
            &&& forall|k: int|
                i + 1 < k < after.len() ==> same_place(#[trigger] after[k], before[k - 1])
            &&& after[i].id == v.focus && after[i].payload == before[i].payload
            &&& after[i + 1].id == w.focus && after[i + 1].payload is None && after[i + 1].focused
            &&& w.focus != v.focus
            &&& a.x == r.x && a.y == r.y
            &&& match axis {
                Axis::LeftRight => {
                    &&& b.x == a.x + a.width && b.y == r.y
                    &&& a.height == r.height && b.height == r.height
                    &&& a.width + b.width == r.width
                    &&& b.width <= a.width <= b.width + 1
                },
                Axis::TopBottom => {
                    &&& b.y == a.y + a.height && b.x == r.x
                    &&& a.width == r.width && b.width == r.width
                    &&& a.height + b.height == r.height
                    &&& b.height <= a.height <= b.height + 1
                },
            }
        }),
{
    let node = v.root->0;
    let w = v.split(axis);
    split_is_placed(node, area, v.focus, w.focus, v.focus, axis, v.next_id, i);
    placements_fit(node, area, v.focus, i);
    let r = v.layout(area)[i].rect;
    half_is_half(r.width);
    half_is_half(r.height);
    assert(has_leaf(node, v.focus));
    let after = w.layout(area);
    placement_is_marked(split_at(node, v.focus, axis, v.next_id), area, w.focus, i + 1);
}

proof fn placement_is_marked<P>(node: Node<P>, slot: Rect, focus: PaneId, i: int)
    requires
        0 <= i < placed(node, slot, focus).len(),
    ensures
        placed(node, slot, focus)[i].focused == (placed(node, slot, focus)[i].id == focus),
    decreases node,
{
    match node {
        Node::Leaf { .. } => {},
        Node::Split { axis, ratio, first, second } => {
            let (a, b) = halves(slot, axis, ratio);
            let n = placed(*first, a, focus).len();
            if i < n {
                placement_is_marked(*first, a, focus, i);
            } else {
                placement_is_marked(*second, b, focus, i - n);
            }
        },
    }
}

/// Exactly one pane is marked as focused: the one that keys go to.
pub proof fn the_focused_pane_is_marked<P>(v: TreeView<P>, area: Rect, i: int)
    requires
        0 <= i < v.layout(area).len(),
    ensures
        v.layout(area)[i].focused == (v.layout(area)[i].id == v.focus),
{
    placement_is_marked(v.root->0, area, v.focus, i);
}

// --- closing ---

proof fn leaves_hold<P>(node: Node<P>, id: PaneId)
    ensures
        has_leaf(node, id) <==> exists|k: int|
            0 <= k < leaves(node).len() && (#[trigger] leaves(node)[k]).0 == id,
        leaves(node).len() >= 1,
    decreases node,
{
    match node {
        Node::Leaf { id: lid, payload } => {
            assert(leaves(node)[0].0 == lid);
        },
        Node::Split { first, second, .. } => {
            leaves_hold(*first, id);
            leaves_hold(*second, id);
            let n = leaves(*first).len();
            if has_leaf(*first, id) {
                let k = choose|k: int|
                    0 <= k < leaves(*first).len() && (#[trigger] leaves(*first)[k]).0 == id;
                assert(leaves(node)[k].0 == id);
            } else if has_leaf(*second, id) {
                let k = choose|k: int|
                    0 <= k < leaves(*second).len() && (#[trigger] leaves(*second)[k]).0 == id;
                assert(leaves(node)[n + k].0 == id);
            }
            if exists|k: int| 0 <= k < leaves(node).len() && (#[trigger] leaves(node)[k]).0 == id {
                let k = choose|k: int|
                    0 <= k < leaves(node).len() && (#[trigger] leaves(node)[k]).0 == id;
                if k < n {
                    assert(leaves(*first)[k].0 == id);
                } else {
                    assert(leaves(*second)[k - n].0 == id);
                }
            }
        },
    }
}

proof fn a_pane_is_on_one_side<P>(first: Node<P>, second: Node<P>, target: PaneId, i: int)
    requires
        forall|id: PaneId| !(has_leaf(first, id) && #[trigger] has_leaf(second, id)),
        0 <= i < leaves(first).len() + leaves(second).len(),
        (leaves(first) + leaves(second))[i].0 == target,
    ensures
        i < leaves(first).len() ==> has_leaf(first, target) && !has_leaf(second, target),
        i >= leaves(first).len() ==> !has_leaf(first, target) && has_leaf(second, target),
{
    let n = leaves(first).len();
    leaves_hold(first, target);
    leaves_hold(second, target);
    if i < n {
        assert(leaves(first)[i].0 == target);
        assert(has_leaf(first, target));
    } else {
        assert(leaves(second)[i - n].0 == target);
        assert(has_leaf(second, target));
    }
}

proof fn a_split_has_several<P>(node: Node<P>)
    requires
        node is Split,
    ensures
        leaves(node).len() > 1,
{
    if let Node::Split { first, second, .. } = node {
        leaves_hold(*first, first_pane(node));
        leaves_hold(*second, first_pane(node));
    }
}

/// Closing a pane leaves the others as they were, in the same order, each with what it showed.
#[verifier::spinoff_prover]
#[verifier::rlimit(40)]
pub proof fn closing_keeps_the_others_in_order<P>(node: Node<P>, target: PaneId, i: int)
    requires
        distinct(node),
        0 <= i < leaves(node).len(),
        leaves(node)[i].0 == target,
        leaves(node).len() > 1,
    ensures
        without(node, target) matches Some(left) && leaves(left) == leaves(node).remove(i),
    decreases node,
{
    match node {
        Node::Leaf { .. } => {},
        Node::Split { axis, ratio, first, second } => {
            let n = leaves(*first).len();
            a_pane_is_on_one_side(*first, *second, target, i);
            if i < n {
                without_absent(*second, target);
                if *first is Leaf {
                    assert(leaves(node).remove(i) =~= leaves(*second));
                } else {
                    a_split_has_several(*first);
                    closing_keeps_the_others_in_order(*first, target, i);
                    assert(!is_pane(*second, target));
                    assert(leaves(node).remove(i) =~= leaves(*first).remove(i) + leaves(*second));
                }
            } else {
                without_absent(*first, target);
                assert(!is_pane(*first, target));
                if *second is Leaf {
                    assert(leaves(node).remove(i) =~= leaves(*first));
                } else {
                    a_split_has_several(*second);
                    closing_keeps_the_others_in_order(*second, target, i - n);
                    assert(leaves(node).remove(i) =~= leaves(*first) + leaves(*second).remove(
                        i - n,
                    ));
                }
            }
        },
    }
}

proof fn the_first_pane_is_in_the_corner<P>(node: Node<P>, slot: Rect, focus: PaneId)
    ensures
        ({
            let p = placed(node, slot, focus);
            &&& p.len() >= 1
            &&& p[0].id == first_pane(node) && p[0].rect.x == slot.x && p[0].rect.y == slot.y
        }),
    decreases node,
{
    match node {
        Node::Leaf { .. } => {},
        Node::Split { axis, ratio, first, second } => {
            let (a, b) = halves(slot, axis, ratio);
            the_first_pane_is_in_the_corner(*first, a, focus);
        },
    }
}

proof fn the_heir_is_placed<P>(
    node: Node<P>,
    slot: Rect,
    f: PaneId,
    g: PaneId,
    target: PaneId,
    i: int,
) -> (j: int)
    requires
        distinct(node),
        0 <= i < placed(node, slot, f).len(),
        placed(node, slot, f)[i].id == target,
        !is_pane(node, target),
    ensures
        without(node, target) is Some,
        heir(node, target) is Some,
        ({
            let closed = placed(node, slot, f)[i].rect;
            let after = placed(without(node, target)->0, slot, g);
            &&& 0 <= j < after.len() && after[j].id == heir(node, target)->0
            &&& after[j].rect.x <= closed.x && after[j].rect.y <= closed.y
            &&& after[j].rect.x == closed.x || after[j].rect.y == closed.y
        }),
    decreases node,
{
    placements_are_leaves(node, slot, f, i);
    match node {
        Node::Leaf { .. } => { 0 },
        Node::Split { axis, ratio, first, second } => {
            let (a, b) = halves(slot, axis, ratio);
            let n = placed(*first, a, f).len() as int;
            focus_does_not_count(*first, a, f, g);
            if i < n {
                placements_are_leaves(*first, a, f, i);
            } else {
                placements_are_leaves(*second, b, f, i - n);
            }
            if is_pane(*first, target) {
                assert(has_leaf(*first, target) && !has_leaf(*second, target));
                the_first_pane_is_in_the_corner(*second, slot, g);
                0
            } else if is_pane(*second, target) {
                assert(has_leaf(*second, target) && !has_leaf(*first, target));
                the_first_pane_is_in_the_corner(*first, slot, g);
                0
            } else if i < n {
                assert(has_leaf(*first, target) && !has_leaf(*second, target));
                without_absent(*second, target);
                the_heir_is_placed(*first, a, f, g, target, i)
            } else {
                assert(has_leaf(*second, target));
                assert(!has_leaf(*first, target));
                without_absent(*first, target);
                let j = the_heir_is_placed(*second, b, f, g, target, i - n);
                n + j
            }
        },
    }
}

/// When the focused pane closes, the focus goes to the first pane of those that take over its room:
/// the one in the corner of the room they then share, in line with the corner of the closed one.
pub proof fn the_focus_goes_to_who_takes_over<P>(v: TreeView<P>, area: Rect, i: int) -> (j: int)
    requires
        v.wf(),
        0 <= i < v.layout(area).len(),
        v.layout(area)[i].id == v.focus,
        v.layout(area).len() > 1,
    ensures
        ({
            let closed = v.layout(area)[i].rect;
            let after = v.close().layout(area);
            &&& 0 <= j < after.len() && after[j].id == v.close().focus && after[j].focused
            &&& after[j].rect.x <= closed.x && after[j].rect.y <= closed.y
            &&& after[j].rect.x == closed.x || after[j].rect.y == closed.y
        }),
{
    let node = v.root->0;
    let w = v.close();
    if is_pane(node, v.focus) {
        assert(placed(node, area, v.focus).len() == 1);
    }
    let j = the_heir_is_placed(node, area, v.focus, w.focus, v.focus, i);
    placement_is_marked(without(node, v.focus)->0, area, w.focus, j);
    j
}

/// Closing a pane that is not focused leaves the focus where it is.
pub proof fn closing_another_pane_keeps_the_focus<P>(v: TreeView<P>, id: PaneId, payload: P)
    ensures
        id != v.focus ==> v.close_id(id).focus == v.focus,
        v.showing(payload) != Some(v.focus) ==> v.close_payload(payload).focus == v.focus,
        v.showing(payload) is None ==> v.close_payload(payload) == v,
{
}

// --- resizing ---

/// The ratio of the nearest split along `axis` that pane `id` under `node` lies in.
pub open spec fn nearest_ratio<P>(node: Node<P>, id: PaneId, axis: Axis) -> Option<u32>
    decreases node,
{
    match node {
        Node::Leaf { .. } => None,
        Node::Split { axis: own, ratio, first, second } => {
            let inner = if has_leaf(*first, id) {
                nearest_ratio(*first, id, axis)
            } else {
                nearest_ratio(*second, id, axis)
            };
            if inner is Some {
                inner
            } else if own == axis {
                Some(ratio)
            } else {
                None
            }
        },
    }
}

proof fn nearest_is_along<P>(node: Node<P>, id: PaneId, axis: Axis)
    requires
        has_leaf(node, id),
    ensures
        nearest_ratio(node, id, axis) is Some <==> splits_along(node, id, axis),
    decreases node,
{
    match node {
        Node::Leaf { .. } => {},
        Node::Split { first, second, .. } => {
            if has_leaf(*first, id) {
                nearest_is_along(*first, id, axis);
            } else {
                nearest_is_along(*second, id, axis);
            }
        },
    }
}

proof fn the_nearest_is_moved<P>(node: Node<P>, id: PaneId, axis: Axis, other: Axis, how: Adjust)
    requires
        has_leaf(node, id),
    ensures
        ({
            let out = resized(node, id, axis, how);
            &&& nearest_ratio(node, id, axis) is None ==> out == node
            &&& nearest_ratio(node, id, axis) matches Some(r) ==> nearest_ratio(out, id, axis)
                == Some(adjusted(r, how))
            &&& other != axis ==> nearest_ratio(out, id, other) == nearest_ratio(node, id, other)
        }),
    decreases node,
{
    nearest_is_along(node, id, axis);
    if !splits_along(node, id, axis) {
        nothing_along(node, id, axis, how);
    }
    match node {
        Node::Leaf { .. } => {},
        Node::Split { first, second, .. } => {
            resized_keeps_panes(*first, id, axis, how);
            resized_keeps_panes(*second, id, axis, how);
            if has_leaf(*first, id) {
                the_nearest_is_moved(*first, id, axis, other, how);
                nearest_is_along(*first, id, axis);
                assert(has_leaf(resized(*first, id, axis, how), id));
            } else {
                the_nearest_is_moved(*second, id, axis, other, how);
                nearest_is_along(*second, id, axis);
            }
        },
    }
}

/// Resizing moves the boundary nearest to the focused pane: right and down make the first part of
/// that split larger by the step, left and up make it smaller, until the bounds; the boundaries that
/// run the other way stay. Without such a boundary nothing moves.
pub proof fn resizing_moves_the_nearest_boundary<P>(v: TreeView<P>, dir: Dir, step: u32)
    requires
        v.wf(),
        v.root is Some,
        256 <= step <= ONE,
    ensures
        ({
            let (along, across) = if dir == Dir::Left || dir == Dir::Right {
                (Axis::LeftRight, Axis::TopBottom)
            } else {
                (Axis::TopBottom, Axis::LeftRight)
            };
            let w = v.resize(dir, step);
            &&& w.focus == v.focus && w.stamps == v.stamps && w.root is Some
            &&& nearest_ratio(w.root->0, v.focus, across) == nearest_ratio(
                v.root->0,
                v.focus,
                across,
            )
            &&& nearest_ratio(v.root->0, v.focus, along) is None ==> w.root == v.root
            &&& nearest_ratio(v.root->0, v.focus, along) matches Some(r) ==> {
                &&& nearest_ratio(w.root->0, v.focus, along) is Some
                &&& {
                    let s = nearest_ratio(w.root->0, v.focus, along)->0;
                    RATIO_MIN <= r <= RATIO_MAX ==> if dir == Dir::Right || dir == Dir::Down {
                        s == RATIO_MAX || (s > r && -128 <= s - (r + step) <= 128)
                    } else {
                        s == RATIO_MIN || (s < r && -128 <= s - (r - step) <= 128)
                    }
                }
            }
        }),
{
    let node = v.root->0;
    let (along, across) = if dir == Dir::Left || dir == Dir::Right {
        (Axis::LeftRight, Axis::TopBottom)
    } else {
        (Axis::TopBottom, Axis::LeftRight)
    };
    let grow = dir == Dir::Right || dir == Dir::Down;
    the_nearest_is_moved(node, v.focus, along, across, Adjust::Nudge { step, grow });
    if let Some(r) = nearest_ratio(node, v.focus, along) {
        if RATIO_MIN <= r <= RATIO_MAX {
            nudges_go_where_they_are_told(r, step, grow);
        }
    }
}

/// Snapping moves that same boundary, the same way, to the next of the even shares: past none.
pub proof fn snapping_moves_the_nearest_boundary<P>(v: TreeView<P>, dir: Dir, k: int)
    requires
        v.wf(),
        v.root is Some,
        0 <= k < snap_stops().len(),
    ensures
        ({
            let (along, across) = if dir == Dir::Left || dir == Dir::Right {
                (Axis::LeftRight, Axis::TopBottom)
            } else {
                (Axis::TopBottom, Axis::LeftRight)
            };
            let w = v.resize_snap(dir);
            let stop = snap_stops()[k];
            &&& w.focus == v.focus && w.stamps == v.stamps && w.root is Some
            &&& nearest_ratio(w.root->0, v.focus, across) == nearest_ratio(
                v.root->0,
                v.focus,
                across,
            )
            &&& nearest_ratio(v.root->0, v.focus, along) is None ==> w.root == v.root
            &&& nearest_ratio(v.root->0, v.focus, along) matches Some(r) ==> {
                &&& nearest_ratio(w.root->0, v.focus, along) is Some
                &&& {
                    let s = nearest_ratio(w.root->0, v.focus, along)->0;
                    RATIO_MIN <= r <= RATIO_MAX ==> if dir == Dir::Right || dir == Dir::Down {
                        s >= r && (stop > r + SNAP_EPS + 128 ==> r < s <= stop)
                    } else {
                        s <= r && (stop + SNAP_EPS + 128 < r ==> stop <= s < r)
                    }
                }
            }
        }),
{
    let node = v.root->0;
    let (along, across) = if dir == Dir::Left || dir == Dir::Right {
        (Axis::LeftRight, Axis::TopBottom)
    } else {
        (Axis::TopBottom, Axis::LeftRight)
    };
    let grow = dir == Dir::Right || dir == Dir::Down;
    the_nearest_is_moved(node, v.focus, along, across, Adjust::Snap { grow });
    if let Some(r) = nearest_ratio(node, v.focus, along) {
        if RATIO_MIN <= r <= RATIO_MAX {
            snaps_go_to_the_next_stop(r, grow, k);
        }
    }
}

// --- finding a payload ---

proof fn placed_payload_is_found<P>(node: Node<P>, slot: Rect, focus: PaneId, i: int, payload: P)
    requires
        0 <= i < placed(node, slot, focus).len(),
        placed(node, slot, focus)[i].payload == Some(payload),
    ensures
        pane_showing(node, payload) is Some,
    decreases node,
{
    match node {
        Node::Leaf { .. } => {},
        Node::Split { axis, ratio, first, second } => {
            let (a, b) = halves(slot, axis, ratio);
            let n = placed(*first, a, focus).len();
            if i < n {
                placed_payload_is_found(*first, a, focus, i, payload);
            } else {
                placed_payload_is_found(*second, b, focus, i - n, payload);
            }
        },
    }
}

proof fn found_pane_shows_it<P>(node: Node<P>, payload: P)
    requires
        distinct(node),
    ensures
        pane_showing(node, payload) matches Some(id) ==> payload_at(node, id) == Some(
            Some(payload),
        ),
    decreases node,
{
    match node {
        Node::Leaf { .. } => {},
        Node::Split { first, second, .. } => {
            found_pane_shows_it(*first, payload);
            found_pane_shows_it(*second, payload);
            pane_showing_is_a_leaf(*second, payload);
            if let Some(id) = pane_showing(*second, payload) {
                no_payload_elsewhere(*first, id);
                assert(has_leaf(*second, id));
                assert(!has_leaf(*first, id));
            }
        },
    }
}

/// Focusing what a pane shows puts the focus on a pane that shows it, and changes no pane; where no
/// pane does, nothing changes.
pub proof fn focusing_a_payload_finds_it<P>(v: TreeView<P>, payload: P, area: Rect, i: int)
    requires
        v.wf(),
    ensures
        0 <= i < v.layout(area).len() && v.layout(area)[i].payload == Some(payload) ==> {
            &&& v.showing(payload) is Some
            &&& v.focus_payload(payload).focused_payload() == Some(payload)
        },
        v.focus_payload(payload).root == v.root,
        v.showing(payload) is None ==> v.focus_payload(payload) == v,
{
    if 0 <= i < v.layout(area).len() && v.layout(area)[i].payload == Some(payload) {
        let node = v.root->0;
        placed_payload_is_found(node, area, v.focus, i, payload);
        found_pane_shows_it(node, payload);
    }
}

} // verus!
