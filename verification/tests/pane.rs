use amux::geometry::{Axis, Dir, Rect};
use amux::ids::TerminalId;
use amux::pane::{Layout, Nav, PaneTree};
use amux::ratio::{adjust, share, snap_ratio, Adjust, HALF, RATIO_MAX, RATIO_MIN, RESIZE_STEP};
use std::hash::{BuildHasher, Hasher};

fn new_id() -> TerminalId {
    let a = std::collections::hash_map::RandomState::new().build_hasher().finish();
    let b = std::collections::hash_map::RandomState::new().build_hasher().finish();
    TerminalId(((a as u128) << 64) | b as u128)
}

fn supply(n: usize) -> Vec<TerminalId> {
    (0..n).map(|_| new_id()).collect()
}

fn area() -> Rect {
    Rect::new(0, 0, 100, 40)
}

/// A single-precision ratio in units of 2^-30.
fn units(r: f32) -> u32 {
    (r as f64 * 1_073_741_824.0) as u32
}

fn ratio(units: u32) -> f32 {
    (units as f64 / 1_073_741_824.0) as f32
}

#[test]
fn fill_blanks_populates_only_empty_leaves() {
    let mut t = PaneTree::new();
    let primary = new_id();
    t.open(primary);
    t.split(Axis::LeftRight);
    t.split(Axis::TopBottom);

    let filled = t.fill_blanks(&supply(5));
    assert_eq!(filled.len(), 2, "one terminal per blank pane");
    assert_ne!(filled[0], filled[1], "each pane gets its own terminal");

    let payloads = t.payloads();
    assert_eq!(payloads.len(), 3);
    assert!(payloads.contains(&primary), "the primary keeps its terminal: {payloads:?}");
    for t in &filled {
        assert!(payloads.contains(t), "filled terminal {t:?} is in a pane");
    }
}

#[test]
fn fill_blanks_is_a_no_op_when_nothing_is_empty() {
    let mut t = PaneTree::new();
    assert!(t.fill_blanks(&supply(3)).is_empty(), "empty tree");

    let a = new_id();
    t.open(a);
    assert!(t.fill_blanks(&supply(3)).is_empty(), "nothing blank");
    assert_eq!(t.payloads(), vec![a]);
}

#[test]
fn a_restored_layout_refills_its_shell_pane() {
    let mut original = PaneTree::new();
    let primary = new_id();
    original.open(primary);
    original.split(Axis::LeftRight);
    original.open(new_id());
    let saved = original.to_layout().expect("non-empty");

    let blanked = match saved {
        Layout::Split { axis, ratio, first, second: _ } => Layout::Split {
            axis,
            ratio,
            first,
            second: Box::new(Layout::Leaf { terminal: None }),
        },
        other => other,
    };

    let mut restored = PaneTree::<TerminalId>::from_layout(&blanked);
    let filled = restored.fill_blanks(&supply(2));
    assert_eq!(filled.len(), 1, "the shell pane needs one new terminal");
    assert_eq!(restored.layout(area()).len(), 2, "still two panes");
    assert!(restored.payloads().contains(&primary));
}

#[test]
fn open_into_empty_creates_one_focused_pane() {
    let mut t = PaneTree::new();
    assert!(t.is_empty());
    let a = new_id();
    t.open(a);
    assert_eq!(t.focused_payload(), Some(a));
    assert_eq!(t.payloads(), vec![a]);
    assert_eq!(t.layout(area()).len(), 1);
}

#[test]
fn split_makes_two_panes_new_one_empty_and_focused() {
    let mut t = PaneTree::new();
    let a = new_id();
    t.open(a);
    t.split(Axis::LeftRight);
    assert_eq!(t.layout(area()).len(), 2);
    assert_eq!(t.focused_payload(), None);
    assert_eq!(t.payloads(), vec![a]);
    let b = new_id();
    t.open(b);
    assert_eq!(t.focused_payload(), Some(b));
    assert_eq!(t.payloads().len(), 2);
}

#[test]
fn layout_roundtrips_through_serialization() {
    let mut t = PaneTree::new();
    let a = new_id();
    t.open(a);
    t.split(Axis::LeftRight);
    let b = new_id();
    t.open(b);
    t.split(Axis::TopBottom);
    let c = new_id();
    t.open(c);

    let before = t.layout(area());
    let saved = t.to_layout().expect("non-empty");
    let restored = PaneTree::<TerminalId>::from_layout(&saved);

    let after = restored.layout(area());
    let rects_before: Vec<_> = before.iter().map(|p| (p.payload, p.rect)).collect();
    let rects_after: Vec<_> = after.iter().map(|p| (p.payload, p.rect)).collect();
    assert_eq!(rects_before, rects_after);
    assert_eq!(restored.to_layout(), Some(saved));
}

#[test]
fn each_split_uses_its_requested_axis() {
    let mut t = PaneTree::new();
    let a = new_id();
    t.open(a);
    t.split(Axis::LeftRight);
    let b = new_id();
    t.open(b);
    t.split(Axis::TopBottom);
    let c = new_id();
    t.open(c);

    let places = t.layout(area());
    let rect = |p: TerminalId| {
        places
            .iter()
            .find(|pl| pl.payload == Some(p))
            .expect("pane present")
            .rect
    };
    let (ra, rb, rc) = (rect(a), rect(b), rect(c));
    assert_eq!(ra.x, 0);
    assert_eq!(ra.height, area().height, "a spans full height");
    assert!(rb.x > ra.x, "b/c are the right column");
    assert_eq!(rb.x, rc.x);
    assert_eq!(rb.width, rc.width);
    assert_ne!(rb.y, rc.y, "b and c are stacked, not side by side");
}

#[test]
fn close_collapses_back_to_sibling() {
    let mut t = PaneTree::new();
    let a = new_id();
    t.open(a);
    t.split(Axis::LeftRight);
    t.close();
    assert_eq!(t.layout(area()).len(), 1);
    assert_eq!(t.focused_payload(), Some(a));
    t.close();
    assert!(t.is_empty());
}

#[test]
fn close_payload_removes_the_right_pane() {
    let mut t = PaneTree::new();
    let a = new_id();
    t.open(a);
    t.split(Axis::LeftRight);
    let b = new_id();
    t.open(b);
    assert!(t.close_payload(a));
    assert_eq!(t.payloads(), vec![b]);
    assert!(!t.close_payload(new_id()));
}

#[test]
fn navigate_moves_across_panes_and_exits_left() {
    let mut t = PaneTree::new();
    t.open(new_id());
    t.split(Axis::LeftRight);
    let a = area();
    assert_eq!(t.navigate(Dir::Left, a), Nav::Moved);
    assert_eq!(t.navigate(Dir::Left, a), Nav::ExitLeft);
    assert_eq!(t.navigate(Dir::Right, a), Nav::Moved);
    assert_eq!(t.navigate(Dir::Up, a), Nav::Stay);
}

/// A full-width top pane over three bottom panes.
fn top_over_three() -> (PaneTree<TerminalId>, TerminalId, [TerminalId; 3]) {
    let mut t = PaneTree::new();
    let top = new_id();
    t.open(top);
    t.split(Axis::TopBottom);
    let b1 = new_id();
    t.open(b1);
    t.split(Axis::LeftRight);
    let b2 = new_id();
    t.open(b2);
    t.split(Axis::LeftRight);
    let b3 = new_id();
    t.open(b3);
    (t, top, [b1, b2, b3])
}

#[test]
fn navigate_returns_to_the_most_recently_focused_pane() {
    let (mut t, top, [b1, _, _]) = top_over_three();
    let a = area();
    assert_eq!(t.navigate(Dir::Left, a), Nav::Moved);
    assert_eq!(t.navigate(Dir::Left, a), Nav::Moved);
    assert_eq!(t.focused_payload(), Some(b1));
    assert_eq!(t.navigate(Dir::Up, a), Nav::Moved);
    assert_eq!(t.focused_payload(), Some(top));
    assert_eq!(t.navigate(Dir::Down, a), Nav::Moved);
    assert_eq!(t.focused_payload(), Some(b1), "Down must return where I was");
}

#[test]
fn mouse_focus_counts_for_navigation_recency() {
    let (mut t, top, [b1, _, b3]) = top_over_three();
    let a = area();
    assert_eq!(t.navigate(Dir::Left, a), Nav::Moved);
    assert_eq!(t.navigate(Dir::Left, a), Nav::Moved);
    assert_eq!(t.focused_payload(), Some(b1));
    assert!(t.focus_payload(b3));
    assert_eq!(t.navigate(Dir::Up, a), Nav::Moved);
    assert_eq!(t.focused_payload(), Some(top));
    assert_eq!(t.navigate(Dir::Down, a), Nav::Moved);
    assert_eq!(t.focused_payload(), Some(b3), "the click was the last visit");
}

#[test]
fn restored_layout_falls_back_to_center_alignment() {
    let (t, top, [_, b2, _]) = top_over_three();
    let saved = t.to_layout().expect("non-empty");
    let mut restored = PaneTree::<TerminalId>::from_layout(&saved);
    let a = area();
    assert_eq!(restored.focused_payload(), Some(top), "first leaf is the top pane");
    assert_eq!(restored.navigate(Dir::Down, a), Nav::Moved);
    assert_eq!(restored.focused_payload(), Some(b2), "no history → center-aligned pane");
}

#[test]
fn focus_most_recent_returns_to_the_last_worked_pane() {
    let (mut t, _top, [b1, _, _]) = top_over_three();
    let a = area();
    assert_eq!(t.navigate(Dir::Left, a), Nav::Moved);
    assert_eq!(t.navigate(Dir::Left, a), Nav::Moved);
    assert_eq!(t.navigate(Dir::Left, a), Nav::ExitLeft);
    assert_eq!(t.focused_payload(), Some(b1), "exit-left leaves focus put");
    t.focus_most_recent();
    assert_eq!(t.focused_payload(), Some(b1), "back to where I was, not the first pane");
}

#[test]
fn focus_most_recent_falls_back_to_first_leaf_without_history() {
    let (t, top, _) = top_over_three();
    let saved = t.to_layout().expect("non-empty");
    let mut restored = PaneTree::<TerminalId>::from_layout(&saved);
    restored.focus_most_recent();
    assert_eq!(restored.focused_payload(), Some(top));
}

#[test]
fn nearer_pane_beats_more_recent_pane() {
    let mut t = PaneTree::new();
    let a_pane = new_id();
    t.open(a_pane);
    t.split(Axis::TopBottom);
    let m = new_id();
    t.open(m);
    t.split(Axis::TopBottom);
    let b = new_id();
    t.open(b);
    assert!(t.focus_payload(a_pane));
    let ar = area();
    assert_eq!(t.navigate(Dir::Down, ar), Nav::Moved);
    assert_eq!(t.focused_payload(), Some(m), "adjacent row wins over recency");
}

#[test]
fn resize_reads_from_the_focused_panes_perspective() {
    let mut t = PaneTree::new();
    t.open(new_id());
    t.split(Axis::LeftRight);
    let a = area();
    let focused_width = |t: &PaneTree<TerminalId>| {
        t.layout(a)
            .into_iter()
            .find(|p| p.focused)
            .unwrap()
            .rect
            .width
    };

    let before = focused_width(&t);
    t.resize(Dir::Left, units(0.1));
    let grown = focused_width(&t);
    assert!(
        grown > before,
        "Left should grow the right pane toward its boundary ({before} → {grown})"
    );
    t.resize(Dir::Right, units(0.1));
    let shrunk = focused_width(&t);
    assert!(shrunk < grown, "Right should shrink the right pane ({grown} → {shrunk})");
}

#[test]
fn snap_ratio_ratchets_through_clean_stops() {
    let third = 1.0 / 3.0;
    let two_thirds = 2.0 / 3.0;
    let cases: [(f32, bool, f32); 14] = [
        (0.5, true, two_thirds),
        (0.5, false, third),
        (third, true, 0.5),
        (third, false, 0.25),
        (two_thirds, true, 0.75),
        (two_thirds, false, 0.5),
        (0.25, false, 0.1),
        (0.75, true, 0.9),
        (0.9, true, 0.9),
        (0.1, false, 0.1),
        (0.3, true, third),
        (0.3, false, 0.25),
        (0.55, true, two_thirds),
        (0.55, false, 0.5),
    ];
    for (r, grow, want) in cases {
        let got = ratio(snap_ratio(units(r), grow));
        assert!(
            (got - want).abs() < 1e-6,
            "snap_ratio({r}, grow={grow}) = {got}, want {want}"
        );
    }
}

#[test]
fn resize_snap_lands_the_split_on_a_clean_stop() {
    let a = Rect::new(0, 0, 120, 40);
    let mut t = PaneTree::new();
    t.open(new_id());
    t.split(Axis::LeftRight);
    let focused_width = |t: &PaneTree<TerminalId>| {
        t.layout(a)
            .into_iter()
            .find(|p| p.focused)
            .unwrap()
            .rect
            .width
    };
    assert_eq!(focused_width(&t), 60, "starts at half the row");
    t.resize_snap(Dir::Left);
    assert_eq!(focused_width(&t), 80, "snapped to two-thirds of the row");
    t.resize_snap(Dir::Right);
    assert_eq!(focused_width(&t), 60, "snapped back to half");
}

#[test]
fn resize_snap_moves_the_nearest_matching_axis_split() {
    let a = Rect::new(0, 0, 120, 40);
    let mut t = PaneTree::new();
    let left = new_id();
    t.open(left);
    t.split(Axis::LeftRight);
    let right_region = new_id();
    t.open(right_region);
    t.split(Axis::LeftRight);
    let rightmost = new_id();
    t.open(rightmost);
    let width = |t: &PaneTree<TerminalId>, p: TerminalId| {
        t.layout(a)
            .into_iter()
            .find(|x| x.payload == Some(p))
            .unwrap()
            .rect
            .width
    };
    assert_eq!(width(&t, left), 60, "outer split starts at half");
    t.resize_snap(Dir::Left);
    assert_eq!(width(&t, left), 60, "outer split untouched");
    assert_eq!(width(&t, right_region), 20, "inner split snapped to a third of its own slot");
}

/// What a split gives its first child when the ratio is a single-precision number.
fn float_share(total: u16, r: f32) -> u16 {
    ((total as f32 * r).round() as u16).clamp(1, total.saturating_sub(1).max(1))
}

#[test]
fn shares_agree_with_single_precision() {
    let ratios = [0.1f32, 0.25, 1.0 / 3.0, 0.35, 0.45, 0.5, 0.55, 2.0 / 3.0, 0.75, 0.85, 0.9];
    for r in ratios {
        for total in 0u16..=2000 {
            assert_eq!(share(total, units(r)), float_share(total, r), "{total} at {r}");
        }
        for total in [5000u16, 32767, 32768, 65534, 65535] {
            assert_eq!(share(total, units(r)), float_share(total, r), "{total} at {r}");
        }
    }
}

#[test]
fn nudges_agree_with_single_precision() {
    let mut f = 0.5f32;
    let mut u = HALF;
    let moves = [
        true, true, true, true, true, true, true, true, true, true, false, false, true, false,
        false, false, false, false, false, false, false, false, false, false, false, false, false,
        false, true,
    ];
    for grow in moves {
        let delta = if grow { 0.05f32 } else { -0.05 };
        f = (f + delta).clamp(0.1, 0.9);
        u = adjust(u, Adjust::Nudge { step: RESIZE_STEP, grow });
        assert_eq!(u, units(f), "{f}");
    }
    assert_eq!(units(0.1), RATIO_MIN);
    assert_eq!(units(0.9), RATIO_MAX);
    assert_eq!(units(0.05), RESIZE_STEP);
}

#[test]
fn snaps_agree_with_single_precision() {
    const STOPS: [f32; 7] = [0.1, 0.25, 1.0 / 3.0, 0.5, 2.0 / 3.0, 0.75, 0.9];
    let mut r = 0.1f32;
    while r <= 0.9 {
        let up = STOPS.iter().copied().find(|&s| s > r + 0.01).unwrap_or(r);
        let down = STOPS.iter().rev().copied().find(|&s| s < r - 0.01).unwrap_or(r);
        assert_eq!(snap_ratio(units(r), true), units(up), "up from {r}");
        assert_eq!(snap_ratio(units(r), false), units(down), "down from {r}");
        r += 0.003;
    }
}

#[test]
fn panes_cover_every_cell_once() {
    let (mut t, _top, _) = top_over_three();
    t.resize(Dir::Left, units(0.13));
    let slot = Rect::new(3, 2, 37, 11);
    let places = t.layout(slot);
    for x in 0..50u16 {
        for y in 0..20u16 {
            let n = places.iter().filter(|p| p.rect.contains(x, y)).count();
            assert_eq!(n, usize::from(slot.contains(x, y)), "cell ({x},{y})");
        }
    }
}

#[test]
fn closing_a_fresh_split_brings_the_tree_back() {
    let (mut t, _top, [_, _, b3]) = top_over_three();
    let before = t.to_layout();
    t.split(Axis::TopBottom);
    t.close();
    assert_eq!(t.to_layout(), before);
    assert_eq!(t.focused_payload(), Some(b3));
}

#[test]
fn filling_goes_as_far_as_the_supply() {
    let mut t = PaneTree::new();
    t.open(7u32);
    t.split(Axis::LeftRight);
    t.split(Axis::LeftRight);
    assert_eq!(t.fill_blanks(&vec![8]), vec![8]);
    assert_eq!(t.payloads(), vec![7, 8]);
    assert_eq!(t.focused_payload(), None);
}

#[test]
fn a_slot_of_one_cell_goes_to_the_first_child() {
    let mut t = PaneTree::new();
    t.open(1u32);
    t.split(Axis::LeftRight);
    let places = t.layout(Rect::new(5, 5, 1, 1));
    assert_eq!(places[0].rect, Rect::new(5, 5, 1, 1));
    assert_eq!(places[1].rect, Rect::new(6, 5, 0, 1));
}

#[test]
fn layouts_count_their_panes() {
    let (t, _top, _) = top_over_three();
    let l = t.to_layout().unwrap();
    assert_eq!(l.panes(), 4);
    assert_eq!(l.blank_panes(), 0);
    assert_eq!(l.copy(), l);
    let blank = Layout::Split {
        axis: Axis::TopBottom,
        ratio: HALF,
        first: Box::new(l),
        second: Box::new(Layout::Leaf { terminal: None }),
    };
    assert_eq!((blank.panes(), blank.blank_panes()), (5, 1));
}

#[test]
fn a_resize_stays_within_its_bounds() {
    let mut t = PaneTree::new();
    t.open(1u32);
    t.split(Axis::LeftRight);
    for _ in 0..40 {
        t.resize(Dir::Left, RESIZE_STEP);
    }
    assert_eq!(t.layout(area())[0].rect.width, 10);
    for _ in 0..40 {
        t.resize(Dir::Right, RESIZE_STEP);
    }
    assert_eq!(t.layout(area())[0].rect.width, 90);
    // No split lies along the other axis.
    t.resize(Dir::Up, RESIZE_STEP);
    assert_eq!(t.layout(area())[0].rect, Rect::new(0, 0, 90, 40));
}

#[test]
fn coming_back_lands_on_the_pane_that_was_left() {
    let mut t = PaneTree::new();
    let ids = supply(5);
    t.open(ids[0]);
    t.split(Axis::LeftRight);
    t.fill_blanks(&ids[1..2].to_vec());
    t.split(Axis::TopBottom);
    t.fill_blanks(&ids[2..3].to_vec());
    t.navigate(Dir::Left, area());
    t.split(Axis::TopBottom);
    t.fill_blanks(&ids[3..4].to_vec());
    t.close_payload(ids[1]);
    t.resize(Dir::Right, RESIZE_STEP);
    t.close();
    let (before, focus) = (t.layout(area()), t.focused_payload());
    t.focus_most_recent();
    assert_eq!(t.layout(area()), before);
    assert_eq!(t.focused_payload(), focus);
    assert_eq!(focus, Some(ids[0]), "the pane beside the one that was closed");

    let mut empty: PaneTree<TerminalId> = PaneTree::new();
    empty.focus_most_recent();
    assert_eq!(empty.focused_payload(), None);
}
