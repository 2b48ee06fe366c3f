//! What is carried over: text in characters that any terminal passes on, layouts from one run to the
//! next, and new shells into the panes that wait for them.

use vstd::prelude::*;
use crate::base64::{alphabet, base64, sextets_follow_the_alphabet};
use crate::ids::TerminalId;
use crate::pane::{
    blanks, filled, first_pane, layout_of, leaves, node_of, pane_count, rest, Layout, Node,
    TreeView,
};

verus! {

// --- text ---

/// Three bytes, read as one number of twenty-four bits, are written as the four digits of that number
/// to the base of sixty-four, the highest first. What is left at the end is filled up with zeros, and
/// each byte that is missing is marked.
pub proof fn three_bytes_are_four_digits(s: Seq<u8>) -> (d: (int, int, int, int))
    requires
        s.len() >= 1,
    ensures
        ({
            let (p, q, r, t) = d;
            let out = base64(s);
            &&& 0 <= p < 64 && 0 <= q < 64 && 0 <= r < 64 && 0 <= t < 64
            &&& out.len() >= 4
            &&& out[0] == alphabet()[p]
            &&& out[1] == alphabet()[q]
            &&& out[2] == (if s.len() >= 2 {
                alphabet()[r]
            } else {
                '='
            })
            &&& out[3] == (if s.len() >= 3 {
                alphabet()[t]
            } else {
                '='
            })
            &&& ((p * 64 + q) * 64 + r) * 64 + t == (s[0] * 256 + (if s.len() >= 2 {
                s[1] as int
            } else {
                0
            })) * 256 + (if s.len() >= 3 {
                s[2] as int
            } else {
                0
            })
            &&& s.len() <= 3 ==> out.len() == 4
            &&& s.len() > 3 ==> out.skip(4) == base64(s.skip(3))
        }),
{
    let a = s[0] as int;
    let b = if s.len() > 1 {
        s[1] as int
    } else {
        0
    };
    let c = if s.len() > 2 {
        s[2] as int
    } else {
        0
    };
    let (p, q, r, t) = (a / 4, (a % 4) * 16 + b / 16, (b % 16) * 4 + c / 64, c % 64);
    sextets_follow_the_alphabet(p);
    sextets_follow_the_alphabet(q);
    sextets_follow_the_alphabet(r);
    sextets_follow_the_alphabet(t);
    if s.len() > 3 {
        assert(base64(s).skip(4) =~= base64(s.skip(3)));
    }
    (p, q, r, t)
}

/// The digits are the capital letters, the small letters, the figures, and two signs, in that order.
pub proof fn digits_are_letters_and_figures(v: int)
    requires
        0 <= v < 64,
    ensures
        v < 26 ==> alphabet()[v] as int == 'A' as int + v,
        26 <= v < 52 ==> alphabet()[v] as int == 'a' as int + (v - 26),
        52 <= v < 62 ==> alphabet()[v] as int == '0' as int + (v - 52),
        v == 62 ==> alphabet()[v] == '+',
        v == 63 ==> alphabet()[v] == '/',
{
    sextets_follow_the_alphabet(v);
}

// --- layouts ---

/// What the panes of a layout show, in order.
pub open spec fn shown_in(layout: Layout) -> Seq<Option<TerminalId>>
    decreases layout,
{
    match layout {
        Layout::Leaf { terminal } => seq![terminal],
        Layout::Split { first, second, .. } => shown_in(*first) + shown_in(*second),
    }
}

/// A layout is saved as it is: a split as a split of the same axis and share, its halves on the sides
/// where they are, and so the panes in their order, each with its terminal.
pub proof fn layouts_are_saved_as_they_are(node: Node<TerminalId>, i: int)
    requires
        0 <= i < leaves(node).len(),
    ensures
        shown_in(layout_of(node)).len() == leaves(node).len(),
        shown_in(layout_of(node))[i] == leaves(node)[i].1,
        node matches Node::Split { axis, ratio, first, second } ==> layout_of(node) == (Layout::Split {
            axis,
            ratio,
            first: Box::new(layout_of(*first)),
            second: Box::new(layout_of(*second)),
        }),
    decreases node,
{
    match node {
        Node::Leaf { .. } => {},
        Node::Split { first, second, .. } => {
            let n = leaves(*first).len();
            saved_panes_are_counted(*first);
            saved_panes_are_counted(*second);
            if i < n {
                layouts_are_saved_as_they_are(*first, i);
            } else {
                layouts_are_saved_as_they_are(*second, i - n);
            }
        },
    }
}

proof fn saved_panes_are_counted(node: Node<TerminalId>)
    ensures
        shown_in(layout_of(node)).len() == leaves(node).len(),
    decreases node,
{
    if let Node::Split { first, second, .. } = node {
        saved_panes_are_counted(*first);
        saved_panes_are_counted(*second);
    }
}

proof fn restored_panes(layout: Layout, next: nat, i: int)
    requires
        0 <= i < shown_in(layout).len(),
    ensures
        leaves(node_of(layout, next)).len() == shown_in(layout).len() == pane_count(layout),
        leaves(node_of(layout, next))[i] == ((next + i) as u64, shown_in(layout)[i]),
    decreases layout,
{
    match layout {
        Layout::Leaf { .. } => {},
        Layout::Split { first, second, .. } => {
            let n = shown_in(*first).len();
            restored_panes_are_counted(*first, next);
            restored_panes_are_counted(*second, next + pane_count(*first));
            if i < n {
                restored_panes(*first, next, i);
            } else {
                restored_panes(*second, next + pane_count(*first), i - n);
            }
        },
    }
}

proof fn restored_panes_are_counted(layout: Layout, next: nat)
    ensures
        leaves(node_of(layout, next)).len() == shown_in(layout).len() == pane_count(layout),
    decreases layout,
{
    if let Layout::Split { first, second, .. } = layout {
        restored_panes_are_counted(*first, next);
        restored_panes_are_counted(*second, next + pane_count(*first));
    }
}

/// A saved layout comes back as it was saved: its panes in their order, each with its terminal,
/// numbered from one on, and its outermost split with its axis and share.
pub proof fn layouts_come_back_as_they_were(layout: Layout, i: int)
    requires
        0 <= i < shown_in(layout).len(),
    ensures
        ({
            let v = TreeView::<TerminalId>::from_layout(layout);
            &&& v.root is Some
            &&& leaves(v.root->0).len() == shown_in(layout).len()
            &&& leaves(v.root->0)[i] == ((1 + i) as u64, shown_in(layout)[i])
            &&& v.focus == leaves(v.root->0)[0].0
            &&& layout is Leaf ==> v.root->0 is Leaf
            &&& layout matches Layout::Split { axis, ratio, .. } ==> v.root->0 is Split
                && v.root->0->axis == axis && v.root->0->ratio == ratio
        }),
{
    restored_panes(layout, 1, i);
    restored_panes(layout, 1, 0);
    the_first_pane_is_the_first(node_of(layout, 1));
}

proof fn the_first_pane_is_the_first<P>(node: Node<P>)
    ensures
        leaves(node).len() >= 1,
        leaves(node)[0].0 == first_pane(node),
    decreases node,
{
    if let Node::Split { first, second, .. } = node {
        the_first_pane_is_the_first(*first);
    }
}

// --- shells ---

/// How many of the first `n` panes are blank.
pub open spec fn blank_before<P>(panes: Seq<(u64, Option<P>)>, n: int) -> nat
    decreases n,
{
    if n <= 0 {
        0
    } else {
        blank_before(panes, n - 1) + if panes[n - 1].1 is None {
            1nat
        } else {
            0
        }
    }
}

proof fn counting_goes_on<P>(a: Seq<(u64, Option<P>)>, b: Seq<(u64, Option<P>)>, n: int)
    requires
        0 <= n <= a.len() + b.len(),
    ensures
        blank_before(a + b, n) == if n <= a.len() {
            blank_before(a, n)
        } else {
            blank_before(a, a.len() as int) + blank_before(b, n - a.len())
        },
    decreases n,
{
    if n > 0 {
        counting_goes_on(a, b, n - 1);
        if n <= a.len() {
            assert((a + b)[n - 1] == a[n - 1]);
        } else {
            assert((a + b)[n - 1] == b[n - a.len() - 1]);
            assert(blank_before(b, 0) == 0);
        }
    }
}

proof fn blanks_are_counted<P>(node: Node<P>)
    ensures
        blank_before(leaves(node), leaves(node).len() as int) == blanks(node),
    decreases node,
{
    match node {
        Node::Leaf { id, payload } => {
            assert(blank_before(leaves(node), 0) == 0);
        },
        Node::Split { first, second, .. } => {
            blanks_are_counted(*first);
            blanks_are_counted(*second);
            let (a, b) = (leaves(*first), leaves(*second));
            counting_goes_on(a, b, (a.len() + b.len()) as int);
            assert(blank_before(b, 0) == 0);
        },
    }
}

proof fn filled_panes_are_counted<P>(node: Node<P>, supply: Seq<P>)
    ensures
        leaves(filled(node, supply)).len() == leaves(node).len(),
    decreases node,
{
    if let Node::Split { first, second, .. } = node {
        filled_panes_are_counted(*first, supply);
        filled_panes_are_counted(*second, rest(supply, blanks(*first)));
    }
}

/// New shells go into the blank panes in order: the first one into the first blank pane, and so on,
/// for as long as there are shells. No other pane changes, and none is added or lost.
pub proof fn blank_panes_are_filled_in_order<P>(node: Node<P>, supply: Seq<P>, i: int)
    requires
        0 <= i < leaves(node).len(),
    ensures
        leaves(filled(node, supply)).len() == leaves(node).len(),
        leaves(filled(node, supply))[i].0 == leaves(node)[i].0,
        ({
            let k = blank_before(leaves(node), i);
            leaves(filled(node, supply))[i].1 == if leaves(node)[i].1 is None && k < supply.len() {
                Some(supply[k as int])
            } else {
                leaves(node)[i].1
            }
        }),
    decreases node,
{
    match node {
        Node::Leaf { .. } => {},
        Node::Split { first, second, .. } => {
            let (a, b) = (leaves(*first), leaves(*second));
            let n = a.len();
            let left = rest(supply, blanks(*first));
            filled_panes_are_counted(*first, supply);
            filled_panes_are_counted(*second, left);
            counting_goes_on(a, b, i);
            if i < n {
                blank_panes_are_filled_in_order(*first, supply, i);
            } else {
                blanks_are_counted(*first);
                assert(blank_before(b, 0) == 0);
                blank_panes_are_filled_in_order(*second, left, i - n);
            }
        },
    }
}

} // verus!
