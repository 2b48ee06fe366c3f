//! What holds over several steps: going away and coming back, restoring, scrolling.

use vstd::prelude::*;
use crate::conduct::{attaching_asks_for_views, detaching_asks_for_views};
use crate::daemon::layout_table;
use crate::ids::{AgentId, TerminalId};
use crate::keys::served_screen;
use crate::laws::{
    attach_all_frame, detach_all_frame, drop_all, put_all, reconciling_attaches_what_is_shown,
    reconciling_keeps_the_screen, same_core, sound,
};
use crate::pane::{blanks, filled, layout_blanks, pane_count, rest, Layout, Node, TreeView};
use crate::pane_laws::{filled_by_enough_leaves_none, layouts_round_trip, restored_blanks};
use crate::soundness::{activating_keeps_sound, messages_keep_sound, swapping_keeps_sound};
use crate::state::{has_agent, primary_of, AppView};
use crate::table::{lookup, place, place_is_where};
use crate::text::{control, without_controls};
use crate::wire::{DaemonMsg, MsgView};
use crate::workspace::{blanks_of, gone};

verus! {

// --- workspaces ---

proof fn spawning_changes_no_panes(v: AppView, like: TerminalId, blanks: Seq<TerminalId>, n: int)
    ensures
        ({
            let w = v.spawn_all(like, blanks, n);
            &&& w.tree == v.tree && w.trees == v.trees && w.agents == v.agents
            &&& w.active_agent == v.active_agent && w.prev_active_agent == v.prev_active_agent
            &&& same_core(v, w)
        }),
    decreases n,
{
    if n > 0 {
        spawning_changes_no_panes(v, like, blanks, n - 1);
    }
}

proof fn activating_is_swapping(v: AppView, id: AgentId)
    requires
        sound(v),
    ensures
        ({
            let (w, x) = (v.swap_to_agent(id), v.activate(id));
            &&& x.tree == w.tree && x.trees == w.trees && x.agents == w.agents
            &&& x.active_agent == w.active_agent && x.prev_active_agent == w.prev_active_agent
        }),
{
    reveal(AppView::activate);
    let w = v.swap_to_agent(id);
    swapping_keeps_sound(v, id);
    let s = w.spawn_restored_shells(id, v.restored(id));
    if let Some(primary) = primary_of(w.agents, id) {
        spawning_changes_no_panes(w, primary, v.restored(id), v.restored(id).len() as int);
    }
    assert(same_core(w, s));
    reconciling_attaches_what_is_shown(s);
    reconciling_keeps_the_screen(s);
}

/// Each agent keeps its own panes: going to another agent and back finds them as they were, and the
/// other agent is then the one to go back to.
pub proof fn workspaces_survive_a_visit(v: AppView, a: AgentId, b: AgentId)
    requires
        sound(v),
        v.active_agent == Some(a),
        a != b,
        v.tree.root is Some,
    ensures
        ({
            let there = v.activate(b);
            let back = there.activate(a);
            &&& there.active_agent == Some(b)
            &&& there.prev_active_agent == Some(a)
            &&& back.active_agent == Some(a)
            &&& back.prev_active_agent == Some(b)
            &&& back.tree == v.tree
        }),
{
    activating_is_swapping(v, b);
    activating_keeps_sound(v, b);
    let there = v.activate(b);
    let m = v.no_longer_mini(b);
    put_all(m.trees, a, m.tree);
    let p = m.put_away();
    assert(lookup(p.trees, a) == Some(v.tree));
    drop_all(p.trees, b);
    assert(lookup(there.trees, a) == Some(v.tree));
    activating_is_swapping(there, a);
    let n = there.no_longer_mini(a);
    put_all(n.trees, b, n.tree);
    let q = n.put_away();
    assert(lookup(q.trees, a) == Some(v.tree));
}

/// Opening the agent that is active already changes neither its panes nor the one to go back to.
pub proof fn reopening_changes_nothing(v: AppView, a: AgentId)
    requires
        sound(v),
        v.active_agent == Some(a),
        v.tree.root is Some,
    ensures
        v.activate(a).tree == v.tree,
        v.activate(a).active_agent == Some(a),
        v.activate(a).prev_active_agent == v.prev_active_agent,
{
    activating_is_swapping(v, a);
}

// --- restoring ---

proof fn blanks_cover(layouts: Seq<(AgentId, Layout)>, n: int, i: int)
    requires
        0 <= i < n <= layouts.len(),
    ensures
        layout_blanks(layouts[i].1) <= blanks_of(layouts, n),
    decreases n,
{
    if i < n - 1 {
        blanks_cover(layouts, n - 1, i);
    }
}

/// With as many fresh ids as are asked for, an agent's saved layout comes back with no pane blank,
/// and each pane that was blank gets a terminal that a shell is asked for.
pub proof fn restored_layouts_have_no_blank_pane(v: AppView, id: AgentId, layout: Layout)
    requires
        sound(v),
        v.active_agent != Some(id),
        lookup(v.put_away().trees, id) is None,
        lookup(v.saved_layouts, id) == Some(layout),
        pane_count(layout) < u64::MAX,
        v.fresh.len() >= v.saved_blanks(),
    ensures
        v.activate(id).tree.blank_count() == 0,
        v.restored(id).len() == layout_blanks(layout),
{
    place_is_where(v.saved_layouts, id);
    let i = place(v.saved_layouts, id)->0;
    blanks_cover(v.saved_layouts, v.saved_layouts.len() as int, i);
    restored_blanks(layout);
    let tree = TreeView::<TerminalId>::from_layout(layout);
    filled_by_enough_leaves_none(tree.root->0, v.fresh);
    activating_is_swapping(v, id);
    let m = v.no_longer_mini(id);
    assert(m.put_away().trees == v.put_away().trees);
    assert(m.put_away().fetch(id).tree == tree.fill_blanks(v.fresh));
}

proof fn nothing_to_fill<P>(node: Node<P>, supply: Seq<P>)
    requires
        blanks(node) == 0,
    ensures
        filled(node, supply) == node,
    decreases node,
{
    if let Node::Split { first, second, .. } = node {
        nothing_to_fill(*first, supply);
        nothing_to_fill(*second, rest(supply, blanks(*first)));
    }
}

/// Whenever the client reconciles, it has the daemon save what is on screen: the layout of the active
/// agent, the minis, the active agent and the one before.
pub proof fn what_is_on_screen_is_saved(v: AppView, id: AgentId)
    requires
        v.active_agent == Some(id),
    ensures
        ({
            let out = v.reconcile().out;
            let n = out.len();
            &&& n >= v.out.len() + 4
            &&& out[n - 4] == (MsgView::SetLayout { agent: id, layout: v.tree.to_layout() })
            &&& out[n - 3] == MsgView::SetMinis(v.minis)
            &&& out[n - 2] == MsgView::SetActive(Some(id))
            &&& out[n - 1] == MsgView::SetPrevious(v.prev_active_agent)
        }),
{
    reveal(AppView::reconcile);
    let d = v.desired();
    let named = AppView { terminals: v.owners(), ..v };
    attach_all_frame(named, d, d.len() as int);
    let a = named.attach_all(d, d.len() as int);
    let ts = gone(a.attached, d, a.attached.len() as int);
    detach_all_frame(a, ts, ts.len() as int);
    attaching_asks_for_views(named, d, d.len() as int);
    detaching_asks_for_views(a, ts, ts.len() as int);
}

/// A client that is told of the layout an earlier one saved, and that its agent was active, shows that
/// agent with the same panes: divided alike and with the same terminals in them, as long as these
/// still run.
pub proof fn a_restart_brings_the_panes_back(
    before: AppView,
    v: AppView,
    id: AgentId,
    layout: Layout,
    list: Vec<(AgentId, Layout)>,
)
    requires
        before.tree.to_layout() == Some(layout),
        layout_blanks(layout) == 0,
        pane_count(layout) < u64::MAX,
        sound(v),
        v.active_agent != Some(id),
        lookup(v.put_away().trees, id) is None,
        has_agent(v.agents, id),
        lookup(layout_table(list@, list@.len() as int), id) == Some(layout),
    ensures
        ({
            let w = v.on_daemon(DaemonMsg::Layouts(list)).on_daemon(DaemonMsg::Active(Some(id)));
            &&& w.active_agent == Some(id)
            &&& w.tree.to_layout() == before.tree.to_layout()
        }),
{
    reveal(AppView::on_daemon);
    let told = v.on_daemon(DaemonMsg::Layouts(list));
    messages_keep_sound(v, DaemonMsg::Layouts(list));
    activating_is_swapping(told, id);
    let m = told.no_longer_mini(id);
    assert(m.put_away().trees == v.put_away().trees);
    let tree = TreeView::<TerminalId>::from_layout(layout);
    restored_blanks(layout);
    nothing_to_fill(tree.root->0, told.fresh);
    assert(m.put_away().fetch(id).tree == tree.fill_blanks(told.fresh));
    layouts_round_trip(layout);
}

// --- scrolling ---

/// A pane that is scrolled back holds still while output arrives.
pub proof fn output_does_not_move_a_scrolled_pane(v: AppView, t: TerminalId, bytes: Vec<u8>)
    requires
        v.scrolls(t),
    ensures
        v.on_daemon(DaemonMsg::Output { terminal: t, bytes }).screen_for(t) == v.screen_for(t),
{
    reveal(AppView::on_daemon);
}

/// A pane without history never enters scroll mode, and so never takes keys for it.
pub proof fn no_history_no_scroll_mode(v: AppView, t: TerminalId, available: usize, bytes: Seq<u8>)
    requires
        !v.scrolls(t),
    ensures
        v.on_scroll_view(t, 0, available, bytes).scroll == v.scroll,
        available == 0 ==> v.on_scroll_view(t, 0, available, bytes).info
            == "no scrollback here yet"@,
{
}

/// Once scroll mode is on, coming to the live view by key does not leave it.
pub proof fn the_live_view_keeps_scroll_mode(
    v: AppView,
    t: TerminalId,
    available: usize,
    bytes: Seq<u8>,
)
    requires
        v.scrolls(t),
        lookup(v.attached, t) is Some,
    ensures
        v.on_scroll_view(t, 0, available, bytes).scrolls(t),
        v.on_scroll_view(t, 0, available, bytes).screen_for(t) == Some(
            served_screen(lookup(v.attached, t)->0, bytes),
        ),
{
}

/// The wheel leaves scroll mode when it comes within a step of the live view, and tells the daemon
/// to forget the place.
pub proof fn the_wheel_leaves_scroll_mode(v: AppView, t: TerminalId)
    requires
        v.scrolls(t),
        v.scroll->0.offset <= 3,
    ensures
        v.wheel_scroll(t, false).scroll is None,
        v.wheel_scroll(t, false).out == v.out.push(
            MsgView::Scroll { terminal: t, lines: i32::MIN },
        ),
{
}

// --- prompts ---

/// What is pasted into a prompt holds no control character, so no line break in it can submit it.
pub proof fn prompts_take_no_control_characters(text: Seq<char>, i: int)
    requires
        0 <= i < without_controls(text).len(),
    ensures
        !control(without_controls(text)[i]),
{
    let keep = |c: char| !control(c);
    text.lemma_filter_pred(keep, i);
}

} // verus!
