//! The client stays sound through every event.

use vstd::prelude::*;
use crate::daemon::{layout_table, live_minis, other_agents, terminals_of};
use crate::emulator::{
    after_feed, emulators_stay_whole, roomy_emulators_take_anything, size_of, whole, VtStep,
};
use crate::geometry::{Axis, Dir, Size};
use crate::ids::{AgentId, TerminalId};
use crate::input::{Event, KeyCode, KeyEvent, KeyEventKind, MouseEvent};
use crate::keys::{move_dir, resize_key, served_screen};
use crate::laws::{
    drop_all, drop_tree_ok, dropping_keeps_screens, put_all, put_tree_ok,
    reconciling_attaches_what_is_shown, reconciling_keeps_the_screen, replacing_keeps_screens,
    same_core, sound,
};
use crate::pane::{pane_count, spec_axis_and_grow, Layout};
use crate::pane_laws::{
    close_keeps_wf, close_payload_keeps_wf, empty_is_wf, fill_keeps_wf, focusing_keeps_wf,
    from_layout_is_wf, open_keeps_wf, resize_keeps_wf, split_keeps_wf,
};
use crate::ratio::{Adjust, RESIZE_STEP};
use crate::sidebar::{spec_main_area, Row};
use crate::state::{
    has_agent, id_from, primary_of, without_id, without_id_drops_it, AppView, Focus, InputMode,
};
use crate::table::{drop_key, keyed, lookup, put};
use crate::wire::{AgentInfo, DaemonMsg, MsgView};
use crate::workspace::claimed;

verus! {

/// The client starts sound.
pub proof fn starts_sound(cols: u16, rows: u16)
    ensures
        sound(AppView::initial(cols, rows)),
{
    let v = AppView::initial(cols, rows);
    assert forall|t: TerminalId| #[trigger] lookup(v.attached, t) is None by {}
    assert forall|t: TerminalId| #[trigger] lookup(v.parsers, t) is None by {}
}

pub(crate) proof fn alike(v: AppView, w: AppView)
    requires
        sound(v),
        same_core(v, w),
    ensures
        sound(w),
{
}

// --- terminals going ---

/// A terminal that is gone for good leaves no trace in the tables, and the client sound.
pub proof fn forgetting_keeps_sound(v: AppView, t: TerminalId)
    requires
        sound(v),
    ensures
        sound(v.forget_terminal(t)),
        lookup(v.forget_terminal(t).terminals, t) is None,
        lookup(v.forget_terminal(t).attached, t) is None,
        lookup(v.forget_terminal(t).parsers, t) is None,
        lookup(v.forget_terminal(t).passthrough, t) is None,
        v.forget_terminal(t).minis == v.minis,
        v.forget_terminal(t).agents == v.agents,
        v.forget_terminal(t).active_agent == v.active_agent,
        v.forget_terminal(t).terminals == drop_key(v.terminals, t),
{
    reveal(AppView::forget_terminal);
    let w = v.forget_terminal(t);
    close_payload_keeps_wf(v.tree, t);
    dropping_keeps_screens(v.attached, v.parsers, t);
    drop_all(v.terminals, t);
    drop_all(v.passthrough, t);
    drop_all(v.attached, t);
    drop_all(v.parsers, t);
    assert forall|i: int| 0 <= i < w.trees.len() implies (#[trigger] w.trees[i]).1.wf() by {
        assert(v.trees[i].1.wf());
        close_payload_keeps_wf(v.trees[i].1, t);
    }
    assert forall|i: int, j: int| 0 <= i < j < w.trees.len() implies #[trigger] w.trees[i].0
        != #[trigger] w.trees[j].0 by {
        assert(v.trees[i].0 != v.trees[j].0);
    }
}

// --- agents coming and going ---

proof fn claimed_keyed(
    terminals: Seq<(TerminalId, AgentId)>,
    ps: Seq<TerminalId>,
    id: AgentId,
    n: int,
)
    requires
        keyed(terminals),
    ensures
        keyed(claimed(terminals, ps, id, n)),
    decreases n,
{
    if n > 0 {
        claimed_keyed(terminals, ps, id, n - 1);
        put_all(claimed(terminals, ps, id, n - 1), ps[n - 1], id);
    }
}

proof fn put_away_sound(v: AppView)
    requires
        sound(v),
    ensures
        sound(v.put_away()),
{
    if let Some(prev) = v.active_agent {
        put_all(v.trees, prev, v.tree);
        put_tree_ok(v.trees, prev, v.tree);
        empty_is_wf::<TerminalId>();
    }
}

proof fn saved_tree_wf(v: AppView, id: AgentId)
    ensures
        v.saved_tree(id).wf(),
{
    empty_is_wf::<TerminalId>();
    if let Some(layout) = lookup(v.saved_layouts, id) {
        if pane_count(layout) < u64::MAX {
            from_layout_is_wf(layout);
        }
    }
}

proof fn fetch_sound(v: AppView, id: AgentId)
    requires
        sound(v),
        !v.minis.contains(id),
    ensures
        sound(v.fetch(id)),
{
    drop_tree_ok(v.trees, id);
    drop_all(v.trees, id);
    drop_all(v.saved_layouts, id);
    saved_tree_wf(v, id);
    fill_keeps_wf(v.saved_tree(id), v.fresh);
    let w = v.fetch(id);
    let ps = w.tree.payloads();
    claimed_keyed(v.terminals, ps, id, ps.len() as int);
}

proof fn show_primary_sound(v: AppView, id: AgentId)
    requires
        sound(v),
    ensures
        sound(v.show_primary(id)),
        v.show_primary(id).minis == v.minis,
{
    if let Some(primary) = primary_of(v.agents, id) {
        if v.tree.root is None {
            put_all(v.terminals, primary, id);
            if v.tree.next_id < u64::MAX {
                open_keeps_wf(v.tree, primary);
            }
        }
    }
}

/// Bringing an agent into the main area keeps the client sound; the agent is then active, and no
/// mini.
pub proof fn swapping_keeps_sound(v: AppView, id: AgentId)
    requires
        sound(v),
    ensures
        sound(v.swap_to_agent(id)),
        v.swap_to_agent(id).active_agent == Some(id),
        !v.swap_to_agent(id).minis.contains(id),
        v.swap_to_agent(id).focus == Focus::Panes,
{
    without_id_drops_it(v.minis, id);
    let w = v.no_longer_mini(id);
    if let Some(a) = v.active_agent {
        if a != id {
            assert(without_id(v.minis, id).contains(a) == v.minis.contains(a));
        }
    }
    assert(sound(w));
    if w.active_agent == Some(id) {
        show_primary_sound(w, id);
    } else {
        put_away_sound(w);
        fetch_sound(w.put_away(), id);
        show_primary_sound(w.put_away().fetch(id), id);
    }
}

proof fn spawning_is_alike(v: AppView, like: TerminalId, blanks: Seq<TerminalId>, n: int)
    ensures
        same_core(v, v.spawn_all(like, blanks, n)),
        v.spawn_all(like, blanks, n).agents == v.agents,
        v.spawn_all(like, blanks, n).focus == v.focus,
        v.spawn_all(like, blanks, n).prev_active_agent == v.prev_active_agent,
    decreases n,
{
    if n > 0 {
        spawning_is_alike(v, like, blanks, n - 1);
    }
}

/// Making an agent active keeps the client sound.
pub proof fn activating_keeps_sound(v: AppView, id: AgentId)
    requires
        sound(v),
    ensures
        sound(v.activate(id)),
        v.activate(id).active_agent == Some(id),
        !v.activate(id).minis.contains(id),
{
    reveal(AppView::activate);
    swapping_keeps_sound(v, id);
    let w = v.swap_to_agent(id);
    let x = w.spawn_restored_shells(id, v.restored(id));
    if let Some(primary) = primary_of(w.agents, id) {
        spawning_is_alike(w, primary, v.restored(id), v.restored(id).len() as int);
    }
    alike(w, x);
    reconciling_attaches_what_is_shown(x);
    reconciling_keeps_the_screen(x);
}

proof fn cursor_is_alike(v: AppView, row: Row, delta: int, down: bool)
    ensures
        same_core(v, v.place_sidebar_sel(row)),
        same_core(v, v.ensure_sidebar_sel()),
        same_core(v, v.move_sidebar_sel(delta)),
        same_core(v, v.jump_unread(down)),
        same_core(v, v.scroll_sidebar(delta)),
{
    reveal(AppView::ensure_sidebar_sel);
}

proof fn open_agent_sound(v: AppView, id: AgentId)
    requires
        sound(v),
    ensures
        sound(v.open_agent(id)),
{
    cursor_is_alike(v, Row::Agent(id), 0, true);
    alike(v, v.place_sidebar_sel(Row::Agent(id)));
    activating_keeps_sound(v.place_sidebar_sel(Row::Agent(id)), id);
}

proof fn reconcile_sound(v: AppView)
    requires
        sound(v),
    ensures
        sound(v.reconcile()),
{
    reconciling_attaches_what_is_shown(v);
}

proof fn split_sound(v: AppView, axis: Axis)
    requires
        sound(v),
    ensures
        sound(v.split(axis)),
{
    if let Some(from) = v.tree.focused_payload() {
        if let Some(agent) = lookup(v.terminals, from) {
            if v.fresh.len() > 0 && v.tree.next_id < u64::MAX {
                let t = v.fresh[0];
                split_keeps_wf(v.tree, axis);
                open_keeps_wf(v.tree.split(axis), t);
                put_all(v.terminals, t, agent);
                let w = AppView {
                    fresh: v.fresh.drop_first(),
                    terminals: put(v.terminals, t, agent),
                    tree: v.tree.split(axis).open(t),
                    focus: Focus::Panes,
                    ..v
                };
                let x = w.send(MsgView::SpawnShell { terminal: t, like: from });
                assert(sound(x));
                reconcile_sound(x);
            }
        }
    }
}

proof fn navigate_sound(v: AppView, dir: Dir)
    requires
        sound(v),
    ensures
        sound(v.navigate(dir)),
{
    reveal(AppView::navigate);
    focusing_keeps_wf(v.tree, TerminalId(0), dir, v.area);
}

proof fn open_mini_sound(v: AppView, id: AgentId)
    requires
        sound(v),
    ensures
        sound(v.open_mini(id)),
{
    if v.active_agent != Some(id) && id_from(v.minis, id, 0) is None {
        let w = AppView { minis: v.minis.push(id), ..v }.enter_mini(v.minis.len() as usize);
        if let Some(a) = v.active_agent {
            assert forall|i: int| 0 <= i < w.minis.len() implies w.minis[i] != a by {
                if i < v.minis.len() {
                    assert(v.minis.contains(v.minis[i]));
                }
            }
        }
        assert(sound(w));
        reconcile_sound(w);
    }
}

proof fn close_mini_sound(v: AppView, i: int)
    requires
        sound(v),
        0 <= i,
    ensures
        sound(v.close_mini(i)),
{
    if i < v.minis.len() {
        let minis = v.minis.remove(i);
        if let Some(a) = v.active_agent {
            assert forall|k: int| 0 <= k < minis.len() implies minis[k] != a by {
                let j = if k < i {
                    k
                } else {
                    k + 1
                };
                assert(minis[k] == v.minis[j]);
                assert(v.minis.contains(v.minis[j]));
            }
        }
        let w = AppView {
            minis,
            minimized: without_id(v.minimized, v.minis[i]),
            focus: if minis.len() == 0 {
                v.focus_return
            } else if i < minis.len() {
                Focus::Mini(i as usize)
            } else {
                Focus::Mini((minis.len() - 1) as usize)
            },
            ..v
        };
        assert(sound(w));
        reconcile_sound(w);
    }
}

proof fn close_pane_sound(v: AppView)
    requires
        sound(v),
    ensures
        sound(v.close_pane()),
{
    close_keeps_wf(v.tree, v.tree.focus);
    let c = AppView { tree: v.tree.close(), ..v };
    let w = match v.tree.focused_payload() {
        Some(t) => if v.is_primary(t) {
            c
        } else {
            AppView {
                terminals: drop_key(c.terminals, t),
                parsers: drop_key(c.parsers, t),
                attached: drop_key(c.attached, t),
                passthrough: drop_key(c.passthrough, t),
                ..c
            }.send(MsgView::CloseTerminal { terminal: t })
        },
        None => c,
    };
    if let Some(t) = v.tree.focused_payload() {
        dropping_keeps_screens(v.attached, v.parsers, t);
        drop_all(v.terminals, t);
        drop_all(v.passthrough, t);
    }
    assert(sound(w));
    alike(w, w.leave_empty_panes());
    reconcile_sound(w.leave_empty_panes());
}

proof fn jump_next_unread_sound(v: AppView)
    requires
        sound(v),
    ensures
        sound(v.jump_next_unread()),
{
    if let Some(id) = v.next_unread() {
        cursor_is_alike(v, Row::Agent(id), 0, true);
        alike(v, v.place_sidebar_sel(Row::Agent(id)));
        activating_keeps_sound(v.place_sidebar_sel(Row::Agent(id)), id);
    }
}

// --- keys ---

proof fn key_to_is_alike(v: AppView, t: Option<TerminalId>, key: KeyEvent)
    ensures
        same_core(v, v.key_to(t, key)),
{
}

proof fn key_prefix_sound(v: AppView, key: KeyEvent)
    requires
        sound(v),
    ensures
        sound(v.key_prefix(key)),
{
    match key.code {
        KeyCode::Enter => {
            if let Focus::Mini(i) = v.focus {
                if i < v.minis.len() {
                    activating_keeps_sound(v, v.minis[i as int]);
                }
            }
        },
        KeyCode::Tab => {
            jump_next_unread_sound(v);
        },
        KeyCode::Char(c) => {
            split_sound(v, Axis::LeftRight);
            split_sound(v, Axis::TopBottom);
            if c == 'x' {
                match v.focus {
                    Focus::Mini(i) => {
                        close_mini_sound(v, i as int);
                    },
                    _ => {
                        close_pane_sound(v);
                    },
                }
            } else if c == 'z' {
                let hidden = !v.minis_hidden;
                let w = AppView {
                    minis_hidden: hidden,
                    focus: if hidden && v.focus is Mini {
                        v.focus_return
                    } else {
                        v.focus
                    },
                    ..v
                };
                alike(v, w);
                reconcile_sound(w);
                alike(v, v.type_control(c));
            } else if c == '-' {
                match v.focus {
                    Focus::Mini(i) => {
                        if i < v.minis.len() {
                            let agent = v.minis[i as int];
                            let w = AppView {
                                minimized: if v.minimized.contains(agent) {
                                    without_id(v.minimized, agent)
                                } else {
                                    v.minimized.push(agent)
                                },
                                ..v
                            };
                            alike(v, w);
                            reconcile_sound(w);
                        }
                    },
                    _ => {
                        if let Some(id) = v.previous_agent() {
                            open_agent_sound(v, id);
                        }
                    },
                }
            } else if c == '[' {
                alike(v, v.begin_scroll());
                alike(v, v.type_control(c));
            } else {
                if let Some((dir, _)) = resize_key(key.code) {
                    let (axis, grow) = spec_axis_and_grow(dir);
                    resize_keeps_wf(v.tree, axis, Adjust::Snap { grow });
                    let w = AppView { tree: v.tree.resize_snap(dir), resize_mode: true, ..v };
                    assert(sound(w));
                    reconcile_sound(w);
                }
                if let Some(id) = v.numbered_agent(c) {
                    open_agent_sound(v, id);
                }
                alike(v, v.type_control(c));
            }
        },
        _ => {},
    }
}

proof fn key_resize_sound(v: AppView, key: KeyEvent)
    requires
        sound(v),
    ensures
        sound(v.key_resize(key)),
{
    if let Some((dir, snap)) = resize_key(key.code) {
        let (axis, grow) = spec_axis_and_grow(dir);
        resize_keeps_wf(v.tree, axis, Adjust::Snap { grow });
        resize_keeps_wf(
            v.tree,
            axis,
            Adjust::Nudge { step: RESIZE_STEP, grow },
        );
        let w = AppView {
            tree: if snap {
                v.tree.resize_snap(dir)
            } else {
                v.tree.resize(dir, RESIZE_STEP)
            },
            ..v
        };
        assert(sound(w));
        reconcile_sound(w);
    }
}

proof fn key_sidebar_sound(v: AppView, key: KeyEvent)
    requires
        sound(v),
    ensures
        sound(v.key_sidebar(key).0),
{
    let w = v.key_sidebar(key).0;
    match key.code {
        KeyCode::Enter => {
            if let Some(id) = v.selected_agent() {
                activating_keeps_sound(v, id);
            }
        },
        KeyCode::Char(c) => {
            if c == 'l' {
                if let Some(id) = v.selected_agent() {
                    activating_keeps_sound(v, id);
                }
            } else if c == 'm' {
                if let Some(id) = v.selected_agent() {
                    open_mini_sound(v, id);
                }
            } else {
                assert(same_core(v, w));
                alike(v, w);
            }
        },
        _ => {
            assert(same_core(v, w));
            alike(v, w);
        },
    }
}

proof fn key_plain_sound(v: AppView, key: KeyEvent)
    requires
        sound(v),
    ensures
        sound(v.key_plain(key).0),
{
    key_sidebar_sound(v, key);
    key_to_is_alike(v, v.tree.focused_payload(), key);
    alike(v, v.key_to(v.tree.focused_payload(), key));
    if let Focus::Mini(i) = v.focus {
        key_to_is_alike(v, v.mini_terminal(i as int), key);
        alike(v, v.key_to(v.mini_terminal(i as int), key));
    }
    if let KeyCode::Char(c) = key.code {
        if let Some(id) = v.numbered_agent(c) {
            open_agent_sound(v, id);
        }
        if let Some(dir) = move_dir(key) {
            navigate_sound(v, dir);
            cursor_is_alike(v, Row::NoRepos, 0, dir == Dir::Down);
            alike(v, v.jump_unread(dir == Dir::Down));
        }
    }
}

/// Keys keep the client sound.
pub proof fn keys_keep_sound(v: AppView, key: KeyEvent)
    requires
        sound(v),
    ensures
        sound(v.on_key(key).0),
{
    reveal(AppView::on_key);
    let w = v.dismissed();
    alike(v, w);
    match w.input {
        InputMode::Creating => {
            assert(same_core(w, w.key_creating(key)));
        },
        InputMode::CreatingRepo => {
            assert(same_core(w, w.key_creating_repo(key)));
        },
        InputMode::CreatingHead => {
            assert(same_core(w, w.key_creating_head(key)));
        },
        InputMode::Confirming => {
            assert(same_core(w, w.key_confirm(key)));
        },
        InputMode::Normal => {
            let x = w.scroll_checked();
            alike(w, x);
            if let Some(s) = x.scroll {
                assert(same_core(x, x.key_scroll(key, s.terminal)));
            } else {
                key_resize_sound(x, key);
                let y = AppView { prefix: false, ..x };
                alike(x, y);
                key_prefix_sound(y, key);
                key_plain_sound(x, key);
            }
        },
    }
}

// --- the mouse, pastes and sizes ---

/// The mouse keeps the client sound.
pub proof fn the_mouse_keeps_sound(v: AppView, me: MouseEvent)
    requires
        sound(v),
    ensures
        sound(v.on_mouse(me)),
{
    reveal(AppView::on_mouse);
    let w = v.on_mouse(me);
    let c = AppView { selection: None, ..v };
    alike(v, c);
    if let Some((t, inner)) = c.pane_at(me.column, me.row) {
        focusing_keeps_wf(c.tree, t, Dir::Left, c.area);
        let p = c.press_pane(t, inner, me.column, me.row);
        assert(p.tree == c.tree.focus_payload(t));
        assert(sound(p));
    }
    if w.tree == v.tree {
        assert(same_core(v, w));
        alike(v, w);
    }
}

/// A paste keeps the client sound.
pub proof fn pastes_keep_sound(v: AppView, text: Seq<char>)
    requires
        sound(v),
    ensures
        sound(v.on_paste(text)),
{
    assert(same_core(v, v.on_paste(text)));
    alike(v, v.on_paste(text));
}

/// Another size keeps the client sound.
pub proof fn sizes_keep_sound(v: AppView, cols: u16, rows: u16)
    requires
        sound(v),
    ensures
        sound(v.on_resize(cols, rows)),
{
    let w = AppView { area: spec_main_area(cols, rows), ..v };
    alike(v, w);
    reconcile_sound(w);
}

/// Every event of the outer terminal keeps the client sound.
pub proof fn events_keep_sound(v: AppView, ev: Option<Event>)
    requires
        sound(v),
    ensures
        sound(v.handle_event(ev).0),
{
    reveal(AppView::handle_event);
    match ev {
        Some(Event::Key(key)) => {
            keys_keep_sound(v, key);
            alike(
                v,
                AppView { super_held: key.kind != KeyEventKind::Release, ..v },
            );
        },
        Some(Event::Resize(cols, rows)) => {
            sizes_keep_sound(v, cols, rows);
        },
        Some(Event::Mouse(me)) => {
            the_mouse_keeps_sound(v, me);
        },
        Some(Event::Paste(text)) => {
            pastes_keep_sound(v, text@);
        },
        Some(Event::Other) => {},
        None => {},
    }
}

// --- the daemon ---

proof fn layout_table_keyed(list: Seq<(AgentId, Layout)>, n: int)
    ensures
        keyed(layout_table(list, n)),
    decreases n,
{
    if n > 0 {
        layout_table_keyed(list, n - 1);
        put_all(layout_table(list, n - 1), list[n - 1].0, list[n - 1].1);
    }
}

proof fn live_minis_leave_out_active(
    agents: Seq<AgentInfo>,
    active: Option<AgentId>,
    list: Seq<AgentId>,
    n: int,
)
    ensures
        forall|i: int|
            0 <= i < live_minis(agents, active, list, n).len() ==> Some(
                #[trigger] live_minis(agents, active, list, n)[i],
            ) != active,
    decreases n,
{
    if n > 0 {
        live_minis_leave_out_active(agents, active, list, n - 1);
        let before = live_minis(agents, active, list, n - 1);
        let all = live_minis(agents, active, list, n);
        assert forall|i: int| 0 <= i < all.len() implies Some(#[trigger] all[i]) != active by {
            if i < before.len() {
                assert(all[i] == before[i]);
            }
        }
    }
}

pub(crate) proof fn forget_all_sound(v: AppView, ts: Seq<TerminalId>, n: int)
    requires
        sound(v),
        0 <= n <= ts.len(),
    ensures
        sound(v.forget_all(ts, n)),
        v.forget_all(ts, n).minis == v.minis,
        v.forget_all(ts, n).agents == v.agents,
        v.forget_all(ts, n).active_agent == v.active_agent,
    decreases n,
{
    if n > 0 {
        forget_all_sound(v, ts, n - 1);
        forgetting_keeps_sound(v.forget_all(ts, n - 1), ts[n - 1]);
    }
}

pub(crate) proof fn strike_agent_sound(v: AppView, id: AgentId)
    requires
        sound(v),
    ensures
        sound(v.strike_agent(id)),
        lookup(v.strike_agent(id).trees, id) is None,
        !v.strike_agent(id).minis.contains(id),
        !v.strike_agent(id).minimized.contains(id),
        v.strike_agent(id).active_agent != Some(id),
        v.strike_agent(id).prev_active_agent != Some(id),
        v.strike_agent(id).agents == v.agents,
{
    let ts = terminals_of(v.terminals, id, v.terminals.len() as int);
    forget_all_sound(v, ts, ts.len() as int);
    let w = v.forget_all(ts, ts.len() as int);
    drop_all(w.trees, id);
    drop_tree_ok(w.trees, id);
    without_id_drops_it(w.minis, id);
    without_id_drops_it(w.minimized, id);
    if let Some(a) = w.active_agent {
        if a != id {
            assert(without_id(w.minis, id).contains(a) == w.minis.contains(a));
        }
    }
}

proof fn other_agents_are_others(agents: Seq<AgentInfo>, id: AgentId, n: int)
    requires
        0 <= n <= agents.len(),
    ensures
        forall|i: int|
            0 <= i < other_agents(agents, id, n).len() ==> (#[trigger] other_agents(
                agents,
                id,
                n,
            )[i]).id != id,
    decreases n,
{
    if n > 0 {
        other_agents_are_others(agents, id, n - 1);
    }
}

/// An agent that is removed leaves no trace: it is not on the roster, has no panes put away, is no
/// mini, and is neither active nor the one to go back to. The client stays sound.
pub proof fn removed_agents_leave_no_trace(v: AppView, id: AgentId)
    requires
        sound(v),
    ensures
        ({
            let w = v.remove_agent(id);
            &&& sound(w)
            &&& forall|i: int| 0 <= i < w.agents.len() ==> (#[trigger] w.agents[i]).id != id
            &&& lookup(w.trees, id) is None
            &&& !w.minis.contains(id)
            &&& !w.minimized.contains(id)
            &&& w.active_agent != Some(id)
            &&& w.prev_active_agent != Some(id)
        }),
{
    reveal(AppView::remove_agent);
    strike_agent_sound(v, id);
    let w = v.strike_agent(id);
    other_agents_are_others(w.agents, id, w.agents.len() as int);
    let x = AppView {
        agents: other_agents(w.agents, id, w.agents.len() as int),
        sidebar_sel: if w.sidebar_sel == Some(Row::Agent(id)) {
            None
        } else {
            w.sidebar_sel
        },
        ..w
    }.leave_empty_panes();
    alike(w, x);
    reveal(AppView::ensure_sidebar_sel);
    let y = x.ensure_sidebar_sel();
    alike(x, y);
    assert(y.agents == x.agents && y.minimized == x.minimized && y.prev_active_agent
        == x.prev_active_agent);
    reconciling_attaches_what_is_shown(y);
    reconciling_keeps_the_screen(y);
}

proof fn served_size(size: Size, bytes: Seq<u8>)
    requires
        size.rows >= 1,
        size.cols >= 1,
    ensures
        size_of(served_screen(size, bytes)) == (size.rows, size.cols),
        whole(served_screen(size, bytes)),
{
    let h = seq![VtStep::Start { rows: size.rows, cols: size.cols }];
    emulators_stay_whole(h, bytes, size.rows, size.cols);
}

/// Whether a message is about what to restore.
spec fn restores(msg: DaemonMsg) -> bool {
    msg is Layouts || msg is Minis || msg is Active || msg is Previous
}

/// Whether a message is about a terminal, or takes an agent or its terminals away.
spec fn moves_terminals(msg: DaemonMsg) -> bool {
    msg is AgentRemoved || msg is TerminalApp || msg is Navigate || msg is OutputSnapshot
        || msg is Output || msg is TerminalExited
}

proof fn restoring_sound(v: AppView, msg: DaemonMsg)
    requires
        sound(v),
        restores(msg),
    ensures
        sound(v.on_daemon(msg)),
{
    reveal(AppView::on_daemon);
    match msg {
        DaemonMsg::Layouts(list) => {
            layout_table_keyed(list@, list@.len() as int);
        },
        DaemonMsg::Minis(list) => {
            let minis = live_minis(v.agents, v.active_agent, list@, list@.len() as int);
            live_minis_leave_out_active(v.agents, v.active_agent, list@, list@.len() as int);
            let x = AppView { minis, ..v };
            if let Some(a) = v.active_agent {
                assert forall|i: int| 0 <= i < minis.len() implies minis[i] != a by {
                    assert(Some(minis[i]) != v.active_agent);
                }
            }
            assert(sound(x));
            reconcile_sound(x);
        },
        DaemonMsg::Active(active) => {
            if let Some(id) = active {
                activating_keeps_sound(v, id);
            }
        },
        DaemonMsg::Previous(prev) => {
            let x = AppView {
                prev_active_agent: match prev {
                    Some(id) => if has_agent(v.agents, id) {
                        Some(id)
                    } else {
                        None
                    },
                    None => None,
                },
                ..v
            };
            alike(v, x);
            reconcile_sound(x);
        },
        _ => {},
    }
}

proof fn terminal_messages_sound(v: AppView, msg: DaemonMsg)
    requires
        sound(v),
        moves_terminals(msg),
    ensures
        sound(v.on_daemon(msg)),
{
    reveal(AppView::on_daemon);
    match msg {
        DaemonMsg::AgentRemoved { id } => {
            removed_agents_leave_no_trace(v, id);
        },
        DaemonMsg::TerminalApp { terminal, passthrough } => {
            put_all(v.passthrough, terminal, passthrough);
        },
        DaemonMsg::Navigate { dir } => {
            navigate_sound(v, dir);
        },
        DaemonMsg::OutputSnapshot { terminal, bytes } => {
            if let Some(size) = lookup(v.attached, terminal) {
                assert(lookup(v.parsers, terminal) is Some);
                served_size(size, bytes@);
                replacing_keeps_screens(
                    v.attached,
                    v.parsers,
                    terminal,
                    served_screen(size, bytes@),
                );
            }
        },
        DaemonMsg::Output { terminal, bytes } => {
            if let Some(h) = lookup(v.parsers, terminal) {
                emulators_stay_whole(h, bytes@, 1, 1);
                assert(lookup(v.attached, terminal) is Some);
                replacing_keeps_screens(
                    v.attached,
                    v.parsers,
                    terminal,
                    after_feed(h, bytes@),
                );
            }
        },
        DaemonMsg::TerminalExited { terminal } => {
            forgetting_keeps_sound(v, terminal);
            let x = v.forget_terminal(terminal).leave_empty_panes();
            alike(v.forget_terminal(terminal), x);
            reconcile_sound(x);
        },
        _ => {},
    }
}

proof fn other_messages_are_alike(v: AppView, msg: DaemonMsg)
    requires
        !restores(msg),
        !moves_terminals(msg),
    ensures
        same_core(v, v.on_daemon(msg)),
{
    reveal(AppView::on_daemon);
    match msg {
        DaemonMsg::Repos(list) => {
            cursor_is_alike(AppView { repos: list@, ..v }, Row::NoRepos, 0, true);
        },
        DaemonMsg::RepoAdded(info) => {
            cursor_is_alike(v, Row::NoRepos, 0, true);
            cursor_is_alike(AppView { repos: v.repos.push(info), ..v }, Row::NoRepos, 0, true);
        },
        DaemonMsg::Agents(list) => {
            cursor_is_alike(AppView { agents: list@, ..v }, Row::NoRepos, 0, true);
        },
        DaemonMsg::AgentAdded(info) => {
            let w = AppView { agents: v.agents.push(info), ..v };
            cursor_is_alike(w, Row::Agent(info.id), 0, true);
            cursor_is_alike(w.place_sidebar_sel(Row::Agent(info.id)), Row::NoRepos, 0, true);
        },
        _ => {},
    }
}

/// Every message of the daemon keeps the client sound.
pub proof fn messages_keep_sound(v: AppView, msg: DaemonMsg)
    requires
        sound(v),
    ensures
        sound(v.on_daemon(msg)),
{
    if restores(msg) {
        restoring_sound(v, msg);
    } else if moves_terminals(msg) {
        terminal_messages_sound(v, msg);
    } else {
        other_messages_are_alike(v, msg);
        alike(v, v.on_daemon(msg));
    }
}

/// Every message, and the end of them, keeps the client sound.
pub proof fn the_daemon_keeps_sound(v: AppView, msg: Option<DaemonMsg>)
    requires
        sound(v),
    ensures
        sound(v.handle_daemon(msg).0),
{
    if let Some(m) = msg {
        messages_keep_sound(v, m);
    }
}

// --- output ---

/// In every state, what a program puts out reaches the screen of its pane, where that has at least two
/// rows and three columns.
pub proof fn output_reaches_the_screen(v: AppView, t: TerminalId, size: Size, bytes: Vec<u8>)
    requires
        sound(v),
        lookup(v.attached, t) == Some(size),
        size.rows >= 2,
        3 <= size.cols <= 65527,
    ensures
        lookup(v.parsers, t) matches Some(h) && lookup(
            v.on_daemon(DaemonMsg::Output { terminal: t, bytes }).parsers,
            t,
        ) == Some(h.push(VtStep::Feed { bytes: bytes@ })),
{
    reveal(AppView::on_daemon);
    assert(lookup(v.parsers, t) is Some);
    let h = lookup(v.parsers, t)->0;
    roomy_emulators_take_anything(h, bytes@);
    put_all(v.parsers, t, after_feed(h, bytes@));
}

} // verus!
