//! More of what can be counted on: how the client begins, what goes where, and what is kept.

use vstd::prelude::*;
use crate::commands::agent_is_found;
use crate::conduct::{plain_mode, reconciling_asks_for_views};
use crate::cursor::{is_stop, no_stop_above, stops_are_ranked};
use crate::doctor::{config_place, home_place, place_lines};
use crate::emulator::{after_resize, vt_application_cursor, VtStep};
use crate::geometry::{Dir, Rect, Size};
use crate::ids::{hex, id_text, AgentId, TerminalId};
use crate::input::{KeyCode, KeyEvent};
use crate::keys::expanded;
use crate::looks::the_last_agent_is_found;
use crate::order::{inserted, places, sorted, Before};
use crate::pane::{
    distinct, halves, has_leaf, latest_pane, placed, stamp, with_payload, Node, PaneId, TreeView,
};
use crate::pane_laws::{latest_pane_is_a_leaf, placements_are_leaves};
use crate::render::{hidden_hint, sidebar_title, unread_count};
use crate::roster::{row_from, stops};
use crate::sidebar::{rows_for, Row};
use crate::spatial::focus_does_not_count;
use crate::state::{primary_of, AppView, Field, Flow, Focus, InputMode};
use crate::table::{keyed, lookup, put_then_lookup};
use crate::text::without_controls;
use crate::visits::spawning_only_asks;
use crate::wire::{AgentState, MsgView};
use crate::workspace::claimed;

verus! {

// --- beginning ---

/// The client begins with nothing: no agents, no panes, no minis, nothing to send, the focus in the
/// sidebar, and no prompt or mode.
pub proof fn the_client_begins_with_nothing(cols: u16, rows: u16)
    ensures
        ({
            let v = AppView::initial(cols, rows);
            &&& v.repos.len() == 0 && v.agents.len() == 0 && v.minis.len() == 0
            &&& v.tree.root is None && v.trees.len() == 0 && v.attached.len() == 0
            &&& v.active_agent is None && v.prev_active_agent is None
            &&& v.focus == Focus::Sidebar && v.input == InputMode::Normal
            &&& v.scroll is None && !v.resize_mode && !v.prefix && v.selection is None
            &&& v.out.len() == 0 && v.status.len() == 0 && v.info.len() == 0
            &&& !v.minis_hidden && !v.sidebar_placed && v.sidebar_sel is None
        }),
{
}

// --- where typing goes ---

/// Typing goes to the terminal of the focused pane, or to the own terminal of the focused mini's
/// agent, and nowhere from the sidebar.
pub proof fn typing_goes_to_the_focus(v: AppView, k: int)
    ensures
        v.focus == Focus::Panes ==> v.focused_terminal() == v.tree.focused_payload(),
        v.focus == Focus::Sidebar ==> v.focused_terminal() is None,
        v.focus matches Focus::Mini(i) ==> (i < v.minis.len() && 0 <= k < v.agents.len()
            && v.agents[k].id == v.minis[i as int] && (forall|m: int|
            0 <= m < k ==> (#[trigger] v.agents[m]).id != v.minis[i as int])
            ==> v.focused_terminal() == Some(v.agents[k].primary_terminal)),
{
    if let Focus::Mini(i) = v.focus {
        if i < v.minis.len() && 0 <= k < v.agents.len() && v.agents[k].id == v.minis[i as int] && (
        forall|m: int| 0 <= m < k ==> (#[trigger] v.agents[m]).id != v.minis[i as int]) {
            agent_is_found(v.agents, v.minis[i as int], 0, k);
        }
    }
}

/// Cursor keys are written the way the program in that terminal asked for, and a paste is marked
/// where that program asked for marks.
pub proof fn programs_are_written_to_as_they_asked(v: AppView, t: TerminalId, h: Seq<VtStep>)
    ensures
        lookup(v.parsers, t) == Some(h) ==> v.app_cursor(t) == vt_application_cursor(h),
        lookup(v.parsers, t) is None ==> !v.app_cursor(t),
{
}

/// Whether the movement keys belong to the program in the focused pane is what was last said of that
/// terminal.
pub proof fn movement_keys_belong_to_who_asked(v: AppView, t: TerminalId)
    requires
        v.tree.focused_payload() == Some(t),
    ensures
        v.focused_is_passthrough() <==> lookup(v.passthrough, t) == Some(true),
{
}

/// A paste into a prompt goes to the end of the field being edited, without its control characters,
/// and submits nothing; a paste at a question, in scroll or resize mode or after the prefix goes
/// nowhere.
pub proof fn pastes_go_to_the_field(v: AppView, text: Seq<char>)
    ensures
        ({
            let w = v.on_paste(text);
            let kept = without_controls(text);
            &&& v.input == InputMode::Creating || v.input == InputMode::CreatingRepo || v.input
                == InputMode::CreatingHead ==> {
                &&& w.out == v.out && w.input == v.input
                &&& v.create_field == Field::Branch ==> w == AppView {
                    create_buf: v.create_buf + kept,
                    ..v
                }
                &&& v.create_field == Field::Task ==> w == AppView { task_buf: v.task_buf + kept, ..v }
                &&& v.create_field == Field::Dir ==> w == AppView { dir_buf: v.dir_buf + kept, ..v }
            }
            &&& v.input == InputMode::Confirming ==> w == v
            &&& v.input == InputMode::Normal && (v.scroll is Some || v.resize_mode || v.prefix) ==> w
                == v
            &&& plain_mode(v) && v.focused_terminal() is None ==> w == v
        }),
{
}

/// At a question `y` and `Y` delete the agent in question, by force, and every other key deletes
/// nothing; either way the question is answered.
pub proof fn questions_are_answered_once(v: AppView, key: KeyEvent, id: AgentId)
    requires
        v.input == InputMode::Confirming,
        v.confirm_id == Some(id),
        !(key.code == KeyCode::Char('q') && key.modifiers.control),
    ensures
        ({
            let (w, flow) = v.on_key(key);
            let yes = key.code == KeyCode::Char('y') || key.code == KeyCode::Char('Y');
            &&& flow == Flow::Continue
            &&& w.input == InputMode::Normal && w.confirm_id is None
            &&& yes ==> w.out == v.out.push(MsgView::DeleteAgent { id, force: true })
            &&& !yes ==> w.out == v.out
            &&& w.agents == v.agents && w.tree == v.tree && w.focus == v.focus
        }),
{
    reveal(AppView::on_key);
}

/// A terminal is an agent's own exactly where some agent says so.
pub proof fn own_terminals_are_the_agents(v: AppView, t: TerminalId, k: int)
    ensures
        0 <= k < v.agents.len() && v.agents[k].primary_terminal == t ==> v.is_primary(t),
        (forall|i: int| 0 <= i < v.agents.len() ==> (#[trigger] v.agents[i]).primary_terminal != t)
            ==> !v.is_primary(t),
{
}

/// What is drawn of a terminal is the window of history that was served for it, while it is scrolled
/// back, and its live screen otherwise.
pub proof fn scrolled_panes_show_history(v: AppView, t: TerminalId)
    ensures
        v.scroll is Some && (v.scroll->0).terminal == t ==> v.screen_for(t) == Some(
            (v.scroll->0).screen,
        ),
        v.scroll is None || (v.scroll->0).terminal != t ==> v.screen_for(t) == lookup(v.parsers, t),
{
}

// --- moving in and out of the sidebar ---

/// From the sidebar a move to the right goes to the pane that was focused last, or, without panes, to
/// the first mini; every other move stays.
pub proof fn right_of_the_sidebar_are_the_panes(v: AppView, dir: Dir, id: PaneId)
    requires
        v.focus == Focus::Sidebar,
    ensures
        ({
            let w = v.navigate(dir);
            &&& dir != Dir::Right ==> w == v
            &&& dir == Dir::Right && v.tree.root is Some ==> {
                &&& w.focus == Focus::Panes && w.tree.root == v.tree.root
                &&& has_leaf(v.tree.root->0, w.tree.focus)
                &&& has_leaf(v.tree.root->0, id) ==> stamp(v.tree.stamps, id) <= stamp(
                    v.tree.stamps,
                    w.tree.focus,
                )
            }
            &&& dir == Dir::Right && v.tree.root is None && v.minis.len() > 0 ==> w.focus
                == Focus::Mini(0) && w.focus_return == Focus::Sidebar
            &&& dir == Dir::Right && v.tree.root is None && v.minis.len() == 0 ==> w == v
            &&& w.out == v.out
        }),
{
    reveal(AppView::navigate);
    if let Some(node) = v.tree.root {
        latest_pane_is_a_leaf(node, v.tree.stamps);
        the_latest_pane_is_the_latest(node, v.tree.stamps, id);
    }
}

/// The pane that was focused last has the latest stamp.
pub proof fn the_latest_pane_is_the_latest<P>(node: Node<P>, stamps: Map<PaneId, u64>, id: PaneId)
    ensures
        has_leaf(node, id) ==> stamp(stamps, id) <= stamp(stamps, latest_pane(node, stamps)),
    decreases node,
{
    match node {
        Node::Leaf { .. } => {},
        Node::Split { first, second, .. } => {
            the_latest_pane_is_the_latest(*first, stamps, id);
            the_latest_pane_is_the_latest(*second, stamps, id);
        },
    }
}

/// A key that moves right from the sidebar is Ctrl+L.
pub proof fn ctrl_l_enters_the_panes(v: AppView, key: KeyEvent)
    requires
        plain_mode(v),
        v.focus == Focus::Sidebar,
        key.code == KeyCode::Char('l'),
        key.modifiers.control,
        v.tree.root is Some,
    ensures
        v.on_key(key).0.focus == Focus::Panes,
        v.on_key(key).0.active_agent == v.active_agent,
{
    reveal(AppView::on_key);
    reveal(AppView::navigate);
    let w = v.dismissed();
    assert(w.scroll_checked() == w);
}

// --- panes ---

proof fn opening_places_alike<P>(
    node: Node<P>,
    slot: Rect,
    focus: PaneId,
    id: PaneId,
    payload: Option<P>,
    k: int,
)
    requires
        distinct(node),
        0 <= k < placed(node, slot, focus).len(),
    ensures
        ({
            let (a, b) = (placed(node, slot, focus), placed(with_payload(node, id, payload), slot, focus));
            &&& b.len() == a.len()
            &&& b[k].id == a[k].id && b[k].rect == a[k].rect && b[k].focused == a[k].focused
            &&& a[k].id == id ==> b[k].payload == payload
            &&& a[k].id != id ==> b[k].payload == a[k].payload
        }),
    decreases node,
{
    match node {
        Node::Leaf { .. } => {},
        Node::Split { axis, ratio, first, second } => {
            let (a, b) = halves(slot, axis, ratio);
            let n = placed(*first, a, focus).len();
            focus_does_not_count(*first, a, focus, focus);
            focus_does_not_count(*second, b, focus, focus);
            if has_leaf(*first, id) {
                opening_places_alike(*first, a, focus, id, payload, 0);
                if k < n {
                    opening_places_alike(*first, a, focus, id, payload, k);
                } else {
                    placements_are_leaves(*second, b, focus, k - n);
                }
            } else {
                opening_places_alike(*second, b, focus, id, payload, 0);
                if k < n {
                    placements_are_leaves(*first, a, focus, k);
                } else {
                    opening_places_alike(*second, b, focus, id, payload, k - n);
                }
            }
        },
    }
}

/// Opening something in the focused pane changes what that pane shows, and neither what another shows
/// nor where any of them lies.
pub proof fn opening_changes_the_focused_pane_alone<P>(v: TreeView<P>, payload: P, area: Rect, k: int)
    requires
        v.wf(),
        v.root is Some,
        0 <= k < v.layout(area).len(),
    ensures
        ({
            let (a, b) = (v.layout(area), v.open(payload).layout(area));
            &&& b.len() == a.len()
            &&& b[k].id == a[k].id && b[k].rect == a[k].rect
            &&& a[k].id == v.focus ==> b[k].payload == Some(payload)
            &&& a[k].id != v.focus ==> b[k].payload == a[k].payload
            &&& v.open(payload).focus == v.focus
        }),
{
    opening_places_alike(v.root->0, area, v.focus, v.focus, Some(payload), k);
}

/// The first thing opened fills the area with one pane, which has the focus.
pub proof fn the_first_pane_fills_the_area<P>(v: TreeView<P>, payload: P, area: Rect)
    requires
        v.root is None,
    ensures
        ({
            let places = v.open(payload).layout(area);
            &&& places.len() == 1
            &&& places[0].rect == area && places[0].payload == Some(payload) && places[0].focused
        }),
{
}

// --- opened agents ---

proof fn claimed_belong(
    terminals: Seq<(TerminalId, AgentId)>,
    ps: Seq<TerminalId>,
    id: AgentId,
    n: int,
    t: TerminalId,
)
    requires
        keyed(terminals),
        0 <= n <= ps.len(),
    ensures
        keyed(claimed(terminals, ps, id, n)),
        (exists|k: int| 0 <= k < n && #[trigger] ps[k] == t) ==> lookup(
            claimed(terminals, ps, id, n),
            t,
        ) == Some(id),
        (forall|k: int| 0 <= k < n ==> #[trigger] ps[k] != t) ==> lookup(
            claimed(terminals, ps, id, n),
            t,
        ) == lookup(terminals, t),
    decreases n,
{
    if n > 0 {
        claimed_belong(terminals, ps, id, n - 1, t);
        put_then_lookup(claimed(terminals, ps, id, n - 1), ps[n - 1], id, t);
    }
}

/// Every terminal in the panes of an agent that is opened belongs to that agent, and no other
/// terminal changes hands.
pub proof fn opened_panes_belong_to_the_agent(v: AppView, id: AgentId, t: TerminalId)
    requires
        keyed(v.terminals),
        v.active_agent != Some(id),
    ensures
        ({
            let w = v.swap_to_agent(id);
            &&& w.tree.payloads().contains(t) ==> lookup(w.terminals, t) == Some(id)
            &&& !w.tree.payloads().contains(t) && primary_of(v.agents, id) != Some(t) ==> lookup(
                w.terminals,
                t,
            ) == lookup(v.terminals, t)
        }),
{
    let a = v.no_longer_mini(id).put_away();
    let b = a.fetch(id);
    let ps = b.tree.payloads();
    claimed_belong(a.terminals, ps, id, ps.len() as int, t);
    if let Some(primary) = primary_of(v.agents, id) {
        claimed_belong(a.terminals, ps, id, ps.len() as int, primary);
        put_then_lookup(b.terminals, primary, id, t);
        if b.tree.root is None {
            let c = b.show_primary(id);
            if b.tree.next_id < u64::MAX {
                assert(c.tree.payloads() =~= seq![primary]);
                assert(c.tree.payloads()[0] == primary);
            }
        }
    }
}

/// A shell is asked for in each blank pane of a layout that comes back, in the worktree of its agent,
/// before anything else is asked; the ids are the fresh ones in their order, and each is used once.
pub proof fn blank_panes_get_their_shells(v: AppView, id: AgentId, primary: TerminalId, k: int)
    requires
        primary_of(v.agents, id) == Some(primary),
        0 <= k < v.restored(id).len(),
    ensures
        ({
            let w = v.activate(id);
            let n = v.restored(id).len();
            &&& v.restored(id)[k] == v.fresh[k]
            &&& w.out.len() >= v.out.len() + n
            &&& w.out[v.out.len() + k] == MsgView::SpawnShell { terminal: v.fresh[k], like: primary }
            &&& forall|i: int| 0 <= i < v.out.len() ==> #[trigger] w.out[i] == v.out[i]
        }),
{
    reveal(AppView::activate);
    let a = v.swap_to_agent(id);
    let blanks = v.restored(id);
    let n = blanks.len() as int;
    assert(a.out == v.out);
    spawning_only_asks(a, primary, blanks, n);
    let b = a.spawn_restored_shells(id, blanks);
    reconciling_asks_for_views(b);
    let w = v.activate(id);
    assert(b.out[v.out.len() + k] == MsgView::SpawnShell { terminal: blanks[k], like: primary });
    assert(w.out[v.out.len() + k] == b.out[v.out.len() + k]);
    assert forall|i: int| 0 <= i < v.out.len() implies #[trigger] w.out[i] == v.out[i] by {
        assert(b.out[i] == v.out[i]);
    }
}

// --- the cursor's first place ---

/// Until the cursor was placed on purpose it is on the first row that it can be on.
pub proof fn the_cursor_begins_at_the_top(v: AppView, j: int)
    requires
        !v.sidebar_placed,
        0 <= j < v.rows().len() <= usize::MAX,
        is_stop(v.rows()[j]),
        forall|m: int| 0 <= m < j ==> !is_stop(#[trigger] v.rows()[m]),
    ensures
        v.ensure_sidebar_sel().sidebar_sel == Some(v.rows()[j]),
        !v.ensure_sidebar_sel().sidebar_placed,
{
    reveal(AppView::ensure_sidebar_sel);
    let rows = v.rows();
    let n = rows.len() as int;
    stops_are_ranked(rows, n);
    no_stop_above(rows, j);
    let s = stops(rows, n);
    assert(is_stop(rows[j]));
    assert(s[0] == j);
}

/// Moving the cursor, or placing it, brings its row into view, and leaves a view alone that shows it
/// already.
pub proof fn the_view_follows_the_cursor(v: AppView, row: Row, i: int)
    requires
        v.rows().len() <= usize::MAX,
        row_from(v.rows(), row, 0) == Some(i),
        0 <= i < v.rows().len(),
    ensures
        ({
            let w = v.place_sidebar_sel(row);
            &&& w.sidebar_sel == Some(row) && w.sidebar_placed
            &&& w.sidebar_top <= i < w.sidebar_top + v.page()
            &&& v.sidebar_top <= i < v.sidebar_top + v.page() && v.sidebar_top + v.page()
                <= v.rows().len() ==> w.sidebar_top == v.sidebar_top
            &&& w.out == v.out && w.focus == v.focus && w.active_agent == v.active_agent
        }),
{
}

// --- drawing ---

/// The message of an agent that waits is written below it.
pub proof fn messages_are_written_out(v: AppView, k: int)
    requires
        0 <= k < v.agents.len(),
        forall|m: int| k < m < v.agents.len() ==> (#[trigger] v.agents[m]).id != v.agents[k].id,
    ensures
        v.agents[k].state matches AgentState::NeedsAttention { message, .. } ==> (message
            matches Some(m) ==> {
            let line = v.attention_line(v.agents[k].id);
            line.len() == 1 && line[0].text == "       "@ + m@
        }),
{
    the_last_agent_is_found(v.agents, k, v.agents.len() as int);
}

/// The rows above the view, in it and below it are all the rows there are.
pub proof fn every_row_is_shown_or_counted(v: AppView, area: Rect)
    requires
        area.height >= 3,
        area.width >= 30,
        v.rows_for(false).len() <= usize::MAX,
    ensures
        ({
            let rows = v.rows_for(false).len();
            let shown = v.sidebar_lines(area).len();
            let above = v.drawn_top(false, area.height - 2);
            let below = rows - above - shown;
            &&& 0 <= above && below >= 0
            &&& v.sidebar_heading(area) == sidebar_title(
                false,
                unread_count(v.agents, v.agents.len() as int),
                hidden_hint(false, above as nat, below as nat),
            )
        }),
{
}

/// Whether agent `id` is in view, for the star at its name: in the main area, or as a mini.
pub proof fn stars_mark_what_is_open(v: AppView, id: AgentId)
    ensures
        v.is_open(id) <==> v.active_agent == Some(id) || exists|i: int|
            0 <= i < v.minis.len() && #[trigger] v.minis[i] == id,
{
}

// --- attaching ---

/// A terminal that is attached at a new size keeps its screen, in that size; one that is new begins
/// with an empty one. One that is attached at that size already is left alone.
pub proof fn attaching_fits_the_screen(v: AppView, t: TerminalId, size: Size, other: TerminalId)
    requires
        keyed(v.parsers),
        keyed(v.attached),
        other != t,
    ensures
        ({
            let w = v.attach_one(t, size);
            &&& lookup(w.attached, t) == Some(size)
            &&& lookup(v.attached, t) == Some(size) ==> w == v
            &&& lookup(v.attached, t) != Some(size) ==> {
                &&& lookup(v.parsers, t) matches Some(h) ==> lookup(w.parsers, t) == Some(
                    after_resize(h, size.rows, size.cols),
                )
                &&& lookup(v.parsers, t) is None ==> lookup(w.parsers, t) == Some(
                    seq![VtStep::Start { rows: size.rows, cols: size.cols }],
                )
                &&& w.out[v.out.len() as int] == MsgView::Attach { terminal: t, size }
            }
            &&& lookup(w.parsers, other) == lookup(v.parsers, other)
            &&& lookup(w.attached, other) == lookup(v.attached, other)
        }),
{
    put_then_lookup(v.attached, t, size, other);
    match lookup(v.parsers, t) {
        Some(h) => {
            put_then_lookup(v.parsers, t, after_resize(h, size.rows, size.cols), other);
        },
        None => {
            put_then_lookup(
                v.parsers,
                t,
                seq![VtStep::Start { rows: size.rows, cols: size.cols }],
                other,
            );
        },
    }
}

// --- sorting ---

proof fn insertion_is_stable(f: Before, s: Seq<usize>, x: usize)
    requires
        forall|i: int| 0 <= i < s.len() ==> #[trigger] s[i] < x,
        forall|i: int, j: int|
            0 <= i < j < s.len() && !f(s[i], s[j]) && !f(s[j], s[i]) ==> #[trigger] s[i]
                < #[trigger] s[j],
    ensures
        ({
            let out = inserted(f, s, x);
            &&& out.len() == s.len() + 1
            &&& forall|i: int| 0 <= i < out.len() ==> #[trigger] out[i] == x || s.contains(out[i])
            &&& forall|i: int, j: int|
                0 <= i < j < out.len() && !f(out[i], out[j]) && !f(out[j], out[i])
                    ==> #[trigger] out[i] < #[trigger] out[j]
            &&& forall|i: int| 0 <= i < out.len() ==> #[trigger] out[i] <= x
        }),
    decreases s.len(),
{
    let out = inserted(f, s, x);
    if s.len() > 0 && f(x, s.last()) {
        let front = s.drop_last();
        assert forall|i: int, j: int|
            0 <= i < j < front.len() && !f(front[i], front[j]) && !f(front[j], front[i])
                implies #[trigger] front[i] < #[trigger] front[j] by {
            assert(front[i] == s[i] && front[j] == s[j]);
        }
        insertion_is_stable(f, front, x);
        let t = inserted(f, front, x);
        assert(out == t.push(s.last()));
        assert forall|i: int| 0 <= i < out.len() implies #[trigger] out[i] == x || s.contains(
            out[i],
        ) by {
            if i < t.len() {
                assert(out[i] == t[i]);
                if t[i] != x {
                    let k = choose|k: int| 0 <= k < front.len() && front[k] == t[i];
                    assert(s[k] == t[i]);
                }
            } else {
                assert(s[s.len() - 1] == out[i]);
            }
        }
        assert forall|i: int, j: int|
            0 <= i < j < out.len() && !f(out[i], out[j]) && !f(out[j], out[i])
                implies #[trigger] out[i] < #[trigger] out[j] by {
            if j < t.len() {
                assert(out[i] == t[i] && out[j] == t[j]);
            } else {
                assert(out[i] == t[i] && out[j] == s.last());
                assert(t[i] == x || front.contains(t[i]));
                if t[i] != x {
                    let k = choose|k: int| 0 <= k < front.len() && front[k] == t[i];
                    assert(s[k] == t[i] && s[s.len() - 1] == s.last());
                }
            }
        }
        assert forall|i: int| 0 <= i < out.len() implies #[trigger] out[i] <= x by {
            if i < t.len() {
                assert(out[i] == t[i]);
            } else {
                assert(s[s.len() - 1] == out[i]);
            }
        }
    } else {
        assert(out == s.push(x));
        assert forall|i: int| 0 <= i < out.len() implies #[trigger] out[i] == x || s.contains(
            out[i],
        ) by {
            if i < s.len() {
                assert(s[i] == out[i]);
            }
        }
        assert forall|i: int, j: int|
            0 <= i < j < out.len() && !f(out[i], out[j]) && !f(out[j], out[i])
                implies #[trigger] out[i] < #[trigger] out[j] by {
            assert(out[i] == s[i]);
            if j < s.len() {
                assert(out[j] == s[j]);
            }
        }
    }
}

/// Where the order has no preference, what came first stays first.
pub proof fn sorting_is_stable(f: Before, n: nat, i: int, j: int)
    requires
        n <= usize::MAX,
        0 <= i < j < n,
        !f(sorted(f, places(n))[i], sorted(f, places(n))[j]),
        !f(sorted(f, places(n))[j], sorted(f, places(n))[i]),
    ensures
        sorted(f, places(n))[i] < sorted(f, places(n))[j],
{
    sorting_keeps_ties(f, n);
}

proof fn sorting_keeps_ties(f: Before, n: nat)
    requires
        n <= usize::MAX,
    ensures
        ({
            let s = sorted(f, places(n));
            &&& s.len() == n
            &&& forall|i: int| 0 <= i < s.len() ==> #[trigger] s[i] < n
            &&& forall|i: int, j: int|
                0 <= i < j < s.len() && !f(s[i], s[j]) && !f(s[j], s[i]) ==> #[trigger] s[i]
                    < #[trigger] s[j]
        }),
    decreases n,
{
    if n > 0 {
        let m = (n - 1) as nat;
        sorting_keeps_ties(f, m);
        assert(places(n).drop_last() =~= places(m));
        assert(places(n).last() == m as usize);
        insertion_is_stable(f, sorted(f, places(m)), m as usize);
    }
}

// --- where things are kept ---

/// The configuration is looked for in the configured directory, or else under the home directory; a
/// root that is given is where everything else is kept, with its `~` expanded.
pub proof fn places_follow_the_environment(xdg: Option<Seq<char>>, root: Option<Seq<char>>, home: Option<Seq<char>>)
    ensures
        xdg is Some && (xdg->0).len() > 0 && (xdg->0)[(xdg->0).len() - 1] != '/' ==> config_place(
            xdg,
            home,
        ) == xdg->0 + "/amux/config.toml"@,
        xdg is None || (xdg->0).len() == 0 ==> config_place(xdg, home) == expanded(
            "~/.config/amux/config.toml"@,
            home,
        ),
        root is Some ==> home_place(root, home) == expanded(root->0, home),
        root is None ==> home_place(root, home) == expanded("~/.amux"@, home),
{
    reveal_strlit("amux/config.toml");
    reveal_strlit("/amux/config.toml");
    if xdg is Some && (xdg->0).len() > 0 && (xdg->0)[(xdg->0).len() - 1] != '/' {
        assert(config_place(xdg, home) =~= xdg->0 + "/amux/config.toml"@);
    }
}

/// The doctor says which configuration was loaded, or that there is none, and where everything is
/// kept.
pub proof fn the_doctor_says_where_things_are(config: Option<Seq<char>>, home: Seq<char>)
    ensures
        ({
            let lines = place_lines(config, home);
            &&& lines.len() == 3 && lines[0].len() == 0
            &&& config matches Some(path) ==> lines[1] == "config   "@ + path
            &&& config is None ==> lines[1] == "config   "@ + "none"@
            &&& lines[2] == "home     "@ + home
        }),
{
}

// --- ids ---

/// An id is written as thirty-two hexadecimal digits in groups of eight, four, four, four and twelve.
pub proof fn ids_are_written_in_groups(id: TerminalId, i: int)
    requires
        0 <= i < 36,
    ensures
        id_text(id).len() == 36,
        (id_text(id)[i] == '-') == (i == 8 || i == 13 || i == 18 || i == 23),
        !(i == 8 || i == 13 || i == 18 || i == 23) ==> ('0' <= id_text(id)[i] <= '9' || 'a'
            <= id_text(id)[i] <= 'f'),
{
    digits_are_small(id.0 as nat, 32);
}

proof fn digits_are_small(n: nat, len: nat)
    ensures
        hex(n, len).len() == len,
        forall|i: int|
            0 <= i < len ==> ('0' <= #[trigger] hex(n, len)[i] <= '9' || 'a' <= hex(n, len)[i] <= 'f'),
    decreases len,
{
    if len > 0 {
        digits_are_small(n / 16, (len - 1) as nat);
        let front = hex(n / 16, (len - 1) as nat);
        assert forall|i: int| 0 <= i < len implies ('0' <= #[trigger] hex(n, len)[i] <= '9' || 'a'
            <= hex(n, len)[i] <= 'f') by {
            if i < len - 1 {
                assert(hex(n, len)[i] == front[i]);
            }
        }
    }
}

} // verus!
