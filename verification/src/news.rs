//! What each message of the daemon changes, and what it leaves alone; and what becomes of the events
//! of the outer terminal.

use vstd::prelude::*;
use crate::commands::agent_is_found;
use crate::daemon::{layout_table, live_minis, other_agents, terminals_of};
use crate::emulator::{after_feed, VtStep};
use crate::ids::{AgentId, TerminalId};
use crate::input::{Event, KeyCode, KeyEventKind};
use crate::keys::served_screen;
use crate::pane::Layout;
use crate::roster::row_from;
use crate::sidebar::{spec_main_area, Row, SIDEBAR_W_FULL};
use crate::state::{agent_from, has_agent, without_id_drops_it, AppView, Flow, Focus, InputMode};
use crate::table::{keyed, lookup, put_then_lookup};
use crate::visits::{an_opened_agent_is_active, differs_in_views, reconciling_moves_nothing};
use crate::wire::{AgentInfo, DaemonMsg};

verus! {

/// Whether `k` is the place of the agent `id`.
pub open spec fn stands_at(v: AppView, id: AgentId, k: int) -> bool {
    &&& 0 <= k < v.agents.len()
    &&& v.agents[k].id == id
    &&& forall|m: int| 0 <= m < k ==> (#[trigger] v.agents[m]).id != id
}

/// Whether there is no agent `id`.
pub open spec fn unheard_of(v: AppView, id: AgentId) -> bool {
    forall|k: int| 0 <= k < v.agents.len() ==> (#[trigger] v.agents[k]).id != id
}

/// Whether `w` is `v` but for the agent at `k`.
pub open spec fn differs_in_agent(v: AppView, w: AppView, k: int) -> bool {
    &&& w == AppView { agents: w.agents, ..v }
    &&& w.agents.len() == v.agents.len()
    &&& forall|i: int| 0 <= i < v.agents.len() && i != k ==> #[trigger] w.agents[i] == v.agents[i]
}

proof fn agent_is_not_found(agents: Seq<AgentInfo>, id: AgentId, i: int)
    requires
        0 <= i,
        forall|k: int| i <= k < agents.len() ==> (#[trigger] agents[k]).id != id,
    ensures
        agent_from(agents, id, i) is None,
    decreases agents.len() - i,
{
    if i < agents.len() {
        agent_is_not_found(agents, id, i + 1);
    }
}

proof fn known_agents_stand_somewhere(agents: Seq<AgentInfo>, id: AgentId, i: int)
    requires
        0 <= i,
    ensures
        agent_from(agents, id, i) is Some <==> exists|k: int|
            i <= k < agents.len() && (#[trigger] agents[k]).id == id,
    decreases agents.len() - i,
{
    if i < agents.len() && agents[i].id != id {
        known_agents_stand_somewhere(agents, id, i + 1);
        if agent_from(agents, id, i) is Some {
            let k = choose|k: int| i + 1 <= k < agents.len() && (#[trigger] agents[k]).id == id;
            assert(agents[k].id == id);
        }
    }
}

// --- about agents ---

/// News of an agent's state is about that agent: its state and its glyph are the new ones, it was
/// active just now, and nothing else changes. News of an agent that is not there changes nothing.
pub proof fn states_change_one_agent(v: AppView, msg: DaemonMsg, k: int)
    requires
        msg is StateChanged,
        stands_at(v, msg->StateChanged_id, k) || unheard_of(v, msg->StateChanged_id),
    ensures
        ({
            let w = v.on_daemon(msg);
            &&& unheard_of(v, msg->StateChanged_id) ==> w == v
            &&& stands_at(v, msg->StateChanged_id, k) ==> {
                &&& differs_in_agent(v, w, k)
                &&& w.agents[k] == AgentInfo {
                    state: msg->state,
                    glyph: msg->glyph,
                    last_activity: v.now,
                    ..v.agents[k]
                }
            }
        }),
{
    reveal(AppView::on_daemon);
    if unheard_of(v, msg->StateChanged_id) {
        agent_is_not_found(v.agents, msg->StateChanged_id, 0);
    } else {
        agent_is_found(v.agents, msg->StateChanged_id, 0, k);
    }
}

/// News of what was read, or opened, changes that mark of that agent and nothing else.
pub proof fn marks_change_one_agent(v: AppView, msg: DaemonMsg, k: int)
    ensures
        msg matches DaemonMsg::UnreadChanged { id, unread } ==> {
            &&& unheard_of(v, id) ==> v.on_daemon(msg) == v
            &&& stands_at(v, id, k) ==> differs_in_agent(v, v.on_daemon(msg), k) && v.on_daemon(
                msg,
            ).agents[k] == (AgentInfo { unread, ..v.agents[k] })
        },
        msg matches DaemonMsg::OpenedChanged { id, at } ==> {
            &&& unheard_of(v, id) ==> v.on_daemon(msg) == v
            &&& stands_at(v, id, k) ==> differs_in_agent(v, v.on_daemon(msg), k) && v.on_daemon(
                msg,
            ).agents[k] == (AgentInfo { last_opened: at, ..v.agents[k] })
        },
{
    reveal(AppView::on_daemon);
    match msg {
        DaemonMsg::UnreadChanged { id, .. } => {
            if unheard_of(v, id) {
                agent_is_not_found(v.agents, id, 0);
            } else if stands_at(v, id, k) {
                agent_is_found(v.agents, id, 0, k);
            }
        },
        DaemonMsg::OpenedChanged { id, .. } => {
            if unheard_of(v, id) {
                agent_is_not_found(v.agents, id, 0);
            } else if stands_at(v, id, k) {
                agent_is_found(v.agents, id, 0, k);
            }
        },
        _ => {},
    }
}

/// Whether `w` is `v` but for its roster and its cursor.
pub open spec fn differs_in_roster(v: AppView, w: AppView) -> bool {
    w == AppView {
        repos: w.repos,
        agents: w.agents,
        sidebar_sel: w.sidebar_sel,
        sidebar_placed: w.sidebar_placed,
        sidebar_top: w.sidebar_top,
        ..v
    }
}

/// The roster is what the daemon says it is: lists replace it, additions go to its end, and a
/// repository that is there already is not added twice. No pane, mini or prompt changes, and nothing
/// is sent.
pub proof fn rosters_are_what_the_daemon_says(v: AppView, msg: DaemonMsg)
    ensures
        ({
            let w = v.on_daemon(msg);
            &&& msg matches DaemonMsg::Repos(list) ==> differs_in_roster(v, w) && w.repos == list@
                && w.agents == v.agents
            &&& msg matches DaemonMsg::Agents(list) ==> differs_in_roster(v, w) && w.agents == list@
                && w.repos == v.repos
            &&& msg matches DaemonMsg::AgentAdded(info) ==> differs_in_roster(v, w) && w.agents
                == v.agents.push(info) && w.repos == v.repos
            &&& msg matches DaemonMsg::RepoAdded(info) ==> {
                &&& differs_in_roster(v, w) && w.agents == v.agents
                &&& (exists|i: int| 0 <= i < v.repos.len() && (#[trigger] v.repos[i]).id == info.id)
                    ==> w.repos == v.repos
                &&& (forall|i: int| 0 <= i < v.repos.len() ==> (#[trigger] v.repos[i]).id != info.id)
                    ==> w.repos == v.repos.push(info)
            }
        }),
{
    reveal(AppView::on_daemon);
    reveal(AppView::ensure_sidebar_sel);
}

proof fn rows_are_found(rows: Seq<Row>, row: Row, i: int, k: int)
    requires
        0 <= i <= k < rows.len(),
        rows[k] == row,
    ensures
        row_from(rows, row, i) is Some,
    decreases k - i,
{
    if rows[i] != row {
        rows_are_found(rows, row, i + 1, k);
    }
}

/// The cursor goes to an agent that was just added, where it has a row. A cursor that was placed
/// stays on its row when the roster changes, as long as the row is there.
pub proof fn the_cursor_follows_the_news(v: AppView, msg: DaemonMsg, k: int)
    ensures
        msg matches DaemonMsg::AgentAdded(info) ==> {
            let w = v.on_daemon(msg);
            0 <= k < w.rows().len() && w.rows()[k] == Row::Agent(info.id) ==> w.sidebar_sel == Some(
                Row::Agent(info.id),
            )
        },
        msg is Agents || msg is Repos || msg is RepoAdded ==> {
            let w = v.on_daemon(msg);
            v.sidebar_placed && 0 <= k < w.rows().len() && v.sidebar_sel == Some(w.rows()[k]) && (
            w.rows()[k] is Agent || w.rows()[k] is Repo || w.rows()[k] is Recent) ==> w.sidebar_sel
                == v.sidebar_sel
        },
{
    reveal(AppView::on_daemon);
    reveal(AppView::ensure_sidebar_sel);
    let w = v.on_daemon(msg);
    if 0 <= k < w.rows().len() {
        rows_are_found(w.rows(), w.rows()[k], 0, k);
    }
}

proof fn others_stay(agents: Seq<AgentInfo>, id: AgentId, n: int, i: int)
    requires
        0 <= n <= agents.len(),
    ensures
        ({
            let out = other_agents(agents, id, n);
            &&& forall|k: int| 0 <= k < out.len() ==> (#[trigger] out[k]).id != id
            &&& 0 <= i < n && agents[i].id != id ==> {
                let at = other_agents(agents, id, i).len() as int;
                at < out.len() && out[at] == agents[i]
            }
        }),
    decreases n,
{
    if n > 0 {
        others_stay(agents, id, n - 1, i);
    }
}

/// An agent that is gone is gone from everywhere: from the roster, from the minis, and from the main
/// area, which it leaves empty of an agent. The others stay in their order, and so do the other minis.
pub proof fn a_removed_agent_is_gone(v: AppView, id: AgentId, i: int)
    ensures
        ({
            let w = v.on_daemon(DaemonMsg::AgentRemoved { id });
            &&& forall|k: int| 0 <= k < w.agents.len() ==> (#[trigger] w.agents[k]).id != id
            &&& 0 <= i < v.agents.len() && v.agents[i].id != id ==> w.agents.contains(v.agents[i])
            &&& !w.minis.contains(id) && !w.minimized.contains(id)
            &&& forall|x: AgentId| x != id ==> #[trigger] w.minis.contains(x) == v.minis.contains(x)
            &&& w.active_agent != Some(id) && w.prev_active_agent != Some(id)
            &&& v.active_agent != Some(id) ==> w.active_agent == v.active_agent
            &&& v.prev_active_agent != Some(id) ==> w.prev_active_agent == v.prev_active_agent
            &&& w.repos == v.repos && w.area == v.area && w.input == v.input
        }),
{
    reveal(AppView::on_daemon);
    reveal(AppView::remove_agent);
    reveal(AppView::ensure_sidebar_sel);
    let ts = terminals_of(v.terminals, id, v.terminals.len() as int);
    forgetting_keeps_the_roster(v, ts, ts.len() as int);
    let s = v.strike_agent(id);
    without_id_drops_it(v.minis, id);
    without_id_drops_it(v.minimized, id);
    others_stay(v.agents, id, v.agents.len() as int, i);
    let a = AppView {
        agents: other_agents(s.agents, id, s.agents.len() as int),
        sidebar_sel: if s.sidebar_sel == Some(Row::Agent(id)) {
            None
        } else {
            s.sidebar_sel
        },
        ..s
    }.leave_empty_panes().ensure_sidebar_sel();
    reconciling_moves_nothing(a);
    let w = v.on_daemon(DaemonMsg::AgentRemoved { id });
    assert(w.agents == other_agents(v.agents, id, v.agents.len() as int));
    if 0 <= i < v.agents.len() && v.agents[i].id != id {
        let at = other_agents(v.agents, id, i).len() as int;
        assert(w.agents[at] == v.agents[i]);
    }
}

pub(crate) proof fn forgetting_keeps_the_roster(v: AppView, ts: Seq<TerminalId>, n: int)
    ensures
        ({
            let w = v.forget_all(ts, n);
            &&& w.agents == v.agents && w.repos == v.repos && w.minis == v.minis && w.minimized
                == v.minimized
            &&& w.active_agent == v.active_agent && w.prev_active_agent == v.prev_active_agent
            &&& w.area == v.area && w.input == v.input && w.out == v.out && w.focus == v.focus
        }),
    decreases n,
{
    if n > 0 {
        forgetting_keeps_the_roster(v, ts, n - 1);
        reveal(AppView::forget_terminal);
    }
}

// --- about what to restore ---

proof fn the_last_layout_counts(list: Seq<(AgentId, Layout)>, n: int, k: int)
    requires
        0 <= n <= list.len(),
    ensures
        keyed(layout_table(list, n)),
        0 <= k < n && (forall|m: int| k < m < n ==> (#[trigger] list[m]).0 != list[k].0) ==> lookup(
            layout_table(list, n),
            list[k].0,
        ) == Some(list[k].1),
    decreases n,
{
    if n > 0 {
        the_last_layout_counts(list, n - 1, k);
        if 0 <= k < n {
            put_then_lookup(layout_table(list, n - 1), list[n - 1].0, list[n - 1].1, list[k].0);
            if k < n - 1 {
                if forall|m: int| k < m < n ==> (#[trigger] list[m]).0 != list[k].0 {
                    assert(list[n - 1].0 != list[k].0);
                }
            }
        } else {
            put_then_lookup(
                layout_table(list, n - 1),
                list[n - 1].0,
                list[n - 1].1,
                list[n - 1].0,
            );
        }
    }
}

/// Layouts to restore are kept for their agents, the last one for each; nothing else changes.
pub proof fn layouts_are_kept(v: AppView, list: Vec<(AgentId, Layout)>, k: int)
    requires
        0 <= k < list@.len(),
        forall|m: int| k < m < list@.len() ==> (#[trigger] list@[m]).0 != list@[k].0,
    ensures
        ({
            let w = v.on_daemon(DaemonMsg::Layouts(list));
            &&& w == AppView { saved_layouts: w.saved_layouts, ..v }
            &&& lookup(w.saved_layouts, list@[k].0) == Some(list@[k].1)
        }),
{
    reveal(AppView::on_daemon);
    the_last_layout_counts(list@, list@.len() as int, k);
}

proof fn live_minis_are_known(
    agents: Seq<AgentInfo>,
    active: Option<AgentId>,
    list: Seq<AgentId>,
    n: int,
    k: int,
)
    requires
        0 <= n <= list.len(),
    ensures
        ({
            let out = live_minis(agents, active, list, n);
            &&& forall|i: int|
                0 <= i < out.len() ==> has_agent(agents, #[trigger] out[i]) && Some(out[i]) != active
            &&& 0 <= k < n && has_agent(agents, list[k]) && Some(list[k]) != active ==> {
                let at = live_minis(agents, active, list, k).len() as int;
                at < out.len() && out[at] == list[k]
            }
        }),
    decreases n,
{
    if n > 0 {
        live_minis_are_known(agents, active, list, n - 1, k);
        let before = live_minis(agents, active, list, n - 1);
        let out = live_minis(agents, active, list, n);
        assert forall|i: int| 0 <= i < out.len() implies has_agent(agents, #[trigger] out[i]) && Some(
            out[i],
        ) != active by {
            if i < before.len() {
                assert(out[i] == before[i]);
            }
        }
        if 0 <= k < n - 1 && has_agent(agents, list[k]) && Some(list[k]) != active {
            let at = live_minis(agents, active, list, k).len() as int;
            assert(before[at] == list[k]);
        }
    }
}

/// Of the minis to restore, those are shown whose agents are there and not in the main area, in the
/// order given; the focus does not move.
pub proof fn minis_are_restored(v: AppView, list: Vec<AgentId>, x: AgentId, k: int)
    ensures
        ({
            let w = v.on_daemon(DaemonMsg::Minis(list));
            &&& differs_in_views(AppView { minis: w.minis, ..v }, w)
            &&& w.minis.contains(x) ==> v.active_agent != Some(x) && exists|i: int|
                0 <= i < v.agents.len() && (#[trigger] v.agents[i]).id == x
            &&& 0 <= k < list@.len() && has_agent(v.agents, list@[k]) && v.active_agent != Some(
                list@[k],
            ) ==> w.minis.contains(list@[k])
            &&& (forall|i: int|
                0 <= i < list@.len() ==> has_agent(v.agents, #[trigger] list@[i])
                    && v.active_agent != Some(list@[i])) ==> w.minis == list@
        }),
{
    reveal(AppView::on_daemon);
    let n = list@.len() as int;
    let minis = live_minis(v.agents, v.active_agent, list@, n);
    live_minis_are_known(v.agents, v.active_agent, list@, n, k);
    reconciling_moves_nothing(AppView { minis, ..v });
    let w = v.on_daemon(DaemonMsg::Minis(list));
    if w.minis.contains(x) {
        let i = choose|i: int| 0 <= i < minis.len() && minis[i] == x;
        assert(has_agent(v.agents, minis[i]));
        known_agents_stand_somewhere(v.agents, x, 0);
    }
    if 0 <= k < n && has_agent(v.agents, list@[k]) && v.active_agent != Some(list@[k]) {
        let at = live_minis(v.agents, v.active_agent, list@, k).len() as int;
        assert(minis[at] == list@[k]);
    }
    if forall|i: int|
        0 <= i < list@.len() ==> has_agent(v.agents, #[trigger] list@[i]) && v.active_agent != Some(
            list@[i],
        ) {
        all_minis_live(v.agents, v.active_agent, list@, n);
        assert(list@.take(n) =~= list@);
    }
}

proof fn all_minis_live(
    agents: Seq<AgentInfo>,
    active: Option<AgentId>,
    list: Seq<AgentId>,
    n: int,
)
    requires
        0 <= n <= list.len(),
        forall|i: int|
            0 <= i < list.len() ==> has_agent(agents, #[trigger] list[i]) && active != Some(list[i]),
    ensures
        live_minis(agents, active, list, n) == list.take(n),
    decreases n,
{
    if n > 0 {
        all_minis_live(agents, active, list, n - 1);
        assert(has_agent(agents, list[n - 1]));
        assert(list.take(n) =~= list.take(n - 1).push(list[n - 1]));
    } else {
        assert(list.take(0) =~= Seq::<AgentId>::empty());
    }
}

/// The agent that was active last time is opened again, if it is still there and not open already;
/// the one that was active before it is remembered under the same condition.
pub proof fn the_active_agent_is_restored(v: AppView, id: AgentId, k: int)
    ensures
        ({
            let w = v.on_daemon(DaemonMsg::Active(Some(id)));
            &&& v.active_agent == Some(id) || unheard_of(v, id) ==> w == v
            &&& v.active_agent != Some(id) && stands_at(v, id, k) ==> w.active_agent == Some(id)
                && w.focus == Focus::Panes && !w.minis.contains(id)
        }),
        v.on_daemon(DaemonMsg::Active(None)) == v,
        stands_at(v, id, k) ==> v.on_daemon(DaemonMsg::Previous(Some(id))).prev_active_agent == Some(
            id,
        ),
        unheard_of(v, id) ==> v.on_daemon(DaemonMsg::Previous(Some(id))).prev_active_agent is None,
        v.on_daemon(DaemonMsg::Previous(None)).prev_active_agent is None,
        v.on_daemon(DaemonMsg::Previous(Some(id))).active_agent == v.active_agent,
        v.on_daemon(DaemonMsg::Previous(Some(id))).tree == v.tree,
{
    reveal(AppView::on_daemon);
    an_opened_agent_is_active(v, id);
    if unheard_of(v, id) {
        agent_is_not_found(v.agents, id, 0);
    } else if stands_at(v, id, k) {
        agent_is_found(v.agents, id, 0, k);
    }
    reconciling_moves_nothing(AppView { prev_active_agent: Some(id), ..v });
    reconciling_moves_nothing(AppView { prev_active_agent: None, ..v });
}

// --- about terminals ---

/// Output goes to the screen of the terminal it is from, after what that shows already, and to no
/// other; output of a terminal that is not on screen is dropped.
pub proof fn output_goes_to_its_terminal(
    v: AppView,
    terminal: TerminalId,
    bytes: Vec<u8>,
    other: TerminalId,
)
    requires
        keyed(v.parsers),
        other != terminal,
    ensures
        ({
            let w = v.on_daemon(DaemonMsg::Output { terminal, bytes });
            &&& w == AppView { parsers: w.parsers, ..v }
            &&& lookup(v.parsers, terminal) matches Some(h) ==> lookup(w.parsers, terminal) == Some(
                after_feed(h, bytes@),
            )
            &&& lookup(v.parsers, terminal) is None ==> w == v
            &&& lookup(w.parsers, other) == lookup(v.parsers, other)
        }),
{
    reveal(AppView::on_daemon);
    if let Some(h) = lookup(v.parsers, terminal) {
        put_then_lookup(v.parsers, terminal, after_feed(h, bytes@), other);
    }
}

/// A snapshot replaces the screen of its terminal: a fresh one of the size it is attached at, fed
/// with the snapshot alone. One of a terminal that is not attached is dropped.
pub proof fn snapshots_replace_the_screen(
    v: AppView,
    terminal: TerminalId,
    bytes: Vec<u8>,
    other: TerminalId,
)
    requires
        keyed(v.parsers),
        other != terminal,
    ensures
        ({
            let w = v.on_daemon(DaemonMsg::OutputSnapshot { terminal, bytes });
            &&& w == AppView { parsers: w.parsers, ..v }
            &&& lookup(v.attached, terminal) is None ==> w == v
            &&& lookup(v.attached, terminal) matches Some(size) ==> (size.rows >= 1 && size.cols >= 1
                ==> lookup(w.parsers, terminal) == Some(
                after_feed(seq![VtStep::Start { rows: size.rows, cols: size.cols }], bytes@),
            ))
            &&& lookup(w.parsers, other) == lookup(v.parsers, other)
        }),
{
    reveal(AppView::on_daemon);
    if let Some(size) = lookup(v.attached, terminal) {
        put_then_lookup(
            v.parsers,
            terminal,
            served_screen(size, bytes@),
            other,
        );
    }
}

/// Whether a program wants the movement keys is kept for its own terminal.
pub proof fn programs_say_what_keys_they_want(
    v: AppView,
    terminal: TerminalId,
    passthrough: bool,
    other: TerminalId,
)
    requires
        keyed(v.passthrough),
        other != terminal,
    ensures
        ({
            let w = v.on_daemon(DaemonMsg::TerminalApp { terminal, passthrough });
            &&& w == AppView { passthrough: w.passthrough, ..v }
            &&& lookup(w.passthrough, terminal) == Some(passthrough)
            &&& lookup(w.passthrough, other) == lookup(v.passthrough, other)
        }),
{
    reveal(AppView::on_daemon);
    put_then_lookup(v.passthrough, terminal, passthrough, other);
}

/// A window of history that lies back begins scroll mode for its pane, or moves it on; it shows what
/// was served, at the size of the pane. One at the live view begins nothing, and where there is no
/// history at all it says so.
pub proof fn windows_of_history_are_shown(
    v: AppView,
    terminal: TerminalId,
    offset: usize,
    available: usize,
    bytes: Vec<u8>,
)
    ensures
        ({
            let w = v.on_daemon(DaemonMsg::ScrollView { terminal, offset, available, bytes });
            let ours = v.scroll is Some && (v.scroll->0).terminal == terminal;
            &&& w == AppView { scroll: w.scroll, info: w.info, ..v }
            &&& offset > 0 && (v.scroll is None || ours) ==> {
                lookup(v.attached, terminal) matches Some(size) ==> {
                    &&& w.scroll is Some && (w.scroll->0).terminal == terminal && (
                    w.scroll->0).offset == offset && (w.scroll->0).available == available
                    &&& size.rows >= 1 && size.cols >= 1 ==> (w.scroll->0).screen == after_feed(
                        seq![VtStep::Start { rows: size.rows, cols: size.cols }],
                        bytes@,
                    )
                }
            }
            &&& offset == 0 && !ours ==> w.scroll == v.scroll
            &&& offset == 0 && !ours && available == 0 ==> w.info == "no scrollback here yet"@
            &&& offset == 0 && !ours && available > 0 ==> w == v
        }),
{
    reveal(AppView::on_daemon);
}

/// A shell that ended leaves its pane and is forgotten; without any pane left the focus is in the
/// sidebar.
pub proof fn ended_shells_leave_their_panes(v: AppView, terminal: TerminalId)
    ensures
        ({
            let w = v.on_daemon(DaemonMsg::TerminalExited { terminal });
            &&& w.tree == v.tree.close_payload(terminal)
            &&& w.tree.root is None ==> w.focus == Focus::Sidebar
            &&& w.tree.root is Some ==> w.focus == v.focus
            &&& w.agents == v.agents && w.minis == v.minis && w.active_agent == v.active_agent
        }),
{
    reveal(AppView::on_daemon);
    reveal(AppView::forget_terminal);
    reconciling_moves_nothing(v.forget_terminal(terminal).leave_empty_panes());
}

// --- about the user ---

/// An error is shown and does nothing else; a delete that would lose work asks first, about that
/// agent and with the daemon's words, and deletes nothing yet. A greeting changes nothing.
pub proof fn errors_and_questions_are_shown(v: AppView, msg: DaemonMsg)
    ensures
        msg matches DaemonMsg::Error { message } ==> v.on_daemon(msg) == (AppView {
            status: message@,
            ..v
        }),
        msg matches DaemonMsg::DeleteNeedsConfirm { id, message } ==> v.on_daemon(msg) == (AppView {
            confirm_id: Some(id),
            confirm_msg: message@,
            input: InputMode::Confirming,
            ..v
        }),
        msg is Hello ==> v.on_daemon(msg) == v,
        msg is DoctorReport ==> v.on_daemon(msg) == (AppView { info: v.on_daemon(msg).info, ..v }),
        msg matches DaemonMsg::Navigate { dir } ==> v.on_daemon(msg) == v.navigate(dir),
        v.handle_daemon(Some(msg)) == (v.on_daemon(msg), Flow::Continue),
        v.handle_daemon(None) == (v, Flow::Quit),
{
    reveal(AppView::on_daemon);
}

// --- the outer terminal ---

/// A key counts once, when it is pressed; holding Super shows the numbers until it is let go, and is
/// no key. Events of no interest change nothing, and the end of them ends the client.
pub proof fn keys_count_when_pressed(v: AppView, ev: Event)
    ensures
        ev matches Event::Key(key) ==> {
            &&& key.code != KeyCode::Super && key.kind == KeyEventKind::Press ==> v.handle_event(
                Some(ev),
            ) == v.on_key(key)
            &&& key.code != KeyCode::Super && key.kind != KeyEventKind::Press ==> v.handle_event(
                Some(ev),
            ) == (v, Flow::Continue)
            &&& key.code == KeyCode::Super && key.kind == KeyEventKind::Press ==> v.handle_event(
                Some(ev),
            ) == (AppView { super_held: true, ..v }, Flow::Continue)
            &&& key.code == KeyCode::Super && key.kind == KeyEventKind::Release ==> v.handle_event(
                Some(ev),
            ) == (AppView { super_held: false, ..v }, Flow::Continue)
        },
        ev matches Event::Mouse(me) ==> v.handle_event(Some(ev)) == (v.on_mouse(me), Flow::Continue),
        ev matches Event::Paste(text) ==> v.handle_event(Some(ev)) == (
            v.on_paste(text@),
            Flow::Continue,
        ),
        ev is Other ==> v.handle_event(Some(ev)) == (v, Flow::Continue),
        v.handle_event(None) == (v, Flow::Quit),
{
    reveal(AppView::handle_event);
}

/// A terminal of another size changes the main area and moves nothing else: right of the sidebar, and
/// above the line for notices.
pub proof fn the_area_follows_the_terminal(v: AppView, cols: u16, rows: u16)
    requires
        cols > SIDEBAR_W_FULL,
        rows >= 2,
    ensures
        ({
            let w = v.handle_event(Some(Event::Resize(cols, rows))).0;
            &&& differs_in_views(AppView { area: w.area, ..v }, w)
            &&& w.area.y == 0 && w.area.height == rows - 1
            &&& w.area.x + w.area.width == cols
            &&& cols >= 92 ==> w.area.x == 30
            &&& cols < 92 ==> w.area.x == 12
        }),
{
    reveal(AppView::handle_event);
    reconciling_moves_nothing(AppView { area: spec_main_area(cols, rows), ..v });
}

} // verus!
