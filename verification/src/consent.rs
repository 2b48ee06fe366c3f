//! Work that was not committed is discarded only with the user's consent.

use vstd::prelude::*;
use crate::daemon::terminals_of;
use crate::geometry::{Axis, Dir, Size};
use crate::ids::{AgentId, TerminalId};
use crate::input::{Event, KeyCode, KeyEvent, MouseEvent};
use crate::keys::move_dir;
use crate::sidebar::Row;
use crate::state::{primary_of, AppView, Focus, InputMode};
use crate::wire::{DaemonMsg, MsgView};
use crate::workspace::gone;

verus! {

/// Whether a message deletes an agent whatever that discards.
pub open spec fn is_forced_delete(msg: MsgView) -> bool {
    msg matches MsgView::DeleteAgent { force, .. } && force
}

/// The number of such messages.
pub open spec fn forced_deletes(out: Seq<MsgView>) -> nat
    decreases out.len(),
{
    if out.len() == 0 {
        0
    } else if is_forced_delete(out.last()) {
        forced_deletes(out.drop_last()) + 1
    } else {
        forced_deletes(out.drop_last())
    }
}

/// Whether `w` deletes nothing by force that `v` does not.
spec fn as_careful(v: AppView, w: AppView) -> bool {
    forced_deletes(w.out) == forced_deletes(v.out)
}

proof fn counting_one_more()
    ensures
        forall|out: Seq<MsgView>, msg: MsgView|
            forced_deletes(#[trigger] out.push(msg)) == forced_deletes(out) + if is_forced_delete(
                msg,
            ) {
                1nat
            } else {
                0
            },
{
    assert forall|out: Seq<MsgView>, msg: MsgView|
        forced_deletes(#[trigger] out.push(msg)) == forced_deletes(out) + if is_forced_delete(
            msg,
        ) {
            1nat
        } else {
            0
        } by {
        assert(out.push(msg).drop_last() =~= out);
    }
}

// --- views, agents and panes ---

proof fn attaching_is_careful(v: AppView, d: Seq<(TerminalId, Size)>, n: int)
    ensures
        as_careful(v, v.attach_all(d, n)),
    decreases n,
{
    if n > 0 {
        attaching_is_careful(v, d, n - 1);
        counting_one_more();
    }
}

proof fn detaching_is_careful(v: AppView, ts: Seq<TerminalId>, n: int)
    ensures
        as_careful(v, v.detach_all(ts, n)),
    decreases n,
{
    if n > 0 {
        detaching_is_careful(v, ts, n - 1);
        counting_one_more();
    }
}

proof fn reconciling_is_careful()
    ensures
        forall|v: AppView| as_careful(v, #[trigger] v.reconcile()),
{
    assert forall|v: AppView| as_careful(v, #[trigger] v.reconcile()) by {
        reveal(AppView::reconcile);
        let d = v.desired();
        let named = AppView { terminals: v.owners(), ..v };
        attaching_is_careful(named, d, d.len() as int);
        let a = named.attach_all(d, d.len() as int);
        let ts = gone(a.attached, d, a.attached.len() as int);
        detaching_is_careful(a, ts, ts.len() as int);
        counting_one_more();
    }
}

proof fn spawning_is_careful(v: AppView, like: TerminalId, blanks: Seq<TerminalId>, n: int)
    ensures
        as_careful(v, v.spawn_all(like, blanks, n)),
    decreases n,
{
    if n > 0 {
        spawning_is_careful(v, like, blanks, n - 1);
        counting_one_more();
    }
}

proof fn activating_is_careful(v: AppView, id: AgentId)
    ensures
        as_careful(v, v.activate(id)),
{
    reveal(AppView::activate);
    let w = v.swap_to_agent(id);
    assert(w.out == v.out);
    let blanks = v.restored(id);
    if let Some(primary) = primary_of(w.agents, id) {
        spawning_is_careful(w, primary, blanks, blanks.len() as int);
    }
    reconciling_is_careful();
}

proof fn cursor_is_careful(v: AppView, row: Row, delta: int, down: bool)
    ensures
        v.place_sidebar_sel(row).out == v.out,
        v.ensure_sidebar_sel().out == v.out,
        v.move_sidebar_sel(delta).out == v.out,
        v.jump_unread(down).out == v.out,
        v.scroll_sidebar(delta).out == v.out,
{
    reveal(AppView::ensure_sidebar_sel);
}

proof fn opening_is_careful(v: AppView, id: AgentId)
    ensures
        as_careful(v, v.open_agent(id)),
{
    cursor_is_careful(v, Row::Agent(id), 0, true);
    activating_is_careful(v.place_sidebar_sel(Row::Agent(id)), id);
}

proof fn forgetting_is_careful(v: AppView, ts: Seq<TerminalId>, n: int)
    ensures
        v.forget_all(ts, n).out == v.out,
    decreases n,
{
    if n > 0 {
        forgetting_is_careful(v, ts, n - 1);
        reveal(AppView::forget_terminal);
    }
}

// --- keys ---

proof fn splitting_is_careful(v: AppView, axis: Axis)
    ensures
        as_careful(v, v.split(axis)),
{
    reconciling_is_careful();
    counting_one_more();
}

proof fn closing_is_careful(v: AppView)
    ensures
        as_careful(v, v.close_pane()),
{
    reconciling_is_careful();
    counting_one_more();
}

proof fn key_prefix_is_careful(v: AppView, key: KeyEvent)
    ensures
        as_careful(v, v.key_prefix(key)),
{
    reconciling_is_careful();
    match key.code {
        KeyCode::Enter => {
            if let Focus::Mini(i) = v.focus {
                activating_is_careful(v, v.minis[i as int]);
            }
        },
        KeyCode::Tab => {
            if let Some(id) = v.next_unread() {
                opening_is_careful(v, id);
            }
        },
        KeyCode::Char(c) => {
            splitting_is_careful(v, Axis::LeftRight);
            splitting_is_careful(v, Axis::TopBottom);
            closing_is_careful(v);
            if let Some(id) = v.previous_agent() {
                opening_is_careful(v, id);
            }
            if let Some(id) = v.numbered_agent(c) {
                opening_is_careful(v, id);
            }
            counting_one_more();
        },
        _ => {},
    }
}

proof fn key_sidebar_is_careful(v: AppView, key: KeyEvent)
    ensures
        as_careful(v, v.key_sidebar(key).0),
{
    reconciling_is_careful();
    counting_one_more();
    if let Some(id) = v.selected_agent() {
        activating_is_careful(v, id);
    }
}

proof fn key_plain_is_careful(v: AppView, key: KeyEvent)
    ensures
        as_careful(v, v.key_plain(key).0),
{
    key_sidebar_is_careful(v, key);
    counting_one_more();
    if let KeyCode::Char(c) = key.code {
        if let Some(id) = v.numbered_agent(c) {
            opening_is_careful(v, id);
        }
        if let Some(dir) = move_dir(key) {
            reveal(AppView::navigate);
            cursor_is_careful(v, Row::NoRepos, 0, dir == Dir::Down);
        }
    }
}

proof fn key_resize_is_careful(v: AppView, key: KeyEvent)
    ensures
        as_careful(v, v.key_resize(key)),
{
    reconciling_is_careful();
}

/// Whether a key says yes to the question whether to delete.
pub open spec fn says_yes(v: AppView, key: KeyEvent) -> bool {
    v.input == InputMode::Confirming && (key.code == KeyCode::Char('y') || key.code
        == KeyCode::Char('Y'))
}

proof fn keys_are_careful(v: AppView, key: KeyEvent)
    requires
        !says_yes(v, key),
    ensures
        as_careful(v, v.on_key(key).0),
{
    reveal(AppView::on_key);
    let w = v.dismissed();
    assert(w.out == v.out);
    match w.input {
        InputMode::Creating => {
            counting_one_more();
            assert(as_careful(w, w.key_creating(key)));
        },
        InputMode::CreatingRepo => {
            counting_one_more();
            assert(as_careful(w, w.key_creating_repo(key)));
        },
        InputMode::CreatingHead => {
            counting_one_more();
            assert(as_careful(w, w.key_creating_head(key)));
        },
        InputMode::Confirming => {
            assert(as_careful(w, w.key_confirm(key)));
        },
        InputMode::Normal => {
            let x = w.scroll_checked();
            assert(x.out == w.out);
            if let Some(s) = x.scroll {
                counting_one_more();
                assert(as_careful(x, x.key_scroll(key, s.terminal)));
            } else {
                key_resize_is_careful(x, key);
                key_prefix_is_careful(AppView { prefix: false, ..x }, key);
                key_plain_is_careful(x, key);
            }
        },
    }
}

proof fn the_mouse_is_careful(v: AppView, me: MouseEvent)
    ensures
        as_careful(v, v.on_mouse(me)),
{
    reveal(AppView::on_mouse);
    counting_one_more();
}

/// No event deletes an agent by force, but for a yes to the question whether to.
pub proof fn events_force_no_delete(v: AppView, ev: Option<Event>)
    requires
        ev matches Some(Event::Key(key)) ==> !says_yes(v, key),
    ensures
        forced_deletes(v.handle_event(ev).0.out) == forced_deletes(v.out),
{
    reveal(AppView::handle_event);
    match ev {
        Some(Event::Key(key)) => {
            keys_are_careful(v, key);
        },
        Some(Event::Resize(cols, rows)) => {
            reconciling_is_careful();
        },
        Some(Event::Mouse(me)) => {
            the_mouse_is_careful(v, me);
        },
        Some(Event::Paste(text)) => {
            counting_one_more();
        },
        _ => {},
    }
}

/// A yes deletes the agent in question by force, and no other.
pub proof fn a_yes_deletes_the_agent_in_question(v: AppView, key: KeyEvent, id: AgentId)
    requires
        says_yes(v, key),
        v.confirm_id == Some(id),
    ensures
        v.on_key(key).0.out == v.out.push(MsgView::DeleteAgent { id, force: true }),
{
    reveal(AppView::on_key);
}

// --- messages ---

/// Whether a message changes what is on screen.
spec fn moves_panes(msg: DaemonMsg) -> bool {
    msg is Minis || msg is Active || msg is Previous || msg is AgentRemoved || msg is Navigate
        || msg is TerminalExited
}

proof fn moving_is_careful(v: AppView, msg: DaemonMsg)
    requires
        moves_panes(msg),
    ensures
        as_careful(v, v.on_daemon(msg)),
{
    reveal(AppView::on_daemon);
    reconciling_is_careful();
    match msg {
        DaemonMsg::Active(Some(id)) => {
            activating_is_careful(v, id);
        },
        DaemonMsg::AgentRemoved { id } => {
            reveal(AppView::remove_agent);
            reveal(AppView::ensure_sidebar_sel);
            let ts = terminals_of(v.terminals, id, v.terminals.len() as int);
            forgetting_is_careful(v, ts, ts.len() as int);
        },
        DaemonMsg::Navigate { dir } => {
            reveal(AppView::navigate);
        },
        DaemonMsg::TerminalExited { terminal } => {
            reveal(AppView::forget_terminal);
        },
        _ => {},
    }
}

proof fn other_messages_are_careful(v: AppView, msg: DaemonMsg)
    requires
        !moves_panes(msg),
    ensures
        v.on_daemon(msg).out == v.out,
{
    reveal(AppView::on_daemon);
    match msg {
        DaemonMsg::Repos(list) => {
            cursor_is_careful(AppView { repos: list@, ..v }, Row::NoRepos, 0, true);
        },
        DaemonMsg::RepoAdded(info) => {
            cursor_is_careful(v, Row::NoRepos, 0, true);
            cursor_is_careful(AppView { repos: v.repos.push(info), ..v }, Row::NoRepos, 0, true);
        },
        DaemonMsg::Agents(list) => {
            cursor_is_careful(AppView { agents: list@, ..v }, Row::NoRepos, 0, true);
        },
        DaemonMsg::AgentAdded(info) => {
            let w = AppView { agents: v.agents.push(info), ..v };
            cursor_is_careful(w, Row::Agent(info.id), 0, true);
            cursor_is_careful(w.place_sidebar_sel(Row::Agent(info.id)), Row::NoRepos, 0, true);
        },
        _ => {},
    }
}

/// No message of the daemon makes the client delete an agent by force.
pub proof fn messages_force_no_delete(v: AppView, msg: Option<DaemonMsg>)
    ensures
        forced_deletes(v.handle_daemon(msg).0.out) == forced_deletes(v.out),
{
    if let Some(m) = msg {
        if moves_panes(m) {
            moving_is_careful(v, m);
        } else {
            other_messages_are_careful(v, m);
        }
    }
}

} // verus!
