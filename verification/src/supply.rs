//! The supply of fresh ids lasts: a client that was given as many as it asks for before a burst has
//! one for every pane that the burst opens.

use vstd::prelude::*;
use crate::daemon::{layout_table, terminals_of};
use crate::events::{all_blanks_brought, blanks_brought};
use crate::geometry::{Axis, Dir, Size};
use crate::ids::{AgentId, TerminalId};
use crate::input::{Event, KeyCode, KeyEvent, MouseEvent};
use crate::keys::move_dir;
use crate::pane::{layout_blanks, pane_count, Layout};
use crate::pane_laws::restored_blanks;
use crate::sidebar::Row;
use crate::state::{primary_of, AppView, Focus, InputMode};
use crate::table::{lookup, place, place_is_where, put};
use crate::wire::DaemonMsg;
use crate::workspace::{blanks_of, gone};

verus! {

/// Whether there is a fresh id for each blank pane of the saved layouts and for `more` panes besides.
pub open spec fn supplied(v: AppView, more: int) -> bool {
    v.fresh.len() >= v.saved_blanks() + more
}

/// Whether two states have the same fresh ids and saved layouts.
spec fn same_stock(v: AppView, w: AppView) -> bool {
    w.fresh == v.fresh && w.saved_layouts == v.saved_layouts
}

// --- counting blank panes ---

proof fn blanks_of_prefix(a: Seq<(AgentId, Layout)>, b: Seq<(AgentId, Layout)>, n: int)
    requires
        n <= a.len(),
        n <= b.len(),
        forall|i: int| 0 <= i < n ==> a[i] == b[i],
    ensures
        blanks_of(a, n) == blanks_of(b, n),
    decreases n,
{
    if n > 0 {
        blanks_of_prefix(a, b, n - 1);
    }
}

proof fn blanks_without(s: Seq<(AgentId, Layout)>, i: int, n: int)
    requires
        0 <= i < n <= s.len(),
    ensures
        blanks_of(s.remove(i), n - 1) + layout_blanks(s[i].1) == blanks_of(s, n),
    decreases n,
{
    if i == n - 1 {
        blanks_of_prefix(s.remove(i), s, n - 1);
    } else {
        blanks_without(s, i, n - 1);
        assert(s.remove(i)[n - 2] == s[n - 1]);
    }
}

proof fn blanks_replaced(s: Seq<(AgentId, Layout)>, i: int, e: (AgentId, Layout), n: int)
    requires
        0 <= i < n <= s.len(),
    ensures
        blanks_of(s.update(i, e), n) + layout_blanks(s[i].1) == blanks_of(s, n) + layout_blanks(
            e.1,
        ),
    decreases n,
{
    if i == n - 1 {
        blanks_of_prefix(s.update(i, e), s, n - 1);
    } else {
        blanks_replaced(s, i, e, n - 1);
    }
}

proof fn blanks_put(s: Seq<(AgentId, Layout)>, id: AgentId, layout: Layout)
    ensures
        blanks_of(put(s, id, layout), put(s, id, layout).len() as int) <= blanks_of(
            s,
            s.len() as int,
        ) + layout_blanks(layout),
{
    place_is_where(s, id);
    match place(s, id) {
        Some(i) => {
            blanks_replaced(s, i, (id, layout), s.len() as int);
        },
        None => {
            blanks_of_prefix(s.push((id, layout)), s, s.len() as int);
        },
    }
}

proof fn blanks_in_table(list: Seq<(AgentId, Layout)>, n: int)
    requires
        0 <= n <= list.len(),
    ensures
        blanks_of(layout_table(list, n), layout_table(list, n).len() as int) <= blanks_of(list, n),
    decreases n,
{
    if n > 0 {
        blanks_in_table(list, n - 1);
        blanks_put(layout_table(list, n - 1), list[n - 1].0, list[n - 1].1);
    }
}

// --- what leaves the stock alone ---

proof fn attaching_keeps_stock(v: AppView, d: Seq<(TerminalId, Size)>, n: int)
    ensures
        same_stock(v, v.attach_all(d, n)),
    decreases n,
{
    if n > 0 {
        attaching_keeps_stock(v, d, n - 1);
    }
}

proof fn detaching_keeps_stock(v: AppView, ts: Seq<TerminalId>, n: int)
    ensures
        same_stock(v, v.detach_all(ts, n)),
    decreases n,
{
    if n > 0 {
        detaching_keeps_stock(v, ts, n - 1);
    }
}

proof fn reconciling_keeps_stock(v: AppView)
    ensures
        same_stock(v, v.reconcile()),
{
    reveal(AppView::reconcile);
    let d = v.desired();
    let named = AppView { terminals: v.owners(), ..v };
    attaching_keeps_stock(named, d, d.len() as int);
    let a = named.attach_all(d, d.len() as int);
    let ts = gone(a.attached, d, a.attached.len() as int);
    detaching_keeps_stock(a, ts, ts.len() as int);
}

proof fn reconciling_keeps_any_stock()
    ensures
        forall|v: AppView| same_stock(v, #[trigger] v.reconcile()),
{
    assert forall|v: AppView| same_stock(v, #[trigger] v.reconcile()) by {
        reconciling_keeps_stock(v);
    }
}

proof fn spawning_keeps_stock(v: AppView, like: TerminalId, blanks: Seq<TerminalId>, n: int)
    ensures
        same_stock(v, v.spawn_all(like, blanks, n)),
    decreases n,
{
    if n > 0 {
        spawning_keeps_stock(v, like, blanks, n - 1);
    }
}

proof fn forgetting_keeps_stock(v: AppView, ts: Seq<TerminalId>, n: int)
    ensures
        same_stock(v, v.forget_all(ts, n)),
    decreases n,
{
    if n > 0 {
        forgetting_keeps_stock(v, ts, n - 1);
        reveal(AppView::forget_terminal);
    }
}

proof fn cursor_keeps_stock(v: AppView, row: Row, delta: int, down: bool)
    ensures
        same_stock(v, v.place_sidebar_sel(row)),
        same_stock(v, v.ensure_sidebar_sel()),
        same_stock(v, v.move_sidebar_sel(delta)),
        same_stock(v, v.jump_unread(down)),
        same_stock(v, v.scroll_sidebar(delta)),
{
    reveal(AppView::ensure_sidebar_sel);
}

// --- what draws on it ---

proof fn fetching_is_supplied(v: AppView, id: AgentId, more: int)
    requires
        supplied(v, more),
        0 <= more,
    ensures
        supplied(v.fetch(id), more),
{
    if lookup(v.trees, id) is None {
        place_is_where(v.saved_layouts, id);
        if let Some(layout) = lookup(v.saved_layouts, id) {
            let i = place(v.saved_layouts, id)->0;
            blanks_without(v.saved_layouts, i, v.saved_layouts.len() as int);
            if pane_count(layout) < u64::MAX {
                restored_blanks(layout);
            }
        }
    }
}

proof fn activating_is_supplied(v: AppView, id: AgentId, more: int)
    requires
        supplied(v, more),
        0 <= more,
    ensures
        supplied(v.activate(id), more),
{
    reveal(AppView::activate);
    let m = v.no_longer_mini(id);
    fetching_is_supplied(m.put_away(), id, more);
    let w = v.swap_to_agent(id);
    assert(supplied(w, more));
    let blanks = v.restored(id);
    if let Some(primary) = primary_of(w.agents, id) {
        spawning_keeps_stock(w, primary, blanks, blanks.len() as int);
    }
    let x = w.spawn_restored_shells(id, blanks);
    assert(same_stock(w, x));
    reconciling_keeps_stock(x);
}

proof fn opening_is_supplied(v: AppView, id: AgentId, more: int)
    requires
        supplied(v, more),
        0 <= more,
    ensures
        supplied(v.open_agent(id), more),
{
    cursor_keeps_stock(v, Row::Agent(id), 0, true);
    activating_is_supplied(v.place_sidebar_sel(Row::Agent(id)), id, more);
}

proof fn splitting_is_supplied(v: AppView, axis: Axis, more: int)
    requires
        supplied(v, more + 1),
        0 <= more,
    ensures
        supplied(v.split(axis), more),
{
    reconciling_keeps_any_stock();
}

// --- events ---

proof fn key_prefix_is_supplied(v: AppView, key: KeyEvent, more: int)
    requires
        supplied(v, more + 1),
        0 <= more,
    ensures
        supplied(v.key_prefix(key), more),
{
    reconciling_keeps_any_stock();
    match key.code {
        KeyCode::Enter => {
            if let Focus::Mini(i) = v.focus {
                activating_is_supplied(v, v.minis[i as int], more);
            }
        },
        KeyCode::Tab => {
            if let Some(id) = v.next_unread() {
                opening_is_supplied(v, id, more);
            }
        },
        KeyCode::Char(c) => {
            splitting_is_supplied(v, Axis::LeftRight, more);
            splitting_is_supplied(v, Axis::TopBottom, more);
            if let Some(id) = v.previous_agent() {
                opening_is_supplied(v, id, more);
            }
            if let Some(id) = v.numbered_agent(c) {
                opening_is_supplied(v, id, more);
            }
        },
        _ => {},
    }
}

proof fn key_sidebar_is_supplied(v: AppView, key: KeyEvent, more: int)
    requires
        supplied(v, more),
        0 <= more,
    ensures
        supplied(v.key_sidebar(key).0, more),
{
    reconciling_keeps_any_stock();
    if let Some(id) = v.selected_agent() {
        activating_is_supplied(v, id, more);
    }
}

proof fn key_plain_is_supplied(v: AppView, key: KeyEvent, more: int)
    requires
        supplied(v, more),
        0 <= more,
    ensures
        supplied(v.key_plain(key).0, more),
{
    key_sidebar_is_supplied(v, key, more);
    if let KeyCode::Char(c) = key.code {
        if let Some(id) = v.numbered_agent(c) {
            opening_is_supplied(v, id, more);
        }
        if let Some(dir) = move_dir(key) {
            reveal(AppView::navigate);
            cursor_keeps_stock(v, Row::NoRepos, 0, dir == Dir::Down);
        }
    }
}

proof fn key_resize_keeps_stock(v: AppView, key: KeyEvent)
    ensures
        same_stock(v, v.key_resize(key)),
{
    reconciling_keeps_any_stock();
}

proof fn keys_are_supplied(v: AppView, key: KeyEvent, more: int)
    requires
        supplied(v, more + 1),
        0 <= more,
    ensures
        supplied(v.on_key(key).0, more),
{
    reveal(AppView::on_key);
    let w = v.dismissed();
    assert(same_stock(v, w));
    match w.input {
        InputMode::Creating => {
            assert(same_stock(w, w.key_creating(key)));
        },
        InputMode::CreatingRepo => {
            assert(same_stock(w, w.key_creating_repo(key)));
        },
        InputMode::CreatingHead => {
            assert(same_stock(w, w.key_creating_head(key)));
        },
        InputMode::Confirming => {
            assert(same_stock(w, w.key_confirm(key)));
        },
        InputMode::Normal => {
            let x = w.scroll_checked();
            assert(same_stock(w, x));
            if let Some(s) = x.scroll {
                assert(same_stock(x, x.key_scroll(key, s.terminal)));
            } else {
                key_resize_keeps_stock(x, key);
                key_prefix_is_supplied(AppView { prefix: false, ..x }, key, more);
                key_plain_is_supplied(x, key, more);
            }
        },
    }
}

proof fn the_mouse_is_supplied(v: AppView, me: MouseEvent)
    ensures
        same_stock(v, v.on_mouse(me)),
{
    reveal(AppView::on_mouse);
}

/// An event uses up at most one fresh id besides those for the layouts it opens.
pub proof fn events_are_supplied(v: AppView, ev: Option<Event>, more: int)
    requires
        supplied(v, more + 1),
        0 <= more,
    ensures
        supplied(v.handle_event(ev).0, more),
{
    reveal(AppView::handle_event);
    match ev {
        Some(Event::Key(key)) => {
            keys_are_supplied(v, key, more);
        },
        Some(Event::Resize(cols, rows)) => {
            reconciling_keeps_any_stock();
        },
        Some(Event::Mouse(me)) => {
            the_mouse_is_supplied(v, me);
        },
        _ => {},
    }
}

// --- messages ---

proof fn removing_keeps_stock(v: AppView, id: AgentId)
    ensures
        same_stock(v, v.remove_agent(id)),
{
    reveal(AppView::remove_agent);
    reveal(AppView::ensure_sidebar_sel);
    let ts = terminals_of(v.terminals, id, v.terminals.len() as int);
    forgetting_keeps_stock(v, ts, ts.len() as int);
    reconciling_keeps_any_stock();
}

/// Whether a message changes what is on screen.
spec fn moves_panes(msg: DaemonMsg) -> bool {
    msg is Minis || msg is Active || msg is Previous || msg is AgentRemoved || msg is Navigate
        || msg is TerminalExited
}

proof fn moving_is_supplied(v: AppView, msg: DaemonMsg, more: int)
    requires
        supplied(v, more),
        0 <= more,
        moves_panes(msg),
    ensures
        supplied(v.on_daemon(msg), more),
{
    reveal(AppView::on_daemon);
    reconciling_keeps_any_stock();
    match msg {
        DaemonMsg::Active(Some(id)) => {
            activating_is_supplied(v, id, more);
        },
        DaemonMsg::AgentRemoved { id } => {
            removing_keeps_stock(v, id);
        },
        DaemonMsg::Navigate { dir } => {
            reveal(AppView::navigate);
        },
        DaemonMsg::TerminalExited { terminal } => {
            reveal(AppView::forget_terminal);
        },
        _ => {},
    }
}

proof fn other_messages_keep_stock(v: AppView, msg: DaemonMsg)
    requires
        !(msg is Layouts),
        !moves_panes(msg),
    ensures
        same_stock(v, v.on_daemon(msg)),
{
    reveal(AppView::on_daemon);
    match msg {
        DaemonMsg::Repos(list) => {
            cursor_keeps_stock(AppView { repos: list@, ..v }, Row::NoRepos, 0, true);
        },
        DaemonMsg::RepoAdded(info) => {
            cursor_keeps_stock(v, Row::NoRepos, 0, true);
            cursor_keeps_stock(AppView { repos: v.repos.push(info), ..v }, Row::NoRepos, 0, true);
        },
        DaemonMsg::Agents(list) => {
            cursor_keeps_stock(AppView { agents: list@, ..v }, Row::NoRepos, 0, true);
        },
        DaemonMsg::AgentAdded(info) => {
            let w = AppView { agents: v.agents.push(info), ..v };
            cursor_keeps_stock(w, Row::Agent(info.id), 0, true);
            cursor_keeps_stock(w.place_sidebar_sel(Row::Agent(info.id)), Row::NoRepos, 0, true);
        },
        _ => {},
    }
}

/// A message uses up no fresh id besides those for the layouts it opens. One that brings layouts needs
/// ids for their blank panes.
pub proof fn messages_are_supplied(v: AppView, msg: Option<DaemonMsg>, more: int)
    requires
        supplied(v, more + blanks_brought(msg)),
        0 <= more,
    ensures
        supplied(v.handle_daemon(msg).0, more),
{
    if let Some(m) = msg {
        if let DaemonMsg::Layouts(list) = m {
            reveal(AppView::on_daemon);
            blanks_in_table(list@, list@.len() as int);
        } else if moves_panes(m) {
            moving_is_supplied(v, m, more);
        } else {
            other_messages_keep_stock(v, m);
        }
    }
}

// --- bursts ---

proof fn all_messages_are_supplied(
    v: AppView,
    msgs: Seq<Option<DaemonMsg>>,
    n: int,
    more: int,
)
    requires
        0 <= n <= msgs.len(),
        0 <= more,
        supplied(v, more + all_blanks_brought(msgs, n)),
    ensures
        supplied(v.after_msgs(msgs, n), more),
    decreases n,
{
    if n > 0 {
        all_messages_are_supplied(v, msgs, n - 1, more + blanks_brought(msgs[n - 1]));
        messages_are_supplied(v.after_msgs(msgs, n - 1), msgs[n - 1], more);
    }
}

proof fn all_events_are_supplied(v: AppView, events: Seq<Option<Event>>, n: int, more: int)
    requires
        0 <= n <= events.len(),
        0 <= more,
        supplied(v, more + n),
    ensures
        supplied(v.after_events(events, n), more),
    decreases n,
{
    if n > 0 {
        all_events_are_supplied(v, events, n - 1, more + 1);
        events_are_supplied(v.after_events(events, n - 1), events[n - 1], more);
    }
}

/// A client that was given the ids it asks for before a burst has, at each message and at each event
/// of it, an id for every pane that this one may open.
pub proof fn bursts_are_supplied(
    v: AppView,
    msgs: Seq<Option<DaemonMsg>>,
    events: Seq<Option<Event>>,
    n: int,
)
    requires
        v.fresh.len() >= v.saved_blanks() + all_blanks_brought(msgs, msgs.len() as int)
            + events.len() + 1,
    ensures
        0 <= n <= msgs.len() ==> supplied(v.after_msgs(msgs, n), 1),
        0 <= n <= events.len() ==> supplied(
            v.after_msgs(msgs, msgs.len() as int).after_events(events, n),
            1,
        ),
{
    if 0 <= n <= msgs.len() {
        fewer_bring_less(msgs, n, msgs.len() as int);
        all_messages_are_supplied(v, msgs, n, 1);
    }
    if 0 <= n <= events.len() {
        all_messages_are_supplied(v, msgs, msgs.len() as int, events.len() as int + 1);
        all_events_are_supplied(v.after_msgs(msgs, msgs.len() as int), events, n, 1);
    }
}

proof fn fewer_bring_less(msgs: Seq<Option<DaemonMsg>>, n: int, all: int)
    requires
        n <= all,
    ensures
        all_blanks_brought(msgs, n) <= all_blanks_brought(msgs, all),
    decreases all - n,
{
    if n < all {
        fewer_bring_less(msgs, n, all - 1);
    }
}

} // verus!
