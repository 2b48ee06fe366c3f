//! Particulars: bounds in plain numbers, and what the corner cases come to.

use vstd::prelude::*;
use crate::client::{
    action_in, after_failures, tries_are_bounded, welcome, ConnectAction, FirstFrame,
};
use crate::cursor::{is_stop, no_stop_above, stops_are_ranked};
use crate::daemon::{other_agents, terminals_of};
use crate::events::msgs_quit;
use crate::ids::{hex_value, id_text, id_text_reads_back, parsed_id, AgentId, TerminalId};
use crate::input::{key_bytes, Event, KeyCode, KeyEvent};
use crate::keys::expanded;
use crate::news::forgetting_keeps_the_roster;
use crate::ratio::{adjusted, Adjust, ONE, SNAP_EPS};
use crate::roster::{row_from_is_one, stops};
use crate::sidebar::{clamped_top, recents, showing_top, window_count, Row};
use crate::state::{primary_of, without_id_drops_it, AppView, Flow, Focus};
use crate::table::lookup;
use crate::theme::{profile_in_use, Profile};
use crate::time::Moment;
use crate::visits::{reconciling_moves_nothing, spawning_only_asks};
use crate::wire::{AgentInfo, DaemonMsg};

verus! {

// --- bounds ---

/// A spawned daemon is tried a hundred times, a fiftieth of a second apart: for two seconds.
pub proof fn a_daemon_has_two_seconds(n: nat)
    ensures
        n < 100 ==> action_in(after_failures(n)) == (ConnectAction::WaitAndHandshake { millis: 20 }),
        n >= 100 ==> action_in(after_failures(n)) == ConnectAction::GiveUp,
{
    tries_are_bounded(n);
}

/// A boundary moves between a tenth and nine tenths; a hundredth off a stop counts as on it.
pub proof fn boundaries_stay_off_the_edges(ratio: u32, how: Adjust)
    ensures
        ({
            let out = adjusted(ratio, how);
            &&& 10 * out >= ONE - 640
            &&& 10 * out <= 9 * ONE + 640
        }),
        -100 <= 100 * SNAP_EPS - ONE <= 100,
{
}

/// The recent block lists the agents opened within the last day, but at least five and at most ten,
/// and never more than there are.
pub proof fn five_to_ten_are_recent(agents: Seq<AgentInfo>, now: Moment)
    ensures
        ({
            let day = window_count(agents, now, agents.len() as int);
            let n = recents(agents, now).len();
            &&& n <= 10 && n <= agents.len()
            &&& agents.len() >= 5 ==> n >= 5
            &&& agents.len() < 5 ==> n == agents.len()
            &&& 5 <= day <= 10 && day <= agents.len() ==> n == day
            &&& day > 10 && agents.len() > 10 ==> n == 10
        }),
{
}

/// A pane that is not attached scrolls by pages of twenty-four lines.
pub proof fn pages_have_a_default(v: AppView, t: TerminalId)
    ensures
        lookup(v.attached, t) is None ==> v.scroll_page(t) == 24,
        lookup(v.attached, t) matches Some(size) ==> (size.rows >= 1 ==> v.scroll_page(t)
            == size.rows),
{
}

// --- the view of a list ---

/// The view of a list moves no further than it has to: up until the row is the first in view, down
/// until it is the last.
pub proof fn views_move_as_little_as_needed(top: int, sel: int, height: int)
    requires
        height >= 1,
    ensures
        sel < top ==> showing_top(top, sel, height) == sel,
        sel >= top + height ==> showing_top(top, sel, height) + height == sel + 1,
        top <= sel < top + height ==> showing_top(top, sel, height) == top,
{
}

/// A view goes no further down than the last screenful, and keeps every place above that.
pub proof fn views_end_with_the_list(top: int, len: int, height: int)
    requires
        0 <= top,
        0 <= len,
        0 <= height,
    ensures
        len <= height ==> clamped_top(top, len, height) == 0,
        len > height && top <= len - height ==> clamped_top(top, len, height) == top,
        len > height && top > len - height ==> clamped_top(top, len, height) == len - height,
{
}

/// A cursor whose row is gone goes to the first row that it can be on.
pub proof fn a_lost_cursor_begins_again(v: AppView, j: int)
    requires
        v.sidebar_sel is None || forall|m: int|
            0 <= m < v.rows().len() ==> Some(#[trigger] v.rows()[m]) != v.sidebar_sel,
        0 <= j < v.rows().len() <= usize::MAX,
        is_stop(v.rows()[j]),
        forall|m: int| 0 <= m < j ==> !is_stop(#[trigger] v.rows()[m]),
    ensures
        v.ensure_sidebar_sel().sidebar_sel == Some(v.rows()[j]),
{
    reveal(AppView::ensure_sidebar_sel);
    let rows = v.rows();
    let n = rows.len() as int;
    if let Some(row) = v.sidebar_sel {
        row_from_is_one(rows, row, 0);
    }
    stops_are_ranked(rows, n);
    no_stop_above(rows, j);
    let s = stops(rows, n);
    assert(is_stop(rows[j]));
    assert(s[0] == j);
}

// --- paths and ids ---

/// What follows `~/` is put under the home directory with one slash between, and stands alone where it
/// is absolute itself.
pub proof fn home_and_path_are_joined(path: Seq<char>, home: Seq<char>)
    requires
        path.len() >= 2,
        path[0] == '~',
        path[1] == '/',
        home.len() > 0,
    ensures
        path.len() > 2 && path[2] == '/' ==> expanded(path, Some(home)) == path.skip(2),
        (path.len() == 2 || path[2] != '/') && home[home.len() - 1] == '/' ==> expanded(
            path,
            Some(home),
        ) == home + path.skip(2),
        (path.len() == 2 || path[2] != '/') && home[home.len() - 1] != '/' ==> expanded(
            path,
            Some(home),
        ) == home + path.skip(1),
{
    assert(path != seq!['~']) by {
        assert(seq!['~'].len() == 1);
    }
    let rest = path.skip(2);
    if path.len() > 2 {
        assert(rest[0] == path[2]);
    }
    assert(home.push('/') + rest =~= home + path.skip(1));
}

/// Text is read as an id only if it is one: thirty-six characters, hyphens at four places, and
/// hexadecimal digits, of either case, at all others.
pub proof fn only_ids_are_read_as_ids(s: Seq<char>, i: int)
    requires
        parsed_id(s) is Some,
        0 <= i < 36,
    ensures
        s.len() == 36,
        i == 8 || i == 13 || i == 18 || i == 23 ==> s[i] == '-',
        !(i == 8 || i == 13 || i == 18 || i == 23) ==> ('0' <= s[i] <= '9' || 'a' <= s[i] <= 'f'
            || 'A' <= s[i] <= 'F'),
{
    if i == 8 || i == 13 || i == 18 || i == 23 {
        assert(s[i] == '-');
    } else {
        assert(hex_value(s[i]) is Some);
    }
}

/// Two terminals are never written alike.
pub proof fn ids_are_written_apart(a: TerminalId, b: TerminalId)
    ensures
        id_text(a) == id_text(b) ==> a == b,
{
    id_text_reads_back(a);
    id_text_reads_back(b);
}

/// Ctrl with a character that has no control byte types the lowest byte of the character.
pub proof fn ctrl_without_a_control_byte(key: KeyEvent, c: char, app_cursor: bool)
    requires
        key.code == KeyCode::Char(c),
        key.modifiers.control,
        '!' <= c <= '?',
    ensures
        key_bytes(key, app_cursor) == Some(seq![c as u8]),
{
}

// --- agents that come and go ---

/// An agent that is opened is no longer shrunk, should it become a mini again; the other minis stay
/// as they were.
pub proof fn opened_agents_are_whole_again(v: AppView, id: AgentId)
    ensures
        ({
            let w = v.activate(id);
            &&& !w.minimized.contains(id)
            &&& forall|x: AgentId| x != id ==> #[trigger] w.minimized.contains(x)
                == v.minimized.contains(x)
        }),
{
    reveal(AppView::activate);
    without_id_drops_it(v.minimized, id);
    let a = v.swap_to_agent(id);
    let blanks = v.restored(id);
    if let Some(primary) = primary_of(a.agents, id) {
        spawning_only_asks(a, primary, blanks, blanks.len() as int);
    }
    reconciling_moves_nothing(a.spawn_restored_shells(id, blanks));
}

/// Fresh ids are used from the front and never twice: those that a layout took are gone from the
/// stock.
pub proof fn fresh_ids_are_used_up(v: AppView, id: AgentId)
    ensures
        ({
            let w = v.activate(id);
            let n = v.restored(id).len() as int;
            &&& n <= v.fresh.len()
            &&& w.fresh == v.fresh.skip(n)
        }),
{
    reveal(AppView::activate);
    let a = v.swap_to_agent(id);
    let blanks = v.restored(id);
    if let Some(primary) = primary_of(a.agents, id) {
        spawning_only_asks(a, primary, blanks, blanks.len() as int);
    }
    reconciling_moves_nothing(a.spawn_restored_shells(id, blanks));
    let n = blanks.len() as int;
    assert(v.no_longer_mini(id).put_away().trees == v.put_away().trees);
    assert(v.fresh.skip(0) =~= v.fresh);
    assert(v.activate(id).fresh =~= v.fresh.skip(n));
}

/// Where an agent that is removed was the focused mini, the focus goes to the mini that moved up, or
/// back to where it came from; it stays in the panes and the sidebar.
pub proof fn the_focus_survives_a_removal(v: AppView, id: AgentId)
    requires
        v.minis.len() <= usize::MAX,
    ensures
        ({
            let w = v.on_daemon(DaemonMsg::AgentRemoved { id });
            let kept = match v.focus {
                Focus::Mini(i) => if i < w.minis.len() {
                    v.focus
                } else {
                    v.focus_return
                },
                _ => v.focus,
            };
            &&& w.tree.root is Some ==> w.focus == kept
            &&& w.tree.root is None ==> w.focus == Focus::Sidebar
        }),
{
    reveal(AppView::on_daemon);
    reveal(AppView::remove_agent);
    reveal(AppView::ensure_sidebar_sel);
    let ts = terminals_of(v.terminals, id, v.terminals.len() as int);
    forgetting_keeps_the_roster(v, ts, ts.len() as int);
    forgetting_keeps_the_way_back(v, ts, ts.len() as int);
    let s = v.strike_agent(id);
    let a = AppView {
        agents: other_agents(s.agents, id, s.agents.len() as int),
        sidebar_sel: if s.sidebar_sel == Some(Row::Agent(id)) {
            None
        } else {
            s.sidebar_sel
        },
        ..s
    }.leave_empty_panes().ensure_sidebar_sel();
    reconciling_moves_nothing(a);
}

proof fn forgetting_keeps_the_way_back(v: AppView, ts: Seq<TerminalId>, n: int)
    ensures
        v.forget_all(ts, n).focus_return == v.focus_return,
    decreases n,
{
    if n > 0 {
        forgetting_keeps_the_way_back(v, ts, n - 1);
        reveal(AppView::forget_terminal);
    }
}

/// A shell that ended leaves the panes of every agent, not only those on screen.
pub proof fn ended_shells_leave_every_agent(v: AppView, terminal: TerminalId, i: int)
    requires
        0 <= i < v.trees.len(),
    ensures
        ({
            let w = v.on_daemon(DaemonMsg::TerminalExited { terminal });
            &&& w.trees.len() == v.trees.len()
            &&& w.trees[i].0 == v.trees[i].0
            &&& w.trees[i].1 == v.trees[i].1.close_payload(terminal)
        }),
{
    reveal(AppView::on_daemon);
    reveal(AppView::forget_terminal);
    reconciling_moves_nothing(v.forget_terminal(terminal).leave_empty_panes());
}

// --- beginning ---

/// A daemon is spoken to only if it greets first, and in the client's own version.
pub proof fn versions_have_to_agree(ours: u32, theirs: u32, message: String)
    ensures
        welcome(ours, FirstFrame::Message(DaemonMsg::Hello { proto_version: theirs })) <==> theirs
            == ours,
        !welcome(ours, FirstFrame::Message(DaemonMsg::Error { message })),
        !welcome(ours, FirstFrame::Unreadable),
        !welcome(ours, FirstFrame::Closed),
{
}

/// What is asked for on the command line counts before what is configured.
pub proof fn the_command_line_counts_first(p: Profile, q: Profile)
    ensures
        profile_in_use(Some(p), q) == p,
        profile_in_use(None, q) == q,
{
}

// --- bursts ---

proof fn a_quit_is_remembered(v: AppView, events: Seq<Option<Event>>, k: int, n: int)
    requires
        0 <= k < n <= events.len(),
        v.after_events(events, k).handle_event(events[k]).1 == Flow::Quit,
    ensures
        v.events_quit(events, n),
    decreases n,
{
    if k < n - 1 {
        a_quit_is_remembered(v, events, k, n - 1);
    }
}

/// A burst ends the client if any of its events does, and only then; and if the stream of messages
/// ended within it. Events and messages are each taken in their order.
pub proof fn bursts_end_with_any_quit(
    v: AppView,
    events: Seq<Option<Event>>,
    msgs: Seq<Option<DaemonMsg>>,
    k: int,
)
    ensures
        0 <= k < events.len() && v.after_events(events, k).handle_event(events[k]).1 == Flow::Quit
            ==> v.events_quit(events, events.len() as int),
        events.len() == 0 ==> !v.events_quit(events, 0),
        (forall|i: int|
            0 <= i < events.len() ==> (#[trigger] v.after_events(events, i).handle_event(
                events[i],
            )).1 == Flow::Continue) ==> !v.events_quit(events, events.len() as int),
        0 <= k < msgs.len() && msgs[k] is None ==> msgs_quit(msgs),
        (forall|i: int| 0 <= i < msgs.len() ==> #[trigger] msgs[i] is Some) ==> !msgs_quit(msgs),
        0 <= k < msgs.len() ==> v.after_msgs(msgs, k + 1) == v.after_msgs(msgs, k).handle_daemon(
            msgs[k],
        ).0,
        v.after_msgs(msgs, 0) == v,
{
    if 0 <= k < events.len() && v.after_events(events, k).handle_event(events[k]).1 == Flow::Quit {
        a_quit_is_remembered(v, events, k, events.len() as int);
    }
    if forall|i: int|
        0 <= i < events.len() ==> (#[trigger] v.after_events(events, i).handle_event(events[i])).1
            == Flow::Continue {
        no_quit_goes_on(v, events, events.len() as int);
    }
}

proof fn no_quit_goes_on(v: AppView, events: Seq<Option<Event>>, n: int)
    requires
        0 <= n <= events.len(),
        forall|i: int|
            0 <= i < events.len() ==> (#[trigger] v.after_events(events, i).handle_event(
                events[i],
            )).1 == Flow::Continue,
    ensures
        !v.events_quit(events, n),
    decreases n,
{
    if n > 0 {
        no_quit_goes_on(v, events, n - 1);
        assert(v.after_events(events, n - 1).handle_event(events[n - 1]).1 == Flow::Continue);
    }
}

} // verus!
