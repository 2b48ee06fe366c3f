//! What is watched: the terminals on screen, at the size of their windows, and the agent in view.

use vstd::prelude::*;
use crate::commands::agent_is_found;
use crate::geometry::{Rect, Size};
use crate::ids::{AgentId, TerminalId};
use crate::input::Event;
use crate::laws::{reconciling_attaches_what_is_shown, sound};
use crate::pane::Placement;
use crate::sidebar::inner_size;
use crate::state::{agent_from, primary_of, AppView, Focus};
use crate::table::{keyed, lookup, place, put_then_lookup};
use crate::wire::{AgentInfo, MsgView};
use crate::workspace::pane_sizes;

verus! {

/// Whether a pane shows terminal `t`.
pub open spec fn in_a_pane(v: AppView, t: TerminalId) -> bool {
    exists|i: int| 0 <= i < v.tree.layout(v.area).len() && in_pane(v, i, t)
}

/// Whether pane `i` shows terminal `t`.
pub open spec fn in_pane(v: AppView, i: int, t: TerminalId) -> bool {
    v.tree.layout(v.area)[i].payload == Some(t)
}

/// Whether mini `i` shows terminal `t`: the minis are not hidden, this one is not shrunk, and `t` is
/// its agent's own.
pub open spec fn in_mini(v: AppView, i: int, t: TerminalId) -> bool {
    &&& !v.minis_hidden
    &&& !v.minimized.contains(v.minis[i])
    &&& exists|k: int| is_first(v.agents, v.minis[i], k) && v.agents[k].primary_terminal == t
}

/// Whether a mini shows terminal `t`.
pub open spec fn in_a_mini(v: AppView, t: TerminalId) -> bool {
    exists|i: int| 0 <= i < v.minis.len() && in_mini(v, i, t)
}

/// Whether `k` is the place of agent `id`.
pub open spec fn is_first(agents: Seq<AgentInfo>, id: AgentId, k: int) -> bool {
    &&& 0 <= k < agents.len()
    &&& agents[k].id == id
    &&& forall|m: int| 0 <= m < k ==> (#[trigger] agents[m]).id != id
}

proof fn found_first(agents: Seq<AgentInfo>, id: AgentId, i: int)
    requires
        0 <= i,
        forall|m: int| 0 <= m < i ==> (#[trigger] agents[m]).id != id,
    ensures
        agent_from(agents, id, i) matches Some(k) ==> is_first(agents, id, k),
    decreases agents.len() - i,
{
    if i < agents.len() && agents[i].id != id {
        found_first(agents, id, i + 1);
    }
}

proof fn streams_what_it_shows(v: AppView, i: int, t: TerminalId)
    requires
        0 <= i < v.minis.len(),
        !v.minis_hidden,
    ensures
        v.mini_streams(i) && primary_of(v.agents, v.minis[i])->0 == t <==> in_mini(v, i, t),
{
    let id = v.minis[i];
    found_first(v.agents, id, 0);
    if v.mini_streams(i) && primary_of(v.agents, id)->0 == t {
        let k = agent_from(v.agents, id, 0)->0;
        assert(is_first(v.agents, id, k));
    }
    if in_mini(v, i, t) {
        let k = choose|k: int| is_first(v.agents, id, k) && v.agents[k].primary_terminal == t;
        agent_is_found(v.agents, id, 0, k);
    }
}

proof fn sizes_of_panes(places: Seq<Placement<TerminalId>>, n: int, t: TerminalId, i: int)
    requires
        0 <= n <= places.len(),
    ensures
        keyed(pane_sizes(places, n)),
        lookup(pane_sizes(places, n), t) is Some <==> exists|k: int|
            0 <= k < n && (#[trigger] places[k]).payload == Some(t),
        0 <= i < n && places[i].payload == Some(t) && (forall|k: int|
            0 <= k < n && (#[trigger] places[k]).payload == Some(t) ==> k == i) ==> lookup(
            pane_sizes(places, n),
            t,
        ) == Some(inner_size(places[i].rect)),
    decreases n,
{
    if n > 0 {
        sizes_of_panes(places, n - 1, t, i);
        let before = pane_sizes(places, n - 1);
        match places[n - 1].payload {
            Some(u) => {
                put_then_lookup(before, u, inner_size(places[n - 1].rect), t);
                if u == t {
                    assert(places[n - 1].payload == Some(t));
                }
            },
            None => {},
        }
        if exists|k: int| 0 <= k < n - 1 && (#[trigger] places[k]).payload == Some(t) {
            let k = choose|k: int| 0 <= k < n - 1 && (#[trigger] places[k]).payload == Some(t);
            assert(places[k].payload == Some(t));
        }
    }
}

proof fn sizes_of_minis(
    v: AppView,
    sizes: Seq<(TerminalId, Size)>,
    band: Rect,
    n: int,
    t: TerminalId,
    i: int,
)
    requires
        keyed(sizes),
        0 <= n <= v.minis.len(),
        !v.minis_hidden,
    ensures
        keyed(v.with_minis(sizes, band, n)),
        lookup(v.with_minis(sizes, band, n), t) is Some <==> lookup(sizes, t) is Some
            || exists|k: int| 0 <= k < n && in_mini(v, k, t),
        (forall|k: int| 0 <= k < n ==> !in_mini(v, k, t)) ==> lookup(
            v.with_minis(sizes, band, n),
            t,
        ) == lookup(sizes, t),
        0 <= i < n && in_mini(v, i, t) && (forall|k: int| 0 <= k < n && in_mini(v, k, t) ==> k == i)
            ==> lookup(v.with_minis(sizes, band, n), t) == Some(
            inner_size(v.mini_rects(band)[i]),
        ),
    decreases n,
{
    if n > 0 {
        sizes_of_minis(v, sizes, band, n - 1, t, i);
        let before = v.with_minis(sizes, band, n - 1);
        streams_what_it_shows(v, n - 1, t);
        if v.mini_streams(n - 1) {
            let u = primary_of(v.agents, v.minis[n - 1])->0;
            put_then_lookup(before, u, inner_size(v.mini_rects(band)[n - 1]), t);
        }
        if exists|k: int| 0 <= k < n - 1 && in_mini(v, k, t) {
            let k = choose|k: int| 0 <= k < n - 1 && in_mini(v, k, t);
            assert(in_mini(v, k, t));
        }
    }
}

/// A terminal is attached exactly while it is on screen: in a pane, or in a mini that is neither
/// hidden nor shrunk.
pub proof fn what_is_on_screen_is_attached(v: AppView, t: TerminalId)
    requires
        sound(v),
    ensures
        lookup(v.reconcile().attached, t) is Some <==> in_a_pane(v, t) || in_a_mini(v, t),
{
    reconciling_attaches_what_is_shown(v);
    let places = v.tree.layout(v.area);
    sizes_of_panes(places, places.len() as int, t, 0);
    if exists|k: int| 0 <= k < places.len() && (#[trigger] places[k]).payload == Some(t) {
        let k = choose|k: int| 0 <= k < places.len() && (#[trigger] places[k]).payload == Some(t);
        assert(in_pane(v, k, t));
    }
    if in_a_pane(v, t) {
        let k = choose|k: int| 0 <= k < places.len() && in_pane(v, k, t);
        assert(places[k].payload == Some(t));
    }
    if let Some(band) = v.minis_band() {
        sizes_of_minis(
            v,
            pane_sizes(places, places.len() as int),
            band,
            v.minis.len() as int,
            t,
            0,
        );
    }
    assert(lookup(v.reconcile().attached, t) == lookup(v.desired(), t));
}

/// A terminal is attached at the size of its window within the border, and never at no size: that of
/// the pane that shows it, or of the mini.
pub proof fn terminals_have_the_size_of_their_window(v: AppView, t: TerminalId, i: int)
    requires
        sound(v),
    ensures
        0 <= i < v.tree.layout(v.area).len() && in_pane(v, i, t) && !in_a_mini(v, t) && (forall|k: int|
            0 <= k < v.tree.layout(v.area).len() && in_pane(v, k, t) ==> k == i) ==> {
            let r = v.tree.layout(v.area)[i].rect;
            let size = lookup(v.reconcile().attached, t)->0;
            &&& r.width >= 3 ==> size.cols == r.width - 2
            &&& r.width < 3 ==> size.cols == 1
            &&& r.height >= 3 ==> size.rows == r.height - 2
            &&& r.height < 3 ==> size.rows == 1
        },
        0 <= i < v.minis.len() && in_mini(v, i, t) && (forall|k: int|
            0 <= k < v.minis.len() && in_mini(v, k, t) ==> k == i) ==> {
            let r = v.mini_rects(v.minis_band()->0)[i];
            let size = lookup(v.reconcile().attached, t)->0;
            &&& r.width >= 3 ==> size.cols == r.width - 2
            &&& r.height >= 3 ==> size.rows == r.height - 2
        },
{
    reconciling_attaches_what_is_shown(v);
    let places = v.tree.layout(v.area);
    assert forall|k: int|
        0 <= k < places.len() && (#[trigger] places[k]).payload == Some(t) implies in_pane(
        v,
        k,
        t,
    ) by {}
    sizes_of_panes(places, places.len() as int, t, i);
    if let Some(band) = v.minis_band() {
        sizes_of_minis(
            v,
            pane_sizes(places, places.len() as int),
            band,
            v.minis.len() as int,
            t,
            i,
        );
        assert(!in_a_mini(v, t) ==> forall|k: int| 0 <= k < v.minis.len() ==> !in_mini(v, k, t));
    }
    assert(lookup(v.reconcile().attached, t) == lookup(v.desired(), t));
}

/// The daemon is told which agent is in view when that changes, and only then: the agent that the
/// focused pane belongs to, or the focused mini's, or none while the focus is in the sidebar.
pub proof fn the_agent_in_view_is_reported(v: AppView)
    ensures
        ({
            let w = v.sync_focus();
            let seen = match v.focus {
                Focus::Sidebar => None,
                Focus::Panes => match v.tree.focused_payload() {
                    Some(t) => lookup(v.terminals, t),
                    None => None,
                },
                Focus::Mini(i) => if i < v.minis.len() {
                    Some(v.minis[i as int])
                } else {
                    None
                },
            };
            &&& w.focus_agent == seen
            &&& seen == v.focus_agent ==> w == v
            &&& seen != v.focus_agent ==> w.out == v.out.push(MsgView::Focus { agent: seen })
            &&& w.sync_focus() == w
            &&& w.focus == v.focus && w.tree == v.tree
        }),
{
}

/// The order in which a burst is taken does not depend on how it is cut: what comes after some events
/// is applied to what these led to.
pub proof fn bursts_are_taken_in_order(
    v: AppView,
    events: Seq<Option<Event>>,
    n: int,
)
    requires
        0 <= n < events.len(),
    ensures
        v.after_events(events, n + 1) == v.after_events(events, n).handle_event(events[n]).0,
        v.after_events(events, 0) == v,
{
}

} // verus!
