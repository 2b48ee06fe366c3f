//! What is left of the terminals of an agent that is removed: nothing.

use vstd::prelude::*;
use crate::daemon::{other_agents, terminals_of};
use crate::geometry::{Rect, Size};
use crate::ids::{AgentId, TerminalId};
use crate::laws::{drop_all, owners_keyed, put_all, reconciling_attaches_what_is_shown, sound};
use crate::pane::{
    distinct, halves, has_leaf, is_pane, pane_showing, payload_at, placed, without, Node, PaneId,
    Placement, TreeView,
};
use crate::pane_laws::{
    closing_takes_one_pane, no_payload_elsewhere, pane_showing_is_a_leaf, without_absent,
};
use crate::sidebar::Row;
use crate::soundness::{alike, forgetting_keeps_sound, strike_agent_sound};
use crate::state::{agent_place_is_one, primary_of, AppView};
use crate::table::{drop_key, keyed, lookup, place, place_is_where, put};
use crate::wire::AgentInfo;
use crate::workspace::{gone, pane_sizes};

verus! {

/// Whether at most one pane of a tree shows terminal `t`.
pub open spec fn once_in(tree: TreeView<TerminalId>, t: TerminalId) -> bool {
    tree.root matches Some(node) ==> forall|a: PaneId, b: PaneId|
        #[trigger] payload_at(node, a) == Some(Some(t)) && #[trigger] payload_at(node, b) == Some(
            Some(t),
        ) ==> a == b
}

/// Whether at most one pane of each tree shows terminal `t`.
pub open spec fn shown_once(v: AppView, t: TerminalId) -> bool {
    &&& once_in(v.tree, t)
    &&& forall|i: int| 0 <= i < v.trees.len() ==> once_in((#[trigger] v.trees[i]).1, t)
}

/// Whether the client has no pane that shows terminal `t` and knows nothing of it.
pub open spec fn unknown(v: AppView, t: TerminalId) -> bool {
    &&& v.tree.showing(t) is None
    &&& forall|i: int| 0 <= i < v.trees.len() ==> (#[trigger] v.trees[i]).1.showing(t) is None
    &&& lookup(v.terminals, t) is None
    &&& lookup(v.parsers, t) is None
    &&& lookup(v.attached, t) is None
    &&& lookup(v.passthrough, t) is None
    &&& !v.scrolls(t)
}

// --- panes ---

proof fn showing_is_a_payload(node: Node<TerminalId>, t: TerminalId)
    requires
        distinct(node),
    ensures
        pane_showing(node, t) matches Some(k) ==> payload_at(node, k) == Some(Some(t)),
        pane_showing(node, t) is None ==> forall|k: PaneId|
            #[trigger] payload_at(node, k) != Some(Some(t)),
    decreases node,
{
    match node {
        Node::Leaf { .. } => {},
        Node::Split { first, second, .. } => {
            showing_is_a_payload(*first, t);
            showing_is_a_payload(*second, t);
            if let Some(k) = pane_showing(node, t) {
                no_payload_elsewhere(*first, k);
                pane_showing_is_a_leaf(*second, t);
            } else {
                assert forall|k: PaneId| #[trigger] payload_at(node, k) != Some(Some(t)) by {
                    assert(payload_at(*first, k) != Some(Some(t)));
                    assert(payload_at(*second, k) != Some(Some(t)));
                }
            }
        },
    }
}

proof fn others_keep_their_payload(node: Node<TerminalId>, id: PaneId)
    requires
        distinct(node),
    ensures
        without(node, id) matches Some(left) ==> forall|k: PaneId|
            #[trigger] payload_at(left, k) == if k == id {
                None
            } else {
                payload_at(node, k)
            },
    decreases node,
{
    match node {
        Node::Leaf { .. } => {},
        Node::Split { first, second, .. } => {
            others_keep_their_payload(*first, id);
            others_keep_their_payload(*second, id);
            if let Some(left) = without(node, id) {
                assert forall|k: PaneId|
                    #[trigger] payload_at(left, k) == if k == id {
                        None
                    } else {
                        payload_at(node, k)
                    } by {
                    no_payload_elsewhere(*first, k);
                    no_payload_elsewhere(*second, k);
                    no_payload_elsewhere(*first, id);
                    no_payload_elsewhere(*second, id);
                    if is_pane(*first, id) {
                        assert(has_leaf(*first, id));
                        assert(!has_leaf(*second, id));
                    } else if is_pane(*second, id) {
                        assert(has_leaf(*second, id));
                        assert(!has_leaf(*first, id));
                    } else {
                        if has_leaf(*first, id) {
                            closing_takes_one_pane(*first, id);
                        } else {
                            without_absent(*first, id);
                        }
                        if has_leaf(*second, id) {
                            closing_takes_one_pane(*second, id);
                        } else {
                            without_absent(*second, id);
                        }
                        let f = without(*first, id)->0;
                        let s = without(*second, id)->0;
                        assert(payload_at(f, k) == if k == id {
                            None
                        } else {
                            payload_at(*first, k)
                        });
                        assert(payload_at(s, k) == if k == id {
                            None
                        } else {
                            payload_at(*second, k)
                        });
                    }
                }
            }
        },
    }
}

/// Closing the pane of one payload takes it from the tree where it was shown once, brings no other
/// back, and makes none show twice.
pub proof fn closing_takes_the_payload(v: TreeView<TerminalId>, u: TerminalId, t: TerminalId)
    requires
        v.wf(),
    ensures
        once_in(v, t) ==> once_in(v.close_payload(u), t),
        v.showing(t) is None ==> v.close_payload(u).showing(t) is None,
        once_in(v, u) ==> v.close_payload(u).showing(u) is None,
{
    if let Some(node) = v.root {
        showing_is_a_payload(node, u);
        showing_is_a_payload(node, t);
        if let Some(id) = v.showing(u) {
            pane_showing_is_a_leaf(node, u);
            closing_takes_one_pane(node, id);
            others_keep_their_payload(node, id);
            let w = v.close_payload(u);
            assert(w.root == without(node, id));
            if let Some(left) = w.root {
                showing_is_a_payload(left, t);
                showing_is_a_payload(left, u);
                if let Some(k) = pane_showing(left, t) {
                    assert(payload_at(left, k) == Some(Some(t)));
                    assert(payload_at(node, k) == Some(Some(t)));
                }
                if let Some(k) = pane_showing(left, u) {
                    assert(payload_at(left, k) == Some(Some(u)));
                    assert(payload_at(node, k) == Some(Some(u)));
                    assert(payload_at(node, id) == Some(Some(u)));
                }
                if once_in(v, t) {
                    assert forall|a: PaneId, b: PaneId|
                        #[trigger] payload_at(left, a) == Some(Some(t)) && #[trigger] payload_at(
                            left,
                            b,
                        ) == Some(Some(t)) implies a == b by {
                        assert(payload_at(node, a) == Some(Some(t)));
                        assert(payload_at(node, b) == Some(Some(t)));
                    }
                }
            }
        }
    }
}

proof fn placements_show(node: Node<TerminalId>, slot: Rect, focus: PaneId, t: TerminalId)
    requires
        pane_showing(node, t) is None,
    ensures
        forall|i: int|
            0 <= i < placed(node, slot, focus).len() ==> (#[trigger] placed(node, slot, focus)[i]).payload
                != Some(t),
    decreases node,
{
    match node {
        Node::Leaf { .. } => {},
        Node::Split { axis, ratio, first, second } => {
            let (a, b) = halves(slot, axis, ratio);
            placements_show(*first, a, focus, t);
            placements_show(*second, b, focus, t);
            let all = placed(node, slot, focus);
            let n = placed(*first, a, focus).len();
            assert forall|i: int| 0 <= i < all.len() implies (#[trigger] all[i]).payload != Some(t) by {
                if i < n {
                    assert(all[i] == placed(*first, a, focus)[i]);
                } else {
                    assert(all[i] == placed(*second, b, focus)[i - n]);
                }
            }
        },
    }
}

// --- what is on screen ---

proof fn pane_sizes_without(places: Seq<Placement<TerminalId>>, n: int, t: TerminalId)
    requires
        0 <= n <= places.len(),
        forall|i: int| 0 <= i < places.len() ==> (#[trigger] places[i]).payload != Some(t),
    ensures
        lookup(pane_sizes(places, n), t) is None,
    decreases n,
{
    if n > 0 {
        pane_sizes_without(places, n - 1, t);
        if let Some(u) = places[n - 1].payload {
            put_elsewhere(pane_sizes(places, n - 1), u, t);
        }
    }
}

proof fn put_elsewhere<W>(s: Seq<(TerminalId, W)>, u: TerminalId, t: TerminalId)
    requires
        u != t,
        lookup(s, t) is None,
    ensures
        forall|w: W| lookup(#[trigger] put(s, u, w), t) is None,
{
    place_is_where(s, t);
    place_is_where(s, u);
    assert forall|w: W| lookup(#[trigger] put(s, u, w), t) is None by {
        let out = put(s, u, w);
        place_is_where(out, t);
        if let Some(i) = place(out, t) {
            if i < s.len() && place(s, u) != Some(i) {
                assert(out[i] == s[i]);
            }
        }
    }
}

/// Whether no agent has `t` as its own terminal.
spec fn nobodys(v: AppView, t: TerminalId) -> bool {
    forall|i: int| 0 <= i < v.agents.len() ==> (#[trigger] v.agents[i]).primary_terminal != t
}

proof fn minis_without(v: AppView, sizes: Seq<(TerminalId, Size)>, band: Rect, n: int, t: TerminalId)
    requires
        nobodys(v, t),
        lookup(sizes, t) is None,
    ensures
        lookup(v.with_minis(sizes, band, n), t) is None,
    decreases n,
{
    if n > 0 {
        minis_without(v, sizes, band, n - 1, t);
        if v.mini_streams(n - 1) {
            agent_place_is_one(v.agents, v.minis[n - 1], 0);
            put_elsewhere(
                v.with_minis(sizes, band, n - 1),
                primary_of(v.agents, v.minis[n - 1])->0,
                t,
            );
        }
    }
}

proof fn owners_without(
    v: AppView,
    terminals: Seq<(TerminalId, AgentId)>,
    n: int,
    t: TerminalId,
)
    requires
        nobodys(v, t),
        lookup(terminals, t) is None,
    ensures
        lookup(v.mini_owners(terminals, n), t) is None,
    decreases n,
{
    if n > 0 {
        owners_without(v, terminals, n - 1, t);
        if v.mini_streams(n - 1) {
            agent_place_is_one(v.agents, v.minis[n - 1], 0);
            put_elsewhere(
                v.mini_owners(terminals, n - 1),
                primary_of(v.agents, v.minis[n - 1])->0,
                t,
            );
        }
    }
}

proof fn owners_are_minis(
    v: AppView,
    terminals: Seq<(TerminalId, AgentId)>,
    n: int,
    id: AgentId,
    k: TerminalId,
)
    requires
        keyed(terminals),
        0 <= n <= v.minis.len(),
        !v.minis.contains(id),
        lookup(terminals, k) != Some(id),
    ensures
        lookup(v.mini_owners(terminals, n), k) != Some(id),
    decreases n,
{
    if n > 0 {
        owners_are_minis(v, terminals, n - 1, id, k);
        owners_keyed(v, terminals, n - 1);
        if v.mini_streams(n - 1) {
            assert(v.minis.contains(v.minis[n - 1]));
            put_all(
                v.mini_owners(terminals, n - 1),
                primary_of(v.agents, v.minis[n - 1])->0,
                v.minis[n - 1],
            );
        }
    }
}

proof fn attaching_names_nobody(v: AppView, d: Seq<(TerminalId, Size)>, n: int)
    ensures
        v.attach_all(d, n).terminals == v.terminals,
        v.attach_all(d, n).passthrough == v.passthrough,
    decreases n,
{
    if n > 0 {
        attaching_names_nobody(v, d, n - 1);
    }
}

proof fn detaching_names_nobody(v: AppView, ts: Seq<TerminalId>, n: int)
    ensures
        v.detach_all(ts, n).terminals == v.terminals,
        v.detach_all(ts, n).passthrough == v.passthrough,
    decreases n,
{
    if n > 0 {
        detaching_names_nobody(v, ts, n - 1);
    }
}

proof fn reconciling_names_minis(v: AppView)
    ensures
        v.reconcile().terminals == v.owners(),
        v.reconcile().passthrough == v.passthrough,
{
    reveal(AppView::reconcile);
    let d = v.desired();
    let named = AppView { terminals: v.owners(), ..v };
    attaching_names_nobody(named, d, d.len() as int);
    let a = named.attach_all(d, d.len() as int);
    let ts = gone(a.attached, d, a.attached.len() as int);
    detaching_names_nobody(a, ts, ts.len() as int);
}

/// Reconciling brings no terminal back that no pane shows and that is nobody's own.
proof fn reconciling_brings_nothing_back(v: AppView, t: TerminalId)
    requires
        sound(v),
        unknown(v, t),
        nobodys(v, t),
    ensures
        unknown(v.reconcile(), t),
{
    let places = v.tree.layout(v.area);
    if let Some(node) = v.tree.root {
        placements_show(node, v.area, v.tree.focus, t);
    }
    pane_sizes_without(places, places.len() as int, t);
    if let Some(band) = v.minis_band() {
        minis_without(v, pane_sizes(places, places.len() as int), band, v.minis.len() as int, t);
        owners_without(v, v.terminals, v.minis.len() as int, t);
    }
    reconciling_attaches_what_is_shown(v);
    reconciling_names_minis(v);
    let w = v.reconcile();
    assert(lookup(w.attached, t) == lookup(v.desired(), t));
}

// --- forgetting ---

proof fn forgetting_one(v: AppView, u: TerminalId, t: TerminalId)
    requires
        sound(v),
    ensures
        sound(v.forget_terminal(u)),
        shown_once(v, t) ==> shown_once(v.forget_terminal(u), t),
        unknown(v, t) ==> unknown(v.forget_terminal(u), t),
        shown_once(v, u) ==> unknown(v.forget_terminal(u), u),
{
    forgetting_keeps_sound(v, u);
    reveal(AppView::forget_terminal);
    let w = v.forget_terminal(u);
    closing_takes_the_payload(v.tree, u, t);
    assert forall|i: int| 0 <= i < w.trees.len() implies {
        &&& once_in(v.trees[i].1, t) ==> once_in((#[trigger] w.trees[i]).1, t)
        &&& v.trees[i].1.showing(t) is None ==> w.trees[i].1.showing(t) is None
        &&& once_in(v.trees[i].1, u) ==> w.trees[i].1.showing(u) is None
    } by {
        assert(v.trees[i].1.wf());
        closing_takes_the_payload(v.trees[i].1, u, t);
    }
    drop_all(v.terminals, u);
    drop_all(v.parsers, u);
    drop_all(v.attached, u);
    drop_all(v.passthrough, u);
}

proof fn forgetting_all(v: AppView, ts: Seq<TerminalId>, n: int, t: TerminalId)
    requires
        sound(v),
        shown_once(v, t),
        0 <= n <= ts.len(),
    ensures
        sound(v.forget_all(ts, n)),
        shown_once(v.forget_all(ts, n), t),
        (exists|i: int| 0 <= i < n && #[trigger] ts[i] == t) ==> unknown(v.forget_all(ts, n), t),
    decreases n,
{
    if n > 0 {
        forgetting_all(v, ts, n - 1, t);
        forgetting_one(v.forget_all(ts, n - 1), ts[n - 1], t);
    }
}

proof fn forgetting_unnames(v: AppView, ts: Seq<TerminalId>, n: int, k: TerminalId)
    requires
        sound(v),
        0 <= n <= ts.len(),
    ensures
        sound(v.forget_all(ts, n)),
        lookup(v.forget_all(ts, n).terminals, k) == if exists|i: int|
            0 <= i < n && #[trigger] ts[i] == k {
            None
        } else {
            lookup(v.terminals, k)
        },
    decreases n,
{
    if n > 0 {
        forgetting_unnames(v, ts, n - 1, k);
        let w = v.forget_all(ts, n - 1);
        forgetting_keeps_sound(w, ts[n - 1]);
        drop_all(w.terminals, ts[n - 1]);
        assert(lookup(drop_key(w.terminals, ts[n - 1]), k) == if k == ts[n - 1] {
            None
        } else {
            lookup(w.terminals, k)
        });
    }
}

proof fn its_terminals_are_listed(
    terminals: Seq<(TerminalId, AgentId)>,
    id: AgentId,
    n: int,
    k: int,
)
    requires
        0 <= k < n <= terminals.len(),
        terminals[k].1 == id,
    ensures
        exists|i: int|
            0 <= i < terminals_of(terminals, id, n).len() && #[trigger] terminals_of(
                terminals,
                id,
                n,
            )[i] == terminals[k].0,
    decreases n,
{
    let all = terminals_of(terminals, id, n);
    if k == n - 1 {
        assert(all[all.len() - 1] == terminals[k].0);
    } else {
        its_terminals_are_listed(terminals, id, n - 1, k);
        let before = terminals_of(terminals, id, n - 1);
        let i = choose|i: int| 0 <= i < before.len() && #[trigger] before[i] == terminals[k].0;
        assert(all[i] == before[i]);
    }
}

// --- agents going ---

proof fn others_stay(agents: Seq<AgentInfo>, id: AgentId, n: int)
    requires
        0 <= n <= agents.len(),
    ensures
        forall|i: int|
            0 <= i < other_agents(agents, id, n).len() ==> (#[trigger] other_agents(
                agents,
                id,
                n,
            )[i]).id != id && agents.contains(other_agents(agents, id, n)[i]),
    decreases n,
{
    if n > 0 {
        others_stay(agents, id, n - 1);
        assert(agents.contains(agents[n - 1]));
        let before = other_agents(agents, id, n - 1);
        let all = other_agents(agents, id, n);
        assert forall|i: int| 0 <= i < all.len() implies (#[trigger] all[i]).id != id
            && agents.contains(all[i]) by {
            if i < before.len() {
                assert(all[i] == before[i]);
            }
        }
    }
}

/// The client with an agent gone, before it is settled what to attach.
spec fn unsettled(v: AppView, id: AgentId) -> AppView {
    let w = v.strike_agent(id);
    AppView {
        agents: other_agents(w.agents, id, w.agents.len() as int),
        sidebar_sel: if w.sidebar_sel == Some(Row::Agent(id)) {
            None
        } else {
            w.sidebar_sel
        },
        ..w
    }.leave_empty_panes().ensure_sidebar_sel()
}

proof fn unsettled_is_sound(v: AppView, id: AgentId)
    requires
        sound(v),
    ensures
        ({
            let w = v.strike_agent(id);
            let y = unsettled(v, id);
            &&& v.remove_agent(id) == y.reconcile()
            &&& sound(y)
            &&& y.tree == w.tree && y.trees == w.trees && y.terminals == w.terminals
            &&& y.parsers == w.parsers && y.attached == w.attached
            &&& y.passthrough == w.passthrough && y.minis == w.minis && y.scroll == w.scroll
            &&& y.agents == other_agents(v.agents, id, v.agents.len() as int)
            &&& !y.minis.contains(id)
        }),
{
    reveal(AppView::remove_agent);
    reveal(AppView::ensure_sidebar_sel);
    strike_agent_sound(v, id);
    alike(v.strike_agent(id), unsettled(v, id));
}

/// Once an agent is removed, no terminal belongs to it.
pub proof fn removed_agents_own_no_terminal(v: AppView, id: AgentId, k: TerminalId)
    requires
        sound(v),
    ensures
        lookup(v.remove_agent(id).terminals, k) != Some(id),
{
    let ts = terminals_of(v.terminals, id, v.terminals.len() as int);
    unsettled_is_sound(v, id);
    let y = unsettled(v, id);
    forgetting_unnames(v, ts, ts.len() as int, k);
    if lookup(v.terminals, k) == Some(id) {
        place_is_where(v.terminals, k);
        its_terminals_are_listed(
            v.terminals,
            id,
            v.terminals.len() as int,
            place(v.terminals, k)->0,
        );
    }
    assert(lookup(y.terminals, k) != Some(id));
    owners_are_minis(y, y.terminals, y.minis.len() as int, id, k);
    reconciling_names_minis(y);
}

/// Of a terminal of a removed agent nothing is left: no pane shows it, here or put away, and it has no
/// emulator and no window of history, is not attached and belongs to nobody, provided that no tree
/// showed it twice and that it is not the own terminal of another agent.
pub proof fn removed_agents_take_their_terminals(v: AppView, id: AgentId, t: TerminalId)
    requires
        sound(v),
        lookup(v.terminals, t) == Some(id),
        shown_once(v, t),
        forall|i: int|
            0 <= i < v.agents.len() && (#[trigger] v.agents[i]).id != id
                ==> v.agents[i].primary_terminal != t,
    ensures
        unknown(v.remove_agent(id), t),
{
    let ts = terminals_of(v.terminals, id, v.terminals.len() as int);
    unsettled_is_sound(v, id);
    let y = unsettled(v, id);
    place_is_where(v.terminals, t);
    its_terminals_are_listed(v.terminals, id, v.terminals.len() as int, place(v.terminals, t)->0);
    forgetting_all(v, ts, ts.len() as int, t);
    let w = v.forget_all(ts, ts.len() as int);
    assert(unknown(w, t));
    place_is_where(w.trees, id);
    assert forall|i: int| 0 <= i < y.trees.len() implies (#[trigger] y.trees[i]).1.showing(t) is None by {
        match place(w.trees, id) {
            Some(k) => {
                if i < k {
                    assert(y.trees[i] == w.trees[i]);
                } else {
                    assert(y.trees[i] == w.trees[i + 1]);
                }
            },
            None => {
                assert(y.trees[i] == w.trees[i]);
            },
        }
    }
    others_stay(v.agents, id, v.agents.len() as int);
    assert forall|i: int| 0 <= i < y.agents.len() implies (#[trigger] y.agents[i]).primary_terminal
        != t by {
        assert(v.agents.contains(y.agents[i]));
    }
    reconciling_brings_nothing_back(y, t);
}

} // verus!
