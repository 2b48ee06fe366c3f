//! Opening agents, beside the others or in their place, and putting them away again.

use vstd::prelude::*;
use crate::conduct::plain_mode;
use crate::geometry::Size;
use crate::ids::{AgentId, TerminalId};
use crate::input::{KeyCode, KeyEvent};
use crate::sidebar::Row;
use crate::state::{
    id_from, primary_of, without_id, without_id_drops_it, AppView, Flow, Focus, InputMode,
};
use crate::table::{drop_then_lookup, keyed, lookup, put_then_lookup};
use crate::wire::MsgView;
use crate::workspace::gone;

verus! {

// --- what reconciling leaves alone ---

/// Whether `w` is `v` but for what is attached, what the attached terminals show, whose they are, and
/// what is asked of the daemon.
pub open spec fn differs_in_views(v: AppView, w: AppView) -> bool {
    w == AppView {
        terminals: w.terminals,
        parsers: w.parsers,
        attached: w.attached,
        scroll: w.scroll,
        out: w.out,
        ..v
    }
}

proof fn attaching_differs_in_views(v: AppView, d: Seq<(TerminalId, Size)>, n: int)
    ensures
        differs_in_views(v, v.attach_all(d, n)),
    decreases n,
{
    if n > 0 {
        attaching_differs_in_views(v, d, n - 1);
    }
}

proof fn detaching_differs_in_views(v: AppView, ts: Seq<TerminalId>, n: int)
    ensures
        differs_in_views(v, v.detach_all(ts, n)),
    decreases n,
{
    if n > 0 {
        detaching_differs_in_views(v, ts, n - 1);
    }
}

/// Reconciling moves nothing: neither the focus, nor the cursor, nor a pane or a mini, nor what is
/// being typed.
pub proof fn reconciling_moves_nothing(v: AppView)
    ensures
        differs_in_views(v, v.reconcile()),
{
    reveal(AppView::reconcile);
    let d = v.desired();
    let named = AppView { terminals: v.owners(), ..v };
    attaching_differs_in_views(named, d, d.len() as int);
    let a = named.attach_all(d, d.len() as int);
    let ts = gone(a.attached, d, a.attached.len() as int);
    detaching_differs_in_views(a, ts, ts.len() as int);
}

pub(crate) proof fn spawning_only_asks(v: AppView, like: TerminalId, blanks: Seq<TerminalId>, n: int)
    requires
        0 <= n <= blanks.len(),
    ensures
        v.spawn_all(like, blanks, n) == (AppView { out: v.spawn_all(like, blanks, n).out, ..v }),
        v.spawn_all(like, blanks, n).out == v.out + Seq::new(
            n as nat,
            |k: int| MsgView::SpawnShell { terminal: blanks[k], like },
        ),
    decreases n,
{
    if n > 0 {
        spawning_only_asks(v, like, blanks, n - 1);
        assert(v.spawn_all(like, blanks, n).out =~= v.out + Seq::new(
            n as nat,
            |k: int| MsgView::SpawnShell { terminal: blanks[k], like },
        ));
    } else {
        assert(v.out =~= v.out + Seq::new(
            0,
            |k: int| MsgView::SpawnShell { terminal: blanks[k], like },
        ));
    }
}

// --- opening an agent ---

/// Opening an agent puts it into the main area and the focus into its panes; it is no mini any more,
/// the other minis stay, and the agent that was active is the one to come back to.
pub proof fn an_opened_agent_is_active(v: AppView, id: AgentId)
    ensures
        ({
            let w = v.activate(id);
            &&& w.active_agent == Some(id)
            &&& w.focus == Focus::Panes
            &&& !w.minis.contains(id)
            &&& forall|x: AgentId| x != id ==> #[trigger] w.minis.contains(x) == v.minis.contains(x)
            &&& v.active_agent is Some && v.active_agent != Some(id) ==> w.prev_active_agent
                == v.active_agent
            &&& v.active_agent is None || v.active_agent == Some(id) ==> w.prev_active_agent
                == v.prev_active_agent
            &&& w.sidebar_sel == v.sidebar_sel && w.sidebar_placed == v.sidebar_placed
            &&& w.sidebar_top == v.sidebar_top
            &&& w.agents == v.agents && w.repos == v.repos && w.area == v.area
            &&& w.input == v.input && w.prefix == v.prefix && w.resize_mode == v.resize_mode
            &&& w.minis_hidden == v.minis_hidden
        }),
{
    reveal(AppView::activate);
    without_id_drops_it(v.minis, id);
    let a = v.swap_to_agent(id);
    let blanks = v.restored(id);
    if let Some(primary) = primary_of(a.agents, id) {
        spawning_only_asks(a, primary, blanks, blanks.len() as int);
    }
    reconciling_moves_nothing(a.spawn_restored_shells(id, blanks));
}

/// An agent opened for the first time shows its own terminal, in one pane, with the focus on it. One
/// opened before in this session shows the panes it had, and the panes of the agent that was active
/// are kept for it.
pub proof fn an_opened_agent_shows_its_panes(v: AppView, id: AgentId)
    requires
        keyed(v.trees),
        v.active_agent != Some(id),
    ensures
        ({
            let w = v.activate(id);
            &&& lookup(v.trees, id) is None && lookup(v.saved_layouts, id) is None && primary_of(
                v.agents,
                id,
            ) is Some ==> {
                &&& w.tree.payloads() == seq![primary_of(v.agents, id)->0]
                &&& w.tree.focused_payload() == primary_of(v.agents, id)
            }
            &&& lookup(v.trees, id) is Some && (lookup(v.trees, id)->0).root is Some ==> w.tree
                == lookup(v.trees, id)->0
            &&& v.active_agent is Some ==> lookup(w.trees, v.active_agent->0) == Some(v.tree)
            &&& forall|x: AgentId|
                x != id && v.active_agent != Some(x) ==> #[trigger] lookup(w.trees, x) == lookup(
                    v.trees,
                    x,
                )
        }),
{
    reveal(AppView::activate);
    let a = v.swap_to_agent(id);
    let blanks = v.restored(id);
    if let Some(primary) = primary_of(a.agents, id) {
        spawning_only_asks(a, primary, blanks, blanks.len() as int);
    }
    reconciling_moves_nothing(a.spawn_restored_shells(id, blanks));
    let w = v.activate(id);
    assert(w.tree == a.tree && w.trees == a.trees);
    let kept = v.put_away().trees;
    if let Some(prev) = v.active_agent {
        put_then_lookup(v.trees, prev, v.tree, id);
        drop_then_lookup(kept, id, prev);
    }
    assert(keyed(kept));
    assert forall|x: AgentId| x != id && v.active_agent != Some(x) implies #[trigger] lookup(
        w.trees,
        x,
    ) == lookup(v.trees, x) by {
        if let Some(prev) = v.active_agent {
            put_then_lookup(v.trees, prev, v.tree, x);
        }
        drop_then_lookup(kept, id, x);
    }
}

/// Enter and `l` open the agent under the cursor in the main area.
pub proof fn the_agent_under_the_cursor_is_opened(v: AppView, key: KeyEvent, id: AgentId)
    requires
        plain_mode(v),
        v.focus == Focus::Sidebar,
        v.sidebar_sel == Some(Row::Agent(id)) || v.sidebar_sel == Some(Row::Recent(id)),
        key.code == KeyCode::Enter || (key.code == KeyCode::Char('l') && !key.modifiers.control),
    ensures
        ({
            let (w, flow) = v.on_key(key);
            &&& flow == Flow::Continue
            &&& w.active_agent == Some(id)
            &&& w.focus == Focus::Panes
            &&& !w.minis.contains(id)
            &&& forall|x: AgentId| x != id ==> #[trigger] w.minis.contains(x) == v.minis.contains(x)
            &&& w.sidebar_sel == v.sidebar_sel
        }),
{
    reveal(AppView::on_key);
    let w = v.dismissed();
    assert(w.scroll_checked() == w);
    an_opened_agent_is_active(w, id);
}

// --- minis ---

/// Closing mini `i` leaves the minis as they were but for that one.
pub proof fn closing_a_mini_takes_it_alone(v: AppView, i: int)
    requires
        0 <= i < v.minis.len(),
    ensures
        ({
            let w = v.close_mini(i);
            &&& w.minis.len() == v.minis.len() - 1
            &&& forall|k: int| 0 <= k < i ==> #[trigger] w.minis[k] == v.minis[k]
            &&& forall|k: int| i <= k < w.minis.len() ==> #[trigger] w.minis[k] == v.minis[k + 1]
            &&& v.minis.no_duplicates() ==> !w.minis.contains(v.minis[i])
            &&& !w.minimized.contains(v.minis[i])
            &&& forall|x: AgentId| x != v.minis[i] ==> #[trigger] w.minimized.contains(x)
                == v.minimized.contains(x)
            &&& w.tree == v.tree && w.active_agent == v.active_agent && w.agents == v.agents
            &&& w.minis_hidden == v.minis_hidden && w.sidebar_sel == v.sidebar_sel
        }),
{
    without_id_drops_it(v.minimized, v.minis[i]);
    let w = v.close_mini(i);
    let a = AppView {
        minis: v.minis.remove(i),
        minimized: without_id(v.minimized, v.minis[i]),
        focus: if v.minis.remove(i).len() == 0 {
            v.focus_return
        } else if i < v.minis.remove(i).len() {
            Focus::Mini(i as usize)
        } else {
            Focus::Mini((v.minis.remove(i).len() - 1) as usize)
        },
        ..v
    };
    reconciling_moves_nothing(a);
    if v.minis.no_duplicates() && w.minis.contains(v.minis[i]) {
        let k = choose|k: int| 0 <= k < w.minis.len() && w.minis[k] == v.minis[i];
        if k < i {
            assert(v.minis[k] == v.minis[i]);
        } else {
            assert(v.minis[k + 1] == v.minis[i]);
        }
    }
}

/// The focus stays among the minis while one is left: on the one that moved up, or on the last.
/// Without any it goes back to where it came from.
pub proof fn closing_a_mini_focuses_its_neighbour(v: AppView, i: usize)
    requires
        i < v.minis.len() <= usize::MAX,
    ensures
        v.minis.len() == 1 ==> v.close_mini(i as int).focus == v.focus_return,
        i + 1 < v.minis.len() ==> v.close_mini(i as int).focus == Focus::Mini(i),
        i > 0 && i + 1 == v.minis.len() ==> v.close_mini(i as int).focus == Focus::Mini(
            (i - 1) as usize,
        ),
        v.close_mini(i as int).focus_return == v.focus_return,
{
    let a = AppView {
        minis: v.minis.remove(i as int),
        minimized: without_id(v.minimized, v.minis[i as int]),
        focus: if v.minis.len() == 1 {
            v.focus_return
        } else if i + 1 < v.minis.len() {
            Focus::Mini(i)
        } else {
            Focus::Mini((v.minis.len() - 2) as usize)
        },
        ..v
    };
    reconciling_moves_nothing(a);
}

/// An agent that is neither active nor a mini becomes the last mini, with the focus on it; the minis
/// before it stay where they are, and so does everything in the main area.
pub proof fn a_new_mini_comes_last(v: AppView, id: AgentId)
    requires
        v.active_agent != Some(id),
        !v.minis.contains(id),
        v.minis.len() < usize::MAX,
    ensures
        ({
            let w = v.open_mini(id);
            &&& w.minis.len() == v.minis.len() + 1
            &&& w.minis[v.minis.len() as int] == id
            &&& forall|k: int| 0 <= k < v.minis.len() ==> #[trigger] w.minis[k] == v.minis[k]
            &&& w.focus == Focus::Mini(v.minis.len() as usize)
            &&& v.focus is Mini ==> w.focus_return == v.focus_return
            &&& !(v.focus is Mini) ==> w.focus_return == v.focus
            &&& w.tree == v.tree && w.active_agent == v.active_agent
            &&& w.minimized == v.minimized && w.minis_hidden == v.minis_hidden
            &&& w.sidebar_sel == v.sidebar_sel
        }),
{
    absent_id_is_not_found(v.minis, id, 0);
    reconciling_moves_nothing(
        AppView { minis: v.minis.push(id), ..v }.enter_mini(v.minis.len() as usize),
    );
}

proof fn absent_id_is_not_found(ids: Seq<AgentId>, id: AgentId, i: int)
    requires
        0 <= i,
        !ids.contains(id),
    ensures
        id_from(ids, id, i) is None,
    decreases ids.len() - i,
{
    if i < ids.len() {
        assert(ids.contains(ids[i]));
        absent_id_is_not_found(ids, id, i + 1);
    }
}

proof fn present_id_is_found(ids: Seq<AgentId>, id: AgentId, i: int, k: int)
    requires
        0 <= i <= k < ids.len(),
        ids[k] == id,
    ensures
        id_from(ids, id, i) matches Some(j) && i <= j <= k && ids[j] == id,
    decreases ids.len() - i,
{
    if ids[i] != id {
        present_id_is_found(ids, id, i + 1, k);
    }
}

/// Asking for a mini that is there already only moves the focus to it, and an agent in the main area
/// becomes no mini.
pub proof fn a_mini_is_not_opened_twice(v: AppView, id: AgentId, k: int)
    requires
        v.minis.len() <= usize::MAX,
        v.minis.no_duplicates(),
    ensures
        v.active_agent == Some(id) ==> v.open_mini(id) == v,
        v.active_agent != Some(id) && 0 <= k < v.minis.len() && v.minis[k] == id ==> {
            let w = v.open_mini(id);
            &&& w.minis == v.minis && w.tree == v.tree && w.active_agent == v.active_agent
            &&& w.focus == Focus::Mini(k as usize)
            &&& w.out == v.out
        },
{
    if v.active_agent != Some(id) && 0 <= k < v.minis.len() && v.minis[k] == id {
        present_id_is_found(v.minis, id, 0, k);
    }
}

/// Minimizing a mini and restoring it are one command: what was shrunk is whole again, what was
/// whole is shrunk, and no other mini changes.
pub proof fn a_mini_is_minimized_and_restored(v: AppView, i: int)
    requires
        0 <= i < v.minis.len(),
    ensures
        ({
            let w = v.toggle_mini(i);
            &&& w.minimized.contains(v.minis[i]) == !v.minimized.contains(v.minis[i])
            &&& forall|x: AgentId| x != v.minis[i] ==> #[trigger] w.minimized.contains(x)
                == v.minimized.contains(x)
            &&& w.minis == v.minis && w.focus == v.focus && w.tree == v.tree
            &&& w.active_agent == v.active_agent
        }),
{
    let id = v.minis[i];
    without_id_drops_it(v.minimized, id);
    let a = AppView {
        minimized: if v.minimized.contains(id) {
            without_id(v.minimized, id)
        } else {
            v.minimized.push(id)
        },
        ..v
    };
    reconciling_moves_nothing(a);
    if !v.minimized.contains(id) {
        let more = v.minimized.push(id);
        assert(more[v.minimized.len() as int] == id);
        assert forall|x: AgentId| x != id implies #[trigger] more.contains(x)
            == v.minimized.contains(x) by {
            if v.minimized.contains(x) {
                let k = choose|k: int| 0 <= k < v.minimized.len() && v.minimized[k] == x;
                assert(more[k] == x);
            }
            if more.contains(x) {
                let k = choose|k: int| 0 <= k < more.len() && more[k] == x;
                assert(v.minimized[k] == x);
            }
        }
    }
}

/// Peeking hides the minis, or shows them again; the focus leaves them only when they go, for where
/// it came from.
pub proof fn peeking_hides_the_minis(v: AppView)
    ensures
        ({
            let w = v.peek();
            &&& w.minis_hidden == !v.minis_hidden
            &&& w.minis == v.minis && w.minimized == v.minimized && w.tree == v.tree
            &&& w.active_agent == v.active_agent
            &&& !v.minis_hidden && v.focus is Mini ==> w.focus == v.focus_return
            &&& v.minis_hidden || !(v.focus is Mini) ==> w.focus == v.focus
        }),
{
    let a = AppView {
        minis_hidden: !v.minis_hidden,
        focus: if !v.minis_hidden && v.focus is Mini {
            v.focus_return
        } else {
            v.focus
        },
        ..v
    };
    reconciling_moves_nothing(a);
}

// --- by key ---

/// Whether the next key is a command: the prefix was pressed, and no mode takes keys for itself.
pub open spec fn prefixed(v: AppView) -> bool {
    v.input == InputMode::Normal && v.scroll is None && !v.resize_mode && v.prefix
}

/// What a command leaves behind: the prefix is spent, and notices are dismissed.
pub open spec fn spent(v: AppView) -> AppView {
    AppView { prefix: false, status: Seq::empty(), info: Seq::empty(), selection: None, ..v }
}

/// The prefix takes one key and is spent, whatever the key is.
pub proof fn the_prefix_takes_one_key(v: AppView, key: KeyEvent)
    requires
        prefixed(v),
        !(key.code == KeyCode::Char('q') && key.modifiers.control),
    ensures
        v.on_key(key) == (spent(v).key_prefix(key), Flow::Continue),
{
    reveal(AppView::on_key);
    let w = v.dismissed();
    assert(w.scroll_checked() == w);
}

/// Ctrl+B arms the prefix, from the sidebar, the panes and the minis alike, and does nothing else.
pub proof fn the_prefix_is_armed(v: AppView, key: KeyEvent)
    requires
        plain_mode(v),
        key.code == KeyCode::Char('b'),
        key.modifiers.control,
    ensures
        v.on_key(key) == (
            AppView { prefix: true, status: Seq::empty(), info: Seq::empty(), selection: None, ..v },
            Flow::Continue,
        ),
{
    reveal(AppView::on_key);
    let w = v.dismissed();
    assert(w.scroll_checked() == w);
}

/// In the sidebar, `m` opens the agent under the cursor as a mini.
pub proof fn the_agent_under_the_cursor_is_opened_as_a_mini(v: AppView, key: KeyEvent, id: AgentId)
    requires
        plain_mode(v),
        v.focus == Focus::Sidebar,
        v.sidebar_sel == Some(Row::Agent(id)) || v.sidebar_sel == Some(Row::Recent(id)),
        key.code == KeyCode::Char('m'),
        v.active_agent != Some(id),
        !v.minis.contains(id),
        v.minis.len() < usize::MAX,
    ensures
        ({
            let w = v.on_key(key).0;
            &&& w.minis.len() == v.minis.len() + 1
            &&& w.minis[v.minis.len() as int] == id
            &&& forall|k: int| 0 <= k < v.minis.len() ==> #[trigger] w.minis[k] == v.minis[k]
            &&& w.focus == Focus::Mini(v.minis.len() as usize)
            &&& w.focus_return == Focus::Sidebar
            &&& w.active_agent == v.active_agent && w.tree == v.tree
        }),
{
    reveal(AppView::on_key);
    let w = v.dismissed();
    assert(w.scroll_checked() == w);
    a_new_mini_comes_last(w, id);
}

/// After the prefix, on mini `i`: `x` closes it, `-` shrinks or restores it, Enter moves its agent
/// into the main area, and `z`, on anything, hides all of them.
pub proof fn minis_are_commanded(v: AppView, key: KeyEvent, i: usize)
    requires
        prefixed(v),
        v.focus == Focus::Mini(i),
        i < v.minis.len() <= usize::MAX,
        !key.modifiers.control,
    ensures
        ({
            let w = v.on_key(key).0;
            let id = v.minis[i as int];
            &&& key.code == KeyCode::Char('x') ==> {
                &&& w.minis.len() == v.minis.len() - 1
                &&& forall|k: int| 0 <= k < i ==> #[trigger] w.minis[k] == v.minis[k]
                &&& forall|k: int|
                    i <= k < w.minis.len() ==> #[trigger] w.minis[k] == v.minis[k + 1]
                &&& w.tree == v.tree
            }
            &&& key.code == KeyCode::Char('-') ==> {
                &&& w.minimized.contains(id) == !v.minimized.contains(id)
                &&& w.minis == v.minis && w.focus == v.focus && w.active_agent == v.active_agent
            }
            &&& key.code == KeyCode::Enter ==> {
                &&& w.active_agent == Some(id)
                &&& w.focus == Focus::Panes
                &&& !w.minis.contains(id)
            }
            &&& key.code == KeyCode::Char('z') ==> {
                &&& w.minis_hidden == !v.minis_hidden
                &&& w.minis == v.minis
            }
        }),
{
    the_prefix_takes_one_key(v, key);
    let a = spent(v);
    if key.code == KeyCode::Char('x') {
        closing_a_mini_takes_it_alone(a, i as int);
    } else if key.code == KeyCode::Char('-') {
        a_mini_is_minimized_and_restored(a, i as int);
    } else if key.code == KeyCode::Enter {
        an_opened_agent_is_active(a, v.minis[i as int]);
    } else if key.code == KeyCode::Char('z') {
        peeking_hides_the_minis(a);
    }
}

} // verus!
