//! Where the sidebar's cursor goes.

use vstd::prelude::*;
use vstd::arithmetic::div_mod::{lemma_mod_add_multiples_vanish, lemma_small_mod};
use crate::conduct::plain_mode;
use crate::ids::AgentId;
use crate::input::{KeyCode, KeyEvent};
use crate::roster::{
    clamp_int, is_unread, row_from, stop_from, stops, unread_above, unread_below, unread_row,
};
use crate::sidebar::{agent_order, each_agent_is_numbered_once, Row};
use crate::state::{id_from, AppView, Flow, Focus};
use crate::visits::{an_opened_agent_is_active, prefixed, spent, the_prefix_takes_one_key};
use crate::wire::AgentInfo;
use crate::workspace::roster_ids;

verus! {

// --- stops ---

/// Whether the cursor can be on a row: a repository, an agent, or an agent in the recent block.
pub open spec fn is_stop(row: Row) -> bool {
    match row {
        Row::Repo(_) => true,
        Row::Agent(_) => true,
        Row::Recent(_) => true,
        _ => false,
    }
}

/// How many of the rows from `a` to before `b` the cursor can be on.
pub open spec fn stops_in(rows: Seq<Row>, a: int, b: int) -> int
    decreases b - a,
{
    if b <= a {
        0
    } else {
        stops_in(rows, a, b - 1) + if is_stop(rows[b - 1]) {
            1int
        } else {
            0int
        }
    }
}

proof fn stops_add_up(rows: Seq<Row>, a: int, b: int, c: int)
    requires
        a <= b <= c,
    ensures
        stops_in(rows, a, c) == stops_in(rows, a, b) + stops_in(rows, b, c),
        0 <= stops_in(rows, a, b) <= b - a,
    decreases c - a,
{
    if a < b {
        stops_add_up(rows, a, b - 1, b - 1);
    }
    if b < c {
        stops_add_up(rows, a, b, c - 1);
    }
}

pub(crate) proof fn stops_are_ranked(rows: Seq<Row>, n: int)
    requires
        0 <= n <= rows.len() <= usize::MAX,
    ensures
        stops(rows, n).len() == stops_in(rows, 0, n),
        forall|k: int|
            0 <= k < stops(rows, n).len() ==> (#[trigger] stops(rows, n)[k]) < n && is_stop(
                rows[stops(rows, n)[k] as int],
            ) && stops_in(rows, 0, stops(rows, n)[k] as int) == k,
        forall|i: int|
            0 <= i < n && is_stop(#[trigger] rows[i]) ==> 0 <= stops_in(rows, 0, i) < stops(
                rows,
                n,
            ).len() && stops(rows, n)[stops_in(rows, 0, i)] == i,
    decreases n,
{
    if n > 0 {
        stops_are_ranked(rows, n - 1);
        let before = stops(rows, n - 1);
        let all = stops(rows, n);
        assert forall|i: int| 0 <= i < n && is_stop(#[trigger] rows[i]) implies 0 <= stops_in(
            rows,
            0,
            i,
        ) < all.len() && all[stops_in(rows, 0, i)] == i by {
            stops_add_up(rows, 0, i, i);
            if i < n - 1 {
                assert(before[stops_in(rows, 0, i)] == i);
            }
        }
        assert forall|k: int| 0 <= k < all.len() implies (#[trigger] all[k]) < n && is_stop(
            rows[all[k] as int],
        ) && stops_in(rows, 0, all[k] as int) == k by {
            if k < before.len() {
                assert(all[k] == before[k]);
            }
        }
    }
}

pub(crate) proof fn no_stop_above(rows: Seq<Row>, j: int)
    requires
        forall|m: int| 0 <= m < j ==> !is_stop(#[trigger] rows[m]),
    ensures
        stops_in(rows, 0, j) == 0,
    decreases j,
{
    if j > 0 {
        no_stop_above(rows, j - 1);
    }
}

proof fn the_stop_is_found(rows: Seq<Row>, i: int, k: int)
    requires
        rows.len() <= usize::MAX,
        0 <= i < rows.len(),
        is_stop(rows[i]),
        0 <= k <= stops_in(rows, 0, i),
    ensures
        stop_from(stops(rows, rows.len() as int), i, k) == Some(stops_in(rows, 0, i)),
    decreases stops_in(rows, 0, i) - k,
{
    let s = stops(rows, rows.len() as int);
    stops_are_ranked(rows, rows.len() as int);
    let r = stops_in(rows, 0, i);
    assert(is_stop(rows[i]));
    assert(r < s.len() && s[r] == i);
    if k < r {
        let j = s[k] as int;
        if j >= i {
            stops_add_up(rows, 0, i, j);
            stops_add_up(rows, i, j, j);
        }
        assert(s[k] < i);
        the_stop_is_found(rows, i, k + 1);
    }
}

proof fn the_row_is_found(rows: Seq<Row>, i: int, k: int)
    requires
        0 <= k <= i < rows.len(),
        forall|m: int| 0 <= m < i ==> #[trigger] rows[m] != rows[i],
    ensures
        row_from(rows, rows[i], k) == Some(i),
    decreases i - k,
{
    if k < i {
        the_row_is_found(rows, i, k + 1);
    }
}

/// Whether the cursor is on row `i`, the first of its kind.
pub open spec fn cursor_at(v: AppView, i: int) -> bool {
    &&& 0 <= i < v.rows().len() <= usize::MAX
    &&& v.sidebar_sel == Some(v.rows()[i])
    &&& is_stop(v.rows()[i])
    &&& forall|m: int| 0 <= m < i ==> #[trigger] v.rows()[m] != v.rows()[i]
}

proof fn the_stop_of_a_rank(rows: Seq<Row>, k: int) -> (j: int)
    requires
        rows.len() <= usize::MAX,
        0 <= k < stops(rows, rows.len() as int).len(),
    ensures
        0 <= j < rows.len(),
        j == stops(rows, rows.len() as int)[k],
        is_stop(rows[j]),
        stops_in(rows, 0, j) == k,
        stops_in(rows, 0, j + 1) == k + 1,
{
    stops_are_ranked(rows, rows.len() as int);
    stops(rows, rows.len() as int)[k] as int
}

proof fn the_rank_of_a_stop(rows: Seq<Row>, i: int)
    requires
        rows.len() <= usize::MAX,
        0 <= i < rows.len(),
        is_stop(rows[i]),
    ensures
        0 <= stops_in(rows, 0, i) < stops(rows, rows.len() as int).len(),
        stops_in(rows, 0, i + 1) == stops_in(rows, 0, i) + 1,
        stops(rows, rows.len() as int).len() == stops_in(rows, 0, rows.len() as int),
{
    stops_are_ranked(rows, rows.len() as int);
}

proof fn stops_passed(rows: Seq<Row>, i: int, j: int)
    requires
        0 <= i < rows.len(),
        0 <= j < rows.len(),
        stops_in(rows, 0, i + 1) == stops_in(rows, 0, i) + 1,
        stops_in(rows, 0, j + 1) == stops_in(rows, 0, j) + 1,
    ensures
        stops_in(rows, 0, i) <= stops_in(rows, 0, j) ==> i <= j && stops_in(rows, i + 1, j + 1)
            == stops_in(rows, 0, j) - stops_in(rows, 0, i),
        stops_in(rows, 0, j) <= stops_in(rows, 0, i) ==> j <= i && stops_in(rows, j, i) == stops_in(
            rows,
            0,
            i,
        ) - stops_in(rows, 0, j),
        stops_in(rows, i + 1, rows.len() as int) == stops_in(rows, 0, rows.len() as int) - stops_in(
            rows,
            0,
            i,
        ) - 1,
{
    stops_add_up(rows, 0, i + 1, rows.len() as int);
    if i < j {
        stops_add_up(rows, 0, i + 1, j);
        stops_add_up(rows, i + 1, j, j);
    }
    if j < i {
        stops_add_up(rows, 0, j + 1, i);
        stops_add_up(rows, j + 1, i, i);
    }
    if i <= j {
        stops_add_up(rows, 0, i + 1, j + 1);
    }
    if j <= i {
        stops_add_up(rows, 0, j, i);
    }
}

proof fn moving_places_the_cursor(v: AppView, delta: int, i: int)
    requires
        cursor_at(v, i),
    ensures
        ({
            let rows = v.rows();
            let s = stops(rows, rows.len() as int);
            let next = clamp_int(stops_in(rows, 0, i) + delta, 0, s.len() - 1);
            v.move_sidebar_sel(delta) == v.place_sidebar_sel(rows[s[next] as int])
        }),
{
    let rows = v.rows();
    the_row_is_found(rows, i, 0);
    the_rank_of_a_stop(rows, i);
    the_stop_is_found(rows, i, 0);
}

/// Moving the cursor by a number of stops passes as many rows that it can be on, down for a positive
/// number and up for a negative one, and stops at the first or the last where there are fewer. It
/// ends on a row that it can be on, and moves nothing else but the view.
pub proof fn the_cursor_moves_by_stops(v: AppView, delta: int, i: int) -> (j: int)
    requires
        cursor_at(v, i),
    ensures
        ({
            let rows = v.rows();
            let w = v.move_sidebar_sel(delta);
            &&& 0 <= j < rows.len() && is_stop(rows[j]) && w.sidebar_sel == Some(rows[j])
            &&& w == AppView {
                sidebar_sel: w.sidebar_sel,
                sidebar_placed: true,
                sidebar_top: w.sidebar_top,
                ..v
            }
            &&& delta >= 0 ==> i <= j && stops_in(rows, i + 1, j + 1) == if delta <= stops_in(
                rows,
                i + 1,
                rows.len() as int,
            ) {
                delta
            } else {
                stops_in(rows, i + 1, rows.len() as int)
            }
            &&& delta <= 0 ==> j <= i && stops_in(rows, j, i) == if -delta <= stops_in(rows, 0, i) {
                -delta
            } else {
                stops_in(rows, 0, i)
            }
        }),
{
    let rows = v.rows();
    let n = rows.len() as int;
    let s = stops(rows, n);
    the_rank_of_a_stop(rows, i);
    let here = stops_in(rows, 0, i);
    let next = clamp_int(here + delta, 0, s.len() - 1);
    let j = the_stop_of_a_rank(rows, next);
    stops_passed(rows, i, j);
    moving_places_the_cursor(v, delta, i);
    j
}

/// The number of stops that a key of the sidebar moves the cursor by, down when positive.
pub open spec fn cursor_step(v: AppView, key: KeyEvent) -> Option<int> {
    let half = if v.page() < 2 {
        1
    } else {
        v.page() / 2
    };
    match key.code {
        KeyCode::Down => Some(1int),
        KeyCode::Up => Some(-1),
        KeyCode::PageDown => Some(v.page()),
        KeyCode::PageUp => Some(-v.page()),
        KeyCode::Char(c) => if c == 'j' && !key.modifiers.control {
            Some(1int)
        } else if c == 'k' && !key.modifiers.control {
            Some(-1)
        } else if c == 'd' && key.modifiers.control {
            Some(half)
        } else if c == 'u' && key.modifiers.control {
            Some(-half)
        } else if c == 'g' && !key.modifiers.control {
            Some(-0x8000_0000)
        } else if c == 'G' && !key.modifiers.control {
            Some(0x7fff_ffff)
        } else {
            None
        },
        _ => None,
    }
}

/// `j` and the down arrow go one stop down, `k` and the up arrow one up; the page keys go by as many
/// as the sidebar shows rows, Ctrl+D and Ctrl+U by half of that; `g` and `G` go to the ends.
pub proof fn cursor_keys_move_by_their_step(v: AppView, key: KeyEvent)
    requires
        plain_mode(v),
        v.focus == Focus::Sidebar,
        cursor_step(v, key) is Some,
    ensures
        ({
            let (w, flow) = v.on_key(key);
            let m = v.move_sidebar_sel(cursor_step(v, key)->0);
            &&& flow == Flow::Continue
            &&& w.sidebar_sel == m.sidebar_sel && w.sidebar_top == m.sidebar_top
            &&& w.focus == Focus::Sidebar && w.out == v.out && w.tree == v.tree
            &&& w.active_agent == v.active_agent && w.minis == v.minis
        }),
{
    reveal(AppView::on_key);
    let w = v.dismissed();
    assert(w.scroll_checked() == w);
    assert(w.rows() == v.rows());
}

/// The page is the height of the sidebar within its border.
pub proof fn a_page_is_what_the_sidebar_shows(v: AppView)
    ensures
        v.area.height > 2 ==> v.page() == v.area.height - 2,
        v.area.height <= 2 ==> v.page() == 1,
{
}

// --- unread agents ---

proof fn nearest_below(agents: Seq<AgentInfo>, here: Option<AgentId>, rows: Seq<Row>, i: int)
    requires
        0 <= i,
    ensures
        unread_below(agents, here, rows, i) matches Some(k) ==> {
            &&& i <= k < rows.len() && unread_row(agents, here, rows[k])
            &&& forall|m: int| i <= m < k ==> !unread_row(agents, here, #[trigger] rows[m])
        },
        unread_below(agents, here, rows, i) is None ==> forall|m: int|
            i <= m < rows.len() ==> !unread_row(agents, here, #[trigger] rows[m]),
    decreases rows.len() - i,
{
    if i < rows.len() && !unread_row(agents, here, rows[i]) {
        nearest_below(agents, here, rows, i + 1);
    }
}

proof fn nearest_above(agents: Seq<AgentInfo>, here: Option<AgentId>, rows: Seq<Row>, i: int)
    requires
        i <= rows.len(),
    ensures
        unread_above(agents, here, rows, i) matches Some(k) ==> {
            &&& 0 <= k < i && unread_row(agents, here, rows[k])
            &&& forall|m: int| k < m < i ==> !unread_row(agents, here, #[trigger] rows[m])
        },
        unread_above(agents, here, rows, i) is None ==> forall|m: int|
            0 <= m < i ==> !unread_row(agents, here, #[trigger] rows[m]),
    decreases i,
{
    if i > 0 && !unread_row(agents, here, rows[i - 1]) {
        nearest_above(agents, here, rows, i - 1);
    }
}

/// Whether row `m` is for an unread agent that the cursor is not on.
pub open spec fn calls(v: AppView, m: int) -> bool {
    match v.rows()[m] {
        Row::Agent(id) => v.sidebar_sel != Some(Row::Agent(id)) && v.sidebar_sel != Some(
            Row::Recent(id),
        ) && exists|k: int|
            0 <= k < v.agents.len() && (#[trigger] v.agents[k]).id == id && v.agents[k].unread,
        Row::Recent(id) => v.sidebar_sel != Some(Row::Agent(id)) && v.sidebar_sel != Some(
            Row::Recent(id),
        ) && exists|k: int|
            0 <= k < v.agents.len() && (#[trigger] v.agents[k]).id == id && v.agents[k].unread,
        _ => false,
    }
}

proof fn calling_is_unread(v: AppView, m: int)
    requires
        0 <= m < v.rows().len(),
    ensures
        calls(v, m) == unread_row(v.agents, v.selected_agent(), v.rows()[m]),
{
}

/// In the sidebar Ctrl+J goes to the nearest unread agent below the cursor, Ctrl+K to the nearest
/// above it, past none; where there is none that way the cursor stays. Nothing is opened.
pub proof fn the_cursor_jumps_to_the_nearest_unread(v: AppView, key: KeyEvent, i: int, m: int)
    requires
        plain_mode(v),
        v.focus == Focus::Sidebar,
        cursor_at(v, i),
        key.modifiers.control,
        key.code == KeyCode::Char('j') || key.code == KeyCode::Char('k'),
        0 <= m < v.rows().len(),
    ensures
        ({
            let w = v.on_key(key).0;
            let down = key.code == KeyCode::Char('j');
            let rows = v.rows();
            &&& w.focus == Focus::Sidebar && w.tree == v.tree && w.out == v.out
            &&& w.active_agent == v.active_agent && w.minis == v.minis
            &&& w.sidebar_sel == v.sidebar_sel || exists|j: int|
                0 <= j < rows.len() && #[trigger] calls(v, j) && w.sidebar_sel == Some(rows[j]) && (
                if down {
                    i < j && (i < m < j ==> !calls(v, m))
                } else {
                    j < i && (j < m < i ==> !calls(v, m))
                })
            &&& down && i < m && calls(v, m) ==> w.sidebar_sel != v.sidebar_sel
            &&& !down && m < i && calls(v, m) ==> w.sidebar_sel != v.sidebar_sel
        }),
{
    reveal(AppView::on_key);
    let w = v.dismissed();
    assert(w.scroll_checked() == w);
    let rows = v.rows();
    assert(w.rows() == rows);
    the_row_is_found(rows, i, 0);
    let here = v.selected_agent();
    let down = key.code == KeyCode::Char('j');
    nearest_below(v.agents, here, rows, i + 1);
    nearest_above(v.agents, here, rows, i);
    calling_is_unread(v, m);
    if let Some(j) = w.unread_target(down) {
        calling_is_unread(v, j);
        assert(calls(v, j));
    }
}

// --- the next unread agent ---

/// The place `x` steps after `start` in a ring of `n`.
pub open spec fn on_the_ring(start: int, x: int, n: int) -> int {
    if start + x < n {
        start + x
    } else {
        start + x - n
    }
}

proof fn ring_is_modulo(start: int, x: int, n: int)
    requires
        0 <= start <= n,
        0 <= x < n,
    ensures
        (start + x) % n == on_the_ring(start, x, n),
        0 <= on_the_ring(start, x, n) < n,
{
    if start + x < n {
        lemma_small_mod((start + x) as nat, n as nat);
    } else {
        lemma_mod_add_multiples_vanish(start + x - n, n);
        lemma_small_mod((start + x - n) as nat, n as nat);
    }
}

proof fn rounds_find_the_first(v: AppView, order: Seq<AgentId>, start: int, k: int)
    requires
        0 <= start <= order.len(),
        0 <= k <= order.len(),
    ensures
        v.unread_round(order, start, k) matches Some(id) ==> exists|m: int|
            k <= m < order.len() && order[#[trigger] on_the_ring(start, m, order.len() as int)] == id
                && is_unread(v.agents, id) && forall|x: int|
                k <= x < m ==> !is_unread(
                    v.agents,
                    order[#[trigger] on_the_ring(start, x, order.len() as int)],
                ),
        v.unread_round(order, start, k) is None ==> forall|x: int|
            k <= x < order.len() ==> !is_unread(
                v.agents,
                order[#[trigger] on_the_ring(start, x, order.len() as int)],
            ),
    decreases order.len() - k,
{
    let n = order.len() as int;
    if k < order.len() {
        ring_is_modulo(start, k, n);
        let id = order[on_the_ring(start, k, n)];
        if !is_unread(v.agents, id) {
            rounds_find_the_first(v, order, start, k + 1);
            if let Some(found) = v.unread_round(order, start, k + 1) {
                let m = choose|m: int|
                    k + 1 <= m < order.len() && order[#[trigger] on_the_ring(start, m, n)] == found
                        && is_unread(v.agents, found) && forall|x: int|
                        k + 1 <= x < m ==> !is_unread(
                            v.agents,
                            order[#[trigger] on_the_ring(start, x, n)],
                        );
                assert(order[on_the_ring(start, m, n)] == found);
                assert forall|x: int| k <= x < m implies !is_unread(
                    v.agents,
                    order[#[trigger] on_the_ring(start, x, n)],
                ) by {}
            }
        } else {
            assert(order[on_the_ring(start, k, n)] == id);
        }
    }
}

proof fn id_is_found(ids: Seq<AgentId>, id: AgentId, i: int, k: int)
    requires
        0 <= i <= k < ids.len(),
        ids[k] == id,
        forall|m: int| 0 <= m < k ==> #[trigger] ids[m] != id,
    ensures
        id_from(ids, id, i) == Some(k),
    decreases k - i,
{
    if i < k {
        id_is_found(ids, id, i + 1, k);
    }
}

/// After the prefix, Tab opens the unread agent that comes next after the cursor's in the roster:
/// the first below it, or, where none is below, the first from the top. Where no agent of the roster
/// is unread it opens nothing and says so.
pub proof fn tab_opens_the_next_unread(v: AppView, key: KeyEvent, c: int) -> (m: int)
    requires
        prefixed(v),
        key.code == KeyCode::Tab,
        ({
            let order = roster_ids(v.rows(), v.rows().len() as int);
            &&& 0 <= c < order.len()
            &&& v.sidebar_sel == Some(Row::Agent(order[c]))
            &&& forall|x: int| 0 <= x < c ==> #[trigger] order[x] != order[c]
        }),
    ensures
        ({
            let order = roster_ids(v.rows(), v.rows().len() as int);
            let n = order.len() as int;
            let w = v.on_key(key).0;
            &&& (forall|x: int| 0 <= x < n ==> !is_unread(v.agents, #[trigger] order[x])) ==> {
                &&& w.active_agent == v.active_agent && w.tree == v.tree && w.focus == v.focus
                &&& w.info == "no unread agents"@
            }
            &&& (exists|x: int| 0 <= x < n && is_unread(v.agents, #[trigger] order[x])) ==> {
                &&& 0 <= m < n && is_unread(v.agents, order[m])
                &&& w.active_agent == Some(order[m]) && w.focus == Focus::Panes
                &&& w.sidebar_sel == Some(Row::Agent(order[m]))
                &&& m > c ==> forall|x: int|
                    c < x < m ==> !is_unread(v.agents, #[trigger] order[x])
                &&& m <= c ==> forall|x: int|
                    (c < x < n || 0 <= x < m) ==> !is_unread(v.agents, #[trigger] order[x])
            }
        }),
{
    let a = spent(v);
    the_prefix_takes_one_key(v, key);
    assert(a.rows() == v.rows());
    let order = roster_ids(v.rows(), v.rows().len() as int);
    let n = order.len() as int;
    id_is_found(order, order[c], 0, c);
    let start = c + 1;
    rounds_find_the_first(a, order, start, 0);
    match a.unread_round(order, start, 0) {
        Some(id) => {
            let k = choose|k: int|
                0 <= k < order.len() && order[#[trigger] on_the_ring(start, k, n)] == id
                    && is_unread(v.agents, id) && forall|x: int|
                    0 <= x < k ==> !is_unread(v.agents, order[#[trigger] on_the_ring(start, x, n)]);
            let m = on_the_ring(start, k, n);
            an_opened_agent_is_active(a.place_sidebar_sel(Row::Agent(id)), id);
            if m > c {
                assert forall|x: int| c < x < m implies !is_unread(v.agents, #[trigger] order[x]) by {
                    assert(on_the_ring(start, x - start, n) == x);
                }
            } else {
                assert forall|x: int| (c < x < n || 0 <= x < m) implies !is_unread(
                    v.agents,
                    #[trigger] order[x],
                ) by {
                    if x > c {
                        assert(on_the_ring(start, x - start, n) == x);
                    } else {
                        assert(on_the_ring(start, x + n - start, n) == x);
                    }
                }
            }
            m
        },
        None => {
            assert forall|x: int| 0 <= x < n implies !is_unread(v.agents, #[trigger] order[x]) by {
                if x > c {
                    assert(on_the_ring(start, x - start, n) == x);
                } else {
                    assert(on_the_ring(start, x + n - start, n) == x);
                }
            }
            0
        },
    }
}

/// The roster's agents are those that stand under their repositories, in the order of their rows.
pub proof fn the_roster_follows_the_rows(rows: Seq<Row>, n: int, p: int) -> (k: int)
    requires
        0 <= p < n <= rows.len(),
        rows[p] is Agent,
    ensures
        0 <= k < roster_ids(rows, n).len(),
        rows[p] == Row::Agent(roster_ids(rows, n)[k]),
        k == roster_ids(rows, p).len(),
    decreases n,
{
    if p == n - 1 {
        roster_ids(rows, p).len() as int
    } else {
        the_roster_follows_the_rows(rows, n - 1, p)
    }
}

/// Each of them has a row of its own under its repository: a row of the recent block makes no agent of
/// the roster.
pub proof fn the_roster_is_in_the_rows(rows: Seq<Row>, n: int, k: int) -> (p: int)
    requires
        0 <= n <= rows.len(),
        0 <= k < roster_ids(rows, n).len(),
    ensures
        0 <= p < n,
        rows[p] == Row::Agent(roster_ids(rows, n)[k]),
    decreases n,
{
    if rows[n - 1] is Agent && k == roster_ids(rows, n - 1).len() {
        n - 1
    } else {
        the_roster_is_in_the_rows(rows, n - 1, k)
    }
}

// --- numbers ---

proof fn numbered_agents_have_rows(rows: Seq<Row>, i: int) -> (p: int)
    requires
        0 <= i < agent_order(rows).len(),
    ensures
        0 <= p < rows.len(),
        rows[p].agent() == Some(agent_order(rows)[i]),
    decreases rows.len(),
{
    let before = agent_order(rows.drop_last());
    if i < before.len() {
        let p = numbered_agents_have_rows(rows.drop_last(), i);
        p
    } else {
        rows.len() - 1
    }
}

/// Agents are numbered in the order of their first rows: above every row of one stands a row of each
/// that has a smaller number.
pub proof fn numbers_follow_the_rows(rows: Seq<Row>, i: int, j: int, q: int) -> (p: int)
    requires
        0 <= i < j < agent_order(rows).len(),
        0 <= q < rows.len(),
        rows[q].agent() == Some(agent_order(rows)[j]),
    ensures
        0 <= p < q,
        rows[p].agent() == Some(agent_order(rows)[i]),
    decreases rows.len(),
{
    let front = rows.drop_last();
    let before = agent_order(front);
    let all = agent_order(rows);
    each_agent_is_numbered_once(rows);
    each_agent_is_numbered_once(front);
    if q < rows.len() - 1 {
        assert(front[q].agent() == Some(all[j]));
        assert(before.contains(all[j]));
        let k = choose|k: int| 0 <= k < before.len() && before[k] == all[j];
        assert(all[k] == all[j]);
        assert(k == j);
        numbers_follow_the_rows(front, i, j, q)
    } else if before.contains(all[j]) {
        let k = choose|k: int| 0 <= k < before.len() && before[k] == all[j];
        assert(all[k] == all[j]);
        assert(k == j);
        let q2 = numbered_agents_have_rows(front, j);
        numbers_follow_the_rows(front, i, j, q2)
    } else {
        numbered_agents_have_rows(front, i)
    }
}

/// The digits count from `1`; `0` comes after `9`.
pub proof fn digits_count_from_one(v: AppView, k: int)
    requires
        0 <= k < 10,
        k < agent_order(v.rows()).len(),
    ensures
        k < 9 ==> v.numbered_agent((49 + k) as char) == Some(agent_order(v.rows())[k]),
        k == 9 ==> v.numbered_agent('0') == Some(agent_order(v.rows())[k]),
{
}

} // verus!
