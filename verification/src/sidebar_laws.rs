//! What holds of the sidebar whatever it lists.

use vstd::prelude::*;
use crate::geometry::{minus, Rect};
use crate::ids::{AgentId, RepoId};
use crate::order::{
    inserted, places, sorted, sorted_is_in_order, sorted_rearranges, weak_order, Before,
};
use crate::render::recent_row_count;
use crate::roster::sel_place;
use crate::sidebar::{
    agent_order, agent_rows, blocked, digits_match_labels, group_rows, groups, members,
    recent_before, recent_order, recent_rows, recents, repo_before, repo_order, roster,
    roster_before, scrolled_view_shows_the_row, window_count, RECENT_MAX, RECENT_MIN, Row,
    SIDEBAR_W_FULL,
};
use crate::state::{id_from, AppView};
use crate::time::{is_recent, Moment};
use crate::wire::{AgentInfo, RepoInfo};

verus! {

// --- the recent block ---

pub(crate) proof fn recency_is_an_order(agents: Seq<AgentInfo>)
    ensures
        weak_order(recent_before(agents)),
{
    let f = recent_before(agents);
    assert forall|a: usize, b: usize, c: usize|
        #[trigger] f(a, b) && #[trigger] f(b, c) implies f(a, c) by {}
    assert forall|a: usize, b: usize| !(#[trigger] f(a, b) && f(b, a)) by {}
    assert forall|a: usize, b: usize, c: usize|
        !#[trigger] f(a, b) && !#[trigger] f(b, c) implies !f(a, c) by {}
}

/// The recent block lists the agents opened last: none that it leaves out was opened after one that
/// it lists.
pub proof fn recents_are_the_newest(agents: Seq<AgentInfo>, now: Moment, i: int, j: int)
    requires
        agents.len() <= usize::MAX,
        0 <= i < recents(agents, now).len(),
        i < j < agents.len(),
    ensures
        recent_order(agents).len() == agents.len(),
        recents(agents, now)[i] == agents[recent_order(agents)[i] as int].id,
        agents[recent_order(agents)[j] as int].last_opened.at() <= agents[recent_order(
            agents,
        )[i] as int].last_opened.at(),
{
    let f = recent_before(agents);
    recency_is_an_order(agents);
    sorted_is_in_order(f, places(agents.len()));
    sorted_rearranges(f, places(agents.len()));
    let s = recent_order(agents);
    assert(!f(s[j], s[i]));
}

/// How many of the first `n` places of `s` were opened within the window.
spec fn window_places(agents: Seq<AgentInfo>, now: Moment, s: Seq<usize>) -> nat
    decreases s.len(),
{
    if s.len() == 0 {
        0
    } else {
        window_places(agents, now, s.drop_last()) + if is_recent(
            now,
            agents[s.last() as int].last_opened,
        ) {
            1nat
        } else {
            0nat
        }
    }
}

proof fn window_of_inserted(
    agents: Seq<AgentInfo>,
    now: Moment,
    f: Before,
    s: Seq<usize>,
    x: usize,
)
    ensures
        window_places(agents, now, inserted(f, s, x)) == window_places(agents, now, s.push(x)),
    decreases s.len(),
{
    let t = inserted(f, s, x);
    assert(s.push(x).drop_last() =~= s);
    if s.len() > 0 && f(x, s.last()) {
        let front = s.drop_last();
        window_of_inserted(agents, now, f, front, x);
        let g = inserted(f, front, x);
        assert(t == g.push(s.last()));
        assert(t.drop_last() =~= g);
        assert(t.last() == s.last());
        assert(front.push(x).drop_last() =~= front);
        assert(front.push(x).last() == x);
        assert(s.push(x).last() == x);
        reveal_with_fuel(window_places, 2);
        assert(window_places(agents, now, t) == window_places(agents, now, g) + (if is_recent(
            now,
            agents[s.last() as int].last_opened,
        ) {
            1nat
        } else {
            0nat
        }));
    }
}

proof fn window_of_sorted(agents: Seq<AgentInfo>, now: Moment, f: Before, s: Seq<usize>)
    ensures
        window_places(agents, now, sorted(f, s)) == window_places(agents, now, s),
    decreases s.len(),
{
    if s.len() > 0 {
        let front = s.drop_last();
        window_of_sorted(agents, now, f, front);
        window_of_inserted(agents, now, f, sorted(f, front), s.last());
        assert(sorted(f, front).push(s.last()).drop_last() =~= sorted(f, front));
    }
}

proof fn window_of_places(agents: Seq<AgentInfo>, now: Moment, n: nat)
    requires
        n <= agents.len() <= usize::MAX,
    ensures
        window_places(agents, now, places(n)) == window_count(agents, now, n as int),
    decreases n,
{
    if n > 0 {
        window_of_places(agents, now, (n - 1) as nat);
        assert(places(n).drop_last() =~= places((n - 1) as nat));
    }
}

proof fn window_of_prefix(agents: Seq<AgentInfo>, now: Moment, s: Seq<usize>, k: int)
    requires
        0 <= k <= s.len(),
        forall|i: int| 0 <= i < k ==> is_recent(now, agents[(#[trigger] s[i]) as int].last_opened),
    ensures
        window_places(agents, now, s) >= k,
    decreases s.len(),
{
    if s.len() > 0 {
        let front = s.drop_last();
        if k == s.len() {
            assert(s[k - 1] == s.last());
            window_of_prefix(agents, now, front, k - 1);
        } else {
            window_of_prefix(agents, now, front, k);
        }
    }
}

/// Everything opened within the window is in the recent block, unless more were than it can hold.
pub proof fn recents_cover_the_window(agents: Seq<AgentInfo>, now: Moment, j: int)
    requires
        agents.len() <= usize::MAX,
        0 <= j < agents.len(),
        is_recent(now, agents[recent_order(agents)[j] as int].last_opened),
        window_count(agents, now, agents.len() as int) <= RECENT_MAX,
    ensures
        j < recents(agents, now).len(),
{
    let f = recent_before(agents);
    let all = places(agents.len());
    recency_is_an_order(agents);
    sorted_is_in_order(f, all);
    sorted_rearranges(f, all);
    let s = recent_order(agents);
    assert forall|i: int| 0 <= i < j + 1 implies is_recent(
        now,
        agents[(#[trigger] s[i]) as int].last_opened,
    ) by {
        if i < j {
            assert(!f(s[j], s[i]));
        }
    }
    window_of_prefix(agents, now, s, j + 1);
    window_of_sorted(agents, now, f, all);
    window_of_places(agents, now, agents.len());
}

/// The recent block never holds more than its cap, nor fewer than its floor while there are as many
/// agents.
pub proof fn recents_have_bounds(agents: Seq<AgentInfo>, now: Moment)
    ensures
        recents(agents, now).len() <= RECENT_MAX,
        recents(agents, now).len() <= agents.len(),
        agents.len() >= RECENT_MIN ==> recents(agents, now).len() >= RECENT_MIN,
{
}

// --- the roster ---

proof fn rank_is_an_order(agents: Seq<AgentInfo>)
    ensures
        weak_order(roster_before(agents)),
{
    let f = roster_before(agents);
    assert forall|a: usize, b: usize, c: usize|
        #[trigger] f(a, b) && #[trigger] f(b, c) implies f(a, c) by {}
    assert forall|a: usize, b: usize| !(#[trigger] f(a, b) && f(b, a)) by {}
    assert forall|a: usize, b: usize, c: usize|
        !#[trigger] f(a, b) && !#[trigger] f(b, c) implies !f(a, c) by {}
}

/// Under each repository, no agent that goes about its work stands above one that waits, and among
/// those alike none stands above one opened later.
pub proof fn waiting_agents_come_first(agents: Seq<AgentInfo>, repo: RepoId, i: int, j: int)
    requires
        ({
            let all = members(agents, repo, agents.len() as int);
            0 <= i < j < all.len()
        }),
    ensures
        ({
            let order = sorted(
                roster_before(agents),
                members(agents, repo, agents.len() as int),
            );
            let (a, b) = (agents[order[i] as int], agents[order[j] as int]);
            &&& roster(agents, repo)[i] == a.id
            &&& roster(agents, repo)[j] == b.id
            &&& blocked(b) ==> blocked(a)
            &&& blocked(a) == blocked(b) ==> a.last_opened.at() >= b.last_opened.at()
        }),
{
    let f = roster_before(agents);
    let all = members(agents, repo, agents.len() as int);
    rank_is_an_order(agents);
    sorted_is_in_order(f, all);
    sorted_rearranges(f, all);
    let s = sorted(f, all);
    assert(!f(s[j], s[i]));
}

proof fn members_hold(agents: Seq<AgentInfo>, repo: RepoId, n: int, i: int)
    requires
        0 <= i < n <= agents.len() <= usize::MAX,
        agents[i].repo == repo,
    ensures
        members(agents, repo, n).contains(i as usize),
    decreases n,
{
    let all = members(agents, repo, n);
    if i == n - 1 {
        assert(all[all.len() - 1] == i as usize);
    } else {
        members_hold(agents, repo, n - 1, i);
        let before = members(agents, repo, n - 1);
        let k = choose|k: int| 0 <= k < before.len() && before[k] == i as usize;
        assert(all[k] == i as usize);
    }
}

proof fn agent_rows_hold(agents: Seq<AgentInfo>, ids: Seq<AgentId>, minimized: bool, n: int, k: int)
    requires
        0 <= k < n <= ids.len(),
    ensures
        agent_rows(agents, ids, minimized, n).contains(Row::Agent(ids[k])),
    decreases n,
{
    let all = agent_rows(agents, ids, minimized, n);
    let before = agent_rows(agents, ids, minimized, n - 1);
    if k == n - 1 {
        assert(all[before.len() as int] == Row::Agent(ids[k]));
    } else {
        agent_rows_hold(agents, ids, minimized, n - 1, k);
        let m = choose|m: int| 0 <= m < before.len() && before[m] == Row::Agent(ids[k]);
        assert(all[m] == Row::Agent(ids[k]));
    }
}

proof fn groups_hold(
    repos: Seq<RepoInfo>,
    agents: Seq<AgentInfo>,
    minimized: bool,
    n: int,
    k: int,
    row: Row,
)
    requires
        0 <= k < n <= repos.len(),
        group_rows(agents, repos[repo_order(repos)[k] as int].id, minimized).contains(row),
    ensures
        groups(repos, agents, minimized, n).contains(row),
    decreases n,
{
    let all = groups(repos, agents, minimized, n);
    let before = groups(repos, agents, minimized, n - 1);
    let own = group_rows(agents, repos[repo_order(repos)[n - 1] as int].id, minimized);
    if k == n - 1 {
        let m = choose|m: int| 0 <= m < own.len() && own[m] == row;
        assert(all[before.len() + m] == row);
    } else {
        groups_hold(repos, agents, minimized, n - 1, k, row);
        let m = choose|m: int| 0 <= m < before.len() && before[m] == row;
        assert(all[m] == row);
    }
}

/// Every agent of a listed repository has a row under it, and every listed repository a header.
pub proof fn every_agent_has_a_row(v: AppView, i: int, r: int)
    requires
        v.agents.len() <= usize::MAX,
        v.repos.len() <= usize::MAX,
        0 <= i < v.agents.len(),
        0 <= r < v.repos.len(),
        v.agents[i].repo == v.repos[r].id,
    ensures
        v.rows().contains(Row::Repo(v.repos[r].id)),
        v.rows().contains(Row::Agent(v.agents[i].id)),
{
    let minimized = v.rail();
    let repo = v.repos[r].id;
    let all = members(v.agents, repo, v.agents.len() as int);
    members_hold(v.agents, repo, v.agents.len() as int, i);
    sorted_rearranges(roster_before(v.agents), all);
    let order = sorted(roster_before(v.agents), all);
    assert(order.contains(i as usize));
    let k = choose|k: int| 0 <= k < order.len() && order[k] == i as usize;
    let ids = roster(v.agents, repo);
    assert(ids[k] == v.agents[i].id);
    agent_rows_hold(v.agents, ids, minimized, ids.len() as int, k);
    let inner = agent_rows(v.agents, ids, minimized, ids.len() as int);
    let own = group_rows(v.agents, repo, minimized);
    let m = choose|m: int| 0 <= m < inner.len() && inner[m] == Row::Agent(v.agents[i].id);
    assert(own[m + 1] == Row::Agent(v.agents[i].id));
    assert(own[0] == Row::Repo(repo));
    sorted_rearranges(repo_before(v.repos), places(v.repos.len()));
    assert(places(v.repos.len())[r] == r as usize);
    assert(places(v.repos.len()).contains(r as usize));
    assert(repo_order(v.repos).contains(r as usize));
    let q = choose|q: int| 0 <= q < repo_order(v.repos).len() && repo_order(v.repos)[q] == r as usize;
    let n = v.repos.len() as int;
    groups_hold(v.repos, v.agents, minimized, n, q, Row::Agent(v.agents[i].id));
    groups_hold(v.repos, v.agents, minimized, n, q, Row::Repo(repo));
    let block = recent_rows(v.repos, v.agents, v.now, v.page(), minimized);
    let g = groups(v.repos, v.agents, minimized, n);
    let x = choose|x: int| 0 <= x < g.len() && g[x] == Row::Agent(v.agents[i].id);
    assert(v.rows()[block.len() + x] == Row::Agent(v.agents[i].id));
    let y = choose|y: int| 0 <= y < g.len() && g[y] == Row::Repo(repo);
    assert(v.rows()[block.len() + y] == Row::Repo(repo));
}

// --- numbers ---

proof fn id_from_is_one(ids: Seq<AgentId>, id: AgentId, i: int)
    requires
        0 <= i,
    ensures
        id_from(ids, id, i) matches Some(k) ==> i <= k < ids.len() && ids[k] == id,
    decreases ids.len() - i,
{
    if i < ids.len() && ids[i] != id {
        id_from_is_one(ids, id, i + 1);
    }
}

/// The digit that covers an agent's glyph is the digit that opens it.
pub proof fn the_digit_shown_is_the_digit_to_press(v: AppView, id: AgentId, d: char)
    requires
        v.overlay_for(id) == Some(d),
        d != '-',
    ensures
        v.numbered_agent(d) == Some(id),
{
    let ids = agent_order(v.rows());
    id_from_is_one(ids, id, 0);
    let i = id_from(ids, id, 0)->0;
    digits_match_labels(i, d);
}

// --- drawing ---

/// One line is drawn for each row in view, and as many as there is room for.
pub proof fn one_line_for_each_row(v: AppView, area: Rect, k: int)
    requires
        0 <= k < v.sidebar_lines(area).len(),
    ensures
        ({
            let minimized = area.width < SIDEBAR_W_FULL;
            let height = minus(area.height, 2) as int;
            let rows = v.rows_for(minimized);
            let top = v.drawn_top(minimized, height);
            &&& 0 <= top + k < rows.len()
            &&& v.sidebar_lines(area)[k] == v.row_line(
                rows[top + k],
                recent_row_count(rows, rows.len() as int),
                minus(area.width, 2) as int,
                minimized,
            )
            &&& height >= 1 && rows.len() >= height ==> v.sidebar_lines(area).len() == height
            &&& rows.len() < height ==> v.sidebar_lines(area).len() == rows.len()
        }),
{
}

/// Wherever the cursor was moved to, its row is drawn.
pub proof fn the_cursor_is_drawn(v: AppView, area: Rect, i: int)
    requires
        area.height == v.area.height,
        area.height >= 3,
        (area.width < SIDEBAR_W_FULL) == v.rail(),
        sel_place(v.rows(), v.sidebar_sel) == Some(i),
        v.rows().len() <= usize::MAX,
        0 <= i < v.rows().len(),
    ensures
        ({
            let w = v.scroll_sel_into_view();
            let minimized = v.rail();
            let height = minus(area.height, 2) as int;
            let top = w.drawn_top(minimized, height);
            top <= i < top + w.sidebar_lines(area).len()
        }),
{
    scrolled_view_shows_the_row(
        v.sidebar_top as int,
        i,
        v.rows().len() as int,
        v.page(),
    );
}

} // verus!
