//! How the sidebar's list is put together.

use vstd::prelude::*;
use crate::ids::{AgentId, RepoId};
use crate::order::{places, sorted, sorted_is_in_order, sorted_rearranges, weak_order};
use crate::sidebar::{
    agent_rows, group_rows, groups, has_agents, members, message_for, peopled, recent_rows, recents,
    repo_before, repo_order, roster, roster_before, text_before, Row,
};
use crate::sidebar_laws::waiting_agents_come_first;
use crate::state::AppView;
use crate::wire::{AgentInfo, RepoInfo};

verus! {

// --- repositories ---

/// Whether `a` and `b` are alike before place `k`.
pub open spec fn alike_before(a: Seq<char>, b: Seq<char>, k: int) -> bool {
    &&& 0 <= k <= a.len() && k <= b.len()
    &&& forall|i: int| 0 <= i < k ==> #[trigger] a[i] == b[i]
}

/// Names are ordered by the first character in which they differ, and a name comes before those that
/// go on from it.
pub proof fn names_differ_in_one_place_first(a: Seq<char>, b: Seq<char>, k: int)
    requires
        alike_before(a, b, k),
    ensures
        k < a.len() && k < b.len() && a[k] != b[k] ==> (text_before(a, b) <==> a[k] < b[k]),
        k == a.len() && k < b.len() ==> text_before(a, b) && !text_before(b, a),
        k == a.len() && k == b.len() ==> !text_before(a, b),
    decreases a.len(),
{
    if k > 0 {
        assert(a[0] == b[0]);
        let (x, y) = (a.drop_first(), b.drop_first());
        assert forall|i: int| 0 <= i < k - 1 implies #[trigger] x[i] == y[i] by {
            assert(a[i + 1] == b[i + 1]);
        }
        names_differ_in_one_place_first(x, y, k - 1);
    }
}

proof fn names_are_ordered(a: Seq<char>, b: Seq<char>, c: Seq<char>)
    ensures
        text_before(a, b) && text_before(b, c) ==> text_before(a, c),
        !(text_before(a, b) && text_before(b, a)),
        text_before(a, b) || text_before(b, a) || a == b,
    decreases a.len(),
{
    if a.len() > 0 && b.len() > 0 {
        if c.len() > 0 {
            names_are_ordered(a.drop_first(), b.drop_first(), c.drop_first());
        } else {
            names_are_ordered(a.drop_first(), b.drop_first(), c);
        }
        if a[0] == b[0] && a.drop_first() == b.drop_first() {
            assert(a =~= seq![a[0]] + a.drop_first());
            assert(b =~= seq![b[0]] + b.drop_first());
        }
    } else if a.len() == 0 && b.len() == 0 {
        assert(a =~= b);
    }
}

proof fn repositories_are_ordered(repos: Seq<RepoInfo>)
    ensures
        weak_order(repo_before(repos)),
{
    let f = repo_before(repos);
    assert forall|a: usize, b: usize, c: usize|
        #[trigger] f(a, b) && #[trigger] f(b, c) implies f(a, c) by {
        names_are_ordered(
            repos[a as int].name@,
            repos[b as int].name@,
            repos[c as int].name@,
        );
    }
    assert forall|a: usize, b: usize| !(#[trigger] f(a, b) && f(b, a)) by {
        names_are_ordered(
            repos[a as int].name@,
            repos[b as int].name@,
            repos[a as int].name@,
        );
    }
    assert forall|a: usize, b: usize, c: usize|
        !#[trigger] f(a, b) && !#[trigger] f(b, c) implies !f(a, c) by {
        names_are_ordered(
            repos[c as int].name@,
            repos[b as int].name@,
            repos[a as int].name@,
        );
        names_are_ordered(
            repos[a as int].name@,
            repos[b as int].name@,
            repos[c as int].name@,
        );
        names_are_ordered(
            repos[a as int].name@,
            repos[c as int].name@,
            repos[b as int].name@,
        );
        names_are_ordered(
            repos[b as int].name@,
            repos[c as int].name@,
            repos[a as int].name@,
        );
    }
}

/// Repositories are listed by name, those of one name by their id: none stands above one whose name
/// comes before its own. Each is listed once.
pub proof fn repositories_are_listed_by_name(repos: Seq<RepoInfo>, i: int, j: int)
    requires
        repos.len() <= usize::MAX,
        0 <= i < j < repos.len(),
    ensures
        ({
            let order = repo_order(repos);
            let (x, y) = (repos[order[i] as int], repos[order[j] as int]);
            &&& order.len() == repos.len()
            &&& !text_before(y.name@, x.name@)
            &&& x.name@ == y.name@ ==> x.id.0 <= y.id.0
        }),
{
    repositories_are_ordered(repos);
    sorted_is_in_order(repo_before(repos), places(repos.len()));
    sorted_rearranges(repo_before(repos), places(repos.len()));
    let f = repo_before(repos);
    assert(!f(repo_order(repos)[j], repo_order(repos)[i]));
}

// --- agents under their repository ---

/// Under each repository those agents come first that wait for their user, and among those that do,
/// and among those that do not, the one opened last comes first.
pub proof fn waiting_agents_stand_on_top(agents: Seq<AgentInfo>, repo: RepoId, i: int, j: int)
    requires
        0 <= i < j < members(agents, repo, agents.len() as int).len(),
    ensures
        ({
            let order = sorted(
                roster_before(agents),
                members(agents, repo, agents.len() as int),
            );
            let (a, b) = (agents[order[i] as int], agents[order[j] as int]);
            &&& roster(agents, repo)[i] == a.id && roster(agents, repo)[j] == b.id
            &&& b.state is NeedsAttention ==> a.state is NeedsAttention
            &&& (a.state is NeedsAttention) == (b.state is NeedsAttention) ==> a.last_opened.at()
                >= b.last_opened.at()
        }),
{
    waiting_agents_come_first(agents, repo, i, j);
}

/// What stands in a list of rows that has its heads in it: a message under its agent, a hint under its
/// repository, an agent under the repository that it belongs to.
pub open spec fn well_listed(rows: Seq<Row>, agents: Seq<AgentInfo>) -> bool {
    &&& forall|p: int|
        0 <= p < rows.len() ==> ((#[trigger] rows[p]) matches Row::Attention(id) ==> p > 0 && rows[p
            - 1] == Row::Agent(id) && message_for(agents, id))
    &&& forall|p: int|
        0 <= p < rows.len() ==> ((#[trigger] rows[p]) matches Row::EmptyRepo(r) ==> p > 0 && rows[p
            - 1] == Row::Repo(r) && !has_agents(agents, r))
    &&& forall|p: int|
        0 <= p < rows.len() ==> ((#[trigger] rows[p]) matches Row::Agent(id) ==> stands_under(
            rows,
            agents,
            p,
            id,
        ))
}

/// Whether the last repository above row `p` is that of an agent `id`.
pub open spec fn stands_under(rows: Seq<Row>, agents: Seq<AgentInfo>, p: int, id: AgentId) -> bool {
    exists|q: int, k: int|
        #![trigger rows[q], agents[k]]
        0 <= q < p && 0 <= k < agents.len() && agents[k].id == id && rows[q] == Row::Repo(
            agents[k].repo,
        ) && no_head_between(rows, q, p)
}

/// Whether no repository stands between rows `q` and `p`.
pub open spec fn no_head_between(rows: Seq<Row>, q: int, p: int) -> bool {
    forall|m: int| q < m < p ==> !((#[trigger] rows[m]) is Repo)
}

proof fn members_belong(agents: Seq<AgentInfo>, repo: RepoId, n: int)
    requires
        0 <= n <= agents.len() <= usize::MAX,
    ensures
        forall|i: int|
            0 <= i < members(agents, repo, n).len() ==> (#[trigger] members(agents, repo, n)[i]) < n
                && agents[members(agents, repo, n)[i] as int].repo == repo,
        members(agents, repo, n).len() == 0 <==> forall|i: int|
            0 <= i < n ==> (#[trigger] agents[i]).repo != repo,
    decreases n,
{
    if n > 0 {
        members_belong(agents, repo, n - 1);
    }
}

proof fn the_roster_belongs(agents: Seq<AgentInfo>, repo: RepoId, i: int) -> (k: int)
    requires
        agents.len() <= usize::MAX,
        0 <= i < roster(agents, repo).len(),
    ensures
        0 <= k < agents.len(),
        agents[k].id == roster(agents, repo)[i],
        agents[k].repo == repo,
{
    let all = members(agents, repo, agents.len() as int);
    members_belong(agents, repo, agents.len() as int);
    sorted_rearranges(roster_before(agents), all);
    let order = sorted(roster_before(agents), all);
    assert(order.contains(order[i]));
    assert(all.contains(order[i]));
    let m = choose|m: int| 0 <= m < all.len() && all[m] == order[i];
    assert(all[m] < agents.len());
    order[i] as int
}

proof fn the_roster_is_empty_without_agents(agents: Seq<AgentInfo>, repo: RepoId)
    requires
        agents.len() <= usize::MAX,
    ensures
        roster(agents, repo).len() == 0 <==> !has_agents(agents, repo),
{
    let all = members(agents, repo, agents.len() as int);
    members_belong(agents, repo, agents.len() as int);
    sorted_rearranges(roster_before(agents), all);
}

/// The rows of a repository's agents, each of them that agent's or its message's.
proof fn agents_and_messages(
    agents: Seq<AgentInfo>,
    ids: Seq<AgentId>,
    minimized: bool,
    n: int,
)
    requires
        0 <= n <= ids.len(),
    ensures
        ({
            let rows = agent_rows(agents, ids, minimized, n);
            &&& forall|p: int|
                0 <= p < rows.len() ==> ((#[trigger] rows[p]) is Agent || rows[p] is Attention)
            &&& forall|p: int|
                0 <= p < rows.len() ==> ((#[trigger] rows[p]) matches Row::Agent(id) ==> ids.contains(
                    id,
                ))
            &&& forall|p: int|
                0 <= p < rows.len() ==> ((#[trigger] rows[p]) matches Row::Attention(id) ==> p > 0
                    && rows[p - 1] == Row::Agent(id) && message_for(agents, id) && !minimized)
            &&& forall|p: int|
                0 <= p < rows.len() ==> ((#[trigger] rows[p]) matches Row::Agent(id) ==> (message_for(
                    agents,
                    id,
                ) && !minimized ==> p + 1 < rows.len() && rows[p + 1] == Row::Attention(id)))
        }),
    decreases n,
{
    if n > 0 {
        agents_and_messages(agents, ids, minimized, n - 1);
        let before = agent_rows(agents, ids, minimized, n - 1);
        let rows = agent_rows(agents, ids, minimized, n);
        let id = ids[n - 1];
        let b = before.len() as int;
        assert(rows[b] == Row::Agent(id));
        assert(ids.contains(id));
        assert forall|p: int| 0 <= p < rows.len() implies ((#[trigger] rows[p]) is Agent || rows[p]
            is Attention) by {
            if p < b {
                assert(rows[p] == before[p]);
            }
        }
        assert forall|p: int| 0 <= p < rows.len() implies ((#[trigger] rows[p]) matches Row::Agent(
            x,
        ) ==> ids.contains(x)) by {
            if p < b {
                assert(rows[p] == before[p]);
            }
        }
        assert forall|p: int| 0 <= p < rows.len() implies ((#[trigger] rows[p]) matches Row::Attention(
            x,
        ) ==> p > 0 && rows[p - 1] == Row::Agent(x) && message_for(agents, x) && !minimized) by {
            if p < b {
                assert(rows[p] == before[p]);
                if p > 0 {
                    assert(rows[p - 1] == before[p - 1]);
                }
            }
        }
        assert forall|p: int| 0 <= p < rows.len() implies ((#[trigger] rows[p]) matches Row::Agent(
            x,
        ) ==> (message_for(agents, x) && !minimized ==> p + 1 < rows.len() && rows[p + 1]
            == Row::Attention(x))) by {
            if p < b {
                assert(rows[p] == before[p]);
                if p + 1 < b {
                    assert(rows[p + 1] == before[p + 1]);
                }
            }
        }
    }
}

proof fn a_group_is_well_listed(agents: Seq<AgentInfo>, repo: RepoId, minimized: bool)
    requires
        agents.len() <= usize::MAX,
    ensures
        ({
            let rows = group_rows(agents, repo, minimized);
            &&& well_listed(rows, agents)
            &&& rows.len() > 0 && rows[0] == Row::Repo(repo)
            &&& forall|p: int|
                0 < p < rows.len() ==> ((#[trigger] rows[p]) is Agent || rows[p] is Attention || rows[p]
                    is EmptyRepo)
            &&& minimized ==> forall|p: int|
                0 < p < rows.len() ==> (#[trigger] rows[p]) is Agent
            &&& forall|p: int|
                0 <= p < rows.len() ==> ((#[trigger] rows[p]) matches Row::Agent(id) ==> (message_for(
                    agents,
                    id,
                ) && !minimized ==> p + 1 < rows.len() && rows[p + 1] == Row::Attention(id)))
            &&& !has_agents(agents, repo) && !minimized ==> rows.len() == 2 && rows[1]
                == Row::EmptyRepo(repo)
        }),
{
    let ids = roster(agents, repo);
    let n = ids.len() as int;
    the_roster_is_empty_without_agents(agents, repo);
    agents_and_messages(agents, ids, minimized, n);
    let inner = agent_rows(agents, ids, minimized, n);
    let rows = group_rows(agents, repo, minimized);
    if !(n == 0 && !minimized) {
        assert(rows =~= seq![Row::Repo(repo)] + inner);
        assert forall|p: int| 0 < p < rows.len() implies #[trigger] rows[p] == inner[p - 1] by {}
        assert forall|p: int| 0 <= p < rows.len() implies ((#[trigger] rows[p]) matches Row::Attention(
            id,
        ) ==> p > 0 && rows[p - 1] == Row::Agent(id) && message_for(agents, id)) by {
            if p > 0 {
                assert(rows[p] == inner[p - 1]);
                if p > 1 {
                    assert(rows[p - 1] == inner[p - 2]);
                }
            }
        }
        assert forall|p: int| 0 <= p < rows.len() implies ((#[trigger] rows[p]) matches Row::Agent(
            id,
        ) ==> stands_under(rows, agents, p, id)) by {
            if let Row::Agent(id) = rows[p] {
                assert(rows[p] == inner[p - 1]);
                assert(ids.contains(id));
                let i = choose|i: int| 0 <= i < ids.len() && ids[i] == id;
                let k = the_roster_belongs(agents, repo, i);
                assert(rows[0] == Row::Repo(agents[k].repo));
                assert(no_head_between(rows, 0, p)) by {
                    assert forall|m: int| 0 < m < p implies !((#[trigger] rows[m]) is Repo) by {
                        assert(rows[m] == inner[m - 1]);
                    }
                }
            }
        }
        assert forall|p: int| 0 <= p < rows.len() implies ((#[trigger] rows[p]) matches Row::Agent(
            id,
        ) ==> (message_for(agents, id) && !minimized ==> p + 1 < rows.len() && rows[p + 1]
            == Row::Attention(id))) by {
            if p > 0 {
                assert(rows[p] == inner[p - 1]);
                if p < inner.len() {
                    assert(rows[p + 1] == inner[p]);
                }
            }
        }
    }
}

proof fn lists_are_joined(a: Seq<Row>, b: Seq<Row>, agents: Seq<AgentInfo>)
    requires
        well_listed(a, agents),
        well_listed(b, agents),
    ensures
        well_listed(a + b, agents),
{
    let all = a + b;
    let n = a.len() as int;
    assert forall|p: int| 0 <= p < all.len() implies ((#[trigger] all[p]) matches Row::Attention(id)
        ==> p > 0 && all[p - 1] == Row::Agent(id) && message_for(agents, id)) by {
        if p < n {
            assert(all[p] == a[p]);
        } else {
            assert(all[p] == b[p - n]);
        }
    }
    assert forall|p: int| 0 <= p < all.len() implies ((#[trigger] all[p]) matches Row::EmptyRepo(r)
        ==> p > 0 && all[p - 1] == Row::Repo(r) && !has_agents(agents, r)) by {
        if p < n {
            assert(all[p] == a[p]);
        } else {
            assert(all[p] == b[p - n]);
        }
    }
    assert forall|p: int| 0 <= p < all.len() implies ((#[trigger] all[p]) matches Row::Agent(id)
        ==> stands_under(all, agents, p, id)) by {
        if let Row::Agent(id) = all[p] {
            if p < n {
                assert(a[p] == Row::Agent(id));
                let (q, k) = choose|q: int, k: int|
                    #![trigger a[q], agents[k]]
                    0 <= q < p && 0 <= k < agents.len() && agents[k].id == id && a[q] == Row::Repo(
                        agents[k].repo,
                    ) && no_head_between(a, q, p);
                assert(all[q] == a[q]);
                assert(no_head_between(all, q, p)) by {
                    assert forall|m: int| q < m < p implies !((#[trigger] all[m]) is Repo) by {
                        assert(a[m] == all[m]);
                    }
                }
                assert(agents[k].id == id);
            } else {
                assert(b[p - n] == Row::Agent(id));
                let (q, k) = choose|q: int, k: int|
                    #![trigger b[q], agents[k]]
                    0 <= q < p - n && 0 <= k < agents.len() && agents[k].id == id && b[q]
                        == Row::Repo(agents[k].repo) && no_head_between(b, q, p - n);
                assert(all[q + n] == b[q]);
                assert(no_head_between(all, q + n, p)) by {
                    assert forall|m: int| q + n < m < p implies !((#[trigger] all[m]) is Repo) by {
                        assert(b[m - n] == all[m]);
                    }
                }
                assert(agents[k].id == id);
            }
        }
    }
}

proof fn groups_are_well_listed(repos: Seq<RepoInfo>, agents: Seq<AgentInfo>, minimized: bool, n: int)
    requires
        agents.len() <= usize::MAX,
        n <= repos.len(),
    ensures
        well_listed(groups(repos, agents, minimized, n), agents),
        minimized ==> forall|p: int|
            0 <= p < groups(repos, agents, minimized, n).len() ==> (#[trigger] groups(
                repos,
                agents,
                minimized,
                n,
            )[p]) is Agent || groups(repos, agents, minimized, n)[p] is Repo,
    decreases n,
{
    if n > 0 {
        groups_are_well_listed(repos, agents, minimized, n - 1);
        let id = repos[repo_order(repos)[n - 1] as int].id;
        a_group_is_well_listed(agents, id, minimized);
        let before = groups(repos, agents, minimized, n - 1);
        let own = group_rows(agents, id, minimized);
        lists_are_joined(before, own, agents);
        let all = groups(repos, agents, minimized, n);
        if minimized {
            assert forall|p: int| 0 <= p < all.len() implies (#[trigger] all[p]) is Agent || all[p]
                is Repo by {
                if p < before.len() {
                    assert(all[p] == before[p]);
                } else {
                    assert(all[p] == own[p - before.len()]);
                }
            }
        }
    }
}

/// In the sidebar a message stands right below the agent that waits with it, the hint of an empty
/// repository right below that repository, and an agent below the repository that it belongs to,
/// with no other repository between.
pub proof fn rows_stand_where_they_belong(v: AppView)
    requires
        v.agents.len() <= usize::MAX,
    ensures
        well_listed(v.rows(), v.agents),
{
    let minimized = v.rail();
    if v.repos.len() > 0 {
        let block = recent_rows(v.repos, v.agents, v.now, v.page(), minimized);
        groups_are_well_listed(v.repos, v.agents, minimized, v.repos.len() as int);
        assert(well_listed(block, v.agents));
        lists_are_joined(
            block,
            groups(v.repos, v.agents, minimized, v.repos.len() as int),
            v.agents,
        );
    }
}

/// Whether every agent that waits with a message has it below it, and every repository without agents
/// the hint that says so.
pub open spec fn fully_listed(rows: Seq<Row>, agents: Seq<AgentInfo>) -> bool {
    &&& forall|p: int|
        0 <= p < rows.len() ==> ((#[trigger] rows[p]) matches Row::Agent(id) ==> (message_for(
            agents,
            id,
        ) ==> p + 1 < rows.len() && rows[p + 1] == Row::Attention(id)))
    &&& forall|p: int|
        0 <= p < rows.len() ==> ((#[trigger] rows[p]) matches Row::Repo(r) ==> (!has_agents(agents, r)
            ==> p + 1 < rows.len() && rows[p + 1] == Row::EmptyRepo(r)))
}

proof fn full_lists_are_joined(a: Seq<Row>, b: Seq<Row>, agents: Seq<AgentInfo>)
    requires
        fully_listed(a, agents),
        fully_listed(b, agents),
    ensures
        fully_listed(a + b, agents),
{
    let all = a + b;
    let n = a.len() as int;
    assert forall|p: int| 0 <= p < all.len() implies ((#[trigger] all[p]) matches Row::Agent(id)
        ==> (message_for(agents, id) ==> p + 1 < all.len() && all[p + 1] == Row::Attention(id))) by {
        if p < n {
            assert(all[p] == a[p]);
        } else {
            assert(all[p] == b[p - n]);
        }
    }
    assert forall|p: int| 0 <= p < all.len() implies ((#[trigger] all[p]) matches Row::Repo(r) ==> (
    !has_agents(agents, r) ==> p + 1 < all.len() && all[p + 1] == Row::EmptyRepo(r))) by {
        if p < n {
            assert(all[p] == a[p]);
        } else {
            assert(all[p] == b[p - n]);
        }
    }
}

proof fn groups_are_fully_listed(repos: Seq<RepoInfo>, agents: Seq<AgentInfo>, n: int)
    requires
        agents.len() <= usize::MAX,
        n <= repos.len(),
    ensures
        fully_listed(groups(repos, agents, false, n), agents),
    decreases n,
{
    if n > 0 {
        groups_are_fully_listed(repos, agents, n - 1);
        let id = repos[repo_order(repos)[n - 1] as int].id;
        a_group_is_well_listed(agents, id, false);
        full_lists_are_joined(
            groups(repos, agents, false, n - 1),
            group_rows(agents, id, false),
            agents,
        );
    }
}

/// In the full sidebar every agent that waits with a message has that message on the line below, and
/// every repository without agents a hint on how to start one.
pub proof fn messages_and_hints_are_listed(v: AppView)
    requires
        v.agents.len() <= usize::MAX,
        !v.rail(),
    ensures
        fully_listed(v.rows(), v.agents),
{
    if v.repos.len() > 0 {
        let block = recent_rows(v.repos, v.agents, v.now, v.page(), false);
        groups_are_fully_listed(v.repos, v.agents, v.repos.len() as int);
        assert(fully_listed(block, v.agents));
        full_lists_are_joined(
            block,
            groups(v.repos, v.agents, false, v.repos.len() as int),
            v.agents,
        );
    }
}

/// The rail lists repositories and their agents, and nothing else.
pub proof fn the_rail_lists_repositories_and_agents(v: AppView, p: int)
    requires
        v.agents.len() <= usize::MAX,
        v.rail(),
        v.repos.len() > 0,
        0 <= p < v.rows().len(),
    ensures
        v.rows()[p] is Repo || v.rows()[p] is Agent,
{
    groups_are_well_listed(v.repos, v.agents, true, v.repos.len() as int);
    let block = recent_rows(v.repos, v.agents, v.now, v.page(), true);
    assert(block.len() == 0);
    assert(v.rows() =~= groups(v.repos, v.agents, true, v.repos.len() as int));
}

/// The sidebar is the rail where it is narrower than thirty columns.
pub proof fn the_rail_is_narrow(v: AppView)
    ensures
        v.rail() <==> v.area.x < 30,
{
}

/// Without any repository there is one row, which says so.
pub proof fn an_empty_sidebar_says_so(v: AppView)
    ensures
        v.repos.len() == 0 ==> v.rows() == seq![Row::NoRepos],
{
}

// --- the recent block ---

proof fn two_peopled(repos: Seq<RepoInfo>, agents: Seq<AgentInfo>, n: int)
    requires
        0 <= n <= repos.len(),
    ensures
        peopled(repos, agents, n) >= 1 <==> exists|i: int|
            0 <= i < n && has_agents(agents, (#[trigger] repos[i]).id),
        peopled(repos, agents, n) >= 2 ==> exists|i: int, j: int|
            0 <= i < j < n && has_agents(agents, (#[trigger] repos[i]).id) && has_agents(
                agents,
                (#[trigger] repos[j]).id,
            ),
        (exists|i: int, j: int|
            0 <= i < j < n && has_agents(agents, (#[trigger] repos[i]).id) && has_agents(
                agents,
                (#[trigger] repos[j]).id,
            )) ==> peopled(repos, agents, n) >= 2,
    decreases n,
{
    if n > 0 {
        two_peopled(repos, agents, n - 1);
        if peopled(repos, agents, n) >= 1 {
            if has_agents(agents, repos[n - 1].id) {
                assert(has_agents(agents, repos[n - 1].id));
            } else {
                let i = choose|i: int|
                    0 <= i < n - 1 && has_agents(agents, (#[trigger] repos[i]).id);
                assert(has_agents(agents, repos[i].id));
            }
        }
        if peopled(repos, agents, n) >= 2 {
            if has_agents(agents, repos[n - 1].id) {
                let i = choose|i: int|
                    0 <= i < n - 1 && has_agents(agents, (#[trigger] repos[i]).id);
                assert(has_agents(agents, repos[i].id) && has_agents(agents, repos[n - 1].id));
            }
        }
    }
}

/// The recent block is shown, at the top, exactly where it helps: in the full sidebar, with agents in
/// two repositories at least, when it leaves some agent out, and when seven rows are left besides it.
/// It then lists its agents between a header and a divider.
pub proof fn the_recent_block_is_shown_where_it_helps(v: AppView, i: int)
    requires
        v.repos.len() > 0,
        v.agents.len() <= usize::MAX,
    ensures
        ({
            let rows = v.rows();
            let ids = recents(v.agents, v.now);
            let helps = {
                &&& v.area.x >= 30
                &&& exists|i: int, j: int|
                    0 <= i < j < v.repos.len() && has_agents(v.agents, (#[trigger] v.repos[i]).id)
                        && has_agents(v.agents, (#[trigger] v.repos[j]).id)
                &&& ids.len() < v.agents.len()
                &&& v.page() >= ids.len() + 7
            };
            &&& helps ==> {
                &&& rows.len() >= ids.len() + 2
                &&& rows[0] == Row::RecentHeader
                &&& 0 <= i < ids.len() ==> rows[i + 1] == Row::Recent(ids[i])
                &&& rows[ids.len() as int + 1] == Row::Divider
            }
            &&& !helps && 0 <= i < rows.len() ==> !(rows[i] is RecentHeader) && !(rows[i] is Recent)
                && !(rows[i] is Divider)
        }),
{
    two_peopled(v.repos, v.agents, v.repos.len() as int);
    let minimized = v.rail();
    let rows = v.rows();
    let n = v.repos.len() as int;
    let block = recent_rows(v.repos, v.agents, v.now, v.page(), minimized);
    let list = groups(v.repos, v.agents, minimized, n);
    assert(rows == block + list);
    groups_are_no_recents(v.repos, v.agents, minimized, n, i - block.len());
}

proof fn groups_are_no_recents(
    repos: Seq<RepoInfo>,
    agents: Seq<AgentInfo>,
    minimized: bool,
    n: int,
    p: int,
)
    requires
        agents.len() <= usize::MAX,
        n <= repos.len(),
    ensures
        0 <= p < groups(repos, agents, minimized, n).len() ==> {
            let row = groups(repos, agents, minimized, n)[p];
            !(row is RecentHeader) && !(row is Recent) && !(row is Divider)
        },
    decreases n,
{
    if n > 0 {
        let before = groups(repos, agents, minimized, n - 1);
        let id = repos[repo_order(repos)[n - 1] as int].id;
        let own = group_rows(agents, id, minimized);
        if p < before.len() {
            groups_are_no_recents(repos, agents, minimized, n - 1, p);
        } else {
            a_group_is_well_listed(agents, id, minimized);
            if p < before.len() + own.len() {
                assert(groups(repos, agents, minimized, n)[p] == own[p - before.len()]);
            }
        }
    }
}

} // verus!
