//! The sidebar: which rows it lists and in what order, how wide it is, and how its view scrolls.

use vstd::prelude::*;
use crate::geometry::{bring_within, larger, larger_of, minus, rect, take_off, within, Rect, Size};
use crate::ids::{AgentId, RepoId};
use crate::order::{places, sort_places, sorted, sorted_rearranges, Before, Order};
use crate::text::chars_of;
use crate::time::{is_recent, recently, Moment};
use crate::wire::{AgentInfo, AgentState, RepoInfo};

verus! {

/// Full sidebar width: cursor, unread bar, glyph, open marker, name and age.
pub const SIDEBAR_W_FULL: u16 = 30;

/// Width of the rail that the sidebar shrinks to on narrow terminals.
pub const SIDEBAR_W_MIN: u16 = 12;

/// The narrowest pane an agent can lay its own interface out in.
pub const AGENT_UI_W_MIN: u16 = 60;

/// The columns the main area keeps: a usable pane and its two border cells.
pub const MAIN_W_MIN: u16 = 62;

/// Agents in the recent block, whenever they were opened.
pub const RECENT_MIN: usize = 5;

/// The most agents the recent block holds: also where the numeric shortcuts run out.
pub const RECENT_MAX: usize = 10;

/// Rows of the roster that the recent block must leave visible.
pub const ROSTER_MIN_ROWS: usize = 5;

/// Floor of a full mini's width.
pub const MINI_W_MIN: u16 = 44;

/// Cap of a full mini's width.
pub const MINI_W_MAX: u16 = 80;

/// One line of the sidebar. Every row draws exactly one line, so that the view can be measured in
/// rows: the dim trailer lines are rows too.
#[derive(Clone, Copy, Debug, PartialEq, Eq, Structural)]
pub enum Row {
    /// The label above the recent block.
    RecentHeader,
    /// An agent in the recent block; it has a row under its repository as well.
    Recent(AgentId),
    /// The rule below the recent block.
    Divider,
    Repo(RepoId),
    /// The hint under a repository without agents.
    EmptyRepo(RepoId),
    Agent(AgentId),
    /// The message under an agent that waits.
    Attention(AgentId),
    /// The only row of a sidebar with nothing in it.
    NoRepos,
}

impl Row {
    /// Whether the cursor can land on the row.
    pub open spec fn stops(self) -> bool {
        self is Repo || self is Agent || self is Recent
    }

    /// The agent that the row is for, on an agent's own rows.
    pub open spec fn agent(self) -> Option<AgentId> {
        match self {
            Row::Agent(id) => Some(id),
            Row::Recent(id) => Some(id),
            _ => None,
        }
    }

    /// Whether the cursor can land here. The trailer rows are context for the row above them.
    pub fn selectable(&self) -> (b: bool)
        ensures
            b == self.stops(),
    {
        match self {
            Row::Repo(_) => true,
            Row::Agent(_) => true,
            Row::Recent(_) => true,
            _ => false,
        }
    }

    /// The agent that the row is for, on an agent's own rows.
    pub fn agent_of(&self) -> (id: Option<AgentId>)
        ensures
            id == self.agent(),
    {
        match self {
            Row::Agent(id) => Some(*id),
            Row::Recent(id) => Some(*id),
            _ => None,
        }
    }
}

// --- widths ---

/// The sidebar's width in a terminal of the given width.
pub open spec fn spec_sidebar_width(total_cols: u16) -> u16 {
    if total_cols < SIDEBAR_W_FULL + MAIN_W_MIN {
        SIDEBAR_W_MIN
    } else {
        SIDEBAR_W_FULL
    }
}

/// The sidebar's width: full, unless that would leave the main area too narrow.
pub fn sidebar_width(total_cols: u16) -> (w: u16)
    ensures
        w == spec_sidebar_width(total_cols),
{
    if total_cols < SIDEBAR_W_FULL + MAIN_W_MIN {
        SIDEBAR_W_MIN
    } else {
        SIDEBAR_W_FULL
    }
}

/// The area right of the sidebar and above the status line.
pub open spec fn spec_main_area(cols: u16, rows: u16) -> Rect {
    let sw = spec_sidebar_width(cols);
    rect(sw, 0, larger(minus(cols, sw), 1), larger(minus(rows, 1), 1))
}

/// The area right of the sidebar and above the status line.
pub fn main_area(cols: u16, rows: u16) -> (r: Rect)
    ensures
        r == spec_main_area(cols, rows),
        r.fits(),
{
    let sw: u16 = sidebar_width(cols);
    Rect::new(sw, 0, larger_of(take_off(cols, sw), 1), larger_of(take_off(rows, 1), 1))
}

/// A full sidebar leaves every pane that spans the main area the width an agent needs.
pub proof fn full_sidebar_leaves_room(cols: u16, rows: u16)
    requires
        spec_sidebar_width(cols) == SIDEBAR_W_FULL,
    ensures
        spec_main_area(cols, rows).width >= AGENT_UI_W_MIN + 2,
        inner_size(spec_main_area(cols, rows)).cols >= AGENT_UI_W_MIN,
{
}

/// The size of the terminal inside a bordered rectangle.
pub open spec fn inner_size(r: Rect) -> Size {
    Size { cols: larger(minus(r.width, 2), 1), rows: larger(minus(r.height, 2), 1) }
}

/// The size of the terminal inside a bordered rectangle.
pub fn pane_size(r: Rect) -> (size: Size)
    ensures
        size == inner_size(r),
        size.cols >= 1,
        size.rows >= 1,
{
    Size { cols: larger_of(take_off(r.width, 2), 1), rows: larger_of(take_off(r.height, 2), 1) }
}

/// A full mini's width in a band of the given width.
pub open spec fn spec_mini_width(available: u16) -> u16 {
    within(available / 2, MINI_W_MIN, MINI_W_MAX)
}

/// A full mini's width: half the band, between the floor and the cap.
pub fn mini_width(available: u16) -> (w: u16)
    ensures
        w == spec_mini_width(available),
{
    bring_within(available / 2, MINI_W_MIN, MINI_W_MAX)
}

// --- scrolling ---

/// The topmost row, brought back to what the list can show.
pub open spec fn clamped_top(top: int, len: int, height: int) -> int {
    let most = if len > height {
        len - height
    } else {
        0
    };
    if top < most {
        top
    } else {
        most
    }
}

/// `top` brought back to what the list can show: never past the last screenful, and zero for a list
/// that fits.
pub fn clamp_top(top: usize, len: usize, height: usize) -> (t: usize)
    ensures
        t == clamped_top(top as int, len as int, height as int),
{
    let most: usize = if len > height {
        len - height
    } else {
        0
    };
    if top < most {
        top
    } else {
        most
    }
}

/// The topmost row moved as little as possible to bring row `sel` into view.
pub open spec fn showing_top(top: int, sel: int, height: int) -> int {
    let h = if height < 1 {
        1
    } else {
        height
    };
    if sel < top {
        sel
    } else if sel >= top + h {
        sel + 1 - h
    } else {
        top
    }
}

/// `top` moved the least distance that puts row `sel` on screen. A view without height counts as one
/// row, so that the selection still anchors it.
pub fn top_showing(top: usize, sel: usize, height: usize) -> (t: usize)
    ensures
        t == showing_top(top as int, sel as int, height as int),
{
    let h: usize = if height < 1 {
        1
    } else {
        height
    };
    if sel < top {
        sel
    } else if sel - top >= h {
        sel - (h - 1)
    } else {
        top
    }
}

/// Scrolling to a row of the list shows it, moves no further than needed, and never leaves the view
/// past the last screenful.
pub proof fn scrolled_view_shows_the_row(top: int, sel: int, len: int, height: int)
    requires
        0 <= top,
        0 <= sel < len,
        height >= 1,
    ensures
        ({
            let t = clamped_top(showing_top(top, sel, height), len, height);
            &&& t <= sel < t + height
            &&& 0 <= t
            &&& len > height ==> t + height <= len
            &&& len <= height ==> t == 0
        }),
        top <= sel < top + height ==> showing_top(top, sel, height) == top,
{
}

// --- the recent block ---

/// How many of the first `n` agents were opened within the recent window.
pub open spec fn window_count(agents: Seq<AgentInfo>, now: Moment, n: int) -> nat
    decreases n,
{
    if n <= 0 {
        0
    } else {
        window_count(agents, now, n - 1) + if is_recent(now, agents[n - 1].last_opened) {
            1nat
        } else {
            0nat
        }
    }
}

/// How many agents the recent block holds: those of the window, but no fewer than the floor, no more
/// than the cap, and no more than there are.
pub open spec fn recent_size(agents: Seq<AgentInfo>, now: Moment) -> nat {
    let w = window_count(agents, now, agents.len() as int);
    let c = if w < RECENT_MIN {
        RECENT_MIN as nat
    } else if w > RECENT_MAX {
        RECENT_MAX as nat
    } else {
        w
    };
    if c < agents.len() {
        c
    } else {
        agents.len()
    }
}

/// How many agents the recent block holds.
pub fn recent_count(agents: &Vec<AgentInfo>, now: Moment) -> (n: usize)
    ensures
        n == recent_size(agents@, now),
{
    let mut w: usize = 0;
    let mut i: usize = 0;
    while i < agents.len()
        invariant
            i <= agents@.len(),
            w <= i,
            w == window_count(agents@, now, i as int),
        decreases agents@.len() - i,
    {
        if recently(now, agents[i].last_opened) {
            w = w + 1;
        }
        i = i + 1;
    }
    let c: usize = if w < RECENT_MIN {
        RECENT_MIN
    } else if w > RECENT_MAX {
        RECENT_MAX
    } else {
        w
    };
    if c < agents.len() {
        c
    } else {
        agents.len()
    }
}

/// Most recently opened first; on a tie, most recently active first.
pub open spec fn recent_before(agents: Seq<AgentInfo>) -> Before {
    |a: usize, b: usize|
        {
            let (x, y) = (agents[a as int], agents[b as int]);
            x.last_opened.at() > y.last_opened.at() || (x.last_opened.at() == y.last_opened.at()
                && x.last_activity.at() > y.last_activity.at())
        }
}

/// The places of all agents, most recent first.
pub open spec fn recent_order(agents: Seq<AgentInfo>) -> Seq<usize> {
    sorted(recent_before(agents), places(agents.len()))
}

/// The agents of the recent block.
pub open spec fn recents(agents: Seq<AgentInfo>, now: Moment) -> Seq<AgentId> {
    Seq::new(recent_size(agents, now), |i: int| agents[recent_order(agents)[i] as int].id)
}

struct RecentOrder<'a> {
    agents: &'a Vec<AgentInfo>,
}

impl<'a> Order for RecentOrder<'a> {
    closed spec fn rule(&self) -> Before {
        recent_before(self.agents@)
    }

    closed spec fn covers(&self, a: usize) -> bool {
        a < self.agents@.len()
    }

    fn before(&self, a: usize, b: usize) -> (r: bool) {
        let x = &self.agents[a];
        let y = &self.agents[b];
        x.last_opened.after(y.last_opened) || (!y.last_opened.after(x.last_opened)
            && x.last_activity.after(y.last_activity))
    }
}

fn all_places(n: usize) -> (out: Vec<usize>)
    ensures
        out@ == places(n as nat),
{
    let mut out: Vec<usize> = Vec::new();
    let mut i: usize = 0;
    while i < n
        invariant
            i <= n,
            out@ == places(i as nat),
        decreases n - i,
    {
        out.push(i);
        i = i + 1;
        assert(out@ =~= places(i as nat));
    }
    assert(out@ =~= places(n as nat));
    out
}

/// The agents to list in the recent block: the ones opened last, of all repositories, newest first.
pub fn recent_ids(agents: &Vec<AgentInfo>, now: Moment) -> (ids: Vec<AgentId>)
    ensures
        ids@ == recents(agents@, now),
{
    let n: usize = recent_count(agents, now);
    let all = all_places(agents.len());
    let order = RecentOrder { agents };
    let by_recency = sort_places(&order, &all);
    proof {
        sorted_rearranges(recent_before(agents@), places(agents@.len()));
    }
    let mut ids: Vec<AgentId> = Vec::new();
    let mut i: usize = 0;
    while i < n
        invariant
            i <= n,
            n == recent_size(agents@, now),
            n <= agents@.len(),
            by_recency@ == recent_order(agents@),
            by_recency@.len() == agents@.len(),
            forall|x: usize|
                by_recency@.contains(x) == #[trigger] places(agents@.len()).contains(x),
            ids@ == recents(agents@, now).take(i as int),
        decreases n - i,
    {
        proof {
            assert(by_recency@.contains(by_recency@[i as int]));
            assert(places(agents@.len()).contains(by_recency@[i as int]));
        }
        ids.push(agents[by_recency[i]].id);
        assert(ids@ =~= recents(agents@, now).take(i + 1));
        i = i + 1;
    }
    assert(ids@ =~= recents(agents@, now));
    ids
}

/// Whether the recent block earns its rows.
pub open spec fn recent_shown(
    repos_with_agents: int,
    agents: int,
    recent: int,
    body_height: int,
    minimized: bool,
) -> bool {
    !minimized && repos_with_agents > 1 && recent < agents && body_height >= recent + 2
        + ROSTER_MIN_ROWS
}

/// Whether the recent block earns its rows: not on the rail, not for one repository, whose group is
/// in that order already, not when it would list every agent there is, and not when it would crowd
/// out the roster.
pub fn show_recent(
    repos_with_agents: usize,
    agents: usize,
    recent: usize,
    body_height: usize,
    minimized: bool,
) -> (b: bool)
    ensures
        b == recent_shown(
            repos_with_agents as int,
            agents as int,
            recent as int,
            body_height as int,
            minimized,
        ),
{
    !minimized && repos_with_agents > 1 && recent < agents && body_height >= 2 + ROSTER_MIN_ROWS
        && body_height - (2 + ROSTER_MIN_ROWS) >= recent
}

// --- the rows ---

/// Whether `a` comes before `b` in the order of code points.
pub open spec fn text_before(a: Seq<char>, b: Seq<char>) -> bool
    decreases a.len(),
{
    if b.len() == 0 {
        false
    } else if a.len() == 0 {
        true
    } else if a[0] != b[0] {
        a[0] < b[0]
    } else {
        text_before(a.drop_first(), b.drop_first())
    }
}

/// Repositories by name, then by id.
pub open spec fn repo_before(repos: Seq<RepoInfo>) -> Before {
    |a: usize, b: usize|
        {
            let (x, y) = (repos[a as int], repos[b as int]);
            text_before(x.name@, y.name@) || (x.name@ == y.name@ && x.id.0 < y.id.0)
        }
}

/// The places of all repositories, in the order they are listed.
pub open spec fn repo_order(repos: Seq<RepoInfo>) -> Seq<usize> {
    sorted(repo_before(repos), places(repos.len()))
}

/// Whether an agent waits for its user.
pub open spec fn blocked(a: AgentInfo) -> bool {
    a.state is NeedsAttention
}

/// Agents that wait come first; among equals the most recently opened comes first.
pub open spec fn roster_before(agents: Seq<AgentInfo>) -> Before {
    |a: usize, b: usize|
        {
            let (x, y) = (agents[a as int], agents[b as int]);
            (blocked(x) && !blocked(y)) || (blocked(x) == blocked(y) && x.last_opened.at()
                > y.last_opened.at())
        }
}

/// The places of the agents of a repository among the first `n`.
pub open spec fn members(agents: Seq<AgentInfo>, repo: RepoId, n: int) -> Seq<usize>
    decreases n,
{
    if n <= 0 {
        Seq::empty()
    } else if agents[n - 1].repo == repo {
        members(agents, repo, n - 1).push((n - 1) as usize)
    } else {
        members(agents, repo, n - 1)
    }
}

/// The agents of a repository, in the order they are listed.
pub open spec fn roster(agents: Seq<AgentInfo>, repo: RepoId) -> Seq<AgentId> {
    let order = sorted(roster_before(agents), members(agents, repo, agents.len() as int));
    Seq::new(order.len(), |i: int| agents[order[i] as int].id)
}

/// Whether agent `a` waits with a message.
pub open spec fn has_message(a: AgentInfo) -> bool {
    match a.state {
        AgentState::NeedsAttention { message, .. } => message is Some,
        _ => false,
    }
}

/// Whether an agent `id` waits with a message.
pub open spec fn message_for(agents: Seq<AgentInfo>, id: AgentId) -> bool {
    exists|i: int| 0 <= i < agents.len() && (#[trigger] agents[i]).id == id && has_message(agents[i])
}

/// The rows of the first `n` agents of a roster.
pub open spec fn agent_rows(
    agents: Seq<AgentInfo>,
    ids: Seq<AgentId>,
    minimized: bool,
    n: int,
) -> Seq<Row>
    decreases n,
{
    if n <= 0 {
        Seq::empty()
    } else {
        let before = agent_rows(agents, ids, minimized, n - 1);
        let id = ids[n - 1];
        if message_for(agents, id) && !minimized {
            before.push(Row::Agent(id)).push(Row::Attention(id))
        } else {
            before.push(Row::Agent(id))
        }
    }
}

/// The rows of one repository: its header, and its agents or a hint that there are none.
pub open spec fn group_rows(agents: Seq<AgentInfo>, repo: RepoId, minimized: bool) -> Seq<Row> {
    let ids = roster(agents, repo);
    if ids.len() == 0 && !minimized {
        seq![Row::Repo(repo), Row::EmptyRepo(repo)]
    } else {
        seq![Row::Repo(repo)] + agent_rows(agents, ids, minimized, ids.len() as int)
    }
}

/// The rows of the first `n` repositories in listing order.
pub open spec fn groups(
    repos: Seq<RepoInfo>,
    agents: Seq<AgentInfo>,
    minimized: bool,
    n: int,
) -> Seq<Row>
    decreases n,
{
    if n <= 0 {
        Seq::empty()
    } else {
        groups(repos, agents, minimized, n - 1) + group_rows(
            agents,
            repos[repo_order(repos)[n - 1] as int].id,
            minimized,
        )
    }
}

/// Whether a repository has agents.
pub open spec fn has_agents(agents: Seq<AgentInfo>, repo: RepoId) -> bool {
    exists|i: int| 0 <= i < agents.len() && (#[trigger] agents[i]).repo == repo
}

/// How many of the first `n` repositories have agents.
pub open spec fn peopled(repos: Seq<RepoInfo>, agents: Seq<AgentInfo>, n: int) -> nat
    decreases n,
{
    if n <= 0 {
        0
    } else {
        peopled(repos, agents, n - 1) + if has_agents(agents, repos[n - 1].id) {
            1nat
        } else {
            0nat
        }
    }
}

/// The rows of the recent block, with its header and divider, where it is shown.
pub open spec fn recent_rows(
    repos: Seq<RepoInfo>,
    agents: Seq<AgentInfo>,
    now: Moment,
    page: int,
    minimized: bool,
) -> Seq<Row> {
    let ids = recents(agents, now);
    if recent_shown(
        peopled(repos, agents, repos.len() as int) as int,
        agents.len() as int,
        ids.len() as int,
        page,
        minimized,
    ) {
        seq![Row::RecentHeader] + Seq::new(ids.len(), |i: int| Row::Recent(ids[i])) + seq![
            Row::Divider,
        ]
    } else {
        Seq::empty()
    }
}

/// The rows of the sidebar: the recent block, then each repository with its agents. The rail has no
/// room for trailer lines, so they are no rows there either.
pub open spec fn rows_for(
    repos: Seq<RepoInfo>,
    agents: Seq<AgentInfo>,
    now: Moment,
    page: int,
    minimized: bool,
) -> Seq<Row> {
    if repos.len() == 0 {
        seq![Row::NoRepos]
    } else {
        recent_rows(repos, agents, now, page, minimized) + groups(
            repos,
            agents,
            minimized,
            repos.len() as int,
        )
    }
}

struct RepoOrder<'a> {
    repos: &'a Vec<RepoInfo>,
}

fn chars_before(a: &Vec<char>, b: &Vec<char>) -> (r: bool)
    ensures
        r == text_before(a@, b@),
{
    let mut i: usize = 0;
    assert(a@.skip(0) =~= a@);
    assert(b@.skip(0) =~= b@);
    while i < a.len() && i < b.len()
        invariant
            i <= a@.len(),
            i <= b@.len(),
            text_before(a@, b@) == text_before(a@.skip(i as int), b@.skip(i as int)),
        decreases a@.len() - i,
    {
        if a[i] != b[i] {
            return a[i] < b[i];
        }
        assert(a@.skip(i as int).drop_first() =~= a@.skip(i + 1));
        assert(b@.skip(i as int).drop_first() =~= b@.skip(i + 1));
        i = i + 1;
    }
    i >= a.len() && i < b.len()
}

impl<'a> Order for RepoOrder<'a> {
    closed spec fn rule(&self) -> Before {
        repo_before(self.repos@)
    }

    closed spec fn covers(&self, a: usize) -> bool {
        a < self.repos@.len()
    }

    fn before(&self, a: usize, b: usize) -> (r: bool) {
        let x = &self.repos[a];
        let y = &self.repos[b];
        let xs = chars_of(x.name.as_str());
        let ys = chars_of(y.name.as_str());
        chars_before(&xs, &ys) || (x.name == y.name && x.id.0 < y.id.0)
    }
}

struct RosterOrder<'a> {
    agents: &'a Vec<AgentInfo>,
}

fn is_blocked(a: &AgentInfo) -> (b: bool)
    ensures
        b == blocked(*a),
{
    match &a.state {
        AgentState::NeedsAttention { .. } => true,
        _ => false,
    }
}

impl<'a> Order for RosterOrder<'a> {
    closed spec fn rule(&self) -> Before {
        roster_before(self.agents@)
    }

    closed spec fn covers(&self, a: usize) -> bool {
        a < self.agents@.len()
    }

    fn before(&self, a: usize, b: usize) -> (r: bool) {
        let x = &self.agents[a];
        let y = &self.agents[b];
        let bx = is_blocked(x);
        let by = is_blocked(y);
        (bx && !by) || (bx == by && x.last_opened.after(y.last_opened))
    }
}

proof fn members_are_places(agents: Seq<AgentInfo>, repo: RepoId, n: int)
    requires
        0 <= n <= agents.len() <= usize::MAX,
    ensures
        members(agents, repo, n).len() <= n,
        forall|i: int|
            0 <= i < members(agents, repo, n).len() ==> (#[trigger] members(agents, repo, n)[i]) < n
                && agents[members(agents, repo, n)[i] as int].repo == repo,
    decreases n,
{
    if n > 0 {
        members_are_places(agents, repo, n - 1);
    }
}

/// The ids of a repository's agents: those that wait first, then by how recently they were opened.
pub fn agent_ids_for(agents: &Vec<AgentInfo>, repo: RepoId) -> (ids: Vec<AgentId>)
    ensures
        ids@ == roster(agents@, repo),
{
    let mut items: Vec<usize> = Vec::new();
    let mut i: usize = 0;
    while i < agents.len()
        invariant
            i <= agents@.len(),
            items@ == members(agents@, repo, i as int),
        decreases agents@.len() - i,
    {
        if agents[i].repo == repo {
            items.push(i);
        }
        i = i + 1;
    }
    let order = RosterOrder { agents };
    let ghost all = members(agents@, repo, agents@.len() as int);
    proof {
        members_are_places(agents@, repo, agents@.len() as int);
        assert forall|k: int| 0 <= k < items@.len() implies order.covers(#[trigger] items@[k]) by {
            assert(all[k] < agents@.len());
        }
        sorted_rearranges(roster_before(agents@), all);
    }
    let by_rank = sort_places(&order, &items);
    let mut ids: Vec<AgentId> = Vec::new();
    let mut k: usize = 0;
    while k < by_rank.len()
        invariant
            k <= by_rank@.len(),
            by_rank@ == sorted(roster_before(agents@), all),
            all == members(agents@, repo, agents@.len() as int),
            forall|x: usize| by_rank@.contains(x) == #[trigger] all.contains(x),
            forall|i: int| 0 <= i < all.len() ==> (#[trigger] all[i]) < agents@.len(),
            ids@ == roster(agents@, repo).take(k as int),
        decreases by_rank@.len() - k,
    {
        proof {
            let x = by_rank@[k as int];
            assert(by_rank@.contains(x));
            assert(all.contains(x));
            let j = choose|j: int| 0 <= j < all.len() && all[j] == x;
            assert(all[j] < agents@.len());
        }
        ids.push(agents[by_rank[k]].id);
        assert(ids@ =~= roster(agents@, repo).take(k + 1));
        k = k + 1;
    }
    assert(ids@ =~= roster(agents@, repo));
    ids
}

fn any_message(agents: &Vec<AgentInfo>, id: AgentId) -> (b: bool)
    ensures
        b == message_for(agents@, id),
{
    let mut i: usize = 0;
    while i < agents.len()
        invariant
            i <= agents@.len(),
            forall|k: int|
                0 <= k < i ==> !((#[trigger] agents@[k]).id == id && has_message(agents@[k])),
        decreases agents@.len() - i,
    {
        if agents[i].id == id {
            let said = match &agents[i].state {
                AgentState::NeedsAttention { message, .. } => message.is_some(),
                _ => false,
            };
            if said {
                assert(agents@[i as int].id == id && has_message(agents@[i as int]));
                return true;
            }
        }
        i = i + 1;
    }
    false
}

fn any_agent(agents: &Vec<AgentInfo>, repo: RepoId) -> (b: bool)
    ensures
        b == has_agents(agents@, repo),
{
    let mut i: usize = 0;
    while i < agents.len()
        invariant
            i <= agents@.len(),
            forall|k: int| 0 <= k < i ==> (#[trigger] agents@[k]).repo != repo,
        decreases agents@.len() - i,
    {
        if agents[i].repo == repo {
            assert(agents@[i as int].repo == repo);
            return true;
        }
        i = i + 1;
    }
    false
}

fn push_group(agents: &Vec<AgentInfo>, repo: RepoId, minimized: bool, rows: &mut Vec<Row>)
    ensures
        final(rows)@ == old(rows)@ + group_rows(agents@, repo, minimized),
{
    let ghost start = rows@;
    rows.push(Row::Repo(repo));
    let ids = agent_ids_for(agents, repo);
    if ids.len() == 0 && !minimized {
        rows.push(Row::EmptyRepo(repo));
        assert(rows@ =~= start + group_rows(agents@, repo, minimized));
        return;
    }
    let ghost head = start + seq![Row::Repo(repo)];
    let mut i: usize = 0;
    assert(rows@ =~= head + agent_rows(agents@, ids@, minimized, 0));
    while i < ids.len()
        invariant
            i <= ids@.len(),
            rows@ == head + agent_rows(agents@, ids@, minimized, i as int),
        decreases ids@.len() - i,
    {
        let id = ids[i];
        rows.push(Row::Agent(id));
        if !minimized && any_message(agents, id) {
            rows.push(Row::Attention(id));
        }
        i = i + 1;
        assert(rows@ =~= head + agent_rows(agents@, ids@, minimized, i as int));
    }
    assert(rows@ =~= start + group_rows(agents@, repo, minimized));
}

/// The rows of the sidebar for a view of `page` rows.
pub fn sidebar_rows(
    repos: &Vec<RepoInfo>,
    agents: &Vec<AgentInfo>,
    now: Moment,
    page: usize,
    minimized: bool,
) -> (rows: Vec<Row>)
    ensures
        rows@ == rows_for(repos@, agents@, now, page as int, minimized),
{
    let mut rows: Vec<Row> = Vec::new();
    if repos.len() == 0 {
        rows.push(Row::NoRepos);
        assert(rows@ =~= rows_for(repos@, agents@, now, page as int, minimized));
        return rows;
    }
    let mut with_agents: usize = 0;
    let mut i: usize = 0;
    while i < repos.len()
        invariant
            i <= repos@.len(),
            with_agents <= i,
            with_agents == peopled(repos@, agents@, i as int),
        decreases repos@.len() - i,
    {
        if any_agent(agents, repos[i].id) {
            with_agents = with_agents + 1;
        }
        i = i + 1;
    }
    let recent = recent_ids(agents, now);
    if show_recent(with_agents, agents.len(), recent.len(), page, minimized) {
        rows.push(Row::RecentHeader);
        let mut k: usize = 0;
        while k < recent.len()
            invariant
                k <= recent@.len(),
                rows@ == seq![Row::RecentHeader] + Seq::new(
                    k as nat,
                    |i: int| Row::Recent(recent@[i]),
                ),
            decreases recent@.len() - k,
        {
            rows.push(Row::Recent(recent[k]));
            k = k + 1;
            assert(rows@ =~= seq![Row::RecentHeader] + Seq::new(
                k as nat,
                |i: int| Row::Recent(recent@[i]),
            ));
        }
        rows.push(Row::Divider);
    }
    let ghost block = recent_rows(repos@, agents@, now, page as int, minimized);
    assert(rows@ =~= block);
    let all = all_places(repos.len());
    let order = RepoOrder { repos };
    let by_name = sort_places(&order, &all);
    proof {
        sorted_rearranges(repo_before(repos@), places(repos@.len()));
    }
    let mut r: usize = 0;
    assert(rows@ =~= block + groups(repos@, agents@, minimized, 0));
    while r < by_name.len()
        invariant
            r <= by_name@.len(),
            by_name@.len() == repos@.len(),
            by_name@ == repo_order(repos@),
            forall|x: usize| by_name@.contains(x) == #[trigger] places(repos@.len()).contains(x),
            rows@ == block + groups(repos@, agents@, minimized, r as int),
        decreases by_name@.len() - r,
    {
        proof {
            assert(by_name@.contains(by_name@[r as int]));
            assert(places(repos@.len()).contains(by_name@[r as int]));
        }
        let ghost before = groups(repos@, agents@, minimized, r as int);
        let id = repos[by_name[r]].id;
        push_group(agents, id, minimized, &mut rows);
        assert(block + before + group_rows(agents@, id, minimized) =~= block + (before + group_rows(
            agents@,
            id,
            minimized,
        )));
        r = r + 1;
    }
    rows
}

// --- numbers ---

/// The agents that rows name, each at the first row that names it.
pub open spec fn agent_order(rows: Seq<Row>) -> Seq<AgentId>
    decreases rows.len(),
{
    if rows.len() == 0 {
        Seq::empty()
    } else {
        let before = agent_order(rows.drop_last());
        match rows.last().agent() {
            Some(id) => if before.contains(id) {
                before
            } else {
                before.push(id)
            },
            None => before,
        }
    }
}

/// The agents in sidebar order, an agent with several rows counted at its first.
pub fn order_of_agents(rows: &Vec<Row>) -> (ids: Vec<AgentId>)
    ensures
        ids@ == agent_order(rows@),
{
    let mut ids: Vec<AgentId> = Vec::new();
    let mut i: usize = 0;
    assert(rows@.take(0) =~= Seq::<Row>::empty());
    while i < rows.len()
        invariant
            i <= rows@.len(),
            ids@ == agent_order(rows@.take(i as int)),
        decreases rows@.len() - i,
    {
        assert(rows@.take(i + 1).drop_last() =~= rows@.take(i as int));
        if let Some(id) = rows[i].agent_of() {
            if !has_id(&ids, id) {
                ids.push(id);
            }
        }
        i = i + 1;
    }
    assert(rows@.take(rows@.len() as int) =~= rows@);
    ids
}

/// Whether `id` is among `ids`.
pub fn has_id(ids: &Vec<AgentId>, id: AgentId) -> (b: bool)
    ensures
        b == ids@.contains(id),
{
    let mut i: usize = 0;
    while i < ids.len()
        invariant
            i <= ids@.len(),
            forall|k: int| 0 <= k < i ==> #[trigger] ids@[k] != id,
        decreases ids@.len() - i,
    {
        if ids[i] == id {
            assert(ids@[i as int] == id);
            return true;
        }
        i = i + 1;
    }
    false
}

/// The digit that labels the agent at a place of the sidebar order.
pub open spec fn digit_label(index: int) -> Option<char> {
    if 0 <= index <= 8 {
        Some((49 + index) as char)
    } else if index == 9 {
        Some('0')
    } else {
        None
    }
}

/// The digit that labels the agent at `index`: `1` to `9`, then `0`, then none.
pub fn overlay_digit(index: usize) -> (d: Option<char>)
    ensures
        d == digit_label(index as int),
{
    if index <= 8 {
        Some((49 + index as u8) as char)
    } else if index == 9 {
        Some('0')
    } else {
        None
    }
}

/// The place that a digit selects.
pub open spec fn digit_place(c: char) -> Option<int> {
    if '1' <= c <= '9' {
        Some(c as int - 49)
    } else if c == '0' {
        Some(9)
    } else {
        None
    }
}

/// The place that a pressed digit selects.
pub fn digit_index(c: char) -> (i: Option<usize>)
    ensures
        match (i, digit_place(c)) {
            (Some(a), Some(b)) => a as int == b,
            (None, None) => true,
            _ => false,
        },
{
    if '1' <= c && c <= '9' {
        Some((c as u32 - 49) as usize)
    } else if c == '0' {
        Some(9)
    } else {
        None
    }
}

/// The digit that is shown is the digit to press: labels and places undo each other.
pub proof fn digits_match_labels(index: int, c: char)
    ensures
        digit_label(index) matches Some(d) ==> digit_place(d) == Some(index),
        digit_place(c) matches Some(i) ==> digit_label(i) == Some(c),
        (0 <= index < 10) == (digit_label(index) is Some),
{
}

/// No agent is numbered twice, and every agent with a row is numbered.
pub proof fn each_agent_is_numbered_once(rows: Seq<Row>)
    ensures
        agent_order(rows).no_duplicates(),
        forall|i: int|
            0 <= i < rows.len() ==> ((#[trigger] rows[i]).agent() matches Some(id) ==> agent_order(
                rows,
            ).contains(id)),
    decreases rows.len(),
{
    if rows.len() > 0 {
        each_agent_is_numbered_once(rows.drop_last());
        let before = agent_order(rows.drop_last());
        let all = agent_order(rows);
        assert forall|i: int| 0 <= i < rows.len() implies ((#[trigger] rows[i]).agent() matches Some(
            id,
        ) ==> all.contains(id)) by {
            if let Some(id) = rows[i].agent() {
                if i < rows.len() - 1 {
                    assert(rows.drop_last()[i].agent() == Some(id));
                    assert(before.contains(id));
                    let k = choose|k: int| 0 <= k < before.len() && before[k] == id;
                    assert(all[k] == id);
                } else if before.contains(id) {
                } else {
                    assert(all[before.len() as int] == id);
                }
            }
        }
    }
}

} // verus!
