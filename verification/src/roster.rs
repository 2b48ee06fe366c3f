//! The sidebar's cursor and view, and the shortcuts that name agents.

use vstd::prelude::*;
use crate::geometry::{larger, larger_of, minus, take_off};
use crate::ids::{AgentId, RepoId};
use crate::sidebar::{
    agent_order, clamp_top, clamped_top, digit_index, digit_place, order_of_agents, rows_for,
    scrolled_view_shows_the_row, showing_top, sidebar_rows, top_showing, Row, SIDEBAR_W_FULL,
};
use crate::state::{agent_place, find_agent, has_agent, App, AppView};
use crate::wire::AgentInfo;

verus! {

/// The place of `row` among `rows` from `i` on.
pub open spec fn row_from(rows: Seq<Row>, row: Row, i: int) -> Option<int>
    decreases rows.len() - i,
{
    if i >= rows.len() {
        None
    } else if rows[i] == row {
        Some(i)
    } else {
        row_from(rows, row, i + 1)
    }
}

/// The place of an optional row among `rows`.
pub open spec fn sel_place(rows: Seq<Row>, sel: Option<Row>) -> Option<int> {
    match sel {
        Some(row) => row_from(rows, row, 0),
        None => None,
    }
}

/// The places among the first `n` rows where the cursor can land.
pub open spec fn stops(rows: Seq<Row>, n: int) -> Seq<usize>
    decreases n,
{
    if n <= 0 {
        Seq::empty()
    } else if rows[n - 1].stops() {
        stops(rows, n - 1).push((n - 1) as usize)
    } else {
        stops(rows, n - 1)
    }
}

/// The first stop, from the `k`th on, that is not above place `i`.
pub open spec fn stop_from(stops: Seq<usize>, i: int, k: int) -> Option<int>
    decreases stops.len() - k,
{
    if k >= stops.len() {
        None
    } else if stops[k] >= i {
        Some(k)
    } else {
        stop_from(stops, i, k + 1)
    }
}

/// Whether some agent `id` is unread.
pub open spec fn is_unread(agents: Seq<AgentInfo>, id: AgentId) -> bool {
    exists|i: int| 0 <= i < agents.len() && (#[trigger] agents[i]).id == id && agents[i].unread
}

/// Whether `row` is for an unread agent other than `here`.
pub open spec fn unread_row(agents: Seq<AgentInfo>, here: Option<AgentId>, row: Row) -> bool {
    match row.agent() {
        Some(id) => Some(id) != here && is_unread(agents, id),
        None => false,
    }
}

/// The first place from `i` on whose row is for another unread agent.
pub open spec fn unread_below(
    agents: Seq<AgentInfo>,
    here: Option<AgentId>,
    rows: Seq<Row>,
    i: int,
) -> Option<int>
    decreases rows.len() - i,
{
    if i >= rows.len() {
        None
    } else if unread_row(agents, here, rows[i]) {
        Some(i)
    } else {
        unread_below(agents, here, rows, i + 1)
    }
}

/// The last place before `i` whose row is for another unread agent.
pub open spec fn unread_above(
    agents: Seq<AgentInfo>,
    here: Option<AgentId>,
    rows: Seq<Row>,
    i: int,
) -> Option<int>
    decreases i,
{
    if i <= 0 {
        None
    } else if unread_row(agents, here, rows[i - 1]) {
        Some(i - 1)
    } else {
        unread_above(agents, here, rows, i - 1)
    }
}

/// `n` brought into `lo..=hi`.
pub open spec fn clamp_int(n: int, lo: int, hi: int) -> int {
    if n < lo {
        lo
    } else if n > hi {
        hi
    } else {
        n
    }
}

impl AppView {
    /// The rows that the sidebar has room for: the height of the main area less the two borders.
    pub open spec fn page(self) -> int {
        larger(minus(self.area.height, 2), 1) as int
    }

    /// Whether the sidebar is the narrow rail.
    pub open spec fn rail(self) -> bool {
        self.area.x < SIDEBAR_W_FULL
    }

    /// The rows of the sidebar, for the rail or for the full one.
    pub open spec fn rows_for(self, minimized: bool) -> Seq<Row> {
        rows_for(self.repos, self.agents, self.now, self.page(), minimized)
    }

    /// The rows of the sidebar.
    pub open spec fn rows(self) -> Seq<Row> {
        self.rows_for(self.rail())
    }

    /// The client with the sidebar's view on the cursor.
    pub open spec fn scroll_sel_into_view(self) -> AppView {
        let rows = self.rows();
        AppView {
            sidebar_top: match sel_place(rows, self.sidebar_sel) {
                Some(sel) => clamped_top(
                    showing_top(self.sidebar_top as int, sel, self.page()),
                    rows.len() as int,
                    self.page(),
                ) as usize,
                None => 0,
            },
            ..self
        }
    }

    /// The client with the cursor put on `row`.
    pub open spec fn place_sidebar_sel(self, row: Row) -> AppView {
        AppView { sidebar_sel: Some(row), sidebar_placed: true, ..self }.scroll_sel_into_view()
    }

    /// Whether the cursor is on a row that exists.
    pub open spec fn sel_is_valid(self) -> bool {
        match self.sidebar_sel {
            Some(row) => row.stops() && row_from(self.rows(), row, 0) is Some,
            None => false,
        }
    }

    /// The first row that the cursor can land on.
    pub open spec fn first_row(self) -> Option<Row> {
        let s = stops(self.rows(), self.rows().len() as int);
        if s.len() > 0 {
            Some(self.rows()[s[0] as int])
        } else {
            None
        }
    }

    /// The client with the cursor on a row that exists: until it was placed on purpose, the first
    /// one it can land on.
    #[verifier::opaque]
    pub open spec fn ensure_sidebar_sel(self) -> AppView {
        if self.sel_is_valid() && self.sidebar_placed {
            self.scroll_sel_into_view()
        } else {
            AppView { sidebar_sel: self.first_row(), ..self }.scroll_sel_into_view()
        }
    }

    /// The client with the cursor moved by `delta` stops, but not past the first or the last.
    pub open spec fn move_sidebar_sel(self, delta: int) -> AppView {
        let rows = self.rows();
        let s = stops(rows, rows.len() as int);
        if s.len() == 0 {
            AppView { sidebar_sel: None, ..self }
        } else {
            let here = match sel_place(rows, self.sidebar_sel) {
                Some(i) => match stop_from(s, i, 0) {
                    Some(k) => k,
                    None => 0,
                },
                None => 0,
            };
            let next = clamp_int(here + delta, 0, s.len() - 1);
            self.place_sidebar_sel(rows[s[next] as int])
        }
    }

    /// The agent under the cursor.
    pub open spec fn selected_agent(self) -> Option<AgentId> {
        match self.sidebar_sel {
            Some(row) => row.agent(),
            None => None,
        }
    }

    /// The repository that the cursor is in.
    pub open spec fn selected_repo(self) -> Option<RepoId> {
        match self.sidebar_sel {
            Some(Row::Repo(id)) => Some(id),
            Some(Row::EmptyRepo(id)) => Some(id),
            Some(Row::Agent(id)) => self.repo_of(id),
            Some(Row::Attention(id)) => self.repo_of(id),
            Some(Row::Recent(id)) => self.repo_of(id),
            _ => None,
        }
    }

    /// The repository of agent `id`.
    pub open spec fn repo_of(self, id: AgentId) -> Option<RepoId> {
        match agent_place(self.agents, id) {
            Some(i) => Some(self.agents[i].repo),
            None => None,
        }
    }

    /// The row that a jump to another unread agent lands on.
    pub open spec fn unread_target(self, down: bool) -> Option<int> {
        let rows = self.rows();
        let here = self.selected_agent();
        let cur = match sel_place(rows, self.sidebar_sel) {
            Some(i) => i,
            None => 0,
        };
        if down {
            unread_below(self.agents, here, rows, cur + 1)
        } else {
            unread_above(self.agents, here, rows, cur)
        }
    }

    /// The client with the cursor on the next unread agent below or above it, if there is one.
    pub open spec fn jump_unread(self, down: bool) -> AppView {
        match self.unread_target(down) {
            Some(i) => self.place_sidebar_sel(self.rows()[i]),
            None => self,
        }
    }

    /// The client with the sidebar's view moved by `delta` rows.
    pub open spec fn scroll_sidebar(self, delta: int) -> AppView {
        let top = if self.sidebar_top + delta < 0 {
            0
        } else {
            self.sidebar_top + delta
        };
        AppView {
            sidebar_top: clamped_top(top, self.rows().len() as int, self.page()) as usize,
            ..self
        }
    }

    /// The agent that digit `c` names.
    pub open spec fn numbered_agent(self, c: char) -> Option<AgentId> {
        match digit_place(c) {
            Some(i) => if i < agent_order(self.rows()).len() {
                Some(agent_order(self.rows())[i])
            } else {
                None
            },
            None => None,
        }
    }

    /// The agent that was active before, if it is still there.
    pub open spec fn previous_agent(self) -> Option<AgentId> {
        match self.prev_active_agent {
            Some(id) => if has_agent(self.agents, id) {
                Some(id)
            } else {
                None
            },
            None => None,
        }
    }
}

/// The place of `row` among `rows`.
pub fn find_row(rows: &Vec<Row>, row: Row) -> (at: Option<usize>)
    ensures
        match (at, row_from(rows@, row, 0)) {
            (Some(i), Some(j)) => i as int == j,
            (None, None) => true,
            _ => false,
        },
        at is Some ==> at->0 < rows@.len(),
{
    let mut i: usize = 0;
    while i < rows.len()
        invariant
            i <= rows@.len(),
            row_from(rows@, row, 0) == row_from(rows@, row, i as int),
        decreases rows@.len() - i,
    {
        if rows[i] == row {
            return Some(i);
        }
        i = i + 1;
    }
    None
}

fn find_sel(rows: &Vec<Row>, sel: Option<Row>) -> (at: Option<usize>)
    ensures
        match (at, sel_place(rows@, sel)) {
            (Some(i), Some(j)) => i as int == j,
            (None, None) => true,
            _ => false,
        },
        at is Some ==> at->0 < rows@.len(),
{
    match sel {
        Some(row) => find_row(rows, row),
        None => None,
    }
}

proof fn stops_are_rows(rows: Seq<Row>, n: int)
    requires
        0 <= n <= rows.len() <= usize::MAX,
    ensures
        stops(rows, n).len() <= n,
        forall|k: int| 0 <= k < stops(rows, n).len() ==> (#[trigger] stops(rows, n)[k]) < n,
        forall|k: int| 0 <= k < stops(rows, n).len() ==> rows[(#[trigger] stops(rows, n)[k]) as int].stops(),
        forall|i: int| 0 <= i < n && (#[trigger] rows[i]).stops() ==> stops(rows, n).contains(i as usize),
    decreases n,
{
    if n > 0 {
        stops_are_rows(rows, n - 1);
        let before = stops(rows, n - 1);
        let all = stops(rows, n);
        assert forall|i: int| 0 <= i < n && (#[trigger] rows[i]).stops() implies all.contains(i as usize) by {
            if i < n - 1 {
                assert(before.contains(i as usize));
                let k = choose|k: int| 0 <= k < before.len() && before[k] == i as usize;
                assert(all[k] == i as usize);
            } else {
                assert(all[all.len() - 1] == i as usize);
            }
        }
    }
}

fn find_stops(rows: &Vec<Row>) -> (out: Vec<usize>)
    ensures
        out@ == stops(rows@, rows@.len() as int),
        forall|k: int| 0 <= k < out@.len() ==> (#[trigger] out@[k]) < rows@.len(),
{
    let mut out: Vec<usize> = Vec::new();
    let mut i: usize = 0;
    while i < rows.len()
        invariant
            i <= rows@.len(),
            out@ == stops(rows@, i as int),
        decreases rows@.len() - i,
    {
        if rows[i].selectable() {
            out.push(i);
        }
        i = i + 1;
    }
    proof {
        stops_are_rows(rows@, rows@.len() as int);
    }
    out
}

/// Whether some agent `id` is unread.
pub fn unread_agent(agents: &Vec<AgentInfo>, id: AgentId) -> (b: bool)
    ensures
        b == is_unread(agents@, id),
{
    let mut i: usize = 0;
    while i < agents.len()
        invariant
            i <= agents@.len(),
            forall|k: int| 0 <= k < i ==> !((#[trigger] agents@[k]).id == id && agents@[k].unread),
        decreases agents@.len() - i,
    {
        if agents[i].id == id && agents[i].unread {
            assert(agents@[i as int].id == id && agents@[i as int].unread);
            return true;
        }
        i = i + 1;
    }
    false
}

fn row_is_unread(agents: &Vec<AgentInfo>, here: Option<AgentId>, row: Row) -> (b: bool)
    ensures
        b == unread_row(agents@, here, row),
{
    match row.agent_of() {
        Some(id) => {
            let same = match here {
                Some(h) => h == id,
                None => false,
            };
            !same && unread_agent(agents, id)
        },
        None => false,
    }
}

impl App {
    /// The rows of sidebar that the terminal can show, which is also the size of a page.
    pub fn sidebar_page(&self) -> (n: usize)
        ensures
            n == self@.page(),
            1 <= n <= 65535,
    {
        larger_of(take_off(self.area.height, 2), 1) as usize
    }

    /// Whether the sidebar is drawn as the narrow rail.
    pub fn sidebar_minimized(&self) -> (b: bool)
        ensures
            b == self@.rail(),
    {
        self.area.x < SIDEBAR_W_FULL
    }

    /// The rows of the sidebar.
    pub fn sidebar_rows(&self) -> (rows: Vec<Row>)
        ensures
            rows@ == self@.rows(),
    {
        self.sidebar_rows_for(self.sidebar_minimized())
    }

    /// The rows of the sidebar, for the rail or for the full one.
    pub fn sidebar_rows_for(&self, minimized: bool) -> (rows: Vec<Row>)
        ensures
            rows@ == self@.rows_for(minimized),
    {
        let page: usize = self.sidebar_page();
        sidebar_rows(&self.repos, &self.agents, self.now, page, minimized)
    }

    /// Pull the view onto the cursor. This is called wherever the cursor moves, never on drawing, so
    /// a scroll by wheel stays put until then.
    pub fn scroll_sel_into_view(&mut self)
        ensures
            final(self)@ == old(self)@.scroll_sel_into_view(),
    {
        let rows = self.sidebar_rows();
        match find_sel(&rows, self.sidebar_sel) {
            Some(sel) => {
                let height: usize = self.sidebar_page();
                let top: usize = top_showing(self.sidebar_top, sel, height);
                self.sidebar_top = clamp_top(top, rows.len(), height);
            },
            None => {
                self.sidebar_top = 0;
            },
        }
    }

    /// Put the cursor on `row` on purpose: the roster stops moving it on its own.
    pub fn place_sidebar_sel(&mut self, row: Row)
        ensures
            final(self)@ == old(self)@.place_sidebar_sel(row),
    {
        self.sidebar_sel = Some(row);
        self.sidebar_placed = true;
        self.scroll_sel_into_view();
    }

    /// Keep the cursor on a row that exists. Until it was placed on purpose it goes to the first row
    /// it can land on each time the roster changes.
    pub fn ensure_sidebar_sel(&mut self)
        ensures
            final(self)@ == old(self)@.ensure_sidebar_sel(),
    {
        proof {
            reveal(AppView::ensure_sidebar_sel);
        }
        let rows = self.sidebar_rows();
        let valid = match self.sidebar_sel {
            Some(row) => row.selectable() && find_row(&rows, row).is_some(),
            None => false,
        };
        if !valid || !self.sidebar_placed {
            let s = find_stops(&rows);
            self.sidebar_sel = if s.len() > 0 {
                Some(rows[s[0]])
            } else {
                None
            };
        }
        self.scroll_sel_into_view();
    }

    /// Move the cursor by `delta` rows that it can land on, clamped at the ends.
    pub fn move_sidebar_sel(&mut self, delta: i32)
        ensures
            final(self)@ == old(self)@.move_sidebar_sel(delta as int),
    {
        let rows = self.sidebar_rows();
        let s = find_stops(&rows);
        if s.len() == 0 {
            self.sidebar_sel = None;
            return;
        }
        let mut here: usize = 0;
        if let Some(i) = find_sel(&rows, self.sidebar_sel) {
            let mut k: usize = 0;
            while k < s.len() && s[k] < i
                invariant
                    k <= s@.len(),
                    stop_from(s@, i as int, 0) == stop_from(s@, i as int, k as int),
                decreases s@.len() - k,
            {
                k = k + 1;
            }
            if k < s.len() {
                here = k;
            }
        }
        let last: usize = s.len() - 1;
        let next: usize = if delta < 0 {
            let back: u64 = (-(delta as i64)) as u64;
            if (here as u64) < back {
                0
            } else {
                here - back as usize
            }
        } else {
            let ahead: u64 = delta as u64;
            if ((last - here) as u64) < ahead {
                last
            } else {
                here + ahead as usize
            }
        };
        self.place_sidebar_sel(rows[s[next]]);
    }

    /// The agent under the cursor, if it is on an agent's row.
    pub fn selected_agent(&self) -> (id: Option<AgentId>)
        ensures
            id == self@.selected_agent(),
    {
        match self.sidebar_sel {
            Some(row) => row.agent_of(),
            None => None,
        }
    }

    fn repo_of(&self, id: AgentId) -> (repo: Option<RepoId>)
        ensures
            repo == self@.repo_of(id),
    {
        match find_agent(&self.agents, id) {
            Some(i) => Some(self.agents[i].repo),
            None => None,
        }
    }

    /// The repository that the cursor is in: that of the header it is on, or of its agent.
    pub fn selected_repo(&self) -> (repo: Option<RepoId>)
        ensures
            repo == self@.selected_repo(),
    {
        match self.sidebar_sel {
            Some(Row::Repo(id)) => Some(id),
            Some(Row::EmptyRepo(id)) => Some(id),
            Some(Row::Agent(id)) => self.repo_of(id),
            Some(Row::Attention(id)) => self.repo_of(id),
            Some(Row::Recent(id)) => self.repo_of(id),
            _ => None,
        }
    }

    /// Move the cursor to the next unread agent below or above it, skipping rows of the agent it is
    /// on. There is no wrapping round, and nothing happens when none lies that way.
    pub fn jump_unread(&mut self, down: bool)
        ensures
            final(self)@ == old(self)@.jump_unread(down),
    {
        let rows = self.sidebar_rows();
        let here = self.selected_agent();
        let cur: usize = match find_sel(&rows, self.sidebar_sel) {
            Some(i) => i,
            None => 0,
        };
        if down {
            if cur >= rows.len() {
                return;
            }
            let mut i: usize = cur + 1;
            while i < rows.len()
                invariant
                    cur < i,
                    cur < rows@.len(),
                    i <= rows@.len(),
                    rows@ == self@.rows(),
                    *self == *old(self),
                    here == self@.selected_agent(),
                    down,
                    cur == match sel_place(rows@, self.sidebar_sel) {
                        Some(i) => i,
                        None => 0,
                    },
                    unread_below(self@.agents, here, rows@, cur + 1) == unread_below(
                        self@.agents,
                        here,
                        rows@,
                        i as int,
                    ),
                decreases rows@.len() - i,
            {
                if row_is_unread(&self.agents, here, rows[i]) {
                    self.place_sidebar_sel(rows[i]);
                    return;
                }
                i = i + 1;
            }
        } else {
            let mut i: usize = cur;
            while i > 0
                invariant
                    i <= cur,
                    cur <= rows@.len(),
                    rows@ == self@.rows(),
                    *self == *old(self),
                    here == self@.selected_agent(),
                    !down,
                    cur == match sel_place(rows@, self.sidebar_sel) {
                        Some(i) => i,
                        None => 0,
                    },
                    unread_above(self@.agents, here, rows@, cur as int) == unread_above(
                        self@.agents,
                        here,
                        rows@,
                        i as int,
                    ),
                decreases i,
            {
                if row_is_unread(&self.agents, here, rows[i - 1]) {
                    self.place_sidebar_sel(rows[i - 1]);
                    return;
                }
                i = i - 1;
            }
        }
    }

    /// Scroll the sidebar's view by `delta` rows and leave the cursor alone: what the wheel does.
    pub fn scroll_sidebar(&mut self, delta: i32)
        ensures
            final(self)@ == old(self)@.scroll_sidebar(delta as int),
    {
        let len: usize = self.sidebar_rows().len();
        let page: usize = self.sidebar_page();
        let top: usize = if delta < 0 {
            let back: u64 = (-(delta as i64)) as u64;
            if (self.sidebar_top as u64) < back {
                0
            } else {
                self.sidebar_top - back as usize
            }
        } else {
            let ahead: usize = delta as usize;
            if self.sidebar_top > usize::MAX - ahead {
                usize::MAX
            } else {
                self.sidebar_top + ahead
            }
        };
        self.sidebar_top = clamp_top(top, len, page);
    }

    /// The agents in sidebar order, each once: what the numeric shortcuts number.
    pub fn ordered_agent_ids(&self) -> (ids: Vec<AgentId>)
        ensures
            ids@ == agent_order(self@.rows()),
    {
        let rows = self.sidebar_rows();
        order_of_agents(&rows)
    }

    /// Whether the numbers are shown: while Super is held, or the prefix is armed.
    pub fn numeric_overlay_active(&self) -> (b: bool)
        ensures
            b == (self@.super_held || self@.prefix),
    {
        self.super_held || self.prefix
    }

    /// The agent that digit `c` names in the current order, if any.
    pub fn numbered_agent(&self, c: char) -> (id: Option<AgentId>)
        ensures
            id == self@.numbered_agent(c),
    {
        match digit_index(c) {
            Some(i) => {
                let ids = self.ordered_agent_ids();
                if i < ids.len() {
                    Some(ids[i])
                } else {
                    None
                }
            },
            None => None,
        }
    }

    /// The agent that was in the main area before the current one, if it is still there.
    pub fn previous_agent(&self) -> (id: Option<AgentId>)
        ensures
            id == self@.previous_agent(),
    {
        match self.prev_active_agent {
            Some(id) => if find_agent(&self.agents, id).is_some() {
                Some(id)
            } else {
                None
            },
            None => None,
        }
    }
}

// --- what holds of the cursor ---

pub(crate) proof fn row_from_is_one(rows: Seq<Row>, row: Row, i: int)
    requires
        0 <= i,
    ensures
        row_from(rows, row, i) matches Some(k) ==> i <= k < rows.len() && rows[k] == row,
        row_from(rows, row, i) is None ==> forall|k: int| i <= k < rows.len() ==> #[trigger] rows[k] != row,
    decreases rows.len() - i,
{
    if i < rows.len() && rows[i] != row {
        row_from_is_one(rows, row, i + 1);
    }
}

/// After the roster changed, the cursor is on a row that it can land on, if there is one, and that
/// row is in view.
pub proof fn cursor_stays_on_a_row(v: AppView)
    requires
        v.rows().len() <= usize::MAX,
    ensures
        ({
            let w = v.ensure_sidebar_sel();
            &&& w.rows() == v.rows()
            &&& stops(v.rows(), v.rows().len() as int).len() > 0 ==> w.sel_is_valid()
            &&& sel_place(w.rows(), w.sidebar_sel) matches Some(i) ==> w.sidebar_top <= i
                < w.sidebar_top + w.page()
        }),
{
    reveal(AppView::ensure_sidebar_sel);
    let rows = v.rows();
    let n = rows.len() as int;
    stops_are_rows(rows, n);
    let w = v.ensure_sidebar_sel();
    if !(v.sel_is_valid() && v.sidebar_placed) {
        let s = stops(rows, n);
        if s.len() > 0 {
            assert(s[0] < n);
            row_from_is_one(rows, rows[s[0] as int], 0);
        }
    }
    if let Some(row) = w.sidebar_sel {
        row_from_is_one(rows, row, 0);
    }
    if let Some(i) = sel_place(rows, w.sidebar_sel) {
        scrolled_view_shows_the_row(v.sidebar_top as int, i, n, v.page());
    }
}

/// Moving the cursor puts it on a row it can land on, in view.
pub proof fn moving_lands_on_a_row(v: AppView, delta: int)
    requires
        v.rows().len() <= usize::MAX,
        stops(v.rows(), v.rows().len() as int).len() > 0,
    ensures
        ({
            let w = v.move_sidebar_sel(delta);
            &&& w.sel_is_valid()
            &&& sel_place(w.rows(), w.sidebar_sel) matches Some(i) && w.sidebar_top <= i
                < w.sidebar_top + w.page()
        }),
{
    let rows = v.rows();
    let n = rows.len() as int;
    stops_are_rows(rows, n);
    let w = v.move_sidebar_sel(delta);
    let row = w.sidebar_sel->0;
    let s = stops(rows, n);
    let here = match sel_place(rows, v.sidebar_sel) {
        Some(i) => match stop_from(s, i, 0) {
            Some(k) => k,
            None => 0,
        },
        None => 0,
    };
    let next = clamp_int(here + delta, 0, s.len() - 1);
    assert(s[next] < n);
    assert(rows[s[next] as int].stops());
    assert(row == rows[s[next] as int]);
    row_from_is_one(rows, row, 0);
    let i = sel_place(rows, w.sidebar_sel)->0;
    scrolled_view_shows_the_row(v.sidebar_top as int, i, n, v.page());
}

proof fn unread_below_is_one(agents: Seq<AgentInfo>, here: Option<AgentId>, rows: Seq<Row>, i: int)
    requires
        0 <= i,
    ensures
        unread_below(agents, here, rows, i) matches Some(k) ==> i <= k < rows.len() && unread_row(agents, here, rows[k]),
    decreases rows.len() - i,
{
    if i < rows.len() && !unread_row(agents, here, rows[i]) {
        unread_below_is_one(agents, here, rows, i + 1);
    }
}

proof fn unread_above_is_one(agents: Seq<AgentInfo>, here: Option<AgentId>, rows: Seq<Row>, i: int)
    requires
        i <= rows.len(),
    ensures
        unread_above(agents, here, rows, i) matches Some(k) ==> 0 <= k < i && unread_row(agents, here, rows[k]),
    decreases i,
{
    if i > 0 && !unread_row(agents, here, rows[i - 1]) {
        unread_above_is_one(agents, here, rows, i - 1);
    }
}

/// A jump to an unread agent always lands on another agent than the one under the cursor, and on an
/// unread one.
pub proof fn jumping_lands_on_another_unread_agent(v: AppView, down: bool)
    requires
        v.unread_target(down) is Some,
    ensures
        ({
            let w = v.jump_unread(down);
            &&& w.selected_agent() matches Some(id) && is_unread(v.agents, id)
            &&& w.selected_agent() != v.selected_agent()
        }),
{
    let rows = v.rows();
    let here = v.selected_agent();
    let cur = match sel_place(rows, v.sidebar_sel) {
        Some(i) => i,
        None => 0,
    };
    if let Some(row) = v.sidebar_sel {
        row_from_is_one(rows, row, 0);
    }
    if down {
        unread_below_is_one(v.agents, here, rows, cur + 1);
    } else {
        unread_above_is_one(v.agents, here, rows, cur);
    }
}

} // verus!
