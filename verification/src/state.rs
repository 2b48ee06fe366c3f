//! The state of the client: a projection of what the daemon told it, and where its user is.

use vstd::prelude::*;
use crate::emulator::{after_feed, after_resize, Emulator, VtStep};
use crate::geometry::{
    add_to, bring_within, larger_of, minus, plus, rect, smaller_of, take_off, within, Rect, Size,
};
use crate::ids::{AgentId, RepoId, TerminalId};
use crate::pane::{Layout, PaneTree, TreeView};
use crate::selection::Selection;
use crate::sidebar::{has_id, main_area, mini_width, spec_main_area, spec_mini_width, Row};
use crate::table::{lookup, place, place_is_where, put, Table};
use crate::text::opt_text;
use crate::theme::{profile_theme, Profile, Theme};
use crate::time::Moment;
use crate::wire::{AgentInfo, ClientMsg, MsgView, Outbox, RepoInfo};

verus! {

/// Rows of the minis band at most; it never takes more than half the main area.
pub const MINI_ROWS: u16 = 14;

/// Width of a minimized mini.
pub const MINI_STRIP_W: u16 = 12;

/// Where keys go.
#[derive(Clone, Copy, Debug, PartialEq, Eq, Structural)]
pub enum Focus {
    Sidebar,
    Panes,
    /// One of the minis, counted from the left.
    Mini(usize),
}

/// The field of a prompt that is being edited.
#[derive(Clone, Copy, Debug, PartialEq, Eq, Structural)]
pub enum Field {
    Dir,
    Branch,
    /// The task to start the agent on. It may stay empty: the agent then waits at its prompt.
    Task,
}

/// What typed text is for.
#[derive(Clone, Copy, Debug, PartialEq, Eq, Structural)]
pub enum InputMode {
    Normal,
    /// A branch and a task, for an agent in the repository under the cursor.
    Creating,
    /// A directory and a branch, for an agent in a repository given by its path.
    CreatingRepo,
    /// A directory, for a session on the head of the repository there.
    CreatingHead,
    /// A yes or no.
    Confirming,
}

/// Whether the client goes on.
#[derive(Clone, Copy, Debug, PartialEq, Eq, Structural)]
pub enum Flow {
    Continue,
    Quit,
}

/// A pane scrolled back into its history: one screenful, as the daemon served it.
///
/// The daemon holds the history and the place in it; the client holds no scrollback of its own.
pub struct Scroll {
    pub terminal: TerminalId,
    pub parser: Emulator,
    /// Lines back from the live view, and how far back the history goes.
    pub offset: usize,
    pub available: usize,
}

/// What a scrolled pane shows.
pub struct ScrollView {
    pub terminal: TerminalId,
    pub screen: Seq<VtStep>,
    pub offset: usize,
    pub available: usize,
}

impl View for Scroll {
    type V = ScrollView;

    open spec fn view(&self) -> ScrollView {
        ScrollView {
            terminal: self.terminal,
            screen: self.parser@,
            offset: self.offset,
            available: self.available,
        }
    }
}

/// A press of the left button: the first half of a double-click, perhaps. `at` is in nanoseconds of
/// a clock that never goes back.
#[derive(Clone, Copy, Debug, PartialEq, Eq)]
pub struct Click {
    pub at: u64,
    pub column: u16,
    pub row: u16,
    pub terminal: TerminalId,
}

impl View for AgentId {
    type V = AgentId;

    open spec fn view(&self) -> AgentId {
        *self
    }
}

impl View for Size {
    type V = Size;

    open spec fn view(&self) -> Size {
        *self
    }
}

/// The client.
///
/// It is driven by events: the daemon's messages and the outer terminal's input. What it wants done
/// outside goes into `outbox`. Before an event it is told the time (`now`, and `tick` for the clock
/// that never goes back), and it is given `fresh` ids for the terminals that the event may need.
pub struct App {
    pub repos: Vec<RepoInfo>,
    pub agents: Vec<AgentInfo>,
    pub sidebar_sel: Option<Row>,
    /// Whether the cursor was ever placed on purpose. Until then it goes to the best row there is
    /// each time the roster changes: repositories arrive before agents do.
    pub sidebar_placed: bool,
    /// The topmost row in view. It is kept, so that a scroll by wheel survives a redraw.
    pub sidebar_top: usize,
    /// The panes of the active agent. Each agent has panes of its own.
    pub tree: PaneTree<TerminalId>,
    /// The panes of the other agents that were opened in this session.
    pub trees: Table<AgentId, PaneTree<TerminalId>>,
    /// Layouts from earlier sessions, for agents not opened in this one yet.
    pub saved_layouts: Table<AgentId, Layout>,
    pub active_agent: Option<AgentId>,
    /// The agent that was active before.
    pub prev_active_agent: Option<AgentId>,
    pub terminals: Table<TerminalId, AgentId>,
    pub parsers: Table<TerminalId, Emulator>,
    pub attached: Table<TerminalId, Size>,
    /// Terminals whose program wants the movement keys for itself.
    pub passthrough: Table<TerminalId, bool>,
    pub focus: Focus,
    pub theme: Theme,
    /// Agents shown in small windows over the bottom of the main area, from left to right.
    pub minis: Vec<AgentId>,
    /// Minis that show only their status.
    pub minimized: Vec<AgentId>,
    pub minis_hidden: bool,
    /// Where the focus was before it went to the minis.
    pub focus_return: Focus,
    /// The agent last reported to the daemon as being viewed.
    pub focus_agent: Option<AgentId>,
    pub input: InputMode,
    pub prefix: bool,
    pub super_held: bool,
    pub resize_mode: bool,
    pub scroll: Option<Scroll>,
    pub selection: Option<Selection>,
    pub last_click: Option<Click>,
    pub create_buf: String,
    pub dir_buf: String,
    pub task_buf: String,
    pub create_field: Field,
    pub create_repo: Option<RepoId>,
    pub confirm_id: Option<AgentId>,
    pub confirm_msg: String,
    /// An error to show until the next key.
    pub status: String,
    /// A notice to show until the next key.
    pub info: String,
    /// The main area.
    pub area: Rect,
    pub now: Moment,
    pub tick: u64,
    pub fresh: Vec<TerminalId>,
    pub home: Option<String>,
    pub outbox: Outbox,
}

/// What the client knows.
pub struct AppView {
    pub repos: Seq<RepoInfo>,
    pub agents: Seq<AgentInfo>,
    pub sidebar_sel: Option<Row>,
    pub sidebar_placed: bool,
    pub sidebar_top: usize,
    pub tree: TreeView<TerminalId>,
    pub trees: Seq<(AgentId, TreeView<TerminalId>)>,
    pub saved_layouts: Seq<(AgentId, Layout)>,
    pub active_agent: Option<AgentId>,
    pub prev_active_agent: Option<AgentId>,
    pub terminals: Seq<(TerminalId, AgentId)>,
    pub parsers: Seq<(TerminalId, Seq<VtStep>)>,
    pub attached: Seq<(TerminalId, Size)>,
    pub passthrough: Seq<(TerminalId, bool)>,
    pub focus: Focus,
    pub theme: Theme,
    pub minis: Seq<AgentId>,
    pub minimized: Seq<AgentId>,
    pub minis_hidden: bool,
    pub focus_return: Focus,
    pub focus_agent: Option<AgentId>,
    pub input: InputMode,
    pub prefix: bool,
    pub super_held: bool,
    pub resize_mode: bool,
    pub scroll: Option<ScrollView>,
    pub selection: Option<Selection>,
    pub last_click: Option<Click>,
    pub create_buf: Seq<char>,
    pub dir_buf: Seq<char>,
    pub task_buf: Seq<char>,
    pub create_field: Field,
    pub create_repo: Option<RepoId>,
    pub confirm_id: Option<AgentId>,
    pub confirm_msg: Seq<char>,
    pub status: Seq<char>,
    pub info: Seq<char>,
    pub area: Rect,
    pub now: Moment,
    pub tick: u64,
    pub fresh: Seq<TerminalId>,
    pub home: Option<Seq<char>>,
    pub out: Seq<MsgView>,
}

/// What an optional scrolled pane shows.
pub open spec fn scroll_view(s: Option<Scroll>) -> Option<ScrollView> {
    match s {
        Some(s) => Some(s@),
        None => None,
    }
}

impl View for App {
    type V = AppView;

    open spec fn view(&self) -> AppView {
        AppView {
            repos: self.repos@,
            agents: self.agents@,
            sidebar_sel: self.sidebar_sel,
            sidebar_placed: self.sidebar_placed,
            sidebar_top: self.sidebar_top,
            tree: self.tree@,
            trees: self.trees@,
            saved_layouts: self.saved_layouts@,
            active_agent: self.active_agent,
            prev_active_agent: self.prev_active_agent,
            terminals: self.terminals@,
            parsers: self.parsers@,
            attached: self.attached@,
            passthrough: self.passthrough@,
            focus: self.focus,
            theme: self.theme,
            minis: self.minis@,
            minimized: self.minimized@,
            minis_hidden: self.minis_hidden,
            focus_return: self.focus_return,
            focus_agent: self.focus_agent,
            input: self.input,
            prefix: self.prefix,
            super_held: self.super_held,
            resize_mode: self.resize_mode,
            scroll: scroll_view(self.scroll),
            selection: self.selection,
            last_click: self.last_click,
            create_buf: self.create_buf@,
            dir_buf: self.dir_buf@,
            task_buf: self.task_buf@,
            create_field: self.create_field,
            create_repo: self.create_repo,
            confirm_id: self.confirm_id,
            confirm_msg: self.confirm_msg@,
            status: self.status@,
            info: self.info@,
            area: self.area,
            now: self.now,
            tick: self.tick,
            fresh: self.fresh@,
            home: opt_text(self.home),
            out: self.outbox@,
        }
    }
}

// --- finding things ---

/// The place of the first agent `id` from `i` on.
pub open spec fn agent_from(agents: Seq<AgentInfo>, id: AgentId, i: int) -> Option<int>
    decreases agents.len() - i,
{
    if i >= agents.len() {
        None
    } else if agents[i].id == id {
        Some(i)
    } else {
        agent_from(agents, id, i + 1)
    }
}

/// The place of agent `id`.
pub open spec fn agent_place(agents: Seq<AgentInfo>, id: AgentId) -> Option<int> {
    agent_from(agents, id, 0)
}

/// Whether there is an agent `id`.
pub open spec fn has_agent(agents: Seq<AgentInfo>, id: AgentId) -> bool {
    agent_place(agents, id) is Some
}

/// The primary terminal of agent `id`.
pub open spec fn primary_of(agents: Seq<AgentInfo>, id: AgentId) -> Option<TerminalId> {
    match agent_place(agents, id) {
        Some(i) => Some(agents[i].primary_terminal),
        None => None,
    }
}

/// The place found is that of an agent with the id asked for.
pub proof fn agent_place_is_one(agents: Seq<AgentInfo>, id: AgentId, i: int)
    requires
        0 <= i,
    ensures
        agent_from(agents, id, i) matches Some(k) ==> i <= k < agents.len() && agents[k].id == id,
        agent_from(agents, id, i) is None ==> forall|k: int|
            i <= k < agents.len() ==> (#[trigger] agents[k]).id != id,
    decreases agents.len() - i,
{
    if i < agents.len() && agents[i].id != id {
        agent_place_is_one(agents, id, i + 1);
    }
}

/// The place of agent `id`, if there is one.
pub fn find_agent(agents: &Vec<AgentInfo>, id: AgentId) -> (at: Option<usize>)
    ensures
        match (at, agent_place(agents@, id)) {
            (Some(i), Some(j)) => i as int == j,
            (None, None) => true,
            _ => false,
        },
        at is Some ==> at->0 < agents@.len(),
{
    let mut i: usize = 0;
    while i < agents.len()
        invariant
            i <= agents@.len(),
            agent_place(agents@, id) == agent_from(agents@, id, i as int),
        decreases agents@.len() - i,
    {
        if agents[i].id == id {
            return Some(i);
        }
        i = i + 1;
    }
    None
}

/// The primary terminal of agent `id`, if there is one.
pub fn find_primary(agents: &Vec<AgentInfo>, id: AgentId) -> (t: Option<TerminalId>)
    ensures
        t == primary_of(agents@, id),
{
    match find_agent(agents, id) {
        Some(i) => Some(agents[i].primary_terminal),
        None => None,
    }
}

/// `ids` without `id`.
pub open spec fn without_id(ids: Seq<AgentId>, id: AgentId) -> Seq<AgentId>
    decreases ids.len(),
{
    if ids.len() == 0 {
        ids
    } else if ids.last() == id {
        without_id(ids.drop_last(), id)
    } else {
        without_id(ids.drop_last(), id).push(ids.last())
    }
}

/// What was taken out is gone, and everything else is still there.
pub proof fn without_id_drops_it(ids: Seq<AgentId>, id: AgentId)
    ensures
        !without_id(ids, id).contains(id),
        forall|x: AgentId| x != id ==> #[trigger] without_id(ids, id).contains(x) == ids.contains(x),
        without_id(ids, id).len() <= ids.len(),
    decreases ids.len(),
{
    if ids.len() > 0 {
        let front = ids.drop_last();
        without_id_drops_it(front, id);
        let out = without_id(ids, id);
        assert forall|x: AgentId| x != id implies #[trigger] out.contains(x) == ids.contains(x) by {
            if ids.contains(x) {
                let k = choose|k: int| 0 <= k < ids.len() && ids[k] == x;
                if k < front.len() {
                    assert(front[k] == x);
                    assert(without_id(front, id).contains(x));
                    let j = choose|j: int|
                        0 <= j < without_id(front, id).len() && without_id(front, id)[j] == x;
                    assert(out[j] == x);
                } else {
                    assert(out[out.len() - 1] == x);
                }
            }
            if out.contains(x) {
                let k = choose|k: int| 0 <= k < out.len() && out[k] == x;
                if k < without_id(front, id).len() {
                    assert(without_id(front, id)[k] == x);
                    assert(without_id(front, id).contains(x));
                    assert(front.contains(x));
                    let j = choose|j: int| 0 <= j < front.len() && front[j] == x;
                    assert(ids[j] == x);
                } else {
                    assert(ids[ids.len() - 1] == x);
                }
            }
        }
    }
}

/// `ids` without `id`, computed.
pub fn remove_id(ids: &Vec<AgentId>, id: AgentId) -> (out: Vec<AgentId>)
    ensures
        out@ == without_id(ids@, id),
{
    let mut out: Vec<AgentId> = Vec::new();
    let mut i: usize = 0;
    assert(ids@.take(0) =~= Seq::<AgentId>::empty());
    while i < ids.len()
        invariant
            i <= ids@.len(),
            out@ == without_id(ids@.take(i as int), id),
        decreases ids@.len() - i,
    {
        assert(ids@.take(i + 1).drop_last() =~= ids@.take(i as int));
        if ids[i] != id {
            out.push(ids[i]);
        }
        i = i + 1;
    }
    assert(ids@.take(ids@.len() as int) =~= ids@);
    out
}

/// A copy of `ids`.
pub fn copy_ids(ids: &Vec<AgentId>) -> (out: Vec<AgentId>)
    ensures
        out@ == ids@,
{
    let mut out: Vec<AgentId> = Vec::new();
    let mut i: usize = 0;
    while i < ids.len()
        invariant
            i <= ids@.len(),
            out@ == ids@.take(i as int),
        decreases ids@.len() - i,
    {
        out.push(ids[i]);
        assert(out@ =~= ids@.take(i + 1));
        i = i + 1;
    }
    assert(out@ =~= ids@);
    out
}

/// The place of `id` in `ids` from `i` on.
pub open spec fn id_from(ids: Seq<AgentId>, id: AgentId, i: int) -> Option<int>
    decreases ids.len() - i,
{
    if i >= ids.len() {
        None
    } else if ids[i] == id {
        Some(i)
    } else {
        id_from(ids, id, i + 1)
    }
}

/// The place of `id` in `ids`, if it has one.
pub fn find_id(ids: &Vec<AgentId>, id: AgentId) -> (at: Option<usize>)
    ensures
        match (at, id_from(ids@, id, 0)) {
            (Some(i), Some(j)) => i as int == j,
            (None, None) => true,
            _ => false,
        },
        at is Some ==> at->0 < ids@.len(),
{
    let mut i: usize = 0;
    while i < ids.len()
        invariant
            i <= ids@.len(),
            id_from(ids@, id, 0) == id_from(ids@, id, i as int),
        decreases ids@.len() - i,
    {
        if ids[i] == id {
            return Some(i);
        }
        i = i + 1;
    }
    None
}

/// `parsers` after `bytes` were offered to the emulator of `t`, if it has one.
pub open spec fn fed(
    parsers: Seq<(TerminalId, Seq<VtStep>)>,
    t: TerminalId,
    bytes: Seq<u8>,
) -> Seq<(TerminalId, Seq<VtStep>)> {
    match lookup(parsers, t) {
        Some(h) => put(parsers, t, after_feed(h, bytes)),
        None => parsers,
    }
}

/// `parsers` with an emulator of size `size` for `t`: the one it has, resized, or a new one.
pub open spec fn fitted_parser(
    parsers: Seq<(TerminalId, Seq<VtStep>)>,
    t: TerminalId,
    size: Size,
) -> Seq<(TerminalId, Seq<VtStep>)> {
    match lookup(parsers, t) {
        Some(h) => put(parsers, t, after_resize(h, size.rows, size.cols)),
        None => put(parsers, t, seq![VtStep::Start { rows: size.rows, cols: size.cols }]),
    }
}

/// Offer `bytes` to the emulator of `t`, if it has one.
pub fn feed_parser(parsers: &mut Table<TerminalId, Emulator>, t: TerminalId, bytes: &[u8])
    ensures
        final(parsers)@ == fed(old(parsers)@, t, bytes@),
{
    let ghost before = parsers@;
    if let Some(i) = parsers.find(t) {
        proof {
            place_is_where(before, t);
        }
        let (k, e) = parsers.items.remove(i);
        let e = e.fed(bytes);
        parsers.items.insert(i, (k, e));
        assert(parsers@ =~= fed(before, t, bytes@));
    }
}

/// Give `t` an emulator of size `size`.
pub fn fit_parser(parsers: &mut Table<TerminalId, Emulator>, t: TerminalId, size: Size)
    requires
        size.rows >= 1,
        size.cols >= 1,
    ensures
        final(parsers)@ == fitted_parser(old(parsers)@, t, size),
{
    let ghost before = parsers@;
    match parsers.find(t) {
        Some(i) => {
            proof {
                place_is_where(before, t);
            }
            let (k, e) = parsers.items.remove(i);
            let e = e.resized(size.rows, size.cols);
            parsers.items.insert(i, (k, e));
            assert(parsers@ =~= fitted_parser(before, t, size));
        },
        None => {
            parsers.set(t, Emulator::new(size.rows, size.cols));
        },
    }
}

// --- areas ---

impl AppView {
    /// The client with a message for the daemon put into the outbox.
    pub open spec fn send(self, msg: MsgView) -> AppView {
        AppView { out: self.out.push(msg), ..self }
    }

    /// Whether `t` is some agent's primary terminal.
    pub open spec fn is_primary(self, t: TerminalId) -> bool {
        exists|i: int| 0 <= i < self.agents.len() && (#[trigger] self.agents[i]).primary_terminal == t
    }

    /// The band that the minis float in, when there are any to see.
    pub open spec fn minis_band(self) -> Option<Rect> {
        if self.minis.len() == 0 || self.minis_hidden {
            None
        } else {
            let h = within(self.area.height / 2, 3, MINI_ROWS);
            Some(
                rect(
                    self.area.x,
                    plus(self.area.y, minus(self.area.height, (h + 1) as u16)),
                    minus(self.area.width, 1),
                    h,
                ),
            )
        }
    }

    /// The width that mini `i` would take in a band of the given width.
    pub open spec fn mini_w(self, band: Rect, i: int) -> u16 {
        if self.minimized.contains(self.minis[i]) {
            MINI_STRIP_W
        } else {
            spec_mini_width(band.width)
        }
    }

    /// The widths of the first `n` minis together.
    pub open spec fn minis_total(self, band: Rect, n: int) -> int
        decreases n,
    {
        if n <= 0 {
            0
        } else {
            self.minis_total(band, n - 1) + self.mini_w(band, n - 1)
        }
    }

    /// The column at which mini `i` begins. The minis stand side by side against the right edge of
    /// the band; where they do not fit, the first begins at its left edge.
    pub open spec fn mini_x(self, band: Rect, i: int) -> int
        decreases i, 0int,
    {
        if i <= 0 {
            let free = band.spec_right() - self.minis_total(band, self.minis.len() as int);
            if free > band.x {
                free
            } else {
                band.x as int
            }
        } else {
            self.mini_x(band, i - 1) + self.mini_clipped(band, i - 1)
        }
    }

    /// The width of mini `i`, cut at the right edge of the band.
    pub open spec fn mini_clipped(self, band: Rect, i: int) -> int
        decreases i, 1int,
    {
        let left = band.spec_right() - self.mini_x(band, i);
        if self.mini_w(band, i) <= left {
            self.mini_w(band, i) as int
        } else {
            left
        }
    }

    /// The rectangle of each mini.
    pub open spec fn mini_rects(self, band: Rect) -> Seq<Rect> {
        Seq::new(
            self.minis.len(),
            |i: int|
                rect(
                    self.mini_x(band, i) as u16,
                    band.y,
                    self.mini_clipped(band, i) as u16,
                    band.height,
                ),
        )
    }

    /// The terminal of mini `i`.
    pub open spec fn mini_terminal(self, i: int) -> Option<TerminalId> {
        if 0 <= i < self.minis.len() {
            primary_of(self.agents, self.minis[i])
        } else {
            None
        }
    }

    /// The terminal that keys go to.
    pub open spec fn focused_terminal(self) -> Option<TerminalId> {
        match self.focus {
            Focus::Panes => self.tree.focused_payload(),
            Focus::Mini(i) => self.mini_terminal(i as int),
            Focus::Sidebar => None,
        }
    }

    /// The client as it starts in a terminal of the given size.
    pub open spec fn initial(cols: u16, rows: u16) -> AppView {
        AppView {
            repos: Seq::empty(),
            agents: Seq::empty(),
            sidebar_sel: None,
            sidebar_placed: false,
            sidebar_top: 0,
            tree: TreeView::<TerminalId>::empty(),
            trees: Seq::empty(),
            saved_layouts: Seq::empty(),
            active_agent: None,
            prev_active_agent: None,
            terminals: Seq::empty(),
            parsers: Seq::empty(),
            attached: Seq::empty(),
            passthrough: Seq::empty(),
            focus: Focus::Sidebar,
            theme: profile_theme(Profile::Blue),
            minis: Seq::empty(),
            minimized: Seq::empty(),
            minis_hidden: false,
            focus_return: Focus::Sidebar,
            focus_agent: None,
            input: InputMode::Normal,
            prefix: false,
            super_held: false,
            resize_mode: false,
            scroll: None,
            selection: None,
            last_click: None,
            create_buf: Seq::empty(),
            dir_buf: Seq::empty(),
            task_buf: Seq::empty(),
            create_field: Field::Dir,
            create_repo: None,
            confirm_id: None,
            confirm_msg: Seq::empty(),
            status: Seq::empty(),
            info: Seq::empty(),
            area: spec_main_area(cols, rows),
            now: Moment { secs: 0, nanos: 0 },
            tick: 0,
            fresh: Seq::empty(),
            home: None,
            out: Seq::empty(),
        }
    }
}

pub(crate) proof fn minis_stay_in_band(v: AppView, band: Rect, i: int)
    requires
        0 <= i <= v.minis.len(),
    ensures
        band.x <= v.mini_x(band, i) <= band.spec_right(),
        i < v.minis.len() ==> 0 <= v.mini_clipped(band, i),
        i < v.minis.len() ==> v.mini_x(band, i) + v.mini_clipped(band, i) <= band.spec_right(),
        v.minis_total(band, i) >= 0,
    decreases i,
{
    if i > 0 {
        minis_stay_in_band(v, band, i - 1);
    } else {
        minis_total_is_not_negative(v, band, v.minis.len() as int);
    }
}

proof fn minis_total_is_not_negative(v: AppView, band: Rect, n: int)
    ensures
        v.minis_total(band, n) >= 0,
    decreases n,
{
    if n > 0 {
        minis_total_is_not_negative(v, band, n - 1);
    }
}

/// Minis lie side by side, from left to right, within their band.
pub proof fn minis_lie_side_by_side(v: AppView, band: Rect, i: int)
    requires
        0 <= i < v.minis.len(),
        band.fits(),
    ensures
        ({
            let rects = v.mini_rects(band);
            &&& rects[i].x >= band.x
            &&& rects[i].x + rects[i].width <= band.x + band.width
            &&& rects[i].y == band.y && rects[i].height == band.height
            &&& i + 1 < v.minis.len() ==> rects[i + 1].x == rects[i].x + rects[i].width
        }),
{
    minis_stay_in_band(v, band, i);
    if i + 1 < v.minis.len() {
        minis_stay_in_band(v, band, i + 1);
    }
}

proof fn unclipped_minis(v: AppView, band: Rect, i: int)
    requires
        0 <= i <= v.minis.len(),
        band.x + v.minis_total(band, v.minis.len() as int) <= band.spec_right(),
    ensures
        v.mini_x(band, i) == band.spec_right() - v.minis_total(band, v.minis.len() as int)
            + v.minis_total(band, i),
    decreases i,
{
    if i > 0 {
        unclipped_minis(v, band, i - 1);
        minis_total_grows(v, band, i, v.minis.len() as int);
        assert(v.minis_total(band, i) == v.minis_total(band, i - 1) + v.mini_w(band, i - 1));
        assert(v.mini_clipped(band, i - 1) == v.mini_w(band, i - 1));
        assert(v.mini_x(band, i) == v.mini_x(band, i - 1) + v.mini_clipped(band, i - 1));
    }
}

proof fn minis_total_grows(v: AppView, band: Rect, a: int, b: int)
    requires
        0 <= a <= b,
    ensures
        v.minis_total(band, a) <= v.minis_total(band, b),
    decreases b,
{
    if a < b {
        minis_total_grows(v, band, a, b - 1);
    }
}

/// Where the minis fit they have their full widths, and the last one ends at the right edge.
pub proof fn minis_end_at_the_right_edge(v: AppView, band: Rect, i: int)
    requires
        0 <= i < v.minis.len(),
        band.fits(),
        v.minis_total(band, v.minis.len() as int) <= band.width,
    ensures
        ({
            let rects = v.mini_rects(band);
            &&& rects[i].width == v.mini_w(band, i)
            &&& i + 1 == v.minis.len() ==> rects[i].x + rects[i].width == band.x + band.width
        }),
{
    minis_stay_in_band(v, band, i);
    unclipped_minis(v, band, i);
    unclipped_minis(v, band, i + 1);
    minis_total_grows(v, band, i + 1, v.minis.len() as int);
}

impl App {
    /// The client as it starts in a terminal of the given size.
    pub fn new(cols: u16, rows: u16) -> (app: App)
        ensures
            app@ == AppView::initial(cols, rows),
    {
        let app = App {
            repos: Vec::new(),
            agents: Vec::new(),
            sidebar_sel: None,
            sidebar_placed: false,
            sidebar_top: 0,
            tree: PaneTree::new(),
            trees: Table::new(),
            saved_layouts: Table::new(),
            active_agent: None,
            prev_active_agent: None,
            terminals: Table::new(),
            parsers: Table::new(),
            attached: Table::new(),
            passthrough: Table::new(),
            focus: Focus::Sidebar,
            theme: Theme::for_profile(Profile::Blue),
            minis: Vec::new(),
            minimized: Vec::new(),
            minis_hidden: false,
            focus_return: Focus::Sidebar,
            focus_agent: None,
            input: InputMode::Normal,
            prefix: false,
            super_held: false,
            resize_mode: false,
            scroll: None,
            selection: None,
            last_click: None,
            create_buf: String::new(),
            dir_buf: String::new(),
            task_buf: String::new(),
            create_field: Field::Dir,
            create_repo: None,
            confirm_id: None,
            confirm_msg: String::new(),
            status: String::new(),
            info: String::new(),
            area: main_area(cols, rows),
            now: Moment { secs: 0, nanos: 0 },
            tick: 0,
            fresh: Vec::new(),
            home: None,
            outbox: Outbox::new(),
        };
        assert(app@.create_buf =~= Seq::<char>::empty());
        app
    }

    /// Put a message for the daemon into the outbox.
    pub fn send(&mut self, msg: ClientMsg)
        ensures
            final(self)@ == old(self)@.send(msg@),
    {
        self.outbox.send(msg);
    }

    /// Whether `t` is some agent's primary terminal.
    pub fn is_primary(&self, t: TerminalId) -> (b: bool)
        ensures
            b == self@.is_primary(t),
    {
        let mut i: usize = 0;
        while i < self.agents.len()
            invariant
                i <= self.agents@.len(),
                forall|k: int| 0 <= k < i ==> (#[trigger] self.agents@[k]).primary_terminal != t,
            decreases self.agents@.len() - i,
        {
            if self.agents[i].primary_terminal == t {
                assert(self@.agents[i as int].primary_terminal == t);
                return true;
            }
            i = i + 1;
        }
        false
    }

    /// The pane region, which is always the whole main area, and the band that the minis float in at
    /// its bottom, when there are any to see.
    pub fn regions(&self) -> (out: (Rect, Option<Rect>))
        ensures
            out.0 == self@.area,
            out.1 == self@.minis_band(),
    {
        if self.minis.len() == 0 || self.minis_hidden {
            return (self.area, None);
        }
        let h: u16 = bring_within(self.area.height / 2, 3, MINI_ROWS);
        // One cell is left free below and to the right, for the shadow.
        let band = Rect::new(
            self.area.x,
            add_to(self.area.y, take_off(self.area.height, h + 1)),
            take_off(self.area.width, 1),
            h,
        );
        (self.area, Some(band))
    }

    fn mini_width_at(&self, band: Rect, i: usize) -> (w: u16)
        requires
            i < self.minis@.len(),
        ensures
            w == self@.mini_w(band, i as int),
    {
        if has_id(&self.minimized, self.minis[i]) {
            MINI_STRIP_W
        } else {
            mini_width(band.width)
        }
    }

    /// The rectangle of each mini: windows side by side in the bottom right of the band, the newest
    /// in the corner.
    pub fn mini_rects(&self, band: Rect) -> (rects: Vec<Rect>)
        ensures
            rects@ == self@.mini_rects(band),
    {
        let n: usize = self.minis.len();
        let mut total: u32 = 0;
        let mut i: usize = 0;
        let ghost v = self@;
        while i < n
            invariant
                n == self.minis@.len(),
                v == self@,
                i <= n,
                total <= 0x2_0000,
                total == v.minis_total(band, i as int) || (total > 0xffff && v.minis_total(
                    band,
                    i as int,
                ) > 0xffff),
            decreases n - i,
        {
            let w: u16 = self.mini_width_at(band, i);
            if total <= 0xffff {
                total = total + w as u32;
            }
            i = i + 1;
        }
        let right: u16 = band.right();
        let free: u16 = if total < right as u32 {
            right - total as u16
        } else {
            0
        };
        let mut x: u16 = larger_of(free, band.x);
        let mut rects: Vec<Rect> = Vec::new();
        let mut k: usize = 0;
        proof {
            minis_total_is_not_negative(v, band, n as int);
            minis_stay_in_band(v, band, 0);
        }
        while k < n
            invariant
                n == self.minis@.len(),
                v == self@,
                k <= n,
                right == band.spec_right(),
                x == v.mini_x(band, k as int),
                rects@ == v.mini_rects(band).take(k as int),
            decreases n - k,
        {
            proof {
                minis_stay_in_band(v, band, k as int);
            }
            let w: u16 = smaller_of(self.mini_width_at(band, k), take_off(right, x));
            rects.push(Rect::new(x, band.y, w, band.height));
            assert(rects@ =~= v.mini_rects(band).take(k + 1));
            x = x + w;
            k = k + 1;
        }
        assert(rects@ =~= v.mini_rects(band));
        rects
    }

    /// The primary terminal of mini `i`, if its agent is known.
    pub fn mini_terminal(&self, i: usize) -> (t: Option<TerminalId>)
        ensures
            t == self@.mini_terminal(i as int),
    {
        if i < self.minis.len() {
            find_primary(&self.agents, self.minis[i])
        } else {
            None
        }
    }

    /// The terminal that keys go to, if any.
    pub fn focused_terminal(&self) -> (t: Option<TerminalId>)
        ensures
            t == self@.focused_terminal(),
    {
        match self.focus {
            Focus::Panes => self.tree.focused_payload(),
            Focus::Mini(i) => self.mini_terminal(i),
            Focus::Sidebar => None,
        }
    }
}

} // verus!
