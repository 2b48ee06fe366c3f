//! Workspaces: which panes and minis are on screen, and keeping the daemon's terminals attached to
//! just those.

use vstd::prelude::*;
use crate::geometry::{Axis, Dir, Rect, Size};
use crate::ids::{AgentId, TerminalId};
use crate::pane::{
    layout_blanks, pane_count, rest, used, Layout, Nav, PaneTree, Placement, TreeView,
};
use crate::roster::{is_unread, unread_agent};
use crate::sidebar::{has_id, inner_size, pane_size, Row};
use crate::state::{
    copy_ids, find_id, find_primary, fit_parser, fitted_parser, id_from, primary_of, remove_id,
    without_id, App, AppView, Focus,
};
use crate::table::{drop_key, lookup, place_is_where, put, Table};
use crate::text::owned;
use crate::wire::{ClientMsg, MsgView};

verus! {

// --- what should be attached ---

/// The terminals of the first `n` placed panes, with their sizes.
pub open spec fn pane_sizes(places: Seq<Placement<TerminalId>>, n: int) -> Seq<(TerminalId, Size)>
    decreases n,
{
    if n <= 0 {
        Seq::empty()
    } else {
        let before = pane_sizes(places, n - 1);
        match places[n - 1].payload {
            Some(t) => put(before, t, inner_size(places[n - 1].rect)),
            None => before,
        }
    }
}

/// The keys of the first `n` entries of `attached` that `desired` does not have.
pub open spec fn gone(
    attached: Seq<(TerminalId, Size)>,
    desired: Seq<(TerminalId, Size)>,
    n: int,
) -> Seq<TerminalId>
    decreases n,
{
    if n <= 0 {
        Seq::empty()
    } else {
        let before = gone(attached, desired, n - 1);
        if lookup(desired, attached[n - 1].0) is None {
            before.push(attached[n - 1].0)
        } else {
            before
        }
    }
}

/// `terminals` with the first `n` of `ps` belonging to agent `id`.
pub open spec fn claimed(
    terminals: Seq<(TerminalId, AgentId)>,
    ps: Seq<TerminalId>,
    id: AgentId,
    n: int,
) -> Seq<(TerminalId, AgentId)>
    decreases n,
{
    if n <= 0 {
        terminals
    } else {
        put(claimed(terminals, ps, id, n - 1), ps[n - 1], id)
    }
}

/// `trees` with the pane of `t` closed in each of them.
pub open spec fn closed_in_all(
    trees: Seq<(AgentId, TreeView<TerminalId>)>,
    t: TerminalId,
) -> Seq<(AgentId, TreeView<TerminalId>)> {
    Seq::new(trees.len(), |i: int| (trees[i].0, trees[i].1.close_payload(t)))
}

/// The number of blank panes in the first `n` of some layouts together.
pub open spec fn blanks_of(layouts: Seq<(AgentId, Layout)>, n: int) -> nat
    decreases n,
{
    if n <= 0 {
        0
    } else {
        blanks_of(layouts, n - 1) + layout_blanks(layouts[n - 1].1)
    }
}

/// The count `n`, held at the largest one that can be told.
pub open spec fn at_most_usize(n: nat) -> nat {
    if n <= usize::MAX {
        n
    } else {
        usize::MAX as nat
    }
}

/// The agents of the first `n` rows that stand under their repositories.
pub open spec fn roster_ids(rows: Seq<Row>, n: int) -> Seq<AgentId>
    decreases n,
{
    if n <= 0 {
        Seq::empty()
    } else {
        match rows[n - 1] {
            Row::Agent(id) => roster_ids(rows, n - 1).push(id),
            _ => roster_ids(rows, n - 1),
        }
    }
}

impl AppView {
    /// Whether mini `i` streams its agent's terminal.
    pub open spec fn mini_streams(self, i: int) -> bool {
        !self.minimized.contains(self.minis[i]) && primary_of(self.agents, self.minis[i]) is Some
    }

    /// `sizes` with the terminals of the first `n` minis.
    pub open spec fn with_minis(
        self,
        sizes: Seq<(TerminalId, Size)>,
        band: Rect,
        n: int,
    ) -> Seq<(TerminalId, Size)>
        decreases n,
    {
        if n <= 0 {
            sizes
        } else {
            let before = self.with_minis(sizes, band, n - 1);
            if self.mini_streams(n - 1) {
                put(
                    before,
                    primary_of(self.agents, self.minis[n - 1])->0,
                    inner_size(self.mini_rects(band)[n - 1]),
                )
            } else {
                before
            }
        }
    }

    /// `terminals` with those of the first `n` minis.
    pub open spec fn mini_owners(
        self,
        terminals: Seq<(TerminalId, AgentId)>,
        n: int,
    ) -> Seq<(TerminalId, AgentId)>
        decreases n,
    {
        if n <= 0 {
            terminals
        } else {
            let before = self.mini_owners(terminals, n - 1);
            if self.mini_streams(n - 1) {
                put(before, primary_of(self.agents, self.minis[n - 1])->0, self.minis[n - 1])
            } else {
                before
            }
        }
    }

    /// The terminals that are on screen, with their sizes.
    pub open spec fn desired(self) -> Seq<(TerminalId, Size)> {
        let places = self.tree.layout(self.area);
        let panes = pane_sizes(places, places.len() as int);
        match self.minis_band() {
            Some(band) => self.with_minis(panes, band, self.minis.len() as int),
            None => panes,
        }
    }

    /// Which agent each terminal belongs to, once the minis on screen are counted.
    pub open spec fn owners(self) -> Seq<(TerminalId, AgentId)> {
        match self.minis_band() {
            Some(_) => self.mini_owners(self.terminals, self.minis.len() as int),
            None => self.terminals,
        }
    }

    /// Whether the pane of `t` is scrolled back.
    pub open spec fn scrolls(self, t: TerminalId) -> bool {
        match self.scroll {
            Some(s) => s.terminal == t,
            None => false,
        }
    }

    /// The client with `t` attached at `size`. A window of history was served for the old size, so
    /// it is asked for again.
    pub open spec fn attach_one(self, t: TerminalId, size: Size) -> AppView {
        if lookup(self.attached, t) == Some(size) {
            self
        } else {
            let v = AppView {
                parsers: fitted_parser(self.parsers, t, size),
                attached: put(self.attached, t, size),
                ..self
            }.send(MsgView::Attach { terminal: t, size });
            if self.scrolls(t) {
                v.send(MsgView::Scroll { terminal: t, lines: 0 })
            } else {
                v
            }
        }
    }

    /// The client with the first `n` of `desired` attached.
    pub open spec fn attach_all(self, desired: Seq<(TerminalId, Size)>, n: int) -> AppView
        decreases n,
    {
        if n <= 0 {
            self
        } else {
            self.attach_all(desired, n - 1).attach_one(desired[n - 1].0, desired[n - 1].1)
        }
    }

    /// The client without the window of history of `t`.
    pub open spec fn unscrolled(self, t: TerminalId) -> AppView {
        AppView {
            scroll: if self.scrolls(t) {
                None
            } else {
                self.scroll
            },
            ..self
        }
    }

    /// The client with `t` detached. It goes on running; the daemon forgets where it was scrolled
    /// to, and so does the client.
    pub open spec fn detach_one(self, t: TerminalId) -> AppView {
        AppView {
            attached: drop_key(self.attached, t),
            parsers: drop_key(self.parsers, t),
            ..self
        }.send(MsgView::Detach { terminal: t }).unscrolled(t)
    }

    /// The client with the first `n` of `ts` detached.
    pub open spec fn detach_all(self, ts: Seq<TerminalId>, n: int) -> AppView
        decreases n,
    {
        if n <= 0 {
            self
        } else {
            self.detach_all(ts, n - 1).detach_one(ts[n - 1])
        }
    }

    /// The client after it told the daemon what to restore next time.
    pub open spec fn persist(self) -> AppView {
        let v = match self.active_agent {
            Some(agent) => self.send(
                MsgView::SetLayout { agent, layout: self.tree.to_layout() },
            ),
            None => self,
        };
        v.send(MsgView::SetMinis(v.minis)).send(MsgView::SetActive(v.active_agent)).send(
            MsgView::SetPrevious(v.prev_active_agent),
        )
    }

    /// The client with the terminals on screen attached at their sizes and all others detached.
    #[verifier::opaque]
    pub open spec fn reconcile(self) -> AppView {
        let desired = self.desired();
        let named = AppView { terminals: self.owners(), ..self };
        let attached = named.attach_all(desired, desired.len() as int);
        let ts = gone(attached.attached, desired, attached.attached.len() as int);
        attached.detach_all(ts, ts.len() as int).persist()
    }

    /// The client without terminal `t`, which is gone for good.
    #[verifier::opaque]
    pub open spec fn forget_terminal(self, t: TerminalId) -> AppView {
        AppView {
            tree: self.tree.close_payload(t),
            trees: closed_in_all(self.trees, t),
            parsers: drop_key(self.parsers, t),
            attached: drop_key(self.attached, t),
            terminals: drop_key(self.terminals, t),
            passthrough: drop_key(self.passthrough, t),
            ..self
        }.unscrolled(t)
    }

    /// The tree to start agent `id` with when it was not opened in this session: that of its saved
    /// layout, or none.
    pub open spec fn saved_tree(self, id: AgentId) -> TreeView<TerminalId> {
        match lookup(self.saved_layouts, id) {
            Some(layout) => if pane_count(layout) < u64::MAX {
                TreeView::<TerminalId>::from_layout(layout)
            } else {
                TreeView::<TerminalId>::empty()
            },
            None => TreeView::<TerminalId>::empty(),
        }
    }

    /// The client once agent `id` is no mini.
    pub open spec fn no_longer_mini(self, id: AgentId) -> AppView {
        AppView {
            minis: without_id(self.minis, id),
            minimized: without_id(self.minimized, id),
            ..self
        }
    }

    /// The client once the panes of the active agent are put away.
    pub open spec fn put_away(self) -> AppView {
        match self.active_agent {
            Some(prev) => AppView {
                trees: put(self.trees, prev, self.tree),
                tree: TreeView::<TerminalId>::empty(),
                prev_active_agent: Some(prev),
                ..self
            },
            None => self,
        }
    }

    /// The client once the panes of agent `id` are fetched. Those of this session come back as they
    /// were. Those of a saved layout get fresh terminals where they are blank: a blank pane of this
    /// session is one whose shell is still on its way.
    pub open spec fn fetch(self, id: AgentId) -> AppView {
        let v = match lookup(self.trees, id) {
            Some(live) => AppView { trees: drop_key(self.trees, id), tree: live, ..self },
            None => AppView {
                saved_layouts: drop_key(self.saved_layouts, id),
                tree: self.saved_tree(id).fill_blanks(self.fresh),
                fresh: rest(self.fresh, self.saved_tree(id).blank_count()),
                ..self
            },
        };
        let ps = v.tree.payloads();
        AppView {
            active_agent: Some(id),
            terminals: claimed(v.terminals, ps, id, ps.len() as int),
            ..v
        }
    }

    /// The client with the primary terminal of agent `id` shown, if nothing else is.
    pub open spec fn show_primary(self, id: AgentId) -> AppView {
        match primary_of(self.agents, id) {
            Some(primary) => if self.tree.root is None {
                AppView {
                    terminals: put(self.terminals, primary, id),
                    tree: if self.tree.next_id < u64::MAX {
                        self.tree.open(primary)
                    } else {
                        self.tree
                    },
                    ..self
                }
            } else {
                self
            },
            None => self,
        }
    }

    /// The client with agent `id` in the main area.
    pub open spec fn swap_to_agent(self, id: AgentId) -> AppView {
        let v = self.no_longer_mini(id);
        let w = if v.active_agent == Some(id) {
            v
        } else {
            v.put_away().fetch(id)
        };
        AppView { focus: Focus::Panes, ..w.show_primary(id) }
    }

    /// The fresh terminals that the panes of agent `id` get when it is swapped in.
    pub open spec fn restored(self, id: AgentId) -> Seq<TerminalId> {
        if self.active_agent == Some(id) || lookup(self.put_away().trees, id) is Some {
            Seq::empty()
        } else {
            used(self.fresh, self.saved_tree(id).blank_count())
        }
    }

    /// The client after it asked for a shell like `like` in each of the first `n` of `blanks`.
    pub open spec fn spawn_all(
        self,
        like: TerminalId,
        blanks: Seq<TerminalId>,
        n: int,
    ) -> AppView
        decreases n,
    {
        if n <= 0 {
            self
        } else {
            self.spawn_all(like, blanks, n - 1).send(
                MsgView::SpawnShell { terminal: blanks[n - 1], like },
            )
        }
    }

    /// The client after it asked for a shell in each of `blanks`, in the worktree of `agent`.
    pub open spec fn spawn_restored_shells(
        self,
        agent: AgentId,
        blanks: Seq<TerminalId>,
    ) -> AppView {
        match primary_of(self.agents, agent) {
            Some(primary) => self.spawn_all(primary, blanks, blanks.len() as int),
            None => self,
        }
    }

    /// The client with agent `id` active.
    #[verifier::opaque]
    pub open spec fn activate(self, id: AgentId) -> AppView {
        self.swap_to_agent(id).spawn_restored_shells(id, self.restored(id)).reconcile()
    }

    /// The client with the cursor on agent `id`, and `id` active.
    pub open spec fn open_agent(self, id: AgentId) -> AppView {
        self.place_sidebar_sel(Row::Agent(id)).activate(id)
    }

    /// The client with the agent under the cursor active.
    pub open spec fn open_selected(self) -> AppView {
        match self.selected_agent() {
            Some(id) => self.activate(id),
            None => self,
        }
    }

    /// The client with the focused pane split and a shell asked for in the new one.
    pub open spec fn split(self, axis: Axis) -> AppView {
        match self.tree.focused_payload() {
            Some(from) => match lookup(self.terminals, from) {
                Some(agent) => if self.fresh.len() > 0 && self.tree.next_id < u64::MAX {
                    let t = self.fresh[0];
                    AppView {
                        fresh: self.fresh.drop_first(),
                        terminals: put(self.terminals, t, agent),
                        tree: self.tree.split(axis).open(t),
                        focus: Focus::Panes,
                        ..self
                    }.send(MsgView::SpawnShell { terminal: t, like: from }).reconcile()
                } else {
                    self
                },
                None => self,
            },
            None => self,
        }
    }

    /// The client with the focus on mini `i`.
    pub open spec fn enter_mini(self, i: usize) -> AppView {
        AppView {
            focus: Focus::Mini(i),
            focus_return: if self.focus is Mini {
                self.focus_return
            } else {
                self.focus
            },
            ..self
        }
    }

    /// The client with `agent` as a mini, focused.
    pub open spec fn open_mini(self, agent: AgentId) -> AppView {
        if self.active_agent == Some(agent) {
            self
        } else {
            match id_from(self.minis, agent, 0) {
                Some(i) => self.enter_mini(i as usize),
                None => AppView { minis: self.minis.push(agent), ..self }.enter_mini(
                    self.minis.len() as usize,
                ).reconcile(),
            }
        }
    }

    /// The client without mini `i`.
    pub open spec fn close_mini(self, i: int) -> AppView {
        if i >= self.minis.len() {
            self
        } else {
            let minis = self.minis.remove(i);
            AppView {
                minis,
                minimized: without_id(self.minimized, self.minis[i]),
                focus: if minis.len() == 0 {
                    self.focus_return
                } else if i < minis.len() {
                    Focus::Mini(i as usize)
                } else {
                    Focus::Mini((minis.len() - 1) as usize)
                },
                ..self
            }.reconcile()
        }
    }

    /// The client after a move in `dir`. The minis lie below the panes and to their right.
    #[verifier::opaque]
    pub open spec fn navigate(self, dir: Dir) -> AppView {
        match self.focus {
            Focus::Sidebar => if dir != Dir::Right {
                self
            } else if self.tree.root is Some {
                AppView { tree: self.tree.focus_most_recent(), focus: Focus::Panes, ..self }
            } else if self.minis.len() > 0 {
                self.enter_mini(0)
            } else {
                self
            },
            Focus::Panes => {
                let v = AppView { tree: self.tree.navigate(dir, self.area), ..self };
                match self.tree.nav_result(dir, self.area) {
                    Nav::ExitLeft => AppView { focus: Focus::Sidebar, ..v },
                    Nav::Stay => if (dir == Dir::Down || dir == Dir::Right) && self.minis.len() > 0 {
                        v.enter_mini(0)
                    } else {
                        v
                    },
                    Nav::Moved => v,
                }
            },
            Focus::Mini(i) => {
                let back = AppView {
                    focus: if self.tree.root is Some {
                        Focus::Panes
                    } else {
                        Focus::Sidebar
                    },
                    ..self
                };
                match dir {
                    Dir::Left => if i > 0 {
                        AppView { focus: Focus::Mini((i - 1) as usize), ..self }
                    } else {
                        back
                    },
                    Dir::Right => if i + 1 < self.minis.len() {
                        AppView { focus: Focus::Mini((i + 1) as usize), ..self }
                    } else {
                        self
                    },
                    Dir::Up => back,
                    Dir::Down => self,
                }
            },
        }
    }

    /// The first unread agent of `order` from the `k`th after `start` on, going round.
    pub open spec fn unread_round(self, order: Seq<AgentId>, start: int, k: int) -> Option<AgentId>
        decreases order.len() - k,
    {
        if k >= order.len() {
            None
        } else {
            let id = order[(start + k) % (order.len() as int)];
            if is_unread(self.agents, id) {
                Some(id)
            } else {
                self.unread_round(order, start, k + 1)
            }
        }
    }

    /// The unread agent that comes next after the cursor, going round.
    pub open spec fn next_unread(self) -> Option<AgentId> {
        let rows = self.rows();
        let order = roster_ids(rows, rows.len() as int);
        let start = match self.selected_agent() {
            Some(id) => match id_from(order, id, 0) {
                Some(i) => i + 1,
                None => 0,
            },
            None => 0,
        };
        self.unread_round(order, start, 0)
    }

    /// The client with the next unread agent open, or a notice that there is none.
    pub open spec fn jump_next_unread(self) -> AppView {
        match self.next_unread() {
            Some(id) => self.place_sidebar_sel(Row::Agent(id)).activate(id),
            None => AppView { info: "no unread agents"@, ..self },
        }
    }

    /// The agent being viewed: that of the focused pane or mini.
    pub open spec fn current_focus_agent(self) -> Option<AgentId> {
        match self.focus {
            Focus::Panes => match self.tree.focused_payload() {
                Some(t) => lookup(self.terminals, t),
                None => None,
            },
            Focus::Mini(i) => if i < self.minis.len() {
                Some(self.minis[i as int])
            } else {
                None
            },
            Focus::Sidebar => None,
        }
    }

    /// The client after it told the daemon which agent is being viewed, if that changed.
    pub open spec fn sync_focus(self) -> AppView {
        let current = self.current_focus_agent();
        if current == self.focus_agent {
            self
        } else {
            AppView { focus_agent: current, ..self }.send(MsgView::Focus { agent: current })
        }
    }

    /// The number of blank panes in all saved layouts together.
    pub open spec fn saved_blanks(self) -> nat {
        blanks_of(self.saved_layouts, self.saved_layouts.len() as int)
    }
}

// --- doing it ---

/// Whether all sizes are at least one cell.
spec fn real_sizes(s: Seq<(TerminalId, Size)>) -> bool {
    forall|i: int| 0 <= i < s.len() ==> (#[trigger] s[i]).1.rows >= 1 && s[i].1.cols >= 1
}

proof fn put_real_size(s: Seq<(TerminalId, Size)>, t: TerminalId, r: Rect)
    requires
        real_sizes(s),
    ensures
        real_sizes(put(s, t, inner_size(r))),
{
    place_is_where(s, t);
}

/// Whether two optional ids are the same.
pub fn same_id(a: Option<AgentId>, b: Option<AgentId>) -> (r: bool)
    ensures
        r == (a == b),
{
    match (a, b) {
        (Some(x), Some(y)) => x == y,
        (None, None) => true,
        _ => false,
    }
}

impl App {
    /// Whether the pane of `t` is scrolled back.
    pub fn scrolls(&self, t: TerminalId) -> (b: bool)
        ensures
            b == self@.scrolls(t),
    {
        match &self.scroll {
            Some(s) => s.terminal == t,
            None => false,
        }
    }

    fn unscroll(&mut self, t: TerminalId)
        ensures
            final(self)@ == old(self)@.unscrolled(t),
    {
        if self.scrolls(t) {
            self.scroll = None;
        }
    }

    fn attach_one(&mut self, t: TerminalId, size: Size)
        requires
            size.rows >= 1,
            size.cols >= 1,
        ensures
            final(self)@ == old(self)@.attach_one(t, size),
    {
        let same = match self.attached.get(t) {
            Some(s) => s.cols == size.cols && s.rows == size.rows,
            None => false,
        };
        if !same {
            fit_parser(&mut self.parsers, t, size);
            self.send(ClientMsg::Attach { terminal: t, size });
            self.attached.set(t, size);
            if self.scrolls(t) {
                self.send(ClientMsg::Scroll { terminal: t, lines: 0 });
            }
        }
    }

    fn detach_one(&mut self, t: TerminalId)
        ensures
            final(self)@ == old(self)@.detach_one(t),
    {
        self.send(ClientMsg::Detach { terminal: t });
        let _ = self.attached.take(t);
        let _ = self.parsers.take(t);
        self.unscroll(t);
    }

    fn persist(&mut self)
        ensures
            final(self)@ == old(self)@.persist(),
    {
        if let Some(agent) = self.active_agent {
            let layout = self.tree.to_layout();
            self.send(ClientMsg::SetLayout { agent, layout });
        }
        let minis = copy_ids(&self.minis);
        self.send(ClientMsg::SetMinis(minis));
        self.send(ClientMsg::SetActive(self.active_agent));
        self.send(ClientMsg::SetPrevious(self.prev_active_agent));
    }

    fn desired_panes(&self) -> (out: Table<TerminalId, Size>)
        ensures
            ({
                let places = self@.tree.layout(self@.area);
                out@ == pane_sizes(places, places.len() as int)
            }),
            real_sizes(out@),
    {
        let places = self.tree.layout(self.area);
        let mut out: Table<TerminalId, Size> = Table::new();
        let mut i: usize = 0;
        while i < places.len()
            invariant
                i <= places@.len(),
                out@ == pane_sizes(places@, i as int),
                real_sizes(out@),
            decreases places@.len() - i,
        {
            let p = places[i];
            if let Some(t) = p.payload {
                proof {
                    put_real_size(out@, t, p.rect);
                }
                out.set(t, pane_size(p.rect));
            }
            i = i + 1;
        }
        out
    }

    fn add_minis(&mut self, sizes: &mut Table<TerminalId, Size>, band: Rect)
        requires
            real_sizes(old(sizes)@),
        ensures
            final(sizes)@ == old(self)@.with_minis(
                old(sizes)@,
                band,
                old(self)@.minis.len() as int,
            ),
            real_sizes(final(sizes)@),
            final(self)@ == (AppView {
                terminals: old(self)@.mini_owners(
                    old(self)@.terminals,
                    old(self)@.minis.len() as int,
                ),
                ..old(self)@
            }),
    {
        let rects = self.mini_rects(band);
        let ghost v = self@;
        let ghost s = sizes@;
        let mut i: usize = 0;
        while i < self.minis.len()
            invariant
                i <= v.minis.len(),
                rects@ == v.mini_rects(band),
                self@ == (AppView { terminals: v.mini_owners(v.terminals, i as int), ..v }),
                sizes@ == v.with_minis(s, band, i as int),
                real_sizes(sizes@),
            decreases v.minis.len() - i,
        {
            let agent = self.minis[i];
            if !has_id(&self.minimized, agent) {
                if let Some(t) = find_primary(&self.agents, agent) {
                    proof {
                        put_real_size(sizes@, t, rects@[i as int]);
                    }
                    self.terminals.set(t, agent);
                    sizes.set(t, pane_size(rects[i]));
                }
            }
            i = i + 1;
        }
    }

    /// Attach, detach and resize terminals to match what is on screen. Terminals that are not shown
    /// are detached, not closed: they go on running in the daemon. Then persist the layout, the minis
    /// and which agents are active.
    pub fn reconcile(&mut self)
        ensures
            final(self)@ == old(self)@.reconcile(),
    {
        proof {
            reveal(AppView::reconcile);
        }
        let ghost v = self@;
        let (_, band) = self.regions();
        let mut desired = self.desired_panes();
        if let Some(b) = band {
            self.add_minis(&mut desired, b);
        }
        let ghost named = self@;
        let ghost want = desired@;
        assert(want == v.desired());
        assert(named == AppView { terminals: v.owners(), ..v });
        let mut i: usize = 0;
        while i < desired.items.len()
            invariant
                i <= desired@.len(),
                desired@ == want,
                real_sizes(want),
                self@ == named.attach_all(want, i as int),
            decreases desired@.len() - i,
        {
            let t = desired.items[i].0;
            let size = desired.items[i].1;
            assert(want[i as int] == (t, size));
            self.attach_one(t, size);
            i = i + 1;
        }
        let ghost w = self@;
        let mut ts: Vec<TerminalId> = Vec::new();
        let mut k: usize = 0;
        while k < self.attached.items.len()
            invariant
                k <= self.attached@.len(),
                self@ == w,
                desired@ == want,
                ts@ == gone(w.attached, want, k as int),
            decreases self.attached@.len() - k,
        {
            let t = self.attached.items[k].0;
            assert(w.attached[k as int].0 == t);
            if !desired.has(t) {
                ts.push(t);
            }
            k = k + 1;
        }
        let mut j: usize = 0;
        while j < ts.len()
            invariant
                j <= ts@.len(),
                self@ == w.detach_all(ts@, j as int),
            decreases ts@.len() - j,
        {
            self.detach_one(ts[j]);
            j = j + 1;
        }
        self.persist();
    }

    /// Drop a terminal that is gone for good from all panes and tables.
    pub fn forget_terminal(&mut self, t: TerminalId)
        ensures
            final(self)@ == old(self)@.forget_terminal(t),
    {
        proof {
            reveal(AppView::forget_terminal);
        }
        let ghost v = self@;
        let _ = self.tree.close_payload(t);
        let mut i: usize = 0;
        assert(closed_in_all(v.trees, t).take(0) + v.trees.skip(0) =~= v.trees);
        while i < self.trees.items.len()
            invariant
                self.trees@.len() == v.trees.len(),
                i <= v.trees.len(),
                self@ == (AppView {
                    tree: v.tree.close_payload(t),
                    trees: closed_in_all(v.trees, t).take(i as int) + v.trees.skip(i as int),
                    ..v
                }),
            decreases v.trees.len() - i,
        {
            let ghost before = self.trees@;
            let _ = self.trees.items[i].1.close_payload(t);
            assert(before[i as int] == v.trees[i as int]);
            assert(self.trees@ =~= before.update(
                i as int,
                (v.trees[i as int].0, v.trees[i as int].1.close_payload(t)),
            ));
            assert(self.trees@ =~= closed_in_all(v.trees, t).take(i + 1) + v.trees.skip(i + 1));
            i = i + 1;
        }
        assert(self.trees@ =~= closed_in_all(v.trees, t));
        let _ = self.parsers.take(t);
        let _ = self.attached.take(t);
        let _ = self.terminals.take(t);
        let _ = self.passthrough.take(t);
        self.unscroll(t);
    }

    fn put_away(&mut self)
        ensures
            final(self)@ == old(self)@.put_away(),
    {
        if let Some(prev) = self.active_agent {
            let mut tree = PaneTree::new();
            std::mem::swap(&mut self.tree, &mut tree);
            self.trees.set(prev, tree);
            self.prev_active_agent = Some(prev);
        }
    }

    fn fetch(&mut self, id: AgentId) -> (restored: Vec<TerminalId>)
        ensures
            final(self)@ == old(self)@.fetch(id),
            restored@ == if lookup(old(self)@.trees, id) is Some {
                Seq::<TerminalId>::empty()
            } else {
                used(old(self)@.fresh, old(self)@.saved_tree(id).blank_count())
            },
    {
        let ghost v = self@;
        let mut restored: Vec<TerminalId> = Vec::new();
        match self.trees.take(id) {
            Some(live) => {
                self.tree = live;
                assert(restored@ =~= Seq::<TerminalId>::empty());
            },
            None => {
                proof {
                    place_is_where(v.trees, id);
                }
                self.tree = match self.saved_layouts.take(id) {
                    Some(layout) => if layout.panes() < u64::MAX {
                        PaneTree::from_layout(&layout)
                    } else {
                        PaneTree::new()
                    },
                    None => PaneTree::new(),
                };
                assert(self.tree@ == v.saved_tree(id));
                restored = self.tree.fill_blanks(&self.fresh);
                let ghost n = v.saved_tree(id).blank_count();
                let mut k: usize = 0;
                let ghost w = self@;
                assert(v.fresh.skip(0) =~= v.fresh);
                while k < restored.len()
                    invariant
                        restored@ == used(v.fresh, n),
                        k <= restored@.len(),
                        self@ == (AppView { fresh: v.fresh.skip(k as int), ..w }),
                    decreases restored@.len() - k,
                {
                    let _ = self.fresh.remove(0);
                    k = k + 1;
                    assert(self.fresh@ =~= v.fresh.skip(k as int));
                }
                assert(self.fresh@ =~= rest(v.fresh, n));
            },
        }
        self.active_agent = Some(id);
        // Terminals of a restored layout belong to this agent.
        let ps = self.tree.payloads();
        let ghost w = self@;
        let mut i: usize = 0;
        while i < ps.len()
            invariant
                i <= ps@.len(),
                self@ == (AppView { terminals: claimed(w.terminals, ps@, id, i as int), ..w }),
            decreases ps@.len() - i,
        {
            self.terminals.set(ps[i], id);
            i = i + 1;
        }
        restored
    }

    /// Put agent `id` into the main area: put the current agent's panes away, fetch those of `id`,
    /// and see that its primary terminal is shown.
    ///
    /// What is returned are the terminals given to panes that a saved layout brought back blank:
    /// their shells died with an earlier daemon, and each needs a new one.
    pub fn swap_to_agent(&mut self, id: AgentId) -> (restored: Vec<TerminalId>)
        ensures
            final(self)@ == old(self)@.swap_to_agent(id),
            restored@ == old(self)@.restored(id),
    {
        self.no_longer_mini(id);
        let restored = if same_id(self.active_agent, Some(id)) {
            let none: Vec<TerminalId> = Vec::new();
            assert(none@ =~= Seq::<TerminalId>::empty());
            none
        } else {
            self.put_away();
            self.fetch(id)
        };
        self.show_primary(id);
        self.focus = Focus::Panes;
        restored
    }

    /// An agent in the main area is not a mini as well: its terminal cannot have two sizes.
    fn no_longer_mini(&mut self, id: AgentId)
        ensures
            final(self)@ == old(self)@.no_longer_mini(id),
    {
        self.minis = remove_id(&self.minis, id);
        self.minimized = remove_id(&self.minimized, id);
    }

    fn show_primary(&mut self, id: AgentId)
        ensures
            final(self)@ == old(self)@.show_primary(id),
    {
        if self.tree.is_empty() {
            if let Some(primary) = find_primary(&self.agents, id) {
                self.terminals.set(primary, id);
                if self.tree.has_room() {
                    self.tree.open(primary);
                }
            }
        }
    }

    /// Ask for a shell for each pane that came back blank, in the agent's worktree. The daemon knows
    /// the primary terminal even while it is dormant.
    pub fn spawn_restored_shells(&mut self, agent: AgentId, blanks: Vec<TerminalId>)
        ensures
            final(self)@ == old(self)@.spawn_restored_shells(agent, blanks@),
    {
        if let Some(primary) = find_primary(&self.agents, agent) {
            let ghost v = self@;
            let mut i: usize = 0;
            while i < blanks.len()
                invariant
                    i <= blanks@.len(),
                    self@ == v.spawn_all(primary, blanks@, i as int),
                decreases blanks@.len() - i,
            {
                self.send(ClientMsg::SpawnShell { terminal: blanks[i], like: primary });
                i = i + 1;
            }
        }
    }

    /// Make `id` the active agent.
    pub fn activate(&mut self, id: AgentId)
        ensures
            final(self)@ == old(self)@.activate(id),
    {
        proof {
            reveal(AppView::activate);
        }
        let restored = self.swap_to_agent(id);
        self.spawn_restored_shells(id, restored);
        self.reconcile();
    }

    /// Jump to an agent: put the cursor on its row and open it in the main area.
    pub fn open_agent(&mut self, id: AgentId)
        ensures
            final(self)@ == old(self)@.open_agent(id),
    {
        self.place_sidebar_sel(Row::Agent(id));
        self.activate(id);
    }

    /// Open the agent under the cursor.
    pub fn open_selected(&mut self)
        ensures
            final(self)@ == old(self)@.open_selected(),
    {
        if let Some(id) = self.selected_agent() {
            self.activate(id);
        }
    }

    /// Split the focused pane, and ask for a shell in the same worktree for the new one.
    pub fn split(&mut self, axis: Axis)
        ensures
            final(self)@ == old(self)@.split(axis),
    {
        let from = match self.tree.focused_payload() {
            Some(t) => t,
            None => {
                return;
            },
        };
        let agent = match self.terminals.get(from) {
            Some(a) => *a,
            None => {
                return;
            },
        };
        if self.fresh.len() == 0 || !self.tree.has_room() {
            return;
        }
        let ghost fresh = self.fresh@;
        let t = self.fresh.remove(0);
        assert(self.fresh@ =~= fresh.drop_first());
        self.terminals.set(t, agent);
        self.tree.split(axis);
        self.tree.open(t);
        self.focus = Focus::Panes;
        self.send(ClientMsg::SpawnShell { terminal: t, like: from });
        self.reconcile();
    }

    /// Move the focus to mini `i`, remembering where it came from.
    pub fn enter_mini(&mut self, i: usize)
        ensures
            final(self)@ == old(self)@.enter_mini(i),
    {
        match self.focus {
            Focus::Mini(_) => {},
            _ => {
                self.focus_return = self.focus;
            },
        }
        self.focus = Focus::Mini(i);
    }

    /// Open `agent` as a mini and focus it. Nothing happens for the agent in the main area; one that
    /// is a mini already is focused.
    pub fn open_mini(&mut self, agent: AgentId)
        ensures
            final(self)@ == old(self)@.open_mini(agent),
    {
        if same_id(self.active_agent, Some(agent)) {
            return;
        }
        match find_id(&self.minis, agent) {
            Some(i) => {
                self.enter_mini(i);
            },
            None => {
                let n: usize = self.minis.len();
                self.minis.push(agent);
                self.enter_mini(n);
                self.reconcile();
            },
        }
    }

    /// Close mini `i`; the focus goes to another mini, or back where it came from.
    pub fn close_mini(&mut self, i: usize)
        ensures
            final(self)@ == old(self)@.close_mini(i as int),
    {
        if i >= self.minis.len() {
            return;
        }
        let agent = self.minis.remove(i);
        self.minimized = remove_id(&self.minimized, agent);
        let n: usize = self.minis.len();
        self.focus = if n == 0 {
            self.focus_return
        } else if i < n {
            Focus::Mini(i)
        } else {
            Focus::Mini(n - 1)
        };
        self.reconcile();
    }

    /// Move the focus in `dir`: between panes, into the minis, and to and from the sidebar.
    pub fn navigate(&mut self, dir: Dir)
        ensures
            final(self)@ == old(self)@.navigate(dir),
    {
        proof {
            reveal(AppView::navigate);
        }
        match self.focus {
            Focus::Sidebar => {
                if dir == Dir::Right {
                    if !self.tree.is_empty() {
                        self.tree.focus_most_recent();
                        self.focus = Focus::Panes;
                    } else if self.minis.len() > 0 {
                        self.enter_mini(0);
                    }
                }
            },
            Focus::Panes => {
                let area = self.area;
                match self.tree.navigate(dir, area) {
                    Nav::ExitLeft => {
                        self.focus = Focus::Sidebar;
                    },
                    Nav::Stay => {
                        if (dir == Dir::Down || dir == Dir::Right) && self.minis.len() > 0 {
                            self.enter_mini(0);
                        }
                    },
                    Nav::Moved => {},
                }
            },
            Focus::Mini(i) => {
                let back = if self.tree.is_empty() {
                    Focus::Sidebar
                } else {
                    Focus::Panes
                };
                match dir {
                    Dir::Left => {
                        self.focus = if i > 0 {
                            Focus::Mini(i - 1)
                        } else {
                            back
                        };
                    },
                    Dir::Right => {
                        if self.minis.len() > 0 && i < self.minis.len() - 1 {
                            self.focus = Focus::Mini(i + 1);
                        }
                    },
                    Dir::Up => {
                        self.focus = back;
                    },
                    Dir::Down => {},
                }
            },
        }
    }

    /// Jump to the next unread agent, in sidebar order and going round, and open it.
    pub fn jump_next_unread(&mut self)
        ensures
            final(self)@ == old(self)@.jump_next_unread(),
    {
        let rows = self.sidebar_rows();
        let mut order: Vec<AgentId> = Vec::new();
        let mut i: usize = 0;
        while i < rows.len()
            invariant
                i <= rows@.len(),
                order@ == roster_ids(rows@, i as int),
            decreases rows@.len() - i,
        {
            if let Row::Agent(id) = rows[i] {
                order.push(id);
            }
            i = i + 1;
        }
        let start: usize = match self.selected_agent() {
            Some(id) => match find_id(&order, id) {
                Some(i) => i + 1,
                None => 0,
            },
            None => 0,
        };
        let n: usize = order.len();
        let mut k: usize = 0;
        while k < n
            invariant
                n == order@.len(),
                k <= n,
                start <= n,
                *self == *old(self),
                self@.next_unread() == self@.unread_round(order@, start as int, k as int),
            decreases n - k,
        {
            let at: usize = if k < n - start {
                start + k
            } else {
                k - (n - start)
            };
            assert(at == (start + k) % (n as int)) by (nonlinear_arith)
                requires
                    start <= n,
                    k < n,
                    at == if k < n - start {
                        start + k
                    } else {
                        k - (n - start)
                    },
            ;
            let id = order[at];
            if unread_agent(&self.agents, id) {
                self.place_sidebar_sel(Row::Agent(id));
                self.activate(id);
                return;
            }
            k = k + 1;
        }
        self.info = owned("no unread agents");
    }

    /// The agent being viewed, if the focus is on one of its terminals.
    pub fn current_focus_agent(&self) -> (id: Option<AgentId>)
        ensures
            id == self@.current_focus_agent(),
    {
        match self.focus {
            Focus::Panes => match self.tree.focused_payload() {
                Some(t) => match self.terminals.get(t) {
                    Some(a) => Some(*a),
                    None => None,
                },
                None => None,
            },
            Focus::Mini(i) => if i < self.minis.len() {
                Some(self.minis[i])
            } else {
                None
            },
            Focus::Sidebar => None,
        }
    }

    /// Tell the daemon which agent is being viewed, when that changed.
    pub fn sync_focus(&mut self)
        ensures
            final(self)@ == old(self)@.sync_focus(),
    {
        let current = self.current_focus_agent();
        if !same_id(current, self.focus_agent) {
            self.focus_agent = current;
            self.send(ClientMsg::Focus { agent: current });
        }
    }

    /// How many fresh ids one event or message may need: one for a split, and one for each blank pane
    /// of a saved layout that may be opened.
    pub fn ids_wanted(&self) -> (n: usize)
        ensures
            n == at_most_usize(self@.saved_blanks() + 1),
    {
        let mut n: usize = 1;
        let mut i: usize = 0;
        let ghost v = self@;
        while i < self.saved_layouts.items.len()
            invariant
                v == self@,
                i <= v.saved_layouts.len(),
                n == at_most_usize(blanks_of(v.saved_layouts, i as int) + 1),
            decreases v.saved_layouts.len() - i,
        {
            let b: usize = self.saved_layouts.items[i].1.blank_panes();
            assert(v.saved_layouts[i as int].1 == self.saved_layouts.items@[i as int].1);
            n = n.saturating_add(b);
            i = i + 1;
        }
        n
    }
}

} // verus!
