//! What the daemon's messages do.

use vstd::prelude::*;
use crate::doctor::{doctor_summary, skips, summary};
use crate::ids::{AgentId, RepoId, TerminalId};
use crate::keys::{serve_screen, served_screen};
use crate::pane::Layout;
use crate::sidebar::Row;
use crate::state::{
    agent_place, fed, feed_parser, find_agent, has_agent, remove_id, without_id, App, AppView, Flow,
    Focus, InputMode,
};
use crate::table::{drop_key, lookup, put, Table};
use crate::text::texts;
use crate::time::Moment;
use crate::wire::{AgentInfo, AgentState, DaemonMsg, RepoInfo};
use crate::workspace::same_id;

verus! {

/// Whether there is a repository `id`.
pub open spec fn has_repo(repos: Seq<RepoInfo>, id: RepoId) -> bool {
    exists|i: int| 0 <= i < repos.len() && (#[trigger] repos[i]).id == id
}

/// The first `n` entries of a list of layouts, later ones for an agent replacing earlier ones.
pub open spec fn layout_table(list: Seq<(AgentId, Layout)>, n: int) -> Seq<(AgentId, Layout)>
    decreases n,
{
    if n <= 0 {
        Seq::empty()
    } else {
        put(layout_table(list, n - 1), list[n - 1].0, list[n - 1].1)
    }
}

/// Those of the first `n` of `list` that are known agents and not the active one.
pub open spec fn live_minis(
    agents: Seq<AgentInfo>,
    active: Option<AgentId>,
    list: Seq<AgentId>,
    n: int,
) -> Seq<AgentId>
    decreases n,
{
    if n <= 0 {
        Seq::empty()
    } else {
        let before = live_minis(agents, active, list, n - 1);
        if has_agent(agents, list[n - 1]) && Some(list[n - 1]) != active {
            before.push(list[n - 1])
        } else {
            before
        }
    }
}

/// The terminals among the first `n` that belong to agent `id`.
pub open spec fn terminals_of(
    terminals: Seq<(TerminalId, AgentId)>,
    id: AgentId,
    n: int,
) -> Seq<TerminalId>
    decreases n,
{
    if n <= 0 {
        Seq::empty()
    } else {
        let before = terminals_of(terminals, id, n - 1);
        if terminals[n - 1].1 == id {
            before.push(terminals[n - 1].0)
        } else {
            before
        }
    }
}

/// Those of the first `n` agents that are not `id`.
pub open spec fn other_agents(agents: Seq<AgentInfo>, id: AgentId, n: int) -> Seq<AgentInfo>
    decreases n,
{
    if n <= 0 {
        Seq::empty()
    } else {
        let before = other_agents(agents, id, n - 1);
        if agents[n - 1].id != id {
            before.push(agents[n - 1])
        } else {
            before
        }
    }
}

impl AppView {
    /// The client without the first `n` of `ts`.
    pub open spec fn forget_all(self, ts: Seq<TerminalId>, n: int) -> AppView
        decreases n,
    {
        if n <= 0 {
            self
        } else {
            self.forget_all(ts, n - 1).forget_terminal(ts[n - 1])
        }
    }

    /// The client once agent `id` is struck from everything but the roster.
    pub open spec fn strike_agent(self, id: AgentId) -> AppView {
        let ts = terminals_of(self.terminals, id, self.terminals.len() as int);
        let v = self.forget_all(ts, ts.len() as int);
        let minis = without_id(v.minis, id);
        AppView {
            trees: drop_key(v.trees, id),
            minis,
            minimized: without_id(v.minimized, id),
            active_agent: if v.active_agent == Some(id) {
                None
            } else {
                v.active_agent
            },
            prev_active_agent: if v.prev_active_agent == Some(id) {
                None
            } else {
                v.prev_active_agent
            },
            focus: match v.focus {
                Focus::Mini(i) => if i >= minis.len() {
                    v.focus_return
                } else {
                    v.focus
                },
                _ => v.focus,
            },
            ..v
        }
    }

    /// The client without agent `id`.
    #[verifier::opaque]
    pub open spec fn remove_agent(self, id: AgentId) -> AppView {
        let v = self.strike_agent(id);
        AppView {
            agents: other_agents(v.agents, id, v.agents.len() as int),
            sidebar_sel: if v.sidebar_sel == Some(Row::Agent(id)) {
                None
            } else {
                v.sidebar_sel
            },
            ..v
        }.leave_empty_panes().ensure_sidebar_sel().reconcile()
    }

    /// The client with `agent` in place of the agent at `i`.
    pub open spec fn with_agent(self, i: int, agent: AgentInfo) -> AppView {
        AppView { agents: self.agents.update(i, agent), ..self }
    }

    /// The client after a message of the daemon.
    #[verifier::opaque]
    pub open spec fn on_daemon(self, msg: DaemonMsg) -> AppView {
        match msg {
            DaemonMsg::Hello { .. } => self,
            DaemonMsg::Repos(list) => AppView { repos: list@, ..self }.ensure_sidebar_sel(),
            DaemonMsg::RepoAdded(info) => if has_repo(self.repos, info.id) {
                self.ensure_sidebar_sel()
            } else {
                AppView { repos: self.repos.push(info), ..self }.ensure_sidebar_sel()
            },
            DaemonMsg::Agents(list) => AppView { agents: list@, ..self }.ensure_sidebar_sel(),
            DaemonMsg::Layouts(list) => AppView {
                saved_layouts: layout_table(list@, list@.len() as int),
                ..self
            },
            DaemonMsg::Minis(list) => AppView {
                minis: live_minis(self.agents, self.active_agent, list@, list@.len() as int),
                ..self
            }.reconcile(),
            DaemonMsg::Active(active) => match active {
                Some(id) => if self.active_agent != Some(id) && has_agent(self.agents, id) {
                    self.activate(id)
                } else {
                    self
                },
                None => self,
            },
            DaemonMsg::Previous(prev) => AppView {
                prev_active_agent: match prev {
                    Some(id) => if has_agent(self.agents, id) {
                        Some(id)
                    } else {
                        None
                    },
                    None => None,
                },
                ..self
            }.reconcile(),
            DaemonMsg::AgentAdded(info) => AppView {
                agents: self.agents.push(info),
                ..self
            }.place_sidebar_sel(Row::Agent(info.id)).ensure_sidebar_sel(),
            DaemonMsg::AgentRemoved { id } => self.remove_agent(id),
            DaemonMsg::DeleteNeedsConfirm { id, message } => AppView {
                confirm_id: Some(id),
                confirm_msg: message@,
                input: InputMode::Confirming,
                ..self
            },
            DaemonMsg::StateChanged { id, state, glyph } => match agent_place(self.agents, id) {
                Some(i) => self.with_agent(
                    i,
                    AgentInfo { state, glyph, last_activity: self.now, ..self.agents[i] },
                ),
                None => self,
            },
            DaemonMsg::UnreadChanged { id, unread } => match agent_place(self.agents, id) {
                Some(i) => self.with_agent(i, AgentInfo { unread, ..self.agents[i] }),
                None => self,
            },
            DaemonMsg::OpenedChanged { id, at } => match agent_place(self.agents, id) {
                Some(i) => self.with_agent(i, AgentInfo { last_opened: at, ..self.agents[i] }),
                None => self,
            },
            DaemonMsg::TerminalApp { terminal, passthrough } => AppView {
                passthrough: put(self.passthrough, terminal, passthrough),
                ..self
            },
            DaemonMsg::Navigate { dir } => self.navigate(dir),
            DaemonMsg::OutputSnapshot { terminal, bytes } => match lookup(self.attached, terminal) {
                Some(size) => AppView {
                    parsers: put(self.parsers, terminal, served_screen(size, bytes@)),
                    ..self
                },
                None => self,
            },
            DaemonMsg::Output { terminal, bytes } => AppView {
                parsers: fed(self.parsers, terminal, bytes@),
                ..self
            },
            DaemonMsg::ScrollView { terminal, offset, available, bytes } => self.on_scroll_view(
                terminal,
                offset,
                available,
                bytes@,
            ),
            DaemonMsg::TerminalExited { terminal } => self.forget_terminal(
                terminal,
            ).leave_empty_panes().reconcile(),
            DaemonMsg::DoctorReport { pruned, skipped, .. } => AppView {
                info: summary(texts(pruned@), skips(skipped@)),
                ..self
            },
            DaemonMsg::Error { message } => AppView { status: message@, ..self },
        }
    }

    /// The client after a message of the daemon, or after the stream of them ended.
    pub open spec fn handle_daemon(self, msg: Option<DaemonMsg>) -> (AppView, Flow) {
        match msg {
            Some(m) => (self.on_daemon(m), Flow::Continue),
            None => (self, Flow::Quit),
        }
    }
}

impl App {
    fn load_layouts(&mut self, list: Vec<(AgentId, Layout)>)
        ensures
            final(self)@ == (AppView {
                saved_layouts: layout_table(list@, list@.len() as int),
                ..old(self)@
            }),
    {
        let mut table: Table<AgentId, Layout> = Table::new();
        let mut i: usize = 0;
        while i < list.len()
            invariant
                i <= list@.len(),
                table@ == layout_table(list@, i as int),
            decreases list@.len() - i,
        {
            let layout = list[i].1.copy();
            table.set(list[i].0, layout);
            i = i + 1;
        }
        self.saved_layouts = table;
    }

    fn load_minis(&mut self, list: Vec<AgentId>)
        ensures
            final(self)@ == (AppView {
                minis: live_minis(
                    old(self)@.agents,
                    old(self)@.active_agent,
                    list@,
                    list@.len() as int,
                ),
                ..old(self)@
            }),
    {
        let mut minis: Vec<AgentId> = Vec::new();
        let mut i: usize = 0;
        while i < list.len()
            invariant
                i <= list@.len(),
                minis@ == live_minis(self@.agents, self@.active_agent, list@, i as int),
            decreases list@.len() - i,
        {
            let id = list[i];
            if find_agent(&self.agents, id).is_some() && !same_id(Some(id), self.active_agent) {
                minis.push(id);
            }
            i = i + 1;
        }
        self.minis = minis;
    }

    fn forget_agent_terminals(&mut self, id: AgentId)
        ensures
            ({
                let ts = terminals_of(
                    old(self)@.terminals,
                    id,
                    old(self)@.terminals.len() as int,
                );
                final(self)@ == old(self)@.forget_all(ts, ts.len() as int)
            }),
    {
        let ghost v = self@;
        let mut ts: Vec<TerminalId> = Vec::new();
        let mut i: usize = 0;
        while i < self.terminals.items.len()
            invariant
                v == self@,
                i <= v.terminals.len(),
                ts@ == terminals_of(v.terminals, id, i as int),
            decreases v.terminals.len() - i,
        {
            let owner = self.terminals.items[i].1;
            let t = self.terminals.items[i].0;
            assert(v.terminals[i as int] == (t, owner));
            if owner == id {
                ts.push(t);
            }
            i = i + 1;
        }
        let mut k: usize = 0;
        while k < ts.len()
            invariant
                k <= ts@.len(),
                self@ == v.forget_all(ts@, k as int),
            decreases ts@.len() - k,
        {
            self.forget_terminal(ts[k]);
            k = k + 1;
        }
    }

    fn strike_agent(&mut self, id: AgentId)
        ensures
            final(self)@ == old(self)@.strike_agent(id),
    {
        self.forget_agent_terminals(id);
        let _ = self.trees.take(id);
        self.minis = remove_id(&self.minis, id);
        self.minimized = remove_id(&self.minimized, id);
        if same_id(self.active_agent, Some(id)) {
            self.active_agent = None;
        }
        if same_id(self.prev_active_agent, Some(id)) {
            self.prev_active_agent = None;
        }
        // Without the mini, the focus may be on one that is no longer there.
        if let Focus::Mini(i) = self.focus {
            if i >= self.minis.len() {
                self.focus = self.focus_return;
            }
        }
    }

    fn drop_agents(&mut self, id: AgentId)
        ensures
            final(self)@ == (AppView {
                agents: other_agents(old(self)@.agents, id, old(self)@.agents.len() as int),
                ..old(self)@
            }),
    {
        let ghost all = self.agents@;
        let ghost v = self@;
        let mut i: usize = 0;
        let ghost mut seen: int = 0;
        assert(other_agents(all, id, 0) + all.skip(0) =~= all);
        while i < self.agents.len()
            invariant
                0 <= seen <= all.len(),
                i == other_agents(all, id, seen).len(),
                self.agents@ == other_agents(all, id, seen) + all.skip(seen),
                self@ == (AppView { agents: self.agents@, ..v }),
            decreases all.len() - seen,
        {
            assert(self.agents@[i as int] == all[seen]);
            if self.agents[i].id == id {
                let _ = self.agents.remove(i);
                assert(self.agents@ =~= other_agents(all, id, seen + 1) + all.skip(seen + 1));
            } else {
                i = i + 1;
                assert(self.agents@ =~= other_agents(all, id, seen + 1) + all.skip(seen + 1));
            }
            proof {
                seen = seen + 1;
            }
        }
        assert(seen == all.len());
        assert(self.agents@ =~= other_agents(all, id, all.len() as int));
    }

    fn remove_agent(&mut self, id: AgentId)
        ensures
            final(self)@ == old(self)@.remove_agent(id),
    {
        proof {
            reveal(AppView::remove_agent);
        }
        self.strike_agent(id);
        self.drop_agents(id);
        if let Some(Row::Agent(sel)) = self.sidebar_sel {
            if sel == id {
                self.sidebar_sel = None;
            }
        }
        if self.tree.is_empty() {
            self.focus = Focus::Sidebar;
        }
        self.ensure_sidebar_sel();
        self.reconcile();
    }

    fn add_repo(&mut self, info: RepoInfo)
        ensures
            final(self)@ == if has_repo(old(self)@.repos, info.id) {
                old(self)@
            } else {
                (AppView { repos: old(self)@.repos.push(info), ..old(self)@ })
            },
    {
        let mut i: usize = 0;
        while i < self.repos.len()
            invariant
                i <= self.repos@.len(),
                *self == *old(self),
                forall|k: int| 0 <= k < i ==> (#[trigger] self.repos@[k]).id != info.id,
            decreases self.repos@.len() - i,
        {
            if self.repos[i].id == info.id {
                assert(old(self)@.repos[i as int].id == info.id);
                return;
            }
            i = i + 1;
        }
        self.repos.push(info);
    }

    fn change_state(&mut self, id: AgentId, state: AgentState, glyph: char)
        ensures
            final(self)@ == old(self)@.on_daemon(DaemonMsg::StateChanged { id, state, glyph }),
    {
        proof {
            reveal(AppView::on_daemon);
        }
        if let Some(i) = find_agent(&self.agents, id) {
            let ghost v = self@;
            let now = self.now;
            self.agents[i].state = state;
            self.agents[i].glyph = glyph;
            self.agents[i].last_activity = now;
            assert(self.agents@ =~= v.agents.update(
                i as int,
                AgentInfo { state, glyph, last_activity: now, ..v.agents[i as int] },
            ));
        }
    }

    fn change_unread(&mut self, id: AgentId, unread: bool)
        ensures
            final(self)@ == old(self)@.on_daemon(DaemonMsg::UnreadChanged { id, unread }),
    {
        proof {
            reveal(AppView::on_daemon);
        }
        if let Some(i) = find_agent(&self.agents, id) {
            let ghost v = self@;
            self.agents[i].unread = unread;
            assert(self.agents@ =~= v.agents.update(
                i as int,
                AgentInfo { unread, ..v.agents[i as int] },
            ));
        }
    }

    fn change_opened(&mut self, id: AgentId, at: Moment)
        ensures
            final(self)@ == old(self)@.on_daemon(DaemonMsg::OpenedChanged { id, at }),
    {
        proof {
            reveal(AppView::on_daemon);
        }
        if let Some(i) = find_agent(&self.agents, id) {
            let ghost v = self@;
            self.agents[i].last_opened = at;
            assert(self.agents@ =~= v.agents.update(
                i as int,
                AgentInfo { last_opened: at, ..v.agents[i as int] },
            ));
        }
    }

    /// One message of the daemon.
    #[verifier::rlimit(60)]
    pub fn on_daemon(&mut self, msg: DaemonMsg)
        ensures
            final(self)@ == old(self)@.on_daemon(msg),
    {
        proof {
            reveal(AppView::on_daemon);
        }
        match msg {
            DaemonMsg::Hello { .. } => {},
            DaemonMsg::Repos(list) => {
                self.repos = list;
                self.ensure_sidebar_sel();
            },
            DaemonMsg::RepoAdded(info) => {
                self.add_repo(info);
                self.ensure_sidebar_sel();
            },
            DaemonMsg::Agents(list) => {
                self.agents = list;
                self.ensure_sidebar_sel();
            },
            DaemonMsg::Layouts(list) => self.load_layouts(list),
            DaemonMsg::Minis(list) => {
                self.load_minis(list);
                self.reconcile();
            },
            DaemonMsg::Active(active) => {
                // The layouts came first, so the panes can be rebuilt from a saved one.
                if let Some(id) = active {
                    if !same_id(self.active_agent, Some(id)) && find_agent(
                        &self.agents,
                        id,
                    ).is_some() {
                        self.activate(id);
                    }
                }
            },
            DaemonMsg::Previous(prev) => {
                self.prev_active_agent = match prev {
                    Some(id) => if find_agent(&self.agents, id).is_some() {
                        Some(id)
                    } else {
                        None
                    },
                    None => None,
                };
                self.reconcile();
            },
            DaemonMsg::AgentAdded(info) => {
                // The cursor goes to a new agent, so that the next Enter opens it.
                let id = info.id;
                self.agents.push(info);
                self.place_sidebar_sel(Row::Agent(id));
                self.ensure_sidebar_sel();
            },
            DaemonMsg::AgentRemoved { id } => self.remove_agent(id),
            DaemonMsg::DeleteNeedsConfirm { id, message } => {
                self.confirm_id = Some(id);
                self.confirm_msg = message;
                self.input = InputMode::Confirming;
            },
            DaemonMsg::StateChanged { id, state, glyph } => self.change_state(id, state, glyph),
            DaemonMsg::UnreadChanged { id, unread } => self.change_unread(id, unread),
            DaemonMsg::OpenedChanged { id, at } => self.change_opened(id, at),
            DaemonMsg::TerminalApp { terminal, passthrough } => {
                self.passthrough.set(terminal, passthrough);
            },
            DaemonMsg::Navigate { dir } => self.navigate(dir),
            DaemonMsg::OutputSnapshot { terminal, bytes } => {
                let size = match self.attached.get(terminal) {
                    Some(size) => Some(*size),
                    None => None,
                };
                if let Some(size) = size {
                    let parser = serve_screen(size, bytes.as_slice());
                    self.parsers.set(terminal, parser);
                }
            },
            DaemonMsg::Output { terminal, bytes } => {
                // A pane that is scrolled back goes on showing its window; the output lands in the
                // live screen behind it.
                feed_parser(&mut self.parsers, terminal, bytes.as_slice());
            },
            DaemonMsg::ScrollView { terminal, offset, available, bytes } => {
                self.on_scroll_view(terminal, offset, available, bytes.as_slice());
            },
            DaemonMsg::TerminalExited { terminal } => {
                self.forget_terminal(terminal);
                if self.tree.is_empty() {
                    self.focus = Focus::Sidebar;
                }
                self.reconcile();
            },
            DaemonMsg::DoctorReport { pruned, skipped, .. } => {
                self.info = doctor_summary(&pruned, &skipped);
            },
            DaemonMsg::Error { message } => {
                self.status = message;
            },
        }
    }

    /// One message of the daemon, or the end of the stream of them, which ends the client.
    pub fn handle_daemon(&mut self, msg: Option<DaemonMsg>) -> (flow: Flow)
        ensures
            final(self)@ == old(self)@.handle_daemon(msg).0,
            flow == old(self)@.handle_daemon(msg).1,
    {
        match msg {
            Some(m) => {
                self.on_daemon(m);
                Flow::Continue
            },
            None => Flow::Quit,
        }
    }
}

} // verus!
