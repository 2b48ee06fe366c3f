//! What is drawn: the sidebar, the panes, the minis and the status line, as text with styles.

use vstd::prelude::*;
use crate::frame::{
    fg, fg_bold, line_views, on, plain, spec_fg, spec_fg_bold, spec_on, spec_plain, Line, Span,
    SpanView, Style,
};
use crate::geometry::{add_to, larger, larger_of, minus, plus, smaller, smaller_of, take_off, Rect};
use crate::ids::{AgentId, RepoId, TerminalId};
use crate::pane::Placement;
use crate::selection::{highlight_selection, highlighted};
use crate::sidebar::{
    agent_order, clamp_top, clamped_top, digit_label, has_id, overlay_digit, Row, SIDEBAR_W_FULL,
};
use crate::state::{find_agent, find_id, has_agent, id_from, App, AppView, Field, Focus, InputMode};
use crate::table::lookup;
use crate::text::{copies, cut, cut_to, decimal, decimal_string, fit_to, fitted, owned, repeated};
use crate::theme::{color_for, state_color, Color};
use crate::time::{age_short, age_text};
use crate::wire::{AgentInfo, AgentState, RepoInfo};

verus! {

// --- names ---

/// The place of the last agent `id` among the first `n`.
pub open spec fn last_agent(agents: Seq<AgentInfo>, id: AgentId, n: int) -> Option<int>
    decreases n,
{
    if n <= 0 {
        None
    } else if agents[n - 1].id == id {
        Some(n - 1)
    } else {
        last_agent(agents, id, n - 1)
    }
}

/// The name of the last repository `id` among the first `n`.
pub open spec fn repo_name(repos: Seq<RepoInfo>, id: RepoId, n: int) -> Option<Seq<char>>
    decreases n,
{
    if n <= 0 {
        None
    } else if repos[n - 1].id == id {
        Some(repos[n - 1].name@)
    } else {
        repo_name(repos, id, n - 1)
    }
}

/// The name to show for a repository.
pub open spec fn repo_label(repos: Seq<RepoInfo>, id: RepoId) -> Seq<char> {
    match repo_name(repos, id, repos.len() as int) {
        Some(name) => name,
        None => "repo"@,
    }
}

/// The branch to show for an agent: a session without one is on the head.
pub open spec fn branch_label(a: AgentInfo) -> Seq<char> {
    match a.branch {
        Some(b) => b@,
        None => "HEAD"@,
    }
}

/// How many of the first `n` agents belong to a repository.
pub open spec fn agent_count(agents: Seq<AgentInfo>, repo: RepoId, n: int) -> nat
    decreases n,
{
    if n <= 0 {
        0
    } else {
        agent_count(agents, repo, n - 1) + if agents[n - 1].repo == repo {
            1nat
        } else {
            0nat
        }
    }
}

/// How many of the first `n` agents are unread.
pub open spec fn unread_count(agents: Seq<AgentInfo>, n: int) -> nat
    decreases n,
{
    if n <= 0 {
        0
    } else {
        unread_count(agents, n - 1) + if agents[n - 1].unread {
            1nat
        } else {
            0nat
        }
    }
}

/// How many of the first `n` rows belong to the recent block.
pub open spec fn recent_row_count(rows: Seq<Row>, n: int) -> nat
    decreases n,
{
    if n <= 0 {
        0
    } else {
        recent_row_count(rows, n - 1) + if rows[n - 1] is Recent {
            1nat
        } else {
            0nat
        }
    }
}

fn find_last_agent(agents: &Vec<AgentInfo>, id: AgentId) -> (at: Option<usize>)
    ensures
        match (at, last_agent(agents@, id, agents@.len() as int)) {
            (Some(i), Some(j)) => i as int == j,
            (None, None) => true,
            _ => false,
        },
        at is Some ==> at->0 < agents@.len(),
{
    let mut i: usize = agents.len();
    while i > 0
        invariant
            i <= agents@.len(),
            last_agent(agents@, id, agents@.len() as int) == last_agent(agents@, id, i as int),
        decreases i,
    {
        if agents[i - 1].id == id {
            return Some(i - 1);
        }
        i = i - 1;
    }
    None
}

fn label_of_repo(repos: &Vec<RepoInfo>, id: RepoId) -> (name: String)
    ensures
        name@ == repo_label(repos@, id),
{
    let mut i: usize = repos.len();
    while i > 0
        invariant
            i <= repos@.len(),
            repo_name(repos@, id, repos@.len() as int) == repo_name(repos@, id, i as int),
        decreases i,
    {
        if repos[i - 1].id == id {
            return owned(repos[i - 1].name.as_str());
        }
        i = i - 1;
    }
    owned("repo")
}

fn label_of_branch(a: &AgentInfo) -> (name: String)
    ensures
        name@ == branch_label(*a),
{
    match &a.branch {
        Some(b) => owned(b.as_str()),
        None => owned("HEAD"),
    }
}

fn count_agents(agents: &Vec<AgentInfo>, repo: RepoId) -> (n: usize)
    ensures
        n == agent_count(agents@, repo, agents@.len() as int),
{
    let mut n: usize = 0;
    let mut i: usize = 0;
    while i < agents.len()
        invariant
            i <= agents@.len(),
            n <= i,
            n == agent_count(agents@, repo, i as int),
        decreases agents@.len() - i,
    {
        if agents[i].repo == repo {
            n = n + 1;
        }
        i = i + 1;
    }
    n
}

fn count_unread(agents: &Vec<AgentInfo>) -> (n: usize)
    ensures
        n == unread_count(agents@, agents@.len() as int),
{
    let mut n: usize = 0;
    let mut i: usize = 0;
    while i < agents.len()
        invariant
            i <= agents@.len(),
            n <= i,
            n == unread_count(agents@, i as int),
        decreases agents@.len() - i,
    {
        if agents[i].unread {
            n = n + 1;
        }
        i = i + 1;
    }
    n
}

fn count_recent_rows(rows: &Vec<Row>) -> (n: usize)
    ensures
        n == recent_row_count(rows@, rows@.len() as int),
{
    let mut n: usize = 0;
    let mut i: usize = 0;
    while i < rows.len()
        invariant
            i <= rows@.len(),
            n <= i,
            n == recent_row_count(rows@, i as int),
        decreases rows@.len() - i,
    {
        if let Row::Recent(_) = rows[i] {
            n = n + 1;
        }
        i = i + 1;
    }
    n
}

/// A character as text.
fn text_of(c: char) -> (s: String)
    ensures
        s@ == seq![c],
{
    let mut s = String::new();
    s.push(c);
    assert(s@ =~= seq![c]);
    s
}

/// A number in round brackets.
pub open spec fn bracketed(n: nat) -> Seq<char> {
    seq!['('] + decimal(n) + seq![')']
}

fn in_brackets(n: usize) -> (s: String)
    ensures
        s@ == bracketed(n as nat),
{
    let mut s = text_of('(');
    let d = decimal_string(n as u64);
    s.append(d.as_str());
    s.push(')');
    assert(s@ =~= bracketed(n as nat));
    s
}

// --- the sidebar ---

/// A bordered box with lines of text in it.
pub struct BoxFrame {
    pub title: String,
    pub border: Style,
    pub lines: Vec<Line>,
}

/// The hint in the title on how much of the list is out of view. The rail has no room for numbers.
pub open spec fn hidden_hint(minimized: bool, above: nat, below: nat) -> Seq<char> {
    if above == 0 && below == 0 {
        Seq::empty()
    } else if !minimized {
        if above == 0 {
            seq!['\u{2193}'] + decimal(below) + seq![' ']
        } else if below == 0 {
            seq!['\u{2191}'] + decimal(above) + seq![' ']
        } else {
            seq!['\u{2191}'] + decimal(above) + seq!['\u{2193}'] + decimal(below) + seq![' ']
        }
    } else if above == 0 {
        seq!['\u{2193}']
    } else if below == 0 {
        seq!['\u{2191}']
    } else {
        seq!['\u{2195}']
    }
}

/// The sidebar's title.
pub open spec fn sidebar_title(minimized: bool, unread: nat, hidden: Seq<char>) -> Seq<char> {
    if !minimized {
        if unread == 0 {
            " agents "@ + hidden
        } else {
            " agents · "@ + decimal(unread) + " unread "@ + hidden
        }
    } else if unread == 0 {
        hidden
    } else {
        seq![' '] + decimal(unread) + seq![' '] + hidden
    }
}

fn write_hint(minimized: bool, above: usize, below: usize) -> (out: String)
    ensures
        out@ == hidden_hint(minimized, above as nat, below as nat),
{
    let mut out = String::new();
    if above == 0 && below == 0 {
        assert(out@ =~= Seq::<char>::empty());
        return out;
    }
    if !minimized {
        if above > 0 {
            out.push('\u{2191}');
            let d = decimal_string(above as u64);
            out.append(d.as_str());
        }
        if below > 0 {
            out.push('\u{2193}');
            let d = decimal_string(below as u64);
            out.append(d.as_str());
        }
        out.push(' ');
    } else if above == 0 {
        out.push('\u{2193}');
    } else if below == 0 {
        out.push('\u{2191}');
    } else {
        out.push('\u{2195}');
    }
    assert(out@ =~= hidden_hint(minimized, above as nat, below as nat));
    out
}

fn write_title(minimized: bool, unread: usize, hidden: &str) -> (out: String)
    ensures
        out@ == sidebar_title(minimized, unread as nat, hidden@),
{
    let mut out = String::new();
    let n = decimal_string(unread as u64);
    if !minimized {
        if unread == 0 {
            out.append(" agents ");
        } else {
            out.append(" agents · ");
            out.append(n.as_str());
            out.append(" unread ");
        }
    } else if unread > 0 {
        out.push(' ');
        out.append(n.as_str());
        out.push(' ');
    }
    out.append(hidden);
    assert(out@ =~= sidebar_title(minimized, unread as nat, hidden@));
    out
}

/// `n` less `k`, or nothing.
pub open spec fn less(n: int, k: int) -> nat {
    if n > k {
        (n - k) as nat
    } else {
        0
    }
}

impl AppView {
    /// The mark that covers the glyph of agent `id` while the numbers are shown: a dash for the agent
    /// that was active before, or its digit.
    pub open spec fn overlay_for(self, id: AgentId) -> Option<char> {
        if !(self.super_held || self.prefix) {
            None
        } else if self.prev_active_agent == Some(id) && has_agent(self.agents, id) {
            Some('-')
        } else {
            match id_from(agent_order(self.rows()), id, 0) {
                Some(i) => digit_label(i),
                None => None,
            }
        }
    }

    /// Whether agent `id` is visible: in the main area, or as a mini.
    pub open spec fn is_open(self, id: AgentId) -> bool {
        self.active_agent == Some(id) || self.minis.contains(id)
    }

    /// The cell with an agent's glyph, or with the mark that covers it.
    pub open spec fn glyph_span(self, a: AgentInfo) -> SpanView {
        match self.overlay_for(a.id) {
            Some(d) => SpanView {
                text: seq![' ', d, ' '],
                style: Style {
                    fg: Some(Color::Black),
                    bg: Some(self.theme.focus),
                    bold: true,
                    dim: false,
                    reversed: false,
                },
            },
            None => SpanView {
                text: seq![' ', a.glyph, ' '],
                style: spec_fg(state_color(a.state)),
            },
        }
    }

    /// The cursor's column of a row.
    pub open spec fn marker(self, row: Row) -> Seq<char> {
        if self.sidebar_sel == Some(row) {
            seq!['\u{25b8}']
        } else {
            seq![' ']
        }
    }

    /// The line of a repository's header.
    pub open spec fn repo_line(self, id: RepoId, width: int, minimized: bool) -> Seq<SpanView> {
        let row = Row::Repo(id);
        let name = repo_label(self.repos, id);
        let style = Style {
            fg: Some(self.theme.focus),
            bg: None,
            bold: true,
            dim: false,
            reversed: self.sidebar_sel == Some(row),
        };
        if minimized {
            seq![
                SpanView { text: self.marker(row) + "\u{25be} "@, style: spec_fg(self.theme.focus) },
                SpanView { text: cut(name, less(width, 4)), style },
            ]
        } else {
            seq![
                SpanView {
                    text: self.marker(row) + " \u{25be} "@,
                    style: spec_fg(self.theme.focus),
                },
                SpanView { text: name.push(' '), style },
                SpanView {
                    text: bracketed(agent_count(self.agents, id, self.agents.len() as int)),
                    style: spec_fg(Color::DarkGray),
                },
            ]
        }
    }

    /// The line of an agent: cursor, unread bar, glyph, open marker, name and age. The rail has room
    /// for the first three and the start of the name.
    pub open spec fn agent_line(
        self,
        row: Row,
        a: AgentInfo,
        name: Seq<char>,
        width: int,
        minimized: bool,
    ) -> Seq<SpanView> {
        let name_style = if a.unread || self.sidebar_sel == Some(row) {
            Style { bold: true, ..spec_plain() }
        } else {
            spec_plain()
        };
        let start = seq![
            SpanView { text: self.marker(row), style: spec_fg(self.theme.focus) },
            SpanView {
                text: if a.unread {
                    seq!['\u{258c}']
                } else {
                    seq![' ']
                },
                style: spec_fg_bold(self.theme.focus),
            },
            self.glyph_span(a),
        ];
        if minimized {
            start.push(SpanView { text: fitted(name, less(width, 5)), style: name_style })
        } else {
            let age = age_text(self.now, a.last_opened);
            start.push(
                SpanView {
                    text: if self.is_open(a.id) {
                        seq!['*']
                    } else {
                        seq![' ']
                    },
                    style: name_style,
                },
            ).push(
                SpanView {
                    text: fitted(name, less(width, 7 + age.len() as int)),
                    style: name_style,
                },
            ).push(SpanView { text: seq![' '] + age, style: spec_fg(Color::DarkGray) })
        }
    }

    /// The line under an agent that waits.
    pub open spec fn attention_line(self, id: AgentId) -> Seq<SpanView> {
        let msg = match last_agent(self.agents, id, self.agents.len() as int) {
            Some(i) => match self.agents[i].state {
                AgentState::NeedsAttention { message: Some(m), .. } => m@,
                _ => Seq::empty(),
            },
            None => Seq::empty(),
        };
        seq![
            SpanView {
                text: "       "@ + msg,
                style: Style { dim: true, ..spec_fg(Color::Yellow) },
            },
        ]
    }

    /// The line of a row, in a sidebar of the given inner width. `recent` is the number of rows of the
    /// recent block.
    pub open spec fn row_line(
        self,
        row: Row,
        recent: nat,
        width: int,
        minimized: bool,
    ) -> Seq<SpanView> {
        match row {
            Row::Repo(id) => self.repo_line(id, width, minimized),
            Row::RecentHeader => seq![
                SpanView { text: "  \u{25be} "@, style: spec_fg(self.theme.focus) },
                SpanView { text: "recent "@, style: spec_fg_bold(self.theme.focus) },
                SpanView { text: bracketed(recent), style: spec_fg(Color::DarkGray) },
            ],
            Row::Divider => seq![
                SpanView {
                    text: seq![' '] + copies('\u{2500}', less(width, 2)) + seq![' '],
                    style: spec_fg(Color::DarkGray),
                },
            ],
            Row::Recent(id) => match last_agent(self.agents, id, self.agents.len() as int) {
                Some(i) => self.agent_line(
                    row,
                    self.agents[i],
                    repo_label(self.repos, self.agents[i].repo) + seq!['/'] + self.agents[i].name@,
                    width,
                    false,
                ),
                None => Seq::empty(),
            },
            Row::EmptyRepo(_) => seq![
                SpanView {
                    text: "      no agents — press n"@,
                    style: spec_fg(Color::DarkGray),
                },
            ],
            Row::NoRepos => seq![
                SpanView { text: " no repos yet…"@, style: spec_fg(Color::DarkGray) },
            ],
            Row::Agent(id) => match last_agent(self.agents, id, self.agents.len() as int) {
                Some(i) => self.agent_line(
                    row,
                    self.agents[i],
                    self.agents[i].name@,
                    width,
                    minimized,
                ),
                None => Seq::empty(),
            },
            Row::Attention(id) => self.attention_line(id),
        }
    }

    /// The topmost row drawn in a sidebar of the given height.
    pub open spec fn drawn_top(self, minimized: bool, height: int) -> int {
        clamped_top(self.sidebar_top as int, self.rows_for(minimized).len() as int, height)
    }

    /// How many lines of the sidebar are drawn.
    pub open spec fn drawn_count(self, minimized: bool, height: int) -> nat {
        let left = self.rows_for(minimized).len() - self.drawn_top(minimized, height);
        let room = if height < 1 {
            1
        } else {
            height
        };
        if left < room {
            left as nat
        } else {
            room as nat
        }
    }

    /// The lines of the sidebar in an area.
    pub open spec fn sidebar_lines(self, area: Rect) -> Seq<Seq<SpanView>> {
        let minimized = area.width < SIDEBAR_W_FULL;
        let height = minus(area.height, 2) as int;
        let rows = self.rows_for(minimized);
        let top = self.drawn_top(minimized, height);
        Seq::new(
            self.drawn_count(minimized, height),
            |k: int|
                self.row_line(
                    rows[top + k],
                    recent_row_count(rows, rows.len() as int),
                    minus(area.width, 2) as int,
                    minimized,
                ),
        )
    }

    /// The title of the sidebar in an area.
    pub open spec fn sidebar_heading(self, area: Rect) -> Seq<char> {
        let minimized = area.width < SIDEBAR_W_FULL;
        let height = minus(area.height, 2) as int;
        let top = self.drawn_top(minimized, height);
        sidebar_title(
            minimized,
            unread_count(self.agents, self.agents.len() as int),
            hidden_hint(
                minimized,
                top as nat,
                less(self.rows_for(minimized).len() as int, top + height),
            ),
        )
    }

    /// The style of a border that is focused or not.
    pub open spec fn border(self, focused: bool, color: Color) -> Style {
        if focused {
            spec_fg_bold(self.theme.focus)
        } else {
            spec_fg(color)
        }
    }
}

impl App {
    fn overlay_for(&self, id: AgentId) -> (d: Option<char>)
        ensures
            d == self@.overlay_for(id),
    {
        if !self.numeric_overlay_active() {
            return None;
        }
        let previous = match self.prev_active_agent {
            Some(p) => p == id && find_agent(&self.agents, id).is_some(),
            None => false,
        };
        if previous {
            return Some('-');
        }
        let ids = self.ordered_agent_ids();
        match find_id(&ids, id) {
            Some(i) => overlay_digit(i),
            None => None,
        }
    }

    fn is_open(&self, id: AgentId) -> (b: bool)
        ensures
            b == self@.is_open(id),
    {
        let active = match self.active_agent {
            Some(a) => a == id,
            None => false,
        };
        active || has_id(&self.minis, id)
    }

    fn is_selected(&self, row: Row) -> (b: bool)
        ensures
            b == (self@.sidebar_sel == Some(row)),
    {
        match self.sidebar_sel {
            Some(r) => r == row,
            None => false,
        }
    }

    fn marker(&self, row: Row) -> (s: String)
        ensures
            s@ == self@.marker(row),
    {
        if self.is_selected(row) {
            text_of('\u{25b8}')
        } else {
            text_of(' ')
        }
    }

    fn push_glyph(&self, a: &AgentInfo, line: &mut Line)
        ensures
            final(line)@ == old(line)@.push(self@.glyph_span(*a)),
    {
        let mut text = text_of(' ');
        match self.overlay_for(a.id) {
            Some(d) => {
                text.push(d);
                text.push(' ');
                assert(text@ =~= seq![' ', d, ' ']);
                line.push(
                    text,
                    Style {
                        fg: Some(Color::Black),
                        bg: Some(self.theme.focus),
                        bold: true,
                        dim: false,
                        reversed: false,
                    },
                );
            },
            None => {
                text.push(a.glyph);
                text.push(' ');
                assert(text@ =~= seq![' ', a.glyph, ' ']);
                line.push(text, fg(color_for(&a.state)));
            },
        }
    }

    fn repo_line(&self, id: RepoId, width: usize, minimized: bool) -> (line: Line)
        ensures
            line@ == self@.repo_line(id, width as int, minimized),
    {
        let row = Row::Repo(id);
        let name = label_of_repo(&self.repos, id);
        let style = Style {
            fg: Some(self.theme.focus),
            bg: None,
            bold: true,
            dim: false,
            reversed: self.is_selected(row),
        };
        let mut line = Line::new();
        let mut start = self.marker(row);
        if minimized {
            start.append("\u{25be} ");
            line.push(start, fg(self.theme.focus));
            let room: usize = if width > 4 {
                width - 4
            } else {
                0
            };
            line.push(cut_to(name.as_str(), room), style);
        } else {
            start.append(" \u{25be} ");
            line.push(start, fg(self.theme.focus));
            let mut shown = name;
            shown.push(' ');
            line.push(shown, style);
            let n: usize = count_agents(&self.agents, id);
            line.push(in_brackets(n), fg(Color::DarkGray));
        }
        assert(line@ =~= self@.repo_line(id, width as int, minimized));
        line
    }

    fn agent_line(&self, row: Row, a: &AgentInfo, name: &str, width: usize, minimized: bool) -> (line:
        Line)
        ensures
            line@ == self@.agent_line(row, *a, name@, width as int, minimized),
    {
        let name_style = Style {
            fg: None,
            bg: None,
            bold: a.unread || self.is_selected(row),
            dim: false,
            reversed: false,
        };
        let mut line = Line::new();
        line.push(self.marker(row), fg(self.theme.focus));
        let bar = if a.unread {
            text_of('\u{258c}')
        } else {
            text_of(' ')
        };
        line.push(bar, fg_bold(self.theme.focus));
        self.push_glyph(a, &mut line);
        if minimized {
            let room: usize = if width > 5 {
                width - 5
            } else {
                0
            };
            line.push(fit_to(name, room), name_style);
        } else {
            let open = if self.is_open(a.id) {
                text_of('*')
            } else {
                text_of(' ')
            };
            line.push(open, name_style);
            let age = age_short(self.now, a.last_opened);
            let used: usize = age.as_str().unicode_len();
            let room: usize = if width > 7 && width - 7 > used {
                width - 7 - used
            } else {
                0
            };
            line.push(fit_to(name, room), name_style);
            let mut last = text_of(' ');
            last.append(age.as_str());
            line.push(last, fg(Color::DarkGray));
        }
        assert(line@ =~= self@.agent_line(row, *a, name@, width as int, minimized));
        line
    }

    fn attention_line(&self, id: AgentId) -> (line: Line)
        ensures
            line@ == self@.attention_line(id),
    {
        let mut text = owned("       ");
        let ghost before = text@;
        match find_last_agent(&self.agents, id) {
            Some(i) => {
                match &self.agents[i].state {
                    AgentState::NeedsAttention { message, .. } => {
                        match message {
                            Some(m) => text.append(m.as_str()),
                            None => {},
                        }
                    },
                    _ => {},
                }
            },
            None => {},
        }
        assert(before + Seq::<char>::empty() =~= before);
        let mut line = Line::new();
        line.push(
            text,
            Style { fg: Some(Color::Yellow), bg: None, bold: false, dim: true, reversed: false },
        );
        assert(line@ =~= self@.attention_line(id));
        line
    }

    fn row_line(&self, row: Row, recent: usize, width: usize, minimized: bool) -> (line: Line)
        ensures
            line@ == self@.row_line(row, recent as nat, width as int, minimized),
    {
        let mut line = Line::new();
        match row {
            Row::Repo(id) => {
                line = self.repo_line(id, width, minimized);
            },
            Row::RecentHeader => {
                line.push(owned("  \u{25be} "), fg(self.theme.focus));
                line.push(owned("recent "), fg_bold(self.theme.focus));
                line.push(in_brackets(recent), fg(Color::DarkGray));
            },
            Row::Divider => {
                let room: usize = if width > 2 {
                    width - 2
                } else {
                    0
                };
                let mut text = text_of(' ');
                let rule = repeated('\u{2500}', room);
                text.append(rule.as_str());
                text.push(' ');
                assert(text@ =~= seq![' '] + copies('\u{2500}', room as nat) + seq![' ']);
                line.push(text, fg(Color::DarkGray));
            },
            Row::Recent(id) => {
                if let Some(i) = find_last_agent(&self.agents, id) {
                    let a = &self.agents[i];
                    // Names are qualified here: the block spans repositories.
                    let mut name = label_of_repo(&self.repos, a.repo);
                    name.push('/');
                    name.append(a.name.as_str());
                    assert(name@ =~= repo_label(self@.repos, a.repo) + seq!['/'] + a.name@);
                    line = self.agent_line(row, a, name.as_str(), width, false);
                }
            },
            Row::EmptyRepo(_) => {
                line.push(owned("      no agents — press n"), fg(Color::DarkGray));
            },
            Row::NoRepos => {
                line.push(owned(" no repos yet…"), fg(Color::DarkGray));
            },
            Row::Agent(id) => {
                if let Some(i) = find_last_agent(&self.agents, id) {
                    let a = &self.agents[i];
                    line = self.agent_line(row, a, a.name.as_str(), width, minimized);
                }
            },
            Row::Attention(id) => {
                line = self.attention_line(id);
            },
        }
        assert(line@ =~= self@.row_line(row, recent as nat, width as int, minimized));
        line
    }

    /// Draw the sidebar in `area`: exactly one line for each row in view.
    pub fn render_sidebar(&self, area: Rect) -> (out: BoxFrame)
        ensures
            out.title@ == self@.sidebar_heading(area),
            out.border == spec_fg(
                if self@.focus == Focus::Sidebar {
                    self@.theme.focus
                } else {
                    Color::DarkGray
                },
            ),
            line_views(out.lines@) == self@.sidebar_lines(area),
    {
        let minimized = area.width < SIDEBAR_W_FULL;
        let unread: usize = count_unread(&self.agents);
        let height: usize = take_off(area.height, 2) as usize;
        let width: usize = take_off(area.width, 2) as usize;
        let rows = self.sidebar_rows_for(minimized);
        let len: usize = rows.len();
        let top: usize = clamp_top(self.sidebar_top, len, height);
        let below: usize = if len - top > height {
            len - top - height
        } else {
            0
        };
        let hidden = write_hint(minimized, top, below);
        let title = write_title(minimized, unread, hidden.as_str());
        let border = if self.focus == Focus::Sidebar {
            fg(self.theme.focus)
        } else {
            fg(Color::DarkGray)
        };
        let recent: usize = count_recent_rows(&rows);
        let room: usize = if height < 1 {
            1
        } else {
            height
        };
        let n: usize = if len - top < room {
            len - top
        } else {
            room
        };
        let mut lines: Vec<Line> = Vec::new();
        let ghost want = self@.sidebar_lines(area);
        let mut k: usize = 0;
        while k < n
            invariant
                k <= n,
                n <= len - top,
                len == rows@.len(),
                top <= len,
                rows@ == self@.rows_for(minimized),
                minimized == (area.width < SIDEBAR_W_FULL),
                width == minus(area.width, 2),
                top == self@.drawn_top(minimized, minus(area.height, 2) as int),
                recent == recent_row_count(rows@, rows@.len() as int),
                want == self@.sidebar_lines(area),
                want.len() == n,
                line_views(lines@) == want.take(k as int),
            decreases n - k,
        {
            let ghost before = line_views(lines@);
            let line = self.row_line(rows[top + k], recent, width, minimized);
            lines.push(line);
            assert(line_views(lines@) =~= before.push(line@));
            assert(line_views(lines@) =~= want.take(k + 1));
            k = k + 1;
        }
        assert(line_views(lines@) =~= want);
        BoxFrame { title, border, lines }
    }
}


// --- the panes ---

/// What a window shows inside its border.
#[derive(Clone, Copy, Debug, PartialEq, Eq, Structural)]
pub enum Content {
    /// The screen of a terminal.
    Screen(TerminalId),
    /// Dots, until there is something to show.
    Waiting,
}

/// A pane as it is drawn. `highlight` are the screen cells to draw reversed.
pub struct PaneFrame {
    pub rect: Rect,
    pub title: String,
    pub border: Style,
    pub content: Content,
    pub highlight: Vec<(u16, u16, u16)>,
}

/// What a pane is drawn as.
pub struct PaneFrameView {
    pub rect: Rect,
    pub title: Seq<char>,
    pub border: Style,
    pub content: Content,
    pub highlight: Seq<(u16, u16, u16)>,
}

impl View for PaneFrame {
    type V = PaneFrameView;

    open spec fn view(&self) -> PaneFrameView {
        PaneFrameView {
            rect: self.rect,
            title: self.title@,
            border: self.border,
            content: self.content,
            highlight: self.highlight@,
        }
    }
}

/// The main area as it is drawn.
pub enum PanesFrame {
    /// There are no panes, and a box says so.
    Empty(BoxFrame),
    Tiled(Vec<PaneFrame>),
}

/// What is drawn for a list of panes.
pub open spec fn pane_frame_views(frames: Seq<PaneFrame>) -> Seq<PaneFrameView> {
    Seq::new(frames.len(), |i: int| frames[i]@)
}

impl AppView {
    /// The title and the colour of a pane.
    pub open spec fn pane_label(self, payload: Option<TerminalId>) -> (Seq<char>, Color) {
        match payload {
            Some(t) => match lookup(self.terminals, t) {
                Some(id) => match last_agent(self.agents, id, self.agents.len() as int) {
                    Some(i) => {
                        let a = self.agents[i];
                        if a.primary_terminal == t {
                            (
                                seq![' ', a.glyph, ' '] + branch_label(a) + seq![' '],
                                state_color(a.state),
                            )
                        } else {
                            (" sh \u{b7} "@ + branch_label(a) + seq![' '], self.theme.shell)
                        }
                    },
                    None => (" terminal "@, Color::DarkGray),
                },
                None => (" terminal "@, Color::DarkGray),
            },
            None => (" empty "@, Color::DarkGray),
        }
    }

    /// How far back a pane is scrolled, for its title.
    pub open spec fn scroll_label(self, payload: Option<TerminalId>) -> Seq<char> {
        match (self.scroll, payload) {
            (Some(s), Some(t)) => if s.terminal == t {
                seq!['\u{2191}'] + decimal(s.offset as nat) + seq![' ']
            } else {
                Seq::empty()
            },
            _ => Seq::empty(),
        }
    }

    /// What a window for a terminal shows.
    pub open spec fn content_for(self, t: Option<TerminalId>) -> Content {
        match t {
            Some(t) => if self.screen_for(t) is Some {
                Content::Screen(t)
            } else {
                Content::Waiting
            },
            None => Content::Waiting,
        }
    }

    /// The cells of a pane to draw reversed: those of the selection, if it is in that pane.
    pub open spec fn highlight_in(self, payload: Option<TerminalId>) -> Seq<(u16, u16, u16)> {
        match self.selection {
            Some(sel) => if Some(sel.terminal) == payload {
                highlighted(sel)
            } else {
                Seq::empty()
            },
            None => Seq::empty(),
        }
    }

    /// What a placed pane is drawn as.
    pub open spec fn pane_frame(self, p: Placement<TerminalId>) -> PaneFrameView {
        PaneFrameView {
            rect: p.rect,
            title: self.pane_label(p.payload).0 + self.scroll_label(p.payload),
            border: self.border(
                p.focused && self.focus == Focus::Panes,
                self.pane_label(p.payload).1,
            ),
            content: self.content_for(p.payload),
            highlight: self.highlight_in(p.payload),
        }
    }

    /// What the panes in an area are drawn as.
    pub open spec fn pane_frames(self, area: Rect) -> Seq<PaneFrameView> {
        let places = self.tree.layout(area);
        Seq::new(places.len(), |i: int| self.pane_frame(places[i]))
    }
}

/// The lines of an empty main area.
pub open spec fn no_panes_lines() -> Seq<Seq<SpanView>> {
    seq![
        seq![SpanView { text: Seq::empty(), style: spec_plain() }],
        seq![
            SpanView {
                text: "  Select an agent (Enter) to open it here."@,
                style: spec_fg(Color::DarkGray),
            },
        ],
    ]
}

/// A glyph and a branch, as a title.
pub open spec fn glyph_title(glyph: char, branch: Seq<char>) -> Seq<char> {
    seq![' ', glyph, ' '] + branch + seq![' ']
}

fn write_glyph_title(glyph: char, branch: &str) -> (out: String)
    ensures
        out@ == glyph_title(glyph, branch@),
{
    let mut out = text_of(' ');
    out.push(glyph);
    out.push(' ');
    assert(out@ =~= seq![' ', glyph, ' ']);
    out.append(branch);
    out.push(' ');
    assert(out@ =~= glyph_title(glyph, branch@));
    out
}

impl App {
    fn border(&self, focused: bool, color: Color) -> (s: Style)
        ensures
            s == self@.border(focused, color),
    {
        if focused {
            fg_bold(self.theme.focus)
        } else {
            fg(color)
        }
    }

    fn pane_label(&self, payload: Option<TerminalId>) -> (out: (String, Color))
        ensures
            out.0@ == self@.pane_label(payload).0,
            out.1 == self@.pane_label(payload).1,
    {
        let t = match payload {
            Some(t) => t,
            None => {
                return (owned(" empty "), Color::DarkGray);
            },
        };
        let owner = match self.terminals.get(t) {
            Some(id) => find_last_agent(&self.agents, *id),
            None => None,
        };
        match owner {
            Some(i) => {
                let a = &self.agents[i];
                let branch = label_of_branch(a);
                if a.primary_terminal == t {
                    (write_glyph_title(a.glyph, branch.as_str()), color_for(&a.state))
                } else {
                    let mut title = owned(" sh \u{b7} ");
                    title.append(branch.as_str());
                    title.push(' ');
                    assert(title@ =~= " sh \u{b7} "@ + branch@ + seq![' ']);
                    (title, self.theme.shell)
                }
            },
            None => (owned(" terminal "), Color::DarkGray),
        }
    }

    fn push_scroll_label(&self, payload: Option<TerminalId>, title: &mut String)
        ensures
            final(title)@ == old(title)@ + self@.scroll_label(payload),
    {
        let ghost before = title@;
        if let Some(s) = &self.scroll {
            if let Some(t) = payload {
                if s.terminal == t {
                    title.push('\u{2191}');
                    let d = decimal_string(s.offset as u64);
                    title.append(d.as_str());
                    title.push(' ');
                }
            }
        }
        assert(title@ =~= before + self@.scroll_label(payload));
    }

    fn content_for(&self, t: Option<TerminalId>) -> (c: Content)
        ensures
            c == self@.content_for(t),
    {
        match t {
            Some(t) => if self.screen_for(t).is_some() {
                Content::Screen(t)
            } else {
                Content::Waiting
            },
            None => Content::Waiting,
        }
    }

    fn highlight_in(&self, payload: Option<TerminalId>) -> (rows: Vec<(u16, u16, u16)>)
        ensures
            rows@ == self@.highlight_in(payload),
    {
        if let Some(sel) = &self.selection {
            if let Some(t) = payload {
                if sel.terminal == t {
                    return highlight_selection(sel);
                }
            }
        }
        let none: Vec<(u16, u16, u16)> = Vec::new();
        assert(none@ =~= Seq::<(u16, u16, u16)>::empty());
        none
    }

    fn pane_frame(&self, p: &Placement<TerminalId>) -> (out: PaneFrame)
        ensures
            out@ == self@.pane_frame(*p),
    {
        let (label, color) = self.pane_label(p.payload);
        let mut title = label;
        self.push_scroll_label(p.payload, &mut title);
        let border = self.border(p.focused && self.focus == Focus::Panes, color);
        PaneFrame {
            rect: p.rect,
            title,
            border,
            content: self.content_for(p.payload),
            highlight: self.highlight_in(p.payload),
        }
    }

    /// Draw the panes in `area`, or a box that says there are none.
    pub fn render_panes(&self, area: Rect) -> (out: PanesFrame)
        ensures
            match out {
                PanesFrame::Empty(b) => {
                    &&& self@.tree.root is None
                    &&& b.title@ == " no panes "@
                    &&& b.border == spec_fg(Color::DarkGray)
                    &&& line_views(b.lines@) == no_panes_lines()
                },
                PanesFrame::Tiled(frames) => {
                    &&& self@.tree.root is Some
                    &&& pane_frame_views(frames@) == self@.pane_frames(area)
                },
            },
    {
        if self.tree.is_empty() {
            let mut blank = Line::new();
            blank.push(String::new(), plain());
            let mut hint = Line::new();
            hint.push(owned("  Select an agent (Enter) to open it here."), fg(Color::DarkGray));
            let mut lines: Vec<Line> = Vec::new();
            lines.push(blank);
            lines.push(hint);
            assert(blank@ =~= no_panes_lines()[0]);
            assert(hint@ =~= no_panes_lines()[1]);
            assert(line_views(lines@) =~= no_panes_lines());
            return PanesFrame::Empty(
                BoxFrame { title: owned(" no panes "), border: fg(Color::DarkGray), lines },
            );
        }
        let places = self.tree.layout(area);
        let mut frames: Vec<PaneFrame> = Vec::new();
        let ghost want = self@.pane_frames(area);
        let mut i: usize = 0;
        while i < places.len()
            invariant
                i <= places@.len(),
                places@ == self@.tree.layout(area),
                want == self@.pane_frames(area),
                pane_frame_views(frames@) == want.take(i as int),
            decreases places@.len() - i,
        {
            let ghost before = pane_frame_views(frames@);
            let f = self.pane_frame(&places[i]);
            frames.push(f);
            assert(pane_frame_views(frames@) =~= before.push(f@));
            assert(pane_frame_views(frames@) =~= want.take(i + 1));
            i = i + 1;
        }
        assert(pane_frame_views(frames@) =~= want);
        PanesFrame::Tiled(frames)
    }
}

// --- the minis ---

/// What a mini shows inside its border.
pub enum MiniContent {
    /// Only its status, when it is minimized.
    Status(Line),
    Window(Content),
}

/// A mini as it is drawn.
pub struct MiniFrame {
    pub rect: Rect,
    pub title: String,
    pub border: Style,
    pub content: MiniContent,
}

/// What a mini is drawn as.
pub struct MiniFrameView {
    pub rect: Rect,
    pub title: Seq<char>,
    pub border: Style,
    /// The status line of a minimized mini.
    pub status: Option<Seq<SpanView>>,
    /// What any other one shows.
    pub window: Option<Content>,
}

impl View for MiniFrame {
    type V = MiniFrameView;

    open spec fn view(&self) -> MiniFrameView {
        MiniFrameView {
            rect: self.rect,
            title: self.title@,
            border: self.border,
            status: match self.content {
                MiniContent::Status(line) => Some(line@),
                MiniContent::Window(_) => None,
            },
            window: match self.content {
                MiniContent::Status(_) => None,
                MiniContent::Window(c) => Some(c),
            },
        }
    }
}

/// The minis as they are drawn. The shadow is an angle: the column `right` and the row `bottom`, from
/// `top` and from `left` on.
pub struct MinisFrame {
    pub shadow: Option<Shadow>,
    pub minis: Vec<MiniFrame>,
}

/// The shadow below and to the right of the group of minis.
#[derive(Clone, Copy, Debug, PartialEq, Eq, Structural)]
pub struct Shadow {
    pub left: u16,
    pub right: u16,
    pub top: u16,
    pub bottom: u16,
}

/// What is drawn for a list of minis.
pub open spec fn mini_frame_views(frames: Seq<MiniFrame>) -> Seq<MiniFrameView> {
    Seq::new(frames.len(), |i: int| frames[i]@)
}

/// The smallest first column of the first `n` rectangles.
pub open spec fn least_x(rects: Seq<Rect>, n: int) -> u16
    decreases n,
{
    if n <= 1 {
        rects[0].x
    } else {
        smaller(least_x(rects, n - 1), rects[n - 1].x)
    }
}

/// The largest column to the right of the first `n` rectangles.
pub open spec fn most_right(rects: Seq<Rect>, n: int) -> u16
    decreases n,
{
    if n <= 1 {
        rects[0].spec_right()
    } else {
        larger(most_right(rects, n - 1), rects[n - 1].spec_right())
    }
}

/// The shadow of a group of minis in a band.
pub open spec fn shadow_of(rects: Seq<Rect>, band: Rect) -> Option<Shadow> {
    if rects.len() == 0 {
        None
    } else {
        Some(
            Shadow {
                left: least_x(rects, rects.len() as int),
                right: most_right(rects, rects.len() as int),
                top: band.y,
                bottom: plus(band.y, band.height),
            },
        )
    }
}

impl AppView {
    /// The glyph, the colour and the branch of a mini.
    pub open spec fn mini_label(self, id: AgentId) -> (char, Color, Seq<char>) {
        match last_agent(self.agents, id, self.agents.len() as int) {
            Some(i) => (
                self.agents[i].glyph,
                state_color(self.agents[i].state),
                branch_label(self.agents[i]),
            ),
            None => ('?', Color::DarkGray, "?"@),
        }
    }

    /// Whether agent `id` is unread, for its status.
    pub open spec fn mini_unread(self, id: AgentId) -> bool {
        match last_agent(self.agents, id, self.agents.len() as int) {
            Some(i) => self.agents[i].unread,
            None => false,
        }
    }

    /// The status line of a minimized mini.
    pub open spec fn mini_status(self, id: AgentId) -> Seq<SpanView> {
        let (glyph, color, _) = self.mini_label(id);
        seq![
            SpanView {
                text: if self.mini_unread(id) {
                    seq!['\u{258c}']
                } else {
                    seq![' ']
                },
                style: spec_fg_bold(self.theme.focus),
            },
            SpanView { text: seq![' ', glyph], style: spec_fg(color) },
        ]
    }

    /// What mini `i` is drawn as.
    pub open spec fn mini_frame(self, band: Rect, i: int) -> MiniFrameView {
        let id = self.minis[i];
        let (glyph, color, branch) = self.mini_label(id);
        let small = self.minimized.contains(id);
        MiniFrameView {
            rect: self.mini_rects(band)[i],
            title: glyph_title(glyph, branch),
            border: self.border(self.focus == Focus::Mini(i as usize), color),
            status: if small {
                Some(self.mini_status(id))
            } else {
                None
            },
            window: if small {
                None
            } else {
                Some(self.content_for(self.mini_terminal(i)))
            },
        }
    }

    /// What the minis in a band are drawn as.
    pub open spec fn mini_frames(self, band: Rect) -> Seq<MiniFrameView> {
        Seq::new(self.minis.len(), |i: int| self.mini_frame(band, i))
    }
}

fn cast_shadow(rects: &Vec<Rect>, band: Rect) -> (out: Option<Shadow>)
    ensures
        out == shadow_of(rects@, band),
{
    if rects.len() == 0 {
        return None;
    }
    let mut left: u16 = rects[0].x;
    let mut right: u16 = rects[0].right();
    let mut i: usize = 1;
    while i < rects.len()
        invariant
            1 <= i <= rects@.len(),
            left == least_x(rects@, i as int),
            right == most_right(rects@, i as int),
        decreases rects@.len() - i,
    {
        left = smaller_of(left, rects[i].x);
        right = larger_of(right, rects[i].right());
        i = i + 1;
    }
    Some(Shadow { left, right, top: band.y, bottom: add_to(band.y, band.height) })
}

impl App {
    fn mini_frame(&self, rect: Rect, band: Rect, i: usize) -> (out: MiniFrame)
        requires
            i < self@.minis.len(),
            rect == self@.mini_rects(band)[i as int],
        ensures
            out@ == self@.mini_frame(band, i as int),
    {
        let id = self.minis[i];
        let at = find_last_agent(&self.agents, id);
        let (glyph, color, branch) = match at {
            Some(k) => (
                self.agents[k].glyph,
                color_for(&self.agents[k].state),
                label_of_branch(&self.agents[k]),
            ),
            None => ('?', Color::DarkGray, owned("?")),
        };
        let title = write_glyph_title(glyph, branch.as_str());
        let focused = match self.focus {
            Focus::Mini(k) => k == i,
            _ => false,
        };
        let border = self.border(focused, color);
        let content = if has_id(&self.minimized, id) {
            let unread = match at {
                Some(k) => self.agents[k].unread,
                None => false,
            };
            let bar = if unread {
                text_of('\u{258c}')
            } else {
                text_of(' ')
            };
            let mut line = Line::new();
            line.push(bar, fg_bold(self.theme.focus));
            let mut g = text_of(' ');
            g.push(glyph);
            assert(g@ =~= seq![' ', glyph]);
            line.push(g, fg(color));
            assert(line@ =~= self@.mini_status(id));
            MiniContent::Status(line)
        } else {
            MiniContent::Window(self.content_for(self.mini_terminal(i)))
        };
        MiniFrame { rect, title, border, content }
    }

    /// Draw the minis in `band`, with the shadow of the whole group.
    pub fn render_minis(&self, band: Rect) -> (out: MinisFrame)
        ensures
            out.shadow == shadow_of(self@.mini_rects(band), band),
            mini_frame_views(out.minis@) == self@.mini_frames(band),
    {
        let rects = self.mini_rects(band);
        let shadow = cast_shadow(&rects, band);
        let mut minis: Vec<MiniFrame> = Vec::new();
        let ghost want = self@.mini_frames(band);
        let mut i: usize = 0;
        while i < rects.len()
            invariant
                i <= rects@.len(),
                rects@ == self@.mini_rects(band),
                want == self@.mini_frames(band),
                mini_frame_views(minis@) == want.take(i as int),
            decreases rects@.len() - i,
        {
            let ghost before = mini_frame_views(minis@);
            let f = self.mini_frame(rects[i], band, i);
            minis.push(f);
            assert(mini_frame_views(minis@) =~= before.push(f@));
            assert(mini_frame_views(minis@) =~= want.take(i + 1));
            i = i + 1;
        }
        assert(mini_frame_views(minis@) =~= want);
        MinisFrame { shadow, minis }
    }
}

// --- the status line ---

impl AppView {
    /// The block that shows which field is being edited.
    pub open spec fn cursor_in(self, f: Field) -> Seq<char> {
        if self.create_field == f {
            "\u{2588}"@
        } else {
            ""@
        }
    }

    /// The name of the repository that an agent is being created in.
    pub open spec fn create_label(self) -> Seq<char> {
        match self.create_repo {
            Some(id) => match first_repo(self.repos, id, 0) {
                Some(i) => self.repos[i].name@,
                None => "?"@,
            },
            None => "?"@,
        }
    }

    /// The text of the status line.
    pub open spec fn status_text(self) -> Seq<char> {
        if self.input == InputMode::Creating {
            " new agent in "@ + self.create_label() + " — branch: "@ + self.create_buf
                + self.cursor_in(Field::Branch) + "  task: "@ + self.task_buf + self.cursor_in(
                Field::Task,
            ) + "  (tab switch \u{b7} enter create \u{b7} task optional)"@
        } else if self.input == InputMode::CreatingRepo {
            " new agent — dir: "@ + self.dir_buf + self.cursor_in(Field::Dir) + "  branch: "@
                + self.create_buf + self.cursor_in(Field::Branch)
                + "  (tab switch \u{b7} enter next/create)"@
        } else if self.input == InputMode::CreatingHead {
            " new HEAD session \u{2014} dir: "@ + self.dir_buf
                + "\u{2588}  (enter create \u{b7} esc cancel)"@
        } else if self.input == InputMode::Confirming {
            " "@ + self.confirm_msg + " — delete anyway? y/n"@
        } else if let Some(s) = self.scroll {
            " SCROLL \u{2191}"@ + decimal(s.offset as nat) + "/"@ + decimal(s.available as nat)
                + " — j/k line \u{b7} ^u/^d half \u{b7} PgUp/PgDn page \u{b7} g/G top/bottom \u{b7} q done"@
        } else if self.resize_mode {
            " RESIZE — hjkl nudge \u{b7} HJKL snap \u{b7} esc done"@
        } else if self.prefix {
            " Ctrl+B — % / \" split \u{b7} x close \u{b7} HJKL/r resize \u{b7} [ scroll \u{b7} tab unread \u{b7} # jump \u{b7} - prev"@
        } else if self.status.len() > 0 {
            " \u{26a0} "@ + self.status + " \u{b7} (press any key to dismiss)"@
        } else if self.info.len() > 0 {
            " \u{2713} "@ + self.info + " \u{b7} (press any key to dismiss)"@
        } else {
            match self.focus {
                Focus::Sidebar => " n new \u{b7} enter open \u{b7} m mini \u{b7} d del \u{b7} r resume \u{b7} P prune \u{b7} ctrl+jk unread \u{b7} ctrl+q quit"@,
                Focus::Panes => " ctrl+hjkl move \u{b7} ctrl+b %/\"/x/r \u{b7} type to talk \u{b7} ctrl+q quit"@,
                Focus::Mini(_) => " mini \u{b7} ctrl+hjkl \u{b7} ctrl+b: enter promote \u{b7} - min \u{b7} z peek \u{b7} x close"@,
            }
        }
    }

    /// The style of the status line.
    pub open spec fn status_style(self) -> Style {
        if self.input == InputMode::Confirming {
            spec_on(Color::White, Color::Red)
        } else if self.input != InputMode::Normal {
            spec_on(Color::Black, self.theme.focus)
        } else if self.scroll is Some || self.resize_mode {
            spec_on(Color::Black, Color::Yellow)
        } else if self.prefix {
            spec_on(Color::Black, self.theme.focus)
        } else if self.status.len() > 0 {
            spec_on(Color::White, Color::Red)
        } else if self.info.len() > 0 {
            spec_on(Color::Black, Color::Green)
        } else {
            spec_fg(Color::DarkGray)
        }
    }
}

/// The place of the first repository `id` from `i` on.
pub open spec fn first_repo(repos: Seq<RepoInfo>, id: RepoId, i: int) -> Option<int>
    decreases repos.len() - i,
{
    if i >= repos.len() {
        None
    } else if repos[i].id == id {
        Some(i)
    } else {
        first_repo(repos, id, i + 1)
    }
}

impl App {
    fn push_cursor(&self, f: Field, out: &mut String)
        ensures
            final(out)@ == old(out)@ + self@.cursor_in(f),
    {
        if self.create_field == f {
            out.append("\u{2588}");
        } else {
            out.append("");
        }
    }

    fn create_label(&self) -> (name: String)
        ensures
            name@ == self@.create_label(),
    {
        if let Some(id) = self.create_repo {
            let mut i: usize = 0;
            while i < self.repos.len()
                invariant
                    i <= self.repos@.len(),
                    self@.create_repo == Some(id),
                    first_repo(self@.repos, id, 0) == first_repo(self@.repos, id, i as int),
                decreases self.repos@.len() - i,
            {
                if self.repos[i].id == id {
                    return owned(self.repos[i].name.as_str());
                }
                i = i + 1;
            }
        }
        owned("?")
    }

    fn prompt_text(&self) -> (out: String)
        requires
            self@.input != InputMode::Normal,
        ensures
            out@ == self@.status_text(),
    {
        let mut out = String::new();
        match self.input {
            InputMode::Creating => {
                out = owned(" new agent in ");
                let repo = self.create_label();
                out.append(repo.as_str());
                out.append(" — branch: ");
                out.append(self.create_buf.as_str());
                self.push_cursor(Field::Branch, &mut out);
                out.append("  task: ");
                out.append(self.task_buf.as_str());
                self.push_cursor(Field::Task, &mut out);
                out.append("  (tab switch \u{b7} enter create \u{b7} task optional)");
            },
            InputMode::CreatingRepo => {
                out = owned(" new agent — dir: ");
                out.append(self.dir_buf.as_str());
                self.push_cursor(Field::Dir, &mut out);
                out.append("  branch: ");
                out.append(self.create_buf.as_str());
                self.push_cursor(Field::Branch, &mut out);
                out.append("  (tab switch \u{b7} enter next/create)");
            },
            InputMode::CreatingHead => {
                out = owned(" new HEAD session \u{2014} dir: ");
                out.append(self.dir_buf.as_str());
                out.append("\u{2588}  (enter create \u{b7} esc cancel)");
            },
            InputMode::Confirming => {
                out = owned(" ");
                out.append(self.confirm_msg.as_str());
                out.append(" — delete anyway? y/n");
            },
            InputMode::Normal => {},
        }
        out
    }

    fn banner_text(&self) -> (out: String)
        requires
            self@.input == InputMode::Normal,
        ensures
            out@ == self@.status_text(),
    {
        if let Some(s) = &self.scroll {
            let mut out = owned(" SCROLL \u{2191}");
            let a = decimal_string(s.offset as u64);
            out.append(a.as_str());
            out.append("/");
            let b = decimal_string(s.available as u64);
            out.append(b.as_str());
            out.append(
                " — j/k line \u{b7} ^u/^d half \u{b7} PgUp/PgDn page \u{b7} g/G top/bottom \u{b7} q done",
            );
            return out;
        }
        if self.resize_mode {
            return owned(" RESIZE — hjkl nudge \u{b7} HJKL snap \u{b7} esc done");
        }
        if self.prefix {
            return owned(
                " Ctrl+B — % / \" split \u{b7} x close \u{b7} HJKL/r resize \u{b7} [ scroll \u{b7} tab unread \u{b7} # jump \u{b7} - prev",
            );
        }
        if !self.status.as_str().is_empty() {
            let mut out = owned(" \u{26a0} ");
            out.append(self.status.as_str());
            out.append(" \u{b7} (press any key to dismiss)");
            return out;
        }
        if !self.info.as_str().is_empty() {
            let mut out = owned(" \u{2713} ");
            out.append(self.info.as_str());
            out.append(" \u{b7} (press any key to dismiss)");
            return out;
        }
        match self.focus {
            Focus::Sidebar => owned(
                " n new \u{b7} enter open \u{b7} m mini \u{b7} d del \u{b7} r resume \u{b7} P prune \u{b7} ctrl+jk unread \u{b7} ctrl+q quit",
            ),
            Focus::Panes => owned(
                " ctrl+hjkl move \u{b7} ctrl+b %/\"/x/r \u{b7} type to talk \u{b7} ctrl+q quit",
            ),
            Focus::Mini(_) => owned(
                " mini \u{b7} ctrl+hjkl \u{b7} ctrl+b: enter promote \u{b7} - min \u{b7} z peek \u{b7} x close",
            ),
        }
    }

    /// Draw the status line: a prompt, a mode, a banner, or a hint on what keys do here.
    pub fn render_status(&self) -> (out: Span)
        ensures
            out.text@ == self@.status_text(),
            out.style == self@.status_style(),
    {
        let text = if self.input == InputMode::Normal {
            self.banner_text()
        } else {
            self.prompt_text()
        };
        let style = match self.input {
            InputMode::Confirming => on(Color::White, Color::Red),
            InputMode::Normal => {
                if self.scroll.is_some() || self.resize_mode {
                    on(Color::Black, Color::Yellow)
                } else if self.prefix {
                    on(Color::Black, self.theme.focus)
                } else if !self.status.as_str().is_empty() {
                    on(Color::White, Color::Red)
                } else if !self.info.as_str().is_empty() {
                    on(Color::Black, Color::Green)
                } else {
                    fg(Color::DarkGray)
                }
            },
            _ => on(Color::Black, self.theme.focus),
        };
        Span { text, style }
    }
}

} // verus!
