//! What keys, notches and marks do not do, and the smaller ones of their effects.

use vstd::prelude::*;
use crate::commands::quiet;
use crate::conduct::plain_mode;
use crate::geometry::{Dir, Rect, Size};
use crate::ids::{AgentId, TerminalId};
use crate::input::{KeyCode, KeyEvent, MouseButton, MouseEvent, MouseEventKind};
use crate::looks::line_text;
use crate::order::{places, sorted_is_in_order, sorted_rearranges};
use crate::render::{hidden_hint, recent_row_count, sidebar_title};
use crate::sidebar::{agent_order, recent_before, recent_order, Row};
use crate::sidebar_laws::recency_is_an_order;
use crate::state::{has_agent, id_from, AppView, Flow, Focus, InputMode};
use crate::table::lookup;
use crate::text::decimal;
use crate::visits::{prefixed, spent, the_prefix_takes_one_key};
use crate::wire::{AgentInfo, MsgView};

verus! {

// --- keys that do nothing ---

/// Whether a character is a command after the prefix.
pub open spec fn is_command(c: char) -> bool {
    c == '%' || c == '"' || c == 'x' || c == 'z' || c == '-' || c == 'r' || c == '[' || c == 'H' || c
        == 'J' || c == 'K' || c == 'L' || '0' <= c <= '9'
}

/// After the prefix, a key that is no command is swallowed; Enter is one only on a mini, `z` only
/// where there are minis, a digit only where an agent has it, and `-` outside the minis only where
/// there is an agent to go back to.
pub proof fn other_keys_are_swallowed(v: AppView, key: KeyEvent)
    requires
        prefixed(v),
        !key.modifiers.control,
    ensures
        key.code matches KeyCode::Char(c) ==> (!is_command(c) ==> v.on_key(key) == (
            spent(v),
            Flow::Continue,
        )),
        !(key.code is Char) && key.code != KeyCode::Enter && key.code != KeyCode::Tab ==> v.on_key(
            key,
        ) == (spent(v), Flow::Continue),
        key.code == KeyCode::Enter && !(v.focus is Mini) ==> v.on_key(key) == (
            spent(v),
            Flow::Continue,
        ),
        key.code == KeyCode::Char('z') && v.minis.len() == 0 ==> v.on_key(key) == (
            spent(v),
            Flow::Continue,
        ),
        key.code == KeyCode::Char('r') && v.tree.root is None ==> v.on_key(key) == (
            spent(v),
            Flow::Continue,
        ),
        key.code == KeyCode::Char('[') && v.focus != Focus::Panes ==> v.on_key(key) == (
            spent(v),
            Flow::Continue,
        ),
        key.code == KeyCode::Char('-') && !(v.focus is Mini) && v.prev_active_agent is None
            ==> v.on_key(key) == (spent(v), Flow::Continue),
        key.code matches KeyCode::Char(c) ==> ('0' <= c <= '9' && v.numbered_agent(c) is None
            ==> v.on_key(key) == (spent(v), Flow::Continue)),
{
    the_prefix_takes_one_key(v, key);
    let a = spent(v);
    if let KeyCode::Char(c) = key.code {
        assert(a.numbered_agent(c) == v.numbered_agent(c));
    }
}

/// Whether a character is a key of the sidebar.
pub open spec fn is_sidebar_key(c: char) -> bool {
    c == 'q' || c == 'j' || c == 'k' || c == 'g' || c == 'G' || c == 'n' || c == 'N' || c == 'h' || c
        == 'H' || c == 'd' || c == 'r' || c == 'P' || c == 'l' || c == 'm'
}

/// In the sidebar other characters do nothing, and on a repository's row those that are for an agent
/// do nothing either.
pub proof fn sidebar_keys_need_their_row(v: AppView, key: KeyEvent, c: char)
    requires
        plain_mode(v),
        v.focus == Focus::Sidebar,
        !key.modifiers.control,
        key.code == KeyCode::Char(c) || key.code == KeyCode::Enter,
        !('0' <= c <= '9'),
    ensures
        key.code == KeyCode::Char(c) && !is_sidebar_key(c) ==> v.on_key(key) == (
            quiet(v),
            Flow::Continue,
        ),
        (v.sidebar_sel is None || v.sidebar_sel->0 is Repo) && (key.code == KeyCode::Enter || c == 'l'
            || c == 'd' || c == 'r' || c == 'm') ==> v.on_key(key) == (quiet(v), Flow::Continue),
        v.sidebar_sel is None && key.code == KeyCode::Char(c) && (c == 'n' || c == 'h' || c == 'P')
            ==> v.on_key(key) == (quiet(v), Flow::Continue),
{
    reveal(AppView::on_key);
    let w = v.dismissed();
    assert(w.scroll_checked() == w);
}

/// In scroll mode a key that means nothing there is swallowed, the prefix and movement among them.
pub proof fn scroll_mode_swallows_other_keys(v: AppView, key: KeyEvent, c: char)
    requires
        v.input == InputMode::Normal,
        v.scroll is Some,
        lookup(v.parsers, (v.scroll->0).terminal) is Some,
        key.code == KeyCode::Char(c),
        c == 'b' || c == 'h' || c == 'l' || c == 'x' || c == ' ',
    ensures
        v.on_key(key) == (quiet(v), Flow::Continue),
{
    reveal(AppView::on_key);
    let w = v.dismissed();
    assert(w.scroll_checked() == w);
}

/// Scroll mode ends with its terminal: a key then does what it does without the mode.
pub proof fn scroll_mode_ends_with_its_terminal(v: AppView, key: KeyEvent)
    requires
        v.input == InputMode::Normal,
        v.scroll is Some,
        lookup(v.parsers, (v.scroll->0).terminal) is None,
    ensures
        !(key.code == KeyCode::Char('q') && key.modifiers.control) ==> v.on_key(key) == (AppView {
            scroll: None,
            ..v
        }).on_key(key),
{
    reveal(AppView::on_key);
    let w = AppView { scroll: None, ..v };
    assert(v.dismissed().scroll_checked() == w.dismissed());
    assert(w.dismissed().scroll_checked() == w.dismissed());
}

/// At the bottom and the right end of the minis there is nowhere to go on.
pub proof fn minis_have_an_end(v: AppView, i: usize)
    requires
        v.focus == Focus::Mini(i),
        i < v.minis.len(),
    ensures
        v.navigate(Dir::Down) == v,
        i + 1 == v.minis.len() ==> v.navigate(Dir::Right) == v,
        v.navigate(Dir::Left).minis == v.minis,
        v.navigate(Dir::Up).minis == v.minis,
        v.navigate(Dir::Left).tree == v.tree,
        v.navigate(Dir::Up).tree == v.tree,
{
    reveal(AppView::navigate);
}

/// Above the panes there is nothing: a move up that finds no pane changes nothing, nor does one to
/// the right or down without minis.
pub proof fn panes_have_an_end(v: AppView, dir: Dir)
    requires
        v.focus == Focus::Panes,
        v.tree.nav_target(dir, v.area) is None,
        dir == Dir::Up || (dir != Dir::Left && v.minis.len() == 0),
    ensures
        v.navigate(dir) == v,
{
    reveal(AppView::navigate);
}

// --- the mouse ---

/// Other buttons, bare moves, and drags and releases of other buttons do nothing.
pub proof fn other_buttons_do_nothing(v: AppView, me: MouseEvent)
    requires
        me.kind != MouseEventKind::Down(MouseButton::Left),
        me.kind != MouseEventKind::Drag(MouseButton::Left),
        me.kind != MouseEventKind::Up(MouseButton::Left),
        me.kind != MouseEventKind::ScrollUp,
        me.kind != MouseEventKind::ScrollDown,
    ensures
        v.on_mouse(me) == v,
{
    reveal(AppView::on_mouse);
}

/// The wheel over a shrunk mini does nothing.
pub proof fn shrunk_minis_do_not_scroll(v: AppView, me: MouseEvent, i: int, inner: Rect)
    requires
        !(me.column < v.area.x && me.row < v.area.y + v.area.height),
        v.mini_at(me.column, me.row) == Some((i, inner)),
        0 <= i < v.minis.len(),
        v.minimized.contains(v.minis[i]),
        me.kind == MouseEventKind::ScrollUp || me.kind == MouseEventKind::ScrollDown,
    ensures
        v.on_mouse(me) == v,
{
    reveal(AppView::on_mouse);
}

/// A press where nothing is only drops the selection, and a notch there does nothing; a drag without
/// a press selects nothing, and a release without a selection copies nothing.
pub proof fn nothing_happens_on_nothing(v: AppView, me: MouseEvent)
    requires
        !(me.column < v.area.x && me.row < v.area.y + v.area.height),
        v.minis_band() is None,
        v.pane_at(me.column, me.row) is None,
    ensures
        me.kind == MouseEventKind::Down(MouseButton::Left) ==> v.on_mouse(me) == (AppView {
            selection: None,
            ..v
        }),
        me.kind == MouseEventKind::ScrollUp || me.kind == MouseEventKind::ScrollDown ==> v.on_mouse(
            me,
        ) == v,
        me.kind == MouseEventKind::Drag(MouseButton::Left) && v.selection is None ==> v.on_mouse(me)
            == (AppView { last_click: None, ..v }),
        me.kind == MouseEventKind::Up(MouseButton::Left) && v.selection is None ==> v.on_mouse(me)
            == v,
{
    reveal(AppView::on_mouse);
    let a = AppView { selection: None, ..v };
    assert(a.pane_at(me.column, me.row) == v.pane_at(me.column, me.row));
}

// --- watching ---

/// A window of history that is shown of a terminal is asked for again when the terminal gets another
/// size, right after that: it was served for the old one.
pub proof fn windows_are_asked_for_again(v: AppView, t: TerminalId, size: Size)
    requires
        lookup(v.attached, t) != Some(size),
    ensures
        v.scroll is Some && (v.scroll->0).terminal == t ==> v.attach_one(t, size).out == v.out.push(
            MsgView::Attach { terminal: t, size },
        ).push(MsgView::Scroll { terminal: t, lines: 0 }),
        v.scroll is None || (v.scroll->0).terminal != t ==> v.attach_one(t, size).out == v.out.push(
            MsgView::Attach { terminal: t, size },
        ),
{
}

/// A terminal that is no longer watched loses its screen and its window of history, and goes on
/// running.
pub proof fn unwatched_terminals_are_let_go(v: AppView, t: TerminalId)
    ensures
        ({
            let w = v.detach_one(t);
            &&& w.out == v.out.push(MsgView::Detach { terminal: t })
            &&& v.scroll is Some && (v.scroll->0).terminal == t ==> w.scroll is None
            &&& v.scroll is None || (v.scroll->0).terminal != t ==> w.scroll == v.scroll
            &&& w.tree == v.tree && w.terminals == v.terminals
        }),
{
}

// --- the recent block ---

/// Of agents opened at one time the one active last comes first in the recent block.
pub proof fn ties_go_to_the_active(agents: Seq<AgentInfo>, i: int, j: int)
    requires
        agents.len() <= usize::MAX,
        0 <= i < j < agents.len(),
    ensures
        ({
            let (a, b) = (agents[recent_order(agents)[i] as int], agents[recent_order(agents)[j] as int]);
            &&& a.last_opened.at() >= b.last_opened.at()
            &&& a.last_opened.at() == b.last_opened.at() ==> a.last_activity.at()
                >= b.last_activity.at()
        }),
{
    let f = recent_before(agents);
    recency_is_an_order(agents);
    sorted_is_in_order(f, places(agents.len()));
    sorted_rearranges(f, places(agents.len()));
    let s = recent_order(agents);
    assert(!f(s[j], s[i]));
}

// --- marks and titles ---

proof fn id_is_at(ids: Seq<AgentId>, k: int, i: int)
    requires
        0 <= i <= k < ids.len(),
        ids.no_duplicates(),
    ensures
        id_from(ids, ids[k], i) == Some(k),
    decreases k - i,
{
    if i < k {
        assert(ids[i] != ids[k]);
        id_is_at(ids, k, i + 1);
    }
}

/// While Cmd is held or the prefix is armed, the agent to go back to has a dash in place of its glyph,
/// the first nine others a digit from one on, the tenth a zero; otherwise every agent has its glyph.
pub proof fn numbers_cover_the_glyphs(v: AppView, a: AgentInfo, k: int)
    requires
        agent_order(v.rows()).no_duplicates(),
        0 <= k < agent_order(v.rows()).len(),
        agent_order(v.rows())[k] == a.id,
    ensures
        ({
            let text = v.glyph_span(a).text;
            &&& text.len() == 3 && text[0] == ' ' && text[2] == ' '
            &&& !v.super_held && !v.prefix ==> text[1] == a.glyph
            &&& (v.super_held || v.prefix) && v.prev_active_agent != Some(a.id) ==> {
                &&& k < 9 ==> text[1] == (49 + k) as char
                &&& k == 9 ==> text[1] == '0'
                &&& k > 9 ==> text[1] == a.glyph
            }
            &&& (v.super_held || v.prefix) && v.prev_active_agent == Some(a.id)
                && has_agent(v.agents, a.id) ==> text[1] == '-'
        }),
{
    id_is_at(agent_order(v.rows()), k, 0);
}

/// On the rail an agent's line fills its width: the cursor's mark, the bar of an unread agent, its
/// glyph, and as much of its name as there is room for.
pub proof fn rail_lines_fill_their_width(
    v: AppView,
    row: Row,
    a: AgentInfo,
    name: Seq<char>,
    width: int,
    k: int,
)
    requires
        width >= 5,
    ensures
        ({
            let text = line_text(v.agent_line(row, a, name, width, true));
            &&& text.len() == width
            &&& (text[0] == '\u{25b8}') == (v.sidebar_sel == Some(row))
            &&& (text[1] == '\u{258c}') == a.unread
            &&& !v.super_held && !v.prefix ==> text[3] == a.glyph
            &&& 5 <= k < width && k - 5 < name.len() ==> text[k] == name[k - 5]
            &&& 5 <= k < width && k - 5 >= name.len() ==> text[k] == ' '
        }),
{
    let line = v.agent_line(row, a, name, width, true);
    assert(line.len() == 4);
    let t1 = line.drop_last();
    let t2 = t1.drop_last();
    let t3 = t2.drop_last();
    assert(line_text(t3.drop_last()) =~= Seq::<char>::empty());
    assert(line_text(t3) =~= line[0].text);
    assert(line_text(t2) == line_text(t3) + line[1].text);
    assert(line_text(t1) == line_text(t2) + line[2].text);
    assert(line_text(line) == line_text(t1) + line[3].text);
}

/// The recent block's header counts its agents, and its divider runs across the sidebar.
pub proof fn the_recent_block_is_framed(v: AppView, recent: nat, width: int, k: int)
    requires
        width >= 2,
    ensures
        ({
            let head = v.row_line(Row::RecentHeader, recent, width, false);
            let rule = line_text(v.row_line(Row::Divider, recent, width, false));
            &&& head.len() == 3 && head[2].text == seq!['('] + decimal(recent) + seq![')']
            &&& rule.len() == width && rule[0] == ' ' && rule[width - 1] == ' '
            &&& 0 < k < width - 1 ==> rule[k] == '\u{2500}'
        }),
{
    let line = v.row_line(Row::Divider, recent, width, false);
    assert(line_text(line.drop_last()) =~= Seq::<char>::empty());
    assert(line_text(line) =~= line[0].text);
}

/// The count in the header is that of the block's rows.
pub proof fn recent_rows_are_counted(rows: Seq<Row>, row: Row)
    ensures
        recent_row_count(rows.push(row), rows.len() as int + 1) == recent_row_count(
            rows,
            rows.len() as int,
        ) + if row is Recent {
            1nat
        } else {
            0nat
        },
        recent_row_count(rows, 0) == 0,
{
    rows_are_counted_alike(rows, rows.push(row), rows.len() as int);
}

proof fn rows_are_counted_alike(a: Seq<Row>, b: Seq<Row>, n: int)
    requires
        n <= a.len(),
        n <= b.len(),
        forall|i: int| 0 <= i < n ==> a[i] == b[i],
    ensures
        recent_row_count(a, n) == recent_row_count(b, n),
    decreases n,
{
    if n > 0 {
        rows_are_counted_alike(a, b, n - 1);
        assert(a[n - 1] == b[n - 1]);
    }
}

/// The rail's title has room for the number of unread agents and an arrow: up, down, or both ways.
pub proof fn the_rail_shows_arrows(unread: nat, above: nat, below: nat)
    ensures
        ({
            let arrow = hidden_hint(true, above, below);
            &&& above == 0 && below == 0 ==> arrow.len() == 0
            &&& above > 0 && below == 0 ==> arrow == seq!['\u{2191}']
            &&& above == 0 && below > 0 ==> arrow == seq!['\u{2193}']
            &&& above > 0 && below > 0 ==> arrow == seq!['\u{2195}']
            &&& unread == 0 ==> sidebar_title(true, unread, arrow) == arrow
            &&& unread > 0 ==> sidebar_title(true, unread, arrow) == seq![' '] + decimal(unread)
                + seq![' '] + arrow
        }),
{
}

} // verus!
