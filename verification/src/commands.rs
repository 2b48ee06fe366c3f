//! What each key is for.

use vstd::prelude::*;
use crate::conduct::{plain_mode, reconciling_asks_for_views};
use crate::emulator::vt_alternate_screen;
use crate::geometry::{Axis, Dir};
use crate::ids::{AgentId, RepoId, TerminalId};
use crate::input::{KeyCode, KeyEvent};
use crate::keys::expanded;
use crate::pane_laws::{open_keeps_wf, split_keeps_wf};
use crate::ratio::{ONE, RESIZE_STEP};
use crate::sidebar::Row;
use crate::state::{agent_from, has_agent, AppView, Field, Flow, Focus, InputMode};
use crate::table::{drop_key, lookup, put};
use crate::text::trim;
use crate::visits::{
    an_opened_agent_is_active, prefixed, reconciling_moves_nothing, spent, the_prefix_takes_one_key,
};
use crate::wire::{AgentInfo, MsgView};

verus! {

/// What a key leaves behind when it does nothing: notices and the selection are dismissed.
pub open spec fn quiet(v: AppView) -> AppView {
    AppView { status: Seq::empty(), info: Seq::empty(), selection: None, ..v }
}

pub(crate) proof fn agent_is_found(agents: Seq<AgentInfo>, id: AgentId, i: int, k: int)
    requires
        0 <= i <= k < agents.len(),
        agents[k].id == id,
        forall|m: int| i <= m < k ==> (#[trigger] agents[m]).id != id,
    ensures
        agent_from(agents, id, i) == Some(k),
    decreases agents.len() - i,
{
    if i < k {
        agent_is_found(agents, id, i + 1, k);
    }
}

// --- in the sidebar ---

/// Keys that are asked of the sidebar reach it, in no mode and without Ctrl.
proof fn keys_reach_the_sidebar(v: AppView, key: KeyEvent, c: char)
    requires
        plain_mode(v),
        v.focus == Focus::Sidebar,
        key.code == KeyCode::Char(c),
        !('0' <= c <= '9'),
        !key.modifiers.control,
    ensures
        v.on_key(key) == quiet(v).key_sidebar(key),
{
    reveal(AppView::on_key);
    let w = v.dismissed();
    assert(w.scroll_checked() == w);
}

/// On an agent's row, `d` asks to delete that agent, without force, and `r` to resume it; nothing
/// else is asked, and nothing else changes.
pub proof fn the_agent_under_the_cursor_is_deleted_or_resumed(v: AppView, key: KeyEvent, id: AgentId)
    requires
        plain_mode(v),
        v.focus == Focus::Sidebar,
        v.sidebar_sel == Some(Row::Agent(id)) || v.sidebar_sel == Some(Row::Recent(id)),
        !key.modifiers.control,
    ensures
        key.code == KeyCode::Char('d') ==> v.on_key(key) == (
            AppView { out: v.out.push(MsgView::DeleteAgent { id, force: false }), ..quiet(v) },
            Flow::Continue,
        ),
        key.code == KeyCode::Char('r') ==> v.on_key(key) == (
            AppView { out: v.out.push(MsgView::ResumeAgent { id }), ..quiet(v) },
            Flow::Continue,
        ),
{
    if key.code == KeyCode::Char('d') {
        keys_reach_the_sidebar(v, key, 'd');
    }
    if key.code == KeyCode::Char('r') {
        keys_reach_the_sidebar(v, key, 'r');
    }
}

/// Whether the cursor is in repository `repo`: on its own row, or on that of its agent `k`.
pub open spec fn cursor_in(v: AppView, repo: RepoId, k: int) -> bool {
    ||| v.sidebar_sel == Some(Row::Repo(repo))
    ||| {
        &&& 0 <= k < v.agents.len() && v.agents[k].repo == repo
        &&& forall|m: int| 0 <= m < k ==> (#[trigger] v.agents[m]).id != v.agents[k].id
        &&& v.sidebar_sel == Some(Row::Agent(v.agents[k].id)) || v.sidebar_sel == Some(
            Row::Recent(v.agents[k].id),
        )
    }
}

proof fn the_cursors_repository(v: AppView, repo: RepoId, k: int)
    requires
        cursor_in(v, repo, k),
    ensures
        v.selected_repo() == Some(repo),
{
    if v.sidebar_sel != Some(Row::Repo(repo)) {
        agent_is_found(v.agents, v.agents[k].id, 0, k);
    }
}

/// In a repository, `h` asks for a session on its head, `P` for its upkeep, and `n` opens the prompt
/// for a branch and a task there, both empty, the branch first.
pub proof fn the_repository_under_the_cursor_is_used(v: AppView, key: KeyEvent, repo: RepoId, k: int)
    requires
        plain_mode(v),
        v.focus == Focus::Sidebar,
        cursor_in(v, repo, k),
        !key.modifiers.control,
    ensures
        key.code == KeyCode::Char('h') ==> v.on_key(key) == (
            AppView { out: v.out.push(MsgView::CreateHeadAgent { repo }), ..quiet(v) },
            Flow::Continue,
        ),
        key.code == KeyCode::Char('P') ==> v.on_key(key) == (
            AppView { out: v.out.push(MsgView::DoctorRepo { repo }), ..quiet(v) },
            Flow::Continue,
        ),
        key.code == KeyCode::Char('n') ==> v.on_key(key) == (
            AppView {
                input: InputMode::Creating,
                create_repo: Some(repo),
                create_buf: Seq::empty(),
                task_buf: Seq::empty(),
                create_field: Field::Branch,
                ..quiet(v)
            },
            Flow::Continue,
        ),
{
    the_cursors_repository(quiet(v), repo, k);
    if key.code == KeyCode::Char('h') {
        keys_reach_the_sidebar(v, key, 'h');
    }
    if key.code == KeyCode::Char('P') {
        keys_reach_the_sidebar(v, key, 'P');
    }
    if key.code == KeyCode::Char('n') {
        keys_reach_the_sidebar(v, key, 'n');
    }
}

/// Wherever the cursor is, `N` asks for a directory and a branch, `H` for a directory, the directory
/// first and empty, and `q` ends the client; nothing is sent.
pub proof fn prompts_are_opened(v: AppView, key: KeyEvent)
    requires
        plain_mode(v),
        v.focus == Focus::Sidebar,
        !key.modifiers.control,
    ensures
        key.code == KeyCode::Char('N') ==> v.on_key(key) == (
            AppView {
                input: InputMode::CreatingRepo,
                create_buf: Seq::empty(),
                dir_buf: Seq::empty(),
                create_field: Field::Dir,
                ..quiet(v)
            },
            Flow::Continue,
        ),
        key.code == KeyCode::Char('H') ==> v.on_key(key) == (
            AppView {
                input: InputMode::CreatingHead,
                dir_buf: Seq::empty(),
                create_field: Field::Dir,
                ..quiet(v)
            },
            Flow::Continue,
        ),
        key.code == KeyCode::Char('q') ==> v.on_key(key) == (quiet(v), Flow::Quit),
{
    if key.code == KeyCode::Char('N') {
        keys_reach_the_sidebar(v, key, 'N');
    }
    if key.code == KeyCode::Char('H') {
        keys_reach_the_sidebar(v, key, 'H');
    }
    if key.code == KeyCode::Char('q') {
        keys_reach_the_sidebar(v, key, 'q');
    }
}

// --- in a prompt ---

/// Whether a prompt for text is open.
pub open spec fn prompting(v: AppView) -> bool {
    v.input == InputMode::Creating || v.input == InputMode::CreatingRepo || v.input
        == InputMode::CreatingHead
}

/// The field that typing goes to.
pub open spec fn typed_field(v: AppView) -> Field {
    if v.input == InputMode::CreatingHead {
        Field::Dir
    } else {
        v.create_field
    }
}

/// What a field holds.
pub open spec fn held(v: AppView, f: Field) -> Seq<char> {
    match f {
        Field::Dir => v.dir_buf,
        Field::Branch => v.create_buf,
        Field::Task => v.task_buf,
    }
}

/// In a prompt a character is added at the end of the field being edited, and Backspace takes the
/// last one off; the other fields keep what they hold, the prompt stays open, and nothing is sent.
pub proof fn typing_edits_the_end_of_the_field(v: AppView, key: KeyEvent, f: Field)
    requires
        prompting(v),
        !(key.code == KeyCode::Char('q') && key.modifiers.control),
        key.code is Char || key.code == KeyCode::Backspace,
    ensures
        ({
            let (w, flow) = v.on_key(key);
            let here = typed_field(v);
            &&& flow == Flow::Continue
            &&& w.input == v.input && w.out == v.out && w.create_field == v.create_field
            &&& w.create_repo == v.create_repo && w.focus == v.focus && w.tree == v.tree
            &&& f != here ==> held(w, f) == held(v, f)
            &&& key.code matches KeyCode::Char(c) ==> held(w, here) == held(v, here).push(c)
            &&& key.code == KeyCode::Backspace && held(v, here).len() > 0 ==> held(w, here)
                == held(v, here).take(held(v, here).len() - 1)
            &&& key.code == KeyCode::Backspace && held(v, here).len() == 0 ==> held(w, here)
                == held(v, here)
        }),
{
    reveal(AppView::on_key);
}

/// Typing a character and taking it back leaves a prompt as it was.
pub proof fn backspace_takes_back_a_character(v: AppView, key: KeyEvent, c: char, back: KeyEvent)
    requires
        prompting(v),
        key.code == KeyCode::Char(c),
        !(c == 'q' && key.modifiers.control),
        back.code == KeyCode::Backspace,
    ensures
        v.on_key(key).0.on_key(back) == (v, Flow::Continue),
{
    reveal(AppView::on_key);
    let here = typed_field(v);
    assert(held(v, here).push(c).drop_last() =~= held(v, here));
}

/// Esc closes a prompt and asks for nothing; Tab and the arrows switch between its two fields, and
/// back.
pub proof fn prompts_are_left_and_walked(v: AppView, key: KeyEvent)
    requires
        prompting(v),
    ensures
        key.code == KeyCode::Esc ==> v.on_key(key) == (
            AppView { input: InputMode::Normal, ..v },
            Flow::Continue,
        ),
        key.code == KeyCode::Tab || key.code == KeyCode::Down || key.code == KeyCode::Up ==> {
            let w = v.on_key(key).0;
            &&& w == AppView { create_field: w.create_field, ..v }
            &&& v.input == InputMode::Creating && v.create_field == Field::Branch ==> w.create_field
                == Field::Task
            &&& v.input == InputMode::Creating && v.create_field == Field::Task ==> w.create_field
                == Field::Branch
            &&& v.input == InputMode::CreatingRepo && v.create_field == Field::Dir ==> w.create_field
                == Field::Branch
            &&& v.input == InputMode::CreatingRepo && v.create_field == Field::Branch
                ==> w.create_field == Field::Dir
            &&& v.input == InputMode::CreatingHead ==> w == v
        },
{
    reveal(AppView::on_key);
}

/// Enter at the prompt for a branch asks for one agent in the repository that was chosen, on the
/// branch that was typed, with the task that was typed if there is one, both without blanks around
/// them. Without a branch it asks for nothing. Either way the prompt closes, and its fields are
/// empty.
pub proof fn enter_creates_the_agent(v: AppView, key: KeyEvent, repo: RepoId)
    requires
        v.input == InputMode::Creating,
        v.create_repo == Some(repo),
        key.code == KeyCode::Enter,
    ensures
        ({
            let (w, flow) = v.on_key(key);
            let (branch, task) = (trim(v.create_buf), trim(v.task_buf));
            &&& flow == Flow::Continue
            &&& w.input == InputMode::Normal && w.create_repo is None
            &&& w.create_buf.len() == 0 && w.task_buf.len() == 0
            &&& branch.len() == 0 ==> w.out == v.out
            &&& branch.len() > 0 && task.len() > 0 ==> w.out == v.out.push(
                MsgView::CreateAgent { repo, branch, prompt: Some(task) },
            )
            &&& branch.len() > 0 && task.len() == 0 ==> w.out == v.out.push(
                MsgView::CreateAgent { repo, branch, prompt: None },
            )
            &&& w.tree == v.tree && w.focus == v.focus && w.sidebar_sel == v.sidebar_sel
        }),
{
    reveal(AppView::on_key);
}

/// Enter at the prompt for a directory and a branch goes on from a directory to the branch, and with
/// both asks for one agent there, on that branch; with one of them missing it waits for it.
pub proof fn enter_creates_the_agent_there(v: AppView, key: KeyEvent)
    requires
        v.input == InputMode::CreatingRepo,
        key.code == KeyCode::Enter,
    ensures
        ({
            let (w, flow) = v.on_key(key);
            let (dir, branch) = (trim(v.dir_buf), trim(v.create_buf));
            &&& flow == Flow::Continue
            &&& v.create_field == Field::Dir && dir.len() > 0 ==> w == AppView {
                create_field: Field::Branch,
                ..v
            }
            &&& v.create_field != Field::Dir && dir.len() > 0 && branch.len() > 0 ==> {
                &&& w.out == v.out.push(
                    MsgView::CreateAgentAt { path: expanded(dir, v.home), branch },
                )
                &&& w.input == InputMode::Normal && w.dir_buf.len() == 0 && w.create_buf.len() == 0
            }
            &&& dir.len() == 0 || (v.create_field != Field::Dir && branch.len() == 0) ==> w == v
        }),
{
    reveal(AppView::on_key);
}

/// Enter at the prompt for a directory asks for one session there; without a directory it only
/// closes the prompt.
pub proof fn enter_opens_the_session_there(v: AppView, key: KeyEvent)
    requires
        v.input == InputMode::CreatingHead,
        key.code == KeyCode::Enter,
    ensures
        ({
            let (w, flow) = v.on_key(key);
            let dir = trim(v.dir_buf);
            &&& flow == Flow::Continue
            &&& w.input == InputMode::Normal && w.dir_buf.len() == 0
            &&& dir.len() > 0 ==> w.out == v.out.push(
                MsgView::CreateHeadAgentAt { path: expanded(dir, v.home) },
            )
            &&& dir.len() == 0 ==> w.out == v.out
        }),
{
    reveal(AppView::on_key);
}

/// A lone `~`, or one before a slash, stands for the home directory; every other path is taken as it
/// is, and so is one without a home to go to.
pub proof fn tildes_stand_for_home(path: Seq<char>, home: Option<Seq<char>>)
    ensures
        home is None ==> expanded(path, home) == path,
        path.len() == 0 || path[0] != '~' ==> expanded(path, home) == path,
        path.len() > 1 && path[0] == '~' && path[1] != '/' ==> expanded(path, home) == path,
        home is Some && path == seq!['~'] ==> expanded(path, home) == home->0,
        home is Some && path.len() > 2 && path[0] == '~' && path[1] == '/' && path[2] != '/' && (
        home->0).len() > 0 && (home->0)[(home->0).len() - 1] != '/' ==> expanded(path, home)
            == home->0 + path.skip(1),
{
    if home is Some && path.len() > 2 && path[0] == '~' && path[1] == '/' && path[2] != '/' && (
    home->0).len() > 0 && (home->0)[(home->0).len() - 1] != '/' {
        assert(expanded(path, home) =~= home->0 + path.skip(1));
    }
}

// --- scrolled back ---

/// Whether the pane of `t` is scrolled back and takes the keys.
pub open spec fn scrolled_back(v: AppView, t: TerminalId) -> bool {
    &&& v.input == InputMode::Normal
    &&& v.scroll is Some && (v.scroll->0).terminal == t
    &&& lookup(v.parsers, t) is Some
}

/// The lines that a key asks for in scroll mode: how many, and which way.
pub open spec fn asks_to_scroll(v: AppView, key: KeyEvent, t: TerminalId, lines: int) -> bool {
    v.on_key(key) == (
        AppView {
            out: v.out.push(MsgView::Scroll { terminal: t, lines: lines as i32 }),
            ..quiet(v)
        },
        Flow::Continue,
    )
}

/// Scrolled back, `k` and the up arrow go one line further back, `j` and the down arrow one line
/// forward; a page is the height of the pane, half a page its half; `g` goes all the way back, `G`
/// all the way forward. The pane stays scrolled back until the daemon answers.
pub proof fn scroll_keys_go_back_and_forth(v: AppView, key: KeyEvent, t: TerminalId, rows: u16)
    requires
        scrolled_back(v, t),
        lookup(v.attached, t) is Some,
        (lookup(v.attached, t)->0).rows == rows,
        rows >= 2,
    ensures
        key.code == KeyCode::Up || key.code == KeyCode::Char('k') ==> asks_to_scroll(v, key, t, 1),
        key.code == KeyCode::Down || key.code == KeyCode::Char('j') ==> asks_to_scroll(
            v,
            key,
            t,
            -1,
        ),
        key.code == KeyCode::PageUp ==> asks_to_scroll(v, key, t, rows as int),
        key.code == KeyCode::PageDown ==> asks_to_scroll(v, key, t, -rows),
        key.code == KeyCode::Char('u') ==> asks_to_scroll(v, key, t, rows as int / 2),
        key.code == KeyCode::Char('d') ==> asks_to_scroll(v, key, t, -(rows as int / 2)),
        key.code == KeyCode::Char('y') && key.modifiers.control ==> asks_to_scroll(v, key, t, 1),
        key.code == KeyCode::Char('e') && key.modifiers.control ==> asks_to_scroll(v, key, t, -1),
        key.code == KeyCode::Char('g') ==> asks_to_scroll(v, key, t, i32::MAX as int),
        key.code == KeyCode::Char('G') ==> asks_to_scroll(v, key, t, i32::MIN as int),
{
    reveal(AppView::on_key);
    let w = v.dismissed();
    assert(w.scroll_checked() == w);
}

/// `q`, Esc and Enter leave scroll mode and tell the daemon to go back to the live view.
pub proof fn scroll_mode_is_left(v: AppView, key: KeyEvent, t: TerminalId)
    requires
        scrolled_back(v, t),
        (key.code == KeyCode::Char('q') && !key.modifiers.control) || key.code == KeyCode::Esc
            || key.code == KeyCode::Enter,
    ensures
        v.on_key(key) == (
            AppView {
                scroll: None,
                out: v.out.push(MsgView::Scroll { terminal: t, lines: i32::MIN }),
                ..quiet(v)
            },
            Flow::Continue,
        ),
{
    reveal(AppView::on_key);
    let w = v.dismissed();
    assert(w.scroll_checked() == w);
}

/// After the prefix, `[` asks for the history of the focused pane, one line back; a program that
/// fills the screen has none, and then nothing is asked.
pub proof fn the_history_is_asked_for(v: AppView, key: KeyEvent, t: TerminalId)
    requires
        prefixed(v),
        v.focus == Focus::Panes,
        v.tree.focused_payload() == Some(t),
        key.code == KeyCode::Char('['),
        !key.modifiers.control,
    ensures
        ({
            let w = v.on_key(key).0;
            let full_screen = lookup(v.parsers, t) is Some && vt_alternate_screen(
                lookup(v.parsers, t)->0,
            );
            &&& !full_screen ==> w.out == v.out.push(MsgView::Scroll { terminal: t, lines: 1 })
            &&& full_screen ==> w.out == v.out && w.info.len() > 0
            &&& w.scroll is None && !w.prefix && w.tree == v.tree && w.focus == v.focus
        }),
{
    the_prefix_takes_one_key(v, key);
    reveal_strlit("no scrollback here — this pane runs a full-screen app");
}

// --- resizing ---

/// Whether `key` is an arrow or its letter, small or large, for `dir`.
pub open spec fn points(key: KeyEvent, dir: Dir, small: bool) -> bool {
    match dir {
        Dir::Left => if small {
            key.code == KeyCode::Left || key.code == KeyCode::Char('h')
        } else {
            key.code == KeyCode::Char('H')
        },
        Dir::Right => if small {
            key.code == KeyCode::Right || key.code == KeyCode::Char('l')
        } else {
            key.code == KeyCode::Char('L')
        },
        Dir::Up => if small {
            key.code == KeyCode::Up || key.code == KeyCode::Char('k')
        } else {
            key.code == KeyCode::Char('K')
        },
        Dir::Down => if small {
            key.code == KeyCode::Down || key.code == KeyCode::Char('j')
        } else {
            key.code == KeyCode::Char('J')
        },
    }
}

/// In resize mode arrows and small letters nudge the boundary by a twentieth, capitals snap it to the
/// next even share, each in its own direction; Esc and Enter leave the mode.
pub proof fn resize_keys_move_boundaries(v: AppView, key: KeyEvent, dir: Dir)
    requires
        v.input == InputMode::Normal,
        v.scroll is None,
        v.resize_mode,
        !key.modifiers.control,
    ensures
        points(key, dir, true) ==> {
            let w = v.on_key(key).0;
            &&& w.tree == v.tree.resize(dir, RESIZE_STEP) && w.resize_mode
            &&& w.focus == v.focus && w.minis == v.minis
        },
        points(key, dir, false) ==> {
            let w = v.on_key(key).0;
            &&& w.tree == v.tree.resize_snap(dir) && w.resize_mode
            &&& w.focus == v.focus && w.minis == v.minis
        },
        key.code == KeyCode::Esc || key.code == KeyCode::Enter ==> v.on_key(key) == (
            AppView { resize_mode: false, ..quiet(v) },
            Flow::Continue,
        ),
{
    reveal(AppView::on_key);
    let w = v.dismissed();
    assert(w.scroll_checked() == w);
    reconciling_moves_nothing(AppView { tree: w.tree.resize(dir, RESIZE_STEP), ..w });
    reconciling_moves_nothing(AppView { tree: w.tree.resize_snap(dir), ..w });
}

/// A twentieth is a twentieth, to the precision of ratios.
pub proof fn the_step_is_a_twentieth()
    ensures
        -64 <= 20 * RESIZE_STEP - ONE <= 64,
{
}

/// After the prefix, `r` enters resize mode and moves nothing; a capital enters it and snaps at once.
pub proof fn resize_mode_is_entered(v: AppView, key: KeyEvent, dir: Dir)
    requires
        prefixed(v),
        v.tree.root is Some,
        !key.modifiers.control,
    ensures
        key.code == KeyCode::Char('r') ==> v.on_key(key) == (
            AppView { resize_mode: true, ..spent(v) },
            Flow::Continue,
        ),
        points(key, dir, false) ==> {
            let w = v.on_key(key).0;
            &&& w.tree == v.tree.resize_snap(dir) && w.resize_mode && !w.prefix
            &&& w.focus == v.focus && w.minis == v.minis
        },
{
    the_prefix_takes_one_key(v, key);
    reconciling_moves_nothing(
        AppView { tree: v.tree.resize_snap(dir), resize_mode: true, ..spent(v) },
    );
}

// --- moving ---

/// Ctrl with `h`, `j`, `k` and `l` moves left, down, up and right among the panes.
pub proof fn movement_keys_have_their_direction(v: AppView, key: KeyEvent, dir: Dir)
    requires
        plain_mode(v),
        v.focus == Focus::Panes,
        !v.focused_is_passthrough(),
        key.modifiers.control,
        points(key, dir, true),
        key.code is Char,
    ensures
        ({
            let w = v.on_key(key).0;
            &&& w.tree == v.tree.navigate(dir, v.area)
            &&& w.out == v.out
        }),
{
    reveal(AppView::on_key);
    reveal(AppView::navigate);
    let w = v.dismissed();
    assert(w.scroll_checked() == w);
}

// --- splitting and closing ---

/// After the prefix, `%` puts a new shell to the right of the focused pane, `"` below it: the shell is
/// asked for in the worktree of the pane that was split, and has the focus.
pub proof fn split_keys_ask_for_a_shell(v: AppView, key: KeyEvent, from: TerminalId, agent: AgentId)
    requires
        prefixed(v),
        v.tree.focused_payload() == Some(from),
        lookup(v.terminals, from) == Some(agent),
        v.fresh.len() > 0,
        v.tree.wf(),
        v.tree.next_id < u64::MAX,
        !key.modifiers.control,
    ensures
        ({
            let w = v.on_key(key).0;
            let t = v.fresh[0];
            let axis = if key.code == KeyCode::Char('%') {
                Axis::LeftRight
            } else {
                Axis::TopBottom
            };
            key.code == KeyCode::Char('%') || key.code == KeyCode::Char('"') ==> {
                &&& w.tree == v.tree.split(axis).open(t)
                &&& w.tree.focused_payload() == Some(t)
                &&& w.focus == Focus::Panes
                &&& w.fresh == v.fresh.drop_first()
                &&& w.out.len() > v.out.len()
                &&& w.out[v.out.len() as int] == MsgView::SpawnShell { terminal: t, like: from }
                &&& forall|i: int| 0 <= i < v.out.len() ==> #[trigger] w.out[i] == v.out[i]
                &&& w.active_agent == v.active_agent && w.minis == v.minis
            }
        }),
{
    the_prefix_takes_one_key(v, key);
    let a = spent(v);
    let t = v.fresh[0];
    let axis = if key.code == KeyCode::Char('%') {
        Axis::LeftRight
    } else {
        Axis::TopBottom
    };
    let b = AppView {
        fresh: a.fresh.drop_first(),
        terminals: put(a.terminals, t, agent),
        tree: a.tree.split(axis).open(t),
        focus: Focus::Panes,
        ..a
    }.send(MsgView::SpawnShell { terminal: t, like: from });
    reconciling_moves_nothing(b);
    reconciling_asks_for_views(b);
    split_keeps_wf(v.tree, axis);
    open_keeps_wf(v.tree.split(axis), t);
}

/// After the prefix, `x` closes the focused pane and no other, and a mini only where the focus is on
/// one; the last pane leaves the focus to the sidebar.
pub proof fn close_keys_close_the_focused_pane(v: AppView, key: KeyEvent)
    requires
        prefixed(v),
        !(v.focus is Mini),
        key.code == KeyCode::Char('x'),
        !key.modifiers.control,
    ensures
        ({
            let w = v.on_key(key).0;
            &&& w.tree == v.tree.close_id(v.tree.focus)
            &&& w.minis == v.minis && w.active_agent == v.active_agent
            &&& w.tree.root is None ==> w.focus == Focus::Sidebar
            &&& w.tree.root is Some ==> w.focus == v.focus
        }),
{
    the_prefix_takes_one_key(v, key);
    let a = spent(v);
    let b = AppView { tree: a.tree.close(), ..a };
    match a.tree.focused_payload() {
        Some(t) => {
            let c = AppView {
                terminals: drop_key(b.terminals, t),
                parsers: drop_key(b.parsers, t),
                attached: drop_key(b.attached, t),
                passthrough: drop_key(b.passthrough, t),
                ..b
            }.send(MsgView::CloseTerminal { terminal: t });
            reconciling_moves_nothing(b.leave_empty_panes());
            reconciling_moves_nothing(c.leave_empty_panes());
        },
        None => {
            reconciling_moves_nothing(b.leave_empty_panes());
        },
    }
}

// --- other agents ---

/// After the prefix, `-` goes back to the agent that was active before, and puts the cursor on it;
/// the one that is left is then the one to go back to.
pub proof fn the_previous_agent_comes_back(v: AppView, key: KeyEvent, id: AgentId, k: int)
    requires
        prefixed(v),
        !(v.focus is Mini),
        key.code == KeyCode::Char('-'),
        !key.modifiers.control,
        v.prev_active_agent == Some(id),
        0 <= k < v.agents.len(),
        v.agents[k].id == id,
        forall|m: int| 0 <= m < k ==> (#[trigger] v.agents[m]).id != id,
    ensures
        ({
            let w = v.on_key(key).0;
            &&& w.active_agent == Some(id)
            &&& w.focus == Focus::Panes
            &&& w.sidebar_sel == Some(Row::Agent(id))
            &&& !w.minis.contains(id)
            &&& v.active_agent is Some && v.active_agent != Some(id) ==> w.prev_active_agent
                == v.active_agent
        }),
{
    the_prefix_takes_one_key(v, key);
    agent_is_found(v.agents, id, 0, k);
    an_opened_agent_is_active(spent(v).place_sidebar_sel(Row::Agent(id)), id);
}

/// Going back twice comes back to the agent that one started from.
pub proof fn going_back_twice_returns(v: AppView, a: AgentId, b: AgentId)
    requires
        v.active_agent == Some(a),
        v.prev_active_agent == Some(b),
        a != b,
        has_agent(v.agents, a),
        has_agent(v.agents, b),
    ensures
        v.previous_agent() == Some(b),
        v.open_agent(b).previous_agent() == Some(a),
        v.open_agent(b).open_agent(a).active_agent == Some(a),
        v.open_agent(b).open_agent(a).prev_active_agent == Some(b),
{
    let w = v.place_sidebar_sel(Row::Agent(b));
    an_opened_agent_is_active(w, b);
    let x = v.open_agent(b).place_sidebar_sel(Row::Agent(a));
    an_opened_agent_is_active(x, a);
}

/// A digit opens the agent that it names, after the prefix and with Cmd held alike, and puts the
/// cursor on it.
pub proof fn digits_open_the_agent_they_name(v: AppView, key: KeyEvent, c: char, id: AgentId)
    requires
        key.code == KeyCode::Char(c),
        '0' <= c <= '9',
        !key.modifiers.control,
        prefixed(v) || (plain_mode(v) && key.modifiers.super_key),
        v.numbered_agent(c) == Some(id),
    ensures
        ({
            let w = v.on_key(key).0;
            &&& w.active_agent == Some(id)
            &&& w.focus == Focus::Panes
            &&& w.sidebar_sel == Some(Row::Agent(id))
            &&& !w.minis.contains(id)
        }),
{
    if prefixed(v) {
        the_prefix_takes_one_key(v, key);
        assert(spent(v).numbered_agent(c) == v.numbered_agent(c));
        an_opened_agent_is_active(spent(v).place_sidebar_sel(Row::Agent(id)), id);
    } else {
        reveal(AppView::on_key);
        let w = v.dismissed();
        assert(w.scroll_checked() == w);
        assert(w.numbered_agent(c) == v.numbered_agent(c));
        an_opened_agent_is_active(w.place_sidebar_sel(Row::Agent(id)), id);
    }
}

} // verus!
