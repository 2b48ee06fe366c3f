//! What keys and pastes do.

use vstd::prelude::*;
use crate::emulator::{
    after_feed, vt_alternate_screen, vt_application_cursor, vt_bracketed_paste, Emulator, VtStep,
};
use crate::geometry::{larger, larger_of, Axis, Dir, Size};
use crate::ids::TerminalId;
use crate::input::{
    control_byte, ctrl_byte, encode_paste, key_bytes, key_to_bytes, paste_bytes, KeyCode, KeyEvent,
};
use crate::ratio::RESIZE_STEP;
use crate::sidebar::{has_id, main_area, spec_main_area};
use crate::state::{
    remove_id, without_id, App, AppView, Field, Flow, Focus, InputMode, Scroll, ScrollView,
};
use crate::table::{drop_key, lookup};
use crate::text::{
    chars_of, opt_text, owned, string_of, strip_controls, trim, trimmed, without_controls,
};
use crate::wire::{ClientMsg, MsgView};

verus! {

// --- which key means what ---

/// Whether `key` is `c` with Ctrl held.
pub open spec fn with_ctrl(key: KeyEvent, c: char) -> bool {
    key.code == KeyCode::Char(c) && key.modifiers.control
}

/// Whether `key` is `c` with Ctrl held.
pub fn is_ctrl(key: KeyEvent, c: char) -> (b: bool)
    ensures
        b == with_ctrl(key, c),
{
    match key.code {
        KeyCode::Char(k) => k == c && key.modifiers.control,
        _ => false,
    }
}

/// The direction of a movement key: Ctrl with h, j, k or l.
pub open spec fn move_dir(key: KeyEvent) -> Option<Dir> {
    if with_ctrl(key, 'h') {
        Some(Dir::Left)
    } else if with_ctrl(key, 'j') {
        Some(Dir::Down)
    } else if with_ctrl(key, 'k') {
        Some(Dir::Up)
    } else if with_ctrl(key, 'l') {
        Some(Dir::Right)
    } else {
        None
    }
}

/// The direction of a movement key, if `key` is one.
pub fn ctrl_dir(key: KeyEvent) -> (dir: Option<Dir>)
    ensures
        dir == move_dir(key),
{
    if is_ctrl(key, 'h') {
        Some(Dir::Left)
    } else if is_ctrl(key, 'j') {
        Some(Dir::Down)
    } else if is_ctrl(key, 'k') {
        Some(Dir::Up)
    } else if is_ctrl(key, 'l') {
        Some(Dir::Right)
    } else {
        None
    }
}

/// What a key does to a boundary: its direction, and whether it snaps. Small letters and arrows
/// nudge, capitals snap.
pub open spec fn resize_key(code: KeyCode) -> Option<(Dir, bool)> {
    match code {
        KeyCode::Left => Some((Dir::Left, false)),
        KeyCode::Right => Some((Dir::Right, false)),
        KeyCode::Down => Some((Dir::Down, false)),
        KeyCode::Up => Some((Dir::Up, false)),
        KeyCode::Char(c) => if c == 'h' {
            Some((Dir::Left, false))
        } else if c == 'H' {
            Some((Dir::Left, true))
        } else if c == 'l' {
            Some((Dir::Right, false))
        } else if c == 'L' {
            Some((Dir::Right, true))
        } else if c == 'j' {
            Some((Dir::Down, false))
        } else if c == 'J' {
            Some((Dir::Down, true))
        } else if c == 'k' {
            Some((Dir::Up, false))
        } else if c == 'K' {
            Some((Dir::Up, true))
        } else {
            None
        },
        _ => None,
    }
}

/// What a key does to a boundary, if anything.
pub fn resize_dir(code: KeyCode) -> (out: Option<(Dir, bool)>)
    ensures
        out == resize_key(code),
{
    match code {
        KeyCode::Left => Some((Dir::Left, false)),
        KeyCode::Right => Some((Dir::Right, false)),
        KeyCode::Down => Some((Dir::Down, false)),
        KeyCode::Up => Some((Dir::Up, false)),
        KeyCode::Char(c) => if c == 'h' {
            Some((Dir::Left, false))
        } else if c == 'H' {
            Some((Dir::Left, true))
        } else if c == 'l' {
            Some((Dir::Right, false))
        } else if c == 'L' {
            Some((Dir::Right, true))
        } else if c == 'j' {
            Some((Dir::Down, false))
        } else if c == 'J' {
            Some((Dir::Down, true))
        } else if c == 'k' {
            Some((Dir::Up, false))
        } else if c == 'K' {
            Some((Dir::Up, true))
        } else {
            None
        },
        _ => None,
    }
}

/// The lines that a key scrolls by, back into the history when positive; `page` is a screenful.
pub open spec fn scroll_lines(key: KeyEvent, page: int) -> Option<int> {
    let half = if page / 2 < 1 {
        1
    } else {
        page / 2
    };
    let ctrl = key.modifiers.control;
    match key.code {
        KeyCode::Up => Some(1int),
        KeyCode::Down => Some(-1),
        KeyCode::PageUp => Some(page),
        KeyCode::PageDown => Some(-page),
        KeyCode::Char(c) => if c == 'k' {
            Some(1int)
        } else if c == 'j' {
            Some(-1)
        } else if c == 'y' && ctrl {
            Some(1int)
        } else if c == 'e' && ctrl {
            Some(-1)
        } else if c == 'u' {
            Some(half)
        } else if c == 'd' {
            Some(-half)
        } else if c == 'g' {
            Some(i32::MAX as int)
        } else if c == 'G' {
            Some(i32::MIN as int)
        } else {
            None
        },
        _ => None,
    }
}

/// Whether a key leaves scroll mode.
pub open spec fn leaves_scroll(code: KeyCode) -> bool {
    code == KeyCode::Char('q') || code == KeyCode::Esc || code == KeyCode::Enter
}

/// `home` with the relative path `rest` under it; a `rest` that is absolute stands alone.
pub open spec fn path_under(home: Seq<char>, rest: Seq<char>) -> Seq<char> {
    if rest.len() > 0 && rest[0] == '/' {
        rest
    } else if home.len() == 0 || home.last() == '/' {
        home + rest
    } else {
        home.push('/') + rest
    }
}

/// A path as typed, with a leading `~` replaced by the home directory where that is known. Only a
/// whole first component is: `~name` is a path like any other.
pub open spec fn expanded(input: Seq<char>, home: Option<Seq<char>>) -> Seq<char> {
    match home {
        Some(h) => if input == seq!['~'] {
            h
        } else if input.len() >= 2 && input[0] == '~' && input[1] == '/' {
            path_under(h, input.skip(2))
        } else {
            input
        },
        None => input,
    }
}

/// `home` with the path `rest` under it.
pub fn join_path(home: &str, rest: &str) -> (out: String)
    ensures
        out@ == path_under(home@, rest@),
{
    let hs = chars_of(home);
    let rs = chars_of(rest);
    if rs.len() > 0 && rs[0] == '/' {
        return owned(rest);
    }
    let mut out = owned(home);
    if hs.len() > 0 && hs[hs.len() - 1] != '/' {
        out.push('/');
    }
    out.append(rest);
    out
}

/// Expand a leading `~` to the home directory; any other path stays as it is.
pub fn expand_path(input: &str, home: &Option<String>) -> (out: String)
    ensures
        out@ == expanded(input@, opt_text(*home)),
{
    let cs = chars_of(input);
    match home {
        Some(h) => {
            if cs.len() == 1 && cs[0] == '~' {
                assert(input@ =~= seq!['~']);
                owned(h.as_str())
            } else if cs.len() >= 2 && cs[0] == '~' && cs[1] == '/' {
                let rest = string_of(&cs, 2, cs.len());
                assert(rest@ =~= input@.skip(2));
                join_path(h.as_str(), rest.as_str())
            } else {
                owned(input)
            }
        },
        None => owned(input),
    }
}

/// The screen that a window of history shows at a size.
pub open spec fn served_screen(size: Size, bytes: Seq<u8>) -> Seq<VtStep> {
    after_feed(
        seq![VtStep::Start { rows: larger(size.rows, 1), cols: larger(size.cols, 1) }],
        bytes,
    )
}

/// An emulator of the given size, at least one cell, that was offered `bytes`.
pub fn serve_screen(size: Size, bytes: &[u8]) -> (e: Emulator)
    ensures
        e@ == served_screen(size, bytes@),
{
    let e = Emulator::new(larger_of(size.rows, 1), larger_of(size.cols, 1));
    e.fed(bytes)
}

// --- what the keys do ---

impl AppView {
    /// The client without banners and selection, where keys are not typed into a prompt.
    pub open spec fn dismissed(self) -> AppView {
        if self.input == InputMode::Normal {
            AppView { status: Seq::empty(), info: Seq::empty(), selection: None, ..self }
        } else {
            self
        }
    }

    /// The text in the field being edited.
    pub open spec fn active_buf(self) -> Seq<char> {
        match self.create_field {
            Field::Dir => self.dir_buf,
            Field::Branch => self.create_buf,
            Field::Task => self.task_buf,
        }
    }

    /// The client with `text` in the field being edited.
    pub open spec fn with_buf(self, text: Seq<char>) -> AppView {
        match self.create_field {
            Field::Dir => AppView { dir_buf: text, ..self },
            Field::Branch => AppView { create_buf: text, ..self },
            Field::Task => AppView { task_buf: text, ..self },
        }
    }

    /// `s` without its last character.
    pub open spec fn shortened(s: Seq<char>) -> Seq<char> {
        if s.len() == 0 {
            s
        } else {
            s.drop_last()
        }
    }

    /// The client after a key at the prompt for a branch and a task. Enter creates the agent; without
    /// a branch it cancels, without a task the agent waits at its prompt.
    pub open spec fn key_creating(self, key: KeyEvent) -> AppView {
        match key.code {
            KeyCode::Enter => {
                let v = AppView {
                    create_buf: Seq::empty(),
                    task_buf: Seq::empty(),
                    create_repo: None,
                    input: InputMode::Normal,
                    ..self
                };
                match self.create_repo {
                    Some(repo) => if trim(self.create_buf).len() > 0 {
                        v.send(
                            MsgView::CreateAgent {
                                repo,
                                branch: trim(self.create_buf),
                                prompt: if trim(self.task_buf).len() > 0 {
                                    Some(trim(self.task_buf))
                                } else {
                                    None
                                },
                            },
                        )
                    } else {
                        v
                    },
                    None => v,
                }
            },
            KeyCode::Esc => AppView { input: InputMode::Normal, ..self },
            KeyCode::Tab => self.switch_task(),
            KeyCode::Down => self.switch_task(),
            KeyCode::Up => self.switch_task(),
            KeyCode::Backspace => self.with_buf(Self::shortened(self.active_buf())),
            KeyCode::Char(c) => self.with_buf(self.active_buf().push(c)),
            _ => self,
        }
    }

    /// The client with the other one of branch and task being edited.
    pub open spec fn switch_task(self) -> AppView {
        AppView {
            create_field: if self.create_field == Field::Task {
                Field::Branch
            } else {
                Field::Task
            },
            ..self
        }
    }

    /// The client with the other one of directory and branch being edited.
    pub open spec fn switch_dir(self) -> AppView {
        AppView {
            create_field: if self.create_field == Field::Dir {
                Field::Branch
            } else {
                Field::Dir
            },
            ..self
        }
    }

    /// The client after a key at the prompt for a directory and a branch. Enter on the directory goes
    /// on to the branch; with both it creates the agent.
    pub open spec fn key_creating_repo(self, key: KeyEvent) -> AppView {
        match key.code {
            KeyCode::Enter => {
                let dir = trim(self.dir_buf);
                let branch = trim(self.create_buf);
                if self.create_field == Field::Dir && dir.len() > 0 {
                    AppView { create_field: Field::Branch, ..self }
                } else if dir.len() > 0 && branch.len() > 0 {
                    AppView {
                        dir_buf: Seq::empty(),
                        create_buf: Seq::empty(),
                        input: InputMode::Normal,
                        ..self
                    }.send(MsgView::CreateAgentAt { path: expanded(dir, self.home), branch })
                } else {
                    self
                }
            },
            KeyCode::Tab => self.switch_dir(),
            KeyCode::Down => self.switch_dir(),
            KeyCode::Up => self.switch_dir(),
            KeyCode::Esc => AppView { input: InputMode::Normal, ..self },
            KeyCode::Backspace => self.with_buf(Self::shortened(self.active_buf())),
            KeyCode::Char(c) => self.with_buf(self.active_buf().push(c)),
            _ => self,
        }
    }

    /// The client after a key at the prompt for a directory. Enter opens the session there; without a
    /// directory it cancels.
    pub open spec fn key_creating_head(self, key: KeyEvent) -> AppView {
        match key.code {
            KeyCode::Enter => {
                let dir = trim(self.dir_buf);
                let v = AppView { dir_buf: Seq::empty(), input: InputMode::Normal, ..self };
                if dir.len() > 0 {
                    v.send(MsgView::CreateHeadAgentAt { path: expanded(dir, self.home) })
                } else {
                    v
                }
            },
            KeyCode::Esc => AppView { input: InputMode::Normal, ..self },
            KeyCode::Backspace => AppView { dir_buf: Self::shortened(self.dir_buf), ..self },
            KeyCode::Char(c) => AppView { dir_buf: self.dir_buf.push(c), ..self },
            _ => self,
        }
    }

    /// The client after a key at a question: yes deletes, anything else does not.
    pub open spec fn key_confirm(self, key: KeyEvent) -> AppView {
        let v = AppView { confirm_id: None, input: InputMode::Normal, ..self };
        match self.confirm_id {
            Some(id) => if key.code == KeyCode::Char('y') || key.code == KeyCode::Char('Y') {
                v.send(MsgView::DeleteAgent { id, force: true })
            } else {
                v
            },
            None => v,
        }
    }

    /// The client with `bytes` typed into terminal `t`.
    pub open spec fn type_into(self, t: TerminalId, bytes: Seq<u8>) -> AppView {
        self.send(MsgView::Input { terminal: t, bytes })
    }

    /// Whether the program in `t` asked for application cursor keys.
    pub open spec fn app_cursor(self, t: TerminalId) -> bool {
        match lookup(self.parsers, t) {
            Some(h) => vt_application_cursor(h),
            None => false,
        }
    }

    /// The client after a key that goes to an optional terminal.
    pub open spec fn key_to(self, t: Option<TerminalId>, key: KeyEvent) -> AppView {
        match t {
            Some(t) => match key_bytes(key, self.app_cursor(t)) {
                Some(bytes) => self.type_into(t, bytes),
                None => self,
            },
            None => self,
        }
    }

    /// The size of a scroll step by page.
    pub open spec fn scroll_page(self, t: TerminalId) -> int {
        match lookup(self.attached, t) {
            Some(size) => larger(size.rows, 1) as int,
            None => 24,
        }
    }

    /// The client once `t` is back at its live view, and the daemon told so.
    pub open spec fn exit_scroll(self, t: TerminalId) -> AppView {
        AppView { scroll: None, ..self }.send(MsgView::Scroll { terminal: t, lines: i32::MIN })
    }

    /// The client after a key in scroll mode: a step for the daemon to answer, or the end of it.
    pub open spec fn key_scroll(self, key: KeyEvent, t: TerminalId) -> AppView {
        if leaves_scroll(key.code) {
            self.exit_scroll(t)
        } else {
            match scroll_lines(key, self.scroll_page(t)) {
                Some(n) => self.send(MsgView::Scroll { terminal: t, lines: n as i32 }),
                None => self,
            }
        }
    }

    /// The client after a key in resize mode.
    pub open spec fn key_resize(self, key: KeyEvent) -> AppView {
        if key.code == KeyCode::Esc || key.code == KeyCode::Enter {
            AppView { resize_mode: false, ..self }
        } else {
            match resize_key(key.code) {
                Some((dir, snap)) => AppView {
                    tree: if snap {
                        self.tree.resize_snap(dir)
                    } else {
                        self.tree.resize(dir, RESIZE_STEP)
                    },
                    ..self
                }.reconcile(),
                None => self,
            }
        }
    }

    /// The client after a key in the sidebar, and whether it goes on.
    pub open spec fn key_sidebar(self, key: KeyEvent) -> (AppView, Flow) {
        let ctrl = key.modifiers.control;
        let half = if self.page() / 2 < 1 {
            1
        } else {
            self.page() / 2
        };
        match key.code {
            KeyCode::Down => (self.move_sidebar_sel(1), Flow::Continue),
            KeyCode::Up => (self.move_sidebar_sel(-1), Flow::Continue),
            KeyCode::PageDown => (self.move_sidebar_sel(self.page()), Flow::Continue),
            KeyCode::PageUp => (self.move_sidebar_sel(-self.page()), Flow::Continue),
            KeyCode::Enter => (self.open_selected(), Flow::Continue),
            KeyCode::Char(c) => if c == 'q' {
                (self, Flow::Quit)
            } else if c == 'j' {
                (self.move_sidebar_sel(1), Flow::Continue)
            } else if c == 'k' {
                (self.move_sidebar_sel(-1), Flow::Continue)
            } else if c == 'd' && ctrl {
                (self.move_sidebar_sel(half), Flow::Continue)
            } else if c == 'u' && ctrl {
                (self.move_sidebar_sel(-half), Flow::Continue)
            } else if c == 'g' {
                (self.move_sidebar_sel(i32::MIN as int), Flow::Continue)
            } else if c == 'G' {
                (self.move_sidebar_sel(i32::MAX as int), Flow::Continue)
            } else if c == 'n' {
                (self.prompt_branch(), Flow::Continue)
            } else if c == 'N' {
                (
                    AppView {
                        create_buf: Seq::empty(),
                        dir_buf: Seq::empty(),
                        create_field: Field::Dir,
                        input: InputMode::CreatingRepo,
                        ..self
                    },
                    Flow::Continue,
                )
            } else if c == 'h' {
                (
                    match self.selected_repo() {
                        Some(repo) => self.send(MsgView::CreateHeadAgent { repo }),
                        None => self,
                    },
                    Flow::Continue,
                )
            } else if c == 'H' {
                (
                    AppView {
                        dir_buf: Seq::empty(),
                        create_field: Field::Dir,
                        input: InputMode::CreatingHead,
                        ..self
                    },
                    Flow::Continue,
                )
            } else if c == 'd' {
                (
                    match self.selected_agent() {
                        Some(id) => self.send(MsgView::DeleteAgent { id, force: false }),
                        None => self,
                    },
                    Flow::Continue,
                )
            } else if c == 'r' {
                (
                    match self.selected_agent() {
                        Some(id) => self.send(MsgView::ResumeAgent { id }),
                        None => self,
                    },
                    Flow::Continue,
                )
            } else if c == 'P' {
                (
                    match self.selected_repo() {
                        Some(repo) => self.send(MsgView::DoctorRepo { repo }),
                        None => self,
                    },
                    Flow::Continue,
                )
            } else if c == 'l' {
                (self.open_selected(), Flow::Continue)
            } else if c == 'm' {
                (
                    match self.selected_agent() {
                        Some(id) => self.open_mini(id),
                        None => self,
                    },
                    Flow::Continue,
                )
            } else {
                (self, Flow::Continue)
            },
            _ => (self, Flow::Continue),
        }
    }

    /// The client asking for a branch and a task, in the repository that the cursor is in.
    pub open spec fn prompt_branch(self) -> AppView {
        match self.selected_repo() {
            Some(repo) => AppView {
                create_repo: Some(repo),
                create_buf: Seq::empty(),
                task_buf: Seq::empty(),
                create_field: Field::Branch,
                input: InputMode::Creating,
                ..self
            },
            None => self,
        }
    }

    /// The client with the focus in the sidebar when there are no panes.
    pub open spec fn leave_empty_panes(self) -> AppView {
        AppView {
            focus: if self.tree.root is None {
                Focus::Sidebar
            } else {
                self.focus
            },
            ..self
        }
    }

    /// The client with the focused pane closed. Closing a shell ends it; the primary terminal of an
    /// agent is only no longer viewed.
    pub open spec fn close_pane(self) -> AppView {
        let v = AppView { tree: self.tree.close(), ..self };
        let w = match self.tree.focused_payload() {
            Some(t) => if self.is_primary(t) {
                v
            } else {
                AppView {
                    terminals: drop_key(v.terminals, t),
                    parsers: drop_key(v.parsers, t),
                    attached: drop_key(v.attached, t),
                    passthrough: drop_key(v.passthrough, t),
                    ..v
                }.send(MsgView::CloseTerminal { terminal: t })
            },
            None => v,
        };
        w.leave_empty_panes().reconcile()
    }

    /// The client with the whole row of minis hidden, or shown again.
    pub open spec fn peek(self) -> AppView {
        let hidden = !self.minis_hidden;
        AppView {
            minis_hidden: hidden,
            focus: if hidden && self.focus is Mini {
                self.focus_return
            } else {
                self.focus
            },
            ..self
        }.reconcile()
    }

    /// The client with mini `i` minimized, or restored.
    pub open spec fn toggle_mini(self, i: int) -> AppView {
        if i < self.minis.len() {
            let agent = self.minis[i];
            AppView {
                minimized: if self.minimized.contains(agent) {
                    without_id(self.minimized, agent)
                } else {
                    self.minimized.push(agent)
                },
                ..self
            }.reconcile()
        } else {
            self
        }
    }

    /// The client asking to scroll the focused pane back. A program on the alternate screen has no
    /// history, and that needs no asking.
    pub open spec fn begin_scroll(self) -> AppView {
        match self.tree.focused_payload() {
            Some(t) => if match lookup(self.parsers, t) {
                Some(h) => vt_alternate_screen(h),
                None => false,
            } {
                AppView {
                    info: "no scrollback here — this pane runs a full-screen app"@,
                    ..self
                }
            } else {
                self.send(MsgView::Scroll { terminal: t, lines: 1 })
            },
            None => self,
        }
    }

    /// The client with a control character typed into the focused pane.
    pub open spec fn type_control(self, c: char) -> AppView {
        match (self.tree.focused_payload(), control_byte(c)) {
            (Some(t), Some(b)) => self.type_into(t, seq![b]),
            _ => self,
        }
    }

    /// The client after the key that follows the prefix. With Ctrl held it is typed into the focused
    /// pane, as the control character it stands for, whatever it would do without.
    pub open spec fn key_prefix(self, key: KeyEvent) -> AppView {
        match key.code {
            KeyCode::Enter => match self.focus {
                Focus::Mini(i) => if i < self.minis.len() {
                    self.activate(self.minis[i as int])
                } else {
                    self
                },
                _ => self,
            },
            KeyCode::Tab => self.jump_next_unread(),
            KeyCode::Char(c) => if key.modifiers.control && control_byte(c) is Some {
                self.type_control(c)
            } else if c == '%' {
                self.split(Axis::LeftRight)
            } else if c == '"' {
                self.split(Axis::TopBottom)
            } else if c == 'x' {
                match self.focus {
                    Focus::Mini(i) => self.close_mini(i as int),
                    _ => self.close_pane(),
                }
            } else if c == 'z' && self.minis.len() > 0 {
                self.peek()
            } else if c == '-' {
                match self.focus {
                    Focus::Mini(i) => self.toggle_mini(i as int),
                    _ => match self.previous_agent() {
                        Some(id) => self.open_agent(id),
                        None => self,
                    },
                }
            } else if c == 'r' && self.tree.root is Some {
                AppView { resize_mode: true, ..self }
            } else if c == '[' && self.focus == Focus::Panes {
                self.begin_scroll()
            } else if (c == 'H' || c == 'J' || c == 'K' || c == 'L') && self.tree.root is Some {
                match resize_key(key.code) {
                    Some((dir, _)) => AppView {
                        tree: self.tree.resize_snap(dir),
                        resize_mode: true,
                        ..self
                    }.reconcile(),
                    None => self,
                }
            } else if '0' <= c <= '9' {
                match self.numbered_agent(c) {
                    Some(id) => self.open_agent(id),
                    None => self,
                }
            } else {
                self
            },
            _ => self,
        }
    }

    /// Whether the program in the focused pane wants the movement keys for itself.
    pub open spec fn focused_is_passthrough(self) -> bool {
        match self.tree.focused_payload() {
            Some(t) => lookup(self.passthrough, t) == Some(true),
            None => false,
        }
    }

    /// The client after a key that goes where the focus is.
    pub open spec fn key_focused(self, key: KeyEvent) -> (AppView, Flow) {
        match self.focus {
            Focus::Sidebar => self.key_sidebar(key),
            Focus::Panes => (self.key_to(self.tree.focused_payload(), key), Flow::Continue),
            Focus::Mini(i) => (self.key_to(self.mini_terminal(i as int), key), Flow::Continue),
        }
    }

    /// The client after a movement key.
    pub open spec fn key_move(self, key: KeyEvent, dir: Dir) -> AppView {
        if self.focus == Focus::Panes && self.focused_is_passthrough() {
            self.key_to(self.tree.focused_payload(), key)
        } else if self.focus == Focus::Sidebar && (dir == Dir::Up || dir == Dir::Down) {
            self.jump_unread(dir == Dir::Down)
        } else {
            self.navigate(dir)
        }
    }

    /// The client after a key in no mode at all.
    pub open spec fn key_plain(self, key: KeyEvent) -> (AppView, Flow) {
        match key.code {
            KeyCode::Char(c) => if key.modifiers.super_key && '0' <= c <= '9' {
                (
                    match self.numbered_agent(c) {
                        Some(id) => self.open_agent(id),
                        None => self,
                    },
                    Flow::Continue,
                )
            } else if with_ctrl(key, 'b') {
                (AppView { prefix: true, ..self }, Flow::Continue)
            } else {
                match move_dir(key) {
                    Some(dir) => (self.key_move(key, dir), Flow::Continue),
                    None => self.key_focused(key),
                }
            },
            _ => self.key_focused(key),
        }
    }

    /// The client once a scrolled pane that has gone is forgotten.
    pub open spec fn scroll_checked(self) -> AppView {
        match self.scroll {
            Some(s) => if lookup(self.parsers, s.terminal) is Some {
                self
            } else {
                AppView { scroll: None, ..self }
            },
            None => self,
        }
    }

    /// The client after a key outside prompts.
    pub open spec fn key_normal(self, key: KeyEvent) -> (AppView, Flow) {
        let v = self.scroll_checked();
        match v.scroll {
            Some(s) => (v.key_scroll(key, s.terminal), Flow::Continue),
            None => if v.resize_mode {
                (v.key_resize(key), Flow::Continue)
            } else if v.prefix {
                (AppView { prefix: false, ..v }.key_prefix(key), Flow::Continue)
            } else {
                v.key_plain(key)
            },
        }
    }

    /// The client after a key, and whether it goes on.
    #[verifier::opaque]
    pub open spec fn on_key(self, key: KeyEvent) -> (AppView, Flow) {
        if with_ctrl(key, 'q') {
            (self, Flow::Quit)
        } else {
            let v = self.dismissed();
            match v.input {
                InputMode::Creating => (v.key_creating(key), Flow::Continue),
                InputMode::CreatingRepo => (v.key_creating_repo(key), Flow::Continue),
                InputMode::CreatingHead => (v.key_creating_head(key), Flow::Continue),
                InputMode::Confirming => (v.key_confirm(key), Flow::Continue),
                InputMode::Normal => v.key_normal(key),
            }
        }
    }

    /// The client after a paste: into the field being edited, or as one write into the focused
    /// terminal.
    pub open spec fn on_paste(self, text: Seq<char>) -> AppView {
        match self.input {
            InputMode::Creating => self.with_buf(self.active_buf() + without_controls(text)),
            InputMode::CreatingRepo => self.with_buf(self.active_buf() + without_controls(text)),
            InputMode::CreatingHead => self.with_buf(self.active_buf() + without_controls(text)),
            InputMode::Confirming => self,
            InputMode::Normal => if self.scroll is Some || self.resize_mode || self.prefix {
                self
            } else {
                match self.focused_terminal() {
                    Some(t) => self.type_into(
                        t,
                        paste_bytes(
                            text,
                            match lookup(self.parsers, t) {
                                Some(h) => vt_bracketed_paste(h),
                                None => false,
                            },
                        ),
                    ),
                    None => self,
                }
            },
        }
    }

    /// The client in a terminal of another size.
    pub open spec fn on_resize(self, cols: u16, rows: u16) -> AppView {
        AppView { area: spec_main_area(cols, rows), ..self }.reconcile()
    }

    /// The client after a window of history arrived. Scroll mode begins only with a window that lies
    /// back, and goes on until it is left. While it shows the window of one pane, that of another is
    /// not shown.
    pub open spec fn on_scroll_view(
        self,
        t: TerminalId,
        offset: usize,
        available: usize,
        bytes: Seq<u8>,
    ) -> AppView {
        if offset == 0 && !self.scrolls(t) {
            if available == 0 {
                AppView { info: "no scrollback here yet"@, ..self }
            } else {
                self
            }
        } else if self.scroll is Some && !self.scrolls(t) {
            self
        } else {
            match lookup(self.attached, t) {
                Some(size) => AppView {
                    scroll: Some(
                        ScrollView {
                            terminal: t,
                            screen: served_screen(size, bytes),
                            offset,
                            available,
                        },
                    ),
                    ..self
                },
                None => self,
            }
        }
    }
}

impl App {
    fn push_active(&mut self, c: char)
        ensures
            final(self)@ == old(self)@.with_buf(old(self)@.active_buf().push(c)),
    {
        match self.create_field {
            Field::Dir => self.dir_buf.push(c),
            Field::Branch => self.create_buf.push(c),
            Field::Task => self.task_buf.push(c),
        }
    }

    fn pop_active(&mut self)
        ensures
            final(self)@ == old(self)@.with_buf(AppView::shortened(old(self)@.active_buf())),
    {
        match self.create_field {
            Field::Dir => {
                let _ = self.dir_buf.pop();
            },
            Field::Branch => {
                let _ = self.create_buf.pop();
            },
            Field::Task => {
                let _ = self.task_buf.pop();
            },
        }
    }

    fn append_active(&mut self, text: &str)
        ensures
            final(self)@ == old(self)@.with_buf(old(self)@.active_buf() + text@),
    {
        match self.create_field {
            Field::Dir => self.dir_buf.append(text),
            Field::Branch => self.create_buf.append(text),
            Field::Task => self.task_buf.append(text),
        }
    }

    fn switch_task(&mut self)
        ensures
            final(self)@ == old(self)@.switch_task(),
    {
        self.create_field = match self.create_field {
            Field::Task => Field::Branch,
            _ => Field::Task,
        };
    }

    fn switch_dir(&mut self)
        ensures
            final(self)@ == old(self)@.switch_dir(),
    {
        self.create_field = match self.create_field {
            Field::Dir => Field::Branch,
            _ => Field::Dir,
        };
    }

    /// The prompt for a branch and a task: Tab switches, Enter creates. A task starts the agent on
    /// it; without one the agent waits at its prompt. Enter without a branch cancels.
    pub fn key_creating(&mut self, key: KeyEvent)
        ensures
            final(self)@ == old(self)@.key_creating(key),
    {
        match key.code {
            KeyCode::Enter => {
                let branch = trimmed(self.create_buf.as_str());
                let task = trimmed(self.task_buf.as_str());
                let repo = self.create_repo;
                self.create_buf = String::new();
                self.task_buf = String::new();
                self.create_repo = None;
                self.input = InputMode::Normal;
                if let Some(repo) = repo {
                    if !branch.as_str().is_empty() {
                        let prompt = if task.as_str().is_empty() {
                            None
                        } else {
                            Some(task)
                        };
                        self.send(ClientMsg::CreateAgent { repo, branch, prompt });
                    }
                }
            },
            KeyCode::Esc => {
                self.input = InputMode::Normal;
            },
            KeyCode::Tab => self.switch_task(),
            KeyCode::Down => self.switch_task(),
            KeyCode::Up => self.switch_task(),
            KeyCode::Backspace => self.pop_active(),
            KeyCode::Char(c) => self.push_active(c),
            _ => {},
        }
    }

    /// The prompt for a directory and a branch: Tab switches, Enter registers the repository and
    /// creates the agent.
    pub fn key_creating_repo(&mut self, key: KeyEvent)
        ensures
            final(self)@ == old(self)@.key_creating_repo(key),
    {
        match key.code {
            KeyCode::Enter => {
                let dir = trimmed(self.dir_buf.as_str());
                let branch = trimmed(self.create_buf.as_str());
                if self.create_field == Field::Dir && !dir.as_str().is_empty() {
                    self.create_field = Field::Branch;
                } else if !dir.as_str().is_empty() && !branch.as_str().is_empty() {
                    let path = expand_path(dir.as_str(), &self.home);
                    self.dir_buf = String::new();
                    self.create_buf = String::new();
                    self.input = InputMode::Normal;
                    self.send(ClientMsg::CreateAgentAt { path, branch });
                }
            },
            KeyCode::Tab => self.switch_dir(),
            KeyCode::Down => self.switch_dir(),
            KeyCode::Up => self.switch_dir(),
            KeyCode::Esc => {
                self.input = InputMode::Normal;
            },
            KeyCode::Backspace => self.pop_active(),
            KeyCode::Char(c) => self.push_active(c),
            _ => {},
        }
    }

    /// The prompt for a directory: Enter registers the repository there and opens a session on its
    /// head, which has no branch and takes no task.
    pub fn key_creating_head(&mut self, key: KeyEvent)
        ensures
            final(self)@ == old(self)@.key_creating_head(key),
    {
        match key.code {
            KeyCode::Enter => {
                let dir = trimmed(self.dir_buf.as_str());
                self.dir_buf = String::new();
                self.input = InputMode::Normal;
                if !dir.as_str().is_empty() {
                    let path = expand_path(dir.as_str(), &self.home);
                    self.send(ClientMsg::CreateHeadAgentAt { path });
                }
            },
            KeyCode::Esc => {
                self.input = InputMode::Normal;
            },
            KeyCode::Backspace => {
                let _ = self.dir_buf.pop();
            },
            KeyCode::Char(c) => self.dir_buf.push(c),
            _ => {},
        }
    }

    /// The question whether to delete an agent after all.
    pub fn key_confirm(&mut self, key: KeyEvent)
        ensures
            final(self)@ == old(self)@.key_confirm(key),
    {
        let yes = match key.code {
            KeyCode::Char(c) => c == 'y' || c == 'Y',
            _ => false,
        };
        let id = self.confirm_id;
        self.confirm_id = None;
        if yes {
            if let Some(id) = id {
                self.send(ClientMsg::DeleteAgent { id, force: true });
            }
        }
        self.input = InputMode::Normal;
    }

    fn key_to(&mut self, t: Option<TerminalId>, key: KeyEvent)
        ensures
            final(self)@ == old(self)@.key_to(t, key),
    {
        if let Some(terminal) = t {
            let app_cursor = match self.parsers.get(terminal) {
                Some(p) => p.application_cursor(),
                None => false,
            };
            if let Some(bytes) = key_to_bytes(key, app_cursor) {
                self.send(ClientMsg::Input { terminal, bytes });
            }
        }
    }

    /// A key for the focused pane.
    pub fn key_pane(&mut self, key: KeyEvent)
        ensures
            final(self)@ == old(self)@.key_to(old(self)@.tree.focused_payload(), key),
    {
        let t = self.tree.focused_payload();
        self.key_to(t, key);
    }

    /// A key for mini `i`: it goes to its agent's primary terminal.
    pub fn key_mini(&mut self, key: KeyEvent, i: usize)
        ensures
            final(self)@ == old(self)@.key_to(old(self)@.mini_terminal(i as int), key),
    {
        let t = self.mini_terminal(i);
        self.key_to(t, key);
    }

    /// Leave scroll mode: show live output again, and tell the daemon to forget the place.
    pub fn exit_scroll(&mut self, t: TerminalId)
        ensures
            final(self)@ == old(self)@.exit_scroll(t),
    {
        self.scroll = None;
        self.send(ClientMsg::Scroll { terminal: t, lines: i32::MIN });
    }

    /// Scroll mode. Each key is a step for the daemon, which answers with the window to show: output
    /// that arrives meanwhile does not move the view.
    pub fn key_scroll(&mut self, key: KeyEvent, t: TerminalId)
        ensures
            final(self)@ == old(self)@.key_scroll(key, t),
    {
        let page: i32 = match self.attached.get(t) {
            Some(size) => larger_of(size.rows, 1) as i32,
            None => 24,
        };
        let half: i32 = if page / 2 < 1 {
            1
        } else {
            page / 2
        };
        let ctrl = key.modifiers.control;
        let lines: Option<i32> = match key.code {
            KeyCode::Up => Some(1),
            KeyCode::Down => Some(-1),
            KeyCode::PageUp => Some(page),
            KeyCode::PageDown => Some(-page),
            KeyCode::Esc => {
                self.exit_scroll(t);
                return;
            },
            KeyCode::Enter => {
                self.exit_scroll(t);
                return;
            },
            KeyCode::Char(c) => if c == 'q' {
                self.exit_scroll(t);
                return;
            } else if c == 'k' {
                Some(1)
            } else if c == 'j' {
                Some(-1)
            } else if c == 'y' && ctrl {
                Some(1)
            } else if c == 'e' && ctrl {
                Some(-1)
            } else if c == 'u' {
                Some(half)
            } else if c == 'd' {
                Some(-half)
            } else if c == 'g' {
                Some(i32::MAX)
            } else if c == 'G' {
                Some(i32::MIN)
            } else {
                None
            },
            _ => None,
        };
        if let Some(lines) = lines {
            self.send(ClientMsg::Scroll { terminal: t, lines });
        }
    }

    /// Resize mode: small letters and arrows nudge the boundary, capitals snap it.
    pub fn key_resize(&mut self, key: KeyEvent)
        ensures
            final(self)@ == old(self)@.key_resize(key),
    {
        if key.code == KeyCode::Esc || key.code == KeyCode::Enter {
            self.resize_mode = false;
            return;
        }
        if let Some((dir, snap)) = resize_dir(key.code) {
            if snap {
                self.tree.resize_snap(dir);
            } else {
                self.tree.resize(dir, RESIZE_STEP);
            }
            self.reconcile();
        }
    }

    fn prompt_branch(&mut self)
        ensures
            final(self)@ == old(self)@.prompt_branch(),
    {
        if let Some(repo) = self.selected_repo() {
            self.create_repo = Some(repo);
            self.create_buf = String::new();
            self.task_buf = String::new();
            self.create_field = Field::Branch;
            self.input = InputMode::Creating;
        }
    }

    /// A key in the sidebar.
    pub fn key_sidebar(&mut self, key: KeyEvent) -> (flow: Flow)
        ensures
            final(self)@ == old(self)@.key_sidebar(key).0,
            flow == old(self)@.key_sidebar(key).1,
    {
        let ctrl = key.modifiers.control;
        let page: i32 = self.sidebar_page() as i32;
        let half: i32 = if page / 2 < 1 {
            1
        } else {
            page / 2
        };
        match key.code {
            KeyCode::Down => self.move_sidebar_sel(1),
            KeyCode::Up => self.move_sidebar_sel(-1),
            KeyCode::PageDown => self.move_sidebar_sel(page),
            KeyCode::PageUp => self.move_sidebar_sel(-page),
            KeyCode::Enter => self.open_selected(),
            KeyCode::Char(c) => {
                if c == 'q' {
                    return Flow::Quit;
                } else if c == 'j' {
                    self.move_sidebar_sel(1);
                } else if c == 'k' {
                    self.move_sidebar_sel(-1);
                } else if c == 'd' && ctrl {
                    self.move_sidebar_sel(half);
                } else if c == 'u' && ctrl {
                    self.move_sidebar_sel(-half);
                } else if c == 'g' {
                    self.move_sidebar_sel(i32::MIN);
                } else if c == 'G' {
                    self.move_sidebar_sel(i32::MAX);
                } else if c == 'n' {
                    self.prompt_branch();
                } else if c == 'N' {
                    self.create_buf = String::new();
                    self.dir_buf = String::new();
                    self.create_field = Field::Dir;
                    self.input = InputMode::CreatingRepo;
                } else if c == 'h' {
                    if let Some(repo) = self.selected_repo() {
                        self.send(ClientMsg::CreateHeadAgent { repo });
                    }
                } else if c == 'H' {
                    self.dir_buf = String::new();
                    self.create_field = Field::Dir;
                    self.input = InputMode::CreatingHead;
                } else if c == 'd' {
                    if let Some(id) = self.selected_agent() {
                        self.send(ClientMsg::DeleteAgent { id, force: false });
                    }
                } else if c == 'r' {
                    if let Some(id) = self.selected_agent() {
                        self.send(ClientMsg::ResumeAgent { id });
                    }
                } else if c == 'P' {
                    if let Some(repo) = self.selected_repo() {
                        self.send(ClientMsg::DoctorRepo { repo });
                    }
                } else if c == 'l' {
                    self.open_selected();
                } else if c == 'm' {
                    if let Some(id) = self.selected_agent() {
                        self.open_mini(id);
                    }
                }
            },
            _ => {},
        }
        Flow::Continue
    }

    fn leave_empty_panes(&mut self)
        ensures
            final(self)@ == old(self)@.leave_empty_panes(),
    {
        if self.tree.is_empty() {
            self.focus = Focus::Sidebar;
        }
    }

    fn close_pane(&mut self)
        ensures
            final(self)@ == old(self)@.close_pane(),
    {
        let closed = self.tree.focused_payload();
        self.tree.close();
        if let Some(t) = closed {
            if !self.is_primary(t) {
                self.send(ClientMsg::CloseTerminal { terminal: t });
                let _ = self.terminals.take(t);
                let _ = self.parsers.take(t);
                let _ = self.attached.take(t);
                let _ = self.passthrough.take(t);
            }
        }
        self.leave_empty_panes();
        self.reconcile();
    }

    fn peek(&mut self)
        ensures
            final(self)@ == old(self)@.peek(),
    {
        self.minis_hidden = !self.minis_hidden;
        if self.minis_hidden {
            if let Focus::Mini(_) = self.focus {
                self.focus = self.focus_return;
            }
        }
        self.reconcile();
    }

    fn toggle_mini(&mut self, i: usize)
        ensures
            final(self)@ == old(self)@.toggle_mini(i as int),
    {
        if i < self.minis.len() {
            let agent = self.minis[i];
            if has_id(&self.minimized, agent) {
                self.minimized = remove_id(&self.minimized, agent);
            } else {
                self.minimized.push(agent);
            }
            self.reconcile();
        }
    }

    fn begin_scroll(&mut self)
        ensures
            final(self)@ == old(self)@.begin_scroll(),
    {
        if let Some(t) = self.tree.focused_payload() {
            let alternate = match self.parsers.get(t) {
                Some(p) => p.alternate_screen(),
                None => false,
            };
            if alternate {
                self.info = owned("no scrollback here — this pane runs a full-screen app");
            } else {
                // One line back, so that the answer is a window that lies back.
                self.send(ClientMsg::Scroll { terminal: t, lines: 1 });
            }
        }
    }

    fn type_control(&mut self, c: char)
        ensures
            final(self)@ == old(self)@.type_control(c),
    {
        if let Some(terminal) = self.tree.focused_payload() {
            if let Some(byte) = ctrl_byte(c) {
                let bytes: Vec<u8> = vec![byte];
                assert(bytes@ =~= seq![byte]);
                self.send(ClientMsg::Input { terminal, bytes });
            }
        }
    }

    fn open_numbered(&mut self, c: char)
        ensures
            final(self)@ == match old(self)@.numbered_agent(c) {
                Some(id) => old(self)@.open_agent(id),
                None => old(self)@,
            },
    {
        if let Some(id) = self.numbered_agent(c) {
            self.open_agent(id);
        }
    }

    /// The key that follows the prefix.
    pub fn key_prefix(&mut self, key: KeyEvent)
        ensures
            final(self)@ == old(self)@.key_prefix(key),
    {
        match key.code {
            KeyCode::Enter => {
                if let Focus::Mini(i) = self.focus {
                    if i < self.minis.len() {
                        let agent = self.minis[i];
                        self.activate(agent);
                    }
                }
            },
            KeyCode::Tab => self.jump_next_unread(),
            KeyCode::Char(c) => {
                if key.modifiers.control && ctrl_byte(c).is_some() {
                    self.type_control(c);
                } else if c == '%' {
                    self.split(Axis::LeftRight);
                } else if c == '"' {
                    self.split(Axis::TopBottom);
                } else if c == 'x' {
                    match self.focus {
                        Focus::Mini(i) => self.close_mini(i),
                        _ => self.close_pane(),
                    }
                } else if c == 'z' && self.minis.len() > 0 {
                    self.peek();
                } else if c == '-' {
                    match self.focus {
                        Focus::Mini(i) => self.toggle_mini(i),
                        _ => {
                            if let Some(id) = self.previous_agent() {
                                self.open_agent(id);
                            }
                        },
                    }
                } else if c == 'r' && !self.tree.is_empty() {
                    self.resize_mode = true;
                } else if c == '[' && self.focus == Focus::Panes {
                    self.begin_scroll();
                } else if (c == 'H' || c == 'J' || c == 'K' || c == 'L') && !self.tree.is_empty() {
                    if let Some((dir, _snap)) = resize_dir(key.code) {
                        self.tree.resize_snap(dir);
                        self.resize_mode = true;
                        self.reconcile();
                    }
                } else if '0' <= c && c <= '9' {
                    self.open_numbered(c);
                }
            },
            _ => {},
        }
    }

    /// Whether the program in the focused pane wants the movement keys for itself.
    pub fn focused_is_passthrough(&self) -> (b: bool)
        ensures
            b == self@.focused_is_passthrough(),
    {
        match self.tree.focused_payload() {
            Some(t) => match self.passthrough.get(t) {
                Some(p) => *p,
                None => false,
            },
            None => false,
        }
    }

    fn key_focused(&mut self, key: KeyEvent) -> (flow: Flow)
        ensures
            final(self)@ == old(self)@.key_focused(key).0,
            flow == old(self)@.key_focused(key).1,
    {
        match self.focus {
            Focus::Sidebar => self.key_sidebar(key),
            Focus::Panes => {
                self.key_pane(key);
                Flow::Continue
            },
            Focus::Mini(i) => {
                self.key_mini(key, i);
                Flow::Continue
            },
        }
    }

    fn key_move(&mut self, key: KeyEvent, dir: Dir)
        ensures
            final(self)@ == old(self)@.key_move(key, dir),
    {
        // A program that moves between splits of its own gets the key, and hands movement back when
        // it is at its edge.
        if self.focus == Focus::Panes && self.focused_is_passthrough() {
            self.key_pane(key);
        } else if self.focus == Focus::Sidebar && (dir == Dir::Up || dir == Dir::Down) {
            self.jump_unread(dir == Dir::Down);
        } else {
            self.navigate(dir);
        }
    }

    fn key_plain(&mut self, key: KeyEvent) -> (flow: Flow)
        ensures
            final(self)@ == old(self)@.key_plain(key).0,
            flow == old(self)@.key_plain(key).1,
    {
        if let KeyCode::Char(c) = key.code {
            // Every digit with Super is a shortcut, also one past the last agent: it never reaches a
            // program.
            if key.modifiers.super_key && '0' <= c && c <= '9' {
                self.open_numbered(c);
                return Flow::Continue;
            }
            if is_ctrl(key, 'b') {
                self.prefix = true;
                return Flow::Continue;
            }
            if let Some(dir) = ctrl_dir(key) {
                self.key_move(key, dir);
                return Flow::Continue;
            }
        }
        self.key_focused(key)
    }

    fn key_normal(&mut self, key: KeyEvent) -> (flow: Flow)
        ensures
            final(self)@ == old(self)@.key_normal(key).0,
            flow == old(self)@.key_normal(key).1,
    {
        let scrolled = match &self.scroll {
            Some(s) => Some(s.terminal),
            None => None,
        };
        if let Some(t) = scrolled {
            if self.parsers.has(t) {
                self.key_scroll(key, t);
                return Flow::Continue;
            }
            self.scroll = None;
        }
        if self.resize_mode {
            self.key_resize(key);
            return Flow::Continue;
        }
        if self.prefix {
            self.prefix = false;
            self.key_prefix(key);
            return Flow::Continue;
        }
        self.key_plain(key)
    }

    /// One key press.
    pub fn on_key(&mut self, key: KeyEvent) -> (flow: Flow)
        ensures
            final(self)@ == old(self)@.on_key(key).0,
            flow == old(self)@.on_key(key).1,
    {
        proof {
            reveal(AppView::on_key);
        }
        if is_ctrl(key, 'q') {
            return Flow::Quit;
        }
        if self.input == InputMode::Normal {
            self.status = String::new();
            self.info = String::new();
            self.selection = None;
        }
        match self.input {
            InputMode::Creating => {
                self.key_creating(key);
                Flow::Continue
            },
            InputMode::CreatingRepo => {
                self.key_creating_repo(key);
                Flow::Continue
            },
            InputMode::CreatingHead => {
                self.key_creating_head(key);
                Flow::Continue
            },
            InputMode::Confirming => {
                self.key_confirm(key);
                Flow::Continue
            },
            InputMode::Normal => self.key_normal(key),
        }
    }

    /// A paste, as one piece. A prompt takes it without control characters, so that a stray line
    /// break cannot submit it; a terminal gets it in one write.
    pub fn on_paste(&mut self, text: &str)
        ensures
            final(self)@ == old(self)@.on_paste(text@),
    {
        match self.input {
            InputMode::Confirming => {},
            InputMode::Normal => {
                if self.scroll.is_some() || self.resize_mode || self.prefix {
                    return;
                }
                if let Some(terminal) = self.focused_terminal() {
                    let bracketed = match self.parsers.get(terminal) {
                        Some(p) => p.bracketed_paste(),
                        None => false,
                    };
                    let bytes = encode_paste(text, bracketed);
                    self.send(ClientMsg::Input { terminal, bytes });
                }
            },
            _ => {
                let clean = strip_controls(text);
                self.append_active(clean.as_str());
            },
        }
    }

    /// The outer terminal has another size.
    pub fn on_resize(&mut self, cols: u16, rows: u16)
        ensures
            final(self)@ == old(self)@.on_resize(cols, rows),
    {
        self.area = main_area(cols, rows);
        self.reconcile();
    }

    /// A window of history arrived. A pane without history says so instead of entering a mode whose
    /// keys could not move anything. A reply for one pane does not disturb the window that is shown of
    /// another.
    pub fn on_scroll_view(&mut self, t: TerminalId, offset: usize, available: usize, bytes: &[u8])
        ensures
            final(self)@ == old(self)@.on_scroll_view(t, offset, available, bytes@),
    {
        if offset == 0 && !self.scrolls(t) {
            if available == 0 {
                self.info = owned("no scrollback here yet");
            }
            return;
        }
        if self.scroll.is_some() && !self.scrolls(t) {
            return;
        }
        let size = match self.attached.get(t) {
            Some(size) => *size,
            None => {
                return;
            },
        };
        let parser = serve_screen(size, bytes);
        self.scroll = Some(Scroll { terminal: t, parser, offset, available });
    }
}

} // verus!
