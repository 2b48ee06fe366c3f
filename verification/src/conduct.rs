//! What a user can count on: where keys and pastes go, where movement leads, and that looking
//! elsewhere ends nothing.

use vstd::prelude::*;
use crate::emulator::{vt_bracketed_paste, VtStep};
use crate::geometry::{Dir, Size};
use crate::ids::TerminalId;
use crate::input::{control_byte, key_bytes, paste_bytes, KeyCode, KeyEvent};
use crate::keys::{move_dir, with_ctrl};
use crate::laws::{desired_depends_on, reconciling_keeps_the_screen};
use crate::pane::Nav;
use crate::selection::{nearest_cell, selected_text, Selection};
use crate::state::{AppView, Flow, Focus, InputMode};
use crate::table::{drop_key, lookup};
use crate::wire::MsgView;
use crate::workspace::gone;

verus! {

// --- typing ---

/// Whether the client is in no mode that takes keys for itself.
pub open spec fn plain_mode(v: AppView) -> bool {
    v.input == InputMode::Normal && v.scroll is None && !v.resize_mode && !v.prefix
}

/// Whether a key is reserved everywhere: Ctrl+Q, Ctrl+B, the movement keys, and Cmd with a digit.
pub open spec fn reserved(key: KeyEvent) -> bool {
    ||| with_ctrl(key, 'q')
    ||| with_ctrl(key, 'b')
    ||| move_dir(key) is Some
    ||| key.code matches KeyCode::Char(c) && key.modifiers.super_key && '0' <= c <= '9'
}

/// In a pane or a mini every key that is not reserved is typed into that terminal, and does nothing
/// else but dismiss a notice and a selection.
pub proof fn keys_are_typed_into_the_terminal_in_focus(
    v: AppView,
    key: KeyEvent,
    t: TerminalId,
    bytes: Seq<u8>,
)
    requires
        plain_mode(v),
        !reserved(key),
        v.focused_terminal() == Some(t),
        key_bytes(key, v.app_cursor(t)) == Some(bytes),
    ensures
        v.on_key(key) == (v.dismissed().type_into(t, bytes), Flow::Continue),
{
    reveal(AppView::on_key);
    let w = v.dismissed();
    assert(w.scroll_checked() == w);
    assert(w.app_cursor(t) == v.app_cursor(t));
}

/// A program that handles splits of its own gets the movement keys as well.
pub proof fn movement_is_passed_through(
    v: AppView,
    key: KeyEvent,
    t: TerminalId,
    bytes: Seq<u8>,
)
    requires
        plain_mode(v),
        move_dir(key) is Some,
        v.focus == Focus::Panes,
        v.tree.focused_payload() == Some(t),
        v.focused_is_passthrough(),
        key_bytes(key, v.app_cursor(t)) == Some(bytes),
    ensures
        v.on_key(key) == (v.dismissed().type_into(t, bytes), Flow::Continue),
{
    reveal(AppView::on_key);
    let w = v.dismissed();
    assert(w.scroll_checked() == w);
    assert(w.app_cursor(t) == v.app_cursor(t));
}

/// After the prefix, a key with Ctrl held reaches the focused pane as a control character, also one
/// that is reserved or that is a command without Ctrl.
pub proof fn control_keys_follow_the_prefix(v: AppView, key: KeyEvent, c: char, b: u8, t: TerminalId)
    requires
        key.code == KeyCode::Char(c),
        key.modifiers.control,
        control_byte(c) == Some(b),
        v.tree.focused_payload() == Some(t),
    ensures
        v.key_prefix(key) == v.type_into(t, seq![b]),
{
}

/// A paste into a terminal is one write, however long it is.
pub proof fn pastes_are_one_write(v: AppView, text: Seq<char>, t: TerminalId)
    requires
        plain_mode(v),
        v.focused_terminal() == Some(t),
    ensures
        v.on_paste(text).out == v.out.push(
            MsgView::Input {
                terminal: t,
                bytes: paste_bytes(
                    text,
                    match lookup(v.parsers, t) {
                        Some(h) => vt_bracketed_paste(h),
                        None => false,
                    },
                ),
            },
        ),
{
}

// --- moving ---

/// Off the left edge of the panes lies the sidebar.
pub proof fn left_of_the_panes_is_the_sidebar(v: AppView)
    requires
        v.focus == Focus::Panes,
        v.tree.nav_result(Dir::Left, v.area) == Nav::ExitLeft,
    ensures
        v.navigate(Dir::Left).focus == Focus::Sidebar,
{
    reveal(AppView::navigate);
}

/// Off the bottom and the right edge of the panes lie the minis.
pub proof fn past_the_panes_are_the_minis(v: AppView, dir: Dir)
    requires
        v.focus == Focus::Panes,
        dir == Dir::Down || dir == Dir::Right,
        v.tree.nav_result(dir, v.area) == Nav::Stay,
        v.minis.len() > 0,
    ensures
        v.navigate(dir).focus == Focus::Mini(0),
        v.navigate(dir).focus_return == Focus::Panes,
{
    reveal(AppView::navigate);
}

/// Left and right walk the row of minis; up, and left of the first, climb back to the panes, or to
/// the sidebar where there are none.
pub proof fn minis_are_walked(v: AppView, i: usize)
    requires
        v.focus == Focus::Mini(i),
        i < v.minis.len(),
    ensures
        i > 0 ==> v.navigate(Dir::Left).focus == Focus::Mini((i - 1) as usize),
        i + 1 < v.minis.len() ==> v.navigate(Dir::Right).focus == Focus::Mini((i + 1) as usize),
        v.tree.root is Some ==> v.navigate(Dir::Up).focus == Focus::Panes,
        v.tree.root is None ==> v.navigate(Dir::Up).focus == Focus::Sidebar,
        i == 0 ==> v.navigate(Dir::Left).focus == v.navigate(Dir::Up).focus,
{
    reveal(AppView::navigate);
}

// --- looking elsewhere ---

/// Hiding the minis and showing them again leaves the same terminals on screen, at the same sizes.
pub proof fn peeking_twice_changes_nothing_on_screen(v: AppView)
    ensures
        v.peek().peek().minis_hidden == v.minis_hidden,
        v.peek().peek().minis == v.minis,
        v.peek().peek().tree == v.tree,
        v.peek().peek().desired() == v.desired(),
{
    let a = AppView {
        minis_hidden: !v.minis_hidden,
        focus: if !v.minis_hidden && v.focus is Mini {
            v.focus_return
        } else {
            v.focus
        },
        ..v
    };
    reconciling_keeps_the_screen(a);
    let p = a.reconcile();
    let b = AppView {
        minis_hidden: !p.minis_hidden,
        focus: if !p.minis_hidden && p.focus is Mini {
            p.focus_return
        } else {
            p.focus
        },
        ..p
    };
    reconciling_keeps_the_screen(b);
    desired_depends_on(v, v.peek().peek());
}

/// Whether a message only says what to show, or what to restore later.
pub open spec fn about_views(msg: MsgView) -> bool {
    msg is Attach || msg is Detach || msg is Scroll || msg is SetLayout || msg is SetMinis
        || msg is SetActive || msg is SetPrevious
}

/// Whether `w` asks for what `v` asks for and then only for views.
pub open spec fn asks_for_views(v: AppView, w: AppView) -> bool {
    &&& v.out.len() <= w.out.len()
    &&& forall|i: int| 0 <= i < v.out.len() ==> #[trigger] w.out[i] == v.out[i]
    &&& forall|i: int| v.out.len() <= i < w.out.len() ==> about_views(#[trigger] w.out[i])
}

pub(crate) proof fn attaching_asks_for_views(v: AppView, d: Seq<(TerminalId, Size)>, n: int)
    ensures
        asks_for_views(v, v.attach_all(d, n)),
    decreases n,
{
    if n > 0 {
        attaching_asks_for_views(v, d, n - 1);
    }
}

pub(crate) proof fn detaching_asks_for_views(v: AppView, ts: Seq<TerminalId>, n: int)
    ensures
        asks_for_views(v, v.detach_all(ts, n)),
    decreases n,
{
    if n > 0 {
        detaching_asks_for_views(v, ts, n - 1);
    }
}

/// Reconciling neither starts nor ends anything: it asks to see terminals, or no longer to see them.
pub proof fn reconciling_asks_for_views(v: AppView)
    ensures
        asks_for_views(v, v.reconcile()),
{
    reveal(AppView::reconcile);
    let d = v.desired();
    let named = AppView { terminals: v.owners(), ..v };
    attaching_asks_for_views(named, d, d.len() as int);
    let a = named.attach_all(d, d.len() as int);
    let ts = gone(a.attached, d, a.attached.len() as int);
    detaching_asks_for_views(a, ts, ts.len() as int);
    let b = a.detach_all(ts, ts.len() as int);
    assert(asks_for_views(v, b));
    assert(asks_for_views(b, b.persist()));
}

/// Closing the pane of an agent's own terminal ends nothing: the agent goes on running.
pub proof fn closing_the_agents_pane_ends_nothing(v: AppView, t: TerminalId)
    requires
        v.tree.focused_payload() == Some(t),
        v.is_primary(t),
    ensures
        asks_for_views(v, v.close_pane()),
{
    reconciling_asks_for_views(AppView { tree: v.tree.close(), ..v }.leave_empty_panes());
}

/// Closing the pane of a shell ends that shell, and ends or starts nothing else.
pub proof fn closing_a_shell_ends_it_alone(v: AppView, t: TerminalId)
    requires
        v.tree.focused_payload() == Some(t),
        !v.is_primary(t),
    ensures
        asks_for_views(v.send(MsgView::CloseTerminal { terminal: t }), v.close_pane()),
{
    let c = AppView { tree: v.tree.close(), ..v };
    let w = AppView {
        terminals: drop_key(c.terminals, t),
        parsers: drop_key(c.parsers, t),
        attached: drop_key(c.attached, t),
        passthrough: drop_key(c.passthrough, t),
        ..c
    }.send(MsgView::CloseTerminal { terminal: t });
    reconciling_asks_for_views(w.leave_empty_panes());
}

// --- scrolling back ---

/// A reply for one pane leaves the window alone that is shown of another.
pub proof fn a_reply_disturbs_no_other_window(
    v: AppView,
    t: TerminalId,
    offset: usize,
    available: usize,
    bytes: Seq<u8>,
)
    requires
        v.scroll is Some,
        !v.scrolls(t),
    ensures
        v.on_scroll_view(t, offset, available, bytes).scroll == v.scroll,
{
}

// --- selecting ---

/// What is copied is read off the screen that is drawn, in a pane that is scrolled back as well.
pub proof fn what_is_drawn_is_copied(v: AppView, sel: Selection, h: Seq<VtStep>)
    requires
        v.selection == Some(sel),
        v.screen_for(sel.terminal) == Some(h),
    ensures
        v.selection_text() == Some(selected_text(h, sel)),
{
}

/// A drag never leaves the pane it began in, wherever the pointer goes.
pub proof fn drags_stay_in_their_pane(v: AppView, col: u16, row: u16)
    requires
        v.selection is Some,
        v.selection->0.inner.fits(),
        v.selection->0.inner.width > 0,
        v.selection->0.inner.height > 0,
    ensures
        v.drag(col, row).selection is Some,
        ({
            let sel = v.drag(col, row).selection->0;
            &&& sel.inner == v.selection->0.inner && sel.terminal == v.selection->0.terminal
            &&& sel.head == nearest_cell(sel.inner, col, row)
            &&& sel.inner.has(sel.head.0, sel.head.1)
            &&& sel.inner.has(col, row) ==> sel.head == (col, row)
        }),
{
}

} // verus!
