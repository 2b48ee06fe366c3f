//! What the mouse is for: it focuses what it is pressed on, selects and copies text, and its wheel
//! scrolls what is under it.

use vstd::prelude::*;
use vstd::utf8::encode_utf8;
use crate::emulator::{vt_mouse_encoding, vt_mouse_mode, MouseEncoding, MouseMode, VtStep};
use crate::geometry::Rect;
use crate::ids::TerminalId;
use crate::input::{MouseButton, MouseEvent, MouseEventKind};
use crate::laws::mini_x_depends_on;
use crate::mouse::{pane_from, rect_from, wheel_bytes};
use crate::pane::Placement;
use crate::selection::{clipboard_text, selected_text, token_at, Selection};
use crate::spatial::focusing_a_payload_finds_it;
use crate::state::{AppView, Click, Focus};
use crate::table::lookup;
use crate::text::{decimal, trim};
use crate::wire::MsgView;

verus! {

// --- what is under the pointer ---

proof fn pane_from_is_first(places: Seq<Placement<TerminalId>>, col: u16, row: u16, i: int, k: int)
    requires
        0 <= i,
    ensures
        pane_from(places, col, row, i) matches Some(j) ==> i <= j < places.len()
            && places[j].rect.has(col, row) && places[j].payload is Some,
        i <= k < places.len() && places[k].rect.has(col, row) && places[k].payload is Some
            ==> pane_from(places, col, row, i) is Some,
    decreases places.len() - i,
{
    if i < places.len() && !(places[i].rect.has(col, row) && places[i].payload is Some) {
        pane_from_is_first(places, col, row, i + 1, k);
    }
}

/// The pane under the pointer is one whose rectangle holds the cell; its inside is what lies within
/// the border. Where a pane with a terminal holds the cell, one is found.
pub proof fn the_pane_under_the_pointer_holds_it(v: AppView, col: u16, row: u16, k: int)
    ensures
        ({
            let places = v.tree.layout(v.area);
            &&& v.pane_at(col, row) matches Some((t, inner)) ==> exists|i: int|
                0 <= i < places.len() && (#[trigger] places[i]).payload == Some(t)
                    && places[i].rect.x <= col < places[i].rect.x + places[i].rect.width
                    && places[i].rect.y <= row < places[i].rect.y + places[i].rect.height && inner
                    == places[i].rect.spec_inner()
            &&& 0 <= k < places.len() && places[k].payload is Some && places[k].rect.has(col, row)
                ==> v.pane_at(col, row) is Some
        }),
{
    let places = v.tree.layout(v.area);
    pane_from_is_first(places, col, row, 0, k);
    if let Some((t, inner)) = v.pane_at(col, row) {
        let i = pane_from(places, col, row, 0)->0;
        assert(places[i].payload == Some(t));
    }
}

proof fn rect_from_is_first(rects: Seq<Rect>, col: u16, row: u16, i: int, k: int)
    requires
        0 <= i,
    ensures
        rect_from(rects, col, row, i) matches Some(j) ==> i <= j < rects.len() && rects[j].has(
            col,
            row,
        ),
        i <= k < rects.len() && rects[k].has(col, row) ==> rect_from(rects, col, row, i) is Some,
    decreases rects.len() - i,
{
    if i < rects.len() && !rects[i].has(col, row) {
        rect_from_is_first(rects, col, row, i + 1, k);
    }
}

/// The mini under the pointer is one whose window holds the cell; where a mini is drawn over a cell,
/// one is found, also where a pane lies below it.
pub proof fn the_mini_under_the_pointer_holds_it(v: AppView, band: Rect, col: u16, row: u16, k: int)
    requires
        v.minis_band() == Some(band),
    ensures
        ({
            let rects = v.mini_rects(band);
            &&& v.mini_at(col, row) matches Some((i, inner)) ==> 0 <= i < rects.len() && rects[i].x
                <= col < rects[i].x + rects[i].width && rects[i].y <= row < rects[i].y
                + rects[i].height && inner == rects[i].spec_inner()
            &&& 0 <= k < rects.len() && rects[k].has(col, row) ==> v.mini_at(col, row) is Some
        }),
{
    rect_from_is_first(v.mini_rects(band), col, row, 0, k);
}

/// The inside of a bordered window is all of it but one cell on each side.
pub proof fn the_inside_leaves_out_the_border(r: Rect, col: u16, row: u16)
    requires
        r.fits(),
        r.width >= 2,
        r.height >= 2,
    ensures
        r.spec_inner().has(col, row) <==> r.x < col < r.x + r.width - 1 && r.y < row < r.y + r.height
            - 1,
{
}

/// Dropping the selection moves no window.
proof fn minis_lie_where_they_lay(v: AppView, col: u16, row: u16)
    ensures
        (AppView { selection: None, ..v }).mini_at(col, row) == v.mini_at(col, row),
{
    let w = AppView { selection: None, ..v };
    if let Some(band) = v.minis_band() {
        assert forall|i: int| 0 <= i < v.minis.len() implies w.mini_rects(band)[i] == v.mini_rects(
            band,
        )[i] by {
            mini_x_depends_on(v, w, band, i);
        }
        assert(w.mini_rects(band) =~= v.mini_rects(band));
    }
}

// --- the wheel ---

/// Whether the wheel over terminal `t` is the client's: no program asked for the mouse.
pub open spec fn wheel_is_ours(v: AppView, t: TerminalId) -> bool {
    match lookup(v.parsers, t) {
        Some(h) => vt_mouse_mode(h) == MouseMode::Off,
        None => true,
    }
}

/// Whether the pointer is over the pane of `t` and over nothing else.
pub open spec fn over_pane(v: AppView, me: MouseEvent, t: TerminalId, inner: Rect) -> bool {
    &&& !(me.column < v.area.x && me.row < v.area.y + v.area.height)
    &&& v.mini_at(me.column, me.row) is None
    &&& v.pane_at(me.column, me.row) == Some((t, inner))
}

/// A notch up asks for three lines of history; one down, over a pane scrolled back by more than that,
/// asks for three lines less, the opposite of it, and scroll mode goes on. Down to the live view it
/// ends, and the daemon is told; over a pane that is not scrolled back a notch down does nothing.
pub proof fn the_wheel_scrolls_three_lines(v: AppView, me: MouseEvent, t: TerminalId, inner: Rect)
    requires
        over_pane(v, me, t, inner),
        wheel_is_ours(v, t),
    ensures
        me.kind == MouseEventKind::ScrollUp ==> v.on_mouse(me) == (AppView {
            out: v.out.push(MsgView::Scroll { terminal: t, lines: 3 }),
            ..v
        }),
        me.kind == MouseEventKind::ScrollDown && v.scroll is Some && (v.scroll->0).terminal == t && (
        v.scroll->0).offset > 3 ==> v.on_mouse(me) == (AppView {
            out: v.out.push(MsgView::Scroll { terminal: t, lines: -3i32 }),
            ..v
        }),
        me.kind == MouseEventKind::ScrollDown && v.scroll is Some && (v.scroll->0).terminal == t && (
        v.scroll->0).offset <= 3 ==> v.on_mouse(me) == (AppView {
            scroll: None,
            out: v.out.push(MsgView::Scroll { terminal: t, lines: i32::MIN }),
            ..v
        }),
        me.kind == MouseEventKind::ScrollDown && (v.scroll is None || (v.scroll->0).terminal != t)
            ==> v.on_mouse(me) == v,
{
    reveal(AppView::on_mouse);
    assert(!v.in_sidebar(me.column, me.row));
}

/// The wheel over a mini that is not shrunk scrolls its terminal in the same way.
pub proof fn the_wheel_scrolls_minis(v: AppView, me: MouseEvent, i: int, inner: Rect, t: TerminalId)
    requires
        !(me.column < v.area.x && me.row < v.area.y + v.area.height),
        v.mini_at(me.column, me.row) == Some((i, inner)),
        0 <= i < v.minis.len(),
        !v.minimized.contains(v.minis[i]),
        v.mini_terminal(i) == Some(t),
        wheel_is_ours(v, t),
    ensures
        me.kind == MouseEventKind::ScrollUp ==> v.on_mouse(me) == (AppView {
            out: v.out.push(MsgView::Scroll { terminal: t, lines: 3 }),
            ..v
        }),
        me.kind == MouseEventKind::ScrollDown && v.scroll is Some && (v.scroll->0).terminal == t && (
        v.scroll->0).offset > 3 ==> v.on_mouse(me) == (AppView {
            out: v.out.push(MsgView::Scroll { terminal: t, lines: -3i32 }),
            ..v
        }),
{
    reveal(AppView::on_mouse);
    assert(!v.in_sidebar(me.column, me.row));
}

/// A program that asked for the mouse gets the notch, and nothing scrolls.
pub proof fn programs_get_the_wheel(
    v: AppView,
    me: MouseEvent,
    t: TerminalId,
    inner: Rect,
    h: Seq<VtStep>,
)
    requires
        over_pane(v, me, t, inner),
        lookup(v.parsers, t) == Some(h),
        vt_mouse_mode(h) != MouseMode::Off,
        me.kind == MouseEventKind::ScrollUp || me.kind == MouseEventKind::ScrollDown,
    ensures
        v.on_mouse(me) == (AppView {
            out: v.out.push(
                MsgView::Input {
                    terminal: t,
                    bytes: wheel_bytes(
                        vt_mouse_encoding(h),
                        me.kind == MouseEventKind::ScrollUp,
                        me.column,
                        me.row,
                        inner,
                    ),
                },
            ),
            ..v
        }),
{
    reveal(AppView::on_mouse);
    assert(!v.in_sidebar(me.column, me.row));
}

/// A notch is written with the cell it was turned over, counted from one at the corner of the pane:
/// button 64 for up, 65 for down, in decimals where the program asked for them, otherwise in bytes
/// with 32 added.
pub proof fn notches_name_their_cell(encoding: MouseEncoding, up: bool, col: u16, row: u16, inner: Rect)
    requires
        inner.fits(),
        inner.has(col, row),
    ensures
        ({
            let (x, y) = ((col - inner.x + 1) as nat, (row - inner.y + 1) as nat);
            let bytes = wheel_bytes(encoding, up, col, row, inner);
            &&& encoding == MouseEncoding::Sgr && up ==> bytes == encode_utf8(
                "\u{1b}[<"@ + decimal(64) + seq![';'] + decimal(x) + seq![';'] + decimal(y) + seq![
                    'M',
                ],
            )
            &&& encoding == MouseEncoding::Sgr && !up ==> bytes == encode_utf8(
                "\u{1b}[<"@ + decimal(65) + seq![';'] + decimal(x) + seq![';'] + decimal(y) + seq![
                    'M',
                ],
            )
            &&& encoding != MouseEncoding::Sgr ==> {
                &&& bytes.len() == 6
                &&& bytes[0] == 0x1b && bytes[1] == 0x5b && bytes[2] == 0x4d
                &&& bytes[3] == if up {
                    96int
                } else {
                    97
                }
                &&& x <= 223 ==> bytes[4] == 32 + x
                &&& y <= 223 ==> bytes[5] == 32 + y
                &&& x > 223 ==> bytes[4] == 255
                &&& y > 223 ==> bytes[5] == 255
            }
        }),
{
}

/// Over the sidebar the wheel moves its view by three rows, up or down, no further than its ends; the
/// cursor stays on its row, and no terminal hears of it.
pub proof fn the_wheel_moves_the_sidebar(v: AppView, me: MouseEvent)
    requires
        me.column < v.area.x,
        me.row < v.area.spec_bottom(),
        me.kind == MouseEventKind::ScrollUp || me.kind == MouseEventKind::ScrollDown,
        v.rows().len() <= usize::MAX,
        v.sidebar_top + 3 <= usize::MAX,
    ensures
        ({
            let w = v.on_mouse(me);
            let most = if v.rows().len() > v.page() {
                v.rows().len() - v.page()
            } else {
                0
            };
            &&& w == AppView { sidebar_top: w.sidebar_top, ..v }
            &&& v.sidebar_top <= most ==> {
                &&& me.kind == MouseEventKind::ScrollUp ==> w.sidebar_top == if v.sidebar_top < 3 {
                    0
                } else {
                    v.sidebar_top - 3
                }
                &&& me.kind == MouseEventKind::ScrollDown ==> w.sidebar_top == if v.sidebar_top + 3
                    > most {
                    most
                } else {
                    v.sidebar_top + 3
                }
            }
        }),
{
    reveal(AppView::on_mouse);
}

// --- pressing ---

/// A press in the sidebar focuses it, and only drops the selection.
pub proof fn a_press_focuses_the_sidebar(v: AppView, me: MouseEvent)
    requires
        me.kind == MouseEventKind::Down(MouseButton::Left),
        me.column < v.area.x,
        me.row < v.area.spec_bottom(),
    ensures
        v.on_mouse(me) == (AppView { focus: Focus::Sidebar, selection: None, ..v }),
{
    reveal(AppView::on_mouse);
}

/// A press on a mini focuses it, and remembers where the focus came from.
pub proof fn a_press_focuses_the_mini(v: AppView, me: MouseEvent, i: int, inner: Rect)
    requires
        me.kind == MouseEventKind::Down(MouseButton::Left),
        !(me.column < v.area.x && me.row < v.area.y + v.area.height),
        v.mini_at(me.column, me.row) == Some((i, inner)),
        0 <= i <= usize::MAX,
    ensures
        ({
            let w = v.on_mouse(me);
            &&& w.focus == Focus::Mini(i as usize)
            &&& !(v.focus is Mini) ==> w.focus_return == v.focus
            &&& v.focus is Mini ==> w.focus_return == v.focus_return
            &&& w.minis == v.minis && w.tree == v.tree && w.out == v.out && w.selection is None
        }),
{
    reveal(AppView::on_mouse);
    let w = AppView { selection: None, ..v };
    assert(!w.in_sidebar(me.column, me.row));
    minis_lie_where_they_lay(v, me.column, me.row);
}

/// Whether a press is the second half of a double-click: on the same cell of the same terminal, not
/// more than four tenths of a second after the first.
pub open spec fn second_press(v: AppView, me: MouseEvent, t: TerminalId) -> bool {
    match v.last_click {
        Some(c) => c.terminal == t && c.column == me.column && c.row == me.row && v.tick - c.at
            <= 400_000_000,
        None => false,
    }
}

/// A press on a pane focuses that pane. A first press may begin a selection at its cell, but selects
/// nothing yet; a second one selects the token there, or nothing. Nothing is sent.
pub proof fn a_press_focuses_the_pane(v: AppView, me: MouseEvent, t: TerminalId, inner: Rect)
    requires
        me.kind == MouseEventKind::Down(MouseButton::Left),
        over_pane(v, me, t, inner),
        v.tree.wf(),
    ensures
        ({
            let w = v.on_mouse(me);
            &&& w.focus == Focus::Panes
            &&& w.tree.focused_payload() == Some(t)
            &&& w.tree.root == v.tree.root
            &&& w.out == v.out && w.scroll == v.scroll && w.minis == v.minis
            &&& !second_press(v, me, t) ==> {
                &&& w.last_click == Some(
                    Click { at: v.tick, column: me.column, row: me.row, terminal: t },
                )
                &&& w.selection matches Some(sel) && !sel.active && sel.terminal == t && sel.inner
                    == inner && sel.anchor == sel.head && (inner.fits() && inner.has(
                    me.column,
                    me.row,
                ) ==> sel.anchor == (me.column, me.row))
            }
            &&& second_press(v, me, t) ==> {
                &&& w.last_click is None
                &&& w.selection == match v.screen_for(t) {
                    Some(h) => token_at(h, t, inner, me.column, me.row),
                    None => None,
                }
            }
        }),
{
    reveal(AppView::on_mouse);
    let a = AppView { selection: None, ..v };
    assert(!a.in_sidebar(me.column, me.row));
    minis_lie_where_they_lay(v, me.column, me.row);
    assert(a.pane_at(me.column, me.row) == Some((t, inner)));
    let places = v.tree.layout(v.area);
    pane_from_is_first(places, me.column, me.row, 0, 0);
    let i = pane_from(places, me.column, me.row, 0)->0;
    focusing_a_payload_finds_it(v.tree, t, v.area, i);
}

/// A drag goes on from where the button was pressed: the first end stays, the other follows the
/// pointer, and from then on it is a selection. Nothing is copied before the button is released.
pub proof fn a_drag_moves_one_end(v: AppView, me: MouseEvent, sel: Selection)
    requires
        me.kind == MouseEventKind::Drag(MouseButton::Left),
        v.selection == Some(sel),
    ensures
        ({
            let w = v.on_mouse(me);
            &&& w.selection matches Some(s) && s.active && s.anchor == sel.anchor && s.terminal
                == sel.terminal && s.inner == sel.inner && (sel.inner.fits() && sel.inner.has(
                me.column,
                me.row,
            ) ==> s.head == (me.column, me.row))
            &&& w.last_click is None
            &&& w.out == v.out && w.focus == v.focus && w.tree == v.tree
        }),
{
    reveal(AppView::on_mouse);
}

/// Releasing the button copies what is selected, once, unless it is all blank, and leaves it marked;
/// a bare click copies nothing.
pub proof fn a_release_copies_the_selection(v: AppView, me: MouseEvent, sel: Selection, h: Seq<VtStep>)
    requires
        me.kind == MouseEventKind::Up(MouseButton::Left),
        v.selection == Some(sel),
        v.screen_for(sel.terminal) == Some(h),
    ensures
        ({
            let w = v.on_mouse(me);
            let text = selected_text(h, sel);
            &&& sel.active && trim(text).len() > 0 ==> w.out == v.out.push(
                MsgView::Emit(clipboard_text(text)),
            ) && w.info == "copied "@ + decimal(text.len()) + " chars to clipboard"@
            &&& !sel.active || trim(text).len() == 0 ==> w == v
            &&& w.selection == v.selection && w.focus == v.focus && w.tree == v.tree
        }),
{
    reveal(AppView::on_mouse);
}

} // verus!
