//! What the mouse does.

use vstd::prelude::*;
use vstd::utf8::encode_utf8;
use crate::emulator::{vt_mouse_encoding, vt_mouse_mode, Emulator, MouseEncoding, MouseMode, VtStep};
use crate::geometry::{add_to, bring_within, larger, larger_of, minus, plus, take_off, within, Rect};
use crate::ids::TerminalId;
use crate::input::{MouseButton, MouseEvent, MouseEventKind};
use crate::pane::Placement;
use crate::selection::{
    clamp_to, clipboard_text, copy_to_clipboard, nearest_cell, selected_text, text_of_selection,
    token_at, token_selection, Selection,
};
use crate::sidebar::has_id;
use crate::state::{App, AppView, Click, Focus};
use crate::table::lookup;
use crate::text::{decimal, decimal_string, opt_text, owned, trim, trimmed};
use crate::wire::{ClientMsg, MsgView};

verus! {

/// Rows of the sidebar that a notch of the wheel scrolls.
pub const SIDEBAR_WHEEL_ROWS: i32 = 3;

/// Lines of history that a notch of the wheel scrolls.
pub const WHEEL_STEP: usize = 3;

/// Two presses on one cell within this time are a double-click, in nanoseconds.
pub const DOUBLE_CLICK_NANOS: u64 = 400_000_000;

/// The mini, from the `i`th on, whose rectangle holds the cell.
pub open spec fn rect_from(rects: Seq<Rect>, col: u16, row: u16, i: int) -> Option<int>
    decreases rects.len() - i,
{
    if i >= rects.len() {
        None
    } else if rects[i].has(col, row) {
        Some(i)
    } else {
        rect_from(rects, col, row, i + 1)
    }
}

/// The pane, from the `i`th on, that holds the cell and shows a terminal.
pub open spec fn pane_from(
    places: Seq<Placement<TerminalId>>,
    col: u16,
    row: u16,
    i: int,
) -> Option<int>
    decreases places.len() - i,
{
    if i >= places.len() {
        None
    } else if places[i].rect.has(col, row) && places[i].payload is Some {
        Some(i)
    } else {
        pane_from(places, col, row, i + 1)
    }
}

/// The smaller of `n` and 255, as a byte.
pub open spec fn capped(n: int) -> u8 {
    if n > 255 {
        255
    } else {
        n as u8
    }
}

/// A notch of the wheel as a program reads it, with the place counted from one in its pane.
pub open spec fn wheel_bytes(
    encoding: MouseEncoding,
    up: bool,
    col: u16,
    row: u16,
    inner: Rect,
) -> Seq<u8> {
    let cx = within(plus(minus(col, inner.x), 1), 1, larger(inner.width, 1));
    let cy = within(plus(minus(row, inner.y), 1), 1, larger(inner.height, 1));
    let button: nat = if up {
        64
    } else {
        65
    };
    if encoding == MouseEncoding::Sgr {
        encode_utf8(
            "\u{1b}[<"@ + decimal(button) + seq![';'] + decimal(cx as nat) + seq![';'] + decimal(
                cy as nat,
            ) + seq!['M'],
        )
    } else {
        seq![0x1bu8, 0x5b, 0x4d, capped((32 + button) as int), capped(32 + cx), capped(32 + cy)]
    }
}

/// The notice on a copied selection.
pub open spec fn copied_notice(n: nat) -> Seq<char> {
    "copied "@ + decimal(n) + " chars to clipboard"@
}

fn cap(n: u32) -> (b: u8)
    ensures
        b == capped(n as int),
{
    if n > 255 {
        255
    } else {
        n as u8
    }
}

/// Write a notch of the wheel in the encoding that a program asked for.
pub fn encode_wheel(encoding: MouseEncoding, up: bool, col: u16, row: u16, inner: Rect) -> (out: Vec<
    u8,
>)
    ensures
        out@ == wheel_bytes(encoding, up, col, row, inner),
{
    let cx: u16 = bring_within(add_to(take_off(col, inner.x), 1), 1, larger_of(inner.width, 1));
    let cy: u16 = bring_within(add_to(take_off(row, inner.y), 1), 1, larger_of(inner.height, 1));
    let button: u32 = if up {
        64
    } else {
        65
    };
    if encoding == MouseEncoding::Sgr {
        let mut s = owned("\u{1b}[<");
        let b = decimal_string(button as u64);
        s.append(b.as_str());
        s.push(';');
        let x = decimal_string(cx as u64);
        s.append(x.as_str());
        s.push(';');
        let y = decimal_string(cy as u64);
        s.append(y.as_str());
        s.push('M');
        assert(s@ =~= "\u{1b}[<"@ + decimal(button as nat) + seq![';'] + decimal(cx as nat) + seq![
            ';',
        ] + decimal(cy as nat) + seq!['M']);
        s.as_str().as_bytes_vec()
    } else {
        let out: Vec<u8> = vec![
            0x1b,
            0x5b,
            0x4d,
            cap(32 + button),
            cap(32 + cx as u32),
            cap(32 + cy as u32),
        ];
        assert(out@ =~= wheel_bytes(encoding, up, col, row, inner));
        out
    }
}

impl AppView {
    /// The mini at a cell, and its inside.
    pub open spec fn mini_at(self, col: u16, row: u16) -> Option<(int, Rect)> {
        match self.minis_band() {
            Some(band) => match rect_from(self.mini_rects(band), col, row, 0) {
                Some(i) => Some((i, self.mini_rects(band)[i].spec_inner())),
                None => None,
            },
            None => None,
        }
    }

    /// The terminal of the pane at a cell, and the inside of the pane.
    pub open spec fn pane_at(self, col: u16, row: u16) -> Option<(TerminalId, Rect)> {
        let places = self.tree.layout(self.area);
        match pane_from(places, col, row, 0) {
            Some(i) => Some((places[i].payload->0, places[i].rect.spec_inner())),
            None => None,
        }
    }

    /// What is drawn for terminal `t`: the served window while it is scrolled back, otherwise its
    /// live screen.
    pub open spec fn screen_for(self, t: TerminalId) -> Option<Seq<VtStep>> {
        if self.scrolls(t) {
            Some(self.scroll->0.screen)
        } else {
            lookup(self.parsers, t)
        }
    }

    /// The client with a sequence for the outer terminal put into the outbox.
    pub open spec fn emit(self, text: Seq<char>) -> AppView {
        AppView { out: self.out.push(MsgView::Emit(text)), ..self }
    }

    /// The client after the wheel was turned over terminal `t`: a program that asked for the mouse
    /// gets the notch, otherwise the history scrolls.
    pub open spec fn wheel(self, t: TerminalId, up: bool, col: u16, row: u16, inner: Rect) -> AppView {
        match lookup(self.parsers, t) {
            Some(h) => if vt_mouse_mode(h) != MouseMode::Off {
                self.type_into(t, wheel_bytes(vt_mouse_encoding(h), up, col, row, inner))
            } else {
                self.wheel_scroll(t, up)
            },
            None => self.wheel_scroll(t, up),
        }
    }

    /// The client after a notch scrolled the history of `t`. Scrolling down to the live view leaves
    /// scroll mode.
    pub open spec fn wheel_scroll(self, t: TerminalId, up: bool) -> AppView {
        if up {
            self.send(MsgView::Scroll { terminal: t, lines: 3 })
        } else if !self.scrolls(t) {
            self
        } else if self.scroll->0.offset <= WHEEL_STEP {
            self.exit_scroll(t)
        } else {
            self.send(MsgView::Scroll { terminal: t, lines: -3i32 })
        }
    }

    /// The client after the pointer was dragged to a cell.
    pub open spec fn drag(self, col: u16, row: u16) -> AppView {
        AppView {
            selection: match self.selection {
                Some(sel) => Some(
                    Selection { head: nearest_cell(sel.inner, col, row), active: true, ..sel },
                ),
                None => None,
            },
            last_click: None,
            ..self
        }
    }

    /// The text that is selected, on the screen that is drawn for its pane.
    pub open spec fn selection_text(self) -> Option<Seq<char>> {
        match self.selection {
            Some(sel) => match self.screen_for(sel.terminal) {
                Some(h) => Some(selected_text(h, sel)),
                None => None,
            },
            None => None,
        }
    }

    /// The client after the button was released: a selection, unless it is blank, is copied.
    pub open spec fn release(self) -> AppView {
        match (self.selection, self.selection_text()) {
            (Some(sel), Some(text)) => if sel.active && trim(text).len() > 0 {
                AppView {
                    info: copied_notice(text.len()),
                    ..self.emit(clipboard_text(text))
                }
            } else {
                self
            },
            _ => self,
        }
    }

    /// Whether a press on a cell of `t` is the second half of a double-click.
    pub open spec fn is_double(self, t: TerminalId, col: u16, row: u16) -> bool {
        match self.last_click {
            Some(c) => c.terminal == t && c.column == col && c.row == row && self.tick
                - c.at <= DOUBLE_CLICK_NANOS,
            None => false,
        }
    }

    /// The client after a press on a cell of the pane of `t`. It focuses the pane. A first press may
    /// begin a drag; a second one selects the token there, or nothing on a blank.
    pub open spec fn press_pane(self, t: TerminalId, inner: Rect, col: u16, row: u16) -> AppView {
        let v = AppView {
            tree: self.tree.focus_payload(t),
            focus: if self.tree.showing(t) is Some {
                Focus::Panes
            } else {
                self.focus
            },
            ..self
        };
        if self.is_double(t, col, row) {
            let token = match self.screen_for(t) {
                Some(h) => token_at(h, t, inner, col, row),
                None => None,
            };
            AppView {
                last_click: None,
                selection: if token is Some {
                    token
                } else {
                    v.selection
                },
                ..v
            }
        } else {
            let p = nearest_cell(inner, col, row);
            AppView {
                last_click: Some(Click { at: self.tick, column: col, row, terminal: t }),
                selection: Some(Selection { terminal: t, inner, anchor: p, head: p, active: false }),
                ..v
            }
        }
    }

    /// The client after a press or a notch over mini `i`.
    pub open spec fn mouse_mini(self, me: MouseEvent, i: int, inner: Rect) -> AppView {
        match me.kind {
            MouseEventKind::Down(MouseButton::Left) => self.enter_mini(i as usize),
            MouseEventKind::ScrollUp => self.wheel_mini(me, i, inner, true),
            MouseEventKind::ScrollDown => self.wheel_mini(me, i, inner, false),
            _ => self,
        }
    }

    /// The client after a notch over mini `i`; a minimized one shows no terminal to scroll.
    pub open spec fn wheel_mini(self, me: MouseEvent, i: int, inner: Rect, up: bool) -> AppView {
        if i < self.minis.len() && self.minimized.contains(self.minis[i]) {
            self
        } else {
            match self.mini_terminal(i) {
                Some(t) => self.wheel(t, up, me.column, me.row, inner),
                None => self,
            }
        }
    }

    /// The client after a press or a notch over the main area.
    pub open spec fn mouse_main(self, me: MouseEvent) -> AppView {
        match self.mini_at(me.column, me.row) {
            Some((i, inner)) => self.mouse_mini(me, i, inner),
            None => match self.pane_at(me.column, me.row) {
                Some((t, inner)) => match me.kind {
                    MouseEventKind::Down(MouseButton::Left) => self.press_pane(
                        t,
                        inner,
                        me.column,
                        me.row,
                    ),
                    MouseEventKind::ScrollUp => self.wheel(t, true, me.column, me.row, inner),
                    MouseEventKind::ScrollDown => self.wheel(t, false, me.column, me.row, inner),
                    _ => self,
                },
                None => self,
            },
        }
    }

    /// Whether a cell belongs to the sidebar.
    pub open spec fn in_sidebar(self, col: u16, row: u16) -> bool {
        col < self.area.x && row < self.area.spec_bottom()
    }

    /// The client after something the mouse did.
    #[verifier::opaque]
    pub open spec fn on_mouse(self, me: MouseEvent) -> AppView {
        match me.kind {
            MouseEventKind::Drag(MouseButton::Left) => self.drag(me.column, me.row),
            MouseEventKind::Up(MouseButton::Left) => self.release(),
            MouseEventKind::Down(MouseButton::Left) => {
                let v = AppView { selection: None, ..self };
                if v.in_sidebar(me.column, me.row) {
                    AppView { focus: Focus::Sidebar, ..v }
                } else {
                    v.mouse_main(me)
                }
            },
            MouseEventKind::ScrollUp => if self.in_sidebar(me.column, me.row) {
                self.scroll_sidebar(-3)
            } else {
                self.mouse_main(me)
            },
            MouseEventKind::ScrollDown => if self.in_sidebar(me.column, me.row) {
                self.scroll_sidebar(3)
            } else {
                self.mouse_main(me)
            },
            _ => self.mouse_main(me),
        }
    }
}

impl App {
    /// The mini at a cell, and its inside. Minis float over the panes, so they are asked first.
    pub fn mini_at(&self, col: u16, row: u16) -> (out: Option<(usize, Rect)>)
        ensures
            match (out, self@.mini_at(col, row)) {
                (Some((i, r)), Some((j, s))) => i as int == j && r == s && i < self@.minis.len(),
                (None, None) => true,
                _ => false,
            },
    {
        let (_, band) = self.regions();
        let band = match band {
            Some(b) => b,
            None => {
                return None;
            },
        };
        let rects = self.mini_rects(band);
        let mut i: usize = 0;
        while i < rects.len()
            invariant
                i <= rects@.len(),
                rects@ == self@.mini_rects(band),
                self@.minis_band() == Some(band),
                rect_from(rects@, col, row, 0) == rect_from(rects@, col, row, i as int),
            decreases rects@.len() - i,
        {
            if rects[i].contains(col, row) {
                return Some((i, rects[i].inner()));
            }
            i = i + 1;
        }
        None
    }

    /// The terminal of the pane at a cell, and the inside of the pane.
    pub fn pane_at(&self, col: u16, row: u16) -> (out: Option<(TerminalId, Rect)>)
        ensures
            out == self@.pane_at(col, row),
    {
        let places = self.tree.layout(self.area);
        let mut i: usize = 0;
        while i < places.len()
            invariant
                i <= places@.len(),
                places@ == self@.tree.layout(self@.area),
                pane_from(places@, col, row, 0) == pane_from(places@, col, row, i as int),
            decreases places@.len() - i,
        {
            let p = places[i];
            if p.rect.contains(col, row) {
                if let Some(t) = p.payload {
                    return Some((t, p.rect.inner()));
                }
            }
            i = i + 1;
        }
        None
    }

    /// What to draw for terminal `t`. One place decides, so panes and minis cannot disagree.
    pub fn screen_for(&self, t: TerminalId) -> (out: Option<&Emulator>)
        ensures
            out is Some == self@.screen_for(t) is Some,
            out is Some ==> Some(out->0@) == self@.screen_for(t),
    {
        if let Some(s) = &self.scroll {
            if s.terminal == t {
                return Some(&s.parser);
            }
        }
        self.parsers.get(t)
    }

    /// Whether the program in `t` asked for the mouse.
    pub fn app_wants_mouse(&self, t: TerminalId) -> (b: bool)
        ensures
            b == match lookup(self@.parsers, t) {
                Some(h) => vt_mouse_mode(h) != MouseMode::Off,
                None => false,
            },
    {
        match self.parsers.get(t) {
            Some(p) => p.mouse_mode() != MouseMode::Off,
            None => false,
        }
    }

    /// Turn the wheel over a pane whose program does not take the mouse: a step like any other,
    /// except that coming down to the live view leaves scroll mode.
    pub fn wheel_scroll(&mut self, t: TerminalId, up: bool)
        ensures
            final(self)@ == old(self)@.wheel_scroll(t, up),
    {
        if up {
            self.send(ClientMsg::Scroll { terminal: t, lines: 3 });
            return;
        }
        let at = match &self.scroll {
            Some(s) => if s.terminal == t {
                Some(s.offset)
            } else {
                None
            },
            None => None,
        };
        match at {
            None => {},
            Some(offset) => {
                if offset <= WHEEL_STEP {
                    self.exit_scroll(t);
                } else {
                    self.send(ClientMsg::Scroll { terminal: t, lines: -3 });
                }
            },
        }
    }

    fn wheel(&mut self, t: TerminalId, up: bool, col: u16, row: u16, inner: Rect)
        ensures
            final(self)@ == old(self)@.wheel(t, up, col, row, inner),
    {
        if self.app_wants_mouse(t) {
            let encoding = match self.parsers.get(t) {
                Some(p) => p.mouse_encoding(),
                None => {
                    return;
                },
            };
            let bytes = encode_wheel(encoding, up, col, row, inner);
            self.send(ClientMsg::Input { terminal: t, bytes });
        } else {
            self.wheel_scroll(t, up);
        }
    }

    fn drag(&mut self, col: u16, row: u16)
        ensures
            final(self)@ == old(self)@.drag(col, row),
    {
        if let Some(sel) = self.selection {
            let head = clamp_to(sel.inner, col, row);
            self.selection = Some(
                Selection {
                    terminal: sel.terminal,
                    inner: sel.inner,
                    anchor: sel.anchor,
                    head,
                    active: true,
                },
            );
        }
        self.last_click = None;
    }

    /// The selected text, read off the visible screen of its pane: `None` without a selection.
    pub fn selection_text(&self) -> (out: Option<String>)
        ensures
            opt_text(out) == self@.selection_text(),
    {
        match &self.selection {
            Some(sel) => match self.screen_for(sel.terminal) {
                Some(p) => Some(text_of_selection(p, sel)),
                None => None,
            },
            None => None,
        }
    }

    fn release(&mut self)
        ensures
            final(self)@ == old(self)@.release(),
    {
        let active = match &self.selection {
            Some(sel) => sel.is_active(),
            None => false,
        };
        if active {
            if let Some(text) = self.selection_text() {
                let shown = trimmed(text.as_str());
                if !shown.as_str().is_empty() {
                    let seq = copy_to_clipboard(text.as_str());
                    self.outbox.emit(seq);
                    let n: usize = text.as_str().unicode_len();
                    let mut info = owned("copied ");
                    let count = decimal_string(n as u64);
                    info.append(count.as_str());
                    info.append(" chars to clipboard");
                    self.info = info;
                }
            }
        }
    }

    fn press_pane(&mut self, t: TerminalId, inner: Rect, col: u16, row: u16)
        ensures
            final(self)@ == old(self)@.press_pane(t, inner, col, row),
    {
        let double = match &self.last_click {
            Some(c) => c.terminal == t && c.column == col && c.row == row && (self.tick < c.at
                || self.tick - c.at <= DOUBLE_CLICK_NANOS),
            None => false,
        };
        if self.tree.focus_payload(t) {
            self.focus = Focus::Panes;
        }
        if double {
            // A third press is not the second half of another double-click.
            self.last_click = None;
            let token = match self.screen_for(t) {
                Some(p) => token_selection(p, t, inner, col, row),
                None => None,
            };
            if token.is_some() {
                self.selection = token;
            }
        } else {
            self.last_click = Some(Click { at: self.tick, column: col, row, terminal: t });
            // The left button always selects text, also where the program asked for the mouse:
            // presses are never handed on to programs, only the wheel is.
            let p = clamp_to(inner, col, row);
            self.selection = Some(
                Selection { terminal: t, inner, anchor: p, head: p, active: false },
            );
        }
    }

    fn wheel_mini(&mut self, me: MouseEvent, i: usize, inner: Rect, up: bool)
        ensures
            final(self)@ == old(self)@.wheel_mini(me, i as int, inner, up),
    {
        if i < self.minis.len() && has_id(&self.minimized, self.minis[i]) {
            return;
        }
        if let Some(t) = self.mini_terminal(i) {
            self.wheel(t, up, me.column, me.row, inner);
        }
    }

    fn mouse_mini(&mut self, me: MouseEvent, i: usize, inner: Rect)
        ensures
            final(self)@ == old(self)@.mouse_mini(me, i as int, inner),
    {
        match me.kind {
            MouseEventKind::Down(MouseButton::Left) => self.enter_mini(i),
            MouseEventKind::ScrollUp => self.wheel_mini(me, i, inner, true),
            MouseEventKind::ScrollDown => self.wheel_mini(me, i, inner, false),
            _ => {},
        }
    }

    fn mouse_main(&mut self, me: MouseEvent)
        ensures
            final(self)@ == old(self)@.mouse_main(me),
    {
        if let Some((i, inner)) = self.mini_at(me.column, me.row) {
            self.mouse_mini(me, i, inner);
            return;
        }
        if let Some((t, inner)) = self.pane_at(me.column, me.row) {
            match me.kind {
                MouseEventKind::Down(MouseButton::Left) => self.press_pane(
                    t,
                    inner,
                    me.column,
                    me.row,
                ),
                MouseEventKind::ScrollUp => self.wheel(t, true, me.column, me.row, inner),
                MouseEventKind::ScrollDown => self.wheel(t, false, me.column, me.row, inner),
                _ => {},
            }
        }
    }

    fn in_sidebar(&self, col: u16, row: u16) -> (b: bool)
        ensures
            b == self@.in_sidebar(col, row),
    {
        col < self.area.x && row < self.area.bottom()
    }

    /// One thing the mouse did. A press focuses what it is on, a drag selects text in the pane it
    /// began in, and the wheel goes to a program that asked for it or scrolls.
    pub fn on_mouse(&mut self, me: MouseEvent)
        ensures
            final(self)@ == old(self)@.on_mouse(me),
    {
        proof {
            reveal(AppView::on_mouse);
        }
        match me.kind {
            MouseEventKind::Drag(MouseButton::Left) => self.drag(me.column, me.row),
            MouseEventKind::Up(MouseButton::Left) => self.release(),
            MouseEventKind::Down(MouseButton::Left) => {
                // A fresh press does away with any earlier selection, wherever it lands.
                self.selection = None;
                if self.in_sidebar(me.column, me.row) {
                    self.focus = Focus::Sidebar;
                } else {
                    self.mouse_main(me);
                }
            },
            MouseEventKind::ScrollUp => {
                if self.in_sidebar(me.column, me.row) {
                    self.scroll_sidebar(-SIDEBAR_WHEEL_ROWS);
                } else {
                    self.mouse_main(me);
                }
            },
            MouseEventKind::ScrollDown => {
                if self.in_sidebar(me.column, me.row) {
                    self.scroll_sidebar(SIDEBAR_WHEEL_ROWS);
                } else {
                    self.mouse_main(me);
                }
            },
            _ => self.mouse_main(me),
        }
    }
}

} // verus!
