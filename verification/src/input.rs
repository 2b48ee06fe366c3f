//! Terminal input: the events the client reacts to, and the bytes a pseudo-terminal expects for a
//! key press or a paste.

use vstd::prelude::*;
use vstd::utf8::{encode_scalar, encode_utf8};
use crate::text::chars_of;

verus! {

/// A key, without the modifiers held with it.
#[derive(Clone, Copy, Debug, PartialEq, Eq, Structural)]
pub enum KeyCode {
    Char(char),
    Enter,
    Backspace,
    Tab,
    BackTab,
    Esc,
    Up,
    Down,
    Right,
    Left,
    Home,
    End,
    PageUp,
    PageDown,
    Delete,
    Insert,
    /// A Super (Cmd) key on its own.
    Super,
    /// Any other key.
    Other,
}

/// The modifiers held with a key.
#[derive(Clone, Copy, Debug, PartialEq, Eq, Structural)]
pub struct KeyModifiers {
    pub shift: bool,
    pub control: bool,
    pub alt: bool,
    pub super_key: bool,
}

/// Which edge of a key stroke an event reports.
#[derive(Clone, Copy, Debug, PartialEq, Eq, Structural)]
pub enum KeyEventKind {
    Press,
    Repeat,
    Release,
}

/// One key event.
#[derive(Clone, Copy, Debug, PartialEq, Eq, Structural)]
pub struct KeyEvent {
    pub code: KeyCode,
    pub modifiers: KeyModifiers,
    pub kind: KeyEventKind,
}

/// A mouse button.
#[derive(Clone, Copy, Debug, PartialEq, Eq, Structural)]
pub enum MouseButton {
    Left,
    Right,
    Middle,
}

/// What the mouse did.
#[derive(Clone, Copy, Debug, PartialEq, Eq, Structural)]
pub enum MouseEventKind {
    Down(MouseButton),
    Up(MouseButton),
    Drag(MouseButton),
    ScrollUp,
    ScrollDown,
    /// Anything else: a bare move, a sideways scroll.
    Other,
}

/// One mouse event, at a screen cell.
#[derive(Clone, Copy, Debug, PartialEq, Eq, Structural)]
pub struct MouseEvent {
    pub kind: MouseEventKind,
    pub column: u16,
    pub row: u16,
}

/// One event of the outer terminal.
#[derive(Debug)]
pub enum Event {
    Key(KeyEvent),
    Mouse(MouseEvent),
    Paste(String),
    Resize(u16, u16),
    Other,
}

impl KeyModifiers {
    /// No modifier.
    pub fn none() -> (m: KeyModifiers)
        ensures
            m == (KeyModifiers { shift: false, control: false, alt: false, super_key: false }),
    {
        KeyModifiers { shift: false, control: false, alt: false, super_key: false }
    }
}

impl KeyEvent {
    /// A press of `code` with `modifiers` held.
    pub fn new(code: KeyCode, modifiers: KeyModifiers) -> (key: KeyEvent)
        ensures
            key == (KeyEvent { code, modifiers, kind: KeyEventKind::Press }),
    {
        KeyEvent { code, modifiers, kind: KeyEventKind::Press }
    }
}

// --- keys as bytes ---

/// The upper case of an ASCII letter; any other character as it is.
pub open spec fn ascii_upper(c: char) -> char {
    if 'a' <= c <= 'z' {
        (c as u32 - 32) as char
    } else {
        c
    }
}

/// The upper case of an ASCII letter; any other character as it is.
pub fn to_ascii_upper(c: char) -> (up: char)
    ensures
        up == ascii_upper(c),
{
    if 'a' <= c && c <= 'z' {
        (c as u8 - 32) as char
    } else {
        c
    }
}

/// The control byte of a character: Ctrl-A is 1, Ctrl-_ is 31, Ctrl-Space is 0.
pub open spec fn control_byte(c: char) -> Option<u8> {
    let up = ascii_upper(c);
    if '@' <= up <= '_' {
        Some((up as u32 - 0x40) as u8)
    } else if up == ' ' {
        Some(0u8)
    } else {
        None
    }
}

/// The control byte of `c`, if it has one.
pub fn ctrl_byte(c: char) -> (b: Option<u8>)
    ensures
        b == control_byte(c),
{
    let up = to_ascii_upper(c);
    if '@' <= up && up <= '_' {
        Some(up as u8 - 0x40)
    } else if up == ' ' {
        Some(0)
    } else {
        None
    }
}

/// The modifier parameter of a cursor key: one, plus one for Shift, two for Alt, four for Ctrl.
pub open spec fn modifier_param(m: KeyModifiers) -> u8 {
    (1 + (if m.shift {
        1int
    } else {
        0
    }) + (if m.alt {
        2int
    } else {
        0
    }) + (if m.control {
        4int
    } else {
        0
    })) as u8
}

/// The bytes of a cursor key. A modifier forces the `ESC [ 1 ; param final` form; a bare key takes
/// `ESC O final` in application-cursor mode and `ESC [ final` otherwise.
pub open spec fn cursor_bytes(m: KeyModifiers, app_cursor: bool, last: u8) -> Seq<u8> {
    if modifier_param(m) != 1 {
        seq![0x1bu8, 0x5b, 0x31, 0x3b, (0x30 + modifier_param(m)) as u8, last]
    } else if app_cursor {
        seq![0x1bu8, 0x4f, last]
    } else {
        seq![0x1bu8, 0x5b, last]
    }
}

/// The bytes of a character key.
pub open spec fn char_bytes(c: char, m: KeyModifiers) -> Seq<u8> {
    if m.control {
        match control_byte(c) {
            Some(b) => seq![b],
            None => seq![(c as u32 % 256) as u8],
        }
    } else {
        encode_scalar(c as u32)
    }
}

/// The bytes a pseudo-terminal expects for a key, if it has any.
pub open spec fn key_bytes(key: KeyEvent, app_cursor: bool) -> Option<Seq<u8>> {
    let m = key.modifiers;
    match key.code {
        KeyCode::Char(c) => Some(char_bytes(c, m)),
        KeyCode::Enter => Some(seq![0x0du8]),
        KeyCode::Backspace => Some(seq![0x7fu8]),
        KeyCode::Tab => Some(seq![0x09u8]),
        KeyCode::BackTab => Some(seq![0x1bu8, 0x5b, 0x5a]),
        KeyCode::Esc => Some(seq![0x1bu8]),
        KeyCode::Up => Some(cursor_bytes(m, app_cursor, 0x41)),
        KeyCode::Down => Some(cursor_bytes(m, app_cursor, 0x42)),
        KeyCode::Right => Some(cursor_bytes(m, app_cursor, 0x43)),
        KeyCode::Left => Some(cursor_bytes(m, app_cursor, 0x44)),
        KeyCode::Home => Some(cursor_bytes(m, app_cursor, 0x48)),
        KeyCode::End => Some(cursor_bytes(m, app_cursor, 0x46)),
        KeyCode::PageUp => Some(seq![0x1bu8, 0x5b, 0x35, 0x7e]),
        KeyCode::PageDown => Some(seq![0x1bu8, 0x5b, 0x36, 0x7e]),
        KeyCode::Delete => Some(seq![0x1bu8, 0x5b, 0x33, 0x7e]),
        KeyCode::Insert => Some(seq![0x1bu8, 0x5b, 0x32, 0x7e]),
        KeyCode::Super => None,
        KeyCode::Other => None,
    }
}

fn cursor_key(m: KeyModifiers, app_cursor: bool, last: u8) -> (out: Vec<u8>)
    ensures
        out@ == cursor_bytes(m, app_cursor, last),
{
    let shift: u8 = if m.shift {
        1
    } else {
        0
    };
    let alt: u8 = if m.alt {
        2
    } else {
        0
    };
    let control: u8 = if m.control {
        4
    } else {
        0
    };
    let param: u8 = 1 + shift + alt + control;
    if param != 1 {
        vec![0x1b, 0x5b, 0x31, 0x3b, 0x30 + param, last]
    } else if app_cursor {
        vec![0x1b, 0x4f, last]
    } else {
        vec![0x1b, 0x5b, last]
    }
}

fn utf8_of(c: char) -> (out: Vec<u8>)
    ensures
        out@ == encode_scalar(c as u32),
{
    let mut s = String::new();
    s.push(c);
    let out = s.as_str().as_bytes_vec();
    proof {
        let cs = Seq::<char>::empty().push(c);
        assert(cs.drop_first() =~= Seq::<char>::empty());
        reveal_with_fuel(encode_utf8, 2);
        assert(encode_scalar(c as u32) + Seq::<u8>::empty() =~= encode_scalar(c as u32));
        assert(encode_utf8(cs) =~= encode_scalar(c as u32));
    }
    out
}

/// Encode a key press as the bytes of a pseudo-terminal. `app_cursor` is the mode in which the
/// child asked for application cursor keys.
pub fn key_to_bytes(key: KeyEvent, app_cursor: bool) -> (out: Option<Vec<u8>>)
    ensures
        out is Some == key_bytes(key, app_cursor) is Some,
        out is Some ==> out->0@ == key_bytes(key, app_cursor)->0,
{
    let m = key.modifiers;
    let bytes: Vec<u8> = match key.code {
        KeyCode::Char(c) => {
            if m.control {
                match ctrl_byte(c) {
                    Some(b) => vec![b],
                    None => vec![(c as u32 % 256) as u8],
                }
            } else {
                utf8_of(c)
            }
        },
        KeyCode::Enter => vec![0x0d],
        KeyCode::Backspace => vec![0x7f],
        KeyCode::Tab => vec![0x09],
        KeyCode::BackTab => vec![0x1b, 0x5b, 0x5a],
        KeyCode::Esc => vec![0x1b],
        KeyCode::Up => cursor_key(m, app_cursor, 0x41),
        KeyCode::Down => cursor_key(m, app_cursor, 0x42),
        KeyCode::Right => cursor_key(m, app_cursor, 0x43),
        KeyCode::Left => cursor_key(m, app_cursor, 0x44),
        KeyCode::Home => cursor_key(m, app_cursor, 0x48),
        KeyCode::End => cursor_key(m, app_cursor, 0x46),
        KeyCode::PageUp => vec![0x1b, 0x5b, 0x35, 0x7e],
        KeyCode::PageDown => vec![0x1b, 0x5b, 0x36, 0x7e],
        KeyCode::Delete => vec![0x1b, 0x5b, 0x33, 0x7e],
        KeyCode::Insert => vec![0x1b, 0x5b, 0x32, 0x7e],
        KeyCode::Super => {
            return None;
        },
        KeyCode::Other => {
            return None;
        },
    };
    assert(bytes@ =~= key_bytes(key, app_cursor)->0);
    Some(bytes)
}

// --- pastes ---

/// `s` with every line break, `\r\n` or `\n`, as the `\r` that a terminal sends for one.
pub open spec fn breaks_as_cr(s: Seq<char>) -> Seq<char>
    decreases s.len(),
{
    if s.len() == 0 {
        s
    } else if s.len() >= 2 && s[0] == '\r' && s[1] == '\n' {
        seq!['\r'] + breaks_as_cr(s.skip(2))
    } else if s[0] == '\n' {
        seq!['\r'] + breaks_as_cr(s.skip(1))
    } else {
        seq![s[0]] + breaks_as_cr(s.skip(1))
    }
}

/// What a terminal sends before a bracketed paste: `ESC [ 200 ~`.
pub open spec fn paste_start() -> Seq<u8> {
    seq![0x1bu8, 0x5b, 0x32, 0x30, 0x30, 0x7e]
}

/// What a terminal sends after a bracketed paste: `ESC [ 201 ~`.
pub open spec fn paste_end() -> Seq<u8> {
    seq![0x1bu8, 0x5b, 0x32, 0x30, 0x31, 0x7e]
}

/// The bytes of a paste.
pub open spec fn paste_bytes(text: Seq<char>, bracketed: bool) -> Seq<u8> {
    let body = encode_utf8(breaks_as_cr(text));
    if bracketed {
        paste_start() + body + paste_end()
    } else {
        body
    }
}

fn normalize_breaks(text: &str) -> (out: String)
    ensures
        out@ == breaks_as_cr(text@),
{
    let cs = chars_of(text);
    let mut out = String::new();
    let mut i: usize = 0;
    assert(cs@.skip(0) =~= cs@);
    assert(Seq::<char>::empty() + breaks_as_cr(cs@) =~= breaks_as_cr(cs@));
    while i < cs.len()
        invariant
            i <= cs@.len(),
            out@ + breaks_as_cr(cs@.skip(i as int)) == breaks_as_cr(cs@),
        decreases cs@.len() - i,
    {
        let ghost before = out@;
        let ghost left = cs@.skip(i as int);
        if i + 1 < cs.len() && cs[i] == '\r' && cs[i + 1] == '\n' {
            out.push('\r');
            i = i + 2;
            assert(left.skip(2) =~= cs@.skip(i as int));
            assert(before + (seq!['\r'] + breaks_as_cr(left.skip(2))) =~= out@ + breaks_as_cr(
                cs@.skip(i as int),
            ));
        } else {
            let c = if cs[i] == '\n' {
                '\r'
            } else {
                cs[i]
            };
            out.push(c);
            i = i + 1;
            assert(left.skip(1) =~= cs@.skip(i as int));
            assert(before + (seq![c] + breaks_as_cr(left.skip(1))) =~= out@ + breaks_as_cr(
                cs@.skip(i as int),
            ));
        }
    }
    assert(out@ + breaks_as_cr(cs@.skip(i as int)) =~= out@);
    out
}

/// Encode a whole paste as one write to the pseudo-terminal. Where the child asked for bracketed
/// paste the text stands between the markers, so that a line break in it is not read as Enter.
pub fn encode_paste(text: &str, bracketed: bool) -> (out: Vec<u8>)
    ensures
        out@ == paste_bytes(text@, bracketed),
{
    let clean = normalize_breaks(text);
    let mut body = clean.as_str().as_bytes_vec();
    if !bracketed {
        return body;
    }
    let mut out: Vec<u8> = vec![0x1b, 0x5b, 0x32, 0x30, 0x30, 0x7e];
    let mut end: Vec<u8> = vec![0x1b, 0x5b, 0x32, 0x30, 0x31, 0x7e];
    assert(out@ =~= paste_start());
    assert(end@ =~= paste_end());
    out.append(&mut body);
    out.append(&mut end);
    out
}

/// No line feed is left in pasted text, so nothing in it reads as a bare newline.
pub proof fn pastes_hold_no_line_feed(s: Seq<char>)
    ensures
        !breaks_as_cr(s).contains('\n'),
    decreases s.len(),
{
    if s.len() > 0 {
        let tail = if s.len() >= 2 && s[0] == '\r' && s[1] == '\n' {
            s.skip(2)
        } else {
            s.skip(1)
        };
        pastes_hold_no_line_feed(tail);
        let out = breaks_as_cr(s);
        assert(out.skip(1) =~= breaks_as_cr(tail));
        assert forall|i: int| 0 <= i < out.len() implies out[i] != '\n' by {
            if i > 0 {
                assert(out[i] == breaks_as_cr(tail)[i - 1]);
            }
        }
    }
}

/// Text without line feeds is pasted as it is.
pub proof fn plain_text_is_pasted_unchanged(s: Seq<char>)
    requires
        !s.contains('\n'),
    ensures
        breaks_as_cr(s) == s,
    decreases s.len(),
{
    if s.len() > 0 {
        assert(s[0] != '\n');
        if s.len() >= 2 {
            assert(s[1] != '\n');
        }
        assert forall|i: int| 0 <= i < s.skip(1).len() implies s.skip(1)[i] != '\n' by {
            assert(s[i + 1] != '\n');
        }
        plain_text_is_pasted_unchanged(s.skip(1));
        assert(seq![s[0]] + s.skip(1) =~= s);
    }
}

} // verus!
