//! Terminal emulators: what a pane shows, computed by the `vt100` crate from the bytes it was fed.
//!
//! An emulator is described by its history, and everything that is read off its screen is a function
//! of that history.

use vstd::prelude::*;
use vstd::slice::{slice_subrange, slice_to_vec};
use vstd::utf8::encode_utf8;
use crate::text::{decimal, decimal_string, opt_text, owned};

verus! {

/// One thing done to an emulator.
pub enum VtStep {
    /// It was made, with a size and no scrollback.
    Start { rows: u16, cols: u16 },
    /// It was fed.
    Feed { bytes: Seq<u8> },
    /// It was given another size.
    Size { rows: u16, cols: u16 },
    /// A fresh parser took over a copy of its screen, without what the first one had read of an
    /// unfinished glyph or escape sequence.
    Copied,
}

/// Which mouse events a program asked for.
#[derive(Clone, Copy, Debug, PartialEq, Eq, Structural)]
pub enum MouseMode {
    Off,
    Press,
    PressRelease,
    ButtonMotion,
    AnyMotion,
}

/// How a program wants mouse events written.
#[derive(Clone, Copy, Debug, PartialEq, Eq, Structural)]
pub enum MouseEncoding {
    Default,
    Utf8,
    Sgr,
}

/// A parser of the `vt100` crate, which Verus does not look into.
#[verifier::external_body]
pub struct VtParser {
    pub parser: vt100::Parser,
}

/// Everything that was done to a parser, in order.
pub uninterp spec fn vt_history(parser: VtParser) -> Seq<VtStep>;

/// The text of a cell of the screen, `None` beyond its edges, as `vt100` computes it from a history.
pub uninterp spec fn vt_cell(history: Seq<VtStep>, row: u16, col: u16) -> Option<Seq<char>>;

/// Whether a row of the screen runs on into the next, as `vt100` computes it from a history.
pub uninterp spec fn vt_row_wrapped(history: Seq<VtStep>, row: u16) -> bool;

/// Whether a cell of the screen holds the first half of a wide glyph, `None` beyond its edges, as
/// `vt100` computes it from a history.
pub uninterp spec fn vt_wide(history: Seq<VtStep>, row: u16, col: u16) -> Option<bool>;

/// The row and the column of the cursor, the latter one beyond the last where a row is full, as
/// `vt100` computes them from a history.
pub uninterp spec fn vt_cursor(history: Seq<VtStep>) -> (u16, u16);

/// Whether the program asked for bracketed paste, as `vt100` computes it from a history.
pub uninterp spec fn vt_bracketed_paste(history: Seq<VtStep>) -> bool;

/// Whether the program asked for application cursor keys, as `vt100` computes it from a history.
pub uninterp spec fn vt_application_cursor(history: Seq<VtStep>) -> bool;

/// Whether the program draws on the alternate screen, as `vt100` computes it from a history.
pub uninterp spec fn vt_alternate_screen(history: Seq<VtStep>) -> bool;

/// Which mouse events the program asked for, as `vt100` computes it from a history.
pub uninterp spec fn vt_mouse_mode(history: Seq<VtStep>) -> MouseMode;

/// How the program wants mouse events written, as `vt100` computes it from a history.
pub uninterp spec fn vt_mouse_encoding(history: Seq<VtStep>) -> MouseEncoding;

// --- what a parser is reading ---

/// What the parser is in the middle of.
#[derive(Clone, Copy, Debug, PartialEq, Eq, Structural)]
pub enum Reading {
    /// Text: the next byte may draw a glyph.
    Text,
    /// An escape character came.
    Escape,
    /// A sequence that the escape character and this byte opened.
    Sequence(u8),
}

/// Whether a byte after the escape character opens a sequence that goes on: intermediate bytes, a
/// device control string, a control sequence, an operating system command, or another string.
pub open spec fn opens(b: u8) -> bool {
    0x20 <= b <= 0x2f || b == 0x50 || b == 0x58 || b == 0x5b || b == 0x5d || b == 0x5e || b == 0x5f
}

/// Whether byte `b` is the last of a sequence that `kind` opened.
pub open spec fn ends(kind: u8, b: u8) -> bool {
    if kind == 0x5b {
        0x40 <= b <= 0x7e
    } else if kind == 0x5d {
        b == 0x07
    } else if kind == 0x50 {
        b == 0x9c
    } else {
        kind <= 0x2f && 0x30 <= b <= 0x7e
    }
}

/// What is being read after one more byte.
pub open spec fn reading_after(reading: Reading, b: u8) -> Reading {
    if b == 0x1b {
        Reading::Escape
    } else if b == 0x18 || b == 0x1a {
        Reading::Text
    } else {
        match reading {
            Reading::Text => Reading::Text,
            Reading::Escape => if opens(b) {
                Reading::Sequence(b)
            } else if 0x30 <= b <= 0x7e {
                Reading::Text
            } else {
                Reading::Escape
            },
            Reading::Sequence(kind) => if ends(kind, b) {
                Reading::Text
            } else {
                reading
            },
        }
    }
}

/// How many bytes a glyph takes in UTF-8, going by the first of them.
pub open spec fn glyph_len(first: u8) -> int {
    if first < 0xe0 {
        2
    } else if first < 0xf0 {
        3
    } else {
        4
    }
}

/// The bytes of a glyph that is not complete yet, after one more byte.
pub open spec fn partial_after(partial: Seq<u8>, b: u8) -> Seq<u8> {
    if b >= 0xc0 {
        seq![b]
    } else if b >= 0x80 && partial.len() > 0 && partial.len() + 1 < glyph_len(partial[0]) {
        partial.push(b)
    } else {
        Seq::empty()
    }
}

/// The bytes of a sequence that is not complete yet, after one more byte. Control characters are not
/// part of it: they are acted on as they come.
pub open spec fn sequence_after(reading: Reading, sequence: Seq<u8>, b: u8) -> Seq<u8> {
    if b == 0x1b {
        seq![b]
    } else if reading_after(reading, b) == Reading::Text {
        Seq::empty()
    } else if b < 0x20 {
        sequence
    } else {
        sequence.push(b)
    }
}

/// Where a parser stands between two bytes.
pub struct Midway {
    pub reading: Reading,
    /// What there is of an unfinished glyph.
    pub glyph: Seq<u8>,
    /// What there is of an unfinished sequence.
    pub sequence: Seq<u8>,
}

/// Where a parser stands at first.
pub open spec fn at_first() -> Midway {
    Midway { reading: Reading::Text, glyph: Seq::empty(), sequence: Seq::empty() }
}

/// Where a parser stands after some bytes.
pub open spec fn read_on(m: Midway, bytes: Seq<u8>) -> Midway
    decreases bytes.len(),
{
    if bytes.len() == 0 {
        m
    } else {
        let before = read_on(m, bytes.drop_last());
        let b = bytes.last();
        Midway {
            reading: reading_after(before.reading, b),
            glyph: partial_after(before.glyph, b),
            sequence: sequence_after(before.reading, before.sequence, b),
        }
    }
}

/// Where a parser stands after more was fed. Where a glyph began in what was fed before, the parser
/// may pass over some of the next three bytes as it completes it, an escape character too: of these
/// nothing is made but the glyph.
pub open spec fn read_more(m: Midway, bytes: Seq<u8>) -> Midway {
    let all = read_on(m, bytes);
    if m.glyph.len() == 0 || bytes.len() <= 1 {
        all
    } else if bytes.len() <= 3 {
        Midway { glyph: all.glyph, ..at_first() }
    } else {
        Midway { glyph: all.glyph, ..read_on(at_first(), bytes.skip(3)) }
    }
}

/// Where a parser stands after a history.
pub open spec fn read_in(h: Seq<VtStep>) -> Midway
    decreases h.len(),
{
    if h.len() == 0 {
        at_first()
    } else {
        match h.last() {
            VtStep::Start { .. } => at_first(),
            VtStep::Copied => at_first(),
            VtStep::Size { .. } => read_in(h.drop_last()),
            VtStep::Feed { bytes } => read_more(read_in(h.drop_last()), bytes),
        }
    }
}

/// What there is of an unfinished sequence or glyph.
pub open spec fn unfinished(h: Seq<VtStep>) -> Seq<u8> {
    let m = read_in(h);
    if m.reading == Reading::Text {
        m.glyph
    } else {
        m.sequence
    }
}

// --- which bytes a parser can take ---

/// The size a history ends with.
pub open spec fn size_of(h: Seq<VtStep>) -> (u16, u16)
    decreases h.len(),
{
    if h.len() == 0 {
        (0, 0)
    } else {
        match h.last() {
            VtStep::Start { rows, cols } => (rows, cols),
            VtStep::Size { rows, cols } => (rows, cols),
            VtStep::Feed { .. } => size_of(h.drop_last()),
            VtStep::Copied => size_of(h.drop_last()),
        }
    }
}

/// Whether a screen is so small that a glyph may not fit, or so wide that a tab may run beyond the
/// columns that can be counted.
pub open spec fn tight(h: Seq<VtStep>) -> bool {
    let (rows, cols) = size_of(h);
    rows < 2 || cols < 3 || cols > 65527
}

/// How many cells a glyph may take: those of a row, or in a screen of one row, where there is nowhere
/// to wrap to, those that are left.
pub open spec fn room(h: Seq<VtStep>) -> int {
    let (rows, cols) = size_of(h);
    let col = vt_cursor(h).1;
    if rows >= 2 {
        cols as int
    } else if col < cols {
        cols - col
    } else {
        0
    }
}

/// A screen on which a glyph is tried out: of its five columns, `cells` are free.
pub open spec fn trial(glyph: Seq<u8>, cells: int) -> Seq<VtStep> {
    seq![
        VtStep::Start { rows: 2, cols: 5 },
        VtStep::Feed { bytes: Seq::new((5 - cells) as nat, |i: int| 0x78u8) + glyph },
    ]
}

/// Whether a glyph takes no more than `cells` cells: where it takes more, it wraps onto the second row.
pub open spec fn fits(glyph: Seq<u8>, cells: int) -> bool {
    vt_cursor(trial(glyph, cells)).0 == 0
}

/// Whether a tight screen can take byte `b`: a tab that stays in range, a control character, part of
/// an escape sequence, or one that completes no glyph that is too wide. No glyph takes more than three
/// cells.
pub open spec fn takes(h: Seq<VtStep>, b: u8) -> bool {
    if b == 0x09 {
        vt_cursor(h).1 < 65528
    } else {
        ||| b < 0x20
        ||| read_in(h).reading != Reading::Text
        ||| room(h) >= 3
        ||| fits(read_in(h).glyph.push(b), room(h))
    }
}

/// The history after `bytes` were offered one by one, and those taken that can be.
pub open spec fn after_bytes(h: Seq<VtStep>, bytes: Seq<u8>) -> Seq<VtStep>
    decreases bytes.len(),
{
    if bytes.len() == 0 {
        h
    } else {
        let g = after_bytes(h, bytes.drop_last());
        if takes(g, bytes.last()) {
            g.push(VtStep::Feed { bytes: seq![bytes.last()] })
        } else {
            g
        }
    }
}

/// The history after `bytes` were offered. All are taken, but for those that do not fit in a tight
/// screen.
pub open spec fn after_feed(h: Seq<VtStep>, bytes: Seq<u8>) -> Seq<VtStep> {
    if tight(h) {
        after_bytes(h, bytes)
    } else {
        h.push(VtStep::Feed { bytes })
    }
}

// --- resizing ---

/// What makes a program's other screen be shown: the alternate one, or the main one.
pub open spec fn toggle(h: Seq<VtStep>) -> Seq<u8> {
    seq![
        0x1bu8,
        0x5b,
        0x3f,
        0x34,
        0x37,
        if vt_alternate_screen(h) {
            0x6c
        } else {
            0x68
        },
    ]
}

/// A copy of an emulator that shows its other screen.
pub open spec fn other_screen(h: Seq<VtStep>) -> Seq<VtStep> {
    after_feed(h.push(VtStep::Copied), toggle(h))
}

/// Whether in one of the first `rows` rows a wide glyph begins in the last of the first `cols` columns.
pub open spec fn straddled(h: Seq<VtStep>, rows: u16, cols: u16) -> bool {
    exists|row: u16|
        row < size_of(h).0 && row < rows && #[trigger] vt_wide(h, row, (cols - 1) as u16) == Some(true)
}

/// Whether another size would cut a wide glyph in half, on the screen that is shown or on the other
/// one.
pub open spec fn cuts(h: Seq<VtStep>, rows: u16, cols: u16) -> bool {
    cols < size_of(h).1 && (straddled(h, rows, cols) || straddled(other_screen(h), rows, cols))
}

/// Whether no wide glyph was ever cut in half, of which the parser would keep the first one.
pub open spec fn whole(h: Seq<VtStep>) -> bool
    decreases h.len(),
{
    if h.len() == 0 {
        true
    } else {
        whole(h.drop_last()) && match h.last() {
            VtStep::Size { rows, cols } => !cuts(h.drop_last(), rows, cols),
            _ => true,
        }
    }
}

/// What puts the cursor at a place, counted from zero, whatever region the program scrolls in.
pub open spec fn going_to(row: int, col: int) -> Seq<char> {
    "\u{1b}["@ + decimal((row + 1) as nat) + "d\u{1b}["@ + decimal((col + 1) as nat) + "G"@
}

/// What blanks the wide glyphs that begin in column `col` of the first `n` rows.
pub open spec fn blanking(h: Seq<VtStep>, col: u16, n: int) -> Seq<char>
    decreases n,
{
    if n <= 0 {
        Seq::empty()
    } else if vt_wide(h, (n - 1) as u16, col) == Some(true) {
        blanking(h, col, n - 1) + going_to(n - 1, col as int) + "\u{1b}[X"@
    } else {
        blanking(h, col, n - 1)
    }
}

/// What blanks the wide glyphs of the screen that is shown that another size would cut in half, and
/// leaves the cursor where it was.
pub open spec fn mending(h: Seq<VtStep>, rows: u16, cols: u16) -> Seq<u8> {
    let n = if size_of(h).0 < rows {
        size_of(h).0
    } else {
        rows
    };
    let (row, col) = vt_cursor(h);
    encode_utf8(blanking(h, (cols - 1) as u16, n as int) + going_to(row as int, col as int))
}

/// A copy on whose screens the wide glyphs are blank that another size would cut in half.
pub open spec fn mended(h: Seq<VtStep>, rows: u16, cols: u16) -> Seq<VtStep> {
    let other = other_screen(h);
    after_feed(
        h.push(VtStep::Copied),
        mending(h, rows, cols) + toggle(h) + mending(other, rows, cols) + toggle(other),
    )
}

/// The history after a new size was asked for. The screen keeps what fits. A wide glyph that would be
/// cut in half is blanked before, on a copy that then goes on with what was unfinished. Were one left
/// all the same, a fresh screen would take over.
pub open spec fn after_resize(h: Seq<VtStep>, rows: u16, cols: u16) -> Seq<VtStep> {
    if !cuts(h, rows, cols) {
        h.push(VtStep::Size { rows, cols })
    } else if !cuts(mended(h, rows, cols), rows, cols) {
        after_feed(mended(h, rows, cols).push(VtStep::Size { rows, cols }), unfinished(h))
    } else {
        seq![VtStep::Start { rows, cols }]
    }
}

// --- the calls into `vt100` ---

/// `vt100::Parser::new` makes a parser of the given size, here without scrollback. With no rows it
/// would panic.
#[verifier::external_body]
fn vt_new(rows: u16, cols: u16) -> (parser: VtParser)
    requires
        rows >= 1,
        cols >= 1,
    ensures
        vt_history(parser) == seq![VtStep::Start { rows, cols }],
{
    VtParser { parser: vt100::Parser::new(rows, cols, 0) }
}

/// `vt100::Parser::process` feeds bytes to a parser. It panics after half of a wide glyph was cut off,
/// where a glyph takes more cells than a row has, where it has to wrap in a screen of one row, and
/// where a tab would run beyond the columns that can be counted. One byte draws at most the glyph that
/// it completes; within an escape sequence it draws none.
#[verifier::external_body]
fn vt_process(parser: &mut VtParser, bytes: &[u8])
    requires
        whole(vt_history(*old(parser))),
        tight(vt_history(*old(parser))) ==> bytes@.len() == 1 && takes(
            vt_history(*old(parser)),
            bytes@[0],
        ),
    ensures
        vt_history(*final(parser)) == vt_history(*old(parser)).push(VtStep::Feed { bytes: bytes@ }),
{
    parser.parser.process(bytes)
}

/// `vt100::Screen::set_size` gives the screen another size. With no rows or no columns it would
/// panic.
#[verifier::external_body]
fn vt_set_size(parser: &mut VtParser, rows: u16, cols: u16)
    requires
        rows >= 1,
        cols >= 1,
    ensures
        vt_history(*final(parser)) == vt_history(*old(parser)).push(VtStep::Size { rows, cols }),
{
    parser.parser.screen_mut().set_size(rows, cols)
}

/// `vt100::Screen::cell` gives the cell at a place, and `vt100::Cell::contents` its text.
#[verifier::external_body]
fn vt_cell_text(parser: &VtParser, row: u16, col: u16) -> (text: Option<String>)
    ensures
        opt_text(text) == vt_cell(vt_history(*parser), row, col),
{
    match parser.parser.screen().cell(row, col) {
        Some(cell) => Some(cell.contents().to_string()),
        None => None,
    }
}

/// `vt100::Screen::row_wrapped` tells whether a row runs on into the next.
#[verifier::external_body]
fn vt_wrapped(parser: &VtParser, row: u16) -> (b: bool)
    ensures
        b == vt_row_wrapped(vt_history(*parser), row),
{
    parser.parser.screen().row_wrapped(row)
}

/// `vt100::Screen::cell` gives the cell at a place, and `vt100::Cell::is_wide` tells whether it holds
/// the first half of a wide glyph.
#[verifier::external_body]
fn vt_is_wide(parser: &VtParser, row: u16, col: u16) -> (wide: Option<bool>)
    ensures
        wide == vt_wide(vt_history(*parser), row, col),
{
    match parser.parser.screen().cell(row, col) {
        Some(cell) => Some(cell.is_wide()),
        None => None,
    }
}

/// `vt100::Screen::clone` copies the screen, which `vt100::Parser::screen_mut` puts into a new parser.
/// The parser that it came from stays as it is.
#[verifier::external_body]
fn vt_copy(parser: &VtParser) -> (copy: VtParser)
    ensures
        vt_history(copy) == vt_history(*parser).push(VtStep::Copied),
{
    let mut copy = vt100::Parser::new(1, 1, 0);
    *copy.screen_mut() = parser.parser.screen().clone();
    VtParser { parser: copy }
}

/// `vt100::Screen::cursor_position` gives the row and the column of the cursor.
#[verifier::external_body]
fn vt_position(parser: &VtParser) -> (at: (u16, u16))
    ensures
        at == vt_cursor(vt_history(*parser)),
{
    parser.parser.screen().cursor_position()
}

/// `vt100::Screen::bracketed_paste` tells whether bracketed paste is on.
#[verifier::external_body]
fn vt_pastes_bracketed(parser: &VtParser) -> (b: bool)
    ensures
        b == vt_bracketed_paste(vt_history(*parser)),
{
    parser.parser.screen().bracketed_paste()
}

/// `vt100::Screen::application_cursor` tells whether application cursor keys are on.
#[verifier::external_body]
fn vt_app_cursor(parser: &VtParser) -> (b: bool)
    ensures
        b == vt_application_cursor(vt_history(*parser)),
{
    parser.parser.screen().application_cursor()
}

/// `vt100::Screen::alternate_screen` tells whether the alternate screen is shown.
#[verifier::external_body]
fn vt_alternate(parser: &VtParser) -> (b: bool)
    ensures
        b == vt_alternate_screen(vt_history(*parser)),
{
    parser.parser.screen().alternate_screen()
}

/// `vt100::Screen::mouse_protocol_mode` tells which mouse events are asked for.
#[verifier::external_body]
fn vt_mouse(parser: &VtParser) -> (mode: MouseMode)
    ensures
        mode == vt_mouse_mode(vt_history(*parser)),
{
    match parser.parser.screen().mouse_protocol_mode() {
        vt100::MouseProtocolMode::None => MouseMode::Off,
        vt100::MouseProtocolMode::Press => MouseMode::Press,
        vt100::MouseProtocolMode::PressRelease => MouseMode::PressRelease,
        vt100::MouseProtocolMode::ButtonMotion => MouseMode::ButtonMotion,
        vt100::MouseProtocolMode::AnyMotion => MouseMode::AnyMotion,
    }
}

/// `vt100::Screen::mouse_protocol_encoding` tells how mouse events are to be written.
#[verifier::external_body]
fn vt_encoding(parser: &VtParser) -> (encoding: MouseEncoding)
    ensures
        encoding == vt_mouse_encoding(vt_history(*parser)),
{
    match parser.parser.screen().mouse_protocol_encoding() {
        vt100::MouseProtocolEncoding::Default => MouseEncoding::Default,
        vt100::MouseProtocolEncoding::Utf8 => MouseEncoding::Utf8,
        vt100::MouseProtocolEncoding::Sgr => MouseEncoding::Sgr,
    }
}

// --- emulators ---

fn is_opening(b: u8) -> (r: bool)
    ensures
        r == opens(b),
{
    (0x20 <= b && b <= 0x2f) || b == 0x50 || b == 0x58 || b == 0x5b || b == 0x5d || b == 0x5e || b
        == 0x5f
}

fn is_ending(kind: u8, b: u8) -> (r: bool)
    ensures
        r == ends(kind, b),
{
    if kind == 0x5b {
        0x40 <= b && b <= 0x7e
    } else if kind == 0x5d {
        b == 0x07
    } else if kind == 0x50 {
        b == 0x9c
    } else {
        kind <= 0x2f && 0x30 <= b && b <= 0x7e
    }
}

fn next_reading(reading: Reading, b: u8) -> (next: Reading)
    ensures
        next == reading_after(reading, b),
{
    if b == 0x1b {
        return Reading::Escape;
    }
    if b == 0x18 || b == 0x1a {
        return Reading::Text;
    }
    match reading {
        Reading::Text => Reading::Text,
        Reading::Escape => if is_opening(b) {
            Reading::Sequence(b)
        } else if 0x30 <= b && b <= 0x7e {
            Reading::Text
        } else {
            Reading::Escape
        },
        Reading::Sequence(kind) => if is_ending(kind, b) {
            Reading::Text
        } else {
            reading
        },
    }
}

fn next_partial(partial: Vec<u8>, b: u8) -> (next: Vec<u8>)
    ensures
        next@ == partial_after(partial@, b),
{
    let mut partial = partial;
    if b >= 0xc0 {
        let next: Vec<u8> = vec![b];
        assert(next@ =~= seq![b]);
        return next;
    }
    if b >= 0x80 && partial.len() > 0 {
        let first: u8 = partial[0];
        let len: usize = if first < 0xe0 {
            2
        } else if first < 0xf0 {
            3
        } else {
            4
        };
        if partial.len() < len - 1 {
            partial.push(b);
            return partial;
        }
    }
    let next: Vec<u8> = Vec::new();
    assert(next@ =~= Seq::<u8>::empty());
    next
}

fn next_sequence(reading: Reading, sequence: Vec<u8>, b: u8) -> (next: Vec<u8>)
    ensures
        next@ == sequence_after(reading, sequence@, b),
{
    let mut sequence = sequence;
    if b == 0x1b {
        let next: Vec<u8> = vec![b];
        assert(next@ =~= seq![b]);
        next
    } else if next_reading(reading, b) == Reading::Text {
        let next: Vec<u8> = Vec::new();
        assert(next@ =~= Seq::<u8>::empty());
        next
    } else {
        if b >= 0x20 {
            sequence.push(b);
        }
        sequence
    }
}

/// Where a parser stands, as it is remembered.
struct Place {
    reading: Reading,
    glyph: Vec<u8>,
    sequence: Vec<u8>,
}

impl View for Place {
    type V = Midway;

    closed spec fn view(&self) -> Midway {
        Midway { reading: self.reading, glyph: self.glyph@, sequence: self.sequence@ }
    }
}

impl Place {
    fn first() -> (place: Place)
        ensures
            place@ == at_first(),
    {
        let place = Place { reading: Reading::Text, glyph: Vec::new(), sequence: Vec::new() };
        assert(place.glyph@ =~= Seq::<u8>::empty());
        assert(place.sequence@ =~= Seq::<u8>::empty());
        place
    }

    fn on(self, bytes: &[u8]) -> (place: Place)
        ensures
            place@ == read_on(self@, bytes@),
    {
        let ghost m = self@;
        let mut place = self;
        let mut i: usize = 0;
        assert(bytes@.take(0) =~= Seq::<u8>::empty());
        while i < bytes.len()
            invariant
                i <= bytes@.len(),
                place@ == read_on(m, bytes@.take(i as int)),
            decreases bytes@.len() - i,
        {
            let b: u8 = bytes[i];
            assert(bytes@.take(i + 1).drop_last() =~= bytes@.take(i as int));
            let Place { reading, glyph, sequence } = place;
            place = Place {
                reading: next_reading(reading, b),
                glyph: next_partial(glyph, b),
                sequence: next_sequence(reading, sequence, b),
            };
            i = i + 1;
        }
        assert(bytes@.take(i as int) =~= bytes@);
        place
    }

    fn more(self, bytes: &[u8]) -> (place: Place)
        ensures
            place@ == read_more(self@, bytes@),
    {
        let sure = self.glyph.len() == 0 || bytes.len() <= 1;
        let all = self.on(bytes);
        if sure {
            return all;
        }
        let mut place = Place::first();
        if bytes.len() > 3 {
            let rest = slice_subrange(bytes, 3, bytes.len());
            assert(rest@ =~= bytes@.skip(3));
            place = place.on(rest);
        }
        let Place { reading: _, glyph, sequence: _ } = all;
        let Place { reading, glyph: _, sequence } = place;
        Place { reading, glyph, sequence }
    }
}

proof fn fresh_screens(rows: u16, cols: u16)
    ensures
        whole(seq![VtStep::Start { rows, cols }]),
        size_of(seq![VtStep::Start { rows, cols }]) == (rows, cols),
{
    assert(seq![VtStep::Start { rows, cols }].drop_last() =~= Seq::<VtStep>::empty());
    reveal_with_fuel(whole, 2);
}

fn is_fitting(partial: &Vec<u8>, b: u8, cells: u16) -> (r: bool)
    requires
        cells <= 2,
    ensures
        r == fits(partial@.push(b), cells as int),
{
    let mut bytes: Vec<u8> = Vec::new();
    let mut i: u16 = cells;
    while i < 5
        invariant
            cells <= i <= 5,
            bytes@ == Seq::new((i - cells) as nat, |k: int| 0x78u8),
        decreases 5 - i,
    {
        bytes.push(0x78);
        i = i + 1;
        assert(bytes@ =~= Seq::new((i - cells) as nat, |k: int| 0x78u8));
    }
    let mut glyph: Vec<u8> = slice_to_vec(partial.as_slice());
    glyph.push(b);
    bytes.append(&mut glyph);
    proof {
        fresh_screens(2, 5);
    }
    let mut vt = vt_new(2, 5);
    vt_process(&mut vt, bytes.as_slice());
    assert(vt_history(vt) =~= trial(partial@.push(b), cells as int));
    vt_position(&vt).0 == 0
}

fn write_going_to(row: u16, col: u16) -> (text: String)
    ensures
        text@ == going_to(row as int, col as int),
{
    let mut text = owned("\u{1b}[");
    let r = decimal_string(row as u64 + 1);
    text.append(r.as_str());
    text.append("d\u{1b}[");
    let c = decimal_string(col as u64 + 1);
    text.append(c.as_str());
    text.append("G");
    text
}

/// A terminal emulator that remembers what its parser is reading.
pub struct Emulator {
    pub vt: VtParser,
    rows: u16,
    cols: u16,
    place: Place,
}

impl View for Emulator {
    type V = Seq<VtStep>;

    closed spec fn view(&self) -> Seq<VtStep> {
        vt_history(self.vt)
    }
}

impl Emulator {
    #[verifier::type_invariant]
    spec fn remembers(self) -> bool {
        &&& size_of(vt_history(self.vt)) == (self.rows, self.cols)
        &&& read_in(vt_history(self.vt)) == self.place@
        &&& whole(vt_history(self.vt))
    }

    /// An emulator of the given size, with nothing on its screen.
    pub fn new(rows: u16, cols: u16) -> (e: Emulator)
        requires
            rows >= 1,
            cols >= 1,
        ensures
            e@ == seq![VtStep::Start { rows, cols }],
    {
        let vt = vt_new(rows, cols);
        proof {
            fresh_screens(rows, cols);
        }
        Emulator { vt, rows, cols, place: Place::first() }
    }

    /// Whether a tight screen can take a byte.
    fn is_taking(&self, b: u8) -> (r: bool)
        ensures
            r == takes(self@, b),
    {
        proof {
            use_type_invariant(self);
        }
        let col: u16 = vt_position(&self.vt).1;
        if b == 0x09 {
            return col < 65528;
        }
        if b < 0x20 || self.place.reading != Reading::Text {
            return true;
        }
        let cells: u16 = if self.rows >= 2 {
            self.cols
        } else if col < self.cols {
            self.cols - col
        } else {
            0
        };
        cells >= 3 || is_fitting(&self.place.glyph, b, cells)
    }

    /// The emulator after it took `bytes`.
    fn taking(self, bytes: &[u8]) -> (e: Emulator)
        requires
            tight(self@) ==> bytes@.len() == 1 && takes(self@, bytes@[0]),
        ensures
            e@ == self@.push(VtStep::Feed { bytes: bytes@ }),
    {
        proof {
            use_type_invariant(&self);
        }
        let ghost h = self@;
        let Emulator { vt, rows, cols, place } = self;
        let mut vt = vt;
        vt_process(&mut vt, bytes);
        let place = place.more(bytes);
        proof {
            assert(h.push(VtStep::Feed { bytes: bytes@ }).drop_last() =~= h);
        }
        Emulator { vt, rows, cols, place }
    }

    /// The emulator after `bytes` were offered: it takes what it can.
    pub fn fed(self, bytes: &[u8]) -> (e: Emulator)
        ensures
            e@ == after_feed(self@, bytes@),
    {
        proof {
            use_type_invariant(&self);
        }
        if self.rows >= 2 && 3 <= self.cols && self.cols <= 65527 {
            return self.taking(bytes);
        }
        let ghost h = self@;
        let mut e = self;
        let mut i: usize = 0;
        assert(bytes@.take(0) =~= Seq::<u8>::empty());
        while i < bytes.len()
            invariant
                i <= bytes@.len(),
                e@ == after_bytes(h, bytes@.take(i as int)),
            decreases bytes@.len() - i,
        {
            let b: u8 = bytes[i];
            assert(bytes@.take(i + 1).drop_last() =~= bytes@.take(i as int));
            if e.is_taking(b) {
                let piece = slice_subrange(bytes, i, i + 1);
                assert(piece@ =~= seq![b]);
                e = e.taking(piece);
            }
            i = i + 1;
        }
        assert(bytes@.take(i as int) =~= bytes@);
        e
    }

    /// A copy, which has read nothing.
    fn copied(&self) -> (e: Emulator)
        ensures
            e@ == self@.push(VtStep::Copied),
    {
        proof {
            use_type_invariant(self);
            assert(self@.push(VtStep::Copied).drop_last() =~= self@);
        }
        Emulator {
            vt: vt_copy(&self.vt),
            rows: self.rows,
            cols: self.cols,
            place: Place::first(),
        }
    }

    /// What makes the other screen be shown.
    fn toggling(&self) -> (bytes: Vec<u8>)
        ensures
            bytes@ == toggle(self@),
    {
        let last: u8 = if vt_alternate(&self.vt) {
            0x6c
        } else {
            0x68
        };
        let bytes: Vec<u8> = vec![0x1b, 0x5b, 0x3f, 0x34, 0x37, last];
        assert(bytes@ =~= toggle(self@));
        bytes
    }

    /// A copy that shows the other screen, the alternate one or the main one.
    fn turned(&self) -> (e: Emulator)
        ensures
            e@ == other_screen(self@),
    {
        let bytes = self.toggling();
        self.copied().fed(bytes.as_slice())
    }

    /// What blanks the wide glyphs that another size would cut in half.
    fn write_mending(&self, rows: u16, cols: u16) -> (bytes: Vec<u8>)
        requires
            cols >= 1,
        ensures
            bytes@ == mending(self@, rows, cols),
    {
        proof {
            use_type_invariant(self);
        }
        let n: u16 = if self.rows < rows {
            self.rows
        } else {
            rows
        };
        let mut text = String::new();
        let mut row: u16 = 0;
        assert(text@ =~= blanking(self@, (cols - 1) as u16, 0));
        while row < n
            invariant
                cols >= 1,
                row <= n,
                text@ == blanking(self@, (cols - 1) as u16, row as int),
            decreases n - row,
        {
            if let Some(wide) = vt_is_wide(&self.vt, row, cols - 1) {
                if wide {
                    let there = write_going_to(row, cols - 1);
                    text.append(there.as_str());
                    text.append("\u{1b}[X");
                }
            }
            row = row + 1;
        }
        let (at_row, at_col) = vt_position(&self.vt);
        let back = write_going_to(at_row, at_col);
        text.append(back.as_str());
        text.as_str().as_bytes_vec()
    }

    /// A copy without the wide glyphs that another size would cut in half.
    fn without_halves(&self, rows: u16, cols: u16) -> (e: Emulator)
        requires
            cols >= 1,
        ensures
            e@ == mended(self@, rows, cols),
    {
        let other = self.turned();
        let mut bytes = self.write_mending(rows, cols);
        let mut there = self.toggling();
        let mut more = other.write_mending(rows, cols);
        let mut back = other.toggling();
        bytes.append(&mut there);
        bytes.append(&mut more);
        bytes.append(&mut back);
        assert(bytes@ =~= mending(self@, rows, cols) + toggle(self@) + mending(
            other@,
            rows,
            cols,
        ) + toggle(other@));
        self.copied().fed(bytes.as_slice())
    }

    /// The emulator with another size, which cuts no wide glyph in half.
    fn sized(self, rows: u16, cols: u16) -> (e: Emulator)
        requires
            rows >= 1,
            cols >= 1,
            !cuts(self@, rows, cols),
        ensures
            e@ == self@.push(VtStep::Size { rows, cols }),
    {
        proof {
            use_type_invariant(&self);
        }
        let ghost h = self@;
        let Emulator { vt, rows: _, cols: _, place } = self;
        let mut vt = vt;
        vt_set_size(&mut vt, rows, cols);
        proof {
            assert(h.push(VtStep::Size { rows, cols }).drop_last() =~= h);
        }
        Emulator { vt, rows, cols, place }
    }

    /// Whether another size would cut a wide glyph in half.
    fn is_cut(&self, rows: u16, cols: u16) -> (r: bool)
        requires
            cols >= 1,
        ensures
            r == cuts(self@, rows, cols),
    {
        proof {
            use_type_invariant(self);
        }
        cols < self.cols && (self.is_straddled(rows, cols) || self.turned().is_straddled(rows, cols))
    }

    /// Whether in one of the first `rows` rows a wide glyph begins in the last of the first `cols`
    /// columns.
    fn is_straddled(&self, rows: u16, cols: u16) -> (r: bool)
        requires
            cols >= 1,
        ensures
            r == straddled(self@, rows, cols),
    {
        proof {
            use_type_invariant(self);
        }
        let mut row: u16 = 0;
        while row < self.rows && row < rows
            invariant
                size_of(self@) == (self.rows, self.cols),
                cols >= 1,
                row <= self.rows,
                forall|k: u16| k < row ==> #[trigger] vt_wide(self@, k, (cols - 1) as u16) != Some(true),
            decreases self.rows - row,
        {
            if let Some(wide) = vt_is_wide(&self.vt, row, cols - 1) {
                if wide {
                    return true;
                }
            }
            row = row + 1;
        }
        false
    }

    /// The emulator with another size.
    pub fn resized(self, rows: u16, cols: u16) -> (e: Emulator)
        requires
            rows >= 1,
            cols >= 1,
        ensures
            e@ == after_resize(self@, rows, cols),
    {
        proof {
            use_type_invariant(&self);
        }
        if !self.is_cut(rows, cols) {
            return self.sized(rows, cols);
        }
        let e = self.without_halves(rows, cols);
        if e.is_cut(rows, cols) {
            return Emulator::new(rows, cols);
        }
        let rest: &Vec<u8> = if self.place.reading == Reading::Text {
            &self.place.glyph
        } else {
            &self.place.sequence
        };
        e.sized(rows, cols).fed(rest.as_slice())
    }

    /// The text of a cell: `None` beyond the edges of the screen.
    pub fn cell(&self, row: u16, col: u16) -> (text: Option<String>)
        ensures
            opt_text(text) == vt_cell(self@, row, col),
    {
        vt_cell_text(&self.vt, row, col)
    }

    /// Whether a row runs on into the next.
    pub fn row_wrapped(&self, row: u16) -> (b: bool)
        ensures
            b == vt_row_wrapped(self@, row),
    {
        vt_wrapped(&self.vt, row)
    }

    /// Whether the program asked for bracketed paste.
    pub fn bracketed_paste(&self) -> (b: bool)
        ensures
            b == vt_bracketed_paste(self@),
    {
        vt_pastes_bracketed(&self.vt)
    }

    /// Whether the program asked for application cursor keys.
    pub fn application_cursor(&self) -> (b: bool)
        ensures
            b == vt_application_cursor(self@),
    {
        vt_app_cursor(&self.vt)
    }

    /// Whether the program draws on the alternate screen.
    pub fn alternate_screen(&self) -> (b: bool)
        ensures
            b == vt_alternate_screen(self@),
    {
        vt_alternate(&self.vt)
    }

    /// Which mouse events the program asked for.
    pub fn mouse_mode(&self) -> (mode: MouseMode)
        ensures
            mode == vt_mouse_mode(self@),
    {
        vt_mouse(&self.vt)
    }

    /// How the program wants mouse events written.
    pub fn mouse_encoding(&self) -> (encoding: MouseEncoding)
        ensures
            encoding == vt_mouse_encoding(self@),
    {
        vt_encoding(&self.vt)
    }
}

// --- what an emulator takes ---

proof fn bytes_keep(h: Seq<VtStep>, bytes: Seq<u8>)
    ensures
        size_of(after_bytes(h, bytes)) == size_of(h),
        whole(h) ==> whole(after_bytes(h, bytes)),
    decreases bytes.len(),
{
    if bytes.len() > 0 {
        bytes_keep(h, bytes.drop_last());
        let g = after_bytes(h, bytes.drop_last());
        assert(g.push(VtStep::Feed { bytes: seq![bytes.last()] }).drop_last() =~= g);
    }
}

proof fn feeding_keeps(h: Seq<VtStep>, bytes: Seq<u8>)
    ensures
        size_of(after_feed(h, bytes)) == size_of(h),
        whole(h) ==> whole(after_feed(h, bytes)),
{
    bytes_keep(h, bytes);
    assert(h.push(VtStep::Feed { bytes }).drop_last() =~= h);
}

/// An emulator has the size it was last given, whatever it was fed, and no wide glyph on its screens is
/// ever cut in half.
pub proof fn emulators_stay_whole(h: Seq<VtStep>, bytes: Seq<u8>, rows: u16, cols: u16)
    ensures
        whole(seq![VtStep::Start { rows, cols }]),
        size_of(seq![VtStep::Start { rows, cols }]) == (rows, cols),
        whole(h) ==> whole(after_feed(h, bytes)),
        size_of(after_feed(h, bytes)) == size_of(h),
        whole(h) ==> whole(after_resize(h, rows, cols)),
        size_of(after_resize(h, rows, cols)) == (rows, cols),
{
    fresh_screens(rows, cols);
    feeding_keeps(h, bytes);
    assert(h.push(VtStep::Size { rows, cols }).drop_last() =~= h);
    let c = h.push(VtStep::Copied);
    assert(c.drop_last() =~= h);
    let other = other_screen(h);
    feeding_keeps(
        c,
        mending(h, rows, cols) + toggle(h) + mending(other, rows, cols) + toggle(other),
    );
    let m = mended(h, rows, cols);
    assert(m.push(VtStep::Size { rows, cols }).drop_last() =~= m);
    feeding_keeps(m.push(VtStep::Size { rows, cols }), unfinished(h));
}

/// An emulator of at least two rows and three columns, and of a width that tab stops fit in, takes any
/// bytes.
pub proof fn roomy_emulators_take_anything(h: Seq<VtStep>, bytes: Seq<u8>)
    requires
        size_of(h).0 >= 2,
        3 <= size_of(h).1 <= 65527,
    ensures
        after_feed(h, bytes) == h.push(VtStep::Feed { bytes }),
{
}

/// A screen that is given another size goes on as it is, unless a wide glyph would be cut in half: one
/// that does not become narrower always does.
pub proof fn resizing_keeps_the_screen(h: Seq<VtStep>, rows: u16, cols: u16)
    requires
        cols >= size_of(h).1 || !(straddled(h, rows, cols) || straddled(other_screen(h), rows, cols)),
    ensures
        after_resize(h, rows, cols) == h.push(VtStep::Size { rows, cols }),
{
}

/// After any new size of at least two rows and three columns, what comes next is taken, also where the
/// screen was made narrower and a wide glyph was blanked.
pub proof fn output_goes_on_after_a_resize(h: Seq<VtStep>, rows: u16, cols: u16, bytes: Seq<u8>)
    requires
        rows >= 2,
        3 <= cols <= 65527,
    ensures
        after_feed(after_resize(h, rows, cols), bytes) == after_resize(h, rows, cols).push(
            VtStep::Feed { bytes },
        ),
{
    emulators_stay_whole(h, bytes, rows, cols);
    roomy_emulators_take_anything(after_resize(h, rows, cols), bytes);
}

/// In the smallest screens too, a byte is lost only if it completes a glyph that takes more cells than
/// there are, or is a tab at the end of the widest row there can be.
pub proof fn only_what_does_not_fit_is_lost(h: Seq<VtStep>, b: u8)
    ensures
        after_feed(h, seq![b]) == h.push(VtStep::Feed { bytes: seq![b] }) || (after_feed(h, seq![b])
            == h && tight(h) && ((b == 0x09 && vt_cursor(h).1 >= 65528) || (b >= 0x20 && read_in(
            h,
        ).reading == Reading::Text && room(h) < 3 && !fits(read_in(h).glyph.push(b), room(h))))),
{
    assert(seq![b].drop_last() =~= Seq::<u8>::empty());
    reveal_with_fuel(after_bytes, 2);
}

/// Within an escape sequence no byte but a tab is lost.
pub proof fn sequences_are_taken(h: Seq<VtStep>, b: u8)
    requires
        read_in(h).reading != Reading::Text,
        b != 0x09,
    ensures
        after_feed(h, seq![b]) == h.push(VtStep::Feed { bytes: seq![b] }),
{
    only_what_does_not_fit_is_lost(h, b);
}

proof fn one_more_is_read(h: Seq<VtStep>, b: u8)
    ensures
        read_in(h.push(VtStep::Feed { bytes: seq![b] })).reading == reading_after(
            read_in(h).reading,
            b,
        ),
{
    let bytes = seq![b];
    assert(h.push(VtStep::Feed { bytes }).drop_last() =~= h);
    assert(bytes.drop_last() =~= Seq::<u8>::empty());
    reveal_with_fuel(read_on, 2);
}

/// `n` steps that feed the bytes of `bytes` one by one.
pub open spec fn one_by_one(bytes: Seq<u8>, n: nat) -> Seq<VtStep> {
    Seq::new(n, |i: int| VtStep::Feed { bytes: seq![bytes[i]] })
}

proof fn toggling(h: Seq<VtStep>, n: nat)
    requires
        n <= 6,
    ensures
        ({
            let c = h.push(VtStep::Copied);
            let g = c + one_by_one(toggle(h), n);
            &&& after_bytes(c, toggle(h).take(n as int)) == g
            &&& n == 0 ==> read_in(g).reading == Reading::Text
            &&& n == 1 ==> read_in(g).reading == Reading::Escape
            &&& 2 <= n <= 5 ==> read_in(g).reading == Reading::Sequence(0x5b)
        }),
    decreases n,
{
    let c = h.push(VtStep::Copied);
    let bytes = toggle(h);
    let g = c + one_by_one(bytes, n);
    if n == 0 {
        assert(bytes.take(0) =~= Seq::<u8>::empty());
        assert(g =~= c);
    } else {
        toggling(h, (n - 1) as nat);
        let before = c + one_by_one(bytes, (n - 1) as nat);
        let b = bytes[n - 1];
        assert(bytes.take(n as int).drop_last() =~= bytes.take(n - 1));
        assert(before.push(VtStep::Feed { bytes: seq![b] }) =~= g);
        one_more_is_read(before, b);
    }
}

/// The copy that shows the other screen took all that makes it do so, however small it is.
pub proof fn the_other_screen_is_shown(h: Seq<VtStep>)
    ensures
        other_screen(h) == h.push(VtStep::Copied) + if tight(h) {
            one_by_one(toggle(h), 6)
        } else {
            seq![VtStep::Feed { bytes: toggle(h) }]
        },
{
    let c = h.push(VtStep::Copied);
    assert(c.drop_last() =~= h);
    toggling(h, 6);
    assert(toggle(h).take(6) =~= toggle(h));
    assert(c.push(VtStep::Feed { bytes: toggle(h) }) =~= c + seq![
        VtStep::Feed { bytes: toggle(h) },
    ]);
}

/// A tight screen takes the bytes of a chunk as it would if each came on its own.
pub proof fn chunks_do_not_matter(h: Seq<VtStep>, first: Seq<u8>, second: Seq<u8>)
    requires
        tight(h),
    ensures
        after_feed(h, first + second) == after_feed(after_feed(h, first), second),
    decreases second.len(),
{
    bytes_keep(h, first);
    if second.len() == 0 {
        assert(first + second =~= first);
    } else {
        chunks_do_not_matter(h, first, second.drop_last());
        assert((first + second).drop_last() =~= first + second.drop_last());
    }
}

} // verus!
