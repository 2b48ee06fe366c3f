//! Selecting text in a pane with the mouse: what a drag covers, what a double-click takes, and the
//! text that is copied.

use vstd::prelude::*;
use crate::base64::{base64, base64_encode};
use crate::emulator::{vt_row_wrapped, Emulator, VtStep};
use crate::geometry::{add_to, bring_within, minus, plus, take_off, within, Rect};
use crate::ids::TerminalId;
use crate::links::{cell_or_blank, cell_text, read_cell};
use crate::text::{alphanumeric, chars_of, texts};

verus! {

/// A selection confined to one pane: from `anchor` to `head`, in screen coordinates.
///
/// It is active once a drag or a double-click made it one: a bare click selects nothing.
#[derive(Clone, Copy, Debug, PartialEq, Eq)]
pub struct Selection {
    pub terminal: TerminalId,
    pub inner: Rect,
    pub anchor: (u16, u16),
    pub head: (u16, u16),
    pub active: bool,
}

/// The screen cell of `inner` closest to `(col, row)`.
pub open spec fn nearest_cell(inner: Rect, col: u16, row: u16) -> (u16, u16) {
    (
        within(col, inner.x, plus(inner.x, minus(inner.width, 1))),
        within(row, inner.y, plus(inner.y, minus(inner.height, 1))),
    )
}

/// Bring a screen point into the cells of `inner`.
pub fn clamp_to(inner: Rect, col: u16, row: u16) -> (p: (u16, u16))
    ensures
        p == nearest_cell(inner, col, row),
{
    let x: u16 = bring_within(col, inner.x, add_to(inner.x, take_off(inner.width, 1)));
    let y: u16 = bring_within(row, inner.y, add_to(inner.y, take_off(inner.height, 1)));
    (x, y)
}

/// Whether `a` comes before `b` in reading order, or is the same point.
pub open spec fn reads_first(a: (u16, u16), b: (u16, u16)) -> bool {
    a.1 < b.1 || (a.1 == b.1 && a.0 <= b.0)
}

/// Two points in reading order: from top to bottom, then from left to right.
pub fn ordered(a: (u16, u16), b: (u16, u16)) -> (out: ((u16, u16), (u16, u16)))
    ensures
        out == if reads_first(a, b) {
            (a, b)
        } else {
            (b, a)
        },
        reads_first(out.0, out.1),
{
    if a.1 < b.1 || (a.1 == b.1 && a.0 <= b.0) {
        (a, b)
    } else {
        (b, a)
    }
}

impl Selection {
    /// The end of the selection that reads first.
    pub open spec fn start(self) -> (u16, u16) {
        if reads_first(self.anchor, self.head) {
            self.anchor
        } else {
            self.head
        }
    }

    /// The end of the selection that reads last.
    pub open spec fn end(self) -> (u16, u16) {
        if reads_first(self.anchor, self.head) {
            self.head
        } else {
            self.anchor
        }
    }

    /// The last column of the pane.
    pub open spec fn right(self) -> u16 {
        plus(self.inner.x, minus(self.inner.width, 1))
    }

    /// What is selected in screen row `y`: the row, the first column and the last.
    pub open spec fn row_at(self, y: u16) -> (u16, u16, u16) {
        (
            y,
            if y == self.start().1 {
                self.start().0
            } else {
                self.inner.x
            },
            if y == self.end().1 {
                self.end().0
            } else {
                self.right()
            },
        )
    }

    /// Whether the selection is one, rather than a bare click.
    pub fn is_active(&self) -> (b: bool)
        ensures
            b == self.active,
    {
        self.active
    }
}

/// The rows a selection covers, from the first to the last.
pub open spec fn covered_rows(sel: Selection) -> Seq<(u16, u16, u16)> {
    Seq::new(
        (sel.end().1 - sel.start().1 + 1) as nat,
        |k: int| sel.row_at((sel.start().1 + k) as u16),
    )
}

/// The rows of `sel`: in the first one from where it starts, in the last one to where it ends, and
/// between them the whole width of the pane.
pub fn selection_rows(sel: &Selection) -> (rows: Vec<(u16, u16, u16)>)
    ensures
        rows@ == covered_rows(*sel),
{
    let (start, end) = ordered(sel.anchor, sel.head);
    let right: u16 = add_to(sel.inner.x, take_off(sel.inner.width, 1));
    let n: usize = (end.1 - start.1) as usize + 1;
    let mut rows: Vec<(u16, u16, u16)> = Vec::new();
    let mut k: usize = 0;
    while k < n
        invariant
            k <= n,
            start == sel.start(),
            end == sel.end(),
            right == sel.right(),
            n == end.1 - start.1 + 1,
            rows@ == covered_rows(*sel).take(k as int),
        decreases n - k,
    {
        let y: u16 = start.1 + k as u16;
        let c0: u16 = if y == start.1 {
            start.0
        } else {
            sel.inner.x
        };
        let c1: u16 = if y == end.1 {
            end.0
        } else {
            right
        };
        rows.push((y, c0, c1));
        assert(rows@ =~= covered_rows(*sel).take(k + 1));
        k = k + 1;
    }
    assert(rows@ =~= covered_rows(*sel));
    rows
}

/// The rows to draw reversed: those of the selection, and none for a bare click.
pub open spec fn highlighted(sel: Selection) -> Seq<(u16, u16, u16)> {
    if sel.active {
        covered_rows(sel)
    } else {
        Seq::empty()
    }
}

/// The screen cells to draw reversed for `sel`, as `(row, first column, last column)`.
pub fn highlight_selection(sel: &Selection) -> (rows: Vec<(u16, u16, u16)>)
    ensures
        rows@ == highlighted(*sel),
{
    if !sel.is_active() {
        return Vec::new();
    }
    selection_rows(sel)
}

// --- the text of a selection ---

/// The text of the cells from column `c0` to before column `to` of a screen row.
pub open spec fn row_text(h: Seq<VtStep>, inner: Rect, y: u16, c0: u16, to: int) -> Seq<char>
    decreases to - c0,
{
    if to <= c0 {
        Seq::empty()
    } else {
        row_text(h, inner, y, c0, to - 1) + cell_or_blank(
            h,
            minus(y, inner.y),
            minus((to - 1) as u16, inner.x),
        )
    }
}

/// `s` without the blanks at its end.
pub open spec fn without_blanks(s: Seq<char>) -> Seq<char>
    decreases s.len(),
{
    if s.len() > 0 && s.last() == ' ' {
        without_blanks(s.drop_last())
    } else {
        s
    }
}

/// The text of one covered row. A row that the terminal wrapped runs on into the next: it keeps its
/// blanks and gets no line break. Any other row is trimmed, and separated from the next.
pub open spec fn covered_text(h: Seq<VtStep>, sel: Selection, row: (u16, u16, u16)) -> Seq<char> {
    let (y, c0, c1) = row;
    let line = row_text(h, sel.inner, y, c0, c1 + 1);
    if vt_row_wrapped(h, minus(y, sel.inner.y)) && c1 == sel.right() {
        line
    } else if y != sel.end().1 {
        without_blanks(line).push('\n')
    } else {
        without_blanks(line)
    }
}

/// The text of the first `n` covered rows.
pub open spec fn rows_text(h: Seq<VtStep>, sel: Selection, n: int) -> Seq<char>
    decreases n,
{
    if n <= 0 {
        Seq::empty()
    } else {
        rows_text(h, sel, n - 1) + covered_text(h, sel, covered_rows(sel)[n - 1])
    }
}

/// The text that a selection on a screen covers.
pub open spec fn selected_text(h: Seq<VtStep>, sel: Selection) -> Seq<char> {
    rows_text(h, sel, covered_rows(sel).len() as int)
}

fn read_row(screen: &Emulator, inner: Rect, y: u16, c0: u16, c1: u16) -> (out: String)
    ensures
        out@ == row_text(screen@, inner, y, c0, c1 + 1),
{
    let mut out = String::new();
    let to: u32 = c1 as u32 + 1;
    let mut x: u32 = c0 as u32;
    assert(out@ =~= row_text(screen@, inner, y, c0, c0 as int));
    if to <= x {
        return out;
    }
    while x < to
        invariant
            c0 <= x <= to,
            to == c1 + 1,
            out@ == row_text(screen@, inner, y, c0, x as int),
        decreases to - x,
    {
        let contents = read_cell(screen, take_off(y, inner.y), take_off(x as u16, inner.x));
        let ghost before = out@;
        if contents.as_str().is_empty() {
            out.push(' ');
            assert(out@ =~= before + cell_or_blank(
                screen@,
                minus(y, inner.y),
                minus(x as u16, inner.x),
            ));
        } else {
            out.append(contents.as_str());
        }
        x = x + 1;
    }
    out
}

fn drop_blanks(s: String) -> (out: String)
    ensures
        out@ == without_blanks(s@),
{
    let mut out = s;
    let cs = chars_of(out.as_str());
    let mut n: usize = cs.len();
    assert(cs@.take(n as int) =~= cs@);
    while n > 0 && cs[n - 1] == ' '
        invariant
            n <= cs@.len(),
            out@ == cs@.take(n as int),
            without_blanks(cs@) == without_blanks(cs@.take(n as int)),
        decreases n,
    {
        assert(cs@.take(n as int).drop_last() =~= cs@.take(n - 1));
        let _ = out.pop();
        n = n - 1;
    }
    out
}

/// The text under `sel` on `screen`, in reading order.
pub fn text_of_selection(screen: &Emulator, sel: &Selection) -> (out: String)
    ensures
        out@ == selected_text(screen@, *sel),
{
    let rows = selection_rows(sel);
    let ghost h = screen@;
    let right: u16 = add_to(sel.inner.x, take_off(sel.inner.width, 1));
    let (_start, end) = ordered(sel.anchor, sel.head);
    let mut out = String::new();
    let mut k: usize = 0;
    while k < rows.len()
        invariant
            k <= rows@.len(),
            h == screen@,
            right == sel.right(),
            end == sel.end(),
            rows@ == covered_rows(*sel),
            out@ == rows_text(h, *sel, k as int),
        decreases rows@.len() - k,
    {
        let (y, c0, c1) = rows[k];
        let ghost before = out@;
        let line = read_row(screen, sel.inner, y, c0, c1);
        let wrapped = screen.row_wrapped(take_off(y, sel.inner.y)) && c1 == right;
        if wrapped {
            out.append(line.as_str());
        } else {
            let trimmed = drop_blanks(line);
            out.append(trimmed.as_str());
            if y != end.1 {
                out.push('\n');
                assert((before + trimmed@).push('\n') =~= before + trimmed@.push('\n'));
            }
        }
        k = k + 1;
    }
    out
}

/// A wrapped line comes out whole: no break is put where the terminal made one.
pub proof fn wrapped_rows_are_not_broken(h: Seq<VtStep>, sel: Selection, y: u16)
    requires
        vt_row_wrapped(h, minus(y, sel.inner.y)),
        sel.row_at(y).2 == sel.right(),
    ensures
        covered_text(h, sel, sel.row_at(y)) == row_text(
            h,
            sel.inner,
            y,
            sel.row_at(y).1,
            sel.right() + 1,
        ),
{
}

// --- tokens ---

/// Punctuation that keeps paths, URLs, flags and dotted names in one piece.
pub open spec fn token_punctuation(c: char) -> bool {
    c == '.' || c == '_' || c == '-' || c == '/' || c == '~' || c == ':' || c == '@' || c == '?'
        || c == '=' || c == '&' || c == '%' || c == '+' || c == '#'
}

/// Whether a cell's text belongs to a token. Empty cells, blanks and the second half of a wide glyph
/// among them, are boundaries.
pub open spec fn token_text(s: Seq<char>) -> bool {
    s.len() > 0 && forall|i: int|
        0 <= i < s.len() ==> alphanumeric(#[trigger] s[i]) || token_punctuation(s[i])
}

/// Whether the contents of a cell belong to a token.
pub fn is_token_char(contents: &str) -> (b: bool)
    ensures
        b == token_text(contents@),
{
    let cs = chars_of(contents);
    if cs.len() == 0 {
        return false;
    }
    let mut i: usize = 0;
    while i < cs.len()
        invariant
            i <= cs@.len(),
            cs@ == contents@,
            forall|k: int|
                0 <= k < i ==> alphanumeric(#[trigger] cs@[k]) || token_punctuation(cs@[k]),
        decreases cs@.len() - i,
    {
        let c = cs[i];
        let good = c.is_alphanumeric() || c == '.' || c == '_' || c == '-' || c == '/' || c == '~'
            || c == ':' || c == '@' || c == '?' || c == '=' || c == '&' || c == '%' || c == '+' || c
            == '#';
        if !good {
            assert(!(alphanumeric(cs@[i as int]) || token_punctuation(cs@[i as int])));
            return false;
        }
        i = i + 1;
    }
    true
}

/// The first cell of the unbroken run of token cells that ends in cell `x`.
pub open spec fn token_start(row: Seq<Seq<char>>, x: int) -> int
    decreases x,
{
    if x > 0 && token_text(row[x - 1]) {
        token_start(row, x - 1)
    } else {
        x
    }
}

/// The last cell of the unbroken run of token cells that begins in cell `x`.
pub open spec fn token_end(row: Seq<Seq<char>>, x: int) -> int
    decreases row.len() - x,
{
    if x + 1 < row.len() && token_text(row[x + 1]) {
        token_end(row, x + 1)
    } else {
        x
    }
}

/// The cells of the token at cell `x` of a row, if there is one.
pub open spec fn span_at(row: Seq<Seq<char>>, x: int) -> Option<(int, int)> {
    if 0 <= x < row.len() && token_text(row[x]) {
        Some((token_start(row, x), token_end(row, x)))
    } else {
        None
    }
}

/// The first and the last cell of the token that holds cell `x` of `row`, or `None` where that cell
/// belongs to no token.
pub fn token_span(row: &Vec<String>, x: usize) -> (out: Option<(usize, usize)>)
    ensures
        match (out, span_at(texts(row@), x as int)) {
            (Some((a, b)), Some((c, d))) => a == c && b == d && a <= x <= b < row@.len(),
            (None, None) => true,
            _ => false,
        },
{
    let ghost cells = texts(row@);
    if x >= row.len() || !is_token_char(row[x].as_str()) {
        return None;
    }
    let mut x0: usize = x;
    while x0 > 0 && is_token_char(row[x0 - 1].as_str())
        invariant
            x0 <= x < row@.len(),
            cells == texts(row@),
            token_start(cells, x as int) == token_start(cells, x0 as int),
        decreases x0,
    {
        x0 = x0 - 1;
    }
    let mut x1: usize = x;
    while x1 + 1 < row.len() && is_token_char(row[x1 + 1].as_str())
        invariant
            x <= x1 < row@.len() <= usize::MAX,
            cells == texts(row@),
            token_end(cells, x as int) == token_end(cells, x1 as int),
        decreases row@.len() - x1,
    {
        x1 = x1 + 1;
    }
    Some((x0, x1))
}

/// A token is the longest run of token cells around its cell: all of them belong to it, and the
/// cells on either side do not.
pub proof fn spans_are_maximal(row: Seq<Seq<char>>, x: int)
    requires
        0 <= x < row.len(),
        token_text(row[x]),
    ensures
        ({
            let (a, b) = (token_start(row, x), token_end(row, x));
            &&& 0 <= a <= x <= b < row.len()
            &&& forall|k: int| a <= k <= b ==> token_text(#[trigger] row[k])
            &&& a > 0 ==> !token_text(row[a - 1])
            &&& b + 1 < row.len() ==> !token_text(row[b + 1])
        }),
{
    start_is_maximal(row, x);
    end_is_maximal(row, x);
}

proof fn start_is_maximal(row: Seq<Seq<char>>, x: int)
    requires
        0 <= x < row.len(),
        token_text(row[x]),
    ensures
        0 <= token_start(row, x) <= x,
        forall|k: int| token_start(row, x) <= k <= x ==> token_text(#[trigger] row[k]),
        token_start(row, x) > 0 ==> !token_text(row[token_start(row, x) - 1]),
    decreases x,
{
    if x > 0 && token_text(row[x - 1]) {
        start_is_maximal(row, x - 1);
    }
}

proof fn end_is_maximal(row: Seq<Seq<char>>, x: int)
    requires
        0 <= x < row.len(),
        token_text(row[x]),
    ensures
        x <= token_end(row, x) < row.len(),
        forall|k: int| x <= k <= token_end(row, x) ==> token_text(#[trigger] row[k]),
        token_end(row, x) + 1 < row.len() ==> !token_text(row[token_end(row, x) + 1]),
    decreases row.len() - x,
{
    if x + 1 < row.len() && token_text(row[x + 1]) {
        end_is_maximal(row, x + 1);
    }
}

/// The texts of the cells of a screen row.
pub open spec fn row_texts(h: Seq<VtStep>, y: u16, width: u16) -> Seq<Seq<char>> {
    Seq::new(width as nat, |x: int| cell_text(h, y, x as u16))
}

/// Where a token that begins at cell `x` of row `y` really begins: rows above that wrapped into it
/// are part of it, as long as the token reaches the seam on both sides.
pub open spec fn token_head(h: Seq<VtStep>, width: u16, y: u16, x: int) -> (u16, int)
    decreases y,
{
    if x == 0 && y > 0 && vt_row_wrapped(h, (y - 1) as u16) {
        match span_at(row_texts(h, (y - 1) as u16, width), minus(width, 1) as int) {
            Some((a, _)) => token_head(h, width, (y - 1) as u16, a),
            None => (y, x),
        }
    } else {
        (y, x)
    }
}

/// Where a token that ends at cell `x` of row `y` really ends.
pub open spec fn token_tail(h: Seq<VtStep>, width: u16, height: u16, y: u16, x: int) -> (u16, int)
    decreases height - y,
{
    if x == minus(width, 1) && vt_row_wrapped(h, y) && y + 1 < height {
        match span_at(row_texts(h, (y + 1) as u16, width), 0) {
            Some((_, b)) => token_tail(h, width, height, (y + 1) as u16, b),
            None => (y, x),
        }
    } else {
        (y, x)
    }
}

/// The selection of the token under the screen point `(col, row)` of a pane.
pub open spec fn token_at(
    h: Seq<VtStep>,
    terminal: TerminalId,
    inner: Rect,
    col: u16,
    row: u16,
) -> Option<Selection> {
    if row < inner.y || col < inner.x {
        None
    } else {
        let y = (row - inner.y) as u16;
        match span_at(row_texts(h, y, inner.width), col - inner.x) {
            None => None,
            Some((a, b)) => {
                let (y0, x0) = token_head(h, inner.width, y, a);
                let (y1, x1) = token_tail(h, inner.width, inner.height, y, b);
                Some(
                    Selection {
                        terminal,
                        inner,
                        anchor: (plus(inner.x, x0 as u16), plus(inner.y, y0)),
                        head: (plus(inner.x, x1 as u16), plus(inner.y, y1)),
                        active: true,
                    },
                )
            },
        }
    }
}

fn read_row_cells(screen: &Emulator, y: u16, width: u16) -> (out: Vec<String>)
    ensures
        texts(out@) == row_texts(screen@, y, width),
        out@.len() == width,
{
    let mut out: Vec<String> = Vec::new();
    let mut x: u16 = 0;
    while x < width
        invariant
            x <= width,
            out@.len() == x,
            texts(out@) == row_texts(screen@, y, width).take(x as int),
        decreases width - x,
    {
        let t = read_cell(screen, y, x);
        out.push(t);
        assert(texts(out@) =~= row_texts(screen@, y, width).take(x + 1));
        x = x + 1;
    }
    assert(texts(out@) =~= row_texts(screen@, y, width));
    out
}

/// The token under the screen point `(col, row)` of pane `inner`, ready to highlight and copy, or
/// `None` where there is none: a double-click on a blank selects nothing.
///
/// A token longer than the pane is wide occupies several rows and is still one token, so the
/// selection grows over the seams.
pub fn token_selection(
    screen: &Emulator,
    terminal: TerminalId,
    inner: Rect,
    col: u16,
    row: u16,
) -> (out: Option<Selection>)
    ensures
        out == token_at(screen@, terminal, inner, col, row),
{
    if row < inner.y || col < inner.x {
        return None;
    }
    let ghost h = screen@;
    let y: u16 = row - inner.y;
    let cells = read_row_cells(screen, y, inner.width);
    let last: u16 = take_off(inner.width, 1);
    let (x0, x1) = match token_span(&cells, (col - inner.x) as usize) {
        Some(span) => span,
        None => {
            return None;
        },
    };
    let mut y0: u16 = y;
    let mut a: usize = x0;
    let mut going = true;
    while going && a == 0 && y0 > 0 && screen.row_wrapped(y0 - 1)
        invariant
            h == screen@,
            last == minus(inner.width, 1),
            a < inner.width,
            going ==> token_head(h, inner.width, y, x0 as int) == token_head(
                h,
                inner.width,
                y0,
                a as int,
            ),
            !going ==> token_head(h, inner.width, y, x0 as int) == (y0, a as int),
        decreases y0, if going { 1int } else { 0 },
    {
        let above = read_row_cells(screen, y0 - 1, inner.width);
        match token_span(&above, last as usize) {
            Some((ax, _)) => {
                y0 = y0 - 1;
                a = ax;
            },
            None => {
                going = false;
            },
        }
    }
    let mut y1: u16 = y;
    let mut b: usize = x1;
    let mut going = true;
    while going && b == last as usize && screen.row_wrapped(y1) && (y1 as u32) + 1
        < inner.height as u32
        invariant
            h == screen@,
            last == minus(inner.width, 1),
            b < inner.width,
            going ==> token_tail(h, inner.width, inner.height, y, x1 as int) == token_tail(
                h,
                inner.width,
                inner.height,
                y1,
                b as int,
            ),
            !going ==> token_tail(h, inner.width, inner.height, y, x1 as int) == (y1, b as int),
        decreases inner.height - y1, if going { 1int } else { 0 },
    {
        let below = read_row_cells(screen, y1 + 1, inner.width);
        match token_span(&below, 0) {
            Some((_, bx)) => {
                y1 = y1 + 1;
                b = bx;
            },
            None => {
                going = false;
            },
        }
    }
    Some(
        Selection {
            terminal,
            inner,
            anchor: (add_to(inner.x, a as u16), add_to(inner.y, y0)),
            head: (add_to(inner.x, b as u16), add_to(inner.y, y1)),
            active: true,
        },
    )
}

// --- the clipboard ---

/// The sequence that puts `text` on the system clipboard.
pub open spec fn clipboard_text(text: Seq<char>) -> Seq<char> {
    "\u{1b}]52;c;"@ + base64(vstd::utf8::encode_utf8(text)) + seq!['\u{7}']
}

/// The sequence that asks the outer terminal to put `text` on the system clipboard.
pub fn copy_to_clipboard(text: &str) -> (out: String)
    ensures
        out@ == clipboard_text(text@),
{
    let mut out = String::new();
    out.append("\u{1b}]52;c;");
    let body = base64_encode(text.as_bytes());
    out.append(body.as_str());
    out.push('\u{7}');
    assert(out@ =~= clipboard_text(text@));
    out
}

} // verus!
