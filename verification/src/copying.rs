//! What a selection is: the cells between two points in reading order, marked and copied alike.

use vstd::prelude::*;
use vstd::utf8::encode_utf8;
use crate::base64::{base64, base64_reads_back, unbase64};
use crate::emulator::{vt_cell, vt_row_wrapped, VtStep};
use crate::geometry::Rect;
use crate::ids::TerminalId;
use crate::selection::{
    clipboard_text, covered_rows, covered_text, highlighted, nearest_cell, row_text, row_texts,
    rows_text, selected_text, span_at, spans_are_maximal, token_at, token_head, token_punctuation,
    token_tail, token_text, without_blanks, Selection,
};
use crate::text::alphanumeric;

verus! {

// --- the text of a row ---

/// Of the blanks of a line only those at its end go: what is left is the line up to its last
/// character that is not blank, indentation and all.
pub proof fn only_the_blanks_at_the_end_go(s: Seq<char>)
    ensures
        exists|k: int|
            0 <= k <= s.len() && without_blanks(s) == #[trigger] s.take(k) && (forall|i: int|
                k <= i < s.len() ==> s[i] == ' ') && (k == 0 || s[k - 1] != ' '),
    decreases s.len(),
{
    if s.len() > 0 && s.last() == ' ' {
        let t = s.drop_last();
        only_the_blanks_at_the_end_go(t);
        let k = choose|k: int|
            0 <= k <= t.len() && without_blanks(t) == #[trigger] t.take(k) && (forall|i: int|
                k <= i < t.len() ==> t[i] == ' ') && (k == 0 || t[k - 1] != ' ');
        assert(s.take(k) =~= t.take(k));
        assert forall|i: int| k <= i < s.len() implies s[i] == ' ' by {
            if i < t.len() {
                assert(t[i] == ' ');
            }
        }
        assert(k == 0 || s[k - 1] == t[k - 1]);
    } else {
        assert(s.take(s.len() as int) =~= s);
    }
}

/// The character that a cell is copied as, where it holds no more than one.
pub open spec fn cell_char(h: Seq<VtStep>, row: int, col: int) -> char {
    match vt_cell(h, row as u16, col as u16) {
        Some(t) => if t.len() == 0 {
            ' '
        } else {
            t[0]
        },
        None => ' ',
    }
}

/// Whether a cell holds no more than one character.
pub open spec fn narrow(h: Seq<VtStep>, row: int, col: int) -> bool {
    match vt_cell(h, row as u16, col as u16) {
        Some(t) => t.len() <= 1,
        None => true,
    }
}

/// A row is read cell by cell, from the first column to the last, in screen coordinates; a cell with
/// nothing in it reads as a blank.
pub proof fn a_row_is_read_cell_by_cell(h: Seq<VtStep>, inner: Rect, y: u16, c0: u16, to: int)
    requires
        inner.y <= y,
        inner.x <= c0 <= to <= 0x1_0000,
        forall|x: int| c0 <= x < to ==> #[trigger] narrow(h, y - inner.y, x - inner.x),
    ensures
        row_text(h, inner, y, c0, to).len() == to - c0,
        forall|k: int|
            0 <= k < to - c0 ==> #[trigger] row_text(h, inner, y, c0, to)[k] == cell_char(
                h,
                y - inner.y,
                c0 + k - inner.x,
            ),
    decreases to - c0,
{
    if to > c0 {
        a_row_is_read_cell_by_cell(h, inner, y, c0, to - 1);
        assert(narrow(h, y - inner.y, (to - 1) - inner.x));
        let before = row_text(h, inner, y, c0, to - 1);
        let out = row_text(h, inner, y, c0, to);
        assert forall|k: int| 0 <= k < to - c0 implies #[trigger] out[k] == cell_char(
            h,
            y - inner.y,
            c0 + k - inner.x,
        ) by {
            if k < to - 1 - c0 {
                assert(out[k] == before[k]);
            }
        }
    }
}

// --- which cells ---

/// Whether point `p` is not behind point `q` for a reader: on an earlier row, or on the same row and
/// not to its right.
pub open spec fn not_behind(p: (int, int), q: (int, int)) -> bool {
    p.1 < q.1 || (p.1 == q.1 && p.0 <= q.0)
}

/// Whether a cell of the pane lies between the two ends of a selection, whichever comes first.
pub open spec fn between_the_ends(sel: Selection, x: int, y: int) -> bool {
    let a = (sel.anchor.0 as int, sel.anchor.1 as int);
    let b = (sel.head.0 as int, sel.head.1 as int);
    (not_behind(a, (x, y)) && not_behind((x, y), b)) || (not_behind(b, (x, y)) && not_behind(
        (x, y),
        a,
    ))
}

/// Whether both ends of a selection are cells of its pane.
pub open spec fn ends_in_pane(sel: Selection) -> bool {
    &&& sel.inner.fits() && sel.inner.width > 0 && sel.inner.height > 0
    &&& sel.inner.has(sel.anchor.0, sel.anchor.1)
    &&& sel.inner.has(sel.head.0, sel.head.1)
}

/// Marked are exactly the cells of the pane between the two ends, in reading order, the ends among
/// them; a bare click marks nothing.
pub proof fn the_cells_between_are_marked(sel: Selection, x: u16, y: u16)
    requires
        ends_in_pane(sel),
        sel.inner.has(x, y),
    ensures
        (exists|k: int|
            0 <= k < highlighted(sel).len() && (#[trigger] highlighted(sel)[k]).0 == y
                && highlighted(sel)[k].1 <= x <= highlighted(sel)[k].2) <==> (sel.active
            && between_the_ends(sel, x as int, y as int)),
{
    let rows = covered_rows(sel);
    if sel.active && between_the_ends(sel, x as int, y as int) {
        let k = y - sel.start().1;
        assert(rows[k] == sel.row_at(y));
        assert(highlighted(sel)[k].0 == y);
    }
    if exists|k: int|
        0 <= k < highlighted(sel).len() && (#[trigger] highlighted(sel)[k]).0 == y && highlighted(
            sel,
        )[k].1 <= x <= highlighted(sel)[k].2 {
        let k = choose|k: int|
            0 <= k < highlighted(sel).len() && (#[trigger] highlighted(sel)[k]).0 == y
                && highlighted(sel)[k].1 <= x <= highlighted(sel)[k].2;
        assert(highlighted(sel)[k] == sel.row_at((sel.start().1 + k) as u16));
    }
}

/// The pieces of a text, one after the other.
pub open spec fn strung(pieces: Seq<Seq<char>>) -> Seq<char>
    decreases pieces.len(),
{
    if pieces.len() == 0 {
        Seq::empty()
    } else {
        strung(pieces.drop_last()) + pieces.last()
    }
}

/// Whether `out` is `line` without the blanks at its end.
pub open spec fn trimmed_at_the_end(line: Seq<char>, out: Seq<char>) -> bool {
    &&& out.len() <= line.len()
    &&& forall|i: int| 0 <= i < out.len() ==> #[trigger] out[i] == line[i]
    &&& forall|i: int| out.len() <= i < line.len() ==> #[trigger] line[i] == ' '
    &&& out.len() > 0 ==> out[out.len() - 1] != ' '
}

/// What row `k` of a selection adds to its text: the cells of the first row from the first end on,
/// those of the last row up to the last end, and whole rows between. The blanks at the end of a row
/// go, and a break follows every row but the last. A row that the terminal wrapped goes on into the
/// next: it keeps its blanks and gets no break.
pub open spec fn adds_a_line(h: Seq<VtStep>, sel: Selection, k: int, piece: Seq<char>) -> bool {
    let first = if not_behind(
        (sel.anchor.0 as int, sel.anchor.1 as int),
        (sel.head.0 as int, sel.head.1 as int),
    ) {
        sel.anchor
    } else {
        sel.head
    };
    let last = if first == sel.anchor {
        sel.head
    } else {
        sel.anchor
    };
    let n = last.1 - first.1 + 1;
    let edge = sel.inner.x + sel.inner.width - 1;
    let y = (first.1 + k) as u16;
    let from = if k == 0 {
        first.0
    } else {
        sel.inner.x
    };
    let to = if k == n - 1 {
        last.0 as int
    } else {
        edge
    };
    let line = row_text(h, sel.inner, y, from, to + 1);
    if vt_row_wrapped(h, (y - sel.inner.y) as u16) && to == edge {
        piece == line
    } else if k < n - 1 {
        piece.len() > 0 && piece[piece.len() - 1] == '\n' && trimmed_at_the_end(
            line,
            piece.drop_last(),
        )
    } else {
        trimmed_at_the_end(line, piece)
    }
}

/// A selection is copied row by row.
pub proof fn a_selection_is_copied_row_by_row(h: Seq<VtStep>, sel: Selection) -> (pieces: Seq<
    Seq<char>,
>)
    requires
        ends_in_pane(sel),
    ensures
        selected_text(h, sel) == strung(pieces),
        pieces.len() == if sel.anchor.1 <= sel.head.1 {
            sel.head.1 - sel.anchor.1 + 1
        } else {
            sel.anchor.1 - sel.head.1 + 1
        },
        forall|k: int| 0 <= k < pieces.len() ==> adds_a_line(h, sel, k, #[trigger] pieces[k]),
{
    let rows = covered_rows(sel);
    let pieces = Seq::new(rows.len(), |k: int| covered_text(h, sel, rows[k]));
    pieces_are_rows(h, sel, rows.len() as int);
    assert(pieces.take(rows.len() as int) =~= pieces);
    assert forall|k: int| 0 <= k < pieces.len() implies adds_a_line(h, sel, k, #[trigger] pieces[k]) by {
        let (y, c0, c1) = rows[k];
        let line = row_text(h, sel.inner, y, c0, c1 + 1);
        only_the_blanks_at_the_end_go(line);
        let m = choose|m: int|
            0 <= m <= line.len() && without_blanks(line) == #[trigger] line.take(m) && (forall|i: int|
                m <= i < line.len() ==> line[i] == ' ') && (m == 0 || line[m - 1] != ' ');
        let edge = sel.inner.x + sel.inner.width - 1;
        let n = sel.end().1 - sel.start().1 + 1;
        assert(sel.right() == edge);
        assert(y == sel.start().1 + k);
        assert(c0 == if k == 0 { sel.start().0 } else { sel.inner.x });
        assert(c1 == if k == n - 1 { sel.end().0 as int } else { edge });
        assert(sel.inner.y <= y);
        let piece = pieces[k];
        assert(piece == covered_text(h, sel, rows[k]));
        assert(trimmed_at_the_end(line, line.take(m)));
        if !(vt_row_wrapped(h, (y - sel.inner.y) as u16) && c1 == edge) && k < n - 1 {
            assert(piece.drop_last() =~= line.take(m));
        }
    }
    pieces
}

proof fn pieces_are_rows(h: Seq<VtStep>, sel: Selection, n: int)
    requires
        0 <= n <= covered_rows(sel).len(),
    ensures
        ({
            let rows = covered_rows(sel);
            let pieces = Seq::new(rows.len(), |k: int| covered_text(h, sel, rows[k]));
            rows_text(h, sel, n) == strung(pieces.take(n))
        }),
    decreases n,
{
    let rows = covered_rows(sel);
    let pieces = Seq::new(rows.len(), |k: int| covered_text(h, sel, rows[k]));
    if n > 0 {
        pieces_are_rows(h, sel, n - 1);
        assert(pieces.take(n).drop_last() =~= pieces.take(n - 1));
    }
}

/// It does not matter which end of a selection was the first: dragged backwards, it marks and copies
/// the same.
pub proof fn selections_have_no_direction(h: Seq<VtStep>, sel: Selection)
    ensures
        ({
            let back = Selection { anchor: sel.head, head: sel.anchor, ..sel };
            &&& highlighted(back) == highlighted(sel)
            &&& selected_text(h, back) == selected_text(h, sel)
        }),
{
    let back = Selection { anchor: sel.head, head: sel.anchor, ..sel };
    assert(back.start() == sel.start() && back.end() == sel.end());
    assert(covered_rows(back) =~= covered_rows(sel));
    rows_read_alike(h, sel, back, covered_rows(sel).len() as int);
}

proof fn rows_read_alike(h: Seq<VtStep>, a: Selection, b: Selection, n: int)
    requires
        covered_rows(a) == covered_rows(b),
        a.inner == b.inner,
        a.end() == b.end(),
    ensures
        rows_text(h, a, n) == rows_text(h, b, n),
    decreases n,
{
    if n > 0 {
        rows_read_alike(h, a, b, n - 1);
    }
}

/// A point is brought to the cell of the pane that is nearest on each axis; a cell of the pane is
/// its own.
pub proof fn points_are_brought_in(inner: Rect, col: u16, row: u16)
    requires
        inner.fits(),
        inner.width > 0,
        inner.height > 0,
    ensures
        ({
            let (x, y) = nearest_cell(inner, col, row);
            &&& inner.has(x, y)
            &&& inner.x <= col < inner.x + inner.width ==> x == col
            &&& inner.y <= row < inner.y + inner.height ==> y == row
            &&& col < inner.x ==> x == inner.x
            &&& row < inner.y ==> y == inner.y
            &&& col >= inner.x + inner.width ==> x == inner.x + inner.width - 1
            &&& row >= inner.y + inner.height ==> y == inner.y + inner.height - 1
        }),
{
}

// --- tokens ---

/// What belongs to a token: letters, digits, and the punctuation of paths, addresses and flags; no
/// blank, bracket, quote or comma.
pub proof fn tokens_are_words_paths_and_addresses(c: char)
    ensures
        token_text(seq![c]) <==> alphanumeric(c) || "._-/~:@?=&%+#"@.contains(c),
        !token_text(Seq::<char>::empty()),
{
    reveal_strlit("._-/~:@?=&%+#");
    let p = "._-/~:@?=&%+#"@;
    let s = seq![c];
    assert(s[0] == c);
    if p.contains(c) {
        let k = choose|k: int| 0 <= k < p.len() && p[k] == c;
        assert(token_punctuation(p[k]));
    }
    if token_punctuation(c) {
        assert(p[0] == '.' && p[1] == '_' && p[2] == '-' && p[3] == '/' && p[4] == '~' && p[5] == ':'
            && p[6] == '@' && p[7] == '?' && p[8] == '=' && p[9] == '&' && p[10] == '%' && p[11]
            == '+' && p[12] == '#');
    }
    if token_text(s) {
        assert(alphanumeric(s[0]) || token_punctuation(s[0]));
    }
}

/// Whether a token that begins at cell `a` of a row began on the row above: that one was wrapped, and
/// ends in a token.
pub open spec fn runs_on_above(h: Seq<VtStep>, inner: Rect, row: u16, a: int) -> bool {
    &&& a == 0 && row > inner.y
    &&& vt_row_wrapped(h, (row - 1 - inner.y) as u16)
    &&& token_text(row_texts(h, (row - 1 - inner.y) as u16, inner.width)[inner.width - 1])
}

/// Whether a token that ends at cell `b` of a row goes on in the row below, which is in the pane.
pub open spec fn runs_on_below(h: Seq<VtStep>, inner: Rect, row: u16, b: int) -> bool {
    &&& b == inner.width - 1 && row + 1 < inner.y + inner.height
    &&& vt_row_wrapped(h, (row - inner.y) as u16)
    &&& token_text(row_texts(h, (row + 1 - inner.y) as u16, inner.width)[0])
}

/// A double-click takes the token under it, and all of it: its row is searched both ways to the first
/// cell that belongs to none, and the cell that was clicked is part of what is taken. Where a wrapped
/// line runs on, so does the token. On a cell that belongs to none it takes nothing.
pub proof fn a_double_click_takes_the_token(
    h: Seq<VtStep>,
    terminal: TerminalId,
    inner: Rect,
    col: u16,
    row: u16,
)
    requires
        inner.fits(),
        inner.has(col, row),
    ensures
        ({
            let here = row_texts(h, (row - inner.y) as u16, inner.width);
            let at = col - inner.x;
            &&& !token_text(here[at]) ==> token_at(h, terminal, inner, col, row) is None
            &&& token_text(here[at]) ==> {
                &&& token_at(h, terminal, inner, col, row) matches Some(sel) && sel.active
                    && sel.terminal == terminal && sel.inner == inner
                &&& {
                    let sel = token_at(h, terminal, inner, col, row)->0;
                    let (a, b) = (span_at(here, at)->0);
                    &&& 0 <= a <= at <= b < inner.width
                    &&& forall|k: int| a <= k <= b ==> token_text(#[trigger] here[k])
                    &&& a > 0 ==> !token_text(here[a - 1])
                    &&& b + 1 < inner.width ==> !token_text(here[b + 1])
                    &&& !runs_on_above(h, inner, row, a) ==> sel.anchor == (
                        (inner.x + a) as u16,
                        row,
                    )
                    &&& runs_on_above(h, inner, row, a) ==> sel.anchor.1 < row
                    &&& !runs_on_below(h, inner, row, b) ==> sel.head == (
                        (inner.x + b) as u16,
                        row,
                    )
                    &&& runs_on_below(h, inner, row, b) ==> sel.head.1 > row
                    &&& not_behind(
                        (sel.anchor.0 as int, sel.anchor.1 as int),
                        (col as int, row as int),
                    )
                    &&& not_behind(
                        (col as int, row as int),
                        (sel.head.0 as int, sel.head.1 as int),
                    )
                }
            }
        }),
{
    let y = (row - inner.y) as u16;
    let here = row_texts(h, y, inner.width);
    let at = col - inner.x;
    if token_text(here[at]) {
        spans_are_maximal(here, at);
        let (a, b) = (span_at(here, at)->0);
        heads_are_above(h, inner.width, y, a);
        tails_are_below(h, inner.width, inner.height, y, b);
    }
}

proof fn heads_are_above(h: Seq<VtStep>, width: u16, y: u16, x: int)
    requires
        0 <= x < width,
    ensures
        token_head(h, width, y, x).0 <= y,
        0 <= token_head(h, width, y, x).1 < width,
        token_head(h, width, y, x).0 < y || token_head(h, width, y, x).1 == x,
        token_head(h, width, y, x).0 < y <==> x == 0 && y > 0 && vt_row_wrapped(h, (y - 1) as u16)
            && token_text(row_texts(h, (y - 1) as u16, width)[width - 1]),
    decreases y,
{
    if x == 0 && y > 0 && vt_row_wrapped(h, (y - 1) as u16) {
        let above = row_texts(h, (y - 1) as u16, width);
        if token_text(above[width - 1]) {
            spans_are_maximal(above, width - 1);
            heads_are_above(h, width, (y - 1) as u16, (span_at(above, width - 1)->0).0);
        }
    }
}

proof fn tails_are_below(h: Seq<VtStep>, width: u16, height: u16, y: u16, x: int)
    requires
        0 <= x < width,
        y < height,
    ensures
        y <= token_tail(h, width, height, y, x).0 < height,
        0 <= token_tail(h, width, height, y, x).1 < width,
        token_tail(h, width, height, y, x).0 > y || token_tail(h, width, height, y, x).1 == x,
        token_tail(h, width, height, y, x).0 > y <==> x == width - 1 && vt_row_wrapped(h, y) && y + 1
            < height && token_text(row_texts(h, (y + 1) as u16, width)[0]),
    decreases height - y,
{
    if x == width - 1 && vt_row_wrapped(h, y) && y + 1 < height {
        let below = row_texts(h, (y + 1) as u16, width);
        if token_text(below[0]) {
            spans_are_maximal(below, 0);
            tails_are_below(h, width, height, (y + 1) as u16, (span_at(below, 0)->0).1);
        }
    }
}

// --- the clipboard ---

/// What goes to the clipboard is one sequence that the outer terminal takes apart again into the
/// text that was selected.
pub proof fn the_clipboard_gets_the_text(text: Seq<char>)
    ensures
        ({
            let out = clipboard_text(text);
            let n = out.len() - 1;
            &&& out.len() >= 8
            &&& out.take(7) == seq!['\u{1b}', ']', '5', '2', ';', 'c', ';']
            &&& out[n] == '\u{7}'
            &&& unbase64(out.subrange(7, n)) == encode_utf8(text)
        }),
{
    reveal_strlit("\u{1b}]52;c;");
    let body = base64(encode_utf8(text));
    let out = clipboard_text(text);
    base64_reads_back(encode_utf8(text));
    assert(out.take(7) =~= seq!['\u{1b}', ']', '5', '2', ';', 'c', ';']);
    assert(out.subrange(7, out.len() - 1) =~= body);
}

} // verus!
