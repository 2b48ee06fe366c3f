//! What is made clickable: URLs, whole, on just the cells that show them.

use vstd::prelude::*;
use crate::emulator::{vt_cell, vt_row_wrapped, VtStep};
use crate::geometry::Rect;
use crate::links::{
    cell_start, cells_text, http, https, is_wide, line_cells, line_end, line_links, link_close,
    link_marks, link_open, link_runs, links_from, links_of_line, only_punctuation, row_cells,
    run_end, run_end_is_in, run_marks, scheme_len, sentence_end, stands_at, urls_are_found_in_full,
    urls_are_urls, urls_from, with_cell, CellView, LinkView,
};
use crate::text::{decimal, whitespace};

verus! {

// --- URLs ---

/// Whether a character ends a sentence rather than a URL.
pub open spec fn ends_a_sentence(c: char) -> bool {
    ".,;:!?'\")]}>"@.contains(c)
}

proof fn sentences_end_alike(c: char)
    ensures
        sentence_end(c) == ends_a_sentence(c),
{
    reveal_strlit(".,;:!?'\")]}>");
    let p = ".,;:!?'\")]}>"@;
    if p.contains(c) {
        let k = choose|k: int| 0 <= k < p.len() && p[k] == c;
        assert(sentence_end(p[k]));
    }
    if sentence_end(c) {
        assert(p[0] == '.' && p[1] == ',' && p[2] == ';' && p[3] == ':' && p[4] == '!' && p[5] == '?'
            && p[6] == '\'' && p[7] == '"' && p[8] == ')' && p[9] == ']' && p[10] == '}' && p[11]
            == '>');
    }
}

/// Whether `s` begins with `http://` or `https://` at place `i`.
pub open spec fn begins_a_url(s: Seq<char>, i: int) -> bool {
    ||| i + 7 <= s.len() && s.subrange(i, i + 7) == "http://"@
    ||| i + 8 <= s.len() && s.subrange(i, i + 8) == "https://"@
}

proof fn urls_begin_alike(s: Seq<char>, i: int)
    requires
        0 <= i,
    ensures
        scheme_len(s, i) > 0 <==> begins_a_url(s, i),
        scheme_len(s, i) > 0 ==> i + 7 <= i + scheme_len(s, i) <= i + 8,
{
    reveal_strlit("http://");
    reveal_strlit("https://");
    if stands_at(s, i, https()) {
        assert forall|k: int| 0 <= k < 8 implies s[i + k] == "https://"@[k] by {
            assert(s[i + k] == https()[k]);
        }
        assert(s.subrange(i, i + 8) =~= "https://"@);
    }
    if stands_at(s, i, http()) {
        assert forall|k: int| 0 <= k < 7 implies s[i + k] == "http://"@[k] by {
            assert(s[i + k] == http()[k]);
        }
        assert(s.subrange(i, i + 7) =~= "http://"@);
    }
    if i + 7 <= s.len() && s.subrange(i, i + 7) == "http://"@ {
        assert forall|k: int| 0 <= k < http().len() implies s[i + k] == #[trigger] http()[k] by {
            assert(s.subrange(i, i + 7)[k] == "http://"@[k]);
        }
    }
    if i + 8 <= s.len() && s.subrange(i, i + 8) == "https://"@ {
        assert forall|k: int| 0 <= k < https().len() implies s[i + k] == #[trigger] https()[k] by {
            assert(s.subrange(i, i + 8)[k] == "https://"@[k]);
        }
    }
}

/// A URL begins with `http://` or `https://`, goes on beyond that without white space, and does not
/// end in the punctuation of a sentence; what stands between it and the next white space is such
/// punctuation alone.
pub proof fn urls_are_whole(s: Seq<char>, i: int)
    requires
        0 <= i < urls_from(s, 0).len(),
    ensures
        ({
            let (a, b) = urls_from(s, 0)[i];
            &&& 0 <= a && a + 8 <= b <= s.len()
            &&& begins_a_url(s, a)
            &&& forall|k: int| a + 8 <= k < b ==> !whitespace(#[trigger] s[k])
            &&& !ends_a_sentence(s[b - 1])
            &&& only_punctuation(s, b)
        }),
{
    urls_are_urls(s, 0);
    urls_are_found_in_full(s, 0);
    let (a, b) = urls_from(s, 0)[i];
    urls_begin_alike(s, a);
    sentences_end_alike(s[b - 1]);
}

/// No URL is passed over: wherever one begins with something behind it, a URL was found there.
pub proof fn no_url_is_passed_over(s: Seq<char>, p: int)
    requires
        0 <= p < s.len(),
        begins_a_url(s, p),
        p + 8 < s.len(),
        !whitespace(s[p + 7]),
        !whitespace(s[p + 8]),
        !ends_a_sentence(s[p + 8]),
    ensures
        exists|i: int|
            0 <= i < urls_from(s, 0).len() && (#[trigger] urls_from(s, 0)[i]).0 <= p < urls_from(
                s,
                0,
            )[i].1,
{
    urls_are_found_in_full(s, 0);
    urls_begin_alike(s, p);
    sentences_end_alike(s[p + 8]);
    let from = p + scheme_len(s, p);
    assert(scheme_len(s, p) > 0);
    if only_punctuation(s, from) {
        run_end_is_in(s, p + 9);
        assert(run_end(s, p + 8) == run_end(s, p + 9));
        assert(run_end(s, p + 7) == run_end(s, p + 8));
        assert(sentence_end(s[p + 8]));
    }
}

// --- cells ---

proof fn runs_cover_their_cells(cells: Seq<CellView>, from: int, to: int, n: int, i: int)
    requires
        0 <= n <= cells.len(),
    ensures
        0 <= i < n && from <= cell_start(cells, i) < to ==> exists|r: int|
            0 <= r < link_runs(cells, from, to, n).len() && (#[trigger] link_runs(
                cells,
                from,
                to,
                n,
            )[r]).0 == cells[i].row && link_runs(cells, from, to, n)[r].1 <= cells[i].col
                <= link_runs(cells, from, to, n)[r].2,
        forall|r: int|
            0 <= r < link_runs(cells, from, to, n).len() ==> (#[trigger] link_runs(
                cells,
                from,
                to,
                n,
            )[r]).1 <= link_runs(cells, from, to, n)[r].2,
    decreases n,
{
    if n > 0 {
        runs_cover_their_cells(cells, from, to, n - 1, i);
        let before = link_runs(cells, from, to, n - 1);
        let all = link_runs(cells, from, to, n);
        let c = cells[n - 1];
        if from <= cell_start(cells, n - 1) < to {
            assert(all == with_cell(before, c.row, c.col));
            let last = all.len() - 1;
            assert(all[last].0 == c.row && all[last].2 == c.col);
            if 0 <= i < n - 1 && from <= cell_start(cells, i) < to {
                let r = choose|r: int|
                    0 <= r < before.len() && (#[trigger] before[r]).0 == cells[i].row && before[r].1
                        <= cells[i].col <= before[r].2;
                assert(all[r].0 == cells[i].row);
            }
        }
    }
}

proof fn runs_hold_no_other_cell(cells: Seq<CellView>, from: int, to: int, n: int, r: int, x: u16) -> (
    i: int)
    requires
        0 <= n <= cells.len(),
        0 <= r < link_runs(cells, from, to, n).len(),
        link_runs(cells, from, to, n)[r].1 <= x <= link_runs(cells, from, to, n)[r].2,
    ensures
        0 <= i < n,
        cells[i].row == link_runs(cells, from, to, n)[r].0,
        cells[i].col == x,
        from <= cell_start(cells, i) < to,
    decreases n,
{
    let before = link_runs(cells, from, to, n - 1);
    let all = link_runs(cells, from, to, n);
    let c = cells[n - 1];
    if from <= cell_start(cells, n - 1) < to {
        if all.len() == before.len() {
            if r == all.len() - 1 && x == c.col {
                n - 1
            } else {
                runs_hold_no_other_cell(cells, from, to, n - 1, r, x)
            }
        } else if r == all.len() - 1 {
            n - 1
        } else {
            runs_hold_no_other_cell(cells, from, to, n - 1, r, x)
        }
    } else {
        runs_hold_no_other_cell(cells, from, to, n - 1, r, x)
    }
}

/// A link covers every cell whose text begins within its URL, and no cell whose text does not.
pub proof fn links_cover_their_cells(cells: Seq<CellView>, from: int, to: int, row: u16, x: u16)
    ensures
        ({
            let runs = link_runs(cells, from, to, cells.len() as int);
            (exists|r: int|
                0 <= r < runs.len() && (#[trigger] runs[r]).0 == row && runs[r].1 <= x <= runs[r].2)
                <==> (exists|i: int|
                0 <= i < cells.len() && (#[trigger] cells[i]).row == row && cells[i].col == x && from
                    <= cell_start(cells, i) < to)
        }),
{
    let n = cells.len() as int;
    let runs = link_runs(cells, from, to, n);
    if exists|r: int|
        0 <= r < runs.len() && (#[trigger] runs[r]).0 == row && runs[r].1 <= x <= runs[r].2 {
        let r = choose|r: int|
            0 <= r < runs.len() && (#[trigger] runs[r]).0 == row && runs[r].1 <= x <= runs[r].2;
        let i = runs_hold_no_other_cell(cells, from, to, n, r, x);
        assert(cells[i].row == row);
    }
    if exists|i: int|
        0 <= i < cells.len() && (#[trigger] cells[i]).row == row && cells[i].col == x && from
            <= cell_start(cells, i) < to {
        let i = choose|i: int|
            0 <= i < cells.len() && (#[trigger] cells[i]).row == row && cells[i].col == x && from
                <= cell_start(cells, i) < to;
        runs_cover_their_cells(cells, from, to, n, i);
    }
}

// --- marks ---

/// Whether a run of cells lies in a pane.
pub open spec fn run_in_pane(inner: Rect, run: (u16, u16, u16)) -> bool {
    run.0 < inner.height && run.1 <= run.2 < inner.width
}

/// Each run of a link is opened before its first cell and closed after its last, in screen
/// coordinates.
pub proof fn marks_stand_at_the_ends(
    inner: Rect,
    id: nat,
    url: Seq<char>,
    runs: Seq<(u16, u16, u16)>,
    n: int,
    k: int,
)
    requires
        inner.fits(),
        0 <= k < n <= runs.len(),
        forall|i: int| 0 <= i < runs.len() ==> run_in_pane(inner, #[trigger] runs[i]),
    ensures
        ({
            let marks = run_marks(inner, id, url, runs, n);
            &&& marks.len() == 2 * n
            &&& marks[2 * k].x == inner.x + runs[k].1 && marks[2 * k].y == inner.y + runs[k].0
            &&& marks[2 * k].before == link_open(id, url) && marks[2 * k].after.len() == 0
            &&& marks[2 * k + 1].x == inner.x + runs[k].2 && marks[2 * k + 1].y == inner.y
                + runs[k].0
            &&& marks[2 * k + 1].after == link_close() && marks[2 * k + 1].before.len() == 0
        }),
    decreases n,
{
    assert(run_in_pane(inner, runs[n - 1]));
    assert(run_marks(inner, id, url, runs, 0).len() == 0);
    if k < n - 1 {
        marks_stand_at_the_ends(inner, id, url, runs, n - 1, k);
    } else if n > 1 {
        marks_stand_at_the_ends(inner, id, url, runs, n - 1, n - 2);
    }
}

/// The runs of one link are told apart from those of every other by its number, its place among the
/// links.
pub proof fn links_are_numbered(inner: Rect, links: Seq<LinkView>, n: int, k: int)
    requires
        0 <= k < n <= links.len(),
    ensures
        ({
            let own = run_marks(
                inner,
                k as nat,
                links[k].url,
                links[k].runs,
                links[k].runs.len() as int,
            );
            let at = link_marks(inner, links, k).len() as int;
            &&& at + own.len() <= link_marks(inner, links, n).len()
            &&& link_marks(inner, links, n).subrange(at, at + own.len()) == own
        }),
    decreases n,
{
    let own = run_marks(inner, k as nat, links[k].url, links[k].runs, links[k].runs.len() as int);
    let at = link_marks(inner, links, k).len() as int;
    let all = link_marks(inner, links, n);
    if k == n - 1 {
        assert(all.subrange(at, at + own.len()) =~= own);
    } else {
        links_are_numbered(inner, links, n - 1, k);
        let before = link_marks(inner, links, n - 1);
        assert(all.subrange(at, at + own.len()) =~= before.subrange(at, at + own.len()));
    }
}

/// The marks are the sequences by which a terminal is told of a link: its number and its address, and
/// its end.
pub proof fn marks_are_sequences(id: nat, url: Seq<char>)
    ensures
        link_open(id, url) == seq!['\u{1b}', ']', '8', ';', 'i', 'd', '='] + decimal(id) + seq![';']
            + url + seq!['\u{1b}', '\\'],
        link_close() == seq!['\u{1b}', ']', '8', ';', ';', '\u{1b}', '\\'],
{
    reveal_strlit("\u{1b}]8;id=");
    reveal_strlit("\u{1b}\\");
    reveal_strlit("\u{1b}]8;;\u{1b}\\");
    assert("\u{1b}]8;id="@ =~= seq!['\u{1b}', ']', '8', ';', 'i', 'd', '=']);
    assert("\u{1b}\\"@ =~= seq!['\u{1b}', '\\']);
    assert(link_close() =~= seq!['\u{1b}', ']', '8', ';', ';', '\u{1b}', '\\']);
}

// --- screens ---

/// A line of text goes on from row to row while rows wrap, and ends with the first that does not, or
/// with the screen.
pub proof fn wrapped_rows_are_one_line(h: Seq<VtStep>, y: u16, height: u16)
    requires
        y < height,
    ensures
        ({
            let last = line_end(h, y, height);
            &&& y <= last < height
            &&& forall|r: u16| y <= r < last ==> #[trigger] vt_row_wrapped(h, r)
            &&& last + 1 < height ==> !vt_row_wrapped(h, last)
        }),
    decreases height - y,
{
    if vt_row_wrapped(h, y) && y + 1 < height {
        wrapped_rows_are_one_line(h, (y + 1) as u16, height);
    }
}

/// A line holds the cells of its rows in reading order, each with what it shows, or a blank.
pub proof fn lines_are_read_cell_by_cell(
    h: Seq<VtStep>,
    width: u16,
    y: u16,
    last: u16,
    row: u16,
    x: u16,
)
    requires
        y <= row <= last,
        x < width,
    ensures
        ({
            let cells = line_cells(h, width, y, last);
            let k = (row - y) * width + x;
            &&& cells.len() == (last - y + 1) * width
            &&& 0 <= k < cells.len()
            &&& cells[k].row == row && cells[k].col == x
            &&& vt_cell(h, row, x) matches Some(t) ==> (t.len() > 0 ==> cells[k].text == t)
            &&& vt_cell(h, row, x) is None || (vt_cell(h, row, x)->0).len() == 0 ==> cells[k].text
                == seq![' ']
        }),
    decreases last - y,
{
    let cells = line_cells(h, width, y, last);
    lines_are_as_long_as_their_rows(h, width, y, last);
    let k = (row - y) * width + x;
    assert(0 <= k < (last - y + 1) * width) by (nonlinear_arith)
        requires
            0 <= row - y <= last - y,
            0 <= x < width,
            k == (row - y) * width + x,
    ;
    if row == y {
        assert(k == x) by (nonlinear_arith)
            requires
                row == y,
                k == (row - y) * width + x,
        ;
        assert(cells[k] == row_cells(h, y, width as nat)[x as int]);
    } else {
        let m = (y + 1) as u16;
        lines_are_read_cell_by_cell(h, width, m, last, row, x);
        assert(k - width == (row - m) * width + x) by (nonlinear_arith)
            requires
                m == y + 1,
                k == (row - y) * width + x,
        ;
        assert(k >= width) by (nonlinear_arith)
            requires
                row - y >= 1,
                x >= 0,
                width >= 0,
                k == (row - y) * width + x,
        ;
        assert(cells[k] == line_cells(h, width, m, last)[k - width]);
    }
}

proof fn lines_are_as_long_as_their_rows(h: Seq<VtStep>, width: u16, y: u16, last: u16)
    requires
        y <= last,
    ensures
        line_cells(h, width, y, last).len() == (last - y + 1) * width,
    decreases last - y,
{
    if y < last {
        let m = (y + 1) as u16;
        lines_are_as_long_as_their_rows(h, width, m, last);
        assert(width + (last - m + 1) * width == (last - y + 1) * width) by (nonlinear_arith)
            requires
                m == y + 1,
        ;
    } else {
        assert((last - y + 1) * width == width) by (nonlinear_arith)
            requires
                y == last,
        ;
    }
}

proof fn each_url_is_linked(cells: Seq<CellView>, urls: Seq<(int, int)>, n: int, i: int) -> (k: int)
    requires
        0 <= i < n <= urls.len(),
        link_runs(cells, urls[i].0, urls[i].1, cells.len() as int).len() > 0,
    ensures
        0 <= k < line_links(cells, urls, n).len(),
        line_links(cells, urls, n)[k] == (LinkView {
            url: cells_text(cells).subrange(urls[i].0, urls[i].1),
            runs: link_runs(cells, urls[i].0, urls[i].1, cells.len() as int),
        }),
    decreases n,
{
    if i < n - 1 {
        each_url_is_linked(cells, urls, n - 1, i)
    } else {
        line_links(cells, urls, n - 1).len() as int
    }
}

proof fn each_link_is_a_url(cells: Seq<CellView>, urls: Seq<(int, int)>, n: int, k: int) -> (i: int)
    requires
        0 <= n <= urls.len(),
        0 <= k < line_links(cells, urls, n).len(),
    ensures
        0 <= i < n,
        line_links(cells, urls, n)[k] == (LinkView {
            url: cells_text(cells).subrange(urls[i].0, urls[i].1),
            runs: link_runs(cells, urls[i].0, urls[i].1, cells.len() as int),
        }),
        line_links(cells, urls, n)[k].runs.len() > 0,
    decreases n,
{
    if k < line_links(cells, urls, n - 1).len() {
        each_link_is_a_url(cells, urls, n - 1, k)
    } else {
        n - 1
    }
}

/// Every URL of a line that a cell begins in is a link to just that URL, on the cells that show it.
pub proof fn urls_of_a_line_are_linked(cells: Seq<CellView>, i: int) -> (k: int)
    requires
        0 <= i < urls_from(cells_text(cells), 0).len(),
        ({
            let (from, to) = urls_from(cells_text(cells), 0)[i];
            link_runs(cells, from, to, cells.len() as int).len() > 0
        }),
    ensures
        ({
            let (from, to) = urls_from(cells_text(cells), 0)[i];
            &&& 0 <= k < links_of_line(cells).len()
            &&& links_of_line(cells)[k].url == cells_text(cells).subrange(from, to)
            &&& links_of_line(cells)[k].runs == link_runs(cells, from, to, cells.len() as int)
        }),
{
    let urls = urls_from(cells_text(cells), 0);
    each_url_is_linked(cells, urls, urls.len() as int, i)
}

/// Nothing but a URL is made a link, and no link is without a cell.
pub proof fn links_of_a_line_are_urls(cells: Seq<CellView>, k: int) -> (i: int)
    requires
        0 <= k < links_of_line(cells).len(),
    ensures
        0 <= i < urls_from(cells_text(cells), 0).len(),
        links_of_line(cells)[k].runs.len() > 0,
        ({
            let (from, to) = urls_from(cells_text(cells), 0)[i];
            &&& links_of_line(cells)[k].url == cells_text(cells).subrange(from, to)
            &&& links_of_line(cells)[k].runs == link_runs(cells, from, to, cells.len() as int)
        }),
{
    let urls = urls_from(cells_text(cells), 0);
    each_link_is_a_url(cells, urls, urls.len() as int, k)
}

proof fn later_lines_are_read(
    h: Seq<VtStep>,
    width: u16,
    height: u16,
    s: int,
    y: u16,
) -> (at: int)
    requires
        0 <= s <= y < height,
        s < y ==> !vt_row_wrapped(h, (y - 1) as u16),
    ensures
        ({
            let links = links_of_line(line_cells(h, width, y, line_end(h, y, height)));
            let all = links_from(h, width, height, s);
            &&& 0 <= at <= at + links.len() <= all.len()
            &&& all.subrange(at, (at + links.len()) as int) == links
        }),
    decreases height - s,
{
    let last = line_end(h, s as u16, height);
    wrapped_rows_are_one_line(h, s as u16, height);
    let links = links_of_line(line_cells(h, width, y, line_end(h, y, height)));
    let all = links_from(h, width, height, s);
    let here = links_of_line(line_cells(h, width, s as u16, last));
    if s == y {
        assert(all.subrange(0, links.len() as int) =~= links);
        0
    } else {
        let before = (y - 1) as u16;
        assert(last < y) by {
            if last >= y {
                assert(vt_row_wrapped(h, before));
            }
        }
        let at = later_lines_are_read(h, width, height, last + 1, y);
        let rest = links_from(h, width, height, last + 1);
        assert(all == here + rest);
        assert(all.subrange(here.len() + at, (here.len() + at + links.len()) as int)
            =~= rest.subrange(at, (at + links.len()) as int));
        here.len() + at
    }
}

/// The links of a screen hold those of every line of text on it, together and in order. A line begins
/// at the top, and wherever the row above does not wrap.
pub proof fn every_line_is_searched(h: Seq<VtStep>, width: u16, height: u16, y: u16) -> (at: int)
    requires
        y < height,
        y == 0 || !vt_row_wrapped(h, (y - 1) as u16),
    ensures
        ({
            let links = links_of_line(line_cells(h, width, y, line_end(h, y, height)));
            let all = links_from(h, width, height, 0);
            &&& 0 <= at <= at + links.len() <= all.len()
            &&& all.subrange(at, (at + links.len()) as int) == links
        }),
{
    later_lines_are_read(h, width, height, 0, y)
}

/// A glyph of an East Asian script takes two cells, and so do pictures; one of a script that is
/// written in single cells takes one. The first character of a cell decides.
pub proof fn east_asian_glyphs_are_wide(s: Seq<char>)
    requires
        s.len() > 0,
    ensures
        s[0] as u32 <= 0x10ff ==> !is_wide(s),
        0x1100 <= s[0] as u32 <= 0x115f ==> is_wide(s),
        0x1160 <= s[0] as u32 <= 0x2e7f ==> !is_wide(s),
        0x2e80 <= s[0] as u32 <= 0xa4cf ==> is_wide(s),
        0xac00 <= s[0] as u32 <= 0xd7a3 ==> is_wide(s),
        0xf900 <= s[0] as u32 <= 0xfaff ==> is_wide(s),
        0xfe30 <= s[0] as u32 <= 0xfe6f ==> is_wide(s),
        0xff00 <= s[0] as u32 <= 0xff60 ==> is_wide(s),
        0xff61 <= s[0] as u32 <= 0xffdf ==> !is_wide(s),
        0xffe0 <= s[0] as u32 <= 0xffe6 ==> is_wide(s),
        0x1f300 <= s[0] as u32 <= 0x1f64f ==> is_wide(s),
        0x1f900 <= s[0] as u32 <= 0x1f9ff ==> is_wide(s),
        0x20000 <= s[0] as u32 <= 0x3fffd ==> is_wide(s),
        is_wide(s) == is_wide(s.take(1)),
        !is_wide(Seq::<char>::empty()),
{
}

} // verus!
