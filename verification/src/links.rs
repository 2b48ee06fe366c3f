//! Hyperlinks on a pane: finding URLs in its text, mapping them back to cells, and the sequences
//! that tell the outer terminal about them.

use vstd::prelude::*;
use vstd::utf8::{encode_scalar, encode_utf8};
use crate::emulator::{vt_cell, vt_row_wrapped, Emulator, VtStep};
use crate::geometry::{add_to, plus, Rect};
use crate::text::{chars_of, decimal, decimal_string, is_whitespace, string_of, whitespace};

verus! {

// --- URLs in a line of text ---

/// The longer of the two URL schemes that are marked. There are only these: a false positive makes
/// ordinary text clickable, which is worse than leaving a rare scheme alone.
pub open spec fn https() -> Seq<char> {
    seq!['h', 't', 't', 'p', 's', ':', '/', '/']
}

/// The shorter scheme.
pub open spec fn http() -> Seq<char> {
    seq!['h', 't', 't', 'p', ':', '/', '/']
}

/// Whether `p` stands in `s` from place `i` on.
pub open spec fn stands_at(s: Seq<char>, i: int, p: Seq<char>) -> bool {
    i + p.len() <= s.len() && forall|k: int| 0 <= k < p.len() ==> s[i + k] == #[trigger] p[k]
}

/// The length of the scheme at place `i`, zero where there is none.
pub open spec fn scheme_len(s: Seq<char>, i: int) -> int {
    if stands_at(s, i, https()) {
        8
    } else if stands_at(s, i, http()) {
        7
    } else {
        0
    }
}

/// The first place from `at` on where a scheme stands.
pub open spec fn next_scheme(s: Seq<char>, at: int) -> Option<int>
    decreases s.len() - at,
{
    if at >= s.len() {
        None
    } else if scheme_len(s, at) > 0 {
        Some(at)
    } else {
        next_scheme(s, at + 1)
    }
}

/// The first place from `at` on with white space, or the end of `s`.
pub open spec fn run_end(s: Seq<char>, at: int) -> int
    decreases s.len() - at,
{
    if at >= s.len() || whitespace(s[at]) {
        at
    } else {
        run_end(s, at + 1)
    }
}

/// Punctuation that ends a sentence rather than the URL in front of it.
pub open spec fn sentence_end(c: char) -> bool {
    c == '.' || c == ',' || c == ';' || c == ':' || c == '!' || c == '?' || c == '\'' || c == '"'
        || c == ')' || c == ']' || c == '}' || c == '>'
}

/// `end` moved back over sentence punctuation, but not beyond `from`.
pub open spec fn before_punctuation(s: Seq<char>, from: int, end: int) -> int
    decreases end - from,
{
    if end > from && sentence_end(s[end - 1]) {
        before_punctuation(s, from, end - 1)
    } else {
        end
    }
}

/// The URLs of `s` from place `at` on, as ranges of places: each runs from a scheme to white space,
/// less trailing punctuation. A scheme with nothing behind it is no URL.
pub open spec fn urls_from(s: Seq<char>, at: int) -> Seq<(int, int)>
    decreases s.len() - at,
    when 0 <= at
    via urls_from_ends
{
    match next_scheme(s, at) {
        None => Seq::empty(),
        Some(start) => {
            let body = start + scheme_len(s, start);
            let end = before_punctuation(s, body, run_end(s, body));
            let here = if end > body {
                seq![(start, end)]
            } else {
                Seq::empty()
            };
            here + urls_from(s, end)
        },
    }
}

#[via_fn]
proof fn urls_from_ends(s: Seq<char>, at: int) {
    if let Some(start) = next_scheme(s, at) {
        next_scheme_is_one(s, at);
        let body = start + scheme_len(s, start);
        run_end_is_in(s, body);
        before_punctuation_is_in(s, body, run_end(s, body));
    }
}

proof fn next_scheme_is_one(s: Seq<char>, at: int)
    requires
        0 <= at,
    ensures
        next_scheme(s, at) matches Some(i) ==> at <= i && scheme_len(s, i) > 0 && i + scheme_len(
            s,
            i,
        ) <= s.len(),
    decreases s.len() - at,
{
    if at < s.len() && scheme_len(s, at) == 0 {
        next_scheme_is_one(s, at + 1);
    }
}

pub(crate) proof fn run_end_is_in(s: Seq<char>, at: int)
    requires
        0 <= at <= s.len(),
    ensures
        at <= run_end(s, at) <= s.len(),
        forall|k: int| at <= k < run_end(s, at) ==> !whitespace(#[trigger] s[k]),
    decreases s.len() - at,
{
    if at < s.len() && !whitespace(s[at]) {
        run_end_is_in(s, at + 1);
    }
}

proof fn before_punctuation_is_in(s: Seq<char>, from: int, end: int)
    requires
        from <= end,
    ensures
        from <= before_punctuation(s, from, end) <= end,
        before_punctuation(s, from, end) > from ==> !sentence_end(
            s[before_punctuation(s, from, end) - 1],
        ),
    decreases end - from,
{
    if end > from && sentence_end(s[end - 1]) {
        before_punctuation_is_in(s, from, end - 1);
    }
}

/// Whether `u` is a URL range of `s`.
pub open spec fn is_url(s: Seq<char>, u: (int, int)) -> bool {
    &&& 0 <= u.0 < u.1 <= s.len()
    &&& scheme_len(s, u.0) > 0
    &&& u.0 + scheme_len(s, u.0) < u.1
    &&& forall|k: int| u.0 + scheme_len(s, u.0) <= k < u.1 ==> !whitespace(#[trigger] s[k])
    &&& !sentence_end(s[u.1 - 1])
}

/// Every range found begins with a scheme, holds no white space after it, goes on beyond it and does
/// not end in sentence punctuation; and the ranges follow one another without overlap.
pub proof fn urls_are_urls(s: Seq<char>, at: int)
    requires
        0 <= at,
    ensures
        forall|i: int|
            0 <= i < urls_from(s, at).len() ==> is_url(s, #[trigger] urls_from(s, at)[i])
                && at <= urls_from(s, at)[i].0,
        forall|i: int, j: int|
            0 <= i < j < urls_from(s, at).len() ==> (#[trigger] urls_from(s, at)[i]).1 <= (
            #[trigger] urls_from(s, at)[j]).0,
    decreases s.len() - at,
{
    if let Some(start) = next_scheme(s, at) {
        next_scheme_is_one(s, at);
        let body = start + scheme_len(s, start);
        run_end_is_in(s, body);
        let end = before_punctuation(s, body, run_end(s, body));
        before_punctuation_is_in(s, body, run_end(s, body));
        urls_are_urls(s, end);
        let later = urls_from(s, end);
        let all = urls_from(s, at);
        if end > body {
            assert(is_url(s, (start, end)));
            assert(all =~= seq![(start, end)] + later);
            assert forall|i: int| 0 <= i < all.len() implies is_url(s, #[trigger] all[i]) && at
                <= all[i].0 by {
                if i > 0 {
                    assert(all[i] == later[i - 1]);
                }
            }
            assert forall|i: int, j: int| 0 <= i < j < all.len() implies (#[trigger] all[i]).1 <= (
            #[trigger] all[j]).0 by {
                assert(all[j] == later[j - 1]);
                if i > 0 {
                    assert(all[i] == later[i - 1]);
                }
            }
        } else {
            assert(all =~= later);
        }
    }
}

/// Whether nothing but sentence punctuation stands from place `at` up to white space.
pub open spec fn only_punctuation(s: Seq<char>, at: int) -> bool {
    forall|k: int| at <= k < run_end(s, at) ==> sentence_end(#[trigger] s[k])
}

proof fn next_scheme_is_first(s: Seq<char>, at: int)
    requires
        0 <= at,
    ensures
        forall|p: int|
            at <= p < s.len() && (next_scheme(s, at) matches Some(i) ==> p < i)
                ==> #[trigger] scheme_len(s, p) == 0,
    decreases s.len() - at,
{
    if at < s.len() && scheme_len(s, at) == 0 {
        next_scheme_is_first(s, at + 1);
    }
}

proof fn punctuation_is_passed(s: Seq<char>, from: int, end: int)
    requires
        from <= end,
    ensures
        forall|k: int|
            before_punctuation(s, from, end) <= k < end ==> sentence_end(#[trigger] s[k]),
    decreases end - from,
{
    if end > from && sentence_end(s[end - 1]) {
        punctuation_is_passed(s, from, end - 1);
    }
}

proof fn run_ends_agree(s: Seq<char>, from: int, at: int)
    requires
        0 <= from <= at <= run_end(s, from),
        from <= s.len(),
    ensures
        run_end(s, at) == run_end(s, from),
    decreases at - from,
{
    run_end_is_in(s, from);
    if from < at {
        run_ends_agree(s, from + 1, at);
    }
}

proof fn schemes_do_not_overlap(s: Seq<char>, start: int, p: int)
    requires
        0 <= start < p < start + scheme_len(s, start),
    ensures
        scheme_len(s, p) == 0,
{
    if scheme_len(s, start) == 8 {
        assert(s[start + (p - start)] == https()[p - start]);
    } else {
        assert(s[start + (p - start)] == http()[p - start]);
    }
    if stands_at(s, p, https()) {
        assert(s[p + 0] == https()[0]);
    }
    if stands_at(s, p, http()) {
        assert(s[p + 0] == http()[0]);
    }
}

/// No URL is missed and none is cut short: every scheme lies in a range that was found, unless only
/// sentence punctuation follows it up to white space; and after each range only such punctuation
/// follows.
pub proof fn urls_are_found_in_full(s: Seq<char>, at: int)
    requires
        0 <= at,
    ensures
        forall|p: int|
            at <= p < s.len() && #[trigger] scheme_len(s, p) > 0 ==> only_punctuation(
                s,
                p + scheme_len(s, p),
            ) || exists|i: int|
                0 <= i < urls_from(s, at).len() && (#[trigger] urls_from(s, at)[i]).0 <= p
                    < urls_from(s, at)[i].1,
        forall|i: int|
            0 <= i < urls_from(s, at).len() ==> only_punctuation(
                s,
                (#[trigger] urls_from(s, at)[i]).1,
            ),
    decreases s.len() - at,
{
    next_scheme_is_first(s, at);
    if let Some(start) = next_scheme(s, at) {
        next_scheme_is_one(s, at);
        let body = start + scheme_len(s, start);
        let stop = run_end(s, body);
        run_end_is_in(s, body);
        let end = before_punctuation(s, body, stop);
        before_punctuation_is_in(s, body, stop);
        punctuation_is_passed(s, body, stop);
        run_ends_agree(s, body, end);
        urls_are_found_in_full(s, end);
        let later = urls_from(s, end);
        let all = urls_from(s, at);
        if end > body {
            assert(all =~= seq![(start, end)] + later);
        } else {
            assert(all =~= later);
        }
        let gap = all.len() - later.len();
        assert forall|i: int| 0 <= i < all.len() implies only_punctuation(s, (#[trigger] all[i]).1) by {
            if i >= gap {
                assert(all[i] == later[i - gap]);
            }
        }
        assert forall|p: int| at <= p < s.len() && #[trigger] scheme_len(s, p) > 0 implies only_punctuation(
            s,
            p + scheme_len(s, p),
        ) || exists|i: int| 0 <= i < all.len() && (#[trigger] all[i]).0 <= p < all[i].1 by {
            if p >= end {
                if !only_punctuation(s, p + scheme_len(s, p)) {
                    let i = choose|i: int|
                        0 <= i < later.len() && (#[trigger] later[i]).0 <= p < later[i].1;
                    assert(all[i + gap] == later[i]);
                }
            } else if end > body {
                assert(all[0] == (start, end));
            } else if p > start {
                schemes_do_not_overlap(s, start, p);
            }
        }
    }
}

fn matches_at(s: &Vec<char>, i: usize, p: &Vec<char>) -> (b: bool)
    requires
        i <= s@.len(),
    ensures
        b == stands_at(s@, i as int, p@),
{
    if p.len() > s.len() - i {
        return false;
    }
    let mut k: usize = 0;
    while k < p.len()
        invariant
            k <= p@.len(),
            i + p@.len() <= s@.len() <= usize::MAX,
            forall|j: int| 0 <= j < k ==> s@[i + j] == #[trigger] p@[j],
        decreases p@.len() - k,
    {
        if s[i + k] != p[k] {
            assert(s@[i + k] != p@[k as int]);
            return false;
        }
        k = k + 1;
    }
    true
}

fn scheme_at(s: &Vec<char>, i: usize) -> (n: usize)
    requires
        i <= s@.len(),
    ensures
        n == scheme_len(s@, i as int),
        i + n <= s@.len(),
{
    let long: Vec<char> = vec!['h', 't', 't', 'p', 's', ':', '/', '/'];
    let short: Vec<char> = vec!['h', 't', 't', 'p', ':', '/', '/'];
    assert(long@ =~= https());
    assert(short@ =~= http());
    if matches_at(s, i, &long) {
        8
    } else if matches_at(s, i, &short) {
        7
    } else {
        0
    }
}

fn ends_sentence(c: char) -> (b: bool)
    ensures
        b == sentence_end(c),
{
    c == '.' || c == ',' || c == ';' || c == ':' || c == '!' || c == '?' || c == '\'' || c == '"'
        || c == ')' || c == ']' || c == '}' || c == '>'
}

/// Ranges of places, as numbers without bounds.
pub open spec fn spans(v: Seq<(usize, usize)>) -> Seq<(int, int)> {
    Seq::new(v.len(), |i: int| (v[i].0 as int, v[i].1 as int))
}

/// The URLs in `s`, as ranges of places.
pub fn url_spans(s: &Vec<char>) -> (out: Vec<(usize, usize)>)
    ensures
        spans(out@) == urls_from(s@, 0),
{
    let mut out: Vec<(usize, usize)> = Vec::new();
    let mut at: usize = 0;
    assert(spans(out@) + urls_from(s@, 0) =~= urls_from(s@, 0));
    loop
        invariant
            at <= s@.len(),
            spans(out@) + urls_from(s@, at as int) == urls_from(s@, 0),
        ensures
            spans(out@) == urls_from(s@, 0),
        decreases s@.len() - at,
    {
        let ghost from = at as int;
        let mut start: usize = at;
        let mut scheme: usize = 0;
        while start < s.len() && scheme == 0
            invariant
                from <= start <= s@.len(),
                scheme == 0 ==> next_scheme(s@, from) == next_scheme(s@, start as int),
                scheme > 0 ==> next_scheme(s@, from) == Some(start as int) && scheme == scheme_len(
                    s@,
                    start as int,
                ) && start + scheme <= s@.len(),
            decreases s@.len() - start, if scheme == 0 { 1int } else { 0 },
        {
            scheme = scheme_at(s, start);
            if scheme == 0 {
                start = start + 1;
            }
        }
        if scheme == 0 {
            assert(spans(out@) + urls_from(s@, from) =~= spans(out@));
            break;
        }
        let body: usize = start + scheme;
        let mut end: usize = body;
        while end < s.len() && !is_whitespace(s[end])
            invariant
                body <= end <= s@.len(),
                run_end(s@, body as int) == run_end(s@, end as int),
            decreases s@.len() - end,
        {
            end = end + 1;
        }
        let ghost stop = run_end(s@, body as int);
        assert(end == stop);
        while end > body && ends_sentence(s[end - 1])
            invariant
                body <= end <= s@.len(),
                before_punctuation(s@, body as int, stop) == before_punctuation(
                    s@,
                    body as int,
                    end as int,
                ),
            decreases end - body,
        {
            end = end - 1;
        }
        let ghost before = spans(out@);
        proof {
            next_scheme_is_one(s@, from);
            run_end_is_in(s@, body as int);
            before_punctuation_is_in(s@, body as int, stop);
        }
        if end > body {
            out.push((start, end));
            assert(spans(out@) =~= before.push((start as int, end as int)));
            assert(before + (seq![(start as int, end as int)] + urls_from(s@, end as int))
                =~= spans(out@) + urls_from(s@, end as int));
        } else {
            assert(before + (Seq::<(int, int)>::empty() + urls_from(s@, end as int)) =~= before
                + urls_from(s@, end as int));
        }
        at = end;
    }
    out
}

/// The byte at which place `i` of `s` begins.
pub open spec fn byte_at(s: Seq<char>, i: int) -> nat {
    encode_utf8(s.take(i)).len()
}

proof fn utf8_of_push(s: Seq<char>, c: char)
    ensures
        encode_utf8(s.push(c)) == encode_utf8(s) + encode_scalar(c as u32),
    decreases s.len(),
{
    if s.len() == 0 {
        assert(s.push(c).drop_first() =~= Seq::<char>::empty());
        reveal_with_fuel(encode_utf8, 2);
        assert(encode_utf8(s.push(c)) =~= encode_utf8(s) + encode_scalar(c as u32));
    } else {
        assert(s.push(c).drop_first() =~= s.drop_first().push(c));
        utf8_of_push(s.drop_first(), c);
        assert(encode_utf8(s.push(c)) =~= encode_utf8(s) + encode_scalar(c as u32));
    }
}

proof fn byte_at_grows(s: Seq<char>, i: int, j: int)
    requires
        0 <= i <= j <= s.len(),
    ensures
        byte_at(s, i) <= byte_at(s, j),
    decreases j - i,
{
    if i < j {
        byte_at_grows(s, i, j - 1);
        assert(s.take(j) =~= s.take(j - 1).push(s[j - 1]));
        utf8_of_push(s.take(j - 1), s[j - 1]);
    }
}

fn utf8_len(c: char) -> (n: usize)
    ensures
        n == encode_scalar(c as u32).len(),
{
    let u: u32 = c as u32;
    if u <= 0x7f {
        1
    } else if u <= 0x7ff {
        2
    } else if u <= 0xffff {
        3
    } else {
        4
    }
}

/// The byte ranges of ranges of places in `s`.
pub open spec fn byte_ranges(s: Seq<char>, v: Seq<(int, int)>) -> Seq<(int, int)> {
    Seq::new(v.len(), |i: int| (byte_at(s, v[i].0) as int, byte_at(s, v[i].1) as int))
}

/// The pairs of bounds of a list of ranges.
pub open spec fn range_bounds(v: Seq<std::ops::Range<usize>>) -> Seq<(int, int)> {
    Seq::new(v.len(), |i: int| (v[i].start as int, v[i].end as int))
}

/// The byte ranges of the URLs in one logical line of text: one that has had the terminal's wrapping
/// undone, the only place where a wrapped URL is in one piece.
pub fn urls_in_line(line: &str) -> (out: Vec<std::ops::Range<usize>>)
    ensures
        range_bounds(out@) == byte_ranges(line@, urls_from(line@, 0)),
{
    let cs = chars_of(line);
    let total: usize = line.as_bytes().len();
    let mut offsets: Vec<usize> = Vec::new();
    let mut at: usize = 0;
    let mut i: usize = 0;
    assert(cs@.take(0) =~= Seq::<char>::empty());
    assert(cs@.take(cs@.len() as int) =~= cs@);
    offsets.push(0);
    while i < cs.len()
        invariant
            i <= cs@.len(),
            cs@ == line@,
            total == byte_at(cs@, cs@.len() as int),
            at == byte_at(cs@, i as int),
            offsets@.len() == i + 1,
            forall|k: int| 0 <= k <= i ==> #[trigger] offsets@[k] == byte_at(cs@, k),
        decreases cs@.len() - i,
    {
        proof {
            byte_at_grows(cs@, i + 1, cs@.len() as int);
            assert(cs@.take(i + 1) =~= cs@.take(i as int).push(cs@[i as int]));
            utf8_of_push(cs@.take(i as int), cs@[i as int]);
        }
        at = at + utf8_len(cs[i]);
        i = i + 1;
        offsets.push(at);
    }
    let found = url_spans(&cs);
    let mut out: Vec<std::ops::Range<usize>> = Vec::new();
    let mut k: usize = 0;
    proof {
        urls_are_urls(cs@, 0);
    }
    while k < found.len()
        invariant
            k <= found@.len(),
            cs@ == line@,
            offsets@.len() == cs@.len() + 1,
            forall|k: int| 0 <= k <= cs@.len() ==> #[trigger] offsets@[k] == byte_at(cs@, k),
            spans(found@) == urls_from(cs@, 0),
            forall|i: int|
                0 <= i < urls_from(cs@, 0).len() ==> is_url(cs@, #[trigger] urls_from(cs@, 0)[i]),
            out@.len() == k,
            range_bounds(out@) == byte_ranges(line@, urls_from(line@, 0)).take(k as int),
        decreases found@.len() - k,
    {
        let (a, b) = found[k];
        assert(spans(found@)[k as int] == (a as int, b as int));
        assert(is_url(cs@, urls_from(cs@, 0)[k as int]));
        out.push(offsets[a]..offsets[b]);
        assert(range_bounds(out@) =~= byte_ranges(line@, urls_from(line@, 0)).take(k + 1));
        k = k + 1;
    }
    assert(range_bounds(out@) =~= byte_ranges(line@, urls_from(line@, 0)));
    out
}

// --- links on a screen ---

/// One hyperlink on a pane: its URL, and the cells it occupies as `(row, first column, last column)`,
/// one run for each row of the screen.
#[derive(Debug, PartialEq, Eq)]
pub struct PaneLink {
    pub url: String,
    pub runs: Vec<(u16, u16, u16)>,
}

/// What a hyperlink says.
pub struct LinkView {
    pub url: Seq<char>,
    pub runs: Seq<(u16, u16, u16)>,
}

impl View for PaneLink {
    type V = LinkView;

    open spec fn view(&self) -> LinkView {
        LinkView { url: self.url@, runs: self.runs@ }
    }
}

/// What a list of hyperlinks says.
pub open spec fn link_views(links: Seq<PaneLink>) -> Seq<LinkView> {
    Seq::new(links.len(), |i: int| links[i]@)
}

/// The text of a cell of a screen, empty where there is none.
pub open spec fn cell_text(h: Seq<VtStep>, row: u16, col: u16) -> Seq<char> {
    match vt_cell(h, row, col) {
        Some(t) => t,
        None => Seq::empty(),
    }
}

/// The text of a cell, with a blank for an empty one.
pub open spec fn cell_or_blank(h: Seq<VtStep>, row: u16, col: u16) -> Seq<char> {
    if cell_text(h, row, col).len() == 0 {
        seq![' ']
    } else {
        cell_text(h, row, col)
    }
}

/// The text of a cell, computed.
pub fn read_cell(screen: &Emulator, row: u16, col: u16) -> (out: String)
    ensures
        out@ == cell_text(screen@, row, col),
{
    match screen.cell(row, col) {
        Some(t) => t,
        None => {
            let out = String::new();
            assert(out@ =~= Seq::<char>::empty());
            out
        },
    }
}

/// The last row of the logical line that begins in row `y`: it goes on while rows wrap.
pub open spec fn line_end(h: Seq<VtStep>, y: u16, height: u16) -> u16
    decreases height - y,
{
    if vt_row_wrapped(h, y) && y + 1 < height {
        line_end(h, (y + 1) as u16, height)
    } else {
        y
    }
}

/// One cell of a line: its place and its text.
pub struct CellView {
    pub row: u16,
    pub col: u16,
    pub text: Seq<char>,
}

/// The first `n` cells of a row.
pub open spec fn row_cells(h: Seq<VtStep>, row: u16, n: nat) -> Seq<CellView> {
    Seq::new(n, |x: int| CellView { row, col: x as u16, text: cell_or_blank(h, row, x as u16) })
}

/// The cells of the rows `y..=last`.
pub open spec fn line_cells(h: Seq<VtStep>, width: u16, y: u16, last: u16) -> Seq<CellView>
    decreases last - y,
{
    if y >= last {
        row_cells(h, y, width as nat)
    } else {
        row_cells(h, y, width as nat) + line_cells(h, width, (y + 1) as u16, last)
    }
}

/// The text of a line of cells.
pub open spec fn cells_text(cells: Seq<CellView>) -> Seq<char>
    decreases cells.len(),
{
    if cells.len() == 0 {
        Seq::empty()
    } else {
        cells_text(cells.drop_last()) + cells.last().text
    }
}

/// The place in the line's text at which cell `i` begins.
pub open spec fn cell_start(cells: Seq<CellView>, i: int) -> int {
    cells_text(cells.take(i)).len() as int
}

/// `runs` with the cell at `(row, col)` added: the last run grows if the cell adjoins it.
pub open spec fn with_cell(runs: Seq<(u16, u16, u16)>, row: u16, col: u16) -> Seq<(u16, u16, u16)> {
    if runs.len() > 0 && runs.last().0 == row && runs.last().2 + 1 == col {
        runs.update(runs.len() - 1, (row, runs.last().1, col))
    } else {
        runs.push((row, col, col))
    }
}

/// The runs of those of the first `n` cells that begin in the range `from..to` of the text.
pub open spec fn link_runs(cells: Seq<CellView>, from: int, to: int, n: int) -> Seq<
    (u16, u16, u16),
>
    decreases n,
{
    if n <= 0 {
        Seq::empty()
    } else {
        let before = link_runs(cells, from, to, n - 1);
        if from <= cell_start(cells, n - 1) < to {
            with_cell(before, cells[n - 1].row, cells[n - 1].col)
        } else {
            before
        }
    }
}

/// The links for the first `n` of `urls` in a line of cells.
pub open spec fn line_links(cells: Seq<CellView>, urls: Seq<(int, int)>, n: int) -> Seq<LinkView>
    decreases n,
{
    if n <= 0 {
        Seq::empty()
    } else {
        let before = line_links(cells, urls, n - 1);
        let (from, to) = urls[n - 1];
        let runs = link_runs(cells, from, to, cells.len() as int);
        if runs.len() > 0 {
            before.push(LinkView { url: cells_text(cells).subrange(from, to), runs })
        } else {
            before
        }
    }
}

/// The links of one logical line.
pub open spec fn links_of_line(cells: Seq<CellView>) -> Seq<LinkView> {
    let urls = urls_from(cells_text(cells), 0);
    line_links(cells, urls, urls.len() as int)
}

/// The links of a screen from row `y` on.
pub open spec fn links_from(h: Seq<VtStep>, width: u16, height: u16, y: int) -> Seq<LinkView>
    decreases height - y,
    when 0 <= y
    via links_from_ends
{
    if y >= height {
        Seq::empty()
    } else {
        let last = line_end(h, y as u16, height);
        links_of_line(line_cells(h, width, y as u16, last)) + links_from(
            h,
            width,
            height,
            last + 1,
        )
    }
}

#[via_fn]
proof fn links_from_ends(h: Seq<VtStep>, width: u16, height: u16, y: int) {
    if 0 <= y < height {
        line_end_is_in(h, y as u16, height);
    }
}

proof fn line_end_is_in(h: Seq<VtStep>, y: u16, height: u16)
    requires
        y < height,
    ensures
        y <= line_end(h, y, height) < height,
    decreases height - y,
{
    if vt_row_wrapped(h, y) && y + 1 < height {
        line_end_is_in(h, (y + 1) as u16, height);
    }
}


/// A line of cells being gathered.
struct LineBuf {
    cells: Vec<(u16, u16)>,
    starts: Vec<usize>,
    text: Vec<char>,
}

impl LineBuf {
    spec fn holds(&self, cells: Seq<CellView>) -> bool {
        &&& self.cells@.len() == cells.len()
        &&& self.starts@.len() == cells.len()
        &&& self.text@ == cells_text(cells)
        &&& forall|i: int|
            0 <= i < cells.len() ==> #[trigger] self.cells@[i] == (cells[i].row, cells[i].col)
        &&& forall|i: int|
            0 <= i < cells.len() ==> #[trigger] self.starts@[i] == cell_start(cells, i)
    }

    fn push(&mut self, row: u16, col: u16, text: &str, Ghost(cells): Ghost<Seq<CellView>>)
        requires
            old(self).holds(cells),
        ensures
            final(self).holds(cells.push(CellView { row, col, text: text@ })),
    {
        let ghost c = CellView { row, col, text: text@ };
        let ghost all = cells.push(c);
        self.cells.push((row, col));
        self.starts.push(self.text.len());
        let mut more = chars_of(text);
        self.text.append(&mut more);
        proof {
            assert(all.drop_last() =~= cells);
            assert forall|i: int| 0 <= i < all.len() implies #[trigger] self.starts@[i]
                == cell_start(all, i) by {
                assert(all.take(i) =~= cells.take(i));
                if i == cells.len() {
                    assert(cells.take(i) =~= cells);
                }
            }
        }
    }
}

fn gather_row(
    screen: &Emulator,
    width: u16,
    row: u16,
    buf: &mut LineBuf,
    Ghost(cells): Ghost<Seq<CellView>>,
)
    requires
        old(buf).holds(cells),
    ensures
        final(buf).holds(cells + row_cells(screen@, row, width as nat)),
{
    let mut x: u16 = 0;
    assert(cells + row_cells(screen@, row, 0) =~= cells);
    while x < width
        invariant
            x <= width,
            buf.holds(cells + row_cells(screen@, row, x as nat)),
        decreases width - x,
    {
        let contents = read_cell(screen, row, x);
        let ghost so_far = cells + row_cells(screen@, row, x as nat);
        if contents.as_str().is_empty() {
            let mut blank = String::new();
            blank.push(' ');
            assert(blank@ =~= cell_or_blank(screen@, row, x));
            buf.push(row, x, blank.as_str(), Ghost(so_far));
        } else {
            buf.push(row, x, contents.as_str(), Ghost(so_far));
        }
        assert(so_far.push(
            CellView { row, col: x, text: cell_or_blank(screen@, row, x) },
        ) =~= cells + row_cells(screen@, row, (x + 1) as nat));
        x = x + 1;
    }
}

fn gather_line(screen: &Emulator, width: u16, y: u16, height: u16) -> (out: (LineBuf, u16))
    requires
        y < height,
    ensures
        out.1 == line_end(screen@, y, height),
        out.0.holds(line_cells(screen@, width, y, out.1)),
{
    let ghost h = screen@;
    let ghost last = line_end(h, y, height);
    let mut buf = LineBuf { cells: Vec::new(), starts: Vec::new(), text: Vec::new() };
    let mut cur: u16 = y;
    let ghost mut cells: Seq<CellView> = Seq::empty();
    assert(cells + line_cells(h, width, y, last) =~= line_cells(h, width, y, last));
    loop
        invariant_except_break
            buf.holds(cells),
            cells + line_cells(h, width, cur, last) == line_cells(h, width, y, last),
        invariant
            h == screen@,
            y <= cur < height,
            last == line_end(h, y, height),
            last == line_end(h, cur, height),
        ensures
            cur == last,
            buf.holds(line_cells(h, width, y, last)),
        decreases height - cur,
    {
        gather_row(screen, width, cur, &mut buf, Ghost(cells));
        proof {
            line_end_is_in(h, cur, height);
            let row = row_cells(h, cur, width as nat);
            if cur + 1 < height {
                line_end_is_in(h, (cur + 1) as u16, height);
            }
            if cur < last {
                assert(cells + (row + line_cells(h, width, (cur + 1) as u16, last)) =~= (cells
                    + row) + line_cells(h, width, (cur + 1) as u16, last));
            }
            cells = cells + row;
        }
        if screen.row_wrapped(cur) && cur + 1 < height {
            cur = cur + 1;
        } else {
            break;
        }
    }
    (buf, cur)
}

fn runs_of(buf: &LineBuf, from: usize, to: usize, Ghost(cells): Ghost<Seq<CellView>>) -> (runs: Vec<
    (u16, u16, u16),
>)
    requires
        buf.holds(cells),
    ensures
        runs@ == link_runs(cells, from as int, to as int, cells.len() as int),
{
    let mut runs: Vec<(u16, u16, u16)> = Vec::new();
    let mut i: usize = 0;
    while i < buf.cells.len()
        invariant
            buf.holds(cells),
            i <= buf.cells@.len(),
            runs@ == link_runs(cells, from as int, to as int, i as int),
        decreases buf.cells@.len() - i,
    {
        let start: usize = buf.starts[i];
        if from <= start && start < to {
            let (row, col) = buf.cells[i];
            let n: usize = runs.len();
            if n > 0 && runs[n - 1].0 == row && runs[n - 1].2 as u32 + 1 == col as u32 {
                let x0: u16 = runs[n - 1].1;
                runs.set(n - 1, (row, x0, col));
            } else {
                runs.push((row, col, col));
            }
        }
        i = i + 1;
    }
    runs
}

/// Every hyperlink visible on `screen`, with its cells.
///
/// Rows are joined into logical lines first: undoing the terminal's wrapping is what makes a long URL
/// findable at all. Each match is then mapped back to the cells it came from.
pub fn pane_links(screen: &Emulator, width: u16, height: u16) -> (links: Vec<PaneLink>)
    ensures
        link_views(links@) == links_from(screen@, width, height, 0),
{
    let ghost h = screen@;
    let mut links: Vec<PaneLink> = Vec::new();
    let mut y: u16 = 0;
    assert(link_views(links@) + links_from(h, width, height, 0) =~= links_from(
        h,
        width,
        height,
        0,
    ));
    while y < height
        invariant
            h == screen@,
            y <= height,
            link_views(links@) + links_from(h, width, height, y as int) == links_from(
                h,
                width,
                height,
                0,
            ),
        decreases height - y,
    {
        let (buf, last) = gather_line(screen, width, y, height);
        let ghost cells = line_cells(h, width, y, last);
        let ghost urls = urls_from(cells_text(cells), 0);
        proof {
            line_end_is_in(h, y, height);
            urls_are_urls(cells_text(cells), 0);
        }
        let found = url_spans(&buf.text);
        let ghost before = link_views(links@);
        let mut k: usize = 0;
        assert(before + line_links(cells, urls, 0) =~= before);
        while k < found.len()
            invariant
                k <= found@.len(),
                buf.holds(cells),
                urls == urls_from(cells_text(cells), 0),
                spans(found@) == urls,
                forall|i: int| 0 <= i < urls.len() ==> is_url(cells_text(cells), #[trigger] urls[i]),
                link_views(links@) == before + line_links(cells, urls, k as int),
            decreases found@.len() - k,
        {
            let (from, to) = found[k];
            assert(urls[k as int] == (from as int, to as int));
            assert(is_url(cells_text(cells), urls[k as int]));
            let runs = runs_of(&buf, from, to, Ghost(cells));
            let ghost done = link_views(links@);
            if runs.len() > 0 {
                let url = string_of(&buf.text, from, to);
                links.push(PaneLink { url, runs });
                assert(link_views(links@) =~= done.push(links@.last()@));
                assert(link_views(links@) =~= before + line_links(cells, urls, k + 1));
            }
            k = k + 1;
        }
        let ghost tail = links_from(h, width, height, last + 1);
        assert(before + (links_of_line(cells) + tail) =~= link_views(links@) + tail);
        y = last + 1;
    }
    assert(link_views(links@) + links_from(h, width, height, y as int) =~= link_views(links@));
    links
}

// --- telling the outer terminal ---

/// A change to the symbol of one screen cell: text put in front of it and behind it.
#[derive(Debug, PartialEq, Eq)]
pub struct Mark {
    pub x: u16,
    pub y: u16,
    pub before: String,
    pub after: String,
}

/// What a mark says.
pub struct MarkView {
    pub x: u16,
    pub y: u16,
    pub before: Seq<char>,
    pub after: Seq<char>,
}

impl View for Mark {
    type V = MarkView;

    open spec fn view(&self) -> MarkView {
        MarkView { x: self.x, y: self.y, before: self.before@, after: self.after@ }
    }
}

/// What a list of marks says.
pub open spec fn mark_views(marks: Seq<Mark>) -> Seq<MarkView> {
    Seq::new(marks.len(), |i: int| marks[i]@)
}

/// The sequence that begins link `id`.
pub open spec fn link_open(id: nat, url: Seq<char>) -> Seq<char> {
    "\u{1b}]8;id="@ + decimal(id) + seq![';'] + url + "\u{1b}\\"@
}

/// The sequence that ends a link.
pub open spec fn link_close() -> Seq<char> {
    "\u{1b}]8;;\u{1b}\\"@
}

/// The marks for the first `n` runs of link `id`. A run that leaves the pane gets none.
pub open spec fn run_marks(
    inner: Rect,
    id: nat,
    url: Seq<char>,
    runs: Seq<(u16, u16, u16)>,
    n: int,
) -> Seq<MarkView>
    decreases n,
{
    if n <= 0 {
        Seq::empty()
    } else {
        let before = run_marks(inner, id, url, runs, n - 1);
        let (row, x0, x1) = runs[n - 1];
        let (sx, ex, y) = (plus(inner.x, x0), plus(inner.x, x1), plus(inner.y, row));
        if inner.has(sx, y) && inner.has(ex, y) {
            before.push(
                MarkView { x: sx, y, before: link_open(id, url), after: Seq::empty() },
            ).push(MarkView { x: ex, y, before: Seq::empty(), after: link_close() })
        } else {
            before
        }
    }
}

/// The marks for the first `n` links of a pane. Each run carries the whole URL, and the runs of one
/// link share its number, so a wrapped link reads as one.
pub open spec fn link_marks(inner: Rect, links: Seq<LinkView>, n: int) -> Seq<MarkView>
    decreases n,
{
    if n <= 0 {
        Seq::empty()
    } else {
        link_marks(inner, links, n - 1) + run_marks(
            inner,
            (n - 1) as nat,
            links[n - 1].url,
            links[n - 1].runs,
            links[n - 1].runs.len() as int,
        )
    }
}

fn open_sequence(id: usize, url: &str) -> (out: String)
    ensures
        out@ == link_open(id as nat, url@),
{
    let mut out = String::new();
    out.append("\u{1b}]8;id=");
    let n = decimal_string(id as u64);
    out.append(n.as_str());
    out.push(';');
    out.append(url);
    out.append("\u{1b}\\");
    assert(out@ =~= link_open(id as nat, url@));
    out
}

fn close_sequence() -> (out: String)
    ensures
        out@ == link_close(),
{
    let mut out = String::new();
    out.append("\u{1b}]8;;\u{1b}\\");
    assert(out@ =~= link_close());
    out
}

fn mark_runs(inner: Rect, id: usize, link: &PaneLink, marks: &mut Vec<Mark>)
    ensures
        mark_views(final(marks)@) == mark_views(old(marks)@) + run_marks(
            inner,
            id as nat,
            link@.url,
            link@.runs,
            link@.runs.len() as int,
        ),
{
    let ghost before = mark_views(marks@);
    let mut k: usize = 0;
    assert(before + run_marks(inner, id as nat, link@.url, link@.runs, 0) =~= before);
    while k < link.runs.len()
        invariant
            k <= link.runs@.len(),
            mark_views(marks@) == before + run_marks(
                inner,
                id as nat,
                link@.url,
                link@.runs,
                k as int,
            ),
        decreases link.runs@.len() - k,
    {
        let (row, x0, x1) = link.runs[k];
        let sx: u16 = add_to(inner.x, x0);
        let ex: u16 = add_to(inner.x, x1);
        let y: u16 = add_to(inner.y, row);
        if inner.contains(sx, y) && inner.contains(ex, y) {
            let ghost done = mark_views(marks@);
            let open = open_sequence(id, link.url.as_str());
            marks.push(Mark { x: sx, y, before: open, after: String::new() });
            assert(mark_views(marks@) =~= done.push(marks@.last()@));
            let ghost done = mark_views(marks@);
            let close = close_sequence();
            marks.push(Mark { x: ex, y, before: String::new(), after: close });
            assert(mark_views(marks@) =~= done.push(marks@.last()@));
            assert(mark_views(marks@) =~= before + run_marks(
                inner,
                id as nat,
                link@.url,
                link@.runs,
                k + 1,
            ));
        }
        k = k + 1;
    }
}

/// Tell the outer terminal about the hyperlinks on a pane: the marks to make on its cells, in order.
///
/// Without them the terminal has to guess from its own grid, where a wrapped URL is two fragments
/// with a border between them.
pub fn mark_links(screen: &Emulator, inner: Rect) -> (marks: Vec<Mark>)
    ensures
        ({
            let links = links_from(screen@, inner.width, inner.height, 0);
            mark_views(marks@) == link_marks(inner, links, links.len() as int)
        }),
{
    let links = pane_links(screen, inner.width, inner.height);
    let ghost seen = link_views(links@);
    let mut marks: Vec<Mark> = Vec::new();
    let mut i: usize = 0;
    assert(mark_views(marks@) =~= link_marks(inner, seen, 0));
    while i < links.len()
        invariant
            i <= links@.len(),
            seen == link_views(links@),
            mark_views(marks@) == link_marks(inner, seen, i as int),
        decreases links@.len() - i,
    {
        mark_runs(inner, i, &links[i], &mut marks);
        i = i + 1;
    }
    marks
}

/// Whether a symbol takes two cells: its first character is in a double-width block.
pub open spec fn is_wide(symbol: Seq<char>) -> bool {
    symbol.len() > 0 && {
        let n = symbol[0] as u32;
        0x1100 <= n <= 0x115f || 0x2e80 <= n <= 0xa4cf || 0xac00 <= n <= 0xd7a3 || 0xf900 <= n
            <= 0xfaff || 0xfe30 <= n <= 0xfe6f || 0xff00 <= n <= 0xff60 || 0xffe0 <= n <= 0xffe6
            || 0x1f300 <= n <= 0x1f64f || 0x1f900 <= n <= 0x1f9ff || 0x20000 <= n <= 0x3fffd
    }
}

/// The cells a symbol occupies: two for a wide glyph, one for anything else. A marked symbol holds
/// sequences that are not printed, so its width has to be told.
pub fn cell_width(symbol: &str) -> (w: u16)
    ensures
        w == if is_wide(symbol@) {
            2
        } else {
            1int
        },
{
    let cs = chars_of(symbol);
    if cs.len() == 0 {
        return 1;
    }
    let n: u32 = cs[0] as u32;
    if (0x1100 <= n && n <= 0x115f) || (0x2e80 <= n && n <= 0xa4cf) || (0xac00 <= n && n <= 0xd7a3)
        || (0xf900 <= n && n <= 0xfaff) || (0xfe30 <= n && n <= 0xfe6f) || (0xff00 <= n && n
        <= 0xff60) || (0xffe0 <= n && n <= 0xffe6) || (0x1f300 <= n && n <= 0x1f64f) || (0x1f900
        <= n && n <= 0x1f9ff) || (0x20000 <= n && n <= 0x3fffd) {
        2
    } else {
        1
    }
}

/// Marks come in pairs on the cells of one run: the first opens the link with its whole URL, the
/// second closes it, and both lie in the pane.
pub proof fn marks_open_and_close(inner: Rect, id: nat, url: Seq<char>, runs: Seq<(u16, u16, u16)>, n: int)
    requires
        0 <= n <= runs.len(),
    ensures
        run_marks(inner, id, url, runs, n).len() % 2 == 0,
        forall|k: int|
            0 <= k < run_marks(inner, id, url, runs, n).len() ==> {
                let m = #[trigger] run_marks(inner, id, url, runs, n)[k];
                &&& inner.has(m.x, m.y)
                &&& k % 2 == 0 ==> m.before == link_open(id, url) && m.after.len() == 0
                &&& k % 2 == 1 ==> m.before.len() == 0 && m.after == link_close()
            },
    decreases n,
{
    if n > 0 {
        marks_open_and_close(inner, id, url, runs, n - 1);
    }
}

} // verus!
