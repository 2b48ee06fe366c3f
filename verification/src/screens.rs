//! What an emulator makes of the bytes it is fed, and of a new size.

use vstd::prelude::*;
use vstd::utf8::encode_utf8;
use crate::emulator::{
    after_resize, at_first, blanking, cuts, emulators_stay_whole, going_to, mended, mending,
    other_screen, partial_after, read_on, reading_after, size_of, tight, toggle, unfinished,
    vt_alternate_screen, vt_cursor, vt_wide, Reading, VtStep,
};
use crate::geometry::Size;
use crate::ids::TerminalId;
use crate::state::fitted_parser;
use crate::table::{keyed, lookup, put_then_lookup};
use crate::text::decimal;

verus! {

// --- reading ---

/// Text stays text until an escape character comes; that begins anew whatever was being read, and a
/// cancel ends it.
pub proof fn escapes_begin_anew(reading: Reading, b: u8)
    ensures
        b == 0x1b ==> reading_after(reading, b) == Reading::Escape,
        b == 0x18 || b == 0x1a ==> reading_after(reading, b) == Reading::Text,
        b != 0x1b ==> reading_after(Reading::Text, b) == Reading::Text,
{
}

proof fn control_sequences_go_on(params: Seq<u8>)
    requires
        forall|i: int| 0 <= i < params.len() ==> 0x20 <= #[trigger] params[i] <= 0x3f,
    ensures
        read_on(at_first(), seq![0x1bu8, 0x5b] + params).reading == Reading::Sequence(0x5b),
        read_on(at_first(), seq![0x1bu8, 0x5b] + params).sequence == seq![0x1bu8, 0x5b] + params,
    decreases params.len(),
{
    let start = seq![0x1bu8, 0x5b];
    if params.len() == 0 {
        assert(start + params =~= start);
        let e = seq![0x1bu8];
        assert(start.drop_last() =~= e);
        assert(e.drop_last() =~= Seq::<u8>::empty());
        assert(read_on(at_first(), e.drop_last()) == at_first());
        assert(read_on(at_first(), e).reading == Reading::Escape);
        assert(read_on(at_first(), e).sequence == e);
        assert(e.push(0x5b) =~= start);
    } else {
        let front = params.drop_last();
        assert forall|i: int| 0 <= i < front.len() implies 0x20 <= #[trigger] front[i] <= 0x3f by {
            assert(front[i] == params[i]);
        }
        control_sequences_go_on(front);
        let all = start + params;
        assert(all.drop_last() =~= start + front);
        assert(all.last() == params.last());
        assert(params[params.len() - 1] == params.last());
        assert((start + front).push(params.last()) =~= all);
    }
}

/// A control sequence runs from its two first bytes over its parameters to its last byte, and is
/// remembered until then; after it comes text again.
pub proof fn control_sequences_end(params: Seq<u8>, last: u8)
    requires
        forall|i: int| 0 <= i < params.len() ==> 0x20 <= #[trigger] params[i] <= 0x3f,
        0x40 <= last <= 0x7e,
    ensures
        read_on(at_first(), seq![0x1bu8, 0x5b] + params).reading != Reading::Text,
        read_on(at_first(), seq![0x1bu8, 0x5b] + params).sequence == seq![0x1bu8, 0x5b] + params,
        read_on(at_first(), (seq![0x1bu8, 0x5b] + params).push(last)).reading == Reading::Text,
        read_on(at_first(), (seq![0x1bu8, 0x5b] + params).push(last)).sequence.len() == 0,
{
    control_sequences_go_on(params);
    let s = seq![0x1bu8, 0x5b] + params;
    assert(s.push(last).drop_last() =~= s);
}

/// An operating system command goes on until a bell, or until the escape character of its terminator,
/// and the backslash after that ends it.
pub proof fn commands_end_with_a_bell(b: u8)
    ensures
        reading_after(Reading::Escape, 0x5d) == Reading::Sequence(0x5d),
        b != 0x07 && b != 0x1b && b != 0x18 && b != 0x1a ==> reading_after(Reading::Sequence(0x5d), b)
            == Reading::Sequence(0x5d),
        reading_after(Reading::Sequence(0x5d), 0x07) == Reading::Text,
        reading_after(Reading::Escape, 0x5c) == Reading::Text,
{
}

/// A glyph is two, three or four bytes long, as its first byte says; what there is of it is kept until
/// its last byte came.
pub proof fn glyphs_are_collected(partial: Seq<u8>, b: u8)
    requires
        partial.len() > 0,
        partial[0] >= 0xc0,
        0x80 <= b < 0xc0,
    ensures
        ({
            let n = if partial[0] < 0xe0 {
                2int
            } else if partial[0] < 0xf0 {
                3
            } else {
                4
            };
            &&& partial.len() + 1 < n ==> partial_after(partial, b) == partial + seq![b]
            &&& partial.len() + 1 >= n ==> partial_after(partial, b).len() == 0
        }),
        partial_after(Seq::empty(), partial[0]) == seq![partial[0]],
        b < 0xc0 ==> partial_after(Seq::empty(), b).len() == 0,
{
    assert(partial.push(b) =~= partial + seq![b]);
}

/// Plain text begins and leaves nothing unfinished.
pub proof fn plain_text_is_finished(partial: Seq<u8>, b: u8)
    requires
        b < 0x80,
    ensures
        partial_after(partial, b).len() == 0,
{
}

// --- resizing ---

/// The other screen is switched to and back by one sequence: on where the main screen is shown, off
/// where the alternate one is.
pub proof fn screens_are_switched(h: Seq<VtStep>)
    ensures
        !vt_alternate_screen(h) ==> toggle(h) == seq![
            0x1bu8,
            '[' as u8,
            '?' as u8,
            '4' as u8,
            '7' as u8,
            'h' as u8,
        ],
        vt_alternate_screen(h) ==> toggle(h) == seq![
            0x1bu8,
            '[' as u8,
            '?' as u8,
            '4' as u8,
            '7' as u8,
            'l' as u8,
        ],
{
}

/// The cursor is put at a place by its row and its column, counted from one.
pub proof fn the_cursor_is_put(row: int, col: int)
    requires
        0 <= row,
        0 <= col,
    ensures
        going_to(row, col) == seq!['\u{1b}', '['] + decimal((row + 1) as nat) + seq![
            'd',
            '\u{1b}',
            '[',
        ] + decimal((col + 1) as nat) + seq!['G'],
{
    reveal_strlit("\u{1b}[");
    reveal_strlit("d\u{1b}[");
    reveal_strlit("G");
    assert("\u{1b}["@ =~= seq!['\u{1b}', '[']);
    assert("d\u{1b}["@ =~= seq!['d', '\u{1b}', '[']);
    assert("G"@ =~= seq!['G']);
}

/// A wide glyph in the column that is cut is gone to and erased, each in its turn from the top, and
/// no other cell is touched.
pub proof fn cut_glyphs_are_erased(h: Seq<VtStep>, col: u16, n: int)
    requires
        0 <= n,
    ensures
        vt_wide(h, n as u16, col) == Some(true) ==> blanking(h, col, n + 1) == blanking(h, col, n)
            + going_to(n, col as int) + seq!['\u{1b}', '[', 'X'],
        vt_wide(h, n as u16, col) != Some(true) ==> blanking(h, col, n + 1) == blanking(h, col, n),
        blanking(h, col, 0).len() == 0,
{
    reveal_strlit("\u{1b}[X");
    assert("\u{1b}[X"@ =~= seq!['\u{1b}', '[', 'X']);
}

/// Erasing leaves the cursor where it was, and looks at the last column that is kept, in the rows that
/// both sizes have.
pub proof fn erasing_returns_the_cursor(h: Seq<VtStep>, rows: u16, cols: u16)
    requires
        cols >= 1,
    ensures
        ({
            let n = if size_of(h).0 < rows {
                size_of(h).0 as int
            } else {
                rows as int
            };
            mending(h, rows, cols) == encode_utf8(
                blanking(h, (cols - 1) as u16, n) + going_to(
                    vt_cursor(h).0 as int,
                    vt_cursor(h).1 as int,
                ),
            )
        }),
{
}

/// Where a glyph had to be erased, the screen goes on in its new size with what was unfinished: the
/// next byte finds the same beginning.
pub proof fn what_was_unfinished_goes_on(h: Seq<VtStep>, rows: u16, cols: u16)
    requires
        cuts(h, rows, cols),
        !cuts(mended(h, rows, cols), rows, cols),
        rows >= 2,
        3 <= cols <= 65527,
    ensures
        ({
            let out = after_resize(h, rows, cols);
            let n = out.len() as int;
            &&& n >= 2
            &&& out[n - 1] == VtStep::Feed { bytes: unfinished(h) }
            &&& out[n - 2] == VtStep::Size { rows, cols }
        }),
{
    let m = mended(h, rows, cols).push(VtStep::Size { rows, cols });
    assert(size_of(m) == (rows, cols));
    assert(!tight(m));
}

/// A narrower screen would cut a wide glyph that begins in its last column, in a row that stays, on
/// either screen; and only such a one. A screen that is as wide cuts nothing.
pub proof fn glyphs_are_cut_at_the_last_column(h: Seq<VtStep>, rows: u16, cols: u16, row: u16)
    requires
        cols >= 1,
    ensures
        cols >= size_of(h).1 ==> !cuts(h, rows, cols),
        cols < size_of(h).1 && row < rows && row < size_of(h).0 && vt_wide(h, row, (cols - 1) as u16)
            == Some(true) ==> cuts(h, rows, cols),
        cols < size_of(h).1 && row < rows && row < size_of(other_screen(h)).0 && vt_wide(
            other_screen(h),
            row,
            (cols - 1) as u16,
        ) == Some(true) ==> cuts(h, rows, cols),
        (forall|r: u16|
            r < rows ==> #[trigger] vt_wide(h, r, (cols - 1) as u16) != Some(true) && vt_wide(
                other_screen(h),
                r,
                (cols - 1) as u16,
            ) != Some(true)) ==> !cuts(h, rows, cols),
{
    let c = (cols - 1) as u16;
    let other = other_screen(h);
    if cols < size_of(h).1 && forall|r: u16|
        r < rows ==> #[trigger] vt_wide(h, r, c) != Some(true) && vt_wide(other, r, c) != Some(
            true,
        ) {
        assert forall|r: u16|
            !(r < size_of(other).0 && r < rows && #[trigger] vt_wide(other, r, c) == Some(true)) by {
            assert(r < rows ==> vt_wide(h, r, c) != Some(true));
        }
    }
}

/// The emulator of a terminal takes the size of its window, whether it is new or had another size;
/// those of other terminals stay as they are.
pub proof fn emulators_fit_their_windows(
    parsers: Seq<(TerminalId, Seq<VtStep>)>,
    t: TerminalId,
    u: TerminalId,
    size: Size,
)
    requires
        keyed(parsers),
    ensures
        lookup(fitted_parser(parsers, t, size), t) is Some,
        size_of(lookup(fitted_parser(parsers, t, size), t)->0) == (size.rows, size.cols),
        u != t ==> lookup(fitted_parser(parsers, t, size), u) == lookup(parsers, u),
        ({
            let new = lookup(fitted_parser(parsers, t, size), t)->0;
            lookup(parsers, t) matches Some(h) ==> (!cuts(h, size.rows, size.cols) ==> new.len()
                == h.len() + 1 && new.take(h.len() as int) == h)
        }),
{
    let h = match lookup(parsers, t) {
        Some(h) => h,
        None => Seq::empty(),
    };
    emulators_stay_whole(h, Seq::empty(), size.rows, size.cols);
    let new = match lookup(parsers, t) {
        Some(h) => after_resize(h, size.rows, size.cols),
        None => seq![VtStep::Start { rows: size.rows, cols: size.cols }],
    };
    put_then_lookup(parsers, t, new, t);
    put_then_lookup(parsers, t, new, u);
    assert(h.push(VtStep::Size { rows: size.rows, cols: size.cols }).take(h.len() as int) =~= h);
}

} // verus!
