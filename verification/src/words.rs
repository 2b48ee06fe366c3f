//! What text, numbers, ages and keys come to when they are written out.

use vstd::prelude::*;
use vstd::utf8::{encode_scalar, encode_utf8};
use crate::client::{action_in, state_after, ConnectAction, ConnectState};
use crate::doctor::{report_lines, skip_note, summary};
use crate::input::{breaks_as_cr, control_byte, key_bytes, paste_bytes, KeyCode, KeyEvent};
use crate::record::{frame_bytes, id_bytes, le_bytes, FrameView, Kind};
use crate::text::{
    control, cut, decimal, fitted, joined, trim, trim_end, trim_start, whitespace, without_controls,
};
use crate::theme::{profile_theme, state_color, Color, Profile};
use crate::time::{age_text, elapsed_secs, is_recent, Moment};
use crate::wire::AgentState;

verus! {

// --- trimming ---

proof fn trimmed_at_the_start(s: Seq<char>) -> (a: int)
    ensures
        0 <= a <= s.len(),
        trim_start(s) == s.skip(a),
        forall|i: int| 0 <= i < a ==> whitespace(#[trigger] s[i]),
        a < s.len() ==> !whitespace(s[a]),
    decreases s.len(),
{
    if s.len() > 0 && whitespace(s[0]) {
        let t = s.drop_first();
        let a = trimmed_at_the_start(t);
        assert(t.skip(a) =~= s.skip(a + 1));
        assert forall|i: int| 0 <= i < a + 1 implies whitespace(#[trigger] s[i]) by {
            if i > 0 {
                assert(whitespace(t[i - 1]));
            }
        }
        if a < t.len() {
            assert(t[a] == s[a + 1]);
        }
        a + 1
    } else {
        assert(s.skip(0) =~= s);
        0
    }
}

proof fn trimmed_at_the_end(s: Seq<char>) -> (b: int)
    ensures
        0 <= b <= s.len(),
        trim_end(s) == s.take(b),
        forall|i: int| b <= i < s.len() ==> whitespace(#[trigger] s[i]),
        b > 0 ==> !whitespace(s[b - 1]),
    decreases s.len(),
{
    if s.len() > 0 && whitespace(s.last()) {
        let t = s.drop_last();
        let b = trimmed_at_the_end(t);
        assert(t.take(b) =~= s.take(b));
        assert forall|i: int| b <= i < s.len() implies whitespace(#[trigger] s[i]) by {
            if i < t.len() {
                assert(whitespace(t[i]));
            }
        }
        if b > 0 {
            assert(t[b - 1] == s[b - 1]);
        }
        b
    } else {
        assert(s.take(s.len() as int) =~= s);
        s.len() as int
    }
}

/// Trimming takes the white space off both ends and keeps everything between, the blanks there among
/// it.
pub proof fn trimming_keeps_the_middle(s: Seq<char>)
    ensures
        exists|a: int, b: int|
            0 <= a <= b <= s.len() && trim(s) == #[trigger] s.subrange(a, b) && (forall|i: int|
                (0 <= i < a || b <= i < s.len()) ==> whitespace(#[trigger] s[i])) && (a < b
                ==> !whitespace(s[a]) && !whitespace(s[b - 1])),
{
    let a = trimmed_at_the_start(s);
    let t = trim_start(s);
    let n = trimmed_at_the_end(t);
    let b = a + n;
    assert(t.take(n) =~= s.subrange(a, b));
    assert forall|i: int| (0 <= i < a || b <= i < s.len()) implies whitespace(#[trigger] s[i]) by {
        if i >= b {
            assert(t[i - a] == s[i]);
        }
    }
    if a < b {
        assert(t[0] == s[a]);
        assert(t[n - 1] == s[b - 1]);
    }
    assert(trim(s) == s.subrange(a, b));
}

/// Blanks, tabs and line breaks are white space; no character that can be seen on a keyboard is.
pub proof fn white_space_cannot_be_seen(c: char)
    ensures
        c == ' ' || c == '\t' || c == '\n' || c == '\r' ==> whitespace(c),
        '!' <= c <= '~' ==> !whitespace(c),
{
}

/// Line breaks, tabs, Escape and Delete are control characters; nothing from the blank to the tilde
/// is.
pub proof fn control_characters_cannot_be_typed(c: char)
    ensures
        c == '\n' || c == '\r' || c == '\t' || c == '\u{1b}' || c == '\u{7f}' ==> control(c),
        ' ' <= c <= '~' ==> !control(c),
        c as u32 >= 0xa0 ==> !control(c),
{
}

/// Text without control characters is kept whole, and what is left of two texts is what is left of
/// each.
pub proof fn only_control_characters_go(a: Seq<char>, b: Seq<char>)
    ensures
        without_controls(a + b) == without_controls(a) + without_controls(b),
        (forall|i: int| 0 <= i < a.len() ==> !control(#[trigger] a[i])) ==> without_controls(a) == a,
        (forall|i: int| 0 <= i < a.len() ==> control(#[trigger] a[i])) ==> without_controls(a).len()
            == 0,
    decreases a.len() + b.len(),
{
    reveal(Seq::filter);
    let keep = |c: char| !control(c);
    if b.len() > 0 {
        only_control_characters_go(a, b.drop_last());
        assert((a + b).drop_last() =~= a + b.drop_last());
        assert((a + b).last() == b.last());
    } else {
        assert(a + b =~= a);
        assert(without_controls(b) =~= Seq::<char>::empty());
        assert(without_controls(a) + without_controls(b) =~= without_controls(a));
        if a.len() > 0 {
            only_control_characters_go(a.drop_last(), b);
            assert(a.drop_last() + b =~= a.drop_last());
            if forall|i: int| 0 <= i < a.len() ==> !control(#[trigger] a[i]) {
                assert(!control(a.last()));
                assert(without_controls(a.drop_last()) == a.drop_last());
                assert(a.drop_last().push(a.last()) =~= a);
            }
        }
    }
}

// --- fitting ---

/// A text that is cut keeps its beginning, and all of it where there is room; one that is fitted has
/// exactly the width asked for, blanks after it where it is short.
pub proof fn texts_are_cut_and_filled(s: Seq<char>, width: nat)
    ensures
        cut(s, width).len() == if s.len() < width {
            s.len()
        } else {
            width
        },
        forall|i: int| 0 <= i < cut(s, width).len() ==> #[trigger] cut(s, width)[i] == s[i],
        fitted(s, width).len() == width,
        forall|i: int|
            0 <= i < width ==> #[trigger] fitted(s, width)[i] == if i < s.len() {
                s[i]
            } else {
                ' '
            },
{
}

/// Parts are joined with the separator between each two, and nowhere else.
pub proof fn separators_stand_between(parts: Seq<Seq<char>>, last: Seq<char>, sep: Seq<char>)
    ensures
        parts.len() == 0 ==> joined(parts.push(last), sep) == last,
        parts.len() > 0 ==> joined(parts.push(last), sep) == joined(parts, sep) + sep + last,
        joined(Seq::<Seq<char>>::empty(), sep).len() == 0,
{
    assert(parts.push(last).drop_last() =~= parts);
}

// --- numbers ---

/// The number that a row of digits stands for.
pub open spec fn value_of(s: Seq<char>) -> int
    decreases s.len(),
{
    if s.len() == 0 {
        0
    } else {
        10 * value_of(s.drop_last()) + (s.last() as int - 48)
    }
}

/// A number is written in digits that stand for it, the highest first, with no zero in front.
pub proof fn decimals_stand_for_their_number(n: nat)
    ensures
        value_of(decimal(n)) == n,
        decimal(n).len() >= 1,
        forall|i: int| 0 <= i < decimal(n).len() ==> '0' <= #[trigger] decimal(n)[i] <= '9',
        n > 0 ==> decimal(n)[0] != '0',
    decreases n,
{
    let s = decimal(n);
    if n < 10 {
        assert(s.drop_last() =~= Seq::<char>::empty());
        assert(value_of(s.drop_last()) == 0);
    } else {
        decimals_stand_for_their_number(n / 10);
        let front = decimal(n / 10);
        assert(s.drop_last() =~= front);
        assert forall|i: int| 0 <= i < s.len() implies '0' <= #[trigger] s[i] <= '9' by {
            if i < front.len() {
                assert(s[i] == front[i]);
            }
        }
    }
}

// --- ages ---

/// An age is counted in seconds, minutes, hours or days, in the largest of these that it fills at
/// least once, and rounded down. What is yet to come is no time ago.
pub proof fn ages_are_counted_in_the_largest_unit(now: Moment, ts: Moment) -> (r: (int, nat))
    ensures
        ({
            let (unit, n) = r;
            let passed = now.at() - ts.at();
            &&& unit == 1 || unit == 60 || unit == 3600 || unit == 86_400
            &&& age_text(now, ts) == decimal(n).push(
                if unit == 1 {
                    's'
                } else if unit == 60 {
                    'm'
                } else if unit == 3600 {
                    'h'
                } else {
                    'd'
                },
            )
            &&& passed >= 0 ==> n * unit * 1_000_000_000 <= passed < (n + 1) * unit * 1_000_000_000
            &&& passed < 0 ==> n == 0 && unit == 1
            &&& unit > 1 ==> n >= 1
            &&& unit == 1 || unit == 60 ==> n < 60
            &&& unit == 3600 ==> n < 24
        }),
{
    let secs = elapsed_secs(now, ts);
    if secs < 60 {
        (1, secs)
    } else if secs < 3600 {
        (60, secs / 60)
    } else if secs < 86_400 {
        (3600, secs / 3600)
    } else {
        (86_400, secs / 86_400)
    }
}

/// Recent is what happened within the last day, and what is yet to come.
pub proof fn recent_is_within_a_day(now: Moment, ts: Moment)
    requires
        now.nanos == ts.nanos,
    ensures
        is_recent(now, ts) <==> now.secs - ts.secs < 24 * 60 * 60,
{
}

// --- colours ---

/// Profiles can be told apart by either of their colours, and within one the two can be.
pub proof fn profiles_can_be_told_apart(a: Profile, b: Profile)
    ensures
        a != b ==> profile_theme(a).focus != profile_theme(b).focus && profile_theme(a).shell
            != profile_theme(b).shell,
        profile_theme(a).focus != profile_theme(b).shell,
{
}

/// States can be told apart by their colours: green at work, yellow when an agent waits for its user,
/// red for an error.
pub proof fn states_can_be_told_apart(a: AgentState, b: AgentState)
    ensures
        state_color(a) == state_color(b) ==> (a is Working == b is Working && a is NeedsAttention
            == b is NeedsAttention && a is Idle == b is Idle && a is Starting == b is Starting
            && a is Exited == b is Exited && a is Error == b is Error),
        a is Working ==> state_color(a) == Color::Green,
        a is NeedsAttention ==> state_color(a) == Color::Yellow,
        a is Error ==> state_color(a) == Color::Red,
{
}

// --- keys ---

/// A character is typed as itself, in UTF-8, whatever else is held; with Ctrl a letter, small or
/// large, is its place in the alphabet.
pub proof fn characters_are_typed_as_themselves(key: KeyEvent, c: char, app_cursor: bool)
    requires
        key.code == KeyCode::Char(c),
    ensures
        !key.modifiers.control ==> key_bytes(key, app_cursor) == Some(encode_scalar(c as u32)),
        key.modifiers.control && 'a' <= c <= 'z' ==> key_bytes(key, app_cursor) == Some(
            seq![(c as int - 96) as u8],
        ),
        key.modifiers.control && 'A' <= c <= 'Z' ==> key_bytes(key, app_cursor) == Some(
            seq![(c as int - 64) as u8],
        ),
        key.modifiers.control && c == ' ' ==> key_bytes(key, app_cursor) == Some(seq![0u8]),
        key.modifiers.control && c == '[' ==> key_bytes(key, app_cursor) == Some(seq![0x1bu8]),
{
}

/// The last byte of a cursor key.
pub open spec fn cursor_letter(code: KeyCode) -> Option<char> {
    match code {
        KeyCode::Up => Some('A'),
        KeyCode::Down => Some('B'),
        KeyCode::Right => Some('C'),
        KeyCode::Left => Some('D'),
        KeyCode::End => Some('F'),
        KeyCode::Home => Some('H'),
        _ => None,
    }
}

/// Cursor keys are escape sequences that end in their letter: a short one, in the form that the
/// program asked for, and a longer one that counts the modifiers held.
pub proof fn cursor_keys_are_sequences(key: KeyEvent, app_cursor: bool, last: char)
    requires
        cursor_letter(key.code) == Some(last),
    ensures
        ({
            let m = key.modifiers;
            let bytes = key_bytes(key, app_cursor)->0;
            let count = 1 + if m.shift {
                1int
            } else {
                0
            } + if m.alt {
                2int
            } else {
                0
            } + if m.control {
                4int
            } else {
                0
            };
            &&& key_bytes(key, app_cursor) is Some
            &&& !m.shift && !m.alt && !m.control && !app_cursor ==> bytes == seq![
                0x1bu8,
                '[' as u8,
                last as u8,
            ]
            &&& !m.shift && !m.alt && !m.control && app_cursor ==> bytes == seq![
                0x1bu8,
                'O' as u8,
                last as u8,
            ]
            &&& m.shift || m.alt || m.control ==> bytes == seq![
                0x1bu8,
                '[' as u8,
                '1' as u8,
                ';' as u8,
                (48 + count) as u8,
                last as u8,
            ]
        }),
{
}

/// The other keys are what a terminal sends for them, whatever is held.
pub proof fn other_keys_are_fixed(key: KeyEvent, app_cursor: bool)
    ensures
        key.code == KeyCode::Enter ==> key_bytes(key, app_cursor) == Some(seq!['\r' as u8]),
        key.code == KeyCode::Tab ==> key_bytes(key, app_cursor) == Some(seq!['\t' as u8]),
        key.code == KeyCode::Esc ==> key_bytes(key, app_cursor) == Some(seq![0x1bu8]),
        key.code == KeyCode::Backspace ==> key_bytes(key, app_cursor) == Some(seq![0x7fu8]),
        key.code == KeyCode::BackTab ==> key_bytes(key, app_cursor) == Some(
            seq![0x1bu8, '[' as u8, 'Z' as u8],
        ),
        key.code == KeyCode::Insert ==> key_bytes(key, app_cursor) == Some(
            seq![0x1bu8, '[' as u8, '2' as u8, '~' as u8],
        ),
        key.code == KeyCode::Delete ==> key_bytes(key, app_cursor) == Some(
            seq![0x1bu8, '[' as u8, '3' as u8, '~' as u8],
        ),
        key.code == KeyCode::PageUp ==> key_bytes(key, app_cursor) == Some(
            seq![0x1bu8, '[' as u8, '5' as u8, '~' as u8],
        ),
        key.code == KeyCode::PageDown ==> key_bytes(key, app_cursor) == Some(
            seq![0x1bu8, '[' as u8, '6' as u8, '~' as u8],
        ),
        key.code == KeyCode::Super || key.code == KeyCode::Other ==> key_bytes(key, app_cursor)
            is None,
{
}

/// Ctrl tells control keys apart: two characters have one control byte only if they are a letter and
/// its capital, or a character of the upper row and its lower one.
pub proof fn control_bytes_are_small(c: char)
    ensures
        control_byte(c) matches Some(b) ==> b < 32,
        'a' <= c <= 'z' ==> control_byte(c) == Some((c as int - 96) as u8),
        '0' <= c <= '9' ==> control_byte(c) is None,
{
}

// --- pastes ---

/// A paste that the program marked is the same paste between the two marks, so that nothing in it is
/// taken for a key.
pub proof fn marked_pastes_stand_between_marks(text: Seq<char>)
    ensures
        paste_bytes(text, true) == seq![
            0x1bu8,
            '[' as u8,
            '2' as u8,
            '0' as u8,
            '0' as u8,
            '~' as u8,
        ] + paste_bytes(text, false) + seq![
            0x1bu8,
            '[' as u8,
            '2' as u8,
            '0' as u8,
            '1' as u8,
            '~' as u8,
        ],
        paste_bytes(text, false) == encode_utf8(breaks_as_cr(text)),
{
}

/// Each line break of a paste becomes one carriage return, and every other character stays.
pub proof fn line_breaks_become_returns(s: Seq<char>, t: Seq<char>)
    ensures
        breaks_as_cr(seq!['\n'] + t) == seq!['\r'] + breaks_as_cr(t),
        breaks_as_cr(seq!['\r', '\n'] + t) == seq!['\r'] + breaks_as_cr(t),
        s.len() == 1 && s[0] != '\n' && s[0] != '\r' ==> breaks_as_cr(s + t) == s + breaks_as_cr(t),
        breaks_as_cr(Seq::<char>::empty()).len() == 0,
{
    let a = seq!['\n'] + t;
    assert(a.skip(1) =~= t);
    let b = seq!['\r', '\n'] + t;
    assert(b.skip(2) =~= t);
    if s.len() == 1 && s[0] != '\n' && s[0] != '\r' {
        let c = s + t;
        assert(c.skip(1) =~= t);
        assert(seq![c[0]] =~= s);
    }
}

// --- connecting ---

/// A daemon that answers is used. One that does not is spawned, once, and tried until it answers; the
/// client gives up where it cannot be spawned. An attempt that ended stays ended.
pub proof fn a_daemon_is_spawned_once(state: ConnectState, ok: bool)
    ensures
        action_in(ConnectState::Start) == ConnectAction::Handshake,
        state_after(ConnectState::Start, true) == ConnectState::Connected,
        action_in(state_after(ConnectState::Start, false)) == ConnectAction::Spawn,
        action_in(state) == ConnectAction::Spawn ==> state_after(state, ok) != state && (!ok
            ==> action_in(state_after(state, ok)) == ConnectAction::GiveUp) && (ok ==> action_in(
            state_after(state, ok),
        ) is WaitAndHandshake),
        action_in(state) is WaitAndHandshake && ok ==> action_in(state_after(state, ok))
            == ConnectAction::Done,
        action_in(state) is WaitAndHandshake && !ok ==> action_in(state_after(state, ok))
            is WaitAndHandshake || action_in(state_after(state, ok)) == ConnectAction::GiveUp,
        action_in(state) == ConnectAction::Done || action_in(state) == ConnectAction::GiveUp
            ==> state_after(state, ok) == state,
        action_in(state) != ConnectAction::Handshake ==> action_in(state_after(state, ok))
            != ConnectAction::Spawn,
{
}

// --- the doctor ---

/// The report names every worktree on a line of its own, those that were pruned first, in the order
/// given, and ends with a blank line and the two counts.
pub proof fn reports_name_every_worktree(
    pruned: Seq<Seq<char>>,
    skipped: Seq<(Seq<char>, nat)>,
    i: int,
)
    requires
        pruned.len() + skipped.len() > 0,
    ensures
        ({
            let lines = report_lines(pruned, skipped);
            let n = (pruned.len() + skipped.len()) as int;
            &&& lines.len() == n + 2
            &&& 0 <= i < pruned.len() ==> lines[i] == "pruned   "@ + pruned[i]
            &&& 0 <= i < skipped.len() ==> lines[pruned.len() + i] == "skipped  "@ + skipped[i].0
                + "  ("@ + decimal(skipped[i].1) + (if skipped[i].1 == 1 {
                " uncommitted change)"@
            } else {
                " uncommitted changes)"@
            })
            &&& lines[n].len() == 0
            &&& lines[n + 1] == decimal(pruned.len()) + " pruned, "@ + decimal(skipped.len())
                + " skipped."@
        }),
{
}

/// The notice counts and names what was pruned, then what was skipped and for how much work; only
/// where there was nothing does it say so.
pub proof fn notices_count_what_was_done(pruned: Seq<Seq<char>>, skipped: Seq<(Seq<char>, nat)>)
    ensures
        ({
            let p = "pruned "@ + decimal(pruned.len()) + " ("@ + joined(pruned, ", "@) + ")"@;
            let notes = Seq::new(
                skipped.len(),
                |i: int| skipped[i].0 + ": "@ + decimal(skipped[i].1) + " uncommitted"@,
            );
            let s = "skipped "@ + decimal(skipped.len()) + " ("@ + joined(notes, ", "@) + ")"@;
            &&& pruned.len() > 0 && skipped.len() > 0 ==> summary(pruned, skipped) == "doctor: "@ + p
                + " · "@ + s
            &&& pruned.len() > 0 && skipped.len() == 0 ==> summary(pruned, skipped) == "doctor: "@
                + p
            &&& pruned.len() == 0 && skipped.len() > 0 ==> summary(pruned, skipped) == "doctor: "@
                + s
            &&& pruned.len() == 0 && skipped.len() == 0 ==> summary(pruned, skipped)
                == "doctor: no orphaned worktrees — nothing to prune"@
        }),
{
    let notes = Seq::new(
        skipped.len(),
        |i: int| skipped[i].0 + ": "@ + decimal(skipped[i].1) + " uncommitted"@,
    );
    assert(notes =~= Seq::new(skipped.len(), |i: int| skip_note(skipped[i])));
}

// --- captures ---

/// A frame of a capture begins with its time and its terminal, then says what it is and how long, and
/// ends with the bytes themselves; numbers begin with their lowest byte.
pub proof fn frames_are_laid_out(f: FrameView)
    requires
        f.payload.len() < 0x1_0000_0000,
    ensures
        ({
            let s = frame_bytes(f);
            &&& s.len() == 49 + f.payload.len()
            &&& s[0] + 0x100 * (s[1] + 0x100 * (s[2] + 0x100 * (s[3] + 0x100 * (s[4] + 0x100 * (s[5]
                + 0x100 * (s[6] + 0x100 * s[7])))))) == f.millis
            &&& s.subrange(8, 44) == id_bytes(f.terminal)
            &&& f.kind == Kind::Snapshot ==> s[44] == 0
            &&& f.kind == Kind::Output ==> s[44] == 1
            &&& s[45] + 0x100 * (s[46] + 0x100 * (s[47] + 0x100 * s[48])) == f.payload.len()
            &&& s.subrange(49, s.len() as int) == f.payload
        }),
{
    reveal_with_fuel(le_bytes, 9);
    let s = frame_bytes(f);
    assert(s.subrange(8, 44) =~= id_bytes(f.terminal));
    assert(s.subrange(49, s.len() as int) =~= f.payload);
}

} // verus!
