//! The format of a capture: every byte the daemon sends for a pane, framed with the time and the
//! terminal, so that a replay shows exactly what the pane's parser saw.
//!
//! A frame is `[u64 milliseconds LE][36 bytes of terminal id][u8 kind][u32 length LE][payload]`. The
//! kind is 0 for a snapshot, which starts a fresh parser, and 1 for live output.

use vstd::prelude::*;
use crate::ids::{id_of_chars, id_text, id_text_is_ascii, id_text_reads_back, parsed_id, TerminalId};
use crate::text::{chars_of, cut_to, decimal, decimal_string};

verus! {

/// The bytes of a frame before its payload.
pub const HEADER_LEN: usize = 49;

/// A snapshot of a pane, or live output.
#[derive(Clone, Copy, Debug, PartialEq, Eq, Structural)]
pub enum Kind {
    Snapshot,
    Output,
}

/// The byte of a kind.
pub open spec fn kind_tag(kind: Kind) -> u8 {
    match kind {
        Kind::Snapshot => 0,
        Kind::Output => 1,
    }
}

/// The kind of a byte.
pub open spec fn tagged_kind(tag: u8) -> Option<Kind> {
    if tag == 0 {
        Some(Kind::Snapshot)
    } else if tag == 1 {
        Some(Kind::Output)
    } else {
        None
    }
}

impl Kind {
    /// The byte that stands for the kind.
    pub fn tag(self) -> (tag: u8)
        ensures
            tag == kind_tag(self),
    {
        match self {
            Kind::Snapshot => 0,
            Kind::Output => 1,
        }
    }

    /// The kind that a byte stands for.
    pub fn from_tag(tag: u8) -> (kind: Option<Kind>)
        ensures
            kind == tagged_kind(tag),
    {
        if tag == 0 {
            Some(Kind::Snapshot)
        } else if tag == 1 {
            Some(Kind::Output)
        } else {
            None
        }
    }
}

/// One frame of a capture.
#[derive(Debug, PartialEq, Eq)]
pub struct Frame {
    pub millis: u64,
    pub terminal: TerminalId,
    pub kind: Kind,
    pub payload: Vec<u8>,
}

/// What a frame holds.
pub struct FrameView {
    pub millis: u64,
    pub terminal: TerminalId,
    pub kind: Kind,
    pub payload: Seq<u8>,
}

impl View for Frame {
    type V = FrameView;

    open spec fn view(&self) -> FrameView {
        FrameView {
            millis: self.millis,
            terminal: self.terminal,
            kind: self.kind,
            payload: self.payload@,
        }
    }
}

/// What a list of frames holds.
pub open spec fn frame_views(frames: Seq<Frame>) -> Seq<FrameView> {
    Seq::new(frames.len(), |i: int| frames[i]@)
}

// --- numbers and ids as bytes ---

/// The `len` lowest bytes of `n`, lowest first.
pub open spec fn le_bytes(n: nat, len: nat) -> Seq<u8>
    decreases len,
{
    if len == 0 {
        Seq::empty()
    } else {
        seq![(n % 256) as u8] + le_bytes(n / 256, (len - 1) as nat)
    }
}

/// The number whose bytes are `s`, lowest first.
pub open spec fn le_number(s: Seq<u8>) -> nat
    decreases s.len(),
{
    if s.len() == 0 {
        0
    } else {
        s[0] as nat + 256 * le_number(s.drop_first())
    }
}

/// 256 to the power `k`.
pub open spec fn pow256(k: nat) -> nat
    decreases k,
{
    if k == 0 {
        1
    } else {
        256 * pow256((k - 1) as nat)
    }
}

proof fn le_reads_back(n: nat, len: nat)
    requires
        n < pow256(len),
    ensures
        le_bytes(n, len).len() == len,
        le_number(le_bytes(n, len)) == n,
    decreases len,
{
    if len > 0 {
        le_reads_back(n / 256, (len - 1) as nat);
        let s = le_bytes(n, len);
        assert(s.drop_first() =~= le_bytes(n / 256, (len - 1) as nat));
    }
}

proof fn le_len(n: nat, len: nat)
    ensures
        le_bytes(n, len).len() == len,
    decreases len,
{
    if len > 0 {
        le_len(n / 256, (len - 1) as nat);
    }
}

proof fn le_number_bound(s: Seq<u8>)
    ensures
        le_number(s) < pow256(s.len()),
    decreases s.len(),
{
    if s.len() > 0 {
        le_number_bound(s.drop_first());
    }
}

proof fn pow256_values()
    ensures
        pow256(4) == 0x1_0000_0000,
        pow256(8) == 0x1_0000_0000_0000_0000,
{
    reveal_with_fuel(pow256, 9);
}

/// The bytes of an id's text.
pub open spec fn id_bytes(id: TerminalId) -> Seq<u8> {
    Seq::new(36, |i: int| id_text(id)[i] as u8)
}

/// The id whose text has the bytes `s`.
pub open spec fn id_of_bytes(s: Seq<u8>) -> Option<TerminalId> {
    parsed_id(Seq::new(s.len(), |i: int| s[i] as char))
}

/// The bytes of an id are read back as that id.
pub proof fn id_bytes_read_back(id: TerminalId)
    ensures
        id_of_bytes(id_bytes(id)) == Some(id),
{
    id_text_is_ascii(id);
    id_text_reads_back(id);
    let s = id_bytes(id);
    let cs = Seq::new(s.len(), |i: int| s[i] as char);
    assert forall|i: int| 0 <= i < 36 implies #[trigger] cs[i] == id_text(id)[i] by {
        let c = id_text(id)[i];
        assert(c as u32 <= 0x7f);
    }
    assert(cs =~= id_text(id));
}

// --- frames as bytes ---

/// The bytes of a frame.
pub open spec fn frame_bytes(f: FrameView) -> Seq<u8> {
    le_bytes(f.millis as nat, 8) + id_bytes(f.terminal) + seq![kind_tag(f.kind)] + le_bytes(
        f.payload.len() % 0x1_0000_0000,
        4,
    ) + f.payload
}

/// The length that a frame's header gives its payload.
pub open spec fn payload_len(s: Seq<u8>) -> nat {
    le_number(s.subrange(45, 49))
}

/// The frame at the start of `s`: none where it is cut short or is no frame.
pub open spec fn first_frame(s: Seq<u8>) -> Option<FrameView> {
    if s.len() < 49 || s.len() < 49 + payload_len(s) {
        None
    } else {
        match (id_of_bytes(s.subrange(8, 44)), tagged_kind(s[44])) {
            (Some(terminal), Some(kind)) => Some(
                FrameView {
                    millis: le_number(s.subrange(0, 8)) as u64,
                    terminal,
                    kind,
                    payload: s.subrange(49, 49 + payload_len(s) as int),
                },
            ),
            _ => None,
        }
    }
}

/// The frames of a capture, up to the first place where there is none.
pub open spec fn frames_in(s: Seq<u8>) -> Seq<FrameView>
    decreases s.len(),
{
    match first_frame(s) {
        None => Seq::empty(),
        Some(f) => seq![f] + frames_in(s.skip(49 + f.payload.len() as int)),
    }
}

fn push_le(out: &mut Vec<u8>, n: u64, len: usize)
    requires
        len <= 8,
    ensures
        final(out)@ == old(out)@ + le_bytes(n as nat, len as nat),
{
    let mut rest: u64 = n;
    let mut i: usize = 0;
    let ghost start = out@;
    while i < len
        invariant
            i <= len,
            out@ + le_bytes(rest as nat, (len - i) as nat) == start + le_bytes(
                n as nat,
                len as nat,
            ),
        decreases len - i,
    {
        let ghost before = out@;
        out.push((rest % 256) as u8);
        assert(before + (seq![(rest % 256) as u8] + le_bytes(
            rest as nat / 256,
            (len - i - 1) as nat,
        )) =~= out@ + le_bytes(rest as nat / 256, (len - i - 1) as nat));
        rest = rest / 256;
        i = i + 1;
    }
    assert(out@ + le_bytes(rest as nat, 0) =~= out@);
}

fn read_le(bytes: &[u8], from: usize, len: usize) -> (n: u64)
    requires
        len <= 8,
        from + len <= bytes@.len(),
    ensures
        n == le_number(bytes@.subrange(from as int, from + len)),
    decreases len,
{
    if len == 0 {
        return 0;
    }
    assert(from < bytes.len());
    let high: u64 = read_le(bytes, from + 1, len - 1);
    proof {
        let s = bytes@.subrange(from as int, from + len);
        assert(s.drop_first() =~= bytes@.subrange(from + 1, from + len));
        le_number_bound(s);
        le_number_bound(s.drop_first());
        pow256_values();
        pow256_grows(len as nat, 8);
    }
    bytes[from] as u64 + 256 * high
}

proof fn pow256_grows(a: nat, b: nat)
    requires
        a <= b,
    ensures
        pow256(a) <= pow256(b),
    decreases b,
{
    if a < b {
        pow256_grows(a, (b - 1) as nat);
    }
}

fn push_id(out: &mut Vec<u8>, id: TerminalId)
    ensures
        final(out)@ == old(out)@ + id_bytes(id),
{
    let text = id.to_full_string();
    let cs = chars_of(text.as_str());
    proof {
        id_text_is_ascii(id);
    }
    let ghost start = out@;
    let mut i: usize = 0;
    while i < 36
        invariant
            i <= 36,
            cs@ == id_text(id),
            cs@.len() == 36,
            forall|k: int| 0 <= k < 36 ==> (#[trigger] cs@[k]) as u32 <= 0x7f,
            out@ == start + id_bytes(id).take(i as int),
        decreases 36 - i,
    {
        assert(cs@[i as int] as u32 <= 0x7f);
        out.push(cs[i] as u8);
        assert(out@ =~= start + id_bytes(id).take(i + 1));
        i = i + 1;
    }
    assert(id_bytes(id).take(36) =~= id_bytes(id));
}

/// Encode one frame.
pub fn encode_frame(millis: u64, terminal: TerminalId, kind: Kind, payload: &[u8]) -> (out: Vec<u8>)
    ensures
        out@ == frame_bytes(FrameView { millis, terminal, kind, payload: payload@ }),
{
    let mut out: Vec<u8> = Vec::new();
    push_le(&mut out, millis, 8);
    push_id(&mut out, terminal);
    out.push(kind.tag());
    let len: u64 = payload.len() as u64 % 0x1_0000_0000;
    push_le(&mut out, len, 4);
    out.extend_from_slice(payload);
    assert(out@ =~= frame_bytes(FrameView { millis, terminal, kind, payload: payload@ }));
    out
}

fn id_at(bytes: &[u8], from: usize) -> (id: Option<TerminalId>)
    requires
        from + 36 <= bytes@.len() <= usize::MAX,
    ensures
        id == id_of_bytes(bytes@.subrange(from as int, from + 36)),
{
    let mut cs: Vec<char> = Vec::new();
    let ghost s = bytes@.subrange(from as int, from + 36);
    let mut i: usize = 0;
    while i < 36
        invariant
            i <= 36,
            from + 36 <= bytes@.len() <= usize::MAX,
            s == bytes@.subrange(from as int, from + 36),
            cs@ == Seq::new(i as nat, |k: int| s[k] as char),
        decreases 36 - i,
    {
        cs.push(bytes[from + i] as char);
        assert(cs@ =~= Seq::new((i + 1) as nat, |k: int| s[k] as char));
        i = i + 1;
    }
    assert(cs@ =~= Seq::new(s.len(), |k: int| s[k] as char));
    id_of_chars(&cs)
}

fn copy_range(bytes: &[u8], from: usize, to: usize) -> (out: Vec<u8>)
    requires
        from <= to <= bytes@.len(),
    ensures
        out@ == bytes@.subrange(from as int, to as int),
{
    let mut out: Vec<u8> = Vec::new();
    let mut i: usize = from;
    while i < to
        invariant
            from <= i <= to <= bytes@.len(),
            out@ == bytes@.subrange(from as int, i as int),
        decreases to - i,
    {
        out.push(bytes[i]);
        assert(out@ =~= bytes@.subrange(from as int, i + 1));
        i = i + 1;
    }
    out
}

/// Decode every frame of a capture. A capture may end in the middle of a frame, when the client was
/// killed: a short tail is no error.
pub fn decode_frames(bytes: &[u8]) -> (frames: Vec<Frame>)
    ensures
        frame_views(frames@) == frames_in(bytes@),
{
    let mut frames: Vec<Frame> = Vec::new();
    let mut at: usize = 0;
    let n: usize = bytes.len();
    assert(bytes@.skip(0) =~= bytes@);
    assert(frame_views(frames@) + frames_in(bytes@) =~= frames_in(bytes@));
    while n - at >= HEADER_LEN
        invariant_except_break
            n == bytes@.len(),
            at <= n,
            frame_views(frames@) + frames_in(bytes@.skip(at as int)) == frames_in(bytes@),
        ensures
            frame_views(frames@) == frames_in(bytes@),
        decreases n - at,
    {
        let ghost s = bytes@.skip(at as int);
        assert(s.subrange(0, 8) =~= bytes@.subrange(at as int, at + 8));
        assert(s.subrange(8, 44) =~= bytes@.subrange(at + 8, at + 44));
        assert(s.subrange(45, 49) =~= bytes@.subrange(at + 45, at + 49));
        assert(s[44] == bytes@[at + 44]);
        let millis: u64 = read_le(bytes, at, 8);
        let id = id_at(bytes, at + 8);
        let kind = Kind::from_tag(bytes[at + 44]);
        let len: u64 = read_le(bytes, at + 45, 4);
        match (id, kind) {
            (Some(terminal), Some(kind)) => {
                if ((n - at - HEADER_LEN) as u64) < len {
                    assert(frame_views(frames@) + frames_in(s) =~= frame_views(frames@));
                    break;
                }
                let ghost before = frame_views(frames@);
                let end: usize = at + HEADER_LEN + len as usize;
                let payload = copy_range(bytes, at + HEADER_LEN, end);
                assert(s.subrange(49, 49 + len as int) =~= payload@);
                assert(s.skip(49 + len as int) =~= bytes@.skip(end as int));
                frames.push(Frame { millis, terminal, kind, payload });
                let ghost f = first_frame(s)->0;
                assert(frame_views(frames@) =~= before.push(f));
                assert(before + (seq![f] + frames_in(bytes@.skip(end as int))) =~= frame_views(
                    frames@,
                ) + frames_in(bytes@.skip(end as int)));
                at = end;
            },
            _ => {
                assert(frame_views(frames@) + frames_in(s) =~= frame_views(frames@));
                break;
            },
        }
        if n - at < HEADER_LEN {
            assert(frame_views(frames@) + frames_in(bytes@.skip(at as int)) =~= frame_views(frames@));
        }
    }
    frames
}

// --- what a capture gives back ---

proof fn parts_of_a_frame(f: FrameView, tail: Seq<u8>)
    requires
        f.payload.len() < 0x1_0000_0000,
    ensures
        first_frame(frame_bytes(f) + tail) == Some(f),
        (frame_bytes(f) + tail).skip(49 + f.payload.len() as int) == tail,
        frame_bytes(f).len() == 49 + f.payload.len(),
{
    let s = frame_bytes(f) + tail;
    pow256_values();
    le_reads_back(f.millis as nat, 8);
    le_reads_back(f.payload.len(), 4);
    id_bytes_read_back(f.terminal);
    assert(f.payload.len() % 0x1_0000_0000 == f.payload.len());
    assert(s.subrange(0, 8) =~= le_bytes(f.millis as nat, 8));
    assert(s.subrange(8, 44) =~= id_bytes(f.terminal));
    assert(s[44] == kind_tag(f.kind));
    assert(s.subrange(45, 49) =~= le_bytes(f.payload.len(), 4));
    assert(s.subrange(49, 49 + f.payload.len() as int) =~= f.payload);
    assert(s.skip(49 + f.payload.len() as int) =~= tail);
}

/// The bytes of several frames, one after another.
pub open spec fn all_bytes(frames: Seq<FrameView>) -> Seq<u8>
    decreases frames.len(),
{
    if frames.len() == 0 {
        Seq::empty()
    } else {
        frame_bytes(frames[0]) + all_bytes(frames.drop_first())
    }
}

/// A capture gives back the frames that were written to it, in order, and then whatever the bytes
/// after them hold.
pub proof fn captures_read_back(frames: Seq<FrameView>, tail: Seq<u8>)
    requires
        forall|i: int| 0 <= i < frames.len() ==> (#[trigger] frames[i]).payload.len() < 0x1_0000_0000,
    ensures
        frames_in(all_bytes(frames) + tail) == frames + frames_in(tail),
    decreases frames.len(),
{
    if frames.len() == 0 {
        assert(all_bytes(frames) + tail =~= tail);
        assert(frames + frames_in(tail) =~= frames_in(tail));
    } else {
        let f = frames[0];
        let later = all_bytes(frames.drop_first()) + tail;
        assert(f.payload.len() < 0x1_0000_0000);
        parts_of_a_frame(f, later);
        assert(all_bytes(frames) + tail =~= frame_bytes(f) + later);
        assert forall|i: int| 0 <= i < frames.drop_first().len() implies (
        #[trigger] frames.drop_first()[i]).payload.len() < 0x1_0000_0000 by {
            assert(frames[i + 1].payload.len() < 0x1_0000_0000);
        }
        captures_read_back(frames.drop_first(), tail);
        assert(seq![f] + (frames.drop_first() + frames_in(tail)) =~= frames + frames_in(tail));
    }
}

/// A capture cut off inside a frame gives back the whole frames and drops the piece.
pub proof fn a_cut_frame_is_dropped(frames: Seq<FrameView>, f: FrameView, cut: int)
    requires
        forall|i: int| 0 <= i < frames.len() ==> (#[trigger] frames[i]).payload.len() < 0x1_0000_0000,
        f.payload.len() < 0x1_0000_0000,
        0 <= cut < frame_bytes(f).len(),
    ensures
        frames_in(all_bytes(frames) + frame_bytes(f).take(cut)) == frames,
{
    let piece = frame_bytes(f).take(cut);
    captures_read_back(frames, piece);
    parts_of_a_frame(f, Seq::empty());
    if cut >= 49 {
        pow256_values();
        le_reads_back(f.payload.len(), 4);
        le_len(f.millis as nat, 8);
        assert(piece.subrange(45, 49) =~= le_bytes(f.payload.len() % 0x1_0000_0000, 4));
    }
    assert(first_frame(piece) is None);
    assert(frames + frames_in(piece) =~= frames);
}

// --- the notes beside a capture ---

/// A line of the notes: the time, the start of the terminal's id, what happened, and a size.
pub open spec fn note_text(
    millis: u64,
    terminal: TerminalId,
    what: Seq<char>,
    cols: u16,
    rows: u16,
) -> Seq<char> {
    decimal(millis as nat) + seq![' '] + id_text(terminal).take(8) + seq![' '] + what + seq![' ']
        + decimal(cols as nat) + seq!['x'] + decimal(rows as nat)
}

/// The line of the notes for a size event.
pub fn note_line(millis: u64, terminal: TerminalId, what: &str, cols: u16, rows: u16) -> (out: String)
    ensures
        out@ == note_text(millis, terminal, what@, cols, rows),
{
    let full = terminal.to_full_string();
    let short = cut_to(full.as_str(), 8);
    let mut out = decimal_string(millis);
    out.push(' ');
    out.append(short.as_str());
    out.push(' ');
    out.append(what);
    out.push(' ');
    let c = decimal_string(cols as u64);
    out.append(c.as_str());
    out.push('x');
    let r = decimal_string(rows as u64);
    out.append(r.as_str());
    assert(out@ =~= note_text(millis, terminal, what@, cols, rows));
    out
}

} // verus!
