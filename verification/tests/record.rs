use amux::ids::TerminalId;
use amux::record::{decode_frames, encode_frame, note_line, Frame, Kind};
use std::hash::{BuildHasher, Hasher};

fn new_id() -> TerminalId {
    let a = std::collections::hash_map::RandomState::new().build_hasher().finish();
    let b = std::collections::hash_map::RandomState::new().build_hasher().finish();
    TerminalId(((a as u128) << 64) | b as u128)
}

#[test]
fn frames_round_trip() {
    let t1 = new_id();
    let t2 = new_id();
    let mut buf = Vec::new();
    buf.extend_from_slice(&encode_frame(0, t1, Kind::Snapshot, b"\x1b[2Jhello"));
    buf.extend_from_slice(&encode_frame(42, t2, Kind::Output, b"world"));
    buf.extend_from_slice(&encode_frame(99, t1, Kind::Output, b""));

    let frames = decode_frames(&buf);
    assert_eq!(frames.len(), 3);
    assert_eq!(
        frames[0],
        Frame {
            millis: 0,
            terminal: t1,
            kind: Kind::Snapshot,
            payload: b"\x1b[2Jhello".to_vec()
        }
    );
    assert_eq!(
        frames[1],
        Frame {
            millis: 42,
            terminal: t2,
            kind: Kind::Output,
            payload: b"world".to_vec()
        }
    );
    assert_eq!(frames[2].payload, Vec::<u8>::new());
}

#[test]
fn a_recording_replays_to_the_same_screen() {
    let term = new_id();
    let snapshot = b"\x1b[2J\x1b[3;6r\x1b[1;1HHEAD\x1b[3;1Halpha".to_vec();
    let mut bytes = encode_frame(0, term, Kind::Snapshot, &snapshot);
    let chunks: [&[u8]; 3] = [b"\r\nbeta", b"\r\ngamma", b"\r\ndelta"];
    for (i, c) in chunks.iter().enumerate() {
        bytes.extend_from_slice(&encode_frame(i as u64 + 1, term, Kind::Output, c));
    }

    let mut reference = vt100::Parser::new(10, 20, 0);
    reference.process(&snapshot);
    for c in chunks {
        reference.process(c);
    }

    let frames = decode_frames(&bytes);
    assert_eq!(frames.len(), 4);
    let mut replayed = vt100::Parser::new(10, 20, 0);
    for f in &frames {
        assert_eq!(f.terminal, term);
        replayed.process(&f.payload);
    }
    assert_eq!(
        replayed.screen().contents(),
        reference.screen().contents(),
        "replay must reconstruct the client's screen byte-for-byte"
    );
}

#[test]
fn a_truncated_tail_is_dropped() {
    let t = new_id();
    let mut buf = encode_frame(0, t, Kind::Output, b"complete");
    let full = buf.len();
    buf.extend_from_slice(&encode_frame(1, t, Kind::Output, b"cut here"));
    buf.truncate(full + 20);

    let frames = decode_frames(&buf);
    assert_eq!(frames.len(), 1, "only the complete frame survives");
    assert_eq!(frames[0].payload, b"complete");
}

#[test]
fn a_cut_anywhere_drops_only_the_last_frame() {
    let t = new_id();
    let first = encode_frame(7, t, Kind::Snapshot, b"one");
    let second = encode_frame(8, t, Kind::Output, b"two");
    for cut in 0..second.len() {
        let mut buf = first.clone();
        buf.extend_from_slice(&second[..cut]);
        assert_eq!(decode_frames(&buf).len(), 1, "cut at {cut}");
    }
}

#[test]
fn a_frame_has_its_layout() {
    let t = TerminalId(0x0123_4567_89ab_cdef_0123_4567_89ab_cdef);
    let f = encode_frame(0x0102, t, Kind::Output, b"xyz");
    assert_eq!(&f[0..8], &[2, 1, 0, 0, 0, 0, 0, 0]);
    assert_eq!(&f[8..44], b"01234567-89ab-cdef-0123-456789abcdef");
    assert_eq!(f[44], 1);
    assert_eq!(&f[45..49], &[3, 0, 0, 0]);
    assert_eq!(&f[49..], b"xyz");
}

#[test]
fn what_is_no_frame_ends_the_capture() {
    let t = new_id();
    let good = encode_frame(1, t, Kind::Output, b"ok");
    let mut bad_kind = good.clone();
    bad_kind[44] = 2;
    let mut bad_id = good.clone();
    bad_id[10] = b'g';
    let mut not_text = good.clone();
    not_text[10] = 0xc3;
    for bad in [bad_kind, bad_id, not_text] {
        let mut buf = good.clone();
        buf.extend_from_slice(&bad);
        buf.extend_from_slice(&good);
        assert_eq!(decode_frames(&buf).len(), 1);
    }
    assert!(decode_frames(b"").is_empty());
}

#[test]
fn kinds_and_tags_match() {
    assert_eq!(Kind::Snapshot.tag(), 0);
    assert_eq!(Kind::Output.tag(), 1);
    assert_eq!(Kind::from_tag(0), Some(Kind::Snapshot));
    assert_eq!(Kind::from_tag(1), Some(Kind::Output));
    assert_eq!(Kind::from_tag(2), None);
}

#[test]
fn ids_print_and_parse() {
    let t = TerminalId(0x0123_4567_89ab_cdef_0123_4567_89ab_cdef);
    assert_eq!(t.to_full_string(), "01234567-89ab-cdef-0123-456789abcdef");
    assert_eq!(TerminalId::parse("01234567-89AB-cdef-0123-456789abcdef"), Some(t));
    assert_eq!(TerminalId::parse("0123456789abcdef0123456789abcdef0000"), None);
    assert_eq!(TerminalId::parse("01234567-89ab-cdef-0123-456789abcde"), None);
    assert_eq!(TerminalId::parse("01234567-89ab-cdef-0123-456789abcdeg"), None);
    for id in [TerminalId(0), TerminalId(u128::MAX), new_id()] {
        assert_eq!(TerminalId::parse(&id.to_full_string()), Some(id));
    }
}

#[test]
fn notes_name_the_terminal_and_the_size() {
    let t = TerminalId(0xdead_beef_0000_0000_0000_0000_0000_0001);
    assert_eq!(note_line(12, t, "ATTACH", 80, 24), "12 deadbeef ATTACH 80x24");
}
