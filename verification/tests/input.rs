use amux::input::{
    ctrl_byte, encode_paste, key_to_bytes, KeyCode, KeyEvent, KeyEventKind, KeyModifiers,
};

fn mods(shift: bool, control: bool, alt: bool) -> KeyModifiers {
    KeyModifiers { shift, control, alt, super_key: false }
}

fn press(code: KeyCode) -> KeyEvent {
    KeyEvent::new(code, KeyModifiers::none())
}

fn ctrl(code: KeyCode) -> KeyEvent {
    KeyEvent::new(code, mods(false, true, false))
}

#[test]
fn ctrl_c_is_etx() {
    let k = ctrl(KeyCode::Char('c'));
    assert_eq!(key_to_bytes(k, false), Some(vec![3]));
}

#[test]
fn arrows_respect_decckm() {
    assert_eq!(key_to_bytes(press(KeyCode::Up), false), Some(vec![0x1b, b'[', b'A']));
    assert_eq!(key_to_bytes(press(KeyCode::Up), true), Some(vec![0x1b, b'O', b'A']));
}

#[test]
fn ctrl_arrows_send_modified_csi() {
    assert_eq!(key_to_bytes(ctrl(KeyCode::Left), false), Some(b"\x1b[1;5D".to_vec()));
    assert_eq!(key_to_bytes(ctrl(KeyCode::Right), false), Some(b"\x1b[1;5C".to_vec()));
    assert_eq!(key_to_bytes(ctrl(KeyCode::Up), false), Some(b"\x1b[1;5A".to_vec()));
    assert_eq!(key_to_bytes(ctrl(KeyCode::Down), false), Some(b"\x1b[1;5B".to_vec()));
}

#[test]
fn alt_arrows_send_modified_csi() {
    let alt = |code| KeyEvent::new(code, mods(false, false, true));
    assert_eq!(key_to_bytes(alt(KeyCode::Left), false), Some(b"\x1b[1;3D".to_vec()));
    assert_eq!(key_to_bytes(alt(KeyCode::Right), false), Some(b"\x1b[1;3C".to_vec()));
}

#[test]
fn combined_modifiers_sum_into_the_param() {
    assert_eq!(
        key_to_bytes(KeyEvent::new(KeyCode::Up, mods(true, false, false)), false),
        Some(b"\x1b[1;2A".to_vec())
    );
    assert_eq!(
        key_to_bytes(KeyEvent::new(KeyCode::Right, mods(true, true, false)), false),
        Some(b"\x1b[1;6C".to_vec())
    );
}

#[test]
fn modified_arrows_force_csi_even_under_decckm() {
    assert_eq!(key_to_bytes(ctrl(KeyCode::Left), true), Some(b"\x1b[1;5D".to_vec()));
}

#[test]
fn modified_home_end_encode() {
    assert_eq!(key_to_bytes(ctrl(KeyCode::Home), false), Some(b"\x1b[1;5H".to_vec()));
    assert_eq!(key_to_bytes(ctrl(KeyCode::End), false), Some(b"\x1b[1;5F".to_vec()));
}

#[test]
fn plain_char_enter_and_backspace() {
    assert_eq!(key_to_bytes(press(KeyCode::Char('x')), false), Some(vec![b'x']));
    assert_eq!(key_to_bytes(press(KeyCode::Enter), false), Some(vec![b'\r']));
    assert_eq!(key_to_bytes(press(KeyCode::Backspace), false), Some(vec![0x7f]));
}

#[test]
fn paste_wraps_only_when_child_wants_bracketed() {
    assert_eq!(encode_paste("hi", false), b"hi".to_vec());
    assert_eq!(encode_paste("hi", true), b"\x1b[200~hi\x1b[201~".to_vec());
}

#[test]
fn paste_normalizes_newlines_to_cr() {
    assert_eq!(encode_paste("a\r\nb\nc", false), b"a\rb\rc".to_vec());
    assert_eq!(encode_paste("a\nb", true), b"\x1b[200~a\rb\x1b[201~".to_vec());
}

#[test]
fn a_lone_carriage_return_is_pasted_as_it_is() {
    assert_eq!(encode_paste("a\rb\r\r\n\n", false), b"a\rb\r\r\r".to_vec());
    assert_eq!(encode_paste("", true), b"\x1b[200~\x1b[201~".to_vec());
}

#[test]
fn characters_beyond_ascii_go_out_as_utf8() {
    assert_eq!(key_to_bytes(press(KeyCode::Char('é')), false), Some("é".as_bytes().to_vec()));
    assert_eq!(key_to_bytes(press(KeyCode::Char('漢')), false), Some("漢".as_bytes().to_vec()));
    assert_eq!(key_to_bytes(press(KeyCode::Char('🦀')), false), Some("🦀".as_bytes().to_vec()));
    assert_eq!(encode_paste("é\n漢", false), "é\r漢".as_bytes().to_vec());
}

#[test]
fn every_other_key_has_its_sequence() {
    let cases: [(KeyCode, Option<&[u8]>); 12] = [
        (KeyCode::Tab, Some(b"\t")),
        (KeyCode::BackTab, Some(b"\x1b[Z")),
        (KeyCode::Esc, Some(b"\x1b")),
        (KeyCode::PageUp, Some(b"\x1b[5~")),
        (KeyCode::PageDown, Some(b"\x1b[6~")),
        (KeyCode::Delete, Some(b"\x1b[3~")),
        (KeyCode::Insert, Some(b"\x1b[2~")),
        (KeyCode::Home, Some(b"\x1b[H")),
        (KeyCode::End, Some(b"\x1b[F")),
        (KeyCode::Down, Some(b"\x1b[B")),
        (KeyCode::Super, None),
        (KeyCode::Other, None),
    ];
    for (code, want) in cases {
        assert_eq!(key_to_bytes(press(code), false), want.map(|b| b.to_vec()), "{code:?}");
    }
}

#[test]
fn control_characters_cover_their_range() {
    assert_eq!(ctrl_byte('a'), Some(1));
    assert_eq!(ctrl_byte('Z'), Some(26));
    assert_eq!(ctrl_byte('@'), Some(0));
    assert_eq!(ctrl_byte('_'), Some(31));
    assert_eq!(ctrl_byte(' '), Some(0));
    assert_eq!(ctrl_byte('5'), None);
    assert_eq!(ctrl_byte('é'), None);
    // With no control byte of its own, the low byte of the character goes out.
    assert_eq!(key_to_bytes(ctrl(KeyCode::Char('5')), false), Some(vec![b'5']));
    assert_eq!(key_to_bytes(ctrl(KeyCode::Char('é')), false), Some(vec![0xe9]));
}

#[test]
fn a_new_key_event_is_a_press() {
    assert_eq!(press(KeyCode::Enter).kind, KeyEventKind::Press);
}
