//! Bytes of keys.
use hosttui::keys::{encode, paste_key, KeyCode, KeyEvent, KeyModifiers};

fn key(code: KeyCode) -> KeyEvent {
    KeyEvent { code, modifiers: KeyModifiers::none() }
}

fn ctrl(c: char) -> KeyEvent {
    KeyEvent { code: KeyCode::Char(c), modifiers: KeyModifiers::control() }
}

fn alt(c: char) -> KeyEvent {
    KeyEvent { code: KeyCode::Char(c), modifiers: KeyModifiers::alt() }
}

#[test]
fn regular_char() {
    assert_eq!(encode(&key(KeyCode::Char('a'))), Some(b"a".to_vec()));
}

#[test]
fn utf8_char() {
    let bytes = encode(&key(KeyCode::Char('\u{00e9}'))).unwrap();
    assert_eq!(bytes, "\u{00e9}".as_bytes());
}

#[test]
fn ctrl_a() {
    assert_eq!(encode(&ctrl('a')), Some(vec![0x01]));
}

#[test]
fn ctrl_c() {
    assert_eq!(encode(&ctrl('c')), Some(vec![0x03]));
}

#[test]
fn ctrl_z() {
    assert_eq!(encode(&ctrl('z')), Some(vec![0x1a]));
}

#[test]
fn ctrl_ignores_case_and_needs_a_letter() {
    assert_eq!(encode(&ctrl('C')), Some(vec![0x03]));
    assert_eq!(encode(&ctrl('1')), None);
    assert_eq!(encode(&ctrl('\u{00e9}')), None);
}

#[test]
fn alt_char() {
    assert_eq!(encode(&alt('x')), Some(vec![0x1b, b'x']));
}

#[test]
fn enter() {
    assert_eq!(encode(&key(KeyCode::Enter)), Some(vec![b'\r']));
}

#[test]
fn tabs() {
    assert_eq!(encode(&key(KeyCode::Tab)), Some(vec![b'\t']));
    assert_eq!(encode(&key(KeyCode::BackTab)), Some(b"\x1b[Z".to_vec()));
}

#[test]
fn backspace() {
    assert_eq!(encode(&key(KeyCode::Backspace)), Some(vec![0x7f]));
}

#[test]
fn escape() {
    assert_eq!(encode(&key(KeyCode::Esc)), Some(vec![0x1b]));
}

#[test]
fn arrows() {
    assert_eq!(encode(&key(KeyCode::Up)), Some(b"\x1b[A".to_vec()));
    assert_eq!(encode(&key(KeyCode::Down)), Some(b"\x1b[B".to_vec()));
    assert_eq!(encode(&key(KeyCode::Right)), Some(b"\x1b[C".to_vec()));
    assert_eq!(encode(&key(KeyCode::Left)), Some(b"\x1b[D".to_vec()));
}

#[test]
fn function_keys() {
    assert_eq!(encode(&key(KeyCode::F(1))), Some(b"\x1bOP".to_vec()));
    assert_eq!(encode(&key(KeyCode::F(12))), Some(b"\x1b[24~".to_vec()));
}

#[test]
fn all_function_keys() {
    let expected: [&[u8]; 12] = [
        b"\x1bOP", b"\x1bOQ", b"\x1bOR", b"\x1bOS", b"\x1b[15~", b"\x1b[17~", b"\x1b[18~",
        b"\x1b[19~", b"\x1b[20~", b"\x1b[21~", b"\x1b[23~", b"\x1b[24~",
    ];
    for (i, bytes) in expected.iter().enumerate() {
        assert_eq!(encode(&key(KeyCode::F(i as u8 + 1))), Some(bytes.to_vec()));
    }
    assert_eq!(encode(&key(KeyCode::F(13))), None);
    assert_eq!(encode(&key(KeyCode::Other)), None);
}

#[test]
fn nav_keys() {
    assert_eq!(encode(&key(KeyCode::Home)), Some(b"\x1b[H".to_vec()));
    assert_eq!(encode(&key(KeyCode::End)), Some(b"\x1b[F".to_vec()));
    assert_eq!(encode(&key(KeyCode::PageUp)), Some(b"\x1b[5~".to_vec()));
    assert_eq!(encode(&key(KeyCode::PageDown)), Some(b"\x1b[6~".to_vec()));
    assert_eq!(encode(&key(KeyCode::Insert)), Some(b"\x1b[2~".to_vec()));
    assert_eq!(encode(&key(KeyCode::Delete)), Some(b"\x1b[3~".to_vec()));
}

#[test]
fn pasted_characters_become_keys() {
    assert_eq!(paste_key('x'), key(KeyCode::Char('x')));
    assert_eq!(paste_key('\n'), key(KeyCode::Enter));
    assert_eq!(paste_key('\r'), key(KeyCode::Enter));
    assert_eq!(paste_key('\t'), key(KeyCode::Tab));
}
