//! Sessions and the answers of a terminal.
use hosttui::pty::{
    csi_reply, escape_reply, local_shell, osc_reply, paste_bytes, scrolled_down, scrolled_up,
    Session, SessionKind, SessionStatus,
};

#[derive(Default)]
struct Replies(Vec<u8>);

impl Replies {
    fn send(&mut self, reply: Option<String>) {
        if let Some(text) = reply {
            self.0.extend_from_slice(text.as_bytes());
        }
    }
}

impl vt100::Callbacks for Replies {
    fn unhandled_escape(&mut self, _: &mut vt100::Screen, i1: Option<u8>, i2: Option<u8>, b: u8) {
        self.send(escape_reply(i1, i2, b));
    }

    fn unhandled_csi(
        &mut self,
        screen: &mut vt100::Screen,
        i1: Option<u8>,
        i2: Option<u8>,
        params: &[&[u16]],
        c: char,
    ) {
        self.send(csi_reply(i1, i2, params, c, screen.cursor_position(), screen.size()));
    }

    fn unhandled_osc(&mut self, _: &mut vt100::Screen, params: &[&[u8]]) {
        self.send(osc_reply(params));
    }
}

fn parser() -> vt100::Parser<Replies> {
    vt100::Parser::new_with_callbacks(24, 80, 0, Replies::default())
}

fn output(parser: &vt100::Parser<Replies>) -> Vec<u8> {
    parser.callbacks().0.clone()
}

#[test]
fn replies_to_cursor_position_report() {
    let mut parser = parser();

    parser.process(b"\x1b[10;20H\x1b[6n");

    assert_eq!(output(&parser), b"\x1b[10;20R".to_vec());
}

#[test]
fn replies_to_device_attributes() {
    let mut parser = parser();

    parser.process(b"\x1b[c\x1b[>c");

    assert_eq!(output(&parser), b"\x1b[?1;2c\x1b[>0;136;0c".to_vec());
}

#[test]
fn replies_to_terminal_color_queries() {
    let mut parser = parser();

    parser.process(b"\x1b]10;?\x1b\\\x1b]11;?\x1b\\");

    assert_eq!(
        output(&parser),
        b"\x1b]10;rgb:ffff/ffff/ffff\x1b\\\x1b]11;rgb:0000/0000/0000\x1b\\".to_vec()
    );
}

#[test]
fn replies_to_the_other_queries() {
    let mut parser = parser();

    parser.process(b"\x1bZ\x1b[5n\x1b[?6n\x1b[18t\x1b]12;?\x1b\\");

    assert_eq!(
        output(&parser),
        b"\x1b[?1;2c\x1b[0n\x1b[?1;1R\x1b[8;24;80t\x1b]12;rgb:ffff/ffff/ffff\x1b\\".to_vec()
    );
}

#[test]
fn other_sequences_get_no_answer() {
    assert_eq!(escape_reply(Some(1), None, b'Z'), None);
    assert_eq!(escape_reply(None, None, b'Y'), None);
    assert_eq!(csi_reply(None, Some(1), &[&[6]], 'n', (0, 0), (24, 80)), None);
    assert_eq!(csi_reply(None, None, &[&[1]], 'c', (0, 0), (24, 80)), None);
    assert_eq!(csi_reply(None, None, &[], 'n', (0, 0), (24, 80)), None);
    assert_eq!(osc_reply(&[b"10", b"x"]), None);
    assert_eq!(osc_reply(&[b"13", b"?"]), None);
    assert_eq!(osc_reply(&[b"10"]), None);
}

#[test]
fn a_session_ends_once() {
    let mut session = Session::started(7, "web".into(), SessionKind::Ssh);
    assert_eq!(session.id(), 7);
    assert_eq!(session.alias(), "web");
    assert_eq!(session.kind(), SessionKind::Ssh);
    assert!(matches!(session.status(), SessionStatus::Running));

    session.update_status(false, None);
    assert_eq!(session.status(), SessionStatus::Running);
    session.update_status(false, Some(false));
    assert_eq!(session.status(), SessionStatus::Exited(Some(1)));
    session.update_status(true, Some(true));
    assert_eq!(session.status(), SessionStatus::Exited(Some(1)));

    let mut closed = Session::started(8, "db".into(), SessionKind::Local);
    closed.update_status(true, None);
    assert_eq!(closed.status(), SessionStatus::Exited(None));

    let mut done = Session::started(9, "x".into(), SessionKind::Local);
    done.update_status(true, Some(true));
    assert_eq!(done.status(), SessionStatus::Exited(Some(0)));
}

#[test]
fn unread_output_is_remembered() {
    let mut session = Session::started(1, "web".into(), SessionKind::Ssh);
    assert!(!session.has_unread());
    session.set_unread(true);
    assert!(session.has_unread());
}

#[test]
fn pasting_is_bracketed_on_request() {
    assert_eq!(paste_bytes("é\n", false), "é\n".as_bytes().to_vec());
    assert_eq!(paste_bytes("ls", true), b"\x1b[200~ls\x1b[201~".to_vec());
}

#[test]
fn scrolling_stops_at_the_live_output() {
    assert_eq!(scrolled_up(4, 3), 7);
    assert_eq!(scrolled_down(7, 3), 4);
    assert_eq!(scrolled_down(2, 3), 0);
}

#[test]
fn the_shell_has_a_default() {
    assert_eq!(local_shell(Some("/bin/zsh".into())), "/bin/zsh");
    assert_eq!(local_shell(None), "/bin/sh");
}
