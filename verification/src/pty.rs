//! Sessions, and the answers that a terminal gives.
use vstd::prelude::*;
use vstd::utf8::encode_utf8;
use crate::text::{concat3, decimal, decimal_string};

verus! {

/// What runs in a session.
#[derive(Debug, Clone, Copy, PartialEq, Eq, Structural)]
pub enum SessionKind {
    Ssh,
    Local,
}

/// Whether the program of a session runs.
///
/// A missing code means that the program has ended and nothing more is known.
#[derive(Debug, Clone, Copy, PartialEq, Eq, Structural)]
pub enum SessionStatus {
    Running,
    Exited(Option<u32>),
}

/// The state of a session.
///
/// The terminal and the program behind it are found by the number.
#[derive(Debug)]
pub struct Session {
    pub id: u64,
    pub alias: String,
    pub kind: SessionKind,
    /// Whether output has come since the session was last looked at.
    pub unread: bool,
    status: SessionStatus,
}

/// The model of a session.
#[verifier::ext_equal]
pub struct SessionView {
    pub id: u64,
    pub alias: Seq<char>,
    pub kind: SessionKind,
    pub unread: bool,
    pub status: SessionStatus,
}

impl View for Session {
    type V = SessionView;

    closed spec fn view(&self) -> SessionView {
        SessionView {
            id: self.id,
            alias: self.alias@,
            kind: self.kind,
            unread: self.unread,
            status: self.status,
        }
    }
}

/// The models of a list of sessions.
pub open spec fn session_views(sessions: Seq<Session>) -> Seq<SessionView> {
    sessions.map_values(|s: Session| s@)
}

/// The status after the program was looked at.
///
/// `eof` says that the terminal gives no more output, and `exit` whether the
/// program ended and whether it ended well. A status other than `Running` stays.
pub open spec fn polled_status(status: SessionStatus, eof: bool, exit: Option<bool>) -> SessionStatus {
    match status {
        SessionStatus::Running => match exit {
            Some(success) => SessionStatus::Exited(
                Some(
                    if success {
                        0
                    } else {
                        1
                    },
                ),
            ),
            None => if eof {
                SessionStatus::Exited(None)
            } else {
                SessionStatus::Running
            },
        },
        SessionStatus::Exited(_) => status,
    }
}

impl Session {
    /// A session whose program was just started.
    pub fn started(id: u64, alias: String, kind: SessionKind) -> (session: Self)
        ensures
            session@ == (SessionView {
                id,
                alias: alias@,
                kind,
                unread: false,
                status: SessionStatus::Running,
            }),
    {
        Session { id, alias, kind, unread: false, status: SessionStatus::Running }
    }

    /// The number of the session.
    pub fn id(&self) -> (id: u64)
        ensures
            id == self@.id,
    {
        self.id
    }

    /// The alias of the session's host.
    pub fn alias(&self) -> (alias: &str)
        ensures
            alias@ == self@.alias,
    {
        self.alias.as_str()
    }

    /// What runs in the session.
    pub fn kind(&self) -> (kind: SessionKind)
        ensures
            kind == self@.kind,
    {
        self.kind
    }

    /// Whether output has come since the session was last looked at.
    pub fn has_unread(&self) -> (unread: bool)
        ensures
            unread == self@.unread,
    {
        self.unread
    }

    /// Sets whether output has come since the session was last looked at.
    pub fn set_unread(&mut self, unread: bool)
        ensures
            final(self)@ == (SessionView { unread, ..old(self)@ }),
    {
        self.unread = unread;
    }

    /// Records what was seen of the program.
    pub fn update_status(&mut self, eof: bool, exit: Option<bool>)
        ensures
            final(self)@ == (SessionView {
                status: polled_status(old(self)@.status, eof, exit),
                ..old(self)@
            }),
    {
        if let SessionStatus::Exited(_) = self.status {
            return;
        }
        match exit {
            Some(success) => {
                let code: u32 = if success {
                    0
                } else {
                    1
                };
                self.status = SessionStatus::Exited(Some(code));
            },
            None => {
                if eof {
                    self.status = SessionStatus::Exited(None);
                }
            },
        }
    }

    /// The last known status of the program.
    pub fn status(&self) -> (status: SessionStatus)
        ensures
            status == self@.status,
    {
        self.status
    }
}

/// A session that has ended stays ended, with the same code.
pub proof fn lemma_exit_is_final(status: SessionStatus, eof: bool, exit: Option<bool>)
    requires
        status is Exited,
    ensures
        polled_status(status, eof, exit) == status,
{
}

/// The shell to run in a local session: the configured one, or `/bin/sh`.
pub fn local_shell(configured: Option<String>) -> (shell: String)
    ensures
        shell@ == (match configured {
            Some(shell) => shell@,
            None => "/bin/sh"@,
        }),
{
    match configured {
        Some(shell) => shell,
        None => "/bin/sh".to_string(),
    }
}

/// What is sent for pasted text: the text, between markers where the program has
/// asked for them.
pub open spec fn pasted_text(text: Seq<char>, bracketed: bool) -> Seq<char> {
    if bracketed {
        "\x1b[200~"@ + text + "\x1b[201~"@
    } else {
        text
    }
}

/// The bytes to send for pasted text.
pub fn paste_bytes(text: &str, bracketed: bool) -> (bytes: Vec<u8>)
    ensures
        bytes@ == encode_utf8(pasted_text(text@, bracketed)),
{
    if bracketed {
        let whole = concat3("\x1b[200~", text, "\x1b[201~");
        whole.as_str().as_bytes_vec()
    } else {
        text.as_bytes_vec()
    }
}

/// How far the view is scrolled back after it moved up by some lines.
pub open spec fn further_back(current: usize, lines: usize) -> int {
    if current + lines > usize::MAX {
        usize::MAX as int
    } else {
        current + lines
    }
}

/// How far the view is scrolled back after it moved down by some lines.
pub open spec fn less_far_back(current: usize, lines: usize) -> int {
    if current < lines {
        0
    } else {
        current - lines
    }
}

/// How far the view is scrolled back after it moved up.
pub fn scrolled_up(current: usize, lines: usize) -> (offset: usize)
    ensures
        offset == further_back(current, lines),
{
    current.saturating_add(lines)
}

/// How far the view is scrolled back after it moved down.
pub fn scrolled_down(current: usize, lines: usize) -> (offset: usize)
    ensures
        offset == less_far_back(current, lines),
{
    current.saturating_sub(lines)
}

// ---------------------------------------------------------------------------
// Queries
// ---------------------------------------------------------------------------

/// The first number of a control sequence, or zero.
pub open spec fn first_number(params: Seq<&[u16]>) -> u16 {
    if params.len() > 0 && params[0]@.len() > 0 {
        params[0]@[0]
    } else {
        0
    }
}

/// The first number of a control sequence, or zero.
pub fn first_param(params: &[&[u16]]) -> (n: u16)
    ensures
        n == first_number(params@),
{
    if params.len() > 0 && params[0].len() > 0 {
        params[0][0]
    } else {
        0
    }
}

/// The answer to the escape sequence `ESC Z`: a terminal with advanced video.
pub open spec fn escape_answer(i1: Option<u8>, i2: Option<u8>, b: u8) -> Option<Seq<char>> {
    if i1 is None && i2 is None && b == 0x5a {
        Some("\x1b[?1;2c"@)
    } else {
        None
    }
}

/// Answers an escape sequence that the screen does not handle.
pub fn escape_reply(i1: Option<u8>, i2: Option<u8>, b: u8) -> (reply: Option<String>)
    ensures
        crate::model::opt_text(reply) == escape_answer(i1, i2, b),
{
    if i1.is_none() && i2.is_none() && b == 0x5a {
        Some("\x1b[?1;2c".to_string())
    } else {
        None
    }
}

/// A report of two numbers.
pub open spec fn report(start: Seq<char>, a: nat, b: nat, end: Seq<char>) -> Seq<char> {
    start + decimal(a) + ";"@ + decimal(b) + end
}

/// The answer to a control sequence.
///
/// Device attributes, the status, the cursor position, which counts from one,
/// and the size of the text area are answered. Anything else is not.
pub open spec fn csi_answer(
    i1: Option<u8>,
    i2: Option<u8>,
    param: u16,
    c: char,
    cursor: (u16, u16),
    size: (u16, u16),
) -> Option<Seq<char>> {
    if i2 is Some {
        None
    } else if i1 is None && c == 'c' && param == 0 {
        Some("\x1b[?1;2c"@)
    } else if i1 == Some(0x3eu8) && c == 'c' {
        Some("\x1b[>0;136;0c"@)
    } else if i1 is None && c == 'n' && param == 5 {
        Some("\x1b[0n"@)
    } else if i1 is None && c == 'n' && param == 6 {
        Some(report("\x1b["@, cursor.0 as nat + 1, cursor.1 as nat + 1, "R"@))
    } else if i1 == Some(0x3fu8) && c == 'n' && param == 6 {
        Some(report("\x1b[?"@, cursor.0 as nat + 1, cursor.1 as nat + 1, "R"@))
    } else if i1 is None && c == 't' && param == 18 {
        Some(report("\x1b[8;"@, size.0 as nat, size.1 as nat, "t"@))
    } else {
        None
    }
}

fn report_string(start: &str, a: u64, b: u64, end: &str) -> (text: String)
    ensures
        text@ == report(start@, a as nat, b as nat, end@),
{
    let first = decimal_string(a);
    let second = decimal_string(b);
    let head = concat3(start, first.as_str(), ";");
    concat3(head.as_str(), second.as_str(), end)
}

/// Answers a control sequence that the screen does not handle. Rows and columns
/// of `cursor` count from zero, and `size` is rows by columns.
pub fn csi_reply(
    i1: Option<u8>,
    i2: Option<u8>,
    params: &[&[u16]],
    c: char,
    cursor: (u16, u16),
    size: (u16, u16),
) -> (reply: Option<String>)
    ensures
        crate::model::opt_text(reply) == csi_answer(
            i1,
            i2,
            first_number(params@),
            c,
            cursor,
            size,
        ),
{
    if i2.is_some() {
        return None;
    }
    let param = first_param(params);
    match i1 {
        None => {
            if c == 'c' && param == 0 {
                Some("\x1b[?1;2c".to_string())
            } else if c == 'n' && param == 5 {
                Some("\x1b[0n".to_string())
            } else if c == 'n' && param == 6 {
                Some(report_string("\x1b[", cursor.0 as u64 + 1, cursor.1 as u64 + 1, "R"))
            } else if c == 't' && param == 18 {
                Some(report_string("\x1b[8;", size.0 as u64, size.1 as u64, "t"))
            } else {
                None
            }
        },
        Some(b) => {
            if b == 0x3e && c == 'c' {
                Some("\x1b[>0;136;0c".to_string())
            } else if b == 0x3f && c == 'n' && param == 6 {
                Some(report_string("\x1b[?", cursor.0 as u64 + 1, cursor.1 as u64 + 1, "R"))
            } else {
                None
            }
        },
    }
}

/// The answer to an operating system command: the foreground, background and
/// cursor colours can be asked for.
pub open spec fn osc_answer(params: Seq<Seq<u8>>) -> Option<Seq<char>> {
    if params.len() == 2 && params[1] == seq![0x3fu8] {
        if params[0] == seq![0x31u8, 0x30] {
            Some("\x1b]10;rgb:ffff/ffff/ffff\x1b\\"@)
        } else if params[0] == seq![0x31u8, 0x31] {
            Some("\x1b]11;rgb:0000/0000/0000\x1b\\"@)
        } else if params[0] == seq![0x31u8, 0x32] {
            Some("\x1b]12;rgb:ffff/ffff/ffff\x1b\\"@)
        } else {
            None
        }
    } else {
        None
    }
}

/// Answers an operating system command that the screen does not handle.
pub fn osc_reply(params: &[&[u8]]) -> (reply: Option<String>)
    ensures
        crate::model::opt_text(reply) == osc_answer(params@.map_values(|p: &[u8]| p@)),
{
    let ghost views = params@.map_values(|p: &[u8]| p@);
    if params.len() != 2 {
        return None;
    }
    let kind = params[0];
    let query = params[1];
    assert(views[0] == kind@ && views[1] == query@);
    if query.len() != 1 || query[0] != 0x3f || kind.len() != 2 || kind[0] != 0x31 {
        proof {
            if views[1] == seq![0x3fu8] {
                assert(query@.len() == 1 && query@[0] == 0x3f);
            }
        }
        return None;
    }
    assert(query@ =~= seq![0x3fu8]);
    let digit = kind[1];
    assert(kind@ =~= seq![0x31u8, digit]);
    assert(forall|d: u8| seq![0x31u8, d][1] == d);
    if digit == 0x30 {
        Some("\x1b]10;rgb:ffff/ffff/ffff\x1b\\".to_string())
    } else if digit == 0x31 {
        Some("\x1b]11;rgb:0000/0000/0000\x1b\\".to_string())
    } else if digit == 0x32 {
        Some("\x1b]12;rgb:ffff/ffff/ffff\x1b\\".to_string())
    } else {
        assert(seq![0x31u8, digit][1] == digit);
        assert(kind@[1] == digit);
        None
    }
}

} // verus!
