//! What the keys do in tabs and sessions, whatever is open.
use vstd::prelude::*;
use crate::app::{
    file_transfer_opened, has_label, lemma_next_label_is, local_label, AppView,
};
use crate::filebrowser::BrowserView;
use crate::handlers::EffectView;
use crate::keys::{key_bytes, KeyCode, KeyEvent, CONTROL};
use crate::model::HostView;
use crate::pty::{polled_status, SessionKind, SessionStatus, SessionView};
use crate::screen;
use crate::screen::PrefixState;
use crate::seqs::{lemma_position, lemma_position_is};
use crate::text::decimal;

verus! {

/// How many tabs there are: the host browser, the sessions and the file browsers.
pub open spec fn tabs(app: AppView) -> int {
    1int + app.sessions.len() + app.file_transfers.len()
}

/// The number of the tab that is shown: the host browser is the first, then come the
/// sessions in their order, and then the file browsers in theirs.
pub open spec fn tab_number(app: AppView) -> int {
    match app.view {
        screen::View::Hosts => 0,
        screen::View::Session(i) => 1 + i,
        screen::View::FileTransfer(i) => 1 + app.sessions.len() + i,
    }
}

/// Whether the next key is a tab command: the prefix was pressed, and nothing else is
/// open.
pub open spec fn awaits_command(app: AppView) -> bool {
    app.prefix == PrefixState::Pending && match app.view {
        screen::View::Hosts => app.mode is Normal,
        screen::View::Session(_) => !(app.mode is TabHelp),
        screen::View::FileTransfer(_) => true,
    }
}

/// Whether only what is shown has changed: nothing is closed or opened, and sessions
/// change in nothing but whether they were read.
pub open spec fn only_shows(before: AppView, after: AppView) -> bool {
    &&& after.sessions.len() == before.sessions.len()
    &&& forall|i: int|
        0 <= i < before.sessions.len() ==> (#[trigger] after.sessions[i]) == (SessionView {
            unread: after.sessions[i].unread,
            ..before.sessions[i]
        })
    &&& after.file_transfers == before.file_transfers
    &&& after.config == before.config
    &&& after.dirty == before.dirty
    &&& after.mode == before.mode
    &&& after.exit == before.exit
}

proof fn lemma_shown_tab(app: AppView, tab: int)
    requires
        app.tabs_fit(),
        0 <= tab < tabs(app),
    ensures
        tab_number(app.show_tab(tab)) == tab,
        only_shows(app, app.show_tab(tab)),
        app.show_tab(tab).prefix == app.prefix,
{
}

/// After the prefix key, `n` leads in every view to the tab behind the one that is
/// shown, and `p` to the one before it, around the ends. Nothing is closed or opened
/// by it.
pub proof fn lemma_next_and_previous_tab(
    app: AppView,
    key: KeyEvent,
    env_user: Result<Seq<char>, Seq<char>>,
    after: AppView,
    effect: EffectView,
)
    requires
        app.wf(),
        awaits_command(app),
        app.key_event(key, env_user, after, effect),
        key.code == KeyCode::Char('n') || key.code == KeyCode::Char('p'),
    ensures
        key.code == KeyCode::Char('n') ==> tab_number(after) == (if tab_number(app) + 1 < tabs(app) {
            tab_number(app) + 1
        } else {
            0
        }),
        key.code == KeyCode::Char('p') ==> tab_number(after) == (if tab_number(app) > 0 {
            tab_number(app) - 1
        } else {
            tabs(app) - 1
        }),
        only_shows(app, after),
        after.prefix == PrefixState::Inactive,
        effect is Idle,
{
    let n = tabs(app);
    let at = tab_number(app);
    let s = AppView { prefix: PrefixState::Inactive, selection: None, ..app };
    let t = AppView { prefix: PrefixState::Inactive, ..app };
    if at + 1 < n {
        vstd::arithmetic::div_mod::lemma_small_mod((at + 1) as nat, n as nat);
    } else {
        vstd::arithmetic::div_mod::lemma_mod_self_0(n);
    }
    if at > 0 {
        vstd::arithmetic::div_mod::lemma_small_mod((at - 1) as nat, n as nat);
    } else {
        vstd::arithmetic::div_mod::lemma_fundamental_div_mod_converse(-1, n, -1, n - 1);
    }
    let next = (at + 1) % n;
    let prev = (at - 1) % n;
    lemma_shown_tab(s, next);
    lemma_shown_tab(s, prev);
    lemma_shown_tab(t, next);
    lemma_shown_tab(t, prev);
}

/// After the prefix key, a digit from one on shows the session of that number, which
/// is then read. Where there is no such session, the tab stays.
pub proof fn lemma_digit_shows_session(
    app: AppView,
    key: KeyEvent,
    env_user: Result<Seq<char>, Seq<char>>,
    after: AppView,
    effect: EffectView,
    n: int,
)
    requires
        app.wf(),
        awaits_command(app),
        app.key_event(key, env_user, after, effect),
        1 <= n <= 9,
        key.code == KeyCode::Char((48 + n) as char),
    ensures
        effect is Idle,
        only_shows(app, after),
        n <= app.sessions.len() ==> after.view == screen::View::Session((n - 1) as usize)
            && !after.sessions[n - 1].unread,
        n > app.sessions.len() ==> after.view == app.view,
        forall|i: int|
            0 <= i < app.sessions.len() && i != n - 1 ==> (#[trigger] after.sessions[i])
                == app.sessions[i],
        after.prefix == PrefixState::Inactive,
{
    let c = (48 + n) as char;
    assert(c as int == 48 + n);
    assert(c != 'h' && c != '0' && c != 'x' && c != 'f' && c != 't');
}

/// After the prefix key, `h` and `0` lead to the host browser in every view.
pub proof fn lemma_home_tab(
    app: AppView,
    key: KeyEvent,
    env_user: Result<Seq<char>, Seq<char>>,
    after: AppView,
    effect: EffectView,
)
    requires
        awaits_command(app),
        app.key_event(key, env_user, after, effect),
        key.code == KeyCode::Char('h') || key.code == KeyCode::Char('0'),
    ensures
        after.view is Hosts,
        effect is Idle,
        after.sessions == app.sessions,
        only_shows(app, after),
        after.prefix == PrefixState::Inactive,
{
}

/// After the prefix key, `?` shows the help of the tab commands, and any key drops it.
pub proof fn lemma_tab_help(
    app: AppView,
    key: KeyEvent,
    env_user: Result<Seq<char>, Seq<char>>,
    after: AppView,
    effect: EffectView,
)
    requires
        app.key_event(key, env_user, after, effect),
    ensures
        awaits_command(app) && key.code == KeyCode::Char('?') ==> after.mode is TabHelp
            && after.view == app.view && effect is Idle,
        app.mode is TabHelp && !(app.view is FileTransfer) ==> after.mode is Normal && after.view
            == app.view && effect is Idle,
{
}

/// After the prefix key, `x` closes the session that is shown and no other. The one
/// behind it takes its place, or else the last one, or else the host browser.
pub proof fn lemma_close_session(
    app: AppView,
    key: KeyEvent,
    env_user: Result<Seq<char>, Seq<char>>,
    after: AppView,
    effect: EffectView,
    i: usize,
    k: int,
)
    requires
        app.wf(),
        awaits_command(app),
        app.view == screen::View::Session(i),
        app.key_event(key, env_user, after, effect),
        key.code == KeyCode::Char('x'),
    ensures
        effect is Idle,
        after.sessions.len() == app.sessions.len() - 1,
        0 <= k < i ==> after.sessions[k] == app.sessions[k],
        i <= k < after.sessions.len() ==> after.sessions[k] == app.sessions[k + 1],
        after.view == (if i + 1 < app.sessions.len() {
            screen::View::Session(i)
        } else if i > 0 {
            screen::View::Session((i - 1) as usize)
        } else {
            screen::View::Hosts
        }),
        after.file_transfers == app.file_transfers,
        after.config == app.config,
{
}

/// After the prefix key, `x` closes the file browser that is shown and no other, and so
/// does Esc without it while nothing is open. The one behind it takes its place, or
/// else the last one, or else the host browser.
pub proof fn lemma_close_browser(
    app: AppView,
    key: KeyEvent,
    env_user: Result<Seq<char>, Seq<char>>,
    after: AppView,
    effect: EffectView,
    i: usize,
    k: int,
)
    requires
        app.wf(),
        app.view == screen::View::FileTransfer(i),
        app.key_event(key, env_user, after, effect),
        app.prefix == PrefixState::Pending && key.code == KeyCode::Char('x') || app.prefix
            == PrefixState::Inactive && app.file_transfers[i as int].mode is Normal
            && key.code is Esc,
    ensures
        effect is Idle,
        after.file_transfers.len() == app.file_transfers.len() - 1,
        0 <= k < i ==> after.file_transfers[k] == app.file_transfers[k],
        i <= k < after.file_transfers.len() ==> after.file_transfers[k] == app.file_transfers[k
            + 1],
        after.view == (if i + 1 < app.file_transfers.len() {
            screen::View::FileTransfer(i)
        } else if i > 0 {
            screen::View::FileTransfer((i - 1) as usize)
        } else {
            screen::View::Hosts
        }),
        after.sessions == app.sessions,
        after.config == app.config,
{
}

/// After the prefix key, `s` asks for a local session under the first label that is
/// free: no session has it, and all labels with smaller numbers are taken.
pub proof fn lemma_local_session_is_asked_for(
    app: AppView,
    key: KeyEvent,
    env_user: Result<Seq<char>, Seq<char>>,
    after: AppView,
    effect: EffectView,
    n: nat,
)
    requires
        awaits_command(app),
        app.sessions.len() < usize::MAX,
        app.key_event(key, env_user, after, effect),
        key.code == KeyCode::Char('s'),
        1 <= n,
        !is_taken(app, n),
        forall|m: nat| 1 <= m < n ==> #[trigger] is_taken(app, m),
    ensures
        effect == EffectView::OpenLocal("local-"@ + decimal(n)),
        after.view == app.view,
        after.sessions == app.sessions,
{
    let s = AppView { prefix: PrefixState::Inactive, selection: None, ..app };
    let t = AppView { prefix: PrefixState::Inactive, ..app };
    assert forall|m: nat| #[trigger] has_label(s, local_label(m)) == is_taken(app, m) by {}
    assert forall|m: nat| #[trigger] has_label(t, local_label(m)) == is_taken(app, m) by {}
    lemma_next_label_is(s, local_label(n), n);
    lemma_next_label_is(t, local_label(n), n);
}

/// Whether a session has the label of a number.
pub open spec fn is_taken(app: AppView, n: nat) -> bool {
    exists|k: int| 0 <= k < app.sessions.len() && (#[trigger] app.sessions[k]).alias == "local-"@
        + decimal(n)
}

/// In a session, `f` after the prefix key leads to the file browser of the session's
/// host: the one that there is, or a new one behind the others.
pub proof fn lemma_files_of_session(
    app: AppView,
    key: KeyEvent,
    env_user: Result<Seq<char>, Seq<char>>,
    after: AppView,
    effect: EffectView,
    i: usize,
    host: HostView,
)
    requires
        app.wf(),
        awaits_command(app),
        app.view == screen::View::Session(i),
        app.config.find(app.sessions[i as int].alias) == Some(host),
        app.key_event(key, env_user, after, effect),
        key.code == KeyCode::Char('f'),
        app.file_transfers.len() < usize::MAX,
    ensures
        shows_files_of(app, after, effect, host),
        after.sessions == app.sessions,
        after.config == app.config,
{
    let s = AppView { prefix: PrefixState::Inactive, selection: None, ..app };
    crate::model::lemma_find(app.config, app.sessions[i as int].alias);
    lemma_files_are_shown(s, host, after, effect);
}

/// Whether the file browser of a host is shown afterwards: one that was there, or a new
/// one behind the others, which is then to be connected.
pub open spec fn shows_files_of(
    before: AppView,
    after: AppView,
    effect: EffectView,
    host: HostView,
) -> bool {
    after.view matches screen::View::FileTransfer(n) && n < after.file_transfers.len()
        && after.file_transfers[n as int].alias == host.alias && if has_browser(
        before,
        host.alias,
    ) {
        effect is Idle && after.file_transfers == before.file_transfers && forall|k: int|
            0 <= k < n ==> (#[trigger] after.file_transfers[k]).alias != host.alias
    } else {
        effect is ConnectFiles && n == before.file_transfers.len() && after.file_transfers.len()
            == n + 1 && after.file_transfers.take(n as int) == before.file_transfers
            && after.file_transfers[n as int].host == host
            && !after.file_transfers[n as int].connected
    }
}

/// Whether there is a file browser for an alias.
pub open spec fn has_browser(app: AppView, alias: Seq<char>) -> bool {
    exists|k: int| 0 <= k < app.file_transfers.len() && (#[trigger] app.file_transfers[k]).alias
        == alias
}

pub(crate) proof fn lemma_files_are_shown(
    app: AppView,
    host: HostView,
    after: AppView,
    effect: EffectView,
)
    requires
        app.tabs_fit(),
        file_transfer_opened(app, host, after, effect is ConnectFiles),
        effect is ConnectFiles || effect is Idle,
        app.file_transfers.len() < usize::MAX || effect is Idle,
    ensures
        shows_files_of(app, after, effect, host),
        after.sessions == app.sessions,
        after.config == app.config,
        after.dirty == app.dirty,
{
    lemma_position(app.file_transfers, |b: BrowserView| b.alias == host.alias);
    if effect is ConnectFiles {
        assert(after.file_transfers.take(app.file_transfers.len() as int) =~= app.file_transfers);
    }
}

// ---------------------------------------------------------------------------
// The prefix key
// ---------------------------------------------------------------------------

/// Whether a key is the prefix key.
pub open spec fn is_prefix_key(key: KeyEvent) -> bool {
    key.code == KeyCode::Char('t') && key.modifiers.has(CONTROL)
}

/// The prefix key is not sent to a session, and pressed twice it is sent once: as the
/// byte of Ctrl+T, to the session that is shown.
pub proof fn lemma_prefix_key_in_session(
    app: AppView,
    key: KeyEvent,
    env_user: Result<Seq<char>, Seq<char>>,
    after: AppView,
    effect: EffectView,
    i: usize,
)
    requires
        app.wf(),
        app.view == screen::View::Session(i),
        !(app.mode is TabHelp),
        is_prefix_key(key),
        app.key_event(key, env_user, after, effect),
    ensures
        app.prefix == PrefixState::Inactive ==> after.prefix == PrefixState::Pending
            && effect is Idle,
        app.prefix == PrefixState::Pending ==> after.prefix == PrefixState::Inactive && effect == (
        EffectView::Send { session: app.sessions[i as int].id, bytes: seq![20u8] }),
        after.view == app.view,
        after.sessions == app.sessions,
{
    assert(seq![0x14u8] =~= seq![20u8]);
}

/// In the host browser the prefix key waits for a command where there are tabs to
/// command, and in a file browser it always does.
pub proof fn lemma_prefix_key_elsewhere(
    app: AppView,
    key: KeyEvent,
    env_user: Result<Seq<char>, Seq<char>>,
    after: AppView,
    effect: EffectView,
)
    requires
        app.wf(),
        app.prefix == PrefixState::Inactive,
        is_prefix_key(key),
        app.key_event(key, env_user, after, effect),
    ensures
        app.view is Hosts && app.mode is Normal ==> effect is Idle && after == (AppView {
            prefix: if app.sessions.len() + app.file_transfers.len() > 0 {
                PrefixState::Pending
            } else {
                PrefixState::Inactive
            },
            ..app
        }),
        app.view matches screen::View::FileTransfer(i) ==> (
        app.file_transfers[i as int].mode is Normal ==> effect is Idle && after.prefix
            == PrefixState::Pending && after.view == app.view),
{
}

/// Whatever the key is, it is the only one that a pending prefix applies to.
pub proof fn lemma_prefix_applies_once(
    app: AppView,
    key: KeyEvent,
    env_user: Result<Seq<char>, Seq<char>>,
    after: AppView,
    effect: EffectView,
)
    requires
        awaits_command(app),
        app.key_event(key, env_user, after, effect),
    ensures
        after.prefix == PrefixState::Inactive,
{
}

// ---------------------------------------------------------------------------
// Sessions
// ---------------------------------------------------------------------------

/// Any other key is sent to the session that is shown, as the bytes that a terminal
/// sends for it, and changes nothing but that no text is selected any more.
pub proof fn lemma_keys_go_to_session(
    app: AppView,
    key: KeyEvent,
    env_user: Result<Seq<char>, Seq<char>>,
    after: AppView,
    effect: EffectView,
    i: usize,
)
    requires
        app.wf(),
        app.view == screen::View::Session(i),
        !(app.mode is TabHelp),
        app.prefix == PrefixState::Inactive,
        !is_prefix_key(key),
        app.key_event(key, env_user, after, effect),
    ensures
        after == (AppView { selection: None, ..app }),
        match key_bytes(key) {
            Some(bytes) => effect == (EffectView::Send {
                session: app.sessions[i as int].id,
                bytes,
            }),
            None => effect is Idle,
        },
{
}

/// A session that was started stands behind the others and is shown. That of a host
/// records the time in the host and in nothing else, and the configuration is then to
/// be saved.
pub proof fn lemma_started_session_is_shown(
    app: AppView,
    host: HostView,
    id: u64,
    label: Seq<char>,
    k: int,
)
    requires
        app.sessions.len() < usize::MAX,
    ensures
        ({
            let ssh = app.session_opened(host, id);
            let local = app.with_session(id, label, SessionKind::Local);
            let n = app.sessions.len() as int;
            &&& ssh.sessions.take(n) == app.sessions && ssh.sessions.len() == n + 1
            &&& local.sessions.take(n) == app.sessions && local.sessions.len() == n + 1
            &&& ssh.sessions[n].id == id && ssh.sessions[n].alias == host.alias
                && ssh.sessions[n].kind is Ssh && ssh.sessions[n].status is Running
            &&& local.sessions[n].id == id && local.sessions[n].alias == label
                && local.sessions[n].kind is Local && local.sessions[n].status is Running
            &&& ssh.view == screen::View::Session(n as usize) && local.view
                == screen::View::Session(n as usize)
            &&& ssh.dirty && local.dirty == app.dirty
            &&& local.config == app.config
            &&& ssh.config.groups == app.config.groups
            &&& ssh.config.hosts.len() == app.config.hosts.len()
            &&& 0 <= k < app.config.hosts.len() && app.config.hosts[k].alias != host.alias
                ==> ssh.config.hosts[k] == app.config.hosts[k]
            &&& app.config.find(host.alias) is Some ==> ssh.config.find(host.alias) == Some(host)
        }),
{
    let n = app.sessions.len() as int;
    let ssh = app.session_opened(host, id);
    assert(ssh.sessions.take(n) =~= app.sessions);
    assert(app.with_session(id, label, SessionKind::Local).sessions.take(n) =~= app.sessions);
    let wanted = |h: HostView| h.alias == host.alias;
    lemma_position(app.config.hosts, wanted);
    if let Some(p) = app.config.index_of(host.alias) {
        assert forall|q: int| 0 <= q < p implies !wanted(#[trigger] ssh.config.hosts[q]) by {
            assert(!wanted(app.config.hosts[q]));
        }
        lemma_position_is(ssh.config.hosts, wanted, p);
    }
}

/// A session runs until its program has ended or its terminal gives no more output.
/// How the program ended is kept: well or not.
pub proof fn lemma_session_ends(eof: bool, exit: Option<bool>)
    ensures
        polled_status(SessionStatus::Running, eof, exit) == (match exit {
            Some(true) => SessionStatus::Exited(Some(0)),
            Some(false) => SessionStatus::Exited(Some(1)),
            None => if eof {
                SessionStatus::Exited(None)
            } else {
                SessionStatus::Running
            },
        }),
{
}

/// What is seen of the sessions is noted with each, in their order, and nothing else
/// changes.
pub proof fn lemma_sessions_are_seen(app: AppView, seen: Seq<(bool, Option<bool>)>, i: int)
    requires
        0 <= i < app.sessions.len(),
    ensures
        app.sessions_seen(seen) == (AppView { sessions: app.sessions_seen(seen).sessions, ..app }),
        app.sessions_seen(seen).sessions.len() == app.sessions.len(),
        app.sessions_seen(seen).sessions[i] == (SessionView {
            status: app.sessions_seen(seen).sessions[i].status,
            ..app.sessions[i]
        }),
        i < seen.len() && app.sessions[i].status is Running ==> ((
        app.sessions_seen(seen).sessions[i].status is Running) == (!seen[i].0
            && seen[i].1 is None)),
        i >= seen.len() || app.sessions[i].status is Exited ==> app.sessions_seen(
            seen,
        ).sessions[i].status == app.sessions[i].status,
{
}

/// Keys go to the file browser that is shown and to no other, and what it asks for is to be
/// done. Closing it is done at once, and so is waiting for a tab command.
pub proof fn lemma_keys_go_to_files(
    app: AppView,
    key: KeyEvent,
    env_user: Result<Seq<char>, Seq<char>>,
    after: AppView,
    effect: EffectView,
    i: usize,
    k: int,
)
    requires
        app.view == screen::View::FileTransfer(i),
        i < app.file_transfers.len(),
        app.prefix == PrefixState::Inactive,
        app.key_event(key, env_user, after, effect),
    ensures
        ({
            let (browser, action) = app.file_transfers[i as int].files_key(key);
            &&& action is Nothing || action is Close || action is Prefix ==> effect is Idle
            &&& !(action is Nothing || action is Close || action is Prefix) ==> effect
                == EffectView::Files(action)
            &&& !(action is Close) ==> {
                &&& after == (AppView {
                    file_transfers: after.file_transfers,
                    prefix: after.prefix,
                    ..app
                })
                &&& after.file_transfers.len() == app.file_transfers.len()
                &&& after.file_transfers[i as int] == browser
                &&& 0 <= k < app.file_transfers.len() && k != i ==> after.file_transfers[k]
                    == app.file_transfers[k]
                &&& (after.prefix == PrefixState::Pending) == (action is Prefix)
            }
            &&& action is Close ==> {
                &&& after.file_transfers.len() == app.file_transfers.len() - 1
                &&& 0 <= k < i ==> after.file_transfers[k] == app.file_transfers[k]
                &&& i < k < app.file_transfers.len() ==> after.file_transfers[k - 1]
                    == app.file_transfers[k]
                &&& after.sessions == app.sessions && after.config == app.config
            }
        }),
{
}

} // verus!
