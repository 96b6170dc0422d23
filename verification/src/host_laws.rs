//! What the keys do in the host browser and its forms, whatever hosts there are.
use vstd::prelude::*;
use crate::app::{AppView, InputStateView, ModeView, TestStatusView};
use crate::connect_laws::{holds, stands_at};
use crate::form::{EditorView, EntryFormView, ExtraField, FormView};
use crate::handlers::EffectView;
use crate::keys::{KeyCode, KeyEvent, CONTROL};
use crate::listing::{
    first_host_row, group_entries_of, items_of, lemma_moves_to_nearest_host, GroupEntryView,
    ItemView,
};
use crate::model::{lemma_find, ConfigView, HostView};
use crate::pty::{SessionKind, SessionView};
use crate::screen;
use crate::screen::{Pane, PrefixState};
use crate::seqs::{lemma_filter_complete, lemma_filter_sound, lemma_position, lemma_position_is};
use crate::tab_laws::{lemma_files_are_shown, shows_files_of};
use crate::text::{decimal, lemma_port_round_trip, parse_port, trim};

verus! {

/// Whether the host browser is shown with nothing open.
pub open spec fn is_browsing(app: AppView) -> bool {
    app.view is Hosts && app.mode is Normal && app.prefix == PrefixState::Inactive
}

/// Whether a row is selected, and is the row of a host.
pub open spec fn selects(app: AppView, host: HostView) -> bool {
    &&& 0 <= app.selected < app.items.len()
    &&& app.items[app.selected] == ItemView::Host(host.alias)
    &&& is_first_of_alias(app.config, host)
}

/// Whether a host is the first of a configuration with its alias.
pub open spec fn is_first_of_alias(config: ConfigView, host: HostView) -> bool {
    exists|k: int| #[trigger] is_host_at(config, host, k)
}

/// Whether a host stands at a position, and none before it has its alias.
pub open spec fn is_host_at(config: ConfigView, host: HostView, k: int) -> bool {
    &&& 0 <= k < config.hosts.len()
    &&& config.hosts[k] == host
    &&& forall|i: int| 0 <= i < k ==> (#[trigger] config.hosts[i]).alias != host.alias
}

proof fn lemma_selects(app: AppView, host: HostView)
    requires
        selects(app, host),
    ensures
        app.selected_host() == Some(host),
        app.config.find(host.alias) == Some(host),
{
    let k = choose|k: int| #[trigger] is_host_at(app.config, host, k);
    lemma_position_is(app.config.hosts, |h: HostView| h.alias == host.alias, k);
}

// ---------------------------------------------------------------------------
// Moving
// ---------------------------------------------------------------------------

/// Among the hosts, the keys for moving lead to the nearest row of a host below or
/// above, around the ends, and change nothing else.
pub proof fn lemma_moving_among_hosts(
    app: AppView,
    key: KeyEvent,
    env_user: Result<Seq<char>, Seq<char>>,
    after: AppView,
    effect: EffectView,
    host: int,
    e: int,
)
    requires
        app.wf(),
        is_browsing(app),
        app.focus is Hosts,
        app.key_event(key, env_user, after, effect),
        0 <= host < app.items.len(),
        app.items[host] is Host,
        0 <= e < app.items.len(),
    ensures
        key.code is Down || key.code == KeyCode::Char('j') ==> {
            &&& effect is Idle && after == (AppView { selected: after.selected, ..app })
            &&& 0 <= after.selected < app.items.len() && app.items[after.selected] is Host
            &&& after.selected > app.selected ==> (app.selected < e < after.selected ==> !(
            app.items[e] is Host))
            &&& after.selected <= app.selected ==> (e > app.selected || e < after.selected ==> !(
            app.items[e] is Host))
        },
        key.code is Up || key.code == KeyCode::Char('k') ==> {
            &&& effect is Idle && after == (AppView { selected: after.selected, ..app })
            &&& 0 <= after.selected < app.items.len() && app.items[after.selected] is Host
            &&& after.selected < app.selected ==> (after.selected < e < app.selected ==> !(
            app.items[e] is Host))
            &&& after.selected >= app.selected ==> (e < app.selected || e > after.selected ==> !(
            app.items[e] is Host))
        },
{
    lemma_moves_to_nearest_host(app.items, app.selected, host, e);
}

/// While a search is typed, the arrows move among the hosts that were found, and the search
/// goes on.
pub proof fn lemma_moving_while_searching(
    app: AppView,
    key: KeyEvent,
    env_user: Result<Seq<char>, Seq<char>>,
    after: AppView,
    effect: EffectView,
    host: int,
    e: int,
)
    requires
        app.wf(),
        app.view is Hosts,
        app.mode is Searching,
        app.focus is Hosts,
        app.key_event(key, env_user, after, effect),
        0 <= host < app.items.len(),
        app.items[host] is Host,
        0 <= e < app.items.len(),
    ensures
        key.code is Down || key.code is Up ==> effect is Idle && after == (AppView {
            selected: after.selected,
            ..app
        }) && 0 <= after.selected < app.items.len() && app.items[after.selected] is Host,
        key.code is Down && after.selected > app.selected ==> (app.selected < e < after.selected
            ==> !(app.items[e] is Host)),
        key.code is Down && after.selected <= app.selected ==> (e > app.selected || e
            < after.selected ==> !(app.items[e] is Host)),
        key.code is Up && after.selected < app.selected ==> (after.selected < e < app.selected
            ==> !(app.items[e] is Host)),
        key.code is Up && after.selected >= app.selected ==> (e < app.selected || e
            > after.selected ==> !(app.items[e] is Host)),
{
    lemma_moves_to_nearest_host(app.items, app.selected, host, e);
}

/// Whether a key means something in the host browser, in a pane.
pub open spec fn means_something(code: KeyCode, hosts: bool, control: bool) -> bool {
    match code {
        KeyCode::Esc | KeyCode::Up | KeyCode::Down | KeyCode::Left | KeyCode::Right
        | KeyCode::Tab => true,
        KeyCode::Enter => hosts,
        KeyCode::Char(c) => {
            ||| c == 'q' || c == 'j' || c == 'k' || c == 'e' || c == 'd' || c == '/'
            ||| hosts && (c == 'a' || c == 'c' || c == 'f')
            ||| c == 't' && (hosts || control)
            ||| !hosts && c == 'g'
        },
        _ => false,
    }
}

/// A key that means nothing in the focused pane does nothing: hosts are added, copied, checked
/// and connected to from among the hosts alone, and groups are added from among the groups.
pub proof fn lemma_other_keys_do_nothing(
    app: AppView,
    key: KeyEvent,
    env_user: Result<Seq<char>, Seq<char>>,
    after: AppView,
    effect: EffectView,
)
    requires
        is_browsing(app),
        app.key_event(key, env_user, after, effect),
        !means_something(key.code, app.focus is Hosts, key.modifiers.bits & 2 != 0),
    ensures
        after == app,
        effect is Idle,
{
}

/// Among the groups, the keys for moving lead to the next or the previous entry, around
/// the ends. A search is dropped, and what the entry stands for is shown with its
/// first host selected.
pub proof fn lemma_moving_among_groups(
    app: AppView,
    key: KeyEvent,
    env_user: Result<Seq<char>, Seq<char>>,
    after: AppView,
    effect: EffectView,
)
    requires
        app.wf(),
        is_browsing(app),
        app.focus is Groups,
        app.key_event(key, env_user, after, effect),
    ensures
        ({
            let n = group_entries_of(app.config).len();
            let shown = effect is Idle && after.search.text.len() == 0 && after.items == items_of(
                app.config,
                group_entries_of(app.config),
                after.group_selected,
                seq![],
            ) && after.selected == first_host_row(after.items) && after.config == app.config
                && after.focus == app.focus;
            &&& key.code is Down || key.code == KeyCode::Char('j') ==> shown
                && after.group_selected == (if app.group_selected + 1 < n {
                app.group_selected + 1
            } else {
                0
            })
            &&& key.code is Up || key.code == KeyCode::Char('k') ==> shown && after.group_selected
                == (if app.group_selected > 0 {
                app.group_selected - 1
            } else {
                n - 1
            })
        }),
{
    let n = app.group_entries.len();
    let at = app.group_selected;
    if at + 1 < n {
        vstd::arithmetic::div_mod::lemma_small_mod((at + 1) as nat, n);
    } else {
        vstd::arithmetic::div_mod::lemma_mod_self_0(n as int);
    }
    assert(Seq::<char>::empty() =~= seq![]);
}

/// Tab changes between the panes, and the arrows lead to the one on their side.
pub proof fn lemma_focus_keys(
    app: AppView,
    key: KeyEvent,
    env_user: Result<Seq<char>, Seq<char>>,
    after: AppView,
    effect: EffectView,
)
    requires
        is_browsing(app),
        app.key_event(key, env_user, after, effect),
        key.code is Tab || key.code is Left || key.code is Right,
    ensures
        effect is Idle,
        after == (AppView { focus: after.focus, ..app }),
        key.code is Tab ==> after.focus != app.focus,
        key.code is Left ==> after.focus is Groups,
        key.code is Right ==> after.focus is Hosts,
{
}

/// `q` quits. Esc does too, unless something is searched for: then it drops the search.
/// No other key quits.
pub proof fn lemma_quitting(
    app: AppView,
    key: KeyEvent,
    env_user: Result<Seq<char>, Seq<char>>,
    after: AppView,
    effect: EffectView,
)
    requires
        !app.exit,
        app.key_event(key, env_user, after, effect),
    ensures
        is_browsing(app) && key.code == KeyCode::Char('q') ==> after == (AppView { exit: true, ..app
        }) && effect is Idle,
        is_browsing(app) && key.code is Esc && app.search.text.len() == 0 ==> after == (AppView {
            exit: true,
            ..app
        }) && effect is Idle,
        is_browsing(app) && key.code is Esc && app.search.text.len() > 0 ==> !after.exit
            && after.search.text.len() == 0,
        after.exit ==> is_browsing(app) && (key.code == KeyCode::Char('q') || key.code is Esc),
{
    if app.view is Session {
        lemma_sessions_never_quit(app, key, after, effect);
    }
    if app.view is FileTransfer {
        lemma_browsers_never_quit(app, key);
    }
    if app.view is Hosts && !is_browsing(app) {
        lemma_forms_never_quit(app, key, env_user, after, effect);
    }
}

proof fn lemma_sessions_never_quit(app: AppView, key: KeyEvent, after: AppView, effect: EffectView)
    requires
        app.session_key(key, after, effect),
    ensures
        after.exit == app.exit,
{
}

proof fn lemma_browsers_never_quit(app: AppView, key: KeyEvent)
    ensures
        app.file_transfer_key(key).0.exit == app.exit,
{
}

proof fn lemma_forms_never_quit(
    app: AppView,
    key: KeyEvent,
    env_user: Result<Seq<char>, Seq<char>>,
    after: AppView,
    effect: EffectView,
)
    requires
        app.hosts_key(key, env_user, after, effect),
        !(app.mode is Normal && app.prefix == PrefixState::Inactive),
    ensures
        after.exit == app.exit,
{
}

// ---------------------------------------------------------------------------
// Connecting
// ---------------------------------------------------------------------------

/// Whether there is an SSH session for an alias.
pub open spec fn has_session(app: AppView, alias: Seq<char>) -> bool {
    exists|k: int|
        0 <= k < app.sessions.len() && (#[trigger] app.sessions[k]).kind is Ssh
            && app.sessions[k].alias == alias
}

/// Enter on a host asks for a session with exactly that host. Where it has a session,
/// that one is shown instead.
pub proof fn lemma_enter_connects(
    app: AppView,
    key: KeyEvent,
    env_user: Result<Seq<char>, Seq<char>>,
    after: AppView,
    effect: EffectView,
    host: HostView,
)
    requires
        app.wf(),
        is_browsing(app),
        app.focus is Hosts,
        selects(app, host),
        key.code is Enter,
        app.key_event(key, env_user, after, effect),
    ensures
        !has_session(app, host.alias) ==> effect == EffectView::OpenSession(host) && after == app,
        has_session(app, host.alias) ==> {
            &&& effect is Idle || effect is Persist
            &&& after.view matches screen::View::Session(i) && i < app.sessions.len()
                && app.sessions[i as int].kind is Ssh && app.sessions[i as int].alias == host.alias
            &&& after.sessions.len() == app.sessions.len() && after.config == app.config
        },
{
    lemma_selects(app, host);
    lemma_position(
        app.sessions,
        |s: SessionView| s.kind == SessionKind::Ssh && s.alias == host.alias,
    );
}

/// `t` checks whether the selected host can be reached, and `f` shows its files. On
/// the row of a header, and among the groups, they do nothing.
pub proof fn lemma_host_keys(
    app: AppView,
    key: KeyEvent,
    env_user: Result<Seq<char>, Seq<char>>,
    after: AppView,
    effect: EffectView,
    host: HostView,
)
    requires
        app.wf(),
        is_browsing(app),
        app.focus is Hosts,
        selects(app, host),
        app.file_transfers.len() < usize::MAX,
        !key.modifiers.has(CONTROL),
        app.key_event(key, env_user, after, effect),
    ensures
        key.code == KeyCode::Char('t') ==> effect == EffectView::TestHost(host) && after == (
        AppView {
            mode: ModeView::TestResult { alias: host.alias, status: TestStatusView::Testing },
            ..app
        }),
        key.code == KeyCode::Char('f') ==> shows_files_of(app, after, effect, host)
            && after.sessions == app.sessions && after.config == app.config,
{
    lemma_selects(app, host);
    if key.code == KeyCode::Char('f') {
        lemma_files_are_shown(app, host, after, effect);
    }
}

/// The keys for hosts do nothing where no host is selected.
pub proof fn lemma_no_host_is_selected(
    app: AppView,
    key: KeyEvent,
    env_user: Result<Seq<char>, Seq<char>>,
    after: AppView,
    effect: EffectView,
)
    requires
        app.wf(),
        is_browsing(app),
        app.focus is Hosts,
        app.selected < app.items.len() ==> app.items[app.selected] is GroupHeader,
        !key.modifiers.has(CONTROL),
        app.key_event(key, env_user, after, effect),
        key.code == KeyCode::Char('t') || key.code == KeyCode::Char('f') || key.code
            == KeyCode::Char('e') || key.code == KeyCode::Char('d') || key.code == KeyCode::Char(
            'c',
        ) || key.code is Enter,
    ensures
        after == app,
        effect is Idle || effect is Persist,
{
}

// ---------------------------------------------------------------------------
// Forms
// ---------------------------------------------------------------------------

/// The text in a field of a form, by its place: the alias, the host name, the user, the
/// port, the identity file, the group and the details.
pub open spec fn typed(form: FormView, i: int) -> Seq<char> {
    form.fields[i].1.text
}

/// Whether a form holds what is known of a host.
pub open spec fn holds_host(form: FormView, host: HostView) -> bool {
    &&& form.fields.len() == 7
    &&& typed(form, 0) == host.alias
    &&& typed(form, 1) == host.hostname
    &&& typed(form, 2) == host.user
    &&& typed(form, 3) == decimal(host.port as nat)
    &&& parse_port(typed(form, 3)) == Some(host.port)
    &&& host.identity_file matches Some(path) ==> typed(form, 4) == path
    &&& host.identity_file is None ==> typed(form, 4).len() == 0
    &&& host.group matches Some(group) ==> typed(form, 5) == group
    &&& host.group is None ==> typed(form, 5).len() == 0
    &&& typed(form, 6) == host.details
    &&& form.extras == host.extra
    &&& form.last_accessed == host.last_accessed
    &&& form.active == 0
    &&& form.error is None
    &&& form.extras_editor is None
}

/// `e` opens a form with what is known of the selected host, to change that host, and
/// `c` one with the same to add another.
pub proof fn lemma_form_of_selected_host(
    app: AppView,
    key: KeyEvent,
    env_user: Result<Seq<char>, Seq<char>>,
    after: AppView,
    effect: EffectView,
    host: HostView,
)
    requires
        app.wf(),
        is_browsing(app),
        app.focus is Hosts,
        selects(app, host),
        key.code == KeyCode::Char('e') || key.code == KeyCode::Char('c'),
        app.key_event(key, env_user, after, effect),
    ensures
        effect is Idle,
        after == (AppView { mode: after.mode, ..app }),
        key.code == KeyCode::Char('e') ==> (after.mode matches ModeView::Editing {
            original_alias,
            form,
        } && original_alias == host.alias && holds_host(form, host)),
        key.code == KeyCode::Char('c') ==> (after.mode matches ModeView::Adding(form) && holds_host(
            form,
            host,
        )),
{
    lemma_selects(app, host);
    lemma_port_round_trip(host.port);
}

/// `a` opens an empty form: with the usual port, and with the group that is selected.
pub proof fn lemma_form_of_new_host(
    app: AppView,
    key: KeyEvent,
    env_user: Result<Seq<char>, Seq<char>>,
    after: AppView,
    effect: EffectView,
)
    requires
        app.wf(),
        is_browsing(app),
        app.focus is Hosts,
        key.code == KeyCode::Char('a'),
        app.key_event(key, env_user, after, effect),
    ensures
        effect is Idle,
        after == (AppView { mode: after.mode, ..app }),
        after.mode matches ModeView::Adding(form) && {
            &&& form.fields.len() == 7
            &&& typed(form, 0).len() == 0 && typed(form, 1).len() == 0 && typed(form, 2).len() == 0
            &&& typed(form, 3) == seq!['2', '2']
            &&& typed(form, 4).len() == 0
            &&& match app.group_entries[app.group_selected] {
                GroupEntryView::Named(name) => typed(form, 5) == name,
                _ => typed(form, 5).len() == 0,
            }
            &&& typed(form, 6).len() == 0
            &&& form.extras.len() == 0
            &&& form.last_accessed.len() == 0
            &&& form.active == 0
        },
{
    reveal_strlit("22");
    assert("22"@ =~= seq!['2', '2']);
}

/// What a form says, if it says enough: an alias and a host name, a user or one of the
/// environment, and a port. The texts count without the space around them, and an
/// empty identity file or group counts as none.
pub proof fn lemma_form_describes_host(form: FormView, env_user: Result<Seq<char>, Seq<char>>)
    requires
        form.wf(),
    ensures
        ({
            let (alias, hostname, user, port) = (
                trim(typed(form, 0)),
                trim(typed(form, 1)),
                trim(typed(form, 2)),
                trim(typed(form, 3)),
            );
            let (identity, group) = (trim(typed(form, 4)), trim(typed(form, 5)));
            match form.to_host(env_user) {
                Ok(host) => {
                    &&& host.alias == alias && alias.len() > 0
                    &&& host.hostname == hostname && hostname.len() > 0
                    &&& user.len() > 0 ==> host.user == user
                    &&& user.len() == 0 ==> env_user == Ok::<Seq<char>, Seq<char>>(host.user)
                    &&& parse_port(port) == Some(host.port)
                    &&& host.identity_file == (if identity.len() > 0 {
                        Some(identity)
                    } else {
                        None
                    })
                    &&& host.group == (if group.len() > 0 {
                        Some(group)
                    } else {
                        None
                    })
                    &&& host.details == trim(typed(form, 6))
                    &&& host.extra == form.extras
                    &&& host.last_accessed == form.last_accessed
                },
                Err(_) => alias.len() == 0 || hostname.len() == 0 || user.len() == 0
                    && env_user is Err || parse_port(port) is None,
            }
        }),
{
}

/// The keys that go through the fields of a form lead to the next or the previous one,
/// around the ends. Other keys are typed into the active field and no other.
pub proof fn lemma_form_keys(
    app: AppView,
    key: KeyEvent,
    env_user: Result<Seq<char>, Seq<char>>,
    after: AppView,
    effect: EffectView,
    form: FormView,
    i: int,
)
    requires
        app.wf(),
        app.view is Hosts,
        app.mode == ModeView::Adding(form) || (app.mode matches ModeView::Editing { form: f, .. }
            && f == form),
        form.extras_editor is None,
        app.key_event(key, env_user, after, effect),
        !(key.code is Enter),
        0 <= i < 7,
    ensures
        effect is Idle,
        after == (AppView { mode: after.mode, ..app }),
        key.code is Esc ==> after.mode is Normal,
        !(key.code is Esc) ==> {
            let now = match after.mode {
                ModeView::Adding(f) => f,
                ModeView::Editing { form: f, .. } => f,
                _ => form,
            };
            &&& after.mode is Adding == app.mode is Adding
            &&& after.mode is Editing == app.mode is Editing
            &&& app.mode matches ModeView::Editing { original_alias, .. } ==> (
            after.mode matches ModeView::Editing { original_alias: a, .. } && a == original_alias)
            &&& key.code is Tab || key.code is Down ==> now == (FormView {
                active: if form.active < 6 {
                    form.active + 1
                } else {
                    0
                },
                ..form
            })
            &&& key.code is BackTab || key.code is Up ==> now == (FormView {
                active: if form.active > 0 {
                    form.active - 1
                } else {
                    6
                },
                ..form
            })
            &&& key.code == KeyCode::Char('k') && key.modifiers.has(CONTROL) ==> now == (FormView {
                extras_editor: now.extras_editor,
                ..form
            }) && now.extras_editor is Some && now.extras_editor->0.entry is None
            &&& !(key.code is Tab || key.code is Down || key.code is BackTab || key.code is Up) && !(
            key.code == KeyCode::Char('k') && key.modifiers.has(CONTROL)) ==> {
                &&& now.fields[i].0 == form.fields[i].0
                &&& now.fields[i].1 == (if i == form.active {
                    form.fields[i].1.after(key)
                } else {
                    form.fields[i].1
                })
                &&& now.active == form.active && now.extras == form.extras
                    && now.extras_editor is None
            }
        },
{
    if form.active < 6 {
        vstd::arithmetic::div_mod::lemma_small_mod((form.active + 1) as nat, 7);
    } else {
        vstd::arithmetic::div_mod::lemma_mod_self_0(7);
    }
}

/// Whether a configuration is another with a host behind the others, and with the
/// host's group.
pub open spec fn adds_host(before: ConfigView, after: ConfigView, host: HostView) -> bool {
    &&& after.hosts == before.hosts.push(host)
    &&& has_group_of(before, after, host)
}

/// Whether a configuration has the groups of another in their order, and behind them
/// the group of a host, if that is new.
pub open spec fn has_group_of(before: ConfigView, after: ConfigView, host: HostView) -> bool {
    match host.group {
        Some(group) => if before.groups.contains(group) {
            after.groups == before.groups
        } else {
            after.groups == before.groups.push(group)
        },
        None => after.groups == before.groups,
    }
}

/// Enter in the form for a new host adds the host that the form describes behind the
/// others, and has the configuration saved, unless the form says too little or its
/// alias is taken: then the form stays, with the reason.
pub proof fn lemma_new_host_is_added(
    app: AppView,
    key: KeyEvent,
    env_user: Result<Seq<char>, Seq<char>>,
    after: AppView,
    effect: EffectView,
    form: FormView,
)
    requires
        app.wf(),
        app.view is Hosts,
        app.mode == ModeView::Adding(form),
        form.extras_editor is None,
        key.code is Enter,
        app.key_event(key, env_user, after, effect),
    ensures
        match form.to_host(env_user) {
            Ok(host) => if has_alias(app.config, host.alias) {
                refuses(app, after) && (after.mode matches ModeView::Adding(f) && f == (FormView {
                    error: f.error,
                    ..form
                }) && f.error is Some) && !(effect is Persist && app.config != after.config)
            } else {
                adds_host(app.config, after.config, host) && after.dirty && after.mode is Normal
                    && effect is Persist
            },
            Err(reason) => refuses(app, after) && after.mode == ModeView::Adding(
                FormView { error: Some(reason), ..form },
            ) && effect is Idle,
        },
{
    if let Ok(host) = form.to_host(env_user) {
        lemma_find(app.config, host.alias);
    }
}

/// Whether a host has an alias.
pub open spec fn has_alias(config: ConfigView, alias: Seq<char>) -> bool {
    exists|k: int| 0 <= k < config.hosts.len() && (#[trigger] config.hosts[k]).alias == alias
}

/// Whether nothing but the mode has changed.
pub open spec fn refuses(before: AppView, after: AppView) -> bool {
    after == (AppView { mode: after.mode, ..before })
}

/// Enter in the form of a host puts the host that the form describes in the place of the
/// one that was edited, and has the configuration saved, unless the form says too
/// little or its alias is that of another host.
pub proof fn lemma_host_is_changed(
    app: AppView,
    key: KeyEvent,
    env_user: Result<Seq<char>, Seq<char>>,
    after: AppView,
    effect: EffectView,
    form: FormView,
    edited: HostView,
    k: int,
    i: int,
)
    requires
        app.wf(),
        app.view is Hosts,
        app.mode == (ModeView::Editing { original_alias: edited.alias, form }),
        form.extras_editor is None,
        key.code is Enter,
        app.key_event(key, env_user, after, effect),
        is_host_at(app.config, edited, k),
    ensures
        match form.to_host(env_user) {
            Ok(host) => if host.alias != edited.alias && has_alias(app.config, host.alias) {
                refuses(app, after) && (after.mode matches ModeView::Editing {
                    original_alias,
                    form: f,
                } && original_alias == edited.alias && f == (FormView { error: f.error, ..form })
                    && f.error is Some)
            } else {
                &&& after.config.hosts.len() == app.config.hosts.len()
                &&& after.config.hosts[k] == host
                &&& 0 <= i < app.config.hosts.len() && i != k ==> after.config.hosts[i]
                    == app.config.hosts[i]
                &&& has_group_of(app.config, after.config, host)
                &&& after.dirty && after.mode is Normal && effect is Persist
            },
            Err(reason) => refuses(app, after) && after.mode == (ModeView::Editing {
                original_alias: edited.alias,
                form: FormView { error: Some(reason), ..form },
            }) && effect is Idle,
        },
{
    lemma_position_is(app.config.hosts, |h: HostView| h.alias == edited.alias, k);
    if let Ok(host) = form.to_host(env_user) {
        lemma_find(app.config, host.alias);
    }
}

// ---------------------------------------------------------------------------
// Deleting
// ---------------------------------------------------------------------------

/// `d` asks about the selected host, and `y` then deletes it: every host with its alias
/// and no other, and no group. `n` and Esc delete nothing.
pub proof fn lemma_selected_host_is_deleted(
    app: AppView,
    ask: KeyEvent,
    key: KeyEvent,
    env_user: Result<Seq<char>, Seq<char>>,
    asking: AppView,
    first: EffectView,
    after: AppView,
    effect: EffectView,
    host: HostView,
    other: HostView,
)
    requires
        app.wf(),
        is_browsing(app),
        app.focus is Hosts,
        selects(app, host),
        ask.code == KeyCode::Char('d'),
        app.key_event(ask, env_user, asking, first),
        asking.key_event(key, env_user, after, effect),
    ensures
        first is Idle,
        asking == (AppView { mode: ModeView::ConfirmDelete(host.alias), ..app }),
        key.code == KeyCode::Char('y') ==> {
            &&& effect is Persist && after.dirty && after.mode is Normal
            &&& after.config.groups == app.config.groups
            &&& after.config.hosts.contains(other) <==> app.config.hosts.contains(other)
                && other.alias != host.alias
            &&& after.config.hosts == app.config.hosts.filter(|h: HostView| h.alias != host.alias)
        },
        key.code == KeyCode::Char('n') || key.code is Esc ==> after == app && effect is Idle,
        key.code != KeyCode::Char('y') ==> after.config == app.config,
{
    lemma_selects(app, host);
    let keep = |h: HostView| h.alias != host.alias;
    lemma_filter_sound(app.config.hosts, keep);
    if app.config.hosts.contains(other) && keep(other) {
        lemma_filter_complete(app.config.hosts, keep, other);
    }
    let rest = app.config.hosts.filter(keep);
    if rest.contains(other) {
        let k = choose|k: int| 0 <= k < rest.len() && rest[k] == other;
        assert(keep(rest[k]) && app.config.hosts.contains(rest[k]));
    }
}

/// Among the groups, `d` asks about the selected group, and `y` then deletes that group
/// and no other. No host is deleted: those of the group are left without one.
pub proof fn lemma_selected_group_is_deleted(
    app: AppView,
    ask: KeyEvent,
    key: KeyEvent,
    env_user: Result<Seq<char>, Seq<char>>,
    asking: AppView,
    first: EffectView,
    after: AppView,
    effect: EffectView,
    name: Seq<char>,
    other: Seq<char>,
    i: int,
)
    requires
        app.wf(),
        is_browsing(app),
        app.focus is Groups,
        app.group_entries[app.group_selected] == GroupEntryView::Named(name),
        ask.code == KeyCode::Char('d'),
        app.key_event(ask, env_user, asking, first),
        asking.key_event(key, env_user, after, effect),
        0 <= i < app.config.hosts.len(),
    ensures
        first is Idle,
        asking == (AppView { mode: ModeView::ConfirmDeleteGroup(name), ..app }),
        key.code == KeyCode::Char('y') ==> {
            &&& effect is Persist && after.dirty && after.mode is Normal
            &&& after.config.groups.contains(other) <==> app.config.groups.contains(other) && other
                != name
            &&& after.config.hosts.len() == app.config.hosts.len()
            &&& after.config.hosts[i] == (HostView {
                group: if app.config.hosts[i].group == Some(name) {
                    None
                } else {
                    app.config.hosts[i].group
                },
                ..app.config.hosts[i]
            })
        },
        key.code == KeyCode::Char('n') || key.code is Esc ==> after == app && effect is Idle,
        key.code != KeyCode::Char('y') ==> after.config == app.config,
{
    let keep = crate::model::is_other_name(name);
    lemma_filter_sound(app.config.groups, keep);
    if app.config.groups.contains(other) && keep(other) {
        lemma_filter_complete(app.config.groups, keep, other);
    }
    let rest = app.config.groups.filter(keep);
    if rest.contains(other) {
        let k = choose|k: int| 0 <= k < rest.len() && rest[k] == other;
        assert(keep(rest[k]) && app.config.groups.contains(rest[k]));
    }
}

// ---------------------------------------------------------------------------
// Groups
// ---------------------------------------------------------------------------

/// Among the groups, `g` asks for the name of a new group, and `e` for another name of
/// the selected one, which can be changed from what it is.
pub proof fn lemma_group_name_is_asked_for(
    app: AppView,
    key: KeyEvent,
    env_user: Result<Seq<char>, Seq<char>>,
    after: AppView,
    effect: EffectView,
)
    requires
        app.wf(),
        is_browsing(app),
        app.focus is Groups,
        app.key_event(key, env_user, after, effect),
        key.code == KeyCode::Char('g') || key.code == KeyCode::Char('e'),
    ensures
        effect is Idle,
        refuses(app, after),
        key.code == KeyCode::Char('g') ==> (after.mode matches ModeView::AddingGroup(input)
            && input.buffer.text.len() == 0 && input.error is None),
        key.code == KeyCode::Char('e') ==> match app.group_entries[app.group_selected] {
            GroupEntryView::Named(name) => after.mode matches ModeView::EditingGroup {
                original_name,
                input,
            } && original_name == name && input.buffer.text == name && input.error is None,
            _ => after == app,
        },
{
}

/// A name that was typed for a new group adds that group behind the others, and nothing
/// else changes. An empty name and one that is taken are refused.
pub proof fn lemma_new_group_is_added(
    app: AppView,
    key: KeyEvent,
    env_user: Result<Seq<char>, Seq<char>>,
    after: AppView,
    effect: EffectView,
    input: InputStateView,
)
    requires
        app.wf(),
        app.view is Hosts,
        app.mode == ModeView::AddingGroup(input),
        key.code is Enter,
        app.key_event(key, env_user, after, effect),
    ensures
        ({
            let name = trim(input.buffer.text);
            if name.len() == 0 || app.config.groups.contains(name) {
                refuses(app, after) && (after.mode matches ModeView::AddingGroup(i) && i.buffer
                    == input.buffer && i.error is Some)
            } else {
                &&& after.config == (ConfigView { groups: app.config.groups.push(name), ..app.config
                })
                &&& after.dirty && after.mode is Normal && effect is Persist
            }
        }),
{
}

/// Another name that was typed for a group takes its place, and the hosts of the group
/// go along: they stay in their order and change in nothing else. An empty name and
/// that of another group are refused.
pub proof fn lemma_group_is_renamed(
    app: AppView,
    key: KeyEvent,
    env_user: Result<Seq<char>, Seq<char>>,
    after: AppView,
    effect: EffectView,
    input: InputStateView,
    original: Seq<char>,
    k: int,
    i: int,
    j: int,
)
    requires
        app.wf(),
        app.view is Hosts,
        app.mode == (ModeView::EditingGroup { original_name: original, input }),
        key.code is Enter,
        app.key_event(key, env_user, after, effect),
        0 <= k < app.config.groups.len(),
        app.config.groups[k] == original,
        app.config.groups.no_duplicates(),
    ensures
        ({
            let name = trim(input.buffer.text);
            if name.len() == 0 || name != original && app.config.groups.contains(name) {
                refuses(app, after) && (after.mode matches ModeView::EditingGroup {
                    original_name,
                    input: n,
                } && original_name == original && n.buffer == input.buffer && n.error is Some)
            } else {
                &&& after.config.groups.len() == app.config.groups.len()
                &&& after.config.groups[k] == name
                &&& 0 <= j < app.config.groups.len() && j != k ==> after.config.groups[j]
                    == app.config.groups[j]
                &&& after.config.hosts.len() == app.config.hosts.len()
                &&& 0 <= i < app.config.hosts.len() ==> after.config.hosts[i] == (HostView {
                    group: if app.config.hosts[i].group == Some(original) {
                        Some(name)
                    } else {
                        app.config.hosts[i].group
                    },
                    ..app.config.hosts[i]
                })
                &&& after.dirty && after.mode is Normal && effect is Persist
            }
        }),
{
    let wanted = crate::model::is_name(original);
    assert forall|q: int| 0 <= q < k implies !wanted(#[trigger] app.config.groups[q]) by {
        assert(app.config.groups[q] != app.config.groups[k]);
    }
    lemma_position_is(app.config.groups, wanted, k);
}

// ---------------------------------------------------------------------------
// Searching and dialogs
// ---------------------------------------------------------------------------

/// `/` starts a search among the hosts. What is typed goes into it and shows what
/// matches, with the first one selected. Enter keeps it, and Esc drops it.
pub proof fn lemma_search_keys(
    app: AppView,
    key: KeyEvent,
    env_user: Result<Seq<char>, Seq<char>>,
    after: AppView,
    effect: EffectView,
)
    requires
        app.wf(),
        app.view is Hosts,
        app.key_event(key, env_user, after, effect),
    ensures
        is_browsing(app) && key.code == KeyCode::Char('/') ==> effect is Idle && after == (AppView {
            focus: Pane::Hosts,
            mode: ModeView::Searching,
            ..app
        }),
        app.mode is Searching ==> {
            &&& effect is Idle && after.config == app.config && after.view == app.view
            &&& key.code is Enter ==> after == (AppView { mode: ModeView::Normal, ..app })
            &&& key.code is Esc ==> after.mode is Normal && after.search.text.len() == 0
            &&& !(key.code is Enter || key.code is Esc || key.code is Down || key.code is Up) ==> {
                &&& after.mode is Searching
                &&& after.search == app.search.after(key)
                &&& app.search.takes(key) ==> after.items == items_of(
                    app.config,
                    app.group_entries,
                    app.group_selected,
                    after.search.text,
                ) && after.selected == first_host_row(after.items)
                &&& !app.search.takes(key) ==> after.items == app.items && after.selected
                    == app.selected
            }
        },
{
}

/// A message that is shown goes away by Enter or Esc, and no other key does anything.
pub proof fn lemma_messages_are_dismissed(
    app: AppView,
    key: KeyEvent,
    env_user: Result<Seq<char>, Seq<char>>,
    after: AppView,
    effect: EffectView,
)
    requires
        app.view is Hosts,
        app.mode is ConnectError || app.mode is TestResult,
        app.key_event(key, env_user, after, effect),
    ensures
        effect is Idle,
        key.code is Enter || key.code is Esc ==> after == (AppView { mode: ModeView::Normal, ..app
        }),
        !(key.code is Enter || key.code is Esc) ==> after == app,
{
}

/// The result of a check is shown with the host that was checked, while it is waited
/// for. Otherwise it is passed over.
pub proof fn lemma_test_result_is_shown(app: AppView, status: TestStatusView)
    ensures
        match app.mode {
            ModeView::TestResult { alias, .. } => app.test_finished(status) == (AppView {
                mode: ModeView::TestResult { alias, status },
                ..app
            }),
            _ => app.test_finished(status) == app,
        },
{
}

/// A session that could not be started is reported with its name and the reason, and
/// nothing else changes.
pub proof fn lemma_failed_session_is_reported(app: AppView, alias: Seq<char>, message: Seq<char>)
    ensures
        app.session_failed(alias, message) == (AppView {
            mode: ModeView::ConnectError { alias, message },
            ..app
        }),
{
}

// ---------------------------------------------------------------------------
// Options
// ---------------------------------------------------------------------------

/// Whether the list of options is open with nothing being edited.
pub open spec fn lists_options(form: FormView, selected: int) -> bool {
    form.extras_editor matches Some(editor) && editor.entry is None && editor.selected == selected
}

/// In the list of options, the keys for moving lead to the next and the previous one,
/// around the ends, `d` removes the selected one and no other, and Esc closes the
/// list. `a` opens an empty editor, and `e` one with the selected option.
pub proof fn lemma_option_keys(form: FormView, key: KeyEvent, selected: int, k: int)
    requires
        form.wf(),
        lists_options(form, selected),
        0 <= selected < form.extras.len() <= usize::MAX,
        0 <= k < form.extras.len(),
    ensures
        ({
            let after = form.extras_key(key);
            let n = form.extras.len();
            &&& after == (FormView {
                extras: after.extras,
                extras_editor: after.extras_editor,
                ..form
            })
            &&& key.code is Down || key.code == KeyCode::Char('j') ==> after.extras == form.extras
                && lists_options(
                after,
                if selected + 1 < n {
                    selected + 1
                } else {
                    0
                },
            )
            &&& key.code is Up || key.code == KeyCode::Char('k') ==> after.extras == form.extras
                && lists_options(
                after,
                if selected > 0 {
                    selected - 1
                } else {
                    n - 1
                },
            )
            &&& key.code == KeyCode::Char('d') ==> {
                &&& after.extras.len() == n - 1
                &&& k < selected ==> after.extras[k] == form.extras[k]
                &&& k > selected ==> after.extras[k - 1] == form.extras[k]
            }
            &&& key.code is Esc ==> after.extras_editor is None && after.extras == form.extras
            &&& key.code == KeyCode::Char('a') ==> after.extras == form.extras && (
            after.extras_editor matches Some(editor) && (editor.entry matches Some(entry)
                && entry.key.text.len() == 0 && entry.value.text.len() == 0
                && entry.editing_index is None && entry.active is Key))
            &&& key.code == KeyCode::Char('e') ==> after.extras == form.extras && (
            after.extras_editor matches Some(editor) && (editor.entry matches Some(entry)
                && entry.key.text == form.extras[selected].0 && entry.value.text
                == form.extras[selected].1 && entry.editing_index == Some(selected as usize)
                && entry.active is Key))
        }),
{
    let n = form.extras.len();
    if selected + 1 < n {
        vstd::arithmetic::div_mod::lemma_small_mod((selected + 1) as nat, n);
    } else {
        vstd::arithmetic::div_mod::lemma_mod_self_0(n as int);
    }
}

/// An option that was edited takes the place of the one it was, and a new one stands
/// behind the others. A key that is empty or that another option has is refused, and
/// Esc changes nothing.
pub proof fn lemma_option_is_taken_over(
    form: FormView,
    key: KeyEvent,
    editor: EditorView,
    entry: EntryFormView,
    k: int,
)
    requires
        form.wf(),
        form.edits_existing(),
        form.extras_editor == Some(editor),
        editor.entry == Some(entry),
    ensures
        ({
            let after = form.extras_key(key);
            let name = trim(entry.key.text);
            let taken = exists|i: int|
                0 <= i < form.extras.len() && (#[trigger] form.extras[i]).0 == name && !(
                entry.editing_index is Some && entry.editing_index->0 == i);
            &&& key.code is Esc ==> after.extras == form.extras && (
            after.extras_editor matches Some(e) && e.entry is None)
            &&& key.code is Enter && (name.len() == 0 || taken) ==> after.extras == form.extras && (
            after.extras_editor matches Some(e) && e.entry == Some(entry) && e.error is Some)
            &&& key.code is Enter && name.len() > 0 && !taken ==> {
                &&& after.extras_editor matches Some(e) && e.entry is None
                &&& match entry.editing_index {
                    Some(i) => {
                        &&& after.extras.len() == form.extras.len()
                        &&& after.extras[i as int] == (name, trim(entry.value.text))
                        &&& 0 <= k < form.extras.len() && k != i ==> after.extras[k]
                            == form.extras[k]
                    },
                    None => after.extras == form.extras.push((name, trim(entry.value.text))),
                }
            }
            &&& key.code is Tab || key.code is BackTab ==> after.extras == form.extras && (
            after.extras_editor matches Some(e) && (e.entry matches Some(other) && other == (
            EntryFormView { active: other.active, ..entry }) && other.active != entry.active))
            &&& !(key.code is Esc || key.code is Enter || key.code is Tab || key.code is BackTab)
                ==> after.extras == form.extras && (after.extras_editor matches Some(e) && e.entry
                == Some(
                match entry.active {
                    ExtraField::Key => EntryFormView { key: entry.key.after(key), ..entry },
                    ExtraField::Value => EntryFormView { value: entry.value.after(key), ..entry },
                },
            ))
        }),
{
}

// ---------------------------------------------------------------------------
// What is told and what is selected afterwards
// ---------------------------------------------------------------------------

/// Whether an error names what it is about.
pub open spec fn names(error: Option<Seq<char>>, name: Seq<char>) -> bool {
    error matches Some(text) && holds(text, name)
}

proof fn lemma_quoted(start: Seq<char>, name: Seq<char>, end: Seq<char>)
    ensures
        names(Some(start + name + end), name),
{
    let text = start + name + end;
    let i = start.len() as int;
    assert(text.subrange(i, i + name.len()) =~= name);
    assert(stands_at(text, name, i));
}

/// A name that is taken is told in the error: the alias of a host, the name of a group, or
/// the key of an option.
pub proof fn lemma_taken_name_is_told(
    app: AppView,
    key: KeyEvent,
    env_user: Result<Seq<char>, Seq<char>>,
    after: AppView,
    effect: EffectView,
)
    requires
        app.wf(),
        app.view is Hosts,
        key.code is Enter,
        app.key_event(key, env_user, after, effect),
        app.mode.form() matches Some(form) ==> form.extras_editor is None,
    ensures
        match app.mode {
            ModeView::Adding(form) => form.to_host(env_user) matches Ok(host) ==> has_alias(
                app.config,
                host.alias,
            ) ==> (after.mode matches ModeView::Adding(f) && names(f.error, host.alias)),
            ModeView::Editing { original_alias, form } => form.to_host(env_user) matches Ok(host)
                ==> host.alias != original_alias && has_alias(app.config, host.alias) ==> (
            after.mode matches ModeView::Editing { form: f, .. } && names(f.error, host.alias)),
            ModeView::AddingGroup(input) => {
                let name = trim(input.buffer.text);
                name.len() > 0 && app.config.groups.contains(name) ==> (
                after.mode matches ModeView::AddingGroup(i) && names(i.error, name))
            },
            ModeView::EditingGroup { original_name, input } => {
                let name = trim(input.buffer.text);
                name.len() > 0 && name != original_name && app.config.groups.contains(name) ==> (
                after.mode matches ModeView::EditingGroup { input: i, .. } && names(i.error, name))
            },
            _ => true,
        },
{
    match app.mode {
        ModeView::Adding(form) => if let Ok(host) = form.to_host(env_user) {
            lemma_find(app.config, host.alias);
            lemma_quoted("Alias '"@, host.alias, "' already exists"@);
        },
        ModeView::Editing { form, .. } => if let Ok(host) = form.to_host(env_user) {
            lemma_find(app.config, host.alias);
            lemma_quoted("Alias '"@, host.alias, "' already exists"@);
        },
        ModeView::AddingGroup(input) => {
            lemma_quoted("Group '"@, trim(input.buffer.text), "' already exists"@);
        },
        ModeView::EditingGroup { input, .. } => {
            lemma_quoted("Group '"@, trim(input.buffer.text), "' already exists"@);
        },
        _ => {},
    }
}

/// A key of an option that is taken is told too, and an empty one is refused otherwise.
pub proof fn lemma_taken_key_is_told(form: FormView, editor: EditorView, entry: EntryFormView, k: int)
    requires
        form.extras_editor == Some(editor),
        editor.entry == Some(entry),
        0 <= k < form.extras.len(),
        form.extras[k].0 == trim(entry.key.text),
        !(entry.editing_index is Some && entry.editing_index->0 == k),
        trim(entry.key.text).len() > 0,
    ensures
        form.extras_commit_entry().0.extras_editor matches Some(e) && names(
            e.error,
            trim(entry.key.text),
        ),
        !form.extras_commit_entry().1,
        form.extras_commit_entry().0.extras == form.extras,
{
    lemma_quoted("Key '"@, trim(entry.key.text), "' already exists"@);
}

/// What a form lacks is told: the first of the alias, the name of the host, the user and the
/// port that is missing.
pub proof fn lemma_lack_is_told(form: FormView, env_user: Result<Seq<char>, Seq<char>>)
    requires
        form.wf(),
    ensures
        ({
            let told = form.to_host(env_user);
            let no_alias = trim(typed(form, 0)).len() == 0;
            let no_name = trim(typed(form, 1)).len() == 0;
            let no_user = trim(typed(form, 2)).len() == 0 && env_user is Err;
            &&& no_alias ==> told == Err::<HostView, Seq<char>>("Alias cannot be empty"@)
            &&& !no_alias && no_name ==> told == Err::<HostView, Seq<char>>(
                "Hostname cannot be empty"@,
            )
            &&& !no_alias && !no_name && no_user ==> told == Err::<HostView, Seq<char>>(
                env_user->Err_0,
            )
            &&& !no_alias && !no_name && !no_user && parse_port(trim(typed(form, 3))) is None
                ==> told == Err::<HostView, Seq<char>>("Port must be a number (0-65535)"@)
        }),
{
}

/// Whatever is typed into a form or a name takes the error away, and a key that means nothing
/// there leaves it.
pub proof fn lemma_typing_clears_error(
    app: AppView,
    key: KeyEvent,
    env_user: Result<Seq<char>, Seq<char>>,
    after: AppView,
    effect: EffectView,
)
    requires
        app.wf(),
        app.view is Hosts,
        app.key_event(key, env_user, after, effect),
        !(key.code is Enter || key.code is Esc),
    ensures
        match app.mode {
            ModeView::AddingGroup(input) => after.mode matches ModeView::AddingGroup(i) && i.buffer
                == input.buffer.after(key) && i.error == (if input.buffer.takes(key) {
                None
            } else {
                input.error
            }),
            ModeView::EditingGroup { original_name, input } => after.mode matches
                ModeView::EditingGroup { original_name: kept, input: i } && kept == original_name
                && i.buffer == input.buffer.after(key) && i.error == (if input.buffer.takes(key) {
                None
            } else {
                input.error
            }),
            ModeView::Adding(form) => is_typed_in_field(form, key) ==> (after.mode matches
                ModeView::Adding(f) && f.error == (if form.fields[form.active].1.takes(key) {
                None
            } else {
                form.error
            })),
            ModeView::Editing { form, .. } => is_typed_in_field(form, key) ==> (after.mode matches
                ModeView::Editing { form: f, .. } && f.error == (if form.fields[form.active].1.takes(
                key,
            ) {
                None
            } else {
                form.error
            })),
            _ => true,
        },
{
}

/// Whether a key is typed into the active field of a form.
pub open spec fn is_typed_in_field(form: FormView, key: KeyEvent) -> bool {
    &&& form.extras_editor is None
    &&& !(key.code is Tab || key.code is BackTab || key.code is Down || key.code is Up)
    &&& !(key.code == KeyCode::Char('k') && key.modifiers.bits & 2 != 0)
}

/// The error of an option goes when something is typed, when the editor is left, and when
/// another option is begun.
pub proof fn lemma_option_error_goes(form: FormView, editor: EditorView, key: KeyEvent)
    requires
        form.extras_editor == Some(editor),
        0 <= editor.selected < form.extras.len() <= usize::MAX,
    ensures
        form.extras_key(key).extras_editor matches Some(after) ==> match editor.entry {
            Some(entry) => {
                let input = match entry.active {
                    ExtraField::Key => entry.key,
                    ExtraField::Value => entry.value,
                };
                let leaves = key.code is Tab || key.code is BackTab;
                &&& key.code is Esc ==> after.error is None && after.selected == editor.selected
                &&& leaves ==> after.error == editor.error
                &&& !(key.code is Esc || key.code is Enter || leaves) ==> after.error == (if input.takes(
                    key,
                ) {
                    None
                } else {
                    editor.error
                })
            },
            None => {
                &&& key.code == KeyCode::Char('a') || key.code == KeyCode::Char('e')
                    ==> after.error is None
                &&& key.code == KeyCode::Char('d') ==> {
                    ||| after.selected == editor.selected && editor.selected < form.extras.len() - 1
                    ||| after.selected == editor.selected - 1 && editor.selected == form.extras.len()
                        - 1
                    ||| form.extras.len() == 1 && after.selected == 0
                }
            },
        },
        editor.entry is None && !(key.code is Esc) ==> form.extras_key(key).extras_editor is Some,
{
}

/// A new option is selected once it is taken over, and an edited one stays selected.
pub proof fn lemma_new_option_is_selected(form: FormView, editor: EditorView, entry: EntryFormView)
    requires
        form.extras_editor == Some(editor),
        editor.entry == Some(entry),
        form.extras_commit_entry().1,
    ensures
        form.extras_commit_entry().0.extras_editor matches Some(after) && after.error is None
            && after.entry is None && after.selected == (if entry.editing_index is Some {
            editor.selected
        } else {
            form.extras.len() as int
        }),
{
}

/// Enter on a host that has a session saves what is not saved yet.
pub proof fn lemma_enter_saves(
    app: AppView,
    key: KeyEvent,
    env_user: Result<Seq<char>, Seq<char>>,
    after: AppView,
    effect: EffectView,
    host: HostView,
)
    requires
        app.wf(),
        is_browsing(app),
        app.focus is Hosts,
        selects(app, host),
        has_session(app, host.alias),
        key.code is Enter,
        app.key_event(key, env_user, after, effect),
    ensures
        app.dirty ==> effect is Persist,
        !app.dirty ==> effect is Idle,
{
    lemma_selects(app, host);
    lemma_position(
        app.sessions,
        |s: SessionView| s.kind == SessionKind::Ssh && s.alias == host.alias,
    );
}

/// When the rows have changed, what was selected stays selected by its place. Where there is
/// no such place any more, the first host is selected.
pub proof fn lemma_selection_after_deletion(
    app: AppView,
    key: KeyEvent,
    env_user: Result<Seq<char>, Seq<char>>,
    after: AppView,
    effect: EffectView,
    e: int,
)
    requires
        app.wf(),
        app.view is Hosts,
        app.mode is ConfirmDelete || app.mode is ConfirmDeleteGroup,
        key.code == KeyCode::Char('y'),
        app.key_event(key, env_user, after, effect),
    ensures
        app.selected < after.items.len() ==> after.selected == app.selected,
        app.selected >= after.items.len() && 0 <= e < after.items.len() && after.items[e] is Host
            ==> 0 <= after.selected <= e && after.items[after.selected] is Host,
        app.group_selected < after.group_entries.len() ==> after.group_selected
            == app.group_selected,
        app.group_selected >= after.group_entries.len() ==> after.group_selected == 0,
{
    crate::listing::lemma_first_host_row(after.items, e);
}

} // verus!
