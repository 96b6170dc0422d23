//! What holds of the application whatever is done with it.
use vstd::prelude::*;
use crate::app::{with_host_group, AppView, ModeView};
use crate::handlers::EffectView;
use crate::keys::KeyEvent;
use crate::listing::{
    items_of, lemma_host_rows_lead_back, lemma_rows_without_hosts, lemma_search_shows_matches,
};
use crate::model::{
    accessed_at, is_name, lemma_add_host_keeps_valid, lemma_find, lemma_remove_group_keeps_hosts,
    lemma_remove_host, lemma_rename_group_moves_hosts, lemma_update_host_keeps_valid, ConfigView,
    HostView,
};
use crate::paths::file_name;
use crate::pty::{SessionKind, SessionStatus, SessionView};
use crate::screen::Pane;
use crate::seqs::{lemma_filter_push, lemma_position, lemma_position_none};
use crate::ssh::{host_sections, ssh_config_in};
use crate::storage::{lemma_persisting_writes_both, performed_all, persisting};
use crate::text::trim;

verus! {

// ---------------------------------------------------------------------------
// The configuration
// ---------------------------------------------------------------------------

proof fn lemma_add_group_keeps_valid(config: ConfigView, name: Seq<char>)
    requires
        config.valid(),
    ensures
        config.add_group(name).valid(),
        config.add_group(name).groups.contains(name),
        config.add_group(name).hosts == config.hosts,
{
    let after = config.add_group(name);
    if !config.groups.contains(name) {
        assert(after.groups[config.groups.len() as int] == name);
        assert forall|i: int, j: int|
            0 <= i < after.groups.len() && 0 <= j < after.groups.len() && i
                != j implies after.groups[i] != after.groups[j] by {
            if i == config.groups.len() {
                assert(config.groups[j] != name);
            } else if j == config.groups.len() {
                assert(config.groups[i] != name);
            } else {
                assert(config.groups[i] != config.groups[j]);
            }
        }
        assert forall|k: int|
            0 <= k < after.hosts.len() && (
            #[trigger] after.hosts[k]).group is Some implies after.groups.contains(
            after.hosts[k].group->0,
        ) by {
            let group = config.hosts[k].group->0;
            let at = choose|at: int| 0 <= at < config.groups.len() && config.groups[at] == group;
            assert(after.groups[at] == group);
        }
    }
}

proof fn lemma_rename_of_no_group(config: ConfigView, from: Seq<char>, to: Seq<char>)
    requires
        config.valid(),
        !config.groups.contains(from),
    ensures
        config.rename_group(from, to) == config,
{
    let after = config.rename_group(from, to);
    assert forall|i: int| 0 <= i < config.groups.len() implies !is_name(from)(
        #[trigger] config.groups[i],
    ) by {}
    lemma_position_none(config.groups, is_name(from));
    assert forall|i: int| 0 <= i < config.hosts.len() implies config.hosts[i].group != Some(
        from,
    ) by {
        if config.hosts[i].group is Some {
            assert(config.groups.contains(config.hosts[i].group->0));
        }
    }
    assert(after.hosts =~= config.hosts);
}

/// Whatever is submitted, no two hosts share an alias afterwards, every group of
/// a host exists, and no group is there twice.
pub proof fn lemma_submit_keeps_config_valid(app: AppView, env_user: Result<Seq<char>, Seq<char>>)
    requires
        app.config.valid(),
    ensures
        app.submit_form(env_user).config.valid(),
{
    match app.mode {
        ModeView::Adding(form) => {
            if let Ok(host) = form.to_host(env_user) {
                if app.config.find(host.alias) is None {
                    lemma_group_of_host_exists(app.config, host);
                    lemma_add_host_keeps_valid(with_host_group(app.config, host), host);
                }
            }
        },
        ModeView::Editing { original_alias, form } => {
            if let Ok(host) = form.to_host(env_user) {
                if host.alias == original_alias || app.config.find(host.alias) is None {
                    lemma_group_of_host_exists(app.config, host);
                    lemma_update_host_keeps_valid(
                        with_host_group(app.config, host),
                        original_alias,
                        host,
                    );
                }
            }
        },
        ModeView::AddingGroup(input) => {
            lemma_add_group_keeps_valid(app.config, trim(input.buffer.text));
        },
        ModeView::EditingGroup { original_name, input } => {
            let name = trim(input.buffer.text);
            if app.config.groups.contains(original_name) {
                if name == original_name || !app.config.groups.contains(name) {
                    lemma_rename_group_moves_hosts(app.config, original_name, name);
                }
            } else {
                lemma_rename_of_no_group(app.config, original_name, name);
            }
        },
        _ => {},
    }
}

proof fn lemma_group_of_host_exists(config: ConfigView, host: HostView)
    requires
        config.valid(),
    ensures
        with_host_group(config, host).valid(),
        with_host_group(config, host).hosts == config.hosts,
        host.group is Some ==> with_host_group(config, host).groups.contains(host.group->0),
        forall|alias: Seq<char>| #[trigger]
            with_host_group(config, host).find(alias) == config.find(alias),
{
    if let Some(group) = host.group {
        lemma_add_group_keeps_valid(config, group);
    }
}

/// Whatever is deleted, the configuration stays valid.
pub proof fn lemma_delete_keeps_config_valid(app: AppView)
    requires
        app.config.valid(),
    ensures
        app.confirm_delete().config.valid(),
{
    match app.mode {
        ModeView::ConfirmDelete(alias) => lemma_remove_host(app.config, alias, alias),
        ModeView::ConfirmDeleteGroup(name) => lemma_remove_group_keeps_hosts(app.config, name),
        _ => {},
    }
}

/// Opening a session keeps the configuration valid: only the time of the last
/// access changes.
pub proof fn lemma_session_keeps_config_valid(app: AppView, host: HostView, time: Seq<char>, id: u64)
    requires
        app.config.valid(),
        app.config.find(host.alias) == Some(host),
    ensures
        app.session_opened(accessed_at(host, time), id).config.valid(),
{
    lemma_find(app.config, host.alias);
    let k = choose|k: int| 0 <= k < app.config.hosts.len() && app.config.hosts[k] == host;
    assert(app.config.hosts[k] == host);
    lemma_update_host_keeps_valid(app.config, host.alias, accessed_at(host, time));
}

/// A form that is refused stays open with the reason, and nothing else changes.
pub proof fn lemma_refused_form_changes_nothing(
    app: AppView,
    env_user: Result<Seq<char>, Seq<char>>,
)
    requires
        app.mode.form() is Some || app.mode.input() is Some,
        !(app.submit_form(env_user).mode is Normal),
    ensures
        app.submit_form(env_user) == (AppView { mode: app.submit_form(env_user).mode, ..app }),
        app.submit_form(env_user).mode.form() matches Some(form) ==> form.error is Some,
        app.submit_form(env_user).mode.input() matches Some(input) ==> input.error is Some,
        app.submit_form(env_user).config == app.config,
        app.submit_form(env_user).dirty == app.dirty,
{
}

/// A configuration that was changed is to be saved.
pub proof fn lemma_changes_are_saved(app: AppView, env_user: Result<Seq<char>, Seq<char>>)
    ensures
        app.submit_form(env_user).config != app.config ==> app.submit_form(env_user).dirty,
        app.confirm_delete().config != app.config ==> app.confirm_delete().dirty,
{
}

/// Every key that changes the configuration asks for it to be saved.
pub proof fn lemma_every_change_is_persisted(
    app: AppView,
    key: KeyEvent,
    env_user: Result<Seq<char>, Seq<char>>,
    after: AppView,
    effect: EffectView,
)
    requires
        app.hosts_key(key, env_user, after, effect),
        after.config != app.config,
    ensures
        effect is Persist,
        after.dirty,
        after.mode is Normal,
{
}

/// A key that changes the configuration leads to both files being up to date with
/// the new one: the configuration's own, and the one that `ssh` reads.
pub proof fn lemma_changes_reach_both_files(
    app: AppView,
    key: KeyEvent,
    env_user: Result<Seq<char>, Seq<char>>,
    after: AppView,
    effect: EffectView,
    files: Map<Seq<char>, Seq<char>>,
    path: Seq<char>,
    contents: Seq<char>,
    home: Seq<char>,
)
    requires
        app.hosts_key(key, env_user, after, effect),
        after.config != app.config,
        file_name(path) is Some,
        path != ssh_config_in(home),
    ensures
        effect is Persist,
        ({
            let saved = performed_all(files, persisting(path, contents, Some(home), after.config));
            &&& saved.contains_key(path) && saved[path] == contents
            &&& saved.contains_key(ssh_config_in(home)) && saved[ssh_config_in(home)]
                == host_sections(after.config.hosts)
        }),
{
    lemma_every_change_is_persisted(app, key, env_user, after, effect);
    lemma_persisting_writes_both(files, path, contents, home, after.config);
}

/// Whatever key is pressed, the configuration stays valid.
pub proof fn lemma_keys_keep_config_valid(
    app: AppView,
    key: KeyEvent,
    env_user: Result<Seq<char>, Seq<char>>,
    after: AppView,
    effect: EffectView,
)
    requires
        app.config.valid(),
        app.hosts_key(key, env_user, after, effect),
    ensures
        after.config.valid(),
{
    lemma_submit_keeps_config_valid(app, env_user);
    lemma_delete_keeps_config_valid(app);
}

/// Neither a session nor a file browser changes the configuration.
pub proof fn lemma_only_the_host_browser_changes_hosts(
    app: AppView,
    key: KeyEvent,
    after: AppView,
    effect: EffectView,
)
    ensures
        app.session_key(key, after, effect) ==> after.config == app.config,
        app.file_transfer_key(key).0.config == app.config,
{
}

/// Nothing is deleted without a confirmation.
pub proof fn lemma_deleting_asks_first(app: AppView)
    ensures
        app.start_delete().config == app.config,
        app.start_delete().dirty == app.dirty,
        app.with_mode(ModeView::Normal).confirm_delete().config == app.config,
{
}

/// Deleting a group deletes none of its hosts.
pub proof fn lemma_group_deletion_keeps_hosts(app: AppView, name: Seq<char>)
    requires
        app.mode == ModeView::ConfirmDeleteGroup(name),
    ensures
        app.confirm_delete().config.hosts.len() == app.config.hosts.len(),
        forall|i: int|
            0 <= i < app.config.hosts.len() ==> (
            #[trigger] app.confirm_delete().config.hosts[i]).alias == app.config.hosts[i].alias,
        app.confirm_delete().config.hosts_in_group(name).len() == 0,
{
    lemma_remove_group_keeps_hosts(app.config, name);
    assert forall|i: int| 0 <= i < app.config.hosts.len() implies (
    #[trigger] app.confirm_delete().config.hosts[i]).alias == app.config.hosts[i].alias by {
        assert(app.confirm_delete().config.hosts[i] == app.config.remove_group(name).hosts[i]);
    }
}

// ---------------------------------------------------------------------------
// Searching
// ---------------------------------------------------------------------------

/// A search that is dropped shows again what was shown without it.
pub proof fn lemma_dropped_search_shows_everything(app: AppView)
    requires
        app.wf(),
    ensures
        app.cancel_search().mode is Normal,
        app.cancel_search().items == items_of(
            app.config,
            app.group_entries,
            app.group_selected,
            seq![],
        ),
        app.cancel_search().config == app.config,
{
}

/// While something is searched for, exactly the hosts that match are shown,
/// whatever group is selected.
pub proof fn lemma_search_is_over_all_hosts(app: AppView, alias: Seq<char>)
    requires
        app.wf(),
        trim(app.search.text).len() > 0,
    ensures
        app.items.contains(crate::listing::ItemView::Host(alias)) <==> (
        crate::listing::aliases_of(app.config.hosts).contains(alias) && crate::search::score_of(
            trim(app.search.text),
            alias,
        ) is Some),
{
    lemma_search_shows_matches(app.config, trim(app.search.text), alias);
}

// ---------------------------------------------------------------------------
// Moving
// ---------------------------------------------------------------------------

/// Among the hosts, moving down and then up, or up and then down, leads back to
/// where one was. The row of a group's header is left for good: only the rows of
/// hosts are moved to.
pub proof fn lemma_host_moves_undo_each_other(app: AppView)
    requires
        app.wf(),
        app.focus == Pane::Hosts,
        app.selected < app.items.len() ==> app.items[app.selected] is Host || (forall|i: int|
            0 <= i < app.items.len() ==> (#[trigger] app.items[i]) !is Host),
    ensures
        app.move_down().move_up() == app,
        app.move_up().move_down() == app,
{
    if app.selected < app.items.len() {
        if app.items[app.selected] is Host {
            lemma_host_rows_lead_back(app.items, app.selected);
        } else {
            lemma_rows_without_hosts(app.items, app.selected);
        }
    }
}

/// Among the groups, moving down and then up, or up and then down, leads back to
/// the group that was selected and to the rows that it shows.
pub proof fn lemma_group_moves_undo_each_other(app: AppView)
    requires
        app.wf(),
        app.focus == Pane::Groups,
    ensures
        app.move_down().move_up().group_selected == app.group_selected,
        app.move_down().move_up().items == app.items,
        app.move_up().move_down().group_selected == app.group_selected,
        app.move_up().move_down().items == app.items,
{
    let n = app.group_entries.len() as int;
    let at = app.group_selected;
    if at + 1 < n {
        vstd::arithmetic::div_mod::lemma_small_mod((at + 1) as nat, n as nat);
    } else {
        vstd::arithmetic::div_mod::lemma_mod_self_0(n);
    }
    if at > 0 {
        vstd::arithmetic::div_mod::lemma_small_mod(at as nat, n as nat);
    } else {
        vstd::arithmetic::div_mod::lemma_mod_self_0(n);
    }
}

// ---------------------------------------------------------------------------
// Tabs
// ---------------------------------------------------------------------------

/// The tabs form a ring: each has a next one, and the way back leads back.
pub proof fn lemma_tabs_form_a_ring(app: AppView)
    requires
        app.wf(),
    ensures
        app.next_tab().current_tab() == (app.current_tab() + 1) % app.tab_count(),
        app.prev_tab().current_tab() == (app.current_tab() - 1) % app.tab_count(),
        app.next_tab().prev_tab().view == app.view,
        app.prev_tab().next_tab().view == app.view,
{
    let n = app.tab_count();
    let at = app.current_tab();
    let next = (at + 1) % n;
    let prev = (at - 1) % n;
    vstd::arithmetic::div_mod::lemma_mod_bound(at + 1, n);
    vstd::arithmetic::div_mod::lemma_mod_bound(at - 1, n);
    lemma_show_tab(app, next);
    lemma_show_tab(app, prev);
    if at + 1 < n {
        vstd::arithmetic::div_mod::lemma_small_mod((at + 1) as nat, n as nat);
        vstd::arithmetic::div_mod::lemma_small_mod(at as nat, n as nat);
    } else {
        vstd::arithmetic::div_mod::lemma_mod_self_0(n);
        vstd::arithmetic::div_mod::lemma_fundamental_div_mod_converse(-1, n, -1, n - 1);
    }
    assert((next - 1) % n == at);
    if at > 0 {
        vstd::arithmetic::div_mod::lemma_small_mod((at - 1) as nat, n as nat);
        vstd::arithmetic::div_mod::lemma_small_mod(at as nat, n as nat);
    } else {
        vstd::arithmetic::div_mod::lemma_fundamental_div_mod_converse(-1, n, -1, n - 1);
        vstd::arithmetic::div_mod::lemma_mod_self_0(n);
    }
    assert((prev + 1) % n == at);
    lemma_show_tab(app.next_tab(), at);
    lemma_show_tab(app.prev_tab(), at);
}

/// Changing tabs ends no session and no transfer: it only marks what is shown as
/// read.
pub proof fn lemma_tabs_keep_sessions(app: AppView, tab: int, i: int)
    requires
        0 <= i < app.sessions.len(),
    ensures
        app.show_tab(tab).sessions.len() == app.sessions.len(),
        app.show_tab(tab).sessions[i] == (SessionView {
            unread: app.show_tab(tab).sessions[i].unread,
            ..app.sessions[i]
        }),
        app.show_tab(tab).file_transfers == app.file_transfers,
{
}

proof fn lemma_show_tab(app: AppView, tab: int)
    requires
        0 <= tab < app.tab_count(),
        app.tabs_fit(),
    ensures
        app.show_tab(tab).current_tab() == tab,
        app.show_tab(tab).tab_count() == app.tab_count(),
        app.show_tab(tab).sessions.len() == app.sessions.len(),
        app.show_tab(tab).file_transfers.len() == app.file_transfers.len(),
        app.view_exists() && tab == app.current_tab() ==> app.show_tab(tab).view == app.view,
        forall|other: AppView|
            other.sessions.len() == app.sessions.len() && other.view_exists()
                && other.current_tab() == tab ==> #[trigger] other.view == app.show_tab(tab).view,
{
}

/// Showing a session marks it as read, and changes no other session.
pub proof fn lemma_shown_session_is_read(app: AppView, idx: int, other: int)
    requires
        0 <= idx < app.sessions.len() <= usize::MAX,
        0 <= other < app.sessions.len(),
    ensures
        app.switch_to_session(idx).active_session() == Some(
            SessionView { unread: false, ..app.sessions[idx] },
        ),
        other != idx ==> app.switch_to_session(idx).sessions[other] == app.sessions[other],
{
}

// ---------------------------------------------------------------------------
// Sessions
// ---------------------------------------------------------------------------

/// Whether no two SSH sessions are of the same host.
pub open spec fn one_session_per_host(app: AppView) -> bool {
    forall|i: int, j: int|
        0 <= i < j < app.sessions.len() && (#[trigger] app.sessions[i]).kind == SessionKind::Ssh
            && (#[trigger] app.sessions[j]).kind == SessionKind::Ssh ==> app.sessions[i].alias
            != app.sessions[j].alias
}

/// A session is only asked for where the host has none, and then there is still
/// no more than one for each host.
pub proof fn lemma_one_session_per_host(app: AppView, time: Seq<char>, id: u64)
    requires
        one_session_per_host(app),
        app.open_session().1 is Some,
    ensures
        one_session_per_host(
            app.open_session().0.session_opened(accessed_at(app.open_session().1->0, time), id),
        ),
{
    let host = app.open_session().1->0;
    lemma_position(
        app.sessions,
        |s: SessionView| s.kind == SessionKind::Ssh && s.alias == host.alias,
    );
}

/// Asking again for the session of a host shows the one that is there.
pub proof fn lemma_session_is_reused(app: AppView, host: HostView)
    requires
        app.selected_host() == Some(host),
        app.find_session(host.alias) is Some,
        app.sessions.len() <= usize::MAX,
    ensures
        app.open_session().1 is None,
        app.open_session().0.sessions.len() == app.sessions.len(),
        app.open_session().0.active_session() matches Some(session) && session.alias == host.alias
            && session.kind == SessionKind::Ssh,
{
    lemma_position(
        app.sessions,
        |s: SessionView| s.kind == SessionKind::Ssh && s.alias == host.alias,
    );
}

proof fn lemma_close_exited(app: AppView, i: int)
    requires
        app.view_exists(),
        0 <= i <= app.sessions.len() <= usize::MAX,
        forall|k: int|
            0 <= k < i ==> (#[trigger] app.sessions[k]).status == SessionStatus::Running,
    ensures
        app.close_exited_from(i).sessions == app.sessions.filter(
            |s: SessionView| s.status == SessionStatus::Running,
        ),
        app.close_exited_from(i).view_exists(),
        app.active_session() matches Some(session) ==> session.status == SessionStatus::Running
            ==> app.close_exited_from(i).active_session() == Some(session),
        !(app.view is Session) ==> app.close_exited_from(i).view == app.view,
        app.close_exited_from(i) == (AppView {
            sessions: app.close_exited_from(i).sessions,
            view: app.close_exited_from(i).view,
            ..app
        }),
    decreases app.sessions.len() - i,
{
    let running = |s: SessionView| s.status == SessionStatus::Running;
    if i >= app.sessions.len() {
        crate::seqs::lemma_filter_all(app.sessions, running);
    } else if app.sessions[i].status is Exited {
        let without = app.without_session(i);
        assert forall|k: int| 0 <= k < i implies (
        #[trigger] without.sessions[k]).status == SessionStatus::Running by {
            assert(without.sessions[k] == app.sessions[k]);
        }
        lemma_close_exited(without, i);
        lemma_filter_without(app.sessions, i, running);
    } else {
        lemma_close_exited(app, i + 1);
    }
}

proof fn lemma_filter_without(sessions: Seq<SessionView>, i: int, keep: spec_fn(SessionView) -> bool)
    requires
        0 <= i < sessions.len(),
        !keep(sessions[i]),
    ensures
        sessions.remove(i).filter(keep) == sessions.filter(keep),
    decreases sessions.len(),
{
    let rest = sessions.drop_last();
    let last = sessions.last();
    assert(sessions =~= rest.push(last));
    lemma_filter_push(rest, last, keep);
    if i == sessions.len() - 1 {
        assert(sessions.remove(i) =~= rest);
    } else {
        assert(sessions.remove(i) =~= rest.remove(i).push(last));
        lemma_filter_push(rest.remove(i), last, keep);
        lemma_filter_without(rest, i, keep);
    }
}

/// Sessions whose program has ended are closed, the others stay in their order,
/// and the session that is shown stays if its program runs.
pub proof fn lemma_ended_sessions_are_closed(app: AppView)
    requires
        app.wf(),
        app.sessions.len() <= usize::MAX,
    ensures
        app.close_exited_from(0).sessions == app.sessions.filter(
            |s: SessionView| s.status == SessionStatus::Running,
        ),
        app.close_exited_from(0).view_exists(),
        app.active_session() matches Some(session) ==> session.status == SessionStatus::Running
            ==> app.close_exited_from(0).active_session() == Some(session),
        !(app.view is Session) ==> app.close_exited_from(0).view == app.view,
        app.close_exited_from(0).config == app.config,
        app.close_exited_from(0).file_transfers == app.file_transfers,
{
    lemma_close_exited(app, 0);
}

} // verus!
