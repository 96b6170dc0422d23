//! The state of the application.
use vstd::prelude::*;
use crate::filebrowser::{
    opened, start_path, BrowserModeView, BrowserView, FileBrowser, FileBrowserMode,
    FileBrowserPane,
};
use crate::form::{result_texts, FormState, FormView};
use crate::input::{empty_input, handle_key, input_view, InputView};
use crate::keys::KeyEvent;
use crate::listing::{
    build_group_entries, build_items, first_host_index, first_host_row, group_entries_of,
    group_entry_views, item_views, items_of, lemma_lists_depend_on_places, next_host_index,
    next_host_row, prev_host_index, prev_host_row, same_places, GroupEntry, GroupEntryView,
    ItemView, ListItem,
};
use crate::model::{accessed_at, is_time_text, opt_text, Config, ConfigView, Host, HostView};
use crate::pty::{polled_status, session_views, Session, SessionKind, SessionStatus, SessionView};
use crate::screen;
use crate::screen::{Pane, PrefixState, Selection};
use crate::seqs::{lemma_position, lemma_position_is, lemma_position_none, position};
use crate::sftp::{reported_status, status_after, ConnectReport, SftpConnectionStatus, StatusView};
use crate::text::{concat, concat3, decimal, decimal_string, same_text, trim, trimmed};
use tui_input::Input;

verus! {

/// The input of a group's name.
#[derive(Debug)]
pub struct InputState {
    pub buffer: Input,
    pub error: Option<String>,
}

/// The model of the input of a group's name.
#[verifier::ext_equal]
pub struct InputStateView {
    pub buffer: InputView,
    pub error: Option<Seq<char>>,
}

impl View for InputState {
    type V = InputStateView;

    open spec fn view(&self) -> InputStateView {
        InputStateView { buffer: input_view(self.buffer), error: opt_text(self.error) }
    }
}

/// How a reachability check stands.
#[derive(Debug)]
pub enum TestStatus {
    Testing,
    Done { success: bool, message: String },
}

/// The model of a reachability check.
#[verifier::ext_equal]
pub enum TestStatusView {
    Testing,
    Done { success: bool, message: Seq<char> },
}

impl View for TestStatus {
    type V = TestStatusView;

    open spec fn view(&self) -> TestStatusView {
        match self {
            TestStatus::Testing => TestStatusView::Testing,
            TestStatus::Done { success, message } => TestStatusView::Done {
                success: *success,
                message: message@,
            },
        }
    }
}

/// What the keys mean at the moment.
#[derive(Debug)]
pub enum Mode {
    Normal,
    Adding(FormState),
    Editing { original_alias: String, form: FormState },
    ConfirmDelete(String),
    AddingGroup(InputState),
    EditingGroup { original_name: String, input: InputState },
    ConfirmDeleteGroup(String),
    Searching,
    ConnectError { alias: String, message: String },
    TestResult { alias: String, status: TestStatus },
    TabHelp,
}

/// The model of a mode.
#[verifier::ext_equal]
pub enum ModeView {
    Normal,
    Adding(FormView),
    Editing { original_alias: Seq<char>, form: FormView },
    ConfirmDelete(Seq<char>),
    AddingGroup(InputStateView),
    EditingGroup { original_name: Seq<char>, input: InputStateView },
    ConfirmDeleteGroup(Seq<char>),
    Searching,
    ConnectError { alias: Seq<char>, message: Seq<char> },
    TestResult { alias: Seq<char>, status: TestStatusView },
    TabHelp,
}

impl View for Mode {
    type V = ModeView;

    open spec fn view(&self) -> ModeView {
        match self {
            Mode::Normal => ModeView::Normal,
            Mode::Adding(form) => ModeView::Adding(form@),
            Mode::Editing { original_alias, form } => ModeView::Editing {
                original_alias: original_alias@,
                form: form@,
            },
            Mode::ConfirmDelete(alias) => ModeView::ConfirmDelete(alias@),
            Mode::AddingGroup(input) => ModeView::AddingGroup(input@),
            Mode::EditingGroup { original_name, input } => ModeView::EditingGroup {
                original_name: original_name@,
                input: input@,
            },
            Mode::ConfirmDeleteGroup(name) => ModeView::ConfirmDeleteGroup(name@),
            Mode::Searching => ModeView::Searching,
            Mode::ConnectError { alias, message } => ModeView::ConnectError {
                alias: alias@,
                message: message@,
            },
            Mode::TestResult { alias, status } => ModeView::TestResult {
                alias: alias@,
                status: status@,
            },
            Mode::TabHelp => ModeView::TabHelp,
        }
    }
}

impl ModeView {
    /// The host form of the mode, if it has one.
    pub open spec fn form(self) -> Option<FormView> {
        match self {
            ModeView::Adding(form) => Some(form),
            ModeView::Editing { form, .. } => Some(form),
            _ => None,
        }
    }

    /// The mode with another host form.
    pub open spec fn with_form(self, form: FormView) -> ModeView {
        match self {
            ModeView::Adding(_) => ModeView::Adding(form),
            ModeView::Editing { original_alias, .. } => ModeView::Editing { original_alias, form },
            _ => self,
        }
    }

    /// The group input of the mode, if it has one.
    pub open spec fn input(self) -> Option<InputStateView> {
        match self {
            ModeView::AddingGroup(input) => Some(input),
            ModeView::EditingGroup { input, .. } => Some(input),
            _ => None,
        }
    }

    /// The mode with another group input.
    pub open spec fn with_input(self, input: InputStateView) -> ModeView {
        match self {
            ModeView::AddingGroup(_) => ModeView::AddingGroup(input),
            ModeView::EditingGroup { original_name, .. } => ModeView::EditingGroup {
                original_name,
                input,
            },
            _ => self,
        }
    }

    /// Whether a form of the mode is as forms are.
    pub open spec fn wf(self) -> bool {
        self.form() matches Some(form) ==> form.wf() && form.edits_existing()
    }
}

/// The state of the application.
#[derive(Debug)]
pub struct App {
    pub config: Config,
    pub selected: usize,
    pub mode: Mode,
    pub exit: bool,
    pub dirty: bool,
    pub focus: Pane,
    pub group_selected: usize,
    pub search: Input,
    pub view: screen::View,
    pub sessions: Vec<Session>,
    pub file_transfers: Vec<FileBrowser>,
    pub prefix: PrefixState,
    pub selection: Option<Selection>,
    clipboard_notice_until: Option<u64>,
    group_entries: Vec<GroupEntry>,
    items: Vec<ListItem>,
}

/// The model of the application.
#[verifier::ext_equal]
pub struct AppView {
    pub config: ConfigView,
    pub selected: int,
    pub mode: ModeView,
    pub exit: bool,
    pub dirty: bool,
    pub focus: Pane,
    pub group_selected: int,
    pub search: InputView,
    pub view: screen::View,
    pub sessions: Seq<SessionView>,
    pub file_transfers: Seq<BrowserView>,
    pub prefix: PrefixState,
    pub selection: Option<Selection>,
    pub clipboard_notice_until: Option<u64>,
    pub group_entries: Seq<GroupEntryView>,
    pub items: Seq<ItemView>,
}

/// The models of the file browsers.
pub open spec fn browser_views(browsers: Seq<FileBrowser>) -> Seq<BrowserView> {
    browsers.map_values(|b: FileBrowser| b@)
}

impl View for App {
    type V = AppView;

    closed spec fn view(&self) -> AppView {
        AppView {
            config: self.config@,
            selected: self.selected as int,
            mode: self.mode@,
            exit: self.exit,
            dirty: self.dirty,
            focus: self.focus,
            group_selected: self.group_selected as int,
            search: input_view(self.search),
            view: self.view,
            sessions: session_views(self.sessions@),
            file_transfers: browser_views(self.file_transfers@),
            prefix: self.prefix,
            selection: self.selection,
            clipboard_notice_until: self.clipboard_notice_until,
            group_entries: group_entry_views(self.group_entries@),
            items: item_views(self.items@),
        }
    }
}

/// How long the clipboard notice is shown, in milliseconds.
pub const NOTICE_MS: u64 = 2000;

/// The configuration with the group of a host in it.
pub open spec fn with_host_group(config: ConfigView, host: HostView) -> ConfigView {
    match host.group {
        Some(group) => config.add_group(group),
        None => config,
    }
}

/// What is said where an alias is taken.
pub open spec fn alias_taken(alias: Seq<char>) -> Seq<char> {
    "Alias '"@ + alias + "' already exists"@
}

/// What is said where a group's name is taken.
pub open spec fn group_taken(name: Seq<char>) -> Seq<char> {
    "Group '"@ + name + "' already exists"@
}

/// Whether a label is the first one for a local session that is free.
pub open spec fn is_next_label(app: AppView, label: Seq<char>) -> bool {
    exists|n: nat|
        1 <= n && label == #[trigger] local_label(n) && (forall|m: nat|
            1 <= m < n ==> has_label(app, #[trigger] local_label(m))) && !has_label(app, label)
}

/// Whether a session has a label.
pub open spec fn has_label(app: AppView, label: Seq<char>) -> bool {
    exists|i: int| 0 <= i < app.sessions.len() && (#[trigger] app.sessions[i]).alias == label
}

/// The label of the next local session.
pub open spec fn next_label(app: AppView) -> Seq<char> {
    choose|label: Seq<char>| is_next_label(app, label)
}

/// There is only one first label that is free.
pub proof fn lemma_next_label_is(app: AppView, label: Seq<char>, n: nat)
    requires
        1 <= n,
        label == local_label(n),
        forall|m: nat| 1 <= m < n ==> has_label(app, #[trigger] local_label(m)),
        !has_label(app, label),
    ensures
        is_next_label(app, label),
        next_label(app) == label,
{
    let other = next_label(app);
    assert(is_next_label(app, label));
    assert(is_next_label(app, other));
    let k = choose|k: nat|
        1 <= k && other == #[trigger] local_label(k) && (forall|m: nat|
            1 <= m < k ==> has_label(app, #[trigger] local_label(m))) && !has_label(app, other);
    if k < n {
        assert(has_label(app, local_label(k)));
    } else if n < k {
        assert(has_label(app, local_label(n)));
    }
}

/// The label of a local session.
pub open spec fn local_label(n: nat) -> Seq<char> {
    "local-"@ + decimal(n)
}

impl AppView {
    /// Whether the lists show what the configuration, the group pane and the
    /// search say, and the selections lie within them.
    pub open spec fn synced(self) -> bool {
        &&& self.group_entries == group_entries_of(self.config)
        &&& 0 <= self.group_selected < self.group_entries.len()
        &&& self.items == items_of(
            self.config,
            self.group_entries,
            self.group_selected,
            self.search.text,
        )
        &&& 0 <= self.selected
        &&& self.selected < self.items.len() || (self.selected == 0 && self.items.len() == 0)
    }

    /// Whether the view that is shown exists.
    pub open spec fn view_exists(self) -> bool {
        match self.view {
            screen::View::Hosts => true,
            screen::View::Session(i) => i < self.sessions.len(),
            screen::View::FileTransfer(i) => i < self.file_transfers.len(),
        }
    }

    /// Whether every file browser is as browsers are.
    pub open spec fn browsers_wf(self) -> bool {
        forall|i: int| 0 <= i < self.file_transfers.len() ==> (#[trigger] self.file_transfers[i]).wf()
    }

    /// Whether there is a column behind either end of the selection of text.
    pub open spec fn selection_fits(self) -> bool {
        self.selection matches Some(s) ==> s.anchor.col < u16::MAX && s.end.col < u16::MAX
    }

    /// Whether every tab has a number.
    pub open spec fn tabs_fit(self) -> bool {
        self.sessions.len() <= usize::MAX && self.file_transfers.len() <= usize::MAX
    }

    /// What holds of the application between any two events.
    pub open spec fn wf(self) -> bool {
        self.synced() && self.mode.wf() && self.view_exists() && self.browsers_wf()
            && self.selection_fits() && self.tabs_fit()
    }

    /// The application with its lists built anew, and the selections repaired.
    pub open spec fn rebuild(self) -> AppView {
        let group_entries = group_entries_of(self.config);
        let group_selected = if self.group_selected >= group_entries.len() {
            0
        } else {
            self.group_selected
        };
        let items = items_of(self.config, group_entries, group_selected, self.search.text);
        AppView {
            group_entries,
            group_selected,
            items,
            selected: if self.selected >= items.len() {
                first_host_row(items)
            } else {
                self.selected
            },
            ..self
        }
    }

    /// The application with another entry of the group pane selected.
    pub open spec fn select_group(self, group_selected: int) -> AppView {
        let items = items_of(
            self.config,
            self.group_entries,
            group_selected,
            self.search.text,
        );
        AppView { group_selected, items, selected: first_host_row(items), ..self }
    }

    /// The host of the selected row, if it is the row of a host.
    pub open spec fn selected_host(self) -> Option<HostView> {
        if self.selected < self.items.len() {
            match self.items[self.selected] {
                ItemView::Host(alias) => self.config.find(alias),
                ItemView::GroupHeader(_) => None,
            }
        } else {
            None
        }
    }

    /// The name of the selected group, if a real group is selected.
    pub open spec fn selected_group(self) -> Option<Seq<char>> {
        if self.group_selected < self.group_entries.len() {
            match self.group_entries[self.group_selected] {
                GroupEntryView::Named(name) => Some(name),
                _ => None,
            }
        } else {
            None
        }
    }

    /// The selection moved down in the focused pane.
    pub open spec fn move_down(self) -> AppView {
        match self.focus {
            Pane::Hosts => if self.items.len() == 0 {
                self
            } else {
                AppView { selected: next_host_row(self.items, self.selected), ..self }
            },
            Pane::Groups => self.select_group(
                (self.group_selected + 1) % self.group_entries.len() as int,
            ),
        }
    }

    /// The selection moved up in the focused pane.
    pub open spec fn move_up(self) -> AppView {
        match self.focus {
            Pane::Hosts => if self.items.len() == 0 {
                self
            } else {
                AppView { selected: prev_host_row(self.items, self.selected), ..self }
            },
            Pane::Groups => self.select_group(
                if self.group_selected == 0 {
                    self.group_entries.len() - 1
                } else {
                    self.group_selected - 1
                },
            ),
        }
    }

    /// The application in another mode.
    pub open spec fn with_mode(self, mode: ModeView) -> AppView {
        AppView { mode, ..self }
    }

    /// The application with a form for a new host, in the selected group.
    pub open spec fn start_adding(self) -> AppView {
        self.with_mode(
            ModeView::Adding(
                match self.selected_group() {
                    Some(name) => FormView::with_group(name),
                    None => FormView::blank(),
                },
            ),
        )
    }

    /// The application with a form for a copy of the selected host.
    pub open spec fn start_add_from_host(self) -> AppView {
        match self.selected_host() {
            Some(host) => self.with_mode(ModeView::Adding(FormView::from_host(host))),
            None => self,
        }
    }

    /// The application with a form that edits the selected host.
    pub open spec fn start_editing(self) -> AppView {
        match self.selected_host() {
            Some(host) => self.with_mode(
                ModeView::Editing { original_alias: host.alias, form: FormView::from_host(host) },
            ),
            None => self,
        }
    }

    /// The application asking whether to delete what is selected.
    pub open spec fn start_delete(self) -> AppView {
        match self.focus {
            Pane::Hosts => match self.selected_host() {
                Some(host) => self.with_mode(ModeView::ConfirmDelete(host.alias)),
                None => self,
            },
            Pane::Groups => match self.selected_group() {
                Some(name) => self.with_mode(ModeView::ConfirmDeleteGroup(name)),
                None => self,
            },
        }
    }

    /// The application asking for the name of a new group.
    pub open spec fn start_adding_group(self) -> AppView {
        self.with_mode(
            ModeView::AddingGroup(InputStateView { buffer: InputView::empty(), error: None }),
        )
    }

    /// The application asking for another name of the selected group.
    pub open spec fn start_editing_group(self) -> AppView {
        match self.selected_group() {
            Some(name) => self.with_mode(
                ModeView::EditingGroup {
                    original_name: name,
                    input: InputStateView { buffer: InputView::new(name), error: None },
                },
            ),
            None => self,
        }
    }

    /// The application with another configuration, its lists built anew, to be
    /// saved, and in normal mode.
    pub open spec fn changed(self, config: ConfigView) -> AppView {
        AppView {
            dirty: true,
            mode: ModeView::Normal,
            ..(AppView { config, ..self }).rebuild()
        }
    }

    /// The application after the deletion that was asked about.
    pub open spec fn confirm_delete(self) -> AppView {
        match self.mode {
            ModeView::ConfirmDelete(alias) => self.changed(self.config.remove_host(alias)),
            ModeView::ConfirmDeleteGroup(name) => self.changed(self.config.remove_group(name)),
            _ => self.with_mode(ModeView::Normal),
        }
    }

    /// The application after a form was submitted: with the configuration
    /// changed, or with the reason why it was not in the form.
    pub open spec fn submit_form(self, env_user: Result<Seq<char>, Seq<char>>) -> AppView {
        match self.mode {
            ModeView::Adding(form) => match form.to_host(env_user) {
                Ok(host) => if self.config.find(host.alias) is Some {
                    self.with_mode(ModeView::Adding(form.with_error(Some(alias_taken(host.alias)))))
                } else {
                    self.changed(with_host_group(self.config, host).add_host(host))
                },
                Err(e) => self.with_mode(ModeView::Adding(form.with_error(Some(e)))),
            },
            ModeView::Editing { original_alias, form } => match form.to_host(env_user) {
                Ok(host) => if host.alias != original_alias && self.config.find(
                    host.alias,
                ) is Some {
                    self.with_mode(
                        ModeView::Editing {
                            original_alias,
                            form: form.with_error(Some(alias_taken(host.alias))),
                        },
                    )
                } else {
                    self.changed(
                        with_host_group(self.config, host).update_host(original_alias, host),
                    )
                },
                Err(e) => self.with_mode(
                    ModeView::Editing { original_alias, form: form.with_error(Some(e)) },
                ),
            },
            ModeView::AddingGroup(input) => {
                let name = trim(input.buffer.text);
                if name.len() == 0 {
                    self.with_mode(
                        ModeView::AddingGroup(
                            InputStateView {
                                error: Some("Group name cannot be empty"@),
                                ..input
                            },
                        ),
                    )
                } else if self.config.groups.contains(name) {
                    self.with_mode(
                        ModeView::AddingGroup(
                            InputStateView { error: Some(group_taken(name)), ..input },
                        ),
                    )
                } else {
                    self.changed(self.config.add_group(name))
                }
            },
            ModeView::EditingGroup { original_name, input } => {
                let name = trim(input.buffer.text);
                if name.len() == 0 {
                    self.with_mode(
                        ModeView::EditingGroup {
                            original_name,
                            input: InputStateView {
                                error: Some("Group name cannot be empty"@),
                                ..input
                            },
                        },
                    )
                } else if name != original_name && self.config.groups.contains(name) {
                    self.with_mode(
                        ModeView::EditingGroup {
                            original_name,
                            input: InputStateView { error: Some(group_taken(name)), ..input },
                        },
                    )
                } else {
                    self.changed(self.config.rename_group(original_name, name))
                }
            },
            _ => self,
        }
    }

    /// The application with the search dropped.
    pub open spec fn cancel_search(self) -> AppView {
        (AppView { search: self.search.reset(), mode: ModeView::Normal, ..self }).refresh_search()
    }

    /// The application with its lists built anew and the first host selected.
    pub open spec fn refresh_search(self) -> AppView {
        let built = self.rebuild();
        AppView { selected: first_host_row(built.items), ..built }
    }

    /// The position of the SSH session of an alias.
    pub open spec fn find_session(self, alias: Seq<char>) -> Option<int> {
        position(self.sessions, |s: SessionView| s.kind == SessionKind::Ssh && s.alias == alias)
    }

    /// The application with a session shown, which is then no longer unread.
    pub open spec fn switch_to_session(self, idx: int) -> AppView {
        if 0 <= idx < self.sessions.len() {
            AppView {
                view: screen::View::Session(idx as usize),
                sessions: self.sessions.update(
                    idx,
                    SessionView { unread: false, ..self.sessions[idx] },
                ),
                ..self
            }
        } else {
            self
        }
    }

    /// The application with a file browser shown.
    pub open spec fn switch_to_file_transfer(self, idx: int) -> AppView {
        if 0 <= idx < self.file_transfers.len() {
            AppView { view: screen::View::FileTransfer(idx as usize), ..self }
        } else {
            self
        }
    }

    /// The application after a session was asked for, and the host to connect
    /// to. A session that exists is shown instead.
    pub open spec fn open_session(self) -> (AppView, Option<HostView>) {
        match self.selected_host() {
            Some(host) => match self.find_session(host.alias) {
                Some(idx) => (self.switch_to_session(idx), None),
                None => (self, Some(host)),
            },
            None => (self, None),
        }
    }

    /// The application with a session that was started, which is shown.
    pub open spec fn with_session(self, id: u64, alias: Seq<char>, kind: SessionKind) -> AppView {
        AppView {
            sessions: self.sessions.push(
                SessionView { id, alias, kind, unread: false, status: SessionStatus::Running },
            ),
            view: screen::View::Session(self.sessions.len() as usize),
            ..self
        }
    }

    /// The application after the session of a host was started.
    pub open spec fn session_opened(self, host: HostView, id: u64) -> AppView {
        (AppView {
            config: self.config.update_host(host.alias, host),
            dirty: true,
            ..self
        }).with_session(id, host.alias, SessionKind::Ssh)
    }

    /// The application after the session of a host could not be started.
    pub open spec fn session_failed(self, alias: Seq<char>, message: Seq<char>) -> AppView {
        self.with_mode(ModeView::ConnectError { alias, message })
    }

    /// The application after a reachability check was asked for, and the host to
    /// check.
    pub open spec fn test_host(self) -> (AppView, Option<HostView>) {
        match self.selected_host() {
            Some(host) => (
                self.with_mode(
                    ModeView::TestResult { alias: host.alias, status: TestStatusView::Testing },
                ),
                Some(host),
            ),
            None => (self, None),
        }
    }

    /// The application after a reachability check came to an end, if its result
    /// is still waited for.
    pub open spec fn test_finished(self, status: TestStatusView) -> AppView {
        match self.mode {
            ModeView::TestResult { alias, .. } => self.with_mode(
                ModeView::TestResult { alias, status },
            ),
            _ => self,
        }
    }

    /// The application without a session. Where it was shown, the one that takes
    /// its place is shown, or the last one, or the host browser.
    pub open spec fn without_session(self, i: int) -> AppView {
        let sessions = self.sessions.remove(i);
        AppView {
            sessions,
            view: match self.view {
                screen::View::Session(idx) => if idx == i {
                    if sessions.len() == 0 {
                        screen::View::Hosts
                    } else if i >= sessions.len() {
                        screen::View::Session((sessions.len() - 1) as usize)
                    } else {
                        self.view
                    }
                } else if idx > i {
                    screen::View::Session((idx - 1) as usize)
                } else {
                    self.view
                },
                _ => self.view,
            },
            ..self
        }
    }

    /// The application without the sessions from a position on that have ended.
    pub open spec fn close_exited_from(self, i: int) -> AppView
        decreases self.sessions.len() - i,
    {
        if i < 0 || i >= self.sessions.len() {
            self
        } else if self.sessions[i].status is Exited {
            self.without_session(i).close_exited_from(i)
        } else {
            self.close_exited_from(i + 1)
        }
    }

    /// The application after its sessions were looked at, in order: for each,
    /// whether its terminal gives no more output, and whether its program ended
    /// and whether it ended well.
    pub open spec fn sessions_seen(self, seen: Seq<(bool, Option<bool>)>) -> AppView {
        AppView {
            sessions: Seq::new(
                self.sessions.len(),
                |i: int|
                    if i < seen.len() {
                        SessionView {
                            status: polled_status(self.sessions[i].status, seen[i].0, seen[i].1),
                            ..self.sessions[i]
                        }
                    } else {
                        self.sessions[i]
                    },
            ),
            ..self
        }
    }

    /// The session that is shown, if one is.
    pub open spec fn active_session(self) -> Option<SessionView> {
        match self.view {
            screen::View::Session(i) => if i < self.sessions.len() {
                Some(self.sessions[i as int])
            } else {
                None
            },
            _ => None,
        }
    }

    /// The application without the session that is shown.
    pub open spec fn close_current_session(self) -> AppView {
        match self.view {
            screen::View::Session(idx) => if idx < self.sessions.len() {
                self.without_session(idx as int)
            } else {
                self
            },
            _ => self,
        }
    }

    /// The application without the file browser that is shown.
    pub open spec fn close_current_file_transfer(self) -> AppView {
        match self.view {
            screen::View::FileTransfer(idx) => if idx < self.file_transfers.len() {
                let file_transfers = self.file_transfers.remove(idx as int);
                AppView {
                    file_transfers,
                    view: if file_transfers.len() == 0 {
                        screen::View::Hosts
                    } else if idx >= file_transfers.len() {
                        screen::View::FileTransfer((file_transfers.len() - 1) as usize)
                    } else {
                        self.view
                    },
                    ..self
                }
            } else {
                self
            },
            _ => self,
        }
    }

    /// Whether there is anything besides the host browser to show.
    pub open spec fn has_tabs(self) -> bool {
        self.sessions.len() > 0 || self.file_transfers.len() > 0
    }

    /// The application with a clipboard notice from a time on.
    pub open spec fn notice_shown(self, now: u64) -> AppView {
        AppView {
            clipboard_notice_until: Some(
                if now + NOTICE_MS > u64::MAX {
                    u64::MAX
                } else {
                    (now + NOTICE_MS) as u64
                },
            ),
            ..self
        }
    }

    /// How many tabs there are: the host browser, the sessions, and then the
    /// file browsers.
    pub open spec fn tab_count(self) -> int {
        1int + self.sessions.len() + self.file_transfers.len()
    }

    /// The tab of what is shown.
    pub open spec fn current_tab(self) -> int {
        match self.view {
            screen::View::Hosts => 0,
            screen::View::Session(i) => 1 + i,
            screen::View::FileTransfer(i) => 1 + self.sessions.len() + i,
        }
    }

    /// The application with a tab shown.
    pub open spec fn show_tab(self, tab: int) -> AppView {
        if tab == 0 {
            AppView { view: screen::View::Hosts, ..self }
        } else if tab <= self.sessions.len() {
            self.switch_to_session(tab - 1)
        } else {
            self.switch_to_file_transfer(tab - 1 - self.sessions.len())
        }
    }

    /// The application with the next tab shown, around the end.
    pub open spec fn next_tab(self) -> AppView {
        if self.has_tabs() {
            self.show_tab((self.current_tab() + 1) % self.tab_count())
        } else {
            self
        }
    }

    /// The application with the previous tab shown, around the start.
    pub open spec fn prev_tab(self) -> AppView {
        if self.has_tabs() {
            self.show_tab((self.current_tab() - 1) % self.tab_count())
        } else {
            self
        }
    }

    /// The position of the file browser of an alias.
    pub open spec fn find_file_transfer(self, alias: Seq<char>) -> Option<int> {
        position(self.file_transfers, |b: BrowserView| b.alias == alias)
    }

    /// The application with a new file browser, which is shown.
    pub open spec fn with_file_transfer(self, browser: BrowserView) -> AppView {
        AppView {
            file_transfers: self.file_transfers.push(browser),
            view: screen::View::FileTransfer(self.file_transfers.len() as usize),
            ..self
        }
    }

    /// The application after a file browser for a host was asked for, if one
    /// exists.
    pub open spec fn open_existing_file_transfer(self, alias: Seq<char>) -> Option<AppView> {
        match self.find_file_transfer(alias) {
            Some(idx) => Some(self.switch_to_file_transfer(idx)),
            None => None,
        }
    }

    /// The application with another state in a file browser.
    pub open spec fn with_browser(self, idx: int, browser: BrowserView) -> AppView {
        AppView { file_transfers: self.file_transfers.update(idx, browser), ..self }
    }
}

impl BrowserView {
    /// The browser after its connection was looked at: a first listing is shown,
    /// and a password is asked for where one is needed.
    pub open spec fn polled(self) -> BrowserView {
        match self.connection_status {
            StatusView::ConnectedWithData { home_dir, entries } => BrowserView {
                connection_status: StatusView::Connected,
                ..self.go_to(FileBrowserPane::Remote, home_dir).fill(
                    FileBrowserPane::Remote,
                    entries,
                ).select(FileBrowserPane::Remote, 0)
            },
            StatusView::NeedsPassword => if self.mode is Normal {
                BrowserView { mode: BrowserModeView::PasswordPrompt(InputView::empty()), ..self }
            } else {
                self
            },
            _ => self,
        }
    }

    /// The browser after an attempt to connect.
    pub open spec fn reported(self, report: ConnectReport, credential: bool) -> BrowserView {
        BrowserView {
            connected: report is Up,
            connection_status: reported_status(report, credential),
            ..self
        }
    }
}

impl FileBrowser {
    /// Looks at the connection: shows a first listing, and asks for a password
    /// where one is needed.
    pub fn poll(&mut self)
        requires
            old(self)@.wf(),
        ensures
            final(self)@ == old(self)@.polled(),
            final(self)@.wf(),
    {
        let mut status = SftpConnectionStatus::Connected;
        core::mem::swap(&mut status, &mut self.connection_status);
        match status {
            SftpConnectionStatus::ConnectedWithData { home_dir, entries } => {
                self.entered_dir(FileBrowserPane::Remote, home_dir, Ok(entries));
            },
            SftpConnectionStatus::NeedsPassword => {
                self.connection_status = SftpConnectionStatus::NeedsPassword;
                if matches!(self.mode, FileBrowserMode::Normal) {
                    self.mode = FileBrowserMode::PasswordPrompt(empty_input());
                }
            },
            other => {
                self.connection_status = other;
            },
        }
    }

    /// Records what an attempt to connect came to.
    pub fn report(&mut self, report: ConnectReport, credential: bool)
        ensures
            final(self)@ == old(self)@.reported(report, credential),
    {
        self.connected = matches!(report, ConnectReport::Up { .. });
        self.connection_status = status_after(report, credential);
    }
}

/// The lists that are built anew show what they should.
pub proof fn lemma_rebuild_syncs(app: AppView)
    requires
        app.selected >= 0,
        app.group_selected >= 0,
    ensures
        app.rebuild().synced(),
{
    let entries = group_entries_of(app.config);
    assert(entries[0] is All);
    let items = app.rebuild().items;
    lemma_position(items, |i: ItemView| i is Host);
}

proof fn lemma_select_group_syncs(app: AppView, group_selected: int)
    requires
        app.synced(),
        0 <= group_selected < app.group_entries.len(),
    ensures
        app.select_group(group_selected).synced(),
{
    let items = app.select_group(group_selected).items;
    lemma_position(items, |i: ItemView| i is Host);
}

impl App {
    /// Creates the application from a configuration. The first host is selected.
    pub fn new(config: Config) -> (app: Self)
        ensures
            app@.wf(),
            app@ == (AppView {
                config: config@,
                selected: first_host_row(app@.items),
                mode: ModeView::Normal,
                exit: false,
                dirty: false,
                focus: Pane::Groups,
                group_selected: 0,
                search: InputView::empty(),
                view: screen::View::Hosts,
                sessions: seq![],
                file_transfers: seq![],
                prefix: PrefixState::Inactive,
                selection: None,
                clipboard_notice_until: None,
                group_entries: group_entries_of(config@),
                items: items_of(config@, group_entries_of(config@), 0, seq![]),
            }),
    {
        let group_entries = build_group_entries(&config);
        let items = build_items(&config, &group_entries, 0, "");
        let selected = first_host_index(&items);
        let sessions: Vec<Session> = Vec::new();
        let file_transfers: Vec<FileBrowser> = Vec::new();
        let app = App {
            config,
            selected,
            mode: Mode::Normal,
            exit: false,
            dirty: false,
            focus: Pane::Groups,
            group_selected: 0,
            search: empty_input(),
            view: screen::View::Hosts,
            sessions,
            file_transfers,
            prefix: PrefixState::Inactive,
            selection: None,
            clipboard_notice_until: None,
            group_entries,
            items,
        };
        proof {
            reveal_strlit("");
            assert(""@ =~= Seq::<char>::empty());
            assert(app@.sessions =~= seq![]);
            assert(app@.file_transfers =~= seq![]);
            assert(app@.group_entries[0] is All);
        }
        app
    }

    /// Builds the lists anew after the configuration or the search has changed,
    /// and repairs the selections.
    pub fn rebuild(&mut self)
        ensures
            final(self)@ == old(self)@.rebuild(),
            final(self)@.synced(),
    {
        proof {
            lemma_rebuild_syncs(self@);
        }
        self.group_entries = build_group_entries(&self.config);
        if self.group_selected >= self.group_entries.len() {
            self.group_selected = 0;
        }
        self.items = build_items(
            &self.config,
            &self.group_entries,
            self.group_selected,
            self.search.value(),
        );
        if self.selected >= self.items.len() {
            self.selected = first_host_index(&self.items);
        }
    }

    /// The rows of the host pane.
    pub fn items(&self) -> (items: &[ListItem])
        ensures
            item_views(items@) == self@.items,
    {
        self.items.as_slice()
    }

    /// The entries of the group pane.
    pub fn group_entries(&self) -> (entries: &[GroupEntry])
        ensures
            group_entry_views(entries@) == self@.group_entries,
    {
        self.group_entries.as_slice()
    }

    /// The selected host, if the selected row is that of a host.
    pub fn selected_host(&self) -> (host: Option<&Host>)
        ensures
            match host {
                Some(h) => self@.selected_host() == Some(h@),
                None => self@.selected_host() is None,
            },
    {
        if self.selected < self.items.len() {
            assert(self@.items[self.selected as int] == self.items@[self.selected as int]@);
            match &self.items[self.selected] {
                ListItem::Host(alias) => self.config.find(alias.as_str()),
                ListItem::GroupHeader(_) => None,
            }
        } else {
            None
        }
    }

    fn selected_group(&self) -> (name: Option<String>)
        ensures
            opt_text(name) == self@.selected_group(),
    {
        if self.group_selected < self.group_entries.len() {
            assert(self@.group_entries[self.group_selected as int]
                == self.group_entries@[self.group_selected as int]@);
            match &self.group_entries[self.group_selected] {
                GroupEntry::Named(name) => Some(name.clone()),
                GroupEntry::All => None,
                GroupEntry::Ungrouped => None,
            }
        } else {
            None
        }
    }

    /// Switches keyboard focus between the panes.
    pub fn toggle_focus(&mut self)
        ensures
            final(self)@ == (AppView {
                focus: match old(self)@.focus {
                    Pane::Groups => Pane::Hosts,
                    Pane::Hosts => Pane::Groups,
                },
                ..old(self)@
            }),
    {
        self.focus = match self.focus {
            Pane::Groups => Pane::Hosts,
            Pane::Hosts => Pane::Groups,
        };
    }

    /// Moves keyboard focus to the group pane.
    pub fn group_focus(&mut self)
        ensures
            final(self)@ == (AppView { focus: Pane::Groups, ..old(self)@ }),
    {
        self.focus = Pane::Groups;
    }

    /// Moves keyboard focus to the host pane.
    pub fn host_focus(&mut self)
        ensures
            final(self)@ == (AppView { focus: Pane::Hosts, ..old(self)@ }),
    {
        self.focus = Pane::Hosts;
    }

    fn select_group(&mut self, group_selected: usize)
        requires
            old(self)@.synced(),
            group_selected < old(self)@.group_entries.len(),
        ensures
            final(self)@ == old(self)@.select_group(group_selected as int),
            final(self)@.synced(),
    {
        proof {
            lemma_select_group_syncs(self@, group_selected as int);
        }
        self.group_selected = group_selected;
        self.items = build_items(
            &self.config,
            &self.group_entries,
            self.group_selected,
            self.search.value(),
        );
        self.selected = first_host_index(&self.items);
    }

    /// Moves the selection down in the focused pane.
    ///
    /// In the host pane headers are passed over. In the group pane the hosts of
    /// the newly selected group are shown.
    pub fn move_down(&mut self)
        requires
            old(self)@.wf(),
        ensures
            final(self)@ == old(self)@.move_down(),
            final(self)@.wf(),
    {
        match self.focus {
            Pane::Hosts => {
                if self.items.len() == 0 {
                    return;
                }
                self.selected = next_host_index(&self.items, self.selected);
            },
            Pane::Groups => {
                assert(self@.group_entries.len() == self.group_entries.len());
                let next: usize = if self.group_selected + 1 < self.group_entries.len() {
                    self.group_selected + 1
                } else {
                    0
                };
                proof {
                    let n = self@.group_entries.len() as int;
                    if next != 0 {
                        vstd::arithmetic::div_mod::lemma_small_mod(next as nat, n as nat);
                    } else {
                        vstd::arithmetic::div_mod::lemma_mod_self_0(n);
                    }
                }
                self.select_group(next);
            },
        }
    }

    /// Moves the selection up in the focused pane.
    pub fn move_up(&mut self)
        requires
            old(self)@.wf(),
        ensures
            final(self)@ == old(self)@.move_up(),
            final(self)@.wf(),
    {
        match self.focus {
            Pane::Hosts => {
                if self.items.len() == 0 {
                    return;
                }
                self.selected = prev_host_index(&self.items, self.selected);
            },
            Pane::Groups => {
                let next: usize = if self.group_selected == 0 {
                    self.group_entries.len() - 1
                } else {
                    self.group_selected - 1
                };
                self.select_group(next);
            },
        }
    }

    /// Starts to add a host, in the selected group if it is a real one.
    pub fn start_adding(&mut self)
        requires
            old(self)@.wf(),
        ensures
            final(self)@ == old(self)@.start_adding(),
            final(self)@.wf(),
    {
        let form = match self.selected_group() {
            Some(name) => FormState::with_group(name.as_str()),
            None => FormState::blank(),
        };
        self.mode = Mode::Adding(form);
    }

    /// Starts to add a copy of the selected host.
    pub fn start_add_from_host(&mut self)
        requires
            old(self)@.wf(),
        ensures
            final(self)@ == old(self)@.start_add_from_host(),
            final(self)@.wf(),
    {
        let form = match self.selected_host() {
            Some(host) => FormState::from_host(host),
            None => {
                return;
            },
        };
        self.mode = Mode::Adding(form);
    }

    /// Starts to edit the selected host.
    pub fn start_editing(&mut self)
        requires
            old(self)@.wf(),
        ensures
            final(self)@ == old(self)@.start_editing(),
            final(self)@.wf(),
    {
        let (original_alias, form) = match self.selected_host() {
            Some(host) => (host.alias.clone(), FormState::from_host(host)),
            None => {
                return;
            },
        };
        self.mode = Mode::Editing { original_alias, form };
    }

    /// Asks whether to delete the selected host, or the selected group if the
    /// group pane has focus and a real group is selected.
    pub fn start_delete(&mut self)
        requires
            old(self)@.wf(),
        ensures
            final(self)@ == old(self)@.start_delete(),
            final(self)@.wf(),
    {
        match self.focus {
            Pane::Hosts => {
                let alias = match self.selected_host() {
                    Some(host) => host.alias.clone(),
                    None => {
                        return;
                    },
                };
                self.mode = Mode::ConfirmDelete(alias);
            },
            Pane::Groups => {
                if let Some(name) = self.selected_group() {
                    self.mode = Mode::ConfirmDeleteGroup(name);
                }
            },
        }
    }

    /// Asks for the name of a new group.
    pub fn start_adding_group(&mut self)
        requires
            old(self)@.wf(),
        ensures
            final(self)@ == old(self)@.start_adding_group(),
            final(self)@.wf(),
    {
        self.mode = Mode::AddingGroup(InputState { buffer: empty_input(), error: None });
    }

    /// Asks for another name of the selected group.
    pub fn start_editing_group(&mut self)
        requires
            old(self)@.wf(),
        ensures
            final(self)@ == old(self)@.start_editing_group(),
            final(self)@.wf(),
    {
        if let Some(name) = self.selected_group() {
            let input = InputState { buffer: Input::new(name.clone()), error: None };
            self.mode = Mode::EditingGroup { original_name: name, input };
        }
    }

    /// A vector holds no more tabs than a number can count.
    proof fn lemma_tabs_fit(&self)
        ensures
            self@.tabs_fit(),
    {
        assert(self.sessions.len() == self@.sessions.len());
        assert(self.file_transfers.len() == self@.file_transfers.len());
    }

    /// Builds the lists anew after the configuration was changed, and returns to
    /// normal mode.
    fn config_changed(&mut self)
        requires
            old(self)@.view_exists(),
            old(self)@.browsers_wf(),
            old(self)@.selection_fits(),
        ensures
            final(self)@ == old(self)@.changed(old(self)@.config),
            final(self)@.wf(),
    {
        self.rebuild();
        self.dirty = true;
        self.mode = Mode::Normal;
        proof {
            self.lemma_tabs_fit();
        }
    }

    /// Carries out the deletion that was asked about.
    ///
    /// Deleting a group does not delete its hosts.
    pub fn confirm_delete(&mut self)
        requires
            old(self)@.wf(),
        ensures
            final(self)@ == old(self)@.confirm_delete(),
            final(self)@.wf(),
    {
        let mut mode = Mode::Normal;
        core::mem::swap(&mut mode, &mut self.mode);
        match mode {
            Mode::ConfirmDelete(alias) => {
                self.config.remove_host(alias.as_str());
                self.config_changed();
            },
            Mode::ConfirmDeleteGroup(name) => {
                self.config.remove_group(name.as_str());
                self.config_changed();
            },
            _ => {},
        }
    }

    /// Adds the group of a host, if the host names one.
    fn ensure_host_group_exists(&mut self, host: &Host)
        ensures
            final(self)@ == (AppView {
                config: with_host_group(old(self)@.config, host@),
                ..old(self)@
            }),
    {
        if let Some(group) = &host.group {
            self.config.add_group(group.as_str());
        }
    }

    fn submit_new_host(&mut self, form: FormState, env_user: Result<String, String>)
        requires
            old(self)@.wf(),
            form@.wf(),
            form@.edits_existing(),
        ensures
            final(self)@ == old(self)@.with_mode(ModeView::Adding(form@)).submit_form(
                result_texts(env_user),
            ),
            final(self)@.wf(),
    {
        let mut form = form;
        match form.to_host(env_user) {
            Ok(host) => {
                if self.config.find(host.alias.as_str()).is_some() {
                    let error = concat3("Alias '", host.alias.as_str(), "' already exists");
                    form.set_error(Some(error));
                    self.mode = Mode::Adding(form);
                } else {
                    self.ensure_host_group_exists(&host);
                    self.config.add_host(host);
                    self.config_changed();
                }
            },
            Err(error) => {
                form.set_error(Some(error));
                self.mode = Mode::Adding(form);
            },
        }
    }

    fn submit_edited_host(
        &mut self,
        original_alias: String,
        form: FormState,
        env_user: Result<String, String>,
    )
        requires
            old(self)@.wf(),
            form@.wf(),
            form@.edits_existing(),
        ensures
            final(self)@ == old(self)@.with_mode(
                ModeView::Editing { original_alias: original_alias@, form: form@ },
            ).submit_form(result_texts(env_user)),
            final(self)@.wf(),
    {
        let mut form = form;
        match form.to_host(env_user) {
            Ok(host) => {
                let renamed = !same_text(host.alias.as_str(), original_alias.as_str());
                if renamed && self.config.find(host.alias.as_str()).is_some() {
                    let error = concat3("Alias '", host.alias.as_str(), "' already exists");
                    form.set_error(Some(error));
                    self.mode = Mode::Editing { original_alias, form };
                } else {
                    self.ensure_host_group_exists(&host);
                    self.config.update_host(original_alias.as_str(), host);
                    self.config_changed();
                }
            },
            Err(error) => {
                form.set_error(Some(error));
                self.mode = Mode::Editing { original_alias, form };
            },
        }
    }

    fn submit_new_group(&mut self, input: InputState)
        requires
            old(self)@.wf(),
        ensures
            forall|env_user: Result<Seq<char>, Seq<char>>|
                final(self)@ == #[trigger] old(self)@.with_mode(
                    ModeView::AddingGroup(input@),
                ).submit_form(env_user),
            final(self)@.wf(),
    {
        let mut input = input;
        let name = trimmed(input.buffer.value());
        if name.as_str().is_empty() {
            input.error = Some("Group name cannot be empty".to_string());
            self.mode = Mode::AddingGroup(input);
        } else if self.config.find_group(name.as_str()).is_some() {
            input.error = Some(concat3("Group '", name.as_str(), "' already exists"));
            self.mode = Mode::AddingGroup(input);
        } else {
            self.config.add_group(name.as_str());
            self.config_changed();
        }
    }

    fn submit_renamed_group(&mut self, original_name: String, input: InputState)
        requires
            old(self)@.wf(),
        ensures
            forall|env_user: Result<Seq<char>, Seq<char>>|
                final(self)@ == #[trigger] old(self)@.with_mode(
                    ModeView::EditingGroup { original_name: original_name@, input: input@ },
                ).submit_form(env_user),
            final(self)@.wf(),
    {
        let mut input = input;
        let name = trimmed(input.buffer.value());
        if name.as_str().is_empty() {
            input.error = Some("Group name cannot be empty".to_string());
            self.mode = Mode::EditingGroup { original_name, input };
        } else if !same_text(name.as_str(), original_name.as_str()) && self.config.find_group(
            name.as_str(),
        ).is_some() {
            input.error = Some(concat3("Group '", name.as_str(), "' already exists"));
            self.mode = Mode::EditingGroup { original_name, input };
        } else {
            self.config.rename_group(original_name.as_str(), name.as_str());
            self.config_changed();
        }
    }

    /// Submits the form that is open.
    ///
    /// `env_user` is the user of the environment. What is wrong with the form is
    /// written into it. Otherwise the configuration is changed, and is to be
    /// saved.
    pub fn submit_form(&mut self, env_user: Result<String, String>)
        requires
            old(self)@.wf(),
        ensures
            final(self)@ == old(self)@.submit_form(result_texts(env_user)),
            final(self)@.wf(),
    {
        let ghost given = self@;
        let mut mode = Mode::Normal;
        core::mem::swap(&mut mode, &mut self.mode);
        assert(given == self@.with_mode(mode@));
        match mode {
            Mode::Adding(form) => self.submit_new_host(form, env_user),
            Mode::Editing { original_alias, form } => self.submit_edited_host(
                original_alias,
                form,
                env_user,
            ),
            Mode::AddingGroup(input) => self.submit_new_group(input),
            Mode::EditingGroup { original_name, input } => self.submit_renamed_group(
                original_name,
                input,
            ),
            other => {
                self.mode = other;
            },
        }
    }

    /// Records that the configuration was saved.
    pub fn saved(&mut self)
        ensures
            final(self)@ == (AppView { dirty: false, ..old(self)@ }),
    {
        self.dirty = false;
    }

    /// The current mode.
    pub fn mode(&self) -> (mode: &Mode)
        ensures
            mode@ == self@.mode,
    {
        &self.mode
    }

    /// Whether nothing is open.
    pub fn in_normal_mode(&self) -> (yes: bool)
        ensures
            yes == self@.mode is Normal,
    {
        matches!(self.mode, Mode::Normal)
    }

    /// The pane that has keyboard focus.
    pub fn focus(&self) -> (focus: Pane)
        ensures
            focus == self@.focus,
    {
        self.focus
    }

    /// Whether the prefix key of tab commands was pressed.
    pub fn prefix(&self) -> (prefix: PrefixState)
        ensures
            prefix == self@.prefix,
    {
        self.prefix
    }

    /// Sets whether the prefix key of tab commands was pressed.
    pub fn set_prefix(&mut self, prefix: PrefixState)
        ensures
            final(self)@ == (AppView { prefix, ..old(self)@ }),
    {
        self.prefix = prefix;
    }

    /// Whether the configuration is to be saved.
    pub fn is_dirty(&self) -> (dirty: bool)
        ensures
            dirty == self@.dirty,
    {
        self.dirty
    }

    /// Asks for the end of the application.
    pub fn quit(&mut self)
        ensures
            final(self)@ == (AppView { exit: true, ..old(self)@ }),
    {
        self.exit = true;
    }

    /// What is shown.
    pub fn current_view(&self) -> (view: screen::View)
        ensures
            view == self@.view,
    {
        self.view
    }

    /// How many sessions there are.
    pub fn session_count(&self) -> (n: usize)
        ensures
            n == self@.sessions.len(),
    {
        self.sessions.len()
    }

    /// The sessions, in the order of their tabs.
    pub fn sessions(&self) -> (sessions: &Vec<Session>)
        ensures
            session_views(sessions@) == self@.sessions,
    {
        &self.sessions
    }

    /// The file browsers, in the order of their tabs.
    pub fn browsers(&self) -> (browsers: &Vec<FileBrowser>)
        ensures
            browser_views(browsers@) == self@.file_transfers,
    {
        &self.file_transfers
    }

    /// The row of the host pane that is selected.
    pub fn selected_row(&self) -> (row: usize)
        ensures
            row == self@.selected,
    {
        self.selected
    }

    /// The row of the group pane that is selected.
    pub fn selected_group_row(&self) -> (row: usize)
        ensures
            row == self@.group_selected,
    {
        self.group_selected
    }

    /// The search.
    pub fn search(&self) -> (input: &Input)
        ensures
            input_view(*input) == self@.search,
    {
        &self.search
    }

    /// The selection of text, if there is one.
    pub fn selection(&self) -> (selection: Option<Selection>)
        ensures
            selection == self@.selection,
    {
        self.selection
    }

    /// Whether nothing is searched for.
    pub fn search_is_empty(&self) -> (yes: bool)
        ensures
            yes == (self@.search.text.len() == 0),
    {
        self.search.value().is_empty()
    }

    /// Types a key into the search. Returns whether the key meant anything to it.
    pub fn type_search(&mut self, key: KeyEvent) -> (taken: bool)
        requires
            old(self)@.wf(),
        ensures
            final(self)@ == (AppView { search: old(self)@.search.after(key), ..old(self)@ }),
            taken == old(self)@.search.takes(key),
            !taken ==> final(self)@.wf(),
    {
        handle_key(&mut self.search, key)
    }

    /// Leaves the current mode without changing anything.
    pub fn cancel_mode(&mut self)
        requires
            old(self)@.wf(),
        ensures
            final(self)@ == old(self)@.with_mode(ModeView::Normal),
            final(self)@.wf(),
    {
        self.mode = Mode::Normal;
    }

    /// Shows the help on tab commands.
    pub fn show_tab_help(&mut self)
        requires
            old(self)@.wf(),
        ensures
            final(self)@ == old(self)@.with_mode(ModeView::TabHelp),
            final(self)@.wf(),
    {
        self.mode = Mode::TabHelp;
    }

    /// Starts to search, in the host pane.
    pub fn start_search(&mut self)
        requires
            old(self)@.wf(),
        ensures
            final(self)@ == (AppView {
                focus: Pane::Hosts,
                mode: ModeView::Searching,
                ..old(self)@
            }),
            final(self)@.wf(),
    {
        self.focus = Pane::Hosts;
        self.mode = Mode::Searching;
    }

    /// Stops to type the search, and keeps what it finds.
    pub fn commit_search(&mut self)
        requires
            old(self)@.wf(),
        ensures
            final(self)@ == old(self)@.with_mode(ModeView::Normal),
            final(self)@.wf(),
    {
        self.mode = Mode::Normal;
    }

    /// Drops the search and shows all hosts of the selected group again.
    pub fn cancel_search(&mut self)
        requires
            old(self)@.wf(),
        ensures
            final(self)@ == old(self)@.cancel_search(),
            final(self)@.wf(),
    {
        self.search.reset();
        self.mode = Mode::Normal;
        self.refresh_search();
    }

    /// Shows what the search finds after it has changed.
    pub fn refresh_search(&mut self)
        requires
            old(self)@.mode.wf(),
            old(self)@.view_exists(),
            old(self)@.browsers_wf(),
            old(self)@.selection_fits(),
        ensures
            final(self)@ == old(self)@.refresh_search(),
            final(self)@.wf(),
    {
        self.rebuild();
        self.selected = first_host_index(&self.items);
        proof {
            self.lemma_tabs_fit();
        }
    }

    /// The host form, if one is open.
    pub fn form_state_mut(&mut self) -> (form: Option<&mut FormState>)
        ensures
            match form {
                Some(form) => old(self)@.mode.form() == Some(form@) && final(self)@
                    == old(self)@.with_mode(old(self)@.mode.with_form(final(form)@)),
                None => old(self)@.mode.form() is None && final(self)@ == old(self)@,
            },
    {
        match &mut self.mode {
            Mode::Adding(form) => Some(form),
            Mode::Editing { form, .. } => Some(form),
            _ => None,
        }
    }

    /// The input of a group's name, if one is open.
    pub fn input_state_mut(&mut self) -> (input: Option<&mut InputState>)
        ensures
            match input {
                Some(input) => old(self)@.mode.input() == Some(input@) && final(self)@
                    == old(self)@.with_mode(old(self)@.mode.with_input(final(input)@)),
                None => old(self)@.mode.input() is None && final(self)@ == old(self)@,
            },
    {
        match &mut self.mode {
            Mode::AddingGroup(input) => Some(input),
            Mode::EditingGroup { input, .. } => Some(input),
            _ => None,
        }
    }

    /// Finds the SSH session of an alias. Local sessions have no alias.
    pub fn find_session_by_alias(&self, alias: &str) -> (pos: Option<usize>)
        ensures
            match pos {
                Some(i) => self@.find_session(alias@) == Some(i as int) && i < self@.sessions.len(),
                None => self@.find_session(alias@) is None,
            },
    {
        let ghost wanted = |s: SessionView| s.kind == SessionKind::Ssh && s.alias == alias@;
        for i in 0..self.sessions.len()
            invariant
                wanted == (|s: SessionView| s.kind == SessionKind::Ssh && s.alias == alias@),
                forall|k: int| 0 <= k < i ==> !wanted(#[trigger] self@.sessions[k]),
        {
            assert(self@.sessions[i as int] == self.sessions@[i as int]@);
            if self.sessions[i].kind() == SessionKind::Ssh && same_text(
                self.sessions[i].alias(),
                alias,
            ) {
                proof {
                    lemma_position_is(self@.sessions, wanted, i as int);
                }
                return Some(i);
            }
        }
        proof {
            lemma_position_none(self@.sessions, wanted);
        }
        None
    }

    /// Asks for a session of the selected host.
    ///
    /// Returns the host to connect to. A session that exists is shown instead.
    pub fn open_session(&mut self) -> (host: Option<Host>)
        requires
            old(self)@.wf(),
        ensures
            (final(self)@, opt_host(host)) == old(self)@.open_session(),
            final(self)@.wf(),
    {
        let host = match self.selected_host() {
            Some(host) => host.clone(),
            None => {
                return None;
            },
        };
        match self.find_session_by_alias(host.alias.as_str()) {
            Some(idx) => {
                self.switch_to_session(idx);
                None
            },
            None => Some(host),
        }
    }

    fn add_session(&mut self, id: u64, alias: String, kind: SessionKind)
        requires
            old(self)@.browsers_wf(),
            old(self)@.selection_fits(),
        ensures
            final(self)@ == old(self)@.with_session(id, alias@, kind),
            final(self)@.view_exists(),
    {
        let ghost before = self.sessions@;
        assert(self@.sessions.len() == self.sessions.len());
        self.view = screen::View::Session(self.sessions.len());
        self.sessions.push(Session::started(id, alias, kind));
        assert(session_views(self.sessions@) =~= session_views(before).push(
            self.sessions@[before.len() as int]@,
        ));
    }

    /// Records that the session of a host was started. The host holds the time
    /// of this access.
    pub fn record_session(&mut self, host: Host, id: u64)
        requires
            old(self)@.wf(),
            old(self)@.config.find(host@.alias) matches Some(h) ==> h.group == host@.group,
        ensures
            final(self)@ == old(self)@.session_opened(host@, id),
            final(self)@.wf(),
    {
        let alias = host.alias.clone();
        let ghost before = self@;
        self.config.update_host(alias.as_str(), host);
        self.dirty = true;
        proof {
            let hosts = before.config.hosts;
            lemma_position(hosts, |h: HostView| h.alias == alias@);
            assert(same_places(hosts, self@.config.hosts));
            lemma_lists_depend_on_places(
                before.config,
                self@.config,
                before.group_entries,
                before.group_selected,
                before.search.text,
            );
        }
        self.add_session(id, alias, SessionKind::Ssh);
        proof {
            self.lemma_tabs_fit();
        }
    }

    /// Takes up what became of the session that `open_session` asked for: the
    /// number under which it was started, or why it was not.
    ///
    /// A started session records the time of access in its host, whatever the
    /// clock says that time is.
    pub fn finish_open_session(&mut self, host: Host, outcome: Result<u64, String>)
        requires
            old(self)@.wf(),
            old(self)@.config.find(host@.alias) matches Some(h) ==> h.group == host@.group,
        ensures
            final(self)@.wf(),
            match outcome {
                Ok(id) => exists|time: Seq<char>|
                    is_time_text(time) && final(self)@ == old(self)@.session_opened(
                        #[trigger] accessed_at(host@, time),
                        id,
                    ),
                Err(message) => final(self)@ == old(self)@.session_failed(host@.alias, message@),
            },
    {
        match outcome {
            Ok(id) => {
                let mut host = host;
                let ghost given = host@;
                host.update_last_accessed();
                let ghost time = host@.last_accessed;
                self.record_session(host, id);
                assert(self@ == old(self)@.session_opened(accessed_at(given, time), id));
            },
            Err(message) => {
                self.mode = Mode::ConnectError { alias: host.alias, message };
            },
        }
    }

    /// The label of the next local session: the first of `local-1`, `local-2`
    /// and so on that no session has.
    pub fn next_local_label(&self) -> (label: String)
        requires
            self@.sessions.len() < usize::MAX,
        ensures
            label@ == next_label(self@),
            is_next_label(self@, label@),
    {
        let mut n: u64 = 1;
        loop
            invariant
                1 <= n <= self.sessions@.len() + 1,
                self.sessions@.len() == self@.sessions.len(),
                self@.sessions.len() < usize::MAX,
                forall|m: nat| 1 <= m < n ==> has_label(self@, #[trigger] local_label(m)),
            decreases self.sessions@.len() + 1 - n,
        {
            let number = decimal_string(n);
            let label = concat("local-", number.as_str());
            if !self.alias_in_use(label.as_str()) {
                proof {
                    assert(label@ == local_label(n as nat));
                    lemma_next_label_is(self@, label@, n as nat);
                }
                return label;
            }
            proof {
                self.lemma_labels_fit(n as nat);
            }
            n = n + 1;
        }
    }

    fn alias_in_use(&self, alias: &str) -> (used: bool)
        ensures
            used == has_label(self@, alias@),
    {
        for i in 0..self.sessions.len()
            invariant
                forall|k: int| 0 <= k < i ==> (#[trigger] self@.sessions[k]).alias != alias@,
        {
            assert(self@.sessions[i as int] == self.sessions@[i as int]@);
            if same_text(self.sessions[i].alias(), alias) {
                return true;
            }
        }
        false
    }

    proof fn lemma_labels_fit(&self, n: nat)
        requires
            forall|m: nat| 1 <= m <= n ==> has_label(self@, #[trigger] local_label(m)),
        ensures
            n <= self@.sessions.len(),
    {
        // each label up to n is the alias of a session of its own
        let holder = |m: int|
            choose|i: int|
                0 <= i < self@.sessions.len() && (#[trigger] self@.sessions[i]).alias
                    == local_label(m as nat);
        let labels = Set::new(|m: int| 1 <= m <= n);
        let holders = labels.map(holder);
        assert forall|m: int| 1 <= m <= n implies 0 <= #[trigger] holder(m)
            < self@.sessions.len() && self@.sessions[holder(m)].alias == local_label(
            m as nat,
        ) by {
            assert(has_label(self@, local_label(m as nat)));
        }
        assert forall|a: int, b: int|
            labels.contains(a) && labels.contains(b) && #[trigger] holder(a) == #[trigger] holder(
                b,
            ) implies a == b by {
            assert(local_label(a as nat) == local_label(b as nat));
            lemma_local_labels_differ(a as nat, b as nat);
        }
        vstd::set_lib::lemma_int_range(1, n as int + 1);
        assert(labels =~= vstd::set_lib::set_int_range(1, n as int + 1));
        vstd::set_lib::lemma_map_size(labels, holders, holder);
        vstd::set_lib::lemma_int_range(0, self@.sessions.len() as int);
        let all = vstd::set_lib::set_int_range(0, self@.sessions.len() as int);
        assert(holders.subset_of(all));
        vstd::set_lib::lemma_len_subset(holders, all);
    }

    /// Records that a local session was started.
    pub fn record_local_session(&mut self, alias: String, id: u64)
        requires
            old(self)@.wf(),
        ensures
            final(self)@ == old(self)@.with_session(id, alias@, SessionKind::Local),
            final(self)@.wf(),
    {
        self.add_session(id, alias, SessionKind::Local);
        proof {
            self.lemma_tabs_fit();
        }
    }

    /// Takes up that a local session could not be started, and why.
    pub fn local_session_failed(&mut self, alias: String, message: String)
        requires
            old(self)@.wf(),
        ensures
            final(self)@ == old(self)@.session_failed(alias@, message@),
            final(self)@.wf(),
    {
        self.mode = Mode::ConnectError { alias, message };
    }

    /// Starts a reachability check of the selected host, and returns the host to
    /// check.
    pub fn test_host(&mut self) -> (host: Option<Host>)
        requires
            old(self)@.wf(),
        ensures
            (final(self)@, opt_host(host)) == old(self)@.test_host(),
            final(self)@.wf(),
    {
        let host = match self.selected_host() {
            Some(host) => host.clone(),
            None => {
                return None;
            },
        };
        self.mode = Mode::TestResult { alias: host.alias.clone(), status: TestStatus::Testing };
        Some(host)
    }

    /// Takes up the result of a reachability check, if it is still waited for.
    pub fn test_finished(&mut self, status: TestStatus)
        requires
            old(self)@.wf(),
        ensures
            final(self)@ == old(self)@.test_finished(status@),
            final(self)@.wf(),
    {
        if let Mode::TestResult { alias, .. } = &self.mode {
            let alias = alias.clone();
            self.mode = Mode::TestResult { alias, status };
        }
    }

    /// Shows the host browser.
    pub fn switch_to_hosts(&mut self)
        requires
            old(self)@.wf(),
        ensures
            final(self)@ == (AppView { view: screen::View::Hosts, ..old(self)@ }),
            final(self)@.wf(),
    {
        self.view = screen::View::Hosts;
    }

    fn remove_session(&mut self, i: usize)
        requires
            old(self)@.view_exists(),
            i < old(self)@.sessions.len(),
        ensures
            final(self)@ == old(self)@.without_session(i as int),
            final(self)@.view_exists(),
    {
        let ghost before = self.sessions@;
        self.sessions.remove(i);
        assert(session_views(self.sessions@) =~= session_views(before).remove(i as int));
        if let screen::View::Session(idx) = self.view {
            if idx == i {
                if self.sessions.len() == 0 {
                    self.view = screen::View::Hosts;
                } else if i >= self.sessions.len() {
                    self.view = screen::View::Session(self.sessions.len() - 1);
                }
            } else if idx > i {
                self.view = screen::View::Session(idx - 1);
            }
        }
    }

    /// Removes the sessions whose program has ended, and repairs the view.
    pub fn close_exited_sessions(&mut self)
        requires
            old(self)@.wf(),
        ensures
            final(self)@ == old(self)@.close_exited_from(0),
            final(self)@.wf(),
    {
        let ghost given = self@;
        let mut i: usize = 0;
        while i < self.sessions.len()
            invariant
                i <= self.sessions@.len(),
                self@.sessions.len() == self.sessions@.len(),
                given.close_exited_from(0) == self@.close_exited_from(i as int),
                self@.wf(),
            decreases self.sessions@.len() - i,
        {
            assert(self@.sessions[i as int] == self.sessions@[i as int]@);
            if let SessionStatus::Exited(_) = self.sessions[i].status() {
                self.remove_session(i);
            } else {
                i = i + 1;
            }
            assert(self@.sessions.len() == self.sessions@.len());
        }
    }

    /// Records what was seen of the sessions, in order.
    pub fn poll_sessions(&mut self, seen: &Vec<(bool, Option<bool>)>)
        requires
            old(self)@.wf(),
        ensures
            final(self)@ == old(self)@.sessions_seen(seen@),
            final(self)@.wf(),
    {
        let ghost given = self@;
        let n = self.sessions.len();
        let mut i: usize = 0;
        while i < n && i < seen.len()
            invariant
                i <= n,
                i <= seen@.len(),
                n == self.sessions@.len(),
                given.wf(),
                n == given.sessions.len(),
                self@ == (AppView { sessions: self@.sessions, ..given }),
                forall|k: int|
                    0 <= k < i ==> #[trigger] self@.sessions[k] == given.sessions_seen(
                        seen@,
                    ).sessions[k],
                forall|k: int| i <= k < n ==> #[trigger] self@.sessions[k] == given.sessions[k],
            decreases n - i,
        {
            let ghost before = self.sessions@;
            let ghost prev = self@;
            assert(prev.sessions[i as int] == before[i as int]@);
            self.sessions[i].update_status(seen[i].0, seen[i].1);
            assert(self@.sessions =~= prev.sessions.update(
                i as int,
                given.sessions_seen(seen@).sessions[i as int],
            ));
            i = i + 1;
        }
        assert(self@.sessions =~= given.sessions_seen(seen@).sessions);
    }

    /// Closes the session that is shown.
    pub fn close_current_session(&mut self)
        requires
            old(self)@.wf(),
        ensures
            final(self)@ == old(self)@.close_current_session(),
            final(self)@.wf(),
    {
        if let screen::View::Session(idx) = self.view {
            if idx < self.sessions.len() {
                self.remove_session(idx);
            }
        }
    }

    /// Shows a session, and marks it as read.
    pub fn switch_to_session(&mut self, idx: usize)
        requires
            old(self)@.wf(),
        ensures
            final(self)@ == old(self)@.switch_to_session(idx as int),
            final(self)@.wf(),
    {
        if idx < self.sessions.len() {
            self.view = screen::View::Session(idx);
            let ghost before = self.sessions@;
            self.sessions[idx].set_unread(false);
            assert(session_views(self.sessions@) =~= session_views(before).update(
                idx as int,
                self.sessions@[idx as int]@,
            ));
        }
    }

    /// Shows a file browser.
    pub fn switch_to_file_transfer(&mut self, idx: usize)
        requires
            old(self)@.wf(),
        ensures
            final(self)@ == old(self)@.switch_to_file_transfer(idx as int),
            final(self)@.wf(),
    {
        if idx < self.file_transfers.len() {
            self.view = screen::View::FileTransfer(idx);
        }
    }

    /// The session that is shown, if one is.
    pub fn active_session_mut(&mut self) -> (session: Option<&mut Session>)
        ensures
            match session {
                Some(session) => old(self)@.view matches screen::View::Session(i) && i
                    < old(self)@.sessions.len() && session@ == old(self)@.sessions[i as int]
                    && final(self)@ == (AppView {
                    sessions: old(self)@.sessions.update(i as int, final(session)@),
                    ..old(self)@
                }),
                None => final(self)@ == old(self)@ && (old(self)@.view matches
                screen::View::Session(i) ==> i >= old(self)@.sessions.len()),
            },
    {
        match self.view {
            screen::View::Session(idx) => {
                if idx < self.sessions.len() {
                    let ghost before = self.sessions@;
                    let session = &mut self.sessions[idx];
                    assert(session_views(before.update(idx as int, *final(session)))
                        =~= session_views(before).update(idx as int, final(session)@));
                    Some(session)
                } else {
                    None
                }
            },
            _ => None,
        }
    }

    /// The number of the session that is shown, if one is.
    pub fn active_session_id(&self) -> (id: Option<u64>)
        ensures
            id == (match self@.active_session() {
                Some(session) => Some(session.id),
                None => None,
            }),
    {
        match self.view {
            screen::View::Session(idx) => {
                if idx < self.sessions.len() {
                    assert(self@.sessions[idx as int] == self.sessions@[idx as int]@);
                    Some(self.sessions[idx].id())
                } else {
                    None
                }
            },
            _ => None,
        }
    }

    /// The alias of the session that is shown, if one is.
    pub fn active_session_alias(&self) -> (alias: Option<String>)
        ensures
            opt_text(alias) == (match self@.active_session() {
                Some(session) => Some(session.alias),
                None => None,
            }),
    {
        match self.view {
            screen::View::Session(idx) => {
                if idx < self.sessions.len() {
                    assert(self@.sessions[idx as int] == self.sessions@[idx as int]@);
                    Some(self.sessions[idx].alias().to_string())
                } else {
                    None
                }
            },
            _ => None,
        }
    }

    /// Finds a host by its alias.
    pub fn find_host(&self, alias: &str) -> (host: Option<Host>)
        ensures
            opt_host(host) == self@.config.find(alias@),
    {
        match self.config.find(alias) {
            Some(host) => Some(host.clone()),
            None => None,
        }
    }

    /// Whether there is a session.
    pub fn has_active_sessions(&self) -> (yes: bool)
        ensures
            yes == (self@.sessions.len() > 0),
    {
        self.sessions.len() > 0
    }

    /// Whether there is anything besides the host browser to show.
    pub fn has_tabs(&self) -> (yes: bool)
        ensures
            yes == self@.has_tabs(),
    {
        self.sessions.len() > 0 || self.file_transfers.len() > 0
    }

    /// Shows the next tab, around the end.
    ///
    /// The host browser is the first tab. The sessions follow, and then the file
    /// browsers.
    pub fn next_tab(&mut self)
        requires
            old(self)@.wf(),
        ensures
            final(self)@ == old(self)@.next_tab(),
            final(self)@.wf(),
    {
        if !self.has_tabs() {
            return;
        }
        let ghost tab = (self@.current_tab() + 1) % self@.tab_count();
        proof {
            let (t, n) = (self@.current_tab(), self@.tab_count());
            if t + 1 < n {
                vstd::arithmetic::div_mod::lemma_small_mod((t + 1) as nat, n as nat);
            } else {
                vstd::arithmetic::div_mod::lemma_mod_self_0(n);
            }
            assert(tab == if t + 1 < n {
                t + 1
            } else {
                0
            });
            assert(self@.sessions.len() == self.sessions.len());
            assert(self@.file_transfers.len() == self.file_transfers.len());
        }
        match self.view {
            screen::View::Hosts => {
                if self.sessions.len() > 0 {
                    self.switch_to_session(0);
                } else {
                    self.switch_to_file_transfer(0);
                }
            },
            screen::View::Session(idx) => {
                if idx + 1 < self.sessions.len() {
                    self.switch_to_session(idx + 1);
                } else if self.file_transfers.len() > 0 {
                    self.switch_to_file_transfer(0);
                } else {
                    self.switch_to_hosts();
                }
            },
            screen::View::FileTransfer(idx) => {
                if idx + 1 < self.file_transfers.len() {
                    self.switch_to_file_transfer(idx + 1);
                } else {
                    self.switch_to_hosts();
                }
            },
        }
    }

    /// Shows the previous tab, around the start.
    pub fn prev_tab(&mut self)
        requires
            old(self)@.wf(),
        ensures
            final(self)@ == old(self)@.prev_tab(),
            final(self)@.wf(),
    {
        if !self.has_tabs() {
            return;
        }
        let ghost tab = (self@.current_tab() - 1) % self@.tab_count();
        proof {
            let (t, n) = (self@.current_tab(), self@.tab_count());
            if t > 0 {
                vstd::arithmetic::div_mod::lemma_small_mod((t - 1) as nat, n as nat);
            } else {
                vstd::arithmetic::div_mod::lemma_fundamental_div_mod_converse(-1, n, -1, n - 1);
            }
            assert(tab == if t > 0 {
                t - 1
            } else {
                n - 1
            });
            assert(self@.sessions.len() == self.sessions.len());
            assert(self@.file_transfers.len() == self.file_transfers.len());
        }
        match self.view {
            screen::View::Hosts => {
                if self.file_transfers.len() > 0 {
                    self.switch_to_file_transfer(self.file_transfers.len() - 1);
                } else {
                    self.switch_to_session(self.sessions.len() - 1);
                }
            },
            screen::View::Session(idx) => {
                if idx == 0 {
                    self.switch_to_hosts();
                } else {
                    self.switch_to_session(idx - 1);
                }
            },
            screen::View::FileTransfer(idx) => {
                if idx > 0 {
                    self.switch_to_file_transfer(idx - 1);
                } else if self.sessions.len() > 0 {
                    self.switch_to_session(self.sessions.len() - 1);
                } else {
                    self.switch_to_hosts();
                }
            },
        }
    }

    /// Drops the selection of text.
    pub fn clear_selection(&mut self)
        ensures
            final(self)@ == (AppView { selection: None, ..old(self)@ }),
    {
        self.selection = None;
    }

    /// Selects text.
    pub fn select(&mut self, selection: Selection)
        ensures
            final(self)@ == (AppView { selection: Some(selection), ..old(self)@ }),
    {
        self.selection = Some(selection);
    }

    /// Shows the clipboard notice. `now` is the time in milliseconds.
    pub fn show_clipboard_notice(&mut self, now: u64)
        ensures
            final(self)@ == old(self)@.notice_shown(now),
    {
        self.clipboard_notice_until = Some(now.saturating_add(NOTICE_MS));
    }

    /// Drops the clipboard notice once its time is over.
    pub fn clear_expired_notifications(&mut self, now: u64)
        ensures
            final(self)@ == (AppView {
                clipboard_notice_until: match old(self)@.clipboard_notice_until {
                    Some(until) => if now >= until {
                        None
                    } else {
                        Some(until)
                    },
                    None => None,
                },
                ..old(self)@
            }),
    {
        if let Some(until) = self.clipboard_notice_until {
            if now >= until {
                self.clipboard_notice_until = None;
            }
        }
    }

    /// Whether the clipboard notice is shown.
    pub fn clipboard_notice_visible(&self) -> (visible: bool)
        ensures
            visible == self@.clipboard_notice_until is Some,
    {
        self.clipboard_notice_until.is_some()
    }

    fn find_file_transfer(&self, alias: &str) -> (pos: Option<usize>)
        ensures
            match pos {
                Some(i) => self@.find_file_transfer(alias@) == Some(i as int) && i
                    < self@.file_transfers.len(),
                None => self@.find_file_transfer(alias@) is None,
            },
    {
        let ghost wanted = |b: BrowserView| b.alias == alias@;
        for i in 0..self.file_transfers.len()
            invariant
                wanted == (|b: BrowserView| b.alias == alias@),
                forall|k: int| 0 <= k < i ==> !wanted(#[trigger] self@.file_transfers[k]),
        {
            assert(self@.file_transfers[i as int] == self.file_transfers@[i as int]@);
            if same_text(self.file_transfers[i].alias.as_str(), alias) {
                proof {
                    lemma_position_is(self@.file_transfers, wanted, i as int);
                }
                return Some(i);
            }
        }
        proof {
            lemma_position_none(self@.file_transfers, wanted);
        }
        None
    }

    /// Opens a file browser for the selected host. Returns whether a new one was
    /// opened, which is then to be connected.
    pub fn open_file_transfer(&mut self) -> (is_new: bool)
        requires
            old(self)@.wf(),
        ensures
            final(self)@.wf(),
            match old(self)@.selected_host() {
                Some(host) => file_transfer_opened(old(self)@, host, final(self)@, is_new),
                None => final(self)@ == old(self)@ && !is_new,
            },
    {
        let host = match self.selected_host() {
            Some(host) => host.clone(),
            None => {
                return false;
            },
        };
        self.open_file_transfer_for_host(host)
    }

    /// Opens a file browser for a host. One that exists is shown instead.
    /// Returns whether a new one was opened, which is then to be connected.
    pub fn open_file_transfer_for_host(&mut self, host: Host) -> (is_new: bool)
        requires
            old(self)@.wf(),
        ensures
            final(self)@.wf(),
            file_transfer_opened(old(self)@, host@, final(self)@, is_new),
    {
        match self.find_file_transfer(host.alias.as_str()) {
            Some(idx) => {
                self.switch_to_file_transfer(idx);
                false
            },
            None => {
                let ghost before = self.file_transfers@;
                let browser = FileBrowser::new(host);
                assert(self@.file_transfers.len() == self.file_transfers.len());
                self.view = screen::View::FileTransfer(self.file_transfers.len());
                self.file_transfers.push(browser);
                assert(browser_views(self.file_transfers@) =~= browser_views(before).push(
                    browser@,
                ));
                let ghost home = choose|home: Option<Seq<char>>|
                    browser@ == opened(host@, #[trigger] start_path(home), seq![]);
                assert(self@ == old(self)@.with_file_transfer(
                    opened(host@, start_path(home), seq![]),
                ));
                proof {
                    self.lemma_tabs_fit();
                }
                true
            },
        }
    }

    /// Closes the file browser that is shown.
    pub fn close_current_file_transfer(&mut self)
        requires
            old(self)@.wf(),
        ensures
            final(self)@ == old(self)@.close_current_file_transfer(),
            final(self)@.wf(),
    {
        if let screen::View::FileTransfer(idx) = self.view {
            if idx < self.file_transfers.len() {
                let ghost before = self.file_transfers@;
                let ghost given = self@;
                self.file_transfers.remove(idx);
                assert(browser_views(self.file_transfers@) =~= browser_views(before).remove(
                    idx as int,
                ));
                if self.file_transfers.len() == 0 {
                    self.view = screen::View::Hosts;
                } else if idx >= self.file_transfers.len() {
                    self.view = screen::View::FileTransfer(self.file_transfers.len() - 1);
                }
                assert forall|i: int| 0 <= i < self@.file_transfers.len() implies (
                #[trigger] self@.file_transfers[i]).wf() by {
                    if i < idx {
                        assert(self@.file_transfers[i] == given.file_transfers[i]);
                    } else {
                        assert(self@.file_transfers[i] == given.file_transfers[i + 1]);
                    }
                }
            }
        }
    }

    /// The file browser that is shown, if one is.
    pub fn active_file_transfer_mut(&mut self) -> (browser: Option<&mut FileBrowser>)
        ensures
            match browser {
                Some(browser) => old(self)@.view matches screen::View::FileTransfer(i) && i
                    < old(self)@.file_transfers.len() && browser@
                    == old(self)@.file_transfers[i as int] && final(self)@
                    == old(self)@.with_browser(i as int, final(browser)@),
                None => final(self)@ == old(self)@ && (old(self)@.view matches
                screen::View::FileTransfer(i) ==> i >= old(self)@.file_transfers.len()),
            },
    {
        match self.view {
            screen::View::FileTransfer(idx) => {
                if idx < self.file_transfers.len() {
                    let ghost before = self.file_transfers@;
                    let browser = &mut self.file_transfers[idx];
                    assert(browser_views(before.update(idx as int, *final(browser)))
                        =~= browser_views(before).update(idx as int, final(browser)@));
                    Some(browser)
                } else {
                    None
                }
            },
            _ => None,
        }
    }

    /// Looks at the connection of every file browser.
    pub fn poll_file_transfers(&mut self)
        requires
            old(self)@.wf(),
        ensures
            final(self)@ == (AppView {
                file_transfers: old(self)@.file_transfers.map_values(|b: BrowserView| b.polled()),
                ..old(self)@
            }),
            final(self)@.wf(),
    {
        let ghost given = self@;
        let n = self.file_transfers.len();
        let mut i: usize = 0;
        while i < n
            invariant
                i <= n,
                n == self.file_transfers@.len(),
                given.wf(),
                n == given.file_transfers.len(),
                self@ == (AppView { file_transfers: self@.file_transfers, ..given }),
                forall|k: int|
                    0 <= k < i ==> #[trigger] self@.file_transfers[k]
                        == given.file_transfers[k].polled() && self@.file_transfers[k].wf(),
                forall|k: int|
                    i <= k < n ==> #[trigger] self@.file_transfers[k] == given.file_transfers[k],
            decreases n - i,
        {
            let ghost before = self.file_transfers@;
            let ghost prev = self@;
            assert(prev.file_transfers[i as int] == before[i as int]@);
            assert(prev.file_transfers[i as int] == given.file_transfers[i as int]);
            self.file_transfers[i].poll();
            assert(self@.file_transfers =~= prev.file_transfers.update(
                i as int,
                given.file_transfers[i as int].polled(),
            ));
            i = i + 1;
        }
        assert(self@.file_transfers =~= given.file_transfers.map_values(
            |b: BrowserView| b.polled(),
        ));
    }
}

/// The model of an optional host.
pub open spec fn opt_host(host: Option<Host>) -> Option<HostView> {
    match host {
        Some(host) => Some(host@),
        None => None,
    }
}

/// Whether a file browser for a host was opened: an existing one is shown, or a
/// new one in some local directory.
pub open spec fn file_transfer_opened(
    before: AppView,
    host: HostView,
    after: AppView,
    is_new: bool,
) -> bool {
    match before.open_existing_file_transfer(host.alias) {
        Some(app) => after == app && !is_new,
        None => is_new && exists|home: Option<Seq<char>>|
            after == before.with_file_transfer(opened(host, #[trigger] start_path(home), seq![])),
    }
}

proof fn lemma_local_labels_differ(a: nat, b: nat)
    requires
        local_label(a) == local_label(b),
    ensures
        a == b,
{
    let start = "local-"@;
    assert(local_label(a).skip(start.len() as int) =~= decimal(a));
    assert(local_label(b).skip(start.len() as int) =~= decimal(b));
    crate::text::lemma_decimal(a);
    crate::text::lemma_decimal(b);
}

} // verus!
