//! What the keys do.
use vstd::prelude::*;
use crate::app::{file_transfer_opened, next_label, App, AppView, InputStateView, Mode, ModeView};
use crate::filebrowser::{
    BrowserModeView, BrowserView, FileBrowser, FileBrowserMode, FileBrowserPane,
};
use crate::form::{result_texts, EditorView, FormState, FormView};
use crate::input::{empty_input, handle_key, InputView};
use crate::keys::{encode, key_bytes, paste_key, pasted, KeyCode, KeyEvent, CONTROL};
use crate::model::{opt_text, Host, HostView};
use crate::screen;
use crate::screen::{Pane, PrefixState};
use crate::sftp::{SftpConnectionStatus, StatusView};
use crate::text::{chars_of, trim, trimmed};
use crate::transfer::{RequestView, TransferRequest};

verus! {

/// Why a directory is to be listed.
#[derive(Debug, Clone, Copy, PartialEq, Eq, Structural)]
pub enum ListPurpose {
    Enter,
    Parent,
}

/// What a file browser asks for after a key.
#[derive(Debug)]
pub enum BrowserAction {
    Nothing,
    /// Close the browser.
    Close,
    /// The prefix key of tab commands was pressed.
    Prefix,
    /// List a directory of the focused pane.
    List { path: String, purpose: ListPurpose },
    /// List the directories of both panes again.
    Refresh,
    /// Create a directory in the focused pane.
    MakeDir(String),
    /// Delete a file or a directory in the focused pane.
    Delete { path: String, is_dir: bool },
    /// Carry out a transfer.
    Transfer(TransferRequest),
    /// Connect, with a credential if there is one.
    Connect(Option<String>),
}

/// The model of what a file browser asks for.
#[verifier::ext_equal]
pub enum ActionView {
    Nothing,
    Close,
    Prefix,
    List { path: Seq<char>, purpose: ListPurpose },
    Refresh,
    MakeDir(Seq<char>),
    Delete { path: Seq<char>, is_dir: bool },
    Transfer(RequestView),
    Connect(Option<Seq<char>>),
}

impl View for BrowserAction {
    type V = ActionView;

    open spec fn view(&self) -> ActionView {
        match self {
            BrowserAction::Nothing => ActionView::Nothing,
            BrowserAction::Close => ActionView::Close,
            BrowserAction::Prefix => ActionView::Prefix,
            BrowserAction::List { path, purpose } => ActionView::List {
                path: path@,
                purpose: *purpose,
            },
            BrowserAction::Refresh => ActionView::Refresh,
            BrowserAction::MakeDir(path) => ActionView::MakeDir(path@),
            BrowserAction::Delete { path, is_dir } => ActionView::Delete {
                path: path@,
                is_dir: *is_dir,
            },
            BrowserAction::Transfer(request) => ActionView::Transfer(request@),
            BrowserAction::Connect(credential) => ActionView::Connect(opt_text(*credential)),
        }
    }
}

/// What is to be done outside after a key.
#[derive(Debug)]
pub enum Effect {
    Idle,
    /// Save the configuration, with the steps of `storage::persist`.
    Persist,
    /// Start a session with a host, and hand the outcome to `finish_open_session`.
    OpenSession(Host),
    /// Start a local session under a label.
    OpenLocal(String),
    /// Check whether a host can be reached.
    TestHost(Host),
    /// List the local directory of the new file browser, and connect it.
    ConnectFiles,
    /// Send bytes to a session.
    Send { session: u64, bytes: Vec<u8> },
    /// What the file browser that is shown asks for.
    Files(BrowserAction),
}

/// The model of what is to be done outside.
#[verifier::ext_equal]
pub enum EffectView {
    Idle,
    Persist,
    OpenSession(HostView),
    OpenLocal(Seq<char>),
    TestHost(HostView),
    ConnectFiles,
    Send { session: u64, bytes: Seq<u8> },
    Files(ActionView),
}

impl View for Effect {
    type V = EffectView;

    open spec fn view(&self) -> EffectView {
        match self {
            Effect::Idle => EffectView::Idle,
            Effect::Persist => EffectView::Persist,
            Effect::OpenSession(host) => EffectView::OpenSession(host@),
            Effect::OpenLocal(label) => EffectView::OpenLocal(label@),
            Effect::TestHost(host) => EffectView::TestHost(host@),
            Effect::ConnectFiles => EffectView::ConnectFiles,
            Effect::Send { session, bytes } => EffectView::Send {
                session: *session,
                bytes: bytes@,
            },
            Effect::Files(action) => EffectView::Files(action@),
        }
    }
}

// ---------------------------------------------------------------------------
// The list of SSH options
// ---------------------------------------------------------------------------

impl FormView {
    /// The form after a key while the list of options is open.
    ///
    /// The editor of an option takes the keys while it is open, and an option
    /// that changes drops the error. Otherwise the keys go through the list.
    pub open spec fn extras_key(self, key: KeyEvent) -> FormView {
        match self.extras_editor {
            Some(editor) => match editor.entry {
                Some(entry) => match key.code {
                    KeyCode::Esc => self.extras_cancel_entry(),
                    KeyCode::Enter => self.extras_commit_entry().0,
                    KeyCode::Tab | KeyCode::BackTab => self.with_editor(
                        EditorView { entry: Some(entry.toggled()), ..editor },
                    ),
                    _ => self.with_editor(
                        EditorView {
                            entry: Some(
                                entry.with_active_input(entry.active_input().after(key)),
                            ),
                            error: if entry.active_input().takes(key) {
                                None
                            } else {
                                editor.error
                            },
                            ..editor
                        },
                    ),
                },
                None => match key.code {
                    KeyCode::Esc => self.close_extras(),
                    KeyCode::Char('a') => self.extras_begin_add(),
                    KeyCode::Char('e') => self.extras_begin_edit(),
                    KeyCode::Char('d') => self.extras_delete_selected(),
                    KeyCode::Down | KeyCode::Char('j') => self.extras_move_down(),
                    KeyCode::Up | KeyCode::Char('k') => self.extras_move_up(),
                    _ => self,
                },
            },
            None => self,
        }
    }

    /// The form after a key in one of its fields.
    pub open spec fn field_key(self, key: KeyEvent) -> FormView {
        let typed = self.with_active_input(self.active_input().after(key));
        if self.active_input().takes(key) {
            typed.with_error(None)
        } else {
            typed
        }
    }

    /// The form after a key that neither submits nor closes it.
    pub open spec fn key(self, key: KeyEvent) -> FormView {
        match key.code {
            KeyCode::Tab | KeyCode::Down => self.next_field(),
            KeyCode::BackTab | KeyCode::Up => self.prev_field(),
            _ => if key.code == KeyCode::Char('k') && key.modifiers.has(CONTROL) {
                self.open_extras()
            } else {
                self.field_key(key)
            },
        }
    }
}

fn editor_typed(form: &mut FormState, key: KeyEvent)
    requires
        old(form)@.wf(),
        old(form)@.edits_existing(),
        old(form)@.extras_editor is Some,
        old(form)@.extras_editor->0.entry is Some,
        !(key.code is Esc || key.code is Enter || key.code is Tab || key.code is BackTab),
    ensures
        final(form)@ == old(form)@.extras_key(key),
        final(form)@.wf(),
        final(form)@.edits_existing(),
{
    if let Some(editor) = form.extras_editor_mut() {
        if let Some(entry) = editor.entry.as_mut() {
            let taken = handle_key(entry.active_input(), key);
            if taken {
                editor.error = None;
            }
        }
    }
}

fn editor_toggled(form: &mut FormState)
    requires
        old(form)@.wf(),
        old(form)@.edits_existing(),
        old(form)@.extras_editor is Some,
        old(form)@.extras_editor->0.entry is Some,
    ensures
        final(form)@ == old(form)@.with_editor(
            EditorView {
                entry: Some(old(form)@.extras_editor->0.entry->0.toggled()),
                ..old(form)@.extras_editor->0
            },
        ),
        final(form)@.wf(),
        final(form)@.edits_existing(),
{
    if let Some(editor) = form.extras_editor_mut() {
        if let Some(entry) = editor.entry.as_mut() {
            entry.toggle_field();
        }
    }
}

fn form_extras_key(form: &mut FormState, key: KeyEvent)
    requires
        old(form)@.wf(),
        old(form)@.edits_existing(),
    ensures
        final(form)@ == old(form)@.extras_key(key),
        final(form)@.wf(),
        final(form)@.edits_existing(),
{
    let entry_open = match form.extras_editor_mut() {
        Some(editor) => editor.entry.is_some(),
        None => {
            return;
        },
    };
    if entry_open {
        match key.code {
            KeyCode::Esc => form.extras_cancel_entry(),
            KeyCode::Enter => {
                form.extras_commit_entry();
            },
            KeyCode::Tab | KeyCode::BackTab => editor_toggled(form),
            _ => editor_typed(form, key),
        }
    } else {
        match key.code {
            KeyCode::Esc => form.close_extras(),
            KeyCode::Char('a') => form.extras_begin_add(),
            KeyCode::Char('e') => form.extras_begin_edit(),
            KeyCode::Char('d') => form.extras_delete_selected(),
            KeyCode::Down | KeyCode::Char('j') => form.extras_move_down(),
            KeyCode::Up | KeyCode::Char('k') => form.extras_move_up(),
            _ => {},
        }
    }
}

impl AppView {
    /// The application after a change to the open form.
    pub open spec fn with_form(self, form: FormView) -> AppView {
        self.with_mode(self.mode.with_form(form))
    }

    /// The application after a key while the list of options is open.
    pub open spec fn extras_key(self, key: KeyEvent) -> AppView {
        match self.mode.form() {
            Some(form) => self.with_form(form.extras_key(key)),
            None => self,
        }
    }
}

/// Handles a key while the list of SSH options is open.
pub fn handle_extras_key(app: &mut App, key: KeyEvent)
    requires
        old(app)@.wf(),
    ensures
        final(app)@ == old(app)@.extras_key(key),
        final(app)@.wf(),
{
    if let Some(form) = app.form_state_mut() {
        form_extras_key(form, key);
    }
}

// ---------------------------------------------------------------------------
// The host browser
// ---------------------------------------------------------------------------

/// The session that a digit stands for: the first for 1.
pub open spec fn digit_session(c: char) -> Option<int> {
    if '1' <= c && c <= '9' {
        Some(c as int - '1' as int)
    } else {
        None
    }
}

fn session_of_digit(c: char) -> (idx: Option<usize>)
    ensures
        match idx {
            Some(i) => digit_session(c) == Some(i as int),
            None => digit_session(c) is None,
        },
{
    if '1' <= c && c <= '9' {
        let i: usize = (c as u32 - '1' as u32) as usize;
        Some(i)
    } else {
        None
    }
}

impl AppView {
    /// What is to be done after a form was submitted: the configuration is saved
    /// if it was changed.
    pub open spec fn persist_if_done(self) -> (AppView, EffectView) {
        (
            self,
            if self.mode is Normal && self.dirty {
                EffectView::Persist
            } else {
                EffectView::Idle
            },
        )
    }

    /// The tab commands that every view knows.
    pub open spec fn tab_command(self, key: KeyEvent) -> (AppView, EffectView) {
        match key.code {
            KeyCode::Char(c) => if digit_session(c) is Some {
                (self.switch_to_session(digit_session(c)->0), EffectView::Idle)
            } else if c == 'n' {
                (self.next_tab(), EffectView::Idle)
            } else if c == 'p' {
                (self.prev_tab(), EffectView::Idle)
            } else if c == '?' {
                (self.with_mode(ModeView::TabHelp), EffectView::Idle)
            } else if c == 's' && self.sessions.len() < usize::MAX {
                (self, EffectView::OpenLocal(next_label(self)))
            } else {
                (self, EffectView::Idle)
            },
            _ => (self, EffectView::Idle),
        }
    }

    /// The application without a pending prefix.
    pub open spec fn prefix_done(self) -> AppView {
        AppView { prefix: PrefixState::Inactive, ..self }
    }

    /// The application with the prefix pending.
    pub open spec fn prefix_pending(self) -> AppView {
        AppView { prefix: PrefixState::Pending, ..self }
    }

    /// The application with the search dropped, if the group pane has focus.
    pub open spec fn leave_search(self) -> AppView {
        if self.focus == Pane::Groups {
            self.cancel_search()
        } else {
            self
        }
    }

    /// A key in the host browser while nothing is open.
    pub open spec fn browse_key(self, key: KeyEvent, after: AppView, effect: EffectView) -> bool {
        let hosts = self.focus == Pane::Hosts;
        let idle = effect is Idle;
        let control = key.modifiers.has(CONTROL);
        match key.code {
            KeyCode::Char('q') => idle && after == (AppView { exit: true, ..self }),
            KeyCode::Esc => idle && after == (if self.search.text.len() == 0 {
                AppView { exit: true, ..self }
            } else {
                self.cancel_search()
            }),
            KeyCode::Char('j') | KeyCode::Down => idle && after == self.leave_search().move_down(),
            KeyCode::Char('k') | KeyCode::Up => idle && after == self.leave_search().move_up(),
            KeyCode::Tab => idle && after == (AppView {
                focus: if hosts {
                    Pane::Groups
                } else {
                    Pane::Hosts
                },
                ..self
            }),
            KeyCode::Right => idle && after == (AppView { focus: Pane::Hosts, ..self }),
            KeyCode::Left => idle && after == (AppView { focus: Pane::Groups, ..self }),
            KeyCode::Enter => if hosts {
                let opened = self.open_session();
                after == opened.0 && effect == (match opened.1 {
                    Some(host) => EffectView::OpenSession(host),
                    None => if self.dirty {
                        EffectView::Persist
                    } else {
                        EffectView::Idle
                    },
                })
            } else {
                idle && after == self
            },
            KeyCode::Char('a') => idle && after == (if hosts {
                self.start_adding()
            } else {
                self
            }),
            KeyCode::Char('c') => idle && after == (if hosts {
                self.start_add_from_host()
            } else {
                self
            }),
            KeyCode::Char('e') => idle && after == (if hosts {
                self.start_editing()
            } else {
                self.start_editing_group()
            }),
            KeyCode::Char('d') => idle && after == self.start_delete(),
            KeyCode::Char('g') => idle && after == (if hosts {
                self
            } else {
                self.start_adding_group()
            }),
            KeyCode::Char('/') => idle && after == (AppView {
                focus: Pane::Hosts,
                mode: ModeView::Searching,
                ..self
            }),
            KeyCode::Char('t') => if control {
                idle && after == (if self.has_tabs() {
                    self.prefix_pending()
                } else {
                    self
                })
            } else if hosts {
                let tested = self.test_host();
                after == tested.0 && effect == (match tested.1 {
                    Some(host) => EffectView::TestHost(host),
                    None => EffectView::Idle,
                })
            } else {
                idle && after == self
            },
            KeyCode::Char('f') => if hosts && self.selected_host() is Some {
                file_transfer_opened(
                    self,
                    self.selected_host()->0,
                    after,
                    effect is ConnectFiles,
                ) && (effect is ConnectFiles || idle)
            } else {
                idle && after == self
            },
            _ => idle && after == self,
        }
    }

    /// A key while the search is typed.
    pub open spec fn search_key(self, key: KeyEvent) -> AppView {
        match key.code {
            KeyCode::Esc => self.cancel_search(),
            KeyCode::Enter => self.with_mode(ModeView::Normal),
            KeyCode::Down => self.move_down(),
            KeyCode::Up => self.move_up(),
            _ => {
                let typed = AppView { search: self.search.after(key), ..self };
                if self.search.takes(key) {
                    typed.refresh_search()
                } else {
                    typed
                }
            },
        }
    }

    /// A key while a host form is open.
    pub open spec fn form_key(
        self,
        form: FormView,
        key: KeyEvent,
        env_user: Result<Seq<char>, Seq<char>>,
    ) -> (AppView, EffectView) {
        if form.extras_editor is Some {
            (self.extras_key(key), EffectView::Idle)
        } else {
            match key.code {
                KeyCode::Esc => (self.with_mode(ModeView::Normal), EffectView::Idle),
                KeyCode::Enter => self.submit_form(env_user).persist_if_done(),
                _ => (self.with_form(form.key(key)), EffectView::Idle),
            }
        }
    }

    /// A key while a group's name is typed.
    pub open spec fn group_key(
        self,
        input: InputStateView,
        key: KeyEvent,
        env_user: Result<Seq<char>, Seq<char>>,
    ) -> (AppView, EffectView) {
        match key.code {
            KeyCode::Esc => (self.with_mode(ModeView::Normal), EffectView::Idle),
            KeyCode::Enter => self.submit_form(env_user).persist_if_done(),
            _ => (
                self.with_mode(
                    self.mode.with_input(
                        InputStateView {
                            buffer: input.buffer.after(key),
                            error: if input.buffer.takes(key) {
                                None
                            } else {
                                input.error
                            },
                        },
                    ),
                ),
                EffectView::Idle,
            ),
        }
    }

    /// A key while a deletion is asked about.
    pub open spec fn confirm_key(self, key: KeyEvent) -> (AppView, EffectView) {
        match key.code {
            KeyCode::Char('y') => (self.confirm_delete(), EffectView::Persist),
            KeyCode::Char('n') | KeyCode::Esc => (
                self.with_mode(ModeView::Normal),
                EffectView::Idle,
            ),
            _ => (self, EffectView::Idle),
        }
    }

    /// What a key does in the host browser.
    pub open spec fn hosts_key(
        self,
        key: KeyEvent,
        env_user: Result<Seq<char>, Seq<char>>,
        after: AppView,
        effect: EffectView,
    ) -> bool {
        match self.mode {
            ModeView::Normal => if self.prefix == PrefixState::Pending {
                (after, effect) == self.prefix_done().tab_command(key)
            } else {
                self.browse_key(key, after, effect)
            },
            ModeView::Searching => after == self.search_key(key) && effect is Idle,
            ModeView::Adding(form) => (after, effect) == self.form_key(form, key, env_user),
            ModeView::Editing { form, .. } => (after, effect) == self.form_key(
                form,
                key,
                env_user,
            ),
            ModeView::AddingGroup(input) => (after, effect) == self.group_key(
                input,
                key,
                env_user,
            ),
            ModeView::EditingGroup { input, .. } => (after, effect) == self.group_key(
                input,
                key,
                env_user,
            ),
            ModeView::ConnectError { .. } | ModeView::TestResult { .. } => effect is Idle && after
                == (if key.code is Enter || key.code is Esc {
                self.with_mode(ModeView::Normal)
            } else {
                self
            }),
            ModeView::TabHelp => effect is Idle && after == self.with_mode(ModeView::Normal),
            ModeView::ConfirmDelete(_) | ModeView::ConfirmDeleteGroup(_) => (after, effect)
                == self.confirm_key(key),
        }
    }
}

fn clone_user(env_user: &Result<String, String>) -> (r: Result<String, String>)
    ensures
        result_texts(r) == result_texts(*env_user),
{
    match env_user {
        Ok(user) => Ok(user.clone()),
        Err(e) => Err(e.clone()),
    }
}

/// Carries out a tab command.
fn tab_command(app: &mut App, key: KeyEvent) -> (effect: Effect)
    requires
        old(app)@.wf(),
    ensures
        (final(app)@, effect@) == old(app)@.tab_command(key),
        final(app)@.wf(),
{
    if let KeyCode::Char(c) = key.code {
        if let Some(idx) = session_of_digit(c) {
            app.switch_to_session(idx);
        } else if c == 'n' {
            app.next_tab();
        } else if c == 'p' {
            app.prev_tab();
        } else if c == '?' {
            app.show_tab_help();
        } else if c == 's' && app.session_count() < usize::MAX {
            let label = app.next_local_label();
            return Effect::OpenLocal(label);
        }
    }
    Effect::Idle
}

fn handle_browse_key(app: &mut App, key: KeyEvent) -> (effect: Effect)
    requires
        old(app)@.wf(),
    ensures
        old(app)@.browse_key(key, final(app)@, effect@),
        final(app)@.wf(),
{
    let hosts = app.focus() == Pane::Hosts;
    match key.code {
        KeyCode::Char('q') => app.quit(),
        KeyCode::Esc => {
            if app.search_is_empty() {
                app.quit();
            } else {
                app.cancel_search();
            }
        },
        KeyCode::Char('j') | KeyCode::Down => {
            if !hosts {
                app.cancel_search();
            }
            app.move_down();
        },
        KeyCode::Char('k') | KeyCode::Up => {
            if !hosts {
                app.cancel_search();
            }
            app.move_up();
        },
        KeyCode::Tab => app.toggle_focus(),
        KeyCode::Right => app.host_focus(),
        KeyCode::Left => app.group_focus(),
        KeyCode::Enter => {
            if hosts {
                let dirty = app.is_dirty();
                return match app.open_session() {
                    Some(host) => Effect::OpenSession(host),
                    None => if dirty {
                        Effect::Persist
                    } else {
                        Effect::Idle
                    },
                };
            }
        },
        KeyCode::Char('a') => {
            if hosts {
                app.start_adding();
            }
        },
        KeyCode::Char('c') => {
            if hosts {
                app.start_add_from_host();
            }
        },
        KeyCode::Char('e') => {
            if hosts {
                app.start_editing();
            } else {
                app.start_editing_group();
            }
        },
        KeyCode::Char('d') => app.start_delete(),
        KeyCode::Char('g') => {
            if !hosts {
                app.start_adding_group();
            }
        },
        KeyCode::Char('/') => app.start_search(),
        KeyCode::Char('t') => {
            if key.modifiers.contains(CONTROL) {
                if app.has_tabs() {
                    app.set_prefix(PrefixState::Pending);
                }
            } else if hosts {
                return match app.test_host() {
                    Some(host) => Effect::TestHost(host),
                    None => Effect::Idle,
                };
            }
        },
        KeyCode::Char('f') => {
            if hosts {
                if app.open_file_transfer() {
                    return Effect::ConnectFiles;
                }
            }
        },
        _ => {},
    }
    Effect::Idle
}

fn handle_search_key(app: &mut App, key: KeyEvent)
    requires
        old(app)@.wf(),
    ensures
        final(app)@ == old(app)@.search_key(key),
        final(app)@.wf(),
{
    match key.code {
        KeyCode::Esc => app.cancel_search(),
        KeyCode::Enter => app.commit_search(),
        KeyCode::Down => app.move_down(),
        KeyCode::Up => app.move_up(),
        _ => {
            if app.type_search(key) {
                app.refresh_search();
            }
        },
    }
}

fn submit(app: &mut App, env_user: &Result<String, String>) -> (effect: Effect)
    requires
        old(app)@.wf(),
    ensures
        (final(app)@, effect@) == old(app)@.submit_form(result_texts(*env_user)).persist_if_done(),
        final(app)@.wf(),
{
    app.submit_form(clone_user(env_user));
    if app.in_normal_mode() && app.is_dirty() {
        Effect::Persist
    } else {
        Effect::Idle
    }
}

fn form_key(form: &mut FormState, key: KeyEvent)
    requires
        old(form)@.wf(),
        old(form)@.edits_existing(),
    ensures
        final(form)@ == old(form)@.key(key),
        final(form)@.wf(),
        final(form)@.edits_existing(),
{
    match key.code {
        KeyCode::Tab | KeyCode::Down => form.next_field(),
        KeyCode::BackTab | KeyCode::Up => form.prev_field(),
        _ => {
            if key.code == KeyCode::Char('k') && key.modifiers.contains(CONTROL) {
                form.open_extras();
            } else {
                let taken = handle_key(form.active_input(), key);
                if taken {
                    form.set_error(None);
                }
            }
        },
    }
}

fn handle_form_key(app: &mut App, key: KeyEvent, env_user: &Result<String, String>) -> (effect:
    Effect)
    requires
        old(app)@.wf(),
        old(app)@.mode.form() is Some,
    ensures
        (final(app)@, effect@) == old(app)@.form_key(
            old(app)@.mode.form()->0,
            key,
            result_texts(*env_user),
        ),
        final(app)@.wf(),
{
    let extras_open = match app.form_state_mut() {
        Some(form) => form.extras_open(),
        None => false,
    };
    if extras_open {
        handle_extras_key(app, key);
        return Effect::Idle;
    }
    match key.code {
        KeyCode::Esc => app.cancel_mode(),
        KeyCode::Enter => {
            return submit(app, env_user);
        },
        _ => {
            if let Some(form) = app.form_state_mut() {
                form_key(form, key);
            }
        },
    }
    Effect::Idle
}

fn handle_group_key(app: &mut App, key: KeyEvent, env_user: &Result<String, String>) -> (effect:
    Effect)
    requires
        old(app)@.wf(),
        old(app)@.mode.input() is Some,
    ensures
        (final(app)@, effect@) == old(app)@.group_key(
            old(app)@.mode.input()->0,
            key,
            result_texts(*env_user),
        ),
        final(app)@.wf(),
{
    match key.code {
        KeyCode::Esc => app.cancel_mode(),
        KeyCode::Enter => {
            return submit(app, env_user);
        },
        _ => {
            if let Some(input) = app.input_state_mut() {
                let taken = handle_key(&mut input.buffer, key);
                if taken {
                    input.error = None;
                }
            }
        },
    }
    Effect::Idle
}

/// Handles a key in the host browser.
///
/// This covers navigation, the search, forms, confirmations, and the prefix of
/// tab commands. `env_user` is the user of the environment, for a form that is
/// submitted without one. Returns what is to be done outside.
pub fn handle_hosts_key(app: &mut App, key: KeyEvent, env_user: &Result<String, String>) -> (effect:
    Effect)
    requires
        old(app)@.wf(),
    ensures
        old(app)@.hosts_key(key, result_texts(*env_user), final(app)@, effect@),
        final(app)@.wf(),
{
    match app.mode() {
        Mode::Normal => {
            if app.prefix() == PrefixState::Pending {
                app.set_prefix(PrefixState::Inactive);
                tab_command(app, key)
            } else {
                handle_browse_key(app, key)
            }
        },
        Mode::Searching => {
            handle_search_key(app, key);
            Effect::Idle
        },
        Mode::Adding(_) | Mode::Editing { .. } => handle_form_key(app, key, env_user),
        Mode::AddingGroup(_) | Mode::EditingGroup { .. } => handle_group_key(app, key, env_user),
        Mode::ConnectError { .. } | Mode::TestResult { .. } => {
            match key.code {
                KeyCode::Enter | KeyCode::Esc => app.cancel_mode(),
                _ => {},
            }
            Effect::Idle
        },
        Mode::TabHelp => {
            app.cancel_mode();
            Effect::Idle
        },
        Mode::ConfirmDelete(_) | Mode::ConfirmDeleteGroup(_) => match key.code {
            KeyCode::Char('y') => {
                app.confirm_delete();
                Effect::Persist
            },
            KeyCode::Char('n') | KeyCode::Esc => {
                app.cancel_mode();
                Effect::Idle
            },
            _ => Effect::Idle,
        },
    }
}

// ---------------------------------------------------------------------------
// Sessions
// ---------------------------------------------------------------------------

impl AppView {
    /// What is to be done to send bytes to the session that is shown.
    pub open spec fn send(self, bytes: Seq<u8>) -> EffectView {
        match self.active_session() {
            Some(session) => EffectView::Send { session: session.id, bytes },
            None => EffectView::Idle,
        }
    }

    /// The host of the session that is shown.
    pub open spec fn session_host(self) -> Option<HostView> {
        match self.active_session() {
            Some(session) => self.config.find(session.alias),
            None => None,
        }
    }

    /// A tab command in a session.
    pub open spec fn session_command(self, key: KeyEvent, after: AppView, effect: EffectView) -> bool {
        match key.code {
            KeyCode::Char('h') | KeyCode::Char('0') => effect is Idle && after == (AppView {
                view: screen::View::Hosts,
                ..self
            }),
            KeyCode::Char('x') => effect is Idle && after == self.close_current_session(),
            KeyCode::Char('f') => match self.session_host() {
                Some(host) => file_transfer_opened(self, host, after, effect is ConnectFiles) && (
                effect is ConnectFiles || effect is Idle),
                None => effect is Idle && after == self,
            },
            _ => if key.code == KeyCode::Char('t') && key.modifiers.has(CONTROL) {
                after == self && effect == self.send(seq![0x14u8])
            } else {
                (after, effect) == self.tab_command(key)
            },
        }
    }

    /// What a key does in a session.
    ///
    /// The prefix key introduces a tab command, and pressed twice it is sent. All
    /// other keys are sent.
    pub open spec fn session_key(self, key: KeyEvent, after: AppView, effect: EffectView) -> bool {
        let cleared = AppView { selection: None, ..self };
        if self.mode is TabHelp {
            effect is Idle && after == cleared.with_mode(ModeView::Normal)
        } else if self.prefix == PrefixState::Pending {
            cleared.prefix_done().session_command(key, after, effect)
        } else if key.code == KeyCode::Char('t') && key.modifiers.has(CONTROL) {
            effect is Idle && after == cleared.prefix_pending()
        } else {
            after == cleared && effect == (match key_bytes(key) {
                Some(bytes) => cleared.send(bytes),
                None => EffectView::Idle,
            })
        }
    }
}

fn send(app: &App, bytes: Vec<u8>) -> (effect: Effect)
    ensures
        effect@ == app@.send(bytes@),
{
    match app.active_session_id() {
        Some(session) => Effect::Send { session, bytes },
        None => Effect::Idle,
    }
}

fn session_command(app: &mut App, key: KeyEvent) -> (effect: Effect)
    requires
        old(app)@.wf(),
    ensures
        old(app)@.session_command(key, final(app)@, effect@),
        final(app)@.wf(),
{
    match key.code {
        KeyCode::Char('h') | KeyCode::Char('0') => {
            app.switch_to_hosts();
            Effect::Idle
        },
        KeyCode::Char('x') => {
            app.close_current_session();
            Effect::Idle
        },
        KeyCode::Char('f') => {
            if let Some(alias) = app.active_session_alias() {
                if let Some(host) = app.find_host(alias.as_str()) {
                    if app.open_file_transfer_for_host(host) {
                        return Effect::ConnectFiles;
                    }
                }
            }
            Effect::Idle
        },
        _ => {
            if key.code == KeyCode::Char('t') && key.modifiers.contains(CONTROL) {
                let bytes: Vec<u8> = vec![0x14];
                assert(bytes@ =~= seq![0x14u8]);
                send(app, bytes)
            } else {
                tab_command(app, key)
            }
        },
    }
}

/// Handles a key while a session is shown.
pub fn handle_session_key(app: &mut App, key: &KeyEvent) -> (effect: Effect)
    requires
        old(app)@.wf(),
    ensures
        old(app)@.session_key(*key, final(app)@, effect@),
        final(app)@.wf(),
{
    app.clear_selection();
    if matches!(app.mode(), Mode::TabHelp) {
        app.cancel_mode();
        return Effect::Idle;
    }
    if app.prefix() == PrefixState::Pending {
        app.set_prefix(PrefixState::Inactive);
        return session_command(app, *key);
    }
    if key.code == KeyCode::Char('t') && key.modifiers.contains(CONTROL) {
        app.set_prefix(PrefixState::Pending);
        return Effect::Idle;
    }
    match encode(key) {
        Some(bytes) => send(app, bytes),
        None => Effect::Idle,
    }
}

// ---------------------------------------------------------------------------
// File browsers
// ---------------------------------------------------------------------------

impl BrowserView {
    /// The browser in another mode.
    pub open spec fn with_mode(self, mode: BrowserModeView) -> BrowserView {
        BrowserView { mode, ..self }
    }

    /// The browser with another search in a pane.
    pub open spec fn with_search(self, pane: FileBrowserPane, search: InputView) -> BrowserView {
        match pane {
            FileBrowserPane::Local => BrowserView { local_search: search, ..self },
            FileBrowserPane::Remote => BrowserView { remote_search: search, ..self },
        }
    }

    /// What is asked for to transfer the selected entry.
    pub open spec fn transfer_action(self) -> (BrowserView, ActionView) {
        let begun = self.begin_transfer();
        (
            begun.0,
            match begun.1 {
                Some(request) => ActionView::Transfer(request),
                None => ActionView::Nothing,
            },
        )
    }

    /// A key while nothing is open. A directory is entered, and a file is
    /// transferred. Any key drops the error.
    pub open spec fn normal_key(self, key: KeyEvent) -> (BrowserView, ActionView) {
        let s = BrowserView { error: None, ..self };
        let control = key.modifiers.has(CONTROL);
        match key.code {
            KeyCode::Char('j') | KeyCode::Down => (s.move_down(), ActionView::Nothing),
            KeyCode::Char('k') | KeyCode::Up => (s.move_up(), ActionView::Nothing),
            KeyCode::Enter => match s.enter_target() {
                Some(path) => (s, ActionView::List { path, purpose: ListPurpose::Enter }),
                None => match s.selected_entry() {
                    Some(entry) => if entry.is_dir {
                        (s, ActionView::Nothing)
                    } else {
                        s.transfer_action()
                    },
                    None => (s, ActionView::Nothing),
                },
            },
            KeyCode::Char('y') => s.transfer_action(),
            KeyCode::Backspace | KeyCode::Char('h') => if control {
                (s, ActionView::Nothing)
            } else {
                match s.parent_target() {
                    Some(path) => (s, ActionView::List { path, purpose: ListPurpose::Parent }),
                    None => (s, ActionView::Nothing),
                }
            },
            KeyCode::Tab => (BrowserView { focus: s.other_pane(), ..s }, ActionView::Nothing),
            KeyCode::Char('.') => (
                (BrowserView { show_hidden: !s.show_hidden, ..s }).clamp(),
                ActionView::Nothing,
            ),
            KeyCode::Char('s') => (
                (BrowserView { sort_by: s.sort_by.following(), ..s }).resort(),
                ActionView::Nothing,
            ),
            KeyCode::Char('S') => (
                (BrowserView { sort_ascending: !s.sort_ascending, ..s }).resort(),
                ActionView::Nothing,
            ),
            KeyCode::Char('r') => (s, ActionView::Refresh),
            KeyCode::Char('m') => (
                s.with_mode(BrowserModeView::Creating(InputView::empty())),
                ActionView::Nothing,
            ),
            KeyCode::Char('d') => match s.selected_entry() {
                Some(entry) => (
                    s.with_mode(
                        BrowserModeView::ConfirmDelete { name: entry.name, is_dir: entry.is_dir },
                    ),
                    ActionView::Nothing,
                ),
                None => (s, ActionView::Nothing),
            },
            KeyCode::Char('/') => (
                s.with_mode(BrowserModeView::Searching(s.focus)),
                ActionView::Nothing,
            ),
            KeyCode::Char('R') => if s.connection_status is Failed {
                (
                    BrowserView { connection_status: StatusView::Connecting, ..s },
                    ActionView::Connect(None),
                )
            } else {
                (s, ActionView::Nothing)
            },
            KeyCode::Esc => (s, ActionView::Close),
            KeyCode::Char('t') => if control {
                (s, ActionView::Prefix)
            } else {
                (s, ActionView::Nothing)
            },
            _ => (s, ActionView::Nothing),
        }
    }

    /// A key while a password is asked for.
    pub open spec fn password_key(self, input: InputView, key: KeyEvent) -> (BrowserView, ActionView) {
        match key.code {
            KeyCode::Esc => (
                BrowserView {
                    connection_status: StatusView::Failed("Authentication cancelled"@),
                    mode: BrowserModeView::Normal,
                    ..self
                },
                ActionView::Nothing,
            ),
            KeyCode::Enter => (
                BrowserView {
                    connection_status: StatusView::Connecting,
                    mode: BrowserModeView::Normal,
                    ..self
                },
                ActionView::Connect(Some(input.text)),
            ),
            _ => (
                self.with_mode(BrowserModeView::PasswordPrompt(input.after(key))),
                ActionView::Nothing,
            ),
        }
    }

    /// A key while the name of a new directory is asked for.
    pub open spec fn mkdir_key(self, input: InputView, key: KeyEvent) -> (BrowserView, ActionView) {
        let normal = self.with_mode(BrowserModeView::Normal);
        let name = trim(input.text);
        match key.code {
            KeyCode::Esc => (normal, ActionView::Nothing),
            KeyCode::Enter => if name.len() == 0 {
                (normal, ActionView::Nothing)
            } else if self.focus == FileBrowserPane::Remote && !self.connected {
                (
                    BrowserView { error: Some("mkdir failed: "@ + "Not connected"@), ..normal },
                    ActionView::Nothing,
                )
            } else {
                (normal, ActionView::MakeDir(self.path_of(name)))
            },
            _ => (
                self.with_mode(BrowserModeView::Creating(input.after(key))),
                ActionView::Nothing,
            ),
        }
    }

    /// A key while a search is typed.
    pub open spec fn search_key(self, pane: FileBrowserPane, key: KeyEvent) -> BrowserView {
        let search = self.search(pane);
        match key.code {
            KeyCode::Esc => self.with_search(pane, search.reset()).with_mode(
                BrowserModeView::Normal,
            ).clamp(),
            KeyCode::Enter => self.with_mode(BrowserModeView::Normal),
            _ => {
                let typed = self.with_search(pane, search.after(key));
                if search.takes(key) {
                    typed.clamp()
                } else {
                    typed
                }
            },
        }
    }

    /// What a key does in the browser.
    pub open spec fn files_key(self, key: KeyEvent) -> (BrowserView, ActionView) {
        let normal = self.with_mode(BrowserModeView::Normal);
        match self.mode {
            BrowserModeView::Normal => self.normal_key(key),
            BrowserModeView::PasswordPrompt(input) => self.password_key(input, key),
            BrowserModeView::Creating(input) => self.mkdir_key(input, key),
            BrowserModeView::ConfirmTransfer { file, direction } => match key.code {
                KeyCode::Char('y') | KeyCode::Enter => (
                    normal,
                    match self.confirmed_request(file, direction) {
                        Some(request) => ActionView::Transfer(request),
                        None => ActionView::Nothing,
                    },
                ),
                KeyCode::Char('n') | KeyCode::Esc => (normal, ActionView::Nothing),
                _ => (self, ActionView::Nothing),
            },
            BrowserModeView::ConfirmDelete { name, is_dir } => match key.code {
                KeyCode::Char('y') | KeyCode::Enter => (
                    normal,
                    ActionView::Delete { path: self.path_of(name), is_dir },
                ),
                KeyCode::Char('n') | KeyCode::Esc => (normal, ActionView::Nothing),
                _ => (self, ActionView::Nothing),
            },
            BrowserModeView::TransferError(_) => match key.code {
                KeyCode::Enter | KeyCode::Esc => (normal, ActionView::Nothing),
                _ => (self, ActionView::Nothing),
            },
            BrowserModeView::Searching(pane) => (self.search_key(pane, key), ActionView::Nothing),
        }
    }
}

fn transfer_action(ft: &mut FileBrowser) -> (action: BrowserAction)
    requires
        old(ft)@.wf(),
    ensures
        (final(ft)@, action@) == old(ft)@.transfer_action(),
        final(ft)@.wf(),
{
    match ft.begin_transfer() {
        Some(request) => BrowserAction::Transfer(request),
        None => BrowserAction::Nothing,
    }
}

/// Handles a key in a file browser while nothing is open.
fn handle_file_transfer_normal(ft: &mut FileBrowser, key: KeyEvent) -> (action: BrowserAction)
    requires
        old(ft)@.wf(),
    ensures
        (final(ft)@, action@) == old(ft)@.normal_key(key),
        final(ft)@.wf(),
{
    ft.error = None;
    match key.code {
        KeyCode::Char('j') | KeyCode::Down => ft.move_down(),
        KeyCode::Char('k') | KeyCode::Up => ft.move_up(),
        KeyCode::Enter => {
            if let Some(path) = ft.enter_dir() {
                return BrowserAction::List { path, purpose: ListPurpose::Enter };
            }
            let is_file = match ft.selected_entry() {
                Some(entry) => !entry.is_dir,
                None => false,
            };
            if is_file {
                return transfer_action(ft);
            }
        },
        KeyCode::Char('y') => {
            return transfer_action(ft);
        },
        KeyCode::Backspace | KeyCode::Char('h') => {
            if !key.modifiers.contains(CONTROL) {
                if let Some(path) = ft.go_parent() {
                    return BrowserAction::List { path, purpose: ListPurpose::Parent };
                }
            }
        },
        KeyCode::Tab => ft.toggle_focus(),
        KeyCode::Char('.') => ft.toggle_hidden(),
        KeyCode::Char('s') => ft.cycle_sort(),
        KeyCode::Char('S') => ft.toggle_sort_direction(),
        KeyCode::Char('r') => {
            return BrowserAction::Refresh;
        },
        KeyCode::Char('m') => {
            ft.mode = FileBrowserMode::Creating(empty_input());
        },
        KeyCode::Char('d') => {
            let selected = match ft.selected_entry() {
                Some(entry) => Some((entry.name.clone(), entry.is_dir)),
                None => None,
            };
            if let Some((name, is_dir)) = selected {
                ft.mode = FileBrowserMode::ConfirmDelete { name, is_dir };
            }
        },
        KeyCode::Char('/') => {
            ft.mode = FileBrowserMode::Searching(ft.focus);
        },
        KeyCode::Char('R') => {
            if matches!(ft.connection_status, SftpConnectionStatus::Failed(_)) {
                ft.connection_status = SftpConnectionStatus::Connecting;
                return BrowserAction::Connect(None);
            }
        },
        KeyCode::Esc => {
            return BrowserAction::Close;
        },
        KeyCode::Char('t') => {
            if key.modifiers.contains(CONTROL) {
                return BrowserAction::Prefix;
            }
        },
        _ => {},
    }
    BrowserAction::Nothing
}

/// Handles a key in a file browser while a password is asked for.
fn handle_file_transfer_password(ft: &mut FileBrowser, key: KeyEvent) -> (action: BrowserAction)
    requires
        old(ft)@.wf(),
        old(ft)@.mode is PasswordPrompt,
    ensures
        (final(ft)@, action@) == old(ft)@.password_key(old(ft)@.mode->PasswordPrompt_0, key),
        final(ft)@.wf(),
{
    match key.code {
        KeyCode::Esc => {
            ft.connection_status = SftpConnectionStatus::Failed(
                "Authentication cancelled".to_string(),
            );
            ft.mode = FileBrowserMode::Normal;
            BrowserAction::Nothing
        },
        KeyCode::Enter => {
            let password = match &ft.mode {
                FileBrowserMode::PasswordPrompt(input) => input.value().to_string(),
                _ => String::new(),
            };
            ft.connection_status = SftpConnectionStatus::Connecting;
            ft.mode = FileBrowserMode::Normal;
            BrowserAction::Connect(Some(password))
        },
        _ => {
            if let FileBrowserMode::PasswordPrompt(input) = &mut ft.mode {
                handle_key(input, key);
            }
            BrowserAction::Nothing
        },
    }
}

/// Handles a key in a file browser while the name of a directory is asked for.
fn handle_file_transfer_mkdir(ft: &mut FileBrowser, key: KeyEvent) -> (action: BrowserAction)
    requires
        old(ft)@.wf(),
        old(ft)@.mode is Creating,
    ensures
        (final(ft)@, action@) == old(ft)@.mkdir_key(old(ft)@.mode->Creating_0, key),
        final(ft)@.wf(),
{
    match key.code {
        KeyCode::Esc => {
            ft.mode = FileBrowserMode::Normal;
            BrowserAction::Nothing
        },
        KeyCode::Enter => {
            let name = match &ft.mode {
                FileBrowserMode::Creating(input) => trimmed(input.value()),
                _ => String::new(),
            };
            ft.mode = FileBrowserMode::Normal;
            if name.as_str().is_empty() {
                return BrowserAction::Nothing;
            }
            if ft.focus == FileBrowserPane::Remote && !ft.connected {
                ft.mkdir_failed("Not connected");
                return BrowserAction::Nothing;
            }
            BrowserAction::MakeDir(ft.path_of(name.as_str()))
        },
        _ => {
            if let FileBrowserMode::Creating(input) = &mut ft.mode {
                handle_key(input, key);
            }
            BrowserAction::Nothing
        },
    }
}

/// Handles a key in a file browser while a transfer is to be confirmed.
fn handle_file_transfer_confirm(ft: &mut FileBrowser, key: KeyEvent) -> (action: BrowserAction)
    requires
        old(ft)@.wf(),
        old(ft)@.mode is ConfirmTransfer,
    ensures
        (final(ft)@, action@) == old(ft)@.files_key(key),
        final(ft)@.wf(),
{
    match key.code {
        KeyCode::Char('y') | KeyCode::Enter => {
            let request = match &ft.mode {
                FileBrowserMode::ConfirmTransfer { file, direction } => ft.confirmed_request(
                    file.as_str(),
                    *direction,
                ),
                _ => None,
            };
            ft.mode = FileBrowserMode::Normal;
            match request {
                Some(request) => BrowserAction::Transfer(request),
                None => BrowserAction::Nothing,
            }
        },
        KeyCode::Char('n') | KeyCode::Esc => {
            ft.mode = FileBrowserMode::Normal;
            BrowserAction::Nothing
        },
        _ => BrowserAction::Nothing,
    }
}

/// Handles a key in a file browser while a deletion is to be confirmed.
fn handle_file_transfer_delete(ft: &mut FileBrowser, key: KeyEvent) -> (action: BrowserAction)
    requires
        old(ft)@.wf(),
        old(ft)@.mode is ConfirmDelete,
    ensures
        (final(ft)@, action@) == old(ft)@.files_key(key),
        final(ft)@.wf(),
{
    match key.code {
        KeyCode::Char('y') | KeyCode::Enter => {
            let action = match &ft.mode {
                FileBrowserMode::ConfirmDelete { name, is_dir } => BrowserAction::Delete {
                    path: ft.path_of(name.as_str()),
                    is_dir: *is_dir,
                },
                _ => BrowserAction::Nothing,
            };
            ft.mode = FileBrowserMode::Normal;
            action
        },
        KeyCode::Char('n') | KeyCode::Esc => {
            ft.mode = FileBrowserMode::Normal;
            BrowserAction::Nothing
        },
        _ => BrowserAction::Nothing,
    }
}

fn type_file_search(ft: &mut FileBrowser, pane: FileBrowserPane, key: KeyEvent) -> (taken: bool)
    requires
        old(ft)@.wf(),
    ensures
        final(ft)@ == old(ft)@.with_search(pane, old(ft)@.search(pane).after(key)),
        final(ft)@.wf(),
        taken == old(ft)@.search(pane).takes(key),
{
    match pane {
        FileBrowserPane::Local => handle_key(&mut ft.local_search, key),
        FileBrowserPane::Remote => handle_key(&mut ft.remote_search, key),
    }
}

/// Handles a key in a file browser while a search is typed.
fn handle_file_transfer_search(ft: &mut FileBrowser, pane: FileBrowserPane, key: KeyEvent)
    requires
        old(ft)@.wf(),
    ensures
        final(ft)@ == old(ft)@.search_key(pane, key),
        final(ft)@.wf(),
{
    match key.code {
        KeyCode::Esc => {
            match pane {
                FileBrowserPane::Local => ft.local_search.reset(),
                FileBrowserPane::Remote => ft.remote_search.reset(),
            }
            ft.mode = FileBrowserMode::Normal;
            ft.search_changed();
        },
        KeyCode::Enter => {
            ft.mode = FileBrowserMode::Normal;
        },
        _ => {
            if type_file_search(ft, pane, key) {
                ft.search_changed();
            }
        },
    }
}

/// Handles a key in a file browser.
pub fn handle_browser_key(ft: &mut FileBrowser, key: KeyEvent) -> (action: BrowserAction)
    requires
        old(ft)@.wf(),
    ensures
        (final(ft)@, action@) == old(ft)@.files_key(key),
        final(ft)@.wf(),
{
    match &ft.mode {
        FileBrowserMode::Normal => handle_file_transfer_normal(ft, key),
        FileBrowserMode::PasswordPrompt(_) => handle_file_transfer_password(ft, key),
        FileBrowserMode::Creating(_) => handle_file_transfer_mkdir(ft, key),
        FileBrowserMode::ConfirmTransfer { .. } => handle_file_transfer_confirm(ft, key),
        FileBrowserMode::ConfirmDelete { .. } => handle_file_transfer_delete(ft, key),
        FileBrowserMode::TransferError(_) => {
            match key.code {
                KeyCode::Enter | KeyCode::Esc => {
                    ft.mode = FileBrowserMode::Normal;
                },
                _ => {},
            }
            BrowserAction::Nothing
        },
        FileBrowserMode::Searching(pane) => {
            let pane = *pane;
            handle_file_transfer_search(ft, pane, key);
            BrowserAction::Nothing
        },
    }
}

impl AppView {
    /// A tab command in a file browser.
    pub open spec fn files_command(self, key: KeyEvent) -> (AppView, EffectView) {
        match key.code {
            KeyCode::Char('h') | KeyCode::Char('0') => (
                AppView { view: screen::View::Hosts, ..self },
                EffectView::Idle,
            ),
            KeyCode::Char('x') => (self.close_current_file_transfer(), EffectView::Idle),
            _ => self.tab_command(key),
        }
    }

    /// What a key does while a file browser is shown.
    pub open spec fn file_transfer_key(self, key: KeyEvent) -> (AppView, EffectView) {
        if self.prefix == PrefixState::Pending {
            self.prefix_done().files_command(key)
        } else {
            match self.view {
                screen::View::FileTransfer(i) => if i < self.file_transfers.len() {
                    let done = self.file_transfers[i as int].files_key(key);
                    let app = self.with_browser(i as int, done.0);
                    match done.1 {
                        ActionView::Nothing => (app, EffectView::Idle),
                        ActionView::Close => (app.close_current_file_transfer(), EffectView::Idle),
                        ActionView::Prefix => (app.prefix_pending(), EffectView::Idle),
                        action => (app, EffectView::Files(action)),
                    }
                } else {
                    (self, EffectView::Idle)
                },
                _ => (self, EffectView::Idle),
            }
        }
    }

    /// The keys of a pasted text in a file browser, up to the first one that
    /// asks for something outside. Also gives the position behind it.
    pub open spec fn file_transfer_paste(self, text: Seq<char>, from: int) -> (
        AppView,
        EffectView,
        int,
    )
        decreases text.len() - from,
    {
        if from < 0 || from >= text.len() {
            (self, EffectView::Idle, from)
        } else {
            let done = self.file_transfer_key(pasted(text[from]));
            if done.1 is Idle {
                done.0.file_transfer_paste(text, from + 1)
            } else {
                (done.0, done.1, from + 1)
            }
        }
    }
}

/// Handles a key while a file browser is shown.
pub fn handle_file_transfer_key(app: &mut App, key: KeyEvent) -> (effect: Effect)
    requires
        old(app)@.wf(),
    ensures
        (final(app)@, effect@) == old(app)@.file_transfer_key(key),
        final(app)@.wf(),
{
    if app.prefix() == PrefixState::Pending {
        app.set_prefix(PrefixState::Inactive);
        return match key.code {
            KeyCode::Char('h') | KeyCode::Char('0') => {
                app.switch_to_hosts();
                Effect::Idle
            },
            KeyCode::Char('x') => {
                app.close_current_file_transfer();
                Effect::Idle
            },
            _ => tab_command(app, key),
        };
    }
    let action = match app.active_file_transfer_mut() {
        Some(ft) => handle_browser_key(ft, key),
        None => {
            return Effect::Idle;
        },
    };
    match action {
        BrowserAction::Nothing => Effect::Idle,
        BrowserAction::Close => {
            app.close_current_file_transfer();
            Effect::Idle
        },
        BrowserAction::Prefix => {
            app.set_prefix(PrefixState::Pending);
            Effect::Idle
        },
        other => Effect::Files(other),
    }
}

// ---------------------------------------------------------------------------
// Pasted text
// ---------------------------------------------------------------------------

/// Whether a state follows from the one before it by a pasted character.
pub open spec fn paste_step(
    states: Seq<AppView>,
    text: Seq<char>,
    from: int,
    env_user: Result<Seq<char>, Seq<char>>,
    effect: EffectView,
    i: int,
) -> bool {
    states[i].hosts_key(
        pasted(text[from + i]),
        env_user,
        states[i + 1],
        if i == states.len() - 2 {
            effect
        } else {
            EffectView::Idle
        },
    )
}

/// Whether some states follow from each other by the characters of a pasted
/// text, and only the last one asks for something outside.
pub open spec fn paste_run(
    states: Seq<AppView>,
    text: Seq<char>,
    from: int,
    env_user: Result<Seq<char>, Seq<char>>,
    effect: EffectView,
) -> bool {
    &&& states.len() >= 1
    &&& states.len() == 1 ==> effect is Idle
    &&& forall|i: int|
        0 <= i < states.len() - 1 ==> #[trigger] paste_step(
            states,
            text,
            from,
            env_user,
            effect,
            i,
        )
}

/// Handles pasted text in the host browser, from a position on.
///
/// The characters are handled as keys, so that forms and searches check them as
/// they check typed ones. It stops behind the first one that asks for something
/// outside, and returns where it stopped.
pub fn handle_hosts_paste(
    app: &mut App,
    text: &str,
    from: usize,
    env_user: &Result<String, String>,
) -> (done: (usize, Effect))
    requires
        old(app)@.wf(),
        from <= text@.len(),
    ensures
        final(app)@.wf(),
        from <= done.0 <= text@.len(),
        done.1@ is Idle ==> done.0 == text@.len(),
        exists|states: Seq<AppView>| #[trigger]
            paste_run(states, text@, from as int, result_texts(*env_user), done.1@) && states.len()
                == done.0 - from + 1 && states[0] == old(app)@ && states.last() == final(app)@,
{
    let chars = chars_of(text);
    let mut i: usize = from;
    let ghost mut states: Seq<AppView> = seq![app@];
    while i < chars.len()
        invariant
            chars@ == text@,
            from <= i <= chars@.len(),
            app@.wf(),
            states.len() == i - from + 1,
            states[0] == old(app)@,
            states.last() == app@,
            paste_run(states, text@, from as int, result_texts(*env_user), EffectView::Idle),
        decreases chars@.len() - i,
    {
        let ghost before = states;
        let effect = handle_hosts_key(app, paste_key(chars[i]), env_user);
        proof {
            states = before.push(app@);
            assert forall|k: int| 0 <= k < states.len() - 1 implies #[trigger] paste_step(
                states,
                text@,
                from as int,
                result_texts(*env_user),
                effect@,
                k,
            ) by {
                if k < before.len() - 1 {
                    assert(paste_step(
                        before,
                        text@,
                        from as int,
                        result_texts(*env_user),
                        EffectView::Idle,
                        k,
                    ));
                    assert(states[k] == before[k] && states[k + 1] == before[k + 1]);
                }
            }
            assert(paste_run(states, text@, from as int, result_texts(*env_user), effect@));
        }
        i = i + 1;
        if !matches!(effect, Effect::Idle) {
            return (i, effect);
        }
    }
    (i, Effect::Idle)
}

/// Handles pasted text in a file browser, from a position on.
///
/// It stops behind the first character that asks for something outside, and
/// returns where it stopped.
pub fn handle_file_transfer_paste(app: &mut App, text: &str, from: usize) -> (done: (usize, Effect))
    requires
        old(app)@.wf(),
        from <= text@.len(),
    ensures
        final(app)@.wf(),
        (final(app)@, done.1@, done.0 as int) == old(app)@.file_transfer_paste(text@, from as int),
{
    let chars = chars_of(text);
    let mut i: usize = from;
    while i < chars.len()
        invariant
            chars@ == text@,
            from <= i <= chars@.len(),
            app@.wf(),
            old(app)@.file_transfer_paste(text@, from as int) == app@.file_transfer_paste(
                text@,
                i as int,
            ),
        decreases chars@.len() - i,
    {
        let effect = handle_file_transfer_key(app, paste_key(chars[i]));
        i = i + 1;
        if !matches!(effect, Effect::Idle) {
            return (i, effect);
        }
    }
    (i, Effect::Idle)
}

} // verus!
