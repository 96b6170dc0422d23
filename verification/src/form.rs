//! The form that hosts are added and edited with.
use vstd::prelude::*;
use crate::input::{empty_input, input_view, InputView};
use crate::model::{clone_pairs, opt_text, pair_texts, Host, HostView};
use crate::text::{
    concat3, decimal, decimal_string, lemma_decimal_solid, lemma_port_round_trip, parse_port,
    port_of, same_text, trim, trimmed,
};
use tui_input::Input;

verus! {

/// The fields of the form, in the order in which they stand.
#[derive(Debug, Clone, Copy, PartialEq, Eq, Structural)]
pub enum Field {
    Alias,
    Hostname,
    User,
    Port,
    IdentityFile,
    Group,
    Details,
}

impl Field {
    /// The label of a field.
    pub open spec fn label_text(self) -> Seq<char> {
        match self {
            Field::Alias => "Alias"@,
            Field::Hostname => "Hostname"@,
            Field::User => "User"@,
            Field::Port => "Port"@,
            Field::IdentityFile => "Identity File"@,
            Field::Group => "Group"@,
            Field::Details => "Details"@,
        }
    }

    /// The position of a field in the form.
    pub open spec fn position(self) -> int {
        match self {
            Field::Alias => 0,
            Field::Hostname => 1,
            Field::User => 2,
            Field::Port => 3,
            Field::IdentityFile => 4,
            Field::Group => 5,
            Field::Details => 6,
        }
    }

    /// The label that the form shows.
    pub fn label(self) -> (label: &'static str)
        ensures
            label@ == self.label_text(),
    {
        match self {
            Field::Alias => "Alias",
            Field::Hostname => "Hostname",
            Field::User => "User",
            Field::Port => "Port",
            Field::IdentityFile => "Identity File",
            Field::Group => "Group",
            Field::Details => "Details",
        }
    }
}

/// Which input of the option editor is active.
#[derive(Debug, Clone, Copy, PartialEq, Eq, Structural)]
pub enum ExtraField {
    Key,
    Value,
}

/// The editor of one SSH option.
#[derive(Debug)]
pub struct ExtraEntryForm {
    pub key: Input,
    pub value: Input,
    pub active: ExtraField,
    /// `None` for a new option, and otherwise the position of the edited one.
    pub editing_index: Option<usize>,
}

/// The model of an option's editor.
#[verifier::ext_equal]
pub struct EntryFormView {
    pub key: InputView,
    pub value: InputView,
    pub active: ExtraField,
    pub editing_index: Option<usize>,
}

impl View for ExtraEntryForm {
    type V = EntryFormView;

    open spec fn view(&self) -> EntryFormView {
        EntryFormView {
            key: input_view(self.key),
            value: input_view(self.value),
            active: self.active,
            editing_index: self.editing_index,
        }
    }
}

impl EntryFormView {
    /// An empty editor for a new option.
    pub open spec fn blank() -> EntryFormView {
        EntryFormView {
            key: InputView::empty(),
            value: InputView::empty(),
            active: ExtraField::Key,
            editing_index: None,
        }
    }

    /// An editor that holds an existing option.
    pub open spec fn of_pair(index: usize, key: Seq<char>, value: Seq<char>) -> EntryFormView {
        EntryFormView {
            key: InputView::new(key),
            value: InputView::new(value),
            active: ExtraField::Key,
            editing_index: Some(index),
        }
    }

    /// The editor with the other input active.
    pub open spec fn toggled(self) -> EntryFormView {
        EntryFormView {
            active: match self.active {
                ExtraField::Key => ExtraField::Value,
                ExtraField::Value => ExtraField::Key,
            },
            ..self
        }
    }

    /// The input that is active.
    pub open spec fn active_input(self) -> InputView {
        match self.active {
            ExtraField::Key => self.key,
            ExtraField::Value => self.value,
        }
    }

    /// The editor with another active input.
    pub open spec fn with_active_input(self, input: InputView) -> EntryFormView {
        match self.active {
            ExtraField::Key => EntryFormView { key: input, ..self },
            ExtraField::Value => EntryFormView { value: input, ..self },
        }
    }
}

impl ExtraEntryForm {
    /// An empty editor for a new option.
    pub fn blank() -> (form: Self)
        ensures
            form@ == EntryFormView::blank(),
    {
        ExtraEntryForm {
            key: empty_input(),
            value: empty_input(),
            active: ExtraField::Key,
            editing_index: None,
        }
    }

    /// An editor that holds an existing option.
    pub fn from_pair(index: usize, key: &str, value: &str) -> (form: Self)
        ensures
            form@ == EntryFormView::of_pair(index, key@, value@),
    {
        ExtraEntryForm {
            key: Input::new(key.to_string()),
            value: Input::new(value.to_string()),
            active: ExtraField::Key,
            editing_index: Some(index),
        }
    }

    /// The input that is active.
    pub fn active_input(&mut self) -> (input: &mut Input)
        ensures
            input_view(*input) == old(self)@.active_input(),
            final(self)@ == old(self)@.with_active_input(input_view(*final(input))),
    {
        match self.active {
            ExtraField::Key => &mut self.key,
            ExtraField::Value => &mut self.value,
        }
    }

    /// Makes the other input active.
    pub fn toggle_field(&mut self)
        ensures
            final(self)@ == old(self)@.toggled(),
    {
        self.active = match self.active {
            ExtraField::Key => ExtraField::Value,
            ExtraField::Value => ExtraField::Key,
        };
    }
}

/// The list of SSH options, and the editor of one of them while it is open.
#[derive(Debug)]
pub struct ExtrasEditor {
    pub selected: usize,
    pub entry: Option<ExtraEntryForm>,
    pub error: Option<String>,
}

/// The model of the list of options.
#[verifier::ext_equal]
pub struct EditorView {
    pub selected: int,
    pub entry: Option<EntryFormView>,
    pub error: Option<Seq<char>>,
}

impl View for ExtrasEditor {
    type V = EditorView;

    open spec fn view(&self) -> EditorView {
        EditorView {
            selected: self.selected as int,
            entry: match self.entry {
                Some(entry) => Some(entry@),
                None => None,
            },
            error: opt_text(self.error),
        }
    }
}

impl EditorView {
    /// A list that was just opened.
    pub open spec fn opened() -> EditorView {
        EditorView { selected: 0, entry: None, error: None }
    }
}

impl Default for ExtrasEditor {
    fn default() -> (editor: Self)
        ensures
            editor@ == EditorView::opened(),
    {
        ExtrasEditor { selected: 0, entry: None, error: None }
    }
}

/// The state of the form.
#[derive(Debug)]
pub struct FormState {
    pub fields: Vec<(Field, Input)>,
    pub active: usize,
    pub error: Option<String>,
    pub extras: Vec<(String, String)>,
    pub extras_editor: Option<ExtrasEditor>,
    last_accessed: String,
}

/// The model of the form.
#[verifier::ext_equal]
pub struct FormView {
    pub fields: Seq<(Field, InputView)>,
    pub active: int,
    pub error: Option<Seq<char>>,
    pub extras: Seq<(Seq<char>, Seq<char>)>,
    pub extras_editor: Option<EditorView>,
    pub last_accessed: Seq<char>,
}

/// The models of the fields.
pub open spec fn field_views(fields: Seq<(Field, Input)>) -> Seq<(Field, InputView)> {
    fields.map_values(|f: (Field, Input)| (f.0, input_view(f.1)))
}

/// The model of the list of options, while it is open.
pub open spec fn opt_editor(editor: Option<ExtrasEditor>) -> Option<EditorView> {
    match editor {
        Some(editor) => Some(editor@),
        None => None,
    }
}

impl View for FormState {
    type V = FormView;

    closed spec fn view(&self) -> FormView {
        FormView {
            fields: field_views(self.fields@),
            active: self.active as int,
            error: opt_text(self.error),
            extras: pair_texts(self.extras@),
            extras_editor: opt_editor(self.extras_editor),
            last_accessed: self.last_accessed@,
        }
    }
}

/// The fields of a form that hold given texts.
pub open spec fn filled_fields(
    alias: Seq<char>,
    hostname: Seq<char>,
    user: Seq<char>,
    port: Seq<char>,
    identity_file: Seq<char>,
    group: Seq<char>,
    details: Seq<char>,
) -> Seq<(Field, InputView)> {
    seq![
        (Field::Alias, InputView::new(alias)),
        (Field::Hostname, InputView::new(hostname)),
        (Field::User, InputView::new(user)),
        (Field::Port, InputView::new(port)),
        (Field::IdentityFile, InputView::new(identity_file)),
        (Field::Group, InputView::new(group)),
        (Field::Details, InputView::new(details)),
    ]
}

/// A text, or nothing.
pub open spec fn or_empty(text: Option<Seq<char>>) -> Seq<char> {
    match text {
        Some(text) => text,
        None => seq![],
    }
}

/// Nothing, where a text is empty.
pub open spec fn non_empty(text: Seq<char>) -> Option<Seq<char>> {
    if text.len() == 0 {
        None
    } else {
        Some(text)
    }
}

/// Whether a list of options holds a key at another position.
pub open spec fn key_taken(
    extras: Seq<(Seq<char>, Seq<char>)>,
    key: Seq<char>,
    editing_index: Option<usize>,
) -> bool {
    exists|i: int|
        0 <= i < extras.len() && (#[trigger] extras[i]).0 == key && !(editing_index is Some
            && editing_index->0 == i)
}

impl FormView {
    /// A form for a new host in a group.
    pub open spec fn with_group(group: Seq<char>) -> FormView {
        FormView {
            fields: filled_fields(seq![], seq![], seq![], "22"@, seq![], group, seq![]),
            active: 0,
            error: None,
            extras: seq![],
            extras_editor: None,
            last_accessed: seq![],
        }
    }

    /// A form for a new host.
    pub open spec fn blank() -> FormView {
        FormView::with_group(seq![])
    }

    /// A form that holds an existing host.
    pub open spec fn from_host(host: HostView) -> FormView {
        FormView {
            fields: filled_fields(
                host.alias,
                host.hostname,
                host.user,
                decimal(host.port as nat),
                or_empty(host.identity_file),
                or_empty(host.group),
                host.details,
            ),
            active: 0,
            error: None,
            extras: host.extra,
            extras_editor: None,
            last_accessed: host.last_accessed,
        }
    }

    /// Whether the form has all its fields in order, and its selections lie
    /// within what there is to select.
    pub open spec fn wf(self) -> bool {
        &&& self.fields.len() == 7
        &&& forall|f: Field| #[trigger] self.fields[f.position()].0 == f
        &&& 0 <= self.active < 7
        &&& self.extras_editor matches Some(editor) ==> editor.selected == 0 || 0 < editor.selected
            < self.extras.len()
    }

    /// Whether the option that is being edited exists.
    pub open spec fn edits_existing(self) -> bool {
        self.extras_editor matches Some(editor) ==> editor.entry matches Some(entry)
            ==> entry.editing_index matches Some(i) ==> i < self.extras.len()
    }

    /// The text of a field, without white space around it.
    pub open spec fn text(self, field: Field) -> Seq<char> {
        trim(self.fields[field.position()].1.text)
    }

    /// The input of the active field.
    pub open spec fn active_input(self) -> InputView {
        self.fields[self.active].1
    }

    /// The form with another input in the active field.
    pub open spec fn with_active_input(self, input: InputView) -> FormView {
        FormView {
            fields: self.fields.update(self.active, (self.fields[self.active].0, input)),
            ..self
        }
    }

    /// The form with the next field active.
    pub open spec fn next_field(self) -> FormView {
        FormView { active: (self.active + 1) % 7, ..self }
    }

    /// The form with the previous field active.
    pub open spec fn prev_field(self) -> FormView {
        FormView {
            active: if self.active == 0 {
                6
            } else {
                self.active - 1
            },
            ..self
        }
    }

    /// The form with an error to show, or none.
    pub open spec fn with_error(self, error: Option<Seq<char>>) -> FormView {
        FormView { error, ..self }
    }

    /// The form with the list of options open.
    pub open spec fn open_extras(self) -> FormView {
        if self.extras_editor is None {
            FormView { extras_editor: Some(EditorView::opened()), ..self }
        } else {
            self
        }
    }

    /// The form with the list of options closed.
    pub open spec fn close_extras(self) -> FormView {
        FormView { extras_editor: None, ..self }
    }

    /// The form with another option list, if it is open.
    pub open spec fn with_editor(self, editor: EditorView) -> FormView {
        FormView { extras_editor: Some(editor), ..self }
    }

    /// The form with an editor for a new option.
    pub open spec fn extras_begin_add(self) -> FormView {
        match self.extras_editor {
            Some(editor) => self.with_editor(
                EditorView { entry: Some(EntryFormView::blank()), error: None, ..editor },
            ),
            None => self,
        }
    }

    /// The form with an editor for the selected option, if there is one.
    pub open spec fn extras_begin_edit(self) -> FormView {
        match self.extras_editor {
            Some(editor) => if editor.selected < self.extras.len() {
                let pair = self.extras[editor.selected];
                self.with_editor(
                    EditorView {
                        entry: Some(
                            EntryFormView::of_pair(editor.selected as usize, pair.0, pair.1),
                        ),
                        error: None,
                        ..editor
                    },
                )
            } else {
                self
            },
            None => self,
        }
    }

    /// The form without the selected option, if there is one.
    pub open spec fn extras_delete_selected(self) -> FormView {
        match self.extras_editor {
            Some(editor) => if editor.selected < self.extras.len() {
                let extras = self.extras.remove(editor.selected);
                FormView {
                    extras,
                    extras_editor: Some(
                        EditorView {
                            selected: if editor.selected >= extras.len() && extras.len() > 0 {
                                extras.len() - 1
                            } else {
                                editor.selected
                            },
                            ..editor
                        },
                    ),
                    ..self
                }
            } else {
                self
            },
            None => self,
        }
    }

    /// The form with the next option selected.
    pub open spec fn extras_move_down(self) -> FormView {
        match self.extras_editor {
            Some(editor) => if self.extras.len() > 0 {
                self.with_editor(
                    EditorView {
                        selected: (editor.selected + 1) % self.extras.len() as int,
                        ..editor
                    },
                )
            } else {
                self
            },
            None => self,
        }
    }

    /// The form with the previous option selected.
    pub open spec fn extras_move_up(self) -> FormView {
        match self.extras_editor {
            Some(editor) => if self.extras.len() > 0 {
                self.with_editor(
                    EditorView {
                        selected: if editor.selected == 0 {
                            self.extras.len() - 1
                        } else {
                            editor.selected - 1
                        },
                        ..editor
                    },
                )
            } else {
                self
            },
            None => self,
        }
    }

    /// Why an option cannot be taken over, if it cannot.
    pub open spec fn entry_error(self, entry: EntryFormView) -> Option<Seq<char>> {
        let key = trim(entry.key.text);
        if key.len() == 0 {
            Some("Key cannot be empty"@)
        } else if key_taken(self.extras, key, entry.editing_index) {
            Some("Key '"@ + key + "' already exists"@)
        } else {
            None
        }
    }

    /// The form after the open option was taken over, or with the reason why it
    /// was not. An edited option keeps its place, and a new one is selected.
    pub open spec fn extras_commit_entry(self) -> (FormView, bool) {
        match self.extras_editor {
            Some(editor) => match editor.entry {
                Some(entry) => match self.entry_error(entry) {
                    Some(error) => (
                        self.with_editor(EditorView { error: Some(error), ..editor }),
                        false,
                    ),
                    None => {
                        let pair = (trim(entry.key.text), trim(entry.value.text));
                        let done = EditorView { entry: None, error: None, ..editor };
                        match entry.editing_index {
                            Some(i) => (
                                FormView {
                                    extras: self.extras.update(i as int, pair),
                                    extras_editor: Some(done),
                                    ..self
                                },
                                true,
                            ),
                            None => (
                                FormView {
                                    extras: self.extras.push(pair),
                                    extras_editor: Some(
                                        EditorView { selected: self.extras.len() as int, ..done },
                                    ),
                                    ..self
                                },
                                true,
                            ),
                        }
                    },
                },
                None => (self, true),
            },
            None => (self, true),
        }
    }

    /// The form with the open option closed.
    pub open spec fn extras_cancel_entry(self) -> FormView {
        match self.extras_editor {
            Some(editor) => self.with_editor(EditorView { entry: None, error: None, ..editor }),
            None => self,
        }
    }

    /// The host that the form describes, or what is wrong with it.
    ///
    /// `env_user` is the user of the environment, who takes the place of an
    /// empty user. The first thing that is wrong counts: the alias, the host
    /// name, the user, the port.
    pub open spec fn to_host(self, env_user: Result<Seq<char>, Seq<char>>) -> Result<
        HostView,
        Seq<char>,
    > {
        let user = self.text(Field::User);
        if self.text(Field::Alias).len() == 0 {
            Err("Alias cannot be empty"@)
        } else if self.text(Field::Hostname).len() == 0 {
            Err("Hostname cannot be empty"@)
        } else if user.len() == 0 && env_user is Err {
            Err(env_user->Err_0)
        } else if parse_port(self.text(Field::Port)) is None {
            Err("Port must be a number (0-65535)"@)
        } else {
            Ok(
                HostView {
                    alias: self.text(Field::Alias),
                    hostname: self.text(Field::Hostname),
                    user: if user.len() == 0 {
                        env_user->Ok_0
                    } else {
                        user
                    },
                    port: parse_port(self.text(Field::Port))->0,
                    identity_file: non_empty(self.text(Field::IdentityFile)),
                    group: non_empty(self.text(Field::Group)),
                    extra: self.extras,
                    details: self.text(Field::Details),
                    last_accessed: self.last_accessed,
                },
            )
        }
    }
}

/// The model of a result whose sides are texts.
pub open spec fn result_texts(r: Result<String, String>) -> Result<Seq<char>, Seq<char>> {
    match r {
        Ok(s) => Ok(s@),
        Err(e) => Err(e@),
    }
}

fn text_or_none(text: String) -> (r: Option<String>)
    ensures
        opt_text(r) == non_empty(text@),
{
    if text.as_str().is_empty() {
        None
    } else {
        Some(text)
    }
}

fn opt_or_empty(text: &Option<String>) -> (s: String)
    ensures
        s@ == or_empty(opt_text(*text)),
{
    match text {
        Some(s) => s.clone(),
        None => String::new(),
    }
}

fn fill_fields(
    alias: String,
    hostname: String,
    user: String,
    port: String,
    identity_file: String,
    group: String,
    details: String,
) -> (fields: Vec<(Field, Input)>)
    ensures
        field_views(fields@) == filled_fields(
            alias@,
            hostname@,
            user@,
            port@,
            identity_file@,
            group@,
            details@,
        ),
{
    let mut fields: Vec<(Field, Input)> = Vec::new();
    fields.push((Field::Alias, Input::new(alias)));
    fields.push((Field::Hostname, Input::new(hostname)));
    fields.push((Field::User, Input::new(user)));
    fields.push((Field::Port, Input::new(port)));
    fields.push((Field::IdentityFile, Input::new(identity_file)));
    fields.push((Field::Group, Input::new(group)));
    fields.push((Field::Details, Input::new(details)));
    assert(field_views(fields@) =~= filled_fields(
        alias@,
        hostname@,
        user@,
        port@,
        identity_file@,
        group@,
        details@,
    ));
    fields
}

impl FormState {
    /// A form for a new host. The port is the usual one.
    pub fn blank() -> (form: Self)
        ensures
            form@ == FormView::blank(),
            form@.wf(),
            form@.edits_existing(),
    {
        let form = Self::with_group("");
        proof {
            reveal_strlit("");
            assert(""@ =~= seq![]);
        }
        form
    }

    /// A form for a new host in a group.
    pub fn with_group(group: &str) -> (form: Self)
        ensures
            form@ == FormView::with_group(group@),
            form@.wf(),
            form@.edits_existing(),
    {
        let fields = fill_fields(
            String::new(),
            String::new(),
            String::new(),
            "22".to_string(),
            String::new(),
            group.to_string(),
            String::new(),
        );
        let extras: Vec<(String, String)> = Vec::new();
        let form = FormState {
            fields,
            active: 0,
            error: None,
            extras,
            extras_editor: None,
            last_accessed: String::new(),
        };
        assert(form@ =~= FormView::with_group(group@));
        form
    }

    /// A form that holds an existing host.
    ///
    /// The time of the last access is kept apart from the fields, so that an
    /// edit does not lose it.
    pub fn from_host(host: &Host) -> (form: Self)
        ensures
            form@ == FormView::from_host(host@),
            form@.wf(),
            form@.edits_existing(),
    {
        let fields = fill_fields(
            host.alias.clone(),
            host.hostname.clone(),
            host.user.clone(),
            decimal_string(host.port as u64),
            opt_or_empty(&host.identity_file),
            opt_or_empty(&host.group),
            host.details.clone(),
        );
        let form = FormState {
            fields,
            active: 0,
            error: None,
            extras: clone_pairs(&host.extra),
            extras_editor: None,
            last_accessed: host.last_accessed.clone(),
        };
        assert(form@ =~= FormView::from_host(host@));
        form
    }

    /// Opens the list of SSH options, if it is not open.
    pub fn open_extras(&mut self)
        ensures
            final(self)@ == old(self)@.open_extras(),
            old(self)@.wf() ==> final(self)@.wf(),
            old(self)@.edits_existing() ==> final(self)@.edits_existing(),
    {
        if self.extras_editor.is_none() {
            self.extras_editor = Some(ExtrasEditor::default());
        }
    }

    /// Closes the list of SSH options.
    pub fn close_extras(&mut self)
        ensures
            final(self)@ == old(self)@.close_extras(),
            old(self)@.wf() ==> final(self)@.wf(),
            final(self)@.edits_existing(),
    {
        self.extras_editor = None;
    }

    /// The list of SSH options, if it is open.
    pub fn extras_editor_mut(&mut self) -> (editor: Option<&mut ExtrasEditor>)
        ensures
            match editor {
                Some(editor) => old(self)@.extras_editor == Some(editor@) && final(self)@
                    == old(self)@.with_editor(final(editor)@),
                None => old(self)@.extras_editor is None && final(self)@ == old(self)@,
            },
    {
        self.extras_editor.as_mut()
    }

    /// The fields with their inputs, in order.
    pub fn fields(&self) -> (fields: &Vec<(Field, Input)>)
        ensures
            field_views(fields@) == self@.fields,
    {
        &self.fields
    }

    /// The position of the active field.
    pub fn active_field(&self) -> (active: usize)
        ensures
            active == self@.active,
    {
        self.active
    }

    /// What is wrong with the form, if anything is.
    pub fn error(&self) -> (error: &Option<String>)
        ensures
            opt_text(*error) == self@.error,
    {
        &self.error
    }

    /// The SSH options.
    pub fn extras(&self) -> (extras: &Vec<(String, String)>)
        ensures
            pair_texts(extras@) == self@.extras,
    {
        &self.extras
    }

    /// The list of options, while it is open.
    pub fn extras_editor(&self) -> (editor: &Option<ExtrasEditor>)
        ensures
            opt_editor(*editor) == self@.extras_editor,
    {
        &self.extras_editor
    }

    /// Whether the list of SSH options is open.
    pub fn extras_open(&self) -> (open: bool)
        ensures
            open == self@.extras_editor is Some,
    {
        self.extras_editor.is_some()
    }

    /// Starts to add an option.
    pub fn extras_begin_add(&mut self)
        ensures
            final(self)@ == old(self)@.extras_begin_add(),
            old(self)@.wf() ==> final(self)@.wf(),
            old(self)@.edits_existing() ==> final(self)@.edits_existing(),
    {
        if let Some(editor) = self.extras_editor.as_mut() {
            editor.entry = Some(ExtraEntryForm::blank());
            editor.error = None;
        }
    }

    /// Starts to edit the selected option.
    pub fn extras_begin_edit(&mut self)
        ensures
            final(self)@ == old(self)@.extras_begin_edit(),
            old(self)@.wf() ==> final(self)@.wf(),
            old(self)@.edits_existing() ==> final(self)@.edits_existing(),
    {
        if let Some(editor) = self.extras_editor.as_mut() {
            if editor.selected < self.extras.len() {
                let pair = &self.extras[editor.selected];
                editor.entry = Some(
                    ExtraEntryForm::from_pair(editor.selected, pair.0.as_str(), pair.1.as_str()),
                );
                editor.error = None;
            }
        }
    }

    /// Deletes the selected option.
    pub fn extras_delete_selected(&mut self)
        ensures
            final(self)@ == old(self)@.extras_delete_selected(),
            old(self)@.wf() ==> final(self)@.wf(),
    {
        if let Some(editor) = self.extras_editor.as_mut() {
            if editor.selected < self.extras.len() {
                let ghost before = self.extras@;
                self.extras.remove(editor.selected);
                assert(pair_texts(self.extras@) =~= pair_texts(before).remove(
                    editor.selected as int,
                ));
                if editor.selected >= self.extras.len() && self.extras.len() > 0 {
                    editor.selected = self.extras.len() - 1;
                }
            }
        }
    }

    /// Selects the next option, wrapping at the end.
    pub fn extras_move_down(&mut self)
        requires
            old(self)@.wf(),
        ensures
            final(self)@ == old(self)@.extras_move_down(),
            final(self)@.wf(),
            old(self)@.edits_existing() ==> final(self)@.edits_existing(),
    {
        assert(self@.extras.len() == self.extras.len());
        if let Some(editor) = self.extras_editor.as_mut() {
            if self.extras.len() > 0 {
                editor.selected = (editor.selected + 1) % self.extras.len();
            }
        }
    }

    /// Selects the previous option, wrapping at the start.
    pub fn extras_move_up(&mut self)
        requires
            old(self)@.wf(),
        ensures
            final(self)@ == old(self)@.extras_move_up(),
            final(self)@.wf(),
            old(self)@.edits_existing() ==> final(self)@.edits_existing(),
    {
        if let Some(editor) = self.extras_editor.as_mut() {
            if self.extras.len() > 0 {
                editor.selected = if editor.selected == 0 {
                    self.extras.len() - 1
                } else {
                    editor.selected - 1
                };
            }
        }
    }

    /// Whether a key is taken by another option.
    fn key_is_taken(&self, key: &str, editing_index: Option<usize>) -> (taken: bool)
        ensures
            taken == key_taken(self@.extras, key@, editing_index),
    {
        for i in 0..self.extras.len()
            invariant
                forall|k: int|
                    0 <= k < i ==> !((#[trigger] self@.extras[k]).0 == key@ && !(
                    editing_index is Some && editing_index->0 == k)),
        {
            assert(self@.extras[i as int] == (
                self.extras@[i as int].0@,
                self.extras@[i as int].1@,
            ));
            let same = match editing_index {
                Some(e) => e == i,
                None => false,
            };
            if !same && same_text(self.extras[i].0.as_str(), key) {
                return true;
            }
        }
        false
    }

    /// Takes over the open option. Returns whether it could be taken over; if
    /// not, the list shows why.
    pub fn extras_commit_entry(&mut self) -> (committed: bool)
        requires
            old(self)@.edits_existing(),
        ensures
            (final(self)@, committed) == old(self)@.extras_commit_entry(),
            old(self)@.wf() ==> final(self)@.wf(),
            final(self)@.edits_existing(),
    {
        let (key, value, editing_index) = match &self.extras_editor {
            Some(editor) => match &editor.entry {
                Some(entry) => (
                    trimmed(entry.key.value()),
                    trimmed(entry.value.value()),
                    entry.editing_index,
                ),
                None => {
                    return true;
                },
            },
            None => {
                return true;
            },
        };
        let error = if key.as_str().is_empty() {
            Some("Key cannot be empty".to_string())
        } else if self.key_is_taken(key.as_str(), editing_index) {
            Some(concat3("Key '", key.as_str(), "' already exists"))
        } else {
            None
        };
        let ghost given = self@;
        let ghost before = self.extras@;
        if let Some(editor) = self.extras_editor.as_mut() {
            if error.is_some() {
                editor.error = error;
                return false;
            }
            match editing_index {
                Some(i) => {
                    self.extras[i] = (key, value);
                    assert(pair_texts(self.extras@) =~= pair_texts(before).update(
                        i as int,
                        (key@, value@),
                    ));
                },
                None => {
                    self.extras.push((key, value));
                    assert(pair_texts(self.extras@) =~= pair_texts(before).push((key@, value@)));
                    editor.selected = self.extras.len() - 1;
                },
            }
            editor.entry = None;
            editor.error = None;
        }
        true
    }

    /// Closes the open option without taking it over.
    pub fn extras_cancel_entry(&mut self)
        ensures
            final(self)@ == old(self)@.extras_cancel_entry(),
            old(self)@.wf() ==> final(self)@.wf(),
            final(self)@.edits_existing(),
    {
        if let Some(editor) = self.extras_editor.as_mut() {
            editor.entry = None;
            editor.error = None;
        }
    }

    /// The input of the active field.
    pub fn active_input(&mut self) -> (input: &mut Input)
        requires
            old(self)@.wf(),
        ensures
            input_view(*input) == old(self)@.active_input(),
            final(self)@ == old(self)@.with_active_input(input_view(*final(input))),
            final(self)@.wf(),
            old(self)@.edits_existing() ==> final(self)@.edits_existing(),
    {
        &mut self.fields[self.active].1
    }

    /// Makes the next field active, wrapping at the end.
    pub fn next_field(&mut self)
        requires
            old(self)@.wf(),
        ensures
            final(self)@ == old(self)@.next_field(),
            final(self)@.wf(),
            old(self)@.edits_existing() ==> final(self)@.edits_existing(),
    {
        self.active = (self.active + 1) % self.fields.len();
    }

    /// Makes the previous field active, wrapping at the start.
    pub fn prev_field(&mut self)
        requires
            old(self)@.wf(),
        ensures
            final(self)@ == old(self)@.prev_field(),
            final(self)@.wf(),
            old(self)@.edits_existing() ==> final(self)@.edits_existing(),
    {
        self.active = if self.active == 0 {
            self.fields.len() - 1
        } else {
            self.active - 1
        };
    }

    /// Sets the error that the form shows.
    pub fn set_error(&mut self, error: Option<String>)
        ensures
            final(self)@ == old(self)@.with_error(opt_text(error)),
            old(self)@.wf() ==> final(self)@.wf(),
            old(self)@.edits_existing() ==> final(self)@.edits_existing(),
    {
        self.error = error;
    }

    /// The text of a field, without white space around it.
    fn text(&self, field: Field) -> (text: String)
        requires
            self@.wf(),
        ensures
            text@ == self@.text(field),
    {
        let i: usize = match field {
            Field::Alias => 0,
            Field::Hostname => 1,
            Field::User => 2,
            Field::Port => 3,
            Field::IdentityFile => 4,
            Field::Group => 5,
            Field::Details => 6,
        };
        assert(self@.fields[i as int].1 == input_view(self.fields@[i as int].1));
        trimmed(self.fields[i].1.value())
    }

    /// Validates the form and converts it into a host.
    ///
    /// `env_user` is the user of the environment, who takes the place of an
    /// empty user. An empty identity file or group becomes `None`.
    pub fn to_host(&self, env_user: Result<String, String>) -> (host: Result<Host, String>)
        requires
            self@.wf(),
        ensures
            match host {
                Ok(host) => self@.to_host(result_texts(env_user)) == Ok::<HostView, Seq<char>>(
                    host@,
                ),
                Err(e) => self@.to_host(result_texts(env_user)) == Err::<HostView, Seq<char>>(e@),
            },
    {
        let alias = self.text(Field::Alias);
        if alias.as_str().is_empty() {
            return Err("Alias cannot be empty".to_string());
        }
        let hostname = self.text(Field::Hostname);
        if hostname.as_str().is_empty() {
            return Err("Hostname cannot be empty".to_string());
        }
        let typed = self.text(Field::User);
        let user = if typed.as_str().is_empty() {
            match env_user {
                Ok(user) => user,
                Err(e) => {
                    return Err(e);
                },
            }
        } else {
            typed
        };
        let port_text = self.text(Field::Port);
        let port = match port_of(port_text.as_str()) {
            Some(port) => port,
            None => {
                return Err("Port must be a number (0-65535)".to_string());
            },
        };
        let identity_file = text_or_none(self.text(Field::IdentityFile));
        let group = text_or_none(self.text(Field::Group));
        let details = self.text(Field::Details);
        Ok(
            Host {
                alias,
                hostname,
                user,
                port,
                identity_file,
                group,
                extra: clone_pairs(&self.extras),
                details,
                last_accessed: self.last_accessed.clone(),
            },
        )
    }
}

/// Whether a host is as the form makes it: without white space around its texts,
/// with an alias, a host name and a user, and with no empty optional text.
pub open spec fn is_tidy(host: HostView) -> bool {
    &&& trim(host.alias) == host.alias && host.alias.len() > 0
    &&& trim(host.hostname) == host.hostname && host.hostname.len() > 0
    &&& trim(host.user) == host.user && host.user.len() > 0
    &&& host.identity_file matches Some(path) ==> trim(path) == path && path.len() > 0
    &&& host.group matches Some(group) ==> trim(group) == group && group.len() > 0
    &&& trim(host.details) == host.details
}

/// Editing a host and saving it unchanged gives the same host, with its options
/// and the time of its last access.
pub proof fn lemma_edit_round_trip(host: HostView, env_user: Result<Seq<char>, Seq<char>>)
    requires
        is_tidy(host),
    ensures
        FormView::from_host(host).to_host(env_user) == Ok::<HostView, Seq<char>>(host),
{
    let form = FormView::from_host(host);
    lemma_decimal_solid(host.port as nat);
    lemma_port_round_trip(host.port);
    assert(trim(Seq::<char>::empty()) =~= Seq::<char>::empty());
    assert(form.text(Field::Port) == decimal(host.port as nat));
}

/// What the form accepts has an alias and a host name, without white space
/// around its texts.
pub proof fn lemma_accepted_host(form: FormView, env_user: Result<Seq<char>, Seq<char>>)
    requires
        form.to_host(env_user) is Ok,
    ensures
        ({
            let host = form.to_host(env_user)->Ok_0;
            &&& host.alias.len() > 0 && trim(host.alias) == host.alias
            &&& host.hostname.len() > 0 && trim(host.hostname) == host.hostname
            &&& host.group matches Some(group) ==> group.len() > 0 && trim(group) == group
            &&& host.extra == form.extras
            &&& host.last_accessed == form.last_accessed
        }),
{
    crate::text::lemma_trim_idempotent(form.fields[0].1.text);
    crate::text::lemma_trim_idempotent(form.fields[1].1.text);
    crate::text::lemma_trim_idempotent(form.fields[5].1.text);
}

/// Whether no key of an option occurs twice.
pub open spec fn unique_keys(extras: Seq<(Seq<char>, Seq<char>)>) -> bool {
    forall|i: int, j: int|
        0 <= i < j < extras.len() ==> (#[trigger] extras[i]).0 != (#[trigger] extras[j]).0
}

/// Taking over an option keeps the keys apart.
pub proof fn lemma_commit_keeps_keys_unique(form: FormView)
    requires
        unique_keys(form.extras),
        form.edits_existing(),
    ensures
        unique_keys(form.extras_commit_entry().0.extras),
{
    let after = form.extras_commit_entry().0.extras;
    if let Some(editor) = form.extras_editor {
        if let Some(entry) = editor.entry {
            if form.entry_error(entry) is None {
                assert forall|i: int, j: int| 0 <= i < j < after.len() implies (
                #[trigger] after[i]).0 != (#[trigger] after[j]).0 by {
                    if i < form.extras.len() {
                        assert(form.extras[i].0 != trim(entry.key.text)
                            || entry.editing_index == Some(i as usize));
                    }
                    if j < form.extras.len() {
                        assert(form.extras[j].0 != trim(entry.key.text)
                            || entry.editing_index == Some(j as usize));
                    }
                }
            }
        }
    }
}

} // verus!
