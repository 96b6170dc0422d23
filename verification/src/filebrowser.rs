//! The dual-pane file browser.
use vstd::prelude::*;
use crate::input::{empty_input, input_view, InputView};
use crate::model::{opt_text, Host, HostView};
use crate::order::{
    is_preorder, is_sorted, le_text, lemma_stable_sort_idempotent, lemma_stable_sort_map,
    lemma_stable_sort_permutes, lemma_stable_sort_sorts, lemma_text_le_total,
    lemma_text_le_transitive, sort_by, stable_sort, text_le,
};
use crate::paths::{
    after_last_slash, file_name, file_name_of, join, join_local, join_remote, last_part,
    lemma_parent_of_join, lemma_remote_parent_of_join, parent, parent_of, path_end, remote_join,
};
use crate::search::{fuzzy_score, score_of};
use crate::seqs::{
    lemma_filter_all, lemma_filter_sound, lemma_filter_take, lemma_position_is, lemma_position_none,
    position,
};
use crate::sftp::{
    by_model, entry_views, home_dir, lemma_by_model, EntryView, FileEntry, SftpConnectionStatus,
    StatusView,
};
use crate::text::{
    chars_of, concat, last_position, lowercase, rfind, same_text, starts_with_char, string_of,
    to_lowercase, trim, trimmed, without_trailing_slashes,
};
use crate::transfer::{
    listed_views, Listed, ListedView, ProgressView, RequestView, TransferProgress, TransferRequest,
    TransferStatus, TransferStatusView,
};
use tui_input::Input;

verus! {

/// Which pane of the browser has keyboard focus.
#[derive(Debug, Clone, Copy, PartialEq, Eq, Structural)]
pub enum FileBrowserPane {
    Local,
    Remote,
}

/// The direction of a transfer between the panes.
#[derive(Debug, Clone, Copy, PartialEq, Eq, Structural)]
pub enum TransferDirection {
    Upload,
    Download,
}

/// The attribute that listings are sorted by.
#[derive(Debug, Clone, Copy, PartialEq, Eq, Structural)]
pub enum SortField {
    Name,
    Size,
    Modified,
}

impl Default for SortField {
    fn default() -> (field: Self)
        ensures
            field == SortField::Name,
    {
        SortField::Name
    }
}

impl SortField {
    /// The attribute that follows this one in the cycle.
    pub open spec fn following(self) -> SortField {
        match self {
            SortField::Name => SortField::Size,
            SortField::Size => SortField::Modified,
            SortField::Modified => SortField::Name,
        }
    }

    /// The label of this attribute.
    pub open spec fn label_text(self) -> Seq<char> {
        match self {
            SortField::Name => "name"@,
            SortField::Size => "size"@,
            SortField::Modified => "modified"@,
        }
    }

    /// Advances to the next attribute in the cycle.
    pub fn next(self) -> (field: Self)
        ensures
            field == self.following(),
    {
        match self {
            SortField::Name => SortField::Size,
            SortField::Size => SortField::Modified,
            SortField::Modified => SortField::Name,
        }
    }

    /// A short label for the status line.
    pub fn label(self) -> (label: &'static str)
        ensures
            label@ == self.label_text(),
    {
        match self {
            SortField::Name => "name",
            SortField::Size => "size",
            SortField::Modified => "modified",
        }
    }
}

/// Whether one entry comes no later than another by an attribute. Names are
/// taken in lower case, and an unknown time comes before any other.
pub open spec fn field_le(a: EntryView, b: EntryView, field: SortField) -> bool {
    match field {
        SortField::Name => text_le(lowercase(a.name), lowercase(b.name)),
        SortField::Size => a.size <= b.size,
        SortField::Modified => match (a.modified, b.modified) {
            (None, _) => true,
            (Some(_), None) => false,
            (Some(x), Some(y)) => x <= y,
        },
    }
}

/// The order of a listing: directories first, and then by the attribute, up or
/// down.
pub open spec fn entry_order(field: SortField, ascending: bool) -> spec_fn(
    EntryView,
    EntryView,
) -> bool {
    |a: EntryView, b: EntryView|
        if a.is_dir != b.is_dir {
            a.is_dir
        } else if ascending {
            field_le(a, b, field)
        } else {
            field_le(b, a, field)
        }
}

/// The order of a listing is a preorder.
pub proof fn lemma_entry_order(field: SortField, ascending: bool)
    ensures
        is_preorder(entry_order(field, ascending)),
{
    let le = entry_order(field, ascending);
    assert forall|a: EntryView, b: EntryView| #[trigger] le(a, b) || le(b, a) by {
        lemma_text_le_total(lowercase(a.name), lowercase(b.name));
    }
    assert forall|a: EntryView, b: EntryView, c: EntryView| #[trigger]
        le(a, b) && #[trigger] le(b, c) implies le(a, c) by {
        let (x, y, z) = (lowercase(a.name), lowercase(b.name), lowercase(c.name));
        if text_le(x, y) && text_le(y, z) {
            lemma_text_le_transitive(x, y, z);
        }
        if text_le(z, y) && text_le(y, x) {
            lemma_text_le_transitive(z, y, x);
        }
    }
}

fn compare_field(a: &FileEntry, b: &FileEntry, field: SortField) -> (le: bool)
    ensures
        le == field_le(a@, b@, field),
{
    match field {
        SortField::Name => {
            let left = to_lowercase(a.name.as_str());
            let right = to_lowercase(b.name.as_str());
            le_text(left.as_str(), right.as_str())
        },
        SortField::Size => a.size <= b.size,
        SortField::Modified => match a.modified {
            None => true,
            Some(x) => match b.modified {
                None => false,
                Some(y) => x <= y,
            },
        },
    }
}

/// Sorts entries by an attribute, always keeping directories first.
///
/// `ascending` gives the direction within the directories and within the files.
/// Entries that tie keep their order.
pub fn sort_entries(entries: &mut Vec<FileEntry>, field: SortField, ascending: bool)
    ensures
        entry_views(final(entries)@) == stable_sort(
            entry_views(old(entries)@),
            entry_order(field, ascending),
        ),
{
    let ghost given = entries@;
    let ghost order = entry_order(field, ascending);
    let le = |a: &FileEntry, b: &FileEntry| -> (r: bool)
        ensures
            r == by_model(entry_order(field, ascending))(*a, *b),
        {
            if a.is_dir != b.is_dir {
                a.is_dir
            } else if ascending {
                compare_field(a, b, field)
            } else {
                compare_field(b, a, field)
            }
        };
    proof {
        lemma_entry_order(field, ascending);
        lemma_by_model(order);
    }
    sort_by(entries, le, Ghost(by_model(order)));
    proof {
        lemma_stable_sort_map(given, by_model(order), |e: FileEntry| e@, order);
    }
}

// ---------------------------------------------------------------------------
// The browser
// ---------------------------------------------------------------------------

/// The entries of a listing that could be read.
pub open spec fn readable(lines: Seq<ListedView>) -> Seq<EntryView>
    decreases lines.len(),
{
    if lines.len() == 0 {
        seq![]
    } else {
        let rest = readable(lines.drop_last());
        match lines.last() {
            ListedView::Entry(entry) => rest.push(entry),
            ListedView::Unreadable(_) => rest,
        }
    }
}

/// Takes the entries of a local directory out of its lines.
///
/// What could not be read is left out, so that one bad entry does not keep the
/// others from being browsed.
pub fn list_local_dir(lines: &Vec<Listed>) -> (entries: Vec<FileEntry>)
    ensures
        entry_views(entries@) == readable(listed_views(lines@)),
{
    let mut entries: Vec<FileEntry> = Vec::new();
    let ghost views = listed_views(lines@);
    assert(entry_views(entries@) =~= readable(views.take(0)));
    for i in 0..lines.len()
        invariant
            views == listed_views(lines@),
            entry_views(entries@) == readable(views.take(i as int)),
    {
        let ghost before = entry_views(entries@);
        assert(views.take(i + 1).drop_last() =~= views.take(i as int));
        if let Listed::Entry(entry) = &lines[i] {
            entries.push(entry.clone());
            assert(entry_views(entries@) =~= before.push(entry@));
        }
    }
    assert(views.take(views.len() as int) =~= views);
    entries
}

/// What the keys of the browser mean at the moment.
#[derive(Debug)]
pub enum FileBrowserMode {
    Normal,
    ConfirmTransfer { file: String, direction: TransferDirection },
    ConfirmDelete { name: String, is_dir: bool },
    PasswordPrompt(Input),
    TransferError(String),
    Creating(Input),
    Searching(FileBrowserPane),
}

impl Default for FileBrowserMode {
    fn default() -> (mode: Self)
        ensures
            mode == FileBrowserMode::Normal,
    {
        FileBrowserMode::Normal
    }
}

/// The model of a mode.
#[verifier::ext_equal]
pub enum BrowserModeView {
    Normal,
    ConfirmTransfer { file: Seq<char>, direction: TransferDirection },
    ConfirmDelete { name: Seq<char>, is_dir: bool },
    PasswordPrompt(InputView),
    TransferError(Seq<char>),
    Creating(InputView),
    Searching(FileBrowserPane),
}

impl View for FileBrowserMode {
    type V = BrowserModeView;

    open spec fn view(&self) -> BrowserModeView {
        match self {
            FileBrowserMode::Normal => BrowserModeView::Normal,
            FileBrowserMode::ConfirmTransfer { file, direction } => {
                BrowserModeView::ConfirmTransfer { file: file@, direction: *direction }
            },
            FileBrowserMode::ConfirmDelete { name, is_dir } => BrowserModeView::ConfirmDelete {
                name: name@,
                is_dir: *is_dir,
            },
            FileBrowserMode::PasswordPrompt(input) => BrowserModeView::PasswordPrompt(
                input_view(*input),
            ),
            FileBrowserMode::TransferError(message) => BrowserModeView::TransferError(message@),
            FileBrowserMode::Creating(input) => BrowserModeView::Creating(input_view(*input)),
            FileBrowserMode::Searching(pane) => BrowserModeView::Searching(*pane),
        }
    }
}

/// A transfer of the browser, by the number that it was started under.
#[derive(Debug)]
pub struct BrowserTransfer {
    pub id: u64,
    pub progress: TransferProgress,
}

/// The state of a browser for one host.
#[derive(Debug)]
pub struct FileBrowser {
    pub alias: String,
    pub host: Host,
    pub focus: FileBrowserPane,
    pub local_path: String,
    pub local_entries: Vec<FileEntry>,
    pub local_selected: usize,
    pub remote_path: String,
    pub remote_entries: Vec<FileEntry>,
    pub remote_selected: usize,
    /// Whether there is a connection to list and change the remote side with.
    pub connected: bool,
    pub connection_status: SftpConnectionStatus,
    pub error: Option<String>,
    pub sort_by: SortField,
    pub sort_ascending: bool,
    pub show_hidden: bool,
    pub local_search: Input,
    pub remote_search: Input,
    pub mode: FileBrowserMode,
    pub transfers: Vec<BrowserTransfer>,
}

/// The model of a browser.
#[verifier::ext_equal]
pub struct BrowserView {
    pub alias: Seq<char>,
    pub host: HostView,
    pub focus: FileBrowserPane,
    pub local_path: Seq<char>,
    pub local_entries: Seq<EntryView>,
    pub local_selected: int,
    pub remote_path: Seq<char>,
    pub remote_entries: Seq<EntryView>,
    pub remote_selected: int,
    pub connected: bool,
    pub connection_status: StatusView,
    pub error: Option<Seq<char>>,
    pub sort_by: SortField,
    pub sort_ascending: bool,
    pub show_hidden: bool,
    pub local_search: InputView,
    pub remote_search: InputView,
    pub mode: BrowserModeView,
    pub transfers: Seq<(u64, ProgressView)>,
}

impl View for FileBrowser {
    type V = BrowserView;

    open spec fn view(&self) -> BrowserView {
        BrowserView {
            alias: self.alias@,
            host: self.host@,
            focus: self.focus,
            local_path: self.local_path@,
            local_entries: entry_views(self.local_entries@),
            local_selected: self.local_selected as int,
            remote_path: self.remote_path@,
            remote_entries: entry_views(self.remote_entries@),
            remote_selected: self.remote_selected as int,
            connected: self.connected,
            connection_status: self.connection_status@,
            error: opt_text(self.error),
            sort_by: self.sort_by,
            sort_ascending: self.sort_ascending,
            show_hidden: self.show_hidden,
            local_search: input_view(self.local_search),
            remote_search: input_view(self.remote_search),
            mode: self.mode@,
            transfers: transfer_views(self.transfers@),
        }
    }
}

/// Whether a name is hidden.
pub open spec fn is_hidden(name: Seq<char>) -> bool {
    name.len() > 0 && name[0] == '.'
}

/// Whether a listing shows an entry.
pub open spec fn is_shown(entry: EntryView, show_hidden: bool, query: Seq<char>) -> bool {
    (show_hidden || !is_hidden(entry.name)) && (query.len() == 0 || score_of(
        query,
        entry.name,
    ) is Some)
}

/// The entries of a listing that are shown.
pub open spec fn shown_entries(entries: Seq<EntryView>, show_hidden: bool, query: Seq<char>) -> Seq<
    EntryView,
> {
    entries.filter(|e: EntryView| is_shown(e, show_hidden, query))
}

/// A selection that does not pass the end of a list.
pub open spec fn clamped(selected: int, count: nat) -> int {
    if selected < count {
        selected
    } else if count == 0 {
        0
    } else {
        count - 1
    }
}

/// A listing that was asked for: its entries, or why there are none.
pub open spec fn listing_view(listing: Result<Vec<FileEntry>, String>) -> Result<
    Seq<EntryView>,
    Seq<char>,
> {
    match listing {
        Ok(entries) => Ok(entry_views(entries@)),
        Err(message) => Err(message@),
    }
}

/// The position of the first entry of a name, or zero.
pub open spec fn position_or_zero(entries: Seq<EntryView>, name: Option<Seq<char>>) -> int {
    match name {
        Some(name) => match position(entries, |e: EntryView| e.name == name) {
            Some(i) => i,
            None => 0,
        },
        None => 0,
    }
}

impl BrowserView {
    /// The entries of a pane.
    pub open spec fn entries(self, pane: FileBrowserPane) -> Seq<EntryView> {
        match pane {
            FileBrowserPane::Local => self.local_entries,
            FileBrowserPane::Remote => self.remote_entries,
        }
    }

    /// The search of a pane.
    pub open spec fn search(self, pane: FileBrowserPane) -> InputView {
        match pane {
            FileBrowserPane::Local => self.local_search,
            FileBrowserPane::Remote => self.remote_search,
        }
    }

    /// The selection of a pane.
    pub open spec fn selected(self, pane: FileBrowserPane) -> int {
        match pane {
            FileBrowserPane::Local => self.local_selected,
            FileBrowserPane::Remote => self.remote_selected,
        }
    }

    /// The entries that a pane shows.
    pub open spec fn visible(self, pane: FileBrowserPane) -> Seq<EntryView> {
        shown_entries(self.entries(pane), self.show_hidden, trim(self.search(pane).text))
    }

    /// The entry that is selected in the focused pane.
    pub open spec fn selected_entry(self) -> Option<EntryView> {
        let shown = self.visible(self.focus);
        if self.selected(self.focus) < shown.len() {
            Some(shown[self.selected(self.focus)])
        } else {
            None
        }
    }

    /// The browser with another selection in a pane.
    pub open spec fn select(self, pane: FileBrowserPane, n: int) -> BrowserView {
        match pane {
            FileBrowserPane::Local => BrowserView { local_selected: n, ..self },
            FileBrowserPane::Remote => BrowserView { remote_selected: n, ..self },
        }
    }

    /// The browser with other entries in a pane, sorted.
    pub open spec fn fill(self, pane: FileBrowserPane, entries: Seq<EntryView>) -> BrowserView {
        let sorted = stable_sort(entries, entry_order(self.sort_by, self.sort_ascending));
        match pane {
            FileBrowserPane::Local => BrowserView { local_entries: sorted, ..self },
            FileBrowserPane::Remote => BrowserView { remote_entries: sorted, ..self },
        }
    }

    /// The browser in another directory of a pane.
    pub open spec fn go_to(self, pane: FileBrowserPane, path: Seq<char>) -> BrowserView {
        match pane {
            FileBrowserPane::Local => BrowserView { local_path: path, ..self },
            FileBrowserPane::Remote => BrowserView { remote_path: path, ..self },
        }
    }

    /// The browser with both selections within what is shown.
    pub open spec fn clamp(self) -> BrowserView {
        BrowserView {
            local_selected: clamped(
                self.local_selected,
                self.visible(FileBrowserPane::Local).len(),
            ),
            remote_selected: clamped(
                self.remote_selected,
                self.visible(FileBrowserPane::Remote).len(),
            ),
            ..self
        }
    }

    /// The browser with both panes sorted anew.
    pub open spec fn resort(self) -> BrowserView {
        self.fill(FileBrowserPane::Local, self.local_entries).fill(
            FileBrowserPane::Remote,
            self.remote_entries,
        ).clamp()
    }

    /// The selection moved down in the focused pane, from the end to the start.
    pub open spec fn move_down(self) -> BrowserView {
        let count = self.visible(self.focus).len();
        if count == 0 {
            self
        } else {
            self.select(self.focus, (self.selected(self.focus) + 1) % count as int)
        }
    }

    /// The selection moved up in the focused pane, from the start to the end.
    pub open spec fn move_up(self) -> BrowserView {
        let count = self.visible(self.focus).len();
        if count == 0 {
            self
        } else if self.selected(self.focus) == 0 {
            self.select(self.focus, count - 1)
        } else {
            self.select(self.focus, self.selected(self.focus) - 1)
        }
    }

    /// The other pane.
    pub open spec fn other_pane(self) -> FileBrowserPane {
        match self.focus {
            FileBrowserPane::Local => FileBrowserPane::Remote,
            FileBrowserPane::Remote => FileBrowserPane::Local,
        }
    }

    /// The directory that is entered: the selected one, if it can be listed.
    pub open spec fn enter_target(self) -> Option<Seq<char>> {
        match self.selected_entry() {
            Some(entry) => if !entry.is_dir {
                None
            } else {
                match self.focus {
                    FileBrowserPane::Local => Some(join(self.local_path, entry.name)),
                    FileBrowserPane::Remote => if self.connected {
                        Some(remote_join(self.remote_path, entry.name))
                    } else {
                        None
                    },
                }
            },
            None => None,
        }
    }

    /// The directory above, if there is one that can be listed.
    pub open spec fn parent_target(self) -> Option<Seq<char>> {
        match self.focus {
            FileBrowserPane::Local => parent(self.local_path),
            FileBrowserPane::Remote => if self.remote_path == "/"@ || !self.connected {
                None
            } else {
                match last_position(self.remote_path, '/') {
                    Some(p) => if p == 0 {
                        Some("/"@)
                    } else {
                        Some(self.remote_path.take(p))
                    },
                    None => None,
                }
            },
        }
    }

    /// The name under which the current directory is found in the one above.
    pub open spec fn own_name(self, pane: FileBrowserPane) -> Option<Seq<char>> {
        match pane {
            FileBrowserPane::Local => file_name(self.local_path),
            FileBrowserPane::Remote => Some(after_last_slash(self.remote_path)),
        }
    }

    /// The browser after a directory was listed to be entered.
    pub open spec fn entered(
        self,
        pane: FileBrowserPane,
        path: Seq<char>,
        listing: Result<Seq<EntryView>, Seq<char>>,
    ) -> BrowserView {
        match listing {
            Ok(entries) => self.go_to(pane, path).fill(pane, entries).select(pane, 0),
            Err(message) => BrowserView {
                error: Some("Cannot open directory: "@ + message),
                ..self
            },
        }
    }

    /// The browser after the directory above was listed. The directory that one
    /// comes from is selected, if it is shown.
    pub open spec fn ascended(
        self,
        pane: FileBrowserPane,
        path: Seq<char>,
        listing: Result<Seq<EntryView>, Seq<char>>,
    ) -> BrowserView {
        match listing {
            Ok(entries) => {
                let there = self.go_to(pane, path).fill(pane, entries);
                there.select(pane, position_or_zero(there.visible(pane), self.own_name(pane)))
            },
            Err(message) => BrowserView { error: Some("Cannot open parent: "@ + message), ..self },
        }
    }

    /// The browser after a pane was listed again. A local failure is passed over.
    pub open spec fn refreshed(
        self,
        pane: FileBrowserPane,
        listing: Result<Seq<EntryView>, Seq<char>>,
    ) -> BrowserView {
        match listing {
            Ok(entries) => self.fill(pane, entries).clamp(),
            Err(message) => match pane {
                FileBrowserPane::Local => self,
                FileBrowserPane::Remote => BrowserView {
                    error: Some("Refresh failed: "@ + message),
                    ..self
                },
            },
        }
    }

    /// The direction of a transfer out of the focused pane.
    pub open spec fn direction(self) -> TransferDirection {
        match self.focus {
            FileBrowserPane::Local => TransferDirection::Upload,
            FileBrowserPane::Remote => TransferDirection::Download,
        }
    }

    /// The request to transfer an entry to the other side.
    pub open spec fn request_for(
        self,
        name: Seq<char>,
        is_dir: bool,
        direction: TransferDirection,
    ) -> RequestView {
        let local_path = join(self.local_path, name);
        let remote_path = remote_join(self.remote_path, name);
        match direction {
            TransferDirection::Upload => if is_dir {
                RequestView::UploadDir { local_path, remote_path }
            } else {
                RequestView::Upload { local_path, remote_path }
            },
            TransferDirection::Download => if is_dir {
                RequestView::DownloadDir { remote_path, local_path }
            } else {
                RequestView::Download { remote_path, local_path }
            },
        }
    }

    /// Whether a pane holds an entry of a name.
    pub open spec fn holds(self, pane: FileBrowserPane, name: Seq<char>) -> bool {
        position(self.entries(pane), |e: EntryView| e.name == name) is Some
    }

    /// The request to transfer the selected entry. Where an entry of the same
    /// name is in the way, confirmation is asked for first.
    pub open spec fn begin_transfer(self) -> (BrowserView, Option<RequestView>) {
        match self.selected_entry() {
            Some(entry) => if !self.connected {
                (BrowserView { error: Some("Not connected"@), ..self }, None)
            } else if self.holds(self.other_pane(), entry.name) {
                (
                    BrowserView {
                        mode: BrowserModeView::ConfirmTransfer {
                            file: entry.name,
                            direction: self.direction(),
                        },
                        ..self
                    },
                    None,
                )
            } else {
                (self, Some(self.request_for(entry.name, entry.is_dir, self.direction())))
            },
            None => (self, None),
        }
    }

    /// The request that a confirmation stands for.
    pub open spec fn confirmed_request(self, file: Seq<char>, direction: TransferDirection) -> Option<
        RequestView,
    > {
        let pane = match direction {
            TransferDirection::Upload => FileBrowserPane::Local,
            TransferDirection::Download => FileBrowserPane::Remote,
        };
        match position(self.entries(pane), |e: EntryView| e.name == file) {
            Some(i) => Some(self.request_for(file, self.entries(pane)[i].is_dir, direction)),
            None => None,
        }
    }

    /// The path of a name in the focused pane.
    pub open spec fn path_of(self, name: Seq<char>) -> Seq<char> {
        match self.focus {
            FileBrowserPane::Local => join(self.local_path, name),
            FileBrowserPane::Remote => remote_join(self.remote_path, name),
        }
    }

    /// The browser with a transfer that was started. Those that have ended are
    /// dropped.
    pub open spec fn with_transfer(self, id: u64, progress: ProgressView) -> BrowserView {
        BrowserView { transfers: running(self.transfers).push((id, progress)), ..self }
    }

    /// The browser after a transfer was looked at, and whether it has just ended.
    /// A transfer that failed is reported, unless something else is asked.
    pub open spec fn progressed(self, id: u64, progress: ProgressView) -> (BrowserView, bool) {
        match position(self.transfers, is_transfer(id)) {
            Some(i) => {
                let ended = self.transfers[i].1.status is InProgress && !(
                progress.status is InProgress);
                (
                    BrowserView {
                        transfers: self.transfers.update(i, (id, progress)),
                        mode: match progress.status {
                            TransferStatusView::Failed(message) => if ended
                                && self.mode is Normal {
                                BrowserModeView::TransferError(message)
                            } else {
                                self.mode
                            },
                            _ => self.mode,
                        },
                        ..self
                    },
                    ended,
                )
            },
            None => (self, false),
        }
    }

    /// Whether every selection lies within its listing.
    pub open spec fn wf(self) -> bool {
        (self.local_selected == 0 || 0 < self.local_selected < self.local_entries.len()) && (
        self.remote_selected == 0 || 0 < self.remote_selected < self.remote_entries.len())
    }
}

/// A browser that was just opened for a host, with a local directory.
pub open spec fn opened(host: HostView, local_path: Seq<char>, entries: Seq<EntryView>) -> BrowserView {
    BrowserView {
        alias: host.alias,
        host,
        focus: FileBrowserPane::Local,
        local_path,
        local_entries: stable_sort(entries, entry_order(SortField::Name, true)),
        local_selected: 0,
        remote_path: seq![],
        remote_entries: seq![],
        remote_selected: 0,
        connected: false,
        connection_status: StatusView::Connecting,
        error: None,
        sort_by: SortField::Name,
        sort_ascending: true,
        show_hidden: false,
        local_search: InputView::empty(),
        remote_search: InputView::empty(),
        mode: BrowserModeView::Normal,
        transfers: seq![],
    }
}

/// The local directory that a browser starts in, given the home directory.
pub open spec fn start_path(home: Option<Seq<char>>) -> Seq<char> {
    match home {
        Some(home) => home,
        None => "/"@,
    }
}

/// Finds the local directory to start in: the home directory, or the root where
/// that is unknown.
pub fn start_dir(home: Option<String>) -> (dir: String)
    ensures
        dir@ == start_path(opt_text(home)),
{
    match home {
        Some(home) => home,
        None => "/".to_string(),
    }
}

fn visible_of<'a>(entries: &'a Vec<FileEntry>, show_hidden: bool, search: &str) -> (shown: Vec<
    &'a FileEntry,
>)
    ensures
        shown@.map_values(|e: &FileEntry| e@) == shown_entries(
            entry_views(entries@),
            show_hidden,
            trim(search@),
        ),
{
    let query = trimmed(search);
    let ghost all = entry_views(entries@);
    let ghost keep = |e: EntryView| is_shown(e, show_hidden, query@);
    let mut out: Vec<&'a FileEntry> = Vec::new();
    assert(out@.map_values(|e: &FileEntry| e@) =~= all.take(0).filter(keep)) by {
        reveal(Seq::filter);
    }
    for i in 0..entries.len()
        invariant
            all == entry_views(entries@),
            keep == (|e: EntryView| is_shown(e, show_hidden, query@)),
            out@.map_values(|e: &FileEntry| e@) == all.take(i as int).filter(keep),
    {
        proof {
            lemma_filter_take(all, i as int, keep);
        }
        assert(all[i as int] == entries@[i as int]@);
        let entry = &entries[i];
        let visible = show_hidden || !starts_with_char(entry.name.as_str(), '.');
        let matching = query.as_str().is_empty() || fuzzy_score(
            query.as_str(),
            entry.name.as_str(),
        ).is_some();
        if visible && matching {
            let ghost before = out@;
            out.push(entry);
            assert(out@.map_values(|e: &FileEntry| e@) =~= before.map_values(
                |e: &FileEntry| e@,
            ).push(entry@));
        }
    }
    assert(all.take(all.len() as int) =~= all);
    out
}

fn position_of(shown: &Vec<&FileEntry>, name: &str) -> (pos: Option<usize>)
    ensures
        match pos {
            Some(i) => position(
                shown@.map_values(|e: &FileEntry| e@),
                |e: EntryView| e.name == name@,
            ) == Some(i as int) && i < shown@.len(),
            None => position(
                shown@.map_values(|e: &FileEntry| e@),
                |e: EntryView| e.name == name@,
            ) is None,
        },
{
    let ghost all = shown@.map_values(|e: &FileEntry| e@);
    let ghost wanted = |e: EntryView| e.name == name@;
    for i in 0..shown.len()
        invariant
            all == shown@.map_values(|e: &FileEntry| e@),
            wanted == (|e: EntryView| e.name == name@),
            forall|k: int| 0 <= k < i ==> !wanted(#[trigger] all[k]),
    {
        assert(all[i as int] == shown@[i as int]@);
        if same_text(shown[i].name.as_str(), name) {
            proof {
                lemma_position_is(all, wanted, i as int);
            }
            return Some(i);
        }
    }
    proof {
        lemma_position_none(all, wanted);
    }
    None
}

fn entry_position(entries: &Vec<FileEntry>, name: &str) -> (pos: Option<usize>)
    ensures
        match pos {
            Some(i) => position(entry_views(entries@), |e: EntryView| e.name == name@) == Some(
                i as int,
            ) && i < entries@.len(),
            None => position(entry_views(entries@), |e: EntryView| e.name == name@) is None,
        },
{
    let ghost all = entry_views(entries@);
    let ghost wanted = |e: EntryView| e.name == name@;
    for i in 0..entries.len()
        invariant
            all == entry_views(entries@),
            wanted == (|e: EntryView| e.name == name@),
            forall|k: int| 0 <= k < i ==> !wanted(#[trigger] all[k]),
    {
        assert(all[i as int] == entries@[i as int]@);
        if same_text(entries[i].name.as_str(), name) {
            proof {
                lemma_position_is(all, wanted, i as int);
            }
            return Some(i);
        }
    }
    proof {
        lemma_position_none(all, wanted);
    }
    None
}

impl FileBrowser {
    /// Creates a browser for a host, in the user's home directory on the local
    /// side. The listing of that directory is shown by `open_at`.
    ///
    /// Where the home directory is unknown, the root takes its place.
    pub fn new(host: Host) -> (browser: Self)
        ensures
            exists|home: Option<Seq<char>>|
                browser@ == opened(host@, #[trigger] start_path(home), seq![]),
            browser@.wf(),
    {
        let home = home_dir();
        let ghost found = opt_text(home);
        let local_path = start_dir(home);
        assert(local_path@ == start_path(found));
        let none: Vec<FileEntry> = Vec::new();
        assert(entry_views(none@) =~= seq![]);
        Self::open_at(host, local_path, none)
    }

    /// Creates a browser for a host in a given local directory.
    pub fn open_at(host: Host, local_path: String, entries: Vec<FileEntry>) -> (browser: Self)
        ensures
            browser@ == opened(host@, local_path@, entry_views(entries@)),
            browser@.wf(),
    {
        let mut entries = entries;
        sort_entries(&mut entries, SortField::Name, true);
        let remote_entries: Vec<FileEntry> = Vec::new();
        let transfers: Vec<BrowserTransfer> = Vec::new();
        let browser = FileBrowser {
            alias: host.alias.clone(),
            host,
            focus: FileBrowserPane::Local,
            local_path,
            local_entries: entries,
            local_selected: 0,
            remote_path: String::new(),
            remote_entries,
            remote_selected: 0,
            connected: false,
            connection_status: SftpConnectionStatus::Connecting,
            error: None,
            sort_by: SortField::Name,
            sort_ascending: true,
            show_hidden: false,
            local_search: empty_input(),
            remote_search: empty_input(),
            mode: FileBrowserMode::Normal,
            transfers,
        };
        assert(browser@.remote_entries =~= seq![]);
        assert(browser@.transfers =~= seq![]);
        browser
    }

    /// The local entries that are shown.
    pub fn visible_local_entries(&self) -> (shown: Vec<&FileEntry>)
        ensures
            shown@.map_values(|e: &FileEntry| e@) == self@.visible(FileBrowserPane::Local),
    {
        visible_of(&self.local_entries, self.show_hidden, self.local_search.value())
    }

    /// The remote entries that are shown.
    pub fn visible_remote_entries(&self) -> (shown: Vec<&FileEntry>)
        ensures
            shown@.map_values(|e: &FileEntry| e@) == self@.visible(FileBrowserPane::Remote),
    {
        visible_of(&self.remote_entries, self.show_hidden, self.remote_search.value())
    }

    /// The entries that a pane shows.
    pub fn visible_entries(&self, pane: FileBrowserPane) -> (shown: Vec<&FileEntry>)
        ensures
            shown@.map_values(|e: &FileEntry| e@) == self@.visible(pane),
    {
        match pane {
            FileBrowserPane::Local => self.visible_local_entries(),
            FileBrowserPane::Remote => self.visible_remote_entries(),
        }
    }

    fn visible_count(&self, pane: FileBrowserPane) -> (n: usize)
        ensures
            n == self@.visible(pane).len(),
            n <= self@.entries(pane).len(),
    {
        let shown = self.visible_entries(pane);
        proof {
            lemma_filter_sound(
                self@.entries(pane),
                |e: EntryView| is_shown(e, self@.show_hidden, trim(self@.search(pane).text)),
            );
            assert(shown@.map_values(|e: &FileEntry| e@).len() == shown@.len());
        }
        shown.len()
    }

    /// The search of the focused pane.
    pub fn focused_search(&self) -> (input: &Input)
        ensures
            input_view(*input) == self@.search(self@.focus),
    {
        match self.focus {
            FileBrowserPane::Local => &self.local_search,
            FileBrowserPane::Remote => &self.remote_search,
        }
    }

    /// Moves the selection down in the focused pane, wrapping at the end.
    pub fn move_down(&mut self)
        requires
            old(self)@.wf(),
        ensures
            final(self)@ == old(self)@.move_down(),
            final(self)@.wf(),
    {
        let count = self.visible_count(self.focus);
        if count == 0 {
            return;
        }
        assert(self@.local_entries.len() == self.local_entries.len());
        assert(self@.remote_entries.len() == self.remote_entries.len());
        match self.focus {
            FileBrowserPane::Local => {
                self.local_selected = (self.local_selected + 1) % count;
            },
            FileBrowserPane::Remote => {
                self.remote_selected = (self.remote_selected + 1) % count;
            },
        }
    }

    /// Moves the selection up in the focused pane, wrapping at the start.
    pub fn move_up(&mut self)
        requires
            old(self)@.wf(),
        ensures
            final(self)@ == old(self)@.move_up(),
            final(self)@.wf(),
    {
        let count = self.visible_count(self.focus);
        if count == 0 {
            return;
        }
        match self.focus {
            FileBrowserPane::Local => {
                self.local_selected = if self.local_selected == 0 {
                    count - 1
                } else {
                    self.local_selected - 1
                };
            },
            FileBrowserPane::Remote => {
                self.remote_selected = if self.remote_selected == 0 {
                    count - 1
                } else {
                    self.remote_selected - 1
                };
            },
        }
    }

    /// The entry that is selected in the focused pane, if any.
    pub fn selected_entry(&self) -> (entry: Option<&FileEntry>)
        ensures
            match entry {
                Some(e) => self@.selected_entry() == Some(e@),
                None => self@.selected_entry() is None,
            },
    {
        let shown = self.visible_entries(self.focus);
        let selected = match self.focus {
            FileBrowserPane::Local => self.local_selected,
            FileBrowserPane::Remote => self.remote_selected,
        };
        let ghost views = shown@.map_values(|e: &FileEntry| e@);
        assert(views.len() == shown@.len());
        if selected < shown.len() {
            assert(views[selected as int] == shown@[selected as int]@);
            Some(shown[selected])
        } else {
            None
        }
    }

    /// The directory to list in order to enter the selected one, if it is one.
    pub fn enter_dir(&self) -> (path: Option<String>)
        ensures
            opt_text(path) == self@.enter_target(),
    {
        match self.selected_entry() {
            Some(entry) => {
                if !entry.is_dir {
                    return None;
                }
                match self.focus {
                    FileBrowserPane::Local => Some(
                        join_local(self.local_path.as_str(), entry.name.as_str()),
                    ),
                    FileBrowserPane::Remote => if self.connected {
                        Some(join_remote(self.remote_path.as_str(), entry.name.as_str()))
                    } else {
                        None
                    },
                }
            },
            None => None,
        }
    }

    fn set_path(&mut self, pane: FileBrowserPane, path: String)
        ensures
            final(self)@ == old(self)@.go_to(pane, path@),
    {
        match pane {
            FileBrowserPane::Local => {
                self.local_path = path;
            },
            FileBrowserPane::Remote => {
                self.remote_path = path;
            },
        }
    }

    fn set_entries(&mut self, pane: FileBrowserPane, entries: Vec<FileEntry>)
        ensures
            final(self)@ == old(self)@.fill(pane, entry_views(entries@)),
    {
        match pane {
            FileBrowserPane::Local => {
                self.local_entries = entries;
                self.apply_filters_and_sort_local();
            },
            FileBrowserPane::Remote => {
                self.remote_entries = entries;
                self.apply_filters_and_sort_remote();
            },
        }
    }

    fn set_selected(&mut self, pane: FileBrowserPane, n: usize)
        ensures
            final(self)@ == old(self)@.select(pane, n as int),
    {
        match pane {
            FileBrowserPane::Local => {
                self.local_selected = n;
            },
            FileBrowserPane::Remote => {
                self.remote_selected = n;
            },
        }
    }

    /// Shows the directory that was listed to be entered. Returns whether it
    /// could be listed.
    pub fn entered_dir(
        &mut self,
        pane: FileBrowserPane,
        path: String,
        listing: Result<Vec<FileEntry>, String>,
    ) -> (entered: bool)
        requires
            old(self)@.wf(),
        ensures
            final(self)@ == old(self)@.entered(pane, path@, listing_view(listing)),
            final(self)@.wf(),
            entered == listing is Ok,
    {
        match listing {
            Ok(entries) => {
                self.set_path(pane, path);
                self.set_entries(pane, entries);
                self.set_selected(pane, 0);
                true
            },
            Err(message) => {
                self.error = Some(concat("Cannot open directory: ", message.as_str()));
                false
            },
        }
    }

    /// The directory to list in order to go to the one above, if there is one.
    pub fn go_parent(&self) -> (path: Option<String>)
        ensures
            opt_text(path) == self@.parent_target(),
    {
        match self.focus {
            FileBrowserPane::Local => parent_of(self.local_path.as_str()),
            FileBrowserPane::Remote => {
                if same_text(self.remote_path.as_str(), "/") || !self.connected {
                    return None;
                }
                let chars = chars_of(self.remote_path.as_str());
                match rfind(&chars, '/') {
                    Some(p) => if p == 0 {
                        Some("/".to_string())
                    } else {
                        assert(chars@.take(p as int) =~= chars@.subrange(0, p as int));
                        Some(string_of(&chars, 0, p))
                    },
                    None => None,
                }
            },
        }
    }

    /// Shows the directory above, which was listed.
    pub fn went_to_parent(
        &mut self,
        pane: FileBrowserPane,
        path: String,
        listing: Result<Vec<FileEntry>, String>,
    )
        requires
            old(self)@.wf(),
        ensures
            final(self)@ == old(self)@.ascended(pane, path@, listing_view(listing)),
            final(self)@.wf(),
    {
        match listing {
            Ok(entries) => {
                let own_name = match pane {
                    FileBrowserPane::Local => file_name_of(self.local_path.as_str()),
                    FileBrowserPane::Remote => Some(last_part(self.remote_path.as_str())),
                };
                self.set_path(pane, path);
                self.set_entries(pane, entries);
                let ghost there = self@;
                let selected: usize = match &own_name {
                    Some(name) => {
                        let shown = self.visible_entries(pane);
                        match position_of(&shown, name.as_str()) {
                            Some(i) => {
                                proof {
                                    lemma_filter_sound(
                                        there.entries(pane),
                                        |e: EntryView|
                                            is_shown(
                                                e,
                                                there.show_hidden,
                                                trim(there.search(pane).text),
                                            ),
                                    );
                                    assert(shown@.map_values(|e: &FileEntry| e@).len()
                                        == shown@.len());
                                }
                                i
                            },
                            None => 0,
                        }
                    },
                    None => 0,
                };
                self.set_selected(pane, selected);
            },
            Err(message) => {
                self.error = Some(concat("Cannot open parent: ", message.as_str()));
            },
        }
    }

    /// Switches keyboard focus between the panes.
    pub fn toggle_focus(&mut self)
        ensures
            final(self)@ == (BrowserView { focus: old(self)@.other_pane(), ..old(self)@ }),
    {
        self.focus = match self.focus {
            FileBrowserPane::Local => FileBrowserPane::Remote,
            FileBrowserPane::Remote => FileBrowserPane::Local,
        };
    }

    /// Toggles whether hidden files are shown.
    pub fn toggle_hidden(&mut self)
        requires
            old(self)@.wf(),
        ensures
            final(self)@ == (BrowserView {
                show_hidden: !old(self)@.show_hidden,
                ..old(self)@
            }).clamp(),
            final(self)@.wf(),
    {
        self.show_hidden = !self.show_hidden;
        self.clamp_selections();
    }

    /// Cycles the attribute that both panes are sorted by.
    pub fn cycle_sort(&mut self)
        requires
            old(self)@.wf(),
        ensures
            final(self)@ == (BrowserView {
                sort_by: old(self)@.sort_by.following(),
                ..old(self)@
            }).resort(),
            final(self)@.wf(),
    {
        self.sort_by = self.sort_by.next();
        self.apply_filters_and_sort_local();
        self.apply_filters_and_sort_remote();
        self.clamp_selections();
    }

    /// Toggles the direction that both panes are sorted in.
    pub fn toggle_sort_direction(&mut self)
        requires
            old(self)@.wf(),
        ensures
            final(self)@ == (BrowserView {
                sort_ascending: !old(self)@.sort_ascending,
                ..old(self)@
            }).resort(),
            final(self)@.wf(),
    {
        self.sort_ascending = !self.sort_ascending;
        self.apply_filters_and_sort_local();
        self.apply_filters_and_sort_remote();
        self.clamp_selections();
    }

    /// Shows the local directory as it was listed again.
    pub fn refresh_local(&mut self, listing: Result<Vec<FileEntry>, String>)
        requires
            old(self)@.wf(),
        ensures
            final(self)@ == old(self)@.refreshed(FileBrowserPane::Local, listing_view(listing)),
            final(self)@.wf(),
    {
        if let Ok(entries) = listing {
            self.local_entries = entries;
            self.apply_filters_and_sort_local();
            self.clamp_selections();
        }
    }

    /// Shows the remote directory as it was listed again.
    pub fn refresh_remote(&mut self, listing: Result<Vec<FileEntry>, String>)
        requires
            old(self)@.wf(),
        ensures
            final(self)@ == old(self)@.refreshed(FileBrowserPane::Remote, listing_view(listing)),
            final(self)@.wf(),
    {
        match listing {
            Ok(entries) => {
                self.remote_entries = entries;
                self.apply_filters_and_sort_remote();
                self.clamp_selections();
            },
            Err(message) => {
                self.error = Some(concat("Refresh failed: ", message.as_str()));
            },
        }
    }

    fn apply_filters_and_sort_local(&mut self)
        ensures
            final(self)@ == old(self)@.fill(FileBrowserPane::Local, old(self)@.local_entries),
            final(self)@.local_entries.len() == old(self)@.local_entries.len(),
    {
        proof {
            lemma_stable_sort_permutes(
                self@.local_entries,
                entry_order(self.sort_by, self.sort_ascending),
            );
        }
        sort_entries(&mut self.local_entries, self.sort_by, self.sort_ascending);
    }

    fn apply_filters_and_sort_remote(&mut self)
        ensures
            final(self)@ == old(self)@.fill(FileBrowserPane::Remote, old(self)@.remote_entries),
            final(self)@.remote_entries.len() == old(self)@.remote_entries.len(),
    {
        proof {
            lemma_stable_sort_permutes(
                self@.remote_entries,
                entry_order(self.sort_by, self.sort_ascending),
            );
        }
        sort_entries(&mut self.remote_entries, self.sort_by, self.sort_ascending);
    }

    fn clamp_selections(&mut self)
        ensures
            final(self)@ == old(self)@.clamp(),
            final(self)@.wf(),
    {
        let local_count = self.visible_count(FileBrowserPane::Local);
        let remote_count = self.visible_count(FileBrowserPane::Remote);
        if self.local_selected >= local_count {
            self.local_selected = if local_count == 0 {
                0
            } else {
                local_count - 1
            };
        }
        if self.remote_selected >= remote_count {
            self.remote_selected = if remote_count == 0 {
                0
            } else {
                remote_count - 1
            };
        }
    }

    /// Starts to transfer the selected entry to the other pane.
    ///
    /// Returns the request to carry out. Nothing is returned where nothing is
    /// selected, where there is no connection, or where confirmation is needed.
    pub fn begin_transfer(&mut self) -> (request: Option<TransferRequest>)
        ensures
            (final(self)@, opt_request(request)) == old(self)@.begin_transfer(),
    {
        let (name, is_dir) = match self.selected_entry() {
            Some(entry) => (entry.name.clone(), entry.is_dir),
            None => {
                return None;
            },
        };
        if !self.connected {
            self.error = Some("Not connected".to_string());
            return None;
        }
        let direction = match self.focus {
            FileBrowserPane::Local => TransferDirection::Upload,
            FileBrowserPane::Remote => TransferDirection::Download,
        };
        let taken = match self.focus {
            FileBrowserPane::Local => entry_position(
                &self.remote_entries,
                name.as_str(),
            ).is_some(),
            FileBrowserPane::Remote => entry_position(
                &self.local_entries,
                name.as_str(),
            ).is_some(),
        };
        if taken {
            self.mode = FileBrowserMode::ConfirmTransfer { file: name, direction };
            None
        } else {
            Some(self.request_for(name.as_str(), is_dir, direction))
        }
    }

    /// The request to transfer an entry to the other side.
    pub fn request_for(&self, name: &str, is_dir: bool, direction: TransferDirection) -> (request:
        TransferRequest)
        ensures
            request@ == self@.request_for(name@, is_dir, direction),
    {
        let local_path = join_local(self.local_path.as_str(), name);
        let remote_path = join_remote(self.remote_path.as_str(), name);
        match direction {
            TransferDirection::Upload => if is_dir {
                TransferRequest::UploadDir { local_path, remote_path }
            } else {
                TransferRequest::Upload { local_path, remote_path }
            },
            TransferDirection::Download => if is_dir {
                TransferRequest::DownloadDir { remote_path, local_path }
            } else {
                TransferRequest::Download { remote_path, local_path }
            },
        }
    }

    /// The request that a confirmation stands for, if its entry is still there.
    pub fn confirmed_request(&self, file: &str, direction: TransferDirection) -> (request: Option<
        TransferRequest,
    >)
        ensures
            opt_request(request) == self@.confirmed_request(file@, direction),
    {
        let entries = match direction {
            TransferDirection::Upload => &self.local_entries,
            TransferDirection::Download => &self.remote_entries,
        };
        match entry_position(entries, file) {
            Some(i) => {
                assert(entry_views(entries@)[i as int] == entries@[i as int]@);
                let is_dir = entries[i].is_dir;
                Some(self.request_for(file, is_dir, direction))
            },
            None => None,
        }
    }

    /// The path of a name in the focused pane.
    pub fn path_of(&self, name: &str) -> (path: String)
        ensures
            path@ == self@.path_of(name@),
    {
        match self.focus {
            FileBrowserPane::Local => join_local(self.local_path.as_str(), name),
            FileBrowserPane::Remote => join_remote(self.remote_path.as_str(), name),
        }
    }

    /// Shows that a directory could not be created.
    pub fn mkdir_failed(&mut self, message: &str)
        ensures
            final(self)@ == (BrowserView {
                error: Some("mkdir failed: "@ + message@),
                ..old(self)@
            }),
    {
        self.error = Some(concat("mkdir failed: ", message));
    }

    /// Shows that a file or directory could not be deleted.
    pub fn delete_failed(&mut self, message: &str)
        ensures
            final(self)@ == (BrowserView {
                error: Some("delete failed: "@ + message@),
                ..old(self)@
            }),
    {
        self.error = Some(concat("delete failed: ", message));
    }

    /// Keeps the selections within what is shown after a search has changed.
    pub fn search_changed(&mut self)
        ensures
            final(self)@ == old(self)@.clamp(),
            final(self)@.wf(),
    {
        self.clamp_selections();
    }

    /// Records that a transfer was started.
    pub fn transfer_started(&mut self, id: u64, progress: TransferProgress)
        ensures
            final(self)@ == old(self)@.with_transfer(id, progress@),
    {
        let ghost keep = |t: (u64, ProgressView)| t.1.status is InProgress;
        let ghost given = self@.transfers;
        let mut i: usize = 0;
        let ghost mut seen: int = 0;
        assert(given.take(0).filter(keep) =~= Seq::<(u64, ProgressView)>::empty()) by {
            reveal(Seq::filter);
        }
        assert(transfer_views(self.transfers@) =~= given.take(0).filter(keep) + given.skip(0));
        while i < self.transfers.len()
            invariant
                keep == (|t: (u64, ProgressView)| t.1.status is InProgress),
                0 <= seen <= given.len(),
                i <= self.transfers@.len(),
                given.take(seen).filter(keep).len() == i,
                transfer_views(self.transfers@) == given.take(seen).filter(keep) + given.skip(seen),
                self@ == (BrowserView { transfers: self@.transfers, ..old(self)@ }),
            decreases self.transfers@.len() - i,
        {
            let ghost now = transfer_views(self.transfers@);
            assert(now[i as int] == (
                self.transfers@[i as int].id,
                self.transfers@[i as int].progress@,
            ));
            assert(now[i as int] == given[seen]);
            proof {
                lemma_filter_take(given, seen, keep);
            }
            if matches!(self.transfers[i].progress.status, TransferStatus::InProgress) {
                assert(now =~= given.take(seen + 1).filter(keep) + given.skip(seen + 1));
                i = i + 1;
            } else {
                self.transfers.remove(i);
                assert(transfer_views(self.transfers@) =~= now.remove(i as int));
                assert(transfer_views(self.transfers@) =~= given.take(seen + 1).filter(keep)
                    + given.skip(seen + 1));
            }
            proof {
                seen = seen + 1;
            }
        }
        assert(seen == given.len()) by {
            assert(transfer_views(self.transfers@).len() == i + given.skip(seen).len());
        }
        assert(given.take(seen) =~= given);
        assert(self@.transfers =~= running(given));
        let ghost before = self.transfers@;
        self.transfers.push(BrowserTransfer { id, progress });
        assert(self@.transfers =~= transfer_views(before).push((id, progress@)));
    }

    fn transfer_index(&self, id: u64) -> (pos: Option<usize>)
        ensures
            match pos {
                Some(i) => i < self.transfers@.len() && position(
                    self@.transfers,
                    is_transfer(id),
                ) == Some(i as int),
                None => position(self@.transfers, is_transfer(id)) is None,
            },
    {
        let ghost wanted = is_transfer(id);
        for i in 0..self.transfers.len()
            invariant
                wanted == is_transfer(id),
                forall|k: int| 0 <= k < i ==> !wanted(#[trigger] self@.transfers[k]),
        {
            assert(self@.transfers[i as int] == (
                self.transfers@[i as int].id,
                self.transfers@[i as int].progress@,
            ));
            if self.transfers[i].id == id {
                proof {
                    lemma_position_is(self@.transfers, wanted, i as int);
                }
                return Some(i);
            }
        }
        proof {
            lemma_position_none(self@.transfers, wanted);
        }
        None
    }

    /// Records how far a transfer has come. Returns whether it has just ended.
    pub fn transfer_progressed(&mut self, id: u64, progress: TransferProgress) -> (ended: bool)
        ensures
            (final(self)@, ended) == old(self)@.progressed(id, progress@),
    {
        let i = match self.transfer_index(id) {
            Some(i) => i,
            None => {
                return false;
            },
        };
        let ghost before = self@.transfers;
        assert(before[i as int].1 == self.transfers@[i as int].progress@);
        let ended = matches!(self.transfers[i].progress.status, TransferStatus::InProgress)
            && !matches!(progress.status, TransferStatus::InProgress);
        if ended && matches!(self.mode, FileBrowserMode::Normal) {
            if let TransferStatus::Failed(message) = &progress.status {
                self.mode = FileBrowserMode::TransferError(message.clone());
            }
        }
        self.transfers[i] = BrowserTransfer { id, progress };
        assert(self@.transfers =~= before.update(i as int, (id, progress@)));
        ended
    }

    /// Whether a transfer is under way.
    pub fn has_active_transfer(&self) -> (active: bool)
        ensures
            active == first_active(self@.transfers) is Some,
    {
        self.active_index().is_some()
    }

    fn active_index(&self) -> (pos: Option<usize>)
        ensures
            match pos {
                Some(i) => first_active(self@.transfers) == Some(i as int) && i
                    < self.transfers@.len(),
                None => first_active(self@.transfers) is None,
            },
    {
        let ghost wanted = |t: (u64, ProgressView)| t.1.status is InProgress;
        for i in 0..self.transfers.len()
            invariant
                wanted == (|t: (u64, ProgressView)| t.1.status is InProgress),
                forall|k: int| 0 <= k < i ==> !wanted(#[trigger] self@.transfers[k]),
        {
            assert(self@.transfers[i as int] == (
                self.transfers@[i as int].id,
                self.transfers@[i as int].progress@,
            ));
            if matches!(self.transfers[i].progress.status, TransferStatus::InProgress) {
                proof {
                    lemma_position_is(self@.transfers, wanted, i as int);
                }
                return Some(i);
            }
        }
        proof {
            lemma_position_none(self@.transfers, wanted);
        }
        None
    }

    /// The progress to show: that of the first transfer under way, or else that
    /// of the first transfer.
    pub fn active_transfer_progress(&self) -> (progress: Option<&TransferProgress>)
        ensures
            match progress {
                Some(p) => shown_progress(self@.transfers) == Some(p@),
                None => shown_progress(self@.transfers) is None,
            },
    {
        match self.active_index() {
            Some(i) => Some(&self.transfers[i].progress),
            None => if self.transfers.len() > 0 {
                Some(&self.transfers[0].progress)
            } else {
                None
            },
        }
    }
}

/// Whether a transfer is the one with a number.
pub open spec fn is_transfer(id: u64) -> spec_fn((u64, ProgressView)) -> bool {
    |t: (u64, ProgressView)| t.0 == id
}

/// The transfers that are under way.
pub open spec fn running(transfers: Seq<(u64, ProgressView)>) -> Seq<(u64, ProgressView)> {
    transfers.filter(|t: (u64, ProgressView)| t.1.status is InProgress)
}

/// The models of some transfers.
pub open spec fn transfer_views(transfers: Seq<BrowserTransfer>) -> Seq<(u64, ProgressView)> {
    transfers.map_values(|t: BrowserTransfer| (t.id, t.progress@))
}

/// The position of the first transfer that is under way.
pub open spec fn first_active(transfers: Seq<(u64, ProgressView)>) -> Option<int> {
    position(transfers, |t: (u64, ProgressView)| t.1.status is InProgress)
}

/// The progress to show of some transfers.
pub open spec fn shown_progress(transfers: Seq<(u64, ProgressView)>) -> Option<ProgressView> {
    match first_active(transfers) {
        Some(i) => Some(transfers[i].1),
        None => if transfers.len() > 0 {
            Some(transfers[0].1)
        } else {
            None
        },
    }
}

/// The model of an optional request.
pub open spec fn opt_request(request: Option<TransferRequest>) -> Option<RequestView> {
    match request {
        Some(r) => Some(r@),
        None => None,
    }
}

// ---------------------------------------------------------------------------
// What the browser keeps
// ---------------------------------------------------------------------------

/// The attributes to sort by come around after three.
pub proof fn lemma_sort_fields_come_around(field: SortField)
    ensures
        field.following().following().following() == field,
        field.following() != field,
        field.following().following() != field,
{
}

/// A sorted listing has the entries that it had, the directories before the
/// files, and each of both in order.
pub proof fn lemma_listing_is_sorted(browser: BrowserView, pane: FileBrowserPane, entries: Seq<EntryView>)
    ensures
        browser.fill(pane, entries).entries(pane).to_multiset() == entries.to_multiset(),
        is_sorted(
            browser.fill(pane, entries).entries(pane),
            entry_order(browser.sort_by, browser.sort_ascending),
        ),
        forall|i: int, j: int|
            0 <= i < j < entries.len() && (#[trigger] browser.fill(pane, entries).entries(
                pane,
            )[j]).is_dir ==> (#[trigger] browser.fill(pane, entries).entries(pane)[i]).is_dir,
{
    let order = entry_order(browser.sort_by, browser.sort_ascending);
    lemma_entry_order(browser.sort_by, browser.sort_ascending);
    lemma_stable_sort_permutes(entries, order);
    lemma_stable_sort_sorts(entries, order);
    let sorted = browser.fill(pane, entries).entries(pane);
    assert forall|i: int, j: int|
        0 <= i < j < entries.len() && (#[trigger] sorted[j]).is_dir implies (
    #[trigger] sorted[i]).is_dir by {
        assert(order(sorted[i], sorted[j]));
    }
}

/// Sorting again by what the entries are sorted by changes nothing.
pub proof fn lemma_sorting_again_changes_nothing(
    browser: BrowserView,
    pane: FileBrowserPane,
    entries: Seq<EntryView>,
)
    ensures
        browser.fill(pane, browser.fill(pane, entries).entries(pane)) == browser.fill(
            pane,
            entries,
        ),
{
    lemma_listing_is_sorted(browser, pane, entries);
    lemma_stable_sort_idempotent(
        browser.fill(pane, entries).entries(pane),
        entry_order(browser.sort_by, browser.sort_ascending),
    );
}

/// Moving down and then up, or up and then down, leads back to where one was.
pub proof fn lemma_moves_undo_each_other(browser: BrowserView)
    requires
        0 <= browser.selected(browser.focus) < browser.visible(browser.focus).len(),
    ensures
        browser.move_down().move_up() == browser,
        browser.move_up().move_down() == browser,
{
    let count = browser.visible(browser.focus).len() as int;
    let at = browser.selected(browser.focus);
    if at + 1 < count {
        vstd::arithmetic::div_mod::lemma_small_mod((at + 1) as nat, count as nat);
    } else {
        vstd::arithmetic::div_mod::lemma_mod_self_0(count);
    }
    let up = browser.move_up();
    assert(up.visible(up.focus) == browser.visible(browser.focus));
    let down = browser.move_down();
    assert(down.visible(down.focus) == browser.visible(browser.focus));
    if at > 0 {
        vstd::arithmetic::div_mod::lemma_small_mod(at as nat, count as nat);
    } else {
        vstd::arithmetic::div_mod::lemma_mod_self_0(count);
    }
}

/// Moving never leaves what is shown.
pub proof fn lemma_moves_stay_within(browser: BrowserView)
    requires
        0 <= browser.selected(browser.focus) < browser.visible(browser.focus).len(),
    ensures
        browser.move_down().selected_entry() is Some,
        browser.move_up().selected_entry() is Some,
{
    let count = browser.visible(browser.focus).len() as int;
    let at = browser.selected(browser.focus);
    vstd::arithmetic::div_mod::lemma_mod_bound(at + 1, count);
    let down = browser.move_down();
    assert(down.visible(down.focus) == browser.visible(browser.focus));
    let up = browser.move_up();
    assert(up.visible(up.focus) == browser.visible(browser.focus));
}

/// A hidden file is only shown where hidden files are.
pub proof fn lemma_hidden_files_are_filtered(browser: BrowserView, pane: FileBrowserPane, i: int)
    requires
        !browser.show_hidden,
        0 <= i < browser.visible(pane).len(),
    ensures
        !is_hidden(browser.visible(pane)[i].name),
        browser.entries(pane).contains(browser.visible(pane)[i]),
{
    let query = trim(browser.search(pane).text);
    lemma_filter_sound(
        browser.entries(pane),
        |e: EntryView| is_shown(e, browser.show_hidden, query),
    );
}

/// Without a search, and with hidden files, everything is shown.
pub proof fn lemma_everything_is_shown(browser: BrowserView, pane: FileBrowserPane)
    requires
        browser.show_hidden,
        trim(browser.search(pane).text).len() == 0,
    ensures
        browser.visible(pane) == browser.entries(pane),
{
    let query = trim(browser.search(pane).text);
    lemma_filter_all(
        browser.entries(pane),
        |e: EntryView| is_shown(e, browser.show_hidden, query),
    );
}

/// The parent of a local directory that was entered is where one came from.
pub proof fn lemma_parent_of_entered_directory(browser: BrowserView, path: Seq<char>)
    requires
        browser.focus is Local,
        browser.enter_target() == Some(path),
        browser.local_path == path_end(browser.local_path),
        browser.local_path.len() > 0,
        browser.selected_entry()->0.name.len() > 0,
        !browser.selected_entry()->0.name.contains('/'),
        browser.selected_entry()->0.name != seq!['.'],
    ensures
        browser.go_to(FileBrowserPane::Local, path).parent_target() == Some(browser.local_path),
{
    lemma_parent_of_join(browser.local_path, browser.selected_entry()->0.name);
}

/// The parent of a remote directory that was entered is where one came from,
/// without slashes at its end, or the root.
pub proof fn lemma_parent_of_entered_remote_directory(browser: BrowserView, path: Seq<char>)
    requires
        browser.focus is Remote,
        browser.enter_target() == Some(path),
        browser.selected_entry()->0.name.len() > 0,
        !browser.selected_entry()->0.name.contains('/'),
    ensures
        browser.go_to(FileBrowserPane::Remote, path).parent_target() == Some(
            if without_trailing_slashes(browser.remote_path).len() == 0 {
                "/"@
            } else {
                without_trailing_slashes(browser.remote_path)
            },
        ),
{
    let base = without_trailing_slashes(browser.remote_path);
    lemma_remote_parent_of_join(browser.remote_path, browser.selected_entry()->0.name);
    reveal_strlit("/");
    assert(path.len() > 1);
    assert(path.take(base.len() as int) =~= base);
}

} // verus!
