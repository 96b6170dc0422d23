//! What the keys of the file browser do, whatever it shows.
use vstd::prelude::*;
use crate::filebrowser::{
    entry_order, is_shown, lemma_entry_order, running, BrowserModeView, BrowserView,
    FileBrowserPane, SortField, TransferDirection,
};
use crate::handlers::{ActionView, ListPurpose};
use crate::input::InputView;
use crate::keys::{KeyCode, KeyEvent, CONTROL};
use crate::order::{lemma_stable_sort_permutes, lemma_stable_sort_sorts, stable_sort, text_le};
use crate::paths::{join, lemma_join_lies_in, lemma_remote_join_lies_in, lies_in, path_end};
use crate::search::score_of;
use crate::seqs::{lemma_filter_complete, lemma_filter_sound, lemma_position, lemma_position_is};
use crate::sftp::{ConnectReport, EntryView, StatusView};
use crate::text::{lowercase, trim};
use crate::transfer::{ProgressView, RequestView, TransferStatusView};

verus! {

/// The directory that a pane shows.
pub open spec fn pane_path(browser: BrowserView, pane: FileBrowserPane) -> Seq<char> {
    match pane {
        FileBrowserPane::Local => browser.local_path,
        FileBrowserPane::Remote => browser.remote_path,
    }
}

/// The number of the entry that is selected in a pane, of those that it shows.
pub open spec fn cursor(browser: BrowserView, pane: FileBrowserPane) -> int {
    match pane {
        FileBrowserPane::Local => browser.local_selected,
        FileBrowserPane::Remote => browser.remote_selected,
    }
}

/// Whether the directory and a name of a pane make a path below that directory: a
/// local path is not empty, and a local name does not start at the root.
pub open spec fn is_below_pane(browser: BrowserView, pane: FileBrowserPane, name: Seq<char>) -> bool {
    pane is Local ==> browser.local_path.len() > 0 && (name.len() > 0 ==> name[0] != '/')
}

proof fn lemma_path_lies_in_pane(browser: BrowserView, name: Seq<char>)
    requires
        is_below_pane(browser, browser.focus, name),
    ensures
        lies_in(browser.path_of(name), pane_path(browser, browser.focus), name),
{
    match browser.focus {
        FileBrowserPane::Local => lemma_join_lies_in(browser.local_path, name),
        FileBrowserPane::Remote => lemma_remote_join_lies_in(browser.remote_path, name),
    }
}

// ---------------------------------------------------------------------------
// Creating and deleting
// ---------------------------------------------------------------------------

/// A directory is created in the directory that the focused pane shows, under the
/// name that was typed without the space around it. Where no name was typed, or
/// the remote side is not connected, none is created.
pub proof fn lemma_directory_is_made_in_pane(browser: BrowserView, input: InputView, key: KeyEvent)
    requires
        browser.mode == BrowserModeView::Creating(input),
        key.code is Enter,
        is_below_pane(browser, browser.focus, trim(input.text)),
    ensures
        ({
            let (after, action) = browser.files_key(key);
            let name = trim(input.text);
            &&& after.mode is Normal
            &&& if name.len() == 0 {
                action is Nothing && after.error == browser.error
            } else if browser.focus is Remote && !browser.connected {
                action is Nothing && after.error is Some
            } else {
                action matches ActionView::MakeDir(path) && lies_in(
                    path,
                    pane_path(browser, browser.focus),
                    name,
                )
            }
        }),
{
    lemma_path_lies_in_pane(browser, trim(input.text));
}

/// What is created, deleted or listed in the focused pane does not depend on the
/// directory that the other pane shows.
pub proof fn lemma_other_pane_does_not_matter(browser: BrowserView, key: KeyEvent, path: Seq<char>)
    ensures
        ({
            let other = match browser.focus {
                FileBrowserPane::Local => BrowserView { remote_path: path, ..browser },
                FileBrowserPane::Remote => BrowserView { local_path: path, ..browser },
            };
            let action = browser.files_key(key).1;
            action is MakeDir || action is Delete || action is List ==> other.files_key(key).1
                == action
        }),
{
    let other = match browser.focus {
        FileBrowserPane::Local => BrowserView { remote_path: path, ..browser },
        FileBrowserPane::Remote => BrowserView { local_path: path, ..browser },
    };
    assert(other.visible(browser.focus) == browser.visible(browser.focus));
    let s = BrowserView { error: None, ..browser };
    let t = BrowserView { error: None, ..other };
    assert(s.visible(browser.focus) == t.visible(browser.focus));
    assert(s.selected_entry() == t.selected_entry());
}

/// What is deleted is the entry that was selected when the deletion was asked for,
/// in the directory that the focused pane shows, once that was confirmed.
pub proof fn lemma_selected_entry_is_deleted(
    browser: BrowserView,
    entry: EntryView,
    ask: KeyEvent,
    key: KeyEvent,
)
    requires
        browser.mode is Normal,
        0 <= cursor(browser, browser.focus) < browser.visible(browser.focus).len(),
        browser.visible(browser.focus)[cursor(browser, browser.focus)] == entry,
        is_below_pane(browser, browser.focus, entry.name),
        ask.code == KeyCode::Char('d'),
    ensures
        ({
            let (asking, first) = browser.files_key(ask);
            let (after, action) = asking.files_key(key);
            &&& first is Nothing
            &&& asking.mode == (BrowserModeView::ConfirmDelete {
                name: entry.name,
                is_dir: entry.is_dir,
            })
            &&& key.code == KeyCode::Char('y') || key.code is Enter ==> {
                &&& action matches ActionView::Delete { path, is_dir } && is_dir == entry.is_dir
                    && lies_in(path, pane_path(browser, browser.focus), entry.name)
                &&& after.mode is Normal
            }
            &&& key.code == KeyCode::Char('n') || key.code is Esc ==> action is Nothing
                && after.mode is Normal
        }),
{
    let s = BrowserView { error: None, ..browser };
    assert(s.visible(browser.focus) == browser.visible(browser.focus));
    lemma_path_lies_in_pane(browser, entry.name);
    let asking = browser.files_key(ask).0;
    assert(asking.path_of(entry.name) == browser.path_of(entry.name));
}

/// Nothing is deleted, created, transferred or connected to but by the keys that are
/// there for it, in the mode that asks for it.
pub proof fn lemma_actions_need_their_keys(browser: BrowserView, key: KeyEvent)
    ensures
        ({
            let action = browser.files_key(key).1;
            &&& action is Delete ==> browser.mode is ConfirmDelete && (key.code == KeyCode::Char(
                'y',
            ) || key.code is Enter)
            &&& action is MakeDir ==> browser.mode is Creating && key.code is Enter
            &&& action is Transfer ==> (browser.mode is Normal && browser.connected
                || browser.mode is ConfirmTransfer) && (key.code == KeyCode::Char('y')
                || key.code is Enter)
            &&& action is Connect ==> browser.mode is PasswordPrompt && key.code is Enter
                || browser.mode is Normal && key.code == KeyCode::Char('R')
            &&& action is Close ==> browser.mode is Normal && key.code is Esc
            &&& action is Refresh ==> browser.mode is Normal && key.code == KeyCode::Char('r')
            &&& action is Prefix ==> browser.mode is Normal && key.code == KeyCode::Char('t')
            &&& action is List ==> browser.mode is Normal && (key.code is Enter
                || key.code is Backspace || key.code == KeyCode::Char('h'))
        }),
{
}

// ---------------------------------------------------------------------------
// Going through directories
// ---------------------------------------------------------------------------

/// On a directory, Enter lists what lies under its name in the directory that the
/// focused pane shows. On the remote side that takes a connection.
pub proof fn lemma_enter_lists_the_directory(browser: BrowserView, entry: EntryView, key: KeyEvent)
    requires
        browser.mode is Normal,
        key.code is Enter,
        0 <= cursor(browser, browser.focus) < browser.visible(browser.focus).len(),
        browser.visible(browser.focus)[cursor(browser, browser.focus)] == entry,
        entry.is_dir,
        is_below_pane(browser, browser.focus, entry.name),
    ensures
        browser.focus is Local || browser.connected ==> (browser.files_key(key).1 matches
            ActionView::List { path, purpose } && purpose == ListPurpose::Enter && lies_in(
            path,
            pane_path(browser, browser.focus),
            entry.name,
        )),
        browser.focus is Remote && !browser.connected ==> browser.files_key(key).1 is Nothing,
{
    let s = BrowserView { error: None, ..browser };
    assert(s.visible(browser.focus) == browser.visible(browser.focus));
    lemma_path_lies_in_pane(browser, entry.name);
}

/// To enter a directory that was just created is to go to the path that was
/// created.
pub proof fn lemma_created_directory_is_entered(
    browser: BrowserView,
    input: InputView,
    shown: BrowserView,
    key: KeyEvent,
    entry: EntryView,
)
    requires
        browser.mode == BrowserModeView::Creating(input),
        key.code is Enter,
        browser.files_key(key).1 is MakeDir,
        shown.mode is Normal,
        shown.focus == browser.focus,
        shown.local_path == browser.local_path,
        shown.remote_path == browser.remote_path,
        shown.connected,
        0 <= cursor(shown, shown.focus) < shown.visible(shown.focus).len(),
        shown.visible(shown.focus)[cursor(shown, shown.focus)] == entry,
        entry.is_dir,
        entry.name == trim(input.text),
    ensures
        shown.files_key(key).1 == (ActionView::List {
            path: browser.files_key(key).1->MakeDir_0,
            purpose: ListPurpose::Enter,
        }),
{
    let s = BrowserView { error: None, ..shown };
    assert(s.visible(shown.focus) == shown.visible(shown.focus));
}

/// A directory that was listed to be entered is shown in its own pane: its path, and
/// what is in it, with the first entry selected. The other pane stays as it is. One
/// that could not be listed is not entered, and the reason is shown.
pub proof fn lemma_entered_directory_is_shown(
    browser: BrowserView,
    pane: FileBrowserPane,
    path: Seq<char>,
    listing: Result<Seq<EntryView>, Seq<char>>,
)
    ensures
        ({
            let after = browser.entered(pane, path, listing);
            match listing {
                Ok(entries) => shows_listing(browser, after, pane, path, entries) && cursor(
                    after,
                    pane,
                ) == 0,
                Err(message) => after == (BrowserView { error: after.error, ..browser })
                    && after.error is Some && crate::transfer_laws::ends_in(
                    after.error->0,
                    message,
                ),
            }
        }),
{
    match listing {
        Ok(entries) => lemma_filled(browser.go_to(pane, path), pane, entries),
        Err(message) => {
            let start = "Cannot open directory: "@;
            assert((start + message).skip(start.len() as int) =~= message);
        },
    }
}

/// Whether a pane shows a directory and all that is in it, in order, and the other
/// pane shows what it showed.
pub open spec fn shows_listing(
    before: BrowserView,
    after: BrowserView,
    pane: FileBrowserPane,
    path: Seq<char>,
    entries: Seq<EntryView>,
) -> bool {
    match pane {
        FileBrowserPane::Local => {
            &&& after.local_path == path
            &&& after.local_entries.to_multiset() == entries.to_multiset()
            &&& is_listed(after.local_entries, before.sort_by, before.sort_ascending)
            &&& after == (BrowserView {
                local_path: after.local_path,
                local_entries: after.local_entries,
                local_selected: after.local_selected,
                ..before
            })
        },
        FileBrowserPane::Remote => {
            &&& after.remote_path == path
            &&& after.remote_entries.to_multiset() == entries.to_multiset()
            &&& is_listed(after.remote_entries, before.sort_by, before.sort_ascending)
            &&& after == (BrowserView {
                remote_path: after.remote_path,
                remote_entries: after.remote_entries,
                remote_selected: after.remote_selected,
                ..before
            })
        },
    }
}

/// Whether entries stand in the order of a listing: directories before files, and
/// within each by name without regard to case, by size, or by time, up or down.
/// An unknown time counts as the earliest.
pub open spec fn is_listed(entries: Seq<EntryView>, field: SortField, ascending: bool) -> bool {
    forall|i: int, j: int|
        #![trigger entries[i], entries[j]]
        0 <= i < j < entries.len() ==> {
            &&& entries[j].is_dir ==> entries[i].is_dir
            &&& entries[i].is_dir == entries[j].is_dir ==> {
                let (a, b) = if ascending {
                    (entries[i], entries[j])
                } else {
                    (entries[j], entries[i])
                };
                &&& field is Name ==> text_le(lowercase(a.name), lowercase(b.name))
                &&& field is Size ==> a.size <= b.size
                &&& field is Modified && b.modified is None ==> a.modified is None
                &&& field is Modified && a.modified is Some && b.modified is Some
                    ==> a.modified->0 <= b.modified->0
            }
        }
}

pub(crate) proof fn lemma_sorted_is_listed(entries: Seq<EntryView>, field: SortField, ascending: bool)
    ensures
        is_listed(stable_sort(entries, entry_order(field, ascending)), field, ascending),
        stable_sort(entries, entry_order(field, ascending)).to_multiset() == entries.to_multiset(),
        stable_sort(entries, entry_order(field, ascending)).len() == entries.len(),
{
    let order = entry_order(field, ascending);
    lemma_entry_order(field, ascending);
    lemma_stable_sort_permutes(entries, order);
    lemma_stable_sort_sorts(entries, order);
    let sorted = stable_sort(entries, order);
    assert forall|i: int, j: int|
        #![trigger sorted[i], sorted[j]]
        0 <= i < j < sorted.len() implies order(sorted[i], sorted[j]) by {}
}

proof fn lemma_filled(browser: BrowserView, pane: FileBrowserPane, entries: Seq<EntryView>)
    ensures
        is_listed(
            browser.fill(pane, entries).entries(pane),
            browser.sort_by,
            browser.sort_ascending,
        ),
        browser.fill(pane, entries).entries(pane).to_multiset() == entries.to_multiset(),
        browser.fill(pane, entries).entries(pane).len() == entries.len(),
{
    lemma_sorted_is_listed(entries, browser.sort_by, browser.sort_ascending);
}

/// Going up in the remote pane leads to the directory that the shown one lies in.
/// From the root there is nowhere to go.
pub proof fn lemma_remote_parent(
    browser: BrowserView,
    key: KeyEvent,
    dir: Seq<char>,
    name: Seq<char>,
)
    requires
        browser.mode is Normal,
        browser.focus is Remote,
        browser.connected,
        key.code is Backspace || key.code == KeyCode::Char('h'),
        !key.modifiers.has(CONTROL),
        !name.contains('/'),
        name.len() > 0,
    ensures
        browser.remote_path == dir + seq!['/'] + name && dir.len() > 0 ==> browser.files_key(key).1
            == (ActionView::List { path: dir, purpose: ListPurpose::Parent }),
        browser.remote_path == seq!['/'] + name ==> browser.files_key(key).1 == (ActionView::List {
            path: seq!['/'],
            purpose: ListPurpose::Parent,
        }),
        browser.remote_path == seq!['/'] ==> browser.files_key(key).1 is Nothing,
{
    reveal_strlit("/");
    assert("/"@ =~= seq!['/']);
    let path = browser.remote_path;
    crate::text::lemma_last_position(path, '/');
    let at = crate::text::last_position(path, '/');
    if path == dir + seq!['/'] + name && dir.len() > 0 {
        assert(path[dir.len() as int] == '/');
        if at->0 > dir.len() {
            assert(name.contains(name[at->0 - dir.len() - 1]));
        }
        assert(path.take(dir.len() as int) =~= dir);
        assert(path.len() > 1);
    }
    if path == seq!['/'] + name {
        assert(path[0] == '/');
        if at->0 > 0 {
            assert(name.contains(name[at->0 - 1]));
        }
        assert(path.len() > 1);
    }
}

/// Going up in the local pane leads to the directory that the shown one lies in.
pub proof fn lemma_local_parent(browser: BrowserView, key: KeyEvent, dir: Seq<char>, name: Seq<char>)
    requires
        browser.mode is Normal,
        browser.focus is Local,
        key.code is Backspace || key.code == KeyCode::Char('h'),
        !key.modifiers.has(CONTROL),
        !name.contains('/'),
        name.len() > 0,
        name != seq!['.'],
        dir.len() > 0,
        dir.last() != '/',
        dir.last() != '.',
    ensures
        browser.local_path == dir + seq!['/'] + name ==> browser.files_key(key).1
            == (ActionView::List { path: dir, purpose: ListPurpose::Parent }),
        browser.local_path == seq!['/'] + name ==> browser.files_key(key).1 == (ActionView::List {
            path: seq!['/'],
            purpose: ListPurpose::Parent,
        }),
        browser.local_path == seq!['/'] ==> browser.files_key(key).1 is Nothing,
{
    assert(name[0] != '/') by {
        assert(name.contains(name[0]));
    }
    let path = browser.local_path;
    if path == dir + seq!['/'] + name {
        assert(path =~= join(dir, name));
        crate::paths::lemma_parent_of_join(dir, name);
    }
    if path == seq!['/'] + name {
        let root = seq!['/'];
        assert(path_end(root) == root);
        assert(path =~= join(root, name));
        crate::paths::lemma_parent_of_join(root, name);
    }
    if path == seq!['/'] {
        assert(path_end(path) =~= seq!['/']);
    }
}

/// After going up, the directory that one comes from is selected, if it is shown:
/// no entry before the selected one has its name.
pub proof fn lemma_directory_left_is_selected(
    browser: BrowserView,
    pane: FileBrowserPane,
    path: Seq<char>,
    entries: Seq<EntryView>,
    dir: Seq<char>,
    name: Seq<char>,
    i: int,
)
    requires
        lies_in(pane_path(browser, pane), dir, name),
        crate::paths::is_plain(name),
        name != seq!['.'],
        name != seq!['.', '.'],
        ({
            let after = browser.ascended(pane, path, Ok(entries));
            0 <= i < after.visible(pane).len() && after.visible(pane)[i].name == name
        }),
    ensures
        ({
            let after = browser.ascended(pane, path, Ok(entries));
            &&& shows_listing(browser, after, pane, path, entries)
            &&& 0 <= cursor(after, pane) <= i
            &&& after.visible(pane)[cursor(after, pane)].name == name
        }),
{
    let there = browser.go_to(pane, path).fill(pane, entries);
    lemma_filled(browser.go_to(pane, path), pane, entries);
    let after = browser.ascended(pane, path, Ok(entries));
    crate::paths::lemma_lies_in_one_directory(pane_path(browser, pane), dir, name, dir, name);
    crate::paths::lemma_file_name_of_path(pane_path(browser, pane), dir, name);
    assert(after.visible(pane) == there.visible(pane));
    lemma_position(there.visible(pane), |e: EntryView| e.name == name);
}

// ---------------------------------------------------------------------------
// What is shown
// ---------------------------------------------------------------------------

/// What a pane shows stands in the order of its own entries: those that match the
/// pane's own search, without hidden ones unless those are to be shown.
pub proof fn lemma_panes_keep_their_order(browser: BrowserView)
    ensures
        browser.visible(FileBrowserPane::Local) == browser.local_entries.filter(
            |e: EntryView|
                (browser.show_hidden || e.name.len() == 0 || e.name[0] != '.') && (trim(
                    browser.local_search.text,
                ).len() == 0 || score_of(trim(browser.local_search.text), e.name) is Some),
        ),
        browser.visible(FileBrowserPane::Remote) == browser.remote_entries.filter(
            |e: EntryView|
                (browser.show_hidden || e.name.len() == 0 || e.name[0] != '.') && (trim(
                    browser.remote_search.text,
                ).len() == 0 || score_of(trim(browser.remote_search.text), e.name) is Some),
        ),
{
    let left = trim(browser.local_search.text);
    let right = trim(browser.remote_search.text);
    let local = |e: EntryView|
        (browser.show_hidden || e.name.len() == 0 || e.name[0] != '.') && (left.len() == 0
            || score_of(left, e.name) is Some);
    let remote = |e: EntryView|
        (browser.show_hidden || e.name.len() == 0 || e.name[0] != '.') && (right.len() == 0
            || score_of(right, e.name) is Some);
    assert((|e: EntryView| is_shown(e, browser.show_hidden, left)) =~= local);
    assert((|e: EntryView| is_shown(e, browser.show_hidden, right)) =~= remote);
    assert((|e: EntryView|
        (browser.show_hidden || e.name.len() == 0 || e.name[0] != '.') && (trim(
            browser.local_search.text,
        ).len() == 0 || score_of(trim(browser.local_search.text), e.name) is Some)) =~= local);
    assert((|e: EntryView|
        (browser.show_hidden || e.name.len() == 0 || e.name[0] != '.') && (trim(
            browser.remote_search.text,
        ).len() == 0 || score_of(trim(browser.remote_search.text), e.name) is Some)) =~= remote);
}

/// A pane shows its own entries: each that matches the pane's own search, and hidden
/// ones only where those are to be shown.
pub proof fn lemma_panes_show_their_own(
    browser: BrowserView,
    pane: FileBrowserPane,
    entry: EntryView,
)
    ensures
        browser.visible(pane).contains(entry) <==> {
            let (entries, search) = match pane {
                FileBrowserPane::Local => (browser.local_entries, browser.local_search),
                FileBrowserPane::Remote => (browser.remote_entries, browser.remote_search),
            };
            &&& entries.contains(entry)
            &&& browser.show_hidden || entry.name.len() == 0 || entry.name[0] != '.'
            &&& trim(search.text).len() == 0 || score_of(trim(search.text), entry.name) is Some
        },
{
    let entries = browser.entries(pane);
    let query = trim(browser.search(pane).text);
    let keep = |e: EntryView| is_shown(e, browser.show_hidden, query);
    lemma_filter_sound(entries, keep);
    if entries.contains(entry) && keep(entry) {
        lemma_filter_complete(entries, keep, entry);
    }
    if browser.visible(pane).contains(entry) {
        let i = choose|i: int|
            0 <= i < browser.visible(pane).len() && browser.visible(pane)[i] == entry;
        assert(keep(entries.filter(keep)[i]));
    }
}

/// The dot shows and hides hidden files: it changes nothing else but selections that
/// would pass the end.
pub proof fn lemma_dot_toggles_hidden(browser: BrowserView, key: KeyEvent)
    requires
        browser.mode is Normal,
        key.code == KeyCode::Char('.'),
    ensures
        ({
            let (after, action) = browser.files_key(key);
            &&& action is Nothing
            &&& after.show_hidden == !browser.show_hidden
            &&& after == (BrowserView {
                show_hidden: after.show_hidden,
                local_selected: after.local_selected,
                remote_selected: after.remote_selected,
                error: None,
                ..browser
            })
            &&& browser.local_selected < after.visible(FileBrowserPane::Local).len()
                ==> after.local_selected == browser.local_selected
            &&& browser.remote_selected < after.visible(FileBrowserPane::Remote).len()
                ==> after.remote_selected == browser.remote_selected
        }),
{
    let after = browser.files_key(key).0;
    let s = BrowserView { show_hidden: !browser.show_hidden, error: None, ..browser };
    assert(after.visible(FileBrowserPane::Local) == s.visible(FileBrowserPane::Local));
    assert(after.visible(FileBrowserPane::Remote) == s.visible(FileBrowserPane::Remote));
}

/// The keys for sorting go from the name to the size, to the time and back, and turn
/// the direction around. Both panes then stand in the new order, with the entries
/// that they had.
pub proof fn lemma_sorting_keys(browser: BrowserView, key: KeyEvent)
    requires
        browser.mode is Normal,
        key.code == KeyCode::Char('s') || key.code == KeyCode::Char('S'),
    ensures
        ({
            let (after, action) = browser.files_key(key);
            &&& action is Nothing
            &&& key.code == KeyCode::Char('s') ==> after.sort_ascending == browser.sort_ascending
                && after.sort_by == (match browser.sort_by {
                SortField::Name => SortField::Size,
                SortField::Size => SortField::Modified,
                SortField::Modified => SortField::Name,
            })
            &&& key.code == KeyCode::Char('S') ==> after.sort_by == browser.sort_by
                && after.sort_ascending == !browser.sort_ascending
            &&& is_listed(after.local_entries, after.sort_by, after.sort_ascending)
            &&& is_listed(after.remote_entries, after.sort_by, after.sort_ascending)
            &&& after.local_entries.to_multiset() == browser.local_entries.to_multiset()
            &&& after.remote_entries.to_multiset() == browser.remote_entries.to_multiset()
            &&& after == (BrowserView {
                sort_by: after.sort_by,
                sort_ascending: after.sort_ascending,
                local_entries: after.local_entries,
                remote_entries: after.remote_entries,
                local_selected: after.local_selected,
                remote_selected: after.remote_selected,
                error: None,
                ..browser
            })
        }),
{
    let after = browser.files_key(key).0;
    lemma_sorted_is_listed(browser.local_entries, after.sort_by, after.sort_ascending);
    lemma_sorted_is_listed(browser.remote_entries, after.sort_by, after.sort_ascending);
}

/// The keys for moving go one entry down or up in the focused pane, around the ends,
/// and change nothing in the other.
pub proof fn lemma_moving_keys(browser: BrowserView, key: KeyEvent)
    requires
        browser.mode is Normal,
        0 <= cursor(browser, browser.focus) < browser.visible(browser.focus).len(),
    ensures
        ({
            let (after, action) = browser.files_key(key);
            let at = cursor(browser, browser.focus);
            let n = browser.visible(browser.focus).len();
            let moved = match browser.focus {
                FileBrowserPane::Local => after == (BrowserView {
                    local_selected: after.local_selected,
                    error: None,
                    ..browser
                }),
                FileBrowserPane::Remote => after == (BrowserView {
                    remote_selected: after.remote_selected,
                    error: None,
                    ..browser
                }),
            };
            let now = match browser.focus {
                FileBrowserPane::Local => after.local_selected,
                FileBrowserPane::Remote => after.remote_selected,
            };
            &&& key.code is Down || key.code == KeyCode::Char('j') ==> action is Nothing && moved
                && now == (if at + 1 < n {
                at + 1
            } else {
                0
            })
            &&& key.code is Up || key.code == KeyCode::Char('k') ==> action is Nothing && moved
                && now == (if at > 0 {
                at - 1
            } else {
                n - 1
            })
        }),
{
    let s = BrowserView { error: None, ..browser };
    assert(s.visible(browser.focus) == browser.visible(browser.focus));
    let n = browser.visible(browser.focus).len();
    let at = cursor(browser, browser.focus);
    if at + 1 < n {
        vstd::arithmetic::div_mod::lemma_small_mod((at + 1) as nat, n);
    } else {
        vstd::arithmetic::div_mod::lemma_mod_self_0(n as int);
    }
}

/// Tab gives the focus to the other pane and changes nothing else.
pub proof fn lemma_tab_changes_pane(browser: BrowserView, key: KeyEvent)
    requires
        browser.mode is Normal,
        key.code is Tab,
    ensures
        browser.files_key(key).1 is Nothing,
        browser.files_key(key).0.focus != browser.focus,
        browser.files_key(key).0 == (BrowserView {
            focus: browser.files_key(key).0.focus,
            error: None,
            ..browser
        }),
{
}

/// What the remaining keys ask for: to list both panes again, to close the browser,
/// to take a tab command, to type a search or a name, and to connect again after a
/// failure.
pub proof fn lemma_remaining_keys(browser: BrowserView, key: KeyEvent)
    requires
        browser.mode is Normal,
    ensures
        ({
            let (after, action) = browser.files_key(key);
            let same = BrowserView { error: None, ..browser };
            &&& key.code == KeyCode::Char('r') ==> action is Refresh && after == same
            &&& key.code is Esc ==> action is Close && after == same
            &&& key.code == KeyCode::Char('t') && key.modifiers.has(CONTROL) ==> action is Prefix
                && after == same
            &&& key.code == KeyCode::Char('/') ==> action is Nothing && after == (BrowserView {
                mode: BrowserModeView::Searching(browser.focus),
                ..same
            })
            &&& key.code == KeyCode::Char('m') ==> action is Nothing && (
            after.mode matches BrowserModeView::Creating(input) && input.text.len() == 0) && after
                == (BrowserView { mode: after.mode, ..same })
            &&& key.code == KeyCode::Char('R') ==> if browser.connection_status is Failed {
                action == ActionView::Connect(None) && after == (BrowserView {
                    connection_status: StatusView::Connecting,
                    ..same
                })
            } else {
                action is Nothing && after == same
            }
        }),
{
}

/// Whether a selection follows another in a list of some length: it stays where it is, and
/// where that is past the end, the last one is selected.
pub open spec fn is_kept_within(before: int, after: int, count: nat) -> bool {
    if before < count {
        after == before
    } else if count > 0 {
        after == count - 1
    } else {
        after == 0
    }
}

/// Whatever narrows or widens what is shown, typing a search, dropping it, or showing hidden
/// files, leaves the selections of both panes within it.
pub proof fn lemma_selection_stays_within(
    browser: BrowserView,
    searched: FileBrowserPane,
    key: KeyEvent,
    pane: FileBrowserPane,
)
    requires
        ({
            ||| browser.mode is Normal && (key.code == KeyCode::Char('.') || key.code
                == KeyCode::Char('s') || key.code == KeyCode::Char('S'))
            ||| browser.mode == BrowserModeView::Searching(searched) && key.code is Esc
            ||| browser.mode == BrowserModeView::Searching(searched) && !(key.code is Enter) && (
            match searched {
                FileBrowserPane::Local => browser.local_search,
                FileBrowserPane::Remote => browser.remote_search,
            }).takes(key)
        }),
    ensures
        ({
            let after = browser.files_key(key).0;
            is_kept_within(cursor(browser, pane), cursor(after, pane), after.visible(pane).len())
        }),
{
    let after = browser.files_key(key).0;
    let s = BrowserView {
        local_selected: browser.local_selected,
        remote_selected: browser.remote_selected,
        ..after
    };
    assert(after.visible(FileBrowserPane::Local) == s.visible(FileBrowserPane::Local));
    assert(after.visible(FileBrowserPane::Remote) == s.visible(FileBrowserPane::Remote));
}

/// Whether a key means something in the file browser while nothing is asked.
pub open spec fn means_something(code: KeyCode, control: bool) -> bool {
    match code {
        KeyCode::Esc | KeyCode::Up | KeyCode::Down | KeyCode::Enter | KeyCode::Tab => true,
        KeyCode::Backspace => !control,
        KeyCode::Char(c) => {
            ||| c == 'j' || c == 'k' || c == 'y' || c == '.' || c == 's' || c == 'S' || c == 'r'
            ||| c == 'm' || c == 'd' || c == '/' || c == 'R'
            ||| c == 'h' && !control
            ||| c == 't' && control
        },
        _ => false,
    }
}

/// Another key does nothing but to take an error away.
pub proof fn lemma_other_keys_do_nothing(browser: BrowserView, key: KeyEvent)
    requires
        browser.mode is Normal,
        !means_something(key.code, key.modifiers.bits & 2 != 0),
    ensures
        browser.files_key(key) == (BrowserView { error: None, ..browser }, ActionView::Nothing),
{
}

/// Whether two states of a browser are about the same things: the directories that
/// are shown and what is in them, the host, the connection and the transfers.
pub open spec fn is_about_the_same(before: BrowserView, after: BrowserView) -> bool {
    &&& after.alias == before.alias
    &&& after.host == before.host
    &&& after.local_path == before.local_path
    &&& after.remote_path == before.remote_path
    &&& after.connected == before.connected
    &&& after.transfers == before.transfers
}

/// Keys change neither the directories that are shown nor what is in them, nor the
/// host, the connection and the transfers: those change by what comes back. Only
/// the keys for sorting change the order of the entries.
pub proof fn lemma_keys_keep_what_is_there(browser: BrowserView, key: KeyEvent)
    ensures
        is_about_the_same(browser, browser.files_key(key).0),
        !(browser.mode is Normal && (key.code == KeyCode::Char('s') || key.code == KeyCode::Char(
            'S',
        ))) ==> browser.files_key(key).0.local_entries == browser.local_entries
            && browser.files_key(key).0.remote_entries == browser.remote_entries,
{
    match browser.mode {
        BrowserModeView::Normal => lemma_normal_keys_keep(browser, key),
        _ => {},
    }
}

proof fn lemma_normal_keys_keep(browser: BrowserView, key: KeyEvent)
    requires
        browser.mode is Normal,
    ensures
        is_about_the_same(browser, browser.files_key(key).0),
        !(key.code == KeyCode::Char('s') || key.code == KeyCode::Char('S'))
            ==> browser.files_key(key).0.local_entries == browser.local_entries
            && browser.files_key(key).0.remote_entries == browser.remote_entries,
{
    assert(browser.files_key(key) == browser.normal_key(key));
}

// ---------------------------------------------------------------------------
// Dialogs
// ---------------------------------------------------------------------------

/// A password that was typed is what the connection is tried with. Without one the
/// attempt is given up.
pub proof fn lemma_password_is_passed_on(browser: BrowserView, input: InputView, key: KeyEvent)
    requires
        browser.mode == BrowserModeView::PasswordPrompt(input),
    ensures
        ({
            let (after, action) = browser.files_key(key);
            &&& key.code is Enter ==> action == ActionView::Connect(Some(input.text))
                && after.connection_status is Connecting && after.mode is Normal
            &&& key.code is Esc ==> action is Nothing && after.connection_status is Failed
                && after.mode is Normal
            &&& !(key.code is Enter) && !(key.code is Esc) ==> action is Nothing && after == (
            BrowserView { mode: BrowserModeView::PasswordPrompt(input.after(key)), ..browser })
        }),
{
}

/// A name that is typed is kept until Enter or Esc, and Esc drops it.
pub proof fn lemma_name_is_typed(browser: BrowserView, input: InputView, key: KeyEvent)
    requires
        browser.mode == BrowserModeView::Creating(input),
        !(key.code is Enter),
    ensures
        ({
            let (after, action) = browser.files_key(key);
            &&& action is Nothing
            &&& key.code is Esc ==> after == (BrowserView { mode: BrowserModeView::Normal, ..browser
            })
            &&& !(key.code is Esc) ==> after == (BrowserView {
                mode: BrowserModeView::Creating(input.after(key)),
                ..browser
            })
        }),
{
}

/// A search that is typed goes into the search of its own pane. Enter keeps it and
/// Esc drops it, and the search of the other pane stays as it is.
pub proof fn lemma_search_is_typed(browser: BrowserView, pane: FileBrowserPane, key: KeyEvent)
    requires
        browser.mode == BrowserModeView::Searching(pane),
    ensures
        ({
            let (after, action) = browser.files_key(key);
            let (own, other) = match pane {
                FileBrowserPane::Local => (after.local_search, after.remote_search),
                FileBrowserPane::Remote => (after.remote_search, after.local_search),
            };
            let (was, others) = match pane {
                FileBrowserPane::Local => (browser.local_search, browser.remote_search),
                FileBrowserPane::Remote => (browser.remote_search, browser.local_search),
            };
            &&& action is Nothing
            &&& other == others
            &&& key.code is Enter ==> own == was && after.mode is Normal
            &&& key.code is Esc ==> own.text.len() == 0 && after.mode is Normal
            &&& !(key.code is Enter) && !(key.code is Esc) ==> own == was.after(key) && after.mode
                == browser.mode
        }),
{
}

/// A failure that is shown goes away by Enter or Esc.
pub proof fn lemma_failure_is_dismissed(browser: BrowserView, message: Seq<char>, key: KeyEvent)
    requires
        browser.mode == BrowserModeView::TransferError(message),
    ensures
        browser.files_key(key).1 is Nothing,
        key.code is Enter || key.code is Esc ==> browser.files_key(key).0 == (BrowserView {
            mode: BrowserModeView::Normal,
            ..browser
        }),
        !(key.code is Enter) && !(key.code is Esc) ==> browser.files_key(key).0 == browser,
{
}

// ---------------------------------------------------------------------------
// Transfers
// ---------------------------------------------------------------------------

/// Whether a request transfers a name between the directories of a browser, out of
/// the given pane.
pub open spec fn transfers_out_of(
    request: RequestView,
    browser: BrowserView,
    pane: FileBrowserPane,
    name: Seq<char>,
    is_dir: bool,
) -> bool {
    match request {
        RequestView::Upload { local_path, remote_path } => pane is Local && !is_dir && lies_in(
            local_path,
            browser.local_path,
            name,
        ) && lies_in(remote_path, browser.remote_path, name),
        RequestView::UploadDir { local_path, remote_path } => pane is Local && is_dir && lies_in(
            local_path,
            browser.local_path,
            name,
        ) && lies_in(remote_path, browser.remote_path, name),
        RequestView::Download { remote_path, local_path } => pane is Remote && !is_dir && lies_in(
            local_path,
            browser.local_path,
            name,
        ) && lies_in(remote_path, browser.remote_path, name),
        RequestView::DownloadDir { remote_path, local_path } => pane is Remote && is_dir && lies_in(
            local_path,
            browser.local_path,
            name,
        ) && lies_in(remote_path, browser.remote_path, name),
    }
}

proof fn lemma_request_transfers(
    browser: BrowserView,
    name: Seq<char>,
    is_dir: bool,
    pane: FileBrowserPane,
)
    requires
        browser.local_path.len() > 0,
        name.len() > 0 ==> name[0] != '/',
    ensures
        transfers_out_of(
            browser.request_for(
                name,
                is_dir,
                match pane {
                    FileBrowserPane::Local => TransferDirection::Upload,
                    FileBrowserPane::Remote => TransferDirection::Download,
                },
            ),
            browser,
            pane,
            name,
            is_dir,
        ),
{
    lemma_join_lies_in(browser.local_path, name);
    lemma_remote_join_lies_in(browser.remote_path, name);
}

/// Whether entries hold one of a name.
pub open spec fn has_name(entries: Seq<EntryView>, name: Seq<char>) -> bool {
    exists|i: int| 0 <= i < entries.len() && (#[trigger] entries[i]).name == name
}

/// The selected entry is transferred out of the focused pane, to the same name in the
/// directory of the other: by `y`, and a file by Enter too. Where the other pane
/// holds that name, it is asked first, and without a connection nothing is
/// transferred.
pub proof fn lemma_selected_entry_is_transferred(
    browser: BrowserView,
    entry: EntryView,
    key: KeyEvent,
)
    requires
        browser.mode is Normal,
        0 <= cursor(browser, browser.focus) < browser.visible(browser.focus).len(),
        browser.visible(browser.focus)[cursor(browser, browser.focus)] == entry,
        key.code == KeyCode::Char('y') || key.code is Enter && !entry.is_dir,
        browser.local_path.len() > 0,
        entry.name.len() > 0 ==> entry.name[0] != '/',
    ensures
        ({
            let (after, action) = browser.files_key(key);
            let there = match browser.focus {
                FileBrowserPane::Local => browser.remote_entries,
                FileBrowserPane::Remote => browser.local_entries,
            };
            if !browser.connected {
                action is Nothing && after.error is Some && after.mode is Normal
            } else if has_name(there, entry.name) {
                action is Nothing && after.mode == (BrowserModeView::ConfirmTransfer {
                    file: entry.name,
                    direction: match browser.focus {
                        FileBrowserPane::Local => TransferDirection::Upload,
                        FileBrowserPane::Remote => TransferDirection::Download,
                    },
                })
            } else {
                after.mode is Normal && (action matches ActionView::Transfer(request)
                    && transfers_out_of(
                    request,
                    browser,
                    browser.focus,
                    entry.name,
                    entry.is_dir,
                ))
            }
        }),
{
    let s = BrowserView { error: None, ..browser };
    assert(s.visible(browser.focus) == browser.visible(browser.focus));
    assert(s.selected_entry() == Some(entry));
    lemma_request_transfers(s, entry.name, entry.is_dir, browser.focus);
    let there = match browser.focus {
        FileBrowserPane::Local => browser.remote_entries,
        FileBrowserPane::Remote => browser.local_entries,
    };
    lemma_position(there, |e: EntryView| e.name == entry.name);
}

/// The entries on the side that a transfer reads.
pub open spec fn source_entries(browser: BrowserView, direction: TransferDirection) -> Seq<
    EntryView,
> {
    match direction {
        TransferDirection::Upload => browser.local_entries,
        TransferDirection::Download => browser.remote_entries,
    }
}

/// A transfer that was asked about is carried out when it is confirmed, in the
/// direction that was asked about, and not when it is declined.
pub proof fn lemma_confirmed_transfer_is_made(
    browser: BrowserView,
    file: Seq<char>,
    direction: TransferDirection,
    key: KeyEvent,
    i: int,
)
    requires
        browser.mode == (BrowserModeView::ConfirmTransfer { file, direction }),
        browser.local_path.len() > 0,
        file.len() > 0 ==> file[0] != '/',
        0 <= i < source_entries(browser, direction).len(),
        source_entries(browser, direction)[i].name == file,
        forall|k: int|
            0 <= k < i ==> (#[trigger] source_entries(browser, direction)[k]).name != file,
    ensures
        ({
            let (after, action) = browser.files_key(key);
            let entries = source_entries(browser, direction);
            let pane = match direction {
                TransferDirection::Upload => FileBrowserPane::Local,
                TransferDirection::Download => FileBrowserPane::Remote,
            };
            &&& key.code == KeyCode::Char('y') || key.code is Enter ==> after.mode is Normal && (
            action matches ActionView::Transfer(request) && transfers_out_of(
                request,
                browser,
                pane,
                file,
                entries[i].is_dir,
            ))
            &&& key.code == KeyCode::Char('n') || key.code is Esc ==> after.mode is Normal
                && action is Nothing
        }),
{
    let entries = source_entries(browser, direction);
    let pane = match direction {
        TransferDirection::Upload => FileBrowserPane::Local,
        TransferDirection::Download => FileBrowserPane::Remote,
    };
    let wanted = |e: EntryView| e.name == file;
    assert forall|k: int| 0 <= k < i implies !wanted(#[trigger] entries[k]) by {}
    lemma_position_is(entries, wanted, i);
    lemma_request_transfers(browser, file, entries[i].is_dir, pane);
}

/// A transfer that is started is kept behind those that are under way. Those that
/// have ended are not kept.
pub proof fn lemma_started_transfer_is_kept(
    browser: BrowserView,
    id: u64,
    progress: ProgressView,
    t: (u64, ProgressView),
)
    ensures
        ({
            let after = browser.with_transfer(id, progress);
            &&& after == (BrowserView { transfers: after.transfers, ..browser })
            &&& after.transfers.len() > 0
            &&& after.transfers[after.transfers.len() - 1] == (id, progress)
            &&& after.transfers.drop_last().contains(t) <==> browser.transfers.contains(t)
                && t.1.status is InProgress
        }),
{
    let keep = |t: (u64, ProgressView)| t.1.status is InProgress;
    let kept = running(browser.transfers);
    lemma_filter_sound(browser.transfers, keep);
    assert(browser.with_transfer(id, progress).transfers.drop_last() =~= kept);
    if browser.transfers.contains(t) && keep(t) {
        lemma_filter_complete(browser.transfers, keep, t);
    }
    if kept.contains(t) {
        let i = choose|i: int| 0 <= i < kept.len() && kept[i] == t;
        assert(keep(browser.transfers.filter(keep)[i]));
    }
}

/// What a transfer has come to is noted with that transfer and no other. That it has
/// ended is reported once, when it leaves the state of being under way, and a
/// failure is shown unless something else is asked.
pub proof fn lemma_progress_is_noted(
    browser: BrowserView,
    id: u64,
    progress: ProgressView,
    i: int,
)
    requires
        0 <= i < browser.transfers.len(),
        browser.transfers[i].0 == id,
        forall|k: int| 0 <= k < i ==> (#[trigger] browser.transfers[k]).0 != id,
    ensures
        ({
            let (after, ended) = browser.progressed(id, progress);
            &&& after.transfers.len() == browser.transfers.len()
            &&& after.transfers[i] == (id, progress)
            &&& forall|k: int|
                0 <= k < browser.transfers.len() && k != i ==> (#[trigger] after.transfers[k])
                    == browser.transfers[k]
            &&& ended == (browser.transfers[i].1.status is InProgress && !(
            progress.status is InProgress))
            &&& after == (BrowserView { transfers: after.transfers, mode: after.mode, ..browser })
            &&& match progress.status {
                TransferStatusView::Failed(message) if ended && browser.mode is Normal => after.mode
                    == BrowserModeView::TransferError(message),
                _ => after.mode == browser.mode,
            }
        }),
{
    lemma_position_is(browser.transfers, crate::filebrowser::is_transfer(id), i);
}

// ---------------------------------------------------------------------------
// Connecting
// ---------------------------------------------------------------------------

/// Once the connection is up, the remote pane shows the home directory that was
/// reported and what is in it. Where a password is needed, it is asked for unless
/// something else is.
pub proof fn lemma_connection_is_shown(browser: BrowserView)
    ensures
        match browser.connection_status {
            StatusView::ConnectedWithData { home_dir, entries } => {
                let after = browser.polled();
                &&& after.connection_status is Connected
                &&& after.remote_path == home_dir
                &&& after.remote_entries.to_multiset() == entries.to_multiset()
                &&& is_listed(after.remote_entries, browser.sort_by, browser.sort_ascending)
                &&& after.remote_selected == 0
                &&& after.local_path == browser.local_path && after.local_entries
                    == browser.local_entries && after.local_selected == browser.local_selected
                &&& after.mode == browser.mode && after.focus == browser.focus
            },
            StatusView::NeedsPassword => if browser.mode is Normal {
                browser.polled().mode matches BrowserModeView::PasswordPrompt(input)
                    && input.text.len() == 0
            } else {
                browser.polled() == browser
            },
            _ => browser.polled() == browser,
        },
{
    if let StatusView::ConnectedWithData { home_dir, entries } = browser.connection_status {
        lemma_filled(browser.go_to(FileBrowserPane::Remote, home_dir), FileBrowserPane::Remote, entries);
    }
}

/// Whether there is a connection is what the last report says, and nothing else of
/// the browser changes by it but the state that is shown.
pub proof fn lemma_report_connects(browser: BrowserView, report: ConnectReport, credential: bool)
    ensures
        browser.reported(report, credential).connected == (report is Up),
        browser.reported(report, credential) == (BrowserView {
            connected: report is Up,
            connection_status: browser.reported(report, credential).connection_status,
            ..browser
        }),
{
}

/// A listing that was asked for again replaces what its pane holds and nothing else.
/// A remote one that fails is reported.
pub proof fn lemma_refreshed_pane(
    browser: BrowserView,
    pane: FileBrowserPane,
    listing: Result<Seq<EntryView>, Seq<char>>,
)
    ensures
        ({
            let after = browser.refreshed(pane, listing);
            &&& after.local_path == browser.local_path && after.remote_path == browser.remote_path
            &&& match listing {
                Ok(entries) => match pane {
                    FileBrowserPane::Local => after.local_entries.to_multiset()
                        == entries.to_multiset() && is_listed(
                        after.local_entries,
                        browser.sort_by,
                        browser.sort_ascending,
                    ) && after.remote_entries == browser.remote_entries,
                    FileBrowserPane::Remote => after.remote_entries.to_multiset()
                        == entries.to_multiset() && is_listed(
                        after.remote_entries,
                        browser.sort_by,
                        browser.sort_ascending,
                    ) && after.local_entries == browser.local_entries,
                },
                Err(message) => match pane {
                    FileBrowserPane::Local => after == browser,
                    FileBrowserPane::Remote => after == (BrowserView { error: after.error, ..browser
                    }) && after.error is Some && crate::transfer_laws::ends_in(
                        after.error->0,
                        message,
                    ),
                },
            }
        }),
{
    match listing {
        Ok(entries) => lemma_filled(browser, pane, entries),
        Err(message) => {
            let start = "Refresh failed: "@;
            assert((start + message).skip(start.len() as int) =~= message);
        },
    }
}

} // verus!
