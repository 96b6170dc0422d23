//! The file browser.
use hosttui::filebrowser::{
    list_local_dir, sort_entries, start_dir, FileBrowser, FileBrowserMode, FileBrowserPane,
    SortField, TransferDirection,
};
use hosttui::model::Host;
use hosttui::sftp::FileEntry;
use hosttui::transfer::{Listed, TransferProgress, TransferRequest, TransferStatus};
use tui_input::Input;

fn entry(name: &str, is_dir: bool, size: u64) -> FileEntry {
    FileEntry { name: name.into(), is_dir, size, modified: None, permissions: None }
}

fn entry_with_modified(name: &str, is_dir: bool, size: u64, modified: u64) -> FileEntry {
    FileEntry { name: name.into(), is_dir, size, modified: Some(modified), permissions: None }
}

fn test_host() -> Host {
    Host {
        alias: "test".into(),
        hostname: "127.0.0.1".into(),
        user: "user".into(),
        port: 22,
        identity_file: None,
        group: None,
        extra: vec![],
        details: String::new(),
        last_accessed: String::new(),
    }
}

fn browser_with_entries(entries: Vec<FileEntry>) -> FileBrowser {
    FileBrowser::open_at(test_host(), "/tmp/test".into(), entries)
}

fn names<'a>(entries: &[&'a FileEntry]) -> Vec<&'a str> {
    entries.iter().map(|e| e.name.as_str()).collect()
}

#[test]
fn move_down_wraps() {
    let mut b = browser_with_entries(vec![entry("a.txt", false, 10), entry("b.txt", false, 20)]);
    assert_eq!(b.local_selected, 0);

    b.move_down();
    assert_eq!(b.local_selected, 1);

    b.move_down();
    assert_eq!(b.local_selected, 0);
}

#[test]
fn move_up_wraps() {
    let mut b = browser_with_entries(vec![entry("a.txt", false, 10), entry("b.txt", false, 20)]);
    assert_eq!(b.local_selected, 0);

    b.move_up();
    assert_eq!(b.local_selected, 1);

    b.move_up();
    assert_eq!(b.local_selected, 0);
}

#[test]
fn move_in_empty_dir() {
    let mut b = browser_with_entries(vec![]);
    b.move_down();
    assert_eq!(b.local_selected, 0);
    b.move_up();
    assert_eq!(b.local_selected, 0);
}

#[test]
fn move_single_entry() {
    let mut b = browser_with_entries(vec![entry("only.txt", false, 1)]);
    b.move_down();
    assert_eq!(b.local_selected, 0);
    b.move_up();
    assert_eq!(b.local_selected, 0);
}

#[test]
fn remote_navigation() {
    let mut b = browser_with_entries(vec![]);
    b.focus = FileBrowserPane::Remote;
    b.remote_entries = vec![
        entry("dir1", true, 0),
        entry("file1.txt", false, 100),
        entry("file2.txt", false, 200),
    ];
    sort_entries(&mut b.remote_entries, b.sort_by, b.sort_ascending);

    b.move_down();
    assert_eq!(b.remote_selected, 1);
    b.move_down();
    assert_eq!(b.remote_selected, 2);
    b.move_down();
    assert_eq!(b.remote_selected, 0);

    b.move_up();
    assert_eq!(b.remote_selected, 2);
}

#[test]
fn toggle_focus_switches_panes() {
    let mut b = browser_with_entries(vec![]);
    assert_eq!(b.focus, FileBrowserPane::Local);

    b.toggle_focus();
    assert_eq!(b.focus, FileBrowserPane::Remote);

    b.toggle_focus();
    assert_eq!(b.focus, FileBrowserPane::Local);
}

#[test]
fn sort_by_name_ascending() {
    let mut entries = vec![
        entry("cherry", false, 300),
        entry("apple", false, 100),
        entry("zdir", true, 0),
        entry("adir", true, 0),
        entry("banana", false, 200),
    ];
    sort_entries(&mut entries, SortField::Name, true);

    let names: Vec<&str> = entries.iter().map(|e| e.name.as_str()).collect();
    assert_eq!(names, vec!["adir", "zdir", "apple", "banana", "cherry"]);
}

#[test]
fn sort_by_name_descending() {
    let mut entries = vec![
        entry("apple", false, 100),
        entry("cherry", false, 300),
        entry("banana", false, 200),
    ];
    sort_entries(&mut entries, SortField::Name, false);

    let names: Vec<&str> = entries.iter().map(|e| e.name.as_str()).collect();
    assert_eq!(names, vec!["cherry", "banana", "apple"]);
}

#[test]
fn sort_by_size() {
    let mut entries = vec![
        entry("big", false, 1000),
        entry("small", false, 10),
        entry("medium", false, 500),
        entry("dir", true, 4096),
    ];
    sort_entries(&mut entries, SortField::Size, true);

    let names: Vec<&str> = entries.iter().map(|e| e.name.as_str()).collect();
    assert_eq!(names, vec!["dir", "small", "medium", "big"]);
}

#[test]
fn sort_by_modified() {
    let mut entries = vec![
        entry_with_modified("new", false, 10, 3000),
        entry_with_modified("old", false, 10, 1000),
        entry_with_modified("mid", false, 10, 2000),
    ];
    sort_entries(&mut entries, SortField::Modified, true);

    let names: Vec<&str> = entries.iter().map(|e| e.name.as_str()).collect();
    assert_eq!(names, vec!["old", "mid", "new"]);
}

#[test]
fn sort_puts_unknown_times_first_and_keeps_ties() {
    let mut entries = vec![
        entry_with_modified("x", false, 1, 5),
        entry("n", false, 2),
        entry_with_modified("y", false, 3, 5),
    ];
    sort_entries(&mut entries, SortField::Modified, true);
    let up: Vec<&str> = entries.iter().map(|e| e.name.as_str()).collect();
    assert_eq!(up, vec!["n", "x", "y"]);
    sort_entries(&mut entries, SortField::Modified, false);
    let down: Vec<&str> = entries.iter().map(|e| e.name.as_str()).collect();
    assert_eq!(down, vec!["x", "y", "n"]);
}

#[test]
fn sort_dirs_always_first_regardless_of_field() {
    let mut entries = vec![entry("big_file", false, 99999), entry("small_dir", true, 1)];
    sort_entries(&mut entries, SortField::Size, true);

    assert!(entries[0].is_dir);
    assert_eq!(entries[0].name, "small_dir");
}

#[test]
fn cycle_sort_field() {
    assert_eq!(SortField::Name.next(), SortField::Size);
    assert_eq!(SortField::Size.next(), SortField::Modified);
    assert_eq!(SortField::Modified.next(), SortField::Name);
}

#[test]
fn cycle_sort_on_browser() {
    let mut b = browser_with_entries(vec![entry("b.txt", false, 200), entry("a.txt", false, 100)]);
    assert_eq!(b.sort_by, SortField::Name);

    b.cycle_sort();
    assert_eq!(b.sort_by, SortField::Size);

    b.cycle_sort();
    assert_eq!(b.sort_by, SortField::Modified);

    b.cycle_sort();
    assert_eq!(b.sort_by, SortField::Name);
}

#[test]
fn hidden_files_filtered_by_default() {
    let b = browser_with_entries(vec![
        entry(".hidden", false, 10),
        entry("visible", false, 20),
        entry(".secret", true, 0),
        entry("docs", true, 0),
    ]);

    let visible = b.visible_local_entries();
    assert_eq!(names(&visible), vec!["docs", "visible"]);
}

#[test]
fn toggle_hidden_shows_all() {
    let mut b =
        browser_with_entries(vec![entry(".hidden", false, 10), entry("visible", false, 20)]);

    assert_eq!(b.visible_local_entries().len(), 1);

    b.toggle_hidden();
    assert!(b.show_hidden);
    assert_eq!(b.visible_local_entries().len(), 2);

    b.toggle_hidden();
    assert!(!b.show_hidden);
    assert_eq!(b.visible_local_entries().len(), 1);
}

#[test]
fn toggle_hidden_clamps_selection() {
    let mut b = browser_with_entries(vec![
        entry(".a", false, 10),
        entry(".b", false, 10),
        entry("c", false, 10),
    ]);

    b.show_hidden = true;
    b.local_selected = 2;

    b.toggle_hidden();
    assert_eq!(b.local_selected, 0);
}

#[test]
fn empty_directory_selected_entry_is_none() {
    let b = browser_with_entries(vec![]);
    assert!(b.selected_entry().is_none());
}

#[test]
fn selected_entry_returns_correct_entry() {
    let b = browser_with_entries(vec![entry("adir", true, 0), entry("file.txt", false, 100)]);

    let selected = b.selected_entry().unwrap();
    assert_eq!(selected.name, "adir");
    assert!(selected.is_dir);
}

#[test]
fn enter_dir_on_file_returns_false() {
    let b = browser_with_entries(vec![entry("file.txt", false, 100)]);
    assert!(b.enter_dir().is_none());
}

#[test]
fn entering_a_directory_lists_it() {
    let mut b = browser_with_entries(vec![entry("sub", true, 0), entry("z", true, 0)]);
    b.move_down();
    b.move_up();
    let path = b.enter_dir().unwrap();
    assert_eq!(path, "/tmp/test/sub");
    assert!(!b.entered_dir(FileBrowserPane::Local, path.clone(), Err("denied".into())));
    assert_eq!(b.error.as_deref(), Some("Cannot open directory: denied"));
    assert_eq!(b.local_path, "/tmp/test");
    let listing = vec![entry("q", false, 1), entry("p", false, 1)];
    assert!(b.entered_dir(FileBrowserPane::Local, path, Ok(listing)));
    assert_eq!(b.local_path, "/tmp/test/sub");
    assert_eq!(names(&b.visible_local_entries()), vec!["p", "q"]);
    assert_eq!(b.local_selected, 0);
}

#[test]
fn a_remote_directory_needs_a_connection() {
    let mut b = browser_with_entries(vec![]);
    b.focus = FileBrowserPane::Remote;
    b.remote_path = "/srv/".into();
    b.remote_entries = vec![entry("www", true, 0)];
    assert!(b.enter_dir().is_none());
    b.connected = true;
    assert_eq!(b.enter_dir().unwrap(), "/srv/www");
}

#[test]
fn go_parent_at_root_stays() {
    let mut b = browser_with_entries(vec![]);
    b.local_path = "/".into();
    assert!(b.go_parent().is_none());
    assert_eq!(b.local_path, "/");
}

#[test]
fn go_parent_local_navigates_up() {
    let mut b = browser_with_entries(vec![]);
    b.local_path = "/tmp/dir/child".into();
    let parent = b.go_parent().unwrap();
    b.went_to_parent(
        FileBrowserPane::Local,
        parent,
        Ok(vec![entry("child", true, 0), entry("baby", true, 0)]),
    );

    assert_eq!(b.local_path, "/tmp/dir");
    assert_eq!(b.selected_entry().unwrap().name, "child");
}

#[test]
fn go_parent_remote_at_root() {
    let mut b = browser_with_entries(vec![]);
    b.focus = FileBrowserPane::Remote;
    b.remote_path = "/".into();
    assert!(b.go_parent().is_none());
    assert_eq!(b.remote_path, "/");
}

#[test]
fn go_parent_remote_path_calculation() {
    let mut b = browser_with_entries(vec![]);
    b.focus = FileBrowserPane::Remote;
    b.remote_path = "/home/user/docs".into();
    assert!(b.go_parent().is_none());
    b.connected = true;
    assert_eq!(b.go_parent().unwrap(), "/home/user");
    b.remote_path = "/home".into();
    assert_eq!(b.go_parent().unwrap(), "/");
    b.remote_path = String::new();
    assert!(b.go_parent().is_none());
}

#[test]
fn a_parent_that_cannot_be_listed_is_an_error() {
    let mut b = browser_with_entries(vec![]);
    b.went_to_parent(FileBrowserPane::Local, "/tmp".into(), Err("denied".into()));
    assert_eq!(b.local_path, "/tmp/test");
    assert_eq!(b.error.as_deref(), Some("Cannot open parent: denied"));
}

#[test]
fn refreshing_keeps_the_selection_in_range() {
    let mut b = browser_with_entries(vec![
        entry("a", false, 1),
        entry("b", false, 1),
        entry("c", false, 1),
    ]);
    b.move_up();
    b.refresh_local(Ok(vec![entry("a", false, 1)]));
    assert_eq!(b.local_selected, 0);
    b.refresh_local(Err("gone".into()));
    assert_eq!(b.error, None);
    b.refresh_remote(Err("gone".into()));
    assert_eq!(b.error.as_deref(), Some("Refresh failed: gone"));
}

#[test]
fn toggle_sort_direction() {
    let mut b = browser_with_entries(vec![entry("a.txt", false, 100), entry("b.txt", false, 200)]);
    assert!(b.sort_ascending);

    b.toggle_sort_direction();
    assert!(!b.sort_ascending);
    assert_eq!(names(&b.visible_local_entries()), vec!["b.txt", "a.txt"]);

    b.toggle_sort_direction();
    assert!(b.sort_ascending);
}

#[test]
fn sort_field_labels() {
    assert_eq!(SortField::Name.label(), "name");
    assert_eq!(SortField::Size.label(), "size");
    assert_eq!(SortField::Modified.label(), "modified");
}

#[test]
fn mode_default_is_normal() {
    let mode = FileBrowserMode::default();
    assert!(matches!(mode, FileBrowserMode::Normal));
}

#[test]
fn sort_by_name_case_insensitive() {
    let mut entries = vec![
        entry("Banana", false, 10),
        entry("apple", false, 20),
        entry("Cherry", false, 30),
    ];
    sort_entries(&mut entries, SortField::Name, true);

    let names: Vec<&str> = entries.iter().map(|e| e.name.as_str()).collect();
    assert_eq!(names, vec!["apple", "Banana", "Cherry"]);
}

#[test]
fn a_search_filters_one_pane() {
    let mut b = browser_with_entries(vec![
        entry("notes.txt", false, 1),
        entry("picture.png", false, 1),
    ]);
    b.local_search = Input::new(" note ".into());
    assert_eq!(names(&b.visible_local_entries()), vec!["notes.txt"]);
    b.local_search = Input::new("zzz".into());
    b.search_changed();
    assert!(b.selected_entry().is_none());
}

#[test]
fn a_new_browser_starts_locally() {
    assert_eq!(start_dir(Some("/home/me".into())), "/home/me");
    assert_eq!(start_dir(None), "/");
    let b = FileBrowser::new(test_host());
    let home = dirs::home_dir().map(|p| p.to_string_lossy().into_owned());
    assert_eq!(b.local_path, start_dir(home));
    assert_eq!(b.alias, "test");
    assert!(b.local_entries.is_empty());
    assert!(!b.connected);
}

#[test]
fn a_transfer_asks_before_it_overwrites() {
    let mut b = browser_with_entries(vec![entry("f", false, 1)]);
    assert!(b.begin_transfer().is_none());
    assert_eq!(b.error.as_deref(), Some("Not connected"));
    b.connected = true;
    b.remote_path = "/srv".into();
    match b.begin_transfer() {
        Some(TransferRequest::Upload { local_path, remote_path }) => {
            assert_eq!(local_path, "/tmp/test/f");
            assert_eq!(remote_path, "/srv/f");
        }
        other => panic!("{other:?}"),
    }
    b.remote_entries = vec![entry("f", false, 1)];
    assert!(b.begin_transfer().is_none());
    assert!(matches!(
        b.mode,
        FileBrowserMode::ConfirmTransfer { ref file, direction: TransferDirection::Upload } if file == "f"
    ));
    assert!(b.confirmed_request("f", TransferDirection::Download).is_some());
    assert!(b.confirmed_request("g", TransferDirection::Download).is_none());
}

fn progress(bytes: u64, status: TransferStatus) -> TransferProgress {
    TransferProgress {
        file_name: "f".into(),
        label: "Downloading".into(),
        bytes_transferred: bytes,
        total_bytes: 10,
        status,
    }
}

#[test]
fn transfers_are_followed_to_their_end() {
    let mut b = browser_with_entries(vec![]);
    assert!(b.active_transfer_progress().is_none());
    b.transfer_started(1, progress(0, TransferStatus::InProgress));
    assert!(b.has_active_transfer());
    assert!(!b.transfer_progressed(1, progress(4, TransferStatus::InProgress)));
    assert_eq!(b.active_transfer_progress().unwrap().bytes_transferred, 4);
    assert!(!b.transfer_progressed(2, progress(9, TransferStatus::Completed)));
    assert!(b.transfer_progressed(1, progress(10, TransferStatus::Completed)));
    assert!(!b.transfer_progressed(1, progress(10, TransferStatus::Completed)));
    assert!(!b.has_active_transfer());
    assert_eq!(b.active_transfer_progress().unwrap().bytes_transferred, 10);
    assert!(matches!(b.mode, FileBrowserMode::Normal));

    b.transfer_started(3, progress(0, TransferStatus::InProgress));
    assert_eq!(b.transfers.iter().map(|t| t.id).collect::<Vec<_>>(), vec![3]);
    assert!(b.transfer_progressed(3, progress(2, TransferStatus::Failed("read: gone".into()))));
    assert!(matches!(b.mode, FileBrowserMode::TransferError(ref m) if m == "read: gone"));
}

#[test]
fn going_down_and_up_changes_nothing() {
    let mut b = browser_with_entries(vec![entry("a", true, 0), entry("b", false, 1)]);
    for _ in 0..2 {
        let start = b.local_selected;
        b.move_down();
        b.move_up();
        assert_eq!(b.local_selected, start);
        b.move_up();
        b.move_down();
        assert_eq!(b.local_selected, start);
        b.move_down();
    }
}

#[test]
fn what_cannot_be_read_is_left_out() {
    let lines = vec![
        Listed::Entry(entry("b", false, 2)),
        Listed::Unreadable("metadata: gone".into()),
        Listed::Entry(entry("a", true, 0)),
    ];
    assert_eq!(list_local_dir(&lines), vec![entry("b", false, 2), entry("a", true, 0)]);
    assert!(list_local_dir(&vec![]).is_empty());
}
