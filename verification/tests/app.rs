//! The application, driven by keys.
use hosttui::app::{App, Mode, TestStatus};
use hosttui::form::{ExtraField, Field, FormState};
use hosttui::handlers::{
    handle_file_transfer_key, handle_file_transfer_paste, handle_hosts_key, handle_hosts_paste,
    handle_session_key, BrowserAction, Effect, ListPurpose,
};
use hosttui::keys::{KeyCode, KeyEvent, KeyModifiers};
use hosttui::listing::{GroupEntry, ListItem};
use hosttui::model::{Config, Group, Host};
use hosttui::pty::SessionKind;
use hosttui::runtime::{
    handle_event, handle_paste, poll_timeout, refresh, session_size, Event, MouseEvent, MouseKind,
    Step,
};
use hosttui::screen::{Pane, PrefixState, ScreenPos, Selection, View};
use hosttui::search::fuzzy_score;
use hosttui::sftp::{ConnectReport, FileEntry, SftpConnectionStatus};

fn host(alias: &str, group: Option<&str>) -> Host {
    Host {
        alias: alias.into(),
        hostname: "10.0.0.1".into(),
        user: "admin".into(),
        port: 22,
        identity_file: None,
        group: group.map(Into::into),
        extra: vec![],
        details: String::new(),
        last_accessed: String::new(),
    }
}

fn sample() -> App {
    let mut app = fresh();
    app.host_focus();
    app
}

fn fresh() -> App {
    App::new(Config::new(
        vec![
            host("web2", Some("prod")),
            host("web1", Some("prod")),
            host("cache", Some("dev")),
            host("laptop", None),
        ],
        vec![Group { name: "prod".into() }, Group { name: "dev".into() }],
    ))
}

fn user() -> Result<String, String> {
    Ok("me".into())
}

fn key(code: KeyCode) -> KeyEvent {
    KeyEvent { code, modifiers: KeyModifiers::none() }
}

fn press(app: &mut App, code: KeyCode) -> Effect {
    handle_hosts_key(app, key(code), &user())
}

fn ctrl(app: &mut App, c: char) -> Effect {
    handle_hosts_key(
        app,
        KeyEvent { code: KeyCode::Char(c), modifiers: KeyModifiers::control() },
        &user(),
    )
}

fn type_text(app: &mut App, text: &str) {
    for c in text.chars() {
        press(app, KeyCode::Char(c));
    }
}

fn rows(app: &App) -> Vec<String> {
    app.items()
        .iter()
        .map(|item| match item {
            ListItem::GroupHeader(name) => format!("[{name}]"),
            ListItem::Host(alias) => alias.clone(),
        })
        .collect()
}

fn form(app: &App) -> &FormState {
    match &app.mode {
        Mode::Adding(form) => form,
        Mode::Editing { form, .. } => form,
        other => panic!("{other:?}"),
    }
}

fn entry(name: &str, is_dir: bool) -> FileEntry {
    FileEntry { name: name.into(), is_dir, size: 10, modified: None, permissions: None }
}

#[test]
fn all_hosts_are_listed_by_group() {
    let app = sample();
    assert_eq!(
        rows(&app),
        vec!["[dev]", "cache", "[prod]", "web1", "web2", "[ungrouped]", "laptop"]
    );
    assert_eq!(fresh().focus, Pane::Groups);
    assert_eq!(app.selected, 1);
    assert_eq!(app.selected_host().unwrap().alias, "cache");
    let entries: Vec<String> = app
        .group_entries()
        .iter()
        .map(|e| match e {
            GroupEntry::All => "*".to_string(),
            GroupEntry::Named(name) => name.clone(),
            GroupEntry::Ungrouped => "-".to_string(),
        })
        .collect();
    assert_eq!(entries, vec!["*", "dev", "prod", "-"]);
}

#[test]
fn the_selection_skips_headers_and_wraps() {
    let mut app = sample();
    press(&mut app, KeyCode::Char('j'));
    assert_eq!(app.selected_host().unwrap().alias, "web1");
    press(&mut app, KeyCode::Up);
    assert_eq!(app.selected_host().unwrap().alias, "cache");
    press(&mut app, KeyCode::Char('k'));
    assert_eq!(app.selected_host().unwrap().alias, "laptop");
    press(&mut app, KeyCode::Down);
    assert_eq!(app.selected_host().unwrap().alias, "cache");
}

#[test]
fn a_group_filters_the_hosts() {
    let mut app = sample();
    press(&mut app, KeyCode::Tab);
    assert_eq!(app.focus, Pane::Groups);
    press(&mut app, KeyCode::Char('j'));
    assert_eq!(rows(&app), vec!["cache"]);
    press(&mut app, KeyCode::Char('j'));
    assert_eq!(rows(&app), vec!["web1", "web2"]);
    press(&mut app, KeyCode::Char('j'));
    assert_eq!(rows(&app), vec!["laptop"]);
    press(&mut app, KeyCode::Char('j'));
    assert_eq!(rows(&app).len(), 7);
    press(&mut app, KeyCode::Right);
    assert_eq!(app.focus, Pane::Hosts);
    press(&mut app, KeyCode::Left);
    assert_eq!(app.focus, Pane::Groups);
}

#[test]
fn a_search_goes_over_all_hosts() {
    let mut app = sample();
    press(&mut app, KeyCode::Char('/'));
    assert!(matches!(app.mode, Mode::Searching));
    type_text(&mut app, "web");
    assert_eq!(rows(&app), vec!["web1", "web2"]);
    press(&mut app, KeyCode::Enter);
    assert!(matches!(app.mode, Mode::Normal));
    assert_eq!(rows(&app), vec!["web1", "web2"]);
    press(&mut app, KeyCode::Esc);
    assert_eq!(rows(&app).len(), 7);
    assert!(!app.exit);
    press(&mut app, KeyCode::Esc);
    assert!(app.exit);
}

#[test]
fn scores_tell_matches_from_others() {
    assert!(fuzzy_score("web", "my-web-1").is_some());
    assert!(fuzzy_score("WEB", "web").is_some());
    assert!(fuzzy_score("web", "cache").is_none());
    assert!(fuzzy_score("web", "web") > fuzzy_score("web", "w-e-b"));
    assert!(fuzzy_score(&"a".repeat(2600), &"a".repeat(3000)).is_none());
    assert!(fuzzy_score(&"a".repeat(1260), &"a".repeat(3000)).is_some());
    assert!(fuzzy_score(&"a".repeat(2520), &"a".repeat(2520)).is_some());
}

#[test]
fn long_words_are_scored_up_to_a_bound() {
    let text = "a".repeat(3000);
    assert!(fuzzy_score(&"a".repeat(2520), &text).is_some());
    assert!(fuzzy_score(&"a".repeat(2521), &text).is_none());
    let words = format!("{} {}", "a".repeat(2520), "a".repeat(2520));
    assert!(fuzzy_score(&words, &text).is_some());
    let escaped = format!("{}\\ {}", "a".repeat(1500), "a".repeat(1500));
    assert!(fuzzy_score(&escaped, &text).is_none());

    let slashes = "\\".repeat(3000);
    assert!(fuzzy_score(&"\\".repeat(1260), &slashes).is_some());
    assert!(fuzzy_score(&"\\".repeat(1261), &slashes).is_none());
}

#[test]
fn letters_that_fold_are_scored_where_they_fold_alike() {
    assert!(fuzzy_score("sé", "ſséx").is_none());
    assert!(fuzzy_score("SÉ", "ſséx").is_none());
    assert!(fuzzy_score("se sé", "ſséx").is_none());
    assert!(fuzzy_score("sé", "sséx").is_some());
    assert!(fuzzy_score("sé", "SÉX").is_some());
    assert!(fuzzy_score("sé", "sex").is_none());
    assert!(fuzzy_score("se", "ſséx").is_some());
    assert!(fuzzy_score("se", "ſx").is_none());
    assert!(fuzzy_score("κος", "κόσμος").is_some());
    assert!(fuzzy_score("μέ", "µέ").is_some());
}

#[test]
fn a_host_is_added_by_a_form() {
    let mut app = sample();
    press(&mut app, KeyCode::Char('a'));
    type_text(&mut app, "db");
    press(&mut app, KeyCode::Tab);
    type_text(&mut app, "10.0.0.9");
    for _ in 0..2 {
        press(&mut app, KeyCode::Tab);
    }
    for _ in 0..2 {
        press(&mut app, KeyCode::Backspace);
    }
    type_text(&mut app, "2222");
    press(&mut app, KeyCode::BackTab);
    assert!(matches!(press(&mut app, KeyCode::Enter), Effect::Persist));
    assert!(matches!(app.mode, Mode::Normal));
    assert!(app.dirty);
    let added = app.config.find("db").unwrap();
    assert_eq!(added.hostname, "10.0.0.9");
    assert_eq!(added.user, "me");
    assert_eq!(added.port, 2222);
    assert_eq!(added.group, None);
    app.saved();
    assert!(!app.dirty);
}

#[test]
fn a_form_that_is_refused_says_why() {
    let mut app = sample();
    press(&mut app, KeyCode::Char('a'));
    assert!(matches!(press(&mut app, KeyCode::Enter), Effect::Idle));
    assert_eq!(form(&app).error, Some("Alias cannot be empty".into()));
    type_text(&mut app, "web1");
    press(&mut app, KeyCode::Enter);
    assert_eq!(form(&app).error, Some("Hostname cannot be empty".into()));
    press(&mut app, KeyCode::Tab);
    type_text(&mut app, "h");
    press(&mut app, KeyCode::Enter);
    assert_eq!(form(&app).error, Some("Alias 'web1' already exists".into()));
    assert_eq!(app.config.hosts().len(), 4);
    assert!(!app.dirty);
    press(&mut app, KeyCode::Esc);
    assert!(matches!(app.mode, Mode::Normal));
}

#[test]
fn a_form_checks_the_port_and_the_user() {
    let mut form = FormState::from_host(&host("a", None));
    let at = form.fields.iter().position(|(f, _)| *f == Field::Port).unwrap();
    form.fields[at].1 = tui_input::Input::new("70000".into());
    assert_eq!(form.to_host(user()), Err("Port must be a number (0-65535)".into()));
    form.fields[at].1 = tui_input::Input::new(" 0 ".into());
    assert_eq!(form.to_host(user()).unwrap().port, 0);
    let at = form.fields.iter().position(|(f, _)| *f == Field::User).unwrap();
    form.fields[at].1 = tui_input::Input::new(" ".into());
    assert_eq!(form.to_host(user()).unwrap().user, "me");
    assert_eq!(form.to_host(Err("no user".into())), Err("no user".into()));
}

#[test]
fn editing_a_host_gives_it_back() {
    let mut original = host("web", Some("prod"));
    original.identity_file = Some("~/.ssh/key".into());
    original.extra = vec![("ForwardAgent".into(), "yes".into())];
    original.details = "a comment".into();
    original.last_accessed = "2024-01-01 10:00".into();
    assert_eq!(FormState::from_host(&original).to_host(user()), Ok(original));
}

#[test]
fn an_edited_host_may_change_its_alias() {
    let mut app = sample();
    press(&mut app, KeyCode::Char('e'));
    type_text(&mut app, "2");
    assert!(matches!(press(&mut app, KeyCode::Enter), Effect::Persist));
    assert!(app.config.find("cache").is_none());
    assert_eq!(app.config.find("cache2").unwrap().group, Some("dev".into()));

    press(&mut app, KeyCode::Char('c'));
    assert!(matches!(app.mode, Mode::Adding(_)));
    assert!(matches!(press(&mut app, KeyCode::Enter), Effect::Idle));
    assert_eq!(form(&app).error, Some("Alias 'cache2' already exists".into()));
}

#[test]
fn extras_are_edited_in_a_list() {
    let mut app = sample();
    press(&mut app, KeyCode::Char('e'));
    ctrl(&mut app, 'k');
    assert!(form(&app).extras_open());
    press(&mut app, KeyCode::Char('a'));
    press(&mut app, KeyCode::Enter);
    assert_eq!(
        form(&app).extras_editor.as_ref().unwrap().error,
        Some("Key cannot be empty".into())
    );
    type_text(&mut app, "Compression");
    press(&mut app, KeyCode::Tab);
    assert_eq!(
        form(&app).extras_editor.as_ref().unwrap().entry.as_ref().unwrap().active,
        ExtraField::Value
    );
    type_text(&mut app, "yes");
    press(&mut app, KeyCode::Enter);
    assert_eq!(form(&app).extras, vec![("Compression".to_string(), "yes".to_string())]);

    press(&mut app, KeyCode::Char('a'));
    type_text(&mut app, "Compression");
    press(&mut app, KeyCode::Enter);
    assert_eq!(
        form(&app).extras_editor.as_ref().unwrap().error,
        Some("Key 'Compression' already exists".into())
    );
    press(&mut app, KeyCode::Esc);
    press(&mut app, KeyCode::Char('d'));
    assert!(form(&app).extras.is_empty());
    press(&mut app, KeyCode::Esc);
    assert!(!form(&app).extras_open());
}

#[test]
fn groups_are_created_renamed_and_deleted() {
    let mut app = sample();
    press(&mut app, KeyCode::Tab);
    press(&mut app, KeyCode::Char('g'));
    press(&mut app, KeyCode::Enter);
    match &app.mode {
        Mode::AddingGroup(input) => {
            assert_eq!(input.error, Some("Group name cannot be empty".into()))
        }
        other => panic!("{other:?}"),
    }
    type_text(&mut app, "dev");
    press(&mut app, KeyCode::Enter);
    match &app.mode {
        Mode::AddingGroup(input) => {
            assert_eq!(input.error, Some("Group 'dev' already exists".into()))
        }
        other => panic!("{other:?}"),
    }
    type_text(&mut app, "2");
    assert!(matches!(press(&mut app, KeyCode::Enter), Effect::Persist));
    assert_eq!(app.config.groups().len(), 3);

    press(&mut app, KeyCode::Char('j'));
    press(&mut app, KeyCode::Char('e'));
    type_text(&mut app, "x");
    press(&mut app, KeyCode::Enter);
    assert_eq!(app.config.find("cache").unwrap().group, Some("devx".into()));

    press(&mut app, KeyCode::Char('d'));
    assert!(matches!(app.mode, Mode::ConfirmDeleteGroup(_)));
    press(&mut app, KeyCode::Char('n'));
    press(&mut app, KeyCode::Char('d'));
    assert!(matches!(press(&mut app, KeyCode::Char('y')), Effect::Persist));
    assert_eq!(app.config.hosts().len(), 4);
    assert_eq!(app.config.groups().len(), 2);
}

#[test]
fn deleting_a_host_asks_first() {
    let mut app = sample();
    press(&mut app, KeyCode::Char('d'));
    assert!(matches!(app.mode, Mode::ConfirmDelete(_)));
    press(&mut app, KeyCode::Esc);
    assert_eq!(app.config.hosts().len(), 4);
    press(&mut app, KeyCode::Char('d'));
    assert!(matches!(press(&mut app, KeyCode::Char('y')), Effect::Persist));
    assert!(app.dirty && app.config.has_unique_aliases());
    assert!(app.config.find("cache").is_none());
    assert_eq!(app.config.hosts().len(), 3);
}

#[test]
fn a_session_is_opened_once() {
    let mut app = sample();
    let opened = match press(&mut app, KeyCode::Enter) {
        Effect::OpenSession(host) => host,
        other => panic!("{other:?}"),
    };
    assert_eq!(opened.alias, "cache");
    app.finish_open_session(opened, Ok(11));
    assert_eq!(app.view, View::Session(0));
    assert!(app.dirty);
    assert_eq!(app.sessions[0].kind(), SessionKind::Ssh);
    assert_ne!(app.config.find("cache").unwrap().last_accessed, "");

    app.switch_to_hosts();
    app.saved();
    assert!(matches!(press(&mut app, KeyCode::Enter), Effect::Idle));
    assert_eq!(app.sessions.len(), 1);
    assert_eq!(app.view, View::Session(0));
}

#[test]
fn a_session_that_fails_is_reported() {
    let mut app = sample();
    let opened = match press(&mut app, KeyCode::Enter) {
        Effect::OpenSession(host) => host,
        other => panic!("{other:?}"),
    };
    app.finish_open_session(opened, Err("no pty".into()));
    match &app.mode {
        Mode::ConnectError { alias, message } => {
            assert_eq!(alias, "cache");
            assert_eq!(message, "no pty");
        }
        other => panic!("{other:?}"),
    }
    press(&mut app, KeyCode::Enter);
    assert!(matches!(app.mode, Mode::Normal));
}

fn with_sessions(count: u64) -> App {
    let mut app = sample();
    for id in 0..count {
        let label = app.next_local_label();
        app.record_local_session(label, id);
    }
    app
}

#[test]
fn a_local_session_that_fails_is_reported() {
    let mut app = sample();
    let before = rows(&app);
    app.local_session_failed("local-1".into(), "no shell".into());
    match &app.mode {
        Mode::ConnectError { alias, message } => {
            assert_eq!(alias, "local-1");
            assert_eq!(message, "no shell");
        }
        other => panic!("{other:?}"),
    }
    assert!(app.sessions.is_empty());
    assert_eq!(app.view, View::Hosts);
    assert_eq!(rows(&app), before);
}

#[test]
fn moving_there_and_back_changes_nothing() {
    let mut app = sample();
    let hosts = app.config.hosts().len();
    for _ in 0..hosts {
        let at = app.selected;
        app.move_down();
        assert_ne!(app.selected, at);
        app.move_up();
        assert_eq!(app.selected, at);
        app.move_up();
        app.move_down();
        assert_eq!(app.selected, at);
        app.move_down();
    }
    assert_eq!(app.selected, 1);

    app.selected = 0;
    app.move_down();
    app.move_up();
    assert_eq!(app.selected, 6);

    let mut app = fresh();
    for at in 0..4 {
        assert_eq!(app.group_selected, at);
        let shown = rows(&app);
        app.move_down();
        app.move_up();
        assert_eq!((app.group_selected, rows(&app)), (at, shown.clone()));
        app.move_up();
        app.move_down();
        assert_eq!((app.group_selected, rows(&app)), (at, shown));
        app.move_down();
    }
    assert_eq!(app.group_selected, 0);
}

#[test]
fn local_sessions_are_numbered() {
    let mut app = with_sessions(3);
    let labels: Vec<&str> = app.sessions.iter().map(|s| s.alias()).collect();
    assert_eq!(labels, vec!["local-1", "local-2", "local-3"]);
    app.switch_to_session(1);
    app.close_current_session();
    assert_eq!(app.next_local_label(), "local-2");
    assert_eq!(app.find_session_by_alias("local-1"), None);
}

#[test]
fn tabs_go_around() {
    let mut app = with_sessions(2);
    assert!(app.open_file_transfer_for_host(host("web1", None)));
    assert_eq!(app.view, View::FileTransfer(0));
    app.next_tab();
    assert_eq!(app.view, View::Hosts);
    app.next_tab();
    assert_eq!(app.view, View::Session(0));
    app.next_tab();
    app.next_tab();
    assert_eq!(app.view, View::FileTransfer(0));
    app.prev_tab();
    assert_eq!(app.view, View::Session(1));
    assert!(!app.open_file_transfer_for_host(host("web1", None)));
    assert_eq!(app.file_transfers.len(), 1);
}

#[test]
fn tab_commands_follow_a_prefix() {
    let mut app = with_sessions(2);
    let ctrl_t = KeyEvent { code: KeyCode::Char('t'), modifiers: KeyModifiers::control() };
    handle_session_key(&mut app, &ctrl_t);
    assert_eq!(app.prefix, PrefixState::Pending);
    handle_session_key(&mut app, &key(KeyCode::Char('1')));
    assert_eq!(app.view, View::Session(0));
    assert_eq!(app.prefix, PrefixState::Inactive);

    handle_session_key(&mut app, &ctrl_t);
    match handle_session_key(&mut app, &ctrl_t) {
        Effect::Send { session, bytes } => assert_eq!((session, bytes), (0, vec![0x14])),
        other => panic!("{other:?}"),
    }
    match handle_session_key(&mut app, &key(KeyCode::Char('x'))) {
        Effect::Send { session, bytes } => assert_eq!((session, bytes), (0, b"x".to_vec())),
        other => panic!("{other:?}"),
    }
    handle_session_key(&mut app, &ctrl_t);
    handle_session_key(&mut app, &key(KeyCode::Char('?')));
    assert!(matches!(app.mode, Mode::TabHelp));
    handle_session_key(&mut app, &key(KeyCode::Char('z')));
    assert!(matches!(app.mode, Mode::Normal));
    handle_session_key(&mut app, &ctrl_t);
    match handle_session_key(&mut app, &key(KeyCode::Char('s'))) {
        Effect::OpenLocal(label) => assert_eq!(label, "local-3"),
        other => panic!("{other:?}"),
    }
    handle_session_key(&mut app, &ctrl_t);
    handle_session_key(&mut app, &key(KeyCode::Char('x')));
    assert_eq!(app.sessions.len(), 1);
    handle_session_key(&mut app, &ctrl_t);
    handle_session_key(&mut app, &key(KeyCode::Char('h')));
    assert_eq!(app.view, View::Hosts);
}

#[test]
fn ended_sessions_are_closed() {
    let mut app = with_sessions(3);
    app.switch_to_session(2);
    refresh(&mut app, &vec![(false, Some(true)), (false, None), (false, None)], 0);
    assert_eq!(app.sessions.len(), 2);
    assert_eq!(app.view, View::Session(1));
    assert_eq!(app.sessions[1].alias(), "local-3");
    refresh(&mut app, &vec![(true, None), (true, None)], 0);
    assert_eq!(app.view, View::Hosts);
    assert!(!app.has_tabs());
}

#[test]
fn a_reachability_test_waits_for_its_result() {
    let mut app = sample();
    assert!(matches!(press(&mut app, KeyCode::Char('t')), Effect::TestHost(_)));
    assert!(matches!(app.mode, Mode::TestResult { status: TestStatus::Testing, .. }));
    assert_eq!(poll_timeout(&app), 16);
    app.test_finished(TestStatus::Done { success: true, message: "Port 22 is open".into() });
    assert!(matches!(app.mode, Mode::TestResult { status: TestStatus::Done { .. }, .. }));
    press(&mut app, KeyCode::Esc);
    app.test_finished(TestStatus::Testing);
    assert!(matches!(app.mode, Mode::Normal));
    assert_eq!(poll_timeout(&app), 1000);
}

#[test]
fn pasted_text_is_typed_into_a_form() {
    let mut app = sample();
    press(&mut app, KeyCode::Char('a'));
    let (at, effect) = handle_hosts_paste(&mut app, "db\t10.1.1.1", 0, &user());
    assert_eq!(at, 11);
    assert!(matches!(effect, Effect::Idle));
    assert_eq!(form(&app).fields[0].1.value(), "db");
    assert_eq!(form(&app).fields[1].1.value(), "10.1.1.1");
}

#[test]
fn the_mouse_selects_and_scrolls_in_a_session() {
    let mut app = with_sessions(1);
    let mouse = |kind, column, row| Event::Mouse(MouseEvent { kind, column, row });
    let none: Result<String, String> = Err(String::new());
    handle_event(&mut app, &mouse(MouseKind::LeftDown, 3, 2), 80, 24, &none);
    let at = ScreenPos { row: 1, col: 2 };
    assert_eq!(app.selection, Some(Selection { anchor: at, end: at }));
    handle_event(&mut app, &mouse(MouseKind::LeftDrag, 200, 2), 80, 24, &none);
    assert_eq!(app.selection.unwrap().end, ScreenPos { row: 1, col: 77 });
    match handle_event(&mut app, &mouse(MouseKind::LeftUp, 6, 3), 80, 24, &none) {
        Step::Copy { session, from, to } => {
            assert_eq!(session, 0);
            assert_eq!(from, at);
            assert_eq!(to, ScreenPos { row: 2, col: 6 });
        }
        other => panic!("{other:?}"),
    }
    match handle_event(&mut app, &mouse(MouseKind::ScrollUp, 6, 3), 80, 24, &none) {
        Step::ScrollUp { session, lines } => assert_eq!((session, lines), (0, 3)),
        other => panic!("{other:?}"),
    }
    assert_eq!(app.selection, None);
    assert!(matches!(
        handle_event(&mut app, &mouse(MouseKind::ScrollDown, 6, 3), 80, 24, &none),
        Step::ScrollDown { session: 0, lines: 3 }
    ));
    handle_event(&mut app, &mouse(MouseKind::LeftDown, 0, 0), 80, 24, &none);
    assert_eq!(app.selection, None);
    assert!(matches!(
        handle_event(&mut app, &mouse(MouseKind::LeftUp, 6, 3), 80, 24, &none),
        Step::Idle
    ));
}

#[test]
fn events_are_handled_where_they_belong() {
    let mut app = with_sessions(1);
    let none: Result<String, String> = Err(String::new());
    assert!(matches!(
        handle_event(&mut app, &Event::Resize { cols: 80, rows: 24 }, 80, 24, &none),
        Step::Resize { rows: 21, cols: 78 }
    ));
    assert!(matches!(
        handle_event(&mut app, &Event::Paste("x".into()), 80, 24, &none),
        Step::PasteInto(0)
    ));
    assert!(matches!(
        handle_event(&mut app, &Event::Key(key(KeyCode::Enter)), 80, 24, &none),
        Step::Perform(Effect::Send { session: 0, .. })
    ));
    assert!(matches!(handle_event(&mut app, &Event::Other, 80, 24, &none), Step::Idle));
    app.switch_to_hosts();
    assert!(matches!(
        handle_paste(&mut app, View::Hosts, "jj", 0, &user()),
        Step::PasteUpTo { view: View::Hosts, at: 2, effect: Effect::Idle }
    ));
    assert_eq!(session_size(&sample(), 80, 24), (24, 80));
}

#[test]
fn the_clipboard_notice_expires() {
    let mut app = sample();
    app.show_clipboard_notice(1000);
    assert!(app.clipboard_notice_visible());
    app.clear_expired_notifications(2999);
    assert!(app.clipboard_notice_visible());
    app.clear_expired_notifications(3000);
    assert!(!app.clipboard_notice_visible());
}

#[test]
fn a_file_browser_is_driven_by_keys() {
    let mut app = sample();
    assert!(matches!(press(&mut app, KeyCode::Char('f')), Effect::ConnectFiles));
    assert_eq!(app.view, View::FileTransfer(0));
    {
        let ft = app.active_file_transfer_mut().unwrap();
        ft.local_path = "/tmp".into();
        ft.refresh_local(Ok(vec![entry("b.txt", false), entry("dir", true)]));
        ft.report(
            ConnectReport::Up { home_dir: Some("/home/me".into()), entries: Some(vec![]) },
            false,
        );
    }
    app.poll_file_transfers();
    assert!(matches!(app.file_transfers[0].connection_status, SftpConnectionStatus::Connected));
    assert_eq!(app.file_transfers[0].remote_path, "/home/me");

    match handle_file_transfer_key(&mut app, key(KeyCode::Enter)) {
        Effect::Files(BrowserAction::List { path, purpose }) => {
            assert_eq!(path, "/tmp/dir");
            assert_eq!(purpose, ListPurpose::Enter);
        }
        other => panic!("{other:?}"),
    }
    handle_file_transfer_key(&mut app, key(KeyCode::Char('j')));
    match handle_file_transfer_key(&mut app, key(KeyCode::Char('y'))) {
        Effect::Files(BrowserAction::Transfer(_)) => {}
        other => panic!("{other:?}"),
    }
    handle_file_transfer_key(&mut app, key(KeyCode::Char('m')));
    let (at, effect) = handle_file_transfer_paste(&mut app, "new\nrest", 0);
    assert_eq!(at, 4);
    match effect {
        Effect::Files(BrowserAction::MakeDir(path)) => assert_eq!(path, "/tmp/new"),
        other => panic!("{other:?}"),
    }
    handle_file_transfer_key(&mut app, key(KeyCode::Char('d')));
    match handle_file_transfer_key(&mut app, key(KeyCode::Char('y'))) {
        Effect::Files(BrowserAction::Delete { path, is_dir }) => {
            assert_eq!(path, "/tmp/b.txt");
            assert!(!is_dir);
        }
        other => panic!("{other:?}"),
    }
    handle_file_transfer_key(&mut app, key(KeyCode::Esc));
    assert_eq!(app.view, View::Hosts);
    assert!(app.file_transfers.is_empty());
}

#[test]
fn a_password_is_asked_for_and_used() {
    let mut app = sample();
    app.open_file_transfer_for_host(host("web1", None));
    app.active_file_transfer_mut().unwrap().report(
        ConnectReport::Down(hosttui::sftp::ConnectOutcome::NeedsPassword),
        false,
    );
    app.poll_file_transfers();
    for c in "pw".chars() {
        handle_file_transfer_key(&mut app, key(KeyCode::Char(c)));
    }
    match handle_file_transfer_key(&mut app, key(KeyCode::Enter)) {
        Effect::Files(BrowserAction::Connect(credential)) => {
            assert_eq!(credential, Some("pw".into()))
        }
        other => panic!("{other:?}"),
    }
    assert!(matches!(app.file_transfers[0].connection_status, SftpConnectionStatus::Connecting));
    app.active_file_transfer_mut().unwrap().report(
        ConnectReport::Down(hosttui::sftp::ConnectOutcome::NeedsPassword),
        true,
    );
    match &app.file_transfers[0].connection_status {
        SftpConnectionStatus::Failed(message) => assert_eq!(message, "Authentication failed"),
        other => panic!("{other:?}"),
    }
    assert!(matches!(
        handle_file_transfer_key(&mut app, key(KeyCode::Char('R'))),
        Effect::Files(BrowserAction::Connect(None))
    ));
}

#[test]
fn changing_tabs_keeps_the_sessions() {
    let mut app = with_sessions(2);
    app.sessions[0].set_unread(true);
    let before: Vec<u64> = app.sessions.iter().map(|s| s.id()).collect();
    app.switch_to_hosts();
    app.next_tab();
    assert_eq!(app.view, View::Session(0));
    assert!(!app.sessions[0].has_unread());
    app.prev_tab();
    assert_eq!(app.sessions.iter().map(|s| s.id()).collect::<Vec<_>>(), before);
}

#[test]
fn a_long_query_is_searched_for() {
    let words = "web ".repeat(700);
    assert_eq!(
        fuzzy_score(words.trim(), "web1"),
        fuzzy_score("web", "web1").map(|score| 700 * score)
    );
    let negated = format!("!{}", "x".repeat(3000));
    assert_eq!(fuzzy_score(&negated, "web1"), Some(0));
    assert!(fuzzy_score(&"x".repeat(3000), "web1").is_none());

    let mut app = sample();
    let all = rows(&app).len();
    press(&mut app, KeyCode::Char('/'));
    type_text(&mut app, &negated);
    assert_eq!(app.config.hosts().len(), rows(&app).len());
    assert!(all > rows(&app).len());
}

#[test]
fn a_paste_goes_on_where_it_began() {
    let mut app = sample();
    let event = Event::Paste("\nq".into());
    let (view, at, opened) = match handle_event(&mut app, &event, 80, 24, &user()) {
        Step::PasteUpTo { view, at, effect: Effect::OpenSession(host) } => (view, at, host),
        other => panic!("{other:?}"),
    };
    assert_eq!((view, at), (View::Hosts, 1));
    app.finish_open_session(opened, Ok(1));
    assert_eq!(app.view, View::Session(0));
    let rest = handle_paste(&mut app, view, "\nq", at, &user());
    assert!(matches!(rest, Step::PasteUpTo { at: 2, effect: Effect::Idle, .. }));
    assert!(app.exit);
}
