//! What is drawn.
use hosttui::app::App;
use hosttui::dialogs::{render_confirm, render_extras_entry, render_tab_help};
use hosttui::file_panes::{
    file_pane_title, line_of_entry, render_file_pane_message, render_transfer_progress,
};
use hosttui::form::ExtraEntryForm;
use hosttui::handlers::handle_hosts_key;
use hosttui::keys::{KeyCode, KeyEvent, KeyModifiers};
use hosttui::model::{Config, Group, Host};
use hosttui::panes::{host_details, render_tab_bar, TerminalState};
use hosttui::scene::{split_lines, Color, Draw, Line, Rect, Style};
use hosttui::sftp::FileEntry;
use hosttui::transfer::{TransferProgress, TransferStatus};
use hosttui::ui::{arrange, centered_rect, draw_all, render};

fn host(alias: &str, group: Option<&str>) -> Host {
    Host {
        alias: alias.into(),
        hostname: "10.0.0.1".into(),
        user: "admin".into(),
        port: 22,
        identity_file: None,
        group: group.map(Into::into),
        extra: vec![("Compression".into(), "yes".into())],
        details: String::new(),
        last_accessed: "today".into(),
    }
}

fn sample() -> App {
    let mut app = App::new(Config::new(
        vec![host("web", Some("prod")), host("laptop", None)],
        vec![Group { name: "prod".into() }],
    ));
    app.host_focus();
    app
}

fn rect(x: u16, y: u16, width: u16, height: u16) -> Rect {
    Rect { x, y, width, height }
}

fn terminal() -> TerminalState {
    TerminalState { hide_cursor: false, cursor_row: 2, cursor_col: 5, scrollback: 0 }
}

fn text(line: &Line) -> String {
    line.spans.iter().map(|s| s.text.as_str()).collect()
}

fn lines(draws: &[Draw]) -> Vec<String> {
    let mut out = vec![];
    for draw in draws {
        match draw {
            Draw::Text { lines, .. } => out.extend(lines.iter().map(text)),
            Draw::List { items, .. } => out.extend(items.iter().map(text)),
            _ => {}
        }
    }
    out
}

fn titles(draws: &[Draw]) -> Vec<String> {
    draws
        .iter()
        .filter_map(|draw| match draw {
            Draw::Panel { block, .. } => Some(text(&block.title)),
            Draw::List { block, .. } => Some(text(&block.title)),
            Draw::Text { border: Some(block), .. } => Some(text(&block.title)),
            _ => None,
        })
        .collect()
}

fn press(app: &mut App, code: KeyCode) {
    let key = KeyEvent { code, modifiers: KeyModifiers::none() };
    handle_hosts_key(app, key, &Ok("me".into()));
}

#[test]
fn the_host_browser_has_three_panes() {
    let app = sample();
    let draws = render(&app, rect(0, 0, 120, 40), terminal(), 0);
    assert_eq!(titles(&draws), vec![" Groups ", " Hosts ", " Details "]);
    let shown = lines(&draws);
    assert_eq!(shown[..3], [" all", " prod", " ungrouped"]);
    assert_eq!(shown[3..7], [" ▸ prod", "   web", " ▸ ungrouped", "   laptop"]);
    assert_eq!(shown[7], "          Alias: web");
    assert_eq!(shown[11], "          Group: prod");
    assert_eq!(shown[12], "    Compression: yes");
    assert_eq!(shown[13], "  Last Accessed: today");
    match &draws[1] {
        Draw::List { area, items, selected, .. } => {
            assert_eq!(*selected, 1);
            assert_eq!(area.height, 40);
            assert_eq!(
                items[1].style,
                Style { fg: Some(Color::Black), bg: Some(Color::Cyan), bold: true }
            );
            assert_eq!(
                items[0].style,
                Style { fg: Some(Color::Yellow), bg: None, bold: true }
            );
        }
        other => panic!("{other:?}"),
    }
}

#[test]
fn the_panes_share_the_width() {
    let app = sample();
    let areas = arrange(&app, rect(0, 0, 100, 30));
    assert_eq!(areas.main, rect(0, 0, 100, 30));
    assert_eq!(areas.tabs.height, 0);
    assert_eq!(areas.groups.width + areas.hosts.width + areas.details.width, 100);
    assert_eq!(centered_rect(40, 10, rect(0, 0, 100, 30)), rect(30, 10, 40, 10));
    assert_eq!(centered_rect(400, 10, rect(0, 0, 100, 30)).width, 100);
}

#[test]
fn comments_are_wrapped_beside_their_label() {
    let mut h = host("web", None);
    h.extra = vec![];
    h.details = "one two three four".into();
    let shown: Vec<String> = host_details(&h, 29).iter().map(text).collect();
    assert_eq!(shown[4], "       Comments: one two");
    assert_eq!(shown[5], "                 three four");
    assert_eq!(shown[6], "  Last Accessed: today");
    assert_eq!(host_details(&h, 19).len(), 5);
}

#[test]
fn a_session_shows_its_terminal_and_cursor() {
    let mut app = sample();
    app.record_local_session("local-1".into(), 42);
    let draws = render(&app, rect(0, 0, 80, 24), terminal(), 0);
    assert_eq!(titles(&draws), vec![" local-1 "]);
    match &draws[1] {
        Draw::Terminal { area, session, selection } => {
            assert_eq!(*area, rect(1, 1, 78, 21));
            assert_eq!(*session, 42);
            assert!(selection.is_none());
        }
        other => panic!("{other:?}"),
    }
    assert_eq!(draws[2], Draw::Cursor { x: 6, y: 3 });

    app.show_clipboard_notice(0);
    let state = TerminalState { hide_cursor: true, scrollback: 12, ..terminal() };
    let draws = render(&app, rect(0, 0, 80, 24), state, 0);
    let shown = lines(&draws);
    assert_eq!(shown[0], " [12 lines up] scroll down or type to return");
    assert_eq!(shown[1], " Copied to clipboard ");
    assert!(draws.contains(&Draw::Clear(rect(1, 1, 21, 1))));
    assert!(!draws.iter().any(|d| matches!(d, Draw::Cursor { .. })));
}

#[test]
fn a_dead_session_says_so() {
    let mut app = sample();
    app.record_local_session("local-1".into(), 42);
    app.poll_sessions(&vec![(false, Some(false))]);
    let draws = render(&app, rect(0, 0, 80, 24), terminal(), 0);
    let shown = lines(&draws);
    assert_eq!(shown[0], " [disconnected] Ctrl+T x to close");
    assert!(shown[1].starts_with(" Hosts   1:local-1 [1] "));
}

#[test]
fn the_tab_bar_ends_with_a_hint_where_there_is_room() {
    let mut app = sample();
    app.record_local_session("local-1".into(), 1);
    app.record_local_session("日本".into(), 2);
    app.open_file_transfer_for_host(host("web", None));
    let shown = match render_tab_bar(&app, rect(0, 23, 60, 1)) {
        Draw::Text { lines, .. } => text(&lines[0]),
        other => panic!("{other:?}"),
    };
    let tabs = " Hosts   1:local-1   2:日本   F:web ";
    assert!(shown.starts_with(tabs));
    assert!(shown.ends_with("^T ? help"));
    assert_eq!(shown.chars().count() + 2, 60);
    match render_tab_bar(&app, rect(0, 23, 40, 1)) {
        Draw::Text { lines, .. } => assert_eq!(text(&lines[0]), tabs),
        other => panic!("{other:?}"),
    }
}

fn entry(name: &str, is_dir: bool, size: u64, permissions: Option<u32>) -> FileEntry {
    FileEntry { name: name.into(), is_dir, size, modified: None, permissions }
}

#[test]
fn entries_fill_their_line() {
    let plain = Style { fg: None, bg: None, bold: false };
    let file = entry("a.txt", false, 2048, Some(0o100644));
    assert_eq!(
        text(&line_of_entry(&file, 40, plain)),
        format!(" a.txt{}rw-r--r--  2.0 KB", " ".repeat(17))
    );
    let dir = entry("src", true, 0, Some(0o040755));
    assert_eq!(text(&line_of_entry(&dir, 20, plain)), " src/      rwxr-xr-x");
    let link = entry("l", false, 1, Some(0o120777));
    assert_eq!(text(&line_of_entry(&link, 5, plain)), " l @ rwxrwxrwx  1 B");
    let wide = entry("日本", false, 1, None);
    assert_eq!(text(&line_of_entry(&wide, 20, plain)), " 日本            1 B");
}

#[test]
fn a_pane_tells_its_directory_and_search() {
    assert_eq!(file_pane_title("Local", "/tmp", ""), "Local: /tmp");
    assert_eq!(file_pane_title("Remote", "/x", " q "), "Remote: /x  /q");
}

#[test]
fn a_message_stands_in_the_middle() {
    let draws = render_file_pane_message("Remote", "a\nb", Color::Red, rect(0, 0, 20, 12));
    match &draws[1] {
        Draw::Text { area, lines, .. } => {
            assert_eq!(*area, rect(1, 5, 18, 2));
            assert_eq!(lines.len(), 2);
        }
        other => panic!("{other:?}"),
    }
    assert_eq!(render_file_pane_message("R", "a", Color::Red, rect(0, 0, 20, 2)).len(), 1);
    assert_eq!(split_lines("a\r\n\nb\n"), vec!["a", "", "b"]);
    assert!(split_lines("").is_empty());
}

#[test]
fn progress_fills_a_bar() {
    let progress = TransferProgress {
        file_name: "f".into(),
        label: "Uploading".into(),
        bytes_transferred: 512,
        total_bytes: 1024,
        status: TransferStatus::InProgress,
    };
    match render_transfer_progress(&progress, 50, rect(0, 0, 56, 1)) {
        Draw::Text { lines, .. } => {
            assert_eq!(text(&lines[0]), " >> Uploading f  50% ██████████░░░░░░░░░░  512 B/1.0 KB ");
        }
        other => panic!("{other:?}"),
    }
    let done = TransferProgress { total_bytes: 0, status: TransferStatus::Completed, ..progress };
    match render_transfer_progress(&done, 0, rect(0, 0, 5, 1)) {
        Draw::Text { lines, .. } => assert!(text(&lines[0]).contains(" ░░░░ ")),
        other => panic!("{other:?}"),
    }
}

#[test]
fn the_form_is_drawn_over_the_browser() {
    let mut app = sample();
    press(&mut app, KeyCode::Char('e'));
    let draws = render(&app, rect(0, 0, 120, 40), terminal(), 0);
    assert_eq!(titles(&draws).last().unwrap(), " Edit Host ");
    let areas = arrange(&app, rect(0, 0, 120, 40));
    assert_eq!((areas.window.width, areas.window.height), (75, 13));
    assert_eq!(areas.rows.len(), 7);
    let row = areas.rows[0];
    let draws = draw_all(&app, terminal(), 0, &areas);
    assert!(draws.contains(&Draw::Cursor { x: row.x + 17 + 3, y: row.y }));
    assert!(lines(&draws).contains(&"          Alias: web".to_string()));
}

#[test]
fn questions_and_help_are_windows() {
    let draws = render_confirm("Confirm Delete", "Delete host 'x'?", rect(0, 0, 45, 5));
    assert_eq!(draws[0], Draw::Clear(rect(0, 0, 45, 5)));
    assert_eq!(lines(&draws), vec!["Delete host 'x'?", "", " y Yes  n No"]);
    let help = render_tab_help(rect(0, 0, 40, 16));
    assert_eq!(lines(&help).len(), 8);
    assert_eq!(lines(&help)[6], "^T s  New local shell");
}

#[test]
fn an_option_is_edited_in_two_rows() {
    let entry = ExtraEntryForm::from_pair(0, "Compression", "yes");
    let rows = vec![rect(1, 1, 50, 1), rect(1, 2, 50, 1), rect(1, 3, 50, 2)];
    let error = Some("Key cannot be empty".to_string());
    let draws = render_extras_entry(&entry, &error, rect(0, 0, 60, 6), &rows);
    assert_eq!(titles(&draws), vec![" Edit Extra "]);
    assert_eq!(
        lines(&draws),
        vec!["    Key: Compression", "  Value: yes", "  Key cannot be empty"]
    );
    assert!(draws.contains(&Draw::Cursor { x: 1 + 9 + 11, y: 1 }));
}
