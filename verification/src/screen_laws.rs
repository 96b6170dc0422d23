//! What is told on the screen, whatever there is to tell.
use vstd::prelude::*;
use crate::app::{AppView, TestStatusView};
use crate::connect_laws::{holds, stands_at};
use crate::dialogs::{
    connect_error, extras_rows, form_fields, password_prompt, test_result,
};
use crate::file_panes::{
    bar_filled, byte_len, file_pane, files_view, progress_line, status_line, FileAreas,
};
use crate::filebrowser::{
    BrowserModeView, BrowserView, FileBrowserPane, SortField, TransferDirection,
};
use crate::form::{EditorView, FormView};
use crate::input::InputView;
use crate::listing::{GroupEntryView, ItemView};
use crate::model::HostView;
use crate::panes::{
    detail_pane, groups_pane, hosts_pane, hosts_view, selected_range, session_tabs, session_view,
    tab_spans, TerminalState,
};
use crate::pty::{SessionStatus, SessionView};
use crate::scene::{DrawView, LineView, Rect};
use crate::screen;
use crate::screen::{ScreenPos, Selection};
use crate::sftp::EntryView;
use crate::sizes::size_text;
use crate::terminal_widget::{
    row_paints, screen_paints, CellColor, PaintColor, PaintView, TerminalScreen,
};
use crate::text::decimal;
use crate::transfer::ProgressView;
use crate::transfer_laws::ends_in;
use crate::ui::{delete_question, group_question, host_question, transfer_question};

verus! {

// ---------------------------------------------------------------------------
// Lists
// ---------------------------------------------------------------------------

/// Whether a line is highlighted.
pub open spec fn is_marked(line: LineView) -> bool {
    line.style.bg is Some
}

/// Whether a line is one text that ends in another.
pub open spec fn reads(line: LineView, text: Seq<char>) -> bool {
    line.spans.len() == 1 && ends_in(line.spans[0].text, text)
}

proof fn lemma_sum_ends(start: Seq<char>, end: Seq<char>)
    ensures
        ends_in(start + end, end),
{
    assert((start + end).skip(start.len() as int) =~= end);
}

/// The group pane has a line for each entry, in order, which reads its name, and the
/// selected one and no other is highlighted.
pub proof fn lemma_group_pane_tells(app: AppView, area: Rect, i: int)
    requires
        0 <= i < app.group_entries.len(),
    ensures
        groups_pane(app, area) matches DrawView::List { area: at, items, selected, .. } && at
            == area && items.len() == app.group_entries.len() && selected == app.group_selected
            && is_marked(items[i]) == (i == app.group_selected) && reads(
            items[i],
            match app.group_entries[i] {
                GroupEntryView::All => "all"@,
                GroupEntryView::Named(name) => name,
                GroupEntryView::Ungrouped => "ungrouped"@,
            },
        ),
{
    lemma_sum_ends(
        " "@,
        match app.group_entries[i] {
            GroupEntryView::All => "all"@,
            GroupEntryView::Named(name) => name,
            GroupEntryView::Ungrouped => "ungrouped"@,
        },
    );
}

/// The host pane has a line for each row, in order, which reads the alias or the name of
/// the group, and of the hosts the selected one and no other is highlighted.
pub proof fn lemma_host_pane_tells(app: AppView, area: Rect, i: int)
    requires
        0 <= i < app.items.len(),
    ensures
        hosts_pane(app, area) matches DrawView::List { area: at, items, selected, .. } && at == area
            && items.len() == app.items.len() && selected == app.selected && match app.items[i] {
            ItemView::Host(alias) => reads(items[i], alias) && is_marked(items[i]) == (i
                == app.selected),
            ItemView::GroupHeader(name) => reads(items[i], name) && !is_marked(items[i]),
        },
{
    match app.items[i] {
        ItemView::Host(alias) => lemma_sum_ends("   "@, alias),
        ItemView::GroupHeader(name) => lemma_sum_ends(" ▸ "@, name),
    }
}

// ---------------------------------------------------------------------------
// Details
// ---------------------------------------------------------------------------

/// Whether a line tells a value under a name.
pub open spec fn tells_value(line: LineView, name: Seq<char>, value: Seq<char>) -> bool {
    line.spans.len() == 2 && line.spans[1].text == value && holds(line.spans[0].text, name)
}

/// Whether some line tells a value under a name.
pub open spec fn tells(lines: Seq<LineView>, name: Seq<char>, value: Seq<char>) -> bool {
    exists|i: int| 0 <= i < lines.len() && #[trigger] tells_value(lines[i], name, value)
}

proof fn lemma_detail_line_tells(name: Seq<char>, value: Seq<char>)
    ensures
        tells_value(crate::panes::detail_line(name, value), name, value),
{
    let text = crate::scene::padded(name, 15) + ": "@;
    let i = if name.len() < 15 {
        15 - name.len()
    } else {
        0
    };
    assert(text.subrange(i, i + name.len()) =~= name);
    assert(stands_at(text, name, i));
}

/// The details are those of the selected host: its alias, its name, its user, its port,
/// its identity file, its group, every setting, and when it was last accessed. Where
/// no host is selected, none is told.
pub proof fn lemma_details_tell_the_host(app: AppView, area: Rect, host: HostView, j: int)
    requires
        0 <= app.selected < app.items.len(),
        app.items[app.selected] == ItemView::Host(host.alias),
        app.config.find(host.alias) == Some(host),
    ensures
        detail_pane(app, area) matches DrawView::Text { area: at, lines, .. } && {
            &&& at == area
            &&& tells(lines, "Alias"@, host.alias)
            &&& tells(lines, "Hostname"@, host.hostname)
            &&& tells(lines, "User"@, host.user)
            &&& tells(lines, "Port"@, decimal(host.port as nat))
            &&& host.identity_file matches Some(path) ==> tells(lines, "Identity File"@, path)
            &&& host.group matches Some(group) ==> tells(lines, "Group"@, group)
            &&& 0 <= j < host.extra.len() ==> tells(lines, host.extra[j].0, host.extra[j].1)
            &&& tells(lines, "Last Accessed"@, host.last_accessed)
        },
{
    let lines = crate::panes::detail_lines(host, area.width);
    lemma_detail_line_tells("Alias"@, host.alias);
    lemma_detail_line_tells("Hostname"@, host.hostname);
    lemma_detail_line_tells("User"@, host.user);
    lemma_detail_line_tells("Port"@, decimal(host.port as nat));
    lemma_detail_line_tells("Last Accessed"@, host.last_accessed);
    assert(tells_value(lines[0], "Alias"@, host.alias));
    assert(tells_value(lines[1], "Hostname"@, host.hostname));
    assert(tells_value(lines[2], "User"@, host.user));
    assert(tells_value(lines[3], "Port"@, decimal(host.port as nat)));
    assert(tells_value(lines[lines.len() - 1], "Last Accessed"@, host.last_accessed));
    let identity: int = if host.identity_file is Some {
        1
    } else {
        0
    };
    let group: int = if host.group is Some {
        1
    } else {
        0
    };
    if let Some(path) = host.identity_file {
        lemma_detail_line_tells("Identity File"@, path);
        assert(tells_value(lines[4], "Identity File"@, path));
    }
    if let Some(name) = host.group {
        lemma_detail_line_tells("Group"@, name);
        assert(tells_value(lines[4 + identity], "Group"@, name));
    }
    if 0 <= j < host.extra.len() {
        lemma_detail_line_tells(host.extra[j].0, host.extra[j].1);
        assert(tells_value(lines[4 + identity + group + j], host.extra[j].0, host.extra[j].1));
    }
}

/// The host browser shows its three panes, each in its area, and its search while there
/// is one.
pub proof fn lemma_host_browser_shows_panes(
    app: AppView,
    groups: Rect,
    hosts: Rect,
    details: Rect,
    search: Rect,
)
    ensures
        ({
            let draws = hosts_view(app, groups, hosts, details, search);
            &&& draws.len() >= 3
            &&& draws[0] == groups_pane(app, groups)
            &&& draws[1] == hosts_pane(app, hosts)
            &&& draws[2] == detail_pane(app, details)
            &&& (draws.len() > 3) == (app.mode is Searching || app.search.text.len() > 0)
            &&& draws.len() > 3 ==> (draws[3] matches DrawView::Text { area, lines, .. } && area
                == search && lines.len() == 1 && lines[0].spans[1].text == app.search.text)
        }),
{
}

// ---------------------------------------------------------------------------
// Tabs
// ---------------------------------------------------------------------------

proof fn lemma_session_tabs(app: AppView, n: nat, i: int)
    requires
        n <= app.sessions.len(),
    ensures
        session_tabs(app, n).len() == 2 * n,
        0 <= i < n ==> session_tabs(app, n)[2 * i + 1] == crate::scene::styled_span(
            crate::panes::session_label(app.sessions[i], (i + 1) as nat),
            crate::panes::session_style(
                app.sessions[i],
                app.view == screen::View::Session(i as usize),
            ),
        ),
    decreases n,
{
    if n > 0 {
        lemma_session_tabs(app, (n - 1) as nat, i);
    }
}

proof fn lemma_browser_tabs(app: AppView, n: nat, i: int)
    requires
        n <= app.file_transfers.len(),
    ensures
        crate::panes::browser_tabs(app, n).len() == 2 * n,
        0 <= i < n ==> crate::panes::browser_tabs(app, n)[2 * i + 1].text == " F:"@
            + app.file_transfers[i].alias + " "@ && (crate::panes::browser_tabs(
            app,
            n,
        )[2 * i + 1].style.bg is Some) == (app.view == screen::View::FileTransfer(i as usize)),
    decreases n,
{
    if n > 0 {
        lemma_browser_tabs(app, (n - 1) as nat, i);
    }
}

pub(crate) proof fn lemma_tabs_are_counted(app: AppView)
    ensures
        session_tabs(app, app.sessions.len()).len() == 2 * app.sessions.len(),
        crate::panes::browser_tabs(app, app.file_transfers.len()).len() == 2
            * app.file_transfers.len(),
{
    lemma_session_tabs(app, app.sessions.len(), 0);
    lemma_browser_tabs(app, app.file_transfers.len(), 0);
}

/// The bar of tabs tells the host browser, then every session by its number and its
/// name, and then every file browser by its host. What is shown is highlighted, and
/// nothing else. A session that has ended tells with which code.
pub proof fn lemma_tab_bar_tells(app: AppView, i: int, j: int)
    requires
        0 <= i < app.sessions.len(),
        0 <= j < app.file_transfers.len(),
        app.wf(),
    ensures
        ({
            let spans = tab_spans(app);
            let tab = spans[2 * i + 2];
            let files = spans[2 * app.sessions.len() + 2 * j + 2];
            &&& (spans[0].style.bg is Some) == (app.view is Hosts)
            &&& stands_at(tab.text, decimal((i + 1) as nat) + ":"@ + app.sessions[i].alias, 1)
            &&& (tab.style.bg is Some) == (app.view == screen::View::Session(i as usize))
            &&& app.sessions[i].status matches SessionStatus::Exited(Some(code)) ==> ends_in(
                tab.text,
                " ["@ + decimal(code as nat) + "] "@,
            )
            &&& ends_in(files.text, app.file_transfers[j].alias + " "@)
            &&& (files.style.bg is Some) == (app.view == screen::View::FileTransfer(j as usize))
        }),
{
    lemma_session_tabs(app, app.sessions.len(), i);
    lemma_browser_tabs(app, app.file_transfers.len(), j);
    reveal_strlit(" ");
    let session = app.sessions[i];
    let label = crate::panes::session_label(session, (i + 1) as nat);
    let name = decimal((i + 1) as nat) + ":"@ + session.alias;
    assert(label.subrange(1, (1 + name.len()) as int) =~= name);
    if let SessionStatus::Exited(Some(code)) = session.status {
        let end = " ["@ + decimal(code as nat) + "] "@;
        assert(label =~= " "@ + name + end);
        lemma_sum_ends(" "@ + name, end);
    }
    let files = " F:"@ + app.file_transfers[j].alias + " "@;
    assert(files =~= " F:"@ + (app.file_transfers[j].alias + " "@));
    lemma_sum_ends(" F:"@, app.file_transfers[j].alias + " "@);
}

/// A session is drawn with its own terminal, with what is selected in it, inside a border
/// that tells its name. The cursor is where the terminal has it, unless it is hidden or
/// the program has ended.
pub proof fn lemma_session_is_drawn(
    session: SessionView,
    terminal: TerminalState,
    selection: Option<Selection>,
    notice: bool,
    area: Rect,
    x: u16,
    y: u16,
)
    requires
        area.width > 2,
        area.height > 2,
        area.x + area.width <= u16::MAX,
        area.y + area.height <= u16::MAX,
    ensures
        ({
            let draws = session_view(session, terminal, selection, notice, area);
            let shown = session.status is Running && !terminal.hide_cursor && terminal.cursor_col
                < area.width - 2 && terminal.cursor_row < area.height - 2;
            &&& draws.len() >= 2
            &&& draws[0] matches DrawView::Panel { area: at, block } && at == area
                && block.title.spans.len() == 1 && block.title.spans[0].text == " "@ + session.alias
                + " "@
            &&& draws[1] matches DrawView::Terminal { area: at, session: id, selection: marked }
                && id == session.id && marked == selected_range(selection) && at == (Rect {
                x: (area.x + 1) as u16,
                y: (area.y + 1) as u16,
                width: (area.width - 2) as u16,
                height: (area.height - 2) as u16,
            })
            &&& draws.contains(DrawView::Cursor { x, y }) <==> shown && x == area.x + 1
                + terminal.cursor_col && y == area.y + 1 + terminal.cursor_row
        }),
{
    let draws = session_view(session, terminal, selection, notice, area);
    let shown = session.status is Running && !terminal.hide_cursor && terminal.cursor_col
        < area.width - 2 && terminal.cursor_row < area.height - 2;
    if shown {
        assert(draws[2] is Cursor);
        if x == area.x + 1 + terminal.cursor_col && y == area.y + 1 + terminal.cursor_row {
            assert(draws[2] == (DrawView::Cursor { x, y }));
            assert(draws.contains(draws[2]));
        }
    }
    if draws.contains(DrawView::Cursor { x, y }) {
        let k = choose|k: int| 0 <= k < draws.len() && draws[k] == (DrawView::Cursor { x, y });
        assert(draws[k] is Cursor);
    }
}

// ---------------------------------------------------------------------------
// Files
// ---------------------------------------------------------------------------

/// A pane of files tells each entry by its name, a directory with a slash behind it, and
/// a file with its size at the right. The selected entry and no other is highlighted.
pub proof fn lemma_file_pane_tells(
    title: Seq<char>,
    entries: Seq<EntryView>,
    selected: int,
    focused: bool,
    area: Rect,
    i: int,
)
    requires
        0 <= i < entries.len(),
    ensures
        file_pane(title, entries, selected, focused, area) matches DrawView::List {
            area: at,
            items,
            selected: chosen,
            block,
        } && {
            &&& at == area && chosen == selected && items.len() == entries.len()
            &&& block.title.spans.len() == 1 && holds(block.title.spans[0].text, title)
            &&& is_marked(items[i]) == (i == selected)
            &&& items[i].spans.len() == 4
            &&& stands_at(items[i].spans[1].text, entries[i].name, 0)
            &&& entries[i].is_dir ==> stands_at(items[i].spans[1].text, entries[i].name + "/"@, 0)
            &&& !entries[i].is_dir ==> ends_in(items[i].spans[3].text, size_text(entries[i].size))
        },
{
    let entry = entries[i];
    let name = crate::file_panes::entry_name(entry).text;
    assert(name.subrange(0, entry.name.len() as int) =~= entry.name);
    if entry.is_dir {
        assert(name.subrange(0, (entry.name.len() + "/"@.len()) as int) =~= entry.name + "/"@);
    } else {
        if let Some(permissions) = entry.permissions_string() {
            lemma_sum_ends(permissions + "  "@, size_text(entry.size));
        } else {
            lemma_sum_ends(seq![], size_text(entry.size));
            assert(Seq::<char>::empty() + size_text(entry.size) =~= size_text(entry.size));
        }
    }
    let spaced = " "@ + title + " "@;
    assert(spaced.subrange(" "@.len() as int, (" "@.len() + title.len()) as int) =~= title);
    assert(stands_at(spaced, title, " "@.len() as int));
}

/// The file browser shows the local directory on the one side and the remote one on the
/// other, each with its own entries and its own selection, and the focus where it is.
/// While there is no connection, the remote side tells how that stands.
pub proof fn lemma_file_browser_shows_panes(browser: BrowserView, percent: u16, areas: FileAreas)
    ensures
        ({
            let draws = files_view(browser, percent, areas);
            let local = "Local"@ + ": "@ + browser.local_path;
            let remote = "Remote"@ + ": "@ + browser.remote_path;
            &&& draws.len() >= 2
            &&& crate::text::trim(browser.local_search.text).len() == 0 ==> draws[0] == file_pane(
                local,
                browser.visible(FileBrowserPane::Local),
                browser.local_selected,
                browser.focus is Local,
                areas.local,
            )
            &&& (browser.connection_status is Connected && crate::text::trim(
                browser.remote_search.text,
            ).len() == 0) ==> draws[1] == file_pane(
                remote,
                browser.visible(FileBrowserPane::Remote),
                browser.remote_selected,
                browser.focus is Remote,
                areas.remote,
            )
            &&& draws[draws.len() - 1] matches DrawView::Text { area, lines, .. } && area
                == areas.status && lines.len() == 1 && lines[0] == status_line(browser)
        }),
{
}

/// The line at the bottom tells what went wrong, and otherwise how the entries are sorted
/// and whether hidden ones are shown.
pub proof fn lemma_status_line_tells(browser: BrowserView)
    ensures
        ({
            let line = status_line(browser);
            let problem = match browser.mode {
                BrowserModeView::TransferError(message) => Some(message),
                _ => browser.error,
            };
            match problem {
                Some(message) => line.spans.len() == 2 && line.spans[1].text == message,
                None => line.spans.len() == 3 && line.spans[0].text == " Sort: "@ + (
                match browser.sort_by {
                    SortField::Name => "name"@,
                    SortField::Size => "size"@,
                    SortField::Modified => "modified"@,
                }) + (if browser.sort_ascending {
                    "↑"@
                } else {
                    "↓"@
                }) && line.spans[1].text == "  Hidden: "@ + (if browser.show_hidden {
                    "on"@
                } else {
                    "off"@
                }),
            }
        }),
{
}

/// The line of a transfer tells what is done to which file, how much of it is done, and
/// how many bytes of how many.
pub proof fn lemma_progress_line_tells(progress: ProgressView, percent: u16, columns: u16)
    ensures
        ({
            let line = progress_line(progress, percent, columns);
            &&& line.spans.len() == 4
            &&& holds(line.spans[0].text, progress.label + " "@ + progress.file_name)
            &&& ends_in(line.spans[0].text, "  "@ + decimal(percent as nat) + "% "@)
            &&& ends_in(
                line.spans[3].text,
                size_text(progress.bytes_transferred) + "/"@ + size_text(progress.total_bytes)
                    + " "@,
            )
        }),
{
    let start = crate::file_panes::progress_start(progress, percent);
    let name = progress.label + " "@ + progress.file_name;
    let share = "  "@ + decimal(percent as nat) + "% "@;
    assert(start =~= " >> "@ + name + share);
    assert(start.subrange(" >> "@.len() as int, (" >> "@.len() + name.len()) as int) =~= name);
    assert(stands_at(start, name, " >> "@.len() as int));
    lemma_sum_ends(" >> "@ + name, share);
    let end = crate::file_panes::progress_end(progress);
    let sizes = size_text(progress.bytes_transferred) + "/"@ + size_text(progress.total_bytes)
        + " "@;
    assert(end =~= "  "@ + sizes);
    lemma_sum_ends("  "@, sizes);
}

/// The bar of a transfer is filled in proportion: as many whole parts of its width as of
/// the bytes were copied, and the rest of it is left empty.
pub proof fn lemma_bar_is_in_proportion(width: int, progress: ProgressView)
    requires
        0 <= width <= 65535,
        progress.total_bytes > 0,
        progress.bytes_transferred <= progress.total_bytes,
    ensures
        ({
            let filled = bar_filled(width, progress);
            &&& filled * progress.total_bytes <= width * progress.bytes_transferred
            &&& width * progress.bytes_transferred < (filled + 1) * progress.total_bytes
        }),
{
    let (n, d) = (progress.bytes_transferred as int, progress.total_bytes as int);
    crate::file_panes::lemma_bar_holds_progress(width, progress);
    let q = (width * n) / d;
    vstd::arithmetic::div_mod::lemma_fundamental_div_mod(width * n, d);
    vstd::arithmetic::div_mod::lemma_mod_bound(width * n, d);
    assert(q <= usize::MAX) by {
        assert(q <= width) by (nonlinear_arith)
            requires
                q == (width * n) / d,
                0 <= n <= d,
                d > 0,
                0 <= width,
        ;
    }
    assert(d * q == q * d) by (nonlinear_arith);
    assert((q + 1) * d == q * d + d) by (nonlinear_arith);
}

// ---------------------------------------------------------------------------
// Windows
// ---------------------------------------------------------------------------

/// A password is never shown: what is drawn depends on how long it is, and on where the
/// cursor stands, and on nothing else of it.
pub proof fn lemma_password_is_hidden(alias: Seq<char>, a: InputView, b: InputView, area: Rect)
    requires
        byte_len(a.text) == byte_len(b.text),
        a.column() == b.column(),
    ensures
        password_prompt(alias, a, area) == password_prompt(alias, b, area),
{
}

/// Questions name what they are about, and what is to be done to it.
pub proof fn lemma_questions_name_their_subject(
    name: Seq<char>,
    is_dir: bool,
    direction: TransferDirection,
)
    ensures
        stands_at(host_question(name), name, "Delete host '"@.len() as int),
        stands_at(group_question(name), name, "Delete group '"@.len() as int),
        stands_at(
            delete_question(name, is_dir),
            name,
            ("Delete "@ + (if is_dir {
                "directory"@
            } else {
                "file"@
            }) + " '"@).len() as int,
        ),
        stands_at(
            transfer_question(name, direction),
            (match direction {
                TransferDirection::Upload => "Upload"@,
                TransferDirection::Download => "Download"@,
            }) + " '"@ + name,
            0,
        ),
{
    let host = host_question(name);
    let at = "Delete host '"@.len() as int;
    assert(host.subrange(at, at + name.len()) =~= name);
    let group = group_question(name);
    let from = "Delete group '"@.len() as int;
    assert(group.subrange(from, from + name.len()) =~= name);
    let start = "Delete "@ + (if is_dir {
        "directory"@
    } else {
        "file"@
    }) + " '"@;
    let delete = delete_question(name, is_dir);
    assert(delete =~= start + name + "'?"@);
    assert(delete.subrange(start.len() as int, (start.len() + name.len()) as int) =~= name);
    let question = (match direction {
        TransferDirection::Upload => "Upload"@,
        TransferDirection::Download => "Download"@,
    }) + " '"@ + name;
    let transfer = transfer_question(name, direction);
    assert(transfer.subrange(0, question.len() as int) =~= question);
}

/// Whether some lines tell a message: one of them is that message in the end.
pub open spec fn says(draws: Seq<DrawView>, line: int, message: Seq<char>) -> bool {
    draws.len() == 2 && (draws[1] matches DrawView::Text { lines, .. } && 0 <= line < lines.len()
        && lines[line].spans.len() == 1 && holds(lines[line].spans[0].text, message))
}

proof fn lemma_holds_itself(text: Seq<char>)
    ensures
        holds(text, text),
{
    assert(text.subrange(0, text.len() as int) =~= text);
    assert(stands_at(text, text, 0));
}

/// What went wrong with a session is told with its name and the reason, and so is what
/// came of a check, in another colour if it went well.
pub proof fn lemma_messages_tell(
    alias: Seq<char>,
    message: Seq<char>,
    success: bool,
    area: Rect,
)
    ensures
        says(connect_error(alias, message, area), 0, alias),
        says(connect_error(alias, message, area), 2, message),
        says(test_result(alias, TestStatusView::Done { success, message }, area), 0, alias),
        says(test_result(alias, TestStatusView::Done { success, message }, area), 2, message),
        says(test_result(alias, TestStatusView::Testing, area), 0, alias),
        test_result(alias, TestStatusView::Done { success: true, message }, area) != test_result(
            alias,
            TestStatusView::Done { success: false, message },
            area,
        ),
{
    let failed = "Could not reach '"@ + alias + "':"@;
    let heading = "Host '"@ + alias + "':"@;
    let (i, j) = ("Could not reach '"@.len() as int, "Host '"@.len() as int);
    assert(failed.subrange(i, i + alias.len()) =~= alias);
    assert(stands_at(failed, alias, i));
    assert(heading.subrange(j, j + alias.len()) =~= alias);
    assert(stands_at(heading, alias, j));
    lemma_holds_itself(message);
    let good = test_result(alias, TestStatusView::Done { success: true, message }, area);
    let bad = test_result(alias, TestStatusView::Done { success: false, message }, area);
    assert(good[1]->Text_lines[2].spans[0].style != bad[1]->Text_lines[2].spans[0].style);
}

/// A form shows every field in its own row: its label and what is typed there.
pub proof fn lemma_form_shows_fields(form: FormView, rows: Seq<Rect>, n: nat, i: int)
    requires
        n <= form.fields.len(),
        0 <= i < n,
    ensures
        exists|k: int|
            0 <= k < form_fields(form, rows, n).len() && (#[trigger] form_fields(form, rows, n)[k]
                matches DrawView::Text { area, lines, .. } && area == rows[i] && lines.len() == 1
                && lines[0].spans[1].text == form.fields[i].1.text && holds(
                lines[0].spans[0].text,
                form.fields[i].0.label_text(),
            )),
    decreases n,
{
    let all = form_fields(form, rows, n);
    let before = form_fields(form, rows, (n - 1) as nat);
    if i == n - 1 {
        let label = form.fields[i].0.label_text();
        let text = crate::scene::padded(label, 15) + ": "@;
        let at = if label.len() < 15 {
            15 - label.len()
        } else {
            0
        };
        assert(text.subrange(at, at + label.len()) =~= label);
        assert(stands_at(text, label, at));
        assert(all[before.len() as int] is Text);
    } else {
        lemma_form_shows_fields(form, rows, (n - 1) as nat, i);
        let k = choose|k: int|
            0 <= k < before.len() && (#[trigger] before[k] matches DrawView::Text {
                area,
                lines,
                ..
            } && area == rows[i] && lines.len() == 1 && lines[0].spans[1].text
                == form.fields[i].1.text && holds(
                lines[0].spans[0].text,
                form.fields[i].0.label_text(),
            ));
        assert(all[k] == before[k]);
    }
}

/// The list of options has a row for each, which tells its key and its value, and the
/// selected one and no other is highlighted.
pub proof fn lemma_options_are_shown(form: FormView, editor: EditorView, rows: Seq<Rect>, i: int)
    requires
        0 <= i < form.extras.len(),
    ensures
        extras_rows(form, editor, rows)[i] matches DrawView::Text { area, lines, .. } && area
            == rows[i] && lines.len() == 1 && lines[0].spans.len() == 1 && ends_in(
            lines[0].spans[0].text,
            form.extras[i].0 + " = "@ + form.extras[i].1,
        ) && is_marked(lines[0]) == (i == editor.selected),
{
    let pair = form.extras[i].0 + " = "@ + form.extras[i].1;
    assert(" "@ + form.extras[i].0 + " = "@ + form.extras[i].1 =~= " "@ + pair);
    lemma_sum_ends(" "@, pair);
}

// ---------------------------------------------------------------------------
// Terminals
// ---------------------------------------------------------------------------

/// Every cell of a terminal that has room in the area is drawn in its place, with what it
/// holds and how it looks. A cell without contents is drawn as a space, and what is
/// selected is shown the other way round.
pub proof fn lemma_cells_are_drawn(
    screen: TerminalScreen,
    selection: Option<(ScreenPos, ScreenPos)>,
    area: Rect,
    rows: int,
    cols: int,
    row: u16,
    col: u16,
)
    requires
        0 <= row < rows <= 65536,
        0 <= col < cols <= 65536,
        screen.at(row as int, col as int) is Some,
    ensures
        exists|k: int| #[trigger]
            draws_cell(
                screen_paints(screen, selection, area, rows, cols),
                k,
                screen,
                selection,
                area,
                row,
                col,
            ),
    decreases rows,
{
    let all = screen_paints(screen, selection, area, rows, cols);
    let before = screen_paints(screen, selection, area, rows - 1, cols);
    let own = row_paints(screen, selection, area, rows - 1, cols);
    if row == rows - 1 {
        let k = lemma_row_is_drawn(screen, selection, area, row, cols, col);
        assert(all[before.len() + k] == own[k]);
        assert(draws_cell(all, before.len() + k, screen, selection, area, row, col));
    } else {
        lemma_cells_are_drawn(screen, selection, area, rows - 1, cols, row, col);
        let k = choose|k: int| #[trigger]
            draws_cell(before, k, screen, selection, area, row, col);
        assert(all[k] == before[k]);
        assert(draws_cell(all, k, screen, selection, area, row, col));
    }
}

/// Whether a colour of a cell is drawn as it is: by its number, by its parts, or as what the
/// screen has by default.
pub open spec fn is_drawn_in(paint: PaintColor, color: CellColor) -> bool {
    match color {
        CellColor::Default => paint is Reset,
        CellColor::Idx(n) => paint == PaintColor::Indexed(n),
        CellColor::Rgb(red, green, blue) => paint == PaintColor::Rgb(red, green, blue),
    }
}

/// Whether a cell of a terminal is drawn.
pub open spec fn draws_cell(
    paints: Seq<PaintView>,
    k: int,
    screen: TerminalScreen,
    selection: Option<(ScreenPos, ScreenPos)>,
    area: Rect,
    row: u16,
    col: u16,
) -> bool {
    &&& 0 <= k < paints.len()
    &&& paints[k].x == area.x + col
    &&& paints[k].y == area.y + row
    &&& screen.at(row as int, col as int) matches Some(cell) && {
        &&& paints[k].symbol == (if cell.contents.len() == 0 {
            " "@
        } else {
            cell.contents
        })
        &&& paints[k].bold == cell.bold
        &&& paints[k].italic == cell.italic
        &&& paints[k].underlined == cell.underline
        &&& paints[k].reversed == (cell.inverse || is_within(selection, row, col))
        &&& is_drawn_in(paints[k].fg, cell.fg)
        &&& is_drawn_in(paints[k].bg, cell.bg)
    }
}

/// Whether a place lies in a selection: from its start to before its end, row by row.
pub open spec fn is_within(
    selection: Option<(ScreenPos, ScreenPos)>,
    row: u16,
    col: u16,
) -> bool {
    match selection {
        Some((start, end)) => (start.row < row || start.row == row && start.col <= col) && (row
            < end.row || row == end.row && col < end.col),
        None => false,
    }
}

proof fn lemma_row_is_drawn(
    screen: TerminalScreen,
    selection: Option<(ScreenPos, ScreenPos)>,
    area: Rect,
    row: u16,
    cols: int,
    col: u16,
) -> (k: int)
    requires
        0 <= col < cols <= 65536,
        screen.at(row as int, col as int) is Some,
    ensures
        draws_cell(
            row_paints(screen, selection, area, row as int, cols),
            k,
            screen,
            selection,
            area,
            row,
            col,
        ),
    decreases cols,
{
    let before = row_paints(screen, selection, area, row as int, cols - 1);
    if col == cols - 1 {
        before.len() as int
    } else {
        lemma_row_is_drawn(screen, selection, area, row, cols - 1, col)
    }
}

} // verus!
