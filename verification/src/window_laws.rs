//! What the windows and the panes show of the state of things.
use vstd::prelude::*;
use crate::app::{AppView, InputStateView, ModeView, TestStatusView};
use crate::connect_laws::{holds, stands_at};
use crate::dialogs::{confirm, entry_window, extras_rows, form_window};
use crate::file_panes::{
    bar_filled, bar_width, byte_len, entry_line, file_pane, files_view, pane_title, progress_line,
    remote_pane, shows_file_search, shows_progress, FileAreas,
};
use crate::filebrowser::{
    shown_progress, BrowserModeView, BrowserView, FileBrowserPane, TransferDirection,
};
use crate::form::{EditorView, EntryFormView, FormView};
use crate::input::InputView;
use crate::model::HostView;
use crate::panes::{
    columns_of, comment_lines, detail_lines, groups_pane, hosts_pane, search_bar, session_view,
    tab_bar, tab_spans, TerminalState,
};
use crate::pty::SessionView;
use crate::scene::{display_width, text_lines, wrapped_lines, BlockView, Color, DrawView, Rect};
use crate::screen;
use crate::screen::{ScreenPos, Selection};
use crate::seqs::lemma_position;
use crate::sftp::{EntryView, StatusView};
use crate::text::{decimal, trim};
use crate::transfer::{ProgressView, TransferStatusView};
use crate::ui::{
    browser_window, delete_question, extras_height, extras_parts, form_parts, group_question,
    host_question, main_view, mode_window, prompt_size, transfer_question, whole_screen,
    window_size, AreasView,
};

verus! {

// ---------------------------------------------------------------------------
// Lines of a text
// ---------------------------------------------------------------------------

proof fn lemma_lines_from(text: Seq<char>, start: int, at: int, end: int)
    requires
        0 <= start <= at <= end <= text.len(),
        forall|i: int| at <= i < end ==> text[i] != '\n',
        end == text.len() || text[end] == '\n',
    ensures
        end == text.len() && start < end ==> crate::scene::lines_from(text, start, at) == seq![
            text.subrange(start, end),
        ],
        end < text.len() ==> crate::scene::lines_from(text, start, at).len() > 0
            && crate::scene::lines_from(text, start, at)[0] == crate::scene::without_return(
            text.subrange(start, end),
        ),
    decreases end - at,
{
    if at < end {
        lemma_lines_from(text, start, at + 1, end);
    }
}

/// A text without a line break is one line. Otherwise what stands before the first break is
/// the first line, unless it ends in a carriage return.
pub proof fn lemma_first_line(text: Seq<char>, end: int)
    requires
        0 <= end <= text.len(),
        forall|i: int| 0 <= i < end ==> text[i] != '\n',
        end == text.len() || text[end] == '\n',
        end == text.len() ==> end > 0,
        end > 0 ==> text[end - 1] != '\r',
    ensures
        text_lines(text).len() > 0,
        text_lines(text)[0] == text.take(end),
        end == text.len() ==> text_lines(text) == seq![text],
{
    lemma_lines_from(text, 0, 0, end);
    assert(text.subrange(0, end) =~= text.take(end));
    if end == text.len() {
        assert(text.take(end) =~= text);
    }
}

// ---------------------------------------------------------------------------
// Panes
// ---------------------------------------------------------------------------

/// The border that a pane has.
pub open spec fn border_of(draw: DrawView) -> BlockView {
    draw->List_block
}

/// Of the two panes of the host browser the focused one is drawn in another colour, and
/// tells its keys.
pub proof fn lemma_focus_is_seen(app: AppView, area: Rect)
    ensures
        ({
            let groups = border_of(groups_pane(app, area));
            let hosts = border_of(hosts_pane(app, area));
            let (seen, other) = if app.focus is Groups {
                (groups, hosts)
            } else {
                (hosts, groups)
            };
            &&& seen.border_style.fg == Some(Color::Cyan) && other.border_style.fg == Some(
                Color::DarkGray,
            )
            &&& seen.bottom matches Some(keys) && keys.spans.len() > 0
            &&& other.bottom matches Some(keys) && keys.spans.len() == 0
        }),
{
    assert(crate::scene::hint_spans(seq![]) =~= seq![]);
    assert(crate::panes::group_keys().len() == 3);
    assert(crate::panes::host_keys().len() == 7);
}

/// The selected row is drawn in the colour of the focus only in the focused pane.
pub proof fn lemma_selected_row_is_seen(app: AppView, area: Rect)
    requires
        0 <= app.group_selected < app.group_entries.len(),
    ensures
        groups_pane(app, area)->items[app.group_selected].style.bg == Some(
            if app.focus is Groups {
                Color::Cyan
            } else {
                Color::White
            },
        ),
{
}

/// The same holds of the two panes of the file browser.
pub proof fn lemma_file_focus_is_seen(
    title: Seq<char>,
    entries: Seq<EntryView>,
    selected: int,
    area: Rect,
)
    requires
        0 <= selected < entries.len(),
    ensures
        ({
            let seen = file_pane(title, entries, selected, true, area);
            let other = file_pane(title, entries, selected, false, area);
            &&& border_of(seen).border_style.fg == Some(Color::Cyan)
            &&& border_of(other).border_style.fg == Some(Color::DarkGray)
            &&& seen->items[selected].style.bg == Some(Color::Cyan)
            &&& other->items[selected].style.bg == Some(Color::White)
            &&& border_of(other).bottom matches Some(keys) && keys.spans.len() == 0
            &&& border_of(seen).bottom matches Some(keys) && keys.spans.len() > 0
        }),
{
    assert(crate::scene::hint_spans(seq![]) =~= seq![]);
    assert(crate::file_panes::file_keys().len() == 7);
}

/// The comments of a host are told line by line, where there is room for them.
pub proof fn lemma_comments_are_told(host: HostView, width: u16, i: int)
    requires
        host.details.len() > 0,
        width > 19,
        0 <= i < wrapped_lines(host.details, (width - 19) as usize).len(),
    ensures
        ({
            let chunks = wrapped_lines(host.details, (width - 19) as usize);
            let lines = comment_lines(host.details, width);
            &&& lines.len() == chunks.len()
            &&& lines[i].spans.len() == 2
            &&& lines[i].spans[1].text == chunks[i]
            &&& i == 0 ==> holds(lines[0].spans[0].text, "Comments"@)
            &&& detail_lines(host, width).contains(lines[i])
        }),
{
    let lines = comment_lines(host.details, width);
    let name = "Comments"@;
    let label = crate::scene::padded(name, 15) + ": "@;
    let at = if name.len() < 15 {
        15 - name.len()
    } else {
        0
    };
    assert(label.subrange(at, at + name.len()) =~= name);
    assert(stands_at(label, name, at));
    let all = detail_lines(host, width);
    let before = all.len() - 1 - lines.len();
    assert(all[before + i] == lines[i]);
}

/// The search that is being typed is shown with a cursor, and one that was kept without.
pub proof fn lemma_search_is_shown(input: InputView, prompt: Seq<char>, columns: u16, area: Rect)
    requires
        area.x + area.width <= u16::MAX,
        columns + (input.column() as u16) < area.width,
    ensures
        ({
            let typing = search_bar(input, prompt, columns, true, area);
            let kept = search_bar(input, prompt, columns, false, area);
            &&& typing.len() == 2 && kept.len() == 1
            &&& typing[1] == (DrawView::Cursor {
                x: (area.x + columns + (input.column() as u16)) as u16,
                y: area.y,
            })
            &&& typing[0] matches DrawView::Text { lines, .. } && lines[0].spans[0].text == prompt
                && lines[0].spans[1].text == input.text
            &&& kept[0] matches DrawView::Text { lines, .. } && lines[0].spans[0].text == prompt
                && lines[0].spans[1].text == input.text
        }),
{
}

// ---------------------------------------------------------------------------
// Sessions and tabs
// ---------------------------------------------------------------------------

/// Whether a line is drawn in a row of the screen that starts with a text.
pub open spec fn draws_line(draws: Seq<DrawView>, start: Seq<char>, row: int) -> bool {
    exists|k: int| 0 <= k < draws.len() && #[trigger] is_line(draws[k], start, row)
}

/// Whether a line that starts with a text is drawn in a row, and nothing else.
pub open spec fn is_line(draw: DrawView, start: Seq<char>, row: int) -> bool {
    draw matches DrawView::Text { area, lines, .. } && area.y == row && area.height == 1
        && lines.len() == 1 && lines[0].spans.len() > 0 && lines[0].spans[0].text == start
}

/// A session that has ended is drawn in red, and that is told in the last row. How far the
/// view is scrolled back is told there while it is, and that something was copied in the
/// first row while the notice stands.
pub proof fn lemma_state_of_session_is_seen(
    session: SessionView,
    terminal: TerminalState,
    selection: Option<Selection>,
    notice: bool,
    area: Rect,
)
    requires
        area.width > 2,
        area.height > 2,
        area.x + area.width <= u16::MAX,
        area.y + area.height <= u16::MAX,
    ensures
        ({
            let draws = session_view(session, terminal, selection, notice, area);
            let last = area.y + area.height - 2;
            &&& draws[0] matches DrawView::Panel { block, .. } && (block.border_style.fg == Some(
                Color::Red,
            )) == (session.status is Exited)
            &&& terminal.scrollback > 0 ==> draws_line(
                draws,
                " ["@ + decimal(terminal.scrollback as nat) + " lines up] "@,
                last,
            )
            &&& session.status is Exited ==> draws_line(draws, " [disconnected] "@, last)
            &&& notice ==> draws_line(draws, " Copied to clipboard "@, area.y + 1)
        }),
{
    let draws = session_view(session, terminal, selection, notice, area);
    let last = area.y + area.height - 2;
    let cursor: int = if session.status is Exited {
        0
    } else {
        crate::panes::terminal_cursor(area.inside(), terminal).len() as int
    };
    let scrolled: int = if terminal.scrollback > 0 {
        1
    } else {
        0
    };
    let dead: int = if session.status is Exited {
        1
    } else {
        0
    };
    if terminal.scrollback > 0 {
        assert(is_line(
            draws[2 + cursor],
            " ["@ + decimal(terminal.scrollback as nat) + " lines up] "@,
            last,
        ));
    }
    if session.status is Exited {
        assert(is_line(draws[2 + cursor + scrolled], " [disconnected] "@, last));
    }
    if notice {
        assert(is_line(
            draws[2 + cursor + scrolled + dead + 1],
            " Copied to clipboard "@,
            area.y + 1,
        ));
    }
}

/// Nothing is told of a session that runs, is not scrolled back, and of which nothing was
/// copied: its border, its terminal and at most the cursor are drawn.
pub proof fn lemma_running_session_is_plain(
    session: SessionView,
    terminal: TerminalState,
    selection: Option<Selection>,
    area: Rect,
)
    requires
        session.status is Running,
        terminal.scrollback == 0,
    ensures
        ({
            let draws = session_view(session, terminal, selection, false, area);
            2 <= draws.len() <= 3 && (draws.len() == 3 ==> draws[2] is Cursor)
        }),
{
}

/// A session with output that was not seen is drawn in green, unless it is shown or has ended.
pub proof fn lemma_unread_session_is_seen(app: AppView, session: SessionView, active: bool)
    ensures
        ({
            let style = crate::panes::session_style(session, active);
            (style.fg == Some(Color::Green)) == (!active && session.unread
                && session.status is Running)
        }),
        app.prefix is Pending <==> tab_spans(app).last().text == "^T-"@ && tab_spans(app).len()
            == 2 * app.sessions.len() + 2 * app.file_transfers.len() + 3,
{
    crate::screen_laws::lemma_tabs_are_counted(app);
}

/// What is shown fills the screen: the host browser, the session or the files of the view.
/// With it comes the bar of tabs, where there are any, and last the window that is open.
pub proof fn lemma_screen_shows_view(
    app: AppView,
    terminal: TerminalState,
    percent: u16,
    areas: AreasView,
)
    requires
        app.wf(),
    ensures
        ({
            let all = whole_screen(app, terminal, percent, areas);
            let main = main_view(app, terminal, percent, areas);
            let window = mode_window(app.mode, areas);
            let n = main.len() as int;
            let bar: int = if app.sessions.len() > 0 || app.file_transfers.len() > 0 {
                1
            } else {
                0
            };
            &&& all.len() == n + bar + window.len()
            &&& all.take(n) == main
            &&& bar == 1 ==> all[n] == tab_bar(app, areas.tabs)
            &&& all.skip(n + bar) == window
            &&& window.len() == 0 <==> app.mode is Normal || app.mode is Searching
            &&& match app.view {
                screen::View::Hosts => n >= 3 && all[0] is List && all[1] is List,
                screen::View::Session(i) => all.take(n) == session_view(
                    app.sessions[i as int],
                    terminal,
                    app.selection,
                    app.clipboard_notice_until is Some,
                    areas.main,
                ),
                screen::View::FileTransfer(i) => (all[0] matches DrawView::List { items, .. }
                    && items.len() == app.file_transfers[i as int].visible(
                    FileBrowserPane::Local,
                ).len()),
            }
        }),
{
    let all = whole_screen(app, terminal, percent, areas);
    let main = main_view(app, terminal, percent, areas);
    let window = mode_window(app.mode, areas);
    let n = main.len() as int;
    let bar: int = if app.sessions.len() > 0 || app.file_transfers.len() > 0 {
        1
    } else {
        0
    };
    assert(all.take(n) =~= main);
    assert(all.skip(n + bar) =~= window);
    assert(all[0] == main[0]);
}

/// What is selected is marked from the earlier end to behind the later one.
pub proof fn lemma_selection_is_marked(
    session: SessionView,
    terminal: TerminalState,
    selection: Option<Selection>,
    notice: bool,
    area: Rect,
)
    requires
        selection matches Some(s) ==> s.anchor.col < u16::MAX && s.end.col < u16::MAX,
    ensures
        session_view(session, terminal, selection, notice, area)[1] matches DrawView::Terminal {
            selection: marked,
            ..
        } && match selection {
            None => marked is None,
            Some(s) => marked matches Some((from, to)) && to.col > 0 && (from.row < to.row
                || from.row == to.row && from.col < to.col) && {
                let last = ScreenPos { row: to.row, col: (to.col - 1) as u16 };
                (from == s.anchor && last == s.end) || (from == s.end && last == s.anchor)
            },
        },
{
}

/// Where there is room, the help on tabs stands at the right end of the bar.
pub proof fn lemma_help_stands_at_the_end(app: AppView, area: Rect)
    ensures
        tab_bar(app, area) matches DrawView::Text { area: at, lines, .. } && at == area
            && lines.len() == 1 && {
            let spans = lines[0].spans;
            let n = tab_spans(app).len() as int;
            &&& spans.take(n) == tab_spans(app)
            &&& spans.len() > n <==> area.width > columns_of(tab_spans(app)) + 10
            &&& spans.len() > n ==> spans.len() == n + 2 && spans[n + 1].text == "^T ? help"@
                && columns_of(tab_spans(app)) + spans[n].text.len() + "^T ? help"@.len()
                == area.width
        },
{
    reveal_strlit("^T ? help");
    let spans = tab_bar(app, area)->Text_lines[0].spans;
    let n = tab_spans(app).len() as int;
    assert(spans.take(n) =~= tab_spans(app));
}

// ---------------------------------------------------------------------------
// Files
// ---------------------------------------------------------------------------

/// Where there is room, what is told of an entry stands at the right end of its line.
pub proof fn lemma_facts_stand_at_the_end(entry: EntryView, columns: u16, style: crate::scene::Style)
    ensures
        ({
            let spans = entry_line(entry, columns, style).spans;
            let used = display_width(spans[1].text) + spans[3].text.len();
            &&& used + 2 < columns ==> 1 + used + spans[2].text.len() == columns
            &&& used + 2 >= columns ==> spans[2].text.len() == 1
        }),
{
}

/// The search of the files is that of the pane that is searched, or else of the focused one,
/// and has a cursor while it is typed.
pub proof fn lemma_file_search_is_shown(browser: BrowserView, area: Rect)
    requires
        area.x + area.width <= u16::MAX,
    ensures
        ({
            let pane = match browser.mode {
                BrowserModeView::Searching(pane) => pane,
                _ => browser.focus,
            };
            let (label, input) = match pane {
                FileBrowserPane::Local => ("Local / "@, browser.local_search),
                FileBrowserPane::Remote => ("Remote / "@, browser.remote_search),
            };
            let draws = crate::file_panes::file_search_bar(browser, area);
            &&& draws.len() >= 1
            &&& draws[0] matches DrawView::Text { area: at, lines, .. } && at == area
                && lines[0].spans[0].text == label && lines[0].spans[1].text == input.text && (
            lines[0].spans[2].text.len() > 0) == (!(browser.mode is Searching) || input.text.len()
                == 0)
            &&& draws.len() > 1 <==> browser.mode is Searching && label.len() + (
            input.column() as u16) < area.width
            &&& draws.len() > 1 ==> draws[1] == (DrawView::Cursor {
                x: (area.x + label.len() + (input.column() as u16)) as u16,
                y: area.y,
            })
        }),
{
    reveal_strlit("Local / ");
    reveal_strlit("Remote / ");
    reveal_strlit("  (/ to edit)");
    reveal_strlit("  (Enter to keep, Esc to clear)");
    reveal_strlit("");
}

/// A message stands in the middle of a pane: as many rows are left above it as below it, or one
/// more below.
pub proof fn lemma_message_stands_in_the_middle(inner: Rect, count: u16)
    requires
        count < inner.height,
        inner.y + inner.height <= u16::MAX,
    ensures
        ({
            let rows = crate::file_panes::middle_rows(inner, count);
            let above = rows.y - inner.y;
            let below = inner.height - count - above;
            &&& rows.x == inner.x && rows.width == inner.width && rows.height == count
            &&& 0 <= above <= below <= above + 1
        }),
{
}

/// A link is told by a mark behind its name, and what may be done to an entry by the letters
/// of its permissions at the right.
pub proof fn lemma_entry_tells(entry: EntryView, columns: u16, style: crate::scene::Style)
    ensures
        ({
            let line = entry_line(entry, columns, style);
            &&& line.style == style
            &&& entry.is_symlink() ==> stands_at(
                line.spans[1].text,
                " @"@,
                line.spans[1].text.len() - " @"@.len(),
            )
            &&& !entry.is_symlink() ==> line.spans[1].text.len() == entry.name.len() + (
            if entry.is_dir {
                "/"@.len() + ""@.len()
            } else {
                0
            })
            &&& entry.permissions_string() matches Some(permissions) ==> stands_at(
                line.spans[3].text,
                permissions,
                0,
            )
        }),
{
    let name = crate::file_panes::entry_name(entry).text;
    if entry.is_symlink() {
        let at = name.len() - " @"@.len();
        assert(name.subrange(at, name.len() as int) =~= " @"@);
    }
    if let Some(permissions) = entry.permissions_string() {
        let facts = crate::file_panes::entry_facts(entry);
        assert(facts.subrange(0, permissions.len() as int) =~= permissions);
    }
}

/// The title of a pane tells its directory, and the search that it is narrowed to.
pub proof fn lemma_title_tells(label: Seq<char>, path: Seq<char>, search: Seq<char>)
    ensures
        stands_at(pane_title(label, path, search), label + ": "@ + path, 0),
        trim(search).len() > 0 ==> crate::transfer_laws::ends_in(
            pane_title(label, path, search),
            "  /"@ + trim(search),
        ),
        trim(search).len() == 0 ==> pane_title(label, path, search) == label + ": "@ + path,
{
    let title = pane_title(label, path, search);
    let start = label + ": "@ + path;
    assert(title.subrange(0, start.len() as int) =~= start);
    if trim(search).len() > 0 {
        assert(title.skip(start.len() as int) =~= "  /"@ + trim(search));
    }
}

/// Whether a pane tells a message in its first line, and in a colour.
pub open spec fn pane_tells(draws: Seq<DrawView>, message: Seq<char>, color: Color) -> bool {
    draws.len() == 2 && (draws[1] matches DrawView::Text { lines, .. } && lines.len() > 0
        && lines[0].spans.len() == 1 && lines[0].spans[0].text == message
        && lines[0].spans[0].style.fg == Some(color))
}

/// While there is no connection, the remote pane tells how that stands, and why it failed.
pub proof fn lemma_connection_is_told(browser: BrowserView, area: Rect, message: Seq<char>)
    requires
        area.height > 2,
    ensures
        browser.connection_status is Connecting ==> pane_tells(
            remote_pane(browser, area),
            "Connecting..."@,
            Color::Yellow,
        ),
        browser.connection_status is NeedsPassword ==> pane_tells(
            remote_pane(browser, area),
            "Password required..."@,
            Color::Yellow,
        ),
        browser.connection_status == StatusView::Failed(message) && !message.contains('\n') && (
        message.len() > 0 ==> message.last() != '\r') ==> pane_tells(
            remote_pane(browser, area),
            message,
            Color::Red,
        ),
        browser.connection_status is Connected ==> remote_pane(browser, area).len() == 1
            && remote_pane(browser, area)[0] is List,
{
    reveal_strlit("Connecting...");
    reveal_strlit("Password required...");
    reveal_strlit("\n\nPress R to reconnect");
    lemma_first_line("Connecting..."@, "Connecting..."@.len() as int);
    lemma_first_line("Password required..."@, "Password required..."@.len() as int);
    if browser.connection_status == StatusView::Failed(message) && !message.contains('\n') && (
    message.len() > 0 ==> message.last() != '\r') {
        let text = message + "\n\nPress R to reconnect"@;
        assert forall|i: int| 0 <= i < message.len() implies text[i] != '\n' by {
            assert(message.contains(message[i]));
        }
        lemma_first_line(text, message.len() as int);
        assert(text.take(message.len() as int) =~= message);
    }
}

/// Of several transfers, the first that is under way is shown, and without one, the first.
pub proof fn lemma_progress_that_is_shown(transfers: Seq<(u64, ProgressView)>, i: int)
    requires
        0 <= i < transfers.len(),
    ensures
        shown_progress(transfers) is Some,
        transfers[i].1.status is InProgress && (forall|k: int|
            0 <= k < i ==> !((#[trigger] transfers[k]).1.status is InProgress)) ==> shown_progress(
            transfers,
        ) == Some(transfers[i].1),
        (forall|k: int| 0 <= k < transfers.len() ==> !((#[trigger] transfers[k]).1.status is InProgress))
            ==> shown_progress(transfers) == Some(transfers[0].1),
        shown_progress(seq![]) is None,
{
    lemma_position(transfers, |t: (u64, ProgressView)| t.1.status is InProgress);
    let none = Seq::<(u64, ProgressView)>::empty();
    lemma_position(none, |t: (u64, ProgressView)| t.1.status is InProgress);
    assert(seq![] =~= none);
}

/// The bar of a transfer has as many cells as there is room for, and its colour tells how the
/// transfer stands.
pub proof fn lemma_bar_is_drawn(progress: ProgressView, percent: u16, columns: u16)
    requires
        progress.bytes_transferred <= progress.total_bytes,
    ensures
        ({
            let line = progress_line(progress, percent, columns);
            let (start, end) = (line.spans[0].text, line.spans[3].text);
            let room = columns - (byte_len(start) + byte_len(end));
            let cells = line.spans[1].text.len() + line.spans[2].text.len();
            &&& cells == (if room > 4 {
                room
            } else {
                4
            })
            &&& line.spans[1].style.fg == Some(
                match progress.status {
                    TransferStatusView::InProgress => Color::Cyan,
                    TransferStatusView::Completed => Color::Green,
                    TransferStatusView::Failed(_) => Color::Red,
                    TransferStatusView::Cancelled => Color::Yellow,
                },
            )
        }),
{
    let start = crate::file_panes::progress_start(progress, percent);
    let end = crate::file_panes::progress_end(progress);
    let width = bar_width(columns, start, end);
    let (n, d) = (progress.bytes_transferred as int, progress.total_bytes as int);
    if d > 0 {
        let q = (width * n) / d;
        assert(0 <= q <= width) by (nonlinear_arith)
            requires
                q == (width * n) / d,
                0 <= n <= d,
                d > 0,
                0 <= width,
        ;
    }
    assert(0 <= bar_filled(width, progress) <= width);
}

/// The progress has a line while there is any to show, and so has a search.
pub proof fn lemma_lines_below_panes(browser: BrowserView, percent: u16, areas: FileAreas)
    ensures
        shown_progress(browser.transfers) is Some <==> shows_progress(browser),
        shows_file_search(browser) <==> browser.mode is Searching || (match browser.focus {
            FileBrowserPane::Local => browser.local_search.text.len() > 0,
            FileBrowserPane::Remote => browser.remote_search.text.len() > 0,
        }),
        shown_progress(browser.transfers) matches Some(progress) ==> files_view(
            browser,
            percent,
            areas,
        ).contains(
            (DrawView::Text {
                area: areas.progress,
                lines: seq![progress_line(progress, percent, areas.progress.width)],
                border: None,
            }),
        ),
{
    lemma_position(browser.transfers, |t: (u64, ProgressView)| t.1.status is InProgress);
    if let Some(progress) = shown_progress(browser.transfers) {
        let draws = files_view(browser, percent, areas);
        let k = 1 + remote_pane(browser, areas.remote).len() as int;
        assert(draws[k] == (DrawView::Text {
            area: areas.progress,
            lines: seq![progress_line(progress, percent, areas.progress.width)],
            border: None,
        }));
    }
}

// ---------------------------------------------------------------------------
// Windows
// ---------------------------------------------------------------------------

/// Whether a window asks a question: its first line is the question.
pub open spec fn asks(draws: Seq<DrawView>, area: Rect, question: Seq<char>) -> bool {
    draws.len() == 2 && draws[0] == DrawView::Clear(area) && (draws[1] matches DrawView::Text {
        area: at,
        lines,
        ..
    } && at == area && lines.len() > 0 && lines[0].spans.len() == 1 && lines[0].spans[0].text
        == question)
}

proof fn lemma_asks(title: Seq<char>, question: Seq<char>, rest: Seq<char>, area: Rect)
    requires
        !question.contains('\n'),
        question.len() > 0,
        question.last() != '\r',
        rest.len() > 0 ==> rest[0] == '\n',
    ensures
        asks(confirm(title, question + rest, area), area, question),
{
    let text = question + rest;
    assert forall|i: int| 0 <= i < question.len() implies text[i] != '\n' by {
        assert(question.contains(question[i]));
    }
    lemma_first_line(text, question.len() as int);
    assert(text.take(question.len() as int) =~= question);
}

proof fn lemma_no_break(start: Seq<char>, name: Seq<char>, end: Seq<char>)
    requires
        !start.contains('\n'),
        !name.contains('\n'),
        !end.contains('\n'),
    ensures
        !(start + name + end).contains('\n'),
{
    let all = start + name + end;
    if all.contains('\n') {
        let i = choose|i: int| 0 <= i < all.len() && all[i] == '\n';
        if i < start.len() {
            assert(start.contains(start[i]));
        } else if i < start.len() + name.len() {
            assert(name.contains(name[i - start.len()]));
        } else {
            assert(end.contains(end[i - start.len() - name.len()]));
        }
    }
}

/// Before a host or a group is deleted, the window asks about it by its name.
pub proof fn lemma_deletion_is_asked(name: Seq<char>, areas: AreasView)
    requires
        !name.contains('\n'),
    ensures
        asks(
            mode_window(ModeView::ConfirmDelete(name), areas),
            areas.window,
            "Delete host '"@ + name + "'?"@,
        ),
        asks(
            mode_window(ModeView::ConfirmDeleteGroup(name), areas),
            areas.window,
            "Delete group '"@ + name + "'?"@,
        ),
{
    reveal_strlit("Delete host '");
    reveal_strlit("Delete group '");
    reveal_strlit("'?");
    reveal_strlit("'?\nHosts will become ungrouped.");
    reveal_strlit("\nHosts will become ungrouped.");
    lemma_no_break("Delete host '"@, name, "'?"@);
    lemma_no_break("Delete group '"@, name, "'?"@);
    let host = "Delete host '"@ + name + "'?"@;
    lemma_asks("Confirm Delete"@, host, seq![], areas.window);
    assert(host + Seq::<char>::empty() =~= host);
    let group = "Delete group '"@ + name + "'?"@;
    let rest = "\nHosts will become ungrouped."@;
    assert("'?\nHosts will become ungrouped."@ =~= "'?"@ + rest);
    assert(group_question(name) =~= group + rest);
    lemma_asks("Confirm Delete"@, group, rest, areas.window);
}

/// Before a file is deleted or written over, the window asks about it by its name and kind.
pub proof fn lemma_file_questions_are_asked(browser: BrowserView, name: Seq<char>, area: Rect)
    requires
        !name.contains('\n'),
    ensures
        browser.mode == (BrowserModeView::ConfirmDelete { name, is_dir: true }) ==> asks(
            browser_window(browser, area),
            area,
            "Delete directory '"@ + name + "'?"@,
        ),
        browser.mode == (BrowserModeView::ConfirmDelete { name, is_dir: false }) ==> asks(
            browser_window(browser, area),
            area,
            "Delete file '"@ + name + "'?"@,
        ),
        browser.mode == (BrowserModeView::ConfirmTransfer {
            file: name,
            direction: TransferDirection::Upload,
        }) ==> asks(browser_window(browser, area), area, "Upload '"@ + name + "'?"@),
        browser.mode == (BrowserModeView::ConfirmTransfer {
            file: name,
            direction: TransferDirection::Download,
        }) ==> asks(browser_window(browser, area), area, "Download '"@ + name + "'?"@),
{
    reveal_strlit("Delete ");
    reveal_strlit("directory");
    reveal_strlit("file");
    reveal_strlit(" '");
    reveal_strlit("'?");
    reveal_strlit("Upload");
    reveal_strlit("Download");
    reveal_strlit("Delete directory '");
    reveal_strlit("Delete file '");
    reveal_strlit("Upload '");
    reveal_strlit("Download '");
    reveal_strlit("'?\nFile already exists at destination.");
    reveal_strlit("\nFile already exists at destination.");
    let rest = "\nFile already exists at destination."@;
    assert("'?\nFile already exists at destination."@ =~= "'?"@ + rest);
    let none = Seq::<char>::empty();
    lemma_no_break("Delete directory '"@, name, "'?"@);
    lemma_no_break("Delete file '"@, name, "'?"@);
    lemma_no_break("Upload '"@, name, "'?"@);
    lemma_no_break("Download '"@, name, "'?"@);
    let directory = "Delete directory '"@ + name + "'?"@;
    assert(delete_question(name, true) =~= directory + none);
    lemma_asks("Confirm Delete"@, directory, none, area);
    let file = "Delete file '"@ + name + "'?"@;
    assert(delete_question(name, false) =~= file + none);
    lemma_asks("Confirm Delete"@, file, none, area);
    let upload = "Upload '"@ + name + "'?"@;
    assert(transfer_question(name, TransferDirection::Upload) =~= upload + rest);
    lemma_asks("Confirm Transfer"@, upload, rest, area);
    let download = "Download '"@ + name + "'?"@;
    assert(transfer_question(name, TransferDirection::Download) =~= download + rest);
    lemma_asks("Confirm Transfer"@, download, rest, area);
}

/// Whether a window shows what is typed, behind a label.
pub open spec fn shows_input(draws: Seq<DrawView>, label: Seq<char>, text: Seq<char>) -> bool {
    draws.len() >= 3 && (draws[2] matches DrawView::Text { lines, .. } && lines.len() > 0
        && lines[0].spans.len() == 2 && lines[0].spans[0].text == label && lines[0].spans[1].text
        == text)
}

/// A name is shown as it is typed, and of a password one star for each byte. The error stands
/// below the name, and a password is asked for by the name of the host.
pub proof fn lemma_inputs_are_shown(
    browser: BrowserView,
    input: InputView,
    area: Rect,
    areas: AreasView,
    name: InputStateView,
    original: Seq<char>,
)
    ensures
        browser.mode == BrowserModeView::Creating(input) ==> shows_input(
            browser_window(browser, area),
            "Name: "@,
            input.text,
        ),
        browser.mode == BrowserModeView::PasswordPrompt(input) ==> {
            let draws = browser_window(browser, area);
            &&& shows_input(
                draws,
                "Password: "@,
                Seq::new(byte_len(input.text) as nat, |i: int| '*'),
            )
            &&& draws[1] matches DrawView::Panel { block, .. } && holds(
                block.title.spans[0].text,
                browser.alias,
            )
        },
        shows_input(
            mode_window(ModeView::AddingGroup(name), areas),
            "Name: "@,
            name.buffer.text,
        ),
        shows_input(
            mode_window(ModeView::EditingGroup { original_name: original, input: name }, areas),
            "Name: "@,
            name.buffer.text,
        ),
        name.error matches Some(error) ==> (mode_window(ModeView::AddingGroup(name), areas)[2]
            matches DrawView::Text { lines, .. } && lines.len() == 3 && lines[2].spans[0].text
            == error),
        name.error is None ==> (mode_window(ModeView::AddingGroup(name), areas)[2]
            matches DrawView::Text { lines, .. } && lines.len() == 1),
        mode_window(ModeView::AddingGroup(name), areas) != mode_window(
            ModeView::EditingGroup { original_name: original, input: name },
            areas,
        ),
{
    let title = " Passphrase/Password for "@ + browser.alias + " "@;
    let at = " Passphrase/Password for "@.len() as int;
    assert(title.subrange(at, at + browser.alias.len()) =~= browser.alias);
    assert(stands_at(title, browser.alias, at));
    assert(Seq::new(byte_len(input.text) as nat, |i: int| '*') =~= crate::scene::repeated(
        '*',
        byte_len(input.text) as nat,
    ));
    reveal_strlit("New Group");
    reveal_strlit("Rename Group");
    reveal_strlit(" ");
    let adding = mode_window(ModeView::AddingGroup(name), areas);
    let renaming = mode_window(
        ModeView::EditingGroup { original_name: original, input: name },
        areas,
    );
    assert(adding[1]->Panel_block.title.spans[0].text[1] == 'N');
    assert(renaming[1]->Panel_block.title.spans[0].text[1] == 'R');
}

/// Whether the cursor stands behind the label and what is typed before it, if there is room.
pub open spec fn cursor_stands_behind(
    draws: Seq<DrawView>,
    k: int,
    area: Rect,
    label: nat,
    column: usize,
) -> bool {
    label + (column as u16) < area.width ==> draws.len() > k && draws[k] == (DrawView::Cursor {
        x: (area.x + label + (column as u16)) as u16,
        y: area.y,
    })
}

/// The cursor stands where the next character goes: behind the label, and as many columns
/// further as stand before it.
pub proof fn lemma_cursor_stands_behind_label(
    browser: BrowserView,
    input: InputView,
    area: Rect,
    areas: AreasView,
    name: InputStateView,
)
    requires
        area.inside().x + area.inside().width <= u16::MAX,
        areas.window.inside().x + areas.window.inside().width <= u16::MAX,
    ensures
        browser.mode == BrowserModeView::Creating(input) ==> cursor_stands_behind(
            browser_window(browser, area),
            3,
            area.inside(),
            "Name: "@.len(),
            input.column(),
        ),
        browser.mode == BrowserModeView::PasswordPrompt(input) ==> cursor_stands_behind(
            browser_window(browser, area),
            3,
            area.inside(),
            "Password: "@.len(),
            input.column(),
        ),
        cursor_stands_behind(
            mode_window(ModeView::AddingGroup(name), areas),
            3,
            areas.window.inside(),
            "Name: "@.len(),
            name.buffer.column(),
        ),
{
    reveal_strlit("Name: ");
    reveal_strlit("Password: ");
}

/// In a form the cursor stands in the active field, behind its label, and in no other.
pub proof fn lemma_cursor_stands_in_field(
    row: Rect,
    label: Seq<char>,
    width: u16,
    input: InputView,
    active: bool,
)
    requires
        row.x + row.width <= u16::MAX,
        width < 1000,
        label.len() <= width,
    ensures
        ({
            let draws = crate::dialogs::field_row(row, label, width, input, active);
            let shown = draws[0]->Text_lines[0].spans[0].text;
            &&& active ==> cursor_stands_behind(draws, 1, row, shown.len(), input.column())
            &&& !active ==> draws.len() == 1
            &&& (draws[0]->Text_lines[0].spans[0].style.bold) == active
        }),
{
    reveal_strlit(": ");
}

/// The error of a form stands below its fields, and the two kinds of forms differ.
pub proof fn lemma_form_error_is_shown(
    title: Seq<char>,
    form: FormView,
    area: Rect,
    rows: Seq<Rect>,
)
    ensures
        form.error matches Some(error) ==> (form_window(title, form, area, rows).last()
            matches DrawView::Text { area: at, lines, .. } && at == rows[form.fields.len() as int]
            && lines.len() == 1 && crate::transfer_laws::ends_in(lines[0].spans[0].text, error)),
        form_window(title, form, area, rows)[1] matches DrawView::Panel { area: at, block } && at
            == area && holds(block.title.spans[0].text, title) && (block.bottom matches Some(keys)
            && holds(keys.spans[4].text, decimal(form.extras.len()))),
{
    if let Some(error) = form.error {
        assert(("  "@ + error).skip("  "@.len() as int) =~= error);
    }
    let spaced = " "@ + title + " "@;
    let at = " "@.len() as int;
    assert(spaced.subrange(at, at + title.len()) =~= title);
    assert(stands_at(spaced, title, at));
    let count = " Ctrl+K Extras ("@ + decimal(form.extras.len()) + ") "@;
    let from = " Ctrl+K Extras ("@.len() as int;
    assert(count.subrange(from, from + decimal(form.extras.len()).len()) =~= decimal(
        form.extras.len(),
    ));
    assert(stands_at(count, decimal(form.extras.len()), from));
}

/// The editor of an option shows its key and its value, each in a row, and below them the
/// error. What is active is drawn in another colour.
pub proof fn lemma_option_editor_is_shown(
    entry: EntryFormView,
    error: Option<Seq<char>>,
    area: Rect,
    rows: Seq<Rect>,
)
    ensures
        ({
            let draws = entry_window(entry, error, area, rows);
            let cursor: int = if entry.active is Key {
                crate::scene::cursor_at(rows[0], 9, entry.key.column()).len() as int
            } else {
                0
            };
            &&& draws.len() > 3 + cursor
            &&& draws[2] matches DrawView::Text { area: at, lines, .. } && at == rows[0]
                && lines[0].spans[1].text == entry.key.text && (lines[0].spans[1].style.fg == Some(
                Color::White,
            )) == (entry.active is Key)
            &&& draws[3 + cursor] matches DrawView::Text { area: at, lines, .. } && at == rows[1]
                && lines[0].spans[1].text == entry.value.text && (lines[0].spans[1].style.fg
                == Some(Color::White)) == (entry.active is Value)
            &&& error matches Some(message) ==> (draws.last() matches DrawView::Text {
                area: at,
                lines,
                ..
            } && at == rows[2] && crate::transfer_laws::ends_in(lines[0].spans[0].text, message))
        }),
{
    if let Some(message) = error {
        assert(("  "@ + message).skip("  "@.len() as int) =~= message);
    }
}

/// The error of an option in the list stands below the options.
pub proof fn lemma_option_error_is_shown(form: FormView, editor: EditorView, rows: Seq<Rect>)
    requires
        form.extras.len() > 0,
    ensures
        extras_rows(form, editor, rows).len() == form.extras.len() + (if editor.error is Some {
            1int
        } else {
            0
        }),
        editor.error matches Some(message) ==> (extras_rows(form, editor, rows).last()
            matches DrawView::Text { area, lines, .. } && area == rows[form.extras.len() as int]
            && crate::transfer_laws::ends_in(lines[0].spans[0].text, message)),
{
    if let Some(message) = editor.error {
        assert((" "@ + message).skip(" "@.len() as int) =~= message);
    }
}

/// How many rows of a window are taken up by its text and its border.
pub open spec fn rows_needed(draws: Seq<DrawView>) -> int {
    draws[1]->Text_lines.len() + 2int
}

/// A window that asks or tells has room for all of its lines, and one that asks for a name
/// has room for the error too.
pub proof fn lemma_windows_have_room(
    name: Seq<char>,
    areas: AreasView,
    message: Seq<char>,
    status: TestStatusView,
    input: InputStateView,
)
    requires
        text_lines(host_question(name)).len() < 65531,
        text_lines(group_question(name)).len() < 65531,
    ensures
        window_size(ModeView::ConfirmDelete(name)) matches Some(size) && size.1 == rows_needed(
            mode_window(ModeView::ConfirmDelete(name), areas),
        ),
        window_size(ModeView::ConfirmDeleteGroup(name)) matches Some(size) && size.1
            == rows_needed(mode_window(ModeView::ConfirmDeleteGroup(name), areas)),
        window_size(ModeView::ConnectError { alias: name, message }) matches Some(size) && size.1
            >= rows_needed(mode_window(ModeView::ConnectError { alias: name, message }, areas)),
        window_size(ModeView::TestResult { alias: name, status }) matches Some(size) && size.1
            >= rows_needed(mode_window(ModeView::TestResult { alias: name, status }, areas)),
        window_size(ModeView::TabHelp) matches Some(size) && size.1 >= rows_needed(
            mode_window(ModeView::TabHelp, areas),
        ),
        window_size(ModeView::AddingGroup(input)) matches Some(size) && size.1
            == mode_window(ModeView::AddingGroup(input), areas)[2]->Text_lines.len() + 2,
        window_size(ModeView::EditingGroup { original_name: name, input }) == window_size(
            ModeView::AddingGroup(input),
        ),
        window_size(ModeView::Normal) is None,
        window_size(ModeView::Searching) is None,
{
}

/// Whether a row has a height of its own.
pub open spec fn is_row(part: crate::scene::Constraint) -> bool {
    part == crate::scene::Constraint::Length(1)
}

/// A form has one row for each field and room for all of them, and the list of options one
/// row for each of up to twelve options. An error has its own row.
pub proof fn lemma_forms_have_room(form: FormView, editor: EditorView, i: int)
    requires
        form.wf(),
        form.extras.len() <= 12,
    ensures
        0 <= i < 7 ==> is_row(form_parts(form)[i]),
        form_parts(form).len() == 7 + (if form.error is Some {
            1int
        } else {
            0
        }),
        window_size(ModeView::Adding(form)) matches Some(size) && size.1 >= 7 + 2 + 2,
        window_size(ModeView::Editing { original_alias: seq![], form }) == window_size(
            ModeView::Adding(form),
        ),
        editor.entry is None && form.extras.len() > 0 ==> {
            &&& extras_parts(form, editor).len() == form.extras.len() + (if editor.error is Some {
                1int
            } else {
                0
            })
            &&& 0 <= i < form.extras.len() ==> is_row(extras_parts(form, editor)[i])
            &&& extras_height(form, editor) >= extras_parts(form, editor).len() + 2
        },
        editor.entry is Some ==> {
            &&& extras_parts(form, editor).len() == 2 + (if editor.error is Some {
                1int
            } else {
                0
            })
            &&& extras_height(form, editor) >= extras_parts(form, editor).len() + 2
        },
{
}

/// The file browser has a window while it asks for something, with room for its lines.
pub proof fn lemma_prompts_have_room(browser: BrowserView, area: Rect)
    requires
        browser.mode matches BrowserModeView::ConfirmTransfer { file, direction } ==> text_lines(
            transfer_question(file, direction),
        ).len() < 65531,
        browser.mode matches BrowserModeView::ConfirmDelete { name, is_dir } ==> text_lines(
            delete_question(name, is_dir),
        ).len() < 65531,
    ensures
        prompt_size(browser.mode) is Some <==> browser_window(browser, area).len() > 0,
        prompt_size(browser.mode) matches Some(size) ==> size.1 >= 3,
        browser.mode is ConfirmTransfer || browser.mode is ConfirmDelete ==> (prompt_size(
            browser.mode,
        ) matches Some(size) && size.1 == rows_needed(browser_window(browser, area))),
{
}

} // verus!
