//! The file browser on the screen.
use vstd::prelude::*;
use vstd::utf8::encode_utf8;
use crate::filebrowser::{
    first_active, shown_progress, BrowserModeView, BrowserView, FileBrowser, FileBrowserMode,
    FileBrowserPane,
};
use crate::panes::{render_search, search_bar};
use crate::scene::{
    append_draws, bold, bold_style, centered, centered_line, display_width, draw_views, fg,
    fg_style, hint_line, hint_texts, hints, line_of2, line_of3, line_of4, line_views, mark,
    mark_style, plain, plain_line, plain_style, push_draw, raw, raw_span, repeat, repeated, space,
    spaced, span_views, split_lines, styled, styled_span, text_at, text_lines, title, title_line,
    width_of, write_at, Align, Block, BlockView, Border, Color, Draw, DrawView, Line, LineView,
    Rect, Span, SpanView, Style,
};
use crate::sftp::{EntryView, FileEntry, SftpConnectionStatus, StatusView};
use crate::sizes::{format_size, size_text};
use crate::text::{concat, concat3, decimal, decimal_string, trim, trimmed};
use crate::transfer::{ProgressView, TransferProgress, TransferStatus, TransferStatusView};

verus! {

// ---------------------------------------------------------------------------
// Entries
// ---------------------------------------------------------------------------

/// The name of an entry, marked by what it is.
pub open spec fn entry_name(entry: EntryView) -> SpanView {
    if entry.is_dir {
        styled_span(
            entry.name + "/"@ + if entry.is_symlink() {
                " @"@
            } else {
                ""@
            },
            fg_style(Color::Yellow),
        )
    } else if entry.is_symlink() {
        styled_span(entry.name + " @"@, fg_style(Color::Magenta))
    } else {
        raw_span(entry.name)
    }
}

/// What stands at the right of an entry: its permissions and its size, as far as
/// there are any.
pub open spec fn entry_facts(entry: EntryView) -> Seq<char> {
    match entry.permissions_string() {
        Some(permissions) => if entry.is_dir {
            permissions
        } else {
            permissions + "  "@ + size_text(entry.size)
        },
        None => if entry.is_dir {
            ""@
        } else {
            size_text(entry.size)
        },
    }
}

/// How many spaces stand between a name and what is at the right, in so many
/// columns.
pub open spec fn gap(columns: u16, name: int, facts: int) -> nat {
    if columns > name + facts + 2 {
        (columns - name - facts - 1) as nat
    } else {
        1
    }
}

/// The style of an entry.
pub open spec fn entry_style(selected: bool, focused: bool) -> Style {
    if !selected {
        plain_style()
    } else if focused {
        mark_style(Color::Cyan)
    } else {
        Style { fg: Some(Color::Black), bg: Some(Color::White), bold: false }
    }
}

/// The line of an entry, in so many columns.
pub open spec fn entry_line(entry: EntryView, columns: u16, style: Style) -> LineView {
    let name = entry_name(entry);
    let facts = entry_facts(entry);
    LineView {
        spans: seq![
            raw_span(" "@),
            name,
            raw_span(
                repeated(' ', gap(columns, display_width(name.text) as int, facts.len() as int)),
            ),
            styled_span(facts, fg_style(Color::DarkGray)),
        ],
        style,
        align: Align::Left,
    }
}

/// The keys of a pane.
pub open spec fn file_keys() -> Seq<(Seq<char>, Seq<char>)> {
    seq![
        (" j/k "@, "Nav"@),
        (" y "@, "Copy"@),
        (" d "@, "Del"@),
        (" m "@, "Mkdir"@),
        (" / "@, "Search"@),
        (" . "@, "Hidden"@),
        (" s "@, "Sort "@),
    ]
}

/// A pane with the entries of a directory.
pub open spec fn file_pane(
    title: Seq<char>,
    entries: Seq<EntryView>,
    selected: int,
    focused: bool,
    area: Rect,
) -> DrawView {
    DrawView::List {
        area,
        items: Seq::new(
            entries.len(),
            |i: int|
                entry_line(entries[i], area.inside().width, entry_style(i == selected, focused)),
        ),
        selected,
        block: BlockView {
            title: title_line(spaced(title), Align::Left),
            bottom: Some(
                hint_line(
                    if focused {
                        file_keys()
                    } else {
                        seq![]
                    },
                ),
            ),
            border: Border::Thick,
            border_style: fg_style(
                if focused {
                    Color::Cyan
                } else {
                    Color::DarkGray
                },
            ),
        },
    }
}

fn name_of_entry(entry: &FileEntry) -> (span: Span)
    ensures
        span@ == entry_name(entry@),
{
    if entry.is_dir {
        let name = if entry.is_symlink() {
            concat3(entry.name.as_str(), "/", " @")
        } else {
            concat3(entry.name.as_str(), "/", "")
        };
        styled(name.as_str(), fg(Color::Yellow))
    } else if entry.is_symlink() {
        let name = concat(entry.name.as_str(), " @");
        styled(name.as_str(), fg(Color::Magenta))
    } else {
        raw(entry.name.as_str())
    }
}

fn facts_of_entry(entry: &FileEntry) -> (facts: String)
    ensures
        facts@ == entry_facts(entry@),
{
    match entry.permissions_string() {
        Some(permissions) => if entry.is_dir {
            permissions
        } else {
            let size = format_size(entry.size);
            concat3(permissions.as_str(), "  ", size.as_str())
        },
        None => if entry.is_dir {
            "".to_string()
        } else {
            format_size(entry.size)
        },
    }
}

/// Draws the line of an entry.
pub fn line_of_entry(entry: &FileEntry, columns: u16, style: Style) -> (l: Line)
    ensures
        l@ == entry_line(entry@, columns, style),
{
    let name = name_of_entry(entry);
    let facts = facts_of_entry(entry);
    let taken: usize = width_of(name.text.as_str()).saturating_add(
        facts.as_str().unicode_len(),
    ).saturating_add(2);
    let room: usize = columns as usize;
    let spaces: usize = if room > taken {
        room - taken + 1
    } else {
        1
    };
    let between = repeat(' ', spaces);
    let spans = vec![
        raw(" "),
        name,
        raw(between.as_str()),
        styled(facts.as_str(), fg(Color::DarkGray)),
    ];
    let l = Line { spans, style, align: Align::Left };
    assert(l@ =~= entry_line(entry@, columns, style));
    l
}

/// Draws a pane with the entries of a directory.
pub fn render_file_pane(
    label: &str,
    entries: &Vec<&FileEntry>,
    selected: usize,
    focused: bool,
    area: Rect,
) -> (draw: Draw)
    ensures
        draw@ == file_pane(
            label@,
            entries@.map_values(|e: &FileEntry| e@),
            selected as int,
            focused,
            area,
        ),
{
    let ghost views = entries@.map_values(|e: &FileEntry| e@);
    let columns = area.inner().width;
    let mut items: Vec<Line> = Vec::new();
    for i in 0..entries.len()
        invariant
            views == entries@.map_values(|e: &FileEntry| e@),
            columns == area.inside().width,
            items@.len() == i,
            forall|k: int|
                0 <= k < i ==> (#[trigger] items@[k])@ == entry_line(
                    views[k],
                    columns,
                    entry_style(k == selected, focused),
                ),
    {
        let style = if i != selected {
            plain()
        } else if focused {
            mark(Color::Cyan)
        } else {
            Style { fg: Some(Color::Black), bg: Some(Color::White), bold: false }
        };
        assert(views[i as int] == entries@[i as int]@);
        items.push(line_of_entry(entries[i], columns, style));
    }
    let keys = vec![
        (" j/k ", "Nav"),
        (" y ", "Copy"),
        (" d ", "Del"),
        (" m ", "Mkdir"),
        (" / ", "Search"),
        (" . ", "Hidden"),
        (" s ", "Sort "),
    ];
    assert(hint_texts(keys@) =~= file_keys());
    let none: Vec<(&str, &str)> = Vec::new();
    assert(hint_texts(none@) =~= seq![]);
    let spaced_label = space(label);
    let block = Block {
        title: title(spaced_label.as_str(), Align::Left),
        bottom: Some(
            if focused {
                hints(keys)
            } else {
                hints(none)
            },
        ),
        border: Border::Thick,
        border_style: if focused {
            fg(Color::Cyan)
        } else {
            fg(Color::DarkGray)
        },
    };
    let draw = Draw::List { area, items, selected, block };
    assert(draw@ =~= file_pane(label@, views, selected as int, focused, area));
    draw
}

/// The title of a pane: its directory, and what is searched for in it.
pub open spec fn pane_title(label: Seq<char>, path: Seq<char>, search: Seq<char>) -> Seq<char> {
    if trim(search).len() == 0 {
        label + ": "@ + path
    } else {
        label + ": "@ + path + "  /"@ + trim(search)
    }
}

/// Writes down the title of a pane.
pub fn file_pane_title(label: &str, path: &str, search: &str) -> (title: String)
    ensures
        title@ == pane_title(label@, path@, search@),
{
    let query = trimmed(search);
    let start = concat3(label, ": ", path);
    if query.as_str().is_empty() {
        start
    } else {
        concat3(start.as_str(), "  /", query.as_str())
    }
}

// ---------------------------------------------------------------------------
// Messages
// ---------------------------------------------------------------------------

/// The lines of a message, centred.
pub open spec fn message_lines(message: Seq<char>, color: Color) -> Seq<LineView> {
    text_lines(message).map_values(
        |l: Seq<char>| centered_line(seq![styled_span(l, fg_style(color))]),
    )
}

/// Where so many lines stand in the middle of an area.
pub open spec fn middle_rows(inner: Rect, count: u16) -> Rect {
    let above = if count < inner.height {
        (inner.height - count) / 2
    } else {
        0
    };
    Rect {
        x: inner.x,
        y: (if inner.y + above > u16::MAX {
            u16::MAX as int
        } else {
            inner.y + above
        }) as u16,
        width: inner.width,
        height: if count < inner.height {
            count
        } else {
            inner.height
        },
    }
}

/// A pane with a message in place of entries.
pub open spec fn message_pane(title: Seq<char>, message: Seq<char>, color: Color, area: Rect) -> Seq<
    DrawView,
> {
    let lines = message_lines(message, color);
    seq![
        DrawView::Panel {
            area,
            block: BlockView {
                title: title_line(spaced(title), Align::Left),
                bottom: None,
                border: Border::Thick,
                border_style: fg_style(Color::DarkGray),
            },
        },
    ] + if area.inside().height > 0 {
        seq![
            DrawView::Text {
                area: middle_rows(area.inside(), lines.len() as u16),
                lines,
                border: None,
            },
        ]
    } else {
        seq![]
    }
}

fn middle_of(inner: Rect, count: u16) -> (rows: Rect)
    ensures
        rows == middle_rows(inner, count),
{
    let above: u16 = inner.height.saturating_sub(count) / 2;
    Rect {
        x: inner.x,
        y: inner.y.saturating_add(above),
        width: inner.width,
        height: if count < inner.height {
            count
        } else {
            inner.height
        },
    }
}

/// Draws a pane with a message in place of entries.
pub fn render_file_pane_message(label: &str, message: &str, color: Color, area: Rect) -> (draws: Vec<
    Draw,
>)
    ensures
        draw_views(draws@) == message_pane(label@, message@, color, area),
{
    let spaced_label = space(label);
    let block = Block {
        title: title(spaced_label.as_str(), Align::Left),
        bottom: None,
        border: Border::Thick,
        border_style: fg(Color::DarkGray),
    };
    let mut draws: Vec<Draw> = Vec::new();
    push_draw(&mut draws, Draw::Panel { area, block });
    let texts = split_lines(message);
    let ghost views = text_lines(message@);
    let mut lines: Vec<Line> = Vec::new();
    assert(views.len() == texts@.len());
    for i in 0..texts.len()
        invariant
            views == text_lines(message@),
            views == texts@.map_values(|s: String| s@),
            lines@.len() == i,
            forall|k: int|
                0 <= k < i ==> (#[trigger] lines@[k])@ == centered_line(
                    seq![styled_span(views[k], fg_style(color))],
                ),
    {
        let spans = vec![styled(texts[i].as_str(), fg(color))];
        assert(views[i as int] == texts@[i as int]@);
        assert(span_views(spans@) =~= seq![styled_span(views[i as int], fg_style(color))]);
        lines.push(centered(spans));
    }
    assert(line_views(lines@) =~= message_lines(message@, color));
    let inner = area.inner();
    let count: u16 = lines.len() as u16;
    if inner.height > 0 {
        push_draw(&mut draws, Draw::Text { area: middle_of(inner, count), lines, border: None });
    }
    assert(draw_views(draws@) =~= message_pane(label@, message@, color, area));
    draws
}

// ---------------------------------------------------------------------------
// Progress
// ---------------------------------------------------------------------------

/// How many bytes a text takes up.
pub open spec fn byte_len(text: Seq<char>) -> usize {
    encode_utf8(text).len() as usize
}

/// What stands before the bar of a transfer.
pub open spec fn progress_start(progress: ProgressView, percent: u16) -> Seq<char> {
    " >> "@ + progress.label + " "@ + progress.file_name + "  "@ + decimal(percent as nat) + "% "@
}

/// What stands behind the bar of a transfer.
pub open spec fn progress_end(progress: ProgressView) -> Seq<char> {
    "  "@ + size_text(progress.bytes_transferred) + "/"@ + size_text(progress.total_bytes) + " "@
}

/// How wide the bar of a transfer is.
pub open spec fn bar_width(columns: u16, start: Seq<char>, end: Seq<char>) -> int {
    let rest = columns - (byte_len(start) + byte_len(end));
    if rest > 4 {
        rest
    } else {
        4
    }
}

/// How much of a bar is filled.
pub open spec fn bar_filled(width: int, progress: ProgressView) -> int {
    if progress.total_bytes == 0 {
        0
    } else {
        let filled = (width * progress.bytes_transferred) / (progress.total_bytes as int);
        if filled > usize::MAX {
            usize::MAX as int
        } else {
            filled
        }
    }
}

/// The colour of a transfer's bar.
pub open spec fn bar_color(status: TransferStatusView) -> Color {
    match status {
        TransferStatusView::InProgress => Color::Cyan,
        TransferStatusView::Completed => Color::Green,
        TransferStatusView::Failed(_) => Color::Red,
        TransferStatusView::Cancelled => Color::Yellow,
    }
}

/// The line of a transfer. `percent` is how much of it is done.
pub open spec fn progress_line(progress: ProgressView, percent: u16, columns: u16) -> LineView {
    let start = progress_start(progress, percent);
    let end = progress_end(progress);
    let width = bar_width(columns, start, end);
    let filled = bar_filled(width, progress);
    plain_line(
        seq![
            styled_span(start, bold_style(Color::Cyan)),
            styled_span(
                repeated('\u{2588}', filled as nat),
                fg_style(bar_color(progress.status)),
            ),
            styled_span(
                repeated(
                    '\u{2591}',
                    (if filled < width {
                        width - filled
                    } else {
                        0
                    }) as nat,
                ),
                fg_style(Color::DarkGray),
            ),
            styled_span(end, fg_style(Color::DarkGray)),
        ],
    )
}

fn filled_of(width: usize, progress: &TransferProgress) -> (filled: usize)
    requires
        width <= 65535,
    ensures
        filled == bar_filled(width as int, progress@),
{
    if progress.total_bytes == 0 {
        0
    } else {
        let done: u64 = progress.bytes_transferred;
        assert(width * done <= 65535 * 18446744073709551615) by (nonlinear_arith)
            requires
                0 <= width <= 65535,
                0 <= done <= 18446744073709551615,
        ;
        let filled: u128 = width as u128 * done as u128 / progress.total_bytes as u128;
        if filled > usize::MAX as u128 {
            usize::MAX
        } else {
            filled as usize
        }
    }
}

/// A transfer under way never fills more than its bar.
pub proof fn lemma_bar_holds_progress(width: int, progress: ProgressView)
    requires
        0 <= width <= usize::MAX,
        progress.bytes_transferred <= progress.total_bytes,
    ensures
        0 <= bar_filled(width, progress) <= width,
        progress.bytes_transferred == progress.total_bytes && progress.total_bytes > 0
            ==> bar_filled(width, progress) == width,
{
    let (n, d) = (progress.bytes_transferred as int, progress.total_bytes as int);
    if d > 0 {
        assert(0 <= width * n <= width * d) by (nonlinear_arith)
            requires
                0 <= width,
                0 <= n <= d,
        ;
        assert(0 <= (width * n) / d <= width) by (nonlinear_arith)
            requires
                0 <= width * n <= width * d,
                d > 0,
        ;
        assert((width * d) / d == width) by (nonlinear_arith)
            requires
                d > 0,
        ;
    }
}

/// Draws the line of a transfer.
pub fn render_transfer_progress(progress: &TransferProgress, percent: u16, area: Rect) -> (draw: Draw)
    ensures
        draw@ == text_at(area, progress_line(progress@, percent, area.width)),
{
    let digits = decimal_string(percent as u64);
    let start = concat3(" >> ", progress.label.as_str(), " ");
    let start = concat3(start.as_str(), progress.file_name.as_str(), "  ");
    let start = concat3(start.as_str(), digits.as_str(), "% ");
    let done = format_size(progress.bytes_transferred);
    let total = format_size(progress.total_bytes);
    let end = concat3("  ", done.as_str(), "/");
    let end = concat3(end.as_str(), total.as_str(), " ");
    assert(start@ == progress_start(progress@, percent));
    assert(end@ == progress_end(progress@));
    let used: usize = start.as_str().len().saturating_add(end.as_str().len());
    let rest: usize = (area.width as usize).saturating_sub(used);
    let width: usize = if rest > 4 {
        rest
    } else {
        4
    };
    assert(width as int == bar_width(area.width, start@, end@));
    let filled = filled_of(width, progress);
    let color = match progress.status {
        TransferStatus::InProgress => Color::Cyan,
        TransferStatus::Completed => Color::Green,
        TransferStatus::Failed(_) => Color::Red,
        TransferStatus::Cancelled => Color::Yellow,
    };
    let full = repeat('\u{2588}', filled);
    let empty = repeat('\u{2591}', width.saturating_sub(filled));
    let line = line_of4(
        styled(start.as_str(), bold(Color::Cyan)),
        styled(full.as_str(), fg(color)),
        styled(empty.as_str(), fg(Color::DarkGray)),
        styled(end.as_str(), fg(Color::DarkGray)),
    );
    write_at(area, line)
}

// ---------------------------------------------------------------------------
// Status
// ---------------------------------------------------------------------------

/// The line that tells an error.
pub open spec fn error_line(message: Seq<char>) -> LineView {
    plain_line(
        seq![
            styled_span(" Error: "@, bold_style(Color::Red)),
            styled_span(message, fg_style(Color::Red)),
        ],
    )
}

/// The line at the bottom of the browser: an error, or else how the entries are
/// shown.
pub open spec fn status_line(browser: BrowserView) -> LineView {
    match (browser.mode, browser.error) {
        (BrowserModeView::TransferError(message), _) => error_line(message),
        (_, Some(message)) => error_line(message),
        (_, None) => plain_line(
            seq![
                styled_span(
                    " Sort: "@ + browser.sort_by.label_text() + if browser.sort_ascending {
                        "↑"@
                    } else {
                        "↓"@
                    },
                    fg_style(Color::DarkGray),
                ),
                styled_span(
                    "  Hidden: "@ + if browser.show_hidden {
                        "on"@
                    } else {
                        "off"@
                    },
                    fg_style(Color::DarkGray),
                ),
                styled_span("  Tab: switch pane  Esc: close"@, fg_style(Color::DarkGray)),
            ],
        ),
    }
}

fn line_of_error(message: &str) -> (l: Line)
    ensures
        l@ == error_line(message@),
{
    line_of2(styled(" Error: ", bold(Color::Red)), styled(message, fg(Color::Red)))
}

/// Draws the line at the bottom of the browser.
pub fn render_file_transfer_status(browser: &FileBrowser, area: Rect) -> (draw: Draw)
    ensures
        draw@ == text_at(area, status_line(browser@)),
{
    if let FileBrowserMode::TransferError(message) = &browser.mode {
        return write_at(area, line_of_error(message.as_str()));
    }
    match &browser.error {
        Some(message) => write_at(area, line_of_error(message.as_str())),
        None => {
            let arrow = if browser.sort_ascending {
                "↑"
            } else {
                "↓"
            };
            let sort = concat3(" Sort: ", browser.sort_by.label(), arrow);
            let hidden = concat(
                "  Hidden: ",
                if browser.show_hidden {
                    "on"
                } else {
                    "off"
                },
            );
            let line = line_of3(
                styled(sort.as_str(), fg(Color::DarkGray)),
                styled(hidden.as_str(), fg(Color::DarkGray)),
                styled("  Tab: switch pane  Esc: close", fg(Color::DarkGray)),
            );
            write_at(area, line)
        },
    }
}

// ---------------------------------------------------------------------------
// The view
// ---------------------------------------------------------------------------

/// The pane whose search is shown.
pub open spec fn search_pane(browser: BrowserView) -> FileBrowserPane {
    match browser.mode {
        BrowserModeView::Searching(pane) => pane,
        _ => browser.focus,
    }
}

/// Whether the browser shows a search.
pub open spec fn shows_file_search(browser: BrowserView) -> bool {
    browser.mode is Searching || browser.search(browser.focus).text.len() > 0
}

/// The search of the browser.
pub open spec fn file_search_bar(browser: BrowserView, area: Rect) -> Seq<DrawView> {
    let pane = search_pane(browser);
    search_bar(
        browser.search(pane),
        match pane {
            FileBrowserPane::Local => "Local / "@,
            FileBrowserPane::Remote => "Remote / "@,
        },
        match pane {
            FileBrowserPane::Local => 8,
            FileBrowserPane::Remote => 9,
        },
        browser.mode is Searching,
        area,
    )
}

/// Draws the search of the browser.
pub fn render_file_search_bar(browser: &FileBrowser, area: Rect) -> (draws: Vec<Draw>)
    ensures
        draw_views(draws@) == file_search_bar(browser@, area),
{
    let (pane, active) = match browser.mode {
        FileBrowserMode::Searching(pane) => (pane, true),
        _ => (browser.focus, false),
    };
    match pane {
        FileBrowserPane::Local => render_search(&browser.local_search, "Local / ", 8, active, area),
        FileBrowserPane::Remote => {
            render_search(&browser.remote_search, "Remote / ", 9, active, area)
        },
    }
}

/// Whether the browser shows how far a transfer has come.
pub open spec fn shows_progress(browser: BrowserView) -> bool {
    first_active(browser.transfers) is Some || (shown_progress(browser.transfers) matches Some(p)
        && !(p.status is InProgress))
}

/// Whether the browser shows how far a transfer has come.
pub fn progress_shown(browser: &FileBrowser) -> (shown: bool)
    ensures
        shown == shows_progress(browser@),
{
    browser.has_active_transfer() || match browser.active_transfer_progress() {
        Some(progress) => !matches!(progress.status, TransferStatus::InProgress),
        None => false,
    }
}

/// Whether the browser shows a search.
pub fn file_search_shown(browser: &FileBrowser) -> (shown: bool)
    ensures
        shown == shows_file_search(browser@),
{
    matches!(browser.mode, FileBrowserMode::Searching(_)) || !browser.focused_search().value().is_empty()
}

/// The areas of the browser's parts.
#[derive(Debug, Clone, Copy, PartialEq, Eq, Structural)]
pub struct FileAreas {
    pub local: Rect,
    pub remote: Rect,
    pub progress: Rect,
    pub search: Rect,
    pub status: Rect,
}

/// The remote pane: its entries, or how the connection stands.
pub open spec fn remote_pane(browser: BrowserView, area: Rect) -> Seq<DrawView> {
    match browser.connection_status {
        StatusView::Connecting => message_pane(
            "Remote"@,
            "Connecting..."@,
            Color::Yellow,
            area,
        ),
        StatusView::NeedsPassword => message_pane(
            "Remote"@,
            "Password required..."@,
            Color::Yellow,
            area,
        ),
        StatusView::Failed(message) => message_pane(
            "Remote"@,
            message + "\n\nPress R to reconnect"@,
            Color::Red,
            area,
        ),
        _ => seq![
            file_pane(
                pane_title("Remote"@, browser.remote_path, browser.remote_search.text),
                browser.visible(FileBrowserPane::Remote),
                browser.remote_selected,
                browser.focus is Remote,
                area,
            ),
        ],
    }
}

/// The browser. `percent` is how much of the transfer that is shown is done.
pub open spec fn files_view(browser: BrowserView, percent: u16, areas: FileAreas) -> Seq<DrawView> {
    seq![
        file_pane(
            pane_title("Local"@, browser.local_path, browser.local_search.text),
            browser.visible(FileBrowserPane::Local),
            browser.local_selected,
            browser.focus is Local,
            areas.local,
        ),
    ] + remote_pane(browser, areas.remote) + (match shown_progress(browser.transfers) {
        Some(progress) => seq![
            text_at(
                areas.progress,
                progress_line(progress, percent, areas.progress.width),
            ),
        ],
        None => seq![],
    }) + (if shows_file_search(browser) {
        file_search_bar(browser, areas.search)
    } else {
        seq![]
    }) + seq![text_at(areas.status, status_line(browser))]
}

/// Draws the remote pane.
pub fn render_remote_pane(browser: &FileBrowser, area: Rect) -> (draws: Vec<Draw>)
    ensures
        draw_views(draws@) == remote_pane(browser@, area),
{
    match &browser.connection_status {
        SftpConnectionStatus::Connecting => {
            render_file_pane_message("Remote", "Connecting...", Color::Yellow, area)
        },
        SftpConnectionStatus::NeedsPassword => {
            render_file_pane_message("Remote", "Password required...", Color::Yellow, area)
        },
        SftpConnectionStatus::Failed(message) => {
            let told = concat(message.as_str(), "\n\nPress R to reconnect");
            render_file_pane_message("Remote", told.as_str(), Color::Red, area)
        },
        _ => {
            let label = file_pane_title(
                "Remote",
                browser.remote_path.as_str(),
                browser.remote_search.value(),
            );
            let entries = browser.visible_remote_entries();
            let mut draws: Vec<Draw> = Vec::new();
            push_draw(
                &mut draws,
                render_file_pane(
                    label.as_str(),
                    &entries,
                    browser.remote_selected,
                    browser.focus == FileBrowserPane::Remote,
                    area,
                ),
            );
            assert(draw_views(draws@) =~= remote_pane(browser@, area));
            draws
        },
    }
}

/// Draws the browser.
pub fn render_file_transfer_view(browser: &FileBrowser, percent: u16, areas: FileAreas) -> (draws: Vec<
    Draw,
>)
    ensures
        draw_views(draws@) == files_view(browser@, percent, areas),
{
    let label = file_pane_title(
        "Local",
        browser.local_path.as_str(),
        browser.local_search.value(),
    );
    let entries = browser.visible_local_entries();
    let mut draws: Vec<Draw> = Vec::new();
    push_draw(
        &mut draws,
        render_file_pane(
            label.as_str(),
            &entries,
            browser.local_selected,
            browser.focus == FileBrowserPane::Local,
            areas.local,
        ),
    );
    let ghost first = draw_views(draws@);
    assert(first =~= seq![first[0]]);
    append_draws(&mut draws, render_remote_pane(browser, areas.remote));
    let ghost panes = draw_views(draws@);
    if let Some(progress) = browser.active_transfer_progress() {
        push_draw(&mut draws, render_transfer_progress(progress, percent, areas.progress));
    }
    let ghost with_progress = draw_views(draws@);
    assert(with_progress =~= panes + (match shown_progress(browser@.transfers) {
        Some(progress) => seq![
            text_at(
                areas.progress,
                progress_line(progress, percent, areas.progress.width),
            ),
        ],
        None => seq![],
    }));
    if file_search_shown(browser) {
        append_draws(&mut draws, render_file_search_bar(browser, areas.search));
    }
    let ghost with_search = draw_views(draws@);
    assert(with_search =~= with_progress + (if shows_file_search(browser@) {
        file_search_bar(browser@, areas.search)
    } else {
        seq![]
    }));
    push_draw(&mut draws, render_file_transfer_status(browser, areas.status));
    assert(draw_views(draws@) =~= with_search + seq![text_at(areas.status, status_line(browser@))]);
    draws
}

} // verus!
