//! The host browser, the sessions, and the bar of tabs on the screen.
use vstd::prelude::*;
use crate::app::{browser_views, App, AppView, Mode};
use crate::input::{input_view, InputView};
use crate::listing::{GroupEntry, GroupEntryView, ItemView, ListItem};
use crate::model::{opt_text, pair_texts, Host, HostView};
use crate::pty::{session_views, Session, SessionStatus, SessionView};
use crate::scene::{
    append_draws, bold, bold_style, cursor_at, display_width, draw_views, fg, fg_style, hint_line,
    hint_texts, hints, line_of, line_of2, line_of3, line_views, mark, mark_style, marked,
    marked_line, pad_left, padded, plain, plain_line, plain_style, push_cursor, push_draw,
    push_line, push_span, raw, raw_span, repeat, repeated, space, spaced, span_views, styled,
    styled_span, text_at, thick, thick_block, title, title_line, width_of, wrap_text, write_at,
    wrapped_lines, line, Align, Block, BlockView, Border, Color, Draw, DrawView, Line, LineView,
    Rect, Span, SpanView, Style,
};
use crate::screen;
use crate::screen::{Pane, PrefixState, ScreenPos, Selection};
use crate::text::{concat, concat3, decimal, decimal_string};
use tui_input::Input;

verus! {

/// The border of a pane, with its keys while it has keyboard focus.
pub open spec fn pane_block(
    title: Seq<char>,
    focused: bool,
    keys: Seq<(Seq<char>, Seq<char>)>,
) -> BlockView {
    thick_block(
        spaced(title),
        Some(
            hint_line(
                if focused {
                    keys
                } else {
                    seq![]
                },
            ),
        ),
        fg_style(
            if focused {
                Color::Cyan
            } else {
                Color::DarkGray
            },
        ),
    )
}

/// The border of a pane.
pub fn pane_border(title: &str, focused: bool, keys: Vec<(&str, &str)>) -> (block: Block)
    ensures
        block@ == pane_block(title@, focused, hint_texts(keys@)),
{
    let label = space(title);
    let none: Vec<(&str, &str)> = Vec::new();
    assert(hint_texts(none@) =~= seq![]);
    if focused {
        thick(label.as_str(), Some(hints(keys)), fg(Color::Cyan))
    } else {
        thick(label.as_str(), Some(hints(none)), fg(Color::DarkGray))
    }
}

/// The style of a row.
pub open spec fn row_style(selected: bool, focused: bool) -> Style {
    if !selected {
        plain_style()
    } else if focused {
        mark_style(Color::Cyan)
    } else {
        mark_style(Color::White)
    }
}

fn style_of_row(selected: bool, focused: bool) -> (style: Style)
    ensures
        style == row_style(selected, focused),
{
    if !selected {
        plain()
    } else if focused {
        mark(Color::Cyan)
    } else {
        mark(Color::White)
    }
}

// ---------------------------------------------------------------------------
// Groups
// ---------------------------------------------------------------------------

/// The name under which an entry of the group pane is shown.
pub open spec fn group_label(entry: GroupEntryView) -> Seq<char> {
    match entry {
        GroupEntryView::All => "all"@,
        GroupEntryView::Named(name) => name,
        GroupEntryView::Ungrouped => "ungrouped"@,
    }
}

/// The keys of the group pane.
pub open spec fn group_keys() -> Seq<(Seq<char>, Seq<char>)> {
    seq![(" g "@, "New"@), (" e "@, "Rename"@), (" d "@, "Del "@)]
}

/// The group pane.
pub open spec fn groups_pane(app: AppView, area: Rect) -> DrawView {
    let focused = app.focus is Groups;
    DrawView::List {
        area,
        items: Seq::new(
            app.group_entries.len(),
            |i: int|
                marked_line(
                    " "@ + group_label(app.group_entries[i]),
                    row_style(i == app.group_selected, focused),
                ),
        ),
        selected: app.group_selected,
        block: pane_block("Groups"@, focused, group_keys()),
    }
}

/// Draws the group pane.
pub fn render_groups_pane(app: &App, area: Rect) -> (draw: Draw)
    ensures
        draw@ == groups_pane(app@, area),
{
    let focused = app.focus() == Pane::Groups;
    let entries = app.group_entries();
    let selected = app.selected_group_row();
    let mut items: Vec<Line> = Vec::new();
    for i in 0..entries.len()
        invariant
            focused == (app@.focus is Groups),
            crate::listing::group_entry_views(entries@) == app@.group_entries,
            selected == app@.group_selected,
            items@.len() == i,
            forall|k: int|
                0 <= k < i ==> (#[trigger] items@[k])@ == marked_line(
                    " "@ + group_label(app@.group_entries[k]),
                    row_style(k == app@.group_selected, focused),
                ),
    {
        assert(app@.group_entries[i as int] == entries@[i as int]@);
        let label = match &entries[i] {
            GroupEntry::All => concat(" ", "all"),
            GroupEntry::Named(name) => concat(" ", name.as_str()),
            GroupEntry::Ungrouped => concat(" ", "ungrouped"),
        };
        items.push(marked(label.as_str(), style_of_row(i == selected, focused)));
    }
    let keys = vec![(" g ", "New"), (" e ", "Rename"), (" d ", "Del ")];
    assert(hint_texts(keys@) =~= group_keys());
    let block = pane_border("Groups", focused, keys);
    let draw = Draw::List { area, items, selected, block };
    assert(draw@ =~= groups_pane(app@, area));
    draw
}

// ---------------------------------------------------------------------------
// Hosts
// ---------------------------------------------------------------------------

/// The row of an item of the host pane.
pub open spec fn host_row(item: ItemView, selected: bool, focused: bool) -> LineView {
    match item {
        ItemView::GroupHeader(name) => marked_line(" ▸ "@ + name, bold_style(Color::Yellow)),
        ItemView::Host(alias) => marked_line("   "@ + alias, row_style(selected, focused)),
    }
}

/// The keys of the host pane.
pub open spec fn host_keys() -> Seq<(Seq<char>, Seq<char>)> {
    seq![
        (" Enter "@, "Connect"@),
        (" t "@, "Test"@),
        (" a "@, "Add"@),
        (" e "@, "Edit"@),
        (" c "@, "Clone"@),
        (" d "@, "Del"@),
        (" f "@, "Files "@),
    ]
}

/// The host pane.
pub open spec fn hosts_pane(app: AppView, area: Rect) -> DrawView {
    let focused = app.focus is Hosts;
    DrawView::List {
        area,
        items: Seq::new(
            app.items.len(),
            |i: int| host_row(app.items[i], i == app.selected, focused),
        ),
        selected: app.selected,
        block: pane_block("Hosts"@, focused, host_keys()),
    }
}

/// Draws the host pane.
pub fn render_host_list(app: &App, area: Rect) -> (draw: Draw)
    ensures
        draw@ == hosts_pane(app@, area),
{
    let focused = app.focus() == Pane::Hosts;
    let rows = app.items();
    let selected = app.selected_row();
    let mut items: Vec<Line> = Vec::new();
    for i in 0..rows.len()
        invariant
            crate::listing::item_views(rows@) == app@.items,
            selected == app@.selected,
            items@.len() == i,
            forall|k: int|
                0 <= k < i ==> (#[trigger] items@[k])@ == host_row(
                    app@.items[k],
                    k == app@.selected,
                    focused,
                ),
    {
        assert(app@.items[i as int] == rows@[i as int]@);
        let row = match &rows[i] {
            ListItem::GroupHeader(name) => {
                let label = concat(" ▸ ", name.as_str());
                marked(label.as_str(), bold(Color::Yellow))
            },
            ListItem::Host(alias) => {
                let label = concat("   ", alias.as_str());
                marked(label.as_str(), style_of_row(i == selected, focused))
            },
        };
        items.push(row);
    }
    let keys = vec![
        (" Enter ", "Connect"),
        (" t ", "Test"),
        (" a ", "Add"),
        (" e ", "Edit"),
        (" c ", "Clone"),
        (" d ", "Del"),
        (" f ", "Files "),
    ];
    assert(hint_texts(keys@) =~= host_keys());
    let block = pane_border("Hosts", focused, keys);
    let draw = Draw::List { area, items, selected, block };
    assert(draw@ =~= hosts_pane(app@, area));
    draw
}

// ---------------------------------------------------------------------------
// Details
// ---------------------------------------------------------------------------

/// A line of the details: what it tells, and what that is.
pub open spec fn detail_line(key: Seq<char>, value: Seq<char>) -> LineView {
    plain_line(
        seq![styled_span(padded(key, 15) + ": "@, fg_style(Color::Cyan)), raw_span(value)],
    )
}

/// How many columns of a pane are left for a value.
pub open spec fn value_width(width: u16) -> usize {
    if width > 19 {
        (width - 19) as usize
    } else {
        0
    }
}

/// The lines of a comment.
pub open spec fn comment_lines(details: Seq<char>, width: u16) -> Seq<LineView> {
    let chunks = wrapped_lines(details, value_width(width));
    if details.len() == 0 || value_width(width) == 0 {
        seq![]
    } else {
        Seq::new(
            chunks.len(),
            |i: int|
                if i == 0 {
                    detail_line("Comments"@, chunks[0])
                } else {
                    plain_line(seq![raw_span(repeated(' ', 17)), raw_span(chunks[i])])
                },
        )
    }
}

/// A line of the details, where there is anything to tell.
pub open spec fn optional_line(key: Seq<char>, value: Option<Seq<char>>) -> Seq<LineView> {
    match value {
        Some(value) => seq![detail_line(key, value)],
        None => seq![],
    }
}

/// The details of a host, in a pane of a width.
pub open spec fn detail_lines(host: HostView, width: u16) -> Seq<LineView> {
    seq![
        detail_line("Alias"@, host.alias),
        detail_line("Hostname"@, host.hostname),
        detail_line("User"@, host.user),
        detail_line("Port"@, decimal(host.port as nat)),
    ] + optional_line("Identity File"@, host.identity_file) + optional_line(
        "Group"@,
        host.group,
    ) + host.extra.map_values(|e: (Seq<char>, Seq<char>)| detail_line(e.0, e.1)) + comment_lines(
        host.details,
        width,
    ) + seq![detail_line("Last Accessed"@, host.last_accessed)]
}

/// The details pane.
pub open spec fn detail_pane(app: AppView, area: Rect) -> DrawView {
    DrawView::Text {
        area,
        lines: match app.selected_host() {
            Some(host) => detail_lines(host, area.width),
            None => seq![plain_line(seq![raw_span("No host selected"@)])],
        },
        border: Some(thick_block(" Details "@, None, fg_style(Color::DarkGray))),
    }
}

fn told(key: &str, value: &str) -> (l: Line)
    ensures
        l@ == detail_line(key@, value@),
{
    let label = pad_left(key, 15);
    let label = concat(label.as_str(), ": ");
    line_of2(styled(label.as_str(), fg(Color::Cyan)), raw(value))
}

fn push_optional(out: &mut Vec<Line>, key: &str, value: &Option<String>)
    ensures
        line_views(final(out)@) == line_views(old(out)@) + optional_line(key@, opt_text(*value)),
{
    match value {
        Some(value) => push_line(out, told(key, value.as_str())),
        None => {},
    }
    assert(line_views(out@) =~= line_views(old(out)@) + optional_line(key@, opt_text(*value)));
}

fn push_comment(out: &mut Vec<Line>, details: &str, width: u16)
    ensures
        line_views(final(out)@) == line_views(old(out)@) + comment_lines(details@, width),
{
    let room: usize = if width > 19 {
        (width - 19) as usize
    } else {
        0
    };
    if !details.is_empty() && room > 0 {
        let chunks = wrap_text(details, room);
        let ghost texts = wrapped_lines(details@, room);
        let ghost lines = comment_lines(details@, width);
        let ghost before = line_views(out@);
        assert(texts.len() == chunks@.len());
        for i in 0..chunks.len()
            invariant
                room == value_width(width),
                room > 0,
                details@.len() > 0,
                texts == wrapped_lines(details@, room),
                texts == chunks@.map_values(|s: String| s@),
                lines == comment_lines(details@, width),
                line_views(out@) == before + lines.take(i as int),
        {
            assert(texts[i as int] == chunks@[i as int]@);
            if i == 0 {
                push_line(out, told("Comments", chunks[i].as_str()));
            } else {
                let indent = repeat(' ', 17);
                push_line(out, line_of2(raw(indent.as_str()), raw(chunks[i].as_str())));
            }
            assert(lines.take(i + 1) =~= lines.take(i as int).push(lines[i as int]));
            assert(line_views(out@) =~= before + lines.take(i + 1));
        }
        assert(lines.take(lines.len() as int) =~= lines);
    } else {
        assert(line_views(out@) =~= line_views(old(out)@) + comment_lines(details@, width));
    }
}

/// Writes down the details of a host, for a pane of a width.
pub fn host_details(host: &Host, width: u16) -> (lines: Vec<Line>)
    ensures
        line_views(lines@) == detail_lines(host@, width),
{
    let mut lines: Vec<Line> = Vec::new();
    let port = decimal_string(host.port as u64);
    push_line(&mut lines, told("Alias", host.alias.as_str()));
    push_line(&mut lines, told("Hostname", host.hostname.as_str()));
    push_line(&mut lines, told("User", host.user.as_str()));
    push_line(&mut lines, told("Port", port.as_str()));
    assert(line_views(lines@) =~= seq![
        detail_line("Alias"@, host@.alias),
        detail_line("Hostname"@, host@.hostname),
        detail_line("User"@, host@.user),
        detail_line("Port"@, decimal(host@.port as nat)),
    ]);
    push_optional(&mut lines, "Identity File", &host.identity_file);
    push_optional(&mut lines, "Group", &host.group);
    let ghost before = line_views(lines@);
    let ghost told_extras = host@.extra.map_values(
        |e: (Seq<char>, Seq<char>)| detail_line(e.0, e.1),
    );
    assert(before =~= before + told_extras.take(0));
    for i in 0..host.extra.len()
        invariant
            told_extras == host@.extra.map_values(
                |e: (Seq<char>, Seq<char>)| detail_line(e.0, e.1),
            ),
            host@.extra == pair_texts(host.extra@),
            line_views(lines@) == before + told_extras.take(i as int),
    {
        push_line(&mut lines, told(host.extra[i].0.as_str(), host.extra[i].1.as_str()));
        assert(told_extras.take(i + 1) =~= told_extras.take(i as int).push(told_extras[i as int]));
        assert(line_views(lines@) =~= before + told_extras.take(i + 1));
    }
    assert(told_extras.take(told_extras.len() as int) =~= told_extras);
    push_comment(&mut lines, host.details.as_str(), width);
    let ghost most = line_views(lines@);
    push_line(&mut lines, told("Last Accessed", host.last_accessed.as_str()));
    assert(line_views(lines@) =~= most + seq![
        detail_line("Last Accessed"@, host@.last_accessed),
    ]);
    lines
}

/// Draws the details pane.
pub fn render_detail(app: &App, area: Rect) -> (draw: Draw)
    ensures
        draw@ == detail_pane(app@, area),
{
    let block = thick(" Details ", None, fg(Color::DarkGray));
    let lines = match app.selected_host() {
        Some(host) => host_details(host, area.width),
        None => {
            let lines = vec![line_of(raw("No host selected"))];
            assert(line_views(lines@) =~= seq![plain_line(seq![raw_span("No host selected"@)])]);
            lines
        },
    };
    Draw::Text { area, lines, border: Some(block) }
}

// ---------------------------------------------------------------------------
// Search
// ---------------------------------------------------------------------------

/// What stands behind a search.
pub open spec fn search_hint(input: InputView, active: bool) -> Seq<char> {
    if !active {
        "  (/ to edit)"@
    } else if input.text.len() == 0 {
        "  (Enter to keep, Esc to clear)"@
    } else {
        ""@
    }
}

/// A search behind its prompt, which is so many columns wide.
pub open spec fn search_bar(
    input: InputView,
    prompt: Seq<char>,
    columns: u16,
    active: bool,
    area: Rect,
) -> Seq<DrawView> {
    let style = if active {
        bold_style(Color::Cyan)
    } else {
        fg_style(Color::DarkGray)
    };
    let line = plain_line(
        seq![
            styled_span(prompt, style),
            styled_span(input.text, fg_style(Color::White)),
            styled_span(search_hint(input, active), fg_style(Color::DarkGray)),
        ],
    );
    seq![text_at(area, line)] + if active {
        cursor_at(area, columns, input.column())
    } else {
        seq![]
    }
}

/// Draws a search.
pub fn render_search(input: &Input, prompt: &str, columns: u16, active: bool, area: Rect) -> (draws:
    Vec<Draw>)
    ensures
        draw_views(draws@) == search_bar(input_view(*input), prompt@, columns, active, area),
{
    let style = if active {
        bold(Color::Cyan)
    } else {
        fg(Color::DarkGray)
    };
    let hint = if !active {
        "  (/ to edit)"
    } else if input.value().is_empty() {
        "  (Enter to keep, Esc to clear)"
    } else {
        ""
    };
    let line = line_of3(
        styled(prompt, style),
        styled(input.value(), fg(Color::White)),
        styled(hint, fg(Color::DarkGray)),
    );
    let mut draws: Vec<Draw> = Vec::new();
    push_draw(&mut draws, write_at(area, line));
    if active {
        push_cursor(&mut draws, area, columns, input.visual_cursor());
    }
    assert(draw_views(draws@) =~= search_bar(input_view(*input), prompt@, columns, active, area));
    draws
}

/// Whether the host browser shows its search.
pub open spec fn shows_search(app: AppView) -> bool {
    app.mode is Searching || app.search.text.len() > 0
}

/// Whether the host browser shows its search.
pub fn search_shown(app: &App) -> (shown: bool)
    ensures
        shown == shows_search(app@),
{
    matches!(app.mode(), Mode::Searching) || !app.search_is_empty()
}

/// The host browser, in the areas of its panes and of its search.
pub open spec fn hosts_view(
    app: AppView,
    groups: Rect,
    hosts: Rect,
    details: Rect,
    search: Rect,
) -> Seq<DrawView> {
    seq![groups_pane(app, groups), hosts_pane(app, hosts), detail_pane(app, details)]
        + if shows_search(app) {
        search_bar(app.search, "/ "@, 2, app.mode is Searching, search)
    } else {
        seq![]
    }
}

/// Draws the host browser.
pub fn render_hosts_view(app: &App, groups: Rect, hosts: Rect, details: Rect, search: Rect) -> (draws:
    Vec<Draw>)
    ensures
        draw_views(draws@) == hosts_view(app@, groups, hosts, details, search),
{
    let mut draws: Vec<Draw> = Vec::new();
    push_draw(&mut draws, render_groups_pane(app, groups));
    push_draw(&mut draws, render_host_list(app, hosts));
    push_draw(&mut draws, render_detail(app, details));
    assert(draw_views(draws@) =~= seq![
        groups_pane(app@, groups),
        hosts_pane(app@, hosts),
        detail_pane(app@, details),
    ]);
    if search_shown(app) {
        let active = matches!(app.mode(), Mode::Searching);
        append_draws(&mut draws, render_search(app.search(), "/ ", 2, active, search));
    } else {
        assert(draw_views(draws@) =~= hosts_view(app@, groups, hosts, details, search));
    }
    draws
}

// ---------------------------------------------------------------------------
// Sessions
// ---------------------------------------------------------------------------

/// What the terminal of a session tells for drawing it.
#[derive(Debug, Clone, Copy, PartialEq, Eq, Structural)]
pub struct TerminalState {
    pub hide_cursor: bool,
    pub cursor_row: u16,
    pub cursor_col: u16,
    /// How many lines the terminal is scrolled back.
    pub scrollback: usize,
}

/// The last row of an area.
pub open spec fn last_row(area: Rect) -> Rect {
    let below = if area.height == 0 {
        0
    } else {
        area.height - 1
    };
    Rect {
        x: area.x,
        y: (if area.y + below > u16::MAX {
            u16::MAX as int
        } else {
            area.y + below
        }) as u16,
        width: area.width,
        height: 1,
    }
}

fn bottom_row(area: Rect) -> (row: Rect)
    ensures
        row == last_row(area),
{
    Rect {
        x: area.x,
        y: area.y.saturating_add(area.height.saturating_sub(1)),
        width: area.width,
        height: 1,
    }
}

/// The selection from its earlier end to behind its later end.
pub open spec fn selected_range(selection: Option<Selection>) -> Option<(ScreenPos, ScreenPos)> {
    match selection {
        Some(s) => Some(
            (s.first(), ScreenPos { row: s.last().row, col: (s.last().col + 1) as u16 }),
        ),
        None => None,
    }
}

/// The cursor of a terminal that is shown in an area.
pub open spec fn terminal_cursor(inner: Rect, terminal: TerminalState) -> Seq<DrawView> {
    let (x, y) = (inner.x + terminal.cursor_col, inner.y + terminal.cursor_row);
    if !terminal.hide_cursor && terminal.cursor_col < inner.width && terminal.cursor_row
        < inner.height && x <= u16::MAX && y <= u16::MAX {
        seq![DrawView::Cursor { x: x as u16, y: y as u16 }]
    } else {
        seq![]
    }
}

/// What is written over a terminal that is scrolled back.
pub open spec fn scrollback_line(lines: usize) -> LineView {
    plain_line(
        seq![
            styled_span(
                " ["@ + decimal(lines as nat) + " lines up] "@,
                bold_style(Color::Yellow),
            ),
            styled_span("scroll down or type to return"@, fg_style(Color::DarkGray)),
        ],
    )
}

/// What is written over a terminal whose program has ended.
pub open spec fn disconnected_line() -> LineView {
    plain_line(
        seq![
            styled_span(" [disconnected] "@, bold_style(Color::Red)),
            styled_span("Ctrl+T x to close"@, fg_style(Color::DarkGray)),
        ],
    )
}

/// The notice that something was copied.
pub open spec fn copied_notice(inner: Rect) -> Seq<DrawView> {
    let area = Rect {
        x: inner.x,
        y: inner.y,
        width: if inner.width < 21 {
            inner.width
        } else {
            21
        },
        height: 1,
    };
    seq![
        DrawView::Clear(area),
        text_at(
            area,
            plain_line(seq![styled_span(" Copied to clipboard "@, mark_style(Color::Yellow))]),
        ),
    ]
}

/// A session, in an area, with the selection of text, and with the notice that
/// something was copied while that is shown.
pub open spec fn session_view(
    session: SessionView,
    terminal: TerminalState,
    selection: Option<Selection>,
    notice: bool,
    area: Rect,
) -> Seq<DrawView> {
    let inner = area.inside();
    let dead = session.status is Exited;
    let block = BlockView {
        title: title_line(spaced(session.alias), Align::Center),
        bottom: None,
        border: Border::Rounded,
        border_style: fg_style(
            if dead {
                Color::Red
            } else {
                Color::Cyan
            },
        ),
    };
    seq![
        DrawView::Panel { area, block },
        DrawView::Terminal {
            area: inner,
            session: session.id,
            selection: selected_range(selection),
        },
    ] + if dead {
        seq![]
    } else {
        terminal_cursor(inner, terminal)
    } + if terminal.scrollback > 0 {
        seq![text_at(last_row(inner), scrollback_line(terminal.scrollback))]
    } else {
        seq![]
    } + if dead {
        seq![text_at(last_row(inner), disconnected_line())]
    } else {
        seq![]
    } + if notice && inner.width > 0 && inner.height > 0 {
        copied_notice(inner)
    } else {
        seq![]
    }
}

fn push_terminal_cursor(out: &mut Vec<Draw>, inner: Rect, terminal: TerminalState)
    ensures
        draw_views(final(out)@) == draw_views(old(out)@) + terminal_cursor(inner, terminal),
{
    let x: u32 = inner.x as u32 + terminal.cursor_col as u32;
    let y: u32 = inner.y as u32 + terminal.cursor_row as u32;
    if !terminal.hide_cursor && terminal.cursor_col < inner.width && terminal.cursor_row
        < inner.height && x <= 65535 && y <= 65535 {
        push_draw(out, Draw::Cursor { x: x as u16, y: y as u16 });
    }
    assert(draw_views(out@) =~= draw_views(old(out)@) + terminal_cursor(inner, terminal));
}

fn push_copied_notice(out: &mut Vec<Draw>, inner: Rect)
    ensures
        draw_views(final(out)@) == draw_views(old(out)@) + copied_notice(inner),
{
    let area = Rect {
        x: inner.x,
        y: inner.y,
        width: if inner.width < 21 {
            inner.width
        } else {
            21
        },
        height: 1,
    };
    push_draw(out, Draw::Clear(area));
    let line = line_of(styled(" Copied to clipboard ", mark(Color::Yellow)));
    push_draw(out, write_at(area, line));
    assert(draw_views(out@) =~= draw_views(old(out)@) + copied_notice(inner));
}

/// Draws a session.
pub fn draw_session(
    session: &Session,
    terminal: TerminalState,
    selection: Option<Selection>,
    notice: bool,
    area: Rect,
) -> (draws: Vec<Draw>)
    requires
        selection matches Some(s) ==> s.last().col < u16::MAX,
    ensures
        draw_views(draws@) == session_view(session@, terminal, selection, notice, area),
{
    let inner = area.inner();
    let dead = matches!(session.status(), SessionStatus::Exited(_));
    let label = space(session.alias());
    let block = Block {
        title: title(label.as_str(), Align::Center),
        bottom: None,
        border: Border::Rounded,
        border_style: if dead {
            fg(Color::Red)
        } else {
            fg(Color::Cyan)
        },
    };
    let range = match selection {
        Some(s) => Some(s.normalized()),
        None => None,
    };
    let mut draws: Vec<Draw> = Vec::new();
    push_draw(&mut draws, Draw::Panel { area, block });
    push_draw(&mut draws, Draw::Terminal { area: inner, session: session.id(), selection: range });
    assert(range == selected_range(selection));
    assert(draw_views(draws@) =~= seq![
        DrawView::Panel { area, block: block@ },
        DrawView::Terminal {
            area: inner,
            session: session@.id,
            selection: selected_range(selection),
        },
    ]);
    let ghost none = Seq::<DrawView>::empty();
    let ghost d0 = draw_views(draws@);
    if !dead {
        push_terminal_cursor(&mut draws, inner, terminal);
    }
    let ghost d1 = draw_views(draws@);
    assert(d1 =~= d0 + if dead {
        none
    } else {
        terminal_cursor(inner, terminal)
    });
    if terminal.scrollback > 0 {
        let count = decimal_string(terminal.scrollback as u64);
        let lines = concat3(" [", count.as_str(), " lines up] ");
        let line = line_of2(
            styled(lines.as_str(), bold(Color::Yellow)),
            styled("scroll down or type to return", fg(Color::DarkGray)),
        );
        push_draw(&mut draws, write_at(bottom_row(inner), line));
    }
    let ghost d2 = draw_views(draws@);
    assert(d2 =~= d1 + if terminal.scrollback > 0 {
        seq![text_at(last_row(inner), scrollback_line(terminal.scrollback))]
    } else {
        none
    });
    if dead {
        let line = line_of2(
            styled(" [disconnected] ", bold(Color::Red)),
            styled("Ctrl+T x to close", fg(Color::DarkGray)),
        );
        push_draw(&mut draws, write_at(bottom_row(inner), line));
    }
    let ghost d3 = draw_views(draws@);
    assert(d3 =~= d2 + if dead {
        seq![text_at(last_row(inner), disconnected_line())]
    } else {
        none
    });
    if notice && inner.width > 0 && inner.height > 0 {
        push_copied_notice(&mut draws, inner);
    }
    assert(draw_views(draws@) =~= d3 + if notice && inner.width > 0 && inner.height > 0 {
        copied_notice(inner)
    } else {
        none
    });
    draws
}

/// Draws the session with a position, if there is one. `terminal` is what its
/// terminal tells.
pub fn render_session_view(app: &App, idx: usize, terminal: TerminalState, area: Rect) -> (draws: Vec<
    Draw,
>)
    requires
        app@.wf(),
    ensures
        draw_views(draws@) == if idx < app@.sessions.len() {
            session_view(
                app@.sessions[idx as int],
                terminal,
                app@.selection,
                app@.clipboard_notice_until is Some,
                area,
            )
        } else {
            seq![]
        },
{
    let sessions = app.sessions();
    if idx < sessions.len() {
        assert(app@.sessions[idx as int] == sessions@[idx as int]@);
        draw_session(
            &sessions[idx],
            terminal,
            app.selection(),
            app.clipboard_notice_visible(),
            area,
        )
    } else {
        let draws: Vec<Draw> = Vec::new();
        assert(draw_views(draws@) =~= seq![]);
        draws
    }
}

// ---------------------------------------------------------------------------
// Tabs
// ---------------------------------------------------------------------------

/// The name of a session's tab.
pub open spec fn session_label(session: SessionView, number: nat) -> Seq<char> {
    let name = " "@ + decimal(number) + ":"@ + session.alias;
    match session.status {
        SessionStatus::Exited(code) => name + " ["@ + (match code {
            Some(code) => decimal(code as nat),
            None => "?"@,
        }) + "] "@,
        SessionStatus::Running => name + " "@,
    }
}

/// The style of a session's tab.
pub open spec fn session_style(session: SessionView, active: bool) -> Style {
    if active {
        mark_style(Color::Cyan)
    } else if session.status is Exited {
        fg_style(Color::DarkGray)
    } else if session.unread {
        bold_style(Color::Green)
    } else {
        fg_style(Color::White)
    }
}

/// The tabs of the first sessions.
pub open spec fn session_tabs(app: AppView, n: nat) -> Seq<SpanView>
    decreases n,
{
    if n == 0 {
        seq![]
    } else {
        let session = app.sessions[n - 1];
        session_tabs(app, (n - 1) as nat) + seq![
            raw_span(" "@),
            styled_span(
                session_label(session, n),
                session_style(session, app.view == screen::View::Session((n - 1) as usize)),
            ),
        ]
    }
}

/// The tabs of the first file browsers.
pub open spec fn browser_tabs(app: AppView, n: nat) -> Seq<SpanView>
    decreases n,
{
    if n == 0 {
        seq![]
    } else {
        browser_tabs(app, (n - 1) as nat) + seq![
            raw_span(" "@),
            styled_span(
                " F:"@ + app.file_transfers[n - 1].alias + " "@,
                if app.view == screen::View::FileTransfer((n - 1) as usize) {
                    mark_style(Color::Cyan)
                } else {
                    fg_style(Color::Magenta)
                },
            ),
        ]
    }
}

/// All tabs, and the prefix key while a tab command is expected.
pub open spec fn tab_spans(app: AppView) -> Seq<SpanView> {
    seq![
        styled_span(
            " Hosts "@,
            if app.view is Hosts {
                mark_style(Color::Cyan)
            } else {
                fg_style(Color::White)
            },
        ),
    ] + session_tabs(app, app.sessions.len()) + browser_tabs(app, app.file_transfers.len())
        + if app.prefix is Pending {
        seq![raw_span(" "@), styled_span("^T-"@, bold_style(Color::Yellow))]
    } else {
        seq![]
    }
}

/// How many columns some texts take up together.
pub open spec fn columns_of(spans: Seq<SpanView>) -> int
    decreases spans.len(),
{
    if spans.len() == 0 {
        0
    } else {
        columns_of(spans.drop_last()) + display_width(spans.last().text)
    }
}

/// The bar of tabs, with the key for help at its end where there is room.
pub open spec fn tab_bar(app: AppView, area: Rect) -> DrawView {
    let spans = tab_spans(app);
    let used = columns_of(spans);
    text_at(
        area,
        plain_line(
            if area.width > used + 10 {
                spans + seq![
                    raw_span(repeated(' ', (area.width - used - 9) as nat)),
                    styled_span("^T ? help"@, fg_style(Color::DarkGray)),
                ]
            } else {
                spans
            },
        ),
    )
}

fn label_of_session(session: &Session, number: u64) -> (label: String)
    ensures
        label@ == session_label(session@, number as nat),
{
    let digits = decimal_string(number);
    let name = concat3(" ", digits.as_str(), ":");
    let name = concat(name.as_str(), session.alias());
    match session.status() {
        SessionStatus::Exited(code) => {
            let code = match code {
                Some(code) => decimal_string(code as u64),
                None => "?".to_string(),
            };
            let open = concat3(name.as_str(), " [", code.as_str());
            concat(open.as_str(), "] ")
        },
        SessionStatus::Running => concat(name.as_str(), " "),
    }
}

fn style_of_session(session: &Session, active: bool) -> (style: Style)
    ensures
        style == session_style(session@, active),
{
    if active {
        mark(Color::Cyan)
    } else if matches!(session.status(), SessionStatus::Exited(_)) {
        fg(Color::DarkGray)
    } else if session.has_unread() {
        bold(Color::Green)
    } else {
        fg(Color::White)
    }
}

fn push_session_tabs(out: &mut Vec<Span>, app: &App)
    ensures
        span_views(final(out)@) == span_views(old(out)@) + session_tabs(
            app@,
            app@.sessions.len(),
        ),
{
    let sessions = app.sessions();
    let view = app.current_view();
    let ghost before = span_views(out@);
    assert(before =~= before + session_tabs(app@, 0));
    assert(session_views(sessions@).len() == sessions@.len());
    for i in 0..sessions.len()
        invariant
            session_views(sessions@) == app@.sessions,
            view == app@.view,
            span_views(out@) == before + session_tabs(app@, i as nat),
    {
        assert(app@.sessions[i as int] == sessions@[i as int]@);
        let label = label_of_session(&sessions[i], i as u64 + 1);
        let style = style_of_session(&sessions[i], view == screen::View::Session(i));
        push_span(out, raw(" "));
        push_span(out, styled(label.as_str(), style));
        assert(span_views(out@) =~= before + session_tabs(app@, (i + 1) as nat));
    }
}

fn push_browser_tabs(out: &mut Vec<Span>, app: &App)
    ensures
        span_views(final(out)@) == span_views(old(out)@) + browser_tabs(
            app@,
            app@.file_transfers.len(),
        ),
{
    let browsers = app.browsers();
    let view = app.current_view();
    let ghost before = span_views(out@);
    assert(before =~= before + browser_tabs(app@, 0));
    assert(browser_views(browsers@).len() == browsers@.len());
    for i in 0..browsers.len()
        invariant
            browser_views(browsers@) == app@.file_transfers,
            view == app@.view,
            span_views(out@) == before + browser_tabs(app@, i as nat),
    {
        assert(app@.file_transfers[i as int] == browsers@[i as int]@);
        let label = concat3(" F:", browsers[i].alias.as_str(), " ");
        let style = if view == screen::View::FileTransfer(i) {
            mark(Color::Cyan)
        } else {
            fg(Color::Magenta)
        };
        push_span(out, raw(" "));
        push_span(out, styled(label.as_str(), style));
        assert(span_views(out@) =~= before + browser_tabs(app@, (i + 1) as nat));
    }
}

fn columns(spans: &Vec<Span>) -> (n: usize)
    ensures
        n as int == columns_of(span_views(spans@)) || (n == usize::MAX && columns_of(
            span_views(spans@),
        ) > usize::MAX),
{
    let ghost views = span_views(spans@);
    let mut sum: usize = 0;
    for i in 0..spans.len()
        invariant
            views == span_views(spans@),
            sum as int == columns_of(views.take(i as int)) || (sum == usize::MAX && columns_of(
                views.take(i as int),
            ) > usize::MAX),
    {
        assert(views.take(i + 1).drop_last() =~= views.take(i as int));
        assert(views.take(i + 1).last() == spans@[i as int]@);
        sum = sum.saturating_add(width_of(spans[i].text.as_str()));
    }
    assert(views.take(views.len() as int) =~= views);
    sum
}

/// Draws the bar of tabs.
pub fn render_tab_bar(app: &App, area: Rect) -> (draw: Draw)
    ensures
        draw@ == tab_bar(app@, area),
{
    let mut spans: Vec<Span> = Vec::new();
    let style = if app.current_view() == screen::View::Hosts {
        mark(Color::Cyan)
    } else {
        fg(Color::White)
    };
    push_span(&mut spans, styled(" Hosts ", style));
    assert(span_views(spans@) =~= seq![styled_span(" Hosts "@, style)]);
    push_session_tabs(&mut spans, app);
    push_browser_tabs(&mut spans, app);
    if app.prefix() == PrefixState::Pending {
        push_span(&mut spans, raw(" "));
        push_span(&mut spans, styled("^T-", bold(Color::Yellow)));
    }
    assert(span_views(spans@) =~= tab_spans(app@));
    let used = columns(&spans);
    let width: usize = area.width as usize;
    if used < width && width - used > 10 {
        let gap = repeat(' ', width - used - 9);
        push_span(&mut spans, raw(gap.as_str()));
        push_span(&mut spans, styled("^T ? help", fg(Color::DarkGray)));
        assert(span_views(spans@) =~= tab_spans(app@) + seq![
            raw_span(repeated(' ', (width - used - 9) as nat)),
            styled_span("^T ? help"@, fg_style(Color::DarkGray)),
        ]);
    }
    write_at(area, line(spans))
}

} // verus!
