//! The whole screen: where everything stands, and what is drawn there.
use vstd::prelude::*;
use crate::app::{App, AppView, Mode, ModeView};
use crate::dialogs::{
    confirm, confirm_height, connect_error, extras_row_count, extras_view, form_row_count,
    form_window, group_prompt, height_of_confirm, mkdir_prompt, password_prompt, render_confirm,
    render_connect_error, render_extras, render_form, render_group_input, render_mkdir_prompt,
    render_password_prompt, render_tab_help, render_test_result, tab_help, test_result,
};
use crate::file_panes::{
    file_search_shown, files_view, progress_shown, render_file_transfer_view, shows_file_search,
    shows_progress, FileAreas,
};
use crate::filebrowser::{
    BrowserModeView, BrowserView, FileBrowser, FileBrowserMode, TransferDirection,
};
use crate::form::{EditorView, ExtrasEditor, FormState, FormView};
use crate::model::pair_texts;
use crate::panes::{
    hosts_view, render_hosts_view, render_session_view, render_tab_bar, search_shown, session_view,
    shows_search, tab_bar, TerminalState,
};
use crate::scene::{
    append_draws, divides, draw_views, is_split, push_draw, split, within, Constraint, Direction,
    Draw, DrawView, Flex, Rect,
};
use crate::screen;
use crate::screen::ScreenPos;
use crate::text::{concat, concat3};

verus! {

// ---------------------------------------------------------------------------
// Coordinates
// ---------------------------------------------------------------------------

/// The screen of a session within a frame: inside the border, above the tabs.
pub open spec fn session_area(cols: u16, rows: u16, has_tabs: bool) -> Rect {
    let lost: int = if has_tabs {
        3
    } else {
        2
    };
    Rect {
        x: 1,
        y: 1,
        width: (if cols < 2 {
            0
        } else {
            cols - 2
        }) as u16,
        height: (if rows < lost {
            0
        } else {
            rows - lost
        }) as u16,
    }
}

/// The screen of a session within a frame.
pub fn session_inner_rect(cols: u16, rows: u16, has_tabs: bool) -> (area: Rect)
    ensures
        area == session_area(cols, rows, has_tabs),
{
    let tab_rows: u16 = if has_tabs {
        1
    } else {
        0
    };
    Rect {
        x: 1,
        y: 1,
        width: cols.saturating_sub(2),
        height: rows.saturating_sub(2 + tab_rows),
    }
}

/// What is left of a frame above the tabs has the session's screen inside its
/// border.
pub proof fn lemma_session_area_is_inside(cols: u16, rows: u16, has_tabs: bool)
    requires
        cols >= 2,
        rows >= 3,
    ensures
        session_area(cols, rows, has_tabs) == (Rect {
            x: 0,
            y: 0,
            width: cols,
            height: (if has_tabs {
                rows - 1
            } else {
                rows as int
            }) as u16,
        }).inside(),
{
}

/// Whether a coordinate of the frame lies in an area.
pub open spec fn contains(inner: Rect, col: u16, row: u16) -> bool {
    inner.x <= col < inner.x + inner.width && inner.y <= row < inner.y + inner.height
}

/// The position in an area of a coordinate of the frame, if it lies in the area.
pub fn frame_to_screen(col: u16, row: u16, inner: Rect) -> (pos: Option<ScreenPos>)
    ensures
        pos == if contains(inner, col, row) {
            Some(ScreenPos { row: (row - inner.y) as u16, col: (col - inner.x) as u16 })
        } else {
            None
        },
{
    if col >= inner.x && col - inner.x < inner.width && row >= inner.y && row - inner.y
        < inner.height {
        Some(ScreenPos { row: row - inner.y, col: col - inner.x })
    } else {
        None
    }
}

/// The distance from the start of a range to the point of it that is nearest.
pub open spec fn clamped(at: u16, start: u16, len: u16) -> u16 {
    if at <= start || len == 0 {
        0
    } else if at - start >= len {
        (len - 1) as u16
    } else {
        (at - start) as u16
    }
}

fn clamp(at: u16, start: u16, len: u16) -> (offset: u16)
    ensures
        offset == clamped(at, start, len),
{
    if at <= start || len == 0 {
        0
    } else if at - start >= len {
        len - 1
    } else {
        at - start
    }
}

/// The position in an area that is nearest to a coordinate of the frame.
pub fn frame_to_screen_clamped(col: u16, row: u16, inner: Rect) -> (pos: ScreenPos)
    ensures
        pos == (ScreenPos {
            row: clamped(row, inner.y, inner.height),
            col: clamped(col, inner.x, inner.width),
        }),
{
    ScreenPos {
        row: clamp(row, inner.y, inner.height),
        col: clamp(col, inner.x, inner.width),
    }
}

/// Within an area, the nearest position is the position itself. Outside of it,
/// the nearest one still lies in the area.
pub proof fn lemma_clamping(col: u16, row: u16, inner: Rect)
    requires
        inner.width > 0,
        inner.height > 0,
    ensures
        clamped(col, inner.x, inner.width) < inner.width,
        clamped(row, inner.y, inner.height) < inner.height,
        contains(inner, col, row) ==> clamped(col, inner.x, inner.width) == col - inner.x
            && clamped(row, inner.y, inner.height) == row - inner.y,
{
}

// ---------------------------------------------------------------------------
// Areas
// ---------------------------------------------------------------------------

/// The areas of everything that may be on the screen.
#[derive(Debug)]
pub struct Areas {
    /// Above the tabs.
    pub main: Rect,
    pub tabs: Rect,
    /// The panes of the host browser.
    pub groups: Rect,
    pub hosts: Rect,
    pub details: Rect,
    pub search: Rect,
    /// The parts of the file browser.
    pub files: FileAreas,
    /// A window over the file browser.
    pub prompt: Rect,
    /// A window over everything, and its rows.
    pub window: Rect,
    pub rows: Vec<Rect>,
    /// The window with the SSH options, and its rows.
    pub extras: Rect,
    pub extras_rows: Vec<Rect>,
}

/// The model of the areas.
#[verifier::ext_equal]
pub struct AreasView {
    pub main: Rect,
    pub tabs: Rect,
    pub groups: Rect,
    pub hosts: Rect,
    pub details: Rect,
    pub search: Rect,
    pub files: FileAreas,
    pub prompt: Rect,
    pub window: Rect,
    pub rows: Seq<Rect>,
    pub extras: Rect,
    pub extras_rows: Seq<Rect>,
}

impl View for Areas {
    type V = AreasView;

    open spec fn view(&self) -> AreasView {
        AreasView {
            main: self.main,
            tabs: self.tabs,
            groups: self.groups,
            hosts: self.hosts,
            details: self.details,
            search: self.search,
            files: self.files,
            prompt: self.prompt,
            window: self.window,
            rows: self.rows@,
            extras: self.extras,
            extras_rows: self.extras_rows@,
        }
    }
}

/// Whether some areas are what dividing an area gives.
pub open spec fn divided(
    rects: Seq<Rect>,
    area: Rect,
    direction: Direction,
    flex: Flex,
    parts: Seq<Constraint>,
) -> bool {
    divides(rects, area, direction, flex, parts) && is_split(rects, area, direction, parts.len())
}

/// A row where something is shown, and no row where it is not.
pub open spec fn row_if(shown: bool) -> Constraint {
    Constraint::Length(
        if shown {
            1
        } else {
            0
        },
    )
}

/// Whether an area is one of a size in the middle of a column, which is in the
/// middle of another area.
pub open spec fn is_centered_in(
    rect: Rect,
    width: u16,
    height: u16,
    area: Rect,
    column: Rect,
) -> bool {
    &&& divided(
        seq![column],
        area,
        Direction::Horizontal,
        Flex::Center,
        seq![Constraint::Length(width)],
    )
    &&& divided(
        seq![rect],
        column,
        Direction::Vertical,
        Flex::Center,
        seq![Constraint::Length(height)],
    )
}

/// Whether an area is one of a size in the middle of another.
pub open spec fn is_centered(rect: Rect, width: u16, height: u16, area: Rect) -> bool {
    exists|column: Rect| #[trigger] is_centered_in(rect, width, height, area, column)
}

/// An area of a size in the middle of another.
pub fn centered_rect(width: u16, height: u16, area: Rect) -> (rect: Rect)
    ensures
        is_centered(rect, width, height, area),
        within(rect, area),
{
    let wide = vec![Constraint::Length(width)];
    let high = vec![Constraint::Length(height)];
    assert(wide@ =~= seq![Constraint::Length(width)]);
    assert(high@ =~= seq![Constraint::Length(height)]);
    let columns = split(area, Direction::Horizontal, Flex::Center, &wide);
    assert(columns@ =~= seq![columns@[0]]);
    let column = columns[0];
    let rects = split(column, Direction::Vertical, Flex::Center, &high);
    assert(rects@ =~= seq![rects@[0]]);
    assert(within(columns@[0], area));
    assert(within(rects@[0], column));
    assert(is_centered_in(rects@[0], width, height, area, column));
    rects[0]
}

/// What is asked before a file is overwritten.
pub open spec fn transfer_question(file: Seq<char>, direction: TransferDirection) -> Seq<char> {
    (match direction {
        TransferDirection::Upload => "Upload"@,
        TransferDirection::Download => "Download"@,
    }) + " '"@ + file + "'?\nFile already exists at destination."@
}

/// What is asked before an entry is deleted.
pub open spec fn delete_question(name: Seq<char>, is_dir: bool) -> Seq<char> {
    "Delete "@ + (if is_dir {
        "directory"@
    } else {
        "file"@
    }) + " '"@ + name + "'?"@
}

fn question_of_transfer(file: &str, direction: TransferDirection) -> (question: String)
    ensures
        question@ == transfer_question(file@, direction),
{
    let action = match direction {
        TransferDirection::Upload => "Upload",
        TransferDirection::Download => "Download",
    };
    let start = concat3(action, " '", file);
    concat(start.as_str(), "'?\nFile already exists at destination.")
}

fn question_of_delete(name: &str, is_dir: bool) -> (question: String)
    ensures
        question@ == delete_question(name@, is_dir),
{
    let start = concat3(
        "Delete ",
        if is_dir {
            "directory"
        } else {
            "file"
        },
        " '",
    );
    concat3(start.as_str(), name, "'?")
}

/// What is asked before a host is deleted.
pub open spec fn host_question(alias: Seq<char>) -> Seq<char> {
    "Delete host '"@ + alias + "'?"@
}

/// What is asked before a group is deleted.
pub open spec fn group_question(name: Seq<char>) -> Seq<char> {
    "Delete group '"@ + name + "'?\nHosts will become ungrouped."@
}

/// The size of the window over a file browser, if there is one.
pub open spec fn prompt_size(mode: BrowserModeView) -> Option<(u16, u16)> {
    match mode {
        BrowserModeView::PasswordPrompt(_) => Some((50, 5)),
        BrowserModeView::Creating(_) => Some((50, 5)),
        BrowserModeView::ConfirmTransfer { file, direction } => Some(
            (45, confirm_height(transfer_question(file, direction))),
        ),
        BrowserModeView::ConfirmDelete { name, is_dir } => Some(
            (45, confirm_height(delete_question(name, is_dir))),
        ),
        _ => None,
    }
}

/// The size of the window over everything, if there is one.
pub open spec fn window_size(mode: ModeView) -> Option<(u16, u16)> {
    match mode {
        ModeView::Normal => None,
        ModeView::Searching => None,
        ModeView::Adding(_) => Some((75, 13)),
        ModeView::Editing { .. } => Some((75, 13)),
        ModeView::ConfirmDelete(alias) => Some((45, confirm_height(host_question(alias)))),
        ModeView::ConfirmDeleteGroup(name) => Some((45, confirm_height(group_question(name)))),
        ModeView::AddingGroup(input) => Some(
            (
                40,
                if input.error is Some {
                    5
                } else {
                    3
                },
            ),
        ),
        ModeView::EditingGroup { input, .. } => Some(
            (
                40,
                if input.error is Some {
                    5
                } else {
                    3
                },
            ),
        ),
        ModeView::ConnectError { .. } => Some((60, 7)),
        ModeView::TestResult { .. } => Some((60, 7)),
        ModeView::TabHelp => Some((40, 16)),
    }
}

/// The rows of the host form: one for each field, and two for an error.
pub open spec fn form_parts(form: FormView) -> Seq<Constraint> {
    Seq::new(form.fields.len(), |i: int| Constraint::Length(1)) + if form.error is Some {
        seq![Constraint::Length(2)]
    } else {
        seq![]
    }
}

/// The height of the window with the SSH options.
pub open spec fn extras_height(form: FormView, editor: EditorView) -> u16 {
    let error: int = if editor.error is Some {
        1
    } else {
        0
    };
    let count = (if form.extras.len() == 0 {
        1
    } else {
        form.extras.len()
    }) as u16;
    (if editor.entry is Some {
        5 + error
    } else if count < 12 {
        count + 4 + error
    } else {
        16 + error
    }) as u16
}

/// The rows of the SSH options.
pub open spec fn extras_parts(form: FormView, editor: EditorView) -> Seq<Constraint> {
    if editor.entry is Some {
        seq![Constraint::Length(1), Constraint::Length(1)] + if editor.error is Some {
            seq![Constraint::Length(2)]
        } else {
            seq![]
        }
    } else if form.extras.len() == 0 {
        seq![Constraint::Min(1)]
    } else {
        Seq::new(form.extras.len(), |i: int| Constraint::Length(1)) + if editor.error is Some {
            seq![Constraint::Length(1)]
        } else {
            seq![]
        }
    }
}

/// Whether the panes of the host browser are arranged in an area above its
/// search.
pub open spec fn hosts_arranged_in(app: AppView, areas: AreasView, panes: Rect) -> bool {
    &&& divided(
        seq![panes, areas.search],
        areas.main,
        Direction::Vertical,
        Flex::Start,
        seq![Constraint::Min(1), row_if(shows_search(app))],
    )
    &&& divided(
        seq![areas.groups, areas.hosts, areas.details],
        panes,
        Direction::Horizontal,
        Flex::Start,
        seq![
            Constraint::Percentage(33),
            Constraint::Percentage(33),
            Constraint::Percentage(34),
        ],
    )
}

/// Whether the host browser is arranged.
pub open spec fn hosts_arranged(app: AppView, areas: AreasView) -> bool {
    exists|panes: Rect| #[trigger] hosts_arranged_in(app, areas, panes)
}

/// Whether the parts of a file browser are arranged in an area, with its panes
/// above the rest.
pub open spec fn files_arranged_in(
    browser: BrowserView,
    main: Rect,
    files: FileAreas,
    panes: Rect,
) -> bool {
    &&& divided(
        seq![panes, files.progress, files.search, files.status],
        main,
        Direction::Vertical,
        Flex::Start,
        seq![
            Constraint::Min(1),
            row_if(shows_progress(browser)),
            row_if(shows_file_search(browser)),
            Constraint::Length(1),
        ],
    )
    &&& divided(
        seq![files.local, files.remote],
        panes,
        Direction::Horizontal,
        Flex::Start,
        seq![Constraint::Percentage(50), Constraint::Percentage(50)],
    )
}

/// Whether the parts of a file browser are arranged in an area.
pub open spec fn files_arranged(browser: BrowserView, main: Rect, files: FileAreas) -> bool {
    exists|panes: Rect| #[trigger] files_arranged_in(browser, main, files, panes)
}

/// Whether the SSH options are arranged.
pub open spec fn extras_arranged(
    form: FormView,
    editor: EditorView,
    frame: Rect,
    areas: AreasView,
) -> bool {
    &&& is_centered(areas.extras, 60, extras_height(form, editor), frame)
    &&& divided(
        areas.extras_rows,
        areas.extras.inside(),
        Direction::Vertical,
        Flex::Start,
        extras_parts(form, editor),
    )
}

/// Whether the window over everything is arranged.
pub open spec fn window_arranged(mode: ModeView, frame: Rect, areas: AreasView) -> bool {
    &&& window_size(mode) matches Some(size) ==> is_centered(areas.window, size.0, size.1, frame)
    &&& mode.form() matches Some(form) ==> divided(
        areas.rows,
        areas.window.inside(),
        Direction::Vertical,
        Flex::Start,
        form_parts(form),
    ) && (form.extras_editor matches Some(editor) ==> extras_arranged(form, editor, frame, areas))
}

/// Whether everything that is on the screen is arranged in a frame.
pub open spec fn arranged(app: AppView, frame: Rect, areas: AreasView) -> bool {
    &&& divided(
        seq![areas.main, areas.tabs],
        frame,
        Direction::Vertical,
        Flex::Start,
        seq![Constraint::Min(1), row_if(app.has_tabs())],
    )
    &&& match app.view {
        screen::View::Hosts => hosts_arranged(app, areas),
        screen::View::Session(_) => true,
        screen::View::FileTransfer(idx) => idx < app.file_transfers.len() ==> {
            let browser = app.file_transfers[idx as int];
            &&& files_arranged(browser, areas.main, areas.files)
            &&& prompt_size(browser.mode) matches Some(size) ==> is_centered(
                areas.prompt,
                size.0,
                size.1,
                frame,
            )
        },
    }
    &&& window_arranged(app.mode, frame, areas)
}

/// An area without extent, for what is not shown.
fn nowhere() -> (rect: Rect)
    ensures
        rect == (Rect { x: 0, y: 0, width: 0, height: 0 }),
{
    Rect { x: 0, y: 0, width: 0, height: 0 }
}

fn part_if(shown: bool) -> (part: Constraint)
    ensures
        part == row_if(shown),
{
    if shown {
        Constraint::Length(1)
    } else {
        Constraint::Length(0)
    }
}

fn arrange_hosts(app: &App, areas: &mut Areas)
    ensures
        hosts_arranged(app@, final(areas)@),
        final(areas)@ == (AreasView {
            groups: final(areas)@.groups,
            hosts: final(areas)@.hosts,
            details: final(areas)@.details,
            search: final(areas)@.search,
            ..old(areas)@
        }),
{
    let parts = vec![Constraint::Min(1), part_if(search_shown(app))];
    let rows = split(areas.main, Direction::Vertical, Flex::Start, &parts);
    let panes = rows[0];
    let parts = vec![
        Constraint::Percentage(33),
        Constraint::Percentage(33),
        Constraint::Percentage(34),
    ];
    let columns = split(panes, Direction::Horizontal, Flex::Start, &parts);
    areas.search = rows[1];
    areas.groups = columns[0];
    areas.hosts = columns[1];
    areas.details = columns[2];
    assert(rows@ =~= seq![panes, areas.search]);
    assert(columns@ =~= seq![areas.groups, areas.hosts, areas.details]);
    assert(hosts_arranged_in(app@, areas@, panes));
}

fn arrange_files(browser: &FileBrowser, main: Rect) -> (files: FileAreas)
    ensures
        files_arranged(browser@, main, files),
{
    let parts = vec![
        Constraint::Min(1),
        part_if(progress_shown(browser)),
        part_if(file_search_shown(browser)),
        Constraint::Length(1),
    ];
    let rows = split(main, Direction::Vertical, Flex::Start, &parts);
    let panes = rows[0];
    let halves = vec![Constraint::Percentage(50), Constraint::Percentage(50)];
    let columns = split(panes, Direction::Horizontal, Flex::Start, &halves);
    let files = FileAreas {
        local: columns[0],
        remote: columns[1],
        progress: rows[1],
        search: rows[2],
        status: rows[3],
    };
    assert(rows@ =~= seq![panes, files.progress, files.search, files.status]);
    assert(columns@ =~= seq![files.local, files.remote]);
    assert(files_arranged_in(browser@, main, files, panes));
    files
}

fn size_of_prompt(mode: &FileBrowserMode) -> (size: Option<(u16, u16)>)
    ensures
        size == prompt_size(mode@),
{
    match mode {
        FileBrowserMode::PasswordPrompt(_) => Some((50, 5)),
        FileBrowserMode::Creating(_) => Some((50, 5)),
        FileBrowserMode::ConfirmTransfer { file, direction } => {
            let question = question_of_transfer(file.as_str(), *direction);
            Some((45, height_of_confirm(question.as_str())))
        },
        FileBrowserMode::ConfirmDelete { name, is_dir } => {
            let question = question_of_delete(name.as_str(), *is_dir);
            Some((45, height_of_confirm(question.as_str())))
        },
        _ => None,
    }
}

fn size_of_window(mode: &Mode) -> (size: Option<(u16, u16)>)
    ensures
        size == window_size(mode@),
{
    match mode {
        Mode::Normal | Mode::Searching => None,
        Mode::Adding(_) => Some((75, 13)),
        Mode::Editing { .. } => Some((75, 13)),
        Mode::ConfirmDelete(alias) => {
            let question = concat3("Delete host '", alias.as_str(), "'?");
            Some((45, height_of_confirm(question.as_str())))
        },
        Mode::ConfirmDeleteGroup(name) => {
            let question = concat3(
                "Delete group '",
                name.as_str(),
                "'?\nHosts will become ungrouped.",
            );
            Some((45, height_of_confirm(question.as_str())))
        },
        Mode::AddingGroup(input) => {
            let height: u16 = if input.error.is_some() {
                5
            } else {
                3
            };
            Some((40, height))
        },
        Mode::EditingGroup { input, .. } => {
            let height: u16 = if input.error.is_some() {
                5
            } else {
                3
            };
            Some((40, height))
        },
        Mode::ConnectError { .. } => Some((60, 7)),
        Mode::TestResult { .. } => Some((60, 7)),
        Mode::TabHelp => Some((40, 16)),
    }
}

fn single_rows(count: usize) -> (parts: Vec<Constraint>)
    ensures
        parts@ == Seq::new(count as nat, |i: int| Constraint::Length(1)),
{
    let mut parts: Vec<Constraint> = Vec::new();
    for i in 0..count
        invariant
            parts@ =~= Seq::new(i as nat, |i: int| Constraint::Length(1)),
    {
        parts.push(Constraint::Length(1));
    }
    parts
}

fn arrange_extras(form: &FormState, editor: &ExtrasEditor, frame: Rect, areas: &mut Areas)
    ensures
        extras_arranged(form@, editor@, frame, final(areas)@),
        final(areas)@ == (AreasView {
            extras: final(areas)@.extras,
            extras_rows: final(areas)@.extras_rows,
            ..old(areas)@
        }),
{
    let error = editor.error.is_some();
    let extras = form.extras();
    assert(pair_texts(extras@).len() == extras@.len());
    let error_rows: u16 = if error {
        1
    } else {
        0
    };
    let count: u16 = if extras.len() == 0 {
        1
    } else {
        extras.len() as u16
    };
    let (height, parts) = if editor.entry.is_some() {
        let mut parts = vec![Constraint::Length(1), Constraint::Length(1)];
        if error {
            parts.push(Constraint::Length(2));
        }
        (5 + error_rows, parts)
    } else {
        let height: u16 = if count < 12 {
            count + 4 + error_rows
        } else {
            16 + error_rows
        };
        if extras.len() == 0 {
            (height, vec![Constraint::Min(1)])
        } else {
            let mut parts = single_rows(extras.len());
            if error {
                parts.push(Constraint::Length(1));
            }
            (height, parts)
        }
    };
    assert(parts@ =~= extras_parts(form@, editor@));
    assert(height == extras_height(form@, editor@));
    areas.extras = centered_rect(60, height, frame);
    areas.extras_rows = split(areas.extras.inner(), Direction::Vertical, Flex::Start, &parts);
}

fn arrange_form(form: &FormState, frame: Rect, areas: &mut Areas)
    ensures
        divided(
            final(areas)@.rows,
            final(areas)@.window.inside(),
            Direction::Vertical,
            Flex::Start,
            form_parts(form@),
        ),
        form@.extras_editor matches Some(editor) ==> extras_arranged(
            form@,
            editor,
            frame,
            final(areas)@,
        ),
        final(areas)@ == (AreasView {
            rows: final(areas)@.rows,
            extras: final(areas)@.extras,
            extras_rows: final(areas)@.extras_rows,
            ..old(areas)@
        }),
{
    let fields = form.fields();
    assert(crate::form::field_views(fields@).len() == fields@.len());
    let mut parts = single_rows(fields.len());
    if form.error().is_some() {
        parts.push(Constraint::Length(2));
    }
    assert(parts@ =~= form_parts(form@));
    areas.rows = split(areas.window.inner(), Direction::Vertical, Flex::Start, &parts);
    if let Some(editor) = form.extras_editor() {
        arrange_extras(form, editor, frame, areas);
    }
}

fn arrange_window(mode: &Mode, frame: Rect, areas: &mut Areas)
    ensures
        window_arranged(mode@, frame, final(areas)@),
        final(areas)@ == (AreasView {
            window: final(areas)@.window,
            rows: final(areas)@.rows,
            extras: final(areas)@.extras,
            extras_rows: final(areas)@.extras_rows,
            ..old(areas)@
        }),
{
    if let Some(size) = size_of_window(mode) {
        areas.window = centered_rect(size.0, size.1, frame);
    }
    match mode {
        Mode::Adding(form) => arrange_form(form, frame, areas),
        Mode::Editing { form, .. } => arrange_form(form, frame, areas),
        _ => {},
    }
}

/// Arranges everything that is on the screen in a frame.
pub fn arrange(app: &App, frame: Rect) -> (areas: Areas)
    ensures
        arranged(app@, frame, areas@),
{
    let parts = vec![Constraint::Min(1), part_if(app.has_tabs())];
    assert(parts@ =~= seq![Constraint::Min(1), row_if(app@.has_tabs())]);
    let rows = split(frame, Direction::Vertical, Flex::Start, &parts);
    let mut areas = Areas {
        main: rows[0],
        tabs: rows[1],
        groups: nowhere(),
        hosts: nowhere(),
        details: nowhere(),
        search: nowhere(),
        files: FileAreas {
            local: nowhere(),
            remote: nowhere(),
            progress: nowhere(),
            search: nowhere(),
            status: nowhere(),
        },
        prompt: nowhere(),
        window: nowhere(),
        rows: Vec::new(),
        extras: nowhere(),
        extras_rows: Vec::new(),
    };
    assert(rows@ =~= seq![areas.main, areas.tabs]);
    match app.current_view() {
        screen::View::Hosts => arrange_hosts(app, &mut areas),
        screen::View::Session(_) => {},
        screen::View::FileTransfer(idx) => {
            let browsers = app.browsers();
            if idx < browsers.len() {
                assert(app@.file_transfers[idx as int] == browsers@[idx as int]@);
                areas.files = arrange_files(&browsers[idx], areas.main);
                if let Some(size) = size_of_prompt(&browsers[idx].mode) {
                    areas.prompt = centered_rect(size.0, size.1, frame);
                }
            }
        },
    }
    let ghost below = areas@;
    arrange_window(app.mode(), frame, &mut areas);
    proof {
        if app@.view is Hosts {
            let panes = choose|panes: Rect| #[trigger] hosts_arranged_in(app@, below, panes);
            assert(hosts_arranged_in(app@, areas@, panes));
        }
    }
    areas
}

// ---------------------------------------------------------------------------
// Everything
// ---------------------------------------------------------------------------

/// The window over a file browser, if there is one.
pub open spec fn browser_window(browser: BrowserView, area: Rect) -> Seq<DrawView> {
    match browser.mode {
        BrowserModeView::PasswordPrompt(input) => password_prompt(browser.alias, input, area),
        BrowserModeView::Creating(input) => mkdir_prompt(input, area),
        BrowserModeView::ConfirmTransfer { file, direction } => confirm(
            "Confirm Transfer"@,
            transfer_question(file, direction),
            area,
        ),
        BrowserModeView::ConfirmDelete { name, is_dir } => confirm(
            "Confirm Delete"@,
            delete_question(name, is_dir),
            area,
        ),
        _ => seq![],
    }
}

/// What is shown above the tabs.
pub open spec fn main_view(
    app: AppView,
    terminal: TerminalState,
    percent: u16,
    areas: AreasView,
) -> Seq<DrawView> {
    match app.view {
        screen::View::Hosts => hosts_view(
            app,
            areas.groups,
            areas.hosts,
            areas.details,
            areas.search,
        ),
        screen::View::Session(idx) => if idx < app.sessions.len() {
            session_view(
                app.sessions[idx as int],
                terminal,
                app.selection,
                app.clipboard_notice_until is Some,
                areas.main,
            )
        } else {
            seq![]
        },
        screen::View::FileTransfer(idx) => if idx < app.file_transfers.len() {
            files_view(app.file_transfers[idx as int], percent, areas.files) + browser_window(
                app.file_transfers[idx as int],
                areas.prompt,
            )
        } else {
            seq![]
        },
    }
}

/// The host form, and the SSH options over it while they are open.
pub open spec fn form_view(title: Seq<char>, form: FormView, areas: AreasView) -> Seq<DrawView> {
    form_window(title, form, areas.window, areas.rows) + (match form.extras_editor {
        Some(editor) => extras_view(form, editor, areas.extras, areas.extras_rows),
        None => seq![],
    })
}

/// The window over everything, if there is one.
pub open spec fn mode_window(mode: ModeView, areas: AreasView) -> Seq<DrawView> {
    let area = areas.window;
    match mode {
        ModeView::Adding(form) => form_view("Add Host"@, form, areas),
        ModeView::Editing { form, .. } => form_view("Edit Host"@, form, areas),
        ModeView::ConfirmDelete(alias) => confirm("Confirm Delete"@, host_question(alias), area),
        ModeView::ConfirmDeleteGroup(name) => confirm(
            "Confirm Delete"@,
            group_question(name),
            area,
        ),
        ModeView::AddingGroup(input) => group_prompt("New Group"@, input, area),
        ModeView::EditingGroup { input, .. } => group_prompt("Rename Group"@, input, area),
        ModeView::ConnectError { alias, message } => connect_error(alias, message, area),
        ModeView::TestResult { alias, status } => test_result(alias, status, area),
        ModeView::TabHelp => tab_help(area),
        ModeView::Normal => seq![],
        ModeView::Searching => seq![],
    }
}

/// Everything that is on the screen: what is shown, then the tabs, then the
/// window over both.
pub open spec fn whole_screen(
    app: AppView,
    terminal: TerminalState,
    percent: u16,
    areas: AreasView,
) -> Seq<DrawView> {
    main_view(app, terminal, percent, areas) + (if app.has_tabs() {
        seq![tab_bar(app, areas.tabs)]
    } else {
        seq![]
    }) + mode_window(app.mode, areas)
}

fn none() -> (draws: Vec<Draw>)
    ensures
        draw_views(draws@) == Seq::<DrawView>::empty(),
{
    let draws: Vec<Draw> = Vec::new();
    assert(draw_views(draws@) =~= Seq::empty());
    draws
}

fn render_browser_window(browser: &FileBrowser, area: Rect) -> (draws: Vec<Draw>)
    ensures
        draw_views(draws@) == browser_window(browser@, area),
{
    match &browser.mode {
        FileBrowserMode::PasswordPrompt(input) => {
            render_password_prompt(browser.alias.as_str(), input, area)
        },
        FileBrowserMode::Creating(input) => render_mkdir_prompt(input, area),
        FileBrowserMode::ConfirmTransfer { file, direction } => {
            let question = question_of_transfer(file.as_str(), *direction);
            render_confirm("Confirm Transfer", question.as_str(), area)
        },
        FileBrowserMode::ConfirmDelete { name, is_dir } => {
            let question = question_of_delete(name.as_str(), *is_dir);
            render_confirm("Confirm Delete", question.as_str(), area)
        },
        _ => none(),
    }
}

fn render_form_view(title: &str, form: &FormState, areas: &Areas) -> (draws: Vec<Draw>)
    requires
        areas.rows@.len() == form_row_count(form@),
        form@.extras_editor matches Some(editor) ==> areas.extras_rows@.len() == extras_row_count(
            form@,
            editor,
        ),
    ensures
        draw_views(draws@) == form_view(title@, form@, areas@),
{
    let mut draws = render_form(title, form, areas.window, &areas.rows);
    match form.extras_editor() {
        Some(editor) => {
            append_draws(
                &mut draws,
                render_extras(form, editor, areas.extras, &areas.extras_rows),
            );
        },
        None => {},
    }
    assert(draw_views(draws@) =~= form_view(title@, form@, areas@));
    draws
}

fn render_mode(mode: &Mode, areas: &Areas) -> (draws: Vec<Draw>)
    requires
        mode@.form() matches Some(form) ==> areas.rows@.len() == form_row_count(form) && (
        form.extras_editor matches Some(editor) ==> areas.extras_rows@.len() == extras_row_count(
            form,
            editor,
        )),
    ensures
        draw_views(draws@) == mode_window(mode@, areas@),
{
    match mode {
        Mode::Adding(form) => render_form_view("Add Host", form, areas),
        Mode::Editing { form, .. } => render_form_view("Edit Host", form, areas),
        Mode::ConfirmDelete(alias) => {
            let question = concat3("Delete host '", alias.as_str(), "'?");
            render_confirm("Confirm Delete", question.as_str(), areas.window)
        },
        Mode::ConfirmDeleteGroup(name) => {
            let question = concat3(
                "Delete group '",
                name.as_str(),
                "'?\nHosts will become ungrouped.",
            );
            render_confirm("Confirm Delete", question.as_str(), areas.window)
        },
        Mode::AddingGroup(input) => render_group_input("New Group", input, areas.window),
        Mode::EditingGroup { input, .. } => {
            render_group_input("Rename Group", input, areas.window)
        },
        Mode::ConnectError { alias, message } => {
            render_connect_error(alias.as_str(), message.as_str(), areas.window)
        },
        Mode::TestResult { alias, status } => {
            render_test_result(alias.as_str(), status, areas.window)
        },
        Mode::TabHelp => render_tab_help(areas.window),
        Mode::Normal | Mode::Searching => none(),
    }
}

/// Draws everything in areas that are given. `terminal` is what the terminal of
/// the session that is shown tells, and `percent` how much of the transfer that
/// is shown is done.
pub fn draw_all(app: &App, terminal: TerminalState, percent: u16, areas: &Areas) -> (draws: Vec<Draw>)
    requires
        app@.wf(),
        app@.mode.form() matches Some(form) ==> areas.rows@.len() == form_row_count(form) && (
        form.extras_editor matches Some(editor) ==> areas.extras_rows@.len() == extras_row_count(
            form,
            editor,
        )),
    ensures
        draw_views(draws@) == whole_screen(app@, terminal, percent, areas@),
{
    let mut draws = match app.current_view() {
        screen::View::Hosts => {
            render_hosts_view(app, areas.groups, areas.hosts, areas.details, areas.search)
        },
        screen::View::Session(idx) => render_session_view(app, idx, terminal, areas.main),
        screen::View::FileTransfer(idx) => {
            let browsers = app.browsers();
            if idx < browsers.len() {
                assert(app@.file_transfers[idx as int] == browsers@[idx as int]@);
                let mut draws = render_file_transfer_view(&browsers[idx], percent, areas.files);
                append_draws(&mut draws, render_browser_window(&browsers[idx], areas.prompt));
                draws
            } else {
                none()
            }
        },
    };
    let ghost main = draw_views(draws@);
    assert(main == main_view(app@, terminal, percent, areas@));
    if app.has_tabs() {
        push_draw(&mut draws, render_tab_bar(app, areas.tabs));
    }
    assert(draw_views(draws@) =~= main + (if app@.has_tabs() {
        seq![tab_bar(app@, areas.tabs)]
    } else {
        seq![]
    }));
    append_draws(&mut draws, render_mode(app.mode(), areas));
    draws
}

/// Draws everything in a frame.
pub fn render(app: &App, frame: Rect, terminal: TerminalState, percent: u16) -> (draws: Vec<Draw>)
    requires
        app@.wf(),
    ensures
        exists|areas: AreasView| #[trigger]
            arranged(app@, frame, areas) && draw_views(draws@) == whole_screen(
                app@,
                terminal,
                percent,
                areas,
            ),
{
    let areas = arrange(app, frame);
    let draws = draw_all(app, terminal, percent, &areas);
    assert(arranged(app@, frame, areas@));
    draws
}

/// Everything that is arranged in a frame lies within it.
pub proof fn lemma_areas_lie_within_frame(app: AppView, frame: Rect, areas: AreasView)
    requires
        arranged(app, frame, areas),
    ensures
        within(areas.main, frame),
        within(areas.tabs, frame),
        app.view is Hosts ==> within(areas.groups, frame) && within(areas.hosts, frame) && within(
            areas.details,
            frame,
        ) && within(areas.search, frame),
        app.view matches screen::View::FileTransfer(idx) ==> idx < app.file_transfers.len()
            ==> within(areas.files.local, frame) && within(areas.files.remote, frame) && within(
            areas.files.progress,
            frame,
        ) && within(areas.files.search, frame) && within(areas.files.status, frame) && (prompt_size(
            app.file_transfers[idx as int].mode,
        ) is Some ==> within(areas.prompt, frame)),
        window_size(app.mode) is Some ==> within(areas.window, frame),
        app.mode.form() matches Some(form) ==> form.extras_editor is Some ==> within(
            areas.extras,
            frame,
        ),
{
    let rows = seq![areas.main, areas.tabs];
    assert(within(rows[0], frame) && within(rows[1], frame));
    if app.view is Hosts {
        let panes = choose|panes: Rect| #[trigger] hosts_arranged_in(app, areas, panes);
        let rows = seq![panes, areas.search];
        assert(within(rows[0], areas.main) && within(rows[1], areas.main));
        let columns = seq![areas.groups, areas.hosts, areas.details];
        assert(within(columns[0], panes) && within(columns[1], panes) && within(
            columns[2],
            panes,
        ));
    }
    if let screen::View::FileTransfer(idx) = app.view {
        if idx < app.file_transfers.len() {
            let browser = app.file_transfers[idx as int];
            let files = areas.files;
            let panes = choose|panes: Rect| #[trigger]
                files_arranged_in(browser, areas.main, files, panes);
            let rows = seq![panes, files.progress, files.search, files.status];
            assert(within(rows[0], areas.main) && within(rows[1], areas.main) && within(
                rows[2],
                areas.main,
            ) && within(rows[3], areas.main));
            let columns = seq![files.local, files.remote];
            assert(within(columns[0], panes) && within(columns[1], panes));
            if let Some(size) = prompt_size(browser.mode) {
                lemma_centered_is_within(areas.prompt, size.0, size.1, frame);
            }
        }
    }
    if let Some(size) = window_size(app.mode) {
        lemma_centered_is_within(areas.window, size.0, size.1, frame);
    }
    if let Some(form) = app.mode.form() {
        if let Some(editor) = form.extras_editor {
            lemma_centered_is_within(areas.extras, 60, extras_height(form, editor), frame);
        }
    }
}

proof fn lemma_centered_is_within(rect: Rect, width: u16, height: u16, area: Rect)
    requires
        is_centered(rect, width, height, area),
    ensures
        within(rect, area),
{
    let column = choose|column: Rect| #[trigger]
        is_centered_in(rect, width, height, area, column);
    let columns = seq![column];
    let rects = seq![rect];
    assert(within(columns[0], area) && within(rects[0], column));
}

} // verus!
