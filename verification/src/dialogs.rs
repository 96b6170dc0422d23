//! The windows that are drawn over the rest of the screen.
use vstd::prelude::*;
use crate::app::{InputState, InputStateView, TestStatus, TestStatusView};
use crate::file_panes::byte_len;
use crate::form::{
    field_views, EditorView, EntryFormView, ExtraEntryForm, ExtraField, ExtrasEditor, FormState,
    FormView,
};
use crate::input::{input_view, InputView};
use crate::model::{opt_text, pair_texts};
use crate::scene::{
    bold, bold_style, centered, centered_line, cursor_at, draw_views, empty_line, fg, fg_style,
    hint_line, hint_texts, hints, line_of, line_of2, line_of4, line_views, mark, mark_style, marked,
    marked_line, pad_left, padded, plain, plain_line, plain_style, push_cursor, push_draw,
    push_line, raw, raw_span, repeat, repeated, space, spaced, split_lines, styled, styled_span,
    text_at, text_lines, thick, thick_block, write_at, BlockView, Color, Draw, DrawView, Line,
    LineView, Rect,
};
use crate::text::{concat, concat3, decimal, decimal_string};
use tui_input::Input;

verus! {

/// A window with one input behind a prompt, which is so many columns wide.
pub open spec fn prompt(
    block: BlockView,
    label: Seq<char>,
    columns: u16,
    shown: Seq<char>,
    input: InputView,
    area: Rect,
) -> Seq<DrawView> {
    let line = plain_line(seq![styled_span(label, bold_style(Color::Cyan)), raw_span(shown)]);
    seq![
        DrawView::Clear(area),
        DrawView::Panel { area, block },
        text_at(area.inside(), line),
    ] + cursor_at(area.inside(), columns, input.column())
}

/// The window that asks for a password. It shows one star for each byte.
pub open spec fn password_prompt(alias: Seq<char>, input: InputView, area: Rect) -> Seq<DrawView> {
    prompt(
        thick_block(
            " Passphrase/Password for "@ + alias + " "@,
            Some(hint_line(seq![(" Enter "@, "Submit"@), (" Esc "@, "Cancel"@)])),
            fg_style(Color::Yellow),
        ),
        "Password: "@,
        10,
        repeated('*', byte_len(input.text) as nat),
        input,
        area,
    )
}

/// The window that asks for the name of a new directory.
pub open spec fn mkdir_prompt(input: InputView, area: Rect) -> Seq<DrawView> {
    prompt(
        thick_block(
            " Create Directory "@,
            Some(hint_line(seq![(" Enter "@, "Create"@), (" Esc "@, "Cancel"@)])),
            plain_style(),
        ),
        "Name: "@,
        6,
        input.text,
        input,
        area,
    )
}

/// Draws the window that asks for a password.
pub fn render_password_prompt(alias: &str, input: &Input, area: Rect) -> (draws: Vec<Draw>)
    ensures
        draw_views(draws@) == password_prompt(alias@, input_view(*input), area),
{
    let label = concat3(" Passphrase/Password for ", alias, " ");
    let keys = vec![(" Enter ", "Submit"), (" Esc ", "Cancel")];
    assert(hint_texts(keys@) =~= seq![(" Enter "@, "Submit"@), (" Esc "@, "Cancel"@)]);
    let block = thick(label.as_str(), Some(hints(keys)), fg(Color::Yellow));
    let stars = repeat('*', input.value().len());
    let mut draws: Vec<Draw> = Vec::new();
    push_draw(&mut draws, Draw::Clear(area));
    push_draw(&mut draws, Draw::Panel { area, block });
    let line = line_of2(styled("Password: ", bold(Color::Cyan)), raw(stars.as_str()));
    push_draw(&mut draws, write_at(area.inner(), line));
    push_cursor(&mut draws, area.inner(), 10, input.visual_cursor());
    assert(draw_views(draws@) =~= password_prompt(alias@, input_view(*input), area));
    draws
}

/// Draws the window that asks for the name of a new directory.
pub fn render_mkdir_prompt(input: &Input, area: Rect) -> (draws: Vec<Draw>)
    ensures
        draw_views(draws@) == mkdir_prompt(input_view(*input), area),
{
    let keys = vec![(" Enter ", "Create"), (" Esc ", "Cancel")];
    assert(hint_texts(keys@) =~= seq![(" Enter "@, "Create"@), (" Esc "@, "Cancel"@)]);
    let block = thick(" Create Directory ", Some(hints(keys)), plain());
    let mut draws: Vec<Draw> = Vec::new();
    push_draw(&mut draws, Draw::Clear(area));
    push_draw(&mut draws, Draw::Panel { area, block });
    let line = line_of2(styled("Name: ", bold(Color::Cyan)), raw(input.value()));
    push_draw(&mut draws, write_at(area.inner(), line));
    push_cursor(&mut draws, area.inner(), 6, input.visual_cursor());
    assert(draw_views(draws@) =~= mkdir_prompt(input_view(*input), area));
    draws
}

/// The lines of a group's input: the name, and what is wrong with it.
pub open spec fn group_input_lines(input: InputStateView) -> Seq<LineView> {
    let name = plain_line(
        seq![styled_span("Name: "@, bold_style(Color::Cyan)), raw_span(input.buffer.text)],
    );
    match input.error {
        Some(error) => seq![
            name,
            plain_line(seq![]),
            plain_line(seq![styled_span(error, bold_style(Color::Red))]),
        ],
        None => seq![name],
    }
}

/// The window that asks for the name of a group.
pub open spec fn group_prompt(title: Seq<char>, input: InputStateView, area: Rect) -> Seq<DrawView> {
    seq![
        DrawView::Clear(area),
        DrawView::Panel { area, block: thick_block(spaced(title), None, plain_style()) },
        DrawView::Text { area: area.inside(), lines: group_input_lines(input), border: None },
    ] + cursor_at(area.inside(), 6, input.buffer.column())
}

/// Draws the window that asks for the name of a group.
pub fn render_group_input(title: &str, input: &InputState, area: Rect) -> (draws: Vec<Draw>)
    ensures
        draw_views(draws@) == group_prompt(title@, input@, area),
{
    let label = space(title);
    let mut lines: Vec<Line> = Vec::new();
    push_line(
        &mut lines,
        line_of2(styled("Name: ", bold(Color::Cyan)), raw(input.buffer.value())),
    );
    if let Some(error) = &input.error {
        push_line(&mut lines, empty_line());
        push_line(&mut lines, line_of(styled(error.as_str(), bold(Color::Red))));
    }
    assert(line_views(lines@) =~= group_input_lines(input@));
    let mut draws: Vec<Draw> = Vec::new();
    push_draw(&mut draws, Draw::Clear(area));
    push_draw(&mut draws, Draw::Panel { area, block: thick(label.as_str(), None, plain()) });
    push_draw(&mut draws, Draw::Text { area: area.inner(), lines, border: None });
    push_cursor(&mut draws, area.inner(), 6, input.buffer.visual_cursor());
    assert(draw_views(draws@) =~= group_prompt(title@, input@, area));
    draws
}

// ---------------------------------------------------------------------------
// Questions and messages
// ---------------------------------------------------------------------------

/// A window with some lines in it.
pub open spec fn window(area: Rect, lines: Seq<LineView>, block: BlockView) -> Seq<DrawView> {
    seq![DrawView::Clear(area), DrawView::Text { area, lines, border: Some(block) }]
}

/// The window that asks whether to go on.
pub open spec fn confirm(title: Seq<char>, message: Seq<char>, area: Rect) -> Seq<DrawView> {
    window(
        area,
        text_lines(message).map_values(|l: Seq<char>| plain_line(seq![raw_span(l)])) + seq![
            plain_line(seq![]),
            plain_line(
                seq![
                    raw_span(" y "@),
                    styled_span("Yes"@, bold_style(Color::Red)),
                    raw_span("  n "@),
                    styled_span("No"@, bold_style(Color::Blue)),
                ],
            ),
        ],
        thick_block(spaced(title), None, plain_style()),
    )
}

/// How high the window is that asks a question.
pub open spec fn confirm_height(message: Seq<char>) -> u16 {
    let lines = text_lines(message).len() as u16;
    if lines > 65531 {
        65535
    } else {
        (lines + 4) as u16
    }
}

/// How high the window is that asks a question.
pub fn height_of_confirm(message: &str) -> (height: u16)
    ensures
        height == confirm_height(message@),
{
    let lines = split_lines(message);
    assert(lines@.map_values(|s: String| s@).len() == lines@.len());
    (lines.len() as u16).saturating_add(4)
}

/// Draws the window that asks whether to go on.
pub fn render_confirm(title: &str, message: &str, area: Rect) -> (draws: Vec<Draw>)
    ensures
        draw_views(draws@) == confirm(title@, message@, area),
{
    let label = space(title);
    let texts = split_lines(message);
    let ghost views = text_lines(message@);
    let ghost shown = views.map_values(|l: Seq<char>| plain_line(seq![raw_span(l)]));
    let mut lines: Vec<Line> = Vec::new();
    assert(line_views(lines@) =~= shown.take(0));
    assert(views.len() == texts@.len());
    for i in 0..texts.len()
        invariant
            views == texts@.map_values(|s: String| s@),
            shown == views.map_values(|l: Seq<char>| plain_line(seq![raw_span(l)])),
            line_views(lines@) == shown.take(i as int),
    {
        assert(views[i as int] == texts@[i as int]@);
        push_line(&mut lines, line_of(raw(texts[i].as_str())));
        assert(shown.take(i + 1) =~= shown.take(i as int).push(shown[i as int]));
    }
    assert(shown.take(shown.len() as int) =~= shown);
    push_line(&mut lines, empty_line());
    push_line(
        &mut lines,
        line_of4(
            raw(" y "),
            styled("Yes", bold(Color::Red)),
            raw("  n "),
            styled("No", bold(Color::Blue)),
        ),
    );
    let block = thick(label.as_str(), None, plain());
    let mut draws: Vec<Draw> = Vec::new();
    push_draw(&mut draws, Draw::Clear(area));
    assert(confirm(title@, message@, area)[1]->Text_lines =~= line_views(lines@));
    push_draw(&mut draws, Draw::Text { area, lines, border: Some(block) });
    assert(draw_views(draws@) =~= confirm(title@, message@, area));
    draws
}

/// Three lines: a heading, nothing, and a message in a colour.
pub open spec fn told_lines(heading: Seq<char>, message: Seq<char>, color: Color) -> Seq<LineView> {
    seq![
        plain_line(seq![raw_span(heading)]),
        plain_line(seq![]),
        plain_line(seq![styled_span(message, fg_style(color))]),
    ]
}

/// A window that tells something about a host.
pub open spec fn told_window(
    title: Seq<char>,
    key: Seq<char>,
    action: Seq<char>,
    heading: Seq<char>,
    message: Seq<char>,
    color: Color,
    area: Rect,
) -> Seq<DrawView> {
    window(
        area,
        told_lines(heading, message, color),
        thick_block(title, Some(hint_line(seq![(key, action)])), fg_style(color)),
    )
}

/// The window that tells that a session could not be opened.
pub open spec fn connect_error(alias: Seq<char>, message: Seq<char>, area: Rect) -> Seq<DrawView> {
    told_window(
        " Connection Failed "@,
        " Enter/Esc "@,
        "Dismiss"@,
        "Could not reach '"@ + alias + "':"@,
        message,
        Color::Red,
        area,
    )
}

/// The window that tells whether a host can be reached.
pub open spec fn test_result(alias: Seq<char>, status: TestStatusView, area: Rect) -> Seq<DrawView> {
    let heading = "Host '"@ + alias + "':"@;
    match status {
        TestStatusView::Testing => told_window(
            " Testing Connection "@,
            " Esc "@,
            "Cancel"@,
            heading,
            "Connecting..."@,
            Color::Yellow,
            area,
        ),
        TestStatusView::Done { success, message } => if success {
            told_window(
                " Reachable "@,
                " Enter/Esc "@,
                "Dismiss"@,
                heading,
                message,
                Color::Green,
                area,
            )
        } else {
            told_window(
                " Unreachable "@,
                " Enter/Esc "@,
                "Dismiss"@,
                heading,
                message,
                Color::Red,
                area,
            )
        },
    }
}

fn tell(
    title: &str,
    key: &str,
    action: &str,
    heading: &str,
    message: &str,
    color: Color,
    area: Rect,
) -> (draws: Vec<Draw>)
    ensures
        draw_views(draws@) == told_window(
            title@,
            key@,
            action@,
            heading@,
            message@,
            color,
            area,
        ),
{
    let keys = vec![(key, action)];
    assert(hint_texts(keys@) =~= seq![(key@, action@)]);
    let block = thick(title, Some(hints(keys)), fg(color));
    let mut lines: Vec<Line> = Vec::new();
    push_line(&mut lines, line_of(raw(heading)));
    push_line(&mut lines, empty_line());
    push_line(&mut lines, line_of(styled(message, fg(color))));
    assert(line_views(lines@) =~= told_lines(heading@, message@, color));
    let mut draws: Vec<Draw> = Vec::new();
    push_draw(&mut draws, Draw::Clear(area));
    push_draw(&mut draws, Draw::Text { area, lines, border: Some(block) });
    assert(draw_views(draws@) =~= told_window(
        title@,
        key@,
        action@,
        heading@,
        message@,
        color,
        area,
    ));
    draws
}

/// Draws the window that tells that a session could not be opened.
pub fn render_connect_error(alias: &str, message: &str, area: Rect) -> (draws: Vec<Draw>)
    ensures
        draw_views(draws@) == connect_error(alias@, message@, area),
{
    let heading = concat3("Could not reach '", alias, "':");
    tell(
        " Connection Failed ",
        " Enter/Esc ",
        "Dismiss",
        heading.as_str(),
        message,
        Color::Red,
        area,
    )
}

/// Draws the window that tells whether a host can be reached.
pub fn render_test_result(alias: &str, status: &TestStatus, area: Rect) -> (draws: Vec<Draw>)
    ensures
        draw_views(draws@) == test_result(alias@, status@, area),
{
    let heading = concat3("Host '", alias, "':");
    let heading = heading.as_str();
    match status {
        TestStatus::Testing => tell(
            " Testing Connection ",
            " Esc ",
            "Cancel",
            heading,
            "Connecting...",
            Color::Yellow,
            area,
        ),
        TestStatus::Done { success, message } => if *success {
            tell(
                " Reachable ",
                " Enter/Esc ",
                "Dismiss",
                heading,
                message.as_str(),
                Color::Green,
                area,
            )
        } else {
            tell(
                " Unreachable ",
                " Enter/Esc ",
                "Dismiss",
                heading,
                message.as_str(),
                Color::Red,
                area,
            )
        },
    }
}

/// A line of the help: a key, and what it does.
pub open spec fn help_line(key: Seq<char>, action: Seq<char>) -> LineView {
    plain_line(seq![styled_span(key, bold_style(Color::Yellow)), raw_span(action)])
}

/// The window that tells the keys of tabs.
pub open spec fn tab_help(area: Rect) -> Seq<DrawView> {
    window(
        area,
        seq![
            help_line("^T h  "@, "Switch to hosts"@),
            help_line("^T 1-9"@, " Switch to tab N"@),
            help_line("^T n  "@, "Next tab"@),
            help_line("^T p  "@, "Previous tab"@),
            help_line("^T x  "@, "Close current tab"@),
            help_line("^T f  "@, "File transfer (from session)"@),
            help_line("^T s  "@, "New local shell"@),
            help_line("^T ^T "@, "Send literal ^T"@),
        ],
        thick_block(
            " Tab Keys "@,
            Some(hint_line(seq![(" any key "@, "Dismiss"@)])),
            fg_style(Color::Cyan),
        ),
    )
}

fn line_of_help(key: &str, action: &str) -> (l: Line)
    ensures
        l@ == help_line(key@, action@),
{
    line_of2(styled(key, bold(Color::Yellow)), raw(action))
}

/// Draws the window that tells the keys of tabs.
pub fn render_tab_help(area: Rect) -> (draws: Vec<Draw>)
    ensures
        draw_views(draws@) == tab_help(area),
{
    let lines = vec![
        line_of_help("^T h  ", "Switch to hosts"),
        line_of_help("^T 1-9", " Switch to tab N"),
        line_of_help("^T n  ", "Next tab"),
        line_of_help("^T p  ", "Previous tab"),
        line_of_help("^T x  ", "Close current tab"),
        line_of_help("^T f  ", "File transfer (from session)"),
        line_of_help("^T s  ", "New local shell"),
        line_of_help("^T ^T ", "Send literal ^T"),
    ];
    let keys = vec![(" any key ", "Dismiss")];
    assert(hint_texts(keys@) =~= seq![(" any key "@, "Dismiss"@)]);
    let block = thick(" Tab Keys ", Some(hints(keys)), fg(Color::Cyan));
    let mut draws: Vec<Draw> = Vec::new();
    push_draw(&mut draws, Draw::Clear(area));
    assert(tab_help(area)[1]->Text_lines =~= line_views(lines@));
    push_draw(&mut draws, Draw::Text { area, lines, border: Some(block) });
    assert(draw_views(draws@) =~= tab_help(area));
    draws
}

// ---------------------------------------------------------------------------
// Forms
// ---------------------------------------------------------------------------

/// The line of a field, with its label so many characters wide.
pub open spec fn field_line(label: Seq<char>, width: nat, input: InputView, active: bool) -> LineView {
    plain_line(
        seq![
            styled_span(
                padded(label, width) + ": "@,
                if active {
                    bold_style(Color::Cyan)
                } else {
                    fg_style(Color::Gray)
                },
            ),
            styled_span(
                input.text,
                fg_style(
                    if active {
                        Color::White
                    } else {
                        Color::DarkGray
                    },
                ),
            ),
        ],
    )
}

/// A field in its row, with the cursor while it is active.
pub open spec fn field_row(
    row: Rect,
    label: Seq<char>,
    width: u16,
    input: InputView,
    active: bool,
) -> Seq<DrawView> {
    seq![text_at(row, field_line(label, width as nat, input, active))] + if active {
        cursor_at(row, (width + 2) as u16, input.column())
    } else {
        seq![]
    }
}

/// The line of an error in a form.
pub open spec fn form_error(indent: Seq<char>, message: Seq<char>) -> LineView {
    plain_line(seq![styled_span(indent + message, bold_style(Color::Red))])
}

/// The first fields of the host form.
pub open spec fn form_fields(form: FormView, rows: Seq<Rect>, n: nat) -> Seq<DrawView>
    decreases n,
{
    if n == 0 {
        seq![]
    } else {
        let (field, input) = form.fields[n - 1];
        form_fields(form, rows, (n - 1) as nat) + field_row(
            rows[n - 1],
            field.label_text(),
            15,
            input,
            n - 1 == form.active,
        )
    }
}

/// The keys of the host form.
pub open spec fn form_keys(form: FormView) -> LineView {
    centered_line(
        seq![
            raw_span(" Tab "@),
            styled_span("Next"@, bold_style(Color::Blue)),
            raw_span(" Enter "@),
            styled_span("Save"@, bold_style(Color::Blue)),
            raw_span(" Ctrl+K Extras ("@ + decimal(form.extras.len()) + ") "@),
            raw_span(" Esc "@),
            styled_span("Cancel "@, bold_style(Color::Blue)),
        ],
    )
}

/// The host form, with a row for each field, and one for an error.
pub open spec fn form_window(title: Seq<char>, form: FormView, area: Rect, rows: Seq<Rect>) -> Seq<
    DrawView,
> {
    seq![
        DrawView::Clear(area),
        DrawView::Panel {
            area,
            block: thick_block(spaced(title), Some(form_keys(form)), plain_style()),
        },
    ] + form_fields(form, rows, form.fields.len()) + (match form.error {
        Some(error) => seq![text_at(rows[form.fields.len() as int], form_error("  "@, error))],
        None => seq![],
    })
}

/// The list of SSH options: one row for each, and one for an error.
pub open spec fn extras_rows(form: FormView, editor: EditorView, rows: Seq<Rect>) -> Seq<DrawView> {
    if form.extras.len() == 0 {
        seq![
            text_at(
                rows[0],
                plain_line(
                    seq![
                        styled_span(
                            "  (no extras — press 'a' to add)"@,
                            fg_style(Color::DarkGray),
                        ),
                    ],
                ),
            ),
        ]
    } else {
        Seq::new(
            form.extras.len(),
            |i: int|
                text_at(
                    rows[i],
                    marked_line(
                        " "@ + form.extras[i].0 + " = "@ + form.extras[i].1,
                        if i == editor.selected {
                            mark_style(Color::Cyan)
                        } else {
                            plain_style()
                        },
                    ),
                ),
        ) + (match editor.error {
            Some(error) => seq![text_at(rows[form.extras.len() as int], form_error(" "@, error))],
            None => seq![],
        })
    }
}

/// The window with the SSH options.
pub open spec fn extras_window(
    form: FormView,
    editor: EditorView,
    area: Rect,
    rows: Seq<Rect>,
) -> Seq<DrawView> {
    seq![
        DrawView::Clear(area),
        DrawView::Panel {
            area,
            block: thick_block(
                " Extras "@,
                Some(
                    hint_line(
                        seq![
                            (" a "@, "Add"@),
                            (" e "@, "Edit"@),
                            (" d "@, "Del"@),
                            (" Esc "@, "Close"@),
                        ],
                    ),
                ),
                plain_style(),
            ),
        },
    ] + extras_rows(form, editor, rows)
}

/// The window with the editor of one SSH option.
pub open spec fn entry_window(
    entry: EntryFormView,
    error: Option<Seq<char>>,
    area: Rect,
    rows: Seq<Rect>,
) -> Seq<DrawView> {
    seq![
        DrawView::Clear(area),
        DrawView::Panel {
            area,
            block: thick_block(
                if entry.editing_index is Some {
                    " Edit Extra "@
                } else {
                    " New Extra "@
                },
                Some(
                    hint_line(
                        seq![(" Tab "@, "Switch"@), (" Enter "@, "Save"@), (" Esc "@, "Cancel"@)],
                    ),
                ),
                plain_style(),
            ),
        },
    ] + field_row(rows[0], "Key"@, 7, entry.key, entry.active is Key) + field_row(
        rows[1],
        "Value"@,
        7,
        entry.value,
        entry.active is Value,
    ) + (match error {
        Some(error) => seq![text_at(rows[2], form_error("  "@, error))],
        None => seq![],
    })
}

/// The SSH options: the editor of one of them while it is open, or else the list.
pub open spec fn extras_view(form: FormView, editor: EditorView, area: Rect, rows: Seq<Rect>) -> Seq<
    DrawView,
> {
    match editor.entry {
        Some(entry) => entry_window(entry, editor.error, area, rows),
        None => extras_window(form, editor, area, rows),
    }
}

fn push_field(out: &mut Vec<Draw>, row: Rect, label: &str, width: u16, input: &Input, active: bool)
    requires
        width < 65533,
    ensures
        draw_views(final(out)@) == draw_views(old(out)@) + field_row(
            row,
            label@,
            width,
            input_view(*input),
            active,
        ),
{
    let name = pad_left(label, width as usize);
    let name = concat(name.as_str(), ": ");
    let (name_style, value_style) = if active {
        (bold(Color::Cyan), fg(Color::White))
    } else {
        (fg(Color::Gray), fg(Color::DarkGray))
    };
    let line = line_of2(styled(name.as_str(), name_style), styled(input.value(), value_style));
    push_draw(out, write_at(row, line));
    if active {
        push_cursor(out, row, width + 2, input.visual_cursor());
    }
    assert(draw_views(out@) =~= draw_views(old(out)@) + field_row(
        row,
        label@,
        width,
        input_view(*input),
        active,
    ));
}

fn push_error(out: &mut Vec<Draw>, row: Rect, indent: &str, message: &str)
    ensures
        draw_views(final(out)@) == draw_views(old(out)@) + seq![
            text_at(row, form_error(indent@, message@)),
        ],
{
    let told = concat(indent, message);
    push_draw(out, write_at(row, line_of(styled(told.as_str(), bold(Color::Red)))));
    assert(draw_views(out@) =~= draw_views(old(out)@) + seq![
        text_at(row, form_error(indent@, message@)),
    ]);
}

/// How many rows the host form needs.
pub open spec fn form_row_count(form: FormView) -> nat {
    form.fields.len() + if form.error is Some {
        1nat
    } else {
        0
    }
}

/// How many rows the SSH options need.
pub open spec fn extras_row_count(form: FormView, editor: EditorView) -> nat {
    let error: nat = if editor.error is Some {
        1
    } else {
        0
    };
    if editor.entry is Some {
        2 + error
    } else if form.extras.len() == 0 {
        1
    } else {
        form.extras.len() + error
    }
}

fn line_of_form_keys(form: &FormState) -> (l: Line)
    ensures
        l@ == form_keys(form@),
{
    let extras = form.extras();
    assert(pair_texts(extras@).len() == extras@.len());
    let count = decimal_string(extras.len() as u64);
    let extras = concat3(" Ctrl+K Extras (", count.as_str(), ") ");
    let spans = vec![
        raw(" Tab "),
        styled("Next", bold(Color::Blue)),
        raw(" Enter "),
        styled("Save", bold(Color::Blue)),
        raw(extras.as_str()),
        raw(" Esc "),
        styled("Cancel ", bold(Color::Blue)),
    ];
    let l = centered(spans);
    assert(l@ =~= form_keys(form@));
    l
}

/// Draws the host form.
pub fn render_form(title: &str, form: &FormState, area: Rect, rows: &Vec<Rect>) -> (draws: Vec<Draw>)
    requires
        rows@.len() == form_row_count(form@),
    ensures
        draw_views(draws@) == form_window(title@, form@, area, rows@),
{
    let label = space(title);
    let block = thick(label.as_str(), Some(line_of_form_keys(form)), plain());
    let mut draws: Vec<Draw> = Vec::new();
    push_draw(&mut draws, Draw::Clear(area));
    push_draw(&mut draws, Draw::Panel { area, block });
    let ghost first = draw_views(draws@);
    assert(first =~= seq![DrawView::Clear(area), DrawView::Panel { area, block: block@ }]);
    let fields = form.fields();
    let active = form.active_field();
    assert(field_views(fields@).len() == fields@.len());
    assert(first =~= first + form_fields(form@, rows@, 0));
    for i in 0..fields.len()
        invariant
            fields@.len() <= rows@.len(),
            field_views(fields@) == form@.fields,
            active == form@.active,
            draw_views(draws@) == first + form_fields(form@, rows@, i as nat),
    {
        assert(form@.fields[i as int] == (fields@[i as int].0, input_view(fields@[i as int].1)));
        push_field(&mut draws, rows[i], fields[i].0.label(), 15, &fields[i].1, i == active);
        assert(draw_views(draws@) =~= first + form_fields(form@, rows@, (i + 1) as nat));
    }
    if let Some(error) = form.error() {
        push_error(&mut draws, rows[fields.len()], "  ", error.as_str());
    }
    assert(draw_views(draws@) =~= form_window(title@, form@, area, rows@));
    draws
}

fn push_extras_rows(out: &mut Vec<Draw>, form: &FormState, editor: &ExtrasEditor, rows: &Vec<Rect>)
    requires
        editor@.entry is None,
        rows@.len() == extras_row_count(form@, editor@),
    ensures
        draw_views(final(out)@) == draw_views(old(out)@) + extras_rows(form@, editor@, rows@),
{
    let extras = form.extras();
    let ghost start = draw_views(out@);
    let ghost views = form@.extras;
    assert(views.len() == extras@.len());
    if extras.len() == 0 {
        let none = line_of(styled("  (no extras — press 'a' to add)", fg(Color::DarkGray)));
        push_draw(out, write_at(rows[0], none));
        assert(draw_views(out@) =~= start + extras_rows(form@, editor@, rows@));
    } else {
        let ghost shown = Seq::new(
            views.len(),
            |i: int|
                text_at(
                    rows@[i],
                    marked_line(
                        " "@ + views[i].0 + " = "@ + views[i].1,
                        if i == editor@.selected {
                            mark_style(Color::Cyan)
                        } else {
                            plain_style()
                        },
                    ),
                ),
        );
        assert(start =~= start + shown.take(0));
        for i in 0..extras.len()
            invariant
                extras@.len() <= rows@.len(),
                views == pair_texts(extras@),
                shown == Seq::new(
                    views.len(),
                    |i: int|
                        text_at(
                            rows@[i],
                            marked_line(
                                " "@ + views[i].0 + " = "@ + views[i].1,
                                if i == editor@.selected {
                                    mark_style(Color::Cyan)
                                } else {
                                    plain_style()
                                },
                            ),
                        ),
                ),
                draw_views(out@) == start + shown.take(i as int),
        {
            let name = concat3(" ", extras[i].0.as_str(), " = ");
            let row = concat(name.as_str(), extras[i].1.as_str());
            let style = if i == editor.selected {
                mark(Color::Cyan)
            } else {
                plain()
            };
            push_draw(out, write_at(rows[i], marked(row.as_str(), style)));
            assert(shown.take(i + 1) =~= shown.take(i as int).push(shown[i as int]));
            assert(draw_views(out@) =~= start + shown.take(i + 1));
        }
        assert(shown.take(shown.len() as int) =~= shown);
        if let Some(error) = &editor.error {
            push_error(out, rows[extras.len()], " ", error.as_str());
        }
        assert(draw_views(out@) =~= start + extras_rows(form@, editor@, rows@));
    }
}

/// Draws the editor of one SSH option.
pub fn render_extras_entry(
    entry: &ExtraEntryForm,
    error: &Option<String>,
    area: Rect,
    rows: &Vec<Rect>,
) -> (draws: Vec<Draw>)
    requires
        rows@.len() == if error is Some {
            3int
        } else {
            2
        },
    ensures
        draw_views(draws@) == entry_window(entry@, opt_text(*error), area, rows@),
{
    let keys = vec![(" Tab ", "Switch"), (" Enter ", "Save"), (" Esc ", "Cancel")];
    assert(hint_texts(keys@) =~= seq![
        (" Tab "@, "Switch"@),
        (" Enter "@, "Save"@),
        (" Esc "@, "Cancel"@),
    ]);
    let label = if entry.editing_index.is_some() {
        " Edit Extra "
    } else {
        " New Extra "
    };
    let block = thick(label, Some(hints(keys)), plain());
    let mut draws: Vec<Draw> = Vec::new();
    push_draw(&mut draws, Draw::Clear(area));
    push_draw(&mut draws, Draw::Panel { area, block });
    assert(draw_views(draws@) =~= seq![
        DrawView::Clear(area),
        DrawView::Panel { area, block: block@ },
    ]);
    push_field(&mut draws, rows[0], "Key", 7, &entry.key, entry.active == ExtraField::Key);
    push_field(&mut draws, rows[1], "Value", 7, &entry.value, entry.active == ExtraField::Value);
    if let Some(error) = error {
        push_error(&mut draws, rows[2], "  ", error.as_str());
    }
    assert(draw_views(draws@) =~= entry_window(entry@, opt_text(*error), area, rows@));
    draws
}

/// Draws the SSH options.
pub fn render_extras(form: &FormState, editor: &ExtrasEditor, area: Rect, rows: &Vec<Rect>) -> (draws:
    Vec<Draw>)
    requires
        rows@.len() == extras_row_count(form@, editor@),
    ensures
        draw_views(draws@) == extras_view(form@, editor@, area, rows@),
{
    if let Some(entry) = &editor.entry {
        return render_extras_entry(entry, &editor.error, area, rows);
    }
    let keys = vec![(" a ", "Add"), (" e ", "Edit"), (" d ", "Del"), (" Esc ", "Close")];
    assert(hint_texts(keys@) =~= seq![
        (" a "@, "Add"@),
        (" e "@, "Edit"@),
        (" d "@, "Del"@),
        (" Esc "@, "Close"@),
    ]);
    let block = thick(" Extras ", Some(hints(keys)), plain());
    let mut draws: Vec<Draw> = Vec::new();
    push_draw(&mut draws, Draw::Clear(area));
    push_draw(&mut draws, Draw::Panel { area, block });
    assert(draw_views(draws@) =~= seq![
        DrawView::Clear(area),
        DrawView::Panel { area, block: block@ },
    ]);
    push_extras_rows(&mut draws, form, editor, rows);
    draws
}

} // verus!
