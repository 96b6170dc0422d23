//! What is drawn: rectangles, styled text, and the commands that draw them.
use vstd::prelude::*;
use crate::screen::ScreenPos;
use crate::text::{chars_of, concat3, string_of};
use ratatui::layout::{Constraint as C, Direction as D, Flex as F, Layout, Rect as R};

verus! {

/// A rectangle of the screen.
#[derive(Debug, Clone, Copy, PartialEq, Eq, Structural)]
pub struct Rect {
    pub x: u16,
    pub y: u16,
    pub width: u16,
    pub height: u16,
}

impl Rect {
    /// What a border leaves of a rectangle.
    pub open spec fn inside(self) -> Rect {
        let right = if self.x + self.width > u16::MAX {
            u16::MAX as int
        } else {
            self.x + self.width
        };
        let bottom = if self.y + self.height > u16::MAX {
            u16::MAX as int
        } else {
            self.y + self.height
        };
        Rect {
            x: (if self.x + 1 < right {
                self.x + 1
            } else {
                right
            }) as u16,
            y: (if self.y + 1 < bottom {
                self.y + 1
            } else {
                bottom
            }) as u16,
            width: (if self.width < 2 {
                0
            } else {
                self.width - 2
            }) as u16,
            height: (if self.height < 2 {
                0
            } else {
                self.height - 2
            }) as u16,
        }
    }

    /// The rectangle inside a border.
    pub fn inner(self) -> (r: Rect)
        ensures
            r == self.inside(),
    {
        let right = self.x.saturating_add(self.width);
        let bottom = self.y.saturating_add(self.height);
        let x = self.x.saturating_add(1);
        let y = self.y.saturating_add(1);
        Rect {
            x: if x < right {
                x
            } else {
                right
            },
            y: if y < bottom {
                y
            } else {
                bottom
            },
            width: self.width.saturating_sub(2),
            height: self.height.saturating_sub(2),
        }
    }
}

/// Where a border has room, what is inside it lies strictly within.
pub proof fn lemma_inside_is_within(area: Rect)
    requires
        area.width >= 2,
        area.height >= 2,
        area.x + area.width <= u16::MAX,
        area.y + area.height <= u16::MAX,
    ensures
        area.inside().x == area.x + 1,
        area.inside().y == area.y + 1,
        area.inside().x + area.inside().width == area.x + area.width - 1,
        area.inside().y + area.inside().height == area.y + area.height - 1,
{
}

/// A colour.
#[derive(Debug, Clone, Copy, PartialEq, Eq, Structural)]
pub enum Color {
    Black,
    Red,
    Green,
    Yellow,
    Blue,
    Magenta,
    Cyan,
    Gray,
    DarkGray,
    White,
}

/// The style of a text.
#[derive(Debug, Clone, Copy, PartialEq, Eq, Structural)]
pub struct Style {
    pub fg: Option<Color>,
    pub bg: Option<Color>,
    pub bold: bool,
}

/// No style.
pub open spec fn plain_style() -> Style {
    Style { fg: None, bg: None, bold: false }
}

/// A colour alone.
pub open spec fn fg_style(color: Color) -> Style {
    Style { fg: Some(color), bg: None, bold: false }
}

/// A colour in bold.
pub open spec fn bold_style(color: Color) -> Style {
    Style { fg: Some(color), bg: None, bold: true }
}

/// Bold, in no colour of its own.
pub open spec fn strong_style() -> Style {
    Style { fg: None, bg: None, bold: true }
}

/// Black in bold on a colour.
pub open spec fn mark_style(color: Color) -> Style {
    Style { fg: Some(Color::Black), bg: Some(color), bold: true }
}

/// No style.
pub fn plain() -> (s: Style)
    ensures
        s == plain_style(),
{
    Style { fg: None, bg: None, bold: false }
}

/// A colour alone.
pub fn fg(color: Color) -> (s: Style)
    ensures
        s == fg_style(color),
{
    Style { fg: Some(color), bg: None, bold: false }
}

/// A colour in bold.
pub fn bold(color: Color) -> (s: Style)
    ensures
        s == bold_style(color),
{
    Style { fg: Some(color), bg: None, bold: true }
}

/// Bold, in no colour of its own.
pub fn strong() -> (s: Style)
    ensures
        s == strong_style(),
{
    Style { fg: None, bg: None, bold: true }
}

/// Black in bold on a colour.
pub fn mark(color: Color) -> (s: Style)
    ensures
        s == mark_style(color),
{
    Style { fg: Some(Color::Black), bg: Some(color), bold: true }
}

/// A text in a style.
#[derive(Debug, PartialEq, Eq)]
pub struct Span {
    pub text: String,
    pub style: Style,
}

/// The model of a text in a style.
#[verifier::ext_equal]
pub struct SpanView {
    pub text: Seq<char>,
    pub style: Style,
}

impl View for Span {
    type V = SpanView;

    open spec fn view(&self) -> SpanView {
        SpanView { text: self.text@, style: self.style }
    }
}

/// The models of some texts.
pub open spec fn span_views(spans: Seq<Span>) -> Seq<SpanView> {
    spans.map_values(|s: Span| s@)
}

/// A text without a style.
pub open spec fn raw_span(text: Seq<char>) -> SpanView {
    SpanView { text, style: plain_style() }
}

/// A text in a style.
pub open spec fn styled_span(text: Seq<char>, style: Style) -> SpanView {
    SpanView { text, style }
}

/// A text without a style.
pub fn raw(text: &str) -> (s: Span)
    ensures
        s@ == raw_span(text@),
{
    Span { text: text.to_string(), style: plain() }
}

/// A text in a style.
pub fn styled(text: &str, style: Style) -> (s: Span)
    ensures
        s@ == styled_span(text@, style),
{
    Span { text: text.to_string(), style }
}

/// Where a line stands in its area.
#[derive(Debug, Clone, Copy, PartialEq, Eq, Structural)]
pub enum Align {
    Left,
    Center,
}

/// A line of text.
#[derive(Debug, PartialEq, Eq)]
pub struct Line {
    pub spans: Vec<Span>,
    pub style: Style,
    pub align: Align,
}

/// The model of a line.
#[verifier::ext_equal]
pub struct LineView {
    pub spans: Seq<SpanView>,
    pub style: Style,
    pub align: Align,
}

impl View for Line {
    type V = LineView;

    open spec fn view(&self) -> LineView {
        LineView { spans: span_views(self.spans@), style: self.style, align: self.align }
    }
}

/// The models of some lines.
pub open spec fn line_views(lines: Seq<Line>) -> Seq<LineView> {
    lines.map_values(|l: Line| l@)
}

/// A line of some texts.
pub open spec fn plain_line(spans: Seq<SpanView>) -> LineView {
    LineView { spans, style: plain_style(), align: Align::Left }
}

/// A line of some texts, centred.
pub open spec fn centered_line(spans: Seq<SpanView>) -> LineView {
    LineView { spans, style: plain_style(), align: Align::Center }
}

/// A line of one text in a style for the whole line.
pub open spec fn marked_line(text: Seq<char>, style: Style) -> LineView {
    LineView { spans: seq![raw_span(text)], style, align: Align::Left }
}

/// A title: one text in bold.
pub open spec fn title_line(text: Seq<char>, align: Align) -> LineView {
    LineView { spans: seq![styled_span(text, strong_style())], style: plain_style(), align }
}

/// A line of some texts.
pub fn line(spans: Vec<Span>) -> (l: Line)
    ensures
        l@ == plain_line(span_views(spans@)),
{
    Line { spans, style: plain(), align: Align::Left }
}

/// A line of some texts, centred.
pub fn centered(spans: Vec<Span>) -> (l: Line)
    ensures
        l@ == centered_line(span_views(spans@)),
{
    Line { spans, style: plain(), align: Align::Center }
}

/// A line of one text.
pub fn line_of(span: Span) -> (l: Line)
    ensures
        l@ == plain_line(seq![span@]),
{
    let spans = vec![span];
    assert(span_views(spans@) =~= seq![span@]);
    line(spans)
}

/// A line of two texts.
pub fn line_of2(a: Span, b: Span) -> (l: Line)
    ensures
        l@ == plain_line(seq![a@, b@]),
{
    let spans = vec![a, b];
    assert(span_views(spans@) =~= seq![a@, b@]);
    line(spans)
}

/// A line of three texts.
pub fn line_of3(a: Span, b: Span, c: Span) -> (l: Line)
    ensures
        l@ == plain_line(seq![a@, b@, c@]),
{
    let spans = vec![a, b, c];
    assert(span_views(spans@) =~= seq![a@, b@, c@]);
    line(spans)
}

/// A line of four texts.
pub fn line_of4(a: Span, b: Span, c: Span, d: Span) -> (l: Line)
    ensures
        l@ == plain_line(seq![a@, b@, c@, d@]),
{
    let spans = vec![a, b, c, d];
    assert(span_views(spans@) =~= seq![a@, b@, c@, d@]);
    line(spans)
}

/// A line with nothing in it.
pub fn empty_line() -> (l: Line)
    ensures
        l@ == plain_line(seq![]),
{
    let spans: Vec<Span> = Vec::new();
    assert(span_views(spans@) =~= seq![]);
    line(spans)
}

/// A line of one text in a style for the whole line.
pub fn marked(text: &str, style: Style) -> (l: Line)
    ensures
        l@ == marked_line(text@, style),
{
    let spans = vec![raw(text)];
    assert(span_views(spans@) =~= seq![raw_span(text@)]);
    Line { spans, style, align: Align::Left }
}

/// A title.
pub fn title(text: &str, align: Align) -> (l: Line)
    ensures
        l@ == title_line(text@, align),
{
    let spans = vec![styled(text, strong())];
    assert(span_views(spans@) =~= seq![styled_span(text@, strong_style())]);
    Line { spans, style: plain(), align }
}

/// The texts of some keys and what they do, in turn.
pub open spec fn hint_spans(hints: Seq<(Seq<char>, Seq<char>)>) -> Seq<SpanView>
    decreases hints.len(),
{
    if hints.len() == 0 {
        seq![]
    } else {
        hint_spans(hints.drop_last()) + seq![
            raw_span(hints.last().0),
            styled_span(hints.last().1, bold_style(Color::Blue)),
        ]
    }
}

/// The line that tells some keys and what they do.
pub open spec fn hint_line(hints: Seq<(Seq<char>, Seq<char>)>) -> LineView {
    centered_line(hint_spans(hints))
}

/// The texts of some pairs.
pub open spec fn hint_texts(hints: Seq<(&str, &str)>) -> Seq<(Seq<char>, Seq<char>)> {
    hints.map_values(|h: (&str, &str)| (h.0@, h.1@))
}

/// The line that tells some keys and what they do.
pub fn hints(pairs: Vec<(&str, &str)>) -> (l: Line)
    ensures
        l@ == hint_line(hint_texts(pairs@)),
{
    let ghost texts = hint_texts(pairs@);
    let mut spans: Vec<Span> = Vec::new();
    assert(span_views(spans@) =~= hint_spans(texts.take(0)));
    for i in 0..pairs.len()
        invariant
            texts == hint_texts(pairs@),
            span_views(spans@) == hint_spans(texts.take(i as int)),
    {
        let ghost before = span_views(spans@);
        assert(texts.take(i + 1).drop_last() =~= texts.take(i as int));
        assert(texts.take(i + 1).last() == (pairs@[i as int].0@, pairs@[i as int].1@));
        spans.push(raw(pairs[i].0));
        spans.push(styled(pairs[i].1, bold(Color::Blue)));
        assert(span_views(spans@) =~= before + seq![
            raw_span(pairs@[i as int].0@),
            styled_span(pairs@[i as int].1@, bold_style(Color::Blue)),
        ]);
    }
    assert(texts.take(texts.len() as int) =~= texts);
    centered(spans)
}

/// How a border is drawn.
#[derive(Debug, Clone, Copy, PartialEq, Eq, Structural)]
pub enum Border {
    Thick,
    Rounded,
}

/// A border with its titles.
#[derive(Debug, PartialEq, Eq)]
pub struct Block {
    pub title: Line,
    pub bottom: Option<Line>,
    pub border: Border,
    pub border_style: Style,
}

/// The model of a border.
#[verifier::ext_equal]
pub struct BlockView {
    pub title: LineView,
    pub bottom: Option<LineView>,
    pub border: Border,
    pub border_style: Style,
}

impl View for Block {
    type V = BlockView;

    open spec fn view(&self) -> BlockView {
        BlockView {
            title: self.title@,
            bottom: match self.bottom {
                Some(line) => Some(line@),
                None => None,
            },
            border: self.border,
            border_style: self.border_style,
        }
    }
}

/// A thick border with a centred title.
pub open spec fn thick_block(title: Seq<char>, bottom: Option<LineView>, style: Style) -> BlockView {
    BlockView {
        title: title_line(title, Align::Center),
        bottom,
        border: Border::Thick,
        border_style: style,
    }
}

/// A thick border with a centred title.
pub fn thick(text: &str, bottom: Option<Line>, style: Style) -> (b: Block)
    ensures
        b@ == thick_block(
            text@,
            match bottom {
                Some(line) => Some(line@),
                None => None,
            },
            style,
        ),
{
    Block { title: title(text, Align::Center), bottom, border: Border::Thick, border_style: style }
}

/// A command that draws something.
#[derive(Debug, PartialEq, Eq)]
pub enum Draw {
    /// Clear an area.
    Clear(Rect),
    /// Draw a border.
    Panel { area: Rect, block: Block },
    /// Write lines, within a border if there is one.
    Text { area: Rect, lines: Vec<Line>, border: Option<Block> },
    /// Write a list within a border, so that the selected item is visible.
    List { area: Rect, items: Vec<Line>, selected: usize, block: Block },
    /// Place the cursor.
    Cursor { x: u16, y: u16 },
    /// Draw the screen of a session.
    Terminal { area: Rect, session: u64, selection: Option<(ScreenPos, ScreenPos)> },
}

/// The model of a command.
#[verifier::ext_equal]
pub enum DrawView {
    Clear(Rect),
    Panel { area: Rect, block: BlockView },
    Text { area: Rect, lines: Seq<LineView>, border: Option<BlockView> },
    List { area: Rect, items: Seq<LineView>, selected: int, block: BlockView },
    Cursor { x: u16, y: u16 },
    Terminal { area: Rect, session: u64, selection: Option<(ScreenPos, ScreenPos)> },
}

impl View for Draw {
    type V = DrawView;

    open spec fn view(&self) -> DrawView {
        match self {
            Draw::Clear(area) => DrawView::Clear(*area),
            Draw::Panel { area, block } => DrawView::Panel { area: *area, block: block@ },
            Draw::Text { area, lines, border } => DrawView::Text {
                area: *area,
                lines: line_views(lines@),
                border: match border {
                    Some(block) => Some(block@),
                    None => None,
                },
            },
            Draw::List { area, items, selected, block } => DrawView::List {
                area: *area,
                items: line_views(items@),
                selected: *selected as int,
                block: block@,
            },
            Draw::Cursor { x, y } => DrawView::Cursor { x: *x, y: *y },
            Draw::Terminal { area, session, selection } => DrawView::Terminal {
                area: *area,
                session: *session,
                selection: *selection,
            },
        }
    }
}

/// The models of some commands.
pub open spec fn draw_views(draws: Seq<Draw>) -> Seq<DrawView> {
    draws.map_values(|d: Draw| d@)
}

/// One line without a border.
pub open spec fn text_at(area: Rect, line: LineView) -> DrawView {
    DrawView::Text { area, lines: seq![line], border: None }
}

/// One line without a border.
pub fn write_at(area: Rect, line: Line) -> (d: Draw)
    ensures
        d@ == text_at(area, line@),
{
    let lines = vec![line];
    assert(line_views(lines@) =~= seq![line@]);
    Draw::Text { area, lines, border: None }
}

/// The cursor behind so many columns of an area's first row, where the area has
/// room for it.
pub open spec fn cursor_at(area: Rect, offset: u16, column: usize) -> Seq<DrawView> {
    let right = offset + (column as u16);
    if right < area.width && area.x + right <= u16::MAX {
        seq![DrawView::Cursor { x: (area.x + right) as u16, y: area.y }]
    } else {
        seq![]
    }
}

/// Places the cursor behind so many columns of an area's first row.
pub fn push_cursor(out: &mut Vec<Draw>, area: Rect, offset: u16, column: usize)
    ensures
        draw_views(final(out)@) == draw_views(old(out)@) + cursor_at(area, offset, column),
{
    let cut: u16 = column as u16;
    let right: u32 = offset as u32 + cut as u32;
    if right < area.width as u32 && area.x as u32 + right <= 65535 {
        let x: u16 = (area.x as u32 + right) as u16;
        push_draw(out, Draw::Cursor { x, y: area.y });
    }
    assert(draw_views(out@) =~= draw_views(old(out)@) + cursor_at(area, offset, column));
}

/// Adds commands behind others.
pub fn append_draws(out: &mut Vec<Draw>, more: Vec<Draw>)
    ensures
        draw_views(final(out)@) == draw_views(old(out)@) + draw_views(more@),
{
    let mut more = more;
    let ghost a = out@;
    let ghost b = more@;
    out.append(&mut more);
    assert(draw_views(a + b) =~= draw_views(a) + draw_views(b));
}

/// Adds a command behind others.
pub fn push_draw(out: &mut Vec<Draw>, draw: Draw)
    ensures
        draw_views(final(out)@) == draw_views(old(out)@).push(draw@),
{
    let ghost a = out@;
    out.push(draw);
    assert(draw_views(out@) =~= draw_views(a).push(draw@));
}

/// Adds a line behind others.
pub fn push_line(out: &mut Vec<Line>, line: Line)
    ensures
        line_views(final(out)@) == line_views(old(out)@).push(line@),
{
    let ghost a = out@;
    out.push(line);
    assert(line_views(out@) =~= line_views(a).push(line@));
}

/// Adds a text behind others.
pub fn push_span(out: &mut Vec<Span>, span: Span)
    ensures
        span_views(final(out)@) == span_views(old(out)@).push(span@),
{
    let ghost a = out@;
    out.push(span);
    assert(span_views(out@) =~= span_views(a).push(span@));
}

// ---------------------------------------------------------------------------
// Texts
// ---------------------------------------------------------------------------

/// A character, several times.
pub open spec fn repeated(c: char, n: nat) -> Seq<char> {
    Seq::new(n, |i: int| c)
}

/// Repeats a character.
pub fn repeat(c: char, n: usize) -> (s: String)
    ensures
        s@ == repeated(c, n as nat),
{
    let mut out = String::new();
    for i in 0..n
        invariant
            out@ =~= repeated(c, i as nat),
    {
        out.push(c);
    }
    out
}

/// A text with spaces before it, at least so many characters long.
pub open spec fn padded(text: Seq<char>, width: nat) -> Seq<char> {
    if text.len() < width {
        repeated(' ', (width - text.len()) as nat) + text
    } else {
        text
    }
}

/// Puts spaces before a text.
pub fn pad_left(text: &str, width: usize) -> (s: String)
    ensures
        s@ == padded(text@, width as nat),
{
    let n = text.unicode_len();
    if n < width {
        let mut out = repeat(' ', width - n);
        out.append(text);
        out
    } else {
        text.to_string()
    }
}

/// A text between two spaces.
pub open spec fn spaced(text: Seq<char>) -> Seq<char> {
    " "@ + text + " "@
}

/// Puts a text between two spaces.
pub fn space(text: &str) -> (s: String)
    ensures
        s@ == spaced(text@),
{
    concat3(" ", text, " ")
}

/// A line without the carriage return at its end.
pub open spec fn without_return(line: Seq<char>) -> Seq<char> {
    if line.len() > 0 && line.last() == '\r' {
        line.drop_last()
    } else {
        line
    }
}

/// The lines of a text. A line break at the end starts no other line.
pub open spec fn text_lines(text: Seq<char>) -> Seq<Seq<char>> {
    lines_from(text, 0, 0)
}

/// The lines of a text from a position on, where the current line has started
/// before it.
pub open spec fn lines_from(text: Seq<char>, start: int, at: int) -> Seq<Seq<char>>
    decreases text.len() - at,
{
    if at < 0 || at >= text.len() {
        if start < text.len() {
            seq![text.subrange(start, text.len() as int)]
        } else {
            seq![]
        }
    } else if text[at] == '\n' {
        seq![without_return(text.subrange(start, at))] + lines_from(text, at + 1, at + 1)
    } else {
        lines_from(text, start, at + 1)
    }
}

/// Splits a text into its lines.
pub fn split_lines(text: &str) -> (lines: Vec<String>)
    ensures
        lines@.map_values(|s: String| s@) == text_lines(text@),
{
    let chars = chars_of(text);
    let mut lines: Vec<String> = Vec::new();
    let mut start: usize = 0;
    let mut at: usize = 0;
    assert(lines@.map_values(|s: String| s@) + lines_from(text@, 0, 0) =~= text_lines(text@));
    while at < chars.len()
        invariant
            chars@ == text@,
            start <= at <= chars@.len(),
            lines@.map_values(|s: String| s@) + lines_from(text@, start as int, at as int)
                == text_lines(text@),
        decreases chars@.len() - at,
    {
        if chars[at] == '\n' {
            let ghost before = lines@.map_values(|s: String| s@);
            let ghost whole = text@.subrange(start as int, at as int);
            let end: usize = if at > start && chars[at - 1] == '\r' {
                at - 1
            } else {
                at
            };
            assert(text@.subrange(start as int, end as int) =~= without_return(whole));
            let line = string_of(&chars, start, end);
            lines.push(line);
            let ghost rest = lines_from(text@, at + 1, at + 1);
            assert(lines@.map_values(|s: String| s@) =~= before.push(without_return(whole)));
            assert(before + (seq![without_return(whole)] + rest) =~= before.push(
                without_return(whole),
            ) + rest);
            start = at + 1;
        }
        at = at + 1;
    }
    if start < chars.len() {
        let ghost before = lines@.map_values(|s: String| s@);
        let line = string_of(&chars, start, chars.len());
        lines.push(line);
        assert(lines@.map_values(|s: String| s@) =~= before + seq![
            text@.subrange(start as int, text@.len() as int),
        ]);
    } else {
        assert(lines@.map_values(|s: String| s@) + Seq::<Seq<char>>::empty()
            =~= lines@.map_values(|s: String| s@));
    }
    lines
}

/// How many columns of the screen a text takes up.
pub uninterp spec fn display_width(text: Seq<char>) -> usize;

/// Calls `ratatui::text::Span::width`, which depends on the text alone.
#[verifier::external_body]
pub(crate) fn width_of(text: &str) -> (width: usize)
    ensures
        width == display_width(text@),
{
    ratatui::text::Span::raw(text).width()
}

/// The lines that a text is wrapped into for a width.
pub uninterp spec fn wrapped_lines(text: Seq<char>, width: usize) -> Seq<Seq<char>>;

/// Calls `textwrap::wrap`, whose lines depend on the text and the width alone.
#[verifier::external_body]
pub(crate) fn wrap_text(text: &str, width: usize) -> (lines: Vec<String>)
    ensures
        lines@.map_values(|s: String| s@) == wrapped_lines(text@, width),
{
    textwrap::wrap(text, width).into_iter().map(|line| line.into_owned()).collect()
}

// ---------------------------------------------------------------------------
// Layout
// ---------------------------------------------------------------------------

/// How large a part of a layout is to be.
#[derive(Debug, Clone, Copy, PartialEq, Eq, Structural)]
pub enum Constraint {
    Min(u16),
    Length(u16),
    Percentage(u16),
}

/// The direction in which an area is divided.
#[derive(Debug, Clone, Copy, PartialEq, Eq, Structural)]
pub enum Direction {
    Horizontal,
    Vertical,
}

/// Whether an area lies within another.
pub open spec fn within(inner: Rect, outer: Rect) -> bool {
    &&& outer.x <= inner.x
    &&& inner.x + inner.width <= outer.x + outer.width
    &&& outer.y <= inner.y
    &&& inner.y + inner.height <= outer.y + outer.height
}

/// Whether some areas are parts of an area, each as large as it across the
/// direction.
pub open spec fn is_split(parts: Seq<Rect>, area: Rect, direction: Direction, count: nat) -> bool {
    parts.len() == count && forall|i: int|
        0 <= i < parts.len() ==> within(#[trigger] parts[i], area) && match direction {
            Direction::Vertical => parts[i].x == area.x && parts[i].width == area.width,
            Direction::Horizontal => parts[i].y == area.y && parts[i].height == area.height,
        }
}

/// Where the parts of a layout stand if they do not fill it.
#[derive(Debug, Clone, Copy, PartialEq, Eq, Structural)]
pub enum Flex {
    Start,
    Center,
}

/// Whether some areas are what `ratatui::layout::Layout::split` can make of an
/// area.
pub uninterp spec fn divides(
    rects: Seq<Rect>,
    area: Rect,
    direction: Direction,
    flex: Flex,
    parts: Seq<Constraint>,
) -> bool;

/// Calls `ratatui::layout::Layout::split`.
///
/// There is one part for each constraint. Each lies within the area, and takes up
/// the whole of it across the direction. The sizes come from a solver that walks
/// hash maps with seeds of their own: `divides` says only that they came out for
/// these arguments, and nothing more is stated of them.
#[verifier::external_body]
pub(crate) fn split(area: Rect, direction: Direction, flex: Flex, parts: &Vec<Constraint>) -> (rects:
    Vec<Rect>)
    ensures
        is_split(rects@, area, direction, parts@.len()),
        divides(rects@, area, direction, flex, parts@),
{
    let direction = match direction {
        Direction::Horizontal => D::Horizontal,
        Direction::Vertical => D::Vertical,
    };
    let flex = match flex { Flex::Start => F::Start, Flex::Center => F::Center };
    let parts = parts.iter().map(|c| match c {
        Constraint::Min(n) => C::Min(*n),
        Constraint::Length(n) => C::Length(*n),
        Constraint::Percentage(n) => C::Percentage(*n),
    });
    let Rect { x, y, width, height } = area;
    let rects = Layout::new(direction, parts).flex(flex).split(R { x, y, width, height });
    rects.iter().map(|&R { x, y, width, height }| Rect { x, y, width, height }).collect()
}

} // verus!
