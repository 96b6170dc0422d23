//! The screen of a session's terminal.
use vstd::prelude::*;
use crate::scene::Rect;
use crate::screen::{pos_le, ScreenPos};

verus! {

/// A colour of a terminal's cell.
#[derive(Debug, Clone, Copy, PartialEq, Eq, Structural)]
pub enum CellColor {
    Default,
    Idx(u8),
    Rgb(u8, u8, u8),
}

/// A colour that is drawn.
#[derive(Debug, Clone, Copy, PartialEq, Eq, Structural)]
pub enum PaintColor {
    Reset,
    Indexed(u8),
    Rgb(u8, u8, u8),
}

/// A cell of a terminal.
#[derive(Debug)]
pub struct Cell {
    pub contents: String,
    pub fg: CellColor,
    pub bg: CellColor,
    pub bold: bool,
    pub italic: bool,
    pub underline: bool,
    pub inverse: bool,
}

/// The model of a cell.
#[verifier::ext_equal]
pub struct CellView {
    pub contents: Seq<char>,
    pub fg: CellColor,
    pub bg: CellColor,
    pub bold: bool,
    pub italic: bool,
    pub underline: bool,
    pub inverse: bool,
}

impl View for Cell {
    type V = CellView;

    open spec fn view(&self) -> CellView {
        CellView {
            contents: self.contents@,
            fg: self.fg,
            bg: self.bg,
            bold: self.bold,
            italic: self.italic,
            underline: self.underline,
            inverse: self.inverse,
        }
    }
}

/// The screen of a terminal: its size, and its cells row by row, as far as there
/// are any.
#[derive(Debug)]
pub struct TerminalScreen {
    pub rows: u16,
    pub cols: u16,
    pub cells: Vec<Vec<Option<Cell>>>,
}

impl TerminalScreen {
    /// The cell at a position, if there is one.
    pub open spec fn at(self, row: int, col: int) -> Option<CellView> {
        if 0 <= row < self.cells@.len() && 0 <= col < self.cells@[row]@.len() {
            match self.cells@[row]@[col] {
                Some(cell) => Some(cell@),
                None => None,
            }
        } else {
            None
        }
    }

    fn cell(&self, row: u16, col: u16) -> (cell: Option<&Cell>)
        ensures
            match cell {
                Some(c) => self.at(row as int, col as int) == Some(c@),
                None => self.at(row as int, col as int) is None,
            },
    {
        let (r, c) = (row as usize, col as usize);
        if r < self.cells.len() && c < self.cells[r].len() {
            match &self.cells[r][c] {
                Some(cell) => Some(cell),
                None => None,
            }
        } else {
            None
        }
    }
}

/// What is drawn in one place.
#[derive(Debug)]
pub struct Paint {
    pub x: u16,
    pub y: u16,
    pub symbol: String,
    pub fg: PaintColor,
    pub bg: PaintColor,
    pub bold: bool,
    pub italic: bool,
    pub underlined: bool,
    pub reversed: bool,
}

/// The model of what is drawn in one place.
#[verifier::ext_equal]
pub struct PaintView {
    pub x: int,
    pub y: int,
    pub symbol: Seq<char>,
    pub fg: PaintColor,
    pub bg: PaintColor,
    pub bold: bool,
    pub italic: bool,
    pub underlined: bool,
    pub reversed: bool,
}

impl View for Paint {
    type V = PaintView;

    open spec fn view(&self) -> PaintView {
        PaintView {
            x: self.x as int,
            y: self.y as int,
            symbol: self.symbol@,
            fg: self.fg,
            bg: self.bg,
            bold: self.bold,
            italic: self.italic,
            underlined: self.underlined,
            reversed: self.reversed,
        }
    }
}

/// The models of what is drawn.
pub open spec fn paint_views(paints: Seq<Paint>) -> Seq<PaintView> {
    paints.map_values(|p: Paint| p@)
}

/// The colour that a cell's colour is drawn in.
pub open spec fn paint_color(color: CellColor) -> PaintColor {
    match color {
        CellColor::Default => PaintColor::Reset,
        CellColor::Idx(i) => PaintColor::Indexed(i),
        CellColor::Rgb(r, g, b) => PaintColor::Rgb(r, g, b),
    }
}

fn convert_color(color: CellColor) -> (paint: PaintColor)
    ensures
        paint == paint_color(color),
{
    match color {
        CellColor::Default => PaintColor::Reset,
        CellColor::Idx(i) => PaintColor::Indexed(i),
        CellColor::Rgb(r, g, b) => PaintColor::Rgb(r, g, b),
    }
}

/// Whether a position lies in a range of the screen, read row by row. The end is
/// not part of it.
pub open spec fn in_range(pos: ScreenPos, start: ScreenPos, end: ScreenPos) -> bool {
    pos_le(start, pos) && !pos_le(end, pos)
}

/// Whether a cell lies in a range of the screen.
pub fn is_selected(row: u16, col: u16, start: &ScreenPos, end: &ScreenPos) -> (selected: bool)
    ensures
        selected == in_range(ScreenPos { row, col }, *start, *end),
{
    if row < start.row || row > end.row {
        return false;
    }
    if start.row == end.row {
        return col >= start.col && col < end.col;
    }
    if row == start.row {
        return col >= start.col;
    }
    if row == end.row {
        return col < end.col;
    }
    true
}

/// Whether a position lies in the selection, if there is one.
pub open spec fn highlighted(pos: ScreenPos, selection: Option<(ScreenPos, ScreenPos)>) -> bool {
    selection matches Some(range) && in_range(pos, range.0, range.1)
}

/// How a cell is drawn. One without contents is drawn as a space.
pub open spec fn painted(
    cell: CellView,
    row: int,
    col: int,
    selection: Option<(ScreenPos, ScreenPos)>,
    area: Rect,
) -> PaintView {
    PaintView {
        x: area.x + col,
        y: area.y + row,
        symbol: if cell.contents.len() == 0 {
            " "@
        } else {
            cell.contents
        },
        fg: paint_color(cell.fg),
        bg: paint_color(cell.bg),
        bold: cell.bold,
        italic: cell.italic,
        underlined: cell.underline,
        reversed: cell.inverse || highlighted(
            ScreenPos { row: row as u16, col: col as u16 },
            selection,
        ),
    }
}

/// What is drawn of the first cells of a row.
pub open spec fn row_paints(
    screen: TerminalScreen,
    selection: Option<(ScreenPos, ScreenPos)>,
    area: Rect,
    row: int,
    cols: int,
) -> Seq<PaintView>
    decreases cols,
{
    if cols <= 0 {
        seq![]
    } else {
        row_paints(screen, selection, area, row, cols - 1) + match screen.at(row, cols - 1) {
            Some(cell) => seq![painted(cell, row, cols - 1, selection, area)],
            None => seq![],
        }
    }
}

/// What is drawn of the first rows.
pub open spec fn screen_paints(
    screen: TerminalScreen,
    selection: Option<(ScreenPos, ScreenPos)>,
    area: Rect,
    rows: int,
    cols: int,
) -> Seq<PaintView>
    decreases rows,
{
    if rows <= 0 {
        seq![]
    } else {
        screen_paints(screen, selection, area, rows - 1, cols) + row_paints(
            screen,
            selection,
            area,
            rows - 1,
            cols,
        )
    }
}

/// The smaller of two numbers.
pub open spec fn smaller(a: u16, b: u16) -> int {
    if a < b {
        a as int
    } else {
        b as int
    }
}

/// The screen of a terminal, with a selection that is highlighted.
#[derive(Debug)]
pub struct TerminalView<'a> {
    screen: &'a TerminalScreen,
    selection: Option<(ScreenPos, ScreenPos)>,
}

impl<'a> TerminalView<'a> {
    /// The screen that is drawn.
    pub closed spec fn shown(self) -> TerminalScreen {
        *self.screen
    }

    /// The selection that is highlighted.
    pub closed spec fn marked(self) -> Option<(ScreenPos, ScreenPos)> {
        self.selection
    }

    /// A screen without a selection.
    pub fn new(screen: &'a TerminalScreen) -> (view: Self)
        ensures
            view.shown() == *screen,
            view.marked() is None,
    {
        TerminalView { screen, selection: None }
    }

    /// The screen with a selection, if there is one.
    pub fn with_selection(self, selection: Option<(ScreenPos, ScreenPos)>) -> (view: Self)
        ensures
            view.shown() == self.shown(),
            view.marked() == selection,
    {
        TerminalView { screen: self.screen, selection }
    }

    fn paint(&self, cell: &Cell, row: u16, col: u16, area: Rect) -> (paint: Paint)
        requires
            area.x + col <= u16::MAX,
            area.y + row <= u16::MAX,
        ensures
            paint@ == painted(cell@, row as int, col as int, self.marked(), area),
    {
        let selected = match &self.selection {
            Some(range) => is_selected(row, col, &range.0, &range.1),
            None => false,
        };
        Paint {
            x: area.x + col,
            y: area.y + row,
            symbol: if cell.contents.as_str().is_empty() {
                " ".to_string()
            } else {
                cell.contents.clone()
            },
            fg: convert_color(cell.fg),
            bg: convert_color(cell.bg),
            bold: cell.bold,
            italic: cell.italic,
            underlined: cell.underline,
            reversed: cell.inverse || selected,
        }
    }

    /// Draws the screen in an area, as far as both reach.
    pub fn render(&self, area: Rect) -> (paints: Vec<Paint>)
        requires
            area.x + area.width <= u16::MAX,
            area.y + area.height <= u16::MAX,
        ensures
            paint_views(paints@) == screen_paints(
                self.shown(),
                self.marked(),
                area,
                smaller(area.height, self.shown().rows),
                smaller(area.width, self.shown().cols),
            ),
    {
        let screen = self.screen;
        let ghost marked = self.selection;
        let rows: u16 = if area.height < screen.rows {
            area.height
        } else {
            screen.rows
        };
        let cols: u16 = if area.width < screen.cols {
            area.width
        } else {
            screen.cols
        };
        let mut paints: Vec<Paint> = Vec::new();
        assert(paint_views(paints@) =~= screen_paints(*screen, marked, area, 0, cols as int));
        for row in 0..rows
            invariant
                self.screen == screen,
                self.selection == marked,
                area.x + cols <= u16::MAX,
                area.y + rows <= u16::MAX,
                paint_views(paints@) == screen_paints(
                    *screen,
                    marked,
                    area,
                    row as int,
                    cols as int,
                ),
        {
            let ghost above = paint_views(paints@);
            assert(above =~= above + row_paints(*screen, marked, area, row as int, 0));
            for col in 0..cols
                invariant
                    row < rows,
                    self.screen == screen,
                    self.selection == marked,
                    area.x + cols <= u16::MAX,
                    area.y + rows <= u16::MAX,
                    paint_views(paints@) == above + row_paints(
                        *screen,
                        marked,
                        area,
                        row as int,
                        col as int,
                    ),
            {
                let ghost before = paint_views(paints@);
                if let Some(cell) = screen.cell(row, col) {
                    let paint = self.paint(cell, row, col, area);
                    paints.push(paint);
                    assert(paint_views(paints@) =~= before.push(paint@));
                }
                assert(paint_views(paints@) =~= above + row_paints(
                    *screen,
                    marked,
                    area,
                    row as int,
                    col + 1,
                ));
            }
        }
        paints
    }
}

/// Every place that is drawn lies in the area.
pub proof fn lemma_paints_lie_in_area(
    screen: TerminalScreen,
    selection: Option<(ScreenPos, ScreenPos)>,
    area: Rect,
    i: int,
)
    requires
        0 <= i < screen_paints(
            screen,
            selection,
            area,
            smaller(area.height, screen.rows),
            smaller(area.width, screen.cols),
        ).len(),
    ensures
        ({
            let paint = screen_paints(
                screen,
                selection,
                area,
                smaller(area.height, screen.rows),
                smaller(area.width, screen.cols),
            )[i];
            area.x <= paint.x < area.x + area.width && area.y <= paint.y < area.y + area.height
        }),
{
    lemma_screen_paints(
        screen,
        selection,
        area,
        smaller(area.height, screen.rows),
        smaller(area.width, screen.cols),
    );
}

proof fn lemma_row_paints(
    screen: TerminalScreen,
    selection: Option<(ScreenPos, ScreenPos)>,
    area: Rect,
    row: int,
    cols: int,
)
    ensures
        forall|i: int|
            0 <= i < row_paints(screen, selection, area, row, cols).len() ==> {
                let paint = #[trigger] row_paints(screen, selection, area, row, cols)[i];
                area.x <= paint.x < area.x + cols && paint.y == area.y + row
            },
    decreases cols,
{
    if cols > 0 {
        lemma_row_paints(screen, selection, area, row, cols - 1);
    }
}

proof fn lemma_screen_paints(
    screen: TerminalScreen,
    selection: Option<(ScreenPos, ScreenPos)>,
    area: Rect,
    rows: int,
    cols: int,
)
    ensures
        forall|i: int|
            0 <= i < screen_paints(screen, selection, area, rows, cols).len() ==> {
                let paint = #[trigger] screen_paints(screen, selection, area, rows, cols)[i];
                area.x <= paint.x < area.x + cols && area.y <= paint.y < area.y + rows
            },
    decreases rows,
{
    if rows > 0 {
        lemma_screen_paints(screen, selection, area, rows - 1, cols);
        lemma_row_paints(screen, selection, area, rows - 1, cols);
    }
}

} // verus!
