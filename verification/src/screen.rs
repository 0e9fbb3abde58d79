//! The terminal's screen: its state, its cells and what is selected of them.

use crate::app::App;
use crate::text;
use vstd::prelude::*;
use vstd::string::*;

verus! {

/// Which reports of the mouse the program in the terminal asks for.
#[derive(Clone, Copy, PartialEq, Eq, Structural, Debug)]
pub enum MouseMode {
    Off,
    Press,
    PressRelease,
    ButtonMotion,
    AnyMotion,
}

/// The form in which it asks for them.
#[derive(Clone, Copy, PartialEq, Eq, Structural, Debug)]
pub enum MouseEncoding {
    Default,
    Utf8,
    Sgr,
}

/// What the dashboard reads of the terminal.
#[derive(Clone, Copy, PartialEq, Eq, Structural, Debug)]
pub struct ScreenState {
    pub mouse_mode: MouseMode,
    pub mouse_encoding: MouseEncoding,
    pub alternate_screen: bool,
    pub hide_cursor: bool,
    pub application_cursor: bool,
    /// How many rows above the last the view stands.
    pub scrollback: usize,
    /// How many rows above the last screen can be kept at most.
    pub scrollback_len: usize,
    pub rows: u16,
    pub cols: u16,
    pub cursor_row: u16,
    pub cursor_col: u16,
}

impl ScreenState {
    /// The program in the terminal asks for reports of the mouse.
    pub open spec fn mouse_reporting(self) -> bool {
        !(self.mouse_mode is Off)
    }

    /// It asks for them in the form of SGR.
    pub open spec fn sgr_mouse(self) -> bool {
        self.mouse_encoding is Sgr
    }

    /// A program has taken over the terminal.
    pub open spec fn app_active(self) -> bool {
        self.alternate_screen || self.hide_cursor || self.application_cursor
    }

    /// The view can be moved up by a page without passing the largest number.
    pub open spec fn can_scroll(self) -> bool {
        self.scrollback + 20 <= usize::MAX
    }

    /// Whether the program in the terminal asks for reports of the mouse.
    pub fn is_mouse_reporting(&self) -> (r: bool)
        ensures
            r == self.mouse_reporting(),
    {
        self.mouse_mode != MouseMode::Off
    }

    /// Whether it asks for them in the form of SGR.
    pub fn is_sgr_mouse(&self) -> (r: bool)
        ensures
            r == self.sgr_mouse(),
    {
        self.mouse_encoding == MouseEncoding::Sgr
    }

    /// Whether a program has taken over the terminal.
    pub fn is_app_active(&self) -> (r: bool)
        ensures
            r == self.app_active(),
    {
        self.alternate_screen || self.hide_cursor || self.application_cursor
    }
}

/// A colour of a cell.
#[derive(Clone, Copy, PartialEq, Eq, Structural, Debug)]
pub enum CellColor {
    Default,
    Indexed(u8),
    Rgb(u8, u8, u8),
}

/// How the text of a cell is set.
#[derive(Clone, Copy, PartialEq, Eq, Structural, Debug)]
pub struct CellFlags {
    pub bold: bool,
    pub italic: bool,
    pub underline: bool,
    pub inverse: bool,
    /// The cell is the second half of a wide character.
    pub is_wide_continuation: bool,
}

/// A cell of the terminal.
pub struct Cell {
    pub contents: String,
    pub fg: CellColor,
    pub bg: CellColor,
    pub flags: CellFlags,
}

pub ghost struct CellView {
    pub contents: Seq<char>,
    pub fg: CellColor,
    pub bg: CellColor,
    pub flags: CellFlags,
}

impl View for Cell {
    type V = CellView;

    open spec fn view(&self) -> CellView {
        CellView { contents: self.contents@, fg: self.fg, bg: self.bg, flags: self.flags }
    }
}

/// A `vt100::Screen`, carried as it is.
#[verifier::external_type_specification]
#[verifier::external_body]
pub struct ExScreen(vt100::Screen);

/// The state of a `vt100::Screen`.
pub uninterp spec fn screen_state(s: vt100::Screen) -> ScreenState;

/// The visible cells of a `vt100::Screen`, by row and column.
pub uninterp spec fn screen_cells(s: vt100::Screen) -> Map<(u16, u16), CellView>;

/// `vt100::Screen::mouse_protocol_mode`, its variants told apart.
#[verifier::external_body]
fn mouse_mode_of(s: &vt100::Screen) -> (r: MouseMode)
    ensures
        r == screen_state(*s).mouse_mode,
{
    match s.mouse_protocol_mode() {
        vt100::MouseProtocolMode::None => MouseMode::Off,
        vt100::MouseProtocolMode::Press => MouseMode::Press,
        vt100::MouseProtocolMode::PressRelease => MouseMode::PressRelease,
        vt100::MouseProtocolMode::ButtonMotion => MouseMode::ButtonMotion,
        vt100::MouseProtocolMode::AnyMotion => MouseMode::AnyMotion,
    }
}

/// `vt100::Screen::mouse_protocol_encoding`, its variants told apart.
#[verifier::external_body]
fn mouse_encoding_of(s: &vt100::Screen) -> (r: MouseEncoding)
    ensures
        r == screen_state(*s).mouse_encoding,
{
    match s.mouse_protocol_encoding() {
        vt100::MouseProtocolEncoding::Default => MouseEncoding::Default,
        vt100::MouseProtocolEncoding::Utf8 => MouseEncoding::Utf8,
        vt100::MouseProtocolEncoding::Sgr => MouseEncoding::Sgr,
    }
}

/// `vt100::Screen::alternate_screen`.
pub assume_specification[ vt100::Screen::alternate_screen ](s: &vt100::Screen) -> (r: bool)
    ensures
        r == screen_state(*s).alternate_screen,
;

/// `vt100::Screen::hide_cursor`.
pub assume_specification[ vt100::Screen::hide_cursor ](s: &vt100::Screen) -> (r: bool)
    ensures
        r == screen_state(*s).hide_cursor,
;

/// `vt100::Screen::application_cursor`.
pub assume_specification[ vt100::Screen::application_cursor ](s: &vt100::Screen) -> (r: bool)
    ensures
        r == screen_state(*s).application_cursor,
;

/// `vt100::Screen::scrollback`.
pub assume_specification[ vt100::Screen::scrollback ](s: &vt100::Screen) -> (r: usize)
    ensures
        r == screen_state(*s).scrollback,
;

/// `vt100::Screen::scrollback_len`.
pub assume_specification[ vt100::Screen::scrollback_len ](s: &vt100::Screen) -> (r: usize)
    ensures
        r == screen_state(*s).scrollback_len,
;

/// `vt100::Screen::size`, rows before columns.
pub assume_specification[ vt100::Screen::size ](s: &vt100::Screen) -> (r: (u16, u16))
    ensures
        r == (screen_state(*s).rows, screen_state(*s).cols),
;

/// `vt100::Screen::cursor_position`, row before column.
pub assume_specification[ vt100::Screen::cursor_position ](s: &vt100::Screen) -> (r: (u16, u16))
    ensures
        r == (screen_state(*s).cursor_row, screen_state(*s).cursor_col),
;

/// The text that `vt100::Screen::cell` and its `contents` give, if there is
/// such a cell.
#[verifier::external_body]
fn cell_contents(s: &vt100::Screen, row: u16, col: u16) -> (r: Option<String>)
    ensures
        match r {
            Some(t) => screen_cells(*s).contains_key((row, col)) && screen_cells(*s)[(
                row,
                col,
            )].contents == t@,
            None => !screen_cells(*s).contains_key((row, col)),
        },
{
    s.cell(row, col).map(|c| c.contents().to_string())
}

/// The colour of the text that `vt100::Screen::cell` and its `fgcolor` give.
#[verifier::external_body]
fn cell_fg(s: &vt100::Screen, row: u16, col: u16) -> (r: Option<CellColor>)
    ensures
        match r {
            Some(c) => screen_cells(*s).contains_key((row, col)) && screen_cells(*s)[(row, col)].fg
                == c,
            None => !screen_cells(*s).contains_key((row, col)),
        },
{
    s.cell(row, col).map(|c| match c.fgcolor() {
        vt100::Color::Default => CellColor::Default,
        vt100::Color::Idx(i) => CellColor::Indexed(i),
        vt100::Color::Rgb(r, g, b) => CellColor::Rgb(r, g, b),
    })
}

/// The colour behind the text that `vt100::Screen::cell` and its `bgcolor` give.
#[verifier::external_body]
fn cell_bg(s: &vt100::Screen, row: u16, col: u16) -> (r: Option<CellColor>)
    ensures
        match r {
            Some(c) => screen_cells(*s).contains_key((row, col)) && screen_cells(*s)[(row, col)].bg
                == c,
            None => !screen_cells(*s).contains_key((row, col)),
        },
{
    s.cell(row, col).map(|c| match c.bgcolor() {
        vt100::Color::Default => CellColor::Default,
        vt100::Color::Idx(i) => CellColor::Indexed(i),
        vt100::Color::Rgb(r, g, b) => CellColor::Rgb(r, g, b),
    })
}

/// How `vt100::Screen::cell` sets its text: `bold`, `italic`, `underline`,
/// `inverse` and `is_wide_continuation`.
#[verifier::external_body]
fn cell_flags(s: &vt100::Screen, row: u16, col: u16) -> (r: Option<CellFlags>)
    ensures
        match r {
            Some(f) => screen_cells(*s).contains_key((row, col)) && screen_cells(*s)[(
                row,
                col,
            )].flags == f,
            None => !screen_cells(*s).contains_key((row, col)),
        },
{
    s.cell(row, col).map(|c| CellFlags {
        bold: c.bold(),
        italic: c.italic(),
        underline: c.underline(),
        inverse: c.inverse(),
        is_wide_continuation: c.is_wide_continuation(),
    })
}

/// The state of a screen.
pub fn read_state(s: &vt100::Screen) -> (r: ScreenState)
    ensures
        r == screen_state(*s),
{
    let (rows, cols) = s.size();
    let (cursor_row, cursor_col) = s.cursor_position();
    ScreenState {
        mouse_mode: mouse_mode_of(s),
        mouse_encoding: mouse_encoding_of(s),
        alternate_screen: s.alternate_screen(),
        hide_cursor: s.hide_cursor(),
        application_cursor: s.application_cursor(),
        scrollback: s.scrollback(),
        scrollback_len: s.scrollback_len(),
        rows,
        cols,
        cursor_row,
        cursor_col,
    }
}

/// A cell of a screen, if there is such a cell.
pub fn read_cell(s: &vt100::Screen, row: u16, col: u16) -> (r: Option<Cell>)
    ensures
        match r {
            Some(c) => screen_cells(*s).contains_key((row, col)) && screen_cells(*s)[(row, col)]
                == c@,
            None => !screen_cells(*s).contains_key((row, col)),
        },
{
    match cell_contents(s, row, col) {
        Some(contents) => Some(
            Cell {
                contents,
                fg: cell_fg(s, row, col).unwrap(),
                bg: cell_bg(s, row, col).unwrap(),
                flags: cell_flags(s, row, col).unwrap(),
            },
        ),
        None => None,
    }
}

/// A place on the screen comes before another, or is the same.
pub open spec fn not_behind(a: (u16, u16), b: (u16, u16)) -> bool {
    a.0 < b.0 || (a.0 == b.0 && a.1 <= b.1)
}

/// The two ends of a selection, the first one first.
pub open spec fn ordered(start: (u16, u16), end: (u16, u16)) -> ((u16, u16), (u16, u16)) {
    if not_behind(start, end) {
        (start, end)
    } else {
        (end, start)
    }
}

/// The two ends of a selection, the first one first.
pub fn order_ends(start: (u16, u16), end: (u16, u16)) -> (r: ((u16, u16), (u16, u16)))
    ensures
        r == ordered(start, end),
{
    if start.0 < end.0 || (start.0 == end.0 && start.1 <= end.1) {
        (start, end)
    } else {
        (end, start)
    }
}

/// A cell is selected: it lies between the two ends, as one reads.
pub open spec fn is_selected(start: (u16, u16), end: (u16, u16), row: u16, col: u16) -> bool {
    let ends = ordered(start, end);
    not_behind(ends.0, (row, col)) && not_behind((row, col), ends.1)
}

/// Whether a cell is selected.
pub fn selects(start: (u16, u16), end: (u16, u16), row: u16, col: u16) -> (r: bool)
    ensures
        r == is_selected(start, end, row, col),
{
    let ((min_row, min_col), (max_row, max_col)) = order_ends(start, end);
    if row > min_row && row < max_row {
        true
    } else if row == min_row && row == max_row {
        col >= min_col && col <= max_col
    } else if row == min_row {
        col >= min_col
    } else if row == max_row {
        col <= max_col
    } else {
        false
    }
}

/// The text of some cells; a cell that is missing counts as a space.
pub open spec fn cells_text(cells: Seq<Option<Seq<char>>>) -> Seq<char>
    decreases cells.len(),
{
    if cells.len() == 0 {
        Seq::empty()
    } else {
        cells_text(cells.drop_last()) + (match cells.last() {
            Some(t) => t,
            None => " "@,
        })
    }
}

/// The text of a selected row, without the blanks at its end.
pub open spec fn line_text(cells: Seq<Option<Seq<char>>>) -> Seq<char> {
    text::drop_trailing(cells_text(cells), text::CharClass::White)
}

/// The text of a selected row.
pub fn selected_line(cells: &Vec<Option<String>>) -> (r: String)
    ensures
        r@ == line_text(text::opt_texts(cells@)),
{
    let ghost views = text::opt_texts(cells@);
    let mut line: String = String::new();
    let mut i: usize = 0;
    assert(views.take(0) =~= Seq::empty());
    while i < cells.len()
        invariant
            i <= cells@.len(),
            views == text::opt_texts(cells@),
            line@ == cells_text(views.take(i as int)),
        decreases cells@.len() - i,
    {
        assert(views[i as int] == text::opt_text(cells@[i as int]));
        assert(views.take(i as int + 1).drop_last() =~= views.take(i as int));
        match &cells[i] {
            Some(t) => line.append(t.as_str()),
            None => line.append(" "),
        }
        i = i + 1;
    }
    assert(views.take(views.len() as int) =~= views);
    let v = text::to_chars(line.as_str());
    text::to_text(text::strip_trailing(v.as_slice(), text::CharClass::White))
}

/// The first and the last selected column of a row, of a screen with `cols`
/// columns.
pub open spec fn row_span(ends: ((u16, u16), (u16, u16)), cols: u16, row: int) -> (int, int) {
    (
        if row == ends.0.0 {
            ends.0.1 as int
        } else {
            0
        },
        if row == ends.1.0 {
            ends.1.1 as int
        } else if cols == 0 {
            0
        } else {
            cols - 1
        },
    )
}

/// The cells of a row from one column to another.
pub open spec fn row_cells(
    cells: Map<(u16, u16), CellView>,
    row: int,
    span: (int, int),
) -> Seq<Option<Seq<char>>> {
    Seq::new(
        (if span.0 <= span.1 {
            span.1 - span.0 + 1
        } else {
            0
        }) as nat,
        |i: int|
            {
                let at = (row as u16, (span.0 + i) as u16);
                if cells.contains_key(at) {
                    Some(cells[at].contents)
                } else {
                    None
                }
            },
    )
}

/// The selected text of the rows before row `row`.
pub open spec fn lines_before(
    cells: Map<(u16, u16), CellView>,
    cols: u16,
    ends: ((u16, u16), (u16, u16)),
    row: int,
) -> Seq<Seq<char>>
    decreases row - ends.0.0,
{
    if row <= ends.0.0 {
        Seq::empty()
    } else {
        lines_before(cells, cols, ends, row - 1).push(
            line_text(row_cells(cells, row - 1, row_span(ends, cols, row - 1))),
        )
    }
}

/// The selected text: its rows, without the blanks at their ends.
pub open spec fn selection_text(
    cells: Map<(u16, u16), CellView>,
    cols: u16,
    start: (u16, u16),
    end: (u16, u16),
) -> Seq<char> {
    let ends = ordered(start, end);
    text::join(lines_before(cells, cols, ends, ends.1.0 + 1), "\n"@)
}

/// The cells of a row from one column to another.
fn read_row(s: &vt100::Screen, row: u16, first: u16, last: u16) -> (r: Vec<Option<String>>)
    ensures
        text::opt_texts(r@) == row_cells(screen_cells(*s), row as int, (first as int, last as int)),
{
    let mut out: Vec<Option<String>> = Vec::new();
    let ghost want = row_cells(screen_cells(*s), row as int, (first as int, last as int));
    let mut c: u32 = first as u32;
    assert(text::opt_texts(out@) =~= want.take(0));
    while c <= last as u32
        invariant
            first <= c,
            first <= last ==> c <= last + 1,
            first > last ==> c == first,
            want == row_cells(screen_cells(*s), row as int, (first as int, last as int)),
            text::opt_texts(out@) == want.take(c - first),
        decreases last + 1 - c,
    {
        let ghost before = out@;
        let t = cell_contents(s, row, c as u16);
        out.push(t);
        assert(text::opt_texts(out@) =~= text::opt_texts(before).push(text::opt_text(t)));
        assert(want.take(c - first + 1) =~= want.take(c - first).push(want[c - first]));
        c = c + 1;
    }
    assert(text::opt_texts(out@) =~= want);
    out
}

/// The selected text of a screen.
pub fn selected_text(s: &vt100::Screen, start: (u16, u16), end: (u16, u16)) -> (r: String)
    ensures
        r@ == selection_text(screen_cells(*s), screen_state(*s).cols, start, end),
{
    let (_, cols) = s.size();
    let ends = order_ends(start, end);
    let ghost cells = screen_cells(*s);
    let mut out: String = String::new();
    let mut row: u32 = ends.0.0 as u32;
    let ghost top = ends.0.0 as int;
    assert(lines_before(cells, cols, ends, top) =~= Seq::empty());
    while row <= ends.1.0 as u32
        invariant
            cells == screen_cells(*s),
            cols == screen_state(*s).cols,
            ends == ordered(start, end),
            top == ends.0.0,
            top <= row <= ends.1.0 + 1,
            out@ == text::join(lines_before(cells, cols, ends, row as int), "\n"@),
            lines_before(cells, cols, ends, row as int).len() == row - top,
        decreases ends.1.0 + 1 - row,
    {
        let first: u16 = if row == ends.0.0 as u32 {
            ends.0.1
        } else {
            0
        };
        let last: u16 = if row == ends.1.0 as u32 {
            ends.1.1
        } else {
            cols.saturating_sub(1)
        };
        let read = read_row(s, row as u16, first, last);
        let line = selected_line(&read);
        let ghost before = lines_before(cells, cols, ends, row as int);
        let ghost after = lines_before(cells, cols, ends, row + 1);
        assert(after == before.push(line@));
        assert(after.drop_last() =~= before);
        if row > ends.0.0 as u32 {
            out.append("\n");
        }
        out.append(line.as_str());
        proof {
            if before.len() == 0 {
                assert(after[0] == line@);
                assert(out@ =~= line@);
            }
        }
        row = row + 1;
    }
    out
}

impl App {
    /// The selected text of the terminal, if there is a selection.
    pub fn copy_selection(&self, s: &vt100::Screen) -> (r: Option<String>)
        ensures
            text::opt_text(r) == (match (self@.selection.start, self@.selection.end) {
                (Some(start), Some(end)) => Some(
                    selection_text(screen_cells(*s), screen_state(*s).cols, start, end),
                ),
                _ => None,
            }),
    {
        match (self.selection.start, self.selection.end) {
            (Some(start), Some(end)) => Some(selected_text(s, start, end)),
            _ => None,
        }
    }
}

/// It does not matter at which end a selection began: the same cells are
/// selected, and the same text.
pub proof fn law_selection_has_no_direction(
    cells: Map<(u16, u16), CellView>,
    cols: u16,
    start: (u16, u16),
    end: (u16, u16),
    row: u16,
    col: u16,
)
    ensures
        is_selected(start, end, row, col) == is_selected(end, start, row, col),
        selection_text(cells, cols, start, end) == selection_text(cells, cols, end, start),
{
    assert(ordered(start, end) == ordered(end, start));
}

/// Both ends of a selection are selected.
pub proof fn law_selection_has_its_ends(start: (u16, u16), end: (u16, u16))
    ensures
        is_selected(start, end, start.0, start.1),
        is_selected(start, end, end.0, end.1),
{
}

/// The text of a selection has one line for each selected row.
pub proof fn law_selection_has_a_line_per_row(
    cells: Map<(u16, u16), CellView>,
    cols: u16,
    ends: ((u16, u16), (u16, u16)),
    row: int,
)
    requires
        ends.0.0 <= row,
    ensures
        lines_before(cells, cols, ends, row).len() == row - ends.0.0,
    decreases row,
{
    if row > ends.0.0 {
        law_selection_has_a_line_per_row(cells, cols, ends, row - 1);
    }
}

/// A selection holds the cells from one end to the other as one reads: row by row,
/// whole rows between the first and the last.
pub proof fn law_selection_is_read_row_by_row(
    start: (u16, u16),
    end: (u16, u16),
    row: u16,
    col: u16,
)
    requires
        start.0 < end.0 || (start.0 == end.0 && start.1 <= end.1),
    ensures
        is_selected(start, end, row, col) <==> {
            &&& start.0 <= row <= end.0
            &&& row == start.0 ==> start.1 <= col
            &&& row == end.0 ==> col <= end.1
        },
        ordered(start, end) == (start, end),
        ordered(end, start) == (start, end),
{
}

/// What a place of the screen holds: a space where there is no cell.
pub open spec fn held_at(cells: Map<(u16, u16), CellView>, row: int, col: int) -> Seq<char> {
    if cells.contains_key((row as u16, col as u16)) {
        cells[(row as u16, col as u16)].contents
    } else {
        " "@
    }
}

/// What the places of a row hold, from one column up to before another.
pub open spec fn held_between(
    cells: Map<(u16, u16), CellView>,
    row: int,
    from: int,
    to: int,
) -> Seq<char>
    decreases to - from,
{
    if to <= from {
        Seq::empty()
    } else {
        held_between(cells, row, from, to - 1) + held_at(cells, row, to - 1)
    }
}

proof fn lemma_row_text(cells: Map<(u16, u16), CellView>, row: int, from: int, to: int)
    requires
        0 <= from <= to + 1,
    ensures
        cells_text(row_cells(cells, row, (from, to))) == held_between(cells, row, from, to + 1),
    decreases to - from + 1,
{
    let parts = row_cells(cells, row, (from, to));
    if from <= to {
        lemma_row_text(cells, row, from, to - 1);
        assert(parts.drop_last() =~= row_cells(cells, row, (from, to - 1)));
    }
}

/// The line of a selected row is what its places hold, without the blanks at its
/// end.
pub open spec fn is_line_of(
    cells: Map<(u16, u16), CellView>,
    row: int,
    from: int,
    to: int,
    line: Seq<char>,
) -> bool {
    let all = held_between(cells, row, from, to);
    &&& line.is_prefix_of(all)
    &&& forall|i: int| line.len() <= i < all.len() ==> text::is_white(#[trigger] all[i])
    &&& line.len() > 0 ==> !text::is_white(line.last())
}

/// The text of a selection has a line for each selected row, with line feeds
/// between: the first from where the selection begins, the last up to where it
/// ends, and the others whole.
pub proof fn law_selected_text_is_what_is_selected(
    cells: Map<(u16, u16), CellView>,
    cols: u16,
    start: (u16, u16),
    end: (u16, u16),
    row: int,
)
    requires
        start.0 < end.0 || (start.0 == end.0 && start.1 <= end.1),
        start.0 <= row <= end.0,
        start.1 < cols,
        end.1 < cols,
    ensures
        ({
            let lines = lines_before(cells, cols, (start, end), end.0 + 1);
            let from = if row == start.0 {
                start.1 as int
            } else {
                0
            };
            let to = if row == end.0 {
                end.1 + 1
            } else {
                cols as int
            };
            &&& selection_text(cells, cols, start, end) == text::join(lines, "\n"@)
            &&& lines.len() == end.0 - start.0 + 1
            &&& is_line_of(cells, row, from, to, lines[row - start.0])
        }),
{
    let ends = (start, end);
    law_selection_has_a_line_per_row(cells, cols, ends, end.0 + 1);
    lemma_line_kept(cells, cols, ends, end.0 + 1, row);
    let span = row_span(ends, cols, row);
    let line = line_text(row_cells(cells, row, span));
    lemma_row_text(cells, row, span.0, span.1);
    let all = held_between(cells, row, span.0, span.1 + 1);
    text::law_ends_are_dropped(all, text::CharClass::White);
    assert(line == text::drop_trailing(all, text::CharClass::White));
    assert forall|i: int| line.len() <= i < all.len() implies text::is_white(#[trigger] all[i]) by {
        assert(text::in_class(text::CharClass::White, all[i]));
    }
}

proof fn lemma_line_kept(
    cells: Map<(u16, u16), CellView>,
    cols: u16,
    ends: ((u16, u16), (u16, u16)),
    n: int,
    row: int,
)
    requires
        ends.0.0 <= row < n,
    ensures
        lines_before(cells, cols, ends, n).len() == n - ends.0.0,
        lines_before(cells, cols, ends, n)[row - ends.0.0] == line_text(
            row_cells(cells, row, row_span(ends, cols, row)),
        ),
    decreases n,
{
    law_selection_has_a_line_per_row(cells, cols, ends, n - 1);
    if row < n - 1 {
        lemma_line_kept(cells, cols, ends, n - 1, row);
    }
}

/// A program has taken over the terminal where it shows its other screen, hides the
/// cursor or takes the cursor keys; it asks for reports where it has set a mode of
/// the mouse.
pub proof fn law_what_programs_take_over(sc: ScreenState)
    ensures
        sc.app_active() <==> sc.alternate_screen || sc.hide_cursor || sc.application_cursor,
        sc.mouse_reporting() <==> sc.mouse_mode != MouseMode::Off,
        sc.sgr_mouse() <==> sc.mouse_encoding == MouseEncoding::Sgr,
{
}

} // verus!
