//! What the terminal's area shows.

use crate::app;
use crate::app::App;
use crate::color::Color;
use crate::screen;
use crate::screen::{Cell, CellColor, ScreenState};
use crate::ui::geometry;
use crate::ui::geometry::Rect;
use crate::ui::style;
use crate::ui::style::{Span, Style};
use vstd::prelude::*;
use vstd::string::*;

verus! {

/// The terminal has to take another size to fill an area.
pub open spec fn misfits(sc: ScreenState, area: Rect) -> bool {
    area.height != sc.rows || area.width != sc.cols
}

/// Whether the terminal has to take another size to fill an area.
pub fn needs_resize(s: &vt100::Screen, area: Rect) -> (r: bool)
    ensures
        r == misfits(screen::screen_state(*s), area),
{
    let (rows, cols) = s.size();
    area.height != rows || area.width != cols
}

/// The colour behind the terminal: darker while the search field has the focus.
pub open spec fn background(configured: Color, is_search_focused: bool) -> Color {
    if is_search_focused {
        Color::Rgb(30, 30, 30)
    } else {
        configured
    }
}

/// The colour behind the terminal.
pub fn terminal_background(configured: Color, is_search_focused: bool) -> (r: Color)
    ensures
        r == background(configured, is_search_focused),
{
    if is_search_focused {
        Color::Rgb(30, 30, 30)
    } else {
        configured
    }
}

/// A colour that a cell asks for, if it asks for one.
pub open spec fn asked(c: CellColor) -> Option<Color> {
    match c {
        CellColor::Default => None,
        CellColor::Indexed(i) => Some(Color::Indexed(i)),
        CellColor::Rgb(r, g, b) => Some(Color::Rgb(r, g, b)),
    }
}

/// A colour that a cell asks for, if it asks for one.
fn asked_color(c: CellColor) -> (r: Option<Color>)
    ensures
        r == asked(c),
{
    match c {
        CellColor::Default => None,
        CellColor::Indexed(i) => Some(Color::Indexed(i)),
        CellColor::Rgb(r, g, b) => Some(Color::Rgb(r, g, b)),
    }
}

/// How a cell is shown; the second half of a wide character is not.
pub open spec fn cell_look(c: screen::CellView, bg: Color, selected: bool) -> Option<
    style::SpanView,
> {
    if c.flags.is_wide_continuation {
        None
    } else {
        let fg = if selected {
            Some(Color::White)
        } else {
            asked(c.fg)
        };
        let behind = if selected {
            Color::Rgb(80, 80, 80)
        } else {
            match asked(c.bg) {
                Some(b) => b,
                None => bg,
            }
        };
        Some(
            style::span(
                if c.contents.len() == 0 {
                    " "@
                } else {
                    c.contents
                },
                Style {
                    fg,
                    bg: Some(behind),
                    bold: c.flags.bold,
                    italic: c.flags.italic,
                    reversed: c.flags.inverse,
                    underlined: c.flags.underline,
                },
            ),
        )
    }
}

/// How a cell is shown.
pub fn look_of_cell(c: &Cell, bg: Color, selected: bool) -> (r: Option<Span>)
    ensures
        match r {
            Some(s) => cell_look(c@, bg, selected) == Some(s@),
            None => cell_look(c@, bg, selected) is None,
        },
{
    if c.flags.is_wide_continuation {
        return None;
    }
    let fg = if selected {
        Some(Color::White)
    } else {
        asked_color(c.fg)
    };
    let behind = if selected {
        Color::Rgb(80, 80, 80)
    } else {
        match asked_color(c.bg) {
            Some(b) => b,
            None => bg,
        }
    };
    let text = if c.contents.as_str().is_empty() {
        " ".to_owned()
    } else {
        c.contents.clone()
    };
    Some(
        Span {
            text,
            style: Style {
                fg,
                bg: Some(behind),
                bold: c.flags.bold,
                italic: c.flags.italic,
                reversed: c.flags.inverse,
                underlined: c.flags.underline,
            },
        },
    )
}

/// A cell is part of the selection, if there is one.
pub open spec fn in_selection(s: app::Selection, row: u16, col: u16) -> bool {
    match (s.start, s.end) {
        (Some(start), Some(end)) => screen::is_selected(start, end, row, col),
        _ => false,
    }
}

/// What is shown at a place of the terminal: a space where there is no cell.
pub open spec fn place_look(
    cells: Map<(u16, u16), screen::CellView>,
    s: app::Selection,
    bg: Color,
    row: u16,
    col: u16,
) -> Option<style::SpanView> {
    if cells.contains_key((row, col)) {
        cell_look(cells[(row, col)], bg, in_selection(s, row, col))
    } else {
        Some(style::span(" "@, style::colors(None, None)))
    }
}

impl App {
    /// Whether a cell is part of the selection.
    pub fn is_selected_cell(&self, row: u16, col: u16) -> (r: bool)
        ensures
            r == in_selection(self@.selection, row, col),
    {
        match (self.selection.start, self.selection.end) {
            (Some(start), Some(end)) => screen::selects(start, end, row, col),
            _ => false,
        }
    }

    /// What is shown at a place of the terminal, if something is.
    pub fn draw_cell(&self, s: &vt100::Screen, bg: Color, row: u16, col: u16) -> (r: Option<Span>)
        ensures
            match r {
                Some(shown) => place_look(
                    screen::screen_cells(*s),
                    self@.selection,
                    bg,
                    row,
                    col,
                ) == Some(shown@),
                None => place_look(
                    screen::screen_cells(*s),
                    self@.selection,
                    bg,
                    row,
                    col,
                ) is None,
            },
    {
        match screen::read_cell(s, row, col) {
            Some(c) => look_of_cell(&c, bg, self.is_selected_cell(row, col)),
            None => Some(Span { text: " ".to_owned(), style: Style::of(None, None) }),
        }
    }
}

/// Where the cursor stands on the screen: never outside the area; `None` where
/// its place has no coordinates.
pub open spec fn cursor_at(sc: ScreenState, area: Rect) -> Option<(u16, u16)> {
    let x = area.x + sc.cursor_col;
    let y = area.y + sc.cursor_row;
    let last_x = geometry::floored(area.right_edge() - 1);
    let last_y = geometry::floored(area.bottom_edge() - 1);
    if x > 65535 || y > 65535 {
        None
    } else {
        Some(
            (
                (if x < last_x {
                    x
                } else {
                    last_x
                }) as u16,
                (if y < last_y {
                    y
                } else {
                    last_y
                }) as u16,
            ),
        )
    }
}

/// Where the cursor stands on the screen.
pub fn cursor_place(sc: ScreenState, area: Rect) -> (r: Option<(u16, u16)>)
    ensures
        r == cursor_at(sc, area),
{
    if sc.cursor_col > 65535 - area.x || sc.cursor_row > 65535 - area.y {
        return None;
    }
    let x: u16 = area.x + sc.cursor_col;
    let y: u16 = area.y + sc.cursor_row;
    let last_x: u16 = area.right().saturating_sub(1);
    let last_y: u16 = area.bottom().saturating_sub(1);
    let cx: u16 = if x < last_x {
        x
    } else {
        last_x
    };
    let cy: u16 = if y < last_y {
        y
    } else {
        last_y
    };
    Some((cx, cy))
}

/// What the terminal's scrollbar shows.
#[derive(Clone, Copy, PartialEq, Eq, Structural, Debug)]
pub struct ScrollbarLook {
    pub length: usize,
    pub position: usize,
    pub thumb: Color,
    pub behind: Color,
}

/// The mouse is on an area.
pub open spec fn hovers(mouse: Option<(u16, u16)>, area: Rect) -> bool {
    match mouse {
        Some((x, y)) => area.holds(x, y),
        None => false,
    }
}

/// Whether the mouse is on an area.
pub fn is_hovered(mouse: Option<(u16, u16)>, area: Rect) -> (r: bool)
    ensures
        r == hovers(mouse, area),
{
    match mouse {
        Some((x, y)) => area.contains(x, y),
        None => false,
    }
}

/// What the terminal's scrollbar shows; it is red for the superuser.
pub open spec fn scrollbar_look(
    m: app::AppView,
    sc: ScreenState,
    area: Rect,
    is_sudo: bool,
) -> ScrollbarLook {
    ScrollbarLook {
        length: sc.scrollback_len,
        position: geometry::floored(sc.scrollback_len - sc.scrollback) as usize,
        thumb: if m.drags.sidebar {
            Color::Yellow
        } else if hovers(m.mouse_pos, area) || m.drags.term_scrollbar {
            Color::White
        } else {
            Color::Rgb(60, 60, 60)
        },
        behind: if is_sudo {
            Color::Red
        } else {
            Color::Black
        },
    }
}

impl App {
    /// What the terminal's scrollbar shows.
    pub fn draw_scrollbar(&self, sc: ScreenState, area: Rect, is_sudo: bool) -> (r: ScrollbarLook)
        ensures
            r == scrollbar_look(self@, sc, area, is_sudo),
    {
        ScrollbarLook {
            length: sc.scrollback_len,
            position: sc.scrollback_len.saturating_sub(sc.scrollback),
            thumb: if self.drags.sidebar {
                Color::Yellow
            } else if is_hovered(self.mouse_pos, area) || self.drags.term_scrollbar {
                Color::White
            } else {
                Color::Rgb(60, 60, 60)
            },
            behind: if is_sudo {
                Color::Red
            } else {
                Color::Black
            },
        }
    }
}

/// The cursor never leaves an area that has a cell.
pub proof fn law_cursor_stays_inside(sc: ScreenState, area: Rect)
    requires
        area.width > 0,
        area.height > 0,
        area.x + area.width <= 65535,
        area.y + area.height <= 65535,
    ensures
        cursor_at(sc, area) matches Some((x, y)) ==> area.holds(x, y),
{
}

/// A cell shows what it holds, or a space, in its own colours and set as it asks
/// for; a selected one is white on grey. The second half of a wide character shows
/// nothing, and a place without a cell a space.
pub proof fn law_cells_show_what_they_hold(
    cells: Map<(u16, u16), screen::CellView>,
    s: app::Selection,
    bg: Color,
    row: u16,
    col: u16,
)
    ensures
        ({
            let look = place_look(cells, s, bg, row, col);
            let c = cells[(row, col)];
            let selected = s.start is Some && s.end is Some && screen::is_selected(
                s.start->0,
                s.end->0,
                row,
                col,
            );
            let own = |k: CellColor|
                match k {
                    CellColor::Default => None,
                    CellColor::Indexed(i) => Some(Color::Indexed(i)),
                    CellColor::Rgb(r, g, b) => Some(Color::Rgb(r, g, b)),
                };
            &&& !cells.contains_key((row, col)) ==> (look matches Some(t) && t.text == " "@)
            &&& cells.contains_key((row, col)) && c.flags.is_wide_continuation ==> look is None
            &&& cells.contains_key((row, col)) && !c.flags.is_wide_continuation ==> (
            look matches Some(t) && {
                &&& c.contents.len() > 0 ==> t.text == c.contents
                &&& c.contents.len() == 0 ==> t.text == " "@
                &&& t.style.bold == c.flags.bold
                &&& t.style.italic == c.flags.italic
                &&& t.style.underlined == c.flags.underline
                &&& t.style.reversed == c.flags.inverse
                &&& selected ==> t.style.fg == Some(Color::White) && t.style.bg == Some(
                    Color::Rgb(80, 80, 80),
                )
                &&& !selected ==> t.style.fg == own(c.fg) && t.style.bg == (match own(c.bg) {
                    Some(b) => Some(b),
                    None => Some(bg),
                })
            })
        }),
{
}

/// The cursor stands where the terminal has it, as long as that is inside the area;
/// the terminal is resized where its size is not that of the area. The scrollbar
/// stands at the end while the view does.
pub proof fn law_terminal_fills_its_area(
    m: app::AppView,
    sc: ScreenState,
    area: Rect,
    is_sudo: bool,
)
    requires
        area.x + area.width <= 65535,
        area.y + area.height <= 65535,
    ensures
        sc.cursor_col < area.width && sc.cursor_row < area.height ==> cursor_at(sc, area) == Some(
            ((area.x + sc.cursor_col) as u16, (area.y + sc.cursor_row) as u16),
        ),
        misfits(sc, area) <==> !(sc.rows == area.height && sc.cols == area.width),
        scrollbar_look(m, sc, area, is_sudo).length == sc.scrollback_len,
        sc.scrollback <= sc.scrollback_len ==> scrollbar_look(m, sc, area, is_sudo).position
            + sc.scrollback == sc.scrollback_len,
        (scrollbar_look(m, sc, area, is_sudo).behind == Color::Red) == is_sudo,
{
}

/// The terminal lies on the configured colour, and on a dark grey while the search
/// field has the focus.
pub proof fn law_background_tells_the_focus(configured: Color)
    ensures
        background(configured, false) == configured,
        background(configured, true) == Color::Rgb(30, 30, 30),
{
}

/// The mouse is on an area where it stands on one of its cells, and nowhere while
/// its place is not known.
pub proof fn law_mouse_is_where_it_stands(x: u16, y: u16, area: Rect)
    requires
        area.x + area.width <= 65535,
        area.y + area.height <= 65535,
    ensures
        !hovers(None, area),
        hovers(Some((x, y)), area) <==> area.x <= x < area.x + area.width && area.y <= y < area.y
            + area.height,
{
}

/// The thumb of the scrollbar is yellow while the edge of the sidebar is dragged;
/// else it is white under the mouse or while it is dragged, and grey when left
/// alone.
pub proof fn law_thumb_tells_what_is_dragged(
    m: app::AppView,
    sc: ScreenState,
    area: Rect,
    is_sudo: bool,
)
    requires
        area.x + area.width <= 65535,
        area.y + area.height <= 65535,
    ensures
        ({
            let thumb = scrollbar_look(m, sc, area, is_sudo).thumb;
            let touched = m.mouse_pos matches Some((x, y)) && area.x <= x < area.x + area.width
                && area.y <= y < area.y + area.height;
            &&& m.drags.sidebar ==> thumb == Color::Yellow
            &&& !m.drags.sidebar && (touched || m.drags.term_scrollbar) ==> thumb == Color::White
            &&& !m.drags.sidebar && !touched && !m.drags.term_scrollbar ==> thumb == Color::Rgb(
                60,
                60,
                60,
            )
        }),
        !is_sudo ==> scrollbar_look(m, sc, area, is_sudo).behind == Color::Black,
        sc.scrollback > sc.scrollback_len ==> scrollbar_look(m, sc, area, is_sudo).position == 0,
{
}

/// A cursor beyond the area stands in its last column or row.
pub proof fn law_cursor_is_held_back(sc: ScreenState, area: Rect)
    requires
        area.width > 0,
        area.height > 0,
        area.x + area.width <= 65535,
        area.y + area.height <= 65535,
    ensures
        cursor_at(sc, area) is None <==> area.x + sc.cursor_col > 65535 || area.y + sc.cursor_row
            > 65535,
        cursor_at(sc, area) matches Some((x, y)) ==> {
            &&& sc.cursor_col >= area.width ==> x == area.x + area.width - 1
            &&& sc.cursor_row >= area.height ==> y == area.y + area.height - 1
            &&& sc.cursor_col < area.width ==> x == area.x + sc.cursor_col
            &&& sc.cursor_row < area.height ==> y == area.y + sc.cursor_row
        },
{
}

} // verus!
