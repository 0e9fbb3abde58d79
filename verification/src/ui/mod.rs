//! Where the parts of the dashboard lie and what they show.

pub mod geometry;
pub mod modals;
pub mod sidebar;
pub mod statusbar;
pub mod style;
pub mod terminal;

use crate::ui::geometry::{Extent, Direction, Rect};
use vstd::prelude::*;

verus! {

/// The areas of the dashboard.
pub struct LayoutResults {
    pub term_area: Rect,
    pub scrollbar_area: Rect,
    pub sidebar_area: Rect,
    pub sidebar_scrollbar_area: Rect,
    pub status_chunks: Vec<Rect>,
}

/// What the areas of the dashboard are.
pub ghost struct LayoutView {
    pub term_area: Rect,
    pub scrollbar_area: Rect,
    pub sidebar_area: Rect,
    pub sidebar_scrollbar_area: Rect,
    pub status_chunks: Seq<Rect>,
}

impl View for LayoutResults {
    type V = LayoutView;

    open spec fn view(&self) -> LayoutView {
        LayoutView {
            term_area: self.term_area,
            scrollbar_area: self.scrollbar_area,
            sidebar_area: self.sidebar_area,
            sidebar_scrollbar_area: self.sidebar_scrollbar_area,
            status_chunks: self.status_chunks@,
        }
    }
}

/// The screen has coordinates, and room for the status bars and a sidebar of
/// the given width.
pub open spec fn has_room(size: Rect, sidebar_width: u16) -> bool {
    &&& size.x + size.width <= 65535
    &&& size.y + size.height <= 65535
    &&& 2 <= size.height
    &&& 2 <= sidebar_width <= size.width
}

/// The areas of a screen that has room for them: the terminal to the left, then
/// a column for its scrollbar, the sidebar and a column for the sidebar's
/// scrollbar; the status bars in the last two rows.
pub open spec fn layout_at(size: Rect, sidebar_width: u16) -> LayoutView {
    let height = (size.height - 2) as u16;
    let beside = size.x + size.width - sidebar_width;
    LayoutView {
        term_area: Rect {
            x: size.x,
            y: size.y,
            width: (size.width - sidebar_width) as u16,
            height,
        },
        scrollbar_area: Rect { x: beside as u16, y: size.y, width: 1, height },
        sidebar_area: Rect {
            x: (beside + 1) as u16,
            y: size.y,
            width: (sidebar_width - 2) as u16,
            height,
        },
        sidebar_scrollbar_area: Rect {
            x: (size.x + size.width - 1) as u16,
            y: size.y,
            width: 1,
            height,
        },
        status_chunks: seq![
            Rect {
                x: size.x,
                y: (size.y + size.height - 2) as u16,
                width: size.width,
                height: 1,
            },
            Rect {
                x: size.x,
                y: (size.y + size.height - 1) as u16,
                width: size.width,
                height: 1,
            },
        ],
    }
}

/// `l` comes of splitting the screen into `rows`, the upper one into `panes`
/// and the right one of those into `columns`.
pub open spec fn layout_parts(
    size: Rect,
    sidebar_width: u16,
    rows: Seq<Rect>,
    panes: Seq<Rect>,
    columns: Seq<Rect>,
    l: LayoutView,
) -> bool {
    &&& geometry::strips(
        Direction::Vertical,
        0,
        seq![Extent::Fill(1), Extent::Length(2)],
        size,
        rows,
    )
    &&& geometry::strips(
        Direction::Horizontal,
        0,
        seq![Extent::Fill(1), Extent::Length(sidebar_width)],
        rows[0],
        panes,
    )
    &&& geometry::strips(
        Direction::Horizontal,
        0,
        seq![
            Extent::Length(1),
            Extent::Length(0),
            Extent::Fill(1),
            Extent::Length(1),
        ],
        panes[1],
        columns,
    )
    &&& geometry::strips(
        Direction::Vertical,
        0,
        seq![Extent::Length(1), Extent::Length(1)],
        rows[1],
        l.status_chunks,
    )
    &&& l.term_area == panes[0]
    &&& l.scrollbar_area == columns[0]
    &&& l.sidebar_area == columns[2]
    &&& l.sidebar_scrollbar_area == columns[3]
}

/// `l` is a layout of a screen with a sidebar of the given width.
pub open spec fn is_layout(size: Rect, sidebar_width: u16, l: LayoutView) -> bool {
    exists|rows: Seq<Rect>, panes: Seq<Rect>, columns: Seq<Rect>|
        layout_parts(size, sidebar_width, rows, panes, columns, l)
}

/// The areas of a screen with a sidebar of the given width.
pub fn calculate_layout(size: Rect, sidebar_width: u16) -> (l: LayoutResults)
    ensures
        is_layout(size, sidebar_width, l@),
        has_room(size, sidebar_width) ==> l@ == layout_at(size, sidebar_width),
        l.status_chunks@.len() == 2,
{
    let across = vec![Extent::Fill(1), Extent::Length(2)];
    assert(across@ =~= seq![Extent::Fill(1), Extent::Length(2)]);
    let rows = geometry::split(Direction::Vertical, 0, &across, size);
    let beside = vec![Extent::Fill(1), Extent::Length(sidebar_width)];
    assert(beside@ =~= seq![Extent::Fill(1), Extent::Length(sidebar_width)]);
    let panes = geometry::split(Direction::Horizontal, 0, &beside, rows[0]);
    let within = vec![
        Extent::Length(1),
        Extent::Length(0),
        Extent::Fill(1),
        Extent::Length(1),
    ];
    assert(within@ =~= seq![
        Extent::Length(1),
        Extent::Length(0),
        Extent::Fill(1),
        Extent::Length(1),
    ]);
    let columns = geometry::split(Direction::Horizontal, 0, &within, panes[1]);
    let bars = vec![Extent::Length(1), Extent::Length(1)];
    assert(bars@ =~= seq![Extent::Length(1), Extent::Length(1)]);
    let status_chunks = geometry::split(Direction::Vertical, 0, &bars, rows[1]);
    let l = LayoutResults {
        term_area: panes[0],
        scrollbar_area: columns[0],
        sidebar_area: columns[2],
        sidebar_scrollbar_area: columns[3],
        status_chunks,
    };
    proof {
        assert(layout_parts(size, sidebar_width, rows@, panes@, columns@, l@));
        if has_room(size, sidebar_width) {
            law_layout_settled(size, sidebar_width, l@);
        }
    }
    l
}

proof fn lemma_rest_then_length(n: u16, whole: int)
    ensures
        ({
            let c = seq![Extent::Fill(1), Extent::Length(n)];
            &&& geometry::asks_lengths(c)
            &&& geometry::lengths(c) == n
            &&& geometry::reach(c, whole, 0) == 0
            &&& geometry::reach(c, whole, 1) == whole - n
            &&& geometry::reach(c, whole, 2) == whole
        }),
{
    let c = seq![Extent::Fill(1), Extent::Length(n)];
    geometry::lemma_sums_ends(c);
    geometry::lemma_sums_step(c, 0);
    geometry::lemma_sums_step(c, 1);
    geometry::lemma_reach_one_rest(c, whole, 0);
    geometry::lemma_reach_one_rest(c, whole, 1);
    geometry::lemma_reach_one_rest(c, whole, 2);
}

proof fn lemma_sidebar_columns(whole: int)
    ensures
        ({
            let c = seq![
                Extent::Length(1),
                Extent::Length(0),
                Extent::Fill(1),
                Extent::Length(1),
            ];
            &&& geometry::asks_lengths(c)
            &&& geometry::lengths(c) == 2
            &&& geometry::reach(c, whole, 0) == 0
            &&& geometry::reach(c, whole, 1) == 1
            &&& geometry::reach(c, whole, 2) == 1
            &&& geometry::reach(c, whole, 3) == whole - 1
            &&& geometry::reach(c, whole, 4) == whole
        }),
{
    let c = seq![Extent::Length(1), Extent::Length(0), Extent::Fill(1), Extent::Length(1)];
    geometry::lemma_sums_ends(c);
    geometry::lemma_sums_step(c, 0);
    geometry::lemma_sums_step(c, 1);
    geometry::lemma_sums_step(c, 2);
    geometry::lemma_sums_step(c, 3);
    geometry::lemma_reach_one_rest(c, whole, 0);
    geometry::lemma_reach_one_rest(c, whole, 1);
    geometry::lemma_reach_one_rest(c, whole, 2);
    geometry::lemma_reach_one_rest(c, whole, 3);
    geometry::lemma_reach_one_rest(c, whole, 4);
}

proof fn lemma_two_bars(whole: int)
    ensures
        ({
            let c = seq![Extent::Length(1), Extent::Length(1)];
            &&& geometry::asks_lengths(c)
            &&& geometry::lengths(c) == 2
            &&& geometry::reach(c, whole, 0) == 0
            &&& geometry::reach(c, whole, 1) == 1
            &&& geometry::reach(c, whole, 2) == 2
        }),
{
    let c = seq![Extent::Length(1), Extent::Length(1)];
    geometry::lemma_sums_ends(c);
    geometry::lemma_sums_step(c, 0);
    geometry::lemma_sums_step(c, 1);
    geometry::lemma_reach_one_rest(c, whole, 0);
    geometry::lemma_reach_one_rest(c, whole, 1);
    geometry::lemma_reach_one_rest(c, whole, 2);
}

/// A screen that has room for its areas has one layout.
pub proof fn law_layout_settled(size: Rect, sidebar_width: u16, l: LayoutView)
    requires
        is_layout(size, sidebar_width, l),
        has_room(size, sidebar_width),
    ensures
        l == layout_at(size, sidebar_width),
{
    let (rows, panes, columns) = choose|rows: Seq<Rect>, panes: Seq<Rect>, columns: Seq<Rect>|
        layout_parts(size, sidebar_width, rows, panes, columns, l);
    lemma_rest_then_length(2, size.height as int);
    lemma_rest_then_length(sidebar_width, size.width as int);
    lemma_sidebar_columns(sidebar_width as int);
    lemma_two_bars(2);
    assert(rows[0] == Rect { height: (size.height - 2) as u16, ..size });
    assert(rows[1] == Rect { y: (size.y + size.height - 2) as u16, height: 2, ..size });
    assert(panes[0] == layout_at(size, sidebar_width).term_area);
    assert(panes[1].x == size.x + size.width - sidebar_width);
    assert(panes[1].width == sidebar_width);
    assert(columns[0] == layout_at(size, sidebar_width).scrollbar_area);
    assert(columns[2] == layout_at(size, sidebar_width).sidebar_area);
    assert(columns[3] == layout_at(size, sidebar_width).sidebar_scrollbar_area);
    assert(l.status_chunks =~= layout_at(size, sidebar_width).status_chunks);
}

/// The areas of a screen that has room for them share it out: each cell of it
/// lies in one of them, and in one only.
pub proof fn law_layout_shares_screen(size: Rect, sidebar_width: u16, column: u16, row: u16)
    requires
        has_room(size, sidebar_width),
    ensures
        ({
            let l = layout_at(size, sidebar_width);
            let one = |b: bool|
                if b {
                    1int
                } else {
                    0
                };
            one(l.term_area.holds(column, row)) + one(l.scrollbar_area.holds(column, row)) + one(
                l.sidebar_area.holds(column, row),
            ) + one(l.sidebar_scrollbar_area.holds(column, row)) + one(
                l.status_chunks[0].holds(column, row),
            ) + one(l.status_chunks[1].holds(column, row)) == one(size.holds(column, row))
        }),
{
}

/// The areas of a layout do not overlap, and lie on the screen, whether it has
/// room for them or not.
pub proof fn law_layout_areas_apart(
    size: Rect,
    sidebar_width: u16,
    l: LayoutView,
    column: u16,
    row: u16,
)
    requires
        is_layout(size, sidebar_width, l),
    ensures
        l.term_area.holds(column, row) ==> size.holds(column, row) && !l.scrollbar_area.holds(
            column,
            row,
        ) && !l.sidebar_area.holds(column, row) && !l.sidebar_scrollbar_area.holds(column, row)
            && !l.status_chunks[0].holds(column, row) && !l.status_chunks[1].holds(column, row),
        l.scrollbar_area.holds(column, row) ==> size.holds(column, row) && !l.sidebar_area.holds(
            column,
            row,
        ) && !l.sidebar_scrollbar_area.holds(column, row) && !l.status_chunks[0].holds(column, row)
            && !l.status_chunks[1].holds(column, row),
        l.sidebar_area.holds(column, row) ==> size.holds(column, row)
            && !l.sidebar_scrollbar_area.holds(column, row) && !l.status_chunks[0].holds(column, row)
            && !l.status_chunks[1].holds(column, row),
        l.sidebar_scrollbar_area.holds(column, row) ==> size.holds(column, row)
            && !l.status_chunks[0].holds(column, row) && !l.status_chunks[1].holds(column, row),
        l.status_chunks[0].holds(column, row) ==> size.holds(column, row)
            && !l.status_chunks[1].holds(column, row),
        l.status_chunks[1].holds(column, row) ==> size.holds(column, row),
{
    let (rows, panes, columns) = choose|rows: Seq<Rect>, panes: Seq<Rect>, columns: Seq<Rect>|
        layout_parts(size, sidebar_width, rows, panes, columns, l);
    let bars = l.status_chunks;
    let c1 = seq![Extent::Fill(1), Extent::Length(2)];
    let c2 = seq![Extent::Fill(1), Extent::Length(sidebar_width)];
    let c3 = seq![Extent::Length(1), Extent::Length(0), Extent::Fill(1), Extent::Length(1)];
    let c4 = seq![Extent::Length(1), Extent::Length(1)];
    geometry::law_strips_apart(Direction::Vertical, 0, c1, size, rows, 0, 1);
    geometry::law_strips_apart(Direction::Vertical, 0, c1, size, rows, 1, 1);
    geometry::law_strips_apart(Direction::Horizontal, 0, c2, rows[0], panes, 0, 1);
    geometry::law_strips_apart(Direction::Horizontal, 0, c2, rows[0], panes, 1, 1);
    geometry::law_strips_apart(Direction::Horizontal, 0, c3, panes[1], columns, 0, 2);
    geometry::law_strips_apart(Direction::Horizontal, 0, c3, panes[1], columns, 2, 3);
    geometry::law_strips_apart(Direction::Vertical, 0, c4, rows[1], bars, 0, 1);
    geometry::law_strips_apart(Direction::Vertical, 0, c4, rows[1], bars, 1, 1);
    assert(rows[0].x == size.x && rows[0].width == size.width);
    assert(rows[1].x == size.x && rows[1].width == size.width);
    assert(panes[0].y == rows[0].y && panes[0].height == rows[0].height);
    assert(panes[1].y == rows[0].y && panes[1].height == rows[0].height);
    assert(columns[0].y == rows[0].y && columns[0].height == rows[0].height);
    assert(columns[2].y == rows[0].y && columns[2].height == rows[0].height);
    assert(columns[3].y == rows[0].y && columns[3].height == rows[0].height);
    assert(bars[0].x == size.x && bars[0].width == size.width);
    assert(bars[1].x == size.x && bars[1].width == size.width);
}

/// A screen has room for its areas where it has coordinates, at least two rows, and
/// at least as many columns as a sidebar of at least two.
pub proof fn law_screen_has_room(size: Rect, sidebar_width: u16)
    requires
        size.x + size.width <= 65535,
        size.y + size.height <= 65535,
        size.height >= 2,
        sidebar_width >= 2,
        sidebar_width <= size.width,
    ensures
        has_room(size, sidebar_width),
{
}

/// The sidebar with its two scrollbars takes the columns at the right that are set
/// for it, the terminal those at the left; the last two rows are the status bars.
pub proof fn law_layout_places(size: Rect, sidebar_width: u16)
    requires
        has_room(size, sidebar_width),
    ensures
        ({
            let l = layout_at(size, sidebar_width);
            let edge = size.x + size.width - sidebar_width;
            let rows = size.height - 2;
            let right = size.x + size.width;
            &&& l.term_area.x == size.x && l.term_area.x + l.term_area.width == edge
            &&& l.scrollbar_area.x == edge && l.scrollbar_area.width == 1
            &&& l.sidebar_area.x == edge + 1 && l.sidebar_area.x + l.sidebar_area.width == right - 1
            &&& l.sidebar_scrollbar_area.x == right - 1 && l.sidebar_scrollbar_area.width == 1
            &&& l.term_area.y == size.y && l.term_area.height == rows
            &&& l.scrollbar_area.y == size.y && l.scrollbar_area.height == rows
            &&& l.sidebar_area.y == size.y && l.sidebar_area.height == rows
            &&& l.sidebar_scrollbar_area.y == size.y && l.sidebar_scrollbar_area.height == rows
            &&& l.status_chunks.len() == 2
            &&& l.status_chunks[0].y == size.y + rows && l.status_chunks[0].height == 1
            &&& l.status_chunks[1].y == size.y + rows + 1 && l.status_chunks[1].height == 1
            &&& l.status_chunks[0].x == size.x && l.status_chunks[0].width == size.width
            &&& l.status_chunks[1].x == size.x && l.status_chunks[1].width == size.width
        }),
{
}

} // verus!
