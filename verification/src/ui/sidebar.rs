//! What the sidebar shows.

use crate::app;
use crate::app::{App, SidebarMode};
use crate::color::Color;
use crate::handlers;
use crate::listing;
use crate::screen::ScreenState;
use crate::text;
use crate::ui::geometry;
use crate::ui::geometry::{Extent, Direction, Rect};
use crate::ui::style;
use crate::ui::style::{Span, Style};
use crate::ui::terminal;
use vstd::prelude::*;
use vstd::string::*;

verus! {

/// How the sidebar is split: tabs, search field, list and, for the gists, a
/// button below.
pub open spec fn sidebar_rows(gists: bool) -> Seq<Extent> {
    let above = seq![Extent::Length(1), Extent::Length(1), Extent::Min(0)];
    if gists {
        above.push(Extent::Length(1))
    } else {
        above
    }
}

/// The sidebar has coordinates, and room for what is above and below the list.
pub open spec fn sidebar_has_room(area: Rect, gists: bool) -> bool {
    &&& area.y + area.height <= 65535
    &&& area.height >= if gists {
        3int
    } else {
        2
    }
}

/// The areas of the sidebar where it has room for them.
pub open spec fn sidebar_at(area: Rect, gists: bool) -> Seq<Rect> {
    let above = seq![
        handlers::sidebar::tabs_area(area),
        handlers::sidebar::search_area(area),
        handlers::sidebar::strip_at(area, 2, handlers::sidebar::list_height(area, gists)),
    ];
    if gists {
        above.push(handlers::sidebar::new_button_area(area))
    } else {
        above
    }
}

/// The areas of the sidebar.
pub fn sidebar_areas(area: Rect, gists: bool) -> (r: Vec<Rect>)
    ensures
        geometry::strips(Direction::Vertical, 0, sidebar_rows(gists), area, r@),
        sidebar_has_room(area, gists) ==> r@ == sidebar_at(area, gists),
{
    let mut down = vec![Extent::Length(1), Extent::Length(1), Extent::Min(0)];
    if gists {
        down.push(Extent::Length(1));
    }
    assert(down@ =~= sidebar_rows(gists));
    let parts = geometry::split(Direction::Vertical, 0, &down, area);
    proof {
        if sidebar_has_room(area, gists) {
            law_sidebar_settled(area, gists, parts@);
        }
    }
    parts
}

/// Where the sidebar has room for its areas, they are drawn where clicks are
/// tested against them; of the list, where the sidebar has at most 65535 cells.
pub proof fn law_sidebar_settled(area: Rect, gists: bool, parts: Seq<Rect>)
    requires
        geometry::strips(Direction::Vertical, 0, sidebar_rows(gists), area, parts),
        sidebar_has_room(area, gists),
    ensures
        parts == sidebar_at(area, gists),
        area.width * area.height <= 65535 ==> parts[2] == handlers::sidebar::list_area(area, gists),
{
    let c = sidebar_rows(gists);
    let whole = area.height as int;
    geometry::lemma_sums_ends(c);
    geometry::lemma_sums_step(c, 0);
    geometry::lemma_sums_step(c, 1);
    geometry::lemma_sums_step(c, 2);
    geometry::lemma_reach_one_rest(c, whole, 0);
    if gists {
        geometry::lemma_sums_step(c, 3);
        geometry::lemma_reach_one_rest(c, whole, 4);
    }
    geometry::lemma_reach_one_rest(c, whole, 1);
    geometry::lemma_reach_one_rest(c, whole, 2);
    geometry::lemma_reach_one_rest(c, whole, 3);
    assert(geometry::asks_lengths(c));
    assert(parts =~= sidebar_at(area, gists));
    let rows = handlers::sidebar::list_height(area, gists);
    assert(area.width * rows <= area.width * area.height) by (nonlinear_arith)
        requires
            0 <= rows <= area.height,
    ;
}

/// How the selected row of the list is set: in bold, unless a program has taken
/// over the terminal.
pub fn selected_style(sc: ScreenState) -> (r: Style)
    ensures
        r == (Style { bold: !sc.app_active(), ..style::colors(None, None) }),
{
    Style {
        fg: None,
        bg: None,
        bold: !sc.is_app_active(),
        italic: false,
        reversed: false,
        underlined: false,
    }
}

/// What the mouse is on in a row of the list.
#[derive(Clone, Copy, PartialEq, Eq, Structural, Debug)]
pub struct RowHover {
    pub row: bool,
    /// The mark that runs the row.
    pub button: bool,
    /// The mark that deletes it.
    pub delete: bool,
}

/// The mouse is on the row at position `index` of a list whose first row shown
/// is `offset`; `None` where the row has no coordinate.
pub open spec fn row_hovered(
    mouse: Option<(u16, u16)>,
    list: Rect,
    index: usize,
    offset: usize,
) -> Option<bool> {
    match mouse {
        Some((x, y)) if list.holds(x, y) => {
            let row = list.y + geometry::floored(index % 65536 - offset % 65536);
            if row > 65535 {
                None
            } else if y != row || index < offset {
                Some(false)
            } else if offset + list.height > usize::MAX {
                None
            } else {
                Some(index < offset + list.height)
            }
        },
        _ => Some(false),
    }
}

/// What the mouse is on in the row at position `index`.
pub open spec fn hover_of(
    mouse: Option<(u16, u16)>,
    list: Rect,
    index: usize,
    offset: usize,
) -> Option<RowHover> {
    match row_hovered(mouse, list, index, offset) {
        None => None,
        Some(row) => {
            let x = match mouse {
                Some((x, _)) => x as int,
                None => 0,
            };
            Some(
                RowHover {
                    row,
                    button: row && x == list.x + 1,
                    delete: row && list.x + geometry::floored(list.width - 4) <= x < list.x
                        + geometry::floored(list.width - 1),
                },
            )
        },
    }
}

/// What the mouse is on in the row at position `index`.
pub fn hover_row(mouse: Option<(u16, u16)>, list: Rect, index: usize, offset: usize) -> (r: Option<
    RowHover,
>)
    requires
        list.x + list.width <= 65535,
    ensures
        r == hover_of(mouse, list, index, offset),
{
    let none = RowHover { row: false, button: false, delete: false };
    match mouse {
        Some((x, y)) => {
            if !list.contains(x, y) {
                return Some(none);
            }
            let at: usize = index % 65536;
            let first: usize = offset % 65536;
            let down: u16 = at.saturating_sub(first) as u16;
            if down > 65535 - list.y {
                return None;
            }
            if y != list.y + down || index < offset {
                return Some(none);
            }
            if offset > usize::MAX - list.height as usize {
                return None;
            }
            let row = index < offset + list.height as usize;
            Some(
                RowHover {
                    row,
                    button: row && x == list.x + 1,
                    delete: row && x >= list.x + list.width.saturating_sub(4) && x < list.x
                        + list.width.saturating_sub(1),
                },
            )
        },
        None => Some(none),
    }
}

/// The colour of a row; of the info it is the lower case that counts.
pub open spec fn row_color(
    mode: SidebarMode,
    command: Seq<char>,
    lower_info: Option<Seq<char>>,
) -> Color {
    match mode {
        SidebarMode::History => Color::Rgb(200, 200, 200),
        SidebarMode::Gists => Color::Yellow,
        SidebarMode::Commands => if text::contains(command, "<prompt"@) {
            Color::Green
        } else if text::contains(command, "sudo"@) || (lower_info is Some && text::contains(
            lower_info->0,
            "sudo"@,
        )) {
            Color::Red
        } else {
            Color::White
        },
    }
}

/// The colour of a row.
pub fn color_of_row(mode: SidebarMode, command: &str, lower_info: Option<&str>) -> (r: Color)
    ensures
        r == row_color(
            mode,
            command@,
            match lower_info {
                Some(i) => Some(i@),
                None => None,
            },
        ),
{
    match mode {
        SidebarMode::History => Color::Rgb(200, 200, 200),
        SidebarMode::Gists => Color::Yellow,
        SidebarMode::Commands => {
            if text::text_contains(command, "<prompt") {
                return Color::Green;
            }
            let mut risky: bool = text::text_contains(command, "sudo");
            if let Some(info) = lower_info {
                risky = risky || text::text_contains(info, "sudo");
            }
            if risky {
                Color::Red
            } else {
                Color::White
            }
        },
    }
}

/// What a row of the list is drawn from.
pub struct RowInput {
    pub mode: SidebarMode,
    pub label: String,
    /// The history has none.
    pub info: Option<String>,
    pub command: String,
    pub color: Color,
    pub is_selected: bool,
    pub is_locked: bool,
    pub hover: RowHover,
    /// Gists are being fetched, and this is their first row.
    pub is_loading: bool,
    /// The time in nanoseconds since the start.
    pub now: u64,
    /// The colour behind the sidebar.
    pub bg: Color,
    /// The width of the list.
    pub width: u16,
}

pub ghost struct RowView {
    pub mode: SidebarMode,
    pub label: Seq<char>,
    pub info: Option<Seq<char>>,
    pub command: Seq<char>,
    pub color: Color,
    pub is_selected: bool,
    pub is_locked: bool,
    pub hover: RowHover,
    pub is_loading: bool,
    pub now: u64,
    pub bg: Color,
    pub width: u16,
}

impl View for RowInput {
    type V = RowView;

    open spec fn view(&self) -> RowView {
        RowView {
            mode: self.mode,
            label: self.label@,
            info: text::opt_text(self.info),
            command: self.command@,
            color: self.color,
            is_selected: self.is_selected,
            is_locked: self.is_locked,
            hover: self.hover,
            is_loading: self.is_loading,
            now: self.now,
            bg: self.bg,
            width: self.width,
        }
    }
}

/// A bar that turns while gists are fetched.
pub open spec fn spinner(now: u64) -> Seq<char> {
    let phase = (now / 150_000_000) % 4;
    if phase == 0 {
        "|"@
    } else if phase == 1 {
        "/"@
    } else if phase == 2 {
        "-"@
    } else {
        "\\"@
    }
}

/// `s` without the mark of a script in front.
pub open spec fn unmarked(s: Seq<char>) -> Seq<char> {
    if text::starts_with(s, "__SCRIPT__"@) {
        s.skip("__SCRIPT__"@.len() as int)
    } else {
        s
    }
}

impl RowView {
    /// The label as it is shown.
    pub open spec fn label_shown(self) -> Seq<char> {
        unmarked(
            if self.is_loading {
                spinner(self.now) + " LOADING ..."@
            } else {
                self.label
            },
        )
    }

    /// The info says too little, and the command stands in for it.
    pub open spec fn is_fallback(self) -> bool {
        self.info matches Some(info) && (text::trim(info).len() == 0 || text::byte_len(info) < 3)
    }

    /// The row is that of a script.
    pub open spec fn is_script(self) -> bool {
        self.info matches Some(info) && text::starts_with(info, "__SCRIPT__"@)
    }

    /// The info, or what stands in for it, behind a space.
    pub open spec fn info_spaced(self) -> Seq<char> {
        match self.info {
            Some(info) => " "@ + (if self.is_fallback() {
                self.command
            } else {
                info
            }),
            None => Seq::empty(),
        }
    }

    /// The info as it is shown: without the mark of a script.
    pub open spec fn info_shown(self) -> Seq<char> {
        let s = self.info_spaced();
        if text::starts_with(text::drop_leading(s, text::CharClass::White), "__SCRIPT__"@) {
            let t = without_first(s, "__SCRIPT__"@);
            if text::starts_with(t, "  "@) {
                t.skip(1)
            } else {
                t
            }
        } else {
            s
        }
    }

    /// The command is shown behind a short label.
    pub open spec fn shows_command(self) -> bool {
        text::byte_len(self.label_shown()) < 20 && !(self.mode is History)
    }

    /// The colour behind the row.
    pub open spec fn row_bg(self) -> Color {
        if !self.is_locked && self.is_selected {
            Color::Rgb(60, 60, 60)
        } else {
            self.bg
        }
    }

    pub open spec fn label_style(self) -> Style {
        if self.is_locked {
            style::set_in(Color::DarkGray, self.row_bg(), false)
        } else {
            style::set_in(self.color, self.row_bg(), self.is_selected || self.hover.row)
        }
    }

    pub open spec fn indicator_style(self) -> Style {
        if self.is_locked {
            style::set_in(Color::Rgb(25, 25, 25), self.row_bg(), false)
        } else if self.hover.button {
            style::set_in(self.bg, Color::White, true)
        } else {
            style::set_in(Color::Rgb(50, 50, 50), self.row_bg(), false)
        }
    }

    pub open spec fn delete_style(self) -> Style {
        if self.is_locked {
            style::set_in(Color::Rgb(25, 25, 25), self.row_bg(), false)
        } else if self.hover.delete {
            style::set_in(Color::White, Color::Red, true)
        } else if self.hover.row {
            style::set_in(Color::Rgb(100, 50, 50), self.row_bg(), false)
        } else {
            style::set_in(self.bg, self.row_bg(), false)
        }
    }

    pub open spec fn info_style(self) -> Style {
        if self.is_fallback() {
            style::set_in(Color::Rgb(50, 50, 50), self.row_bg(), false)
        } else {
            style::set_in(
                Color::Rgb(90, 90, 90),
                self.row_bg(),
                self.hover.row || self.is_selected,
            )
        }
    }
}

/// `s` without the first occurrence of `p`.
pub open spec fn without_first(s: Seq<char>, p: Seq<char>) -> Seq<char> {
    match text::find(s, p) {
        Some(i) => s.take(i) + s.skip(i + p.len()),
        None => s,
    }
}

/// A text cut to so many bytes, with two dots where it is longer; `None` where
/// it would have to be cut inside a character.
pub open spec fn cut(s: Seq<char>, room: int) -> Option<Seq<char>> {
    if text::byte_len(s) > room {
        match text::char_boundary(s, geometry::floored(room - 2) as nat) {
            Some(n) => Some(s.take(n as int) + ".."@),
            None => None,
        }
    } else {
        Some(s)
    }
}

/// Texts of a row and the bytes left for more.
pub ghost struct RowPart {
    pub spans: Seq<style::SpanView>,
    pub room: int,
}

/// A text is added as far as there is room.
pub open spec fn part_added(p: RowPart, s: Seq<char>, set: Style) -> Option<RowPart> {
    if s.len() > 0 && p.room > 3 {
        match cut(s, p.room) {
            Some(t) => Some(
                RowPart {
                    spans: p.spans.push(style::span(t, set)),
                    room: geometry::floored(p.room - text::byte_len(t)),
                },
            ),
            None => None,
        }
    } else {
        Some(p)
    }
}

/// The label is added.
pub open spec fn label_added(r: RowView) -> Option<RowPart> {
    let room = geometry::floored(
        r.width - (if r.mode is Gists {
            5int
        } else {
            2
        }),
    );
    match cut(r.label_shown(), room) {
        Some(t) => Some(
            RowPart {
                spans: seq![
                    style::span(" "@, style::colors(None, Some(r.row_bg()))),
                    style::span("▸"@, r.indicator_style()),
                    style::span(t, r.label_style()),
                ],
                room: geometry::floored(room - text::byte_len(t)),
            },
        ),
        None => None,
    }
}

/// A script gets a badge where there is room.
pub open spec fn badge_added(p: RowPart, r: RowView) -> RowPart {
    if r.is_script() && p.room >= 7 {
        RowPart {
            spans: p.spans.push(
                style::span(" SCRIPT"@, style::set_in(Color::Rgb(80, 80, 80), r.row_bg(), false)),
            ),
            room: p.room - 7,
        }
    } else {
        p
    }
}

/// The script of a gist gets a mark to delete it, at the end of the row.
pub open spec fn mark_added(p: RowPart, r: RowView) -> Seq<style::SpanView> {
    if r.mode is Gists && r.is_script() {
        (if p.room > 0 {
            p.spans.push(
                style::span(
                    Seq::new(p.room as nat, |i: int| ' '),
                    style::colors(None, Some(r.row_bg())),
                ),
            )
        } else {
            p.spans
        }).push(style::span(" x "@, r.delete_style()))
    } else {
        p.spans
    }
}

/// The texts of a row; `None` where one of them would have to be cut inside a
/// character.
pub open spec fn row_spans(r: RowView) -> Option<Seq<style::SpanView>> {
    match label_added(r) {
        None => None,
        Some(p1) => {
            let p2 = badge_added(p1, r);
            let info = if r.shows_command() && r.is_fallback() {
                Seq::empty()
            } else {
                r.info_shown()
            };
            match part_added(p2, info, r.info_style()) {
                None => None,
                Some(p3) => {
                    let command = if r.shows_command() {
                        " "@ + r.command
                    } else {
                        Seq::empty()
                    };
                    match part_added(
                        p3,
                        command,
                        style::set_in(Color::Rgb(50, 50, 50), r.row_bg(), false),
                    ) {
                        None => None,
                        Some(p4) => Some(mark_added(p4, r)),
                    }
                },
            }
        },
    }
}

/// A text cut to so many bytes.
pub fn cut_text(s: &str, room: usize) -> (r: Option<String>)
    ensures
        text::opt_text(r) == cut(s@, room as int),
{
    if text::text_bytes(s) > room {
        match text::byte_prefix(s, room.saturating_sub(2)) {
            Some(t) => {
                let mut u = t;
                u.append("..");
                Some(u)
            },
            None => None,
        }
    } else {
        Some(s.to_owned())
    }
}

/// So many spaces.
fn spaces(n: usize) -> (r: String)
    ensures
        r@ == Seq::new(n as nat, |i: int| ' '),
{
    let mut t: String = String::new();
    let mut i: usize = 0;
    assert(t@ =~= Seq::new(0, |k: int| ' '));
    while i < n
        invariant
            i <= n,
            t@ == Seq::new(i as nat, |k: int| ' '),
        decreases n - i,
    {
        t.push(' ');
        assert(t@ =~= Seq::new(i as nat + 1, |k: int| ' '));
        i = i + 1;
    }
    t
}

/// `s` without the first occurrence of `p`.
fn remove_first(s: &[char], p: &[char]) -> (r: Vec<char>)
    ensures
        r@ == without_first(s@, p@),
{
    match text::position(s, p) {
        Some(i) => {
            let n: usize = s.len();
            let mut v = text::to_vec(vstd::slice::slice_subrange(s, 0, i));
            let mut rest = text::to_vec(vstd::slice::slice_subrange(s, i + p.len(), n));
            assert(v@ =~= s@.take(i as int));
            assert(rest@ =~= s@.skip(i + p@.len()));
            v.append(&mut rest);
            v
        },
        None => text::to_vec(s),
    }
}

impl RowInput {
    fn shown_label(&self) -> (r: String)
        ensures
            r@ == self@.label_shown(),
    {
        let base = if self.is_loading {
            let phase: u64 = (self.now / 150_000_000) % 4;
            let bar = if phase == 0 {
                "|"
            } else if phase == 1 {
                "/"
            } else if phase == 2 {
                "-"
            } else {
                "\\"
            };
            text::concat2(bar, " LOADING ...")
        } else {
            self.label.clone()
        };
        if text::text_starts_with(base.as_str(), "__SCRIPT__") {
            let v = text::to_chars(base.as_str());
            let mark = text::to_chars("__SCRIPT__");
            let n: usize = v.len();
            let rest = vstd::slice::slice_subrange(v.as_slice(), mark.len(), n);
            assert(rest@ =~= v@.skip(mark@.len() as int));
            text::to_text(rest)
        } else {
            base
        }
    }

    fn falls_back(&self) -> (r: bool)
        ensures
            r == self@.is_fallback(),
    {
        match &self.info {
            Some(info) => text::is_blank(info.as_str()) || text::text_bytes(info.as_str()) < 3,
            None => false,
        }
    }

    fn marks_script(&self) -> (r: bool)
        ensures
            r == self@.is_script(),
    {
        match &self.info {
            Some(info) => text::text_starts_with(info.as_str(), "__SCRIPT__"),
            None => false,
        }
    }

    fn shown_info(&self) -> (r: String)
        ensures
            r@ == self@.info_shown(),
    {
        let s = match &self.info {
            Some(info) => if self.falls_back() {
                text::concat2(" ", self.command.as_str())
            } else {
                text::concat2(" ", info.as_str())
            },
            None => {
                let none = String::new();
                assert(none@ =~= Seq::empty());
                none
            },
        };
        let v = text::to_chars(s.as_str());
        let mark = text::to_chars("__SCRIPT__");
        if text::matches_at(
            text::strip_leading(v.as_slice(), text::CharClass::White),
            mark.as_slice(),
            0,
        ) {
            let t = remove_first(v.as_slice(), mark.as_slice());
            let blanks = text::to_chars("  ");
            proof {
                reveal_strlit("  ");
            }
            if text::matches_at(t.as_slice(), blanks.as_slice(), 0) {
                let n: usize = t.len();
                let rest = vstd::slice::slice_subrange(t.as_slice(), 1, n);
                assert(rest@ =~= t@.skip(1));
                text::to_text(rest)
            } else {
                text::to_text(t.as_slice())
            }
        } else {
            s
        }
    }

    fn bg_color(&self) -> (r: Color)
        ensures
            r == self@.row_bg(),
    {
        if !self.is_locked && self.is_selected {
            Color::Rgb(60, 60, 60)
        } else {
            self.bg
        }
    }

    fn style_of_label(&self) -> (r: Style)
        ensures
            r == self@.label_style(),
    {
        if self.is_locked {
            Style::on(Color::DarkGray, self.bg_color(), false)
        } else {
            Style::on(self.color, self.bg_color(), self.is_selected || self.hover.row)
        }
    }

    fn style_of_indicator(&self) -> (r: Style)
        ensures
            r == self@.indicator_style(),
    {
        if self.is_locked {
            Style::on(Color::Rgb(25, 25, 25), self.bg_color(), false)
        } else if self.hover.button {
            Style::on(self.bg, Color::White, true)
        } else {
            Style::on(Color::Rgb(50, 50, 50), self.bg_color(), false)
        }
    }

    fn style_of_delete(&self) -> (r: Style)
        ensures
            r == self@.delete_style(),
    {
        if self.is_locked {
            Style::on(Color::Rgb(25, 25, 25), self.bg_color(), false)
        } else if self.hover.delete {
            Style::on(Color::White, Color::Red, true)
        } else if self.hover.row {
            Style::on(Color::Rgb(100, 50, 50), self.bg_color(), false)
        } else {
            Style::on(self.bg, self.bg_color(), false)
        }
    }

    fn style_of_info(&self) -> (r: Style)
        ensures
            r == self@.info_style(),
    {
        if self.falls_back() {
            Style::on(Color::Rgb(50, 50, 50), self.bg_color(), false)
        } else {
            Style::on(
                Color::Rgb(90, 90, 90),
                self.bg_color(),
                self.hover.row || self.is_selected,
            )
        }
    }

    fn add_label(&self, spans: &mut Vec<Span>) -> (r: Option<usize>)
        requires
            old(spans)@.len() == 0,
        ensures
            match r {
                Some(room) => label_added(self@) == Some(
                    RowPart { spans: style::span_views(final(spans)@), room: room as int },
                ),
                None => label_added(self@) is None,
            },
    {
        let taken: usize = if self.mode == SidebarMode::Gists {
            5
        } else {
            2
        };
        let room: usize = (self.width as usize).saturating_sub(taken);
        let label = self.shown_label();
        match cut_text(label.as_str(), room) {
            Some(t) => {
                let n: usize = text::text_bytes(t.as_str());
                assert(style::span_views(spans@) =~= Seq::empty());
                style::push_span(spans, " ".to_owned(), Style::of(None, Some(self.bg_color())));
                style::push_span(spans, "▸".to_owned(), self.style_of_indicator());
                style::push_span(spans, t, self.style_of_label());
                assert(style::span_views(spans@) =~= label_added(self@)->0.spans);
                Some(room.saturating_sub(n))
            },
            None => None,
        }
    }

    /// The texts of a row.
    pub fn spans(&self) -> (r: Option<Vec<Span>>)
        ensures
            match r {
                Some(v) => row_spans(self@) == Some(style::span_views(v@)),
                None => row_spans(self@) is None,
            },
    {
        let mut spans: Vec<Span> = Vec::new();
        let mut room: usize = match self.add_label(&mut spans) {
            Some(n) => n,
            None => {
                return None;
            },
        };
        let bg = self.bg_color();
        let is_script = self.marks_script();
        if is_script && room >= 7 {
            style::push_span(
                &mut spans,
                " SCRIPT".to_owned(),
                Style::on(Color::Rgb(80, 80, 80), bg, false),
            );
            room = room - 7;
        }
        let label = self.shown_label();
        let shows_command = text::text_bytes(label.as_str()) < 20 && self.mode
            != SidebarMode::History;
        if !(shows_command && self.falls_back()) {
            let info = self.shown_info();
            match add_part(&mut spans, room, info.as_str(), self.style_of_info()) {
                Some(n) => {
                    room = n;
                },
                None => {
                    return None;
                },
            }
        }
        if shows_command {
            let command = text::concat2(" ", self.command.as_str());
            match add_part(
                &mut spans,
                room,
                command.as_str(),
                Style::on(Color::Rgb(50, 50, 50), bg, false),
            ) {
                Some(n) => {
                    room = n;
                },
                None => {
                    return None;
                },
            }
        }
        if self.mode == SidebarMode::Gists && is_script {
            if room > 0 {
                style::push_span(&mut spans, spaces(room), Style::of(None, Some(bg)));
            }
            style::push_span(&mut spans, " x ".to_owned(), self.style_of_delete());
        }
        Some(spans)
    }
}

/// Adds a text as far as there is room, and gives the room that is left.
fn add_part(spans: &mut Vec<Span>, room: usize, s: &str, set: Style) -> (r: Option<usize>)
    ensures
        match r {
            Some(left) => part_added(
                RowPart { spans: style::span_views(old(spans)@), room: room as int },
                s@,
                set,
            ) == Some(RowPart { spans: style::span_views(final(spans)@), room: left as int }),
            None => part_added(
                RowPart { spans: style::span_views(old(spans)@), room: room as int },
                s@,
                set,
            ) is None,
        },
{
    if !s.is_empty() && room > 3 {
        match cut_text(s, room) {
            Some(t) => {
                let n: usize = text::text_bytes(t.as_str());
                style::push_span(spans, t, set);
                Some(room.saturating_sub(n))
            },
            None => None,
        }
    } else {
        Some(room)
    }
}

/// How the list is drawn: the colour behind the sidebar, whether it takes
/// clicks, its area and the time.
#[derive(Clone, Copy, PartialEq, Eq, Structural, Debug)]
pub struct ListInput {
    pub bg: Color,
    pub is_locked: bool,
    pub list: Rect,
    pub now: u64,
}

/// What the row at position `index` of the list is drawn from.
pub open spec fn row_view(
    m: app::AppView,
    rows: Seq<usize>,
    input: ListInput,
    index: int,
) -> Option<RowView> {
    let row = rows[index] as int;
    let info = match listing::infos_of(m) {
        Some(infos) => Some(infos[row]),
        None => None,
    };
    let command = listing::commands_of(m)[row];
    match hover_of(m.mouse_pos, input.list, index as usize, m.sidebar.state.offset) {
        None => None,
        Some(hover) => Some(
            RowView {
                mode: m.sidebar.mode,
                label: listing::items_of(m)[row],
                info,
                command,
                color: row_color(
                    m.sidebar.mode,
                    command,
                    match info {
                        Some(i) => Some(text::lowercase(i)),
                        None => None,
                    },
                ),
                is_selected: m.sidebar.state.selected == Some(index as usize),
                is_locked: input.is_locked,
                hover,
                is_loading: m.sidebar.mode is Gists && m.loading_gist && index == 0,
                now: input.now,
                bg: input.bg,
                width: input.list.width,
            },
        ),
    }
}

/// A line of the list: its texts and the colour behind it.
pub struct Line {
    pub spans: Vec<Span>,
    pub bg: Color,
}

pub ghost struct LineView {
    pub spans: Seq<style::SpanView>,
    pub bg: Color,
}

impl View for Line {
    type V = LineView;

    open spec fn view(&self) -> LineView {
        LineView { spans: style::span_views(self.spans@), bg: self.bg }
    }
}

/// The lines that a sequence of lines holds.
pub open spec fn line_views(v: Seq<Line>) -> Seq<LineView> {
    v.map_values(|l: Line| l@)
}

/// The line at position `index` of the list.
pub open spec fn line_at(
    m: app::AppView,
    rows: Seq<usize>,
    input: ListInput,
    index: int,
) -> Option<LineView> {
    match row_view(m, rows, input, index) {
        None => None,
        Some(r) => match row_spans(r) {
            None => None,
            Some(spans) => Some(LineView { spans, bg: r.row_bg() }),
        },
    }
}

/// The first `n` lines of the list; `None` where one of them cannot be drawn.
pub open spec fn lines_upto(
    m: app::AppView,
    rows: Seq<usize>,
    input: ListInput,
    n: nat,
) -> Option<Seq<LineView>>
    decreases n,
{
    if n == 0 {
        Some(Seq::empty())
    } else {
        match (
            lines_upto(m, rows, input, (n - 1) as nat),
            line_at(m, rows, input, n - 1),
        ) {
            (Some(before), Some(line)) => Some(before.push(line)),
            _ => None,
        }
    }
}

/// The lines of the list: one for each row that matches the search.
pub open spec fn list_lines(m: app::AppView, input: ListInput) -> Option<Seq<LineView>> {
    let rows = listing::rows_of(m);
    lines_upto(m, rows, input, rows.len())
}

impl App {
    fn row_input(&self, row: usize, index: usize, input: ListInput) -> (r: Option<RowInput>)
        requires
            self@.wf(),
            row < listing::items_of(self@).len(),
            input.list.x + input.list.width <= 65535,
        ensures
            forall|rows: Seq<usize>|
                index < rows.len() && rows[index as int] == row ==> (match r {
                    Some(v) => #[trigger] row_view(self@, rows, input, index as int) == Some(v@),
                    None => row_view(self@, rows, input, index as int) is None,
                }),
    {
        let hover = match hover_row(
            self.mouse_pos,
            input.list,
            index,
            self.sidebar.state.offset,
        ) {
            Some(h) => h,
            None => {
                return None;
            },
        };
        let items = self.listed_items();
        let commands = self.listed_commands();
        assert(text::texts(items@)[row as int] == items@[row as int]@);
        assert(text::texts(commands@).len() == commands@.len());
        assert(text::texts(commands@)[row as int] == commands@[row as int]@);
        let info: Option<String> = match self.listed_infos() {
            Some(infos) => {
                assert(text::texts(infos@).len() == infos@.len());
                assert(text::texts(infos@)[row as int] == infos@[row as int]@);
                Some(infos[row].clone())
            },
            None => None,
        };
        let command = commands[row].clone();
        let color = match &info {
            Some(i) => {
                let lower = text::to_lower(i.as_str());
                color_of_row(self.sidebar.mode, command.as_str(), Some(lower.as_str()))
            },
            None => color_of_row(self.sidebar.mode, command.as_str(), None),
        };
        let is_selected = match self.sidebar.state.selected {
            Some(s) => s == index,
            None => false,
        };
        Some(
            RowInput {
                mode: self.sidebar.mode,
                label: items[row].clone(),
                info,
                command,
                color,
                is_selected,
                is_locked: input.is_locked,
                hover,
                is_loading: self.sidebar.mode == SidebarMode::Gists && self.loading_gist && index
                    == 0,
                now: input.now,
                bg: input.bg,
                width: input.list.width,
            },
        )
    }

    /// The lines of the list: one for each row that matches the search; `None`
    /// where one of them cannot be drawn.
    pub fn draw_list(&self, input: ListInput) -> (r: Option<Vec<Line>>)
        requires
            self@.wf(),
            input.list.x + input.list.width <= 65535,
        ensures
            match r {
                Some(v) => list_lines(self@, input) == Some(line_views(v@)),
                None => list_lines(self@, input) is None,
            },
    {
        let rows = self.matching_rows();
        let mut out: Vec<Line> = Vec::new();
        let mut i: usize = 0;
        assert(line_views(out@) =~= Seq::empty());
        while i < rows.len()
            invariant
                i <= rows@.len(),
                self@.wf(),
                input.list.x + input.list.width <= 65535,
                forall|k: int|
                    0 <= k < rows@.len() ==> (#[trigger] rows@[k]) < listing::items_of(self@).len(),
                lines_upto(self@, rows@, input, i as nat) == Some(line_views(out@)),
                rows@ == listing::rows_of(self@),
            decreases rows@.len() - i,
        {
            let made = match self.row_input(rows[i], i, input) {
                Some(r) => match r.spans() {
                    Some(spans) => Some(Line { spans, bg: r.bg_color() }),
                    None => None,
                },
                None => None,
            };
            match made {
                Some(line) => {
                    let ghost before = out@;
                    assert(line_at(self@, rows@, input, i as int) == Some(line@));
                    out.push(line);
                    assert(line_views(out@) =~= line_views(before).push(line@));
                },
                None => {
                    assert(line_at(self@, rows@, input, i as int) is None);
                    assert(lines_upto(self@, rows@, input, i as nat + 1) is None);
                    proof {
                        lemma_lines_fail(self@, rows@, input, i as nat + 1, rows@.len());
                    }
                    return None;
                },
            }
            i = i + 1;
        }
        Some(out)
    }
}

/// Where some of the lines cannot be drawn, more cannot either.
proof fn lemma_lines_fail(
    m: app::AppView,
    rows: Seq<usize>,
    input: ListInput,
    n: nat,
    k: nat,
)
    requires
        n <= k,
        lines_upto(m, rows, input, n) is None,
    ensures
        lines_upto(m, rows, input, k) is None,
    decreases k - n,
{
    if n < k {
        lemma_lines_fail(m, rows, input, n, (k - 1) as nat);
    }
}

/// How a tab is set.
pub open spec fn tab_style(is_active: bool, is_hovered: bool, color: Color, bg: Color) -> Style {
    if is_active {
        style::set_in(bg, color, true)
    } else if is_hovered {
        style::set_in(color, Color::Rgb(50, 50, 50), false)
    } else {
        style::set_in(color, bg, false)
    }
}

/// The label and the colour of a tab.
pub open spec fn tab_of(mode: SidebarMode) -> (Seq<char>, Color) {
    match mode {
        SidebarMode::Commands => (" COMMANDS "@, Color::Green),
        SidebarMode::History => (" HISTORY "@, Color::Rgb(255, 180, 100)),
        SidebarMode::Gists => (" GISTS "@, Color::Yellow),
    }
}

/// How the search field is set.
pub open spec fn search_style(m: app::AppView, is_locked: bool, bg: Color) -> Style {
    if !is_locked && m.sidebar.is_search_focused {
        style::set_in(Color::Yellow, Color::Rgb(30, 30, 30), false)
    } else {
        style::set_in(Color::DarkGray, bg, false)
    }
}

/// What the search field shows.
pub open spec fn search_text(m: app::AppView, now: u64) -> Seq<char> {
    if m.sidebar.search_query.len() == 0 && !m.sidebar.is_search_focused {
        " Search "@ + text::decimal(listing::items_of(m).len()) + " items .. "@
    } else {
        style::field_text(m.sidebar.search_query, m.sidebar.is_search_focused, now)
    }
}

/// How the button for a new gist is set.
pub open spec fn new_button_style(is_hovered: bool, bg: Color) -> Style {
    if is_hovered {
        style::set_in(Color::Black, Color::Green, true)
    } else {
        style::set_in(Color::Green, bg, false)
    }
}

/// What the sidebar's scrollbar shows: its length, its position and the colour
/// of its thumb.
pub open spec fn list_scrollbar(m: app::AppView, area: Rect) -> (usize, usize, Color) {
    (
        listing::rows_of(m).len() as usize,
        match m.sidebar.state.selected {
            Some(row) => row,
            None => 0,
        },
        if terminal::hovers(m.mouse_pos, area) || m.drags.sidebar_scrollbar {
            Color::White
        } else {
            Color::Rgb(50, 50, 50)
        },
    )
}

impl App {
    /// Whether the sidebar takes no clicks.
    pub fn is_sidebar_locked(&self, sc: crate::screen::ScreenState) -> (r: bool)
        ensures
            r == handlers::is_locked(self@, sc),
    {
        sc.is_app_active() || self.shell.is_busy
    }

    /// A tab.
    pub fn draw_tab(&self, mode: SidebarMode, area: Rect, bg: Color) -> (r: Span)
        ensures
            r@ == style::span(
                tab_of(mode).0,
                tab_style(
                    self@.sidebar.mode == mode,
                    terminal::hovers(self@.mouse_pos, area),
                    tab_of(mode).1,
                    bg,
                ),
            ),
    {
        let (label, color) = match mode {
            SidebarMode::Commands => (" COMMANDS ", Color::Green),
            SidebarMode::History => (" HISTORY ", Color::Rgb(255, 180, 100)),
            SidebarMode::Gists => (" GISTS ", Color::Yellow),
        };
        let set = if self.sidebar.mode == mode {
            Style::on(bg, color, true)
        } else if terminal::is_hovered(self.mouse_pos, area) {
            Style::on(color, Color::Rgb(50, 50, 50), false)
        } else {
            Style::on(color, bg, false)
        };
        Span { text: label.to_owned(), style: set }
    }

    /// What stands in place of the tabs while the sidebar takes no clicks.
    pub fn draw_locked(&self) -> (r: Span)
        ensures
            r@ == style::span(
                "  SIDEBAR DISABLED  "@,
                (Style { bold: true, ..style::colors(Some(Color::DarkGray), None) }),
            ),
    {
        Span {
            text: "  SIDEBAR DISABLED  ".to_owned(),
            style: Style {
                fg: Some(Color::DarkGray),
                bg: None,
                bold: true,
                italic: false,
                reversed: false,
                underlined: false,
            },
        }
    }

    /// The search field.
    pub fn draw_search(&self, is_locked: bool, bg: Color, now: u64) -> (r: Span)
        ensures
            r@ == style::span(search_text(self@, now), search_style(self@, is_locked, bg)),
    {
        let set = if !is_locked && self.sidebar.is_search_focused {
            Style::on(Color::Yellow, Color::Rgb(30, 30, 30), false)
        } else {
            Style::on(Color::DarkGray, bg, false)
        };
        let shown = if self.sidebar.search_query.as_str().is_empty()
            && !self.sidebar.is_search_focused {
            let items = self.listed_items();
            assert(text::texts(items@).len() == items@.len());
            let n = text::decimal_text(items.len() as u64);
            text::concat3(" Search ", n.as_str(), " items .. ")
        } else {
            style::show_field(
                self.sidebar.search_query.as_str(),
                self.sidebar.is_search_focused,
                now,
            )
        };
        Span { text: shown, style: set }
    }

    /// The button for a new gist.
    pub fn draw_new_button(&self, area: Rect, bg: Color) -> (r: Span)
        ensures
            r@ == style::span(
                " [+] NEW SCRIPT "@,
                new_button_style(terminal::hovers(self@.mouse_pos, area), bg),
            ),
    {
        let set = if terminal::is_hovered(self.mouse_pos, area) {
            Style::on(Color::Black, Color::Green, true)
        } else {
            Style::on(Color::Green, bg, false)
        };
        Span { text: " [+] NEW SCRIPT ".to_owned(), style: set }
    }

    /// What the sidebar's scrollbar shows.
    pub fn draw_list_scrollbar(&self, area: Rect) -> (r: (usize, usize, Color))
        requires
            self@.wf(),
        ensures
            r == list_scrollbar(self@, area),
    {
        let rows = self.matching_rows();
        let position: usize = match self.sidebar.state.selected {
            Some(row) => row,
            None => 0,
        };
        let thumb = if terminal::is_hovered(self.mouse_pos, area) || self.drags.sidebar_scrollbar {
            Color::White
        } else {
            Color::Rgb(50, 50, 50)
        };
        (rows.len(), position, thumb)
    }
}

/// A text that is cut keeps within its room, where there is room for the dots.
pub proof fn law_cut_keeps_within(s: Seq<char>, room: int)
    requires
        room >= 2,
    ensures
        cut(s, room) matches Some(t) ==> text::byte_len(t) <= room,
{
    if text::byte_len(s) > room {
        if let Some(n) = text::char_boundary(s, (room - 2) as nat) {
            text::lemma_char_boundary(s, (room - 2) as nat);
            text::lemma_byte_len_concat(s.take(n as int), ".."@);
            reveal_strlit("..");
            reveal_with_fuel(text::byte_len, 3);
        }
    }
}

/// What a row of the list shows is that of a row that the search shows, in the same
/// order: the number of shown rows before a row is its place. Each row has a line.
pub proof fn law_list_shows_the_shown_rows(m: app::AppView, input: ListInput, row: int)
    requires
        m.wf(),
        listing::row_count(m) <= usize::MAX,
        0 <= row < listing::row_count(m),
        listing::is_shown(m, row),
        list_lines(m, input) is Some,
    ensures
        ({
            let lines = list_lines(m, input)->0;
            let place = listing::shown_before(m, row);
            let texts = match m.sidebar.mode {
                SidebarMode::Commands => (
                    m.commands.items[row],
                    Some(m.commands.infos[row]),
                    m.commands.commands[row],
                ),
                SidebarMode::History => (m.history.items[row], None, m.history.commands[row]),
                SidebarMode::Gists => (
                    m.gists.items[row],
                    Some(m.gists.infos[row]),
                    m.gists.commands[row],
                ),
            };
            &&& lines.len() == listing::shown_before(m, listing::row_count(m))
            &&& 0 <= place < lines.len()
            &&& exists|r: RowView|
                {
                    &&& #[trigger] row_spans(r) == Some(lines[place].spans)
                    &&& r.label == texts.0 && r.info == texts.1 && r.command == texts.2
                    &&& r.mode == m.sidebar.mode
                    &&& r.is_selected == (m.sidebar.state.selected == Some(place as usize))
                    &&& r.width == input.list.width
                    &&& r.is_loading == (m.sidebar.mode is Gists && m.loading_gist && place == 0)
                    &&& lines[place].bg == if r.is_selected && !input.is_locked {
                        Color::Rgb(60, 60, 60)
                    } else {
                        input.bg
                    }
                }
        }),
{
    listing::law_rows_are_those_shown(m);
    let rows = listing::rows_of(m);
    let place = listing::shown_before(m, row);
    assert(rows[place] == row);
    lemma_line_at(m, rows, input, rows.len(), place);
    let r = row_view(m, rows, input, place)->0;
    assert(row_spans(r) == Some(list_lines(m, input)->0[place].spans));
}

proof fn lemma_line_at(
    m: app::AppView,
    rows: Seq<usize>,
    input: ListInput,
    n: nat,
    k: int,
)
    requires
        lines_upto(m, rows, input, n) is Some,
        0 <= k < n,
    ensures
        lines_upto(m, rows, input, n)->0.len() == n,
        line_at(m, rows, input, k) == Some(lines_upto(m, rows, input, n)->0[k]),
    decreases n,
{
    if n > 1 {
        if k < n - 1 {
            lemma_line_at(m, rows, input, (n - 1) as nat, k);
        } else {
            lemma_line_at(m, rows, input, (n - 1) as nat, 0);
        }
    } else {
        assert(lines_upto(m, rows, input, 0) == Some(Seq::<LineView>::empty()));
    }
}

/// A row begins with the mark that runs it and its label, as far as there is room
/// for it; while gists are fetched, the first one says so.
pub proof fn law_row_begins_with_its_label(r: RowView)
    requires
        row_spans(r) is Some,
        !r.is_loading,
        !text::starts_with(r.label, "__SCRIPT__"@),
        text::byte_len(r.label) + 5 <= r.width,
    ensures
        ({
            let spans = row_spans(r)->0;
            &&& spans.len() >= 3
            &&& spans[0].text == " "@
            &&& spans[1].text == "▸"@
            &&& spans[2].text == r.label
        }),
{
}

/// A script has a badge where there is room for it, and the script of a gist has
/// the mark for its deletion at the very end; no other row has that mark.
pub proof fn law_scripts_have_their_marks(r: RowView)
    requires
        row_spans(r) is Some,
    ensures
        ({
            let spans = row_spans(r)->0;
            let is_script = r.info matches Some(i) && text::starts_with(i, "__SCRIPT__"@);
            &&& r.mode is Gists && is_script ==> spans.last() == style::span(
                " x "@,
                if r.is_locked {
                    style::set_in(Color::Rgb(25, 25, 25), r.bg, false)
                } else if r.hover.delete {
                    style::set_in(Color::White, Color::Red, true)
                } else {
                    spans.last().style
                },
            )
            &&& is_script && text::byte_len(r.label_shown()) + 12 <= r.width ==> spans.len() >= 4
                && spans[3].text == " SCRIPT"@
        }),
{
}

/// A short label has its command behind it, but in the history; an info that says
/// too little is left out there.
pub proof fn law_short_labels_show_their_command(r: RowView)
    requires
        row_spans(r) is Some,
        r.mode is Commands,
        !r.is_loading,
        !text::starts_with(r.label, "__SCRIPT__"@),
        text::byte_len(r.label) < 20,
        r.info matches Some(i) && text::trim(i).len() == 0,
        text::byte_len(r.label) + text::byte_len(r.command) + 7 <= r.width,
    ensures
        ({
            let spans = row_spans(r)->0;
            &&& spans.len() == 4
            &&& spans[2].text == r.label
            &&& spans[3].text == " "@ + r.command
        }),
{
    reveal_strlit(" ");
    reveal_strlit("__SCRIPT__");
    text::lemma_byte_len_concat(" "@, r.command);
    reveal_with_fuel(text::byte_len, 2);
    assert(" "@.drop_last() =~= Seq::empty());
    let i = r.info->0;
    if text::starts_with(i, "__SCRIPT__"@) {
        assert(i.subrange(0, 10)[0] == i[0]);
        text::law_trim_takes_white_space_only(i);
        let (a, b) = choose|a: int, b: int|
            {
                &&& 0 <= a <= b <= i.len()
                &&& text::trim(i) == #[trigger] i.subrange(a, b)
                &&& forall|k: int| 0 <= k < a || b <= k < i.len() ==> text::is_white(
                    #[trigger] i[k],
                )
            };
        assert(i[0] == '_');
        assert(text::is_white(i[0]));
    }
}

/// A text is cut only where it is longer than its room: then its first bytes are
/// kept, and two dots stand for the rest.
pub proof fn law_cut_keeps_the_start(s: Seq<char>, room: int)
    requires
        room >= 2,
    ensures
        text::byte_len(s) <= room ==> cut(s, room) == Some(s),
        text::byte_len(s) > room ==> (cut(s, room) matches Some(t) ==> exists|n: int|
            0 <= n <= s.len() && text::byte_len(s.take(n)) == room - 2 && t == #[trigger] s.take(n)
                + ".."@),
{
    text::lemma_char_boundary(s, (room - 2) as nat);
    if let Some(n) = text::char_boundary(s, (room - 2) as nat) {
        assert(0 <= n <= s.len());
    }
}

/// The colour of a command warns of what it does: one that asks for values is
/// green, one that runs as the superuser red.
pub proof fn law_row_colours_warn(command: Seq<char>, info: Option<Seq<char>>)
    ensures
        ({
            let asks = exists|a: Seq<char>, b: Seq<char>| command == #[trigger] (a + "<prompt"@ + b);
            let sudo = exists|a: Seq<char>, b: Seq<char>| command == #[trigger] (a + "sudo"@ + b);
            let told = info matches Some(i) && exists|a: Seq<char>, b: Seq<char>|
                i == #[trigger] (a + "sudo"@ + b);
            row_color(SidebarMode::Commands, command, info) == if asks {
                Color::Green
            } else if sudo || told {
                Color::Red
            } else {
                Color::White
            }
        }),
        row_color(SidebarMode::History, command, info) == Color::Rgb(200, 200, 200),
        row_color(SidebarMode::Gists, command, info) == Color::Yellow,
{
    text::law_contains_is_made_of(command, "<prompt"@);
    text::law_contains_is_made_of(command, "sudo"@);
    if let Some(i) = info {
        text::law_contains_is_made_of(i, "sudo"@);
    }
}

/// The marks under the mouse are those that a click there uses: the row is the one
/// at the place of the mouse, its run mark the second column, and its mark for
/// deletion the last columns but one.
pub proof fn law_hovered_marks_are_those_clicked(
    x: u16,
    y: u16,
    list: Rect,
    index: usize,
    offset: usize,
)
    requires
        list.x + list.width <= 65535,
        list.y + list.height <= 65535,
        index < 65536,
        offset <= index,
        list.y + (index - offset) <= 65535,
    ensures
        ({
            let r = hover_of(Some((x, y)), list, index, offset);
            let on = list.x <= x < list.x + list.width && list.y <= y < list.y + list.height && y
                - list.y == index - offset;
            &&& r == Some(
                RowHover {
                    row: on,
                    button: on && x == list.x + 1,
                    delete: on && x >= list.x + list.width - 4 && x < list.x + list.width - 1,
                },
            )
            &&& hover_of(None, list, index, offset) == Some(
                RowHover { row: false, button: false, delete: false },
            )
        }),
{
}

/// The tabs are named after what they list, and the one that is listed is marked.
/// The search field shows what is typed, or else how many rows there are. The
/// scrollbar is as long as the list shows rows, and stands at the selected one.
pub proof fn law_sidebar_tells_what_it_lists(m: app::AppView, now: u64, area: Rect)
    requires
        m.wf(),
        listing::row_count(m) <= usize::MAX,
    ensures
        tab_of(SidebarMode::Commands).0 == " COMMANDS "@,
        tab_of(SidebarMode::History).0 == " HISTORY "@,
        tab_of(SidebarMode::Gists).0 == " GISTS "@,
        forall|c: Color, bg: Color, h: bool| #[trigger]
            tab_style(true, h, c, bg) == style::set_in(bg, c, true),
        m.sidebar.search_query.len() == 0 && !m.sidebar.is_search_focused ==> search_text(m, now)
            == " Search "@ + text::decimal(listing::row_count(m) as nat) + " items .. "@,
        m.sidebar.search_query.len() > 0 && !m.sidebar.is_search_focused ==> search_text(m, now)
            == " "@ + m.sidebar.search_query + " "@ + " "@,
        m.sidebar.is_search_focused ==> search_text(m, now) == " "@ + m.sidebar.search_query + (
        if (now / 500_000_000) % 2 == 0 {
            "_"@
        } else {
            " "@
        }) + " "@,
        list_scrollbar(m, area).0 == listing::shown_before(m, listing::row_count(m)),
        m.sidebar.state.selected matches Some(i) ==> list_scrollbar(m, area).1 == i,
{
    listing::law_rows_are_those_shown(m);
}

/// The info of a script is shown without its mark.
pub proof fn law_script_info_is_shown_unmarked(r: RowView, said: Seq<char>)
    requires
        r.info == Some("__SCRIPT__ "@ + said),
    ensures
        r.info_shown() == " "@ + said,
        r.is_script(),
{
    let info = "__SCRIPT__ "@ + said;
    lemma_marked_info(said);
    let s = " "@ + info;
    lemma_mark_is_second(said);
    reveal_strlit("  ");
    reveal_strlit(" ");
    let t = without_first(s, "__SCRIPT__"@);
    assert(t.subrange(0, 2) =~= "  "@);
    assert(t.skip(1) =~= " "@ + said);
}

proof fn lemma_marked_info(said: Seq<char>)
    ensures
        ({
            let info = "__SCRIPT__ "@ + said;
            &&& text::starts_with(info, "__SCRIPT__"@)
            &&& text::trim(info).len() > 0
            &&& text::byte_len(info) >= 3
        }),
{
    reveal_strlit("__SCRIPT__ ");
    reveal_strlit("__SCRIPT__");
    let info = "__SCRIPT__ "@ + said;
    assert(info.subrange(0, 10) =~= "__SCRIPT__"@);
    assert(info[0] == '_');
    text::law_trim_takes_white_space_only(info);
    let (a, b) = choose|a: int, b: int|
        {
            &&& 0 <= a <= b <= info.len()
            &&& text::trim(info) == #[trigger] info.subrange(a, b)
            &&& forall|k: int| 0 <= k < a || b <= k < info.len() ==> text::is_white(
                #[trigger] info[k],
            )
        };
    if text::trim(info).len() == 0 {
        assert(text::is_white(info[0]));
    }
    text::lemma_byte_len_prefix(info, 0, info.len() as int);
    assert(info.take(info.len() as int) =~= info);
}

proof fn lemma_mark_is_second(said: Seq<char>)
    ensures
        ({
            let info = "__SCRIPT__ "@ + said;
            let s = " "@ + info;
            &&& text::drop_leading(s, text::CharClass::White) == info
            &&& without_first(s, "__SCRIPT__"@) == "  "@ + said
        }),
{
    let info = "__SCRIPT__ "@ + said;
    lemma_one_blank(info, said);
    lemma_found_second(said);
    let s = " "@ + info;
    reveal_strlit("__SCRIPT__ ");
    reveal_strlit("__SCRIPT__");
    reveal_strlit(" ");
    reveal_strlit("  ");
    assert(s.take(1) + s.skip(11) =~= "  "@ + said);
}

proof fn lemma_one_blank(info: Seq<char>, said: Seq<char>)
    requires
        info == "__SCRIPT__ "@ + said,
    ensures
        text::drop_leading(" "@ + info, text::CharClass::White) == info,
{
    reveal_strlit("__SCRIPT__ ");
    reveal_strlit(" ");
    let s = " "@ + info;
    assert(s[0] == ' ');
    assert(s.drop_first() =~= info);
    assert(info[0] == '_');
    assert(text::drop_leading(info, text::CharClass::White) == info);
}

proof fn lemma_found_second(said: Seq<char>)
    ensures
        text::find(" "@ + ("__SCRIPT__ "@ + said), "__SCRIPT__"@) == Some(1int),
{
    reveal_strlit("__SCRIPT__ ");
    reveal_strlit("__SCRIPT__");
    reveal_strlit(" ");
    let mark = "__SCRIPT__"@;
    let s = " "@ + ("__SCRIPT__ "@ + said);
    assert(s =~= " "@ + mark + (" "@ + said));
    text::law_find_is_first(" "@, mark, " "@ + said);
    let i = text::find(s, mark)->0;
    if i == 0 {
        assert(s.subrange(0, 10)[0] == s[0]);
        assert(mark[0] == '_');
    }
}

/// While gists are fetched, the first row of their list says so and turns.
pub proof fn law_loading_is_told(r: RowView)
    requires
        r.is_loading,
    ensures
        ({
            let phase = (r.now / 150_000_000) % 4;
            let bar = if phase == 0 {
                "|"@
            } else if phase == 1 {
                "/"@
            } else if phase == 2 {
                "-"@
            } else {
                "\\"@
            };
            r.label_shown() == bar + " LOADING ..."@
        }),
{
    reveal_strlit("|");
    reveal_strlit("/");
    reveal_strlit("-");
    reveal_strlit("\\");
    reveal_strlit(" LOADING ...");
    reveal_strlit("__SCRIPT__");
    let s = spinner(r.now) + " LOADING ..."@;
    if text::starts_with(s, "__SCRIPT__"@) {
        assert(s.subrange(0, 10)[0] == s[0]);
    }
}

/// The search field is yellow on a dark grey while it takes what is typed, and grey
/// on the colour of the sidebar otherwise; the button for a new gist is green, and
/// turns over under the mouse.
pub proof fn law_field_and_button_have_their_colours(m: app::AppView, is_locked: bool, bg: Color)
    ensures
        ({
            let set = |fg: Color, behind: Color, bold: bool|
                Style {
                    fg: Some(fg),
                    bg: Some(behind),
                    bold,
                    italic: false,
                    reversed: false,
                    underlined: false,
                };
            &&& m.sidebar.is_search_focused && !is_locked ==> search_style(m, is_locked, bg) == set(
                Color::Yellow,
                Color::Rgb(30, 30, 30),
                false,
            )
            &&& !m.sidebar.is_search_focused || is_locked ==> search_style(m, is_locked, bg) == set(
                Color::DarkGray,
                bg,
                false,
            )
            &&& new_button_style(true, bg) == set(Color::Black, Color::Green, true)
            &&& new_button_style(false, bg) == set(Color::Green, bg, false)
        }),
{
}

} // verus!
