//! Clicks on the sidebar.

use crate::app;
use crate::app::{Action, App, Message, MouseButton, MouseEvent, MouseKind, SidebarMode};
use crate::listing;
use crate::shell;
use crate::text;
use crate::ui::geometry;
use crate::ui::geometry::Rect;
use vstd::prelude::*;
use vstd::string::*;

verus! {

/// Two clicks on a row within this many nanoseconds are a double click.
pub const DOUBLE_CLICK_NANOS: u64 = 300_000_000;

/// A strip of the sidebar that begins `down` rows below its top.
pub open spec fn strip_at(area: Rect, down: int, height: int) -> Rect {
    Rect { x: area.x, y: (area.y + down) as u16, width: area.width, height: height as u16 }
}

/// The area of the tabs.
pub open spec fn tabs_area(area: Rect) -> Rect {
    strip_at(area, 0, 1)
}

/// The area of the search field.
pub open spec fn search_area(area: Rect) -> Rect {
    strip_at(area, 1, 1)
}

/// How many rows the list has; below it, where `gists` is set, there is a button.
pub open spec fn list_height(area: Rect, gists: bool) -> int {
    geometry::floored(
        area.height - (if gists {
            3int
        } else {
            2
        }),
    )
}

/// The area of the list, which has at most 65535 cells.
pub open spec fn list_area(area: Rect, gists: bool) -> Rect {
    geometry::new_area(
        area.x,
        (area.y + 2) as u16,
        area.width,
        list_height(area, gists) as u16,
    )
}

/// The area of the button for a new gist.
pub open spec fn new_button_area(area: Rect) -> Rect {
    strip_at(area, geometry::floored(area.height - 1), 1)
}

/// The parts of the sidebar have coordinates.
pub open spec fn sidebar_fits(area: Rect, gists: bool) -> bool {
    area.y + 2 <= 65535 && (gists ==> area.y + geometry::floored(area.height - 1) <= 65535)
}

/// A list in which a row is selected.
pub open spec fn selecting(m: app::AppView, row: usize) -> app::AppView {
    app::AppView {
        sidebar: app::SidebarView {
            state: app::ListState { selected: Some(row), ..m.sidebar.state },
            ..m.sidebar
        },
        ..m
    }
}

/// What a click on the tabs does.
pub open spec fn tabs_clicked(m: app::AppView, e: MouseEvent, tabs: Seq<Rect>) -> (
    app::AppView,
    Seq<app::ActionView>,
) {
    let first = selecting(m, 0);
    if tabs[0].holds(e.column, e.row) {
        (
            app::AppView {
                sidebar: app::SidebarView { mode: SidebarMode::Commands, ..first.sidebar },
                ..first
            },
            Seq::empty(),
        )
    } else if tabs[1].holds(e.column, e.row) {
        (
            app::AppView {
                sidebar: app::SidebarView { mode: SidebarMode::History, ..first.sidebar },
                ..first
            },
            seq![app::ActionView::RefreshHistory],
        )
    } else if tabs[2].holds(e.column, e.row) {
        (
            app::AppView {
                sidebar: app::SidebarView { mode: SidebarMode::Gists, ..first.sidebar },
                ..first
            },
            Seq::empty(),
        )
    } else {
        (first, Seq::empty())
    }
}

/// A click on row `index` at time `now` is the second on it within a short time.
pub open spec fn is_double(m: app::AppView, index: usize, now: u64) -> bool {
    match (m.sidebar.last_click_time, m.sidebar.last_clicked_index) {
        (Some(time), Some(last)) => geometry::floored(now - time) < DOUBLE_CLICK_NANOS && last
            == index,
        _ => false,
    }
}

/// The file that row `row` of the list comes from.
pub open spec fn row_path(m: app::AppView, row: usize) -> Option<Seq<char>> {
    match m.sidebar.mode {
        SidebarMode::Commands => m.commands.paths[row as int],
        SidebarMode::Gists => m.gists.paths[row as int],
        SidebarMode::History => None,
    }
}

/// Row `row` of the list is marked as a script. For the history, the mark of
/// the command in the same row counts.
pub open spec fn row_is_script(m: app::AppView, row: usize) -> bool {
    let infos = match m.sidebar.mode {
        SidebarMode::Gists => m.gists.infos,
        _ => m.commands.infos,
    };
    row < infos.len() && text::starts_with(infos[row as int], "__SCRIPT__"@)
}

/// What running row `row` of the list types into the shell; `exe` is this
/// program.
pub open spec fn row_command(m: app::AppView, row: usize, exe: Seq<char>) -> Seq<char> {
    match m.sidebar.mode {
        SidebarMode::History => m.history.commands[row as int] + "\r"@,
        _ => exe + (if row_is_script(m, row) {
            " script "@
        } else {
            " "@
        }) + listing::items_of(m)[row as int] + "\r"@,
    }
}

/// What a double click on row `row` does.
pub open spec fn row_opened(m: app::AppView, row: usize) -> (app::AppView, Seq<app::ActionView>) {
    (
        app::AppView {
            sidebar: app::SidebarView {
                last_click_time: None,
                last_clicked_index: None,
                ..m.sidebar
            },
            ..m
        },
        match row_path(m, row) {
            Some(path) => seq![
                app::ActionView::TrackEdit(path),
                app::ActionView::Write(shell::editor_command(m.config.external_editor, path)),
            ],
            None => Seq::empty(),
        },
    )
}

/// What a single click `x` columns into row `row`, shown as number `index`,
/// does; the list is `width` columns wide.
pub open spec fn row_clicked(
    m: app::AppView,
    index: usize,
    row: usize,
    x: int,
    width: int,
    now: u64,
    exe: Seq<char>,
) -> (app::AppView, Seq<app::ActionView>) {
    let selected = selecting(m, index);
    let clicked = app::AppView {
        sidebar: app::SidebarView {
            last_click_time: Some(now),
            last_clicked_index: Some(index),
            ..selected.sidebar
        },
        ..selected
    };
    let is_gist = m.sidebar.mode is Gists;
    if is_gist && row_is_script(m, row) && geometry::floored(width - 4) <= x < width - 1 {
        (
            app::AppView {
                dialogs: app::DialogsView {
                    show_delete_confirm: true,
                    gist_index_to_delete: Some(row),
                    ..m.dialogs
                },
                ..clicked
            },
            Seq::empty(),
        )
    } else if x <= 1 {
        (
            clicked,
            if is_gist && text::starts_with(listing::items_of(m)[row as int], "GIST: "@) {
                seq![app::ActionView::Post(app::MessageView::FetchGists)]
            } else {
                seq![app::ActionView::Write(row_command(m, row, exe))]
            },
        )
    } else {
        (clicked, Seq::empty())
    }
}

/// The row before the selected one is selected, if there is one.
pub open spec fn row_up(m: app::AppView) -> app::AppView {
    match m.sidebar.state.selected {
        Some(row) if row > 0 => selecting(m, (row - 1) as usize),
        _ => m,
    }
}

/// The row behind the selected one is selected, if there is one.
pub open spec fn row_down(m: app::AppView) -> app::AppView {
    let current = match m.sidebar.state.selected {
        Some(row) => row as int,
        None => 0,
    };
    if current + 1 < listing::rows_of(m).len() {
        selecting(m, (current + 1) as usize)
    } else {
        m
    }
}

/// What the mouse does on the list.
pub open spec fn list_clicked(m: app::AppView, e: MouseEvent, list: Rect, now: u64, exe: Seq<char>)
 -> (app::AppView, Seq<app::ActionView>) {
    match e.kind {
        MouseKind::ScrollUp => (row_up(m), Seq::empty()),
        MouseKind::ScrollDown => (row_down(m), Seq::empty()),
        MouseKind::Down(MouseButton::Left) => {
            let rows = listing::rows_of(m);
            let index = geometry::floored(e.row - list.y) + m.sidebar.state.offset;
            if index < rows.len() && index < usize::MAX {
                let row = rows[index];
                if is_double(m, index as usize, now) {
                    row_opened(m, row)
                } else {
                    row_clicked(
                        m,
                        index as usize,
                        row,
                        geometry::floored(e.column - list.x),
                        list.width as int,
                        now,
                        exe,
                    )
                }
            } else {
                (m, Seq::empty())
            }
        },
        _ => (m, Seq::empty()),
    }
}

/// The row at the given part of the list is asked for, if there is one.
pub open spec fn picked(m: app::AppView, part: int, area: Rect) -> Seq<app::ActionView> {
    let rows = listing::rows_of(m);
    if area.height > 0 && rows.len() > 0 {
        seq![
            app::ActionView::PickRow {
                part: part as u16,
                whole: area.height,
                rows: rows.len() as usize,
            },
        ]
    } else {
        Seq::empty()
    }
}

/// What the mouse does on the sidebar's scrollbar, or while it drags its thumb;
/// `None` where the bar has no row to drag the thumb to.
pub open spec fn sidebar_scrollbar_clicked(m: app::AppView, e: MouseEvent, area: Rect) -> Option<
    (app::AppView, Seq<app::ActionView>),
> {
    match e.kind {
        MouseKind::Down(MouseButton::Left) => {
            let held = app::AppView {
                drags: app::Drags { sidebar_scrollbar: true, ..m.drags },
                ..m
            };
            Some((held, picked(m, geometry::floored(e.row - area.y), area)))
        },
        MouseKind::Drag(MouseButton::Left) | MouseKind::Moved => if m.drags.sidebar_scrollbar {
            let last = geometry::floored(area.bottom_edge() - 1);
            if area.y > last {
                None
            } else if e.row < area.y {
                Some((m, picked(m, 0, area)))
            } else if e.row > last {
                Some((m, picked(m, last - area.y, area)))
            } else {
                Some((m, picked(m, e.row - area.y, area)))
            }
        } else {
            Some((m, Seq::empty()))
        },
        MouseKind::Up(MouseButton::Left) => Some(
            (
                app::AppView { drags: app::Drags { sidebar_scrollbar: false, ..m.drags }, ..m },
                Seq::empty(),
            ),
        ),
        _ => Some((m, Seq::empty())),
    }
}

impl App {
    /// Selects a row of the list.
    pub fn select(&mut self, row: usize)
        ensures
            final(self)@ == selecting(old(self)@, row),
    {
        self.sidebar.state.selected = Some(row);
    }

    /// Selects the row at position `position` of the list, or the last one.
    pub fn pick_row(&mut self, position: usize)
        requires
            old(self)@.wf(),
        ensures
            final(self)@ == ({
                let rows = listing::rows_of(old(self)@);
                if rows.len() == 0 {
                    old(self)@
                } else if position < rows.len() {
                    selecting(old(self)@, rows[position as int])
                } else {
                    selecting(old(self)@, rows.last())
                }
            }),
    {
        let rows = self.matching_rows();
        if rows.len() > 0 {
            let at: usize = if position < rows.len() {
                position
            } else {
                rows.len() - 1
            };
            self.select(rows[at]);
        }
    }

    /// Whether a click on row `index` at time `now` is the second on it within
    /// a short time.
    pub fn is_double_click(&self, index: usize, now: u64) -> (r: bool)
        ensures
            r == is_double(self@, index, now),
    {
        match (self.sidebar.last_click_time, self.sidebar.last_clicked_index) {
            (Some(time), Some(last)) => now.saturating_sub(time) < DOUBLE_CLICK_NANOS && last
                == index,
            _ => false,
        }
    }

    /// Whether row `row` of the list is marked as a script.
    pub fn is_script_row(&self, row: usize) -> (r: bool)
        ensures
            r == row_is_script(self@, row),
    {
        let infos = match self.sidebar.mode {
            SidebarMode::Gists => &self.gists.infos,
            _ => &self.commands.infos,
        };
        assert(text::texts(infos@).len() == infos@.len());
        if row < infos.len() {
            assert(text::texts(infos@)[row as int] == infos@[row as int]@);
            text::text_starts_with(infos[row].as_str(), "__SCRIPT__")
        } else {
            false
        }
    }

    /// What running row `row` of the list types into the shell.
    pub fn command_of_row(&self, row: usize, exe: &str) -> (r: String)
        requires
            self@.wf(),
            row < listing::items_of(self@).len(),
        ensures
            r@ == row_command(self@, row, exe@),
    {
        match self.sidebar.mode {
            SidebarMode::History => {
                assert(self@.history.commands[row as int] == self.history.commands@[row as int]@);
                text::concat2(self.history.commands[row].as_str(), "\r")
            },
            _ => {
                let word = if self.is_script_row(row) {
                    " script "
                } else {
                    " "
                };
                let items = self.listed_items();
                assert(text::texts(items@)[row as int] == items@[row as int]@);
                let mut line = text::concat3(exe, word, items[row].as_str());
                line.append("\r");
                line
            },
        }
    }

    /// Opens the file that row `row` of the list comes from.
    pub fn open_row(&mut self, row: usize) -> (r: Vec<Action>)
        requires
            old(self)@.wf(),
            row < listing::items_of(old(self)@).len(),
        ensures
            final(self)@ == row_opened(old(self)@, row).0,
            app::action_views(r@) == row_opened(old(self)@, row).1,
    {
        let path = match self.sidebar.mode {
            SidebarMode::Commands => {
                assert(self@.commands.paths[row as int] == text::opt_text(
                    self.commands.paths@[row as int],
                ));
                text::copy_opt(&self.commands.paths[row])
            },
            SidebarMode::Gists => {
                assert(self@.gists.paths[row as int] == text::opt_text(
                    self.gists.paths@[row as int],
                ));
                text::copy_opt(&self.gists.paths[row])
            },
            SidebarMode::History => None,
        };
        self.sidebar.last_click_time = None;
        self.sidebar.last_clicked_index = None;
        match path {
            Some(p) => {
                let line = shell::edit_line(self.config.external_editor.as_str(), p.as_str());
                app::two_actions(Action::TrackEdit(p), Action::Write(line))
            },
            None => app::no_actions(),
        }
    }

    /// Takes a single click on a row of the list.
    pub fn click_row(
        &mut self,
        index: usize,
        row: usize,
        x: u16,
        width: u16,
        now: u64,
        exe: &str,
    ) -> (r: Vec<Action>)
        requires
            old(self)@.wf(),
            row < listing::items_of(old(self)@).len(),
        ensures
            final(self)@ == row_clicked(
                old(self)@,
                index,
                row,
                x as int,
                width as int,
                now,
                exe@,
            ).0,
            app::action_views(r@) == row_clicked(
                old(self)@,
                index,
                row,
                x as int,
                width as int,
                now,
                exe@,
            ).1,
    {
        let is_gist = self.sidebar.mode == SidebarMode::Gists;
        let is_script = self.is_script_row(row);
        let line = self.command_of_row(row, exe);
        let items = self.listed_items();
        assert(text::texts(items@)[row as int] == items@[row as int]@);
        let is_fetch = is_gist && text::text_starts_with(items[row].as_str(), "GIST: ");
        self.select(index);
        self.sidebar.last_click_time = Some(now);
        self.sidebar.last_clicked_index = Some(index);
        if is_gist && is_script && x >= width.saturating_sub(4) && x < width.saturating_sub(1) {
            self.dialogs.show_delete_confirm = true;
            self.dialogs.gist_index_to_delete = Some(row);
            app::no_actions()
        } else if x <= 1 {
            if is_fetch {
                app::one_action(Action::Post(Message::FetchGists))
            } else {
                app::one_action(Action::Write(line))
            }
        } else {
            app::no_actions()
        }
    }

    /// Takes what the mouse does on the list.
    pub fn click_list(&mut self, e: MouseEvent, list: Rect, now: u64, exe: &str) -> (r: Vec<Action>)
        requires
            old(self)@.wf(),
        ensures
            final(self)@ == list_clicked(old(self)@, e, list, now, exe@).0,
            app::action_views(r@) == list_clicked(old(self)@, e, list, now, exe@).1,
    {
        match e.kind {
            MouseKind::ScrollUp => {
                if let Some(row) = self.sidebar.state.selected {
                    if row > 0 {
                        self.select(row - 1);
                    }
                }
                app::no_actions()
            },
            MouseKind::ScrollDown => {
                let rows = self.matching_rows();
                let current: usize = match self.sidebar.state.selected {
                    Some(row) => row,
                    None => 0,
                };
                if current < rows.len() && current < rows.len() - 1 {
                    self.select(current + 1);
                }
                app::no_actions()
            },
            MouseKind::Down(MouseButton::Left) => {
                let rows = self.matching_rows();
                let down: u16 = e.row.saturating_sub(list.y);
                let index: usize = (down as usize).saturating_add(self.sidebar.state.offset);
                if index < rows.len() {
                    let row: usize = rows[index];
                    if self.is_double_click(index, now) {
                        self.open_row(row)
                    } else {
                        self.click_row(
                            index,
                            row,
                            e.column.saturating_sub(list.x),
                            list.width,
                            now,
                            exe,
                        )
                    }
                } else {
                    app::no_actions()
                }
            },
            _ => app::no_actions(),
        }
    }

    /// Asks for the row at the given part of the list.
    pub fn pick_action(&self, part: u16, area: Rect) -> (r: Vec<Action>)
        requires
            self@.wf(),
        ensures
            app::action_views(r@) == picked(self@, part as int, area),
    {
        let rows = self.matching_rows();
        if area.height > 0 && rows.len() > 0 {
            app::one_action(Action::PickRow { part, whole: area.height, rows: rows.len() })
        } else {
            app::no_actions()
        }
    }

    /// Takes what the mouse does on the sidebar's scrollbar, or while it drags
    /// its thumb.
    pub fn click_sidebar_scrollbar(&mut self, e: MouseEvent, area: Rect) -> (r: Option<Vec<Action>>)
        requires
            old(self)@.wf(),
        ensures
            match r {
                Some(actions) => sidebar_scrollbar_clicked(old(self)@, e, area) == Some(
                    (final(self)@, app::action_views(actions@)),
                ),
                None => sidebar_scrollbar_clicked(old(self)@, e, area) is None && final(self)@
                    == old(self)@,
            },
    {
        match e.kind {
            MouseKind::Down(MouseButton::Left) => {
                let actions = self.pick_action(e.row.saturating_sub(area.y), area);
                self.drags.sidebar_scrollbar = true;
                Some(actions)
            },
            MouseKind::Drag(MouseButton::Left) | MouseKind::Moved => {
                if self.drags.sidebar_scrollbar {
                    let last: u16 = area.bottom().saturating_sub(1);
                    if area.y > last {
                        return None;
                    }
                    let at: u16 = if e.row < area.y {
                        area.y
                    } else if e.row > last {
                        last
                    } else {
                        e.row
                    };
                    Some(self.pick_action(at - area.y, area))
                } else {
                    Some(app::no_actions())
                }
            },
            MouseKind::Up(MouseButton::Left) => {
                self.drags.sidebar_scrollbar = false;
                Some(app::no_actions())
            },
            _ => Some(app::no_actions()),
        }
    }

    /// Takes a click on the tabs.
    pub fn click_tabs(&mut self, e: MouseEvent, tabs: &Vec<Rect>) -> (r: Vec<Action>)
        requires
            tabs@.len() == 3,
        ensures
            final(self)@ == tabs_clicked(old(self)@, e, tabs@).0,
            app::action_views(r@) == tabs_clicked(old(self)@, e, tabs@).1,
    {
        self.select(0);
        if tabs[0].contains(e.column, e.row) {
            self.sidebar.mode = SidebarMode::Commands;
            app::no_actions()
        } else if tabs[1].contains(e.column, e.row) {
            self.sidebar.mode = SidebarMode::History;
            app::one_action(Action::RefreshHistory)
        } else if tabs[2].contains(e.column, e.row) {
            self.sidebar.mode = SidebarMode::Gists;
            app::no_actions()
        } else {
            app::no_actions()
        }
    }
}

/// The place in the list that a click at a row of the screen falls on.
pub open spec fn place_clicked(m: app::AppView, e: MouseEvent, list: Rect) -> int {
    m.sidebar.state.offset + (if e.row > list.y {
        e.row - list.y
    } else {
        0
    })
}

/// A click falls on row `row` of the lists: it is shown, and stands at the place
/// of the click.
pub open spec fn falls_on(m: app::AppView, e: MouseEvent, list: Rect, row: int) -> bool {
    &&& e.kind == MouseKind::Down(MouseButton::Left)
    &&& 0 <= row < listing::row_count(m)
    &&& listing::is_shown(m, row)
    &&& listing::shown_before(m, row) == place_clicked(m, e, list)
}

/// A click is the second one on its place within three tenths of a second.
pub open spec fn clicked_again(m: app::AppView, e: MouseEvent, list: Rect, now: u64) -> bool {
    &&& m.sidebar.last_clicked_index matches Some(i) && i == place_clicked(m, e, list)
    &&& m.sidebar.last_click_time matches Some(t) && now < t + 300_000_000
}

/// The label and the info of a row; the history has the infos of the commands.
pub open spec fn row_texts(m: app::AppView, row: int) -> (Seq<char>, Seq<char>) {
    match m.sidebar.mode {
        SidebarMode::Commands => (m.commands.items[row], m.commands.infos[row]),
        SidebarMode::History => (m.history.items[row], Seq::empty()),
        SidebarMode::Gists => (m.gists.items[row], m.gists.infos[row]),
    }
}

/// A text begins with another.
pub open spec fn begins(s: Seq<char>, p: Seq<char>) -> bool {
    exists|rest: Seq<char>| s == #[trigger] (p + rest)
}

proof fn lemma_begins(s: Seq<char>, p: Seq<char>)
    ensures
        begins(s, p) == text::starts_with(s, p),
{
    if text::starts_with(s, p) {
        assert(s =~= p + s.skip(p.len() as int)) by {
            assert forall|k: int| 0 <= k < p.len() implies s[k] == p[k] by {
                assert(s.subrange(0, p.len() as int)[k] == s[k]);
            }
        }
    }
    if begins(s, p) {
        let rest = choose|rest: Seq<char>| s == #[trigger] (p + rest);
        assert(s.subrange(0, p.len() as int) =~= p);
    }
}

/// The columns in which a row of the list has its mark for deletion.
pub open spec fn on_delete_mark(m: app::AppView, e: MouseEvent, list: Rect, row: int) -> bool {
    let x = if e.column > list.x {
        e.column - list.x
    } else {
        0
    };
    &&& m.sidebar.mode is Gists
    &&& begins(m.gists.infos[row], "__SCRIPT__"@)
    &&& x >= list.width - 4
    &&& x < list.width - 1
}

/// The state after a single click on a place of the list: that place is selected,
/// and the click is remembered.
pub open spec fn place_selected(m: app::AppView, place: int, now: u64) -> app::AppView {
    app::AppView {
        sidebar: app::SidebarView {
            state: app::ListState {
                selected: Some(place as usize),
                offset: m.sidebar.state.offset,
            },
            last_click_time: Some(now),
            last_clicked_index: Some(place as usize),
            ..m.sidebar
        },
        ..m
    }
}

proof fn lemma_click_finds_row(
    m: app::AppView,
    e: MouseEvent,
    list: Rect,
    now: u64,
    exe: Seq<char>,
    row: int,
)
    requires
        m.wf(),
        listing::row_count(m) <= usize::MAX,
        falls_on(m, e, list, row),
    ensures
        place_clicked(m, e, list) < usize::MAX,
        row <= usize::MAX,
        clicked_again(m, e, list, now) ==> list_clicked(m, e, list, now, exe) == row_opened(
            m,
            row as usize,
        ),
        !clicked_again(m, e, list, now) ==> list_clicked(m, e, list, now, exe) == row_clicked(
            m,
            place_clicked(m, e, list) as usize,
            row as usize,
            geometry::floored(e.column - list.x),
            list.width as int,
            now,
            exe,
        ),
{
    listing::law_rows_are_those_shown(m);
    lemma_shown_fit(m, row);
    lemma_shown_fit(m, listing::row_count(m));
    let rows = listing::rows_of(m);
    assert(rows[listing::shown_before(m, row)] == row);
}

proof fn lemma_shown_fit(m: app::AppView, n: int)
    requires
        0 <= n,
    ensures
        0 <= listing::shown_before(m, n) <= n,
    decreases n,
{
    if n > 0 {
        lemma_shown_fit(m, n - 1);
    }
}

/// A click on the run mark of a row runs that row, which the search shows: the
/// program with the row's label is typed, or the row of the history itself. A
/// listing of gists that is not there yet is fetched instead.
pub proof fn law_run_mark_runs_the_shown_row(
    m: app::AppView,
    e: MouseEvent,
    list: Rect,
    now: u64,
    exe: Seq<char>,
    row: int,
)
    requires
        m.wf(),
        listing::row_count(m) <= usize::MAX,
        falls_on(m, e, list, row),
        !clicked_again(m, e, list, now),
        !on_delete_mark(m, e, list, row),
        e.column <= list.x + 1,
    ensures
        ({
            let (after, actions) = list_clicked(m, e, list, now, exe);
            let (label, info) = row_texts(m, row);
            &&& after == place_selected(m, place_clicked(m, e, list), now)
            &&& m.sidebar.mode is History ==> actions == seq![
                app::ActionView::Write(m.history.commands[row].push('\r')),
            ]
            &&& m.sidebar.mode is Commands ==> actions == seq![
                app::ActionView::Write(
                    exe + (if begins(info, "__SCRIPT__"@) {
                        " script "@
                    } else {
                        " "@
                    }) + label.push('\r'),
                ),
            ]
            &&& m.sidebar.mode is Gists && begins(label, "GIST: "@) ==> actions == seq![
                app::ActionView::Post(app::MessageView::FetchGists),
            ]
            &&& m.sidebar.mode is Gists && !begins(label, "GIST: "@) ==> actions == seq![
                app::ActionView::Write(
                    exe + (if begins(info, "__SCRIPT__"@) {
                        " script "@
                    } else {
                        " "@
                    }) + label.push('\r'),
                ),
            ]
        }),
{
    lemma_click_finds_row(m, e, list, now, exe, row);
    reveal_strlit("\r");
    let (label, info) = row_texts(m, row);
    lemma_begins(info, "__SCRIPT__"@);
    lemma_begins(label, "GIST: "@);
    let word = if begins(info, "__SCRIPT__"@) {
        " script "@
    } else {
        " "@
    };
    assert(exe + word + label + "\r"@ =~= exe + word + label.push('\r'));
    if m.sidebar.mode is History {
        assert(m.history.commands[row] + "\r"@ =~= m.history.commands[row].push('\r'));
    }
}

/// A second click in a short time opens the file of the row, which the search
/// shows, in the editor: what is typed reads back as the path of that file. A row
/// without a file opens nothing.
pub proof fn law_double_click_opens_the_shown_row(
    m: app::AppView,
    e: MouseEvent,
    list: Rect,
    now: u64,
    exe: Seq<char>,
    row: int,
)
    requires
        m.wf(),
        listing::row_count(m) <= usize::MAX,
        falls_on(m, e, list, row),
        clicked_again(m, e, list, now),
    ensures
        ({
            let (after, actions) = list_clicked(m, e, list, now, exe);
            let path = match m.sidebar.mode {
                SidebarMode::Commands => m.commands.paths[row],
                SidebarMode::History => None,
                SidebarMode::Gists => m.gists.paths[row],
            };
            &&& after == (app::AppView {
                sidebar: app::SidebarView {
                    last_click_time: None,
                    last_clicked_index: None,
                    ..m.sidebar
                },
                ..m
            })
            &&& path is None ==> actions.len() == 0
            &&& path matches Some(p) ==> {
                &&& actions.len() == 2
                &&& actions[0] == app::ActionView::TrackEdit(p)
                &&& exists|word: Seq<char>|
                    {
                        &&& actions[1] == app::ActionView::Write(
                            #[trigger] (m.config.external_editor + " "@ + word + "\r"@),
                        )
                        &&& shell::shell_word(word, shell::Quoting::Plain) == Some(p)
                    }
            }
        }),
{
    lemma_click_finds_row(m, e, list, now, exe, row);
    let path = match m.sidebar.mode {
        SidebarMode::Commands => m.commands.paths[row],
        SidebarMode::History => None,
        SidebarMode::Gists => m.gists.paths[row],
    };
    if let Some(p) = path {
        shell::law_editor_opens_path(m.config.external_editor, p);
        let word = "'"@ + shell::quoted_path(p) + "'"@;
        assert(list_clicked(m, e, list, now, exe).1[1] == app::ActionView::Write(
            m.config.external_editor + " "@ + word + "\r"@,
        ));
    }
}

/// A click on the mark for deletion asks about the gist of the row, which the
/// search shows, and does nothing else.
pub proof fn law_delete_mark_asks_about_the_shown_row(
    m: app::AppView,
    e: MouseEvent,
    list: Rect,
    now: u64,
    exe: Seq<char>,
    row: int,
)
    requires
        m.wf(),
        listing::row_count(m) <= usize::MAX,
        falls_on(m, e, list, row),
        !clicked_again(m, e, list, now),
        on_delete_mark(m, e, list, row),
    ensures
        ({
            let (after, actions) = list_clicked(m, e, list, now, exe);
            &&& actions.len() == 0
            &&& after.dialogs.show_delete_confirm
            &&& after.dialogs.gist_index_to_delete == Some(row as usize)
            &&& after == (app::AppView {
                dialogs: app::DialogsView {
                    show_delete_confirm: true,
                    gist_index_to_delete: Some(row as usize),
                    ..m.dialogs
                },
                ..place_selected(m, place_clicked(m, e, list), now)
            })
        }),
{
    lemma_click_finds_row(m, e, list, now, exe, row);
    lemma_begins(m.gists.infos[row], "__SCRIPT__"@);
}

/// A single click beside the marks only selects the row.
pub proof fn law_click_beside_the_marks_selects(
    m: app::AppView,
    e: MouseEvent,
    list: Rect,
    now: u64,
    exe: Seq<char>,
    row: int,
)
    requires
        m.wf(),
        listing::row_count(m) <= usize::MAX,
        falls_on(m, e, list, row),
        !clicked_again(m, e, list, now),
        !on_delete_mark(m, e, list, row),
        e.column > list.x + 1,
    ensures
        list_clicked(m, e, list, now, exe) == (
            place_selected(m, place_clicked(m, e, list), now),
            Seq::<app::ActionView>::empty(),
        ),
{
    lemma_click_finds_row(m, e, list, now, exe, row);
    if m.sidebar.mode is Gists {
        lemma_begins(m.gists.infos[row], "__SCRIPT__"@);
    }
}

/// A click on the list behind its last row does nothing; nor does anything else
/// but a press of the left button and the wheel.
pub proof fn law_click_behind_the_rows_does_nothing(
    m: app::AppView,
    e: MouseEvent,
    list: Rect,
    now: u64,
    exe: Seq<char>,
)
    requires
        m.wf(),
        listing::row_count(m) <= usize::MAX,
        !(e.kind is ScrollUp) && !(e.kind is ScrollDown),
        e.kind == MouseKind::Down(MouseButton::Left) ==> place_clicked(m, e, list)
            >= listing::shown_before(m, listing::row_count(m)),
    ensures
        list_clicked(m, e, list, now, exe) == (m, Seq::<app::ActionView>::empty()),
{
    listing::law_rows_are_those_shown(m);
}

/// A row that the search hides is never run, opened or put up for deletion by a
/// click on the list: whatever a click does, it does to a row that is shown at the
/// place of the click, or to none.
pub proof fn law_hidden_rows_are_left_alone(
    m: app::AppView,
    e: MouseEvent,
    list: Rect,
    now: u64,
    exe: Seq<char>,
)
    requires
        m.wf(),
        listing::row_count(m) <= usize::MAX,
    ensures
        ({
            let (after, actions) = list_clicked(m, e, list, now, exe);
            &&& actions.len() > 0 || after.dialogs != m.dialogs ==> exists|row: int| #[trigger]
                falls_on(m, e, list, row)
            &&& after.dialogs != m.dialogs ==> {
                &&& after.dialogs.gist_index_to_delete matches Some(i) && falls_on(
                    m,
                    e,
                    list,
                    i as int,
                )
                &&& m.sidebar.mode is Gists
            }
            &&& after.commands == m.commands && after.history == m.history && after.gists == m.gists
                && after.sidebar.search_query == m.sidebar.search_query && after.sidebar.mode
                == m.sidebar.mode
        }),
{
    listing::law_rows_are_those_shown(m);
    let rows = listing::rows_of(m);
    let place = place_clicked(m, e, list);
    if e.kind == MouseKind::Down(MouseButton::Left) && place < rows.len() {
        let row = rows[place];
        assert(falls_on(m, e, list, row as int));
    }
}

/// The wheel selects the place before or behind the selected one, as long as the
/// list has it, and does nothing else.
pub proof fn law_wheel_moves_the_selection(
    m: app::AppView,
    e: MouseEvent,
    list: Rect,
    now: u64,
    exe: Seq<char>,
)
    requires
        m.wf(),
        listing::row_count(m) <= usize::MAX,
        e.kind is ScrollUp || e.kind is ScrollDown,
    ensures
        ({
            let (after, actions) = list_clicked(m, e, list, now, exe);
            let shown = listing::shown_before(m, listing::row_count(m));
            let before = match m.sidebar.state.selected {
                Some(row) => row as int,
                None => 0,
            };
            let wanted = if e.kind is ScrollUp {
                before - 1
            } else {
                before + 1
            };
            &&& actions.len() == 0
            &&& after == (app::AppView {
                sidebar: app::SidebarView { state: after.sidebar.state, ..m.sidebar },
                ..m
            })
            &&& after.sidebar.state.offset == m.sidebar.state.offset
            &&& e.kind is ScrollUp ==> after.sidebar.state.selected == if wanted >= 0 {
                Some(wanted as usize)
            } else {
                m.sidebar.state.selected
            }
            &&& e.kind is ScrollDown ==> after.sidebar.state.selected == if wanted < shown {
                Some(wanted as usize)
            } else {
                m.sidebar.state.selected
            }
        }),
{
    listing::law_rows_are_those_shown(m);
}

/// A click on a tab shows what the tab is for, from its first row on; the history
/// is read anew.
pub proof fn law_tabs_choose_the_list(m: app::AppView, e: MouseEvent, tabs: Seq<Rect>, i: int)
    requires
        tabs.len() == 3,
        0 <= i < 3,
        tabs[i].holds(e.column, e.row),
        forall|j: int| 0 <= j < i ==> !(#[trigger] tabs[j]).holds(e.column, e.row),
    ensures
        ({
            let (after, actions) = tabs_clicked(m, e, tabs);
            &&& after.sidebar.mode == (if i == 0 {
                SidebarMode::Commands
            } else if i == 1 {
                SidebarMode::History
            } else {
                SidebarMode::Gists
            })
            &&& after.sidebar.state.selected == Some(0usize)
            &&& after == (app::AppView {
                sidebar: app::SidebarView {
                    mode: after.sidebar.mode,
                    state: app::ListState {
                        selected: Some(0),
                        offset: m.sidebar.state.offset,
                    },
                    ..m.sidebar
                },
                ..m
            })
            &&& actions == if i == 1 {
                seq![app::ActionView::RefreshHistory]
            } else {
                Seq::empty()
            }
        }),
{
}

/// The thumb of the sidebar's scrollbar is taken by a press, moved as long as it
/// is held, and let go of; where it is moved to is a place on the bar, of as many
/// rows as are shown.
pub proof fn law_sidebar_thumb(m: app::AppView, e: MouseEvent, area: Rect)
    requires
        m.wf(),
        listing::row_count(m) <= usize::MAX,
        area.height > 0,
        area.y + area.height <= 65535,
    ensures
        ({
            let outcome = sidebar_scrollbar_clicked(m, e, area);
            let shown = listing::shown_before(m, listing::row_count(m));
            let left = MouseButton::Left;
            let moves = e.kind == MouseKind::Down(left) || (m.drags.sidebar_scrollbar && (e.kind
                == MouseKind::Drag(left) || e.kind is Moved));
            &&& outcome matches Some((after, actions)) && {
                &&& after == (app::AppView {
                    drags: app::Drags {
                        sidebar_scrollbar: if e.kind == MouseKind::Down(left) {
                            true
                        } else if e.kind == MouseKind::Up(left) {
                            false
                        } else {
                            m.drags.sidebar_scrollbar
                        },
                        ..m.drags
                    },
                    ..m
                })
                &&& !moves || shown == 0 ==> actions.len() == 0
                &&& moves && shown > 0 ==> actions.len() == 1 && (actions[0] matches app::ActionView::PickRow {
                    part,
                    whole,
                    rows,
                } && whole == area.height && rows == shown && (area.y <= e.row < area.y
                    + area.height ==> part == e.row - area.y))
            }
        }),
{
    listing::law_rows_are_those_shown(m);
    lemma_shown_fit(m, listing::row_count(m));
}

} // verus!
