//! What a click does.

pub mod bars;
pub mod dialogs;
pub mod sidebar;
pub mod terminal;

use crate::app;
use crate::app::{Action, App, Message, MouseButton, MouseEvent, MouseKind, SidebarMode};
use crate::handlers::dialogs::{DialogAreas, DialogAreasView, SettingsAreas, SettingsAreasView};
use crate::screen;
use crate::screen::ScreenState;
use crate::ui;
use crate::ui::geometry;
use crate::ui::geometry::{Extent, Direction, Rect};
use crate::ui::{LayoutResults, LayoutView};
use vstd::prelude::*;
use vstd::string::*;

verus! {

/// The areas that a click can fall on.
pub struct ClickAreas {
    pub layout: LayoutResults,
    pub dialog: DialogAreas,
    pub settings: SettingsAreas,
    /// The shown items of the upper status bar.
    pub upper: Vec<Rect>,
    /// The shown items of the lower status bar.
    pub lower: Vec<Rect>,
    pub tabs: Vec<Rect>,
}

/// What the areas are that a click can fall on.
pub ghost struct ClickAreasView {
    pub board: BoardView,
    pub dialog: DialogAreasView,
    pub settings: SettingsAreasView,
}

/// What the areas of the dashboard are that a click can fall on.
pub ghost struct BoardView {
    pub layout: LayoutView,
    pub upper: Seq<Rect>,
    pub lower: Seq<Rect>,
    pub tabs: Seq<Rect>,
}

impl View for ClickAreas {
    type V = ClickAreasView;

    open spec fn view(&self) -> ClickAreasView {
        ClickAreasView {
            board: BoardView {
                layout: self.layout@,
                upper: self.upper@,
                lower: self.lower@,
                tabs: self.tabs@,
            },
            dialog: self.dialog@,
            settings: self.settings@,
        }
    }
}

/// Three parts of the same size.
pub open spec fn thirds() -> Seq<Extent> {
    seq![Extent::Ratio(1, 3), Extent::Ratio(1, 3), Extent::Ratio(1, 3)]
}

/// There is as many areas as a click is tested against.
pub open spec fn areas_complete(m: app::AppView, c: ClickAreasView) -> bool {
    &&& c.dialog.rows.len() == 5
    &&& c.dialog.buttons.len() == 2
    &&& c.settings.rows.len() == 14
    &&& c.board.upper.len() == bars::shown(m, m.config.statusbar.upper).len()
    &&& c.board.lower.len() == bars::shown(m, m.config.statusbar.lower).len()
    &&& c.board.tabs.len() == 3
}

/// The areas that a click on a screen can fall on.
pub open spec fn is_click_areas(m: app::AppView, size: Rect, c: ClickAreasView) -> bool {
    &&& ui::is_layout(size, m.sidebar.width, c.board.layout)
    &&& dialogs::is_dialog(size, c.dialog)
    &&& dialogs::is_settings(size, c.settings)
    &&& geometry::strips(
        Direction::Horizontal,
        0,
        bars::bar_room(
            m.config.statusbar.upper,
            bars::shown(m, m.config.statusbar.upper),
        ),
        c.board.layout.status_chunks[0],
        c.board.upper,
    )
    &&& geometry::strips(
        Direction::Horizontal,
        0,
        bars::bar_room(
            m.config.statusbar.lower,
            bars::shown(m, m.config.statusbar.lower),
        ),
        c.board.layout.status_chunks[1],
        c.board.lower,
    )
    &&& geometry::strips(
        Direction::Horizontal,
        0,
        thirds(),
        sidebar::tabs_area(c.board.layout.sidebar_area),
        c.board.tabs,
    )
}

/// The areas of the dashboard that a click can fall on, where the screen has
/// room for them.
pub open spec fn board_at(m: app::AppView, size: Rect) -> BoardView {
    let layout = ui::layout_at(size, m.sidebar.width);
    BoardView {
        layout,
        upper: geometry::settled_parts(
            Direction::Horizontal,
            0,
            bars::bar_room(
                m.config.statusbar.upper,
                bars::shown(m, m.config.statusbar.upper),
            ),
            layout.status_chunks[0],
        ),
        lower: geometry::settled_parts(
            Direction::Horizontal,
            0,
            bars::bar_room(
                m.config.statusbar.lower,
                bars::shown(m, m.config.statusbar.lower),
            ),
            layout.status_chunks[1],
        ),
        tabs: geometry::settled_parts(
            Direction::Horizontal,
            0,
            thirds(),
            sidebar::tabs_area(layout.sidebar_area),
        ),
    }
}

/// The areas that a click on a screen can fall on, where the screen has room
/// for them.
pub open spec fn areas_at(m: app::AppView, size: Rect) -> ClickAreasView {
    ClickAreasView {
        board: board_at(m, size),
        dialog: dialogs::dialog_at(size),
        settings: dialogs::settings_at(size),
    }
}

/// The screen has room for what takes clicks: for the dialog that is open, or
/// else for the dashboard and what its status bars show.
pub open spec fn click_has_room(m: app::AppView, size: Rect) -> bool {
    if m.dialogs.show_delete_confirm || m.dialogs.show_upload_confirm {
        dialogs::dialog_has_room(size)
    } else if m.settings.is_shown {
        dialogs::settings_has_room(size)
    } else {
        &&& ui::has_room(size, m.sidebar.width)
        &&& bars::bar_has_room(m, m.config.statusbar.upper, size.width)
        &&& bars::bar_has_room(m, m.config.statusbar.lower, size.width)
    }
}

/// The dashboard has one place for each of its areas, where the screen has room
/// for them.
pub proof fn law_board_settled(m: app::AppView, size: Rect, c: ClickAreasView)
    requires
        is_click_areas(m, size, c),
        ui::has_room(size, m.sidebar.width),
        bars::bar_has_room(m, m.config.statusbar.upper, size.width),
        bars::bar_has_room(m, m.config.statusbar.lower, size.width),
    ensures
        c.board == board_at(m, size),
{
    let at = board_at(m, size);
    ui::law_layout_settled(size, m.sidebar.width, c.board.layout);
    bars::lemma_bar_settled(m, m.config.statusbar.upper, at.layout.status_chunks[0]);
    bars::lemma_bar_settled(m, m.config.statusbar.lower, at.layout.status_chunks[1]);
    assert(geometry::asks_thirds(thirds()));
}

/// Where the screen has room, what a click does is settled.
pub proof fn law_click_settled(
    m: app::AppView,
    e: MouseEvent,
    size: Rect,
    c: ClickAreasView,
    sc: ScreenState,
    now: u64,
    exe: Seq<char>,
)
    requires
        is_click_areas(m, size, c),
        click_has_room(m, size),
    ensures
        clicked(m, e, size, c, sc, now, exe) == clicked(
            m,
            e,
            size,
            areas_at(m, size),
            sc,
            now,
            exe,
        ),
{
    if m.dialogs.show_delete_confirm || m.dialogs.show_upload_confirm {
        dialogs::law_dialog_settled(size, c.dialog);
    } else if m.settings.is_shown {
        dialogs::law_settings_settled(size, c.settings);
    } else {
        law_board_settled(m, size, c);
    }
}

/// `outcome` is what a click on a screen can do: that of a click on the areas,
/// which are settled where the screen has room for them.
pub open spec fn is_click_outcome(
    m: app::AppView,
    e: MouseEvent,
    size: Rect,
    sc: ScreenState,
    now: u64,
    exe: Seq<char>,
    outcome: Option<(app::AppView, Seq<app::ActionView>)>,
) -> bool {
    &&& click_has_room(m, size) ==> outcome == clicked(
        m,
        e,
        size,
        areas_at(m, size),
        sc,
        now,
        exe,
    )
    &&& exists|c: ClickAreasView|
        #![trigger is_click_areas(m, size, c)]
        is_click_areas(m, size, c) && outcome == clicked(m, e, size, c, sc, now, exe)
}

/// The areas that a click can fall on.
pub fn click_areas(a: &App, size: Rect) -> (c: ClickAreas)
    requires
        bars::bars_placeable(a@),
    ensures
        is_click_areas(a@, size, c@),
        areas_complete(a@, c@),
{
    let layout = ui::calculate_layout(size, a.sidebar.width);
    let dialog = dialogs::dialog_areas(size);
    let settings = dialogs::settings_areas(size);
    let upper_rows = a.shown_items(&a.config.statusbar.upper);
    let upper = bars::bar_areas(&a.config.statusbar.upper, &upper_rows, layout.status_chunks[0]);
    let lower_rows = a.shown_items(&a.config.statusbar.lower);
    let lower = bars::bar_areas(&a.config.statusbar.lower, &lower_rows, layout.status_chunks[1]);
    let parts = vec![Extent::Ratio(1, 3), Extent::Ratio(1, 3), Extent::Ratio(1, 3)];
    assert(parts@ =~= thirds());
    let tabs_area = Rect {
        x: layout.sidebar_area.x,
        y: layout.sidebar_area.y,
        width: layout.sidebar_area.width,
        height: 1,
    };
    assert(tabs_area == sidebar::tabs_area(layout.sidebar_area));
    let tabs = geometry::split(Direction::Horizontal, 0, &parts, tabs_area);
    ClickAreas { layout, dialog, settings, upper, lower, tabs }
}

/// The sidebar does not take clicks: a program has taken over the terminal, or
/// the shell runs a command.
pub open spec fn is_locked(m: app::AppView, sc: ScreenState) -> bool {
    sc.app_active() || m.shell.is_busy
}

/// What the mouse does below the search field: on the list, the scrollbars and
/// the terminal.
pub open spec fn rest_clicked(
    m: app::AppView,
    e: MouseEvent,
    layout: LayoutView,
    sc: ScreenState,
    now: u64,
    exe: Seq<char>,
) -> Option<(app::AppView, Seq<app::ActionView>)> {
    let list = sidebar::list_area(layout.sidebar_area, m.sidebar.mode is Gists);
    if list.holds(e.column, e.row) {
        Some(sidebar::list_clicked(m, e, list, now, exe))
    } else if layout.sidebar_scrollbar_area.holds(e.column, e.row) || m.drags.sidebar_scrollbar {
        sidebar::sidebar_scrollbar_clicked(m, e, layout.sidebar_scrollbar_area)
    } else if layout.scrollbar_area.holds(e.column, e.row) || m.drags.scrollbar {
        terminal::scrollbar_clicked(m, e, layout.scrollbar_area, sc)
    } else if layout.term_area.holds(e.column, e.row) || m.selection.is_selecting {
        terminal::terminal_clicked(m, e, layout.term_area, sc)
    } else {
        Some((m, Seq::empty()))
    }
}

/// What the mouse does on the panes, the sidebar first; `None` where the
/// sidebar reaches beyond the last row there can be.
pub open spec fn panes_clicked(
    m: app::AppView,
    e: MouseEvent,
    c: BoardView,
    sc: ScreenState,
    now: u64,
    exe: Seq<char>,
) -> Option<(app::AppView, Seq<app::ActionView>)> {
    let area = c.layout.sidebar_area;
    let locked = is_locked(m, sc);
    let gists = m.sidebar.mode is Gists && !locked;
    let left = e.kind == MouseKind::Down(MouseButton::Left);
    if !sidebar::sidebar_fits(area, gists) {
        None
    } else if locked {
        Some((m, Seq::empty()))
    } else if gists && sidebar::new_button_area(area).holds(e.column, e.row) {
        Some(
            (
                m,
                if left {
                    seq![app::ActionView::Post(app::MessageView::CreateNewGist)]
                } else {
                    Seq::empty()
                },
            ),
        )
    } else if sidebar::tabs_area(area).holds(e.column, e.row) {
        if left {
            Some(sidebar::tabs_clicked(m, e, c.tabs))
        } else {
            Some((m, Seq::empty()))
        }
    } else {
        let searching = sidebar::search_area(area).holds(e.column, e.row);
        let focused = if left {
            app::AppView {
                sidebar: app::SidebarView { is_search_focused: searching, ..m.sidebar },
                ..m
            }
        } else {
            m
        };
        if searching {
            Some((focused, Seq::empty()))
        } else {
            rest_clicked(focused, e, c.layout, sc, now, exe)
        }
    }
}

/// The state once the left button, where it was released, drags nothing more.
pub open spec fn released(m: app::AppView, e: MouseEvent) -> app::AppView {
    if e.kind == MouseKind::Up(MouseButton::Left) {
        app::AppView {
            drags: app::Drags {
                sidebar: false,
                term_scrollbar: false,
                sidebar_scrollbar: false,
                ..m.drags
            },
            ..m
        }
    } else {
        m
    }
}

/// The width of a sidebar whose edge is dragged to a column: at least ten
/// columns, and at least twenty are left to the terminal.
pub open spec fn dragged_width(size: Rect, column: u16) -> u16 {
    let wanted = geometry::floored(size.width - column);
    (if wanted < 10 {
        10
    } else if wanted > size.width - 20 {
        size.width - 20
    } else {
        wanted
    }) as u16
}

/// What the mouse does where no dialog is open and no program asks for reports;
/// `None` where a screen is too narrow to drag the edge of the sidebar.
pub open spec fn dashboard_clicked(
    m: app::AppView,
    e: MouseEvent,
    size: Rect,
    c: BoardView,
    sc: ScreenState,
    now: u64,
    exe: Seq<char>,
) -> Option<(app::AppView, Seq<app::ActionView>)> {
    let left = e.kind == MouseKind::Down(MouseButton::Left);
    let bar = c.layout.scrollbar_area;
    if m.drags.term_scrollbar {
        Some(
            (
                m,
                if sc.scrollback_len > 0 {
                    seq![
                        app::ActionView::ScrollFromTop {
                            part: geometry::floored(e.row - bar.y) as u16,
                            whole: bar.height,
                        },
                    ]
                } else {
                    Seq::empty()
                },
            ),
        )
    } else if m.drags.sidebar {
        if size.width < 30 {
            None
        } else {
            Some(
                (
                    app::AppView {
                        sidebar: app::SidebarView {
                            width: dragged_width(size, e.column),
                            ..m.sidebar
                        },
                        ..m
                    },
                    Seq::empty(),
                ),
            )
        }
    } else if left && bar.holds(e.column, e.row) {
        Some(
            (
                app::AppView {
                    drags: if e.control {
                        app::Drags { sidebar: true, ..m.drags }
                    } else {
                        app::Drags { term_scrollbar: true, ..m.drags }
                    },
                    ..m
                },
                Seq::empty(),
            ),
        )
    } else {
        let barred = if left {
            bars::bars_pressed(m, c.upper, c.lower, e)
        } else {
            (m, Seq::empty())
        };
        match panes_clicked(barred.0, e, c, sc, now, exe) {
            Some((after, actions)) => Some((after, barred.1 + actions)),
            None => None,
        }
    }
}

/// What the mouse does. An open dialog comes first, then a program in the
/// terminal that asks for reports.
pub open spec fn clicked(
    m: app::AppView,
    e: MouseEvent,
    size: Rect,
    c: ClickAreasView,
    sc: ScreenState,
    now: u64,
    exe: Seq<char>,
) -> Option<(app::AppView, Seq<app::ActionView>)> {
    if m.dialogs.show_delete_confirm {
        match dialogs::clicked_answer(e, c.dialog) {
            Some(yes) => Some(dialogs::delete_answered(m, yes)),
            None => Some((m, Seq::empty())),
        }
    } else if m.dialogs.show_upload_confirm {
        match dialogs::clicked_answer(e, c.dialog) {
            Some(yes) => Some(dialogs::upload_answered(m, yes)),
            None => Some((m, Seq::empty())),
        }
    } else if m.settings.is_shown {
        Some(dialogs::settings_clicked(m, e, c.settings))
    } else if c.board.layout.term_area.holds(e.column, e.row) && sc.mouse_reporting() && sc.sgr_mouse() {
        Some((m, seq![app::ActionView::Write(terminal::report(e, c.board.layout.term_area))]))
    } else {
        dashboard_clicked(released(m, e), e, size, c.board, sc, now, exe)
    }
}

/// A strip of the sidebar.
fn strip(area: Rect, down: u16, height: u16) -> (r: Rect)
    requires
        area.y + down <= 65535,
    ensures
        r == sidebar::strip_at(area, down as int, height as int),
{
    Rect { x: area.x, y: area.y + down, width: area.width, height }
}

/// Takes what the mouse does below the search field.
fn click_rest(
    a: &mut App,
    e: MouseEvent,
    layout: &LayoutResults,
    sc: ScreenState,
    now: u64,
    exe: &str,
) -> (r: Option<Vec<Action>>)
    requires
        old(a)@.wf(),
        sc.can_scroll(),
        layout.sidebar_area.y + 2 <= 65535,
    ensures
        match r {
            Some(actions) => rest_clicked(old(a)@, e, layout@, sc, now, exe@) == Some(
                (final(a)@, app::action_views(actions@)),
            ),
            None => rest_clicked(old(a)@, e, layout@, sc, now, exe@) is None,
        },
{
    let below: u16 = if a.sidebar.mode == SidebarMode::Gists {
        3
    } else {
        2
    };
    let area = layout.sidebar_area;
    let list = geometry::new_rect(
        area.x,
        area.y + 2,
        area.width,
        area.height.saturating_sub(below),
    );
    assert(list == sidebar::list_area(area, a@.sidebar.mode is Gists));
    if list.contains(e.column, e.row) {
        Some(a.click_list(e, list, now, exe))
    } else if layout.sidebar_scrollbar_area.contains(e.column, e.row) || a.drags.sidebar_scrollbar {
        a.click_sidebar_scrollbar(e, layout.sidebar_scrollbar_area)
    } else if layout.scrollbar_area.contains(e.column, e.row) || a.drags.scrollbar {
        a.click_scrollbar(e, layout.scrollbar_area, sc)
    } else if layout.term_area.contains(e.column, e.row) || a.selection.is_selecting {
        a.click_terminal(e, layout.term_area, sc)
    } else {
        Some(app::no_actions())
    }
}

/// Takes what the mouse does on the panes.
fn click_panes(
    a: &mut App,
    e: MouseEvent,
    c: &ClickAreas,
    sc: ScreenState,
    now: u64,
    exe: &str,
) -> (r: Option<Vec<Action>>)
    requires
        old(a)@.wf(),
        sc.can_scroll(),
        c.tabs@.len() == 3,
    ensures
        match r {
            Some(actions) => panes_clicked(old(a)@, e, c@.board, sc, now, exe@) == Some(
                (final(a)@, app::action_views(actions@)),
            ),
            None => panes_clicked(old(a)@, e, c@.board, sc, now, exe@) is None,
        },
{
    let area = c.layout.sidebar_area;
    let locked = sc.is_app_active() || a.shell.is_busy;
    let gists = a.sidebar.mode == SidebarMode::Gists && !locked;
    let left = e.kind == MouseKind::Down(MouseButton::Left);
    let last: u16 = area.height.saturating_sub(1);
    if area.y > 65533 || (gists && last > 65535 - area.y) {
        return None;
    }
    if locked {
        return Some(app::no_actions());
    }
    if gists {
        let button = strip(area, last, 1);
        if button.contains(e.column, e.row) {
            if left {
                return Some(app::one_action(Action::Post(Message::CreateNewGist)));
            }
            return Some(app::no_actions());
        }
    }
    let tabs = strip(area, 0, 1);
    if tabs.contains(e.column, e.row) {
        if left {
            return Some(a.click_tabs(e, &c.tabs));
        }
        return Some(app::no_actions());
    }
    let search = strip(area, 1, 1);
    let searching = search.contains(e.column, e.row);
    if left {
        a.sidebar.is_search_focused = searching;
    }
    if searching {
        return Some(app::no_actions());
    }
    click_rest(a, e, &c.layout, sc, now, exe)
}

/// A click on the status bars keeps the state well formed.
proof fn lemma_bars_keep_wf(m: app::AppView, upper: Seq<Rect>, lower: Seq<Rect>, e: MouseEvent)
    requires
        m.wf(),
    ensures
        bars::bars_pressed(m, upper, lower, e).0.wf(),
{
    let items = m.config.statusbar.upper;
    let rows = bars::shown(m, items);
    bars::lemma_pressed_keeps(m, items, rows, upper, e, rows.len());
    let first = bars::bar_pressed(m, m, items, upper, e).0;
    let lower_items = m.config.statusbar.lower;
    let lower_rows = bars::shown(m, lower_items);
    bars::lemma_pressed_keeps(first, lower_items, lower_rows, lower, e, lower_rows.len());
}

/// Takes what the mouse does where no dialog is open and no program asks for
/// reports.
fn click_dashboard(
    a: &mut App,
    e: MouseEvent,
    size: Rect,
    c: &ClickAreas,
    sc: ScreenState,
    now: u64,
    exe: &str,
) -> (r: Option<Vec<Action>>)
    requires
        old(a)@.wf(),
        sc.can_scroll(),
        areas_complete(old(a)@, c@),
    ensures
        match r {
            Some(actions) => dashboard_clicked(old(a)@, e, size, c@.board, sc, now, exe@) == Some(
                (final(a)@, app::action_views(actions@)),
            ),
            None => dashboard_clicked(old(a)@, e, size, c@.board, sc, now, exe@) is None,
        },
{
    let left = e.kind == MouseKind::Down(MouseButton::Left);
    let bar = c.layout.scrollbar_area;
    if a.drags.term_scrollbar {
        if sc.scrollback_len > 0 {
            return Some(
                app::one_action(
                    Action::ScrollFromTop {
                        part: e.row.saturating_sub(bar.y),
                        whole: bar.height,
                    },
                ),
            );
        }
        return Some(app::no_actions());
    }
    if a.drags.sidebar {
        if size.width < 30 {
            return None;
        }
        let wanted: u16 = size.width.saturating_sub(e.column);
        let most: u16 = size.width - 20;
        a.sidebar.width = if wanted < 10 {
            10
        } else if wanted > most {
            most
        } else {
            wanted
        };
        return Some(app::no_actions());
    }
    if left && bar.contains(e.column, e.row) {
        if e.control {
            a.drags.sidebar = true;
        } else {
            a.drags.term_scrollbar = true;
        }
        return Some(app::no_actions());
    }
    let mut actions = if left {
        proof {
            lemma_bars_keep_wf(a@, c.upper@, c.lower@, e);
        }
        bars::press_bars(a, &c.upper, &c.lower, e)
    } else {
        app::no_actions()
    };
    match click_panes(a, e, c, sc, now, exe) {
        Some(more) => {
            app::append_actions(&mut actions, more);
            Some(actions)
        },
        None => None,
    }
}

/// Takes what the mouse does, given the areas that it can fall on. The result
/// is `None` where the areas leave no answer.
pub fn click(
    a: &mut App,
    e: MouseEvent,
    size: Rect,
    c: &ClickAreas,
    sc: ScreenState,
    now: u64,
    exe: &str,
) -> (r: Option<Vec<Action>>)
    requires
        old(a)@.wf(),
        sc.can_scroll(),
        areas_complete(old(a)@, c@),
    ensures
        match r {
            Some(actions) => clicked(old(a)@, e, size, c@, sc, now, exe@) == Some(
                (final(a)@, app::action_views(actions@)),
            ),
            None => clicked(old(a)@, e, size, c@, sc, now, exe@) is None,
        },
{
    if a.dialogs.show_delete_confirm {
        return match dialogs::click_answer(e, &c.dialog) {
            Some(yes) => Some(a.answer_delete(yes)),
            None => Some(app::no_actions()),
        };
    }
    if a.dialogs.show_upload_confirm {
        return match dialogs::click_answer(e, &c.dialog) {
            Some(yes) => Some(a.answer_upload(yes)),
            None => Some(app::no_actions()),
        };
    }
    if a.settings.is_shown {
        return Some(dialogs::click_settings(a, e, &c.settings));
    }
    if c.layout.term_area.contains(e.column, e.row) && sc.is_mouse_reporting() && sc.is_sgr_mouse() {
        let line = terminal::report_text(e, c.layout.term_area);
        return Some(app::one_action(Action::Write(line)));
    }
    if e.kind == MouseKind::Up(MouseButton::Left) {
        a.drags.sidebar = false;
        a.drags.term_scrollbar = false;
        a.drags.sidebar_scrollbar = false;
    }
    proof {
        bars::lemma_shown_depends(old(a)@, a@, old(a)@.config.statusbar.upper);
        bars::lemma_shown_depends(old(a)@, a@, old(a)@.config.statusbar.lower);
    }
    click_dashboard(a, e, size, c, sc, now, exe)
}

/// Takes what the mouse does on a screen. `now` is the time in nanoseconds
/// since the start, `exe` the path of this program. The result is `None` where
/// the screen is too small to tell what the mouse does, or the terminal's view
/// too high to be moved; nothing is said of the state then.
pub fn handle_click(
    a: &mut App,
    mouse: MouseEvent,
    size: Rect,
    terminal: &vt100::Screen,
    now: u64,
    exe: &str,
) -> (r: Option<Vec<Action>>)
    requires
        old(a)@.wf(),
        bars::bars_placeable(old(a)@),
    ensures
        ({
            let sc = screen::screen_state(*terminal);
            match r {
                Some(actions) => sc.can_scroll() && is_click_outcome(
                    old(a)@,
                    mouse,
                    size,
                    sc,
                    now,
                    exe@,
                    Some((final(a)@, app::action_views(actions@))),
                ),
                None => !sc.can_scroll() || is_click_outcome(
                    old(a)@,
                    mouse,
                    size,
                    sc,
                    now,
                    exe@,
                    None,
                ),
            }
        }),
{
    let sc = screen::read_state(terminal);
    let c = click_areas(a, size);
    if sc.scrollback > usize::MAX - 20 {
        return None;
    }
    proof {
        if click_has_room(a@, size) {
            law_click_settled(a@, mouse, size, c@, sc, now, exe@);
        }
    }
    click(a, mouse, size, &c, sc, now, exe)
}

proof fn lemma_list_keeps_wf(m: app::AppView, e: MouseEvent, list: Rect, now: u64, exe: Seq<char>)
    requires
        m.wf(),
    ensures
        sidebar::list_clicked(m, e, list, now, exe).0.wf(),
{
}

proof fn lemma_scrollbars_keep_wf(m: app::AppView, e: MouseEvent, area: Rect, sc: ScreenState)
    requires
        m.wf(),
    ensures
        sidebar::sidebar_scrollbar_clicked(m, e, area) matches Some((after, _)) ==> after.wf(),
        terminal::scrollbar_clicked(m, e, area, sc) matches Some((after, _)) ==> after.wf(),
{
    assert forall|drags: app::Drags| (#[trigger] with_drags(m, drags)).wf() by {}
    let a = sidebar::sidebar_scrollbar_clicked(m, e, area);
    assert(a matches Some((after, _)) ==> after == with_drags(m, after.drags));
    let b = terminal::scrollbar_clicked(m, e, area, sc);
    assert(b matches Some((after, _)) ==> after == with_drags(m, after.drags));
}

/// A state in which the mouse drags something else.
spec fn with_drags(m: app::AppView, drags: app::Drags) -> app::AppView {
    app::AppView { drags, ..m }
}

proof fn lemma_terminal_keeps_wf(m: app::AppView, e: MouseEvent, term: Rect, sc: ScreenState)
    requires
        m.wf(),
    ensures
        terminal::terminal_clicked(m, e, term, sc) matches Some((after, _)) ==> after.wf(),
{
    let x = geometry::floored(e.column - term.x) as u16;
    let y = geometry::floored(e.row - term.y) as u16;
    let selection = terminal::selection_clicked(m.selection, e.kind, y, x);
    if let Some(s) = selection {
        assert(s.start is Some == s.end is Some);
        assert((app::AppView { selection: s, ..m }).wf());
    }
    assert(terminal::terminal_clicked(m, e, term, sc) matches Some((after, _)) ==> after == m || (
    selection is Some && after == (app::AppView { selection: selection->0, ..m })));
}

proof fn lemma_rest_keeps_wf(
    m: app::AppView,
    e: MouseEvent,
    layout: LayoutView,
    sc: ScreenState,
    now: u64,
    exe: Seq<char>,
)
    requires
        m.wf(),
    ensures
        rest_clicked(m, e, layout, sc, now, exe) matches Some((after, _)) ==> after.wf(),
{
    let list = sidebar::list_area(layout.sidebar_area, m.sidebar.mode is Gists);
    lemma_list_keeps_wf(m, e, list, now, exe);
    lemma_scrollbars_keep_wf(m, e, layout.sidebar_scrollbar_area, sc);
    lemma_scrollbars_keep_wf(m, e, layout.scrollbar_area, sc);
    lemma_terminal_keeps_wf(m, e, layout.term_area, sc);
}

proof fn lemma_panes_keep_wf(
    m: app::AppView,
    e: MouseEvent,
    c: BoardView,
    sc: ScreenState,
    now: u64,
    exe: Seq<char>,
)
    requires
        m.wf(),
    ensures
        panes_clicked(m, e, c, sc, now, exe) matches Some((after, _)) ==> after.wf(),
{
    let unfocused = app::AppView {
        sidebar: app::SidebarView { is_search_focused: false, ..m.sidebar },
        ..m
    };
    if !sidebar::search_area(c.layout.sidebar_area).holds(e.column, e.row) {
        lemma_rest_keeps_wf(unfocused, e, c.layout, sc, now, exe);
        lemma_rest_keeps_wf(m, e, c.layout, sc, now, exe);
    }
}

/// A click keeps the state well formed.
pub proof fn law_click_keeps_wf(
    m: app::AppView,
    e: MouseEvent,
    size: Rect,
    c: ClickAreasView,
    sc: ScreenState,
    now: u64,
    exe: Seq<char>,
)
    requires
        m.wf(),
    ensures
        clicked(m, e, size, c, sc, now, exe) matches Some((after, _)) ==> after.wf(),
{
    let held = released(m, e);
    lemma_bars_keep_wf(held, c.board.upper, c.board.lower, e);
    let barred = bars::bars_pressed(held, c.board.upper, c.board.lower, e);
    lemma_panes_keep_wf(barred.0, e, c.board, sc, now, exe);
    lemma_panes_keep_wf(held, e, c.board, sc, now, exe);
    assert(dashboard_clicked(held, e, size, c.board, sc, now, exe) matches Some((after, _))
        ==> after.wf());
}

/// A gist is deleted by a click only while the question of its deletion is open.
pub proof fn law_click_deletes_only_when_asked(
    m: app::AppView,
    e: MouseEvent,
    size: Rect,
    c: ClickAreasView,
    sc: ScreenState,
    now: u64,
    exe: Seq<char>,
    i: usize,
)
    ensures
        clicked(m, e, size, c, sc, now, exe) matches Some((_, actions)) ==> (actions.contains(
            app::ActionView::Post(app::MessageView::DeleteGist(i)),
        ) ==> m.dialogs.show_delete_confirm && m.dialogs.gist_index_to_delete == Some(i)),
{
    lemma_dashboard_deletes_nothing(released(m, e), e, size, c.board, sc, now, exe, i);
}

proof fn lemma_bars_delete_nothing(
    m: app::AppView,
    upper: Seq<Rect>,
    lower: Seq<Rect>,
    e: MouseEvent,
    i: usize,
)
    ensures
        !bars::bars_pressed(m, upper, lower, e).1.contains(
            app::ActionView::Post(app::MessageView::DeleteGist(i)),
        ),
{
    let upper_items = m.config.statusbar.upper;
    let upper_rows = bars::shown(m, upper_items);
    lemma_press_deletes_nothing(m, upper_items, upper_rows, upper, e, upper_rows.len(), i);
    let first = bars::bar_pressed(m, m, upper_items, upper, e);
    let lower_items = m.config.statusbar.lower;
    let lower_rows = bars::shown(m, lower_items);
    lemma_press_deletes_nothing(first.0, lower_items, lower_rows, lower, e, lower_rows.len(), i);
    let second = bars::bar_pressed(m, first.0, lower_items, lower, e);
    lemma_not_in_sum(
        first.1,
        second.1,
        app::ActionView::Post(app::MessageView::DeleteGist(i)),
    );
}

proof fn lemma_rest_deletes_nothing(
    m: app::AppView,
    e: MouseEvent,
    layout: LayoutView,
    sc: ScreenState,
    now: u64,
    exe: Seq<char>,
    i: usize,
)
    ensures
        rest_clicked(m, e, layout, sc, now, exe) matches Some((_, actions)) ==> !actions.contains(
            app::ActionView::Post(app::MessageView::DeleteGist(i)),
        ),
{
}

proof fn lemma_panes_delete_nothing(
    m: app::AppView,
    e: MouseEvent,
    c: BoardView,
    sc: ScreenState,
    now: u64,
    exe: Seq<char>,
    i: usize,
)
    ensures
        panes_clicked(m, e, c, sc, now, exe) matches Some((_, actions)) ==> !actions.contains(
            app::ActionView::Post(app::MessageView::DeleteGist(i)),
        ),
{
    let unfocused = app::AppView {
        sidebar: app::SidebarView { is_search_focused: false, ..m.sidebar },
        ..m
    };
    lemma_rest_deletes_nothing(unfocused, e, c.layout, sc, now, exe, i);
    lemma_rest_deletes_nothing(m, e, c.layout, sc, now, exe, i);
}

proof fn lemma_dashboard_deletes_nothing(
    m: app::AppView,
    e: MouseEvent,
    size: Rect,
    c: BoardView,
    sc: ScreenState,
    now: u64,
    exe: Seq<char>,
    i: usize,
)
    ensures
        dashboard_clicked(m, e, size, c, sc, now, exe) matches Some((_, actions))
            ==> !actions.contains(app::ActionView::Post(app::MessageView::DeleteGist(i))),
{
    let deletion = app::ActionView::Post(app::MessageView::DeleteGist(i));
    lemma_bars_delete_nothing(m, c.upper, c.lower, e, i);
    let barred = if e.kind == MouseKind::Down(MouseButton::Left) {
        bars::bars_pressed(m, c.upper, c.lower, e)
    } else {
        (m, Seq::empty())
    };
    lemma_panes_delete_nothing(barred.0, e, c, sc, now, exe, i);
    if let Some((_, more)) = panes_clicked(barred.0, e, c, sc, now, exe) {
        lemma_not_in_sum(barred.1, more, deletion);
    }
}

proof fn lemma_not_in_sum(a: Seq<app::ActionView>, b: Seq<app::ActionView>, x: app::ActionView)
    requires
        !a.contains(x),
        !b.contains(x),
    ensures
        !(a + b).contains(x),
{
    if (a + b).contains(x) {
        let k = choose|k: int| 0 <= k < (a + b).len() && (a + b)[k] == x;
        if k < a.len() {
            assert(a[k] == x);
        } else {
            assert(b[k - a.len()] == x);
        }
    }
}

proof fn lemma_press_deletes_nothing(
    m: app::AppView,
    items: Seq<crate::config::ItemView>,
    rows: Seq<usize>,
    areas: Seq<Rect>,
    e: MouseEvent,
    n: nat,
    i: usize,
)
    ensures
        !bars::pressed_upto(m, items, rows, areas, e, n).1.contains(
            app::ActionView::Post(app::MessageView::DeleteGist(i)),
        ),
    decreases n,
{
    if n > 0 {
        lemma_press_deletes_nothing(m, items, rows, areas, e, (n - 1) as nat, i);
        let before = bars::pressed_upto(m, items, rows, areas, e, (n - 1) as nat);
        let item = items[rows[n - 1] as int];
        if let Some(action) = item.action {
            lemma_not_in_sum(
                before.1,
                bars::pressed(before.0, action, item.command).1,
                app::ActionView::Post(app::MessageView::DeleteGist(i)),
            );
        }
    }
}

/// While the sidebar is locked, a click changes neither the lists nor what is
/// selected in them.
pub proof fn law_locked_sidebar_keeps_still(
    m: app::AppView,
    e: MouseEvent,
    size: Rect,
    c: ClickAreasView,
    sc: ScreenState,
    now: u64,
    exe: Seq<char>,
)
    requires
        is_locked(m, sc),
    ensures
        clicked(m, e, size, c, sc, now, exe) matches Some((after, _)) ==> after.sidebar.state
            == m.sidebar.state && after.sidebar.mode == m.sidebar.mode
            && after.sidebar.search_query == m.sidebar.search_query && after.commands == m.commands
            && after.history == m.history && after.gists == m.gists,
{
    let held = released(m, e);
    let upper_rows = bars::shown(held, held.config.statusbar.upper);
    bars::lemma_pressed_keeps(
        held,
        held.config.statusbar.upper,
        upper_rows,
        c.board.upper,
        e,
        upper_rows.len(),
    );
    let first = bars::bar_pressed(held, held, held.config.statusbar.upper, c.board.upper, e);
    let lower_rows = bars::shown(held, held.config.statusbar.lower);
    bars::lemma_pressed_keeps(
        first.0,
        held.config.statusbar.lower,
        lower_rows,
        c.board.lower,
        e,
        lower_rows.len(),
    );
}

/// A sidebar whose edge is dragged keeps at least ten columns, and leaves at
/// least twenty to the terminal.
pub proof fn law_dragged_width_keeps_room(size: Rect, column: u16)
    requires
        size.width >= 30,
    ensures
        10 <= dragged_width(size, column) <= size.width - 20,
{
}

/// Nothing that lies over the dashboard is open.
pub open spec fn is_clear(m: app::AppView) -> bool {
    &&& !m.dialogs.show_delete_confirm
    &&& !m.dialogs.show_upload_confirm
    &&& !m.settings.is_shown
}

/// The mouse drags neither the edge of the sidebar nor the thumb that moves the
/// terminal's view from its top.
pub open spec fn drags_nothing(m: app::AppView) -> bool {
    !m.drags.term_scrollbar && !m.drags.sidebar
}

/// A question takes all clicks while it is open. The left button on its first
/// button says yes, on its second no, and closes it in both cases; anything else
/// changes nothing. A deletion is asked for only by a yes, of the gist that the
/// question is about, and it comes before a question of upload.
pub proof fn law_questions_take_clicks(
    m: app::AppView,
    e: MouseEvent,
    size: Rect,
    c: ClickAreasView,
    sc: ScreenState,
    now: u64,
    exe: Seq<char>,
)
    requires
        m.wf(),
        m.dialogs.show_delete_confirm || m.dialogs.show_upload_confirm,
    ensures
        ({
            let outcome = clicked(m, e, size, c, sc, now, exe);
            let d = c.dialog;
            let on_row = e.kind == MouseKind::Down(MouseButton::Left) && d.area.holds(
                e.column,
                e.row,
            ) && d.rows[3].holds(e.column, e.row);
            let yes = on_row && d.buttons[0].holds(e.column, e.row);
            let no = on_row && !yes && d.buttons[1].holds(e.column, e.row);
            let none = Seq::<app::ActionView>::empty();
            &&& !yes && !no ==> outcome == Some((m, none))
            &&& outcome matches Some((after, actions)) && {
                &&& no ==> actions == none
                &&& (yes || no) && m.dialogs.show_delete_confirm ==> after == (app::AppView {
                    dialogs: app::DialogsView {
                        show_delete_confirm: false,
                        gist_index_to_delete: None,
                        ..m.dialogs
                    },
                    ..m
                })
                &&& yes && m.dialogs.show_delete_confirm ==> actions == seq![
                    app::ActionView::Post(
                        app::MessageView::DeleteGist(m.dialogs.gist_index_to_delete->0),
                    ),
                ]
                &&& (yes || no) && !m.dialogs.show_delete_confirm ==> after == (app::AppView {
                    dialogs: app::DialogsView {
                        show_upload_confirm: false,
                        pending_gist_file: None,
                        ..m.dialogs
                    },
                    ..m
                })
                &&& forall|i: int|
                    0 <= i < actions.len() ==> (#[trigger] actions[i] matches app::ActionView::Upload {
                        path,
                        token,
                        automatic,
                        ..
                    } ==> yes && m.dialogs.pending_gist_file == Some(path) && m.auth_token == Some(
                        token,
                    ) && !automatic)
            }
        }),
{
}

/// A yes to the question of upload uploads the file asked about, under the name of
/// the first gist that is kept in it, where the user is logged in.
pub proof fn law_clicked_yes_uploads(
    m: app::AppView,
    e: MouseEvent,
    size: Rect,
    c: ClickAreasView,
    sc: ScreenState,
    now: u64,
    exe: Seq<char>,
    path: Seq<char>,
    token: Seq<char>,
    row: int,
)
    requires
        m.wf(),
        !m.dialogs.show_delete_confirm,
        m.dialogs.show_upload_confirm,
        m.dialogs.pending_gist_file == Some(path),
        m.auth_token == Some(token),
        0 <= row < m.gists.paths.len(),
        m.gists.paths[row] == Some(path),
        forall|j: int| 0 <= j < row ==> #[trigger] m.gists.paths[j] != Some(path),
        e.kind == MouseKind::Down(MouseButton::Left),
        c.dialog.area.holds(e.column, e.row),
        c.dialog.rows[3].holds(e.column, e.row),
        c.dialog.buttons[0].holds(e.column, e.row),
    ensures
        clicked(m, e, size, c, sc, now, exe) matches Some((_, actions)) && actions == seq![
            app::ActionView::Upload {
                token,
                path,
                remote_name: m.gists.remote_names[row],
                automatic: false,
            },
        ],
{
    dialogs::law_first_row_of_path(m.gists.paths, path, 0);
}

/// The settings take all clicks while they are shown and no question is open. The
/// left button gives the focus to the field that it falls on, asks for the update
/// on its button unless a reason stands against it, and closes the settings beside
/// them; anything else changes nothing.
pub proof fn law_settings_take_clicks(
    m: app::AppView,
    e: MouseEvent,
    size: Rect,
    c: ClickAreasView,
    sc: ScreenState,
    now: u64,
    exe: Seq<char>,
)
    requires
        !m.dialogs.show_delete_confirm,
        !m.dialogs.show_upload_confirm,
        m.settings.is_shown,
    ensures
        ({
            let outcome = clicked(m, e, size, c, sc, now, exe);
            let s = c.settings;
            let inside = s.area.holds(e.column, e.row);
            let token = inside && s.rows[3].holds(e.column, e.row);
            let address = inside && !token && s.rows[7].holds(e.column, e.row);
            let update = inside && !token && !address && s.rows[9].holds(e.column, e.row);
            let editor = inside && !token && !address && !update && s.rows[12].holds(
                e.column,
                e.row,
            );
            let none = Seq::<app::ActionView>::empty();
            &&& e.kind != MouseKind::Down(MouseButton::Left) ==> outcome == Some((m, none))
            &&& e.kind == MouseKind::Down(MouseButton::Left) && update ==> outcome == Some(
                (
                    m,
                    if m.settings.update_disabled_reason is None {
                        seq![app::ActionView::Post(app::MessageView::UpdateBinary)]
                    } else {
                        none
                    },
                ),
            )
            &&& e.kind == MouseKind::Down(MouseButton::Left) && !update ==> outcome == Some(
                (
                    app::AppView {
                        settings: app::SettingsView {
                            is_pat_focused: token,
                            is_update_url_focused: address,
                            is_editor_focused: editor,
                            is_shown: inside,
                            ..m.settings
                        },
                        ..m
                    },
                    none,
                ),
            )
        }),
{
}

/// A program that asks for reports in the form of SGR gets what the mouse does on
/// the terminal, and nothing else happens there.
pub proof fn law_reporting_program_gets_the_mouse(
    m: app::AppView,
    e: MouseEvent,
    size: Rect,
    c: ClickAreasView,
    sc: ScreenState,
    now: u64,
    exe: Seq<char>,
)
    requires
        is_clear(m),
        c.board.layout.term_area.holds(e.column, e.row),
        !(sc.mouse_mode is Off),
        sc.mouse_encoding is Sgr,
    ensures
        clicked(m, e, size, c, sc, now, exe) == Some(
            (
                m,
                seq![app::ActionView::Write(terminal::report(e, c.board.layout.term_area))],
            ),
        ),
{
}

/// No program takes the mouse where it is.
pub open spec fn is_unreported(e: MouseEvent, c: ClickAreasView, sc: ScreenState) -> bool {
    !c.board.layout.term_area.holds(e.column, e.row) || sc.mouse_mode is Off || !(sc.mouse_encoding
        is Sgr)
}

/// A press on the column between terminal and sidebar takes hold of it: with the
/// control key of the sidebar's edge, else of the thumb. The edge follows the mouse
/// as far as ten columns are left to the sidebar and twenty to the terminal; the
/// thumb moves the view. Letting the button go ends both.
pub proof fn law_edge_and_thumb_are_dragged(
    m: app::AppView,
    e: MouseEvent,
    size: Rect,
    c: ClickAreasView,
    sc: ScreenState,
    now: u64,
    exe: Seq<char>,
)
    requires
        is_clear(m),
        is_unreported(e, c, sc),
        size.width >= 30,
    ensures
        ({
            let outcome = clicked(m, e, size, c, sc, now, exe);
            let bar = c.board.layout.scrollbar_area;
            let up = e.kind == MouseKind::Up(MouseButton::Left);
            let none = Seq::<app::ActionView>::empty();
            let wanted = size.width - e.column;
            &&& drags_nothing(m) && e.kind == MouseKind::Down(MouseButton::Left) && bar.holds(
                e.column,
                e.row,
            ) ==> outcome == Some(
                (
                    app::AppView {
                        drags: app::Drags {
                            sidebar: e.control,
                            term_scrollbar: !e.control,
                            ..m.drags
                        },
                        ..m
                    },
                    none,
                ),
            )
            &&& !m.drags.term_scrollbar && m.drags.sidebar && !up ==> (outcome matches Some(
                (after, actions),
            ) && actions.len() == 0 && after == (app::AppView {
                sidebar: app::SidebarView { width: after.sidebar.width, ..m.sidebar },
                ..m
            }) && after.sidebar.width == (if wanted < 10 {
                10
            } else if wanted > size.width - 20 {
                size.width - 20
            } else {
                wanted
            }))
            &&& m.drags.term_scrollbar && !up ==> outcome == Some(
                (
                    m,
                    if sc.scrollback_len > 0 {
                        seq![
                            app::ActionView::ScrollFromTop {
                                part: (if e.row > bar.y {
                                    e.row - bar.y
                                } else {
                                    0
                                }) as u16,
                                whole: bar.height,
                            },
                        ]
                    } else {
                        none
                    },
                ),
            )
            &&& outcome matches Some((after, _)) ==> (up ==> !after.drags.sidebar
                && !after.drags.term_scrollbar && !after.drags.sidebar_scrollbar)
        }),
{
    let held = released(m, e);
    if e.kind == MouseKind::Up(MouseButton::Left) {
        lemma_rest_keeps_drags(held, e, c.board.layout, sc, now, exe);
    }
}

proof fn lemma_rest_keeps_drags(
    m: app::AppView,
    e: MouseEvent,
    layout: LayoutView,
    sc: ScreenState,
    now: u64,
    exe: Seq<char>,
)
    requires
        e.kind == MouseKind::Up(MouseButton::Left),
    ensures
        rest_clicked(m, e, layout, sc, now, exe) matches Some((after, _)) ==> after.drags.sidebar
            == m.drags.sidebar && after.drags.term_scrollbar == m.drags.term_scrollbar && (
        !m.drags.sidebar_scrollbar ==> !after.drags.sidebar_scrollbar),
{
}

/// The mouse does nothing to what is dragged, and falls neither on an item of the
/// status bars nor on the column between terminal and sidebar.
pub open spec fn is_on_panes(m: app::AppView, e: MouseEvent, c: ClickAreasView) -> bool {
    &&& drags_nothing(m)
    &&& e.kind != MouseKind::Up(MouseButton::Left)
    &&& e.kind == MouseKind::Down(MouseButton::Left) ==> {
        &&& !c.board.layout.scrollbar_area.holds(e.column, e.row)
        &&& forall|k: int|
            0 <= k < c.board.upper.len() ==> !(#[trigger] c.board.upper[k]).holds(e.column, e.row)
        &&& forall|k: int|
            0 <= k < c.board.lower.len() ==> !(#[trigger] c.board.lower[k]).holds(e.column, e.row)
    }
}

proof fn lemma_panes_take(
    m: app::AppView,
    e: MouseEvent,
    size: Rect,
    c: ClickAreasView,
    sc: ScreenState,
    now: u64,
    exe: Seq<char>,
)
    requires
        is_clear(m),
        is_unreported(e, c, sc),
        is_on_panes(m, e, c),
        c.board.upper.len() == bars::shown(m, m.config.statusbar.upper).len(),
        c.board.lower.len() == bars::shown(m, m.config.statusbar.lower).len(),
    ensures
        clicked(m, e, size, c, sc, now, exe) == panes_clicked(m, e, c.board, sc, now, exe),
{
    if e.kind == MouseKind::Down(MouseButton::Left) {
        bars::law_both_bars_take_the_click(m, c.board.upper, c.board.lower, e, -1, true);
    }
    if let Some((after, actions)) = panes_clicked(m, e, c.board, sc, now, exe) {
        assert(Seq::<app::ActionView>::empty() + actions =~= actions);
    }
}

/// The areas of the sidebar, each one row high but for the list: the tabs at its
/// top, then the search field, then the list, and for the gists a button at its
/// end.
pub open spec fn sidebar_strip(area: Rect, down: int, height: int) -> Rect {
    Rect { x: area.x, y: (area.y + down) as u16, width: area.width, height: height as u16 }
}

/// While a program has taken over the terminal, or the shell runs a command, the
/// mouse does nothing on the sidebar and the terminal.
pub proof fn law_locked_panes_do_nothing(
    m: app::AppView,
    e: MouseEvent,
    size: Rect,
    c: ClickAreasView,
    sc: ScreenState,
    now: u64,
    exe: Seq<char>,
)
    requires
        is_clear(m),
        is_unreported(e, c, sc),
        is_on_panes(m, e, c),
        c.board.upper.len() == bars::shown(m, m.config.statusbar.upper).len(),
        c.board.lower.len() == bars::shown(m, m.config.statusbar.lower).len(),
        c.board.layout.sidebar_area.y + 2 <= 65535,
        sc.alternate_screen || sc.hide_cursor || sc.application_cursor || m.shell.is_busy,
    ensures
        clicked(m, e, size, c, sc, now, exe) == Some((m, Seq::<app::ActionView>::empty())),
{
    lemma_panes_take(m, e, size, c, sc, now, exe);
}

/// The mouse reaches what it falls on: the button for a new gist, the tabs, the
/// search field, the list, the scrollbars and the terminal, in this order. A press
/// beside the search field takes the focus from it.
pub proof fn law_clicks_reach_what_they_fall_on(
    m: app::AppView,
    e: MouseEvent,
    size: Rect,
    c: ClickAreasView,
    sc: ScreenState,
    now: u64,
    exe: Seq<char>,
)
    requires
        is_clear(m),
        is_unreported(e, c, sc),
        is_on_panes(m, e, c),
        c.board.upper.len() == bars::shown(m, m.config.statusbar.upper).len(),
        c.board.lower.len() == bars::shown(m, m.config.statusbar.lower).len(),
        c.board.layout.sidebar_area.y + 2 <= 65535,
        c.board.layout.sidebar_area.y + c.board.layout.sidebar_area.height <= 65535,
        c.board.layout.sidebar_area.width * c.board.layout.sidebar_area.height <= 65535,
        !sc.alternate_screen && !sc.hide_cursor && !sc.application_cursor && !m.shell.is_busy,
    ensures
        ({
            let outcome = clicked(m, e, size, c, sc, now, exe);
            let l = c.board.layout;
            let area = l.sidebar_area;
            let gists = m.sidebar.mode is Gists;
            let left = e.kind == MouseKind::Down(MouseButton::Left);
            let last = if area.height > 0 {
                area.height - 1
            } else {
                0
            };
            let below = if gists {
                3int
            } else {
                2
            };
            let rows = if area.height > below {
                area.height - below
            } else {
                0
            };
            let list = sidebar_strip(area, 2, rows);
            let on_new = gists && sidebar_strip(area, last, 1).holds(e.column, e.row);
            let on_tabs = !on_new && sidebar_strip(area, 0, 1).holds(e.column, e.row);
            let on_search = !on_new && !on_tabs && sidebar_strip(area, 1, 1).holds(e.column, e.row);
            let beside = !on_new && !on_tabs && !on_search;
            let m2 = app::AppView {
                sidebar: app::SidebarView {
                    is_search_focused: m.sidebar.is_search_focused && !left,
                    ..m.sidebar
                },
                ..m
            };
            let none = Seq::<app::ActionView>::empty();
            &&& on_new ==> outcome == Some(
                (
                    m,
                    if left {
                        seq![app::ActionView::Post(app::MessageView::CreateNewGist)]
                    } else {
                        none
                    },
                ),
            )
            &&& on_tabs && left ==> outcome == Some(sidebar::tabs_clicked(m, e, c.board.tabs))
            &&& on_tabs && !left ==> outcome == Some((m, none))
            &&& on_search ==> outcome == Some(
                (
                    app::AppView {
                        sidebar: app::SidebarView {
                            is_search_focused: left || m.sidebar.is_search_focused,
                            ..m.sidebar
                        },
                        ..m
                    },
                    none,
                ),
            )
            &&& beside && list.holds(e.column, e.row) ==> outcome == Some(
                sidebar::list_clicked(m2, e, list, now, exe),
            )
            &&& beside && !list.holds(e.column, e.row) && (l.sidebar_scrollbar_area.holds(
                e.column,
                e.row,
            ) || m.drags.sidebar_scrollbar) ==> outcome == sidebar::sidebar_scrollbar_clicked(
                m2,
                e,
                l.sidebar_scrollbar_area,
            )
            &&& beside && !list.holds(e.column, e.row) && !l.sidebar_scrollbar_area.holds(
                e.column,
                e.row,
            ) && !m.drags.sidebar_scrollbar && (l.scrollbar_area.holds(e.column, e.row)
                || m.drags.scrollbar) ==> outcome == terminal::scrollbar_clicked(
                m2,
                e,
                l.scrollbar_area,
                sc,
            )
            &&& beside && !list.holds(e.column, e.row) && !l.sidebar_scrollbar_area.holds(
                e.column,
                e.row,
            ) && !m.drags.sidebar_scrollbar && !l.scrollbar_area.holds(e.column, e.row)
                && !m.drags.scrollbar && (l.term_area.holds(e.column, e.row)
                || m.selection.is_selecting) ==> outcome == terminal::terminal_clicked(
                m2,
                e,
                l.term_area,
                sc,
            )
            &&& beside && !list.holds(e.column, e.row) && !l.sidebar_scrollbar_area.holds(
                e.column,
                e.row,
            ) && !m.drags.sidebar_scrollbar && !l.scrollbar_area.holds(e.column, e.row)
                && !m.drags.scrollbar && !l.term_area.holds(e.column, e.row)
                && !m.selection.is_selecting ==> outcome == Some((m2, none))
        }),
{
    lemma_panes_take(m, e, size, c, sc, now, exe);
    let area = c.board.layout.sidebar_area;
    let gists = m.sidebar.mode is Gists;
    let rows = sidebar::list_height(area, gists);
    assert(area.width * rows <= area.width * area.height) by (nonlinear_arith)
        requires
            0 <= rows <= area.height,
    ;
    assert(sidebar::list_area(area, gists) == sidebar_strip(area, 2, rows));
}

/// A press of the left button on one item of the status bars, and on nothing of
/// the sidebar or the terminal, does what the item is for; a press beside all items
/// presses none.
pub proof fn law_bars_take_presses(
    m: app::AppView,
    e: MouseEvent,
    size: Rect,
    c: ClickAreasView,
    sc: ScreenState,
    now: u64,
    exe: Seq<char>,
    k: int,
    in_upper: bool,
)
    requires
        is_clear(m),
        is_unreported(e, c, sc),
        drags_nothing(m),
        e.kind == MouseKind::Down(MouseButton::Left),
        areas_complete(m, c),
        !c.board.layout.scrollbar_area.holds(e.column, e.row),
        c.board.layout.sidebar_area.y + 2 <= 65535,
        sc.alternate_screen || sc.hide_cursor || sc.application_cursor || m.shell.is_busy,
        forall|j: int|
            0 <= j < c.board.upper.len() && !(in_upper && j == k) ==> !(
            #[trigger] c.board.upper[j]).holds(e.column, e.row),
        forall|j: int|
            0 <= j < c.board.lower.len() && !(!in_upper && j == k) ==> !(
            #[trigger] c.board.lower[j]).holds(e.column, e.row),
        ({
            let areas = if in_upper {
                c.board.upper
            } else {
                c.board.lower
            };
            0 <= k < areas.len() && areas[k].holds(e.column, e.row)
        }),
    ensures
        ({
            let items = if in_upper {
                m.config.statusbar.upper
            } else {
                m.config.statusbar.lower
            };
            let item = items[bars::shown(m, items)[k] as int];
            clicked(m, e, size, c, sc, now, exe) == Some(
                match item.action {
                    Some(action) => bars::pressed(m, action, item.command),
                    None => (m, Seq::<app::ActionView>::empty()),
                },
            )
        }),
{
    bars::law_both_bars_take_the_click(m, c.board.upper, c.board.lower, e, k, in_upper);
    let barred = bars::bars_pressed(m, c.board.upper, c.board.lower, e);
    let none = Seq::<app::ActionView>::empty();
    lemma_bars_keep_shell(m, c.board.upper, c.board.lower, e);
    assert(panes_clicked(barred.0, e, c.board, sc, now, exe) == Some((barred.0, none)));
    assert(barred.1 + none =~= barred.1);
}

proof fn lemma_bars_keep_shell(m: app::AppView, upper: Seq<Rect>, lower: Seq<Rect>, e: MouseEvent)
    ensures
        bars::bars_pressed(m, upper, lower, e).0.shell == m.shell,
{
    let items = m.config.statusbar.upper;
    let rows = bars::shown(m, items);
    bars::lemma_pressed_keeps(m, items, rows, upper, e, rows.len());
    let first = bars::bar_pressed(m, m, items, upper, e).0;
    let lower_items = m.config.statusbar.lower;
    let lower_rows = bars::shown(m, lower_items);
    bars::lemma_pressed_keeps(first, lower_items, lower_rows, lower, e, lower_rows.len());
}

/// A press of the left button on one item of the status bars, beside the sidebar
/// and the terminal, does what the item is for, and takes the focus from the search
/// field.
pub proof fn law_bars_take_presses_beside_the_panes(
    m: app::AppView,
    e: MouseEvent,
    size: Rect,
    c: ClickAreasView,
    sc: ScreenState,
    now: u64,
    exe: Seq<char>,
    k: int,
    in_upper: bool,
)
    requires
        m.wf(),
        is_clear(m),
        drags_nothing(m),
        !m.drags.scrollbar && !m.drags.sidebar_scrollbar && !m.selection.is_selecting,
        e.kind == MouseKind::Down(MouseButton::Left),
        areas_complete(m, c),
        ({
            let l = c.board.layout;
            &&& !l.scrollbar_area.holds(e.column, e.row)
            &&& !l.sidebar_scrollbar_area.holds(e.column, e.row)
            &&& !l.term_area.holds(e.column, e.row)
            &&& l.sidebar_area.y + l.sidebar_area.height <= e.row
            &&& 3 <= l.sidebar_area.height
            &&& l.sidebar_area.y + l.sidebar_area.height <= 65535
            &&& l.sidebar_area.width * l.sidebar_area.height <= 65535
        }),
        !sc.alternate_screen && !sc.hide_cursor && !sc.application_cursor && !m.shell.is_busy,
        forall|j: int|
            0 <= j < c.board.upper.len() && !(in_upper && j == k) ==> !(
            #[trigger] c.board.upper[j]).holds(e.column, e.row),
        forall|j: int|
            0 <= j < c.board.lower.len() && !(!in_upper && j == k) ==> !(
            #[trigger] c.board.lower[j]).holds(e.column, e.row),
        ({
            let areas = if in_upper {
                c.board.upper
            } else {
                c.board.lower
            };
            0 <= k < areas.len() && areas[k].holds(e.column, e.row)
        }),
    ensures
        ({
            let items = if in_upper {
                m.config.statusbar.upper
            } else {
                m.config.statusbar.lower
            };
            let item = items[bars::shown(m, items)[k] as int];
            let (after, actions) = match item.action {
                Some(action) => bars::pressed(m, action, item.command),
                None => (m, Seq::<app::ActionView>::empty()),
            };
            clicked(m, e, size, c, sc, now, exe) == Some(
                (
                    app::AppView {
                        sidebar: app::SidebarView { is_search_focused: false, ..m.sidebar },
                        ..after
                    },
                    actions,
                ),
            )
        }),
{
    bars::law_both_bars_take_the_click(m, c.board.upper, c.board.lower, e, k, in_upper);
    let barred = bars::bars_pressed(m, c.board.upper, c.board.lower, e);
    let none = Seq::<app::ActionView>::empty();
    lemma_bars_keep_rest(m, c.board.upper, c.board.lower, e);
    let area = c.board.layout.sidebar_area;
    let gists = m.sidebar.mode is Gists;
    let rows = sidebar::list_height(area, gists);
    assert(area.width * rows <= area.width * area.height) by (nonlinear_arith)
        requires
            0 <= rows <= area.height,
    ;
    assert(sidebar::list_area(area, gists) == sidebar_strip(area, 2, rows));
    let unfocused = app::AppView {
        sidebar: app::SidebarView { is_search_focused: false, ..m.sidebar },
        ..barred.0
    };
    assert(panes_clicked(barred.0, e, c.board, sc, now, exe) == Some((unfocused, none)));
    assert(barred.1 + none =~= barred.1);
}

proof fn lemma_bars_keep_rest(m: app::AppView, upper: Seq<Rect>, lower: Seq<Rect>, e: MouseEvent)
    ensures
        ({
            let after = bars::bars_pressed(m, upper, lower, e).0;
            &&& after.shell == m.shell
            &&& after.sidebar == m.sidebar
            &&& after.drags == m.drags
            &&& after.selection == m.selection
        }),
{
    let items = m.config.statusbar.upper;
    let rows = bars::shown(m, items);
    bars::lemma_pressed_keeps(m, items, rows, upper, e, rows.len());
    let first = bars::bar_pressed(m, m, items, upper, e).0;
    let lower_items = m.config.statusbar.lower;
    let lower_rows = bars::shown(m, lower_items);
    bars::lemma_pressed_keeps(first, lower_items, lower_rows, lower, e, lower_rows.len());
}

/// The tabs share the first row of the sidebar between them, each a third of it but
/// for one cell, from its start to its end.
pub proof fn law_tabs_share_their_row(m: app::AppView, size: Rect)
    requires
        ui::has_room(size, m.sidebar.width),
    ensures
        ({
            let area = board_at(m, size).layout.sidebar_area;
            let tabs = board_at(m, size).tabs;
            &&& tabs.len() == 3
            &&& tabs[0].x == area.x
            &&& tabs[1].x == tabs[0].x + tabs[0].width
            &&& tabs[2].x == tabs[1].x + tabs[1].width
            &&& tabs[2].x + tabs[2].width == area.x + area.width
            &&& forall|i: int|
                0 <= i < 3 ==> {
                    &&& (#[trigger] tabs[i]).y == area.y
                    &&& tabs[i].height == 1
                    &&& area.width - 3 <= 3 * tabs[i].width <= area.width + 3
                }
        }),
{
    let area = board_at(m, size).layout.sidebar_area;
    let row = sidebar::tabs_area(area);
    let c = thirds();
    let whole = area.width as int;
    assert(geometry::asks_thirds(c));
    assert(geometry::cells_of(Direction::Horizontal, row) == whole);
    assert(!geometry::asks_percents(c)) by {
        assert(c[0] is Ratio);
    }
    let (none, one, two, three) = (0int, 1int, 2int, 3int);
    assert(none * whole == 0 && one * whole == whole && two * whole == whole + whole && three
        * whole == whole + whole + whole) by (nonlinear_arith)
        requires
            none == 0,
            one == 1,
            two == 2,
            three == 3,
    ;
    assert(geometry::nearest(none * whole, 3) == (2 * (none * whole) + 3) / 6);
    assert((2 * (none * whole) + 3) / 6 == 0);
    assert(geometry::reach(c, whole, none) == geometry::nearest(none * whole, 3));
    assert(geometry::reach(c, whole, 1) == (2 * whole + 3) / 6);
    assert(geometry::reach(c, whole, 2) == (4 * whole + 3) / 6);
    assert(geometry::reach(c, whole, 3) == (6 * whole + 3) / 6);
}

/// What a click does on a screen is settled where there is room for what takes it:
/// for a question, for the settings, or for the dashboard and the items of its
/// status bars. It is then what a click on the areas of that screen does.
pub proof fn law_outcome_is_that_of_the_areas(
    m: app::AppView,
    e: MouseEvent,
    size: Rect,
    sc: ScreenState,
    now: u64,
    exe: Seq<char>,
    outcome: Option<(app::AppView, Seq<app::ActionView>)>,
)
    requires
        is_click_outcome(m, e, size, sc, now, exe, outcome),
        size.x + size.width <= 65535,
        size.y + size.height <= 65535,
        ({
            let question = m.dialogs.show_delete_confirm || m.dialogs.show_upload_confirm;
            &&& question ==> 7 <= size.height
            &&& !question && m.settings.is_shown ==> 24 <= size.height && 4 <= size.width
            &&& !question && !m.settings.is_shown ==> {
                &&& 2 <= size.height
                &&& 2 <= m.sidebar.width <= size.width
                &&& bars::bar_has_room(m, m.config.statusbar.upper, size.width)
                &&& bars::bar_has_room(m, m.config.statusbar.lower, size.width)
            }
        }),
    ensures
        outcome == clicked(
            m,
            e,
            size,
            ClickAreasView {
                board: BoardView {
                    layout: ui::layout_at(size, m.sidebar.width),
                    upper: board_at(m, size).upper,
                    lower: board_at(m, size).lower,
                    tabs: board_at(m, size).tabs,
                },
                dialog: dialogs::dialog_at(size),
                settings: dialogs::settings_at(size),
            },
            sc,
            now,
            exe,
        ),
{
}

/// The items of the status bars take the rooms that they ask for, in the two last
/// rows of the screen.
pub proof fn law_items_have_their_areas(m: app::AppView, size: Rect)
    requires
        ui::has_room(size, m.sidebar.width),
    ensures
        ({
            let b = board_at(m, size);
            let upper = m.config.statusbar.upper;
            let lower = m.config.statusbar.lower;
            let row = |y: int| Rect { x: size.x, y: y as u16, width: size.width, height: 1 };
            let room = |items: Seq<crate::config::ItemView>|
                bars::shown(m, items).map_values(|i: usize| bars::item_room(items[i as int]));
            &&& b.upper == geometry::settled_parts(
                Direction::Horizontal,
                0,
                room(upper),
                row(size.y + size.height - 2),
            )
            &&& b.lower == geometry::settled_parts(
                Direction::Horizontal,
                0,
                room(lower),
                row(size.y + size.height - 1),
            )
        }),
{
    let upper = m.config.statusbar.upper;
    let lower = m.config.statusbar.lower;
    assert(bars::bar_room(upper, bars::shown(m, upper)) =~= bars::shown(m, upper).map_values(
        |i: usize| bars::item_room(upper[i as int]),
    ));
    assert(bars::bar_room(lower, bars::shown(m, lower)) =~= bars::shown(m, lower).map_values(
        |i: usize| bars::item_room(lower[i as int]),
    ));
}

} // verus!
