//! Clicks on the status bars.

use crate::app;
use crate::app::{Action, App, Message, MouseEvent};
use crate::config;
use crate::config::{ActionType, ItemType, StatusBarItem};
use crate::text;
use crate::ui::geometry;
use crate::ui::geometry::{Extent, Direction, Rect};
use vstd::prelude::*;
use vstd::string::*;

verus! {

/// The shown ones of the first `n` items of a status bar, in order.
pub open spec fn shown_upto(m: app::AppView, items: Seq<config::ItemView>, n: nat) -> Seq<usize>
    decreases n,
{
    if n == 0 {
        Seq::empty()
    } else {
        let before = shown_upto(m, items, (n - 1) as nat);
        if m.shows_item(items[n - 1]) {
            before.push((n - 1) as usize)
        } else {
            before
        }
    }
}

/// The shown items of a status bar, in order.
pub open spec fn shown(m: app::AppView, items: Seq<config::ItemView>) -> Seq<usize> {
    shown_upto(m, items, items.len())
}

/// How much room an item of a status bar asks for.
pub open spec fn item_room(item: config::ItemView) -> Extent {
    match item.width {
        Some(w) => Extent::Length(w),
        None => if item.type_ is Spacer || item.type_ is GitInfo || item.type_
            is SelectedCommandInfo {
            Extent::Fill(1)
        } else {
            match item.label {
                Some(label) => Extent::Length((text::byte_len(label) % 65536) as u16),
                None => Extent::Min(0),
            }
        },
    }
}

/// How much room the shown items of a status bar ask for.
pub open spec fn bar_room(items: Seq<config::ItemView>, rows: Seq<usize>) -> Seq<Extent> {
    rows.map_values(|i: usize| item_room(items[i as int]))
}

/// There is room for the shown items of a status bar, which are no more than
/// sixty-four.
pub open spec fn bar_has_room(m: app::AppView, items: Seq<config::ItemView>, width: u16) -> bool {
    &&& shown(m, items).len() <= 64
    &&& geometry::lengths(bar_room(items, shown(m, items))) <= width
}

/// Where there is room for the items of a status bar, their areas are settled.
pub proof fn lemma_bar_settled(m: app::AppView, items: Seq<config::ItemView>, area: Rect)
    requires
        bar_has_room(m, items, area.width),
        area.x + area.width <= 65535,
    ensures
        geometry::is_settled(
            bar_room(items, shown(m, items)),
            geometry::cells_of(Direction::Horizontal, area),
        ),
{
    assert(geometry::asks_lengths(bar_room(items, shown(m, items))));
}

/// How much room an item of a status bar asks for.
pub fn item_width(item: &StatusBarItem) -> (r: Extent)
    ensures
        r == item_room(item@),
{
    match item.width {
        Some(w) => Extent::Length(w),
        None => if item.type_ == ItemType::Spacer || item.type_ == ItemType::GitInfo || item.type_
            == ItemType::SelectedCommandInfo {
            Extent::Fill(1)
        } else {
            match &item.label {
                Some(label) => {
                    let n: usize = text::text_bytes(label.as_str());
                    Extent::Length((n % 65536) as u16)
                },
                None => Extent::Min(0),
            }
        },
    }
}

impl App {
    /// The shown ones of some items, in order.
    pub fn shown_items(&self, items: &Vec<StatusBarItem>) -> (r: Vec<usize>)
        ensures
            r@ == shown(self@, config::item_views(items@)),
            forall|k: int| 0 <= k < r@.len() ==> (#[trigger] r@[k]) < items@.len(),
    {
        let mut out: Vec<usize> = Vec::new();
        let ghost views = config::item_views(items@);
        let mut i: usize = 0;
        while i < items.len()
            invariant
                i <= items@.len(),
                views == config::item_views(items@),
                out@ == shown_upto(self@, views, i as nat),
                forall|k: int| 0 <= k < out@.len() ==> (#[trigger] out@[k]) < items@.len(),
            decreases items@.len() - i,
        {
            assert(views[i as int] == items@[i as int]@);
            if self.is_item_visible(&items[i]) {
                out.push(i);
            }
            i = i + 1;
        }
        out
    }
}

/// So few of the shown items of each status bar stretch that places for them can
/// be found.
pub open spec fn bars_placeable(m: app::AppView) -> bool {
    &&& geometry::few_rests(
        bar_room(m.config.statusbar.upper, shown(m, m.config.statusbar.upper)),
    )
    &&& geometry::few_rests(
        bar_room(m.config.statusbar.lower, shown(m, m.config.statusbar.lower)),
    )
}

/// Whether places can be found for the shown items of a status bar.
fn is_placeable(items: &Vec<StatusBarItem>, rows: &Vec<usize>) -> (r: bool)
    requires
        forall|k: int| 0 <= k < rows@.len() ==> (#[trigger] rows@[k]) < items@.len(),
    ensures
        r == geometry::few_rests(bar_room(config::item_views(items@), rows@)),
{
    let ghost wanted = bar_room(config::item_views(items@), rows@);
    let mut stretching: usize = 0;
    let mut k: usize = 0;
    proof {
        geometry::lemma_sums_ends(wanted);
    }
    while k < rows.len()
        invariant
            k <= rows@.len(),
            wanted == bar_room(config::item_views(items@), rows@),
            stretching == geometry::rests(wanted.take(k as int)),
            stretching <= k,
            forall|k: int| 0 <= k < rows@.len() ==> (#[trigger] rows@[k]) < items@.len(),
        decreases rows@.len() - k,
    {
        let i: usize = rows[k];
        assert(config::item_views(items@)[i as int] == items@[i as int]@);
        proof {
            geometry::lemma_sums_step(wanted, k as int);
        }
        match item_width(&items[i]) {
            Extent::Length(_) => {},
            _ => {
                stretching = stretching + 1;
            },
        }
        k = k + 1;
    }
    rows.len() <= 24 || stretching <= 24
}

impl App {
    /// Whether places can be found for the shown items of the status bars.
    pub fn can_place_bars(&self) -> (r: bool)
        ensures
            r == bars_placeable(self@),
    {
        let upper = self.shown_items(&self.config.statusbar.upper);
        let lower = self.shown_items(&self.config.statusbar.lower);
        is_placeable(&self.config.statusbar.upper, &upper) && is_placeable(
            &self.config.statusbar.lower,
            &lower,
        )
    }
}

/// Which bars can be placed depends on what they show alone.
pub proof fn lemma_placeable_depends(m: app::AppView, n: app::AppView)
    requires
        m.git_info == n.git_info,
        m.selection == n.selection,
        m.config.statusbar == n.config.statusbar,
    ensures
        bars_placeable(m) == bars_placeable(n),
{
    lemma_shown_depends(m, n, m.config.statusbar.upper);
    lemma_shown_depends(m, n, m.config.statusbar.lower);
}

/// Which items are shown depends on the git state and the selection alone.
pub proof fn lemma_shown_depends(
    m: app::AppView,
    n: app::AppView,
    items: Seq<config::ItemView>,
)
    requires
        m.git_info == n.git_info,
        m.selection == n.selection,
    ensures
        shown(m, items) == shown(n, items),
{
    lemma_shown_upto_depends(m, n, items, items.len());
}

proof fn lemma_shown_upto_depends(
    m: app::AppView,
    n: app::AppView,
    items: Seq<config::ItemView>,
    k: nat,
)
    requires
        m.git_info == n.git_info,
        m.selection == n.selection,
    ensures
        shown_upto(m, items, k) == shown_upto(n, items, k),
    decreases k,
{
    if k > 0 {
        lemma_shown_upto_depends(m, n, items, (k - 1) as nat);
    }
}

/// The areas of the shown items of a status bar.
pub fn bar_areas(items: &Vec<StatusBarItem>, rows: &Vec<usize>, area: Rect) -> (r: Vec<Rect>)
    requires
        geometry::few_rests(bar_room(config::item_views(items@), rows@)),
        forall|k: int| 0 <= k < rows@.len() ==> (#[trigger] rows@[k]) < items@.len(),
    ensures
        geometry::strips(
            Direction::Horizontal,
            0,
            bar_room(config::item_views(items@), rows@),
            area,
            r@,
        ),
{
    let mut room: Vec<Extent> = Vec::new();
    let ghost wanted = bar_room(config::item_views(items@), rows@);
    let mut k: usize = 0;
    while k < rows.len()
        invariant
            k <= rows@.len(),
            wanted == bar_room(config::item_views(items@), rows@),
            room@ == wanted.take(k as int),
            forall|k: int| 0 <= k < rows@.len() ==> (#[trigger] rows@[k]) < items@.len(),
        decreases rows@.len() - k,
    {
        let i: usize = rows[k];
        assert(config::item_views(items@)[i as int] == items@[i as int]@);
        room.push(item_width(&items[i]));
        assert(wanted.take(k as int + 1) =~= wanted.take(k as int).push(wanted[k as int]));
        k = k + 1;
    }
    assert(wanted.take(rows@.len() as int) =~= wanted);
    geometry::split(Direction::Horizontal, 0, &room, area)
}

/// The selected text goes to the clipboard, if there is a selection.
pub open spec fn copied(m: app::AppView) -> Seq<app::ActionView> {
    match (m.selection.start, m.selection.end) {
        (Some(start), Some(end)) => seq![app::ActionView::CopySelection { start, end }],
        _ => Seq::empty(),
    }
}

/// What opening or closing the settings does.
pub open spec fn settings_toggled(m: app::AppView) -> (app::AppView, Seq<app::ActionView>) {
    if m.settings.is_shown {
        (
            app::AppView { settings: app::SettingsView { is_shown: false, ..m.settings }, ..m },
            Seq::empty(),
        )
    } else {
        let opened = app::SettingsView {
            is_shown: true,
            editor_input: m.config.external_editor,
            ..m.settings
        };
        match (m.auth_token, m.config.auth.github_client_id) {
            (Some(token), _) => (
                app::AppView { settings: app::SettingsView { pat_input: token, ..opened }, ..m },
                Seq::empty(),
            ),
            (None, Some(client_id)) => (
                app::AppView {
                    settings: app::SettingsView {
                        login_error: Some("Fetching GitHub code..."@),
                        ..opened
                    },
                    ..m
                },
                seq![
                    app::ActionView::RequestDeviceCode { client_id, scope: m.config.auth.scope },
                ],
            ),
            (None, None) => (
                app::AppView {
                    settings: app::SettingsView {
                        login_error: Some("No github_client_id found in config."@),
                        ..opened
                    },
                    ..m
                },
                Seq::empty(),
            ),
        }
    }
}

/// What a click on an item with the given action and command does.
pub open spec fn pressed(m: app::AppView, action: ActionType, command: Option<Seq<char>>) -> (
    app::AppView,
    Seq<app::ActionView>,
) {
    match action {
        ActionType::ToggleMenu => (app::AppView { show_menu: !m.show_menu, ..m }, Seq::empty()),
        ActionType::CopySelection => (m, copied(m)),
        ActionType::SendCommand => (
            m,
            match command {
                Some(c) => seq![app::ActionView::SendCommand(c)],
                None => Seq::empty(),
            },
        ),
        ActionType::Quit => (app::AppView { should_quit: true, ..m }, Seq::empty()),
        ActionType::ShowSettingsModal => settings_toggled(m),
        ActionType::FetchGists => (
            m,
            seq![app::ActionView::Post(app::MessageView::FetchGists)],
        ),
    }
}

/// What a click on one of the first `n` shown items does.
pub open spec fn pressed_upto(
    m: app::AppView,
    items: Seq<config::ItemView>,
    rows: Seq<usize>,
    areas: Seq<Rect>,
    e: MouseEvent,
    n: nat,
) -> (app::AppView, Seq<app::ActionView>)
    decreases n,
{
    if n == 0 {
        (m, Seq::empty())
    } else {
        let before = pressed_upto(m, items, rows, areas, e, (n - 1) as nat);
        let item = items[rows[n - 1] as int];
        match item.action {
            Some(action) if areas[n - 1].holds(e.column, e.row) => {
                let after = pressed(before.0, action, item.command);
                (after.0, before.1 + after.1)
            },
            _ => before,
        }
    }
}

/// What a click on a status bar does. Which items are shown was settled in
/// state `at`.
pub open spec fn bar_pressed(
    at: app::AppView,
    m: app::AppView,
    items: Seq<config::ItemView>,
    areas: Seq<Rect>,
    e: MouseEvent,
) -> (app::AppView, Seq<app::ActionView>) {
    let rows = shown(at, items);
    pressed_upto(m, items, rows, areas, e, rows.len())
}

/// What a click on the status bars does.
pub open spec fn bars_pressed(
    m: app::AppView,
    upper: Seq<Rect>,
    lower: Seq<Rect>,
    e: MouseEvent,
) -> (app::AppView, Seq<app::ActionView>) {
    let first = bar_pressed(m, m, m.config.statusbar.upper, upper, e);
    let second = bar_pressed(m, first.0, m.config.statusbar.lower, lower, e);
    (second.0, first.1 + second.1)
}

impl App {
    /// Sends the selected text to the clipboard, if there is a selection.
    pub fn copy_action(&self) -> (r: Vec<Action>)
        ensures
            app::action_views(r@) == copied(self@),
    {
        match (self.selection.start, self.selection.end) {
            (Some(start), Some(end)) => app::one_action(Action::CopySelection { start, end }),
            _ => app::no_actions(),
        }
    }

    /// Opens or closes the settings.
    pub fn toggle_settings(&mut self) -> (r: Vec<Action>)
        ensures
            final(self)@ == settings_toggled(old(self)@).0,
            app::action_views(r@) == settings_toggled(old(self)@).1,
    {
        if self.settings.is_shown {
            self.settings.is_shown = false;
            return app::no_actions();
        }
        self.settings.is_shown = true;
        self.settings.editor_input = self.config.external_editor.clone();
        match text::copy_opt(&self.auth_token) {
            Some(token) => {
                self.settings.pat_input = token;
                app::no_actions()
            },
            None => match text::copy_opt(&self.config.auth.github_client_id) {
                Some(client_id) => {
                    self.settings.login_error = Some("Fetching GitHub code...".to_owned());
                    let scope = self.config.auth.scope.clone();
                    app::one_action(Action::RequestDeviceCode { client_id, scope })
                },
                None => {
                    self.settings.login_error = Some(
                        "No github_client_id found in config.".to_owned(),
                    );
                    app::no_actions()
                },
            },
        }
    }

    /// Does what a click on an item with the given action and command does.
    pub fn press(&mut self, action: ActionType, command: Option<String>) -> (r: Vec<Action>)
        ensures
            final(self)@ == pressed(old(self)@, action, text::opt_text(command)).0,
            app::action_views(r@) == pressed(old(self)@, action, text::opt_text(command)).1,
    {
        match action {
            ActionType::ToggleMenu => {
                self.show_menu = !self.show_menu;
                app::no_actions()
            },
            ActionType::CopySelection => self.copy_action(),
            ActionType::SendCommand => match command {
                Some(c) => app::one_action(Action::SendCommand(c)),
                None => app::no_actions(),
            },
            ActionType::Quit => {
                self.should_quit = true;
                app::no_actions()
            },
            ActionType::ShowSettingsModal => self.toggle_settings(),
            ActionType::FetchGists => app::one_action(Action::Post(Message::FetchGists)),
        }
    }
}

/// A click on an item leaves the configuration, the lists and what is shown of
/// the items as they were.
pub proof fn lemma_pressed_keeps(
    m: app::AppView,
    items: Seq<config::ItemView>,
    rows: Seq<usize>,
    areas: Seq<Rect>,
    e: MouseEvent,
    n: nat,
)
    ensures
        ({
            let after = pressed_upto(m, items, rows, areas, e, n).0;
            &&& after == (app::AppView {
                show_menu: after.show_menu,
                should_quit: after.should_quit,
                settings: after.settings,
                ..m
            })
            &&& app::flags(
                after.settings.is_pat_focused,
                after.settings.is_update_url_focused,
                after.settings.is_editor_focused,
            ) == app::flags(
                m.settings.is_pat_focused,
                m.settings.is_update_url_focused,
                m.settings.is_editor_focused,
            )
        }),
    decreases n,
{
    if n > 0 {
        lemma_pressed_keeps(m, items, rows, areas, e, (n - 1) as nat);
    }
}

/// Takes a click on the shown items of a status bar: the upper or the lower.
fn press_bar(
    a: &mut App,
    is_upper: bool,
    rows: &Vec<usize>,
    areas: &Vec<Rect>,
    e: MouseEvent,
) -> (r: Vec<Action>)
    requires
        areas@.len() == rows@.len(),
        forall|k: int|
            0 <= k < rows@.len() ==> (#[trigger] rows@[k]) < (if is_upper {
                old(a)@.config.statusbar.upper
            } else {
                old(a)@.config.statusbar.lower
            }).len(),
    ensures
        final(a)@ == pressed_upto(
            old(a)@,
            if is_upper {
                old(a)@.config.statusbar.upper
            } else {
                old(a)@.config.statusbar.lower
            },
            rows@,
            areas@,
            e,
            rows@.len(),
        ).0,
        app::action_views(r@) == pressed_upto(
            old(a)@,
            if is_upper {
                old(a)@.config.statusbar.upper
            } else {
                old(a)@.config.statusbar.lower
            },
            rows@,
            areas@,
            e,
            rows@.len(),
        ).1,
{
    let ghost m = a@;
    let ghost items = if is_upper {
        m.config.statusbar.upper
    } else {
        m.config.statusbar.lower
    };
    let mut out = app::no_actions();
    let mut k: usize = 0;
    while k < rows.len()
        invariant
            k <= rows@.len(),
            areas@.len() == rows@.len(),
            items == (if is_upper {
                m.config.statusbar.upper
            } else {
                m.config.statusbar.lower
            }),
            forall|k: int| 0 <= k < rows@.len() ==> (#[trigger] rows@[k]) < items.len(),
            a@ == pressed_upto(m, items, rows@, areas@, e, k as nat).0,
            app::action_views(out@) == pressed_upto(m, items, rows@, areas@, e, k as nat).1,
        decreases rows@.len() - k,
    {
        proof {
            lemma_pressed_keeps(m, items, rows@, areas@, e, k as nat);
        }
        let i: usize = rows[k];
        let item = if is_upper {
            &a.config.statusbar.upper[i]
        } else {
            &a.config.statusbar.lower[i]
        };
        assert(item@ == items[i as int]);
        let action = item.action;
        let command = text::copy_opt(&item.command);
        if let Some(act) = action {
            if areas[k].contains(e.column, e.row) {
                let more = a.press(act, command);
                app::append_actions(&mut out, more);
            }
        }
        k = k + 1;
    }
    out
}

/// Takes a click on the status bars.
pub fn press_bars(a: &mut App, upper: &Vec<Rect>, lower: &Vec<Rect>, e: MouseEvent) -> (r: Vec<
    Action,
>)
    requires
        upper@.len() == shown(old(a)@, old(a)@.config.statusbar.upper).len(),
        lower@.len() == shown(old(a)@, old(a)@.config.statusbar.lower).len(),
    ensures
        final(a)@ == bars_pressed(old(a)@, upper@, lower@, e).0,
        app::action_views(r@) == bars_pressed(old(a)@, upper@, lower@, e).1,
{
    let ghost m = a@;
    let upper_rows = a.shown_items(&a.config.statusbar.upper);
    let lower_rows = a.shown_items(&a.config.statusbar.lower);
    let mut out = press_bar(a, true, &upper_rows, upper, e);
    proof {
        lemma_pressed_keeps(
            m,
            m.config.statusbar.upper,
            upper_rows@,
            upper@,
            e,
            upper_rows@.len(),
        );
    }
    let more = press_bar(a, false, &lower_rows, lower, e);
    app::append_actions(&mut out, more);
    out
}

/// Clicking the menu's item twice leaves the menu as it was.
pub proof fn law_menu_toggles_back(m: app::AppView, command: Option<Seq<char>>)
    ensures
        pressed(pressed(m, ActionType::ToggleMenu, command).0, ActionType::ToggleMenu, command).0
            == m,
{
}

/// Closing the settings again leaves no dialog but keeps what was typed.
pub proof fn law_settings_close_again(m: app::AppView)
    requires
        !m.settings.is_shown,
    ensures
        settings_toggled(settings_toggled(m).0).0.settings == (app::SettingsView {
            is_shown: false,
            ..settings_toggled(m).0.settings
        }),
        settings_toggled(settings_toggled(m).0).1.len() == 0,
{
}

/// An item of a status bar is due to be shown.
pub open spec fn is_due(m: app::AppView, item: config::ItemView) -> bool {
    match item.condition {
        None => true,
        Some(config::ConditionType::HasGit) => m.git_info is Some,
        Some(config::ConditionType::HasSelection) => m.selection.start is Some && m.selection.end
            is Some && !m.selection.is_selecting,
    }
}

/// The items that a status bar shows are those that are due, in their order: one
/// with a condition only where the condition holds.
pub proof fn law_due_items_are_shown(m: app::AppView, items: Seq<config::ItemView>, n: nat)
    requires
        n <= items.len(),
        items.len() <= usize::MAX,
    ensures
        ({
            let rows = shown_upto(m, items, n);
            &&& forall|i: int, j: int| 0 <= i < j < rows.len() ==> #[trigger] rows[i]
                < #[trigger] rows[j]
            &&& forall|k: int| 0 <= k < rows.len() ==> (#[trigger] rows[k]) < n && is_due(
                m,
                items[rows[k] as int],
            )
            &&& forall|i: int|
                0 <= i < n && #[trigger] is_due(m, items[i]) ==> rows.contains(i as usize)
        }),
        n == items.len() ==> shown(m, items) == shown_upto(m, items, n),
    decreases n,
{
    if n > 0 {
        law_due_items_are_shown(m, items, (n - 1) as nat);
        let before = shown_upto(m, items, (n - 1) as nat);
        let rows = shown_upto(m, items, n);
        assert forall|i: int| 0 <= i < n && #[trigger] is_due(m, items[i]) implies rows.contains(
            i as usize,
        ) by {
            if i < n - 1 {
                assert(before.contains(i as usize));
                let k = choose|k: int| 0 <= k < before.len() && before[k] == i as usize;
                assert(rows[k] == i as usize);
            } else {
                assert(rows[before.len() as int] == i as usize);
            }
        }
    }
}

/// What the items of a status bar do when they are clicked: the menu opens and
/// closes, the selected text is copied, a command is sent as it stands, the
/// program ends, or the gists are fetched. Each does nothing else.
pub proof fn law_items_do_what_they_are_for(m: app::AppView, command: Option<Seq<char>>)
    ensures
        pressed(m, ActionType::ToggleMenu, command) == (
            app::AppView { show_menu: !m.show_menu, ..m },
            Seq::<app::ActionView>::empty(),
        ),
        pressed(m, ActionType::Quit, command) == (
            app::AppView { should_quit: true, ..m },
            Seq::<app::ActionView>::empty(),
        ),
        pressed(m, ActionType::FetchGists, command) == (
            m,
            seq![app::ActionView::Post(app::MessageView::FetchGists)],
        ),
        pressed(m, ActionType::CopySelection, command).0 == m,
        m.selection.start is None || m.selection.end is None ==> pressed(
            m,
            ActionType::CopySelection,
            command,
        ).1.len() == 0,
        m.selection.start is Some && m.selection.end is Some ==> pressed(
            m,
            ActionType::CopySelection,
            command,
        ).1 == seq![
            app::ActionView::CopySelection {
                start: m.selection.start->0,
                end: m.selection.end->0,
            },
        ],
        pressed(m, ActionType::SendCommand, command).0 == m,
        command is None ==> pressed(m, ActionType::SendCommand, command).1.len() == 0,
        command matches Some(c) ==> pressed(m, ActionType::SendCommand, command).1 == seq![
            app::ActionView::SendCommand(c),
        ],
{
}

/// The settings open with the editor in use. Who is logged in sees the token; who
/// is not asks GitHub for a code, or learns that there is no client to ask as.
/// Open settings close, and keep the rest.
pub proof fn law_settings_open_and_close(m: app::AppView, command: Option<Seq<char>>)
    ensures
        ({
            let (after, actions) = pressed(m, ActionType::ShowSettingsModal, command);
            let opened = app::SettingsView {
                is_shown: true,
                editor_input: m.config.external_editor,
                ..m.settings
            };
            &&& m.settings.is_shown ==> actions.len() == 0 && after == (app::AppView {
                settings: app::SettingsView { is_shown: false, ..m.settings },
                ..m
            })
            &&& !m.settings.is_shown ==> after == (app::AppView {
                settings: app::SettingsView {
                    pat_input: match m.auth_token {
                        Some(token) => token,
                        None => m.settings.pat_input,
                    },
                    login_error: if m.auth_token is Some {
                        m.settings.login_error
                    } else if m.config.auth.github_client_id is Some {
                        Some("Fetching GitHub code..."@)
                    } else {
                        Some("No github_client_id found in config."@)
                    },
                    ..opened
                },
                ..m
            })
            &&& !m.settings.is_shown && (m.auth_token is Some
                || m.config.auth.github_client_id is None) ==> actions.len() == 0
            &&& !m.settings.is_shown && m.auth_token is None ==> (
            m.config.auth.github_client_id matches Some(id) ==> actions == seq![
                app::ActionView::RequestDeviceCode {
                    client_id: id,
                    scope: m.config.auth.scope,
                },
            ])
        }),
{
}

/// A click that falls on the area of one shown item, and of no other, does what
/// that item is for; one that falls on none does nothing.
pub proof fn law_the_clicked_item_is_pressed(
    at: app::AppView,
    m: app::AppView,
    items: Seq<config::ItemView>,
    areas: Seq<Rect>,
    e: MouseEvent,
    k: int,
)
    requires
        areas.len() == shown(at, items).len(),
        forall|j: int|
            0 <= j < areas.len() && j != k ==> !(#[trigger] areas[j]).holds(e.column, e.row),
    ensures
        0 <= k < areas.len() && areas[k].holds(e.column, e.row) ==> ({
            let item = items[shown(at, items)[k] as int];
            bar_pressed(at, m, items, areas, e) == match item.action {
                Some(action) => pressed(m, action, item.command),
                None => (m, Seq::<app::ActionView>::empty()),
            }
        }),
        !(0 <= k < areas.len() && areas[k].holds(e.column, e.row)) ==> bar_pressed(
            at,
            m,
            items,
            areas,
            e,
        ) == (m, Seq::<app::ActionView>::empty()),
{
    lemma_pressed_one(m, items, shown(at, items), areas, e, k, areas.len());
}

proof fn lemma_pressed_one(
    m: app::AppView,
    items: Seq<config::ItemView>,
    rows: Seq<usize>,
    areas: Seq<Rect>,
    e: MouseEvent,
    k: int,
    n: nat,
)
    requires
        n <= areas.len(),
        areas.len() == rows.len(),
        forall|j: int|
            0 <= j < areas.len() && j != k ==> !(#[trigger] areas[j]).holds(e.column, e.row),
    ensures
        0 <= k < n && areas[k].holds(e.column, e.row) ==> ({
            let item = items[rows[k] as int];
            pressed_upto(m, items, rows, areas, e, n) == match item.action {
                Some(action) => pressed(m, action, item.command),
                None => (m, Seq::<app::ActionView>::empty()),
            }
        }),
        !(0 <= k < n && areas[k].holds(e.column, e.row)) ==> pressed_upto(
            m,
            items,
            rows,
            areas,
            e,
            n,
        ) == (m, Seq::<app::ActionView>::empty()),
    decreases n,
{
    if n > 0 {
        lemma_pressed_one(m, items, rows, areas, e, k, (n - 1) as nat);
        let item = items[rows[n - 1] as int];
        if k == n - 1 && areas[k].holds(e.column, e.row) {
            if let Some(action) = item.action {
                let after = pressed(m, action, item.command);
                assert(Seq::<app::ActionView>::empty() + after.1 =~= after.1);
            }
        }
    }
}

/// Both status bars take a click: what the upper one does comes first.
pub proof fn law_both_bars_take_the_click(
    m: app::AppView,
    upper: Seq<Rect>,
    lower: Seq<Rect>,
    e: MouseEvent,
    k: int,
    in_upper: bool,
)
    requires
        upper.len() == shown(m, m.config.statusbar.upper).len(),
        lower.len() == shown(m, m.config.statusbar.lower).len(),
        forall|j: int|
            0 <= j < upper.len() && !(in_upper && j == k) ==> !(#[trigger] upper[j]).holds(
                e.column,
                e.row,
            ),
        forall|j: int|
            0 <= j < lower.len() && !(!in_upper && j == k) ==> !(#[trigger] lower[j]).holds(
                e.column,
                e.row,
            ),
    ensures
        ({
            let items = if in_upper {
                m.config.statusbar.upper
            } else {
                m.config.statusbar.lower
            };
            let areas = if in_upper {
                upper
            } else {
                lower
            };
            let hit = 0 <= k < areas.len() && areas[k].holds(e.column, e.row);
            &&& hit ==> bars_pressed(m, upper, lower, e) == match items[shown(
                m,
                items,
            )[k] as int].action {
                Some(action) => pressed(m, action, items[shown(m, items)[k] as int].command),
                None => (m, Seq::<app::ActionView>::empty()),
            }
            &&& !hit ==> bars_pressed(m, upper, lower, e) == (m, Seq::<app::ActionView>::empty())
        }),
{
    let up: int = if in_upper {
        k
    } else {
        -1
    };
    let low: int = if in_upper {
        -1
    } else {
        k
    };
    law_the_clicked_item_is_pressed(m, m, m.config.statusbar.upper, upper, e, up);
    let first = bar_pressed(m, m, m.config.statusbar.upper, upper, e);
    law_the_clicked_item_is_pressed(m, first.0, m.config.statusbar.lower, lower, e, low);
    let second = bar_pressed(m, first.0, m.config.statusbar.lower, lower, e);
    assert(first.1 + Seq::<app::ActionView>::empty() =~= first.1);
    assert(Seq::<app::ActionView>::empty() + second.1 =~= second.1);
}

/// An item of a status bar takes the width that is set for it; without one, a
/// spacer, the git state and the selected command stretch, and any other takes as
/// many cells as its label has bytes, or stretches where it has no label.
pub proof fn law_item_room(item: config::ItemView)
    ensures
        item.width matches Some(w) ==> item_room(item) == Extent::Length(w),
        item.width is None && (item.type_ is Spacer || item.type_ is GitInfo || item.type_
            is SelectedCommandInfo) ==> item_room(item) == Extent::Fill(1),
        item.width is None && (item.type_ is Button || item.type_ is SystemStats || item.type_
            is TimeAndScroll) ==> match item.label {
            Some(label) => text::byte_len(label) <= 65535 ==> item_room(item) == Extent::Length(
                text::byte_len(label) as u16,
            ),
            None => item_room(item) == Extent::Min(0),
        },
{
}

} // verus!
