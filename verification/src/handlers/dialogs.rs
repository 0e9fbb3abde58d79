//! Clicks on dialogs, and the answers to what they ask.

use crate::app;
use crate::app::{Action, App, Message, MouseButton, MouseEvent, MouseKind, Settings};
use crate::text;
use crate::ui::geometry;
use crate::ui::geometry::{Extent, Direction, Rect};
use crate::ui::modals;
use vstd::prelude::*;
use vstd::string::*;

verus! {

/// The areas of a dialog that asks a question.
pub struct DialogAreas {
    pub area: Rect,
    pub rows: Vec<Rect>,
    pub buttons: Vec<Rect>,
}

/// What the areas of a dialog that asks a question are.
pub ghost struct DialogAreasView {
    pub area: Rect,
    pub rows: Seq<Rect>,
    pub buttons: Seq<Rect>,
}

impl View for DialogAreas {
    type V = DialogAreasView;

    open spec fn view(&self) -> DialogAreasView {
        DialogAreasView { area: self.area, rows: self.rows@, buttons: self.buttons@ }
    }
}

/// The rows of a dialog that asks a question: two for the text, a gap, the
/// buttons and the rest.
pub open spec fn dialog_rows() -> Seq<Extent> {
    seq![
        Extent::Length(1),
        Extent::Length(2),
        Extent::Length(1),
        Extent::Length(1),
        Extent::Min(0),
    ]
}

/// The areas of a dialog on a screen.
pub open spec fn is_dialog(size: Rect, d: DialogAreasView) -> bool {
    &&& modals::is_middle(
        size,
        modals::middle_length(size.height, 10),
        modals::middle_length(size.width, 50),
        d.area,
    )
    &&& geometry::strips(
        Direction::Vertical,
        0,
        dialog_rows(),
        d.area.inside_border(),
        d.rows,
    )
    &&& geometry::strips(
        Direction::Horizontal,
        0,
        seq![Extent::Percentage(50), Extent::Percentage(50)],
        d.rows[3],
        d.buttons,
    )
}

/// The screen has coordinates, and is high enough for a dialog that asks a
/// question.
pub open spec fn dialog_has_room(size: Rect) -> bool {
    &&& size.x + size.width <= 65535
    &&& size.y + size.height <= 65535
    &&& 7 <= size.height
}

/// The areas of a dialog on a screen that has room for it. The buttons share
/// its fifth row.
pub open spec fn dialog_at(size: Rect) -> DialogAreasView {
    let area = modals::middle_at(50, 10, size);
    let rows = geometry::settled_parts(
        Direction::Vertical,
        0,
        dialog_rows(),
        area.inside_border(),
    );
    DialogAreasView {
        area,
        rows,
        buttons: geometry::settled_parts(
            Direction::Horizontal,
            0,
            seq![Extent::Percentage(50), Extent::Percentage(50)],
            rows[3],
        ),
    }
}

proof fn lemma_halves(whole: int)
    ensures
        ({
            let c = seq![Extent::Percentage(50), Extent::Percentage(50)];
            &&& geometry::asks_percents(c)
            &&& geometry::reach(c, whole, 0) == 0
            &&& geometry::reach(c, whole, 1) == (whole + 1) / 2
            &&& geometry::reach(c, whole, 2) == whole
        }),
{
    let c = seq![Extent::Percentage(50), Extent::Percentage(50)];
    geometry::lemma_sums_ends(c);
    geometry::lemma_sums_step(c, 0);
    geometry::lemma_sums_step(c, 1);
    let none = geometry::percents(c.take(0));
    let half = geometry::percents(c.take(1));
    let all = geometry::percents(c.take(2));
    assert(none * whole == 0 && half * whole == 50 * whole && all * whole == 100 * whole)
        by (nonlinear_arith)
        requires
            none == 0,
            half == 50,
            all == 100,
    ;
    assert(geometry::nearest(none * whole, 100) == 0);
    assert((2 * (50 * whole) + 100) / 200 == (whole + 1) / 2);
    assert((2 * (100 * whole) + 100) / 200 == whole);
}

proof fn lemma_dialog_rows(whole: int)
    ensures
        ({
            let c = dialog_rows();
            &&& geometry::asks_lengths(c)
            &&& geometry::lengths(c) == 5
            &&& geometry::reach(c, whole, 3) == 4
            &&& geometry::reach(c, whole, 4) == 5
        }),
{
    let c = dialog_rows();
    geometry::lemma_sums_ends(c);
    geometry::lemma_sums_step(c, 0);
    geometry::lemma_sums_step(c, 1);
    geometry::lemma_sums_step(c, 2);
    geometry::lemma_sums_step(c, 3);
    geometry::lemma_sums_step(c, 4);
    geometry::lemma_reach_one_rest(c, whole, 3);
    geometry::lemma_reach_one_rest(c, whole, 4);
}

/// A screen that has room for a dialog gives it one place.
pub proof fn law_dialog_settled(size: Rect, d: DialogAreasView)
    requires
        is_dialog(size, d),
        dialog_has_room(size),
    ensures
        d == dialog_at(size),
{
    modals::law_middle_settled(50, 10, size, d.area);
    let inner = d.area.inside_border();
    lemma_dialog_rows(inner.height as int);
    assert(geometry::is_settled(dialog_rows(), geometry::cells_of(Direction::Vertical, inner)));
    lemma_halves(0);
}

/// The buttons of a dialog lie in the fifth row inside its border, the one for
/// yes on the left, the one for no on the right, and share the row between them.
pub proof fn law_dialog_buttons(size: Rect)
    requires
        dialog_has_room(size),
        3 <= size.width,
    ensures
        ({
            let d = dialog_at(size);
            let width = d.area.width - 2;
            &&& d.rows[3] == Rect {
                x: (d.area.x + 1) as u16,
                y: (d.area.y + 5) as u16,
                width: width as u16,
                height: 1,
            }
            &&& d.buttons[0] == Rect { width: ((width + 1) / 2) as u16, ..d.rows[3] }
            &&& d.buttons[1] == Rect {
                x: (d.area.x + 1 + (width + 1) / 2) as u16,
                width: (width / 2) as u16,
                ..d.rows[3]
            }
        }),
{
    let d = dialog_at(size);
    let inner = d.area.inside_border();
    lemma_dialog_rows(inner.height as int);
    lemma_halves(inner.width as int);
    assert(d.rows[3].x == inner.x && d.rows[3].width == inner.width);
}

/// The areas of a dialog that asks a question.
pub fn dialog_areas(size: Rect) -> (d: DialogAreas)
    ensures
        is_dialog(size, d@),
        dialog_has_room(size) ==> d@ == dialog_at(size),
        d.rows@.len() == 5,
        d.buttons@.len() == 2,
{
    let area = modals::centered_rect_fixed(50, 10, size);
    let down = vec![
        Extent::Length(1),
        Extent::Length(2),
        Extent::Length(1),
        Extent::Length(1),
        Extent::Min(0),
    ];
    assert(down@ =~= dialog_rows());
    let rows = geometry::split(Direction::Vertical, 0, &down, area.inner());
    let halves = vec![Extent::Percentage(50), Extent::Percentage(50)];
    assert(halves@ =~= seq![Extent::Percentage(50), Extent::Percentage(50)]);
    let buttons = geometry::split(Direction::Horizontal, 0, &halves, rows[3]);
    let d = DialogAreas { area, rows, buttons };
    proof {
        assert(is_dialog(size, d@));
        if dialog_has_room(size) {
            law_dialog_settled(size, d@);
        }
    }
    d
}

/// The areas of the settings.
pub struct SettingsAreas {
    pub area: Rect,
    pub rows: Vec<Rect>,
}

/// What the areas of the settings are.
pub ghost struct SettingsAreasView {
    pub area: Rect,
    pub rows: Seq<Rect>,
}

impl View for SettingsAreas {
    type V = SettingsAreasView;

    open spec fn view(&self) -> SettingsAreasView {
        SettingsAreasView { area: self.area, rows: self.rows@ }
    }
}

/// The rows of the settings: header, device code, heading and field of the
/// token, state, gap, heading and field of the address, warning and button of
/// the update, gap, heading and field of the editor, and the rest.
pub open spec fn settings_rows() -> Seq<Extent> {
    seq![
        Extent::Length(1),
        Extent::Length(2),
        Extent::Length(1),
        Extent::Length(3),
        Extent::Length(1),
        Extent::Length(1),
        Extent::Length(1),
        Extent::Length(3),
        Extent::Length(1),
        Extent::Length(1),
        Extent::Length(1),
        Extent::Length(1),
        Extent::Length(3),
        Extent::Min(0),
    ]
}

/// The areas of the settings on a screen.
pub open spec fn is_settings(size: Rect, s: SettingsAreasView) -> bool {
    &&& modals::is_middle(
        size,
        modals::middle_length(size.height, 26),
        modals::middle_length(size.width, 100),
        s.area,
    )
    &&& geometry::strips(
        Direction::Vertical,
        1,
        settings_rows(),
        s.area.inside_border(),
        s.rows,
    )
}

/// The screen has coordinates and is large enough for the settings.
pub open spec fn settings_has_room(size: Rect) -> bool {
    &&& size.x + size.width <= 65535
    &&& size.y + size.height <= 65535
    &&& 24 <= size.height
    &&& 4 <= size.width
}

/// The areas of the settings on a screen that has room for them.
pub open spec fn settings_at(size: Rect) -> SettingsAreasView {
    let area = modals::middle_at(100, 26, size);
    SettingsAreasView {
        area,
        rows: geometry::settled_parts(
            Direction::Vertical,
            1,
            settings_rows(),
            area.inside_border(),
        ),
    }
}

proof fn lemma_settings_rows(whole: int)
    ensures
        ({
            let c = settings_rows();
            &&& geometry::asks_lengths(c)
            &&& geometry::lengths(c) == 20
            &&& geometry::reach(c, whole, 3) == 4
            &&& geometry::reach(c, whole, 4) == 7
            &&& geometry::reach(c, whole, 7) == 10
            &&& geometry::reach(c, whole, 8) == 13
            &&& geometry::reach(c, whole, 9) == 14
            &&& geometry::reach(c, whole, 10) == 15
            &&& geometry::reach(c, whole, 12) == 17
            &&& geometry::reach(c, whole, 13) == 20
        }),
{
    let c = settings_rows();
    geometry::lemma_sums_ends(c);
    geometry::lemma_sums_step(c, 0);
    geometry::lemma_sums_step(c, 1);
    geometry::lemma_sums_step(c, 2);
    geometry::lemma_sums_step(c, 3);
    geometry::lemma_sums_step(c, 4);
    geometry::lemma_sums_step(c, 5);
    geometry::lemma_sums_step(c, 6);
    geometry::lemma_sums_step(c, 7);
    geometry::lemma_sums_step(c, 8);
    geometry::lemma_sums_step(c, 9);
    geometry::lemma_sums_step(c, 10);
    geometry::lemma_sums_step(c, 11);
    geometry::lemma_sums_step(c, 12);
    geometry::lemma_sums_step(c, 13);
    geometry::lemma_reach_one_rest(c, whole, 3);
    geometry::lemma_reach_one_rest(c, whole, 4);
    geometry::lemma_reach_one_rest(c, whole, 7);
    geometry::lemma_reach_one_rest(c, whole, 8);
    geometry::lemma_reach_one_rest(c, whole, 9);
    geometry::lemma_reach_one_rest(c, whole, 10);
    geometry::lemma_reach_one_rest(c, whole, 12);
    geometry::lemma_reach_one_rest(c, whole, 13);
}

/// A screen that has room for the settings gives them one place.
pub proof fn law_settings_settled(size: Rect, s: SettingsAreasView)
    requires
        is_settings(size, s),
        settings_has_room(size),
    ensures
        s == settings_at(size),
{
    modals::law_middle_settled(100, 26, size, s.area);
    let inner = s.area.inside_border().inside_margin(1);
    lemma_settings_rows(inner.height as int);
    assert(geometry::is_settled(settings_rows(), geometry::cells_of(Direction::Vertical, inner)));
}

/// The fields of the settings and the button of the update lie one below the
/// other: the token's field in the fifth row inside border and margin, the
/// address's in the eleventh, the button in the fifteenth and the editor's field
/// in the eighteenth. Each field is three rows high.
pub proof fn law_settings_fields(size: Rect)
    requires
        settings_has_room(size),
    ensures
        ({
            let s = settings_at(size);
            let row = |down: int, height: u16|
                Rect {
                    x: (s.area.x + 2) as u16,
                    y: (s.area.y + 2 + down) as u16,
                    width: (s.area.width - 4) as u16,
                    height,
                };
            &&& s.rows[3] == row(4, 3)
            &&& s.rows[7] == row(10, 3)
            &&& s.rows[9] == row(14, 1)
            &&& s.rows[12] == row(17, 3)
        }),
{
    let inner = settings_at(size).area.inside_border().inside_margin(1);
    lemma_settings_rows(inner.height as int);
}

/// The areas of the settings.
pub fn settings_areas(size: Rect) -> (s: SettingsAreas)
    ensures
        is_settings(size, s@),
        settings_has_room(size) ==> s@ == settings_at(size),
        s.rows@.len() == 14,
{
    let area = modals::centered_rect_fixed(100, 26, size);
    let down = vec![
        Extent::Length(1),
        Extent::Length(2),
        Extent::Length(1),
        Extent::Length(3),
        Extent::Length(1),
        Extent::Length(1),
        Extent::Length(1),
        Extent::Length(3),
        Extent::Length(1),
        Extent::Length(1),
        Extent::Length(1),
        Extent::Length(1),
        Extent::Length(3),
        Extent::Min(0),
    ];
    assert(down@ =~= settings_rows());
    let rows = geometry::split(Direction::Vertical, 1, &down, area.inner());
    let s = SettingsAreas { area, rows };
    proof {
        assert(is_settings(size, s@));
        if settings_has_room(size) {
            law_settings_settled(size, s@);
        }
    }
    s
}

/// The answer that a click on a dialog gives, if it gives one.
pub open spec fn clicked_answer(e: MouseEvent, d: DialogAreasView) -> Option<bool> {
    if e.kind == MouseKind::Down(MouseButton::Left) && d.area.holds(e.column, e.row)
        && d.rows[3].holds(e.column, e.row) {
        if d.buttons[0].holds(e.column, e.row) {
            Some(true)
        } else if d.buttons[1].holds(e.column, e.row) {
            Some(false)
        } else {
            None
        }
    } else {
        None
    }
}

/// The answer that a click on a dialog gives, if it gives one.
pub fn click_answer(e: MouseEvent, d: &DialogAreas) -> (r: Option<bool>)
    requires
        d.rows@.len() == 5,
        d.buttons@.len() == 2,
    ensures
        r == clicked_answer(e, d@),
{
    if e.kind == MouseKind::Down(MouseButton::Left) && d.area.contains(e.column, e.row)
        && d.rows[3].contains(e.column, e.row) {
        if d.buttons[0].contains(e.column, e.row) {
            Some(true)
        } else if d.buttons[1].contains(e.column, e.row) {
            Some(false)
        } else {
            None
        }
    } else {
        None
    }
}

/// The first gist from row `i` on that is kept in `path`.
pub open spec fn path_row(paths: Seq<Option<Seq<char>>>, path: Seq<char>, i: int) -> Option<int>
    decreases paths.len() - i,
{
    if i < 0 || i >= paths.len() {
        None
    } else if paths[i] == Some(path) {
        Some(i)
    } else {
        path_row(paths, path, i + 1)
    }
}

/// The name at GitHub of the gist that is kept in `path`.
pub open spec fn remote_name_of(m: app::AppView, path: Seq<char>) -> Option<Seq<char>> {
    match path_row(m.gists.paths, path, 0) {
        Some(i) => Some(m.gists.remote_names[i]),
        None => None,
    }
}

/// What follows from the answer to the question of deletion.
pub open spec fn delete_answered(m: app::AppView, yes: bool) -> (app::AppView, Seq<app::ActionView>) {
    (
        app::AppView {
            dialogs: app::DialogsView {
                show_delete_confirm: false,
                gist_index_to_delete: None,
                ..m.dialogs
            },
            ..m
        },
        match m.dialogs.gist_index_to_delete {
            Some(i) if yes => seq![app::ActionView::Post(app::MessageView::DeleteGist(i))],
            _ => Seq::empty(),
        },
    )
}

/// The upload of the file in `path`, if the user is logged in and the file is
/// that of a gist.
pub open spec fn upload_of(m: app::AppView, path: Seq<char>, automatic: bool) -> Seq<
    app::ActionView,
> {
    match (m.auth_token, remote_name_of(m, path)) {
        (Some(token), Some(remote_name)) => seq![
            app::ActionView::Upload { token, path, remote_name, automatic },
        ],
        _ => Seq::empty(),
    }
}

/// What follows from the answer to the question of upload.
pub open spec fn upload_answered(m: app::AppView, yes: bool) -> (app::AppView, Seq<app::ActionView>) {
    (
        app::AppView {
            dialogs: app::DialogsView {
                show_upload_confirm: false,
                pending_gist_file: None,
                ..m.dialogs
            },
            ..m
        },
        match m.dialogs.pending_gist_file {
            Some(path) if yes => upload_of(m, path, false),
            _ => Seq::empty(),
        },
    )
}

impl App {
    /// The name at GitHub of the gist that is kept in `path`.
    pub fn remote_name(&self, path: &str) -> (r: Option<String>)
        requires
            self@.wf(),
        ensures
            text::opt_text(r) == remote_name_of(self@, path@),
    {
        let mut i: usize = 0;
        while i < self.gists.paths.len()
            invariant
                self@.wf(),
                i <= self.gists.paths@.len(),
                path_row(self@.gists.paths, path@, 0) == path_row(self@.gists.paths, path@, i as int),
            decreases self.gists.paths@.len() - i,
        {
            assert(self@.gists.paths[i as int] == text::opt_text(self.gists.paths@[i as int]));
            if let Some(p) = &self.gists.paths[i] {
                if text::same_text(p.as_str(), path) {
                    assert(self@.gists.remote_names.len() == self@.gists.paths.len());
                    assert(self@.gists.remote_names[i as int] == self.gists.remote_names@[i as int]@);
                    return Some(self.gists.remote_names[i].clone());
                }
            }
            i = i + 1;
        }
        None
    }

    /// The upload of the file in `path`.
    pub fn upload_action(&self, path: &str, automatic: bool) -> (r: Vec<Action>)
        requires
            self@.wf(),
        ensures
            app::action_views(r@) == upload_of(self@, path@, automatic),
    {
        match &self.auth_token {
            Some(token) => match self.remote_name(path) {
                Some(remote_name) => app::one_action(
                    Action::Upload {
                        token: token.clone(),
                        path: path.to_owned(),
                        remote_name,
                        automatic,
                    },
                ),
                None => app::no_actions(),
            },
            None => app::no_actions(),
        }
    }

    /// Takes the answer to the question of deletion.
    pub fn answer_delete(&mut self, yes: bool) -> (r: Vec<Action>)
        ensures
            final(self)@ == delete_answered(old(self)@, yes).0,
        app::action_views(r@) == delete_answered(old(self)@, yes).1,
    {
        let row = self.dialogs.gist_index_to_delete;
        self.dialogs.show_delete_confirm = false;
        self.dialogs.gist_index_to_delete = None;
        match row {
            Some(i) => if yes {
                app::one_action(Action::Post(Message::DeleteGist(i)))
            } else {
                app::no_actions()
            },
            None => app::no_actions(),
        }
    }

    /// Takes the answer to the question of upload.
    pub fn answer_upload(&mut self, yes: bool) -> (r: Vec<Action>)
        requires
            old(self)@.wf(),
        ensures
            final(self)@ == upload_answered(old(self)@, yes).0,
        app::action_views(r@) == upload_answered(old(self)@, yes).1,
    {
        let actions = match &self.dialogs.pending_gist_file {
            Some(path) => if yes {
                self.upload_action(path.as_str(), false)
            } else {
                app::no_actions()
            },
            None => app::no_actions(),
        };
        self.dialogs.show_upload_confirm = false;
        self.dialogs.pending_gist_file = None;
        actions
    }
}

/// What of the settings a click falls on.
#[derive(Clone, Copy, PartialEq, Eq, Structural, Debug)]
pub enum SettingsSpot {
    Token,
    Address,
    Update,
    Editor,
    /// Nothing that takes clicks.
    Blank,
    /// Beside the settings.
    Outside,
}

/// What of the settings a cell belongs to.
pub open spec fn spot_at(column: u16, row: u16, s: SettingsAreasView) -> SettingsSpot {
    if !s.area.holds(column, row) {
        SettingsSpot::Outside
    } else if s.rows[3].holds(column, row) {
        SettingsSpot::Token
    } else if s.rows[7].holds(column, row) {
        SettingsSpot::Address
    } else if s.rows[9].holds(column, row) {
        SettingsSpot::Update
    } else if s.rows[12].holds(column, row) {
        SettingsSpot::Editor
    } else {
        SettingsSpot::Blank
    }
}

/// What of the settings a cell belongs to.
fn find_spot(column: u16, row: u16, s: &SettingsAreas) -> (r: SettingsSpot)
    requires
        s.rows@.len() == 14,
    ensures
        r == spot_at(column, row, s@),
{
    if !s.area.contains(column, row) {
        SettingsSpot::Outside
    } else if s.rows[3].contains(column, row) {
        SettingsSpot::Token
    } else if s.rows[7].contains(column, row) {
        SettingsSpot::Address
    } else if s.rows[9].contains(column, row) {
        SettingsSpot::Update
    } else if s.rows[12].contains(column, row) {
        SettingsSpot::Editor
    } else {
        SettingsSpot::Blank
    }
}

/// The settings after a click: a field that it falls on takes the keys from now
/// on, no other does, and a click beside the settings closes them. A click on
/// the button of the update leaves them as they are.
pub open spec fn spot_clicked(v: app::SettingsView, spot: SettingsSpot) -> app::SettingsView {
    if spot is Update {
        v
    } else {
        app::SettingsView {
            is_pat_focused: spot is Token,
            is_update_url_focused: spot is Address,
            is_editor_focused: spot is Editor,
            is_shown: v.is_shown && !(spot is Outside),
            ..v
        }
    }
}

impl Settings {
    /// Takes a click on a part of the settings.
    fn click_spot(&mut self, spot: SettingsSpot)
        ensures
            final(self)@ == spot_clicked(old(self)@, spot),
    {
        if spot == SettingsSpot::Update {
            return;
        }
        self.is_pat_focused = spot == SettingsSpot::Token;
        self.is_update_url_focused = spot == SettingsSpot::Address;
        self.is_editor_focused = spot == SettingsSpot::Editor;
        if spot == SettingsSpot::Outside {
            self.is_shown = false;
        }
    }
}

/// What a click does while the settings are shown. A click on the button asks
/// for the update, unless a reason stands against it.
pub open spec fn settings_clicked(m: app::AppView, e: MouseEvent, s: SettingsAreasView) -> (
    app::AppView,
    Seq<app::ActionView>,
) {
    let spot = spot_at(e.column, e.row, s);
    if e.kind != MouseKind::Down(MouseButton::Left) {
        (m, Seq::empty())
    } else {
        (
            app::AppView { settings: spot_clicked(m.settings, spot), ..m },
            if spot is Update && m.settings.update_disabled_reason is None {
                seq![app::ActionView::Post(app::MessageView::UpdateBinary)]
            } else {
                Seq::empty()
            },
        )
    }
}

/// Takes a click while the settings are shown.
pub fn click_settings(a: &mut App, e: MouseEvent, s: &SettingsAreas) -> (r: Vec<Action>)
    requires
        s.rows@.len() == 14,
    ensures
        final(a)@ == settings_clicked(old(a)@, e, s@).0,
        app::action_views(r@) == settings_clicked(old(a)@, e, s@).1,
{
    if e.kind != MouseKind::Down(MouseButton::Left) {
        return app::no_actions();
    }
    let spot = find_spot(e.column, e.row, s);
    let asked = spot == SettingsSpot::Update && a.settings.update_disabled_reason.is_none();
    a.settings.click_spot(spot);
    if asked {
        app::one_action(Action::Post(Message::UpdateBinary))
    } else {
        app::no_actions()
    }
}

/// The row that is found for a file is the first one from row `i` on that is kept
/// in it.
pub proof fn law_first_row_of_path(paths: Seq<Option<Seq<char>>>, path: Seq<char>, i: int)
    requires
        0 <= i <= paths.len(),
    ensures
        match path_row(paths, path, i) {
            Some(k) => i <= k < paths.len() && paths[k] == Some(path) && forall|j: int|
                i <= j < k ==> #[trigger] paths[j] != Some(path),
            None => forall|j: int| i <= j < paths.len() ==> #[trigger] paths[j] != Some(path),
        },
    decreases paths.len() - i,
{
    if i < paths.len() && paths[i] != Some(path) {
        law_first_row_of_path(paths, path, i + 1);
    }
}

/// A file is uploaded where the user is logged in and some gist is kept in it: with
/// the user's token, under the name of the first such gist.
pub proof fn law_upload_goes_to_the_gist_of_the_file(
    m: app::AppView,
    path: Seq<char>,
    automatic: bool,
)
    requires
        m.wf(),
    ensures
        ({
            let asked = upload_of(m, path, automatic);
            let kept = exists|j: int|
                0 <= j < m.gists.paths.len() && #[trigger] m.gists.paths[j] == Some(path);
            &&& m.auth_token is None || !kept ==> asked.len() == 0
            &&& m.auth_token matches Some(t) ==> (kept ==> asked.len() == 1 && exists|j: int|
                {
                    &&& 0 <= j < m.gists.paths.len()
                    &&& #[trigger] m.gists.paths[j] == Some(path)
                    &&& forall|i: int| 0 <= i < j ==> #[trigger] m.gists.paths[i] != Some(path)
                    &&& asked[0] == app::ActionView::Upload {
                        token: t,
                        path,
                        remote_name: m.gists.remote_names[j],
                        automatic,
                    }
                })
        }),
{
    law_first_row_of_path(m.gists.paths, path, 0);
    if let Some(j) = path_row(m.gists.paths, path, 0) {
        assert(m.gists.paths[j] == Some(path));
    }
}

/// A question lies in the middle of the screen, fifty cells wide and ten high where
/// the screen is that large; the settings are a hundred wide and twenty-six high.
/// Both have room on any screen of twenty-four rows and four columns or more.
pub proof fn law_dialogs_lie_in_the_middle(size: Rect)
    requires
        size.x + size.width <= 65535,
        size.y + size.height <= 65535,
    ensures
        7 <= size.height ==> dialog_has_room(size),
        24 <= size.height && 4 <= size.width ==> settings_has_room(size),
        50 <= size.width && 10 <= size.height ==> dialog_at(size).area == (Rect {
            x: (size.x + (size.width - 50) / 2) as u16,
            y: (size.y + (size.height - 10) / 2) as u16,
            width: 50,
            height: 10,
        }),
        100 <= size.width && 26 <= size.height ==> settings_at(size).area == (Rect {
            x: (size.x + (size.width - 100) / 2) as u16,
            y: (size.y + (size.height - 26) / 2) as u16,
            width: 100,
            height: 26,
        }),
{
}

} // verus!
