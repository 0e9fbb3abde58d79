//! The dialogs: where they lie and what they show.

use crate::app;
use crate::app::App;
use crate::color::Color;
use crate::text;
use crate::ui::geometry;
use crate::ui::geometry::{Extent, Direction, Rect};
use crate::ui::style;
use crate::ui::style::{Span, Style};
use crate::ui::terminal;
use vstd::prelude::*;
use vstd::string::*;

verus! {

/// `r` is the middle of the middle row of `area`, split as asked.
pub open spec fn is_middle(
    area: Rect,
    down: Seq<Extent>,
    across: Seq<Extent>,
    r: Rect,
) -> bool {
    exists|rows: Seq<Rect>, columns: Seq<Rect>|
        {
            &&& #[trigger] geometry::strips(Direction::Vertical, 0, down, area, rows)
            &&& #[trigger] geometry::strips(Direction::Horizontal, 0, across, rows[1], columns)
            &&& r == columns[1]
        }
}

/// A part in the middle that takes so many percent.
pub open spec fn middle_percent(percent: u16) -> Seq<Extent> {
    seq![
        Extent::Percentage(((100 - percent) / 2) as u16),
        Extent::Percentage(percent),
        Extent::Percentage(((100 - percent) / 2) as u16),
    ]
}

/// A part in the middle of the given size.
pub open spec fn middle_length(whole: u16, length: u16) -> Seq<Extent> {
    seq![
        Extent::Length((geometry::floored(whole - length) / 2) as u16),
        Extent::Length(length),
        Extent::Min(0),
    ]
}

/// The middle of an area as so many percent of it: on each side stays half of
/// what is missing to a hundred, and each edge is its nearest cell.
pub open spec fn middle_part(percent_x: u16, percent_y: u16, r: Rect) -> Rect {
    let across = geometry::cells_of(Direction::Horizontal, r);
    let down = geometry::cells_of(Direction::Vertical, r);
    let left = (100 - percent_x) / 2;
    let above = (100 - percent_y) / 2;
    let x = geometry::nearest(left * across, 100);
    let y = geometry::nearest(above * down, 100);
    Rect {
        x: (r.x + x) as u16,
        y: (r.y + y) as u16,
        width: (geometry::nearest((left + percent_x) * across, 100) - x) as u16,
        height: (geometry::nearest((above + percent_y) * down, 100) - y) as u16,
    }
}

/// The area of the given size in the middle of another, as much of it as there
/// is room for.
pub open spec fn middle_at(width: u16, height: u16, r: Rect) -> Rect {
    let w = if width < r.width {
        width
    } else {
        r.width
    };
    let h = if height < r.height {
        height
    } else {
        r.height
    };
    Rect {
        x: (r.x + (r.width - w) / 2) as u16,
        y: (r.y + (r.height - h) / 2) as u16,
        width: w,
        height: h,
    }
}

/// The middle of an area, as so many percent of it.
pub fn centered_rect(percent_x: u16, percent_y: u16, r: Rect) -> (middle: Rect)
    requires
        percent_x <= 100,
        percent_y <= 100,
    ensures
        middle == middle_part(percent_x, percent_y, r),
{
    proof {
        lemma_middle_percent(percent_y, geometry::cells_of(Direction::Vertical, r));
        lemma_middle_percent(percent_x, geometry::cells_of(Direction::Horizontal, r));
    }
    let beside_y: u16 = (100 - percent_y) / 2;
    let down = vec![
        Extent::Percentage(beside_y),
        Extent::Percentage(percent_y),
        Extent::Percentage(beside_y),
    ];
    assert(down@ =~= middle_percent(percent_y));
    let rows = geometry::split(Direction::Vertical, 0, &down, r);
    let beside_x: u16 = (100 - percent_x) / 2;
    let across = vec![
        Extent::Percentage(beside_x),
        Extent::Percentage(percent_x),
        Extent::Percentage(beside_x),
    ];
    assert(across@ =~= middle_percent(percent_x));
    let columns = geometry::split(Direction::Horizontal, 0, &across, rows[1]);
    assert(rows@[1].x == r.x && rows@[1].width == r.width);
    columns[1]
}

proof fn lemma_middle_percent(percent: u16, whole: int)
    requires
        percent <= 100,
    ensures
        ({
            let c = middle_percent(percent);
            let beside = (100 - percent) / 2;
            &&& geometry::asks_percents(c)
            &&& geometry::reach(c, whole, 1) == geometry::nearest(beside * whole, 100)
            &&& geometry::reach(c, whole, 2) == geometry::nearest((beside + percent) * whole, 100)
        }),
{
    let c = middle_percent(percent);
    geometry::lemma_sums_ends(c);
    geometry::lemma_sums_step(c, 0);
    geometry::lemma_sums_step(c, 1);
    geometry::lemma_sums_step(c, 2);
}

/// A part of so many percent lies inside the area.
pub proof fn law_middle_part_inside(percent_x: u16, percent_y: u16, r: Rect)
    requires
        percent_x <= 100,
        percent_y <= 100,
    ensures
        ({
            let middle = middle_part(percent_x, percent_y, r);
            &&& r.x <= middle.x
            &&& r.y <= middle.y
            &&& middle.x + middle.width <= r.right_edge()
            &&& middle.y + middle.height <= r.bottom_edge()
        }),
{
    lemma_edges_inside((100 - percent_x) / 2, percent_x as int, geometry::cells_of(Direction::Horizontal, r));
    lemma_edges_inside((100 - percent_y) / 2, percent_y as int, geometry::cells_of(Direction::Vertical, r));
}

proof fn lemma_edges_inside(beside: int, percent: int, whole: int)
    requires
        0 <= beside,
        0 <= percent,
        beside + percent <= 100,
        0 <= whole,
    ensures
        0 <= geometry::nearest(beside * whole, 100) <= geometry::nearest(
            (beside + percent) * whole,
            100,
        ) <= whole,
{
    assert(0 <= beside * whole <= (beside + percent) * whole <= 100 * whole) by (nonlinear_arith)
        requires
            0 <= beside,
            0 <= percent,
            beside + percent <= 100,
            0 <= whole,
    ;
}

/// The middle of an area, of the given size.
pub fn centered_rect_fixed(width: u16, height: u16, r: Rect) -> (middle: Rect)
    ensures
        is_middle(r, middle_length(r.height, height), middle_length(r.width, width), middle),
        r.x + r.width <= 65535 && r.y + r.height <= 65535 ==> middle == middle_at(width, height, r),
{
    let down = vec![
        Extent::Length(r.height.saturating_sub(height) / 2),
        Extent::Length(height),
        Extent::Min(0),
    ];
    assert(down@ =~= middle_length(r.height, height));
    let rows = geometry::split(Direction::Vertical, 0, &down, r);
    let across = vec![
        Extent::Length(r.width.saturating_sub(width) / 2),
        Extent::Length(width),
        Extent::Min(0),
    ];
    assert(across@ =~= middle_length(r.width, width));
    let columns = geometry::split(Direction::Horizontal, 0, &across, rows[1]);
    let middle = columns[1];
    proof {
        if r.x + r.width <= 65535 && r.y + r.height <= 65535 {
            law_middle_settled(width, height, r, middle);
        }
    }
    middle
}

/// In an area that has coordinates, a dialog of a given size has one place.
pub proof fn law_middle_settled(width: u16, height: u16, r: Rect, middle: Rect)
    requires
        is_middle(r, middle_length(r.height, height), middle_length(r.width, width), middle),
        r.x + r.width <= 65535,
        r.y + r.height <= 65535,
    ensures
        middle == middle_at(width, height, r),
{
    let down = middle_length(r.height, height);
    let across = middle_length(r.width, width);
    let (rows, columns) = choose|rows: Seq<Rect>, columns: Seq<Rect>|
        {
            &&& #[trigger] geometry::strips(Direction::Vertical, 0, down, r, rows)
            &&& #[trigger] geometry::strips(Direction::Horizontal, 0, across, rows[1], columns)
            &&& middle == columns[1]
        };
    lemma_middle_strip(Direction::Vertical, r, height, rows);
    assert(rows[1].x == r.x && rows[1].width == r.width);
    lemma_middle_strip(Direction::Horizontal, rows[1], width, columns);
}

proof fn lemma_middle_strip(direction: Direction, area: Rect, length: u16, parts: Seq<Rect>)
    requires
        area.x + area.width <= 65535,
        area.y + area.height <= 65535,
        geometry::strips(
            direction,
            0,
            middle_length(geometry::size_of(direction, area) as u16, length),
            area,
            parts,
        ),
    ensures
        ({
            let whole = geometry::size_of(direction, area);
            let l = if length < whole {
                length as int
            } else {
                whole
            };
            &&& parts.len() == 3
            &&& geometry::start_of(direction, parts[1]) == geometry::start_of(direction, area) + (
            whole - l) / 2
            &&& geometry::size_of(direction, parts[1]) == l
        }),
{
    let whole = geometry::size_of(direction, area);
    let c = middle_length(whole as u16, length);
    geometry::lemma_sums_ends(c);
    geometry::lemma_sums_step(c, 0);
    geometry::lemma_sums_step(c, 1);
    geometry::lemma_sums_step(c, 2);
    geometry::lemma_reach_one_rest(c, whole, 1);
    geometry::lemma_reach_one_rest(c, whole, 2);
    assert(geometry::asks_lengths(c));
    if length > whole {
        assert(c[0] == Extent::Length(0));
        assert(c[2] == Extent::Min(0));
        assert(geometry::squeezed(direction, c, area, parts));
        assert(parts.last() == parts[2]);
    }
}

/// A dialog of a given size lies inside the area.
pub proof fn law_middle_inside(width: u16, height: u16, r: Rect)
    requires
        r.x + r.width <= 65535,
        r.y + r.height <= 65535,
    ensures
        ({
            let middle = middle_at(width, height, r);
            &&& r.x <= middle.x
            &&& r.y <= middle.y
            &&& middle.x + middle.width <= r.x + r.width
            &&& middle.y + middle.height <= r.y + r.height
        }),
{
}

/// The rows of the settings as they are shown: header, device code, heading and
/// field of the token, heading and field of the editor, and the state.
pub open spec fn shown_settings_rows() -> Seq<Extent> {
    seq![
        Extent::Length(1),
        Extent::Length(2),
        Extent::Length(1),
        Extent::Length(3),
        Extent::Length(1),
        Extent::Length(3),
        Extent::Min(0),
    ]
}

/// The area of the settings as they are shown, and its rows.
pub fn shown_settings_areas(size: Rect) -> (r: (Rect, Vec<Rect>))
    ensures
        is_middle(size, middle_length(size.height, 20), middle_length(size.width, 50), r.0),
        size.x + size.width <= 65535 && size.y + size.height <= 65535 ==> r.0 == middle_at(
            50,
            20,
            size,
        ),
        geometry::strips(
            Direction::Vertical,
            1,
            shown_settings_rows(),
            r.0.inside_border(),
            r.1@,
        ),
{
    let area = centered_rect_fixed(50, 20, size);
    let down = vec![
        Extent::Length(1),
        Extent::Length(2),
        Extent::Length(1),
        Extent::Length(3),
        Extent::Length(1),
        Extent::Length(3),
        Extent::Min(0),
    ];
    assert(down@ =~= shown_settings_rows());
    let rows = geometry::split(Direction::Vertical, 1, &down, area.inner());
    (area, rows)
}

/// The rows of the dialog that asks for a name: the question, the field, a hint
/// and the rest.
pub open spec fn name_dialog_rows() -> Seq<Extent> {
    seq![
        Extent::Length(2),
        Extent::Length(3),
        Extent::Length(1),
        Extent::Min(0),
    ]
}

/// The area of the dialog that asks for a name, and its rows.
pub fn name_dialog_areas(size: Rect) -> (r: (Rect, Vec<Rect>))
    ensures
        is_middle(size, middle_length(size.height, 10), middle_length(size.width, 50), r.0),
        size.x + size.width <= 65535 && size.y + size.height <= 65535 ==> r.0 == middle_at(
            50,
            10,
            size,
        ),
        geometry::strips(
            Direction::Vertical,
            0,
            name_dialog_rows(),
            r.0.inside_border(),
            r.1@,
        ),
{
    let area = centered_rect_fixed(50, 10, size);
    let down = vec![
        Extent::Length(2),
        Extent::Length(3),
        Extent::Length(1),
        Extent::Min(0),
    ];
    assert(down@ =~= name_dialog_rows());
    let rows = geometry::split(Direction::Vertical, 0, &down, area.inner());
    (area, rows)
}

/// What the settings say of logging in with a device code.
pub open spec fn device_flow(m: app::AppView) -> style::SpanView {
    match (m.settings.github_verification_uri, m.settings.github_user_code) {
        (Some(uri), Some(code)) => style::span(
            "1. Open "@ + uri + "   2. Enter: "@ + code,
            Style { bold: true, ..style::colors(Some(Color::Cyan), None) },
        ),
        _ => style::span(
            "Enter the code on GitHub to authenticate..."@,
            style::colors(Some(Color::DarkGray), None),
        ),
    }
}

/// What the settings say of the login: an error first, then a success.
pub open spec fn login_state(m: app::AppView) -> style::SpanView {
    match (m.settings.login_error, m.auth_token) {
        (Some(error), _) => style::span(error, style::colors(Some(Color::Red), None)),
        (None, Some(_)) => style::span(
            "✓ Authenticated"@,
            style::colors(Some(Color::Green), None),
        ),
        (None, None) => style::span(
            "Waiting for input..."@,
            style::colors(Some(Color::DarkGray), None),
        ),
    }
}

/// How a field of the settings is set.
pub open spec fn field_style(is_focused: bool) -> Style {
    if is_focused {
        style::set_in(Color::Yellow, Color::Rgb(20, 20, 20), false)
    } else {
        style::set_in(Color::Gray, Color::Black, false)
    }
}

/// A dialog that can be shown over the dashboard.
#[derive(Clone, Copy, PartialEq, Eq, Structural, Debug)]
pub enum Dialog {
    Menu,
    Settings,
    Upload,
    NewGist,
    Delete,
}

/// The dialog alone, where it is shown.
pub open spec fn shown_if(is_shown: bool, d: Dialog) -> Seq<Dialog> {
    if is_shown {
        seq![d]
    } else {
        Seq::empty()
    }
}

/// The dialogs that are shown, each over the ones before it.
pub open spec fn dialogs_shown(m: app::AppView) -> Seq<Dialog> {
    shown_if(m.show_menu, Dialog::Menu) + shown_if(m.settings.is_shown, Dialog::Settings)
        + shown_if(m.dialogs.show_upload_confirm, Dialog::Upload) + shown_if(
        m.dialogs.show_new_gist_dialog,
        Dialog::NewGist,
    ) + shown_if(m.dialogs.show_delete_confirm, Dialog::Delete)
}

/// A question that a dialog asks.
#[derive(Clone, Copy, PartialEq, Eq, Structural, Debug)]
pub enum Question {
    Upload,
    Delete,
}

/// How the buttons of a dialog look: the text and the style of an answer.
pub open spec fn answer_look(q: Question, yes: bool, is_hovered: bool) -> style::SpanView {
    match (q, yes) {
        (Question::Upload, true) => style::span(
            " [Y] Yes, Upload "@,
            if is_hovered {
                style::set_in(Color::Black, Color::Green, true)
            } else {
                style::set_in(Color::Green, Color::Rgb(20, 40, 20), false)
            },
        ),
        (Question::Upload, false) => style::span(
            " [N] No, Keep Local "@,
            if is_hovered {
                style::set_in(Color::Black, Color::Red, true)
            } else {
                style::set_in(Color::Red, Color::Rgb(40, 20, 20), false)
            },
        ),
        (Question::Delete, true) => style::span(
            " [Y] Yes, Delete "@,
            if is_hovered {
                style::set_in(Color::Black, Color::Red, true)
            } else {
                style::set_in(Color::Red, Color::Rgb(40, 20, 20), false)
            },
        ),
        (Question::Delete, false) => style::span(
            " [N] No, Cancel "@,
            if is_hovered {
                style::set_in(Color::Black, Color::Gray, true)
            } else {
                style::set_in(Color::Gray, Color::Rgb(30, 30, 30), false)
            },
        ),
    }
}

/// What the question of deletion says of the gist.
pub open spec fn deletion_text(m: app::AppView) -> Seq<char> {
    "'"@ + (match m.dialogs.gist_index_to_delete {
        Some(i) if i < m.gists.items.len() => m.gists.items[i as int],
        _ => "Unknown Script"@,
    }) + "'\nIt will be removed locally and from GitHub."@
}

/// What the question of upload says of the file.
pub fn upload_text(filename: &str) -> (r: String)
    ensures
        r@ == "File '"@ + filename@ + "' was modified locally."@,
{
    text::concat3("File '", filename, "' was modified locally.")
}

/// A field of the settings: its text and the colour of its border.
pub fn draw_field(input: &str, is_focused: bool, now: u64) -> (r: (Span, Color))
    ensures
        r.0@ == style::span(
            style::field_text(input@, is_focused, now),
            field_style(is_focused),
        ),
        r.1 == (if is_focused {
            Color::Yellow
        } else {
            Color::DarkGray
        }),
{
    let shown = style::show_field(input, is_focused, now);
    if is_focused {
        (
            Span { text: shown, style: Style::on(Color::Yellow, Color::Rgb(20, 20, 20), false) },
            Color::Yellow,
        )
    } else {
        (
            Span { text: shown, style: Style::on(Color::Gray, Color::Black, false) },
            Color::DarkGray,
        )
    }
}

/// Adds a dialog at the end, where it is shown.
fn push_shown(out: &mut Vec<Dialog>, is_shown: bool, d: Dialog)
    ensures
        final(out)@ == old(out)@ + shown_if(is_shown, d),
{
    if is_shown {
        out.push(d);
    }
    assert(out@ =~= old(out)@ + shown_if(is_shown, d));
}

impl App {
    /// The dialogs that are shown, each over the ones before it.
    pub fn shown_dialogs(&self) -> (r: Vec<Dialog>)
        ensures
            r@ == dialogs_shown(self@),
    {
        let mut out: Vec<Dialog> = Vec::new();
        push_shown(&mut out, self.show_menu, Dialog::Menu);
        push_shown(&mut out, self.settings.is_shown, Dialog::Settings);
        push_shown(&mut out, self.dialogs.show_upload_confirm, Dialog::Upload);
        push_shown(&mut out, self.dialogs.show_new_gist_dialog, Dialog::NewGist);
        push_shown(&mut out, self.dialogs.show_delete_confirm, Dialog::Delete);
        assert(out@ =~= dialogs_shown(self@));
        out
    }

    /// What the settings say of logging in with a device code.
    pub fn draw_device_flow(&self) -> (r: Span)
        ensures
            r@ == device_flow(self@),
    {
        match (&self.settings.github_verification_uri, &self.settings.github_user_code) {
            (Some(uri), Some(code)) => {
                let mut t = text::concat3("1. Open ", uri.as_str(), "   2. Enter: ");
                t.append(code.as_str());
                Span {
                    text: t,
                    style: Style {
                        fg: Some(Color::Cyan),
                        bg: None,
                        bold: true,
                        italic: false,
                        reversed: false,
                        underlined: false,
                    },
                }
            },
            _ => Span {
                text: "Enter the code on GitHub to authenticate...".to_owned(),
                style: Style::of(Some(Color::DarkGray), None),
            },
        }
    }

    /// What the settings say of the login.
    pub fn draw_login_state(&self) -> (r: Span)
        ensures
            r@ == login_state(self@),
    {
        match &self.settings.login_error {
            Some(error) => Span {
                text: error.clone(),
                style: Style::of(Some(Color::Red), None),
            },
            None => if self.auth_token.is_some() {
                Span {
                    text: "✓ Authenticated".to_owned(),
                    style: Style::of(Some(Color::Green), None),
                }
            } else {
                Span {
                    text: "Waiting for input...".to_owned(),
                    style: Style::of(Some(Color::DarkGray), None),
                }
            },
        }
    }

    /// An answer to a question, on an area.
    pub fn draw_answer(&self, q: Question, yes: bool, area: Rect) -> (r: Span)
        ensures
            r@ == answer_look(q, yes, terminal::hovers(self@.mouse_pos, area)),
    {
        let is_hovered = terminal::is_hovered(self.mouse_pos, area);
        let (label, color, dark) = match (q, yes) {
            (Question::Upload, true) => (
                " [Y] Yes, Upload ",
                Color::Green,
                Color::Rgb(20, 40, 20),
            ),
            (Question::Upload, false) => (
                " [N] No, Keep Local ",
                Color::Red,
                Color::Rgb(40, 20, 20),
            ),
            (Question::Delete, true) => (
                " [Y] Yes, Delete ",
                Color::Red,
                Color::Rgb(40, 20, 20),
            ),
            (Question::Delete, false) => (
                " [N] No, Cancel ",
                Color::Gray,
                Color::Rgb(30, 30, 30),
            ),
        };
        let set = if is_hovered {
            Style::on(Color::Black, color, true)
        } else {
            Style::on(color, dark, false)
        };
        Span { text: label.to_owned(), style: set }
    }

    /// What the question of deletion says of the gist.
    pub fn draw_deletion(&self) -> (r: String)
        ensures
            r@ == deletion_text(self@),
    {
        let name = match self.dialogs.gist_index_to_delete {
            Some(i) => {
                assert(self@.gists.items.len() == self.gists.items@.len());
                if i < self.gists.items.len() {
                    assert(self@.gists.items[i as int] == self.gists.items@[i as int]@);
                    self.gists.items[i].clone()
                } else {
                    "Unknown Script".to_owned()
                }
            },
            None => "Unknown Script".to_owned(),
        };
        text::concat3("'", name.as_str(), "'\nIt will be removed locally and from GitHub.")
    }
}

/// A dialog is shown if and only if its flag is set, and each over those before it:
/// the menu, the settings, the question of upload, that for a name and that of
/// deletion.
pub proof fn law_dialogs_are_shown_by_their_flags(m: app::AppView)
    ensures
        dialogs_shown(m).contains(Dialog::Menu) == m.show_menu,
        dialogs_shown(m).contains(Dialog::Settings) == m.settings.is_shown,
        dialogs_shown(m).contains(Dialog::Upload) == m.dialogs.show_upload_confirm,
        dialogs_shown(m).contains(Dialog::NewGist) == m.dialogs.show_new_gist_dialog,
        dialogs_shown(m).contains(Dialog::Delete) == m.dialogs.show_delete_confirm,
        m.dialogs.show_delete_confirm ==> dialogs_shown(m).last() == Dialog::Delete,
        m.show_menu ==> dialogs_shown(m)[0] == Dialog::Menu,
{
    let s1 = shown_if(m.show_menu, Dialog::Menu);
    let s2 = shown_if(m.settings.is_shown, Dialog::Settings);
    let s3 = shown_if(m.dialogs.show_upload_confirm, Dialog::Upload);
    let s4 = shown_if(m.dialogs.show_new_gist_dialog, Dialog::NewGist);
    let s5 = shown_if(m.dialogs.show_delete_confirm, Dialog::Delete);
    let all = dialogs_shown(m);
    let (n1, n2, n3, n4) = (
        s1.len() as int,
        s1.len() + s2.len(),
        s1.len() + s2.len() + s3.len(),
        s1.len() + s2.len() + s3.len() + s4.len(),
    );
    if m.show_menu {
        assert(all[0] == Dialog::Menu);
    }
    if m.settings.is_shown {
        assert(all[n1] == Dialog::Settings);
    }
    if m.dialogs.show_upload_confirm {
        assert(all[n2 as int] == Dialog::Upload);
    }
    if m.dialogs.show_new_gist_dialog {
        assert(all[n3 as int] == Dialog::NewGist);
    }
    if m.dialogs.show_delete_confirm {
        assert(all[n4 as int] == Dialog::Delete);
    }
}

/// The answers of a question say what they do: yes to the upload or the deletion,
/// or no.
pub proof fn law_answers_say_what_they_do(is_hovered: bool)
    ensures
        answer_look(Question::Upload, true, is_hovered).text == " [Y] Yes, Upload "@,
        answer_look(Question::Upload, false, is_hovered).text == " [N] No, Keep Local "@,
        answer_look(Question::Delete, true, is_hovered).text == " [Y] Yes, Delete "@,
        answer_look(Question::Delete, false, is_hovered).text == " [N] No, Cancel "@,
        forall|q: Question, yes: bool|
            #![trigger answer_look(q, yes, true)]
            answer_look(q, yes, true).style.bold && !answer_look(q, yes, false).style.bold,
{
}

/// The question of deletion names the gist that it is about.
pub proof fn law_deletion_is_named(m: app::AppView, row: usize)
    requires
        m.dialogs.gist_index_to_delete == Some(row),
        row < m.gists.items.len(),
    ensures
        deletion_text(m) == "'"@ + m.gists.items[row as int]
            + "'\nIt will be removed locally and from GitHub."@,
{
}

/// The settings tell the address and the code of a login under way, and how it
/// stands: an error before all else, then that the user is logged in.
pub proof fn law_settings_tell_the_login(m: app::AppView, uri: Seq<char>, code: Seq<char>)
    ensures
        m.settings.github_verification_uri == Some(uri) && m.settings.github_user_code == Some(code)
            ==> device_flow(m).text == "1. Open "@ + uri + "   2. Enter: "@ + code,
        m.settings.login_error matches Some(e) ==> login_state(m).text == e,
        m.settings.login_error is None && m.auth_token is Some ==> login_state(m).text
            == "✓ Authenticated"@,
        m.settings.login_error is None && m.auth_token is None ==> login_state(m).text
            == "Waiting for input..."@,
{
}

/// A dialog of a given size is as large as it is asked to be, or else as the area
/// is, and has as much room on one side as on the other, but for one cell.
pub proof fn law_middle_is_centred(width: u16, height: u16, r: Rect)
    requires
        r.x + r.width <= 65535,
        r.y + r.height <= 65535,
    ensures
        ({
            let d = middle_at(width, height, r);
            let left = d.x - r.x;
            let right = (r.x + r.width) - (d.x + d.width);
            let above = d.y - r.y;
            let below = (r.y + r.height) - (d.y + d.height);
            &&& d.width <= width && d.width <= r.width && (d.width == width || d.width == r.width)
            &&& d.height <= height && d.height <= r.height && (d.height == height || d.height
                == r.height)
            &&& 0 <= left <= right <= left + 1
            &&& 0 <= above <= below <= above + 1
        }),
{
}

/// A dialog that takes all of an area is that area; one that takes a percentage of
/// it is as wide and as high as that is, but for one cell, and leaves half of the
/// rest on each side.
pub proof fn law_part_takes_its_percentage(percent_x: u16, percent_y: u16, r: Rect)
    requires
        percent_x <= 100,
        percent_y <= 100,
        r.x + r.width <= 65535,
        r.y + r.height <= 65535,
    ensures
        ({
            let d = middle_part(percent_x, percent_y, r);
            let w = percent_x * r.width;
            let h = percent_y * r.height;
            let beside = ((100 - percent_x) / 2) * r.width;
            let above = ((100 - percent_y) / 2) * r.height;
            &&& w - 100 <= 100 * d.width <= w + 100
            &&& h - 100 <= 100 * d.height <= h + 100
            &&& beside - 50 <= 100 * (d.x - r.x) <= beside + 50
            &&& above - 50 <= 100 * (d.y - r.y) <= above + 50
        }),
        middle_part(100, 100, r) == r,
{
    law_middle_part_inside(percent_x, percent_y, r);
    lemma_part_size((100 - percent_x) / 2, percent_x as int, r.width as int);
    lemma_part_size((100 - percent_y) / 2, percent_y as int, r.height as int);
    lemma_edges_inside((100 - percent_x) / 2, percent_x as int, r.width as int);
    lemma_edges_inside((100 - percent_y) / 2, percent_y as int, r.height as int);
    lemma_edges_inside(0, 100, r.width as int);
    lemma_edges_inside(0, 100, r.height as int);
    assert(geometry::nearest(0 * r.width, 100) == 0);
    assert(geometry::nearest(0 * r.height, 100) == 0);
    assert(geometry::nearest(100 * r.width, 100) == r.width);
    assert(geometry::nearest(100 * r.height, 100) == r.height);
}

proof fn lemma_part_size(beside: int, percent: int, whole: int)
    requires
        0 <= beside,
        0 <= percent,
        0 <= whole,
    ensures
        ({
            let a = geometry::nearest(beside * whole, 100);
            let b = geometry::nearest((beside + percent) * whole, 100);
            &&& percent * whole - 100 <= 100 * (b - a) <= percent * whole + 100
            &&& beside * whole - 50 <= 100 * a <= beside * whole + 50
        }),
{
    assert((beside + percent) * whole == beside * whole + percent * whole) by (nonlinear_arith);
}

/// A field that has the focus is yellow on a dark grey, any other grey on black.
pub proof fn law_focus_colours_the_field()
    ensures
        field_style(true) == (Style {
            fg: Some(Color::Yellow),
            bg: Some(Color::Rgb(20, 20, 20)),
            bold: false,
            italic: false,
            reversed: false,
            underlined: false,
        }),
        field_style(false) == (Style {
            fg: Some(Color::Gray),
            bg: Some(Color::Black),
            bold: false,
            italic: false,
            reversed: false,
            underlined: false,
        }),
{
}

/// The rows of the settings follow one another from the top, inside a border and a
/// margin: the header, two rows of the device code, a heading and the three rows of
/// the token's field, a heading and the three rows of the editor's field; the state
/// has what is left.
pub proof fn law_shown_settings_rows_follow(area: Rect, parts: Seq<Rect>)
    requires
        geometry::strips(Direction::Vertical, 1, shown_settings_rows(), area.inside_border(), parts),
        area.x + area.width <= 65535,
        area.y + area.height <= 65535,
        4 <= area.width,
        15 <= area.height,
    ensures
        ({
            let row = |down: int, height: int|
                Rect {
                    x: (area.x + 2) as u16,
                    y: (area.y + 2 + down) as u16,
                    width: (area.width - 4) as u16,
                    height: height as u16,
                };
            &&& parts.len() == 7
            &&& parts[0] == row(0, 1)
            &&& parts[1] == row(1, 2)
            &&& parts[2] == row(3, 1)
            &&& parts[3] == row(4, 3)
            &&& parts[4] == row(7, 1)
            &&& parts[5] == row(8, 3)
            &&& parts[6] == row(11, area.height - 15)
        }),
{
    let c = shown_settings_rows();
    let inner = area.inside_border().inside_margin(1);
    let whole = geometry::cells_of(Direction::Vertical, inner);
    geometry::lemma_sums_ends(c);
    geometry::lemma_sums_step(c, 0);
    geometry::lemma_sums_step(c, 1);
    geometry::lemma_sums_step(c, 2);
    geometry::lemma_sums_step(c, 3);
    geometry::lemma_sums_step(c, 4);
    geometry::lemma_sums_step(c, 5);
    geometry::lemma_sums_step(c, 6);
    geometry::lemma_reach_one_rest(c, whole, 0);
    geometry::lemma_reach_one_rest(c, whole, 1);
    geometry::lemma_reach_one_rest(c, whole, 2);
    geometry::lemma_reach_one_rest(c, whole, 3);
    geometry::lemma_reach_one_rest(c, whole, 4);
    geometry::lemma_reach_one_rest(c, whole, 5);
    geometry::lemma_reach_one_rest(c, whole, 6);
    geometry::lemma_reach_one_rest(c, whole, 7);
    assert(geometry::is_settled(c, whole));
}

/// The rows of the dialog that asks for a name follow one another inside its
/// border: two of the question, three of the field, one of the hint, and the rest.
pub proof fn law_name_dialog_rows_follow(area: Rect, parts: Seq<Rect>)
    requires
        geometry::strips(Direction::Vertical, 0, name_dialog_rows(), area.inside_border(), parts),
        area.x + area.width <= 65535,
        area.y + area.height <= 65535,
        2 <= area.width,
        8 <= area.height,
    ensures
        ({
            let row = |down: int, height: int|
                Rect {
                    x: (area.x + 1) as u16,
                    y: (area.y + 1 + down) as u16,
                    width: (area.width - 2) as u16,
                    height: height as u16,
                };
            &&& parts.len() == 4
            &&& parts[0] == row(0, 2)
            &&& parts[1] == row(2, 3)
            &&& parts[2] == row(5, 1)
            &&& parts[3] == row(6, area.height - 8)
        }),
{
    let c = name_dialog_rows();
    let inner = area.inside_border().inside_margin(0);
    let whole = geometry::cells_of(Direction::Vertical, inner);
    geometry::lemma_sums_ends(c);
    geometry::lemma_sums_step(c, 0);
    geometry::lemma_sums_step(c, 1);
    geometry::lemma_sums_step(c, 2);
    geometry::lemma_sums_step(c, 3);
    geometry::lemma_reach_one_rest(c, whole, 0);
    geometry::lemma_reach_one_rest(c, whole, 1);
    geometry::lemma_reach_one_rest(c, whole, 2);
    geometry::lemma_reach_one_rest(c, whole, 3);
    geometry::lemma_reach_one_rest(c, whole, 4);
    assert(geometry::is_settled(c, whole));
}

} // verus!
