//! What the status bars show.

use crate::app;
use crate::app::App;
use crate::color;
use crate::color::Color;
use crate::config;
use crate::config::{ItemType, StatusBarItem};
use crate::listing;
use crate::screen;
use crate::screen::ScreenState;
use crate::text;
use crate::ui::geometry::Rect;
use crate::ui::style;
use crate::ui::style::{Span, Style};
use crate::ui::terminal;
use vstd::prelude::*;
use vstd::string::*;

verus! {

/// What an item of a status bar shows.
pub enum ItemLook {
    Nothing,
    /// Texts, set to the left or to the right.
    Texts { spans: Vec<Span>, to_right: bool },
    /// The load of the processor and the memory.
    SystemStats,
}

pub ghost enum ItemLookView {
    Nothing,
    Texts { spans: Seq<style::SpanView>, to_right: bool },
    SystemStats,
}

impl View for ItemLook {
    type V = ItemLookView;

    open spec fn view(&self) -> ItemLookView {
        match self {
            ItemLook::Nothing => ItemLookView::Nothing,
            ItemLook::Texts { spans, to_right } => ItemLookView::Texts {
                spans: style::span_views(spans@),
                to_right: *to_right,
            },
            ItemLook::SystemStats => ItemLookView::SystemStats,
        }
    }
}

/// The name of the colour behind a button.
pub open spec fn button_color(item: config::ItemView, is_hovered: bool) -> Seq<char> {
    match (item.color, item.hover_color) {
        (_, Some(h)) if is_hovered => h,
        (Some(c), _) => c,
        (None, _) => "white"@,
    }
}

/// The colour of a button's text: dark on light colours.
pub open spec fn button_text_color(name: Seq<char>) -> Color {
    if name == "green"@ || name == "cyan"@ || text::starts_with(name, "light_"@) {
        Color::Black
    } else {
        Color::White
    }
}

/// What a button shows; `None` where the name of its colour has no meaning.
pub open spec fn button_look(item: config::ItemView, is_hovered: bool) -> Option<ItemLookView> {
    match item.label {
        Some(label) => {
            let name = button_color(item, is_hovered);
            let lower = text::lowercase(name);
            if color::code_splits(lower) {
                Some(
                    ItemLookView::Texts {
                        spans: seq![
                            style::span(
                                label,
                                style::set_in(
                                    button_text_color(name),
                                    color::color_of(lower),
                                    true,
                                ),
                            ),
                        ],
                        to_right: false,
                    },
                )
            } else {
                None
            }
        },
        None => Some(ItemLookView::Nothing),
    }
}

/// A text in one colour.
pub open spec fn colored(s: Seq<char>, c: Color) -> style::SpanView {
    style::span(s, style::colors(Some(c), None))
}

/// What is shown of the selected command.
pub open spec fn command_look(m: app::AppView) -> ItemLookView {
    let rows = listing::rows_of(m);
    match m.sidebar.state.selected {
        Some(index) if index < rows.len() => {
            let row = rows[index as int] as int;
            let info = match listing::infos_of(m) {
                Some(infos) => infos[row],
                None => Seq::empty(),
            };
            ItemLookView::Texts {
                spans: seq![
                    colored(" # "@, Color::DarkGray),
                    colored(
                        listing::items_of(m)[row] + " "@ + info + " "@,
                        Color::White,
                    ),
                    colored(listing::commands_of(m)[row], Color::DarkGray),
                ],
                to_right: false,
            }
        },
        _ => ItemLookView::Nothing,
    }
}

/// Where the terminal's view stands, and the time.
pub open spec fn clock_text(sc: ScreenState, clock: Seq<char>) -> Seq<char> {
    text::decimal(sc.scrollback as nat) + "/"@ + text::decimal(
        (sc.rows + sc.scrollback_len) as nat,
    ) + " | "@ + clock
}

/// What an item of a status bar shows on an area; `clock` is the time. `None`
/// where the name of a colour has no meaning, or where the rows cannot be
/// counted.
pub open spec fn item_look(
    m: app::AppView,
    item: config::ItemView,
    area: Rect,
    sc: ScreenState,
    clock: Seq<char>,
) -> Option<ItemLookView> {
    if area.width == 0 {
        Some(ItemLookView::Nothing)
    } else {
        match item.type_ {
            ItemType::Button => button_look(item, terminal::hovers(m.mouse_pos, area)),
            ItemType::SystemStats => Some(ItemLookView::SystemStats),
            ItemType::GitInfo => Some(
                ItemLookView::Texts {
                    spans: seq![
                        colored(
                            "  "@ + (match m.git_info {
                                Some(t) => t,
                                None => Seq::empty(),
                            }),
                            Color::Magenta,
                        ),
                    ],
                    to_right: false,
                },
            ),
            ItemType::TimeAndScroll => if sc.rows + sc.scrollback_len <= usize::MAX {
                Some(
                    ItemLookView::Texts {
                        spans: seq![colored(clock_text(sc, clock), Color::White)],
                        to_right: true,
                    },
                )
            } else {
                None
            },
            ItemType::SelectedCommandInfo => Some(command_look(m)),
            ItemType::Spacer => Some(
                ItemLookView::Texts {
                    spans: seq![style::span(Seq::empty(), style::colors(None, None))],
                    to_right: false,
                },
            ),
        }
    }
}

/// Two digits each for hours, minutes and seconds, with colons between.
pub open spec fn is_clock(t: Seq<char>) -> bool {
    &&& t.len() == 8
    &&& t[2] == ':' && t[5] == ':'
    &&& forall|i: int| 0 <= i < 8 && i != 2 && i != 5 ==> text::is_digit(#[trigger] t[i])
}

/// The local time, as `chrono::Local::now` and its `format` give it: two digits
/// each for hours, minutes and seconds. Which time it is rests on the clock and
/// the time zone and is left unsaid.
#[verifier::external_body]
fn local_clock() -> (r: String)
    ensures
        is_clock(r@),
{
    chrono::Local::now().format("%H:%M:%S").to_string()
}

/// One text.
fn one_text(t: String, set: Style, to_right: bool) -> (r: ItemLook)
    ensures
        r@ == (ItemLookView::Texts { spans: seq![style::span(t@, set)], to_right }),
{
    let mut spans = style::no_spans();
    style::push_span(&mut spans, t, set);
    assert(style::span_views(spans@) =~= seq![style::span(t@, set)]);
    ItemLook::Texts { spans, to_right }
}

/// What a button shows.
pub fn draw_button(item: &StatusBarItem, is_hovered: bool) -> (r: Option<ItemLook>)
    ensures
        match r {
            Some(look) => button_look(item@, is_hovered) == Some(look@),
            None => button_look(item@, is_hovered) is None,
        },
{
    let label = match &item.label {
        Some(l) => l.clone(),
        None => {
            return Some(ItemLook::Nothing);
        },
    };
    let plain = match &item.color {
        Some(c) => c.clone(),
        None => "white".to_owned(),
    };
    let name = match &item.hover_color {
        Some(h) => if is_hovered {
            h.clone()
        } else {
            plain
        },
        None => plain,
    };
    let fg = if text::same_text(name.as_str(), "green") || text::same_text(name.as_str(), "cyan")
        || text::text_starts_with(name.as_str(), "light_") {
        Color::Black
    } else {
        Color::White
    };
    match color::try_parse_color(name.as_str()) {
        Some(bg) => Some(one_text(label, Style::on(fg, bg, true), false)),
        None => None,
    }
}

impl App {
    /// What is shown of the selected command.
    pub fn draw_command(&self) -> (r: ItemLook)
        requires
            self@.wf(),
        ensures
            r@ == command_look(self@),
    {
        let index = match self.sidebar.state.selected {
            Some(i) => i,
            None => {
                return ItemLook::Nothing;
            },
        };
        let rows = self.matching_rows();
        if index >= rows.len() {
            return ItemLook::Nothing;
        }
        let row: usize = rows[index];
        let items = self.listed_items();
        let commands = self.listed_commands();
        assert(text::texts(items@)[row as int] == items@[row as int]@);
        assert(text::texts(commands@).len() == commands@.len());
        assert(text::texts(commands@)[row as int] == commands@[row as int]@);
        let info = match self.listed_infos() {
            Some(infos) => {
                assert(text::texts(infos@).len() == infos@.len());
                assert(text::texts(infos@)[row as int] == infos@[row as int]@);
                infos[row].clone()
            },
            None => {
                let none = String::new();
                assert(none@ =~= Seq::empty());
                none
            },
        };
        let mut about = text::concat3(items[row].as_str(), " ", info.as_str());
        about.append(" ");
        let mut spans = style::no_spans();
        let dark = Style::of(Some(Color::DarkGray), None);
        style::push_span(&mut spans, " # ".to_owned(), dark);
        style::push_span(&mut spans, about, Style::of(Some(Color::White), None));
        style::push_span(&mut spans, commands[row].clone(), dark);
        assert(style::span_views(spans@) =~= command_look(self@)->spans);
        ItemLook::Texts { spans, to_right: false }
    }

    /// What an item of a status bar shows on an area; `clock` is the time.
    pub fn draw_item_at(&self, item: &StatusBarItem, area: Rect, sc: ScreenState, clock: &str) -> (r:
        Option<ItemLook>)
        requires
            self@.wf(),
        ensures
            match r {
                Some(look) => item_look(self@, item@, area, sc, clock@) == Some(look@),
                None => item_look(self@, item@, area, sc, clock@) is None,
            },
    {
        if area.width == 0 {
            return Some(ItemLook::Nothing);
        }
        match item.type_ {
            ItemType::Button => draw_button(item, terminal::is_hovered(self.mouse_pos, area)),
            ItemType::SystemStats => Some(ItemLook::SystemStats),
            ItemType::GitInfo => {
                let shown = match &self.git_info {
                    Some(t) => text::concat2("  ", t.as_str()),
                    None => "  ".to_owned(),
                };
                assert(shown@ =~= "  "@ + (match self@.git_info {
                    Some(t) => t,
                    None => Seq::empty(),
                }));
                Some(one_text(shown, Style::of(Some(Color::Magenta), None), false))
            },
            ItemType::TimeAndScroll => {
                if sc.scrollback_len > usize::MAX - sc.rows as usize {
                    return None;
                }
                let total: usize = sc.rows as usize + sc.scrollback_len;
                let at = text::decimal_text(sc.scrollback as u64);
                let all = text::decimal_text(total as u64);
                let mut t = text::concat3(at.as_str(), "/", all.as_str());
                t.append(" | ");
                t.append(clock);
                Some(one_text(t, Style::of(Some(Color::White), None), true))
            },
            ItemType::SelectedCommandInfo => Some(self.draw_command()),
            ItemType::Spacer => {
                let none = String::new();
                assert(none@ =~= Seq::empty());
                Some(one_text(none, Style::of(None, None), false))
            },
        }
    }

    /// What an item of a status bar shows on an area now, whatever the time is.
    pub fn draw_item(&self, item: &StatusBarItem, area: Rect, s: &vt100::Screen) -> (r: Option<
        ItemLook,
    >)
        requires
            self@.wf(),
        ensures
            exists|clock: Seq<char>|
                #![trigger item_look(self@, item@, area, screen::screen_state(*s), clock)]
                is_clock(clock) && match r {
                    Some(look) => item_look(
                        self@,
                        item@,
                        area,
                        screen::screen_state(*s),
                        clock,
                    ) == Some(look@),
                    None => item_look(self@, item@, area, screen::screen_state(*s), clock) is None,
                },
    {
        let clock = local_clock();
        let sc = screen::read_state(s);
        let r = self.draw_item_at(item, area, sc, clock.as_str());
        assert(item_look(self@, item@, area, screen::screen_state(*s), clock@) == item_look(
            self@,
            item@,
            area,
            sc,
            clock@,
        ));
        r
    }
}

/// What the items of a status bar show where they have room: a button its label,
/// the git state what is known of it, the clock where the view stands and the time.
/// An item without room, and a button without a label, shows nothing.
pub proof fn law_items_show_what_they_are(
    m: app::AppView,
    item: config::ItemView,
    area: Rect,
    sc: ScreenState,
    clock: Seq<char>,
)
    requires
        sc.rows + sc.scrollback_len <= usize::MAX,
    ensures
        ({
            let look = item_look(m, item, area, sc, clock);
            &&& area.width == 0 ==> look == Some(ItemLookView::Nothing)
            &&& area.width > 0 && item.type_ is Button && item.label is None ==> look == Some(
                ItemLookView::Nothing,
            )
            &&& area.width > 0 && item.type_ is Button ==> (item.label matches Some(label) ==> (
            look matches Some(l) ==> (l matches ItemLookView::Texts { spans, to_right } && !to_right
                && spans.len() == 1 && spans[0].text == label)))
            &&& area.width > 0 && item.type_ is SystemStats ==> look == Some(
                ItemLookView::SystemStats,
            )
            &&& area.width > 0 && item.type_ is GitInfo ==> (look matches Some(l) && (
            l matches ItemLookView::Texts { spans, to_right } && !to_right && spans.len() == 1
                && spans[0].text == "  "@ + (match m.git_info {
                Some(t) => t,
                None => Seq::empty(),
            })))
            &&& area.width > 0 && item.type_ is TimeAndScroll ==> (look matches Some(l) && (
            l matches ItemLookView::Texts { spans, to_right } && to_right && spans.len() == 1
                && spans[0].text == text::decimal(sc.scrollback as nat) + "/"@ + text::decimal(
                (sc.rows + sc.scrollback_len) as nat,
            ) + " | "@ + clock))
            &&& area.width > 0 && item.type_ is SelectedCommandInfo ==> look == Some(
                command_look(m),
            )
        }),
{
}

/// A button is set in its own colour, or in the one for the mouse while that is on
/// it; dark letters stand on light colours.
pub proof fn law_buttons_have_their_colours(item: config::ItemView, is_hovered: bool)
    requires
        item.label is Some,
        button_look(item, is_hovered) is Some,
    ensures
        ({
            let name = if is_hovered && item.hover_color is Some {
                item.hover_color->0
            } else if item.color is Some {
                item.color->0
            } else {
                "white"@
            };
            let light = name == "green"@ || name == "cyan"@ || text::starts_with(name, "light_"@);
            button_look(item, is_hovered)->0 == ItemLookView::Texts {
                spans: seq![
                    style::span(
                        item.label->0,
                        style::set_in(
                            if light {
                                Color::Black
                            } else {
                                Color::White
                            },
                            color::color_of(text::lowercase(name)),
                            true,
                        ),
                    ),
                ],
                to_right: false,
            }
        }),
{
}

/// What is told of the selected command is of the row that the search shows at the
/// selected place: its label, its info and its command.
pub proof fn law_selected_command_is_the_shown_one(m: app::AppView, row: int)
    requires
        m.wf(),
        listing::row_count(m) <= usize::MAX,
        0 <= row < listing::row_count(m),
        listing::is_shown(m, row),
        m.sidebar.state.selected matches Some(i) && i == listing::shown_before(m, row),
    ensures
        command_look(m) matches ItemLookView::Texts { spans, to_right } && {
            let (label, info, command) = match m.sidebar.mode {
                crate::app::SidebarMode::Commands => (
                    m.commands.items[row],
                    m.commands.infos[row],
                    m.commands.commands[row],
                ),
                crate::app::SidebarMode::History => (
                    m.history.items[row],
                    Seq::empty(),
                    m.history.commands[row],
                ),
                crate::app::SidebarMode::Gists => (
                    m.gists.items[row],
                    m.gists.infos[row],
                    m.gists.commands[row],
                ),
            };
            &&& spans.len() == 3
            &&& spans[0].text == " # "@
            &&& spans[1].text == label + " "@ + info + " "@
            &&& spans[2].text == command
        },
{
    listing::law_rows_are_those_shown(m);
}

} // verus!
