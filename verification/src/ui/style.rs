//! Text and how it is set.

use crate::color::Color;
use vstd::prelude::*;
use vstd::string::*;

verus! {

/// How a text is set. A colour that is not given stays as it is.
#[derive(Clone, Copy, PartialEq, Eq, Structural, Debug)]
pub struct Style {
    pub fg: Option<Color>,
    pub bg: Option<Color>,
    pub bold: bool,
    pub italic: bool,
    pub reversed: bool,
    pub underlined: bool,
}

/// Nothing but the given colours.
pub open spec fn colors(fg: Option<Color>, bg: Option<Color>) -> Style {
    Style { fg, bg, bold: false, italic: false, reversed: false, underlined: false }
}

/// One colour on another, plain or bold.
pub open spec fn set_in(fg: Color, bg: Color, bold: bool) -> Style {
    Style { bold, ..colors(Some(fg), Some(bg)) }
}

impl Style {
    /// Nothing but the given colours.
    pub fn of(fg: Option<Color>, bg: Option<Color>) -> (r: Style)
        ensures
            r == colors(fg, bg),
    {
        Style { fg, bg, bold: false, italic: false, reversed: false, underlined: false }
    }

    /// One colour on another, plain or bold.
    pub fn on(fg: Color, bg: Color, bold: bool) -> (r: Style)
        ensures
            r == set_in(fg, bg, bold),
    {
        Style {
            fg: Some(fg),
            bg: Some(bg),
            bold,
            italic: false,
            reversed: false,
            underlined: false,
        }
    }
}

/// A text set in one style.
pub struct Span {
    pub text: String,
    pub style: Style,
}

pub ghost struct SpanView {
    pub text: Seq<char>,
    pub style: Style,
}

impl View for Span {
    type V = SpanView;

    open spec fn view(&self) -> SpanView {
        SpanView { text: self.text@, style: self.style }
    }
}

/// The texts that a sequence of spans holds.
pub open spec fn span_views(v: Seq<Span>) -> Seq<SpanView> {
    v.map_values(|s: Span| s@)
}

/// A text set in one style.
pub open spec fn span(text: Seq<char>, style: Style) -> SpanView {
    SpanView { text, style }
}

/// No spans.
pub fn no_spans() -> (r: Vec<Span>)
    ensures
        span_views(r@) == Seq::<SpanView>::empty(),
{
    let r: Vec<Span> = Vec::new();
    assert(span_views(r@) =~= Seq::empty());
    r
}

/// Adds a text at the end.
pub fn push_span(spans: &mut Vec<Span>, text: String, style: Style)
    ensures
        span_views(final(spans)@) == span_views(old(spans)@).push(span(text@, style)),
{
    let ghost before = spans@;
    spans.push(Span { text, style });
    assert(span_views(spans@) =~= span_views(before).push(span(text@, style)));
}

/// Whether the cursor of a text field is shown: it blinks once a second.
pub open spec fn cursor_shown(now: u64) -> bool {
    (now / 500_000_000) % 2 == 0
}

/// A text field as it is shown; `now` is the time in nanoseconds since the
/// start.
pub open spec fn field_text(input: Seq<char>, is_focused: bool, now: u64) -> Seq<char> {
    " "@ + input + (if is_focused && cursor_shown(now) {
        "_"@
    } else {
        " "@
    }) + " "@
}

/// A text field as it is shown.
pub fn show_field(input: &str, is_focused: bool, now: u64) -> (r: String)
    ensures
        r@ == field_text(input@, is_focused, now),
{
    let cursor = if is_focused && (now / 500_000_000) % 2 == 0 {
        "_"
    } else {
        " "
    };
    let mut t = crate::text::concat3(" ", input, cursor);
    t.append(" ");
    t
}

/// A field shows what is typed between two blanks, with a cursor behind it that
/// comes and goes twice a second while the field has the focus.
pub proof fn law_field_shows_what_is_typed(input: Seq<char>, now: u64)
    ensures
        field_text(input, false, now) == " "@ + input + " "@ + " "@,
        (now / 500_000_000) % 2 == 0 ==> field_text(input, true, now) == " "@ + input + "_"@ + " "@,
        (now / 500_000_000) % 2 == 1 ==> field_text(input, true, now) == " "@ + input + " "@ + " "@,
{
}

/// A style has the colours and the weight that it is made of, and nothing else; a
/// span its text and its style.
pub proof fn law_styles_are_what_they_are_made_of(
    fg: Color,
    bg: Color,
    bold: bool,
    text: Seq<char>,
)
    ensures
        set_in(fg, bg, bold) == (Style {
            fg: Some(fg),
            bg: Some(bg),
            bold,
            italic: false,
            reversed: false,
            underlined: false,
        }),
        colors(Some(fg), None) == (Style {
            fg: Some(fg),
            bg: None,
            bold: false,
            italic: false,
            reversed: false,
            underlined: false,
        }),
        span(text, set_in(fg, bg, bold)).text == text,
        span(text, set_in(fg, bg, bold)).style == set_in(fg, bg, bold),
{
}

} // verus!
