//! Clicks on the terminal and its scrollbar.

use crate::app;
use crate::app::{Action, App, MouseButton, MouseEvent, MouseKind};
use crate::screen::ScreenState;
use crate::text;
use crate::ui::geometry;
use crate::ui::geometry::Rect;
use vstd::prelude::*;
use vstd::string::*;

verus! {

/// A report of the mouse in the form of SGR.
pub open spec fn sgr_report(code: nat, x: nat, y: nat, end: Seq<char>) -> Seq<char> {
    "\x1b[<"@ + text::decimal(code) + ";"@ + text::decimal(x) + ";"@ + text::decimal(y) + end
}

/// A report of the mouse in the form of SGR.
pub fn sgr_text(code: u64, x: u64, y: u64, end: &str) -> (r: String)
    ensures
        r@ == sgr_report(code as nat, x as nat, y as nat, end@),
{
    let code_text = text::decimal_text(code);
    let x_text = text::decimal_text(x);
    let y_text = text::decimal_text(y);
    let mut t = text::concat3("\x1b[<", code_text.as_str(), ";");
    t.append(x_text.as_str());
    t.append(";");
    t.append(y_text.as_str());
    t.append(end);
    t
}

/// The number that a program which asks for reports gets for what the mouse did.
pub open spec fn report_code(kind: MouseKind) -> nat {
    match kind {
        MouseKind::Down(MouseButton::Left) | MouseKind::Up(MouseButton::Left) => 0,
        MouseKind::Down(MouseButton::Middle) | MouseKind::Up(MouseButton::Middle) => 1,
        MouseKind::Down(MouseButton::Right) | MouseKind::Up(MouseButton::Right) => 2,
        MouseKind::Drag(MouseButton::Left) => 32,
        MouseKind::Drag(MouseButton::Middle) => 33,
        MouseKind::Drag(MouseButton::Right) => 34,
        MouseKind::Moved => 35,
        MouseKind::ScrollUp => 64,
        MouseKind::ScrollDown => 65,
        _ => 0,
    }
}

/// The report's last letter tells a release from the rest.
pub open spec fn report_end(kind: MouseKind) -> Seq<char> {
    if kind is Up {
        "m"@
    } else {
        "M"@
    }
}

/// The report to a program that asks for them.
pub open spec fn report(e: MouseEvent, term: Rect) -> Seq<char> {
    sgr_report(
        report_code(e.kind),
        (geometry::floored(e.column - term.x) + 1) as nat,
        (geometry::floored(e.row - term.y) + 1) as nat,
        report_end(e.kind),
    )
}

/// The report to a program that asks for them.
pub fn report_text(e: MouseEvent, term: Rect) -> (r: String)
    ensures
        r@ == report(e, term),
{
    let code: u64 = match e.kind {
        MouseKind::Down(MouseButton::Left) | MouseKind::Up(MouseButton::Left) => 0,
        MouseKind::Down(MouseButton::Middle) | MouseKind::Up(MouseButton::Middle) => 1,
        MouseKind::Down(MouseButton::Right) | MouseKind::Up(MouseButton::Right) => 2,
        MouseKind::Drag(MouseButton::Left) => 32,
        MouseKind::Drag(MouseButton::Middle) => 33,
        MouseKind::Drag(MouseButton::Right) => 34,
        MouseKind::Moved => 35,
        MouseKind::ScrollUp => 64,
        MouseKind::ScrollDown => 65,
        _ => 0,
    };
    let end = match e.kind {
        MouseKind::Up(_) => "m",
        _ => "M",
    };
    let x: u64 = e.column.saturating_sub(term.x) as u64 + 1;
    let y: u64 = e.row.saturating_sub(term.y) as u64 + 1;
    sgr_text(code, x, y, end)
}

/// The number that a program which did not ask for reports, but set the form of
/// SGR, gets for what the mouse did. The middle and the right button change
/// places.
pub open spec fn unasked_code(kind: MouseKind) -> Option<nat> {
    match kind {
        MouseKind::Down(MouseButton::Left) | MouseKind::Up(MouseButton::Left) => Some(0),
        MouseKind::Down(MouseButton::Right) | MouseKind::Up(MouseButton::Right) => Some(1),
        MouseKind::Down(MouseButton::Middle) | MouseKind::Up(MouseButton::Middle) => Some(2),
        MouseKind::Drag(MouseButton::Left) => Some(32),
        MouseKind::Drag(MouseButton::Middle) => Some(33),
        MouseKind::Drag(MouseButton::Right) => Some(34),
        MouseKind::ScrollUp => Some(64),
        MouseKind::ScrollDown => Some(65),
        _ => None,
    }
}

/// The view moves up by three rows.
pub open spec fn scrolled_up(sc: ScreenState) -> app::ActionView {
    app::ActionView::SetScrollback((sc.scrollback + 3) as usize)
}

/// The view moves down by three rows.
pub open spec fn scrolled_down(sc: ScreenState) -> app::ActionView {
    app::ActionView::SetScrollback(geometry::floored(sc.scrollback - 3) as usize)
}

/// The view moves to the given part of the scrollbar's track, if there is one.
pub open spec fn track_picked(part: int, area: Rect) -> Seq<app::ActionView> {
    if area.height > 2 {
        seq![
            app::ActionView::ScrollToPart { part: part as u16, whole: (area.height - 2) as u16 },
        ]
    } else {
        Seq::empty()
    }
}

/// What the mouse does on the terminal's scrollbar, or while it drags its
/// thumb; `None` where the bar has no such row.
pub open spec fn scrollbar_clicked(
    m: app::AppView,
    e: MouseEvent,
    area: Rect,
    sc: ScreenState,
) -> Option<(app::AppView, Seq<app::ActionView>)> {
    let held = app::AppView { drags: app::Drags { scrollbar: true, ..m.drags }, ..m };
    let bottom = area.bottom_edge();
    match e.kind {
        MouseKind::Down(MouseButton::Left) => if e.row == area.y {
            Some((held, seq![scrolled_up(sc)]))
        } else if bottom == 0 {
            None
        } else if e.row == bottom - 1 {
            Some((held, seq![scrolled_down(sc)]))
        } else if area.y == 65535 {
            None
        } else {
            Some((held, track_picked(geometry::floored(e.row - (area.y + 1)), area)))
        },
        MouseKind::Drag(MouseButton::Left) | MouseKind::Moved => if m.drags.scrollbar {
            let first = area.y + 1;
            let last = geometry::floored(bottom - 2);
            if first > last {
                None
            } else if e.row < first {
                Some((m, track_picked(0, area)))
            } else if e.row > last {
                Some((m, track_picked(last - first, area)))
            } else {
                Some((m, track_picked(e.row - first, area)))
            }
        } else {
            Some((m, Seq::empty()))
        },
        MouseKind::Up(MouseButton::Left) => Some(
            (
                app::AppView { drags: app::Drags { scrollbar: false, ..m.drags }, ..m },
                Seq::empty(),
            ),
        ),
        _ => Some((m, Seq::empty())),
    }
}

/// What the mouse does to the selection at row `y` and column `x`, if it does
/// something to it.
pub open spec fn selection_clicked(s: app::Selection, kind: MouseKind, y: u16, x: u16) -> Option<
    app::Selection,
> {
    match kind {
        MouseKind::Down(MouseButton::Left) => Some(
            app::Selection { is_selecting: true, start: Some((y, x)), end: Some((y, x)) },
        ),
        MouseKind::Drag(MouseButton::Left) | MouseKind::Moved => if s.is_selecting {
            Some(app::Selection { end: Some((y, x)), ..s })
        } else {
            None
        },
        MouseKind::Up(MouseButton::Left) => if s.is_selecting {
            if s.start == s.end {
                Some(app::Selection { is_selecting: false, start: None, end: None })
            } else {
                Some(app::Selection { is_selecting: false, ..s })
            }
        } else {
            None
        },
        _ => None,
    }
}

/// What the mouse does on the terminal, or while it selects text; `None` where
/// a report would have no such column or row.
pub open spec fn terminal_clicked(
    m: app::AppView,
    e: MouseEvent,
    term: Rect,
    sc: ScreenState,
) -> Option<(app::AppView, Seq<app::ActionView>)> {
    let x = geometry::floored(e.column - term.x);
    let y = geometry::floored(e.row - term.y);
    let selection = selection_clicked(m.selection, e.kind, y as u16, x as u16);
    if !sc.mouse_reporting() && selection is Some {
        Some((app::AppView { selection: selection->0, ..m }, Seq::empty()))
    } else if sc.sgr_mouse() {
        if x == 65535 || y == 65535 {
            None
        } else {
            match unasked_code(e.kind) {
                Some(code) => Some(
                    (
                        m,
                        seq![
                            app::ActionView::Write(
                                sgr_report(
                                    code,
                                    (x + 1) as nat,
                                    (y + 1) as nat,
                                    report_end(e.kind),
                                ),
                            ),
                        ],
                    ),
                ),
                None => Some((m, Seq::empty())),
            }
        }
    } else {
        match e.kind {
            MouseKind::ScrollUp => Some((m, seq![scrolled_up(sc)])),
            MouseKind::ScrollDown => Some((m, seq![scrolled_down(sc)])),
            _ => Some((m, Seq::empty())),
        }
    }
}

/// Moves the view to the given part of the scrollbar's track.
fn track_action(part: u16, area: Rect) -> (r: Vec<Action>)
    ensures
        app::action_views(r@) == track_picked(part as int, area),
{
    if area.height > 2 {
        app::one_action(Action::ScrollToPart { part, whole: area.height - 2 })
    } else {
        app::no_actions()
    }
}

/// Whether two ends of a selection are the same.
fn same_end(a: Option<(u16, u16)>, b: Option<(u16, u16)>) -> (r: bool)
    ensures
        r == (a == b),
{
    match (a, b) {
        (Some((ar, ac)), Some((br, bc))) => ar == br && ac == bc,
        (None, None) => true,
        _ => false,
    }
}

/// What the mouse does to the selection, if it does something to it.
pub fn click_selection(s: app::Selection, kind: MouseKind, y: u16, x: u16) -> (r: Option<
    app::Selection,
>)
    ensures
        r == selection_clicked(s, kind, y, x),
{
    match kind {
        MouseKind::Down(MouseButton::Left) => Some(
            app::Selection { is_selecting: true, start: Some((y, x)), end: Some((y, x)) },
        ),
        MouseKind::Drag(MouseButton::Left) | MouseKind::Moved => if s.is_selecting {
            Some(app::Selection { is_selecting: true, start: s.start, end: Some((y, x)) })
        } else {
            None
        },
        MouseKind::Up(MouseButton::Left) => if s.is_selecting {
            if same_end(s.start, s.end) {
                Some(app::Selection { is_selecting: false, start: None, end: None })
            } else {
                Some(app::Selection { is_selecting: false, start: s.start, end: s.end })
            }
        } else {
            None
        },
        _ => None,
    }
}

impl App {
    /// Takes what the mouse does on the terminal's scrollbar, or while it drags
    /// its thumb.
    pub fn click_scrollbar(&mut self, e: MouseEvent, area: Rect, sc: ScreenState) -> (r: Option<
        Vec<Action>,
    >)
        requires
            sc.can_scroll(),
        ensures
            match r {
                Some(actions) => scrollbar_clicked(old(self)@, e, area, sc) == Some(
                    (final(self)@, app::action_views(actions@)),
                ),
                None => scrollbar_clicked(old(self)@, e, area, sc) is None && final(self)@ == old(
                    self,
                )@,
            },
    {
        let bottom: u16 = area.bottom();
        match e.kind {
            MouseKind::Down(MouseButton::Left) => {
                if e.row == area.y {
                    self.drags.scrollbar = true;
                    Some(app::one_action(Action::SetScrollback(sc.scrollback + 3)))
                } else if bottom == 0 {
                    None
                } else if e.row == bottom - 1 {
                    self.drags.scrollbar = true;
                    Some(app::one_action(Action::SetScrollback(sc.scrollback.saturating_sub(3))))
                } else if area.y == 65535 {
                    None
                } else {
                    self.drags.scrollbar = true;
                    Some(track_action(e.row.saturating_sub(area.y + 1), area))
                }
            },
            MouseKind::Drag(MouseButton::Left) | MouseKind::Moved => {
                if self.drags.scrollbar {
                    let last: u16 = bottom.saturating_sub(2);
                    if area.y >= last {
                        return None;
                    }
                    let first: u16 = area.y + 1;
                    let at: u16 = if e.row < first {
                        first
                    } else if e.row > last {
                        last
                    } else {
                        e.row
                    };
                    Some(track_action(at - first, area))
                } else {
                    Some(app::no_actions())
                }
            },
            MouseKind::Up(MouseButton::Left) => {
                self.drags.scrollbar = false;
                Some(app::no_actions())
            },
            _ => Some(app::no_actions()),
        }
    }

    /// Takes what the mouse does on the terminal, or while it selects text.
    pub fn click_terminal(&mut self, e: MouseEvent, term: Rect, sc: ScreenState) -> (r: Option<
        Vec<Action>,
    >)
        requires
            sc.can_scroll(),
        ensures
            match r {
                Some(actions) => terminal_clicked(old(self)@, e, term, sc) == Some(
                    (final(self)@, app::action_views(actions@)),
                ),
                None => terminal_clicked(old(self)@, e, term, sc) is None && final(self)@ == old(
                    self,
                )@,
            },
    {
        let x: u16 = e.column.saturating_sub(term.x);
        let y: u16 = e.row.saturating_sub(term.y);
        if !sc.is_mouse_reporting() {
            if let Some(selection) = click_selection(self.selection, e.kind, y, x) {
                self.selection = selection;
                return Some(app::no_actions());
            }
        }
        if sc.is_sgr_mouse() {
            if x == 65535 || y == 65535 {
                return None;
            }
            let code: u64 = match e.kind {
                MouseKind::Down(MouseButton::Left) | MouseKind::Up(MouseButton::Left) => 0,
                MouseKind::Down(MouseButton::Right) | MouseKind::Up(MouseButton::Right) => 1,
                MouseKind::Down(MouseButton::Middle) | MouseKind::Up(MouseButton::Middle) => 2,
                MouseKind::Drag(MouseButton::Left) => 32,
                MouseKind::Drag(MouseButton::Middle) => 33,
                MouseKind::Drag(MouseButton::Right) => 34,
                MouseKind::ScrollUp => 64,
                MouseKind::ScrollDown => 65,
                _ => {
                    return Some(app::no_actions());
                },
            };
            let end = match e.kind {
                MouseKind::Up(_) => "m",
                _ => "M",
            };
            let line = sgr_text(code, x as u64 + 1, y as u64 + 1, end);
            Some(app::one_action(Action::Write(line)))
        } else {
            match e.kind {
                MouseKind::ScrollUp => Some(
                    app::one_action(Action::SetScrollback(sc.scrollback + 3)),
                ),
                MouseKind::ScrollDown => Some(
                    app::one_action(Action::SetScrollback(sc.scrollback.saturating_sub(3))),
                ),
                _ => Some(app::no_actions()),
            }
        }
    }
}

/// A click without a drag selects nothing, and a drag selects from where the
/// button went down to where the mouse was last.
pub proof fn law_selection_by_mouse(
    s: app::Selection,
    y1: u16,
    x1: u16,
    y2: u16,
    x2: u16,
    y3: u16,
    x3: u16,
)
    ensures
        ({
            let left = MouseButton::Left;
            let down = selection_clicked(s, MouseKind::Down(left), y1, x1)->0;
            let dragged = selection_clicked(down, MouseKind::Drag(left), y2, x2)->0;
            &&& selection_clicked(down, MouseKind::Up(left), y3, x3) == Some(
                app::Selection { is_selecting: false, start: None, end: None },
            )
            &&& selection_clicked(dragged, MouseKind::Up(left), y3, x3) == Some(
                if (y1, x1) == (y2, x2) {
                    app::Selection { is_selecting: false, start: None, end: None }
                } else {
                    app::Selection {
                        is_selecting: false,
                        start: Some((y1, x1)),
                        end: Some((y2, x2)),
                    }
                },
            )
        }),
{
}

/// The number of a mouse button in a report.
pub open spec fn button_number(b: MouseButton) -> nat {
    match b {
        MouseButton::Left => 0,
        MouseButton::Middle => 1,
        MouseButton::Right => 2,
    }
}

/// A program that asks for reports of the mouse gets the button, with 32 added for
/// a drag, 35 for a move and 64 or 65 for the wheel, then column and row, counted
/// from one at the terminal's own corner. A release ends with a small letter.
pub proof fn law_report_tells_what_and_where(e: MouseEvent, term: Rect)
    requires
        term.x <= e.column,
        term.y <= e.row,
    ensures
        ({
            let x = (e.column - term.x + 1) as nat;
            let y = (e.row - term.y + 1) as nat;
            let told = |code: nat, end: Seq<char>|
                "\x1b[<"@ + text::decimal(code) + ";"@ + text::decimal(x) + ";"@ + text::decimal(y)
                    + end;
            &&& e.kind matches MouseKind::Down(b) ==> report(e, term) == told(button_number(b), "M"@)
            &&& e.kind matches MouseKind::Up(b) ==> report(e, term) == told(button_number(b), "m"@)
            &&& e.kind matches MouseKind::Drag(b) ==> report(e, term) == told(
                32 + button_number(b),
                "M"@,
            )
            &&& e.kind is Moved ==> report(e, term) == told(35, "M"@)
            &&& e.kind is ScrollUp ==> report(e, term) == told(64, "M"@)
            &&& e.kind is ScrollDown ==> report(e, term) == told(65, "M"@)
        }),
{
}

/// Where no program asks for reports, the left button selects text of the
/// terminal: a press begins a selection where the mouse is, a drag moves its end
/// there, and a release ends it. Nothing is asked for.
pub proof fn law_mouse_selects_text(
    m: app::AppView,
    e: MouseEvent,
    term: Rect,
    sc: ScreenState,
)
    requires
        m.wf(),
        sc.mouse_mode is Off,
        term.x <= e.column,
        term.y <= e.row,
    ensures
        ({
            let at = ((e.row - term.y) as u16, (e.column - term.x) as u16);
            let left = MouseButton::Left;
            let outcome = terminal_clicked(m, e, term, sc);
            let none = Seq::<app::ActionView>::empty();
            &&& e.kind == MouseKind::Down(left) ==> outcome == Some(
                (
                    app::AppView {
                        selection: app::Selection {
                            is_selecting: true,
                            start: Some(at),
                            end: Some(at),
                        },
                        ..m
                    },
                    none,
                ),
            )
            &&& m.selection.is_selecting && (e.kind == MouseKind::Drag(left) || e.kind is Moved)
                ==> outcome == Some(
                (
                    app::AppView {
                        selection: app::Selection {
                            is_selecting: true,
                            start: m.selection.start,
                            end: Some(at),
                        },
                        ..m
                    },
                    none,
                ),
            )
            &&& m.selection.is_selecting && e.kind == MouseKind::Up(left) ==> outcome == Some(
                (
                    app::AppView {
                        selection: if m.selection.start == m.selection.end {
                            app::Selection { is_selecting: false, start: None, end: None }
                        } else {
                            app::Selection {
                                is_selecting: false,
                                start: m.selection.start,
                                end: m.selection.end,
                            }
                        },
                        ..m
                    },
                    none,
                ),
            )
        }),
{
}

/// The wheel moves the terminal's view by three rows, up or down and not below the
/// last, where the program has not set the form of SGR; nothing is selected.
pub proof fn law_wheel_moves_the_view(
    m: app::AppView,
    e: MouseEvent,
    term: Rect,
    sc: ScreenState,
)
    requires
        !(sc.mouse_encoding is Sgr),
        sc.scrollback + 3 <= usize::MAX,
        e.kind is ScrollUp || e.kind is ScrollDown,
    ensures
        terminal_clicked(m, e, term, sc) == Some(
            (
                m,
                seq![
                    app::ActionView::SetScrollback(
                        (if e.kind is ScrollUp {
                            sc.scrollback + 3
                        } else if sc.scrollback >= 3 {
                            sc.scrollback - 3
                        } else {
                            0
                        }) as usize,
                    ),
                ],
            ),
        ),
{
}

/// A press of another button, and whatever is not part of a selection, does nothing
/// on a terminal whose program has neither asked for reports nor set the form of
/// SGR; nothing there changes but the selection in any case.
pub proof fn law_terminal_changes_the_selection_only(
    m: app::AppView,
    e: MouseEvent,
    term: Rect,
    sc: ScreenState,
)
    ensures
        terminal_clicked(m, e, term, sc) matches Some((after, actions)) ==> {
            &&& after == (app::AppView { selection: after.selection, ..m })
            &&& after.selection != m.selection ==> actions.len() == 0 && sc.mouse_mode is Off
            &&& actions.len() <= 1
            &&& actions.len() == 1 ==> actions[0] is Write || actions[0] is SetScrollback
            &&& actions.len() == 1 && actions[0] is Write ==> sc.mouse_encoding is Sgr
        },
{
}

/// A program that has set the form of SGR without asking for reports gets what the
/// mouse does there, where it selects nothing: the middle and the right button
/// change places, and a move is not told.
pub proof fn law_unasked_reports(m: app::AppView, e: MouseEvent, term: Rect, sc: ScreenState)
    requires
        sc.mouse_encoding is Sgr,
        sc.mouse_mode is Off,
        term.x <= e.column,
        term.y <= e.row,
        e.column - term.x < 65535,
        e.row - term.y < 65535,
        e.kind is ScrollUp || e.kind is ScrollDown || e.kind == MouseKind::Down(MouseButton::Right)
            || e.kind == MouseKind::Down(MouseButton::Middle) || e.kind == MouseKind::Up(
            MouseButton::Right,
        ) || e.kind == MouseKind::Up(MouseButton::Middle) || e.kind == MouseKind::Drag(
            MouseButton::Right,
        ) || e.kind == MouseKind::Drag(MouseButton::Middle),
    ensures
        ({
            let code: nat = match e.kind {
                MouseKind::ScrollUp => 64,
                MouseKind::ScrollDown => 65,
                MouseKind::Down(MouseButton::Right) | MouseKind::Up(MouseButton::Right) => 1,
                MouseKind::Down(MouseButton::Middle) | MouseKind::Up(MouseButton::Middle) => 2,
                MouseKind::Drag(MouseButton::Middle) => 33,
                _ => 34,
            };
            let end = if e.kind is Up {
                "m"@
            } else {
                "M"@
            };
            terminal_clicked(m, e, term, sc) == Some(
                (
                    m,
                    seq![
                        app::ActionView::Write(
                            "\x1b[<"@ + text::decimal(code) + ";"@ + text::decimal(
                                (e.column - term.x + 1) as nat,
                            ) + ";"@ + text::decimal((e.row - term.y + 1) as nat) + end,
                        ),
                    ],
                ),
            )
        }),
{
}

/// The terminal's scrollbar: its ends move the view by three rows, its track moves
/// it to the part that is clicked, and the thumb is held until the button is let
/// go of. Nothing else changes.
pub proof fn law_terminal_scrollbar(
    m: app::AppView,
    e: MouseEvent,
    area: Rect,
    sc: ScreenState,
)
    requires
        area.height >= 3,
        area.y + area.height <= 65535,
        sc.scrollback + 3 <= usize::MAX,
    ensures
        ({
            let left = MouseButton::Left;
            let outcome = scrollbar_clicked(m, e, area, sc);
            let held = |on: bool|
                app::AppView { drags: app::Drags { scrollbar: on, ..m.drags }, ..m };
            let last = area.y + area.height - 1;
            let to = |part: int|
                seq![
                    app::ActionView::ScrollToPart {
                        part: part as u16,
                        whole: (area.height - 2) as u16,
                    },
                ];
            let pulls = m.drags.scrollbar && (e.kind == MouseKind::Drag(left) || e.kind is Moved);
            &&& e.kind == MouseKind::Down(left) && e.row == area.y ==> outcome == Some(
                (
                    held(true),
                    seq![app::ActionView::SetScrollback((sc.scrollback + 3) as usize)],
                ),
            )
            &&& e.kind == MouseKind::Down(left) && e.row == last ==> outcome == Some(
                (
                    held(true),
                    seq![
                        app::ActionView::SetScrollback(
                            (if sc.scrollback >= 3 {
                                sc.scrollback - 3
                            } else {
                                0
                            }) as usize,
                        ),
                    ],
                ),
            )
            &&& e.kind == MouseKind::Down(left) && area.y < e.row < last ==> outcome == Some(
                (held(true), to(e.row - area.y - 1)),
            )
            &&& pulls && e.row <= area.y ==> outcome == Some((m, to(0)))
            &&& pulls && area.y < e.row < last ==> outcome == Some((m, to(e.row - area.y - 1)))
            &&& pulls && e.row >= last ==> outcome == Some((m, to(area.height - 3)))
            &&& e.kind == MouseKind::Up(left) ==> outcome == Some(
                (held(false), Seq::<app::ActionView>::empty()),
            )
            &&& !pulls && e.kind != MouseKind::Up(left) && e.kind != MouseKind::Down(left)
                ==> outcome == Some((m, Seq::<app::ActionView>::empty()))
        }),
{
}

} // verus!
