//! Areas of the screen and how they are split.

use vstd::prelude::*;

verus! {

/// An area of the screen.
#[derive(Clone, Copy, PartialEq, Eq, Structural, Debug)]
pub struct Rect {
    pub x: u16,
    pub y: u16,
    pub width: u16,
    pub height: u16,
}

/// Which way an area is split.
#[derive(Clone, Copy, PartialEq, Eq, Structural, Debug)]
pub enum Direction {
    Horizontal,
    Vertical,
}

/// What is asked of one part of a split area.
#[derive(Clone, Copy, PartialEq, Eq, Structural, Debug)]
pub enum Extent {
    Length(u16),
    Fill(u16),
    Min(u16),
    Percentage(u16),
    Ratio(u32, u32),
}

/// A sum that stops at the largest coordinate.
pub open spec fn capped(n: int) -> int {
    if n > 65535 {
        65535
    } else {
        n
    }
}

/// A difference that stops at zero.
pub open spec fn floored(n: int) -> int {
    if n < 0 {
        0
    } else {
        n
    }
}

impl Rect {
    /// The first column to the right of the area.
    pub open spec fn right_edge(self) -> int {
        capped(self.x + self.width)
    }

    /// The first row below the area.
    pub open spec fn bottom_edge(self) -> int {
        capped(self.y + self.height)
    }

    /// The area holds the cell at a column and a row.
    pub open spec fn holds(self, column: u16, row: u16) -> bool {
        self.x <= column < self.right_edge() && self.y <= row < self.bottom_edge()
    }

    /// The first column to the right of the area.
    pub fn right(&self) -> (r: u16)
        ensures
            r == self.right_edge(),
    {
        self.x.saturating_add(self.width)
    }

    /// The first row below the area.
    pub fn bottom(&self) -> (r: u16)
        ensures
            r == self.bottom_edge(),
    {
        self.y.saturating_add(self.height)
    }

    /// Whether the area holds the cell at a column and a row.
    pub fn contains(&self, column: u16, row: u16) -> (r: bool)
        ensures
            r == self.holds(column, row),
    {
        column >= self.x && column < self.right() && row >= self.y && row < self.bottom()
    }

    /// What is left of the area inside a border of one cell.
    pub open spec fn inside_border(self) -> Rect {
        Rect {
            x: (if capped(self.x + 1) <= self.right_edge() {
                capped(self.x + 1)
            } else {
                self.right_edge()
            }) as u16,
            y: (if capped(self.y + 1) <= self.bottom_edge() {
                capped(self.y + 1)
            } else {
                self.bottom_edge()
            }) as u16,
            width: floored(self.width - 2) as u16,
            height: floored(self.height - 2) as u16,
        }
    }

    /// What is left of the area inside a border of one cell.
    pub fn inner(&self) -> (r: Rect)
        ensures
            r == self.inside_border(),
    {
        let x1: u16 = self.x.saturating_add(1);
        let y1: u16 = self.y.saturating_add(1);
        let right: u16 = self.right();
        let bottom: u16 = self.bottom();
        Rect {
            x: if x1 <= right {
                x1
            } else {
                right
            },
            y: if y1 <= bottom {
                y1
            } else {
                bottom
            },
            width: self.width.saturating_sub(2),
            height: self.height.saturating_sub(2),
        }
    }

    /// What is left of the area inside a margin; nothing, at the origin, where
    /// the margin is too wide.
    pub open spec fn inside_margin(self, margin: u16) -> Rect {
        if self.width < capped(2 * margin) || self.height < capped(2 * margin) {
            Rect { x: 0, y: 0, width: 0, height: 0 }
        } else {
            Rect {
                x: capped(self.x + margin) as u16,
                y: capped(self.y + margin) as u16,
                width: (self.width - capped(2 * margin)) as u16,
                height: (self.height - capped(2 * margin)) as u16,
            }
        }
    }
}

/// Where an area begins along a direction.
pub open spec fn start_of(direction: Direction, r: Rect) -> int {
    match direction {
        Direction::Horizontal => r.x as int,
        Direction::Vertical => r.y as int,
    }
}

/// How far an area reaches along a direction.
pub open spec fn size_of(direction: Direction, r: Rect) -> int {
    match direction {
        Direction::Horizontal => r.width as int,
        Direction::Vertical => r.height as int,
    }
}

/// Where an area ends along a direction.
pub open spec fn end_of(direction: Direction, r: Rect) -> int {
    match direction {
        Direction::Horizontal => r.right_edge(),
        Direction::Vertical => r.bottom_edge(),
    }
}

/// The lengths asked for, taken together.
pub open spec fn lengths(constraints: Seq<Extent>) -> int
    decreases constraints.len(),
{
    if constraints.len() == 0 {
        0
    } else {
        lengths(constraints.drop_last()) + match constraints.last() {
            Extent::Length(n) => n as int,
            _ => 0,
        }
    }
}

/// A length is asked for, or else an even share of the space that is left.
pub open spec fn fixed_or_rest(c: Extent) -> bool {
    c is Length || c == Extent::Fill(1) || c == Extent::Min(0)
}

/// Nothing is asked for but lengths and even shares of the rest, and no more
/// than sixty-four of them.
pub open spec fn asks_lengths(constraints: Seq<Extent>) -> bool {
    constraints.len() <= 64 && forall|i: int|
        0 <= i < constraints.len() ==> fixed_or_rest(#[trigger] constraints[i])
}

/// How many shares of the rest are asked for.
pub open spec fn rests(constraints: Seq<Extent>) -> int
    decreases constraints.len(),
{
    if constraints.len() == 0 {
        0
    } else {
        rests(constraints.drop_last()) + (if constraints.last() is Length {
            0int
        } else {
            1
        })
    }
}

/// So few shares of the rest are asked for that the search for the parts can be
/// relied on to end: no more than twenty-four.
pub open spec fn few_rests(constraints: Seq<Extent>) -> bool {
    constraints.len() <= 24 || rests(constraints) <= 24
}

/// The percentages asked for, taken together.
pub open spec fn percents(constraints: Seq<Extent>) -> int
    decreases constraints.len(),
{
    if constraints.len() == 0 {
        0
    } else {
        percents(constraints.drop_last()) + match constraints.last() {
            Extent::Percentage(n) => n as int,
            _ => 0,
        }
    }
}

/// Nothing is asked for but percentages, and no more than the whole.
pub open spec fn asks_percents(constraints: Seq<Extent>) -> bool {
    percents(constraints) <= 100 && forall|i: int|
        0 <= i < constraints.len() ==> (#[trigger] constraints[i]) is Percentage
}

/// Nothing is asked for but thirds, and no more than the whole.
pub open spec fn asks_thirds(constraints: Seq<Extent>) -> bool {
    constraints.len() <= 3 && forall|i: int|
        0 <= i < constraints.len() ==> #[trigger] constraints[i] == Extent::Ratio(1, 3)
}

/// `n / d` to the nearest whole number, a half upwards.
pub open spec fn nearest(n: int, d: int) -> int {
    (2 * n + d) / (2 * d)
}

/// What is asked for can be had of `whole` cells, in one way only.
pub open spec fn is_settled(constraints: Seq<Extent>, whole: int) -> bool {
    asks_percents(constraints) || asks_thirds(constraints) || (asks_lengths(constraints) && lengths(
        constraints,
    ) <= whole)
}

/// How far the first `k` parts of `whole` cells reach, where what is asked for
/// is settled.
pub open spec fn reach(constraints: Seq<Extent>, whole: int, k: int) -> int {
    let first = constraints.take(k);
    if asks_percents(constraints) {
        nearest(percents(first) * whole, 100)
    } else if asks_thirds(constraints) {
        nearest(k * whole, 3)
    } else if rests(constraints) == 0 {
        lengths(first)
    } else {
        lengths(first) + nearest(
            rests(first) * (whole - lengths(constraints)),
            rests(constraints),
        )
    }
}

/// A strip across `inner`, from `start` on.
pub open spec fn strip_across(direction: Direction, inner: Rect, start: int, size: int) -> Rect {
    match direction {
        Direction::Horizontal => Rect { x: start as u16, width: size as u16, ..inner },
        Direction::Vertical => Rect { y: start as u16, height: size as u16, ..inner },
    }
}

/// The cells from the start of an area to its end.
pub open spec fn cells_of(direction: Direction, r: Rect) -> int {
    end_of(direction, r) - start_of(direction, r)
}

/// The parts of `area` where what is asked for is settled.
pub open spec fn settled_parts(
    direction: Direction,
    margin: u16,
    constraints: Seq<Extent>,
    area: Rect,
) -> Seq<Rect> {
    let inner = area.inside_margin(margin);
    let whole = cells_of(direction, inner);
    Seq::new(
        constraints.len(),
        |i: int|
            strip_across(
                direction,
                inner,
                start_of(direction, inner) + reach(constraints, whole, i),
                reach(constraints, whole, i + 1) - reach(constraints, whole, i),
            ),
    )
}

/// `parts` come of splitting what is left of `area` inside `margin` along
/// `direction`, one part for each constraint. Each is a strip across the area.
/// Where what is asked for is settled, the parts are. Where the lengths asked
/// for do not fit, the parts follow one another without a gap from one end of
/// the area to the other; none is longer than asked for, and nothing is left
/// as a rest.
pub open spec fn strips(
    direction: Direction,
    margin: u16,
    constraints: Seq<Extent>,
    area: Rect,
    parts: Seq<Rect>,
) -> bool {
    let inner = area.inside_margin(margin);
    let whole = cells_of(direction, inner);
    &&& parts.len() == constraints.len()
    &&& forall|i: int|
        0 <= i < parts.len() ==> (#[trigger] parts[i]) == strip_across(
            direction,
            inner,
            start_of(direction, parts[i]),
            size_of(direction, parts[i]),
        )
    &&& is_settled(constraints, whole) ==> parts == settled_parts(
        direction,
        margin,
        constraints,
        area,
    )
    &&& asks_lengths(constraints) && lengths(constraints) > whole ==> squeezed(
        direction,
        constraints,
        inner,
        parts,
    )
}

/// `parts` fill `inner` without a gap; none is longer than asked for, and
/// nothing is left as a rest.
pub open spec fn squeezed(
    direction: Direction,
    constraints: Seq<Extent>,
    inner: Rect,
    parts: Seq<Rect>,
) -> bool {
    &&& start_of(direction, parts[0]) == start_of(direction, inner)
    &&& forall|i: int|
        #![trigger parts[i]]
        0 <= i < parts.len() - 1 ==> start_of(direction, parts[i + 1]) == start_of(
            direction,
            parts[i],
        ) + size_of(direction, parts[i])
    &&& start_of(direction, parts.last()) + size_of(direction, parts.last()) == end_of(
        direction,
        inner,
    )
    &&& forall|i: int|
        0 <= i < parts.len() ==> size_of(direction, parts[i]) <= match #[trigger] constraints[i] {
            Extent::Length(n) => n as int,
            _ => 0,
        }
}

/// The width and height that `ratatui::layout::Rect::new` gives an area of more
/// than 65535 cells.
pub uninterp spec fn limited_size(width: u16, height: u16) -> (u16, u16);

/// A new area. One of more than 65535 cells is made smaller.
pub open spec fn new_area(x: u16, y: u16, width: u16, height: u16) -> Rect {
    if width * height <= 65535 {
        Rect { x, y, width, height }
    } else {
        Rect {
            x,
            y,
            width: limited_size(width, height).0,
            height: limited_size(width, height).1,
        }
    }
}

/// `ratatui::layout::Rect::new`. The area begins where it is asked to, and is as
/// large as asked for where it has at most 65535 cells. A larger one gets a size
/// that depends on the one asked for alone.
#[verifier::external_body]
pub(crate) fn new_rect(x: u16, y: u16, width: u16, height: u16) -> (r: Rect)
    ensures
        r.x == x && r.y == y,
        width * height <= 65535 ==> r.width == width && r.height == height,
        width * height > 65535 ==> (r.width, r.height) == limited_size(width, height),
{
    let r = ratatui::layout::Rect::new(x, y, width, height);
    Rect { x: r.x, y: r.y, width: r.width, height: r.height }
}

/// A `ratatui::layout::Constraint`, carried as it is.
#[verifier::external_type_specification]
#[verifier::external_body]
pub struct ExConstraint(ratatui::layout::Constraint);

/// What a `ratatui::layout::Constraint` asks for.
pub uninterp spec fn asked_for(c: ratatui::layout::Constraint) -> Extent;

/// The variant of `ratatui::layout::Constraint` that asks for the same.
#[verifier::external_body]
fn to_constraint(c: Extent) -> (r: ratatui::layout::Constraint)
    ensures
        asked_for(r) == c,
{
    match c {
        Extent::Length(n) => ratatui::layout::Constraint::Length(n),
        Extent::Fill(n) => ratatui::layout::Constraint::Fill(n),
        Extent::Min(n) => ratatui::layout::Constraint::Min(n),
        Extent::Percentage(n) => ratatui::layout::Constraint::Percentage(n),
        Extent::Ratio(n, d) => ratatui::layout::Constraint::Ratio(n, d),
    }
}

/// `ratatui::layout::Layout::split` with the given direction, margin and
/// constraints. The call looks for the positions that break what is asked for
/// the least: that the parts begin at the start of the area and follow one
/// another without a gap weighs most, then lengths, percentages and ratios, then
/// that shares of the rest grow, and grow alike. Where lengths fit, where
/// percentages make up no more than the whole, and of thirds, one choice is best,
/// and each position is its nearest cell. Where lengths do not fit, the shares of
/// the rest come to nothing, and the lengths give way until they fill the area.
/// Which of them gives way is left unsaid: several choices are equally good, and
/// the one that is found hangs on the order of hash maps that each process draws
/// anew. Nothing is said of other mixtures. Each two shares of the rest make a
/// condition of their own, and nothing keeps the search from going in circles:
/// with twenty-eight shares it was seen not to end, now and then. With twenty-four
/// it has ended at all widths tried, so the call is made with no more.
#[verifier::external_body]
fn split_layout(
    direction: Direction,
    margin: u16,
    wanted: Vec<ratatui::layout::Constraint>,
    area: Rect,
) -> (r: Vec<Rect>)
    requires
        few_rests(wanted@.map_values(|c: ratatui::layout::Constraint| asked_for(c))),
    ensures
        strips(
            direction,
            margin,
            wanted@.map_values(|c: ratatui::layout::Constraint| asked_for(c)),
            area,
            r@,
        ),
{
    let towards = match direction {
        Direction::Horizontal => ratatui::layout::Direction::Horizontal,
        Direction::Vertical => ratatui::layout::Direction::Vertical,
    };
    let whole = ratatui::layout::Rect { x: area.x, y: area.y, width: area.width, height: area.height };
    ratatui::layout::Layout::default().direction(towards).margin(margin).constraints(wanted).split(whole)
        .iter().map(|r| Rect { x: r.x, y: r.y, width: r.width, height: r.height }).collect()
}

/// Splits an area as asked.
pub fn split(
    direction: Direction,
    margin: u16,
    constraints: &Vec<Extent>,
    area: Rect,
) -> (r: Vec<Rect>)
    requires
        few_rests(constraints@),
    ensures
        strips(direction, margin, constraints@, area, r@),
{
    let mut wanted: Vec<ratatui::layout::Constraint> = Vec::new();
    let mut i: usize = 0;
    while i < constraints.len()
        invariant
            i <= constraints@.len(),
            wanted@.len() == i,
            forall|k: int| 0 <= k < i ==> asked_for(#[trigger] wanted@[k]) == constraints@[k],
        decreases constraints@.len() - i,
    {
        wanted.push(to_constraint(constraints[i]));
        i = i + 1;
    }
    assert(wanted@.map_values(|c: ratatui::layout::Constraint| asked_for(c)) =~= constraints@);
    split_layout(direction, margin, wanted, area)
}

/// What is asked for of the first parts grows by what is asked for of the next.
pub proof fn lemma_sums_step(constraints: Seq<Extent>, k: int)
    requires
        0 <= k < constraints.len(),
    ensures
        lengths(constraints.take(k + 1)) == lengths(constraints.take(k)) + match constraints[k] {
            Extent::Length(n) => n as int,
            _ => 0,
        },
        rests(constraints.take(k + 1)) == rests(constraints.take(k)) + (if constraints[k] is Length {
            0int
        } else {
            1
        }),
        percents(constraints.take(k + 1)) == percents(constraints.take(k)) + match constraints[k] {
            Extent::Percentage(n) => n as int,
            _ => 0,
        },
{
    assert(constraints.take(k + 1).drop_last() =~= constraints.take(k));
}

/// The first parts are all of them in the end, and none at the start.
pub proof fn lemma_sums_ends(constraints: Seq<Extent>)
    ensures
        constraints.take(constraints.len() as int) == constraints,
        lengths(constraints.take(0)) == 0,
        rests(constraints.take(0)) == 0,
        percents(constraints.take(0)) == 0,
{
    assert(constraints.take(constraints.len() as int) =~= constraints);
}

/// A single share of the rest is all of it.
pub proof fn lemma_reach_one_rest(constraints: Seq<Extent>, whole: int, k: int)
    requires
        asks_lengths(constraints),
        0 <= k <= constraints.len(),
        constraints.len() > 0,
        rests(constraints) <= 1,
    ensures
        rests(constraints) == 1 ==> reach(constraints, whole, k) == lengths(constraints.take(k))
            + rests(constraints.take(k)) * (whole - lengths(constraints)),
        rests(constraints) == 0 ==> reach(constraints, whole, k) == lengths(constraints.take(k)),
{
    assert(fixed_or_rest(constraints[0]));
    let n = rests(constraints.take(k)) * (whole - lengths(constraints));
    assert((2 * n + 1) / 2 == n);
}

/// The parts reach further and further, and not beyond the whole.
proof fn lemma_reach_grows(constraints: Seq<Extent>, whole: int, i: int, j: int)
    requires
        asks_lengths(constraints),
        lengths(constraints) <= whole,
        0 <= i <= j <= constraints.len(),
        constraints.len() > 0,
    ensures
        0 <= reach(constraints, whole, i) <= reach(constraints, whole, j) <= whole,
    decreases j - i, constraints.len() - j, i,
{
    assert(fixed_or_rest(constraints[0]));
    lemma_sums_ends(constraints);
    let n = rests(constraints);
    let left = whole - lengths(constraints);
    if i < j {
        lemma_sums_step(constraints, j - 1);
        lemma_rests_bound(constraints, j - 1);
        lemma_rests_bound(constraints, j);
        let a = rests(constraints.take(j - 1));
        let b = rests(constraints.take(j));
        if n > 0 {
            lemma_nearest_grows(a, b, left, n);
        }
        if i < j - 1 {
            lemma_reach_grows(constraints, whole, i, j - 1);
            lemma_reach_grows(constraints, whole, j, j);
        } else {
            lemma_reach_grows(constraints, whole, i, i);
            lemma_reach_grows(constraints, whole, j, j);
        }
    } else {
        lemma_lengths_bound(constraints, j);
        lemma_rests_bound(constraints, j);
        if n > 0 {
            lemma_nearest_grows(0, rests(constraints.take(j)), left, n);
            lemma_nearest_grows(rests(constraints.take(j)), n, left, n);
            assert((2 * (n * left) + n) / (2 * n) == left) by (nonlinear_arith)
                requires
                    n > 0,
            ;
            assert(nearest(0 * left, n) == 0) by (nonlinear_arith)
                requires
                    n > 0,
            ;
        }
    }
}

proof fn lemma_nearest_grows(a: int, b: int, left: int, n: int)
    requires
        0 <= a <= b,
        0 <= left,
        0 < n,
    ensures
        nearest(a * left, n) <= nearest(b * left, n),
{
    assert(a * left <= b * left) by (nonlinear_arith)
        requires
            0 <= a <= b,
            0 <= left,
    ;
    vstd::arithmetic::div_mod::lemma_div_is_ordered(2 * (a * left) + n, 2 * (b * left) + n, 2 * n);
}

proof fn lemma_rests_bound(constraints: Seq<Extent>, k: int)
    requires
        0 <= k <= constraints.len(),
    ensures
        0 <= rests(constraints.take(k)) <= rests(constraints),
    decreases constraints.len() - k,
{
    lemma_rests_positive(constraints.take(k));
    lemma_sums_ends(constraints);
    if k < constraints.len() {
        lemma_sums_step(constraints, k);
        lemma_rests_bound(constraints, k + 1);
    }
}

proof fn lemma_rests_positive(constraints: Seq<Extent>)
    ensures
        0 <= rests(constraints),
        0 <= lengths(constraints),
    decreases constraints.len(),
{
    if constraints.len() > 0 {
        lemma_rests_positive(constraints.drop_last());
    }
}

proof fn lemma_lengths_bound(constraints: Seq<Extent>, k: int)
    requires
        0 <= k <= constraints.len(),
    ensures
        0 <= lengths(constraints.take(k)) <= lengths(constraints),
    decreases constraints.len() - k,
{
    lemma_rests_positive(constraints.take(k));
    lemma_sums_ends(constraints);
    if k < constraints.len() {
        lemma_sums_step(constraints, k);
        lemma_lengths_bound(constraints, k + 1);
    }
}

/// The parts of an area, where lengths and shares of the rest are asked for,
/// lie inside it, and none reaches into a later one.
pub proof fn law_strips_apart(
    direction: Direction,
    margin: u16,
    constraints: Seq<Extent>,
    area: Rect,
    parts: Seq<Rect>,
    i: int,
    j: int,
)
    requires
        strips(direction, margin, constraints, area, parts),
        asks_lengths(constraints),
        0 <= i <= j < parts.len(),
    ensures
        start_of(direction, area.inside_margin(margin)) <= start_of(direction, parts[i]),
        i < j ==> start_of(direction, parts[i]) + size_of(direction, parts[i]) <= start_of(
            direction,
            parts[j],
        ),
        start_of(direction, parts[j]) + size_of(direction, parts[j]) <= end_of(
            direction,
            area.inside_margin(margin),
        ),
{
    let inner = area.inside_margin(margin);
    let whole = cells_of(direction, inner);
    if lengths(constraints) <= whole {
        lemma_reach_grows(constraints, whole, i, i + 1);
        lemma_reach_grows(constraints, whole, j, j + 1);
        if i < j {
            lemma_reach_grows(constraints, whole, i + 1, j);
        }
        assert(parts == settled_parts(direction, margin, constraints, area));
    } else {
        lemma_squeezed_apart(direction, constraints, inner, parts, 0, i);
        lemma_squeezed_apart(direction, constraints, inner, parts, i, j);
        lemma_squeezed_apart(direction, constraints, inner, parts, j, parts.len() - 1);
    }
}

proof fn lemma_squeezed_apart(
    direction: Direction,
    constraints: Seq<Extent>,
    inner: Rect,
    parts: Seq<Rect>,
    i: int,
    j: int,
)
    requires
        squeezed(direction, constraints, inner, parts),
        0 <= i <= j < parts.len(),
    ensures
        start_of(direction, parts[i]) <= start_of(direction, parts[j]),
        start_of(direction, parts[i]) + size_of(direction, parts[i]) <= start_of(
            direction,
            parts[j],
        ) + size_of(direction, parts[j]),
        i < j ==> start_of(direction, parts[i]) + size_of(direction, parts[i]) <= start_of(
            direction,
            parts[j],
        ),
    decreases j - i,
{
    if i < j {
        lemma_squeezed_apart(direction, constraints, inner, parts, i, j - 1);
    }
}

/// An area that has coordinates holds the cells from its corner on, as many across
/// as it is wide and as many down as it is high; what is left inside a border or a
/// margin lies that far inside.
pub proof fn law_area_holds_its_cells(r: Rect, column: u16, row: u16, margin: u16)
    requires
        r.x + r.width <= 65535,
        r.y + r.height <= 65535,
    ensures
        r.holds(column, row) <==> r.x <= column && column < r.x + r.width && r.y <= row && row < r.y
            + r.height,
        r.width >= 2 && r.height >= 2 ==> r.inside_border() == (Rect {
            x: (r.x + 1) as u16,
            y: (r.y + 1) as u16,
            width: (r.width - 2) as u16,
            height: (r.height - 2) as u16,
        }),
        r.width >= 2 * margin && r.height >= 2 * margin ==> r.inside_margin(margin) == (Rect {
            x: (r.x + margin) as u16,
            y: (r.y + margin) as u16,
            width: (r.width - 2 * margin) as u16,
            height: (r.height - 2 * margin) as u16,
        }),
{
}

} // verus!
