//! Where the areas of the screen lie.

use termbookman::handlers::dialogs::{dialog_areas, settings_areas};
use termbookman::ui::calculate_layout;
use termbookman::ui::geometry::{split, Direction, Extent, Rect};
use termbookman::ui::modals::{centered_rect, centered_rect_fixed};
use termbookman::ui::sidebar::sidebar_areas;

fn rect(x: u16, y: u16, width: u16, height: u16) -> Rect {
    Rect { x, y, width, height }
}

fn across(constraints: &[Extent], x: u16, width: u16) -> Vec<(u16, u16)> {
    let parts = split(Direction::Horizontal, 0, &constraints.to_vec(), rect(x, 7, width, 3));
    for part in &parts {
        assert_eq!((part.y, part.height), (7, 3));
    }
    parts.iter().map(|p| (p.x, p.width)).collect()
}

fn nearest(n: u32, d: u32) -> u16 {
    ((2 * n + d) / (2 * d)) as u16
}

/// The parts between cuts that count from `x` on.
fn between(x: u16, cuts: &[u16]) -> Vec<(u16, u16)> {
    cuts.windows(2).map(|w| (x + w[0], w[1] - w[0])).collect()
}

fn length_of(c: Extent) -> Option<u32> {
    match c {
        Extent::Length(n) => Some(n as u32),
        _ => None,
    }
}

fn check_lengths(constraints: &[Extent], x: u16, width: u16) {
    let asked: u32 = constraints.iter().filter_map(|c| length_of(*c)).sum();
    let rests = constraints.iter().filter(|c| length_of(**c).is_none()).count() as u32;
    let parts = across(constraints, x, width);
    if asked <= width as u32 {
        let mut cuts = vec![0u16];
        let mut fixed: u32 = 0;
        let mut shares: u32 = 0;
        for c in constraints {
            match length_of(*c) {
                Some(n) => fixed += n,
                None => shares += 1,
            }
            let share = if rests == 0 { 0 } else { nearest(shares * (width as u32 - asked), rests) };
            cuts.push(fixed as u16 + share);
        }
        assert_eq!(parts, between(x, &cuts), "{:?} of {}", constraints, width);
    } else {
        let mut at = x;
        for (part, c) in parts.iter().zip(constraints) {
            assert_eq!(part.0, at, "{:?} of {}", constraints, width);
            assert!(part.1 as u32 <= length_of(*c).unwrap_or(0), "{:?} of {}", constraints, width);
            at += part.1;
        }
        assert_eq!(at, x + width, "{:?} of {}", constraints, width);
    }
}

#[test]
fn lengths_are_met_and_one_rest_takes_what_is_left() {
    let l = |n: u16| Extent::Length(n);
    let fill = Extent::Fill(1);
    let min = Extent::Min(0);
    for width in 0u16..90 {
        for x in [0u16, 5, 1000] {
            check_lengths(&[fill, l(2)], x, width);
            check_lengths(&[fill, l(30)], x, width);
            check_lengths(&[l(1), l(0), fill, l(1)], x, width);
            check_lengths(&[l(1), l(1)], x, width);
            check_lengths(&[l(10), l(50), min], x, width);
            check_lengths(&[l(0), l(50), min], x, width);
            check_lengths(&[l(1), l(1), min, l(1)], x, width);
            check_lengths(&[l(1), l(2), l(1), l(1), min], x, width);
        }
    }
}

#[test]
fn settings_rows_are_split_at_any_height() {
    let l = |n: u16| Extent::Length(n);
    let rows =
        [l(1), l(2), l(1), l(3), l(1), l(1), l(1), l(3), l(1), l(1), l(1), l(1), l(3), Extent::Min(0)];
    for width in 0u16..40 {
        check_lengths(&rows, 3, width);
    }
}

#[test]
fn rests_share_alike() {
    let l = |n: u16| Extent::Length(n);
    let fill = Extent::Fill(1);
    let min = Extent::Min(0);
    for width in 0u16..100 {
        check_lengths(&[fill, fill], 2, width);
        check_lengths(&[fill, min], 2, width);
        check_lengths(&[min, l(8), fill, l(12), fill], 2, width);
        check_lengths(&[fill, min, fill, l(3), min], 2, width);
        check_lengths(&[l(7), fill, fill, fill, l(7), fill, fill, fill, fill], 2, width);
    }
}

#[test]
fn many_rests_share_alike() {
    for width in [1u16, 50, 77] {
        check_lengths(&vec![Extent::Fill(1); 12], 1, width);
    }
    for width in [30u16, 60, 121, 333] {
        check_lengths(&vec![Extent::Fill(1); 24], 1, width);
    }
}

#[test]
fn many_lengths_are_met_or_give_way() {
    let mut list = vec![Extent::Length(2); 60];
    list.push(Extent::Fill(1));
    list.push(Extent::Min(0));
    check_lengths(&list, 1, 141);
    check_lengths(&list, 1, 90);
}

#[test]
fn percentages_reach_the_nearest_cell() {
    for width in 0u16..130 {
        for list in [vec![50u16, 50], vec![30, 40, 30], vec![35, 30, 35], vec![33, 33, 33], vec![10, 25], vec![100], vec![0, 100, 0], vec![49, 1, 50]] {
            let constraints: Vec<Extent> = list.iter().map(|p| Extent::Percentage(*p)).collect();
            let mut cuts = vec![0u16];
            let mut sum: u32 = 0;
            for p in &list {
                sum += *p as u32;
                cuts.push(nearest(sum * width as u32, 100));
            }
            assert_eq!(across(&constraints, 9, width), between(9, &cuts), "{:?} of {}", list, width);
        }
    }
}

#[test]
fn thirds_reach_the_nearest_cell() {
    for width in 0u16..200 {
        for n in 0usize..4 {
            let cuts: Vec<u16> = (0..=n as u32).map(|k| nearest(k * width as u32, 3)).collect();
            let got = across(&vec![Extent::Ratio(1, 3); n], 4, width);
            assert_eq!(got, between(4, &cuts), "{} of {}", n, width);
        }
    }
}

#[test]
fn a_margin_is_kept_free() {
    let rows = vec![Extent::Length(2), Extent::Min(0)];
    let parts = split(Direction::Vertical, 1, &rows, rect(10, 20, 30, 9));
    assert_eq!(parts, vec![rect(11, 21, 28, 2), rect(11, 23, 28, 5)]);
    let parts = split(Direction::Vertical, 1, &rows, rect(10, 20, 1, 9));
    assert_eq!(parts, vec![rect(0, 0, 0, 0), rect(0, 0, 0, 0)]);
}

#[test]
fn an_area_ends_at_the_last_coordinate() {
    let parts = across(&[Extent::Length(10), Extent::Fill(1)], 65500, 100);
    assert_eq!(parts, vec![(65500, 10), (65510, 25)]);
}

#[test]
fn layout_shares_out_the_screen() {
    for w in [2u16, 3, 40, 41, 120] {
        for s in 2u16..=w {
            for h in [2u16, 3, 24] {
                let (x, y) = (3u16, 5u16);
                let l = calculate_layout(rect(x, y, w, h), s);
                assert_eq!(l.term_area, rect(x, y, w - s, h - 2));
                assert_eq!(l.scrollbar_area, rect(x + w - s, y, 1, h - 2));
                assert_eq!(l.sidebar_area, rect(x + w - s + 1, y, s - 2, h - 2));
                assert_eq!(l.sidebar_scrollbar_area, rect(x + w - 1, y, 1, h - 2));
                assert_eq!(
                    l.status_chunks,
                    vec![rect(x, y + h - 2, w, 1), rect(x, y + h - 1, w, 1)]
                );
            }
        }
    }
}

#[test]
fn dialogs_have_one_place() {
    for w in 0u16..120 {
        for (width, height) in [(50u16, 10u16), (100, 26), (50, 20)] {
            let h = w / 3;
            let r = rect(2, 1, w, h);
            let (in_w, in_h) = (width.min(w), height.min(h));
            assert_eq!(
                centered_rect_fixed(width, height, r),
                rect(2 + (w - in_w) / 2, 1 + (h - in_h) / 2, in_w, in_h)
            );
        }
    }
}

#[test]
fn the_menu_takes_its_percentage() {
    for w in 0u16..120 {
        let h = w / 2;
        let (left, right) = (nearest(30 * w as u32, 100), nearest(70 * w as u32, 100));
        let (top, bottom) = (nearest(35 * h as u32, 100), nearest(65 * h as u32, 100));
        assert_eq!(
            centered_rect(40, 30, rect(1, 2, w, h)),
            rect(1 + left, 2 + top, right - left, bottom - top)
        );
    }
    assert_eq!(centered_rect(40, 30, rect(0, 0, 120, 40)), rect(36, 14, 48, 12));
}

#[test]
fn the_sidebar_is_drawn_where_it_is_clicked() {
    for height in 3u16..40 {
        let area = rect(80, 4, 38, height);
        assert_eq!(
            sidebar_areas(area, true),
            vec![
                rect(80, 4, 38, 1),
                rect(80, 5, 38, 1),
                rect(80, 6, 38, height - 3),
                rect(80, 3 + height, 38, 1),
            ]
        );
        assert_eq!(sidebar_areas(area, false)[2], rect(80, 6, 38, height - 2));
    }
}

#[test]
fn buttons_share_a_row_of_the_dialog() {
    for w in 3u16..80 {
        for h in [7u16, 8, 24, 40] {
            let d = dialog_areas(rect(1, 2, w, h));
            let (x, y, inside) = (d.area.x, d.area.y, d.area.width - 2);
            assert_eq!(d.rows[3], rect(x + 1, y + 5, inside, 1));
            assert_eq!(d.buttons[0], rect(x + 1, y + 5, (inside + 1) / 2, 1));
            assert_eq!(d.buttons[1], rect(x + 1 + (inside + 1) / 2, y + 5, inside / 2, 1));
        }
    }
}

#[test]
fn settings_have_their_fields_in_place() {
    for h in [24u16, 25, 26, 50] {
        let s = settings_areas(rect(0, 3, 120, h));
        let at = |down: u16, height: u16| rect(s.area.x + 2, s.area.y + 2 + down, s.area.width - 4, height);
        assert_eq!(s.rows[3], at(4, 3));
        assert_eq!(s.rows[7], at(10, 3));
        assert_eq!(s.rows[9], at(14, 1));
        assert_eq!(s.rows[12], at(17, 3));
    }
}
