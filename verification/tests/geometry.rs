use turm::geometry::{
    centered_dialog_area, cut_area, rect_contains, screen_layout, screen_of, Constraint, Cut,
    Direction, Rect,
};

fn rect(x: u16, y: u16, width: u16, height: u16) -> Rect {
    Rect { x, y, width, height }
}

#[test]
fn rectangles_are_cut_off_where_coordinates_end() {
    assert_eq!(Rect::new(1, 2, 3, 4), rect(1, 2, 3, 4));
    assert_eq!(Rect::new(65530, 65535, 10, 10), rect(65530, 65535, 5, 0));
    for (x, y, w, h) in [(0, 0, 65535, 65535), (3, 60000, 65535, 9000)] {
        let r = Rect::new(x, y, w, h);
        let o = ratatui::layout::Rect::new(x, y, w, h);
        assert_eq!((r.x, r.y, r.width, r.height), (o.x, o.y, o.width, o.height));
    }
}

#[test]
fn a_rectangle_contains_its_cells_only() {
    let r = rect(2, 3, 4, 2);
    assert!(rect_contains(r, 2, 3));
    assert!(rect_contains(r, 5, 4));
    assert!(!rect_contains(r, 6, 4));
    assert!(!rect_contains(r, 5, 5));
    assert!(!rect_contains(r, 1, 3));
    assert!(!rect_contains(r, 2, 2));
    assert!(!rect_contains(rect(2, 3, 0, 2), 2, 3));
}

#[test]
fn dialogs_lie_in_the_middle() {
    assert_eq!(centered_dialog_area(80, 3, rect(0, 0, 100, 40)), rect(10, 18, 80, 3));
    assert_eq!(centered_dialog_area(80, 3, rect(0, 0, 81, 4)), rect(0, 0, 80, 3));
    assert_eq!(centered_dialog_area(80, 30, rect(5, 6, 60, 20)), rect(5, 6, 60, 20));
}

#[test]
fn the_screen_is_cut_as_planned() {
    assert_eq!(
        Cut::Bottom.plan(),
        (Direction::Vertical, Constraint::Min(3), Constraint::Length(1))
    );
    assert_eq!(
        Cut::Middle.plan(),
        (Direction::Horizontal, Constraint::Min(50), Constraint::Percentage(70))
    );
    assert_eq!(
        Cut::Left.plan(),
        (Direction::Vertical, Constraint::Length(3), Constraint::Min(1))
    );
    assert_eq!(
        Cut::Right.plan(),
        (Direction::Vertical, Constraint::Length(8), Constraint::Min(3))
    );
}

#[test]
fn an_area_is_cut_across() {
    let (above, below) = cut_area(rect(1, 2, 30, 20), Cut::Bottom);
    assert_eq!(above, rect(1, 2, 30, 19));
    assert_eq!(below, rect(1, 21, 30, 1));
    let (left, right) = cut_area(rect(0, 0, 200, 20), Cut::Middle);
    assert_eq!(left.width + right.width, 200);
    assert_eq!((left.y, left.height, right.y, right.height), (0, 20, 0, 20));
    assert_eq!(right.width, 140);
}

#[test]
fn cuts_follow_each_other_and_meet_their_sizes() {
    for cut in [Cut::Bottom, Cut::Middle, Cut::Left, Cut::Right] {
        let (direction, first, second) = cut.plan();
        let mut sizes: Vec<u16> = (0..700).collect();
        sizes.extend([1000, 1001, 9999, 32767, 32768, 65525, 65535]);
        for size in sizes {
            for start in [0u16, 7] {
                if size > 65535 - start {
                    continue;
                }
                let area = match direction {
                    Direction::Horizontal => rect(start, 3, size, 5),
                    Direction::Vertical => rect(3, start, 5, size),
                };
                let (p, q) = cut_area(area, cut);
                let (ps, pe, qs, qe) = match direction {
                    Direction::Horizontal => (p.x, p.width, q.x, q.width),
                    Direction::Vertical => (p.y, p.height, q.y, q.height),
                };
                assert_eq!(ps, start);
                assert_eq!(ps + pe, qs);
                assert_eq!(pe + qe, size);
                match (first, second) {
                    (Constraint::Length(n), Constraint::Min(m)) => {
                        if n + m <= size {
                            assert_eq!(pe, n);
                        } else {
                            assert_eq!(qe, m.min(size));
                        }
                    }
                    (Constraint::Min(m), Constraint::Length(n)) => {
                        if n + m <= size {
                            assert_eq!(qe, n);
                        } else {
                            assert_eq!(pe, m.min(size));
                        }
                    }
                    (Constraint::Min(m), Constraint::Percentage(p)) => {
                        let (m, p, size) = (i64::from(m), i64::from(p), i64::from(size));
                        if 100 * m + p * size <= 100 * size {
                            assert!((100 * i64::from(qe) - p * size).abs() <= 50);
                        } else {
                            assert_eq!(i64::from(pe), m.min(size));
                        }
                    }
                    _ => {}
                }
            }
        }
    }
}

#[test]
fn cuts_stay_among_the_coordinates() {
    let (p, q) = cut_area(rect(65530, 2, 90, 4), Cut::Middle);
    assert_eq!(p.x, 65530);
    assert_eq!(u32::from(p.x) + u32::from(p.width), u32::from(q.x));
    assert!(u32::from(q.x) + u32::from(q.width) <= 65535);
}

#[test]
fn the_list_and_the_log_share_no_cell() {
    for (width, height) in [(0u16, 0u16), (3, 3), (20, 10), (60, 30), (170, 40)] {
        let s = screen_layout(rect(0, 0, width, height));
        for column in 0..width {
            for row in 0..height {
                let hits = [s.help, s.tabs, s.list, s.details, s.log]
                    .iter()
                    .filter(|part| rect_contains(**part, column, row))
                    .count();
                assert_eq!(hits, 1);
            }
        }
    }
}

#[test]
fn a_small_screen_is_laid_out() {
    let sizes = |width: u16, height: u16| {
        let s = screen_layout(rect(0, 0, width, height));
        (s.help.height, s.tabs.height, s.details.height, s.list.width)
    };
    assert_eq!(sizes(0, 0), (0, 0, 0, 0));
    assert_eq!(sizes(20, 3), (0, 2, 0, 20));
    assert_eq!(sizes(49, 4), (1, 2, 0, 49));
    assert_eq!(sizes(50, 5), (1, 3, 1, 50));
    assert_eq!(sizes(166, 11), (1, 3, 7, 50));
    assert_eq!(sizes(170, 12), (1, 3, 8, 51));
}

#[test]
fn the_screen_is_laid_out() {
    let s = screen_layout(rect(0, 0, 200, 50));
    assert_eq!(s.help, rect(0, 49, 200, 1));
    assert_eq!(s.tabs, rect(0, 0, 60, 3));
    assert_eq!(s.list, rect(0, 3, 60, 46));
    assert_eq!(s.details, rect(60, 0, 140, 8));
    assert_eq!(s.log, rect(60, 8, 140, 41));
}

#[test]
fn every_part_lies_on_the_screen() {
    for width in [0u16, 1, 2, 49, 50, 51, 80, 119, 333, 65535] {
        for height in [0u16, 1, 2, 3, 4, 11, 12, 24, 65535] {
            for (x, y) in [(0u16, 0u16), (3, 5)] {
                let area = Rect::new(x, y, width, height);
                let s = screen_layout(area);
                for part in [s.help, s.tabs, s.list, s.details, s.log] {
                    assert!(part.x >= area.x && part.y >= area.y);
                    assert!(part.x - area.x + part.width <= area.width);
                    assert!(part.y - area.y + part.height <= area.height);
                }
                assert_eq!((s.help.x, s.help.width), (area.x, area.width));
                assert_eq!((s.tabs.x, s.tabs.width), (s.list.x, s.list.width));
                assert_eq!((s.details.x, s.details.width), (s.log.x, s.log.width));
            }
        }
    }
}

#[test]
fn parts_of_the_screen_are_put_together() {
    let r = |n: u16| rect(n, n, n, n);
    let s = screen_of((r(1), r(2)), (r(3), r(4)), (r(5), r(6)));
    assert_eq!((s.help, s.tabs, s.list, s.details, s.log), (r(2), r(3), r(4), r(5), r(6)));
}
