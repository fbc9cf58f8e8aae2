//! Where the panes stand.

use issuegator::layout::{issue_layout, list_window_offset, rect_contains, Area};

fn area(x: u16, y: u16, width: u16, height: u16) -> Area {
    Area { x, y, width, height }
}

/// The rows of a part that asks for at least `min` where the other one asks for `fixed`.
fn growing(min: i64, fixed: i64, length: i64) -> i64 {
    (length - fixed).max(min.min(length))
}

fn expect_layout(size: Area) {
    let ui = issue_layout(size);
    let body = growing(8, 3, size.height as i64) as u16;
    let left = ((45 * size.width as i64 + 50) / 100) as u16;
    assert_eq!(ui.left, area(size.x, size.y, left, body));
    assert_eq!(ui.detail, area(size.x + left, size.y, size.width - left, body));
    assert_eq!(ui.help, area(size.x, size.y + body, size.width, size.height - body));
    let inner = area(
        size.x + left.min(1),
        size.y + body.min(1),
        left.saturating_sub(2),
        body.saturating_sub(2),
    );
    let list = growing(1, 1, inner.height as i64) as u16;
    let line = inner.height - list;
    assert_eq!(ui.search, area(inner.x, inner.y, inner.width, line));
    assert_eq!(ui.results, area(inner.x, inner.y + line, inner.width, list));
}

#[test]
fn panes_of_a_usual_screen() {
    let ui = issue_layout(area(0, 0, 100, 30));
    assert_eq!(ui.left, area(0, 0, 45, 27));
    assert_eq!(ui.search, area(1, 1, 43, 1));
    assert_eq!(ui.results, area(1, 2, 43, 24));
    assert_eq!(ui.detail, area(45, 0, 55, 27));
    assert_eq!(ui.help, area(0, 27, 100, 3));
}

#[test]
fn panes_of_every_low_screen() {
    for height in 0..=40 {
        for width in [0, 1, 2, 3, 80] {
            expect_layout(area(0, 0, width, height));
        }
    }
}

#[test]
fn panes_of_every_narrow_screen() {
    for width in 0..=240 {
        expect_layout(area(0, 0, width, 24));
    }
}

#[test]
fn panes_of_great_screens() {
    for size in [1000, 32767, 32768, 40001, 65534, 65535] {
        expect_layout(area(0, 0, size, 50));
        expect_layout(area(0, 0, 120, size));
        expect_layout(area(0, 0, size, size));
    }
    expect_layout(area(7, 5, 90, 33));
}

#[test]
fn panes_lie_on_the_screen_apart() {
    let ui = issue_layout(area(0, 0, 33, 17));
    for col in 0..40 {
        for row in 0..20 {
            let left = rect_contains(ui.left, col, row);
            let detail = rect_contains(ui.detail, col, row);
            let help = rect_contains(ui.help, col, row);
            let count = left as u8 + detail as u8 + help as u8;
            assert_eq!(count, (col < 33 && row < 17) as u8);
            assert!(left || !rect_contains(ui.search, col, row));
            assert!(left || !rect_contains(ui.results, col, row));
        }
    }
}

#[test]
fn cells_of_an_area() {
    let a = area(2, 3, 4, 5);
    assert!(rect_contains(a, 2, 3));
    assert!(rect_contains(a, 5, 7));
    assert!(!rect_contains(a, 6, 7));
    assert!(!rect_contains(a, 5, 8));
    assert!(!rect_contains(a, 1, 3));
    assert!(!rect_contains(area(2, 3, 0, 5), 2, 3));
    let edge = area(65530, 0, 100, 1);
    assert!(rect_contains(edge, 65534, 0));
    assert!(!rect_contains(edge, 65535, 0));
}

#[test]
fn window_moves_as_little_as_needed() {
    assert_eq!(list_window_offset(0, 0, 10, 0), 0);
    assert_eq!(list_window_offset(5, 3, 0, 20), 0);
    assert_eq!(list_window_offset(5, 3, 10, 20), 3);
    assert_eq!(list_window_offset(2, 3, 10, 20), 2);
    assert_eq!(list_window_offset(13, 3, 10, 20), 4);
    assert_eq!(list_window_offset(19, 0, 10, 20), 10);
    assert_eq!(list_window_offset(19, 100, 10, 20), 10);
    assert_eq!(list_window_offset(4, 4, 10, 5), 0);
    assert_eq!(list_window_offset(1, 9, usize::MAX, 20), 0);
}

#[test]
fn selected_entry_is_in_the_window() {
    for total in 1..8usize {
        for height in 1..9usize {
            for selected in 0..total {
                for current in 0..10usize {
                    let offset = list_window_offset(selected, current, height, total);
                    assert!(offset <= selected && selected < offset + height);
                    assert!(offset + height <= total || offset == 0);
                    assert_eq!(list_window_offset(selected, offset, height, total), offset);
                    for other in 0..=total.saturating_sub(height) {
                        if other <= selected && selected < other + height {
                            assert!(offset.abs_diff(current) <= other.abs_diff(current));
                        }
                    }
                }
            }
        }
    }
}
