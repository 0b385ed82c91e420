use wallity::ui::window::{
    is_in_view, keeps_thumbnail, load_window, render_window, scroll_target, RenderWindow, Viewport,
};

fn at(offset_y: u32, height: u32) -> Viewport {
    Viewport { offset_y, height }
}

#[test]
fn window_at_top_of_long_list() {
    // rows 0..=3 are on screen: 16 items, and 10 more behind them
    assert_eq!(load_window(at(0, 600), 155, 4, 10, 100), (0, 26));
}

#[test]
fn window_is_cut_at_end_of_list() {
    assert_eq!(load_window(at(0, 600), 155, 4, 10, 25), (0, 25));
    assert_eq!(load_window(at(0, 600), 155, 4, 10, 0), (0, 0));
    assert_eq!(load_window(at(1550, 600), 155, 4, 10, 50), (30, 50));
}

#[test]
fn window_in_the_middle() {
    assert_eq!(load_window(at(1550, 600), 155, 4, 10, 1000), (30, 66));
    assert_eq!(load_window(at(1551, 600), 155, 4, 10, 1000), (30, 66));
    assert_eq!(load_window(at(1549, 600), 155, 4, 10, 1000), (26, 66));
}

#[test]
fn window_past_end_of_list_is_empty_at_the_end() {
    assert_eq!(load_window(at(1550, 600), 155, 4, 10, 20), (20, 20));
}

#[test]
fn bottom_edge_is_rounded_up_to_whole_rows() {
    assert_eq!(load_window(at(0, 620), 155, 4, 10, 100), (0, 26));
    assert_eq!(load_window(at(0, 621), 155, 4, 10, 100), (0, 30));
    assert_eq!(load_window(at(0, 0), 155, 4, 10, 100), (0, 10));
}

#[test]
fn window_without_buffer_is_the_visible_range() {
    assert_eq!(load_window(at(1550, 600), 155, 4, 0, 1000), (40, 56));
    assert_eq!(load_window(at(1550, 0), 155, 4, 0, 1000), (40, 40));
}

#[test]
fn window_for_extreme_sizes() {
    let far = at(u32::MAX, u32::MAX);
    assert_eq!(load_window(far, 1, usize::MAX, usize::MAX, usize::MAX), (usize::MAX, usize::MAX));
    assert_eq!(load_window(far, 1, usize::MAX, 0, 7), (7, 7));
    assert_eq!(load_window(far, u32::MAX, 1, 0, 7), (1, 2));
    assert_eq!(load_window(at(0, 600), 155, 0, 10, 100), (0, 10));
}

#[test]
fn items_on_screen() {
    let top = at(0, 600);
    assert!(is_in_view(0, top, 155, 4));
    assert!(is_in_view(15, top, 155, 4));
    assert!(!is_in_view(16, top, 155, 4));
    let middle = at(1550, 600);
    assert!(!is_in_view(39, middle, 155, 4));
    assert!(is_in_view(40, middle, 155, 4));
    assert!(is_in_view(55, middle, 155, 4));
    assert!(!is_in_view(56, middle, 155, 4));
}

#[test]
fn row_that_starts_at_the_bottom_edge_is_not_on_screen() {
    // row 4 starts at pixel 620
    assert!(!is_in_view(16, at(0, 620), 155, 4));
    assert!(is_in_view(16, at(0, 621), 155, 4));
    assert!(is_in_view(16, at(1, 620), 155, 4));
}

#[test]
fn row_cut_by_the_top_edge_is_on_screen() {
    assert!(is_in_view(0, at(154, 600), 155, 4));
    assert!(!is_in_view(3, at(155, 600), 155, 4));
    assert!(is_in_view(4, at(155, 600), 155, 4));
}

#[test]
fn nothing_is_on_screen_of_an_empty_viewport_or_grid() {
    assert!(!is_in_view(0, at(0, 0), 155, 4));
    assert!(!is_in_view(0, at(0, 600), 155, 0));
    assert!(is_in_view(0, at(0, 1), 155, 4));
}

#[test]
fn thumbnails_are_kept_up_to_slack_from_window() {
    let window = (30, 70);
    assert!(!keeps_thumbnail(9, window, 20));
    assert!(keeps_thumbnail(10, window, 20));
    assert!(keeps_thumbnail(29, window, 20));
    assert!(keeps_thumbnail(30, window, 20));
    assert!(keeps_thumbnail(70, window, 20));
    assert!(keeps_thumbnail(90, window, 20));
    assert!(!keeps_thumbnail(91, window, 20));
}

#[test]
fn slack_near_the_limits_of_usize() {
    assert!(keeps_thumbnail(0, (0, 0), usize::MAX));
    assert!(keeps_thumbnail(usize::MAX, (0, usize::MAX), 0));
    assert!(keeps_thumbnail(usize::MAX, (0, usize::MAX - 1), 1));
    assert!(!keeps_thumbnail(usize::MAX, (0, usize::MAX - 2), 1));
    assert!(!keeps_thumbnail(0, (usize::MAX, usize::MAX), usize::MAX - 1));
}

#[test]
fn scroll_target_is_top_of_the_items_row() {
    assert_eq!(scroll_target(0, 4, 155), 0);
    assert_eq!(scroll_target(3, 4, 155), 0);
    assert_eq!(scroll_target(4, 4, 155), 155);
    assert_eq!(scroll_target(9, 4, 155), 310);
    assert_eq!(scroll_target(50, 4, 155), 1860);
}

#[test]
fn scroll_target_stops_at_largest_offset() {
    assert_eq!(scroll_target(usize::MAX, 1, 155), u32::MAX);
    assert_eq!(scroll_target(usize::MAX, 1, 0), 0);
}

#[test]
fn drawn_rows_for_initial_window() {
    assert_eq!(
        render_window((0, 20), 10, 4),
        RenderWindow { start_row: 0, end_row: 3, total_rows: 3, start_idx: 0, end_idx: 10 }
    );
}

#[test]
fn drawn_rows_in_the_middle() {
    assert_eq!(
        render_window((30, 70), 1000, 4),
        RenderWindow { start_row: 7, end_row: 18, total_rows: 250, start_idx: 28, end_idx: 72 }
    );
}

#[test]
fn drawn_rows_of_empty_list() {
    assert_eq!(
        render_window((0, 20), 0, 4),
        RenderWindow { start_row: 0, end_row: 0, total_rows: 0, start_idx: 0, end_idx: 0 }
    );
}

#[test]
fn drawn_rows_near_the_limits_of_usize() {
    let window = render_window((0, usize::MAX), usize::MAX, 2);
    assert_eq!(window.total_rows, usize::MAX / 2 + 1);
    assert_eq!(window.end_row, usize::MAX / 2 + 1);
    assert_eq!(window.end_idx, usize::MAX);
}
