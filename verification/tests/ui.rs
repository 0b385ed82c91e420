use wallity::constants::IMAGES_PER_ROW;
use wallity::message::{Command, Key, Message, Named, ThumbnailRequest};
use wallity::ui::navigation::Direction;
use wallity::ui::window::{RenderWindow, Viewport};
use wallity::ui::AppView;
use wallity::wallpaper_image::{Thumbnail, WallpaperImage};

type Handle = Vec<u8>;

fn create_dummy_image(name: &str) -> WallpaperImage<Handle> {
    WallpaperImage::new(name.to_string(), name.to_string(), name.to_string())
}

fn view_with(count: usize) -> AppView<Handle> {
    let mut view = AppView::new();
    for i in 0..count {
        let _ = view.update(Message::WallpaperDiscovered(create_dummy_image(&i.to_string())));
    }
    view
}

fn resident(view: &AppView<Handle>) -> Vec<usize> {
    (0..view.images().len()).filter(|&i| view.images()[i].is_visible()).collect()
}

#[test]
fn ui_test_app_view_new() {
    let view = AppView::<Handle>::new();
    assert!(view.images().is_empty());
    assert_eq!(view.selected_idx(), 0);
    assert_eq!(view.visible_range(), (0, 20));
}

#[test]
fn ui_test_app_view_update_discovered() {
    let mut view = AppView::<Handle>::new();
    let image = create_dummy_image("test.jpg");

    let _ = view.update(Message::WallpaperDiscovered(image));
    assert_eq!(view.images().len(), 1);
    assert_eq!(view.images()[0].name, "test.jpg");
}

#[test]
fn ui_test_app_view_update_hover() {
    let mut view = AppView::<Handle>::new();
    let _ = view.update(Message::WallpaperDiscovered(create_dummy_image("1")));
    let _ = view.update(Message::WallpaperDiscovered(create_dummy_image("2")));

    let _ = view.update(Message::ImageHovered(Some(1)));
    assert_eq!(view.selected_idx(), 1);

    let _ = view.update(Message::ImageHovered(None));
    assert_eq!(view.selected_idx(), 1);
}

#[test]
fn ui_test_app_view_update_key_navigation() {
    let mut view = AppView::<Handle>::new();
    for i in 0..10 {
        let _ = view.update(Message::WallpaperDiscovered(create_dummy_image(&i.to_string())));
    }

    // Down
    let _ = view.update(Message::KeyPressed(Key::Named(Named::ArrowDown)));
    assert_eq!(view.selected_idx(), IMAGES_PER_ROW);

    // Right
    let _ = view.update(Message::KeyPressed(Key::Named(Named::ArrowRight)));
    assert_eq!(view.selected_idx(), IMAGES_PER_ROW + 1);

    // Up
    let _ = view.update(Message::KeyPressed(Key::Named(Named::ArrowUp)));
    assert_eq!(view.selected_idx(), 1);

    // Left
    let _ = view.update(Message::KeyPressed(Key::Named(Named::ArrowLeft)));
    assert_eq!(view.selected_idx(), 0);

    // Left at 0
    let _ = view.update(Message::KeyPressed(Key::Named(Named::ArrowLeft)));
    assert_eq!(view.selected_idx(), 0);
}

#[test]
fn ui_test_app_view_update_key_navigation_edge_cases() {
    let mut view = AppView::<Handle>::new();
    for i in 0..2 {
        let _ = view.update(Message::WallpaperDiscovered(create_dummy_image(&i.to_string())));
    }

    // ArrowDown at row 0 with only 2 images (IMAGES_PER_ROW is 4)
    // target_idx = 0 + 4 = 4. 4 >= 2, so selected_idx = 2 - 1 = 1.
    let _ = view.update(Message::KeyPressed(Key::Named(Named::ArrowDown)));
    assert_eq!(view.selected_idx(), 1);

    // ArrowRight at the end
    let _ = view.update(Message::KeyPressed(Key::Named(Named::ArrowRight)));
    assert_eq!(view.selected_idx(), 1);

    // Enter
    let _ = view.update(Message::KeyPressed(Key::Named(Named::Enter)));
    // Should just return a task, no state change here
    assert_eq!(view.selected_idx(), 1);
}

#[test]
fn ui_test_app_view_update_thumbnail_loaded() {
    let mut view = AppView::<Handle>::new();
    let _ = view.update(Message::WallpaperDiscovered(create_dummy_image("1")));

    let handle: Handle = vec![0, 0, 0, 0];
    let _ = view.update(Message::ThumbnailLoaded(0, handle));

    assert!(view.images()[0].thumbnail_handle().is_some());
    assert!(view.images()[0].is_visible());
    assert!(!view.images()[0].is_loading());
}

#[test]
fn tests_test_app_view_new() {
    let view = AppView::<Handle>::new();
    assert!(view.images().is_empty());
    assert_eq!(view.selected_idx(), 0);
    assert_eq!(view.visible_range(), (0, 20));
}

#[test]
fn tests_test_app_view_update_discovered() {
    let mut view = AppView::<Handle>::new();
    let image = create_dummy_image("test.jpg");

    let _ = view.update(Message::WallpaperDiscovered(image));
    assert_eq!(view.images().len(), 1);
    assert_eq!(view.images()[0].name, "test.jpg");
}

#[test]
fn tests_test_app_view_update_hover() {
    let mut view = AppView::<Handle>::new();
    let _ = view.update(Message::WallpaperDiscovered(create_dummy_image("1")));
    let _ = view.update(Message::WallpaperDiscovered(create_dummy_image("2")));

    let _ = view.update(Message::ImageHovered(Some(1)));
    assert_eq!(view.selected_idx(), 1);

    let _ = view.update(Message::ImageHovered(None));
    assert_eq!(view.selected_idx(), 1);
}

#[test]
fn tests_test_app_view_update_key_navigation() {
    let mut view = AppView::<Handle>::new();
    for i in 0..10 {
        let _ = view.update(Message::WallpaperDiscovered(create_dummy_image(&i.to_string())));
    }

    let _ = view.update(Message::KeyPressed(Key::Named(Named::ArrowDown)));
    assert_eq!(view.selected_idx(), IMAGES_PER_ROW);

    let _ = view.update(Message::KeyPressed(Key::Named(Named::ArrowRight)));
    assert_eq!(view.selected_idx(), IMAGES_PER_ROW + 1);

    let _ = view.update(Message::KeyPressed(Key::Named(Named::ArrowUp)));
    assert_eq!(view.selected_idx(), 1);

    let _ = view.update(Message::KeyPressed(Key::Named(Named::ArrowLeft)));
    assert_eq!(view.selected_idx(), 0);

    let _ = view.update(Message::KeyPressed(Key::Named(Named::ArrowLeft)));
    assert_eq!(view.selected_idx(), 0);
}

#[test]
fn tests_test_app_view_update_key_navigation_edge_cases() {
    let mut view = AppView::<Handle>::new();
    for i in 0..2 {
        let _ = view.update(Message::WallpaperDiscovered(create_dummy_image(&i.to_string())));
    }

    let _ = view.update(Message::KeyPressed(Key::Named(Named::ArrowDown)));
    assert_eq!(view.selected_idx(), 1);

    let _ = view.update(Message::KeyPressed(Key::Named(Named::ArrowRight)));
    assert_eq!(view.selected_idx(), 1);

    let _ = view.update(Message::KeyPressed(Key::Named(Named::Enter)));
    assert_eq!(view.selected_idx(), 1);
}

#[test]
fn tests_test_app_view_update_thumbnail_loaded() {
    let mut view = AppView::<Handle>::new();
    let _ = view.update(Message::WallpaperDiscovered(create_dummy_image("1")));

    let handle: Handle = vec![0, 0, 0, 0];
    let _ = view.update(Message::ThumbnailLoaded(0, handle));

    assert!(view.images()[0].thumbnail_handle().is_some());
    assert!(view.images()[0].is_visible());
    assert!(!view.images()[0].is_loading());
}

#[test]
fn arrival_inside_the_window_asks_for_a_load_pass() {
    let mut view = AppView::<Handle>::new();
    for i in 0..20 {
        let command = view.update(Message::WallpaperDiscovered(create_dummy_image(&i.to_string())));
        assert_eq!(command, Command::LoadVisibleThumbnails);
    }
    let command = view.update(Message::WallpaperDiscovered(create_dummy_image("20")));
    assert_eq!(command, Command::Idle);
    assert_eq!(view.images().len(), 21);
}

#[test]
fn load_pass_requests_unloaded_thumbnails_in_the_window() {
    let mut view = view_with(25);
    let command = view.update(Message::LoadVisibleThumbnails);
    let expected: Vec<ThumbnailRequest> = (0..20)
        .map(|i| ThumbnailRequest { index: i, thumbnail_path: i.to_string() })
        .collect();
    assert_eq!(command, Command::LoadThumbnails(expected));
    for i in 0..20 {
        assert!(view.images()[i].is_loading());
    }
    for i in 20..25 {
        assert_eq!(view.images()[i].thumbnail, Thumbnail::Unloaded);
    }
}

#[test]
fn load_pass_requests_nothing_twice() {
    let mut view = view_with(3);
    let _ = view.update(Message::LoadVisibleThumbnails);
    let _ = view.update(Message::ThumbnailLoaded(1, vec![1]));
    assert_eq!(view.update(Message::LoadVisibleThumbnails), Command::LoadThumbnails(Vec::new()));
    assert!(view.images()[0].is_loading());
    assert!(view.images()[1].is_visible());
}

#[test]
fn load_pass_on_empty_view() {
    let mut view = AppView::<Handle>::new();
    assert_eq!(view.update(Message::LoadVisibleThumbnails), Command::LoadThumbnails(Vec::new()));
}

#[test]
fn failed_load_is_requested_again_by_next_pass() {
    let mut view = view_with(2);
    let _ = view.update(Message::LoadVisibleThumbnails);
    assert_eq!(view.update(Message::ThumbnailFailed(1)), Command::Idle);
    assert_eq!(view.images()[1].thumbnail, Thumbnail::Unloaded);
    assert_eq!(
        view.update(Message::LoadVisibleThumbnails),
        Command::LoadThumbnails(vec![ThumbnailRequest {
            index: 1,
            thumbnail_path: String::from("1")
        }])
    );
}

#[test]
fn answers_for_unknown_indices_are_ignored() {
    let mut view = view_with(2);
    assert_eq!(view.update(Message::ThumbnailLoaded(2, vec![9])), Command::Idle);
    assert_eq!(view.update(Message::ThumbnailFailed(7)), Command::Idle);
    assert_eq!(view.update(Message::ImageHovered(Some(2))), Command::Idle);
    assert_eq!(view.selected_idx(), 0);
    assert_eq!(resident(&view), Vec::<usize>::new());
}

#[test]
fn late_thumbnail_is_taken_even_if_not_requested() {
    let mut view = view_with(1);
    let _ = view.update(Message::ThumbnailLoaded(0, vec![5]));
    assert_eq!(view.images()[0].thumbnail, Thumbnail::Resident(vec![5]));
}

#[test]
fn scroll_moves_the_window_and_asks_for_a_load_pass() {
    let mut view = view_with(100);
    let command = view.update(Message::ScrolledTo(Viewport { offset_y: 0, height: 600 }));
    assert_eq!(command, Command::LoadVisibleThumbnails);
    assert_eq!(view.visible_range(), (0, 26));
    let command = view.update(Message::ScrolledTo(Viewport { offset_y: 1550, height: 600 }));
    assert_eq!(command, Command::LoadVisibleThumbnails);
    assert_eq!(view.visible_range(), (30, 66));
    assert_eq!(view.scroll_offset(), 1550);
}

#[test]
fn same_scroll_position_twice_does_nothing_more() {
    let mut view = view_with(100);
    let position = Viewport { offset_y: 775, height: 600 };
    assert_eq!(view.update(Message::ScrolledTo(position)), Command::LoadVisibleThumbnails);
    let range = view.visible_range();
    let _ = view.update(Message::LoadVisibleThumbnails);
    for i in range.0..range.1 {
        let _ = view.update(Message::ThumbnailLoaded(i, vec![1]));
    }
    let before = resident(&view);
    assert_eq!(view.update(Message::ScrolledTo(position)), Command::Idle);
    assert_eq!(view.visible_range(), range);
    assert_eq!(resident(&view), before);
    assert_eq!(view.update(Message::LoadVisibleThumbnails), Command::LoadThumbnails(Vec::new()));
}

#[test]
fn small_scroll_inside_a_row_keeps_the_window() {
    let mut view = view_with(100);
    let _ = view.update(Message::ScrolledTo(Viewport { offset_y: 1551, height: 600 }));
    assert_eq!(
        view.update(Message::ScrolledTo(Viewport { offset_y: 1560, height: 600 })),
        Command::Idle
    );
    assert_eq!(view.scroll_offset(), 1560);
}

#[test]
fn thumbnails_within_slack_survive_a_scroll() {
    let mut view = view_with(200);
    let _ = view.update(Message::ScrolledTo(Viewport { offset_y: 0, height: 600 }));
    for i in 0..30 {
        let _ = view.update(Message::ThumbnailLoaded(i, vec![1]));
    }
    let _ = view.update(Message::ThumbnailLoaded(150, vec![1]));
    let _ = view.update(Message::ThumbnailLoaded(86, vec![1]));
    let _ = view.update(Message::ThumbnailLoaded(87, vec![1]));
    // the window becomes 30..66; thumbnails stay from 10 to 86
    let _ = view.update(Message::ScrolledTo(Viewport { offset_y: 1550, height: 600 }));
    assert_eq!(view.visible_range(), (30, 66));
    let mut kept: Vec<usize> = (10..30).collect();
    kept.push(86);
    assert_eq!(resident(&view), kept);
    assert_eq!(view.images()[87].thumbnail, Thumbnail::Unloaded);
    assert_eq!(view.images()[9].thumbnail, Thumbnail::Unloaded);
    assert_eq!(view.images()[150].thumbnail, Thumbnail::Unloaded);
}

#[test]
fn scroll_does_not_interrupt_a_load() {
    let mut view = view_with(200);
    let _ = view.update(Message::LoadVisibleThumbnails);
    let _ = view.update(Message::ScrolledTo(Viewport { offset_y: 15500, height: 600 }));
    assert!(view.images()[0].is_loading());
}

#[test]
fn arrival_after_a_scroll_lies_outside_the_window() {
    let mut view = view_with(5);
    let _ = view.update(Message::ScrolledTo(Viewport { offset_y: 0, height: 600 }));
    assert_eq!(view.visible_range(), (0, 5));
    let command = view.update(Message::WallpaperDiscovered(create_dummy_image("5")));
    assert_eq!(command, Command::Idle);
}

#[test]
fn move_asks_to_bring_the_selection_on_screen() {
    let mut view = view_with(10);
    assert_eq!(
        view.update(Message::KeyPressed(Key::Named(Named::ArrowDown))),
        Command::ScrollToVisible
    );
    assert_eq!(view.update(Message::KeyPressed(Key::Named(Named::ArrowUp))), Command::ScrollToVisible);
    assert_eq!(view.update(Message::KeyPressed(Key::Named(Named::ArrowUp))), Command::Idle);
    assert_eq!(view.update(Message::KeyPressed(Key::Named(Named::ArrowLeft))), Command::Idle);
    assert_eq!(
        view.update(Message::KeyPressed(Key::Named(Named::ArrowRight))),
        Command::ScrollToVisible
    );
}

#[test]
fn keys_on_empty_view() {
    let mut view = AppView::<Handle>::new();
    for named in [Named::ArrowUp, Named::ArrowDown, Named::ArrowLeft, Named::ArrowRight] {
        assert_eq!(view.update(Message::KeyPressed(Key::Named(named))), Command::Idle);
        assert_eq!(view.selected_idx(), 0);
    }
}

#[test]
fn other_keys() {
    let mut view = view_with(3);
    assert_eq!(view.update(Message::KeyPressed(Key::Named(Named::Enter))), Command::WallpaperSelected);
    assert_eq!(view.update(Message::KeyPressed(Key::Named(Named::Escape))), Command::Exit);
    assert_eq!(view.update(Message::KeyPressed(Key::Named(Named::Other))), Command::Idle);
    assert_eq!(view.update(Message::KeyPressed(Key::Character(String::from("q")))), Command::Idle);
    assert_eq!(view.update(Message::KeyPressed(Key::Unidentified)), Command::Idle);
    assert_eq!(view.selected_idx(), 0);
}

#[test]
fn selecting_applies_the_selected_wallpaper() {
    let mut view = AppView::<Handle>::new();
    assert_eq!(view.update(Message::WallpaperSelected), Command::Idle);
    let _ = view.update(Message::WallpaperDiscovered(WallpaperImage::new(
        String::from("a.png"),
        String::from("/w/a.png"),
        String::from("/c/a.jpeg"),
    )));
    let _ = view.update(Message::WallpaperDiscovered(WallpaperImage::new(
        String::from("b.png"),
        String::from("/w/b.png"),
        String::from("/c/b.jpeg"),
    )));
    let _ = view.update(Message::ImageHovered(Some(1)));
    assert_eq!(
        view.update(Message::WallpaperSelected),
        Command::ApplyWallpaper { img_path: String::from("/w/b.png") }
    );
    assert_eq!(view.selected_name(), "b.png");
}

#[test]
fn selected_name_of_empty_view() {
    assert_eq!(AppView::<Handle>::new().selected_name(), "");
}

#[test]
fn selection_on_screen_needs_no_scroll() {
    let mut view = view_with(100);
    let _ = view.update(Message::ImageHovered(Some(15)));
    assert_eq!(view.update(Message::ScrollToVisible), Command::Idle);
}

#[test]
fn selection_in_first_row_below_the_viewport_is_scrolled_to() {
    // row 4 starts at pixel 620, below a viewport of 600 pixels
    let mut view = view_with(20);
    let _ = view.update(Message::ImageHovered(Some(16)));
    assert_eq!(view.update(Message::ScrollToVisible), Command::ScrollTo { offset_y: 620 });
}

#[test]
fn selection_above_the_viewport_is_scrolled_to() {
    let mut view = view_with(100);
    let _ = view.update(Message::ScrolledTo(Viewport { offset_y: 1550, height: 600 }));
    let _ = view.update(Message::ImageHovered(Some(39)));
    assert_eq!(view.update(Message::ScrollToVisible), Command::ScrollTo { offset_y: 1395 });
    let _ = view.update(Message::ImageHovered(Some(40)));
    assert_eq!(view.update(Message::ScrollToVisible), Command::Idle);
}

#[test]
fn selection_off_screen_is_scrolled_to_its_row() {
    let mut view = view_with(100);
    let _ = view.update(Message::ImageHovered(Some(50)));
    assert_eq!(view.update(Message::ScrollToVisible), Command::ScrollTo { offset_y: 1860 });
    let _ = view.update(Message::ScrolledTo(Viewport { offset_y: 1860, height: 600 }));
    assert_eq!(view.update(Message::ScrollToVisible), Command::Idle);
    let _ = view.update(Message::ImageHovered(Some(47)));
    assert_eq!(view.update(Message::ScrollToVisible), Command::ScrollTo { offset_y: 1705 });
}

#[test]
fn drawn_part_follows_the_window() {
    let mut view = view_with(10);
    assert_eq!(
        view.render_window(),
        RenderWindow { start_row: 0, end_row: 3, total_rows: 3, start_idx: 0, end_idx: 10 }
    );
    let _ = view.update(Message::ScrolledTo(Viewport { offset_y: 0, height: 600 }));
    assert_eq!(view.visible_range(), (0, 10));
    assert_eq!(
        view.render_window(),
        RenderWindow { start_row: 0, end_row: 3, total_rows: 3, start_idx: 0, end_idx: 10 }
    );
    let mut more = view_with(1000);
    let _ = more.update(Message::ScrolledTo(Viewport { offset_y: 1550, height: 600 }));
    assert_eq!(
        more.render_window(),
        RenderWindow { start_row: 7, end_row: 17, total_rows: 250, start_idx: 28, end_idx: 68 }
    );
}

#[test]
fn move_selection_by_direction() {
    let mut view = view_with(10);
    assert_eq!(view.move_selection(Direction::Down), Command::ScrollToVisible);
    assert_eq!(view.selected_idx(), 4);
    assert_eq!(view.move_selection(Direction::Down), Command::ScrollToVisible);
    assert_eq!(view.selected_idx(), 8);
    assert_eq!(view.move_selection(Direction::Down), Command::ScrollToVisible);
    assert_eq!(view.selected_idx(), 9);
    assert_eq!(view.move_selection(Direction::Down), Command::Idle);
    assert_eq!(view.selected_idx(), 9);
    assert_eq!(view.move_selection(Direction::Right), Command::Idle);
}
