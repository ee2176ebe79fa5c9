use tile_grid::columnlist::{ColumnList, DrawCall, GRID_ROWS, GRID_TOP};
use tile_grid::fixed::ONE;
use tile_grid::input::Direction;
use tile_grid::posteritem::{PosterItem, SCALE_FOCUS, SCALE_IDLE};
use tile_grid::rowlist::RowList;
use tile_grid::scroll::{ScrollRule, LANE_HEIGHT};
use tile_grid::texture_manager::{SharedTexture, TextureManager};

const U: i64 = 1_000_000;

fn active_rows(grid: &ColumnList) -> Vec<usize> {
    grid.rows()
        .iter()
        .enumerate()
        .filter(|(_, row)| row.is_active())
        .map(|(i, _)| i)
        .collect()
}

fn focused_tiles(grid: &ColumnList) -> Vec<(usize, usize)> {
    let mut found = Vec::new();
    for (i, row) in grid.rows().iter().enumerate() {
        for (j, tile) in row.items().iter().enumerate() {
            if tile.is_selected() {
                found.push((i, j));
            }
        }
    }
    found
}

fn small_grid(sizes: &[usize]) -> ColumnList {
    let mut rows = Vec::new();
    for (r, &size) in sizes.iter().enumerate() {
        let mut items = Vec::new();
        for i in 0..size {
            items.push(PosterItem::new(
                i as i64 * 320 * U,
                r as i64 * 480 * U,
                300 * U,
                200 * U,
                "a.jpg",
                false,
            ));
        }
        rows.push(RowList::with_items(items, ScrollRule::tiles()));
    }
    ColumnList::with_rows(rows, ScrollRule::lanes()).unwrap()
}

#[test]
fn new_grid_has_twenty_rows_with_the_first_active() {
    let grid = ColumnList::new();
    assert_eq!(grid.rows().len(), 20);
    assert_eq!(GRID_ROWS, 20);
    assert_eq!(grid.selected_row_index(), 0);
    assert_eq!(grid.scroll_y(), 0);
    assert_eq!(grid.target_scroll_y(), 0);
    assert_eq!(grid.rule().pitch(), LANE_HEIGHT);
    assert_eq!(active_rows(&grid), vec![0]);
    for (i, row) in grid.rows().iter().enumerate() {
        assert_eq!(row.items().len(), 10);
        assert_eq!(row.selected_index(), 0);
        for tile in row.items().iter() {
            assert_eq!(tile.y(), 50 * U + i as i64 * 480 * U);
            assert_eq!(tile.y(), GRID_TOP + i as i64 * LANE_HEIGHT);
        }
    }
}

#[test]
fn grid_without_rows_does_not_exist() {
    assert!(ColumnList::with_rows(Vec::new(), ScrollRule::lanes()).is_none());
}

#[test]
fn with_rows_activates_only_the_first_row() {
    let mut first = RowList::new(0);
    let mut second = RowList::new(480 * U);
    second.set_active(true);
    second.handle_input(Direction::Right);
    first.set_active(false);
    let grid = ColumnList::with_rows(vec![first, second], ScrollRule::lanes()).unwrap();
    assert_eq!(active_rows(&grid), vec![0]);
    assert_eq!(grid.rows()[1].selected_index(), 1);
}

#[test]
fn down_five_times_then_right_six_times() {
    let mut grid = ColumnList::new();
    for _ in 0..5 {
        grid.handle_input(Direction::Down);
    }
    assert_eq!(grid.selected_row_index(), 5);
    // Four rows beyond the first two visible ones: 4 * 480.
    assert_eq!(grid.target_scroll_y(), -1_920 * ONE);
    assert_eq!(active_rows(&grid), vec![5]);
    for _ in 0..6 {
        grid.handle_input(Direction::Right);
    }
    assert_eq!(grid.selected_row_index(), 5);
    assert_eq!(grid.rows()[5].selected_index(), 6);
    assert_eq!(grid.rows()[5].target_scroll_x(), -640 * ONE);
    assert_eq!(grid.target_scroll_y(), -1_920 * ONE);
    for (i, row) in grid.rows().iter().enumerate() {
        if i != 5 {
            assert_eq!(row.selected_index(), 0);
            assert_eq!(row.target_scroll_x(), 0);
        }
    }
}

#[test]
fn down_four_times_scrolls_three_lanes() {
    let mut grid = ColumnList::new();
    for _ in 0..4 {
        grid.handle_input(Direction::Down);
    }
    assert_eq!(grid.selected_row_index(), 4);
    assert_eq!(grid.target_scroll_y(), -1_440 * ONE);
}

#[test]
fn vertical_target_follows_the_active_row() {
    let mut grid = ColumnList::new();
    assert_eq!(grid.target_scroll_y(), 0);
    grid.handle_input(Direction::Down);
    assert_eq!(grid.target_scroll_y(), 0);
    for index in 2..20 {
        grid.handle_input(Direction::Down);
        assert_eq!(grid.selected_row_index(), index);
        assert_eq!(grid.target_scroll_y(), -((index as i128 - 1) * 480 * ONE));
    }
    for index in (0..19).rev() {
        grid.handle_input(Direction::Up);
        assert_eq!(grid.selected_row_index(), index);
        let expected = if index > 1 { -((index as i128 - 1) * 480 * ONE) } else { 0 };
        assert_eq!(grid.target_scroll_y(), expected);
    }
}

#[test]
fn moves_past_the_ends_change_nothing() {
    let mut grid = ColumnList::new();
    grid.handle_input(Direction::Up);
    assert_eq!(grid.selected_row_index(), 0);
    assert_eq!(grid.target_scroll_y(), 0);
    assert_eq!(active_rows(&grid), vec![0]);
    grid.handle_input(Direction::Left);
    assert_eq!(grid.rows()[0].selected_index(), 0);
    for _ in 0..40 {
        grid.handle_input(Direction::Down);
        assert!(grid.selected_row_index() < 20);
    }
    assert_eq!(grid.selected_row_index(), 19);
    assert_eq!(grid.target_scroll_y(), -18 * 480 * ONE);
    assert_eq!(active_rows(&grid), vec![19]);
    for _ in 0..15 {
        grid.handle_input(Direction::Right);
    }
    assert_eq!(grid.rows()[19].selected_index(), 9);
}

#[test]
fn exactly_one_row_is_active_after_any_input() {
    let mut grid = ColumnList::new();
    let moves = [
        Direction::Down,
        Direction::Right,
        Direction::Down,
        Direction::Up,
        Direction::Up,
        Direction::Up,
        Direction::Left,
        Direction::Down,
        Direction::Down,
        Direction::Down,
        Direction::Right,
        Direction::Right,
    ];
    for direction in moves {
        grid.handle_input(direction);
        assert_eq!(active_rows(&grid), vec![grid.selected_row_index()]);
        for row in grid.rows().iter() {
            assert!(row.selected_index() < row.items().len());
        }
    }
    assert_eq!(grid.selected_row_index(), 3);
    assert_eq!(grid.rows()[0].selected_index(), 0);
    assert_eq!(grid.rows()[1].selected_index(), 1);
    assert_eq!(grid.rows()[3].selected_index(), 2);
}

#[test]
fn each_row_remembers_its_own_selection() {
    let mut grid = ColumnList::new();
    grid.handle_input(Direction::Right);
    grid.handle_input(Direction::Right);
    grid.handle_input(Direction::Down);
    grid.handle_input(Direction::Right);
    grid.handle_input(Direction::Up);
    assert_eq!(grid.rows()[0].selected_index(), 2);
    assert_eq!(grid.rows()[1].selected_index(), 1);
    grid.handle_input(Direction::Left);
    assert_eq!(grid.rows()[0].selected_index(), 1);
    assert_eq!(grid.rows()[1].selected_index(), 1);
}

#[test]
fn exactly_one_tile_has_the_focus_after_a_frame() {
    let manager = TextureManager::new();
    let mut grid = ColumnList::new();
    grid.update(&manager);
    assert_eq!(focused_tiles(&grid), vec![(0, 0)]);
    grid.handle_input(Direction::Down);
    grid.handle_input(Direction::Right);
    grid.handle_input(Direction::Right);
    grid.update(&manager);
    assert_eq!(focused_tiles(&grid), vec![(1, 2)]);
    grid.handle_input(Direction::Up);
    grid.update(&manager);
    assert_eq!(focused_tiles(&grid), vec![(0, 0)]);
}

#[test]
fn update_glides_vertically_and_pushes_the_offset_down() {
    let manager = TextureManager::new();
    let mut grid = ColumnList::new();
    for _ in 0..5 {
        grid.handle_input(Direction::Down);
    }
    let target = -1_920 * ONE;
    grid.update(&manager);
    assert_eq!(grid.scroll_y(), -192 * ONE);
    for row in grid.rows().iter() {
        assert_eq!(row.offset_y(), -192 * ONE);
        for tile in row.items().iter() {
            assert_eq!(tile.offset_y(), -192 * ONE);
            assert_eq!(tile.offset_x(), 0);
        }
    }
    grid.update(&manager);
    assert_eq!(grid.scroll_y(), -364_800_000);
    let mut previous = grid.scroll_y();
    let mut frames = 0;
    while grid.scroll_y() != target {
        grid.update(&manager);
        assert!(grid.scroll_y() < previous);
        assert!(grid.scroll_y() >= target);
        previous = grid.scroll_y();
        frames += 1;
        assert!(frames < 500);
    }
    grid.update(&manager);
    assert_eq!(grid.scroll_y(), target);
    assert_eq!(grid.rows()[7].offset_y(), target);
    assert_eq!(grid.rows()[5].items()[0].anim_scale(), SCALE_FOCUS);
    assert_eq!(grid.rows()[4].items()[0].anim_scale(), SCALE_IDLE);
}

#[test]
fn scrolling_back_up_never_overshoots() {
    let manager = TextureManager::new();
    let mut grid = ColumnList::new();
    for _ in 0..5 {
        grid.handle_input(Direction::Down);
    }
    for _ in 0..10 {
        grid.update(&manager);
    }
    for _ in 0..5 {
        grid.handle_input(Direction::Up);
    }
    assert_eq!(grid.target_scroll_y(), 0);
    let mut previous = grid.scroll_y();
    assert!(previous < 0);
    for _ in 0..500 {
        grid.update(&manager);
        assert!(grid.scroll_y() >= previous);
        assert!(grid.scroll_y() <= 0);
        previous = grid.scroll_y();
    }
    assert_eq!(grid.scroll_y(), 0);
}

#[test]
fn inner_scroll_moves_only_the_active_rows_tiles() {
    let manager = TextureManager::new();
    let mut grid = ColumnList::new();
    for _ in 0..6 {
        grid.handle_input(Direction::Right);
    }
    grid.update(&manager);
    assert_eq!(grid.rows()[0].scroll_x(), -64 * ONE);
    assert_eq!(grid.rows()[0].items()[3].offset_x(), -64 * ONE);
    assert_eq!(grid.rows()[1].scroll_x(), 0);
    assert_eq!(grid.rows()[1].items()[3].offset_x(), 0);
}

#[test]
fn load_assets_asks_for_each_image_once() {
    let mut manager = TextureManager::new();
    let mut grid = ColumnList::new();
    grid.load_assets(&mut manager);
    // Two hundred tiles, two images.
    assert_eq!(manager.len(), 2);
    for row in grid.rows().iter() {
        for (j, tile) in row.items().iter().enumerate() {
            assert_eq!(tile.texture(), Some(SharedTexture { id: j % 2 }));
            assert!(tile.buffer().is_some());
        }
    }
    grid.load_assets(&mut manager);
    assert_eq!(manager.len(), 2);
}

#[test]
fn completed_load_reaches_every_tile_of_the_grid() {
    let mut manager = TextureManager::new();
    let mut grid = ColumnList::new();
    grid.load_assets(&mut manager);
    grid.update(&manager);
    assert!(grid.rows().iter().all(|row| row.items().iter().all(|tile| tile.resize_contain())));
    manager.complete_load(SharedTexture { id: 1 }, 480, 720);
    grid.update(&manager);
    for row in grid.rows().iter() {
        for (j, tile) in row.items().iter().enumerate() {
            if j % 2 == 1 {
                assert_eq!(tile.h(), 450 * ONE);
                assert!(!tile.resize_contain());
            } else {
                assert_eq!(tile.h(), 200 * ONE);
                assert!(tile.resize_contain());
            }
        }
    }
}

#[test]
fn draw_lists_rows_and_tiles_in_order() {
    let mut manager = TextureManager::new();
    let mut grid = ColumnList::new();
    assert!(grid.draw().is_empty());
    grid.load_assets(&mut manager);
    let calls = grid.draw();
    assert_eq!(calls.len(), 200);
    for (n, call) in calls.iter().enumerate() {
        assert_eq!(
            *call,
            DrawCall { row: n / 10, item: n % 10, texture: SharedTexture { id: n % 2 } }
        );
    }
}

#[test]
fn draw_handles_rows_of_different_lengths() {
    let mut manager = TextureManager::new();
    let mut grid = small_grid(&[2, 0, 1]);
    grid.load_assets(&mut manager);
    let shared = SharedTexture { id: 0 };
    assert_eq!(
        grid.draw(),
        vec![
            DrawCall { row: 0, item: 0, texture: shared },
            DrawCall { row: 0, item: 1, texture: shared },
            DrawCall { row: 2, item: 0, texture: shared },
        ]
    );
}

#[test]
fn grid_with_an_empty_row_navigates_through_it() {
    let manager = TextureManager::new();
    let mut grid = small_grid(&[2, 0, 1]);
    grid.handle_input(Direction::Down);
    assert_eq!(active_rows(&grid), vec![1]);
    grid.handle_input(Direction::Right);
    grid.handle_input(Direction::Left);
    assert_eq!(grid.rows()[1].selected(), None);
    grid.update(&manager);
    assert!(focused_tiles(&grid).is_empty());
    grid.handle_input(Direction::Down);
    grid.handle_input(Direction::Down);
    assert_eq!(grid.selected_row_index(), 2);
    assert_eq!(grid.target_scroll_y(), -480 * ONE);
    grid.update(&manager);
    assert_eq!(focused_tiles(&grid), vec![(2, 0)]);
}

#[test]
fn single_row_grid_ignores_up_and_down() {
    let mut grid = small_grid(&[3]);
    grid.handle_input(Direction::Down);
    grid.handle_input(Direction::Up);
    assert_eq!(grid.selected_row_index(), 0);
    assert_eq!(active_rows(&grid), vec![0]);
    grid.handle_input(Direction::Right);
    assert_eq!(grid.rows()[0].selected_index(), 1);
}
