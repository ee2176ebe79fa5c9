use tile_grid::easing::Easing;
use tile_grid::fixed::ONE;
use tile_grid::input::Direction;
use tile_grid::posteritem::{PosterItem, SCALE_FOCUS, SCALE_IDLE};
use tile_grid::rowlist::{
    RowList, TileDraw, POSTER_EVEN, POSTER_HEIGHT, POSTER_ODD, POSTER_WIDTH, ROW_LEFT, ROW_TILES,
};
use tile_grid::scroll::{ScrollRule, TILE_PITCH};
use tile_grid::texture_manager::{SharedTexture, TextureManager};

const U: i64 = 1_000_000;

fn active_row() -> RowList {
    let mut row = RowList::new(50 * U);
    row.set_active(true);
    row
}

fn row_of(count: usize) -> RowList {
    let mut items = Vec::new();
    for i in 0..count {
        items.push(PosterItem::new(i as i64 * 10 * U, 0, 8 * U, 8 * U, "a.jpg", false));
    }
    RowList::with_items(items, ScrollRule::tiles())
}

#[test]
fn new_row_holds_ten_posters() {
    let row = RowList::new(530 * U);
    assert_eq!(row.items().len(), 10);
    assert_eq!(ROW_TILES, 10);
    assert_eq!(row.selected_index(), 0);
    assert_eq!(row.selected(), Some(0));
    assert!(!row.is_active());
    assert_eq!(row.scroll_x(), 0);
    assert_eq!(row.target_scroll_x(), 0);
    assert_eq!(row.offset_y(), 0);
    assert_eq!(row.rule().pitch(), TILE_PITCH);
    for (i, tile) in row.items().iter().enumerate() {
        assert_eq!(tile.x(), 50 * U + i as i64 * 320 * U);
        assert_eq!(tile.x(), ROW_LEFT + i as i64 * TILE_PITCH);
        assert_eq!(tile.y(), 530 * U);
        assert_eq!(tile.w(), 300 * U);
        assert_eq!(tile.w(), POSTER_WIDTH);
        assert_eq!(tile.h(), 200 * ONE);
        assert_eq!(tile.h(), POSTER_HEIGHT as i128);
        assert!(tile.resize_contain());
        assert!(!tile.is_selected());
        assert_eq!(tile.src(), row.items()[i % 2].src());
    }
    assert_ne!(row.items()[0].src(), row.items()[1].src());
    assert_eq!(row.items()[0].src(), POSTER_EVEN);
    assert_eq!(row.items()[1].src(), POSTER_ODD);
    assert!(row.items()[0].src().ends_with("._V1_.jpg"));
    assert!(row.items()[1].src().ends_with("_QL75_UX480_.jpg"));
}

#[test]
fn inactive_row_ignores_input() {
    let mut row = RowList::new(0);
    for direction in [Direction::Right, Direction::Left, Direction::Up, Direction::Down] {
        row.handle_input(direction);
        assert_eq!(row.selected_index(), 0);
        assert_eq!(row.target_scroll_x(), 0);
    }
}

#[test]
fn right_six_times_selects_tile_six() {
    let mut row = active_row();
    for _ in 0..6 {
        row.handle_input(Direction::Right);
    }
    assert_eq!(row.selected_index(), 6);
    assert_eq!(row.target_scroll_x(), -640 * ONE);
}

#[test]
fn scroll_target_follows_selection() {
    let mut row = active_row();
    let expected: [i128; 10] = [0, 0, 0, 0, 0, -320, -640, -960, -1_280, -1_600];
    assert_eq!(row.target_scroll_x(), expected[0] * ONE);
    for index in 1..10 {
        row.handle_input(Direction::Right);
        assert_eq!(row.selected_index(), index);
        assert_eq!(row.target_scroll_x(), expected[index] * ONE);
    }
    for index in (0..9).rev() {
        row.handle_input(Direction::Left);
        assert_eq!(row.selected_index(), index);
        assert_eq!(row.target_scroll_x(), expected[index] * ONE);
    }
}

#[test]
fn selection_stops_at_both_ends() {
    let mut row = active_row();
    row.handle_input(Direction::Left);
    assert_eq!(row.selected_index(), 0);
    assert_eq!(row.target_scroll_x(), 0);
    for _ in 0..25 {
        row.handle_input(Direction::Right);
        assert!(row.selected_index() < 10);
    }
    assert_eq!(row.selected_index(), 9);
    assert_eq!(row.target_scroll_x(), -1_600 * ONE);
}

#[test]
fn up_and_down_do_not_move_the_selection() {
    let mut row = active_row();
    row.handle_input(Direction::Right);
    row.handle_input(Direction::Up);
    row.handle_input(Direction::Down);
    assert_eq!(row.selected_index(), 1);
    assert_eq!(row.target_scroll_x(), 0);
}

#[test]
fn empty_row_is_legal_and_inert() {
    let manager = TextureManager::new();
    let mut row = row_of(0);
    assert_eq!(row.selected(), None);
    row.set_active(true);
    for direction in [Direction::Right, Direction::Left, Direction::Right] {
        row.handle_input(direction);
        assert_eq!(row.selected(), None);
        assert_eq!(row.selected_index(), 0);
        assert_eq!(row.target_scroll_x(), 0);
    }
    row.update(-480 * ONE, &manager);
    assert_eq!(row.offset_y(), -480 * ONE);
    assert_eq!(row.scroll_x(), 0);
    assert!(row.items().is_empty());
    assert!(row.draw().is_empty());
}

#[test]
fn single_tile_row_never_moves() {
    let mut row = row_of(1);
    row.set_active(true);
    row.handle_input(Direction::Right);
    row.handle_input(Direction::Left);
    assert_eq!(row.selected(), Some(0));
}

#[test]
fn update_glides_toward_target_and_lands_exactly() {
    let manager = TextureManager::new();
    let mut row = active_row();
    for _ in 0..6 {
        row.handle_input(Direction::Right);
    }
    let target = -640 * ONE;
    row.update(0, &manager);
    assert_eq!(row.scroll_x(), -64 * ONE);
    row.update(0, &manager);
    assert_eq!(row.scroll_x(), -121_600_000);
    let mut previous = row.scroll_x();
    let mut frames = 0;
    while row.scroll_x() != target {
        row.update(0, &manager);
        assert!(row.scroll_x() < previous);
        assert!(row.scroll_x() >= target);
        previous = row.scroll_x();
        frames += 1;
        assert!(frames < 500);
    }
    row.update(0, &manager);
    assert_eq!(row.scroll_x(), target);
    assert_eq!(row.target_scroll_x(), target);
}

#[test]
fn update_pushes_offsets_and_focus_into_tiles() {
    let manager = TextureManager::new();
    let mut row = active_row();
    row.handle_input(Direction::Right);
    for _ in 0..6 {
        row.handle_input(Direction::Right);
    }
    row.update(-96 * ONE, &manager);
    assert_eq!(row.offset_y(), -96 * ONE);
    let scroll_x = row.scroll_x();
    assert_eq!(scroll_x, -96 * ONE);
    for (i, tile) in row.items().iter().enumerate() {
        assert_eq!(tile.offset_x(), scroll_x);
        assert_eq!(tile.offset_y(), -96 * ONE);
        assert_eq!(tile.is_selected(), i == 7);
        assert_eq!(tile.anim_scale(), if i == 7 { 1_030_000 } else { SCALE_IDLE });
    }
}

#[test]
fn exactly_one_tile_of_an_active_row_has_the_focus() {
    let manager = TextureManager::new();
    let mut row = active_row();
    let moves = [
        Direction::Right,
        Direction::Right,
        Direction::Left,
        Direction::Right,
        Direction::Right,
        Direction::Left,
        Direction::Left,
        Direction::Left,
        Direction::Left,
    ];
    for direction in moves {
        row.handle_input(direction);
        row.update(0, &manager);
        let focused: Vec<usize> = row
            .items()
            .iter()
            .enumerate()
            .filter(|(_, tile)| tile.is_selected())
            .map(|(i, _)| i)
            .collect();
        assert_eq!(focused, vec![row.selected_index()]);
    }
}

#[test]
fn no_tile_of_an_inactive_row_has_the_focus() {
    let manager = TextureManager::new();
    let mut row = active_row();
    row.handle_input(Direction::Right);
    for _ in 0..100 {
        row.update(0, &manager);
    }
    assert_eq!(row.items()[1].anim_scale(), SCALE_FOCUS);
    row.set_active(false);
    row.update(0, &manager);
    assert!(row.items().iter().all(|tile| !tile.is_selected()));
    assert_eq!(row.selected_index(), 1);
    for _ in 0..100 {
        row.update(0, &manager);
    }
    assert!(row.items().iter().all(|tile| tile.anim_scale() == SCALE_IDLE));
}

#[test]
fn load_assets_shares_one_record_per_source() {
    let mut manager = TextureManager::new();
    let mut row = RowList::new(50 * U);
    row.load_assets(&mut manager);
    assert_eq!(manager.len(), 2);
    for (i, tile) in row.items().iter().enumerate() {
        assert_eq!(tile.texture(), Some(SharedTexture { id: i % 2 }));
        assert_eq!(*tile.buffer().unwrap(), tile.create_rect());
        assert_eq!(manager.source(tile.texture().unwrap()), Some(tile.src().to_string()));
    }
    // A second row with the same images asks for no further load.
    let mut second = RowList::new(530 * U);
    second.load_assets(&mut manager);
    assert_eq!(manager.len(), 2);
    assert_eq!(second.items()[4].texture(), row.items()[0].texture());
    assert_eq!(second.items()[5].texture(), row.items()[1].texture());
}

#[test]
fn one_completed_load_fits_every_tile_of_that_image() {
    let mut manager = TextureManager::new();
    let mut row = RowList::new(50 * U);
    row.load_assets(&mut manager);
    manager.complete_load(SharedTexture { id: 0 }, 600, 300);
    row.update(0, &manager);
    for (i, tile) in row.items().iter().enumerate() {
        if i % 2 == 0 {
            assert_eq!(tile.h(), 150 * ONE);
            assert!(!tile.resize_contain());
        } else {
            assert_eq!(tile.h(), 200 * ONE);
            assert!(tile.resize_contain());
        }
    }
}

#[test]
fn draw_lists_tiles_with_texture_and_buffer_in_order() {
    let mut manager = TextureManager::new();
    let mut row = RowList::new(50 * U);
    assert!(row.draw().is_empty());
    row.load_assets(&mut manager);
    let draws = row.draw();
    assert_eq!(draws.len(), 10);
    for (i, draw) in draws.iter().enumerate() {
        assert_eq!(*draw, TileDraw { item: i, texture: SharedTexture { id: i % 2 } });
    }
}

#[test]
fn draw_skips_tiles_that_lack_texture_or_buffer() {
    let mut manager = TextureManager::new();
    let shared = manager.get_texture("a.jpg");
    let mut complete = PosterItem::new(0, 0, U, U, "a.jpg", false);
    complete.init_buffer();
    complete.set_texture(shared);
    let mut no_buffer = PosterItem::new(0, 0, U, U, "a.jpg", false);
    no_buffer.set_texture(shared);
    let mut no_texture = PosterItem::new(0, 0, U, U, "a.jpg", false);
    no_texture.init_buffer();
    let mut last = PosterItem::new(0, 0, U, U, "a.jpg", false);
    last.init_buffer();
    last.set_texture(shared);
    let row = RowList::with_items(vec![no_buffer, complete, no_texture, last], ScrollRule::tiles());
    assert_eq!(
        row.draw(),
        vec![TileDraw { item: 1, texture: shared }, TileDraw { item: 3, texture: shared }]
    );
}

#[test]
fn custom_rule_changes_window_and_pitch() {
    let rule = ScrollRule::new(100 * U, 2, Easing::new(1, 2, 1_000).unwrap()).unwrap();
    let mut items = Vec::new();
    for _ in 0..4 {
        items.push(PosterItem::new(0, 0, U, U, "a.jpg", false));
    }
    let mut row = RowList::with_items(items, rule);
    row.set_active(true);
    row.handle_input(Direction::Right);
    assert_eq!(row.target_scroll_x(), 0);
    row.handle_input(Direction::Right);
    assert_eq!(row.target_scroll_x(), -100 * ONE);
    row.handle_input(Direction::Right);
    assert_eq!(row.target_scroll_x(), -200 * ONE);
    let manager = TextureManager::new();
    row.update(0, &manager);
    assert_eq!(row.scroll_x(), -100 * ONE);
}
