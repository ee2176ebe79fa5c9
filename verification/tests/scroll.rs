use tile_grid::easing::Easing;
use tile_grid::fixed::ONE;
use tile_grid::scroll::{
    ScrollRule, LANE_HEIGHT, PITCH_LIMIT, SCROLL_DAMPING_DEN, SCROLL_DAMPING_NUM, SCROLL_SNAP,
    TILE_PITCH, VISIBLE_LANES, VISIBLE_TILES,
};

#[test]
fn lane_rule_targets() {
    let rule = ScrollRule::lanes();
    assert_eq!(rule.target(0), 0);
    assert_eq!(rule.target(1), 0);
    assert_eq!(rule.target(2), -480 * ONE);
    assert_eq!(rule.target(3), -960 * ONE);
    assert_eq!(rule.target(4), -1_440 * ONE);
    assert_eq!(rule.target(5), -1_920 * ONE);
    assert_eq!(rule.target(19), -18 * 480 * ONE);
}

#[test]
fn tile_rule_targets() {
    let rule = ScrollRule::tiles();
    for index in 0..=4 {
        assert_eq!(rule.target(index), 0);
    }
    assert_eq!(rule.target(5), -320 * ONE);
    assert_eq!(rule.target(6), -640 * ONE);
    assert_eq!(rule.target(9), -1_600 * ONE);
}

#[test]
fn standard_rules_carry_the_standard_numbers() {
    let lanes = ScrollRule::lanes();
    assert_eq!(lanes.pitch(), LANE_HEIGHT);
    assert_eq!(lanes.pitch() as i128, 480 * ONE);
    assert_eq!(lanes.window(), VISIBLE_LANES);
    assert_eq!(lanes.window(), 2);
    let tiles = ScrollRule::tiles();
    assert_eq!(tiles.pitch(), TILE_PITCH);
    assert_eq!(tiles.pitch() as i128, 320 * ONE);
    assert_eq!(tiles.window(), VISIBLE_TILES);
    assert_eq!(tiles.window(), 5);
    assert_eq!(tiles.easing().num(), SCROLL_DAMPING_NUM);
    assert_eq!(tiles.easing().den(), SCROLL_DAMPING_DEN);
    assert_eq!(tiles.easing().snap(), SCROLL_SNAP);
    assert_eq!((tiles.easing().num(), tiles.easing().den(), tiles.easing().snap()), (1, 10, 500_000));
}

#[test]
fn custom_rule_overrides_pitch_and_window() {
    let easing = Easing::new(1, 4, 3).unwrap();
    let rule = ScrollRule::new(100, 3, easing).unwrap();
    assert_eq!(rule.target(2), 0);
    assert_eq!(rule.target(3), -100);
    assert_eq!(rule.target(10), -800);
    assert_eq!(rule.advance(0, -800), -200);
    let upward = ScrollRule::new(-100, 1, easing).unwrap();
    assert_eq!(upward.target(0), 0);
    assert_eq!(upward.target(1), 100);
}

#[test]
fn rules_beyond_the_limits_are_refused() {
    let easing = Easing::new(1, 10, 500_000).unwrap();
    assert!(ScrollRule::new(LANE_HEIGHT, 0, easing).is_none());
    assert!(ScrollRule::new(PITCH_LIMIT + 1, 2, easing).is_none());
    assert!(ScrollRule::new(-PITCH_LIMIT - 1, 2, easing).is_none());
    assert!(ScrollRule::new(PITCH_LIMIT, 1, easing).is_some());
    assert!(ScrollRule::new(-PITCH_LIMIT, usize::MAX, easing).is_some());
}

#[test]
fn largest_list_stays_within_machine_range() {
    let easing = Easing::new(1, 10, 500_000).unwrap();
    let rule = ScrollRule::new(PITCH_LIMIT, 1, easing).unwrap();
    let far = rule.target(usize::MAX);
    assert_eq!(far, -(usize::MAX as i128) * (PITCH_LIMIT as i128));
    let next = rule.advance(0, far);
    assert_eq!(next, far / 10);
}

#[test]
fn scroll_advance_follows_the_damping() {
    let rule = ScrollRule::lanes();
    assert_eq!(rule.advance(0, -1_920 * ONE), -192 * ONE);
    assert_eq!(rule.advance(-1_920 * ONE + 400_000, -1_920 * ONE), -1_920 * ONE);
}
