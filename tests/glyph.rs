use pacman::colours::{
    BLACK_ON_BLACK, BLACK_ON_GREEN, BLACK_ON_MAGENTA, BLUE_ON_BLUE, WHITE_ON_BLACK, WHITE_ON_CYAN,
    WHITE_ON_RED, YELLOW_ON_BLACK,
};
use pacman::glyph::{
    block_glyph, ghost_colour, ghost_eye_for, pacman_mouth_from_direction, random_ghost_eye,
    time_has_passed,
};
use pacman::level::{Block, Direction};

#[test]
fn block_glyphs() {
    assert_eq!(block_glyph(Block::WALL), (BLUE_ON_BLUE, ' '));
    assert_eq!(block_glyph(Block::GATE), (BLUE_ON_BLUE, ' '));
    assert_eq!(block_glyph(Block::DOT), (WHITE_ON_BLACK, 'o'));
    assert_eq!(block_glyph(Block::POWERUP), (YELLOW_ON_BLACK, 'x'));
    assert_eq!(block_glyph(Block::OTHER), (BLACK_ON_BLACK, ' '));
    assert_eq!(block_glyph(Block::TELEPORT), (BLACK_ON_BLACK, ' '));
}

#[test]
fn time_has_passed_uses_the_current_second() {
    assert!(time_has_passed(1501, 500));
    assert!(!time_has_passed(1500, 500));
    assert!(!time_has_passed(2000, 500));
    assert!(time_has_passed(999, 998));
}

#[test]
fn mouth_follows_direction_and_time() {
    assert_eq!(pacman_mouth_from_direction(Direction::LEFT, 700), ('>', ' '));
    assert_eq!(pacman_mouth_from_direction(Direction::LEFT, 100), ('-', ' '));
    assert_eq!(pacman_mouth_from_direction(Direction::RIGHT, 1700), (' ', '<'));
    assert_eq!(pacman_mouth_from_direction(Direction::RIGHT, 1100), (' ', '-'));
    assert_eq!(pacman_mouth_from_direction(Direction::UP, 600), ('<', '>'));
    assert_eq!(pacman_mouth_from_direction(Direction::DOWN, 500), ('-', '-'));
}

#[test]
fn ghost_eye_for_roll() {
    assert_eq!(ghost_eye_for(600, 20), 'O');
    assert_eq!(ghost_eye_for(600, 21), 'o');
    assert_eq!(ghost_eye_for(400, 0), 'o');
    assert_eq!(ghost_eye_for(1999, 0), 'O');
}

#[test]
fn random_ghost_eye_is_narrow_early_in_the_second() {
    for _ in 0..200 {
        assert_eq!(random_ghost_eye(1200), 'o');
        let e = random_ghost_eye(1800);
        assert!(e == 'o' || e == 'O');
    }
}

#[test]
fn random_ghost_eye_is_sometimes_wide() {
    let wide = (0..2000).filter(|_| random_ghost_eye(800) == 'O').count();
    assert!(wide > 0);
    assert!(wide < 2000);
}

#[test]
fn ghost_colours_cycle() {
    assert_eq!(ghost_colour(0), WHITE_ON_CYAN);
    assert_eq!(ghost_colour(1), BLACK_ON_GREEN);
    assert_eq!(ghost_colour(2), WHITE_ON_RED);
    assert_eq!(ghost_colour(3), BLACK_ON_MAGENTA);
    assert_eq!(ghost_colour(4), WHITE_ON_CYAN);
}
