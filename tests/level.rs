use pacman::level::{Block, Direction, Level, Mobile, OutOfBounds, Position};

fn level_of(lines: &[&str]) -> Level {
    let rows: Vec<Vec<char>> = lines.iter().map(|l| l.chars().collect()).collect();
    Level::new(&rows)
}

fn pos(y: usize, x: usize) -> Position {
    Position { y, x }
}

#[test]
fn parses_cells_by_character() {
    let level = level_of(&["WGdXTP1?"]);
    let expected = [
        Block::WALL,
        Block::GATE,
        Block::DOT,
        Block::POWERUP,
        Block::TELEPORT,
        Block::OTHER,
        Block::OTHER,
        Block::OTHER,
    ];
    for (x, b) in expected.iter().enumerate() {
        assert_eq!(level.get_block_at_point(0, x), Ok(*b));
    }
    assert_eq!(level.height(), 1);
    assert_eq!(level.width(), 8);
}

#[test]
fn places_player_and_ghosts_at_markers() {
    let level = level_of(&["W  W", "P 1 ", " 2 3", "4P  "]);
    let pac = *level.pacman();
    assert_eq!(pac.position, pos(3, 1));
    assert_eq!(pac.previous_position, pos(0, 0));
    assert_eq!(pac.direction, Direction::LEFT);
    assert_eq!(pac.next_direction, Direction::LEFT);
    let ghosts = level.get_ghosts();
    assert_eq!(ghosts[0], Mobile::new(pos(1, 2), Direction::RIGHT));
    assert_eq!(ghosts[1], Mobile::new(pos(2, 1), Direction::RIGHT));
    assert_eq!(ghosts[2], Mobile::new(pos(2, 3), Direction::RIGHT));
    assert_eq!(ghosts[3], Mobile::new(pos(3, 0), Direction::RIGHT));
}

#[test]
fn missing_markers_give_default_mobiles() {
    let level = level_of(&["WWW", "W W"]);
    assert_eq!(*level.pacman(), Mobile::default());
    assert_eq!(level.get_ghosts()[2], Mobile::default());
    assert_eq!(Mobile::default().position, pos(0, 0));
    assert_eq!(Mobile::default().direction, Direction::LEFT);
}

#[test]
fn empty_level_has_no_extent() {
    let level = level_of(&[]);
    assert_eq!(level.height(), 0);
    assert_eq!(level.width(), 0);
    assert_eq!(level.get_block_at_point(0, 0), Err(OutOfBounds));
}

#[test]
fn width_is_first_row_length() {
    let level = level_of(&["WWW", "W", "WWWWW"]);
    assert_eq!(level.height(), 3);
    assert_eq!(level.width(), 3);
    assert_eq!(level.get_block_at_point(1, 1), Err(OutOfBounds));
    assert_eq!(level.get_block_at_point(2, 4), Ok(Block::WALL));
}

#[test]
fn block_lookup_out_of_bounds_is_an_error() {
    let level = level_of(&["W d", "   "]);
    assert_eq!(level.get_block_at_position(pos(0, 2)), Ok(Block::DOT));
    assert_eq!(level.get_block_at_position(pos(2, 0)), Err(OutOfBounds));
    assert_eq!(level.get_block_at_position(pos(0, 3)), Err(OutOfBounds));
    assert_eq!(level.get_block_at_point(usize::MAX, usize::MAX), Err(OutOfBounds));
}

#[test]
fn clear_position_empties_cell_and_is_idempotent() {
    let mut level = level_of(&["dXW"]);
    assert_eq!(level.clear_position(pos(0, 0)), Ok(()));
    assert_eq!(level.get_block_at_point(0, 0), Ok(Block::OTHER));
    assert_eq!(level.clear_position(pos(0, 0)), Ok(()));
    assert_eq!(level.get_block_at_point(0, 0), Ok(Block::OTHER));
    assert_eq!(level.get_block_at_point(0, 1), Ok(Block::POWERUP));
    assert_eq!(level.clear_position(pos(0, 2)), Ok(()));
    assert_eq!(level.get_block_at_point(0, 2), Ok(Block::OTHER));
}

#[test]
fn clear_position_out_of_bounds_changes_nothing() {
    let mut level = level_of(&["dd"]);
    assert_eq!(level.clear_position(pos(0, 2)), Err(OutOfBounds));
    assert_eq!(level.clear_position(pos(1, 0)), Err(OutOfBounds));
    assert_eq!(level.get_block_at_point(0, 0), Ok(Block::DOT));
    assert_eq!(level.get_block_at_point(0, 1), Ok(Block::DOT));
}

#[test]
fn teleport_finds_the_other_cell() {
    let level = level_of(&["T  ", "  T"]);
    assert_eq!(level.teleport(pos(0, 0)), Some(pos(1, 2)));
    assert_eq!(level.teleport(pos(1, 2)), Some(pos(0, 0)));
    assert_eq!(level.teleport(pos(1, 1)), Some(pos(1, 2)));
}

#[test]
fn teleport_without_partner_is_none() {
    let level = level_of(&["T  "]);
    assert_eq!(level.teleport(pos(0, 0)), None);
    let none = level_of(&["   "]);
    assert_eq!(none.teleport(pos(0, 0)), None);
}

#[test]
fn walkable_sideways_checks_past_the_footprint() {
    // The mobile at (1,2) covers (1,2) and (1,3).
    let level = level_of(&["WWWWWW", "W    W", "WWWWWW"]);
    assert!(level.is_walkable(&pos(1, 2), &Direction::LEFT));
    assert!(level.is_walkable(&pos(1, 2), &Direction::RIGHT));
    assert!(!level.is_walkable(&pos(1, 1), &Direction::LEFT));
    assert!(!level.is_walkable(&pos(1, 3), &Direction::RIGHT));
    assert!(!level.is_walkable(&pos(1, 2), &Direction::UP));
    assert!(!level.is_walkable(&pos(1, 2), &Direction::DOWN));
}

#[test]
fn walkable_vertically_needs_both_cells() {
    let level = level_of(&["W  GW", "W   W", "W d W", "WX  W"]);
    assert!(level.is_walkable(&pos(1, 1), &Direction::UP));
    assert!(!level.is_walkable(&pos(1, 2), &Direction::UP));
    assert!(level.is_walkable(&pos(1, 2), &Direction::DOWN));
    assert!(level.is_walkable(&pos(2, 1), &Direction::DOWN));
    assert!(!level.is_walkable(&pos(2, 0), &Direction::DOWN));
}

#[test]
fn walls_and_gates_are_never_walkable() {
    let level = level_of(&["GW  W", "     ", " G   "]);
    assert!(!level.is_walkable(&pos(1, 0), &Direction::UP));
    assert!(!level.is_walkable(&pos(0, 2), &Direction::RIGHT));
    assert!(!level.is_walkable(&pos(0, 2), &Direction::LEFT));
    assert!(!level.is_walkable(&pos(1, 0), &Direction::DOWN));
    assert!(!level.is_walkable(&pos(1, 1), &Direction::DOWN));
}

#[test]
fn dots_powerups_teleports_and_empty_are_walkable() {
    let level = level_of(&["dX  ", "  T ", " d  "]);
    assert!(level.is_walkable(&pos(1, 0), &Direction::UP));
    assert!(level.is_walkable(&pos(1, 0), &Direction::RIGHT));
    assert!(level.is_walkable(&pos(1, 0), &Direction::DOWN));
    assert!(level.is_walkable(&pos(0, 1), &Direction::LEFT));
}

#[test]
fn moves_off_the_grid_are_not_walkable() {
    let level = level_of(&["  ", "  "]);
    assert!(!level.is_walkable(&pos(0, 0), &Direction::LEFT));
    assert!(!level.is_walkable(&pos(0, 0), &Direction::UP));
    assert!(!level.is_walkable(&pos(1, 0), &Direction::DOWN));
    assert!(!level.is_walkable(&pos(0, 0), &Direction::RIGHT));
    assert!(!level.is_walkable(&pos(0, 1), &Direction::DOWN));
    assert!(!level.is_walkable(&pos(usize::MAX, usize::MAX), &Direction::RIGHT));
    assert!(!level.is_walkable(&pos(usize::MAX, usize::MAX), &Direction::DOWN));
}

#[test]
fn walk_moves_one_cell_each_way() {
    let start = pos(5, 5);
    let cases = [
        (Direction::LEFT, pos(5, 4)),
        (Direction::RIGHT, pos(5, 6)),
        (Direction::UP, pos(4, 5)),
        (Direction::DOWN, pos(6, 5)),
    ];
    for (d, to) in cases {
        let mut m = Mobile::new(start, d);
        m.walk();
        assert_eq!(m.position, to);
        assert_eq!(m.previous_position, start);
        assert_eq!(m.direction, d);
    }
}

#[test]
fn walking_twice_keeps_only_the_last_cell() {
    let mut m = Mobile::new(pos(3, 3), Direction::UP);
    m.walk();
    m.walk();
    assert_eq!(m.position, pos(1, 3));
    assert_eq!(m.previous_position, pos(2, 3));
}

#[test]
fn setters_change_one_field() {
    let mut m = Mobile::new(pos(1, 1), Direction::DOWN);
    m.set_next_direction(Direction::LEFT);
    assert_eq!(m.next_direction, Direction::LEFT);
    assert_eq!(m.direction, Direction::DOWN);
    m.set_direction(Direction::UP);
    assert_eq!(m.direction, Direction::UP);
    assert_eq!(m.next_direction, Direction::LEFT);
    assert_eq!(m.position, pos(1, 1));
}

#[test]
fn get_pacman_gives_mutable_access() {
    let mut level = level_of(&["  P  "]);
    level.get_pacman().set_direction(Direction::RIGHT);
    level.get_pacman().walk();
    assert_eq!(level.pacman().position, pos(0, 3));
    assert_eq!(level.pacman().previous_position, pos(0, 2));
}
