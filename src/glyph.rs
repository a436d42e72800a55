//! What the renderer draws for cells and mobiles: colour pairs and characters.

use vstd::prelude::*;

use crate::colours::{
    BLACK_ON_BLACK, BLACK_ON_GREEN, BLACK_ON_MAGENTA, BLUE_ON_BLUE, WHITE_ON_BLACK, WHITE_ON_CYAN,
    WHITE_ON_RED, YELLOW_ON_BLACK,
};
use crate::level::{Block, Direction};

verus! {

/// Relies on rand::random: a value drawn from the thread-local generator; no
/// property of it is promised.
pub assume_specification<T>[ rand::random::<T> ]() -> (r: T)
    where
        rand::distributions::Standard: rand::distributions::Distribution<T>,
;

/// The colour pair and character drawn for a cell of kind `block`.
pub open spec fn block_glyph_of(block: Block) -> (i16, char) {
    match block {
        Block::WALL | Block::GATE => (BLUE_ON_BLUE, ' '),
        Block::DOT => (WHITE_ON_BLACK, 'o'),
        Block::POWERUP => (YELLOW_ON_BLACK, 'x'),
        Block::TELEPORT | Block::OTHER => (BLACK_ON_BLACK, ' '),
    }
}

/// The colour pair and character drawn for a cell of kind `block`: walls and
/// gates as solid blue, dots as 'o', power-ups as 'x', anything else blank.
pub fn block_glyph(block: Block) -> (r: (i16, char))
    ensures
        r == block_glyph_of(block),
{
    match block {
        Block::WALL | Block::GATE => (BLUE_ON_BLUE, ' '),
        Block::DOT => (WHITE_ON_BLACK, 'o'),
        Block::POWERUP => (YELLOW_ON_BLACK, 'x'),
        Block::TELEPORT | Block::OTHER => (BLACK_ON_BLACK, ' '),
    }
}

/// Whether more than `threshold` milliseconds of the current second have
/// passed, `elapsed_millis` after the renderer started.
pub fn time_has_passed(elapsed_millis: u64, threshold: u64) -> (r: bool)
    ensures
        r == (elapsed_millis % 1000 > threshold),
{
    elapsed_millis % 1000 > threshold
}

/// The two characters of the player facing `direction`, over its two cells,
/// with the mouth open or closed.
pub open spec fn mouth_of(direction: Direction, open: bool) -> (char, char) {
    match direction {
        Direction::LEFT => if open { ('>', ' ') } else { ('-', ' ') },
        Direction::RIGHT => if open { (' ', '<') } else { (' ', '-') },
        Direction::UP | Direction::DOWN => if open { ('<', '>') } else { ('-', '-') },
    }
}

/// The two characters of the player facing `direction`; the mouth is open
/// during the second half of each second, `elapsed_millis` after the renderer
/// started.
pub fn pacman_mouth_from_direction(direction: Direction, elapsed_millis: u64) -> (r: (char, char))
    ensures
        r == mouth_of(direction, elapsed_millis % 1000 > 500),
{
    let open = time_has_passed(elapsed_millis, 500);
    match direction {
        Direction::LEFT => if open { ('>', ' ') } else { ('-', ' ') },
        Direction::RIGHT => if open { (' ', '<') } else { (' ', '-') },
        Direction::UP | Direction::DOWN => if open { ('<', '>') } else { ('-', '-') },
    }
}

/// A ghost's eye: wide ('O') when the second half of the current second has
/// begun and `roll` is a multiple of 10, else narrow ('o').
pub fn ghost_eye_for(elapsed_millis: u64, roll: u8) -> (r: char)
    ensures
        r == if elapsed_millis % 1000 > 500 && roll % 10 == 0 { 'O' } else { 'o' },
{
    if time_has_passed(elapsed_millis, 500) && roll % 10 == 0 {
        'O'
    } else {
        'o'
    }
}

/// A ghost's eye with a random roll: narrow during the first half of each
/// second, wide now and then during the second.
pub fn random_ghost_eye(elapsed_millis: u64) -> (r: char)
    ensures
        r == 'o' || r == 'O',
        elapsed_millis % 1000 <= 500 ==> r == 'o',
{
    let roll: u8 = rand::random::<u8>();
    ghost_eye_for(elapsed_millis, roll)
}

/// The colour pair of the ghost at `index`: cyan, green, red and magenta in
/// turn.
pub fn ghost_colour(index: usize) -> (r: i16)
    ensures
        r == seq![WHITE_ON_CYAN, BLACK_ON_GREEN, WHITE_ON_RED, BLACK_ON_MAGENTA][(index % 4) as int],
{
    let available: [i16; 4] = [WHITE_ON_CYAN, BLACK_ON_GREEN, WHITE_ON_RED, BLACK_ON_MAGENTA];
    let r = available[index % 4];
    assert(available@ =~= seq![WHITE_ON_CYAN, BLACK_ON_GREEN, WHITE_ON_RED, BLACK_ON_MAGENTA]);
    r
}

} // verus!
