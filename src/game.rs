//! The simulation tick: queued turns, movement, pickups and the score.

use vstd::prelude::*;

use crate::level::{Block, Direction, Level, LevelView, Mobile, Position};

verus! {

/// The key codes of the four arrow keys, as the terminal reports them.
#[derive(Debug, Clone, Copy, PartialEq, Eq, Structural)]
pub struct ArrowKeys {
    pub up: i32,
    pub down: i32,
    pub left: i32,
    pub right: i32,
}

/// The direction that key `key` requests: the first arrow key it equals, in
/// the order right, up, down, left; any other key requests nothing.
pub open spec fn direction_of(key: i32, keys: ArrowKeys) -> Option<Direction> {
    if key == keys.right {
        Some(Direction::RIGHT)
    } else if key == keys.up {
        Some(Direction::UP)
    } else if key == keys.down {
        Some(Direction::DOWN)
    } else if key == keys.left {
        Some(Direction::LEFT)
    } else {
        None
    }
}

/// Decodes a key code into a direction; keys other than the arrows give `None`.
pub fn direction_of_key(key: i32, keys: ArrowKeys) -> (r: Option<Direction>)
    ensures
        r == direction_of(key, keys),
{
    if key == keys.right {
        Some(Direction::RIGHT)
    } else if key == keys.up {
        Some(Direction::UP)
    } else if key == keys.down {
        Some(Direction::DOWN)
    } else if key == keys.left {
        Some(Direction::LEFT)
    } else {
        None
    }
}

/// The direction in which mobile `m` moves in one tick on `level`: the queued
/// direction where it differs from the current one and is walkable, else the
/// current direction where that is walkable, else none.
pub open spec fn move_of(level: LevelView, m: Mobile) -> Option<Direction> {
    if m.next_direction != m.direction && level.walkable(m.position, m.next_direction) {
        Some(m.next_direction)
    } else if level.walkable(m.position, m.direction) {
        Some(m.direction)
    } else {
        None
    }
}

/// Mobile `m` after the movement of one tick on `level`.
pub open spec fn moved(level: LevelView, m: Mobile) -> Mobile {
    match move_of(level, m) {
        Some(d) => Mobile { direction: d, ..m }.walked(),
        None => m,
    }
}

/// Turning: a player facing right with up queued turns up and moves one row up
/// where up is walkable; otherwise it keeps facing right, and moves one column
/// right where right is walkable or holds still.
pub proof fn lemma_turn_right_to_up(g: GameView)
    requires
        g.level.pacman.direction == Direction::RIGHT,
        g.level.pacman.next_direction == Direction::UP,
        g.level.wf(),
    ensures
        ({
            let (before, after) = (g.level.pacman, g.ticked().level.pacman);
            if g.level.walkable(before.position, Direction::UP) {
                &&& after.direction == Direction::UP
                &&& after.position.y == before.position.y - 1
                &&& after.position.x == before.position.x
            } else if g.level.walkable(before.position, Direction::RIGHT) {
                &&& after.direction == Direction::RIGHT
                &&& after.position.y == before.position.y
                &&& after.position.x == before.position.x + 1
            } else {
                &&& after.direction == Direction::RIGHT
                &&& after.position == before.position
            }
        }),
{
    let pac = g.level.pacman;
    let after = moved(g.level, pac);
    assert(g.ticked().level.pacman == after);
    if !g.level.walkable(pac.position, Direction::UP) && g.level.walkable(pac.position, Direction::RIGHT) {
        assert(g.level.open(pac.position.y as int, pac.position.x + 2));
    }
}

/// Eating: when the player ends a tick on a dot, the score grows by exactly one
/// and that cell then reads as empty; on any other cell the score stays.
pub proof fn lemma_dot_eaten(g: GameView)
    ensures
        ({
            let pos = g.ticked().level.pacman.position;
            let (y, x) = (pos.y as int, pos.x as int);
            if g.level.cell(y, x) == Some(Block::DOT) {
                &&& g.ticked().points == g.points + 1
                &&& g.ticked().level.cell(y, x) == Some(Block::OTHER)
            } else {
                g.ticked().points == g.points
            }
        }),
{
}

/// A tick moves the player only in a walkable direction, and a player whose two
/// cells can be entered still stands on two such cells after the tick: it never
/// ends on a wall or a gate.
pub proof fn lemma_tick_avoids_walls(g: GameView)
    requires
        g.level.wf(),
        g.level.open(g.level.pacman.position.y as int, g.level.pacman.position.x as int),
        g.level.open(g.level.pacman.position.y as int, g.level.pacman.position.x + 1),
    ensures
        move_of(g.level, g.level.pacman) matches Some(d) ==> g.level.walkable(g.level.pacman.position, d),
        ({
            let (t, pos) = (g.ticked().level, g.ticked().level.pacman.position);
            &&& t.open(pos.y as int, pos.x as int)
            &&& t.open(pos.y as int, pos.x + 1)
            &&& t.cell(pos.y as int, pos.x as int) != Some(Block::WALL)
            &&& t.cell(pos.y as int, pos.x as int) != Some(Block::GATE)
        }),
{
    let pac = moved(g.level, g.level.pacman);
    let level = LevelView { pacman: pac, ..g.level };
    let (y, x) = (pac.position.y as int, pac.position.x as int);
    assert(level.open(y, x) && level.open(y, x + 1));
    lemma_cleared_keeps_open(level, pac.position, y, x);
    lemma_cleared_keeps_open(level, pac.position, y, x + 1);
}

/// Emptying a cell keeps every enterable cell enterable.
proof fn lemma_cleared_keeps_open(level: LevelView, p: Position, y: int, x: int)
    requires
        level.open(y, x),
    ensures
        level.cleared(p).open(y, x),
{
}

/// A running game: the level and the score.
pub struct Game {
    level: Level,
    points: u64,
}

/// The mathematical content of a `Game`.
pub struct GameView {
    pub level: LevelView,
    pub points: int,
}

impl GameView {
    /// The game after one simulation tick: the player moves (see `moved`), and
    /// a dot on the cell it ends on is eaten: the cell becomes empty and the
    /// score grows by one.
    pub open spec fn ticked(self) -> GameView {
        let pac = moved(self.level, self.level.pacman);
        let level = LevelView { pacman: pac, ..self.level };
        if level.cell(pac.position.y as int, pac.position.x as int) == Some(Block::DOT) {
            GameView { level: level.cleared(pac.position), points: self.points + 1 }
        } else {
            GameView { level, points: self.points }
        }
    }
}

impl View for Game {
    type V = GameView;

    closed spec fn view(&self) -> GameView {
        GameView { level: self.level@, points: self.points as int }
    }
}

impl Game {
    /// A game on `level` with a score of zero.
    pub fn new(level: Level) -> (r: Game)
        ensures
            r@ == (GameView { level: level@, points: 0 }),
    {
        Game { level, points: 0 }
    }

    pub fn points(&self) -> (r: u64)
        ensures
            r == self@.points,
    {
        self.points
    }

    pub fn level(&self) -> (r: &Level)
        ensures
            r@ == self@.level,
    {
        &self.level
    }

    /// Runs the simulate phase of one tick: turn and move the player where the
    /// maze allows, then eat a dot on the cell it ends on.
    pub fn tick(&mut self)
        requires
            old(self)@.level.wf(),
            old(self)@.points < u64::MAX,
        ensures
            final(self)@ == old(self)@.ticked(),
            final(self)@.level.wf(),
    {
        let pac = *self.level.get_pacman();
        let ghost start = self.level@;
        if pac.next_direction != pac.direction && self.level.is_walkable(&pac.position, &pac.next_direction) {
            let m = self.level.get_pacman();
            m.set_direction(pac.next_direction);
            m.walk();
        } else if self.level.is_walkable(&pac.position, &pac.direction) {
            self.level.get_pacman().walk();
        }
        assert(self.level@ == (LevelView { pacman: moved(start, pac), ..start }));
        let position = self.level.get_pacman().position;
        match self.level.get_block_at_position(position) {
            Ok(Block::DOT) => {
                let _ = self.level.clear_position(position);
                self.points = self.points + 1;
            },
            _ => {},
        }
    }

    /// Queues the direction received from the input, if any; no input leaves
    /// the game as it was.
    pub fn handle_input(&mut self, input: Option<Direction>)
        ensures
            final(self)@ == match input {
                Some(d) => GameView {
                    level: LevelView {
                        pacman: Mobile { next_direction: d, ..old(self)@.level.pacman },
                        ..old(self)@.level
                    },
                    ..old(self)@
                },
                None => old(self)@,
            },
    {
        match input {
            Some(direction) => self.level.get_pacman().set_next_direction(direction),
            None => {},
        }
    }

    /// The pause before the next tick, in milliseconds: 100 while the player
    /// faces up or down, 50 while it faces left or right.
    pub fn tick_millis(&self) -> (r: u64)
        ensures
            r == match self@.level.pacman.direction {
                Direction::UP | Direction::DOWN => 100u64,
                Direction::LEFT | Direction::RIGHT => 50u64,
            },
    {
        match self.level.pacman().direction {
            Direction::UP | Direction::DOWN => 100,
            Direction::LEFT | Direction::RIGHT => 50,
        }
    }
}

} // verus!
