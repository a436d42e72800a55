//! The maze: cells, positions, moving entities and walkability rules.

use vstd::prelude::*;

verus! {

/// A cell coordinate: `y` is the row, `x` the column.
#[derive(Debug, Clone, Copy, PartialEq, Eq, Structural)]
pub struct Position {
    pub y: usize,
    pub x: usize,
}

#[derive(Debug, Clone, Copy, PartialEq, Eq, Structural)]
pub enum Direction {
    UP,
    DOWN,
    LEFT,
    RIGHT,
}

/// The kind of a maze cell. `OTHER` is an empty, walkable cell.
#[derive(Debug, Clone, Copy, PartialEq, Eq, Structural)]
pub enum Block {
    WALL,
    GATE,
    DOT,
    POWERUP,
    TELEPORT,
    OTHER,
}

/// The player or a ghost.
#[derive(Debug, Clone, Copy, PartialEq, Eq, Structural)]
pub struct Mobile {
    pub position: Position,
    pub previous_position: Position,
    pub direction: Direction,
    pub next_direction: Direction,
}

/// The position one cell away from `p` in direction `d`, over unbounded integers.
pub open spec fn step(p: Position, d: Direction) -> (int, int) {
    match d {
        Direction::LEFT => (p.y as int, p.x - 1),
        Direction::RIGHT => (p.y as int, p.x + 1),
        Direction::UP => (p.y - 1, p.x as int),
        Direction::DOWN => (p.y + 1, p.x as int),
    }
}

/// Whether a step from `p` in direction `d` stays within the range of `usize`.
pub open spec fn can_step(p: Position, d: Direction) -> bool {
    let (y, x) = step(p, d);
    0 <= y <= usize::MAX && 0 <= x <= usize::MAX
}

impl Mobile {
    /// A mobile at the origin facing left, with left queued.
    pub open spec fn default_spec() -> Mobile {
        Mobile {
            position: Position { y: 0, x: 0 },
            previous_position: Position { y: 0, x: 0 },
            direction: Direction::LEFT,
            next_direction: Direction::LEFT,
        }
    }

    /// The mobile after one step along its current direction.
    pub open spec fn walked(self) -> Mobile {
        let (y, x) = step(self.position, self.direction);
        Mobile { position: Position { y: y as usize, x: x as usize }, previous_position: self.position, ..self }
    }

    /// Whether `walk` may be called: the step does not leave the range of `usize`.
    pub open spec fn can_walk(self) -> bool {
        can_step(self.position, self.direction)
    }

    /// A mobile standing at `position` with both directions set to `direction`.
    pub fn new(position: Position, direction: Direction) -> (r: Mobile)
        ensures
            r == (Mobile { position, previous_position: position, direction, next_direction: direction }),
    {
        Mobile { position, previous_position: position, direction, next_direction: direction }
    }

    pub fn set_direction(&mut self, direction: Direction)
        ensures
            *final(self) == (Mobile { direction, ..*old(self) }),
    {
        self.direction = direction;
    }

    pub fn set_next_direction(&mut self, direction: Direction)
        ensures
            *final(self) == (Mobile { next_direction: direction, ..*old(self) }),
    {
        self.next_direction = direction;
    }

    /// Records the current position as the previous one, then moves one cell
    /// along the current direction. Walkability is the caller's concern.
    pub fn walk(&mut self)
        requires
            old(self).can_walk(),
        ensures
            *final(self) == old(self).walked(),
    {
        self.previous_position = self.position;
        match self.direction {
            Direction::LEFT => self.position.x = self.position.x - 1,
            Direction::RIGHT => self.position.x = self.position.x + 1,
            Direction::UP => self.position.y = self.position.y - 1,
            Direction::DOWN => self.position.y = self.position.y + 1,
        };
    }
}

impl Default for Mobile {
    fn default() -> (r: Mobile)
        ensures
            r == Mobile::default_spec(),
    {
        Mobile {
            position: Position { y: 0, x: 0 },
            previous_position: Position { y: 0, x: 0 },
            direction: Direction::LEFT,
            next_direction: Direction::LEFT,
        }
    }
}

/// Returned when a cell lookup falls outside the grid.
#[derive(Debug, Clone, Copy, PartialEq, Eq, Structural)]
pub struct OutOfBounds;

/// Whether a cell of kind `b` can be entered: anything but a wall or a gate.
pub open spec fn passable(b: Block) -> bool {
    b != Block::WALL && b != Block::GATE
}

/// The last position of `s` that differs from `from`.
pub open spec fn last_other(s: Seq<Position>, from: Position) -> Option<Position>
    decreases s.len(),
{
    if s.len() == 0 {
        None
    } else if s.last() != from {
        Some(s.last())
    } else {
        last_other(s.drop_last(), from)
    }
}

/// The cell kind that a level-file character stands for. Start markers for the
/// player and the ghosts, and any unknown character, give an empty cell.
pub open spec fn block_of(c: char) -> Block {
    if c == 'W' {
        Block::WALL
    } else if c == 'G' {
        Block::GATE
    } else if c == 'd' {
        Block::DOT
    } else if c == 'X' {
        Block::POWERUP
    } else if c == 'T' {
        Block::TELEPORT
    } else {
        Block::OTHER
    }
}

/// The start marker of ghost `k` (counted from 0): '1' to '4'.
pub open spec fn ghost_marker(k: int) -> char {
    if k == 0 {
        '1'
    } else if k == 1 {
        '2'
    } else if k == 2 {
        '3'
    } else {
        '4'
    }
}

/// The lines of a level file, each as a sequence of characters.
pub open spec fn text_of(rows: Seq<Vec<char>>) -> Seq<Seq<char>> {
    rows.map_values(|r: Vec<char>| r@)
}

/// Whether `a` comes before `b` in reading order (row by row, left to right).
pub open spec fn before(a: Position, b: Position) -> bool {
    a.y < b.y || (a.y == b.y && a.x < b.x)
}

/// Whether character `c` stands at `p` in `text`.
pub open spec fn occurs(text: Seq<Seq<char>>, c: char, p: Position) -> bool {
    0 <= p.y < text.len() && 0 <= p.x < text[p.y as int].len() && text[p.y as int][p.x as int] == c
}

/// Whether `p` is the last place of `c` in `text`, in reading order.
pub open spec fn is_last(text: Seq<Seq<char>>, c: char, p: Position) -> bool {
    occurs(text, c, p) && forall|q: Position| #[trigger] occurs(text, c, q) ==> !before(p, q)
}

/// The last place of `c` in `text`, in reading order, if `c` occurs at all.
pub open spec fn last_place(text: Seq<Seq<char>>, c: char) -> Option<Position> {
    if exists|p: Position| is_last(text, c, p) {
        Some(choose|p: Position| is_last(text, c, p))
    } else {
        None
    }
}

/// The player as a level file places it: at its marker, or the default mobile.
pub open spec fn placed_pacman(text: Seq<Seq<char>>) -> Mobile {
    match last_place(text, 'P') {
        Some(p) => Mobile { position: p, ..Mobile::default_spec() },
        None => Mobile::default_spec(),
    }
}

/// Ghost `k` as a level file places it: at its marker facing right, or the
/// default mobile.
pub open spec fn placed_ghost(text: Seq<Seq<char>>, k: int) -> Mobile {
    match last_place(text, ghost_marker(k)) {
        Some(p) => Mobile { position: p, previous_position: p, direction: Direction::RIGHT, next_direction: Direction::RIGHT },
        None => Mobile::default_spec(),
    }
}

/// `found` is the last place of `c` among the characters before `at`.
spec fn tracks(text: Seq<Seq<char>>, c: char, at: Position, found: Option<Position>) -> bool {
    match found {
        None => forall|q: Position| #[trigger] occurs(text, c, q) ==> !before(q, at),
        Some(p) => occurs(text, c, p) && before(p, at) && forall|q: Position| #[trigger] occurs(text, c, q) && before(q, at) ==> !before(p, q),
    }
}

proof fn lemma_tracks_done(text: Seq<Seq<char>>, c: char, found: Option<Position>)
    requires
        tracks(text, c, Position { y: text.len() as usize, x: 0 }, found),
        text.len() <= usize::MAX,
    ensures
        last_place(text, c) == found,
{
    match found {
        None => {
            assert(!exists|p: Position| is_last(text, c, p));
        },
        Some(p) => {
            assert(is_last(text, c, p));
            let q = choose|q: Position| is_last(text, c, q);
            assert(occurs(text, c, q));
            assert(q == p);
        },
    }
}

proof fn lemma_tracks_step(text: Seq<Seq<char>>, c: char, at: Position, next: Position, found: Option<Position>)
    requires
        tracks(text, c, at, found),
        0 <= at.y < text.len(),
        0 <= at.x < text[at.y as int].len(),
        at.x < usize::MAX,
        next == (Position { y: at.y, x: (at.x + 1) as usize }),
        text[at.y as int][at.x as int] != c,
    ensures
        tracks(text, c, next, found),
{
    assert forall|q: Position| #[trigger] occurs(text, c, q) && before(q, next) implies before(q, at) by {}
}

proof fn lemma_tracks_hit(text: Seq<Seq<char>>, c: char, at: Position, next: Position, found: Option<Position>)
    requires
        tracks(text, c, at, found),
        0 <= at.y < text.len(),
        0 <= at.x < text[at.y as int].len(),
        at.x < usize::MAX,
        next == (Position { y: at.y, x: (at.x + 1) as usize }),
        text[at.y as int][at.x as int] == c,
    ensures
        tracks(text, c, next, Some(at)),
{
}

proof fn lemma_tracks_row_end(text: Seq<Seq<char>>, c: char, at: Position, found: Option<Position>)
    requires
        tracks(text, c, at, found),
        0 <= at.y < text.len(),
        at.x == text[at.y as int].len(),
        at.y + 1 <= usize::MAX,
    ensures
        tracks(text, c, Position { y: (at.y + 1) as usize, x: 0 }, found),
{
    let next = Position { y: (at.y + 1) as usize, x: 0 };
    assert forall|q: Position| #[trigger] occurs(text, c, q) && before(q, next) implies before(q, at) by {}
}

/// The player placed at `found`, or the default mobile.
spec fn placed_at_pacman(found: Option<Position>) -> Mobile {
    match found {
        Some(p) => Mobile { position: p, ..Mobile::default_spec() },
        None => Mobile::default_spec(),
    }
}

/// A ghost placed at `found` facing right, or the default mobile.
spec fn placed_at_ghost(found: Option<Position>) -> Mobile {
    match found {
        Some(p) => Mobile { position: p, previous_position: p, direction: Direction::RIGHT, next_direction: Direction::RIGHT },
        None => Mobile::default_spec(),
    }
}

proof fn lemma_tracks_move(text: Seq<Seq<char>>, c: char, at: Position, next: Position, found: Option<Position>)
    requires
        tracks(text, c, at, found),
        0 <= at.y < text.len(),
        0 <= at.x < text[at.y as int].len(),
        at.x < usize::MAX,
        next == (Position { y: at.y, x: (at.x + 1) as usize }),
    ensures
        tracks(text, c, next, if text[at.y as int][at.x as int] == c { Some(at) } else { found }),
{
    if text[at.y as int][at.x as int] == c {
        lemma_tracks_hit(text, c, at, next, found);
    } else {
        lemma_tracks_step(text, c, at, next, found);
    }
}

fn block_for(c: char) -> (r: Block)
    ensures
        r == block_of(c),
{
    match c {
        'W' => Block::WALL,
        'G' => Block::GATE,
        'd' => Block::DOT,
        'X' => Block::POWERUP,
        'T' => Block::TELEPORT,
        _ => Block::OTHER,
    }
}

/// The cells that `LevelView::walkable` inspects for a move from `p` in
/// direction `d`, as (row, column) pairs.
pub open spec fn destination_cells(p: Position, d: Direction) -> Seq<(int, int)> {
    let (y, x) = (p.y as int, p.x as int);
    match d {
        Direction::LEFT => seq![(y, x - 1)],
        Direction::RIGHT => seq![(y, x + 2)],
        Direction::UP => seq![(y - 1, x), (y - 1, x + 1)],
        Direction::DOWN => seq![(y + 1, x), (y + 1, x + 1)],
    }
}

/// A move is never walkable when one of the cells it inspects is a wall or a
/// gate.
pub proof fn lemma_wall_blocks(level: LevelView, p: Position, d: Direction, i: int)
    requires
        0 <= i < destination_cells(p, d).len(),
        level.cell(destination_cells(p, d)[i].0, destination_cells(p, d)[i].1) == Some(Block::WALL)
            || level.cell(destination_cells(p, d)[i].0, destination_cells(p, d)[i].1) == Some(Block::GATE),
    ensures
        !level.walkable(p, d),
{
}

/// A move is walkable when every cell it inspects holds a dot, a power-up or
/// nothing.
pub proof fn lemma_open_cells_walkable(level: LevelView, p: Position, d: Direction)
    requires
        forall|i: int| 0 <= i < destination_cells(p, d).len() ==> {
            let c = #[trigger] level.cell(destination_cells(p, d)[i].0, destination_cells(p, d)[i].1);
            c == Some(Block::DOT) || c == Some(Block::POWERUP) || c == Some(Block::OTHER)
        },
    ensures
        level.walkable(p, d),
{
    let cells = destination_cells(p, d);
    assert(level.cell(cells[0].0, cells[0].1) is Some);
    if cells.len() == 2 {
        assert(level.cell(cells[1].0, cells[1].1) is Some);
    }
}

/// A walk moves one cell along exactly one axis and remembers the cell it left;
/// a second walk moves one more cell the same way and remembers only the cell in
/// between.
pub proof fn lemma_walk_twice(m: Mobile)
    requires
        m.can_walk(),
        m.walked().can_walk(),
    ensures
        ({
            let (p, q, r) = (m.position, m.walked().position, m.walked().walked().position);
            &&& m.walked().previous_position == p
            &&& m.walked().walked().previous_position == q
            &&& m.walked().walked().direction == m.direction
            &&& ((q.y == p.y && (q.x == p.x + 1 || q.x == p.x - 1)) || (q.x == p.x && (q.y == p.y + 1 || q.y == p.y - 1)))
            &&& r.y - q.y == q.y - p.y
            &&& r.x - q.x == q.x - p.x
        }),
{
}

/// The maze grid with the player, the four ghosts and the teleport cells.
pub struct Level {
    grid: Vec<Vec<Block>>,
    pacman: Mobile,
    ghosts: [Mobile; 4],
    teleports: Vec<Position>,
}

/// The mathematical content of a `Level`.
pub struct LevelView {
    pub grid: Seq<Seq<Block>>,
    pub pacman: Mobile,
    pub ghosts: Seq<Mobile>,
    pub teleports: Seq<Position>,
}

impl LevelView {
    /// Well-formedness: the grid's extents fit in `usize`, there are four
    /// ghosts, and teleport positions are recorded at most once each.
    pub open spec fn wf(self) -> bool {
        &&& self.grid.len() <= usize::MAX
        &&& forall|y: int| 0 <= y < self.grid.len() ==> #[trigger] self.grid[y].len() <= usize::MAX
        &&& self.ghosts.len() == 4
        &&& self.teleports.no_duplicates()
    }

    pub open spec fn height(self) -> int {
        self.grid.len() as int
    }

    /// The length of the first row, or 0 for a grid without rows.
    pub open spec fn width(self) -> int {
        if self.grid.len() == 0 {
            0
        } else {
            self.grid[0].len() as int
        }
    }

    pub open spec fn in_bounds(self, y: int, x: int) -> bool {
        0 <= y < self.grid.len() && 0 <= x < self.grid[y].len()
    }

    /// The cell at row `y`, column `x`, if the grid has one there.
    pub open spec fn cell(self, y: int, x: int) -> Option<Block> {
        if self.in_bounds(y, x) {
            Some(self.grid[y][x])
        } else {
            None
        }
    }

    /// Whether the cell at (`y`, `x`) exists and can be entered.
    pub open spec fn open(self, y: int, x: int) -> bool {
        self.in_bounds(y, x) && passable(self.grid[y][x])
    }

    /// Whether a mobile at `p` can move in direction `d`. A mobile covers two
    /// cells, `p` and the one to its right: moving sideways checks the cell just
    /// past that footprint, moving up or down checks both cells of the row
    /// above or below.
    pub open spec fn walkable(self, p: Position, d: Direction) -> bool {
        let (y, x) = (p.y as int, p.x as int);
        match d {
            Direction::LEFT => self.open(y, x - 1),
            Direction::RIGHT => self.open(y, x + 2),
            Direction::UP => self.open(y - 1, x) && self.open(y - 1, x + 1),
            Direction::DOWN => self.open(y + 1, x) && self.open(y + 1, x + 1),
        }
    }

    /// The level with the cell at `p` made empty, where the grid has that cell.
    pub open spec fn cleared(self, p: Position) -> LevelView {
        if self.in_bounds(p.y as int, p.x as int) {
            LevelView {
                grid: self.grid.update(p.y as int, self.grid[p.y as int].update(p.x as int, Block::OTHER)),
                ..self
            }
        } else {
            self
        }
    }
}

impl View for Level {
    type V = LevelView;

    closed spec fn view(&self) -> LevelView {
        LevelView {
            grid: self.grid@.map_values(|row: Vec<Block>| row@),
            pacman: self.pacman,
            ghosts: self.ghosts@,
            teleports: self.teleports@,
        }
    }
}

impl Level {
    /// Builds a level from the lines of a level file: one grid row per line,
    /// one cell per character (see `block_of`). The player and each ghost start
    /// at the last place of their marker; teleport cells are recorded in
    /// reading order.
    pub fn new(rows: &Vec<Vec<char>>) -> (r: Level)
        ensures
            r@.wf(),
            r@.grid.len() == rows@.len(),
            forall|y: int| 0 <= y < rows@.len() ==> #[trigger] r@.grid[y] == rows@[y]@.map_values(|c: char| block_of(c)),
            r@.pacman == placed_pacman(text_of(rows@)),
            forall|k: int| 0 <= k < 4 ==> #[trigger] r@.ghosts[k] == placed_ghost(text_of(rows@), k),
            forall|p: Position| #[trigger] r@.teleports.contains(p) <==> occurs(text_of(rows@), 'T', p),
            forall|i: int, j: int| 0 <= i < j < r@.teleports.len() ==> before(#[trigger] r@.teleports[i], #[trigger] r@.teleports[j]),
    {
        let ghost text = text_of(rows@);
        let mut grid: Vec<Vec<Block>> = Vec::new();
        let mut pacman = Mobile::default();
        let mut ghost1 = Mobile::default();
        let mut ghost2 = Mobile::default();
        let mut ghost3 = Mobile::default();
        let mut ghost4 = Mobile::default();
        let mut teleports: Vec<Position> = Vec::new();
        let ghost mut found_p: Option<Position> = None;
        let ghost mut found_1: Option<Position> = None;
        let ghost mut found_2: Option<Position> = None;
        let ghost mut found_3: Option<Position> = None;
        let ghost mut found_4: Option<Position> = None;

        let mut y: usize = 0;
        while y < rows.len()
            invariant
                text == text_of(rows@),
                y <= rows@.len(),
                grid@.len() == y,
                forall|i: int| 0 <= i < y ==> #[trigger] grid@[i]@ == rows@[i]@.map_values(|c: char| block_of(c)),
                forall|i: int| 0 <= i < y ==> #[trigger] grid@[i]@.len() <= usize::MAX,
                tracks(text, 'P', Position { y, x: 0 }, found_p),
                tracks(text, '1', Position { y, x: 0 }, found_1),
                tracks(text, '2', Position { y, x: 0 }, found_2),
                tracks(text, '3', Position { y, x: 0 }, found_3),
                tracks(text, '4', Position { y, x: 0 }, found_4),
                pacman == placed_at_pacman(found_p),
                ghost1 == placed_at_ghost(found_1),
                ghost2 == placed_at_ghost(found_2),
                ghost3 == placed_at_ghost(found_3),
                ghost4 == placed_at_ghost(found_4),
                forall|i: int| 0 <= i < teleports@.len() ==> occurs(text, 'T', #[trigger] teleports@[i]) && before(teleports@[i], Position { y, x: 0 }),
                forall|q: Position| #[trigger] occurs(text, 'T', q) && before(q, Position { y, x: 0 }) ==> teleports@.contains(q),
                forall|i: int, j: int| 0 <= i < j < teleports@.len() ==> before(#[trigger] teleports@[i], #[trigger] teleports@[j]),
            decreases rows@.len() - y,
        {
            let line = &rows[y];
            assert(text[y as int] == line@);
            let mut row: Vec<Block> = Vec::new();
            let mut x: usize = 0;
            while x < line.len()
                invariant
                    text == text_of(rows@),
                    y < rows@.len(),
                    line@ == text[y as int],
                    x <= line@.len(),
                    row@ == line@.subrange(0, x as int).map_values(|c: char| block_of(c)),
                    tracks(text, 'P', Position { y, x }, found_p),
                    tracks(text, '1', Position { y, x }, found_1),
                    tracks(text, '2', Position { y, x }, found_2),
                    tracks(text, '3', Position { y, x }, found_3),
                    tracks(text, '4', Position { y, x }, found_4),
                    pacman == placed_at_pacman(found_p),
                    ghost1 == placed_at_ghost(found_1),
                    ghost2 == placed_at_ghost(found_2),
                    ghost3 == placed_at_ghost(found_3),
                    ghost4 == placed_at_ghost(found_4),
                    forall|i: int| 0 <= i < teleports@.len() ==> occurs(text, 'T', #[trigger] teleports@[i]) && before(teleports@[i], Position { y, x }),
                    forall|q: Position| #[trigger] occurs(text, 'T', q) && before(q, Position { y, x }) ==> teleports@.contains(q),
                    forall|i: int, j: int| 0 <= i < j < teleports@.len() ==> before(#[trigger] teleports@[i], #[trigger] teleports@[j]),
                decreases line@.len() - x,
            {
                let c = line[x];
                let here = Position { y, x };
                let next = Position { y, x: x + 1 };
                proof {
                    lemma_tracks_move(text, 'P', here, next, found_p);
                    lemma_tracks_move(text, '1', here, next, found_1);
                    lemma_tracks_move(text, '2', here, next, found_2);
                    lemma_tracks_move(text, '3', here, next, found_3);
                    lemma_tracks_move(text, '4', here, next, found_4);
                    if c == 'P' { found_p = Some(here); }
                    if c == '1' { found_1 = Some(here); }
                    if c == '2' { found_2 = Some(here); }
                    if c == '3' { found_3 = Some(here); }
                    if c == '4' { found_4 = Some(here); }
                }
                let ghost old_teleports = teleports@;
                if c == 'T' {
                    teleports.push(here);
                    proof {
                        assert(occurs(text, 'T', here));
                        assert forall|i: int, j: int| 0 <= i < j < teleports@.len() implies before(#[trigger] teleports@[i], #[trigger] teleports@[j]) by {
                            if j == old_teleports.len() {
                                assert(before(old_teleports[i], here));
                            } else {
                                assert(before(old_teleports[i], old_teleports[j]));
                            }
                        }
                        assert forall|q: Position| #[trigger] occurs(text, 'T', q) && before(q, next) implies teleports@.contains(q) by {
                            if q == here {
                                assert(teleports@[old_teleports.len() as int] == q);
                            } else {
                                assert(old_teleports.contains(q));
                                let i = choose|i: int| 0 <= i < old_teleports.len() && old_teleports[i] == q;
                                assert(teleports@[i] == q);
                            }
                        }
                    }
                } else if c == 'P' {
                    pacman.position = here;
                } else if c == '1' {
                    ghost1 = Mobile::new(here, Direction::RIGHT);
                } else if c == '2' {
                    ghost2 = Mobile::new(here, Direction::RIGHT);
                } else if c == '3' {
                    ghost3 = Mobile::new(here, Direction::RIGHT);
                } else if c == '4' {
                    ghost4 = Mobile::new(here, Direction::RIGHT);
                }
                row.push(block_for(c));
                proof {
                    assert forall|i: int| 0 <= i < teleports@.len() implies occurs(text, 'T', #[trigger] teleports@[i]) && before(teleports@[i], next) by {
                        if i < old_teleports.len() {
                            assert(teleports@[i] == old_teleports[i]);
                            assert(occurs(text, 'T', old_teleports[i]) && before(old_teleports[i], here));
                        }
                    }
                    assert(line@.subrange(0, x + 1).map_values(|c: char| block_of(c)) =~= line@.subrange(0, x as int).map_values(|c: char| block_of(c)).push(block_of(c)));
                }
                x = x + 1;
            }
            proof {
                assert(line@.subrange(0, x as int) =~= line@);
                let here = Position { y, x };
                lemma_tracks_row_end(text, 'P', here, found_p);
                lemma_tracks_row_end(text, '1', here, found_1);
                lemma_tracks_row_end(text, '2', here, found_2);
                lemma_tracks_row_end(text, '3', here, found_3);
                lemma_tracks_row_end(text, '4', here, found_4);
                assert forall|q: Position| #[trigger] occurs(text, 'T', q) && before(q, Position { y: (y + 1) as usize, x: 0 }) implies teleports@.contains(q) by {
                    assert(before(q, here));
                }
                assert forall|i: int| 0 <= i < teleports@.len() implies occurs(text, 'T', #[trigger] teleports@[i]) && before(teleports@[i], Position { y: (y + 1) as usize, x: 0 }) by {
                    assert(occurs(text, 'T', teleports@[i]) && before(teleports@[i], here));
                }
            }
            assert(row@.len() == x);
            grid.push(row);
            y = y + 1;
        }
        proof {
            lemma_tracks_done(text, 'P', found_p);
            lemma_tracks_done(text, '1', found_1);
            lemma_tracks_done(text, '2', found_2);
            lemma_tracks_done(text, '3', found_3);
            lemma_tracks_done(text, '4', found_4);
        }
        let level = Level { grid, pacman, ghosts: [ghost1, ghost2, ghost3, ghost4], teleports };
        proof {
            assert(level@.grid.len() == rows@.len());
            assert(level@.grid.len() == grid.len());
            assert forall|p: Position| #[trigger] level@.teleports.contains(p) <==> occurs(text, 'T', p) by {
                if occurs(text, 'T', p) {
                    assert(before(p, Position { y, x: 0 }));
                }
                if level@.teleports.contains(p) {
                    let i = choose|i: int| 0 <= i < teleports@.len() && teleports@[i] == p;
                    assert(occurs(text, 'T', teleports@[i]));
                }
            }
            assert forall|i: int, j: int| 0 <= i < level@.teleports.len() && 0 <= j < level@.teleports.len() && i != j
                implies level@.teleports[i] != level@.teleports[j] by {
                if i < j {
                    assert(before(level@.teleports[i], level@.teleports[j]));
                } else {
                    assert(before(level@.teleports[j], level@.teleports[i]));
                }
            }
            assert(level@.ghosts =~= seq![ghost1, ghost2, ghost3, ghost4]);
        }
        level
    }

    /// The teleport cell paired with `from_position`: the last recorded teleport
    /// other than it, if there is one.
    pub fn teleport(&self, from_position: Position) -> (r: Option<Position>)
        ensures
            r == last_other(self@.teleports, from_position),
    {
        let mut i: usize = self.teleports.len();
        assert(self@.teleports.subrange(0, i as int) =~= self@.teleports);
        while i > 0
            invariant
                i <= self.teleports@.len(),
                last_other(self@.teleports, from_position) == last_other(
                    self@.teleports.subrange(0, i as int),
                    from_position,
                ),
            decreases i,
        {
            let p = self.teleports[i - 1];
            let ghost prefix = self@.teleports.subrange(0, i as int);
            assert(prefix.drop_last() =~= self@.teleports.subrange(0, i - 1));
            if p != from_position {
                return Some(p);
            }
            i = i - 1;
        }
        None
    }

    pub fn get_pacman(&mut self) -> (r: &mut Mobile)
        ensures
            *r == old(self)@.pacman,
            final(self)@ == (LevelView { pacman: *final(r), ..old(self)@ }),
    {
        &mut self.pacman
    }

    pub fn pacman(&self) -> (r: &Mobile)
        ensures
            *r == self@.pacman,
    {
        &self.pacman
    }

    pub fn get_ghosts(&self) -> (r: &[Mobile; 4])
        ensures
            r@ == self@.ghosts,
    {
        &self.ghosts
    }

    pub fn get_block_at_position(&self, position: Position) -> (r: Result<Block, OutOfBounds>)
        ensures
            r == match self@.cell(position.y as int, position.x as int) {
                Some(b) => Ok(b),
                None => Err(OutOfBounds),
            },
    {
        self.get_block_at_point(position.y, position.x)
    }

    /// Makes the cell at `position` empty; fails, changing nothing, where the
    /// grid has no such cell.
    pub fn clear_position(&mut self, position: Position) -> (r: Result<(), OutOfBounds>)
        ensures
            r is Ok <==> old(self)@.in_bounds(position.y as int, position.x as int),
            final(self)@ == old(self)@.cleared(position),
            final(self)@.wf() == old(self)@.wf(),
    {
        if position.y >= self.grid.len() || position.x >= self.grid[position.y].len() {
            return Err(OutOfBounds);
        }
        self.grid[position.y][position.x] = Block::OTHER;
        proof {
            let (v, o) = (self@, old(self)@);
            assert(v.grid =~= o.cleared(position).grid);
            assert forall|y: int| 0 <= y < v.grid.len() implies #[trigger] v.grid[y].len() == o.grid[y].len() by {}
            assert(v.ghosts == o.ghosts);
            assert(v.teleports == o.teleports);
            assert(v.grid.len() == o.grid.len());
            if o.wf() {
                assert forall|y: int| 0 <= y < v.grid.len() implies #[trigger] v.grid[y].len() <= usize::MAX by {
                    assert(o.grid[y].len() <= usize::MAX);
                }
            }
            if v.wf() {
                assert forall|y: int| 0 <= y < o.grid.len() implies #[trigger] o.grid[y].len() <= usize::MAX by {
                    assert(v.grid[y].len() <= usize::MAX);
                }
            }
        }
        Ok(())
    }

    pub fn get_block_at_point(&self, y: usize, x: usize) -> (r: Result<Block, OutOfBounds>)
        ensures
            r == match self@.cell(y as int, x as int) {
                Some(b) => Ok(b),
                None => Err(OutOfBounds),
            },
    {
        if y >= self.grid.len() || x >= self.grid[y].len() {
            return Err(OutOfBounds);
        }
        Ok(self.grid[y][x])
    }

    pub fn height(&self) -> (r: usize)
        ensures
            r == self@.height(),
    {
        self.grid.len()
    }

    /// The length of the first row, or 0 for a grid without rows.
    pub fn width(&self) -> (r: usize)
        ensures
            r == self@.width(),
    {
        if self.grid.len() == 0 {
            0
        } else {
            self.grid[0].len()
        }
    }

    /// Whether the cell at (`y` + `dy`, `x` + `dx`) exists and can be entered.
    fn open_at(&self, y: usize, x: usize, dy: usize, dx: usize) -> (r: bool)
        ensures
            r == self@.open(y + dy, x + dx),
    {
        if dy > self.grid.len() || y >= self.grid.len() - dy {
            return false;
        }
        let row = &self.grid[y + dy];
        if dx > row.len() || x >= row.len() - dx {
            return false;
        }
        self.is_walkable_block(&row[x + dx])
    }

    /// Whether a mobile at `position` can move in `direction`; a move that would
    /// leave the grid is not walkable.
    pub fn is_walkable(&self, position: &Position, direction: &Direction) -> (r: bool)
        ensures
            r == self@.walkable(*position, *direction),
    {
        let (y, x) = (position.y, position.x);
        match direction {
            Direction::LEFT => x > 0 && self.open_at(y, x - 1, 0, 0),
            Direction::RIGHT => self.open_at(y, x, 0, 2),
            Direction::UP => y > 0 && self.open_at(y - 1, x, 0, 0) && self.open_at(y - 1, x, 0, 1),
            Direction::DOWN => self.open_at(y, x, 1, 0) && self.open_at(y, x, 1, 1),
        }
    }

    fn is_walkable_block(&self, block: &Block) -> (r: bool)
        ensures
            r == passable(*block),
    {
        match block {
            Block::WALL | Block::GATE => false,
            Block::DOT | Block::POWERUP | Block::TELEPORT | Block::OTHER => true,
        }
    }
}

} // verus!
