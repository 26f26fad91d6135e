//! The dungeon grid: its cells, how a level is laid out, and what can be walked on.

use crate::random::gen_ratio;
use vstd::prelude::*;

verus! {

/// One square of the dungeon.
#[derive(Clone, Copy, PartialEq, Eq, Structural, Debug)]
pub enum Cell {
    Wall,
    Floor,
    Exit,
}

/// Floor and the exit can be stepped on; walls cannot.
pub open spec fn is_walkable_cell(c: Cell) -> bool {
    c is Floor || c is Exit
}

/// The square that level generation fixes at `(x, y)` of a `w` by `h` level, if
/// it fixes one: the player's spawn and its two neighbours are floor, the two
/// approaches to the exit are floor, the exit sits one square in from the
/// bottom-right corner, and the border is wall. Later rules in the list override
/// earlier ones where they meet (on very small levels).
pub open spec fn fixed_cell(w: int, h: int, x: int, y: int) -> Option<Cell> {
    if (x == 1 && y == 1) || (x == 2 && y == 1) || (x == 1 && y == 2) {
        Some(Cell::Floor)
    } else if (x == w - 2 && y == h - 3) || (x == w - 3 && y == h - 2) {
        Some(Cell::Floor)
    } else if x == w - 2 && y == h - 2 {
        Some(Cell::Exit)
    } else if x == 0 || y == 0 || x == w - 1 || y == h - 1 {
        Some(Cell::Wall)
    } else {
        None
    }
}

/// The square at `(x, y)` of a generated level, where `wall` is the draw that
/// decides an interior square that generation does not fix.
pub open spec fn layout_cell(w: int, h: int, x: int, y: int, wall: bool) -> Cell {
    match fixed_cell(w, h, x, y) {
        Some(c) => c,
        None => if wall {
            Cell::Wall
        } else {
            Cell::Floor
        },
    }
}

/// A rectangular dungeon level. `cells[y][x]` is the square at column `x`, row `y`.
pub struct DungeonMap {
    pub width: usize,
    pub height: usize,
    pub cells: Vec<Vec<Cell>>,
}

fn generated_cell(width: usize, height: usize, x: usize, y: usize, wall: bool) -> (c: Cell)
    requires
        3 <= width,
        3 <= height,
    ensures
        c == layout_cell(width as int, height as int, x as int, y as int, wall),
{
    if (x == 1 && y == 1) || (x == 2 && y == 1) || (x == 1 && y == 2) {
        Cell::Floor
    } else if (x == width - 2 && y == height - 3) || (x == width - 3 && y == height - 2) {
        Cell::Floor
    } else if x == width - 2 && y == height - 2 {
        Cell::Exit
    } else if x == 0 || y == 0 || x == width - 1 || y == height - 1 {
        Cell::Wall
    } else if wall {
        Cell::Wall
    } else {
        Cell::Floor
    }
}

impl DungeonMap {
    /// The grid holds `height` rows of `width` squares each.
    pub open spec fn wf(&self) -> bool {
        &&& self.cells@.len() == self.height
        &&& forall|y: int| 0 <= y < self.height ==> #[trigger] self.cells@[y]@.len() == self.width
    }

    pub open spec fn in_bounds(&self, x: int, y: int) -> bool {
        0 <= x < self.width && 0 <= y < self.height
    }

    /// Where `(x, y)` lies within `width` and `height`, the grid holds a square for it.
    pub open spec fn covers(&self, x: int, y: int) -> bool {
        self.in_bounds(x, y) ==> (y < self.cells@.len() && x < self.cells@[y]@.len())
    }

    pub open spec fn cell_at(&self, x: int, y: int) -> Cell {
        self.cells@[y]@[x]
    }

    pub open spec fn walkable_at(&self, x: int, y: int) -> bool {
        is_walkable_cell(self.cell_at(x, y))
    }

    /// Every square is the one generation fixes there, or, where it fixes none,
    /// wall or floor.
    pub open spec fn is_generated(&self) -> bool {
        forall|x: int, y: int|
            #![trigger self.cells@[y]@[x]]
            self.in_bounds(x, y) ==> match fixed_cell(self.width as int, self.height as int, x, y) {
                Some(c) => self.cell_at(x, y) == c,
                None => self.cell_at(x, y) is Wall || self.cell_at(x, y) is Floor,
            }
    }

    /// Lays out a level from the draws for its interior: `walls[y][x]` says whether
    /// an interior square that generation does not fix is a wall.
    pub fn from_layout(width: usize, height: usize, walls: &Vec<Vec<bool>>) -> (map: DungeonMap)
        requires
            3 <= width,
            3 <= height,
            walls@.len() == height,
            forall|y: int| 0 <= y < height ==> #[trigger] walls@[y]@.len() == width,
        ensures
            map.width == width,
            map.height == height,
            map.wf(),
            forall|x: int, y: int|
                #![trigger map.cells@[y]@[x]]
                map.in_bounds(x, y) ==> map.cell_at(x, y) == layout_cell(
                    width as int,
                    height as int,
                    x,
                    y,
                    walls@[y]@[x],
                ),
    {
        let mut cells: Vec<Vec<Cell>> = Vec::new();
        for y in 0..height
            invariant
                3 <= width,
                3 <= height,
                walls@.len() == height,
                forall|yy: int| 0 <= yy < height ==> #[trigger] walls@[yy]@.len() == width,
                cells@.len() == y,
                forall|yy: int| 0 <= yy < y ==> #[trigger] cells@[yy]@.len() == width,
                forall|x: int, yy: int|
                    #![trigger cells@[yy]@[x]]
                    0 <= x < width && 0 <= yy < y ==> cells@[yy]@[x] == layout_cell(
                        width as int,
                        height as int,
                        x,
                        yy,
                        walls@[yy]@[x],
                    ),
        {
            let mut row: Vec<Cell> = Vec::new();
            for x in 0..width
                invariant
                    3 <= width,
                    3 <= height,
                    y < height,
                    walls@.len() == height,
                    walls@[y as int]@.len() == width,
                    row@.len() == x,
                    forall|xx: int|
                        0 <= xx < x ==> #[trigger] row@[xx] == layout_cell(
                            width as int,
                            height as int,
                            xx,
                            y as int,
                            walls@[y as int]@[xx],
                        ),
            {
                row.push(generated_cell(width, height, x, y, walls[y][x]));
            }
            cells.push(row);
        }
        DungeonMap { width, height, cells }
    }

    /// Generates a `width` by `height` level: the border is wall, about one interior
    /// square in five becomes a wall at random, the exit sits one square in from the
    /// bottom-right corner with its two approaches cleared, and the player's spawn
    /// at `(1, 1)` and its two neighbours are floor.
    pub fn new(width: usize, height: usize) -> (map: DungeonMap)
        requires
            3 <= width,
            3 <= height,
        ensures
            map.width == width,
            map.height == height,
            map.wf(),
            map.is_generated(),
    {
        let mut rng = rand::thread_rng();
        let mut walls: Vec<Vec<bool>> = Vec::new();
        for y in 0..height
            invariant
                3 <= width,
                3 <= height,
                walls@.len() == y,
                forall|yy: int| 0 <= yy < y ==> #[trigger] walls@[yy]@.len() == width,
        {
            let mut row: Vec<bool> = Vec::new();
            for x in 0..width
                invariant
                    3 <= width,
                    3 <= height,
                    row@.len() == x,
            {
                let interior = 0 < x && x < width - 1 && 0 < y && y < height - 1;
                let wall = if interior {
                    gen_ratio(&mut rng, 1, 5)
                } else {
                    false
                };
                row.push(wall);
            }
            walls.push(row);
        }
        let map = Self::from_layout(width, height, &walls);
        assert forall|x: int, y: int|
            #![trigger map.cells@[y]@[x]]
            map.in_bounds(x, y) implies match fixed_cell(width as int, height as int, x, y) {
                Some(c) => map.cell_at(x, y) == c,
                None => map.cell_at(x, y) is Wall || map.cell_at(x, y) is Floor,
            } by {
            assert(map.cell_at(x, y) == layout_cell(width as int, height as int, x, y, walls@[y]@[x]));
        }
        map
    }

    /// Whether the square at `(x, y)` can be stepped on.
    pub fn is_walkable(&self, x: usize, y: usize) -> (r: bool)
        requires
            y < self.cells@.len(),
            x < self.cells@[y as int]@.len(),
        ensures
            r == is_walkable_cell(self.cells@[y as int]@[x as int]),
    {
        match self.cells[y][x] {
            Cell::Floor => true,
            Cell::Exit => true,
            Cell::Wall => false,
        }
    }

    /// Whether the square at `(x, y)` is the exit.
    pub fn is_exit(&self, x: usize, y: usize) -> (r: bool)
        requires
            y < self.cells@.len(),
            x < self.cells@[y as int]@.len(),
        ensures
            r == (self.cells@[y as int]@[x as int] is Exit),
    {
        self.cells[y][x] == Cell::Exit
    }
}

/// On a generated level of at least four squares each way, the whole border is
/// wall, the exit is the square one in from the bottom-right corner and no other
/// square is an exit, and the spawn `(1, 1)` and its neighbours `(2, 1)` and
/// `(1, 2)` are floor.
pub proof fn lemma_generated_level(map: &DungeonMap)
    requires
        map.wf(),
        map.is_generated(),
        4 <= map.width,
        4 <= map.height,
    ensures
        forall|x: int, y: int|
            #![trigger map.cells@[y]@[x]]
            map.in_bounds(x, y) && (x == 0 || y == 0 || x == map.width - 1 || y == map.height - 1)
                ==> map.cell_at(x, y) is Wall,
        forall|x: int, y: int|
            #![trigger map.cells@[y]@[x]]
            map.in_bounds(x, y) ==> (map.cell_at(x, y) is Exit <==> (x == map.width - 2 && y
                == map.height - 2)),
        map.cell_at(1, 1) is Floor,
        map.cell_at(2, 1) is Floor,
        map.cell_at(1, 2) is Floor,
{
    assert(map.cells@[1]@[1] == map.cell_at(1, 1));
    assert(map.cells@[1]@[2] == map.cell_at(2, 1));
    assert(map.cells@[2]@[1] == map.cell_at(1, 2));
}

} // verus!
