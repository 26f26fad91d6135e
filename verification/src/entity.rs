//! The player and the enemies, and what they share.

use crate::level::DungeonMap;
use crate::random::gen_index;
use vstd::prelude::*;

verus! {

/// What the player and the enemies have in common.
pub trait Entity {
    spec fn spec_position(&self) -> (usize, usize);

    spec fn spec_hp(&self) -> i32;

    spec fn spec_attack(&self) -> i32;

    spec fn spec_symbol(&self) -> char;

    fn position(&self) -> (r: (usize, usize))
        ensures
            r == self.spec_position(),
    ;

    fn hp(&self) -> (r: i32)
        ensures
            r == self.spec_hp(),
    ;

    fn attack(&self) -> (r: i32)
        ensures
            r == self.spec_attack(),
    ;

    /// An entity is alive while its hit points are positive.
    fn is_alive(&self) -> (r: bool)
        ensures
            r == (self.spec_hp() > 0),
    {
        self.hp() > 0
    }

    fn symbol(&self) -> (r: char)
        ensures
            r == self.spec_symbol(),
    ;
}

/// The coordinate reached from `p` by a move of `d`, computed as the game does:
/// in `i32`, from `p` cast to `i32`.
pub open spec fn step(p: usize, d: i32) -> int {
    (p as i32) + d
}

/// A move of `d` from `p` stays within `i32`.
pub open spec fn step_fits(p: usize, d: i32) -> bool {
    i32::MIN <= step(p, d) <= i32::MAX
}

/// `(x, y)` lies on the level and can be walked on.
pub open spec fn can_enter(map: &DungeonMap, x: int, y: int) -> bool {
    map.in_bounds(x, y) && map.walkable_at(x, y)
}

// --- The player ---

/// The hero, steered by the keyboard.
pub struct Player {
    pub x: usize,
    pub y: usize,
    pub hp: i32,
    pub max_hp: i32,
    pub attack: i32,
}

impl Player {
    /// A fresh player at `(x, y)` with 30 of 30 hit points and an attack of 8.
    pub fn new(x: usize, y: usize) -> (p: Player)
        ensures
            p == (Player { x, y, hp: 30, max_hp: 30, attack: 8 }),
    {
        Player { x, y, hp: 30, max_hp: 30, attack: 8 }
    }

    /// Tries to move by `(dx, dy)`. The move happens, and `true` comes back, exactly
    /// when the target square lies on the level and can be walked on; otherwise the
    /// player stays put and `false` comes back.
    pub fn try_move(&mut self, dx: i32, dy: i32, map: &DungeonMap) -> (moved: bool)
        requires
            map.covers(step(old(self).x, dx), step(old(self).y, dy)),
            step_fits(old(self).x, dx),
            step_fits(old(self).y, dy),
        ensures
            moved == can_enter(map, step(old(self).x, dx), step(old(self).y, dy)),
            *final(self) == (if moved {
                Player {
                    x: step(old(self).x, dx) as usize,
                    y: step(old(self).y, dy) as usize,
                    ..*old(self)
                }
            } else {
                *old(self)
            }),
    {
        let nx = self.x as i32 + dx;
        let ny = self.y as i32 + dy;

        if nx < 0 || ny < 0 {
            return false;
        }
        let nx = nx as usize;
        let ny = ny as usize;

        if ny >= map.height || nx >= map.width {
            return false;
        }
        if map.is_walkable(nx, ny) {
            self.x = nx;
            self.y = ny;
            true
        } else {
            false
        }
    }

    /// Restores `amount` hit points, never above the maximum.
    pub fn heal(&mut self, amount: i32)
        requires
            i32::MIN <= old(self).hp + amount <= i32::MAX,
        ensures
            final(self).hp == (if old(self).hp + amount <= old(self).max_hp {
                old(self).hp + amount
            } else {
                old(self).max_hp as int
            }),
            *final(self) == (Player { hp: final(self).hp, ..*old(self) }),
    {
        let healed = self.hp + amount;
        self.hp = if healed <= self.max_hp {
            healed
        } else {
            self.max_hp
        };
    }

    /// Loses `amount` hit points.
    pub fn take_damage(&mut self, amount: i32)
        requires
            i32::MIN <= old(self).hp - amount <= i32::MAX,
        ensures
            *final(self) == (Player { hp: (old(self).hp - amount) as i32, ..*old(self) }),
    {
        self.hp = self.hp - amount;
    }
}

impl Entity for Player {
    open spec fn spec_position(&self) -> (usize, usize) {
        (self.x, self.y)
    }

    open spec fn spec_hp(&self) -> i32 {
        self.hp
    }

    open spec fn spec_attack(&self) -> i32 {
        self.attack
    }

    open spec fn spec_symbol(&self) -> char {
        '@'
    }

    fn position(&self) -> (r: (usize, usize)) {
        (self.x, self.y)
    }

    fn hp(&self) -> (r: i32) {
        self.hp
    }

    fn attack(&self) -> (r: i32) {
        self.attack
    }

    fn symbol(&self) -> (r: char) {
        '@'
    }
}

// --- Kinds of enemy ---

/// The three kinds of monster.
#[derive(Clone, Copy, PartialEq, Eq, Structural, Debug)]
pub enum EnemyKind {
    Goblin,
    Troll,
    Skeleton,
}

/// Starting hit points and attack of each kind.
pub open spec fn kind_stats(kind: EnemyKind) -> (i32, i32) {
    match kind {
        EnemyKind::Goblin => (10, 4),
        EnemyKind::Troll => (20, 7),
        EnemyKind::Skeleton => (14, 5),
    }
}

/// The letter each kind is drawn with.
pub open spec fn kind_symbol(kind: EnemyKind) -> char {
    match kind {
        EnemyKind::Goblin => 'g',
        EnemyKind::Troll => 'T',
        EnemyKind::Skeleton => 's',
    }
}

/// The name each kind goes by in the journal.
pub open spec fn kind_name(kind: EnemyKind) -> Seq<char> {
    match kind {
        EnemyKind::Goblin => "Goblin"@,
        EnemyKind::Troll => "Troll"@,
        EnemyKind::Skeleton => "Squelette"@,
    }
}

impl EnemyKind {
    /// `(hit points, attack)` of a fresh enemy of this kind.
    pub fn stats(&self) -> (r: (i32, i32))
        ensures
            r == kind_stats(*self),
    {
        match self {
            EnemyKind::Goblin => (10, 4),
            EnemyKind::Troll => (20, 7),
            EnemyKind::Skeleton => (14, 5),
        }
    }

    pub fn symbol(&self) -> (r: char)
        ensures
            r == kind_symbol(*self),
    {
        match self {
            EnemyKind::Goblin => 'g',
            EnemyKind::Troll => 'T',
            EnemyKind::Skeleton => 's',
        }
    }

    pub fn name(&self) -> (r: &str)
        ensures
            r@ == kind_name(*self),
    {
        match self {
            EnemyKind::Goblin => "Goblin",
            EnemyKind::Troll => "Troll",
            EnemyKind::Skeleton => "Squelette",
        }
    }
}

// --- Enemies ---

/// A monster roaming the level.
pub struct Enemy {
    pub x: usize,
    pub y: usize,
    pub hp: i32,
    pub attack: i32,
    pub kind: EnemyKind,
}

/// The one-square move of `(dx, dy)` from `(x, y)` as a candidate: present when it
/// lands on the level, on a walkable square, outside `occupied`.
pub open spec fn move_option(
    map: &DungeonMap,
    occupied: Seq<(usize, usize)>,
    x: usize,
    y: usize,
    dx: i32,
    dy: i32,
) -> Seq<(usize, usize)> {
    let nx = step(x, dx);
    let ny = step(y, dy);
    if can_enter(map, nx, ny) && !occupied.contains((nx as usize, ny as usize)) {
        seq![(nx as usize, ny as usize)]
    } else {
        seq![]
    }
}

/// The squares an enemy at `(x, y)` may wander to, in the order up, down, left, right.
pub open spec fn wander_targets(
    map: &DungeonMap,
    occupied: Seq<(usize, usize)>,
    x: usize,
    y: usize,
) -> Seq<(usize, usize)> {
    move_option(map, occupied, x, y, 0i32, -1i32) + move_option(map, occupied, x, y, 0i32, 1i32)
        + move_option(map, occupied, x, y, -1i32, 0i32) + move_option(map, occupied, x, y, 1i32, 0i32)
}

/// Each of the four squares next to `(x, y)` that lies within the level's width
/// and height has a square in the grid.
pub open spec fn neighbours_covered(map: &DungeonMap, x: usize, y: usize) -> bool {
    &&& map.covers(step(x, 0i32), step(y, -1i32))
    &&& map.covers(step(x, 0i32), step(y, 1i32))
    &&& map.covers(step(x, -1i32), step(y, 0i32))
    &&& map.covers(step(x, 1i32), step(y, 0i32))
}

/// A one-square move from `(x, y)` in any direction stays within `i32`.
pub open spec fn wander_fits(x: usize, y: usize) -> bool {
    &&& i32::MIN < (x as i32) < i32::MAX
    &&& i32::MIN < (y as i32) < i32::MAX
}

fn contains_square(squares: &[(usize, usize)], x: usize, y: usize) -> (r: bool)
    ensures
        r == squares@.contains((x, y)),
{
    let mut i: usize = 0;
    while i < squares.len()
        invariant
            0 <= i <= squares@.len(),
            forall|j: int| 0 <= j < i ==> squares@[j] != (x, y),
        decreases squares@.len() - i,
    {
        let (a, b) = squares[i];
        if a == x && b == y {
            assert(squares@[i as int] == (x, y));
            return true;
        }
        i += 1;
    }
    false
}

impl Enemy {
    /// A fresh enemy of `kind` at `(x, y)`, with that kind's hit points and attack.
    pub fn new(x: usize, y: usize, kind: EnemyKind) -> (e: Enemy)
        ensures
            e == (Enemy { x, y, hp: kind_stats(kind).0, attack: kind_stats(kind).1, kind }),
    {
        let (hp, attack) = kind.stats();
        Enemy { x, y, hp, attack, kind }
    }

    /// Loses `amount` hit points.
    pub fn take_damage(&mut self, amount: i32)
        requires
            i32::MIN <= old(self).hp - amount <= i32::MAX,
        ensures
            *final(self) == (Enemy { hp: (old(self).hp - amount) as i32, ..*old(self) }),
    {
        self.hp = self.hp - amount;
    }

    fn push_if_free(
        &self,
        dx: i32,
        dy: i32,
        map: &DungeonMap,
        occupied: &[(usize, usize)],
        moves: &mut Vec<(usize, usize)>,
    )
        requires
            map.covers(step(self.x, dx), step(self.y, dy)),
            step_fits(self.x, dx),
            step_fits(self.y, dy),
        ensures
            final(moves)@ == old(moves)@ + move_option(map, occupied@, self.x, self.y, dx, dy),
    {
        let nx = self.x as i32 + dx;
        let ny = self.y as i32 + dy;
        if nx < 0 || ny < 0 {
            assert(old(moves)@ + seq![] == old(moves)@);
            return ;
        }
        let nx = nx as usize;
        let ny = ny as usize;
        if ny < map.height && nx < map.width && map.is_walkable(nx, ny) && !contains_square(
            occupied,
            nx,
            ny,
        ) {
            moves.push((nx, ny));
        } else {
            assert(old(moves)@ + seq![] == old(moves)@);
        }
    }

    /// The squares this enemy may wander to: of the four neighbours up, down,
    /// left and right (in that order), those on the level, walkable, and not in
    /// `occupied`.
    pub fn open_moves(&self, map: &DungeonMap, occupied: &[(usize, usize)]) -> (moves: Vec<
        (usize, usize),
    >)
        requires
            neighbours_covered(map, self.x, self.y),
            wander_fits(self.x, self.y),
        ensures
            moves@ == wander_targets(map, occupied@, self.x, self.y),
    {
        let mut moves: Vec<(usize, usize)> = Vec::new();
        self.push_if_free(0, -1, map, occupied, &mut moves);
        self.push_if_free(0, 1, map, occupied, &mut moves);
        self.push_if_free(-1, 0, map, occupied, &mut moves);
        self.push_if_free(1, 0, map, occupied, &mut moves);
        assert(moves@ =~= wander_targets(map, occupied@, self.x, self.y));
        moves
    }

    /// Moves at random to one of the squares of `open_moves`, or stays put when
    /// there is none. Nothing but the position changes.
    pub fn wander(&mut self, map: &DungeonMap, occupied: &[(usize, usize)])
        requires
            neighbours_covered(map, old(self).x, old(self).y),
            wander_fits(old(self).x, old(self).y),
        ensures
            final(self).hp == old(self).hp,
            final(self).attack == old(self).attack,
            final(self).kind == old(self).kind,
            wander_targets(map, occupied@, old(self).x, old(self).y).len() == 0 ==> (final(self).x
                == old(self).x && final(self).y == old(self).y),
            wander_targets(map, occupied@, old(self).x, old(self).y).len() > 0
                ==> wander_targets(map, occupied@, old(self).x, old(self).y).contains(
                (final(self).x, final(self).y),
            ),
    {
        let mut rng = rand::thread_rng();
        let moves = self.open_moves(map, occupied);
        if moves.len() > 0 {
            let idx = gen_index(&mut rng, 0, moves.len());
            let (nx, ny) = moves[idx];
            self.x = nx;
            self.y = ny;
            assert(moves@[idx as int] == (nx, ny));
        }
    }

    /// The name of this enemy's kind.
    pub fn name(&self) -> (r: &str)
        ensures
            r@ == kind_name(self.kind),
    {
        self.kind.name()
    }
}

impl Entity for Enemy {
    open spec fn spec_position(&self) -> (usize, usize) {
        (self.x, self.y)
    }

    open spec fn spec_hp(&self) -> i32 {
        self.hp
    }

    open spec fn spec_attack(&self) -> i32 {
        self.attack
    }

    open spec fn spec_symbol(&self) -> char {
        kind_symbol(self.kind)
    }

    fn position(&self) -> (r: (usize, usize)) {
        (self.x, self.y)
    }

    fn hp(&self) -> (r: i32) {
        self.hp
    }

    fn attack(&self) -> (r: i32) {
        self.attack
    }

    fn symbol(&self) -> (r: char) {
        self.kind.symbol()
    }
}

} // verus!
