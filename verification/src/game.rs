//! A game in progress: the level, the player, the enemies and potions, the
//! journal, and the rules of a turn.

use crate::entity::{can_enter, kind_name, step, step_fits, Enemy, EnemyKind, Entity, Player};
use crate::journal::{
    game_over_text, hit_message, hit_text, kill_message, kill_text, victory_text, welcome_text,
};
use crate::level::{Cell, DungeonMap};
use crate::pickup::{after_pickup, lemma_pickup_hp_bounds, lies_at, pickup_hp, pickup_texts, pickups_fit};
use crate::potion::Potion;
use crate::random::gen_index;
use crate::spawn::{spawn_enemies, spawn_potions, spawned_enemies, spawned_potions};
use crate::wandering::{board_at, enemies_wandered, wander_step};
use vstd::prelude::*;

verus! {

/// Whether the game goes on, was won, or was lost.
#[derive(Clone, Copy, PartialEq, Eq, Structural, Debug)]
pub enum GameState {
    Playing,
    Victory,
    GameOver,
}

/// What is drawn on one square of the screen.
#[derive(Clone, Copy, PartialEq, Eq, Structural, Debug)]
pub enum Tile {
    Player,
    Enemy(EnemyKind),
    Potion,
    Wall,
    Floor,
    Exit,
}

/// A game in progress.
pub struct Game {
    pub map: DungeonMap,
    pub player: Player,
    pub enemies: Vec<Enemy>,
    pub potions: Vec<Potion>,
    pub log: Vec<String>,
    pub state: GameState,
    pub turn: u32,
}

// --- Who stands where ---

/// An enemy is alive while its hit points are positive.
pub open spec fn alive(e: Enemy) -> bool {
    e.hp > 0
}

/// The enemy stands at `(x, y)`.
pub open spec fn stands_at(e: Enemy, x: int, y: int) -> bool {
    e.x == x && e.y == y
}

/// Enemy `i` is alive and stands at `(x, y)`.
pub open spec fn living_at(enemies: Seq<Enemy>, i: int, x: int, y: int) -> bool {
    0 <= i < enemies.len() && alive(enemies[i]) && stands_at(enemies[i], x, y)
}

/// Enemy `i` is the first living enemy at `(x, y)`.
pub open spec fn first_living_at(enemies: Seq<Enemy>, i: int, x: int, y: int) -> bool {
    &&& living_at(enemies, i, x, y)
    &&& forall|j: int| 0 <= j < i ==> !living_at(enemies, j, x, y)
}

/// Every living enemy stands on a square of the level it can walk on, none
/// shares the player's square at `(px, py)`, and no two share a square.
pub open spec fn enemies_placed(map: &DungeonMap, px: usize, py: usize, enemies: Seq<Enemy>) -> bool {
    &&& forall|i: int|
        0 <= i < enemies.len() && alive(#[trigger] enemies[i]) ==> {
            &&& can_enter(map, enemies[i].x as int, enemies[i].y as int)
            &&& !stands_at(enemies[i], px as int, py as int)
        }
    &&& forall|i: int, j: int|
        0 <= i < enemies.len() && 0 <= j < enemies.len() && i != j && alive(#[trigger] enemies[i])
            && alive(#[trigger] enemies[j]) ==> !stands_at(enemies[i], enemies[j].x as int, enemies[j].y as int)
}

/// The texts of a journal.
pub open spec fn log_text(log: Seq<String>) -> Seq<Seq<char>> {
    log.map_values(|s: String| s@)
}

/// The journal lines that close a turn: the death notice when `hp` is gone.
pub open spec fn closing_text(hp: int) -> Seq<Seq<char>> {
    if hp <= 0 {
        seq![game_over_text()]
    } else {
        seq![]
    }
}

/// The state after a turn that left the player at `hp`.
pub open spec fn state_after(state: GameState, hp: int) -> GameState {
    if hp <= 0 {
        GameState::GameOver
    } else {
        state
    }
}

impl Game {
    /// The invariant of a game: the level is a proper grid whose coordinates fit
    /// in `i32`, the player stands on a walkable square of it, and the enemies
    /// are placed as `enemies_placed` says.
    pub open spec fn wf(&self) -> bool {
        &&& self.map.wf()
        &&& self.map.width <= i32::MAX
        &&& self.map.height <= i32::MAX
        &&& can_enter(&self.map, self.player.x as int, self.player.y as int)
        &&& enemies_placed(&self.map, self.player.x, self.player.y, self.enemies@)
    }

    /// A new game on a generated 20 by 14 level: the player at `(1, 1)`, up to
    /// five enemies and three potions, and a greeting in the journal.
    pub fn new() -> (g: Game)
        ensures
            g.wf(),
            g.map.width == 20,
            g.map.height == 14,
            g.map.is_generated(),
            g.player == (Player { x: 1, y: 1, hp: 30, max_hp: 30, attack: 8 }),
            spawned_enemies(&g.map, 5, g.enemies@),
            spawned_potions(&g.map, 3, g.potions@),
            log_text(g.log@) == seq![welcome_text()],
            g.state == GameState::Playing,
            g.turn == 0,
    {
        let map = DungeonMap::new(20, 14);
        let player = Player::new(1, 1);

        let enemies = spawn_enemies(&map, 5);
        let potions = spawn_potions(&map, 3);

        let mut log: Vec<String> = Vec::new();
        log.push(String::from_str("Bienvenue dans le donjon ! Atteins la sortie [E]."));
        assert(log_text(log@) =~= seq![welcome_text()]);
        assert(map.cells@[1]@[1] == map.cell_at(1, 1));
        Game { map, player, enemies, potions, log, state: GameState::Playing, turn: 0 }
    }

    /// The last `n` lines of the journal, or all of it when it is shorter.
    pub fn recent_log(&self, n: usize) -> (r: &[String])
        ensures
            r@ == (if self.log@.len() <= n {
                self.log@
            } else {
                self.log@.subrange(self.log@.len() - n, self.log@.len() as int)
            }),
    {
        let len = self.log.len();
        if len <= n {
            self.log.as_slice()
        } else {
            vstd::slice::slice_subrange(self.log.as_slice(), len - n, len)
        }
    }

    fn check_game_over(&mut self)
        ensures
            final(self).state == state_after(old(self).state, old(self).player.hp as int),
            log_text(final(self).log@) == log_text(old(self).log@) + closing_text(
                old(self).player.hp as int,
            ),
            old(self).player.hp > 0 ==> final(self).state == old(self).state && final(self).log
                == old(self).log,
            !(old(self).player.hp > 0) ==> final(self).state == GameState::GameOver
                && final(self).log@.len() == old(self).log@.len() + 1 && final(self).log@.last()@
                == "☠ Tu es mort... GAME OVER."@,
            final(self).map == old(self).map,
            final(self).player == old(self).player,
            final(self).enemies == old(self).enemies,
            final(self).potions == old(self).potions,
            final(self).turn == old(self).turn,
    {
        if !self.player.is_alive() {
            self.state = GameState::GameOver;
            let ghost before = self.log@;
            self.log.push(String::from_str("☠ Tu es mort... GAME OVER."));
            assert(log_text(self.log@) =~= log_text(before) + seq![game_over_text()]);
        } else {
            assert(log_text(self.log@) =~= log_text(self.log@) + seq![]);
        }
    }
}

// --- Combat ---

/// The journal line of an exchange of blows with an enemy of `kind` that dealt
/// `dealt`, left it at `left` hit points, and cost the player `taken`.
pub open spec fn combat_text(kind: EnemyKind, dealt: int, left: int, taken: int) -> Seq<char> {
    if left > 0 {
        hit_text(kind_name(kind), dealt, left, taken)
    } else {
        kill_text(kind_name(kind), dealt, taken)
    }
}

/// The damage of a fight between `p` and `e` fits in `i32` whatever the dice say:
/// the player deals `p.attack` plus up to 3, the enemy `e.attack` plus up to 2.
pub open spec fn combat_fits(p: Player, e: Enemy) -> bool {
    &&& p.attack + 3 <= i32::MAX
    &&& e.attack + 2 <= i32::MAX
    &&& i32::MIN <= e.hp - p.attack - 3
    &&& e.hp - p.attack <= i32::MAX
    &&& i32::MIN <= p.hp - e.attack - 2
    &&& p.hp - e.attack <= i32::MAX
}

impl Game {
    /// One exchange of blows with enemy `idx`, given the damage each side rolled:
    /// the enemy loses `dealt` hit points, the player loses `taken`, and the
    /// journal tells of the blow (a kill when the enemy is left without hit points).
    pub fn apply_combat(&mut self, idx: usize, dealt: i32, taken: i32)
        requires
            idx < old(self).enemies@.len(),
            i32::MIN <= old(self).enemies@[idx as int].hp - dealt <= i32::MAX,
            i32::MIN <= old(self).player.hp - taken <= i32::MAX,
        ensures
            final(self).enemies@ == old(self).enemies@.update(
                idx as int,
                Enemy {
                    hp: (old(self).enemies@[idx as int].hp - dealt) as i32,
                    ..old(self).enemies@[idx as int]
                },
            ),
            final(self).player == (Player {
                hp: (old(self).player.hp - taken) as i32,
                ..old(self).player
            }),
            log_text(final(self).log@) == log_text(old(self).log@).push(
                combat_text(
                    old(self).enemies@[idx as int].kind,
                    dealt as int,
                    old(self).enemies@[idx as int].hp - dealt,
                    taken as int,
                ),
            ),
            final(self).map == old(self).map,
            final(self).potions == old(self).potions,
            final(self).state == old(self).state,
            final(self).turn == old(self).turn,
    {
        self.enemies[idx].take_damage(dealt);
        self.player.take_damage(taken);

        let enemy_hp = self.enemies[idx].hp;
        let message = if !self.enemies[idx].is_alive() {
            kill_message(self.enemies[idx].name(), dealt, taken)
        } else {
            hit_message(self.enemies[idx].name(), dealt, enemy_hp, taken)
        };
        let ghost before = self.log@;
        self.log.push(message);
        assert(log_text(self.log@) =~= log_text(before).push(message@));
    }

    /// Fights enemy `idx`: the player deals its attack plus 0 to 3, the enemy
    /// answers with its attack plus 0 to 2. Returns the two amounts rolled.
    fn resolve_combat(&mut self, idx: usize) -> (rolled: (i32, i32))
        requires
            idx < old(self).enemies@.len(),
            combat_fits(old(self).player, old(self).enemies@[idx as int]),
        ensures
            old(self).player.attack <= rolled.0 <= old(self).player.attack + 3,
            old(self).enemies@[idx as int].attack <= rolled.1 <= old(self).enemies@[idx as int].attack
                + 2,
            final(self).enemies@ == old(self).enemies@.update(
                idx as int,
                Enemy {
                    hp: (old(self).enemies@[idx as int].hp - rolled.0) as i32,
                    ..old(self).enemies@[idx as int]
                },
            ),
            final(self).player == (Player {
                hp: (old(self).player.hp - rolled.1) as i32,
                ..old(self).player
            }),
            log_text(final(self).log@) == log_text(old(self).log@).push(
                combat_text(
                    old(self).enemies@[idx as int].kind,
                    rolled.0 as int,
                    old(self).enemies@[idx as int].hp - rolled.0,
                    rolled.1 as int,
                ),
            ),
            final(self).map == old(self).map,
            final(self).potions == old(self).potions,
            final(self).state == old(self).state,
            final(self).turn == old(self).turn,
    {
        let mut rng = rand::thread_rng();
        let player_dmg = self.player.attack + gen_index(&mut rng, 0, 4) as i32;
        let enemy_dmg = self.enemies[idx].attack + gen_index(&mut rng, 0, 3) as i32;
        self.apply_combat(idx, player_dmg, enemy_dmg);
        (player_dmg, enemy_dmg)
    }
}

fn find_living_at(enemies: &Vec<Enemy>, x: usize, y: usize) -> (r: Option<usize>)
    ensures
        match r {
            Some(i) => first_living_at(enemies@, i as int, x as int, y as int),
            None => forall|i: int| !#[trigger] living_at(enemies@, i, x as int, y as int),
        },
{
    let mut i: usize = 0;
    while i < enemies.len()
        invariant
            0 <= i <= enemies@.len(),
            forall|j: int| 0 <= j < i ==> !#[trigger] living_at(enemies@, j, x as int, y as int),
        decreases enemies@.len() - i,
    {
        if enemies[i].x == x && enemies[i].y == y && enemies[i].is_alive() {
            return Some(i);
        }
        i += 1;
    }
    None
}

/// At most one enemy is the first living one on a square.
proof fn lemma_first_living_unique(enemies: Seq<Enemy>, i: int, j: int, x: int, y: int)
    requires
        first_living_at(enemies, i, x, y),
        first_living_at(enemies, j, x, y),
    ensures
        i == j,
{
    if i < j {
        assert(!living_at(enemies, i, x, y));
    } else if j < i {
        assert(!living_at(enemies, j, x, y));
    }
}

// --- A turn ---

/// How a fight with enemy `idx` ended the turn, `dealt` and `taken` being the
/// damage rolled: enemy `idx` lost `dealt` hit points, the player lost `taken`,
/// the journal told of the blow, the turn counter went up, the enemies wandered,
/// and a player left without hit points lost the game.
pub open spec fn combat_result(before: Game, after: Game, idx: int, dealt: int, taken: int) -> bool {
    let e = before.enemies@[idx];
    let p = Player { hp: (before.player.hp - taken) as i32, ..before.player };
    &&& before.player.attack <= dealt <= before.player.attack + 3
    &&& e.attack <= taken <= e.attack + 2
    &&& after.map == before.map
    &&& after.potions == before.potions
    &&& after.player == p
    &&& after.turn == before.turn + 1
    &&& enemies_wandered(
        &before.map,
        p.x,
        p.y,
        before.enemies@.update(idx, Enemy { hp: (e.hp - dealt) as i32, ..e }),
        after.enemies@,
    )
    &&& log_text(after.log@) == log_text(before.log@).push(
        combat_text(e.kind, dealt, e.hp - dealt, taken),
    ) + closing_text(p.hp as int)
    &&& after.state == state_after(before.state, p.hp as int)
}

/// A turn spent fighting enemy `idx`, for some damage the dice may give.
pub open spec fn combat_turn(before: Game, after: Game, idx: int) -> bool {
    exists|dealt: int, taken: int| #[trigger] combat_result(before, after, idx, dealt, taken)
}

impl Game {
    /// The square the player aims at with a move of `(dx, dy)`.
    pub open spec fn target(&self, dx: i32, dy: i32) -> (int, int) {
        (step(self.player.x, dx), step(self.player.y, dy))
    }

    /// A move of `(dx, dy)` aims inside the grid's top and left edges and at no
    /// living enemy: the player walks (or bumps into a wall and stays).
    pub open spec fn walks(&self, dx: i32, dy: i32) -> bool {
        let (tx, ty) = self.target(dx, dy);
        &&& 0 <= tx
        &&& 0 <= ty
        &&& !exists|i: int| #[trigger] living_at(self.enemies@, i, tx, ty)
    }

    /// Where a walking player ends up: on the target if it can be entered,
    /// otherwise where the player stood.
    pub open spec fn destination(&self, dx: i32, dy: i32) -> (usize, usize) {
        let (tx, ty) = self.target(dx, dy);
        if can_enter(&self.map, tx, ty) {
            (tx as usize, ty as usize)
        } else {
            (self.player.x, self.player.y)
        }
    }

    /// A move of `(dx, dy)` ends with the turn counter going up: it aims inside
    /// the top and left edges of the grid and does not walk onto the exit.
    pub open spec fn advances_turn(&self, dx: i32, dy: i32) -> bool {
        let (tx, ty) = self.target(dx, dy);
        let (x, y) = self.destination(dx, dy);
        &&& 0 <= tx
        &&& 0 <= ty
        &&& !(self.walks(dx, dy) && self.map.cell_at(x as int, y as int) is Exit)
    }

    /// The arithmetic of a move of `(dx, dy)` stays within the machine's integers:
    /// the turn counter can go up where it does, the target's coordinates fit in
    /// `i32`, a fight cannot overflow, and neither can the heals of the potions
    /// picked up.
    pub open spec fn turn_fits(&self, dx: i32, dy: i32) -> bool {
        let (tx, ty) = self.target(dx, dy);
        let (x, y) = self.destination(dx, dy);
        &&& self.advances_turn(dx, dy) ==> self.turn < u32::MAX
        &&& step_fits(self.player.x, dx)
        &&& step_fits(self.player.y, dy)
        &&& forall|i: int|
            #[trigger] first_living_at(self.enemies@, i, tx, ty) ==> combat_fits(
                self.player,
                self.enemies@[i],
            )
        &&& self.walks(dx, dy) ==> pickups_fit(
            self.potions@,
            x as int,
            y as int,
            self.player.hp as int,
            self.player.max_hp as int,
        )
    }
}

/// A turn in which the player walked by `(dx, dy)`: the player went to the
/// destination and picked up the potions lying there, then either stood on the
/// exit and won (the turn counter and the enemies are left as they were), or the
/// turn counter went up, the enemies wandered, and a player left without hit
/// points lost the game.
pub open spec fn walk_turn(before: Game, after: Game, dx: i32, dy: i32) -> bool {
    let (x, y) = before.destination(dx, dy);
    let hp = pickup_hp(
        before.potions@,
        x as int,
        y as int,
        before.player.hp as int,
        before.player.max_hp as int,
    );
    let p = Player { x, y, hp: hp as i32, ..before.player };
    let texts = log_text(before.log@) + pickup_texts(
        before.potions@,
        x as int,
        y as int,
        before.player.hp as int,
        before.player.max_hp as int,
    );
    &&& i32::MIN <= hp <= i32::MAX
    &&& after.map == before.map
    &&& after.player == p
    &&& after.potions@ == after_pickup(before.potions@, x as int, y as int)
    &&& if before.map.cell_at(x as int, y as int) is Exit {
        &&& after.state == GameState::Victory
        &&& after.turn == before.turn
        &&& after.enemies == before.enemies
        &&& log_text(after.log@) == texts.push(victory_text())
    } else {
        &&& after.turn == before.turn + 1
        &&& enemies_wandered(&before.map, x, y, before.enemies@, after.enemies@)
        &&& after.state == state_after(before.state, hp)
        &&& log_text(after.log@) == texts + closing_text(hp)
    }
}

fn potion_lies_at(potions: &Vec<Potion>, x: usize, y: usize) -> (r: bool)
    ensures
        r == exists|k: int| 0 <= k < potions@.len() && #[trigger] lies_at(potions@[k], x as int, y as int),
{
    let mut k: usize = 0;
    while k < potions.len()
        invariant
            0 <= k <= potions@.len(),
            forall|j: int| 0 <= j < k ==> !#[trigger] lies_at(potions@[j], x as int, y as int),
        decreases potions@.len() - k,
    {
        if !potions[k].picked_up && potions[k].x == x && potions[k].y == y {
            assert(lies_at(potions@[k as int], x as int, y as int));
            return true;
        }
        k += 1;
    }
    false
}

impl Game {
    /// What is drawn at `(x, y)`: the player; else the first living enemy there;
    /// else a potion still lying there; else the square of the level.
    pub open spec fn tile_spec(&self, x: int, y: int) -> Tile {
        if self.player.x == x && self.player.y == y {
            Tile::Player
        } else if exists|i: int| #[trigger] first_living_at(self.enemies@, i, x, y) {
            Tile::Enemy(
                self.enemies@[choose|i: int| #[trigger] first_living_at(self.enemies@, i, x, y)].kind,
            )
        } else if exists|k: int|
            0 <= k < self.potions@.len() && #[trigger] lies_at(self.potions@[k], x, y) {
            Tile::Potion
        } else {
            match self.map.cell_at(x, y) {
                Cell::Wall => Tile::Wall,
                Cell::Floor => Tile::Floor,
                Cell::Exit => Tile::Exit,
            }
        }
    }

    /// What the screen shows at `(x, y)`.
    pub fn tile_at(&self, x: usize, y: usize) -> (t: Tile)
        requires
            y < self.map.cells@.len(),
            x < self.map.cells@[y as int]@.len(),
        ensures
            t == self.tile_spec(x as int, y as int),
            forall|i: int|
                first_living_at(self.enemies@, i, x as int, y as int) && !(self.player.x == x
                    && self.player.y == y) ==> t == Tile::Enemy(self.enemies@[i].kind),
    {
        if self.player.x == x && self.player.y == y {
            return Tile::Player;
        }
        if let Some(i) = find_living_at(&self.enemies, x, y) {
            proof {
                let c = choose|j: int| #[trigger] first_living_at(self.enemies@, j, x as int, y as int);
                lemma_first_living_unique(self.enemies@, i as int, c, x as int, y as int);
            }
            return Tile::Enemy(self.enemies[i].kind);
        }
        if potion_lies_at(&self.potions, x, y) {
            return Tile::Potion;
        }
        match self.map.cells[y][x] {
            Cell::Wall => Tile::Wall,
            Cell::Floor => Tile::Floor,
            Cell::Exit => Tile::Exit,
        }
    }

    /// Plays the player's move by `(dx, dy)`.
    ///
    /// A move past the top or left edge of the grid does nothing at all. A move
    /// onto a living enemy is a fight (see `combat_turn`). Any other move is a walk
    /// (see `walk_turn`): the player steps there if the square can be entered,
    /// picks up the potions lying where it stands, and wins on the exit. After a
    /// fight or a walk that does not win, the turn counter goes up, the enemies
    /// wander, and the game is lost if the player has no hit points left. The
    /// game's invariant holds afterwards.
    pub fn move_player(&mut self, dx: i32, dy: i32)
        requires
            old(self).wf(),
            old(self).turn_fits(dx, dy),
        ensures
            final(self).wf(),
            !(0 <= old(self).target(dx, dy).0 && 0 <= old(self).target(dx, dy).1) ==> *final(self)
                == *old(self),
            forall|i: int|
                #[trigger] first_living_at(
                    old(self).enemies@,
                    i,
                    old(self).target(dx, dy).0,
                    old(self).target(dx, dy).1,
                ) ==> combat_turn(*old(self), *final(self), i),
            old(self).walks(dx, dy) ==> walk_turn(*old(self), *final(self), dx, dy),
    {
        let ghost g0 = *self;
        let nx = self.player.x as i32 + dx;
        let ny = self.player.y as i32 + dy;

        if nx < 0 || ny < 0 {
            return;
        }
        let nx = nx as usize;
        let ny = ny as usize;

        let enemy_idx = find_living_at(&self.enemies, nx, ny);
        let ghost mut rolled: (int, int) = (0, 0);
        if let Some(idx) = enemy_idx {
            let r = self.resolve_combat(idx);
            proof {
                rolled = (r.0 as int, r.1 as int);
                assert forall|i: int|
                    0 <= i < self.enemies@.len() && alive(#[trigger] self.enemies@[i]) implies alive(
                    g0.enemies@[i],
                ) && self.enemies@[i].x == g0.enemies@[i].x && self.enemies@[i].y
                    == g0.enemies@[i].y by {}
                assert(enemies_placed(&self.map, self.player.x, self.player.y, self.enemies@)) by {
                    assert forall|a: int, b: int|
                        0 <= a < self.enemies@.len() && 0 <= b < self.enemies@.len() && a != b
                            && alive(#[trigger] self.enemies@[a]) && alive(
                            #[trigger] self.enemies@[b],
                        ) implies !stands_at(
                        self.enemies@[a],
                        self.enemies@[b].x as int,
                        self.enemies@[b].y as int,
                    ) by {
                        assert(alive(g0.enemies@[a]) && alive(g0.enemies@[b]));
                    }
                }
            }
        } else {
            self.player.try_move(dx, dy, &self.map);
            proof {
                assert(enemies_placed(&self.map, self.player.x, self.player.y, self.enemies@)) by {
                    assert forall|i: int|
                        0 <= i < self.enemies@.len() && alive(#[trigger] self.enemies@[i]) implies !stands_at(
                        self.enemies@[i],
                        self.player.x as int,
                        self.player.y as int,
                    ) by {
                        assert(!living_at(self.enemies@, i, nx as int, ny as int));
                    }
                }
            }
            self.pick_up_potions();
            if self.map.is_exit(self.player.x, self.player.y) {
                self.state = GameState::Victory;
                let ghost before = self.log@;
                self.log.push(String::from_str("🏆 Tu as atteint la sortie ! VICTOIRE !"));
                assert(log_text(self.log@) =~= log_text(before).push(victory_text()));
                return;
            }
        }
        let ghost mid = *self;
        self.turn += 1;
        self.move_enemies();
        self.check_game_over();
        proof {
            if let Some(idx) = enemy_idx {
                assert(log_text(self.log@) == log_text(mid.log@) + closing_text(self.player.hp as int));
                assert(combat_result(g0, *self, idx as int, rolled.0, rolled.1));
                assert forall|i: int|
                    #[trigger] first_living_at(
                        g0.enemies@,
                        i,
                        g0.target(dx, dy).0,
                        g0.target(dx, dy).1,
                    ) implies combat_turn(g0, *self, i) by {
                    lemma_first_living_unique(g0.enemies@, i, idx as int, nx as int, ny as int);
                }
            } else {
                assert forall|i: int|
                    !#[trigger] first_living_at(
                        g0.enemies@,
                        i,
                        g0.target(dx, dy).0,
                        g0.target(dx, dy).1,
                    ) by {
                    assert(!living_at(g0.enemies@, i, nx as int, ny as int));
                }
                assert(walk_turn(g0, *self, dx, dy));
            }
        }
    }
}

// --- Laws ---

/// A walking turn never costs the player hit points, and potions never heal it
/// beyond its maximum: if the player started at most at its maximum and no potion
/// heals a negative amount, it ends between where it started and its maximum.
pub proof fn lemma_walk_never_hurts(before: Game, after: Game, dx: i32, dy: i32)
    requires
        walk_turn(before, after, dx, dy),
        before.player.hp <= before.player.max_hp,
        forall|k: int|
            0 <= k < before.potions@.len() ==> (#[trigger] before.potions@[k]).heal_amount >= 0,
    ensures
        before.player.hp <= after.player.hp <= before.player.max_hp,
        after.player.max_hp == before.player.max_hp,
{
    let (x, y) = before.destination(dx, dy);
    lemma_pickup_hp_bounds(
        before.potions@,
        x as int,
        y as int,
        before.player.hp as int,
        before.player.max_hp as int,
    );
}

/// A fight never moves the player, and costs it between the enemy's attack and
/// two more hit points; the enemy fought loses between the player's attack and
/// three more.
pub proof fn lemma_fight_costs(before: Game, after: Game, idx: int)
    requires
        combat_turn(before, after, idx),
        0 <= idx < before.enemies@.len(),
        combat_fits(before.player, before.enemies@[idx]),
    ensures
        after.player.x == before.player.x,
        after.player.y == before.player.y,
        before.player.hp - before.enemies@[idx].attack - 2 <= after.player.hp <= before.player.hp
            - before.enemies@[idx].attack,
        before.enemies@[idx].hp - before.player.attack - 3 <= after.enemies@[idx].hp
            <= before.enemies@[idx].hp - before.player.attack,
{
    let (dealt, taken) = choose|dealt: int, taken: int|
        #[trigger] combat_result(before, after, idx, dealt, taken);
    let e = before.enemies@[idx];
    let hit = before.enemies@.update(idx, Enemy { hp: (e.hp - dealt) as i32, ..e });
    assert(board_at(hit, after.enemies@, idx)[idx] == hit[idx]);
    assert(wander_step(
        &before.map,
        board_at(hit, after.enemies@, idx),
        idx,
        after.player.x,
        after.player.y,
        after.enemies@[idx],
    ));
}

/// A fight ends in defeat exactly when it leaves the player without positive hit
/// points: then the game is over and the journal's last line is the death
/// notice; otherwise the state is kept and the journal gains only the line of
/// the blow.
pub proof fn lemma_fight_death(before: Game, after: Game, idx: int)
    requires
        combat_turn(before, after, idx),
    ensures
        !(after.player.hp > 0) ==> after.state == GameState::GameOver && log_text(after.log@).last()
            == "☠ Tu es mort... GAME OVER."@,
        after.player.hp > 0 ==> after.state == before.state && log_text(after.log@).len()
            == log_text(before.log@).len() + 1,
{
    let (dealt, taken) = choose|dealt: int, taken: int|
        #[trigger] combat_result(before, after, idx, dealt, taken);
}

/// A walk that does not end on the exit ends in defeat exactly when it leaves
/// the player without positive hit points: then the game is over and the
/// journal's last line is the death notice; otherwise the state is kept and the
/// journal gains only the lines of the potions picked up.
pub proof fn lemma_walk_death(before: Game, after: Game, dx: i32, dy: i32)
    requires
        walk_turn(before, after, dx, dy),
        !(before.map.cell_at(before.destination(dx, dy).0 as int, before.destination(dx, dy).1 as int) is Exit),
    ensures
        !(after.player.hp > 0) ==> after.state == GameState::GameOver && log_text(after.log@).last()
            == "☠ Tu es mort... GAME OVER."@,
        after.player.hp > 0 ==> after.state == before.state && log_text(after.log@) == log_text(
            before.log@,
        ) + pickup_texts(
            before.potions@,
            before.destination(dx, dy).0 as int,
            before.destination(dx, dy).1 as int,
            before.player.hp as int,
            before.player.max_hp as int,
        ),
{
    let (x, y) = before.destination(dx, dy);
    let texts = log_text(before.log@) + pickup_texts(
        before.potions@,
        x as int,
        y as int,
        before.player.hp as int,
        before.player.max_hp as int,
    );
    if after.player.hp > 0 {
        assert(texts + seq![] =~= texts);
    }
}

/// In a well-formed game, the square of every living enemy shows that enemy,
/// whatever potions lie there.
pub proof fn lemma_living_enemy_drawn(game: Game, i: int)
    requires
        game.wf(),
        0 <= i < game.enemies@.len(),
        alive(game.enemies@[i]),
    ensures
        game.tile_spec(game.enemies@[i].x as int, game.enemies@[i].y as int) == Tile::Enemy(
            game.enemies@[i].kind,
        ),
{
    let x = game.enemies@[i].x as int;
    let y = game.enemies@[i].y as int;
    assert(first_living_at(game.enemies@, i, x, y)) by {
        assert forall|j: int| 0 <= j < i implies !living_at(game.enemies@, j, x, y) by {
            if living_at(game.enemies@, j, x, y) {
                assert(alive(game.enemies@[j]) && alive(game.enemies@[i]));
                assert(!stands_at(game.enemies@[j], x, y));
            }
        }
    }
    let c = choose|j: int| #[trigger] first_living_at(game.enemies@, j, x, y);
    lemma_first_living_unique(game.enemies@, i, c, x, y);
}

/// In a well-formed game, a square that holds neither the player nor a living
/// enemy but where a potion still lies shows the potion.
pub proof fn lemma_potion_drawn(game: Game, k: int, x: int, y: int)
    requires
        0 <= k < game.potions@.len(),
        lies_at(game.potions@[k], x, y),
        !(game.player.x == x && game.player.y == y),
        forall|i: int| !#[trigger] living_at(game.enemies@, i, x, y),
    ensures
        game.tile_spec(x, y) == Tile::Potion,
{
}

} // verus!
