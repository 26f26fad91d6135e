//! Placing the enemies and potions of a new level at random.

use crate::entity::{kind_stats, Enemy, EnemyKind};
use crate::game::stands_at;
use crate::level::DungeonMap;
use crate::potion::Potion;
use crate::random::gen_index;
use vstd::prelude::*;

verus! {

/// A square where an enemy may be spawned: inside the border, walkable, and away
/// from the player's spawn (not in the four by four top-left corner).
pub open spec fn enemy_spot(map: &DungeonMap, x: int, y: int) -> bool {
    &&& 1 <= x < map.width - 1
    &&& 1 <= y < map.height - 1
    &&& !(x < 4 && y < 4)
    &&& map.walkable_at(x, y)
}

/// A square where a potion may be spawned: inside the border, walkable, and not
/// the player's spawn `(1, 1)`.
pub open spec fn potion_spot(map: &DungeonMap, x: int, y: int) -> bool {
    &&& 1 <= x < map.width - 1
    &&& 1 <= y < map.height - 1
    &&& !(x == 1 && y == 1)
    &&& map.walkable_at(x, y)
}

/// At most `count` fresh enemies, each on an enemy spot, no two on one square.
pub open spec fn spawned_enemies(map: &DungeonMap, count: int, enemies: Seq<Enemy>) -> bool {
    &&& enemies.len() <= count
    &&& forall|i: int|
        0 <= i < enemies.len() ==> {
            &&& enemy_spot(map, #[trigger] enemies[i].x as int, enemies[i].y as int)
            &&& enemies[i].hp == kind_stats(enemies[i].kind).0
            &&& enemies[i].attack == kind_stats(enemies[i].kind).1
        }
    &&& forall|i: int, j: int|
        0 <= i < enemies.len() && 0 <= j < enemies.len() && i != j ==> !stands_at(
            #[trigger] enemies[i],
            #[trigger] enemies[j].x as int,
            enemies[j].y as int,
        )
}

/// At most `count` fresh potions, each on a potion spot, no two on one square.
pub open spec fn spawned_potions(map: &DungeonMap, count: int, potions: Seq<Potion>) -> bool {
    &&& potions.len() <= count
    &&& forall|i: int|
        0 <= i < potions.len() ==> {
            &&& potion_spot(map, #[trigger] potions[i].x as int, potions[i].y as int)
            &&& potions[i].heal_amount == 15
            &&& !potions[i].picked_up
        }
    &&& forall|i: int, j: int|
        0 <= i < potions.len() && 0 <= j < potions.len() && i != j ==> !(#[trigger] potions[i].x
            == #[trigger] potions[j].x && potions[i].y == potions[j].y)
}

fn enemy_stands_at(enemies: &Vec<Enemy>, x: usize, y: usize) -> (r: bool)
    ensures
        r == exists|i: int| 0 <= i < enemies@.len() && stands_at(#[trigger] enemies@[i], x as int, y as int),
{
    let mut i: usize = 0;
    while i < enemies.len()
        invariant
            0 <= i <= enemies@.len(),
            forall|j: int| 0 <= j < i ==> !stands_at(#[trigger] enemies@[j], x as int, y as int),
        decreases enemies@.len() - i,
    {
        if enemies[i].x == x && enemies[i].y == y {
            return true;
        }
        i += 1;
    }
    false
}

fn potion_placed_at(potions: &Vec<Potion>, x: usize, y: usize) -> (r: bool)
    ensures
        r == exists|i: int|
            0 <= i < potions@.len() && (#[trigger] potions@[i]).x == x && potions@[i].y == y,
{
    let mut i: usize = 0;
    while i < potions.len()
        invariant
            0 <= i <= potions@.len(),
            forall|j: int| 0 <= j < i ==> !((#[trigger] potions@[j]).x == x && potions@[j].y == y),
        decreases potions@.len() - i,
    {
        if potions[i].x == x && potions[i].y == y {
            return true;
        }
        i += 1;
    }
    false
}

/// The kind of enemy that the draw `k` of `0..3` picks.
pub open spec fn kind_at(k: int) -> EnemyKind {
    if k == 0 {
        EnemyKind::Goblin
    } else if k == 1 {
        EnemyKind::Troll
    } else {
        EnemyKind::Skeleton
    }
}

/// A drawn square `(x, y)` takes a new enemy: it is outside the four by four
/// top-left corner, walkable, and no enemy of `enemies` stands there.
pub open spec fn enemy_square_free(map: &DungeonMap, enemies: Seq<Enemy>, x: int, y: int) -> bool {
    &&& !(x < 4 && y < 4)
    &&& map.walkable_at(x, y)
    &&& !exists|i: int| 0 <= i < enemies.len() && stands_at(#[trigger] enemies[i], x, y)
}

/// The enemies placed by the attempts `attempts`, in order: each attempt is a
/// drawn square and a drawn kind, and places a fresh enemy of that kind there
/// when the square takes one (the kind is drawn only then; otherwise it is unused).
pub open spec fn enemy_run(map: &DungeonMap, attempts: Seq<(usize, usize, usize)>) -> Seq<Enemy>
    decreases attempts.len(),
{
    if attempts.len() == 0 {
        seq![]
    } else {
        let prev = enemy_run(map, attempts.drop_last());
        let a = attempts.last();
        if enemy_square_free(map, prev, a.0 as int, a.1 as int) {
            let kind = kind_at(a.2 as int);
            prev.push(Enemy { x: a.0, y: a.1, hp: kind_stats(kind).0, attack: kind_stats(kind).1, kind })
        } else {
            prev
        }
    }
}

/// `enemies` is what spawning `count` enemies gives for the attempts
/// `attempts`: at most 1000 attempts, each square drawn inside the border and each
/// kind among the three; an attempt is made only while fewer than `count`
/// enemies are placed, and attempts stop at 1000 or once `count` are placed.
pub open spec fn enemy_spawn_run(
    map: &DungeonMap,
    count: int,
    attempts: Seq<(usize, usize, usize)>,
    enemies: Seq<Enemy>,
) -> bool {
    &&& attempts.len() <= 1000
    &&& forall|i: int|
        0 <= i < attempts.len() ==> {
            &&& 1 <= (#[trigger] attempts[i]).0 < map.width - 1
            &&& 1 <= attempts[i].1 < map.height - 1
            &&& attempts[i].2 < 3
        }
    &&& forall|j: int| 0 <= j < attempts.len() ==> enemy_run(map, #[trigger] attempts.take(j)).len() < count
    &&& (attempts.len() == 1000 || enemy_run(map, attempts).len() >= count)
    &&& enemies == enemy_run(map, attempts)
}

/// Whether a new enemy may be placed on the drawn square `(x, y)`.
pub fn enemy_square_takes(map: &DungeonMap, enemies: &Vec<Enemy>, x: usize, y: usize) -> (r: bool)
    requires
        map.in_bounds(x as int, y as int),
        map.covers(x as int, y as int),
    ensures
        r == enemy_square_free(map, enemies@, x as int, y as int),
{
    if x < 4 && y < 4 {
        return false;
    }
    if !map.is_walkable(x, y) {
        return false;
    }
    !enemy_stands_at(enemies, x, y)
}

/// Tries up to 1000 random squares to place `count` enemies of random kinds.
pub(crate) fn spawn_enemies(map: &DungeonMap, count: usize) -> (enemies: Vec<Enemy>)
    requires
        map.wf(),
        3 <= map.width,
        3 <= map.height,
    ensures
        spawned_enemies(map, count as int, enemies@),
        exists|attempts: Seq<(usize, usize, usize)>|
            #[trigger] enemy_spawn_run(map, count as int, attempts, enemies@),
{
    let mut rng = rand::thread_rng();
    let kinds = [EnemyKind::Goblin, EnemyKind::Troll, EnemyKind::Skeleton];
    let mut enemies: Vec<Enemy> = Vec::new();
    let mut attempts: u32 = 0;
    let ghost mut att: Seq<(usize, usize, usize)> = seq![];

    while enemies.len() < count && attempts < 1000
        invariant
            map.wf(),
            3 <= map.width,
            3 <= map.height,
            attempts <= 1000,
            attempts == att.len(),
            kinds@ == seq![EnemyKind::Goblin, EnemyKind::Troll, EnemyKind::Skeleton],
            spawned_enemies(map, count as int, enemies@),
            forall|i: int|
                0 <= i < att.len() ==> {
                    &&& 1 <= (#[trigger] att[i]).0 < map.width - 1
                    &&& 1 <= att[i].1 < map.height - 1
                    &&& att[i].2 < 3
                },
            forall|j: int| 0 <= j < att.len() ==> enemy_run(map, #[trigger] att.take(j)).len() < count,
            enemies@ == enemy_run(map, att),
        decreases 1000 - attempts,
    {
        attempts += 1;
        let x = gen_index(&mut rng, 1, map.width - 1);
        let y = gen_index(&mut rng, 1, map.height - 1);
        let ghost prev_att = att;
        let ghost before = enemies@;

        if enemy_square_takes(map, &enemies, x, y) {
            let k = gen_index(&mut rng, 0, kinds.len());
            let kind = kinds[k];
            enemies.push(Enemy::new(x, y, kind));
            proof {
                att = att.push((x, y, k));
                assert(kind == kind_at(k as int));
            }
            assert forall|i: int, j: int|
                0 <= i < enemies@.len() && 0 <= j < enemies@.len() && i != j implies !stands_at(
                #[trigger] enemies@[i],
                #[trigger] enemies@[j].x as int,
                enemies@[j].y as int,
            ) by {
                if i == before.len() {
                    assert(enemies@[j] == before[j]);
                } else if j == before.len() {
                    assert(enemies@[i] == before[i]);
                }
            }
        } else {
            proof {
                att = att.push((x, y, 0));
            }
        }
        assert(att.drop_last() =~= prev_att);
        assert forall|j: int| 0 <= j < att.len() implies enemy_run(map, #[trigger] att.take(j)).len()
            < count by {
            if j < prev_att.len() {
                assert(att.take(j) =~= prev_att.take(j));
            } else {
                assert(att.take(j) =~= prev_att);
            }
        }
        assert forall|i: int|
            0 <= i < att.len() implies {
            &&& 1 <= (#[trigger] att[i]).0 < map.width - 1
            &&& 1 <= att[i].1 < map.height - 1
            &&& att[i].2 < 3
        } by {
            if i < prev_att.len() {
                assert(att[i] == prev_att[i]);
            }
        }
    }
    assert(enemy_spawn_run(map, count as int, att, enemies@));
    enemies
}

/// A drawn square `(x, y)` takes a new potion: it is walkable, not the player's
/// spawn `(1, 1)`, and no potion of `potions` lies there.
pub open spec fn potion_square_free(map: &DungeonMap, potions: Seq<Potion>, x: int, y: int) -> bool {
    &&& map.walkable_at(x, y)
    &&& !(x == 1 && y == 1)
    &&& !exists|i: int| 0 <= i < potions.len() && (#[trigger] potions[i]).x == x && potions[i].y == y
}

/// The potions placed by the drawn squares `attempts`, in order: each square that
/// takes a potion gets a fresh one.
pub open spec fn potion_run(map: &DungeonMap, attempts: Seq<(usize, usize)>) -> Seq<Potion>
    decreases attempts.len(),
{
    if attempts.len() == 0 {
        seq![]
    } else {
        let prev = potion_run(map, attempts.drop_last());
        let a = attempts.last();
        if potion_square_free(map, prev, a.0 as int, a.1 as int) {
            prev.push(Potion { x: a.0, y: a.1, heal_amount: 15, picked_up: false })
        } else {
            prev
        }
    }
}

/// `potions` is what spawning `count` potions gives for the drawn squares
/// `attempts`: at most 1000 squares, each inside the border; a square is drawn
/// only while fewer than `count` potions are placed, and drawing stops at 1000
/// squares or once `count` are placed.
pub open spec fn potion_spawn_run(
    map: &DungeonMap,
    count: int,
    attempts: Seq<(usize, usize)>,
    potions: Seq<Potion>,
) -> bool {
    &&& attempts.len() <= 1000
    &&& forall|i: int|
        0 <= i < attempts.len() ==> {
            &&& 1 <= (#[trigger] attempts[i]).0 < map.width - 1
            &&& 1 <= attempts[i].1 < map.height - 1
        }
    &&& forall|j: int| 0 <= j < attempts.len() ==> potion_run(map, #[trigger] attempts.take(j)).len() < count
    &&& (attempts.len() == 1000 || potion_run(map, attempts).len() >= count)
    &&& potions == potion_run(map, attempts)
}

/// Whether a new potion may be placed on the drawn square `(x, y)`.
pub fn potion_square_takes(map: &DungeonMap, potions: &Vec<Potion>, x: usize, y: usize) -> (r: bool)
    requires
        map.in_bounds(x as int, y as int),
        map.covers(x as int, y as int),
    ensures
        r == potion_square_free(map, potions@, x as int, y as int),
{
    if !map.is_walkable(x, y) {
        return false;
    }
    if x == 1 && y == 1 {
        return false;
    }
    !potion_placed_at(potions, x, y)
}

/// Tries up to 1000 random squares to place `count` potions.
pub(crate) fn spawn_potions(map: &DungeonMap, count: usize) -> (potions: Vec<Potion>)
    requires
        map.wf(),
        3 <= map.width,
        3 <= map.height,
    ensures
        spawned_potions(map, count as int, potions@),
        exists|attempts: Seq<(usize, usize)>|
            #[trigger] potion_spawn_run(map, count as int, attempts, potions@),
{
    let mut rng = rand::thread_rng();
    let mut potions: Vec<Potion> = Vec::new();
    let mut attempts: u32 = 0;
    let ghost mut att: Seq<(usize, usize)> = seq![];

    while potions.len() < count && attempts < 1000
        invariant
            map.wf(),
            3 <= map.width,
            3 <= map.height,
            attempts <= 1000,
            attempts == att.len(),
            spawned_potions(map, count as int, potions@),
            forall|i: int|
                0 <= i < att.len() ==> {
                    &&& 1 <= (#[trigger] att[i]).0 < map.width - 1
                    &&& 1 <= att[i].1 < map.height - 1
                },
            forall|j: int| 0 <= j < att.len() ==> potion_run(map, #[trigger] att.take(j)).len() < count,
            potions@ == potion_run(map, att),
        decreases 1000 - attempts,
    {
        attempts += 1;
        let x = gen_index(&mut rng, 1, map.width - 1);
        let y = gen_index(&mut rng, 1, map.height - 1);
        let ghost prev_att = att;
        let ghost before = potions@;

        if potion_square_takes(map, &potions, x, y) {
            potions.push(Potion::new(x, y));
            assert forall|i: int, j: int|
                0 <= i < potions@.len() && 0 <= j < potions@.len() && i != j implies !(
                #[trigger] potions@[i].x == #[trigger] potions@[j].x && potions@[i].y == potions@[j].y) by {
                if i == before.len() {
                    assert(potions@[j] == before[j]);
                } else if j == before.len() {
                    assert(potions@[i] == before[i]);
                }
            }
        }
        proof {
            att = att.push((x, y));
        }
        assert(att.drop_last() =~= prev_att);
        assert forall|j: int| 0 <= j < att.len() implies potion_run(map, #[trigger] att.take(j)).len()
            < count by {
            if j < prev_att.len() {
                assert(att.take(j) =~= prev_att.take(j));
            } else {
                assert(att.take(j) =~= prev_att);
            }
        }
        assert forall|i: int|
            0 <= i < att.len() implies {
            &&& 1 <= (#[trigger] att[i]).0 < map.width - 1
            &&& 1 <= att[i].1 < map.height - 1
        } by {
            if i < prev_att.len() {
                assert(att[i] == prev_att[i]);
            }
        }
    }
    assert(potion_spawn_run(map, count as int, att, potions@));
    potions
}

/// In a spawning run, a drawn square that takes an enemy always gets one: the
/// try adds exactly one enemy, of the drawn kind, on that square, and keeps the
/// enemies already placed; a square that does not take one adds none.
pub proof fn lemma_enemy_try(map: &DungeonMap, attempts: Seq<(usize, usize, usize)>, j: int)
    requires
        0 <= j < attempts.len(),
    ensures
        enemy_square_free(map, enemy_run(map, attempts.take(j)), attempts[j].0 as int, attempts[j].1 as int)
            ==> enemy_run(map, attempts.take(j + 1)) == enemy_run(map, attempts.take(j)).push(
            Enemy {
                x: attempts[j].0,
                y: attempts[j].1,
                hp: kind_stats(kind_at(attempts[j].2 as int)).0,
                attack: kind_stats(kind_at(attempts[j].2 as int)).1,
                kind: kind_at(attempts[j].2 as int),
            },
        ),
        !enemy_square_free(map, enemy_run(map, attempts.take(j)), attempts[j].0 as int, attempts[j].1 as int)
            ==> enemy_run(map, attempts.take(j + 1)) == enemy_run(map, attempts.take(j)),
{
    assert(attempts.take(j + 1).drop_last() =~= attempts.take(j));
    assert(attempts.take(j + 1).last() == attempts[j]);
}

/// In a spawning run, a drawn square that takes a potion always gets a fresh one,
/// and a square that does not take one adds none.
pub proof fn lemma_potion_try(map: &DungeonMap, attempts: Seq<(usize, usize)>, j: int)
    requires
        0 <= j < attempts.len(),
    ensures
        potion_square_free(map, potion_run(map, attempts.take(j)), attempts[j].0 as int, attempts[j].1 as int)
            ==> potion_run(map, attempts.take(j + 1)) == potion_run(map, attempts.take(j)).push(
            Potion { x: attempts[j].0, y: attempts[j].1, heal_amount: 15, picked_up: false },
        ),
        !potion_square_free(map, potion_run(map, attempts.take(j)), attempts[j].0 as int, attempts[j].1 as int)
            ==> potion_run(map, attempts.take(j + 1)) == potion_run(map, attempts.take(j)),
{
    assert(attempts.take(j + 1).drop_last() =~= attempts.take(j));
    assert(attempts.take(j + 1).last() == attempts[j]);
}

} // verus!
