//! How the enemies wander at the end of a turn.

use crate::entity::{can_enter, move_option, step, wander_targets, Enemy, Entity};
use crate::game::{alive, enemies_placed, stands_at, Game};
use crate::journal::attacked_message;
use crate::level::DungeonMap;
use crate::random::gen_index;
use vstd::prelude::*;

verus! {

/// The four directions an enemy looks at, in order: up, down, left, right.
pub open spec fn direction(k: int) -> (i32, i32) {
    if k == 0 {
        (0i32, -1i32)
    } else if k == 1 {
        (0i32, 1i32)
    } else if k == 2 {
        (-1i32, 0i32)
    } else {
        (1i32, 0i32)
    }
}

/// The square next to `e` in direction `k`.
pub open spec fn neighbour(e: Enemy, k: int) -> (int, int) {
    (step(e.x, direction(k).0), step(e.y, direction(k).1))
}

/// The enemies as they stand when enemy `i` takes its move: those before `i`
/// have moved already, the others not yet.
pub open spec fn board_at(before: Seq<Enemy>, after: Seq<Enemy>, i: int) -> Seq<Enemy> {
    after.take(i) + before.skip(i)
}

/// `(x, y)` is the player's square `(px, py)` or that of a living enemy other than `i`.
pub open spec fn blocked(board: Seq<Enemy>, i: int, px: usize, py: usize, x: int, y: int) -> bool {
    ||| (x == px && y == py)
    ||| exists|j: int|
        0 <= j < board.len() && j != i && alive(#[trigger] board[j]) && stands_at(board[j], x, y)
}

/// Enemy `i` may step onto `(x, y)`.
pub open spec fn free_for(
    map: &DungeonMap,
    board: Seq<Enemy>,
    i: int,
    px: usize,
    py: usize,
    x: int,
    y: int,
) -> bool {
    can_enter(map, x, y) && !blocked(board, i, px, py, x, y)
}

/// Enemy `i` may step in direction `k`.
pub open spec fn free_dir(
    map: &DungeonMap,
    board: Seq<Enemy>,
    i: int,
    px: usize,
    py: usize,
    k: int,
) -> bool {
    0 <= k < 4 && free_for(map, board, i, px, py, neighbour(board[i], k).0, neighbour(board[i], k).1)
}

/// Enemy `i`, standing as `board` says, ends as `after`: its hit points, attack and
/// kind are kept; a living enemy with a free neighbouring square moves to one of
/// them; any other enemy stays where it is.
pub open spec fn wander_step(
    map: &DungeonMap,
    board: Seq<Enemy>,
    i: int,
    px: usize,
    py: usize,
    after: Enemy,
) -> bool {
    let before = board[i];
    &&& after.hp == before.hp
    &&& after.attack == before.attack
    &&& after.kind == before.kind
    &&& if alive(before) && exists|k: int| #[trigger] free_dir(map, board, i, px, py, k) {
        exists|k: int|
            #[trigger] free_dir(map, board, i, px, py, k) && after.x == neighbour(before, k).0
                && after.y == neighbour(before, k).1
    } else {
        after.x == before.x && after.y == before.y
    }
}

/// The enemies, in order, each took their wandering move around the player at
/// `(px, py)`, turning `before` into `after`.
pub open spec fn enemies_wandered(
    map: &DungeonMap,
    px: usize,
    py: usize,
    before: Seq<Enemy>,
    after: Seq<Enemy>,
) -> bool {
    &&& after.len() == before.len()
    &&& forall|i: int|
        0 <= i < before.len() ==> wander_step(map, board_at(before, after, i), i, px, py, #[trigger] after[i])
}

/// Enemy `e` may step in direction `k`, as `Enemy::wander` sees it with `occupied`.
pub open spec fn open_dir(map: &DungeonMap, occupied: Seq<(usize, usize)>, e: Enemy, k: int) -> bool {
    &&& 0 <= k < 4
    &&& can_enter(map, neighbour(e, k).0, neighbour(e, k).1)
    &&& !occupied.contains((neighbour(e, k).0 as usize, neighbour(e, k).1 as usize))
}

proof fn lemma_move_option(map: &DungeonMap, occupied: Seq<(usize, usize)>, e: Enemy, k: int)
    requires
        0 <= k < 4,
    ensures
        move_option(map, occupied, e.x, e.y, direction(k).0, direction(k).1) == (
        if open_dir(map, occupied, e, k) {
            seq![(neighbour(e, k).0 as usize, neighbour(e, k).1 as usize)]
        } else {
            seq![]
        }),
{
}

proof fn lemma_wander_targets(map: &DungeonMap, occupied: Seq<(usize, usize)>, e: Enemy)
    ensures
        wander_targets(map, occupied, e.x, e.y).len() == 0 <==> forall|k: int|
            !#[trigger] open_dir(map, occupied, e, k),
        forall|q: (usize, usize)|
            #[trigger] wander_targets(map, occupied, e.x, e.y).contains(q) ==> exists|k: int|
                #[trigger] open_dir(map, occupied, e, k) && q.0 == neighbour(e, k).0 && q.1
                    == neighbour(e, k).1,
{
    lemma_move_option(map, occupied, e, 0);
    lemma_move_option(map, occupied, e, 1);
    lemma_move_option(map, occupied, e, 2);
    lemma_move_option(map, occupied, e, 3);
    assert(direction(0) == (0i32, -1i32));
    assert(direction(1) == (0i32, 1i32));
    assert(direction(2) == (-1i32, 0i32));
    assert(direction(3) == (1i32, 0i32));
    let s0 = move_option(map, occupied, e.x, e.y, 0i32, -1i32);
    let s1 = move_option(map, occupied, e.x, e.y, 0i32, 1i32);
    let s2 = move_option(map, occupied, e.x, e.y, -1i32, 0i32);
    let s3 = move_option(map, occupied, e.x, e.y, 1i32, 0i32);
    let t = wander_targets(map, occupied, e.x, e.y);
    assert(t == s0 + s1 + s2 + s3);
    assert(t.len() == s0.len() + s1.len() + s2.len() + s3.len());
    if t.len() == 0 {
        assert forall|k: int| !#[trigger] open_dir(map, occupied, e, k) by {
            if 0 <= k < 4 {
                lemma_move_option(map, occupied, e, k);
            }
        }
    }
    assert forall|q: (usize, usize)| #[trigger] t.contains(q) implies exists|k: int|
        #[trigger] open_dir(map, occupied, e, k) && q.0 == neighbour(e, k).0 && q.1 == neighbour(
            e,
            k,
        ).1 by {
        let n = choose|n: int| 0 <= n < t.len() && t[n] == q;
        if n < s0.len() {
            assert(t[n] == s0[n]);
            assert(open_dir(map, occupied, e, 0));
        } else if n < s0.len() + s1.len() {
            assert(t[n] == s1[n - s0.len()]);
            assert(open_dir(map, occupied, e, 1));
        } else if n < s0.len() + s1.len() + s2.len() {
            assert(t[n] == s2[n - s0.len() - s1.len()]);
            assert(open_dir(map, occupied, e, 2));
        } else {
            assert(t[n] == s3[n - s0.len() - s1.len() - s2.len()]);
            assert(open_dir(map, occupied, e, 3));
        }
    }
}

/// The squares a living enemy `i` must avoid: those of the other living enemies,
/// then the player's.
fn occupied_squares(enemies: &Vec<Enemy>, i: usize, px: usize, py: usize) -> (occ: Vec<
    (usize, usize),
>)
    ensures
        forall|x: usize, y: usize|
            #![trigger occ@.contains((x, y))]
            occ@.contains((x, y)) <==> blocked(enemies@, i as int, px, py, x as int, y as int),
{
    let mut occ: Vec<(usize, usize)> = Vec::new();
    let mut j: usize = 0;
    while j < enemies.len()
        invariant
            0 <= j <= enemies@.len(),
            forall|k: int|
                0 <= k < j && k != i && alive(#[trigger] enemies@[k]) ==> occ@.contains(
                    (enemies@[k].x, enemies@[k].y),
                ),
            forall|n: int|
                0 <= n < occ@.len() ==> blocked(
                    enemies@,
                    i as int,
                    px,
                    py,
                    (#[trigger] occ@[n]).0 as int,
                    occ@[n].1 as int,
                ),
        decreases enemies@.len() - j,
    {
        if j != i && enemies[j].is_alive() {
            let ghost prev = occ@;
            occ.push((enemies[j].x, enemies[j].y));
            assert(occ@[prev.len() as int] == (enemies@[j as int].x, enemies@[j as int].y));
            assert forall|k: int|
                0 <= k < j + 1 && k != i && alive(#[trigger] enemies@[k]) implies occ@.contains(
                (enemies@[k].x, enemies@[k].y),
            ) by {
                if k < j {
                    let n = choose|n: int|
                        0 <= n < prev.len() && prev[n] == (enemies@[k].x, enemies@[k].y);
                    assert(occ@[n] == prev[n]);
                }
            }
            assert forall|n: int| 0 <= n < occ@.len() implies blocked(
                enemies@,
                i as int,
                px,
                py,
                (#[trigger] occ@[n]).0 as int,
                occ@[n].1 as int,
            ) by {
                if n < prev.len() {
                    assert(occ@[n] == prev[n]);
                } else {
                    assert(alive(enemies@[j as int]) && stands_at(
                        enemies@[j as int],
                        occ@[n].0 as int,
                        occ@[n].1 as int,
                    ));
                }
            }
        }
        j += 1;
    }
    let ghost prev = occ@;
    occ.push((px, py));
    assert(occ@[prev.len() as int] == (px, py));
    assert forall|x: usize, y: usize|
        #![trigger occ@.contains((x, y))]
        occ@.contains((x, y)) <==> blocked(enemies@, i as int, px, py, x as int, y as int) by {
        if occ@.contains((x, y)) {
            let n = choose|n: int| 0 <= n < occ@.len() && occ@[n] == (x, y);
            if n < prev.len() {
                assert(occ@[n] == prev[n]);
            }
        }
        if blocked(enemies@, i as int, px, py, x as int, y as int) {
            if !(x == px && y == py) {
                let k = choose|k: int|
                    0 <= k < enemies@.len() && k != i && alive(#[trigger] enemies@[k]) && stands_at(
                        enemies@[k],
                        x as int,
                        y as int,
                    );
                assert(prev.contains((enemies@[k].x, enemies@[k].y)));
                let n = choose|n: int| 0 <= n < prev.len() && prev[n] == (x, y);
                assert(occ@[n] == prev[n]);
            }
        }
    }
    occ
}

impl Game {
    /// Lets every living enemy, in order, wander around the player. An enemy that
    /// ended on the player's square would step back and strike; that never
    /// happens, as the player's square is among those an enemy avoids.
    pub(crate) fn move_enemies(&mut self)
        requires
            old(self).wf(),
        ensures
            final(self).wf(),
            enemies_wandered(
                &old(self).map,
                old(self).player.x,
                old(self).player.y,
                old(self).enemies@,
                final(self).enemies@,
            ),
            final(self).map == old(self).map,
            final(self).player == old(self).player,
            final(self).potions == old(self).potions,
            final(self).log == old(self).log,
            final(self).state == old(self).state,
            final(self).turn == old(self).turn,
    {
        let player_pos = (self.player.x, self.player.y);
        let px = self.player.x;
        let py = self.player.y;
        let ghost g0 = *self;
        let ghost before = self.enemies@;
        let n = self.enemies.len();
        for i in 0..n
            invariant
                g0.wf(),
                n == before.len(),
                before == g0.enemies@,
                px == g0.player.x,
                py == g0.player.y,
                player_pos == (px, py),
                self.map == g0.map,
                self.player == g0.player,
                self.potions == g0.potions,
                self.log == g0.log,
                self.state == g0.state,
                self.turn == g0.turn,
                self.enemies@.len() == n,
                enemies_placed(&self.map, px, py, self.enemies@),
                forall|j: int| i <= j < n ==> #[trigger] self.enemies@[j] == before[j],
                forall|j: int|
                    0 <= j < i ==> wander_step(
                        &self.map,
                        board_at(before, self.enemies@, j),
                        j,
                        px,
                        py,
                        #[trigger] self.enemies@[j],
                    ),
        {
            let ghost cur = self.enemies@;
            assert(board_at(before, cur, i as int) =~= cur) by {
                assert forall|k: int| 0 <= k < n implies #[trigger] board_at(before, cur, i as int)[k]
                    == cur[k] by {
                    if k >= i {
                        assert(cur[k] == before[k]);
                    }
                }
            }
            if self.enemies[i].is_alive() {
            let occupied = occupied_squares(&self.enemies, i, px, py);
            let ex = self.enemies[i].x;
            let ey = self.enemies[i].y;
            assert(can_enter(&self.map, ex as int, ey as int));
            self.enemies[i].wander(&self.map, occupied.as_slice());
            proof {
                let e = cur[i as int];
                let e2 = self.enemies@[i as int];
                assert(self.enemies@ == cur.update(i as int, e2));
                lemma_wander_targets(&self.map, occupied@, e);
                assert forall|k: int|
                    #[trigger] free_dir(&self.map, cur, i as int, px, py, k) <==> open_dir(
                        &self.map,
                        occupied@,
                        e,
                        k,
                    ) by {
                    let nb = neighbour(e, k);
                    if can_enter(&self.map, nb.0, nb.1) {
                        assert(occupied@.contains((nb.0 as usize, nb.1 as usize)) <==> blocked(
                            cur,
                            i as int,
                            px,
                            py,
                            nb.0,
                            nb.1,
                        ));
                    }
                }
                assert(board_at(before, self.enemies@, i as int) =~= cur) by {
                    assert forall|k: int| 0 <= k < n implies #[trigger] board_at(
                        before,
                        self.enemies@,
                        i as int,
                    )[k] == cur[k] by {
                        if k >= i {
                            assert(cur[k] == before[k]);
                        }
                    }
                }
                if exists|k: int| #[trigger] free_dir(&self.map, cur, i as int, px, py, k) {
                    let k = choose|k: int| #[trigger] free_dir(&self.map, cur, i as int, px, py, k);
                    assert(open_dir(&self.map, occupied@, e, k));
                    let q = (e2.x, e2.y);
                    assert(wander_targets(&self.map, occupied@, e.x, e.y).contains(q));
                    let k2 = choose|k2: int|
                        #[trigger] open_dir(&self.map, occupied@, e, k2) && q.0 == neighbour(e, k2).0
                            && q.1 == neighbour(e, k2).1;
                    assert(free_dir(&self.map, cur, i as int, px, py, k2));
                    assert(!blocked(cur, i as int, px, py, e2.x as int, e2.y as int));
                } else {
                    assert forall|k: int| !#[trigger] open_dir(&self.map, occupied@, e, k) by {
                        assert(!free_dir(&self.map, cur, i as int, px, py, k));
                    }
                }
                assert(wander_step(&self.map, cur, i as int, px, py, e2));
                assert forall|j: int|
                    0 <= j < i + 1 implies wander_step(
                    &self.map,
                    board_at(before, self.enemies@, j),
                    j,
                    px,
                    py,
                    #[trigger] self.enemies@[j],
                ) by {
                    if j < i {
                        assert(board_at(before, self.enemies@, j) =~= board_at(before, cur, j));
                        assert(self.enemies@[j] == cur[j]);
                    }
                }
                assert(enemies_placed(&self.map, px, py, self.enemies@)) by {
                    assert forall|a: int, b: int|
                        0 <= a < n && 0 <= b < n && a != b && alive(#[trigger] self.enemies@[a])
                            && alive(#[trigger] self.enemies@[b]) implies !stands_at(
                        self.enemies@[a],
                        self.enemies@[b].x as int,
                        self.enemies@[b].y as int,
                    ) by {
                        if a == i {
                            assert(self.enemies@[b] == cur[b]);
                        } else if b == i {
                            assert(self.enemies@[a] == cur[a]);
                        } else {
                            assert(self.enemies@[a] == cur[a]);
                            assert(self.enemies@[b] == cur[b]);
                        }
                    }
                }
            }
            if self.enemies[i].x == player_pos.0 && self.enemies[i].y == player_pos.1 {
                self.enemies[i].x = ex;
                self.enemies[i].y = ey;

                let mut rng = rand::thread_rng();
                let dmg = self.enemies[i].attack + gen_index(&mut rng, 0, 3) as i32;
                self.player.take_damage(dmg);
                let message = attacked_message(self.enemies[i].name(), dmg);
                self.log.push(message);
            }
            } else {
                assert(wander_step(&self.map, cur, i as int, px, py, cur[i as int]));
            }
        }
    }
}

/// An enemy only ever wanders onto a square of the level that can be walked on,
/// is one step away up, down, left or right, and is not in `occupied`.
pub proof fn lemma_wander_avoids(
    map: &DungeonMap,
    occupied: Seq<(usize, usize)>,
    e: Enemy,
    q: (usize, usize),
)
    requires
        wander_targets(map, occupied, e.x, e.y).contains(q),
    ensures
        can_enter(map, q.0 as int, q.1 as int),
        !occupied.contains(q),
        exists|k: int|
            0 <= k < 4 && q.0 == #[trigger] neighbour(e, k).0 && q.1 == neighbour(e, k).1,
{
    lemma_wander_targets(map, occupied, e);
    let k = choose|k: int|
        #[trigger] open_dir(map, occupied, e, k) && q.0 == neighbour(e, k).0 && q.1 == neighbour(
            e,
            k,
        ).1;
    assert(0 <= k < 4 && q.0 == neighbour(e, k).0 && q.1 == neighbour(e, k).1);
}

/// While the enemies wander, a dead enemy neither moves nor changes.
pub proof fn lemma_dead_enemies_stay(
    map: &DungeonMap,
    px: usize,
    py: usize,
    before: Seq<Enemy>,
    after: Seq<Enemy>,
    i: int,
)
    requires
        enemies_wandered(map, px, py, before, after),
        0 <= i < before.len(),
        !alive(before[i]),
    ensures
        after[i] == before[i],
{
    assert(board_at(before, after, i)[i] == before[i]);
    assert(wander_step(map, board_at(before, after, i), i, px, py, after[i]));
}

} // verus!
