//! Potions picked up by the player.

use crate::entity::Player;
use crate::game::{log_text, Game};
use crate::journal::{potion_message, potion_text};
use crate::potion::Potion;
use vstd::prelude::*;

verus! {

/// The potion `p` still lies at `(x, y)`: a player standing there picks it up.
pub open spec fn lies_at(p: Potion, x: int, y: int) -> bool {
    !p.picked_up && p.x == x && p.y == y
}

/// Hit points after healing `amount` from `hp`, capped at `max_hp`.
pub open spec fn healed(hp: int, amount: int, max_hp: int) -> int {
    if hp + amount <= max_hp {
        hp + amount
    } else {
        max_hp
    }
}

/// The player's hit points after picking up, in order, the potions of
/// `potions` that lie at `(x, y)`, starting from `hp`.
pub open spec fn pickup_hp(potions: Seq<Potion>, x: int, y: int, hp: int, max_hp: int) -> int
    decreases potions.len(),
{
    if potions.len() == 0 {
        hp
    } else {
        let h = pickup_hp(potions.drop_last(), x, y, hp, max_hp);
        if lies_at(potions.last(), x, y) {
            healed(h, potions.last().heal_amount as int, max_hp)
        } else {
            h
        }
    }
}

/// The journal lines of those pickups, one per potion picked up.
pub open spec fn pickup_texts(potions: Seq<Potion>, x: int, y: int, hp: int, max_hp: int) -> Seq<
    Seq<char>,
>
    decreases potions.len(),
{
    if potions.len() == 0 {
        seq![]
    } else {
        let prev = pickup_texts(potions.drop_last(), x, y, hp, max_hp);
        if lies_at(potions.last(), x, y) {
            prev.push(
                potion_text(
                    potions.last().heal_amount as int,
                    pickup_hp(potions, x, y, hp, max_hp),
                    max_hp,
                ),
            )
        } else {
            prev
        }
    }
}

/// Each of those heals stays within `i32`.
pub open spec fn pickups_fit(potions: Seq<Potion>, x: int, y: int, hp: int, max_hp: int) -> bool {
    forall|k: int|
        0 <= k < potions.len() && lies_at(#[trigger] potions[k], x, y) ==> i32::MIN <= pickup_hp(
            potions.take(k),
            x,
            y,
            hp,
            max_hp,
        ) + potions[k].heal_amount <= i32::MAX
}

/// The potions after a player at `(x, y)` picked up those lying there.
pub open spec fn after_pickup(potions: Seq<Potion>, x: int, y: int) -> Seq<Potion> {
    potions.map_values(
        |p: Potion|
            if lies_at(p, x, y) {
                Potion { picked_up: true, ..p }
            } else {
                p
            },
    )
}

impl Game {
    pub(crate) fn pick_up_potions(&mut self)
        requires
            pickups_fit(
                old(self).potions@,
                old(self).player.x as int,
                old(self).player.y as int,
                old(self).player.hp as int,
                old(self).player.max_hp as int,
            ),
        ensures
            final(self).potions@ == after_pickup(
                old(self).potions@,
                old(self).player.x as int,
                old(self).player.y as int,
            ),
            final(self).player == (Player {
                hp: pickup_hp(
                    old(self).potions@,
                    old(self).player.x as int,
                    old(self).player.y as int,
                    old(self).player.hp as int,
                    old(self).player.max_hp as int,
                ) as i32,
                ..old(self).player
            }),
            i32::MIN <= pickup_hp(
                old(self).potions@,
                old(self).player.x as int,
                old(self).player.y as int,
                old(self).player.hp as int,
                old(self).player.max_hp as int,
            ) <= i32::MAX,
            log_text(final(self).log@) == log_text(old(self).log@) + pickup_texts(
                old(self).potions@,
                old(self).player.x as int,
                old(self).player.y as int,
                old(self).player.hp as int,
                old(self).player.max_hp as int,
            ),
            final(self).map == old(self).map,
            final(self).enemies == old(self).enemies,
            final(self).state == old(self).state,
            final(self).turn == old(self).turn,
    {
        let ghost g0 = *self;
        let ghost x = self.player.x as int;
        let ghost y = self.player.y as int;
        let ghost hp0 = self.player.hp as int;
        let ghost max_hp = self.player.max_hp as int;
        let n = self.potions.len();
        let mut k: usize = 0;
        assert(g0.potions@.take(0) =~= seq![]);
        assert(log_text(self.log@) =~= log_text(g0.log@) + seq![]);
        while k < n
            invariant
                0 <= k <= n,
                n == g0.potions@.len(),
                self.potions@.len() == n,
                x == g0.player.x,
                y == g0.player.y,
                hp0 == g0.player.hp,
                max_hp == g0.player.max_hp,
                pickups_fit(g0.potions@, x, y, hp0, max_hp),
                forall|j: int|
                    0 <= j < k ==> #[trigger] self.potions@[j] == after_pickup(g0.potions@, x, y)[j],
                forall|j: int| k <= j < n ==> #[trigger] self.potions@[j] == g0.potions@[j],
                i32::MIN <= pickup_hp(g0.potions@.take(k as int), x, y, hp0, max_hp) <= i32::MAX,
                self.player == (Player {
                    hp: pickup_hp(g0.potions@.take(k as int), x, y, hp0, max_hp) as i32,
                    ..g0.player
                }),
                log_text(self.log@) == log_text(g0.log@) + pickup_texts(
                    g0.potions@.take(k as int),
                    x,
                    y,
                    hp0,
                    max_hp,
                ),
                self.map == g0.map,
                self.enemies == g0.enemies,
                self.state == g0.state,
                self.turn == g0.turn,
            decreases n - k,
        {
            let ghost tk = g0.potions@.take(k as int);
            let ghost tk1 = g0.potions@.take(k + 1);
            assert(tk1.drop_last() =~= tk);
            assert(tk1.last() == g0.potions@[k as int]);
            if !self.potions[k].picked_up && self.potions[k].x == self.player.x && self.potions[k].y
                == self.player.y {
                self.potions[k].picked_up = true;
                let amount = self.potions[k].heal_amount;
                self.player.heal(amount);
                let message = potion_message(amount, self.player.hp, self.player.max_hp);
                let ghost before = self.log@;
                self.log.push(message);
                assert(log_text(self.log@) =~= log_text(before).push(message@));
                assert(log_text(self.log@) =~= log_text(g0.log@) + pickup_texts(
                    tk1,
                    x,
                    y,
                    hp0,
                    max_hp,
                ));
            }
            assert forall|j: int|
                0 <= j < k + 1 implies #[trigger] self.potions@[j] == after_pickup(
                g0.potions@,
                x,
                y,
            )[j] by {}
            k += 1;
        }
        assert(g0.potions@.take(n as int) =~= g0.potions@);
        assert(self.potions@ =~= after_pickup(g0.potions@, x, y));
    }
}

pub(crate) proof fn lemma_pickup_hp_bounds(potions: Seq<Potion>, x: int, y: int, hp: int, max_hp: int)
    requires
        hp <= max_hp,
        forall|k: int| 0 <= k < potions.len() ==> (#[trigger] potions[k]).heal_amount >= 0,
    ensures
        hp <= pickup_hp(potions, x, y, hp, max_hp) <= max_hp,
    decreases potions.len(),
{
    if potions.len() > 0 {
        let rest = potions.drop_last();
        assert forall|k: int| 0 <= k < rest.len() implies (#[trigger] rest[k]).heal_amount >= 0 by {
            assert(rest[k] == potions[k]);
        }
        lemma_pickup_hp_bounds(rest, x, y, hp, max_hp);
        assert(potions.last() == potions[potions.len() - 1]);
    }
}

/// A potion is picked up only once: on potions already picked up at `(x, y)`,
/// picking up again there changes nothing, heals nothing and logs nothing.
pub proof fn lemma_pickup_once(potions: Seq<Potion>, x: int, y: int, hp: int, max_hp: int)
    ensures
        after_pickup(after_pickup(potions, x, y), x, y) == after_pickup(potions, x, y),
        pickup_hp(after_pickup(potions, x, y), x, y, hp, max_hp) == hp,
        pickup_texts(after_pickup(potions, x, y), x, y, hp, max_hp) == Seq::<Seq<char>>::empty(),
    decreases potions.len(),
{
    let picked = after_pickup(potions, x, y);
    assert(after_pickup(picked, x, y) =~= picked);
    if potions.len() > 0 {
        let rest = potions.drop_last();
        lemma_pickup_once(rest, x, y, hp, max_hp);
        assert(picked.drop_last() =~= after_pickup(rest, x, y));
        assert(!lies_at(picked.last(), x, y));
    } else {
        assert(picked.len() == 0);
    }
}

} // verus!
