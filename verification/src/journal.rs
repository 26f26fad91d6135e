//! The text of the game's journal: decimal numbers and the messages of a turn.

use vstd::prelude::*;

verus! {

/// The decimal digit `d`, for `0 <= d < 10`.
pub open spec fn digit_text(d: int) -> Seq<char> {
    if d == 0 {
        "0"@
    } else if d == 1 {
        "1"@
    } else if d == 2 {
        "2"@
    } else if d == 3 {
        "3"@
    } else if d == 4 {
        "4"@
    } else if d == 5 {
        "5"@
    } else if d == 6 {
        "6"@
    } else if d == 7 {
        "7"@
    } else if d == 8 {
        "8"@
    } else {
        "9"@
    }
}

/// `n` written in decimal, without leading zeros.
pub open spec fn nat_text(n: nat) -> Seq<char>
    decreases n,
{
    if n < 10 {
        digit_text(n as int)
    } else {
        nat_text(n / 10) + digit_text((n % 10) as int)
    }
}

/// `n` written in decimal, with a leading `-` when negative, as `{}` prints an integer.
pub open spec fn int_text(n: int) -> Seq<char> {
    if n < 0 {
        "-"@ + nat_text((-n) as nat)
    } else {
        nat_text(n as nat)
    }
}

/// The greeting a new game opens its journal with.
pub open spec fn welcome_text() -> Seq<char> {
    "Bienvenue dans le donjon ! Atteins la sortie [E]."@
}

/// Picking up a potion that heals `heal`, leaving the player at `hp` of `max_hp`.
pub open spec fn potion_text(heal: int, hp: int, max_hp: int) -> Seq<char> {
    "Tu ramasses une potion ! +"@ + int_text(heal) + " PV (PV : "@ + int_text(hp) + "/"@
        + int_text(max_hp) + ")"@
}

/// Reaching the exit.
pub open spec fn victory_text() -> Seq<char> {
    "🏆 Tu as atteint la sortie ! VICTOIRE !"@
}

/// A blow of `dealt` that kills the enemy `name`, whose riposte cost `taken`.
pub open spec fn kill_text(name: Seq<char>, dealt: int, taken: int) -> Seq<char> {
    "⚔ Tu frappes le "@ + name + " pour "@ + int_text(dealt) + " dégâts. Il est mort ! (Tu perds "@
        + int_text(taken) + " PV)"@
}

/// A blow of `dealt` that leaves the enemy `name` at `left`, answered by a riposte of `taken`.
pub open spec fn hit_text(name: Seq<char>, dealt: int, left: int, taken: int) -> Seq<char> {
    "⚔ Tu frappes le "@ + name + " pour "@ + int_text(dealt) + " dégâts (PV restants: "@
        + int_text(left) + "). Il riposte pour "@ + int_text(taken) + " dégâts !"@
}

/// The enemy `name` attacking the player for `damage`.
pub open spec fn attacked_text(name: Seq<char>, damage: int) -> Seq<char> {
    "💀 Le "@ + name + " t'attaque pour "@ + int_text(damage) + " dégâts !"@
}

/// The player's death.
pub open spec fn game_over_text() -> Seq<char> {
    "☠ Tu es mort... GAME OVER."@
}

fn push_digit(s: &mut String, d: u32)
    requires
        d < 10,
    ensures
        final(s)@ == old(s)@ + digit_text(d as int),
{
    if d == 0 {
        s.append("0");
    } else if d == 1 {
        s.append("1");
    } else if d == 2 {
        s.append("2");
    } else if d == 3 {
        s.append("3");
    } else if d == 4 {
        s.append("4");
    } else if d == 5 {
        s.append("5");
    } else if d == 6 {
        s.append("6");
    } else if d == 7 {
        s.append("7");
    } else if d == 8 {
        s.append("8");
    } else {
        s.append("9");
    }
}

fn push_nat(s: &mut String, n: u32)
    ensures
        final(s)@ == old(s)@ + nat_text(n as nat),
    decreases n,
{
    if n >= 10 {
        push_nat(s, n / 10);
        push_digit(s, n % 10);
        assert(old(s)@ + nat_text((n / 10) as nat) + digit_text((n % 10) as int) =~= old(s)@
            + nat_text(n as nat));
    } else {
        push_digit(s, n);
    }
}

/// Appends `n` in decimal.
pub fn push_int(s: &mut String, n: i32)
    ensures
        final(s)@ == old(s)@ + int_text(n as int),
{
    if n < 0 {
        s.append("-");
        let m: i64 = -(n as i64);
        push_nat(s, m as u32);
        assert(old(s)@ + "-"@ + nat_text(m as nat) =~= old(s)@ + int_text(n as int));
    } else {
        push_nat(s, n as u32);
    }
}

/// The message for picking up a potion.
pub fn potion_message(heal: i32, hp: i32, max_hp: i32) -> (s: String)
    ensures
        s@ == potion_text(heal as int, hp as int, max_hp as int),
{
    let mut s = String::from_str("Tu ramasses une potion ! +");
    push_int(&mut s, heal);
    s.append(" PV (PV : ");
    push_int(&mut s, hp);
    s.append("/");
    push_int(&mut s, max_hp);
    s.append(")");
    s
}

/// The message for a blow that kills the enemy.
pub fn kill_message(name: &str, dealt: i32, taken: i32) -> (s: String)
    ensures
        s@ == kill_text(name@, dealt as int, taken as int),
{
    let mut s = String::from_str("⚔ Tu frappes le ");
    s.append(name);
    s.append(" pour ");
    push_int(&mut s, dealt);
    s.append(" dégâts. Il est mort ! (Tu perds ");
    push_int(&mut s, taken);
    s.append(" PV)");
    s
}

/// The message for a blow the enemy survives.
pub fn hit_message(name: &str, dealt: i32, left: i32, taken: i32) -> (s: String)
    ensures
        s@ == hit_text(name@, dealt as int, left as int, taken as int),
{
    let mut s = String::from_str("⚔ Tu frappes le ");
    s.append(name);
    s.append(" pour ");
    push_int(&mut s, dealt);
    s.append(" dégâts (PV restants: ");
    push_int(&mut s, left);
    s.append("). Il riposte pour ");
    push_int(&mut s, taken);
    s.append(" dégâts !");
    s
}

/// The message for an enemy attacking the player.
pub fn attacked_message(name: &str, damage: i32) -> (s: String)
    ensures
        s@ == attacked_text(name@, damage as int),
{
    let mut s = String::from_str("💀 Le ");
    s.append(name);
    s.append(" t'attaque pour ");
    push_int(&mut s, damage);
    s.append(" dégâts !");
    s
}

} // verus!
