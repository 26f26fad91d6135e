use dungeon_crawler::journal::{
    attacked_message, hit_message, kill_message, potion_message, push_int,
};

#[test]
fn integers_are_written_as_rust_prints_them() {
    for n in [0, 7, 9, 10, 42, 123, 1000, -1, -5, -10, -4096, i32::MIN, i32::MAX] {
        let mut s = String::from("x");
        push_int(&mut s, n);
        assert_eq!(s, format!("x{}", n));
    }
}

#[test]
fn potion_message_text() {
    assert_eq!(
        potion_message(15, 25, 30),
        "Tu ramasses une potion ! +15 PV (PV : 25/30)"
    );
}

#[test]
fn kill_message_text() {
    assert_eq!(
        kill_message("Goblin", 11, 5),
        "⚔ Tu frappes le Goblin pour 11 dégâts. Il est mort ! (Tu perds 5 PV)"
    );
}

#[test]
fn hit_message_text() {
    assert_eq!(
        hit_message("Troll", 9, 11, 8),
        "⚔ Tu frappes le Troll pour 9 dégâts (PV restants: 11). Il riposte pour 8 dégâts !"
    );
    assert_eq!(
        hit_message("Squelette", -2, -3, 0),
        "⚔ Tu frappes le Squelette pour -2 dégâts (PV restants: -3). Il riposte pour 0 dégâts !"
    );
}

#[test]
fn attacked_message_text() {
    assert_eq!(
        attacked_message("Troll", 7),
        "💀 Le Troll t'attaque pour 7 dégâts !"
    );
}
