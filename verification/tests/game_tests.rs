use dungeon_crawler::entity::{Enemy, EnemyKind, Player};
use dungeon_crawler::game::{Game, GameState, Tile};
use dungeon_crawler::level::{Cell, DungeonMap};
use dungeon_crawler::potion::Potion;

/// A 5 by 5 level: border walls, exit at (3, 3), the rest floor.
fn small_game(player_at: (usize, usize), enemies: Vec<Enemy>, potions: Vec<Potion>) -> Game {
    let map = DungeonMap::from_layout(5, 5, &vec![vec![false; 5]; 5]);
    Game {
        map,
        player: Player::new(player_at.0, player_at.1),
        enemies,
        potions,
        log: vec![String::from("début")],
        state: GameState::Playing,
        turn: 0,
    }
}

fn check_placement(game: &Game) {
    let living: Vec<&Enemy> = game.enemies.iter().filter(|e| e.hp > 0).collect();
    for (i, a) in living.iter().enumerate() {
        assert!(a.x < game.map.width && a.y < game.map.height);
        assert!(game.map.is_walkable(a.x, a.y));
        assert!((a.x, a.y) != (game.player.x, game.player.y));
        for b in living.iter().skip(i + 1) {
            assert!((a.x, a.y) != (b.x, b.y));
        }
    }
    assert!(game.map.is_walkable(game.player.x, game.player.y));
}

#[test]
fn new_game_starts_at_the_spawn() {
    let g = Game::new();
    assert_eq!((g.map.width, g.map.height), (20, 14));
    assert_eq!((g.player.x, g.player.y, g.player.hp, g.player.max_hp, g.player.attack), (1, 1, 30, 30, 8));
    assert_eq!(g.log, vec!["Bienvenue dans le donjon ! Atteins la sortie [E].".to_string()]);
    assert_eq!(g.state, GameState::Playing);
    assert_eq!(g.turn, 0);
    assert!(g.map.cells[1][1] == Cell::Floor);
    assert!(g.map.is_exit(18, 12));
}

#[test]
fn new_game_spawns_enemies_and_potions_on_proper_squares() {
    for _ in 0..20 {
        let g = Game::new();
        assert!(!g.enemies.is_empty() && g.enemies.len() <= 5);
        assert!(!g.potions.is_empty() && g.potions.len() <= 3);
        for (i, e) in g.enemies.iter().enumerate() {
            assert!(1 <= e.x && e.x < 19 && 1 <= e.y && e.y < 13);
            assert!(!(e.x < 4 && e.y < 4));
            assert!(g.map.is_walkable(e.x, e.y));
            assert_eq!((e.hp, e.attack), e.kind.stats());
            for f in g.enemies.iter().skip(i + 1) {
                assert!((e.x, e.y) != (f.x, f.y));
            }
        }
        for (i, p) in g.potions.iter().enumerate() {
            assert!(1 <= p.x && p.x < 19 && 1 <= p.y && p.y < 13);
            assert!((p.x, p.y) != (1, 1));
            assert!(g.map.is_walkable(p.x, p.y));
            assert_eq!((p.heal_amount, p.picked_up), (15, false));
            for q in g.potions.iter().skip(i + 1) {
                assert!((p.x, p.y) != (q.x, q.y));
            }
        }
        check_placement(&g);
    }
}

#[test]
fn new_potion_heals_fifteen() {
    let p = Potion::new(4, 7);
    assert_eq!((p.x, p.y, p.heal_amount, p.picked_up), (4, 7, 15, false));
}

#[test]
fn recent_log_keeps_the_newest_lines() {
    let mut g = small_game((1, 1), vec![], vec![]);
    g.log = (0..7).map(|i| format!("ligne {}", i)).collect();
    let recent: Vec<&str> = g.recent_log(5).iter().map(|s| s.as_str()).collect();
    assert_eq!(recent, vec!["ligne 2", "ligne 3", "ligne 4", "ligne 5", "ligne 6"]);
    assert_eq!(g.recent_log(7).len(), 7);
    assert_eq!(g.recent_log(100).len(), 7);
    assert_eq!(g.recent_log(0).len(), 0);
}

#[test]
fn move_off_the_top_left_does_nothing() {
    let mut g = small_game((1, 1), vec![], vec![]);
    g.move_player(-2, 0);
    g.move_player(0, -5);
    assert_eq!((g.player.x, g.player.y), (1, 1));
    assert_eq!(g.turn, 0);
    assert_eq!(g.log.len(), 1);
}

#[test]
fn walking_and_bumping_take_a_turn() {
    let mut g = small_game((1, 1), vec![], vec![]);
    g.move_player(1, 0);
    assert_eq!((g.player.x, g.player.y), (2, 1));
    assert_eq!(g.turn, 1);
    g.move_player(0, -1); // wall
    assert_eq!((g.player.x, g.player.y), (2, 1));
    assert_eq!(g.turn, 2);
    assert_eq!(g.state, GameState::Playing);
    assert_eq!(g.log.len(), 1);
}

#[test]
fn stepping_on_a_potion_heals_and_logs() {
    let mut g = small_game((1, 1), vec![], vec![Potion::new(2, 1)]);
    g.player.hp = 10;
    g.move_player(1, 0);
    assert_eq!(g.player.hp, 25);
    assert!(g.potions[0].picked_up);
    assert_eq!(g.log.last().unwrap(), "Tu ramasses une potion ! +15 PV (PV : 25/30)");
    // the potion is gone: coming back does nothing more
    g.move_player(-1, 0);
    g.move_player(1, 0);
    assert_eq!(g.player.hp, 25);
    assert_eq!(g.log.len(), 2);
}

#[test]
fn potion_heal_is_capped() {
    let mut g = small_game((1, 1), vec![], vec![Potion::new(2, 1)]);
    g.player.hp = 28;
    g.move_player(1, 0);
    assert_eq!(g.player.hp, 30);
    assert_eq!(g.log.last().unwrap(), "Tu ramasses une potion ! +15 PV (PV : 30/30)");
}

#[test]
fn reaching_the_exit_wins_without_a_new_turn() {
    let mut g = small_game((3, 2), vec![Enemy::new(1, 3, EnemyKind::Troll)], vec![]);
    g.turn = 4;
    g.move_player(0, 1);
    assert_eq!((g.player.x, g.player.y), (3, 3));
    assert_eq!(g.state, GameState::Victory);
    assert_eq!(g.turn, 4);
    assert_eq!((g.enemies[0].x, g.enemies[0].y), (1, 3));
    assert_eq!(g.log.last().unwrap(), "🏆 Tu as atteint la sortie ! VICTOIRE !");
}

#[test]
fn bumping_into_an_enemy_is_a_fight() {
    let mut g = small_game((1, 1), vec![Enemy::new(2, 1, EnemyKind::Troll)], vec![]);
    g.move_player(1, 0);
    assert_eq!((g.player.x, g.player.y), (1, 1));
    let dealt = 20 - g.enemies[0].hp;
    let taken = 30 - g.player.hp;
    assert!((8..=11).contains(&dealt));
    assert!((7..=9).contains(&taken));
    assert_eq!(g.turn, 1);
    assert_eq!(
        g.log.last().unwrap(),
        &format!(
            "⚔ Tu frappes le Troll pour {} dégâts (PV restants: {}). Il riposte pour {} dégâts !",
            dealt,
            20 - dealt,
            taken
        )
    );
    assert_eq!(g.state, GameState::Playing);
    check_placement(&g);
}

#[test]
fn killing_an_enemy_is_logged_and_it_stays_dead() {
    let mut g = small_game((1, 1), vec![Enemy::new(2, 1, EnemyKind::Goblin)], vec![]);
    g.enemies[0].hp = 3;
    g.move_player(1, 0);
    let dealt = 3 - g.enemies[0].hp;
    let taken = 30 - g.player.hp;
    assert!(g.enemies[0].hp <= 0);
    assert_eq!(
        g.log.last().unwrap(),
        &format!(
            "⚔ Tu frappes le Goblin pour {} dégâts. Il est mort ! (Tu perds {} PV)",
            dealt, taken
        )
    );
    // the dead goblin neither moves nor blocks
    for _ in 0..5 {
        let before = (g.enemies[0].x, g.enemies[0].y, g.enemies[0].hp);
        g.move_player(0, 1);
        g.move_player(0, -1);
        assert_eq!((g.enemies[0].x, g.enemies[0].y, g.enemies[0].hp), before);
    }
    g.move_player(1, 0);
    assert_eq!((g.player.x, g.player.y), (2, 1));
}

#[test]
fn dying_in_a_fight_ends_the_game() {
    let mut g = small_game((1, 1), vec![Enemy::new(2, 1, EnemyKind::Troll)], vec![]);
    g.player.hp = 3;
    g.move_player(1, 0);
    assert!(g.player.hp <= -4);
    assert_eq!(g.state, GameState::GameOver);
    assert_eq!(g.log.last().unwrap(), "☠ Tu es mort... GAME OVER.");
}

#[test]
fn apply_combat_with_given_damage() {
    let mut g = small_game((1, 1), vec![Enemy::new(2, 1, EnemyKind::Goblin)], vec![]);
    g.apply_combat(0, 10, 4);
    assert_eq!(g.enemies[0].hp, 0);
    assert_eq!(g.player.hp, 26);
    assert_eq!(g.log.last().unwrap(), "⚔ Tu frappes le Goblin pour 10 dégâts. Il est mort ! (Tu perds 4 PV)");
    let mut g = small_game((1, 1), vec![Enemy::new(2, 1, EnemyKind::Skeleton)], vec![]);
    g.apply_combat(0, 9, 6);
    assert_eq!(g.enemies[0].hp, 5);
    assert_eq!(g.player.hp, 24);
    assert_eq!(
        g.log.last().unwrap(),
        "⚔ Tu frappes le Squelette pour 9 dégâts (PV restants: 5). Il riposte pour 6 dégâts !"
    );
    assert_eq!(g.turn, 0);
}

#[test]
fn enemies_wander_one_square_and_never_overlap() {
    let enemies = vec![
        Enemy::new(2, 2, EnemyKind::Goblin),
        Enemy::new(3, 2, EnemyKind::Troll),
        Enemy::new(2, 3, EnemyKind::Skeleton),
    ];
    let mut g = small_game((1, 1), enemies, vec![]);
    for t in 0..200 {
        let before: Vec<(usize, usize)> = g.enemies.iter().map(|e| (e.x, e.y)).collect();
        let hp_before = g.player.hp;
        // bump into the border wall: a turn without a fight
        g.move_player(0, -1);
        assert_eq!(g.turn, t + 1);
        assert_eq!(g.player.hp, hp_before);
        for (e, (bx, by)) in g.enemies.iter().zip(before) {
            let dist = (e.x as i64 - bx as i64).abs() + (e.y as i64 - by as i64).abs();
            assert!(dist <= 1);
        }
        check_placement(&g);
    }
    assert_eq!(g.log.len(), 1);
}

#[test]
fn tiles_show_player_enemies_potions_and_squares() {
    let mut g = small_game(
        (1, 1),
        vec![Enemy::new(2, 2, EnemyKind::Troll), Enemy::new(3, 1, EnemyKind::Goblin)],
        vec![Potion::new(1, 3), Potion::new(2, 3)],
    );
    g.enemies[1].hp = 0;
    g.potions[1].picked_up = true;
    assert_eq!(g.tile_at(1, 1), Tile::Player);
    assert_eq!(g.tile_at(2, 2), Tile::Enemy(EnemyKind::Troll));
    assert_eq!(g.tile_at(3, 1), Tile::Floor); // dead goblin is not drawn
    assert_eq!(g.tile_at(1, 3), Tile::Potion);
    assert_eq!(g.tile_at(2, 3), Tile::Floor); // picked-up potion is not drawn
    assert_eq!(g.tile_at(0, 0), Tile::Wall);
    assert_eq!(g.tile_at(3, 3), Tile::Exit);
}
