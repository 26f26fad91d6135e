use dungeon_crawler::entity::{Enemy, EnemyKind, Entity, Player};
use dungeon_crawler::level::DungeonMap;

fn open_map() -> DungeonMap {
    DungeonMap::from_layout(5, 5, &vec![vec![false; 5]; 5])
}

#[test]
fn new_player_has_full_health() {
    let p = Player::new(3, 4);
    assert_eq!((p.x, p.y, p.hp, p.max_hp, p.attack), (3, 4, 30, 30, 8));
    assert_eq!(p.position(), (3, 4));
    assert_eq!(p.hp(), 30);
    assert_eq!(p.attack(), 8);
    assert_eq!(p.symbol(), '@');
    assert!(p.is_alive());
}

#[test]
fn heal_is_capped_at_maximum() {
    let mut p = Player::new(1, 1);
    p.hp = 10;
    p.heal(5);
    assert_eq!(p.hp, 15);
    p.heal(15);
    assert_eq!(p.hp, 30);
    p.hp = 40;
    p.heal(0);
    assert_eq!(p.hp, 30);
    p.hp = 10;
    p.heal(-4);
    assert_eq!(p.hp, 6);
}

#[test]
fn damage_can_kill_the_player() {
    let mut p = Player::new(1, 1);
    p.take_damage(12);
    assert_eq!(p.hp, 18);
    assert!(p.is_alive());
    p.take_damage(18);
    assert_eq!(p.hp, 0);
    assert!(!p.is_alive());
    p.take_damage(-3);
    assert_eq!(p.hp, 3);
}

#[test]
fn moves_onto_floor_and_exit_succeed() {
    let map = open_map();
    let mut p = Player::new(1, 1);
    assert!(p.try_move(1, 0, &map));
    assert_eq!((p.x, p.y), (2, 1));
    assert!(p.try_move(1, 2, &map));
    assert_eq!((p.x, p.y), (3, 3));
    assert_eq!(p.hp, 30);
}

#[test]
fn blocked_moves_leave_the_player_in_place() {
    let map = open_map();
    let mut p = Player::new(1, 1);
    assert!(!p.try_move(-1, 0, &map)); // wall
    assert!(!p.try_move(0, -2, &map)); // above the grid
    assert!(!p.try_move(10, 0, &map)); // right of the grid
    assert!(!p.try_move(0, 4, &map)); // below the grid
    assert_eq!((p.x, p.y), (1, 1));
}

#[test]
fn kinds_have_their_stats_symbols_and_names() {
    assert_eq!(EnemyKind::Goblin.stats(), (10, 4));
    assert_eq!(EnemyKind::Troll.stats(), (20, 7));
    assert_eq!(EnemyKind::Skeleton.stats(), (14, 5));
    assert_eq!(EnemyKind::Goblin.symbol(), 'g');
    assert_eq!(EnemyKind::Troll.symbol(), 'T');
    assert_eq!(EnemyKind::Skeleton.symbol(), 's');
    assert_eq!(EnemyKind::Goblin.name(), "Goblin");
    assert_eq!(EnemyKind::Troll.name(), "Troll");
    assert_eq!(EnemyKind::Skeleton.name(), "Squelette");
}

#[test]
fn new_enemy_takes_its_kind_stats() {
    let e = Enemy::new(5, 6, EnemyKind::Troll);
    assert_eq!((e.x, e.y, e.hp, e.attack), (5, 6, 20, 7));
    assert_eq!(e.kind, EnemyKind::Troll);
    assert_eq!(e.name(), "Troll");
    assert_eq!(e.symbol(), 'T');
    assert_eq!(e.position(), (5, 6));
    assert_eq!(e.hp(), 20);
    assert_eq!(e.attack(), 7);
}

#[test]
fn enemy_damage_and_death() {
    let mut e = Enemy::new(2, 2, EnemyKind::Goblin);
    e.take_damage(9);
    assert_eq!(e.hp, 1);
    assert!(e.is_alive());
    e.take_damage(11);
    assert_eq!(e.hp, -10);
    assert!(!e.is_alive());
}

#[test]
fn open_moves_lists_free_neighbours_up_down_left_right() {
    let map = open_map();
    let e = Enemy::new(2, 2, EnemyKind::Skeleton);
    assert_eq!(e.open_moves(&map, &[]), vec![(2, 1), (2, 3), (1, 2), (3, 2)]);
    assert_eq!(e.open_moves(&map, &[(2, 1), (3, 2), (9, 9)]), vec![(2, 3), (1, 2)]);
    let corner = Enemy::new(1, 1, EnemyKind::Goblin);
    assert_eq!(corner.open_moves(&map, &[]), vec![(1, 2), (2, 1)]);
}

#[test]
fn wander_moves_to_an_open_square() {
    let map = open_map();
    for _ in 0..50 {
        let mut e = Enemy::new(2, 2, EnemyKind::Skeleton);
        e.wander(&map, &[(2, 1), (1, 2)]);
        assert!((e.x, e.y) == (2, 3) || (e.x, e.y) == (3, 2));
        assert_eq!((e.hp, e.attack, e.kind), (14, 5, EnemyKind::Skeleton));
    }
}

#[test]
fn wander_without_room_stays_put() {
    let map = open_map();
    let mut e = Enemy::new(1, 1, EnemyKind::Goblin);
    e.wander(&map, &[(1, 2), (2, 1)]);
    assert_eq!((e.x, e.y), (1, 1));
}
