use dungeon_crawler::entity::{Enemy, EnemyKind};
use dungeon_crawler::level::DungeonMap;
use dungeon_crawler::potion::Potion;
use dungeon_crawler::spawn::{enemy_square_takes, potion_square_takes};

fn walled_map() -> DungeonMap {
    // 8 by 8: border walls, interior walls drawn everywhere they are not fixed
    DungeonMap::from_layout(8, 8, &vec![vec![true; 8]; 8])
}

fn open_map() -> DungeonMap {
    DungeonMap::from_layout(8, 8, &vec![vec![false; 8]; 8])
}

#[test]
fn enemy_squares_avoid_the_start_corner_walls_and_other_enemies() {
    let map = open_map();
    let enemies = vec![Enemy::new(5, 5, EnemyKind::Troll)];
    assert!(enemy_square_takes(&map, &enemies, 4, 1));
    assert!(enemy_square_takes(&map, &enemies, 1, 4));
    assert!(!enemy_square_takes(&map, &enemies, 3, 3)); // start corner
    assert!(!enemy_square_takes(&map, &enemies, 5, 5)); // taken
    assert!(!enemy_square_takes(&map, &enemies, 7, 5)); // border wall
    assert!(enemy_square_takes(&map, &vec![], 5, 5));
    let walled = walled_map();
    assert!(!enemy_square_takes(&walled, &vec![], 4, 4)); // drawn wall
    assert!(enemy_square_takes(&walled, &vec![], 6, 5)); // approach to the exit
}

#[test]
fn potion_squares_avoid_the_spawn_walls_and_other_potions() {
    let map = open_map();
    let potions = vec![Potion::new(2, 2)];
    assert!(!potion_square_takes(&map, &potions, 1, 1)); // spawn
    assert!(!potion_square_takes(&map, &potions, 2, 2)); // taken
    assert!(potion_square_takes(&map, &potions, 2, 1));
    assert!(!potion_square_takes(&map, &potions, 0, 3)); // border wall
    let mut picked = Potion::new(3, 3);
    picked.picked_up = true;
    assert!(!potion_square_takes(&map, &vec![picked], 3, 3));
}
