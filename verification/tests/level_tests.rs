use dungeon_crawler::level::{Cell, DungeonMap};

fn open_walls(width: usize, height: usize, wall: bool) -> Vec<Vec<bool>> {
    vec![vec![wall; width]; height]
}

#[test]
fn layout_of_five_by_five_without_walls() {
    let map = DungeonMap::from_layout(5, 5, &open_walls(5, 5, false));
    assert_eq!(map.width, 5);
    assert_eq!(map.height, 5);
    assert_eq!(map.cells.len(), 5);
    for y in 0..5 {
        assert_eq!(map.cells[y].len(), 5);
        for x in 0..5 {
            let expected = if x == 0 || y == 0 || x == 4 || y == 4 {
                Cell::Wall
            } else if x == 3 && y == 3 {
                Cell::Exit
            } else {
                Cell::Floor
            };
            assert_eq!(map.cells[y][x], expected, "square ({}, {})", x, y);
        }
    }
}

#[test]
fn layout_draws_decide_only_unfixed_interior_squares() {
    let map = DungeonMap::from_layout(5, 5, &open_walls(5, 5, true));
    // fixed: spawn and neighbours, the exit's approaches, the exit
    assert_eq!(map.cells[1][1], Cell::Floor);
    assert_eq!(map.cells[1][2], Cell::Floor);
    assert_eq!(map.cells[2][1], Cell::Floor);
    assert_eq!(map.cells[2][3], Cell::Floor);
    assert_eq!(map.cells[3][2], Cell::Floor);
    assert_eq!(map.cells[3][3], Cell::Exit);
    // unfixed interior squares follow the draws
    assert_eq!(map.cells[1][3], Cell::Wall);
    assert_eq!(map.cells[3][1], Cell::Wall);
    assert_eq!(map.cells[2][2], Cell::Wall);
}

#[test]
fn smallest_level_keeps_the_spawn_over_the_exit() {
    let map = DungeonMap::from_layout(3, 3, &open_walls(3, 3, true));
    // the exit at (1, 1) is overridden by the spawn, and the approaches break the border
    assert_eq!(map.cells[1][1], Cell::Floor);
    assert_eq!(map.cells[0][1], Cell::Floor);
    assert_eq!(map.cells[1][0], Cell::Floor);
    assert_eq!(map.cells[0][0], Cell::Wall);
    assert!(!map.is_exit(1, 1));
}

#[test]
fn generated_level_has_walls_around_exit_and_free_spawn() {
    let map = DungeonMap::new(20, 14);
    assert_eq!(map.width, 20);
    assert_eq!(map.height, 14);
    assert_eq!(map.cells.len(), 14);
    let mut interior_walls = 0;
    for y in 0..14 {
        assert_eq!(map.cells[y].len(), 20);
        for x in 0..20 {
            let c = map.cells[y][x];
            if x == 0 || y == 0 || x == 19 || y == 13 {
                assert_eq!(c, Cell::Wall);
            } else if x == 18 && y == 12 {
                assert_eq!(c, Cell::Exit);
            } else if (x, y) == (1, 1) || (x, y) == (2, 1) || (x, y) == (1, 2)
                || (x, y) == (18, 11) || (x, y) == (17, 12)
            {
                assert_eq!(c, Cell::Floor);
            } else {
                assert!(c == Cell::Wall || c == Cell::Floor);
                if c == Cell::Wall {
                    interior_walls += 1;
                }
            }
        }
    }
    // about one interior square in five is a wall; none at all is out of the question
    assert!(interior_walls > 0);
    assert!(interior_walls < 211);
}

#[test]
fn walkable_and_exit_queries() {
    let map = DungeonMap::from_layout(5, 5, &open_walls(5, 5, true));
    assert!(map.is_walkable(1, 1));
    assert!(map.is_walkable(3, 3));
    assert!(!map.is_walkable(0, 0));
    assert!(!map.is_walkable(2, 2));
    assert!(map.is_exit(3, 3));
    assert!(!map.is_exit(1, 1));
    assert!(!map.is_exit(0, 2));
}
