use snake::{
    food_spawner, free_cells, place_food, Direction, Food, Game, LastTailPosition, Position,
    SnakeHead, SnakeSegments, ARENA_HEIGHT, ARENA_WIDTH,
};

fn pos(x: i32, y: i32) -> Position {
    Position { x, y }
}

fn game_with(body: Vec<Position>, food: Vec<Position>) -> Game {
    Game {
        head: SnakeHead { direction: Direction::Up, last_move: Direction::Up },
        segments: SnakeSegments(body),
        food: food.into_iter().map(|p| Food { position: p }).collect(),
        last_tail_position: LastTailPosition(None),
    }
}

fn all_cells_but(skip: &[Position]) -> Vec<Position> {
    let mut r = Vec::new();
    for x in 0..ARENA_WIDTH {
        for y in 0..ARENA_HEIGHT {
            let p = pos(x, y);
            if !skip.contains(&p) {
                r.push(p);
            }
        }
    }
    r
}

#[test]
fn free_cells_of_a_new_game_in_x_major_order() {
    let g = Game::new();
    let free = free_cells(&g);
    assert_eq!(free.len(), 98);
    assert_eq!(free[0], pos(0, 0));
    assert_eq!(free[1], pos(0, 1));
    assert_eq!(free[10], pos(1, 0));
    assert_eq!(free[97], pos(9, 9));
    assert_eq!(free, all_cells_but(&[pos(3, 3), pos(3, 2)]));
}

#[test]
fn free_cells_exclude_food() {
    let g = game_with(vec![pos(0, 0)], vec![pos(0, 1), pos(9, 9)]);
    let free = free_cells(&g);
    assert_eq!(free.len(), 97);
    assert_eq!(free[0], pos(0, 2));
    assert!(!free.contains(&pos(9, 9)));
}

#[test]
fn place_food_takes_rank_modulo_free_count() {
    let mut g = Game::new();
    place_food(&mut g, 0);
    assert_eq!(g.food, vec![Food { position: pos(0, 0) }]);

    let mut g = Game::new();
    place_food(&mut g, 98);
    assert_eq!(g.food, vec![Food { position: pos(0, 0) }]);

    let mut g = Game::new();
    place_food(&mut g, 10);
    assert_eq!(g.food, vec![Food { position: pos(1, 0) }]);

    // Ranks past the body cells skip them: (3, 2) and (3, 3) are taken.
    let mut g = Game::new();
    place_food(&mut g, 32);
    assert_eq!(g.food, vec![Food { position: pos(3, 4) }]);
}

#[test]
fn place_food_keeps_existing_food() {
    let mut g = game_with(vec![pos(5, 5)], vec![pos(0, 0)]);
    place_food(&mut g, 0);
    assert_eq!(g.food, vec![Food { position: pos(0, 0) }, Food { position: pos(0, 1) }]);
}

#[test]
fn place_food_on_a_full_board_is_skipped() {
    let food = all_cells_but(&[pos(3, 3), pos(3, 2)]);
    let mut g = game_with(vec![pos(3, 3), pos(3, 2)], food.clone());
    assert!(free_cells(&g).is_empty());
    place_food(&mut g, 5);
    assert_eq!(g.food.len(), food.len());
}

#[test]
fn food_spawner_on_a_full_board_is_skipped() {
    let body = all_cells_but(&[]);
    let mut g = game_with(body.clone(), vec![]);
    food_spawner(&mut g);
    assert!(g.food.is_empty());
    assert_eq!(g.segments.0, body);
}

#[test]
fn food_spawner_never_uses_an_occupied_cell() {
    let mut g = Game::new();
    for _ in 0..50 {
        food_spawner(&mut g);
    }
    assert_eq!(g.food.len(), 50);
    for (i, f) in g.food.iter().enumerate() {
        assert!(!g.segments.0.contains(&f.position));
        assert!(f.position.x >= 0 && f.position.x < ARENA_WIDTH);
        assert!(f.position.y >= 0 && f.position.y < ARENA_HEIGHT);
        for other in &g.food[i + 1..] {
            assert_ne!(other.position, f.position);
        }
    }
}

#[test]
fn food_spawner_takes_the_last_free_cell() {
    let body = all_cells_but(&[pos(6, 7)]);
    let mut g = game_with(body, vec![]);
    food_spawner(&mut g);
    assert_eq!(g.food, vec![Food { position: pos(6, 7) }]);
}

#[test]
fn position_on_board() {
    assert!(pos(0, 0).is_on_board());
    assert!(pos(9, 9).is_on_board());
    assert!(!pos(10, 0).is_on_board());
    assert!(!pos(0, -1).is_on_board());
}
