//! A grid-based snake game simulation: board geometry, directions, input intent,
//! the movement tick with eating and growth, food placement and the game lifecycle.

pub mod board;
pub mod direction;
pub mod food;
pub mod game;
pub mod input;
pub mod invariants;

pub use board::{Position, ARENA_HEIGHT, ARENA_WIDTH};
pub use direction::Direction;
pub use game::{
    game_over, score, snake_eating, snake_growth, snake_movement, spawn_segment, spawn_snake, tick,
    Food, Game, GameOverEvent, GrowthEvent, LastTailPosition, SnakeHead, SnakeSegments,
};
pub use food::{food_spawner, free_cells, place_food};
pub use input::{snake_movement_input, Key};
