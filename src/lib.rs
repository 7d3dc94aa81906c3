//! Core of a wrap-around Snake game: grid geometry, the snake's body, the
//! direction gate, food placement, autopilot path planning and the per-tick
//! transition of the whole game.
pub mod geometry;
pub mod control;
pub mod snake;
pub mod food;
pub mod plan;
pub mod game;
