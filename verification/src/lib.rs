//! A three-by-three noughts-and-crosses board with bounds-checked access,
//! win and end-of-game detection, and players that move at random.

pub mod board;
pub mod cell;
pub mod error;
pub mod laws;
pub mod play;
pub mod player;
pub mod render;
pub mod rules;
pub mod squares;
