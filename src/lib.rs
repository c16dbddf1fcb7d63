//! A terminal arcade game: a ship at the bottom of a character grid shoots
//! at a descending formation of invaders. The library holds the frame
//! buffer, the diffing renderer, the player and the formation.
pub mod frame;
pub mod render;
pub mod timer;
pub mod invaders;
pub mod player;
pub mod command;
pub mod game;
