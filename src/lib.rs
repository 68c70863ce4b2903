//! A falling-words typing game: words drop down a character grid and the
//! player types them before they reach the bottom. The library holds the
//! game's rules and its rendering as plain draw commands; the terminal is
//! driven by the program around it.

pub mod game;
pub mod input;
pub mod laws;
pub mod render;
mod rng;
pub mod text;
pub mod words;
