//! The simulation core of a falling-block puzzle game.
//!
//! A game is a board of ten columns and twenty rows, a piece that falls, a
//! piece that comes next and a piece that may be set aside. Each frame the
//! game takes the wishes of the player and the time that has passed, moves
//! and turns the piece as far as the board allows, lets it fall, locks it
//! where it comes to rest, takes out the rows that are full, and looks for
//! bonus squares: regions of four by four squares that whole pieces fill.
//!
//! The library neither draws nor reads keys nor plays sound. It is handed
//! the wishes of a frame as plain values and keeps what is to be shown and
//! played in fields that can be read.
//!
//! - `geometry`: the seven shapes and the quarter turn.
//! - `board`: the grid of locked blocks.
//! - `squares`: bonus squares and their blinking.
//! - `rules`: every operation of a game as a function of its state.
//! - `invariants`: what every operation keeps.
//! - `counters`: how far the counters of a game can grow.
//! - `laws`: what follows from the rules.
//! - `game`: the game itself and its operations.
//! - `validity`: tests of a game at run time.
//! - `display`: what a frame shows.
//! - `input`, `settings`, `statistics`, `timing`, `random`: the parts of a
//!   game.
//! - `menu`, `music`, `text`: what surrounds a game.

pub mod board;
pub mod counters;
pub mod display;
pub mod game;
pub mod geometry;
pub mod input;
pub mod invariants;
pub mod laws;
pub mod menu;
pub mod music;
pub mod random;
pub mod rules;
pub mod settings;
pub mod squares;
pub mod statistics;
pub mod text;
pub mod timing;
pub mod validity;
