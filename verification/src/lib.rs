//! Core simulation of a timing-based rhythm game.
//!
//! The library advances a population of gameplay objects (tap circles and
//! hold-and-drag sliders) through spawn, an active hit window, player-input
//! judgment and despawn, while accumulating score, combo and health.
//!
//! All simulation time is measured in whole microseconds, playfield
//! coordinates in whole playfield units (the playfield is 640x480), health in
//! thousandths and slider progress or completion in ten-thousandths, so that
//! every quantity the rules speak of is exact integer arithmetic.

pub mod beatmap;
pub mod components;
pub mod consts;
pub mod game_thread;
pub mod resources;
pub mod systems;
pub mod utils;
pub mod world;
