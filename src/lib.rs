//! Simulation core of a grid-based tower-defense game: placed plants produce
//! sun or shoot peas, zombies walk in from the right, and the game is lost once
//! a zombie walks past the left edge of the lawn.
//!
//! All positions are integers in hundredths of a screen pixel.

pub mod config;
pub mod grid;
pub mod ledger;
pub mod entities;
pub mod stages;
pub mod game;
