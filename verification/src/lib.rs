//! Mosaic synthesis by stochastic region growth.
//!
//! A square grid starts empty. A few cells are seeded with random colours;
//! after that, every attempt draws a colour, samples cells that are already
//! filled, takes the three samples nearest in colour, and walks the circle
//! through them until it meets an empty cell, which takes the new colour.
//! The run ends when a configured number of attempts in a row have failed.
//!
//! The crate holds the decisions of that procedure: colour ranking, the
//! circumcentre, the choice of the walk's start and direction, the walk
//! itself, the grid with its record of placements, and the controller that
//! counts attempts and misses. Bearings and the walk's budget are computed
//! from arc tangents and square roots by the caller. They enter the library
//! as comparisons, or as unsigned integers that order as those quantities do.

pub mod color;
pub mod point;
pub mod circle;
pub mod grid;
pub mod ranking;
pub mod vertices;
pub mod walk;
pub mod random;
pub mod run;
pub mod render;
