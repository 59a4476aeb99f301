//! A sliding-tile puzzle: an image cut into a square grid of pieces, one of
//! which is hidden, with click-to-swap moves and a move history that can be
//! played backwards one step per frame.
//!
//! The library works in whole pixels. It computes the grid layout, decides
//! what a click or a reverse request does to the puzzle, and lists the draw
//! commands of a frame; reading input and painting are left to the caller.

pub mod draw;
pub mod generate;
pub mod geometry;
pub mod input;
pub mod laws;
pub mod layout;
pub mod model;
pub mod piece;
pub mod puzzle;
