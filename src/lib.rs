//! Contour lines of a sampled scalar field by marching squares.
//!
//! `field` finds where the field crosses zero on one grid edge, `contour`
//! states what the contour of a sampled grid is and the laws it obeys, and
//! `engine` keeps the crossings of every edge and extracts the contour.

pub mod contour;
pub mod engine;
pub mod field;
