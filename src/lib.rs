//! Shape selection for a small rendering demo, and the driver of the
//! "chaos game" that approximates the Sierpinski triangle by points.
//!
//! The point type is left to the caller: coordinates, midpoints and the
//! containment predicate are handed in as closures, so that what is proved
//! here is the structure of the algorithm, for every point representation.
pub mod chaos;
pub mod containment;
pub mod shape;
