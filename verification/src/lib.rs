//! A small verified library grown around a fixed-capacity circular byte
//! buffer, together with a handful of independent verified routines
//! (slice utilities, simple arithmetic methods, a merge sort, and a
//! pixel-display command interpreter).

pub mod ring;
pub mod ring_checked;
pub mod sort;
pub mod methods;
pub mod slices;
pub mod display;
