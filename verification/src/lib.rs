//! Sierpinski triangle subdivision on an integer grid.
//!
//! A [`Triangle`] is given by its apex and its height, in whole grid units; the
//! base lies below the apex and is as wide as the triangle is high. Drawing
//! a triangle, or subdividing it to some depth, appends outline commands to a
//! [`Surface`], which records them in order so that a caller can replay them
//! on a real rendering target.
//!
//! Halving rounds down to a whole unit. A caller who wants every halving of a
//! subdivision to be exact picks a unit fine enough for the depth it asks for:
//! see [`exact_unit`].

pub mod geometry;
pub mod grid;
pub mod render;
pub mod surface;

pub use geometry::{Coordinates, Point, Shape, Triangle};
pub use grid::exact_unit;
pub use render::{render, strokes};
pub use surface::{Command, Op, Surface};
