//! The verified core of a 4D scene viewer that shows how a four-dimensional
//! world relates to our three-dimensional one and to a two-dimensional Flatland.
//!
//! - `lattice`: atoms on the integer lattice and the enumeration of lattice boxes.
//! - `shapes`: cubes, hypercubes, squares and axes built atom by atom.
//! - `voxels`: atom shapes read from `x y z r g b a` text lines.
//! - `scene`: objects as runs of atoms, the Flatland/Spaceland groups and the view switches.
//! - `tour`: the steps of the guided tour, its texts in two languages and which atoms show.
//! - `texts`, `strings`: the tour's texts and character helpers.

pub mod lattice;
pub mod shapes;
pub mod voxels;
pub mod scene;
pub mod strings;
pub mod texts;
pub mod tour;
