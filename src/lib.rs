//! Arithmetic chips for a PLONK-style circuit over the Pallas base field.
//!
//! Three operation gates (addition, subtraction, multiplication) share two
//! advice columns; a composition chip wires them together, loads private
//! values, and exposes values through an instance column.

pub mod arithmetic;
pub mod circuit;
pub mod field;
pub mod gates;
pub mod layouter;
pub mod lemmas;
