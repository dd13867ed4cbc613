//! Generic linear-algebra primitives: vectors and matrices over an arbitrary
//! field element type, with compile-time-fixed ("static") and
//! run-time-determined ("dynamic") storage.

pub mod field;
pub mod algebra;
pub mod error;
pub mod vector;
pub mod matrix;
pub mod dvec;
pub mod dmat;
pub mod svec;
pub mod smat;
pub mod laws;
