//! Deep rewriting of the keys of nested data by a naming convention.
pub mod case;
pub mod laws;
pub mod transform;
pub mod value;
