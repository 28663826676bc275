//! Core of a trait-solving logic engine: interning of IR values, structural
//! matching of two IR values ("zipping"), and the classification of goals as
//! coinductive or inductive.
pub mod ir;
pub mod zip;
pub mod interner;
pub mod coinductive;
