//! What the library promises across its parts: where programs find things, where what they write
//! goes, and how the steps of a course of action belong together.

pub mod building;
pub mod contents;
pub mod digests;
pub mod environments;
pub mod installing;
pub mod packaging;
pub mod processes;
pub mod records;
pub mod runs;
pub mod sight;
pub mod sources;
