//! Getting the sources that packages are built from.

pub mod archive;
pub mod fetch;
pub mod git;
