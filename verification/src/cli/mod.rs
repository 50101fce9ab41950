//! What the command line tool decides.

pub mod config;
pub mod evaluate;
pub mod keep;
pub mod layout;
pub mod options;
pub mod profile;
pub mod progress;
pub mod prune;
pub mod run;
pub mod select;
pub mod table;
