//! Verified core of the SDKMAN! native commands: the rules on candidate
//! names, version paths and the files of an SDKMAN! installation, separated
//! from the file-system and network work that the commands perform.

pub mod constants;
pub mod path;
pub mod text;
pub mod helpers;
pub mod current;
pub mod listing;
pub mod switch;
pub mod switch_model;
