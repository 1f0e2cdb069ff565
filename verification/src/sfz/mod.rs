//! SFZ instruments.

pub mod bindings;
pub mod defines;
pub mod grammar;
pub mod params;
pub mod parse;
pub mod region;
pub mod resolver;
pub mod root;
pub mod settings;
pub mod spelling;
