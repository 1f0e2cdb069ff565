//! Instruments in SoundFont 2 files.

pub mod file;
pub mod frame;
pub mod giving;
pub mod merging;
pub mod modulator;
pub mod parse;
pub mod preset;
pub mod sample;
pub mod zone;
