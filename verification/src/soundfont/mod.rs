//! Instruments made of samples.

pub mod audio;
pub mod cache;
pub mod instrument;
pub mod load;
pub mod load_sf2;
pub mod load_sfz;
pub mod pool;
pub mod ring;
pub mod source;
pub mod streaming;
pub mod wav;
