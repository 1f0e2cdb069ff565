//! MIDI channels.

pub mod channel_sf;
pub mod event;
pub mod key;
pub mod params;
pub mod voice_buffer;
pub mod voice_channel;
