//! What is done to the sound of a channel.

pub mod delay;
