//! A software synthesizer: instruments, voices and the sound they are made of.

use std::sync::Arc;
use vstd::prelude::*;

pub mod bytes;
pub mod channel;
pub mod effects;
pub mod path;
pub mod sf2;
pub mod sfz;
pub mod soundfont;
pub mod text;
pub mod voice;

verus! {

/// How many channels the output has.
#[derive(Debug, Clone, Copy, PartialEq, Eq, Structural)]
pub enum ChannelCount {
    Mono,
    Stereo,
}

/// Parameters of the output.
#[derive(Debug, Clone, Copy, PartialEq, Eq, Structural)]
pub struct AudioStreamParams {
    pub sample_rate: u32,
    pub channels: ChannelCount,
}

/// How a sample repeats.
#[derive(Debug, Clone, Copy, PartialEq, Eq, Structural)]
pub enum LoopMode {
    NoLoop,
    OneShot,
    LoopContinuous,
    LoopSustain,
}

/// The filter of a voice.
#[derive(Debug, Clone, Copy, PartialEq, Eq, Structural)]
pub enum FilterType {
    LowPassPole,
    LowPass,
    HighPass,
    BandPass,
    Notch,
}

impl Default for FilterType {
    fn default() -> (r: Self)
        ensures
            r == FilterType::LowPass,
    {
        FilterType::LowPass
    }
}

/// `Arc::clone` hands out the same value once more.
#[verifier::external_body]
pub(crate) fn share<T>(value: &Arc<T>) -> (r: Arc<T>)
    ensures
        r == *value,
{
    Arc::clone(value)
}

} // verus!
