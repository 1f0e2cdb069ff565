//! The events of a channel.

use vstd::prelude::*;

verus! {

/// MIDI events for a single key in a channel.
#[derive(Debug, Clone, Copy, PartialEq, Eq, Structural)]
pub enum KeyNoteEvent {
    /// Starts a new note voice with a velocity.
    On(u8),
    /// Signals off to a note voice.
    Off,
    /// Signals off to all note voices.
    AllOff,
    /// Kills all note voices without decay.
    AllKilled,
}

/// Events to modify parameters of a channel.
#[derive(Debug, Clone, Copy, PartialEq, Eq, Structural)]
pub enum ChannelConfigEvent {
    /// Sets how many voices a key may have.
    SetLayerCount(Option<usize>),
    /// Sets how many notes the channel may have.
    SetPolyphonyCap(Option<usize>),
    /// Sets how many notes may start in one block.
    SetSpawnBurstLimit(Option<usize>),
    /// Makes the channel use percussion patches only, or no longer.
    SetPercussionMode(bool),
}

/// MIDI control events for a channel.
#[derive(Debug, Clone, Copy, PartialEq, Eq, Structural)]
pub enum ControlEvent {
    /// A raw control change event: the controller and its value.
    Raw(u8, u8),
}

/// MIDI events for a channel.
#[derive(Debug, Clone, Copy, PartialEq, Eq, Structural)]
pub enum ChannelAudioEvent {
    /// Starts a new note voice.
    NoteOn { key: u8, vel: u8 },
    /// Signals off to a note voice.
    NoteOff { key: u8 },
    /// Signals off to all voices.
    AllNotesOff,
    /// Kills all voices without decay.
    AllNotesKilled,
    /// Resets all controllers to their default values.
    ResetControl,
    /// Control event for the channel.
    Control(ControlEvent),
    /// Program change event.
    ProgramChange(u8),
    /// System reset.
    SystemReset,
}

/// Wrapper enum for various events for a channel.
#[derive(Debug, Clone, Copy, PartialEq, Eq, Structural)]
pub enum ChannelEvent {
    /// Audio event.
    Audio(ChannelAudioEvent),
    /// Configuration event for the channel.
    Config(ChannelConfigEvent),
}

} // verus!
