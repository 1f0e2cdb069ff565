//! Voices: the sounding notes of a channel.

use vstd::prelude::*;

pub mod modulation;
pub mod sampler;

verus! {

/// The controllers of a channel, one value for each.
pub type CcState = [u8; 128];

/// Controllers that all stand at 0.
pub fn new_cc_state() -> (r: CcState)
    ensures
        forall|cc: int| 0 <= cc < 128 ==> r@[cc] == 0,
{
    [0u8; 128]
}

/// Options to modify the envelope of a voice.
#[derive(Debug, Clone, Copy, PartialEq, Eq, Structural)]
pub struct EnvelopeControlData {
    /// Controls the attack, from 0 to 128.
    pub attack: Option<u8>,
    /// Controls the release, from 0 to 128.
    pub release: Option<u8>,
}

/// How a voice should be released.
#[derive(Debug, Clone, Copy, PartialEq, Eq, Structural)]
pub enum ReleaseType {
    /// With the envelope of the voice.
    Standard,
    /// With a fade-out of one millisecond.
    Kill,
}

/// What of a voice decides how it is handled.
#[derive(Debug, Clone, Copy, PartialEq, Eq, Structural)]
pub struct VoiceModel {
    pub velocity: u8,
    pub exclusive_class: Option<u8>,
    /// The voice no longer waits for its key to come up.
    pub releasing: bool,
    /// The voice is fading out at once.
    pub killed: bool,
}

/// A voice after it has been released.
pub open spec fn released(v: VoiceModel, rel_type: ReleaseType) -> VoiceModel {
    match rel_type {
        ReleaseType::Standard => VoiceModel { releasing: true, ..v },
        ReleaseType::Kill => VoiceModel { killed: true, ..v },
    }
}

/// A sounding voice.
pub trait Voice: Sized {
    /// What decides how the voice is handled.
    spec fn model(&self) -> VoiceModel;

    /// The voice has fallen silent.
    spec fn has_ended(&self) -> bool;

    /// Whether the voice has fallen silent.
    fn ended(&self) -> (r: bool)
        ensures
            r == self.has_ended(),
    ;

    /// Releases the voice.
    fn signal_release(&mut self, rel_type: ReleaseType)
        ensures
            final(self).model() == released(old(self).model(), rel_type),
    ;

    /// Whether the voice no longer waits for its key to come up.
    fn is_releasing(&self) -> (r: bool)
        ensures
            r == self.model().releasing,
    ;

    /// Whether the voice is fading out at once.
    fn is_killed(&self) -> (r: bool)
        ensures
            r == self.model().killed,
    ;

    /// How hard the key was struck.
    fn velocity(&self) -> (r: u8)
        ensures
            r == self.model().velocity,
    ;

    /// The class of voices that the voice belongs to, of which only one sounds.
    fn exclusive_class(&self) -> (r: Option<u8>)
        ensures
            r == self.model().exclusive_class,
    ;

    /// Takes the voice out of those that wait for their key to come up, without
    /// releasing it.
    fn mark_as_release_trigger(&mut self)
        ensures
            final(self).model() == (VoiceModel { releasing: true, ..old(self).model() }),
    ;
}

/// A voice that is nothing but its state.
#[derive(Debug, Clone, Copy, PartialEq, Eq, Structural)]
pub struct VoiceState {
    pub state: VoiceModel,
    pub ended: bool,
}

impl VoiceState {
    /// A voice that has just been struck.
    pub fn new(velocity: u8, exclusive_class: Option<u8>) -> (r: VoiceState)
        ensures
            r.model() == (VoiceModel {
                velocity,
                exclusive_class,
                releasing: false,
                killed: false,
            }),
            !r.has_ended(),
    {
        VoiceState {
            state: VoiceModel { velocity, exclusive_class, releasing: false, killed: false },
            ended: false,
        }
    }
}

impl Voice for VoiceState {
    open spec fn model(&self) -> VoiceModel {
        self.state
    }

    open spec fn has_ended(&self) -> bool {
        self.ended
    }

    fn ended(&self) -> (r: bool) {
        self.ended
    }

    fn signal_release(&mut self, rel_type: ReleaseType) {
        match rel_type {
            ReleaseType::Standard => self.state.releasing = true,
            ReleaseType::Kill => self.state.killed = true,
        }
    }

    fn is_releasing(&self) -> (r: bool) {
        self.state.releasing
    }

    fn is_killed(&self) -> (r: bool) {
        self.state.killed
    }

    fn velocity(&self) -> (r: u8) {
        self.state.velocity
    }

    fn exclusive_class(&self) -> (r: Option<u8>) {
        self.state.exclusive_class
    }

    fn mark_as_release_trigger(&mut self) {
        self.state.releasing = true;
    }
}


/// A voice that is released stops waiting for its key, and one that is killed fades out at
/// once. Nothing else of it changes.
pub proof fn releases_change_one_thing(v: VoiceModel, rel_type: ReleaseType)
    ensures
        ({
            let after = released(v, rel_type);
            &&& after.velocity == v.velocity && after.exclusive_class == v.exclusive_class
            &&& rel_type == ReleaseType::Standard ==> after.releasing && after.killed == v.killed
            &&& rel_type == ReleaseType::Kill ==> after.killed && after.releasing == v.releasing
        }),
{
}

} // verus!
