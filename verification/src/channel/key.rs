//! One key of a channel.

use super::event::KeyNoteEvent;
use super::voice_buffer::{
    all_released, members_of, next_released, signalled_where, BufferModel, ChannelInitOptions,
    GroupVoice, VoiceBuffer,
};
use crate::voice::{ReleaseType, Voice};
use vstd::prelude::*;

verus! {

/// A key and its voices.
#[derive(Debug)]
pub struct KeyData<V> {
    pub key: u8,
    pub voices: VoiceBuffer<V>,
    /// How many voices the key had when it was last rendered.
    pub last_voice_count: usize,
}

/// What has to be made to sound after an event.
#[derive(Debug)]
pub enum KeyAction {
    /// Nothing.
    Rest,
    /// What a key struck so hard makes sound.
    SpawnAttack(u8),
    /// What a key-up makes sound, once for each note that was struck so hard.
    SpawnRelease(Vec<u8>),
}

/// The model of what has to be made to sound.
pub enum ActionModel {
    Rest,
    SpawnAttack(u8),
    SpawnRelease(Seq<u8>),
}

impl View for KeyAction {
    type V = ActionModel;

    open spec fn view(&self) -> ActionModel {
        match *self {
            KeyAction::Rest => ActionModel::Rest,
            KeyAction::SpawnAttack(vel) => ActionModel::SpawnAttack(vel),
            KeyAction::SpawnRelease(vels) => ActionModel::SpawnRelease(vels@),
        }
    }
}

/// The voices of a key after an event, and what has to be made to sound.
pub open spec fn event_sent(b: BufferModel, fade: bool, event: KeyNoteEvent) -> (
    BufferModel,
    ActionModel,
) {
    match event {
        KeyNoteEvent::On(vel) => (b, ActionModel::SpawnAttack(vel)),
        KeyNoteEvent::Off => {
            let (next, velocity) = next_released(b);
            (
                next,
                match velocity {
                    Some(vel) => ActionModel::SpawnRelease(seq![vel]),
                    None => ActionModel::Rest,
                },
            )
        },
        KeyNoteEvent::AllOff => {
            let (next, velocities) = all_released(b);
            (next, ActionModel::SpawnRelease(velocities))
        },
        KeyNoteEvent::AllKilled => (
            BufferModel {
                members: if fade {
                    signalled_where(b.members, |i: int| true, ReleaseType::Kill)
                } else {
                    Seq::empty()
                },
                ..b
            },
            ActionModel::Rest,
        ),
    }
}

/// An integer in the range of a 64-bit counter, which goes round.
pub open spec fn wrapped(v: int) -> int {
    v % 0x1_0000_0000_0000_0000
}

/// The voices that still sound.
pub open spec fn still_sounding<V: Voice>() -> spec_fn(GroupVoice<V>) -> bool {
    |g: GroupVoice<V>| !g.voice.has_ended()
}

impl<V: Voice> KeyData<V> {
    /// A key without voices.
    pub fn new(key: u8, options: ChannelInitOptions) -> (r: KeyData<V>)
        ensures
            r.key == key,
            r.voices@ == (BufferModel {
                members: Seq::empty(),
                damper_held: false,
                held: Seq::empty(),
            }),
            r.voices.options == options,
            r.last_voice_count == 0,
    {
        KeyData { key, voices: VoiceBuffer::new(options), last_voice_count: 0 }
    }

    /// Takes an event. What it makes sound is for the caller to make, and to add to the
    /// voices of the key.
    pub fn send_event(&mut self, event: KeyNoteEvent) -> (r: KeyAction)
        ensures
            (final(self).voices@, r@) == event_sent(
                old(self).voices@,
                old(self).voices.options.fade_out_killing,
                event,
            ),
            final(self).key == old(self).key,
            final(self).last_voice_count == old(self).last_voice_count,
            final(self).voices.options == old(self).voices.options,
    {
        match event {
            KeyNoteEvent::On(vel) => KeyAction::SpawnAttack(vel),
            KeyNoteEvent::Off => match self.voices.release_next_voice() {
                Some(vel) => {
                    let mut velocities: Vec<u8> = Vec::new();
                    velocities.push(vel);
                    assert(velocities@ =~= seq![vel]);
                    KeyAction::SpawnRelease(velocities)
                },
                None => KeyAction::Rest,
            },
            KeyNoteEvent::AllOff => {
                let velocities = self.voices.release_all_groups_snapshot();
                KeyAction::SpawnRelease(velocities)
            },
            KeyNoteEvent::AllKilled => {
                self.voices.kill_all_voices();
                KeyAction::Rest
            },
        }
    }

    /// Counts the voices after they have been rendered, without those that have fallen
    /// silent, and corrects the number of voices of the channel.
    pub fn settle(&mut self, counter: &mut u64)
        ensures
            final(self).voices.buffer@ == old(self).voices.buffer@.filter(still_sounding::<V>()),
            final(self).voices@ == (BufferModel {
                members: members_of(old(self).voices.buffer@.filter(still_sounding::<V>())),
                ..old(self).voices@
            }),
            final(self).last_voice_count == final(self).voices@.members.len(),
            *final(counter) == wrapped(
                *old(counter) - old(self).last_voice_count
                    + final(self).voices@.members.len(),
            ),
            final(self).key == old(self).key,
            final(self).voices.options == old(self).voices.options,
    {
        self.voices.remove_ended_voices();
        assert(still_sounding::<V>() =~= (|g: GroupVoice<V>| !g.voice.has_ended()));
        let count = self.voices.voice_count();
        let last = self.last_voice_count;
        *counter = if count < last {
            counter.wrapping_sub((last - count) as u64)
        } else {
            counter.wrapping_add((count - last) as u64)
        };
        self.last_voice_count = count;
    }
}

/// A key that goes down asks for what sounds at its velocity, and leaves the voices alone; one
/// that comes up asks for what sounds then, once for each note that it lets go.
pub proof fn keys_ask_for_what_they_strike(b: BufferModel, fade: bool, vel: u8)
    ensures
        event_sent(b, fade, KeyNoteEvent::On(vel)) == (b, ActionModel::SpawnAttack(vel)),
        event_sent(b, fade, KeyNoteEvent::Off).0 == next_released(b).0,
        next_released(b).1 is None ==> event_sent(b, fade, KeyNoteEvent::Off).1 is Rest,
        next_released(b).1 matches Some(v) ==> (event_sent(b, fade, KeyNoteEvent::Off).1 matches
            ActionModel::SpawnRelease(list) && list.len() == 1 && list[0] == v),
        event_sent(b, fade, KeyNoteEvent::AllOff) == (
            all_released(b).0,
            ActionModel::SpawnRelease(all_released(b).1),
        ),
{
}

/// Killing all notes of a key kills every voice where voices fade out, and takes all of them
/// away where they do not.
pub proof fn killed_keys_fall_silent(b: BufferModel, fade: bool, i: int)
    requires
        0 <= i < b.members.len(),
    ensures
        ({
            let (next, action) = event_sent(b, fade, KeyNoteEvent::AllKilled);
            &&& action is Rest
            &&& !fade ==> next.members.len() == 0
            &&& fade ==> next.members.len() == b.members.len()
            &&& fade ==> next.members[i].id == b.members[i].id
            &&& fade ==> next.members[i].voice.killed
            &&& fade ==> next.members[i].voice.velocity == b.members[i].voice.velocity
            &&& next.damper_held == b.damper_held
            &&& next.held == b.held
        }),
{
}

} // verus!
