//! The settings of a channel.

use super::event::ChannelConfigEvent;
use crate::AudioStreamParams;
use vstd::prelude::*;

verus! {

/// The bank that holds percussion.
pub const PERCUSSION_BANK: u8 = 128;

/// A program of a soundfont.
#[derive(Debug, Clone, Copy, PartialEq, Eq, Structural)]
pub struct ProgramDescriptor {
    pub bank: u8,
    pub preset: u8,
}

impl Default for ProgramDescriptor {
    fn default() -> (r: Self)
        ensures
            r == (ProgramDescriptor { bank: 0, preset: 0 }),
    {
        ProgramDescriptor { bank: 0, preset: 0 }
    }
}

/// The program is one that MIDI can name.
pub open spec fn program_wf(p: ProgramDescriptor) -> bool {
    p.bank <= PERCUSSION_BANK && p.preset <= 127
}

/// The statistics of a channel.
#[derive(Debug, Clone, Copy, PartialEq, Eq, Structural)]
pub struct VoiceChannelStats {
    /// How many voices sounded when each key was last rendered.
    pub voice_counter: u64,
}

impl VoiceChannelStats {
    /// The statistics of a channel that has not sounded.
    pub fn new() -> (r: VoiceChannelStats)
        ensures
            r.voice_counter == 0,
    {
        VoiceChannelStats { voice_counter: 0 }
    }
}

impl Default for VoiceChannelStats {
    fn default() -> (r: Self)
        ensures
            r.voice_counter == 0,
    {
        VoiceChannelStats::new()
    }
}

/// What never changes of a channel.
#[derive(Debug, Clone, Copy, PartialEq, Eq, Structural)]
pub struct VoiceChannelConst {
    pub stream_params: AudioStreamParams,
}

/// The settings of a channel.
#[derive(Debug, Clone, Copy, PartialEq, Eq, Structural)]
pub struct VoiceChannelParams {
    pub stats: VoiceChannelStats,
    /// How many voices a key may have.
    pub layers: Option<usize>,
    /// How many notes the channel may have.
    pub polyphony_cap: Option<usize>,
    /// How many notes may start in one block.
    pub spawn_burst_limit: Option<usize>,
    pub program: ProgramDescriptor,
    pub constant: VoiceChannelConst,
}

/// The settings after a configuration event. Percussion has a bank of its own.
pub open spec fn configured(
    p: VoiceChannelParams,
    event: ChannelConfigEvent,
) -> VoiceChannelParams {
    match event {
        ChannelConfigEvent::SetLayerCount(count) => VoiceChannelParams { layers: count, ..p },
        ChannelConfigEvent::SetPolyphonyCap(cap) => VoiceChannelParams { polyphony_cap: cap, ..p },
        ChannelConfigEvent::SetSpawnBurstLimit(limit) => VoiceChannelParams {
            spawn_burst_limit: limit,
            ..p
        },
        ChannelConfigEvent::SetPercussionMode(set) => VoiceChannelParams {
            program: ProgramDescriptor {
                bank: if set {
                    PERCUSSION_BANK
                } else {
                    0
                },
                ..p.program
            },
            ..p
        },
    }
}

/// A number of at most 127.
pub open spec fn seven_bits(v: u8) -> u8 {
    if v > 127 {
        127
    } else {
        v
    }
}

/// The program after a bank has been selected. A percussion channel keeps its bank.
pub open spec fn bank_selected(p: ProgramDescriptor, bank: u8) -> ProgramDescriptor {
    if p.bank == PERCUSSION_BANK {
        p
    } else {
        ProgramDescriptor { bank: seven_bits(bank), ..p }
    }
}

/// Whatever banks and presets are selected and however the channel is configured, its
/// program stays one that MIDI can name, and a percussion channel stays one until it is
/// configured otherwise.
pub proof fn programs_stay_valid(
    p: VoiceChannelParams,
    event: ChannelConfigEvent,
    bank: u8,
    preset: u8,
)
    requires
        program_wf(p.program),
    ensures
        program_wf(configured(p, event).program),
        program_wf(bank_selected(p.program, bank)),
        program_wf(ProgramDescriptor { preset: seven_bits(preset), ..p.program }),
        p.program.bank == PERCUSSION_BANK ==> bank_selected(p.program, bank).bank
            == PERCUSSION_BANK,
        p.program.bank != PERCUSSION_BANK ==> bank_selected(p.program, bank).bank
            != PERCUSSION_BANK,
        !(event is SetPercussionMode) ==> configured(p, event).program == p.program,
{
}

impl VoiceChannelParams {
    /// The settings of a new channel.
    pub fn new(stream_params: AudioStreamParams) -> (r: VoiceChannelParams)
        ensures
            r == (VoiceChannelParams {
                stats: VoiceChannelStats { voice_counter: 0 },
                layers: Some(4),
                polyphony_cap: None,
                spawn_burst_limit: None,
                program: ProgramDescriptor { bank: 0, preset: 0 },
                constant: VoiceChannelConst { stream_params },
            }),
            program_wf(r.program),
    {
        VoiceChannelParams {
            stats: VoiceChannelStats::new(),
            layers: Some(4),
            polyphony_cap: None,
            spawn_burst_limit: None,
            program: ProgramDescriptor::default(),
            constant: VoiceChannelConst { stream_params },
        }
    }

    /// Takes a configuration event.
    pub fn process_config_event(&mut self, event: ChannelConfigEvent)
        ensures
            *final(self) == configured(*old(self), event),
    {
        match event {
            ChannelConfigEvent::SetLayerCount(count) => {
                self.layers = count;
            },
            ChannelConfigEvent::SetPolyphonyCap(cap) => {
                self.polyphony_cap = cap;
            },
            ChannelConfigEvent::SetSpawnBurstLimit(limit) => {
                self.spawn_burst_limit = limit;
            },
            ChannelConfigEvent::SetPercussionMode(set) => {
                self.program.bank = if set {
                    PERCUSSION_BANK
                } else {
                    0
                };
            },
        }
    }

    /// Selects a bank.
    pub fn set_bank(&mut self, bank: u8)
        ensures
            *final(self) == (VoiceChannelParams {
                program: bank_selected(old(self).program, bank),
                ..*old(self)
            }),
    {
        if self.program.bank != PERCUSSION_BANK {
            self.program.bank = if bank > 127 {
                127
            } else {
                bank
            };
        }
    }

    /// Selects a preset.
    pub fn set_preset(&mut self, preset: u8)
        ensures
            *final(self) == (VoiceChannelParams {
                program: ProgramDescriptor { preset: seven_bits(preset), ..old(self).program },
                ..*old(self)
            }),
    {
        self.program.preset = if preset > 127 {
            127
        } else {
            preset
        };
    }
}

/// A channel that is not for percussion takes the bank that is selected, or the last one where
/// there is none with so high a number; one for percussion stays with its bank. The preset
/// stays in either case.
pub proof fn banks_are_selected(p: ProgramDescriptor, bank: u8)
    ensures
        bank_selected(p, bank).preset == p.preset,
        p.bank == 128 ==> bank_selected(p, bank).bank == 128,
        p.bank != 128 && bank <= 127 ==> bank_selected(p, bank).bank == bank,
        p.bank != 128 && bank > 127 ==> bank_selected(p, bank).bank == 127,
{
}

/// A setting is what it was last set to, whichever of the other settings have been set since.
pub proof fn settings_do_not_mix(p: VoiceChannelParams, v: Option<usize>, w: Option<usize>, set: bool)
    ensures
        ({
            let layers = configured(p, ChannelConfigEvent::SetLayerCount(v));
            let cap = configured(layers, ChannelConfigEvent::SetPolyphonyCap(w));
            let limit = configured(cap, ChannelConfigEvent::SetSpawnBurstLimit(v));
            let all = configured(limit, ChannelConfigEvent::SetPercussionMode(set));
            &&& all.layers == v
            &&& all.polyphony_cap == w
            &&& all.spawn_burst_limit == v
            &&& all.program.bank == (if set {
                128u8
            } else {
                0u8
            })
            &&& all.program.preset == p.program.preset
            &&& all.stats == p.stats
            &&& all.constant == p.constant
        }),
{
}

} // verus!
