//! The zones that the presets and instruments of a file are made of.

use super::modulator::Sf2NoteModulator;
use crate::LoopMode;
use vstd::prelude::*;

verus! {

/// What a zone of a preset or of an instrument says. A zone of a preset names an
/// instrument by its index, a zone of an instrument a sample.
#[verifier::ext_equal]
#[derive(Debug)]
pub struct Sf2Zone<M = Vec<Sf2NoteModulator>> {
    pub index: Option<u16>,
    /// The lowest and the highest key.
    pub keyrange: Option<(u8, u8)>,
    /// The lowest and the highest velocity.
    pub velrange: Option<(u8, u8)>,
    pub fixed_key: Option<u8>,
    pub fixed_velocity: Option<u8>,
    pub offset: Option<i16>,
    pub offset_coarse: Option<i16>,
    pub end_offset: Option<i16>,
    pub end_offset_coarse: Option<i16>,
    pub loop_start_offset: Option<i16>,
    pub loop_start_offset_coarse: Option<i16>,
    pub loop_end_offset: Option<i16>,
    pub loop_end_offset_coarse: Option<i16>,
    pub loop_mode: Option<LoopMode>,
    pub root_override: Option<i16>,
    pub pan: Option<i16>,
    pub attenuation: Option<i16>,
    pub cutoff: Option<i16>,
    pub resonance: Option<i16>,
    pub fine_tune: Option<i16>,
    pub coarse_tune: Option<i16>,
    pub scale_tuning: Option<i16>,
    pub exclusive_class: Option<u8>,
    pub env_delay: Option<i16>,
    pub env_attack: Option<i16>,
    pub env_hold: Option<i16>,
    pub env_decay: Option<i16>,
    pub env_sustain: Option<i16>,
    pub env_release: Option<i16>,
    pub keynum_to_vol_env_hold: Option<i16>,
    pub keynum_to_vol_env_decay: Option<i16>,
    pub note_modulators: M,
}

/// The model of a zone.
pub type Sf2ZoneModel = Sf2Zone<Seq<Sf2NoteModulator>>;

impl View for Sf2Zone {
    type V = Sf2ZoneModel;

    open spec fn view(&self) -> Sf2ZoneModel {
        Sf2Zone {
            index: self.index,
            keyrange: self.keyrange,
            velrange: self.velrange,
            fixed_key: self.fixed_key,
            fixed_velocity: self.fixed_velocity,
            offset: self.offset,
            offset_coarse: self.offset_coarse,
            end_offset: self.end_offset,
            end_offset_coarse: self.end_offset_coarse,
            loop_start_offset: self.loop_start_offset,
            loop_start_offset_coarse: self.loop_start_offset_coarse,
            loop_end_offset: self.loop_end_offset,
            loop_end_offset_coarse: self.loop_end_offset_coarse,
            loop_mode: self.loop_mode,
            root_override: self.root_override,
            pan: self.pan,
            attenuation: self.attenuation,
            cutoff: self.cutoff,
            resonance: self.resonance,
            fine_tune: self.fine_tune,
            coarse_tune: self.coarse_tune,
            scale_tuning: self.scale_tuning,
            exclusive_class: self.exclusive_class,
            env_delay: self.env_delay,
            env_attack: self.env_attack,
            env_hold: self.env_hold,
            env_decay: self.env_decay,
            env_sustain: self.env_sustain,
            env_release: self.env_release,
            keynum_to_vol_env_hold: self.keynum_to_vol_env_hold,
            keynum_to_vol_env_decay: self.keynum_to_vol_env_decay,
            note_modulators: self.note_modulators@,
        }
    }
}

/// The models of zones.
pub open spec fn zone_models(v: Seq<Sf2Zone>) -> Seq<Sf2ZoneModel> {
    v.map_values(|z: Sf2Zone| z@)
}

/// An instrument of a file.
#[derive(Debug)]
pub struct Sf2Instrument {
    pub regions: Vec<Sf2Zone>,
}

/// A preset of a file, before its zones are merged with those of its instruments.
#[derive(Debug)]
pub struct Sf2ParsedPreset {
    pub bank: u16,
    pub preset: u16,
    pub zones: Vec<Sf2Zone>,
}

} // verus!
