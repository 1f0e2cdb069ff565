//! What an opcode sets, setting by setting, and how the settings of a region follow from the
//! opcodes of a file.

use super::bindings::{all_taken, last_value, CurveTable, OnccTable};
use super::parse::{
    AriaOnccBase, CcInit, SfzAmpegEnvelope, SfzGroupType, SfzNumber, SfzOpcode, XfCurve,
};
use super::region::{
    default_region, entry, last_assignment_wins, position_bounds, region_updated, upserted,
    AmpegModel, RegionModel, TriggerType,
};
use super::root::{
    at_most, drafts_follow_headers, fresh_root, init_of, innermost, left, opcode_read,
    region_bound, region_headers, root_of, rows_join, stack_entered, takes_settings, token_read,
    tokens_read, RootModel, SfzToken,
};
use crate::{FilterType, LoopMode};
use vstd::prelude::*;

verus! {

/// A setting that is a whole number.
#[derive(Debug, Clone, Copy, PartialEq, Eq, Structural)]
pub enum WholeSetting {
    Lovel,
    Hivel,
    Lokey,
    Hikey,
    PitchKeycenter,
    Volume,
    Pan,
    LoopStart,
    LoopEnd,
    Offset,
    AmpKeycenter,
    PanKeycenter,
    FilVeltrack,
    FilKeycenter,
    FilKeytrack,
    Tune,
    SeqLength,
    SeqPosition,
    FilegCurve,
    Polyphony,
    ChokeGroup,
    ChokeOffBy,
    SwLast,
    SwDefault,
    SwLokey,
    SwHikey,
    /// The lowest and the highest value of a controller for which the region sounds.
    LoCc(u8),
    HiCc(u8),
    /// Where the fade with a controller begins and ends.
    XfInLo(u8),
    XfInHi(u8),
    XfOutLo(u8),
    XfOutHi(u8),
    /// The curve along which a controller moves a setting.
    Curve(CurveTable, u8),
}

/// A setting that is a decimal number.
#[derive(Debug, Clone, Copy, PartialEq, Eq, Structural)]
pub enum NumberSetting {
    LoopCrossfade,
    AmpLfoFreq,
    AmpLfoDepth,
    FilLfoFreq,
    FilLfoDepth,
    PanLfoFreq,
    PanLfoDepth,
    PitchLfoFreq,
    PitchLfoDepth,
    FilegAttack,
    FilegDecay,
    FilegSustain,
    FilegRelease,
    FilegDepth,
    Resonance,
    AmpVeltrack,
    AmpKeytrack,
    PanVeltrack,
    PanKeytrack,
    Cutoff,
    /// What a controller adds to a setting.
    Oncc(OnccTable, u8),
}

/// A stage of the amplitude envelope.
#[derive(Debug, Clone, Copy, PartialEq, Eq, Structural)]
pub enum EnvelopeSetting {
    Start,
    Delay,
    Attack,
    Hold,
    Decay,
    Sustain,
    Release,
    Vel2Release,
}

/// A setting of a header.
#[derive(Debug, Clone, Copy, PartialEq, Eq, Structural)]
pub enum Setting {
    Whole(WholeSetting),
    Number(NumberSetting),
    Envelope(EnvelopeSetting),
    Sample,
    DefaultPath,
    LoopMode,
    FilterType,
    Trigger,
    XfCcCurve,
}

/// What a setting is set to.
pub enum Value {
    /// Nothing sets it, and it has no default.
    Unset,
    Whole(int),
    Number(SfzNumber<Seq<char>>),
    Text(Seq<char>),
    LoopMode(LoopMode),
    FilterType(FilterType),
    Trigger(TriggerType),
    XfCcCurve(XfCurve),
    /// A number that controllers have added to.
    Moved,
}

/// One of the bounds that a list has for a controller.
pub open spec fn bound_of(list: Seq<(u8, (u8, u8))>, cc: u8, upper: bool, unset: int) -> Value {
    match entry(list, cc) {
        Some(bounds) => Value::Whole(if upper {
            bounds.1 as int
        } else {
            bounds.0 as int
        }),
        None => Value::Whole(unset),
    }
}

/// The curve that a list has for a controller.
pub open spec fn curve_of(list: Seq<(u8, u8)>, cc: u8) -> Value {
    match entry(list, cc) {
        Some(curve) => Value::Whole(curve as int),
        None => Value::Unset,
    }
}

/// The number that a list has for a controller.
pub open spec fn binding_of(list: Seq<(u8, SfzNumber<Seq<char>>)>, cc: u8) -> Value {
    match entry(list, cc) {
        Some(number) => Value::Number(number),
        None => Value::Unset,
    }
}

/// What a setting that is a whole number is set to.
pub open spec fn whole_setting(b: RegionModel, s: WholeSetting) -> Value {
    match s {
        WholeSetting::Lovel => Value::Whole(b.lovel as int),
        WholeSetting::Hivel => Value::Whole(b.hivel as int),
        WholeSetting::Lokey => Value::Whole(b.lokey as int),
        WholeSetting::Hikey => Value::Whole(b.hikey as int),
        WholeSetting::PitchKeycenter => Value::Whole(b.pitch_keycenter as int),
        WholeSetting::Volume => Value::Whole(b.volume as int),
        WholeSetting::Pan => Value::Whole(b.pan as int),
        WholeSetting::LoopStart => Value::Whole(b.loop_start as int),
        WholeSetting::LoopEnd => Value::Whole(b.loop_end as int),
        WholeSetting::Offset => Value::Whole(b.offset as int),
        WholeSetting::AmpKeycenter => Value::Whole(b.amp_keycenter as int),
        WholeSetting::PanKeycenter => Value::Whole(b.pan_keycenter as int),
        WholeSetting::FilVeltrack => Value::Whole(b.fil_veltrack as int),
        WholeSetting::FilKeycenter => Value::Whole(b.fil_keycenter as int),
        WholeSetting::FilKeytrack => Value::Whole(b.fil_keytrack as int),
        WholeSetting::Tune => Value::Whole(b.tune as int),
        WholeSetting::SeqLength => Value::Whole(b.seq_length as int),
        WholeSetting::SeqPosition => Value::Whole(b.seq_position as int),
        WholeSetting::FilegCurve => match b.fileg_curve {
            Some(v) => Value::Whole(v as int),
            None => Value::Unset,
        },
        WholeSetting::Polyphony => match b.polyphony {
            Some(v) => Value::Whole(v as int),
            None => Value::Unset,
        },
        WholeSetting::ChokeGroup => match b.choke_group {
            Some(v) => Value::Whole(v as int),
            None => Value::Unset,
        },
        WholeSetting::ChokeOffBy => match b.choke_off_by {
            Some(v) => Value::Whole(v as int),
            None => Value::Unset,
        },
        WholeSetting::SwLast => match b.sw_last {
            Some(v) => Value::Whole(v as int),
            None => Value::Unset,
        },
        WholeSetting::SwDefault => match b.sw_default {
            Some(v) => Value::Whole(v as int),
            None => Value::Unset,
        },
        WholeSetting::SwLokey => match b.sw_lokey {
            Some(v) => Value::Whole(v as int),
            None => Value::Unset,
        },
        WholeSetting::SwHikey => match b.sw_hikey {
            Some(v) => Value::Whole(v as int),
            None => Value::Unset,
        },
        WholeSetting::LoCc(cc) => bound_of(b.cc_ranges, cc, false, 0),
        WholeSetting::HiCc(cc) => bound_of(b.cc_ranges, cc, true, 127),
        WholeSetting::XfInLo(cc) => bound_of(b.xfin_cc, cc, false, 0),
        WholeSetting::XfInHi(cc) => bound_of(b.xfin_cc, cc, true, 0),
        WholeSetting::XfOutLo(cc) => bound_of(b.xfout_cc, cc, false, 0),
        WholeSetting::XfOutHi(cc) => bound_of(b.xfout_cc, cc, true, 0),
        WholeSetting::Curve(CurveTable::Volume, cc) => curve_of(b.volume_curvecc, cc),
        WholeSetting::Curve(CurveTable::Cutoff, cc) => curve_of(b.cutoff_curvecc, cc),
        WholeSetting::Curve(CurveTable::Resonance, cc) => curve_of(b.resonance_curvecc, cc),
        WholeSetting::Curve(CurveTable::Pan, cc) => curve_of(b.pan_curvecc, cc),
    }
}

/// What a setting that is a decimal number is set to.
pub open spec fn number_setting(b: RegionModel, s: NumberSetting) -> Value {
    match s {
        NumberSetting::LoopCrossfade => Value::Number(b.loop_crossfade),
        NumberSetting::AmpLfoFreq => Value::Number(b.amp_lfo_freq),
        NumberSetting::AmpLfoDepth => Value::Number(b.amp_lfo_depth),
        NumberSetting::FilLfoFreq => Value::Number(b.fil_lfo_freq),
        NumberSetting::FilLfoDepth => Value::Number(b.fil_lfo_depth),
        NumberSetting::PanLfoFreq => Value::Number(b.pan_lfo_freq),
        NumberSetting::PanLfoDepth => Value::Number(b.pan_lfo_depth),
        NumberSetting::PitchLfoFreq => Value::Number(b.pitch_lfo_freq),
        NumberSetting::PitchLfoDepth => Value::Number(b.pitch_lfo_depth),
        NumberSetting::FilegAttack => Value::Number(b.fileg_attack),
        NumberSetting::FilegDecay => Value::Number(b.fileg_decay),
        NumberSetting::FilegSustain => Value::Number(b.fileg_sustain),
        NumberSetting::FilegRelease => Value::Number(b.fileg_release),
        NumberSetting::FilegDepth => Value::Number(b.fileg_depth),
        NumberSetting::Resonance => Value::Number(b.resonance),
        NumberSetting::AmpVeltrack => Value::Number(b.amp_veltrack),
        NumberSetting::AmpKeytrack => Value::Number(b.amp_keytrack),
        NumberSetting::PanVeltrack => Value::Number(b.pan_veltrack),
        NumberSetting::PanKeytrack => Value::Number(b.pan_keytrack),
        NumberSetting::Cutoff => match b.cutoff {
            Some(number) => Value::Number(number),
            None => Value::Unset,
        },
        NumberSetting::Oncc(OnccTable::AmpLfoFreq, cc) => binding_of(b.amp_lfo_freq_oncc, cc),
        NumberSetting::Oncc(OnccTable::AmpLfoDepth, cc) => binding_of(b.amp_lfo_depth_oncc, cc),
        NumberSetting::Oncc(OnccTable::FilLfoFreq, cc) => binding_of(b.fil_lfo_freq_oncc, cc),
        NumberSetting::Oncc(OnccTable::FilLfoDepth, cc) => binding_of(b.fil_lfo_depth_oncc, cc),
        NumberSetting::Oncc(OnccTable::PanLfoFreq, cc) => binding_of(b.pan_lfo_freq_oncc, cc),
        NumberSetting::Oncc(OnccTable::PanLfoDepth, cc) => binding_of(b.pan_lfo_depth_oncc, cc),
        NumberSetting::Oncc(OnccTable::PitchLfoFreq, cc) => binding_of(b.pitch_lfo_freq_oncc, cc),
        NumberSetting::Oncc(OnccTable::PitchLfoDepth, cc) => binding_of(b.pitch_lfo_depth_oncc, cc),
        NumberSetting::Oncc(OnccTable::Volume, cc) => binding_of(b.volume_oncc, cc),
        NumberSetting::Oncc(OnccTable::Cutoff, cc) => binding_of(b.cutoff_oncc, cc),
        NumberSetting::Oncc(OnccTable::Resonance, cc) => binding_of(b.resonance_oncc, cc),
        NumberSetting::Oncc(OnccTable::Pan, cc) => binding_of(b.pan_oncc, cc),
        NumberSetting::Oncc(OnccTable::Tune, cc) => binding_of(b.tune_oncc, cc),
    }
}

/// What a stage of the amplitude envelope is set to.
pub open spec fn envelope_setting(b: RegionModel, s: EnvelopeSetting) -> Value {
    let value = match s {
        EnvelopeSetting::Start => b.ampeg_envelope.ampeg_start,
        EnvelopeSetting::Delay => b.ampeg_envelope.ampeg_delay,
        EnvelopeSetting::Attack => b.ampeg_envelope.ampeg_attack,
        EnvelopeSetting::Hold => b.ampeg_envelope.ampeg_hold,
        EnvelopeSetting::Decay => b.ampeg_envelope.ampeg_decay,
        EnvelopeSetting::Sustain => b.ampeg_envelope.ampeg_sustain,
        EnvelopeSetting::Release => b.ampeg_envelope.ampeg_release,
        EnvelopeSetting::Vel2Release => b.ampeg_envelope.ampeg_vel2release,
    };
    if value.added.len() == 0 {
        Value::Number(value.base)
    } else {
        Value::Moved
    }
}

/// What a setting is set to.
pub open spec fn setting(b: RegionModel, s: Setting) -> Value {
    match s {
        Setting::Whole(s) => whole_setting(b, s),
        Setting::Number(s) => number_setting(b, s),
        Setting::Envelope(s) => envelope_setting(b, s),
        Setting::Sample => match b.sample {
            Some(text) => Value::Text(text),
            None => Value::Unset,
        },
        Setting::DefaultPath => match b.default_path {
            Some(text) => Value::Text(text),
            None => Value::Unset,
        },
        Setting::LoopMode => Value::LoopMode(b.loop_mode),
        Setting::FilterType => Value::FilterType(b.filter_type),
        Setting::Trigger => Value::Trigger(b.trigger),
        Setting::XfCcCurve => Value::XfCcCurve(b.xf_cccurve),
    }
}

/// What an opcode sets a setting that is a whole number to, if it sets it. One key stands for
/// the range and the centre of it; group 0 is none.
pub open spec fn sets_whole(op: SfzOpcode<Seq<char>>, s: WholeSetting) -> Option<int> {
    match (s, op) {
        (WholeSetting::Lovel, SfzOpcode::Lovel(v)) => Some(v as int),
        (WholeSetting::Hivel, SfzOpcode::Hivel(v)) => Some(v as int),
        (WholeSetting::Lokey, SfzOpcode::Lokey(v)) => Some(v as int),
        (WholeSetting::Lokey, SfzOpcode::Key(v)) => Some(v as int),
        (WholeSetting::Hikey, SfzOpcode::Hikey(v)) => Some(v as int),
        (WholeSetting::Hikey, SfzOpcode::Key(v)) => Some(v as int),
        (WholeSetting::PitchKeycenter, SfzOpcode::PitchKeycenter(v)) => Some(v as int),
        (WholeSetting::PitchKeycenter, SfzOpcode::Key(v)) => Some(v as int),
        (WholeSetting::Volume, SfzOpcode::Volume(v)) => Some(v as int),
        (WholeSetting::Pan, SfzOpcode::Pan(v)) => Some(v as int),
        (WholeSetting::LoopStart, SfzOpcode::LoopStart(v)) => Some(v as int),
        (WholeSetting::LoopEnd, SfzOpcode::LoopEnd(v)) => Some(v as int),
        (WholeSetting::Offset, SfzOpcode::Offset(v)) => Some(v as int),
        (WholeSetting::AmpKeycenter, SfzOpcode::AmpKeycenter(v)) => Some(v as int),
        (WholeSetting::PanKeycenter, SfzOpcode::PanKeycenter(v)) => Some(v as int),
        (WholeSetting::FilVeltrack, SfzOpcode::FilVeltrack(v)) => Some(v as int),
        (WholeSetting::FilKeycenter, SfzOpcode::FilKeycenter(v)) => Some(v as int),
        (WholeSetting::FilKeytrack, SfzOpcode::FilKeytrack(v)) => Some(v as int),
        (WholeSetting::Tune, SfzOpcode::Tune(v)) => Some(v as int),
        (WholeSetting::SeqLength, SfzOpcode::SeqLength(v)) => Some(v as int),
        (WholeSetting::SeqPosition, SfzOpcode::SeqPosition(v)) => Some(v as int),
        (WholeSetting::FilegCurve, SfzOpcode::FilegCurve(v)) => Some(v as int),
        (WholeSetting::Polyphony, SfzOpcode::Polyphony(v)) => Some(v as int),
        (WholeSetting::ChokeGroup, SfzOpcode::SfzGroup(v)) => if v > 0 {
            Some(v as int)
        } else {
            None
        },
        (WholeSetting::ChokeOffBy, SfzOpcode::SfzOffBy(v)) => if v > 0 {
            Some(v as int)
        } else {
            None
        },
        (WholeSetting::SwLast, SfzOpcode::SwLast(v)) => Some(v as int),
        (WholeSetting::SwDefault, SfzOpcode::SwDefault(v)) => Some(v as int),
        (WholeSetting::SwLokey, SfzOpcode::SwLokey(v)) => Some(v as int),
        (WholeSetting::SwHikey, SfzOpcode::SwHikey(v)) => Some(v as int),
        (WholeSetting::LoCc(cc), SfzOpcode::LoCc(n, v)) => if n == cc {
            Some(v as int)
        } else {
            None
        },
        (WholeSetting::HiCc(cc), SfzOpcode::HiCc(n, v)) => if n == cc {
            Some(v as int)
        } else {
            None
        },
        (WholeSetting::XfInLo(cc), SfzOpcode::XfInLoCc(n, v)) => if n == cc {
            Some(v as int)
        } else {
            None
        },
        (WholeSetting::XfInHi(cc), SfzOpcode::XfInHiCc(n, v)) => if n == cc {
            Some(v as int)
        } else {
            None
        },
        (WholeSetting::XfOutLo(cc), SfzOpcode::XfOutLoCc(n, v)) => if n == cc {
            Some(v as int)
        } else {
            None
        },
        (WholeSetting::XfOutHi(cc), SfzOpcode::XfOutHiCc(n, v)) => if n == cc {
            Some(v as int)
        } else {
            None
        },
        (WholeSetting::Curve(CurveTable::Volume, cc), SfzOpcode::VolumeCurvecc(n, v)) => if n == cc {
            Some(v as int)
        } else {
            None
        },
        (WholeSetting::Curve(CurveTable::Cutoff, cc), SfzOpcode::CutoffCurvecc(n, v)) => if n == cc {
            Some(v as int)
        } else {
            None
        },
        (WholeSetting::Curve(CurveTable::Resonance, cc), SfzOpcode::ResonanceCurvecc(n, v)) => if n == cc {
            Some(v as int)
        } else {
            None
        },
        (WholeSetting::Curve(CurveTable::Pan, cc), SfzOpcode::PanCurvecc(n, v)) => if n == cc {
            Some(v as int)
        } else {
            None
        },
        _ => None,
    }
}

/// What an opcode sets a setting that is a decimal number to, if it sets it.
pub open spec fn sets_number(
    op: SfzOpcode<Seq<char>>,
    s: NumberSetting,
) -> Option<SfzNumber<Seq<char>>> {
    match (s, op) {
        (NumberSetting::LoopCrossfade, SfzOpcode::LoopCrossfade(v)) => Some(v),
        (NumberSetting::AmpLfoFreq, SfzOpcode::AmpLfoFreq(v)) => Some(v),
        (NumberSetting::AmpLfoDepth, SfzOpcode::AmpLfoDepth(v)) => Some(v),
        (NumberSetting::FilLfoFreq, SfzOpcode::FilLfoFreq(v)) => Some(v),
        (NumberSetting::FilLfoDepth, SfzOpcode::FilLfoDepth(v)) => Some(v),
        (NumberSetting::PanLfoFreq, SfzOpcode::PanLfoFreq(v)) => Some(v),
        (NumberSetting::PanLfoDepth, SfzOpcode::PanLfoDepth(v)) => Some(v),
        (NumberSetting::PitchLfoFreq, SfzOpcode::PitchLfoFreq(v)) => Some(v),
        (NumberSetting::PitchLfoDepth, SfzOpcode::PitchLfoDepth(v)) => Some(v),
        (NumberSetting::FilegAttack, SfzOpcode::FilegAttack(v)) => Some(v),
        (NumberSetting::FilegDecay, SfzOpcode::FilegDecay(v)) => Some(v),
        (NumberSetting::FilegSustain, SfzOpcode::FilegSustain(v)) => Some(v),
        (NumberSetting::FilegRelease, SfzOpcode::FilegRelease(v)) => Some(v),
        (NumberSetting::FilegDepth, SfzOpcode::FilegDepth(v)) => Some(v),
        (NumberSetting::Resonance, SfzOpcode::Resonance(v)) => Some(v),
        (NumberSetting::AmpVeltrack, SfzOpcode::AmpVeltrack(v)) => Some(v),
        (NumberSetting::AmpKeytrack, SfzOpcode::AmpKeytrack(v)) => Some(v),
        (NumberSetting::PanVeltrack, SfzOpcode::PanVeltrack(v)) => Some(v),
        (NumberSetting::PanKeytrack, SfzOpcode::PanKeytrack(v)) => Some(v),
        (NumberSetting::Cutoff, SfzOpcode::Cutoff(v)) => Some(v),
        (NumberSetting::Oncc(OnccTable::AmpLfoFreq, cc), SfzOpcode::AmpLfoFreqOncc(n, v)) => if n == cc {
            Some(v)
        } else {
            None
        },
        (NumberSetting::Oncc(OnccTable::AmpLfoDepth, cc), SfzOpcode::AmpLfoDepthOncc(n, v)) => if n == cc {
            Some(v)
        } else {
            None
        },
        (NumberSetting::Oncc(OnccTable::FilLfoFreq, cc), SfzOpcode::FilLfoFreqOncc(n, v)) => if n == cc {
            Some(v)
        } else {
            None
        },
        (NumberSetting::Oncc(OnccTable::FilLfoDepth, cc), SfzOpcode::FilLfoDepthOncc(n, v)) => if n == cc {
            Some(v)
        } else {
            None
        },
        (NumberSetting::Oncc(OnccTable::PanLfoFreq, cc), SfzOpcode::PanLfoFreqOncc(n, v)) => if n == cc {
            Some(v)
        } else {
            None
        },
        (NumberSetting::Oncc(OnccTable::PanLfoDepth, cc), SfzOpcode::PanLfoDepthOncc(n, v)) => if n == cc {
            Some(v)
        } else {
            None
        },
        (NumberSetting::Oncc(OnccTable::PitchLfoFreq, cc), SfzOpcode::PitchLfoFreqOncc(n, v)) => if n == cc {
            Some(v)
        } else {
            None
        },
        (NumberSetting::Oncc(OnccTable::PitchLfoDepth, cc), SfzOpcode::PitchLfoDepthOncc(n, v)) => if n == cc {
            Some(v)
        } else {
            None
        },
        (NumberSetting::Oncc(OnccTable::Volume, cc), SfzOpcode::VolumeOncc(n, v)) => if n == cc {
            Some(v)
        } else {
            None
        },
        (NumberSetting::Oncc(OnccTable::Cutoff, cc), SfzOpcode::CutoffOncc(n, v)) => if n == cc {
            Some(v)
        } else {
            None
        },
        (NumberSetting::Oncc(OnccTable::Resonance, cc), SfzOpcode::ResonanceOncc(n, v)) => if n == cc {
            Some(v)
        } else {
            None
        },
        (NumberSetting::Oncc(OnccTable::Pan, cc), SfzOpcode::PanOncc(n, v)) => if n == cc {
            Some(v)
        } else {
            None
        },
        (NumberSetting::Oncc(OnccTable::Tune, cc), SfzOpcode::TuneOncc(n, v)) => if n == cc {
            Some(v)
        } else {
            None
        },
        _ => None,
    }
}

/// What an opcode sets a stage of the amplitude envelope to, if it sets it.
pub open spec fn sets_stage(
    op: SfzOpcode<Seq<char>>,
    s: EnvelopeSetting,
) -> Option<SfzNumber<Seq<char>>> {
    match op {
        SfzOpcode::AmpegEnvelope(stage) => match (s, stage) {
            (EnvelopeSetting::Start, SfzAmpegEnvelope::AmpegStart(v)) => Some(v),
            (EnvelopeSetting::Delay, SfzAmpegEnvelope::AmpegDelay(v)) => Some(v),
            (EnvelopeSetting::Attack, SfzAmpegEnvelope::AmpegAttack(v)) => Some(v),
            (EnvelopeSetting::Hold, SfzAmpegEnvelope::AmpegHold(v)) => Some(v),
            (EnvelopeSetting::Decay, SfzAmpegEnvelope::AmpegDecay(v)) => Some(v),
            (EnvelopeSetting::Sustain, SfzAmpegEnvelope::AmpegSustain(v)) => Some(v),
            (EnvelopeSetting::Release, SfzAmpegEnvelope::AmpegRelease(v)) => Some(v),
            (EnvelopeSetting::Vel2Release, SfzAmpegEnvelope::AmpegVel2Release(v)) => Some(v),
            _ => None,
        },
        _ => None,
    }
}

/// What an opcode sets a setting to, if it sets it.
pub open spec fn sets(op: SfzOpcode<Seq<char>>, s: Setting) -> Option<Value> {
    match s {
        Setting::Whole(s) => match sets_whole(op, s) {
            Some(v) => Some(Value::Whole(v)),
            None => None,
        },
        Setting::Number(s) => match sets_number(op, s) {
            Some(v) => Some(Value::Number(v)),
            None => None,
        },
        Setting::Envelope(s) => match sets_stage(op, s) {
            Some(v) => Some(Value::Number(v)),
            None => None,
        },
        Setting::Sample => match op {
            SfzOpcode::Sample(v) => Some(Value::Text(v)),
            _ => None,
        },
        Setting::DefaultPath => match op {
            SfzOpcode::DefaultPath(v) => Some(Value::Text(v)),
            _ => None,
        },
        Setting::LoopMode => match op {
            SfzOpcode::LoopMode(v) => Some(Value::LoopMode(v)),
            _ => None,
        },
        Setting::FilterType => match op {
            SfzOpcode::FilterType(v) => Some(Value::FilterType(v)),
            _ => None,
        },
        Setting::Trigger => match op {
            SfzOpcode::Trigger(v) => Some(Value::Trigger(v)),
            _ => None,
        },
        Setting::XfCcCurve => match op {
            SfzOpcode::XfCcCurve(v) => Some(Value::XfCcCurve(v)),
            _ => None,
        },
    }
}

#[verifier::rlimit(100)]
#[verifier::spinoff_prover]
proof fn opcodes_set_whole_numbers(b: RegionModel, op: SfzOpcode<Seq<char>>, s: WholeSetting)
    requires
        !(s is LoCc || s is HiCc || s is XfInLo || s is XfInHi || s is XfOutLo || s is XfOutHi
            || s is Curve),
    ensures
        whole_setting(region_updated(b, op), s) == (match sets_whole(op, s) {
            Some(v) => Value::Whole(v),
            None => whole_setting(b, s),
        }),
{
    reveal(region_updated);
}

proof fn bounds_are_set(list: Seq<(u8, (u8, u8))>, n: u8, v: (u8, u8), cc: u8)
    ensures
        entry(upserted(list, n, v), cc) == (if n == cc {
            Some(v)
        } else {
            entry(list, cc)
        }),
{
    last_assignment_wins(list, n, v, cc);
}

#[verifier::rlimit(100)]
#[verifier::spinoff_prover]
proof fn opcodes_set_bounds(b: RegionModel, op: SfzOpcode<Seq<char>>, s: WholeSetting)
    requires
        s is LoCc || s is HiCc || s is XfInLo || s is XfInHi || s is XfOutLo || s is XfOutHi,
    ensures
        whole_setting(region_updated(b, op), s) == (match sets_whole(op, s) {
            Some(v) => Value::Whole(v),
            None => whole_setting(b, s),
        }),
{
    reveal(region_updated);
    let cc = match s {
        WholeSetting::LoCc(cc) => cc,
        WholeSetting::HiCc(cc) => cc,
        WholeSetting::XfInLo(cc) => cc,
        WholeSetting::XfInHi(cc) => cc,
        WholeSetting::XfOutLo(cc) => cc,
        WholeSetting::XfOutHi(cc) => cc,
        _ => 0,
    };
    match op {
        SfzOpcode::LoCc(n, v) => {
            let old = match entry(b.cc_ranges, n) {
                Some(r) => r,
                None => (0u8, 127u8),
            };
            bounds_are_set(b.cc_ranges, n, (v, old.1), cc);
        },
        SfzOpcode::HiCc(n, v) => {
            let old = match entry(b.cc_ranges, n) {
                Some(r) => r,
                None => (0u8, 127u8),
            };
            bounds_are_set(b.cc_ranges, n, (old.0, v), cc);
        },
        SfzOpcode::XfInLoCc(n, v) => {
            let old = match entry(b.xfin_cc, n) {
                Some(r) => r,
                None => (0u8, 0u8),
            };
            bounds_are_set(b.xfin_cc, n, (v, old.1), cc);
        },
        SfzOpcode::XfInHiCc(n, v) => {
            let old = match entry(b.xfin_cc, n) {
                Some(r) => r,
                None => (0u8, 0u8),
            };
            bounds_are_set(b.xfin_cc, n, (old.0, v), cc);
        },
        SfzOpcode::XfOutLoCc(n, v) => {
            let old = match entry(b.xfout_cc, n) {
                Some(r) => r,
                None => (0u8, 0u8),
            };
            bounds_are_set(b.xfout_cc, n, (v, old.1), cc);
        },
        SfzOpcode::XfOutHiCc(n, v) => {
            let old = match entry(b.xfout_cc, n) {
                Some(r) => r,
                None => (0u8, 0u8),
            };
            bounds_are_set(b.xfout_cc, n, (old.0, v), cc);
        },
        _ => {},
    }
}

#[verifier::rlimit(100)]
#[verifier::spinoff_prover]
proof fn opcodes_set_curves(b: RegionModel, op: SfzOpcode<Seq<char>>, table: CurveTable, cc: u8)
    ensures
        whole_setting(region_updated(b, op), WholeSetting::Curve(table, cc)) == (match sets_whole(
            op,
            WholeSetting::Curve(table, cc),
        ) {
            Some(v) => Value::Whole(v),
            None => whole_setting(b, WholeSetting::Curve(table, cc)),
        }),
{
    reveal(region_updated);
    match op {
        SfzOpcode::VolumeCurvecc(n, v) => last_assignment_wins(b.volume_curvecc, n, v, cc),
        SfzOpcode::CutoffCurvecc(n, v) => last_assignment_wins(b.cutoff_curvecc, n, v, cc),
        SfzOpcode::ResonanceCurvecc(n, v) => last_assignment_wins(b.resonance_curvecc, n, v, cc),
        SfzOpcode::PanCurvecc(n, v) => last_assignment_wins(b.pan_curvecc, n, v, cc),
        _ => {},
    }
}

#[verifier::rlimit(100)]
#[verifier::spinoff_prover]
proof fn opcodes_set_numbers(b: RegionModel, op: SfzOpcode<Seq<char>>, s: NumberSetting)
    requires
        !(s is Oncc),
    ensures
        number_setting(region_updated(b, op), s) == (match sets_number(op, s) {
            Some(v) => Value::Number(v),
            None => number_setting(b, s),
        }),
{
    reveal(region_updated);
}

#[verifier::rlimit(100)]
#[verifier::spinoff_prover]
proof fn opcodes_set_bindings(b: RegionModel, op: SfzOpcode<Seq<char>>, table: OnccTable, cc: u8)
    ensures
        number_setting(region_updated(b, op), NumberSetting::Oncc(table, cc)) == (
        match sets_number(op, NumberSetting::Oncc(table, cc)) {
            Some(v) => Value::Number(v),
            None => number_setting(b, NumberSetting::Oncc(table, cc)),
        }),
{
    reveal(region_updated);
    match op {
        SfzOpcode::AmpLfoFreqOncc(n, v) => last_assignment_wins(b.amp_lfo_freq_oncc, n, v, cc),
        SfzOpcode::AmpLfoDepthOncc(n, v) => last_assignment_wins(b.amp_lfo_depth_oncc, n, v, cc),
        SfzOpcode::FilLfoFreqOncc(n, v) => last_assignment_wins(b.fil_lfo_freq_oncc, n, v, cc),
        SfzOpcode::FilLfoDepthOncc(n, v) => last_assignment_wins(b.fil_lfo_depth_oncc, n, v, cc),
        SfzOpcode::PanLfoFreqOncc(n, v) => last_assignment_wins(b.pan_lfo_freq_oncc, n, v, cc),
        SfzOpcode::PanLfoDepthOncc(n, v) => last_assignment_wins(b.pan_lfo_depth_oncc, n, v, cc),
        SfzOpcode::PitchLfoFreqOncc(n, v) => last_assignment_wins(b.pitch_lfo_freq_oncc, n, v, cc),
        SfzOpcode::PitchLfoDepthOncc(n, v) => last_assignment_wins(b.pitch_lfo_depth_oncc, n, v, cc),
        SfzOpcode::VolumeOncc(n, v) => last_assignment_wins(b.volume_oncc, n, v, cc),
        SfzOpcode::CutoffOncc(n, v) => last_assignment_wins(b.cutoff_oncc, n, v, cc),
        SfzOpcode::ResonanceOncc(n, v) => last_assignment_wins(b.resonance_oncc, n, v, cc),
        SfzOpcode::PanOncc(n, v) => last_assignment_wins(b.pan_oncc, n, v, cc),
        SfzOpcode::TuneOncc(n, v) => last_assignment_wins(b.tune_oncc, n, v, cc),
        _ => {},
    }
}

/// An opcode sets the settings that it names, and leaves all others as they were.
#[verifier::rlimit(50)]
#[verifier::spinoff_prover]
pub proof fn opcodes_set_what_they_name(b: RegionModel, op: SfzOpcode<Seq<char>>, s: Setting)
    ensures
        setting(region_updated(b, op), s) == (match sets(op, s) {
            Some(v) => v,
            None => setting(b, s),
        }),
{
    match s {
        Setting::Whole(w) => match w {
            WholeSetting::Curve(table, cc) => opcodes_set_curves(b, op, table, cc),
            WholeSetting::LoCc(_) | WholeSetting::HiCc(_) | WholeSetting::XfInLo(_)
            | WholeSetting::XfInHi(_) | WholeSetting::XfOutLo(_) | WholeSetting::XfOutHi(
                _,
            ) => opcodes_set_bounds(b, op, w),
            _ => opcodes_set_whole_numbers(b, op, w),
        },
        Setting::Number(n) => match n {
            NumberSetting::Oncc(table, cc) => opcodes_set_bindings(b, op, table, cc),
            _ => opcodes_set_numbers(b, op, n),
        },
        _ => {
            reveal(region_updated);
        },
    }
}

/// After a row of opcodes each setting is what the last opcode of the row that names it says.
pub proof fn last_opcode_counts(
    b: RegionModel,
    row: Seq<SfzOpcode<Seq<char>>>,
    s: Setting,
    k: int,
)
    requires
        0 <= k < row.len(),
        sets(row[k], s) is Some,
        forall|j: int| k < j < row.len() ==> sets(#[trigger] row[j], s) is None,
    ensures
        setting(all_taken(b, row), s) == sets(row[k], s)->0,
    decreases row.len(),
{
    let rest = row.drop_last();
    opcodes_set_what_they_name(all_taken(b, rest), row.last(), s);
    if k < row.len() - 1 {
        assert(sets(row[row.len() - 1], s) is None);
        assert forall|j: int| k < j < rest.len() implies sets(#[trigger] rest[j], s) is None by {
            assert(rest[j] == row[j]);
        }
        last_opcode_counts(b, rest, s, k);
    }
}

/// A setting that no opcode of a row names stays what it was.
pub proof fn unnamed_settings_stay(b: RegionModel, row: Seq<SfzOpcode<Seq<char>>>, s: Setting)
    requires
        forall|j: int| 0 <= j < row.len() ==> sets(#[trigger] row[j], s) is None,
    ensures
        setting(all_taken(b, row), s) == setting(b, s),
    decreases row.len(),
{
    if row.len() > 0 {
        let rest = row.drop_last();
        opcodes_set_what_they_name(all_taken(b, rest), row.last(), s);
        assert(sets(row[row.len() - 1], s) is None);
        assert forall|j: int| 0 <= j < rest.len() implies sets(#[trigger] rest[j], s) is None by {
            assert(rest[j] == row[j]);
        }
        unnamed_settings_stay(b, rest, s);
    }
}

/// A region in which nothing is set sounds for all keys and velocities when a key goes down, has
/// its centre at key 60, plays its sample once and in full, and is moved by nothing.
pub proof fn settings_have_defaults(cc: u8, oncc: OnccTable, curve: CurveTable)
    ensures
        ({
            let b = default_region();
            &&& setting(b, Setting::Whole(WholeSetting::Lovel)) == Value::Whole(0)
            &&& setting(b, Setting::Whole(WholeSetting::Hivel)) == Value::Whole(127)
            &&& setting(b, Setting::Whole(WholeSetting::Lokey)) == Value::Whole(0)
            &&& setting(b, Setting::Whole(WholeSetting::Hikey)) == Value::Whole(127)
            &&& setting(b, Setting::Whole(WholeSetting::PitchKeycenter)) == Value::Whole(60)
            &&& setting(b, Setting::Whole(WholeSetting::AmpKeycenter)) == Value::Whole(60)
            &&& setting(b, Setting::Whole(WholeSetting::PanKeycenter)) == Value::Whole(60)
            &&& setting(b, Setting::Whole(WholeSetting::FilKeycenter)) == Value::Whole(60)
            &&& setting(b, Setting::Whole(WholeSetting::Volume)) == Value::Whole(0)
            &&& setting(b, Setting::Whole(WholeSetting::Pan)) == Value::Whole(0)
            &&& setting(b, Setting::Whole(WholeSetting::Tune)) == Value::Whole(0)
            &&& setting(b, Setting::Whole(WholeSetting::Offset)) == Value::Whole(0)
            &&& setting(b, Setting::Whole(WholeSetting::LoopStart)) == Value::Whole(0)
            &&& setting(b, Setting::Whole(WholeSetting::LoopEnd)) == Value::Whole(0)
            &&& setting(b, Setting::Whole(WholeSetting::FilVeltrack)) == Value::Whole(0)
            &&& setting(b, Setting::Whole(WholeSetting::FilKeytrack)) == Value::Whole(0)
            &&& setting(b, Setting::Whole(WholeSetting::SeqLength)) == Value::Whole(0)
            &&& setting(b, Setting::Whole(WholeSetting::SeqPosition)) == Value::Whole(0)
            &&& setting(b, Setting::Whole(WholeSetting::Polyphony)) is Unset
            &&& setting(b, Setting::Whole(WholeSetting::ChokeGroup)) is Unset
            &&& setting(b, Setting::Whole(WholeSetting::ChokeOffBy)) is Unset
            &&& setting(b, Setting::Whole(WholeSetting::SwLast)) is Unset
            &&& setting(b, Setting::Whole(WholeSetting::SwDefault)) is Unset
            &&& setting(b, Setting::Whole(WholeSetting::SwLokey)) is Unset
            &&& setting(b, Setting::Whole(WholeSetting::SwHikey)) is Unset
            &&& setting(b, Setting::Whole(WholeSetting::FilegCurve)) is Unset
            &&& setting(b, Setting::Whole(WholeSetting::LoCc(cc))) == Value::Whole(0)
            &&& setting(b, Setting::Whole(WholeSetting::HiCc(cc))) == Value::Whole(127)
            &&& setting(b, Setting::Whole(WholeSetting::Curve(curve, cc))) is Unset
            &&& setting(b, Setting::Number(NumberSetting::Oncc(oncc, cc))) is Unset
            &&& setting(b, Setting::Number(NumberSetting::Cutoff)) is Unset
            &&& setting(b, Setting::Sample) is Unset
            &&& setting(b, Setting::DefaultPath) is Unset
            &&& setting(b, Setting::LoopMode) == Value::LoopMode(LoopMode::NoLoop)
            &&& setting(b, Setting::FilterType) == Value::FilterType(FilterType::LowPass)
            &&& setting(b, Setting::Trigger) == Value::Trigger(TriggerType::Attack)
            &&& setting(b, Setting::XfCcCurve) == Value::XfCcCurve(XfCurve::Gain)
        }),
{
}

/// How deep a header stands; nothing for an opcode, for a curve block, and for a header that is
/// not known.
pub open spec fn depth(token: SfzToken<Seq<char>>) -> Option<int> {
    match token {
        SfzToken::Group(SfzGroupType::Control) => Some(1),
        SfzToken::Group(SfzGroupType::Global) => Some(2),
        SfzToken::Group(SfzGroupType::Master) => Some(3),
        SfzToken::Group(SfzGroupType::Group) => Some(4),
        SfzToken::Group(SfzGroupType::Region) => Some(5),
        _ => None,
    }
}

/// How deep the header stands that the token at `i` belongs to.
pub open spec fn depth_at(tokens: Seq<SfzToken<Seq<char>>>, i: int) -> Option<int>
    decreases i,
{
    if i <= 0 {
        None
    } else if tokens[i - 1] is Group {
        depth(tokens[i - 1])
    } else {
        depth_at(tokens, i - 1)
    }
}

/// What the token at `i` says still holds before token `end` for a header of depth `n`: it
/// stands under a header as deep as that or less deep, and none has come since that stands as
/// deep as its own or less deep.
pub open spec fn reaches(tokens: Seq<SfzToken<Seq<char>>>, i: int, end: int, n: int) -> bool {
    depth_at(tokens, i) matches Some(own) && own <= n && forall|k: int|
        i < k < end ==> (depth(#[trigger] tokens[k]) matches Some(other) ==> other > own)
}

/// What a token sets a setting to, if it sets it.
pub open spec fn names(token: SfzToken<Seq<char>>, s: Setting) -> Option<Value> {
    match token {
        SfzToken::Opcode(op) => sets(op, s),
        SfzToken::Group(_) => None,
    }
}

/// No controller moves the setting by itself: it is no stage of the amplitude envelope, or the
/// file binds none of them.
pub open spec fn is_plain(tokens: Seq<SfzToken<Seq<char>>>, s: Setting) -> bool {
    !(s is Envelope) || forall|k: int|
        0 <= k < tokens.len() ==> !(#[trigger] tokens[k] matches SfzToken::Opcode(op)
            && op is AriaOncc)
}

/// What the last of the first `upto` tokens says that sets a setting and reaches a header of
/// depth `n` before token `end`; the default where there is none.
spec fn last_reaching(
    tokens: Seq<SfzToken<Seq<char>>>,
    upto: int,
    end: int,
    n: int,
    s: Setting,
) -> Value
    decreases upto,
{
    if upto <= 0 {
        setting(default_region(), s)
    } else if reaches(tokens, upto - 1, end, n) && names(tokens[upto - 1], s) is Some {
        names(tokens[upto - 1], s)->0
    } else {
        last_reaching(tokens, upto - 1, end, n, s)
    }
}

proof fn same_tokens_reach(
    tokens: Seq<SfzToken<Seq<char>>>,
    upto: int,
    end: int,
    n: int,
    other_end: int,
    m: int,
    s: Setting,
)
    requires
        forall|i: int|
            0 <= i < upto && names(#[trigger] tokens[i], s) is Some ==> (reaches(tokens, i, end, n)
                <==> reaches(tokens, i, other_end, m)),
    ensures
        last_reaching(tokens, upto, end, n, s) == last_reaching(tokens, upto, other_end, m, s),
    decreases upto,
{
    if upto > 0 {
        assert(names(tokens[upto - 1], s) is Some ==> (reaches(tokens, upto - 1, end, n)
            <==> reaches(tokens, upto - 1, other_end, m)));
        same_tokens_reach(tokens, upto - 1, end, n, other_end, m, s);
    }
}

proof fn nothing_reaches(
    tokens: Seq<SfzToken<Seq<char>>>,
    upto: int,
    end: int,
    n: int,
    s: Setting,
)
    requires
        forall|i: int|
            0 <= i < upto && names(#[trigger] tokens[i], s) is Some ==> !reaches(
                tokens,
                i,
                end,
                n,
            ),
    ensures
        last_reaching(tokens, upto, end, n, s) == setting(default_region(), s),
    decreases upto,
{
    if upto > 0 {
        assert(names(tokens[upto - 1], s) is Some ==> !reaches(tokens, upto - 1, end, n));
        nothing_reaches(tokens, upto - 1, end, n, s);
    }
}

/// The state after the first `end` tokens of a file.
spec fn state_at(tokens: Seq<SfzToken<Seq<char>>>, end: int) -> RootModel {
    tokens_read(fresh_root(), tokens.take(end))
}

proof fn state_goes_on(tokens: Seq<SfzToken<Seq<char>>>, end: int)
    requires
        0 <= end < tokens.len(),
    ensures
        state_at(tokens, end + 1) == token_read(state_at(tokens, end), tokens[end]),
{
    assert(tokens.take(end + 1).drop_last() =~= tokens.take(end));
}

/// The stack holds what reaches each depth.
spec fn stack_is_right(
    tokens: Seq<SfzToken<Seq<char>>>,
    end: int,
    stack: Seq<RegionModel>,
    s: Setting,
) -> bool {
    &&& forall|n: int|
        1 <= n <= stack.len() ==> setting(#[trigger] stack[n - 1], s) == last_reaching(
            tokens,
            end,
            end,
            n,
            s,
        )
    &&& forall|i: int|
        0 <= i < end && names(#[trigger] tokens[i], s) is Some && reaches(tokens, i, end, 5) ==> {
            ||| depth_at(tokens, i)->0 <= stack.len()
            ||| depth_at(tokens, i) == Some(5int)
        }
}

/// The header that is being read is the one that the next token belongs to.
spec fn group_is_right(tokens: Seq<SfzToken<Seq<char>>>, end: int, st: RootModel) -> bool {
    &&& depth_at(tokens, end) is Some <==> st.group is Some && st.group != Some(
        SfzGroupType::Curve,
    )
    &&& depth_at(tokens, end) matches Some(n) ==> 1 <= n <= 5 && st.stack.len() == n && (n == 5
        <==> st.group == Some(SfzGroupType::Region))
    &&& st.group == Some(SfzGroupType::Region) ==> st.stack.len() == 5
    &&& st.stack.len() <= 5
}

proof fn headers_keep_the_stack_right(
    tokens: Seq<SfzToken<Seq<char>>>,
    end: int,
    stack: Seq<RegionModel>,
    l: int,
    s: Setting,
)
    requires
        0 <= end < tokens.len(),
        depth(tokens[end]) == Some(l),
        stack.len() <= 5,
        stack_is_right(tokens, end, stack, s),
    ensures
        stack_is_right(tokens, end + 1, stack_entered(stack, l), s),
{
    let above = at_most(stack, l - 1);
    let now = stack_entered(stack, l);
    let p = above.len() as int;
    assert(names(tokens[end], s) is None);
    assert forall|i: int, n: int| 0 <= i < end implies (#[trigger] reaches(tokens, i, end + 1, n)
        <==> reaches(tokens, i, end, n) && depth_at(tokens, i)->0 < l) by {
        if reaches(tokens, i, end + 1, n) {
            assert(depth(tokens[end]) == Some(l));
        }
    }
    assert forall|n: int| 1 <= n <= now.len() implies setting(#[trigger] now[n - 1], s)
        == last_reaching(tokens, end + 1, end + 1, n, s) by {
        assert(last_reaching(tokens, end + 1, end + 1, n, s) == last_reaching(
            tokens,
            end,
            end + 1,
            n,
            s,
        ));
        if n <= p {
            assert(now[n - 1] == stack[n - 1]);
            same_tokens_reach(tokens, end, end + 1, n, end, n, s);
        } else {
            assert(now[n - 1] == innermost(above));
            if p == 0 {
                assert forall|i: int|
                    0 <= i < end && names(#[trigger] tokens[i], s) is Some implies !reaches(
                    tokens,
                    i,
                    end + 1,
                    n,
                ) by {
                    if reaches(tokens, i, end + 1, n) {
                        assert(reaches(tokens, i, end, n));
                        assert(reaches(tokens, i, end, 5));
                        depths_are_in_range(tokens, i);
                    }
                }
                nothing_reaches(tokens, end, end + 1, n, s);
            } else {
                assert(innermost(above) == stack[p - 1]);
                assert forall|i: int|
                    0 <= i < end && names(#[trigger] tokens[i], s) is Some implies (reaches(
                    tokens,
                    i,
                    end + 1,
                    n,
                ) <==> reaches(tokens, i, end, p)) by {
                    if reaches(tokens, i, end + 1, n) {
                        assert(reaches(tokens, i, end, n));
                        assert(reaches(tokens, i, end, 5));
                    }
                    if reaches(tokens, i, end, p) {
                        assert(reaches(tokens, i, end, n));
                    }
                }
                same_tokens_reach(tokens, end, end + 1, n, end, p, s);
            }
        }
    }
}

proof fn depths_are_in_range(tokens: Seq<SfzToken<Seq<char>>>, i: int)
    ensures
        depth_at(tokens, i) matches Some(n) ==> 1 <= n <= 5,
    decreases i,
{
    if i > 0 {
        depths_are_in_range(tokens, i - 1);
    }
}

proof fn blocks_outside_keep_the_stack_right(
    tokens: Seq<SfzToken<Seq<char>>>,
    end: int,
    stack: Seq<RegionModel>,
    s: Setting,
)
    requires
        0 <= end < tokens.len(),
        depth(tokens[end]) is None,
        names(tokens[end], s) is None || depth_at(tokens, end) is None,
        stack_is_right(tokens, end, stack, s),
    ensures
        stack_is_right(tokens, end + 1, stack, s),
{
    assert forall|i: int, n: int| 0 <= i < end implies (#[trigger] reaches(tokens, i, end + 1, n)
        <==> reaches(tokens, i, end, n)) by {
        if reaches(tokens, i, end, n) {
            assert(depth(tokens[end]) is None);
        }
    }
    assert forall|n: int| 1 <= n <= stack.len() implies setting(#[trigger] stack[n - 1], s)
        == last_reaching(tokens, end + 1, end + 1, n, s) by {
        same_tokens_reach(tokens, end, end + 1, n, end, n, s);
    }
}

proof fn opcodes_keep_the_stack_right(
    tokens: Seq<SfzToken<Seq<char>>>,
    end: int,
    stack: Seq<RegionModel>,
    now: RegionModel,
    s: Setting,
)
    requires
        0 <= end < tokens.len(),
        tokens[end] is Opcode,
        stack.len() > 0,
        depth_at(tokens, end) == Some(stack.len() as int),
        stack_is_right(tokens, end, stack, s),
        setting(now, s) == (match names(tokens[end], s) {
            Some(v) => v,
            None => setting(stack.last(), s),
        }),
    ensures
        stack_is_right(tokens, end + 1, stack.drop_last().push(now), s),
{
    let next = stack.drop_last().push(now);
    assert forall|i: int, n: int| 0 <= i < end implies (#[trigger] reaches(tokens, i, end + 1, n)
        <==> reaches(tokens, i, end, n)) by {
        if reaches(tokens, i, end, n) {
            assert(depth(tokens[end]) is None);
        }
    }
    assert forall|n: int| 1 <= n <= next.len() implies setting(#[trigger] next[n - 1], s)
        == last_reaching(tokens, end + 1, end + 1, n, s) by {
        same_tokens_reach(tokens, end, end + 1, n, end, n, s);
        assert(setting(stack[n - 1], s) == last_reaching(tokens, end, end, n, s));
        if n < next.len() {
            assert(next[n - 1] == stack[n - 1]);
            assert(!reaches(tokens, end, end + 1, n));
        } else {
            assert(next[n - 1] == now);
            assert(stack.last() == stack[n - 1]);
            assert(reaches(tokens, end, end + 1, n));
        }
    }
    assert forall|i: int|
        0 <= i < end + 1 && names(#[trigger] tokens[i], s) is Some && reaches(
            tokens,
            i,
            end + 1,
            5,
        ) implies {
        ||| depth_at(tokens, i)->0 <= next.len()
        ||| depth_at(tokens, i) == Some(5int)
    } by {
        if i < end {
            assert(reaches(tokens, i, end, 5));
        }
    }
}

/// What is left of the settings of a header after an opcode.
spec fn innermost_after(st: RootModel, op: SfzOpcode<Seq<char>>) -> RegionModel {
    let b = innermost(st.stack);
    match op {
        SfzOpcode::AriaOncc { base, cc, value } => region_bound(
            b,
            base,
            cc,
            value,
            init_of(st.cc_state, cc),
        ),
        SfzOpcode::AriaCcInit(_, _) => b,
        SfzOpcode::CurveIndex(_) => b,
        SfzOpcode::CurvePoint(_, _) => b,
        _ => region_updated(b, op),
    }
}

proof fn stack_after_opcode(st: RootModel, op: SfzOpcode<Seq<char>>)
    ensures
        takes_settings(st) ==> opcode_read(st, op).stack == st.stack.drop_last().push(
            innermost_after(st, op),
        ),
        !takes_settings(st) ==> opcode_read(st, op).stack == st.stack,
        opcode_read(st, op).group == st.group,
{
    if takes_settings(st) {
        assert(st.stack =~= st.stack.drop_last().push(st.stack.last()));
    }
}

/// Controllers that move the amplitude envelope move no other setting.
pub proof fn controllers_move_envelopes_only(
    b: RegionModel,
    base: AriaOnccBase,
    cc: u8,
    value: SfzNumber<Seq<char>>,
    init: CcInit<Seq<char>>,
    s: Setting,
)
    requires
        !(s is Envelope),
    ensures
        setting(region_bound(b, base, cc, value, init), s) == setting(b, s),
{
    let now = region_bound(b, base, cc, value, init);
    match s {
        Setting::Whole(w) => assert(whole_setting(now, w) == whole_setting(b, w)),
        Setting::Number(n) => assert(number_setting(now, n) == number_setting(b, n)),
        _ => {},
    }
}

#[verifier::rlimit(50)]
proof fn innermost_is_set(st: RootModel, op: SfzOpcode<Seq<char>>, s: Setting)
    requires
        !(s is Envelope) || !(op is AriaOncc),
    ensures
        setting(innermost_after(st, op), s) == (match sets(op, s) {
            Some(v) => v,
            None => setting(innermost(st.stack), s),
        }),
{
    let b = innermost(st.stack);
    match op {
        SfzOpcode::AriaOncc { base, cc, value } => {
            controllers_move_envelopes_only(
                b,
                base,
                cc,
                value,
                init_of(st.cc_state, cc),
                s,
            );
        },
        SfzOpcode::AriaCcInit(_, _) => {},
        SfzOpcode::CurveIndex(_) => {},
        SfzOpcode::CurvePoint(_, _) => {},
        _ => opcodes_set_what_they_name(b, op, s),
    }
}

proof fn opcode_is_read_right(
    tokens: Seq<SfzToken<Seq<char>>>,
    end: int,
    st: RootModel,
    op: SfzOpcode<Seq<char>>,
    s: Setting,
)
    requires
        0 <= end < tokens.len(),
        tokens[end] == SfzToken::Opcode(op),
        !(s is Envelope) || !(op is AriaOncc),
        group_is_right(tokens, end, st),
        stack_is_right(tokens, end, st.stack, s),
    ensures
        group_is_right(tokens, end + 1, opcode_read(st, op)),
        stack_is_right(tokens, end + 1, opcode_read(st, op).stack, s),
{
    stack_after_opcode(st, op);
    if depth_at(tokens, end) is Some {
        innermost_is_set(st, op, s);
        opcodes_keep_the_stack_right(tokens, end, st.stack, innermost_after(st, op), s);
    } else {
        blocks_outside_keep_the_stack_right(tokens, end, st.stack, s);
    }
}

proof fn states_are_right(tokens: Seq<SfzToken<Seq<char>>>, end: int, s: Setting)
    requires
        0 <= end <= tokens.len(),
        is_plain(tokens, s),
    ensures
        group_is_right(tokens, end, state_at(tokens, end)),
        stack_is_right(tokens, end, state_at(tokens, end).stack, s),
    decreases end,
{
    if end == 0 {
        assert(tokens.take(0) =~= Seq::empty());
    } else {
        states_are_right(tokens, end - 1, s);
        state_goes_on(tokens, end - 1);
        let st = state_at(tokens, end - 1);
        match tokens[end - 1] {
            SfzToken::Group(group) => {
                let over = left(st);
                assert(stack_is_right(tokens, end - 1, over.stack, s)) by {
                    if st.group == Some(SfzGroupType::Region) {
                        assert forall|n: int| 1 <= n <= over.stack.len() implies setting(
                            #[trigger] over.stack[n - 1],
                            s,
                        ) == last_reaching(tokens, end - 1, end - 1, n, s) by {
                            assert(over.stack[n - 1] == st.stack[n - 1]);
                        }
                        assert forall|i: int|
                            0 <= i < end - 1 && names(#[trigger] tokens[i], s) is Some && reaches(
                                tokens,
                                i,
                                end - 1,
                                5,
                            ) implies {
                            ||| depth_at(tokens, i)->0 <= over.stack.len()
                            ||| depth_at(tokens, i) == Some(5int)
                        } by {
                            depths_are_in_range(tokens, i);
                        }
                    }
                }
                match depth(tokens[end - 1]) {
                    Some(l) => headers_keep_the_stack_right(tokens, end - 1, over.stack, l, s),
                    None => blocks_outside_keep_the_stack_right(
                        tokens,
                        end - 1,
                        over.stack,
                        s,
                    ),
                }
            },
            SfzToken::Opcode(op) => opcode_is_read_right(tokens, end - 1, st, op, s),
        }
    }
}

proof fn last_is_found(
    tokens: Seq<SfzToken<Seq<char>>>,
    upto: int,
    end: int,
    n: int,
    s: Setting,
    i: int,
)
    requires
        0 <= i < upto,
        reaches(tokens, i, end, n),
        names(tokens[i], s) is Some,
        forall|j: int|
            i < j < upto && reaches(tokens, j, end, n) ==> names(#[trigger] tokens[j], s) is None,
    ensures
        last_reaching(tokens, upto, end, n, s) == names(tokens[i], s)->0,
    decreases upto,
{
    if i < upto - 1 {
        assert(reaches(tokens, upto - 1, end, n) ==> names(tokens[upto - 1], s) is None);
        last_is_found(tokens, upto - 1, end, n, s, i);
    }
}

proof fn drafts_stay(s: RootModel, tokens: Seq<SfzToken<Seq<char>>>, d: int)
    requires
        0 <= d < s.drafts.len(),
    ensures
        d < tokens_read(s, tokens).drafts.len(),
        tokens_read(s, tokens).drafts[d] == s.drafts[d],
        d < left(s).drafts.len(),
        left(s).drafts[d] == s.drafts[d],
    decreases tokens.len(),
{
    if tokens.len() > 0 {
        drafts_stay(s, tokens.drop_last(), d);
        let before = tokens_read(s, tokens.drop_last());
        drafts_stay(before, Seq::empty(), d);
    }
}

proof fn region_is_described(tokens: Seq<SfzToken<Seq<char>>>, header: int, end: int)
    requires
        0 <= header < end <= tokens.len(),
        tokens[header] == SfzToken::<Seq<char>>::Group(SfzGroupType::Region),
        forall|k: int| header < k < end ==> (#[trigger] tokens[k]) is Opcode,
        end < tokens.len() ==> tokens[end] is Group,
    ensures
        ({
            let st = state_at(tokens, end);
            let d = region_headers(tokens.take(header));
            &&& st.stack.len() == 5
            &&& 0 <= d < root_of(tokens).drafts.len()
            &&& root_of(tokens).drafts[d].settings == st.stack[4]
        }),
{
    let st = state_at(tokens, end);
    let d = region_headers(tokens.take(header));
    regions_before(tokens, header, end);
    drafts_follow_headers(tokens.take(end));
    states_are_right(tokens, end, Setting::Sample);
    own_depth(tokens, header, end);
    let closed = left(st);
    assert(closed.drafts[d].settings == st.stack[4]);
    if end < tokens.len() {
        state_goes_on(tokens, end);
        let next = state_at(tokens, end + 1);
        assert(next.drafts == closed.drafts);
        let rest = tokens.skip(end + 1);
        assert(tokens =~= tokens.take(end + 1) + rest);
        rows_join(fresh_root(), tokens.take(end + 1), rest);
        drafts_stay(next, rest, d);
        drafts_stay(tokens_read(next, rest), Seq::empty(), d);
    } else {
        assert(tokens.take(end) =~= tokens);
    }
}

proof fn own_depth(tokens: Seq<SfzToken<Seq<char>>>, header: int, end: int)
    requires
        0 <= header < end <= tokens.len(),
        tokens[header] == SfzToken::<Seq<char>>::Group(SfzGroupType::Region),
        forall|k: int| header < k < end ==> (#[trigger] tokens[k]) is Opcode,
    ensures
        depth_at(tokens, end) == Some(5int),
    decreases end,
{
    if header < end - 1 {
        assert(tokens[end - 1] is Opcode);
        own_depth(tokens, header, end - 1);
    }
}

proof fn regions_before(tokens: Seq<SfzToken<Seq<char>>>, header: int, end: int)
    requires
        0 <= header < end <= tokens.len(),
        tokens[header] == SfzToken::<Seq<char>>::Group(SfzGroupType::Region),
        forall|k: int| header < k < end ==> (#[trigger] tokens[k]) is Opcode,
    ensures
        region_headers(tokens.take(end)) == region_headers(tokens.take(header)) + 1,
        0 <= region_headers(tokens.take(header)),
    decreases end,
{
    assert(tokens.take(end).drop_last() =~= tokens.take(end - 1));
    assert(tokens.take(end).last() == tokens[end - 1]);
    if header < end - 1 {
        assert(tokens[end - 1] is Opcode);
        regions_before(tokens, header, end - 1);
    } else {
        headers_are_counted(tokens.take(header));
    }
}

proof fn headers_are_counted(tokens: Seq<SfzToken<Seq<char>>>)
    ensures
        0 <= region_headers(tokens),
    decreases tokens.len(),
{
    if tokens.len() > 0 {
        headers_are_counted(tokens.drop_last());
    }
}

/// A setting of a region is what the last opcode says that sets it, of all those that reach the
/// region: its own, and those of the headers around it. An opcode reaches the region from a
/// header above it as long as no header has come since that stands as deep as its own or less
/// deep. Controllers may move the stages of the amplitude envelope on top of that.
pub proof fn regions_are_set_by_what_reaches_them(
    tokens: Seq<SfzToken<Seq<char>>>,
    header: int,
    end: int,
    i: int,
    s: Setting,
)
    requires
        0 <= header < end <= tokens.len(),
        tokens[header] == SfzToken::<Seq<char>>::Group(SfzGroupType::Region),
        forall|k: int| header < k < end ==> (#[trigger] tokens[k]) is Opcode,
        end < tokens.len() ==> tokens[end] is Group,
        is_plain(tokens, s),
        0 <= i < end,
        reaches(tokens, i, end, 5),
        names(tokens[i], s) is Some,
        forall|j: int|
            i < j < end && reaches(tokens, j, end, 5) ==> names(#[trigger] tokens[j], s) is None,
    ensures
        setting(
            root_of(tokens).drafts[region_headers(tokens.take(header))].settings,
            s,
        ) == names(tokens[i], s)->0,
{
    region_is_described(tokens, header, end);
    states_are_right(tokens, end, s);
    last_is_found(tokens, end, end, 5, s, i);
    let stack = state_at(tokens, end).stack;
    assert(setting(stack[5 - 1], s) == last_reaching(tokens, end, end, 5, s));
}

/// A setting of a region that no opcode sets of those that reach it has its default.
pub proof fn regions_have_defaults(
    tokens: Seq<SfzToken<Seq<char>>>,
    header: int,
    end: int,
    s: Setting,
)
    requires
        0 <= header < end <= tokens.len(),
        tokens[header] == SfzToken::<Seq<char>>::Group(SfzGroupType::Region),
        forall|k: int| header < k < end ==> (#[trigger] tokens[k]) is Opcode,
        end < tokens.len() ==> tokens[end] is Group,
        is_plain(tokens, s),
        forall|j: int|
            0 <= j < end && reaches(tokens, j, end, 5) ==> names(#[trigger] tokens[j], s) is None,
    ensures
        setting(
            root_of(tokens).drafts[region_headers(tokens.take(header))].settings,
            s,
        ) == setting(default_region(), s),
{
    region_is_described(tokens, header, end);
    states_are_right(tokens, end, s);
    assert forall|i: int|
        0 <= i < end && names(#[trigger] tokens[i], s) is Some implies !reaches(
        tokens,
        i,
        end,
        5,
    ) by {}
    nothing_reaches(tokens, end, end, 5, s);
    let stack = state_at(tokens, end).stack;
    assert(setting(stack[5 - 1], s) == last_reaching(tokens, end, end, 5, s));
}

/// The stage of the amplitude envelope that a controller moves.
pub open spec fn stage_of(b: RegionModel, base: AriaOnccBase) -> AmpegModel {
    match base {
        AriaOnccBase::AmpegStart => b.ampeg_envelope.ampeg_start,
        AriaOnccBase::AmpegDelay => b.ampeg_envelope.ampeg_delay,
        AriaOnccBase::AmpegAttack => b.ampeg_envelope.ampeg_attack,
        AriaOnccBase::AmpegHold => b.ampeg_envelope.ampeg_hold,
        AriaOnccBase::AmpegDecay => b.ampeg_envelope.ampeg_decay,
        AriaOnccBase::AmpegSustain => b.ampeg_envelope.ampeg_sustain,
        AriaOnccBase::AmpegRelease => b.ampeg_envelope.ampeg_release,
    }
}

/// Under a header, a controller that is bound to a stage of the amplitude envelope adds its
/// full swing to that stage, with the fraction that the controller was last set to before in the
/// file, or none where it was not set. The number of the stage and all other stages stay.
pub proof fn controllers_add_to_their_stage(
    st: RootModel,
    base: AriaOnccBase,
    cc: u8,
    value: SfzNumber<Seq<char>>,
    other: AriaOnccBase,
)
    requires
        takes_settings(st),
    ensures
        ({
            let op = SfzOpcode::AriaOncc { base, cc, value };
            let b = st.stack.last();
            let now = token_read(st, SfzToken::Opcode(op)).stack.last();
            let init = match entry(st.cc_state, cc) {
                Some(init) => init,
                None => CcInit::Midi(0),
            };
            &&& stage_of(now, base).base == stage_of(b, base).base
            &&& stage_of(now, base).added == stage_of(b, base).added.push((value, init))
            &&& other != base ==> stage_of(now, other) == stage_of(b, other)
            &&& now.ampeg_envelope.ampeg_vel2release == b.ampeg_envelope.ampeg_vel2release
        }),
{
    stack_after_opcode(st, SfzOpcode::AriaOncc { base, cc, value });
}

/// A controller of MIDI that is bound to the attack, the decay, the sustain or the release is
/// kept with its full swing and its fraction, the last binding of it; other bindings move
/// nothing while the instrument plays.
pub proof fn controllers_stay_bound(
    st: RootModel,
    base: AriaOnccBase,
    cc: u8,
    value: SfzNumber<Seq<char>>,
    n: u8,
)
    requires
        takes_settings(st),
    ensures
        ({
            let op = SfzOpcode::AriaOncc { base, cc, value };
            let b = st.stack.last();
            let now = token_read(st, SfzToken::Opcode(op)).stack.last();
            let init = match entry(st.cc_state, cc) {
                Some(init) => init,
                None => CcInit::Midi(0),
            };
            let own = n == cc && cc < 128;
            &&& entry(now.ampeg_attack_oncc, n) == (if own && base is AmpegAttack {
                Some((value, init))
            } else {
                entry(b.ampeg_attack_oncc, n)
            })
            &&& entry(now.ampeg_decay_oncc, n) == (if own && base is AmpegDecay {
                Some((value, init))
            } else {
                entry(b.ampeg_decay_oncc, n)
            })
            &&& entry(now.ampeg_sustain_oncc, n) == (if own && base is AmpegSustain {
                Some((value, init))
            } else {
                entry(b.ampeg_sustain_oncc, n)
            })
            &&& entry(now.ampeg_release_oncc, n) == (if own && base is AmpegRelease {
                Some((value, init))
            } else {
                entry(b.ampeg_release_oncc, n)
            })
        }),
{
    let b = st.stack.last();
    let init = init_of(st.cc_state, cc);
    stack_after_opcode(st, SfzOpcode::AriaOncc { base, cc, value });
    last_assignment_wins(b.ampeg_attack_oncc, cc, (value, init), n);
    last_assignment_wins(b.ampeg_decay_oncc, cc, (value, init), n);
    last_assignment_wins(b.ampeg_sustain_oncc, cc, (value, init), n);
    last_assignment_wins(b.ampeg_release_oncc, cc, (value, init), n);
}

/// A controller is set wherever in the file that is said, under whatever header or none; the
/// last time counts, and no header takes it back.
pub proof fn controllers_are_set_for_the_file(
    st: RootModel,
    token: SfzToken<Seq<char>>,
    cc: u8,
)
    ensures
        token matches SfzToken::Opcode(SfzOpcode::AriaCcInit(n, init)) ==> entry(
            token_read(st, token).cc_state,
            cc,
        ) == (if n == cc {
            Some(init)
        } else {
            entry(st.cc_state, cc)
        }),
        !(token matches SfzToken::Opcode(op) && op is AriaCcInit) ==> token_read(
            st,
            token,
        ).cc_state == st.cc_state,
{
    if let SfzToken::Opcode(SfzOpcode::AriaCcInit(n, init)) = token {
        last_assignment_wins(st.cc_state, n, init, cc);
    }
}

/// A curve block with an index gives the file a table under that number: the points of the
/// block, each with the value that it was given last. Points outside of MIDI's range are passed
/// over.
pub proof fn curve_blocks_give_tables(
    st: RootModel,
    id: u8,
    points: Seq<(u8, SfzNumber<Seq<char>>)>,
    n: u8,
    other: u8,
)
    requires
        st.curve_id is None,
        st.points.len() == 0,
    ensures
        ({
            let header = SfzToken::<Seq<char>>::Group(SfzGroupType::Curve);
            let index = SfzToken::Opcode(SfzOpcode::<Seq<char>>::CurveIndex(id));
            let row = points.map_values(
                |p: (u8, SfzNumber<Seq<char>>)| SfzToken::Opcode(SfzOpcode::CurvePoint(p.0, p.1)),
            );
            let now = left(
                tokens_read(token_read(token_read(st, header), index), row),
            );
            &&& entry(now.curves, id) is Some
            &&& entry(entry(now.curves, id)->0, n) == (if n < 128 {
                last_value(points, n)
            } else {
                None
            })
            &&& other != id ==> entry(now.curves, other) == entry(left(st).curves, other)
            &&& now.stack == left(st).stack
            &&& now.drafts == left(st).drafts
        }),
{
    let header = SfzToken::<Seq<char>>::Group(SfzGroupType::Curve);
    let index = SfzToken::Opcode(SfzOpcode::<Seq<char>>::CurveIndex(id));
    let begun = token_read(token_read(st, header), index);
    points_are_read(begun, points, n);
    let row = points.map_values(
        |p: (u8, SfzNumber<Seq<char>>)| SfzToken::Opcode(SfzOpcode::CurvePoint(p.0, p.1)),
    );
    let read = tokens_read(begun, row);
    position_bounds(begun.points, n);
    assert(entry(begun.points, n) is None);
    last_assignment_wins(read.curves, id, read.points, other);
}

proof fn points_are_read(st: RootModel, points: Seq<(u8, SfzNumber<Seq<char>>)>, n: u8)
    requires
        st.group == Some(SfzGroupType::Curve),
        entry(st.points, n) is None,
    ensures
        ({
            let row = points.map_values(
                |p: (u8, SfzNumber<Seq<char>>)| SfzToken::Opcode(SfzOpcode::CurvePoint(p.0, p.1)),
            );
            let now = tokens_read(st, row);
            &&& now == (RootModel { points: now.points, ..st })
            &&& entry(now.points, n) == (if n < 128 {
                last_value(points, n)
            } else {
                None
            })
        }),
    decreases points.len(),
{
    let f = |p: (u8, SfzNumber<Seq<char>>)| SfzToken::Opcode(SfzOpcode::CurvePoint(p.0, p.1));
    let row = points.map_values(f);
    if points.len() > 0 {
        points_are_read(st, points.drop_last(), n);
        assert(row.drop_last() =~= points.drop_last().map_values(f));
        let before = tokens_read(st, row.drop_last());
        let (at, v) = points.last();
        last_assignment_wins(before.points, at, v, n);
    }
}

/// A curve block without an index gives the file nothing.
pub proof fn curves_need_an_index(st: RootModel, next: SfzGroupType)
    requires
        st.group == Some(SfzGroupType::Curve),
        st.curve_id is None,
    ensures
        token_read(st, SfzToken::Group(next)).curves == st.curves,
        left(st).curves == st.curves,
{
}

/// A region has the controllers as they were set when its last opcode had been read.
pub proof fn regions_see_the_controllers(st: RootModel)
    requires
        st.group == Some(SfzGroupType::Region),
    ensures
        left(st).drafts.len() == st.drafts.len() + 1,
        left(st).drafts.last().cc_state == st.cc_state,
        st.stack.len() > 0 ==> left(st).drafts.last().settings == st.stack.last(),
{
}

} // verus!
