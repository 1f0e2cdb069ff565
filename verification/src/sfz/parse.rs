//! The opcodes of an SFZ file: their names, their values and what each of them
//! means.

use crate::text::{
    after_prefix, all_digits, chars_of, digit, find, first_position, integer_within, is_digit,
    is_fraction, lower_chars, lowered, parse_integer, replace_char, replaced, slice_of, spells,
    strip_prefix, text_of, writes_fraction,
};
use crate::{FilterType, LoopMode};
use super::region::TriggerType;
use vstd::prelude::*;

verus! {

/// A floating-point value as the file writes it, together with the range that
/// it is held to. Its value is the number that `text` writes, moved to the
/// nearer end of `clamp` where it lies outside.
///
/// The parameter is the text's type, so that the same record with a sequence of
/// characters in it serves as the model of a value.
#[derive(Debug, PartialEq, Eq)]
pub struct SfzNumber<T = String> {
    pub text: T,
    pub clamp: Option<(i32, i32)>,
}

impl DeepView for SfzNumber {
    type V = SfzNumber<Seq<char>>;

    open spec fn deep_view(&self) -> SfzNumber<Seq<char>> {
        SfzNumber { text: self.text@, clamp: self.clamp }
    }
}

impl Clone for SfzNumber {
    fn clone(&self) -> (r: SfzNumber)
        ensures
            r == *self,
    {
        SfzNumber { text: self.text.clone(), clamp: self.clamp }
    }
}

/// The value that a controller holds when the instrument is loaded, as a
/// fraction of its full swing.
#[derive(Debug, PartialEq, Eq)]
pub enum CcInit<T = String> {
    /// A controller value; the fraction is the value divided by 127, at most 1.
    Midi(u8),
    /// A fraction.
    Unit(SfzNumber<T>),
}

impl DeepView for CcInit {
    type V = CcInit<Seq<char>>;

    open spec fn deep_view(&self) -> CcInit<Seq<char>> {
        match *self {
            CcInit::Midi(v) => CcInit::Midi(v),
            CcInit::Unit(number) => CcInit::Unit(number.deep_view()),
        }
    }
}

impl Clone for CcInit {
    fn clone(&self) -> (r: CcInit)
        ensures
            r == *self,
    {
        match self {
            CcInit::Midi(v) => CcInit::Midi(*v),
            CcInit::Unit(number) => CcInit::Unit(number.clone()),
        }
    }
}

/// One opcode of an SFZ file with its value.
#[derive(Debug)]
pub enum SfzOpcode<T = String> {
    Lovel(u8),
    Hivel(u8),
    Key(i8),
    Lokey(i8),
    Hikey(i8),
    PitchKeycenter(i8),
    Volume(i16),
    Pan(i8),
    Sample(T),
    LoopMode(LoopMode),
    LoopStart(u32),
    LoopEnd(u32),
    /// `loop_crossfade`: the length in seconds of the fade across the loop point.
    LoopCrossfade(SfzNumber<T>),
    /// `amplfo_freq` in hertz.
    AmpLfoFreq(SfzNumber<T>),
    /// `amplfo_depth` in decibels.
    AmpLfoDepth(SfzNumber<T>),
    /// What a controller at full swing adds to `amplfo_freq`.
    AmpLfoFreqOncc(u8, SfzNumber<T>),
    /// What a controller at full swing adds to `amplfo_depth`.
    AmpLfoDepthOncc(u8, SfzNumber<T>),
    /// `fillfo_freq` in hertz.
    FilLfoFreq(SfzNumber<T>),
    /// `fillfo_depth` in cents of cutoff.
    FilLfoDepth(SfzNumber<T>),
    FilLfoFreqOncc(u8, SfzNumber<T>),
    FilLfoDepthOncc(u8, SfzNumber<T>),
    /// `panlfo_freq` in hertz.
    PanLfoFreq(SfzNumber<T>),
    /// `panlfo_depth` in percent.
    PanLfoDepth(SfzNumber<T>),
    PanLfoFreqOncc(u8, SfzNumber<T>),
    PanLfoDepthOncc(u8, SfzNumber<T>),
    /// The filter envelope; its depth is in cents of cutoff.
    FilegAttack(SfzNumber<T>),
    FilegDecay(SfzNumber<T>),
    FilegSustain(SfzNumber<T>),
    FilegRelease(SfzNumber<T>),
    FilegDepth(SfzNumber<T>),
    /// The curve table that shapes the filter envelope.
    FilegCurve(u8),
    /// `pitchlfo_freq` in hertz.
    PitchLfoFreq(SfzNumber<T>),
    /// `pitchlfo_depth` in cents.
    PitchLfoDepth(SfzNumber<T>),
    PitchLfoFreqOncc(u8, SfzNumber<T>),
    PitchLfoDepthOncc(u8, SfzNumber<T>),
    Offset(u32),
    Cutoff(SfzNumber<T>),
    Resonance(SfzNumber<T>),
    /// The keyswitch that is down when the file is loaded.
    SwDefault(i8),
    /// The keyswitch that must have been pressed last for the region to sound.
    SwLast(i8),
    SwLokey(i8),
    SwHikey(i8),
    AmpKeycenter(i8),
    AmpKeytrack(SfzNumber<T>),
    AmpVeltrack(SfzNumber<T>),
    PanKeycenter(i8),
    PanKeytrack(SfzNumber<T>),
    PanVeltrack(SfzNumber<T>),
    FilVeltrack(i16),
    FilKeycenter(i8),
    FilKeytrack(i16),
    FilterType(FilterType),
    DefaultPath(T),
    Tune(i16),
    AmpegEnvelope(SfzAmpegEnvelope<T>),
    Trigger(TriggerType),
    /// `polyphony`: how many voices may sound at once in the enclosing scope.
    Polyphony(u32),
    /// `group`: the choke group that the region belongs to.
    SfzGroup(u32),
    /// `off_by`: the choke group that the region silences.
    SfzOffBy(u32),
    SeqLength(u32),
    SeqPosition(u32),
    /// `set_cc<N>` or `set_hdcc<N>`: the value of a controller at load.
    AriaCcInit(u8, CcInit<T>),
    /// `<base>_oncc<N>` on an amplitude envelope stage.
    AriaOncc { base: AriaOnccBase, cc: u8, value: SfzNumber<T> },
    /// The region sounds only where the controller is at least the value.
    LoCc(u8, u8),
    /// The region sounds only where the controller is at most the value.
    HiCc(u8, u8),
    VolumeOncc(u8, SfzNumber<T>),
    CutoffOncc(u8, SfzNumber<T>),
    ResonanceOncc(u8, SfzNumber<T>),
    PanOncc(u8, SfzNumber<T>),
    /// The curve table through which a controller acts.
    VolumeCurvecc(u8, u8),
    CutoffCurvecc(u8, u8),
    ResonanceCurvecc(u8, u8),
    PanCurvecc(u8, u8),
    TuneOncc(u8, SfzNumber<T>),
    /// `index` inside a `<curve>` block.
    CurveIndex(u8),
    /// `v<NNN>` inside a `<curve>` block.
    CurvePoint(u8, SfzNumber<T>),
    /// The controller crossfades of a region.
    XfInLoCc(u8, u8),
    XfInHiCc(u8, u8),
    XfOutLoCc(u8, u8),
    XfOutHiCc(u8, u8),
    XfCcCurve(XfCurve),
}

impl DeepView for SfzOpcode {
    type V = SfzOpcode<Seq<char>>;

    open spec fn deep_view(&self) -> SfzOpcode<Seq<char>> {
        match *self {
            SfzOpcode::Lovel(v) => SfzOpcode::Lovel(v),
            SfzOpcode::Hivel(v) => SfzOpcode::Hivel(v),
            SfzOpcode::Key(v) => SfzOpcode::Key(v),
            SfzOpcode::Lokey(v) => SfzOpcode::Lokey(v),
            SfzOpcode::Hikey(v) => SfzOpcode::Hikey(v),
            SfzOpcode::PitchKeycenter(v) => SfzOpcode::PitchKeycenter(v),
            SfzOpcode::Volume(v) => SfzOpcode::Volume(v),
            SfzOpcode::Pan(v) => SfzOpcode::Pan(v),
            SfzOpcode::Sample(v) => SfzOpcode::Sample(v.deep_view()),
            SfzOpcode::LoopMode(v) => SfzOpcode::LoopMode(v),
            SfzOpcode::LoopStart(v) => SfzOpcode::LoopStart(v),
            SfzOpcode::LoopEnd(v) => SfzOpcode::LoopEnd(v),
            SfzOpcode::LoopCrossfade(v) => SfzOpcode::LoopCrossfade(v.deep_view()),
            SfzOpcode::AmpLfoFreq(v) => SfzOpcode::AmpLfoFreq(v.deep_view()),
            SfzOpcode::AmpLfoDepth(v) => SfzOpcode::AmpLfoDepth(v.deep_view()),
            SfzOpcode::AmpLfoFreqOncc(cc, v) => SfzOpcode::AmpLfoFreqOncc(cc, v.deep_view()),
            SfzOpcode::AmpLfoDepthOncc(cc, v) => SfzOpcode::AmpLfoDepthOncc(cc, v.deep_view()),
            SfzOpcode::FilLfoFreq(v) => SfzOpcode::FilLfoFreq(v.deep_view()),
            SfzOpcode::FilLfoDepth(v) => SfzOpcode::FilLfoDepth(v.deep_view()),
            SfzOpcode::FilLfoFreqOncc(cc, v) => SfzOpcode::FilLfoFreqOncc(cc, v.deep_view()),
            SfzOpcode::FilLfoDepthOncc(cc, v) => SfzOpcode::FilLfoDepthOncc(cc, v.deep_view()),
            SfzOpcode::PanLfoFreq(v) => SfzOpcode::PanLfoFreq(v.deep_view()),
            SfzOpcode::PanLfoDepth(v) => SfzOpcode::PanLfoDepth(v.deep_view()),
            SfzOpcode::PanLfoFreqOncc(cc, v) => SfzOpcode::PanLfoFreqOncc(cc, v.deep_view()),
            SfzOpcode::PanLfoDepthOncc(cc, v) => SfzOpcode::PanLfoDepthOncc(cc, v.deep_view()),
            SfzOpcode::FilegAttack(v) => SfzOpcode::FilegAttack(v.deep_view()),
            SfzOpcode::FilegDecay(v) => SfzOpcode::FilegDecay(v.deep_view()),
            SfzOpcode::FilegSustain(v) => SfzOpcode::FilegSustain(v.deep_view()),
            SfzOpcode::FilegRelease(v) => SfzOpcode::FilegRelease(v.deep_view()),
            SfzOpcode::FilegDepth(v) => SfzOpcode::FilegDepth(v.deep_view()),
            SfzOpcode::FilegCurve(v) => SfzOpcode::FilegCurve(v),
            SfzOpcode::PitchLfoFreq(v) => SfzOpcode::PitchLfoFreq(v.deep_view()),
            SfzOpcode::PitchLfoDepth(v) => SfzOpcode::PitchLfoDepth(v.deep_view()),
            SfzOpcode::PitchLfoFreqOncc(cc, v) => SfzOpcode::PitchLfoFreqOncc(cc, v.deep_view()),
            SfzOpcode::PitchLfoDepthOncc(cc, v) => SfzOpcode::PitchLfoDepthOncc(cc, v.deep_view()),
            SfzOpcode::Offset(v) => SfzOpcode::Offset(v),
            SfzOpcode::Cutoff(v) => SfzOpcode::Cutoff(v.deep_view()),
            SfzOpcode::Resonance(v) => SfzOpcode::Resonance(v.deep_view()),
            SfzOpcode::SwDefault(v) => SfzOpcode::SwDefault(v),
            SfzOpcode::SwLast(v) => SfzOpcode::SwLast(v),
            SfzOpcode::SwLokey(v) => SfzOpcode::SwLokey(v),
            SfzOpcode::SwHikey(v) => SfzOpcode::SwHikey(v),
            SfzOpcode::AmpKeycenter(v) => SfzOpcode::AmpKeycenter(v),
            SfzOpcode::AmpKeytrack(v) => SfzOpcode::AmpKeytrack(v.deep_view()),
            SfzOpcode::AmpVeltrack(v) => SfzOpcode::AmpVeltrack(v.deep_view()),
            SfzOpcode::PanKeycenter(v) => SfzOpcode::PanKeycenter(v),
            SfzOpcode::PanKeytrack(v) => SfzOpcode::PanKeytrack(v.deep_view()),
            SfzOpcode::PanVeltrack(v) => SfzOpcode::PanVeltrack(v.deep_view()),
            SfzOpcode::FilVeltrack(v) => SfzOpcode::FilVeltrack(v),
            SfzOpcode::FilKeycenter(v) => SfzOpcode::FilKeycenter(v),
            SfzOpcode::FilKeytrack(v) => SfzOpcode::FilKeytrack(v),
            SfzOpcode::FilterType(v) => SfzOpcode::FilterType(v),
            SfzOpcode::DefaultPath(v) => SfzOpcode::DefaultPath(v.deep_view()),
            SfzOpcode::Tune(v) => SfzOpcode::Tune(v),
            SfzOpcode::AmpegEnvelope(v) => SfzOpcode::AmpegEnvelope(v.deep_view()),
            SfzOpcode::Trigger(v) => SfzOpcode::Trigger(v),
            SfzOpcode::Polyphony(v) => SfzOpcode::Polyphony(v),
            SfzOpcode::SfzGroup(v) => SfzOpcode::SfzGroup(v),
            SfzOpcode::SfzOffBy(v) => SfzOpcode::SfzOffBy(v),
            SfzOpcode::SeqLength(v) => SfzOpcode::SeqLength(v),
            SfzOpcode::SeqPosition(v) => SfzOpcode::SeqPosition(v),
            SfzOpcode::AriaCcInit(cc, v) => SfzOpcode::AriaCcInit(cc, v.deep_view()),
            SfzOpcode::AriaOncc { base, cc, value } => SfzOpcode::AriaOncc {
                base,
                cc,
                value: value.deep_view(),
            },
            SfzOpcode::LoCc(cc, v) => SfzOpcode::LoCc(cc, v),
            SfzOpcode::HiCc(cc, v) => SfzOpcode::HiCc(cc, v),
            SfzOpcode::VolumeOncc(cc, v) => SfzOpcode::VolumeOncc(cc, v.deep_view()),
            SfzOpcode::CutoffOncc(cc, v) => SfzOpcode::CutoffOncc(cc, v.deep_view()),
            SfzOpcode::ResonanceOncc(cc, v) => SfzOpcode::ResonanceOncc(cc, v.deep_view()),
            SfzOpcode::PanOncc(cc, v) => SfzOpcode::PanOncc(cc, v.deep_view()),
            SfzOpcode::VolumeCurvecc(cc, v) => SfzOpcode::VolumeCurvecc(cc, v),
            SfzOpcode::CutoffCurvecc(cc, v) => SfzOpcode::CutoffCurvecc(cc, v),
            SfzOpcode::ResonanceCurvecc(cc, v) => SfzOpcode::ResonanceCurvecc(cc, v),
            SfzOpcode::PanCurvecc(cc, v) => SfzOpcode::PanCurvecc(cc, v),
            SfzOpcode::TuneOncc(cc, v) => SfzOpcode::TuneOncc(cc, v.deep_view()),
            SfzOpcode::CurveIndex(v) => SfzOpcode::CurveIndex(v),
            SfzOpcode::CurvePoint(cc, v) => SfzOpcode::CurvePoint(cc, v.deep_view()),
            SfzOpcode::XfInLoCc(cc, v) => SfzOpcode::XfInLoCc(cc, v),
            SfzOpcode::XfInHiCc(cc, v) => SfzOpcode::XfInHiCc(cc, v),
            SfzOpcode::XfOutLoCc(cc, v) => SfzOpcode::XfOutLoCc(cc, v),
            SfzOpcode::XfOutHiCc(cc, v) => SfzOpcode::XfOutHiCc(cc, v),
            SfzOpcode::XfCcCurve(v) => SfzOpcode::XfCcCurve(v),
        }
    }
}

impl Clone for SfzOpcode {
    fn clone(&self) -> (r: SfzOpcode)
        ensures
            r == *self,
    {
        match self {
            SfzOpcode::Lovel(v) => SfzOpcode::Lovel(*v),
            SfzOpcode::Hivel(v) => SfzOpcode::Hivel(*v),
            SfzOpcode::Key(v) => SfzOpcode::Key(*v),
            SfzOpcode::Lokey(v) => SfzOpcode::Lokey(*v),
            SfzOpcode::Hikey(v) => SfzOpcode::Hikey(*v),
            SfzOpcode::PitchKeycenter(v) => SfzOpcode::PitchKeycenter(*v),
            SfzOpcode::Volume(v) => SfzOpcode::Volume(*v),
            SfzOpcode::Pan(v) => SfzOpcode::Pan(*v),
            SfzOpcode::Sample(v) => SfzOpcode::Sample(v.clone()),
            SfzOpcode::LoopMode(v) => SfzOpcode::LoopMode(*v),
            SfzOpcode::LoopStart(v) => SfzOpcode::LoopStart(*v),
            SfzOpcode::LoopEnd(v) => SfzOpcode::LoopEnd(*v),
            SfzOpcode::LoopCrossfade(v) => SfzOpcode::LoopCrossfade(v.clone()),
            SfzOpcode::AmpLfoFreq(v) => SfzOpcode::AmpLfoFreq(v.clone()),
            SfzOpcode::AmpLfoDepth(v) => SfzOpcode::AmpLfoDepth(v.clone()),
            SfzOpcode::AmpLfoFreqOncc(cc, v) => SfzOpcode::AmpLfoFreqOncc(*cc, v.clone()),
            SfzOpcode::AmpLfoDepthOncc(cc, v) => SfzOpcode::AmpLfoDepthOncc(*cc, v.clone()),
            SfzOpcode::FilLfoFreq(v) => SfzOpcode::FilLfoFreq(v.clone()),
            SfzOpcode::FilLfoDepth(v) => SfzOpcode::FilLfoDepth(v.clone()),
            SfzOpcode::FilLfoFreqOncc(cc, v) => SfzOpcode::FilLfoFreqOncc(*cc, v.clone()),
            SfzOpcode::FilLfoDepthOncc(cc, v) => SfzOpcode::FilLfoDepthOncc(*cc, v.clone()),
            SfzOpcode::PanLfoFreq(v) => SfzOpcode::PanLfoFreq(v.clone()),
            SfzOpcode::PanLfoDepth(v) => SfzOpcode::PanLfoDepth(v.clone()),
            SfzOpcode::PanLfoFreqOncc(cc, v) => SfzOpcode::PanLfoFreqOncc(*cc, v.clone()),
            SfzOpcode::PanLfoDepthOncc(cc, v) => SfzOpcode::PanLfoDepthOncc(*cc, v.clone()),
            SfzOpcode::FilegAttack(v) => SfzOpcode::FilegAttack(v.clone()),
            SfzOpcode::FilegDecay(v) => SfzOpcode::FilegDecay(v.clone()),
            SfzOpcode::FilegSustain(v) => SfzOpcode::FilegSustain(v.clone()),
            SfzOpcode::FilegRelease(v) => SfzOpcode::FilegRelease(v.clone()),
            SfzOpcode::FilegDepth(v) => SfzOpcode::FilegDepth(v.clone()),
            SfzOpcode::FilegCurve(v) => SfzOpcode::FilegCurve(*v),
            SfzOpcode::PitchLfoFreq(v) => SfzOpcode::PitchLfoFreq(v.clone()),
            SfzOpcode::PitchLfoDepth(v) => SfzOpcode::PitchLfoDepth(v.clone()),
            SfzOpcode::PitchLfoFreqOncc(cc, v) => SfzOpcode::PitchLfoFreqOncc(*cc, v.clone()),
            SfzOpcode::PitchLfoDepthOncc(cc, v) => SfzOpcode::PitchLfoDepthOncc(*cc, v.clone()),
            SfzOpcode::Offset(v) => SfzOpcode::Offset(*v),
            SfzOpcode::Cutoff(v) => SfzOpcode::Cutoff(v.clone()),
            SfzOpcode::Resonance(v) => SfzOpcode::Resonance(v.clone()),
            SfzOpcode::SwDefault(v) => SfzOpcode::SwDefault(*v),
            SfzOpcode::SwLast(v) => SfzOpcode::SwLast(*v),
            SfzOpcode::SwLokey(v) => SfzOpcode::SwLokey(*v),
            SfzOpcode::SwHikey(v) => SfzOpcode::SwHikey(*v),
            SfzOpcode::AmpKeycenter(v) => SfzOpcode::AmpKeycenter(*v),
            SfzOpcode::AmpKeytrack(v) => SfzOpcode::AmpKeytrack(v.clone()),
            SfzOpcode::AmpVeltrack(v) => SfzOpcode::AmpVeltrack(v.clone()),
            SfzOpcode::PanKeycenter(v) => SfzOpcode::PanKeycenter(*v),
            SfzOpcode::PanKeytrack(v) => SfzOpcode::PanKeytrack(v.clone()),
            SfzOpcode::PanVeltrack(v) => SfzOpcode::PanVeltrack(v.clone()),
            SfzOpcode::FilVeltrack(v) => SfzOpcode::FilVeltrack(*v),
            SfzOpcode::FilKeycenter(v) => SfzOpcode::FilKeycenter(*v),
            SfzOpcode::FilKeytrack(v) => SfzOpcode::FilKeytrack(*v),
            SfzOpcode::FilterType(v) => SfzOpcode::FilterType(*v),
            SfzOpcode::DefaultPath(v) => SfzOpcode::DefaultPath(v.clone()),
            SfzOpcode::Tune(v) => SfzOpcode::Tune(*v),
            SfzOpcode::AmpegEnvelope(v) => SfzOpcode::AmpegEnvelope(v.clone()),
            SfzOpcode::Trigger(v) => SfzOpcode::Trigger(*v),
            SfzOpcode::Polyphony(v) => SfzOpcode::Polyphony(*v),
            SfzOpcode::SfzGroup(v) => SfzOpcode::SfzGroup(*v),
            SfzOpcode::SfzOffBy(v) => SfzOpcode::SfzOffBy(*v),
            SfzOpcode::SeqLength(v) => SfzOpcode::SeqLength(*v),
            SfzOpcode::SeqPosition(v) => SfzOpcode::SeqPosition(*v),
            SfzOpcode::AriaCcInit(cc, v) => SfzOpcode::AriaCcInit(*cc, v.clone()),
            SfzOpcode::AriaOncc { base, cc, value } => SfzOpcode::AriaOncc {
                base: *base,
                cc: *cc,
                value: value.clone(),
            },
            SfzOpcode::LoCc(cc, v) => SfzOpcode::LoCc(*cc, *v),
            SfzOpcode::HiCc(cc, v) => SfzOpcode::HiCc(*cc, *v),
            SfzOpcode::VolumeOncc(cc, v) => SfzOpcode::VolumeOncc(*cc, v.clone()),
            SfzOpcode::CutoffOncc(cc, v) => SfzOpcode::CutoffOncc(*cc, v.clone()),
            SfzOpcode::ResonanceOncc(cc, v) => SfzOpcode::ResonanceOncc(*cc, v.clone()),
            SfzOpcode::PanOncc(cc, v) => SfzOpcode::PanOncc(*cc, v.clone()),
            SfzOpcode::VolumeCurvecc(cc, v) => SfzOpcode::VolumeCurvecc(*cc, *v),
            SfzOpcode::CutoffCurvecc(cc, v) => SfzOpcode::CutoffCurvecc(*cc, *v),
            SfzOpcode::ResonanceCurvecc(cc, v) => SfzOpcode::ResonanceCurvecc(*cc, *v),
            SfzOpcode::PanCurvecc(cc, v) => SfzOpcode::PanCurvecc(*cc, *v),
            SfzOpcode::TuneOncc(cc, v) => SfzOpcode::TuneOncc(*cc, v.clone()),
            SfzOpcode::CurveIndex(v) => SfzOpcode::CurveIndex(*v),
            SfzOpcode::CurvePoint(cc, v) => SfzOpcode::CurvePoint(*cc, v.clone()),
            SfzOpcode::XfInLoCc(cc, v) => SfzOpcode::XfInLoCc(*cc, *v),
            SfzOpcode::XfInHiCc(cc, v) => SfzOpcode::XfInHiCc(*cc, *v),
            SfzOpcode::XfOutLoCc(cc, v) => SfzOpcode::XfOutLoCc(*cc, *v),
            SfzOpcode::XfOutHiCc(cc, v) => SfzOpcode::XfOutHiCc(*cc, *v),
            SfzOpcode::XfCcCurve(v) => SfzOpcode::XfCcCurve(*v),
        }
    }
}

/// How a controller crossfade scales the amplitude.
#[derive(Debug, Clone, Copy, PartialEq, Eq, Structural, Default)]
pub enum XfCurve {
    /// In proportion.
    #[default]
    Gain,
    /// With constant power.
    Power,
}

/// The stages of the amplitude envelope that a controller can move.
#[derive(Debug, Clone, Copy, PartialEq, Eq, Structural)]
pub enum AriaOnccBase {
    AmpegAttack,
    AmpegHold,
    AmpegDecay,
    AmpegSustain,
    AmpegRelease,
    AmpegDelay,
    AmpegStart,
}

/// A setting of the amplitude envelope.
#[derive(Debug)]
pub enum SfzAmpegEnvelope<T = String> {
    AmpegStart(SfzNumber<T>),
    AmpegDelay(SfzNumber<T>),
    AmpegAttack(SfzNumber<T>),
    AmpegHold(SfzNumber<T>),
    AmpegDecay(SfzNumber<T>),
    AmpegSustain(SfzNumber<T>),
    AmpegRelease(SfzNumber<T>),
    AmpegVel2Release(SfzNumber<T>),
}

impl DeepView for SfzAmpegEnvelope {
    type V = SfzAmpegEnvelope<Seq<char>>;

    open spec fn deep_view(&self) -> SfzAmpegEnvelope<Seq<char>> {
        match *self {
            SfzAmpegEnvelope::AmpegStart(v) => SfzAmpegEnvelope::AmpegStart(v.deep_view()),
            SfzAmpegEnvelope::AmpegDelay(v) => SfzAmpegEnvelope::AmpegDelay(v.deep_view()),
            SfzAmpegEnvelope::AmpegAttack(v) => SfzAmpegEnvelope::AmpegAttack(v.deep_view()),
            SfzAmpegEnvelope::AmpegHold(v) => SfzAmpegEnvelope::AmpegHold(v.deep_view()),
            SfzAmpegEnvelope::AmpegDecay(v) => SfzAmpegEnvelope::AmpegDecay(v.deep_view()),
            SfzAmpegEnvelope::AmpegSustain(v) => SfzAmpegEnvelope::AmpegSustain(v.deep_view()),
            SfzAmpegEnvelope::AmpegRelease(v) => SfzAmpegEnvelope::AmpegRelease(v.deep_view()),
            SfzAmpegEnvelope::AmpegVel2Release(v) => SfzAmpegEnvelope::AmpegVel2Release(v.deep_view()),
        }
    }
}

impl Clone for SfzAmpegEnvelope {
    fn clone(&self) -> (r: SfzAmpegEnvelope)
        ensures
            r == *self,
    {
        match self {
            SfzAmpegEnvelope::AmpegStart(v) => SfzAmpegEnvelope::AmpegStart(v.clone()),
            SfzAmpegEnvelope::AmpegDelay(v) => SfzAmpegEnvelope::AmpegDelay(v.clone()),
            SfzAmpegEnvelope::AmpegAttack(v) => SfzAmpegEnvelope::AmpegAttack(v.clone()),
            SfzAmpegEnvelope::AmpegHold(v) => SfzAmpegEnvelope::AmpegHold(v.clone()),
            SfzAmpegEnvelope::AmpegDecay(v) => SfzAmpegEnvelope::AmpegDecay(v.clone()),
            SfzAmpegEnvelope::AmpegSustain(v) => SfzAmpegEnvelope::AmpegSustain(v.clone()),
            SfzAmpegEnvelope::AmpegRelease(v) => SfzAmpegEnvelope::AmpegRelease(v.clone()),
            SfzAmpegEnvelope::AmpegVel2Release(v) => SfzAmpegEnvelope::AmpegVel2Release(v.clone()),
        }
    }
}

/// The kind of a header.
#[derive(Debug, Clone, Copy, PartialEq, Eq, Structural)]
pub enum SfzGroupType {
    Region,
    Group,
    Master,
    Global,
    Control,
    /// A table of 128 points through which controllers may act.
    Curve,
    Other,
}

/// The optional value `o` with `f` applied to it.
pub open spec fn mapped<A, B>(o: Option<A>, f: spec_fn(A) -> B) -> Option<B> {
    match o {
        Some(a) => Some(f(a)),
        None => None,
    }
}

/// An integer held to a range.
pub open spec fn clamped(v: int, lo: int, hi: int) -> int {
    if v < lo {
        lo
    } else if v > hi {
        hi
    } else {
        v
    }
}

/// The number of semitones above C of a note name without its octave.
pub open spec fn semitone_of(note: Seq<char>) -> Option<int> {
    if note == "c"@ {
        Some(0int)
    } else if note == "c#"@ {
        Some(1int)
    } else if note == "db"@ {
        Some(1int)
    } else if note == "d"@ {
        Some(2int)
    } else if note == "d#"@ {
        Some(3int)
    } else if note == "eb"@ {
        Some(3int)
    } else if note == "e"@ {
        Some(4int)
    } else if note == "f"@ {
        Some(5int)
    } else if note == "f#"@ {
        Some(6int)
    } else if note == "gb"@ {
        Some(6int)
    } else if note == "g"@ {
        Some(7int)
    } else if note == "g#"@ {
        Some(8int)
    } else if note == "ab"@ {
        Some(8int)
    } else if note == "a"@ {
        Some(9int)
    } else if note == "a#"@ {
        Some(10int)
    } else if note == "bb"@ {
        Some(10int)
    } else if note == "b"@ {
        Some(11int)
    } else {
        None
    }
}

/// The characters of a note name that belong to its octave.
pub open spec fn octave_char(c: char) -> bool {
    is_digit(c) || c == '-'
}

/// The key that a text names: a MIDI key number, or a note name with an octave
/// in which C4 is key 60. The key is held to -1 to 127.
pub open spec fn key_number(val: Seq<char>) -> Option<int> {
    match integer_within(val, i8::MIN as int, i8::MAX as int) {
        Some(v) => Some(clamped(v, -1, 127)),
        None => {
            let note = lowered(val.filter(|c: char| !octave_char(c)));
            let octave = match integer_within(
                val.filter(|c: char| octave_char(c)),
                i16::MIN as int,
                i16::MAX as int,
            ) {
                Some(o) => o,
                None => -10,
            };
            match semitone_of(note) {
                Some(semitone) => if octave < -1 {
                    None
                } else {
                    Some(clamped(12 + semitone + 12 * octave, -1, 127))
                },
                None => None,
            }
        },
    }
}

fn semitone(note: &Vec<char>) -> (r: Option<i32>)
    ensures
        r is Some <==> semitone_of(note@) is Some,
        r matches Some(v) ==> semitone_of(note@) == Some(v as int) && 0 <= v <= 11,
{
    if spells(note, "c") {
        return Some(0);
    }
    if spells(note, "c#") {
        return Some(1);
    }
    if spells(note, "db") {
        return Some(1);
    }
    if spells(note, "d") {
        return Some(2);
    }
    if spells(note, "d#") {
        return Some(3);
    }
    if spells(note, "eb") {
        return Some(3);
    }
    if spells(note, "e") {
        return Some(4);
    }
    if spells(note, "f") {
        return Some(5);
    }
    if spells(note, "f#") {
        return Some(6);
    }
    if spells(note, "gb") {
        return Some(6);
    }
    if spells(note, "g") {
        return Some(7);
    }
    if spells(note, "g#") {
        return Some(8);
    }
    if spells(note, "ab") {
        return Some(8);
    }
    if spells(note, "a") {
        return Some(9);
    }
    if spells(note, "a#") {
        return Some(10);
    }
    if spells(note, "bb") {
        return Some(10);
    }
    if spells(note, "b") {
        return Some(11);
    }
    None
}

/// The characters of a list that belong, or do not belong, to an octave.
fn keep_octave(chars: &Vec<char>, octave: bool) -> (r: Vec<char>)
    ensures
        octave ==> r@ == chars@.filter(|c: char| octave_char(c)),
        !octave ==> r@ == chars@.filter(|c: char| !octave_char(c)),
{
    let ghost keep = |c: char| octave_char(c);
    let ghost drop = |c: char| !octave_char(c);
    let mut out: Vec<char> = Vec::new();
    let mut i: usize = 0;
    while i < chars.len()
        invariant
            i <= chars.len(),
            keep == (|c: char| octave_char(c)),
            drop == (|c: char| !octave_char(c)),
            octave ==> out@ == chars@.take(i as int).filter(keep),
            !octave ==> out@ == chars@.take(i as int).filter(drop),
        decreases chars.len() - i,
    {
        let c = chars[i];
        proof {
            assert(chars@.take(i + 1).drop_last() =~= chars@.take(i as int));
            reveal(Seq::filter);
        }
        if (digit(c) || c == '-') == octave {
            out.push(c);
        }
        i = i + 1;
    }
    assert(chars@.take(i as int) =~= chars@);
    out
}

/// Reads a key number or a note name.
pub fn parse_key_number(val: &str) -> (r: Option<i8>)
    ensures
        r is Some <==> key_number(val@) is Some,
        r matches Some(key) ==> key_number(val@) == Some(key as int) && -1 <= key <= 127,
{
    let chars = chars_of(val);
    if let Some(v) = parse_integer(&chars, -128, 127) {
        return Some(if v < -1 { -1 } else { v as i8 });
    }
    let letters = keep_octave(&chars, false);
    let note = lower_chars(&letters);
    let octave_chars = keep_octave(&chars, true);
    match semitone(&note) {
        None => None,
        Some(semitone) => {
            let octave: i64 = match parse_integer(&octave_chars, -32768, 32767) {
                Some(o) => o,
                None => -10,
            };
            if octave < -1 {
                None
            } else {
                let key: i64 = 12 + semitone as i64 + 12 * octave;
                Some(
                    if key < -1 {
                        -1
                    } else if key > 127 {
                        127
                    } else {
                        key as i8
                    },
                )
            }
        },
    }
}

/// The integer that a text writes in the range of a type, held to `lo..=hi`.
pub open spec fn integer_in_range(
    val: Seq<char>,
    least: int,
    greatest: int,
    lo: int,
    hi: int,
) -> Option<int> {
    mapped(integer_within(val, least, greatest), |v: int| clamped(v, lo, hi))
}

/// Reads a `u8` and holds it to `lo..=hi`.
pub fn parse_u8_in_range(val: &str, lo: u8, hi: u8) -> (r: Option<u8>)
    requires
        lo <= hi,
    ensures
        r is Some <==> integer_in_range(
            val@,
            u8::MIN as int,
            u8::MAX as int,
            lo as int,
            hi as int,
        ) is Some,
        r matches Some(v) ==> integer_in_range(
            val@,
            u8::MIN as int,
            u8::MAX as int,
            lo as int,
            hi as int,
        ) == Some(v as int) && lo <= v <= hi,
{
    let chars = chars_of(val);
    match parse_integer(&chars, 0, 255) {
        Some(v) => {
            let v: u8 = v as u8;
            Some(
                if v < lo {
                    lo
                } else if v > hi {
                    hi
                } else {
                    v
                },
            )
        },
        None => None,
    }
}

/// Reads an `i8` and holds it to `lo..=hi`.
pub fn parse_i8_in_range(val: &str, lo: i8, hi: i8) -> (r: Option<i8>)
    requires
        lo <= hi,
    ensures
        r is Some <==> integer_in_range(
            val@,
            i8::MIN as int,
            i8::MAX as int,
            lo as int,
            hi as int,
        ) is Some,
        r matches Some(v) ==> integer_in_range(
            val@,
            i8::MIN as int,
            i8::MAX as int,
            lo as int,
            hi as int,
        ) == Some(v as int) && lo <= v <= hi,
{
    let chars = chars_of(val);
    match parse_integer(&chars, -128, 127) {
        Some(v) => {
            let v: i8 = v as i8;
            Some(
                if v < lo {
                    lo
                } else if v > hi {
                    hi
                } else {
                    v
                },
            )
        },
        None => None,
    }
}

/// Reads an `i16` and holds it to `lo..=hi`.
pub fn parse_i16_in_range(val: &str, lo: i16, hi: i16) -> (r: Option<i16>)
    requires
        lo <= hi,
    ensures
        r is Some <==> integer_in_range(
            val@,
            i16::MIN as int,
            i16::MAX as int,
            lo as int,
            hi as int,
        ) is Some,
        r matches Some(v) ==> integer_in_range(
            val@,
            i16::MIN as int,
            i16::MAX as int,
            lo as int,
            hi as int,
        ) == Some(v as int) && lo <= v <= hi,
{
    let chars = chars_of(val);
    match parse_integer(&chars, -32768, 32767) {
        Some(v) => {
            let v: i16 = v as i16;
            Some(
                if v < lo {
                    lo
                } else if v > hi {
                    hi
                } else {
                    v
                },
            )
        },
        None => None,
    }
}

/// Reads a `u32` and holds it to `lo..=hi`.
pub fn parse_u32_in_range(val: &str, lo: u32, hi: u32) -> (r: Option<u32>)
    requires
        lo <= hi,
    ensures
        r is Some <==> integer_in_range(
            val@,
            u32::MIN as int,
            u32::MAX as int,
            lo as int,
            hi as int,
        ) is Some,
        r matches Some(v) ==> integer_in_range(
            val@,
            u32::MIN as int,
            u32::MAX as int,
            lo as int,
            hi as int,
        ) == Some(v as int) && lo <= v <= hi,
{
    let chars = chars_of(val);
    match parse_integer(&chars, 0, 4294967295) {
        Some(v) => {
            let v: u32 = v as u32;
            Some(
                if v < lo {
                    lo
                } else if v > hi {
                    hi
                } else {
                    v
                },
            )
        },
        None => None,
    }
}

/// The number that a text writes, held to a range or to none.
pub open spec fn number_of(val: Seq<char>, clamp: Option<(i32, i32)>) -> Option<
    SfzNumber<Seq<char>>,
> {
    if is_fraction(val) {
        Some(SfzNumber { text: val, clamp })
    } else {
        None
    }
}

/// Reads a floating-point number, held to a range or to none.
fn parse_number(val: &str, clamp: Option<(i32, i32)>) -> (r: Option<SfzNumber>)
    ensures
        r.deep_view() == number_of(val@, clamp),
{
    let chars = chars_of(val);
    if writes_fraction(&chars) {
        let text = text_of(&chars, 0, chars.len());
        assert(text@ =~= val@);
        Some(SfzNumber { text, clamp })
    } else {
        None
    }
}

/// Reads a floating-point number that is held to `lo..=hi`.
pub fn parse_float_in_range(val: &str, lo: i32, hi: i32) -> (r: Option<SfzNumber>)
    requires
        lo <= hi,
    ensures
        r.deep_view() == number_of(val@, Some((lo, hi))),
{
    parse_number(val, Some((lo, hi)))
}

/// The filter that a text names.
pub open spec fn filter_kind(val: Seq<char>) -> Option<FilterType> {
    if val == "lpf_1p"@ {
        Some(FilterType::LowPassPole)
    } else if val == "lpf_2p"@ || val == "lpf_4p"@ || val == "lpf_6p"@ {
        Some(FilterType::LowPass)
    } else if val == "hpf_1p"@ || val == "hpf_2p"@ || val == "hpf_4p"@ || val == "hpf_6p"@ {
        Some(FilterType::HighPass)
    } else if val == "bpf_1p"@ || val == "bpf_2p"@ {
        Some(FilterType::BandPass)
    } else if val == "brf_1p"@ || val == "brf_2p"@ {
        Some(FilterType::Notch)
    } else {
        None
    }
}

/// Reads the name of a filter.
pub fn parse_filter_kind(val: &str) -> (r: Option<FilterType>)
    ensures
        r == filter_kind(val@),
{
    let v = chars_of(val);
    if spells(&v, "lpf_1p") {
        Some(FilterType::LowPassPole)
    } else if spells(&v, "lpf_2p") || spells(&v, "lpf_4p") || spells(&v, "lpf_6p") {
        Some(FilterType::LowPass)
    } else if spells(&v, "hpf_1p") || spells(&v, "hpf_2p") || spells(&v, "hpf_4p") || spells(
        &v,
        "hpf_6p",
    ) {
        Some(FilterType::HighPass)
    } else if spells(&v, "bpf_1p") || spells(&v, "bpf_2p") {
        Some(FilterType::BandPass)
    } else if spells(&v, "brf_1p") || spells(&v, "brf_2p") {
        Some(FilterType::Notch)
    } else {
        None
    }
}

/// The trigger that a text names. `first` and `legato` are read as `attack`.
pub open spec fn trigger_named(val: Seq<char>) -> Option<TriggerType> {
    if val == "attack"@ || val == "first"@ || val == "legato"@ {
        Some(TriggerType::Attack)
    } else if val == "release"@ {
        Some(TriggerType::Release)
    } else {
        None
    }
}

/// Reads the name of a trigger.
pub fn parse_trigger(val: &str) -> (r: Option<TriggerType>)
    ensures
        r == trigger_named(val@),
{
    let v = chars_of(val);
    if spells(&v, "attack") || spells(&v, "first") || spells(&v, "legato") {
        Some(TriggerType::Attack)
    } else if spells(&v, "release") {
        Some(TriggerType::Release)
    } else {
        None
    }
}

/// The loop mode that a text names.
pub open spec fn loop_mode_named(val: Seq<char>) -> Option<LoopMode> {
    if val == "no_loop"@ {
        Some(LoopMode::NoLoop)
    } else if val == "one_shot"@ {
        Some(LoopMode::OneShot)
    } else if val == "loop_continuous"@ {
        Some(LoopMode::LoopContinuous)
    } else if val == "loop_sustain"@ {
        Some(LoopMode::LoopSustain)
    } else {
        None
    }
}

/// Reads the name of a loop mode.
pub fn parse_loop_mode(val: &str) -> (r: Option<LoopMode>)
    ensures
        r == loop_mode_named(val@),
{
    let v = chars_of(val);
    if spells(&v, "no_loop") {
        Some(LoopMode::NoLoop)
    } else if spells(&v, "one_shot") {
        Some(LoopMode::OneShot)
    } else if spells(&v, "loop_continuous") {
        Some(LoopMode::LoopContinuous)
    } else if spells(&v, "loop_sustain") {
        Some(LoopMode::LoopSustain)
    } else {
        None
    }
}

/// The kind of the header that a text names.
pub open spec fn group_named(name: Seq<char>) -> SfzGroupType {
    if name == "region"@ {
        SfzGroupType::Region
    } else if name == "group"@ {
        SfzGroupType::Group
    } else if name == "master"@ {
        SfzGroupType::Master
    } else if name == "global"@ {
        SfzGroupType::Global
    } else if name == "control"@ {
        SfzGroupType::Control
    } else if name == "curve"@ {
        SfzGroupType::Curve
    } else {
        SfzGroupType::Other
    }
}

/// Reads the name of a header.
pub fn parse_sfz_group(name: &str) -> (r: SfzGroupType)
    ensures
        r == group_named(name@),
{
    let n = chars_of(name);
    if spells(&n, "region") {
        SfzGroupType::Region
    } else if spells(&n, "group") {
        SfzGroupType::Group
    } else if spells(&n, "master") {
        SfzGroupType::Master
    } else if spells(&n, "global") {
        SfzGroupType::Global
    } else if spells(&n, "control") {
        SfzGroupType::Control
    } else if spells(&n, "curve") {
        SfzGroupType::Curve
    } else {
        SfzGroupType::Other
    }
}

/// The crossfade curve that a text names.
pub open spec fn xf_curve_named(val: Seq<char>) -> Option<XfCurve> {
    if val == "gain"@ {
        Some(XfCurve::Gain)
    } else if val == "power"@ {
        Some(XfCurve::Power)
    } else {
        None
    }
}

/// The opcodes whose value is a key. `None` where the name is no such opcode.
pub open spec fn key_opcode(
    name: Seq<char>,
    val: Seq<char>,
) -> Option<Option<SfzOpcode<Seq<char>>>> {
    if name == "lokey"@ {
        Some(mapped(key_number(val), |k: int| SfzOpcode::Lokey(k as i8)))
    } else if name == "hikey"@ {
        Some(mapped(key_number(val), |k: int| SfzOpcode::Hikey(k as i8)))
    } else if name == "pitch_keycenter"@ {
        Some(mapped(key_number(val), |k: int| SfzOpcode::PitchKeycenter(k as i8)))
    } else if name == "key"@ {
        Some(mapped(key_number(val), |k: int| SfzOpcode::Key(k as i8)))
    } else if name == "sw_default"@ {
        Some(mapped(key_number(val), |k: int| SfzOpcode::SwDefault(k as i8)))
    } else if name == "sw_last"@ {
        Some(mapped(key_number(val), |k: int| SfzOpcode::SwLast(k as i8)))
    } else if name == "sw_lokey"@ {
        Some(mapped(key_number(val), |k: int| SfzOpcode::SwLokey(k as i8)))
    } else if name == "sw_hikey"@ {
        Some(mapped(key_number(val), |k: int| SfzOpcode::SwHikey(k as i8)))
    } else if name == "amp_keycenter"@ {
        Some(mapped(key_number(val), |k: int| SfzOpcode::AmpKeycenter(k as i8)))
    } else if name == "pan_keycenter"@ {
        Some(mapped(key_number(val), |k: int| SfzOpcode::PanKeycenter(k as i8)))
    } else if name == "fil_keycenter"@ {
        Some(mapped(key_number(val), |k: int| SfzOpcode::FilKeycenter(k as i8)))
    } else {
        None
    }
}

fn parse_key_opcode(name: &Vec<char>, val: &str) -> (r: Option<Option<SfzOpcode>>)
    ensures
        r.deep_view() == key_opcode(name@, val@),
{
    if spells(name, "lokey") {
        Some(match parse_key_number(val) {
            Some(k) => Some(SfzOpcode::Lokey(k)),
            None => None,
        })
    } else if spells(name, "hikey") {
        Some(match parse_key_number(val) {
            Some(k) => Some(SfzOpcode::Hikey(k)),
            None => None,
        })
    } else if spells(name, "pitch_keycenter") {
        Some(match parse_key_number(val) {
            Some(k) => Some(SfzOpcode::PitchKeycenter(k)),
            None => None,
        })
    } else if spells(name, "key") {
        Some(match parse_key_number(val) {
            Some(k) => Some(SfzOpcode::Key(k)),
            None => None,
        })
    } else if spells(name, "sw_default") {
        Some(match parse_key_number(val) {
            Some(k) => Some(SfzOpcode::SwDefault(k)),
            None => None,
        })
    } else if spells(name, "sw_last") {
        Some(match parse_key_number(val) {
            Some(k) => Some(SfzOpcode::SwLast(k)),
            None => None,
        })
    } else if spells(name, "sw_lokey") {
        Some(match parse_key_number(val) {
            Some(k) => Some(SfzOpcode::SwLokey(k)),
            None => None,
        })
    } else if spells(name, "sw_hikey") {
        Some(match parse_key_number(val) {
            Some(k) => Some(SfzOpcode::SwHikey(k)),
            None => None,
        })
    } else if spells(name, "amp_keycenter") {
        Some(match parse_key_number(val) {
            Some(k) => Some(SfzOpcode::AmpKeycenter(k)),
            None => None,
        })
    } else if spells(name, "pan_keycenter") {
        Some(match parse_key_number(val) {
            Some(k) => Some(SfzOpcode::PanKeycenter(k)),
            None => None,
        })
    } else if spells(name, "fil_keycenter") {
        Some(match parse_key_number(val) {
            Some(k) => Some(SfzOpcode::FilKeycenter(k)),
            None => None,
        })
    } else {
        None
    }
}

/// The opcodes whose value is an integer. `None` where the name is no such opcode.
pub open spec fn integer_opcode(
    name: Seq<char>,
    val: Seq<char>,
) -> Option<Option<SfzOpcode<Seq<char>>>> {
    if name == "lovel"@ {
        Some(
            mapped(
                integer_in_range(val, u8::MIN as int, u8::MAX as int, 0, 128),
                |v: int| SfzOpcode::Lovel(v as u8),
            ),
        )
    } else if name == "hivel"@ {
        Some(
            mapped(
                integer_in_range(val, u8::MIN as int, u8::MAX as int, 0, 128),
                |v: int| SfzOpcode::Hivel(v as u8),
            ),
        )
    } else if name == "volume"@ {
        Some(
            mapped(
                integer_in_range(val, i16::MIN as int, i16::MAX as int, -144, 6),
                |v: int| SfzOpcode::Volume(v as i16),
            ),
        )
    } else if name == "pan"@ {
        Some(
            mapped(
                integer_in_range(val, i8::MIN as int, i8::MAX as int, -100, 100),
                |v: int| SfzOpcode::Pan(v as i8),
            ),
        )
    } else if name == "fil_veltrack"@ {
        Some(
            mapped(
                integer_in_range(val, i16::MIN as int, i16::MAX as int, -9600, 9600),
                |v: int| SfzOpcode::FilVeltrack(v as i16),
            ),
        )
    } else if name == "fil_keytrack"@ {
        Some(
            mapped(
                integer_in_range(val, i16::MIN as int, i16::MAX as int, 0, 1200),
                |v: int| SfzOpcode::FilKeytrack(v as i16),
            ),
        )
    } else if name == "loop_start"@ || name == "loopstart"@ {
        Some(
            mapped(
                integer_in_range(val, u32::MIN as int, u32::MAX as int, 0, 4294967295),
                |v: int| SfzOpcode::LoopStart(v as u32),
            ),
        )
    } else if name == "loop_end"@ || name == "loopend"@ {
        Some(
            mapped(
                integer_in_range(val, u32::MIN as int, u32::MAX as int, 0, 4294967295),
                |v: int| SfzOpcode::LoopEnd(v as u32),
            ),
        )
    } else if name == "offset"@ {
        Some(
            mapped(
                integer_in_range(val, u32::MIN as int, u32::MAX as int, 0, 4294967295),
                |v: int| SfzOpcode::Offset(v as u32),
            ),
        )
    } else if name == "tune"@ {
        Some(
            mapped(
                integer_in_range(val, i16::MIN as int, i16::MAX as int, -2400, 2400),
                |v: int| SfzOpcode::Tune(v as i16),
            ),
        )
    } else if name == "polyphony"@ {
        Some(
            mapped(
                integer_in_range(val, u32::MIN as int, u32::MAX as int, 1, 128),
                |v: int| SfzOpcode::Polyphony(v as u32),
            ),
        )
    } else if name == "group"@ {
        Some(
            mapped(
                integer_in_range(val, u32::MIN as int, u32::MAX as int, 0, 4294967295),
                |v: int| SfzOpcode::SfzGroup(v as u32),
            ),
        )
    } else if name == "off_by"@ || name == "offBy"@ {
        Some(
            mapped(
                integer_in_range(val, u32::MIN as int, u32::MAX as int, 0, 4294967295),
                |v: int| SfzOpcode::SfzOffBy(v as u32),
            ),
        )
    } else if name == "seq_length"@ || name == "seqlength"@ {
        Some(
            mapped(
                integer_in_range(val, u32::MIN as int, u32::MAX as int, 0, 255),
                |v: int| SfzOpcode::SeqLength(v as u32),
            ),
        )
    } else if name == "seq_position"@ || name == "seqposition"@ {
        Some(
            mapped(
                integer_in_range(val, u32::MIN as int, u32::MAX as int, 0, 255),
                |v: int| SfzOpcode::SeqPosition(v as u32),
            ),
        )
    } else if name == "fileg_curve"@ {
        Some(
            mapped(
                integer_in_range(val, u8::MIN as int, u8::MAX as int, 0, 255),
                |v: int| SfzOpcode::FilegCurve(v as u8),
            ),
        )
    } else {
        None
    }
}

fn parse_integer_opcode(name: &Vec<char>, val: &str) -> (r: Option<Option<SfzOpcode>>)
    ensures
        r.deep_view() == integer_opcode(name@, val@),
{
    if spells(name, "lovel") {
        Some(match parse_u8_in_range(val, 0, 128) {
            Some(v) => Some(SfzOpcode::Lovel(v)),
            None => None,
        })
    } else if spells(name, "hivel") {
        Some(match parse_u8_in_range(val, 0, 128) {
            Some(v) => Some(SfzOpcode::Hivel(v)),
            None => None,
        })
    } else if spells(name, "volume") {
        Some(match parse_i16_in_range(val, -144, 6) {
            Some(v) => Some(SfzOpcode::Volume(v)),
            None => None,
        })
    } else if spells(name, "pan") {
        Some(match parse_i8_in_range(val, -100, 100) {
            Some(v) => Some(SfzOpcode::Pan(v)),
            None => None,
        })
    } else if spells(name, "fil_veltrack") {
        Some(match parse_i16_in_range(val, -9600, 9600) {
            Some(v) => Some(SfzOpcode::FilVeltrack(v)),
            None => None,
        })
    } else if spells(name, "fil_keytrack") {
        Some(match parse_i16_in_range(val, 0, 1200) {
            Some(v) => Some(SfzOpcode::FilKeytrack(v)),
            None => None,
        })
    } else if spells(name, "loop_start") || spells(name, "loopstart") {
        Some(match parse_u32_in_range(val, 0, 4294967295) {
            Some(v) => Some(SfzOpcode::LoopStart(v)),
            None => None,
        })
    } else if spells(name, "loop_end") || spells(name, "loopend") {
        Some(match parse_u32_in_range(val, 0, 4294967295) {
            Some(v) => Some(SfzOpcode::LoopEnd(v)),
            None => None,
        })
    } else if spells(name, "offset") {
        Some(match parse_u32_in_range(val, 0, 4294967295) {
            Some(v) => Some(SfzOpcode::Offset(v)),
            None => None,
        })
    } else if spells(name, "tune") {
        Some(match parse_i16_in_range(val, -2400, 2400) {
            Some(v) => Some(SfzOpcode::Tune(v)),
            None => None,
        })
    } else if spells(name, "polyphony") {
        Some(match parse_u32_in_range(val, 1, 128) {
            Some(v) => Some(SfzOpcode::Polyphony(v)),
            None => None,
        })
    } else if spells(name, "group") {
        Some(match parse_u32_in_range(val, 0, 4294967295) {
            Some(v) => Some(SfzOpcode::SfzGroup(v)),
            None => None,
        })
    } else if spells(name, "off_by") || spells(name, "offBy") {
        Some(match parse_u32_in_range(val, 0, 4294967295) {
            Some(v) => Some(SfzOpcode::SfzOffBy(v)),
            None => None,
        })
    } else if spells(name, "seq_length") || spells(name, "seqlength") {
        Some(match parse_u32_in_range(val, 0, 255) {
            Some(v) => Some(SfzOpcode::SeqLength(v)),
            None => None,
        })
    } else if spells(name, "seq_position") || spells(name, "seqposition") {
        Some(match parse_u32_in_range(val, 0, 255) {
            Some(v) => Some(SfzOpcode::SeqPosition(v)),
            None => None,
        })
    } else if spells(name, "fileg_curve") {
        Some(match parse_u8_in_range(val, 0, 255) {
            Some(v) => Some(SfzOpcode::FilegCurve(v)),
            None => None,
        })
    } else {
        None
    }
}

/// The opcodes whose value is a number held to a range. `None` where the name is no such opcode.
pub open spec fn ranged_opcode(
    name: Seq<char>,
    val: Seq<char>,
) -> Option<Option<SfzOpcode<Seq<char>>>> {
    if name == "cutoff"@ {
        Some(
            mapped(
                number_of(val, Some((1, 100000))),
                |v: SfzNumber<Seq<char>>| SfzOpcode::Cutoff(v),
            ),
        )
    } else if name == "resonance"@ {
        Some(
            mapped(
                number_of(val, Some((0, 40))),
                |v: SfzNumber<Seq<char>>| SfzOpcode::Resonance(v),
            ),
        )
    } else if name == "amp_keytrack"@ {
        Some(
            mapped(
                number_of(val, Some(((-96) as i32, 12))),
                |v: SfzNumber<Seq<char>>| SfzOpcode::AmpKeytrack(v),
            ),
        )
    } else if name == "amp_veltrack"@ {
        Some(
            mapped(
                number_of(val, Some(((-100) as i32, 100))),
                |v: SfzNumber<Seq<char>>| SfzOpcode::AmpVeltrack(v),
            ),
        )
    } else if name == "pan_keytrack"@ {
        Some(
            mapped(
                number_of(val, Some(((-100) as i32, 100))),
                |v: SfzNumber<Seq<char>>| SfzOpcode::PanKeytrack(v),
            ),
        )
    } else if name == "pan_veltrack"@ {
        Some(
            mapped(
                number_of(val, Some(((-100) as i32, 100))),
                |v: SfzNumber<Seq<char>>| SfzOpcode::PanVeltrack(v),
            ),
        )
    } else if name == "ampeg_delay"@ {
        Some(
            mapped(
                number_of(val, Some((0, 100))),
                |v: SfzNumber<Seq<char>>| SfzOpcode::AmpegEnvelope(SfzAmpegEnvelope::AmpegDelay(v)),
            ),
        )
    } else if name == "ampeg_start"@ {
        Some(
            mapped(
                number_of(val, Some((0, 100))),
                |v: SfzNumber<Seq<char>>| SfzOpcode::AmpegEnvelope(SfzAmpegEnvelope::AmpegStart(v)),
            ),
        )
    } else if name == "ampeg_attack"@ {
        Some(
            mapped(
                number_of(val, Some((0, 100))),
                |v: SfzNumber<Seq<char>>|
                    SfzOpcode::AmpegEnvelope(SfzAmpegEnvelope::AmpegAttack(v)),
            ),
        )
    } else if name == "ampeg_hold"@ {
        Some(
            mapped(
                number_of(val, Some((0, 100))),
                |v: SfzNumber<Seq<char>>| SfzOpcode::AmpegEnvelope(SfzAmpegEnvelope::AmpegHold(v)),
            ),
        )
    } else if name == "ampeg_decay"@ {
        Some(
            mapped(
                number_of(val, Some((0, 100))),
                |v: SfzNumber<Seq<char>>| SfzOpcode::AmpegEnvelope(SfzAmpegEnvelope::AmpegDecay(v)),
            ),
        )
    } else if name == "ampeg_sustain"@ {
        Some(
            mapped(
                number_of(val, Some((0, 100))),
                |v: SfzNumber<Seq<char>>|
                    SfzOpcode::AmpegEnvelope(SfzAmpegEnvelope::AmpegSustain(v)),
            ),
        )
    } else if name == "ampeg_release"@ {
        Some(
            mapped(
                number_of(val, Some((0, 100))),
                |v: SfzNumber<Seq<char>>|
                    SfzOpcode::AmpegEnvelope(SfzAmpegEnvelope::AmpegRelease(v)),
            ),
        )
    } else if name == "ampeg_vel2release"@ {
        Some(
            mapped(
                number_of(val, Some(((-100) as i32, 100))),
                |v: SfzNumber<Seq<char>>|
                    SfzOpcode::AmpegEnvelope(SfzAmpegEnvelope::AmpegVel2Release(v)),
            ),
        )
    } else {
        None
    }
}

fn parse_ranged_opcode(name: &Vec<char>, val: &str) -> (r: Option<Option<SfzOpcode>>)
    ensures
        r.deep_view() == ranged_opcode(name@, val@),
{
    if spells(name, "cutoff") {
        Some(match parse_float_in_range(val, 1, 100000) {
            Some(v) => Some(SfzOpcode::Cutoff(v)),
            None => None,
        })
    } else if spells(name, "resonance") {
        Some(match parse_float_in_range(val, 0, 40) {
            Some(v) => Some(SfzOpcode::Resonance(v)),
            None => None,
        })
    } else if spells(name, "amp_keytrack") {
        Some(match parse_float_in_range(val, -96, 12) {
            Some(v) => Some(SfzOpcode::AmpKeytrack(v)),
            None => None,
        })
    } else if spells(name, "amp_veltrack") {
        Some(match parse_float_in_range(val, -100, 100) {
            Some(v) => Some(SfzOpcode::AmpVeltrack(v)),
            None => None,
        })
    } else if spells(name, "pan_keytrack") {
        Some(match parse_float_in_range(val, -100, 100) {
            Some(v) => Some(SfzOpcode::PanKeytrack(v)),
            None => None,
        })
    } else if spells(name, "pan_veltrack") {
        Some(match parse_float_in_range(val, -100, 100) {
            Some(v) => Some(SfzOpcode::PanVeltrack(v)),
            None => None,
        })
    } else if spells(name, "ampeg_delay") {
        Some(match parse_float_in_range(val, 0, 100) {
            Some(v) => Some(SfzOpcode::AmpegEnvelope(SfzAmpegEnvelope::AmpegDelay(v))),
            None => None,
        })
    } else if spells(name, "ampeg_start") {
        Some(match parse_float_in_range(val, 0, 100) {
            Some(v) => Some(SfzOpcode::AmpegEnvelope(SfzAmpegEnvelope::AmpegStart(v))),
            None => None,
        })
    } else if spells(name, "ampeg_attack") {
        Some(match parse_float_in_range(val, 0, 100) {
            Some(v) => Some(SfzOpcode::AmpegEnvelope(SfzAmpegEnvelope::AmpegAttack(v))),
            None => None,
        })
    } else if spells(name, "ampeg_hold") {
        Some(match parse_float_in_range(val, 0, 100) {
            Some(v) => Some(SfzOpcode::AmpegEnvelope(SfzAmpegEnvelope::AmpegHold(v))),
            None => None,
        })
    } else if spells(name, "ampeg_decay") {
        Some(match parse_float_in_range(val, 0, 100) {
            Some(v) => Some(SfzOpcode::AmpegEnvelope(SfzAmpegEnvelope::AmpegDecay(v))),
            None => None,
        })
    } else if spells(name, "ampeg_sustain") {
        Some(match parse_float_in_range(val, 0, 100) {
            Some(v) => Some(SfzOpcode::AmpegEnvelope(SfzAmpegEnvelope::AmpegSustain(v))),
            None => None,
        })
    } else if spells(name, "ampeg_release") {
        Some(match parse_float_in_range(val, 0, 100) {
            Some(v) => Some(SfzOpcode::AmpegEnvelope(SfzAmpegEnvelope::AmpegRelease(v))),
            None => None,
        })
    } else if spells(name, "ampeg_vel2release") {
        Some(match parse_float_in_range(val, -100, 100) {
            Some(v) => Some(SfzOpcode::AmpegEnvelope(SfzAmpegEnvelope::AmpegVel2Release(v))),
            None => None,
        })
    } else {
        None
    }
}

/// The opcodes whose value is any number. `None` where the name is no such opcode.
pub open spec fn fraction_opcode(
    name: Seq<char>,
    val: Seq<char>,
) -> Option<Option<SfzOpcode<Seq<char>>>> {
    if name == "loop_crossfade"@ || name == "loopcrossfade"@ {
        Some(mapped(number_of(val, None), |v: SfzNumber<Seq<char>>| SfzOpcode::LoopCrossfade(v)))
    } else if name == "amplfo_freq"@ {
        Some(mapped(number_of(val, None), |v: SfzNumber<Seq<char>>| SfzOpcode::AmpLfoFreq(v)))
    } else if name == "amplfo_depth"@ {
        Some(mapped(number_of(val, None), |v: SfzNumber<Seq<char>>| SfzOpcode::AmpLfoDepth(v)))
    } else if name == "fillfo_freq"@ {
        Some(mapped(number_of(val, None), |v: SfzNumber<Seq<char>>| SfzOpcode::FilLfoFreq(v)))
    } else if name == "fillfo_depth"@ {
        Some(mapped(number_of(val, None), |v: SfzNumber<Seq<char>>| SfzOpcode::FilLfoDepth(v)))
    } else if name == "panlfo_freq"@ {
        Some(mapped(number_of(val, None), |v: SfzNumber<Seq<char>>| SfzOpcode::PanLfoFreq(v)))
    } else if name == "panlfo_depth"@ {
        Some(mapped(number_of(val, None), |v: SfzNumber<Seq<char>>| SfzOpcode::PanLfoDepth(v)))
    } else if name == "fileg_attack"@ {
        Some(mapped(number_of(val, None), |v: SfzNumber<Seq<char>>| SfzOpcode::FilegAttack(v)))
    } else if name == "fileg_decay"@ {
        Some(mapped(number_of(val, None), |v: SfzNumber<Seq<char>>| SfzOpcode::FilegDecay(v)))
    } else if name == "fileg_sustain"@ {
        Some(mapped(number_of(val, None), |v: SfzNumber<Seq<char>>| SfzOpcode::FilegSustain(v)))
    } else if name == "fileg_release"@ {
        Some(mapped(number_of(val, None), |v: SfzNumber<Seq<char>>| SfzOpcode::FilegRelease(v)))
    } else if name == "fileg_depth"@ {
        Some(mapped(number_of(val, None), |v: SfzNumber<Seq<char>>| SfzOpcode::FilegDepth(v)))
    } else if name == "pitchlfo_freq"@ {
        Some(mapped(number_of(val, None), |v: SfzNumber<Seq<char>>| SfzOpcode::PitchLfoFreq(v)))
    } else if name == "pitchlfo_depth"@ {
        Some(mapped(number_of(val, None), |v: SfzNumber<Seq<char>>| SfzOpcode::PitchLfoDepth(v)))
    } else {
        None
    }
}

fn parse_fraction_opcode(name: &Vec<char>, val: &str) -> (r: Option<Option<SfzOpcode>>)
    ensures
        r.deep_view() == fraction_opcode(name@, val@),
{
    if spells(name, "loop_crossfade") || spells(name, "loopcrossfade") {
        Some(match parse_number(val, None) {
            Some(v) => Some(SfzOpcode::LoopCrossfade(v)),
            None => None,
        })
    } else if spells(name, "amplfo_freq") {
        Some(match parse_number(val, None) {
            Some(v) => Some(SfzOpcode::AmpLfoFreq(v)),
            None => None,
        })
    } else if spells(name, "amplfo_depth") {
        Some(match parse_number(val, None) {
            Some(v) => Some(SfzOpcode::AmpLfoDepth(v)),
            None => None,
        })
    } else if spells(name, "fillfo_freq") {
        Some(match parse_number(val, None) {
            Some(v) => Some(SfzOpcode::FilLfoFreq(v)),
            None => None,
        })
    } else if spells(name, "fillfo_depth") {
        Some(match parse_number(val, None) {
            Some(v) => Some(SfzOpcode::FilLfoDepth(v)),
            None => None,
        })
    } else if spells(name, "panlfo_freq") {
        Some(match parse_number(val, None) {
            Some(v) => Some(SfzOpcode::PanLfoFreq(v)),
            None => None,
        })
    } else if spells(name, "panlfo_depth") {
        Some(match parse_number(val, None) {
            Some(v) => Some(SfzOpcode::PanLfoDepth(v)),
            None => None,
        })
    } else if spells(name, "fileg_attack") {
        Some(match parse_number(val, None) {
            Some(v) => Some(SfzOpcode::FilegAttack(v)),
            None => None,
        })
    } else if spells(name, "fileg_decay") {
        Some(match parse_number(val, None) {
            Some(v) => Some(SfzOpcode::FilegDecay(v)),
            None => None,
        })
    } else if spells(name, "fileg_sustain") {
        Some(match parse_number(val, None) {
            Some(v) => Some(SfzOpcode::FilegSustain(v)),
            None => None,
        })
    } else if spells(name, "fileg_release") {
        Some(match parse_number(val, None) {
            Some(v) => Some(SfzOpcode::FilegRelease(v)),
            None => None,
        })
    } else if spells(name, "fileg_depth") {
        Some(match parse_number(val, None) {
            Some(v) => Some(SfzOpcode::FilegDepth(v)),
            None => None,
        })
    } else if spells(name, "pitchlfo_freq") {
        Some(match parse_number(val, None) {
            Some(v) => Some(SfzOpcode::PitchLfoFreq(v)),
            None => None,
        })
    } else if spells(name, "pitchlfo_depth") {
        Some(match parse_number(val, None) {
            Some(v) => Some(SfzOpcode::PitchLfoDepth(v)),
            None => None,
        })
    } else {
        None
    }
}

/// The opcodes whose value is a word or a path; in a path `\\` is read as `/`. `None` where
/// the name is no such opcode.
pub open spec fn word_opcode(
    name: Seq<char>,
    val: Seq<char>,
) -> Option<Option<SfzOpcode<Seq<char>>>> {
    if name == "fil_type"@ {
        Some(mapped(filter_kind(val), |v: FilterType| SfzOpcode::FilterType(v)))
    } else if name == "loop_mode"@ || name == "loopmode"@ {
        Some(mapped(loop_mode_named(val), |v: LoopMode| SfzOpcode::LoopMode(v)))
    } else if name == "trigger"@ {
        Some(mapped(trigger_named(val), |v: TriggerType| SfzOpcode::Trigger(v)))
    } else if name == "xf_cccurve"@ {
        Some(mapped(xf_curve_named(val), |v: XfCurve| SfzOpcode::XfCcCurve(v)))
    } else if name == "default_path"@ || name == "prefix_sfz_path"@ {
        Some(Some(SfzOpcode::DefaultPath(replaced(val, '\\', '/'))))
    } else if name == "sample"@ {
        Some(Some(SfzOpcode::Sample(replaced(val, '\\', '/'))))
    } else {
        None
    }
}

fn parse_word_opcode(name: &Vec<char>, val: &str) -> (r: Option<Option<SfzOpcode>>)
    ensures
        r.deep_view() == word_opcode(name@, val@),
{
    if spells(name, "fil_type") {
        Some(match parse_filter_kind(val) {
            Some(v) => Some(SfzOpcode::FilterType(v)),
            None => None,
        })
    } else if spells(name, "loop_mode") || spells(name, "loopmode") {
        Some(match parse_loop_mode(val) {
            Some(v) => Some(SfzOpcode::LoopMode(v)),
            None => None,
        })
    } else if spells(name, "trigger") {
        Some(match parse_trigger(val) {
            Some(v) => Some(SfzOpcode::Trigger(v)),
            None => None,
        })
    } else if spells(name, "xf_cccurve") {
        Some(match parse_xf_curve(val) {
            Some(v) => Some(SfzOpcode::XfCcCurve(v)),
            None => None,
        })
    } else if spells(name, "default_path") || spells(name, "prefix_sfz_path") {
        Some(Some(SfzOpcode::DefaultPath(replace_char(&chars_of(val), '\\', '/'))))
    } else if spells(name, "sample") {
        Some(Some(SfzOpcode::Sample(replace_char(&chars_of(val), '\\', '/'))))
    } else {
        None
    }
}

fn parse_xf_curve(val: &str) -> (r: Option<XfCurve>)
    ensures
        r == xf_curve_named(val@),
{
    let v = chars_of(val);
    if spells(&v, "gain") {
        Some(XfCurve::Gain)
    } else if spells(&v, "power") {
        Some(XfCurve::Power)
    } else {
        None
    }
}

/// The envelope stage that the base of an `_oncc` name stands for.
pub open spec fn ampeg_base_named(base: Seq<char>) -> Option<AriaOnccBase> {
    if base == "ampeg_attack"@ {
        Some(AriaOnccBase::AmpegAttack)
    } else if base == "ampeg_hold"@ {
        Some(AriaOnccBase::AmpegHold)
    } else if base == "ampeg_decay"@ {
        Some(AriaOnccBase::AmpegDecay)
    } else if base == "ampeg_sustain"@ {
        Some(AriaOnccBase::AmpegSustain)
    } else if base == "ampeg_release"@ || base == "ampeg_releasecc"@ {
        Some(AriaOnccBase::AmpegRelease)
    } else if base == "ampeg_delay"@ {
        Some(AriaOnccBase::AmpegDelay)
    } else if base == "ampeg_start"@ {
        Some(AriaOnccBase::AmpegStart)
    } else {
        None
    }
}

fn parse_ampeg_base(base: &Vec<char>) -> (r: Option<AriaOnccBase>)
    ensures
        r == ampeg_base_named(base@),
{
    if spells(base, "ampeg_attack") {
        Some(AriaOnccBase::AmpegAttack)
    } else if spells(base, "ampeg_hold") {
        Some(AriaOnccBase::AmpegHold)
    } else if spells(base, "ampeg_decay") {
        Some(AriaOnccBase::AmpegDecay)
    } else if spells(base, "ampeg_sustain") {
        Some(AriaOnccBase::AmpegSustain)
    } else if spells(base, "ampeg_release") || spells(base, "ampeg_releasecc") {
        Some(AriaOnccBase::AmpegRelease)
    } else if spells(base, "ampeg_delay") {
        Some(AriaOnccBase::AmpegDelay)
    } else if spells(base, "ampeg_start") {
        Some(AriaOnccBase::AmpegStart)
    } else {
        None
    }
}

/// The binding of controller `cc` that an `_oncc` opcode with the given base
/// makes. Controllers from 128 on can never move while the instrument plays,
/// so only the envelope stages, whose contribution is also fixed at load, may
/// be bound to one.
pub open spec fn oncc_binding(base: Seq<char>, cc: u8, v: SfzNumber<Seq<char>>) -> Option<
    SfzOpcode<Seq<char>>,
> {
    if cc >= 128 && ampeg_base_named(base) is None {
        None
    } else if base == "volume"@ {
        Some(SfzOpcode::VolumeOncc(cc, v))
    } else if base == "cutoff"@ {
        Some(SfzOpcode::CutoffOncc(cc, v))
    } else if base == "resonance"@ {
        Some(SfzOpcode::ResonanceOncc(cc, v))
    } else if base == "pan"@ {
        Some(SfzOpcode::PanOncc(cc, v))
    } else if base == "tune"@ {
        Some(SfzOpcode::TuneOncc(cc, v))
    } else if base == "amplfo_freq"@ {
        Some(SfzOpcode::AmpLfoFreqOncc(cc, v))
    } else if base == "amplfo_depth"@ {
        Some(SfzOpcode::AmpLfoDepthOncc(cc, v))
    } else if base == "fillfo_freq"@ {
        Some(SfzOpcode::FilLfoFreqOncc(cc, v))
    } else if base == "fillfo_depth"@ {
        Some(SfzOpcode::FilLfoDepthOncc(cc, v))
    } else if base == "panlfo_freq"@ {
        Some(SfzOpcode::PanLfoFreqOncc(cc, v))
    } else if base == "panlfo_depth"@ {
        Some(SfzOpcode::PanLfoDepthOncc(cc, v))
    } else if base == "pitchlfo_freq"@ {
        Some(SfzOpcode::PitchLfoFreqOncc(cc, v))
    } else if base == "pitchlfo_depth"@ {
        Some(SfzOpcode::PitchLfoDepthOncc(cc, v))
    } else {
        mapped(
            ampeg_base_named(base),
            |stage: AriaOnccBase| SfzOpcode::AriaOncc { base: stage, cc, value: v },
        )
    }
}

fn bind_oncc(base: &Vec<char>, cc: u8, v: SfzNumber) -> (r: Option<SfzOpcode>)
    ensures
        r.deep_view() == oncc_binding(base@, cc, v.deep_view()),
{
    let stage = parse_ampeg_base(base);
    if cc >= 128 && stage.is_none() {
        None
    } else if spells(base, "volume") {
        Some(SfzOpcode::VolumeOncc(cc, v))
    } else if spells(base, "cutoff") {
        Some(SfzOpcode::CutoffOncc(cc, v))
    } else if spells(base, "resonance") {
        Some(SfzOpcode::ResonanceOncc(cc, v))
    } else if spells(base, "pan") {
        Some(SfzOpcode::PanOncc(cc, v))
    } else if spells(base, "tune") {
        Some(SfzOpcode::TuneOncc(cc, v))
    } else if spells(base, "amplfo_freq") {
        Some(SfzOpcode::AmpLfoFreqOncc(cc, v))
    } else if spells(base, "amplfo_depth") {
        Some(SfzOpcode::AmpLfoDepthOncc(cc, v))
    } else if spells(base, "fillfo_freq") {
        Some(SfzOpcode::FilLfoFreqOncc(cc, v))
    } else if spells(base, "fillfo_depth") {
        Some(SfzOpcode::FilLfoDepthOncc(cc, v))
    } else if spells(base, "panlfo_freq") {
        Some(SfzOpcode::PanLfoFreqOncc(cc, v))
    } else if spells(base, "panlfo_depth") {
        Some(SfzOpcode::PanLfoDepthOncc(cc, v))
    } else if spells(base, "pitchlfo_freq") {
        Some(SfzOpcode::PitchLfoFreqOncc(cc, v))
    } else if spells(base, "pitchlfo_depth") {
        Some(SfzOpcode::PitchLfoDepthOncc(cc, v))
    } else {
        match stage {
            Some(stage) => Some(SfzOpcode::AriaOncc { base: stage, cc, value: v }),
            None => None,
        }
    }
}

/// The curve binding of controller `cc` that a `_curvecc` opcode makes.
pub open spec fn curvecc_binding(base: Seq<char>, cc: u8, id: u8) -> Option<SfzOpcode<Seq<char>>> {
    if cc >= 128 {
        None
    } else if base == "volume"@ {
        Some(SfzOpcode::VolumeCurvecc(cc, id))
    } else if base == "cutoff"@ {
        Some(SfzOpcode::CutoffCurvecc(cc, id))
    } else if base == "resonance"@ {
        Some(SfzOpcode::ResonanceCurvecc(cc, id))
    } else if base == "pan"@ {
        Some(SfzOpcode::PanCurvecc(cc, id))
    } else {
        None
    }
}

fn bind_curvecc(base: &Vec<char>, cc: u8, id: u8) -> (r: Option<SfzOpcode>)
    ensures
        r.deep_view() == curvecc_binding(base@, cc, id),
{
    if cc >= 128 {
        None
    } else if spells(base, "volume") {
        Some(SfzOpcode::VolumeCurvecc(cc, id))
    } else if spells(base, "cutoff") {
        Some(SfzOpcode::CutoffCurvecc(cc, id))
    } else if spells(base, "resonance") {
        Some(SfzOpcode::ResonanceCurvecc(cc, id))
    } else if spells(base, "pan") {
        Some(SfzOpcode::PanCurvecc(cc, id))
    } else {
        None
    }
}

/// The number that a text writes in the range of `u8`.
pub open spec fn byte_of(s: Seq<char>) -> Option<u8> {
    mapped(integer_within(s, 0, 255), |v: int| v as u8)
}

fn parse_byte(chars: &Vec<char>) -> (r: Option<u8>)
    ensures
        r == byte_of(chars@),
{
    match parse_integer(chars, 0, 255) {
        Some(v) => Some(v as u8),
        None => None,
    }
}

/// A controller value, which is at most 127.
pub open spec fn at_most_127(v: u8) -> u8 {
    if v > 127 {
        127
    } else {
        v
    }
}

/// The opcodes that begin with a fixed word and go on with the number of a
/// controller. `None` where the name is no such opcode.
pub open spec fn numbered_opcode(name: Seq<char>, val: Seq<char>) -> Option<
    Option<SfzOpcode<Seq<char>>>,
> {
    if after_prefix(name, "set_hdcc"@) is Some {
        Some(
            match (byte_of(after_prefix(name, "set_hdcc"@)->0), number_of(val, Some((0, 1)))) {
                (Some(n), Some(v)) => Some(SfzOpcode::AriaCcInit(n, CcInit::Unit(v))),
                _ => None,
            },
        )
    } else if after_prefix(name, "set_cc"@) is Some {
        Some(
            match (byte_of(after_prefix(name, "set_cc"@)->0), byte_of(val)) {
                (Some(n), Some(v)) => Some(SfzOpcode::AriaCcInit(n, CcInit::Midi(v))),
                _ => None,
            },
        )
    } else if after_prefix(name, "xfin_locc"@) is Some {
        Some(
            match (byte_of(after_prefix(name, "xfin_locc"@)->0), byte_of(val)) {
                (Some(n), Some(v)) => Some(SfzOpcode::XfInLoCc(n, at_most_127(v))),
                _ => None,
            },
        )
    } else if after_prefix(name, "xfin_hicc"@) is Some {
        Some(
            match (byte_of(after_prefix(name, "xfin_hicc"@)->0), byte_of(val)) {
                (Some(n), Some(v)) => Some(SfzOpcode::XfInHiCc(n, at_most_127(v))),
                _ => None,
            },
        )
    } else if after_prefix(name, "xfout_locc"@) is Some {
        Some(
            match (byte_of(after_prefix(name, "xfout_locc"@)->0), byte_of(val)) {
                (Some(n), Some(v)) => Some(SfzOpcode::XfOutLoCc(n, at_most_127(v))),
                _ => None,
            },
        )
    } else if after_prefix(name, "xfout_hicc"@) is Some {
        Some(
            match (byte_of(after_prefix(name, "xfout_hicc"@)->0), byte_of(val)) {
                (Some(n), Some(v)) => Some(SfzOpcode::XfOutHiCc(n, at_most_127(v))),
                _ => None,
            },
        )
    } else if after_prefix(name, "locc"@) is Some {
        Some(
            match (byte_of(after_prefix(name, "locc"@)->0), byte_of(val)) {
                (Some(n), Some(v)) => Some(SfzOpcode::LoCc(n, at_most_127(v))),
                _ => None,
            },
        )
    } else if after_prefix(name, "hicc"@) is Some {
        Some(
            match (byte_of(after_prefix(name, "hicc"@)->0), byte_of(val)) {
                (Some(n), Some(v)) => Some(SfzOpcode::HiCc(n, at_most_127(v))),
                _ => None,
            },
        )
    } else {
        None
    }
}

fn low(v: u8) -> (r: u8)
    ensures
        r == at_most_127(v),
{
    if v > 127 {
        127
    } else {
        v
    }
}

fn parse_numbered_opcode(name: &Vec<char>, val: &str) -> (r: Option<Option<SfzOpcode>>)
    ensures
        r.deep_view() == numbered_opcode(name@, val@),
{
    if let Some(rest) = strip_prefix(name, "set_hdcc") {
        return Some(
            match (parse_byte(&rest), parse_float_in_range(val, 0, 1)) {
                (Some(n), Some(v)) => Some(SfzOpcode::AriaCcInit(n, CcInit::Unit(v))),
                _ => None,
            },
        );
    }
    let v = parse_byte(&chars_of(val));
    if let Some(rest) = strip_prefix(name, "set_cc") {
        return Some(
            match (parse_byte(&rest), v) {
                (Some(n), Some(v)) => Some(SfzOpcode::AriaCcInit(n, CcInit::Midi(v))),
                _ => None,
            },
        );
    }
    if let Some(rest) = strip_prefix(name, "xfin_locc") {
        return Some(
            match (parse_byte(&rest), v) {
                (Some(n), Some(v)) => Some(SfzOpcode::XfInLoCc(n, low(v))),
                _ => None,
            },
        );
    }
    if let Some(rest) = strip_prefix(name, "xfin_hicc") {
        return Some(
            match (parse_byte(&rest), v) {
                (Some(n), Some(v)) => Some(SfzOpcode::XfInHiCc(n, low(v))),
                _ => None,
            },
        );
    }
    if let Some(rest) = strip_prefix(name, "xfout_locc") {
        return Some(
            match (parse_byte(&rest), v) {
                (Some(n), Some(v)) => Some(SfzOpcode::XfOutLoCc(n, low(v))),
                _ => None,
            },
        );
    }
    if let Some(rest) = strip_prefix(name, "xfout_hicc") {
        return Some(
            match (parse_byte(&rest), v) {
                (Some(n), Some(v)) => Some(SfzOpcode::XfOutHiCc(n, low(v))),
                _ => None,
            },
        );
    }
    if let Some(rest) = strip_prefix(name, "locc") {
        return Some(
            match (parse_byte(&rest), v) {
                (Some(n), Some(v)) => Some(SfzOpcode::LoCc(n, low(v))),
                _ => None,
            },
        );
    }
    if let Some(rest) = strip_prefix(name, "hicc") {
        return Some(
            match (parse_byte(&rest), v) {
                (Some(n), Some(v)) => Some(SfzOpcode::HiCc(n, low(v))),
                _ => None,
            },
        );
    }
    None
}

/// The opcodes whose name is a word from a fixed list.
pub open spec fn named_opcode(name: Seq<char>, val: Seq<char>) -> Option<SfzOpcode<Seq<char>>> {
    if key_opcode(name, val) is Some {
        key_opcode(name, val)->0
    } else if integer_opcode(name, val) is Some {
        integer_opcode(name, val)->0
    } else if ranged_opcode(name, val) is Some {
        ranged_opcode(name, val)->0
    } else if fraction_opcode(name, val) is Some {
        fraction_opcode(name, val)->0
    } else if word_opcode(name, val) is Some {
        word_opcode(name, val)->0
    } else {
        None
    }
}

fn parse_named_opcode(name: &Vec<char>, val: &str) -> (r: Option<SfzOpcode>)
    ensures
        r.deep_view() == named_opcode(name@, val@),
{
    if let Some(opcode) = parse_key_opcode(name, val) {
        return opcode;
    }
    if let Some(opcode) = parse_integer_opcode(name, val) {
        return opcode;
    }
    if let Some(opcode) = parse_ranged_opcode(name, val) {
        return opcode;
    }
    if let Some(opcode) = parse_fraction_opcode(name, val) {
        return opcode;
    }
    if let Some(opcode) = parse_word_opcode(name, val) {
        return opcode;
    }
    None
}

/// The point of a curve table that `name` stands for: `v` and a number of at
/// most 127.
pub open spec fn curve_point_named(name: Seq<char>) -> Option<int> {
    if name.len() >= 2 && name[0] == 'v' && all_digits(name.skip(1)) {
        integer_within(name.skip(1), 0, 127)
    } else {
        None
    }
}

fn parse_curve_point(name: &Vec<char>) -> (r: Option<u8>)
    ensures
        r is Some <==> curve_point_named(name@) is Some,
        r matches Some(n) ==> curve_point_named(name@) == Some(n as int) && n <= 127,
{
    if name.len() < 2 || name[0] != 'v' {
        return None;
    }
    let rest = slice_of(name, 1, name.len());
    assert(rest@ =~= name@.skip(1));
    let mut i: usize = 0;
    while i < rest.len()
        invariant
            i <= rest.len(),
            rest@ == name@.skip(1),
            forall|j: int| 0 <= j < i ==> is_digit(#[trigger] rest@[j]),
        decreases rest.len() - i,
    {
        if !digit(rest[i]) {
            assert(!all_digits(name@.skip(1)));
            return None;
        }
        i = i + 1;
    }
    match parse_integer(&rest, 0, 127) {
        Some(n) => Some(n as u8),
        None => None,
    }
}

/// What an opcode with the given name and value means, `None` where the library
/// has no use for it or cannot read its value.
pub open spec fn opcode_of(name: Seq<char>, val: Seq<char>) -> Option<SfzOpcode<Seq<char>>> {
    let oncc = first_position(name, "_oncc"@);
    let curvecc = first_position(name, "_curvecc"@);
    if numbered_opcode(name, val) is Some {
        numbered_opcode(name, val)->0
    } else if oncc is Some {
        match (byte_of(name.skip(oncc->0 + "_oncc"@.len())), number_of(val, None)) {
            (Some(cc), Some(v)) => oncc_binding(name.take(oncc->0), cc, v),
            _ => None,
        }
    } else if curvecc is Some {
        match (byte_of(name.skip(curvecc->0 + "_curvecc"@.len())), byte_of(val)) {
            (Some(cc), Some(id)) => curvecc_binding(name.take(curvecc->0), cc, id),
            _ => None,
        }
    } else if name == "index"@ {
        mapped(byte_of(val), |id: u8| SfzOpcode::CurveIndex(id))
    } else if curve_point_named(name) is Some && is_fraction(val) {
        Some(
            SfzOpcode::CurvePoint(
                curve_point_named(name)->0 as u8,
                SfzNumber { text: val, clamp: None },
            ),
        )
    } else {
        named_opcode(name, val)
    }
}

/// Reads an opcode from its name and its value.
pub fn parse_sfz_opcode(name: &str, val: &str) -> (r: Option<SfzOpcode>)
    ensures
        r.deep_view() == opcode_of(name@, val@),
{
    let name = chars_of(name);
    if let Some(opcode) = parse_numbered_opcode(&name, val) {
        return opcode;
    }
    if let Some(at) = find(&name, "_oncc") {
        let width = chars_of("_oncc").len();
        let base = slice_of(&name, 0, at);
        let cc_part = slice_of(&name, at + width, name.len());
        assert(base@ =~= name@.take(at as int));
        assert(cc_part@ =~= name@.skip(at + width));
        return match (parse_byte(&cc_part), parse_number(val, None)) {
            (Some(cc), Some(v)) => bind_oncc(&base, cc, v),
            _ => None,
        };
    }
    if let Some(at) = find(&name, "_curvecc") {
        let width = chars_of("_curvecc").len();
        let base = slice_of(&name, 0, at);
        let cc_part = slice_of(&name, at + width, name.len());
        assert(base@ =~= name@.take(at as int));
        assert(cc_part@ =~= name@.skip(at + width));
        return match (parse_byte(&cc_part), parse_byte(&chars_of(val))) {
            (Some(cc), Some(id)) => bind_curvecc(&base, cc, id),
            _ => None,
        };
    }
    if spells(&name, "index") {
        return match parse_byte(&chars_of(val)) {
            Some(id) => Some(SfzOpcode::CurveIndex(id)),
            None => None,
        };
    }
    if let Some(n) = parse_curve_point(&name) {
        if let Some(v) = parse_number(val, None) {
            return Some(SfzOpcode::CurvePoint(n, v));
        }
    }
    parse_named_opcode(&name, val)
}

} // verus!
