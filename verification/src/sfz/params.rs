//! The finished regions of an SFZ instrument.

use super::parse::{at_most_127, clamped, CcInit, SfzNumber, XfCurve};
use super::region::{
    entry, place, AmpegEnvelopeParams, RegionModel, RegionParamsBuilder, TriggerType,
};
use super::settings::{setting, NumberSetting, Setting, Value, WholeSetting};
use crate::path::{join_path, joined};
use crate::{FilterType, LoopMode};
use std::ops::RangeInclusive;
use std::sync::Arc;
use vstd::prelude::*;

verus! {

/// The amplitude that a controller crossfade leaves a region.
#[derive(Debug, Clone, Copy, PartialEq, Eq, Structural)]
pub enum XfFactor {
    Silent,
    Full,
    /// The fraction `num / den` of the way, bent by the curve.
    Part { num: u8, den: u8, curve: XfCurve },
}

/// The amplitude of a region that fades in from `lo` to `hi`, at controller value
/// `cc`. A range that ends where it begins, or before, is a step at `lo`, and the
/// range from 0 to 0 is no range at all.
pub open spec fn fade_in(cc: u8, lo: u8, hi: u8, curve: XfCurve) -> XfFactor {
    if lo == 0 && hi == 0 {
        XfFactor::Full
    } else if hi <= lo {
        if cc >= lo {
            XfFactor::Full
        } else {
            XfFactor::Silent
        }
    } else if cc <= lo {
        XfFactor::Silent
    } else if cc >= hi {
        XfFactor::Full
    } else {
        XfFactor::Part { num: (cc - lo) as u8, den: (hi - lo) as u8, curve }
    }
}

/// The amplitude of a region that fades out from `lo` to `hi`, at controller
/// value `cc`.
pub open spec fn fade_out(cc: u8, lo: u8, hi: u8, curve: XfCurve) -> XfFactor {
    if lo == 0 && hi == 0 {
        XfFactor::Full
    } else if hi <= lo {
        if cc > lo {
            XfFactor::Silent
        } else {
            XfFactor::Full
        }
    } else if cc <= lo {
        XfFactor::Full
    } else if cc >= hi {
        XfFactor::Silent
    } else {
        XfFactor::Part { num: (hi - cc) as u8, den: (hi - lo) as u8, curve }
    }
}

/// The amplitude of a fade-in.
pub fn xfin_factor(cc: u8, lo: u8, hi: u8, curve: XfCurve) -> (r: XfFactor)
    ensures
        r == fade_in(cc, lo, hi, curve),
{
    if hi <= lo {
        if lo == 0 && hi == 0 {
            return XfFactor::Full;
        }
        return if cc >= lo {
            XfFactor::Full
        } else {
            XfFactor::Silent
        };
    }
    if cc <= lo {
        return XfFactor::Silent;
    }
    if cc >= hi {
        return XfFactor::Full;
    }
    XfFactor::Part { num: cc - lo, den: hi - lo, curve }
}

/// The amplitude of a fade-out.
pub fn xfout_factor(cc: u8, lo: u8, hi: u8, curve: XfCurve) -> (r: XfFactor)
    ensures
        r == fade_out(cc, lo, hi, curve),
{
    if hi <= lo {
        if lo == 0 && hi == 0 {
            return XfFactor::Full;
        }
        return if cc > lo {
            XfFactor::Silent
        } else {
            XfFactor::Full
        };
    }
    if cc <= lo {
        return XfFactor::Full;
    }
    if cc >= hi {
        return XfFactor::Silent;
    }
    XfFactor::Part { num: hi - cc, den: hi - lo, curve }
}

/// What of full amplitude a factor is, in parts of `den`, before its curve.
pub open spec fn share(f: XfFactor, den: int) -> int {
    match f {
        XfFactor::Silent => 0,
        XfFactor::Full => den,
        XfFactor::Part { num, den: _, curve: _ } => num as int,
    }
}

/// Over one proper range a fade-in and a fade-out mirror each other: what the one
/// leaves, the other takes, and the two together make up full amplitude.
pub proof fn fades_mirror(cc: u8, lo: u8, hi: u8, curve: XfCurve)
    requires
        lo < hi,
    ensures
        share(fade_in(cc, lo, hi, curve), hi - lo) + share(fade_out(cc, lo, hi, curve), hi - lo)
            == hi - lo,
{
}

/// A fade-in never falls and a fade-out never rises as the controller rises.
pub proof fn fades_are_monotonic(cc: u8, next: u8, lo: u8, hi: u8, curve: XfCurve)
    requires
        cc <= next,
        lo < hi,
    ensures
        share(fade_in(cc, lo, hi, curve), hi - lo) <= share(
            fade_in(next, lo, hi, curve),
            hi - lo,
        ),
        share(fade_out(cc, lo, hi, curve), hi - lo) >= share(
            fade_out(next, lo, hi, curve),
            hi - lo,
        ),
{
}

/// The value of a controller; 0 where nothing sets it.
pub open spec fn level(levels: Seq<(u8, u8)>, cc: u8) -> u8 {
    match entry(levels, cc) {
        Some(v) => v,
        None => 0,
    }
}

/// The value of a controller in a list.
pub fn level_of(levels: &Vec<(u8, u8)>, cc: u8) -> (r: u8)
    ensures
        r == level(levels.deep_view(), cc),
{
    let at = place(levels, cc);
    if at < levels.len() {
        assert(levels.deep_view()[at as int].1 == levels@[at as int].1);
        levels[at].1
    } else {
        0
    }
}

/// Every controller that bounds the region stands within its bounds.
pub open spec fn gates_open(ranges: Seq<(u8, (u8, u8))>, levels: Seq<(u8, u8)>) -> bool {
    forall|i: int|
        0 <= i < ranges.len() ==> {
            let v = level(levels, #[trigger] ranges[i].0);
            ranges[i].1.0 <= v <= ranges[i].1.1
        }
}

/// The factors of all the crossfades of a region: its fade-ins, then its
/// fade-outs.
pub open spec fn factors_of(b: RegionModel, levels: Seq<(u8, u8)>) -> Seq<XfFactor> {
    Seq::new(
        b.xfin_cc.len(),
        |i: int|
            fade_in(
                level(levels, b.xfin_cc[i].0),
                b.xfin_cc[i].1.0,
                b.xfin_cc[i].1.1,
                b.xf_cccurve,
            ),
    ) + Seq::new(
        b.xfout_cc.len(),
        |i: int|
            fade_out(
                level(levels, b.xfout_cc[i].0),
                b.xfout_cc[i].1.0,
                b.xfout_cc[i].1.1,
                b.xf_cccurve,
            ),
    )
}

/// What the crossfades of a region come to.
#[derive(Debug, Clone, Copy, PartialEq, Eq, Structural)]
pub enum XfGain {
    /// So little that the region is not worth keeping.
    Silent,
    /// Full amplitude, or next to it.
    Unchanged,
    /// The volume of the region with the loss taken off.
    Volume(i16),
}

/// What factors come to where none of them lies between silence and full
/// amplitude: nothing as soon as one is silent. A product of fractions is for the
/// caller to work out.
pub open spec fn settled_gain(factors: Seq<XfFactor>) -> Option<XfGain> {
    if factors.contains(XfFactor::Silent) {
        Some(XfGain::Silent)
    } else if forall|i: int| 0 <= i < factors.len() ==> factors[i] == XfFactor::Full {
        Some(XfGain::Unchanged)
    } else {
        None
    }
}

/// What factors come to, where that takes no arithmetic on fractions.
pub fn settle(factors: &Vec<XfFactor>) -> (r: Option<XfGain>)
    ensures
        r == settled_gain(factors@),
{
    let mut all_full = true;
    let mut i: usize = 0;
    while i < factors.len()
        invariant
            i <= factors.len(),
            forall|j: int| 0 <= j < i ==> factors@[j] != XfFactor::Silent,
            all_full <==> forall|j: int| 0 <= j < i ==> factors@[j] == XfFactor::Full,
        decreases factors.len() - i,
    {
        if factors[i] == XfFactor::Silent {
            assert(factors@.contains(XfFactor::Silent));
            return Some(XfGain::Silent);
        }
        if factors[i] != XfFactor::Full {
            all_full = false;
        }
        i = i + 1;
    }
    if all_full {
        Some(XfGain::Unchanged)
    } else {
        None
    }
}

/// The controller value at load, where the file gives it as one.
pub open spec fn level_at_load(init: CcInit) -> Option<u8> {
    match init {
        CcInit::Midi(v) => Some(at_most_127(v)),
        CcInit::Unit(_) => None,
    }
}

/// The file of a sample that the instrument in directory `base` names, which may have a
/// folder for its samples.
pub open spec fn file_named(base: Seq<char>, folder: Option<Seq<char>>, sample: Seq<char>) -> Seq<
    char,
> {
    joined(
        base,
        match folder {
            Some(folder) => joined(folder, sample),
            None => sample,
        },
    )
}

impl CcInit {
    /// The controller value at load, where the file gives it as one.
    pub fn midi_level(&self) -> (r: Option<u8>)
        ensures
            r == level_at_load(*self),
    {
        match self {
            CcInit::Midi(v) => Some(
                if *v > 127 {
                    127
                } else {
                    *v
                },
            ),
            CcInit::Unit(_) => None,
        }
    }
}

/// The curve tables of an instrument: for each table its points, and a point that
/// no entry names is 0.
pub type SfzCurves = Vec<(u8, Vec<(u8, SfzNumber)>)>;

/// The settings of a region of an SFZ instrument.
#[derive(Debug)]
pub struct RegionParams {
    pub velrange: RangeInclusive<u8>,
    pub keyrange: RangeInclusive<i8>,
    pub volume: i16,
    pub sample_path: String,
    pub fil_veltrack: i16,
    pub fil_keytrack: i16,
    /// The class of regions that silence each other.
    pub exclusive_class: Option<u8>,
    pub curves: Arc<SfzCurves>,
    pub pitch_keycenter: i8,
    pub pan: i8,
    pub loop_mode: LoopMode,
    pub loop_start: u32,
    pub loop_end: u32,
    pub loop_crossfade: SfzNumber,
    pub amp_lfo_freq: SfzNumber,
    pub amp_lfo_depth: SfzNumber,
    pub amp_lfo_freq_oncc: Vec<(u8, SfzNumber)>,
    pub amp_lfo_depth_oncc: Vec<(u8, SfzNumber)>,
    pub fil_lfo_freq: SfzNumber,
    pub fil_lfo_depth: SfzNumber,
    pub fil_lfo_freq_oncc: Vec<(u8, SfzNumber)>,
    pub fil_lfo_depth_oncc: Vec<(u8, SfzNumber)>,
    pub pan_lfo_freq: SfzNumber,
    pub pan_lfo_depth: SfzNumber,
    pub pan_lfo_freq_oncc: Vec<(u8, SfzNumber)>,
    pub pan_lfo_depth_oncc: Vec<(u8, SfzNumber)>,
    pub fileg_attack: SfzNumber,
    pub fileg_decay: SfzNumber,
    pub fileg_sustain: SfzNumber,
    pub fileg_release: SfzNumber,
    pub fileg_depth: SfzNumber,
    pub fileg_curve: Option<u8>,
    pub pitch_lfo_freq: SfzNumber,
    pub pitch_lfo_depth: SfzNumber,
    pub pitch_lfo_freq_oncc: Vec<(u8, SfzNumber)>,
    pub pitch_lfo_depth_oncc: Vec<(u8, SfzNumber)>,
    pub offset: u32,
    pub cutoff: Option<SfzNumber>,
    pub resonance: SfzNumber,
    pub amp_veltrack: SfzNumber,
    pub amp_keycenter: i8,
    pub amp_keytrack: SfzNumber,
    pub pan_veltrack: SfzNumber,
    pub pan_keycenter: i8,
    pub pan_keytrack: SfzNumber,
    pub fil_keycenter: i8,
    pub filter_type: FilterType,
    pub ampeg_envelope: AmpegEnvelopeParams,
    pub tune: i16,
    pub trigger: TriggerType,
    pub polyphony: Option<u32>,
    pub seq_length: u32,
    pub seq_position: u32,
    pub volume_oncc: Vec<(u8, SfzNumber)>,
    pub cutoff_oncc: Vec<(u8, SfzNumber)>,
    pub resonance_oncc: Vec<(u8, SfzNumber)>,
    pub pan_oncc: Vec<(u8, SfzNumber)>,
    pub ampeg_attack_oncc: Vec<(u8, (SfzNumber, CcInit))>,
    pub ampeg_decay_oncc: Vec<(u8, (SfzNumber, CcInit))>,
    pub ampeg_sustain_oncc: Vec<(u8, (SfzNumber, CcInit))>,
    pub ampeg_release_oncc: Vec<(u8, (SfzNumber, CcInit))>,
    pub tune_oncc: Vec<(u8, SfzNumber)>,
    pub volume_curvecc: Vec<(u8, u8)>,
    pub cutoff_curvecc: Vec<(u8, u8)>,
    pub resonance_curvecc: Vec<(u8, u8)>,
    pub pan_curvecc: Vec<(u8, u8)>,
    pub sw_last: Option<i8>,
    pub sw_default: Option<i8>,
    pub sw_lokey: Option<i8>,
    pub sw_hikey: Option<i8>,
}

/// The class of a region that both belongs to a choke group and silences that
/// same group. Any other pairing has no class.
pub open spec fn class_of(off_by: Option<u32>, group: Option<u32>) -> Option<u8> {
    match (off_by, group) {
        (Some(o), Some(g)) => if o == g {
            Some((o % 256) as u8)
        } else {
            None
        },
        _ => None,
    }
}

/// `p` is the region that the settings `b` describe.
pub open spec fn describes(
    p: RegionParams,
    b: RegionParamsBuilder,
    gain: XfGain,
    sample_path: String,
    curves: Arc<SfzCurves>,
) -> bool {
    &&& p.velrange@.start == b.lovel && p.velrange@.end == b.hivel && !p.velrange@.exhausted
    &&& p.keyrange@.start == b.lokey && p.keyrange@.end == b.hikey && !p.keyrange@.exhausted
    &&& p.volume == (match gain {
        XfGain::Volume(v) => v,
        _ => b.volume,
    })
    &&& p.sample_path == sample_path
    &&& p.fil_veltrack == clamped(b.fil_veltrack as int, -9600, 9600)
    &&& p.fil_keytrack == clamped(b.fil_keytrack as int, 0, 1200)
    &&& p.exclusive_class == class_of(b.choke_off_by, b.choke_group)
    &&& p.curves == curves
    &&& p.pitch_keycenter == b.pitch_keycenter
    &&& p.pan == b.pan
    &&& p.loop_mode == b.loop_mode
    &&& p.loop_start == b.loop_start
    &&& p.loop_end == b.loop_end
    &&& p.loop_crossfade == b.loop_crossfade
    &&& p.amp_lfo_freq == b.amp_lfo_freq
    &&& p.amp_lfo_depth == b.amp_lfo_depth
    &&& p.amp_lfo_freq_oncc == b.amp_lfo_freq_oncc
    &&& p.amp_lfo_depth_oncc == b.amp_lfo_depth_oncc
    &&& p.fil_lfo_freq == b.fil_lfo_freq
    &&& p.fil_lfo_depth == b.fil_lfo_depth
    &&& p.fil_lfo_freq_oncc == b.fil_lfo_freq_oncc
    &&& p.fil_lfo_depth_oncc == b.fil_lfo_depth_oncc
    &&& p.pan_lfo_freq == b.pan_lfo_freq
    &&& p.pan_lfo_depth == b.pan_lfo_depth
    &&& p.pan_lfo_freq_oncc == b.pan_lfo_freq_oncc
    &&& p.pan_lfo_depth_oncc == b.pan_lfo_depth_oncc
    &&& p.fileg_attack == b.fileg_attack
    &&& p.fileg_decay == b.fileg_decay
    &&& p.fileg_sustain == b.fileg_sustain
    &&& p.fileg_release == b.fileg_release
    &&& p.fileg_depth == b.fileg_depth
    &&& p.fileg_curve == b.fileg_curve
    &&& p.pitch_lfo_freq == b.pitch_lfo_freq
    &&& p.pitch_lfo_depth == b.pitch_lfo_depth
    &&& p.pitch_lfo_freq_oncc == b.pitch_lfo_freq_oncc
    &&& p.pitch_lfo_depth_oncc == b.pitch_lfo_depth_oncc
    &&& p.offset == b.offset
    &&& p.cutoff == b.cutoff
    &&& p.resonance == b.resonance
    &&& p.amp_veltrack == b.amp_veltrack
    &&& p.amp_keycenter == b.amp_keycenter
    &&& p.amp_keytrack == b.amp_keytrack
    &&& p.pan_veltrack == b.pan_veltrack
    &&& p.pan_keycenter == b.pan_keycenter
    &&& p.pan_keytrack == b.pan_keytrack
    &&& p.fil_keycenter == b.fil_keycenter
    &&& p.filter_type == b.filter_type
    &&& p.ampeg_envelope == b.ampeg_envelope
    &&& p.tune == b.tune
    &&& p.trigger == b.trigger
    &&& p.polyphony == b.polyphony
    &&& p.seq_length == b.seq_length
    &&& p.seq_position == b.seq_position
    &&& p.volume_oncc == b.volume_oncc
    &&& p.cutoff_oncc == b.cutoff_oncc
    &&& p.resonance_oncc == b.resonance_oncc
    &&& p.pan_oncc == b.pan_oncc
    &&& p.ampeg_attack_oncc == b.ampeg_attack_oncc
    &&& p.ampeg_decay_oncc == b.ampeg_decay_oncc
    &&& p.ampeg_sustain_oncc == b.ampeg_sustain_oncc
    &&& p.ampeg_release_oncc == b.ampeg_release_oncc
    &&& p.tune_oncc == b.tune_oncc
    &&& p.volume_curvecc == b.volume_curvecc
    &&& p.cutoff_curvecc == b.cutoff_curvecc
    &&& p.resonance_curvecc == b.resonance_curvecc
    &&& p.pan_curvecc == b.pan_curvecc
    &&& p.sw_last == b.sw_last
    &&& p.sw_default == b.sw_default
    &&& p.sw_lokey == b.sw_lokey
    &&& p.sw_hikey == b.sw_hikey
}

impl RegionParamsBuilder {
    /// Whether every controller that bounds the region stands within its bounds.
    pub fn passes_gates(&self, levels: &Vec<(u8, u8)>) -> (r: bool)
        ensures
            r == gates_open(self.deep_view().cc_ranges, levels.deep_view()),
    {
        let ghost ranges = self.deep_view().cc_ranges;
        let mut i: usize = 0;
        while i < self.cc_ranges.len()
            invariant
                i <= self.cc_ranges.len(),
                ranges == self.cc_ranges.deep_view(),
                forall|j: int|
                    0 <= j < i ==> {
                        let v = level(levels.deep_view(), #[trigger] ranges[j].0);
                        ranges[j].1.0 <= v <= ranges[j].1.1
                    },
            decreases self.cc_ranges.len() - i,
        {
            let (cc, (lo, hi)) = self.cc_ranges[i];
            assert(ranges[i as int] == (cc, (lo, hi)));
            let v = level_of(levels, cc);
            if v < lo || v > hi {
                assert(ranges[i as int].0 == cc);
                return false;
            }
            i = i + 1;
        }
        true
    }

    /// The factors of all the crossfades of the region.
    pub fn crossfades(&self, levels: &Vec<(u8, u8)>) -> (r: Vec<XfFactor>)
        ensures
            r@ == factors_of(self.deep_view(), levels.deep_view()),
    {
        let ghost b = self.deep_view();
        let ghost all = factors_of(b, levels.deep_view());
        let mut out: Vec<XfFactor> = Vec::new();
        let mut i: usize = 0;
        while i < self.xfin_cc.len()
            invariant
                i <= self.xfin_cc.len(),
                b == self.deep_view(),
                all == factors_of(b, levels.deep_view()),
                out@ == all.take(i as int),
            decreases self.xfin_cc.len() - i,
        {
            let (cc, (lo, hi)) = self.xfin_cc[i];
            assert(b.xfin_cc[i as int] == (cc, (lo, hi)));
            out.push(xfin_factor(level_of(levels, cc), lo, hi, self.xf_cccurve));
            i = i + 1;
            assert(out@ =~= all.take(i as int));
        }
        let mut j: usize = 0;
        while j < self.xfout_cc.len()
            invariant
                i == self.xfin_cc.len(),
                j <= self.xfout_cc.len(),
                b == self.deep_view(),
                all == factors_of(b, levels.deep_view()),
                out@ == all.take(i + j),
            decreases self.xfout_cc.len() - j,
        {
            let (cc, (lo, hi)) = self.xfout_cc[j];
            assert(b.xfout_cc[j as int] == (cc, (lo, hi)));
            out.push(xfout_factor(level_of(levels, cc), lo, hi, self.xf_cccurve));
            j = j + 1;
            assert(out@ =~= all.take(i + j));
        }
        assert(out@ =~= all);
        out
    }

    /// The file of the region's sample, as the instrument in directory
    /// `base_path` names it. `None` where the region names no sample.
    pub fn sample_file(&self, base_path: &str) -> (r: Option<String>)
        ensures
            r is Some <==> self.sample is Some,
            r matches Some(file) ==> file@ == file_named(
                base_path@,
                match self.default_path {
                    Some(folder) => Some(folder@),
                    None => None,
                },
                self.sample->0@,
            ),
    {
        match &self.sample {
            None => None,
            Some(sample) => match &self.default_path {
                Some(folder) => {
                    let relative = join_path(folder, sample);
                    Some(join_path(base_path, &relative))
                },
                None => Some(join_path(base_path, sample)),
            },
        }
    }

    /// Finishes a region. `levels` are the controllers at load, `gain` is what the
    /// crossfades of the region come to, and `sample_path` is where its sample was
    /// found. A region whose controllers bar it, that is silent, or whose sample
    /// is not named or not found is dropped.
    pub fn build(
        self,
        levels: &Vec<(u8, u8)>,
        gain: XfGain,
        sample_path: Option<String>,
        curves: Arc<SfzCurves>,
    ) -> (r: Option<RegionParams>)
        ensures
            r is Some <==> (gates_open(self.deep_view().cc_ranges, levels.deep_view()) && gain
                != XfGain::Silent && self.sample is Some && sample_path is Some),
            r matches Some(p) ==> describes(p, self, gain, sample_path->0, curves),
    {
        if !self.passes_gates(levels) {
            return None;
        }
        let volume: i16 = match gain {
            XfGain::Silent => {
                return None;
            },
            XfGain::Unchanged => self.volume,
            XfGain::Volume(v) => v,
        };
        if self.sample.is_none() {
            return None;
        }
        let sample_path = match sample_path {
            None => {
                return None;
            },
            Some(path) => path,
        };
        let exclusive_class = match (self.choke_off_by, self.choke_group) {
            (Some(o), Some(g)) => if o == g {
                assert(o & 0xff == o % 256) by (bit_vector);
                Some((o & 0xff) as u8)
            } else {
                None
            },
            _ => None,
        };
        let fil_veltrack: i16 = if self.fil_veltrack < -9600 {
            -9600
        } else if self.fil_veltrack > 9600 {
            9600
        } else {
            self.fil_veltrack
        };
        let fil_keytrack: i16 = if self.fil_keytrack < 0 {
            0
        } else if self.fil_keytrack > 1200 {
            1200
        } else {
            self.fil_keytrack
        };
        Some(
            RegionParams {
                velrange: RangeInclusive::new(self.lovel, self.hivel),
                keyrange: RangeInclusive::new(self.lokey, self.hikey),
                volume,
                sample_path,
                fil_veltrack,
                fil_keytrack,
                exclusive_class,
                curves,
                pitch_keycenter: self.pitch_keycenter,
                pan: self.pan,
                loop_mode: self.loop_mode,
                loop_start: self.loop_start,
                loop_end: self.loop_end,
                loop_crossfade: self.loop_crossfade,
                amp_lfo_freq: self.amp_lfo_freq,
                amp_lfo_depth: self.amp_lfo_depth,
                amp_lfo_freq_oncc: self.amp_lfo_freq_oncc,
                amp_lfo_depth_oncc: self.amp_lfo_depth_oncc,
                fil_lfo_freq: self.fil_lfo_freq,
                fil_lfo_depth: self.fil_lfo_depth,
                fil_lfo_freq_oncc: self.fil_lfo_freq_oncc,
                fil_lfo_depth_oncc: self.fil_lfo_depth_oncc,
                pan_lfo_freq: self.pan_lfo_freq,
                pan_lfo_depth: self.pan_lfo_depth,
                pan_lfo_freq_oncc: self.pan_lfo_freq_oncc,
                pan_lfo_depth_oncc: self.pan_lfo_depth_oncc,
                fileg_attack: self.fileg_attack,
                fileg_decay: self.fileg_decay,
                fileg_sustain: self.fileg_sustain,
                fileg_release: self.fileg_release,
                fileg_depth: self.fileg_depth,
                fileg_curve: self.fileg_curve,
                pitch_lfo_freq: self.pitch_lfo_freq,
                pitch_lfo_depth: self.pitch_lfo_depth,
                pitch_lfo_freq_oncc: self.pitch_lfo_freq_oncc,
                pitch_lfo_depth_oncc: self.pitch_lfo_depth_oncc,
                offset: self.offset,
                cutoff: self.cutoff,
                resonance: self.resonance,
                amp_veltrack: self.amp_veltrack,
                amp_keycenter: self.amp_keycenter,
                amp_keytrack: self.amp_keytrack,
                pan_veltrack: self.pan_veltrack,
                pan_keycenter: self.pan_keycenter,
                pan_keytrack: self.pan_keytrack,
                fil_keycenter: self.fil_keycenter,
                filter_type: self.filter_type,
                ampeg_envelope: self.ampeg_envelope,
                tune: self.tune,
                trigger: self.trigger,
                polyphony: self.polyphony,
                seq_length: self.seq_length,
                seq_position: self.seq_position,
                volume_oncc: self.volume_oncc,
                cutoff_oncc: self.cutoff_oncc,
                resonance_oncc: self.resonance_oncc,
                pan_oncc: self.pan_oncc,
                ampeg_attack_oncc: self.ampeg_attack_oncc,
                ampeg_decay_oncc: self.ampeg_decay_oncc,
                ampeg_sustain_oncc: self.ampeg_sustain_oncc,
                ampeg_release_oncc: self.ampeg_release_oncc,
                tune_oncc: self.tune_oncc,
                volume_curvecc: self.volume_curvecc,
                cutoff_curvecc: self.cutoff_curvecc,
                resonance_curvecc: self.resonance_curvecc,
                pan_curvecc: self.pan_curvecc,
                sw_last: self.sw_last,
                sw_default: self.sw_default,
                sw_lokey: self.sw_lokey,
                sw_hikey: self.sw_hikey,
            },
        )
    }
}

/// A region that is built plays with the settings that the file gives it, setting by setting.
#[verifier::rlimit(50)]
pub proof fn built_regions_keep_their_settings(
    p: RegionParams,
    b: RegionParamsBuilder,
    gain: XfGain,
    sample_path: String,
    curves: Arc<SfzCurves>,
)
    requires
        describes(p, b, gain, sample_path, curves),
    ensures
        ({
            let m = b.deep_view();
            &&& setting(m, Setting::Whole(WholeSetting::PitchKeycenter)) == Value::Whole(p.pitch_keycenter as int)
            &&& setting(m, Setting::Whole(WholeSetting::Pan)) == Value::Whole(p.pan as int)
            &&& setting(m, Setting::Whole(WholeSetting::LoopStart)) == Value::Whole(p.loop_start as int)
            &&& setting(m, Setting::Whole(WholeSetting::LoopEnd)) == Value::Whole(p.loop_end as int)
            &&& setting(m, Setting::Whole(WholeSetting::Offset)) == Value::Whole(p.offset as int)
            &&& setting(m, Setting::Whole(WholeSetting::AmpKeycenter)) == Value::Whole(p.amp_keycenter as int)
            &&& setting(m, Setting::Whole(WholeSetting::PanKeycenter)) == Value::Whole(p.pan_keycenter as int)
            &&& setting(m, Setting::Whole(WholeSetting::FilKeycenter)) == Value::Whole(p.fil_keycenter as int)
            &&& setting(m, Setting::Whole(WholeSetting::Tune)) == Value::Whole(p.tune as int)
            &&& setting(m, Setting::Whole(WholeSetting::SeqLength)) == Value::Whole(p.seq_length as int)
            &&& setting(m, Setting::Whole(WholeSetting::SeqPosition)) == Value::Whole(p.seq_position as int)
            &&& p.fileg_curve is None ==> setting(m, Setting::Whole(WholeSetting::FilegCurve)) is Unset
            &&& p.fileg_curve matches Some(v) ==> setting(m, Setting::Whole(WholeSetting::FilegCurve))
                == Value::Whole(v as int)
            &&& p.polyphony is None ==> setting(m, Setting::Whole(WholeSetting::Polyphony)) is Unset
            &&& p.polyphony matches Some(v) ==> setting(m, Setting::Whole(WholeSetting::Polyphony))
                == Value::Whole(v as int)
            &&& p.sw_last is None ==> setting(m, Setting::Whole(WholeSetting::SwLast)) is Unset
            &&& p.sw_last matches Some(v) ==> setting(m, Setting::Whole(WholeSetting::SwLast))
                == Value::Whole(v as int)
            &&& p.sw_default is None ==> setting(m, Setting::Whole(WholeSetting::SwDefault)) is Unset
            &&& p.sw_default matches Some(v) ==> setting(m, Setting::Whole(WholeSetting::SwDefault))
                == Value::Whole(v as int)
            &&& p.sw_lokey is None ==> setting(m, Setting::Whole(WholeSetting::SwLokey)) is Unset
            &&& p.sw_lokey matches Some(v) ==> setting(m, Setting::Whole(WholeSetting::SwLokey))
                == Value::Whole(v as int)
            &&& p.sw_hikey is None ==> setting(m, Setting::Whole(WholeSetting::SwHikey)) is Unset
            &&& p.sw_hikey matches Some(v) ==> setting(m, Setting::Whole(WholeSetting::SwHikey))
                == Value::Whole(v as int)
            &&& setting(m, Setting::Number(NumberSetting::LoopCrossfade)) == Value::Number(
                p.loop_crossfade.deep_view(),
            )
            &&& setting(m, Setting::Number(NumberSetting::AmpLfoFreq)) == Value::Number(
                p.amp_lfo_freq.deep_view(),
            )
            &&& setting(m, Setting::Number(NumberSetting::AmpLfoDepth)) == Value::Number(
                p.amp_lfo_depth.deep_view(),
            )
            &&& setting(m, Setting::Number(NumberSetting::FilLfoFreq)) == Value::Number(
                p.fil_lfo_freq.deep_view(),
            )
            &&& setting(m, Setting::Number(NumberSetting::FilLfoDepth)) == Value::Number(
                p.fil_lfo_depth.deep_view(),
            )
            &&& setting(m, Setting::Number(NumberSetting::PanLfoFreq)) == Value::Number(
                p.pan_lfo_freq.deep_view(),
            )
            &&& setting(m, Setting::Number(NumberSetting::PanLfoDepth)) == Value::Number(
                p.pan_lfo_depth.deep_view(),
            )
            &&& setting(m, Setting::Number(NumberSetting::PitchLfoFreq)) == Value::Number(
                p.pitch_lfo_freq.deep_view(),
            )
            &&& setting(m, Setting::Number(NumberSetting::PitchLfoDepth)) == Value::Number(
                p.pitch_lfo_depth.deep_view(),
            )
            &&& setting(m, Setting::Number(NumberSetting::FilegAttack)) == Value::Number(
                p.fileg_attack.deep_view(),
            )
            &&& setting(m, Setting::Number(NumberSetting::FilegDecay)) == Value::Number(
                p.fileg_decay.deep_view(),
            )
            &&& setting(m, Setting::Number(NumberSetting::FilegSustain)) == Value::Number(
                p.fileg_sustain.deep_view(),
            )
            &&& setting(m, Setting::Number(NumberSetting::FilegRelease)) == Value::Number(
                p.fileg_release.deep_view(),
            )
            &&& setting(m, Setting::Number(NumberSetting::FilegDepth)) == Value::Number(
                p.fileg_depth.deep_view(),
            )
            &&& setting(m, Setting::Number(NumberSetting::Resonance)) == Value::Number(
                p.resonance.deep_view(),
            )
            &&& setting(m, Setting::Number(NumberSetting::AmpVeltrack)) == Value::Number(
                p.amp_veltrack.deep_view(),
            )
            &&& setting(m, Setting::Number(NumberSetting::AmpKeytrack)) == Value::Number(
                p.amp_keytrack.deep_view(),
            )
            &&& setting(m, Setting::Number(NumberSetting::PanVeltrack)) == Value::Number(
                p.pan_veltrack.deep_view(),
            )
            &&& setting(m, Setting::Number(NumberSetting::PanKeytrack)) == Value::Number(
                p.pan_keytrack.deep_view(),
            )
            &&& p.cutoff is None ==> setting(m, Setting::Number(NumberSetting::Cutoff)) is Unset
            &&& p.cutoff matches Some(v) ==> setting(m, Setting::Number(NumberSetting::Cutoff))
                == Value::Number(v.deep_view())
            &&& setting(m, Setting::LoopMode) == Value::LoopMode(p.loop_mode)
            &&& setting(m, Setting::FilterType) == Value::FilterType(p.filter_type)
            &&& setting(m, Setting::Trigger) == Value::Trigger(p.trigger)
        }),
{
}

/// A region that is built is moved by the controllers that the file binds, along the curves that
/// it names.
#[verifier::rlimit(50)]
pub proof fn built_regions_keep_their_bindings(
    p: RegionParams,
    b: RegionParamsBuilder,
    gain: XfGain,
    sample_path: String,
    curves: Arc<SfzCurves>,
)
    requires
        describes(p, b, gain, sample_path, curves),
    ensures
        ({
            let m = b.deep_view();
            &&& p.amp_lfo_freq_oncc.deep_view() == m.amp_lfo_freq_oncc
            &&& p.amp_lfo_depth_oncc.deep_view() == m.amp_lfo_depth_oncc
            &&& p.fil_lfo_freq_oncc.deep_view() == m.fil_lfo_freq_oncc
            &&& p.fil_lfo_depth_oncc.deep_view() == m.fil_lfo_depth_oncc
            &&& p.pan_lfo_freq_oncc.deep_view() == m.pan_lfo_freq_oncc
            &&& p.pan_lfo_depth_oncc.deep_view() == m.pan_lfo_depth_oncc
            &&& p.pitch_lfo_freq_oncc.deep_view() == m.pitch_lfo_freq_oncc
            &&& p.pitch_lfo_depth_oncc.deep_view() == m.pitch_lfo_depth_oncc
            &&& p.volume_oncc.deep_view() == m.volume_oncc
            &&& p.cutoff_oncc.deep_view() == m.cutoff_oncc
            &&& p.resonance_oncc.deep_view() == m.resonance_oncc
            &&& p.pan_oncc.deep_view() == m.pan_oncc
            &&& p.tune_oncc.deep_view() == m.tune_oncc
            &&& p.ampeg_attack_oncc.deep_view() == m.ampeg_attack_oncc
            &&& p.ampeg_decay_oncc.deep_view() == m.ampeg_decay_oncc
            &&& p.ampeg_sustain_oncc.deep_view() == m.ampeg_sustain_oncc
            &&& p.ampeg_release_oncc.deep_view() == m.ampeg_release_oncc
            &&& p.volume_curvecc.deep_view() == m.volume_curvecc
            &&& p.cutoff_curvecc.deep_view() == m.cutoff_curvecc
            &&& p.resonance_curvecc.deep_view() == m.resonance_curvecc
            &&& p.pan_curvecc.deep_view() == m.pan_curvecc
            &&& p.ampeg_envelope.deep_view() == m.ampeg_envelope
        }),
{
}

/// A region that is built sounds for the keys and velocities of the file, and as loud as the file
/// says unless its crossfades have worked out another volume. What velocity and key do to the
/// filter is held to ten octaves and to one.
pub proof fn built_regions_keep_their_ranges(
    p: RegionParams,
    b: RegionParamsBuilder,
    gain: XfGain,
    sample_path: String,
    curves: Arc<SfzCurves>,
)
    requires
        describes(p, b, gain, sample_path, curves),
    ensures
        p.keyrange@.start == b.lokey,
        p.keyrange@.end == b.hikey,
        p.velrange@.start == b.lovel,
        p.velrange@.end == b.hivel,
        gain matches XfGain::Volume(v) ==> p.volume == v,
        !(gain is Volume) ==> p.volume == b.volume,
        p.sample_path == sample_path,
        p.curves == curves,
        -9600 <= b.fil_veltrack <= 9600 ==> p.fil_veltrack == b.fil_veltrack,
        b.fil_veltrack < -9600 ==> p.fil_veltrack == -9600,
        b.fil_veltrack > 9600 ==> p.fil_veltrack == 9600,
        0 <= b.fil_keytrack <= 1200 ==> p.fil_keytrack == b.fil_keytrack,
        b.fil_keytrack < 0 ==> p.fil_keytrack == 0,
        b.fil_keytrack > 1200 ==> p.fil_keytrack == 1200,
        b.choke_group matches Some(g) ==> (b.choke_off_by == Some(g) ==> p.exclusive_class == Some(
            (g % 256) as u8,
        )),
        b.choke_group is None || b.choke_off_by != b.choke_group ==> p.exclusive_class is None,
{
}

/// Over a proper range a fade-in is silent up to its start, full from its end on, and in
/// between the share of the way that the controller has gone; a fade-out is the other way
/// round.
pub proof fn fades_run_over_their_range(cc: u8, lo: u8, hi: u8, curve: XfCurve)
    requires
        lo < hi,
    ensures
        cc <= lo ==> fade_in(cc, lo, hi, curve) is Silent,
        cc <= lo ==> fade_out(cc, lo, hi, curve) is Full,
        cc >= hi ==> fade_in(cc, lo, hi, curve) is Full,
        cc >= hi ==> fade_out(cc, lo, hi, curve) is Silent,
        lo < cc < hi ==> fade_in(cc, lo, hi, curve) == (XfFactor::Part {
            num: (cc - lo) as u8,
            den: (hi - lo) as u8,
            curve,
        }),
        lo < cc < hi ==> fade_out(cc, lo, hi, curve) == (XfFactor::Part {
            num: (hi - cc) as u8,
            den: (hi - lo) as u8,
            curve,
        }),
{
}

/// A range that ends where it begins or before is a step there: a region that fades in sounds
/// from it on, one that fades out up to it. The range from 0 to 0 is none.
pub proof fn short_fades_are_steps(cc: u8, lo: u8, hi: u8, curve: XfCurve)
    requires
        hi <= lo,
    ensures
        lo == 0 ==> fade_in(cc, lo, hi, curve) is Full && fade_out(cc, lo, hi, curve) is Full,
        lo > 0 && cc < lo ==> fade_in(cc, lo, hi, curve) is Silent,
        lo > 0 && cc >= lo ==> fade_in(cc, lo, hi, curve) is Full,
        lo > 0 && cc <= lo ==> fade_out(cc, lo, hi, curve) is Full,
        lo > 0 && cc > lo ==> fade_out(cc, lo, hi, curve) is Silent,
{
}

/// A region has a factor for each of its fade-ins and then for each of its fade-outs, of the
/// controller that it names, which stands at 0 where nothing sets it.
pub proof fn every_fade_has_its_factor(b: RegionModel, levels: Seq<(u8, u8)>, i: int)
    requires
        0 <= i < b.xfin_cc.len() + b.xfout_cc.len(),
    ensures
        ({
            let all = factors_of(b, levels);
            let n = b.xfin_cc.len();
            let (cc, (lo, hi)) = if i < n {
                b.xfin_cc[i]
            } else {
                b.xfout_cc[i - n]
            };
            let v = match entry(levels, cc) {
                Some(v) => v,
                None => 0u8,
            };
            &&& all.len() == n + b.xfout_cc.len()
            &&& i < n ==> all[i] == fade_in(v, lo, hi, b.xf_cccurve)
            &&& i >= n ==> all[i] == fade_out(v, lo, hi, b.xf_cccurve)
        }),
{
}

/// One controller outside of its bounds keeps a region from sounding, and nothing else does. A
/// controller that nothing sets stands at 0.
pub proof fn controllers_gate_regions(
    ranges: Seq<(u8, (u8, u8))>,
    levels: Seq<(u8, u8)>,
    cc: u8,
    lo: u8,
    hi: u8,
)
    ensures
        ({
            let v = match entry(levels, cc) {
                Some(v) => v,
                None => 0u8,
            };
            let more = ranges.push((cc, (lo, hi)));
            &&& gates_open(Seq::empty(), levels)
            &&& gates_open(more, levels) <==> gates_open(ranges, levels) && lo <= v && v <= hi
        }),
{
    let more = ranges.push((cc, (lo, hi)));
    let n = ranges.len() as int;
    assert(more[n] == (cc, (lo, hi)));
    if gates_open(more, levels) {
        assert forall|i: int| 0 <= i < ranges.len() implies {
            let v = level(levels, #[trigger] ranges[i].0);
            ranges[i].1.0 <= v <= ranges[i].1.1
        } by {
            assert(more[i] == ranges[i]);
            assert(level(levels, more[i].0) == level(levels, ranges[i].0));
        }
        assert(level(levels, more[n].0) == level(levels, cc));
    }
    if gates_open(ranges, levels) {
        assert forall|i: int| 0 <= i < more.len() && i < n implies {
            let v = level(levels, #[trigger] more[i].0);
            more[i].1.0 <= v <= more[i].1.1
        } by {
            assert(more[i] == ranges[i]);
            assert(level(levels, ranges[i].0) == level(levels, more[i].0));
        }
    }
}


/// One silent factor silences a region, and factors that are all full leave its volume as it
/// is. Only a fraction among factors that are not silent has to be worked out.
pub proof fn one_silent_factor_silences(factors: Seq<XfFactor>, i: int)
    requires
        0 <= i < factors.len(),
    ensures
        factors[i] == XfFactor::Silent ==> settled_gain(factors) == Some(XfGain::Silent),
        settled_gain(factors) == Some(XfGain::Unchanged) ==> factors[i] == XfFactor::Full,
        settled_gain(factors) is None ==> factors[i] != XfFactor::Silent,
        (forall|j: int| 0 <= j < factors.len() ==> factors[j] == XfFactor::Full) ==> settled_gain(
            factors,
        ) == Some(XfGain::Unchanged),
        factors[i] != XfFactor::Full && !factors.contains(XfFactor::Silent) ==> settled_gain(
            factors,
        ) is None,
        settled_gain(Seq::empty()) == Some(XfGain::Unchanged),
{
    if factors[i] == XfFactor::Silent {
        assert(factors.contains(XfFactor::Silent));
    }
    if forall|j: int| 0 <= j < factors.len() ==> factors[j] == XfFactor::Full {
        assert(!factors.contains(XfFactor::Silent));
    }
}


/// A sample is looked for in the folder for samples inside the directory of the instrument;
/// without such a folder, in the directory itself. An absolute path is taken as it is, and so
/// is an absolute folder.
pub proof fn samples_are_looked_for(base: Seq<char>, folder: Seq<char>, sample: Seq<char>)
    requires
        base.len() > 0 && base.last() != '/',
        folder.len() > 0 && folder.last() != '/',
        sample.len() > 0,
    ensures
        sample[0] == '/' ==> file_named(base, Some(folder), sample) == sample && file_named(
            base,
            None,
            sample,
        ) == sample,
        sample[0] != '/' && folder[0] != '/' ==> file_named(base, Some(folder), sample) == base
            + seq!['/'] + folder + seq!['/'] + sample,
        sample[0] != '/' && folder[0] == '/' ==> file_named(base, Some(folder), sample) == folder
            + seq!['/'] + sample,
        sample[0] != '/' ==> file_named(base, None, sample) == base + seq!['/'] + sample,
{
    if sample[0] != '/' && folder[0] != '/' {
        assert(file_named(base, Some(folder), sample) =~= base + seq!['/'] + folder + seq!['/']
            + sample);
    }
}

/// A controller value at load is at most 127, and what is given as a share of the whole is
/// no such value.
pub proof fn levels_have_seven_bits(v: u8)
    ensures
        v <= 127 ==> level_at_load(CcInit::Midi(v)) == Some(v),
        v > 127 ==> level_at_load(CcInit::Midi(v)) == Some(127u8),
        forall|init: CcInit| init is Unit ==> #[trigger] level_at_load(init) is None,
{
}

} // verus!
