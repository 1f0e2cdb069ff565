//! Merges the zones of presets with those of their instruments.

use super::file::RawModulator;
use super::modulator::{
    is_controller, note_modulator, note_modulators, note_modulators_stand_in_the_file,
    Sf2NoteModDestination, Sf2NoteModulator,
};
use super::parse::INITIAL_FILTER_FC;
use super::sample::{Sf2Sample, Sf2SampleLinkType};
use super::zone::{Sf2Instrument, Sf2ParsedPreset, Sf2Zone};
use crate::{share, LoopMode};
use std::ops::RangeInclusive;
use std::sync::Arc;
use vstd::prelude::*;

verus! {

/// A volume envelope in the units of the file: time cents, and centibels for the
/// sustain level.
#[derive(Debug, Clone, Copy, PartialEq, Eq, Structural)]
pub struct Sf2RawEnvelope {
    pub delay_tc: i32,
    pub attack_tc: i32,
    pub hold_tc: i32,
    pub decay_tc: i32,
    pub sustain_cb: i32,
    pub release_tc: i32,
}

/// Where a region begins, ends and repeats in its sample.
#[derive(Debug, Clone, Copy, PartialEq, Eq, Structural)]
pub struct Sf2Positions {
    pub offset: u32,
    pub sample_end: u32,
    pub loop_start: u32,
    pub loop_end: u32,
}

/// A region of a preset: a zone of the preset with a zone of an instrument.
#[derive(Debug)]
pub struct Sf2Region<S = Vec<Arc<Vec<i16>>>, R = RangeInclusive<u8>, M = Vec<Sf2NoteModulator>> {
    /// The frames, channel by channel.
    pub sample: S,
    pub sample_rate: u32,
    pub velrange: R,
    pub keyrange: R,
    pub root_key: u8,
    /// How much softer than the sample the region is, in centibels.
    pub attenuation: i16,
    /// From -500, left, to 500, right.
    pub pan: i16,
    pub loop_mode: LoopMode,
    pub positions: Sf2Positions,
    /// The cutoff of the filter in cents, if the region has one.
    pub cutoff_cents: Option<i32>,
    /// The resonance of the filter in centibels.
    pub resonance: i16,
    pub fine_tune: i16,
    pub coarse_tune: i16,
    pub scale_tuning: i16,
    pub exclusive_class: Option<u8>,
    pub keynum_to_vol_env_hold: i16,
    pub keynum_to_vol_env_decay: i16,
    pub raw_envelope: Sf2RawEnvelope,
    pub note_modulators: M,
}

impl Sf2Region {
    /// Nobody has walked through the ranges of the region.
    pub open spec fn ranges_are_whole(&self) -> bool {
        !self.keyrange@.exhausted && !self.velrange@.exhausted
    }
}

/// The model of a region.
pub type Sf2RegionModel = Sf2Region<Seq<Seq<i16>>, (u8, u8), Seq<Sf2NoteModulator>>;

/// The frames of some samples.
pub open spec fn channels_of(v: Seq<Arc<Vec<i16>>>) -> Seq<Seq<i16>> {
    v.map_values(|c: Arc<Vec<i16>>| c@)
}

/// The bounds of a range.
pub open spec fn bounds(r: RangeInclusive<u8>) -> (u8, u8) {
    (r@.start, r@.end)
}

impl View for Sf2Region {
    type V = Sf2RegionModel;

    open spec fn view(&self) -> Sf2RegionModel {
        Sf2Region {
            sample: channels_of(self.sample@),
            sample_rate: self.sample_rate,
            velrange: bounds(self.velrange),
            keyrange: bounds(self.keyrange),
            root_key: self.root_key,
            attenuation: self.attenuation,
            pan: self.pan,
            loop_mode: self.loop_mode,
            positions: self.positions,
            cutoff_cents: self.cutoff_cents,
            resonance: self.resonance,
            fine_tune: self.fine_tune,
            coarse_tune: self.coarse_tune,
            scale_tuning: self.scale_tuning,
            exclusive_class: self.exclusive_class,
            keynum_to_vol_env_hold: self.keynum_to_vol_env_hold,
            keynum_to_vol_env_decay: self.keynum_to_vol_env_decay,
            raw_envelope: self.raw_envelope,
            note_modulators: self.note_modulators@,
        }
    }
}

/// A preset.
#[derive(Debug)]
pub struct Sf2Preset {
    pub bank: u16,
    pub preset: u16,
    pub regions: Vec<Sf2Region>,
}

/// The model of a preset.
#[verifier::ext_equal]
pub struct Sf2PresetModel {
    pub bank: u16,
    pub preset: u16,
    pub regions: Seq<Sf2RegionModel>,
}

/// Nobody has walked through the ranges of the regions.
pub open spec fn all_whole(v: Seq<Sf2Region>) -> bool {
    forall|i: int| 0 <= i < v.len() ==> (#[trigger] v[i]).ranges_are_whole()
}

/// The models of regions.
pub open spec fn region_models(v: Seq<Sf2Region>) -> Seq<Sf2RegionModel> {
    v.map_values(|r: Sf2Region| r@)
}

impl View for Sf2Preset {
    type V = Sf2PresetModel;

    open spec fn view(&self) -> Sf2PresetModel {
        Sf2PresetModel {
            bank: self.bank,
            preset: self.preset,
            regions: region_models(self.regions@),
        }
    }
}

/// What two ranges have in common.
pub open spec fn common(a: (u8, u8), b: (u8, u8)) -> (u8, u8) {
    (
        if a.0 < b.0 {
            b.0
        } else {
            a.0
        },
        if b.1 < a.1 {
            b.1
        } else {
            a.1
        },
    )
}

/// What two ranges have in common.
pub fn combine_ranges(a: (u8, u8), b: (u8, u8)) -> (r: (u8, u8))
    ensures
        r == common(a, b),
{
    (
        if a.0 < b.0 {
            b.0
        } else {
            a.0
        },
        if b.1 < a.1 {
            b.1
        } else {
            a.1
        },
    )
}

/// The range of a zone: everything where it names none.
pub open spec fn range_or_all(r: Option<(u8, u8)>) -> (u8, u8) {
    match r {
        Some(range) => range,
        None => (0, 127),
    }
}

/// The range that is left of two zones, and of a fixed value where one of them has it.
pub open spec fn merged_range(
    preset: Option<(u8, u8)>,
    instrument: Option<(u8, u8)>,
    fixed: Option<u8>,
) -> (u8, u8) {
    let both = common(range_or_all(preset), range_or_all(instrument));
    match fixed {
        Some(v) => common(both, (v, v)),
        None => both,
    }
}

fn bounds_or_all(r: Option<(u8, u8)>) -> (b: (u8, u8))
    ensures
        b == range_or_all(r),
{
    match r {
        Some(range) => range,
        None => (0, 127),
    }
}

fn merge_ranges(
    preset: Option<(u8, u8)>,
    instrument: Option<(u8, u8)>,
    fixed: Option<u8>,
) -> (r: RangeInclusive<u8>)
    ensures
        bounds(r) == merged_range(preset, instrument, fixed),
        !r@.exhausted,
{
    let both = combine_ranges(bounds_or_all(preset), bounds_or_all(instrument));
    let all = apply_fixed_value(both, fixed);
    RangeInclusive::new(all.0, all.1)
}

fn apply_fixed_value(range: (u8, u8), fixed: Option<u8>) -> (r: (u8, u8))
    ensures
        r == (match fixed {
            Some(v) => common(range, (v, v)),
            None => range,
        }),
{
    match fixed {
        Some(v) => combine_ranges(range, (v, v)),
        None => range,
    }
}

/// A value, or 0 where there is none.
pub open spec fn or_zero(v: Option<i16>) -> int {
    match v {
        Some(x) => x as int,
        None => 0,
    }
}

/// What two zones add up to.
pub open spec fn total(a: Option<i16>, b: Option<i16>) -> int {
    or_zero(a) + or_zero(b)
}

/// The total of two zones is a 16-bit number.
pub open spec fn total_fits(a: Option<i16>, b: Option<i16>) -> bool {
    i16::MIN <= total(a, b) <= i16::MAX
}

fn sum_i16(a: Option<i16>, b: Option<i16>) -> (r: i16)
    requires
        total_fits(a, b),
    ensures
        r == total(a, b),
{
    let x: i16 = match a {
        Some(v) => v,
        None => 0,
    };
    let y: i16 = match b {
        Some(v) => v,
        None => 0,
    };
    x + y
}

fn sum_fits(a: Option<i16>, b: Option<i16>) -> (r: bool)
    ensures
        r == total_fits(a, b),
{
    let x: i32 = match a {
        Some(v) => v as i32,
        None => 0,
    };
    let y: i32 = match b {
        Some(v) => v as i32,
        None => 0,
    };
    -0x8000 <= x + y && x + y <= 0x7fff
}

/// By how many frames two zones move a position: single frames, and coarse steps of
/// 32768 frames.
pub open spec fn moved(
    fine_a: Option<i16>,
    coarse_a: Option<i16>,
    fine_b: Option<i16>,
    coarse_b: Option<i16>,
) -> int {
    total(fine_a, fine_b) + total(coarse_a, coarse_b) * 32768
}

fn sum_sample_offset(
    fine_a: Option<i16>,
    coarse_a: Option<i16>,
    fine_b: Option<i16>,
    coarse_b: Option<i16>,
) -> (r: i32)
    requires
        total_fits(fine_a, fine_b),
        total_fits(coarse_a, coarse_b),
    ensures
        r == moved(fine_a, coarse_a, fine_b, coarse_b),
{
    sum_i16(fine_a, fine_b) as i32 + sum_i16(coarse_a, coarse_b) as i32 * 32768
}

/// The value of an instrument, or the usual one where it names none, moved by what the
/// preset says.
pub open spec fn absolute_relative(
    usual: i16,
    preset: Option<i16>,
    instrument: Option<i16>,
) -> int {
    or_zero(preset) + match instrument {
        Some(v) => v,
        None => usual,
    }
}

fn merge_absolute_relative(usual: i16, preset: Option<i16>, instrument: Option<i16>) -> (r: i32)
    ensures
        r == absolute_relative(usual, preset, instrument),
{
    let value: i16 = match instrument {
        Some(v) => v,
        None => usual,
    };
    let by: i16 = match preset {
        Some(v) => v,
        None => 0,
    };
    value as i32 + by as i32
}

/// The envelope of a zone of a preset with a zone of an instrument.
pub open spec fn merged_envelope(
    usual: Sf2RawEnvelope,
    preset: Sf2Zone,
    instrument: Sf2Zone,
) -> Sf2RawEnvelope {
    Sf2RawEnvelope {
        delay_tc: absolute_relative(
            usual.delay_tc as i16,
            preset.env_delay,
            instrument.env_delay,
        ) as i32,
        attack_tc: absolute_relative(
            usual.attack_tc as i16,
            preset.env_attack,
            instrument.env_attack,
        ) as i32,
        hold_tc: absolute_relative(
            usual.hold_tc as i16,
            preset.env_hold,
            instrument.env_hold,
        ) as i32,
        decay_tc: absolute_relative(
            usual.decay_tc as i16,
            preset.env_decay,
            instrument.env_decay,
        ) as i32,
        sustain_cb: absolute_relative(
            usual.sustain_cb as i16,
            preset.env_sustain,
            instrument.env_sustain,
        ) as i32,
        release_tc: absolute_relative(
            usual.release_tc as i16,
            preset.env_release,
            instrument.env_release,
        ) as i32,
    }
}

fn merge_raw_envelope(usual: &Sf2RawEnvelope, preset: &Sf2Zone, instrument: &Sf2Zone) -> (r:
    Sf2RawEnvelope)
    ensures
        r == merged_envelope(*usual, *preset, *instrument),
{
    Sf2RawEnvelope {
        delay_tc: merge_absolute_relative(
            #[verifier::truncate] (usual.delay_tc as i16),
            preset.env_delay,
            instrument.env_delay,
        ),
        attack_tc: merge_absolute_relative(
            #[verifier::truncate] (usual.attack_tc as i16),
            preset.env_attack,
            instrument.env_attack,
        ),
        hold_tc: merge_absolute_relative(
            #[verifier::truncate] (usual.hold_tc as i16),
            preset.env_hold,
            instrument.env_hold,
        ),
        decay_tc: merge_absolute_relative(
            #[verifier::truncate] (usual.decay_tc as i16),
            preset.env_decay,
            instrument.env_decay,
        ),
        sustain_cb: merge_absolute_relative(
            #[verifier::truncate] (usual.sustain_cb as i16),
            preset.env_sustain,
            instrument.env_sustain,
        ),
        release_tc: merge_absolute_relative(
            #[verifier::truncate] (usual.release_tc as i16),
            preset.env_release,
            instrument.env_release,
        ),
    }
}

/// A value held between two others.
pub open spec fn held(v: int, lo: int, hi: int) -> int {
    if v < lo {
        lo
    } else if v > hi {
        hi
    } else {
        v
    }
}

/// A 32-bit number whose upper half stands for negative numbers.
pub open spec fn signed(v: u32) -> int {
    if v >= 0x8000_0000 {
        v - 0x1_0000_0000
    } else {
        v as int
    }
}

fn to_signed(v: u32) -> (r: i32)
    ensures
        r == signed(v),
{
    if v >= 0x8000_0000 {
        (v as i64 - 0x1_0000_0000) as i32
    } else {
        v as i32
    }
}

/// How a zone of a preset with a zone of an instrument moves a sample's end, start and
/// loop points.
pub open spec fn moves(preset: Sf2Zone, instrument: Sf2Zone) -> (int, int, int, int) {
    (
        moved(
            preset.offset,
            preset.offset_coarse,
            instrument.offset,
            instrument.offset_coarse,
        ),
        moved(
            preset.end_offset,
            preset.end_offset_coarse,
            instrument.end_offset,
            instrument.end_offset_coarse,
        ),
        moved(
            preset.loop_start_offset,
            preset.loop_start_offset_coarse,
            instrument.loop_start_offset,
            instrument.loop_start_offset_coarse,
        ),
        moved(
            preset.loop_end_offset,
            preset.loop_end_offset_coarse,
            instrument.loop_end_offset,
            instrument.loop_end_offset_coarse,
        ),
    )
}

/// The positions of a region in the frames of its sample as the file holds them: they
/// stay within the sample, and nothing lies behind its end.
pub open spec fn positions_of(
    preset: Sf2Zone,
    instrument: Sf2Zone,
    sample: Sf2Sample,
) -> Sf2Positions {
    let (offset, end, loop_start, loop_end) = moves(preset, instrument);
    let length = sample.original_length as int;
    let sample_end = held(length + end, 0, length);
    Sf2Positions {
        offset: held(offset, 0, sample_end) as u32,
        sample_end: sample_end as u32,
        loop_start: held(signed(sample.loop_start) + loop_start, 0, sample_end) as u32,
        loop_end: held(signed(sample.loop_end) + loop_end, 0, sample_end) as u32,
    }
}

/// The positions of a region are 32-bit numbers on the way.
pub open spec fn positions_fit(preset: Sf2Zone, instrument: Sf2Zone, sample: Sf2Sample) -> bool {
    let (offset, end, loop_start, loop_end) = moves(preset, instrument);
    &&& total_fits(preset.offset, instrument.offset)
    &&& total_fits(preset.offset_coarse, instrument.offset_coarse)
    &&& total_fits(preset.end_offset, instrument.end_offset)
    &&& total_fits(preset.end_offset_coarse, instrument.end_offset_coarse)
    &&& total_fits(preset.loop_start_offset, instrument.loop_start_offset)
    &&& total_fits(preset.loop_start_offset_coarse, instrument.loop_start_offset_coarse)
    &&& total_fits(preset.loop_end_offset, instrument.loop_end_offset)
    &&& total_fits(preset.loop_end_offset_coarse, instrument.loop_end_offset_coarse)
    &&& sample.original_length <= i32::MAX
    &&& sample.original_length + end <= i32::MAX
    &&& i32::MIN <= signed(sample.loop_start) + loop_start <= i32::MAX
    &&& i32::MIN <= signed(sample.loop_end) + loop_end <= i32::MAX
}

fn can_place(preset: &Sf2Zone, instrument: &Sf2Zone, sample: &Sf2Sample) -> (r: bool)
    ensures
        r == positions_fit(*preset, *instrument, *sample),
{
    if !(sum_fits(preset.offset, instrument.offset) && sum_fits(
        preset.offset_coarse,
        instrument.offset_coarse,
    ) && sum_fits(preset.end_offset, instrument.end_offset) && sum_fits(
        preset.end_offset_coarse,
        instrument.end_offset_coarse,
    ) && sum_fits(preset.loop_start_offset, instrument.loop_start_offset) && sum_fits(
        preset.loop_start_offset_coarse,
        instrument.loop_start_offset_coarse,
    ) && sum_fits(preset.loop_end_offset, instrument.loop_end_offset) && sum_fits(
        preset.loop_end_offset_coarse,
        instrument.loop_end_offset_coarse,
    )) {
        return false;
    }
    let end: i64 = sum_sample_offset(
        preset.end_offset,
        preset.end_offset_coarse,
        instrument.end_offset,
        instrument.end_offset_coarse,
    ) as i64;
    let loop_start: i64 = sum_sample_offset(
        preset.loop_start_offset,
        preset.loop_start_offset_coarse,
        instrument.loop_start_offset,
        instrument.loop_start_offset_coarse,
    ) as i64 + to_signed(sample.loop_start) as i64;
    let loop_end: i64 = sum_sample_offset(
        preset.loop_end_offset,
        preset.loop_end_offset_coarse,
        instrument.loop_end_offset,
        instrument.loop_end_offset_coarse,
    ) as i64 + to_signed(sample.loop_end) as i64;
    sample.original_length <= 0x7fff_ffff && sample.original_length as i64 + end <= 0x7fff_ffff
        && -0x8000_0000 <= loop_start && loop_start <= 0x7fff_ffff && -0x8000_0000 <= loop_end
        && loop_end <= 0x7fff_ffff
}

fn hold(v: i32, hi: u32) -> (r: u32)
    requires
        hi <= i32::MAX,
    ensures
        r == held(v as int, 0, hi as int),
{
    if v < 0 {
        0
    } else if v as u32 > hi {
        hi
    } else {
        v as u32
    }
}

fn place(preset: &Sf2Zone, instrument: &Sf2Zone, sample: &Sf2Sample) -> (r: Sf2Positions)
    requires
        positions_fit(*preset, *instrument, *sample),
    ensures
        r == positions_of(*preset, *instrument, *sample),
{
    let offset = sum_sample_offset(
        preset.offset,
        preset.offset_coarse,
        instrument.offset,
        instrument.offset_coarse,
    );
    let end_offset = sum_sample_offset(
        preset.end_offset,
        preset.end_offset_coarse,
        instrument.end_offset,
        instrument.end_offset_coarse,
    );
    let loop_start_offset = sum_sample_offset(
        preset.loop_start_offset,
        preset.loop_start_offset_coarse,
        instrument.loop_start_offset,
        instrument.loop_start_offset_coarse,
    );
    let loop_end_offset = sum_sample_offset(
        preset.loop_end_offset,
        preset.loop_end_offset_coarse,
        instrument.loop_end_offset,
        instrument.loop_end_offset_coarse,
    );
    let sample_end = hold(sample.original_length as i32 + end_offset, sample.original_length);
    Sf2Positions {
        offset: hold(offset, sample_end),
        sample_end,
        loop_start: hold(to_signed(sample.loop_start) + loop_start_offset, sample_end),
        loop_end: hold(to_signed(sample.loop_end) + loop_end_offset, sample_end),
    }
}

/// The sample at a place that has frames.
pub open spec fn partner(samples: Seq<Sf2Sample>, linked: Option<u16>) -> Option<Sf2Sample> {
    match linked {
        Some(at) => if at < samples.len() && samples[at as int].data@.len() > 0 {
            Some(samples[at as int])
        } else {
            None
        },
        None => None,
    }
}

/// The channels of a region: its sample alone, or both sides where the sample is one
/// side and the other one has frames, the left side first.
pub open spec fn sides(sample: Sf2Sample, samples: Seq<Sf2Sample>) -> Seq<Seq<i16>> {
    match (sample.link_type, partner(samples, sample.linked_sample)) {
        (Sf2SampleLinkType::Left, Some(right)) => seq![sample.data@, right.data@],
        (Sf2SampleLinkType::Right, Some(left)) => seq![left.data@, sample.data@],
        _ => seq![sample.data@],
    }
}

/// The channels of a region: the left and the right side where its sample is one of a pair
/// whose other side has frames, else the sample alone.
pub fn build_region_samples(sample: &Sf2Sample, samples: &Vec<Sf2Sample>) -> (r: Vec<Arc<Vec<i16>>>)
    ensures
        channels_of(r@) == sides(*sample, samples@),
{
    let mut out: Vec<Arc<Vec<i16>>> = Vec::new();
    if let Some(linked) = sample.linked_sample {
        let at: usize = linked as usize;
        if at < samples.len() && samples[at].data.len() > 0 {
            match sample.link_type {
                Sf2SampleLinkType::Left => {
                    out.push(share(&sample.data));
                    out.push(share(&samples[at].data));
                    assert(channels_of(out@) =~= sides(*sample, samples@));
                    return out;
                },
                Sf2SampleLinkType::Right => {
                    out.push(share(&samples[at].data));
                    out.push(share(&sample.data));
                    assert(channels_of(out@) =~= sides(*sample, samples@));
                    return out;
                },
                _ => {},
            }
        }
    }
    out.push(share(&sample.data));
    assert(channels_of(out@) =~= sides(*sample, samples@));
    out
}

/// Some modulator acts on the cutoff of the filter.
pub open spec fn moves_cutoff(modulators: Seq<Sf2NoteModulator>) -> bool {
    exists|i: int|
        0 <= i < modulators.len() && (#[trigger] modulators[i]).destination
            == Sf2NoteModDestination::InitialFilterFc
}

/// The first of two values that is there.
pub open spec fn first_of<T>(a: Option<T>, b: Option<T>) -> Option<T> {
    match a {
        Some(v) => Some(v),
        None => b,
    }
}

/// The region of a zone of a preset with a zone of an instrument, with its positions in
/// the frames that the file holds. Most values add up; ranges become narrower; where
/// only one value can be, that of the instrument goes first, except for the loop mode.
#[verifier::opaque]
pub open spec fn merged(
    usual: Sf2RawEnvelope,
    preset: Sf2Zone,
    instrument: Sf2Zone,
    sample: Sf2Sample,
    samples: Seq<Sf2Sample>,
) -> Sf2RegionModel {
    let modulators = preset.note_modulators@ + instrument.note_modulators@;
    Sf2Region {
        sample: sides(sample, samples),
        sample_rate: sample.sample_rate,
        velrange: merged_range(
            preset.velrange,
            instrument.velrange,
            first_of(instrument.fixed_velocity, preset.fixed_velocity),
        ),
        keyrange: merged_range(
            preset.keyrange,
            instrument.keyrange,
            first_of(instrument.fixed_key, preset.fixed_key),
        ),
        root_key: (match first_of(instrument.root_override, preset.root_override) {
            Some(key) => key,
            None => sample.origpitch as i16,
        }) as u8,
        attenuation: total(preset.attenuation, instrument.attenuation) as i16,
        pan: held(total(preset.pan, instrument.pan), -500, 500) as i16,
        loop_mode: match first_of(preset.loop_mode, instrument.loop_mode) {
            Some(mode) => mode,
            None => LoopMode::NoLoop,
        },
        positions: positions_of(preset, instrument, sample),
        cutoff_cents: if preset.cutoff is Some || instrument.cutoff is Some || moves_cutoff(
            modulators,
        ) {
            Some(absolute_relative(13500, preset.cutoff, instrument.cutoff) as i32)
        } else {
            None
        },
        resonance: total(preset.resonance, instrument.resonance) as i16,
        fine_tune: (total(preset.fine_tune, instrument.fine_tune) + sample.pitchadj) as i16,
        coarse_tune: total(preset.coarse_tune, instrument.coarse_tune) as i16,
        scale_tuning: match first_of(instrument.scale_tuning, preset.scale_tuning) {
            Some(v) => v,
            None => 100,
        },
        exclusive_class: first_of(instrument.exclusive_class, preset.exclusive_class),
        keynum_to_vol_env_hold: total(
            preset.keynum_to_vol_env_hold,
            instrument.keynum_to_vol_env_hold,
        ) as i16,
        keynum_to_vol_env_decay: total(
            preset.keynum_to_vol_env_decay,
            instrument.keynum_to_vol_env_decay,
        ) as i16,
        raw_envelope: merged_envelope(usual, preset, instrument),
        note_modulators: modulators,
    }
}

/// What two zones add up to are numbers of the width they are kept in.
pub open spec fn zones_fit(preset: Sf2Zone, instrument: Sf2Zone, sample: Sf2Sample) -> bool {
    &&& positions_fit(preset, instrument, sample)
    &&& total_fits(preset.attenuation, instrument.attenuation)
    &&& total_fits(preset.pan, instrument.pan)
    &&& total_fits(preset.resonance, instrument.resonance)
    &&& total_fits(preset.fine_tune, instrument.fine_tune)
    &&& i16::MIN <= total(preset.fine_tune, instrument.fine_tune) + sample.pitchadj <= i16::MAX
    &&& total_fits(preset.coarse_tune, instrument.coarse_tune)
    &&& total_fits(preset.keynum_to_vol_env_hold, instrument.keynum_to_vol_env_hold)
    &&& total_fits(preset.keynum_to_vol_env_decay, instrument.keynum_to_vol_env_decay)
}

fn zones_can_merge(preset: &Sf2Zone, instrument: &Sf2Zone, sample: &Sf2Sample) -> (r: bool)
    ensures
        r == zones_fit(*preset, *instrument, *sample),
{
    if !(can_place(preset, instrument, sample) && sum_fits(
        preset.attenuation,
        instrument.attenuation,
    ) && sum_fits(preset.pan, instrument.pan) && sum_fits(preset.resonance, instrument.resonance)
        && sum_fits(preset.fine_tune, instrument.fine_tune) && sum_fits(
        preset.coarse_tune,
        instrument.coarse_tune,
    ) && sum_fits(preset.keynum_to_vol_env_hold, instrument.keynum_to_vol_env_hold) && sum_fits(
        preset.keynum_to_vol_env_decay,
        instrument.keynum_to_vol_env_decay,
    )) {
        return false;
    }
    let fine: i32 = sum_i16(preset.fine_tune, instrument.fine_tune) as i32
        + sample.pitchadj as i32;
    -0x8000 <= fine && fine <= 0x7fff
}

fn acts_on_cutoff(modulators: &Vec<Sf2NoteModulator>) -> (r: bool)
    ensures
        r == moves_cutoff(modulators@),
{
    let mut i: usize = 0;
    while i < modulators.len()
        invariant
            i <= modulators.len(),
            forall|j: int|
                0 <= j < i ==> (#[trigger] modulators@[j]).destination
                    != Sf2NoteModDestination::InitialFilterFc,
        decreases modulators.len() - i,
    {
        if modulators[i].destination == Sf2NoteModDestination::InitialFilterFc {
            return true;
        }
        i = i + 1;
    }
    false
}

fn chain(a: &Vec<Sf2NoteModulator>, b: &Vec<Sf2NoteModulator>) -> (r: Vec<Sf2NoteModulator>)
    ensures
        r@ == a@ + b@,
{
    let mut out: Vec<Sf2NoteModulator> = Vec::new();
    let mut i: usize = 0;
    while i < a.len()
        invariant
            i <= a.len(),
            out@ == a@.take(i as int),
        decreases a.len() - i,
    {
        out.push(a[i]);
        i = i + 1;
        assert(out@ =~= a@.take(i as int));
    }
    let mut j: usize = 0;
    assert(out@ =~= a@ + b@.take(0));
    while j < b.len()
        invariant
            j <= b.len(),
            out@ == a@ + b@.take(j as int),
        decreases b.len() - j,
    {
        out.push(b[j]);
        j = j + 1;
        assert(out@ =~= a@ + b@.take(j as int));
    }
    assert(out@ =~= a@ + b@);
    out
}

fn either<T: Copy>(a: Option<T>, b: Option<T>) -> (r: Option<T>)
    ensures
        r == first_of(a, b),
{
    match a {
        Some(v) => Some(v),
        None => b,
    }
}

/// The region of a zone of a preset with a zone of an instrument.
fn merge_zones(
    usual: &Sf2RawEnvelope,
    preset: &Sf2Zone,
    instrument: &Sf2Zone,
    sample: &Sf2Sample,
    samples: &Vec<Sf2Sample>,
) -> (r: Sf2Region)
    requires
        zones_fit(*preset, *instrument, *sample),
    ensures
        r@ == merged(*usual, *preset, *instrument, *sample, samples@),
        r.ranges_are_whole(),
{
    proof {
        reveal(merged);
    }
    let keyrange = merge_ranges(
        preset.keyrange,
        instrument.keyrange,
        either(instrument.fixed_key, preset.fixed_key),
    );
    let velrange = merge_ranges(
        preset.velrange,
        instrument.velrange,
        either(instrument.fixed_velocity, preset.fixed_velocity),
    );
    let pan = sum_i16(preset.pan, instrument.pan);
    let note_modulators = chain(&preset.note_modulators, &instrument.note_modulators);
    let cutoff_cents = if preset.cutoff.is_some() || instrument.cutoff.is_some()
        || acts_on_cutoff(&note_modulators) {
        Some(merge_absolute_relative(13500, preset.cutoff, instrument.cutoff))
    } else {
        None
    };
    let root: i16 = match either(instrument.root_override, preset.root_override) {
        Some(key) => key,
        None => sample.origpitch as i16,
    };
    Sf2Region {
        sample: build_region_samples(sample, samples),
        sample_rate: sample.sample_rate,
        velrange,
        keyrange,
        root_key: #[verifier::truncate] (root as u8),
        attenuation: sum_i16(preset.attenuation, instrument.attenuation),
        pan: if pan < -500 {
            -500
        } else if pan > 500 {
            500
        } else {
            pan
        },
        loop_mode: match either(preset.loop_mode, instrument.loop_mode) {
            Some(mode) => mode,
            None => LoopMode::NoLoop,
        },
        positions: place(preset, instrument, sample),
        cutoff_cents,
        resonance: sum_i16(preset.resonance, instrument.resonance),
        fine_tune: sum_i16(preset.fine_tune, instrument.fine_tune) + sample.pitchadj as i16,
        coarse_tune: sum_i16(preset.coarse_tune, instrument.coarse_tune),
        scale_tuning: match either(instrument.scale_tuning, preset.scale_tuning) {
            Some(v) => v,
            None => 100,
        },
        exclusive_class: either(instrument.exclusive_class, preset.exclusive_class),
        keynum_to_vol_env_hold: sum_i16(
            preset.keynum_to_vol_env_hold,
            instrument.keynum_to_vol_env_hold,
        ),
        keynum_to_vol_env_decay: sum_i16(
            preset.keynum_to_vol_env_decay,
            instrument.keynum_to_vol_env_decay,
        ),
        raw_envelope: merge_raw_envelope(usual, preset, instrument),
        note_modulators,
    }
}

/// The sample that a zone of an instrument names, where it has frames.
pub open spec fn sounding_sample(zone: Sf2Zone, samples: Seq<Sf2Sample>) -> Option<Sf2Sample> {
    match zone.index {
        Some(at) => if samples[at as int].data@.len() > 0 {
            Some(samples[at as int])
        } else {
            None
        },
        None => None,
    }
}

/// The regions of a zone of a preset with the first `n` zones of its instrument: one
/// for each that names a sample with frames.
pub open spec fn zone_regions(
    usual: Sf2RawEnvelope,
    zone: Sf2Zone,
    instrument: Seq<Sf2Zone>,
    samples: Seq<Sf2Sample>,
    n: int,
) -> Seq<Sf2RegionModel>
    decreases n,
{
    if n <= 0 {
        Seq::empty()
    } else {
        let before = zone_regions(usual, zone, instrument, samples, n - 1);
        match sounding_sample(instrument[n - 1], samples) {
            Some(sample) => before.push(merged(usual, zone, instrument[n - 1], sample, samples)),
            None => before,
        }
    }
}

/// The regions of the first `n` zones of a preset: those that name an instrument, each
/// with all zones of the instrument, in their order.
pub open spec fn preset_regions(
    usual: Sf2RawEnvelope,
    zones: Seq<Sf2Zone>,
    instruments: Seq<Sf2Instrument>,
    samples: Seq<Sf2Sample>,
    n: int,
) -> Seq<Sf2RegionModel>
    decreases n,
{
    if n <= 0 {
        Seq::empty()
    } else {
        let before = preset_regions(usual, zones, instruments, samples, n - 1);
        match zones[n - 1].index {
            Some(at) => {
                let instrument = instruments[at as int].regions@;
                before + zone_regions(
                    usual,
                    zones[n - 1],
                    instrument,
                    samples,
                    instrument.len() as int,
                )
            },
            None => before,
        }
    }
}

/// A preset with its regions.
pub open spec fn merged_preset(
    usual: Sf2RawEnvelope,
    preset: Sf2ParsedPreset,
    instruments: Seq<Sf2Instrument>,
    samples: Seq<Sf2Sample>,
) -> Sf2PresetModel {
    Sf2PresetModel {
        bank: preset.bank,
        preset: preset.preset,
        regions: preset_regions(
            usual,
            preset.zones@,
            instruments,
            samples,
            preset.zones@.len() as int,
        ),
    }
}

/// A zone of a preset goes together with a zone of its instrument.
pub open spec fn pair_fits(zone: Sf2Zone, sub: Sf2Zone, samples: Seq<Sf2Sample>) -> bool {
    sub.index matches Some(at) ==> at < samples.len() && (sounding_sample(
        sub,
        samples,
    ) matches Some(sample) ==> zones_fit(zone, sub, sample))
}

/// A zone of a preset goes together with its instrument.
pub open spec fn zone_fits(
    zone: Sf2Zone,
    instruments: Seq<Sf2Instrument>,
    samples: Seq<Sf2Sample>,
) -> bool {
    zone.index matches Some(at) ==> at < instruments.len() && forall|k: int|
        0 <= k < instruments[at as int].regions@.len() ==> pair_fits(
            zone,
            #[trigger] instruments[at as int].regions@[k],
            samples,
        )
}

/// What the zones of a preset name is there, and what they add up to fits.
pub open spec fn preset_fits(
    preset: Sf2ParsedPreset,
    instruments: Seq<Sf2Instrument>,
    samples: Seq<Sf2Sample>,
) -> bool {
    forall|j: int|
        0 <= j < preset.zones@.len() ==> zone_fits(
            #[trigger] preset.zones@[j],
            instruments,
            samples,
        )
}

fn can_merge_zone(
    zone: &Sf2Zone,
    instruments: &Vec<Sf2Instrument>,
    samples: &Vec<Sf2Sample>,
) -> (r: bool)
    ensures
        r == zone_fits(*zone, instruments@, samples@),
{
    match zone.index {
        None => true,
        Some(named) => {
            let at: usize = named as usize;
            if at >= instruments.len() {
                return false;
            }
            let subs = &instruments[at].regions;
            let mut k: usize = 0;
            while k < subs.len()
                invariant
                    k <= subs.len(),
                    zone.index == Some(named),
                    at == named,
                    at < instruments.len(),
                    *subs == instruments@[at as int].regions,
                    forall|i: int| 0 <= i < k ==> pair_fits(*zone, #[trigger] subs@[i], samples@),
                decreases subs.len() - k,
            {
                if let Some(s) = subs[k].index {
                    let s: usize = s as usize;
                    let ok = s < samples.len() && (samples[s].data.len() == 0 || zones_can_merge(
                        zone,
                        &subs[k],
                        &samples[s],
                    ));
                    if !ok {
                        assert(!pair_fits(*zone, subs@[k as int], samples@));
                        return false;
                    }
                }
                k = k + 1;
            }
            true
        },
    }
}

impl Sf2ParsedPreset {
    /// Whether what the zones of the preset name is there, and what they add up to fits.
    pub fn can_merge(&self, instruments: &Vec<Sf2Instrument>, samples: &Vec<Sf2Sample>) -> (r: bool)
        ensures
            r == preset_fits(*self, instruments@, samples@),
    {
        let mut j: usize = 0;
        while j < self.zones.len()
            invariant
                j <= self.zones.len(),
                forall|i: int|
                    0 <= i < j ==> zone_fits(#[trigger] self.zones@[i], instruments@, samples@),
            decreases self.zones.len() - j,
        {
            if !can_merge_zone(&self.zones[j], instruments, samples) {
                return false;
            }
            j = j + 1;
        }
        true
    }

    /// The presets with their regions, whose positions are in the frames that the file
    /// holds. `usual` is the envelope where an instrument names none.
    pub fn merge_presets(
        sample_data: &Vec<Sf2Sample>,
        instruments: &Vec<Sf2Instrument>,
        presets: &Vec<Sf2ParsedPreset>,
        usual: &Sf2RawEnvelope,
    ) -> (r: Vec<Sf2Preset>)
        requires
            forall|i: int|
                0 <= i < presets.len() ==> preset_fits(
                    #[trigger] presets@[i],
                    instruments@,
                    sample_data@,
                ),
        ensures
            r.len() == presets.len(),
            forall|i: int|
                0 <= i < r.len() ==> (#[trigger] r@[i])@ == merged_preset(
                    *usual,
                    presets@[i],
                    instruments@,
                    sample_data@,
                ) && all_whole(r@[i].regions@),
    {
        let mut out: Vec<Sf2Preset> = Vec::new();
        let mut i: usize = 0;
        while i < presets.len()
            invariant
                i <= presets.len(),
                forall|k: int|
                    0 <= k < presets.len() ==> preset_fits(
                        #[trigger] presets@[k],
                        instruments@,
                        sample_data@,
                    ),
                out.len() == i,
                forall|k: int|
                    0 <= k < i ==> (#[trigger] out@[k])@ == merged_preset(
                        *usual,
                        presets@[k],
                        instruments@,
                        sample_data@,
                    ) && all_whole(out@[k].regions@),
            decreases presets.len() - i,
        {
            let preset = &presets[i];
            let regions = merge_preset(usual, &preset.zones, instruments, sample_data);
            out.push(Sf2Preset { bank: preset.bank, preset: preset.preset, regions });
            i = i + 1;
        }
        out
    }
}

fn merge_preset(
    usual: &Sf2RawEnvelope,
    zones: &Vec<Sf2Zone>,
    instruments: &Vec<Sf2Instrument>,
    samples: &Vec<Sf2Sample>,
) -> (r: Vec<Sf2Region>)
    requires
        forall|j: int|
            0 <= j < zones.len() ==> zone_fits(#[trigger] zones@[j], instruments@, samples@),
    ensures
        all_whole(r@),
        region_models(r@) == preset_regions(
            *usual,
            zones@,
            instruments@,
            samples@,
            zones.len() as int,
        ),
{
    let mut regions: Vec<Sf2Region> = Vec::new();
    let mut j: usize = 0;
    assert(region_models(regions@) =~= Seq::empty());
    while j < zones.len()
        invariant
            j <= zones.len(),
            all_whole(regions@),
            forall|k: int|
                0 <= k < zones.len() ==> zone_fits(#[trigger] zones@[k], instruments@, samples@),
            region_models(regions@) == preset_regions(
                *usual,
                zones@,
                instruments@,
                samples@,
                j as int,
            ),
        decreases zones.len() - j,
    {
        let zone = &zones[j];
        assert(zone_fits(zones@[j as int], instruments@, samples@));
        if let Some(at) = zone.index {
            merge_zone(&mut regions, usual, zone, &instruments[at as usize].regions, samples);
        }
        j = j + 1;
    }
    regions
}

fn merge_zone(
    regions: &mut Vec<Sf2Region>,
    usual: &Sf2RawEnvelope,
    zone: &Sf2Zone,
    subs: &Vec<Sf2Zone>,
    samples: &Vec<Sf2Sample>,
)
    requires
        forall|k: int| 0 <= k < subs.len() ==> pair_fits(*zone, #[trigger] subs@[k], samples@),
        all_whole(old(regions)@),
    ensures
        all_whole(final(regions)@),
        region_models(final(regions)@) == region_models(old(regions)@) + zone_regions(
            *usual,
            *zone,
            subs@,
            samples@,
            subs.len() as int,
        ),
{
    let ghost before = region_models(regions@);
    let mut k: usize = 0;
    assert(region_models(regions@) =~= before + Seq::<Sf2RegionModel>::empty());
    while k < subs.len()
        invariant
            k <= subs.len(),
            all_whole(regions@),
            forall|i: int| 0 <= i < subs.len() ==> pair_fits(*zone, #[trigger] subs@[i], samples@),
            region_models(regions@) == before + zone_regions(
                *usual,
                *zone,
                subs@,
                samples@,
                k as int,
            ),
        decreases subs.len() - k,
    {
        let sub = &subs[k];
        assert(pair_fits(*zone, subs@[k as int], samples@));
        if let Some(at) = sub.index {
            let sample = &samples[at as usize];
            if sample.data.len() > 0 {
                let ghost so_far = region_models(regions@);
                let region = merge_zones(usual, zone, sub, sample, samples);
                regions.push(region);
                assert(region_models(regions@) =~= so_far.push(region@));
                assert(region_models(regions@) =~= before + zone_regions(
                    *usual,
                    *zone,
                    subs@,
                    samples@,
                    k + 1,
                ));
            }
        }
        k = k + 1;
    }
}

/// The least number of frames in a channel; 0 where there is no channel.
pub open spec fn shortest(channels: Seq<Seq<i16>>) -> int
    decreases channels.len(),
{
    if channels.len() == 0 {
        0
    } else if channels.len() == 1 {
        channels[0].len() as int
    } else {
        let rest = shortest(channels.drop_last());
        if channels.last().len() < rest {
            channels.last().len() as int
        } else {
            rest
        }
    }
}

/// The positions that have been converted to the rate of the output, held to the frames
/// that are there.
pub open spec fn settled(converted: Sf2Positions, frames: int) -> Sf2Positions {
    let sample_end = if converted.sample_end < frames {
        converted.sample_end
    } else {
        frames as u32
    };
    Sf2Positions {
        offset: if converted.offset < frames {
            converted.offset
        } else {
            frames as u32
        },
        sample_end,
        loop_start: if converted.loop_start < sample_end {
            converted.loop_start
        } else {
            sample_end
        },
        loop_end: if converted.loop_end < sample_end {
            converted.loop_end
        } else {
            sample_end
        },
    }
}

/// The lesser of two positions.
fn lesser(a: u32, b: u32) -> (r: u32)
    ensures
        r == (if a < b {
            a
        } else {
            b
        }),
{
    if a < b {
        a
    } else {
        b
    }
}

impl Sf2Region {
    /// How many frames every channel has.
    pub fn rendered_sample_end(&self) -> (r: usize)
        ensures
            r == shortest(self@.sample),
    {
        if self.sample.len() == 0 {
            return 0;
        }
        let ghost channels = self@.sample;
        let mut least: usize = self.sample[0].len();
        let mut i: usize = 1;
        assert(channels.take(1) =~= seq![channels[0]]);
        while i < self.sample.len()
            invariant
                1 <= i <= self.sample.len(),
                channels == self@.sample,
                least == shortest(channels.take(i as int)),
            decreases self.sample.len() - i,
        {
            assert(channels.take(i + 1).drop_last() =~= channels.take(i as int));
            assert(channels[i as int] == self.sample@[i as int]@);
            if self.sample[i].len() < least {
                least = self.sample[i].len();
            }
            i = i + 1;
        }
        assert(channels.take(i as int) =~= channels);
        least
    }

    /// Takes the positions that have been converted to the rate of the output.
    pub fn settle(&mut self, converted: Sf2Positions)
        requires
            shortest(old(self)@.sample) <= u32::MAX,
        ensures
            final(self)@ == (Sf2Region {
                positions: settled(converted, shortest(old(self)@.sample)),
                ..old(self)@
            }),
            final(self).ranges_are_whole() == old(self).ranges_are_whole(),
    {
        let frames: u32 = self.rendered_sample_end() as u32;
        let sample_end = lesser(converted.sample_end, frames);
        self.positions = Sf2Positions {
            offset: lesser(converted.offset, frames),
            sample_end,
            loop_start: lesser(converted.loop_start, sample_end),
            loop_end: lesser(converted.loop_end, sample_end),
        };
    }
}

/// Whatever the conversion to the rate of the output gives, a region begins, ends and
/// repeats within the frames of each of its channels, and its loop lies before its end.
pub proof fn settled_positions_lie_in_the_sample(
    converted: Sf2Positions,
    channels: Seq<Seq<i16>>,
    c: int,
)
    requires
        0 <= c < channels.len(),
        shortest(channels) <= u32::MAX,
    ensures
        ({
            let p = settled(converted, shortest(channels));
            &&& p.offset <= channels[c].len()
            &&& p.sample_end <= channels[c].len()
            &&& p.loop_start <= p.sample_end
            &&& p.loop_end <= p.sample_end
        }),
{
    no_channel_is_shorter(channels, c);
}

proof fn no_channel_is_shorter(channels: Seq<Seq<i16>>, c: int)
    requires
        0 <= c < channels.len(),
    ensures
        0 <= shortest(channels) <= channels[c].len(),
    decreases channels.len(),
{
    if channels.len() > 1 {
        if c < channels.len() - 1 {
            no_channel_is_shorter(channels.drop_last(), c);
        } else {
            no_channel_is_shorter(channels.drop_last(), 0);
        }
    }
}

/// A region begins, ends and repeats within the frames that the file holds.
pub proof fn positions_lie_in_the_sample(preset: Sf2Zone, instrument: Sf2Zone, sample: Sf2Sample)
    requires
        positions_fit(preset, instrument, sample),
    ensures
        ({
            let p = positions_of(preset, instrument, sample);
            &&& p.offset <= p.sample_end <= sample.original_length
            &&& p.loop_start <= p.sample_end
            &&& p.loop_end <= p.sample_end
        }),
{
}

/// A region sounds for a key and a velocity only if both of its zones do.
pub proof fn merged_range_is_within_both(
    preset: Option<(u8, u8)>,
    instrument: Option<(u8, u8)>,
    fixed: Option<u8>,
    v: u8,
)
    ensures
        ({
            let m = merged_range(preset, instrument, fixed);
            let p = range_or_all(preset);
            let i = range_or_all(instrument);
            m.0 <= v <= m.1 <==> p.0 <= v <= p.1 && i.0 <= v <= i.1 && (fixed matches Some(f)
                ==> v == f)
        }),
{
}

/// What two ranges have in common is what lies in both, whichever comes first; a range has
/// itself in common with itself.
pub proof fn common_is_what_lies_in_both(a: (u8, u8), b: (u8, u8), v: u8)
    ensures
        common(a, b).0 <= v <= common(a, b).1 <==> a.0 <= v <= a.1 && b.0 <= v <= b.1,
        common(a, b) == common(b, a),
        common(a, a) == a,
{
}

/// Both sides of a stereo pair give the same two channels, the left one first.
pub proof fn left_comes_first(samples: Seq<Sf2Sample>, left: u16, right: u16)
    requires
        left < samples.len(),
        right < samples.len(),
        samples[left as int].link_type == Sf2SampleLinkType::Left,
        samples[right as int].link_type == Sf2SampleLinkType::Right,
        samples[left as int].linked_sample == Some(right),
        samples[right as int].linked_sample == Some(left),
        samples[left as int].data@.len() > 0,
        samples[right as int].data@.len() > 0,
    ensures
        sides(samples[left as int], samples) == seq![
            samples[left as int].data@,
            samples[right as int].data@,
        ],
        sides(samples[right as int], samples) == sides(samples[left as int], samples),
{
}

/// A sample that is no side, or whose other side has no frames, sounds alone.
pub proof fn others_sound_alone(sample: Sf2Sample, samples: Seq<Sf2Sample>)
    requires
        (sample.link_type != Sf2SampleLinkType::Left && sample.link_type
            != Sf2SampleLinkType::Right) || partner(samples, sample.linked_sample) is None,
    ensures
        sides(sample, samples) == seq![sample.data@],
{
}

/// The modulators of a file that act on the cutoff of the filter are driven by controllers.
pub open spec fn only_controllers_move_cutoff(list: Seq<RawModulator>) -> bool {
    forall|j: int|
        0 <= j < list.len() && (#[trigger] list[j]).destination == INITIAL_FILTER_FC
            ==> is_controller(list[j].source) || is_controller(list[j].amount_source)
}

/// Controllers open no filter: where no generator sets the cutoff and only controllers would
/// move it, the region is not filtered.
pub proof fn controllers_open_no_filter(
    usual: Sf2RawEnvelope,
    preset: Sf2Zone,
    instrument: Sf2Zone,
    sample: Sf2Sample,
    samples: Seq<Sf2Sample>,
    of_preset: Seq<RawModulator>,
    of_instrument: Seq<RawModulator>,
)
    requires
        preset.cutoff is None,
        instrument.cutoff is None,
        preset.note_modulators@ == note_modulators(of_preset),
        instrument.note_modulators@ == note_modulators(of_instrument),
        only_controllers_move_cutoff(of_preset),
        only_controllers_move_cutoff(of_instrument),
    ensures
        merged(usual, preset, instrument, sample, samples).cutoff_cents is None,
{
    reveal(merged);
    let all = preset.note_modulators@ + instrument.note_modulators@;
    assert forall|i: int| 0 <= i < all.len() implies (#[trigger] all[i]).destination
        != Sf2NoteModDestination::InitialFilterFc by {
        let first = preset.note_modulators@.len();
        if i < first {
            note_modulators_stand_in_the_file(of_preset, i);
            let j = choose|j: int|
                0 <= j < of_preset.len() && note_modulator(#[trigger] of_preset[j]) == Some(
                    all[i],
                );
            assert(note_modulator(of_preset[j]) == Some(all[i]));
        } else {
            note_modulators_stand_in_the_file(of_instrument, i - first);
            let j = choose|j: int|
                0 <= j < of_instrument.len() && note_modulator(#[trigger] of_instrument[j])
                    == Some(all[i]);
            assert(note_modulator(of_instrument[j]) == Some(all[i]));
        }
    }
}

/// Each pair of a zone of a preset and a zone of its instrument makes at most one region,
/// and samples without frames make none.
pub proof fn only_samples_with_frames_sound(
    usual: Sf2RawEnvelope,
    zone: Sf2Zone,
    instrument: Seq<Sf2Zone>,
    samples: Seq<Sf2Sample>,
    n: int,
)
    requires
        0 <= n <= instrument.len(),
    ensures
        zone_regions(usual, zone, instrument, samples, n).len() <= n,
        forall|k: int|
            0 <= k < n && (#[trigger] sounding_sample(instrument[k], samples)) is Some
                ==> zone_regions(usual, zone, instrument, samples, n).contains(
                merged(
                    usual,
                    zone,
                    instrument[k],
                    sounding_sample(instrument[k], samples)->0,
                    samples,
                ),
            ),
        forall|i: int|
            0 <= i < zone_regions(usual, zone, instrument, samples, n).len() ==> exists|k: int|
                0 <= k < n && (#[trigger] sounding_sample(instrument[k], samples)) is Some
                    && #[trigger] zone_regions(usual, zone, instrument, samples, n)[i] == merged(
                    usual,
                    zone,
                    instrument[k],
                    sounding_sample(instrument[k], samples)->0,
                    samples,
                ),
    decreases n,
{
    if n > 0 {
        only_samples_with_frames_sound(usual, zone, instrument, samples, n - 1);
        let before = zone_regions(usual, zone, instrument, samples, n - 1);
        let now = zone_regions(usual, zone, instrument, samples, n);
        assert forall|k: int|
            0 <= k < n && (#[trigger] sounding_sample(instrument[k], samples))
                is Some implies now.contains(
            merged(
                usual,
                zone,
                instrument[k],
                sounding_sample(instrument[k], samples)->0,
                samples,
            ),
        ) by {
            let m = merged(
                usual,
                zone,
                instrument[k],
                sounding_sample(instrument[k], samples)->0,
                samples,
            );
            if k < n - 1 {
                let i = choose|i: int| 0 <= i < before.len() && before[i] == m;
                assert(now[i] == m);
            } else {
                assert(now[now.len() - 1] == m);
            }
        }
        assert forall|i: int| 0 <= i < now.len() implies exists|k: int|
            0 <= k < n && (#[trigger] sounding_sample(instrument[k], samples)) is Some
                && #[trigger] now[i] == merged(
                usual,
                zone,
                instrument[k],
                sounding_sample(instrument[k], samples)->0,
                samples,
            ) by {
            if i < before.len() {
                assert(now[i] == before[i]);
                let k = choose|k: int|
                    0 <= k < n - 1 && (#[trigger] sounding_sample(instrument[k], samples)) is Some
                        && before[i] == merged(
                        usual,
                        zone,
                        instrument[k],
                        sounding_sample(instrument[k], samples)->0,
                        samples,
                    );
                assert(sounding_sample(instrument[k], samples) is Some);
            } else {
                assert(sounding_sample(instrument[n - 1], samples) is Some);
            }
        }
    }
}

/// Converted positions that lie in the sample are kept as they are, and each other one is taken
/// back to the nearest that does.
pub proof fn settling_keeps_what_fits(converted: Sf2Positions, frames: int)
    requires
        0 <= frames <= u32::MAX,
    ensures
        ({
            let p = settled(converted, frames);
            &&& converted.offset <= frames ==> p.offset == converted.offset
            &&& converted.offset > frames ==> p.offset == frames
            &&& converted.sample_end <= frames ==> p.sample_end == converted.sample_end
            &&& converted.sample_end > frames ==> p.sample_end == frames
            &&& converted.loop_start <= p.sample_end ==> p.loop_start == converted.loop_start
            &&& converted.loop_start > p.sample_end ==> p.loop_start == p.sample_end
            &&& converted.loop_end <= p.sample_end ==> p.loop_end == converted.loop_end
            &&& converted.loop_end > p.sample_end ==> p.loop_end == p.sample_end
        }),
{
}

/// The end of a region is that of its shortest channel: no channel has fewer frames, and one
/// has just so many.
pub proof fn shortest_channel_counts(channels: Seq<Seq<i16>>)
    requires
        channels.len() > 0,
    ensures
        forall|c: int|
            0 <= c < channels.len() ==> shortest(channels) <= (#[trigger] channels[c]).len(),
        exists|c: int|
            0 <= c < channels.len() && shortest(channels) == (#[trigger] channels[c]).len(),
    decreases channels.len(),
{
    assert forall|c: int| 0 <= c < channels.len() implies shortest(channels) <= (
    #[trigger] channels[c]).len() by {
        no_channel_is_shorter(channels, c);
    }
    if channels.len() == 1 {
        assert(shortest(channels) == channels[0].len());
    } else {
        let rest = channels.drop_last();
        shortest_channel_counts(rest);
        if channels.last().len() < shortest(rest) {
            assert(shortest(channels) == channels[channels.len() - 1].len());
        } else {
            let c = choose|c: int|
                0 <= c < rest.len() && shortest(rest) == (#[trigger] rest[c]).len();
            assert(shortest(channels) == channels[c].len());
        }
    }
}


/// Two zones can be merged exactly where no sum of their values leaves the numbers that a
/// value can have: 16 bits for a value, 32 bits for a position in the sample.
pub proof fn zones_fit_where_their_sums_do(preset: Sf2Zone, instrument: Sf2Zone, sample: Sf2Sample)
    ensures
        ({
            let own = |v: Option<i16>|
                match v {
                    Some(x) => x as int,
                    None => 0int,
                };
            let sum = |a: Option<i16>, b: Option<i16>| own(a) + own(b);
            let position = |v: u32|
                if v < 0x8000_0000 {
                    v as int
                } else {
                    v - 0x1_0000_0000
                };
            let end = sample.original_length + sum(preset.end_offset, instrument.end_offset) + 32768
                * sum(preset.end_offset_coarse, instrument.end_offset_coarse);
            let loop_start = position(sample.loop_start) + sum(
                preset.loop_start_offset,
                instrument.loop_start_offset,
            ) + 32768 * sum(preset.loop_start_offset_coarse, instrument.loop_start_offset_coarse);
            let loop_end = position(sample.loop_end) + sum(
                preset.loop_end_offset,
                instrument.loop_end_offset,
            ) + 32768 * sum(preset.loop_end_offset_coarse, instrument.loop_end_offset_coarse);
            let all = {
                &&& -32768 <= sum(preset.offset, instrument.offset) <= 32767
                &&& -32768 <= sum(preset.offset_coarse, instrument.offset_coarse) <= 32767
                &&& -32768 <= sum(preset.end_offset, instrument.end_offset) <= 32767
                &&& -32768 <= sum(preset.end_offset_coarse, instrument.end_offset_coarse) <= 32767
                &&& -32768 <= sum(preset.loop_start_offset, instrument.loop_start_offset) <= 32767
                &&& -32768 <= sum(preset.loop_start_offset_coarse, instrument.loop_start_offset_coarse) <= 32767
                &&& -32768 <= sum(preset.loop_end_offset, instrument.loop_end_offset) <= 32767
                &&& -32768 <= sum(preset.loop_end_offset_coarse, instrument.loop_end_offset_coarse) <= 32767
                &&& -32768 <= sum(preset.attenuation, instrument.attenuation) <= 32767
                &&& -32768 <= sum(preset.pan, instrument.pan) <= 32767
                &&& -32768 <= sum(preset.resonance, instrument.resonance) <= 32767
                &&& -32768 <= sum(preset.fine_tune, instrument.fine_tune) <= 32767
                &&& -32768 <= sum(preset.coarse_tune, instrument.coarse_tune) <= 32767
                &&& -32768 <= sum(preset.keynum_to_vol_env_hold, instrument.keynum_to_vol_env_hold) <= 32767
                &&& -32768 <= sum(preset.keynum_to_vol_env_decay, instrument.keynum_to_vol_env_decay) <= 32767
                &&& -32768 <= sum(preset.fine_tune, instrument.fine_tune) + sample.pitchadj <= 32767
                &&& sample.original_length < 0x8000_0000
                &&& end < 0x8000_0000
                &&& -0x8000_0000 <= loop_start < 0x8000_0000
                &&& -0x8000_0000 <= loop_end < 0x8000_0000
            };
            zones_fit(preset, instrument, sample) <==> all
        }),
{
}

/// A zone of an instrument can be merged with a zone of a preset where it has no sample, or
/// an empty one, or the two zones fit. It cannot be where its sample is not in the file.
pub proof fn pairs_fit_by_their_sample(zone: Sf2Zone, sub: Sf2Zone, samples: Seq<Sf2Sample>)
    ensures
        sub.index is None ==> pair_fits(zone, sub, samples),
        sub.index matches Some(at) ==> {
            &&& at >= samples.len() ==> !pair_fits(zone, sub, samples)
            &&& at < samples.len() && samples[at as int].data@.len() == 0 ==> pair_fits(
                zone,
                sub,
                samples,
            )
            &&& at < samples.len() && samples[at as int].data@.len() > 0 ==> pair_fits(
                zone,
                sub,
                samples,
            ) == zones_fit(zone, sub, samples[at as int])
        },
{
}

/// A preset can be merged with its instruments exactly where each of its zones either has no
/// instrument, or one of the file, with each of whose zones it can be merged.
pub proof fn presets_fit_zone_by_zone(
    preset: Sf2ParsedPreset,
    instruments: Seq<Sf2Instrument>,
    samples: Seq<Sf2Sample>,
)
    ensures
        preset_fits(preset, instruments, samples) <==> forall|j: int|
            0 <= j < preset.zones@.len() && (#[trigger] preset.zones@[j]).index is Some ==> {
                let at = preset.zones@[j].index->0 as int;
                at < instruments.len() && forall|k: int|
                    0 <= k < instruments[at].regions@.len() ==> pair_fits(
                        preset.zones@[j],
                        #[trigger] instruments[at].regions@[k],
                        samples,
                    )
            },
{
    if preset_fits(preset, instruments, samples) {
        assert forall|j: int|
            0 <= j < preset.zones@.len() && (#[trigger] preset.zones@[j]).index is Some implies {
            let at = preset.zones@[j].index->0 as int;
            at < instruments.len() && forall|k: int|
                0 <= k < instruments[at].regions@.len() ==> pair_fits(
                    preset.zones@[j],
                    #[trigger] instruments[at].regions@[k],
                    samples,
                )
        } by {
            assert(zone_fits(preset.zones@[j], instruments, samples));
        }
    }
}

} // verus!
