//! What the regions of a preset have to do with the zones that they are merged from.

use super::modulator::Sf2NoteModDestination;
use super::preset::{
    merged, merged_preset, pair_fits, preset_fits, preset_regions, zone_fits, zone_regions,
    zones_fit, Sf2Positions, Sf2RawEnvelope, Sf2RegionModel,
};
use super::sample::{Sf2Sample, Sf2SampleLinkType};
use super::zone::{Sf2Instrument, Sf2ParsedPreset, Sf2Zone};
use crate::LoopMode;
use vstd::prelude::*;

verus! {

/// What a value of a zone counts for.
pub open spec fn worth(v: Option<i16>) -> int {
    match v {
        Some(x) => x as int,
        None => 0,
    }
}

/// A zone of an instrument names a sample that has frames.
pub open spec fn has_frames(sub: Sf2Zone, samples: Seq<Sf2Sample>) -> bool {
    sub.index matches Some(at) && samples[at as int].data@.len() > 0
}

/// How many of the first `n` zones of an instrument name samples that have frames.
pub open spec fn subs_with_frames(
    instrument: Seq<Sf2Zone>,
    samples: Seq<Sf2Sample>,
    n: int,
) -> int
    decreases n,
{
    if n <= 0 {
        0
    } else {
        subs_with_frames(instrument, samples, n - 1) + if has_frames(instrument[n - 1], samples) {
            1int
        } else {
            0
        }
    }
}

/// In how many ways the first `n` zones of a preset go together with zones of their
/// instruments whose samples have frames.
pub open spec fn pairs_with_frames(
    zones: Seq<Sf2Zone>,
    instruments: Seq<Sf2Instrument>,
    samples: Seq<Sf2Sample>,
    n: int,
) -> int
    decreases n,
{
    if n <= 0 {
        0
    } else {
        pairs_with_frames(zones, instruments, samples, n - 1) + match zones[n - 1].index {
            Some(at) => subs_with_frames(
                instruments[at as int].regions@,
                samples,
                instruments[at as int].regions@.len() as int,
            ),
            None => 0,
        }
    }
}

/// What both zones say counts: the values of the region are the sums of theirs, and the sample
/// adds its own correction to the pitch. The pan stays between its ends.
pub open spec fn values_add_up(
    zone: Sf2Zone,
    sub: Sf2Zone,
    sample: Sf2Sample,
    region: Sf2RegionModel,
) -> bool {
    let pan = worth(zone.pan) + worth(sub.pan);
    &&& region.attenuation == worth(zone.attenuation) + worth(sub.attenuation)
    &&& region.resonance == worth(zone.resonance) + worth(sub.resonance)
    &&& region.fine_tune == worth(zone.fine_tune) + worth(sub.fine_tune) + sample.pitchadj
    &&& region.coarse_tune == worth(zone.coarse_tune) + worth(sub.coarse_tune)
    &&& region.keynum_to_vol_env_hold == worth(zone.keynum_to_vol_env_hold) + worth(
        sub.keynum_to_vol_env_hold,
    )
    &&& region.keynum_to_vol_env_decay == worth(zone.keynum_to_vol_env_decay) + worth(
        sub.keynum_to_vol_env_decay,
    )
    &&& -500 <= pan <= 500 ==> region.pan == pan
    &&& pan < -500 ==> region.pan == -500
    &&& pan > 500 ==> region.pan == 500
}

/// Where only one value can be, that of the instrument goes first, then that of the preset; only
/// for the loop mode it is the other way round. Where neither zone says anything, the key of
/// the sample counts, every key is a semitone, and nothing repeats.
pub open spec fn one_value_goes_first(
    zone: Sf2Zone,
    sub: Sf2Zone,
    sample: Sf2Sample,
    region: Sf2RegionModel,
) -> bool {
    &&& sub.root_override matches Some(key) ==> region.root_key == key as u8
    &&& sub.root_override is None ==> (zone.root_override matches Some(key) ==> region.root_key
        == key as u8)
    &&& sub.root_override is None && zone.root_override is None ==> region.root_key
        == sample.origpitch
    &&& zone.loop_mode matches Some(mode) ==> region.loop_mode == mode
    &&& zone.loop_mode is None ==> (sub.loop_mode matches Some(mode) ==> region.loop_mode == mode)
    &&& zone.loop_mode is None && sub.loop_mode is None ==> region.loop_mode == LoopMode::NoLoop
    &&& sub.scale_tuning matches Some(v) ==> region.scale_tuning == v
    &&& sub.scale_tuning is None ==> (zone.scale_tuning matches Some(v) ==> region.scale_tuning
        == v)
    &&& sub.scale_tuning is None && zone.scale_tuning is None ==> region.scale_tuning == 100
    &&& sub.exclusive_class is Some ==> region.exclusive_class == sub.exclusive_class
    &&& sub.exclusive_class is None ==> region.exclusive_class == zone.exclusive_class
}

/// A value of the preset moves that of the instrument, or the usual one where the instrument
/// has none.
pub open spec fn is_moved(v: i32, usual: int, zone: Option<i16>, sub: Option<i16>) -> bool {
    &&& sub is None ==> v == usual + worth(zone)
    &&& sub matches Some(own) ==> v == own + worth(zone)
}

/// The preset moves the envelope of the instrument, stage by stage.
pub open spec fn envelope_is_moved(
    usual: Sf2RawEnvelope,
    zone: Sf2Zone,
    sub: Sf2Zone,
    region: Sf2RegionModel,
) -> bool {
    let e = region.raw_envelope;
    &&& is_moved(e.delay_tc, usual.delay_tc as int, zone.env_delay, sub.env_delay)
    &&& is_moved(e.attack_tc, usual.attack_tc as int, zone.env_attack, sub.env_attack)
    &&& is_moved(e.hold_tc, usual.hold_tc as int, zone.env_hold, sub.env_hold)
    &&& is_moved(e.decay_tc, usual.decay_tc as int, zone.env_decay, sub.env_decay)
    &&& is_moved(e.sustain_cb, usual.sustain_cb as int, zone.env_sustain, sub.env_sustain)
    &&& is_moved(e.release_tc, usual.release_tc as int, zone.env_release, sub.env_release)
}

/// A region is filtered where one of its zones sets the cutoff or a modulator of one of them
/// acts on it; the preset moves the cutoff of the instrument.
pub open spec fn filter_is_moved(zone: Sf2Zone, sub: Sf2Zone, region: Sf2RegionModel) -> bool {
    let acted_on = exists|i: int|
        0 <= i < region.note_modulators.len() && (#[trigger] region.note_modulators[i]).destination
            is InitialFilterFc;
    &&& region.note_modulators == zone.note_modulators@ + sub.note_modulators@
    &&& region.cutoff_cents is Some <==> zone.cutoff is Some || sub.cutoff is Some || acted_on
    &&& region.cutoff_cents matches Some(v) ==> is_moved(v, 13500, zone.cutoff, sub.cutoff)
}

/// A value lies in the range of a zone; in all of MIDI's where the zone has none.
pub open spec fn lies_in(v: u8, range: Option<(u8, u8)>) -> bool {
    match range {
        Some((lo, hi)) => lo <= v <= hi,
        None => v <= 127,
    }
}

/// A region sounds for the keys and velocities that lie in the ranges of both zones, and of
/// those only for the fixed one where a zone fixes it, the instrument first.
pub open spec fn ranges_are_common(zone: Sf2Zone, sub: Sf2Zone, region: Sf2RegionModel) -> bool {
    let key = if sub.fixed_key is Some {
        sub.fixed_key
    } else {
        zone.fixed_key
    };
    let vel = if sub.fixed_velocity is Some {
        sub.fixed_velocity
    } else {
        zone.fixed_velocity
    };
    forall|v: u8|
        #![trigger lies_in(v, zone.keyrange)]
        #![trigger lies_in(v, zone.velrange)]
        {
            &&& region.keyrange.0 <= v <= region.keyrange.1 <==> lies_in(v, zone.keyrange)
                && lies_in(v, sub.keyrange) && (key is Some ==> key == Some(v))
            &&& region.velrange.0 <= v <= region.velrange.1 <==> lies_in(v, zone.velrange)
                && lies_in(v, sub.velrange) && (vel is Some ==> vel == Some(v))
        }
}

/// By how many frames two zones together move a position: one by one, and in steps of 32768.
pub open spec fn shift(
    zone: Option<i16>,
    zone_coarse: Option<i16>,
    sub: Option<i16>,
    sub_coarse: Option<i16>,
) -> int {
    worth(zone) + worth(sub) + 32768 * (worth(zone_coarse) + worth(sub_coarse))
}

/// A position, held between the start of a sample and an end.
pub open spec fn up_to(v: int, end: int) -> int {
    if v < 0 {
        0
    } else if v > end {
        end
    } else {
        v
    }
}

/// A point of a loop in the frames of its sample. One that lies before the sample is kept as
/// a number that has wrapped around.
pub open spec fn loop_point(v: u32) -> int {
    if v < 0x8000_0000 {
        v as int
    } else {
        v - 0x1_0000_0000
    }
}

/// Both zones together move where the sample begins, ends and repeats; nothing lies behind the
/// end, and the end not behind that of the sample.
pub open spec fn positions_are_moved(
    zone: Sf2Zone,
    sub: Sf2Zone,
    sample: Sf2Sample,
    p: Sf2Positions,
) -> bool {
    &&& p.sample_end == up_to(
        sample.original_length + shift(
            zone.end_offset,
            zone.end_offset_coarse,
            sub.end_offset,
            sub.end_offset_coarse,
        ),
        sample.original_length as int,
    )
    &&& p.offset == up_to(
        shift(zone.offset, zone.offset_coarse, sub.offset, sub.offset_coarse),
        p.sample_end as int,
    )
    &&& p.loop_start == up_to(
        loop_point(sample.loop_start) + shift(
            zone.loop_start_offset,
            zone.loop_start_offset_coarse,
            sub.loop_start_offset,
            sub.loop_start_offset_coarse,
        ),
        p.sample_end as int,
    )
    &&& p.loop_end == up_to(
        loop_point(sample.loop_end) + shift(
            zone.loop_end_offset,
            zone.loop_end_offset_coarse,
            sub.loop_end_offset,
            sub.loop_end_offset_coarse,
        ),
        p.sample_end as int,
    )
}

/// A region plays its sample; where that is one side of a sound and the other side has frames,
/// both of them, the left one first.
pub open spec fn sides_are_played(
    sample: Sf2Sample,
    samples: Seq<Sf2Sample>,
    region: Sf2RegionModel,
) -> bool {
    let other = match sample.linked_sample {
        Some(at) => if at < samples.len() {
            samples[at as int].data@
        } else {
            Seq::empty()
        },
        None => Seq::empty(),
    };
    let paired = other.len() > 0;
    let left = sample.link_type == Sf2SampleLinkType::Left;
    let right = sample.link_type == Sf2SampleLinkType::Right;
    &&& region.sample_rate == sample.sample_rate
    &&& paired && left ==> region.sample == seq![sample.data@, other]
    &&& paired && right ==> region.sample == seq![other, sample.data@]
    &&& !paired || !left && !right ==> region.sample == seq![sample.data@]
}

/// The region is what a zone of a preset and a zone of its instrument make of a sample.
pub open spec fn comes_of(
    usual: Sf2RawEnvelope,
    zone: Sf2Zone,
    sub: Sf2Zone,
    sample: Sf2Sample,
    samples: Seq<Sf2Sample>,
    region: Sf2RegionModel,
) -> bool {
    &&& values_add_up(zone, sub, sample, region)
    &&& one_value_goes_first(zone, sub, sample, region)
    &&& envelope_is_moved(usual, zone, sub, region)
    &&& filter_is_moved(zone, sub, region)
    &&& ranges_are_common(zone, sub, region)
    &&& positions_are_moved(zone, sub, sample, region.positions)
    &&& sides_are_played(sample, samples, region)
}

/// The usual envelope has values of the width that zones have.
pub open spec fn is_usual(e: Sf2RawEnvelope) -> bool {
    &&& i16::MIN <= e.delay_tc <= i16::MAX
    &&& i16::MIN <= e.attack_tc <= i16::MAX
    &&& i16::MIN <= e.hold_tc <= i16::MAX
    &&& i16::MIN <= e.decay_tc <= i16::MAX
    &&& i16::MIN <= e.sustain_cb <= i16::MAX
    &&& i16::MIN <= e.release_tc <= i16::MAX
}

proof fn merged_comes_of(
    usual: Sf2RawEnvelope,
    zone: Sf2Zone,
    sub: Sf2Zone,
    sample: Sf2Sample,
    samples: Seq<Sf2Sample>,
)
    requires
        is_usual(usual),
        zones_fit(zone, sub, sample),
    ensures
        comes_of(usual, zone, sub, sample, samples, merged(usual, zone, sub, sample, samples)),
{
    reveal(merged);
    let region = merged(usual, zone, sub, sample, samples);
    assert(values_add_up(zone, sub, sample, region));
    assert(one_value_goes_first(zone, sub, sample, region));
    assert(envelope_is_moved(usual, zone, sub, region));
    assert(filter_is_moved(zone, sub, region)) by {
        let all = region.note_modulators;
        assert(forall|i: int|
            0 <= i < all.len() ==> ((#[trigger] all[i]).destination is InitialFilterFc
                <==> all[i].destination == Sf2NoteModDestination::InitialFilterFc));
    }
    assert(ranges_are_common(zone, sub, region));
    assert(positions_are_moved(zone, sub, sample, region.positions));
    assert(sides_are_played(sample, samples, region));
}

proof fn subs_stand_in_order(
    usual: Sf2RawEnvelope,
    zone: Sf2Zone,
    instrument: Seq<Sf2Zone>,
    samples: Seq<Sf2Sample>,
    n: int,
    k: int,
)
    requires
        0 <= k < n <= instrument.len(),
    ensures
        ({
            let regions = zone_regions(usual, zone, instrument, samples, n);
            let place = subs_with_frames(instrument, samples, k);
            &&& regions.len() == subs_with_frames(instrument, samples, n)
            &&& has_frames(instrument[k], samples) ==> 0 <= place < regions.len()
                && regions[place] == merged(
                usual,
                zone,
                instrument[k],
                samples[instrument[k].index->0 as int],
                samples,
            )
        }),
    decreases n,
{
    subs_are_counted(usual, zone, instrument, samples, n - 1);
    subs_are_counted(usual, zone, instrument, samples, n);
    if k < n - 1 {
        subs_stand_in_order(usual, zone, instrument, samples, n - 1, k);
    }
}

proof fn subs_are_counted(
    usual: Sf2RawEnvelope,
    zone: Sf2Zone,
    instrument: Seq<Sf2Zone>,
    samples: Seq<Sf2Sample>,
    n: int,
)
    requires
        0 <= n <= instrument.len(),
    ensures
        zone_regions(usual, zone, instrument, samples, n).len() == subs_with_frames(
            instrument,
            samples,
            n,
        ),
    decreases n,
{
    if n > 0 {
        subs_are_counted(usual, zone, instrument, samples, n - 1);
    }
}

proof fn pairs_are_counted(
    usual: Sf2RawEnvelope,
    zones: Seq<Sf2Zone>,
    instruments: Seq<Sf2Instrument>,
    samples: Seq<Sf2Sample>,
    n: int,
)
    requires
        0 <= n <= zones.len(),
    ensures
        preset_regions(usual, zones, instruments, samples, n).len() == pairs_with_frames(
            zones,
            instruments,
            samples,
            n,
        ),
    decreases n,
{
    if n > 0 {
        pairs_are_counted(usual, zones, instruments, samples, n - 1);
        if let Some(at) = zones[n - 1].index {
            let instrument = instruments[at as int].regions@;
            subs_are_counted(usual, zones[n - 1], instrument, samples, instrument.len() as int);
        }
    }
}

proof fn pairs_stand_in_order(
    usual: Sf2RawEnvelope,
    zones: Seq<Sf2Zone>,
    instruments: Seq<Sf2Instrument>,
    samples: Seq<Sf2Sample>,
    n: int,
    j: int,
    k: int,
)
    requires
        0 <= j < n <= zones.len(),
        zones[j].index is Some,
        0 <= k < instruments[zones[j].index->0 as int].regions@.len(),
        has_frames(instruments[zones[j].index->0 as int].regions@[k], samples),
    ensures
        ({
            let regions = preset_regions(usual, zones, instruments, samples, n);
            let instrument = instruments[zones[j].index->0 as int].regions@;
            let place = pairs_with_frames(zones, instruments, samples, j) + subs_with_frames(
                instrument,
                samples,
                k,
            );
            &&& 0 <= place < regions.len()
            &&& regions[place] == merged(
                usual,
                zones[j],
                instrument[k],
                samples[instrument[k].index->0 as int],
                samples,
            )
        }),
    decreases n,
{
    let before = preset_regions(usual, zones, instruments, samples, n - 1);
    pairs_are_counted(usual, zones, instruments, samples, n - 1);
    if j < n - 1 {
        pairs_stand_in_order(usual, zones, instruments, samples, n - 1, j, k);
    } else {
        let instrument = instruments[zones[j].index->0 as int].regions@;
        subs_stand_in_order(
            usual,
            zones[j],
            instrument,
            samples,
            instrument.len() as int,
            k,
        );
    }
}

/// A preset keeps its numbers, and it has one region for each zone with an instrument and each
/// zone of that instrument whose sample has frames, in the order of the zones. The region is
/// what the two zones make of the sample: their values add up, their ranges narrow each other
/// down, the preset moves what the instrument sets.
pub proof fn regions_come_of_their_zones(
    usual: Sf2RawEnvelope,
    preset: Sf2ParsedPreset,
    instruments: Seq<Sf2Instrument>,
    samples: Seq<Sf2Sample>,
    j: int,
    k: int,
)
    requires
        is_usual(usual),
        preset_fits(preset, instruments, samples),
        0 <= j < preset.zones@.len(),
        preset.zones@[j].index is Some,
        0 <= k < instruments[preset.zones@[j].index->0 as int].regions@.len(),
        has_frames(instruments[preset.zones@[j].index->0 as int].regions@[k], samples),
    ensures
        ({
            let m = merged_preset(usual, preset, instruments, samples);
            let zone = preset.zones@[j];
            let instrument = instruments[zone.index->0 as int].regions@;
            let sub = instrument[k];
            let sample = samples[sub.index->0 as int];
            let place = pairs_with_frames(preset.zones@, instruments, samples, j)
                + subs_with_frames(instrument, samples, k);
            &&& m.bank == preset.bank
            &&& m.preset == preset.preset
            &&& m.regions.len() == pairs_with_frames(
                preset.zones@,
                instruments,
                samples,
                preset.zones@.len() as int,
            )
            &&& 0 <= place < m.regions.len()
            &&& comes_of(usual, zone, sub, sample, samples, m.regions[place])
        }),
{
    let zones = preset.zones@;
    let zone = zones[j];
    let instrument = instruments[zone.index->0 as int].regions@;
    let sub = instrument[k];
    let sample = samples[sub.index->0 as int];
    pairs_are_counted(usual, zones, instruments, samples, zones.len() as int);
    pairs_stand_in_order(usual, zones, instruments, samples, zones.len() as int, j, k);
    assert(zone_fits(zone, instruments, samples));
    assert(pair_fits(zone, sub, samples));
    merged_comes_of(usual, zone, sub, sample, samples);
}

/// Every region of a preset comes of a zone with an instrument and a zone of that instrument
/// whose sample has frames.
pub proof fn every_region_comes_of_zones(
    usual: Sf2RawEnvelope,
    preset: Sf2ParsedPreset,
    instruments: Seq<Sf2Instrument>,
    samples: Seq<Sf2Sample>,
    i: int,
) -> (pair: (int, int))
    requires
        is_usual(usual),
        preset_fits(preset, instruments, samples),
        0 <= i < merged_preset(usual, preset, instruments, samples).regions.len(),
    ensures
        ({
            let (j, k) = pair;
            let zone = preset.zones@[j];
            let instrument = instruments[zone.index->0 as int].regions@;
            let sub = instrument[k];
            &&& 0 <= j < preset.zones@.len()
            &&& zone.index is Some
            &&& 0 <= k < instrument.len()
            &&& has_frames(sub, samples)
            &&& i == pairs_with_frames(preset.zones@, instruments, samples, j) + subs_with_frames(
                instrument,
                samples,
                k,
            )
            &&& comes_of(
                usual,
                zone,
                sub,
                samples[sub.index->0 as int],
                samples,
                merged_preset(usual, preset, instruments, samples).regions[i],
            )
        }),
{
    let zones = preset.zones@;
    pairs_are_counted(usual, zones, instruments, samples, zones.len() as int);
    let (j, k) = pair_at(usual, zones, instruments, samples, zones.len() as int, i);
    regions_come_of_their_zones(usual, preset, instruments, samples, j, k);
    (j, k)
}

proof fn pair_at(
    usual: Sf2RawEnvelope,
    zones: Seq<Sf2Zone>,
    instruments: Seq<Sf2Instrument>,
    samples: Seq<Sf2Sample>,
    n: int,
    i: int,
) -> (pair: (int, int))
    requires
        0 <= n <= zones.len(),
        0 <= i < pairs_with_frames(zones, instruments, samples, n),
    ensures
        ({
            let (j, k) = pair;
            let instrument = instruments[zones[j].index->0 as int].regions@;
            &&& 0 <= j < n
            &&& zones[j].index is Some
            &&& 0 <= k < instrument.len()
            &&& has_frames(instrument[k], samples)
            &&& i == pairs_with_frames(zones, instruments, samples, j) + subs_with_frames(
                instrument,
                samples,
                k,
            )
        }),
    decreases n,
{
    let before = pairs_with_frames(zones, instruments, samples, n - 1);
    if i < before {
        pair_at(usual, zones, instruments, samples, n - 1, i)
    } else {
        let instrument = instruments[zones[n - 1].index->0 as int].regions@;
        (n - 1, sub_at(instrument, samples, instrument.len() as int, i - before))
    }
}

proof fn sub_at(instrument: Seq<Sf2Zone>, samples: Seq<Sf2Sample>, n: int, i: int) -> (k: int)
    requires
        0 <= n <= instrument.len(),
        0 <= i < subs_with_frames(instrument, samples, n),
    ensures
        0 <= k < n,
        has_frames(instrument[k], samples),
        i == subs_with_frames(instrument, samples, k),
    decreases n,
{
    if i < subs_with_frames(instrument, samples, n - 1) {
        sub_at(instrument, samples, n - 1, i)
    } else {
        n - 1
    }
}

/// Whichever of the two zones raises a value that adds up, the region follows by the same
/// amount.
pub proof fn regions_follow_both_zones(
    usual: Sf2RawEnvelope,
    zone: Sf2Zone,
    sub: Sf2Zone,
    new_zone: Sf2Zone,
    new_sub: Sf2Zone,
    sample: Sf2Sample,
    samples: Seq<Sf2Sample>,
)
    requires
        zones_fit(zone, sub, sample),
        zones_fit(new_zone, new_sub, sample),
    ensures
        ({
            let a = merged(usual, zone, sub, sample, samples);
            let b = merged(usual, new_zone, new_sub, sample, samples);
            &&& b.attenuation - a.attenuation == worth(new_zone.attenuation) - worth(
                zone.attenuation,
            ) + worth(new_sub.attenuation) - worth(sub.attenuation)
            &&& b.resonance - a.resonance == worth(new_zone.resonance) - worth(zone.resonance)
                + worth(new_sub.resonance) - worth(sub.resonance)
            &&& b.fine_tune - a.fine_tune == worth(new_zone.fine_tune) - worth(zone.fine_tune)
                + worth(new_sub.fine_tune) - worth(sub.fine_tune)
            &&& b.coarse_tune - a.coarse_tune == worth(new_zone.coarse_tune) - worth(
                zone.coarse_tune,
            ) + worth(new_sub.coarse_tune) - worth(sub.coarse_tune)
            &&& b.keynum_to_vol_env_hold - a.keynum_to_vol_env_hold == worth(
                new_zone.keynum_to_vol_env_hold,
            ) - worth(zone.keynum_to_vol_env_hold) + worth(new_sub.keynum_to_vol_env_hold) - worth(
                sub.keynum_to_vol_env_hold,
            )
            &&& b.keynum_to_vol_env_decay - a.keynum_to_vol_env_decay == worth(
                new_zone.keynum_to_vol_env_decay,
            ) - worth(zone.keynum_to_vol_env_decay) + worth(new_sub.keynum_to_vol_env_decay)
                - worth(sub.keynum_to_vol_env_decay)
        }),
{
    reveal(merged);
}

} // verus!
