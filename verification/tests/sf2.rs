use std::sync::Arc;

use xsynth::sf2::file::{
    RawAmount, RawGenerator, RawInstrument, RawModulator, RawPreset, RawSource, RawZone,
};
use xsynth::sf2::modulator::{
    Sf2NoteCurve, Sf2NoteInput, Sf2NoteModDestination, Sf2NoteModulator, Sf2NoteSource,
};
use xsynth::sf2::preset::{
    build_region_samples, combine_ranges, Sf2Positions, Sf2Preset, Sf2RawEnvelope,
};
use xsynth::sf2::sample::{
    read_frames, Sf2Frames, Sf2ParseError, Sf2Sample, Sf2SampleHeader, Sf2SampleLinkType,
};
use xsynth::sf2::zone::{Sf2Instrument, Sf2ParsedPreset, Sf2Zone};
use xsynth::soundfont::instrument::SampleSoundfont;
use xsynth::soundfont::load::LoopParams;
use xsynth::soundfont::load_sf2::{played_channels, sf2_loop_params, sf2_slot_region};
use xsynth::{ChannelCount, LoopMode};

const USUAL: Sf2RawEnvelope = Sf2RawEnvelope {
    delay_tc: -12000,
    attack_tc: -12000,
    hold_tc: -12000,
    decay_tc: -12000,
    sustain_cb: 0,
    release_tc: -12000,
};

fn zone(index: Option<u16>) -> Sf2Zone {
    Sf2Zone {
        index,
        keyrange: None,
        velrange: None,
        fixed_key: None,
        fixed_velocity: None,
        offset: None,
        offset_coarse: None,
        end_offset: None,
        end_offset_coarse: None,
        loop_start_offset: None,
        loop_start_offset_coarse: None,
        loop_end_offset: None,
        loop_end_offset_coarse: None,
        loop_mode: None,
        root_override: None,
        pan: None,
        attenuation: None,
        cutoff: None,
        resonance: None,
        fine_tune: None,
        coarse_tune: None,
        scale_tuning: None,
        exclusive_class: None,
        env_delay: None,
        env_attack: None,
        env_hold: None,
        env_decay: None,
        env_sustain: None,
        env_release: None,
        keynum_to_vol_env_hold: None,
        keynum_to_vol_env_decay: None,
        note_modulators: Vec::new(),
    }
}

fn header(start: u32, end: u32, sample_type: u16) -> Sf2SampleHeader {
    Sf2SampleHeader {
        start,
        end,
        loop_start: start + 2,
        loop_end: end,
        sample_rate: 44100,
        origpitch: 60,
        pitchadj: -3,
        sample_link: 1,
        sample_type,
    }
}

fn sample(frames: Vec<i16>, sample_type: u16) -> Sf2Sample {
    let h = header(100, 100 + frames.len() as u32, sample_type);
    Sf2Sample::new(&h, Arc::new(frames))
}

fn merge(preset: Sf2Zone, sub: Sf2Zone, samples: Vec<Sf2Sample>) -> Vec<Sf2Preset> {
    let instruments = vec![Sf2Instrument { regions: vec![sub] }];
    let presets = vec![Sf2ParsedPreset { bank: 1, preset: 2, zones: vec![preset] }];
    assert!(presets[0].can_merge(&instruments, &samples));
    Sf2ParsedPreset::merge_presets(&samples, &instruments, &presets, &USUAL)
}

#[test]
fn frames_of_both_widths_are_read() {
    let smpl = vec![0x01, 0x00, 0xff, 0xff, 0x00, 0x80, 0xff, 0x7f];
    assert!(matches!(
        read_frames(Some(smpl.clone()), None),
        Ok(Sf2Frames::Bits16(v)) if v == [1, -1, -32768, 32767]
    ));
    assert!(matches!(
        read_frames(Some(smpl.clone()), Some(vec![0x10, 0x00, 0x01, 0xff])),
        Ok(Sf2Frames::Bits24(v)) if v == [0x110, -0x100, -0x7f_ffff, 0x7f_ffff]
    ));
    assert!(matches!(
        read_frames(Some(smpl), Some(vec![0; 3])),
        Err(Sf2ParseError::FailedToParseFile(m)) if m == "Invalid sample length"
    ));
    assert!(matches!(
        read_frames(None, None),
        Err(Sf2ParseError::FailedToParseFile(m)) if m == "Soundfont does not contain samples"
    ));
    assert!(matches!(
        read_frames(Some(vec![1, 0]), Some(vec![5, 6])),
        Ok(Sf2Frames::Bits24(v)) if v == [0x105]
    ));
}

#[test]
fn samples_are_cut_out() {
    let frames = Sf2Frames::Bits16(vec![0, 1, 2, 3, 4, 5]);
    assert_eq!(frames.len(), 6);
    let mut h = header(2, 5, 1);
    h.loop_start = 1;
    assert!(matches!(frames.of_sample(&h), Sf2Frames::Bits16(v) if v == [2, 3, 4]));
    let s = Sf2Sample::new(&h, Arc::new(vec![2, 3, 4]));
    assert_eq!(s.original_length, 3);
    assert_eq!(s.loop_start, u32::MAX);
    assert_eq!(s.loop_end, 3);
    assert_eq!(s.linked_sample, None);
}

#[test]
fn samples_come_in_the_order_of_their_headers() {
    let headers = vec![header(2, 5, 1), header(7, 9, 4)];
    let data = vec![Arc::new(vec![2, 3, 4]), Arc::new(vec![7, 8])];
    let samples = Sf2Sample::parse_sf2_samples(&headers, &data);
    assert_eq!(samples.len(), 2);
    assert_eq!(*samples[0].data, vec![2, 3, 4]);
    assert_eq!(samples[0].linked_sample, None);
    assert_eq!(*samples[1].data, vec![7, 8]);
    assert_eq!(samples[1].original_length, 2);
    assert_eq!(samples[1].linked_sample, Some(1));
    assert_eq!(samples[1].pitchadj, -3);
}

#[test]
fn sample_types_name_sides() {
    assert_eq!(Sf2SampleLinkType::of(1), Sf2SampleLinkType::Mono);
    assert_eq!(Sf2SampleLinkType::of(0x8002), Sf2SampleLinkType::Right);
    assert_eq!(Sf2SampleLinkType::of(0x14), Sf2SampleLinkType::Left);
    assert_eq!(Sf2SampleLinkType::of(8), Sf2SampleLinkType::Linked);
    assert_eq!(sample(vec![1, 2, 3], 2).linked_sample, Some(1));
}

#[test]
fn zones_add_up() {
    let mut p = zone(Some(0));
    p.pan = Some(400);
    p.attenuation = Some(10);
    p.keyrange = Some((0, 60));
    p.fine_tune = Some(5);
    p.env_attack = Some(100);
    p.cutoff = Some(-500);
    p.exclusive_class = Some(7);
    let mut i = zone(Some(0));
    i.pan = Some(300);
    i.attenuation = Some(-4);
    i.keyrange = Some((40, 127));
    i.velrange = Some((1, 9));
    i.fixed_key = Some(50);
    i.fine_tune = Some(2);
    i.env_attack = Some(-700);
    i.env_release = Some(300);
    i.root_override = Some(62);
    let presets = merge(p, i, vec![sample(vec![1, 2, 3, 4], 1)]);
    assert_eq!((presets[0].bank, presets[0].preset), (1, 2));
    let r = &presets[0].regions[0];
    assert_eq!(r.pan, 500);
    assert_eq!(r.attenuation, 6);
    assert_eq!(r.keyrange, 50..=50);
    assert_eq!(r.velrange, 1..=9);
    assert_eq!(r.fine_tune, 5 + 2 - 3);
    assert_eq!(r.raw_envelope.attack_tc, -600);
    assert_eq!(r.raw_envelope.release_tc, 300);
    assert_eq!(r.raw_envelope.decay_tc, -12000);
    assert_eq!(r.cutoff_cents, Some(13000));
    assert_eq!(r.exclusive_class, Some(7));
    assert_eq!(r.root_key, 62);
    assert_eq!(r.scale_tuning, 100);
    assert_eq!(r.loop_mode, LoopMode::NoLoop);
}

#[test]
fn only_modulators_of_the_filter_open_it() {
    let modulator = |destination| Sf2NoteModulator {
        destination,
        source: Sf2NoteSource {
            input: Sf2NoteInput::Velocity,
            curve: Sf2NoteCurve::Linear,
            negative: true,
            bipolar: false,
        },
        amount: -2400,
        amount_source: None,
        absolute: false,
    };
    let mut i = zone(Some(0));
    i.note_modulators = vec![modulator(Sf2NoteModDestination::InitialAttenuation)];
    let presets = merge(zone(Some(0)), i, vec![sample(vec![1], 1)]);
    assert_eq!(presets[0].regions[0].cutoff_cents, None);
    let mut p = zone(Some(0));
    p.note_modulators = vec![modulator(Sf2NoteModDestination::Pan)];
    let mut i = zone(Some(0));
    i.note_modulators = vec![modulator(Sf2NoteModDestination::InitialFilterFc)];
    let presets = merge(p, i, vec![sample(vec![1], 1)]);
    assert_eq!(presets[0].regions[0].cutoff_cents, Some(13500));
    assert_eq!(
        presets[0].regions[0].note_modulators,
        vec![
            modulator(Sf2NoteModDestination::Pan),
            modulator(Sf2NoteModDestination::InitialFilterFc),
        ]
    );
}

#[test]
fn controllers_open_no_filter() {
    let cutoff = |index: u8, midi: bool| {
        let source = RawSource {
            index,
            midi,
            negative: false,
            bipolar: false,
            linear: true,
            concave: false,
            convex: false,
            switch: false,
        };
        let none = RawSource { index: 0, midi: false, ..source };
        let modulators = vec![RawModulator {
            source,
            destination: 8,
            amount: 1200,
            amount_source: none,
            transform: 0,
        }];
        let named = |code| vec![RawGenerator { code, amount: RawAmount::Index(0) }];
        let instruments = Sf2Instrument::parse_instruments(&vec![RawInstrument {
            zones: vec![RawZone { generators: named(53), modulators }],
        }]);
        let presets = Sf2ParsedPreset::parse_presets(&vec![RawPreset {
            bank: 0,
            preset: 0,
            zones: vec![RawZone { generators: named(41), modulators: Vec::new() }],
        }]);
        let samples = vec![sample(vec![1, 2], 1)];
        assert!(presets[0].can_merge(&instruments, &samples));
        let merged = Sf2ParsedPreset::merge_presets(&samples, &instruments, &presets, &USUAL);
        merged[0].regions[0].cutoff_cents
    };
    assert_eq!(cutoff(2, false), Some(13500));
    assert_eq!(cutoff(3, false), Some(13500));
    assert_eq!(cutoff(1, true), None);
    assert_eq!(cutoff(2, true), None);
    assert_eq!(cutoff(13, false), None);
}

#[test]
fn ranges_and_sides_are_combined() {
    assert_eq!(combine_ranges((10, 60), (40, 127)), (40, 60));
    assert_eq!(combine_ranges((40, 127), (10, 60)), (40, 60));
    let (lo, hi) = combine_ranges((0, 5), (9, 12));
    assert!(lo > hi);
    let mut left = sample(vec![1], 4);
    left.linked_sample = Some(1);
    let mut right = sample(vec![2], 2);
    right.linked_sample = Some(0);
    let samples = vec![left, right, sample(vec![3], 1)];
    let frames = |i: usize| -> Vec<i16> {
        build_region_samples(&samples[i], &samples).iter().map(|c| c[0]).collect()
    };
    assert_eq!(frames(0), [1, 2]);
    assert_eq!(frames(1), [1, 2]);
    assert_eq!(frames(2), [3]);
}

#[test]
fn positions_stay_in_the_sample() {
    let mut p = zone(Some(0));
    p.end_offset = Some(-4);
    p.offset = Some(3);
    p.loop_end_offset_coarse = Some(1);
    let mut i = zone(Some(0));
    i.offset_coarse = Some(1);
    i.loop_start_offset = Some(-9);
    let presets = merge(p, i, vec![sample(vec![0; 10], 1)]);
    assert_eq!(
        presets[0].regions[0].positions,
        Sf2Positions { offset: 6, sample_end: 6, loop_start: 0, loop_end: 6 }
    );
}

#[test]
fn converted_positions_are_held_to_the_frames() {
    let mut presets = merge(zone(Some(0)), zone(Some(0)), vec![sample(vec![0; 10], 1)]);
    let region = &mut presets[0].regions[0];
    assert_eq!(region.rendered_sample_end(), 10);
    region.settle(Sf2Positions { offset: 50, sample_end: 9, loop_start: 4, loop_end: 12 });
    assert_eq!(
        region.positions,
        Sf2Positions { offset: 10, sample_end: 9, loop_start: 4, loop_end: 9 }
    );
    assert_eq!(
        sf2_loop_params(region),
        LoopParams {
            mode: LoopMode::NoLoop,
            offset: 10,
            start: 4,
            end: 9,
            stop: Some(9),
            crossfade: 0,
        }
    );
}

#[test]
fn both_sides_of_a_sound_are_found() {
    let left = sample(vec![1, 1], 4);
    let mut right = sample(vec![2, 2, 2], 2);
    right.linked_sample = Some(0);
    let presets = merge(zone(Some(0)), zone(Some(0)), vec![left, right]);
    let r = &presets[0].regions[0];
    assert_eq!(r.sample.len(), 2);
    assert_eq!(*r.sample[0], vec![1, 1]);
    assert_eq!(*r.sample[1], vec![2, 2, 2]);
    assert_eq!(r.rendered_sample_end(), 2);
    assert_eq!(played_channels(r, ChannelCount::Stereo), [0, 1]);
    let left = sample(vec![1, 1], 4);
    let mut right = sample(vec![2, 2, 2], 2);
    right.linked_sample = Some(0);
    let presets = merge(zone(Some(0)), zone(Some(1)), vec![left, right]);
    assert_eq!(*presets[0].regions[0].sample[0], vec![1, 1]);
    let presets = merge(zone(Some(0)), zone(Some(0)), vec![sample(vec![7], 1)]);
    assert_eq!(played_channels(&presets[0].regions[0], ChannelCount::Stereo), [0, 0]);
    assert_eq!(played_channels(&presets[0].regions[0], ChannelCount::Mono), [0]);
}

#[test]
fn empty_samples_and_zones_make_no_region() {
    let presets = merge(zone(Some(0)), zone(Some(0)), vec![sample(vec![], 1)]);
    assert!(presets[0].regions.is_empty());
    let presets = merge(zone(None), zone(Some(0)), vec![sample(vec![1], 1)]);
    assert!(presets[0].regions.is_empty());
    let presets = merge(zone(Some(0)), zone(None), vec![]);
    assert!(presets[0].regions.is_empty());
}

#[test]
fn what_is_missing_is_noticed() {
    let preset = Sf2ParsedPreset { bank: 0, preset: 0, zones: vec![zone(Some(1))] };
    assert!(!preset.can_merge(&vec![], &vec![]));
    let instruments = vec![Sf2Instrument { regions: vec![zone(Some(4))] }];
    let preset = Sf2ParsedPreset { bank: 0, preset: 0, zones: vec![zone(Some(0))] };
    assert!(!preset.can_merge(&instruments, &vec![]));
    let mut loud = zone(Some(0));
    loud.attenuation = Some(i16::MAX);
    let mut sub = zone(Some(0));
    sub.attenuation = Some(1);
    let instruments = vec![Sf2Instrument { regions: vec![sub] }];
    let preset = Sf2ParsedPreset { bank: 0, preset: 0, zones: vec![loud] };
    assert!(!preset.can_merge(&instruments, &vec![sample(vec![1], 1)]));
}

#[test]
fn presets_become_instruments() {
    let mut presets = merge(zone(Some(0)), zone(Some(0)), vec![sample(vec![1], 1)]);
    presets.push(Sf2Preset { bank: 256 + 1, preset: 3, regions: vec![] });
    let all = SampleSoundfont::new_sf2(5, &presets, None, None);
    assert_eq!(all.id, 5);
    assert_eq!(all.instruments.len(), 2);
    assert_eq!((all.instruments[1].bank, all.instruments[1].preset), (1, 3));
    assert_eq!(all.instruments[0].spawner_params_list[60 * 128 + 64].len(), 1);
    assert!(all.instruments[0].release_spawner_params_list[60 * 128 + 64].is_empty());
    assert_eq!(SampleSoundfont::new_sf2(5, &presets, Some(1), Some(2)).instruments.len(), 1);
    assert_eq!(SampleSoundfont::new_sf2(5, &presets, Some(0), None).instruments.len(), 0);
    let slot = sf2_slot_region(&presets[0].regions[0]);
    assert_eq!((slot.lokey, slot.hikey, slot.lovel, slot.hivel), (0, 127, 0, 127));
}

#[test]
fn ranges_are_narrowed_in_either_order() {
    let ranges = |p: (u8, u8), i: (u8, u8)| {
        let (mut preset, mut sub) = (zone(Some(0)), zone(Some(0)));
        preset.keyrange = Some(p);
        sub.keyrange = Some(i);
        let merged = merge(preset, sub, vec![sample(vec![1], 1)]);
        merged[0].regions[0].keyrange.clone()
    };
    assert_eq!(ranges((10, 80), (40, 100)), 40..=80);
    assert_eq!(ranges((40, 100), (10, 80)), 40..=80);
    assert_eq!(ranges((10, 80), (10, 80)), 10..=80);
    assert!(ranges((10, 20), (30, 40)).is_empty());
}
