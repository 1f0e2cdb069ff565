use std::sync::Arc;

use xsynth::effects::delay::StereoFeedbackDelay;
use xsynth::sfz::parse::SfzNumber;
use xsynth::sfz::region::TriggerType;
use xsynth::soundfont::audio::SampleStorage;
use xsynth::soundfont::instrument::{
    key_vel_to_index, SampleSoundfont, SlotRegion, SoundfontInstrument,
};
use xsynth::soundfont::load::{head_for, head_peak, zero_heads, HeadNeed, LoopParams};
use xsynth::soundfont::ring::{StreamRing, UnderrunCounters, VoiceStream};
use xsynth::soundfont::source::SampleSource;
use xsynth::voice::modulation::{cc_lookup, CcLevel, Countdown, FilegStage, RECOMPUTE_INTERVAL};
use xsynth::voice::sampler::{
    stereo_channels, BufferSamplers, SampleReaderLoop, SampleReaderLoopSustain, SampleReaderNoLoop, SampleReaders,
    Tap,
};
use xsynth::LoopMode;

fn params(mode: LoopMode, crossfade: u32) -> LoopParams {
    LoopParams { mode, offset: 0, start: 100, end: 110, stop: None, crossfade }
}

#[test]
fn samples_fade_out_at_their_end() {
    let reader = SampleReaderNoLoop::new(1000, &params(LoopMode::NoLoop, 0));
    assert_eq!(reader.get(743), Tap::Frame { at: 743 });
    assert_eq!(reader.get(744), Tap::Faded { at: 744, level: 256 });
    assert_eq!(reader.get(999), Tap::Faded { at: 999, level: 1 });
    assert_eq!(reader.get(1000), Tap::Faded { at: 1000, level: 0 });
    assert!(!reader.is_past_end(999));
    assert!(reader.is_past_end(1000));
    let mut short = params(LoopMode::NoLoop, 0);
    short.stop = Some(300);
    short.offset = 10;
    let reader = SampleReaderNoLoop::new(1000, &short);
    assert_eq!(reader.get(34), Tap::Faded { at: 44, level: 256 });
    assert_eq!(reader.get(33), Tap::Frame { at: 43 });
    assert!(reader.is_past_end(290));
}

#[test]
fn loops_repeat() {
    let reader = SampleReaderLoop::new(&params(LoopMode::LoopContinuous, 0));
    let frames: Vec<Tap> = [110, 111, 120, 121, 131].iter().map(|p| reader.get(*p)).collect();
    let want: Vec<Tap> = [110, 100, 109, 100, 100].iter().map(|at| Tap::Frame { at: *at }).collect();
    assert_eq!(frames, want);
    assert!(!reader.is_past_end(1_000_000));
}

#[test]
fn loops_blend_before_their_end() {
    let reader = SampleReaderLoop::new(&params(LoopMode::LoopContinuous, 4));
    assert_eq!(reader.get(106), Tap::Frame { at: 106 });
    assert_eq!(reader.get(107), Tap::Blend { at: 107, other: 97, part: 1, whole: 4 });
    assert_eq!(reader.get(110), Tap::Blend { at: 110, other: 100, part: 4, whole: 4 });
    let wide = SampleReaderLoop::new(&params(LoopMode::LoopContinuous, 500));
    assert_eq!(wide.span.crossfade, 10);
}

#[test]
fn loops_end_when_the_key_comes_up() {
    let mut reader = SampleReaderLoopSustain::new(200, &params(LoopMode::LoopSustain, 0));
    assert_eq!(reader.get(115), Tap::Frame { at: 104 });
    assert_eq!(reader.last, 115);
    reader.signal_release();
    assert_eq!(reader.get(115), Tap::Frame { at: 110 });
    assert_eq!(reader.get(120), Tap::Frame { at: 115 });
    assert!(reader.is_past_end(85));
    assert!(!reader.is_past_end(84));
}

#[test]
fn loop_modes_choose_the_reader() {
    let kind = |mode| SampleReaders::new(50, &params(mode, 0));
    assert!(matches!(kind(LoopMode::NoLoop), SampleReaders::NoLoop(_)));
    assert!(matches!(kind(LoopMode::OneShot), SampleReaders::NoLoop(_)));
    assert!(matches!(kind(LoopMode::LoopContinuous), SampleReaders::Loop(_)));
    assert!(matches!(kind(LoopMode::LoopSustain), SampleReaders::LoopSustain(_)));
    assert_eq!(stereo_channels(1), (0, 0));
    assert_eq!(stereo_channels(2), (0, 1));
}

#[test]
fn readers_of_all_modes_are_read() {
    let mut once = SampleReaders::new(300, &params(LoopMode::NoLoop, 0));
    assert_eq!(once.get(299), Tap::Faded { at: 299, level: 1 });
    assert!(once.is_past_end(300));
    let mut round = SampleReaders::new(300, &params(LoopMode::LoopContinuous, 0));
    round.signal_release();
    assert_eq!(round.get(111), Tap::Frame { at: 100 });
    assert!(!round.is_past_end(300));
    let mut held = SampleReaders::new(300, &params(LoopMode::LoopSustain, 0));
    assert_eq!(held.get(111), Tap::Frame { at: 100 });
    held.signal_release();
    assert_eq!(held.get(112), Tap::Frame { at: 111 });
    assert!(held.is_past_end(189));
    assert!(!held.is_past_end(188));
    let mut empty_loop = params(LoopMode::LoopContinuous, 0);
    empty_loop.start = 110;
    assert_eq!(SampleReaders::new(300, &empty_loop).get(110), Tap::Frame { at: 110 });
}

#[test]
fn frames_come_from_memory_or_a_stream() {
    let mut counters = UnderrunCounters::default();
    let storage = SampleStorage::from_heap(Arc::new(vec![7, -8]));
    let mut memory = BufferSamplers::new_f32(storage);
    assert_eq!(memory.length(), 2);
    assert_eq!(memory.get(1, &mut counters), -8);
    assert_eq!(memory.get(2, &mut counters), 0);
    assert_eq!(counters.total, 0);
    let mut stream = BufferSamplers::streamed(VoiceStream {
        frames: 9,
        channel: 0,
        ring: StreamRing::new_at(3),
        head: Arc::new(vec![4, 5, 6]),
        head_start: 0,
    });
    assert_eq!(stream.length(), 9);
    assert_eq!(stream.get(2, &mut counters), 6);
    assert_eq!(stream.get(3, &mut counters), 0);
    assert_eq!(counters.total, 1);
    assert_eq!(counters.ahead, 1);
}

#[test]
fn voices_begin_at_their_heads() {
    let mut counters = UnderrunCounters::default();
    let streamed = SampleSource::Streamed {
        frames: 400,
        n_chans: 2,
        heads: vec![Arc::new(vec![1, 2]), Arc::new(vec![3, 4])],
        head_start: 100,
    };
    assert_eq!(streamed.n_chans(), 2);
    let (mut left, mut right) = streamed.begin_voice(&params(LoopMode::NoLoop, 0));
    assert_eq!(left.frames.get(101, &mut counters), 2);
    assert_eq!(right.frames.get(100, &mut counters), 3);
    assert_eq!(right.frames.length(), 400);
    assert!(right.reader.is_past_end(400));
    let headless =
        SampleSource::Streamed { frames: 9, n_chans: 1, heads: vec![], head_start: 2 };
    let (_, mut right) = headless.build_buffer_samplers();
    assert_eq!(right.get(2, &mut counters), 0);
    assert_eq!(counters.ahead, 1);
    let mono = SampleSource::Heap(vec![SampleStorage::from_heap(Arc::new(vec![9]))]);
    assert_eq!(mono.n_chans(), 1);
    let (mut left, mut right) = mono.build_buffer_samplers();
    assert_eq!(left.get(0, &mut counters), 9);
    assert_eq!(right.get(0, &mut counters), 9);
}

#[test]
fn modulations_are_evaluated_at_intervals() {
    let mut countdown = Countdown::new(false);
    let ticks: Vec<bool> = (0..17).map(|_| countdown.tick()).collect();
    for (i, tick) in ticks.iter().enumerate() {
        assert_eq!(*tick, i % RECOMPUTE_INTERVAL as usize == 0);
    }
    let mut still = Countdown::new(true);
    assert!((0..20).all(|_| !still.tick()));
}

#[test]
fn controllers_act_through_curves() {
    let number = |t: &str| SfzNumber { text: t.to_string(), clamp: None };
    let curves = vec![(5, vec![(64, number("0.25")), (127, number("1"))])];
    let bindings = vec![(20, 5), (21, 9)];
    assert_eq!(cc_lookup(64, 20, &bindings, &curves), CcLevel::Point { curve: 0, point: 0 });
    assert_eq!(cc_lookup(63, 20, &bindings, &curves), CcLevel::Zero);
    assert_eq!(cc_lookup(63, 21, &bindings, &curves), CcLevel::Linear(63));
    assert_eq!(cc_lookup(63, 22, &bindings, &curves), CcLevel::Linear(63));
}

#[test]
fn filter_envelopes_run_their_course() {
    let stage = FilegStage::Attack;
    assert_eq!(stage.advanced(false), FilegStage::Attack);
    let stage = stage.advanced(true).advanced(true);
    assert_eq!(stage, FilegStage::Sustain);
    assert_eq!(stage.advanced(true), FilegStage::Sustain);
    let stage = stage.entered(true);
    assert_eq!(stage, FilegStage::Release);
    assert_eq!(stage.advanced(true), FilegStage::Done);
    assert_eq!(FilegStage::Done.entered(true), FilegStage::Done);
}

#[test]
fn delays_hold_frames_back() {
    let mut delay: StereoFeedbackDelay<i32> = StereoFeedbackDelay::new(8, 12, 0);
    for n in 1..=20 {
        let wet = delay.wet();
        assert_eq!(wet, if n > 3 { (n - 3, 3 - n) } else { (0, 0) });
        delay.write(n, -n);
    }
    delay.set_time(1);
    assert_eq!(delay.wet(), (20, -20));
    delay.set_time(0);
    assert_eq!(delay.wet(), (20, -20));
    delay.set_time(100);
    assert_eq!(delay.wet(), (14, -14));
    delay.clear(0);
    assert_eq!(delay.wet(), (0, 0));
}

fn turn(position: u32, length: u32) -> SlotRegion {
    SlotRegion {
        lokey: 60,
        hikey: 61,
        lovel: 1,
        hivel: 100,
        trigger: TriggerType::Attack,
        seq_length: length,
        seq_position: position,
        exclusive_class: None,
    }
}

#[test]
fn regions_take_turns() {
    let regions = vec![turn(1, 2), turn(2, 2), turn(0, 0)];
    let mut font = SampleSoundfont {
        id: 0,
        instruments: vec![SoundfontInstrument::new(&regions, 0, 0)],
    };
    let mut strike = || -> Vec<usize> {
        font.get_attack_voice_spawners_at(0, 0, 60, 50)
            .iter()
            .map(|s| s.region)
            .collect()
    };
    assert_eq!(strike(), [0, 2]);
    assert_eq!(strike(), [1, 2]);
    assert_eq!(strike(), [0, 2]);
}

#[test]
fn regions_sound_where_they_cover_keys() {
    let mut released = turn(0, 0);
    released.trigger = TriggerType::Release;
    let mut control = turn(0, 0);
    control.lokey = -1;
    let regions = vec![turn(0, 0), released, control];
    let mut font = SampleSoundfont {
        id: 0,
        instruments: vec![SoundfontInstrument::new(&regions, 0, 7)],
    };
    let attack = font.get_attack_voice_spawners_at(0, 7, 61, 100);
    assert_eq!(attack.len(), 1);
    assert_eq!((attack[0].region, attack[0].key, attack[0].vel), (0, 61, 100));
    assert!(font.get_attack_voice_spawners_at(0, 7, 61, 101).is_empty());
    assert!(font.get_attack_voice_spawners_at(0, 7, 62, 50).is_empty());
    assert!(font.get_attack_voice_spawners_at(0, 6, 61, 100).is_empty());
    let release = font.get_release_voice_spawners_at(0, 7, 60, 1);
    assert_eq!(release.iter().map(|s| s.region).collect::<Vec<_>>(), [1]);
    assert_eq!(key_vel_to_index(2, 3), 259);
}

#[test]
fn heads_are_found_and_measured() {
    let needs = vec![
        HeadNeed { sample: 0, offset: 0, len: 10 },
        HeadNeed { sample: 0, offset: 5, len: 10 },
    ];
    assert_eq!(head_for(&needs, 0, 5), Some(1));
    assert_eq!(head_for(&needs, 1, 5), None);
    assert_eq!(head_peak(&vec![vec![3, -7], vec![5]]), 7);
    assert_eq!(head_peak(&vec![vec![i16::MIN]]), 32768);
    assert_eq!(head_peak(&zero_heads(2)), 0);
    assert_eq!(zero_heads(2).len(), 2);
}
