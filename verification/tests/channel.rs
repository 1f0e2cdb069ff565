use xsynth::channel::channel_sf::ChannelSoundfont;
use xsynth::channel::event::{
    ChannelAudioEvent, ChannelConfigEvent, ChannelEvent, ControlEvent, KeyNoteEvent,
};
use xsynth::channel::key::{KeyAction, KeyData};
use xsynth::channel::params::{
    ProgramDescriptor, VoiceChannelParams, VoiceChannelStats,
};
use xsynth::channel::voice_buffer::{ChannelInitOptions, VoiceBuffer};
use xsynth::channel::voice_channel::{ChannelEffect, VoiceChannel};
use xsynth::sfz::region::TriggerType;
use xsynth::soundfont::instrument::{SampleSoundfont, SlotRegion, SoundfontInstrument};
use xsynth::voice::{new_cc_state, ReleaseType, Voice, VoiceState};
use xsynth::{AudioStreamParams, ChannelCount};

const OUTPUT: AudioStreamParams = AudioStreamParams {
    sample_rate: 44100,
    channels: ChannelCount::Stereo,
};

fn audio(event: ChannelAudioEvent) -> ChannelEvent {
    ChannelEvent::Audio(event)
}

fn region(lokey: i16, hikey: i16, class: Option<u8>) -> SlotRegion {
    SlotRegion {
        lokey,
        hikey,
        lovel: 0,
        hivel: 127,
        trigger: TriggerType::Attack,
        seq_length: 0,
        seq_position: 0,
        exclusive_class: class,
    }
}

fn soundfont(regions: Vec<SlotRegion>, bank: u8, preset: u8) -> SampleSoundfont {
    numbered(0, regions, bank, preset)
}

fn numbered(id: u64, regions: Vec<SlotRegion>, bank: u8, preset: u8) -> SampleSoundfont {
    SampleSoundfont {
        id,
        instruments: vec![SoundfontInstrument::new(&regions, bank, preset)],
    }
}

fn channel() -> VoiceChannel<VoiceState> {
    VoiceChannel::new(ChannelInitOptions::default(), OUTPUT)
}

fn ids(buffer: &VoiceBuffer<VoiceState>) -> Vec<u64> {
    buffer.buffer.iter().map(|g| g.id).collect()
}

/// Plays all events that wait at a key, with one voice for each note.
fn play(ch: &mut VoiceChannel<VoiceState>, key: usize, budget: &mut Option<usize>) -> usize {
    let mut struck = 0;
    for event in ch.drain_events_with_budget(key, budget) {
        match ch.send_event(key, event) {
            KeyAction::SpawnAttack(vel) => {
                struck += 1;
                ch.add_voices(key, vec![VoiceState::new(vel, None)], false);
            }
            KeyAction::SpawnRelease(velocities) => {
                for vel in velocities {
                    ch.add_voices(key, vec![VoiceState::new(vel, None)], true);
                }
            }
            KeyAction::Rest => {}
        }
    }
    ch.settle_key(key);
    struck
}

#[test]
fn notes_wait_at_their_keys() {
    let mut ch = channel();
    let mut none: Vec<SampleSoundfont> = Vec::new();
    assert!(!ch.has_work(false, false));
    let events = vec![
        audio(ChannelAudioEvent::NoteOn { key: 60, vel: 100 }),
        audio(ChannelAudioEvent::NoteOff { key: 60 }),
        audio(ChannelAudioEvent::NoteOn { key: 61, vel: 1 }),
    ];
    let effects = ch.push_events_iter(&events, &mut none);
    assert_eq!(effects, vec![ChannelEffect::Nothing; 3]);
    assert!(ch.has_work(false, false));
    assert_eq!(
        ch.key_voices[60].event_cache,
        vec![KeyNoteEvent::On(100), KeyNoteEvent::Off]
    );
    assert_eq!(ch.key_voices[61].event_cache, vec![KeyNoteEvent::On(1)]);
    assert_eq!(play(&mut ch, 60, &mut None), 1);
    assert_eq!(play(&mut ch, 61, &mut None), 1);
    assert_eq!(ch.get_channel_stats().voice_count(&ch), 3);
}

#[test]
fn budgets_hold_notes_back_in_order() {
    let mut ch = channel();
    let mut none: Vec<SampleSoundfont> = Vec::new();
    for vel in [1, 2, 3] {
        ch.process_event(audio(ChannelAudioEvent::NoteOn { key: 5, vel }), &mut none);
    }
    ch.process_event(audio(ChannelAudioEvent::NoteOff { key: 5 }), &mut none);
    let mut budget = Some(2);
    let first = ch.drain_events_with_budget(5, &mut budget);
    assert_eq!(first, vec![KeyNoteEvent::On(1), KeyNoteEvent::On(2)]);
    assert_eq!(budget, Some(0));
    let mut budget = Some(2);
    let rest = ch.drain_events_with_budget(5, &mut budget);
    assert_eq!(rest, vec![KeyNoteEvent::On(3), KeyNoteEvent::Off]);
    assert_eq!(budget, Some(1));
}

#[test]
fn key_up_releases_the_oldest_note() {
    let mut buffer: VoiceBuffer<VoiceState> = VoiceBuffer::new(ChannelInitOptions::default());
    buffer.push_voices(1, vec![VoiceState::new(10, None), VoiceState::new(10, None)], None);
    buffer.push_voices(2, vec![VoiceState::new(20, None)], None);
    assert_eq!(buffer.release_next_voice(), Some(10));
    let waiting: Vec<bool> = buffer.buffer.iter().map(|g| g.voice.is_releasing()).collect();
    assert_eq!(waiting, [true, true, false]);
    assert_eq!(buffer.release_next_voice(), Some(20));
    assert_eq!(buffer.release_next_voice(), None);
}

#[test]
fn the_damper_holds_notes() {
    let mut buffer: VoiceBuffer<VoiceState> = VoiceBuffer::new(ChannelInitOptions::default());
    buffer.push_voices(1, vec![VoiceState::new(10, None)], None);
    buffer.set_damper(true);
    buffer.release_next_voice();
    assert!(!buffer.buffer[0].voice.is_releasing());
    buffer.set_damper(false);
    assert!(buffer.buffer[0].voice.is_releasing());
    assert!(buffer.held_by_damper.is_empty());
}

#[test]
fn all_keys_up_answers_once_for_each_note() {
    let mut buffer: VoiceBuffer<VoiceState> = VoiceBuffer::new(ChannelInitOptions::default());
    buffer.push_voices(1, vec![VoiceState::new(10, None), VoiceState::new(10, None)], None);
    buffer.push_voices(2, vec![VoiceState::new(20, None)], None);
    assert_eq!(buffer.release_all_groups_snapshot(), vec![10, 20]);
    assert!(buffer.release_all_groups_snapshot().is_empty());
}

#[test]
fn release_voices_do_not_wait() {
    let mut buffer: VoiceBuffer<VoiceState> = VoiceBuffer::new(ChannelInitOptions::default());
    buffer.push_release_trigger_voices(7, vec![VoiceState::new(30, None)], None);
    assert_eq!(buffer.voice_count(), 1);
    assert_eq!(buffer.release_next_voice(), None);
}

#[test]
fn the_softest_note_gives_way() {
    let options = ChannelInitOptions { fade_out_killing: false };
    let mut buffer: VoiceBuffer<VoiceState> = VoiceBuffer::new(options);
    buffer.push_voices(1, vec![VoiceState::new(50, None)], Some(2));
    buffer.push_voices(2, vec![VoiceState::new(10, None)], Some(2));
    buffer.push_voices(3, vec![VoiceState::new(30, None)], Some(2));
    assert_eq!(ids(&buffer), [1, 3]);
    let mut buffer: VoiceBuffer<VoiceState> = VoiceBuffer::new(options);
    buffer.push_voices(0, vec![VoiceState::new(10, None)], Some(2));
    buffer.push_voices(1, vec![VoiceState::new(100, None)], Some(2));
    buffer.push_voices(2, vec![VoiceState::new(50, None)], Some(2));
    assert_eq!(ids(&buffer), [1, 2]);
    let mut buffer: VoiceBuffer<VoiceState> = VoiceBuffer::new(options);
    let mut hit = VoiceState::new(10, None);
    hit.signal_release(ReleaseType::Kill);
    buffer.push_voices(0, vec![VoiceState::new(10, None), hit, VoiceState::new(10, None)], None);
    buffer.push_voices(1, vec![VoiceState::new(20, None)], None);
    buffer.push_voices(2, vec![VoiceState::new(30, None)], Some(2));
    assert_eq!(ids(&buffer), [1, 2]);
    let options = ChannelInitOptions { fade_out_killing: true };
    let mut buffer: VoiceBuffer<VoiceState> = VoiceBuffer::new(options);
    buffer.push_voices(1, vec![VoiceState::new(50, None)], Some(1));
    buffer.push_voices(2, vec![VoiceState::new(60, None)], Some(1));
    assert_eq!(ids(&buffer), [1, 2]);
    assert!(buffer.buffer[0].voice.is_killed());
    assert!(!buffer.buffer[1].voice.is_killed());
}

#[test]
fn ended_voices_leave() {
    let mut buffer: VoiceBuffer<VoiceState> = VoiceBuffer::new(ChannelInitOptions::default());
    buffer.push_voices(1, vec![VoiceState::new(50, None), VoiceState::new(51, None)], None);
    buffer.buffer[0].voice.ended = true;
    buffer.remove_ended_voices();
    assert_eq!(buffer.voice_count(), 1);
    assert_eq!(buffer.buffer[0].voice.velocity(), 51);
    assert!(buffer.has_voices());
    buffer.kill_all_voices();
    assert!(!buffer.has_voices() || buffer.buffer[0].voice.is_killed());
}

#[test]
fn classes_silence_each_other() {
    let mut buffer: VoiceBuffer<VoiceState> = VoiceBuffer::new(ChannelInitOptions::default());
    buffer.push_voices(1, vec![VoiceState::new(50, Some(3)), VoiceState::new(51, None)], None);
    buffer.kill_by_exclusive_class(3);
    let killed: Vec<u8> = buffer
        .buffer
        .iter()
        .filter(|g| !g.voice.is_killed())
        .map(|g| g.voice.velocity())
        .collect();
    assert_eq!(killed, [51]);
}

#[test]
fn groups_are_listed_and_dropped() {
    let mut buffer: VoiceBuffer<VoiceState> = VoiceBuffer::new(ChannelInitOptions::default());
    buffer.push_voices(4, vec![VoiceState::new(50, None), VoiceState::new(51, None)], None);
    buffer.push_voices(9, vec![VoiceState::new(52, None)], None);
    let mut out = Vec::new();
    buffer.collect_groups(&mut out);
    assert_eq!(out, vec![(4, false), (9, false)]);
    assert_eq!(buffer.drop_group(4), 2);
    let mut out = Vec::new();
    buffer.collect_groups(&mut out);
    assert_eq!(out, vec![(4, true), (9, false)]);
    assert_eq!(buffer.drop_group(4), 0);
}

#[test]
fn caps_drop_the_oldest_notes() {
    let mut ch = channel();
    let mut none: Vec<SampleSoundfont> = Vec::new();
    for key in [10, 20, 30] {
        ch.process_event(audio(ChannelAudioEvent::NoteOn { key, vel: 90 }), &mut none);
        play(&mut ch, key as usize, &mut None);
    }
    ch.process_event(
        ChannelEvent::Config(ChannelConfigEvent::SetPolyphonyCap(Some(2))),
        &mut none,
    );
    ch.enforce_polyphony_cap();
    let alive: Vec<usize> = (0..128)
        .filter(|k| {
            ch.key_voices[*k]
                .data
                .voices
                .buffer
                .iter()
                .any(|g| !g.voice.is_killed())
        })
        .collect();
    assert_eq!(alive, [20, 30]);
}

#[test]
fn programs_are_looked_up_in_order() {
    let mut fonts = vec![
        soundfont(vec![region(0, 59, None)], 0, 0),
        soundfont(vec![region(40, 127, Some(4))], 0, 0),
        soundfont(vec![region(0, 127, Some(9))], 0, 5),
    ];
    let mut matrix = ChannelSoundfont::new();
    matrix.rebuild_matrix(&mut fonts);
    assert_eq!(matrix.attack[50 * 128 + 64][0].soundfont, 0);
    assert_eq!(matrix.attack[70 * 128 + 64][0].soundfont, 1);
    assert_eq!(matrix.exclusive_classes_attack(70, 64), vec![4]);
    assert!(matrix.exclusive_classes_attack(50, 64).is_empty());
    matrix.change_program(ProgramDescriptor { bank: 0, preset: 5 }, &mut fonts);
    assert_eq!(matrix.attack[50 * 128 + 64][0].soundfont, 2);
    assert_eq!(matrix.exclusive_classes_attack(50, 64), vec![9]);
}

#[test]
fn a_note_silences_its_class_on_all_keys() {
    let mut fonts = vec![soundfont(vec![region(0, 127, Some(4))], 0, 0)];
    let mut ch = channel();
    ch.channel_sf.rebuild_matrix(&mut fonts);
    ch.add_voices(10, vec![VoiceState::new(80, Some(4))], false);
    ch.add_voices(11, vec![VoiceState::new(80, Some(5))], false);
    ch.process_event(audio(ChannelAudioEvent::NoteOn { key: 90, vel: 64 }), &mut fonts);
    let sounding = |k: usize| {
        ch.key_voices[k]
            .data
            .voices
            .buffer
            .iter()
            .filter(|g| !g.voice.is_killed())
            .count()
    };
    assert_eq!(sounding(10), 0);
    assert_eq!(sounding(11), 1);
}

#[test]
fn events_leave_the_rest_to_the_caller() {
    let mut ch = channel();
    let mut none: Vec<SampleSoundfont> = Vec::new();
    assert_eq!(
        ch.process_event(audio(ChannelAudioEvent::ResetControl), &mut none),
        ChannelEffect::ResetControl
    );
    let effect = ch.process_event(
        audio(ChannelAudioEvent::Control(ControlEvent::Raw(7, 99))),
        &mut none,
    );
    assert_eq!(effect, ChannelEffect::Control(ControlEvent::Raw(7, 99)));
    assert_eq!(
        ch.process_event(audio(ChannelAudioEvent::SystemReset), &mut none),
        ChannelEffect::SystemReset
    );
    ch.process_event(audio(ChannelAudioEvent::AllNotesOff), &mut none);
    assert!(ch
        .key_voices
        .iter()
        .all(|k| k.event_cache.last() == Some(&KeyNoteEvent::AllOff)));
}

#[test]
fn percussion_has_its_own_bank() {
    let mut params = VoiceChannelParams::new(OUTPUT);
    assert_eq!(params.program, ProgramDescriptor::default());
    params.set_preset(12);
    assert_eq!(params.program.preset, 12);
    params.set_bank(3);
    assert_eq!(params.program.bank, 3);
    params.process_config_event(ChannelConfigEvent::SetPercussionMode(true));
    assert_eq!(params.program.bank, 128);
    params.set_bank(3);
    assert_eq!(params.program.bank, 128);
    params.process_config_event(ChannelConfigEvent::SetPercussionMode(false));
    assert_eq!(params.program.bank, 0);
    params.process_config_event(ChannelConfigEvent::SetLayerCount(Some(9)));
    assert_eq!(params.layers, Some(9));
}

#[test]
fn keys_tell_what_to_make_sound() {
    let mut key: KeyData<VoiceState> = KeyData::new(60, ChannelInitOptions::default());
    assert!(matches!(
        key.send_event(KeyNoteEvent::On(77)),
        KeyAction::SpawnAttack(77)
    ));
    assert!(matches!(key.send_event(KeyNoteEvent::Off), KeyAction::Rest));
    key.voices.push_voices(0, vec![VoiceState::new(77, None)], None);
    assert!(matches!(
        key.send_event(KeyNoteEvent::Off),
        KeyAction::SpawnRelease(v) if v == vec![77]
    ));
    let mut counter = 5;
    key.settle(&mut counter);
    assert_eq!(counter, 6);
}

#[test]
fn voices_are_counted() {
    assert_eq!(VoiceChannelStats::new().voice_counter, 0);
    let mut ch = channel();
    let early = ch.get_channel_stats();
    assert_eq!(early.voice_count(&ch), 0);
    ch.add_voices(5, vec![VoiceState::new(10, None)], false);
    ch.settle_key(5);
    assert_eq!(early.voice_count(&ch), 1);
    assert_eq!(ch.key_voices[5].data.key, 5);
    assert_eq!(new_cc_state(), [0u8; 128]);
    let mut voice = VoiceState::new(1, None);
    voice.signal_release(ReleaseType::Kill);
    assert!(voice.is_killed());
}

#[test]
fn blocks_start_few_notes() {
    let mut ch = channel();
    let mut none: Vec<SampleSoundfont> = Vec::new();
    ch.process_event(
        ChannelEvent::Config(ChannelConfigEvent::SetSpawnBurstLimit(Some(3))),
        &mut none,
    );
    for key in [10, 10, 20, 30, 40] {
        ch.process_event(audio(ChannelAudioEvent::NoteOn { key, vel: key }), &mut none);
    }
    ch.process_event(audio(ChannelAudioEvent::NoteOff { key: 50 }), &mut none);
    let first = ch.plan_block(&mut none);
    assert_eq!(first.len(), 128);
    assert_eq!(first[10], [KeyNoteEvent::On(10), KeyNoteEvent::On(10)]);
    assert_eq!(first[20], [KeyNoteEvent::On(20)]);
    assert!(first[30].is_empty());
    assert_eq!(first[50], [KeyNoteEvent::Off]);
    let second = ch.plan_block(&mut none);
    assert_eq!(second[30], [KeyNoteEvent::On(30)]);
    assert_eq!(second[40], [KeyNoteEvent::On(40)]);
    assert!(ch.plan_block(&mut none).iter().all(|l| l.is_empty()));
}

#[test]
fn soundfonts_are_replaced() {
    let mut fonts = vec![soundfont(vec![region(0, 127, Some(1))], 0, 0)];
    let mut matrix = ChannelSoundfont::new();
    matrix.rebuild_matrix(&mut fonts);
    assert_eq!(matrix.exclusive_classes_attack(1, 1), vec![1]);
    let others = vec![
        numbered(1, vec![region(0, 127, Some(2))], 0, 0),
        numbered(2, vec![], 0, 0),
    ];
    let old = matrix.set_soundfonts(&mut fonts, others);
    assert_eq!(old.iter().map(|f| f.id).collect::<Vec<_>>(), [0]);
    assert_eq!(fonts.iter().map(|f| f.id).collect::<Vec<_>>(), [1, 2]);
    assert_eq!(matrix.exclusive_classes_attack(1, 1), vec![2]);
}

#[test]
fn soundfonts_that_are_set_stay_as_they_are() {
    let turns = || {
        let turn = |position| SlotRegion {
            seq_length: 2,
            seq_position: position,
            ..region(0, 127, Some(position as u8))
        };
        vec![turn(1), turn(2)]
    };
    let mut fonts = Vec::new();
    let mut matrix = ChannelSoundfont::new();
    let old = matrix.set_soundfonts(&mut fonts, vec![numbered(7, turns(), 0, 0)]);
    assert!(old.is_empty());
    assert_eq!(matrix.exclusive_classes_attack(1, 1), vec![1]);
    let back = matrix.set_soundfonts(&mut fonts, vec![numbered(7, turns(), 0, 0)]);
    assert_eq!(back.len(), 1);
    assert_eq!(matrix.exclusive_classes_attack(1, 1), vec![1]);
    // Had it begun anew, the first region would have its turn again.
    matrix.rebuild_matrix(&mut fonts);
    assert_eq!(matrix.exclusive_classes_attack(1, 1), vec![2]);
    let old = matrix.set_soundfonts(&mut fonts, vec![numbered(8, turns(), 0, 0)]);
    assert_eq!(old[0].id, 7);
    assert_eq!(matrix.exclusive_classes_attack(1, 1), vec![1]);
    matrix.set_soundfonts(&mut fonts, Vec::new());
    assert!(matrix.exclusive_classes_attack(1, 1).is_empty());
    let mut ch = channel();
    assert!(ch.set_soundfonts(&mut fonts, vec![numbered(9, turns(), 0, 0)]).is_empty());
    assert_eq!(fonts[0].id, 9);
    assert_eq!(ch.channel_sf.exclusive_classes_attack(1, 1), vec![1]);
}

#[test]
fn voices_name_their_instruments() {
    let both = SampleSoundfont {
        id: 3,
        instruments: vec![
            SoundfontInstrument::new(&vec![region(0, 127, Some(1))], 0, 4),
            SoundfontInstrument::new(&vec![region(0, 127, Some(2))], 0, 5),
        ],
    };
    assert_eq!(both.find(0, 5), 1);
    assert_eq!(both.find(1, 5), 2);
    let mut fonts = vec![soundfont(vec![], 0, 5), both];
    let mut matrix = ChannelSoundfont::new();
    matrix.change_program(ProgramDescriptor { bank: 9, preset: 5 }, &mut fonts);
    let spawned = matrix.spawn_voices_attack(60, 100);
    assert_eq!(spawned.len(), 1);
    assert_eq!((spawned[0].soundfont, spawned[0].instrument), (1, 1));
    assert_eq!(spawned[0].spawner.region, 0);
}

#[test]
fn keys_have_their_spawners() {
    let mut fonts = vec![soundfont(vec![region(0, 60, Some(1))], 0, 0)];
    let mut matrix = ChannelSoundfont::new();
    assert!(matrix.spawn_voices_attack(60, 100).is_empty());
    matrix.rebuild_matrix(&mut fonts);
    let spawned = matrix.spawn_voices_attack(60, 100);
    assert_eq!(spawned.len(), 1);
    assert_eq!(spawned[0].soundfont, 0);
    assert_eq!(spawned[0].spawner.exclusive_class, Some(1));
    assert!(matrix.spawn_voices_attack(61, 100).is_empty());
    assert!(matrix.spawn_voices_attack(128, 0).is_empty());
    assert!(matrix.spawn_voices_release(60, 100).is_empty());
}

#[test]
fn the_damper_holds_a_row_of_notes() {
    let mut buffer: VoiceBuffer<VoiceState> = VoiceBuffer::new(ChannelInitOptions::default());
    for id in [4, 5, 6] {
        buffer.push_voices(id, vec![VoiceState::new(9, None), VoiceState::new(9, None)], None);
    }
    buffer.set_damper(true);
    assert_eq!(buffer.release_next_voice(), None);
    assert_eq!(buffer.held_by_damper, [4]);
    assert_eq!(buffer.release_next_voice(), None);
    assert_eq!(buffer.held_by_damper, [4, 5]);
    buffer.set_damper(false);
    let released: Vec<bool> = buffer.buffer.iter().map(|g| g.voice.is_releasing()).collect();
    assert_eq!(released, [true, true, true, true, false, false]);
    buffer.set_damper(true);
    for _ in 0..3 {
        buffer.release_next_voice();
    }
    assert_eq!(buffer.held_by_damper, [6]);
}

#[test]
fn notes_in_a_row_take_turns() {
    let turn = |position: u32| SlotRegion {
        seq_length: 3,
        seq_position: position,
        ..region(0, 127, None)
    };
    let mut font = soundfont(vec![turn(1), turn(2), turn(3), turn(0)], 0, 0);
    let mut heard = |n: usize| -> Vec<Vec<usize>> {
        (0..n)
            .map(|_| {
                let list = font.get_attack_voice_spawners_at(0, 0, 60, 100);
                list.iter().map(|s| s.region).collect()
            })
            .collect()
    };
    let all = heard(7);
    for (j, list) in all.iter().enumerate() {
        assert_eq!(*list, vec![j % 3, 3]);
    }
    // Another key has turns of its own.
    let other = font.get_attack_voice_spawners_at(0, 0, 61, 100);
    assert_eq!(other[0].region, 0);
}
