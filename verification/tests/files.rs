use std::sync::Arc;

use xsynth::bytes::{push_sample, push_u16, push_u32, sample_from_bytes, u16_at, u32_at};
use xsynth::path::{join_path, parent_path};
use xsynth::soundfont::audio::{
    can_be_stored, is_audio_ext, is_wav_ext, load_audio_file, open_cached, open_directly,
    prebake_audio_cache, soundfont_kind, AudioLoadError, LoadAction, LoadEvent, PrebakeAction, PrebakeEvent,
    SampleStorage, SoundfontKind, StreamedAction,
};
use xsynth::soundfont::cache::{
    cache_path_for, open_cache, read_cache, read_cache_header, try_read_u32, write_cache,
    CacheHeader, DecodedSample, CACHE_HEADER_BYTES, CACHE_MAGIC,
};
use xsynth::soundfont::streaming::SampleLayout;
use xsynth::soundfont::wav::{open_wav, wav_header, write_wav_f32, write_wav_i16};
use xsynth::text::{chars_of, parse_integer, replace_char, same_text, text_of};
use xsynth::{AudioStreamParams, ChannelCount};

const OUTPUT: AudioStreamParams = AudioStreamParams {
    sample_rate: 44100,
    channels: ChannelCount::Stereo,
};

fn sample() -> DecodedSample {
    DecodedSample {
        channels: vec![vec![1, -2, 300], vec![-32768, 32767, 0]],
        src_rate: 48000,
    }
}

#[test]
fn numbers_are_little_endian() {
    let mut out = Vec::new();
    push_u32(&mut out, 0x0403_0201);
    push_u16(&mut out, 0x0605);
    push_sample(&mut out, -2);
    assert_eq!(out, [1, 2, 3, 4, 5, 6, 0xfe, 0xff]);
    assert_eq!(u32_at(&out, 0), 0x0403_0201);
    assert_eq!(u16_at(&out, 4), 0x0605);
    assert_eq!(sample_from_bytes(out[6], out[7]), -2);
    assert_eq!(sample_from_bytes(0x00, 0x80), i16::MIN);
    assert_eq!(sample_from_bytes(0xff, 0x7f), i16::MAX);
}

#[test]
fn caches_begin_with_their_mark() {
    assert_eq!(CACHE_MAGIC.to_le_bytes(), *b"X44Y");
    let bytes = write_cache(&sample(), 44100, ChannelCount::Stereo).unwrap();
    assert_eq!(&bytes[0..4], b"X44Y");
    assert_eq!(bytes.len(), CACHE_HEADER_BYTES + 12);
    assert_eq!(try_read_u32(&bytes, 1), Some(2));
    assert_eq!(try_read_u32(&bytes, 2), Some(48000));
    assert_eq!(try_read_u32(&bytes, 3), Some(44100));
    assert_eq!(try_read_u32(&bytes, 4), Some(2));
    assert_eq!(try_read_u32(&bytes, 5), Some(2));
    assert_eq!(try_read_u32(&bytes, 6), Some(3));
    assert_eq!(try_read_u32(&bytes, 10), None);
    assert_eq!(&bytes[28..34], [1, 0, 0xfe, 0xff, 0x2c, 0x01]);
    assert_eq!(cache_path_for("a/b.flac"), "a/b.flac.x44c");
    assert_eq!(cache_path_for("/b"), "/b.x44c");
    assert_eq!(cache_path_for("b"), "b.x44c");
    assert_eq!(cache_path_for("a/b/"), "a/b.x44c");
    assert_eq!(cache_path_for("a/./b/."), "a/b.x44c");
    assert_eq!(cache_path_for("./b"), "./b.x44c");
    assert_eq!(cache_path_for("a/.."), "a/../.x44c");
    assert_eq!(cache_path_for(""), ".x44c");
    assert_eq!(cache_path_for("/"), "/.x44c");
    for path in ["a/b.flac", "/b", "b", "a/b/", "a/./b/.", "./b", "a/..", "", "/", "//b", "a//b"] {
        let mut p = std::path::PathBuf::from(path);
        let mut name = p.file_name().map(|n| n.to_os_string()).unwrap_or_default();
        name.push(".x44c");
        p.set_file_name(name);
        assert_eq!(cache_path_for(path), p.to_str().unwrap());
    }
}

#[test]
fn caches_are_read_back() {
    let bytes = write_cache(&sample(), 44100, ChannelCount::Stereo).unwrap();
    let back = read_cache(&bytes, 44100, ChannelCount::Stereo).unwrap();
    assert_eq!(back.channels, sample().channels);
    assert_eq!(back.src_rate, 48000);
    assert!(read_cache(&bytes, 48000, ChannelCount::Stereo).is_none());
    assert!(read_cache(&bytes, 44100, ChannelCount::Mono).is_none());
    assert!(read_cache(&bytes[0..39], 44100, ChannelCount::Stereo).is_none());
    assert!(read_cache(&bytes[0..20], 44100, ChannelCount::Stereo).is_none());
    let mut spoilt = bytes.clone();
    spoilt[0] = b'Y';
    assert!(read_cache(&spoilt, 44100, ChannelCount::Stereo).is_none());
    let mut newer = bytes.clone();
    newer[4] = 3;
    assert!(read_cache(&newer, 44100, ChannelCount::Stereo).is_none());
    let mut many = bytes.clone();
    many[20] = 9;
    assert!(read_cache(&many, 44100, ChannelCount::Stereo).is_none());
}

#[test]
fn uneven_samples_are_not_cached() {
    let uneven = DecodedSample { channels: vec![vec![1], vec![1, 2]], src_rate: 1 };
    assert!(write_cache(&uneven, 44100, ChannelCount::Stereo).is_none());
    let empty = DecodedSample { channels: vec![], src_rate: 1 };
    assert!(write_cache(&empty, 44100, ChannelCount::Stereo).is_none());
    let silent = DecodedSample { channels: vec![vec![]], src_rate: 1 };
    assert!(write_cache(&silent, 44100, ChannelCount::Stereo).is_none());
    assert!(can_be_stored(&uneven));
}

#[test]
fn caches_are_opened_by_their_header() {
    let bytes = write_cache(&sample(), 44100, ChannelCount::Stereo).unwrap();
    let length = bytes.len() as u64;
    let header = read_cache_header(&bytes[0..28], length, 44100, ChannelCount::Stereo);
    assert_eq!(header, Some(CacheHeader { src_rate: 48000, n_chans: 2, frames: 3 }));
    assert!(read_cache_header(&bytes[0..28], length - 1, 44100, ChannelCount::Stereo).is_none());
    let source = open_cache(&bytes[0..28], length, 44100, ChannelCount::Stereo).unwrap();
    assert_eq!(source.frames, 3);
    assert_eq!(source.src_rate, 48000);
    assert_eq!(source.data_rate, 44100);
    assert!(matches!(
        source.layout,
        SampleLayout::Separated { ref byte_offset_per_channel } if *byte_offset_per_channel == [28, 34]
    ));
    let replies: Vec<Option<Vec<u8>>> = source
        .read_head_at(0)
        .iter()
        .map(|r| Some(bytes[r.offset as usize..r.offset as usize + r.len].to_vec()))
        .collect();
    assert_eq!(
        source.head_from_bytes(0, 44100, &replies),
        Some(sample().channels)
    );
}

#[test]
fn wav_files_are_read_as_they_were_written() {
    let samples: Vec<i16> = vec![1, -1, 2, -2];
    let bytes = write_wav_i16(&samples, 44100);
    assert_eq!(bytes.len(), 44 + 8);
    assert_eq!(&bytes[0..4], b"RIFF");
    assert_eq!(u32_at(&bytes, 4), 44);
    assert_eq!(&bytes[8..16], b"WAVEfmt ");
    assert_eq!(u32_at(&bytes, 28), 44100 * 4);
    assert_eq!(u16_at(&bytes, 32), 4);
    assert_eq!(&bytes[36..40], b"data");
    let source = open_wav(&bytes, 44100).unwrap();
    assert_eq!(source.frames, 2);
    assert_eq!(source.n_chans, 2);
    assert!(matches!(
        source.layout,
        SampleLayout::Interleaved { data_byte_offset: 44, frame_bytes: 4 }
    ));
    assert!(open_wav(&bytes, 48000).is_none());
    assert!(open_wav(&bytes[0..43], 44100).is_none());
    let float = wav_header(3, 32, 44100, 16);
    assert!(open_wav(&float, 44100).is_none());
    let none = write_wav_i16(&vec![1], 44100);
    assert!(open_wav(&none, 44100).is_none());
}

#[test]
fn floating_point_samples_keep_their_bits() {
    let samples: Vec<u32> = [0.5f32, -1.0].iter().map(|s| s.to_bits()).collect();
    let bytes = write_wav_f32(&samples, 48000);
    assert_eq!(bytes.len(), 44 + 8);
    assert_eq!(u16_at(&bytes, 20), 3);
    assert_eq!(u32_at(&bytes, 28), 48000 * 8);
    assert_eq!(u16_at(&bytes, 34), 32);
    assert_eq!(u32_at(&bytes, 40), 8);
    assert_eq!(f32::from_bits(u32_at(&bytes, 48)), -1.0);
    assert!(open_wav(&bytes, 48000).is_none());
}

#[test]
fn wav_chunks_may_stand_between() {
    let plain = write_wav_i16(&vec![5, 6], 44100);
    let mut bytes = plain[0..36].to_vec();
    bytes.extend_from_slice(b"LIST");
    push_u32(&mut bytes, 4);
    bytes.extend_from_slice(b"abcd");
    bytes.extend_from_slice(&plain[36..]);
    let source = open_wav(&bytes, 44100).unwrap();
    assert!(matches!(
        source.layout,
        SampleLayout::Interleaved { data_byte_offset: 56, frame_bytes: 4 }
    ));
    let mut endless = plain.clone();
    endless[36..40].copy_from_slice(b"LIST");
    endless[40..44].copy_from_slice(&[0xff; 4]);
    assert!(open_wav(&endless, 44100).is_none());
}

#[test]
fn extensions_are_known_in_any_case() {
    assert!(is_audio_ext(Some("FLAC")));
    assert!(is_audio_ext(Some("aif")));
    assert!(is_audio_ext(Some("aiff")));
    assert!(is_audio_ext(Some("ogg")));
    assert!(!is_audio_ext(Some("mp3")));
    assert!(!is_audio_ext(None));
    assert!(is_wav_ext(Some("Wav")));
    assert!(!is_wav_ext(Some("wave")));
    assert_eq!(soundfont_kind(Some("SFZ")), Some(SoundfontKind::Sfz));
    assert_eq!(soundfont_kind(Some("sf2")), Some(SoundfontKind::Sf2));
    assert_eq!(soundfont_kind(Some("sf3")), None);
    assert_eq!(soundfont_kind(None), None);
}

#[test]
fn samples_come_from_the_cache_or_the_decoder() {
    let bytes = write_cache(&sample(), 44100, ChannelCount::Stereo).unwrap();
    let hit = load_audio_file(LoadEvent::Cache(Some(bytes.clone())), OUTPUT);
    assert!(matches!(
        hit,
        LoadAction::Ready { sample: ref s, cache: None } if s.channels == sample().channels
    ));
    assert!(matches!(
        load_audio_file(LoadEvent::Cache(None), OUTPUT),
        LoadAction::Decode
    ));
    assert!(matches!(
        load_audio_file(LoadEvent::Cache(Some(vec![0; 50])), OUTPUT),
        LoadAction::Decode
    ));
    let decoded = load_audio_file(LoadEvent::Decoded(Ok(sample())), OUTPUT);
    assert!(matches!(
        decoded,
        LoadAction::Ready { cache: Some(ref b), .. } if *b == bytes
    ));
    let failed = load_audio_file(
        LoadEvent::Decoded(Err(AudioLoadError::NoTracks("x".to_string()))),
        OUTPUT,
    );
    assert!(matches!(failed, LoadAction::Failed(AudioLoadError::NoTracks(p)) if p == "x"));
}

#[test]
fn caches_are_made_once() {
    let bytes = write_cache(&sample(), 44100, ChannelCount::Stereo).unwrap();
    assert!(matches!(
        prebake_audio_cache(PrebakeEvent::Before(None), OUTPUT),
        PrebakeAction::Decode
    ));
    assert!(matches!(
        prebake_audio_cache(PrebakeEvent::Decoded(Ok(sample())), OUTPUT),
        PrebakeAction::Write(b) if b == bytes
    ));
    assert!(matches!(
        prebake_audio_cache(PrebakeEvent::Before(Some(bytes.clone())), OUTPUT),
        PrebakeAction::Done(Ok(()))
    ));
    assert!(matches!(
        prebake_audio_cache(PrebakeEvent::After(Some(bytes)), OUTPUT),
        PrebakeAction::Done(Ok(()))
    ));
    let error = AudioLoadError::InvalidChannelCount("y".to_string());
    assert!(matches!(
        prebake_audio_cache(PrebakeEvent::Decoded(Err(error)), OUTPUT),
        PrebakeAction::Done(Err(AudioLoadError::InvalidChannelCount(p))) if p == "y"
    ));
}

#[test]
fn without_a_cache_nothing_is_pre_baked() {
    assert!(matches!(
        prebake_audio_cache(PrebakeEvent::After(None), OUTPUT),
        PrebakeAction::Done(Err(AudioLoadError::IOError(_)))
    ));
    let empty = DecodedSample { channels: vec![vec![], vec![]], src_rate: 44100 };
    assert!(matches!(
        prebake_audio_cache(PrebakeEvent::Decoded(Ok(empty)), OUTPUT),
        PrebakeAction::Done(Err(AudioLoadError::IOError(_)))
    ));
    let uneven = DecodedSample { channels: vec![vec![1], vec![1, 2]], src_rate: 44100 };
    assert!(matches!(
        prebake_audio_cache(PrebakeEvent::Decoded(Ok(uneven)), OUTPUT),
        PrebakeAction::Done(Err(AudioLoadError::IOError(_)))
    ));
}

#[test]
fn streamed_samples_are_opened_step_by_step() {
    let wav = write_wav_i16(&vec![1, 2], 44100);
    assert!(matches!(
        open_directly(Some("wav"), &Some(wav.clone()), OUTPUT),
        StreamedAction::Ready(_)
    ));
    assert!(matches!(
        open_directly(Some("flac"), &Some(wav), OUTPUT),
        StreamedAction::OpenCache
    ));
    assert!(matches!(
        open_directly(Some("wav"), &None, OUTPUT),
        StreamedAction::OpenCache
    ));
    let cache = write_cache(&sample(), 44100, ChannelCount::Stereo).unwrap();
    let length = cache.len() as u64;
    assert!(matches!(
        open_cached(&Some(cache[0..28].to_vec()), length, false, OUTPUT),
        StreamedAction::Ready(_)
    ));
    assert!(matches!(
        open_cached(&None, 0, false, OUTPUT),
        StreamedAction::Build
    ));
    assert!(matches!(
        open_cached(&None, 0, true, OUTPUT),
        StreamedAction::Failed(AudioLoadError::IOError(m))
            if m == "streamed load: cache file not present after decode pass"
    ));
}

#[test]
fn storage_is_silent_past_its_end() {
    let heap = SampleStorage::from_heap(Arc::new(vec![4, 5]));
    assert_eq!((heap.get(0), heap.get(1), heap.get(2)), (4, 5, 0));
    assert_eq!(heap.len(), 2);
    assert!(!heap.is_empty());
    let mapped = SampleStorage::from_mmap(Arc::new(vec![9, 1, 0, 0xff, 0xff, 7]), 1, 2);
    assert_eq!((mapped.get(0), mapped.get(1), mapped.get(2)), (1, -1, 0));
    assert_eq!(mapped.len(), 2);
    assert!(SampleStorage::from_heap(Arc::new(vec![])).is_empty());
}

#[test]
fn paths_are_joined_and_split() {
    assert_eq!(join_path("/a/b", "c.wav"), "/a/b/c.wav");
    assert_eq!(join_path("/a/b/", "c.wav"), "/a/b/c.wav");
    assert_eq!(join_path("/a", "/c.wav"), "/c.wav");
    assert_eq!(parent_path("/a/b/c.sfz"), "/a/b");
    assert_eq!(parent_path("c.sfz"), "");
}

#[test]
fn texts_are_compared_and_cut() {
    let chars = chars_of("hello");
    assert_eq!(text_of(&chars, 1, 3), "el");
    assert_eq!(replace_char(&chars, 'l', 'L'), "heLLo");
    assert!(same_text("a", "a"));
    assert!(!same_text("a", "b"));
    assert_eq!(parse_integer(&chars_of("-17"), -20, 20), Some(-17));
    assert_eq!(parse_integer(&chars_of("21"), -20, 20), None);
    assert_eq!(parse_integer(&chars_of("1x"), -20, 20), None);
}
