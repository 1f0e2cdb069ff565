use std::sync::Arc;

use xsynth::soundfont::ring::{
    take_underrun_breakdown, take_underrun_count, StreamRing, UnderrunCounters, VoiceStream,
    HEAD_FRAMES, RING_FRAMES,
};
use xsynth::soundfont::streaming::{
    pause_after, pick_worker, plan_refill, refill, ByteRange, FlacHead, FlacRing, PoolPause,
    RefillPlan, SampleLayout, StreamedSampleSource,
};

/// Test value at (channel, frame).
fn fixture_value(c: usize, f: usize) -> i16 {
    ((c as i32 * 10000 + f as i32) & 0x7fff) as i16
}

/// A sample in memory, with its file.
fn make_source(frames: usize, n_chans: usize) -> (StreamedSampleSource, Vec<u8>) {
    let mut file: Vec<u8> = Vec::new();
    for c in 0..n_chans {
        for f in 0..frames {
            file.extend_from_slice(&fixture_value(c, f).to_le_bytes());
        }
    }
    let source = StreamedSampleSource {
        layout: SampleLayout::Separated {
            byte_offset_per_channel: (0..n_chans).map(|c| (c * frames * 2) as u64).collect(),
        },
        frames,
        n_chans,
        src_rate: 44100,
        data_rate: 44100,
    };
    (source, file)
}

fn head_at_zero(source: &StreamedSampleSource) -> Vec<Vec<i16>> {
    let len = HEAD_FRAMES.min(source.frames);
    (0..source.n_chans)
        .map(|c| (0..len).map(|f| fixture_value(c, f)).collect())
        .collect()
}

fn read(file: &[u8], range: &ByteRange) -> Option<Vec<u8>> {
    let from = range.offset as usize;
    let to = (from + range.len).min(file.len());
    Some(file[from..to].to_vec())
}

/// Refills a ring as far as it asks for it.
fn work(source: &StreamedSampleSource, channel: usize, ring: &mut StreamRing, file: &[u8]) {
    loop {
        match plan_refill(ring, source.frames) {
            RefillPlan::Skip => return,
            RefillPlan::End => ring.set_eof(),
            RefillPlan::Read(count) => {
                let range = source.locate(channel, ring.write_pos(), count);
                refill(source, channel, ring, count, &read(file, &range));
            }
        }
    }
}

#[test]
fn ring_underrun_before_fill() {
    let ring = StreamRing::new();
    assert!(ring.get(HEAD_FRAMES).is_none());
}

#[test]
fn ring_fill_and_read() {
    let mut ring = StreamRing::new();
    let chunk: Vec<i16> = (0..256).map(|i| i as i16).collect();
    ring.write_chunk(&chunk);
    for i in 0..256 {
        assert_eq!(
            ring.get(HEAD_FRAMES + i),
            Some(i as i16),
            "read at pos {}",
            HEAD_FRAMES + i
        );
    }
    assert!(ring.get(HEAD_FRAMES + 256).is_none());
}

#[test]
fn ring_wrap_around_capacity() {
    let mut ring = StreamRing::new();
    let chunk1: Vec<i16> = (0..(RING_FRAMES - 100)).map(|i| i as i16).collect();
    ring.write_chunk(&chunk1);
    ring.mark_consumed(HEAD_FRAMES + RING_FRAMES - 200);
    let chunk2: Vec<i16> = (0..200).map(|i| 9000 + i as i16).collect();
    ring.write_chunk(&chunk2);
    let start = HEAD_FRAMES + (RING_FRAMES - 100);
    for i in 0..200 {
        assert_eq!(
            ring.get(start + i),
            Some(9000 + i as i16),
            "read at pos {}",
            start + i
        );
    }
}

#[test]
fn ring_eof_returns_zero() {
    let mut ring = StreamRing::new();
    ring.set_eof();
    assert_eq!(ring.get(HEAD_FRAMES + 100), Some(0));
}

#[test]
fn voice_stream_head_read() {
    let (source, _) = make_source(HEAD_FRAMES + 8, 2);
    let heads = head_at_zero(&source);
    let mut counters = UnderrunCounters::default();
    let mut vs = VoiceStream {
        frames: source.frames,
        channel: 1,
        ring: StreamRing::new_at(HEAD_FRAMES),
        head: Arc::new(heads[1].clone()),
        head_start: 0,
    };
    assert_eq!(vs.get(0, &mut counters), fixture_value(1, 0));
    assert_eq!(vs.get(1, &mut counters), fixture_value(1, 1));
    assert_eq!(
        vs.get(HEAD_FRAMES - 1, &mut counters),
        fixture_value(1, HEAD_FRAMES - 1)
    );
    assert_eq!(vs.get(HEAD_FRAMES, &mut counters), 0);
    assert_eq!(take_underrun_count(&mut counters), 1);
    assert_eq!(take_underrun_count(&mut counters), 0);
}

#[test]
fn io_pool_refills_ring() {
    let frames = HEAD_FRAMES + 4096;
    let (source, file) = make_source(frames, 1);
    let heads = head_at_zero(&source);
    let mut counters = UnderrunCounters::default();
    let mut vs = VoiceStream {
        frames,
        channel: 0,
        ring: StreamRing::new_at(HEAD_FRAMES),
        head: Arc::new(heads[0].clone()),
        head_start: 0,
    };
    work(&source, 0, &mut vs.ring, &file);
    let filled = vs.ring.write_pos() >= HEAD_FRAMES + 1024;
    assert!(filled, "pool did not refill ring");

    for pos in HEAD_FRAMES..(HEAD_FRAMES + 512) {
        let v = vs.get(pos, &mut counters);
        assert_eq!(v, fixture_value(0, pos), "voice read at pos {}", pos);
        vs.ring.mark_consumed(pos);
    }
    assert_eq!(take_underrun_count(&mut counters), 0);
}

#[test]
fn read_head_at_offset() {
    let frames = HEAD_FRAMES * 4;
    let (source, file) = make_source(frames, 2);
    let offset = HEAD_FRAMES * 2;
    let replies: Vec<Option<Vec<u8>>> = source
        .read_head_at(offset)
        .iter()
        .map(|r| read(&file, r))
        .collect();
    let heads = source
        .head_from_bytes(offset, HEAD_FRAMES, &replies)
        .expect("read_head_at");
    assert_eq!(heads.len(), 2);
    for c in 0..2 {
        for i in 0..HEAD_FRAMES.min(frames - offset) {
            assert_eq!(
                heads[c][i],
                fixture_value(c, offset + i),
                "head[{}][{}] vs fixture",
                c,
                i
            );
        }
    }
}

#[test]
fn a_long_sample_plays_to_its_end() {
    let frames = HEAD_FRAMES + RING_FRAMES * 2 + 77;
    let (source, file) = make_source(frames, 1);
    let heads = head_at_zero(&source);
    let mut counters = UnderrunCounters::default();
    let mut vs = VoiceStream {
        frames,
        channel: 0,
        ring: StreamRing::new_at(HEAD_FRAMES),
        head: Arc::new(heads[0].clone()),
        head_start: 0,
    };
    for pos in 0..frames {
        if pos % 512 == 0 {
            work(&source, 0, &mut vs.ring, &file);
        }
        assert_eq!(vs.get(pos, &mut counters), fixture_value(0, pos));
    }
    work(&source, 0, &mut vs.ring, &file);
    assert!(vs.ring.at_eof());
    assert_eq!(vs.get(frames + 5, &mut counters), 0);
    assert_eq!(take_underrun_count(&mut counters), 0);
    assert_eq!(vs.length(), frames);
}

#[test]
fn underruns_are_told_apart() {
    let mut counters = UnderrunCounters::default();
    let mut vs = VoiceStream {
        frames: 100000,
        channel: 0,
        ring: StreamRing::new_at(20),
        head: Arc::new(vec![5; 10]),
        head_start: 10,
    };
    assert_eq!(vs.get(9, &mut counters), 0);
    assert_eq!(vs.get(10, &mut counters), 5);
    assert_eq!(vs.get(20, &mut counters), 0);
    vs.ring.write_chunk(&vec![7; RING_FRAMES]);
    vs.ring.mark_consumed(20 + RING_FRAMES);
    vs.ring.write_chunk(&vec![8; 100]);
    assert_eq!(vs.get(20, &mut counters), 0);
    assert_eq!(vs.get(20 + RING_FRAMES, &mut counters), 8);
    assert_eq!(take_underrun_breakdown(&mut counters), (1, 1, 1));
    assert_eq!(take_underrun_breakdown(&mut counters), (0, 0, 0));
}

#[test]
fn interleaved_frames_are_told_apart() {
    let source = StreamedSampleSource {
        layout: SampleLayout::Interleaved { data_byte_offset: 4, frame_bytes: 4 },
        frames: 3,
        n_chans: 2,
        src_rate: 44100,
        data_rate: 44100,
    };
    let file: Vec<u8> = vec![9, 9, 9, 9, 1, 0, 255, 255, 2, 0, 254, 255, 3, 0, 0, 128];
    let ranges = source.read_head_at_len(1, 50);
    assert_eq!(ranges, vec![ByteRange { offset: 8, len: 8 }]);
    let replies = vec![read(&file, &ranges[0])];
    assert_eq!(
        source.head_from_bytes(1, 50, &replies),
        Some(vec![vec![2, 3], vec![-2, -32768]])
    );
    assert_eq!(source.head_from_bytes(1, 50, &vec![None]), None);
    assert_eq!(source.head_from_bytes(1, 50, &vec![Some(vec![0; 7])]), None);
    assert!(source.read_head_at(3).is_empty());
}

#[test]
fn a_short_reply_ends_the_ring() {
    let (source, file) = make_source(100, 1);
    let mut ring = StreamRing::new_at(40);
    assert_eq!(plan_refill(&ring, 100), RefillPlan::Read(60));
    assert!(refill(&source, 0, &mut ring, 60, &Some(file[80..100].to_vec())));
    assert_eq!(ring.write_pos(), 50);
    assert_eq!(ring.get(49), Some(fixture_value(0, 49)));
    assert!(ring.at_eof());
    let mut ring = StreamRing::new_at(40);
    assert!(!refill(&source, 0, &mut ring, 60, &None));
    assert!(ring.at_eof());
}

#[test]
fn workers_take_turns() {
    let mut next = 0;
    let picked: Vec<usize> = (0..5).map(|_| pick_worker(&mut next, 2)).collect();
    assert_eq!(picked, [0, 1, 0, 1, 0]);
    assert_eq!(pause_after(true, 0), PoolPause::GoOn);
    assert_eq!(pause_after(false, 0), PoolPause::Block);
    assert_eq!(pause_after(false, 3), PoolPause::Nap);
}

#[test]
fn packets_make_up_a_head() {
    let source = StreamedSampleSource {
        layout: SampleLayout::Flac { path: "x.flac".to_string() },
        frames: 100,
        n_chans: 1,
        src_rate: 44100,
        data_rate: 44100,
    };
    let mut head = FlacHead::new(&source, 10, 20, 5);
    let mut cursor = 5;
    while head.wants_packet() {
        let packet: Vec<i16> = (cursor..cursor + 8).map(|f| f as i16).collect();
        head.take_packet(&vec![packet]);
        cursor += 8;
    }
    let heads = head.finish();
    assert_eq!(heads, vec![(10..30).collect::<Vec<i16>>()]);
}

#[test]
fn packets_fill_a_ring() {
    let mut ring = StreamRing::new_at(10);
    let mut queue = FlacRing::new(10, 4);
    let mut cursor = 4;
    while queue.wants_packet(12) {
        let packet: Vec<i16> = (cursor..cursor + 5).map(|f| f as i16).collect();
        queue.take_packet(&packet);
        cursor += 5;
    }
    assert_eq!(queue.flush(&mut ring, 12), 12);
    assert_eq!(ring.write_pos(), 22);
    for pos in 10..22 {
        assert_eq!(ring.get(pos), Some(pos as i16));
    }
}

#[test]
fn rings_take_in_the_sample_whatever_happens() {
    let (source, file) = make_source(90_000, 2);
    let head_end = 1_000;
    let mut ring = StreamRing::new_at(head_end);
    let mut consumed = head_end;
    // Workers look at the ring far more often than the voice moves on.
    for round in 0..60 {
        for _ in 0..3 {
            match plan_refill(&ring, source.frames) {
                RefillPlan::Skip => {}
                RefillPlan::End => ring.set_eof(),
                RefillPlan::Read(count) => {
                    let range = source.locate(1, ring.write_pos(), count);
                    refill(&source, 1, &mut ring, count, &read(&file, &range));
                }
            }
            assert!(ring.write_pos() <= consumed + RING_FRAMES);
            assert!(!ring.at_eof() || ring.write_pos() >= source.frames);
        }
        for pos in (consumed..ring.write_pos()).step_by(997) {
            assert_eq!(ring.get(pos), Some(fixture_value(1, pos)), "round {}", round);
        }
        consumed = (consumed + 2_100).min(source.frames);
        ring.mark_consumed(consumed);
    }
    assert_eq!(ring.write_pos(), source.frames);
    assert!(ring.at_eof());
}

#[test]
fn short_reads_end_a_ring() {
    let (source, file) = make_source(50_000, 1);
    let mut ring = StreamRing::new_at(0);
    let RefillPlan::Read(count) = plan_refill(&ring, source.frames) else {
        panic!("the ring is empty");
    };
    // One byte more than ten frames.
    refill(&source, 0, &mut ring, count, &Some(file[..21].to_vec()));
    assert_eq!(ring.write_pos(), 10);
    assert!(ring.at_eof());
    assert_eq!(ring.get(9), Some(fixture_value(0, 9)));
    assert_eq!(ring.get(10), Some(0));
    assert_eq!(plan_refill(&ring, source.frames), RefillPlan::Skip);
    let mut ring = StreamRing::new_at(5);
    refill(&source, 0, &mut ring, 100, &None);
    assert_eq!(ring.write_pos(), 5);
    assert!(ring.at_eof());
}
