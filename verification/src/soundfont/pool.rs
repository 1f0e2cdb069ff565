//! Whole runs of a ring: what a voice reads of it and what is read from disk for it, in any
//! order.

use super::ring::{
    budget_of, chunk_written, empty_ring, frame_at, read_after_write, ring_wf, RingModel,
    RING_FRAMES,
};
use super::streaming::{
    bytes_hold_the_sample, earlier, packet_queued, plan_of, recorded, refilled,
    waiting_frames_are_a_part_of_the_sample, RefillPlan, StreamedSampleSource,
};
use vstd::prelude::*;

verus! {

/// What can happen to a ring.
pub enum RingEvent {
    /// The voice comes to a position.
    Consumed(usize),
    /// A worker looks at the ring. Where it has to read, it gets so many of the bytes that it
    /// asks for, or all of them.
    Served(nat),
    /// A worker looks at the ring. Where it has to read, it gets nothing.
    Failed,
}

/// The bytes that come where `len` of them are asked for and `n` come at most.
pub open spec fn bytes_read(file: Seq<u8>, offset: int, len: int, n: int) -> Seq<u8> {
    let end = earlier(offset + earlier(len, n), file.len() as int);
    if offset <= end {
        file.subrange(offset, end)
    } else {
        Seq::empty()
    }
}

/// The bytes that a worker gets for a ring where it reads `count` frames; `None` where the
/// read fails.
pub open spec fn reply_to(
    m: RingModel,
    source: StreamedSampleSource,
    channel: int,
    file: Seq<u8>,
    count: int,
    e: RingEvent,
) -> Option<Seq<u8>> {
    let (offset, len) = source.bytes_of_frames(channel, m.write, count);
    match e {
        RingEvent::Served(n) => Some(bytes_read(file, offset, len, n as int)),
        _ => None,
    }
}

/// A ring after a worker has looked at it.
pub open spec fn served(
    m: RingModel,
    source: StreamedSampleSource,
    channel: int,
    file: Seq<u8>,
    e: RingEvent,
) -> RingModel {
    match plan_of(m, source.frames as int) {
        RefillPlan::Skip => m,
        RefillPlan::End => RingModel { eof: true, ..m },
        RefillPlan::Read(count) => refilled(
            m,
            source,
            channel,
            count as int,
            reply_to(m, source, channel, file, count as int, e),
        ),
    }
}

/// The frames that a ring takes in when a worker looks at it.
pub open spec fn frames_taken(
    m: RingModel,
    source: StreamedSampleSource,
    channel: int,
    file: Seq<u8>,
    e: RingEvent,
) -> Seq<i16> {
    match plan_of(m, source.frames as int) {
        RefillPlan::Read(count) => match reply_to(m, source, channel, file, count as int, e) {
            Some(bytes) => source.frames_in(channel, bytes),
            None => Seq::empty(),
        },
        _ => Seq::empty(),
    }
}

/// A read for a ring fails, or brings fewer bytes than were asked for.
pub open spec fn falls_short(
    m: RingModel,
    source: StreamedSampleSource,
    channel: int,
    file: Seq<u8>,
    e: RingEvent,
) -> bool {
    match plan_of(m, source.frames as int) {
        RefillPlan::Read(count) => match reply_to(m, source, channel, file, count as int, e) {
            Some(bytes) => bytes.len() < source.bytes_of_frames(
                channel,
                m.write,
                count as int,
            ).1,
            None => true,
        },
        _ => false,
    }
}

/// A run of a ring: the ring, all frames that it has taken in, and whether a read has fallen
/// short.
#[verifier::ext_equal]
pub struct RingRun {
    pub ring: RingModel,
    pub taken: Seq<i16>,
    pub short: bool,
}

/// A run after one more event.
pub open spec fn run_on(
    r: RingRun,
    source: StreamedSampleSource,
    channel: int,
    file: Seq<u8>,
    e: RingEvent,
) -> RingRun {
    match e {
        RingEvent::Consumed(pos) => RingRun {
            ring: RingModel {
                consumed: if pos > r.ring.consumed {
                    pos as int
                } else {
                    r.ring.consumed
                },
                ..r.ring
            },
            ..r
        },
        _ => RingRun {
            ring: served(r.ring, source, channel, file, e),
            taken: r.taken + frames_taken(r.ring, source, channel, file, e),
            short: r.short || falls_short(r.ring, source, channel, file, e),
        },
    }
}

/// The run of a ring behind a head that ends at `head_end`.
pub open spec fn run_of(
    head_end: int,
    source: StreamedSampleSource,
    channel: int,
    file: Seq<u8>,
    events: Seq<RingEvent>,
) -> RingRun
    decreases events.len(),
{
    if events.len() == 0 {
        RingRun { ring: empty_ring(head_end), taken: Seq::empty(), short: false }
    } else {
        run_on(
            run_of(head_end, source, channel, file, events.drop_last()),
            source,
            channel,
            file,
            events.last(),
        )
    }
}

/// What holds of every run of a ring.
pub open spec fn run_holds(
    r: RingRun,
    head_end: int,
    source: StreamedSampleSource,
    channel: int,
    file: Seq<u8>,
) -> bool {
    let sample = recorded(source, channel, file);
    &&& ring_wf(r.ring)
    &&& r.ring.write == head_end + r.taken.len()
    &&& r.taken.len() > 0 ==> r.ring.write <= source.frames
    &&& forall|i: int| 0 <= i < r.taken.len() ==> (#[trigger] r.taken[i]) == sample[head_end + i]
    &&& forall|pos: int|
        head_end <= pos < r.ring.write && r.ring.write - pos <= RING_FRAMES ==> #[trigger] frame_at(
            r.ring,
            pos,
        ) == Some(sample[pos])
    &&& head_end <= r.ring.consumed
    &&& r.ring.write <= r.ring.consumed + RING_FRAMES
    &&& r.ring.eof ==> r.short || r.ring.write >= source.frames
}

/// The whole frames in what comes of a read are frames of the sample.
proof fn replies_hold_the_sample(
    source: StreamedSampleSource,
    channel: int,
    file: Seq<u8>,
    at: int,
    count: int,
    n: int,
)
    requires
        source.wf(),
        !(source.layout is Flac),
        0 <= channel < source.n_chans,
        0 <= at,
        0 <= count,
        0 <= n,
        at + count <= source.frames,
    ensures
        ({
            let (offset, len) = source.bytes_of_frames(channel, at, count);
            let frames = source.frames_in(channel, bytes_read(file, offset, len, n));
            &&& frames.len() <= count
            &&& frames == recorded(source, channel, file).subrange(at, at + frames.len())
        }),
{
    let (offset, len) = source.bytes_of_frames(channel, at, count);
    let stride = source.stride();
    let bytes = bytes_read(file, offset, len, n);
    let frames = source.frames_in(channel, bytes);
    let got = bytes.len() as int / stride;
    assert(0 <= at * stride) by (nonlinear_arith)
        requires
            0 <= at,
            0 <= stride,
    ;
    assert(len == count * stride && 0 <= len) by (nonlinear_arith)
        requires
            0 <= count,
            0 < stride,
            (source.layout is Separated && stride == 2 && len == 2 * count) || len == count
                * stride,
    ;
    assert(0 <= offset);
    assert(bytes.len() <= len);
    assert(0 <= got <= count && got * stride <= bytes.len()) by (nonlinear_arith)
        requires
            got == bytes.len() as int / stride,
            bytes.len() <= count * stride,
            0 < stride,
            0 <= count,
    ;
    let (place, size) = source.bytes_of_frames(channel, at, got);
    assert(place == offset);
    assert(size == got * stride) by (nonlinear_arith)
        requires
            (source.layout is Separated && stride == 2 && size == 2 * got) || size == got * stride,
    ;
    assert(got * stride / stride == got) by (nonlinear_arith)
        requires
            0 < stride,
    ;
    if bytes.len() > 0 {
        let whole = file.subrange(offset, offset + size);
        assert(0 <= size) by (nonlinear_arith)
            requires
                size == got * stride,
                0 <= got,
                0 < stride,
        ;
        bytes_hold_the_sample(source, channel, file, at, got);
        assert forall|f: int| 0 <= f < got implies frames[f] == source.frames_in(
            channel,
            whole,
        )[f] by {
            assert(0 <= f * stride && f * stride + stride <= size) by (nonlinear_arith)
                requires
                    0 <= f < got,
                    size == got * stride,
                    0 < stride,
            ;
        }
        assert(frames =~= source.frames_in(channel, whole));
    } else {
        assert(got == 0) by (nonlinear_arith)
            requires
                got * stride <= 0,
                0 <= got,
                0 < stride,
        ;
        assert(frames =~= recorded(source, channel, file).subrange(at, at));
    }
}

proof fn serving_keeps_a_run(
    r: RingRun,
    head_end: int,
    source: StreamedSampleSource,
    channel: int,
    file: Seq<u8>,
    e: RingEvent,
)
    requires
        source.wf(),
        !(source.layout is Flac),
        0 <= channel < source.n_chans,
        0 <= head_end,
        run_holds(r, head_end, source, channel, file),
        !(e is Consumed),
    ensures
        run_holds(run_on(r, source, channel, file, e), head_end, source, channel, file),
{
    let m = r.ring;
    let next = run_on(r, source, channel, file, e);
    let sample = recorded(source, channel, file);
    match plan_of(m, source.frames as int) {
        RefillPlan::Read(count) => {
            assert(0 < count <= budget_of(m));
            assert(m.write + count <= source.frames);
            match e {
                RingEvent::Served(n) => {
                    let chunk = frames_taken(m, source, channel, file, e);
                    replies_hold_the_sample(
                        source,
                        channel,
                        file,
                        m.write,
                        count as int,
                        n as int,
                    );
                    assert(next.ring.write == m.write + chunk.len());
                    assert forall|i: int| 0 <= i < next.taken.len() implies (
                    #[trigger] next.taken[i]) == sample[head_end + i] by {
                        if i >= r.taken.len() {
                            assert(next.taken[i] == chunk[i - r.taken.len()]);
                        } else {
                            assert(next.taken[i] == r.taken[i]);
                        }
                    }
                    assert forall|pos: int|
                        head_end <= pos < next.ring.write && next.ring.write - pos
                            <= RING_FRAMES implies #[trigger] frame_at(next.ring, pos) == Some(
                        sample[pos],
                    ) by {
                        read_after_write(m, chunk, pos);
                        assert(frame_at(next.ring, pos) == frame_at(chunk_written(m, chunk), pos));
                        if pos < m.write {
                            assert(frame_at(m, pos) == Some(sample[pos]));
                        }
                    }
                },
                _ => {
                    assert(next.taken =~= r.taken);
                    assert forall|pos: int|
                        head_end <= pos < next.ring.write && next.ring.write - pos
                            <= RING_FRAMES implies #[trigger] frame_at(next.ring, pos) == Some(
                        sample[pos],
                    ) by {
                        assert(frame_at(m, pos) == Some(sample[pos]));
                    }
                },
            }
        },
        _ => {
            assert(next.taken =~= r.taken);
            assert forall|pos: int|
                head_end <= pos < next.ring.write && next.ring.write - pos
                    <= RING_FRAMES implies #[trigger] frame_at(next.ring, pos) == Some(
                sample[pos],
            ) by {
                assert(frame_at(m, pos) == Some(sample[pos]));
            }
        },
    }
}

/// Whatever its voice reads and whatever comes of the reads from disk, a ring takes in the
/// frames of the sample behind the head, one after the other and none twice, and holds them
/// at their places. It is never further ahead of its voice than it is long, and it is at its
/// end only where the sample is or a read has fallen short.
pub proof fn rings_take_in_the_sample(
    head_end: int,
    source: StreamedSampleSource,
    channel: int,
    file: Seq<u8>,
    events: Seq<RingEvent>,
)
    requires
        source.wf(),
        !(source.layout is Flac),
        0 <= channel < source.n_chans,
        0 <= head_end <= usize::MAX,
    ensures
        run_holds(
            run_of(head_end, source, channel, file, events),
            head_end,
            source,
            channel,
            file,
        ),
    decreases events.len(),
{
    if events.len() > 0 {
        rings_take_in_the_sample(head_end, source, channel, file, events.drop_last());
        let r = run_of(head_end, source, channel, file, events.drop_last());
        if events.last() is Consumed {
            let next = run_on(r, source, channel, file, events.last());
            let sample = recorded(source, channel, file);
            assert forall|pos: int|
                head_end <= pos < next.ring.write && next.ring.write - pos
                    <= RING_FRAMES implies #[trigger] frame_at(next.ring, pos) == Some(
                sample[pos],
            ) by {
                assert(frame_at(r.ring, pos) == Some(sample[pos]));
            }
        } else {
            serving_keeps_a_run(r, head_end, source, channel, file, events.last());
        }
    }
}

/// What can happen to the ring of a FLAC sample.
pub enum FlacEvent {
    /// The voice comes to a position.
    Consumed(usize),
    /// The decoder gives so many frames more, as far as the sample goes.
    Packet(nat),
    /// A worker gives the ring what waits for it.
    Flushed,
}

/// A run of the ring of a FLAC sample: the ring, the frames that wait for it, the position of
/// the first of them, and that of the next packet.
#[verifier::ext_equal]
pub struct FlacRun {
    pub ring: RingModel,
    pub pending: Seq<i16>,
    pub start: int,
    pub cursor: int,
}

/// A run after one more event.
pub open spec fn flac_run_on(r: FlacRun, sample: Seq<i16>, e: FlacEvent) -> FlacRun {
    match e {
        FlacEvent::Consumed(pos) => FlacRun {
            ring: RingModel {
                consumed: if pos > r.ring.consumed {
                    pos as int
                } else {
                    r.ring.consumed
                },
                ..r.ring
            },
            ..r
        },
        FlacEvent::Packet(n) => {
            let end = earlier(r.cursor + n, sample.len() as int);
            FlacRun {
                pending: packet_queued(
                    r.pending,
                    r.start,
                    r.cursor,
                    sample.subrange(r.cursor, end),
                ),
                cursor: end,
                ..r
            }
        },
        FlacEvent::Flushed => match plan_of(r.ring, sample.len() as int) {
            RefillPlan::Skip => r,
            RefillPlan::End => FlacRun { ring: RingModel { eof: true, ..r.ring }, ..r },
            RefillPlan::Read(budget) => {
                let n = earlier(budget as int, r.pending.len() as int);
                FlacRun {
                    ring: chunk_written(r.ring, r.pending.take(n)),
                    pending: r.pending.skip(n),
                    start: r.start + n,
                    ..r
                }
            },
        },
    }
}

/// The run of the ring of a FLAC sample behind a head that ends at `head_end`. The decoder
/// goes on at `cursor`.
pub open spec fn flac_run_of(
    head_end: int,
    cursor: int,
    sample: Seq<i16>,
    events: Seq<FlacEvent>,
) -> FlacRun
    decreases events.len(),
{
    if events.len() == 0 {
        FlacRun {
            ring: empty_ring(head_end),
            pending: Seq::empty(),
            start: head_end,
            cursor,
        }
    } else {
        flac_run_on(
            flac_run_of(head_end, cursor, sample, events.drop_last()),
            sample,
            events.last(),
        )
    }
}

/// What holds of every run of the ring of a FLAC sample.
pub open spec fn flac_run_holds(r: FlacRun, head_end: int, sample: Seq<i16>) -> bool {
    let end = r.start + r.pending.len();
    &&& ring_wf(r.ring)
    &&& r.start == r.ring.write
    &&& head_end <= r.start
    &&& end <= sample.len()
    &&& r.pending == sample.subrange(r.start, end)
    &&& 0 <= r.cursor <= end
    &&& forall|pos: int|
        head_end <= pos < r.ring.write && r.ring.write - pos <= RING_FRAMES ==> #[trigger] frame_at(
            r.ring,
            pos,
        ) == Some(sample[pos])
    &&& head_end <= r.ring.consumed
    &&& r.ring.write <= r.ring.consumed + RING_FRAMES
    &&& r.ring.eof ==> r.ring.write >= sample.len()
}

proof fn flac_event_keeps_a_run(r: FlacRun, head_end: int, sample: Seq<i16>, e: FlacEvent)
    requires
        0 <= head_end,
        sample.len() <= usize::MAX,
        flac_run_holds(r, head_end, sample),
    ensures
        flac_run_holds(flac_run_on(r, sample, e), head_end, sample),
{
    let m = r.ring;
    let next = flac_run_on(r, sample, e);
    match e {
        FlacEvent::Packet(n) => {
            let end = earlier(r.cursor + n, sample.len() as int);
            waiting_frames_are_a_part_of_the_sample(
                sample,
                r.pending,
                r.start,
                r.cursor,
                end - r.cursor,
            );
        },
        FlacEvent::Flushed => {
            if let RefillPlan::Read(budget) = plan_of(m, sample.len() as int) {
                let n = earlier(budget as int, r.pending.len() as int);
                let chunk = r.pending.take(n);
                assert(0 < budget <= budget_of(m));
                assert(next.pending =~= sample.subrange(
                    next.start,
                    next.start + next.pending.len(),
                ));
                assert forall|pos: int|
                    head_end <= pos < next.ring.write && next.ring.write - pos
                        <= RING_FRAMES implies #[trigger] frame_at(next.ring, pos) == Some(
                    sample[pos],
                ) by {
                    read_after_write(m, chunk, pos);
                    if pos < m.write {
                        assert(frame_at(m, pos) == Some(sample[pos]));
                    }
                }
            }
        },
        _ => {},
    }
    if next.ring.slots == m.slots && next.ring.write == m.write {
        assert forall|pos: int|
            head_end <= pos < next.ring.write && next.ring.write - pos
                <= RING_FRAMES implies #[trigger] frame_at(next.ring, pos) == Some(
            sample[pos],
        ) by {
            assert(frame_at(m, pos) == Some(sample[pos]));
        }
    }
}

/// Whatever its voice reads and however the decoder cuts the sample into packets, the ring of
/// a FLAC sample takes in the frames behind the head, one after the other and none twice. It
/// is never further ahead of its voice than it is long. The decoder goes on at the head's end
/// or before it.
pub proof fn flac_rings_take_in_the_sample(
    head_end: int,
    cursor: int,
    sample: Seq<i16>,
    events: Seq<FlacEvent>,
)
    requires
        0 <= cursor <= head_end <= sample.len() <= usize::MAX,
    ensures
        flac_run_holds(flac_run_of(head_end, cursor, sample, events), head_end, sample),
    decreases events.len(),
{
    if events.len() == 0 {
        assert(sample.subrange(head_end, head_end) =~= Seq::empty());
    } else {
        flac_rings_take_in_the_sample(head_end, cursor, sample, events.drop_last());
        flac_event_keeps_a_run(
            flac_run_of(head_end, cursor, sample, events.drop_last()),
            head_end,
            sample,
            events.last(),
        );
    }
}

} // verus!
