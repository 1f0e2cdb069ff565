//! The window that a voice has on a sample which is read from disk while it plays.

use std::sync::Arc;
use vstd::prelude::*;

verus! {

/// How many frames of a sample stay in memory from where a voice begins to read.
pub const HEAD_FRAMES: usize = 44100;

/// How many frames a ring holds.
pub const RING_FRAMES: usize = 32768;

/// How many frames are read from disk at a time.
pub const REFILL_CHUNK_FRAMES: usize = 16384;

/// A ring that is fewer frames ahead of its voice than this is refilled.
pub const LOW_WATER_FRAMES: usize = 16384;

/// How often voices have asked for frames that were not there.
#[derive(Debug, Clone, Copy, PartialEq, Eq, Structural)]
pub struct UnderrunCounters {
    pub total: u32,
    /// Frames that had not been read yet.
    pub ahead: u32,
    /// Frames that had left the ring already.
    pub behind: u32,
    /// Frames before the head of the voice.
    pub before_head: u32,
}

impl Default for UnderrunCounters {
    fn default() -> (r: Self)
        ensures
            r == (UnderrunCounters { total: 0, ahead: 0, behind: 0, before_head: 0 }),
    {
        UnderrunCounters { total: 0, ahead: 0, behind: 0, before_head: 0 }
    }
}

/// The number of underruns since the last call.
pub fn take_underrun_count(counters: &mut UnderrunCounters) -> (r: u32)
    ensures
        r == old(counters).total,
        *final(counters) == (UnderrunCounters { total: 0, ..*old(counters) }),
{
    let r = counters.total;
    counters.total = 0;
    r
}

/// The number of underruns of each kind since the last call: ahead, behind, before
/// the head.
pub fn take_underrun_breakdown(counters: &mut UnderrunCounters) -> (r: (u32, u32, u32))
    ensures
        r == (old(counters).ahead, old(counters).behind, old(counters).before_head),
        *final(counters) == (UnderrunCounters {
            ahead: 0,
            behind: 0,
            before_head: 0,
            ..*old(counters)
        }),
{
    let r = (counters.ahead, counters.behind, counters.before_head);
    counters.ahead = 0;
    counters.behind = 0;
    counters.before_head = 0;
    r
}

/// A window of [`RING_FRAMES`] frames on one channel of a sample. The frame at
/// position `pos` of the sample lies in slot `pos % RING_FRAMES`.
#[derive(Debug)]
pub struct StreamRing {
    data: Vec<i16>,
    write_pos: usize,
    consumed_hint: usize,
    eof: bool,
}

/// The model of a ring.
#[verifier::ext_equal]
pub struct RingModel {
    /// What the slots hold.
    pub slots: Seq<i16>,
    /// The position that is written next.
    pub write: int,
    /// The furthest position that the voice has read.
    pub consumed: int,
    /// Nothing will be written any more.
    pub eof: bool,
}

impl View for StreamRing {
    type V = RingModel;

    closed spec fn view(&self) -> RingModel {
        RingModel {
            slots: self.data@,
            write: self.write_pos as int,
            consumed: self.consumed_hint as int,
            eof: self.eof,
        }
    }
}

/// The ring has all its slots.
pub open spec fn ring_wf(m: RingModel) -> bool {
    &&& m.slots.len() == RING_FRAMES
    &&& 0 <= m.write <= usize::MAX
    &&& 0 <= m.consumed <= usize::MAX
}

/// What a ring has at position `pos`: silence past the end of the sample, and
/// nothing where the frame has not come yet or has gone already.
pub open spec fn frame_at(m: RingModel, pos: int) -> Option<i16> {
    if pos >= m.write {
        if m.eof {
            Some(0)
        } else {
            None
        }
    } else if m.write - pos > RING_FRAMES {
        None
    } else {
        Some(m.slots[pos % RING_FRAMES as int])
    }
}

/// A ring whose voice has come to position `pos`.
pub open spec fn read_up_to(m: RingModel, pos: int) -> RingModel {
    RingModel {
        consumed: if pos > m.consumed {
            pos
        } else {
            m.consumed
        },
        ..m
    }
}

/// A ring with nothing in it that goes on from position `start`.
pub open spec fn empty_ring(start: int) -> RingModel {
    RingModel {
        slots: Seq::new(RING_FRAMES as nat, |i: int| 0i16),
        write: start,
        consumed: start,
        eof: false,
    }
}

/// The slot of position `pos` after `chunk` has been written at `m.write`.
pub open spec fn slot_written(m: RingModel, chunk: Seq<i16>, slot: int) -> i16
    decreases chunk.len(),
{
    if chunk.len() == 0 {
        m.slots[slot]
    } else if (m.write + chunk.len() - 1) % (RING_FRAMES as int) == slot {
        chunk.last()
    } else {
        slot_written(m, chunk.drop_last(), slot)
    }
}

/// The ring after `chunk` has been written.
pub open spec fn chunk_written(m: RingModel, chunk: Seq<i16>) -> RingModel {
    RingModel {
        slots: Seq::new(RING_FRAMES as nat, |slot: int| slot_written(m, chunk, slot)),
        write: m.write + chunk.len(),
        ..m
    }
}

/// How many frames may be written before the ring overtakes its voice, at most one
/// chunk.
pub open spec fn budget_of(m: RingModel) -> int {
    if m.write >= m.consumed + RING_FRAMES {
        0
    } else if m.consumed + RING_FRAMES - m.write > REFILL_CHUNK_FRAMES {
        REFILL_CHUNK_FRAMES as int
    } else {
        m.consumed + RING_FRAMES - m.write
    }
}

/// Two positions less than a ring apart lie in different slots.
proof fn slots_differ(a: int, b: int)
    requires
        0 <= a < b,
        b - a < RING_FRAMES,
    ensures
        a % (RING_FRAMES as int) != b % (RING_FRAMES as int),
{
    if a % (RING_FRAMES as int) == b % (RING_FRAMES as int) {
        vstd::arithmetic::div_mod::lemma_fundamental_div_mod(a, RING_FRAMES as int);
        vstd::arithmetic::div_mod::lemma_fundamental_div_mod(b, RING_FRAMES as int);
        let qa = a / (RING_FRAMES as int);
        let qb = b / (RING_FRAMES as int);
        assert(b - a == RING_FRAMES * qb - RING_FRAMES * qa);
        assert(b - a == 32768 * (qb - qa));
    }
}

proof fn slot_of_written_frame(m: RingModel, chunk: Seq<i16>, pos: int)
    requires
        ring_wf(m),
        0 <= pos < m.write + chunk.len(),
        m.write + chunk.len() - pos <= RING_FRAMES,
    ensures
        slot_written(m, chunk, pos % (RING_FRAMES as int)) == (if pos >= m.write {
            chunk[pos - m.write]
        } else {
            m.slots[pos % (RING_FRAMES as int)]
        }),
    decreases chunk.len(),
{
    if chunk.len() > 0 {
        let last = m.write + chunk.len() - 1;
        if pos != last {
            slots_differ(pos, last);
            slot_of_written_frame(m, chunk.drop_last(), pos);
        }
    }
}

/// What is written into a ring is read back from it, as long as the ring does not
/// fill up with what comes after, and what was there before stays there as long as
/// it is not pushed out.
pub proof fn read_after_write(m: RingModel, chunk: Seq<i16>, pos: int)
    requires
        ring_wf(m),
        0 <= pos,
    ensures
        m.write <= pos < m.write + chunk.len() && m.write + chunk.len() - pos <= RING_FRAMES
            ==> frame_at(chunk_written(m, chunk), pos) == Some(chunk[pos - m.write]),
        pos < m.write && m.write + chunk.len() - pos <= RING_FRAMES ==> frame_at(
            chunk_written(m, chunk),
            pos,
        ) == frame_at(m, pos),
        pos < m.write + chunk.len() && m.write + chunk.len() - pos > RING_FRAMES ==> frame_at(
            chunk_written(m, chunk),
            pos,
        ) is None,
{
    if pos < m.write + chunk.len() && m.write + chunk.len() - pos <= RING_FRAMES {
        slot_of_written_frame(m, chunk, pos);
    }
}

/// A chunk within the budget pushes out nothing that the voice has yet to read.
pub proof fn refill_spares_unread_frames(m: RingModel, chunk: Seq<i16>, pos: int)
    requires
        ring_wf(m),
        chunk.len() <= budget_of(m),
        m.consumed <= pos < m.write,
    ensures
        frame_at(m, pos) is Some ==> frame_at(chunk_written(m, chunk), pos) == frame_at(m, pos),
{
    read_after_write(m, chunk, pos);
}

/// A chunk within the budget is read back whole, and everything that the voice has yet to
/// read stays as it was.
pub proof fn budgets_keep_everything_unread(m: RingModel, chunk: Seq<i16>)
    requires
        ring_wf(m),
        m.consumed <= m.write,
        chunk.len() <= budget_of(m),
    ensures
        forall|pos: int|
            m.consumed <= pos < m.write && frame_at(m, pos) is Some ==> #[trigger] frame_at(
                chunk_written(m, chunk),
                pos,
            ) == frame_at(m, pos),
        forall|i: int|
            0 <= i < chunk.len() ==> #[trigger] frame_at(chunk_written(m, chunk), m.write + i)
                == Some(chunk[i]),
{
    assert forall|pos: int|
        m.consumed <= pos < m.write && frame_at(m, pos) is Some implies #[trigger] frame_at(
        chunk_written(m, chunk),
        pos,
    ) == frame_at(m, pos) by {
        refill_spares_unread_frames(m, chunk, pos);
    }
    assert forall|i: int| 0 <= i < chunk.len() implies #[trigger] frame_at(
        chunk_written(m, chunk),
        m.write + i,
    ) == Some(chunk[i]) by {
        read_after_write(m, chunk, m.write + i);
    }
}

/// Past the end of the sample a ring gives silence for ever.
pub proof fn silence_past_the_end(m: RingModel, pos: int)
    requires
        m.eof,
        pos >= m.write,
    ensures
        frame_at(m, pos) == Some(0i16),
{
}

impl StreamRing {
    /// A ring that goes on from the frame after the head.
    pub fn new_at(head_end_frame: usize) -> (r: StreamRing)
        ensures
            r@ == empty_ring(head_end_frame as int),
            ring_wf(r@),
    {
        let data: Vec<i16> = vec![0; RING_FRAMES];
        assert(data@ =~= empty_ring(head_end_frame as int).slots);
        StreamRing {
            data,
            write_pos: head_end_frame,
            consumed_hint: head_end_frame,
            eof: false,
        }
    }

    /// A ring behind a head of the usual length.
    pub fn new() -> (r: StreamRing)
        ensures
            r@ == empty_ring(HEAD_FRAMES as int),
            ring_wf(r@),
    {
        StreamRing::new_at(HEAD_FRAMES)
    }

    /// The frame at position `pos`, if the ring has it.
    pub fn get(&self, pos: usize) -> (r: Option<i16>)
        requires
            ring_wf(self@),
        ensures
            r == frame_at(self@, pos as int),
    {
        if pos >= self.write_pos {
            return if self.eof {
                Some(0)
            } else {
                None
            };
        }
        if self.write_pos - pos > RING_FRAMES {
            return None;
        }
        assert(pos & 32767 == pos % 32768) by (bit_vector);
        Some(self.data[pos & (RING_FRAMES - 1)])
    }

    /// The position that is written next.
    pub fn write_pos(&self) -> (r: usize)
        ensures
            r == self@.write,
    {
        self.write_pos
    }

    /// The furthest position that the voice has read.
    pub fn consumed(&self) -> (r: usize)
        ensures
            r == self@.consumed,
    {
        self.consumed_hint
    }

    /// Whether nothing will be written any more.
    pub fn at_eof(&self) -> (r: bool)
        ensures
            r == self@.eof,
    {
        self.eof
    }

    /// Notes that the voice has come to position `pos`. A voice that goes back
    /// takes nothing back.
    pub fn mark_consumed(&mut self, pos: usize)
        ensures
            final(self)@ == read_up_to(old(self)@, pos as int),
    {
        if pos > self.consumed_hint {
            self.consumed_hint = pos;
        }
    }

    /// How many frames may be written before the ring overtakes its voice.
    pub fn refill_budget(&self) -> (r: usize)
        ensures
            r == budget_of(self@),
    {
        if self.write_pos >= self.consumed_hint {
            let lead: usize = self.write_pos - self.consumed_hint;
            if lead >= RING_FRAMES {
                0
            } else if RING_FRAMES - lead > REFILL_CHUNK_FRAMES {
                REFILL_CHUNK_FRAMES
            } else {
                RING_FRAMES - lead
            }
        } else {
            REFILL_CHUNK_FRAMES
        }
    }

    /// Writes frames behind those that are there.
    pub fn write_chunk(&mut self, chunk: &[i16])
        requires
            ring_wf(old(self)@),
            old(self)@.write + chunk.len() <= usize::MAX,
        ensures
            final(self)@ == chunk_written(old(self)@, chunk@),
            ring_wf(final(self)@),
    {
        let ghost m = self@;
        let start = self.write_pos;
        let mut i: usize = 0;
        assert(self.data@ =~= chunk_written(m, chunk@.take(0)).slots);
        while i < chunk.len()
            invariant
                m == old(self)@,
                ring_wf(m),
                start == m.write,
                start + chunk.len() <= usize::MAX,
                i <= chunk.len(),
                self.write_pos == start,
                self.consumed_hint == m.consumed,
                self.eof == m.eof,
                self.data@ == chunk_written(m, chunk@.take(i as int)).slots,
                self.data.len() == RING_FRAMES,
            decreases chunk.len() - i,
        {
            let at: usize = start + i;
            assert(at & 32767 == at % 32768) by (bit_vector);
            let ghost before = self.data@;
            self.data.set(at & (RING_FRAMES - 1), chunk[i]);
            assert(chunk@.take(i + 1).drop_last() =~= chunk@.take(i as int));
            assert(self.data@ =~= chunk_written(m, chunk@.take(i + 1)).slots);
            i = i + 1;
        }
        assert(chunk@.take(i as int) =~= chunk@);
        self.write_pos = start + chunk.len();
    }

    /// Notes that nothing will be written any more.
    pub fn set_eof(&mut self)
        ensures
            final(self)@ == (RingModel { eof: true, ..old(self)@ }),
    {
        self.eof = true;
    }
}

/// What one channel of a voice reads: a head that is always in memory, and a ring
/// for what comes after it.
#[derive(Debug)]
pub struct VoiceStream {
    /// The length of the sample in frames.
    pub frames: usize,
    pub channel: usize,
    pub ring: StreamRing,
    /// The frames from `head_start` on.
    pub head: Arc<Vec<i16>>,
    pub head_start: usize,
}

/// Why a voice had no frame.
pub enum Underrun {
    Ahead,
    Behind,
    BeforeHead,
}

/// What a voice hears at position `pos`, and why it hears nothing where that is so.
pub open spec fn heard(stream: VoiceStream, pos: int) -> (i16, Option<Underrun>) {
    let ring = stream.ring@;
    if pos < stream.head_start {
        (0, Some(Underrun::BeforeHead))
    } else if pos < stream.head_start + stream.head@.len() {
        (stream.head@[pos - stream.head_start], None)
    } else {
        match frame_at(ring, pos) {
            Some(v) => (v, None),
            None => (
                0,
                Some(
                    if pos >= ring.write {
                        Underrun::Ahead
                    } else {
                        Underrun::Behind
                    },
                ),
            ),
        }
    }
}

/// A count after one more event; it begins again where it has no room.
pub open spec fn counted(n: u32) -> u32 {
    if n == u32::MAX {
        0
    } else {
        (n + 1) as u32
    }
}

/// The counters after an underrun.
pub open spec fn underrun_counted(c: UnderrunCounters, why: Option<Underrun>) -> UnderrunCounters {
    match why {
        None => c,
        Some(Underrun::Ahead) => UnderrunCounters {
            total: counted(c.total),
            ahead: counted(c.ahead),
            ..c
        },
        Some(Underrun::Behind) => UnderrunCounters {
            total: counted(c.total),
            behind: counted(c.behind),
            ..c
        },
        Some(Underrun::BeforeHead) => UnderrunCounters {
            total: counted(c.total),
            before_head: counted(c.before_head),
            ..c
        },
    }
}

/// The frame of a sample at position `pos`; silence past its end.
pub open spec fn sample_frame(sample: Seq<i16>, pos: int) -> i16 {
    if 0 <= pos < sample.len() {
        sample[pos]
    } else {
        0
    }
}

/// The stream holds frames of `sample` and no others, each at its place: those of the head,
/// and those that the ring has taken in behind it. The ring is at its end only where the
/// sample is.
pub open spec fn plays(stream: VoiceStream, sample: Seq<i16>) -> bool {
    let ring = stream.ring@;
    let head_end = stream.head_start + stream.head@.len();
    &&& ring_wf(ring)
    &&& head_end <= ring.write
    &&& forall|i: int|
        0 <= i < stream.head@.len() ==> (#[trigger] stream.head@[i]) == sample_frame(
            sample,
            stream.head_start + i,
        )
    &&& forall|pos: int|
        head_end <= pos < ring.write && ring.write - pos <= RING_FRAMES ==> (
        #[trigger] ring.slots[pos % RING_FRAMES as int]) == sample_frame(sample, pos)
    &&& ring.eof ==> ring.write >= sample.len()
}

/// Whatever a voice hears without an underrun is the frame of its sample at that position.
pub proof fn heard_frames_are_the_sample(stream: VoiceStream, sample: Seq<i16>, pos: int)
    requires
        plays(stream, sample),
        0 <= pos,
    ensures
        heard(stream, pos).1 is None ==> heard(stream, pos).0 == sample_frame(sample, pos),
{
    let ring = stream.ring@;
    let head_end = stream.head_start + stream.head@.len();
    if stream.head_start <= pos < head_end {
        assert(stream.head@[pos - stream.head_start] == sample_frame(sample, pos));
    } else if head_end <= pos < ring.write && ring.write - pos <= RING_FRAMES {
        assert(ring.slots[pos % RING_FRAMES as int] == sample_frame(sample, pos));
    }
}

/// A stream goes on playing its sample, whatever its voice reads, and whatever frames come
/// in, as long as those are the next frames of the sample.
pub proof fn streams_play_on(
    before: VoiceStream,
    after: VoiceStream,
    sample: Seq<i16>,
    chunk: Seq<i16>,
)
    requires
        plays(before, sample),
        ring_wf(after.ring@),
        after.head == before.head,
        after.head_start == before.head_start,
        chunk.len() > 0 ==> before.ring@.write + chunk.len() <= sample.len(),
        forall|i: int|
            0 <= i < chunk.len() ==> (#[trigger] chunk[i]) == sample[before.ring@.write + i],
        after.ring@.slots == chunk_written(before.ring@, chunk).slots,
        after.ring@.write == before.ring@.write + chunk.len(),
        after.ring@.eof ==> after.ring@.write >= sample.len(),
    ensures
        plays(after, sample),
{
    let old_ring = before.ring@;
    let new_ring = after.ring@;
    let head_end = before.head_start + before.head@.len();
    assert forall|pos: int|
        head_end <= pos < new_ring.write && new_ring.write - pos <= RING_FRAMES implies (
    #[trigger] new_ring.slots[pos % RING_FRAMES as int]) == sample_frame(sample, pos) by {
        slot_of_written_frame(old_ring, chunk, pos);
        if pos >= old_ring.write {
            assert(chunk[pos - old_ring.write] == sample[pos]);
        } else {
            assert(old_ring.slots[pos % RING_FRAMES as int] == sample_frame(sample, pos));
        }
    }
}

impl VoiceStream {
    /// What a voice reads at first: its head, and behind it an empty ring that goes on from
    /// the frame after the head.
    pub fn new(frames: usize, channel: usize, head: Arc<Vec<i16>>, head_start: usize) -> (r:
        VoiceStream)
        requires
            head_start + head@.len() <= usize::MAX,
        ensures
            r.frames == frames,
            r.channel == channel,
            r.head == head,
            r.head_start == head_start,
            r.ring@ == empty_ring(head_start + head@.len()),
            ring_wf(r.ring@),
            forall|sample: Seq<i16>|
                (forall|i: int|
                    0 <= i < head@.len() ==> (#[trigger] head@[i]) == sample_frame(
                        sample,
                        head_start + i,
                    )) ==> #[trigger] plays(r, sample),
    {
        let ring = StreamRing::new_at(head_start + head.len());
        VoiceStream { frames, channel, ring, head, head_start }
    }

    /// What the voice hears at position `pos`. Reading past the head tells the ring
    /// how far the voice has come.
    pub fn get(&mut self, pos: usize, counters: &mut UnderrunCounters) -> (r: i16)
        requires
            ring_wf(old(self).ring@),
        ensures
            ring_wf(final(self).ring@),
            r == heard(*old(self), pos as int).0,
            *final(counters) == underrun_counted(
                *old(counters),
                heard(*old(self), pos as int).1,
            ),
            final(self).ring@ == (if pos >= old(self).head_start + old(self).head@.len() {
                read_up_to(old(self).ring@, pos as int)
            } else {
                old(self).ring@
            }),
            final(self).frames == old(self).frames,
            final(self).channel == old(self).channel,
            final(self).head == old(self).head,
            final(self).head_start == old(self).head_start,
    {
        if pos < self.head_start {
            counters.before_head = counters.before_head.wrapping_add(1);
            counters.total = counters.total.wrapping_add(1);
            return 0;
        }
        if pos - self.head_start < self.head.len() {
            return self.head[pos - self.head_start];
        }
        self.ring.mark_consumed(pos);
        match self.ring.get(pos) {
            Some(v) => v,
            None => {
                if pos >= self.ring.write_pos() {
                    counters.ahead = counters.ahead.wrapping_add(1);
                } else {
                    counters.behind = counters.behind.wrapping_add(1);
                }
                counters.total = counters.total.wrapping_add(1);
                0
            },
        }
    }

    /// The length of the sample in frames.
    pub fn length(&self) -> (r: usize)
        ensures
            r == self.frames,
    {
        self.frames
    }
}


/// A voice that hears nothing is told why: it is before its head, or it is ahead of what the
/// ring has taken in, and that is not the end of the sample, or it is behind the last frames
/// that the ring still holds. Inside the head it hears the head.
pub proof fn misses_are_told_apart(stream: VoiceStream, pos: int)
    requires
        ring_wf(stream.ring@),
        stream.head_start + stream.head@.len() <= stream.ring@.write,
        0 <= pos,
    ensures
        ({
            let (frame, miss) = heard(stream, pos);
            let behind_head = pos - stream.head_start - stream.head@.len();
            &&& miss == Some(Underrun::BeforeHead) <==> pos < stream.head_start
            &&& miss == Some(Underrun::Ahead) <==> pos >= stream.ring@.write && !stream.ring@.eof
            &&& miss == Some(Underrun::Behind) <==> behind_head >= 0 && pos < stream.ring@.write
                - 32768
            &&& miss is Some ==> frame == 0
            &&& pos >= stream.head_start && behind_head < 0 ==> miss is None && frame
                == stream.head@[pos - stream.head_start]
            &&& pos >= stream.ring@.write ==> frame == 0
        }),
{
}

/// An underrun is counted once in all and once among those of its kind, and no others.
pub proof fn underruns_are_counted(c: UnderrunCounters, why: Option<Underrun>)
    ensures
        ({
            let after = underrun_counted(c, why);
            let more = |n: u32, is: bool| (n + if is { 1int } else { 0 }) % 0x1_0000_0000;
            &&& after.total == more(c.total, why is Some)
            &&& after.ahead == more(c.ahead, why == Some(Underrun::Ahead))
            &&& after.behind == more(c.behind, why == Some(Underrun::Behind))
            &&& after.before_head == more(c.before_head, why == Some(Underrun::BeforeHead))
        }),
{
}

/// As much is written at a time as there is room for: the ring is never written further than
/// one length of it ahead of its voice, a budget is at most half a ring, and one that is
/// less than that fills the ring.
pub proof fn budgets_fill_the_ring(m: RingModel)
    requires
        ring_wf(m),
    ensures
        0 <= budget_of(m) <= 16384,
        budget_of(m) > 0 ==> m.write + budget_of(m) <= m.consumed + 32768,
        budget_of(m) < 16384 ==> m.write + budget_of(m) >= m.consumed + 32768,
{
}

/// A new ring has no frame yet, and goes on from where it was told to.
pub proof fn new_rings_wait(start: int, pos: int)
    requires
        start <= pos,
    ensures
        ring_wf(empty_ring(start)) <==> 0 <= start <= usize::MAX,
        frame_at(empty_ring(start), pos) is None,
        empty_ring(start).write == start,
        empty_ring(start).consumed == start,
{
}

/// Writing moves on the position that is written next, and neither what the voice has read
/// nor the end.
pub proof fn writing_moves_on(m: RingModel, chunk: Seq<i16>)
    ensures
        chunk_written(m, chunk).write == m.write + chunk.len(),
        chunk_written(m, chunk).consumed == m.consumed,
        chunk_written(m, chunk).eof == m.eof,
{
}


/// A ring knows the furthest position that its voice has read, whatever it reads after that,
/// and reading changes nothing else of it.
pub proof fn furthest_position_is_kept(m: RingModel, a: int, b: int)
    ensures
        ({
            let after = read_up_to(read_up_to(m, a), b);
            &&& after.consumed >= a && after.consumed >= b && after.consumed >= m.consumed
            &&& after.consumed == a || after.consumed == b || after.consumed == m.consumed
            &&& after == read_up_to(read_up_to(m, b), a)
            &&& after.slots == m.slots && after.write == m.write && after.eof == m.eof
        }),
{
}

} // verus!
