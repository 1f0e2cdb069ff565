//! Samples that are read from disk while they play.
//!
//! What lies where in a file, how much of it is to be read, and what the bytes
//! mean is decided here. The reading itself is left to the caller.

use super::ring::{
    budget_of, chunk_written, ring_wf, RingModel, StreamRing, HEAD_FRAMES, LOW_WATER_FRAMES,
    REFILL_CHUNK_FRAMES,
};
use crate::bytes::{sample_from_bytes, sample_of};
use vstd::prelude::*;

verus! {

/// How the frames of a sample lie in its file.
#[derive(Debug)]
pub enum SampleLayout {
    /// The 16-bit frames of each channel in a row of their own.
    Separated { byte_offset_per_channel: Vec<u64> },
    /// Frame after frame, each of them with the 16-bit samples of all channels.
    Interleaved { data_byte_offset: u64, frame_bytes: u32 },
    /// A FLAC file, which has to be decoded packet by packet.
    Flac { path: String },
}

/// A sample that is read from disk.
#[derive(Debug)]
pub struct StreamedSampleSource {
    pub layout: SampleLayout,
    /// The length of the sample in frames.
    pub frames: usize,
    pub n_chans: usize,
    /// The rate of the original recording.
    pub src_rate: u32,
    /// The rate of the frames in the file.
    pub data_rate: u32,
}

/// A run of bytes of a file.
#[derive(Debug, Clone, Copy, PartialEq, Eq, Structural)]
pub struct ByteRange {
    pub offset: u64,
    pub len: usize,
}

impl StreamedSampleSource {
    /// Every frame has its place in the file, and no position is too large to name.
    pub open spec fn wf(&self) -> bool {
        match self.layout {
            SampleLayout::Separated { byte_offset_per_channel } => {
                &&& self.n_chans <= byte_offset_per_channel.len()
                &&& 2 * self.frames <= usize::MAX
                &&& forall|c: int|
                    0 <= c < self.n_chans ==> #[trigger] byte_offset_per_channel@[c] + 2
                        * self.frames <= u64::MAX
            },
            SampleLayout::Interleaved { data_byte_offset, frame_bytes } => {
                &&& 2 * self.n_chans <= frame_bytes
                &&& 0 < frame_bytes
                &&& self.frames * frame_bytes <= usize::MAX
                &&& data_byte_offset + self.frames * frame_bytes <= u64::MAX
            },
            SampleLayout::Flac { path: _ } => true,
        }
    }

    /// The bytes in which `count` frames of a channel from frame `at` on lie.
    pub open spec fn bytes_of_frames(&self, channel: int, at: int, count: int) -> (int, int) {
        match self.layout {
            SampleLayout::Separated { byte_offset_per_channel } => (
                byte_offset_per_channel@[channel] + 2 * at,
                2 * count,
            ),
            SampleLayout::Interleaved { data_byte_offset, frame_bytes } => (
                data_byte_offset + at * frame_bytes,
                count * frame_bytes,
            ),
            SampleLayout::Flac { path: _ } => (0, 0),
        }
    }

    /// The bytes from one frame to the next of the same channel.
    pub open spec fn stride(&self) -> int {
        match self.layout {
            SampleLayout::Separated { byte_offset_per_channel: _ } => 2,
            SampleLayout::Interleaved { data_byte_offset: _, frame_bytes } => frame_bytes as int,
            SampleLayout::Flac { path: _ } => 0,
        }
    }

    /// Where in its frame the sample of a channel lies.
    pub open spec fn channel_start(&self, channel: int) -> int {
        match self.layout {
            SampleLayout::Separated { byte_offset_per_channel: _ } => 0,
            SampleLayout::Interleaved { data_byte_offset: _, frame_bytes: _ } => 2 * channel,
            SampleLayout::Flac { path: _ } => 0,
        }
    }

    /// The whole frames of a channel in the bytes that were read for it.
    pub open spec fn frames_in(&self, channel: int, bytes: Seq<u8>) -> Seq<i16> {
        Seq::new(
            (bytes.len() / self.stride() as nat) as nat,
            |f: int|
                sample_of(
                    bytes[f * self.stride() + self.channel_start(channel)],
                    bytes[f * self.stride() + self.channel_start(channel) + 1],
                ) as i16,
        )
    }

    /// The length of a head of `desired_len` frames from `frame_offset` on, as far
    /// as the sample goes.
    pub open spec fn head_length(&self, frame_offset: int, desired_len: int) -> int {
        let available = if frame_offset >= self.frames {
            0
        } else {
            self.frames - frame_offset
        };
        if desired_len <= available {
            desired_len
        } else {
            available
        }
    }

    fn head_len(&self, frame_offset: usize, desired_len: usize) -> (r: usize)
        ensures
            r == self.head_length(frame_offset as int, desired_len as int),
            frame_offset + r <= self.frames || r == 0,
    {
        let available: usize = if frame_offset >= self.frames {
            0
        } else {
            self.frames - frame_offset
        };
        if desired_len <= available {
            desired_len
        } else {
            available
        }
    }

    /// The bytes that hold `count` frames of a channel from frame `at` on.
    pub fn locate(&self, channel: usize, at: usize, count: usize) -> (r: ByteRange)
        requires
            self.wf(),
            channel < self.n_chans,
            at + count <= self.frames,
        ensures
            (r.offset as int, r.len as int) == self.bytes_of_frames(
                channel as int,
                at as int,
                count as int,
            ),
    {
        match &self.layout {
            SampleLayout::Separated { byte_offset_per_channel } => {
                assert(byte_offset_per_channel@[channel as int] + 2 * self.frames <= u64::MAX);
                ByteRange {
                    offset: byte_offset_per_channel[channel] + 2 * at as u64,
                    len: 2 * count,
                }
            },
            SampleLayout::Interleaved { data_byte_offset, frame_bytes } => {
                let fb = *frame_bytes;
                assert(at * fb <= self.frames * fb) by (nonlinear_arith)
                    requires
                        at <= self.frames,
                ;
                assert(count * fb <= self.frames * fb) by (nonlinear_arith)
                    requires
                        count <= self.frames,
                ;
                ByteRange {
                    offset: *data_byte_offset + at as u64 * fb as u64,
                    len: count * fb as usize,
                }
            },
            SampleLayout::Flac { path: _ } => ByteRange { offset: 0, len: 0 },
        }
    }

    /// The whole frames of a channel in the bytes that were read for it.
    pub fn decode(&self, channel: usize, bytes: &[u8]) -> (r: Vec<i16>)
        requires
            self.wf(),
            channel < self.n_chans,
            self.stride() > 0,
        ensures
            r@ == self.frames_in(channel as int, bytes@),
    {
        let (stride, start): (usize, usize) = match &self.layout {
            SampleLayout::Separated { byte_offset_per_channel: _ } => (2, 0),
            SampleLayout::Interleaved { data_byte_offset: _, frame_bytes } => (
                *frame_bytes as usize,
                2 * channel,
            ),
            SampleLayout::Flac { path: _ } => (1, 0),
        };
        let count: usize = bytes.len() / stride;
        let mut out: Vec<i16> = Vec::new();
        let mut f: usize = 0;
        let mut at: usize = 0;
        assert(count * stride <= bytes.len()) by (nonlinear_arith)
            requires
                count == bytes.len() / stride,
                stride > 0,
        ;
        while f < count
            invariant
                f <= count,
                stride == self.stride(),
                start == self.channel_start(channel as int),
                start + 2 <= stride,
                count == bytes.len() as int / stride as int,
                count * stride <= bytes.len(),
                at == f * stride,
                out@ == self.frames_in(channel as int, bytes@).take(f as int),
            decreases count - f,
        {
            assert(at + stride <= bytes.len()) by (nonlinear_arith)
                requires
                    at == f * stride,
                    f + 1 <= count,
                    count * stride <= bytes.len(),
            ;
            out.push(sample_from_bytes(bytes[at + start], bytes[at + start + 1]));
            assert((f + 1) * stride == at + stride) by (nonlinear_arith)
                requires
                    at == f * stride,
            ;
            f = f + 1;
            at = at + stride;
            assert(out@ =~= self.frames_in(channel as int, bytes@).take(f as int));
        }
        assert(out@ =~= self.frames_in(channel as int, bytes@));
        out
    }

    /// The bytes that have to be read for a head: a run for each channel where the
    /// channels lie apart, else one run for all of them. A FLAC file has no such
    /// runs, and for a head without frames nothing has to be read.
    pub open spec fn head_ranges(&self, frame_offset: int, desired_len: int) -> Seq<(int, int)> {
        let len = self.head_length(frame_offset, desired_len);
        if len == 0 {
            Seq::empty()
        } else {
            match self.layout {
                SampleLayout::Separated { byte_offset_per_channel: _ } => Seq::new(
                    self.n_chans as nat,
                    |c: int| self.bytes_of_frames(c, frame_offset, len),
                ),
                SampleLayout::Interleaved { data_byte_offset: _, frame_bytes: _ } => seq![
                    self.bytes_of_frames(0, frame_offset, len),
                ],
                SampleLayout::Flac { path: _ } => Seq::empty(),
            }
        }
    }

    /// What has to be read for a head of the usual length.
    pub fn read_head_at(&self, frame_offset: usize) -> (r: Vec<ByteRange>)
        requires
            self.wf(),
        ensures
            r.len() == self.head_ranges(frame_offset as int, HEAD_FRAMES as int).len(),
            forall|i: int|
                0 <= i < r.len() ==> ((#[trigger] r@[i]).offset as int, r@[i].len as int)
                    == self.head_ranges(frame_offset as int, HEAD_FRAMES as int)[i],
    {
        self.read_head_at_len(frame_offset, HEAD_FRAMES)
    }

    /// What has to be read for a head of `desired_len` frames.
    pub fn read_head_at_len(&self, frame_offset: usize, desired_len: usize) -> (r: Vec<ByteRange>)
        requires
            self.wf(),
        ensures
            r.len() == self.head_ranges(frame_offset as int, desired_len as int).len(),
            forall|i: int|
                0 <= i < r.len() ==> ((#[trigger] r@[i]).offset as int, r@[i].len as int)
                    == self.head_ranges(frame_offset as int, desired_len as int)[i],
    {
        let len = self.head_len(frame_offset, desired_len);
        let mut out: Vec<ByteRange> = Vec::new();
        if len == 0 {
            return out;
        }
        match &self.layout {
            SampleLayout::Separated { byte_offset_per_channel: _ } => {
                let mut c: usize = 0;
                while c < self.n_chans
                    invariant
                        self.wf(),
                        frame_offset + len <= self.frames,
                        len > 0,
                        self.layout is Separated,
                        len == self.head_length(frame_offset as int, desired_len as int),
                        c <= self.n_chans,
                        out.len() == c,
                        forall|i: int|
                            0 <= i < c ==> ((#[trigger] out@[i]).offset as int, out@[i].len as int)
                                == self.bytes_of_frames(i, frame_offset as int, len as int),
                    decreases self.n_chans - c,
                {
                    out.push(self.locate(c, frame_offset, len));
                    c = c + 1;
                }
            },
            SampleLayout::Interleaved { data_byte_offset, frame_bytes } => {
                let fb = *frame_bytes;
                assert(frame_offset * fb <= self.frames * fb) by (nonlinear_arith)
                    requires
                        frame_offset <= self.frames,
                ;
                assert(len * fb <= self.frames * fb) by (nonlinear_arith)
                    requires
                        len <= self.frames,
                ;
                out.push(
                    ByteRange {
                        offset: *data_byte_offset + frame_offset as u64 * fb as u64,
                        len: len * fb as usize,
                    },
                );
            },
            SampleLayout::Flac { path: _ } => {},
        }
        out
    }

    /// The bytes of a channel among those that were read for a head.
    pub open spec fn reply_of(&self, channel: int) -> int {
        match self.layout {
            SampleLayout::Separated { byte_offset_per_channel: _ } => channel,
            _ => 0,
        }
    }

    /// The heads of all channels from the bytes that were read for them, in the
    /// order in which they were asked for. There are none where a run could not be
    /// read, or not to its end.
    pub fn head_from_bytes(
        &self,
        frame_offset: usize,
        desired_len: usize,
        replies: &Vec<Option<Vec<u8>>>,
    ) -> (r: Option<Vec<Vec<i16>>>)
        requires
            self.wf(),
            !(self.layout is Flac),
            replies.len() == self.head_ranges(frame_offset as int, desired_len as int).len(),
        ensures
            r is Some <==> forall|i: int|
                #![trigger replies@[i]]
                0 <= i < replies.len() ==> replies@[i] is Some && replies@[i]->0.len()
                    >= self.head_ranges(frame_offset as int, desired_len as int)[i].1,
            r matches Some(heads) ==> heads.len() == self.n_chans && forall|c: int|
                0 <= c < self.n_chans ==> (#[trigger] heads@[c])@ == (if self.head_length(
                    frame_offset as int,
                    desired_len as int,
                ) == 0 {
                    Seq::empty()
                } else {
                    self.frames_in(c, replies@[self.reply_of(c)]->0@).take(
                        self.head_length(frame_offset as int, desired_len as int),
                    )
                }),
    {
        let len = self.head_len(frame_offset, desired_len);
        let ghost ranges = self.head_ranges(frame_offset as int, desired_len as int);
        let asked = self.read_head_at_len(frame_offset, desired_len);
        let mut i: usize = 0;
        while i < replies.len()
            invariant
                i <= replies.len(),
                replies.len() == ranges.len(),
                asked.len() == ranges.len(),
                ranges == self.head_ranges(frame_offset as int, desired_len as int),
                forall|j: int|
                    0 <= j < asked.len() ==> ((#[trigger] asked@[j]).offset as int, asked@[j].len as int)
                        == ranges[j],
                forall|j: int|
                    #![trigger replies@[j]]
                    0 <= j < i ==> replies@[j] is Some && replies@[j]->0.len() >= ranges[j].1,
            decreases replies.len() - i,
        {
            assert((asked@[i as int].offset as int, asked@[i as int].len as int) == ranges[i as int]);
            match &replies[i] {
                Some(bytes) => {
                    if bytes.len() < asked[i].len {
                        assert(replies@[i as int]->0.len() < ranges[i as int].1);
                        return None;
                    }
                },
                None => {
                    assert(replies@[i as int] is None);
                    return None;
                },
            }
            i = i + 1;
        }
        let mut heads: Vec<Vec<i16>> = Vec::new();
        let mut c: usize = 0;
        while c < self.n_chans
            invariant
                self.wf(),
                !(self.layout is Flac),
                c <= self.n_chans,
                len == self.head_length(frame_offset as int, desired_len as int),
                ranges == self.head_ranges(frame_offset as int, desired_len as int),
                replies.len() == ranges.len(),
                forall|j: int|
                    #![trigger replies@[j]]
                    0 <= j < replies.len() ==> replies@[j] is Some && replies@[j]->0.len()
                        >= ranges[j].1,
                heads.len() == c,
                forall|j: int|
                    0 <= j < c ==> (#[trigger] heads@[j])@ == (if len == 0 {
                        Seq::empty()
                    } else {
                        self.frames_in(j, replies@[self.reply_of(j)]->0@).take(len as int)
                    }),
            decreases self.n_chans - c,
        {
            if len == 0 {
                let empty: Vec<i16> = Vec::new();
                assert(empty@ =~= Seq::<i16>::empty());
                heads.push(empty);
            } else {
                let at: usize = match &self.layout {
                    SampleLayout::Separated { byte_offset_per_channel: _ } => c,
                    _ => 0,
                };
                assert(replies@[at as int] is Some);
                assert(ranges[at as int].1 == len * self.stride()) by {
                    if self.layout is Separated {
                        assert(len * self.stride() == 2 * len) by (nonlinear_arith)
                            requires
                                self.stride() == 2,
                        ;
                    }
                }
                if let Some(bytes) = &replies[at] {
                    let mut frames = self.decode(c, bytes);
                    assert(frames.len() >= len) by (nonlinear_arith)
                        requires
                            frames.len() == bytes.len() as int / self.stride(),
                            bytes.len() >= len * self.stride(),
                            self.stride() > 0,
                    ;
                    frames.truncate(len);
                    heads.push(frames);
                }
            }
            c = c + 1;
        }
        Some(heads)
    }
}

/// Frames read from bytes that hold them are those frames: the sample of each frame
/// lies at its place.
pub proof fn frames_lie_at_their_place(
    source: StreamedSampleSource,
    channel: int,
    file: Seq<u8>,
    at: int,
    count: int,
    f: int,
)
    requires
        source.wf(),
        !(source.layout is Flac),
        0 <= channel < source.n_chans,
        0 <= at,
        0 <= f < count,
        at + count <= source.frames,
        ({
            let (offset, len) = source.bytes_of_frames(channel, at, count);
            offset + len <= file.len()
        }),
    ensures
        ({
            let (offset, len) = source.bytes_of_frames(channel, at, count);
            let (place, _) = source.bytes_of_frames(channel, at + f, 1);
            let start = source.channel_start(channel);
            &&& source.frames_in(channel, file.subrange(offset, offset + len)).len() == count
            &&& source.frames_in(channel, file.subrange(offset, offset + len))[f] == sample_of(
                file[place + start],
                file[place + start + 1],
            )
        }),
{
    let (offset, len) = source.bytes_of_frames(channel, at, count);
    let (place, _) = source.bytes_of_frames(channel, at + f, 1);
    let stride = source.stride();
    let start = source.channel_start(channel);
    let bytes = file.subrange(offset, offset + len);
    assert(len == count * stride && place == offset + f * stride) by (nonlinear_arith)
        requires
            (source.layout is Separated && stride == 2 && len == 2 * count && place - offset == 2
                * (at + f) - 2 * at) || (source.layout is Interleaved && len == count * stride
                && place - offset == (at + f) * stride - at * stride),
    ;
    assert(len / stride == count) by (nonlinear_arith)
        requires
            len == count * stride,
            stride > 0,
    ;
    assert(0 <= f * stride && f * stride + stride <= len) by (nonlinear_arith)
        requires
            len == count * stride,
            0 <= f < count,
            stride > 0,
    ;
    assert(bytes[f * stride + start] == file[place + start]);
    assert(bytes[f * stride + start + 1] == file[place + start + 1]);
}

/// A channel of a sample as its file holds it.
pub open spec fn recorded(source: StreamedSampleSource, channel: int, file: Seq<u8>) -> Seq<i16> {
    Seq::new(
        source.frames as nat,
        |f: int|
            {
                let at = source.bytes_of_frames(channel, f, 1).0 + source.channel_start(channel);
                sample_of(file[at], file[at + 1]) as i16
            },
    )
}

/// The bytes in which frames of a channel lie hold these frames of the sample.
pub proof fn bytes_hold_the_sample(
    source: StreamedSampleSource,
    channel: int,
    file: Seq<u8>,
    at: int,
    count: int,
)
    requires
        source.wf(),
        !(source.layout is Flac),
        0 <= channel < source.n_chans,
        0 <= at,
        0 <= count,
        at + count <= source.frames,
        ({
            let (offset, len) = source.bytes_of_frames(channel, at, count);
            offset + len <= file.len()
        }),
    ensures
        ({
            let (offset, len) = source.bytes_of_frames(channel, at, count);
            source.frames_in(channel, file.subrange(offset, offset + len)) == recorded(
                source,
                channel,
                file,
            ).subrange(at, at + count)
        }),
{
    let (offset, len) = source.bytes_of_frames(channel, at, count);
    let found = source.frames_in(channel, file.subrange(offset, offset + len));
    let wanted = recorded(source, channel, file).subrange(at, at + count);
    if count == 0 {
        assert(len == 0) by (nonlinear_arith)
            requires
                len == 2 * count || len == count * source.stride(),
                count == 0,
        ;
        assert(0int / source.stride() == 0) by (nonlinear_arith)
            requires
                source.stride() > 0,
        ;
    } else {
        frames_lie_at_their_place(source, channel, file, at, count, 0);
        assert forall|f: int| 0 <= f < count implies found[f] == wanted[f] by {
            frames_lie_at_their_place(source, channel, file, at, count, f);
        }
    }
    assert(found =~= wanted);
}

/// Frames made to fill a given length: cut off behind it, or followed by silence.
pub open spec fn fitted(frames: Seq<i16>, len: int) -> Seq<i16> {
    if frames.len() >= len {
        frames.take(len)
    } else {
        frames + Seq::new((len - frames.len()) as nat, |i: int| 0i16)
    }
}

/// The greater of two positions.
pub open spec fn later(a: int, b: int) -> int {
    if a >= b {
        a
    } else {
        b
    }
}

/// The lesser of two positions.
pub open spec fn earlier(a: int, b: int) -> int {
    if a <= b {
        a
    } else {
        b
    }
}

/// The part of a packet that begins at position `cursor` which lies between `start`
/// and `end`.
pub open spec fn part_between(packet: Seq<i16>, cursor: int, start: int, end: int) -> Seq<i16> {
    let from = later(start, cursor) - cursor;
    let to = earlier(end, cursor + packet.len()) - cursor;
    if from < to {
        packet.subrange(from, to)
    } else {
        Seq::empty()
    }
}

/// The head of a FLAC sample while it is being put together from packets.
#[derive(Debug)]
pub struct FlacHead {
    /// The first frame of the head.
    pub start: usize,
    /// The frame after the last one of the head.
    pub end: usize,
    /// The first frame of the next packet.
    pub cursor: usize,
    /// What has been found of each channel.
    pub per_chan: Vec<Vec<i16>>,
}

impl FlacHead {
    /// A head that begins at its place in the sample.
    pub open spec fn wf(&self) -> bool {
        self.start <= self.end
    }

    /// Begins a head. `actual_ts` is the frame at which the decoder will go on, which
    /// may lie before the head.
    pub fn new(
        source: &StreamedSampleSource,
        frame_offset: usize,
        desired_len: usize,
        actual_ts: usize,
    ) -> (r: FlacHead)
        requires
            frame_offset + source.head_length(frame_offset as int, desired_len as int)
                <= usize::MAX,
        ensures
            r.wf(),
            r.start == frame_offset,
            r.end == frame_offset + source.head_length(frame_offset as int, desired_len as int),
            r.cursor == actual_ts,
            r.per_chan.len() == source.n_chans,
            forall|c: int|
                0 <= c < source.n_chans ==> (#[trigger] r.per_chan@[c])@ == Seq::<i16>::empty(),
    {
        let len = source.head_len(frame_offset, desired_len);
        let mut per_chan: Vec<Vec<i16>> = Vec::new();
        let mut c: usize = 0;
        while c < source.n_chans
            invariant
                c <= source.n_chans,
                per_chan.len() == c,
                forall|j: int| 0 <= j < c ==> (#[trigger] per_chan@[j])@ == Seq::<i16>::empty(),
            decreases source.n_chans - c,
        {
            per_chan.push(Vec::new());
            c = c + 1;
        }
        FlacHead { start: frame_offset, end: frame_offset + len, cursor: actual_ts, per_chan }
    }

    /// Whether the head is not complete.
    pub fn wants_packet(&self) -> (r: bool)
        ensures
            r == (self.cursor < self.end),
    {
        self.cursor < self.end
    }

    /// Takes the next packet in: all its channels, of the same length.
    pub fn take_packet(&mut self, packet: &Vec<Vec<i16>>)
        requires
            old(self).wf(),
            packet.len() > 0,
            packet.len() >= old(self).per_chan.len(),
            forall|c: int|
                0 <= c < packet.len() ==> (#[trigger] packet@[c]).len() == packet@[0].len(),
            old(self).cursor + packet@[0].len() <= usize::MAX,
        ensures
            final(self).wf(),
            final(self).start == old(self).start,
            final(self).end == old(self).end,
            final(self).cursor == old(self).cursor + packet@[0].len(),
            final(self).per_chan.len() == old(self).per_chan.len(),
            forall|c: int|
                0 <= c < old(self).per_chan.len() ==> (#[trigger] final(self).per_chan@[c])@
                    == old(self).per_chan@[c]@ + part_between(
                    packet@[c]@,
                    old(self).cursor as int,
                    old(self).start as int,
                    old(self).end as int,
                ),
    {
        let frames = packet[0].len();
        let packet_end: usize = self.cursor + frames;
        let from: usize = if self.start > self.cursor {
            self.start
        } else {
            self.cursor
        };
        let to: usize = if self.end < packet_end {
            self.end
        } else {
            packet_end
        };
        let cursor = self.cursor;
        let ghost before = self.per_chan@;
        let mut grown: Vec<Vec<i16>> = Vec::new();
        std::mem::swap(&mut grown, &mut self.per_chan);
        let mut c: usize = 0;
        while c < grown.len()
            invariant
                self.start == old(self).start,
                self.end == old(self).end,
                self.cursor == old(self).cursor,
                before == old(self).per_chan@,
                cursor == old(self).cursor,
                from == later(old(self).start as int, cursor as int),
                to == earlier(old(self).end as int, cursor + frames),
                cursor + frames <= usize::MAX,
                c <= grown.len(),
                grown.len() == before.len(),
                packet.len() >= grown.len(),
                packet.len() > 0,
                frames == packet@[0].len(),
                forall|j: int| 0 <= j < packet.len() ==> (#[trigger] packet@[j]).len() == frames,
                forall|j: int|
                    0 <= j < c ==> (#[trigger] grown@[j])@ == before[j]@ + part_between(
                        packet@[j]@,
                        cursor as int,
                        old(self).start as int,
                        old(self).end as int,
                    ),
                forall|j: int| c <= j < grown.len() ==> (#[trigger] grown@[j]) == before[j],
            decreases grown.len() - c,
        {
            let mut channel: Vec<i16> = Vec::new();
            std::mem::swap(&mut channel, &mut grown[c]);
            let ghost had = channel@;
            assert(packet@[c as int].len() == frames);
            let ghost part = part_between(
                packet@[c as int]@,
                cursor as int,
                old(self).start as int,
                old(self).end as int,
            );
            let mut pos: usize = from;
            assert(had + Seq::<i16>::empty() =~= had);
            while pos < to
                invariant
                    from <= pos,
                    cursor <= from,
                    to <= cursor + frames,
                    c < packet.len(),
                    packet@[c as int].len() == frames,
                    from < to ==> part == packet@[c as int]@.subrange(from - cursor, to - cursor),
                    from < to ==> pos <= to,
                    channel@ == had + (if from < pos {
                        packet@[c as int]@.subrange(from - cursor, pos - cursor)
                    } else {
                        Seq::empty()
                    }),
                    from < to || pos == from,
                decreases to - pos,
            {
                channel.push(packet[c][pos - cursor]);
                pos = pos + 1;
                assert(channel@ =~= had + packet@[c as int]@.subrange(from - cursor, pos - cursor));
            }
            assert(channel@ =~= had + part);
            grown.set(c, channel);
            c = c + 1;
        }
        std::mem::swap(&mut grown, &mut self.per_chan);
        self.cursor = packet_end;
    }

    /// The finished heads. What was not found is silent.
    pub fn finish(self) -> (r: Vec<Vec<i16>>)
        requires
            self.wf(),
        ensures
            r.len() == self.per_chan.len(),
            forall|c: int|
                0 <= c < r.len() ==> (#[trigger] r@[c])@ == fitted(
                    self.per_chan@[c]@,
                    self.end - self.start,
                ),
    {
        let len: usize = self.end - self.start;
        let mut out: Vec<Vec<i16>> = Vec::new();
        let mut c: usize = 0;
        while c < self.per_chan.len()
            invariant
                c <= self.per_chan.len(),
                len == self.end - self.start,
                out.len() == c,
                forall|j: int|
                    0 <= j < c ==> (#[trigger] out@[j])@ == fitted(
                        self.per_chan@[j]@,
                        len as int,
                    ),
            decreases self.per_chan.len() - c,
        {
            let found = &self.per_chan[c];
            let mut head: Vec<i16> = Vec::new();
            let mut i: usize = 0;
            while i < len
                invariant
                    i <= len,
                    *found == self.per_chan@[c as int],
                    head@ == fitted(found@, i as int),
                decreases len - i,
            {
                head.push(
                    if i < found.len() {
                        found[i]
                    } else {
                        0
                    },
                );
                i = i + 1;
                assert(head@ =~= fitted(found@, i as int));
            }
            out.push(head);
            c = c + 1;
        }
        out
    }
}

/// As long as packets follow each other without a gap, what a head has found is the
/// sample itself between the head's beginning and the last packet's end.
pub proof fn head_is_a_part_of_the_sample(
    sample: Seq<i16>,
    found: Seq<i16>,
    cursor: int,
    n: int,
    start: int,
    end: int,
)
    requires
        0 <= cursor,
        0 <= n,
        cursor + n <= sample.len(),
        0 <= start <= end,
        cursor <= start ==> found == Seq::<i16>::empty(),
        cursor > start ==> found == sample.subrange(start, later(start, earlier(end, cursor))),
    ensures
        cursor + n > start ==> found + part_between(
            sample.subrange(cursor, cursor + n),
            cursor,
            start,
            end,
        ) == sample.subrange(start, later(start, earlier(end, cursor + n))),
        cursor + n <= start ==> found + part_between(
            sample.subrange(cursor, cursor + n),
            cursor,
            start,
            end,
        ) == Seq::<i16>::empty(),
{
    let part = part_between(sample.subrange(cursor, cursor + n), cursor, start, end);
    if cursor + n > start {
        assert(found + part =~= sample.subrange(start, later(start, earlier(end, cursor + n))));
    } else {
        assert(found + part =~= Seq::<i16>::empty());
    }
}

/// What is to be done about a ring.
#[derive(Debug, Clone, Copy, PartialEq, Eq, Structural)]
pub enum RefillPlan {
    /// Nothing: it has enough, or it is at its end.
    Skip,
    /// The sample has no more frames.
    End,
    /// So many frames are to be read.
    Read(usize),
}

/// What is to be done about a ring on a sample of `total` frames.
pub open spec fn plan_of(m: RingModel, total: int) -> RefillPlan {
    let budget = earlier(budget_of(m), total - m.write);
    if m.eof || m.write - m.consumed >= LOW_WATER_FRAMES {
        RefillPlan::Skip
    } else if m.write >= total {
        RefillPlan::End
    } else if budget == 0 {
        RefillPlan::Skip
    } else {
        RefillPlan::Read(budget as usize)
    }
}

/// Decides what is to be done about a ring.
pub fn plan_refill(ring: &StreamRing, total_frames: usize) -> (r: RefillPlan)
    requires
        ring_wf(ring@),
    ensures
        r == plan_of(ring@, total_frames as int),
        r matches RefillPlan::Read(n) ==> 0 < n <= REFILL_CHUNK_FRAMES && ring@.write + n
            <= total_frames,
{
    if ring.at_eof() {
        return RefillPlan::Skip;
    }
    let write = ring.write_pos();
    let consumed = ring.consumed();
    if write >= consumed && write - consumed >= LOW_WATER_FRAMES {
        return RefillPlan::Skip;
    }
    if write >= total_frames {
        return RefillPlan::End;
    }
    let left: usize = total_frames - write;
    let most = ring.refill_budget();
    let budget: usize = if most <= left {
        most
    } else {
        left
    };
    if budget == 0 {
        RefillPlan::Skip
    } else {
        RefillPlan::Read(budget)
    }
}

/// A ring is always refilled before its voice can run dry: whatever frames are left
/// to read, a ring that is not at its end and less than its low-water mark ahead
/// gets some of them.
pub proof fn hungry_rings_are_fed(m: RingModel, total: int)
    requires
        ring_wf(m),
        !m.eof,
        m.write - m.consumed < LOW_WATER_FRAMES,
        m.write < total <= usize::MAX,
    ensures
        plan_of(m, total) is Read,
{
}

/// A ring after `count` frames were asked for and `reply` came: the whole frames of
/// it are written, and where it falls short or nothing came the ring is at its end.
pub open spec fn refilled(
    m: RingModel,
    source: StreamedSampleSource,
    channel: int,
    count: int,
    reply: Option<Seq<u8>>,
) -> RingModel {
    match reply {
        None => RingModel { eof: true, ..m },
        Some(bytes) => {
            let written = chunk_written(m, source.frames_in(channel, bytes));
            RingModel {
                eof: m.eof || bytes.len() < source.bytes_of_frames(channel, m.write, count).1,
                ..written
            }
        },
    }
}

/// Gives a ring the bytes that were read for it. Says whether it got any frames.
pub fn refill(
    source: &StreamedSampleSource,
    channel: usize,
    ring: &mut StreamRing,
    count: usize,
    reply: &Option<Vec<u8>>,
) -> (r: bool)
    requires
        source.wf(),
        !(source.layout is Flac),
        channel < source.n_chans,
        ring_wf(old(ring)@),
        old(ring)@.write + count <= source.frames,
        reply matches Some(bytes) ==> bytes.len() <= source.bytes_of_frames(
            channel as int,
            old(ring)@.write,
            count as int,
        ).1,
    ensures
        ring_wf(final(ring)@),
        final(ring)@ == refilled(
            old(ring)@,
            *source,
            channel as int,
            count as int,
            match *reply {
                Some(bytes) => Some(bytes@),
                None => None,
            },
        ),
        r == (reply matches Some(bytes) && source.frames_in(channel as int, bytes@).len() > 0),
{
    match reply {
        None => {
            ring.set_eof();
            false
        },
        Some(bytes) => {
            let asked = source.locate(channel, ring.write_pos(), count);
            let frames = source.decode(channel, bytes);
            assert(frames.len() <= count) by {
                let stride = source.stride();
                if source.layout is Separated {
                    assert(count * stride == 2 * count) by (nonlinear_arith)
                        requires
                            stride == 2,
                    ;
                }
                assert(frames.len() <= count) by (nonlinear_arith)
                    requires
                        frames.len() == bytes.len() as int / stride,
                        bytes.len() <= count * stride,
                        stride > 0,
                ;
            }
            let some = frames.len() > 0;
            let ghost m = ring@;
            if some {
                ring.write_chunk(frames.as_slice());
            } else {
                assert(chunk_written(m, frames@) =~= m);
            }
            if bytes.len() < asked.len {
                ring.set_eof();
            }
            some
        },
    }
}

/// A ring that is refilled with the bytes it asked for takes in the next frames of the
/// sample, and is not at its end.
pub proof fn refills_bring_the_sample(
    source: StreamedSampleSource,
    channel: int,
    file: Seq<u8>,
    m: RingModel,
    count: int,
)
    requires
        source.wf(),
        !(source.layout is Flac),
        0 <= channel < source.n_chans,
        ring_wf(m),
        0 <= count,
        m.write + count <= source.frames,
        ({
            let (offset, len) = source.bytes_of_frames(channel, m.write, count);
            offset + len <= file.len()
        }),
    ensures
        ({
            let (offset, len) = source.bytes_of_frames(channel, m.write, count);
            refilled(m, source, channel, count, Some(file.subrange(offset, offset + len)))
                == chunk_written(
                m,
                recorded(source, channel, file).subrange(m.write, m.write + count),
            )
        }),
{
    bytes_hold_the_sample(source, channel, file, m.write, count);
    assert(0 <= m.write * source.stride() && 0 <= count * source.stride()) by (nonlinear_arith)
        requires
            0 <= m.write,
            0 <= count,
            0 <= source.stride(),
    ;
}

/// What a worker does after it has looked at all its rings.
#[derive(Debug, Clone, Copy, PartialEq, Eq, Structural)]
pub enum PoolPause {
    /// Look again at once.
    GoOn,
    /// Wait until a ring is registered.
    Block,
    /// Rest for a moment.
    Nap,
}

/// What a worker of so many rings does after it has looked at all of them.
pub open spec fn pause_for(did_work: bool, rings: int) -> PoolPause {
    if did_work {
        PoolPause::GoOn
    } else if rings == 0 {
        PoolPause::Block
    } else {
        PoolPause::Nap
    }
}

/// What a worker does after it has looked at all its rings.
pub fn pause_after(did_work: bool, rings: usize) -> (r: PoolPause)
    ensures
        r == pause_for(did_work, rings as int),
{
    if did_work {
        PoolPause::GoOn
    } else if rings == 0 {
        PoolPause::Block
    } else {
        PoolPause::Nap
    }
}

/// The worker that gets a ring after `next` others have been handed out.
pub open spec fn worker_for(next: int, workers: int) -> int {
    next % workers
}

/// The count of the rings that have been handed out after one more of them.
pub open spec fn handed_out(next: usize) -> usize {
    if next == usize::MAX {
        0
    } else {
        (next + 1) as usize
    }
}

/// The worker that gets the next ring: one after the other in turn. `next` counts
/// the rings that have been handed out.
pub fn pick_worker(next: &mut usize, workers: usize) -> (r: usize)
    requires
        workers > 0,
    ensures
        r == worker_for(*old(next) as int, workers as int),
        r < workers,
        *final(next) == handed_out(*old(next)),
{
    let turn = *next;
    *next = turn.wrapping_add(1);
    turn % workers
}

/// The decoded frames of one channel of a FLAC sample that wait for their ring.
#[derive(Debug)]
pub struct FlacRing {
    /// The first frame of the next packet.
    pub decoder_cursor: usize,
    pub pending: Vec<i16>,
    /// The position of the first frame that waits.
    pub pending_start: usize,
}

/// The frames that wait after a packet which begins at position `cursor`.
pub open spec fn packet_queued(pending: Seq<i16>, start: int, cursor: int, packet: Seq<i16>) -> Seq<
    i16,
> {
    let wanted = start + pending.len();
    if wanted >= cursor + packet.len() {
        pending
    } else {
        pending + packet.skip(later(wanted, cursor) - cursor)
    }
}

impl FlacRing {
    /// Frames for a ring that goes on at `write_pos`. `actual_ts` is the frame at
    /// which the decoder will go on, which may lie before it.
    pub fn new(write_pos: usize, actual_ts: usize) -> (r: FlacRing)
        ensures
            r.decoder_cursor == actual_ts,
            r.pending@ == Seq::<i16>::empty(),
            r.pending_start == write_pos,
    {
        FlacRing { decoder_cursor: actual_ts, pending: Vec::new(), pending_start: write_pos }
    }

    /// Whether fewer than `budget` frames wait.
    pub fn wants_packet(&self, budget: usize) -> (r: bool)
        ensures
            r == (self.pending.len() < budget),
    {
        self.pending.len() < budget
    }

    /// Takes the next packet of the channel in.
    pub fn take_packet(&mut self, packet: &Vec<i16>)
        requires
            old(self).decoder_cursor + packet.len() <= usize::MAX,
            old(self).pending_start + old(self).pending.len() <= usize::MAX,
        ensures
            final(self).decoder_cursor == old(self).decoder_cursor + packet.len(),
            final(self).pending_start == old(self).pending_start,
            final(self).pending@ == packet_queued(
                old(self).pending@,
                old(self).pending_start as int,
                old(self).decoder_cursor as int,
                packet@,
            ),
    {
        let packet_start = self.decoder_cursor;
        let packet_end: usize = packet_start + packet.len();
        self.decoder_cursor = packet_end;
        let wanted: usize = self.pending_start + self.pending.len();
        if wanted >= packet_end {
            return;
        }
        let local: usize = if wanted > packet_start {
            wanted - packet_start
        } else {
            0
        };
        let ghost before = self.pending@;
        let mut i: usize = local;
        assert(before + Seq::<i16>::empty() =~= before);
        while i < packet.len()
            invariant
                local <= i <= packet.len(),
                self.decoder_cursor == packet_end,
                self.pending_start == old(self).pending_start,
                self.pending@ == before + packet@.subrange(local as int, i as int),
            decreases packet.len() - i,
        {
            self.pending.push(packet[i]);
            i = i + 1;
            assert(self.pending@ =~= before + packet@.subrange(local as int, i as int));
        }
        assert(packet@.subrange(local as int, packet@.len() as int) =~= packet@.skip(local as int));
    }

    /// Gives the ring at most `budget` of the frames that wait. Says how many it got.
    pub fn flush(&mut self, ring: &mut StreamRing, budget: usize) -> (r: usize)
        requires
            ring_wf(old(ring)@),
            old(ring)@.write + budget <= usize::MAX,
            old(self).pending_start + old(self).pending.len() <= usize::MAX,
        ensures
            ring_wf(final(ring)@),
            r == earlier(budget as int, old(self).pending.len() as int),
            final(ring)@ == chunk_written(old(ring)@, old(self).pending@.take(r as int)),
            final(self).pending@ == old(self).pending@.skip(r as int),
            final(self).pending_start == old(self).pending_start + r,
            final(self).decoder_cursor == old(self).decoder_cursor,
    {
        let take: usize = if budget < self.pending.len() {
            budget
        } else {
            self.pending.len()
        };
        let ghost all = self.pending@;
        let rest = self.pending.split_off(take);
        assert(self.pending@ =~= all.take(take as int));
        ring.write_chunk(self.pending.as_slice());
        self.pending = rest;
        assert(self.pending@ =~= all.skip(take as int));
        self.pending_start = self.pending_start + take;
        take
    }
}

/// As long as packets follow each other without a gap, the frames that wait are the
/// sample itself from where the ring goes on.
pub proof fn waiting_frames_are_a_part_of_the_sample(
    sample: Seq<i16>,
    pending: Seq<i16>,
    start: int,
    cursor: int,
    n: int,
)
    requires
        0 <= cursor,
        0 <= n,
        cursor + n <= sample.len(),
        0 <= start,
        start + pending.len() <= sample.len(),
        pending == sample.subrange(start, start + pending.len()),
        cursor <= start + pending.len(),
    ensures
        ({
            let next = packet_queued(pending, start, cursor, sample.subrange(cursor, cursor + n));
            &&& start + next.len() <= sample.len()
            &&& next == sample.subrange(start, start + next.len())
            &&& cursor + n <= start + next.len()
        }),
{
    let next = packet_queued(pending, start, cursor, sample.subrange(cursor, cursor + n));
    assert(next =~= sample.subrange(start, start + next.len()));
}


/// A ring is given as many frames as it has room for and the sample still has, at most half
/// a ring at a time. It is at its end where the sample has no more, and it is left alone as
/// long as it is half a ring ahead of its voice.
pub proof fn refills_are_planned(m: RingModel, total: int)
    requires
        ring_wf(m),
        0 <= total <= usize::MAX,
    ensures
        ({
            let waits = !m.eof && m.write - m.consumed < 16384;
            &&& plan_of(m, total) is Skip <==> !waits
            &&& plan_of(m, total) is End <==> waits && m.write >= total
            &&& plan_of(m, total) matches RefillPlan::Read(n) ==> {
                &&& 0 < n <= 16384
                &&& m.write + n <= total
                &&& m.write + n <= m.consumed + 32768
                &&& n == 16384 || m.write + n == total || m.write + n == m.consumed + 32768
            }
        }),
{
}

/// A ring whose read failed or fell short is at its end; one that got all that was asked for
/// is not. It takes in as many frames as are whole, and where nothing came it stays as it is.
pub proof fn short_reads_end_a_ring(
    m: RingModel,
    source: StreamedSampleSource,
    channel: int,
    count: int,
    bytes: Seq<u8>,
)
    requires
        ring_wf(m),
        !m.eof,
        source.wf(),
        !(source.layout is Flac),
        0 <= channel < source.n_chans,
        0 <= count,
        m.write + count <= source.frames,
    ensures
        ({
            let after = refilled(m, source, channel, count, Some(bytes));
            let frame_bytes: int = match source.layout {
                SampleLayout::Interleaved { data_byte_offset: _, frame_bytes } => frame_bytes as int,
                _ => 2,
            };
            &&& after.eof <==> bytes.len() < count * frame_bytes
            &&& (after.write - m.write) * frame_bytes <= bytes.len()
            &&& bytes.len() < (after.write - m.write + 1) * frame_bytes
            &&& after.consumed == m.consumed
        }),
        ({
            let after = refilled(m, source, channel, count, None);
            &&& after.eof
            &&& after.write == m.write
            &&& after.consumed == m.consumed
            &&& after.slots == m.slots
        }),
{
    let stride = source.stride();
    let n = bytes.len() as int;
    let q = (bytes.len() / stride as nat) as int;
    assert(q == n / stride);
    assert(stride * q <= n < stride * q + stride) by (nonlinear_arith)
        requires
            q == n / stride,
            stride > 0,
    ;
    assert(q * stride == stride * q) by (nonlinear_arith);
    assert((q + 1) * stride == stride * q + stride) by (nonlinear_arith);
    assert(0 <= q) by (nonlinear_arith)
        requires
            q == n / stride,
            stride > 0,
            n >= 0,
    ;
    assert(count * 2 == 2 * count);
}

/// The channels of a file lie one after the other, or take turns frame by frame, and each
/// frame is two bytes with the low one first.
pub proof fn frames_have_their_bytes(
    source: StreamedSampleSource,
    channel: int,
    file: Seq<u8>,
    f: int,
)
    requires
        0 <= f < source.frames,
        0 <= channel < source.n_chans,
    ensures
        recorded(source, channel, file).len() == source.frames,
        source.layout matches SampleLayout::Separated { byte_offset_per_channel } ==> {
            let at = byte_offset_per_channel@[channel] + 2 * f;
            let low = file[at] + 256 * file[at + 1];
            recorded(source, channel, file)[f] == if low < 32768 {
                low
            } else {
                low - 65536
            }
        },
        source.layout matches SampleLayout::Interleaved { data_byte_offset, frame_bytes } ==> {
            let at = data_byte_offset + f * frame_bytes + 2 * channel;
            let low = file[at] + 256 * file[at + 1];
            recorded(source, channel, file)[f] == if low < 32768 {
                low
            } else {
                low - 65536
            }
        },
{
}

/// A head has as many frames as were wanted, unless the sample ends before; then it reaches
/// to the end of the sample.
pub proof fn heads_reach_as_far_as_wanted(
    source: StreamedSampleSource,
    frame_offset: int,
    desired_len: int,
)
    requires
        0 <= frame_offset,
        0 <= desired_len,
    ensures
        ({
            let len = source.head_length(frame_offset, desired_len);
            &&& 0 <= len <= desired_len
            &&& len > 0 ==> frame_offset + len <= source.frames
            &&& len < desired_len ==> frame_offset + len >= source.frames
        }),
{
}

/// The bytes that are asked for a head hold the frames of the head, for every channel.
pub proof fn heads_are_asked_for(
    source: StreamedSampleSource,
    frame_offset: int,
    desired_len: int,
    channel: int,
    file: Seq<u8>,
)
    requires
        source.wf(),
        !(source.layout is Flac),
        0 <= channel < source.n_chans,
        0 <= frame_offset,
        source.head_length(frame_offset, desired_len) > 0,
        ({
            let (offset, len) = source.head_ranges(frame_offset, desired_len)[source.reply_of(
                channel,
            )];
            offset + len <= file.len()
        }),
    ensures
        0 <= source.reply_of(channel) < source.head_ranges(frame_offset, desired_len).len(),
        ({
            let count = source.head_length(frame_offset, desired_len);
            let (offset, len) = source.head_ranges(frame_offset, desired_len)[source.reply_of(
                channel,
            )];
            source.frames_in(channel, file.subrange(offset, offset + len)) == recorded(
                source,
                channel,
                file,
            ).subrange(frame_offset, frame_offset + count)
        }),
{
    let count = source.head_length(frame_offset, desired_len);
    assert(source.head_ranges(frame_offset, desired_len)[source.reply_of(channel)]
        == source.bytes_of_frames(channel, frame_offset, count));
    bytes_hold_the_sample(source, channel, file, frame_offset, count);
}

/// Frames that are made to fill a length are followed by silence where they are too few, and
/// cut off where they are too many.
pub proof fn heads_are_filled_up(frames: Seq<i16>, len: int, i: int)
    requires
        0 <= i < len,
    ensures
        fitted(frames, len).len() == len,
        i < frames.len() ==> fitted(frames, len)[i] == frames[i],
        i >= frames.len() ==> fitted(frames, len)[i] == 0,
{
}

/// A packet gives a head the frames of it that lie between the beginning and the end of the
/// head, in their order, and all of them.
pub proof fn packets_give_their_part(
    packet: Seq<i16>,
    cursor: int,
    start: int,
    end: int,
    pos: int,
)
    requires
        start <= pos < end,
        cursor <= pos < cursor + packet.len(),
    ensures
        ({
            let first = if cursor >= start {
                cursor
            } else {
                start
            };
            let part = part_between(packet, cursor, start, end);
            &&& pos - first < part.len()
            &&& part[pos - first] == packet[pos - cursor]
            &&& part.len() <= end - first
            &&& part.len() <= packet.len()
        }),
{
}

/// A packet adds to what waits for a ring the frames that come next, and none that wait
/// already.
pub proof fn packets_are_queued(pending: Seq<i16>, start: int, cursor: int, packet: Seq<i16>)
    ensures
        ({
            let after = packet_queued(pending, start, cursor, packet);
            let next = start + pending.len();
            let end = cursor + packet.len();
            &&& after.take(pending.len() as int) == pending
            &&& end <= next ==> after == pending
            &&& cursor <= next < end ==> after.len() == end - start && after.last()
                == packet.last()
            &&& cursor <= next < end ==> forall|i: int|
                next <= i < end ==> #[trigger] after[i - start] == packet[i - cursor]
            &&& next < cursor && packet.len() > 0 ==> after == pending + packet
        }),
{
    let after = packet_queued(pending, start, cursor, packet);
    assert(after.take(pending.len() as int) =~= pending);
    if start + pending.len() < cursor {
        assert(packet.skip(0) =~= packet);
    }
}


/// A worker that found work looks again at once, one without rings waits for one, and any
/// other rests.
pub proof fn idle_workers_wait(did_work: bool, rings: int)
    ensures
        pause_for(did_work, rings) == PoolPause::GoOn <==> did_work,
        pause_for(did_work, rings) == PoolPause::Block <==> !did_work && rings == 0,
        pause_for(did_work, rings) == PoolPause::Nap <==> !did_work && rings != 0,
{
}

/// Rings that are handed out one after the other go to workers one after the other, and no
/// worker gets a second one before each of the others has got one.
pub proof fn workers_take_turns(next: int, workers: int, i: int, j: int)
    requires
        workers > 0,
        0 <= next,
        0 <= i < j < workers,
    ensures
        0 <= worker_for(next + i, workers) < workers,
        worker_for(next + i, workers) != worker_for(next + j, workers),
        worker_for(0, workers) == 0,
        worker_for(next + workers, workers) == worker_for(next, workers),
        next < usize::MAX ==> handed_out(next as usize) == next + 1,
        handed_out(usize::MAX) == 0,
{
    let a = next + i;
    let b = next + j;
    vstd::arithmetic::div_mod::lemma_fundamental_div_mod(a, workers);
    vstd::arithmetic::div_mod::lemma_fundamental_div_mod(b, workers);
    vstd::arithmetic::div_mod::lemma_mod_bound(a, workers);
    vstd::arithmetic::div_mod::lemma_small_mod(0, workers as nat);
    vstd::arithmetic::div_mod::lemma_mod_add_multiples_vanish(next, workers);
    if a % workers == b % workers {
        let d = b / workers - a / workers;
        assert(workers * (b / workers) - workers * (a / workers) == workers * d) by (nonlinear_arith)
            requires
                d == b / workers - a / workers,
        ;
        assert(workers * d == j - i);
        assert(d >= 1 ==> workers * d >= workers) by (nonlinear_arith)
            requires
                workers > 0,
        ;
        assert(d <= 0 ==> workers * d <= 0) by (nonlinear_arith)
            requires
                workers > 0,
        ;
    }
}

} // verus!
