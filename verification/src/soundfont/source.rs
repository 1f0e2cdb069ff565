//! Where the frames of a region lie, and how its voices begin to read them.

use super::audio::SampleStorage;
use super::load::LoopParams;
use super::ring::{empty_ring, heard, Underrun, VoiceStream};
use crate::share;
use crate::voice::sampler::{reader_of, stereo_channels, BufferSamplers, SampleReaders};
use std::sync::Arc;
use vstd::prelude::*;

verus! {

/// The sample of a region.
pub enum SampleSource {
    /// All its channels are in memory.
    Heap(Vec<SampleStorage>),
    /// It is read from disk. Of each channel the frames from `head_start` on are in memory,
    /// as many as its head has.
    Streamed { frames: usize, n_chans: usize, heads: Vec<Arc<Vec<i16>>>, head_start: u32 },
}

/// The head of a channel; one without frames where there is none.
pub open spec fn head_of(heads: Seq<Arc<Vec<i16>>>, channel: int) -> Seq<i16> {
    if channel < heads.len() {
        heads[channel]@
    } else {
        Seq::empty()
    }
}

/// What a voice reads of one channel: which frames, and where they come from.
pub struct ChannelReader {
    pub reader: SampleReaders,
    pub frames: BufferSamplers,
}

impl SampleSource {
    /// There is a channel, and no position is too large to name.
    pub open spec fn wf(&self) -> bool {
        match self {
            SampleSource::Heap(channels) => {
                &&& channels.len() > 0
                &&& forall|c: int| 0 <= c < channels.len() ==> (#[trigger] channels@[c]).wf()
            },
            SampleSource::Streamed { frames: _, n_chans: _, heads, head_start } => forall|c: int|
                0 <= c < heads.len() ==> head_start + (#[trigger] heads@[c])@.len() <= usize::MAX,
        }
    }

    /// How many channels the sample has.
    pub open spec fn channel_count(&self) -> int {
        match self {
            SampleSource::Heap(channels) => channels.len() as int,
            SampleSource::Streamed { frames: _, n_chans, heads: _, head_start: _ } => *n_chans
                as int,
        }
    }

    /// The channel that goes to the right. A sample with one channel goes to both sides.
    pub open spec fn right_channel(&self) -> int {
        if self.channel_count() >= 2 {
            1
        } else {
            0
        }
    }

    /// The length of a channel in frames.
    pub open spec fn length_of(&self, channel: int) -> int {
        match self {
            SampleSource::Heap(channels) => channels@[channel]@.len() as int,
            SampleSource::Streamed { frames, n_chans: _, heads: _, head_start: _ } => *frames
                as int,
        }
    }

    /// These are the frames of a channel before anything has been read of them. A stream has
    /// its head, and its ring goes on behind the head.
    pub open spec fn begins(&self, channel: int, frames: BufferSamplers) -> bool {
        match self {
            SampleSource::Heap(channels) => frames == BufferSamplers::I16(channels@[channel]),
            SampleSource::Streamed { frames: length, n_chans: _, heads, head_start } => {
                &&& frames matches BufferSamplers::Streamed(stream)
                &&& stream.frames == length
                &&& stream.channel == channel
                &&& stream.head@ == head_of(heads@, channel)
                &&& stream.head_start == head_start
                &&& stream.ring@ == empty_ring(head_start + head_of(heads@, channel).len())
            },
        }
    }

    pub fn n_chans(&self) -> (r: usize)
        ensures
            r == self.channel_count(),
    {
        match self {
            SampleSource::Heap(channels) => channels.len(),
            SampleSource::Streamed { frames: _, n_chans, heads: _, head_start: _ } => *n_chans,
        }
    }

    fn open(&self, channel: usize) -> (r: BufferSamplers)
        requires
            self.wf(),
            channel == 0 || channel < self.channel_count(),
        ensures
            self.begins(channel as int, r),
            r.wf(),
    {
        match self {
            SampleSource::Heap(channels) => {
                assert(channels@[channel as int].wf());
                BufferSamplers::new_f32(channels[channel].clone())
            },
            SampleSource::Streamed { frames, n_chans: _, heads, head_start } => {
                let head: Arc<Vec<i16>> = if channel < heads.len() {
                    share(&heads[channel])
                } else {
                    let empty: Vec<i16> = Vec::new();
                    assert(empty@ =~= Seq::empty());
                    Arc::new(empty)
                };
                assert(head@ == head_of(heads@, channel as int));
                BufferSamplers::streamed(
                    VoiceStream::new(*frames, channel, head, *head_start as usize),
                )
            },
        }
    }

    /// The frames of the left and of the right channel of a voice that begins.
    pub fn build_buffer_samplers(&self) -> (r: (BufferSamplers, BufferSamplers))
        requires
            self.wf(),
        ensures
            self.begins(0, r.0),
            self.begins(self.right_channel(), r.1),
            r.0.wf(),
            r.1.wf(),
    {
        let (left, right) = stereo_channels(self.n_chans());
        (self.open(left), self.open(right))
    }

    /// What a voice that begins reads on the left and on the right.
    pub fn begin_voice(&self, params: &LoopParams) -> (r: (ChannelReader, ChannelReader))
        requires
            self.wf(),
        ensures
            self.begins(0, r.0.frames),
            self.begins(self.right_channel(), r.1.frames),
            r.0.frames.wf(),
            r.1.frames.wf(),
            r.0.reader == reader_of(*params, self.length_of(0)),
            r.1.reader == reader_of(*params, self.length_of(self.right_channel())),
    {
        let (left, right) = self.build_buffer_samplers();
        (
            ChannelReader { reader: SampleReaders::new(left.length(), params), frames: left },
            ChannelReader { reader: SampleReaders::new(right.length(), params), frames: right },
        )
    }
}


/// A sample with one channel sounds on both sides, any other with its first channel on the
/// left and its second on the right.
pub proof fn lone_channels_go_to_both_sides(source: SampleSource)
    ensures
        source.channel_count() == 1 ==> source.right_channel() == 0,
        source.channel_count() >= 2 ==> source.right_channel() == 1,
{
}

/// A voice on a sample that is read from disk hears the head of its channel from where the
/// head begins, and nothing behind it until more has been read.
pub proof fn voices_begin_with_their_head(
    source: SampleSource,
    channel: int,
    stream: VoiceStream,
    pos: int,
)
    requires
        source.wf(),
        0 <= channel,
        source.begins(channel, BufferSamplers::Streamed(stream)),
        0 <= pos,
    ensures
        source matches SampleSource::Streamed { frames, n_chans: _, heads, head_start } && {
            let i = pos - head_start;
            &&& stream.frames == frames
            &&& channel < heads.len() && 0 <= i < heads@[channel]@.len() ==> heard(stream, pos)
                == (heads@[channel]@[i], None::<Underrun>)
            &&& channel < heads.len() && i >= heads@[channel]@.len() ==> heard(stream, pos) == (
                0i16,
                Some(Underrun::Ahead),
            )
            &&& channel >= heads.len() && i >= 0 ==> heard(stream, pos) == (
                0i16,
                Some(Underrun::Ahead),
            )
            &&& i < 0 ==> heard(stream, pos) == (0i16, Some(Underrun::BeforeHead))
        },
{
}

/// A voice on a sample in memory reads the frames of its channel themselves.
pub proof fn voices_read_what_is_in_memory(
    channels: Vec<SampleStorage>,
    channel: int,
    frames: BufferSamplers,
)
    requires
        0 <= channel < channels.len(),
        SampleSource::Heap(channels).begins(channel, frames),
    ensures
        frames == BufferSamplers::I16(channels@[channel]),
        SampleSource::Heap(channels).length_of(channel) == channels@[channel]@.len(),
        SampleSource::Heap(channels).channel_count() == channels.len(),
{
}

} // verus!
