//! Which frames of its sample a voice plays.
//!
//! A reader turns the position of a voice into the frames that sound there. A position
//! counts frames since the voice began.

use crate::soundfont::audio::SampleStorage;
use crate::soundfont::load::LoopParams;
use crate::soundfont::ring::{
    heard, ring_wf, underrun_counted, RingModel, UnderrunCounters, VoiceStream,
};
use crate::LoopMode;
use vstd::prelude::*;

verus! {

/// Over how many frames a sample fades out before its end.
pub const SAMPLE_EDGE_FADE_FRAMES: usize = 256;

/// What sounds at a position.
#[derive(Debug, Clone, Copy, PartialEq, Eq, Structural)]
pub enum Tap {
    /// A frame.
    Frame { at: usize },
    /// A frame, multiplied by `level` of `SAMPLE_EDGE_FADE_FRAMES`.
    Faded { at: usize, level: usize },
    /// Two frames, of which `other` counts for `part` of `whole`.
    Blend { at: usize, other: usize, part: usize, whole: usize },
}

/// `a - b`, or 0 where that is negative.
pub open spec fn minus(a: int, b: int) -> int {
    if a >= b {
        a - b
    } else {
        0
    }
}

fn less(a: usize, b: usize) -> (r: usize)
    ensures
        r == minus(a as int, b as int),
{
    if a >= b {
        a - b
    } else {
        0
    }
}

/// Where a sample ends.
pub open spec fn stop_of(params: LoopParams, length: int) -> int {
    match params.stop {
        Some(stop) => stop as int,
        None => length,
    }
}

fn stop_at(params: &LoopParams, length: usize) -> (r: usize)
    ensures
        r == stop_of(*params, length as int),
{
    match params.stop {
        Some(stop) => stop as usize,
        None => length,
    }
}

/// Reads a sample once.
#[derive(Debug, Clone, Copy, PartialEq, Eq, Structural)]
pub struct SampleReaderNoLoop {
    pub length: usize,
    pub offset: usize,
}

/// What sounds at a frame of a sample that fades out before its end.
pub open spec fn faded_frame(at: int, length: int) -> Tap {
    if at >= minus(length, SAMPLE_EDGE_FADE_FRAMES as int) {
        let remaining = minus(length, at);
        Tap::Faded {
            at: at as usize,
            level: if remaining < SAMPLE_EDGE_FADE_FRAMES {
                remaining as usize
            } else {
                SAMPLE_EDGE_FADE_FRAMES
            },
        }
    } else {
        Tap::Frame { at: at as usize }
    }
}

impl SampleReaderNoLoop {
    /// A reader of a sample with `length` frames.
    pub fn new(length: usize, params: &LoopParams) -> (r: SampleReaderNoLoop)
        ensures
            r.length == stop_of(*params, length as int),
            r.offset == params.offset,
    {
        SampleReaderNoLoop { length: stop_at(params, length), offset: params.offset as usize }
    }

    /// What sounds at a position.
    pub fn get(&self, pos: usize) -> (r: Tap)
        requires
            pos + self.offset <= usize::MAX,
        ensures
            r == faded_frame(pos + self.offset, self.length as int),
    {
        let at: usize = pos + self.offset;
        if at >= less(self.length, SAMPLE_EDGE_FADE_FRAMES) {
            let remaining = less(self.length, at);
            Tap::Faded {
                at,
                level: if remaining < SAMPLE_EDGE_FADE_FRAMES {
                    remaining
                } else {
                    SAMPLE_EDGE_FADE_FRAMES
                },
            }
        } else {
            Tap::Frame { at }
        }
    }

    /// Whether nothing sounds any more from a position on.
    pub fn is_past_end(&self, pos: usize) -> (r: bool)
        ensures
            r == (pos >= minus(self.length as int, self.offset as int)),
    {
        pos >= less(self.length, self.offset)
    }
}

/// The loop of a sample.
#[derive(Debug, Clone, Copy, PartialEq, Eq, Structural)]
pub struct SampleLoop {
    pub offset: usize,
    pub start: usize,
    pub end: usize,
    /// How many frames before the end of the loop blend into those before its start; 0
    /// for none.
    pub crossfade: usize,
}

/// The loop that parameters describe. Blending takes no more frames than the loop has.
pub open spec fn loop_of(params: LoopParams) -> SampleLoop {
    let region = minus(params.end as int, params.start as int);
    SampleLoop {
        offset: params.offset as usize,
        start: params.start as usize,
        end: params.end as usize,
        crossfade: if params.crossfade < region {
            params.crossfade as usize
        } else {
            region as usize
        },
    }
}

/// The frame of the loop that stands for a frame: one behind the end of the loop goes
/// round.
pub open spec fn wrapped(l: SampleLoop, at: int) -> int {
    if at > l.end {
        (at - l.end - 1) % (l.end - l.start) + l.start
    } else {
        at
    }
}

/// The loop holds frames, where a frame behind its end or a blend needs them.
pub open spec fn goes_round(l: SampleLoop, at: int) -> bool {
    at > l.end || l.crossfade > 0 ==> l.start < l.end
}

/// What sounds at a frame of the loop.
pub open spec fn blended(l: SampleLoop, at: int) -> Tap {
    if l.crossfade > 0 && l.end > l.crossfade && at > l.end - l.crossfade && at > l.end - l.start {
        Tap::Blend {
            at: at as usize,
            other: (at - (l.end - l.start)) as usize,
            part: (at - (l.end - l.crossfade)) as usize,
            whole: l.crossfade,
        }
    } else {
        Tap::Frame { at: at as usize }
    }
}

impl SampleLoop {
    fn new(params: &LoopParams) -> (r: SampleLoop)
        ensures
            r == loop_of(*params),
    {
        let region = less(params.end as usize, params.start as usize);
        let crossfade: usize = params.crossfade as usize;
        SampleLoop {
            offset: params.offset as usize,
            start: params.start as usize,
            end: params.end as usize,
            crossfade: if crossfade < region {
                crossfade
            } else {
                region
            },
        }
    }

    /// What sounds at a frame.
    fn tap(&self, at: usize) -> (r: Tap)
        requires
            goes_round(*self, at as int),
        ensures
            r == blended(*self, wrapped(*self, at as int)),
    {
        let mut at: usize = at;
        if at > self.end {
            let round: usize = (at - self.end - 1) % (self.end - self.start);
            at = round + self.start;
        }
        let region = less(self.end, self.start);
        if self.crossfade > 0 && self.end > self.crossfade && at > self.end - self.crossfade && at
            > region {
            Tap::Blend {
                at,
                other: at - region,
                part: at - (self.end - self.crossfade),
                whole: self.crossfade,
            }
        } else {
            Tap::Frame { at }
        }
    }
}

/// Reads a sample, and repeats its loop for ever.
#[derive(Debug, Clone, Copy, PartialEq, Eq, Structural)]
pub struct SampleReaderLoop {
    pub span: SampleLoop,
}

impl SampleReaderLoop {
    pub fn new(params: &LoopParams) -> (r: SampleReaderLoop)
        ensures
            r.span == loop_of(*params),
    {
        SampleReaderLoop { span: SampleLoop::new(params) }
    }

    /// What sounds at a position.
    pub fn get(&self, pos: usize) -> (r: Tap)
        requires
            pos + self.span.offset <= usize::MAX,
            goes_round(self.span, pos + self.span.offset),
        ensures
            r == blended(self.span, wrapped(self.span, pos + self.span.offset)),
    {
        self.span.tap(pos + self.span.offset)
    }

    /// Whether nothing sounds any more: a loop has no end.
    pub fn is_past_end(&self, pos: usize) -> (r: bool)
        ensures
            !r,
    {
        false
    }
}

/// Reads a sample, and repeats its loop until the key comes up.
#[derive(Debug, Clone, Copy, PartialEq, Eq, Structural)]
pub struct SampleReaderLoopSustain {
    pub length: usize,
    pub span: SampleLoop,
    /// The frame that was read last before the key came up.
    pub last: usize,
    pub is_released: bool,
}

impl SampleReaderLoopSustain {
    /// A reader of a sample with `length` frames.
    pub fn new(length: usize, params: &LoopParams) -> (r: SampleReaderLoopSustain)
        ensures
            r.length == stop_of(*params, length as int),
            r.span == loop_of(*params),
            r.last == 0,
            !r.is_released,
    {
        SampleReaderLoopSustain {
            length: stop_at(params, length),
            span: SampleLoop::new(params),
            last: 0,
            is_released: false,
        }
    }

    /// What sounds at a position. Once the key has come up, the sample goes on from the
    /// end of its loop.
    pub fn get(&mut self, pos: usize) -> (r: Tap)
        requires
            pos + old(self).span.offset <= usize::MAX,
            !old(self).is_released ==> goes_round(old(self).span, pos + old(self).span.offset),
            old(self).is_released ==> old(self).last <= pos + old(self).span.offset
                + old(self).span.end <= usize::MAX,
        ensures
            *final(self) == (SampleReaderLoopSustain {
                last: if old(self).is_released {
                    old(self).last
                } else {
                    (pos + old(self).span.offset) as usize
                },
                ..*old(self)
            }),
            r == (if old(self).is_released {
                Tap::Frame {
                    at: (pos + old(self).span.offset + old(self).span.end - old(self).last)
                        as usize,
                }
            } else {
                blended(old(self).span, wrapped(old(self).span, pos + old(self).span.offset))
            }),
    {
        let at: usize = pos + self.span.offset;
        if self.is_released {
            Tap::Frame { at: at + self.span.end - self.last }
        } else {
            self.last = at;
            self.span.tap(at)
        }
    }

    /// Whether nothing sounds any more from a position on.
    pub fn is_past_end(&self, pos: usize) -> (r: bool)
        requires
            self.last + self.span.offset <= usize::MAX,
        ensures
            r == (pos >= minus(self.length as int, self.last + self.span.offset)),
    {
        pos >= less(self.length, self.last + self.span.offset)
    }

    /// The key has come up.
    pub fn signal_release(&mut self)
        ensures
            *final(self) == (SampleReaderLoopSustain { is_released: true, ..*old(self) }),
    {
        self.is_released = true;
    }
}

/// The reader of a voice.
#[derive(Debug, Clone, Copy, PartialEq, Eq, Structural)]
pub enum SampleReaders {
    NoLoop(SampleReaderNoLoop),
    Loop(SampleReaderLoop),
    LoopSustain(SampleReaderLoopSustain),
}

/// The reader of a sample with `length` frames that its loop mode asks for.
pub open spec fn reader_of(params: LoopParams, length: int) -> SampleReaders {
    match params.mode {
        LoopMode::LoopContinuous => SampleReaders::Loop(
            SampleReaderLoop { span: loop_of(params) },
        ),
        LoopMode::LoopSustain => SampleReaders::LoopSustain(
            SampleReaderLoopSustain {
                length: stop_of(params, length) as usize,
                span: loop_of(params),
                last: 0,
                is_released: false,
            },
        ),
        LoopMode::NoLoop | LoopMode::OneShot => SampleReaders::NoLoop(
            SampleReaderNoLoop {
                length: stop_of(params, length) as usize,
                offset: params.offset as usize,
            },
        ),
    }
}

impl SampleReaders {
    /// The reader of a sample with `length` frames that its loop mode asks for.
    pub fn new(length: usize, params: &LoopParams) -> (r: SampleReaders)
        ensures
            r == reader_of(*params, length as int),
    {
        match params.mode {
            LoopMode::LoopContinuous => SampleReaders::Loop(SampleReaderLoop::new(params)),
            LoopMode::LoopSustain => SampleReaders::LoopSustain(
                SampleReaderLoopSustain::new(length, params),
            ),
            LoopMode::NoLoop | LoopMode::OneShot => SampleReaders::NoLoop(
                SampleReaderNoLoop::new(length, params),
            ),
        }
    }

    /// Position `pos` can be read.
    pub open spec fn can_read(&self, pos: int) -> bool {
        match self {
            SampleReaders::NoLoop(reader) => pos + reader.offset <= usize::MAX,
            SampleReaders::Loop(reader) => {
                &&& pos + reader.span.offset <= usize::MAX
                &&& goes_round(reader.span, pos + reader.span.offset)
            },
            SampleReaders::LoopSustain(reader) => {
                &&& pos + reader.span.offset <= usize::MAX
                &&& !reader.is_released ==> goes_round(reader.span, pos + reader.span.offset)
                &&& reader.is_released ==> reader.last <= pos + reader.span.offset
                    + reader.span.end <= usize::MAX
            },
        }
    }

    /// What sounds at a position.
    pub open spec fn tap_at(&self, pos: int) -> Tap {
        match self {
            SampleReaders::NoLoop(reader) => faded_frame(
                pos + reader.offset,
                reader.length as int,
            ),
            SampleReaders::Loop(reader) => blended(
                reader.span,
                wrapped(reader.span, pos + reader.span.offset),
            ),
            SampleReaders::LoopSustain(reader) => if reader.is_released {
                Tap::Frame {
                    at: (pos + reader.span.offset + reader.span.end - reader.last) as usize,
                }
            } else {
                blended(reader.span, wrapped(reader.span, pos + reader.span.offset))
            },
        }
    }

    /// The reader after a position has been read.
    pub open spec fn after_read(&self, pos: int) -> SampleReaders {
        match self {
            SampleReaders::LoopSustain(reader) => if reader.is_released {
                *self
            } else {
                SampleReaders::LoopSustain(
                    SampleReaderLoopSustain { last: (pos + reader.span.offset) as usize, ..*reader },
                )
            },
            _ => *self,
        }
    }

    /// What sounds at a position.
    pub fn get(&mut self, pos: usize) -> (r: Tap)
        requires
            old(self).can_read(pos as int),
        ensures
            r == old(self).tap_at(pos as int),
            *final(self) == old(self).after_read(pos as int),
    {
        match self {
            SampleReaders::NoLoop(reader) => reader.get(pos),
            SampleReaders::Loop(reader) => reader.get(pos),
            SampleReaders::LoopSustain(reader) => reader.get(pos),
        }
    }

    /// Nothing sounds any more from position `pos` on.
    pub open spec fn ended(&self, pos: int) -> bool {
        match self {
            SampleReaders::NoLoop(reader) => pos >= minus(
                reader.length as int,
                reader.offset as int,
            ),
            SampleReaders::Loop(_) => false,
            SampleReaders::LoopSustain(reader) => pos >= minus(
                reader.length as int,
                reader.last + reader.span.offset,
            ),
        }
    }

    /// Whether nothing sounds any more from a position on.
    pub fn is_past_end(&self, pos: usize) -> (r: bool)
        requires
            *self matches SampleReaders::LoopSustain(reader) ==> reader.last + reader.span.offset
                <= usize::MAX,
        ensures
            r == self.ended(pos as int),
    {
        match self {
            SampleReaders::NoLoop(reader) => reader.is_past_end(pos),
            SampleReaders::Loop(reader) => reader.is_past_end(pos),
            SampleReaders::LoopSustain(reader) => reader.is_past_end(pos),
        }
    }

    /// The reader after the key has come up.
    pub open spec fn let_go(self) -> SampleReaders {
        match self {
            SampleReaders::LoopSustain(reader) => SampleReaders::LoopSustain(
                SampleReaderLoopSustain { is_released: true, ..reader },
            ),
            _ => self,
        }
    }

    /// The key has come up. Only a loop that is held by the key takes notice.
    pub fn signal_release(&mut self)
        ensures
            *final(self) == old(self).let_go(),
    {
        if let SampleReaders::LoopSustain(reader) = self {
            reader.signal_release();
        }
    }
}

/// Where the frames of a voice come from: memory, or a stream from a file.
pub enum BufferSamplers {
    I16(SampleStorage),
    Streamed(VoiceStream),
}

impl BufferSamplers {
    /// The frames are all there, or those that have come are in order.
    pub open spec fn wf(&self) -> bool {
        match self {
            BufferSamplers::I16(storage) => storage.wf(),
            BufferSamplers::Streamed(stream) => ring_wf(stream.ring@),
        }
    }

    /// The frame at position `pos`; silence where there is none.
    pub open spec fn frame(&self, pos: int) -> i16 {
        match self {
            BufferSamplers::I16(storage) => if pos < storage@.len() {
                storage@[pos]
            } else {
                0
            },
            BufferSamplers::Streamed(stream) => heard(*stream, pos).0,
        }
    }

    /// The counters after position `pos` has been read: only a stream can run dry.
    pub open spec fn counters_after(&self, pos: int, counters: UnderrunCounters) -> UnderrunCounters {
        match self {
            BufferSamplers::I16(_) => counters,
            BufferSamplers::Streamed(stream) => underrun_counted(counters, heard(*stream, pos).1),
        }
    }

    /// These are the frames of `before` after position `pos` has been read: a stream knows
    /// how far its voice has come.
    pub open spec fn follows(&self, before: &BufferSamplers, pos: int) -> bool {
        match (before, self) {
            (BufferSamplers::I16(a), BufferSamplers::I16(b)) => *a == *b,
            (BufferSamplers::Streamed(a), BufferSamplers::Streamed(b)) => {
                &&& b.frames == a.frames
                &&& b.channel == a.channel
                &&& b.head == a.head
                &&& b.head_start == a.head_start
                &&& b.ring@ == (RingModel {
                    consumed: if pos >= a.head_start + a.head@.len() && pos > a.ring@.consumed {
                        pos
                    } else {
                        a.ring@.consumed
                    },
                    ..a.ring@
                })
            },
            _ => false,
        }
    }

    /// Frames in memory.
    pub fn new_f32(sample: SampleStorage) -> (r: BufferSamplers)
        ensures
            r == BufferSamplers::I16(sample),
    {
        BufferSamplers::I16(sample)
    }

    /// Frames that are streamed.
    pub fn streamed(stream: VoiceStream) -> (r: BufferSamplers)
        ensures
            r == BufferSamplers::Streamed(stream),
    {
        BufferSamplers::Streamed(stream)
    }

    /// The frame at a position; silence where there is none.
    pub fn get(&mut self, pos: usize, counters: &mut UnderrunCounters) -> (r: i16)
        requires
            old(self).wf(),
        ensures
            final(self).wf(),
            r == old(self).frame(pos as int),
            *final(counters) == old(self).counters_after(pos as int, *old(counters)),
            final(self).follows(old(self), pos as int),
    {
        match self {
            BufferSamplers::I16(storage) => storage.get(pos),
            BufferSamplers::Streamed(stream) => stream.get(pos, counters),
        }
    }

    /// The length of the sample in frames.
    pub fn length(&self) -> (r: usize)
        ensures
            r == (match self {
                BufferSamplers::I16(storage) => storage@.len() as int,
                BufferSamplers::Streamed(stream) => stream.frames as int,
            }),
    {
        match self {
            BufferSamplers::I16(storage) => storage.len(),
            BufferSamplers::Streamed(stream) => stream.length(),
        }
    }
}

/// The places of the channels that go to the left and to the right.
pub fn stereo_channels(n_chans: usize) -> (r: (usize, usize))
    ensures
        r == (0usize, if n_chans >= 2 {
            1usize
        } else {
            0usize
        }),
{
    (0, if n_chans >= 2 {
        1
    } else {
        0
    })
}

/// A sample that is read once fades out step by step, down to silence at its end.
pub proof fn samples_fade_to_silence(at: int, length: int)
    requires
        0 <= at,
        0 <= length <= usize::MAX,
        at < usize::MAX,
    ensures
        faded_frame(at, length) matches Tap::Faded { at: frame, level } ==> {
            &&& frame == at
            &&& level <= SAMPLE_EDGE_FADE_FRAMES
            &&& at >= length ==> level == 0
            &&& faded_frame(at + 1, length) matches Tap::Faded { at: _, level: next }
            &&& next <= level
            &&& level <= next + 1
        },
        faded_frame(at, length) is Frame ==> at + SAMPLE_EDGE_FADE_FRAMES < length,
{
}

/// A loop goes round: behind its end lie the frames of the loop, over and over.
pub proof fn loops_go_round(l: SampleLoop, at: int)
    requires
        l.start < l.end,
        at > l.end,
    ensures
        l.start <= wrapped(l, at) < l.end,
        wrapped(l, at + (l.end - l.start)) == wrapped(l, at),
        wrapped(l, l.end + 1) == l.start,
        wrapped(l, at) + 1 < l.end ==> wrapped(l, at + 1) == wrapped(l, at) + 1,
        wrapped(l, at) + 1 == l.end ==> wrapped(l, at + 1) == l.start,
{
    let n = l.end - l.start;
    let x = at - l.end - 1;
    vstd::arithmetic::div_mod::lemma_mod_bound(x, n);
    vstd::arithmetic::div_mod::lemma_mod_add_multiples_vanish(x, n);
    vstd::arithmetic::div_mod::lemma_small_mod(0, n as nat);
    vstd::arithmetic::div_mod::lemma_fundamental_div_mod(x, n);
    let q = x / n;
    if wrapped(l, at) + 1 < l.end {
        vstd::arithmetic::div_mod::lemma_fundamental_div_mod_converse(x + 1, n, q, x % n + 1);
    } else {
        assert(n * (q + 1) == n * q + n) by (nonlinear_arith);
        vstd::arithmetic::div_mod::lemma_fundamental_div_mod_converse(x + 1, n, q + 1, 0);
    }
}

/// Where a loop blends, the share of the other frame grows from one frame to the next, up
/// to the whole at the end of the loop. The other frame lies one loop earlier.
pub proof fn loops_blend_step_by_step(params: LoopParams, at: int)
    requires
        params.start < params.end,
        0 <= at <= params.end,
    ensures
        blended(loop_of(params), at) matches Tap::Blend { at: frame, other, part, whole } ==> {
            &&& frame == at
            &&& other == at - (params.end - params.start)
            &&& 0 < part <= whole
            &&& whole <= params.end - params.start
            &&& part == whole <==> at == params.end
            &&& at < params.end ==> (blended(loop_of(params), at + 1) matches Tap::Blend {
                at: _,
                other: _,
                part: next,
                whole: _,
            } && next == part + 1)
        },
{
}

/// Up to the end of its loop, a sample that goes round sounds frame by frame; and where it
/// has a fade across the loop point, the last frames of the loop blend with those one loop
/// earlier. The fade is no longer than the loop, and it takes place at every frame that has
/// one a loop earlier.
pub proof fn loops_blend_before_their_end(params: LoopParams, length: int, pos: int)
    requires
        params.mode is LoopContinuous || params.mode is LoopSustain,
        params.start < params.end,
        0 <= pos,
        pos + params.offset <= params.end,
    ensures
        ({
            let at = pos + params.offset;
            let turn = params.end - params.start;
            let width = if params.crossfade <= turn {
                params.crossfade as int
            } else {
                turn
            };
            let tap = reader_of(params, length).tap_at(pos);
            &&& 0 < width < params.end && params.end - width < at && turn < at ==> tap
                == Tap::Blend {
                at: at as usize,
                other: (at - turn) as usize,
                part: (at + width - params.end) as usize,
                whole: width as usize,
            }
            &&& width == 0 || params.end <= width || at + width <= params.end || at <= turn ==> tap
                == Tap::Frame { at: at as usize }
        }),
{
}

/// Behind the end of its loop, a sample sounds as the loop does, from its start on, lap for
/// lap.
pub proof fn laps_sound_alike(params: LoopParams, length: int, lap: int, step: int, pos: int)
    requires
        params.mode is LoopContinuous || params.mode is LoopSustain,
        params.start < params.end,
        0 <= lap,
        0 <= step < params.end - params.start,
        pos + params.offset == params.end + 1 + lap * (params.end - params.start) + step,
    ensures
        reader_of(params, length).tap_at(pos) == reader_of(
            LoopParams { offset: 0, ..params },
            length,
        ).tap_at(params.start + step),
{
    let n = params.end - params.start;
    assert(n * lap == lap * n) by (nonlinear_arith);
    assert(0 <= lap * n) by (nonlinear_arith)
        requires
            0 <= lap,
            0 <= n,
    ;
    vstd::arithmetic::div_mod::lemma_fundamental_div_mod_converse(lap * n + step, n, lap, step);
}

/// A loop that never stops does not notice that its key comes up, and never ends.
pub proof fn endless_loops_never_end(params: LoopParams, length: int, pos: int, read: int)
    requires
        params.mode is LoopContinuous,
    ensures
        !reader_of(params, length).ended(pos),
        reader_of(params, length).after_read(read) == reader_of(params, length),
{
}

/// A sample that is read once sounds frame by frame from its offset to its end, which may lie
/// before that of its frames. The last frames fade out evenly, and behind the end there is
/// silence.
pub proof fn samples_are_read_once(params: LoopParams, length: int, pos: int)
    requires
        params.mode is NoLoop || params.mode is OneShot,
        0 <= pos,
        pos + params.offset <= usize::MAX,
        0 <= length <= usize::MAX,
    ensures
        ({
            let at = pos + params.offset;
            let end = match params.stop {
                Some(stop) => stop as int,
                None => length,
            };
            let reader = reader_of(params, length);
            &&& at + 256 < end ==> reader.tap_at(pos) == Tap::Frame { at: at as usize }
            &&& end - 256 <= at < end ==> reader.tap_at(pos) == Tap::Faded {
                at: at as usize,
                level: (end - at) as usize,
            }
            &&& at >= end ==> reader.tap_at(pos) == Tap::Faded { at: at as usize, level: 0 }
            &&& reader.ended(pos) <==> at >= end
            &&& reader.after_read(pos) == reader
        }),
{
}

/// A loop that its key holds goes round as long as the key is down. Once the key has come up,
/// the sample goes on frame by frame from the end of the loop, as if what was read last had
/// been that end.
pub proof fn held_loops_run_out(params: LoopParams, length: int, read: int, step: int)
    requires
        params.mode is LoopSustain,
        0 <= read,
        0 <= step,
        0 <= length <= usize::MAX,
        read + step + params.offset + params.end <= usize::MAX,
    ensures
        ({
            let held = reader_of(params, length).after_read(read);
            &&& held.tap_at(read + step) == reader_of(params, length).tap_at(read + step)
            &&& held matches SampleReaders::LoopSustain(reader) && {
                let let_go = SampleReaders::LoopSustain(
                    SampleReaderLoopSustain { is_released: true, ..reader },
                );
                &&& let_go.tap_at(read + step) == Tap::Frame { at: (params.end + step) as usize }
                &&& let_go.after_read(read + step) == let_go
                &&& let_go.ended(step) <==> step + read + params.offset + params.offset >= (
                match params.stop {
                    Some(stop) => stop as int,
                    None => length,
                })
            }
        }),
{
}

/// Frames in memory are heard as they are, and behind them there is silence.
pub proof fn memory_sounds_as_it_is(storage: SampleStorage, pos: int, counters: UnderrunCounters)
    requires
        0 <= pos,
    ensures
        pos < storage@.len() ==> BufferSamplers::I16(storage).frame(pos) == storage@[pos],
        pos >= storage@.len() ==> BufferSamplers::I16(storage).frame(pos) == 0,
        BufferSamplers::I16(storage).counters_after(pos, counters) == counters,
{
}


/// When its key comes up, a loop that the key holds stops going round and goes on from the
/// end of the loop. Every other reader goes on as before.
pub proof fn only_held_loops_notice_the_key(reader: SampleReaders, pos: int)
    ensures
        !(reader is LoopSustain) ==> reader.let_go() == reader,
        reader matches SampleReaders::LoopSustain(held) ==> {
            &&& reader.let_go() matches SampleReaders::LoopSustain(after)
            &&& after.is_released
            &&& after.length == held.length && after.span == held.span && after.last == held.last
            &&& 0 <= pos && held.last <= pos + held.span.offset + held.span.end <= usize::MAX
                ==> reader.let_go().tap_at(pos) == (Tap::Frame {
                at: (held.span.end + (pos + held.span.offset - held.last)) as usize,
            })
        },
{
}

} // verus!
