//! The samples of a file.

use crate::bytes::{sample_from_bytes, sample_of};
use crate::share;
use std::sync::Arc;
use vstd::prelude::*;

verus! {

/// Why a file could not be loaded.
#[derive(Debug)]
pub enum Sf2ParseError {
    /// The file at the path could not be read.
    FailedToReadFile(String),
    /// The file does not hold what it should.
    FailedToParseFile(String),
}

/// The side of a sound that a sample holds.
#[derive(Debug, Clone, Copy, PartialEq, Eq, Structural)]
pub enum Sf2SampleLinkType {
    Mono,
    Left,
    Right,
    Linked,
}

/// The side that the sample type of a header stands for. Types with the bit 0x8000 lie
/// in ROM, those with the bit 0x10 are compressed.
pub open spec fn link_type(code: u16) -> Sf2SampleLinkType {
    if code == 0x4 || code == 0x8004 || code == 0x14 {
        Sf2SampleLinkType::Left
    } else if code == 0x2 || code == 0x8002 || code == 0x12 {
        Sf2SampleLinkType::Right
    } else if code == 0x8 || code == 0x8008 || code == 0x18 {
        Sf2SampleLinkType::Linked
    } else {
        Sf2SampleLinkType::Mono
    }
}

impl Sf2SampleLinkType {
    /// The side that the sample type of a header stands for.
    pub fn of(code: u16) -> (r: Sf2SampleLinkType)
        ensures
            r == link_type(code),
    {
        if code == 0x4 || code == 0x8004 || code == 0x14 {
            Sf2SampleLinkType::Left
        } else if code == 0x2 || code == 0x8002 || code == 0x12 {
            Sf2SampleLinkType::Right
        } else if code == 0x8 || code == 0x8008 || code == 0x18 {
            Sf2SampleLinkType::Linked
        } else {
            Sf2SampleLinkType::Mono
        }
    }
}

/// The header of a sample. Positions count frames from the start of the sample data.
#[derive(Debug, Clone, Copy, PartialEq, Eq, Structural)]
pub struct Sf2SampleHeader {
    pub start: u32,
    pub end: u32,
    pub loop_start: u32,
    pub loop_end: u32,
    pub sample_rate: u32,
    pub origpitch: u8,
    pub pitchadj: i8,
    pub sample_link: u16,
    pub sample_type: u16,
}

/// A sample. Positions count frames from its own start; a loop point that lies before
/// it has wrapped around.
#[derive(Debug)]
pub struct Sf2Sample {
    /// The frames at the rate of the output.
    pub data: Arc<Vec<i16>>,
    pub link_type: Sf2SampleLinkType,
    pub linked_sample: Option<u16>,
    /// How many frames the file holds, at the rate of the sample.
    pub original_length: u32,
    pub loop_start: u32,
    pub loop_end: u32,
    pub sample_rate: u32,
    pub origpitch: u8,
    pub pitchadj: i8,
}

/// The frames of a file: 16 bits each, or 24 where a second chunk holds the low bytes.
#[derive(Debug)]
pub enum Sf2Frames {
    Bits16(Vec<i16>),
    Bits24(Vec<i32>),
}

/// The frames of a file.
#[verifier::ext_equal]
pub enum Sf2FramesModel {
    Bits16(Seq<int>),
    Bits24(Seq<int>),
}

/// Numbers of 16 bits.
pub open spec fn words16(v: Seq<i16>) -> Seq<int> {
    v.map_values(|x: i16| x as int)
}

/// Numbers of 32 bits.
pub open spec fn words32(v: Seq<i32>) -> Seq<int> {
    v.map_values(|x: i32| x as int)
}

impl View for Sf2Frames {
    type V = Sf2FramesModel;

    open spec fn view(&self) -> Sf2FramesModel {
        match self {
            Sf2Frames::Bits16(v) => Sf2FramesModel::Bits16(words16(v@)),
            Sf2Frames::Bits24(v) => Sf2FramesModel::Bits24(words32(v@)),
        }
    }
}

/// The `i`th frame of 16 bits.
pub open spec fn frame16(smpl: Seq<u8>, i: int) -> int {
    sample_of(smpl[2 * i], smpl[2 * i + 1])
}

/// The `i`th frame of 24 bits.
pub open spec fn frame24(smpl: Seq<u8>, extra: Seq<u8>, i: int) -> int {
    256 * frame16(smpl, i) + extra[i]
}

/// The low bytes belong to the frames: one for each, and one more where the number of
/// frames is odd.
pub open spec fn extra_fits(smpl: Seq<u8>, extra: Seq<u8>) -> bool {
    let n = smpl.len() as int / 2;
    extra.len() == n + n % 2
}

/// The frames that the sample chunks of a file hold.
pub open spec fn frames_of(smpl: Seq<u8>, extra: Option<Seq<u8>>) -> Sf2FramesModel {
    let n = (smpl.len() / 2) as nat;
    match extra {
        None => Sf2FramesModel::Bits16(Seq::new(n, |i: int| frame16(smpl, i))),
        Some(low) => Sf2FramesModel::Bits24(Seq::new(n, |i: int| frame24(smpl, low, i))),
    }
}

/// The chunk of low bytes.
pub open spec fn low_bytes(extra: Option<Vec<u8>>) -> Option<Seq<u8>> {
    match extra {
        Some(v) => Some(v@),
        None => None,
    }
}

fn frames_16(smpl: &Vec<u8>) -> (r: Vec<i16>)
    requires
        smpl.len() % 2 == 0,
    ensures
        words16(r@) == Seq::new((smpl.len() / 2) as nat, |i: int| frame16(smpl@, i)),
{
    let n: usize = smpl.len() / 2;
    let mut out: Vec<i16> = Vec::new();
    let mut i: usize = 0;
    while i < n
        invariant
            i <= n,
            n == smpl.len() / 2,
            out.len() == i,
            forall|j: int| 0 <= j < i ==> (#[trigger] out@[j]) == frame16(smpl@, j),
        decreases n - i,
    {
        out.push(sample_from_bytes(smpl[i * 2], smpl[i * 2 + 1]));
        i = i + 1;
    }
    assert(words16(out@) =~= Seq::new((smpl.len() / 2) as nat, |i: int| frame16(smpl@, i)));
    out
}

fn frames_24(smpl: &Vec<u8>, extra: &Vec<u8>) -> (r: Vec<i32>)
    requires
        extra_fits(smpl@, extra@),
    ensures
        words32(r@) == Seq::new((smpl.len() / 2) as nat, |i: int| frame24(smpl@, extra@, i)),
{
    let n: usize = smpl.len() / 2;
    let mut out: Vec<i32> = Vec::new();
    let mut i: usize = 0;
    while i < n
        invariant
            i <= n,
            n == smpl.len() / 2,
            extra_fits(smpl@, extra@),
            out.len() == i,
            forall|j: int| 0 <= j < i ==> (#[trigger] out@[j]) == frame24(smpl@, extra@, j),
        decreases n - i,
    {
        let high: i16 = sample_from_bytes(smpl[i * 2], smpl[i * 2 + 1]);
        out.push(high as i32 * 256 + extra[i] as i32);
        i = i + 1;
    }
    assert(words32(out@) =~= Seq::new(
        (smpl.len() / 2) as nat,
        |i: int| frame24(smpl@, extra@, i),
    ));
    out
}

/// Reads the sample chunks of a file: `smpl` with the high bytes of the frames, and
/// `sm24` with their low bytes where the file has it.
pub fn read_frames(smpl: Option<Vec<u8>>, sm24: Option<Vec<u8>>) -> (r: Result<
    Sf2Frames,
    Sf2ParseError,
>)
    requires
        smpl is Some && sm24 is None ==> smpl->0.len() % 2 == 0,
    ensures
        r is Ok <==> smpl is Some && (sm24 is Some ==> extra_fits(smpl->0@, sm24->0@)),
        r is Ok ==> r->Ok_0@ == frames_of(smpl->0@, low_bytes(sm24)),
        r is Err && smpl is None ==> (r->Err_0 matches Sf2ParseError::FailedToParseFile(m)
            && m@ == "Soundfont does not contain samples"@),
        r is Err && smpl is Some ==> (r->Err_0 matches Sf2ParseError::FailedToParseFile(m)
            && m@ == "Invalid sample length"@),
{
    match smpl {
        None => Err(
            Sf2ParseError::FailedToParseFile("Soundfont does not contain samples".to_string()),
        ),
        Some(smpl) => match sm24 {
            None => Ok(Sf2Frames::Bits16(frames_16(&smpl))),
            Some(extra) => {
                let n: usize = smpl.len() / 2;
                if extra.len() >= n % 2 && extra.len() - n % 2 == n {
                    Ok(Sf2Frames::Bits24(frames_24(&smpl, &extra)))
                } else {
                    Err(Sf2ParseError::FailedToParseFile("Invalid sample length".to_string()))
                }
            },
        },
    }
}

/// The frames of one sample lie in the sample data.
pub open spec fn header_fits(h: Sf2SampleHeader, frames: int) -> bool {
    h.start <= h.end <= frames
}

/// A part of the frames.
pub open spec fn cut(frames: Sf2FramesModel, from: int, to: int) -> Sf2FramesModel {
    match frames {
        Sf2FramesModel::Bits16(v) => Sf2FramesModel::Bits16(v.subrange(from, to)),
        Sf2FramesModel::Bits24(v) => Sf2FramesModel::Bits24(v.subrange(from, to)),
    }
}

/// How many frames there are.
pub open spec fn frame_count(frames: Sf2FramesModel) -> int {
    match frames {
        Sf2FramesModel::Bits16(v) => v.len() as int,
        Sf2FramesModel::Bits24(v) => v.len() as int,
    }
}

impl Sf2Frames {
    /// How many frames there are.
    pub fn len(&self) -> (r: usize)
        ensures
            r == frame_count(self@),
    {
        match self {
            Sf2Frames::Bits16(v) => v.len(),
            Sf2Frames::Bits24(v) => v.len(),
        }
    }

    /// The frames of one sample.
    pub fn of_sample(&self, h: &Sf2SampleHeader) -> (r: Sf2Frames)
        requires
            header_fits(*h, frame_count(self@)),
        ensures
            r@ == cut(self@, h.start as int, h.end as int),
    {
        let from: usize = h.start as usize;
        let to: usize = h.end as usize;
        match self {
            Sf2Frames::Bits16(v) => {
                let mut out: Vec<i16> = Vec::new();
                let mut i: usize = from;
                while i < to
                    invariant
                        from <= i <= to <= v.len(),
                        out@ == v@.subrange(from as int, i as int),
                    decreases to - i,
                {
                    out.push(v[i]);
                    i = i + 1;
                    assert(out@ =~= v@.subrange(from as int, i as int));
                }
                assert(words16(out@) =~= words16(v@).subrange(from as int, to as int));
                Sf2Frames::Bits16(out)
            },
            Sf2Frames::Bits24(v) => {
                let mut out: Vec<i32> = Vec::new();
                let mut i: usize = from;
                while i < to
                    invariant
                        from <= i <= to <= v.len(),
                        out@ == v@.subrange(from as int, i as int),
                    decreases to - i,
                {
                    out.push(v[i]);
                    i = i + 1;
                    assert(out@ =~= v@.subrange(from as int, i as int));
                }
                assert(words32(out@) =~= words32(v@).subrange(from as int, to as int));
                Sf2Frames::Bits24(out)
            },
        }
    }
}

/// The distance from `start` to `at`, wrapped around where it is negative.
pub open spec fn distance(start: u32, at: u32) -> int {
    if at >= start {
        at - start
    } else {
        at - start + 0x1_0000_0000
    }
}

/// A sample with its frames at the rate of the output.
pub open spec fn sample_with(h: Sf2SampleHeader, data: Arc<Vec<i16>>) -> Sf2Sample {
    Sf2Sample {
        data,
        link_type: link_type(h.sample_type),
        linked_sample: if link_type(h.sample_type) == Sf2SampleLinkType::Mono {
            None
        } else {
            Some(h.sample_link)
        },
        original_length: (h.end - h.start) as u32,
        loop_start: distance(h.start, h.loop_start) as u32,
        loop_end: distance(h.start, h.loop_end) as u32,
        sample_rate: h.sample_rate,
        origpitch: h.origpitch,
        pitchadj: h.pitchadj,
    }
}

impl Sf2Sample {
    /// A sample with its frames at the rate of the output.
    pub fn new(h: &Sf2SampleHeader, data: Arc<Vec<i16>>) -> (r: Sf2Sample)
        requires
            h.start <= h.end,
        ensures
            r == sample_with(*h, data),
    {
        let link_type = Sf2SampleLinkType::of(h.sample_type);
        Sf2Sample {
            data,
            link_type,
            linked_sample: match link_type {
                Sf2SampleLinkType::Mono => None,
                _ => Some(h.sample_link),
            },
            original_length: h.end - h.start,
            loop_start: h.loop_start.wrapping_sub(h.start),
            loop_end: h.loop_end.wrapping_sub(h.start),
            sample_rate: h.sample_rate,
            origpitch: h.origpitch,
            pitchadj: h.pitchadj,
        }
    }

    /// The samples of a file, in the order of their headers. Each comes with its frames at
    /// the rate of the output.
    pub fn parse_sf2_samples(headers: &Vec<Sf2SampleHeader>, data: &Vec<Arc<Vec<i16>>>) -> (r: Vec<
        Sf2Sample,
    >)
        requires
            data@.len() == headers@.len(),
            forall|i: int| 0 <= i < headers@.len() ==> (#[trigger] headers@[i]).start
                <= headers@[i].end,
        ensures
            r@ == Seq::new(headers@.len(), |i: int| sample_with(headers@[i], data@[i])),
    {
        let ghost goal = Seq::new(headers@.len(), |i: int| sample_with(headers@[i], data@[i]));
        let mut out: Vec<Sf2Sample> = Vec::new();
        let mut i: usize = 0;
        while i < headers.len()
            invariant
                i <= headers.len(),
                data@.len() == headers@.len(),
                forall|j: int| 0 <= j < headers@.len() ==> (#[trigger] headers@[j]).start
                    <= headers@[j].end,
                goal == Seq::new(headers@.len(), |j: int| sample_with(headers@[j], data@[j])),
                out@ == goal.take(i as int),
            decreases headers.len() - i,
        {
            out.push(Sf2Sample::new(&headers[i], share(&data[i])));
            i = i + 1;
            assert(out@ =~= goal.take(i as int));
        }
        assert(out@ =~= goal);
        out
    }
}

/// A frame of 24 bits keeps its 16 high bits in `smpl`: without the low bytes the same
/// file holds the same sound, less fine.
pub proof fn high_bits_are_the_sample(smpl: Seq<u8>, extra: Seq<u8>, i: int)
    requires
        0 <= i < smpl.len() / 2,
        extra_fits(smpl, extra),
    ensures
        frame24(smpl, extra, i) / 256 == frame16(smpl, i),
        -0x80_0000 <= frame24(smpl, extra, i) < 0x80_0000,
{
}

/// The sides of a sound are told by the type of its sample, whether the sample lies in ROM or is
/// compressed or neither; every other type is a sound of its own.
pub proof fn sides_are_told_by_type(code: u16)
    ensures
        link_type(code) is Right <==> code == 2 || code == 0x8002 || code == 0x12,
        link_type(code) is Left <==> code == 4 || code == 0x8004 || code == 0x14,
        link_type(code) is Linked <==> code == 8 || code == 0x8008 || code == 0x18,
{
}

/// A sample has the frames that it is given, the length, the rate and the pitch of its header,
/// and the other side that the header names unless it is a sound of its own. Its loop is counted
/// from its own start.
pub proof fn samples_keep_their_headers(h: Sf2SampleHeader, data: Arc<Vec<i16>>)
    requires
        h.start <= h.end,
    ensures
        ({
            let s = sample_with(h, data);
            &&& s.data == data
            &&& h.start + s.original_length == h.end
            &&& (h.start + s.loop_start) % 0x1_0000_0000 == h.loop_start
            &&& (h.start + s.loop_end) % 0x1_0000_0000 == h.loop_end
            &&& h.loop_start >= h.start ==> h.start + s.loop_start == h.loop_start
            &&& h.loop_end >= h.start ==> h.start + s.loop_end == h.loop_end
            &&& s.sample_rate == h.sample_rate
            &&& s.origpitch == h.origpitch
            &&& s.pitchadj == h.pitchadj
            &&& s.link_type is Mono ==> s.linked_sample is None
            &&& !(s.link_type is Mono) ==> s.linked_sample == Some(h.sample_link)
            &&& s.link_type == link_type(h.sample_type)
        }),
{
}

/// The frames of a file are read one after the other: each has two bytes, and where there is a
/// chunk of low bytes, one byte more that counts less than either.
pub proof fn frames_are_read_in_order(smpl: Seq<u8>, extra: Seq<u8>, i: int)
    requires
        0 <= i,
        2 * i + 1 < smpl.len(),
        extra_fits(smpl, extra),
    ensures
        ({
            let high = smpl[2 * i] + 256 * smpl[2 * i + 1];
            let frame = if smpl[2 * i + 1] >= 128 {
                high - 65536
            } else {
                high
            };
            &&& frames_of(smpl, None) matches Sf2FramesModel::Bits16(all) && all.len()
                == smpl.len() / 2 && all[i] == frame
            &&& frames_of(smpl, Some(extra)) matches Sf2FramesModel::Bits24(all) && all.len()
                == smpl.len() / 2 && all[i] == 256 * frame + extra[i]
        }),
{
}

/// The frames of a sample are those of the file from its start to its end.
pub proof fn samples_are_cut_out(frames: Sf2FramesModel, h: Sf2SampleHeader, i: int)
    requires
        header_fits(h, frame_count(frames)),
        0 <= i < h.end - h.start,
    ensures
        h.end <= frame_count(frames),
        frames matches Sf2FramesModel::Bits16(all) ==> (cut(
            frames,
            h.start as int,
            h.end as int,
        ) matches Sf2FramesModel::Bits16(part) && part.len() == h.end - h.start && part[i]
            == all[h.start + i]),
        frames matches Sf2FramesModel::Bits24(all) ==> (cut(
            frames,
            h.start as int,
            h.end as int,
        ) matches Sf2FramesModel::Bits24(part) && part.len() == h.end - h.start && part[i]
            == all[h.start + i]),
{
}


/// The third bytes of frames fit where there is one for each frame, and one more where the
/// frames are odd in number.
pub proof fn third_bytes_come_in_pairs(smpl: Seq<u8>, extra: Seq<u8>)
    ensures
        extra_fits(smpl, extra) <==> extra.len() % 2 == 0 && smpl.len() / 2 <= extra.len()
            && extra.len() <= smpl.len() / 2 + 1,
{
}

/// A header fits where its sample ends no earlier than it begins, and no later than the
/// frames do.
pub proof fn headers_fit_in_the_frames(h: Sf2SampleHeader, frames: int)
    ensures
        header_fits(h, frames) <==> h.start <= h.end && h.end <= frames,
{
}

} // verus!
