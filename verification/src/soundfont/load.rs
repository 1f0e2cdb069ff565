//! What has to be prepared before an SFZ instrument can play.

use super::instrument::{
    instrument_of, region_fits, soundfont_wf, InstrumentModel, SampleSoundfont, SlotRegion,
    SoundfontInstrument, SLOTS,
};
use super::ring::HEAD_FRAMES;
use crate::sfz::params::RegionParams;
use crate::text::same_text;
use crate::LoopMode;
use std::ops::RangeInclusive;
use vstd::prelude::*;

verus! {

/// `RangeInclusive::start` is the lower bound of a range that has not been walked through
/// to its end. Of one that has, nothing is said.
pub assume_specification<Idx>[ RangeInclusive::<Idx>::start ](r: &RangeInclusive<Idx>) -> (ret:
    &Idx)
    ensures
        !r@.exhausted ==> *ret == r@.start,
;

/// `RangeInclusive::end` is the upper bound of a range that has not been walked through to
/// its end. Of one that has, nothing is said.
pub assume_specification<Idx>[ RangeInclusive::<Idx>::end ](r: &RangeInclusive<Idx>) -> (ret: &Idx)
    ensures
        !r@.exhausted ==> *ret == r@.end,
;

/// Nobody has walked through the ranges of a region.
pub open spec fn ranges_are_whole(p: RegionParams) -> bool {
    !p.keyrange@.exhausted && !p.velrange@.exhausted
}

/// What of an SFZ region decides for which notes it sounds.
pub open spec fn slots_of(p: RegionParams) -> SlotRegion {
    SlotRegion {
        lokey: p.keyrange@.start as i16,
        hikey: p.keyrange@.end as i16,
        lovel: p.velrange@.start,
        hivel: p.velrange@.end,
        trigger: p.trigger,
        seq_length: p.seq_length,
        seq_position: p.seq_position,
        exclusive_class: p.exclusive_class,
    }
}

/// What of an SFZ region decides for which notes it sounds.
pub fn slot_region(p: &RegionParams) -> (r: SlotRegion)
    requires
        ranges_are_whole(*p),
    ensures
        r == slots_of(*p),
{
    SlotRegion {
        lokey: *p.keyrange.start() as i16,
        hikey: *p.keyrange.end() as i16,
        lovel: *p.velrange.start(),
        hivel: *p.velrange.end(),
        trigger: p.trigger,
        seq_length: p.seq_length,
        seq_position: p.seq_position,
        exclusive_class: p.exclusive_class,
    }
}

/// Whether every key and velocity of a region has its slot.
pub fn fits(r: &SlotRegion) -> (b: bool)
    ensures
        b == region_fits(*r),
{
    if r.lokey <= r.hikey && r.lovel <= r.hivel && !(r.lokey <= -1 && -1 <= r.hikey) {
        0 <= r.lokey && (r.hikey as i32) * 128 + (r.hivel as i32) < SLOTS as i32
    } else {
        true
    }
}

/// The keyswitch that is down when an instrument is loaded: that of the first region
/// from `at` on which names one.
pub open spec fn keyswitch_from(regions: Seq<RegionParams>, at: int) -> Option<i8>
    decreases regions.len() - at,
{
    if 0 <= at < regions.len() {
        match regions[at].sw_default {
            Some(key) => Some(key),
            None => keyswitch_from(regions, at + 1),
        }
    } else {
        None
    }
}

/// The keyswitch that is down when an instrument is loaded.
pub fn effective_keyswitch(regions: &Vec<RegionParams>) -> (r: Option<i8>)
    ensures
        r == keyswitch_from(regions@, 0),
{
    let mut i: usize = 0;
    while i < regions.len()
        invariant
            i <= regions.len(),
            keyswitch_from(regions@, 0) == keyswitch_from(regions@, i as int),
        decreases regions.len() - i,
    {
        if let Some(key) = regions[i].sw_default {
            return Some(key);
        }
        i = i + 1;
    }
    None
}

/// The region sounds while keyswitch `down` is down. A region that names no keyswitch
/// always does, and so do all regions of an instrument without one.
pub open spec fn sounds_with(p: RegionParams, down: Option<i8>) -> bool {
    match (down, p.sw_last) {
        (Some(key), Some(last)) => last == key,
        _ => true,
    }
}

/// The places of those of the first `n` regions that sound.
pub open spec fn sounding(regions: Seq<RegionParams>, down: Option<i8>, n: int) -> Seq<int>
    decreases n,
{
    if n <= 0 {
        Seq::empty()
    } else {
        let before = sounding(regions, down, n - 1);
        if sounds_with(regions[n - 1], down) {
            before.push(n - 1)
        } else {
            before
        }
    }
}

/// A list of places.
pub open spec fn places(v: Seq<usize>) -> Seq<int> {
    v.map_values(|i: usize| i as int)
}

/// The places of the regions of an instrument that sound with the keyswitch that is
/// down when it is loaded.
pub fn active_regions(regions: &Vec<RegionParams>) -> (r: Vec<usize>)
    ensures
        places(r@) == sounding(regions@, keyswitch_from(regions@, 0), regions.len() as int),
        forall|i: int| 0 <= i < r.len() ==> (#[trigger] r@[i]) < regions.len(),
{
    let down = effective_keyswitch(regions);
    let mut out: Vec<usize> = Vec::new();
    let mut n: usize = 0;
    assert(places(out@) =~= Seq::empty());
    while n < regions.len()
        invariant
            n <= regions.len(),
            places(out@) == sounding(regions@, down, n as int),
            forall|i: int| 0 <= i < out.len() ==> (#[trigger] out@[i]) < n,
        decreases regions.len() - n,
    {
        let sounds = match (down, regions[n].sw_last) {
            (Some(key), Some(last)) => last == key,
            _ => true,
        };
        if sounds {
            let ghost before = places(out@);
            out.push(n);
            assert(places(out@) =~= before.push(n as int));
        }
        n = n + 1;
    }
    out
}

/// Every region that is left sounds, and they keep their order.
pub proof fn keyswitch_leaves_what_sounds(regions: Seq<RegionParams>, down: Option<i8>, n: int)
    requires
        0 <= n <= regions.len(),
    ensures
        forall|i: int|
            0 <= i < sounding(regions, down, n).len() ==> 0 <= (#[trigger] sounding(
                regions,
                down,
                n,
            )[i]) < n && sounds_with(regions[sounding(regions, down, n)[i]], down),
        forall|i: int, j: int|
            0 <= i < j < sounding(regions, down, n).len() ==> (#[trigger] sounding(
                regions,
                down,
                n,
            )[i]) < (#[trigger] sounding(regions, down, n)[j]),
        forall|k: int|
            0 <= k < n && sounds_with(#[trigger] regions[k], down) ==> sounding(
                regions,
                down,
                n,
            ).contains(k),
    decreases n,
{
    if n > 0 {
        keyswitch_leaves_what_sounds(regions, down, n - 1);
        let before = sounding(regions, down, n - 1);
        let now = sounding(regions, down, n);
        assert forall|k: int| 0 <= k < n && sounds_with(
            #[trigger] regions[k],
            down,
        ) implies now.contains(k) by {
            if k < n - 1 {
                let i = choose|i: int| 0 <= i < before.len() && before[i] == k;
                assert(now[i] == k);
            } else {
                assert(now[now.len() - 1] == k);
            }
        }
    }
}

/// The fewest voices that any of the first `n` regions allows at once.
pub open spec fn least_polyphony(regions: Seq<RegionParams>, n: int) -> Option<u32>
    decreases n,
{
    if n <= 0 {
        None
    } else {
        match (least_polyphony(regions, n - 1), regions[n - 1].polyphony) {
            (Some(a), Some(b)) => Some(
                if b < a {
                    b
                } else {
                    a
                },
            ),
            (Some(a), None) => Some(a),
            (None, b) => b,
        }
    }
}

/// How many voices the author of an instrument allows at once: the fewest that any of
/// its regions allows.
pub fn declared_polyphony(regions: &Vec<RegionParams>) -> (r: Option<u32>)
    ensures
        r == least_polyphony(regions@, regions.len() as int),
{
    let mut least: Option<u32> = None;
    let mut n: usize = 0;
    while n < regions.len()
        invariant
            n <= regions.len(),
            least == least_polyphony(regions@, n as int),
        decreases regions.len() - n,
    {
        least = match (least, regions[n].polyphony) {
            (Some(a), Some(b)) => Some(
                if b < a {
                    b
                } else {
                    a
                },
            ),
            (Some(a), None) => Some(a),
            (None, b) => b,
        };
        n = n + 1;
    }
    least
}

/// The place among `samples` of the first region with the sample at `path`; the length
/// of `samples` where there is none.
pub open spec fn sample_place(
    regions: Seq<RegionParams>,
    samples: Seq<int>,
    path: Seq<char>,
    at: int,
) -> int
    decreases samples.len() - at,
{
    if 0 <= at < samples.len() && regions[samples[at]].sample_path@ != path {
        sample_place(regions, samples, path, at + 1)
    } else {
        at
    }
}

/// The places of regions with different samples: the first region for each sample
/// among the first `n` of `active`.
pub open spec fn distinct_samples(regions: Seq<RegionParams>, active: Seq<int>, n: int) -> Seq<int>
    decreases n,
{
    if n <= 0 {
        Seq::empty()
    } else {
        let before = distinct_samples(regions, active, n - 1);
        let path = regions[active[n - 1]].sample_path@;
        if sample_place(regions, before, path, 0) < before.len() {
            before
        } else {
            before.push(active[n - 1])
        }
    }
}

/// The place among `samples` of the first region with the sample at `path`; the length of
/// `samples` where there is none.
pub fn find_sample(regions: &Vec<RegionParams>, samples: &Vec<usize>, path: &str) -> (r: usize)
    requires
        forall|i: int| 0 <= i < samples.len() ==> (#[trigger] samples@[i]) < regions.len(),
    ensures
        r == sample_place(regions@, places(samples@), path@, 0),
        r <= samples.len(),
{
    let mut i: usize = 0;
    while i < samples.len()
        invariant
            i <= samples.len(),
            forall|j: int| 0 <= j < samples.len() ==> (#[trigger] samples@[j]) < regions.len(),
            sample_place(regions@, places(samples@), path@, 0) == sample_place(
                regions@,
                places(samples@),
                path@,
                i as int,
            ),
        decreases samples.len() - i,
    {
        assert(samples@[i as int] < regions.len());
        if same_text(&regions[samples[i]].sample_path, path) {
            return i;
        }
        i = i + 1;
    }
    i
}

/// The places of regions with different samples: the first region for each sample.
pub fn unique_samples(regions: &Vec<RegionParams>, active: &Vec<usize>) -> (r: Vec<usize>)
    requires
        forall|i: int| 0 <= i < active.len() ==> (#[trigger] active@[i]) < regions.len(),
    ensures
        places(r@) == distinct_samples(regions@, places(active@), active.len() as int),
        forall|i: int| 0 <= i < r.len() ==> (#[trigger] r@[i]) < regions.len(),
{
    let mut out: Vec<usize> = Vec::new();
    let mut n: usize = 0;
    assert(places(out@) =~= Seq::empty());
    while n < active.len()
        invariant
            n <= active.len(),
            forall|i: int| 0 <= i < active.len() ==> (#[trigger] active@[i]) < regions.len(),
            forall|i: int| 0 <= i < out.len() ==> (#[trigger] out@[i]) < regions.len(),
            places(out@) == distinct_samples(regions@, places(active@), n as int),
        decreases active.len() - n,
    {
        assert(active@[n as int] < regions.len());
        let at = find_sample(regions, &out, &regions[active[n]].sample_path);
        if at >= out.len() {
            let ghost before = places(out@);
            out.push(active[n]);
            assert(places(out@) =~= before.push(active@[n as int] as int));
        }
        n = n + 1;
    }
    out
}

/// Positions of a region in the frames of its sample: where it begins, in the rate in
/// which the sample is stored, and where its loop ends, in the rate of the output.
#[derive(Debug, Clone, Copy, PartialEq, Eq, Structural)]
pub struct RegionFrames {
    pub offset: u32,
    pub loop_end: u32,
}

/// The region repeats a part of its sample.
pub open spec fn repeats(p: RegionParams) -> bool {
    p.loop_start != p.loop_end && (p.loop_mode == LoopMode::LoopContinuous || p.loop_mode
        == LoopMode::LoopSustain)
}

/// How many frames of its sample a region needs in memory: a head of the usual length,
/// or all frames up to the end of its loop where that is more.
pub open spec fn needed_frames(p: RegionParams, frames: RegionFrames) -> int {
    let span = frames.loop_end - frames.offset + 1;
    if repeats(p) && frames.loop_end > frames.offset && span > HEAD_FRAMES {
        span
    } else {
        HEAD_FRAMES as int
    }
}

/// How many frames of its sample a region needs in memory.
pub fn frames_needed(p: &RegionParams, frames: &RegionFrames) -> (r: usize)
    requires
        frames.loop_end - frames.offset < usize::MAX,
    ensures
        r == needed_frames(*p, *frames),
{
    let loops = p.loop_start != p.loop_end && (p.loop_mode == LoopMode::LoopContinuous
        || p.loop_mode == LoopMode::LoopSustain);
    if loops && frames.loop_end > frames.offset {
        let span: usize = (frames.loop_end - frames.offset) as usize;
        if span >= HEAD_FRAMES {
            return span + 1;
        }
    }
    HEAD_FRAMES
}

/// A head that has to be in memory.
#[derive(Debug, Clone, Copy, PartialEq, Eq, Structural)]
pub struct HeadNeed {
    /// The place of the sample among the different samples.
    pub sample: usize,
    /// The first frame of the head.
    pub offset: u32,
    /// How many frames the head must have.
    pub len: usize,
}

/// The place of the head of a sample from an offset on; the length of the list where
/// there is none.
pub open spec fn need_place(needs: Seq<HeadNeed>, sample: usize, offset: u32, at: int) -> int
    decreases needs.len() - at,
{
    if 0 <= at < needs.len() && !(needs[at].sample == sample && needs[at].offset == offset) {
        need_place(needs, sample, offset, at + 1)
    } else {
        at
    }
}

/// The heads with one more that must have `len` frames: one head serves all regions
/// that begin at the same frame of the same sample.
pub open spec fn need_added(
    needs: Seq<HeadNeed>,
    sample: usize,
    offset: u32,
    len: usize,
) -> Seq<HeadNeed> {
    let at = need_place(needs, sample, offset, 0);
    if at < needs.len() {
        if needs[at].len < len {
            needs.update(at, HeadNeed { sample, offset, len })
        } else {
            needs
        }
    } else {
        needs.push(HeadNeed { sample, offset, len })
    }
}

/// The heads that the first `n` of the regions in `active` need. `frames` are the
/// positions of those regions, `samples` the different samples.
pub open spec fn needs_of(
    regions: Seq<RegionParams>,
    active: Seq<int>,
    samples: Seq<int>,
    frames: Seq<RegionFrames>,
    n: int,
) -> Seq<HeadNeed>
    decreases n,
{
    if n <= 0 {
        Seq::empty()
    } else {
        let p = regions[active[n - 1]];
        need_added(
            needs_of(regions, active, samples, frames, n - 1),
            sample_place(regions, samples, p.sample_path@, 0) as usize,
            frames[n - 1].offset,
            needed_frames(p, frames[n - 1]) as usize,
        )
    }
}

fn add_need(needs: &mut Vec<HeadNeed>, sample: usize, offset: u32, len: usize)
    ensures
        final(needs)@ == need_added(old(needs)@, sample, offset, len),
{
    let mut at: usize = 0;
    while at < needs.len() && !(needs[at].sample == sample && needs[at].offset == offset)
        invariant
            at <= needs.len(),
            needs@ == old(needs)@,
            need_place(needs@, sample, offset, 0) == need_place(needs@, sample, offset, at as int),
        decreases needs.len() - at,
    {
        at = at + 1;
    }
    if at < needs.len() {
        if needs[at].len < len {
            needs.set(at, HeadNeed { sample, offset, len });
        }
    } else {
        needs.push(HeadNeed { sample, offset, len });
    }
}

/// The heads that the regions of an instrument need.
pub fn head_needs(
    regions: &Vec<RegionParams>,
    active: &Vec<usize>,
    samples: &Vec<usize>,
    frames: &Vec<RegionFrames>,
) -> (r: Vec<HeadNeed>)
    requires
        forall|i: int| 0 <= i < active.len() ==> (#[trigger] active@[i]) < regions.len(),
        forall|i: int| 0 <= i < samples.len() ==> (#[trigger] samples@[i]) < regions.len(),
        frames.len() == active.len(),
        forall|i: int|
            0 <= i < frames.len() ==> (#[trigger] frames@[i]).loop_end - frames@[i].offset
                < usize::MAX,
    ensures
        r@ == needs_of(
            regions@,
            places(active@),
            places(samples@),
            frames@,
            active.len() as int,
        ),
{
    let mut needs: Vec<HeadNeed> = Vec::new();
    let mut n: usize = 0;
    while n < active.len()
        invariant
            n <= active.len(),
            forall|i: int| 0 <= i < active.len() ==> (#[trigger] active@[i]) < regions.len(),
            forall|i: int| 0 <= i < samples.len() ==> (#[trigger] samples@[i]) < regions.len(),
            frames.len() == active.len(),
            forall|i: int|
                0 <= i < frames.len() ==> (#[trigger] frames@[i]).loop_end - frames@[i].offset
                    < usize::MAX,
            needs@ == needs_of(regions@, places(active@), places(samples@), frames@, n as int),
        decreases active.len() - n,
    {
        assert(active@[n as int] < regions.len());
        let p = &regions[active[n]];
        let sample = find_sample(regions, samples, &p.sample_path);
        let len = frames_needed(p, &frames[n]);
        add_need(&mut needs, sample, frames[n].offset, len);
        n = n + 1;
    }
    needs
}

/// The place of the head that serves a region which begins at `offset` of a sample; `None`
/// where no such head was asked for.
pub fn head_for(needs: &Vec<HeadNeed>, sample: usize, offset: u32) -> (r: Option<usize>)
    ensures
        r == (if need_place(needs@, sample, offset, 0) < needs.len() {
            Some(need_place(needs@, sample, offset, 0) as usize)
        } else {
            None
        }),
{
    let mut at: usize = 0;
    while at < needs.len()
        invariant
            at <= needs.len(),
            need_place(needs@, sample, offset, 0) == need_place(needs@, sample, offset, at as int),
        decreases needs.len() - at,
    {
        if needs[at].sample == sample && needs[at].offset == offset {
            return Some(at);
        }
        at = at + 1;
    }
    None
}

/// Heads without frames, one for each channel.
pub fn zero_heads(n_chans: usize) -> (r: Vec<Vec<i16>>)
    ensures
        r.len() == n_chans,
        forall|c: int| 0 <= c < r.len() ==> (#[trigger] r@[c])@.len() == 0,
{
    let mut out: Vec<Vec<i16>> = Vec::new();
    let mut c: usize = 0;
    while c < n_chans
        invariant
            c <= n_chans,
            out.len() == c,
            forall|d: int| 0 <= d < c ==> (#[trigger] out@[d])@.len() == 0,
        decreases n_chans - c,
    {
        out.push(Vec::new());
        c = c + 1;
    }
    out
}

proof fn need_place_bounds(needs: Seq<HeadNeed>, sample: usize, offset: u32, at: int)
    requires
        0 <= at <= needs.len(),
    ensures
        ({
            let place = need_place(needs, sample, offset, at);
            &&& at <= place <= needs.len()
            &&& place < needs.len() ==> needs[place].sample == sample && needs[place].offset
                == offset
        }),
    decreases needs.len() - at,
{
    if at < needs.len() && !(needs[at].sample == sample && needs[at].offset == offset) {
        need_place_bounds(needs, sample, offset, at + 1);
    }
}

/// A head is kept that begins where a sample is needed from, and is long enough.
pub open spec fn served(needs: Seq<HeadNeed>, sample: usize, offset: u32, len: int) -> bool {
    exists|i: int|
        0 <= i < needs.len() && (#[trigger] needs[i]).sample == sample && needs[i].offset == offset
            && needs[i].len >= len
}

proof fn added_need_is_served(
    needs: Seq<HeadNeed>,
    sample: usize,
    offset: u32,
    len: usize,
    other: HeadNeed,
)
    ensures
        served(need_added(needs, sample, offset, len), sample, offset, len as int),
        served(needs, other.sample, other.offset, other.len as int) ==> served(
            need_added(needs, sample, offset, len),
            other.sample,
            other.offset,
            other.len as int,
        ),
{
    need_place_bounds(needs, sample, offset, 0);
    let at = need_place(needs, sample, offset, 0);
    let next = need_added(needs, sample, offset, len);
    assert(next[at].sample == sample && next[at].offset == offset && next[at].len >= len);
    if served(needs, other.sample, other.offset, other.len as int) {
        let i = choose|i: int|
            0 <= i < needs.len() && (#[trigger] needs[i]).sample == other.sample && needs[i].offset
                == other.offset && needs[i].len >= other.len;
        assert(next[i].sample == other.sample && next[i].offset == other.offset && next[i].len
            >= other.len);
    }
}

/// Every region finds a head that begins where it begins, with at least as many frames
/// as it needs.
pub proof fn every_region_has_its_head(
    regions: Seq<RegionParams>,
    active: Seq<int>,
    samples: Seq<int>,
    frames: Seq<RegionFrames>,
    n: int,
    k: int,
)
    requires
        0 <= k < n <= active.len(),
        frames[k].loop_end - frames[k].offset < usize::MAX,
    ensures
        served(
            needs_of(regions, active, samples, frames, n),
            sample_place(regions, samples, regions[active[k]].sample_path@, 0) as usize,
            frames[k].offset,
            needed_frames(regions[active[k]], frames[k]),
        ),
    decreases n,
{
    let p = regions[active[n - 1]];
    let wanted = HeadNeed {
        sample: sample_place(regions, samples, regions[active[k]].sample_path@, 0) as usize,
        offset: frames[k].offset,
        len: needed_frames(regions[active[k]], frames[k]) as usize,
    };
    added_need_is_served(
        needs_of(regions, active, samples, frames, n - 1),
        sample_place(regions, samples, p.sample_path@, 0) as usize,
        frames[n - 1].offset,
        needed_frames(p, frames[n - 1]) as usize,
        wanted,
    );
    if k < n - 1 {
        every_region_has_its_head(regions, active, samples, frames, n - 1, k);
    }
}

/// How a voice moves through its sample, in frames of the output rate.
#[derive(Debug, Clone, Copy, PartialEq, Eq, Structural)]
pub struct LoopParams {
    pub mode: LoopMode,
    pub offset: u32,
    pub start: u32,
    pub end: u32,
    /// Where the sample ends, if before the end of its frames.
    pub stop: Option<u32>,
    /// How many frames the fade across the loop point takes.
    pub crossfade: u32,
}

/// The loop of an SFZ region whose positions have been converted to the output rate. A
/// loop without frames is none.
pub open spec fn sfz_loop(
    p: RegionParams,
    offset: u32,
    start: u32,
    end: u32,
    crossfade: u32,
) -> LoopParams {
    LoopParams {
        mode: if p.loop_start == p.loop_end {
            LoopMode::NoLoop
        } else {
            p.loop_mode
        },
        offset,
        start,
        end,
        stop: None,
        crossfade,
    }
}

/// The loop of an SFZ region whose positions have been converted to the output rate. A
/// loop without frames is none.
pub fn sfz_loop_params(
    p: &RegionParams,
    offset: u32,
    start: u32,
    end: u32,
    crossfade: u32,
) -> (r: LoopParams)
    ensures
        r == sfz_loop(*p, offset, start, end, crossfade),
{
    LoopParams {
        mode: if p.loop_start == p.loop_end {
            LoopMode::NoLoop
        } else {
            p.loop_mode
        },
        offset,
        start,
        end,
        stop: None,
        crossfade,
    }
}

/// How far a sample lies from silence.
pub open spec fn magnitude(v: i16) -> int {
    if v < 0 {
        -(v as int)
    } else {
        v as int
    }
}

/// The greatest magnitude in heads.
pub fn head_peak(heads: &Vec<Vec<i16>>) -> (r: u16)
    ensures
        forall|c: int, f: int|
            0 <= c < heads.len() && 0 <= f < heads@[c].len() ==> magnitude(
                #[trigger] heads@[c]@[f],
            ) <= r,
        r == 0 || exists|c: int, f: int|
            0 <= c < heads.len() && 0 <= f < heads@[c].len() && magnitude(
                #[trigger] heads@[c]@[f],
            ) == r,
{
    let mut peak: u16 = 0;
    let mut c: usize = 0;
    while c < heads.len()
        invariant
            c <= heads.len(),
            forall|d: int, f: int|
                0 <= d < c && 0 <= f < heads@[d].len() ==> magnitude(#[trigger] heads@[d]@[f])
                    <= peak,
            peak == 0 || exists|d: int, f: int|
                0 <= d < c && 0 <= f < heads@[d].len() && magnitude(#[trigger] heads@[d]@[f])
                    == peak,
        decreases heads.len() - c,
    {
        let channel = &heads[c];
        let mut f: usize = 0;
        while f < channel.len()
            invariant
                c < heads.len(),
                *channel == heads@[c as int],
                f <= channel.len(),
                forall|d: int, g: int|
                    0 <= d < c && 0 <= g < heads@[d].len() ==> magnitude(#[trigger] heads@[d]@[g])
                        <= peak,
                forall|g: int| 0 <= g < f ==> magnitude(#[trigger] heads@[c as int]@[g]) <= peak,
                peak == 0 || exists|d: int, g: int|
                    0 <= d <= c && 0 <= g < heads@[d].len() && magnitude(
                        #[trigger] heads@[d]@[g],
                    ) == peak,
            decreases channel.len() - f,
        {
            let v = channel[f];
            let size: u16 = if v < 0 {
                (-(v as i32)) as u16
            } else {
                v as u16
            };
            if size > peak {
                peak = size;
                assert(magnitude(heads@[c as int]@[f as int]) == peak);
            }
            f = f + 1;
        }
        c = c + 1;
    }
    peak
}

/// The regions of an instrument that sound, as they stand in its slots.
pub open spec fn active_slots(regions: Seq<RegionParams>, active: Seq<int>) -> Seq<SlotRegion> {
    active.map_values(|i: int| slots_of(regions[i]))
}

/// The SFZ instrument that regions make up: those that sound with the keyswitch that is down
/// when it is loaded. The program is the given one, else program 0 of bank 0.
pub open spec fn sfz_instruments(
    regions: Seq<RegionParams>,
    bank: Option<u8>,
    preset: Option<u8>,
) -> Seq<InstrumentModel> {
    seq![
        instrument_of(
            active_slots(
                regions,
                sounding(regions, keyswitch_from(regions, 0), regions.len() as int),
            ),
            match bank {
                Some(b) => b,
                None => 0,
            },
            match preset {
                Some(p) => p,
                None => 0,
            },
        ),
    ]
}

impl SampleSoundfont {
    /// The SFZ instrument that regions make up: those that sound with the keyswitch that is
    /// down when it is loaded. The program is the given one, else program 0 of bank 0.
    pub fn new_sfz(
        id: u64,
        regions: &Vec<RegionParams>,
        bank: Option<u8>,
        preset: Option<u8>,
    ) -> (r: SampleSoundfont)
        requires
            forall|i: int|
                0 <= i < regions.len() && sounds_with(
                    #[trigger] regions@[i],
                    keyswitch_from(regions@, 0),
                ) ==> ranges_are_whole(regions@[i]) && region_fits(slots_of(regions@[i])),
        ensures
            soundfont_wf(r@),
            r.id == id,
            r@ == sfz_instruments(regions@, bank, preset),
    {
        let active = active_regions(regions);
        let ghost down = keyswitch_from(regions@, 0);
        proof {
            keyswitch_leaves_what_sounds(regions@, down, regions.len() as int);
        }
        assert forall|i: int| 0 <= i < active.len() implies sounds_with(
            regions@[(#[trigger] active@[i]) as int],
            down,
        ) by {
            assert(sounding(regions@, down, regions.len() as int)[i] == places(active@)[i]);
        }
        let mut slots: Vec<SlotRegion> = Vec::new();
        let mut n: usize = 0;
        while n < active.len()
            invariant
                n <= active.len(),
                forall|i: int| 0 <= i < active.len() ==> (#[trigger] active@[i]) < regions.len(),
                forall|i: int|
                    0 <= i < active.len() ==> sounds_with(
                        regions@[(#[trigger] active@[i]) as int],
                        down,
                    ),
                forall|i: int|
                    0 <= i < regions.len() && sounds_with(#[trigger] regions@[i], down)
                        ==> ranges_are_whole(regions@[i]) && region_fits(slots_of(regions@[i])),
                forall|i: int| 0 <= i < slots.len() ==> region_fits(#[trigger] slots@[i]),
                slots@ == active_slots(regions@, places(active@)).take(n as int),
            decreases active.len() - n,
        {
            assert(active@[n as int] < regions.len());
            slots.push(slot_region(&regions[active[n]]));
            n = n + 1;
            assert(slots@ =~= active_slots(regions@, places(active@)).take(n as int));
        }
        assert(slots@ =~= active_slots(regions@, places(active@)));
        let instrument = SoundfontInstrument::new(
            &slots,
            match bank {
                Some(b) => b,
                None => 0,
            },
            match preset {
                Some(p) => p,
                None => 0,
            },
        );
        let mut instruments: Vec<SoundfontInstrument> = Vec::new();
        instruments.push(instrument);
        let r = SampleSoundfont { id, instruments };
        assert(r@ =~= seq![instrument@]);
        r
    }
}

/// A region sounds for the keys and velocities of its ranges, when its trigger says, in its turn
/// and in its class.
pub proof fn regions_fill_their_slots(p: RegionParams)
    ensures
        slots_of(p).lokey == p.keyrange@.start,
        slots_of(p).hikey == p.keyrange@.end,
        slots_of(p).lovel == p.velrange@.start,
        slots_of(p).hivel == p.velrange@.end,
        slots_of(p).trigger == p.trigger,
        slots_of(p).seq_length == p.seq_length,
        slots_of(p).seq_position == p.seq_position,
        slots_of(p).exclusive_class == p.exclusive_class,
{
}

/// The keyswitch that is down at first is that of the first region that names one; none is down
/// where no region does.
pub proof fn first_keyswitch_counts(regions: Seq<RegionParams>, k: int)
    requires
        0 <= k <= regions.len(),
        forall|j: int| 0 <= j < k ==> (#[trigger] regions[j]).sw_default is None,
        k < regions.len() ==> regions[k].sw_default is Some,
    ensures
        k < regions.len() ==> keyswitch_from(regions, 0) == regions[k].sw_default,
        k == regions.len() ==> keyswitch_from(regions, 0) is None,
{
    keyswitch_is_found(regions, 0, k);
}

proof fn keyswitch_is_found(regions: Seq<RegionParams>, from: int, k: int)
    requires
        0 <= from <= k <= regions.len(),
        forall|j: int| from <= j < k ==> (#[trigger] regions[j]).sw_default is None,
        k < regions.len() ==> regions[k].sw_default is Some,
    ensures
        k < regions.len() ==> keyswitch_from(regions, from) == regions[k].sw_default,
        k == regions.len() ==> keyswitch_from(regions, from) is None,
    decreases k - from,
{
    if from < k {
        assert(regions[from].sw_default is None);
        keyswitch_is_found(regions, from + 1, k);
    }
}

/// A keyswitch silences the regions that name another one, and no others; without a keyswitch all
/// regions sound. The instrument has the regions that sound, in the order of the file, and the
/// program that is asked for, else the first one.
pub proof fn instruments_have_what_sounds(
    regions: Seq<RegionParams>,
    bank: Option<u8>,
    preset: Option<u8>,
    k: int,
)
    requires
        0 <= k < regions.len(),
    ensures
        ({
            let down = keyswitch_from(regions, 0);
            let all = sounding(regions, down, regions.len() as int);
            let silent = down is Some && regions[k].sw_last is Some && regions[k].sw_last != down;
            let made = sfz_instruments(regions, bank, preset);
            let slots = active_slots(regions, all);
            &&& all.contains(k) <==> !silent
            &&& slots.len() == all.len()
            &&& forall|i: int| 0 <= i < all.len() ==> #[trigger] slots[i] == slots_of(
                regions[all[i]],
            )
            &&& made.len() == 1
            &&& made[0].bank == bank.unwrap_or(0)
            &&& made[0].preset == preset.unwrap_or(0)
            &&& made[0] == instrument_of(slots, bank.unwrap_or(0), preset.unwrap_or(0))
        }),
{
    let down = keyswitch_from(regions, 0);
    let all = sounding(regions, down, regions.len() as int);
    keyswitch_leaves_what_sounds(regions, down, regions.len() as int);
    if all.contains(k) {
        let i = choose|i: int| 0 <= i < all.len() && all[i] == k;
        assert(sounds_with(regions[all[i]], down));
    } else {
        assert(!sounds_with(regions[k], down));
    }
}

/// An instrument may sound with as many voices as the region allows that allows the fewest; with
/// any number where no region says.
pub proof fn fewest_voices_count(regions: Seq<RegionParams>, n: int)
    requires
        0 <= n <= regions.len(),
    ensures
        least_polyphony(regions, n) is None <==> forall|k: int|
            0 <= k < n ==> (#[trigger] regions[k]).polyphony is None,
        least_polyphony(regions, n) matches Some(least) ==> {
            &&& forall|k: int|
                0 <= k < n ==> ((#[trigger] regions[k]).polyphony matches Some(v) ==> least <= v)
            &&& exists|k: int| 0 <= k < n && (#[trigger] regions[k]).polyphony == Some(least)
        },
    decreases n,
{
    if n > 0 {
        fewest_voices_count(regions, n - 1);
        let last = regions[n - 1];
        if let Some(least) = least_polyphony(regions, n) {
            if last.polyphony == Some(least) {
                assert(regions[n - 1].polyphony == Some(least));
            } else {
                let k = choose|k: int|
                    0 <= k < n - 1 && (#[trigger] regions[k]).polyphony == Some(least);
                assert(regions[k].polyphony == Some(least));
            }
        } else {
            assert(last.polyphony is None);
        }
    }
}

proof fn sample_is_placed(regions: Seq<RegionParams>, samples: Seq<int>, path: Seq<char>, at: int)
    requires
        0 <= at <= samples.len(),
    ensures
        ({
            let place = sample_place(regions, samples, path, at);
            &&& at <= place <= samples.len()
            &&& place < samples.len() ==> regions[samples[place]].sample_path@ == path
            &&& forall|j: int|
                at <= j < place ==> regions[#[trigger] samples[j]].sample_path@ != path
        }),
    decreases samples.len() - at,
{
    if at < samples.len() && regions[samples[at]].sample_path@ != path {
        sample_is_placed(regions, samples, path, at + 1);
    }
}

/// One of the regions in a list plays the sample at a path.
pub open spec fn lists_sample(
    regions: Seq<RegionParams>,
    list: Seq<int>,
    path: Seq<char>,
) -> bool {
    exists|i: int| 0 <= i < list.len() && regions[#[trigger] list[i]].sample_path@ == path
}

/// Each sample is loaded once: every region that sounds finds its sample among those that are
/// loaded, and no two of them are the same.
pub proof fn samples_are_loaded_once(regions: Seq<RegionParams>, active: Seq<int>, n: int)
    requires
        0 <= n <= active.len(),
    ensures
        forall|k: int|
            0 <= k < n ==> lists_sample(
                regions,
                distinct_samples(regions, active, n),
                regions[#[trigger] active[k]].sample_path@,
            ),
        forall|i: int, j: int|
            0 <= i < j < distinct_samples(regions, active, n).len() ==> regions[#[trigger] (
            distinct_samples(regions, active, n)[i])].sample_path@ != regions[#[trigger] (
            distinct_samples(regions, active, n)[j])].sample_path@,
    decreases n,
{
    if n > 0 {
        samples_are_loaded_once(regions, active, n - 1);
        let before = distinct_samples(regions, active, n - 1);
        let list = distinct_samples(regions, active, n);
        let path = regions[active[n - 1]].sample_path@;
        sample_is_placed(regions, before, path, 0);
        let place = sample_place(regions, before, path, 0);
        assert forall|k: int| 0 <= k < n implies lists_sample(
            regions,
            list,
            regions[#[trigger] active[k]].sample_path@,
        ) by {
            if k < n - 1 {
                let own = regions[active[k]].sample_path@;
                assert(lists_sample(regions, before, own));
                let i = choose|i: int|
                    0 <= i < before.len() && regions[#[trigger] before[i]].sample_path@ == own;
                assert(regions[list[i]].sample_path@ == own);
            } else if place < before.len() {
                assert(regions[list[place]].sample_path@ == path);
            } else {
                assert(regions[list[list.len() - 1]].sample_path@ == path);
            }
        }
        assert forall|i: int, j: int| 0 <= i < j < list.len() implies regions[#[trigger] (
        list[i])].sample_path@ != regions[#[trigger] (list[j])].sample_path@ by {
            if j < before.len() {
                assert(list[i] == before[i] && list[j] == before[j]);
            } else {
                assert(list[i] == before[i]);
            }
        }
    }
}

/// No sample is loaded that no region plays, and each is loaded for one that does.
pub proof fn loaded_samples_are_played(
    regions: Seq<RegionParams>,
    active: Seq<int>,
    n: int,
    i: int,
)
    requires
        0 <= n <= active.len(),
        0 <= i < distinct_samples(regions, active, n).len(),
    ensures
        active.take(n).contains(distinct_samples(regions, active, n)[i]),
    decreases n,
{
    if n > 0 {
        let before = distinct_samples(regions, active, n - 1);
        let shorter = active.take(n - 1);
        if i < before.len() {
            loaded_samples_are_played(regions, active, n - 1, i);
            let k = choose|k: int| 0 <= k < shorter.len() && shorter[k] == before[i];
            assert(active.take(n)[k] == before[i]);
        } else {
            assert(active.take(n)[n - 1] == active[n - 1]);
        }
    }
}

/// A region that repeats has its sample in memory up to the end of its loop, and every region as
/// many frames as a second holds; no region has more than that.
pub proof fn heads_reach_over_loops(p: RegionParams, frames: RegionFrames)
    ensures
        needed_frames(p, frames) >= 44100,
        p.loop_start != p.loop_end && (p.loop_mode is LoopContinuous || p.loop_mode is LoopSustain)
            ==> frames.offset + needed_frames(p, frames) > frames.loop_end,
        needed_frames(p, frames) > 44100 ==> frames.offset + needed_frames(p, frames)
            == frames.loop_end + 1,
        p.loop_start == p.loop_end || p.loop_mode is NoLoop || p.loop_mode is OneShot
            ==> needed_frames(p, frames) == 44100,
{
}

/// One head serves all regions that begin at the same frame of the same sample, and none is
/// longer than the longest of them needs.
pub proof fn heads_are_shared(
    regions: Seq<RegionParams>,
    active: Seq<int>,
    samples: Seq<int>,
    frames: Seq<RegionFrames>,
    n: int,
)
    requires
        0 <= n <= active.len(),
    ensures
        ({
            let needs = needs_of(regions, active, samples, frames, n);
            &&& forall|i: int, j: int|
                0 <= i < j < needs.len() ==> (#[trigger] needs[i]).sample != (
                #[trigger] needs[j]).sample || needs[i].offset != needs[j].offset
            &&& forall|i: int|
                0 <= i < needs.len() ==> exists|k: int|
                    0 <= k < n && (#[trigger] needs[i]).len == needed_frames(
                        regions[active[k]],
                        #[trigger] frames[k],
                    ) as usize && needs[i].offset == frames[k].offset
        }),
    decreases n,
{
    if n > 0 {
        heads_are_shared(regions, active, samples, frames, n - 1);
        let before = needs_of(regions, active, samples, frames, n - 1);
        let needs = needs_of(regions, active, samples, frames, n);
        let p = regions[active[n - 1]];
        let sample = sample_place(regions, samples, p.sample_path@, 0) as usize;
        let offset = frames[n - 1].offset;
        need_is_placed(before, sample, offset, 0);
        assert forall|i: int| 0 <= i < needs.len() implies exists|k: int|
            0 <= k < n && (#[trigger] needs[i]).len == needed_frames(
                regions[active[k]],
                #[trigger] frames[k],
            ) as usize && needs[i].offset == frames[k].offset by {
            if i < before.len() && needs[i] == before[i] {
                let k = choose|k: int|
                    0 <= k < n - 1 && before[i].len == needed_frames(
                        regions[active[k]],
                        #[trigger] frames[k],
                    ) as usize && before[i].offset == frames[k].offset;
                assert(frames[k].offset == needs[i].offset);
            } else {
                assert(needs[i].len == needed_frames(p, frames[n - 1]) as usize);
            }
        }
    }
}

proof fn need_is_placed(needs: Seq<HeadNeed>, sample: usize, offset: u32, at: int)
    requires
        0 <= at <= needs.len(),
    ensures
        ({
            let place = need_place(needs, sample, offset, at);
            &&& at <= place <= needs.len()
            &&& place < needs.len() ==> needs[place].sample == sample && needs[place].offset
                == offset
            &&& forall|j: int|
                at <= j < place ==> (#[trigger] needs[j]).sample != sample || needs[j].offset
                    != offset
        }),
    decreases needs.len() - at,
{
    if at < needs.len() && !(needs[at].sample == sample && needs[at].offset == offset) {
        need_is_placed(needs, sample, offset, at + 1);
    }
}

/// A voice of an SFZ region repeats as the region says, unless its loop has no frames; it begins
/// where the region begins and plays its sample to the end.
pub proof fn sfz_loops_are_kept(
    p: RegionParams,
    offset: u32,
    start: u32,
    end: u32,
    crossfade: u32,
)
    ensures
        ({
            let l = sfz_loop(p, offset, start, end, crossfade);
            &&& p.loop_start != p.loop_end ==> l.mode == p.loop_mode
            &&& p.loop_start == p.loop_end ==> l.mode is NoLoop
            &&& l.offset == offset
            &&& l.start == start
            &&& l.end == end
            &&& l.crossfade == crossfade
            &&& l.stop is None
        }),
{
}


/// The magnitude of a sample is its distance from silence, the same on both sides of it.
pub proof fn magnitudes_have_no_sign(v: i16, w: i16)
    ensures
        magnitude(v) >= 0,
        magnitude(v) * magnitude(v) == v * v,
        v + w == 0 ==> magnitude(v) == magnitude(w),
{
    assert((-(v as int)) * (-(v as int)) == v * v) by (nonlinear_arith);
}

} // verus!
