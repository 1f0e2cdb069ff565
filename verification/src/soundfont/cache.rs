//! Decoded samples that are kept in files of their own.
//!
//! A cache file has seven 32-bit numbers, little-endian, and then the 16-bit frames of
//! one channel after the other: a mark, the version of the format, the rate of the
//! original recording, the rate of the frames, the number of channels of the output
//! that the file was made for, the number of channels, and the frames per channel.

use super::streaming::{recorded, SampleLayout, StreamedSampleSource};
use crate::bytes::{
    push_sample, push_u32, sample_bytes, sample_from_bytes, sample_of, sample_round_trip, u32_at,
    u32_bytes, u32_of, u32_round_trip,
};
use crate::path::{file_name, renamed, with_ending};
use crate::ChannelCount;
use vstd::prelude::*;

verus! {

/// The letters "X44Y".
pub const CACHE_MAGIC: u32 = 0x5934_3458;

pub const CACHE_VERSION: u32 = 2;

pub const CACHE_HEADER_BYTES: usize = 28;

/// The path of the cache file of a sample: a file beside it, with `.x44c` behind its name.
pub fn cache_path_for(source: &str) -> (r: String)
    ensures
        r@ == renamed(
            source@,
            match file_name(source@) {
                Some(name) => name + ".x44c"@,
                None => ".x44c"@,
            },
        ),
{
    with_ending(source, ".x44c")
}

impl ChannelCount {
    /// How many channels there are.
    pub open spec fn channels(&self) -> u32 {
        match self {
            ChannelCount::Mono => 1,
            ChannelCount::Stereo => 2,
        }
    }

    /// How many channels there are.
    pub fn count(&self) -> (r: u32)
        ensures
            r == self.channels(),
    {
        match self {
            ChannelCount::Mono => 1,
            ChannelCount::Stereo => 2,
        }
    }
}

/// The `i`th 32-bit number in a row of bytes, where it is there.
pub fn try_read_u32(bytes: &[u8], i: usize) -> (r: Option<u32>)
    requires
        i * 4 + 4 <= usize::MAX,
    ensures
        r == (if i * 4 + 4 <= bytes@.len() {
            Some(u32_of(bytes@, i * 4) as u32)
        } else {
            None
        }),
{
    let start: usize = i * 4;
    if start + 4 > bytes.len() {
        None
    } else {
        Some(u32_at(bytes, start))
    }
}

/// What the header of a cache file says.
#[derive(Debug, Clone, Copy, PartialEq, Eq, Structural)]
pub struct CacheHeader {
    pub src_rate: u32,
    pub n_chans: u32,
    pub frames: u32,
}

/// What the header of a cache file says.
pub open spec fn header_in(b: Seq<u8>) -> CacheHeader {
    CacheHeader {
        src_rate: u32_of(b, 8) as u32,
        n_chans: u32_of(b, 20) as u32,
        frames: u32_of(b, 24) as u32,
    }
}

/// How long a cache file has to be.
pub open spec fn cache_length(h: CacheHeader) -> int {
    CACHE_HEADER_BYTES + h.n_chans * (h.frames * 2)
}

/// The file holds a sample for an output: the header is whole, is of this format and was
/// made for the output, and the frames are there. `length` is the length of the file, of
/// which `b` is the beginning.
pub open spec fn is_cache_for(
    b: Seq<u8>,
    length: int,
    target_rate: u32,
    target_chans: ChannelCount,
) -> bool {
    &&& b.len() >= CACHE_HEADER_BYTES
    &&& u32_of(b, 0) == CACHE_MAGIC
    &&& u32_of(b, 4) == CACHE_VERSION
    &&& u32_of(b, 12) == target_rate
    &&& u32_of(b, 16) == target_chans.channels()
    &&& 0 < header_in(b).n_chans <= 8
    &&& 0 < header_in(b).frames
    &&& cache_length(header_in(b)) <= length
}

/// Reads the header of a cache file of `length` bytes that begins with `bytes`.
pub fn read_cache_header(
    bytes: &[u8],
    length: u64,
    target_rate: u32,
    target_chans: ChannelCount,
) -> (r: Option<CacheHeader>)
    ensures
        r == (if is_cache_for(bytes@, length as int, target_rate, target_chans) {
            Some(header_in(bytes@))
        } else {
            None
        }),
{
    if bytes.len() < CACHE_HEADER_BYTES {
        return None;
    }
    if u32_at(bytes, 0) != CACHE_MAGIC || u32_at(bytes, 4) != CACHE_VERSION {
        return None;
    }
    let src_rate = u32_at(bytes, 8);
    let n_chans = u32_at(bytes, 20);
    let frames = u32_at(bytes, 24);
    if u32_at(bytes, 12) != target_rate || u32_at(bytes, 16) != target_chans.count() {
        return None;
    }
    if n_chans == 0 || frames == 0 || n_chans > 8 {
        return None;
    }
    proof {
        frames_are_few(n_chans as int, frames as int);
    }
    let bytes_per_chan: u64 = frames as u64 * 2;
    if length < CACHE_HEADER_BYTES as u64 + n_chans as u64 * bytes_per_chan {
        return None;
    }
    Some(CacheHeader { src_rate, n_chans, frames })
}

proof fn frames_are_few(n_chans: int, frames: int)
    requires
        0 <= n_chans <= 8,
        0 <= frames <= u32::MAX,
    ensures
        0 <= n_chans * (frames * 2) <= 16 * u32::MAX,
{
    assert(0 <= n_chans * (frames * 2) <= 16 * u32::MAX) by (nonlinear_arith)
        requires
            0 <= n_chans <= 8,
            0 <= frames <= u32::MAX,
    ;
}

/// The first byte of a channel.
pub open spec fn channel_offset(c: int, frames: int) -> int {
    CACHE_HEADER_BYTES + c * (frames * 2)
}

proof fn channel_offsets_are_few(c: int, n_chans: int, frames: int)
    requires
        0 <= c < n_chans <= 8,
        0 <= frames <= u32::MAX,
    ensures
        CACHE_HEADER_BYTES <= channel_offset(c, frames) <= 16 * u32::MAX,
        channel_offset(c, frames) + frames * 2 == channel_offset(c + 1, frames),
        channel_offset(c + 1, frames) <= channel_offset(n_chans, frames) <= 16 * u32::MAX + 28,
{
    assert(0 <= c * (frames * 2) <= 14 * u32::MAX) by (nonlinear_arith)
        requires
            0 <= c <= 7,
            0 <= frames <= u32::MAX,
    ;
    assert((c + 1) * (frames * 2) == c * (frames * 2) + frames * 2) by (nonlinear_arith);
    assert((c + 1) * (frames * 2) <= n_chans * (frames * 2) <= 16 * u32::MAX) by (nonlinear_arith)
        requires
            c + 1 <= n_chans <= 8,
            0 <= frames <= u32::MAX,
    ;
}

/// A frame of a cached sample.
pub open spec fn cached_frame(b: Seq<u8>, frames: int, c: int, f: int) -> int {
    let at = channel_offset(c, frames) + 2 * f;
    sample_of(b[at], b[at + 1])
}

/// The channels of a cached sample.
pub open spec fn cached_channels(b: Seq<u8>, h: CacheHeader) -> Seq<Seq<i16>> {
    Seq::new(
        h.n_chans as nat,
        |c: int| Seq::new(h.frames as nat, |f: int| cached_frame(b, h.frames as int, c, f) as i16),
    )
}

/// Channel after channel.
pub open spec fn channel_views(v: Seq<Vec<i16>>) -> Seq<Seq<i16>> {
    v.map_values(|c: Vec<i16>| c@)
}

fn read_channel(bytes: &[u8], c: usize, n_chans: usize, frames: usize) -> (r: Vec<i16>)
    requires
        c < n_chans <= 8,
        frames <= u32::MAX,
        channel_offset(n_chans as int, frames as int) <= bytes@.len(),
    ensures
        r@ == Seq::new(
            frames as nat,
            |f: int| cached_frame(bytes@, frames as int, c as int, f) as i16,
        ),
{
    proof {
        channel_offsets_are_few(c as int, n_chans as int, frames as int);
    }
    let total: usize = bytes.len();
    assert(channel_offset(c as int, frames as int) + frames * 2 <= total);
    let start: usize = CACHE_HEADER_BYTES + c * (frames * 2);
    let mut out: Vec<i16> = Vec::new();
    let mut f: usize = 0;
    while f < frames
        invariant
            f <= frames,
            total == bytes@.len(),
            start == channel_offset(c as int, frames as int),
            start + 2 * frames <= bytes@.len(),
            out@ == Seq::new(
                f as nat,
                |g: int| cached_frame(bytes@, frames as int, c as int, g) as i16,
            ),
        decreases frames - f,
    {
        out.push(sample_from_bytes(bytes[start + 2 * f], bytes[start + 2 * f + 1]));
        f = f + 1;
        assert(out@ =~= Seq::new(
            f as nat,
            |g: int| cached_frame(bytes@, frames as int, c as int, g) as i16,
        ));
    }
    out
}

/// A decoded sample.
#[derive(Debug)]
pub struct DecodedSample {
    /// The frames of each channel at the rate of the output.
    pub channels: Vec<Vec<i16>>,
    /// The rate of the original recording.
    pub src_rate: u32,
}

/// Reads a cached sample, where the file holds one for the output.
pub fn read_cache(bytes: &[u8], target_rate: u32, target_chans: ChannelCount) -> (r: Option<
    DecodedSample,
>)
    ensures
        r is Some <==> is_cache_for(bytes@, bytes@.len() as int, target_rate, target_chans),
        r is Some ==> r->0.src_rate == header_in(bytes@).src_rate && channel_views(
            r->0.channels@,
        ) == cached_channels(bytes@, header_in(bytes@)),
{
    match read_cache_header(bytes, bytes.len() as u64, target_rate, target_chans) {
        None => None,
        Some(h) => {
            let n_chans: usize = h.n_chans as usize;
            let frames: usize = h.frames as usize;
            let mut channels: Vec<Vec<i16>> = Vec::new();
            let mut c: usize = 0;
            while c < n_chans
                invariant
                    c <= n_chans <= 8,
                    frames <= u32::MAX,
                    h == header_in(bytes@),
                    n_chans == h.n_chans,
                    frames == h.frames,
                    channel_offset(n_chans as int, frames as int) <= bytes@.len(),
                    channels.len() == c,
                    forall|d: int|
                        0 <= d < c ==> (#[trigger] channels@[d])@ == cached_channels(bytes@, h)[d],
                decreases n_chans - c,
            {
                channels.push(read_channel(bytes, c, n_chans, frames));
                c = c + 1;
            }
            assert(channel_views(channels@) =~= cached_channels(bytes@, h));
            Some(DecodedSample { channels, src_rate: h.src_rate })
        },
    }
}

/// The sample reads the frames of a cache file.
pub open spec fn is_cache_source(
    s: StreamedSampleSource,
    h: CacheHeader,
    target_rate: u32,
) -> bool {
    &&& s.frames == h.frames
    &&& s.n_chans == h.n_chans
    &&& s.src_rate == h.src_rate
    &&& s.data_rate == target_rate
    &&& s.layout matches SampleLayout::Separated { byte_offset_per_channel }
    &&& byte_offset_per_channel@ == Seq::new(
        h.n_chans as nat,
        |c: int| channel_offset(c, h.frames as int) as u64,
    )
}

/// Opens a cache file for reading while it plays. `bytes` is its beginning.
pub fn open_cache(bytes: &[u8], length: u64, target_rate: u32, target_chans: ChannelCount) -> (r:
    Option<StreamedSampleSource>)
    ensures
        r is Some <==> is_cache_for(bytes@, length as int, target_rate, target_chans) && 2
            * header_in(bytes@).frames <= usize::MAX,
        r matches Some(s) ==> s.wf() && is_cache_source(s, header_in(bytes@), target_rate),
{
    let h = match read_cache_header(bytes, length, target_rate, target_chans) {
        None => {
            return None;
        },
        Some(h) => h,
    };
    if h.frames as u64 * 2 > usize::MAX as u64 {
        return None;
    }
    let mut offsets: Vec<u64> = Vec::new();
    let mut c: u64 = 0;
    while c < h.n_chans as u64
        invariant
            c <= h.n_chans <= 8,
            offsets@ == Seq::new(c as nat, |d: int| channel_offset(d, h.frames as int) as u64),
            forall|d: int|
                0 <= d < c ==> #[trigger] offsets@[d] + 2 * h.frames <= u64::MAX,
        decreases h.n_chans - c,
    {
        proof {
            channel_offsets_are_few(c as int, h.n_chans as int, h.frames as int);
        }
        offsets.push(CACHE_HEADER_BYTES as u64 + c * (h.frames as u64 * 2));
        c = c + 1;
        assert(offsets@ =~= Seq::new(
            c as nat,
            |d: int| channel_offset(d, h.frames as int) as u64,
        ));
    }
    Some(
        StreamedSampleSource {
            layout: SampleLayout::Separated { byte_offset_per_channel: offsets },
            frames: h.frames as usize,
            n_chans: h.n_chans as usize,
            src_rate: h.src_rate,
            data_rate: target_rate,
        },
    )
}

/// The bytes of a channel.
pub open spec fn channel_bytes(ch: Seq<i16>) -> Seq<u8>
    decreases ch.len(),
{
    if ch.len() == 0 {
        Seq::empty()
    } else {
        channel_bytes(ch.drop_last()) + sample_bytes(ch.last())
    }
}

/// The bytes of channels, one after the other.
pub open spec fn all_bytes(channels: Seq<Seq<i16>>) -> Seq<u8>
    decreases channels.len(),
{
    if channels.len() == 0 {
        Seq::empty()
    } else {
        all_bytes(channels.drop_last()) + channel_bytes(channels.last())
    }
}

/// The header of a cache file.
pub open spec fn header_bytes(
    src_rate: u32,
    target_rate: u32,
    target_chans: ChannelCount,
    n_chans: u32,
    frames: u32,
) -> Seq<u8> {
    u32_bytes(CACHE_MAGIC) + u32_bytes(CACHE_VERSION) + u32_bytes(src_rate) + u32_bytes(target_rate)
        + u32_bytes(target_chans.channels()) + u32_bytes(n_chans) + u32_bytes(frames)
}

/// The channels can be cached: there are some, all of one length.
pub open spec fn can_be_cached(channels: Seq<Seq<i16>>) -> bool {
    &&& channels.len() > 0
    &&& channels[0].len() > 0
    &&& forall|c: int|
        0 <= c < channels.len() ==> (#[trigger] channels[c]).len() == channels[0].len()
}

/// A cache file.
pub open spec fn cache_of(
    channels: Seq<Seq<i16>>,
    src_rate: u32,
    target_rate: u32,
    target_chans: ChannelCount,
) -> Seq<u8> {
    header_bytes(
        src_rate,
        target_rate,
        target_chans,
        channels.len() as u32,
        channels[0].len() as u32,
    ) + all_bytes(channels)
}

fn push_channel(out: &mut Vec<u8>, ch: &Vec<i16>)
    ensures
        final(out)@ == old(out)@ + channel_bytes(ch@),
{
    let ghost before = out@;
    let mut f: usize = 0;
    assert(out@ =~= before + channel_bytes(ch@.take(0)));
    while f < ch.len()
        invariant
            f <= ch.len(),
            out@ == before + channel_bytes(ch@.take(f as int)),
        decreases ch.len() - f,
    {
        push_sample(out, ch[f]);
        f = f + 1;
        assert(ch@.take(f as int).drop_last() =~= ch@.take(f - 1));
        assert(out@ =~= before + channel_bytes(ch@.take(f as int)));
    }
    assert(ch@.take(f as int) =~= ch@);
}

/// The cache file of a decoded sample, where it can be cached.
pub fn write_cache(sample: &DecodedSample, target_rate: u32, target_chans: ChannelCount) -> (r:
    Option<Vec<u8>>)
    requires
        sample.channels.len() <= u32::MAX,
        forall|c: int| 0 <= c < sample.channels.len() ==> (#[trigger] sample.channels@[c]).len()
            <= u32::MAX,
    ensures
        r is Some <==> can_be_cached(channel_views(sample.channels@)),
        r is Some ==> r->0@ == cache_of(
            channel_views(sample.channels@),
            sample.src_rate,
            target_rate,
            target_chans,
        ),
{
    let channels = &sample.channels;
    let ghost views = channel_views(channels@);
    if channels.len() == 0 || channels[0].len() == 0 {
        return None;
    }
    let frames: usize = channels[0].len();
    let mut out: Vec<u8> = Vec::new();
    push_u32(&mut out, CACHE_MAGIC);
    push_u32(&mut out, CACHE_VERSION);
    push_u32(&mut out, sample.src_rate);
    push_u32(&mut out, target_rate);
    push_u32(&mut out, target_chans.count());
    push_u32(&mut out, channels.len() as u32);
    push_u32(&mut out, frames as u32);
    let ghost header = header_bytes(
        sample.src_rate,
        target_rate,
        target_chans,
        channels.len() as u32,
        frames as u32,
    );
    assert(out@ =~= header);
    let mut c: usize = 0;
    assert(out@ =~= header + all_bytes(views.take(0)));
    while c < channels.len()
        invariant
            c <= channels.len(),
            *channels == sample.channels,
            views == channel_views(channels@),
            views.len() > 0,
            frames == views[0].len(),
            forall|d: int| 0 <= d < c ==> (#[trigger] views[d]).len() == frames,
            out@ == header + all_bytes(views.take(c as int)),
        decreases channels.len() - c,
    {
        assert(views[c as int] == channels@[c as int]@);
        if channels[c].len() != frames {
            assert(views[c as int].len() != views[0].len());
            return None;
        }
        push_channel(&mut out, &channels[c]);
        c = c + 1;
        assert(views.take(c as int).drop_last() =~= views.take(c - 1));
        assert(out@ =~= header + all_bytes(views.take(c as int)));
    }
    assert(views.take(c as int) =~= views);
    Some(out)
}

proof fn channel_bytes_hold(ch: Seq<i16>, f: int)
    requires
        0 <= f < ch.len(),
    ensures
        channel_bytes(ch).len() == 2 * ch.len(),
        sample_of(channel_bytes(ch)[2 * f], channel_bytes(ch)[2 * f + 1]) == ch[f],
    decreases ch.len(),
{
    reveal_with_fuel(channel_bytes, 2);
    if ch.len() > 1 {
        channel_bytes_hold(
            ch.drop_last(),
            if f < ch.len() - 1 {
                f
            } else {
                0
            },
        );
    }
    sample_round_trip(ch[f]);
}

proof fn all_bytes_length(channels: Seq<Seq<i16>>, frames: int)
    requires
        frames > 0,
        forall|c: int| 0 <= c < channels.len() ==> (#[trigger] channels[c]).len() == frames,
    ensures
        all_bytes(channels).len() == channels.len() * (frames * 2),
    decreases channels.len(),
{
    if channels.len() > 0 {
        let n = channels.len() as int;
        assert forall|c: int| 0 <= c < n - 1 implies (#[trigger] channels.drop_last()[c]).len()
            == frames by {
            assert(channels[c].len() == frames);
        }
        all_bytes_length(channels.drop_last(), frames);
        channel_bytes_hold(channels.last(), 0);
        assert(n * (frames * 2) == (n - 1) * (frames * 2) + frames * 2) by (nonlinear_arith);
    }
}

proof fn all_bytes_hold(channels: Seq<Seq<i16>>, frames: int, c: int, f: int)
    requires
        frames > 0,
        forall|d: int| 0 <= d < channels.len() ==> (#[trigger] channels[d]).len() == frames,
        0 <= c < channels.len(),
        0 <= f < frames,
    ensures
        ({
            let at = c * (frames * 2) + 2 * f;
            &&& 0 <= at
            &&& at + 1 < all_bytes(channels).len()
            &&& sample_of(all_bytes(channels)[at], all_bytes(channels)[at + 1]) == channels[c][f]
        }),
    decreases channels.len(),
{
    let n = channels.len() as int;
    let front = channels.drop_last();
    assert forall|d: int| 0 <= d < n - 1 implies (#[trigger] front[d]).len() == frames by {
        assert(channels[d].len() == frames);
    }
    all_bytes_length(front, frames);
    channel_bytes_hold(
        channels.last(),
        if c == n - 1 {
            f
        } else {
            0
        },
    );
    let at = c * (frames * 2) + 2 * f;
    assert(0 <= c * (frames * 2)) by (nonlinear_arith)
        requires
            0 <= c,
            0 < frames,
    ;
    if c < n - 1 {
        all_bytes_hold(front, frames, c, f);
        assert(all_bytes(channels)[at] == all_bytes(front)[at]);
        assert(all_bytes(channels)[at + 1] == all_bytes(front)[at + 1]);
    } else {
        assert(all_bytes(channels)[at] == channel_bytes(channels.last())[2 * f]);
        assert(all_bytes(channels)[at + 1] == channel_bytes(channels.last())[2 * f + 1]);
    }
}

proof fn header_holds(
    src_rate: u32,
    target_rate: u32,
    target_chans: ChannelCount,
    n_chans: u32,
    frames: u32,
    rest: Seq<u8>,
)
    ensures
        ({
            let b = header_bytes(src_rate, target_rate, target_chans, n_chans, frames) + rest;
            &&& b.len() == 28 + rest.len()
            &&& u32_of(b, 0) == CACHE_MAGIC
            &&& u32_of(b, 4) == CACHE_VERSION
            &&& u32_of(b, 8) == src_rate
            &&& u32_of(b, 12) == target_rate
            &&& u32_of(b, 16) == target_chans.channels()
            &&& u32_of(b, 20) == n_chans
            &&& u32_of(b, 24) == frames
        }),
{
    let b = header_bytes(src_rate, target_rate, target_chans, n_chans, frames) + rest;
    let words = seq![
        CACHE_MAGIC,
        CACHE_VERSION,
        src_rate,
        target_rate,
        target_chans.channels(),
        n_chans,
        frames,
    ];
    assert forall|i: int| 0 <= i < 7 implies u32_of(b, 4 * i) == #[trigger] words[i] by {
        let before = b.take(4 * i);
        let after = b.skip(4 * i + 4);
        assert(b =~= before + u32_bytes(words[i]) + after);
        u32_round_trip(words[i], before, after);
    }
    assert(words[0] == CACHE_MAGIC && words[1] == CACHE_VERSION && words[2] == src_rate
        && words[3] == target_rate && words[4] == target_chans.channels() && words[5] == n_chans
        && words[6] == frames);
}

/// A sample that has been cached for an output is found again there, frame by frame. For
/// any other output the file does not count.
pub proof fn cache_round_trip(
    channels: Seq<Seq<i16>>,
    src_rate: u32,
    target_rate: u32,
    target_chans: ChannelCount,
    other_rate: u32,
    other_chans: ChannelCount,
)
    requires
        can_be_cached(channels),
        channels.len() <= 8,
        channels[0].len() <= u32::MAX,
    ensures
        ({
            let b = cache_of(channels, src_rate, target_rate, target_chans);
            &&& is_cache_for(b, b.len() as int, other_rate, other_chans) <==> other_rate
                == target_rate && other_chans == target_chans
            &&& header_in(b).src_rate == src_rate
            &&& cached_channels(b, header_in(b)) == channels
        }),
{
    let n = channels.len() as int;
    let frames = channels[0].len() as int;
    let b = cache_of(channels, src_rate, target_rate, target_chans);
    let rest = all_bytes(channels);
    header_holds(src_rate, target_rate, target_chans, n as u32, frames as u32, rest);
    all_bytes_length(channels, frames);
    let header = header_bytes(src_rate, target_rate, target_chans, n as u32, frames as u32);
    assert forall|c: int, f: int|
        0 <= c < n && 0 <= f < frames implies #[trigger] cached_frame(b, frames, c, f)
        == channels[c][f] by {
        all_bytes_hold(channels, frames, c, f);
        let at = c * (frames * 2) + 2 * f;
        assert(b[28 + at] == rest[at]);
        assert(b[28 + at + 1] == rest[at + 1]);
    }
    let found = cached_channels(b, header_in(b));
    assert forall|c: int| 0 <= c < n implies #[trigger] found[c] == channels[c] by {
        assert(channels[c].len() == frames);
        assert forall|f: int| 0 <= f < frames implies #[trigger] found[c][f] == channels[c][f] by {
            assert(cached_frame(b, frames, c, f) == channels[c][f]);
        }
        assert(found[c] =~= channels[c]);
    }
    assert(found =~= channels);
}

/// The header is all of a cache file that has to be read to open it.
pub proof fn header_is_enough(
    b: Seq<u8>,
    n: int,
    target_rate: u32,
    target_chans: ChannelCount,
)
    requires
        CACHE_HEADER_BYTES <= n <= b.len(),
    ensures
        header_in(b.take(n)) == header_in(b),
        is_cache_for(b.take(n), b.len() as int, target_rate, target_chans) == is_cache_for(
            b,
            b.len() as int,
            target_rate,
            target_chans,
        ),
{
}


/// A cache file begins with a mark, its version, the rate of the recording, the rate and
/// the number of channels of the output, the number of channels and the number of frames,
/// each of them a 32-bit number. Behind them lie the frames, channel after channel.
pub proof fn cache_files_are_laid_out(
    channels: Seq<Seq<i16>>,
    src_rate: u32,
    target_rate: u32,
    target_chans: ChannelCount,
    c: int,
    f: int,
)
    requires
        can_be_cached(channels),
        channels.len() <= u32::MAX,
        channels[0].len() <= u32::MAX,
        0 <= c < channels.len(),
        0 <= f < channels[0].len(),
    ensures
        ({
            let b = cache_of(channels, src_rate, target_rate, target_chans);
            let at = 28 + c * (channels[0].len() * 2) + 2 * f;
            &&& b.len() == 28 + channels.len() * (channels[0].len() * 2)
            &&& u32_of(b, 0) == 0x5934_3458
            &&& u32_of(b, 4) == 2
            &&& u32_of(b, 8) == src_rate
            &&& u32_of(b, 12) == target_rate
            &&& u32_of(b, 16) == if target_chans == ChannelCount::Mono {
                1int
            } else {
                2
            }
            &&& u32_of(b, 20) == channels.len()
            &&& u32_of(b, 24) == channels[0].len()
            &&& sample_of(b[at], b[at + 1]) == channels[c][f]
        }),
{
    let n = channels.len() as int;
    let frames = channels[0].len() as int;
    let rest = all_bytes(channels);
    header_holds(src_rate, target_rate, target_chans, n as u32, frames as u32, rest);
    all_bytes_length(channels, frames);
    all_bytes_hold(channels, frames, c, f);
    let b = cache_of(channels, src_rate, target_rate, target_chans);
    let at = c * (frames * 2) + 2 * f;
    assert(b[28 + at] == rest[at]);
    assert(b[28 + at + 1] == rest[at + 1]);
}

/// A file counts as a cache file for an output only where its mark and its version are
/// right, it was made for this rate and number of channels, it has one to eight channels
/// and at least one frame, and all its frames are there. Every such file counts.
pub proof fn cache_files_are_recognised(
    b: Seq<u8>,
    length: int,
    target_rate: u32,
    target_chans: ChannelCount,
)
    ensures
        is_cache_for(b, length, target_rate, target_chans) <==> {
            &&& b.len() >= 28
            &&& u32_of(b, 0) == 0x5934_3458
            &&& u32_of(b, 4) == 2
            &&& u32_of(b, 12) == target_rate
            &&& u32_of(b, 16) == if target_chans == ChannelCount::Mono {
                1int
            } else {
                2
            }
            &&& 1 <= u32_of(b, 20) <= 8
            &&& 1 <= u32_of(b, 24)
            &&& 28 + u32_of(b, 20) * (u32_of(b, 24) * 2) <= length
        },
{
}

/// A cached sample has the channels and the frames that its header says, each frame at its
/// place behind the header.
pub proof fn cached_frames_lie_in_order(b: Seq<u8>, c: int, f: int)
    requires
        0 <= c < u32_of(b, 20),
        0 <= f < u32_of(b, 24),
    ensures
        ({
            let found = cached_channels(b, header_in(b));
            let at = 28 + c * (u32_of(b, 24) * 2) + 2 * f;
            &&& found.len() == u32_of(b, 20)
            &&& found[c].len() == u32_of(b, 24)
            &&& found[c][f] == sample_of(b[at], b[at + 1])
            &&& header_in(b).src_rate == u32_of(b, 8)
        }),
{
}

/// A sample that is read from its cache file while it plays has the same frames as one that
/// is read from it as a whole.
pub proof fn caches_stream_as_they_load(
    s: StreamedSampleSource,
    b: Seq<u8>,
    target_rate: u32,
    c: int,
)
    requires
        is_cache_source(s, header_in(b), target_rate),
        0 <= c < header_in(b).n_chans <= 8,
    ensures
        recorded(s, c, b) == cached_channels(b, header_in(b))[c],
        s.n_chans == cached_channels(b, header_in(b)).len(),
        s.data_rate == target_rate,
        s.src_rate == u32_of(b, 8),
{
    let h = header_in(b);
    channel_offsets_are_few(c, h.n_chans as int, h.frames as int);
    assert forall|f: int| 0 <= f < h.frames implies #[trigger] recorded(s, c, b)[f]
        == cached_channels(b, h)[c][f] by {
        assert(cached_channels(b, h)[c][f] == cached_frame(b, h.frames as int, c, f) as i16);
    }
    assert(recorded(s, c, b) =~= cached_channels(b, h)[c]);
}

} // verus!
