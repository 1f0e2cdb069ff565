//! WAV files.

use super::streaming::{recorded, SampleLayout, StreamedSampleSource};
use crate::bytes::{
    push_sample, push_u16, push_u32, sample_bytes, sample_of, sample_round_trip, u16_at, u16_bytes,
    u16_of, u16_round_trip, u32_at, u32_bytes, u32_of, u32_round_trip,
};
use vstd::prelude::*;

verus! {

/// The format of the frames in a WAV file.
#[derive(Debug, Clone, Copy, PartialEq, Eq, Structural)]
pub struct WavFormat {
    /// 1 for integers, 3 for floating-point numbers.
    pub format_tag: u16,
    pub n_chans: u16,
    pub sample_rate: u32,
    pub bits_per_sample: u16,
}

/// Where the frames of a WAV file lie.
#[derive(Debug, Clone, Copy, PartialEq, Eq, Structural)]
pub struct WavData {
    pub offset: u64,
    pub byte_len: u32,
}

/// The bytes at `at` are the given four.
pub open spec fn tag_at(b: Seq<u8>, at: int, tag: [u8; 4]) -> bool {
    b[at] == tag[0] && b[at + 1] == tag[1] && b[at + 2] == tag[2] && b[at + 3] == tag[3]
}

/// The letters "RIFF".
pub const RIFF: [u8; 4] = [0x52, 0x49, 0x46, 0x46];

/// The letters "WAVE".
pub const WAVE: [u8; 4] = [0x57, 0x41, 0x56, 0x45];

/// The letters "fmt ".
pub const FMT: [u8; 4] = [0x66, 0x6d, 0x74, 0x20];

/// The letters "data".
pub const DATA: [u8; 4] = [0x64, 0x61, 0x74, 0x61];

pub(crate) fn has_tag(b: &[u8], at: usize, tag: [u8; 4]) -> (r: bool)
    requires
        at + 4 <= b@.len(),
    ensures
        r == tag_at(b@, at as int, tag),
{
    b[at] == tag[0] && b[at + 1] == tag[1] && b[at + 2] == tag[2] && b[at + 3] == tag[3]
}

/// The format that a chunk at `pos` holds.
pub open spec fn format_at(b: Seq<u8>, pos: int) -> WavFormat {
    WavFormat {
        format_tag: u16_of(b, pos + 8) as u16,
        n_chans: u16_of(b, pos + 10) as u16,
        sample_rate: u32_of(b, pos + 12) as u32,
        bits_per_sample: u16_of(b, pos + 22) as u16,
    }
}

/// What the chunks from `pos` on say: the last format before the frames, and where the
/// frames lie. A chunk is a tag of four bytes, its size, and as many bytes more.
pub open spec fn scanned(b: Seq<u8>, pos: int, format: Option<WavFormat>) -> (
    Option<WavFormat>,
    Option<WavData>,
)
    decreases
            if pos > b.len() {
                0
            } else {
                b.len() - pos
            },
{
    if pos < 0 || pos + 8 > b.len() {
        (format, None)
    } else {
        let size = u32_of(b, pos + 4);
        if tag_at(b, pos, FMT) && pos + 24 <= b.len() {
            scanned(b, pos + 8 + size, Some(format_at(b, pos)))
        } else if tag_at(b, pos, DATA) {
            (format, Some(WavData { offset: (pos + 8) as u64, byte_len: size as u32 }))
        } else {
            scanned(b, pos + 8 + size, format)
        }
    }
}

/// Looks for the format and the frames of a WAV file in the chunks at its beginning.
fn scan_chunks(b: &[u8]) -> (r: (Option<WavFormat>, Option<WavData>))
    requires
        b@.len() >= 12,
    ensures
        r == scanned(b@, 12, None),
{
    let n: u64 = b.len() as u64;
    let mut pos: u64 = 12;
    let mut format: Option<WavFormat> = None;
    while n >= 8 && pos <= n - 8
        invariant
            n == b@.len(),
            n <= usize::MAX,
            12 <= pos,
            scanned(b@, 12, None) == scanned(b@, pos as int, format),
            pos <= n,
        decreases n - pos,
    {
        let at: usize = pos as usize;
        let size: u32 = u32_at(b, at + 4);
        if has_tag(b, at, FMT) && n - pos >= 24 {
            format = Some(
                WavFormat {
                    format_tag: u16_at(b, at + 8),
                    n_chans: u16_at(b, at + 10),
                    sample_rate: u32_at(b, at + 12),
                    bits_per_sample: u16_at(b, at + 22),
                },
            );
        } else if has_tag(b, at, DATA) {
            return (format, Some(WavData { offset: pos + 8, byte_len: size }));
        }
        if size as u64 > n - 8 - pos {
            assert(scanned(b@, pos + 8 + size, format) == (format, None::<WavData>));
            return (format, None);
        }
        pos = pos + 8 + size as u64;
    }
    (format, None)
}

/// How many frames of a format some bytes hold.
pub open spec fn frames_in(format: WavFormat, byte_len: u32) -> int {
    byte_len as int / (format.n_chans * 2)
}

/// The frames can be read as they are: 16-bit integers at the rate of the output, one or
/// two channels, and at least one frame.
pub open spec fn can_stream(format: WavFormat, data: WavData, target_rate: u32) -> bool {
    &&& format.format_tag == 1
    &&& format.bits_per_sample == 16
    &&& format.sample_rate == target_rate
    &&& 1 <= format.n_chans <= 2
    &&& frames_in(format, data.byte_len) > 0
}

/// What the beginning of a file says, if it is that of a WAV file.
pub open spec fn wav_in(b: Seq<u8>) -> Option<(WavFormat, WavData)> {
    if b.len() >= 44 && tag_at(b, 0, RIFF) && tag_at(b, 8, WAVE) {
        match scanned(b, 12, None) {
            (Some(format), Some(data)) => Some((format, data)),
            _ => None,
        }
    } else {
        None
    }
}

/// The bytes begin a WAV file whose frames can be read as they are.
pub open spec fn streams_as_wav(b: Seq<u8>, target_rate: u32) -> bool {
    wav_in(b) matches Some((format, data)) && can_stream(format, data, target_rate)
}

/// The sample reads the frames of a WAV file as they are.
pub open spec fn is_wav_source(s: StreamedSampleSource, b: Seq<u8>, target_rate: u32) -> bool {
    let (format, data) = wav_in(b)->0;
    &&& s.frames == frames_in(format, data.byte_len)
    &&& s.n_chans == format.n_chans
    &&& s.src_rate == target_rate
    &&& s.data_rate == target_rate
    &&& s.layout matches SampleLayout::Interleaved { data_byte_offset, frame_bytes }
    &&& data_byte_offset == data.offset
    &&& frame_bytes == format.n_chans * 2
}

/// Opens a WAV file for reading while it plays. `bytes` is its beginning.
pub fn open_wav(bytes: &[u8], target_rate: u32) -> (r: Option<StreamedSampleSource>)
    requires
        bytes@.len() <= u32::MAX,
    ensures
        r is Some <==> streams_as_wav(bytes@, target_rate),
        r matches Some(s) ==> s.wf() && is_wav_source(s, bytes@, target_rate),
{
    if bytes.len() < 44 || !has_tag(bytes, 0, RIFF) || !has_tag(bytes, 8, WAVE) {
        return None;
    }
    let (format, data) = match scan_chunks(bytes) {
        (Some(format), Some(data)) => (format, data),
        _ => {
            return None;
        },
    };
    if format.format_tag != 1 || format.bits_per_sample != 16 || format.sample_rate != target_rate
        || format.n_chans == 0 || format.n_chans > 2 {
        return None;
    }
    let frame_bytes: u32 = format.n_chans as u32 * 2;
    let frames: u32 = data.byte_len / frame_bytes;
    if frames == 0 {
        return None;
    }
    proof {
        assert(0 <= frames * frame_bytes <= data.byte_len) by (nonlinear_arith)
            requires
                frame_bytes > 0,
                frames == data.byte_len / frame_bytes,
        ;
        data_lies_early(bytes@, 12, None);
    }
    Some(
        StreamedSampleSource {
            layout: SampleLayout::Interleaved { data_byte_offset: data.offset, frame_bytes },
            frames: frames as usize,
            n_chans: format.n_chans as usize,
            src_rate: target_rate,
            data_rate: target_rate,
        },
    )
}

proof fn data_lies_early(b: Seq<u8>, pos: int, format: Option<WavFormat>)
    requires
        0 <= pos,
        b.len() <= u32::MAX,
    ensures
        scanned(b, pos, format).1 matches Some(data) ==> data.offset <= b.len(),
    decreases
            if pos > b.len() {
                0
            } else {
                b.len() - pos
            },
{
    if pos + 8 <= b.len() {
        let size = u32_of(b, pos + 4);
        if tag_at(b, pos, FMT) && pos + 24 <= b.len() {
            data_lies_early(b, pos + 8 + size, Some(format_at(b, pos)));
        } else if !tag_at(b, pos, DATA) {
            data_lies_early(b, pos + 8 + size, format);
        }
    }
}

/// The header of a WAV file with two channels, in front of `data_size` bytes of frames.
pub open spec fn wav_header_of(
    format_tag: u16,
    bits: u16,
    sample_rate: u32,
    data_size: u32,
) -> Seq<u8> {
    RIFF@ + u32_bytes((36 + data_size) as u32) + WAVE@ + FMT@ + u32_bytes(16) + u16_bytes(
        format_tag,
    ) + u16_bytes(2) + u32_bytes(sample_rate) + u32_bytes((sample_rate * (2 * (bits / 8))) as u32)
        + u16_bytes((2 * (bits / 8)) as u16) + u16_bytes(bits) + DATA@ + u32_bytes(data_size)
}

fn push_tag(out: &mut Vec<u8>, tag: [u8; 4])
    ensures
        final(out)@ == old(out)@ + tag@,
{
    let ghost before = out@;
    out.push(tag[0]);
    out.push(tag[1]);
    out.push(tag[2]);
    out.push(tag[3]);
    assert(out@ =~= before + tag@);
}

/// The header of a WAV file with two channels, in front of `data_size` bytes of frames of
/// 16 or 32 bits.
pub fn wav_header(format_tag: u16, bits: u16, sample_rate: u32, data_size: u32) -> (r: Vec<u8>)
    requires
        bits == 16 || bits == 32,
        sample_rate * (2 * (bits / 8)) <= u32::MAX,
        36 + data_size <= u32::MAX,
    ensures
        r@ == wav_header_of(format_tag, bits, sample_rate, data_size),
{
    let block_align: u16 = 2 * (bits / 8);
    let mut out: Vec<u8> = Vec::new();
    assert(block_align == 4 || block_align == 8);
    assert(sample_rate * block_align == sample_rate * (2 * (bits / 8)));
    let byte_rate: u32 = sample_rate * block_align as u32;
    push_tag(&mut out, RIFF);
    push_u32(&mut out, 36 + data_size);
    push_tag(&mut out, WAVE);
    push_tag(&mut out, FMT);
    push_u32(&mut out, 16);
    push_u16(&mut out, format_tag);
    push_u16(&mut out, 2);
    push_u32(&mut out, sample_rate);
    push_u32(&mut out, byte_rate);
    push_u16(&mut out, block_align);
    push_u16(&mut out, bits);
    push_tag(&mut out, DATA);
    push_u32(&mut out, data_size);
    assert(out@ =~= wav_header_of(format_tag, bits, sample_rate, data_size));
    out
}

/// The bytes of samples.
pub open spec fn samples_bytes(samples: Seq<i16>) -> Seq<u8>
    decreases samples.len(),
{
    if samples.len() == 0 {
        Seq::empty()
    } else {
        samples_bytes(samples.drop_last()) + sample_bytes(samples.last())
    }
}

/// A WAV file with the 16-bit samples of two channels in turn.
pub fn write_wav_i16(samples: &Vec<i16>, sample_rate: u32) -> (r: Vec<u8>)
    requires
        sample_rate * 4 <= u32::MAX,
        36 + samples.len() * 2 <= u32::MAX,
    ensures
        r@ == wav_header_of(1, 16, sample_rate, (samples.len() * 2) as u32) + samples_bytes(
            samples@,
        ),
{
    let size: u32 = samples.len() as u32 * 2;
    let mut out = wav_header(1, 16, sample_rate, size);
    let ghost header = out@;
    let mut i: usize = 0;
    assert(out@ =~= header + samples_bytes(samples@.take(0)));
    while i < samples.len()
        invariant
            i <= samples.len(),
            out@ == header + samples_bytes(samples@.take(i as int)),
        decreases samples.len() - i,
    {
        push_sample(&mut out, samples[i]);
        i = i + 1;
        assert(samples@.take(i as int).drop_last() =~= samples@.take(i - 1));
        assert(out@ =~= header + samples_bytes(samples@.take(i as int)));
    }
    assert(samples@.take(i as int) =~= samples@);
    out
}

/// The bytes of samples of 32 bits.
pub open spec fn words_bytes(samples: Seq<u32>) -> Seq<u8>
    decreases samples.len(),
{
    if samples.len() == 0 {
        Seq::empty()
    } else {
        words_bytes(samples.drop_last()) + u32_bytes(samples.last())
    }
}

/// A WAV file with the floating-point samples of two channels in turn, each of them given by
/// its 32 bits.
pub fn write_wav_f32(samples: &Vec<u32>, sample_rate: u32) -> (r: Vec<u8>)
    requires
        sample_rate * 8 <= u32::MAX,
        36 + samples.len() * 4 <= u32::MAX,
    ensures
        r@ == wav_header_of(3, 32, sample_rate, (samples.len() * 4) as u32) + words_bytes(samples@),
{
    let size: u32 = samples.len() as u32 * 4;
    let mut out = wav_header(3, 32, sample_rate, size);
    let ghost header = out@;
    let mut i: usize = 0;
    assert(out@ =~= header + words_bytes(samples@.take(0)));
    while i < samples.len()
        invariant
            i <= samples.len(),
            out@ == header + words_bytes(samples@.take(i as int)),
        decreases samples.len() - i,
    {
        push_u32(&mut out, samples[i]);
        i = i + 1;
        assert(samples@.take(i as int).drop_last() =~= samples@.take(i - 1));
        assert(out@ =~= header + words_bytes(samples@.take(i as int)));
    }
    assert(samples@.take(i as int) =~= samples@);
    out
}

/// A WAV file is read back as it was written: its format, and where its frames lie. One
/// of 16-bit integers can be read while it plays wherever it has a frame and the rate is
/// that of the output.
#[verifier::rlimit(50)]
pub proof fn wav_round_trip(
    format_tag: u16,
    bits: u16,
    sample_rate: u32,
    data_size: u32,
    frames: Seq<u8>,
    target_rate: u32,
)
    requires
        bits == 16 || bits == 32,
        sample_rate * (2 * (bits / 8)) <= u32::MAX,
        36 + data_size <= u32::MAX,
    ensures
        ({
            let b = wav_header_of(format_tag, bits, sample_rate, data_size) + frames;
            let format = WavFormat {
                format_tag,
                n_chans: 2,
                sample_rate,
                bits_per_sample: bits,
            };
            let data = WavData { offset: 44, byte_len: data_size };
            &&& wav_in(b) == Some((format, data))
            &&& streams_as_wav(b, target_rate) <==> format_tag == 1 && bits == 16 && sample_rate
                == target_rate && data_size >= 4
        }),
{
    let b = wav_header_of(format_tag, bits, sample_rate, data_size) + frames;
    assert(b.len() == 44 + frames.len());
    assert(b =~= b.take(16) + u32_bytes(16) + b.skip(20));
    u32_round_trip(16, b.take(16), b.skip(20));
    assert(b =~= b.take(20) + u16_bytes(format_tag) + b.skip(22));
    u16_round_trip(format_tag, b.take(20), b.skip(22));
    assert(b =~= b.take(22) + u16_bytes(2) + b.skip(24));
    u16_round_trip(2, b.take(22), b.skip(24));
    assert(b =~= b.take(24) + u32_bytes(sample_rate) + b.skip(28));
    u32_round_trip(sample_rate, b.take(24), b.skip(28));
    assert(b =~= b.take(34) + u16_bytes(bits) + b.skip(36));
    u16_round_trip(bits, b.take(34), b.skip(36));
    assert(b =~= b.take(40) + u32_bytes(data_size) + b.skip(44));
    u32_round_trip(data_size, b.take(40), b.skip(44));
    assert(tag_at(b, 0, RIFF));
    assert(tag_at(b, 8, WAVE));
    assert(tag_at(b, 12, FMT));
    assert(tag_at(b, 36, DATA));
    assert(!tag_at(b, 36, FMT));
    let format = format_at(b, 12);
    assert(scanned(b, 36, Some(format)) == (
        Some(format),
        Some(WavData { offset: 44, byte_len: data_size }),
    ));
    assert(scanned(b, 12, None) == scanned(b, 36, Some(format)));
}


/// The header of a WAV file is laid out as such files are: the letters of its chunks, their
/// sizes, and the numbers of its format, two channels with a frame of both at a time.
#[verifier::rlimit(50)]
pub proof fn wav_headers_are_laid_out(
    format_tag: u16,
    bits: u16,
    sample_rate: u32,
    data_size: u32,
)
    requires
        bits == 16 || bits == 32,
        sample_rate * (2 * (bits / 8)) <= u32::MAX,
        36 + data_size <= u32::MAX,
    ensures
        ({
            let b = wav_header_of(format_tag, bits, sample_rate, data_size);
            let bytes_per_frame: int = if bits == 16 {
                4
            } else {
                8
            };
            &&& b.len() == 44
            &&& b[0] == 0x52 && b[1] == 0x49 && b[2] == 0x46 && b[3] == 0x46
            &&& u32_of(b, 4) == 36 + data_size
            &&& b[8] == 0x57 && b[9] == 0x41 && b[10] == 0x56 && b[11] == 0x45
            &&& b[12] == 0x66 && b[13] == 0x6d && b[14] == 0x74 && b[15] == 0x20
            &&& u32_of(b, 16) == 16
            &&& u16_of(b, 20) == format_tag
            &&& u16_of(b, 22) == 2
            &&& u32_of(b, 24) == sample_rate
            &&& u32_of(b, 28) == sample_rate * bytes_per_frame
            &&& u16_of(b, 32) == bytes_per_frame
            &&& u16_of(b, 34) == bits
            &&& b[36] == 0x64 && b[37] == 0x61 && b[38] == 0x74 && b[39] == 0x61
            &&& u32_of(b, 40) == data_size
        }),
{
    let b = wav_header_of(format_tag, bits, sample_rate, data_size);
    let align = (2 * (bits / 8)) as u16;
    let rate = (sample_rate * (2 * (bits / 8))) as u32;
    assert(align == 4 || align == 8);
    assert(b =~= b.take(4) + u32_bytes((36 + data_size) as u32) + b.skip(8));
    u32_round_trip((36 + data_size) as u32, b.take(4), b.skip(8));
    assert(b =~= b.take(16) + u32_bytes(16) + b.skip(20));
    u32_round_trip(16, b.take(16), b.skip(20));
    assert(b =~= b.take(20) + u16_bytes(format_tag) + b.skip(22));
    u16_round_trip(format_tag, b.take(20), b.skip(22));
    assert(b =~= b.take(22) + u16_bytes(2) + b.skip(24));
    u16_round_trip(2, b.take(22), b.skip(24));
    assert(b =~= b.take(24) + u32_bytes(sample_rate) + b.skip(28));
    u32_round_trip(sample_rate, b.take(24), b.skip(28));
    assert(b =~= b.take(28) + u32_bytes(rate) + b.skip(32));
    u32_round_trip(rate, b.take(28), b.skip(32));
    assert(b =~= b.take(32) + u16_bytes(align) + b.skip(34));
    u16_round_trip(align, b.take(32), b.skip(34));
    assert(b =~= b.take(34) + u16_bytes(bits) + b.skip(36));
    u16_round_trip(bits, b.take(34), b.skip(36));
    assert(b =~= b.take(40) + u32_bytes(data_size) + b.skip(44));
    u32_round_trip(data_size, b.take(40), b.skip(44));
}

/// The samples of a WAV file are written one after the other, two bytes each.
pub proof fn written_samples_are_read_back(samples: Seq<i16>, i: int)
    requires
        0 <= i < samples.len(),
    ensures
        samples_bytes(samples).len() == 2 * samples.len(),
        sample_of(samples_bytes(samples)[2 * i], samples_bytes(samples)[2 * i + 1]) == samples[i],
    decreases samples.len(),
{
    reveal_with_fuel(samples_bytes, 2);
    let before = samples.drop_last();
    sample_round_trip(samples.last());
    if i < samples.len() - 1 {
        written_samples_are_read_back(before, i);
    } else if samples.len() > 1 {
        written_samples_are_read_back(before, 0);
    }
}

/// The samples of 32 bits of a WAV file are written one after the other, four bytes each.
pub proof fn written_words_are_read_back(samples: Seq<u32>, i: int)
    requires
        0 <= i < samples.len(),
    ensures
        words_bytes(samples).len() == 4 * samples.len(),
        u32_of(words_bytes(samples), 4 * i) == samples[i],
    decreases samples.len(),
{
    let before = samples.drop_last();
    let all = words_bytes(samples);
    if samples.len() > 1 {
        written_words_are_read_back(
            before,
            if i < samples.len() - 1 {
                i
            } else {
                0
            },
        );
    }
    u32_round_trip(samples.last(), words_bytes(before), Seq::empty());
    assert(all =~= words_bytes(before) + u32_bytes(samples.last()) + Seq::empty());
}

/// A chunk of a WAV file that is neither a format nor the frames says nothing. A chunk with a
/// format counts until the next one, and the first chunk with frames ends the search.
pub proof fn chunks_are_read_in_turn(b: Seq<u8>, pos: int, format: Option<WavFormat>)
    requires
        0 <= pos,
        pos + 24 <= b.len(),
    ensures
        ({
            let is_format = b[pos] == 0x66 && b[pos + 1] == 0x6d && b[pos + 2] == 0x74 && b[pos + 3]
                == 0x20;
            let is_data = b[pos] == 0x64 && b[pos + 1] == 0x61 && b[pos + 2] == 0x74 && b[pos + 3]
                == 0x61;
            let size = u32_of(b, pos + 4);
            let next = pos + 8 + size;
            &&& !is_format && !is_data ==> scanned(b, pos, format) == scanned(b, next, format)
            &&& is_format ==> exists|found: WavFormat|
                {
                    &&& #[trigger] scanned(b, next, Some(found)) == scanned(b, pos, format)
                    &&& found.format_tag == u16_of(b, pos + 8)
                    &&& found.n_chans == u16_of(b, pos + 10)
                    &&& found.sample_rate == u32_of(b, pos + 12)
                    &&& found.bits_per_sample == u16_of(b, pos + 22)
                }
            &&& is_data && pos + 8 <= u64::MAX ==> {
                let (before, data) = scanned(b, pos, format);
                &&& before == format
                &&& data matches Some(d)
                &&& d.offset == pos + 8
                &&& d.byte_len == size
            }
        }),
{
    let next = pos + 8 + u32_of(b, pos + 4);
    if tag_at(b, pos, FMT) {
        assert(scanned(b, next, Some(format_at(b, pos))) == scanned(b, pos, format));
    }
}

/// A WAV file can be read while it plays exactly where its frames are 16-bit integers at the
/// rate of the output, of one channel or two, and there is a whole frame.
pub proof fn plain_wavs_are_streamed(b: Seq<u8>, target_rate: u32)
    ensures
        wav_in(b) is None ==> !streams_as_wav(b, target_rate),
        wav_in(b) matches Some((format, data)) ==> (streams_as_wav(b, target_rate) <==> {
            &&& format.format_tag == 1
            &&& format.bits_per_sample == 16
            &&& format.sample_rate == target_rate
            &&& format.n_chans == 1 || format.n_chans == 2
            &&& data.byte_len >= 2 * format.n_chans
        }),
        b.len() < 44 ==> wav_in(b) is None,
        wav_in(b) is Some ==> b[0] == 0x52 && b[1] == 0x49 && b[2] == 0x46 && b[3] == 0x46 && b[8]
            == 0x57 && b[9] == 0x41 && b[10] == 0x56 && b[11] == 0x45,
{
    if let Some((format, data)) = wav_in(b) {
        let len = data.byte_len as int;
        let n = format.n_chans as int;
        assert(n > 0 ==> (len / (n * 2) > 0 <==> len >= 2 * n)) by (nonlinear_arith)
            requires
                len >= 0,
        ;
    }
}

/// A WAV file that is read while it plays has the whole frames of its data, the samples of
/// its channels in turn.
pub proof fn streamed_wavs_hold_their_frames(
    s: StreamedSampleSource,
    beginning: Seq<u8>,
    file: Seq<u8>,
    target_rate: u32,
    c: int,
    f: int,
)
    requires
        streams_as_wav(beginning, target_rate),
        is_wav_source(s, beginning, target_rate),
        0 <= c < s.n_chans,
        0 <= f < s.frames,
    ensures
        ({
            let (format, data) = wav_in(beginning)->0;
            let at = data.offset + 2 * (f * format.n_chans + c);
            &&& s.n_chans == format.n_chans
            &&& s.src_rate == target_rate && s.data_rate == target_rate
            &&& s.frames * (2 * format.n_chans) <= data.byte_len
            &&& data.byte_len < (s.frames + 1) * (2 * format.n_chans)
            &&& recorded(s, c, file)[f] == sample_of(file[at], file[at + 1])
        }),
{
    let (format, data) = wav_in(beginning)->0;
    let n = format.n_chans as int;
    let len = data.byte_len as int;
    let q = s.frames as int;
    assert(q * (2 * n) <= len < (q + 1) * (2 * n)) by (nonlinear_arith)
        requires
            q == len / (n * 2),
            n > 0,
    ;
    assert(f * (n * 2) + 2 * c == 2 * (f * n + c)) by (nonlinear_arith);
}

} // verus!
