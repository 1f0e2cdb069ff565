//! How a sample gets into memory.
//!
//! What to read, decode and write next is decided here, from what came of the step
//! before. The steps themselves are left to the caller.

use super::cache::{
    cache_of, cache_round_trip, cached_channels, can_be_cached, channel_views, header_in,
    is_cache_for, is_cache_source, open_cache, read_cache, write_cache, DecodedSample,
};
use super::streaming::StreamedSampleSource;
use super::wav::{is_wav_source, open_wav, streams_as_wav};
use crate::bytes::{sample_from_bytes, sample_of};
use crate::text::{chars_of, lower_chars, lowered, spells};
use crate::{share, AudioStreamParams};
use std::sync::Arc;
use vstd::prelude::*;

verus! {

/// Why an audio file could not be loaded.
#[derive(Debug)]
pub enum AudioLoadError {
    /// Reading or writing failed, with what the system says of it.
    IOError(String),
    /// The file at the path could not be decoded, with what the decoder says of it.
    AudioDecodingFailed(String, String),
    /// The file at the path has a number of channels that cannot be.
    InvalidChannelCount(String),
    /// The file at the path has no tracks.
    NoTracks(String),
}

/// The extension of a file name is one of some words, in any case.
pub open spec fn has_extension(extension: Option<&str>, word: Seq<char>) -> bool {
    extension matches Some(e) && lowered(e@) == word
}

fn extension_is(extension: Option<&str>, word: &str) -> (r: bool)
    ensures
        r == has_extension(extension, word@),
{
    match extension {
        Some(e) => {
            let chars = chars_of(e);
            spells(&lower_chars(&chars), word)
        },
        None => false,
    }
}

/// Whether a file with the extension is one of those that can be decoded.
pub fn is_audio_ext(extension: Option<&str>) -> (r: bool)
    ensures
        r == (has_extension(extension, "flac"@) || has_extension(extension, "wav"@)
            || has_extension(extension, "ogg"@) || has_extension(extension, "aiff"@)
            || has_extension(extension, "aif"@)),
{
    extension_is(extension, "flac") || extension_is(extension, "wav") || extension_is(
        extension,
        "ogg",
    ) || extension_is(extension, "aiff") || extension_is(extension, "aif")
}

/// Whether a file with the extension may be read while it plays, without a cache.
pub fn is_wav_ext(extension: Option<&str>) -> (r: bool)
    ensures
        r == has_extension(extension, "wav"@),
{
    extension_is(extension, "wav")
}

/// The kinds of files that hold instruments.
#[derive(Debug, Clone, Copy, PartialEq, Eq, Structural)]
pub enum SoundfontKind {
    Sfz,
    Sf2,
}

/// The kind of a file with the extension, if it is one that is known.
pub fn soundfont_kind(extension: Option<&str>) -> (r: Option<SoundfontKind>)
    ensures
        r == (if has_extension(extension, "sfz"@) {
            Some(SoundfontKind::Sfz)
        } else if has_extension(extension, "sf2"@) {
            Some(SoundfontKind::Sf2)
        } else {
            None
        }),
{
    if extension_is(extension, "sfz") {
        Some(SoundfontKind::Sfz)
    } else if extension_is(extension, "sf2") {
        Some(SoundfontKind::Sf2)
    } else {
        None
    }
}

/// What has come of a step.
#[derive(Debug)]
pub enum LoadEvent {
    /// What the cache file of the sample holds; `None` where there is none, where it
    /// cannot be read, or where it is older than the sample.
    Cache(Option<Vec<u8>>),
    /// What the file has been decoded to.
    Decoded(Result<DecodedSample, AudioLoadError>),
}

/// What to do next.
#[derive(Debug)]
pub enum LoadAction {
    /// Decode the file.
    Decode,
    /// The sample is here. Where there are bytes, they are to be written to its cache
    /// file; it does no harm if that fails.
    Ready { sample: DecodedSample, cache: Option<Vec<u8>> },
    /// The sample cannot be loaded.
    Failed(AudioLoadError),
}

/// What the cache file holds for the output.
pub open spec fn hits(cache: Option<Vec<u8>>, params: AudioStreamParams) -> bool {
    cache matches Some(b) && is_cache_for(
        b@,
        b@.len() as int,
        params.sample_rate,
        params.channels,
    )
}

/// Each length of a sample is a 32-bit number.
pub open spec fn sample_fits(s: DecodedSample) -> bool {
    &&& s.channels@.len() <= u32::MAX
    &&& forall|c: int| 0 <= c < s.channels@.len() ==> (#[trigger] s.channels@[c])@.len() <= u32::MAX
}

/// The bytes are the cache file of a sample, where it can be cached.
pub open spec fn caches(
    cache: Option<Vec<u8>>,
    sample: DecodedSample,
    params: AudioStreamParams,
) -> bool {
    &&& cache is Some <==> can_be_cached(channel_views(sample.channels@))
    &&& cache matches Some(b) ==> b@ == cache_of(
        channel_views(sample.channels@),
        sample.src_rate,
        params.sample_rate,
        params.channels,
    )
}

/// This is what a load does after an event.
pub open spec fn loads(event: LoadEvent, params: AudioStreamParams, action: LoadAction) -> bool {
    match event {
        LoadEvent::Cache(cache) => if hits(cache, params) {
            &&& action matches LoadAction::Ready { sample, cache: again }
            &&& again is None
            &&& sample.src_rate == header_in(cache->0@).src_rate
            &&& channel_views(sample.channels@) == cached_channels(
                cache->0@,
                header_in(cache->0@),
            )
        } else {
            action is Decode
        },
        LoadEvent::Decoded(Ok(decoded)) => {
            &&& action matches LoadAction::Ready { sample, cache }
            &&& sample == decoded
            &&& caches(cache, decoded, params)
        },
        LoadEvent::Decoded(Err(e)) => action == LoadAction::Failed(e),
    }
}

/// Loads an audio file: from its cache file where that is one for the output, else by
/// decoding, after which there will be a cache file.
pub fn load_audio_file(event: LoadEvent, params: AudioStreamParams) -> (r: LoadAction)
    requires
        event matches LoadEvent::Decoded(Ok(s)) ==> sample_fits(s),
    ensures
        loads(event, params, r),
{
    match event {
        LoadEvent::Cache(cache) => {
            if let Some(bytes) = cache {
                if let Some(sample) = read_cache(
                    bytes.as_slice(),
                    params.sample_rate,
                    params.channels,
                ) {
                    return LoadAction::Ready { sample, cache: None };
                }
            }
            LoadAction::Decode
        },
        LoadEvent::Decoded(Ok(sample)) => {
            let cache = write_cache(&sample, params.sample_rate, params.channels);
            LoadAction::Ready { sample, cache }
        },
        LoadEvent::Decoded(Err(e)) => LoadAction::Failed(e),
    }
}

/// What has come of a step towards a cache file.
#[derive(Debug)]
pub enum PrebakeEvent {
    /// What the cache file holds; `None` where there is none, where it cannot be read, or
    /// where it is older than the sample.
    Before(Option<Vec<u8>>),
    /// What the file has been decoded to.
    Decoded(Result<DecodedSample, AudioLoadError>),
    /// What the cache file holds after it was to be written; `None` as before.
    After(Option<Vec<u8>>),
}

/// What to do next for a cache file.
#[derive(Debug)]
pub enum PrebakeAction {
    /// Decode the file.
    Decode,
    /// Write the cache file, and look at it again.
    Write(Vec<u8>),
    /// There is nothing more to do.
    Done(Result<(), AudioLoadError>),
}

/// This is what is done for a cache file after an event.
pub open spec fn bakes(
    event: PrebakeEvent,
    params: AudioStreamParams,
    action: PrebakeAction,
) -> bool {
    match event {
        PrebakeEvent::Before(cache) => if hits(cache, params) {
            action == PrebakeAction::Done(Ok(()))
        } else {
            action is Decode
        },
        PrebakeEvent::Decoded(Ok(decoded)) => if can_be_cached(
            channel_views(decoded.channels@),
        ) {
            action matches PrebakeAction::Write(b) && b@ == cache_of(
                channel_views(decoded.channels@),
                decoded.src_rate,
                params.sample_rate,
                params.channels,
            )
        } else {
            action matches PrebakeAction::Done(Err(AudioLoadError::IOError(m))) && m@
                == "pre-bake: the sample has no frames that a cache file could hold"@
        },
        PrebakeEvent::Decoded(Err(e)) => action == PrebakeAction::Done(Err(e)),
        PrebakeEvent::After(cache) => if hits(cache, params) {
            action == PrebakeAction::Done(Ok(()))
        } else {
            action matches PrebakeAction::Done(Err(AudioLoadError::IOError(m))) && m@
                == "pre-bake: cache file not present after decode pass"@
        },
    }
}

/// Makes the cache file of an audio file, where there is none that is current. It succeeds
/// only where the cache file holds a sample for the output and is not older than the file;
/// a sample without frames, or with channels of different lengths, has no cache file.
pub fn prebake_audio_cache(event: PrebakeEvent, params: AudioStreamParams) -> (r: PrebakeAction)
    requires
        event matches PrebakeEvent::Decoded(Ok(s)) ==> sample_fits(s),
    ensures
        bakes(event, params, r),
{
    match event {
        PrebakeEvent::Before(cache) => match load_audio_file(LoadEvent::Cache(cache), params) {
            LoadAction::Ready { sample: _, cache: _ } => PrebakeAction::Done(Ok(())),
            _ => PrebakeAction::Decode,
        },
        PrebakeEvent::Decoded(decoded) => match load_audio_file(
            LoadEvent::Decoded(decoded),
            params,
        ) {
            LoadAction::Ready { sample: _, cache: Some(bytes) } => PrebakeAction::Write(bytes),
            LoadAction::Failed(e) => PrebakeAction::Done(Err(e)),
            _ => PrebakeAction::Done(
                Err(
                    AudioLoadError::IOError(
                        "pre-bake: the sample has no frames that a cache file could hold".to_string(),
                    ),
                ),
            ),
        },
        PrebakeEvent::After(cache) => match load_audio_file(LoadEvent::Cache(cache), params) {
            LoadAction::Ready { sample: _, cache: _ } => PrebakeAction::Done(Ok(())),
            _ => PrebakeAction::Done(
                Err(
                    AudioLoadError::IOError(
                        "pre-bake: cache file not present after decode pass".to_string(),
                    ),
                ),
            ),
        },
    }
}

/// What to do next for a sample that is read while it plays.
#[derive(Debug)]
pub enum StreamedAction {
    /// Open the cache file.
    OpenCache,
    /// Make the cache file, and open it then.
    Build,
    /// The sample can be read.
    Ready(StreamedSampleSource),
    /// The sample cannot be loaded.
    Failed(AudioLoadError),
}

/// Opens the file itself, where its frames can be read as they are. `beginning` is the
/// beginning of the file; `None` where it cannot be read.
pub fn open_directly(
    extension: Option<&str>,
    beginning: &Option<Vec<u8>>,
    params: AudioStreamParams,
) -> (r: StreamedAction)
    requires
        beginning matches Some(b) ==> b@.len() <= u32::MAX,
    ensures
        r is Ready || r is OpenCache,
        r is Ready <==> has_extension(extension, "wav"@) && beginning is Some && streams_as_wav(
            beginning->0@,
            params.sample_rate,
        ),
        r matches StreamedAction::Ready(s) ==> s.wf() && is_wav_source(
            s,
            beginning->0@,
            params.sample_rate,
        ),
{
    if is_wav_ext(extension) {
        if let Some(b) = beginning {
            if let Some(source) = open_wav(b.as_slice(), params.sample_rate) {
                return StreamedAction::Ready(source);
            }
        }
    }
    StreamedAction::OpenCache
}

/// Opens the cache file of a sample, of `length` bytes. `beginning` is its beginning;
/// `None` where it cannot be read or is older than the sample. `built` tells that the
/// file has just been made.
pub fn open_cached(
    beginning: &Option<Vec<u8>>,
    length: u64,
    built: bool,
    params: AudioStreamParams,
) -> (r: StreamedAction)
    ensures
        r is Ready <==> beginning is Some && is_cache_for(
            beginning->0@,
            length as int,
            params.sample_rate,
            params.channels,
        ) && 2 * header_in(beginning->0@).frames <= usize::MAX,
        r matches StreamedAction::Ready(s) ==> s.wf() && is_cache_source(
            s,
            header_in(beginning->0@),
            params.sample_rate,
        ),
        !(r is Ready) ==> if built {
            r matches StreamedAction::Failed(AudioLoadError::IOError(m)) && m@
                == "streamed load: cache file not present after decode pass"@
        } else {
            r is Build
        },
{
    if let Some(b) = beginning {
        if let Some(source) = open_cache(
            b.as_slice(),
            length,
            params.sample_rate,
            params.channels,
        ) {
            return StreamedAction::Ready(source);
        }
    }
    if built {
        StreamedAction::Failed(
            AudioLoadError::IOError(
                "streamed load: cache file not present after decode pass".to_string(),
            ),
        )
    } else {
        StreamedAction::Build
    }
}

/// Every length of a sample is a 32-bit number.
pub fn can_be_stored(s: &DecodedSample) -> (r: bool)
    ensures
        r == sample_fits(*s),
{
    if s.channels.len() > u32::MAX as usize {
        return false;
    }
    let mut c: usize = 0;
    while c < s.channels.len()
        invariant
            c <= s.channels.len(),
            forall|d: int| 0 <= d < c ==> (#[trigger] s.channels@[d])@.len() <= u32::MAX,
        decreases s.channels.len() - c,
    {
        if s.channels[c].len() > u32::MAX as usize {
            return false;
        }
        c = c + 1;
    }
    true
}

/// One channel of a sample in memory.
#[derive(Debug)]
pub enum SampleStorage {
    /// The frames themselves.
    Heap(Arc<Vec<i16>>),
    /// The frames in the bytes of a file, from `byte_offset` on.
    Mapped { bytes: Arc<Vec<u8>>, byte_offset: usize, frames: usize },
}

impl View for SampleStorage {
    type V = Seq<i16>;

    open spec fn view(&self) -> Seq<i16> {
        match self {
            SampleStorage::Heap(a) => a@,
            SampleStorage::Mapped { bytes, byte_offset, frames } => Seq::new(
                *frames as nat,
                |f: int| sample_of(bytes@[byte_offset + 2 * f], bytes@[byte_offset + 2 * f + 1])
                    as i16,
            ),
        }
    }
}

impl Clone for SampleStorage {
    fn clone(&self) -> (r: Self)
        ensures
            r == *self,
    {
        match self {
            SampleStorage::Heap(a) => SampleStorage::Heap(share(a)),
            SampleStorage::Mapped { bytes, byte_offset, frames } => SampleStorage::Mapped {
                bytes: share(bytes),
                byte_offset: *byte_offset,
                frames: *frames,
            },
        }
    }
}

impl SampleStorage {
    /// All frames lie in the bytes.
    pub open spec fn wf(&self) -> bool {
        *self matches SampleStorage::Mapped { bytes, byte_offset, frames } ==> byte_offset + 2
            * frames <= bytes@.len()
    }

    pub fn from_heap(frames: Arc<Vec<i16>>) -> (r: SampleStorage)
        ensures
            r.wf(),
            r@ == frames@,
    {
        SampleStorage::Heap(frames)
    }

    pub fn from_mmap(bytes: Arc<Vec<u8>>, byte_offset: usize, frames: usize) -> (r: SampleStorage)
        requires
            byte_offset + 2 * frames <= bytes@.len(),
        ensures
            r.wf(),
            r@ == Seq::new(
                frames as nat,
                |f: int|
                    sample_of(bytes@[byte_offset + 2 * f], bytes@[byte_offset + 2 * f + 1]) as i16,
            ),
    {
        SampleStorage::Mapped { bytes, byte_offset, frames }
    }

    /// The frame at a position; silence where there is none.
    pub fn get(&self, pos: usize) -> (r: i16)
        requires
            self.wf(),
        ensures
            r == (if pos < self@.len() {
                self@[pos as int]
            } else {
                0
            }),
    {
        match self {
            SampleStorage::Heap(a) => if pos < a.len() {
                a[pos]
            } else {
                0
            },
            SampleStorage::Mapped { bytes, byte_offset, frames } => if pos < *frames {
                let end: usize = bytes.len();
                assert(*byte_offset + 2 * pos + 1 < end);
                sample_from_bytes(bytes[*byte_offset + 2 * pos], bytes[*byte_offset + 2 * pos + 1])
            } else {
                0
            },
        }
    }

    pub fn len(&self) -> (r: usize)
        ensures
            r == self@.len(),
    {
        match self {
            SampleStorage::Heap(a) => a.len(),
            SampleStorage::Mapped { bytes: _, byte_offset: _, frames } => *frames,
        }
    }

    pub fn is_empty(&self) -> (r: bool)
        ensures
            r == (self@.len() == 0),
    {
        self.len() == 0
    }
}


/// A sample whose cache file has been written is found in it again, as it was, for outputs
/// of the same rate and number of channels and for no others.
pub proof fn cached_samples_are_found_again(
    bytes: Vec<u8>,
    sample: DecodedSample,
    params: AudioStreamParams,
    other: AudioStreamParams,
)
    requires
        sample_fits(sample),
        sample.channels@.len() <= 8,
        caches(Some(bytes), sample, params),
    ensures
        hits(Some(bytes), other) <==> other.sample_rate == params.sample_rate && other.channels
            == params.channels,
        cached_channels(bytes@, header_in(bytes@)) == channel_views(sample.channels@),
        header_in(bytes@).src_rate == sample.src_rate,
        !hits(None, other),
{
    let channels = channel_views(sample.channels@);
    assert(channels[0] == sample.channels@[0]@);
    cache_round_trip(
        channels,
        sample.src_rate,
        params.sample_rate,
        params.channels,
        other.sample_rate,
        other.channels,
    );
}

/// A sample has a cache file exactly where it has a frame and its channels are of one length.
pub proof fn whole_samples_are_cached(
    cache: Option<Vec<u8>>,
    sample: DecodedSample,
    params: AudioStreamParams,
)
    requires
        caches(cache, sample, params),
        sample.channels@.len() > 0,
    ensures
        sample.channels@[0]@.len() == 0 ==> cache is None,
        (exists|c: int|
            0 <= c < sample.channels@.len() && (#[trigger] sample.channels@[c])@.len()
                != sample.channels@[0]@.len()) ==> cache is None,
        sample.channels@[0]@.len() > 0 && (forall|c: int|
            0 <= c < sample.channels@.len() ==> (#[trigger] sample.channels@[c])@.len()
                == sample.channels@[0]@.len()) ==> cache is Some,
{
    let channels = channel_views(sample.channels@);
    assert(forall|c: int|
        0 <= c < channels.len() ==> #[trigger] channels[c] == sample.channels@[c]@);
    assert(channels[0] == sample.channels@[0]@);
    if exists|c: int|
        0 <= c < sample.channels@.len() && (#[trigger] sample.channels@[c])@.len()
            != sample.channels@[0]@.len() {
        let c = choose|c: int|
            0 <= c < sample.channels@.len() && (#[trigger] sample.channels@[c])@.len()
                != sample.channels@[0]@.len();
        assert(channels[c].len() != channels[0].len());
    }
}

/// An extension is a word of small letters where each of its letters is that letter, small
/// or capital.
pub proof fn extensions_are_read_in_any_case(extension: &str, word: Seq<char>)
    requires
        forall|i: int| 0 <= i < word.len() ==> 'a' <= #[trigger] word[i] <= 'z',
    ensures
        has_extension(Some(extension), word) <==> extension@.len() == word.len() && forall|i: int|
            0 <= i < word.len() ==> (#[trigger] extension@[i]) == word[i] || extension@[i] as int
                + 32 == word[i] as int,
        !has_extension(None, word),
{
    let low = lowered(extension@);
    if extension@.len() == word.len() && forall|i: int|
        0 <= i < word.len() ==> (#[trigger] extension@[i]) == word[i] || extension@[i] as int + 32
            == word[i] as int {
        assert(low =~= word);
    }
    if low == word {
        assert forall|i: int| 0 <= i < word.len() implies (#[trigger] extension@[i]) == word[i]
            || extension@[i] as int + 32 == word[i] as int by {
            assert(low[i] == word[i]);
        }
    }
}

/// The frames of a sample in the bytes of a file lie there one after the other, two bytes
/// each.
pub proof fn mapped_frames_lie_in_a_row(
    bytes: Arc<Vec<u8>>,
    byte_offset: usize,
    frames: usize,
    f: int,
)
    requires
        0 <= f < frames,
    ensures
        (SampleStorage::Mapped { bytes, byte_offset, frames })@.len() == frames,
        (SampleStorage::Mapped { bytes, byte_offset, frames })@[f] == sample_of(
            bytes@[byte_offset + 2 * f],
            bytes@[byte_offset + 2 * f + 1],
        ),
{
}


/// A sample that was decoded, and whose cache file was written then, is loaded from that file
/// the next time, with the same channels and the same rate, and without being decoded. For
/// another output it is decoded again.
pub proof fn samples_are_decoded_once(
    decoded: DecodedSample,
    params: AudioStreamParams,
    first: LoadAction,
    other: AudioStreamParams,
    second: LoadAction,
)
    requires
        sample_fits(decoded),
        decoded.channels@.len() <= 8,
        loads(LoadEvent::Decoded(Ok(decoded)), params, first),
        first matches LoadAction::Ready { sample: _, cache } && cache is Some && loads(
            LoadEvent::Cache(cache),
            other,
            second,
        ),
    ensures
        first matches LoadAction::Ready { sample, cache: _ } && sample == decoded,
        other.sample_rate == params.sample_rate && other.channels == params.channels ==> {
            &&& second matches LoadAction::Ready { sample, cache: None }
            &&& channel_views(sample.channels@) == channel_views(decoded.channels@)
            &&& sample.src_rate == decoded.src_rate
        },
        other.sample_rate != params.sample_rate || other.channels != params.channels
            ==> second is Decode,
{
    if let LoadAction::Ready { sample, cache } = first {
        cached_samples_are_found_again(cache->0, decoded, params, other);
    }
}

/// A file without a cache file is decoded, and a fault in decoding is the fault of the load.
pub proof fn faults_in_decoding_are_passed_on(
    e: AudioLoadError,
    params: AudioStreamParams,
    first: LoadAction,
    second: LoadAction,
    third: PrebakeAction,
    fourth: PrebakeAction,
)
    requires
        loads(LoadEvent::Cache(None), params, first),
        loads(LoadEvent::Decoded(Err(e)), params, second),
        bakes(PrebakeEvent::Before(None), params, third),
        bakes(PrebakeEvent::Decoded(Err(e)), params, fourth),
    ensures
        first is Decode,
        second == LoadAction::Failed(e),
        third is Decode,
        fourth == PrebakeAction::Done(Err(e)),
{
}

/// A cache file that is made in advance is one from which the sample is loaded, and which
/// does not have to be made again. Where there is none afterwards, making it has failed.
pub proof fn baked_caches_are_used(
    decoded: DecodedSample,
    params: AudioStreamParams,
    made: PrebakeAction,
    after: PrebakeAction,
    again: PrebakeAction,
    loaded: LoadAction,
    missing: PrebakeAction,
)
    requires
        sample_fits(decoded),
        decoded.channels@.len() <= 8,
        can_be_cached(channel_views(decoded.channels@)),
        bakes(PrebakeEvent::Decoded(Ok(decoded)), params, made),
        made matches PrebakeAction::Write(b) ==> {
            &&& bakes(PrebakeEvent::After(Some(b)), params, after)
            &&& bakes(PrebakeEvent::Before(Some(b)), params, again)
            &&& loads(LoadEvent::Cache(Some(b)), params, loaded)
        },
        bakes(PrebakeEvent::After(None), params, missing),
    ensures
        made is Write,
        after == PrebakeAction::Done(Ok(())),
        again == PrebakeAction::Done(Ok(())),
        loaded matches LoadAction::Ready { sample, cache: _ } && channel_views(sample.channels@)
            == channel_views(decoded.channels@),
        missing matches PrebakeAction::Done(Err(_)),
{
    if let PrebakeAction::Write(b) = made {
        cached_samples_are_found_again(b, decoded, params, params);
    }
}

} // verus!
