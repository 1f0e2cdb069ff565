//! The steps in which an SFZ instrument is loaded.
//!
//! What comes next is decided here, from what came of the step before and from whether the
//! load has been cancelled meanwhile. The steps themselves are left to the caller.

use super::audio::AudioLoadError;
use super::load::{
    active_regions, distinct_samples, head_needs, instruments_have_what_sounds, keyswitch_from,
    lists_sample, needs_of, places, samples_are_loaded_once, sounding, unique_samples, HeadNeed,
    RegionFrames,
};
use crate::sfz::params::RegionParams;
use crate::sfz::resolver::SfzParseError;
use vstd::prelude::*;

verus! {

/// Why an SFZ instrument could not be loaded.
#[derive(Debug)]
pub enum LoadSfzError {
    /// A sample could not be opened.
    AudioLoadError(AudioLoadError),
    /// The file could not be read.
    SfzParseError(SfzParseError),
    /// The load was cancelled.
    Cancelled,
}

/// What a load waits for.
#[derive(Debug, Clone, Copy, PartialEq, Eq, Structural)]
pub enum SfzStage {
    /// The load has not begun.
    New,
    /// The regions of the file.
    Reading,
    /// The sample at this place among the different samples.
    Opening(usize),
    /// Where the regions lie in their samples.
    Converting,
    /// The head at this place among those that are needed.
    Heads(usize),
    /// Nothing: the load is complete, or has failed.
    Over,
}

/// A load of an SFZ instrument.
#[derive(Debug)]
pub struct SfzLoad {
    pub stage: SfzStage,
    pub regions: Vec<RegionParams>,
    /// The places of the regions that sound.
    pub active: Vec<usize>,
    /// The places of regions with different samples.
    pub samples: Vec<usize>,
    /// The heads that have to be in memory.
    pub needs: Vec<HeadNeed>,
}

/// The model of a load.
#[verifier::ext_equal]
pub struct SfzLoadModel {
    pub stage: SfzStage,
    pub regions: Seq<RegionParams>,
    pub active: Seq<int>,
    pub samples: Seq<int>,
    pub needs: Seq<HeadNeed>,
}

impl View for SfzLoad {
    type V = SfzLoadModel;

    open spec fn view(&self) -> SfzLoadModel {
        SfzLoadModel {
            stage: self.stage,
            regions: self.regions@,
            active: places(self.active@),
            samples: places(self.samples@),
            needs: self.needs@,
        }
    }
}

impl SfzLoad {
    /// What a load has found lies among its regions.
    pub open spec fn wf(&self) -> bool {
        &&& forall|i: int|
            0 <= i < self.active.len() ==> (#[trigger] self.active@[i]) < self.regions.len()
        &&& forall|i: int|
            0 <= i < self.samples.len() ==> (#[trigger] self.samples@[i]) < self.regions.len()
        &&& self.stage matches SfzStage::Opening(k) ==> k < self.samples.len()
        &&& self.stage matches SfzStage::Heads(k) ==> k < self.needs.len()
    }

    /// A load that has not begun.
    pub fn new() -> (r: SfzLoad)
        ensures
            r.wf(),
            r@ == (SfzLoadModel {
                stage: SfzStage::New,
                regions: Seq::empty(),
                active: Seq::empty(),
                samples: Seq::empty(),
                needs: Seq::empty(),
            }),
    {
        let r = SfzLoad {
            stage: SfzStage::New,
            regions: Vec::new(),
            active: Vec::new(),
            samples: Vec::new(),
            needs: Vec::new(),
        };
        assert(places(r.active@) =~= Seq::empty());
        r
    }
}

/// What came of the last step.
#[derive(Debug)]
pub enum SfzAnswer {
    /// There was none yet.
    Begin,
    /// The regions of the file.
    Regions(Result<Vec<RegionParams>, SfzParseError>),
    /// The sample was opened, or could not be.
    Opened(Option<AudioLoadError>),
    /// Where the regions that sound lie in their samples.
    Frames(Vec<RegionFrames>),
    /// The head was read, or left empty.
    Head,
}

/// What came of the last step, and whether the load has been cancelled by now.
#[derive(Debug)]
pub struct SfzLoadEvent {
    pub cancelled: bool,
    pub answer: SfzAnswer,
}

/// What a load wants its caller to do, and to tell it.
#[derive(Debug)]
pub enum SfzLoadAction {
    /// Read the regions of the file.
    Read,
    /// Open the sample at this place among the different samples.
    Open(usize),
    /// Find out where the regions that sound lie in their samples.
    Convert,
    /// Read a head.
    Head(HeadNeed),
    /// Take the instrument.
    Done,
    /// Give up.
    Failed(LoadSfzError),
}

/// The action reads from disk.
pub open spec fn reads(a: SfzLoadAction) -> bool {
    a is Read || a is Open || a is Head
}

/// The answer belongs to what the load waits for.
pub open spec fn answers(m: SfzLoadModel, e: SfzLoadEvent) -> bool {
    match e.answer {
        SfzAnswer::Begin => m.stage == SfzStage::New,
        SfzAnswer::Regions(_) => m.stage == SfzStage::Reading,
        SfzAnswer::Opened(_) => m.stage is Opening,
        SfzAnswer::Frames(frames) => m.stage == SfzStage::Converting && frames.len()
            == m.active.len() && forall|i: int|
            0 <= i < frames.len() ==> (#[trigger] frames@[i]).loop_end - frames@[i].offset
                < usize::MAX,
        SfzAnswer::Head => m.stage is Heads,
    }
}

/// A load whose next sample is that at a place, if there is one.
pub open spec fn opening(m: SfzLoadModel, k: int) -> (SfzLoadModel, SfzLoadAction) {
    if k < m.samples.len() {
        (
            SfzLoadModel { stage: SfzStage::Opening(k as usize), ..m },
            SfzLoadAction::Open(k as usize),
        )
    } else {
        (SfzLoadModel { stage: SfzStage::Converting, ..m }, SfzLoadAction::Convert)
    }
}

/// A load whose next head is that at a place, if there is one.
pub open spec fn reading_heads(m: SfzLoadModel, k: int) -> (SfzLoadModel, SfzLoadAction) {
    if k < m.needs.len() {
        (SfzLoadModel { stage: SfzStage::Heads(k as usize), ..m }, SfzLoadAction::Head(m.needs[k]))
    } else {
        (SfzLoadModel { stage: SfzStage::Over, ..m }, SfzLoadAction::Done)
    }
}

/// A load that has failed.
pub open spec fn given_up(m: SfzLoadModel, e: LoadSfzError) -> (SfzLoadModel, SfzLoadAction) {
    (SfzLoadModel { stage: SfzStage::Over, ..m }, SfzLoadAction::Failed(e))
}

/// A load after an answer, if it is not cancelled.
pub open spec fn answered(m: SfzLoadModel, answer: SfzAnswer) -> (SfzLoadModel, SfzLoadAction) {
    match answer {
        SfzAnswer::Begin => (
            SfzLoadModel { stage: SfzStage::Reading, ..m },
            SfzLoadAction::Read,
        ),
        SfzAnswer::Regions(Ok(regions)) => {
            let active = sounding(regions@, keyswitch_from(regions@, 0), regions.len() as int);
            let samples = distinct_samples(regions@, active, active.len() as int);
            opening(SfzLoadModel { regions: regions@, active, samples, ..m }, 0)
        },
        SfzAnswer::Regions(Err(e)) => given_up(m, LoadSfzError::SfzParseError(e)),
        SfzAnswer::Opened(Some(e)) => given_up(m, LoadSfzError::AudioLoadError(e)),
        SfzAnswer::Opened(None) => opening(m, m.stage->Opening_0 + 1),
        SfzAnswer::Frames(frames) => {
            let needs = needs_of(
                m.regions,
                m.active,
                m.samples,
                frames@,
                m.active.len() as int,
            );
            reading_heads(SfzLoadModel { needs, ..m }, 0)
        },
        SfzAnswer::Head => reading_heads(m, m.stage->Heads_0 + 1),
    }
}

/// A load after an event: a load that has been cancelled gives up where it would read
/// from disk.
pub open spec fn stepped(m: SfzLoadModel, e: SfzLoadEvent) -> (SfzLoadModel, SfzLoadAction) {
    let (next, action) = answered(m, e.answer);
    if e.cancelled && reads(action) {
        given_up(next, LoadSfzError::Cancelled)
    } else {
        (next, action)
    }
}

fn open_next(state: &mut SfzLoad, k: usize) -> (r: SfzLoadAction)
    requires
        old(state).wf(),
    ensures
        (final(state)@, r) == opening(old(state)@, k as int),
        final(state).wf(),
{
    if k < state.samples.len() {
        state.stage = SfzStage::Opening(k);
        SfzLoadAction::Open(k)
    } else {
        state.stage = SfzStage::Converting;
        SfzLoadAction::Convert
    }
}

fn read_next(state: &mut SfzLoad, k: usize) -> (r: SfzLoadAction)
    requires
        old(state).wf(),
    ensures
        (final(state)@, r) == reading_heads(old(state)@, k as int),
        final(state).wf(),
{
    if k < state.needs.len() {
        state.stage = SfzStage::Heads(k);
        SfzLoadAction::Head(state.needs[k])
    } else {
        state.stage = SfzStage::Over;
        SfzLoadAction::Done
    }
}

fn answer_step(state: &mut SfzLoad, answer: SfzAnswer) -> (r: SfzLoadAction)
    requires
        old(state).wf(),
        answers(old(state)@, (SfzLoadEvent { cancelled: false, answer })),
    ensures
        (final(state)@, r) == answered(old(state)@, answer),
        final(state).wf(),
{
    match answer {
        SfzAnswer::Begin => {
            state.stage = SfzStage::Reading;
            SfzLoadAction::Read
        },
        SfzAnswer::Regions(Ok(regions)) => {
            let active = active_regions(&regions);
            let samples = unique_samples(&regions, &active);
            state.regions = regions;
            state.active = active;
            state.samples = samples;
            open_next(state, 0)
        },
        SfzAnswer::Regions(Err(e)) => {
            state.stage = SfzStage::Over;
            SfzLoadAction::Failed(LoadSfzError::SfzParseError(e))
        },
        SfzAnswer::Opened(Some(e)) => {
            state.stage = SfzStage::Over;
            SfzLoadAction::Failed(LoadSfzError::AudioLoadError(e))
        },
        SfzAnswer::Opened(None) => {
            let k: usize = match state.stage {
                SfzStage::Opening(k) => k,
                _ => 0,
            };
            open_next(state, k + 1)
        },
        SfzAnswer::Frames(frames) => {
            let needs = head_needs(&state.regions, &state.active, &state.samples, &frames);
            state.needs = needs;
            read_next(state, 0)
        },
        SfzAnswer::Head => {
            let k: usize = match state.stage {
                SfzStage::Heads(k) => k,
                _ => 0,
            };
            read_next(state, k + 1)
        },
    }
}

/// Takes what came of the last step and says what comes next. Once the load has been
/// cancelled, nothing more is read from disk.
pub fn load_step(state: &mut SfzLoad, event: SfzLoadEvent) -> (r: SfzLoadAction)
    requires
        old(state).wf(),
        answers(old(state)@, event),
    ensures
        (final(state)@, r) == stepped(old(state)@, event),
        event.cancelled ==> !reads(r),
        final(state).wf(),
{
    let action = answer_step(state, event.answer);
    let goes_on = match &action {
        SfzLoadAction::Read => true,
        SfzLoadAction::Open(_) => true,
        SfzLoadAction::Head(_) => true,
        _ => false,
    };
    if event.cancelled && goes_on {
        state.stage = SfzStage::Over;
        SfzLoadAction::Failed(LoadSfzError::Cancelled)
    } else {
        action
    }
}

/// A load that is cancelled fails as cancelled where it would read from disk next, and
/// waits for nothing more.
pub proof fn cancelling_stops_a_load(m: SfzLoadModel, answer: SfzAnswer)
    requires
        reads(answered(m, answer).1),
    ensures
        stepped(m, (SfzLoadEvent { cancelled: true, answer })).1 == SfzLoadAction::Failed(
            LoadSfzError::Cancelled,
        ),
        stepped(m, (SfzLoadEvent { cancelled: true, answer })).0.stage == SfzStage::Over,
{
}

/// A load after `n` samples have been opened one after the other without a fault, and what
/// it asked for after each of them.
pub open spec fn opened_in_turn(m: SfzLoadModel, n: nat) -> (SfzLoadModel, Seq<SfzLoadAction>)
    decreases n,
{
    if n == 0 {
        (m, Seq::empty())
    } else {
        let (before, actions) = opened_in_turn(m, (n - 1) as nat);
        let (after, action) = stepped(
            before,
            SfzLoadEvent { cancelled: false, answer: SfzAnswer::Opened(None) },
        );
        (after, actions.push(action))
    }
}

/// A load opens each of its different samples once, one after the other, before it goes on.
pub proof fn samples_are_opened_in_turn(m: SfzLoadModel, n: nat)
    requires
        m.stage == SfzStage::Opening(0),
        0 < n <= m.samples.len() <= usize::MAX,
    ensures
        opened_in_turn(m, n).1.len() == n,
        forall|k: int|
            0 <= k < n - 1 ==> (#[trigger] opened_in_turn(m, n).1[k]) == SfzLoadAction::Open(
                (k + 1) as usize,
            ),
        n < m.samples.len() ==> opened_in_turn(m, n).1[n - 1] == SfzLoadAction::Open(n as usize)
            && opened_in_turn(m, n).0 == (SfzLoadModel {
            stage: SfzStage::Opening(n as usize),
            ..m
        }),
        n == m.samples.len() ==> opened_in_turn(m, n).1[n - 1] == SfzLoadAction::Convert,
    decreases n,
{
    reveal_with_fuel(opened_in_turn, 2);
    if n > 1 {
        samples_are_opened_in_turn(m, (n - 1) as nat);
    }
}


/// A load begins with reading the file. Once the regions are there, it opens the first of
/// their samples, or goes on where they have none.
pub proof fn loads_begin_with_the_file(m: SfzLoadModel, regions: Vec<RegionParams>)
    ensures
        ({
            let (next, action) = stepped(
                m,
                SfzLoadEvent { cancelled: false, answer: SfzAnswer::Begin },
            );
            action == SfzLoadAction::Read && next.stage == SfzStage::Reading
        }),
        ({
            let (next, action) = stepped(
                m,
                SfzLoadEvent { cancelled: false, answer: SfzAnswer::Regions(Ok(regions)) },
            );
            &&& next.regions == regions@
            &&& next.samples.len() > 0 ==> action == SfzLoadAction::Open(0) && next.stage
                == SfzStage::Opening(0)
            &&& next.samples.len() == 0 ==> action == SfzLoadAction::Convert && next.stage
                == SfzStage::Converting
        }),
{
}

/// A load takes up the regions that sound with the keyswitch that is down at first, in their
/// order, and each of their samples once.
pub proof fn loads_take_up_what_sounds(m: SfzLoadModel, regions: Vec<RegionParams>, k: int)
    requires
        0 <= k < regions.len(),
    ensures
        ({
            let (next, _) = stepped(
                m,
                SfzLoadEvent { cancelled: false, answer: SfzAnswer::Regions(Ok(regions)) },
            );
            let down = keyswitch_from(regions@, 0);
            let silent = down is Some && regions@[k].sw_last is Some && regions@[k].sw_last != down;
            &&& next.active.contains(k) <==> !silent
            &&& forall|i: int|
                0 <= i < next.active.len() ==> lists_sample(
                    regions@,
                    next.samples,
                    regions@[#[trigger] next.active[i]].sample_path@,
                )
            &&& forall|i: int, j: int|
                0 <= i < j < next.samples.len() ==> regions@[#[trigger] (
                next.samples[i])].sample_path@ != regions@[#[trigger] (
                next.samples[j])].sample_path@
        }),
{
    let (next, _) = stepped(
        m,
        SfzLoadEvent { cancelled: false, answer: SfzAnswer::Regions(Ok(regions)) },
    );
    instruments_have_what_sounds(regions@, None, None, k);
    samples_are_loaded_once(regions@, next.active, next.active.len() as int);
}

/// A file that cannot be read and a sample that cannot be opened end a load, each with its
/// own fault, whether it has been cancelled or not.
pub proof fn faults_end_a_load(
    m: SfzLoadModel,
    cancelled: bool,
    fault: SfzParseError,
    other: AudioLoadError,
)
    ensures
        ({
            let (next, action) = stepped(
                m,
                SfzLoadEvent { cancelled, answer: SfzAnswer::Regions(Err(fault)) },
            );
            next.stage == SfzStage::Over && action == SfzLoadAction::Failed(
                LoadSfzError::SfzParseError(fault),
            )
        }),
        ({
            let (next, action) = stepped(
                m,
                SfzLoadEvent { cancelled, answer: SfzAnswer::Opened(Some(other)) },
            );
            next.stage == SfzStage::Over && action == SfzLoadAction::Failed(
                LoadSfzError::AudioLoadError(other),
            )
        }),
{
}

/// Once all samples are open, the heads that the regions need are read one after the other,
/// and then the load is done.
pub proof fn heads_are_read_in_turn(m: SfzLoadModel, frames: Vec<RegionFrames>, k: int)
    requires
        answers(m, (SfzLoadEvent { cancelled: false, answer: SfzAnswer::Frames(frames) })),
        0 <= k < needs_of(m.regions, m.active, m.samples, frames@, m.active.len() as int).len(),
        needs_of(m.regions, m.active, m.samples, frames@, m.active.len() as int).len()
            <= usize::MAX,
    ensures
        ({
            let (next, first) = stepped(
                m,
                SfzLoadEvent { cancelled: false, answer: SfzAnswer::Frames(frames) },
            );
            let (later, action) = stepped(
                SfzLoadModel { stage: SfzStage::Heads(k as usize), ..next },
                SfzLoadEvent { cancelled: false, answer: SfzAnswer::Head },
            );
            &&& next.regions == m.regions && next.active == m.active && next.samples == m.samples
            &&& next.needs.len() > 0
            &&& first == SfzLoadAction::Head(next.needs[0])
            &&& next.stage == SfzStage::Heads(0)
            &&& k + 1 < next.needs.len() ==> action == SfzLoadAction::Head(next.needs[k + 1])
                && later.stage == SfzStage::Heads((k + 1) as usize)
            &&& k + 1 == next.needs.len() ==> action == SfzLoadAction::Done && later.stage
                == SfzStage::Over
            &&& later.needs == next.needs
        }),
{
}

/// A load that needs no heads is done once it knows where its regions lie.
pub proof fn loads_without_heads_are_done(
    m: SfzLoadModel,
    frames: Vec<RegionFrames>,
    cancelled: bool,
)
    requires
        m.stage == SfzStage::Converting,
        m.active.len() == 0,
        frames.len() == 0,
    ensures
        stepped(m, (SfzLoadEvent { cancelled, answer: SfzAnswer::Frames(frames) })).1
            == SfzLoadAction::Done,
{
}

/// Cancelling changes nothing where the load would not read from disk next.
pub proof fn cancelling_spares_what_is_read(m: SfzLoadModel, answer: SfzAnswer)
    ensures
        ({
            let (next, action) = stepped(m, SfzLoadEvent { cancelled: false, answer });
            action is Convert || action is Done || action is Failed ==> stepped(
                m,
                SfzLoadEvent { cancelled: true, answer },
            ) == (next, action)
        }),
{
}

} // verus!
