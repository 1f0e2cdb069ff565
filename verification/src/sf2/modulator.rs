//! The modulators that are settled when a note is struck. Of those that a file holds, they
//! are the ones that only the key and the velocity of the note drive; those that controllers,
//! aftertouch or the pitch wheel drive would change a note while it sounds, and are left out.

use super::file::{RawModulator, RawSource};
use super::parse::{
    ATTACK_VOL_ENV, COARSE_TUNE, DECAY_VOL_ENV, DELAY_VOL_ENV, FINE_TUNE, HOLD_VOL_ENV,
    INITIAL_ATTENUATION, INITIAL_FILTER_FC, PAN, RELEASE_VOL_ENV,
};
use vstd::prelude::*;

verus! {

/// The general controller that always gives 1.
pub const NO_CONTROLLER: u8 = 0;

/// The general controller that is the velocity of a note.
pub const NOTE_ON_VELOCITY: u8 = 2;

/// The general controller that is the key of a note.
pub const NOTE_ON_KEY_NUMBER: u8 = 3;

/// The transform that takes a product without its sign.
pub const ABSOLUTE_TRANSFORM: u8 = 1;

/// What a note modulator acts on.
#[derive(Debug, Clone, Copy, PartialEq, Eq, Structural)]
pub enum Sf2NoteModDestination {
    InitialFilterFc,
    InitialAttenuation,
    Pan,
    DelayVolEnv,
    AttackVolEnv,
    HoldVolEnv,
    DecayVolEnv,
    ReleaseVolEnv,
    CoarseTune,
    FineTune,
}

/// What a note is struck with.
#[derive(Debug, Clone, Copy, PartialEq, Eq, Structural)]
pub enum Sf2NoteInput {
    Velocity,
    KeyNumber,
}

/// How the output of a source goes from its least to its greatest value.
#[derive(Debug, Clone, Copy, PartialEq, Eq, Structural)]
pub enum Sf2NoteCurve {
    Linear,
    Concave,
    Convex,
    Switch,
}

/// What drives a note modulator.
#[derive(Debug, Clone, Copy, PartialEq, Eq, Structural)]
pub struct Sf2NoteSource {
    pub input: Sf2NoteInput,
    pub curve: Sf2NoteCurve,
    /// The output falls while the input rises.
    pub negative: bool,
    /// The output goes from -1 to 1, else from 0 to 1.
    pub bipolar: bool,
}

/// A modulator that the key and the velocity of a note settle when it is struck. It adds to
/// what it acts on the share of its amount that its sources give.
#[derive(Debug, Clone, Copy, PartialEq, Eq, Structural)]
pub struct Sf2NoteModulator {
    pub destination: Sf2NoteModDestination,
    pub source: Sf2NoteSource,
    pub amount: i16,
    /// What drives the amount; it is as it is where there is none.
    pub amount_source: Option<Sf2NoteSource>,
    /// What is added loses its sign.
    pub absolute: bool,
}

/// What a modulator acts on, where a note modulator can.
pub open spec fn destination_in(code: u16) -> Option<Sf2NoteModDestination> {
    if code == INITIAL_FILTER_FC {
        Some(Sf2NoteModDestination::InitialFilterFc)
    } else if code == INITIAL_ATTENUATION {
        Some(Sf2NoteModDestination::InitialAttenuation)
    } else if code == PAN {
        Some(Sf2NoteModDestination::Pan)
    } else if code == DELAY_VOL_ENV {
        Some(Sf2NoteModDestination::DelayVolEnv)
    } else if code == ATTACK_VOL_ENV {
        Some(Sf2NoteModDestination::AttackVolEnv)
    } else if code == HOLD_VOL_ENV {
        Some(Sf2NoteModDestination::HoldVolEnv)
    } else if code == DECAY_VOL_ENV {
        Some(Sf2NoteModDestination::DecayVolEnv)
    } else if code == RELEASE_VOL_ENV {
        Some(Sf2NoteModDestination::ReleaseVolEnv)
    } else if code == COARSE_TUNE {
        Some(Sf2NoteModDestination::CoarseTune)
    } else if code == FINE_TUNE {
        Some(Sf2NoteModDestination::FineTune)
    } else {
        None
    }
}

/// The curve of a source, where its number stands for one.
pub open spec fn curve_in(s: RawSource) -> Option<Sf2NoteCurve> {
    if s.linear {
        Some(Sf2NoteCurve::Linear)
    } else if s.concave {
        Some(Sf2NoteCurve::Concave)
    } else if s.convex {
        Some(Sf2NoteCurve::Convex)
    } else if s.switch {
        Some(Sf2NoteCurve::Switch)
    } else {
        None
    }
}

/// What of a note a source reads, if it reads the note.
pub open spec fn input_in(s: RawSource) -> Option<Sf2NoteInput> {
    if s.midi {
        None
    } else if s.index == NOTE_ON_VELOCITY {
        Some(Sf2NoteInput::Velocity)
    } else if s.index == NOTE_ON_KEY_NUMBER {
        Some(Sf2NoteInput::KeyNumber)
    } else {
        None
    }
}

/// A source that reads the note.
pub open spec fn source_in(s: RawSource) -> Option<Sf2NoteSource> {
    match (input_in(s), curve_in(s)) {
        (Some(input), Some(curve)) => Some(
            Sf2NoteSource { input, curve, negative: s.negative, bipolar: s.bipolar },
        ),
        _ => None,
    }
}

/// Nothing drives an amount.
pub open spec fn is_undriven(s: RawSource) -> bool {
    !s.midi && s.index == NO_CONTROLLER
}

/// A modulator that the note settles: what drives it, and what drives its amount if anything
/// does, reads the note.
pub open spec fn note_modulator(m: RawModulator) -> Option<Sf2NoteModulator> {
    match (destination_in(m.destination), source_in(m.source)) {
        (Some(destination), Some(source)) => if !is_undriven(m.amount_source) && source_in(
            m.amount_source,
        ) is None {
            None
        } else {
            Some(
                Sf2NoteModulator {
                    destination,
                    source,
                    amount: m.amount,
                    amount_source: if is_undriven(m.amount_source) {
                        None
                    } else {
                        source_in(m.amount_source)
                    },
                    absolute: m.transform == ABSOLUTE_TRANSFORM,
                },
            )
        },
        _ => None,
    }
}

/// The modulators of a list that the note settles, in their order.
pub open spec fn note_modulators(list: Seq<RawModulator>) -> Seq<Sf2NoteModulator>
    decreases list.len(),
{
    if list.len() == 0 {
        Seq::empty()
    } else {
        let before = note_modulators(list.drop_last());
        match note_modulator(list.last()) {
            Some(m) => before.push(m),
            None => before,
        }
    }
}

fn destination_of(code: u16) -> (r: Option<Sf2NoteModDestination>)
    ensures
        r == destination_in(code),
{
    match code {
        INITIAL_FILTER_FC => Some(Sf2NoteModDestination::InitialFilterFc),
        INITIAL_ATTENUATION => Some(Sf2NoteModDestination::InitialAttenuation),
        PAN => Some(Sf2NoteModDestination::Pan),
        DELAY_VOL_ENV => Some(Sf2NoteModDestination::DelayVolEnv),
        ATTACK_VOL_ENV => Some(Sf2NoteModDestination::AttackVolEnv),
        HOLD_VOL_ENV => Some(Sf2NoteModDestination::HoldVolEnv),
        DECAY_VOL_ENV => Some(Sf2NoteModDestination::DecayVolEnv),
        RELEASE_VOL_ENV => Some(Sf2NoteModDestination::ReleaseVolEnv),
        COARSE_TUNE => Some(Sf2NoteModDestination::CoarseTune),
        FINE_TUNE => Some(Sf2NoteModDestination::FineTune),
        _ => None,
    }
}

fn curve_of(s: &RawSource) -> (r: Option<Sf2NoteCurve>)
    ensures
        r == curve_in(*s),
{
    if s.linear {
        Some(Sf2NoteCurve::Linear)
    } else if s.concave {
        Some(Sf2NoteCurve::Concave)
    } else if s.convex {
        Some(Sf2NoteCurve::Convex)
    } else if s.switch {
        Some(Sf2NoteCurve::Switch)
    } else {
        None
    }
}

fn source_of(s: &RawSource) -> (r: Option<Sf2NoteSource>)
    ensures
        r == source_in(*s),
{
    if s.midi {
        return None;
    }
    let input = match s.index {
        NOTE_ON_VELOCITY => Sf2NoteInput::Velocity,
        NOTE_ON_KEY_NUMBER => Sf2NoteInput::KeyNumber,
        _ => {
            return None;
        },
    };
    match curve_of(s) {
        Some(curve) => Some(
            Sf2NoteSource { input, curve, negative: s.negative, bipolar: s.bipolar },
        ),
        None => None,
    }
}

impl Sf2NoteModulator {
    /// The modulator that the note settles, where one of a file is such a one.
    pub fn parse(m: &RawModulator) -> (r: Option<Sf2NoteModulator>)
        ensures
            r == note_modulator(*m),
    {
        let destination = match destination_of(m.destination) {
            Some(destination) => destination,
            None => {
                return None;
            },
        };
        let source = match source_of(&m.source) {
            Some(source) => source,
            None => {
                return None;
            },
        };
        let amount_source = if !m.amount_source.midi && m.amount_source.index == NO_CONTROLLER {
            None
        } else {
            match source_of(&m.amount_source) {
                Some(source) => Some(source),
                None => {
                    return None;
                },
            }
        };
        Some(
            Sf2NoteModulator {
                destination,
                source,
                amount: m.amount,
                amount_source,
                absolute: m.transform == ABSOLUTE_TRANSFORM,
            },
        )
    }
}

/// A source that changes while a note sounds: a MIDI controller, or a general one that is
/// neither the key nor the velocity.
pub open spec fn is_controller(s: RawSource) -> bool {
    s.midi || (s.index != NO_CONTROLLER && s.index != NOTE_ON_VELOCITY && s.index
        != NOTE_ON_KEY_NUMBER)
}

/// A modulator that a controller drives, or whose amount one drives, does nothing: the note
/// modulators are those of the file without it.
pub proof fn controllers_modulate_nothing(
    before: Seq<RawModulator>,
    m: RawModulator,
    after: Seq<RawModulator>,
)
    requires
        is_controller(m.source) || is_controller(m.amount_source),
    ensures
        note_modulators(before.push(m) + after) == note_modulators(before + after),
    decreases after.len(),
{
    let with = before.push(m) + after;
    let without = before + after;
    if after.len() == 0 {
        assert(with =~= before.push(m));
        assert(without =~= before);
        assert(with.drop_last() =~= before);
    } else {
        controllers_modulate_nothing(before, m, after.drop_last());
        assert(with.drop_last() =~= before.push(m) + after.drop_last());
        assert(without.drop_last() =~= before + after.drop_last());
    }
}

/// Every note modulator is one of the file, with its source, its amount and its transform.
pub proof fn note_modulators_stand_in_the_file(list: Seq<RawModulator>, k: int)
    requires
        0 <= k < note_modulators(list).len(),
    ensures
        exists|j: int|
            0 <= j < list.len() && note_modulator(#[trigger] list[j]) == Some(
                note_modulators(list)[k],
            ),
    decreases list.len(),
{
    let less = list.drop_last();
    if k < note_modulators(less).len() {
        note_modulators_stand_in_the_file(less, k);
        let j = choose|j: int|
            0 <= j < less.len() && note_modulator(#[trigger] less[j]) == Some(
                note_modulators(less)[k],
            );
        assert(list[j] == less[j]);
    } else {
        assert(list[list.len() - 1] == list.last());
    }
}

} // verus!
