//! Which generators of a file give the values of a zone.

use super::file::{RawAmount, RawGenerator, RawModulator, RawSource, RawZoneModel};
use super::modulator::{
    note_modulator, note_modulators, Sf2NoteModDestination, Sf2NoteModulator, Sf2NoteSource,
};
use super::parse::{
    first_is_shared, generated, modulators_in, silent_zone, zone_parsed, zone_set, zones_parsed,
};
use super::zone::Sf2Zone;
use crate::LoopMode;
use vstd::prelude::*;

verus! {

/// A value of a zone.
#[derive(Debug, Clone, Copy, PartialEq, Eq, Structural)]
pub enum ZoneValue {
    Offset,
    EndOffset,
    LoopStartOffset,
    LoopEndOffset,
    OffsetCoarse,
    Cutoff,
    Resonance,
    EndOffsetCoarse,
    Pan,
    EnvDelay,
    EnvAttack,
    EnvHold,
    EnvDecay,
    EnvSustain,
    EnvRelease,
    KeynumToVolEnvHold,
    KeynumToVolEnvDecay,
    LoopStartOffsetCoarse,
    Attenuation,
    LoopEndOffsetCoarse,
    CoarseTune,
    FineTune,
    ScaleTuning,
    /// The instrument of a zone of a preset, or the sample of a zone of an instrument.
    Index,
    Keyrange,
    Velrange,
    FixedKey,
    FixedVelocity,
    LoopMode,
    ExclusiveClass,
    RootOverride,
}

/// What a value of a zone is.
pub enum ZoneAmount {
    /// The zone does not say.
    Unset,
    Number(int),
    Range(int, int),
    Mode(LoopMode),
}

/// A number, if there is one.
pub open spec fn amount_of(v: Option<i16>) -> ZoneAmount {
    match v {
        Some(x) => ZoneAmount::Number(x as int),
        None => ZoneAmount::Unset,
    }
}

/// A number of 8 bits, if there is one.
pub open spec fn byte_amount(v: Option<u8>) -> ZoneAmount {
    match v {
        Some(x) => ZoneAmount::Number(x as int),
        None => ZoneAmount::Unset,
    }
}

/// A range, if there is one.
pub open spec fn range_amount(v: Option<(u8, u8)>) -> ZoneAmount {
    match v {
        Some((lo, hi)) => ZoneAmount::Range(lo as int, hi as int),
        None => ZoneAmount::Unset,
    }
}

/// What a value of a zone is.
pub open spec fn zone_value<M>(z: Sf2Zone<M>, v: ZoneValue) -> ZoneAmount {
    match v {
        ZoneValue::Offset => amount_of(z.offset),
        ZoneValue::EndOffset => amount_of(z.end_offset),
        ZoneValue::LoopStartOffset => amount_of(z.loop_start_offset),
        ZoneValue::LoopEndOffset => amount_of(z.loop_end_offset),
        ZoneValue::OffsetCoarse => amount_of(z.offset_coarse),
        ZoneValue::Cutoff => amount_of(z.cutoff),
        ZoneValue::Resonance => amount_of(z.resonance),
        ZoneValue::EndOffsetCoarse => amount_of(z.end_offset_coarse),
        ZoneValue::Pan => amount_of(z.pan),
        ZoneValue::EnvDelay => amount_of(z.env_delay),
        ZoneValue::EnvAttack => amount_of(z.env_attack),
        ZoneValue::EnvHold => amount_of(z.env_hold),
        ZoneValue::EnvDecay => amount_of(z.env_decay),
        ZoneValue::EnvSustain => amount_of(z.env_sustain),
        ZoneValue::EnvRelease => amount_of(z.env_release),
        ZoneValue::KeynumToVolEnvHold => amount_of(z.keynum_to_vol_env_hold),
        ZoneValue::KeynumToVolEnvDecay => amount_of(z.keynum_to_vol_env_decay),
        ZoneValue::LoopStartOffsetCoarse => amount_of(z.loop_start_offset_coarse),
        ZoneValue::Attenuation => amount_of(z.attenuation),
        ZoneValue::LoopEndOffsetCoarse => amount_of(z.loop_end_offset_coarse),
        ZoneValue::CoarseTune => amount_of(z.coarse_tune),
        ZoneValue::FineTune => amount_of(z.fine_tune),
        ZoneValue::ScaleTuning => amount_of(z.scale_tuning),
        ZoneValue::Index => match z.index {
            Some(at) => ZoneAmount::Number(at as int),
            None => ZoneAmount::Unset,
        },
        ZoneValue::Keyrange => range_amount(z.keyrange),
        ZoneValue::Velrange => range_amount(z.velrange),
        ZoneValue::FixedKey => byte_amount(z.fixed_key),
        ZoneValue::FixedVelocity => byte_amount(z.fixed_velocity),
        ZoneValue::LoopMode => match z.loop_mode {
            Some(mode) => ZoneAmount::Mode(mode),
            None => ZoneAmount::Unset,
        },
        ZoneValue::ExclusiveClass => byte_amount(z.exclusive_class),
        ZoneValue::RootOverride => amount_of(z.root_override),
    }
}

/// A generator of so high a number gives a value of a zone.
pub open spec fn gives(code: u16, v: ZoneValue) -> bool {
    match v {
        ZoneValue::Offset => code == 0,
        ZoneValue::EndOffset => code == 1,
        ZoneValue::LoopStartOffset => code == 2,
        ZoneValue::LoopEndOffset => code == 3,
        ZoneValue::OffsetCoarse => code == 4,
        ZoneValue::Cutoff => code == 8,
        ZoneValue::Resonance => code == 9,
        ZoneValue::EndOffsetCoarse => code == 12,
        ZoneValue::Pan => code == 17,
        ZoneValue::EnvDelay => code == 33,
        ZoneValue::EnvAttack => code == 34,
        ZoneValue::EnvHold => code == 35,
        ZoneValue::EnvDecay => code == 36,
        ZoneValue::EnvSustain => code == 37,
        ZoneValue::EnvRelease => code == 38,
        ZoneValue::KeynumToVolEnvHold => code == 39,
        ZoneValue::KeynumToVolEnvDecay => code == 40,
        ZoneValue::LoopStartOffsetCoarse => code == 45,
        ZoneValue::Attenuation => code == 48,
        ZoneValue::LoopEndOffsetCoarse => code == 50,
        ZoneValue::CoarseTune => code == 51,
        ZoneValue::FineTune => code == 52,
        ZoneValue::ScaleTuning => code == 56,
        ZoneValue::Index => code == 41 || code == 53,
        ZoneValue::Keyrange => code == 43,
        ZoneValue::Velrange => code == 44,
        ZoneValue::FixedKey => code == 46,
        ZoneValue::FixedVelocity => code == 47,
        ZoneValue::LoopMode => code == 54,
        ZoneValue::ExclusiveClass => code == 57,
        ZoneValue::RootOverride => code == 58,
    }
}

/// What the amount of a generator makes of a value of a zone. Loop modes 1 and 3 are those of
/// a loop, class 0 is none, and so is a negative root key.
pub open spec fn given(amount: RawAmount, v: ZoneValue) -> ZoneAmount {
    match (v, amount) {
        (ZoneValue::Index, RawAmount::Index(at)) => ZoneAmount::Number(at as int),
        (ZoneValue::Index, _) => ZoneAmount::Unset,
        (ZoneValue::Keyrange, RawAmount::Range(lo, hi)) => ZoneAmount::Range(lo as int, hi as int),
        (ZoneValue::Keyrange, _) => ZoneAmount::Unset,
        (ZoneValue::Velrange, RawAmount::Range(lo, hi)) => ZoneAmount::Range(lo as int, hi as int),
        (ZoneValue::Velrange, _) => ZoneAmount::Unset,
        (ZoneValue::FixedKey, RawAmount::Number(n)) if 0 <= n && n <= 255 => ZoneAmount::Number(
            n as int,
        ),
        (ZoneValue::FixedKey, _) => ZoneAmount::Unset,
        (ZoneValue::FixedVelocity, RawAmount::Number(n)) if 0 <= n && n <= 255
            => ZoneAmount::Number(n as int),
        (ZoneValue::FixedVelocity, _) => ZoneAmount::Unset,
        (ZoneValue::LoopMode, RawAmount::Number(1)) => ZoneAmount::Mode(LoopMode::LoopContinuous),
        (ZoneValue::LoopMode, RawAmount::Number(3)) => ZoneAmount::Mode(LoopMode::LoopSustain),
        (ZoneValue::LoopMode, RawAmount::Number(_)) => ZoneAmount::Mode(LoopMode::NoLoop),
        (ZoneValue::LoopMode, _) => ZoneAmount::Unset,
        (ZoneValue::ExclusiveClass, RawAmount::Number(n)) if 0 < n && n <= 255
            => ZoneAmount::Number(n as int),
        (ZoneValue::ExclusiveClass, _) => ZoneAmount::Unset,
        (ZoneValue::RootOverride, RawAmount::Number(n)) if 0 <= n => ZoneAmount::Number(n as int),
        (ZoneValue::RootOverride, _) => ZoneAmount::Unset,
        (_, RawAmount::Number(n)) => ZoneAmount::Number(n as int),
        (_, _) => ZoneAmount::Unset,
    }
}

/// A generator gives the values of its number, and leaves all others and the modulators as they
/// are.
#[verifier::rlimit(100)]
#[verifier::spinoff_prover]
pub proof fn generators_give_their_value<M>(z: Sf2Zone<M>, g: RawGenerator, v: ZoneValue)
    ensures
        zone_value(zone_set(z, g), v) == (if gives(g.code, v) {
            given(g.amount, v)
        } else {
            zone_value(z, v)
        }),
        zone_set(z, g).note_modulators == z.note_modulators,
{
}

proof fn last_generator_gives<M>(z: Sf2Zone<M>, g: Seq<RawGenerator>, v: ZoneValue, k: int)
    requires
        0 <= k < g.len(),
        gives(g[k].code, v),
        forall|j: int| k < j < g.len() ==> !gives((#[trigger] g[j]).code, v),
    ensures
        zone_value(generated(z, g), v) == given(g[k].amount, v),
    decreases g.len(),
{
    let rest = g.drop_last();
    generators_give_their_value(generated(z, rest), g.last(), v);
    if k < g.len() - 1 {
        assert(!gives(g[g.len() - 1].code, v));
        assert forall|j: int| k < j < rest.len() implies !gives((#[trigger] rest[j]).code, v) by {
            assert(rest[j] == g[j]);
        }
        last_generator_gives(z, rest, v, k);
    }
}

proof fn no_generator_gives<M>(z: Sf2Zone<M>, g: Seq<RawGenerator>, v: ZoneValue)
    requires
        forall|j: int| 0 <= j < g.len() ==> !gives((#[trigger] g[j]).code, v),
    ensures
        zone_value(generated(z, g), v) == zone_value(z, v),
    decreases g.len(),
{
    if g.len() > 0 {
        let rest = g.drop_last();
        generators_give_their_value(generated(z, rest), g.last(), v);
        assert(!gives(g[g.len() - 1].code, v));
        assert forall|j: int| 0 <= j < rest.len() implies !gives((#[trigger] rest[j]).code, v) by {
            assert(rest[j] == g[j]);
        }
        no_generator_gives(z, rest, v);
    }
}

proof fn modulators_are_left<M>(z: Sf2Zone<M>, g: Seq<RawGenerator>)
    ensures
        generated(z, g).note_modulators == z.note_modulators,
    decreases g.len(),
{
    if g.len() > 0 {
        modulators_are_left(z, g.drop_last());
        generators_give_their_value(generated(z, g.drop_last()), g.last(), ZoneValue::Index);
    }
}

/// A value of a zone is what the last generator of the zone says that gives it.
pub proof fn zones_have_what_they_say(zones: Seq<RawZoneModel>, i: int, v: ZoneValue, k: int)
    requires
        0 <= i < zones.len(),
        0 <= k < zones[i].generators.len(),
        gives(zones[i].generators[k].code, v),
        forall|j: int|
            k < j < zones[i].generators.len() ==> !gives(
                (#[trigger] zones[i].generators[j]).code,
                v,
            ),
    ensures
        zone_value(zone_parsed(zones, i), v) == given(zones[i].generators[k].amount, v),
{
    let m = if first_is_shared(zones) && i > 0 {
        generated(
            silent_zone(modulators_in(zones, 0) + modulators_in(zones, i)),
            zones[0].generators,
        )
    } else {
        silent_zone(modulators_in(zones, i))
    };
    last_generator_gives(m, zones[i].generators, v, k);
}

/// A value that a zone does not give itself is what the last generator of the shared zone says
/// that gives it.
pub proof fn zones_have_what_is_shared(zones: Seq<RawZoneModel>, i: int, v: ZoneValue, k: int)
    requires
        first_is_shared(zones),
        0 < i < zones.len(),
        0 <= k < zones[0].generators.len(),
        gives(zones[0].generators[k].code, v),
        forall|j: int|
            k < j < zones[0].generators.len() ==> !gives(
                (#[trigger] zones[0].generators[j]).code,
                v,
            ),
        forall|j: int|
            0 <= j < zones[i].generators.len() ==> !gives(
                (#[trigger] zones[i].generators[j]).code,
                v,
            ),
    ensures
        zone_value(zone_parsed(zones, i), v) == given(zones[0].generators[k].amount, v),
{
    let silent = silent_zone(modulators_in(zones, 0) + modulators_in(zones, i));
    last_generator_gives(silent, zones[0].generators, v, k);
    no_generator_gives(generated(silent, zones[0].generators), zones[i].generators, v);
}

/// A value that neither a zone nor the shared one gives is not set.
pub proof fn other_values_are_unset(zones: Seq<RawZoneModel>, i: int, v: ZoneValue)
    requires
        0 <= i < zones.len(),
        forall|j: int|
            0 <= j < zones[i].generators.len() ==> !gives(
                (#[trigger] zones[i].generators[j]).code,
                v,
            ),
        first_is_shared(zones) ==> forall|j: int|
            0 <= j < zones[0].generators.len() ==> !gives(
                (#[trigger] zones[0].generators[j]).code,
                v,
            ),
    ensures
        zone_value(zone_parsed(zones, i), v) is Unset,
{
    if first_is_shared(zones) && i > 0 {
        let silent = silent_zone(modulators_in(zones, 0) + modulators_in(zones, i));
        no_generator_gives(silent, zones[0].generators, v);
        no_generator_gives(generated(silent, zones[0].generators), zones[i].generators, v);
    } else {
        no_generator_gives(silent_zone(modulators_in(zones, i)), zones[i].generators, v);
    }
}

/// The first zone is shared where none of its generators names an instrument or a sample. It is
/// then none of the zones itself; otherwise all zones stand for themselves, in their order. The
/// modulators of a shared zone come before those of each zone.
pub proof fn zones_are_those_of_the_file(zones: Seq<RawZoneModel>, i: int)
    requires
        zones.len() > 0,
        0 <= i < zones.len(),
        forall|j: int|
            0 <= j < zones[0].generators.len() && gives(
                (#[trigger] zones[0].generators[j]).code,
                ZoneValue::Index,
            ) ==> zones[0].generators[j].amount is Index,
    ensures
        ({
            let shared = forall|j: int|
                0 <= j < zones[0].generators.len() ==> !gives(
                    (#[trigger] zones[0].generators[j]).code,
                    ZoneValue::Index,
                );
            let own = note_modulators(zones[i].modulators);
            let all = zones_parsed(zones);
            &&& shared ==> all.len() == zones.len() - 1
            &&& shared && i > 0 ==> all[i - 1] == zone_parsed(zones, i) && all[i
                - 1].note_modulators == note_modulators(zones[0].modulators) + own
            &&& !shared ==> all.len() == zones.len()
            &&& !shared ==> all[i] == zone_parsed(zones, i) && all[i].note_modulators == own
        }),
{
    let g = zones[0].generators;
    let silent = silent_zone(Seq::<Sf2NoteModulator>::empty());
    let v = ZoneValue::Index;
    if forall|j: int| 0 <= j < g.len() ==> !gives((#[trigger] g[j]).code, v) {
        no_generator_gives(silent, g, v);
        assert(zone_value(generated(silent, g), v) is Unset);
    } else {
        let k = last_giving(g, v, g.len() as int);
        last_generator_gives(silent, g, v, k);
        assert(g[k].amount is Index);
    }
    if first_is_shared(zones) && i > 0 {
        let both = silent_zone(modulators_in(zones, 0) + modulators_in(zones, i));
        modulators_are_left(both, g);
        modulators_are_left(generated(both, g), zones[i].generators);
    } else {
        modulators_are_left(silent_zone(modulators_in(zones, i)), zones[i].generators);
    }
}

proof fn last_giving(g: Seq<RawGenerator>, v: ZoneValue, n: int) -> (k: int)
    requires
        0 <= n <= g.len(),
        exists|j: int| 0 <= j < n && gives((#[trigger] g[j]).code, v),
        forall|j: int| n <= j < g.len() ==> !gives((#[trigger] g[j]).code, v),
    ensures
        0 <= k < g.len(),
        gives(g[k].code, v),
        forall|j: int| k < j < g.len() ==> !gives((#[trigger] g[j]).code, v),
    decreases n,
{
    if gives(g[n - 1].code, v) {
        n - 1
    } else {
        last_giving(g, v, n - 1)
    }
}

/// The number of a generator that a note modulator acts on.
pub open spec fn destination_code(d: Sf2NoteModDestination) -> u16 {
    match d {
        Sf2NoteModDestination::InitialFilterFc => 8,
        Sf2NoteModDestination::Pan => 17,
        Sf2NoteModDestination::DelayVolEnv => 33,
        Sf2NoteModDestination::AttackVolEnv => 34,
        Sf2NoteModDestination::HoldVolEnv => 35,
        Sf2NoteModDestination::DecayVolEnv => 36,
        Sf2NoteModDestination::ReleaseVolEnv => 38,
        Sf2NoteModDestination::InitialAttenuation => 48,
        Sf2NoteModDestination::CoarseTune => 51,
        Sf2NoteModDestination::FineTune => 52,
    }
}

/// A source reads a note as another one says: its velocity or its key, along a curve.
pub open spec fn reads(s: RawSource, n: Sf2NoteSource) -> bool {
    &&& !s.midi
    &&& n.input is Velocity ==> s.index == 2
    &&& n.input is KeyNumber ==> s.index == 3
    &&& n.curve is Linear <==> s.linear
    &&& n.curve is Concave <==> !s.linear && s.concave
    &&& n.curve is Convex <==> !s.linear && !s.concave && s.convex
    &&& n.curve is Switch ==> s.switch
    &&& n.negative == s.negative
    &&& n.bipolar == s.bipolar
}

/// A modulator whose source reads the note acts on what its destination names, by its amount, as
/// it is or as another source that reads the note drives it.
pub proof fn note_modulators_act(
    m: RawModulator,
    d: Sf2NoteModDestination,
    source: Sf2NoteSource,
    amount_source: Option<Sf2NoteSource>,
)
    requires
        m.destination == destination_code(d),
        reads(m.source, source),
        amount_source is None ==> !m.amount_source.midi && m.amount_source.index == 0,
        amount_source matches Some(n) ==> reads(m.amount_source, n),
    ensures
        note_modulator(m) == Some(
            Sf2NoteModulator {
                destination: d,
                source,
                amount: m.amount,
                amount_source,
                absolute: m.transform == 1,
            },
        ),
{
}

/// The note modulators of a zone come in the order of the file, and none is lost.
pub proof fn note_modulators_come_in_order(list: Seq<RawModulator>, m: RawModulator)
    ensures
        note_modulators(Seq::empty()).len() == 0,
        note_modulator(m) matches Some(n) ==> note_modulators(list.push(m)) == note_modulators(
            list,
        ).push(n),
        note_modulator(m) is None ==> note_modulators(list.push(m)) == note_modulators(list),
{
    assert(list.push(m).drop_last() =~= list);
}


/// Every note modulator is one that the file holds as such: its destination is one that a
/// note modulator can have, its source reads the note, and so does what drives its amount,
/// unless nothing does. Any other modulator is passed over.
pub proof fn only_note_modulators_act(m: RawModulator)
    ensures
        note_modulator(m) matches Some(n) ==> {
            &&& m.destination == destination_code(n.destination)
            &&& reads(m.source, n.source)
            &&& n.amount == m.amount
            &&& n.amount_source is None ==> !m.amount_source.midi && m.amount_source.index == 0
            &&& n.amount_source matches Some(by) ==> reads(m.amount_source, by)
            &&& n.absolute == (m.transform == 1)
        },
{
}

} // verus!
