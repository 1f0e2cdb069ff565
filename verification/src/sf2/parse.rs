//! What the generators and modulators of zones say.

use super::file::{
    RawAmount, RawGenerator, RawInstrument, RawPreset, RawZone, RawZoneModel,
};
use super::modulator::{note_modulators, Sf2NoteModulator};
use super::zone::{zone_models, Sf2Instrument, Sf2ParsedPreset, Sf2Zone, Sf2ZoneModel};
use crate::LoopMode;
use vstd::prelude::*;

verus! {

/// Frames by which the start of a sample moves.
pub const START_ADDRS_OFFSET: u16 = 0;

/// Frames by which the end of a sample moves.
pub const END_ADDRS_OFFSET: u16 = 1;

/// Frames by which the start of a loop moves.
pub const STARTLOOP_ADDRS_OFFSET: u16 = 2;

/// Frames by which the end of a loop moves.
pub const ENDLOOP_ADDRS_OFFSET: u16 = 3;

/// Coarse steps by which the start of a sample moves.
pub const START_ADDRS_COARSE_OFFSET: u16 = 4;

/// The cutoff of the filter.
pub const INITIAL_FILTER_FC: u16 = 8;

/// The resonance of the filter.
pub const INITIAL_FILTER_Q: u16 = 9;

/// Coarse steps by which the end of a sample moves.
pub const END_ADDRS_COARSE_OFFSET: u16 = 12;

/// The place between left and right.
pub const PAN: u16 = 17;

/// The delay of the volume envelope.
pub const DELAY_VOL_ENV: u16 = 33;

/// The attack of the volume envelope.
pub const ATTACK_VOL_ENV: u16 = 34;

/// The hold of the volume envelope.
pub const HOLD_VOL_ENV: u16 = 35;

/// The decay of the volume envelope.
pub const DECAY_VOL_ENV: u16 = 36;

/// The sustain level of the volume envelope.
pub const SUSTAIN_VOL_ENV: u16 = 37;

/// The release of the volume envelope.
pub const RELEASE_VOL_ENV: u16 = 38;

/// How the key changes the hold of the volume envelope.
pub const KEYNUM_TO_VOL_ENV_HOLD: u16 = 39;

/// How the key changes the decay of the volume envelope.
pub const KEYNUM_TO_VOL_ENV_DECAY: u16 = 40;

/// The instrument of a zone of a preset.
pub const INSTRUMENT: u16 = 41;

/// The keys for which a zone sounds.
pub const KEY_RANGE: u16 = 43;

/// The velocities for which a zone sounds.
pub const VEL_RANGE: u16 = 44;

/// Coarse steps by which the start of a loop moves.
pub const STARTLOOP_ADDRS_COARSE_OFFSET: u16 = 45;

/// The key that a zone takes every key for.
pub const KEYNUM: u16 = 46;

/// The velocity that a zone takes every velocity for.
pub const VELOCITY: u16 = 47;

/// How much softer than its sample a zone is.
pub const INITIAL_ATTENUATION: u16 = 48;

/// Coarse steps by which the end of a loop moves.
pub const ENDLOOP_ADDRS_COARSE_OFFSET: u16 = 50;

/// The tuning in semitones.
pub const COARSE_TUNE: u16 = 51;

/// The tuning in cents.
pub const FINE_TUNE: u16 = 52;

/// The sample of a zone of an instrument.
pub const SAMPLE_ID: u16 = 53;

/// How the sample repeats.
pub const SAMPLE_MODES: u16 = 54;

/// How many cents lie between two keys.
pub const SCALE_TUNING: u16 = 56;

/// The class of zones of which only one sounds.
pub const EXCLUSIVE_CLASS: u16 = 57;

/// The key at which the sample sounds as it is.
pub const OVERRIDING_ROOT_KEY: u16 = 58;

/// The number that an amount is.
pub open spec fn number_in(amount: RawAmount) -> Option<i16> {
    match amount {
        RawAmount::Number(v) => Some(v),
        _ => None,
    }
}

/// The index that an amount is.
pub open spec fn index_in(amount: RawAmount) -> Option<u16> {
    match amount {
        RawAmount::Index(v) => Some(v),
        _ => None,
    }
}

/// The range that an amount is.
pub open spec fn range_in(amount: RawAmount) -> Option<(u8, u8)> {
    match amount {
        RawAmount::Range(low, high) => Some((low, high)),
        _ => None,
    }
}

/// The number that an amount is, where it is one of 8 bits.
pub open spec fn byte_in(amount: RawAmount) -> Option<u8> {
    match amount {
        RawAmount::Number(v) => if 0 <= v <= 255 {
            Some(v as u8)
        } else {
            None
        },
        _ => None,
    }
}

/// The loop mode that an amount stands for.
pub open spec fn mode_in(amount: RawAmount) -> Option<LoopMode> {
    match amount {
        RawAmount::Number(v) => Some(
            if v == 1 {
                LoopMode::LoopContinuous
            } else if v == 3 {
                LoopMode::LoopSustain
            } else {
                LoopMode::NoLoop
            },
        ),
        _ => None,
    }
}

/// The root key that an amount stands for. A negative number stands for none.
pub open spec fn root_in(amount: RawAmount) -> Option<i16> {
    match amount {
        RawAmount::Number(v) => if v >= 0 {
            Some(v)
        } else {
            None
        },
        _ => None,
    }
}

/// The exclusive class that an amount stands for. 0 stands for none.
pub open spec fn class_in(amount: RawAmount) -> Option<u8> {
    match byte_in(amount) {
        Some(v) => if v > 0 {
            Some(v)
        } else {
            None
        },
        None => None,
    }
}

fn number_of(amount: RawAmount) -> (r: Option<i16>)
    ensures
        r == number_in(amount),
{
    match amount {
        RawAmount::Number(v) => Some(v),
        _ => None,
    }
}

fn index_of(amount: RawAmount) -> (r: Option<u16>)
    ensures
        r == index_in(amount),
{
    match amount {
        RawAmount::Index(v) => Some(v),
        _ => None,
    }
}

fn range_of(amount: RawAmount) -> (r: Option<(u8, u8)>)
    ensures
        r == range_in(amount),
{
    match amount {
        RawAmount::Range(low, high) => Some((low, high)),
        _ => None,
    }
}

fn byte_of(amount: RawAmount) -> (r: Option<u8>)
    ensures
        r == byte_in(amount),
{
    match amount {
        RawAmount::Number(v) => if 0 <= v && v <= 255 {
            Some(v as u8)
        } else {
            None
        },
        _ => None,
    }
}

fn mode_of(amount: RawAmount) -> (r: Option<LoopMode>)
    ensures
        r == mode_in(amount),
{
    match amount {
        RawAmount::Number(1) => Some(LoopMode::LoopContinuous),
        RawAmount::Number(3) => Some(LoopMode::LoopSustain),
        RawAmount::Number(_) => Some(LoopMode::NoLoop),
        _ => None,
    }
}

fn root_of(amount: RawAmount) -> (r: Option<i16>)
    ensures
        r == root_in(amount),
{
    match amount {
        RawAmount::Number(v) => if v >= 0 {
            Some(v)
        } else {
            None
        },
        _ => None,
    }
}

fn class_of(amount: RawAmount) -> (r: Option<u8>)
    ensures
        r == class_in(amount),
{
    match byte_of(amount) {
        Some(v) => if v > 0 {
            Some(v)
        } else {
            None
        },
        None => None,
    }
}

/// A zone after a generator. A later generator takes the place of an earlier one, and
/// those of other numbers say nothing here.
pub open spec fn zone_set<M>(zone: Sf2Zone<M>, g: RawGenerator) -> Sf2Zone<M> {
    if g.code == START_ADDRS_OFFSET {
        Sf2Zone { offset: number_in(g.amount), ..zone }
    } else if g.code == END_ADDRS_OFFSET {
        Sf2Zone { end_offset: number_in(g.amount), ..zone }
    } else if g.code == STARTLOOP_ADDRS_OFFSET {
        Sf2Zone { loop_start_offset: number_in(g.amount), ..zone }
    } else if g.code == ENDLOOP_ADDRS_OFFSET {
        Sf2Zone { loop_end_offset: number_in(g.amount), ..zone }
    } else if g.code == START_ADDRS_COARSE_OFFSET {
        Sf2Zone { offset_coarse: number_in(g.amount), ..zone }
    } else if g.code == INITIAL_FILTER_FC {
        Sf2Zone { cutoff: number_in(g.amount), ..zone }
    } else if g.code == INITIAL_FILTER_Q {
        Sf2Zone { resonance: number_in(g.amount), ..zone }
    } else if g.code == END_ADDRS_COARSE_OFFSET {
        Sf2Zone { end_offset_coarse: number_in(g.amount), ..zone }
    } else if g.code == PAN {
        Sf2Zone { pan: number_in(g.amount), ..zone }
    } else if g.code == DELAY_VOL_ENV {
        Sf2Zone { env_delay: number_in(g.amount), ..zone }
    } else if g.code == ATTACK_VOL_ENV {
        Sf2Zone { env_attack: number_in(g.amount), ..zone }
    } else if g.code == HOLD_VOL_ENV {
        Sf2Zone { env_hold: number_in(g.amount), ..zone }
    } else if g.code == DECAY_VOL_ENV {
        Sf2Zone { env_decay: number_in(g.amount), ..zone }
    } else if g.code == SUSTAIN_VOL_ENV {
        Sf2Zone { env_sustain: number_in(g.amount), ..zone }
    } else if g.code == RELEASE_VOL_ENV {
        Sf2Zone { env_release: number_in(g.amount), ..zone }
    } else if g.code == KEYNUM_TO_VOL_ENV_HOLD {
        Sf2Zone { keynum_to_vol_env_hold: number_in(g.amount), ..zone }
    } else if g.code == KEYNUM_TO_VOL_ENV_DECAY {
        Sf2Zone { keynum_to_vol_env_decay: number_in(g.amount), ..zone }
    } else if g.code == INSTRUMENT {
        Sf2Zone { index: index_in(g.amount), ..zone }
    } else if g.code == KEY_RANGE {
        Sf2Zone { keyrange: range_in(g.amount), ..zone }
    } else if g.code == VEL_RANGE {
        Sf2Zone { velrange: range_in(g.amount), ..zone }
    } else if g.code == STARTLOOP_ADDRS_COARSE_OFFSET {
        Sf2Zone { loop_start_offset_coarse: number_in(g.amount), ..zone }
    } else if g.code == KEYNUM {
        Sf2Zone { fixed_key: byte_in(g.amount), ..zone }
    } else if g.code == VELOCITY {
        Sf2Zone { fixed_velocity: byte_in(g.amount), ..zone }
    } else if g.code == INITIAL_ATTENUATION {
        Sf2Zone { attenuation: number_in(g.amount), ..zone }
    } else if g.code == ENDLOOP_ADDRS_COARSE_OFFSET {
        Sf2Zone { loop_end_offset_coarse: number_in(g.amount), ..zone }
    } else if g.code == COARSE_TUNE {
        Sf2Zone { coarse_tune: number_in(g.amount), ..zone }
    } else if g.code == FINE_TUNE {
        Sf2Zone { fine_tune: number_in(g.amount), ..zone }
    } else if g.code == SAMPLE_ID {
        Sf2Zone { index: index_in(g.amount), ..zone }
    } else if g.code == SAMPLE_MODES {
        Sf2Zone { loop_mode: mode_in(g.amount), ..zone }
    } else if g.code == SCALE_TUNING {
        Sf2Zone { scale_tuning: number_in(g.amount), ..zone }
    } else if g.code == EXCLUSIVE_CLASS {
        Sf2Zone { exclusive_class: class_in(g.amount), ..zone }
    } else if g.code == OVERRIDING_ROOT_KEY {
        Sf2Zone { root_override: root_in(g.amount), ..zone }
    } else {
        zone
    }
}

fn set(zone: &mut Sf2Zone, g: RawGenerator)
    ensures
        *final(zone) == zone_set(*old(zone), g),
{
    match g.code {
        START_ADDRS_OFFSET => zone.offset = number_of(g.amount),
        END_ADDRS_OFFSET => zone.end_offset = number_of(g.amount),
        STARTLOOP_ADDRS_OFFSET => zone.loop_start_offset = number_of(g.amount),
        ENDLOOP_ADDRS_OFFSET => zone.loop_end_offset = number_of(g.amount),
        START_ADDRS_COARSE_OFFSET => zone.offset_coarse = number_of(g.amount),
        INITIAL_FILTER_FC => zone.cutoff = number_of(g.amount),
        INITIAL_FILTER_Q => zone.resonance = number_of(g.amount),
        END_ADDRS_COARSE_OFFSET => zone.end_offset_coarse = number_of(g.amount),
        PAN => zone.pan = number_of(g.amount),
        DELAY_VOL_ENV => zone.env_delay = number_of(g.amount),
        ATTACK_VOL_ENV => zone.env_attack = number_of(g.amount),
        HOLD_VOL_ENV => zone.env_hold = number_of(g.amount),
        DECAY_VOL_ENV => zone.env_decay = number_of(g.amount),
        SUSTAIN_VOL_ENV => zone.env_sustain = number_of(g.amount),
        RELEASE_VOL_ENV => zone.env_release = number_of(g.amount),
        KEYNUM_TO_VOL_ENV_HOLD => zone.keynum_to_vol_env_hold = number_of(g.amount),
        KEYNUM_TO_VOL_ENV_DECAY => zone.keynum_to_vol_env_decay = number_of(g.amount),
        INSTRUMENT => zone.index = index_of(g.amount),
        KEY_RANGE => zone.keyrange = range_of(g.amount),
        VEL_RANGE => zone.velrange = range_of(g.amount),
        STARTLOOP_ADDRS_COARSE_OFFSET => zone.loop_start_offset_coarse = number_of(g.amount),
        KEYNUM => zone.fixed_key = byte_of(g.amount),
        VELOCITY => zone.fixed_velocity = byte_of(g.amount),
        INITIAL_ATTENUATION => zone.attenuation = number_of(g.amount),
        ENDLOOP_ADDRS_COARSE_OFFSET => zone.loop_end_offset_coarse = number_of(g.amount),
        COARSE_TUNE => zone.coarse_tune = number_of(g.amount),
        FINE_TUNE => zone.fine_tune = number_of(g.amount),
        SAMPLE_ID => zone.index = index_of(g.amount),
        SAMPLE_MODES => zone.loop_mode = mode_of(g.amount),
        SCALE_TUNING => zone.scale_tuning = number_of(g.amount),
        EXCLUSIVE_CLASS => zone.exclusive_class = class_of(g.amount),
        OVERRIDING_ROOT_KEY => zone.root_override = root_of(g.amount),
        _ => {},
    }
}

/// A zone after some generators.
pub open spec fn generated<M>(zone: Sf2Zone<M>, g: Seq<RawGenerator>) -> Sf2Zone<M>
    decreases g.len(),
{
    if g.len() == 0 {
        zone
    } else {
        zone_set(generated(zone, g.drop_last()), g.last())
    }
}

/// A zone that says nothing.
pub open spec fn silent_zone<M>(note_modulators: M) -> Sf2Zone<M> {
    Sf2Zone {
        index: None,
        keyrange: None,
        velrange: None,
        fixed_key: None,
        fixed_velocity: None,
        offset: None,
        offset_coarse: None,
        end_offset: None,
        end_offset_coarse: None,
        loop_start_offset: None,
        loop_start_offset_coarse: None,
        loop_end_offset: None,
        loop_end_offset_coarse: None,
        loop_mode: None,
        root_override: None,
        pan: None,
        attenuation: None,
        cutoff: None,
        resonance: None,
        fine_tune: None,
        coarse_tune: None,
        scale_tuning: None,
        exclusive_class: None,
        env_delay: None,
        env_attack: None,
        env_hold: None,
        env_decay: None,
        env_sustain: None,
        env_release: None,
        keynum_to_vol_env_hold: None,
        keynum_to_vol_env_decay: None,
        note_modulators,
    }
}

fn new_zone() -> (r: Sf2Zone)
    ensures
        r == silent_zone(r.note_modulators),
        r.note_modulators@ == Seq::<Sf2NoteModulator>::empty(),
{
    Sf2Zone {
        index: None,
        keyrange: None,
        velrange: None,
        fixed_key: None,
        fixed_velocity: None,
        offset: None,
        offset_coarse: None,
        end_offset: None,
        end_offset_coarse: None,
        loop_start_offset: None,
        loop_start_offset_coarse: None,
        loop_end_offset: None,
        loop_end_offset_coarse: None,
        loop_mode: None,
        root_override: None,
        pan: None,
        attenuation: None,
        cutoff: None,
        resonance: None,
        fine_tune: None,
        coarse_tune: None,
        scale_tuning: None,
        exclusive_class: None,
        env_delay: None,
        env_attack: None,
        env_hold: None,
        env_decay: None,
        env_sustain: None,
        env_release: None,
        keynum_to_vol_env_hold: None,
        keynum_to_vol_env_decay: None,
        note_modulators: Vec::new(),
    }
}

/// The note modulators of a zone.
pub open spec fn modulators_in(zones: Seq<RawZoneModel>, i: int) -> Seq<Sf2NoteModulator> {
    note_modulators(zones[i].modulators)
}

/// The first zone names neither an instrument nor a sample: what it says holds for all
/// the others.
pub open spec fn first_is_shared(zones: Seq<RawZoneModel>) -> bool {
    zones.len() > 0 && generated(
        silent_zone(Seq::<Sf2NoteModulator>::empty()),
        zones[0].generators,
    ).index is None
}

/// What a zone says, after what the first one says for all.
pub open spec fn zone_parsed(zones: Seq<RawZoneModel>, i: int) -> Sf2ZoneModel {
    if first_is_shared(zones) && i > 0 {
        generated(
            generated(
                silent_zone(modulators_in(zones, 0) + modulators_in(zones, i)),
                zones[0].generators,
            ),
            zones[i].generators,
        )
    } else {
        generated(silent_zone(modulators_in(zones, i)), zones[i].generators)
    }
}

/// What the zones of a preset or of an instrument say. A first zone that is shared is not
/// among them.
pub open spec fn zones_parsed(zones: Seq<RawZoneModel>) -> Seq<Sf2ZoneModel> {
    if first_is_shared(zones) {
        Seq::new((zones.len() - 1) as nat, |i: int| zone_parsed(zones, i + 1))
    } else {
        Seq::new(zones.len(), |i: int| zone_parsed(zones, i))
    }
}

/// A zone with other modulators.
pub open spec fn with_modulators<M, N>(zone: Sf2Zone<M>, note_modulators: N) -> Sf2Zone<N> {
    Sf2Zone {
        index: zone.index,
        keyrange: zone.keyrange,
        velrange: zone.velrange,
        fixed_key: zone.fixed_key,
        fixed_velocity: zone.fixed_velocity,
        offset: zone.offset,
        offset_coarse: zone.offset_coarse,
        end_offset: zone.end_offset,
        end_offset_coarse: zone.end_offset_coarse,
        loop_start_offset: zone.loop_start_offset,
        loop_start_offset_coarse: zone.loop_start_offset_coarse,
        loop_end_offset: zone.loop_end_offset,
        loop_end_offset_coarse: zone.loop_end_offset_coarse,
        loop_mode: zone.loop_mode,
        root_override: zone.root_override,
        pan: zone.pan,
        attenuation: zone.attenuation,
        cutoff: zone.cutoff,
        resonance: zone.resonance,
        fine_tune: zone.fine_tune,
        coarse_tune: zone.coarse_tune,
        scale_tuning: zone.scale_tuning,
        exclusive_class: zone.exclusive_class,
        env_delay: zone.env_delay,
        env_attack: zone.env_attack,
        env_hold: zone.env_hold,
        env_decay: zone.env_decay,
        env_sustain: zone.env_sustain,
        env_release: zone.env_release,
        keynum_to_vol_env_hold: zone.keynum_to_vol_env_hold,
        keynum_to_vol_env_decay: zone.keynum_to_vol_env_decay,
        note_modulators,
    }
}

/// Generators have nothing to do with modulators.
proof fn generators_leave_modulators<M, N>(zone: Sf2Zone<M>, m: N, g: Seq<RawGenerator>)
    ensures
        generated(with_modulators(zone, m), g) == with_modulators(generated(zone, g), m),
        generated(zone, g).note_modulators == zone.note_modulators,
    decreases g.len(),
{
    if g.len() > 0 {
        generators_leave_modulators(zone, m, g.drop_last());
    }
}

fn apply_generators(zone: &mut Sf2Zone, g: &Vec<RawGenerator>)
    ensures
        *final(zone) == generated(*old(zone), g@),
{
    let mut i: usize = 0;
    let ghost before = *zone;
    assert(g@.take(0) =~= Seq::empty());
    while i < g.len()
        invariant
            i <= g.len(),
            *zone == generated(before, g@.take(i as int)),
        decreases g.len() - i,
    {
        assert(g@.take(i + 1).drop_last() =~= g@.take(i as int));
        set(zone, g[i]);
        i = i + 1;
    }
    assert(g@.take(i as int) =~= g@);
}

fn add_modulators(zone: &mut Sf2Zone, zones: &Vec<RawZone>, i: usize)
    requires
        i < zones.len(),
    ensures
        final(zone)@ == with_modulators(
            old(zone)@,
            old(zone)@.note_modulators + modulators_in(zones.deep_view(), i as int),
        ),
{
    let modulators = &zones[i].modulators;
    let ghost before = zone@;
    assert(zones.deep_view()[i as int] == zones@[i as int].deep_view());
    let mut j: usize = 0;
    assert(modulators@.take(0) =~= Seq::empty());
    assert(zone@ =~= with_modulators(
        before,
        before.note_modulators + note_modulators(modulators@.take(0)),
    ));
    while j < modulators.len()
        invariant
            j <= modulators.len(),
            zone@ == with_modulators(
                before,
                before.note_modulators + note_modulators(modulators@.take(j as int)),
            ),
        decreases modulators.len() - j,
    {
        assert(modulators@.take(j + 1).drop_last() =~= modulators@.take(j as int));
        if let Some(m) = Sf2NoteModulator::parse(&modulators[j]) {
            zone.note_modulators.push(m);
        }
        j = j + 1;
        assert(zone@ =~= with_modulators(
            before,
            before.note_modulators + note_modulators(modulators@.take(j as int)),
        ));
    }
    assert(modulators@.take(j as int) =~= modulators@);
}

fn is_shared(zones: &Vec<RawZone>) -> (r: bool)
    ensures
        r == first_is_shared(zones.deep_view()),
{
    if zones.len() == 0 {
        return false;
    }
    let mut zone = new_zone();
    let ghost empty = zone;
    apply_generators(&mut zone, &zones[0].generators);
    proof {
        let none = Seq::<Sf2NoteModulator>::empty();
        generators_leave_modulators(empty, none, zones@[0].generators@);
        assert(with_modulators(empty, none) == silent_zone(none));
        assert(zones.deep_view()[0] == zones@[0].deep_view());
    }
    zone.index.is_none()
}

fn parse_zone(zones: &Vec<RawZone>, i: usize, shared: bool) -> (r: Sf2Zone)
    requires
        i < zones.len(),
        shared == first_is_shared(zones.deep_view()),
    ensures
        r@ == zone_parsed(zones.deep_view(), i as int),
{
    let ghost models = zones.deep_view();
    let ghost none = Seq::<Sf2NoteModulator>::empty();
    let mut zone = new_zone();
    let ghost empty = zone;
    let ghost mut first = Seq::<RawGenerator>::empty();
    let ghost mut all = none;
    if shared && i > 0 {
        apply_generators(&mut zone, &zones[0].generators);
        proof {
            first = zones@[0].generators@;
            all = modulators_in(models, 0);
            assert(models[0] == zones@[0].deep_view());
        }
    }
    apply_generators(&mut zone, &zones[i].generators);
    let ghost made = zone;
    proof {
        generators_leave_modulators(empty, none, first);
        generators_leave_modulators(generated(empty, first), none, zones@[i as int].generators@);
    }
    if shared && i > 0 {
        add_modulators(&mut zone, zones, 0);
    }
    assert(zone@ =~= with_modulators(made, all));
    add_modulators(&mut zone, zones, i);
    proof {
        let own = modulators_in(models, i as int);
        let m = all + own;
        assert(zone@ =~= with_modulators(made, m));
        assert(models[i as int] == zones@[i as int].deep_view());
        generators_leave_modulators(empty, m, first);
        generators_leave_modulators(generated(empty, first), m, zones@[i as int].generators@);
        assert(with_modulators(empty, m) == silent_zone(m));
        if !(shared && i > 0) {
            assert(m =~= own);
        }
    }
    zone
}

fn parse_zones(zones: &Vec<RawZone>) -> (r: Vec<Sf2Zone>)
    ensures
        zone_models(r@) == zones_parsed(zones.deep_view()),
{
    let shared = is_shared(zones);
    let start: usize = if shared {
        1
    } else {
        0
    };
    let ghost all = zones_parsed(zones.deep_view());
    let mut out: Vec<Sf2Zone> = Vec::new();
    let mut i: usize = start;
    assert(zone_models(out@) =~= all.take(0));
    while i < zones.len()
        invariant
            start <= i <= zones.len(),
            shared == first_is_shared(zones.deep_view()),
            start == (if shared {
                1int
            } else {
                0
            }),
            all == zones_parsed(zones.deep_view()),
            zone_models(out@) == all.take(i - start),
        decreases zones.len() - i,
    {
        let zone = parse_zone(zones, i, shared);
        let ghost before = zone_models(out@);
        out.push(zone);
        assert(zone_models(out@) =~= before.push(zone@));
        i = i + 1;
        assert(zone_models(out@) =~= all.take(i - start));
    }
    assert(all.take(i - start) =~= all);
    out
}

impl Sf2ParsedPreset {
    /// Reads the zones of presets.
    pub fn parse_presets(presets: &Vec<RawPreset>) -> (r: Vec<Sf2ParsedPreset>)
        ensures
            r.len() == presets.len(),
            forall|i: int|
                0 <= i < r.len() ==> (#[trigger] r@[i]).bank == presets@[i].bank && r@[i].preset
                    == presets@[i].preset && zone_models(r@[i].zones@) == zones_parsed(
                    presets@[i].zones.deep_view(),
                ),
    {
        let mut out: Vec<Sf2ParsedPreset> = Vec::new();
        let mut i: usize = 0;
        while i < presets.len()
            invariant
                i <= presets.len(),
                out.len() == i,
                forall|k: int|
                    0 <= k < i ==> (#[trigger] out@[k]).bank == presets@[k].bank && out@[k].preset
                        == presets@[k].preset && zone_models(out@[k].zones@) == zones_parsed(
                        presets@[k].zones.deep_view(),
                    ),
            decreases presets.len() - i,
        {
            let p = &presets[i];
            out.push(
                Sf2ParsedPreset { bank: p.bank, preset: p.preset, zones: parse_zones(&p.zones) },
            );
            i = i + 1;
        }
        out
    }
}

impl Sf2Instrument {
    /// Reads the zones of instruments.
    pub fn parse_instruments(instruments: &Vec<RawInstrument>) -> (r: Vec<Sf2Instrument>)
        ensures
            r.len() == instruments.len(),
            forall|i: int|
                0 <= i < r.len() ==> zone_models((#[trigger] r@[i]).regions@) == zones_parsed(
                    instruments@[i].zones.deep_view(),
                ),
    {
        let mut out: Vec<Sf2Instrument> = Vec::new();
        let mut i: usize = 0;
        while i < instruments.len()
            invariant
                i <= instruments.len(),
                out.len() == i,
                forall|k: int|
                    0 <= k < i ==> zone_models((#[trigger] out@[k]).regions@) == zones_parsed(
                        instruments@[k].zones.deep_view(),
                    ),
            decreases instruments.len() - i,
        {
            out.push(Sf2Instrument { regions: parse_zones(&instruments[i].zones) });
            i = i + 1;
        }
        out
    }
}

/// Two generators set the same value of a zone.
pub open spec fn same_value(a: u16, b: u16) -> bool {
    a == b || (a == INSTRUMENT && b == SAMPLE_ID) || (a == SAMPLE_ID && b == INSTRUMENT)
}

proof fn other_values_stay<M>(zone: Sf2Zone<M>, a: RawGenerator, b: RawGenerator)
    requires
        !same_value(a.code, b.code),
        zone_set(zone, a) == zone,
    ensures
        zone_set(zone_set(zone, b), a) == zone_set(zone, b),
{
}

proof fn last_generator_holds<M>(zone: Sf2Zone<M>, g: Seq<RawGenerator>, k: int)
    requires
        0 <= k < g.len(),
        forall|j: int| k < j < g.len() ==> !same_value(g[k].code, (#[trigger] g[j]).code),
    ensures
        zone_set(generated(zone, g), g[k]) == generated(zone, g),
    decreases g.len(),
{
    if k < g.len() - 1 {
        last_generator_holds(zone, g.drop_last(), k);
        other_values_stay(generated(zone, g.drop_last()), g[k], g.last());
    }
}

/// What a zone says itself goes before what the first zone says for all: the last of its
/// own generators that sets a value has set it in the end.
pub proof fn own_generators_go_first(zones: Seq<RawZoneModel>, i: int, k: int)
    requires
        0 <= i < zones.len(),
        0 <= k < zones[i].generators.len(),
        forall|j: int|
            k < j < zones[i].generators.len() ==> !same_value(
                zones[i].generators[k].code,
                (#[trigger] zones[i].generators[j]).code,
            ),
    ensures
        zone_set(zone_parsed(zones, i), zones[i].generators[k]) == zone_parsed(zones, i),
{
    let m = if first_is_shared(zones) && i > 0 {
        generated(
            silent_zone(modulators_in(zones, 0) + modulators_in(zones, i)),
            zones[0].generators,
        )
    } else {
        silent_zone(modulators_in(zones, i))
    };
    last_generator_holds(m, zones[i].generators, k);
}

proof fn values_stay_unless_set<M>(zone: Sf2Zone<M>, a: RawGenerator, g: Seq<RawGenerator>)
    requires
        zone_set(zone, a) == zone,
        forall|j: int| 0 <= j < g.len() ==> !same_value(a.code, (#[trigger] g[j]).code),
    ensures
        zone_set(generated(zone, g), a) == generated(zone, g),
    decreases g.len(),
{
    if g.len() > 0 {
        values_stay_unless_set(zone, a, g.drop_last());
        other_values_stay(generated(zone, g.drop_last()), a, g.last());
    }
}

/// What the first zone says for all holds in every zone that does not say otherwise.
pub proof fn shared_generators_hold_elsewhere(zones: Seq<RawZoneModel>, i: int, k: int)
    requires
        first_is_shared(zones),
        0 < i < zones.len(),
        0 <= k < zones[0].generators.len(),
        forall|j: int|
            k < j < zones[0].generators.len() ==> !same_value(
                zones[0].generators[k].code,
                (#[trigger] zones[0].generators[j]).code,
            ),
        forall|j: int|
            0 <= j < zones[i].generators.len() ==> !same_value(
                zones[0].generators[k].code,
                (#[trigger] zones[i].generators[j]).code,
            ),
    ensures
        zone_set(zone_parsed(zones, i), zones[0].generators[k]) == zone_parsed(zones, i),
{
    let silent = silent_zone(modulators_in(zones, 0) + modulators_in(zones, i));
    last_generator_holds(silent, zones[0].generators, k);
    values_stay_unless_set(
        generated(silent, zones[0].generators),
        zones[0].generators[k],
        zones[i].generators,
    );
}

} // verus!
