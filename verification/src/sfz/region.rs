//! The regions of an SFZ instrument: how the opcodes of nested headers come
//! together into the settings of each region.

use super::parse::{AriaOnccBase, CcInit, SfzAmpegEnvelope, SfzNumber, SfzOpcode, XfCurve};
use crate::{FilterType, LoopMode};
use vstd::prelude::*;

verus! {

/// What makes a region sound: a key going down, or a key coming up.
#[derive(Debug, Clone, Copy, PartialEq, Eq, Structural)]
pub enum TriggerType {
    Attack,
    Release,
}

impl Default for TriggerType {
    fn default() -> (r: Self)
        ensures
            r == TriggerType::Attack,
    {
        TriggerType::Attack
    }
}

/// The number that a literal writes, held to no range.
pub open spec fn literal(text: Seq<char>) -> SfzNumber<Seq<char>> {
    SfzNumber { text, clamp: None }
}

fn literal_number(text: &str) -> (r: SfzNumber)
    ensures
        r.deep_view() == literal(text@),
{
    SfzNumber { text: text.to_owned(), clamp: None }
}

/// The place of controller `cc` in a list of entries by controller; the length
/// of the list where it has none.
pub open spec fn position<V>(list: Seq<(u8, V)>, cc: u8) -> int
    decreases list.len(),
{
    if list.len() == 0 || list[0].0 == cc {
        0
    } else {
        1 + position(list.drop_first(), cc)
    }
}

/// The list with the entry of controller `cc` set to `v`: in its place where it
/// has one, else at the end.
pub open spec fn upserted<V>(list: Seq<(u8, V)>, cc: u8, v: V) -> Seq<(u8, V)> {
    let at = position(list, cc);
    if at < list.len() {
        list.update(at, (cc, v))
    } else {
        list.push((cc, v))
    }
}

/// The entry of controller `cc`.
pub open spec fn entry<V>(list: Seq<(u8, V)>, cc: u8) -> Option<V> {
    let at = position(list, cc);
    if at < list.len() {
        Some(list[at].1)
    } else {
        None
    }
}

/// No controller has two entries.
pub open spec fn one_entry_each<V>(list: Seq<(u8, V)>) -> bool {
    forall|i: int, j: int| 0 <= i < j < list.len() ==> list[i].0 != list[j].0
}

/// The place of a controller is the first entry that bears its number.
pub proof fn position_is_first<V>(list: Seq<(u8, V)>, cc: u8, at: int)
    requires
        0 <= at <= list.len(),
        forall|j: int| 0 <= j < at ==> list[j].0 != cc,
        at < list.len() ==> list[at].0 == cc,
    ensures
        position(list, cc) == at,
    decreases list.len(),
{
    if at > 0 {
        assert(list[0].0 != cc);
        let rest = list.drop_first();
        assert forall|j: int| 0 <= j < at - 1 implies rest[j].0 != cc by {
            assert(rest[j] == list[j + 1]);
        }
        position_is_first(rest, cc, at - 1);
    }
}

/// The place of a controller lies in the list or at its end, and no entry before
/// it bears its number.
pub proof fn position_bounds<V>(list: Seq<(u8, V)>, cc: u8)
    ensures
        0 <= position(list, cc) <= list.len(),
        position(list, cc) < list.len() ==> list[position(list, cc)].0 == cc,
        forall|j: int| 0 <= j < position(list, cc) ==> list[j].0 != cc,
    decreases list.len(),
{
    if list.len() > 0 && list[0].0 != cc {
        let rest = list.drop_first();
        position_bounds(rest, cc);
        assert forall|j: int| 0 <= j < position(list, cc) implies list[j].0 != cc by {
            if j > 0 {
                assert(rest[j - 1] == list[j]);
            }
        }
    }
}

/// The last assignment to a controller is the one that counts, and it leaves the
/// entries of the other controllers as they were.
pub proof fn last_assignment_wins<V>(list: Seq<(u8, V)>, cc: u8, v: V, other: u8)
    ensures
        entry(upserted(list, cc, v), cc) == Some(v),
        other != cc ==> entry(upserted(list, cc, v), other) == entry(list, other),
        one_entry_each(list) ==> one_entry_each(upserted(list, cc, v)),
{
    let next = upserted(list, cc, v);
    position_bounds(list, cc);
    position_is_first(next, cc, position(list, cc));
    if other != cc {
        position_bounds(list, other);
        let at = position(list, other);
        if at < list.len() {
            position_is_first(next, other, at);
        } else {
            position_is_first(next, other, next.len() as int);
        }
    }
}

/// Sets the entry of a controller.
pub fn upsert<V: DeepView>(list: &mut Vec<(u8, V)>, cc: u8, v: V)
    ensures
        final(list).deep_view() == upserted(old(list).deep_view(), cc, v.deep_view()),
{
    let ghost before = list.deep_view();
    let mut i: usize = 0;
    while i < list.len()
        invariant
            i <= list.len(),
            list.deep_view() == before,
            before == old(list).deep_view(),
            forall|j: int| 0 <= j < i ==> before[j].0 != cc,
        decreases list.len() - i,
    {
        assert(before[i as int].0 == list@[i as int].0);
        if list[i].0 == cc {
            proof {
                position_is_first(before, cc, i as int);
            }
            list.set(i, (cc, v));
            assert(list.deep_view() =~= before.update(i as int, (cc, v.deep_view())));
            return;
        }
        i = i + 1;
    }
    proof {
        position_is_first(before, cc, i as int);
    }
    list.push((cc, v));
    assert(list.deep_view() =~= before.push((cc, v.deep_view())));
}

/// The place of a controller in a list.
pub fn place<V: DeepView>(list: &Vec<(u8, V)>, cc: u8) -> (r: usize)
    ensures
        r == position(list.deep_view(), cc),
        r <= list.len(),
{
    let mut i: usize = 0;
    while i < list.len()
        invariant
            i <= list.len(),
            forall|j: int| 0 <= j < i ==> list.deep_view()[j].0 != cc,
        decreases list.len() - i,
    {
        assert(list.deep_view()[i as int].0 == list@[i as int].0);
        if list[i].0 == cc {
            proof {
                position_is_first(list.deep_view(), cc, i as int);
            }
            return i;
        }
        i = i + 1;
    }
    proof {
        position_is_first(list.deep_view(), cc, i as int);
    }
    i
}

fn copy_numbers(list: &Vec<(u8, SfzNumber)>) -> (r: Vec<(u8, SfzNumber)>)
    ensures
        r.deep_view() == list.deep_view(),
{
    let mut out: Vec<(u8, SfzNumber)> = Vec::new();
    let mut i: usize = 0;
    while i < list.len()
        invariant
            i <= list.len(),
            out@ == list@.take(i as int),
        decreases list.len() - i,
    {
        out.push((list[i].0, list[i].1.clone()));
        i = i + 1;
        assert(list@.take(i as int) =~= list@.take(i - 1).push(list@[i - 1]));
    }
    assert(out@ =~= list@);
    assert(out.deep_view() =~= list.deep_view());
    out
}

fn copy_bindings(list: &Vec<(u8, (SfzNumber, CcInit))>) -> (r: Vec<(u8, (SfzNumber, CcInit))>)
    ensures
        r.deep_view() == list.deep_view(),
{
    let mut out: Vec<(u8, (SfzNumber, CcInit))> = Vec::new();
    let mut i: usize = 0;
    while i < list.len()
        invariant
            i <= list.len(),
            out@ == list@.take(i as int),
        decreases list.len() - i,
    {
        out.push((list[i].0, (list[i].1.0.clone(), list[i].1.1.clone())));
        i = i + 1;
        assert(list@.take(i as int) =~= list@.take(i - 1).push(list@[i - 1]));
    }
    assert(out@ =~= list@);
    assert(out.deep_view() =~= list.deep_view());
    out
}

fn copy_contributions(list: &Vec<(SfzNumber, CcInit)>) -> (r: Vec<(SfzNumber, CcInit)>)
    ensures
        r.deep_view() == list.deep_view(),
{
    let mut out: Vec<(SfzNumber, CcInit)> = Vec::new();
    let mut i: usize = 0;
    while i < list.len()
        invariant
            i <= list.len(),
            out@ == list@.take(i as int),
        decreases list.len() - i,
    {
        out.push((list[i].0.clone(), list[i].1.clone()));
        i = i + 1;
        assert(list@.take(i as int) =~= list@.take(i - 1).push(list@[i - 1]));
    }
    assert(out@ =~= list@);
    assert(out.deep_view() =~= list.deep_view());
    out
}

fn copy_ranges(list: &Vec<(u8, (u8, u8))>) -> (r: Vec<(u8, (u8, u8))>)
    ensures
        r.deep_view() == list.deep_view(),
{
    let mut out: Vec<(u8, (u8, u8))> = Vec::new();
    let mut i: usize = 0;
    while i < list.len()
        invariant
            i <= list.len(),
            out@ == list@.take(i as int),
        decreases list.len() - i,
    {
        out.push(list[i]);
        i = i + 1;
        assert(list@.take(i as int) =~= list@.take(i - 1).push(list@[i - 1]));
    }
    assert(out@ =~= list@);
    assert(out.deep_view() =~= list.deep_view());
    out
}

fn copy_curves(list: &Vec<(u8, u8)>) -> (r: Vec<(u8, u8)>)
    ensures
        r.deep_view() == list.deep_view(),
{
    let mut out: Vec<(u8, u8)> = Vec::new();
    let mut i: usize = 0;
    while i < list.len()
        invariant
            i <= list.len(),
            out@ == list@.take(i as int),
        decreases list.len() - i,
    {
        out.push(list[i]);
        i = i + 1;
        assert(list@.take(i as int) =~= list@.take(i - 1).push(list@[i - 1]));
    }
    assert(out@ =~= list@);
    assert(out.deep_view() =~= list.deep_view());
    out
}

fn copy_text(text: &Option<String>) -> (r: Option<String>)
    ensures
        r == *text,
{
    match text {
        Some(s) => Some(s.clone()),
        None => None,
    }
}

fn copy_number(number: &Option<SfzNumber>) -> (r: Option<SfzNumber>)
    ensures
        r == *number,
{
    match number {
        Some(n) => Some(n.clone()),
        None => None,
    }
}

/// One setting of the amplitude envelope: the number that the file assigns, and
/// what controllers have added to it since. Its value is the number plus, one
/// after the other, each full swing times its fraction.
#[derive(Debug)]
pub struct AmpegValue {
    pub base: SfzNumber,
    pub added: Vec<(SfzNumber, CcInit)>,
}

/// The model of an envelope setting.
#[verifier::ext_equal]
pub struct AmpegModel {
    pub base: SfzNumber<Seq<char>>,
    pub added: Seq<(SfzNumber<Seq<char>>, CcInit<Seq<char>>)>,
}

impl DeepView for AmpegValue {
    type V = AmpegModel;

    open spec fn deep_view(&self) -> AmpegModel {
        AmpegModel { base: self.base.deep_view(), added: self.added.deep_view() }
    }
}

/// A setting that a file assigns, with nothing added to it.
pub open spec fn assigned(number: SfzNumber<Seq<char>>) -> AmpegModel {
    AmpegModel { base: number, added: Seq::empty() }
}

impl AmpegModel {
    /// The setting with the contribution of a controller added.
    pub open spec fn plus(
        self,
        value: SfzNumber<Seq<char>>,
        init: CcInit<Seq<char>>,
    ) -> AmpegModel {
        AmpegModel { base: self.base, added: self.added.push((value, init)) }
    }
}

impl AmpegValue {
    /// A setting with nothing added to it.
    pub fn new(base: SfzNumber) -> (r: AmpegValue)
        ensures
            r.deep_view() == assigned(base.deep_view()),
    {
        let added: Vec<(SfzNumber, CcInit)> = Vec::new();
        assert(added.deep_view() =~= Seq::empty());
        AmpegValue { base, added }
    }

    /// Adds the contribution of a controller.
    pub fn contribute(&mut self, value: SfzNumber, init: CcInit)
        ensures
            final(self).deep_view() == old(self).deep_view().plus(
                value.deep_view(),
                init.deep_view(),
            ),
    {
        let ghost before = self.added.deep_view();
        self.added.push((value, init));
        assert(self.added.deep_view() =~= before.push((value.deep_view(), init.deep_view())));
    }
}

impl Clone for AmpegValue {
    fn clone(&self) -> (r: AmpegValue)
        ensures
            r.deep_view() == self.deep_view(),
    {
        AmpegValue { base: self.base.clone(), added: copy_contributions(&self.added) }
    }
}

/// The amplitude envelope of a region.
#[derive(Debug)]
pub struct AmpegEnvelopeParams<A = AmpegValue> {
    pub ampeg_start: A,
    pub ampeg_delay: A,
    pub ampeg_attack: A,
    pub ampeg_hold: A,
    pub ampeg_decay: A,
    pub ampeg_sustain: A,
    pub ampeg_release: A,
    pub ampeg_vel2release: A,
}

impl DeepView for AmpegEnvelopeParams {
    type V = AmpegEnvelopeParams<AmpegModel>;

    open spec fn deep_view(&self) -> AmpegEnvelopeParams<AmpegModel> {
        AmpegEnvelopeParams {
            ampeg_start: self.ampeg_start.deep_view(),
            ampeg_delay: self.ampeg_delay.deep_view(),
            ampeg_attack: self.ampeg_attack.deep_view(),
            ampeg_hold: self.ampeg_hold.deep_view(),
            ampeg_decay: self.ampeg_decay.deep_view(),
            ampeg_sustain: self.ampeg_sustain.deep_view(),
            ampeg_release: self.ampeg_release.deep_view(),
            ampeg_vel2release: self.ampeg_vel2release.deep_view(),
        }
    }
}

/// The envelope of a region that sets none.
pub open spec fn default_envelope() -> AmpegEnvelopeParams<AmpegModel> {
    AmpegEnvelopeParams {
        ampeg_start: assigned(literal("0.0"@)),
        ampeg_delay: assigned(literal("0.0"@)),
        ampeg_attack: assigned(literal("0.01"@)),
        ampeg_hold: assigned(literal("0.0"@)),
        ampeg_decay: assigned(literal("0.0"@)),
        ampeg_sustain: assigned(literal("100.0"@)),
        ampeg_release: assigned(literal("0.01"@)),
        ampeg_vel2release: assigned(literal("0.0"@)),
    }
}

/// The envelope after an assignment.
pub open spec fn envelope_assigned(
    env: AmpegEnvelopeParams<AmpegModel>,
    flag: SfzAmpegEnvelope<Seq<char>>,
) -> AmpegEnvelopeParams<AmpegModel> {
    match flag {
        SfzAmpegEnvelope::AmpegStart(v) => AmpegEnvelopeParams { ampeg_start: assigned(v), ..env },
        SfzAmpegEnvelope::AmpegDelay(v) => AmpegEnvelopeParams { ampeg_delay: assigned(v), ..env },
        SfzAmpegEnvelope::AmpegAttack(v) => AmpegEnvelopeParams {
            ampeg_attack: assigned(v),
            ..env
        },
        SfzAmpegEnvelope::AmpegHold(v) => AmpegEnvelopeParams { ampeg_hold: assigned(v), ..env },
        SfzAmpegEnvelope::AmpegDecay(v) => AmpegEnvelopeParams { ampeg_decay: assigned(v), ..env },
        SfzAmpegEnvelope::AmpegSustain(v) => AmpegEnvelopeParams {
            ampeg_sustain: assigned(v),
            ..env
        },
        SfzAmpegEnvelope::AmpegRelease(v) => AmpegEnvelopeParams {
            ampeg_release: assigned(v),
            ..env
        },
        SfzAmpegEnvelope::AmpegVel2Release(v) => AmpegEnvelopeParams {
            ampeg_vel2release: assigned(v),
            ..env
        },
    }
}

/// The envelope after the contribution of a controller to one of its stages.
pub open spec fn envelope_added(
    env: AmpegEnvelopeParams<AmpegModel>,
    base: AriaOnccBase,
    value: SfzNumber<Seq<char>>,
    init: CcInit<Seq<char>>,
) -> AmpegEnvelopeParams<AmpegModel> {
    match base {
        AriaOnccBase::AmpegStart => AmpegEnvelopeParams {
            ampeg_start: env.ampeg_start.plus(value, init),
            ..env
        },
        AriaOnccBase::AmpegDelay => AmpegEnvelopeParams {
            ampeg_delay: env.ampeg_delay.plus(value, init),
            ..env
        },
        AriaOnccBase::AmpegAttack => AmpegEnvelopeParams {
            ampeg_attack: env.ampeg_attack.plus(value, init),
            ..env
        },
        AriaOnccBase::AmpegHold => AmpegEnvelopeParams {
            ampeg_hold: env.ampeg_hold.plus(value, init),
            ..env
        },
        AriaOnccBase::AmpegDecay => AmpegEnvelopeParams {
            ampeg_decay: env.ampeg_decay.plus(value, init),
            ..env
        },
        AriaOnccBase::AmpegSustain => AmpegEnvelopeParams {
            ampeg_sustain: env.ampeg_sustain.plus(value, init),
            ..env
        },
        AriaOnccBase::AmpegRelease => AmpegEnvelopeParams {
            ampeg_release: env.ampeg_release.plus(value, init),
            ..env
        },
    }
}

impl Default for AmpegEnvelopeParams {
    fn default() -> (r: Self)
        ensures
            r.deep_view() == default_envelope(),
    {
        AmpegEnvelopeParams {
            ampeg_start: AmpegValue::new(literal_number("0.0")),
            ampeg_delay: AmpegValue::new(literal_number("0.0")),
            ampeg_attack: AmpegValue::new(literal_number("0.01")),
            ampeg_hold: AmpegValue::new(literal_number("0.0")),
            ampeg_decay: AmpegValue::new(literal_number("0.0")),
            ampeg_sustain: AmpegValue::new(literal_number("100.0")),
            ampeg_release: AmpegValue::new(literal_number("0.01")),
            ampeg_vel2release: AmpegValue::new(literal_number("0.0")),
        }
    }
}

impl AmpegEnvelopeParams {
    /// Assigns one of the settings.
    pub fn update_from_flag(&mut self, flag: SfzAmpegEnvelope)
        ensures
            final(self).deep_view() == envelope_assigned(old(self).deep_view(), flag.deep_view()),
    {
        match flag {
            SfzAmpegEnvelope::AmpegStart(v) => self.ampeg_start = AmpegValue::new(v),
            SfzAmpegEnvelope::AmpegDelay(v) => self.ampeg_delay = AmpegValue::new(v),
            SfzAmpegEnvelope::AmpegAttack(v) => self.ampeg_attack = AmpegValue::new(v),
            SfzAmpegEnvelope::AmpegHold(v) => self.ampeg_hold = AmpegValue::new(v),
            SfzAmpegEnvelope::AmpegDecay(v) => self.ampeg_decay = AmpegValue::new(v),
            SfzAmpegEnvelope::AmpegSustain(v) => self.ampeg_sustain = AmpegValue::new(v),
            SfzAmpegEnvelope::AmpegRelease(v) => self.ampeg_release = AmpegValue::new(v),
            SfzAmpegEnvelope::AmpegVel2Release(v) => self.ampeg_vel2release = AmpegValue::new(v),
        }
    }

    /// Adds the contribution of a controller to a stage.
    pub fn contribute(&mut self, base: AriaOnccBase, value: SfzNumber, init: CcInit)
        ensures
            final(self).deep_view() == envelope_added(
                old(self).deep_view(),
                base,
                value.deep_view(),
                init.deep_view(),
            ),
    {
        match base {
            AriaOnccBase::AmpegStart => self.ampeg_start.contribute(value, init),
            AriaOnccBase::AmpegDelay => self.ampeg_delay.contribute(value, init),
            AriaOnccBase::AmpegAttack => self.ampeg_attack.contribute(value, init),
            AriaOnccBase::AmpegHold => self.ampeg_hold.contribute(value, init),
            AriaOnccBase::AmpegDecay => self.ampeg_decay.contribute(value, init),
            AriaOnccBase::AmpegSustain => self.ampeg_sustain.contribute(value, init),
            AriaOnccBase::AmpegRelease => self.ampeg_release.contribute(value, init),
        }
    }
}

impl Clone for AmpegEnvelopeParams {
    fn clone(&self) -> (r: AmpegEnvelopeParams)
        ensures
            r.deep_view() == self.deep_view(),
    {
        AmpegEnvelopeParams {
            ampeg_start: self.ampeg_start.clone(),
            ampeg_delay: self.ampeg_delay.clone(),
            ampeg_attack: self.ampeg_attack.clone(),
            ampeg_hold: self.ampeg_hold.clone(),
            ampeg_decay: self.ampeg_decay.clone(),
            ampeg_sustain: self.ampeg_sustain.clone(),
            ampeg_release: self.ampeg_release.clone(),
            ampeg_vel2release: self.ampeg_vel2release.clone(),
        }
    }
}

/// The settings that a header has gathered.
#[derive(Debug)]
pub struct RegionParamsBuilder {
    pub lovel: u8,
    pub hivel: u8,
    pub lokey: i8,
    pub hikey: i8,
    pub pitch_keycenter: i8,
    pub volume: i16,
    pub pan: i8,
    pub sample: Option<String>,
    pub default_path: Option<String>,
    pub loop_mode: LoopMode,
    pub loop_start: u32,
    pub loop_end: u32,
    /// Length in seconds of the fade across the loop point.
    pub loop_crossfade: SfzNumber,
    pub amp_lfo_freq: SfzNumber,
    pub amp_lfo_depth: SfzNumber,
    /// What controllers at full swing add to the setting above; one entry for a controller.
    pub amp_lfo_freq_oncc: Vec<(u8, SfzNumber)>,
    pub amp_lfo_depth_oncc: Vec<(u8, SfzNumber)>,
    pub fil_lfo_freq: SfzNumber,
    pub fil_lfo_depth: SfzNumber,
    pub fil_lfo_freq_oncc: Vec<(u8, SfzNumber)>,
    pub fil_lfo_depth_oncc: Vec<(u8, SfzNumber)>,
    pub pan_lfo_freq: SfzNumber,
    pub pan_lfo_depth: SfzNumber,
    pub pan_lfo_freq_oncc: Vec<(u8, SfzNumber)>,
    pub pan_lfo_depth_oncc: Vec<(u8, SfzNumber)>,
    pub fileg_attack: SfzNumber,
    pub fileg_decay: SfzNumber,
    pub fileg_sustain: SfzNumber,
    pub fileg_release: SfzNumber,
    pub fileg_depth: SfzNumber,
    pub fileg_curve: Option<u8>,
    pub pitch_lfo_freq: SfzNumber,
    pub pitch_lfo_depth: SfzNumber,
    pub pitch_lfo_freq_oncc: Vec<(u8, SfzNumber)>,
    pub pitch_lfo_depth_oncc: Vec<(u8, SfzNumber)>,
    pub offset: u32,
    pub cutoff: Option<SfzNumber>,
    pub resonance: SfzNumber,
    pub amp_veltrack: SfzNumber,
    pub amp_keycenter: i8,
    pub amp_keytrack: SfzNumber,
    pub pan_veltrack: SfzNumber,
    pub pan_keycenter: i8,
    pub pan_keytrack: SfzNumber,
    pub fil_veltrack: i16,
    pub fil_keycenter: i8,
    pub fil_keytrack: i16,
    pub filter_type: FilterType,
    pub ampeg_envelope: AmpegEnvelopeParams,
    pub tune: i16,
    pub trigger: TriggerType,
    pub polyphony: Option<u32>,
    /// The choke group of the region, where one is named.
    pub choke_group: Option<u32>,
    /// The choke group that the region silences, where one is named.
    pub choke_off_by: Option<u32>,
    pub seq_length: u32,
    pub seq_position: u32,
    /// The values of a controller between which the region sounds.
    pub cc_ranges: Vec<(u8, (u8, u8))>,
    pub volume_oncc: Vec<(u8, SfzNumber)>,
    pub cutoff_oncc: Vec<(u8, SfzNumber)>,
    pub resonance_oncc: Vec<(u8, SfzNumber)>,
    pub pan_oncc: Vec<(u8, SfzNumber)>,
    /// Controllers of an envelope stage: the full swing, and the fraction at load.
    pub ampeg_attack_oncc: Vec<(u8, (SfzNumber, CcInit))>,
    pub ampeg_decay_oncc: Vec<(u8, (SfzNumber, CcInit))>,
    pub ampeg_sustain_oncc: Vec<(u8, (SfzNumber, CcInit))>,
    pub ampeg_release_oncc: Vec<(u8, (SfzNumber, CcInit))>,
    pub tune_oncc: Vec<(u8, SfzNumber)>,
    /// The curve tables through which controllers act.
    pub volume_curvecc: Vec<(u8, u8)>,
    pub cutoff_curvecc: Vec<(u8, u8)>,
    pub resonance_curvecc: Vec<(u8, u8)>,
    pub pan_curvecc: Vec<(u8, u8)>,
    pub sw_last: Option<i8>,
    pub sw_default: Option<i8>,
    pub sw_lokey: Option<i8>,
    pub sw_hikey: Option<i8>,
    /// The controller values over which the region fades in.
    pub xfin_cc: Vec<(u8, (u8, u8))>,
    /// The controller values over which the region fades out.
    pub xfout_cc: Vec<(u8, (u8, u8))>,
    pub xf_cccurve: XfCurve,
}

/// The model of the settings that a header has gathered.
#[verifier::ext_equal]
pub struct RegionModel {
    pub lovel: u8,
    pub hivel: u8,
    pub lokey: i8,
    pub hikey: i8,
    pub pitch_keycenter: i8,
    pub volume: i16,
    pub pan: i8,
    pub sample: Option<Seq<char>>,
    pub default_path: Option<Seq<char>>,
    pub loop_mode: LoopMode,
    pub loop_start: u32,
    pub loop_end: u32,
    pub loop_crossfade: SfzNumber<Seq<char>>,
    pub amp_lfo_freq: SfzNumber<Seq<char>>,
    pub amp_lfo_depth: SfzNumber<Seq<char>>,
    pub amp_lfo_freq_oncc: Seq<(u8, SfzNumber<Seq<char>>)>,
    pub amp_lfo_depth_oncc: Seq<(u8, SfzNumber<Seq<char>>)>,
    pub fil_lfo_freq: SfzNumber<Seq<char>>,
    pub fil_lfo_depth: SfzNumber<Seq<char>>,
    pub fil_lfo_freq_oncc: Seq<(u8, SfzNumber<Seq<char>>)>,
    pub fil_lfo_depth_oncc: Seq<(u8, SfzNumber<Seq<char>>)>,
    pub pan_lfo_freq: SfzNumber<Seq<char>>,
    pub pan_lfo_depth: SfzNumber<Seq<char>>,
    pub pan_lfo_freq_oncc: Seq<(u8, SfzNumber<Seq<char>>)>,
    pub pan_lfo_depth_oncc: Seq<(u8, SfzNumber<Seq<char>>)>,
    pub fileg_attack: SfzNumber<Seq<char>>,
    pub fileg_decay: SfzNumber<Seq<char>>,
    pub fileg_sustain: SfzNumber<Seq<char>>,
    pub fileg_release: SfzNumber<Seq<char>>,
    pub fileg_depth: SfzNumber<Seq<char>>,
    pub fileg_curve: Option<u8>,
    pub pitch_lfo_freq: SfzNumber<Seq<char>>,
    pub pitch_lfo_depth: SfzNumber<Seq<char>>,
    pub pitch_lfo_freq_oncc: Seq<(u8, SfzNumber<Seq<char>>)>,
    pub pitch_lfo_depth_oncc: Seq<(u8, SfzNumber<Seq<char>>)>,
    pub offset: u32,
    pub cutoff: Option<SfzNumber<Seq<char>>>,
    pub resonance: SfzNumber<Seq<char>>,
    pub amp_veltrack: SfzNumber<Seq<char>>,
    pub amp_keycenter: i8,
    pub amp_keytrack: SfzNumber<Seq<char>>,
    pub pan_veltrack: SfzNumber<Seq<char>>,
    pub pan_keycenter: i8,
    pub pan_keytrack: SfzNumber<Seq<char>>,
    pub fil_veltrack: i16,
    pub fil_keycenter: i8,
    pub fil_keytrack: i16,
    pub filter_type: FilterType,
    pub ampeg_envelope: AmpegEnvelopeParams<AmpegModel>,
    pub tune: i16,
    pub trigger: TriggerType,
    pub polyphony: Option<u32>,
    pub choke_group: Option<u32>,
    pub choke_off_by: Option<u32>,
    pub seq_length: u32,
    pub seq_position: u32,
    pub cc_ranges: Seq<(u8, (u8, u8))>,
    pub volume_oncc: Seq<(u8, SfzNumber<Seq<char>>)>,
    pub cutoff_oncc: Seq<(u8, SfzNumber<Seq<char>>)>,
    pub resonance_oncc: Seq<(u8, SfzNumber<Seq<char>>)>,
    pub pan_oncc: Seq<(u8, SfzNumber<Seq<char>>)>,
    pub ampeg_attack_oncc: Seq<(u8, (SfzNumber<Seq<char>>, CcInit<Seq<char>>))>,
    pub ampeg_decay_oncc: Seq<(u8, (SfzNumber<Seq<char>>, CcInit<Seq<char>>))>,
    pub ampeg_sustain_oncc: Seq<(u8, (SfzNumber<Seq<char>>, CcInit<Seq<char>>))>,
    pub ampeg_release_oncc: Seq<(u8, (SfzNumber<Seq<char>>, CcInit<Seq<char>>))>,
    pub tune_oncc: Seq<(u8, SfzNumber<Seq<char>>)>,
    pub volume_curvecc: Seq<(u8, u8)>,
    pub cutoff_curvecc: Seq<(u8, u8)>,
    pub resonance_curvecc: Seq<(u8, u8)>,
    pub pan_curvecc: Seq<(u8, u8)>,
    pub sw_last: Option<i8>,
    pub sw_default: Option<i8>,
    pub sw_lokey: Option<i8>,
    pub sw_hikey: Option<i8>,
    pub xfin_cc: Seq<(u8, (u8, u8))>,
    pub xfout_cc: Seq<(u8, (u8, u8))>,
    pub xf_cccurve: XfCurve,
}

impl DeepView for RegionParamsBuilder {
    type V = RegionModel;

    open spec fn deep_view(&self) -> RegionModel {
        RegionModel {
            lovel: self.lovel,
            hivel: self.hivel,
            lokey: self.lokey,
            hikey: self.hikey,
            pitch_keycenter: self.pitch_keycenter,
            volume: self.volume,
            pan: self.pan,
            sample: self.sample.deep_view(),
            default_path: self.default_path.deep_view(),
            loop_mode: self.loop_mode,
            loop_start: self.loop_start,
            loop_end: self.loop_end,
            loop_crossfade: self.loop_crossfade.deep_view(),
            amp_lfo_freq: self.amp_lfo_freq.deep_view(),
            amp_lfo_depth: self.amp_lfo_depth.deep_view(),
            amp_lfo_freq_oncc: self.amp_lfo_freq_oncc.deep_view(),
            amp_lfo_depth_oncc: self.amp_lfo_depth_oncc.deep_view(),
            fil_lfo_freq: self.fil_lfo_freq.deep_view(),
            fil_lfo_depth: self.fil_lfo_depth.deep_view(),
            fil_lfo_freq_oncc: self.fil_lfo_freq_oncc.deep_view(),
            fil_lfo_depth_oncc: self.fil_lfo_depth_oncc.deep_view(),
            pan_lfo_freq: self.pan_lfo_freq.deep_view(),
            pan_lfo_depth: self.pan_lfo_depth.deep_view(),
            pan_lfo_freq_oncc: self.pan_lfo_freq_oncc.deep_view(),
            pan_lfo_depth_oncc: self.pan_lfo_depth_oncc.deep_view(),
            fileg_attack: self.fileg_attack.deep_view(),
            fileg_decay: self.fileg_decay.deep_view(),
            fileg_sustain: self.fileg_sustain.deep_view(),
            fileg_release: self.fileg_release.deep_view(),
            fileg_depth: self.fileg_depth.deep_view(),
            fileg_curve: self.fileg_curve,
            pitch_lfo_freq: self.pitch_lfo_freq.deep_view(),
            pitch_lfo_depth: self.pitch_lfo_depth.deep_view(),
            pitch_lfo_freq_oncc: self.pitch_lfo_freq_oncc.deep_view(),
            pitch_lfo_depth_oncc: self.pitch_lfo_depth_oncc.deep_view(),
            offset: self.offset,
            cutoff: self.cutoff.deep_view(),
            resonance: self.resonance.deep_view(),
            amp_veltrack: self.amp_veltrack.deep_view(),
            amp_keycenter: self.amp_keycenter,
            amp_keytrack: self.amp_keytrack.deep_view(),
            pan_veltrack: self.pan_veltrack.deep_view(),
            pan_keycenter: self.pan_keycenter,
            pan_keytrack: self.pan_keytrack.deep_view(),
            fil_veltrack: self.fil_veltrack,
            fil_keycenter: self.fil_keycenter,
            fil_keytrack: self.fil_keytrack,
            filter_type: self.filter_type,
            ampeg_envelope: self.ampeg_envelope.deep_view(),
            tune: self.tune,
            trigger: self.trigger,
            polyphony: self.polyphony,
            choke_group: self.choke_group,
            choke_off_by: self.choke_off_by,
            seq_length: self.seq_length,
            seq_position: self.seq_position,
            cc_ranges: self.cc_ranges.deep_view(),
            volume_oncc: self.volume_oncc.deep_view(),
            cutoff_oncc: self.cutoff_oncc.deep_view(),
            resonance_oncc: self.resonance_oncc.deep_view(),
            pan_oncc: self.pan_oncc.deep_view(),
            ampeg_attack_oncc: self.ampeg_attack_oncc.deep_view(),
            ampeg_decay_oncc: self.ampeg_decay_oncc.deep_view(),
            ampeg_sustain_oncc: self.ampeg_sustain_oncc.deep_view(),
            ampeg_release_oncc: self.ampeg_release_oncc.deep_view(),
            tune_oncc: self.tune_oncc.deep_view(),
            volume_curvecc: self.volume_curvecc.deep_view(),
            cutoff_curvecc: self.cutoff_curvecc.deep_view(),
            resonance_curvecc: self.resonance_curvecc.deep_view(),
            pan_curvecc: self.pan_curvecc.deep_view(),
            sw_last: self.sw_last,
            sw_default: self.sw_default,
            sw_lokey: self.sw_lokey,
            sw_hikey: self.sw_hikey,
            xfin_cc: self.xfin_cc.deep_view(),
            xfout_cc: self.xfout_cc.deep_view(),
            xf_cccurve: self.xf_cccurve,
        }
    }
}

/// The settings of a header in which nothing is set.
pub open spec fn default_region() -> RegionModel {
    RegionModel {
        lovel: 0,
        hivel: 127,
        lokey: 0,
        hikey: 127,
        pitch_keycenter: 60,
        volume: 0,
        pan: 0,
        sample: None,
        default_path: None,
        loop_mode: LoopMode::NoLoop,
        loop_start: 0,
        loop_end: 0,
        loop_crossfade: literal("0.0"@),
        amp_lfo_freq: literal("0.0"@),
        amp_lfo_depth: literal("0.0"@),
        amp_lfo_freq_oncc: Seq::empty(),
        amp_lfo_depth_oncc: Seq::empty(),
        fil_lfo_freq: literal("0.0"@),
        fil_lfo_depth: literal("0.0"@),
        fil_lfo_freq_oncc: Seq::empty(),
        fil_lfo_depth_oncc: Seq::empty(),
        pan_lfo_freq: literal("0.0"@),
        pan_lfo_depth: literal("0.0"@),
        pan_lfo_freq_oncc: Seq::empty(),
        pan_lfo_depth_oncc: Seq::empty(),
        fileg_attack: literal("0.0"@),
        fileg_decay: literal("0.0"@),
        fileg_sustain: literal("1.0"@),
        fileg_release: literal("0.0"@),
        fileg_depth: literal("0.0"@),
        fileg_curve: None,
        pitch_lfo_freq: literal("0.0"@),
        pitch_lfo_depth: literal("0.0"@),
        pitch_lfo_freq_oncc: Seq::empty(),
        pitch_lfo_depth_oncc: Seq::empty(),
        offset: 0,
        cutoff: None,
        resonance: literal("0.0"@),
        amp_veltrack: literal("100.0"@),
        amp_keycenter: 60,
        amp_keytrack: literal("0.0"@),
        pan_veltrack: literal("0.0"@),
        pan_keycenter: 60,
        pan_keytrack: literal("0.0"@),
        fil_veltrack: 0,
        fil_keycenter: 60,
        fil_keytrack: 0,
        filter_type: FilterType::LowPass,
        ampeg_envelope: default_envelope(),
        tune: 0,
        trigger: TriggerType::Attack,
        polyphony: None,
        choke_group: None,
        choke_off_by: None,
        seq_length: 0,
        seq_position: 0,
        cc_ranges: Seq::empty(),
        volume_oncc: Seq::empty(),
        cutoff_oncc: Seq::empty(),
        resonance_oncc: Seq::empty(),
        pan_oncc: Seq::empty(),
        ampeg_attack_oncc: Seq::empty(),
        ampeg_decay_oncc: Seq::empty(),
        ampeg_sustain_oncc: Seq::empty(),
        ampeg_release_oncc: Seq::empty(),
        tune_oncc: Seq::empty(),
        volume_curvecc: Seq::empty(),
        cutoff_curvecc: Seq::empty(),
        resonance_curvecc: Seq::empty(),
        pan_curvecc: Seq::empty(),
        sw_last: None,
        sw_default: None,
        sw_lokey: None,
        sw_hikey: None,
        xfin_cc: Seq::empty(),
        xfout_cc: Seq::empty(),
        xf_cccurve: XfCurve::Gain,
    }
}

impl Default for RegionParamsBuilder {
    fn default() -> (r: Self)
        ensures
            r.deep_view() == default_region(),
    {
        let r = RegionParamsBuilder {
            lovel: 0,
            hivel: 127,
            lokey: 0,
            hikey: 127,
            pitch_keycenter: 60,
            volume: 0,
            pan: 0,
            sample: None,
            default_path: None,
            loop_mode: LoopMode::NoLoop,
            loop_start: 0,
            loop_end: 0,
            loop_crossfade: literal_number("0.0"),
            amp_lfo_freq: literal_number("0.0"),
            amp_lfo_depth: literal_number("0.0"),
            amp_lfo_freq_oncc: Vec::new(),
            amp_lfo_depth_oncc: Vec::new(),
            fil_lfo_freq: literal_number("0.0"),
            fil_lfo_depth: literal_number("0.0"),
            fil_lfo_freq_oncc: Vec::new(),
            fil_lfo_depth_oncc: Vec::new(),
            pan_lfo_freq: literal_number("0.0"),
            pan_lfo_depth: literal_number("0.0"),
            pan_lfo_freq_oncc: Vec::new(),
            pan_lfo_depth_oncc: Vec::new(),
            fileg_attack: literal_number("0.0"),
            fileg_decay: literal_number("0.0"),
            fileg_sustain: literal_number("1.0"),
            fileg_release: literal_number("0.0"),
            fileg_depth: literal_number("0.0"),
            fileg_curve: None,
            pitch_lfo_freq: literal_number("0.0"),
            pitch_lfo_depth: literal_number("0.0"),
            pitch_lfo_freq_oncc: Vec::new(),
            pitch_lfo_depth_oncc: Vec::new(),
            offset: 0,
            cutoff: None,
            resonance: literal_number("0.0"),
            amp_veltrack: literal_number("100.0"),
            amp_keycenter: 60,
            amp_keytrack: literal_number("0.0"),
            pan_veltrack: literal_number("0.0"),
            pan_keycenter: 60,
            pan_keytrack: literal_number("0.0"),
            fil_veltrack: 0,
            fil_keycenter: 60,
            fil_keytrack: 0,
            filter_type: FilterType::LowPass,
            ampeg_envelope: AmpegEnvelopeParams::default(),
            tune: 0,
            trigger: TriggerType::Attack,
            polyphony: None,
            choke_group: None,
            choke_off_by: None,
            seq_length: 0,
            seq_position: 0,
            cc_ranges: Vec::new(),
            volume_oncc: Vec::new(),
            cutoff_oncc: Vec::new(),
            resonance_oncc: Vec::new(),
            pan_oncc: Vec::new(),
            ampeg_attack_oncc: Vec::new(),
            ampeg_decay_oncc: Vec::new(),
            ampeg_sustain_oncc: Vec::new(),
            ampeg_release_oncc: Vec::new(),
            tune_oncc: Vec::new(),
            volume_curvecc: Vec::new(),
            cutoff_curvecc: Vec::new(),
            resonance_curvecc: Vec::new(),
            pan_curvecc: Vec::new(),
            sw_last: None,
            sw_default: None,
            sw_lokey: None,
            sw_hikey: None,
            xfin_cc: Vec::new(),
            xfout_cc: Vec::new(),
            xf_cccurve: XfCurve::Gain,
        };
        assert(r.deep_view() =~= default_region());
        r
    }
}

/// The bounds of a controller with the lower one set; a controller without
/// bounds starts from `unset`.
pub open spec fn lower_set(list: Seq<(u8, (u8, u8))>, cc: u8, v: u8, unset: (u8, u8)) -> Seq<
    (u8, (u8, u8)),
> {
    let bounds = match entry(list, cc) {
        Some(b) => b,
        None => unset,
    };
    upserted(list, cc, (v, bounds.1))
}

/// The bounds of a controller with the upper one set; a controller without
/// bounds starts from `unset`.
pub open spec fn upper_set(list: Seq<(u8, (u8, u8))>, cc: u8, v: u8, unset: (u8, u8)) -> Seq<
    (u8, (u8, u8)),
> {
    let bounds = match entry(list, cc) {
        Some(b) => b,
        None => unset,
    };
    upserted(list, cc, (bounds.0, v))
}

fn bounds_of(list: &Vec<(u8, (u8, u8))>, cc: u8, unset: (u8, u8)) -> (r: (u8, u8))
    ensures
        r == (match entry(list.deep_view(), cc) {
            Some(b) => b,
            None => unset,
        }),
{
    let at = place(list, cc);
    if at < list.len() {
        assert(list.deep_view()[at as int].1 == list@[at as int].1);
        list[at].1
    } else {
        unset
    }
}

fn set_lower(list: &mut Vec<(u8, (u8, u8))>, cc: u8, v: u8, unset: (u8, u8))
    ensures
        final(list).deep_view() == lower_set(old(list).deep_view(), cc, v, unset),
{
    let bounds = bounds_of(list, cc, unset);
    upsert(list, cc, (v, bounds.1));
}

fn set_upper(list: &mut Vec<(u8, (u8, u8))>, cc: u8, v: u8, unset: (u8, u8))
    ensures
        final(list).deep_view() == upper_set(old(list).deep_view(), cc, v, unset),
{
    let bounds = bounds_of(list, cc, unset);
    upsert(list, cc, (bounds.0, v));
}

/// The settings of a header after one more opcode. The opcodes of controllers
/// at load, of envelope stages moved by controllers and of curve blocks are
/// not settings of a header.
#[verifier::opaque]
pub open spec fn region_updated(b: RegionModel, flag: SfzOpcode<Seq<char>>) -> RegionModel {
    match flag {
        SfzOpcode::Key(v) => RegionModel { lokey: v, hikey: v, pitch_keycenter: v, ..b },
        SfzOpcode::Lovel(v) => RegionModel { lovel: v, ..b },
        SfzOpcode::Hivel(v) => RegionModel { hivel: v, ..b },
        SfzOpcode::Lokey(v) => RegionModel { lokey: v, ..b },
        SfzOpcode::Hikey(v) => RegionModel { hikey: v, ..b },
        SfzOpcode::PitchKeycenter(v) => RegionModel { pitch_keycenter: v, ..b },
        SfzOpcode::Volume(v) => RegionModel { volume: v, ..b },
        SfzOpcode::Pan(v) => RegionModel { pan: v, ..b },
        SfzOpcode::LoopMode(v) => RegionModel { loop_mode: v, ..b },
        SfzOpcode::LoopStart(v) => RegionModel { loop_start: v, ..b },
        SfzOpcode::LoopEnd(v) => RegionModel { loop_end: v, ..b },
        SfzOpcode::LoopCrossfade(v) => RegionModel { loop_crossfade: v, ..b },
        SfzOpcode::AmpLfoFreq(v) => RegionModel { amp_lfo_freq: v, ..b },
        SfzOpcode::AmpLfoDepth(v) => RegionModel { amp_lfo_depth: v, ..b },
        SfzOpcode::FilLfoFreq(v) => RegionModel { fil_lfo_freq: v, ..b },
        SfzOpcode::FilLfoDepth(v) => RegionModel { fil_lfo_depth: v, ..b },
        SfzOpcode::PanLfoFreq(v) => RegionModel { pan_lfo_freq: v, ..b },
        SfzOpcode::PanLfoDepth(v) => RegionModel { pan_lfo_depth: v, ..b },
        SfzOpcode::FilegAttack(v) => RegionModel { fileg_attack: v, ..b },
        SfzOpcode::FilegDecay(v) => RegionModel { fileg_decay: v, ..b },
        SfzOpcode::FilegSustain(v) => RegionModel { fileg_sustain: v, ..b },
        SfzOpcode::FilegRelease(v) => RegionModel { fileg_release: v, ..b },
        SfzOpcode::FilegDepth(v) => RegionModel { fileg_depth: v, ..b },
        SfzOpcode::PitchLfoFreq(v) => RegionModel { pitch_lfo_freq: v, ..b },
        SfzOpcode::PitchLfoDepth(v) => RegionModel { pitch_lfo_depth: v, ..b },
        SfzOpcode::Offset(v) => RegionModel { offset: v, ..b },
        SfzOpcode::Resonance(v) => RegionModel { resonance: v, ..b },
        SfzOpcode::AmpVeltrack(v) => RegionModel { amp_veltrack: v, ..b },
        SfzOpcode::AmpKeytrack(v) => RegionModel { amp_keytrack: v, ..b },
        SfzOpcode::AmpKeycenter(v) => RegionModel { amp_keycenter: v, ..b },
        SfzOpcode::PanVeltrack(v) => RegionModel { pan_veltrack: v, ..b },
        SfzOpcode::PanKeytrack(v) => RegionModel { pan_keytrack: v, ..b },
        SfzOpcode::PanKeycenter(v) => RegionModel { pan_keycenter: v, ..b },
        SfzOpcode::FilVeltrack(v) => RegionModel { fil_veltrack: v, ..b },
        SfzOpcode::FilKeytrack(v) => RegionModel { fil_keytrack: v, ..b },
        SfzOpcode::FilKeycenter(v) => RegionModel { fil_keycenter: v, ..b },
        SfzOpcode::FilterType(v) => RegionModel { filter_type: v, ..b },
        SfzOpcode::Tune(v) => RegionModel { tune: v, ..b },
        SfzOpcode::Trigger(v) => RegionModel { trigger: v, ..b },
        SfzOpcode::SeqLength(v) => RegionModel { seq_length: v, ..b },
        SfzOpcode::SeqPosition(v) => RegionModel { seq_position: v, ..b },
        SfzOpcode::XfCcCurve(v) => RegionModel { xf_cccurve: v, ..b },
        SfzOpcode::Sample(v) => RegionModel { sample: Some(v), ..b },
        SfzOpcode::DefaultPath(v) => RegionModel { default_path: Some(v), ..b },
        SfzOpcode::Cutoff(v) => RegionModel { cutoff: Some(v), ..b },
        SfzOpcode::FilegCurve(v) => RegionModel { fileg_curve: Some(v), ..b },
        SfzOpcode::Polyphony(v) => RegionModel { polyphony: Some(v), ..b },
        SfzOpcode::SwLast(v) => RegionModel { sw_last: Some(v), ..b },
        SfzOpcode::SwDefault(v) => RegionModel { sw_default: Some(v), ..b },
        SfzOpcode::SwLokey(v) => RegionModel { sw_lokey: Some(v), ..b },
        SfzOpcode::SwHikey(v) => RegionModel { sw_hikey: Some(v), ..b },
        SfzOpcode::AmpegEnvelope(v) => RegionModel {
            ampeg_envelope: envelope_assigned(b.ampeg_envelope, v),
            ..b
        },
        SfzOpcode::SfzGroup(v) => if v > 0 {
            RegionModel { choke_group: Some(v), ..b }
        } else {
            b
        },
        SfzOpcode::SfzOffBy(v) => if v > 0 {
            RegionModel { choke_off_by: Some(v), ..b }
        } else {
            b
        },
        SfzOpcode::AmpLfoFreqOncc(cc, v) => RegionModel {
            amp_lfo_freq_oncc: upserted(b.amp_lfo_freq_oncc, cc, v),
            ..b
        },
        SfzOpcode::AmpLfoDepthOncc(cc, v) => RegionModel {
            amp_lfo_depth_oncc: upserted(b.amp_lfo_depth_oncc, cc, v),
            ..b
        },
        SfzOpcode::FilLfoFreqOncc(cc, v) => RegionModel {
            fil_lfo_freq_oncc: upserted(b.fil_lfo_freq_oncc, cc, v),
            ..b
        },
        SfzOpcode::FilLfoDepthOncc(cc, v) => RegionModel {
            fil_lfo_depth_oncc: upserted(b.fil_lfo_depth_oncc, cc, v),
            ..b
        },
        SfzOpcode::PanLfoFreqOncc(cc, v) => RegionModel {
            pan_lfo_freq_oncc: upserted(b.pan_lfo_freq_oncc, cc, v),
            ..b
        },
        SfzOpcode::PanLfoDepthOncc(cc, v) => RegionModel {
            pan_lfo_depth_oncc: upserted(b.pan_lfo_depth_oncc, cc, v),
            ..b
        },
        SfzOpcode::PitchLfoFreqOncc(cc, v) => RegionModel {
            pitch_lfo_freq_oncc: upserted(b.pitch_lfo_freq_oncc, cc, v),
            ..b
        },
        SfzOpcode::PitchLfoDepthOncc(cc, v) => RegionModel {
            pitch_lfo_depth_oncc: upserted(b.pitch_lfo_depth_oncc, cc, v),
            ..b
        },
        SfzOpcode::VolumeOncc(cc, v) => RegionModel {
            volume_oncc: upserted(b.volume_oncc, cc, v),
            ..b
        },
        SfzOpcode::CutoffOncc(cc, v) => RegionModel {
            cutoff_oncc: upserted(b.cutoff_oncc, cc, v),
            ..b
        },
        SfzOpcode::ResonanceOncc(cc, v) => RegionModel {
            resonance_oncc: upserted(b.resonance_oncc, cc, v),
            ..b
        },
        SfzOpcode::PanOncc(cc, v) => RegionModel {
            pan_oncc: upserted(b.pan_oncc, cc, v),
            ..b
        },
        SfzOpcode::TuneOncc(cc, v) => RegionModel {
            tune_oncc: upserted(b.tune_oncc, cc, v),
            ..b
        },
        SfzOpcode::VolumeCurvecc(cc, v) => RegionModel {
            volume_curvecc: upserted(b.volume_curvecc, cc, v),
            ..b
        },
        SfzOpcode::CutoffCurvecc(cc, v) => RegionModel {
            cutoff_curvecc: upserted(b.cutoff_curvecc, cc, v),
            ..b
        },
        SfzOpcode::ResonanceCurvecc(cc, v) => RegionModel {
            resonance_curvecc: upserted(b.resonance_curvecc, cc, v),
            ..b
        },
        SfzOpcode::PanCurvecc(cc, v) => RegionModel {
            pan_curvecc: upserted(b.pan_curvecc, cc, v),
            ..b
        },
        SfzOpcode::LoCc(cc, v) => RegionModel {
            cc_ranges: lower_set(b.cc_ranges, cc, v, (0, 127)),
            ..b
        },
        SfzOpcode::HiCc(cc, v) => RegionModel {
            cc_ranges: upper_set(b.cc_ranges, cc, v, (0, 127)),
            ..b
        },
        SfzOpcode::XfInLoCc(cc, v) => RegionModel {
            xfin_cc: lower_set(b.xfin_cc, cc, v, (0, 0)),
            ..b
        },
        SfzOpcode::XfInHiCc(cc, v) => RegionModel {
            xfin_cc: upper_set(b.xfin_cc, cc, v, (0, 0)),
            ..b
        },
        SfzOpcode::XfOutLoCc(cc, v) => RegionModel {
            xfout_cc: lower_set(b.xfout_cc, cc, v, (0, 0)),
            ..b
        },
        SfzOpcode::XfOutHiCc(cc, v) => RegionModel {
            xfout_cc: upper_set(b.xfout_cc, cc, v, (0, 0)),
            ..b
        },
        SfzOpcode::AriaCcInit(_, _) => b,
        SfzOpcode::AriaOncc { base: _, cc: _, value: _ } => b,
        SfzOpcode::CurveIndex(_) => b,
        SfzOpcode::CurvePoint(_, _) => b,
    }
}

impl Clone for RegionParamsBuilder {
    fn clone(&self) -> (r: RegionParamsBuilder)
        ensures
            r.deep_view() == self.deep_view(),
    {
        RegionParamsBuilder {
            lovel: self.lovel,
            hivel: self.hivel,
            lokey: self.lokey,
            hikey: self.hikey,
            pitch_keycenter: self.pitch_keycenter,
            volume: self.volume,
            pan: self.pan,
            sample: copy_text(&self.sample),
            default_path: copy_text(&self.default_path),
            loop_mode: self.loop_mode,
            loop_start: self.loop_start,
            loop_end: self.loop_end,
            loop_crossfade: self.loop_crossfade.clone(),
            amp_lfo_freq: self.amp_lfo_freq.clone(),
            amp_lfo_depth: self.amp_lfo_depth.clone(),
            amp_lfo_freq_oncc: copy_numbers(&self.amp_lfo_freq_oncc),
            amp_lfo_depth_oncc: copy_numbers(&self.amp_lfo_depth_oncc),
            fil_lfo_freq: self.fil_lfo_freq.clone(),
            fil_lfo_depth: self.fil_lfo_depth.clone(),
            fil_lfo_freq_oncc: copy_numbers(&self.fil_lfo_freq_oncc),
            fil_lfo_depth_oncc: copy_numbers(&self.fil_lfo_depth_oncc),
            pan_lfo_freq: self.pan_lfo_freq.clone(),
            pan_lfo_depth: self.pan_lfo_depth.clone(),
            pan_lfo_freq_oncc: copy_numbers(&self.pan_lfo_freq_oncc),
            pan_lfo_depth_oncc: copy_numbers(&self.pan_lfo_depth_oncc),
            fileg_attack: self.fileg_attack.clone(),
            fileg_decay: self.fileg_decay.clone(),
            fileg_sustain: self.fileg_sustain.clone(),
            fileg_release: self.fileg_release.clone(),
            fileg_depth: self.fileg_depth.clone(),
            fileg_curve: self.fileg_curve,
            pitch_lfo_freq: self.pitch_lfo_freq.clone(),
            pitch_lfo_depth: self.pitch_lfo_depth.clone(),
            pitch_lfo_freq_oncc: copy_numbers(&self.pitch_lfo_freq_oncc),
            pitch_lfo_depth_oncc: copy_numbers(&self.pitch_lfo_depth_oncc),
            offset: self.offset,
            cutoff: copy_number(&self.cutoff),
            resonance: self.resonance.clone(),
            amp_veltrack: self.amp_veltrack.clone(),
            amp_keycenter: self.amp_keycenter,
            amp_keytrack: self.amp_keytrack.clone(),
            pan_veltrack: self.pan_veltrack.clone(),
            pan_keycenter: self.pan_keycenter,
            pan_keytrack: self.pan_keytrack.clone(),
            fil_veltrack: self.fil_veltrack,
            fil_keycenter: self.fil_keycenter,
            fil_keytrack: self.fil_keytrack,
            filter_type: self.filter_type,
            ampeg_envelope: self.ampeg_envelope.clone(),
            tune: self.tune,
            trigger: self.trigger,
            polyphony: self.polyphony,
            choke_group: self.choke_group,
            choke_off_by: self.choke_off_by,
            seq_length: self.seq_length,
            seq_position: self.seq_position,
            cc_ranges: copy_ranges(&self.cc_ranges),
            volume_oncc: copy_numbers(&self.volume_oncc),
            cutoff_oncc: copy_numbers(&self.cutoff_oncc),
            resonance_oncc: copy_numbers(&self.resonance_oncc),
            pan_oncc: copy_numbers(&self.pan_oncc),
            ampeg_attack_oncc: copy_bindings(&self.ampeg_attack_oncc),
            ampeg_decay_oncc: copy_bindings(&self.ampeg_decay_oncc),
            ampeg_sustain_oncc: copy_bindings(&self.ampeg_sustain_oncc),
            ampeg_release_oncc: copy_bindings(&self.ampeg_release_oncc),
            tune_oncc: copy_numbers(&self.tune_oncc),
            volume_curvecc: copy_curves(&self.volume_curvecc),
            cutoff_curvecc: copy_curves(&self.cutoff_curvecc),
            resonance_curvecc: copy_curves(&self.resonance_curvecc),
            pan_curvecc: copy_curves(&self.pan_curvecc),
            sw_last: self.sw_last,
            sw_default: self.sw_default,
            sw_lokey: self.sw_lokey,
            sw_hikey: self.sw_hikey,
            xfin_cc: copy_ranges(&self.xfin_cc),
            xfout_cc: copy_ranges(&self.xfout_cc),
            xf_cccurve: self.xf_cccurve,
        }
    }
}

impl RegionParamsBuilder {
    /// Takes one more opcode in.
    #[verifier::rlimit(50)]
    pub fn update_from_flag(&mut self, flag: SfzOpcode)
        ensures
            final(self).deep_view() == region_updated(old(self).deep_view(), flag.deep_view()),
    {
        reveal(region_updated);
        match flag {
            SfzOpcode::Key(v) => {
                self.lokey = v;
                self.hikey = v;
                self.pitch_keycenter = v;
            },
            SfzOpcode::Lovel(v) => self.lovel = v,
            SfzOpcode::Hivel(v) => self.hivel = v,
            SfzOpcode::Lokey(v) => self.lokey = v,
            SfzOpcode::Hikey(v) => self.hikey = v,
            SfzOpcode::PitchKeycenter(v) => self.pitch_keycenter = v,
            SfzOpcode::Volume(v) => self.volume = v,
            SfzOpcode::Pan(v) => self.pan = v,
            SfzOpcode::LoopMode(v) => self.loop_mode = v,
            SfzOpcode::LoopStart(v) => self.loop_start = v,
            SfzOpcode::LoopEnd(v) => self.loop_end = v,
            SfzOpcode::LoopCrossfade(v) => self.loop_crossfade = v,
            SfzOpcode::AmpLfoFreq(v) => self.amp_lfo_freq = v,
            SfzOpcode::AmpLfoDepth(v) => self.amp_lfo_depth = v,
            SfzOpcode::FilLfoFreq(v) => self.fil_lfo_freq = v,
            SfzOpcode::FilLfoDepth(v) => self.fil_lfo_depth = v,
            SfzOpcode::PanLfoFreq(v) => self.pan_lfo_freq = v,
            SfzOpcode::PanLfoDepth(v) => self.pan_lfo_depth = v,
            SfzOpcode::FilegAttack(v) => self.fileg_attack = v,
            SfzOpcode::FilegDecay(v) => self.fileg_decay = v,
            SfzOpcode::FilegSustain(v) => self.fileg_sustain = v,
            SfzOpcode::FilegRelease(v) => self.fileg_release = v,
            SfzOpcode::FilegDepth(v) => self.fileg_depth = v,
            SfzOpcode::PitchLfoFreq(v) => self.pitch_lfo_freq = v,
            SfzOpcode::PitchLfoDepth(v) => self.pitch_lfo_depth = v,
            SfzOpcode::Offset(v) => self.offset = v,
            SfzOpcode::Resonance(v) => self.resonance = v,
            SfzOpcode::AmpVeltrack(v) => self.amp_veltrack = v,
            SfzOpcode::AmpKeytrack(v) => self.amp_keytrack = v,
            SfzOpcode::AmpKeycenter(v) => self.amp_keycenter = v,
            SfzOpcode::PanVeltrack(v) => self.pan_veltrack = v,
            SfzOpcode::PanKeytrack(v) => self.pan_keytrack = v,
            SfzOpcode::PanKeycenter(v) => self.pan_keycenter = v,
            SfzOpcode::FilVeltrack(v) => self.fil_veltrack = v,
            SfzOpcode::FilKeytrack(v) => self.fil_keytrack = v,
            SfzOpcode::FilKeycenter(v) => self.fil_keycenter = v,
            SfzOpcode::FilterType(v) => self.filter_type = v,
            SfzOpcode::Tune(v) => self.tune = v,
            SfzOpcode::Trigger(v) => self.trigger = v,
            SfzOpcode::SeqLength(v) => self.seq_length = v,
            SfzOpcode::SeqPosition(v) => self.seq_position = v,
            SfzOpcode::XfCcCurve(v) => self.xf_cccurve = v,
            SfzOpcode::Sample(v) => self.sample = Some(v),
            SfzOpcode::DefaultPath(v) => self.default_path = Some(v),
            SfzOpcode::Cutoff(v) => self.cutoff = Some(v),
            SfzOpcode::FilegCurve(v) => self.fileg_curve = Some(v),
            SfzOpcode::Polyphony(v) => self.polyphony = Some(v),
            SfzOpcode::SwLast(v) => self.sw_last = Some(v),
            SfzOpcode::SwDefault(v) => self.sw_default = Some(v),
            SfzOpcode::SwLokey(v) => self.sw_lokey = Some(v),
            SfzOpcode::SwHikey(v) => self.sw_hikey = Some(v),
            SfzOpcode::AmpegEnvelope(v) => self.ampeg_envelope.update_from_flag(v),
            SfzOpcode::SfzGroup(v) => {
                if v > 0 {
                    self.choke_group = Some(v);
                }
            },
            SfzOpcode::SfzOffBy(v) => {
                if v > 0 {
                    self.choke_off_by = Some(v);
                }
            },
            SfzOpcode::AmpLfoFreqOncc(cc, v) => upsert(&mut self.amp_lfo_freq_oncc, cc, v),
            SfzOpcode::AmpLfoDepthOncc(cc, v) => upsert(&mut self.amp_lfo_depth_oncc, cc, v),
            SfzOpcode::FilLfoFreqOncc(cc, v) => upsert(&mut self.fil_lfo_freq_oncc, cc, v),
            SfzOpcode::FilLfoDepthOncc(cc, v) => upsert(&mut self.fil_lfo_depth_oncc, cc, v),
            SfzOpcode::PanLfoFreqOncc(cc, v) => upsert(&mut self.pan_lfo_freq_oncc, cc, v),
            SfzOpcode::PanLfoDepthOncc(cc, v) => upsert(&mut self.pan_lfo_depth_oncc, cc, v),
            SfzOpcode::PitchLfoFreqOncc(cc, v) => upsert(&mut self.pitch_lfo_freq_oncc, cc, v),
            SfzOpcode::PitchLfoDepthOncc(cc, v) => upsert(&mut self.pitch_lfo_depth_oncc, cc, v),
            SfzOpcode::VolumeOncc(cc, v) => upsert(&mut self.volume_oncc, cc, v),
            SfzOpcode::CutoffOncc(cc, v) => upsert(&mut self.cutoff_oncc, cc, v),
            SfzOpcode::ResonanceOncc(cc, v) => upsert(&mut self.resonance_oncc, cc, v),
            SfzOpcode::PanOncc(cc, v) => upsert(&mut self.pan_oncc, cc, v),
            SfzOpcode::TuneOncc(cc, v) => upsert(&mut self.tune_oncc, cc, v),
            SfzOpcode::VolumeCurvecc(cc, v) => upsert(&mut self.volume_curvecc, cc, v),
            SfzOpcode::CutoffCurvecc(cc, v) => upsert(&mut self.cutoff_curvecc, cc, v),
            SfzOpcode::ResonanceCurvecc(cc, v) => upsert(&mut self.resonance_curvecc, cc, v),
            SfzOpcode::PanCurvecc(cc, v) => upsert(&mut self.pan_curvecc, cc, v),
            SfzOpcode::LoCc(cc, v) => set_lower(&mut self.cc_ranges, cc, v, (0, 127)),
            SfzOpcode::HiCc(cc, v) => set_upper(&mut self.cc_ranges, cc, v, (0, 127)),
            SfzOpcode::XfInLoCc(cc, v) => set_lower(&mut self.xfin_cc, cc, v, (0, 0)),
            SfzOpcode::XfInHiCc(cc, v) => set_upper(&mut self.xfin_cc, cc, v, (0, 0)),
            SfzOpcode::XfOutLoCc(cc, v) => set_lower(&mut self.xfout_cc, cc, v, (0, 0)),
            SfzOpcode::XfOutHiCc(cc, v) => set_upper(&mut self.xfout_cc, cc, v, (0, 0)),
            SfzOpcode::AriaCcInit(_, _) => {},
            SfzOpcode::AriaOncc { base: _, cc: _, value: _ } => {},
            SfzOpcode::CurveIndex(_) => {},
            SfzOpcode::CurvePoint(_, _) => {},
        }
    }
}

} // verus!
